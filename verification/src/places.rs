//! Laws of the parser: what is parsed knows its place, and so does what is refused.
use crate::ast::{
    BindingV, ExprKindV, ExprV, FieldDefV, FunctionV, MatchArmV, MethodSigV, ParamV, Span,
    TopLevelV, TypeV, VariantDefV,
};
use crate::grammar::{FrontendErrorV, ParsedV, ParseErrorV};
use crate::grammar;
use crate::lexer::{SpannedV, TokenV};
use crate::lexer;
use vstd::prelude::*;

verus! {

/// Whether a span is in a text of `len` bytes, and is not empty.
pub open spec fn in_text(s: Span, len: int) -> bool {
    s.start < s.end <= len
}

/// Whether the place of a syntax error is in the text. An error at the end has none.
pub open spec fn error_in_text(e: ParseErrorV, len: int) -> bool {
    grammar::parse_error_byte(e) matches Some(b) ==> b < len
}

/// Whether all spans in an expression are in the text.
pub open spec fn placed(e: ExprV, len: int) -> bool
    decreases e,
{
    in_text(e.span, len) && placed_kind(e.kind, len)
}

pub open spec fn placed_kind(k: ExprKindV, len: int) -> bool
    decreases k,
{
    match k {
        ExprKindV::Lit(_) => true,
        ExprKindV::Var(_) => true,
        ExprKindV::Break => true,
        ExprKindV::If { cond, then_branch, else_branch } => {
            &&& placed(*cond, len)
            &&& placed(*then_branch, len)
            &&& placed(*else_branch, len)
        },
        ExprKindV::Let { bindings, body } => placed_bindings(bindings, len) && placed(*body, len),
        ExprKindV::Do(es) => placed_all(es, len),
        ExprKindV::Cast { ty, expr } => placed(*expr, len),
        ExprKindV::Assign { name, value } => placed(*value, len),
        ExprKindV::While { cond, body } => placed(*cond, len) && placed(*body, len),
        ExprKindV::Loop { body } => placed(*body, len),
        ExprKindV::ArrayLit { elem_ty, elems } => placed_all(elems, len),
        ExprKindV::Field { base, field } => placed(*base, len),
        ExprKindV::Match { scrutinee, arms } => placed(*scrutinee, len) && placed_arms(arms, len),
        ExprKindV::Call { callee, args } => placed_all(args, len),
    }
}

pub open spec fn placed_all(es: Seq<ExprV>, len: int) -> bool
    decreases es,
{
    forall|i: int| 0 <= i < es.len() ==> placed(#[trigger] es[i], len)
}

pub open spec fn placed_bindings(bs: Seq<BindingV>, len: int) -> bool
    decreases bs,
{
    forall|i: int|
        0 <= i < bs.len() ==> in_text((#[trigger] bs[i]).span, len) && placed(bs[i].value, len)
}

pub open spec fn placed_arms(arms: Seq<MatchArmV>, len: int) -> bool
    decreases arms,
{
    forall|i: int|
        0 <= i < arms.len() ==> in_text((#[trigger] arms[i]).span, len) && placed(arms[i].body, len)
}

pub open spec fn placed_params(ps: Seq<ParamV>, len: int) -> bool {
    forall|i: int| 0 <= i < ps.len() ==> in_text((#[trigger] ps[i]).span, len)
}

pub open spec fn placed_fields(fs: Seq<FieldDefV>, len: int) -> bool {
    forall|i: int| 0 <= i < fs.len() ==> in_text((#[trigger] fs[i]).span, len)
}

pub open spec fn placed_variants(vs: Seq<VariantDefV>, len: int) -> bool {
    forall|i: int| 0 <= i < vs.len() ==> in_text((#[trigger] vs[i]).span, len)
}

pub open spec fn placed_sig(m: MethodSigV, len: int) -> bool {
    in_text(m.span, len) && placed_params(m.params, len)
}

pub open spec fn placed_sigs(ms: Seq<MethodSigV>, len: int) -> bool {
    forall|i: int| 0 <= i < ms.len() ==> placed_sig(#[trigger] ms[i], len)
}

pub open spec fn placed_function(f: FunctionV, len: int) -> bool {
    in_text(f.span, len) && placed_params(f.params, len) && placed(f.body, len)
}

pub open spec fn placed_functions(fs: Seq<FunctionV>, len: int) -> bool {
    forall|i: int| 0 <= i < fs.len() ==> placed_function(#[trigger] fs[i], len)
}

/// Whether all spans in a definition are in the text.
pub open spec fn placed_item(it: TopLevelV, len: int) -> bool {
    match it {
        TopLevelV::Function(f) => placed_function(f, len),
        TopLevelV::GenericFunction(g) => in_text(g.span, len) && placed_params(g.params, len)
            && placed(g.body, len),
        TopLevelV::Const(c) => in_text(c.span, len) && placed(c.value, len),
        TopLevelV::Extern(e) => in_text(e.span, len) && placed_params(e.params, len),
        TopLevelV::Struct(s) => in_text(s.span, len) && placed_fields(s.fields, len),
        TopLevelV::Enum(e) => in_text(e.span, len) && placed_variants(e.variants, len),
        TopLevelV::Trait(t) => in_text(t.span, len) && placed_sigs(t.methods, len),
        TopLevelV::Impl(ib) => in_text(ib.span, len) && placed_functions(ib.methods, len),
        TopLevelV::DefMacro(m) => in_text(m.span, len) && placed(m.template, len),
        TopLevelV::Module { span, .. } => in_text(span, len),
        TopLevelV::Import { span, .. } => in_text(span, len),
    }
}

pub open spec fn placed_items(items: Seq<TopLevelV>, len: int) -> bool {
    forall|i: int| 0 <= i < items.len() ==> placed_item(#[trigger] items[i], len)
}

/// Whether `start` is not behind the start of a token from place `p` on.
spec fn starts_before(t: Seq<SpannedV>, start: usize, p: nat) -> bool {
    forall|i: int| p <= i < t.len() ==> start <= (#[trigger] t[i]).span.start
}

proof fn at_eat(len: int, t: Seq<SpannedV>, p: nat, want: TokenV)
    requires
        lexer::tokens_in_order(t, 0, len),
    ensures
        match grammar::p_eat(t, p, want) {
            ParsedV::Got(x, q) => p < q <= t.len() && in_text(x, len),
            ParsedV::Bad(e, _) => error_in_text(e, len),
        },
{
}

proof fn at_name(len: int, t: Seq<SpannedV>, p: nat)
    requires
        lexer::tokens_in_order(t, 0, len),
    ensures
        match grammar::p_name(t, p) {
            ParsedV::Got(x, q) => p < q <= t.len() && in_text(x.1, len),
            ParsedV::Bad(e, _) => error_in_text(e, len),
        },
{
}

proof fn at_plain_name(len: int, t: Seq<SpannedV>, p: nat)
    requires
        lexer::tokens_in_order(t, 0, len),
    ensures
        match grammar::p_plain_name(t, p) {
            ParsedV::Got(x, q) => p < q <= t.len(),
            ParsedV::Bad(e, _) => error_in_text(e, len),
        },
{
    at_name(len, t, p);
}

proof fn at_array_len(len: int, t: Seq<SpannedV>, p: nat)
    requires
        lexer::tokens_in_order(t, 0, len),
    ensures
        match grammar::p_array_len(t, p) {
            ParsedV::Got(x, q) => p < q <= t.len(),
            ParsedV::Bad(e, _) => error_in_text(e, len),
        },
{
    if p < t.len() {
        if let TokenV::Int(v, _) = t[p as int].tok {
            if 0 <= v <= u32::MAX {
                at_eat(len, t, p + 1, TokenV::RParen);
            }
        }
    }
}

proof fn at_type(len: int, t: Seq<SpannedV>, p: nat)
    requires
        lexer::tokens_in_order(t, 0, len),
    ensures
        match grammar::p_type(t, p) {
            ParsedV::Got(x, q) => p < q <= t.len(),
            ParsedV::Bad(e, _) => error_in_text(e, len),
        },
    decreases grammar::left(t, p),
{
    if p < t.len() {
        if let TokenV::LParen = t[p as int].tok {
            at_name(len, t, p + 1);
            if let ParsedV::Got((head, span), q) = grammar::p_name(t, p + 1) {
                if head == "Array"@ {
                    at_type(len, t, p + 2);
                    if let ParsedV::Got(elem, r) = grammar::p_type(t, p + 2) {
                        at_array_len(len, t, r);
                    }
                }
            }
        }
    }
}

proof fn at_close(len: int, t: Seq<SpannedV>, p: nat, kind: ExprKindV, start: usize)
    requires
        lexer::tokens_in_order(t, 0, len),
        starts_before(t, start, p),
        placed_kind(kind, len),
    ensures
        match grammar::p_close(t, p, kind, start) {
            ParsedV::Got(x, q) => p < q <= t.len() && placed(x, len),
            ParsedV::Bad(e, _) => error_in_text(e, len),
        },
{
    at_eat(len, t, p, TokenV::RParen);
}

proof fn at_expr(len: int, t: Seq<SpannedV>, p: nat)
    requires
        lexer::tokens_in_order(t, 0, len),
    ensures
        match grammar::p_expr(t, p) {
            ParsedV::Got(x, q) => p < q <= t.len() && placed(x, len),
            ParsedV::Bad(e, _) => error_in_text(e, len),
        },
    decreases grammar::left(t, p), 1nat,
{
    if p < t.len() {
        let span = t[p as int].span;
        if let TokenV::LParen = t[p as int].tok {
            at_compound(len, t, p);
        }
    }
}

proof fn at_compound(len: int, t: Seq<SpannedV>, p: nat)
    requires
        lexer::tokens_in_order(t, 0, len),
    ensures
        match grammar::p_compound(t, p) {
            ParsedV::Got(x, q) => p < q <= t.len() && placed(x, len),
            ParsedV::Bad(e, _) => error_in_text(e, len),
        },
    decreases grammar::left(t, p), 0nat,
{
    if p < t.len() {
        if p + 1 < t.len() {
            let start = t[p as int].span.start;
            if let TokenV::Ident(head) = t[(p + 1) as int].tok {
                let q = p + 2;
                if head == "if"@ {
                    at_if(len, t, q, start);
                } else if head == "let"@ {
                    at_let(len, t, q, start);
                } else if head == "do"@ {
                    at_exprs(len, t, q, Seq::empty());
                    if let ParsedV::Got(es, r) = grammar::p_exprs(t, q, Seq::empty()) {
                        at_close(len, t, r, ExprKindV::Do(es), start);
                    }
                } else if head == "as"@ {
                    at_cast(len, t, q, start);
                } else if head == "set!"@ {
                    at_assign(len, t, q, start);
                } else if head == "while"@ {
                    at_while(len, t, q, start);
                } else if head == "loop"@ {
                    at_expr(len, t, q);
                    if let ParsedV::Got(body, r) = grammar::p_expr(t, q) {
                        at_close(len, t, r, ExprKindV::Loop { body: Box::new(body) }, start);
                    }
                } else if head == "break"@ {
                    at_close(len, t, q, ExprKindV::Break, start);
                } else if head == "array"@ {
                    at_array(len, t, q, start);
                } else if head == "field"@ {
                    at_field(len, t, q, start);
                } else if head == "match"@ {
                    at_match(len, t, q, start);
                } else {
                    at_exprs(len, t, q, Seq::empty());
                    if let ParsedV::Got(args, r) = grammar::p_exprs(t, q, Seq::empty()) {
                        at_close(len, t, r, ExprKindV::Call { callee: head, args }, start);
                    }
                }
            }
        }
    }
}

proof fn at_if(len: int, t: Seq<SpannedV>, p: nat, start: usize)
    requires
        lexer::tokens_in_order(t, 0, len),
        starts_before(t, start, p),
    ensures
        match grammar::p_if(t, p, start) {
            ParsedV::Got(x, q) => p < q <= t.len() && placed(x, len),
            ParsedV::Bad(e, _) => error_in_text(e, len),
        },
    decreases grammar::left(t, p), 3nat,
{
    at_expr(len, t, p);
    if let ParsedV::Got(c, q) = grammar::p_expr(t, p) {
        at_expr(len, t, grammar::ahead(p, q));
        if let ParsedV::Got(a, r) = grammar::p_expr(t, grammar::ahead(p, q)) {
            at_expr(len, t, grammar::ahead(p, r));
            if let ParsedV::Got(b, s) = grammar::p_expr(t, grammar::ahead(p, r)) {
                at_close(len,  t, s, ExprKindV::If { cond: Box::new(c), then_branch: Box::new(a), else_branch: Box::new(b) }, start);
            }
        }
    }
}

proof fn at_let(len: int, t: Seq<SpannedV>, p: nat, start: usize)
    requires
        lexer::tokens_in_order(t, 0, len),
        starts_before(t, start, p),
    ensures
        match grammar::p_let(t, p, start) {
            ParsedV::Got(x, q) => p < q <= t.len() && placed(x, len),
            ParsedV::Bad(e, _) => error_in_text(e, len),
        },
    decreases grammar::left(t, p), 3nat,
{
    at_eat(len, t, p, TokenV::LBracket);
    if let ParsedV::Got(_, q) = grammar::p_eat(t, p, TokenV::LBracket) {
        at_bindings(len, t, grammar::ahead(p, q), Seq::empty());
        if let ParsedV::Got(bindings, r) = grammar::p_bindings(t, grammar::ahead(p, q), Seq::empty()) {
            at_eat(len, t, r, TokenV::RBracket);
            if let ParsedV::Got(_, s) = grammar::p_eat(t, r, TokenV::RBracket) {
                at_expr(len, t, grammar::ahead(p, s));
                if let ParsedV::Got(body, u) = grammar::p_expr(t, grammar::ahead(p, s)) {
                    at_close(len, t, u, ExprKindV::Let { bindings, body: Box::new(body) }, start);
                }
            }
        }
    }
}

proof fn at_cast(len: int, t: Seq<SpannedV>, p: nat, start: usize)
    requires
        lexer::tokens_in_order(t, 0, len),
        starts_before(t, start, p),
    ensures
        match grammar::p_cast(t, p, start) {
            ParsedV::Got(x, q) => p < q <= t.len() && placed(x, len),
            ParsedV::Bad(e, _) => error_in_text(e, len),
        },
    decreases grammar::left(t, p), 3nat,
{
    at_type(len, t, p);
    if let ParsedV::Got(ty, q) = grammar::p_type(t, p) {
        at_expr(len, t, grammar::ahead(p, q));
        if let ParsedV::Got(e, r) = grammar::p_expr(t, grammar::ahead(p, q)) {
            at_close(len, t, r, ExprKindV::Cast { ty, expr: Box::new(e) }, start);
        }
    }
}

proof fn at_assign(len: int, t: Seq<SpannedV>, p: nat, start: usize)
    requires
        lexer::tokens_in_order(t, 0, len),
        starts_before(t, start, p),
    ensures
        match grammar::p_assign(t, p, start) {
            ParsedV::Got(x, q) => p < q <= t.len() && placed(x, len),
            ParsedV::Bad(e, _) => error_in_text(e, len),
        },
    decreases grammar::left(t, p), 3nat,
{
    at_name(len, t, p);
    if let ParsedV::Got((name, _), q) = grammar::p_name(t, p) {
        at_expr(len, t, grammar::ahead(p, q));
        if let ParsedV::Got(value, r) = grammar::p_expr(t, grammar::ahead(p, q)) {
            at_close(len, t, r, ExprKindV::Assign { name, value: Box::new(value) }, start);
        }
    }
}

proof fn at_while(len: int, t: Seq<SpannedV>, p: nat, start: usize)
    requires
        lexer::tokens_in_order(t, 0, len),
        starts_before(t, start, p),
    ensures
        match grammar::p_while(t, p, start) {
            ParsedV::Got(x, q) => p < q <= t.len() && placed(x, len),
            ParsedV::Bad(e, _) => error_in_text(e, len),
        },
    decreases grammar::left(t, p), 3nat,
{
    at_expr(len, t, p);
    if let ParsedV::Got(cond, q) = grammar::p_expr(t, p) {
        at_expr(len, t, grammar::ahead(p, q));
        if let ParsedV::Got(body, r) = grammar::p_expr(t, grammar::ahead(p, q)) {
            at_close(len, t, r, ExprKindV::While { cond: Box::new(cond), body: Box::new(body) }, start);
        }
    }
}

proof fn at_array(len: int, t: Seq<SpannedV>, p: nat, start: usize)
    requires
        lexer::tokens_in_order(t, 0, len),
        starts_before(t, start, p),
    ensures
        match grammar::p_array(t, p, start) {
            ParsedV::Got(x, q) => p < q <= t.len() && placed(x, len),
            ParsedV::Bad(e, _) => error_in_text(e, len),
        },
    decreases grammar::left(t, p), 3nat,
{
    at_type(len, t, p);
    if let ParsedV::Got(elem_ty, q) = grammar::p_type(t, p) {
        at_exprs(len, t, grammar::ahead(p, q), Seq::empty());
        if let ParsedV::Got(elems, r) = grammar::p_exprs(t, grammar::ahead(p, q), Seq::empty()) {
            at_close(len, t, r, ExprKindV::ArrayLit { elem_ty, elems }, start);
        }
    }
}

proof fn at_field(len: int, t: Seq<SpannedV>, p: nat, start: usize)
    requires
        lexer::tokens_in_order(t, 0, len),
        starts_before(t, start, p),
    ensures
        match grammar::p_field(t, p, start) {
            ParsedV::Got(x, q) => p < q <= t.len() && placed(x, len),
            ParsedV::Bad(e, _) => error_in_text(e, len),
        },
    decreases grammar::left(t, p), 3nat,
{
    at_expr(len, t, p);
    if let ParsedV::Got(base, q) = grammar::p_expr(t, p) {
        at_name(len, t, q);
        if let ParsedV::Got((field, _), r) = grammar::p_name(t, q) {
            at_close(len, t, r, ExprKindV::Field { base: Box::new(base), field }, start);
        }
    }
}

proof fn at_match(len: int, t: Seq<SpannedV>, p: nat, start: usize)
    requires
        lexer::tokens_in_order(t, 0, len),
        starts_before(t, start, p),
    ensures
        match grammar::p_match(t, p, start) {
            ParsedV::Got(x, q) => p < q <= t.len() && placed(x, len),
            ParsedV::Bad(e, _) => error_in_text(e, len),
        },
    decreases grammar::left(t, p), 3nat,
{
    at_expr(len, t, p);
    if let ParsedV::Got(scrutinee, q) = grammar::p_expr(t, p) {
        at_arms(len, t, grammar::ahead(p, q), Seq::empty());
        if let ParsedV::Got(arms, r) = grammar::p_arms(t, grammar::ahead(p, q), Seq::empty()) {
            at_close(len, t, r, ExprKindV::Match { scrutinee: Box::new(scrutinee), arms }, start);
        }
    }
}

proof fn at_exprs(len: int, t: Seq<SpannedV>, p: nat, acc: Seq<ExprV>)
    requires
        lexer::tokens_in_order(t, 0, len),
        placed_all(acc, len),
    ensures
        match grammar::p_exprs(t, p, acc) {
            ParsedV::Got(x, q) => p <= q <= t.len() && placed_all(x, len),
            ParsedV::Bad(e, _) => error_in_text(e, len),
        },
    decreases grammar::left(t, p), 2nat,
{
    if p < t.len() {
        if !grammar::next_is(t, p, TokenV::RParen) {
            at_expr(len, t, p);
            if let ParsedV::Got(e, q) = grammar::p_expr(t, p) {
                at_exprs(len, t, grammar::ahead(p, q), acc.push(e));
            }
        }
    }
}

proof fn at_bindings(len: int, t: Seq<SpannedV>, p: nat, acc: Seq<BindingV>)
    requires
        lexer::tokens_in_order(t, 0, len),
        placed_bindings(acc, len),
    ensures
        match grammar::p_bindings(t, p, acc) {
            ParsedV::Got(x, q) => p <= q <= t.len() && placed_bindings(x, len),
            ParsedV::Bad(e, _) => error_in_text(e, len),
        },
    decreases grammar::left(t, p), 2nat,
{
    if p < t.len() {
        if !grammar::next_is(t, p, TokenV::RBracket) {
            at_binding(len, t, p);
            if let ParsedV::Got(b, q) = grammar::p_binding(t, p) {
                at_bindings(len, t, grammar::ahead(p, grammar::past_comma(t, q)), acc.push(b));
            }
        }
    }
}

proof fn at_binding(len: int, t: Seq<SpannedV>, p: nat)
    requires
        lexer::tokens_in_order(t, 0, len),
    ensures
        match grammar::p_binding(t, p) {
            ParsedV::Got(x, q) => p < q <= t.len() && in_text(x.span, len) && placed(x.value, len),
            ParsedV::Bad(e, _) => error_in_text(e, len),
        },
    decreases grammar::left(t, p), 0nat,
{
    at_name(len, t, p);
    if let ParsedV::Got((name, span), q) = grammar::p_name(t, p) {
        at_eat(len, t, q, TokenV::Colon);
        if let ParsedV::Got(_, r) = grammar::p_eat(t, q, TokenV::Colon) {
            at_type(len, t, r);
            if let ParsedV::Got(ty, s) = grammar::p_type(t, r) {
                at_expr(len, t, grammar::ahead(p, s));
            }
        }
    }
}

proof fn at_arms(len: int, t: Seq<SpannedV>, p: nat, acc: Seq<MatchArmV>)
    requires
        lexer::tokens_in_order(t, 0, len),
        placed_arms(acc, len),
    ensures
        match grammar::p_arms(t, p, acc) {
            ParsedV::Got(x, q) => p <= q <= t.len() && placed_arms(x, len),
            ParsedV::Bad(e, _) => error_in_text(e, len),
        },
    decreases grammar::left(t, p), 2nat,
{
    if p < t.len() {
        if !grammar::next_is(t, p, TokenV::RParen) {
            at_arm(len, t, p);
            if let ParsedV::Got(a, q) = grammar::p_arm(t, p) {
                at_arms(len, t, grammar::ahead(p, q), acc.push(a));
            }
        }
    }
}

proof fn at_arm(len: int, t: Seq<SpannedV>, p: nat)
    requires
        lexer::tokens_in_order(t, 0, len),
    ensures
        match grammar::p_arm(t, p) {
            ParsedV::Got(x, q) => p < q <= t.len() && in_text(x.span, len) && placed(x.body, len),
            ParsedV::Bad(e, _) => error_in_text(e, len),
        },
    decreases grammar::left(t, p), 0nat,
{
    at_eat(len, t, p, TokenV::LParen);
    if let ParsedV::Got(lp, q) = grammar::p_eat(t, p, TokenV::LParen) {
        at_name(len, t, q);
        if let ParsedV::Got((variant, _), r) = grammar::p_name(t, q) {
            at_arm_body(len, t, grammar::ahead(p, r));
            if let ParsedV::Got((binding, body), s) = grammar::p_arm_body(t, grammar::ahead(p, r)) {
                at_eat(len, t, s, TokenV::RParen);
            }
        }
    }
}

proof fn at_arm_body(len: int, t: Seq<SpannedV>, p: nat)
    requires
        lexer::tokens_in_order(t, 0, len),
    ensures
        match grammar::p_arm_body(t, p) {
            ParsedV::Got(x, q) => p < q <= t.len() && placed(x.1, len),
            ParsedV::Bad(e, _) => error_in_text(e, len),
        },
    decreases grammar::left(t, p), 3nat,
{
    if !grammar::next_is(t, p, TokenV::RParen) {
        if p < t.len() && t[p as int].tok is Ident {
            let id = t[p as int].tok->Ident_0;
            if !grammar::next_is(t, p + 1, TokenV::RParen) {
                at_expr(len, t, p + 1);
            }
        } else {
            at_expr(len, t, p);
        }
    }
}

proof fn at_param(len: int, t: Seq<SpannedV>, p: nat)
    requires
        lexer::tokens_in_order(t, 0, len),
    ensures
        match grammar::p_param(t, p) {
            ParsedV::Got(x, q) => p < q <= t.len() && in_text(x.span, len),
            ParsedV::Bad(e, _) => error_in_text(e, len),
        },
{
    at_name(len, t, p);
    if let ParsedV::Got((name, span), q) = grammar::p_name(t, p) {
        at_eat(len, t, q, TokenV::Colon);
        if let ParsedV::Got(_, r) = grammar::p_eat(t, q, TokenV::Colon) {
            at_type(len, t, r);
        }
    }
}

proof fn at_params(len: int, t: Seq<SpannedV>, p: nat, acc: Seq<ParamV>)
    requires
        lexer::tokens_in_order(t, 0, len),
        placed_params(acc, len),
    ensures
        match grammar::p_params(t, p, acc) {
            ParsedV::Got(x, q) => p <= q <= t.len() && placed_params(x, len),
            ParsedV::Bad(e, _) => error_in_text(e, len),
        },
    decreases grammar::left(t, p),
{
    if p < t.len() {
        if !grammar::next_is(t, p, TokenV::RBracket) {
            at_param(len, t, p);
            if let ParsedV::Got(x, q) = grammar::p_param(t, p) {
                at_params(len, t, grammar::ahead(p, grammar::past_comma(t, q)), acc.push(x));
            }
        }
    }
}

proof fn at_param_list(len: int, t: Seq<SpannedV>, p: nat)
    requires
        lexer::tokens_in_order(t, 0, len),
    ensures
        match grammar::p_param_list(t, p) {
            ParsedV::Got(x, q) => p < q <= t.len() && placed_params(x, len),
            ParsedV::Bad(e, _) => error_in_text(e, len),
        },
{
    at_eat(len, t, p, TokenV::LBracket);
    if let ParsedV::Got(_, q) = grammar::p_eat(t, p, TokenV::LBracket) {
        at_params(len, t, q, Seq::empty());
        if let ParsedV::Got(params, r) = grammar::p_params(t, q, Seq::empty()) {
            at_eat(len, t, r, TokenV::RBracket);
        }
    }
}

proof fn at_method_params(len: int, t: Seq<SpannedV>, p: nat)
    requires
        lexer::tokens_in_order(t, 0, len),
    ensures
        match grammar::p_method_params(t, p) {
            ParsedV::Got(x, q) => p < q <= t.len() && placed_params(x, len),
            ParsedV::Bad(e, _) => error_in_text(e, len),
        },
{
    at_eat(len, t, p, TokenV::LBracket);
    if let ParsedV::Got(_, q) = grammar::p_eat(t, p, TokenV::LBracket) {
        let (first, r): (Seq<ParamV>, nat) = if grammar::bare_self(t, q) { ( seq![ParamV { name: "self"@, ty: TypeV::Unit, span: t[q as int].span }], grammar::past_comma(t, q + 1), ) } else { (Seq::empty(), q) };
        at_params(len, t, r, first);
        if let ParsedV::Got(params, s) = grammar::p_params(t, r, first) {
            at_eat(len, t, s, TokenV::RBracket);
        }
    }
}

proof fn at_ret(len: int, t: Seq<SpannedV>, p: nat)
    requires
        lexer::tokens_in_order(t, 0, len),
    ensures
        match grammar::p_ret(t, p) {
            ParsedV::Got(x, q) => p < q <= t.len(),
            ParsedV::Bad(e, _) => error_in_text(e, len),
        },
{
    at_eat(len, t, p, TokenV::Arrow);
    if let ParsedV::Got(_, q) = grammar::p_eat(t, p, TokenV::Arrow) {
        at_type(len, t, q);
    }
}

proof fn at_field_def(len: int, t: Seq<SpannedV>, p: nat)
    requires
        lexer::tokens_in_order(t, 0, len),
    ensures
        match grammar::p_field_def(t, p) {
            ParsedV::Got(x, q) => p < q <= t.len() && in_text(x.span, len),
            ParsedV::Bad(e, _) => error_in_text(e, len),
        },
{
    at_name(len, t, p);
    if let ParsedV::Got((name, span), q) = grammar::p_name(t, p) {
        at_eat(len, t, q, TokenV::Colon);
        if let ParsedV::Got(_, r) = grammar::p_eat(t, q, TokenV::Colon) {
            at_type(len, t, r);
        }
    }
}

proof fn at_field_defs(len: int, t: Seq<SpannedV>, p: nat, acc: Seq<FieldDefV>)
    requires
        lexer::tokens_in_order(t, 0, len),
        placed_fields(acc, len),
    ensures
        match grammar::p_field_defs(t, p, acc) {
            ParsedV::Got(x, q) => p <= q <= t.len() && placed_fields(x, len),
            ParsedV::Bad(e, _) => error_in_text(e, len),
        },
    decreases grammar::left(t, p),
{
    if p < t.len() {
        if !grammar::next_is(t, p, TokenV::RBracket) {
            at_field_def(len, t, p);
            if let ParsedV::Got(x, q) = grammar::p_field_def(t, p) {
                at_field_defs(len, t, grammar::ahead(p, grammar::past_comma(t, q)), acc.push(x));
            }
        }
    }
}

proof fn at_struct(len: int, t: Seq<SpannedV>, p: nat, start: usize)
    requires
        lexer::tokens_in_order(t, 0, len),
        starts_before(t, start, p),
    ensures
        match grammar::p_struct(t, p, start) {
            ParsedV::Got(x, q) => p < q <= t.len() && placed_item(TopLevelV::Struct(x), len),
            ParsedV::Bad(e, _) => error_in_text(e, len),
        },
{
    at_name(len, t, p);
    if let ParsedV::Got((name, _), q) = grammar::p_name(t, p) {
        at_eat(len, t, q, TokenV::LBracket);
        if let ParsedV::Got(_, r) = grammar::p_eat(t, q, TokenV::LBracket) {
            at_field_defs(len, t, r, Seq::empty());
            if let ParsedV::Got(fields, s) = grammar::p_field_defs(t, r, Seq::empty()) {
                at_eat(len, t, s, TokenV::RBracket);
                if let ParsedV::Got(_, u) = grammar::p_eat(t, s, TokenV::RBracket) {
                    at_eat(len, t, u, TokenV::RParen);
                }
            }
        }
    }
}

proof fn at_variant_def(len: int, t: Seq<SpannedV>, p: nat)
    requires
        lexer::tokens_in_order(t, 0, len),
    ensures
        match grammar::p_variant_def(t, p) {
            ParsedV::Got(x, q) => p < q <= t.len() && in_text(x.span, len),
            ParsedV::Bad(e, _) => error_in_text(e, len),
        },
{
    at_name(len, t, p);
    if let ParsedV::Got((name, span), q) = grammar::p_name(t, p) {
        if grammar::type_starts(t, q) {
            at_type(len, t, q);
        }
    }
}

proof fn at_variant_defs(len: int, t: Seq<SpannedV>, p: nat, acc: Seq<VariantDefV>)
    requires
        lexer::tokens_in_order(t, 0, len),
        placed_variants(acc, len),
    ensures
        match grammar::p_variant_defs(t, p, acc) {
            ParsedV::Got(x, q) => p <= q <= t.len() && placed_variants(x, len),
            ParsedV::Bad(e, _) => error_in_text(e, len),
        },
    decreases grammar::left(t, p),
{
    if p < t.len() {
        if !grammar::next_is(t, p, TokenV::RParen) {
            at_variant_def(len, t, p);
            if let ParsedV::Got(x, q) = grammar::p_variant_def(t, p) {
                at_variant_defs(len, t, grammar::ahead(p, q), acc.push(x));
            }
        }
    }
}

proof fn at_enum(len: int, t: Seq<SpannedV>, p: nat, start: usize)
    requires
        lexer::tokens_in_order(t, 0, len),
        starts_before(t, start, p),
    ensures
        match grammar::p_enum(t, p, start) {
            ParsedV::Got(x, q) => p < q <= t.len() && placed_item(TopLevelV::Enum(x), len),
            ParsedV::Bad(e, _) => error_in_text(e, len),
        },
{
    at_name(len, t, p);
    if let ParsedV::Got((name, _), q) = grammar::p_name(t, p) {
        at_variant_defs(len, t, q, Seq::empty());
        if let ParsedV::Got(variants, r) = grammar::p_variant_defs(t, q, Seq::empty()) {
            at_eat(len, t, r, TokenV::RParen);
        }
    }
}

proof fn at_def(len: int, t: Seq<SpannedV>, p: nat, start: usize)
    requires
        lexer::tokens_in_order(t, 0, len),
        starts_before(t, start, p),
    ensures
        match grammar::p_def(t, p, start) {
            ParsedV::Got(x, q) => p < q <= t.len() && placed_item(TopLevelV::Const(x), len),
            ParsedV::Bad(e, _) => error_in_text(e, len),
        },
{
    at_name(len, t, p);
    if let ParsedV::Got((name, _), q) = grammar::p_name(t, p) {
        at_eat(len, t, q, TokenV::Colon);
        if let ParsedV::Got(_, r) = grammar::p_eat(t, q, TokenV::Colon) {
            at_type(len, t, r);
            if let ParsedV::Got(ty, s) = grammar::p_type(t, r) {
                at_expr(len, t, s);
                if let ParsedV::Got(value, u) = grammar::p_expr(t, s) {
                    at_eat(len, t, u, TokenV::RParen);
                }
            }
        }
    }
}

proof fn at_type_param(len: int, t: Seq<SpannedV>, p: nat)
    requires
        lexer::tokens_in_order(t, 0, len),
    ensures
        match grammar::p_type_param(t, p) {
            ParsedV::Got(x, q) => p < q <= t.len(),
            ParsedV::Bad(e, _) => error_in_text(e, len),
        },
{
    at_name(len, t, p);
    if let ParsedV::Got((name, _), q) = grammar::p_name(t, p) {
        if grammar::next_is(t, q, TokenV::Colon) {
            at_name(len, t, q + 1);
        }
    }
}

proof fn at_type_params(len: int, t: Seq<SpannedV>, p: nat, acc: Seq<(Seq<char>, Option<Seq<char>>)>)
    requires
        lexer::tokens_in_order(t, 0, len),
    ensures
        match grammar::p_type_params(t, p, acc) {
            ParsedV::Got(x, q) => p <= q <= t.len(),
            ParsedV::Bad(e, _) => error_in_text(e, len),
        },
    decreases grammar::left(t, p),
{
    if p < t.len() {
        if !grammar::next_is(t, p, TokenV::RBracket) {
            at_type_param(len, t, p);
            if let ParsedV::Got(x, q) = grammar::p_type_param(t, p) {
                at_type_params(len, t, grammar::ahead(p, grammar::past_comma(t, q)), acc.push(x));
            }
        }
    }
}

proof fn at_type_param_list(len: int, t: Seq<SpannedV>, p: nat)
    requires
        lexer::tokens_in_order(t, 0, len),
    ensures
        match grammar::p_type_param_list(t, p) {
            ParsedV::Got(x, q) => p < q <= t.len(),
            ParsedV::Bad(e, _) => error_in_text(e, len),
        },
{
    at_eat(len, t, p, TokenV::LBracket);
    if let ParsedV::Got(_, q) = grammar::p_eat(t, p, TokenV::LBracket) {
        at_type_params(len, t, q, Seq::empty());
        if let ParsedV::Got(type_params, r) = grammar::p_type_params(t, q, Seq::empty()) {
            at_eat(len, t, r, TokenV::RBracket);
        }
    }
}

proof fn at_defn(len: int, t: Seq<SpannedV>, p: nat, start: usize)
    requires
        lexer::tokens_in_order(t, 0, len),
        starts_before(t, start, p),
    ensures
        match grammar::p_defn(t, p, start) {
            ParsedV::Got(x, q) => p < q <= t.len() && placed_item(x, len),
            ParsedV::Bad(e, _) => error_in_text(e, len),
        },
{
    at_name(len, t, p);
    if let ParsedV::Got((name, _), q) = grammar::p_name(t, p) {
        if grammar::two_lists(t, q) {
            at_type_param_list(len, t, q);
            if let ParsedV::Got(type_params, r) = grammar::p_type_param_list(t, q) {
                at_param_list(len, t, r);
                if let ParsedV::Got(params, s) = grammar::p_param_list(t, r) {
                    at_ret(len, t, s);
                    if let ParsedV::Got(ret, u) = grammar::p_ret(t, s) {
                        at_expr(len, t, u);
                        if let ParsedV::Got(body, v) = grammar::p_expr(t, u) {
                            at_eat(len, t, v, TokenV::RParen);
                        }
                    }
                }
            }
        } else {
            at_param_list(len, t, q);
            if let ParsedV::Got(params, s) = grammar::p_param_list(t, q) {
                at_ret(len, t, s);
                if let ParsedV::Got(ret, u) = grammar::p_ret(t, s) {
                    at_expr(len, t, u);
                    if let ParsedV::Got(body, v) = grammar::p_expr(t, u) {
                        at_eat(len, t, v, TokenV::RParen);
                    }
                }
            }
        }
    }
}

proof fn at_str(len: int, t: Seq<SpannedV>, p: nat)
    requires
        lexer::tokens_in_order(t, 0, len),
    ensures
        match grammar::p_str(t, p) {
            ParsedV::Got(x, q) => p < q <= t.len(),
            ParsedV::Bad(e, _) => error_in_text(e, len),
        },
{
    if !(p < t.len() && t[p as int].tok is Str) {
        at_eat(len, t, p, TokenV::Str(Seq::empty()));
    }
}

proof fn at_foreign(len: int, t: Seq<SpannedV>, p: nat, start: usize)
    requires
        lexer::tokens_in_order(t, 0, len),
        starts_before(t, start, p),
    ensures
        match grammar::p_foreign(t, p, start) {
            ParsedV::Got(x, q) => p < q <= t.len() && placed_item(TopLevelV::Extern(x), len),
            ParsedV::Bad(e, _) => error_in_text(e, len),
        },
{
    at_str(len, t, p);
    if let ParsedV::Got(abi, q) = grammar::p_str(t, p) {
        at_name(len, t, q);
        if let ParsedV::Got((name, _), r) = grammar::p_name(t, q) {
            at_param_list(len, t, r);
            if let ParsedV::Got(params, s) = grammar::p_param_list(t, r) {
                at_ret(len, t, s);
                if let ParsedV::Got(ret, u) = grammar::p_ret(t, s) {
                    at_eat(len, t, u, TokenV::RParen);
                }
            }
        }
    }
}

proof fn at_sig(len: int, t: Seq<SpannedV>, p: nat)
    requires
        lexer::tokens_in_order(t, 0, len),
    ensures
        match grammar::p_sig(t, p) {
            ParsedV::Got(x, q) => p < q <= t.len() && placed_sig(x, len),
            ParsedV::Bad(e, _) => error_in_text(e, len),
        },
{
    at_eat(len, t, p, TokenV::LParen);
    if let ParsedV::Got(lp, q) = grammar::p_eat(t, p, TokenV::LParen) {
        at_name(len, t, q);
        if let ParsedV::Got((name, _), r) = grammar::p_name(t, q) {
            at_method_params(len, t, r);
            if let ParsedV::Got(params, s) = grammar::p_method_params(t, r) {
                at_ret(len, t, s);
                if let ParsedV::Got(ret, u) = grammar::p_ret(t, s) {
                    at_eat(len, t, u, TokenV::RParen);
                }
            }
        }
    }
}

proof fn at_sigs(len: int, t: Seq<SpannedV>, p: nat, acc: Seq<MethodSigV>)
    requires
        lexer::tokens_in_order(t, 0, len),
        placed_sigs(acc, len),
    ensures
        match grammar::p_sigs(t, p, acc) {
            ParsedV::Got(x, q) => p <= q <= t.len() && placed_sigs(x, len),
            ParsedV::Bad(e, _) => error_in_text(e, len),
        },
    decreases grammar::left(t, p),
{
    if p < t.len() {
        if !grammar::next_is(t, p, TokenV::RParen) {
            at_sig(len, t, p);
            if let ParsedV::Got(x, q) = grammar::p_sig(t, p) {
                at_sigs(len, t, grammar::ahead(p, q), acc.push(x));
            }
        }
    }
}

proof fn at_trait(len: int, t: Seq<SpannedV>, p: nat, start: usize)
    requires
        lexer::tokens_in_order(t, 0, len),
        starts_before(t, start, p),
    ensures
        match grammar::p_trait(t, p, start) {
            ParsedV::Got(x, q) => p < q <= t.len() && placed_item(TopLevelV::Trait(x), len),
            ParsedV::Bad(e, _) => error_in_text(e, len),
        },
{
    at_name(len, t, p);
    if let ParsedV::Got((name, _), q) = grammar::p_name(t, p) {
        at_sigs(len, t, q, Seq::empty());
        if let ParsedV::Got(methods, r) = grammar::p_sigs(t, q, Seq::empty()) {
            at_eat(len, t, r, TokenV::RParen);
        }
    }
}

proof fn at_method(len: int, t: Seq<SpannedV>, p: nat)
    requires
        lexer::tokens_in_order(t, 0, len),
    ensures
        match grammar::p_method(t, p) {
            ParsedV::Got(x, q) => p < q <= t.len() && placed_function(x, len),
            ParsedV::Bad(e, _) => error_in_text(e, len),
        },
{
    at_eat(len, t, p, TokenV::LParen);
    if let ParsedV::Got(lp, q) = grammar::p_eat(t, p, TokenV::LParen) {
        at_name(len, t, q);
        if let ParsedV::Got((name, _), r) = grammar::p_name(t, q) {
            at_method_params(len, t, r);
            if let ParsedV::Got(params, s) = grammar::p_method_params(t, r) {
                at_ret(len, t, s);
                if let ParsedV::Got(ret, u) = grammar::p_ret(t, s) {
                    at_expr(len, t, u);
                    if let ParsedV::Got(body, v) = grammar::p_expr(t, u) {
                        at_eat(len, t, v, TokenV::RParen);
                    }
                }
            }
        }
    }
}

proof fn at_methods(len: int, t: Seq<SpannedV>, p: nat, acc: Seq<FunctionV>)
    requires
        lexer::tokens_in_order(t, 0, len),
        placed_functions(acc, len),
    ensures
        match grammar::p_methods(t, p, acc) {
            ParsedV::Got(x, q) => p <= q <= t.len() && placed_functions(x, len),
            ParsedV::Bad(e, _) => error_in_text(e, len),
        },
    decreases grammar::left(t, p),
{
    if p < t.len() {
        if !grammar::next_is(t, p, TokenV::RParen) {
            at_method(len, t, p);
            if let ParsedV::Got(x, q) = grammar::p_method(t, p) {
                at_methods(len, t, grammar::ahead(p, q), acc.push(x));
            }
        }
    }
}

proof fn at_for(len: int, t: Seq<SpannedV>, p: nat)
    requires
        lexer::tokens_in_order(t, 0, len),
    ensures
        match grammar::p_for(t, p) {
            ParsedV::Got(x, q) => p < q <= t.len() && in_text(x, len),
            ParsedV::Bad(e, _) => error_in_text(e, len),
        },
{
}

proof fn at_impl(len: int, t: Seq<SpannedV>, p: nat, start: usize)
    requires
        lexer::tokens_in_order(t, 0, len),
        starts_before(t, start, p),
    ensures
        match grammar::p_impl(t, p, start) {
            ParsedV::Got(x, q) => p < q <= t.len() && placed_item(TopLevelV::Impl(x), len),
            ParsedV::Bad(e, _) => error_in_text(e, len),
        },
{
    at_name(len, t, p);
    if let ParsedV::Got((trait_name, _), q) = grammar::p_name(t, p) {
        at_for(len, t, q);
        if let ParsedV::Got(_, r) = grammar::p_for(t, q) {
            at_type(len, t, r);
            if let ParsedV::Got(for_ty, s) = grammar::p_type(t, r) {
                at_methods(len, t, s, Seq::empty());
                if let ParsedV::Got(methods, u) = grammar::p_methods(t, s, Seq::empty()) {
                    at_eat(len, t, u, TokenV::RParen);
                }
            }
        }
    }
}

proof fn at_names(len: int, t: Seq<SpannedV>, p: nat, acc: Seq<Seq<char>>)
    requires
        lexer::tokens_in_order(t, 0, len),
    ensures
        match grammar::p_names(t, p, acc) {
            ParsedV::Got(x, q) => p <= q <= t.len(),
            ParsedV::Bad(e, _) => error_in_text(e, len),
        },
    decreases grammar::left(t, p),
{
    if p < t.len() {
        if !grammar::next_is(t, p, TokenV::RBracket) {
            at_plain_name(len, t, p);
            if let ParsedV::Got(x, q) = grammar::p_plain_name(t, p) {
                at_names(len, t, grammar::ahead(p, grammar::past_comma(t, q)), acc.push(x));
            }
        }
    }
}

proof fn at_defmacro(len: int, t: Seq<SpannedV>, p: nat, start: usize)
    requires
        lexer::tokens_in_order(t, 0, len),
        starts_before(t, start, p),
    ensures
        match grammar::p_defmacro(t, p, start) {
            ParsedV::Got(x, q) => p < q <= t.len() && placed_item(TopLevelV::DefMacro(x), len),
            ParsedV::Bad(e, _) => error_in_text(e, len),
        },
{
    at_name(len, t, p);
    if let ParsedV::Got((name, _), q) = grammar::p_name(t, p) {
        at_eat(len, t, q, TokenV::LBracket);
        if let ParsedV::Got(_, r) = grammar::p_eat(t, q, TokenV::LBracket) {
            at_names(len, t, r, Seq::empty());
            if let ParsedV::Got(params, s) = grammar::p_names(t, r, Seq::empty()) {
                at_eat(len, t, s, TokenV::RBracket);
                if let ParsedV::Got(_, u) = grammar::p_eat(t, s, TokenV::RBracket) {
                    at_expr(len, t, u);
                    if let ParsedV::Got(template, v) = grammar::p_expr(t, u) {
                        at_eat(len, t, v, TokenV::RParen);
                    }
                }
            }
        }
    }
}

proof fn at_lone_name(len: int, t: Seq<SpannedV>, p: nat, start: usize)
    requires
        lexer::tokens_in_order(t, 0, len),
        starts_before(t, start, p),
    ensures
        match grammar::p_lone_name(t, p, start) {
            ParsedV::Got(x, q) => p < q <= t.len() && in_text(x.1, len),
            ParsedV::Bad(e, _) => error_in_text(e, len),
        },
{
    at_name(len, t, p);
    if let ParsedV::Got((name, _), q) = grammar::p_name(t, p) {
        at_eat(len, t, q, TokenV::RParen);
    }
}

proof fn at_item(len: int, t: Seq<SpannedV>, p: nat, start: usize, head: Seq<char>, span: Span)
    requires
        lexer::tokens_in_order(t, 0, len),
        starts_before(t, start, p),
        in_text(span, len),
    ensures
        match grammar::p_item(t, p, start, head, span) {
            ParsedV::Got(x, q) => p < q <= t.len() && placed_item(x, len),
            ParsedV::Bad(e, _) => error_in_text(e, len),
        },
{
    if head == "defn"@ {
        at_defn(len, t, p, start);
    } else if head == "def"@ {
        at_def(len, t, p, start);
    } else if head == "struct"@ {
        at_struct(len, t, p, start);
    } else if head == "enum"@ {
        at_enum(len, t, p, start);
    } else if head == "extern"@ {
        at_foreign(len, t, p, start);
    } else if head == "trait"@ {
        at_trait(len, t, p, start);
    } else if head == "impl"@ {
        at_impl(len, t, p, start);
    } else if head == "defmacro"@ {
        at_defmacro(len, t, p, start);
    } else if head == "module"@ {
        at_lone_name(len, t, p, start);
    } else if head == "import"@ {
        at_lone_name(len, t, p, start);
    }
}

proof fn at_toplevel(len: int, t: Seq<SpannedV>, p: nat)
    requires
        lexer::tokens_in_order(t, 0, len),
    ensures
        match grammar::p_toplevel(t, p) {
            ParsedV::Got(x, q) => p < q <= t.len() && placed_item(x, len),
            ParsedV::Bad(e, _) => error_in_text(e, len),
        },
{
    at_eat(len, t, p, TokenV::LParen);
    if let ParsedV::Got(lp, q) = grammar::p_eat(t, p, TokenV::LParen) {
        at_name(len, t, q);
        if let ParsedV::Got((head, span), r) = grammar::p_name(t, q) {
            at_item(len, t, r, lp.start, head, span);
        }
    }
}

proof fn at_program(len: int, t: Seq<SpannedV>, p: nat, acc: Seq<TopLevelV>)
    requires
        lexer::tokens_in_order(t, 0, len),
        placed_items(acc, len),
    ensures
        match grammar::p_program(t, p, acc) {
            ParsedV::Got(x, q) => placed_items(x.items, len),
            ParsedV::Bad(e, _) => error_in_text(e, len),
        },
    decreases grammar::left(t, p),
{
    if p < t.len() {
        at_toplevel(len, t, p);
        if let ParsedV::Got(x, q) = grammar::p_toplevel(t, p) {
            at_program(len, t, grammar::ahead(p, q), acc.push(x));
        }
    }
}

/// Where a program is accepted, every definition and every expression in it has a span
/// in the text; where it is refused, the place of the error is in the text, unless
/// the text ends too early.
pub proof fn law_parsed_program_is_placed(src: Seq<char>)
    requires
        vstd::utf8::encode_utf8(src).len() <= usize::MAX,
    ensures
        match grammar::parse_text(src) {
            Ok(p) => placed_items(p.items, vstd::utf8::encode_utf8(src).len() as int),
            Err(FrontendErrorV::Lex(e)) => lexer::lex_error_byte(e) < vstd::utf8::encode_utf8(src).len(),
            Err(FrontendErrorV::Parse(e)) => error_in_text(e, vstd::utf8::encode_utf8(src).len() as int),
        },
{
    lexer::law_spans_in_order(src);
    if let Ok(t) = lexer::lex_text(src) {
        at_program(vstd::utf8::encode_utf8(src).len() as int, t, 0, Seq::empty());
    }
}

/// The same for a single expression.
pub proof fn law_parsed_expression_is_placed(src: Seq<char>)
    requires
        vstd::utf8::encode_utf8(src).len() <= usize::MAX,
    ensures
        match grammar::parse_expr_text(src) {
            Ok(e) => placed(e, vstd::utf8::encode_utf8(src).len() as int),
            Err(FrontendErrorV::Lex(e)) => lexer::lex_error_byte(e) < vstd::utf8::encode_utf8(src).len(),
            Err(FrontendErrorV::Parse(e)) => error_in_text(e, vstd::utf8::encode_utf8(src).len() as int),
        },
{
    lexer::law_spans_in_order(src);
    if let Ok(t) = lexer::lex_text(src) {
        at_expr(vstd::utf8::encode_utf8(src).len() as int, t, 0);
    }
}

} // verus!
