//! Laws of the parser: reading undoes writing.
use crate::ast::{BindingV, ExprKindV, ExprV, LitV, MatchArmV, Span, TypeV};
use crate::grammar::ParsedV;
use crate::grammar;
use crate::lexer::{SpannedV, TokenV};
use crate::lexer;
use crate::spelling;
use crate::symbols;
use crate::written::PieceV;
use crate::written;
use vstd::prelude::*;

verus! {

/// Whether these words stand at place `p`.
pub open spec fn stands(t: Seq<SpannedV>, p: nat, ps: Seq<PieceV>) -> bool {
    p + ps.len() <= t.len() && forall|i: int|
        0 <= i < ps.len() ==> t[p + i].tok == written::token(#[trigger] ps[i])
}

proof fn stands_split(t: Seq<SpannedV>, p: nat, a: Seq<PieceV>, b: Seq<PieceV>)
    requires
        stands(t, p, a + b),
    ensures
        stands(t, p, a),
        stands(t, p + a.len(), b),
{
    assert forall|i: int| 0 <= i < a.len() implies t[p + i].tok == written::token(#[trigger] a[i]) by {
        assert((a + b)[i] == a[i]);
    }
    assert forall|i: int| 0 <= i < b.len() implies t[p + a.len() + i].tok == written::token(
        #[trigger] b[i],
    ) by {
        assert((a + b)[a.len() + i] == b[i]);
    }
}

proof fn stands_one(t: Seq<SpannedV>, p: nat, w: PieceV)
    requires
        stands(t, p, written::one_piece(w)),
    ensures
        p < t.len(),
        t[p as int].tok == written::token(w),
{
    assert(written::one_piece(w)[0] == w);
}

proof fn stands_opened(t: Seq<SpannedV>, p: nat, w: Seq<char>)
    requires
        stands(t, p, written::opened(w)),
    ensures
        p + 1 < t.len(),
        t[p as int].tok is LParen,
        t[(p + 1) as int].tok == TokenV::Ident(w),
{
    assert(written::opened(w)[0] == PieceV::Tok(TokenV::LParen));
    assert(written::opened(w)[1] == written::word(w));
}

/// The words that start the forms of the language.
pub open spec fn keyword(w: Seq<char>) -> bool {
    w == "if"@ || w == "let"@ || w == "do"@ || w == "as"@ || w == "set!"@ || w == "while"@ || w == "loop"@ || w == "break"@ || w == "array"@ || w == "field"@ || w == "match"@
}

/// Whether an expression can be written: no call is of a keyword, no type of the program
/// has the name of a builtin type, and there are no types but those that are written.
pub open spec fn writable(e: ExprV) -> bool
    decreases e,
{
    e.ty is None && writable_kind(e.kind)
}

pub open spec fn writable_kind(k: ExprKindV) -> bool
    decreases k,
{
    match k {
        ExprKindV::Lit(_) => true,
        ExprKindV::Var(_) => true,
        ExprKindV::Break => true,
        ExprKindV::If { cond, then_branch, else_branch } => writable(*cond) && writable(*then_branch)
            && writable(*else_branch),
        ExprKindV::Let { bindings, body } => {
            &&& forall|i: int|
                0 <= i < bindings.len() ==> writable((#[trigger] bindings[i]).value)
                    && symbols::written(bindings[i].ty)
            &&& writable(*body)
        },
        ExprKindV::Do(es) => forall|i: int| 0 <= i < es.len() ==> writable(#[trigger] es[i]),
        ExprKindV::Cast { ty, expr } => symbols::written(ty) && writable(*expr),
        ExprKindV::Assign { name, value } => writable(*value),
        ExprKindV::While { cond, body } => writable(*cond) && writable(*body),
        ExprKindV::Loop { body } => writable(*body),
        ExprKindV::ArrayLit { elem_ty, elems } => symbols::written(elem_ty) && forall|i: int|
            0 <= i < elems.len() ==> writable(#[trigger] elems[i]),
        ExprKindV::Field { base, field } => writable(*base),
        ExprKindV::Match { scrutinee, arms } => writable(*scrutinee) && forall|i: int|
            0 <= i < arms.len() ==> writable((#[trigger] arms[i]).body),
        ExprKindV::Call { callee, args } => !keyword(callee) && forall|i: int|
            0 <= i < args.len() ==> writable(#[trigger] args[i]),
    }
}

pub open spec fn nowhere() -> Span {
    Span { start: 0, end: 0 }
}

/// An expression without its places.
pub open spec fn unplaced(e: ExprV) -> ExprV
    decreases e,
{
    ExprV { kind: unplaced_kind(e.kind), span: nowhere(), ty: e.ty }
}

pub open spec fn unplaced_kind(k: ExprKindV) -> ExprKindV
    decreases k,
{
    match k {
        ExprKindV::Lit(_) => k,
        ExprKindV::Var(_) => k,
        ExprKindV::Break => k,
        ExprKindV::If { cond, then_branch, else_branch } => ExprKindV::If {
            cond: Box::new(unplaced(*cond)),
            then_branch: Box::new(unplaced(*then_branch)),
            else_branch: Box::new(unplaced(*else_branch)),
        },
        ExprKindV::Let { bindings, body } => ExprKindV::Let {
            bindings: unplaced_bindings(bindings),
            body: Box::new(unplaced(*body)),
        },
        ExprKindV::Do(es) => ExprKindV::Do(unplaced_all(es)),
        ExprKindV::Cast { ty, expr } => ExprKindV::Cast { ty, expr: Box::new(unplaced(*expr)) },
        ExprKindV::Assign { name, value } => ExprKindV::Assign {
            name,
            value: Box::new(unplaced(*value)),
        },
        ExprKindV::While { cond, body } => ExprKindV::While {
            cond: Box::new(unplaced(*cond)),
            body: Box::new(unplaced(*body)),
        },
        ExprKindV::Loop { body } => ExprKindV::Loop { body: Box::new(unplaced(*body)) },
        ExprKindV::ArrayLit { elem_ty, elems } => ExprKindV::ArrayLit {
            elem_ty,
            elems: unplaced_all(elems),
        },
        ExprKindV::Field { base, field } => ExprKindV::Field {
            base: Box::new(unplaced(*base)),
            field,
        },
        ExprKindV::Match { scrutinee, arms } => ExprKindV::Match {
            scrutinee: Box::new(unplaced(*scrutinee)),
            arms: unplaced_arms(arms),
        },
        ExprKindV::Call { callee, args } => ExprKindV::Call { callee, args: unplaced_all(args) },
    }
}

pub open spec fn unplaced_all(es: Seq<ExprV>) -> Seq<ExprV>
    decreases es,
{
    Seq::new(
        es.len(),
        |i: int|
            if 0 <= i < es.len() {
                unplaced(es[i])
            } else {
                arbitrary()
            },
    )
}

pub open spec fn unplaced_bindings(bs: Seq<BindingV>) -> Seq<BindingV>
    decreases bs,
{
    Seq::new(
        bs.len(),
        |i: int|
            if 0 <= i < bs.len() {
                BindingV { value: unplaced(bs[i].value), span: nowhere(), ..bs[i] }
            } else {
                arbitrary()
            },
    )
}

pub open spec fn unplaced_arms(arms: Seq<MatchArmV>) -> Seq<MatchArmV>
    decreases arms,
{
    Seq::new(
        arms.len(),
        |i: int|
            if 0 <= i < arms.len() {
                MatchArmV { body: unplaced(arms[i].body), span: nowhere(), ..arms[i] }
            } else {
                arbitrary()
            },
    )
}

proof fn lemma_keywords_differ()
    ensures
        "let"@ != "if"@,
        "do"@ != "if"@,
        "do"@ != "let"@,
        "as"@ != "if"@,
        "as"@ != "let"@,
        "as"@ != "do"@,
        "set!"@ != "if"@,
        "set!"@ != "let"@,
        "set!"@ != "do"@,
        "set!"@ != "as"@,
        "while"@ != "if"@,
        "while"@ != "let"@,
        "while"@ != "do"@,
        "while"@ != "as"@,
        "while"@ != "set!"@,
        "loop"@ != "if"@,
        "loop"@ != "let"@,
        "loop"@ != "do"@,
        "loop"@ != "as"@,
        "loop"@ != "set!"@,
        "loop"@ != "while"@,
        "break"@ != "if"@,
        "break"@ != "let"@,
        "break"@ != "do"@,
        "break"@ != "as"@,
        "break"@ != "set!"@,
        "break"@ != "while"@,
        "break"@ != "loop"@,
        "array"@ != "if"@,
        "array"@ != "let"@,
        "array"@ != "do"@,
        "array"@ != "as"@,
        "array"@ != "set!"@,
        "array"@ != "while"@,
        "array"@ != "loop"@,
        "array"@ != "break"@,
        "field"@ != "if"@,
        "field"@ != "let"@,
        "field"@ != "do"@,
        "field"@ != "as"@,
        "field"@ != "set!"@,
        "field"@ != "while"@,
        "field"@ != "loop"@,
        "field"@ != "break"@,
        "field"@ != "array"@,
        "match"@ != "if"@,
        "match"@ != "let"@,
        "match"@ != "do"@,
        "match"@ != "as"@,
        "match"@ != "set!"@,
        "match"@ != "while"@,
        "match"@ != "loop"@,
        "match"@ != "break"@,
        "match"@ != "array"@,
        "match"@ != "field"@,
{
    reveal_strlit("if");
    reveal_strlit("let");
    reveal_strlit("do");
    reveal_strlit("as");
    reveal_strlit("set!");
    reveal_strlit("while");
    reveal_strlit("loop");
    reveal_strlit("break");
    reveal_strlit("array");
    reveal_strlit("field");
    reveal_strlit("match");
    assert("let"@.len() != "if"@.len());
    assert("do"@[0] != "if"@[0]);
    assert("do"@.len() != "let"@.len());
    assert("as"@[0] != "if"@[0]);
    assert("as"@.len() != "let"@.len());
    assert("as"@[0] != "do"@[0]);
    assert("set!"@.len() != "if"@.len());
    assert("set!"@.len() != "let"@.len());
    assert("set!"@.len() != "do"@.len());
    assert("set!"@.len() != "as"@.len());
    assert("while"@.len() != "if"@.len());
    assert("while"@.len() != "let"@.len());
    assert("while"@.len() != "do"@.len());
    assert("while"@.len() != "as"@.len());
    assert("while"@.len() != "set!"@.len());
    assert("loop"@.len() != "if"@.len());
    assert("loop"@.len() != "let"@.len());
    assert("loop"@.len() != "do"@.len());
    assert("loop"@.len() != "as"@.len());
    assert("loop"@[0] != "set!"@[0]);
    assert("loop"@.len() != "while"@.len());
    assert("break"@.len() != "if"@.len());
    assert("break"@.len() != "let"@.len());
    assert("break"@.len() != "do"@.len());
    assert("break"@.len() != "as"@.len());
    assert("break"@.len() != "set!"@.len());
    assert("break"@[0] != "while"@[0]);
    assert("break"@.len() != "loop"@.len());
    assert("array"@.len() != "if"@.len());
    assert("array"@.len() != "let"@.len());
    assert("array"@.len() != "do"@.len());
    assert("array"@.len() != "as"@.len());
    assert("array"@.len() != "set!"@.len());
    assert("array"@[0] != "while"@[0]);
    assert("array"@.len() != "loop"@.len());
    assert("array"@[0] != "break"@[0]);
    assert("field"@.len() != "if"@.len());
    assert("field"@.len() != "let"@.len());
    assert("field"@.len() != "do"@.len());
    assert("field"@.len() != "as"@.len());
    assert("field"@.len() != "set!"@.len());
    assert("field"@[0] != "while"@[0]);
    assert("field"@.len() != "loop"@.len());
    assert("field"@[0] != "break"@[0]);
    assert("field"@[0] != "array"@[0]);
    assert("match"@.len() != "if"@.len());
    assert("match"@.len() != "let"@.len());
    assert("match"@.len() != "do"@.len());
    assert("match"@.len() != "as"@.len());
    assert("match"@.len() != "set!"@.len());
    assert("match"@[0] != "while"@[0]);
    assert("match"@.len() != "loop"@.len());
    assert("match"@[0] != "break"@[0]);
    assert("match"@[0] != "array"@[0]);
    assert("match"@[0] != "field"@[0]);
}

proof fn lemma_types_differ()
    ensures
        "i64"@ != "i32"@,
        "f32"@ != "i32"@,
        "f32"@ != "i64"@,
        "f64"@ != "i32"@,
        "f64"@ != "i64"@,
        "f64"@ != "f32"@,
        "bool"@ != "i32"@,
        "bool"@ != "i64"@,
        "bool"@ != "f32"@,
        "bool"@ != "f64"@,
        "str"@ != "i32"@,
        "str"@ != "i64"@,
        "str"@ != "f32"@,
        "str"@ != "f64"@,
        "str"@ != "bool"@,
        "unit"@ != "i32"@,
        "unit"@ != "i64"@,
        "unit"@ != "f32"@,
        "unit"@ != "f64"@,
        "unit"@ != "bool"@,
        "unit"@ != "str"@,
{
    reveal_strlit("i32");
    reveal_strlit("i64");
    reveal_strlit("f32");
    reveal_strlit("f64");
    reveal_strlit("bool");
    reveal_strlit("str");
    reveal_strlit("unit");
    assert("i64"@[1] != "i32"@[1]);
    assert("f32"@[0] != "i32"@[0]);
    assert("f32"@[0] != "i64"@[0]);
    assert("f64"@[0] != "i32"@[0]);
    assert("f64"@[0] != "i64"@[0]);
    assert("f64"@[1] != "f32"@[1]);
    assert("bool"@.len() != "i32"@.len());
    assert("bool"@.len() != "i64"@.len());
    assert("bool"@.len() != "f32"@.len());
    assert("bool"@.len() != "f64"@.len());
    assert("str"@[0] != "i32"@[0]);
    assert("str"@[0] != "i64"@[0]);
    assert("str"@[0] != "f32"@[0]);
    assert("str"@[0] != "f64"@[0]);
    assert("str"@.len() != "bool"@.len());
    assert("unit"@.len() != "i32"@.len());
    assert("unit"@.len() != "i64"@.len());
    assert("unit"@.len() != "f32"@.len());
    assert("unit"@.len() != "f64"@.len());
    assert("unit"@[0] != "bool"@[0]);
    assert("unit"@.len() != "str"@.len());
}

/// Whether a type was read.
pub open spec fn read_type(t: Seq<SpannedV>, p: nat, ty: TypeV) -> bool {
    grammar::p_type(t, p) == ParsedV::Got(ty, p + written::type_pieces(ty).len())
}

pub proof fn reads_type(t: Seq<SpannedV>, p: nat, ty: TypeV)
    requires
        symbols::written(ty),
        stands(t, p, written::type_pieces(ty)),
    ensures
        read_type(t, p, ty),
        written::type_pieces(ty).len() > 0,
    decreases ty,
{
    lemma_types_differ();
    match ty {
        TypeV::Array { elem, len } => {
            let a = written::opened("Array"@);
            let b = written::type_pieces(*elem);
            let c = written::one_piece(PieceV::Tok(TokenV::Int(len as i64, None)));
            stands_split(t, p, a + b + c, written::closed());
            stands_split(t, p, a + b, c);
            stands_split(t, p, a, b);
            stands_opened(t, p, "Array"@);
            reads_type(t, p + 2, *elem);
            let q = p + 2 + b.len();
            stands_one(t, q, PieceV::Tok(TokenV::Int(len as i64, None)));
            stands_one(t, q + 1, PieceV::Tok(TokenV::RParen));
            assert(grammar::p_array_len(t, q) == ParsedV::Got(len, q + 2));
        },
        TypeV::Named(n) => stands_one(t, p, PieceV::TypeName(n)),
        TypeV::I32 => stands_one(t, p, written::word("i32"@)),
        TypeV::I64 => stands_one(t, p, written::word("i64"@)),
        TypeV::F32 => stands_one(t, p, written::word("f32"@)),
        TypeV::F64 => stands_one(t, p, written::word("f64"@)),
        TypeV::Bool => stands_one(t, p, written::word("bool"@)),
        TypeV::Str => stands_one(t, p, written::word("str"@)),
        TypeV::Unit => stands_one(t, p, written::word("unit"@)),
    }
}

/// What an expression starts with.
proof fn starts(t: Seq<SpannedV>, p: nat, e: ExprV)
    requires
        stands(t, p, written::pieces(e)),
    ensures
        written::pieces(e).len() > 0,
        p < t.len(),
        !(t[p as int].tok is RParen || t[p as int].tok is RBracket || t[p as int].tok is Comma || t[p as int].tok is Colon),
        t[p as int].tok is Ident ==> e.kind is Var,
        e.kind is Var ==> written::pieces(e).len() == 1,
{
    let ps = written::pieces(e);
    reveal_with_fuel(written::pieces_kind, 2);
    assert(ps.len() > 0);
    assert(t[p as int].tok == written::token(ps[0]));
    match e.kind {
        ExprKindV::Lit(l) => {
            assert(ps[0] == PieceV::Tok(written::lit_token(l)));
        },
        ExprKindV::Var(n) => {
            assert(ps[0] == PieceV::Var(n));
        },
        _ => {
            assert(ps[0] == PieceV::Tok(TokenV::LParen));
        },
    }
}

/// Whether an expression was read.
pub open spec fn read_expr(t: Seq<SpannedV>, p: nat, e: ExprV) -> bool {
    grammar::p_expr(t, p) matches ParsedV::Got(r, q) && q == p + written::pieces(e).len() && unplaced(r)
        == unplaced(e)
}

proof fn reads_break_form(t: Seq<SpannedV>, p: nat, e: ExprV)
    requires
        e.kind is Break,
        writable(e),
        stands(t, p, written::pieces(e)),
    ensures
        read_expr(t, p, e),
    decreases e, 0int,
{
    lemma_keywords_differ();
    if let ExprKindV::Break = e.kind {
            stands_split(t, p, written::opened("break"@), written::closed());
            let p0: nat = p;
            let p1: nat = p0 + 2;
            stands_opened(t, p0, "break"@);
            stands_one(t, p1, PieceV::Tok(TokenV::RParen));
    }
}

proof fn reads_if_form(t: Seq<SpannedV>, p: nat, e: ExprV)
    requires
        e.kind is If,
        writable(e),
        stands(t, p, written::pieces(e)),
    ensures
        read_expr(t, p, e),
    decreases e, 0int,
{
    lemma_keywords_differ();
    if let ExprKindV::If { cond, then_branch, else_branch } = e.kind {
            stands_split(t, p, written::opened("if"@) + written::pieces(*cond) + written::pieces(*then_branch) + written::pieces(*else_branch), written::closed());
            stands_split(t, p, written::opened("if"@) + written::pieces(*cond) + written::pieces(*then_branch), written::pieces(*else_branch));
            stands_split(t, p, written::opened("if"@) + written::pieces(*cond), written::pieces(*then_branch));
            stands_split(t, p, written::opened("if"@), written::pieces(*cond));
            let p0: nat = p;
            let p1: nat = p0 + 2;
            let p2: nat = p1 + written::pieces(*cond).len();
            let p3: nat = p2 + written::pieces(*then_branch).len();
            let p4: nat = p3 + written::pieces(*else_branch).len();
            stands_opened(t, p0, "if"@);
            stands_one(t, p4, PieceV::Tok(TokenV::RParen));
            starts(t, p1, *cond);
            reads(t, p1, *cond);
            starts(t, p2, *then_branch);
            reads(t, p2, *then_branch);
            starts(t, p3, *else_branch);
            reads(t, p3, *else_branch);
        let start = t[p as int].span.start;
        assert(grammar::p_expr(t, p) == grammar::p_compound(t, p));
        assert(grammar::p_compound(t, p) == grammar::p_if(t, p + 2, start));
        let r = grammar::p_if(t, p + 2, start);
        assert(r is Got);
    }
}

proof fn reads_let_form(t: Seq<SpannedV>, p: nat, e: ExprV)
    requires
        e.kind is Let,
        writable(e),
        stands(t, p, written::pieces(e)),
    ensures
        read_expr(t, p, e),
    decreases e, 0int,
{
    lemma_keywords_differ();
    if let ExprKindV::Let { bindings, body } = e.kind {
            stands_split(t, p, written::opened("let"@) + written::one_piece(PieceV::Tok(TokenV::LBracket)) + written::pieces_bindings(bindings, bindings.len() as int) + written::one_piece(PieceV::Tok(TokenV::RBracket)) + written::pieces(*body), written::closed());
            stands_split(t, p, written::opened("let"@) + written::one_piece(PieceV::Tok(TokenV::LBracket)) + written::pieces_bindings(bindings, bindings.len() as int) + written::one_piece(PieceV::Tok(TokenV::RBracket)), written::pieces(*body));
            stands_split(t, p, written::opened("let"@) + written::one_piece(PieceV::Tok(TokenV::LBracket)) + written::pieces_bindings(bindings, bindings.len() as int), written::one_piece(PieceV::Tok(TokenV::RBracket)));
            stands_split(t, p, written::opened("let"@) + written::one_piece(PieceV::Tok(TokenV::LBracket)), written::pieces_bindings(bindings, bindings.len() as int));
            stands_split(t, p, written::opened("let"@), written::one_piece(PieceV::Tok(TokenV::LBracket)));
            let p0: nat = p;
            let p1: nat = p0 + 2;
            let p2: nat = p1 + 1;
            let p3: nat = p2 + written::pieces_bindings(bindings, bindings.len() as int).len();
            let p4: nat = p3 + 1;
            let p5: nat = p4 + written::pieces(*body).len();
            stands_opened(t, p0, "let"@);
            stands_one(t, p1, PieceV::Tok(TokenV::LBracket));
            stands_one(t, p3, PieceV::Tok(TokenV::RBracket));
            stands_one(t, p5, PieceV::Tok(TokenV::RParen));
            reads_bindings(t, p2, bindings);
            starts(t, p4, *body);
            reads(t, p4, *body);
        let start = t[p as int].span.start;
        assert(grammar::p_expr(t, p) == grammar::p_compound(t, p));
        assert(grammar::p_compound(t, p) == grammar::p_let(t, p + 2, start));
        let r = grammar::p_let(t, p + 2, start);
        assert(r is Got);
    }
}

proof fn reads_do_form(t: Seq<SpannedV>, p: nat, e: ExprV)
    requires
        e.kind is Do,
        writable(e),
        stands(t, p, written::pieces(e)),
    ensures
        read_expr(t, p, e),
    decreases e, 0int,
{
    lemma_keywords_differ();
    if let ExprKindV::Do(es) = e.kind {
            stands_split(t, p, written::opened("do"@) + written::pieces_all(es, es.len() as int), written::closed());
            stands_split(t, p, written::opened("do"@), written::pieces_all(es, es.len() as int));
            let p0: nat = p;
            let p1: nat = p0 + 2;
            let p2: nat = p1 + written::pieces_all(es, es.len() as int).len();
            stands_opened(t, p0, "do"@);
            stands_one(t, p2, PieceV::Tok(TokenV::RParen));
            reads_all(t, p1, es);
    }
}

proof fn reads_cast_form(t: Seq<SpannedV>, p: nat, e: ExprV)
    requires
        e.kind is Cast,
        writable(e),
        stands(t, p, written::pieces(e)),
    ensures
        read_expr(t, p, e),
    decreases e, 0int,
{
    lemma_keywords_differ();
    if let ExprKindV::Cast { ty, expr } = e.kind {
            stands_split(t, p, written::opened("as"@) + written::type_pieces(ty) + written::pieces(*expr), written::closed());
            stands_split(t, p, written::opened("as"@) + written::type_pieces(ty), written::pieces(*expr));
            stands_split(t, p, written::opened("as"@), written::type_pieces(ty));
            let p0: nat = p;
            let p1: nat = p0 + 2;
            let p2: nat = p1 + written::type_pieces(ty).len();
            let p3: nat = p2 + written::pieces(*expr).len();
            stands_opened(t, p0, "as"@);
            stands_one(t, p3, PieceV::Tok(TokenV::RParen));
            reads_type(t, p1, ty);
            starts(t, p2, *expr);
            reads(t, p2, *expr);
        let start = t[p as int].span.start;
        assert(grammar::p_expr(t, p) == grammar::p_compound(t, p));
        assert(grammar::p_compound(t, p) == grammar::p_cast(t, p + 2, start));
        let r = grammar::p_cast(t, p + 2, start);
        assert(r is Got);
    }
}

proof fn reads_assign_form(t: Seq<SpannedV>, p: nat, e: ExprV)
    requires
        e.kind is Assign,
        writable(e),
        stands(t, p, written::pieces(e)),
    ensures
        read_expr(t, p, e),
    decreases e, 0int,
{
    lemma_keywords_differ();
    if let ExprKindV::Assign { name, value } = e.kind {
            stands_split(t, p, written::opened("set!"@) + written::one_piece(PieceV::Name(name)) + written::pieces(*value), written::closed());
            stands_split(t, p, written::opened("set!"@) + written::one_piece(PieceV::Name(name)), written::pieces(*value));
            stands_split(t, p, written::opened("set!"@), written::one_piece(PieceV::Name(name)));
            let p0: nat = p;
            let p1: nat = p0 + 2;
            let p2: nat = p1 + 1;
            let p3: nat = p2 + written::pieces(*value).len();
            stands_opened(t, p0, "set!"@);
            stands_one(t, p1, PieceV::Name(name));
            stands_one(t, p3, PieceV::Tok(TokenV::RParen));
            starts(t, p2, *value);
            reads(t, p2, *value);
        let start = t[p as int].span.start;
        assert(grammar::p_expr(t, p) == grammar::p_compound(t, p));
        assert(grammar::p_compound(t, p) == grammar::p_assign(t, p + 2, start));
        let r = grammar::p_assign(t, p + 2, start);
        assert(r is Got);
    }
}

proof fn reads_while_form(t: Seq<SpannedV>, p: nat, e: ExprV)
    requires
        e.kind is While,
        writable(e),
        stands(t, p, written::pieces(e)),
    ensures
        read_expr(t, p, e),
    decreases e, 0int,
{
    lemma_keywords_differ();
    if let ExprKindV::While { cond, body } = e.kind {
            stands_split(t, p, written::opened("while"@) + written::pieces(*cond) + written::pieces(*body), written::closed());
            stands_split(t, p, written::opened("while"@) + written::pieces(*cond), written::pieces(*body));
            stands_split(t, p, written::opened("while"@), written::pieces(*cond));
            let p0: nat = p;
            let p1: nat = p0 + 2;
            let p2: nat = p1 + written::pieces(*cond).len();
            let p3: nat = p2 + written::pieces(*body).len();
            stands_opened(t, p0, "while"@);
            stands_one(t, p3, PieceV::Tok(TokenV::RParen));
            starts(t, p1, *cond);
            reads(t, p1, *cond);
            starts(t, p2, *body);
            reads(t, p2, *body);
        let start = t[p as int].span.start;
        assert(grammar::p_expr(t, p) == grammar::p_compound(t, p));
        assert(grammar::p_compound(t, p) == grammar::p_while(t, p + 2, start));
        let r = grammar::p_while(t, p + 2, start);
        assert(r is Got);
    }
}

proof fn reads_loop_form(t: Seq<SpannedV>, p: nat, e: ExprV)
    requires
        e.kind is Loop,
        writable(e),
        stands(t, p, written::pieces(e)),
    ensures
        read_expr(t, p, e),
    decreases e, 0int,
{
    lemma_keywords_differ();
    if let ExprKindV::Loop { body } = e.kind {
            stands_split(t, p, written::opened("loop"@) + written::pieces(*body), written::closed());
            stands_split(t, p, written::opened("loop"@), written::pieces(*body));
            let p0: nat = p;
            let p1: nat = p0 + 2;
            let p2: nat = p1 + written::pieces(*body).len();
            stands_opened(t, p0, "loop"@);
            stands_one(t, p2, PieceV::Tok(TokenV::RParen));
            starts(t, p1, *body);
            reads(t, p1, *body);
    }
}

proof fn reads_arraylit_form(t: Seq<SpannedV>, p: nat, e: ExprV)
    requires
        e.kind is ArrayLit,
        writable(e),
        stands(t, p, written::pieces(e)),
    ensures
        read_expr(t, p, e),
    decreases e, 0int,
{
    lemma_keywords_differ();
    if let ExprKindV::ArrayLit { elem_ty, elems } = e.kind {
            stands_split(t, p, written::opened("array"@) + written::type_pieces(elem_ty) + written::pieces_all(elems, elems.len() as int), written::closed());
            stands_split(t, p, written::opened("array"@) + written::type_pieces(elem_ty), written::pieces_all(elems, elems.len() as int));
            stands_split(t, p, written::opened("array"@), written::type_pieces(elem_ty));
            let p0: nat = p;
            let p1: nat = p0 + 2;
            let p2: nat = p1 + written::type_pieces(elem_ty).len();
            let p3: nat = p2 + written::pieces_all(elems, elems.len() as int).len();
            stands_opened(t, p0, "array"@);
            stands_one(t, p3, PieceV::Tok(TokenV::RParen));
            reads_type(t, p1, elem_ty);
            reads_all(t, p2, elems);
        let start = t[p as int].span.start;
        assert(grammar::p_expr(t, p) == grammar::p_compound(t, p));
        assert(grammar::p_compound(t, p) == grammar::p_array(t, p + 2, start));
        let r = grammar::p_array(t, p + 2, start);
        assert(r is Got);
    }
}

proof fn reads_field_form(t: Seq<SpannedV>, p: nat, e: ExprV)
    requires
        e.kind is Field,
        writable(e),
        stands(t, p, written::pieces(e)),
    ensures
        read_expr(t, p, e),
    decreases e, 0int,
{
    lemma_keywords_differ();
    if let ExprKindV::Field { base, field } = e.kind {
            stands_split(t, p, written::opened("field"@) + written::pieces(*base) + written::one_piece(PieceV::Name(field)), written::closed());
            stands_split(t, p, written::opened("field"@) + written::pieces(*base), written::one_piece(PieceV::Name(field)));
            stands_split(t, p, written::opened("field"@), written::pieces(*base));
            let p0: nat = p;
            let p1: nat = p0 + 2;
            let p2: nat = p1 + written::pieces(*base).len();
            let p3: nat = p2 + 1;
            stands_opened(t, p0, "field"@);
            stands_one(t, p2, PieceV::Name(field));
            stands_one(t, p3, PieceV::Tok(TokenV::RParen));
            starts(t, p1, *base);
            reads(t, p1, *base);
        let start = t[p as int].span.start;
        assert(grammar::p_expr(t, p) == grammar::p_compound(t, p));
        assert(grammar::p_compound(t, p) == grammar::p_field(t, p + 2, start));
        let r = grammar::p_field(t, p + 2, start);
        assert(r is Got);
    }
}

proof fn reads_match_form(t: Seq<SpannedV>, p: nat, e: ExprV)
    requires
        e.kind is Match,
        writable(e),
        stands(t, p, written::pieces(e)),
    ensures
        read_expr(t, p, e),
    decreases e, 0int,
{
    lemma_keywords_differ();
    if let ExprKindV::Match { scrutinee, arms } = e.kind {
            stands_split(t, p, written::opened("match"@) + written::pieces(*scrutinee) + written::pieces_arms(arms, arms.len() as int), written::closed());
            stands_split(t, p, written::opened("match"@) + written::pieces(*scrutinee), written::pieces_arms(arms, arms.len() as int));
            stands_split(t, p, written::opened("match"@), written::pieces(*scrutinee));
            let p0: nat = p;
            let p1: nat = p0 + 2;
            let p2: nat = p1 + written::pieces(*scrutinee).len();
            let p3: nat = p2 + written::pieces_arms(arms, arms.len() as int).len();
            stands_opened(t, p0, "match"@);
            stands_one(t, p3, PieceV::Tok(TokenV::RParen));
            starts(t, p1, *scrutinee);
            reads(t, p1, *scrutinee);
            reads_arms(t, p2, arms);
        let start = t[p as int].span.start;
        assert(grammar::p_expr(t, p) == grammar::p_compound(t, p));
        assert(grammar::p_compound(t, p) == grammar::p_match(t, p + 2, start));
        let r = grammar::p_match(t, p + 2, start);
        assert(r is Got);
    }
}

proof fn reads_call_form(t: Seq<SpannedV>, p: nat, e: ExprV)
    requires
        e.kind is Call,
        writable(e),
        stands(t, p, written::pieces(e)),
    ensures
        read_expr(t, p, e),
    decreases e, 0int,
{
    lemma_keywords_differ();
    if let ExprKindV::Call { callee, args } = e.kind {
            stands_split(t, p, written::one_piece(PieceV::Tok(TokenV::LParen)) + written::one_piece(PieceV::Callee(callee)) + written::pieces_all(args, args.len() as int), written::closed());
            stands_split(t, p, written::one_piece(PieceV::Tok(TokenV::LParen)) + written::one_piece(PieceV::Callee(callee)), written::pieces_all(args, args.len() as int));
            stands_split(t, p, written::one_piece(PieceV::Tok(TokenV::LParen)), written::one_piece(PieceV::Callee(callee)));
            let p0: nat = p;
            let p1: nat = p0 + 1;
            let p2: nat = p1 + 1;
            let p3: nat = p2 + written::pieces_all(args, args.len() as int).len();
            stands_one(t, p0, PieceV::Tok(TokenV::LParen));
            stands_one(t, p1, PieceV::Callee(callee));
            stands_one(t, p3, PieceV::Tok(TokenV::RParen));
            reads_all(t, p2, args);
    }
}

proof fn reads_lit(t: Seq<SpannedV>, p: nat, e: ExprV, l: LitV)
    requires
        e.ty is None,
        e.kind == ExprKindV::Lit(l),
        stands(t, p, written::pieces(e)),
    ensures
        read_expr(t, p, e),
{
    let w = PieceV::Tok(written::lit_token(l));
    assert(written::pieces(e) == written::one_piece(w));
    stands_one(t, p, w);
    assert(written::pieces(e).len() == 1);
    let span = t[p as int].span;
    match l {
        LitV::Int(v, k) => {
            assert(grammar::p_expr(t, p) == ParsedV::Got(grammar::untyped(e.kind, span), p + 1));
        },
        LitV::Float(s, k) => {
            assert(grammar::p_expr(t, p) == ParsedV::Got(grammar::untyped(e.kind, span), p + 1));
        },
        LitV::Bool(b) => {
            assert(grammar::p_expr(t, p) == ParsedV::Got(grammar::untyped(e.kind, span), p + 1));
        },
        LitV::Str(s) => {
            assert(grammar::p_expr(t, p) == ParsedV::Got(grammar::untyped(e.kind, span), p + 1));
        },
    }
}

#[verifier::rlimit(80)]
proof fn reads(t: Seq<SpannedV>, p: nat, e: ExprV)
    requires
        writable(e),
        stands(t, p, written::pieces(e)),
    ensures
        read_expr(t, p, e),
    decreases e, 1int,
{
    lemma_keywords_differ();
    starts(t, p, e);
    match e.kind {
        ExprKindV::Lit(l) => reads_lit(t, p, e, l),
        ExprKindV::Var(n) => stands_one(t, p, PieceV::Var(n)),
        ExprKindV::Break => reads_break_form(t, p, e),
        ExprKindV::If { .. } => reads_if_form(t, p, e),
        ExprKindV::Let { .. } => reads_let_form(t, p, e),
        ExprKindV::Do(..) => reads_do_form(t, p, e),
        ExprKindV::Cast { .. } => reads_cast_form(t, p, e),
        ExprKindV::Assign { .. } => reads_assign_form(t, p, e),
        ExprKindV::While { .. } => reads_while_form(t, p, e),
        ExprKindV::Loop { .. } => reads_loop_form(t, p, e),
        ExprKindV::ArrayLit { .. } => reads_arraylit_form(t, p, e),
        ExprKindV::Field { .. } => reads_field_form(t, p, e),
        ExprKindV::Match { .. } => reads_match_form(t, p, e),
        ExprKindV::Call { .. } => reads_call_form(t, p, e),
    }
}

/// The words from place `i` of a list on.
spec fn rest_all(xs: Seq<ExprV>, i: int) -> Seq<PieceV>
    decreases xs.len() - i,
{
    if i < 0 || i >= xs.len() {
        Seq::empty()
    } else {
        written::pieces(xs[i]) + rest_all(xs, i + 1)
    }
}

proof fn rest_all_whole(xs: Seq<ExprV>, i: int)
    requires
        0 <= i <= xs.len(),
    ensures
        written::pieces_all(xs, i) + rest_all(xs, i) == written::pieces_all(xs, xs.len() as int),
    decreases xs.len() - i,
{
    if i < xs.len() {
        rest_all_whole(xs, i + 1);
        assert(written::pieces_all(xs, i) + (written::pieces(xs[i]) + rest_all(xs, i + 1)) =~= (
        written::pieces_all(xs, i) + written::pieces(xs[i])) + rest_all(xs, i + 1));
    } else {
        assert(written::pieces_all(xs, i) + rest_all(xs, i) =~= written::pieces_all(xs, i));
    }
}

proof fn reads_all(t: Seq<SpannedV>, p: nat, xs: Seq<ExprV>)
    requires
        forall|j: int| 0 <= j < xs.len() ==> writable(#[trigger] xs[j]),
        stands(t, p, written::pieces_all(xs, xs.len() as int)),
        p + written::pieces_all(xs, xs.len() as int).len() < t.len(),
        t[(p + written::pieces_all(xs, xs.len() as int).len()) as int].tok is RParen,
    ensures
        grammar::p_exprs(t, p, Seq::empty()) matches ParsedV::Got(r, q) && q == p
            + written::pieces_all(xs, xs.len() as int).len() && unplaced_all(r) == unplaced_all(xs),
    decreases xs, xs.len() + 1,
{
    rest_all_whole(xs, 0);
    assert(written::pieces_all(xs, 0) + rest_all(xs, 0) =~= rest_all(xs, 0));
    assert(unplaced_all(Seq::empty()) =~= unplaced_all(xs).take(0));
    reads_all_from(t, p, xs, 0, Seq::empty());
}

proof fn reads_all_from(t: Seq<SpannedV>, p: nat, xs: Seq<ExprV>, i: int, acc: Seq<ExprV>)
    requires
        0 <= i <= xs.len(),
        acc.len() == i,
        unplaced_all(acc) == unplaced_all(xs).take(i),
        forall|j: int| 0 <= j < xs.len() ==> writable(#[trigger] xs[j]),
        stands(t, p, rest_all(xs, i)),
        p + rest_all(xs, i).len() < t.len(),
        t[(p + rest_all(xs, i).len()) as int].tok is RParen,
    ensures
        grammar::p_exprs(t, p, acc) matches ParsedV::Got(r, q) && q == p + rest_all(xs, i).len()
            && unplaced_all(r) == unplaced_all(xs),
    decreases xs, xs.len() - i,
{
    if i < xs.len() {
        let x = xs[i];
        stands_split(t, p, written::pieces(x), rest_all(xs, i + 1));
        let q = p + written::pieces(x).len();
            starts(t, p, x);
            reads(t, p, x);
            let got = grammar::p_expr(t, p);
            if let ParsedV::Got(r, at) = got {
                assert(at == q);
                let more = acc.push(r);
                assert(unplaced_all(more) =~= unplaced_all(xs).take(i + 1)) by {
                    assert forall|j: int| 0 <= j < i + 1 implies unplaced_all(more)[j] == unplaced_all(xs).take(i + 1)[j] by {
                        if j < i {
                            assert(unplaced_all(acc)[j] == unplaced_all(xs).take(i)[j]);
                            assert(more[j] == acc[j]);
                        }
                    }
                }
                reads_all_from(t, q, xs, i + 1, more);
            }
    } else {
        assert(unplaced_all(xs).take(i) =~= unplaced_all(xs));
    }
}

/// The words from place `i` of a list on.
spec fn rest_bindings(xs: Seq<BindingV>, i: int) -> Seq<PieceV>
    decreases xs.len() - i,
{
    if i < 0 || i >= xs.len() {
        Seq::empty()
    } else {
        written::pieces_binding(xs[i]) + rest_bindings(xs, i + 1)
    }
}

proof fn rest_bindings_whole(xs: Seq<BindingV>, i: int)
    requires
        0 <= i <= xs.len(),
    ensures
        written::pieces_bindings(xs, i) + rest_bindings(xs, i) == written::pieces_bindings(xs, xs.len() as int),
    decreases xs.len() - i,
{
    if i < xs.len() {
        rest_bindings_whole(xs, i + 1);
        assert(written::pieces_bindings(xs, i) + (written::pieces_binding(xs[i]) + rest_bindings(xs, i + 1)) =~= (
        written::pieces_bindings(xs, i) + written::pieces_binding(xs[i])) + rest_bindings(xs, i + 1));
    } else {
        assert(written::pieces_bindings(xs, i) + rest_bindings(xs, i) =~= written::pieces_bindings(xs, i));
    }
}

proof fn reads_bindings(t: Seq<SpannedV>, p: nat, xs: Seq<BindingV>)
    requires
        forall|j: int| 0 <= j < xs.len() ==> writable((#[trigger] xs[j]).value) && symbols::written(xs[j].ty),
        stands(t, p, written::pieces_bindings(xs, xs.len() as int)),
        p + written::pieces_bindings(xs, xs.len() as int).len() < t.len(),
        t[(p + written::pieces_bindings(xs, xs.len() as int).len()) as int].tok is RBracket,
    ensures
        grammar::p_bindings(t, p, Seq::empty()) matches ParsedV::Got(r, q) && q == p
            + written::pieces_bindings(xs, xs.len() as int).len() && unplaced_bindings(r) == unplaced_bindings(xs),
    decreases xs, xs.len() + 1,
{
    rest_bindings_whole(xs, 0);
    assert(written::pieces_bindings(xs, 0) + rest_bindings(xs, 0) =~= rest_bindings(xs, 0));
    assert(unplaced_bindings(Seq::empty()) =~= unplaced_bindings(xs).take(0));
    reads_bindings_from(t, p, xs, 0, Seq::empty());
}

proof fn reads_bindings_from(t: Seq<SpannedV>, p: nat, xs: Seq<BindingV>, i: int, acc: Seq<BindingV>)
    requires
        0 <= i <= xs.len(),
        acc.len() == i,
        unplaced_bindings(acc) == unplaced_bindings(xs).take(i),
        forall|j: int| 0 <= j < xs.len() ==> writable((#[trigger] xs[j]).value) && symbols::written(xs[j].ty),
        stands(t, p, rest_bindings(xs, i)),
        p + rest_bindings(xs, i).len() < t.len(),
        t[(p + rest_bindings(xs, i).len()) as int].tok is RBracket,
    ensures
        grammar::p_bindings(t, p, acc) matches ParsedV::Got(r, q) && q == p + rest_bindings(xs, i).len()
            && unplaced_bindings(r) == unplaced_bindings(xs),
    decreases xs, xs.len() - i,
{
    if i < xs.len() {
        let x = xs[i];
        stands_split(t, p, written::pieces_binding(x), rest_bindings(xs, i + 1));
        let q = p + written::pieces_binding(x).len();
            reads_binding(t, p, x);
            let got = grammar::p_binding(t, p);
            next_binding(t, q, xs, i + 1);
            if let ParsedV::Got(r, at) = got {
                assert(at == q);
                let more = acc.push(r);
                assert(unplaced_bindings(more) =~= unplaced_bindings(xs).take(i + 1)) by {
                    assert forall|j: int| 0 <= j < i + 1 implies unplaced_bindings(more)[j] == unplaced_bindings(xs).take(i + 1)[j] by {
                        if j < i {
                            assert(unplaced_bindings(acc)[j] == unplaced_bindings(xs).take(i)[j]);
                            assert(more[j] == acc[j]);
                        }
                    }
                }
                reads_bindings_from(t, q, xs, i + 1, more);
            }
    } else {
        assert(unplaced_bindings(xs).take(i) =~= unplaced_bindings(xs));
    }
}

/// The words from place `i` of a list on.
spec fn rest_arms(xs: Seq<MatchArmV>, i: int) -> Seq<PieceV>
    decreases xs.len() - i,
{
    if i < 0 || i >= xs.len() {
        Seq::empty()
    } else {
        written::pieces_arm(xs[i]) + rest_arms(xs, i + 1)
    }
}

proof fn rest_arms_whole(xs: Seq<MatchArmV>, i: int)
    requires
        0 <= i <= xs.len(),
    ensures
        written::pieces_arms(xs, i) + rest_arms(xs, i) == written::pieces_arms(xs, xs.len() as int),
    decreases xs.len() - i,
{
    if i < xs.len() {
        rest_arms_whole(xs, i + 1);
        assert(written::pieces_arms(xs, i) + (written::pieces_arm(xs[i]) + rest_arms(xs, i + 1)) =~= (
        written::pieces_arms(xs, i) + written::pieces_arm(xs[i])) + rest_arms(xs, i + 1));
    } else {
        assert(written::pieces_arms(xs, i) + rest_arms(xs, i) =~= written::pieces_arms(xs, i));
    }
}

proof fn reads_arms(t: Seq<SpannedV>, p: nat, xs: Seq<MatchArmV>)
    requires
        forall|j: int| 0 <= j < xs.len() ==> writable((#[trigger] xs[j]).body),
        stands(t, p, written::pieces_arms(xs, xs.len() as int)),
        p + written::pieces_arms(xs, xs.len() as int).len() < t.len(),
        t[(p + written::pieces_arms(xs, xs.len() as int).len()) as int].tok is RParen,
    ensures
        grammar::p_arms(t, p, Seq::empty()) matches ParsedV::Got(r, q) && q == p
            + written::pieces_arms(xs, xs.len() as int).len() && unplaced_arms(r) == unplaced_arms(xs),
    decreases xs, xs.len() + 1,
{
    rest_arms_whole(xs, 0);
    assert(written::pieces_arms(xs, 0) + rest_arms(xs, 0) =~= rest_arms(xs, 0));
    assert(unplaced_arms(Seq::empty()) =~= unplaced_arms(xs).take(0));
    reads_arms_from(t, p, xs, 0, Seq::empty());
}

proof fn reads_arms_from(t: Seq<SpannedV>, p: nat, xs: Seq<MatchArmV>, i: int, acc: Seq<MatchArmV>)
    requires
        0 <= i <= xs.len(),
        acc.len() == i,
        unplaced_arms(acc) == unplaced_arms(xs).take(i),
        forall|j: int| 0 <= j < xs.len() ==> writable((#[trigger] xs[j]).body),
        stands(t, p, rest_arms(xs, i)),
        p + rest_arms(xs, i).len() < t.len(),
        t[(p + rest_arms(xs, i).len()) as int].tok is RParen,
    ensures
        grammar::p_arms(t, p, acc) matches ParsedV::Got(r, q) && q == p + rest_arms(xs, i).len()
            && unplaced_arms(r) == unplaced_arms(xs),
    decreases xs, xs.len() - i,
{
    if i < xs.len() {
        let x = xs[i];
        stands_split(t, p, written::pieces_arm(x), rest_arms(xs, i + 1));
        let q = p + written::pieces_arm(x).len();
            reads_arm(t, p, x);
            let got = grammar::p_arm(t, p);
            if let ParsedV::Got(r, at) = got {
                assert(at == q);
                let more = acc.push(r);
                assert(unplaced_arms(more) =~= unplaced_arms(xs).take(i + 1)) by {
                    assert forall|j: int| 0 <= j < i + 1 implies unplaced_arms(more)[j] == unplaced_arms(xs).take(i + 1)[j] by {
                        if j < i {
                            assert(unplaced_arms(acc)[j] == unplaced_arms(xs).take(i)[j]);
                            assert(more[j] == acc[j]);
                        }
                    }
                }
                reads_arms_from(t, q, xs, i + 1, more);
            }
    } else {
        assert(unplaced_arms(xs).take(i) =~= unplaced_arms(xs));
    }
}

/// What is behind a binding is no comma.
proof fn next_binding(t: Seq<SpannedV>, q: nat, xs: Seq<BindingV>, i: int)
    requires
        0 <= i <= xs.len(),
        stands(t, q, rest_bindings(xs, i)),
        q + rest_bindings(xs, i).len() < t.len(),
        t[(q + rest_bindings(xs, i).len()) as int].tok is RBracket,
    ensures
        grammar::past_comma(t, q) == q,
{
    if i < xs.len() {
        let ps = rest_bindings(xs, i);
        assert(ps[0] == PieceV::Name(xs[i].name));
        assert(t[q as int].tok == written::token(ps[0]));
    }
}

proof fn reads_binding(t: Seq<SpannedV>, p: nat, x: BindingV)
    requires
        writable(x.value),
        symbols::written(x.ty),
        stands(t, p, written::pieces_binding(x)),
    ensures
        grammar::p_binding(t, p) matches ParsedV::Got(r, q) && q == p + written::pieces_binding(x).len()
            && r.name == x.name && r.ty == x.ty && unplaced(r.value) == unplaced(x.value),
        written::pieces_binding(x).len() > 0,
        p < t.len() && t[p as int].tok is Ident,
    decreases x, 2int,
{
    let a = written::one_piece(PieceV::Name(x.name));
    let b = written::one_piece(PieceV::Tok(TokenV::Colon));
    let c = written::type_pieces(x.ty);
    stands_split(t, p, a + b + c, written::pieces(x.value));
    stands_split(t, p, a + b, c);
    stands_split(t, p, a, b);
    stands_one(t, p, PieceV::Name(x.name));
    stands_one(t, p + 1, PieceV::Tok(TokenV::Colon));
    reads_type(t, p + 2, x.ty);
    reads(t, p + 2 + c.len(), x.value);
}

proof fn reads_arm(t: Seq<SpannedV>, p: nat, x: MatchArmV)
    requires
        writable(x.body),
        stands(t, p, written::pieces_arm(x)),
    ensures
        grammar::p_arm(t, p) matches ParsedV::Got(r, q) && q == p + written::pieces_arm(x).len()
            && r.variant == x.variant && r.binding == x.binding && unplaced(r.body) == unplaced(x.body),
        written::pieces_arm(x).len() > 0,
        p < t.len() && t[p as int].tok is LParen,
    decreases x, 2int,
{
    let a = written::one_piece(PieceV::Tok(TokenV::LParen));
    let b = written::one_piece(PieceV::Variant(x.variant));
    let c = written::bound_piece(x.binding);
    let d = written::pieces(x.body);
    stands_split(t, p, a + b + c + d, written::closed());
    stands_split(t, p, a + b + c, d);
    stands_split(t, p, a + b, c);
    stands_split(t, p, a, b);
    stands_one(t, p, PieceV::Tok(TokenV::LParen));
    stands_one(t, p + 1, PieceV::Variant(x.variant));
    let q = p + 2 + c.len();
    starts(t, q, x.body);
    reads(t, q, x.body);
    let end = q + d.len();
    stands_one(t, end, PieceV::Tok(TokenV::RParen));
    match x.binding {
        Some(n) => {
            stands_one(t, p + 2, PieceV::Name(n));
        },
        None => {},
    }
    let r = grammar::p_arm_body(t, p + 2);
    assert(r matches ParsedV::Got(g, at) && at == end && g.0 == x.binding && unplaced(g.1) == unplaced(
        x.body,
    ));
}

/// Reading undoes writing: wherever the words of an expression stand, the parser reads
/// that expression, up to places, and all of its words.
pub proof fn law_reading_undoes_writing(t: Seq<SpannedV>, p: nat, e: ExprV)
    requires
        writable(e),
        stands(t, p, written::pieces(e)),
    ensures
        grammar::p_expr(t, p) matches ParsedV::Got(r, q) && q == p + written::pieces(e).len()
            && unplaced(r) == unplaced(e),
{
    reads(t, p, e);
}

/// The tokens of words.
pub open spec fn tokens_of(ps: Seq<PieceV>) -> Seq<TokenV> {
    Seq::new(ps.len(), |i: int| written::token(ps[i]))
}

/// The text of an expression: its words, with a blank behind each.
pub open spec fn expr_chars(e: ExprV) -> Seq<char> {
    spelling::tokens_chars(tokens_of(written::pieces(e)))
}

/// The text of an expression is read as that expression, up to places. So `true` is read
/// as true, a number as that number, and a form as its parts in their order.
pub proof fn law_text_of_expression_is_read(e: ExprV)
    requires
        writable(e),
        forall|i: int|
            0 <= i < written::pieces(e).len() ==> spelling::spellable(
                written::token(#[trigger] written::pieces(e)[i]),
            ),
    ensures
        grammar::parse_expr_text(expr_chars(e)) matches Ok(r) && unplaced(r) == unplaced(e),
{
    let ps = written::pieces(e);
    let ts = tokens_of(ps);
    assert forall|k: int| 0 <= k < ts.len() implies spelling::spellable(#[trigger] ts[k]) by {
        assert(ts[k] == written::token(ps[k]));
    }
    spelling::law_text_gives_tokens_back(ts);
    let t = lexer::lex_text(expr_chars(e))->Ok_0;
    assert forall|i: int| 0 <= i < ps.len() implies t[0 + i].tok == written::token(#[trigger] ps[i]) by {
        assert(t[i].tok == ts[i]);
    }
    law_reading_undoes_writing(t, 0, e);
}

} // verus!
