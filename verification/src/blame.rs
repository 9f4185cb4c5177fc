//! Laws about refused programs: macro and type errors point into the text.
use crate::ast::{
    BindingV, EnumDefV, ExprKindV, ExprV, FieldDefV, FunctionV, GenericFunctionV, ImplBlockV,
    MatchArmV, MethodSigV, ParamV, ProgramV, Span, TopLevelV, TraitDefV, TypeV,
};
use crate::macroexpand::{MacroErrorV, Macros, MAX_EXPAND_DEPTH};
use crate::macroexpand;
use crate::places;
use crate::typeck::arity;
use crate::typing::{Checked, CkV, Env, FnSigV, Pass, Subst, TypeErrorV, VariantInfoV};
use crate::typing;
use vstd::prelude::*;

verus! {

/// Whether the place of a type error is in the text. Where a foreign function takes the
/// name of `main`, the error is about no place and points to the start.
pub open spec fn type_error_in_text(e: TypeErrorV, len: int) -> bool {
    typing::type_error_span(e) matches Some(sp) ==> places::in_text(sp, len) || sp == (Span { start: 0, end: 0 })
}

/// Whether the bodies of the generic functions that are known are placed.
pub open spec fn templates_placed(s: CkV, len: int) -> bool {
    forall|n: Seq<char>| #[trigger]
        s.generic_fns.contains_key(n) ==> places::placed(s.generic_fns[n].body, len)
}

/// Whether an error, if there is one, is in the text, and generic functions are kept.
spec fn fair<N, R>(c: Checked<N, R>, s: CkV, len: int) -> bool {
    &&& c.r matches Err(x) ==> type_error_in_text(x, len)
    &&& c.r is Ok ==> c.s.generic_fns == s.generic_fns
}

proof fn lemma_subst(e: ExprV, subst: Subst, len: int)
    requires
        places::placed(e, len),
    ensures
        places::placed(typing::subst_body(e, subst), len),
    decreases e, 1int,
{
    lemma_subst_kind(e.kind, subst, len);
}

#[verifier::rlimit(30)]
proof fn lemma_subst_kind(k: ExprKindV, subst: Subst, len: int)
    requires
        places::placed_kind(k, len),
    ensures
        places::placed_kind(typing::subst_kind(k, subst), len),
    decreases k, 1int,
{
    match k {
        ExprKindV::If { cond, then_branch, else_branch } => {
            lemma_subst(*cond, subst, len);
            lemma_subst(*then_branch, subst, len);
            lemma_subst(*else_branch, subst, len);
        },
        ExprKindV::Let { bindings, body } => {
            lemma_subst_bindings(bindings, subst, len);
            lemma_subst(*body, subst, len);
        },
        ExprKindV::Do(es) => lemma_subst_all(es, subst, len),
        ExprKindV::Cast { ty, expr } => lemma_subst(*expr, subst, len),
        ExprKindV::Assign { name, value } => lemma_subst(*value, subst, len),
        ExprKindV::While { cond, body } => {
            lemma_subst(*cond, subst, len);
            lemma_subst(*body, subst, len);
        },
        ExprKindV::Loop { body } => lemma_subst(*body, subst, len),
        ExprKindV::ArrayLit { elem_ty, elems } => lemma_subst_all(elems, subst, len),
        ExprKindV::Field { base, field } => lemma_subst(*base, subst, len),
        ExprKindV::Match { scrutinee, arms } => {
            lemma_subst(*scrutinee, subst, len);
            lemma_subst_arms(arms, subst, len);
        },
        ExprKindV::Call { callee, args } => lemma_subst_all(args, subst, len),
        _ => {},
    }
}

proof fn lemma_subst_all(es: Seq<ExprV>, subst: Subst, len: int)
    requires
        places::placed_all(es, len),
    ensures
        places::placed_all(typing::subst_all(es, subst), len),
    decreases es, 0int,
{
    assert forall|i: int| 0 <= i < es.len() implies places::placed(#[trigger] typing::subst_all(es, subst)[i], len) by {
        lemma_subst(es[i], subst, len);
    }
}

proof fn lemma_subst_bindings(bs: Seq<BindingV>, subst: Subst, len: int)
    requires
        places::placed_bindings(bs, len),
    ensures
        places::placed_bindings(typing::subst_bindings(bs, subst), len),
    decreases bs, 0int,
{
    let out = typing::subst_bindings(bs, subst);
    assert forall|i: int| 0 <= i < bs.len() implies places::in_text((#[trigger] out[i]).span, len) && places::placed(
        out[i].value,
        len,
    ) by {
        assert(places::in_text(bs[i].span, len));
        lemma_subst(bs[i].value, subst, len);
    }
}

proof fn lemma_subst_arms(arms: Seq<MatchArmV>, subst: Subst, len: int)
    requires
        places::placed_arms(arms, len),
    ensures
        places::placed_arms(typing::subst_arms(arms, subst), len),
    decreases arms, 0int,
{
    let out = typing::subst_arms(arms, subst);
    assert forall|i: int| 0 <= i < arms.len() implies places::in_text((#[trigger] out[i]).span, len)
        && places::placed(out[i].body, len) by {
        assert(places::in_text(arms[i].span, len));
        lemma_subst(arms[i].body, subst, len);
    }
}

proof fn lemma_unified(pattern: TypeV, concrete: TypeV, tps: Set<Seq<char>>, subst: Subst, span: Span)
    ensures
        typing::unified(pattern, concrete, tps, subst, span) matches Err(x) ==> typing::type_error_span(x) == Some(
            span,
        ),
    decreases pattern,
{
    if let TypeV::Array { elem: pe, len: plen } = pattern {
        if let TypeV::Array { elem: ce, len: clen } = concrete {
            lemma_unified(*pe, *ce, tps, subst, span);
        }
    }
}

proof fn lemma_type_args(
    tps: Seq<(Seq<char>, Option<Seq<char>>)>,
    i: int,
    acc: Seq<TypeV>,
    subst: Subst,
    impls: Set<(Seq<char>, TypeV)>,
    span: Span,
)
    ensures
        typing::type_args(tps, i, acc, subst, impls, span) matches Err(x) ==> typing::type_error_span(x) == Some(span),
    decreases tps.len() - i,
{
    if 0 <= i < tps.len() {
        let (name, bound) = tps[i];
        if subst.contains_key(name) {
            lemma_type_args(tps, i + 1, acc.push(subst[name]), subst, impls, span);
        }
    }
}

proof fn lemma_misfit(params: Seq<TypeV>, tys: Seq<TypeV>, args: Seq<ExprV>, i: int, len: int)
    requires
        places::placed_all(args, len),
        tys.len() <= args.len(),
    ensures
        typing::misfit(params, tys, args, i) matches Some(x) ==> type_error_in_text(x, len),
    decreases params.len() - i,
{
    if 0 <= i < params.len() && i < tys.len() {
        assert(places::placed(args[i], len));
        lemma_misfit(params, tys, args, i + 1, len);
    }
}

proof fn fair_check(gas: nat, e: ExprV, env: Env, s: CkV, len: int)
    requires
        places::placed(e, len),
        templates_placed(s, len),
    ensures
        ({
            let c = typing::check(gas, e, env, s);
            fair(c, s, len) && (c.r is Ok ==> places::placed(c.node, len))
        }),
    decreases gas, e, 0int,
{
    fair_check_kind(gas, e.kind, e.span, env, s, len);
}

proof fn fair_check_as(gas: nat, e: ExprV, want: TypeV, env: Env, s: CkV, len: int)
    requires
        places::placed(e, len),
        templates_placed(s, len),
    ensures
        ({
            let c = typing::check_as(gas, e, want, env, s);
            fair(c, s, len) && (c.r is Ok ==> places::placed(c.node, len))
        }),
    decreases gas, e, 1int,
{
    fair_check(gas, e, env, s, len);
}

#[verifier::rlimit(60)]
proof fn fair_check_kind(gas: nat, k: ExprKindV, span: Span, env: Env, s: CkV, len: int)
    requires
        places::placed_kind(k, len),
        places::in_text(span, len),
        templates_placed(s, len),
    ensures
        ({
            let c = typing::check_kind(gas, k, span, env, s);
            fair(c, s, len) && (c.r is Ok ==> places::placed_kind(c.node, len))
        }),
    decreases gas, k, 3int,
{
    match k {
        ExprKindV::If { cond, then_branch, else_branch } => {
            let c = typing::check_as(gas, *cond, TypeV::Bool, env, s);
            fair_check_as(gas, *cond, TypeV::Bool, env, s, len);
            if c.r is Ok {
                let a = typing::check(gas, *then_branch, env, c.s);
                fair_check(gas, *then_branch, env, c.s, len);
                if a.r is Ok {
                    fair_check_as(gas, *else_branch, a.r->Ok_0, env, a.s, len);
                }
            }
        },
        ExprKindV::Let { bindings, body } => {
            let c = typing::check_bindings(gas, bindings, 0, Seq::empty(), env, s);
            fair_check_bindings(gas, bindings, 0, Seq::empty(), env, s, len);
            if c.r is Ok {
                fair_check(gas, *body, c.r->Ok_0, c.s, len);
            }
        },
        ExprKindV::Do(es) => fair_check_do(gas, es, 0, Seq::empty(), TypeV::Unit, env, s, len),
        ExprKindV::Cast { ty, expr } => fair_check(gas, *expr, env, s, len),
        ExprKindV::Assign { name, value } => {
            if env.contains_key(name) {
                fair_check_as(gas, *value, env[name], env, s, len);
            }
        },
        ExprKindV::While { cond, body } => {
            let c = typing::check_as(gas, *cond, TypeV::Bool, env, s);
            fair_check_as(gas, *cond, TypeV::Bool, env, s, len);
            if c.r is Ok {
                fair_check(gas, *body, env, CkV { in_loop: true, ..c.s }, len);
            }
        },
        ExprKindV::Loop { body } => fair_check(gas, *body, env, CkV { in_loop: true, ..s }, len),
        ExprKindV::ArrayLit { elem_ty, elems } => {
            let wants = Seq::new(elems.len(), |i: int| elem_ty);
            fair_check_args(gas, elems, 0, Seq::empty(), wants, env, s, len);
        },
        ExprKindV::Field { base, field } => fair_check(gas, *base, env, s, len),
        ExprKindV::Match { .. } => fair_check_match(gas, k, span, env, s, len),
        ExprKindV::Call { callee, args } => fair_check_call(gas, callee, args, span, env, s, len),
        _ => {},
    }
}

proof fn fair_check_match(gas: nat, k: ExprKindV, span: Span, env: Env, s: CkV, len: int)
    requires
        k is Match,
        places::placed_kind(k, len),
        places::in_text(span, len),
        templates_placed(s, len),
    ensures
        ({
            let c = typing::check_match(gas, k, span, env, s);
            fair(c, s, len) && (c.r is Ok ==> places::placed_kind(c.node, len))
        }),
    decreases gas, k, 2int,
{
    if let ExprKindV::Match { scrutinee, arms } = k {
        let c = typing::check(gas, *scrutinee, env, s);
        fair_check(gas, *scrutinee, env, s, len);
        if c.r is Ok {
            let st = c.r->Ok_0;
            if st is Named && c.s.enums.contains_key(st->Named_0) {
                let name = c.s.enums[st->Named_0].name;
                fair_check_arms(gas, arms, 0, Seq::empty(), name, Set::empty(), None, env, c.s, len);
            }
        }
    }
}

proof fn fair_check_arms(
    gas: nat,
    arms: Seq<MatchArmV>,
    i: int,
    acc: Seq<MatchArmV>,
    enum_name: Seq<char>,
    seen: Set<Seq<char>>,
    ty: Option<TypeV>,
    env: Env,
    s: CkV,
    len: int,
)
    requires
        places::placed_arms(arms, len),
        places::placed_arms(acc, len),
        templates_placed(s, len),
    ensures
        ({
            let c = typing::check_arms(gas, arms, i, acc, enum_name, seen, ty, env, s);
            fair(c, s, len) && (c.r is Ok ==> places::placed_arms(c.node, len))
        }),
    decreases gas, arms, arms.len() - i,
{
    if 0 <= i < arms.len() {
        let arm = arms[i];
        assert(places::in_text(arm.span, len) && places::placed(arm.body, len));
        if typing::bad_arm(s, arm, enum_name, seen) is None {
            let b = typing::check(gas, arm.body, typing::arm_scope(s, arm, env), s);
            fair_check(gas, arm.body, typing::arm_scope(s, arm, env), s, len);
            if b.r is Ok && !(ty is Some && ty->0 != b.r->Ok_0) {
                fair_check_arms(
                    gas,
                    arms,
                    i + 1,
                    acc.push(MatchArmV { body: b.node, ..arm }),
                    enum_name,
                    seen.insert(arm.variant),
                    Some(b.r->Ok_0),
                    env,
                    b.s,
                    len,
                );
            }
        }
    }
}

proof fn fair_check_do(
    gas: nat,
    es: Seq<ExprV>,
    i: int,
    acc: Seq<ExprV>,
    last: TypeV,
    env: Env,
    s: CkV,
    len: int,
)
    requires
        places::placed_all(es, len),
        places::placed_all(acc, len),
        templates_placed(s, len),
    ensures
        ({
            let c = typing::check_do(gas, es, i, acc, last, env, s);
            fair(c, s, len) && (c.r is Ok ==> places::placed_all(c.node, len))
        }),
    decreases gas, es, es.len() - i,
{
    if 0 <= i < es.len() {
        let c = typing::check(gas, es[i], env, s);
        fair_check(gas, es[i], env, s, len);
        if c.r is Ok {
            fair_check_do(gas, es, i + 1, acc.push(c.node), c.r->Ok_0, env, c.s, len);
        }
    }
}

proof fn fair_check_args(
    gas: nat,
    es: Seq<ExprV>,
    i: int,
    acc: Seq<ExprV>,
    wants: Seq<TypeV>,
    env: Env,
    s: CkV,
    len: int,
)
    requires
        places::placed_all(es, len),
        places::placed_all(acc, len),
        templates_placed(s, len),
    ensures
        ({
            let c = typing::check_args(gas, es, i, acc, wants, env, s);
            fair(c, s, len) && (c.r is Ok ==> places::placed_all(c.node, len))
        }),
    decreases gas, es, es.len() - i,
{
    if 0 <= i < es.len() {
        let c = typing::check_as(gas, es[i], wants[i], env, s);
        fair_check_as(gas, es[i], wants[i], env, s, len);
        if c.r is Ok {
            fair_check_args(gas, es, i + 1, acc.push(c.node), wants, env, c.s, len);
        }
    }
}

proof fn fair_check_bindings(
    gas: nat,
    bs: Seq<BindingV>,
    i: int,
    acc: Seq<BindingV>,
    env: Env,
    s: CkV,
    len: int,
)
    requires
        places::placed_bindings(bs, len),
        places::placed_bindings(acc, len),
        templates_placed(s, len),
    ensures
        ({
            let c = typing::check_bindings(gas, bs, i, acc, env, s);
            fair(c, s, len) && (c.r is Ok ==> places::placed_bindings(c.node, len))
        }),
    decreases gas, bs, bs.len() - i,
{
    if 0 <= i < bs.len() {
        let b = bs[i];
        assert(places::in_text(b.span, len) && places::placed(b.value, len));
        if typing::undefined_in(s, b.ty, Set::empty()) is None {
            let c = typing::check_as(gas, b.value, b.ty, env, s);
            fair_check_as(gas, b.value, b.ty, env, s, len);
            if c.r is Ok {
                fair_check_bindings(
                    gas,
                    bs,
                    i + 1,
                    acc.push(BindingV { value: c.node, ..b }),
                    env.insert(b.name, b.ty),
                    c.s,
                    len,
                );
            }
        }
    }
}

#[verifier::rlimit(40)]
proof fn fair_check_call(
    gas: nat,
    callee: Seq<char>,
    args: Seq<ExprV>,
    span: Span,
    env: Env,
    s: CkV,
    len: int,
)
    requires
        places::placed_all(args, len),
        places::in_text(span, len),
        templates_placed(s, len),
    ensures
        ({
            let c = typing::check_call(gas, callee, args, span, env, s);
            fair(c, s, len) && (c.r is Ok ==> places::placed_all(c.node.1, len))
        }),
    decreases gas, args, args.len() + 3,
{
    if s.trait_methods.contains_key(callee) {
        fair_check_method_call(gas, callee, args, span, env, s, len);
    } else if s.structs.contains_key(callee) {
        let sdef = s.structs[callee];
        fair_check_known_call(
            gas,
            callee,
            args,
            typing::field_types(sdef.fields),
            TypeV::Named(sdef.name),
            span,
            env,
            s,
            len,
        );
    } else if s.variants.contains_key(callee) {
        let info = s.variants[callee];
        let wants = match info.payload {
            None => Seq::empty(),
            Some(t) => seq![t],
        };
        fair_check_known_call(
            gas,
            callee,
            args,
            wants,
            TypeV::Named(info.enum_name),
            span,
            env,
            s,
            len,
        );
    } else if typing::builtin_name(callee) {
        fair_check_builtin(gas, callee, args, span, env, s, len);
    } else if s.generic_fns.contains_key(callee) {
        fair_check_generic_call(gas, callee, args, span, env, s, len);
    } else if s.fns.contains_key(callee) {
        let sig = s.fns[callee];
        fair_check_known_call(gas, callee, args, sig.params, sig.ret, span, env, s, len);
    }
}

proof fn fair_check_known_call(
    gas: nat,
    callee: Seq<char>,
    args: Seq<ExprV>,
    wants: Seq<TypeV>,
    ret: TypeV,
    span: Span,
    env: Env,
    s: CkV,
    len: int,
)
    requires
        places::placed_all(args, len),
        places::in_text(span, len),
        templates_placed(s, len),
    ensures
        ({
            let c = typing::check_known_call(gas, callee, args, wants, ret, span, env, s);
            fair(c, s, len) && (c.r is Ok ==> places::placed_all(c.node.1, len))
        }),
    decreases gas, args, args.len() + 2,
{
    fair_check_args(gas, args, 0, Seq::empty(), wants, env, s, len);
}

/// The first argument is checked by itself, the others against types.
proof fn fair_first_and_rest(
    gas: nat,
    args: Seq<ExprV>,
    wants: Seq<TypeV>,
    env: Env,
    s: CkV,
    len: int,
)
    requires
        args.len() > 0,
        places::placed_all(args, len),
        templates_placed(s, len),
    ensures
        ({
            let c = typing::check(gas, args[0], env, s);
            let d = typing::check_args(gas, args, 1, seq![c.node], wants, env, c.s);
            &&& fair(c, s, len)
            &&& c.r is Ok ==> {
                &&& places::placed_all(args.update(0, c.node), len)
                &&& fair(d, s, len)
                &&& d.r is Ok ==> places::placed_all(d.node, len)
            }
        }),
    decreases gas, args, args.len(),
{
    let c = typing::check(gas, args[0], env, s);
    fair_check(gas, args[0], env, s, len);
    if c.r is Ok {
        assert forall|i: int| 0 <= i < args.len() implies places::placed(
            #[trigger] args.update(0, c.node)[i],
            len,
        ) by {
            if i > 0 {
                assert(places::placed(args[i], len));
            }
        }
        fair_check_args(gas, args, 1, seq![c.node], wants, env, c.s, len);
    }
}

proof fn fair_check_method_call(
    gas: nat,
    callee: Seq<char>,
    args: Seq<ExprV>,
    span: Span,
    env: Env,
    s: CkV,
    len: int,
)
    requires
        places::placed_all(args, len),
        places::in_text(span, len),
        templates_placed(s, len),
    ensures
        ({
            let c = typing::check_method_call(gas, callee, args, span, env, s);
            fair(c, s, len) && (c.r is Ok ==> places::placed_all(c.node.1, len))
        }),
    decreases gas, args, args.len() + 2,
{
    if args.len() > 0 {
        let c = typing::check(gas, args[0], env, s);
        let symbol = typing::method_symbol(s.trait_methods[callee], c.r->Ok_0, callee);
        fair_first_and_rest(gas, args, c.s.fns[symbol].params, env, s, len);
        assert(places::placed(args[0], len));
    }
}

#[verifier::rlimit(40)]
proof fn fair_check_builtin(
    gas: nat,
    op: Seq<char>,
    args: Seq<ExprV>,
    span: Span,
    env: Env,
    s: CkV,
    len: int,
)
    requires
        typing::builtin_name(op),
        places::placed_all(args, len),
        places::in_text(span, len),
        templates_placed(s, len),
    ensures
        ({
            let c = typing::check_builtin(gas, op, args, span, env, s);
            fair(c, s, len) && (c.r is Ok ==> places::placed_all(c.node, len))
        }),
    decreases gas, args, args.len() + 2,
{
    let arity = typing::builtin_arity(op);
    if !(arity is None && args.len() == 0) && !(arity is Some && args.len() != arity->0) {
        fair_check_uniform(gas, args, TypeV::Bool, TypeV::Bool, env, s, len);
        fair_check_uniform(gas, args, TypeV::Str, TypeV::Str, env, s, len);
        fair_check_uniform(gas, args, TypeV::Str, TypeV::I32, env, s, len);
        if args.len() > 0 {
            fair_check_numeric(gas, op, args, env, s, len);
            fair_check_first(gas, op, args, env, s, len);
        }
        if args.len() == 2 {
            fair_check_comparison(gas, op, args, env, s, len);
        }
    }
}

proof fn fair_check_uniform(
    gas: nat,
    args: Seq<ExprV>,
    want: TypeV,
    ret: TypeV,
    env: Env,
    s: CkV,
    len: int,
)
    requires
        places::placed_all(args, len),
        templates_placed(s, len),
    ensures
        ({
            let c = typing::check_uniform(gas, args, want, ret, env, s);
            fair(c, s, len) && (c.r is Ok ==> places::placed_all(c.node, len))
        }),
    decreases gas, args, args.len() + 1,
{
    let wants = Seq::new(args.len(), |i: int| want);
    fair_check_args(gas, args, 0, Seq::empty(), wants, env, s, len);
}

proof fn fair_check_numeric(gas: nat, op: Seq<char>, args: Seq<ExprV>, env: Env, s: CkV, len: int)
    requires
        args.len() > 0,
        places::placed_all(args, len),
        templates_placed(s, len),
    ensures
        ({
            let c = typing::check_numeric(gas, op, args, env, s);
            fair(c, s, len) && (c.r is Ok ==> places::placed_all(c.node, len))
        }),
    decreases gas, args, args.len() + 1,
{
    let c = typing::check(gas, args[0], env, s);
    let first = c.r->Ok_0;
    fair_first_and_rest(gas, args, Seq::new(args.len(), |i: int| first), env, s, len);
    assert(places::placed(args[0], len));
}

proof fn fair_check_comparison(
    gas: nat,
    op: Seq<char>,
    args: Seq<ExprV>,
    env: Env,
    s: CkV,
    len: int,
)
    requires
        args.len() == 2,
        places::placed_all(args, len),
        templates_placed(s, len),
    ensures
        ({
            let c = typing::check_comparison(gas, op, args, env, s);
            fair(c, s, len) && (c.r is Ok ==> places::placed_all(c.node, len))
        }),
    decreases gas, args, args.len() + 1,
{
    let a = typing::check(gas, args[0], env, s);
    assert(places::placed(args[0], len));
    assert(places::placed(args[1], len));
    fair_check(gas, args[0], env, s, len);
    if a.r is Ok {
        fair_check_as(gas, args[1], a.r->Ok_0, env, a.s, len);
    }
}

proof fn fair_check_first(gas: nat, op: Seq<char>, args: Seq<ExprV>, env: Env, s: CkV, len: int)
    requires
        args.len() > 0,
        places::placed_all(args, len),
        templates_placed(s, len),
    ensures
        ({
            let c = typing::check_first(gas, op, args, env, s);
            fair(c, s, len) && (c.r is Ok ==> places::placed_all(c.node, len))
        }),
    decreases gas, args, args.len() + 1,
{
    let c = typing::check(gas, args[0], env, s);
    let t = c.r->Ok_0;
    assert(places::placed(args[0], len));
    fair_first_and_rest(gas, args, seq![t], env, s, len);
    if let TypeV::Array { elem, .. } = t {
        let wants = if op == "aset!"@ {
            seq![t, TypeV::I32, *elem]
        } else {
            seq![t, TypeV::I32]
        };
        fair_first_and_rest(gas, args, wants, env, s, len);
    }
}

proof fn fair_check_unified(
    gas: nat,
    args: Seq<ExprV>,
    i: int,
    acc: Seq<ExprV>,
    params: Seq<ParamV>,
    tps: Set<Seq<char>>,
    subst: Subst,
    tys: Seq<TypeV>,
    env: Env,
    s: CkV,
    len: int,
)
    requires
        places::placed_all(args, len),
        places::placed_all(acc, len),
        acc.len() == tys.len(),
        templates_placed(s, len),
    ensures
        ({
            let c = typing::check_unified(gas, args, i, acc, params, tps, subst, tys, env, s);
            fair(c, s, len) && (c.r is Ok ==> places::placed_all(c.node, len) && c.node.len()
                == c.r->Ok_0.1.len())
        }),
    decreases gas, args, args.len() - i,
{
    if 0 <= i < args.len() {
        let c = typing::check(gas, args[i], env, s);
        assert(places::placed(args[i], len));
        fair_check(gas, args[i], env, s, len);
        if c.r is Ok {
            let t = c.r->Ok_0;
            lemma_unified(params[i].ty, t, tps, subst, args[i].span);
            if let Ok(subst2) = typing::unified(params[i].ty, t, tps, subst, args[i].span) {
                fair_check_unified(
                    gas,
                    args,
                    i + 1,
                    acc.push(c.node),
                    params,
                    tps,
                    subst2,
                    tys.push(t),
                    env,
                    c.s,
                    len,
                );
            }
        }
    }
}

proof fn fair_check_generic_call(
    gas: nat,
    callee: Seq<char>,
    args: Seq<ExprV>,
    span: Span,
    env: Env,
    s: CkV,
    len: int,
)
    requires
        s.generic_fns.contains_key(callee),
        places::placed_all(args, len),
        places::in_text(span, len),
        templates_placed(s, len),
    ensures
        ({
            let c = typing::check_generic_call(gas, callee, args, span, env, s);
            fair(c, s, len) && (c.r is Ok ==> places::placed_all(c.node.1, len))
        }),
    decreases gas, args, args.len() + 2,
{
    let g = s.generic_fns[callee];
    if g.params.len() == args.len() {
        let tps = typing::type_param_names(g.type_params);
        let none = Map::<Seq<char>, TypeV>::empty();
        let c = typing::check_unified(gas, args, 0, Seq::empty(), g.params, tps, none, Seq::empty(), env, s);
        fair_check_unified(
            gas,
            args,
            0,
            Seq::empty(),
            g.params,
            tps,
            none,
            Seq::empty(),
            env,
            s,
            len,
        );
        if c.r is Ok {
            let (subst, tys) = c.r->Ok_0;
            lemma_type_args(g.type_params, 0, Seq::empty(), subst, c.s.impls, span);
            if let Ok(targs) = typing::type_args(g.type_params, 0, Seq::empty(), subst, c.s.impls, span) {
                let known = c.s.mono_cache.contains_key((g.name, targs));
                let d = if known {
                    Checked { node: (), s: c.s, r: Ok(c.s.mono_cache[(g.name, targs)]) }
                } else if gas == 0 {
                    Checked { node: (), s: c.s, r: Err(TypeErrorV::UndefinedFn(callee, span)) }
                } else {
                    typing::check_instance((gas - 1) as nat, g, targs, subst, c.s)
                };
                if !known && gas > 0 {
                    fair_check_instance((gas - 1) as nat, g, targs, subst, c.s, len);
                }
                if d.r is Ok {
                    lemma_misfit(d.s.fns[d.r->Ok_0].params, tys, c.node, 0, len);
                }
            }
        }
    }
}

proof fn fair_check_instance(
    gas: nat,
    g: GenericFunctionV,
    targs: Seq<TypeV>,
    subst: Subst,
    s: CkV,
    len: int,
)
    requires
        places::placed(g.body, len),
        templates_placed(s, len),
    ensures
        fair(typing::check_instance(gas, g, targs, subst, s), s, len),
    decreases gas, typing::instance_of(g, targs, subst).body, 2int,
{
    let f = typing::instance_of(g, targs, subst);
    lemma_subst(g.body, subst, len);
    fair_check_as(gas, f.body, f.ret, typing::scope_of(f.params), typing::entered(s, g, targs, f), len);
}

/// Whether a report about the definitions, if there is one, is in the text, and what
/// generic functions are known is placed.
spec fn fair_pass(r: (CkV, Option<TypeErrorV>), len: int) -> bool {
    &&& r.1 matches Some(x) ==> type_error_in_text(x, len)
    &&& templates_placed(r.0, len)
}

proof fn lemma_bad_field(fields: Seq<FieldDefV>, i: int, seen: Set<Seq<char>>, len: int)
    requires
        places::placed_fields(fields, len),
    ensures
        typing::bad_field(fields, i, seen) matches Some(x) ==> type_error_in_text(x, len),
    decreases fields.len() - i,
{
    if 0 <= i < fields.len() {
        assert(places::in_text(fields[i].span, len));
        lemma_bad_field(fields, i + 1, seen.insert(fields[i].name), len);
    }
}

proof fn lemma_variants(e: EnumDefV, i: int, seen: Set<Seq<char>>, s: CkV, len: int)
    requires
        places::placed_variants(e.variants, len),
        templates_placed(s, len),
    ensures
        fair_pass(typing::collect_variants(e, i, seen, s), len),
    decreases e.variants.len() - i,
{
    if 0 <= i < e.variants.len() {
        let v = e.variants[i];
        assert(places::in_text(v.span, len));
        let info = VariantInfoV { enum_name: e.name, tag: i as u32, payload: v.payload };
        lemma_variants(
            e,
            i + 1,
            seen.insert(v.name),
            CkV { variants: s.variants.insert(v.name, info), ..s },
            len,
        );
    }
}

proof fn lemma_bad_param(
    s: CkV,
    params: Seq<ParamV>,
    i: int,
    tps: Set<Seq<char>>,
    methods: bool,
    len: int,
)
    requires
        places::placed_params(params, len),
    ensures
        typing::bad_param(s, params, i, tps, methods) matches Some(x) ==> type_error_in_text(x, len),
    decreases params.len() - i,
{
    if 0 <= i < params.len() {
        assert(places::in_text(params[i].span, len));
        lemma_bad_param(s, params, i + 1, tps, methods, len);
    }
}

proof fn lemma_sigs(t: TraitDefV, i: int, seen: Set<Seq<char>>, s: CkV, len: int)
    requires
        places::placed_sigs(t.methods, len),
        templates_placed(s, len),
    ensures
        fair_pass(typing::collect_sigs(t, i, seen, s), len),
    decreases t.methods.len() - i,
{
    if 0 <= i < t.methods.len() {
        let m = t.methods[i];
        assert(places::placed_sig(m, len));
        lemma_bad_param(s, m.params, 0, Set::empty(), true, len);
        lemma_sigs(
            t,
            i + 1,
            seen.insert(m.name),
            CkV { trait_methods: s.trait_methods.insert(m.name, t.name), ..s },
            len,
        );
    }
}

proof fn lemma_bad_type_param(
    s: CkV,
    tps: Seq<(Seq<char>, Option<Seq<char>>)>,
    i: int,
    seen: Set<Seq<char>>,
    span: Span,
)
    ensures
        typing::bad_type_param(s, tps, i, seen, span) matches Some(x) ==> typing::type_error_span(x) == Some(span),
    decreases tps.len() - i,
{
    if 0 <= i < tps.len() {
        lemma_bad_type_param(s, tps, i + 1, seen.insert(tps[i].0), span);
    }
}

proof fn lemma_bad_foreign_param(params: Seq<ParamV>, i: int, len: int)
    requires
        places::placed_params(params, len),
    ensures
        typing::bad_foreign_param(params, i) matches Some(x) ==> type_error_in_text(x, len),
    decreases params.len() - i,
{
    if 0 <= i < params.len() {
        assert(places::in_text(params[i].span, len));
        lemma_bad_foreign_param(params, i + 1, len);
    }
}

proof fn lemma_collect_one(pass: Pass, it: TopLevelV, s: CkV, len: int)
    requires
        places::placed_item(it, len),
        templates_placed(s, len),
    ensures
        fair_pass(
            match pass {
                Pass::Types => typing::collect_type(it, s),
                Pass::Traits => typing::collect_trait(it, s),
                Pass::Signatures => typing::collect_sig(it, s),
            },
            len,
        ),
{
    match it {
        TopLevelV::Struct(d) => lemma_bad_field(d.fields, 0, Set::empty(), len),
        TopLevelV::Enum(e) => lemma_variants(e, 0, Set::empty(), s, len),
        TopLevelV::Trait(t) => lemma_sigs(t, 0, Set::empty(), s, len),
        TopLevelV::Function(f) => lemma_bad_param(s, f.params, 0, Set::empty(), false, len),
        TopLevelV::GenericFunction(g) => {
            lemma_bad_type_param(s, g.type_params, 0, Set::empty(), g.span);
            lemma_bad_param(s, g.params, 0, typing::type_param_names(g.type_params), false, len);
        },
        TopLevelV::Extern(e) => lemma_bad_foreign_param(e.params, 0, len),
        _ => {},
    }
}

proof fn lemma_collect(pass: Pass, items: Seq<TopLevelV>, i: int, s: CkV, len: int)
    requires
        places::placed_items(items, len),
        templates_placed(s, len),
    ensures
        fair_pass(typing::collect(pass, items, i, s), len),
    decreases items.len() - i,
{
    if 0 <= i < items.len() {
        assert(places::placed_item(items[i], len));
        lemma_collect_one(pass, items[i], s, len);
        let (s2, bad) = match pass {
            Pass::Types => typing::collect_type(items[i], s),
            Pass::Traits => typing::collect_trait(items[i], s),
            Pass::Signatures => typing::collect_sig(items[i], s),
        };
        if bad is None {
            lemma_collect(pass, items, i + 1, s2, len);
        }
    }
}

proof fn lemma_bad_method_param(s: CkV, params: Seq<ParamV>, sig: Seq<ParamV>, i: int, len: int)
    requires
        places::placed_params(params, len),
    ensures
        typing::bad_method_param(s, params, sig, i) matches Some(x) ==> type_error_in_text(x, len),
    decreases params.len() - i,
{
    if 0 <= i < params.len() {
        assert(places::in_text(params[i].span, len));
        lemma_bad_method_param(s, params, sig, i + 1, len);
    }
}

proof fn lemma_with_self(m: FunctionV, ty: TypeV, len: int)
    requires
        places::placed_function(m, len),
    ensures
        places::placed_function(typing::with_self(m, ty), len),
{
    let out = typing::with_self(m, ty).params;
    assert forall|i: int| 0 <= i < out.len() implies places::in_text((#[trigger] out[i]).span, len) by {
        assert(places::in_text(m.params[i].span, len));
    }
}

proof fn lemma_methods(
    ib: ImplBlockV,
    sigs: Seq<MethodSigV>,
    i: int,
    acc: Seq<FunctionV>,
    seen: Set<Seq<char>>,
    s: CkV,
    len: int,
)
    requires
        places::placed_functions(ib.methods, len),
        places::placed_functions(acc, len),
    ensures
        ({
            let c = typing::collect_methods(ib, sigs, i, acc, seen, s);
            fair(c, s, len) && (c.r is Ok ==> places::placed_functions(c.node, len))
        }),
    decreases ib.methods.len() - i,
{
    if 0 <= i < ib.methods.len() {
        let sig = typing::find_sig(sigs, ib.methods[i].name, 0);
        assert(places::placed_function(ib.methods[i], len));
        if typing::bad_method_head(ib.methods[i], ib.trait_name, sig, seen) is None {
            let m = typing::with_self(ib.methods[i], ib.for_ty);
            lemma_with_self(ib.methods[i], ib.for_ty, len);
            lemma_bad_method_param(s, m.params, sig->0.params, 0, len);
            let symbol = typing::method_symbol(ib.trait_name, ib.for_ty, m.name);
            let fsig = FnSigV { params: typing::param_types(m.params), ret: m.ret };
            lemma_methods(
                ib,
                sigs,
                i + 1,
                acc.push(m),
                seen.insert(m.name),
                CkV { fns: s.fns.insert(symbol, fsig), ..s },
                len,
            );
        }
    }
}

proof fn lemma_impls(items: Seq<TopLevelV>, i: int, acc: Seq<TopLevelV>, s: CkV, len: int)
    requires
        places::placed_items(items, len),
        places::placed_items(acc, len),
    ensures
        ({
            let c = typing::collect_impls(items, i, acc, s);
            fair(c, s, len) && (c.r is Ok ==> places::placed_items(c.node, len))
        }),
    decreases items.len() - i,
{
    if 0 <= i < items.len() {
        assert(places::placed_item(items[i], len));
        match items[i] {
            TopLevelV::Impl(ib) => {
                let c = typing::collect_impl(ib, s);
                let s2 = CkV { impls: s.impls.insert((ib.trait_name, ib.for_ty)), ..s };
                lemma_methods(
                    ib,
                    s.traits[ib.trait_name].methods,
                    0,
                    Seq::empty(),
                    Set::empty(),
                    s2,
                    len,
                );
                if c.r is Ok {
                    lemma_impls(items, i + 1, acc.push(TopLevelV::Impl(c.node)), c.s, len);
                }
            },
            _ => lemma_impls(items, i + 1, acc.push(items[i]), s, len),
        }
    }
}

proof fn lemma_main_span(items: Seq<TopLevelV>, i: int, len: int)
    requires
        places::placed_items(items, len),
    ensures
        places::in_text(typing::main_span(items, i), len) || typing::main_span(items, i) == (Span { start: 0, end: 0 }),
    decreases items.len() - i,
{
    if 0 <= i < items.len() {
        assert(places::placed_item(items[i], len));
        lemma_main_span(items, i + 1, len);
    }
}

proof fn lemma_methods_checked(gas: nat, fs: Seq<FunctionV>, i: int, acc: Seq<FunctionV>, s: CkV, len: int)
    requires
        places::placed_functions(fs, len),
        templates_placed(s, len),
    ensures
        fair(typing::check_methods(gas, fs, i, acc, s), s, len),
    decreases fs.len() - i,
{
    if 0 <= i < fs.len() {
        let f = fs[i];
        assert(places::placed_function(f, len));
        let c = typing::check_function(gas, f, s);
        fair_check_as(gas, f.body, f.ret, typing::scope_of(f.params), s, len);
        if c.r is Ok {
            lemma_methods_checked(gas, fs, i + 1, acc.push(c.node), c.s, len);
        }
    }
}

proof fn lemma_items_checked(gas: nat, items: Seq<TopLevelV>, i: int, acc: Seq<TopLevelV>, s: CkV, len: int)
    requires
        places::placed_items(items, len),
        templates_placed(s, len),
    ensures
        fair(typing::check_items(gas, items, i, acc, s), s, len),
    decreases items.len() - i,
{
    if 0 <= i < items.len() {
        assert(places::placed_item(items[i], len));
        match items[i] {
            TopLevelV::Function(f) => fair_check_as(gas, f.body, f.ret, typing::scope_of(f.params), s, len),
            TopLevelV::Impl(ib) => lemma_methods_checked(gas, ib.methods, 0, Seq::empty(), s, len),
            TopLevelV::Const(k) => fair_check_as(gas, k.value, k.ty, Map::empty(), s, len),
            _ => {},
        }
        let c = typing::check_item(gas, items[i], s);
        if c.r is Ok {
            lemma_items_checked(gas, items, i + 1, acc.push(c.node), c.s, len);
        }
    }
}

/// A program whose definitions know their places in a text is refused, if at all, at a
/// place in that text.
pub proof fn law_type_errors_are_in_text(p: ProgramV, require_main: bool, len: int)
    requires
        places::placed_items(p.items, len),
    ensures
        typing::check_program(p, require_main).r matches Err(x) ==> type_error_in_text(x, len),
{
    let s0 = typing::nothing_known();
    let (s1, bad1) = typing::collect(Pass::Types, p.items, 0, s0);
    lemma_collect(Pass::Types, p.items, 0, s0, len);
    let (s2, bad2) = typing::collect(Pass::Traits, p.items, 0, s1);
    lemma_collect(Pass::Traits, p.items, 0, s1, len);
    let (s3, bad3) = typing::collect(Pass::Signatures, p.items, 0, s2);
    lemma_collect(Pass::Signatures, p.items, 0, s2, len);
    let c = typing::collect_impls(p.items, 0, Seq::empty(), s3);
    lemma_impls(p.items, 0, Seq::empty(), s3, len);
    if c.r is Ok {
        lemma_main_span(c.node, 0, len);
        let gas = typing::instance_keys(typing::universe_of(c.s, p.items)).len();
        lemma_items_checked(gas, c.node, 0, Seq::empty(), c.s, len);
    }
}

/// Whether the templates of macros are placed.
spec fn macros_placed(macros: Macros, len: int) -> bool {
    forall|n: Seq<char>| #[trigger] macros.contains_key(n) ==> places::placed(macros[n].template, len)
}

/// Whether an expansion that is refused is refused in the text.
spec fn fair_expansion(e: Option<MacroErrorV>, len: int) -> bool {
    e matches Some(x) ==> places::in_text(macroexpand::macro_error_span(x), len)
}

proof fn lemma_argument(params: Seq<Seq<char>>, args: Seq<ExprV>, name: Seq<char>, n: int, len: int)
    requires
        places::placed_all(args, len),
        n <= args.len(),
    ensures
        macroexpand::argument(params, args, name, n) matches Some(a) ==> places::placed(a, len),
    decreases n,
{
    if n > 0 {
        assert(places::placed(args[n - 1], len));
        lemma_argument(params, args, name, n - 1, len);
    }
}

proof fn lemma_substituted(e: ExprV, params: Seq<Seq<char>>, args: Seq<ExprV>, len: int)
    requires
        places::placed(e, len),
        places::placed_all(args, len),
    ensures
        places::placed(macroexpand::substituted(e, params, args), len),
    decreases e, 1int,
{
    match e.kind {
        ExprKindV::Var(name) => {
            let n = if params.len() <= args.len() {
                params.len()
            } else {
                args.len()
            } as int;
            lemma_argument(params, args, name, n, len);
        },
        _ => lemma_substituted_kind(e.kind, params, args, len),
    }
}

#[verifier::rlimit(30)]
proof fn lemma_substituted_kind(k: ExprKindV, params: Seq<Seq<char>>, args: Seq<ExprV>, len: int)
    requires
        places::placed_kind(k, len),
        places::placed_all(args, len),
    ensures
        places::placed_kind(macroexpand::substituted_kind(k, params, args), len),
    decreases k, 1int,
{
    match k {
        ExprKindV::If { cond, then_branch, else_branch } => {
            lemma_substituted(*cond, params, args, len);
            lemma_substituted(*then_branch, params, args, len);
            lemma_substituted(*else_branch, params, args, len);
        },
        ExprKindV::Let { bindings, body } => {
            lemma_substituted_bindings(bindings, params, args, len);
            lemma_substituted(*body, params, args, len);
        },
        ExprKindV::Do(es) => lemma_substituted_all(es, params, args, len),
        ExprKindV::Cast { ty, expr } => lemma_substituted(*expr, params, args, len),
        ExprKindV::Assign { name, value } => lemma_substituted(*value, params, args, len),
        ExprKindV::While { cond, body } => {
            lemma_substituted(*cond, params, args, len);
            lemma_substituted(*body, params, args, len);
        },
        ExprKindV::Loop { body } => lemma_substituted(*body, params, args, len),
        ExprKindV::ArrayLit { elem_ty, elems } => lemma_substituted_all(elems, params, args, len),
        ExprKindV::Field { base, field } => lemma_substituted(*base, params, args, len),
        ExprKindV::Match { scrutinee, arms } => {
            lemma_substituted(*scrutinee, params, args, len);
            lemma_substituted_arms(arms, params, args, len);
        },
        ExprKindV::Call { callee, args: es } => lemma_substituted_all(es, params, args, len),
        _ => {},
    }
}

proof fn lemma_substituted_all(es: Seq<ExprV>, params: Seq<Seq<char>>, args: Seq<ExprV>, len: int)
    requires
        places::placed_all(es, len),
        places::placed_all(args, len),
    ensures
        places::placed_all(macroexpand::substituted_all(es, params, args), len),
    decreases es, 0int,
{
    let out = macroexpand::substituted_all(es, params, args);
    assert forall|i: int| 0 <= i < es.len() implies places::placed(#[trigger] out[i], len) by {
        lemma_substituted(es[i], params, args, len);
    }
}

proof fn lemma_substituted_bindings(
    bs: Seq<BindingV>,
    params: Seq<Seq<char>>,
    args: Seq<ExprV>,
    len: int,
)
    requires
        places::placed_bindings(bs, len),
        places::placed_all(args, len),
    ensures
        places::placed_bindings(macroexpand::substituted_bindings(bs, params, args), len),
    decreases bs, 0int,
{
    let out = macroexpand::substituted_bindings(bs, params, args);
    assert forall|i: int| 0 <= i < bs.len() implies places::in_text((#[trigger] out[i]).span, len) && places::placed(
        out[i].value,
        len,
    ) by {
        assert(places::in_text(bs[i].span, len));
        lemma_substituted(bs[i].value, params, args, len);
    }
}

proof fn lemma_substituted_arms(
    arms: Seq<MatchArmV>,
    params: Seq<Seq<char>>,
    args: Seq<ExprV>,
    len: int,
)
    requires
        places::placed_arms(arms, len),
        places::placed_all(args, len),
    ensures
        places::placed_arms(macroexpand::substituted_arms(arms, params, args), len),
    decreases arms, 0int,
{
    let out = macroexpand::substituted_arms(arms, params, args);
    assert forall|i: int| 0 <= i < arms.len() implies places::in_text((#[trigger] out[i]).span, len)
        && places::placed(out[i].body, len) by {
        assert(places::in_text(arms[i].span, len));
        lemma_substituted(arms[i].body, params, args, len);
    }
}

proof fn fair_expanded(e: ExprV, macros: Macros, depth: u32, len: int)
    requires
        places::placed(e, len),
        macros_placed(macros, len),
    ensures
        fair_expansion(macroexpand::expanded(e, macros, depth).1, len),
        macroexpand::expanded(e, macros, depth).1 is None ==> places::placed(macroexpand::expanded(e, macros, depth).0, len),
    decreases macroexpand::depth_left(depth), e, 1int,
{
    if macroexpand::is_macro_call(e, macros) {
        let args = e.kind->args;
        let m = macros[e.kind->callee];
        if args.len() == m.params.len() && depth < MAX_EXPAND_DEPTH {
            let s = macroexpand::substituted(m.template, m.params, args);
            lemma_substituted(m.template, m.params, args, len);
            fair_expanded(
                ExprV { kind: s.kind, span: e.span, ty: s.ty },
                macros,
                (depth + 1) as u32,
                len,
            );
        }
    } else {
        fair_expanded_kind(e.kind, macros, depth, len);
    }
}

#[verifier::rlimit(60)]
proof fn fair_expanded_kind(k: ExprKindV, macros: Macros, depth: u32, len: int)
    requires
        places::placed_kind(k, len),
        macros_placed(macros, len),
    ensures
        fair_expansion(macroexpand::expanded_kind(k, macros, depth).1, len),
        macroexpand::expanded_kind(k, macros, depth).1 is None ==> places::placed_kind(
            macroexpand::expanded_kind(k, macros, depth).0,
            len,
        ),
    decreases macroexpand::depth_left(depth), k, 1int,
{
    match k {
        ExprKindV::If { cond, then_branch, else_branch } => {
            fair_expanded(*cond, macros, depth, len);
            fair_expanded(*then_branch, macros, depth, len);
            fair_expanded(*else_branch, macros, depth, len);
        },
        ExprKindV::Let { bindings, body } => {
            fair_expanded_bindings(bindings, 0, Seq::empty(), macros, depth, len);
            fair_expanded(*body, macros, depth, len);
        },
        ExprKindV::Do(es) => fair_expanded_all(es, 0, Seq::empty(), macros, depth, len),
        ExprKindV::Cast { ty, expr } => fair_expanded(*expr, macros, depth, len),
        ExprKindV::Assign { name, value } => fair_expanded(*value, macros, depth, len),
        ExprKindV::While { cond, body } => {
            fair_expanded(*cond, macros, depth, len);
            fair_expanded(*body, macros, depth, len);
        },
        ExprKindV::Loop { body } => fair_expanded(*body, macros, depth, len),
        ExprKindV::ArrayLit { elem_ty, elems } => {
            fair_expanded_all(elems, 0, Seq::empty(), macros, depth, len);
        },
        ExprKindV::Field { base, field } => fair_expanded(*base, macros, depth, len),
        ExprKindV::Match { scrutinee, arms } => {
            fair_expanded(*scrutinee, macros, depth, len);
            fair_expanded_arms(arms, 0, Seq::empty(), macros, depth, len);
        },
        ExprKindV::Call { callee, args } => {
            fair_expanded_all(args, 0, Seq::empty(), macros, depth, len);
        },
        _ => {},
    }
}

proof fn fair_expanded_all(
    xs: Seq<ExprV>,
    i: int,
    acc: Seq<ExprV>,
    macros: Macros,
    depth: u32,
    len: int,
)
    requires
        places::placed_all(xs, len),
        places::placed_all(acc, len),
        macros_placed(macros, len),
    ensures
        fair_expansion(macroexpand::expanded_all(xs, i, acc, macros, depth).1, len),
        macroexpand::expanded_all(xs, i, acc, macros, depth).1 is None ==> places::placed_all(
            macroexpand::expanded_all(xs, i, acc, macros, depth).0,
            len,
        ),
    decreases macroexpand::depth_left(depth), xs, xs.len() - i,
{
    if 0 <= i < xs.len() {
        fair_expanded(xs[i], macros, depth, len);
        let (r, err) = macroexpand::expanded(xs[i], macros, depth);
        if err is None {
            fair_expanded_all(xs, i + 1, acc.push(r), macros, depth, len);
        }
    }
}

proof fn fair_expanded_bindings(
    xs: Seq<BindingV>,
    i: int,
    acc: Seq<BindingV>,
    macros: Macros,
    depth: u32,
    len: int,
)
    requires
        places::placed_bindings(xs, len),
        places::placed_bindings(acc, len),
        macros_placed(macros, len),
    ensures
        fair_expansion(macroexpand::expanded_bindings(xs, i, acc, macros, depth).1, len),
        macroexpand::expanded_bindings(xs, i, acc, macros, depth).1 is None ==> places::placed_bindings(
            macroexpand::expanded_bindings(xs, i, acc, macros, depth).0,
            len,
        ),
    decreases macroexpand::depth_left(depth), xs, xs.len() - i,
{
    if 0 <= i < xs.len() {
        assert(places::in_text(xs[i].span, len));
        fair_expanded(xs[i].value, macros, depth, len);
        let (r, err) = macroexpand::expanded(xs[i].value, macros, depth);
        if err is None {
            fair_expanded_bindings(
                xs,
                i + 1,
                acc.push(BindingV { value: r, ..xs[i] }),
                macros,
                depth,
                len,
            );
        }
    }
}

proof fn fair_expanded_arms(
    xs: Seq<MatchArmV>,
    i: int,
    acc: Seq<MatchArmV>,
    macros: Macros,
    depth: u32,
    len: int,
)
    requires
        places::placed_arms(xs, len),
        places::placed_arms(acc, len),
        macros_placed(macros, len),
    ensures
        fair_expansion(macroexpand::expanded_arms(xs, i, acc, macros, depth).1, len),
        macroexpand::expanded_arms(xs, i, acc, macros, depth).1 is None ==> places::placed_arms(
            macroexpand::expanded_arms(xs, i, acc, macros, depth).0,
            len,
        ),
    decreases macroexpand::depth_left(depth), xs, xs.len() - i,
{
    if 0 <= i < xs.len() {
        assert(places::in_text(xs[i].span, len));
        fair_expanded(xs[i].body, macros, depth, len);
        let (r, err) = macroexpand::expanded(xs[i].body, macros, depth);
        if err is None {
            fair_expanded_arms(
                xs,
                i + 1,
                acc.push(MatchArmV { body: r, ..xs[i] }),
                macros,
                depth,
                len,
            );
        }
    }
}

proof fn fair_expanded_methods(
    xs: Seq<FunctionV>,
    i: int,
    acc: Seq<FunctionV>,
    macros: Macros,
    len: int,
)
    requires
        places::placed_functions(xs, len),
        places::placed_functions(acc, len),
        macros_placed(macros, len),
    ensures
        fair_expansion(macroexpand::expanded_methods(xs, i, acc, macros).1, len),
        macroexpand::expanded_methods(xs, i, acc, macros).1 is None ==> places::placed_functions(
            macroexpand::expanded_methods(xs, i, acc, macros).0,
            len,
        ),
    decreases xs.len() - i,
{
    if 0 <= i < xs.len() {
        assert(places::placed_function(xs[i], len));
        fair_expanded(xs[i].body, macros, 0, len);
        let (r, err) = macroexpand::expanded(xs[i].body, macros, 0);
        if err is None {
            fair_expanded_methods(
                xs,
                i + 1,
                acc.push(FunctionV { body: r, ..xs[i] }),
                macros,
                len,
            );
        }
    }
}

proof fn fair_expanded_items(
    xs: Seq<TopLevelV>,
    i: int,
    acc: Seq<TopLevelV>,
    macros: Macros,
    len: int,
)
    requires
        places::placed_items(xs, len),
        places::placed_items(acc, len),
        macros_placed(macros, len),
    ensures
        fair_expansion(macroexpand::expanded_items(xs, i, acc, macros).1, len),
        macroexpand::expanded_items(xs, i, acc, macros).1 is None ==> places::placed_items(
            macroexpand::expanded_items(xs, i, acc, macros).0,
            len,
        ),
    decreases xs.len() - i,
{
    if 0 <= i < xs.len() {
        assert(places::placed_item(xs[i], len));
        match xs[i] {
            TopLevelV::Function(f) => fair_expanded(f.body, macros, 0, len),
            TopLevelV::GenericFunction(g) => fair_expanded(g.body, macros, 0, len),
            TopLevelV::Const(c) => fair_expanded(c.value, macros, 0, len),
            TopLevelV::Impl(ib) => fair_expanded_methods(ib.methods, 0, Seq::empty(), macros, len),
            _ => {},
        }
        let (r, err) = macroexpand::expanded_item(xs[i], macros);
        if err is None {
            fair_expanded_items(xs, i + 1, acc.push(r), macros, len);
        }
    }
}

proof fn lemma_split_macros(
    items: Seq<TopLevelV>,
    i: int,
    macros: Macros,
    kept: Seq<TopLevelV>,
    len: int,
)
    requires
        places::placed_items(items, len),
        places::placed_items(kept, len),
        macros_placed(macros, len),
    ensures
        match macroexpand::split_items(items, i, macros, kept) {
            Ok((ms, ks)) => macros_placed(ms, len) && places::placed_items(ks, len),
            Err(x) => places::in_text(macroexpand::macro_error_span(x), len),
        },
    decreases items.len() - i,
{
    if 0 <= i < items.len() {
        assert(places::placed_item(items[i], len));
        match items[i] {
            TopLevelV::DefMacro(m) => {
                if !macros.contains_key(m.name) {
                    lemma_split_macros(items, i + 1, macros.insert(m.name, m), kept, len);
                }
            },
            _ => lemma_split_macros(items, i + 1, macros, kept.push(items[i]), len),
        }
    }
}

/// Expansion keeps places: what a program is expanded to knows its places in the
/// text, and an expansion that is refused is refused at a place in the text.
pub proof fn law_expansion_keeps_places(p: ProgramV, len: int)
    requires
        places::placed_items(p.items, len),
    ensures
        match macroexpand::expanded_program(p) {
            (_, Some(x)) => places::in_text(macroexpand::macro_error_span(x), len),
            (q, None) => places::placed_items(q.items, len),
        },
{
    lemma_split_macros(p.items, 0, Map::empty(), Seq::empty(), len);
    if let Ok((macros, kept)) = macroexpand::split_items(p.items, 0, Map::empty(), Seq::empty()) {
        fair_expanded_items(kept, 0, Seq::empty(), macros, len);
    }
}

} // verus!
