//! Laws of the type checker: what holds of every program that it accepts.
use crate::ast::{
    BindingV, EnumDefV, ExprKindV, ExprV, FunctionV, GenericFunctionV, ImplBlockV, Lit, MatchArmV,
    MethodSigV, ParamV, ProgramV, Span, TopLevelV, TraitDefV, TypeV, VariantDefV,
};
use crate::ast;
use crate::collected;
use crate::typeck::arity;
use crate::typing::{CkV, Env, FnSigV, Pass, Subst, TypeErrorV, VariantInfoV};
use crate::typing;
use vstd::prelude::*;

verus! {

/// Whether an expression and all in it carry types that fit together.
pub open spec fn typed(e: ExprV) -> bool
    decreases e,
{
    e.ty is Some && typed_kind(e.kind, e.ty->0)
}

/// Whether a form may have the type `ty`, and all in it is typed.
pub open spec fn typed_kind(k: ExprKindV, ty: TypeV) -> bool
    decreases k,
{
    match k {
        ExprKindV::Lit(l) => ty == typing::literal_type(l),
        ExprKindV::Var(_) => true,
        ExprKindV::Break => ty is Unit,
        ExprKindV::If { cond, then_branch, else_branch } => {
            &&& typed(*cond) && cond.ty == Some(TypeV::Bool)
            &&& typed(*then_branch) && then_branch.ty == Some(ty)
            &&& typed(*else_branch) && else_branch.ty == Some(ty)
        },
        ExprKindV::Let { bindings, body } => {
            &&& typed_bindings(bindings)
            &&& typed(*body) && body.ty == Some(ty)
        },
        ExprKindV::Do(es) => {
            &&& typed_all(es)
            &&& ty == (if es.len() == 0 {
                TypeV::Unit
            } else {
                es.last().ty->0
            })
        },
        ExprKindV::Cast { ty: to, expr } => {
            &&& typed(*expr) && typing::numeric(expr.ty->0)
            &&& typing::numeric(to) && ty == to
        },
        ExprKindV::Assign { name, value } => typed(*value) && ty is Unit,
        ExprKindV::While { cond, body } => {
            &&& typed(*cond) && cond.ty == Some(TypeV::Bool)
            &&& typed(*body)
            &&& ty is Unit
        },
        ExprKindV::Loop { body } => typed(*body) && ty is Unit,
        ExprKindV::ArrayLit { elem_ty, elems } => {
            &&& typed_all(elems)
            &&& ast::scalar(elem_ty)
            &&& forall|i: int| 0 <= i < elems.len() ==> (#[trigger] elems[i]).ty == Some(elem_ty)
        },
        ExprKindV::Field { base, field } => typed(*base) && base.ty->0 is Named,
        ExprKindV::Match { scrutinee, arms } => {
            &&& typed(*scrutinee) && scrutinee.ty->0 is Named
            &&& typed_arms(arms)
            &&& forall|i: int| 0 <= i < arms.len() ==> (#[trigger] arms[i]).body.ty == Some(ty)
        },
        ExprKindV::Call { callee, args } => typed_all(args),
    }
}

pub open spec fn typed_all(es: Seq<ExprV>) -> bool
    decreases es,
{
    forall|i: int| 0 <= i < es.len() ==> typed(#[trigger] es[i])
}

/// The value of a binding has the type of the variable.
pub open spec fn typed_bindings(bs: Seq<BindingV>) -> bool
    decreases bs,
{
    forall|i: int|
        0 <= i < bs.len() ==> typed((#[trigger] bs[i]).value) && bs[i].value.ty == Some(bs[i].ty)
}

pub open spec fn typed_arms(arms: Seq<MatchArmV>) -> bool
    decreases arms,
{
    forall|i: int| 0 <= i < arms.len() ==> typed((#[trigger] arms[i]).body)
}

/// A function whose body is typed and has the type of the result.
pub open spec fn typed_function(f: FunctionV) -> bool {
    typed(f.body) && f.body.ty == Some(f.ret)
}

/// Whether the bodies of an item are typed.
pub open spec fn typed_item(it: TopLevelV) -> bool {
    match it {
        TopLevelV::Function(f) => typed_function(f),
        TopLevelV::Impl(ib) => forall|i: int|
            0 <= i < ib.methods.len() ==> typed_function(#[trigger] ib.methods[i]),
        TopLevelV::Const(c) => typed(c.value) && c.value.ty == Some(c.ty) && c.value.kind is Lit,
        _ => true,
    }
}

/// Whether in an expression every `break` stands in the body of a `while` or `loop` of
/// that expression, or, if `looped`, anywhere.
pub open spec fn homed(e: ExprV, looped: bool) -> bool
    decreases e,
{
    homed_kind(e.kind, looped)
}

pub open spec fn homed_kind(k: ExprKindV, looped: bool) -> bool
    decreases k,
{
    match k {
        ExprKindV::Lit(_) => true,
        ExprKindV::Var(_) => true,
        ExprKindV::Break => looped,
        ExprKindV::If { cond, then_branch, else_branch } => {
            &&& homed(*cond, looped)
            &&& homed(*then_branch, looped)
            &&& homed(*else_branch, looped)
        },
        ExprKindV::Let { bindings, body } => homed_bindings(bindings, looped) && homed(*body, looped),
        ExprKindV::Do(es) => homed_all(es, looped),
        ExprKindV::Cast { ty, expr } => homed(*expr, looped),
        ExprKindV::Assign { name, value } => homed(*value, looped),
        ExprKindV::While { cond, body } => homed(*cond, looped) && homed(*body, true),
        ExprKindV::Loop { body } => homed(*body, true),
        ExprKindV::ArrayLit { elem_ty, elems } => homed_all(elems, looped),
        ExprKindV::Field { base, field } => homed(*base, looped),
        ExprKindV::Match { scrutinee, arms } => homed(*scrutinee, looped) && homed_arms(arms, looped),
        ExprKindV::Call { callee, args } => homed_all(args, looped),
    }
}

pub open spec fn homed_all(es: Seq<ExprV>, looped: bool) -> bool
    decreases es,
{
    forall|i: int| 0 <= i < es.len() ==> homed(#[trigger] es[i], looped)
}

pub open spec fn homed_bindings(bs: Seq<BindingV>, looped: bool) -> bool
    decreases bs,
{
    forall|i: int| 0 <= i < bs.len() ==> homed((#[trigger] bs[i]).value, looped)
}

pub open spec fn homed_arms(arms: Seq<MatchArmV>, looped: bool) -> bool
    decreases arms,
{
    forall|i: int| 0 <= i < arms.len() ==> homed((#[trigger] arms[i]).body, looped)
}

/// Whether in the bodies of an item every `break` has a loop of that body around it.
pub open spec fn homed_item(it: TopLevelV) -> bool {
    match it {
        TopLevelV::Function(f) => homed(f.body, false),
        TopLevelV::Impl(ib) => forall|i: int|
            0 <= i < ib.methods.len() ==> homed((#[trigger] ib.methods[i]).body, false),
        _ => true,
    }
}

/// Whether the instances made so far are typed, and each `break` in them has a loop.
pub open spec fn typed_instances(s: CkV) -> bool {
    forall|i: int|
        0 <= i < s.mono_fns.len() ==> typed_function(#[trigger] s.mono_fns[i]) && homed(
            s.mono_fns[i].body,
            false,
        )
}

/// Checking an expression finds out nothing about definitions but instances.
pub open spec fn same_definitions(s: CkV, t: CkV) -> bool {
    t == (CkV { fns: t.fns, mono_cache: t.mono_cache, mono_fns: t.mono_fns, ..s })
}

/// `main` keeps its signature.
spec fn same_main(s: CkV, t: CkV) -> bool {
    s.fns.contains_key("main"@) ==> t.fns.contains_key("main"@) && t.fns["main"@] == s.fns["main"@]
}

/// No instance is called `main`.
proof fn lemma_instance_is_not_main(name: Seq<char>, tys: Seq<TypeV>)
    ensures
        typing::instance_symbol(name, tys) != "main"@,
{
    reveal_strlit("main");
    reveal_strlit("__risp_mono_");
    assert(typing::instance_symbol(name, tys)[0] == '_');
}

/// What a check that succeeds keeps.
spec fn kept(s: CkV, t: CkV) -> bool {
    &&& same_definitions(s, t)
    &&& same_main(s, t)
    &&& typed_instances(s) ==> typed_instances(t)
}

proof fn lemma_check(gas: nat, e: ExprV, env: Env, s: CkV)
    ensures
        ({
            let c = typing::check(gas, e, env, s);
            c.r is Ok ==> kept(s, c.s) && typed(c.node) && homed(c.node, s.in_loop) && c.node.ty == Some(c.r->Ok_0)
        }),
    decreases gas, e, 0int,
{
    lemma_check_kind(gas, e.kind, e.span, env, s);
}

proof fn lemma_check_as(gas: nat, e: ExprV, want: TypeV, env: Env, s: CkV)
    ensures
        ({
            let c = typing::check_as(gas, e, want, env, s);
            c.r is Ok ==> kept(s, c.s) && typed(c.node) && homed(c.node, s.in_loop) && c.node.ty == Some(want) && c.r->Ok_0
                == want
        }),
    decreases gas, e, 1int,
{
    lemma_check(gas, e, env, s);
}

#[verifier::rlimit(60)]
proof fn lemma_check_kind(gas: nat, k: ExprKindV, span: Span, env: Env, s: CkV)
    ensures
        ({
            let c = typing::check_kind(gas, k, span, env, s);
            c.r is Ok ==> kept(s, c.s) && typed_kind(c.node, c.r->Ok_0) && homed_kind(c.node, s.in_loop)
        }),
    decreases gas, k, 3int,
{
    match k {
        ExprKindV::If { cond, then_branch, else_branch } => {
            let c = typing::check_as(gas, *cond, TypeV::Bool, env, s);
            lemma_check_as(gas, *cond, TypeV::Bool, env, s);
            if c.r is Ok {
                let a = typing::check(gas, *then_branch, env, c.s);
                lemma_check(gas, *then_branch, env, c.s);
                if a.r is Ok {
                    lemma_check_as(gas, *else_branch, a.r->Ok_0, env, a.s);
                }
            }
        },
        ExprKindV::Let { bindings, body } => {
            let c = typing::check_bindings(gas, bindings, 0, Seq::empty(), env, s);
            lemma_check_bindings(gas, bindings, 0, Seq::empty(), env, s);
            if c.r is Ok {
                lemma_check(gas, *body, c.r->Ok_0, c.s);
            }
        },
        ExprKindV::Do(es) => lemma_check_do(gas, es, 0, Seq::empty(), TypeV::Unit, env, s),
        ExprKindV::Cast { ty, expr } => lemma_check(gas, *expr, env, s),
        ExprKindV::Assign { name, value } => {
            if env.contains_key(name) {
                lemma_check_as(gas, *value, env[name], env, s);
            }
        },
        ExprKindV::While { cond, body } => {
            let c = typing::check_as(gas, *cond, TypeV::Bool, env, s);
            lemma_check_as(gas, *cond, TypeV::Bool, env, s);
            if c.r is Ok {
                lemma_check(gas, *body, env, CkV { in_loop: true, ..c.s });
            }
        },
        ExprKindV::Loop { body } => lemma_check(gas, *body, env, CkV { in_loop: true, ..s }),
        ExprKindV::ArrayLit { elem_ty, elems } => {
            let wants = Seq::new(elems.len(), |i: int| elem_ty);
            lemma_check_args(gas, elems, 0, Seq::empty(), wants, env, s);
        },
        ExprKindV::Field { base, field } => lemma_check(gas, *base, env, s),
        ExprKindV::Match { .. } => lemma_check_match(gas, k, span, env, s),
        ExprKindV::Call { callee, args } => lemma_check_call(gas, callee, args, span, env, s),
        _ => {},
    }
}

proof fn lemma_check_match(gas: nat, k: ExprKindV, span: Span, env: Env, s: CkV)
    requires
        k is Match,
    ensures
        ({
            let c = typing::check_match(gas, k, span, env, s);
            c.r is Ok ==> kept(s, c.s) && typed_kind(c.node, c.r->Ok_0) && homed_kind(c.node, s.in_loop)
        }),
    decreases gas, k, 2int,
{
    if let ExprKindV::Match { scrutinee, arms } = k {
        let c = typing::check(gas, *scrutinee, env, s);
        lemma_check(gas, *scrutinee, env, s);
        if c.r is Ok {
            let st = c.r->Ok_0;
            if st is Named && c.s.enums.contains_key(st->Named_0) {
                let name = c.s.enums[st->Named_0].name;
                lemma_check_arms(gas, arms, 0, Seq::empty(), name, Set::empty(), None, env, c.s);
            }
        }
    }
}

proof fn lemma_check_arms(
    gas: nat,
    arms: Seq<MatchArmV>,
    i: int,
    acc: Seq<MatchArmV>,
    enum_name: Seq<char>,
    seen: Set<Seq<char>>,
    ty: Option<TypeV>,
    env: Env,
    s: CkV,
)
    requires
        typed_arms(acc) && homed_arms(acc, s.in_loop),
        acc.len() > 0 ==> ty is Some,
        forall|j: int| 0 <= j < acc.len() ==> (#[trigger] acc[j]).body.ty == ty,
    ensures
        ({
            let c = typing::check_arms(gas, arms, i, acc, enum_name, seen, ty, env, s);
            c.r is Ok ==> {
                let last = c.r->Ok_0.1;
                &&& kept(s, c.s)
                &&& typed_arms(c.node) && homed_arms(c.node, s.in_loop)
                &&& c.node.len() > 0 ==> last is Some
                &&& forall|j: int| 0 <= j < c.node.len() ==> (#[trigger] c.node[j]).body.ty == last
            }
        }),
    decreases gas, arms, arms.len() - i,
{
    if 0 <= i < arms.len() {
        let arm = arms[i];
        if typing::bad_arm(s, arm, enum_name, seen) is None {
            let b = typing::check(gas, arm.body, typing::arm_scope(s, arm, env), s);
            lemma_check(gas, arm.body, typing::arm_scope(s, arm, env), s);
            if b.r is Ok && !(ty is Some && ty->0 != b.r->Ok_0) {
                lemma_check_arms(
                    gas,
                    arms,
                    i + 1,
                    acc.push(MatchArmV { body: b.node, ..arm }),
                    enum_name,
                    seen.insert(arm.variant),
                    Some(b.r->Ok_0),
                    env,
                    b.s,
                );
            }
        }
    }
}

proof fn lemma_check_do(
    gas: nat,
    es: Seq<ExprV>,
    i: int,
    acc: Seq<ExprV>,
    last: TypeV,
    env: Env,
    s: CkV,
)
    requires
        typed_all(acc) && homed_all(acc, s.in_loop),
        last == (if acc.len() == 0 {
            TypeV::Unit
        } else {
            acc.last().ty->0
        }),
    ensures
        ({
            let c = typing::check_do(gas, es, i, acc, last, env, s);
            c.r is Ok ==> kept(s, c.s) && typed_all(c.node) && homed_all(c.node, s.in_loop) && c.r->Ok_0 == (if c.node.len() == 0 {
                TypeV::Unit
            } else {
                c.node.last().ty->0
            })
        }),
    decreases gas, es, es.len() - i,
{
    if 0 <= i < es.len() {
        let c = typing::check(gas, es[i], env, s);
        lemma_check(gas, es[i], env, s);
        if c.r is Ok {
            lemma_check_do(gas, es, i + 1, acc.push(c.node), c.r->Ok_0, env, c.s);
        }
    }
}

proof fn lemma_check_args(
    gas: nat,
    es: Seq<ExprV>,
    i: int,
    acc: Seq<ExprV>,
    wants: Seq<TypeV>,
    env: Env,
    s: CkV,
)
    requires
        0 <= i <= es.len(),
        acc.len() == i,
        typed_all(acc) && homed_all(acc, s.in_loop),
        forall|j: int| 0 <= j < i ==> (#[trigger] acc[j]).ty == Some(wants[j]),
    ensures
        ({
            let c = typing::check_args(gas, es, i, acc, wants, env, s);
            c.r is Ok ==> {
                &&& kept(s, c.s)
                &&& typed_all(c.node) && homed_all(c.node, s.in_loop)
                &&& c.node.len() == es.len()
                &&& forall|j: int|
                    0 <= j < es.len() ==> (#[trigger] c.node[j]).ty == Some(wants[j])
            }
        }),
    decreases gas, es, es.len() - i,
{
    if i < es.len() {
        let c = typing::check_as(gas, es[i], wants[i], env, s);
        lemma_check_as(gas, es[i], wants[i], env, s);
        if c.r is Ok {
            lemma_check_args(gas, es, i + 1, acc.push(c.node), wants, env, c.s);
        }
    }
}

proof fn lemma_check_bindings(
    gas: nat,
    bs: Seq<BindingV>,
    i: int,
    acc: Seq<BindingV>,
    env: Env,
    s: CkV,
)
    requires
        typed_bindings(acc) && homed_bindings(acc, s.in_loop),
    ensures
        ({
            let c = typing::check_bindings(gas, bs, i, acc, env, s);
            c.r is Ok ==> kept(s, c.s) && typed_bindings(c.node) && homed_bindings(c.node, s.in_loop)
        }),
    decreases gas, bs, bs.len() - i,
{
    if 0 <= i < bs.len() {
        let b = bs[i];
        if typing::undefined_in(s, b.ty, Set::empty()) is None {
            let c = typing::check_as(gas, b.value, b.ty, env, s);
            lemma_check_as(gas, b.value, b.ty, env, s);
            if c.r is Ok {
                lemma_check_bindings(
                    gas,
                    bs,
                    i + 1,
                    acc.push(BindingV { value: c.node, ..b }),
                    env.insert(b.name, b.ty),
                    c.s,
                );
            }
        }
    }
}

#[verifier::rlimit(40)]
proof fn lemma_check_call(
    gas: nat,
    callee: Seq<char>,
    args: Seq<ExprV>,
    span: Span,
    env: Env,
    s: CkV,
)
    ensures
        ({
            let c = typing::check_call(gas, callee, args, span, env, s);
            c.r is Ok ==> kept(s, c.s) && typed_all(c.node.1) && homed_all(c.node.1, s.in_loop)
        }),
    decreases gas, args, args.len() + 3,
{
    if s.trait_methods.contains_key(callee) {
        lemma_check_method_call(gas, callee, args, span, env, s);
    } else if s.structs.contains_key(callee) {
        let sdef = s.structs[callee];
        lemma_check_known_call(
            gas,
            callee,
            args,
            typing::field_types(sdef.fields),
            TypeV::Named(sdef.name),
            span,
            env,
            s,
        );
    } else if s.variants.contains_key(callee) {
        let info = s.variants[callee];
        let wants = match info.payload {
            None => Seq::empty(),
            Some(t) => seq![t],
        };
        lemma_check_known_call(
            gas,
            callee,
            args,
            wants,
            TypeV::Named(info.enum_name),
            span,
            env,
            s,
        );
    } else if typing::builtin_name(callee) {
        lemma_check_builtin(gas, callee, args, span, env, s);
    } else if s.generic_fns.contains_key(callee) {
        lemma_check_generic_call(gas, callee, args, span, env, s);
    } else if s.fns.contains_key(callee) {
        let sig = s.fns[callee];
        lemma_check_known_call(gas, callee, args, sig.params, sig.ret, span, env, s);
    }
}

proof fn lemma_check_known_call(
    gas: nat,
    callee: Seq<char>,
    args: Seq<ExprV>,
    wants: Seq<TypeV>,
    ret: TypeV,
    span: Span,
    env: Env,
    s: CkV,
)
    ensures
        ({
            let c = typing::check_known_call(gas, callee, args, wants, ret, span, env, s);
            c.r is Ok ==> kept(s, c.s) && typed_all(c.node.1) && homed_all(c.node.1, s.in_loop)
        }),
    decreases gas, args, args.len() + 2,
{
    lemma_check_args(gas, args, 0, Seq::empty(), wants, env, s);
}

/// The first argument is checked by itself, the others against types.
proof fn lemma_first_and_rest(
    gas: nat,
    args: Seq<ExprV>,
    wants: Seq<TypeV>,
    env: Env,
    s: CkV,
)
    requires
        args.len() > 0,
    ensures
        ({
            let c = typing::check(gas, args[0], env, s);
            let d = typing::check_args(gas, args, 1, seq![c.node], wants, env, c.s);
            c.r is Ok ==> {
                &&& kept(s, c.s)
                &&& args.len() == 1 ==> typed_all(args.update(0, c.node)) && homed_all(args.update(0, c.node), s.in_loop)
                &&& d.r is Ok && wants[0] == c.r->Ok_0 ==> kept(s, d.s) && typed_all(d.node) && homed_all(d.node, s.in_loop)
            }
        }),
    decreases gas, args, args.len(),
{
    let c = typing::check(gas, args[0], env, s);
    lemma_check(gas, args[0], env, s);
    if c.r is Ok && wants[0] == c.r->Ok_0 {
        lemma_check_args(gas, args, 1, seq![c.node], wants, env, c.s);
    }
}

proof fn lemma_check_method_call(
    gas: nat,
    callee: Seq<char>,
    args: Seq<ExprV>,
    span: Span,
    env: Env,
    s: CkV,
)
    ensures
        ({
            let c = typing::check_method_call(gas, callee, args, span, env, s);
            c.r is Ok ==> kept(s, c.s) && typed_all(c.node.1) && homed_all(c.node.1, s.in_loop)
        }),
    decreases gas, args, args.len() + 2,
{
    if args.len() > 0 {
        let c = typing::check(gas, args[0], env, s);
        if c.r is Ok {
            let symbol = typing::method_symbol(s.trait_methods[callee], c.r->Ok_0, callee);
            lemma_first_and_rest(gas, args, c.s.fns[symbol].params, env, s);
        }
    }
}

#[verifier::rlimit(40)]
proof fn lemma_check_builtin(
    gas: nat,
    op: Seq<char>,
    args: Seq<ExprV>,
    span: Span,
    env: Env,
    s: CkV,
)
    requires
        typing::builtin_name(op),
    ensures
        ({
            let c = typing::check_builtin(gas, op, args, span, env, s);
            c.r is Ok ==> kept(s, c.s) && typed_all(c.node) && homed_all(c.node, s.in_loop)
        }),
    decreases gas, args, args.len() + 2,
{
    let arity = typing::builtin_arity(op);
    if !(arity is None && args.len() == 0) && !(arity is Some && args.len() != arity->0) {
        lemma_check_uniform(gas, args, TypeV::Bool, TypeV::Bool, env, s);
        lemma_check_uniform(gas, args, TypeV::Str, TypeV::Str, env, s);
        lemma_check_uniform(gas, args, TypeV::Str, TypeV::I32, env, s);
        if args.len() > 0 {
            lemma_check_numeric(gas, op, args, env, s);
            let others = op == "/"@ || op == "mod"@ || arity is None || typing::comparison(op) || op
                == "and"@ || op == "or"@ || op == "not"@ || op == "str-concat"@ || op == "str-len"@;
            if !others {
                lemma_check_first(gas, op, args, env, s);
            }
        }
        if args.len() == 2 {
            lemma_check_comparison(gas, op, args, env, s);
        }
    }
}

proof fn lemma_check_uniform(
    gas: nat,
    args: Seq<ExprV>,
    want: TypeV,
    ret: TypeV,
    env: Env,
    s: CkV,
)
    ensures
        ({
            let c = typing::check_uniform(gas, args, want, ret, env, s);
            c.r is Ok ==> kept(s, c.s) && typed_all(c.node) && homed_all(c.node, s.in_loop)
        }),
    decreases gas, args, args.len() + 1,
{
    let wants = Seq::new(args.len(), |i: int| want);
    lemma_check_args(gas, args, 0, Seq::empty(), wants, env, s);
}

proof fn lemma_check_numeric(gas: nat, op: Seq<char>, args: Seq<ExprV>, env: Env, s: CkV)
    requires
        args.len() > 0,
    ensures
        ({
            let c = typing::check_numeric(gas, op, args, env, s);
            c.r is Ok ==> kept(s, c.s) && typed_all(c.node) && homed_all(c.node, s.in_loop)
        }),
    decreases gas, args, args.len() + 1,
{
    let c = typing::check(gas, args[0], env, s);
    if c.r is Ok {
        let first = c.r->Ok_0;
        lemma_first_and_rest(gas, args, Seq::new(args.len(), |i: int| first), env, s);
    }
}

proof fn lemma_check_comparison(gas: nat, op: Seq<char>, args: Seq<ExprV>, env: Env, s: CkV)
    requires
        args.len() == 2,
    ensures
        ({
            let c = typing::check_comparison(gas, op, args, env, s);
            c.r is Ok ==> kept(s, c.s) && typed_all(c.node) && homed_all(c.node, s.in_loop)
        }),
    decreases gas, args, args.len() + 1,
{
    let a = typing::check(gas, args[0], env, s);
    lemma_check(gas, args[0], env, s);
    if a.r is Ok {
        lemma_check_as(gas, args[1], a.r->Ok_0, env, a.s);
    }
}

proof fn lemma_check_first(gas: nat, op: Seq<char>, args: Seq<ExprV>, env: Env, s: CkV)
    requires
        args.len() > 0,
        op == "print"@ || op == "println"@ ==> args.len() == 1,
    ensures
        ({
            let c = typing::check_first(gas, op, args, env, s);
            c.r is Ok ==> kept(s, c.s) && typed_all(c.node) && homed_all(c.node, s.in_loop)
        }),
    decreases gas, args, args.len() + 1,
{
    let c = typing::check(gas, args[0], env, s);
    if c.r is Ok {
        let t = c.r->Ok_0;
        lemma_first_and_rest(gas, args, seq![t], env, s);
        if let TypeV::Array { elem, .. } = t {
            let wants = if op == "aset!"@ {
                seq![t, TypeV::I32, *elem]
            } else {
                seq![t, TypeV::I32]
            };
            lemma_first_and_rest(gas, args, wants, env, s);
        }
    }
}

proof fn lemma_check_unified(
    gas: nat,
    args: Seq<ExprV>,
    i: int,
    acc: Seq<ExprV>,
    params: Seq<ParamV>,
    tps: Set<Seq<char>>,
    subst: Subst,
    tys: Seq<TypeV>,
    env: Env,
    s: CkV,
)
    requires
        typed_all(acc) && homed_all(acc, s.in_loop),
    ensures
        ({
            let c = typing::check_unified(gas, args, i, acc, params, tps, subst, tys, env, s);
            c.r is Ok ==> kept(s, c.s) && typed_all(c.node) && homed_all(c.node, s.in_loop)
        }),
    decreases gas, args, args.len() - i,
{
    if 0 <= i < args.len() {
        let c = typing::check(gas, args[i], env, s);
        lemma_check(gas, args[i], env, s);
        if c.r is Ok {
            let t = c.r->Ok_0;
            if let Ok(subst2) = typing::unified(params[i].ty, t, tps, subst, args[i].span) {
                lemma_check_unified(
                    gas,
                    args,
                    i + 1,
                    acc.push(c.node),
                    params,
                    tps,
                    subst2,
                    tys.push(t),
                    env,
                    c.s,
                );
            }
        }
    }
}

proof fn lemma_check_generic_call(
    gas: nat,
    callee: Seq<char>,
    args: Seq<ExprV>,
    span: Span,
    env: Env,
    s: CkV,
)
    ensures
        ({
            let c = typing::check_generic_call(gas, callee, args, span, env, s);
            c.r is Ok ==> kept(s, c.s) && typed_all(c.node.1) && homed_all(c.node.1, s.in_loop)
        }),
    decreases gas, args, args.len() + 2,
{
    let g = s.generic_fns[callee];
    if g.params.len() == args.len() {
        let tps = typing::type_param_names(g.type_params);
        let c = typing::check_unified(
            gas,
            args,
            0,
            Seq::empty(),
            g.params,
            tps,
            Map::empty(),
            Seq::empty(),
            env,
            s,
        );
        lemma_check_unified(
            gas,
            args,
            0,
            Seq::empty(),
            g.params,
            tps,
            Map::empty(),
            Seq::empty(),
            env,
            s,
        );
        if c.r is Ok && gas > 0 {
            let subst = c.r->Ok_0.0;
            if let Ok(targs) = typing::type_args(
                g.type_params,
                0,
                Seq::empty(),
                subst,
                c.s.impls,
                span,
            ) {
                lemma_check_instance((gas - 1) as nat, g, targs, subst, c.s);
            }
        }
    }
}

proof fn lemma_check_instance(
    gas: nat,
    g: GenericFunctionV,
    targs: Seq<TypeV>,
    subst: Subst,
    s: CkV,
)
    ensures
        ({
            let c = typing::check_instance(gas, g, targs, subst, s);
            c.r is Ok ==> kept(s, c.s)
        }),
    decreases gas, typing::instance_of(g, targs, subst).body, 2int,
{
    let f = typing::instance_of(g, targs, subst);
    let c = typing::check_as(gas, f.body, f.ret, typing::scope_of(f.params), typing::entered(s, g, targs, f));
    lemma_check_as(gas, f.body, f.ret, typing::scope_of(f.params), typing::entered(s, g, targs, f));
    lemma_instance_is_not_main(g.name, targs);
    if c.r is Ok && typed_instances(s) {
        assert(typed_instances(typing::entered(s, g, targs, f)));
        let t = typing::check_instance(gas, g, targs, subst, s).s;
        assert forall|i: int| 0 <= i < t.mono_fns.len() implies typed_function(
            #[trigger] t.mono_fns[i],
        ) && homed(t.mono_fns[i].body, false) by {
            if i < c.s.mono_fns.len() {
                assert(t.mono_fns[i] == c.s.mono_fns[i]);
            }
        }
    }
}

/// An expression that is accepted carries its type, and so does all in it. Every `break`
/// in it has a loop to leave.
pub proof fn law_accepted_expression_is_typed(gas: nat, e: ExprV, env: Env, s: CkV)
    requires
        typing::check(gas, e, env, s).r is Ok,
    ensures
        typed(typing::check(gas, e, env, s).node),
        homed(typing::check(gas, e, env, s).node, s.in_loop),
        typing::check(gas, e, env, s).node.ty == Some(typing::check(gas, e, env, s).r->Ok_0),
        same_definitions(s, typing::check(gas, e, env, s).s),
{
    lemma_check(gas, e, env, s);
}

/// A `match` that is accepted has exactly one arm for every variant of the enum, and an
/// arm binds a name if and only if its variant has a payload.
pub proof fn law_accepted_match_is_exhaustive(gas: nat, k: ExprKindV, span: Span, env: Env, s: CkV)
    requires
        k is Match,
        typing::check_match(gas, k, span, env, s).r is Ok,
    ensures
        ({
            let c = typing::check(gas, *k->scrutinee, env, s);
            let name = c.r->Ok_0->Named_0;
            let variants = c.s.enums[name].variants;
            let arms = k->arms;
            &&& c.r is Ok && c.r->Ok_0 is Named && c.s.enums.contains_key(name)
            &&& forall|i: int|
                0 <= i < variants.len() ==> exists|j: int|
                    0 <= j < arms.len() && (#[trigger] arms[j]).variant == (
                    #[trigger] variants[i]).name
            &&& forall|i: int, j: int|
                0 <= i < j < arms.len() ==> (#[trigger] arms[i]).variant != (
                #[trigger] arms[j]).variant
            &&& forall|i: int|
                0 <= i < arms.len() ==> arm_in_order(#[trigger] arms[i], c.s.enums[name].name, s)
        }),
{
    let arms = k->arms;
    let c = typing::check(gas, *k->scrutinee, env, s);
    lemma_check(gas, *k->scrutinee, env, s);
    let name = c.r->Ok_0->Named_0;
    let edef = c.s.enums[name];
    let a = typing::check_arms(gas, arms, 0, Seq::empty(), edef.name, Set::empty(), None, env, c.s);
    lemma_arms_seen(gas, arms, 0, Seq::empty(), edef.name, Set::empty(), None, env, c.s);
    lemma_arms_once(gas, arms, 0, Seq::empty(), edef.name, Set::empty(), None, env, c.s);
    lemma_none_missing(edef.variants, a.r->Ok_0.0, 0);
}

/// Whether an arm is one for a variant of the enum, and binds its payload if there is one.
pub open spec fn arm_in_order(arm: MatchArmV, enum_name: Seq<char>, s: CkV) -> bool {
    &&& s.variants.contains_key(arm.variant)
    &&& s.variants[arm.variant].enum_name == enum_name
    &&& arm.binding is Some <==> s.variants[arm.variant].payload is Some
}

/// No variant that is seen comes again.
proof fn lemma_arms_once(
    gas: nat,
    arms: Seq<MatchArmV>,
    i: int,
    acc: Seq<MatchArmV>,
    enum_name: Seq<char>,
    seen: Set<Seq<char>>,
    ty: Option<TypeV>,
    env: Env,
    s: CkV,
)
    requires
        0 <= i <= arms.len(),
    ensures
        ({
            let c = typing::check_arms(gas, arms, i, acc, enum_name, seen, ty, env, s);
            c.r is Ok ==> {
                &&& forall|j: int|
                    i <= j < arms.len() ==> !seen.contains((#[trigger] arms[j]).variant)
                        && arm_in_order(arms[j], enum_name, s)
                &&& forall|j: int, k: int|
                    i <= j < k < arms.len() ==> (#[trigger] arms[j]).variant != (
                    #[trigger] arms[k]).variant
            }
        }),
    decreases arms.len() - i,
{
    if i < arms.len() {
        let arm = arms[i];
        let b = typing::check(gas, arm.body, typing::arm_scope(s, arm, env), s);
        lemma_check(gas, arm.body, typing::arm_scope(s, arm, env), s);
        if typing::bad_arm(s, arm, enum_name, seen) is None && b.r is Ok {
            let more = acc.push(MatchArmV { body: b.node, ..arm });
            let next = seen.insert(arm.variant);
            lemma_arms_once(gas, arms, i + 1, more, enum_name, next, Some(b.r->Ok_0), env, b.s);
        }
    }
}

/// Only variants that have an arm are seen.
proof fn lemma_arms_seen(
    gas: nat,
    arms: Seq<MatchArmV>,
    i: int,
    acc: Seq<MatchArmV>,
    enum_name: Seq<char>,
    seen: Set<Seq<char>>,
    ty: Option<TypeV>,
    env: Env,
    s: CkV,
)
    requires
        0 <= i <= arms.len(),
        forall|v: Seq<char>| #[trigger]
            seen.contains(v) ==> exists|j: int| 0 <= j < i && (#[trigger] arms[j]).variant == v,
    ensures
        ({
            let c = typing::check_arms(gas, arms, i, acc, enum_name, seen, ty, env, s);
            c.r is Ok ==> forall|v: Seq<char>| #[trigger]
                c.r->Ok_0.0.contains(v) ==> exists|j: int|
                    0 <= j < arms.len() && (#[trigger] arms[j]).variant == v
        }),
    decreases arms.len() - i,
{
    if i < arms.len() {
        let arm = arms[i];
        let b = typing::check(gas, arm.body, typing::arm_scope(s, arm, env), s);
        let next = seen.insert(arm.variant);
        assert forall|v: Seq<char>| #[trigger] next.contains(v) implies exists|j: int|
            0 <= j < i + 1 && (#[trigger] arms[j]).variant == v by {
            if v == arm.variant {
                assert(arms[i].variant == v);
            } else {
                assert(seen.contains(v));
            }
        }
        if b.r is Ok {
            lemma_arms_seen(
                gas,
                arms,
                i + 1,
                acc.push(MatchArmV { body: b.node, ..arm }),
                enum_name,
                next,
                Some(b.r->Ok_0),
                env,
                b.s,
            );
        }
    }
}

proof fn lemma_none_missing(variants: Seq<VariantDefV>, seen: Set<Seq<char>>, i: int)
    requires
        0 <= i,
        typing::first_missing(variants, seen, i) is None,
    ensures
        forall|j: int| i <= j < variants.len() ==> seen.contains((#[trigger] variants[j]).name),
    decreases variants.len() - i,
{
    if i < variants.len() {
        lemma_none_missing(variants, seen, i + 1);
    }
}

proof fn lemma_check_methods(gas: nat, fs: Seq<FunctionV>, i: int, acc: Seq<FunctionV>, s: CkV)
    requires
        forall|j: int|
            0 <= j < acc.len() ==> typed_function(#[trigger] acc[j]) && homed(acc[j].body, s.in_loop),
    ensures
        ({
            let c = typing::check_methods(gas, fs, i, acc, s);
            c.r is Ok ==> kept(s, c.s) && forall|j: int|
                0 <= j < c.node.len() ==> typed_function(#[trigger] c.node[j]) && homed(
                    c.node[j].body,
                    s.in_loop,
                )
        }),
    decreases fs.len() - i,
{
    if 0 <= i < fs.len() {
        let f = fs[i];
        let c = typing::check_function(gas, f, s);
        lemma_check_as(gas, f.body, f.ret, typing::scope_of(f.params), s);
        if c.r is Ok {
            lemma_check_methods(gas, fs, i + 1, acc.push(c.node), c.s);
        }
    }
}

proof fn lemma_check_item(gas: nat, it: TopLevelV, s: CkV)
    ensures
        ({
            let c = typing::check_item(gas, it, s);
            c.r is Ok ==> kept(s, c.s) && typed_item(c.node) && (!s.in_loop ==> homed_item(c.node))
        }),
{
    match it {
        TopLevelV::Function(f) => lemma_check_as(gas, f.body, f.ret, typing::scope_of(f.params), s),
        TopLevelV::Impl(ib) => lemma_check_methods(gas, ib.methods, 0, Seq::empty(), s),
        TopLevelV::Const(k) => lemma_check_as(gas, k.value, k.ty, Map::empty(), s),
        _ => {},
    }
}

proof fn lemma_check_items(gas: nat, items: Seq<TopLevelV>, i: int, acc: Seq<TopLevelV>, s: CkV)
    requires
        forall|j: int|
            0 <= j < acc.len() ==> typed_item(#[trigger] acc[j]) && (!s.in_loop ==> homed_item(
                acc[j],
            )),
    ensures
        ({
            let c = typing::check_items(gas, items, i, acc, s);
            c.r is Ok ==> kept(s, c.s) && forall|j: int|
                0 <= j < c.node.len() ==> typed_item(#[trigger] c.node[j]) && (!s.in_loop
                    ==> homed_item(c.node[j]))
        }),
    decreases items.len() - i,
{
    if 0 <= i < items.len() {
        let c = typing::check_item(gas, items[i], s);
        lemma_check_item(gas, items[i], s);
        if c.r is Ok {
            lemma_check_items(gas, items, i + 1, acc.push(c.node), c.s);
        }
    }
}

/// In a program that is accepted, every expression carries a type, and the types fit
/// together: this holds of functions, methods, constants and of the instances of
/// generic functions that were put behind them.
pub proof fn law_accepted_program_is_typed(p: ProgramV, require_main: bool)
    requires
        typing::check_program(p, require_main).r is Ok,
    ensures
        forall|i: int|
            0 <= i < typing::check_program(p, require_main).node.items.len() ==> typed_item(
                #[trigger] typing::check_program(p, require_main).node.items[i],
            ),
{
    let (s1, bad1) = typing::collect(Pass::Types, p.items, 0, typing::nothing_known());
    let (s2, bad2) = typing::collect(Pass::Traits, p.items, 0, s1);
    let (s3, bad3) = typing::collect(Pass::Signatures, p.items, 0, s2);
    let c = typing::collect_impls(p.items, 0, Seq::empty(), s3);
    let gas = typing::instance_keys(typing::universe_of(c.s, p.items)).len();
    let d = typing::check_items(gas, c.node, 0, Seq::empty(), c.s);
    collected::lemma_no_instances(p.items);
    assert(typed_instances(c.s));
    lemma_check_items(gas, c.node, 0, Seq::empty(), c.s);
}

proof fn lemma_variants_keep_loop(e: EnumDefV, i: int, seen: Set<Seq<char>>, s: CkV)
    ensures
        typing::collect_variants(e, i, seen, s).0.in_loop == s.in_loop,
    decreases e.variants.len() - i,
{
    if 0 <= i < e.variants.len() {
        let v = e.variants[i];
        let info = VariantInfoV { enum_name: e.name, tag: i as u32, payload: v.payload };
        let t = CkV { variants: s.variants.insert(v.name, info), ..s };
        lemma_variants_keep_loop(e, i + 1, seen.insert(v.name), t);
    }
}

proof fn lemma_sigs_keep_loop(d: TraitDefV, i: int, seen: Set<Seq<char>>, s: CkV)
    ensures
        typing::collect_sigs(d, i, seen, s).0.in_loop == s.in_loop,
    decreases d.methods.len() - i,
{
    if 0 <= i < d.methods.len() {
        let m = d.methods[i];
        let t = CkV { trait_methods: s.trait_methods.insert(m.name, d.name), ..s };
        lemma_sigs_keep_loop(d, i + 1, seen.insert(m.name), t);
    }
}

/// Collecting definitions enters no loop.
proof fn lemma_collect_keeps_loop(pass: Pass, items: Seq<TopLevelV>, i: int, s: CkV)
    ensures
        typing::collect(pass, items, i, s).0.in_loop == s.in_loop,
    decreases items.len() - i,
{
    if 0 <= i < items.len() {
        match items[i] {
            TopLevelV::Enum(e) => lemma_variants_keep_loop(e, 0, Set::empty(), s),
            TopLevelV::Trait(d) => lemma_sigs_keep_loop(d, 0, Set::empty(), s),
            _ => {},
        }
        lemma_collect_keeps_loop(pass, items, i + 1, typing::collect_type(items[i], s).0);
        lemma_collect_keeps_loop(pass, items, i + 1, typing::collect_trait(items[i], s).0);
        lemma_collect_keeps_loop(pass, items, i + 1, typing::collect_sig(items[i], s).0);
    }
}

/// In a program that is accepted every `break` stands in the body of a `while` or `loop`
/// of the same function or method. This holds of the instances of generic functions too,
/// wherever they are called.
pub proof fn law_breaks_have_loops(p: ProgramV, require_main: bool)
    requires
        typing::check_program(p, require_main).r is Ok,
    ensures
        forall|i: int|
            0 <= i < typing::check_program(p, require_main).node.items.len() ==> homed_item(
                #[trigger] typing::check_program(p, require_main).node.items[i],
            ),
{
    let s0 = typing::nothing_known();
    let (s1, bad1) = typing::collect(Pass::Types, p.items, 0, s0);
    let (s2, bad2) = typing::collect(Pass::Traits, p.items, 0, s1);
    let (s3, bad3) = typing::collect(Pass::Signatures, p.items, 0, s2);
    let c = typing::collect_impls(p.items, 0, Seq::empty(), s3);
    let gas = typing::instance_keys(typing::universe_of(c.s, p.items)).len();
    lemma_collect_keeps_loop(Pass::Types, p.items, 0, s0);
    lemma_collect_keeps_loop(Pass::Traits, p.items, 0, s1);
    lemma_collect_keeps_loop(Pass::Signatures, p.items, 0, s2);
    lemma_impls_keep_traits(p.items, 0, Seq::empty(), s3);
    collected::lemma_no_instances(p.items);
    assert(typed_instances(c.s));
    lemma_check_items(gas, c.node, 0, Seq::empty(), c.s);
    let d = typing::check_items(gas, c.node, 0, Seq::empty(), c.s);
    let items = typing::check_program(p, require_main).node.items;
    assert forall|i: int| 0 <= i < items.len() implies homed_item(#[trigger] items[i]) by {
        if i < d.node.len() {
            assert(items[i] == d.node[i]);
        } else {
            assert(items[i] == TopLevelV::Function(d.s.mono_fns[i - d.node.len()]));
        }
    }
}

/// A program that is accepted as a whole has a function `main` without parameters
/// that returns an `i32`.
pub proof fn law_accepted_program_has_main(p: ProgramV)
    requires
        typing::check_program(p, true).r is Ok,
    ensures
        ({
            let s = typing::check_program(p, true).s;
            s.fns.contains_key("main"@) && s.fns["main"@].params.len() == 0 && s.fns["main"@].ret
                == TypeV::I32
        }),
{
    let (s1, bad1) = typing::collect(Pass::Types, p.items, 0, typing::nothing_known());
    let (s2, bad2) = typing::collect(Pass::Traits, p.items, 0, s1);
    let (s3, bad3) = typing::collect(Pass::Signatures, p.items, 0, s2);
    let c = typing::collect_impls(p.items, 0, Seq::empty(), s3);
    let gas = typing::instance_keys(typing::universe_of(c.s, p.items)).len();
    collected::lemma_no_instances(p.items);
    lemma_check_items(gas, c.node, 0, Seq::empty(), c.s);
}

/// Every method of a trait belongs to that trait alone.
pub open spec fn methods_owned(s: CkV) -> bool {
    forall|n: Seq<char>, i: int|
        s.traits.contains_key(n) && 0 <= i < s.traits[n].methods.len() ==> {
            let m = (#[trigger] s.traits[n].methods[i]).name;
            s.trait_methods.contains_key(m) && s.trait_methods[m] == n
        }
}

proof fn lemma_sigs_owned(t: TraitDefV, i: int, seen: Set<Seq<char>>, s: CkV)
    requires
        0 <= i,
        forall|j: int|
            0 <= j < i && j < t.methods.len() ==> s.trait_methods.contains_key(
                (#[trigger] t.methods[j]).name,
            ) && s.trait_methods[t.methods[j].name] == t.name,
    ensures
        ({
            let (u, bad) = typing::collect_sigs(t, i, seen, s);
            bad is None ==> {
                &&& u == (CkV { trait_methods: u.trait_methods, ..s })
                &&& forall|k: Seq<char>| #[trigger]
                    s.trait_methods.contains_key(k) ==> u.trait_methods.contains_key(k)
                        && u.trait_methods[k] == s.trait_methods[k]
                &&& forall|j: int|
                    0 <= j < t.methods.len() ==> u.trait_methods.contains_key(
                        (#[trigger] t.methods[j]).name,
                    ) && u.trait_methods[t.methods[j].name] == t.name
            }
        }),
    decreases t.methods.len() - i,
{
    if i < t.methods.len() {
        let m = t.methods[i];
        if !s.trait_methods.contains_key(m.name) {
            let s2 = CkV { trait_methods: s.trait_methods.insert(m.name, t.name), ..s };
            lemma_sigs_owned(t, i + 1, seen.insert(m.name), s2);
            assert(forall|k: Seq<char>| #[trigger]
                s.trait_methods.contains_key(k) ==> s2.trait_methods.contains_key(k)
                    && s2.trait_methods[k] == s.trait_methods[k]);
        }
    }
}

proof fn lemma_traits_owned(items: Seq<TopLevelV>, i: int, s: CkV)
    requires
        0 <= i,
        methods_owned(s),
    ensures
        ({
            let (t, bad) = typing::collect(Pass::Traits, items, i, s);
            bad is None ==> methods_owned(t)
        }),
    decreases items.len() - i,
{
    if i < items.len() {
        let (t, bad) = typing::collect_trait(items[i], s);
        if let TopLevelV::Trait(d) = items[i] {
            lemma_sigs_owned(d, 0, Set::empty(), s);
            if bad is None {
                assert forall|n: Seq<char>, j: int|
                    t.traits.contains_key(n) && 0 <= j < t.traits[n].methods.len() implies ({
                    let m = (#[trigger] t.traits[n].methods[j]).name;
                    t.trait_methods.contains_key(m) && t.trait_methods[m] == n
                }) by {
                    if n != d.name {
                        assert(s.traits[n].methods[j] == t.traits[n].methods[j]);
                        assert(s.trait_methods.contains_key(s.traits[n].methods[j].name));
                    }
                }
            }
        }
        if bad is None {
            lemma_traits_owned(items, i + 1, t);
        }
    }
}

proof fn lemma_signatures_keep_traits(items: Seq<TopLevelV>, i: int, s: CkV)
    requires
        0 <= i,
    ensures
        ({
            let (t, _) = typing::collect(Pass::Signatures, items, i, s);
            t.traits == s.traits && t.trait_methods == s.trait_methods
        }),
    decreases items.len() - i,
{
    if i < items.len() {
        let (t, bad) = typing::collect_sig(items[i], s);
        if bad is None {
            lemma_signatures_keep_traits(items, i + 1, t);
        }
    }
}

proof fn lemma_types_keep_traits(items: Seq<TopLevelV>, i: int, s: CkV)
    requires
        0 <= i,
    ensures
        ({
            let (t, _) = typing::collect(Pass::Types, items, i, s);
            t.traits == s.traits && t.trait_methods == s.trait_methods
        }),
    decreases items.len() - i,
{
    if i < items.len() {
        let (t, bad) = typing::collect_type(items[i], s);
        if let TopLevelV::Enum(e) = items[i] {
            lemma_variants_keep_traits(e, 0, Set::empty(), s);
        }
        if bad is None {
            lemma_types_keep_traits(items, i + 1, t);
        }
    }
}

proof fn lemma_variants_keep_traits(e: EnumDefV, i: int, seen: Set<Seq<char>>, s: CkV)
    requires
        0 <= i,
    ensures
        ({
            let (t, _) = typing::collect_variants(e, i, seen, s);
            t.traits == s.traits && t.trait_methods == s.trait_methods
        }),
    decreases e.variants.len() - i,
{
    if i < e.variants.len() {
        let v = e.variants[i];
        let info = VariantInfoV { enum_name: e.name, tag: i as u32, payload: v.payload };
        lemma_variants_keep_traits(
            e,
            i + 1,
            seen.insert(v.name),
            CkV { variants: s.variants.insert(v.name, info), ..s },
        );
    }
}

proof fn lemma_methods_keep_traits(
    ib: ImplBlockV,
    sigs: Seq<MethodSigV>,
    i: int,
    acc: Seq<FunctionV>,
    seen: Set<Seq<char>>,
    s: CkV,
)
    requires
        0 <= i,
    ensures
        ({
            let c = typing::collect_methods(ib, sigs, i, acc, seen, s);
            c.s.traits == s.traits && c.s.trait_methods == s.trait_methods && c.s.in_loop == s.in_loop
        }),
    decreases ib.methods.len() - i,
{
    if i < ib.methods.len() {
        let m = typing::with_self(ib.methods[i], ib.for_ty);
        let symbol = typing::method_symbol(ib.trait_name, ib.for_ty, m.name);
        let fsig = FnSigV { params: typing::param_types(m.params), ret: m.ret };
        lemma_methods_keep_traits(
            ib,
            sigs,
            i + 1,
            acc.push(m),
            seen.insert(m.name),
            CkV { fns: s.fns.insert(symbol, fsig), ..s },
        );
    }
}

proof fn lemma_impls_keep_traits(items: Seq<TopLevelV>, i: int, acc: Seq<TopLevelV>, s: CkV)
    requires
        0 <= i,
    ensures
        ({
            let c = typing::collect_impls(items, i, acc, s);
            c.s.traits == s.traits && c.s.trait_methods == s.trait_methods && c.s.in_loop == s.in_loop
        }),
    decreases items.len() - i,
{
    if i < items.len() {
        if let TopLevelV::Impl(ib) = items[i] {
            let s2 = CkV { impls: s.impls.insert((ib.trait_name, ib.for_ty)), ..s };
            lemma_methods_keep_traits(
                ib,
                s.traits[ib.trait_name].methods,
                0,
                Seq::empty(),
                Set::empty(),
                s2,
            );
            let c = typing::collect_impl(ib, s);
            lemma_impls_keep_traits(items, i + 1, acc.push(TopLevelV::Impl(c.node)), c.s);
        } else {
            lemma_impls_keep_traits(items, i + 1, acc.push(items[i]), s);
        }
    }
}

/// In a program that is accepted no two traits have a method of the same name.
pub proof fn law_method_names_are_unique(
    p: ProgramV,
    require_main: bool,
    a: Seq<char>,
    i: int,
    b: Seq<char>,
    j: int,
)
    requires
        typing::check_program(p, require_main).r is Ok,
        ({
            let traits = typing::check_program(p, require_main).s.traits;
            &&& traits.contains_key(a) && 0 <= i < traits[a].methods.len()
            &&& traits.contains_key(b) && 0 <= j < traits[b].methods.len()
            &&& traits[a].methods[i].name == traits[b].methods[j].name
        }),
    ensures
        a == b,
{
    let s0 = typing::nothing_known();
    let (s1, bad1) = typing::collect(Pass::Types, p.items, 0, s0);
    let (s2, bad2) = typing::collect(Pass::Traits, p.items, 0, s1);
    let (s3, bad3) = typing::collect(Pass::Signatures, p.items, 0, s2);
    let c = typing::collect_impls(p.items, 0, Seq::empty(), s3);
    let gas = typing::instance_keys(typing::universe_of(c.s, p.items)).len();
    lemma_types_keep_traits(p.items, 0, s0);
    assert(methods_owned(s1));
    lemma_traits_owned(p.items, 0, s1);
    lemma_signatures_keep_traits(p.items, 0, s2);
    lemma_impls_keep_traits(p.items, 0, Seq::empty(), s3);
    lemma_check_items(gas, c.node, 0, Seq::empty(), c.s);
    assert(methods_owned(typing::check_program(p, require_main).s));
}

/// Whether `more` says all that `subst` says, of type parameters only.
pub open spec fn says_more(subst: Subst, more: Subst, tps: Set<Seq<char>>) -> bool {
    &&& forall|n: Seq<char>| #[trigger]
        subst.contains_key(n) ==> more.contains_key(n) && more[n] == subst[n]
    &&& forall|n: Seq<char>| #[trigger] more.contains_key(n) ==> tps.contains(n)
}

/// Making a parameter's type fit an argument's finds what the type parameters must stand
/// for, and fails, with a mismatch at the given place, only if nothing makes them fit.
pub proof fn law_unified_types_fit(
    pattern: TypeV,
    concrete: TypeV,
    tps: Set<Seq<char>>,
    subst: Subst,
    span: Span,
)
    requires
        says_more(subst, subst, tps),
    ensures
        match typing::unified(pattern, concrete, tps, subst, span) {
            Ok(t) => says_more(subst, t, tps) && typing::subst_in(pattern, t) == concrete,
            Err(x) => x matches TypeErrorV::Mismatch { span: at, .. } && at == span && forall|m: Subst|
                #[trigger] says_more(subst, m, tps) ==> typing::subst_in(pattern, m) != concrete,
        },
    decreases pattern,
{
    match (pattern, concrete) {
        (TypeV::Array { elem: pe, len: plen }, TypeV::Array { elem: ce, len: clen }) => {
            law_unified_types_fit(*pe, *ce, tps, subst, span);
        },
        _ => {},
    }
}

} // verus!
