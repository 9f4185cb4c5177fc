//! Laws of the type checker: what an accepted expression may rest on where it stands.
use crate::ast::{
    BindingV, ExprKindV, ExprV, FieldDefV, FunctionV, GenericFunctionV, MatchArmV, ParamV, Span,
    TypeV,
};
use crate::ast;
use crate::lowering;
use crate::typeck::arity;
use crate::typing::{CkV, Env, FnSigV, Subst};
use crate::typing;
use vstd::prelude::*;

verus! {

/// Whether a type of this name is defined.
pub open spec fn named(w: CkV, n: Seq<char>) -> bool {
    w.structs.contains_key(n) || w.enums.contains_key(n)
}

/// Whether expressions can have this type: its names are defined, and arrays hold
/// scalars.
pub open spec fn sound_type(w: CkV, t: TypeV) -> bool {
    match t {
        TypeV::Named(n) => named(w, n),
        TypeV::Array { elem, .. } => ast::scalar(*elem),
        _ => true,
    }
}

pub open spec fn sound_types(w: CkV, ts: Seq<TypeV>) -> bool {
    forall|i: int| 0 <= i < ts.len() ==> sound_type(w, #[trigger] ts[i])
}

/// Whether what a program defines is in order: types refer to types that are defined,
/// fields and payloads are scalars, and constants are literals.
pub open spec fn in_order(w: CkV) -> bool {
    &&& typing::plain_types(w)
    &&& forall|n: Seq<char>| #[trigger]
        w.structs.contains_key(n) ==> named(w, w.structs[n].name)
    &&& forall|n: Seq<char>| #[trigger]
        w.variants.contains_key(n) ==> named(w, w.variants[n].enum_name)
    &&& forall|n: Seq<char>| #[trigger]
        w.consts.contains_key(n) ==> ast::scalar(w.consts[n]) || w.consts[n] is Str
    &&& forall|n: Seq<char>| #[trigger]
        w.fns.contains_key(n) ==> sound_type(w, w.fns[n].ret) && sound_types(w, w.fns[n].params)
}

/// Whether a name is that of one thing only: no constructor is called like a builtin,
/// and no function like a builtin or a constructor.
pub open spec fn apart(w: CkV) -> bool {
    &&& forall|n: Seq<char>| #[trigger] w.structs.contains_key(n) ==> !typing::builtin_name(n)
    &&& forall|n: Seq<char>| #[trigger] w.variants.contains_key(n) ==> !typing::builtin_name(n)
    &&& forall|n: Seq<char>| #[trigger]
        w.fns.contains_key(n) ==> !typing::builtin_name(n) && !w.structs.contains_key(n)
            && !w.variants.contains_key(n)
}

/// Whether all in a scope has a type that expressions can have.
pub open spec fn sound_scope(w: CkV, env: Env) -> bool {
    forall|n: Seq<char>| #[trigger] env.contains_key(n) ==> sound_type(w, env[n])
}

/// The scope behind the first `n` bindings of a `let`.
pub open spec fn scope_with(env: Env, bs: Seq<BindingV>, n: int) -> Env
    decreases n,
{
    if n <= 0 || n > bs.len() {
        env
    } else {
        scope_with(env, bs, n - 1).insert(bs[n - 1].name, bs[n - 1].ty)
    }
}

/// Whether an expression can stand in the scope `env` of a program with the
/// definitions `w`: it and all in it carry types that fit together, and all names that
/// it uses stand for something of the type that they are used at.
pub open spec fn fits(e: ExprV, env: Env, w: CkV) -> bool
    decreases e,
{
    e.ty is Some && sound_type(w, e.ty->0) && fits_kind(e.kind, e.ty->0, env, w)
}

pub open spec fn fits_kind(k: ExprKindV, ty: TypeV, env: Env, w: CkV) -> bool
    decreases k,
{
    match k {
        ExprKindV::Lit(l) => ty == typing::literal_type(l),
        ExprKindV::Var(name) => if env.contains_key(name) {
            ty == env[name]
        } else {
            w.consts.contains_key(name) && ty == w.consts[name]
        },
        ExprKindV::Break => ty is Unit,
        ExprKindV::If { cond, then_branch, else_branch } => {
            &&& fits(*cond, env, w) && cond.ty == Some(TypeV::Bool)
            &&& fits(*then_branch, env, w) && then_branch.ty == Some(ty)
            &&& fits(*else_branch, env, w) && else_branch.ty == Some(ty)
        },
        ExprKindV::Let { bindings, body } => {
            &&& fits_bindings(bindings, env, w)
            &&& fits(*body, scope_with(env, bindings, bindings.len() as int), w)
            &&& body.ty == Some(ty)
        },
        ExprKindV::Do(es) => {
            &&& fits_all(es, env, w)
            &&& ty == (if es.len() == 0 {
                TypeV::Unit
            } else {
                es.last().ty->0
            })
        },
        ExprKindV::Cast { ty: to, expr } => {
            &&& fits(*expr, env, w) && typing::numeric(expr.ty->0)
            &&& typing::numeric(to) && ty == to
        },
        ExprKindV::Assign { name, value } => {
            &&& fits(*value, env, w)
            &&& env.contains_key(name) && value.ty == Some(env[name])
            &&& ty is Unit
        },
        ExprKindV::While { cond, body } => {
            &&& fits(*cond, env, w) && cond.ty == Some(TypeV::Bool)
            &&& fits(*body, env, w)
            &&& ty is Unit
        },
        ExprKindV::Loop { body } => fits(*body, env, w) && ty is Unit,
        ExprKindV::ArrayLit { elem_ty, elems } => {
            &&& fits_all(elems, env, w)
            &&& ast::scalar(elem_ty)
            &&& all_of_type(elems, elem_ty)
            &&& ty == (TypeV::Array { elem: Box::new(elem_ty), len: elems.len() as u32 })
        },
        ExprKindV::Field { base, field } => {
            &&& fits(*base, env, w)
            &&& base.ty->0 matches TypeV::Named(n) && w.structs.contains_key(n) && ({
                let f = typing::find_field(w.structs[n].fields, field, 0);
                f is Some && ty == f->0.ty
            })
        },
        ExprKindV::Match { scrutinee, arms } => {
            &&& fits(*scrutinee, env, w)
            &&& scrutinee.ty->0 matches TypeV::Named(n) && w.enums.contains_key(n) && arms_of(
                arms,
                w.enums[n].name,
                w,
            )
            &&& fits_arms(arms, ty, env, w)
        },
        ExprKindV::Call { callee, args } => fits_all(args, env, w) && fits_call(callee, args, ty, w),
    }
}

pub open spec fn fits_all(es: Seq<ExprV>, env: Env, w: CkV) -> bool
    decreases es,
{
    forall|i: int| 0 <= i < es.len() ==> fits(#[trigger] es[i], env, w)
}

/// Each binding is in scope from the next one on.
pub open spec fn fits_bindings(bs: Seq<BindingV>, env: Env, w: CkV) -> bool
    decreases bs,
{
    forall|i: int|
        0 <= i < bs.len() ==> fits((#[trigger] bs[i]).value, scope_with(env, bs, i), w)
            && bs[i].value.ty == Some(bs[i].ty)
}

/// Whether all arms are for variants of this enum.
pub open spec fn arms_of(arms: Seq<MatchArmV>, enum_name: Seq<char>, w: CkV) -> bool {
    forall|i: int|
        0 <= i < arms.len() ==> w.variants[(#[trigger] arms[i]).variant].enum_name == enum_name
}

/// An arm binds a name if and only if its variant has a payload.
pub open spec fn fits_arms(arms: Seq<MatchArmV>, ty: TypeV, env: Env, w: CkV) -> bool
    decreases arms,
{
    forall|i: int|
        0 <= i < arms.len() ==> {
            &&& w.variants.contains_key((#[trigger] arms[i]).variant)
            &&& w.variants[arms[i].variant].payload is Some <==> arms[i].binding is Some
            &&& fits(arms[i].body, typing::arm_scope(w, arms[i], env), w)
            &&& arms[i].body.ty == Some(ty)
        }
}

pub open spec fn all_of_type(es: Seq<ExprV>, ty: TypeV) -> bool {
    forall|i: int| 0 <= i < es.len() ==> (#[trigger] es[i]).ty == Some(ty)
}

/// Whether expressions have these types.
pub open spec fn typed_as(es: Seq<ExprV>, ts: Seq<TypeV>) -> bool {
    es.len() == ts.len() && forall|i: int|
        0 <= i < es.len() ==> (#[trigger] es[i]).ty == Some(ts[i])
}

/// Whether a call of these arguments can have the type `ty`.
pub open spec fn fits_call(callee: Seq<char>, args: Seq<ExprV>, ty: TypeV, w: CkV) -> bool {
    if typing::builtin_name(callee) {
        fits_builtin(callee, args, ty)
    } else if w.structs.contains_key(callee) {
        typed_as(args, typing::field_types(w.structs[callee].fields)) && ty == TypeV::Named(
            w.structs[callee].name,
        )
    } else if w.variants.contains_key(callee) {
        &&& typed_as(
            args,
            match w.variants[callee].payload {
                Some(t) => seq![t],
                None => Seq::empty(),
            },
        )
        &&& ty == TypeV::Named(w.variants[callee].enum_name)
    } else {
        w.fns.contains_key(callee) && typed_as(args, w.fns[callee].params) && ty
            == w.fns[callee].ret
    }
}

/// Whether a call of a builtin can have the type `ty`.
pub open spec fn fits_builtin(op: Seq<char>, args: Seq<ExprV>, ty: TypeV) -> bool {
    &&& match typing::builtin_arity(op) {
        None => args.len() > 0,
        Some(n) => args.len() == n,
    }
    &&& if typing::builtin_arity(op) is None || op == "/"@ || op == "mod"@ {
        typing::numeric(ty) && all_of_type(args, ty)
    } else if typing::comparison(op) {
        ast::scalar(args[0].ty->0) && all_of_type(args, args[0].ty->0) && ty is Bool
    } else if op == "and"@ || op == "or"@ || op == "not"@ {
        all_of_type(args, TypeV::Bool) && ty is Bool
    } else if op == "str-concat"@ {
        all_of_type(args, TypeV::Str) && ty is Str
    } else if op == "str-len"@ {
        all_of_type(args, TypeV::Str) && ty is I32
    } else if op == "print"@ || op == "println"@ {
        typing::printable(args[0].ty->0) && ty is Unit
    } else {
        &&& args[0].ty->0 matches TypeV::Array { elem, .. } && (op == "aget"@ ==> ty == *elem) && (op
            == "aset!"@ ==> args[2].ty == Some(*elem))
        &&& op == "aget"@ || op == "aset!"@ ==> args[1].ty == Some(TypeV::I32)
        &&& op == "aset!"@ ==> ty is Unit
        &&& op == "alen"@ ==> ty is I32
    }
}

/// Whether `w` has the definitions of `s`, and the functions that `s` has.
pub open spec fn within(s: CkV, w: CkV) -> bool {
    &&& s.structs == w.structs
    &&& s.enums == w.enums
    &&& s.variants == w.variants
    &&& s.consts == w.consts
    &&& forall|n: Seq<char>| #[trigger]
        s.fns.contains_key(n) ==> w.fns.contains_key(n) && w.fns[n] == s.fns[n]
    &&& forall|n: Seq<char>| #[trigger]
        s.generic_fns.contains_key(n) ==> s.generic_fns[n].name == n
    &&& forall|n: Seq<char>, ts: Seq<TypeV>| #[trigger]
        s.mono_cache.contains_key((n, ts)) && s.generic_fns.contains_key(n) ==> {
            let symbol = s.mono_cache[(n, ts)];
            w.fns.contains_key(symbol) && w.fns[symbol].params.len()
                == s.generic_fns[n].params.len()
        }
}

/// Whether `w` has the instances that have been made.
pub open spec fn instances_within(s: CkV, w: CkV) -> bool {
    forall|i: int|
        0 <= i < s.mono_fns.len() ==> {
            let f = #[trigger] s.mono_fns[i];
            w.fns.contains_key(f.name) && w.fns[f.name] == (FnSigV {
                params: typing::param_types(f.params),
                ret: f.ret,
            })
        }
}

/// What checking starts from.
pub open spec fn given(s: CkV, env: Env, w: CkV) -> bool {
    within(s, w) && in_order(w) && apart(w) && sound_scope(w, env)
}

/// Checking adds functions and instances only.
pub open spec fn grown(s: CkV, t: CkV) -> bool {
    &&& t == (CkV { fns: t.fns, mono_cache: t.mono_cache, mono_fns: t.mono_fns, ..s })
    &&& s.mono_fns.len() <= t.mono_fns.len()
    &&& forall|i: int| 0 <= i < s.mono_fns.len() ==> t.mono_fns[i] == #[trigger] s.mono_fns[i]
}

/// What a check that succeeds keeps.
pub open spec fn carries(s: CkV, t: CkV, w: CkV) -> bool {
    &&& grown(s, t)
    &&& within(s, w) && instances_within(t, w) ==> within(t, w)
    &&& within(s, w) && instances_within(t, w) && in_order(w) && apart(w) && instances_fit(s, w)
        ==> instances_fit(t, w)
}

/// A function whose body fits the scope of its parameters, and has the type of the
/// result.
pub open spec fn fits_function(f: FunctionV, w: CkV) -> bool {
    fits(f.body, typing::scope_of(f.params), w) && f.body.ty == Some(f.ret)
}

/// Whether the instances that have been made fit.
pub open spec fn instances_fit(s: CkV, w: CkV) -> bool {
    forall|i: int| 0 <= i < s.mono_fns.len() ==> fits_function(#[trigger] s.mono_fns[i], w)
}

pub broadcast proof fn lemma_grown_instances(s: CkV, t: CkV, w: CkV)
    requires
        #[trigger] grown(s, t),
        #[trigger] instances_within(t, w),
    ensures
        instances_within(s, w),
{
    assert forall|i: int| 0 <= i < s.mono_fns.len() implies {
        let f = #[trigger] s.mono_fns[i];
        w.fns.contains_key(f.name) && w.fns[f.name] == (FnSigV {
            params: typing::param_types(f.params),
            ret: f.ret,
        })
    } by {
        assert(t.mono_fns[i] == s.mono_fns[i]);
    }
}

/// The type of a `do`.
spec fn last_type(es: Seq<ExprV>) -> TypeV {
    if es.len() == 0 {
        TypeV::Unit
    } else {
        es.last().ty->0
    }
}

/// A field that is found is one of the fields.
pub proof fn lemma_find_field(fields: Seq<FieldDefV>, name: Seq<char>, i: int)
    requires
        0 <= i,
    ensures
        match (typing::find_field(fields, name, i), lowering::field_at(fields, name, i)) {
            (None, None) => true,
            (Some(f), Some(j)) => i <= j < fields.len() && fields[j] == f,
            _ => false,
        },
    decreases fields.len() - i,
{
    if i < fields.len() && fields[i].name != name {
        lemma_find_field(fields, name, i + 1);
    }
}

/// The builtins whose first argument decides: printing and array access.
spec fn first_decides(op: Seq<char>) -> bool {
    &&& typing::builtin_name(op)
    &&& typing::builtin_arity(op) is Some
    &&& op != "/"@ && op != "mod"@ && !typing::comparison(op)
    &&& op != "and"@ && op != "or"@ && op != "not"@
    &&& op != "str-concat"@ && op != "str-len"@
}

/// Whether the first `n` expressions have the types in `wants`.
spec fn types_are(es: Seq<ExprV>, wants: Seq<TypeV>, n: int) -> bool {
    forall|j: int| 0 <= j < n ==> (#[trigger] es[j]).ty == Some(wants[j])
}

/// Whether the arms checked so far fit, and have the type `ty`.
spec fn fits_arms_sofar(arms: Seq<MatchArmV>, ty: Option<TypeV>, env: Env, w: CkV) -> bool {
    match ty {
        None => arms.len() == 0,
        Some(t) => sound_type(w, t) && fits_arms(arms, t, env, w),
    }
}

proof fn lemma_scope_prefix(env: Env, bs: Seq<BindingV>, b: BindingV, n: int)
    requires
        n <= bs.len(),
    ensures
        scope_with(env, bs.push(b), n) == scope_with(env, bs, n),
    decreases n,
{
    if n > 0 {
        lemma_scope_prefix(env, bs, b, n - 1);
    }
}

/// Parameters of types that expressions can have make such a scope.
pub proof fn lemma_sound_params(w: CkV, params: Seq<ParamV>)
    requires
        sound_types(w, typing::param_types(params)),
    ensures
        sound_scope(w, typing::scope_of(params)),
    decreases params.len(),
{
    if params.len() > 0 {
        let rest = params.drop_last();
        let ts = typing::param_types(params);
        assert forall|i: int| 0 <= i < rest.len() implies sound_type(
            w,
            #[trigger] typing::param_types(rest)[i],
        ) by {
            assert(typing::param_types(rest)[i] == ts[i]);
        }
        lemma_sound_params(w, rest);
        assert(sound_type(w, ts[params.len() - 1]));
    }
}

proof fn lemma_check(gas: nat, e: ExprV, env: Env, s: CkV, w: CkV)
    ensures
        ({
            let c = typing::check(gas, e, env, s);
            c.r is Ok ==> {
                &&& carries(s, c.s, w)
                &&& given(s, env, w) && instances_within(c.s, w) ==> {
                    &&& fits(c.node, env, w)
                    &&& c.node.ty == Some(c.r->Ok_0)
                }
            }
        }),
    decreases gas, e, 0int,
{
    broadcast use lemma_grown_instances;

    lemma_check_kind(gas, e.kind, e.span, env, s, w);
}

pub proof fn lemma_check_as(gas: nat, e: ExprV, want: TypeV, env: Env, s: CkV, w: CkV)
    ensures
        ({
            let c = typing::check_as(gas, e, want, env, s);
            c.r is Ok ==> {
                &&& carries(s, c.s, w)
                &&& given(s, env, w) && instances_within(c.s, w) ==> {
                    &&& fits(c.node, env, w)
                    &&& c.node.ty == Some(want)
                    &&& c.r->Ok_0 == want
                }
            }
        }),
    decreases gas, e, 1int,
{
    broadcast use lemma_grown_instances;

    lemma_check(gas, e, env, s, w);
}

#[verifier::rlimit(60)]
proof fn lemma_check_kind(gas: nat, k: ExprKindV, span: Span, env: Env, s: CkV, w: CkV)
    ensures
        ({
            let c = typing::check_kind(gas, k, span, env, s);
            c.r is Ok ==> {
                &&& carries(s, c.s, w)
                &&& given(s, env, w) && instances_within(c.s, w) ==> {
                    &&& sound_type(w, c.r->Ok_0)
                    &&& fits_kind(c.node, c.r->Ok_0, env, w)
                }
            }
        }),
    decreases gas, k, 3int,
{
    broadcast use lemma_grown_instances;

    match k {
        ExprKindV::If { cond, then_branch, else_branch } => {
            let c = typing::check_as(gas, *cond, TypeV::Bool, env, s);
            lemma_check_as(gas, *cond, TypeV::Bool, env, s, w);
            if c.r is Ok {
                let a = typing::check(gas, *then_branch, env, c.s);
                lemma_check(gas, *then_branch, env, c.s, w);
                if a.r is Ok {
                    let b = typing::check_as(gas, *else_branch, a.r->Ok_0, env, a.s);
                    lemma_check_as(gas, *else_branch, a.r->Ok_0, env, a.s, w);
                    if b.r is Ok && given(s, env, w) && instances_within(b.s, w) {
                        assert(instances_within(a.s, w));
                        assert(instances_within(c.s, w));
                        assert(fits(c.node, env, w));
                        assert(fits(a.node, env, w));
                        assert(fits(b.node, env, w));
                    }
                }
            }
        },
        ExprKindV::Let { bindings, body } => {
            let c = typing::check_bindings(gas, bindings, 0, Seq::empty(), env, s);
            lemma_check_bindings(gas, bindings, 0, Seq::empty(), env, env, s, w);
            if c.r is Ok {
                lemma_check(gas, *body, c.r->Ok_0, c.s, w);
            }
        },
        ExprKindV::Do(es) => lemma_check_do(gas, es, 0, Seq::empty(), TypeV::Unit, env, s, w),
        ExprKindV::Cast { ty, expr } => lemma_check(gas, *expr, env, s, w),
        ExprKindV::Assign { name, value } => {
            if env.contains_key(name) {
                lemma_check_as(gas, *value, env[name], env, s, w);
            }
        },
        ExprKindV::While { cond, body } => {
            let c = typing::check_as(gas, *cond, TypeV::Bool, env, s);
            lemma_check_as(gas, *cond, TypeV::Bool, env, s, w);
            if c.r is Ok {
                lemma_check(gas, *body, env, CkV { in_loop: true, ..c.s }, w);
            }
        },
        ExprKindV::Loop { body } => lemma_check(gas, *body, env, CkV { in_loop: true, ..s }, w),
        ExprKindV::ArrayLit { elem_ty, elems } => {
            let wants = Seq::new(elems.len(), |i: int| elem_ty);
            lemma_check_args(gas, elems, 0, Seq::empty(), wants, env, s, w);
        },
        ExprKindV::Field { base, field } => {
            let c = typing::check(gas, *base, env, s);
            lemma_check(gas, *base, env, s, w);
            if let Ok(TypeV::Named(n)) = c.r {
                lemma_find_field(c.s.structs[n].fields, field, 0);
            }
        },
        ExprKindV::Match { .. } => lemma_check_match(gas, k, span, env, s, w),
        ExprKindV::Call { callee, args } => lemma_check_call(gas, callee, args, span, env, s, w),
        _ => {},
    }
}

proof fn lemma_check_match(gas: nat, k: ExprKindV, span: Span, env: Env, s: CkV, w: CkV)
    requires
        k is Match,
    ensures
        ({
            let c = typing::check_match(gas, k, span, env, s);
            c.r is Ok ==> {
                &&& carries(s, c.s, w)
                &&& given(s, env, w) && instances_within(c.s, w) ==> {
                    &&& sound_type(w, c.r->Ok_0)
                    &&& fits_kind(c.node, c.r->Ok_0, env, w)
                }
            }
        }),
    decreases gas, k, 2int,
{
    broadcast use lemma_grown_instances;

    if let ExprKindV::Match { scrutinee, arms } = k {
        let c = typing::check(gas, *scrutinee, env, s);
        lemma_check(gas, *scrutinee, env, s, w);
        if c.r is Ok {
            let st = c.r->Ok_0;
            if st is Named && c.s.enums.contains_key(st->Named_0) {
                let name = c.s.enums[st->Named_0].name;
                lemma_check_arms(gas, arms, 0, Seq::empty(), name, Set::empty(), None, env, c.s, w);
            }
        }
    }
}

proof fn lemma_check_arms(
    gas: nat,
    arms: Seq<MatchArmV>,
    i: int,
    acc: Seq<MatchArmV>,
    enum_name: Seq<char>,
    seen: Set<Seq<char>>,
    ty: Option<TypeV>,
    env: Env,
    s: CkV,
    w: CkV,
)
    ensures
        ({
            let c = typing::check_arms(gas, arms, i, acc, enum_name, seen, ty, env, s);
            c.r is Ok ==> {
                &&& carries(s, c.s, w)
                &&& given(s, env, w) && instances_within(c.s, w) ==> {
                    &&& fits_arms_sofar(acc, ty, env, w) ==> {
                        &&& fits_arms_sofar(c.node, c.r->Ok_0.1, env, w)
                    }
                    &&& arms_of(acc, enum_name, w) ==> {
                        &&& arms_of(c.node, enum_name, w)
                    }
                }
            }
        }),
    decreases gas, arms, arms.len() - i,
{
    broadcast use lemma_grown_instances;

    if 0 <= i < arms.len() {
        let arm = arms[i];
        if typing::bad_arm(s, arm, enum_name, seen) is None {
            let b = typing::check(gas, arm.body, typing::arm_scope(s, arm, env), s);
            lemma_check(gas, arm.body, typing::arm_scope(s, arm, env), s, w);
            if b.r is Ok && !(ty is Some && ty->0 != b.r->Ok_0) {
                lemma_check_arms(
                    gas,
                    arms,
                    i + 1,
                    acc.push(MatchArmV { body: b.node, ..arm }),
                    enum_name,
                    seen.insert(arm.variant),
                    Some(b.r->Ok_0),
                    env,
                    b.s,
                    w,
                );
            }
        }
    }
}

proof fn lemma_check_do(
    gas: nat,
    es: Seq<ExprV>,
    i: int,
    acc: Seq<ExprV>,
    last: TypeV,
    env: Env,
    s: CkV,
    w: CkV,
)
    ensures
        ({
            let c = typing::check_do(gas, es, i, acc, last, env, s);
            c.r is Ok ==> {
                &&& carries(s, c.s, w)
                &&& given(s, env, w) && instances_within(c.s, w) ==> {
                    &&& fits_all(acc, env, w) && last == last_type(acc) ==> {
                        &&& fits_all(c.node, env, w)
                        &&& c.r->Ok_0 == last_type(c.node)
                    }
                }
            }
        }),
    decreases gas, es, es.len() - i,
{
    broadcast use lemma_grown_instances;

    if 0 <= i < es.len() {
        let c = typing::check(gas, es[i], env, s);
        lemma_check(gas, es[i], env, s, w);
        if c.r is Ok {
            lemma_check_do(gas, es, i + 1, acc.push(c.node), c.r->Ok_0, env, c.s, w);
        }
    }
}

proof fn lemma_check_args(
    gas: nat,
    es: Seq<ExprV>,
    i: int,
    acc: Seq<ExprV>,
    wants: Seq<TypeV>,
    env: Env,
    s: CkV,
    w: CkV,
)
    requires
        0 <= i <= es.len(),
        acc.len() == i,
    ensures
        ({
            let c = typing::check_args(gas, es, i, acc, wants, env, s);
            c.r is Ok ==> {
                &&& carries(s, c.s, w)
                &&& given(s, env, w) && instances_within(c.s, w) ==> {
                    &&& fits_all(acc, env, w) && types_are(acc, wants, i) ==> {
                        &&& fits_all(c.node, env, w)
                        &&& c.node.len() == es.len()
                        &&& types_are(c.node, wants, es.len() as int)
                    }
                }
            }
        }),
    decreases gas, es, es.len() - i,
{
    broadcast use lemma_grown_instances;

    if i < es.len() {
        let c = typing::check_as(gas, es[i], wants[i], env, s);
        lemma_check_as(gas, es[i], wants[i], env, s, w);
        if c.r is Ok {
            lemma_check_args(gas, es, i + 1, acc.push(c.node), wants, env, c.s, w);
        }
    }
}

proof fn lemma_check_bindings(
    gas: nat,
    bs: Seq<BindingV>,
    i: int,
    acc: Seq<BindingV>,
    first: Env,
    env: Env,
    s: CkV,
    w: CkV,
)
    requires
        env == scope_with(first, acc, acc.len() as int),
    ensures
        ({
            let c = typing::check_bindings(gas, bs, i, acc, env, s);
            c.r is Ok ==> carries(s, c.s, w) && (given(s, env, w) && instances_within(c.s, w)
                ==> sound_scope(w, c.r->Ok_0) && (fits_bindings(acc, first, w) ==> fits_bindings(c.node, first, w) && c.r->Ok_0
                == scope_with(first, c.node, c.node.len() as int)))
        }),
    decreases gas, bs, bs.len() - i,
{
    broadcast use lemma_grown_instances;

    if 0 <= i < bs.len() {
        let b = bs[i];
        if typing::undefined_in(s, b.ty, Set::empty()) is None {
            let c = typing::check_as(gas, b.value, b.ty, env, s);
            lemma_check_as(gas, b.value, b.ty, env, s, w);
            if c.r is Ok {
                let more = acc.push(BindingV { value: c.node, ..b });
                assert forall|j: int| 0 <= j <= acc.len() implies #[trigger] scope_with(first, more, j)
                    == scope_with(first, acc, j) by {
                    lemma_scope_prefix(first, acc, more.last(), j);
                }
                assert(scope_with(first, more, acc.len() as int) == env);
                assert(more.last() == (BindingV { value: c.node, ..b }));
                lemma_check_bindings(gas, bs, i + 1, more, first, env.insert(b.name, b.ty), c.s, w);
                if given(s, env, w) && instances_within(c.s, w) && fits_bindings(acc, first, w) {
                    assert forall|j: int| 0 <= j < more.len() implies fits(
                        (#[trigger] more[j]).value,
                        scope_with(first, more, j),
                        w,
                    ) && more[j].value.ty == Some(more[j].ty) by {
                        if j < acc.len() {
                            assert(more[j] == acc[j]);
                        }
                    }
                }
            }
        }
    }
}


#[verifier::rlimit(40)]
proof fn lemma_check_call(
    gas: nat,
    callee: Seq<char>,
    args: Seq<ExprV>,
    span: Span,
    env: Env,
    s: CkV,
    w: CkV,
)
    ensures
        ({
            let c = typing::check_call(gas, callee, args, span, env, s);
            c.r is Ok ==> {
                &&& carries(s, c.s, w)
                &&& given(s, env, w) && instances_within(c.s, w) ==> {
                    &&& sound_type(w, c.r->Ok_0)
                    &&& fits_all(c.node.1, env, w)
                    &&& fits_call(c.node.0, c.node.1, c.r->Ok_0, w)
                }
            }
        }),
    decreases gas, args, args.len() + 3,
{
    broadcast use lemma_grown_instances;

    if s.trait_methods.contains_key(callee) {
        lemma_check_method_call(gas, callee, args, span, env, s, w);
    } else if s.structs.contains_key(callee) {
        let sdef = s.structs[callee];
        lemma_check_known_call(
            gas,
            callee,
            args,
            typing::field_types(sdef.fields),
            TypeV::Named(sdef.name),
            span,
            env,
            s,
            w,
        );
    } else if s.variants.contains_key(callee) {
        let info = s.variants[callee];
        let wants = match info.payload {
            None => Seq::empty(),
            Some(t) => seq![t],
        };
        lemma_check_known_call(
            gas,
            callee,
            args,
            wants,
            TypeV::Named(info.enum_name),
            span,
            env,
            s,
            w,
        );
    } else if typing::builtin_name(callee) {
        lemma_check_builtin(gas, callee, args, span, env, s, w);
    } else if s.generic_fns.contains_key(callee) {
        lemma_check_generic_call(gas, callee, args, span, env, s, w);
    } else if s.fns.contains_key(callee) {
        let sig = s.fns[callee];
        lemma_check_known_call(gas, callee, args, sig.params, sig.ret, span, env, s, w);
    }
}

proof fn lemma_check_known_call(
    gas: nat,
    callee: Seq<char>,
    args: Seq<ExprV>,
    wants: Seq<TypeV>,
    ret: TypeV,
    span: Span,
    env: Env,
    s: CkV,
    w: CkV,
)
    ensures
        ({
            let c = typing::check_known_call(gas, callee, args, wants, ret, span, env, s);
            c.r is Ok ==> {
                &&& carries(s, c.s, w)
                &&& given(s, env, w) && instances_within(c.s, w) ==> {
                    &&& fits_all(c.node.1, env, w)
                    &&& c.node.0 == callee
                    &&& c.node.1.len() == args.len()
                    &&& typed_as(c.node.1, wants)
                    &&& args.len() == wants.len()
                    &&& c.r->Ok_0 == ret
                }
            }
        }),
    decreases gas, args, args.len() + 2,
{
    broadcast use lemma_grown_instances;

    lemma_check_args(gas, args, 0, Seq::empty(), wants, env, s, w);
}

/// The first argument is checked by itself, the others against types.
proof fn lemma_first_and_rest(
    gas: nat,
    args: Seq<ExprV>,
    wants: Seq<TypeV>,
    env: Env,
    s: CkV,
    w: CkV,
)
    requires
        args.len() > 0,
    ensures
        ({
            let c = typing::check(gas, args[0], env, s);
            let d = typing::check_args(gas, args, 1, seq![c.node], wants, env, c.s);
            c.r is Ok ==> {
                &&& carries(s, c.s, w)
                &&& given(s, env, w) && instances_within(c.s, w) ==> {
                    &&& fits(c.node, env, w)
                    &&& c.node.ty == Some(c.r->Ok_0)
                }
                &&& d.r is Ok ==> carries(s, d.s, w) && carries(c.s, d.s, w)
                &&& d.r is Ok && wants[0] == c.r->Ok_0 && given(s, env, w) && instances_within(
                    d.s,
                    w,
                ) ==> {
                    &&& fits_all(d.node, env, w)
                    &&& d.node.len() == args.len()
                    &&& types_are(d.node, wants, args.len() as int)
                }
            }
        }),
    decreases gas, args, args.len(),
{
    broadcast use lemma_grown_instances;

    let c = typing::check(gas, args[0], env, s);
    lemma_check(gas, args[0], env, s, w);
    if c.r is Ok {
        lemma_check_args(gas, args, 1, seq![c.node], wants, env, c.s, w);
    }
}

proof fn lemma_check_method_call(
    gas: nat,
    callee: Seq<char>,
    args: Seq<ExprV>,
    span: Span,
    env: Env,
    s: CkV,
    w: CkV,
)
    ensures
        ({
            let c = typing::check_method_call(gas, callee, args, span, env, s);
            c.r is Ok ==> {
                &&& carries(s, c.s, w)
                &&& given(s, env, w) && instances_within(c.s, w) ==> {
                    &&& sound_type(w, c.r->Ok_0)
                    &&& fits_all(c.node.1, env, w)
                    &&& fits_call(c.node.0, c.node.1, c.r->Ok_0, w)
                }
            }
        }),
    decreases gas, args, args.len() + 2,
{
    broadcast use lemma_grown_instances;

    if args.len() > 0 {
        let c = typing::check(gas, args[0], env, s);
        if c.r is Ok {
            let symbol = typing::method_symbol(s.trait_methods[callee], c.r->Ok_0, callee);
            lemma_first_and_rest(gas, args, c.s.fns[symbol].params, env, s, w);
        }
    }
}

#[verifier::rlimit(40)]
proof fn lemma_check_builtin(
    gas: nat,
    op: Seq<char>,
    args: Seq<ExprV>,
    span: Span,
    env: Env,
    s: CkV,
    w: CkV,
)
    requires
        typing::builtin_name(op),
    ensures
        ({
            let c = typing::check_builtin(gas, op, args, span, env, s);
            c.r is Ok ==> {
                &&& carries(s, c.s, w)
                &&& given(s, env, w) && instances_within(c.s, w) ==> {
                    &&& sound_type(w, c.r->Ok_0)
                    &&& fits_all(c.node, env, w)
                    &&& fits_builtin(op, c.node, c.r->Ok_0)
                }
            }
        }),
    decreases gas, args, args.len() + 2,
{
    broadcast use lemma_grown_instances;

    let arity = typing::builtin_arity(op);
    if !(arity is None && args.len() == 0) && !(arity is Some && args.len() != arity->0) {
        lemma_check_uniform(gas, args, TypeV::Bool, TypeV::Bool, env, s, w);
        lemma_check_uniform(gas, args, TypeV::Str, TypeV::Str, env, s, w);
        lemma_check_uniform(gas, args, TypeV::Str, TypeV::I32, env, s, w);
        if args.len() > 0 {
            lemma_check_numeric(gas, op, args, env, s, w);
            let others = op == "/"@ || op == "mod"@ || arity is None || typing::comparison(op) || op
                == "and"@ || op == "or"@ || op == "not"@ || op == "str-concat"@ || op == "str-len"@;
            if !others {
                lemma_check_first(gas, op, args, env, s, w);
            }
        }
        if args.len() == 2 {
            lemma_check_comparison(gas, op, args, env, s, w);
        }
    }
}

proof fn lemma_check_uniform(
    gas: nat,
    args: Seq<ExprV>,
    want: TypeV,
    ret: TypeV,
    env: Env,
    s: CkV,
    w: CkV,
)
    ensures
        ({
            let c = typing::check_uniform(gas, args, want, ret, env, s);
            c.r is Ok ==> {
                &&& carries(s, c.s, w)
                &&& given(s, env, w) && instances_within(c.s, w) ==> {
                    &&& fits_all(c.node, env, w)
                    &&& c.node.len() == args.len()
                    &&& all_of_type(c.node, want)
                    &&& c.r->Ok_0 == ret
                }
            }
        }),
    decreases gas, args, args.len() + 1,
{
    broadcast use lemma_grown_instances;

    let wants = Seq::new(args.len(), |i: int| want);
    lemma_check_args(gas, args, 0, Seq::empty(), wants, env, s, w);
}

proof fn lemma_check_numeric(gas: nat, op: Seq<char>, args: Seq<ExprV>, env: Env, s: CkV, w: CkV)
    requires
        args.len() > 0,
    ensures
        ({
            let c = typing::check_numeric(gas, op, args, env, s);
            c.r is Ok ==> {
                &&& carries(s, c.s, w)
                &&& given(s, env, w) && instances_within(c.s, w) ==> {
                    &&& fits_all(c.node, env, w)
                    &&& c.node.len() == args.len()
                    &&& typing::numeric(c.r->Ok_0)
                    &&& all_of_type(c.node, c.r->Ok_0)
                }
            }
        }),
    decreases gas, args, args.len() + 1,
{
    broadcast use lemma_grown_instances;

    let c = typing::check(gas, args[0], env, s);
    if c.r is Ok {
        let first = c.r->Ok_0;
        lemma_first_and_rest(gas, args, Seq::new(args.len(), |i: int| first), env, s, w);
    }
}

proof fn lemma_check_comparison(gas: nat, op: Seq<char>, args: Seq<ExprV>, env: Env, s: CkV, w: CkV)
    requires
        args.len() == 2,
    ensures
        ({
            let c = typing::check_comparison(gas, op, args, env, s);
            c.r is Ok ==> {
                &&& carries(s, c.s, w)
                &&& given(s, env, w) && instances_within(c.s, w) ==> {
                    &&& fits_all(c.node, env, w)
                    &&& c.node.len() == 2
                    &&& ast::scalar(c.node[0].ty->0)
                    &&& all_of_type(c.node, c.node[0].ty->0)
                    &&& c.r->Ok_0 is Bool
                }
            }
        }),
    decreases gas, args, args.len() + 1,
{
    broadcast use lemma_grown_instances;

    let a = typing::check(gas, args[0], env, s);
    lemma_check(gas, args[0], env, s, w);
    if a.r is Ok {
        lemma_check_as(gas, args[1], a.r->Ok_0, env, a.s, w);
    }
}

proof fn lemma_check_first(gas: nat, op: Seq<char>, args: Seq<ExprV>, env: Env, s: CkV, w: CkV)
    requires
        typing::builtin_arity(op) == Some(args.len()),
        first_decides(op),
    ensures
        ({
            let c = typing::check_first(gas, op, args, env, s);
            c.r is Ok ==> {
                &&& carries(s, c.s, w)
                &&& given(s, env, w) && instances_within(c.s, w) ==> {
                    &&& sound_type(w, c.r->Ok_0)
                    &&& fits_all(c.node, env, w)
                    &&& fits_builtin(op, c.node, c.r->Ok_0)
                }
            }
        }),
    decreases gas, args, args.len() + 1,
{
    broadcast use lemma_grown_instances;

    let c = typing::check(gas, args[0], env, s);
    if c.r is Ok {
        let t = c.r->Ok_0;
        lemma_first_and_rest(gas, args, seq![t], env, s, w);
        reveal_strlit("aget");
        reveal_strlit("aset!");
        reveal_strlit("alen");
        assert("aget"@.len() != "aset!"@.len());
        assert("alen"@.len() != "aset!"@.len());
        assert("alen"@[1] != "aget"@[1]);
        if op == "print"@ || op == "println"@ {
            assert(args.update(0, c.node) =~= seq![c.node]);
        }
        if let TypeV::Array { elem, .. } = t {
            let wants = if op == "aset!"@ {
                seq![t, TypeV::I32, *elem]
            } else {
                seq![t, TypeV::I32]
            };
            lemma_first_and_rest(gas, args, wants, env, s, w);
        }
    }
}

proof fn lemma_check_unified(
    gas: nat,
    args: Seq<ExprV>,
    i: int,
    acc: Seq<ExprV>,
    params: Seq<ParamV>,
    tps: Set<Seq<char>>,
    subst: Subst,
    tys: Seq<TypeV>,
    env: Env,
    s: CkV,
    w: CkV,
)
    requires
        0 <= i <= args.len(),
        acc.len() == i,
        tys.len() == i,
    ensures
        ({
            let c = typing::check_unified(gas, args, i, acc, params, tps, subst, tys, env, s);
            c.r is Ok ==> {
                &&& c.node.len() == args.len()
                &&& c.r->Ok_0.1.len() == args.len()
                &&& carries(s, c.s, w)
                &&& given(s, env, w) && instances_within(c.s, w) ==> {
                    &&& fits_all(acc, env, w) ==> {
                        &&& fits_all(c.node, env, w)
                    }
                    &&& types_are(acc, tys, i) ==> {
                        &&& types_are(c.node, c.r->Ok_0.1, args.len() as int)
                    }
                }
            }
        }),
    decreases gas, args, args.len() - i,
{
    broadcast use lemma_grown_instances;

    if 0 <= i < args.len() {
        let c = typing::check(gas, args[i], env, s);
        lemma_check(gas, args[i], env, s, w);
        if c.r is Ok {
            let t = c.r->Ok_0;
            if let Ok(subst2) = typing::unified(params[i].ty, t, tps, subst, args[i].span) {
                lemma_check_unified(
                    gas,
                    args,
                    i + 1,
                    acc.push(c.node),
                    params,
                    tps,
                    subst2,
                    tys.push(t),
                    env,
                    c.s,
                    w,
                );
            }
        }
    }
}

/// Where nothing misfits, the types are those of the parameters.
proof fn lemma_no_misfit(params: Seq<TypeV>, tys: Seq<TypeV>, args: Seq<ExprV>, i: int)
    requires
        0 <= i,
        params.len() == tys.len(),
        typing::misfit(params, tys, args, i) is None,
    ensures
        forall|j: int| i <= j < params.len() ==> params[j] == #[trigger] tys[j],
    decreases params.len() - i,
{
    if i < params.len() {
        lemma_no_misfit(params, tys, args, i + 1);
    }
}

proof fn lemma_check_generic_call(
    gas: nat,
    callee: Seq<char>,
    args: Seq<ExprV>,
    span: Span,
    env: Env,
    s: CkV,
    w: CkV,
)
    requires
        s.generic_fns.contains_key(callee),
    ensures
        ({
            let c = typing::check_generic_call(gas, callee, args, span, env, s);
            c.r is Ok ==> {
                &&& carries(s, c.s, w)
                &&& given(s, env, w) && instances_within(c.s, w) ==> {
                    &&& sound_type(w, c.r->Ok_0)
                    &&& fits_all(c.node.1, env, w)
                    &&& fits_call(c.node.0, c.node.1, c.r->Ok_0, w)
                }
            }
        }),
    decreases gas, args, args.len() + 2,
{
    broadcast use lemma_grown_instances;

    let g = s.generic_fns[callee];
    if g.params.len() == args.len() {
        let tps = typing::type_param_names(g.type_params);
        let c = typing::check_unified(
            gas,
            args,
            0,
            Seq::empty(),
            g.params,
            tps,
            Map::empty(),
            Seq::empty(),
            env,
            s,
        );
        lemma_check_unified(
            gas,
            args,
            0,
            Seq::empty(),
            g.params,
            tps,
            Map::empty(),
            Seq::empty(),
            env,
            s,
            w,
        );
        if c.r is Ok {
            let subst = c.r->Ok_0.0;
            if let Ok(targs) = typing::type_args(
                g.type_params,
                0,
                Seq::empty(),
                subst,
                c.s.impls,
                span,
            ) {
                let key = (g.name, targs);
                if c.s.mono_cache.contains_key(key) {
                    if within(s, w) && instances_within(c.s, w) {
                        assert(within(c.s, w));
                        assert(w.fns[c.s.mono_cache[key]].params.len() == g.params.len());
                    }
                } else if gas > 0 {
                    let d = typing::check_instance((gas - 1) as nat, g, targs, subst, c.s);
                    lemma_check_instance((gas - 1) as nat, g, targs, subst, c.s, w);
                    if d.r is Ok {
                        let made = d.s.mono_fns[d.s.mono_fns.len() - 1];
                        assert(made.name == d.r->Ok_0 && made.params.len() == g.params.len());
                        if within(s, w) && instances_within(d.s, w) {
                            assert(instances_within(c.s, w));
                            assert(within(c.s, w));
                            assert(carries(c.s, d.s, w));
                            assert(w.fns[made.name].params.len() == g.params.len());
                        }
                        assert(carries(s, d.s, w));
                    }
                }
                let r = typing::check_generic_call(gas, callee, args, span, env, s);
                if r.r is Ok && given(s, env, w) && instances_within(r.s, w) {
                    let sig = r.s.fns[r.node.0];
                    assert(within(r.s, w));
                    assert(w.fns[r.node.0] == sig);
                    assert(sig.params.len() == g.params.len());
                    lemma_no_misfit(sig.params, c.r->Ok_0.1, c.node, 0);
                    assert(typed_as(c.node, sig.params));
                }
            }
        }
    }
}

proof fn lemma_check_instance(
    gas: nat,
    g: GenericFunctionV,
    targs: Seq<TypeV>,
    subst: Subst,
    s: CkV,
    w: CkV,
)
    ensures
        ({
            let c = typing::check_instance(gas, g, targs, subst, s);
            c.r is Ok ==> grown(s, c.s) && ((s.generic_fns.contains_key(g.name)
                ==> s.generic_fns[g.name] == g) ==> carries(s, c.s, w))
        }),
    decreases gas, typing::instance_of(g, targs, subst).body, 2int,
{
    broadcast use lemma_grown_instances;

    let f = typing::instance_of(g, targs, subst);
    let s1 = typing::entered(s, g, targs, f);
    let env = typing::scope_of(f.params);
    let c = typing::check_as(gas, f.body, f.ret, env, s1);
    lemma_check_as(gas, f.body, f.ret, env, s1, w);
    if c.r is Ok {
        let t = typing::check_instance(gas, g, targs, subst, s).s;
        let n = c.s.mono_fns.len() as int;
        let made = FunctionV { body: c.node, ..f };
        assert(t.mono_fns[n] == made);
        assert(grown(s1, c.s));
        let back = CkV { in_loop: t.in_loop, ..c.s };
        assert(grown(back, t));
        let known = s.generic_fns.contains_key(g.name) ==> s.generic_fns[g.name] == g;
        if known && within(s, w) && instances_within(t, w) {
            assert(instances_within(back, w));
            assert(instances_within(c.s, w));
            assert(w.fns[made.name] == (FnSigV {
                params: typing::param_types(made.params),
                ret: made.ret,
            }));
            assert(within(s1, w));
            assert(within(c.s, w));
            assert(within(t, w));
            if in_order(w) && apart(w) && instances_fit(s, w) {
                lemma_sound_params(w, f.params);
                assert(instances_fit(s1, w));
                assert(instances_fit(c.s, w));
                assert forall|i: int| 0 <= i < t.mono_fns.len() implies fits_function(
                    #[trigger] t.mono_fns[i],
                    w,
                ) by {
                    if i < n {
                        assert(t.mono_fns[i] == c.s.mono_fns[i]);
                    }
                }
            }
        }
    }
}


/// An accepted expression fits where it stands, whatever `w` holds besides the
/// definitions, the functions and the instances that checking went by.
pub proof fn law_accepted_expression_fits(gas: nat, e: ExprV, env: Env, s: CkV, w: CkV)
    requires
        typing::check(gas, e, env, s).r is Ok,
        within(s, w),
        instances_within(typing::check(gas, e, env, s).s, w),
        in_order(w),
        apart(w),
        sound_scope(w, env),
    ensures
        fits(typing::check(gas, e, env, s).node, env, w),
        typing::check(gas, e, env, s).node.ty == Some(typing::check(gas, e, env, s).r->Ok_0),
{
    lemma_check(gas, e, env, s, w);
}

} // verus!
