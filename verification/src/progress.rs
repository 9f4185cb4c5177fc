//! Laws of the type checker and the code generator together: an accepted expression is
//! lowered.
use crate::ast::{
    BindingV, ExprKindV, ExprV, FieldDefV, FunctionV, ImplBlockV, MatchArmV, ParamV, ProgramV,
    TopLevelV, TypeV,
};
use crate::ast;
use crate::declared::DeclaredV;
use crate::declared;
use crate::fitting;
use crate::ir::{LTyV, OpV, Prim, ValV};
use crate::lowering::{Gen, GenV, LocalV, RuntimeFnV, Shadowed, ValueUse};
use crate::lowering;
use crate::scopes;
use crate::scripts;
use crate::typed;
use crate::typing::{CkV, Env, FnSigV, VariantInfoV};
use crate::typing;
use vstd::prelude::*;

verus! {

/// Whether an expression ends the block that it stands in, so that nothing behind it
/// is reached: a `break` on every way through it.
pub open spec fn cuts(e: ExprV) -> bool
    decreases e,
{
    cuts_kind(e.kind)
}

pub open spec fn cuts_kind(k: ExprKindV) -> bool
    decreases k,
{
    match k {
        ExprKindV::Break => true,
        ExprKindV::If { cond, then_branch, else_branch } => cuts(*then_branch) && cuts(*else_branch),
        ExprKindV::Let { bindings, body } => cuts(*body),
        ExprKindV::Do(es) => cuts_any(es),
        _ => false,
    }
}

pub open spec fn cuts_any(es: Seq<ExprV>) -> bool
    decreases es,
{
    exists|i: int| 0 <= i < es.len() && cuts(#[trigger] es[i])
}

/// Whether one of the first `n` expressions ends the block.
pub open spec fn cut_before(es: Seq<ExprV>, n: int) -> bool {
    exists|i: int| 0 <= i < n && cuts(#[trigger] es[i])
}

/// Whether an expression has a value where control goes on behind it.
pub open spec fn yields(e: ExprV) -> bool {
    e.ty != Some(TypeV::Unit) && !cuts(e)
}

/// Whether in an expression all that is used as a value has one. Nothing is asked of
/// what stands behind the end of a block.
pub open spec fn filled(e: ExprV) -> bool
    decreases e,
{
    filled_kind(e.kind)
}

pub open spec fn filled_kind(k: ExprKindV) -> bool
    decreases k,
{
    match k {
        ExprKindV::Lit(_) => true,
        ExprKindV::Var(_) => true,
        ExprKindV::Break => true,
        ExprKindV::If { cond, then_branch, else_branch } => {
            &&& filled(*cond) && yields(*cond)
            &&& filled(*then_branch)
            &&& filled(*else_branch)
        },
        ExprKindV::Let { bindings, body } => filled_bindings(bindings) && filled(*body),
        ExprKindV::Do(es) => filled_steps(es),
        ExprKindV::Cast { ty, expr } => filled(*expr) && yields(*expr),
        ExprKindV::Assign { name, value } => filled(*value) && yields(*value),
        ExprKindV::While { cond, body } => filled(*cond) && yields(*cond) && filled(*body),
        ExprKindV::Loop { body } => filled(*body),
        ExprKindV::ArrayLit { elem_ty, elems } => filled_values(elems),
        ExprKindV::Field { base, field } => filled(*base) && yields(*base),
        ExprKindV::Match { scrutinee, arms } => {
            &&& filled(*scrutinee) && yields(*scrutinee)
            &&& filled_arms(arms)
        },
        ExprKindV::Call { callee, args } => filled_values(args),
    }
}

pub open spec fn filled_values(es: Seq<ExprV>) -> bool
    decreases es,
{
    forall|i: int| 0 <= i < es.len() ==> filled(#[trigger] es[i]) && yields(es[i])
}

pub open spec fn filled_steps(es: Seq<ExprV>) -> bool
    decreases es,
{
    forall|i: int| 0 <= i < es.len() && !cut_before(es, i) ==> filled(#[trigger] es[i])
}

pub open spec fn filled_bindings(bs: Seq<BindingV>) -> bool
    decreases bs,
{
    forall|i: int|
        0 <= i < bs.len() ==> filled((#[trigger] bs[i]).value) && yields(bs[i].value)
}

pub open spec fn filled_arms(arms: Seq<MatchArmV>) -> bool
    decreases arms,
{
    forall|i: int| 0 <= i < arms.len() ==> filled((#[trigger] arms[i]).body)
}

/// Whether in an expression all that is used as a value has one, and every `break` has
/// a loop to leave. `looped` says whether the expression itself is in a loop.
spec fn sure(e: ExprV, looped: bool) -> bool
    decreases e,
{
    sure_kind(e.kind, looped)
}

spec fn sure_kind(k: ExprKindV, looped: bool) -> bool
    decreases k,
{
    match k {
        ExprKindV::Lit(_) => true,
        ExprKindV::Var(_) => true,
        ExprKindV::Break => looped,
        ExprKindV::If { cond, then_branch, else_branch } => {
            &&& sure(*cond, looped) && yields(*cond)
            &&& sure(*then_branch, looped)
            &&& sure(*else_branch, looped)
        },
        ExprKindV::Let { bindings, body } => sure_bindings(bindings, looped) && sure(*body, looped),
        ExprKindV::Do(es) => sure_steps(es, looped),
        ExprKindV::Cast { ty, expr } => sure(*expr, looped) && yields(*expr),
        ExprKindV::Assign { name, value } => sure(*value, looped) && yields(*value),
        ExprKindV::While { cond, body } => sure(*cond, looped) && yields(*cond) && sure(*body, true),
        ExprKindV::Loop { body } => sure(*body, true),
        ExprKindV::ArrayLit { elem_ty, elems } => sure_values(elems, looped),
        ExprKindV::Field { base, field } => sure(*base, looped) && yields(*base),
        ExprKindV::Match { scrutinee, arms } => {
            &&& sure(*scrutinee, looped) && yields(*scrutinee)
            &&& sure_arms(arms, looped)
        },
        ExprKindV::Call { callee, args } => sure_values(args, looped),
    }
}

spec fn sure_values(es: Seq<ExprV>, looped: bool) -> bool
    decreases es,
{
    forall|i: int| 0 <= i < es.len() ==> sure(#[trigger] es[i], looped) && yields(es[i])
}

spec fn sure_steps(es: Seq<ExprV>, looped: bool) -> bool
    decreases es,
{
    forall|i: int| 0 <= i < es.len() && !cut_before(es, i) ==> sure(#[trigger] es[i], looped)
}

spec fn sure_bindings(bs: Seq<BindingV>, looped: bool) -> bool
    decreases bs,
{
    forall|i: int|
        0 <= i < bs.len() ==> sure((#[trigger] bs[i]).value, looped) && yields(bs[i].value)
}

spec fn sure_arms(arms: Seq<MatchArmV>, looped: bool) -> bool
    decreases arms,
{
    forall|i: int| 0 <= i < arms.len() ==> sure((#[trigger] arms[i]).body, looped)
}

/// Where all that is used has a value and every `break` has a loop, all is well.
proof fn lemma_sure(e: ExprV, a: bool, b: bool)
    requires
        filled(e),
        typed::homed(e, a),
        a ==> b,
    ensures
        sure(e, b),
    decreases e, 1int,
{
    lemma_sure_kind(e.kind, a, b);
}

proof fn lemma_sure_kind(k: ExprKindV, a: bool, b: bool)
    requires
        filled_kind(k),
        typed::homed_kind(k, a),
        a ==> b,
    ensures
        sure_kind(k, b),
    decreases k, 0int,
{
    match k {
        ExprKindV::If { cond, then_branch, else_branch } => {
            lemma_sure(*cond, a, b);
            lemma_sure(*then_branch, a, b);
            lemma_sure(*else_branch, a, b);
        },
        ExprKindV::Let { bindings, body } => {
            assert forall|i: int| 0 <= i < bindings.len() implies sure(
                (#[trigger] bindings[i]).value,
                b,
            ) by {
                lemma_sure(bindings[i].value, a, b);
            }
            lemma_sure(*body, a, b);
        },
        ExprKindV::Do(es) => {
            assert forall|i: int| 0 <= i < es.len() && !cut_before(es, i) implies sure(
                #[trigger] es[i],
                b,
            ) by {
                lemma_sure(es[i], a, b);
            }
        },
        ExprKindV::Cast { ty, expr } => lemma_sure(*expr, a, b),
        ExprKindV::Assign { name, value } => lemma_sure(*value, a, b),
        ExprKindV::While { cond, body } => {
            lemma_sure(*cond, a, b);
            lemma_sure(*body, true, true);
        },
        ExprKindV::Loop { body } => lemma_sure(*body, true, true),
        ExprKindV::ArrayLit { elem_ty, elems } => lemma_sure_values(elems, a, b),
        ExprKindV::Field { base, field } => lemma_sure(*base, a, b),
        ExprKindV::Match { scrutinee, arms } => {
            lemma_sure(*scrutinee, a, b);
            assert forall|i: int| 0 <= i < arms.len() implies sure((#[trigger] arms[i]).body, b) by {
                lemma_sure(arms[i].body, a, b);
            }
        },
        ExprKindV::Call { callee, args } => lemma_sure_values(args, a, b),
        _ => {},
    }
}

proof fn lemma_sure_values(es: Seq<ExprV>, a: bool, b: bool)
    requires
        filled_values(es),
        typed::homed_all(es, a),
        a ==> b,
    ensures
        sure_values(es, b),
    decreases es, 0int,
{
    assert forall|i: int| 0 <= i < es.len() implies sure(#[trigger] es[i], b) && yields(es[i]) by {
        lemma_sure(es[i], a, b);
    }
}

/// Whether variables can have this type.
pub open spec fn storable(w: CkV, t: TypeV) -> bool {
    fitting::sound_type(w, t) && !(t is Unit)
}

/// Whether the variables that the code generator has are those of the scope `env`.
pub open spec fn holds(ls: Seq<LocalV>, env: Env, w: CkV) -> bool {
    forall|n: Seq<char>|
        match #[trigger] lowering::find_local(ls, n) {
            Some(l) => env.contains_key(n) && l.ty == env[n] && storable(w, l.ty),
            None => !env.contains_key(n),
        }
}

/// Whether the code generator knows the definitions `w`, and the functions of `w` and
/// of the run time are declared.
pub open spec fn prepared(g: GenV, w: CkV) -> bool {
    &&& g.structs == w.structs
    &&& g.enums == w.enums
    &&& g.variants == w.variants
    &&& forall|n: Seq<char>| #[trigger] w.consts.contains_key(n) ==> g.consts.contains_key(n)
    &&& forall|n: Seq<char>| #[trigger]
        w.fns.contains_key(n) ==> g.fns.contains_key(n) && g.fn_types.contains_key(n)
            && g.fn_types[n] == w.fns[n]
    &&& forall|i: int|
        0 <= i < lowering::runtime().len() ==> g.fns.contains_key((#[trigger] lowering::runtime()[i]).key)
}

/// Where an expression of the scope `env` can be lowered, `exits` being the ends of
/// the loops around it.
#[verifier::opaque]
spec fn around(g: GenV, w: CkV, env: Env, exits: Seq<usize>) -> bool {
    &&& prepared(g, w)
    &&& fitting::in_order(w)
    &&& holds(g.locals, env, w)
    &&& g.loop_exits == exits
}

/// Whether building goes on in such a place.
spec fn live(g: GenV, w: CkV, env: Env, exits: Seq<usize>) -> bool {
    around(g, w, env, exits) && !g.ended
}

/// Whether something was built, and building goes on.
spec fn well<R>(c: Gen<R>, w: CkV, env: Env, exits: Seq<usize>) -> bool {
    c.r is Ok && live(c.g, w, env, exits)
}

/// Whether an expression of type `ty` was built, which ends the block or not.
spec fn whole(c: Gen<Option<ValV>>, ty: TypeV, cut: bool) -> bool {
    &&& c.r is Ok
    &&& c.g.ended == cut
    &&& c.r->Ok_0 is None <==> (cut || ty is Unit)
}

proof fn lemma_around_same(g: GenV, h: GenV, w: CkV, env: Env, x: Seq<usize>)
    requires
        around(g, w, env, x),
        scripts::same_context(g, h),
        h.locals == g.locals,
    ensures
        around(h, w, env, x),
{
    reveal(around);
}

broadcast proof fn lemma_around_step(g: GenV, op: OpV, w: CkV, env: Env, x: Seq<usize>)
    requires
        #[trigger] around(g, w, env, x),
    ensures
        around(#[trigger] lowering::step(g, op), w, env, x),
{
    reveal(around);
}

broadcast proof fn lemma_around_go(g: GenV, bb: usize, w: CkV, env: Env, x: Seq<usize>)
    requires
        #[trigger] around(g, w, env, x),
    ensures
        around(#[trigger] lowering::go(g, bb), w, env, x),
{
    reveal(around);
}

broadcast proof fn lemma_around_text(g: GenV, s: Seq<char>, w: CkV, env: Env, x: Seq<usize>)
    requires
        #[trigger] around(g, w, env, x),
    ensures
        around(#[trigger] lowering::lower_text(g, s), w, env, x),
{
    reveal(around);
}

proof fn lemma_around_runtime(g: GenV, w: CkV, env: Env, x: Seq<usize>)
    requires
        around(g, w, env, x),
    ensures
        g.fns.contains_key("__puts"@),
        g.fns.contains_key("__printf"@),
        g.fns.contains_key("risp_str_from_cstr"@),
        g.fns.contains_key("risp_str_retain"@),
        g.fns.contains_key("risp_str_release"@),
        g.fns.contains_key("risp_str_concat"@),
        g.fns.contains_key("risp_str_len"@),
        g.fns.contains_key("risp_str_cstr"@),
{
    reveal(around);
    let rt = lowering::runtime();
    assert(rt.len() == 22);
    assert(g.fns.contains_key(rt[0].key));
    assert(g.fns.contains_key(rt[1].key));
    assert(g.fns.contains_key(rt[2].key));
    assert(g.fns.contains_key(rt[3].key));
    assert(g.fns.contains_key(rt[4].key));
    assert(g.fns.contains_key(rt[5].key));
    assert(g.fns.contains_key(rt[6].key));
    assert(g.fns.contains_key(rt[7].key));
}

proof fn lemma_field_prims(fields: Seq<FieldDefV>, i: int, acc: Seq<Prim>)
    requires
        0 <= i,
        forall|j: int| 0 <= j < fields.len() ==> ast::scalar((#[trigger] fields[j]).ty),
    ensures
        lowering::field_prims(fields, i, acc) is Ok,
    decreases fields.len() - i,
{
    if i < fields.len() {
        assert(ast::scalar(fields[i].ty));
        lemma_field_prims(fields, i + 1, acc.push(lowering::prim_of(fields[i].ty)->0));
    }
}

broadcast proof fn lemma_around_type(g: GenV, t: TypeV, w: CkV, env: Env, x: Seq<usize>)
    requires
        #[trigger] around(g, w, env, x),
        storable(w, t),
    ensures
        (#[trigger] lowering::lower_type(g, t)) is Ok,
{
    reveal(around);
    if let TypeV::Named(n) = t {
        if w.structs.contains_key(n) {
            lemma_field_prims(w.structs[n].fields, 0, Seq::empty());
        }
    }
}

broadcast group group_around {
    lemma_around_step,
    lemma_around_go,
    lemma_around_text,
    lemma_around_type,
}

proof fn lemma_rt(
    g: GenV,
    fname: Seq<char>,
    args: Seq<ValV>,
    name: Seq<char>,
    w: CkV,
    env: Env,
    x: Seq<usize>,
)
    requires
        live(g, w, env, x),
        fname == "__puts"@ || fname == "__printf"@ || fname == "risp_str_from_cstr"@ || fname
            == "risp_str_retain"@ || fname == "risp_str_release"@ || fname == "risp_str_concat"@
            || fname == "risp_str_len"@ || fname == "risp_str_cstr"@,
    ensures
        well(lowering::lower_rt(g, fname, args, name), w, env, x),
{
    broadcast use group_around;

    lemma_around_runtime(g, w, env, x);
}

proof fn lemma_drop(g: GenV, v: ValV, ty: TypeV, w: CkV, env: Env, x: Seq<usize>)
    requires
        live(g, w, env, x),
    ensures
        well(lowering::lower_drop(g, v, ty), w, env, x),
{
    lemma_rt(g, "risp_str_release"@, seq![v], "risp_str_release"@, w, env, x);
}

proof fn lemma_retain(g: GenV, v: ValV, ty: TypeV, w: CkV, env: Env, x: Seq<usize>)
    requires
        live(g, w, env, x),
    ensures
        well(lowering::lower_retain(g, v, ty), w, env, x),
{
    lemma_rt(g, "risp_str_retain"@, seq![v], "risp_str_retain"@, w, env, x);
}

proof fn lemma_slot(g: GenV, name: Seq<char>, ty: TypeV, w: CkV, env: Env, x: Seq<usize>)
    requires
        live(g, w, env, x),
        storable(w, ty),
    ensures
        well(lowering::lower_slot(g, name, ty), w, env, x),
        lowering::lower_slot(g, name, ty).g.locals == g.locals,
{
    broadcast use group_around;

}

proof fn lemma_load(g: GenV, ptr: ValV, ty: TypeV, name: Seq<char>, w: CkV, env: Env, x: Seq<usize>)
    requires
        live(g, w, env, x),
        storable(w, ty),
    ensures
        well(lowering::lower_load(g, ptr, ty, name), w, env, x),
{
    broadcast use group_around;

}

proof fn lemma_release(
    g: GenV,
    ptr: ValV,
    ty: TypeV,
    name: Seq<char>,
    w: CkV,
    env: Env,
    x: Seq<usize>,
)
    requires
        live(g, w, env, x),
        storable(w, ty),
    ensures
        well(lowering::lower_release(g, ptr, ty, name), w, env, x),
{
    let c = lowering::lower_load(g, ptr, ty, name);
    lemma_load(g, ptr, ty, name, w, env, x);
    lemma_drop(c.g, c.r->Ok_0, ty, w, env, x);
}

proof fn lemma_store(g: GenV, ptr: ValV, v: ValV, ty: TypeV, w: CkV, env: Env, x: Seq<usize>)
    requires
        live(g, w, env, x),
        storable(w, ty),
    ensures
        well(lowering::lower_store(g, ptr, v, ty), w, env, x),
        lowering::lower_store(g, ptr, v, ty).g.locals == g.locals,
        lowering::lower_store(g, ptr, v, ty).g.param_locals == g.param_locals,
{
    broadcast use group_around;

    lemma_release(g, ptr, ty, "old.owned"@, w, env, x);
}

proof fn lemma_var(g: GenV, name: Seq<char>, mode: ValueUse, w: CkV, env: Env, x: Seq<usize>)
    requires
        live(g, w, env, x),
        env.contains_key(name) || w.consts.contains_key(name),
    ensures
        well(lowering::lower_var(g, name, mode), w, env, x),
{
    broadcast use group_around;

    assert(match lowering::find_local(g.locals, name) {
        Some(l) => storable(w, l.ty),
        None => !env.contains_key(name) && g.consts.contains_key(name),
    }) by {
        reveal(around);
    }
    match lowering::find_local(g.locals, name) {
        Some(l) => {
            lemma_load(g, l.ptr, l.ty, name, w, env, x);
            let c = lowering::lower_load(g, l.ptr, l.ty, "load.owned"@);
            lemma_load(g, l.ptr, l.ty, "load.owned"@, w, env, x);
            lemma_retain(c.g, c.r->Ok_0, l.ty, w, env, x);
        },
        None => {
            let v = g.consts[name].1;
            lemma_rt(g, "risp_str_from_cstr"@, seq![v], "risp_str_from_cstr"@, w, env, x);
        },
    }
}

proof fn lemma_let_end(bs: Seq<BindingV>, n: int, g: GenV, w: CkV, env: Env, x: Seq<usize>)
    requires
        live(g, w, env, x),
    ensures
        well(lowering::lower_let_end(bs, n, g), w, env, x),
    decreases n,
{
    broadcast use group_around;

    if 0 < n <= bs.len() {
        let b = bs[n - 1];
        match lowering::find_local(g.locals, b.name) {
            Some(l) => if lowering::needs_drop(b.ty) {
                let c = lowering::lower_release(g, l.ptr, b.ty, "letscope.drop"@);
                lemma_release(g, l.ptr, b.ty, "letscope.drop"@, w, env, x);
                let h = lowering::step(c.g, OpV::Store { ptr: l.ptr, val: ValV::Null });
                lemma_let_end(bs, n - 1, h, w, env, x);
            } else {
                lemma_let_end(bs, n - 1, g, w, env, x);
            },
            None => lemma_let_end(bs, n - 1, g, w, env, x),
        }
    }
}

/// One more variable in scope.
proof fn lemma_around_with(g: GenV, l: LocalV, w: CkV, env: Env, x: Seq<usize>)
    requires
        around(g, w, env, x),
        storable(w, l.ty),
    ensures
        around(
            GenV { locals: lowering::with_local(g.locals, l), ..g },
            w,
            env.insert(l.name, l.ty),
            x,
        ),
{
    reveal(around);
    let ls = lowering::with_local(g.locals, l);
    let inner = env.insert(l.name, l.ty);
    assert forall|n: Seq<char>|
        match #[trigger] lowering::find_local(ls, n) {
            Some(y) => inner.contains_key(n) && y.ty == inner[n] && storable(w, y.ty),
            None => !inner.contains_key(n),
        } by {
        scopes::lemma_with(g.locals, l, n);
        assert(match lowering::find_local(g.locals, n) {
            Some(y) => env.contains_key(n) && y.ty == env[n] && storable(w, y.ty),
            None => !env.contains_key(n),
        });
    }
}

/// Match arms of an expression that fits bind payloads only.
pub proof fn lemma_fits_binds(e: ExprV, env: Env, w: CkV)
    requires
        fitting::fits(e, env, w),
    ensures
        scopes::binds_payloads(e, w.variants),
    decreases e, 1int,
{
    lemma_fits_binds_kind(e.kind, e.ty->0, env, w);
}

proof fn lemma_fits_binds_kind(k: ExprKindV, ty: TypeV, env: Env, w: CkV)
    requires
        fitting::fits_kind(k, ty, env, w),
    ensures
        scopes::binds_payloads_kind(k, w.variants),
    decreases k, 0int,
{
    match k {
        ExprKindV::If { cond, then_branch, else_branch } => {
            lemma_fits_binds(*cond, env, w);
            lemma_fits_binds(*then_branch, env, w);
            lemma_fits_binds(*else_branch, env, w);
        },
        ExprKindV::Let { bindings, body } => {
            assert forall|i: int| 0 <= i < bindings.len() implies scopes::binds_payloads(
                (#[trigger] bindings[i]).value,
                w.variants,
            ) by {
                lemma_fits_binds(bindings[i].value, fitting::scope_with(env, bindings, i), w);
            }
            lemma_fits_binds(*body, fitting::scope_with(env, bindings, bindings.len() as int), w);
        },
        ExprKindV::Do(es) => lemma_fits_binds_all(es, env, w),
        ExprKindV::Cast { ty: to, expr } => lemma_fits_binds(*expr, env, w),
        ExprKindV::Assign { name, value } => lemma_fits_binds(*value, env, w),
        ExprKindV::While { cond, body } => {
            lemma_fits_binds(*cond, env, w);
            lemma_fits_binds(*body, env, w);
        },
        ExprKindV::Loop { body } => lemma_fits_binds(*body, env, w),
        ExprKindV::ArrayLit { elem_ty, elems } => lemma_fits_binds_all(elems, env, w),
        ExprKindV::Field { base, field } => lemma_fits_binds(*base, env, w),
        ExprKindV::Match { scrutinee, arms } => {
            lemma_fits_binds(*scrutinee, env, w);
            assert forall|i: int| 0 <= i < arms.len() implies scopes::binds_payloads(
                (#[trigger] arms[i]).body,
                w.variants,
            ) by {
                lemma_fits_binds(arms[i].body, typing::arm_scope(w, arms[i], env), w);
            }
        },
        ExprKindV::Call { callee, args } => lemma_fits_binds_all(args, env, w),
        _ => {},
    }
}

pub proof fn lemma_fits_binds_all(es: Seq<ExprV>, env: Env, w: CkV)
    requires
        fitting::fits_all(es, env, w),
    ensures
        scopes::binds_payloads_all(es, w.variants),
    decreases es, 0int,
{
    assert forall|i: int| 0 <= i < es.len() implies scopes::binds_payloads(
        #[trigger] es[i],
        w.variants,
    ) by {
        lemma_fits_binds(es[i], env, w);
    }
}

proof fn lemma_value(e: ExprV, g: GenV, msg: Seq<char>, w: CkV, env: Env, x: Seq<usize>)
    requires
        live(g, w, env, x),
        fitting::fits(e, env, w),
        sure(e, x.len() > 0),
        yields(e),
    ensures
        well(lowering::lower_value(e, g, msg), w, env, x),
    decreases e, 10int,
{
    lemma_expr(e, ValueUse::Move, g, w, env, x);
}

proof fn lemma_expr(e: ExprV, mode: ValueUse, g: GenV, w: CkV, env: Env, x: Seq<usize>)
    requires
        live(g, w, env, x),
        fitting::fits(e, env, w),
        sure(e, x.len() > 0),
    ensures
        whole(lowering::lower(e, mode, g), e.ty->0, cuts(e)),
        around(lowering::lower(e, mode, g).g, w, env, x),
    decreases e, 9int,
{
    lemma_form(e.kind, e.ty->0, mode, g, w, env, x);
    let c = lowering::lower(e, mode, g);
    lemma_fits_binds(e, env, w);
    assert(g.variants == w.variants) by {
        reveal(around);
    }
    scripts::law_expression_keeps_context(e, mode, g);
    scopes::law_expression_keeps_scope(e, mode, g);
    lemma_around_same(g, c.g, w, env, x);
}

proof fn lemma_form(
    k: ExprKindV,
    ty: TypeV,
    mode: ValueUse,
    g: GenV,
    w: CkV,
    env: Env,
    x: Seq<usize>,
)
    requires
        live(g, w, env, x),
        fitting::sound_type(w, ty),
        fitting::fits_kind(k, ty, env, w),
        sure_kind(k, x.len() > 0),
    ensures
        whole(lowering::lower_form(k, ty, mode, g), ty, cuts_kind(k)),
    decreases k, 8int,
{
    broadcast use group_around;

    match k {
        ExprKindV::Lit(l) => {
            let (g1, v) = lowering::lower_lit(g, l, ty);
            if l is Str {
                lemma_rt(g1, "risp_str_from_cstr"@, seq![v], "risp_str_from_cstr"@, w, env, x);
            }
        },
        ExprKindV::Var(name) => {
            lemma_var(g, name, mode, w, env, x);
            assert(!(ty is Unit)) by {
                reveal(around);
                assert(match lowering::find_local(g.locals, name) {
                    Some(l) => env.contains_key(name) && l.ty == env[name] && storable(w, l.ty),
                    None => !env.contains_key(name),
                });
            }
        },
        ExprKindV::If { .. } => lemma_if(k, ty, g, w, env, x),
        ExprKindV::Let { .. } => lemma_let(k, ty, g, w, env, x),
        ExprKindV::Do(es) => lemma_do(es, 0, g, w, env, x),
        ExprKindV::Cast { ty: to, expr } => {
            lemma_value(*expr, g, "cast expr"@, w, env, x);
        },
        ExprKindV::Assign { .. } => lemma_assign(k, g, w, env, x),
        ExprKindV::While { .. } => lemma_while(k, g, w, env, x),
        ExprKindV::Loop { .. } => lemma_loop(k, g, w, env, x),
        ExprKindV::Break => {
            reveal(around);
        },
        ExprKindV::ArrayLit { elem_ty, elems } => {
            if let Ok(at) = lowering::lower_array_type(elem_ty, elems.len() as u32) {
                let g1 = lowering::step(
                    g,
                    OpV::EntryAlloca { func: g.func, ty: at, name: "arrtmp"@, zeroed: false },
                );
                lemma_elems(at, lowering::made(g), elems, 0, g1, w, env, x);
            }
        },
        ExprKindV::Field { .. } => lemma_field(k, ty, g, w, env, x),
        ExprKindV::Match { .. } => lemma_match(k, ty, g, w, env, x),
        ExprKindV::Call { callee, args } => lemma_call(callee, args, ty, g, w, env, x),
    }
}

#[verifier::rlimit(40)]
proof fn lemma_if(k: ExprKindV, ty: TypeV, g: GenV, w: CkV, env: Env, x: Seq<usize>)
    requires
        k is If,
        live(g, w, env, x),
        fitting::sound_type(w, ty),
        fitting::fits_kind(k, ty, env, w),
        sure_kind(k, x.len() > 0),
    ensures
        whole(lowering::lower_if(k, ty, g), ty, cuts_kind(k)),
    decreases k, 7int,
{
    broadcast use group_around;

    if let ExprKindV::If { cond, then_branch, else_branch } = k {
        let c = lowering::lower_value(*cond, g, "if cond"@);
        lemma_value(*cond, g, "if cond"@, w, env, x);
        let cv = c.r->Ok_0;
        let then_bb = lowering::next(c.g);
        let g1 = lowering::block(c.g, "then"@);
        let else_bb = lowering::next(g1);
        let g2 = lowering::block(g1, "else"@);
        let merge_bb = lowering::next(g2);
        let g3 = lowering::block(g2, "ifcont"@);
        let g3b = lowering::step(g3, OpV::CondBr { cond: cv, yes: then_bb, no: else_bb });
        let g4 = lowering::go(g3b, then_bb);
        let t = lowering::lower(*then_branch, ValueUse::Move, g4);
        lemma_expr(*then_branch, ValueUse::Move, g4, w, env, x);
        let g5 = if !t.g.ended {
            lowering::step(t.g, OpV::Br(merge_bb))
        } else {
            t.g
        };
        let g5b = lowering::go(g5, else_bb);
        let f = lowering::lower(*else_branch, ValueUse::Move, g5b);
        lemma_expr(*else_branch, ValueUse::Move, g5b, w, env, x);
        let g6 = if !f.g.ended {
            lowering::step(f.g, OpV::Br(merge_bb))
        } else {
            f.g
        };
        let g7 = lowering::go(g6, merge_bb);
        assert(around(g7, w, env, x));
        if !(ty is Unit) {
            assert(lowering::lower_type(g7, ty) is Ok);
        }
    }
}

proof fn lemma_binding(b: BindingV, g: GenV, w: CkV, env: Env, x: Seq<usize>)
    requires
        live(g, w, env, x),
        fitting::fits(b.value, env, w),
        b.value.ty == Some(b.ty),
        sure(b.value, x.len() > 0),
        yields(b.value),
    ensures
        well(lowering::lower_binding(b, g), w, env.insert(b.name, b.ty), x),
    decreases b, 11int,
{
    broadcast use group_around;

    let c = lowering::lower_value(b.value, g, "let value"@);
    lemma_value(b.value, g, "let value"@, w, env, x);
    let v = c.r->Ok_0;
    let s = lowering::lower_slot(c.g, b.name, b.ty);
    lemma_slot(c.g, b.name, b.ty, w, env, x);
    let slot = s.r->Ok_0;
    let d = lowering::lower_store(s.g, slot, v, b.ty);
    lemma_store(s.g, slot, v, b.ty, w, env, x);
    lemma_around_with(d.g, LocalV { name: b.name, ptr: slot, ty: b.ty }, w, env, x);
}

proof fn lemma_bindings(
    bs: Seq<BindingV>,
    i: int,
    prev: Seq<Shadowed>,
    g: GenV,
    w: CkV,
    env: Env,
    x: Seq<usize>,
)
    requires
        0 <= i <= bs.len(),
        live(g, w, fitting::scope_with(env, bs, i), x),
        fitting::fits_bindings(bs, env, w),
        sure_bindings(bs, x.len() > 0),
    ensures
        well(
            lowering::lower_bindings(bs, i, prev, g),
            w,
            fitting::scope_with(env, bs, bs.len() as int),
            x,
        ),
    decreases bs, bs.len() - i,
{
    if i < bs.len() {
        let c = lowering::lower_binding(bs[i], g);
        lemma_binding(bs[i], g, w, fitting::scope_with(env, bs, i), x);
        lemma_bindings(bs, i + 1, prev.push(c.r->Ok_0), c.g, w, env, x);
    }
}

proof fn lemma_let(k: ExprKindV, ty: TypeV, g: GenV, w: CkV, env: Env, x: Seq<usize>)
    requires
        k is Let,
        live(g, w, env, x),
        fitting::fits_kind(k, ty, env, w),
        sure_kind(k, x.len() > 0),
    ensures
        whole(lowering::lower_let(k, g), ty, cuts_kind(k)),
    decreases k, 7int,
{
    if let ExprKindV::Let { bindings, body } = k {
        let inner = fitting::scope_with(env, bindings, bindings.len() as int);
        let c = lowering::lower_bindings(bindings, 0, Seq::empty(), g);
        lemma_bindings(bindings, 0, Seq::empty(), g, w, env, x);
        let b = lowering::lower(*body, ValueUse::Move, c.g);
        lemma_expr(*body, ValueUse::Move, c.g, w, inner, x);
        if !b.g.ended {
            lemma_let_end(bindings, bindings.len() as int, b.g, w, inner, x);
        }
    }
}

proof fn lemma_do(es: Seq<ExprV>, i: int, g: GenV, w: CkV, env: Env, x: Seq<usize>)
    requires
        0 <= i <= es.len(),
        es.len() > 0 ==> i < es.len(),
        live(g, w, env, x),
        !cut_before(es, i),
        fitting::fits_all(es, env, w),
        sure_steps(es, x.len() > 0),
    ensures
        whole(
            lowering::lower_do(es, i, None, g),
            if es.len() == 0 {
                TypeV::Unit
            } else {
                es.last().ty->0
            },
            cuts_any(es),
        ),
    decreases es, es.len() - i,
{
    if i < es.len() {
        let c = lowering::lower(es[i], ValueUse::Move, g);
        lemma_expr(es[i], ValueUse::Move, g, w, env, x);
        let v = c.r->Ok_0;
        if cuts(es[i]) {
            assert(cuts_any(es));
            if i < es.len() - 1 {
                let d = lowering::lower_unused(c.g, es[i], v);
                assert(lowering::lower_do(es, i + 1, None, d.g).r is Ok);
            }
        } else {
            assert(!cut_before(es, i + 1));
            if i < es.len() - 1 {
                let d = lowering::lower_unused(c.g, es[i], v);
                if v is Some {
                    lemma_drop(c.g, v->0, es[i].ty->0, w, env, x);
                }
                lemma_do(es, i + 1, d.g, w, env, x);
            } else {
                assert(!cuts_any(es)) by {
                    if cuts_any(es) {
                        let j = choose|j: int| 0 <= j < es.len() && cuts(#[trigger] es[j]);
                        assert(cut_before(es, i + 1));
                    }
                }
            }
        }
    }
}

proof fn lemma_assign(k: ExprKindV, g: GenV, w: CkV, env: Env, x: Seq<usize>)
    requires
        k is Assign,
        live(g, w, env, x),
        fitting::fits_kind(k, TypeV::Unit, env, w),
        sure_kind(k, x.len() > 0),
    ensures
        whole(lowering::lower_assign(k, g), TypeV::Unit, false),
    decreases k, 7int,
{
    if let ExprKindV::Assign { name, value } = k {
        let c = lowering::lower_value(*value, g, "set! value"@);
        lemma_value(*value, g, "set! value"@, w, env, x);
        let l = lowering::find_local(c.g.locals, name);
        assert(l is Some && storable(w, l->0.ty)) by {
            reveal(around);
        }
        lemma_store(c.g, l->0.ptr, c.r->Ok_0, l->0.ty, w, env, x);
    }
}

proof fn lemma_around_loop(g: GenV, bb: usize, w: CkV, env: Env, x: Seq<usize>)
    requires
        around(g, w, env, x),
    ensures
        around(GenV { loop_exits: g.loop_exits.push(bb), ..g }, w, env, x.push(bb)),
{
    reveal(around);
}

proof fn lemma_while(k: ExprKindV, g: GenV, w: CkV, env: Env, x: Seq<usize>)
    requires
        k is While,
        live(g, w, env, x),
        fitting::fits_kind(k, TypeV::Unit, env, w),
        sure_kind(k, x.len() > 0),
    ensures
        whole(lowering::lower_while(k, g), TypeV::Unit, false),
    decreases k, 7int,
{
    broadcast use group_around;

    if let ExprKindV::While { cond, body } = k {
        let cond_bb = lowering::next(g);
        let g1 = lowering::block(g, "while.cond"@);
        let body_bb = lowering::next(g1);
        let g2 = lowering::block(g1, "while.body"@);
        let end_bb = lowering::next(g2);
        let g3 = lowering::block(g2, "while.end"@);
        let g3b = lowering::go(lowering::step(g3, OpV::Br(cond_bb)), cond_bb);
        let c = lowering::lower_value(*cond, g3b, "while cond"@);
        lemma_value(*cond, g3b, "while cond"@, w, env, x);
        let g4 = lowering::step(c.g, OpV::CondBr { cond: c.r->Ok_0, yes: body_bb, no: end_bb });
        lemma_around_loop(g4, end_bb, w, env, x);
        let g5 = lowering::go(GenV { loop_exits: g4.loop_exits.push(end_bb), ..g4 }, body_bb);
        lemma_expr(*body, ValueUse::Move, g5, w, env, x.push(end_bb));
    }
}

proof fn lemma_loop(k: ExprKindV, g: GenV, w: CkV, env: Env, x: Seq<usize>)
    requires
        k is Loop,
        live(g, w, env, x),
        fitting::fits_kind(k, TypeV::Unit, env, w),
        sure_kind(k, x.len() > 0),
    ensures
        whole(lowering::lower_loop(k, g), TypeV::Unit, false),
    decreases k, 7int,
{
    broadcast use group_around;

    if let ExprKindV::Loop { body } = k {
        let body_bb = lowering::next(g);
        let g1 = lowering::block(g, "loop.body"@);
        let end_bb = lowering::next(g1);
        let g2 = lowering::block(g1, "loop.end"@);
        let g3 = lowering::step(g2, OpV::Br(body_bb));
        lemma_around_loop(g3, end_bb, w, env, x);
        let g4 = lowering::go(GenV { loop_exits: g3.loop_exits.push(end_bb), ..g3 }, body_bb);
        lemma_expr(*body, ValueUse::Move, g4, w, env, x.push(end_bb));
    }
}

proof fn lemma_elems(
    at: LTyV,
    slot: ValV,
    es: Seq<ExprV>,
    i: int,
    g: GenV,
    w: CkV,
    env: Env,
    x: Seq<usize>,
)
    requires
        0 <= i <= es.len(),
        live(g, w, env, x),
        fitting::fits_all(es, env, w),
        sure_values(es, x.len() > 0),
    ensures
        well(lowering::lower_elems(at, slot, es, i, g), w, env, x),
    decreases es, es.len() - i,
{
    broadcast use group_around;

    if i < es.len() {
        let c = lowering::lower_value(es[i], g, "array elem"@);
        lemma_value(es[i], g, "array elem"@, w, env, x);
        let index = ValV::Int(Prim::I32, i as i64);
        let g1 = lowering::step(
            c.g,
            OpV::ElemPtr { ty: at, ptr: slot, index, name: "elemptr"@ },
        );
        let g2 = lowering::step(g1, OpV::Store { ptr: lowering::made(c.g), val: c.r->Ok_0 });
        lemma_elems(at, slot, es, i + 1, g2, w, env, x);
    }
}

/// What is known of a field that is read.
proof fn lemma_field_found(
    base: ExprV,
    field: Seq<char>,
    ty: TypeV,
    g: GenV,
    w: CkV,
    env: Env,
    x: Seq<usize>,
)
    requires
        around(g, w, env, x),
        fitting::fits_kind(ExprKindV::Field { base: Box::new(base), field }, ty, env, w),
    ensures
        base.ty matches Some(TypeV::Named(n)) && w.structs.contains_key(n) && g.structs == w.structs
            && storable(w, TypeV::Named(n)) && ({
            let fields = w.structs[n].fields;
            lowering::field_at(fields, field, 0) matches Some(i) && 0 <= i < fields.len()
                && ast::scalar(fields[i].ty) && ty == fields[i].ty
        }),
        base.kind matches ExprKindV::Var(name) ==> lowering::find_local(g.locals, name) is Some,
{
    reveal(around);
    let n = base.ty->0->Named_0;
    fitting::lemma_find_field(w.structs[n].fields, field, 0);
    if let ExprKindV::Var(name) = base.kind {
        assert(fitting::fits(base, env, w));
        assert(fitting::fits_kind(base.kind, base.ty->0, env, w));
        assert(match lowering::find_local(g.locals, name) {
            Some(y) => env.contains_key(name),
            None => !env.contains_key(name),
        });
    }
}

proof fn lemma_field(k: ExprKindV, ty: TypeV, g: GenV, w: CkV, env: Env, x: Seq<usize>)
    requires
        k is Field,
        live(g, w, env, x),
        fitting::fits_kind(k, ty, env, w),
        sure_kind(k, x.len() > 0),
    ensures
        well(lowering::lower_field(k, g), w, env, x),
        !(ty is Unit),
    decreases k, 7int,
{
    broadcast use group_around;

    if let ExprKindV::Field { base, field } = k {
        lemma_field_found(*base, field, ty, g, w, env, x);
        let n = base.ty->0->Named_0;
        let fields = w.structs[n].fields;
        let i = lowering::field_at(fields, field, 0)->0;
        match lowering::as_var(*base) {
            Some(name) => {
                let l = lowering::find_local(g.locals, name);
                let st = lowering::lower_type(g, TypeV::Named(n))->Ok_0;
                let g1 = lowering::step(
                    g,
                    OpV::FieldPtr { ty: st, ptr: l->0.ptr, index: i as u32, name: field },
                );
                let c = lowering::lower_load(g1, lowering::made(g), ty, field);
                lemma_load(g1, lowering::made(g), ty, field, w, env, x);
                lemma_retain(c.g, c.r->Ok_0, ty, w, env, x);
            },
            None => {
                let c = lowering::lower_value(*base, g, "field base"@);
                lemma_value(*base, g, "field base"@, w, env, x);
                let g1 = lowering::step(
                    c.g,
                    OpV::Extract { agg: c.r->Ok_0, index: i as u32, name: field },
                );
                lemma_retain(g1, lowering::made(c.g), ty, w, env, x);
            },
        }
    }
}

proof fn lemma_pack(g: GenV, v: ValV, ty: TypeV, w: CkV, env: Env, x: Seq<usize>)
    requires
        live(g, w, env, x),
        ast::scalar(ty),
    ensures
        well(lowering::lower_pack(g, v, ty), w, env, x),
        well(lowering::lower_unpack(g, v, ty), w, env, x),
        lowering::lower_unpack(g, v, ty).g.locals == g.locals,
{
    broadcast use group_around;

}

proof fn lemma_arm_blocks(
    arms: Seq<MatchArmV>,
    i: int,
    cases: Seq<(u32, usize)>,
    g: GenV,
    w: CkV,
    env: Env,
    x: Seq<usize>,
)
    requires
        live(g, w, env, x),
        forall|j: int|
            0 <= j < arms.len() ==> w.variants.contains_key((#[trigger] arms[j]).variant),
    ensures
        well(lowering::lower_arm_blocks(arms, i, cases, g), w, env, x),
    decreases arms.len() - i,
{
    broadcast use group_around;

    assert(g.variants == w.variants) by {
        reveal(around);
    }
    if 0 <= i < arms.len() {
        let tag = g.variants[arms[i].variant].tag;
        let g1 = lowering::block(g, "match."@ + arms[i].variant);
        lemma_arm_blocks(arms, i + 1, cases.push((tag, lowering::next(g))), g1, w, env, x);
    }
}

proof fn lemma_arm_binding(arm: MatchArmV, payload: ValV, g: GenV, w: CkV, env: Env, x: Seq<usize>)
    requires
        live(g, w, env, x),
        w.variants.contains_key(arm.variant),
        w.variants[arm.variant].payload is Some <==> arm.binding is Some,
    ensures
        well(lowering::lower_arm_binding(arm, payload, g), w, typing::arm_scope(w, arm, env), x),
        ({
            let h = lowering::lower_arm_binding(arm, payload, g).g;
            h == (GenV { ops: h.ops, locals: h.locals, ended: h.ended, ..g })
        }),
{
    broadcast use group_around;

    assert(g.variants == w.variants && (w.variants[arm.variant].payload is Some ==> ast::scalar(
        w.variants[arm.variant].payload->0,
    ))) by {
        reveal(around);
    }
    if let (Some(pty), Some(name)) = (g.variants[arm.variant].payload, arm.binding) {
        let c = lowering::lower_unpack(g, payload, pty);
        lemma_pack(g, payload, pty, w, env, x);
        let s = lowering::lower_slot(c.g, name, pty);
        lemma_slot(c.g, name, pty, w, env, x);
        let g1 = lowering::step(s.g, OpV::Store { ptr: s.r->Ok_0, val: c.r->Ok_0 });
        lemma_around_with(g1, LocalV { name, ptr: s.r->Ok_0, ty: pty }, w, env, x);
    }
}

#[verifier::rlimit(40)]
proof fn lemma_arms(
    arms: Seq<MatchArmV>,
    i: int,
    cases: Seq<(u32, usize)>,
    payload: ValV,
    merge_bb: usize,
    ty: TypeV,
    incoming: Seq<(ValV, usize)>,
    g: GenV,
    w: CkV,
    env: Env,
    x: Seq<usize>,
)
    requires
        around(g, w, env, x),
        fitting::fits_arms(arms, ty, env, w),
        sure_arms(arms, x.len() > 0),
    ensures
        ({
            let c = lowering::lower_arms(arms, i, cases, payload, merge_bb, ty is Unit, incoming, g);
            c.r is Ok && around(c.g, w, env, x)
        }),
    decreases arms, arms.len() - i,
{
    broadcast use group_around;

    if 0 <= i < arms.len() {
        let arm = arms[i];
        let g1 = lowering::go(g, cases[i].1);
        assert(g1.variants == w.variants) by {
            assert(around(g1, w, env, x));
            reveal(around);
        }
        let inner = typing::arm_scope(w, arm, env);
        let p = lowering::lower_arm_binding(arm, payload, g1);
        lemma_arm_binding(arm, payload, g1, w, env, x);
        let b = lowering::lower(arm.body, ValueUse::Move, p.g);
        lemma_expr(arm.body, ValueUse::Move, p.g, w, inner, x);
        let v = b.r->Ok_0;
        let reached = !b.g.ended;
        let g2 = if reached {
            lowering::step(b.g, OpV::Br(merge_bb))
        } else {
            b.g
        };
        let g3 = match p.r->Ok_0 {
            Some(s) => GenV { locals: lowering::restored(g2.locals, s), ..g2 },
            None => g2,
        };
        assert(around(g3, w, env, x)) by {
            lemma_fits_binds(arm.body, inner, w);
            scopes::law_expression_keeps_scope(arm.body, ValueUse::Move, p.g);
            scripts::law_expression_keeps_context(arm.body, ValueUse::Move, p.g);
            scopes::scope_arm_binding(arm, payload, g1);
            lemma_around_same(g1, g3, w, env, x);
        }
        let more = if reached && !(ty is Unit) {
            incoming.push((v->0, b.g.block))
        } else {
            incoming
        };
        lemma_arms(arms, i + 1, cases, payload, merge_bb, ty, more, g3, w, env, x);
    }
}

#[verifier::rlimit(40)]
proof fn lemma_match(k: ExprKindV, ty: TypeV, g: GenV, w: CkV, env: Env, x: Seq<usize>)
    requires
        k is Match,
        live(g, w, env, x),
        fitting::sound_type(w, ty),
        fitting::fits_kind(k, ty, env, w),
        sure_kind(k, x.len() > 0),
    ensures
        whole(lowering::lower_match(k, ty, g), ty, false),
    decreases k, 7int,
{
    broadcast use group_around;

    if let ExprKindV::Match { scrutinee, arms } = k {
        let c = lowering::lower_value(*scrutinee, g, "match scrutinee"@);
        lemma_value(*scrutinee, g, "match scrutinee"@, w, env, x);
        let ev = c.r->Ok_0;
        let g1 = lowering::step(c.g, OpV::Extract { agg: ev, index: 0, name: "mtag"@ });
        let g2 = lowering::step(g1, OpV::Extract { agg: ev, index: 1, name: "mpayload"@ });
        let merge_bb = lowering::next(g2);
        let g3 = lowering::block(g2, "match.end"@);
        let else_bb = lowering::next(g3);
        let g4 = lowering::block(g3, "match.unreachable"@);
        let b = lowering::lower_arm_blocks(arms, 0, Seq::empty(), g4);
        lemma_arm_blocks(arms, 0, Seq::empty(), g4, w, env, x);
        let cases = b.r->Ok_0;
        let g5 = lowering::step(
            b.g,
            OpV::Switch { val: lowering::made(c.g), default: else_bb, cases },
        );
        let payload = lowering::made(g1);
        let a = lowering::lower_arms(
            arms,
            0,
            cases,
            payload,
            merge_bb,
            ty is Unit,
            Seq::empty(),
            g5,
        );
        lemma_arms(arms, 0, cases, payload, merge_bb, ty, Seq::empty(), g5, w, env, x);
        let g6a = lowering::step(lowering::go(a.g, else_bb), OpV::Unreachable);
        let g6 = lowering::go(g6a, merge_bb);
        assert(around(g6, w, env, x));
        if !(ty is Unit) {
            assert(lowering::lower_type(g6, ty) is Ok);
        }
    }
}

proof fn lemma_fold(
    op: Seq<char>,
    args: Seq<ExprV>,
    i: int,
    acc: ValV,
    ty: TypeV,
    g: GenV,
    w: CkV,
    env: Env,
    x: Seq<usize>,
)
    requires
        0 <= i,
        live(g, w, env, x),
        typing::numeric(ty),
        fitting::fits_all(args, env, w),
        sure_values(args, x.len() > 0),
    ensures
        well(lowering::lower_fold(op, args, i, acc, ty, g), w, env, x),
    decreases args, args.len() - i,
{
    broadcast use group_around;

    if i < args.len() {
        let c = lowering::lower_value(args[i], g, "arith rhs"@);
        lemma_value(args[i], g, "arith rhs"@, w, env, x);
        let d = lowering::lower_bin(c.g, op, acc, c.r->Ok_0, ty);
        lemma_fold(op, args, i + 1, d.r->Ok_0, ty, d.g, w, env, x);
    }
}

proof fn lemma_arith(
    op: Seq<char>,
    args: Seq<ExprV>,
    ty: TypeV,
    g: GenV,
    w: CkV,
    env: Env,
    x: Seq<usize>,
)
    requires
        args.len() > 0,
        live(g, w, env, x),
        typing::numeric(ty),
        fitting::fits_all(args, env, w),
        sure_values(args, x.len() > 0),
    ensures
        well(lowering::lower_arith(op, args, ty, g), w, env, x),
    decreases args, args.len() + 1,
{
    broadcast use group_around;

    lemma_value(args[0], g, "unary -"@, w, env, x);
    lemma_value(args[0], g, "arith identity"@, w, env, x);
    let c = lowering::lower_value(args[0], g, "arith lhs"@);
    lemma_value(args[0], g, "arith lhs"@, w, env, x);
    lemma_fold(op, args, 1, c.r->Ok_0, ty, c.g, w, env, x);
}

proof fn lemma_test(op: Seq<char>, args: Seq<ExprV>, g: GenV, w: CkV, env: Env, x: Seq<usize>)
    requires
        args.len() == 2,
        ast::scalar(args[0].ty->0),
        live(g, w, env, x),
        fitting::fits_all(args, env, w),
        sure_values(args, x.len() > 0),
    ensures
        well(lowering::lower_test(op, args, g), w, env, x),
    decreases args, args.len() + 1,
{
    broadcast use group_around;

    let c = lowering::lower_value(args[0], g, "operand"@);
    lemma_value(args[0], g, "operand"@, w, env, x);
    lemma_value(args[1], c.g, "operand"@, w, env, x);
    assert(fitting::fits(args[0], env, w));
}

proof fn lemma_short(is_and: bool, args: Seq<ExprV>, g: GenV, w: CkV, env: Env, x: Seq<usize>)
    requires
        args.len() == 2,
        live(g, w, env, x),
        fitting::fits_all(args, env, w),
        sure_values(args, x.len() > 0),
    ensures
        well(lowering::lower_short(is_and, args, g), w, env, x),
    decreases args, args.len() + 1,
{
    broadcast use group_around;

    let lhs = if is_and { "and lhs"@ } else { "or lhs"@ };
    let rhs = if is_and { "and rhs"@ } else { "or rhs"@ };
    let c = lowering::lower_value(args[0], g, lhs);
    lemma_value(args[0], g, lhs, w, env, x);
    let a = c.r->Ok_0;
    let rhs_bb = lowering::next(c.g);
    let g1 = lowering::block(c.g, if is_and { "and.rhs"@ } else { "or.rhs"@ });
    let merge_bb = lowering::next(g1);
    let g2 = lowering::block(g1, if is_and { "and.end"@ } else { "or.end"@ });
    let g3 = if is_and {
        lowering::step(g2, OpV::CondBr { cond: a, yes: rhs_bb, no: merge_bb })
    } else {
        lowering::step(g2, OpV::CondBr { cond: a, yes: merge_bb, no: rhs_bb })
    };
    lemma_value(args[1], lowering::go(g3, rhs_bb), rhs, w, env, x);
}

proof fn lemma_print(args: Seq<ExprV>, newline: bool, g: GenV, w: CkV, env: Env, x: Seq<usize>)
    requires
        args.len() == 1,
        typing::printable(args[0].ty->0),
        live(g, w, env, x),
        fitting::fits_all(args, env, w),
        sure_values(args, x.len() > 0),
    ensures
        well(lowering::lower_print(args, newline, g), w, env, x),
    decreases args, args.len() + 1,
{
    broadcast use group_around;

    assert(fitting::fits(args[0], env, w));
    let ty = args[0].ty->0;
    let c = lowering::lower_value(args[0], g, "print arg"@);
    lemma_value(args[0], g, "print arg"@, w, env, x);
    let v = c.r->Ok_0;
    if ty is Str {
        let p = lowering::lower_rt(c.g, "risp_str_cstr"@, seq![v], "risp_str_cstr"@);
        lemma_rt(c.g, "risp_str_cstr"@, seq![v], "risp_str_cstr"@, w, env, x);
        let cstr = p.r->Ok_0;
        if newline {
            let d = lowering::lower_rt(p.g, "__puts"@, seq![cstr], "putscall"@);
            lemma_rt(p.g, "__puts"@, seq![cstr], "putscall"@, w, env, x);
            lemma_drop(d.g, v, TypeV::Str, w, env, x);
        } else {
            let g1 = lowering::lower_text(p.g, "%s"@);
            let both = seq![lowering::made(p.g), cstr];
            let d = lowering::lower_rt(g1, "__printf"@, both, "printfcall"@);
            lemma_rt(g1, "__printf"@, both, "printfcall"@, w, env, x);
            lemma_drop(d.g, v, TypeV::Str, w, env, x);
        }
    } else {
        let d = lowering::lower_print_arg(c.g, v, ty);
        assert(well(d, w, env, x));
        let fa = d.r->Ok_0;
        let fmt = if newline {
            fa.0 + "\n"@
        } else {
            fa.0
        };
        let both = seq![lowering::made(d.g), fa.1];
        lemma_rt(lowering::lower_text(d.g, fmt), "__printf"@, both, "printfcall"@, w, env, x);
    }
}

proof fn lemma_concat(args: Seq<ExprV>, g: GenV, w: CkV, env: Env, x: Seq<usize>)
    requires
        args.len() == 2,
        live(g, w, env, x),
        fitting::fits_all(args, env, w),
        sure_values(args, x.len() > 0),
    ensures
        well(lowering::lower_concat(args, g), w, env, x),
    decreases args, args.len() + 1,
{
    let c = lowering::lower_value(args[0], g, "str-concat a"@);
    lemma_value(args[0], g, "str-concat a"@, w, env, x);
    let d = lowering::lower_value(args[1], c.g, "str-concat b"@);
    lemma_value(args[1], c.g, "str-concat b"@, w, env, x);
    let a = c.r->Ok_0;
    let b = d.r->Ok_0;
    let y = lowering::lower_rt(d.g, "risp_str_concat"@, seq![a, b], "strconcat"@);
    lemma_rt(d.g, "risp_str_concat"@, seq![a, b], "strconcat"@, w, env, x);
    let z = lowering::lower_drop(y.g, a, TypeV::Str);
    lemma_drop(y.g, a, TypeV::Str, w, env, x);
    lemma_drop(z.g, b, TypeV::Str, w, env, x);
}

proof fn lemma_str_len(args: Seq<ExprV>, g: GenV, w: CkV, env: Env, x: Seq<usize>)
    requires
        args.len() == 1,
        live(g, w, env, x),
        fitting::fits_all(args, env, w),
        sure_values(args, x.len() > 0),
    ensures
        well(lowering::lower_str_len(args, g), w, env, x),
    decreases args, args.len() + 1,
{
    let c = lowering::lower_value(args[0], g, "str-len"@);
    lemma_value(args[0], g, "str-len"@, w, env, x);
    let a = c.r->Ok_0;
    let y = lowering::lower_rt(c.g, "risp_str_len"@, seq![a], "strlen"@);
    lemma_rt(c.g, "risp_str_len"@, seq![a], "strlen"@, w, env, x);
    lemma_drop(y.g, a, TypeV::Str, w, env, x);
}

proof fn lemma_aget(args: Seq<ExprV>, g: GenV, w: CkV, env: Env, x: Seq<usize>)
    requires
        args.len() == 2,
        args[0].ty->0 is Array,
        live(g, w, env, x),
        fitting::fits_all(args, env, w),
        sure_values(args, x.len() > 0),
    ensures
        well(lowering::lower_aget(args, g), w, env, x),
    decreases args, args.len() + 1,
{
    broadcast use group_around;

    assert(fitting::fits(args[0], env, w));
    if let TypeV::Array { elem, len } = args[0].ty->0 {
        let c = lowering::lower_value(args[0], g, "aget arr"@);
        lemma_value(args[0], g, "aget arr"@, w, env, x);
        let d = lowering::lower_value(args[1], c.g, "aget idx"@);
        lemma_value(args[1], c.g, "aget idx"@, w, env, x);
        let at = lowering::lower_array_type(*elem, len)->Ok_0;
        let g1 = lowering::step(
            d.g,
            OpV::ElemPtr { ty: at, ptr: c.r->Ok_0, index: d.r->Ok_0, name: "agetptr"@ },
        );
        lemma_load(g1, lowering::made(d.g), *elem, "aget"@, w, env, x);
    }
}

proof fn lemma_aset(args: Seq<ExprV>, g: GenV, w: CkV, env: Env, x: Seq<usize>)
    requires
        args.len() == 3,
        args[0].ty->0 is Array,
        live(g, w, env, x),
        fitting::fits_all(args, env, w),
        sure_values(args, x.len() > 0),
    ensures
        well(lowering::lower_aset(args, g), w, env, x),
    decreases args, args.len() + 1,
{
    broadcast use group_around;

    assert(fitting::fits(args[0], env, w));
    let c = lowering::lower_value(args[0], g, "aset! arr"@);
    lemma_value(args[0], g, "aset! arr"@, w, env, x);
    let d = lowering::lower_value(args[1], c.g, "aset! idx"@);
    lemma_value(args[1], c.g, "aset! idx"@, w, env, x);
    lemma_value(args[2], d.g, "aset! val"@, w, env, x);
}

proof fn lemma_fields(
    fields: Seq<FieldDefV>,
    args: Seq<ExprV>,
    i: int,
    agg: ValV,
    g: GenV,
    w: CkV,
    env: Env,
    x: Seq<usize>,
)
    requires
        0 <= i,
        live(g, w, env, x),
        fitting::fits_all(args, env, w),
        sure_values(args, x.len() > 0),
    ensures
        well(lowering::lower_fields(fields, args, i, agg, g), w, env, x),
    decreases args, args.len() - i,
{
    broadcast use group_around;

    if i < args.len() && i < fields.len() {
        let c = lowering::lower_value(args[i], g, "struct field"@);
        lemma_value(args[i], g, "struct field"@, w, env, x);
        let g1 = lowering::step(
            c.g,
            OpV::Insert { agg, val: c.r->Ok_0, index: i as u32, name: fields[i].name },
        );
        lemma_fields(fields, args, i + 1, lowering::made(c.g), g1, w, env, x);
    }
}

proof fn lemma_variant(
    info: VariantInfoV,
    args: Seq<ExprV>,
    g: GenV,
    w: CkV,
    env: Env,
    x: Seq<usize>,
)
    requires
        info.payload is Some ==> ast::scalar(info.payload->0) && args.len() == 1,
        live(g, w, env, x),
        fitting::fits_all(args, env, w),
        sure_values(args, x.len() > 0),
    ensures
        well(lowering::lower_variant(info, args, g), w, env, x),
    decreases args, args.len() + 1,
{
    broadcast use group_around;

    if let Some(pty) = info.payload {
        let c = lowering::lower_value(args[0], g, "variant payload"@);
        lemma_value(args[0], g, "variant payload"@, w, env, x);
        lemma_pack(c.g, c.r->Ok_0, pty, w, env, x);
    }
}

proof fn lemma_call_args(
    args: Seq<ExprV>,
    i: int,
    params: Seq<TypeV>,
    foreign: bool,
    acc: Seq<ValV>,
    owned: Seq<ValV>,
    g: GenV,
    w: CkV,
    env: Env,
    x: Seq<usize>,
)
    requires
        live(g, w, env, x),
        fitting::fits_all(args, env, w),
        sure_values(args, x.len() > 0),
    ensures
        well(lowering::lower_call_args(args, i, params, foreign, acc, owned, g), w, env, x),
    decreases args, args.len() - i,
{
    if 0 <= i < args.len() {
        let c = lowering::lower_value(args[i], g, "call argument"@);
        lemma_value(args[i], g, "call argument"@, w, env, x);
        let v = c.r->Ok_0;
        if foreign && i < params.len() && params[i] is Str {
            let d = lowering::lower_rt(c.g, "risp_str_cstr"@, seq![v], "risp_str_cstr"@);
            lemma_rt(c.g, "risp_str_cstr"@, seq![v], "risp_str_cstr"@, w, env, x);
            let more = acc.push(d.r->Ok_0);
            lemma_call_args(args, i + 1, params, foreign, more, owned.push(v), d.g, w, env, x);
        } else {
            lemma_call_args(args, i + 1, params, foreign, acc.push(v), owned, c.g, w, env, x);
        }
    }
}

proof fn lemma_drop_all(vs: Seq<ValV>, i: int, g: GenV, w: CkV, env: Env, x: Seq<usize>)
    requires
        live(g, w, env, x),
    ensures
        well(lowering::lower_drop_all(vs, i, g), w, env, x),
    decreases vs.len() - i,
{
    if 0 <= i < vs.len() {
        let c = lowering::lower_drop(g, vs[i], TypeV::Str);
        lemma_drop(g, vs[i], TypeV::Str, w, env, x);
        lemma_drop_all(vs, i + 1, c.g, w, env, x);
    }
}

proof fn lemma_fn_call(
    callee: Seq<char>,
    args: Seq<ExprV>,
    g: GenV,
    w: CkV,
    env: Env,
    x: Seq<usize>,
)
    requires
        w.fns.contains_key(callee),
        live(g, w, env, x),
        fitting::fits_all(args, env, w),
        sure_values(args, x.len() > 0),
    ensures
        whole(lowering::lower_fn_call(callee, args, g), w.fns[callee].ret, false),
    decreases args, args.len() + 1,
{
    broadcast use group_around;

    assert(g.fns.contains_key(callee) && g.fn_types.contains_key(callee) && g.fn_types[callee]
        == w.fns[callee]) by {
        reveal(around);
    }
    let sig = g.fn_types[callee];
    let foreign = g.externs.contains_key(callee);
    let none = Seq::<ValV>::empty();
    let c = lowering::lower_call_args(args, 0, sig.params, foreign, none, none, g);
    lemma_call_args(args, 0, sig.params, foreign, none, none, g, w, env, x);
    let av = c.r->Ok_0;
    let g1 = lowering::step(
        c.g,
        OpV::Call { func: g.fns[callee], args: av.0, name: "calltmp"@ },
    );
    let d = lowering::lower_drop_all(av.1, 0, g1);
    lemma_drop_all(av.1, 0, g1, w, env, x);
    let back = seq![lowering::made(c.g)];
    lemma_rt(d.g, "risp_str_from_cstr"@, back, "risp_str_from_cstr"@, w, env, x);
}

proof fn lemma_operator(
    op: Seq<char>,
    args: Seq<ExprV>,
    ty: TypeV,
    g: GenV,
    w: CkV,
    env: Env,
    x: Seq<usize>,
)
    requires
        operator(op),
        live(g, w, env, x),
        fitting::fits_all(args, env, w),
        fitting::fits_builtin(op, args, ty),
        sure_values(args, x.len() > 0),
    ensures
        whole(lowering::lower_call(op, args, ty, g), ty, false),
    decreases args, args.len() + 2,
{
    let c = lowering::lower_call(op, args, ty, g);
    lemma_builtins_differ();
    if op == "+"@ || op == "-"@ || op == "*"@ || op == "/"@ || op == "mod"@ {
        lemma_arith(op, args, ty, g, w, env, x);
        assert(c == lowering::valued(lowering::lower_arith(op, args, ty, g)));
    } else if typing::comparison(op) {
        lemma_test(op, args, g, w, env, x);
        assert(c == lowering::valued(lowering::lower_test(op, args, g)));
    } else if op == "and"@ || op == "or"@ {
        lemma_short(op == "and"@, args, g, w, env, x);
        assert(c == lowering::valued(lowering::lower_short(op == "and"@, args, g)));
    } else {
        lemma_value(args[0], g, "operand"@, w, env, x);
        assert(c == lowering::valued(lowering::lower_not(args, g)));
    }
}

/// Arithmetic, comparisons and logic.
spec fn operator(op: Seq<char>) -> bool {
    ||| op == "+"@ || op == "-"@ || op == "*"@ || op == "/"@ || op == "mod"@
    ||| typing::comparison(op)
    ||| op == "and"@ || op == "or"@ || op == "not"@
}

proof fn lemma_print_or_text(
    op: Seq<char>,
    args: Seq<ExprV>,
    ty: TypeV,
    g: GenV,
    w: CkV,
    env: Env,
    x: Seq<usize>,
)
    requires
        !operator(op),
        op == "print"@ || op == "println"@ || op == "str-concat"@ || op == "str-len"@,
        live(g, w, env, x),
        fitting::fits_all(args, env, w),
        fitting::fits_builtin(op, args, ty),
        sure_values(args, x.len() > 0),
    ensures
        whole(lowering::lower_call(op, args, ty, g), ty, false),
    decreases args, args.len() + 2,
{
    let c = lowering::lower_call(op, args, ty, g);
    lemma_builtins_differ();
    if op == "str-concat"@ {
        lemma_concat(args, g, w, env, x);
        assert(c == lowering::valued(lowering::lower_concat(args, g)));
    } else if op == "str-len"@ {
        lemma_str_len(args, g, w, env, x);
        assert(c == lowering::valued(lowering::lower_str_len(args, g)));
    } else {
        lemma_print(args, op == "println"@, g, w, env, x);
        assert(c == lowering::valueless(lowering::lower_print(args, op == "println"@, g)));
    }
}

proof fn lemma_array_access(
    op: Seq<char>,
    args: Seq<ExprV>,
    ty: TypeV,
    g: GenV,
    w: CkV,
    env: Env,
    x: Seq<usize>,
)
    requires
        !operator(op),
        op != "print"@ && op != "println"@ && op != "str-concat"@ && op != "str-len"@,
        op == "aget"@ || op == "aset!"@ || op == "alen"@,
        live(g, w, env, x),
        fitting::fits_all(args, env, w),
        fitting::fits_builtin(op, args, ty),
        sure_values(args, x.len() > 0),
    ensures
        whole(lowering::lower_call(op, args, ty, g), ty, false),
    decreases args, args.len() + 2,
{
    let c = lowering::lower_call(op, args, ty, g);
    lemma_builtins_differ();
    assert(fitting::fits(args[0], env, w));
    if op == "aget"@ {
        lemma_aget(args, g, w, env, x);
        assert(c == lowering::valued(lowering::lower_aget(args, g)));
    } else if op == "aset!"@ {
        lemma_aset(args, g, w, env, x);
        assert(c == lowering::valueless(lowering::lower_aset(args, g)));
    } else {
        lemma_expr(args[0], ValueUse::Move, g, w, env, x);
        assert(c == lowering::valued(lowering::lower_alen(args, g)));
    }
}

#[verifier::rlimit(40)]
proof fn lemma_call(
    callee: Seq<char>,
    args: Seq<ExprV>,
    ty: TypeV,
    g: GenV,
    w: CkV,
    env: Env,
    x: Seq<usize>,
)
    requires
        live(g, w, env, x),
        fitting::fits_all(args, env, w),
        fitting::fits_call(callee, args, ty, w),
        sure_values(args, x.len() > 0),
    ensures
        whole(lowering::lower_call(callee, args, ty, g), ty, false),
    decreases args, args.len() + 3,
{
    broadcast use group_around;

    if typing::builtin_name(callee) {
        if operator(callee) {
            lemma_operator(callee, args, ty, g, w, env, x);
        } else if callee == "print"@ || callee == "println"@ || callee == "str-concat"@ || callee
            == "str-len"@ {
            lemma_print_or_text(callee, args, ty, g, w, env, x);
        } else {
            lemma_array_access(callee, args, ty, g, w, env, x);
        }
    } else {
        assert(g.structs == w.structs && g.variants == w.variants && typing::plain_types(w)) by {
            reveal(around);
        }
        if w.structs.contains_key(callee) {
            assert(storable(w, TypeV::Named(callee)));
            let st = lowering::lower_type(g, TypeV::Named(callee))->Ok_0;
            lemma_fields(g.structs[callee].fields, args, 0, ValV::Undef(st), g, w, env, x);
        } else if w.variants.contains_key(callee) {
            lemma_variant(w.variants[callee], args, g, w, env, x);
        } else {
            lemma_fn_call(callee, args, g, w, env, x);
        }
    }
}

/// The builtins are told apart by their names.
proof fn lemma_builtins_differ()
    ensures
        "and"@ != "or"@,
        "print"@ != "println"@,
        "print"@ != "str-concat"@,
        "print"@ != "str-len"@,
        "println"@ != "str-concat"@,
        "println"@ != "str-len"@,
        "str-concat"@ != "str-len"@,
        "aget"@ != "aset!"@,
        "alen"@ != "aget"@,
        "alen"@ != "aset!"@,
{
    reveal_strlit("and");
    reveal_strlit("or");
    reveal_strlit("print");
    reveal_strlit("println");
    reveal_strlit("str-concat");
    reveal_strlit("str-len");
    reveal_strlit("aget");
    reveal_strlit("aset!");
    reveal_strlit("alen");
    assert("and"@.len() != "or"@.len());
    assert("print"@.len() != "println"@.len());
    assert("print"@.len() == 5 && "str-concat"@.len() == 10 && "str-len"@.len() == 7);
    assert("println"@[0] != "str-len"@[0]);
    assert("println"@.len() == 7);
    assert("aget"@.len() != "aset!"@.len());
    assert("alen"@.len() != "aset!"@.len());
    assert("alen"@[1] != "aget"@[1]);
}

/// An accepted expression is lowered without an error. `w` is what is known in the end,
/// and what the code generator goes by. It must be in order and keep names apart, and
/// in the expression all that is used as a value must have one. The expression then has
/// a value if it is not of type `unit` and does not end the block.
pub proof fn law_accepted_expression_is_lowered(
    gas: nat,
    e: ExprV,
    env: Env,
    s: CkV,
    w: CkV,
    mode: ValueUse,
    g: GenV,
)
    requires
        typing::check(gas, e, env, s).r is Ok,
        fitting::within(s, w),
        fitting::instances_within(typing::check(gas, e, env, s).s, w),
        fitting::in_order(w),
        fitting::apart(w),
        prepared(g, w),
        holds(g.locals, env, w),
        !g.ended,
        s.in_loop ==> g.loop_exits.len() > 0,
        filled(typing::check(gas, e, env, s).node),
    ensures
        ({
            let node = typing::check(gas, e, env, s).node;
            let c = lowering::lower(node, mode, g);
            &&& c.r is Ok
            &&& c.g.ended == cuts(node)
            &&& c.r->Ok_0 is Some <==> yields(node)
            &&& prepared(c.g, w)
            &&& holds(c.g.locals, env, w)
        }),
{
    reveal(around);
    assert forall|n: Seq<char>| #[trigger] env.contains_key(n) implies fitting::sound_type(
        w,
        env[n],
    ) by {
        assert(match lowering::find_local(g.locals, n) {
            Some(l) => env.contains_key(n) && l.ty == env[n] && storable(w, l.ty),
            None => !env.contains_key(n),
        });
    }
    fitting::law_accepted_expression_fits(gas, e, env, s, w);
    typed::law_accepted_expression_is_typed(gas, e, env, s);
    lemma_sure(typing::check(gas, e, env, s).node, s.in_loop, g.loop_exits.len() > 0);
    lemma_expr(typing::check(gas, e, env, s).node, mode, g, w, env, g.loop_exits);
}

/// A call of a function to itself can be lowered, which needs what has been set up for
/// the function.
spec fn tail_ready(g: GenV, w: CkV) -> bool {
    &&& g.loop_header is Some
    &&& g.current_fn matches Some(n) && w.fns.contains_key(n) && g.param_names.len()
        == w.fns[n].params.len()
    &&& forall|i: int|
        0 <= i < g.param_names.len() ==> {
            let l = lowering::find_local(g.param_locals, #[trigger] g.param_names[i]);
            l is Some && storable(w, l->0.ty)
        }
}

proof fn lemma_release_locals(
    g: GenV,
    ls: Seq<LocalV>,
    i: int,
    kept: Seq<LocalV>,
    name: Seq<char>,
    again: bool,
    w: CkV,
    env: Env,
    x: Seq<usize>,
)
    requires
        live(g, w, env, x),
    ensures
        well(lowering::lower_release_locals(g, ls, i, kept, name, again), w, env, x),
    decreases ls.len() - i,
{
    broadcast use group_around;

    if 0 <= i < ls.len() {
        if lowering::needs_drop(ls[i].ty) && lowering::find_local(kept, ls[i].name) is None {
            let c = lowering::lower_release(g, ls[i].ptr, ls[i].ty, name);
            lemma_release(g, ls[i].ptr, ls[i].ty, name, w, env, x);
            let empty = lowering::step(c.g, OpV::Store { ptr: ls[i].ptr, val: ValV::Null });
            let h = if again {
                empty
            } else {
                c.g
            };
            lemma_release_locals(h, ls, i + 1, kept, name, again, w, env, x);
        } else {
            lemma_release_locals(g, ls, i + 1, kept, name, again, w, env, x);
        }
    }
}

proof fn lemma_return(g: GenV, v: Option<ValV>, ret: TypeV, w: CkV, env: Env, x: Seq<usize>)
    requires
        live(g, w, env, x),
        ret is Unit || v is Some,
    ensures
        lowering::lower_return(g, v, ret).r is Ok,
{
    lemma_release_locals(g, g.locals, 0, Seq::empty(), "drop.local"@, false, w, env, x);
}

proof fn lemma_args(
    args: Seq<ExprV>,
    i: int,
    acc: Seq<ValV>,
    g: GenV,
    msg: Seq<char>,
    w: CkV,
    env: Env,
    x: Seq<usize>,
)
    requires
        live(g, w, env, x),
        fitting::fits_all(args, env, w),
        sure_values(args, x.len() > 0),
    ensures
        well(lowering::lower_args(args, i, acc, g, msg), w, env, x),
    decreases args, args.len() - i,
{
    if 0 <= i < args.len() {
        let c = lowering::lower_value(args[i], g, msg);
        lemma_value(args[i], g, msg, w, env, x);
        lemma_args(args, i + 1, acc.push(c.r->Ok_0), c.g, msg, w, env, x);
    }
}

proof fn lemma_new_params(
    names: Seq<Seq<char>>,
    vs: Seq<ValV>,
    i: int,
    g: GenV,
    w: CkV,
    env: Env,
    x: Seq<usize>,
)
    requires
        live(g, w, env, x),
        forall|k: int|
            0 <= k < names.len() ==> {
                let l = lowering::find_local(g.param_locals, #[trigger] names[k]);
                l is Some && storable(w, l->0.ty)
            },
    ensures
        well(lowering::lower_new_params(names, vs, i, g), w, env, x),
    decreases names.len() - i,
{
    if 0 <= i < names.len() && i < vs.len() {
        let l = lowering::find_local(g.param_locals, names[i])->0;
        let c = lowering::lower_store(g, l.ptr, vs[i], l.ty);
        lemma_store(g, l.ptr, vs[i], l.ty, w, env, x);
        lemma_new_params(names, vs, i + 1, c.g, w, env, x);
    }
}

proof fn lemma_self_call(args: Seq<ExprV>, g: GenV, w: CkV, env: Env, x: Seq<usize>)
    requires
        live(g, w, env, x),
        tail_ready(g, w),
        args.len() == g.param_names.len(),
        fitting::fits_all(args, env, w),
        sure_values(args, x.len() > 0),
    ensures
        lowering::lower_self_call(args, g).r is Ok,
{
    let c = lowering::lower_args(args, 0, Seq::empty(), g, "tco arg"@);
    lemma_args(args, 0, Seq::empty(), g, "tco arg"@, w, env, x);
    scripts::keeps_args(args, 0, Seq::empty(), g, "tco arg"@);
    let ls = c.g.locals;
    let pl = c.g.param_locals;
    let d = lowering::lower_release_locals(c.g, ls, 0, pl, "tco.drop"@, true);
    lemma_release_locals(c.g, ls, 0, pl, "tco.drop"@, true, w, env, x);
    scripts::keeps_release_locals(c.g, ls, 0, pl, "tco.drop"@, true);
    let y = lowering::lower_new_params(d.g.param_names, c.r->Ok_0, 0, d.g);
    lemma_new_params(d.g.param_names, c.r->Ok_0, 0, d.g, w, env, x);
    scripts::keeps_new_params(d.g.param_names, c.r->Ok_0, 0, d.g);
}

/// Outside of loops nothing ends a block early.
proof fn lemma_uncut(e: ExprV)
    requires
        sure(e, false),
    ensures
        !cuts(e),
    decreases e,
{
    match e.kind {
        ExprKindV::If { cond, then_branch, else_branch } => lemma_uncut(*then_branch),
        ExprKindV::Let { bindings, body } => lemma_uncut(*body),
        ExprKindV::Do(es) => lemma_uncut_before(es, es.len() as int),
        _ => {},
    }
}

proof fn lemma_uncut_before(es: Seq<ExprV>, n: int)
    requires
        sure_steps(es, false),
        0 <= n <= es.len(),
    ensures
        !cut_before(es, n),
        n == es.len() ==> !cuts_any(es),
    decreases es, n,
{
    if n > 0 {
        lemma_uncut_before(es, n - 1);
        lemma_uncut(es[n - 1]);
        assert(!cut_before(es, n)) by {
            if cut_before(es, n) {
                let i = choose|i: int| 0 <= i < n && cuts(#[trigger] es[i]);
                if i < n - 1 {
                    assert(cut_before(es, n - 1));
                }
            }
        }
    }
}

proof fn lemma_tail_do(es: Seq<ExprV>, i: int, g: GenV, w: CkV, env: Env, x: Seq<usize>)
    requires
        0 <= i,
        live(g, w, env, x),
        fitting::fits_all(es, env, w),
        sure_steps(es, false),
        x.len() == 0,
    ensures
        well(lowering::lower_tail_do(es, i, g), w, env, x),
    decreases es.len() - i,
{
    if i < es.len() - 1 {
        lemma_uncut_before(es, i);
        assert(sure(es[i], false));
        lemma_uncut(es[i]);
        let c = lowering::lower(es[i], ValueUse::Move, g);
        lemma_expr(es[i], ValueUse::Move, g, w, env, x);
        let v = c.r->Ok_0;
        let d = lowering::lower_unused(c.g, es[i], v);
        if v is Some {
            lemma_drop(c.g, v->0, es[i].ty->0, w, env, x);
        }
        lemma_tail_do(es, i + 1, d.g, w, env, x);
    }
}

/// What comes of an expression in tail position.
spec fn tail_well(e: ExprV, ret: TypeV, g: GenV, w: CkV, env: Env, x: Seq<usize>) -> bool {
    let c = lowering::lower_tail(e, ret, g);
    c.r is Ok && around(c.g, w, env, x)
}

/// What an expression in tail position must meet.
spec fn tail_fits(e: ExprV, ret: TypeV, g: GenV, w: CkV, env: Env, x: Seq<usize>) -> bool {
    &&& live(g, w, env, x)
    &&& tail_ready(g, w)
    &&& fitting::apart(w)
    &&& fitting::fits(e, env, w)
    &&& e.ty == Some(ret)
    &&& sure(e, false)
    &&& x.len() == 0
}

proof fn lemma_tail_returned(e: ExprV, ret: TypeV, g: GenV, w: CkV, env: Env, x: Seq<usize>)
    requires
        tail_fits(e, ret, g, w, env, x),
    ensures
        ({
            let c = lowering::lower(e, ValueUse::Move, g);
            c.r is Ok && lowering::lower_return(c.g, c.r->Ok_0, ret).r is Ok
        }),
{
    let c = lowering::lower(e, ValueUse::Move, g);
    lemma_uncut(e);
    lemma_expr(e, ValueUse::Move, g, w, env, x);
    lemma_return(c.g, c.r->Ok_0, ret, w, env, x);
}

proof fn lemma_tail_call(e: ExprV, ret: TypeV, g: GenV, w: CkV, env: Env, x: Seq<usize>)
    requires
        e.kind is Call,
        tail_fits(e, ret, g, w, env, x),
    ensures
        lowering::lower_tail(e, ret, g).r is Ok,
{
    if let ExprKindV::Call { callee, args } = e.kind {
        if g.current_fn == Some(callee) {
            assert(fitting::fits_kind(e.kind, ret, env, w));
            assert(sure_kind(e.kind, false));
            lemma_self_call(args, g, w, env, x);
        } else {
            lemma_tail_returned(e, ret, g, w, env, x);
        }
    }
}

proof fn lemma_tail_if(e: ExprV, ret: TypeV, g: GenV, w: CkV, env: Env, x: Seq<usize>)
    requires
        e.kind is If,
        tail_fits(e, ret, g, w, env, x),
    ensures
        lowering::lower_tail(e, ret, g).r is Ok,
    decreases e, 0int,
{
    broadcast use group_around;

    if let ExprKindV::If { cond, then_branch, else_branch } = e.kind {
        assert(fitting::fits_kind(e.kind, ret, env, w));
        assert(sure_kind(e.kind, false));
        let c = lowering::lower_value(*cond, g, "if cond"@);
        lemma_value(*cond, g, "if cond"@, w, env, x);
        lemma_value_context(*cond, g, "if cond"@);
        let then_bb = lowering::next(c.g);
        let g1 = lowering::block(c.g, "then.tail"@);
        let else_bb = lowering::next(g1);
        let g2 = lowering::block(g1, "else.tail"@);
        let g3 = lowering::step(g2, OpV::CondBr { cond: c.r->Ok_0, yes: then_bb, no: else_bb });
        let g4 = lowering::go(g3, then_bb);
        let t = lowering::lower_tail(*then_branch, ret, g4);
        lemma_tail(*then_branch, ret, g4, w, env, x);
        scripts::law_tail_keeps_context(*then_branch, ret, g4);
        let g5 = lowering::go(t.g, else_bb);
        lemma_tail(*else_branch, ret, g5, w, env, x);
    }
}

proof fn lemma_value_context(e: ExprV, g: GenV, msg: Seq<char>)
    ensures
        ({
            let c = lowering::lower_value(e, g, msg);
            c.r is Ok ==> scripts::same_context(g, c.g)
        }),
{
    scripts::law_expression_keeps_context(e, ValueUse::Move, g);
}

proof fn lemma_tail_let(e: ExprV, ret: TypeV, g: GenV, w: CkV, env: Env, x: Seq<usize>)
    requires
        e.kind is Let,
        tail_fits(e, ret, g, w, env, x),
    ensures
        lowering::lower_tail(e, ret, g).r is Ok,
    decreases e, 0int,
{
    if let ExprKindV::Let { bindings, body } = e.kind {
        assert(fitting::fits_kind(e.kind, ret, env, w));
        assert(sure_kind(e.kind, false));
        let inner = fitting::scope_with(env, bindings, bindings.len() as int);
        let c = lowering::lower_bindings(bindings, 0, Seq::empty(), g);
        lemma_bindings(bindings, 0, Seq::empty(), g, w, env, x);
        scripts::keeps_bindings(bindings, 0, Seq::empty(), g);
        lemma_tail(*body, ret, c.g, w, inner, x);
    }
}

proof fn lemma_tail_sequence(e: ExprV, ret: TypeV, g: GenV, w: CkV, env: Env, x: Seq<usize>)
    requires
        e.kind is Do,
        tail_fits(e, ret, g, w, env, x),
    ensures
        lowering::lower_tail(e, ret, g).r is Ok,
    decreases e, 0int,
{
    if let ExprKindV::Do(es) = e.kind {
        assert(fitting::fits_kind(e.kind, ret, env, w));
        assert(sure_kind(e.kind, false));
        if es.len() == 0 {
            lemma_return(g, None, ret, w, env, x);
        } else {
            let n = es.len() - 1;
            let c = lowering::lower_tail_do(es, 0, g);
            lemma_tail_do(es, 0, g, w, env, x);
            scripts::keeps_tail_do(es, 0, g);
            lemma_uncut_before(es, n);
            assert(sure(es[n], false));
            assert(fitting::fits(es[n], env, w));
            lemma_tail(es[n], ret, c.g, w, env, x);
        }
    }
}

proof fn lemma_tail(e: ExprV, ret: TypeV, g: GenV, w: CkV, env: Env, x: Seq<usize>)
    requires
        tail_fits(e, ret, g, w, env, x),
    ensures
        tail_well(e, ret, g, w, env, x),
    decreases e, 1int,
{
    if e.kind is If {
        lemma_tail_if(e, ret, g, w, env, x);
    } else if e.kind is Let {
        lemma_tail_let(e, ret, g, w, env, x);
    } else if e.kind is Do {
        lemma_tail_sequence(e, ret, g, w, env, x);
    } else if e.kind is Call {
        lemma_tail_call(e, ret, g, w, env, x);
    } else {
        lemma_tail_returned(e, ret, g, w, env, x);
    }
    let c = lowering::lower_tail(e, ret, g);
    lemma_fits_binds(e, env, w);
    assert(g.variants == w.variants) by {
        reveal(around);
    }
    scopes::law_tail_keeps_scope(e, ret, g);
    scripts::law_tail_keeps_context(e, ret, g);
    lemma_around_same(g, c.g, w, env, x);
}

proof fn lemma_scope_has(params: Seq<ParamV>, i: int)
    requires
        0 <= i < params.len(),
    ensures
        typing::scope_of(params).contains_key(params[i].name),
    decreases params.len(),
{
    if i < params.len() - 1 {
        assert(params.drop_last()[i] == params[i]);
        lemma_scope_has(params.drop_last(), i);
    }
}

pub open spec fn storable_params(w: CkV, params: Seq<ParamV>) -> bool {
    forall|i: int| 0 <= i < params.len() ==> storable(w, (#[trigger] params[i]).ty)
}

/// Whether the first `n` names are those of parameters.
spec fn named_like(names: Seq<Seq<char>>, params: Seq<ParamV>) -> bool {
    forall|k: int| 0 <= k < names.len() ==> (#[trigger] names[k]) == params[k].name
}

proof fn lemma_params(params: Seq<ParamV>, i: int, g: GenV, w: CkV, x: Seq<usize>)
    requires
        0 <= i <= params.len(),
        live(g, w, typing::scope_of(params.take(i)), x),
        g.param_names.len() == i,
        named_like(g.param_names, params),
        storable_params(w, params),
    ensures
        ({
            let c = lowering::lower_params(params, i, g);
            &&& well(c, w, typing::scope_of(params), x)
            &&& c.g.param_names.len() == params.len()
            &&& named_like(c.g.param_names, params)
        }),
    decreases params.len() - i,
{
    broadcast use group_around;

    if i < params.len() {
        let p = params[i];
        let env = typing::scope_of(params.take(i));
        let c = lowering::lower_slot(g, p.name, p.ty);
        lemma_slot(g, p.name, p.ty, w, env, x);
        let slot = c.r->Ok_0;
        let g1 = lowering::step(c.g, OpV::Store { ptr: slot, val: ValV::Arg(i as u32) });
        let l = LocalV { name: p.name, ptr: slot, ty: p.ty };
        lemma_around_with(g1, l, w, env, x);
        assert(params.take(i + 1).drop_last() =~= params.take(i));
        assert(params.take(i + 1).last() == p);
        let g2 = GenV { locals: lowering::with_local(g1.locals, l), ..g1 };
        let g3 = GenV { param_names: g1.param_names.push(p.name), ..g2 };
        lemma_around_fields(g2, g3, w, env.insert(p.name, p.ty), x);
        lemma_params(params, i + 1, g3, w, x);
    } else {
        assert(params.take(i) =~= params);
    }
}

/// What a place to lower expressions does not depend on.
proof fn lemma_around_fields(g: GenV, h: GenV, w: CkV, env: Env, x: Seq<usize>)
    requires
        around(g, w, env, x),
        h.locals == g.locals,
        h.fns == g.fns,
        h.fn_types == g.fn_types,
        h.consts == g.consts,
        h.structs == g.structs,
        h.enums == g.enums,
        h.variants == g.variants,
        h.loop_exits == g.loop_exits,
    ensures
        around(h, w, env, x),
{
    reveal(around);
}

/// Between functions.
spec fn between(g: GenV, w: CkV) -> bool {
    prepared(g, w) && fitting::in_order(w) && fitting::apart(w) && g.loop_exits.len() == 0
}

proof fn lemma_function(
    name: Seq<char>,
    params: Seq<ParamV>,
    ret: TypeV,
    body: ExprV,
    g: GenV,
    w: CkV,
)
    requires
        between(g, w),
        w.fns.contains_key(name),
        w.fns[name].params.len() == params.len(),
        storable_params(w, params),
        fitting::fits(body, typing::scope_of(params), w),
        body.ty == Some(ret),
        sure(body, false),
    ensures
        ({
            let c = lowering::lower_function(name, params, ret, body, g);
            c.r is Ok && between(c.g, w)
        }),
{
    broadcast use group_around;

    let x = g.loop_exits;
    let g0 = GenV { func: g.fns[name], ..g };
    let entry = lowering::next(g0);
    let g1 = lowering::block(g0, "entry"@);
    let loop_bb = lowering::next(g1);
    let g2 = lowering::go(lowering::block(g1, "loop"@), entry);
    let g3 = GenV { locals: Seq::empty(), param_names: Seq::empty(), ..g2 };
    assert(params.take(0) =~= Seq::empty());
    let none = typing::scope_of(params.take(0));
    assert(around(g3, w, none, x)) by {
        reveal(around);
    }
    let c = lowering::lower_params(params, 0, g3);
    lemma_params(params, 0, g3, w, x);
    let env = typing::scope_of(params);
    let g4 = GenV {
        param_locals: c.g.locals,
        current_fn: Some(name),
        loop_header: Some(loop_bb),
        ..c.g
    };
    lemma_around_fields(c.g, g4, w, env, x);
    let g5 = lowering::go(lowering::step(g4, OpV::Br(loop_bb)), loop_bb);
    assert forall|i: int| 0 <= i < g5.param_names.len() implies ({
        let l = lowering::find_local(g5.param_locals, #[trigger] g5.param_names[i]);
        l is Some && storable(w, l->0.ty)
    }) by {
        reveal(around);
        lemma_scope_has(params, i);
        assert(c.g.param_names[i] == params[i].name);
        assert(match lowering::find_local(c.g.locals, params[i].name) {
            Some(l) => storable(w, l.ty),
            None => !env.contains_key(params[i].name),
        });
    }
    lemma_tail(body, ret, g5, w, env, x);
    reveal(around);
}

proof fn lemma_methods_lowered(ib: ImplBlockV, i: int, g: GenV, w: CkV)
    requires
        0 <= i,
        between(g, w),
        lowered_item(TopLevelV::Impl(ib), w),
        declared::fits_item(TopLevelV::Impl(ib), w),
        sure_item(TopLevelV::Impl(ib)),
    ensures
        ({
            let c = lowering::lower_methods(ib, i, g);
            c.r is Ok && between(c.g, w)
        }),
    decreases ib.methods.len() - i,
{
    if i < ib.methods.len() {
        let m = ib.methods[i];
        let name = typing::method_symbol(ib.trait_name, ib.for_ty, m.name);
        let c = lowering::lower_function(name, m.params, m.ret, m.body, g);
        lemma_function(name, m.params, m.ret, m.body, g, w);
        lemma_methods_lowered(ib, i + 1, c.g, w);
    }
}

/// Whether in the bodies of an item all that is used as a value has one.
pub open spec fn filled_item(it: TopLevelV) -> bool {
    match it {
        TopLevelV::Function(f) => filled(f.body),
        TopLevelV::Impl(ib) => forall|i: int|
            0 <= i < ib.methods.len() ==> filled((#[trigger] ib.methods[i]).body),
        _ => true,
    }
}

spec fn sure_item(it: TopLevelV) -> bool {
    match it {
        TopLevelV::Function(f) => sure(f.body, false),
        TopLevelV::Impl(ib) => forall|i: int|
            0 <= i < ib.methods.len() ==> sure((#[trigger] ib.methods[i]).body, false),
        _ => true,
    }
}

proof fn lemma_sure_item(it: TopLevelV)
    requires
        filled_item(it),
        typed::homed_item(it),
    ensures
        sure_item(it),
{
    match it {
        TopLevelV::Function(f) => lemma_sure(f.body, false, false),
        TopLevelV::Impl(ib) => {
            assert forall|i: int| 0 <= i < ib.methods.len() implies sure(
                (#[trigger] ib.methods[i]).body,
                false,
            ) by {
                lemma_sure(ib.methods[i].body, false, false);
            }
        },
        _ => {},
    }
}

/// Whether `w` has a function with storable parameters.
spec fn known_function(n: Seq<char>, params: Seq<ParamV>, w: CkV) -> bool {
    w.fns.contains_key(n) && w.fns[n].params.len() == params.len() && storable_params(w, params)
}

/// Whether `w` has the functions of an item.
spec fn lowered_item(it: TopLevelV, w: CkV) -> bool {
    match it {
        TopLevelV::Function(f) => known_function(f.name, f.params, w),
        TopLevelV::Impl(ib) => forall|i: int|
            0 <= i < ib.methods.len() ==> known_function(
                typing::method_symbol(ib.trait_name, ib.for_ty, (#[trigger] ib.methods[i]).name),
                ib.methods[i].params,
                w,
            ),
        _ => true,
    }
}

proof fn lemma_items_lowered(items: Seq<TopLevelV>, i: int, g: GenV, w: CkV)
    requires
        0 <= i,
        between(g, w),
        forall|k: int| 0 <= k < items.len() ==> lowered_item(#[trigger] items[k], w),
        forall|k: int| 0 <= k < items.len() ==> declared::fits_item(#[trigger] items[k], w),
        forall|k: int| 0 <= k < items.len() ==> sure_item(#[trigger] items[k]),
    ensures
        lowering::lower_items(items, i, g).r is Ok,
    decreases items.len() - i,
{
    if i < items.len() {
        assert(lowered_item(items[i], w));
        assert(declared::fits_item(items[i], w));
        assert(sure_item(items[i]));
        match items[i] {
            TopLevelV::Function(f) => {
                let c = lowering::lower_function(f.name, f.params, f.ret, f.body, g);
                lemma_function(f.name, f.params, f.ret, f.body, g, w);
                lemma_items_lowered(items, i + 1, c.g, w);
            },
            TopLevelV::Impl(ib) => {
                let c = lowering::lower_methods(ib, 0, g);
                lemma_methods_lowered(ib, 0, g, w);
                lemma_items_lowered(items, i + 1, c.g, w);
            },
            _ => lemma_items_lowered(items, i + 1, g, w),
        }
    }
}

/// Whether what an item before place `i`, or one of the first `j` functions of item `i`,
/// declares can be called.
spec fn announced(g: GenV, items: Seq<TopLevelV>, i: int, j: int) -> bool {
    forall|k: int, l: int|
        (#[trigger] declared::declared(items, k, l) is Some && (k < i || (k == i && l < j))) ==> {
            let a = declared::declared(items, k, l)->0;
            g.fns.contains_key(a.name) && g.fn_types.contains_key(a.name) && g.fn_types[a.name]
                == a.sig
        }
}

/// What declaring functions keeps.
spec fn declares(g: GenV, h: GenV) -> bool {
    &&& h.structs == g.structs
    &&& h.enums == g.enums
    &&& h.variants == g.variants
    &&& h.loop_exits == g.loop_exits
    &&& forall|n: Seq<char>| #[trigger] g.fns.contains_key(n) ==> h.fns.contains_key(n)
}

/// Whether the code generator has the types that are defined.
spec fn has_types(g: GenV, w: CkV) -> bool {
    g.structs == w.structs && g.enums == w.enums && typing::plain_types(w)
}

proof fn lemma_type(g: GenV, w: CkV, t: TypeV)
    requires
        has_types(g, w),
        storable(w, t),
    ensures
        lowering::lower_type(g, t) is Ok,
{
    if let TypeV::Named(n) = t {
        if w.structs.contains_key(n) {
            lemma_field_prims(w.structs[n].fields, 0, Seq::empty());
        }
    }
}

proof fn lemma_types(g: GenV, w: CkV, ts: Seq<TypeV>, i: int, acc: Seq<LTyV>)
    requires
        0 <= i,
        has_types(g, w),
        forall|k: int| 0 <= k < ts.len() ==> storable(w, #[trigger] ts[k]),
    ensures
        lowering::lower_types(g, ts, i, acc) is Ok,
    decreases ts.len() - i,
{
    if i < ts.len() {
        lemma_type(g, w, ts[i]);
        lemma_types(g, w, ts, i + 1, acc.push(lowering::lower_type(g, ts[i])->Ok_0));
    }
}

/// Whether variables can have the types of the parameters of a function, and expressions
/// that of its result.
pub open spec fn sound_sig(w: CkV, sig: FnSigV) -> bool {
    &&& forall|i: int| 0 <= i < sig.params.len() ==> storable(w, #[trigger] sig.params[i])
    &&& fitting::sound_type(w, sig.ret)
}

proof fn lemma_declare_fn(g: GenV, d: DeclaredV, items: Seq<TopLevelV>, i: int, j: int, w: CkV)
    requires
        has_types(g, w),
        sound_sig(w, d.sig),
        declared::own_symbols(items),
        declared::declared(items, i, j) == Some(d),
        announced(g, items, i, j),
    ensures
        ({
            let c = lowering::declare_fn(g, d.name, d.sig.params, d.sig.ret);
            c.r is Ok && declares(g, c.g) && announced(c.g, items, i, j + 1)
        }),
{
    let c = lowering::declare_fn(g, d.name, d.sig.params, d.sig.ret);
    lemma_types(g, w, d.sig.params, 0, Seq::empty());
    if !(d.sig.ret is Unit) {
        lemma_type(g, w, d.sig.ret);
    }
    assert forall|k: int, l: int|
        (#[trigger] declared::declared(items, k, l) is Some && (k < i || (k == i && l < j
            + 1))) implies ({
        let a = declared::declared(items, k, l)->0;
        c.g.fns.contains_key(a.name) && c.g.fn_types.contains_key(a.name) && c.g.fn_types[a.name]
            == a.sig
    }) by {
        let a = declared::declared(items, k, l)->0;
        if k == i && l == j {
            assert(c.g.fn_types[a.name] == a.sig);
        } else {
            if a.name == d.name {
                assert(declared::declared(items, i, j)->0.name == a.name);
            }
            assert(g.fn_types[a.name] == a.sig);
        }
    }
}

/// Whether all functions of the items have types that can be lowered.
pub open spec fn sound_sigs(items: Seq<TopLevelV>, w: CkV) -> bool {
    forall|i: int, j: int|
        #[trigger] declared::declared(items, i, j) is Some ==> sound_sig(
            w,
            declared::declared(items, i, j)->0.sig,
        )
}

proof fn lemma_declare_methods(ib: ImplBlockV, items: Seq<TopLevelV>, i: int, j: int, g: GenV, w: CkV)
    requires
        0 <= i < items.len(),
        items[i] == TopLevelV::Impl(ib),
        0 <= j <= ib.methods.len(),
        has_types(g, w),
        sound_sigs(items, w),
        declared::own_symbols(items),
        announced(g, items, i, j),
    ensures
        ({
            let c = lowering::declare_methods(ib, j, g);
            c.r is Ok && declares(g, c.g) && announced(c.g, items, i, ib.methods.len() as int)
        }),
    decreases ib.methods.len() - j,
{
    if j < ib.methods.len() {
        let m = ib.methods[j];
        let name = typing::method_symbol(ib.trait_name, ib.for_ty, m.name);
        let d = DeclaredV { name, sig: declared::sig_of(m) };
        assert(declared::declared(items, i, j) == Some(d));
        let c = lowering::declare_fn(g, name, d.sig.params, d.sig.ret);
        lemma_declare_fn(g, d, items, i, j, w);
        lemma_declare_methods(ib, items, i, j + 1, c.g, w);
    }
}

/// All functions of an item have been declared.
proof fn lemma_announced_next(g: GenV, items: Seq<TopLevelV>, i: int, j: int)
    requires
        announced(g, items, i, j),
        forall|l: int| l >= j ==> #[trigger] declared::declared(items, i, l) is None,
    ensures
        announced(g, items, i + 1, 0),
{
    assert forall|k: int, l: int|
        (#[trigger] declared::declared(items, k, l) is Some && (k < i + 1 || (k == i + 1 && l
            < 0))) implies ({
        let a = declared::declared(items, k, l)->0;
        g.fns.contains_key(a.name) && g.fn_types.contains_key(a.name) && g.fn_types[a.name]
            == a.sig
    }) by {
        assert(declared::declared(items, k, l) is Some ==> l >= 0);
        assert(k < i || (k == i && l < j));
    }
}

proof fn lemma_declare_items(items: Seq<TopLevelV>, i: int, g: GenV, w: CkV)
    requires
        0 <= i <= items.len(),
        has_types(g, w),
        sound_sigs(items, w),
        declared::own_symbols(items),
        announced(g, items, i, 0),
    ensures
        ({
            let c = lowering::declare_items(items, i, g);
            c.r is Ok && declares(g, c.g) && announced(c.g, items, items.len() as int, 0)
        }),
    decreases items.len() - i,
{
    if i < items.len() {
        match items[i] {
            TopLevelV::Function(f) => {
                let d = DeclaredV { name: f.name, sig: declared::sig_of(f) };
                assert(declared::declared(items, i, 0) == Some(d));
                let c = lowering::declare_fn(g, f.name, d.sig.params, d.sig.ret);
                lemma_declare_fn(g, d, items, i, 0, w);
                lemma_announced_next(c.g, items, i, 1);
                lemma_declare_items(items, i + 1, c.g, w);
            },
            TopLevelV::Extern(e) => {
                let sig = FnSigV { params: typing::param_types(e.params), ret: e.ret };
                let d = DeclaredV { name: e.name, sig };
                assert(declared::declared(items, i, 0) == Some(d));
                let c = lowering::declare_fn(g, e.name, sig.params, sig.ret);
                lemma_declare_fn(g, d, items, i, 0, w);
                lemma_announced_next(c.g, items, i, 1);
                lemma_declare_items(items, i + 1, c.g, w);
            },
            TopLevelV::Impl(ib) => {
                let c = lowering::declare_methods(ib, 0, g);
                lemma_declare_methods(ib, items, i, 0, g, w);
                lemma_announced_next(c.g, items, i, ib.methods.len() as int);
                lemma_declare_items(items, i + 1, c.g, w);
            },
            _ => {
                lemma_announced_next(g, items, i, 0);
                lemma_declare_items(items, i + 1, g, w);
            },
        }
    }
}

proof fn lemma_declare_runtime(fs: Seq<RuntimeFnV>, i: int, g: GenV)
    requires
        0 <= i <= fs.len(),
        forall|k: int| 0 <= k < i ==> g.fns.contains_key((#[trigger] fs[k]).key),
    ensures
        declares(g, lowering::declare_runtime(fs, i, g)),
        forall|k: int|
            0 <= k < fs.len() ==> lowering::declare_runtime(fs, i, g).fns.contains_key(
                (#[trigger] fs[k]).key,
            ),
    decreases fs.len() - i,
{
    if i < fs.len() {
        let h = lowering::declare_one(g, fs[i]);
        assert(forall|n: Seq<char>| #[trigger] g.fns.contains_key(n) ==> h.fns.contains_key(n));
        lemma_declare_runtime(fs, i + 1, h);
    }
}

proof fn lemma_consts_lowered(items: Seq<TopLevelV>, i: int, g: GenV, w: CkV)
    requires
        0 <= i <= items.len(),
        forall|k: int| 0 <= k < items.len() ==> declared::fits_item(#[trigger] items[k], w),
        forall|n: Seq<char>, k: int|
            k < i && #[trigger] declared::constant_at(items, n, k) ==> g.consts.contains_key(n),
    ensures
        ({
            let c = lowering::lower_consts(items, i, g);
            &&& c.r is Ok
            &&& declares(g, c.g)
            &&& c.g.fns == g.fns
            &&& c.g.fn_types == g.fn_types
            &&& forall|n: Seq<char>, k: int| #[trigger]
                declared::constant_at(items, n, k) ==> c.g.consts.contains_key(n)
        }),
    decreases items.len() - i,
{
    if i < items.len() {
        assert(declared::fits_item(items[i], w));
        if let TopLevelV::Const(c) = items[i] {
            if let ExprKindV::Lit(l) = c.value.kind {
                let (g1, v) = lowering::lower_lit(g, l, c.ty);
                let g2 = GenV { consts: g1.consts.insert(c.name, (c.ty, v)), ..g1 };
                lemma_consts_lowered(items, i + 1, g2, w);
            }
        } else {
            lemma_consts_lowered(items, i + 1, g, w);
        }
    }
}

/// Whether nothing in a checked program stands in the way of its being lowered. No two
/// functions have the same symbol, and none has that of a builtin or a constructor;
/// parameters and results have types that can be lowered; and in the bodies all that is
/// used as a value has one.
pub open spec fn lowerable(p: ProgramV, s: CkV) -> bool {
    let w = declared::defined(p, s);
    &&& declared::own_symbols(p.items)
    &&& fitting::apart(w)
    &&& sound_sigs(p.items, w)
    &&& forall|i: int| 0 <= i < p.items.len() ==> filled_item(#[trigger] p.items[i])
}

/// An accepted program is lowered without an error, if nothing in it stands in the way.
#[verifier::rlimit(40)]
pub proof fn law_accepted_program_is_lowered(p: ProgramV, require_main: bool, name: Seq<char>)
    requires
        typing::check_program(p, require_main).r is Ok,
        lowerable(
            typing::check_program(p, require_main).node,
            typing::check_program(p, require_main).s,
        ),
    ensures
        ({
            let c = typing::check_program(p, require_main);
            lowering::lower_program(c.node, c.s, lowering::nothing_built(name)).r is Ok
        }),
{
    let c = typing::check_program(p, require_main);
    let items = c.node.items;
    let w = declared::defined(c.node, c.s);
    assert forall|n: Seq<char>| #[trigger] w.fns.contains_key(n) implies fitting::sound_type(
        w,
        w.fns[n].ret,
    ) && fitting::sound_types(w, w.fns[n].params) by {
        let (i, j) = choose|i: int, j: int| declared::declared_as(items, i, j, n);
        assert(declared::declared_as(items, i, j, n));
        declared::lemma_signature(items, i, j);
    }
    declared::law_accepted_program_fits(p, require_main);
    let g = lowering::nothing_built(name);
    let g0 = GenV {
        structs: c.s.structs,
        enums: c.s.enums,
        variants: c.s.variants,
        externs: c.s.externs,
        ..g
    };
    let rt = lowering::runtime();
    let g1 = lowering::declare_runtime(rt, 0, g0);
    lemma_declare_runtime(rt, 0, g0);
    let d = lowering::declare_items(items, 0, g1);
    lemma_declare_items(items, 0, g1, w);
    let k = lowering::lower_consts(items, 0, d.g);
    lemma_consts_lowered(items, 0, d.g, w);
    assert(prepared(k.g, w)) by {
        assert forall|n: Seq<char>| #[trigger] w.consts.contains_key(n) implies k.g.consts.contains_key(
            n,
        ) by {
            let i = choose|i: int| declared::constant_at(items, n, i);
            assert(declared::constant_at(items, n, i));
        }
        assert forall|n: Seq<char>| #[trigger] w.fns.contains_key(n) implies k.g.fns.contains_key(n)
            && k.g.fn_types.contains_key(n) && k.g.fn_types[n] == w.fns[n] by {
            let (i, j) = choose|i: int, j: int| declared::declared_as(items, i, j, n);
            assert(declared::declared_as(items, i, j, n));
            declared::lemma_signature(items, i, j);
        }
    }
    assert forall|i: int| 0 <= i < items.len() implies lowered_item(#[trigger] items[i], w) by {
        lemma_item_known(items, i, w);
    }
    typed::law_breaks_have_loops(p, require_main);
    assert forall|i: int| 0 <= i < items.len() implies sure_item(#[trigger] items[i]) by {
        lemma_sure_item(items[i]);
    }
    lemma_items_lowered(items, 0, k.g, w);
}

proof fn lemma_item_known(items: Seq<TopLevelV>, i: int, w: CkV)
    requires
        0 <= i < items.len(),
        declared::own_symbols(items),
        sound_sigs(items, w),
        w.fns == declared::signatures(items),
    ensures
        lowered_item(items[i], w),
{
    match items[i] {
        TopLevelV::Function(f) => {
            assert(declared::declared(items, i, 0) is Some);
            declared::lemma_signature(items, i, 0);
            lemma_known_function(f.name, f, w);
        },
        TopLevelV::Impl(ib) => {
            assert forall|j: int| 0 <= j < ib.methods.len() implies known_function(
                typing::method_symbol(ib.trait_name, ib.for_ty, (#[trigger] ib.methods[j]).name),
                ib.methods[j].params,
                w,
            ) by {
                let m = ib.methods[j];
                let n = typing::method_symbol(ib.trait_name, ib.for_ty, m.name);
                assert(declared::declared(items, i, j) is Some);
                declared::lemma_signature(items, i, j);
                lemma_known_function(n, m, w);
            }
        },
        _ => {},
    }
}

proof fn lemma_known_function(n: Seq<char>, f: FunctionV, w: CkV)
    requires
        w.fns.contains_key(n),
        w.fns[n] == declared::sig_of(f),
        sound_sig(w, declared::sig_of(f)),
    ensures
        known_function(n, f.params, w),
{
    assert forall|i: int| 0 <= i < f.params.len() implies storable(w, (#[trigger] f.params[i]).ty) by {
        assert(storable(w, declared::sig_of(f).params[i]));
    }
}

} // verus!
