//! A program has finitely many instances of generic functions, so that making them
//! comes to an end.
use crate::ast::{GenericFunctionV, ParamV, TypeV};
use crate::ast;
use crate::codegen::one;
use crate::typing::{CkV, Env, Subst, Universe};
use crate::typing;
use vstd::prelude::*;
use vstd::set_lib::*;

verus! {

spec fn pairs<A, B>(a: Set<A>, b: Set<B>) -> Set<(A, B)> {
    Set::new(|p: (A, B)| a.contains(p.0) && b.contains(p.1))
}

proof fn lemma_pairs_finite<A, B>(a: Set<A>, b: Set<B>)
    requires
        a.finite(),
        b.finite(),
    ensures
        pairs(a, b).finite(),
    decreases a.len(),
{
    if a.len() == 0 {
        assert(pairs(a, b) =~= Set::empty());
    } else {
        let x = a.choose();
        let rest = a.remove(x);
        lemma_pairs_finite(rest, b);
        let f = |y: B| (x, y);
        b.lemma_map_finite(f);
        assert forall|p: (A, B)| pairs(a, b).contains(p) implies pairs(rest, b).union(
            b.map(f),
        ).contains(p) by {
            if p.0 == x {
                assert(f(p.1) == p);
                assert(b.map(f).contains(p));
            }
        }
        lemma_set_subset_finite(pairs(rest, b).union(b.map(f)), pairs(a, b));
    }
}

spec fn all_lengths() -> Set<u32> {
    Set::new(|n: u32| true)
}

proof fn lemma_lengths_finite()
    ensures
        all_lengths().finite(),
{
    lemma_int_range(0, 0x1_0000_0000);
    let f = |i: int| i as u32;
    set_int_range(0, 0x1_0000_0000).lemma_map_finite(f);
    assert forall|n: u32| all_lengths().contains(n) implies set_int_range(0, 0x1_0000_0000).map(
        f,
    ).contains(n) by {
        assert(f(n as int) == n);
        assert(set_int_range(0, 0x1_0000_0000).contains(n as int));
    }
    lemma_set_subset_finite(set_int_range(0, 0x1_0000_0000).map(f), all_lengths());
}

spec fn types_upto(names: Set<Seq<char>>, d: nat) -> Set<TypeV> {
    Set::new(|t: TypeV| typing::names_in(names, t) && typing::type_depth(t) <= d)
}

spec fn flat_types(names: Set<Seq<char>>) -> Set<TypeV> {
    set![TypeV::I32, TypeV::I64, TypeV::F32, TypeV::F64, TypeV::Bool, TypeV::Str, TypeV::Unit].union(
        names.map(|n: Seq<char>| TypeV::Named(n)),
    )
}

proof fn lemma_flat_types(names: Set<Seq<char>>, t: TypeV)
    requires
        typing::names_in(names, t),
        !(t is Array),
    ensures
        flat_types(names).contains(t),
{
    if let TypeV::Named(n) = t {
        let f = |n: Seq<char>| TypeV::Named(n);
        assert(f(n) == t);
        assert(names.map(f).contains(t));
    }
}

proof fn lemma_types_finite(names: Set<Seq<char>>, d: nat)
    requires
        names.finite(),
    ensures
        types_upto(names, d).finite(),
    decreases d,
{
    names.lemma_map_finite(|n: Seq<char>| TypeV::Named(n));
    let flat = flat_types(names);
    if d == 0 {
        assert forall|t: TypeV| types_upto(names, d).contains(t) implies flat.contains(t) by {
            lemma_flat_types(names, t);
        }
        lemma_set_subset_finite(flat, types_upto(names, d));
    } else {
        let below = types_upto(names, (d - 1) as nat);
        lemma_types_finite(names, (d - 1) as nat);
        lemma_lengths_finite();
        lemma_pairs_finite(below, all_lengths());
        let f = |p: (TypeV, u32)| TypeV::Array { elem: Box::new(p.0), len: p.1 };
        pairs(below, all_lengths()).lemma_map_finite(f);
        let arrays = pairs(below, all_lengths()).map(f);
        assert forall|t: TypeV| types_upto(names, d).contains(t) implies flat.union(
            arrays,
        ).contains(t) by {
            if let TypeV::Array { elem, len } = t {
                assert(below.contains(*elem));
                assert(pairs(below, all_lengths()).contains((*elem, len)));
                assert(f((*elem, len)) == t);
            } else {
                lemma_flat_types(names, t);
            }
        }
        lemma_set_subset_finite(flat.union(arrays), types_upto(names, d));
    }
}

spec fn lists_of(ts: Set<TypeV>, n: nat) -> Set<Seq<TypeV>> {
    Set::new(
        |s: Seq<TypeV>| s.len() == n && forall|i: int| 0 <= i < n ==> ts.contains(#[trigger] s[i]),
    )
}

proof fn lemma_lists_finite(ts: Set<TypeV>, n: nat)
    requires
        ts.finite(),
    ensures
        lists_of(ts, n).finite(),
    decreases n,
{
    if n == 0 {
        let one = set![Seq::<TypeV>::empty()];
        assert forall|s: Seq<TypeV>| lists_of(ts, n).contains(s) implies one.contains(s) by {
            assert(s =~= Seq::empty());
        }
        lemma_set_subset_finite(one, lists_of(ts, n));
    } else {
        let shorter = lists_of(ts, (n - 1) as nat);
        lemma_lists_finite(ts, (n - 1) as nat);
        lemma_pairs_finite(shorter, ts);
        let f = |p: (Seq<TypeV>, TypeV)| p.0.push(p.1);
        pairs(shorter, ts).lemma_map_finite(f);
        assert forall|s: Seq<TypeV>| lists_of(ts, n).contains(s) implies pairs(shorter, ts).map(
            f,
        ).contains(s) by {
            let p = (s.drop_last(), s.last());
            assert forall|i: int| 0 <= i < n - 1 implies ts.contains(#[trigger] p.0[i]) by {
                assert(p.0[i] == s[i]);
            }
            assert(pairs(shorter, ts).contains(p));
            assert(f(p) =~= s);
        }
        lemma_set_subset_finite(pairs(shorter, ts).map(f), lists_of(ts, n));
    }
}

/// The instances of the generic functions in `of`.
spec fn keys_of(of: Set<Seq<char>>, u: Universe) -> Set<(Seq<char>, Seq<TypeV>)> {
    typing::instance_keys(u).filter(|k: (Seq<char>, Seq<TypeV>)| of.contains(k.0))
}

proof fn lemma_keys_of_finite(of: Set<Seq<char>>, u: Universe)
    requires
        of.finite(),
        u.names.finite(),
    ensures
        keys_of(of, u).finite(),
    decreases of.len(),
{
    if of.len() == 0 {
        assert(keys_of(of, u) =~= Set::empty());
    } else {
        let x = of.choose();
        let rest = of.remove(x);
        lemma_keys_of_finite(rest, u);
        let ts = types_upto(u.names, u.depth);
        let n = u.generics[x].type_params.len();
        lemma_types_finite(u.names, u.depth);
        lemma_lists_finite(ts, n);
        let f = |s: Seq<TypeV>| (x, s);
        lists_of(ts, n).lemma_map_finite(f);
        let whole = keys_of(rest, u).union(lists_of(ts, n).map(f));
        assert forall|k: (Seq<char>, Seq<TypeV>)| keys_of(of, u).contains(k) implies whole.contains(
            k,
        ) by {
            if k.0 == x {
                assert forall|i: int| 0 <= i < k.1.len() implies ts.contains(#[trigger] k.1[i]) by {
                    assert(typing::known(u, k.1[i]));
                }
                assert(lists_of(ts, n).contains(k.1));
                assert(f(k.1) == k);
            }
        }
        lemma_set_subset_finite(whole, keys_of(of, u));
    }
}

/// A program has finitely many instances of generic functions.
pub proof fn law_instances_finite(u: Universe)
    requires
        u.generics.dom().finite(),
        u.names.finite(),
    ensures
        typing::instance_keys(u).finite(),
{
    lemma_keys_of_finite(u.generics.dom(), u);
    assert(keys_of(u.generics.dom(), u) =~= typing::instance_keys(u));
}

/// Whether the type of a parameter or a result of a generic function is in order: no
/// array, and a type parameter or a type of the program.
pub open spec fn plain_in(ty: TypeV, tps: Set<Seq<char>>, u: Universe) -> bool {
    !(ty is Array) && (ty matches TypeV::Named(n) ==> tps.contains(n) || u.names.contains(n))
}

/// The types of everything that an expression can name are of the universe `u`.
pub open spec fn sound(s: CkV, u: Universe) -> bool {
    &&& u.depth >= 1
    &&& u.names == s.structs.dom() + s.enums.dom()
    &&& forall|n: Seq<char>| #[trigger]
        s.structs.contains_key(n) ==> u.names.contains(s.structs[n].name) && forall|i: int|
            0 <= i < s.structs[n].fields.len() ==> ast::scalar(
                (#[trigger] s.structs[n].fields[i]).ty,
            )
    &&& forall|n: Seq<char>| #[trigger]
        s.variants.contains_key(n) ==> u.names.contains(s.variants[n].enum_name) && (
        s.variants[n].payload is Some ==> ast::scalar(s.variants[n].payload->0))
    &&& forall|n: Seq<char>| #[trigger] s.fns.contains_key(n) ==> typing::known(u, s.fns[n].ret)
    &&& forall|n: Seq<char>| #[trigger] s.consts.contains_key(n) ==> typing::known(u, s.consts[n])
    &&& forall|n: Seq<char>| #[trigger]
        s.generic_fns.contains_key(n) ==> s.generic_fns[n].name == n && plain_in(
            s.generic_fns[n].ret,
            typing::type_param_names(s.generic_fns[n].type_params),
            u,
        ) && forall|i: int|
            0 <= i < s.generic_fns[n].params.len() ==> plain_in(
                (#[trigger] s.generic_fns[n].params[i]).ty,
                typing::type_param_names(s.generic_fns[n].type_params),
                u,
            )
}

/// What is always so while bodies are checked: types are of the universe, and no
/// more than `gas` instances can still be made.
#[verifier::opaque]
pub open spec fn ready(s: CkV, u: Universe, gas: nat) -> bool {
    &&& sound(s, u)
    &&& s.generic_fns == u.generics
    &&& u.names.finite()
    &&& u.generics.dom().finite()
    &&& s.mono_cache.dom().subset_of(typing::instance_keys(u))
    &&& typing::instance_keys(u).difference(s.mono_cache.dom()).len() <= gas
}

/// Whether all variables in scope have types of the universe.
pub open spec fn scope_known(u: Universe, env: Env) -> bool {
    forall|n: Seq<char>| #[trigger] env.contains_key(n) ==> typing::known(u, env[n])
}

/// `ready` does not depend on the instances that have been kept nor on being in a loop.
pub proof fn lemma_ready_frame(s: CkV, t: CkV, u: Universe, gas: nat)
    requires
        ready(s, u, gas),
        t == (CkV { mono_fns: t.mono_fns, in_loop: t.in_loop, ..s }),
    ensures
        ready(t, u, gas),
{
    reveal(ready);
}

pub proof fn lemma_ready_more(s: CkV, u: Universe, gas: nat, more: nat)
    requires
        ready(s, u, gas),
        gas <= more,
    ensures
        ready(s, u, more),
{
    reveal(ready);
}

pub proof fn lemma_ready_fn(s: CkV, u: Universe, gas: nat, n: Seq<char>)
    requires
        ready(s, u, gas),
        s.fns.contains_key(n),
    ensures
        typing::known(u, s.fns[n].ret),
{
    reveal(ready);
}

pub proof fn lemma_ready_const(s: CkV, u: Universe, gas: nat, n: Seq<char>)
    requires
        ready(s, u, gas),
        s.consts.contains_key(n),
    ensures
        typing::known(u, s.consts[n]),
{
    reveal(ready);
}

pub proof fn lemma_ready_struct(s: CkV, u: Universe, gas: nat, n: Seq<char>)
    requires
        ready(s, u, gas),
        s.structs.contains_key(n),
    ensures
        typing::known(u, TypeV::Named(s.structs[n].name)),
        forall|i: int|
            0 <= i < s.structs[n].fields.len() ==> typing::known(u, (#[trigger] s.structs[n].fields[i]).ty),
{
    reveal(ready);
}

pub proof fn lemma_ready_variant(s: CkV, u: Universe, gas: nat, n: Seq<char>)
    requires
        ready(s, u, gas),
        s.variants.contains_key(n),
    ensures
        typing::known(u, TypeV::Named(s.variants[n].enum_name)),
        s.variants[n].payload is Some ==> typing::known(u, s.variants[n].payload->0),
{
    reveal(ready);
}

/// The generic functions stay what they are.
pub proof fn lemma_ready_generic(s: CkV, u: Universe, gas: nat, n: Seq<char>)
    requires
        ready(s, u, gas),
        s.generic_fns.contains_key(n),
    ensures
        u.generics == s.generic_fns,
        s.generic_fns[n].name == n,
{
    reveal(ready);
}

/// An array of scalars is of the universe.
pub proof fn lemma_ready_array(s: CkV, u: Universe, gas: nat, elem: TypeV, len: u32)
    requires
        ready(s, u, gas),
        ast::scalar(elem),
    ensures
        typing::known(u, TypeV::Array { elem: Box::new(elem), len }),
{
    reveal(ready);
    reveal_with_fuel(typing::type_depth, 2);
    reveal_with_fuel(typing::names_in, 2);
}

/// Entering a new instance uses up one of those that can still be made.
pub proof fn lemma_enter(
    s: CkV,
    u: Universe,
    gas: nat,
    g: GenericFunctionV,
    targs: Seq<TypeV>,
    subst: Subst,
)
    requires
        ready(s, u, gas),
        u.generics.contains_key(g.name),
        u.generics[g.name] == g,
        targs.len() == g.type_params.len(),
        forall|i: int| 0 <= i < targs.len() ==> typing::known(u, #[trigger] targs[i]),
        forall|i: int|
            0 <= i < g.type_params.len() ==> subst.contains_key((#[trigger] g.type_params[i]).0),
        scope_known(u, subst),
        !s.mono_cache.contains_key((g.name, targs)),
    ensures
        gas > 0,
        ready(
            typing::entered(s, g, targs, typing::instance_of(g, targs, subst)),
            u,
            (gas - 1) as nat,
        ),
        scope_known(u, typing::scope_of(typing::instance_of(g, targs, subst).params)),
{
    reveal(ready);
    let f = typing::instance_of(g, targs, subst);
    let key = (g.name, targs);
    let keys = typing::instance_keys(u);
    law_instances_finite(u);
    assert(keys.contains(key));
    let before = keys.difference(s.mono_cache.dom());
    let t = typing::entered(s, g, targs, f);
    assert(t.mono_cache.dom() =~= s.mono_cache.dom().insert(key));
    assert(keys.difference(t.mono_cache.dom()) =~= before.remove(key));
    assert(before.contains(key));
    lemma_set_subset_finite(keys, before);
    let tps = typing::type_param_names(g.type_params);
    lemma_type_param_names(g.type_params, subst);
    lemma_plain_known(g.ret, tps, subst, u);
    assert forall|i: int| 0 <= i < f.params.len() implies typing::known(u, (#[trigger] f.params[i]).ty) by {
        assert(plain_in(g.params[i].ty, tps, u));
        lemma_plain_known(g.params[i].ty, tps, subst, u);
    }
    lemma_scope_known(f.params, u);
    assert(forall|n: Seq<char>| #[trigger] t.fns.contains_key(n) ==> typing::known(u, t.fns[n].ret));
}

proof fn lemma_type_param_names(tps: Seq<(Seq<char>, Option<Seq<char>>)>, subst: Subst)
    requires
        forall|i: int| 0 <= i < tps.len() ==> subst.contains_key((#[trigger] tps[i]).0),
    ensures
        forall|n: Seq<char>| #[trigger]
            typing::type_param_names(tps).contains(n) ==> subst.contains_key(n),
    decreases tps.len(),
{
    if tps.len() > 0 {
        let rest = tps.drop_last();
        assert forall|i: int| 0 <= i < rest.len() implies subst.contains_key(
            (#[trigger] rest[i]).0,
        ) by {
            assert(rest[i] == tps[i]);
        }
        lemma_type_param_names(rest, subst);
        assert forall|n: Seq<char>| #[trigger]
            typing::type_param_names(tps).contains(n) implies subst.contains_key(n) by {
            if n == tps.last().0 {
                assert(subst.contains_key(tps[tps.len() - 1].0));
            } else {
                assert(typing::type_param_names(rest).contains(n));
            }
        }
    }
}

proof fn lemma_plain_known(ty: TypeV, tps: Set<Seq<char>>, subst: Subst, u: Universe)
    requires
        plain_in(ty, tps, u),
        forall|n: Seq<char>| #[trigger] tps.contains(n) ==> subst.contains_key(n),
        scope_known(u, subst),
    ensures
        typing::known(u, typing::subst_in(ty, subst)),
{
}

/// Parameters of known types make a known scope.
pub proof fn lemma_scope_known(params: Seq<ParamV>, u: Universe)
    requires
        forall|i: int| 0 <= i < params.len() ==> typing::known(u, (#[trigger] params[i]).ty),
    ensures
        scope_known(u, typing::scope_of(params)),
    decreases params.len(),
{
    if params.len() > 0 {
        let rest = params.drop_last();
        assert forall|i: int| 0 <= i < rest.len() implies typing::known(u, (#[trigger] rest[i]).ty) by {
            assert(rest[i] == params[i]);
        }
        lemma_scope_known(rest, u);
        assert(typing::known(u, params[params.len() - 1].ty));
    }
}

} // verus!
