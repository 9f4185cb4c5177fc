//! What the items of a program declare, and that checked bodies fit it.
use crate::ast::{
    Const, ConstV, ExprKindV, FunctionV, ImplBlockV, MethodSigV, ProgramV, TopLevelV, TypeV,
};
use crate::ast;
use crate::collected;
use crate::fitting;
use crate::typing::{CkV, FnSigV, Pass};
use crate::typing;
use vstd::prelude::*;

verus! {

pub open spec fn sig_of(f: FunctionV) -> FnSigV {
    FnSigV { params: typing::param_types(f.params), ret: f.ret }
}

/// A function that can be called.
#[verifier::ext_equal]
pub struct DeclaredV {
    pub name: Seq<char>,
    pub sig: FnSigV,
}

/// The `j`-th function that item `i` declares: its symbol and its signature.
pub open spec fn declared(items: Seq<TopLevelV>, i: int, j: int) -> Option<DeclaredV> {
    if 0 <= i < items.len() {
        match items[i] {
            TopLevelV::Function(f) => if j == 0 {
                Some(DeclaredV { name: f.name, sig: sig_of(f) })
            } else {
                None
            },
            TopLevelV::Extern(e) => if j == 0 {
                let sig = FnSigV { params: typing::param_types(e.params), ret: e.ret };
                Some(DeclaredV { name: e.name, sig })
            } else {
                None
            },
            TopLevelV::Impl(ib) => if 0 <= j < ib.methods.len() {
                let m = ib.methods[j];
                let name = typing::method_symbol(ib.trait_name, ib.for_ty, m.name);
                Some(DeclaredV { name, sig: sig_of(m) })
            } else {
                None
            },
            _ => None,
        }
    } else {
        None
    }
}

/// Whether no two functions have the same symbol.
pub open spec fn own_symbols(items: Seq<TopLevelV>) -> bool {
    forall|i: int, j: int, k: int, l: int|
        {
            let a = #[trigger] declared(items, i, j);
            let b = #[trigger] declared(items, k, l);
            a is Some && b is Some && a->0.name == b->0.name ==> i == k && j == l
        }
}

pub open spec fn declared_as(items: Seq<TopLevelV>, i: int, j: int, n: Seq<char>) -> bool {
    declared(items, i, j) matches Some(a) && a.name == n
}

/// The signatures of all functions, by symbol.
pub open spec fn signatures(items: Seq<TopLevelV>) -> Map<Seq<char>, FnSigV> {
    Map::new(
        |n: Seq<char>| exists|i: int, j: int| declared_as(items, i, j, n),
        |n: Seq<char>|
            {
                let (i, j) = choose|i: int, j: int| declared_as(items, i, j, n);
                declared(items, i, j)->0.sig
            },
    )
}

/// All that a checked program defines.
pub open spec fn defined(p: ProgramV, s: CkV) -> CkV {
    CkV { fns: signatures(p.items), ..s }
}

pub proof fn lemma_signature(items: Seq<TopLevelV>, i: int, j: int)
    requires
        own_symbols(items),
        declared(items, i, j) is Some,
    ensures
        signatures(items).contains_key(declared(items, i, j)->0.name),
        signatures(items)[declared(items, i, j)->0.name] == declared(items, i, j)->0.sig,
{
    let n = declared(items, i, j)->0.name;
    assert(declared_as(items, i, j, n));
    let (k, l) = choose|k: int, l: int| declared_as(items, k, l, n);
    assert(declared_as(items, k, l, n));
    assert(declared(items, k, l)->0.name == declared(items, i, j)->0.name);
}

/// Whether every function in `m` is declared by an item, by one before `upto` if that
/// is an impl.
spec fn listed(m: Map<Seq<char>, FnSigV>, items: Seq<TopLevelV>, upto: int) -> bool {
    forall|n: Seq<char>| #[trigger]
        m.contains_key(n) ==> exists|i: int, j: int| listed_at(m[n], items, upto, n, i, j)
}

spec fn listed_at(
    sig: FnSigV,
    items: Seq<TopLevelV>,
    upto: int,
    n: Seq<char>,
    i: int,
    j: int,
) -> bool {
    declared(items, i, j) == Some(DeclaredV { name: n, sig }) && (i < upto || !(items[i] is Impl))
}

/// Whether every constant in `m` is defined by an item.
spec fn consts_listed(m: Map<Seq<char>, TypeV>, items: Seq<TopLevelV>) -> bool {
    forall|n: Seq<char>| #[trigger] m.contains_key(n) ==> exists|i: int| const_at(m[n], items, n, i)
}

spec fn const_at(ty: TypeV, items: Seq<TopLevelV>, n: Seq<char>, i: int) -> bool {
    0 <= i < items.len() && (items[i] matches TopLevelV::Const(c) && c.name == n && c.ty == ty)
}

proof fn lemma_signatures_listed(items: Seq<TopLevelV>, i: int, s: CkV)
    requires
        0 <= i,
        listed(s.fns, items, 0),
        consts_listed(s.consts, items),
    ensures
        ({
            let (t, bad) = typing::collect(Pass::Signatures, items, i, s);
            bad is None ==> listed(t.fns, items, 0) && consts_listed(t.consts, items)
        }),
    decreases items.len() - i,
{
    if i < items.len() {
        let (t, bad) = typing::collect_sig(items[i], s);
        if bad is None {
            assert forall|n: Seq<char>| #[trigger] t.fns.contains_key(n) implies exists|k: int, j: int|
                listed_at(t.fns[n], items, 0, n, k, j) by {
                if s.fns.contains_key(n) && t.fns[n] == s.fns[n] {
                    let (k, j) = choose|k: int, j: int| listed_at(s.fns[n], items, 0, n, k, j);
                    assert(listed_at(t.fns[n], items, 0, n, k, j));
                } else {
                    assert(listed_at(t.fns[n], items, 0, n, i, 0));
                }
            }
            assert forall|n: Seq<char>| #[trigger] t.consts.contains_key(n) implies exists|k: int|
                const_at(t.consts[n], items, n, k) by {
                if s.consts.contains_key(n) && t.consts[n] == s.consts[n] {
                    let k = choose|k: int| const_at(s.consts[n], items, n, k);
                    assert(const_at(t.consts[n], items, n, k));
                } else {
                    assert(const_at(t.consts[n], items, n, i));
                }
            }
            lemma_signatures_listed(items, i + 1, t);
        }
    }
}

/// What the methods of an impl add.
proof fn lemma_methods_listed(
    ib: ImplBlockV,
    sigs: Seq<MethodSigV>,
    i: int,
    acc: Seq<FunctionV>,
    seen: Set<Seq<char>>,
    s: CkV,
    first: CkV,
)
    requires
        0 <= i,
        old_or_method(first.fns, ib, acc, s.fns),
    ensures
        ({
            let c = typing::collect_methods(ib, sigs, i, acc, seen, s);
            c.r is Ok ==> {
                &&& c.s.consts == s.consts
                &&& old_or_method(first.fns, ib, c.node, c.s.fns)
            }
        }),
    decreases ib.methods.len() - i,
{
    if i < ib.methods.len() {
        let m = typing::with_self(ib.methods[i], ib.for_ty);
        let symbol = typing::method_symbol(ib.trait_name, ib.for_ty, m.name);
        let fsig = FnSigV { params: typing::param_types(m.params), ret: m.ret };
        let more = acc.push(m);
        let t = CkV { fns: s.fns.insert(symbol, fsig), ..s };
        assert forall|n: Seq<char>| #[trigger] t.fns.contains_key(n) implies (first.fns.contains_key(
            n,
        ) && first.fns[n] == t.fns[n]) || exists|j: int| method_at(ib, more, t.fns[n], n, j) by {
            if n == symbol {
                assert(more[acc.len() as int] == m);
                assert(method_at(ib, more, t.fns[n], n, acc.len() as int));
            } else {
                assert(s.fns.contains_key(n));
                if !(first.fns.contains_key(n) && first.fns[n] == s.fns[n]) {
                    let j = choose|j: int| method_at(ib, acc, s.fns[n], n, j);
                    assert(more[j] == acc[j]);
                    assert(method_at(ib, more, t.fns[n], n, j));
                }
            }
        }
        assert(old_or_method(first.fns, ib, more, t.fns));
        lemma_methods_listed(ib, sigs, i + 1, more, seen.insert(m.name), t, first);
        let c = typing::collect_methods(ib, sigs, i, acc, seen, s);
        if c.r is Ok {
            assert(c == typing::collect_methods(ib, sigs, i + 1, more, seen.insert(m.name), t));
        }
    }
}

/// Whether every function in `m` is one of `first` or one of the methods `ms`.
spec fn old_or_method(
    first: Map<Seq<char>, FnSigV>,
    ib: ImplBlockV,
    ms: Seq<FunctionV>,
    m: Map<Seq<char>, FnSigV>,
) -> bool {
    forall|n: Seq<char>| #[trigger]
        m.contains_key(n) ==> (first.contains_key(n) && first[n] == m[n]) || exists|j: int|
            method_at(ib, ms, m[n], n, j)
}

spec fn method_at(ib: ImplBlockV, ms: Seq<FunctionV>, sig: FnSigV, n: Seq<char>, j: int) -> bool {
    0 <= j < ms.len() && typing::method_symbol(ib.trait_name, ib.for_ty, ms[j].name) == n && sig_of(
        ms[j],
    ) == sig
}

proof fn lemma_impls_listed(items: Seq<TopLevelV>, i: int, acc: Seq<TopLevelV>, s: CkV)
    requires
        0 <= i <= items.len(),
        acc.len() == i,
        listed(s.fns, typing::resumed(acc, items, i), i),
        consts_listed(s.consts, typing::resumed(acc, items, i)),
    ensures
        ({
            let c = typing::collect_impls(items, i, acc, s);
            c.r is Ok ==> listed(c.s.fns, c.node, c.node.len() as int) && consts_listed(
                c.s.consts,
                c.node,
            )
        }),
    decreases items.len() - i,
{
    let cur = typing::resumed(acc, items, i);
    let next = i + 1;
    if i < items.len() {
        assert(cur[i] == items[i]);
        match items[i] {
            TopLevelV::Impl(ib) => {
                let c = typing::collect_impl(ib, s);
                if c.r is Ok {
                    let s2 = CkV { impls: s.impls.insert((ib.trait_name, ib.for_ty)), ..s };
                    let sigs = s.traits[ib.trait_name].methods;
                    lemma_methods_listed(ib, sigs, 0, Seq::empty(), Set::empty(), s2, s);
                    let more = acc.push(TopLevelV::Impl(c.node));
                    let now = typing::resumed(more, items, i + 1);
                    assert(now =~= cur.update(i, TopLevelV::Impl(c.node)));
                    assert forall|n: Seq<char>| #[trigger] c.s.fns.contains_key(n) implies exists|
                        k: int,
                        j: int,
                    | listed_at(c.s.fns[n], now, next, n, k, j) by {
                        if s.fns.contains_key(n) && s.fns[n] == c.s.fns[n] {
                            let (k, j) = choose|k: int, j: int|
                                listed_at(s.fns[n], cur, i, n, k, j);
                            assert(listed_at(s.fns[n], cur, i, n, k, j));
                            assert(k != i);
                            assert(now[k] == cur[k]);
                            assert(listed_at(c.s.fns[n], now, next, n, k, j));
                        } else {
                            let j = choose|j: int| method_at(ib, c.node.methods, c.s.fns[n], n, j);
                            assert(method_at(ib, c.node.methods, c.s.fns[n], n, j));
                            assert(listed_at(c.s.fns[n], now, next, n, i, j));
                        }
                    }
                    assert forall|n: Seq<char>| #[trigger] c.s.consts.contains_key(n) implies exists|
                        k: int,
                    | const_at(c.s.consts[n], now, n, k) by {
                        let k = choose|k: int| const_at(s.consts[n], cur, n, k);
                        assert(const_at(s.consts[n], cur, n, k));
                        assert(now[k] == cur[k]);
                        assert(const_at(c.s.consts[n], now, n, k));
                    }
                    lemma_impls_listed(items, i + 1, more, c.s);
                }
            },
            _ => {
                let more = acc.push(items[i]);
                assert(typing::resumed(more, items, i + 1) =~= cur);
                assert forall|n: Seq<char>| #[trigger] s.fns.contains_key(n) implies exists|
                    k: int,
                    j: int,
                | listed_at(s.fns[n], cur, next, n, k, j) by {
                    let (k, j) = choose|k: int, j: int| listed_at(s.fns[n], cur, i, n, k, j);
                    assert(listed_at(s.fns[n], cur, i, n, k, j));
                    assert(listed_at(s.fns[n], cur, next, n, k, j));
                }
                lemma_impls_listed(items, i + 1, more, s);
            },
        }
    } else {
        assert(cur =~= acc);
    }
}

/// Whether two items differ in their bodies only.
pub open spec fn same_heads(a: TopLevelV, b: TopLevelV) -> bool {
    match (a, b) {
        (TopLevelV::Function(f), TopLevelV::Function(g)) => f == (FunctionV { body: f.body, ..g }),
        (TopLevelV::Impl(x), TopLevelV::Impl(y)) => {
            &&& x == (ImplBlockV { methods: x.methods, ..y })
            &&& x.methods.len() == y.methods.len()
            &&& forall|j: int|
                0 <= j < x.methods.len() ==> (#[trigger] x.methods[j]) == (FunctionV {
                    body: x.methods[j].body,
                    ..y.methods[j]
                })
        },
        (TopLevelV::Const(c), TopLevelV::Const(d)) => c == (ConstV { value: c.value, ..d }),
        _ => a == b,
    }
}

/// Whether the bodies of an item fit what the program defines.
pub open spec fn fits_item(it: TopLevelV, w: CkV) -> bool {
    match it {
        TopLevelV::Function(f) => fitting::fits_function(f, w),
        TopLevelV::Impl(ib) => forall|j: int|
            0 <= j < ib.methods.len() ==> fitting::fits_function(#[trigger] ib.methods[j], w),
        TopLevelV::Const(c) => c.value.kind matches ExprKindV::Lit(l) && c.ty
            == typing::literal_type(l),
        _ => true,
    }
}

/// Whether `w` has the functions that an item declares.
spec fn item_within(items: Seq<TopLevelV>, i: int, w: CkV) -> bool {
    forall|j: int|
        #[trigger] declared(items, i, j) is Some ==> {
            let a = declared(items, i, j)->0;
            w.fns.contains_key(a.name) && w.fns[a.name] == a.sig
        }
}

proof fn lemma_function_fits(gas: nat, f: FunctionV, s: CkV, w: CkV, n: Seq<char>)
    ensures
        ({
            let c = typing::check_function(gas, f, s);
            c.r is Ok ==> {
                &&& fitting::carries(s, c.s, w)
                &&& fitting::within(s, w) && fitting::in_order(w) && fitting::apart(w)
                    && fitting::instances_within(c.s, w) && w.fns.contains_key(n) && w.fns[n]
                    == sig_of(f) ==> fitting::fits_function(c.node, w)
            }
        }),
{
    let env = typing::scope_of(f.params);
    fitting::lemma_check_as(gas, f.body, f.ret, env, s, w);
    if w.fns.contains_key(n) && w.fns[n] == sig_of(f) && fitting::in_order(w) {
        fitting::lemma_sound_params(w, f.params);
    }
}

proof fn lemma_methods_fit(
    gas: nat,
    ib: ImplBlockV,
    i: int,
    acc: Seq<FunctionV>,
    s: CkV,
    w: CkV,
)
    requires
        0 <= i <= ib.methods.len(),
        acc.len() == i,
        forall|j: int|
            0 <= j < i ==> (#[trigger] acc[j]) == (FunctionV {
                body: acc[j].body,
                ..ib.methods[j]
            }),
    ensures
        ({
            let c = typing::check_methods(gas, ib.methods, i, acc, s);
            c.r is Ok ==> {
                &&& fitting::carries(s, c.s, w)
                &&& same_heads(
                    TopLevelV::Impl(ImplBlockV { methods: c.node, ..ib }),
                    TopLevelV::Impl(ib),
                )
                &&& fitting::within(s, w) && fitting::in_order(w) && fitting::apart(w)
                    && fitting::instances_within(c.s, w) && methods_within(ib, w) && (forall|j: int|
                    0 <= j < acc.len() ==> fitting::fits_function(#[trigger] acc[j], w))
                    ==> forall|j: int|
                    0 <= j < c.node.len() ==> fitting::fits_function(#[trigger] c.node[j], w)
            }
        }),
    decreases ib.methods.len() - i,
{
    broadcast use fitting::lemma_grown_instances;

    if i < ib.methods.len() {
        let f = ib.methods[i];
        let c = typing::check_function(gas, f, s);
        let n = typing::method_symbol(ib.trait_name, ib.for_ty, f.name);
        lemma_function_fits(gas, f, s, w, n);
        if c.r is Ok {
            lemma_methods_fit(gas, ib, i + 1, acc.push(c.node), c.s, w);
        }
    }
}

spec fn methods_within(ib: ImplBlockV, w: CkV) -> bool {
    forall|j: int|
        0 <= j < ib.methods.len() ==> {
            let m = #[trigger] ib.methods[j];
            let n = typing::method_symbol(ib.trait_name, ib.for_ty, m.name);
            w.fns.contains_key(n) && w.fns[n] == sig_of(m)
        }
}

proof fn lemma_item_fits(gas: nat, items: Seq<TopLevelV>, i: int, s: CkV, w: CkV)
    requires
        0 <= i < items.len(),
    ensures
        ({
            let c = typing::check_item(gas, items[i], s);
            c.r is Ok ==> {
                &&& fitting::carries(s, c.s, w)
                &&& same_heads(c.node, items[i])
                &&& fitting::within(s, w) && fitting::in_order(w) && fitting::apart(w)
                    && fitting::instances_within(c.s, w) && item_within(items, i, w) ==> fits_item(
                    c.node,
                    w,
                )
                &&& c.node is Const ==> fits_item(c.node, w)
            }
        }),
{
    match items[i] {
        TopLevelV::Function(f) => {
            lemma_function_fits(gas, f, s, w, f.name);
            assert(declared(items, i, 0) == Some(DeclaredV { name: f.name, sig: sig_of(f) }));
        },
        TopLevelV::Impl(ib) => {
            lemma_methods_fit(gas, ib, 0, Seq::empty(), s, w);
            if item_within(items, i, w) {
                assert forall|j: int| 0 <= j < ib.methods.len() implies ({
                    let m = #[trigger] ib.methods[j];
                    let n = typing::method_symbol(ib.trait_name, ib.for_ty, m.name);
                    w.fns.contains_key(n) && w.fns[n] == sig_of(m)
                }) by {
                    assert(declared(items, i, j) is Some);
                }
            }
        },
        TopLevelV::Const(k) => {
            fitting::lemma_check_as(gas, k.value, k.ty, Map::empty(), s, w);
        },
        _ => {},
    }
}

proof fn lemma_items_fit(gas: nat, items: Seq<TopLevelV>, i: int, acc: Seq<TopLevelV>, s: CkV, w: CkV)
    requires
        0 <= i <= items.len(),
        acc.len() == i,
        forall|j: int| 0 <= j < i ==> same_heads(#[trigger] acc[j], items[j]),
        forall|j: int| 0 <= j < i && acc[j] is Const ==> fits_item(#[trigger] acc[j], w),
    ensures
        ({
            let c = typing::check_items(gas, items, i, acc, s);
            c.r is Ok ==> {
                &&& fitting::carries(s, c.s, w)
                &&& c.node.len() == items.len()
                &&& forall|j: int| 0 <= j < items.len() ==> same_heads(#[trigger] c.node[j], items[j])
                &&& forall|j: int|
                    0 <= j < items.len() && c.node[j] is Const ==> fits_item(#[trigger] c.node[j], w)
                &&& fitting::within(s, w) && fitting::in_order(w) && fitting::apart(w)
                    && fitting::instances_within(c.s, w) && (forall|j: int|
                    0 <= j < items.len() ==> #[trigger] item_within(items, j, w)) && (forall|j: int|
                    0 <= j < acc.len() ==> fits_item(#[trigger] acc[j], w)) ==> forall|j: int|
                    0 <= j < c.node.len() ==> fits_item(#[trigger] c.node[j], w)
            }
        }),
    decreases items.len() - i,
{
    broadcast use fitting::lemma_grown_instances;

    if i < items.len() {
        let c = typing::check_item(gas, items[i], s);
        lemma_item_fits(gas, items, i, s, w);
        if c.r is Ok {
            lemma_items_fit(gas, items, i + 1, acc.push(c.node), c.s, w);
        }
    }
}

proof fn lemma_same_declared(a: Seq<TopLevelV>, b: Seq<TopLevelV>, i: int, j: int)
    requires
        a.len() == b.len(),
        0 <= i < a.len() ==> same_heads(a[i], b[i]),
    ensures
        declared(a, i, j) == declared(b, i, j),
{
    if 0 <= i < a.len() {
        if let (TopLevelV::Impl(x), TopLevelV::Impl(y)) = (a[i], b[i]) {
            if 0 <= j < x.methods.len() {
                assert(x.methods[j] == (FunctionV { body: x.methods[j].body, ..y.methods[j] }));
            }
        }
    }
}

/// In an accepted program whose functions have symbols of their own and types that
/// expressions can have, all bodies fit what the program defines, and its types are in
/// order.
#[verifier::rlimit(40)]
pub proof fn law_accepted_program_fits(p: ProgramV, require_main: bool)
    requires
        typing::check_program(p, require_main).r is Ok,
        ({
            let c = typing::check_program(p, require_main);
            let w = defined(c.node, c.s);
            &&& own_symbols(c.node.items)
            &&& fitting::apart(w)
            &&& forall|n: Seq<char>| #[trigger]
                w.fns.contains_key(n) ==> fitting::sound_type(w, w.fns[n].ret)
                    && fitting::sound_types(w, w.fns[n].params)
        }),
    ensures
        ({
            let c = typing::check_program(p, require_main);
            let w = defined(c.node, c.s);
            &&& fitting::in_order(w)
            &&& forall|i: int| 0 <= i < c.node.items.len() ==> fits_item(#[trigger] c.node.items[i], w)
            &&& forall|n: Seq<char>| #[trigger]
                w.consts.contains_key(n) ==> exists|i: int| constant_at(c.node.items, n, i)
        }),
{
    broadcast use fitting::lemma_grown_instances;

    let end = typing::check_program(p, require_main);
    let items = end.node.items;
    let w = defined(end.node, end.s);
    let s0 = typing::nothing_known();
    let (s1, bad1) = typing::collect(Pass::Types, p.items, 0, s0);
    let (s2, bad2) = typing::collect(Pass::Traits, p.items, 0, s1);
    let (s3, bad3) = typing::collect(Pass::Signatures, p.items, 0, s2);
    let c = typing::collect_impls(p.items, 0, Seq::empty(), s3);
    let gas = typing::instance_keys(typing::universe_of(c.s, p.items)).len();
    let d = typing::check_items(gas, c.node, 0, Seq::empty(), c.s);
    collected::lemma_no_instances(p.items);
    assert(typing::resumed(Seq::<TopLevelV>::empty(), p.items, 0) =~= p.items);
    lemma_signatures_listed(p.items, 0, s2);
    lemma_impls_listed(p.items, 0, Seq::empty(), s3);
    lemma_items_fit(gas, c.node, 0, Seq::empty(), c.s, w);
    let made = Seq::new(d.s.mono_fns.len(), |i: int| TopLevelV::Function(d.s.mono_fns[i]));
    assert(items == d.node + made);
    // declared in the end
    assert forall|i: int, j: int| #[trigger] declared(c.node, i, j) is Some implies declared(items, i, j)
        == declared(c.node, i, j) by {
        lemma_same_declared(d.node, c.node, i, j);
        assert(items[i] == d.node[i]);
    }
    assert forall|i: int| 0 <= i < c.node.len() implies #[trigger] item_within(c.node, i, w) by {
        assert forall|j: int| #[trigger] declared(c.node, i, j) is Some implies ({
            let a = declared(c.node, i, j)->0;
            w.fns.contains_key(a.name) && w.fns[a.name] == a.sig
        }) by {
            lemma_signature(items, i, j);
        }
    }
    assert(fitting::instances_within(d.s, w)) by {
        assert forall|i: int| 0 <= i < d.s.mono_fns.len() implies ({
            let f = #[trigger] d.s.mono_fns[i];
            w.fns.contains_key(f.name) && w.fns[f.name] == (FnSigV {
                params: typing::param_types(f.params),
                ret: f.ret,
            })
        }) by {
            let k: int = d.node.len() + i;
            assert(items[k] == TopLevelV::Function(d.s.mono_fns[i]));
            assert(declared(items, k, 0) is Some);
            lemma_signature(items, k, 0);
        }
    }
    assert(fitting::within(c.s, w)) by {
        assert forall|n: Seq<char>| #[trigger] c.s.fns.contains_key(n) implies w.fns.contains_key(n)
            && w.fns[n] == c.s.fns[n] by {
            let (i, j) = choose|i: int, j: int|
                listed_at(c.s.fns[n], c.node, c.node.len() as int, n, i, j);
            assert(listed_at(c.s.fns[n], c.node, c.node.len() as int, n, i, j));
            assert(declared(c.node, i, j) is Some);
            lemma_signature(items, i, j);
        }
    }
    assert forall|n: Seq<char>| #[trigger] w.consts.contains_key(n) implies exists|i: int|
        constant_at(items, n, i) by {
        let i = choose|i: int| const_at(c.s.consts[n], c.node, n, i);
        assert(const_at(c.s.consts[n], c.node, n, i));
        assert(same_heads(d.node[i], c.node[i]));
        assert(items[i] == d.node[i]);
        assert(constant_at(items, n, i));
    }
    assert(fitting::in_order(w)) by {
        assert forall|n: Seq<char>| #[trigger] w.consts.contains_key(n) implies ast::scalar(
            w.consts[n],
        ) || w.consts[n] is Str by {
            let i = choose|i: int| const_at(c.s.consts[n], c.node, n, i);
            assert(const_at(c.s.consts[n], c.node, n, i));
            assert(same_heads(d.node[i], c.node[i]));
            assert(fits_item(d.node[i], w));
        }
    }
    assert(fitting::instances_fit(c.s, w));
    assert(fitting::instances_fit(d.s, w));
    assert forall|i: int| 0 <= i < items.len() implies fits_item(#[trigger] items[i], w) by {
        if i < d.node.len() {
            assert(items[i] == d.node[i]);
        } else {
            let f = d.s.mono_fns[i - d.node.len()];
            assert(items[i] == TopLevelV::Function(f));
            assert(fitting::fits_function(f, w));
        }
    }
}

/// Whether item `i` defines the constant `n`.
pub open spec fn constant_at(items: Seq<TopLevelV>, n: Seq<char>, i: int) -> bool {
    0 <= i < items.len() && (items[i] matches TopLevelV::Const(c) && c.name == n)
}

} // verus!
