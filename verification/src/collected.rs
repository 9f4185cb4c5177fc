//! What the passes over the definitions establish for the checking of bodies.
use crate::ast::{
    EnumDefV, FieldDefV, FunctionV, ImplBlockV, MethodSigV, ParamV, Span, TopLevelV, TraitDefV,
    TypeV,
};
use crate::ast;
use crate::instances;
use crate::typing::{CkV, FnSigV, Pass, Universe, VariantInfoV};
use crate::typing;
use vstd::prelude::*;

verus! {

/// The structs and enums that have been collected are in order.
spec fn types_in_order(s: CkV) -> bool {
    &&& forall|n: Seq<char>| #[trigger]
        s.structs.contains_key(n) ==> s.structs[n].name == n && forall|i: int|
            0 <= i < s.structs[n].fields.len() ==> ast::scalar((#[trigger] s.structs[n].fields[i]).ty)
    &&& forall|n: Seq<char>| #[trigger]
        s.variants.contains_key(n) ==> s.enums.contains_key(s.variants[n].enum_name) && (
        s.variants[n].payload is Some ==> ast::scalar(s.variants[n].payload->0))
}

/// Only the types differ.
spec fn same_but_types(s: CkV, t: CkV) -> bool {
    t == (CkV { structs: t.structs, enums: t.enums, variants: t.variants, ..s })
}

proof fn lemma_fields_scalar(fields: Seq<FieldDefV>, i: int, seen: Set<Seq<char>>)
    requires
        0 <= i,
    ensures
        typing::bad_field(fields, i, seen) is None ==> forall|j: int|
            i <= j < fields.len() ==> ast::scalar((#[trigger] fields[j]).ty),
    decreases fields.len() - i,
{
    if i < fields.len() {
        lemma_fields_scalar(fields, i + 1, seen.insert(fields[i].name));
    }
}

proof fn lemma_variants(e: EnumDefV, i: int, seen: Set<Seq<char>>, s: CkV)
    requires
        0 <= i,
        forall|n: Seq<char>| #[trigger]
            s.variants.contains_key(n) ==> (s.variants[n].enum_name == e.name
                || s.enums.contains_key(s.variants[n].enum_name)) && (s.variants[n].payload is Some
                ==> ast::scalar(s.variants[n].payload->0)),
    ensures
        ({
            let (t, bad) = typing::collect_variants(e, i, seen, s);
            &&& t == (CkV { variants: t.variants, ..s })
            &&& bad is None ==> forall|n: Seq<char>| #[trigger]
                t.variants.contains_key(n) ==> (t.variants[n].enum_name == e.name
                    || t.enums.contains_key(t.variants[n].enum_name)) && (t.variants[n].payload is Some
                    ==> ast::scalar(t.variants[n].payload->0))
        }),
    decreases e.variants.len() - i,
{
    if i < e.variants.len() {
        let v = e.variants[i];
        if !(seen.contains(v.name) || typing::taken(s, v.name)) && !(v.payload is Some && !ast::scalar(
            v.payload->0,
        )) {
            let info = VariantInfoV { enum_name: e.name, tag: i as u32, payload: v.payload };
            lemma_variants(
                e,
                i + 1,
                seen.insert(v.name),
                CkV { variants: s.variants.insert(v.name, info), ..s },
            );
        }
    }
}

proof fn lemma_types_pass(items: Seq<TopLevelV>, i: int, s: CkV)
    requires
        0 <= i,
        types_in_order(s),
    ensures
        ({
            let (t, bad) = typing::collect(Pass::Types, items, i, s);
            bad is None ==> types_in_order(t) && same_but_types(s, t)
        }),
    decreases items.len() - i,
{
    if i < items.len() {
        let (t, bad) = typing::collect_type(items[i], s);
        match items[i] {
            TopLevelV::Struct(d) => lemma_fields_scalar(d.fields, 0, Set::empty()),
            TopLevelV::Enum(e) => lemma_variants(e, 0, Set::empty(), s),
            _ => {},
        }
        if bad is None {
            lemma_types_pass(items, i + 1, t);
        }
    }
}

proof fn lemma_sigs_keep(t: TraitDefV, i: int, seen: Set<Seq<char>>, s: CkV)
    requires
        0 <= i,
    ensures
        ({
            let (t2, _) = typing::collect_sigs(t, i, seen, s);
            t2 == (CkV { trait_methods: t2.trait_methods, ..s })
        }),
    decreases t.methods.len() - i,
{
    if i < t.methods.len() {
        let m = t.methods[i];
        lemma_sigs_keep(
            t,
            i + 1,
            seen.insert(m.name),
            CkV { trait_methods: s.trait_methods.insert(m.name, t.name), ..s },
        );
    }
}

proof fn lemma_traits_pass(items: Seq<TopLevelV>, i: int, s: CkV)
    requires
        0 <= i,
    ensures
        ({
            let (t, bad) = typing::collect(Pass::Traits, items, i, s);
            bad is None ==> t == (CkV { traits: t.traits, trait_methods: t.trait_methods, ..s })
        }),
    decreases items.len() - i,
{
    if i < items.len() {
        let (t, bad) = typing::collect_trait(items[i], s);
        if let TopLevelV::Trait(d) = items[i] {
            lemma_sigs_keep(d, 0, Set::empty(), s);
        }
        if bad is None {
            lemma_traits_pass(items, i + 1, t);
        }
    }
}

proof fn lemma_signature_type(s: CkV, ty: TypeV, tps: Set<Seq<char>>, span: Span, u: Universe)
    requires
        u.names == s.structs.dom() + s.enums.dom(),
    ensures
        typing::bad_signature_type(s, ty, tps, span) is None ==> instances::plain_in(ty, tps, u),
{
}

proof fn lemma_plain(ty: TypeV, u: Universe)
    requires
        instances::plain_in(ty, Set::empty(), u),
    ensures
        typing::known(u, ty),
{
}

proof fn lemma_params_plain(
    s: CkV,
    params: Seq<ParamV>,
    i: int,
    tps: Set<Seq<char>>,
    u: Universe,
)
    requires
        0 <= i,
        u.names == s.structs.dom() + s.enums.dom(),
    ensures
        typing::bad_param(s, params, i, tps, false) is None ==> forall|j: int|
            i <= j < params.len() ==> instances::plain_in((#[trigger] params[j]).ty, tps, u),
    decreases params.len() - i,
{
    if i < params.len() {
        lemma_signature_type(s, params[i].ty, tps, params[i].span, u);
        lemma_params_plain(s, params, i + 1, tps, u);
    }
}

proof fn lemma_names_defined(s: CkV, ty: TypeV, u: Universe)
    requires
        u.names == s.structs.dom() + s.enums.dom(),
    ensures
        typing::undefined_in(s, ty, Set::empty()) is None ==> typing::names_in(u.names, ty),
    decreases ty,
{
    if let TypeV::Array { elem, .. } = ty {
        lemma_names_defined(s, *elem, u);
    }
}

/// The types that an item brings in do not nest deeper than the universe allows.
spec fn item_fits(it: TopLevelV, u: Universe) -> bool {
    &&& it matches TopLevelV::Const(c) ==> typing::type_depth(c.ty) <= u.depth
    &&& it matches TopLevelV::Impl(ib) ==> typing::type_depth(ib.for_ty) <= u.depth
}

spec fn params_known(params: Seq<ParamV>, u: Universe) -> bool {
    forall|j: int| 0 <= j < params.len() ==> typing::known(u, (#[trigger] params[j]).ty)
}

/// The parameters of an item have known types.
pub closed spec fn item_known(it: TopLevelV, u: Universe) -> bool {
    &&& it matches TopLevelV::Function(f) ==> params_known(f.params, u)
    &&& it matches TopLevelV::Impl(ib) ==> forall|j: int|
        0 <= j < ib.methods.len() ==> params_known((#[trigger] ib.methods[j]).params, u)
}

/// The parameters of a function of known item are a known scope.
pub proof fn lemma_function_scope(it: TopLevelV, u: Universe)
    requires
        item_known(it, u),
    ensures
        it matches TopLevelV::Function(f) ==> instances::scope_known(u, typing::scope_of(f.params)),
        it matches TopLevelV::Impl(ib) ==> forall|j: int|
            0 <= j < ib.methods.len() ==> instances::scope_known(
                u,
                typing::scope_of((#[trigger] ib.methods[j]).params),
            ),
{
    if let TopLevelV::Function(f) = it {
        instances::lemma_scope_known(f.params, u);
    }
    if let TopLevelV::Impl(ib) = it {
        assert forall|j: int| 0 <= j < ib.methods.len() implies instances::scope_known(
            u,
            typing::scope_of((#[trigger] ib.methods[j]).params),
        ) by {
            instances::lemma_scope_known(ib.methods[j].params, u);
        }
    }
}

proof fn lemma_signature_item(it: TopLevelV, s: CkV, u: Universe)
    requires
        instances::sound(s, u),
        item_fits(it, u),
    ensures
        ({
            let (t, bad) = typing::collect_sig(it, s);
            bad is None ==> {
                &&& instances::sound(t, u)
                &&& t.structs == s.structs && t.enums == s.enums && t.mono_cache == s.mono_cache
                &&& t.mono_fns == s.mono_fns
                &&& it matches TopLevelV::Function(f) ==> params_known(f.params, u)
            }
        }),
{
    let (t, bad) = typing::collect_sig(it, s);
    match it {
        TopLevelV::Function(f) => {
            lemma_params_plain(s, f.params, 0, Set::empty(), u);
            lemma_signature_type(s, f.ret, Set::empty(), f.span, u);
            if bad is None {
                lemma_plain(f.ret, u);
                assert forall|j: int| 0 <= j < f.params.len() implies typing::known(
                    u,
                    (#[trigger] f.params[j]).ty,
                ) by {
                    lemma_plain(f.params[j].ty, u);
                }
            }
        },
        TopLevelV::GenericFunction(g) => {
            let tps = typing::type_param_names(g.type_params);
            lemma_params_plain(s, g.params, 0, tps, u);
            lemma_signature_type(s, g.ret, tps, g.span, u);
        },
        TopLevelV::Const(c) => {
            lemma_names_defined(s, c.ty, u);
        },
        _ => {},
    }
}

proof fn lemma_signatures_pass(items: Seq<TopLevelV>, i: int, s: CkV, u: Universe)
    requires
        0 <= i,
        instances::sound(s, u),
        forall|j: int| 0 <= j < items.len() ==> item_fits(#[trigger] items[j], u),
    ensures
        ({
            let (t, bad) = typing::collect(Pass::Signatures, items, i, s);
            bad is None ==> {
                &&& instances::sound(t, u)
                &&& t.structs == s.structs && t.enums == s.enums && t.mono_cache == s.mono_cache
                &&& t.mono_fns == s.mono_fns
                &&& forall|j: int|
                    i <= j < items.len() ==> ((#[trigger] items[j]) matches TopLevelV::Function(f)
                        ==> params_known(f.params, u))
            }
        }),
    decreases items.len() - i,
{
    if i < items.len() {
        let (t, bad) = typing::collect_sig(items[i], s);
        assert(item_fits(items[i], u));
        lemma_signature_item(items[i], s, u);
        if bad is None {
            lemma_signatures_pass(items, i + 1, t, u);
        }
    }
}

proof fn lemma_method_params(s: CkV, params: Seq<ParamV>, sig: Seq<ParamV>, i: int, u: Universe)
    requires
        0 <= i,
        u.names == s.structs.dom() + s.enums.dom(),
    ensures
        typing::bad_method_param(s, params, sig, i) is None ==> forall|j: int|
            i <= j < params.len() ==> j == 0 && params[0].name == "self"@ || typing::known(
                u,
                (#[trigger] params[j]).ty,
            ),
    decreases params.len() - i,
{
    if i < params.len() {
        lemma_method_params(s, params, sig, i + 1, u);
        lemma_signature_type(s, params[i].ty, Set::empty(), params[i].span, u);
        if typing::bad_signature_type(s, params[i].ty, Set::empty(), params[i].span) is None {
            lemma_plain(params[i].ty, u);
        }
    }
}

proof fn lemma_methods(
    ib: ImplBlockV,
    sigs: Seq<MethodSigV>,
    i: int,
    acc: Seq<FunctionV>,
    seen: Set<Seq<char>>,
    s: CkV,
    u: Universe,
)
    requires
        0 <= i,
        instances::sound(s, u),
        typing::known(u, ib.for_ty),
        forall|j: int| 0 <= j < acc.len() ==> params_known((#[trigger] acc[j]).params, u),
    ensures
        ({
            let c = typing::collect_methods(ib, sigs, i, acc, seen, s);
            &&& c.s == (CkV { fns: c.s.fns, ..s })
            &&& c.r is Ok ==> {
                &&& instances::sound(c.s, u)
                &&& forall|j: int|
                    0 <= j < c.node.len() ==> params_known((#[trigger] c.node[j]).params, u)
            }
        }),
    decreases ib.methods.len() - i,
{
    if i < ib.methods.len() {
        let sig = typing::find_sig(sigs, ib.methods[i].name, 0);
        if typing::bad_method_head(ib.methods[i], ib.trait_name, sig, seen) is None {
            let m = typing::with_self(ib.methods[i], ib.for_ty);
            lemma_method_params(s, m.params, sig->0.params, 0, u);
            lemma_signature_type(s, m.ret, Set::empty(), m.span, u);
            if typing::bad_method_param(s, m.params, sig->0.params, 0) is None && typing::bad_signature_type(
                s,
                m.ret,
                Set::empty(),
                m.span,
            ) is None {
                lemma_plain(m.ret, u);
                let symbol = typing::method_symbol(ib.trait_name, ib.for_ty, m.name);
                let fsig = FnSigV { params: typing::param_types(m.params), ret: m.ret };
                let t = CkV { fns: s.fns.insert(symbol, fsig), ..s };
                assert(params_known(m.params, u));
                lemma_methods(ib, sigs, i + 1, acc.push(m), seen.insert(m.name), t, u);
            }
        }
    }
}

proof fn lemma_impl(ib: ImplBlockV, s: CkV, u: Universe)
    requires
        instances::sound(s, u),
        typing::type_depth(ib.for_ty) <= u.depth,
    ensures
        ({
            let c = typing::collect_impl(ib, s);
            &&& c.s == (CkV { fns: c.s.fns, impls: c.s.impls, ..s })
            &&& c.r is Ok ==> instances::sound(c.s, u) && item_known(TopLevelV::Impl(c.node), u)
        }),
{
    lemma_names_defined(s, ib.for_ty, u);
    if s.traits.contains_key(ib.trait_name) && typing::undefined_in(s, ib.for_ty, Set::empty()) is None
        && !s.impls.contains((ib.trait_name, ib.for_ty)) {
        let s2 = CkV { impls: s.impls.insert((ib.trait_name, ib.for_ty)), ..s };
        lemma_methods(
            ib,
            s.traits[ib.trait_name].methods,
            0,
            Seq::empty(),
            Set::empty(),
            s2,
            u,
        );
    }
}

proof fn lemma_impls_pass(items: Seq<TopLevelV>, i: int, acc: Seq<TopLevelV>, s: CkV, u: Universe)
    requires
        0 <= i,
        instances::sound(s, u),
        forall|j: int| 0 <= j < items.len() ==> item_fits(#[trigger] items[j], u),
        forall|j: int|
            0 <= j < items.len() ==> ((#[trigger] items[j]) matches TopLevelV::Function(f)
                ==> params_known(f.params, u)),
        forall|j: int| 0 <= j < acc.len() ==> item_known(#[trigger] acc[j], u),
    ensures
        ({
            let c = typing::collect_impls(items, i, acc, s);
            c.r is Ok ==> {
                &&& c.s == (CkV { fns: c.s.fns, impls: c.s.impls, ..s })
                &&& instances::sound(c.s, u)
                &&& forall|j: int| 0 <= j < c.node.len() ==> item_known(#[trigger] c.node[j], u)
            }
        }),
    decreases items.len() - i,
{
    if i < items.len() {
        assert(item_fits(items[i], u));
        match items[i] {
            TopLevelV::Impl(ib) => {
                lemma_impl(ib, s, u);
                let c = typing::collect_impl(ib, s);
                if c.r is Ok {
                    lemma_impls_pass(items, i + 1, acc.push(TopLevelV::Impl(c.node)), c.s, u);
                }
            },
            _ => {
                assert(item_known(items[i], u));
                lemma_impls_pass(items, i + 1, acc.push(items[i]), s, u);
            },
        }
    }
}

proof fn lemma_items_depth(items: Seq<TopLevelV>, i: int)
    requires
        0 <= i,
    ensures
        typing::items_depth(items, i) >= 1,
        forall|j: int|
            i <= j < items.len() ==> ((#[trigger] items[j]) matches TopLevelV::Const(c)
                ==> typing::type_depth(c.ty) <= typing::items_depth(items, i)),
        forall|j: int|
            i <= j < items.len() ==> ((#[trigger] items[j]) matches TopLevelV::Impl(ib)
                ==> typing::type_depth(ib.for_ty) <= typing::items_depth(items, i)),
    decreases items.len() - i,
{
    if i < items.len() {
        lemma_items_depth(items, i + 1);
    }
}

/// After the passes what is known is sound, and no instance has been made.
pub proof fn lemma_no_instances(items: Seq<TopLevelV>)
    ensures
        ({
            let (s1, bad1) = typing::collect(Pass::Types, items, 0, typing::nothing_known());
            let (s2, bad2) = typing::collect(Pass::Traits, items, 0, s1);
            let (s3, bad3) = typing::collect(Pass::Signatures, items, 0, s2);
            let c = typing::collect_impls(items, 0, Seq::empty(), s3);
            bad1 is None && bad2 is None && bad3 is None && c.r is Ok ==> {
                &&& c.s.mono_fns.len() == 0
                &&& c.s.mono_cache.dom() =~= Set::empty()
                &&& s2.fns == Map::<Seq<char>, FnSigV>::empty()
                &&& s2.consts == Map::<Seq<char>, TypeV>::empty()
                &&& instances::sound(c.s, typing::universe_of(c.s, items))
            }
        }),
{
    let s0 = typing::nothing_known();
    let (s1, bad1) = typing::collect(Pass::Types, items, 0, s0);
    let (s2, bad2) = typing::collect(Pass::Traits, items, 0, s1);
    let (s3, bad3) = typing::collect(Pass::Signatures, items, 0, s2);
    let c = typing::collect_impls(items, 0, Seq::empty(), s3);
    if bad1 is None && bad2 is None && bad3 is None && c.r is Ok {
        lemma_types_pass(items, 0, s0);
        lemma_traits_pass(items, 0, s1);
        lemma_items_depth(items, 0);
        let v = Universe {
            names: s2.structs.dom() + s2.enums.dom(),
            depth: typing::items_depth(items, 0),
            generics: s3.generic_fns,
        };
        assert(instances::sound(s2, v));
        lemma_signatures_pass(items, 0, s2, v);
        lemma_impls_pass(items, 0, Seq::empty(), s3, v);
    }
}

/// After the passes everything is ready for the bodies: as many instances can be
/// made as there are.
pub proof fn lemma_collected(items: Seq<TopLevelV>)
    ensures
        ({
            let (s1, bad1) = typing::collect(Pass::Types, items, 0, typing::nothing_known());
            let (s2, bad2) = typing::collect(Pass::Traits, items, 0, s1);
            let (s3, bad3) = typing::collect(Pass::Signatures, items, 0, s2);
            let c = typing::collect_impls(items, 0, Seq::empty(), s3);
            let u = typing::universe_of(c.s, items);
            bad1 is None && bad2 is None && bad3 is None && c.r is Ok && u.names.finite()
                && u.generics.dom().finite() ==> {
                &&& instances::ready(c.s, u, typing::instance_keys(u).len())
                &&& forall|j: int| 0 <= j < c.node.len() ==> item_known(#[trigger] c.node[j], u)
            }
        }),
{
    let s0 = typing::nothing_known();
    let (s1, bad1) = typing::collect(Pass::Types, items, 0, s0);
    let (s2, bad2) = typing::collect(Pass::Traits, items, 0, s1);
    let (s3, bad3) = typing::collect(Pass::Signatures, items, 0, s2);
    let c = typing::collect_impls(items, 0, Seq::empty(), s3);
    let u = typing::universe_of(c.s, items);
    if bad1 is None && bad2 is None && bad3 is None && c.r is Ok && u.names.finite()
        && u.generics.dom().finite() {
        lemma_types_pass(items, 0, s0);
        lemma_traits_pass(items, 0, s1);
        lemma_items_depth(items, 0);
        let v = Universe {
            names: s2.structs.dom() + s2.enums.dom(),
            depth: typing::items_depth(items, 0),
            generics: u.generics,
        };
        assert(instances::sound(s2, v));
        lemma_signatures_pass(items, 0, s2, v);
        lemma_impls_pass(items, 0, Seq::empty(), s3, v);
        assert(u == v);
        reveal(instances::ready);
        assert(c.s.mono_cache.dom() =~= Set::empty());
        assert(typing::instance_keys(u).difference(c.s.mono_cache.dom()) =~= typing::instance_keys(u));
    }
}

} // verus!
