//! The script of the bindings of a `let` does what these mean.
use crate::ast::{BindingV, TypeV};
use crate::blocks;
use crate::fitting;
use crate::ir::{OpV, Val, ValV};
use crate::lowering::{GenV, LocalV, Shadowed};
use crate::lowering;
use crate::machine::MachineV;
use crate::machine;
use crate::meaning::{LV, Meaning, Res, StateV, VarV};
use crate::meaning;
use crate::scopes;
use crate::simulation::Bind;
use crate::simulation;
use crate::typing::{CkV, Env};
use vstd::prelude::*;

verus! {

pub proof fn lemma_place_push(bs: Seq<Bind>, b: Bind, n: Seq<char>)
    ensures
        simulation::place(bs.push(b), n) == if n == b.name {
            Some(bs.len() as int)
        } else {
            simulation::place(bs, n)
        },
        simulation::env_of(bs.push(b)) == simulation::env_of(bs).insert(b.name, b.ty),
{
    assert(bs.push(b).drop_last() =~= bs);
}

/// The innermost variable of a name is not before one of that name.
pub proof fn lemma_place_from(bs: Seq<Bind>, name: Seq<char>, k: int)
    requires
        0 <= k < bs.len(),
        bs[k].name == name,
    ensures
        simulation::place(bs, name) matches Some(i) && k <= i < bs.len() && bs[i].name == name,
    decreases bs.len(),
{
    if bs.last().name != name {
        lemma_place_from(bs.drop_last(), name, k);
    }
}

/// One more variable in scope.
pub proof fn lemma_scope_push(ops: Seq<OpV>, g: GenV, h: GenV, bs: Seq<Bind>, b: Bind)
    requires
        simulation::scope(ops, g, bs),
        g.ops.len() <= b.slot < h.ops.len(),
        ops[b.slot] is EntryAlloca,
        h.locals == lowering::with_local(
            g.locals,
            LocalV { name: b.name, ptr: ValV::Reg(b.slot as usize), ty: b.ty },
        ),
    ensures
        simulation::scope(ops, h, bs.push(b)),
{
    reveal(simulation::scope);
    let more = bs.push(b);
    let l = LocalV { name: b.name, ptr: ValV::Reg(b.slot as usize), ty: b.ty };
    assert forall|n: Seq<char>| #[trigger] lowering::find_local(h.locals, n) == match simulation::place(more, n) {
        Some(k) => Some(
            LocalV { name: n, ptr: ValV::Reg(more[k].slot as usize), ty: more[k].ty },
        ),
        None => None,
    } by {
        scopes::lemma_with(g.locals, l, n);
        lemma_place_push(bs, b, n);
        simulation::lemma_place(bs, n);
        assert(lowering::find_local(g.locals, n) == match simulation::place(bs, n) {
            Some(k) => Some(LocalV { name: n, ptr: ValV::Reg(bs[k].slot as usize), ty: bs[k].ty }),
            None => None,
        });
        if let Some(k) = simulation::place(bs, n) {
            assert(more[k] == bs[k]);
        }
    }
    assert forall|i: int| 0 <= i < more.len() implies 0 <= (#[trigger] more[i]).slot < h.ops.len()
        && ops[more[i].slot] is EntryAlloca by {
        if i < bs.len() {
            assert(more[i] == bs[i]);
        }
    }
    assert forall|i: int, j: int| 0 <= i < j < more.len() implies (#[trigger] more[i]).slot != (
    #[trigger] more[j]).slot by {
        assert(more[i] == bs[i]);
        if j < bs.len() {
            assert(more[j] == bs[j]);
        }
    }
}

pub proof fn lemma_agrees_push(
    c: CkV,
    bs: Seq<Bind>,
    s: StateV,
    m: MachineV,
    r: MachineV,
    b: Bind,
    v: LV,
)
    requires
        simulation::agrees(c, bs, s, m),
        forall|i: int| 0 <= i < bs.len() ==> (#[trigger] bs[i]).slot != b.slot,
        r.mem == m.mem.insert(b.slot, simulation::repr(v, c)),
        r.out == m.out,
        simulation::has_type(v, b.ty, c),
    ensures
        simulation::agrees(
            c,
            bs.push(b),
            StateV { env: s.env.push(VarV { name: b.name, val: v }), ..s },
            r,
        ),
{
    reveal(simulation::agrees);
    let more = bs.push(b);
    let t = StateV { env: s.env.push(VarV { name: b.name, val: v }), ..s };
    assert forall|i: int| 0 <= i < more.len() implies {
        &&& (#[trigger] t.env[i]).name == more[i].name
        &&& simulation::has_type(t.env[i].val, more[i].ty, c)
        &&& r.mem.contains_key(more[i].slot)
        &&& r.mem[more[i].slot] == simulation::repr(t.env[i].val, c)
    } by {
        if i < bs.len() {
            assert(t.env[i] == s.env[i]);
            assert(more[i] == bs[i]);
        }
    }
}

/// The outer variables.
pub proof fn lemma_agrees_take(c: CkV, bs: Seq<Bind>, s: StateV, m: MachineV, r: MachineV, k: int)
    requires
        simulation::agrees(c, bs, s, m),
        0 <= k <= bs.len(),
        r.out == m.out,
        forall|i: int|
            0 <= i < k ==> r.mem.contains_key((#[trigger] bs[i]).slot) && r.mem[bs[i].slot]
                == m.mem[bs[i].slot],
    ensures
        simulation::agrees(c, bs.take(k), StateV { env: s.env.take(k), ..s }, r),
{
    reveal(simulation::agrees);
    let t = StateV { env: s.env.take(k), ..s };
    assert forall|i: int| 0 <= i < bs.take(k).len() implies {
        &&& (#[trigger] t.env[i]).name == bs.take(k)[i].name
        &&& simulation::has_type(t.env[i].val, bs.take(k)[i].ty, c)
        &&& r.mem.contains_key(bs.take(k)[i].slot)
        &&& r.mem[bs.take(k)[i].slot] == simulation::repr(t.env[i].val, c)
    } by {
        assert(t.env[i] == s.env[i]);
        assert(bs.take(k)[i] == bs[i]);
    }
}

/// A slot, and a value in it.
pub proof fn do_bind(
    p: Meaning,
    ops: Seq<OpV>,
    g: GenV,
    name: Seq<char>,
    ty: TypeV,
    v: ValV,
    m: MachineV,
) -> (r: MachineV)
    requires
        simulation::here(g, m),
        !g.ended,
        simulation::linked(p, ops, g),
        simulation::before(v, g.ops.len() as int),
        lowering::lower_slot(g, name, ty).r is Ok,
        ({
            let c = lowering::lower_slot(g, name, ty);
            let d = lowering::lower_store(c.g, c.r->Ok_0, v, ty);
            d.r is Ok && simulation::within(ops, d.g)
        }),
    ensures
        ({
            let c = lowering::lower_slot(g, name, ty);
            let d = lowering::lower_store(c.g, c.r->Ok_0, v, ty);
            let slot = g.ops.len() as int;
            &&& c.r->Ok_0 == ValV::Reg(slot as usize)
            &&& slot < d.g.ops.len()
            &&& ops[slot] is EntryAlloca
            &&& machine::leads(p.w, ops, m, r)
            &&& simulation::kept(slot, m, r)
            &&& r.mem == m.mem.insert(slot, machine::operand(p.w, ops, m, v))
            &&& r.out == m.out
            &&& simulation::here(d.g, r)
            &&& !d.g.ended
            &&& simulation::linked(p, ops, d.g)
            &&& d.g.locals == g.locals
        }),
{
    broadcast use {simulation::group_within, simulation::group_linked};

    let c = lowering::lower_slot(g, name, ty);
    let slot = g.ops.len() as int;
    let d = lowering::lower_store(c.g, c.r->Ok_0, v, ty);
    blocks::fill_store(c.g, c.r->Ok_0, v, ty);
    assert(simulation::within(ops, c.g));
    assert(ops.len() <= usize::MAX) by {
        reveal(simulation::within);
    }
    let m1 = simulation::take(p.w, ops, m, ops[m.pc]);
    simulation::lemma_operand_kept(p.w, ops, slot, m, m1, v);
    let m2 = simulation::do_store(p, ops, c.g, slot, v, ty, m1);
    machine::leads_on(p.w, ops, m, m1, m2);
    simulation::kept_on(slot, c.g.ops.len() as int, m, m1, m2);
    m2
}

/// The variable that a binding makes.
pub open spec fn bound(x: BindingV, g: GenV) -> Bind {
    Bind { name: x.name, ty: x.ty, slot: lowering::lower_value(x.value, g, "let value"@).g.ops.len() as int }
}

/// One binding of a `let`.
pub proof fn sim_binding(
    n: nat,
    p: Meaning,
    ops: Seq<OpV>,
    x: BindingV,
    g: GenV,
    bs: Seq<Bind>,
    s: StateV,
    m: MachineV,
) -> (r: MachineV)
    requires
        simulation::ready(p, ops, g, bs, s, m),
        fitting::fits(x.value, simulation::env_of(bs), p.types),
        x.value.ty == Some(x.ty),
        meaning::eval(n, p, x.value, s) is Some,
        lowering::lower_binding(x, g).r is Ok,
        simulation::within(ops, lowering::lower_binding(x, g).g),
    ensures
        ({
            let h = lowering::lower_binding(x, g).g;
            let (v, t) = meaning::eval(n, p, x.value, s)->0;
            &&& machine::leads(p.w, ops, m, r)
            &&& simulation::kept(g.ops.len() as int, m, r)
            &&& g.ops.len() <= h.ops.len()
            &&& h.loop_exits == g.loop_exits
            &&& v is Brk ==> simulation::left_loop(ops, g, r) && simulation::agrees(p.types, bs, t, r)
            &&& v matches Res::Val(y) ==> simulation::ready(
                p,
                ops,
                h,
                bs.push(bound(x, g)),
                StateV { env: t.env.push(VarV { name: x.name, val: y }), ..t },
                r,
            )
        }),
    decreases n, x, 11int,
{
    let c = lowering::lower_value(x.value, g, "let value"@);
    simulation::value_after(p, ops, x.value, "let value"@, g, bs);
    let sl = lowering::lower_slot(c.g, x.name, x.ty);
    let d = lowering::lower_store(sl.g, sl.r->Ok_0, c.r->Ok_0, x.ty);
    let l = LocalV { name: x.name, ptr: sl.r->Ok_0, ty: x.ty };
    let h = GenV { locals: lowering::with_local(d.g.locals, l), ..d.g };
    assert(lowering::lower_binding(x, g).g == h);
    simulation::lemma_within_same(ops, h, d.g);
    blocks::fill_slot(c.g, x.name, x.ty);
    blocks::fill_store(sl.g, sl.r->Ok_0, c.r->Ok_0, x.ty);
    simulation::lemma_within_fills(ops, sl.g, d.g);
    simulation::lemma_within_fills(ops, c.g, sl.g);
    let m1 = simulation::sim_value(n, p, ops, x.value, "let value"@, g, bs, s, m);
    let (v, s1) = meaning::eval(n, p, x.value, s)->0;
    assert(sl.g.ops.len() <= d.g.ops.len() && d.g.loop_exits == g.loop_exits) by {
        reveal(blocks::fills);
        reveal(blocks::since);
    }
    if v is Brk {
        m1
    } else {
        let slot = c.g.ops.len() as int;
        let m2 = do_bind(p, ops, c.g, x.name, x.ty, c.r->Ok_0, m1);
        machine::leads_on(p.w, ops, m, m1, m2);
        simulation::kept_on(g.ops.len() as int, slot, m, m1, m2);
        let b = bound(x, g);
        lemma_scope_push(ops, c.g, h, bs, b);
        assert forall|k: int| 0 <= k < bs.len() implies (#[trigger] bs[k]).slot != slot by {
            reveal(simulation::scope);
        }
        lemma_agrees_push(p.types, bs, s1, m1, m2, b, v->Val_0);
        simulation::lemma_linked_same(p, ops, d.g, h);
        m2
    }
}

/// The outer variables of a state in which there are inner ones, too.
pub proof fn lemma_agrees_outer(c: CkV, bs: Seq<Bind>, b: Bind, t: StateV, m: MachineV)
    requires
        t.env.len() >= bs.len() + 1,
        simulation::agrees(c, bs.push(b), StateV { env: t.env.take(bs.push(b).len() as int), ..t }, m),
    ensures
        simulation::agrees(c, bs, StateV { env: t.env.take(bs.len() as int), ..t }, m),
{
    let more = bs.push(b);
    let t1 = StateV { env: t.env.take(bs.push(b).len() as int), ..t };
    assert forall|k: int| 0 <= k < bs.len() implies m.mem.contains_key((#[trigger] more[k]).slot) by {
        reveal(simulation::agrees);
        assert(t1.env[k].name == more[k].name);
    }
    lemma_agrees_take(c, more, t1, m, m, bs.len() as int);
    assert(more.take(bs.len() as int) =~= bs);
    assert(t1.env.take(bs.len() as int) =~= t.env.take(bs.len() as int));
}

/// The bindings of a `let` from place `i` on. The variables in scope then are given, too.
pub proof fn sim_bindings(
    n: nat,
    p: Meaning,
    ops: Seq<OpV>,
    xs: Seq<BindingV>,
    i: int,
    prev: Seq<Shadowed>,
    first: Env,
    g: GenV,
    bs: Seq<Bind>,
    s: StateV,
    m: MachineV,
) -> (r: (MachineV, Seq<Bind>))
    requires
        0 <= i <= xs.len(),
        simulation::ready(p, ops, g, bs, s, m),
        fitting::fits_bindings(xs, first, p.types),
        simulation::env_of(bs) == fitting::scope_with(first, xs, i),
        meaning::eval_bindings(n, p, xs, i, s) is Some,
        lowering::lower_bindings(xs, i, prev, g).r is Ok,
        simulation::within(ops, lowering::lower_bindings(xs, i, prev, g).g),
    ensures
        ({
            let c = lowering::lower_bindings(xs, i, prev, g);
            let (v, t) = meaning::eval_bindings(n, p, xs, i, s)->0;
            let (b, more) = r;
            &&& machine::leads(p.w, ops, m, b)
            &&& simulation::kept(g.ops.len() as int, m, b)
            &&& g.ops.len() <= c.g.ops.len()
            &&& v is Brk ==> simulation::left_loop(ops, g, b) && t.env.len() >= bs.len() && simulation::agrees(
                p.types,
                bs,
                StateV { env: t.env.take(bs.len() as int), ..t },
                b,
            )
            &&& v is Val ==> {
                &&& simulation::ready(p, ops, c.g, more, t, b)
                &&& simulation::env_of(more) == fitting::scope_with(first, xs, xs.len() as int)
                &&& more.len() == bs.len() + (xs.len() - i)
                &&& more.take(bs.len() as int) == bs
                &&& forall|j: int| i <= j < xs.len() ==> more[bs.len() + (j - i)].name == (#[trigger] xs[j]).name
                &&& c.g.loop_exits == g.loop_exits
            }
        }),
    decreases n, xs, xs.len() - i,
{
    if i < xs.len() {
        let x = xs[i];
        let c = lowering::lower_binding(x, g);
        let h = c.g;
        let z = lowering::lower_bindings(xs, i + 1, prev.push(c.r->Ok_0), h);
        blocks::fill_bindings(xs, i + 1, prev.push(c.r->Ok_0), h);
        simulation::lemma_within_fills(ops, h, z.g);
        let m2 = sim_binding(n, p, ops, x, g, bs, s, m);
        let (v, s1) = meaning::eval(n, p, x.value, s)->0;
        if v is Brk {
            assert(s1.env.len() == bs.len()) by {
                reveal(simulation::agrees);
            }
            assert(s1.env.take(bs.len() as int) =~= s1.env);
            (m2, bs)
        } else {
            let b = bound(x, g);
            let more = bs.push(b);
            lemma_place_push(bs, b, x.name);
            let s2 = StateV { env: s1.env.push(VarV { name: x.name, val: v->Val_0 }), ..s1 };
            let (m3, all) = sim_bindings(n, p, ops, xs, i + 1, prev.push(c.r->Ok_0), first, h, more, s2, m2);
            machine::leads_on(p.w, ops, m, m2, m3);
            simulation::kept_on(g.ops.len() as int, h.ops.len() as int, m, m2, m3);
            let (w, t) = meaning::eval_bindings(n, p, xs, i + 1, s2)->0;
            if w is Brk {
                lemma_agrees_outer(p.types, bs, b, t, m3);
            } else {
                assert forall|k: int| 0 <= k < more.len() implies all[k] == more[k] by {
                    assert(all.take(more.len() as int)[k] == more[k]);
                }
                assert(all.take(bs.len() as int) =~= bs);
                assert forall|j: int| i <= j < xs.len() implies all[bs.len() + (j - i)].name == (#[trigger] xs[j]).name by {
                    if i < j {
                        assert(all[more.len() + (j - (i + 1))].name == xs[j].name);
                    }
                }
            }
            (m3, all)
        }
    } else {
        machine::leads_self(p.w, ops, m);
        assert(bs.take(bs.len() as int) =~= bs);
        (m, bs)
    }
}

} // verus!
