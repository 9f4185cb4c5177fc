//! The script of a `let` does what the `let` means.
use crate::ast::{BindingV, ExprKindV, ExprV};
use crate::blocks;
use crate::ir::{OpV, ValV};
use crate::lowering::{GenV, LocalV, Shadowed, ValueUse};
use crate::lowering;
use crate::machine::MachineV;
use crate::machine;
use crate::meaning::{Meaning, StateV};
use crate::meaning;
use crate::sim_binds;
use crate::sim_exprs;
use crate::simulation::Bind;
use crate::simulation;
use vstd::prelude::*;

verus! {

/// The variables of a `let` are given up.
pub proof fn do_let_end(
    p: Meaning,
    ops: Seq<OpV>,
    xs: Seq<BindingV>,
    k: int,
    depth: int,
    g: GenV,
    bs: Seq<Bind>,
    m: MachineV,
) -> (r: MachineV)
    requires
        simulation::here(g, m),
        !g.ended,
        simulation::linked(p, ops, g),
        simulation::scope(ops, g, bs),
        0 <= depth <= bs.len(),
        0 <= k <= xs.len(),
        forall|j: int|
            0 <= j < xs.len() ==> (simulation::place(bs, (#[trigger] xs[j]).name) matches Some(i) && depth <= i),
        lowering::lower_let_end(xs, k, g).r is Ok,
        simulation::within(ops, lowering::lower_let_end(xs, k, g).g),
    ensures
        ({
            let c = lowering::lower_let_end(xs, k, g);
            &&& machine::leads(p.w, ops, m, r)
            &&& simulation::kept(g.ops.len() as int, m, r)
            &&& r.out == m.out
            &&& simulation::here(c.g, r)
            &&& !c.g.ended
            &&& g.ops.len() <= c.g.ops.len()
            &&& forall|i: int|
                0 <= i < depth ==> r.mem[(#[trigger] bs[i]).slot] == m.mem[bs[i].slot] && (
                m.mem.contains_key(bs[i].slot) ==> r.mem.contains_key(bs[i].slot))
        }),
    decreases k,
{
    broadcast use simulation::group_within;

    if k > 0 {
        let x = xs[k - 1];
        let i = simulation::place(bs, x.name)->0;
        simulation::lemma_place(bs, x.name);
        let b = bs[i];
        assert(lowering::find_local(g.locals, x.name) == Some(
            LocalV { name: x.name, ptr: ValV::Reg(b.slot as usize), ty: b.ty },
        ) && 0 <= b.slot < g.ops.len() && ops[b.slot] is EntryAlloca) by {
            reveal(simulation::scope);
        }
        if lowering::needs_drop(x.ty) {
            let ptr = ValV::Reg(b.slot as usize);
            let c = lowering::lower_release(g, ptr, x.ty, "letscope.drop"@);
            let l = lowering::lower_load(g, ptr, x.ty, "letscope.drop"@);
            let op = OpV::Store { ptr, val: ValV::Null };
            let h = lowering::step(c.g, op);
            blocks::fill_let_end(xs, k - 1, h);
            let z = lowering::lower_let_end(xs, k - 1, h);
            simulation::lemma_within_fills(ops, h, z.g);
            assert(simulation::within(ops, c.g));
            simulation::lemma_rt_within(ops, l.g, "risp_str_release"@, seq![l.r->Ok_0], "risp_str_release"@);
            assert(ops.len() <= usize::MAX) by {
                reveal(simulation::within);
            }
            simulation::lemma_linked_same(p, ops, g, l.g);
            let m1 = simulation::do_load(p, ops, g, b.slot, x.ty, "letscope.drop"@, m);
            let m2 = simulation::do_drop(p, ops, l.g, l.r->Ok_0, x.ty, m1);
            simulation::quiet_on(p.w, ops, g, l.g, c.g, m, m1, m2);
            let m3 = simulation::take(p.w, ops, m2, op);
            machine::leads_on(p.w, ops, m, m2, m3);
            simulation::lemma_linked_same(p, ops, g, h);
            simulation::lemma_scope_same(ops, g, h, bs);
            let m4 = do_let_end(p, ops, xs, k - 1, depth, h, bs, m3);
            machine::leads_on(p.w, ops, m, m3, m4);
            simulation::kept_on(g.ops.len() as int, h.ops.len() as int, m, m3, m4);
            assert forall|j: int| 0 <= j < depth implies m4.mem[(#[trigger] bs[j]).slot] == m.mem[bs[j].slot] && (
                m.mem.contains_key(bs[j].slot) ==> m4.mem.contains_key(bs[j].slot)) by {
                reveal(simulation::scope);
                assert(bs[j].slot != bs[i].slot);
            }
            m4
        } else {
            do_let_end(p, ops, xs, k - 1, depth, g, bs, m)
        }
    } else {
        machine::leads_self(p.w, ops, m);
        m
    }
}

#[verifier::rlimit(60)]
pub proof fn sim_let(
    n: nat,
    p: Meaning,
    ops: Seq<OpV>,
    e: ExprV,
    g: GenV,
    bs: Seq<Bind>,
    s: StateV,
    m: MachineV,
) -> (r: MachineV)
    requires
        e.kind is Let,
        simulation::fine(n, p, ops, e, g, bs, s, m),
        lowering::lower_let(e.kind, g).r is Ok,
        simulation::within(ops, lowering::lower_let(e.kind, g).g),
    ensures
        ({
            let c = lowering::lower_let(e.kind, g);
            let (v, t) = meaning::eval(n, p, e, s)->0;
            simulation::does(p, ops, g, c.g, c.r->Ok_0, e.ty->0, bs, v, t, m, r)
        }),
    decreases n, e, 7int,
{
    if let ExprKindV::Let { bindings, body } = e.kind {
        let none = Seq::<Shadowed>::empty();
        let depth = bs.len() as int;
        let c = lowering::lower_bindings(bindings, 0, none, g);
        let b = lowering::lower(*body, ValueUse::Move, c.g);
        let count = bindings.len() as int;
        let d = if b.g.ended {
            lowering::done(b.g, ())
        } else {
            lowering::lower_let_end(bindings, count, b.g)
        };
        let last = lowering::lower_let(e.kind, g);
        simulation::lemma_within_same(ops, last.g, d.g);
        blocks::law_expression_fills_its_blocks(*body, ValueUse::Move, c.g);
        if !b.g.ended {
            blocks::fill_let_end(bindings, count, b.g);
            simulation::lemma_within_fills(ops, b.g, d.g);
        }
        simulation::lemma_within_fills(ops, c.g, b.g);
        assert(s.env.len() == depth) by {
            reveal(simulation::agrees);
        }
        let (m1, more) = sim_binds::sim_bindings(n, p, ops, bindings, 0, none, simulation::env_of(bs), g, bs, s, m);
        let (v, s1) = meaning::eval_bindings(n, p, bindings, 0, s)->0;
        if v is Brk {
            m1
        } else {
            let m2 = sim_exprs::sim_expr(n, p, ops, *body, ValueUse::Move, c.g, more, s1, m1);
            machine::leads_on(p.w, ops, m, m1, m2);
            simulation::kept_on(g.ops.len() as int, c.g.ops.len() as int, m, m1, m2);
            let (w, s2) = meaning::eval(n, p, *body, s1)->0;
            if w is Brk {
                assert forall|i: int| 0 <= i < depth implies m2.mem.contains_key((#[trigger] more[i]).slot) by {
                    reveal(simulation::agrees);
                    assert(s2.env[i].name == more[i].name);
                }
                sim_binds::lemma_agrees_take(p.types, more, s2, m2, m2, depth);
                m2
            } else {
                simulation::after(p, ops, *body, ValueUse::Move, c.g, more);
                assert forall|j: int| 0 <= j < bindings.len() implies (simulation::place(
                    more,
                    (#[trigger] bindings[j]).name,
                ) matches Some(i) && depth <= i) by {
                    assert(more[depth + (j - 0)].name == bindings[j].name);
                    sim_binds::lemma_place_from(more, bindings[j].name, depth + j);
                }
                let m3 = do_let_end(p, ops, bindings, count, depth, b.g, more, m2);
                machine::leads_on(p.w, ops, m, m2, m3);
                simulation::kept_on(g.ops.len() as int, b.g.ops.len() as int, m, m2, m3);
                assert forall|i: int| 0 <= i < depth implies m3.mem.contains_key((#[trigger] more[i]).slot)
                    && m3.mem[more[i].slot] == m2.mem[more[i].slot] by {
                    reveal(simulation::agrees);
                    assert(s2.env[i].name == more[i].name);
                }
                sim_binds::lemma_agrees_take(p.types, more, s2, m2, m3, depth);
                if let Some(y) = b.r->Ok_0 {
                    simulation::lemma_operand_kept(p.w, ops, b.g.ops.len() as int, m2, m3, y);
                }
                m3
            }
        }
    } else {
        m
    }
}

} // verus!
