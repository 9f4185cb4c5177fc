//! The script of a `do` does what the `do` means.
use crate::ast::{ExprV, TypeV};
use crate::blocks;
use crate::fitting;
use crate::ir::{OpV, Val, ValV};
use crate::lowering::{GenV, ValueUse};
use crate::lowering;
use crate::machine::MachineV;
use crate::machine;
use crate::meaning::{LV, Meaning, StateV};
use crate::meaning;
use crate::scripts;
use crate::sim_exprs;
use crate::simulation::Bind;
use crate::simulation;
use vstd::prelude::*;

verus! {

pub proof fn sim_do(
    n: nat,
    p: Meaning,
    ops: Seq<OpV>,
    es: Seq<ExprV>,
    i: int,
    last: LV,
    g: GenV,
    bs: Seq<Bind>,
    s: StateV,
    m: MachineV,
) -> (r: MachineV)
    requires
        0 <= i <= es.len(),
        es.len() > 0 ==> i < es.len(),
        es.len() == 0 ==> last is Unit,
        simulation::ready(p, ops, g, bs, s, m),
        fitting::fits_all(es, simulation::env_of(bs), p.types),
        meaning::eval_do(n, p, es, i, last, s) is Some,
        lowering::lower_do(es, i, None, g).r is Ok,
        simulation::within(ops, lowering::lower_do(es, i, None, g).g),
    ensures
        ({
            let c = lowering::lower_do(es, i, None, g);
            let (v, t) = meaning::eval_do(n, p, es, i, last, s)->0;
            simulation::does(
                p,
                ops,
                g,
                c.g,
                c.r->Ok_0,
                if es.len() == 0 {
                    TypeV::Unit
                } else {
                    es.last().ty->0
                },
                bs,
                v,
                t,
                m,
                r,
            )
        }),
    decreases n, es, es.len() - i,
{
    if i < es.len() {
        let c = lowering::lower(es[i], ValueUse::Move, g);
        simulation::after(p, ops, es[i], ValueUse::Move, g, bs);
        if i == es.len() - 1 {
            assert(es.last() == es[i]);
            let r = sim_exprs::sim_expr(n, p, ops, es[i], ValueUse::Move, g, bs, s, m);
            let (v, t) = meaning::eval(n, p, es[i], s)->0;
            if v is Val {
                assert(meaning::eval_do(n, p, es, i + 1, v->Val_0, t) == meaning::val(v->Val_0, t));
            }
            r
        } else {
            let d = lowering::lower_unused(c.g, es[i], c.r->Ok_0);
            let z = lowering::lower_do(es, i + 1, None, d.g);
            unused_after(p, ops, es[i], c.r->Ok_0, c.g, bs);
            do_fills(es, i + 1, d.g);
            simulation::lemma_within_fills(ops, d.g, z.g);
            simulation::lemma_within_fills(ops, c.g, d.g);
            let m1 = sim_exprs::sim_expr(n, p, ops, es[i], ValueUse::Move, g, bs, s, m);
            let (v, s1) = meaning::eval(n, p, es[i], s)->0;
            if v is Brk {
                m1
            } else {
                let m2 = do_unused(p, ops, es[i], c.r->Ok_0, c.g, m1);
                simulation::lemma_agrees_regs(p.types, bs, s1, m1, m2);
                machine::leads_on(p.w, ops, m, m1, m2);
                simulation::kept_on(g.ops.len() as int, c.g.ops.len() as int, m, m1, m2);
                let m3 = sim_do(n, p, ops, es, i + 1, v->Val_0, d.g, bs, s1, m2);
                machine::leads_on(p.w, ops, m, m2, m3);
                simulation::kept_on(g.ops.len() as int, d.g.ops.len() as int, m, m2, m3);
                m3
            }
        }
    } else {
        machine::leads_self(p.w, ops, m);
        m
    }
}

pub proof fn do_fills(es: Seq<ExprV>, i: int, g: GenV)
    requires
        0 <= i,
        lowering::lower_do(es, i, None, g).r is Ok,
    ensures
        blocks::fills(g, lowering::lower_do(es, i, None, g).g),
{
    blocks::fill_do(es, i, None, g);
}

/// Giving up a value that is not used.
pub proof fn unused_after(p: Meaning, ops: Seq<OpV>, e: ExprV, v: Option<ValV>, g: GenV, bs: Seq<Bind>)
    requires
        simulation::linked(p, ops, g),
        simulation::scope(ops, g, bs),
        lowering::lower_unused(g, e, v).r is Ok,
    ensures
        ({
            let h = lowering::lower_unused(g, e, v).g;
            &&& blocks::fills(g, h)
            &&& simulation::linked(p, ops, h)
            &&& simulation::scope(ops, h, bs)
            &&& scripts::same_context(g, h)
        }),
{
    broadcast use {simulation::group_linked, simulation::group_scoped};

    blocks::fill_unused(g, e, v);
}

pub proof fn do_unused(
    p: Meaning,
    ops: Seq<OpV>,
    e: ExprV,
    v: Option<ValV>,
    g: GenV,
    m: MachineV,
) -> (r: MachineV)
    requires
        simulation::here(g, m),
        !g.ended,
        simulation::linked(p, ops, g),
        lowering::lower_unused(g, e, v).r is Ok,
        simulation::within(ops, lowering::lower_unused(g, e, v).g),
    ensures
        simulation::quiet(p.w, ops, g, lowering::lower_unused(g, e, v).g, m, r),
{
    match (e.ty, v) {
        (Some(ty), Some(x)) => simulation::do_drop(p, ops, g, x, ty, m),
        _ => {
            machine::leads_self(p.w, ops, m);
            m
        },
    }
}

} // verus!
