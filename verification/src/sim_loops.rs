//! The scripts of loops do what the loops mean.
use crate::ast::{ExprKindV, ExprV};
use crate::fitting;
use crate::ir::{OpV, ValV};
use crate::lowering::{GenV, ValueUse};
use crate::lowering;
use crate::machine::MachineV;
use crate::machine;
use crate::meaning::{Meaning, StateV};
use crate::meaning;
use crate::scripts;
use crate::sim_exprs;
use crate::simulation::Bind;
use crate::simulation;
use vstd::prelude::*;

verus! {

/// The states of a `while` that is built.
pub open spec fn while_cond(g: GenV) -> GenV {
    let g1 = lowering::block(g, "while.cond"@);
    let g2 = lowering::block(g1, "while.body"@);
    let g3 = lowering::block(g2, "while.end"@);
    lowering::go(lowering::step(g3, OpV::Br(lowering::next(g))), lowering::next(g))
}

pub proof fn sim_while(
    n: nat,
    p: Meaning,
    ops: Seq<OpV>,
    e: ExprV,
    g: GenV,
    bs: Seq<Bind>,
    s: StateV,
    m: MachineV,
) -> (r: MachineV)
    requires
        e.kind is While,
        simulation::fine(n, p, ops, e, g, bs, s, m),
        lowering::lower_while(e.kind, g).r is Ok,
        simulation::within(ops, lowering::lower_while(e.kind, g).g),
    ensures
        ({
            let c = lowering::lower_while(e.kind, g);
            let (v, t) = meaning::eval(n, p, e, s)->0;
            simulation::does(p, ops, g, c.g, c.r->Ok_0, e.ty->0, bs, v, t, m, r)
        }),
    decreases n, e, 7int,
{
    broadcast use {simulation::group_within, simulation::group_linked, simulation::group_scoped};

    if let ExprKindV::While { cond, body } = e.kind {
        let g1 = lowering::block(g, "while.cond"@);
        let g2 = lowering::block(g1, "while.body"@);
        let g3 = lowering::block(g2, "while.end"@);
        let cond_bb = lowering::next(g);
        let g3a = lowering::step(g3, OpV::Br(cond_bb));
        let g3b = while_cond(g);
        let z = lowering::lower_while(e.kind, g);
        while_within(p, ops, e, g, bs);
        let i0 = g.ops.len() as int;
        let ma = simulation::make(p, ops, g, ops[i0], m);
        let mb = simulation::make(p, ops, g1, ops[i0 + 1], ma);
        let mc = simulation::make(p, ops, g2, ops[i0 + 2], mb);
        simulation::quiet_on(p.w, ops, g, g1, g2, m, ma, mb);
        simulation::quiet_on(p.w, ops, g, g2, g3, m, mb, mc);
        assert(simulation::clear(ops, cond_bb, i0, i0 + 4));
        let md = simulation::jump(p, ops, mc, cond_bb, i0 + 4);
        machine::leads_on(p.w, ops, m, mc, md);
        simulation::lemma_agrees_regs(p.types, bs, s, m, md);
        let r = sim_while_round(n, p, ops, e, g, bs, s, md);
        machine::leads_on(p.w, ops, m, md, r);
        simulation::kept_on(i0, i0, m, md, r);
        r
    } else {
        m
    }
}

/// The script of a `while`.
pub proof fn while_within(p: Meaning, ops: Seq<OpV>, e: ExprV, g: GenV, bs: Seq<Bind>)
    requires
        e.kind is While,
        simulation::linked(p, ops, g),
        simulation::scope(ops, g, bs),
        fitting::fits(e, simulation::env_of(bs), p.types),
        lowering::lower_while(e.kind, g).r is Ok,
        simulation::within(ops, lowering::lower_while(e.kind, g).g),
    ensures
        e.kind matches ExprKindV::While { cond, body } && ({
            let i0 = g.ops.len() as int;
            let g3b = while_cond(g);
            let c = lowering::lower_value(*cond, g3b, "while cond"@);
            let g4 = lowering::step(c.g, OpV::CondBr { cond: c.r->Ok_0, yes: (i0 + 1) as usize, no: (i0 + 2) as usize });
            let g4b = GenV { loop_exits: g4.loop_exits.push((i0 + 2) as usize), ..g4 };
            let g5 = lowering::go(g4b, (i0 + 1) as usize);
            let b = lowering::lower(*body, ValueUse::Move, g5);
            let g6 = if b.g.ended {
                b.g
            } else {
                lowering::step(b.g, OpV::Br(i0 as usize))
            };
            let end = g6.ops.len() as int;
            &&& i0 + 5 <= ops.len() <= usize::MAX
            &&& lowering::next(g) == i0
            &&& ops[i0] is NewBlock && ops[i0 + 1] is NewBlock && ops[i0 + 2] is NewBlock
            &&& ops[i0 + 3] == OpV::Br(i0 as usize)
            &&& ops[i0 + 4] == OpV::PositionAt(i0 as usize)
            &&& simulation::within(ops, lowering::block(g, "while.cond"@))
            &&& simulation::within(ops, lowering::block(lowering::block(g, "while.cond"@), "while.body"@))
            &&& simulation::within(ops, lowering::block(lowering::block(lowering::block(g, "while.cond"@), "while.body"@), "while.end"@))
            &&& g3b.ops.len() == i0 + 5
            &&& simulation::within(ops, g3b) && simulation::linked(p, ops, g3b) && simulation::scope(ops, g3b, bs) && !g3b.ended
            &&& c.r is Ok && simulation::within(ops, c.g) && simulation::linked(p, ops, c.g) && simulation::scope(ops, c.g, bs)
            &&& scripts::same_context(g3b, c.g) && i0 + 5 <= c.g.ops.len() < ops.len()
            &&& ops[c.g.ops.len() as int] == (OpV::CondBr { cond: c.r->Ok_0, yes: (i0 + 1) as usize, no: (i0 + 2) as usize })
            &&& ops[c.g.ops.len() as int + 1] == OpV::PositionAt((i0 + 1) as usize)
            &&& simulation::within(ops, g5) && simulation::linked(p, ops, g5) && simulation::scope(ops, g5, bs) && !g5.ended
            &&& b.r is Ok && simulation::within(ops, b.g)
            &&& g5.ops.len() <= b.g.ops.len() < ops.len()
            &&& !b.g.ended ==> ops[b.g.ops.len() as int] == OpV::Br(i0 as usize)
            &&& end < ops.len() && ops[end] == OpV::PositionAt((i0 + 2) as usize)
            &&& simulation::clear(ops, (i0 + 1) as usize, i0 + 1, c.g.ops.len() as int + 1)
            &&& simulation::clear(ops, (i0 + 2) as usize, i0 + 2, end)
            &&& lowering::lower_while(e.kind, g).g.ops.len() == end + 1
            &&& lowering::lower_while(e.kind, g).g.block == (i0 + 2) as usize
            &&& !lowering::lower_while(e.kind, g).g.ended
            &&& lowering::lower_while(e.kind, g).r->Ok_0 is None
        }),
{
    broadcast use {simulation::group_within, simulation::group_linked, simulation::group_scoped};

    if let ExprKindV::While { cond, body } = e.kind {
        let i0 = g.ops.len() as int;
        let cond_bb = lowering::next(g);
        let g1 = lowering::block(g, "while.cond"@);
        let body_bb = lowering::next(g1);
        let g2 = lowering::block(g1, "while.body"@);
        let end_bb = lowering::next(g2);
        let g3 = lowering::block(g2, "while.end"@);
        let g3a = lowering::step(g3, OpV::Br(cond_bb));
        let g3b = while_cond(g);
        assert(simulation::linked(p, ops, g3b));
        assert(simulation::scope(ops, g3b, bs));
        let c = lowering::lower_value(*cond, g3b, "while cond"@);
        simulation::value_after(p, ops, *cond, "while cond"@, g3b, bs);
        let g4 = lowering::step(c.g, OpV::CondBr { cond: c.r->Ok_0, yes: body_bb, no: end_bb });
        let g4b = GenV { loop_exits: g4.loop_exits.push(end_bb), ..g4 };
        simulation::lemma_linked_same(p, ops, g4, g4b);
        simulation::lemma_scope_same(ops, g4, g4b, bs);
        let g5 = lowering::go(g4b, body_bb);
        let b = lowering::lower(*body, ValueUse::Move, g5);
        simulation::after(p, ops, *body, ValueUse::Move, g5, bs);
        let g6 = if b.g.ended {
            b.g
        } else {
            lowering::step(b.g, OpV::Br(cond_bb))
        };
        let g7 = GenV { loop_exits: lowering::popped(g6.loop_exits), ..g6 };
        let z = lowering::go(g7, end_bb);
        assert(lowering::lower_while(e.kind, g) == lowering::done(z, None::<ValV>));
        assert(simulation::within(ops, g7));
        simulation::lemma_within_same(ops, g7, g6);
        assert(simulation::within(ops, b.g));
        assert(simulation::within(ops, g5));
        assert(simulation::within(ops, g4b));
        simulation::lemma_within_same(ops, g4b, g4);
        assert(simulation::within(ops, c.g));
        assert(simulation::within(ops, g3b));
        assert(simulation::within(ops, g3a));
        assert(simulation::within(ops, g3));
        assert(simulation::within(ops, g2));
        assert(simulation::within(ops, g1));
        assert(simulation::within(ops, g));
        assert(ops.len() <= usize::MAX) by {
            reveal(simulation::within);
        }
        simulation::clear_fills(ops, g3b, c.g, body_bb);
        simulation::clear_fills(ops, g3b, c.g, end_bb);
        simulation::clear_fills(ops, g5, b.g, end_bb);
    }
}

/// One round of a `while`, and those that follow.
#[verifier::rlimit(60)]
pub proof fn sim_while_round(
    n: nat,
    p: Meaning,
    ops: Seq<OpV>,
    e: ExprV,
    g: GenV,
    bs: Seq<Bind>,
    s: StateV,
    m: MachineV,
) -> (r: MachineV)
    requires
        e.kind is While,
        simulation::linked(p, ops, g),
        simulation::scope(ops, g, bs),
        simulation::agrees(p.types, bs, s, m),
        simulation::here(while_cond(g), m),
        fitting::fits(e, simulation::env_of(bs), p.types),
        meaning::eval(n, p, e, s) is Some,
        lowering::lower_while(e.kind, g).r is Ok,
        simulation::within(ops, lowering::lower_while(e.kind, g).g),
    ensures
        ({
            let c = lowering::lower_while(e.kind, g);
            let (v, t) = meaning::eval(n, p, e, s)->0;
            simulation::does(p, ops, g, c.g, c.r->Ok_0, e.ty->0, bs, v, t, m, r)
        }),
    decreases n, e, 6int,
{
    if let ExprKindV::While { cond, body } = e.kind {
        while_within(p, ops, e, g, bs);
        let i0 = g.ops.len() as int;
        let cond_bb = i0 as usize;
        let body_bb = (i0 + 1) as usize;
        let end_bb = (i0 + 2) as usize;
        let g3b = while_cond(g);
        let c = lowering::lower_value(*cond, g3b, "while cond"@);
        let g4 = lowering::step(c.g, OpV::CondBr { cond: c.r->Ok_0, yes: body_bb, no: end_bb });
        let g4b = GenV { loop_exits: g4.loop_exits.push(end_bb), ..g4 };
        let g5 = lowering::go(g4b, body_bb);
        let b = lowering::lower(*body, ValueUse::Move, g5);
        let g6 = if b.g.ended {
            b.g
        } else {
            lowering::step(b.g, OpV::Br(cond_bb))
        };
        let end = g6.ops.len() as int;
        let m1 = simulation::sim_value(n, p, ops, *cond, "while cond"@, g3b, bs, s, m);
        let (cr, s1) = meaning::eval(n, p, *cond, s)->0;
        simulation::kept_on(i0, g3b.ops.len() as int, m, m, m1);
        if cr is Brk {
            m1
        } else if !cr->Val_0->Bool_0 {
            let m2 = simulation::jump(p, ops, m1, end_bb, end);
            machine::leads_on(p.w, ops, m, m1, m2);
            simulation::lemma_agrees_regs(p.types, bs, s1, m1, m2);
            m2
        } else {
            let m2 = simulation::jump(p, ops, m1, body_bb, c.g.ops.len() as int + 1);
            machine::leads_on(p.w, ops, m, m1, m2);
            simulation::lemma_agrees_regs(p.types, bs, s1, m1, m2);
            let m3 = sim_exprs::sim_expr(n, p, ops, *body, ValueUse::Move, g5, bs, s1, m2);
            machine::leads_on(p.w, ops, m, m2, m3);
            simulation::kept_on(i0, g5.ops.len() as int, m, m2, m3);
            let (br, s2) = meaning::eval(n, p, *body, s1)->0;
            if br is Brk {
                simulation::goes_on_at(ops, end_bb, i0 + 2, end);
                m3
            } else {
                assert(simulation::clear(ops, cond_bb, i0, i0 + 4));
                let m4 = simulation::jump(p, ops, m3, cond_bb, i0 + 4);
                machine::leads_on(p.w, ops, m, m3, m4);
                simulation::lemma_agrees_regs(p.types, bs, s2, m3, m4);
                let m5 = sim_while_round((n - 1) as nat, p, ops, e, g, bs, s2, m4);
                machine::leads_on(p.w, ops, m, m4, m5);
                simulation::kept_on(i0, i0, m, m4, m5);
                m5
            }
        }
    } else {
        m
    }
}

pub open spec fn loop_body(g: GenV) -> GenV {
    let body_bb = lowering::next(g);
    let g1 = lowering::block(g, "loop.body"@);
    let end_bb = lowering::next(g1);
    let g2 = lowering::block(g1, "loop.end"@);
    let g3 = lowering::step(g2, OpV::Br(body_bb));
    lowering::go(GenV { loop_exits: g3.loop_exits.push(end_bb), ..g3 }, body_bb)
}

pub proof fn loop_within(p: Meaning, ops: Seq<OpV>, e: ExprV, g: GenV, bs: Seq<Bind>)
    requires
        e.kind is Loop,
        simulation::linked(p, ops, g),
        simulation::scope(ops, g, bs),
        fitting::fits(e, simulation::env_of(bs), p.types),
        lowering::lower_loop(e.kind, g).r is Ok,
        simulation::within(ops, lowering::lower_loop(e.kind, g).g),
    ensures
        e.kind matches ExprKindV::Loop { body } && ({
            let i0 = g.ops.len() as int;
            let g4 = loop_body(g);
            let b = lowering::lower(*body, ValueUse::Move, g4);
            let g5 = if b.g.ended {
                b.g
            } else {
                lowering::step(b.g, OpV::Br(i0 as usize))
            };
            let end = g5.ops.len() as int;
            &&& i0 + 4 <= ops.len() <= usize::MAX
            &&& simulation::within(ops, lowering::block(g, "loop.body"@))
            &&& simulation::within(ops, lowering::block(lowering::block(g, "loop.body"@), "loop.end"@))
            &&& ops[i0] is NewBlock && ops[i0 + 1] is NewBlock
            &&& ops[i0 + 2] == OpV::Br(i0 as usize)
            &&& ops[i0 + 3] == OpV::PositionAt(i0 as usize)
            &&& g4.ops.len() == i0 + 4 && g4.block == i0 as usize && g4.loop_exits.len() > 0
            &&& g4.loop_exits.last() == (i0 + 1) as usize
            &&& simulation::within(ops, g4) && simulation::linked(p, ops, g4) && simulation::scope(ops, g4, bs) && !g4.ended
            &&& b.r is Ok && simulation::within(ops, b.g)
            &&& g4.ops.len() <= b.g.ops.len() < ops.len()
            &&& !b.g.ended ==> ops[b.g.ops.len() as int] == OpV::Br(i0 as usize)
            &&& end < ops.len() && ops[end] == OpV::PositionAt((i0 + 1) as usize)
            &&& simulation::clear(ops, (i0 + 1) as usize, i0 + 1, end)
            &&& lowering::lower_loop(e.kind, g).g.ops.len() == end + 1
            &&& lowering::lower_loop(e.kind, g).g.block == (i0 + 1) as usize
            &&& !lowering::lower_loop(e.kind, g).g.ended
            &&& lowering::lower_loop(e.kind, g).r->Ok_0 is None
        }),
{
    broadcast use {simulation::group_within, simulation::group_linked, simulation::group_scoped};

    if let ExprKindV::Loop { body } = e.kind {
        let i0 = g.ops.len() as int;
        let body_bb = lowering::next(g);
        let g1 = lowering::block(g, "loop.body"@);
        let end_bb = lowering::next(g1);
        let g2 = lowering::block(g1, "loop.end"@);
        let g3 = lowering::step(g2, OpV::Br(body_bb));
        let g3b = GenV { loop_exits: g3.loop_exits.push(end_bb), ..g3 };
        simulation::lemma_linked_same(p, ops, g3, g3b);
        simulation::lemma_scope_same(ops, g3, g3b, bs);
        let g4 = loop_body(g);
        assert(g4 == lowering::go(g3b, body_bb));
        let b = lowering::lower(*body, ValueUse::Move, g4);
        simulation::after(p, ops, *body, ValueUse::Move, g4, bs);
        let g5 = if b.g.ended {
            b.g
        } else {
            lowering::step(b.g, OpV::Br(body_bb))
        };
        let g6 = GenV { loop_exits: lowering::popped(g5.loop_exits), ..g5 };
        let z = lowering::go(g6, end_bb);
        assert(lowering::lower_loop(e.kind, g) == lowering::done(z, None::<ValV>));
        assert(simulation::within(ops, g6));
        simulation::lemma_within_same(ops, g6, g5);
        assert(simulation::within(ops, b.g));
        assert(simulation::within(ops, g4));
        assert(simulation::within(ops, g3b));
        simulation::lemma_within_same(ops, g3b, g3);
        assert(simulation::within(ops, g2));
        assert(simulation::within(ops, g1));
        assert(simulation::within(ops, g));
        assert(ops.len() <= usize::MAX) by {
            reveal(simulation::within);
        }
        simulation::clear_fills(ops, g4, b.g, end_bb);
    }
}

pub proof fn sim_loop(
    n: nat,
    p: Meaning,
    ops: Seq<OpV>,
    e: ExprV,
    g: GenV,
    bs: Seq<Bind>,
    s: StateV,
    m: MachineV,
) -> (r: MachineV)
    requires
        e.kind is Loop,
        simulation::fine(n, p, ops, e, g, bs, s, m),
        lowering::lower_loop(e.kind, g).r is Ok,
        simulation::within(ops, lowering::lower_loop(e.kind, g).g),
    ensures
        ({
            let c = lowering::lower_loop(e.kind, g);
            let (v, t) = meaning::eval(n, p, e, s)->0;
            simulation::does(p, ops, g, c.g, c.r->Ok_0, e.ty->0, bs, v, t, m, r)
        }),
    decreases n, e, 7int,
{
    broadcast use simulation::group_within;

    if let ExprKindV::Loop { body } = e.kind {
        loop_within(p, ops, e, g, bs);
        let i0 = g.ops.len() as int;
        let g1 = lowering::block(g, "loop.body"@);
        let g2 = lowering::block(g1, "loop.end"@);
        let ma = simulation::make(p, ops, g, ops[i0], m);
        let mb = simulation::make(p, ops, g1, ops[i0 + 1], ma);
        simulation::quiet_on(p.w, ops, g, g1, g2, m, ma, mb);
        assert(simulation::clear(ops, i0 as usize, i0, i0 + 3));
        let mc = simulation::jump(p, ops, mb, i0 as usize, i0 + 3);
        machine::leads_on(p.w, ops, m, mb, mc);
        simulation::lemma_agrees_regs(p.types, bs, s, m, mc);
        let r = sim_loop_round(n, p, ops, e, g, bs, s, mc);
        machine::leads_on(p.w, ops, m, mc, r);
        simulation::kept_on(i0, i0, m, mc, r);
        r
    } else {
        m
    }
}

#[verifier::rlimit(40)]
pub proof fn sim_loop_round(
    n: nat,
    p: Meaning,
    ops: Seq<OpV>,
    e: ExprV,
    g: GenV,
    bs: Seq<Bind>,
    s: StateV,
    m: MachineV,
) -> (r: MachineV)
    requires
        e.kind is Loop,
        simulation::linked(p, ops, g),
        simulation::scope(ops, g, bs),
        simulation::agrees(p.types, bs, s, m),
        simulation::here(loop_body(g), m),
        fitting::fits(e, simulation::env_of(bs), p.types),
        meaning::eval(n, p, e, s) is Some,
        lowering::lower_loop(e.kind, g).r is Ok,
        simulation::within(ops, lowering::lower_loop(e.kind, g).g),
    ensures
        ({
            let c = lowering::lower_loop(e.kind, g);
            let (v, t) = meaning::eval(n, p, e, s)->0;
            simulation::does(p, ops, g, c.g, c.r->Ok_0, e.ty->0, bs, v, t, m, r)
        }),
    decreases n, e, 6int,
{
    if let ExprKindV::Loop { body } = e.kind {
        loop_within(p, ops, e, g, bs);
        let i0 = g.ops.len() as int;
        let g4 = loop_body(g);
        let b = lowering::lower(*body, ValueUse::Move, g4);
        let g5 = if b.g.ended {
            b.g
        } else {
            lowering::step(b.g, OpV::Br(i0 as usize))
        };
        let end = g5.ops.len() as int;
        let m3 = sim_exprs::sim_expr(n, p, ops, *body, ValueUse::Move, g4, bs, s, m);
        simulation::kept_on(i0, g4.ops.len() as int, m, m, m3);
        let (br, s2) = meaning::eval(n, p, *body, s)->0;
        if br is Brk {
            simulation::goes_on_at(ops, (i0 + 1) as usize, i0 + 1, end);
            m3
        } else {
            assert(simulation::clear(ops, i0 as usize, i0, i0 + 3));
            let m4 = simulation::jump(p, ops, m3, i0 as usize, i0 + 3);
            machine::leads_on(p.w, ops, m, m3, m4);
            simulation::lemma_agrees_regs(p.types, bs, s2, m3, m4);
            let m5 = sim_loop_round((n - 1) as nat, p, ops, e, g, bs, s2, m4);
            machine::leads_on(p.w, ops, m, m4, m5);
            simulation::kept_on(i0, i0, m, m4, m5);
            m5
        }
    } else {
        m
    }
}

} // verus!
