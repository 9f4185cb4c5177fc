//! The script of an `if` does what the `if` means.
use crate::ast::{ExprKindV, ExprV, TypeV};
use crate::codegen::one;
use crate::ir::{OpV, ValV};
use crate::lowering::{GenV, ValueUse};
use crate::lowering;
use crate::machine::MachineV;
use crate::machine;
use crate::meaning::{LV, Meaning, Res, StateV};
use crate::meaning;
use crate::sim_exprs;
use crate::simulation::Bind;
use crate::simulation;
use vstd::prelude::*;

verus! {

#[verifier::rlimit(60)]
pub proof fn sim_if(
    n: nat,
    p: Meaning,
    ops: Seq<OpV>,
    e: ExprV,
    g: GenV,
    bs: Seq<Bind>,
    s: StateV,
    m: MachineV,
) -> (r: MachineV)
    requires
        e.kind is If,
        simulation::fine(n, p, ops, e, g, bs, s, m),
        lowering::lower_if(e.kind, e.ty->0, g).r is Ok,
        simulation::within(ops, lowering::lower_if(e.kind, e.ty->0, g).g),
    ensures
        ({
            let c = lowering::lower_if(e.kind, e.ty->0, g);
            let (v, t) = meaning::eval(n, p, e, s)->0;
            simulation::does(p, ops, g, c.g, c.r->Ok_0, e.ty->0, bs, v, t, m, r)
        }),
    decreases n, e, 7int,
{
    broadcast use {simulation::group_within, simulation::group_linked, simulation::group_scoped};

    let ty = e.ty->0;
    if let ExprKindV::If { cond, then_branch, else_branch } = e.kind {
        let c = lowering::lower_value(*cond, g, "if cond"@);
        simulation::value_after(p, ops, *cond, "if cond"@, g, bs);
        let cv = c.r->Ok_0;
        let then_bb = lowering::next(c.g);
        let g1 = lowering::block(c.g, "then"@);
        let else_bb = lowering::next(g1);
        let g2 = lowering::block(g1, "else"@);
        let merge_bb = lowering::next(g2);
        let g3 = lowering::block(g2, "ifcont"@);
        let g3b = lowering::step(g3, OpV::CondBr { cond: cv, yes: then_bb, no: else_bb });
        let g4 = lowering::go(g3b, then_bb);
        let t = lowering::lower(*then_branch, ValueUse::Move, g4);
        simulation::after(p, ops, *then_branch, ValueUse::Move, g4, bs);
        let then_ok = !t.g.ended;
        let g5 = if then_ok {
            lowering::step(t.g, OpV::Br(merge_bb))
        } else {
            t.g
        };
        let g5b = lowering::go(g5, else_bb);
        let f = lowering::lower(*else_branch, ValueUse::Move, g5b);
        simulation::after(p, ops, *else_branch, ValueUse::Move, g5b, bs);
        let else_ok = !f.g.ended;
        let g6 = if else_ok {
            lowering::step(f.g, OpV::Br(merge_bb))
        } else {
            f.g
        };
        let g7 = lowering::go(g6, merge_bb);
        let last = lowering::lower_if(e.kind, ty, g);
        assert(simulation::within(ops, g7));
        assert(simulation::within(ops, g6));
        assert(simulation::within(ops, f.g));
        assert(simulation::within(ops, g5b));
        assert(simulation::within(ops, g5));
        assert(simulation::within(ops, t.g));
        assert(simulation::within(ops, g4));
        assert(simulation::within(ops, g3b));
        assert(simulation::within(ops, g3));
        assert(simulation::within(ops, g2));
        assert(simulation::within(ops, g1));
        assert(simulation::within(ops, c.g));
        let i0 = c.g.ops.len() as int;
        assert(then_bb == i0 && else_bb == i0 + 1 && merge_bb == i0 + 2);
        assert(ops[i0] is NewBlock && ops[i0 + 1] is NewBlock && ops[i0 + 2] is NewBlock);
        assert(ops[i0 + 3] is CondBr);
        assert(ops[i0 + 4] == OpV::PositionAt(then_bb));
        assert(g4.ops.len() == i0 + 5);
        simulation::clear_fills(ops, g4, t.g, else_bb);
        simulation::clear_fills(ops, g4, t.g, merge_bb);
        simulation::clear_fills(ops, g5b, f.g, merge_bb);
        let j1 = g5.ops.len() as int;
        let j2 = g6.ops.len() as int;
        assert(simulation::clear(ops, then_bb, i0, i0 + 4));
        assert(simulation::clear(ops, else_bb, i0 + 1, j1));
        assert(simulation::clear(ops, merge_bb, i0 + 2, j2));
        simulation::block_fills(ops, g4, t.g);
        simulation::block_fills(ops, g5b, f.g);
        let m1 = simulation::sim_value(n, p, ops, *cond, "if cond"@, g, bs, s, m);
        let (cr, s1) = meaning::eval(n, p, *cond, s)->0;
        if cr is Brk {
            m1
        } else {
            let b = cr->Val_0->Bool_0;
            let ma = simulation::make(p, ops, c.g, ops[i0], m1);
            let mb = simulation::make(p, ops, g1, ops[i0 + 1], ma);
            let mc = simulation::make(p, ops, g2, ops[i0 + 2], mb);
            simulation::quiet_on(p.w, ops, c.g, g1, g2, m1, ma, mb);
            simulation::quiet_on(p.w, ops, c.g, g2, g3, m1, mb, mc);
            simulation::lemma_operand_kept(p.w, ops, i0, m1, mc, cv);
            simulation::lemma_agrees_regs(p.types, bs, s1, m1, mc);
            machine::leads_on(p.w, ops, m, m1, mc);
            simulation::kept_on(g.ops.len() as int, i0, m, m1, mc);
            if b {
                let md = simulation::jump(p, ops, mc, then_bb, i0 + 4);
                machine::leads_on(p.w, ops, m, mc, md);
                simulation::lemma_agrees_regs(p.types, bs, s1, mc, md);
                let me = sim_exprs::sim_expr(n, p, ops, *then_branch, ValueUse::Move, g4, bs, s1, md);
                machine::leads_on(p.w, ops, m, md, me);
                simulation::kept_on(g.ops.len() as int, g4.ops.len() as int, m, md, me);
                let (tr, s2) = meaning::eval(n, p, *then_branch, s1)->0;
                if tr is Brk {
                    me
                } else {
                    let mf = simulation::jump(p, ops, me, merge_bb, j2);
                    machine::leads_on(p.w, ops, m, me, mf);
                    simulation::lemma_agrees_regs(p.types, bs, s2, me, mf);
                    sim_merge(p, ops, ty, g, g7, t.r->Ok_0, t.g.block, then_ok, f.r->Ok_0, f.g.block, else_ok, bs, s2, m, mf, tr->Val_0, true)
                }
            } else {
                let md = simulation::jump(p, ops, mc, else_bb, j1);
                machine::leads_on(p.w, ops, m, mc, md);
                simulation::lemma_agrees_regs(p.types, bs, s1, mc, md);
                let me = sim_exprs::sim_expr(n, p, ops, *else_branch, ValueUse::Move, g5b, bs, s1, md);
                machine::leads_on(p.w, ops, m, md, me);
                simulation::kept_on(g.ops.len() as int, g5b.ops.len() as int, m, md, me);
                let (fr, s2) = meaning::eval(n, p, *else_branch, s1)->0;
                if fr is Brk {
                    me
                } else {
                    let mf = simulation::jump(p, ops, me, merge_bb, j2);
                    machine::leads_on(p.w, ops, m, me, mf);
                    simulation::lemma_agrees_regs(p.types, bs, s2, me, mf);
                    sim_merge(p, ops, ty, g, g7, t.r->Ok_0, t.g.block, then_ok, f.r->Ok_0, f.g.block, else_ok, bs, s2, m, mf, fr->Val_0, false)
                }
            }
        }
    } else {
        m
    }
}

/// Where the branches of an `if` meet.
pub proof fn sim_merge(
    p: Meaning,
    ops: Seq<OpV>,
    ty: TypeV,
    g: GenV,
    g7: GenV,
    tv: Option<ValV>,
    then_end: usize,
    then_ok: bool,
    fv: Option<ValV>,
    else_end: usize,
    else_ok: bool,
    bs: Seq<Bind>,
    s: StateV,
    m: MachineV,
    mf: MachineV,
    v: LV,
    first: bool,
) -> (r: MachineV)
    requires
        machine::leads(p.w, ops, m, mf),
        simulation::kept(g.ops.len() as int, m, mf),
        simulation::agrees(p.types, bs, s, mf),
        simulation::here(g7, mf),
        !g7.ended,
        g.ops.len() <= g7.ops.len(),
        simulation::has_type(v, ty, p.types),
        then_end != else_end,
        first ==> then_ok && mf.prev == then_end && (!(ty is Unit) ==> tv is Some) && (tv matches Some(y) ==> simulation::before(y, g7.ops.len() as int)
            && machine::operand(p.w, ops, mf, y) == simulation::repr(v, p.types)),
        !first ==> else_ok && mf.prev == else_end && (!(ty is Unit) ==> fv is Some) && (fv matches Some(y) ==> simulation::before(y, g7.ops.len() as int)
            && machine::operand(p.w, ops, mf, y) == simulation::repr(v, p.types)),
        !(ty is Unit) ==> lowering::lower_type(g7, ty) is Ok && (then_ok ==> tv is Some) && (else_ok
            ==> fv is Some) && simulation::within(ops, merged(g7, ty, tv, then_end, then_ok, fv, else_end, else_ok)),
    ensures
        ty is Unit ==> simulation::does(p, ops, g, g7, None, ty, bs, Res::Val(v), s, m, r),
        !(ty is Unit) ==> simulation::does(
            p,
            ops,
            g,
            merged(g7, ty, tv, then_end, then_ok, fv, else_end, else_ok),
            Some(lowering::made(g7)),
            ty,
            bs,
            Res::Val(v),
            s,
            m,
            r,
        ),
{
    broadcast use simulation::group_within;

    if ty is Unit {
        mf
    } else {
        let one = if then_ok {
            seq![(tv->0, then_end)]
        } else {
            Seq::empty()
        };
        let both = if else_ok {
            one.push((fv->0, else_end))
        } else {
            one
        };
        let op = OpV::Phi { ty: lowering::lower_type(g7, ty)->Ok_0, incoming: both, name: "iftmp"@ };
        assert(simulation::within(ops, lowering::step(g7, op)));
        reveal_with_fuel(machine::incoming, 3);
        if first {
            assert(both[0] == (tv->0, then_end));
        } else if then_ok {
            assert(both[0] == (tv->0, then_end));
            assert(both[1] == (fv->0, else_end));
        } else {
            assert(both[0] == (fv->0, else_end));
        }
        let r = simulation::make(p, ops, g7, op, mf);
        machine::leads_on(p.w, ops, m, mf, r);
        simulation::kept_on(g.ops.len() as int, g7.ops.len() as int, m, mf, r);
        simulation::lemma_agrees_regs(p.types, bs, s, mf, r);
        r
    }
}

pub open spec fn merged(
    g7: GenV,
    ty: TypeV,
    tv: Option<ValV>,
    then_end: usize,
    then_ok: bool,
    fv: Option<ValV>,
    else_end: usize,
    else_ok: bool,
) -> GenV {
    let one = if then_ok {
        seq![(tv->0, then_end)]
    } else {
        Seq::empty()
    };
    let both = if else_ok {
        one.push((fv->0, else_end))
    } else {
        one
    };
    lowering::step(
        g7,
        OpV::Phi { ty: lowering::lower_type(g7, ty)->Ok_0, incoming: both, name: "iftmp"@ },
    )
}

} // verus!
