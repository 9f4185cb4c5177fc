//! The script of an `and` or an `or` does what this means.
use crate::ast::{ExprV, TypeV};
use crate::blocks;
use crate::fitting;
use crate::ir::{LTyV, OpV, Prim, ValV};
use crate::lowering::GenV;
use crate::lowering;
use crate::machine::MachineV;
use crate::machine;
use crate::meaning::{Eval, LV, Meaning, Res, StateV};
use crate::meaning;
use crate::sim_ariths;
use crate::sim_calls;
use crate::simulation::Bind;
use crate::simulation;
use vstd::prelude::*;

verus! {

/// What an `and` or an `or` comes to.
pub open spec fn short_value(n: nat, p: Meaning, is_and: bool, args: Seq<ExprV>, s: StateV) -> Eval {
    match meaning::eval(n, p, args[0], s) {
        Some((Res::Val(LV::Bool(b)), t)) => if b == is_and {
            match meaning::eval(n, p, args[1], t) {
                Some((Res::Val(LV::Bool(c)), u)) => meaning::val(LV::Bool(c), u),
                Some((Res::Brk, u)) => Some((Res::Brk, u)),
                _ => None,
            }
        } else {
            meaning::val(LV::Bool(b), t)
        },
        Some((Res::Brk, t)) => Some((Res::Brk, t)),
        _ => None,
    }
}

pub proof fn sim_short(
    n: nat,
    p: Meaning,
    ops: Seq<OpV>,
    callee: Seq<char>,
    args: Seq<ExprV>,
    g: GenV,
    bs: Seq<Bind>,
    s: StateV,
    m: MachineV,
) -> (r: MachineV)
    requires
        sim_calls::callable(n, p, ops, callee, args, g, bs, s, m),
        callee == "and"@ || callee == "or"@,
        meaning::arith_of(callee) is None,
        fitting::fits_builtin(callee, args, TypeV::Bool),
        lowering::lower_short(callee == "and"@, args, g).r is Ok,
        simulation::within(ops, lowering::lower_short(callee == "and"@, args, g).g),
    ensures
        ({
            let c = lowering::lower_short(callee == "and"@, args, g);
            let (v, t) = meaning::eval_call(n, p, callee, args, s)->0;
            simulation::does(p, ops, g, c.g, Some(c.r->Ok_0), TypeV::Bool, bs, v, t, m, r)
        }),
    decreases n, args, args.len() + 1,
{
    sim_calls::lemma_builtins();
    assert(args.len() == 2);
    assert(args[0].ty == Some(TypeV::Bool) && args[1].ty == Some(TypeV::Bool));
    assert(meaning::eval_call(n, p, callee, args, s) == short_value(n, p, callee == "and"@, args, s));
    short_steps(n, p, ops, callee == "and"@, args, g, bs, s, m)
}

/// The steps of an `and` or an `or`.
#[verifier::rlimit(60)]
pub proof fn short_steps(
    n: nat,
    p: Meaning,
    ops: Seq<OpV>,
    is_and: bool,
    args: Seq<ExprV>,
    g: GenV,
    bs: Seq<Bind>,
    s: StateV,
    m: MachineV,
) -> (r: MachineV)
    requires
        simulation::ready(p, ops, g, bs, s, m),
        fitting::fits_all(args, simulation::env_of(bs), p.types),
        args.len() == 2,
        args[0].ty == Some(TypeV::Bool) && args[1].ty == Some(TypeV::Bool),
        short_value(n, p, is_and, args, s) is Some,
        lowering::lower_short(is_and, args, g).r is Ok,
        simulation::within(ops, lowering::lower_short(is_and, args, g).g),
    ensures
        ({
            let c = lowering::lower_short(is_and, args, g);
            let (v, t) = short_value(n, p, is_and, args, s)->0;
            simulation::does(p, ops, g, c.g, Some(c.r->Ok_0), TypeV::Bool, bs, v, t, m, r)
        }),
    decreases n, args, args.len(),
{
    let msg0 = if is_and { "and lhs"@ } else { "or lhs"@ };
    let msg1 = if is_and { "and rhs"@ } else { "or rhs"@ };
    let c = lowering::lower_value(args[0], g, msg0);
    simulation::value_after(p, ops, args[0], msg0, g, bs);
    let a = c.r->Ok_0;
    let rhs_bb = lowering::next(c.g);
    let g1 = lowering::block(c.g, if is_and { "and.rhs"@ } else { "or.rhs"@ });
    let merge_bb = lowering::next(g1);
    let g2 = lowering::block(g1, if is_and { "and.end"@ } else { "or.end"@ });
    let entry_bb = g2.block;
    let br = if is_and {
        OpV::CondBr { cond: a, yes: rhs_bb, no: merge_bb }
    } else {
        OpV::CondBr { cond: a, yes: merge_bb, no: rhs_bb }
    };
    let g3 = lowering::step(g2, br);
    let g3b = lowering::go(g3, rhs_bb);
    simulation::lemma_linked_same(p, ops, c.g, g3b);
    simulation::lemma_scope_same(ops, c.g, g3b, bs);
    let d = lowering::lower_value(args[1], g3b, msg1);
    simulation::value_after(p, ops, args[1], msg1, g3b, bs);
    let b = d.r->Ok_0;
    let g4a = lowering::step(d.g, OpV::Br(merge_bb));
    let g4 = lowering::go(g4a, merge_bb);
    let phi = short_phi(is_and, entry_bb, b, d.g.block);
    simulation::lemma_within_step(ops, g4, phi);
    simulation::lemma_within_go(ops, g4a, merge_bb);
    simulation::lemma_within_step(ops, d.g, OpV::Br(merge_bb));
    simulation::lemma_within_fills(ops, g3b, d.g);
    simulation::lemma_within_go(ops, g3, rhs_bb);
    simulation::lemma_within_step(ops, g2, br);
    short_blocks(ops, c.g, g1, g2, g3, g3b, d.g, g4a, is_and, rhs_bb, merge_bb);
    simulation::block_fills(ops, g, c.g);
    assert(entry_bb == c.g.block && entry_bb < c.g.ops.len() && entry_bb != d.g.block);
    let i0 = c.g.ops.len() as int;
    let j1 = g4a.ops.len() as int;
    let m1 = simulation::sim_value(n, p, ops, args[0], msg0, g, bs, s, m);
    let (cr, s1) = meaning::eval(n, p, args[0], s)->0;
    if cr is Brk {
        m1
    } else {
        let x = cr->Val_0->Bool_0;
        let ma = simulation::make(p, ops, c.g, ops[i0], m1);
        let mb = simulation::make(p, ops, g1, ops[i0 + 1], ma);
        simulation::quiet_on(p.w, ops, c.g, g1, g2, m1, ma, mb);
        simulation::lemma_operand_kept(p.w, ops, i0, m1, mb, a);
        machine::leads_on(p.w, ops, m, m1, mb);
        simulation::kept_on(g.ops.len() as int, i0, m, m1, mb);
        simulation::lemma_agrees_regs(p.types, bs, s1, m1, mb);
        assert(ops[mb.pc] == br);
        if x == is_and {
            let md = simulation::jump(p, ops, mb, rhs_bb, i0 + 3);
            machine::leads_on(p.w, ops, m, mb, md);
            simulation::lemma_agrees_regs(p.types, bs, s1, mb, md);
            let me = simulation::sim_value(n, p, ops, args[1], msg1, g3b, bs, s1, md);
            machine::leads_on(p.w, ops, m, md, me);
            simulation::kept_on(g.ops.len() as int, g3b.ops.len() as int, m, md, me);
            let (dr, s2) = meaning::eval(n, p, args[1], s1)->0;
            if dr is Brk {
                me
            } else {
                let mf = simulation::jump(p, ops, me, merge_bb, j1);
                machine::leads_on(p.w, ops, m, me, mf);
                simulation::lemma_agrees_regs(p.types, bs, s2, me, mf);
                assert(mf.prev == d.g.block);
                short_end(p, ops, g, g4, is_and, entry_bb, b, d.g.block, false, bs, s2, m, mf, dr->Val_0)
            }
        } else {
            let mf = simulation::jump(p, ops, mb, merge_bb, j1);
            machine::leads_on(p.w, ops, m, mb, mf);
            simulation::lemma_agrees_regs(p.types, bs, s1, mb, mf);
            assert(mf.prev == entry_bb);
            short_end(p, ops, g, g4, is_and, entry_bb, b, d.g.block, true, bs, s1, m, mf, cr->Val_0)
        }
    }
}

/// The step in which the two ways through an `and` or an `or` meet.
pub open spec fn short_phi(is_and: bool, entry_bb: usize, b: ValV, rhs_end: usize) -> OpV {
    OpV::Phi {
        ty: LTyV::One(Prim::I1),
        incoming: seq![
            (
                ValV::Int(
                    Prim::I1,
                    if is_and {
                        0
                    } else {
                        1
                    },
                ),
                entry_bb,
            ),
            (b, rhs_end),
        ],
        name: if is_and {
            "andtmp"@
        } else {
            "ortmp"@
        },
    }
}

pub proof fn short_end(
    p: Meaning,
    ops: Seq<OpV>,
    g: GenV,
    g4: GenV,
    is_and: bool,
    entry_bb: usize,
    b: ValV,
    rhs_end: usize,
    first: bool,
    bs: Seq<Bind>,
    s: StateV,
    m: MachineV,
    mf: MachineV,
    v: LV,
) -> (r: MachineV)
    requires
        machine::leads(p.w, ops, m, mf),
        simulation::kept(g.ops.len() as int, m, mf),
        simulation::agrees(p.types, bs, s, mf),
        simulation::here(g4, mf),
        !g4.ended,
        g.ops.len() <= g4.ops.len(),
        simulation::within(ops, lowering::step(g4, short_phi(is_and, entry_bb, b, rhs_end))),
        entry_bb != rhs_end,
        simulation::has_type(v, TypeV::Bool, p.types),
        first ==> mf.prev == entry_bb && v == LV::Bool(!is_and),
        !first ==> mf.prev == rhs_end && machine::operand(p.w, ops, mf, b) == simulation::repr(v, p.types),
    ensures
        simulation::does(
            p,
            ops,
            g,
            lowering::step(g4, short_phi(is_and, entry_bb, b, rhs_end)),
            Some(lowering::made(g4)),
            TypeV::Bool,
            bs,
            Res::Val(v),
            s,
            m,
            r,
        ),
{
    let phi = short_phi(is_and, entry_bb, b, rhs_end);
    simulation::lemma_within_step(ops, g4, phi);
    reveal_with_fuel(machine::incoming, 3);
    sim_ariths::then_make(p, ops, g, g4, phi, TypeV::Bool, bs, s, m, mf, v)
}

/// Where the blocks of an `and` or an `or` stand.
pub proof fn short_blocks(
    ops: Seq<OpV>,
    c: GenV,
    g1: GenV,
    g2: GenV,
    g3: GenV,
    g3b: GenV,
    d: GenV,
    g4a: GenV,
    is_and: bool,
    rhs_bb: usize,
    merge_bb: usize,
)
    requires
        simulation::within(ops, g4a),
        simulation::within(ops, d),
        simulation::within(ops, g3b),
        simulation::within(ops, g3),
        simulation::within(ops, g2),
        g1 == lowering::block(c, if is_and { "and.rhs"@ } else { "or.rhs"@ }),
        g2 == lowering::block(g1, if is_and { "and.end"@ } else { "or.end"@ }),
        rhs_bb == lowering::next(c),
        merge_bb == lowering::next(g1),
        exists|br: OpV| br is CondBr && g3 == #[trigger] lowering::step(g2, br),
        g3b == lowering::go(g3, rhs_bb),
        blocks::fills(g3b, d),
        g4a == lowering::step(d, OpV::Br(merge_bb)),
        simulation::within(ops, lowering::go(g4a, merge_bb)),
    ensures
        simulation::within(ops, g1),
        simulation::within(ops, c),
        rhs_bb == c.ops.len(),
        merge_bb == c.ops.len() + 1,
        ops[c.ops.len() as int] is NewBlock,
        ops[(c.ops.len() + 1) as int] is NewBlock,
        ops[(c.ops.len() + 2) as int] is CondBr,
        ops[(c.ops.len() + 3) as int] == OpV::PositionAt(rhs_bb),
        g1 == lowering::step(c, ops[c.ops.len() as int]),
        g2 == lowering::step(g1, ops[(c.ops.len() + 1) as int]),
        g3b.ops.len() == c.ops.len() + 4,
        simulation::clear(ops, rhs_bb, c.ops.len() as int, (c.ops.len() + 3) as int),
        simulation::clear(ops, merge_bb, (c.ops.len() + 1) as int, g4a.ops.len() as int),
        ops[g4a.ops.len() as int] == OpV::PositionAt(merge_bb),
        d.block == rhs_bb || d.block >= g3b.ops.len(),
        g2.block == c.block,
{
    broadcast use simulation::group_within;

    assert(simulation::within(ops, g1));
    assert(simulation::within(ops, c));
    simulation::clear_fills(ops, g3b, d, merge_bb);
    simulation::block_fills(ops, g3b, d);
}

} // verus!
