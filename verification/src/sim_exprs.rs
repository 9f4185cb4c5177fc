//! The script of an expression does what the expression means.
use crate::ast::{ExprKindV, ExprV};
use crate::ir::{OpV, Val};
use crate::lowering::{GenV, ValueUse};
use crate::lowering;
use crate::machine::MachineV;
use crate::meaning::{LV, Meaning, StateV};
use crate::meaning;
use crate::sim_calls;
use crate::sim_casts;
use crate::sim_dos;
use crate::sim_fields;
use crate::sim_ifs;
use crate::sim_lets;
use crate::sim_loops;
use crate::simulation::Bind;
use crate::simulation;
use vstd::prelude::*;

verus! {

pub proof fn sim_expr(
    n: nat,
    p: Meaning,
    ops: Seq<OpV>,
    e: ExprV,
    mode: ValueUse,
    g: GenV,
    bs: Seq<Bind>,
    s: StateV,
    m: MachineV,
) -> (r: MachineV)
    requires
        simulation::fine(n, p, ops, e, g, bs, s, m),
        lowering::lower(e, mode, g).r is Ok,
        simulation::within(ops, lowering::lower(e, mode, g).g),
    ensures
        ({
            let c = lowering::lower(e, mode, g);
            let (v, t) = meaning::eval(n, p, e, s)->0;
            &&& simulation::does(p, ops, g, c.g, c.r->Ok_0, e.ty->0, bs, v, t, m, r)
            &&& v is Val ==> simulation::ready(p, ops, c.g, bs, t, r)
        }),
    decreases n, e, 9int,
{
    simulation::after(p, ops, e, mode, g, bs);
    let ty = e.ty->0;
    match e.kind {
        ExprKindV::Lit(l) => simulation::sim_lit(p, ops, l, ty, mode, g, bs, s, m),
        ExprKindV::Var(name) => {
            let (v, _) = meaning::eval(n, p, e, s)->0;
            let x = v->Val_0;
            simulation::sim_var(p, ops, name, ty, mode, g, bs, s, m, x)
        },
        ExprKindV::Break => {
            broadcast use simulation::group_within;
            let bb = g.loop_exits.last();
            let r = simulation::take(p.w, ops, m, OpV::Br(bb));
            simulation::lemma_agrees_regs(p.types, bs, s, m, r);
            r
        },
        ExprKindV::If { .. } => sim_ifs::sim_if(n, p, ops, e, g, bs, s, m),
        ExprKindV::Let { .. } => sim_lets::sim_let(n, p, ops, e, g, bs, s, m),
        ExprKindV::Do(es) => sim_dos::sim_do(n, p, ops, es, 0, LV::Unit, g, bs, s, m),
        ExprKindV::Cast { .. } => sim_casts::sim_cast(n, p, ops, e, g, bs, s, m),
        ExprKindV::Assign { .. } => sim_casts::sim_assign(n, p, ops, e, g, bs, s, m),
        ExprKindV::While { .. } => sim_loops::sim_while(n, p, ops, e, g, bs, s, m),
        ExprKindV::Loop { .. } => sim_loops::sim_loop(n, p, ops, e, g, bs, s, m),
        ExprKindV::ArrayLit { .. } => m,
        ExprKindV::Field { .. } => sim_fields::sim_field(n, p, ops, e, g, bs, s, m),
        ExprKindV::Match { .. } => m,
        ExprKindV::Call { .. } => sim_calls::sim_call(n, p, ops, e, g, bs, s, m),
    }
}

} // verus!
