//! The scripts of casts and assignments do what these mean.
use crate::ast::{ExprKindV, ExprV, TypeV};
use crate::blocks;
use crate::ir::{OpV, ValV};
use crate::lowering::{GenV, LocalV};
use crate::lowering;
use crate::machine::{MachineV, World};
use crate::machine;
use crate::meaning::{LV, Meaning, StateV, VarV};
use crate::meaning;
use crate::simulation::Bind;
use crate::simulation;
use crate::typing;
use vstd::prelude::*;

verus! {

pub proof fn sim_cast(
    n: nat,
    p: Meaning,
    ops: Seq<OpV>,
    e: ExprV,
    g: GenV,
    bs: Seq<Bind>,
    s: StateV,
    m: MachineV,
) -> (r: MachineV)
    requires
        e.kind is Cast,
        simulation::fine(n, p, ops, e, g, bs, s, m),
        lowering::lower_cast_form(e.kind, g).r is Ok,
        simulation::within(ops, lowering::lower_cast_form(e.kind, g).g),
    ensures
        ({
            let c = lowering::lower_cast_form(e.kind, g);
            let (v, t) = meaning::eval(n, p, e, s)->0;
            simulation::does(p, ops, g, c.g, Some(c.r->Ok_0), e.ty->0, bs, v, t, m, r)
        }),
    decreases n, e, 7int,
{
    broadcast use simulation::group_within;

    if let ExprKindV::Cast { ty, expr } = e.kind {
        let c = lowering::lower_value(*expr, g, "cast expr"@);
        simulation::value_after(p, ops, *expr, "cast expr"@, g, bs);
        let from = expr.ty->0;
        let d = lowering::lower_cast(c.g, c.r->Ok_0, from, ty);
        assert(simulation::within(ops, c.g));
        let m1 = simulation::sim_value(n, p, ops, *expr, "cast expr"@, g, bs, s, m);
        let (v, s1) = meaning::eval(n, p, *expr, s)->0;
        if v is Brk || from == ty {
            m1
        } else {
            let x = v->Val_0;
            lemma_casts(p.w, x, from, ty);
            let (op, to, name) = lowering::conversion(from, ty)->0;
            let step = OpV::Convert { op, val: c.r->Ok_0, to, name };
            assert(simulation::within(ops, lowering::step(c.g, step)));
            let m2 = simulation::make(p, ops, c.g, step, m1);
            machine::leads_on(p.w, ops, m, m1, m2);
            simulation::kept_on(g.ops.len() as int, c.g.ops.len() as int, m, m1, m2);
            simulation::lemma_agrees_regs(p.types, bs, s1, m1, m2);
            m2
        }
    } else {
        m
    }
}

/// The step of a cast computes the cast.
pub proof fn lemma_casts(w: World, x: LV, from: TypeV, to: TypeV)
    requires
        simulation::has_scalar(x, from),
        typing::numeric(from),
        typing::numeric(to),
        from != to,
    ensures
        lowering::conversion(from, to) is Some,
        ({
            let (op, prim, name) = lowering::conversion(from, to)->0;
            meaning::cast_value(w, x, to) matches Some(y) ==> simulation::has_scalar(y, to) && machine::converted(
                w,
                op,
                prim,
                simulation::scalar_repr(x),
            ) == Some(simulation::scalar_repr(y))
        }),
{
    if let LV::I64(y) = x {
        simulation::lemma_wrap(y);
    }
    if let LV::I32(y) = x {
        simulation::lemma_wrap(y);
    }
}

pub proof fn sim_assign(
    n: nat,
    p: Meaning,
    ops: Seq<OpV>,
    e: ExprV,
    g: GenV,
    bs: Seq<Bind>,
    s: StateV,
    m: MachineV,
) -> (r: MachineV)
    requires
        e.kind is Assign,
        simulation::fine(n, p, ops, e, g, bs, s, m),
        lowering::lower_assign(e.kind, g).r is Ok,
        simulation::within(ops, lowering::lower_assign(e.kind, g).g),
    ensures
        ({
            let c = lowering::lower_assign(e.kind, g);
            let (v, t) = meaning::eval(n, p, e, s)->0;
            simulation::does(p, ops, g, c.g, c.r->Ok_0, e.ty->0, bs, v, t, m, r)
        }),
    decreases n, e, 7int,
{
    if let ExprKindV::Assign { name, value } = e.kind {
        let c = lowering::lower_value(*value, g, "set! value"@);
        simulation::value_after(p, ops, *value, "set! value"@, g, bs);
        simulation::lemma_place(bs, name);
        let k = simulation::place(bs, name)->0;
        let b = bs[k];
        assert(lowering::find_local(c.g.locals, name) == Some(
            LocalV { name, ptr: ValV::Reg(b.slot as usize), ty: b.ty },
        ) && 0 <= b.slot < g.ops.len() && ops[b.slot] is EntryAlloca) by {
            reveal(simulation::scope);
        }
        let ptr = ValV::Reg(b.slot as usize);
        let d = lowering::lower_store(c.g, ptr, c.r->Ok_0, b.ty);
        blocks::fill_store(c.g, ptr, c.r->Ok_0, b.ty);
        simulation::lemma_within_fills(ops, c.g, d.g);
        assert(ops.len() <= usize::MAX) by {
            reveal(simulation::within);
        }
        let m1 = simulation::sim_value(n, p, ops, *value, "set! value"@, g, bs, s, m);
        let (v, s1) = meaning::eval(n, p, *value, s)->0;
        if v is Brk {
            m1
        } else {
            let m2 = simulation::do_store(p, ops, c.g, b.slot, c.r->Ok_0, b.ty, m1);
            machine::leads_on(p.w, ops, m, m1, m2);
            simulation::kept_on(g.ops.len() as int, c.g.ops.len() as int, m, m1, m2);
            assert(meaning::innermost(s1.env, name) == Some(k)) by {
                reveal(simulation::agrees);
                simulation::lemma_innermost(bs, s1.env, name);
            }
            let s2 = StateV { env: s1.env.update(k, VarV { name, val: v->Val_0 }), ..s1 };
            assert(simulation::agrees(p.types, bs, s2, m2)) by {
                reveal(simulation::agrees);
                reveal(simulation::scope);
                assert forall|i: int| 0 <= i < bs.len() implies {
                    &&& (#[trigger] s2.env[i]).name == bs[i].name
                    &&& simulation::has_type(s2.env[i].val, bs[i].ty, p.types)
                    &&& m2.mem.contains_key(bs[i].slot)
                    &&& m2.mem[bs[i].slot] == simulation::repr(s2.env[i].val, p.types)
                } by {
                    if i != k {
                        assert(s2.env[i] == s1.env[i]);
                        if i < k {
                            assert(bs[i].slot != bs[k].slot);
                        } else {
                            assert(bs[k].slot != bs[i].slot);
                        }
                    }
                }
            }
            m2
        }
    } else {
        m
    }
}

} // verus!
