//! The script of a field does what the field means.
use crate::ast::{ExprKindV, ExprV, FieldDefV, TypeV};
use crate::ast;
use crate::fitting;
use crate::ir::{OpV, ValV};
use crate::lowering::{GenV, LocalV};
use crate::lowering;
use crate::machine::MachineV;
use crate::machine;
use crate::meaning::{Meaning, StateV};
use crate::meaning;
use crate::simulation::Bind;
use crate::simulation;
use vstd::prelude::*;

verus! {

/// A field is found where it stands.
pub proof fn lemma_field_place(fields: Seq<FieldDefV>, name: Seq<char>, i: int)
    requires
        0 <= i,
        forall|j: int| 0 <= j < i && j < fields.len() ==> (#[trigger] fields[j]).name != name,
    ensures
        lowering::field_at(fields, name, i) matches Some(k) ==> meaning::is_field(fields, name, k),
    decreases fields.len() - i,
{
    if i < fields.len() && fields[i].name != name {
        lemma_field_place(fields, name, i + 1);
    }
}

pub proof fn sim_field(
    n: nat,
    p: Meaning,
    ops: Seq<OpV>,
    e: ExprV,
    g: GenV,
    bs: Seq<Bind>,
    s: StateV,
    m: MachineV,
) -> (r: MachineV)
    requires
        e.kind is Field,
        simulation::fine(n, p, ops, e, g, bs, s, m),
        lowering::lower_field(e.kind, g).r is Ok,
        simulation::within(ops, lowering::lower_field(e.kind, g).g),
    ensures
        ({
            let c = lowering::lower_field(e.kind, g);
            let (v, t) = meaning::eval(n, p, e, s)->0;
            simulation::does(p, ops, g, c.g, Some(c.r->Ok_0), e.ty->0, bs, v, t, m, r)
        }),
    decreases n, e, 7int,
{
    broadcast use {simulation::group_within, simulation::group_linked, simulation::group_scoped};

    if let ExprKindV::Field { base, field } = e.kind {
        let name = base.ty->0->Named_0;
        let fields = p.types.structs[name].fields;
        fitting::lemma_find_field(fields, field, 0);
        lemma_field_place(fields, field, 0);
        let i = lowering::field_at(fields, field, 0)->0;
        assert(g.structs == p.types.structs && ast::scalar(fields[i].ty) && fields.len() <= u32::MAX) by {
            reveal(simulation::linked);
        }
        let k = choose|k: int| meaning::is_field(fields, field, k);
        assert(meaning::is_field(fields, field, i));
        assert(k == i) by {
            if k < i {
                assert(fields[k].name != field);
            } else if i < k {
                assert(fields[i].name != field);
            }
        }
        assert(ops.len() <= usize::MAX) by {
            reveal(simulation::within);
        }
        match lowering::as_var(*base) {
            Some(var) => {
                simulation::lemma_place(bs, var);
                assert(meaning::innermost(s.env, var) == simulation::place(bs, var)) by {
                    reveal(simulation::agrees);
                    simulation::lemma_innermost(bs, s.env, var);
                }
                assert(simulation::place(bs, var) is Some) by {
                    reveal(simulation::scope);
                    assert(lowering::find_local(g.locals, var) is Some);
                }
                let j = simulation::place(bs, var)->0;
                let b = bs[j];
                assert(lowering::find_local(g.locals, var) == Some(
                    LocalV { name: var, ptr: ValV::Reg(b.slot as usize), ty: b.ty },
                ) && 0 <= b.slot < g.ops.len() && ops[b.slot] is EntryAlloca) by {
                    reveal(simulation::scope);
                }
                let x = s.env[j].val;
                assert(meaning::eval(n, p, *base, s) == meaning::val(x, s));
                assert(m.mem.contains_key(b.slot) && m.mem[b.slot] == simulation::repr(x, p.types) && simulation::has_type(
                    x,
                    b.ty,
                    p.types,
                )) by {
                    reveal(simulation::agrees);
                }
                let vs = x->Struct_0;
                assert(fitting::fits(*base, simulation::env_of(bs), p.types));
                assert(fitting::fits_kind(base.kind, base.ty->0, simulation::env_of(bs), p.types));
                assert(b.ty == TypeV::Named(name));
                let st = lowering::lower_type(g, TypeV::Named(name))->Ok_0;
                let op = OpV::FieldPtr {
                    ty: st,
                    ptr: ValV::Reg(b.slot as usize),
                    index: i as u32,
                    name: field,
                };
                let g1 = lowering::step(g, op);
                let lt = lowering::lower_type(g1, fields[i].ty)->Ok_0;
                let op2 = OpV::Load { ty: lt, ptr: lowering::made(g), name: field };
                assert(lowering::lower_field(e.kind, g) == lowering::done(
                    lowering::step(g1, op2),
                    lowering::made(g1),
                ));
                assert(simulation::within(ops, g1));
                let m1 = simulation::make(p, ops, g, op, m);
                let m2 = simulation::make(p, ops, g1, op2, m1);
                simulation::quiet_on(p.w, ops, g, g1, lowering::step(g1, op2), m, m1, m2);
                simulation::lemma_agrees_regs(p.types, bs, s, m, m2);
                m2
            },
            None => {
                let c = lowering::lower_value(*base, g, "field base"@);
                simulation::value_after(p, ops, *base, "field base"@, g, bs);
                let op = OpV::Extract { agg: c.r->Ok_0, index: i as u32, name: field };
                assert(lowering::lower_field(e.kind, g) == lowering::done(
                    lowering::step(c.g, op),
                    lowering::made(c.g),
                ));
                assert(simulation::within(ops, c.g));
                let m1 = simulation::sim_value(n, p, ops, *base, "field base"@, g, bs, s, m);
                let (v, s1) = meaning::eval(n, p, *base, s)->0;
                if v is Brk {
                    m1
                } else {
                    let m2 = simulation::make(p, ops, c.g, op, m1);
                    machine::leads_on(p.w, ops, m, m1, m2);
                    simulation::kept_on(g.ops.len() as int, c.g.ops.len() as int, m, m1, m2);
                    simulation::lemma_agrees_regs(p.types, bs, s1, m1, m2);
                    m2
                }
            },
        }
    } else {
        m
    }
}

} // verus!
