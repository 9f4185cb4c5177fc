//! The scripts of constructors do what these mean.
use crate::ast::{ExprV, FieldDefV, TypeV};
use crate::ast;
use crate::blocks;
use crate::fitting;
use crate::ir::{ConvOp, OpV, Prim, ValV};
use crate::lowering::GenV;
use crate::lowering;
use crate::machine::{MachineV, MV};
use crate::machine;
use crate::meaning::{LV, Many, Meaning, Res, StateV};
use crate::meaning;
use crate::sim_ariths;
use crate::simulation::Bind;
use crate::simulation;
use crate::typing::CkV;
use crate::typing;
use vstd::prelude::*;

verus! {

/// The fields of a struct are as many as the parts of its type.
pub proof fn lemma_parts(fields: Seq<FieldDefV>, i: int, acc: Seq<Prim>)
    requires
        0 <= i <= fields.len(),
        acc.len() == i,
    ensures
        lowering::field_prims(fields, i, acc) matches Ok(ps) ==> ps.len() == fields.len(),
    decreases fields.len() - i,
{
    if i < fields.len() {
        if let Some(q) = lowering::prim_of(fields[i].ty) {
            lemma_parts(fields, i + 1, acc.push(q));
        }
    }
}

pub proof fn sim_struct(
    n: nat,
    p: Meaning,
    ops: Seq<OpV>,
    callee: Seq<char>,
    args: Seq<ExprV>,
    g: GenV,
    bs: Seq<Bind>,
    s: StateV,
    m: MachineV,
) -> (r: MachineV)
    requires
        simulation::ready(p, ops, g, bs, s, m),
        fitting::fits_all(args, simulation::env_of(bs), p.types),
        meaning::eval_args(n, p, args, 0, Seq::empty(), s) is Some,
        p.types.structs.contains_key(callee),
        fitting::typed_as(args, typing::field_types(p.types.structs[callee].fields)),
        lowering::lower_struct(callee, args, g).r is Ok,
        simulation::within(ops, lowering::lower_struct(callee, args, g).g),
    ensures
        ({
            let c = lowering::lower_struct(callee, args, g);
            let (v, t) = meaning::eval_args(n, p, args, 0, Seq::empty(), s)->0;
            let made = match v {
                Many::Vals(vs) => Res::Val(LV::Struct(vs)),
                Many::Brk => Res::Brk,
            };
            simulation::does(p, ops, g, c.g, Some(c.r->Ok_0), TypeV::Named(callee), bs, made, t, m, r)
        }),
    decreases n, args, args.len() + 1,
{
    assert(g.structs == p.types.structs && p.types.structs[callee].fields.len() <= u32::MAX
        && p.types.structs[callee].name == callee) by {
        reveal(simulation::linked);
    }
    let fields = p.types.structs[callee].fields;
    assert(forall|i: int| 0 <= i < fields.len() ==> ast::scalar((#[trigger] fields[i]).ty)) by {
        reveal(simulation::linked);
    }
    let st = lowering::lower_type(g, TypeV::Named(callee))->Ok_0;
    assert(lowering::prim_of(TypeV::Named(callee)) is None);
    lemma_parts(fields, 0, Seq::empty());
    sim_parts(n, p, ops, fields, callee, args, 0, ValV::Undef(st), Seq::empty(), g, bs, s, m)
}

/// The parts of a struct from place `i` on, behind those in `acc`.
pub proof fn sim_parts(
    n: nat,
    p: Meaning,
    ops: Seq<OpV>,
    fields: Seq<FieldDefV>,
    name: Seq<char>,
    args: Seq<ExprV>,
    i: int,
    agg: ValV,
    acc: Seq<LV>,
    g: GenV,
    bs: Seq<Bind>,
    s: StateV,
    m: MachineV,
) -> (r: MachineV)
    requires
        0 <= i <= args.len(),
        args.len() == fields.len(),
        fields.len() <= u32::MAX,
        p.types.structs.contains_key(name),
        fields == p.types.structs[name].fields,
        simulation::ready(p, ops, g, bs, s, m),
        fitting::fits_all(args, simulation::env_of(bs), p.types),
        fitting::typed_as(args, typing::field_types(fields)),
        forall|j: int| 0 <= j < fields.len() ==> ast::scalar((#[trigger] fields[j]).ty),
        acc.len() == i,
        forall|j: int| 0 <= j < i ==> simulation::has_scalar(#[trigger] acc[j], fields[j].ty),
        simulation::before(agg, g.ops.len() as int),
        machine::operand(p.w, ops, m, agg) matches MV::Agg(xs) && xs.len() == fields.len() && forall|
            j: int,
        |
            0 <= j < i ==> #[trigger] xs[j] == simulation::scalar_repr(acc[j]),
        meaning::eval_args(n, p, args, i, acc, s) is Some,
        lowering::lower_fields(fields, args, i, agg, g).r is Ok,
        simulation::within(ops, lowering::lower_fields(fields, args, i, agg, g).g),
    ensures
        ({
            let c = lowering::lower_fields(fields, args, i, agg, g);
            let (v, t) = meaning::eval_args(n, p, args, i, acc, s)->0;
            let made = match v {
                Many::Vals(vs) => Res::Val(LV::Struct(vs)),
                Many::Brk => Res::Brk,
            };
            simulation::does(p, ops, g, c.g, Some(c.r->Ok_0), TypeV::Named(name), bs, made, t, m, r)
        }),
    decreases n, args, args.len() - i,
{
    let xs = machine::operand(p.w, ops, m, agg)->Agg_0;
    if i < args.len() {
        let c = lowering::lower_value(args[i], g, "struct field"@);
        simulation::value_after(p, ops, args[i], "struct field"@, g, bs);
        let op = OpV::Insert { agg, val: c.r->Ok_0, index: i as u32, name: fields[i].name };
        let h = lowering::step(c.g, op);
        let z = lowering::lower_fields(fields, args, i + 1, lowering::made(c.g), h);
        blocks::fill_fields(fields, args, i + 1, lowering::made(c.g), h);
        simulation::lemma_within_fills(ops, h, z.g);
        simulation::lemma_within_step(ops, c.g, op);
        assert(args[i].ty == Some(fields[i].ty));
        let m1 = simulation::sim_value(n, p, ops, args[i], "struct field"@, g, bs, s, m);
        let (v, s1) = meaning::eval(n, p, args[i], s)->0;
        if v is Brk {
            m1
        } else {
            let y = v->Val_0;
            assert(simulation::has_scalar(y, fields[i].ty));
            simulation::lemma_operand_kept(p.w, ops, g.ops.len() as int, m, m1, agg);
            let more = acc.push(y);
            let ys = xs.update(i, simulation::scalar_repr(y));
            let m2 = simulation::make(p, ops, c.g, op, m1);
            machine::leads_on(p.w, ops, m, m1, m2);
            simulation::kept_on(g.ops.len() as int, c.g.ops.len() as int, m, m1, m2);
            simulation::lemma_agrees_regs(p.types, bs, s1, m1, m2);
            assert(ops.len() <= usize::MAX) by {
                reveal(simulation::within);
            }
            assert(machine::operand(p.w, ops, m2, lowering::made(c.g)) == MV::Agg(ys));
            assert forall|j: int| 0 <= j < i + 1 implies #[trigger] ys[j] == simulation::scalar_repr(more[j]) by {
                if j < i {
                    assert(more[j] == acc[j]);
                    assert(ys[j] == xs[j]);
                }
            }
            assert forall|j: int| 0 <= j < i + 1 implies simulation::has_scalar(#[trigger] more[j], fields[j].ty) by {
                if j < i {
                    assert(more[j] == acc[j]);
                }
            }
            simulation::lemma_linked_same(p, ops, c.g, h);
            simulation::lemma_scope_same(ops, c.g, h, bs);
            let m3 = sim_parts(n, p, ops, fields, name, args, i + 1, lowering::made(c.g), more, h, bs, s1, m2);
            machine::leads_on(p.w, ops, m, m2, m3);
            simulation::kept_on(g.ops.len() as int, h.ops.len() as int, m, m2, m3);
            m3
        }
    } else {
        machine::leads_self(p.w, ops, m);
        assert(xs =~= Seq::new(acc.len(), |j: int| simulation::scalar_repr(acc[j])));
        m
    }
}

/// A payload is packed into its bits.
pub proof fn do_pack(
    p: Meaning,
    ops: Seq<OpV>,
    g: GenV,
    v: ValV,
    ty: TypeV,
    m: MachineV,
    x: LV,
) -> (r: MachineV)
    requires
        simulation::here(g, m),
        !g.ended,
        simulation::has_scalar(x, ty),
        simulation::before(v, g.ops.len() as int),
        machine::operand(p.w, ops, m, v) == simulation::scalar_repr(x),
        lowering::lower_pack(g, v, ty).r is Ok,
        simulation::within(ops, lowering::lower_pack(g, v, ty).g),
    ensures
        ({
            let d = lowering::lower_pack(g, v, ty);
            &&& simulation::before(d.r->Ok_0, d.g.ops.len() as int)
            &&& machine::operand(p.w, ops, r, d.r->Ok_0) == MV::I64(simulation::payload_bits(x))
            &&& simulation::quiet(p.w, ops, g, d.g, m, r)
        }),
{
    assert(ops.len() <= usize::MAX) by {
        reveal(simulation::within);
    }
    if ty is I64 {
        machine::leads_self(p.w, ops, m);
        m
    } else if ty is F32 {
        let op = OpV::Convert { op: ConvOp::BitCast, val: v, to: Prim::I32, name: "f32bits"@ };
        let g1 = lowering::step(g, op);
        let next = OpV::Convert {
            op: ConvOp::ZeroExtend,
            val: lowering::made(g),
            to: Prim::I64,
            name: "f32zext"@,
        };
        simulation::lemma_within_step(ops, g1, next);
        simulation::lemma_within_step(ops, g, op);
        let m1 = simulation::make(p, ops, g, op, m);
        let b = x->F32_0 as int;
        assert(machine::unsigned32(machine::wrap32(b)) == b);
        let m2 = simulation::make(p, ops, g1, next, m1);
        simulation::quiet_on(p.w, ops, g, g1, lowering::step(g1, next), m, m1, m2);
        m2
    } else {
        let op = if ty is F64 {
            OpV::Convert { op: ConvOp::BitCast, val: v, to: Prim::I64, name: "f64bits"@ }
        } else {
            OpV::Convert { op: ConvOp::ZeroExtend, val: v, to: Prim::I64, name: "zext"@ }
        };
        simulation::lemma_within_step(ops, g, op);
        simulation::make(p, ops, g, op, m)
    }
}

/// A variant is made of its tag and its bits.
pub proof fn do_enum(
    p: Meaning,
    ops: Seq<OpV>,
    g: GenV,
    tag: u32,
    bits: ValV,
    m: MachineV,
    x: int,
) -> (r: MachineV)
    requires
        simulation::here(g, m),
        !g.ended,
        simulation::before(bits, g.ops.len() as int),
        machine::operand(p.w, ops, m, bits) == MV::I64(x),
        simulation::within(ops, lowering::lower_enum(g, tag, bits).g),
    ensures
        ({
            let d = lowering::lower_enum(g, tag, bits);
            &&& simulation::before(d.r->Ok_0, d.g.ops.len() as int)
            &&& machine::operand(p.w, ops, r, d.r->Ok_0) == MV::Agg(
                seq![MV::I32(machine::wrap32(tag as int)), MV::I64(x)],
            )
            &&& simulation::quiet(p.w, ops, g, d.g, m, r)
        }),
{
    assert(ops.len() <= usize::MAX) by {
        reveal(simulation::within);
    }
    let first = OpV::Insert {
        agg: ValV::Undef(lowering::enum_type()),
        val: ValV::Int(Prim::I32, tag as i64),
        index: 0,
        name: "tag"@,
    };
    let g1 = lowering::step(g, first);
    let second = OpV::Insert { agg: lowering::made(g), val: bits, index: 1, name: "payload"@ };
    simulation::lemma_within_step(ops, g1, second);
    simulation::lemma_within_step(ops, g, first);
    let t = MV::I32(machine::wrap32(tag as int));
    let none = Seq::new(2, |i: int| MV::Undef);
    let m1 = simulation::make(p, ops, g, first, m);
    assert(machine::operand(p.w, ops, m1, lowering::made(g)) == MV::Agg(none.update(0, t)));
    simulation::lemma_operand_kept(p.w, ops, g.ops.len() as int, m, m1, bits);
    let m2 = simulation::make(p, ops, g1, second, m1);
    simulation::quiet_on(p.w, ops, g, g1, lowering::step(g1, second), m, m1, m2);
    assert(none.update(0, t).update(1, MV::I64(x)) =~= seq![t, MV::I64(x)]);
    m2
}

/// How the machine holds a variant.
pub proof fn lemma_repr_variant(c: CkV, x: Seq<char>, payload: Option<Box<LV>>, bits: int)
    requires
        match payload {
            Some(y) => bits == simulation::payload_bits(*y),
            None => bits == 0,
        },
    ensures
        simulation::repr(LV::Variant(x, payload), c) == MV::Agg(
            seq![MV::I32(machine::wrap32(c.variants[x].tag as int)), MV::I64(bits)],
        ),
{
    assert(simulation::repr(LV::Variant(x, payload), c)->Agg_0 =~= seq![
        MV::I32(machine::wrap32(c.variants[x].tag as int)),
        MV::I64(bits),
    ]);
}

pub proof fn sim_variant(
    n: nat,
    p: Meaning,
    ops: Seq<OpV>,
    callee: Seq<char>,
    args: Seq<ExprV>,
    g: GenV,
    bs: Seq<Bind>,
    s: StateV,
    m: MachineV,
) -> (r: MachineV)
    requires
        simulation::ready(p, ops, g, bs, s, m),
        fitting::fits_all(args, simulation::env_of(bs), p.types),
        meaning::eval_args(n, p, args, 0, Seq::empty(), s) is Some,
        p.types.variants.contains_key(callee),
        fitting::typed_as(
            args,
            match p.types.variants[callee].payload {
                Some(t) => seq![t],
                None => Seq::empty(),
            },
        ),
        lowering::lower_variant(p.types.variants[callee], args, g).r is Ok,
        simulation::within(ops, lowering::lower_variant(p.types.variants[callee], args, g).g),
    ensures
        ({
            let c = lowering::lower_variant(p.types.variants[callee], args, g);
            let (v, t) = meaning::eval_args(n, p, args, 0, Seq::empty(), s)->0;
            let made = match v {
                Many::Vals(vs) => Res::Val(
                    LV::Variant(
                        callee,
                        if p.types.variants[callee].payload is Some {
                            Some(Box::new(vs[0]))
                        } else {
                            None
                        },
                    ),
                ),
                Many::Brk => Res::Brk,
            };
            simulation::does(p, ops, g, c.g, Some(c.r->Ok_0), TypeV::Named(p.types.variants[callee].enum_name), bs, made, t, m, r)
        }),
    decreases n, args, args.len() + 1,
{
    let info = p.types.variants[callee];
    if let Some(pty) = info.payload {
        assert(ast::scalar(pty)) by {
            reveal(simulation::linked);
        }
        assert(args.len() == 1);
        assert(args[0].ty == Some(pty));
        sim_ariths::eval_one(n, p, ops, args, s);
        let c = lowering::lower_value(args[0], g, "variant payload"@);
        simulation::value_after(p, ops, args[0], "variant payload"@, g, bs);
        let d = lowering::lower_pack(c.g, c.r->Ok_0, pty);
        let z = lowering::lower_enum(d.g, info.tag, d.r->Ok_0);
        blocks::fill_enum(d.g, info.tag, d.r->Ok_0);
        simulation::lemma_within_fills(ops, d.g, z.g);
        blocks::fill_pack(c.g, c.r->Ok_0, pty);
        simulation::lemma_within_fills(ops, c.g, d.g);
        let m1 = simulation::sim_value(n, p, ops, args[0], "variant payload"@, g, bs, s, m);
        let (v, s1) = meaning::eval(n, p, args[0], s)->0;
        if v is Brk {
            m1
        } else {
            let x = v->Val_0;
            let m2 = do_pack(p, ops, c.g, c.r->Ok_0, pty, m1, x);
            let m3 = do_enum(p, ops, d.g, info.tag, d.r->Ok_0, m2, simulation::payload_bits(x));
            simulation::quiet_on(p.w, ops, c.g, d.g, z.g, m1, m2, m3);
            machine::leads_on(p.w, ops, m, m1, m3);
            simulation::kept_on(g.ops.len() as int, c.g.ops.len() as int, m, m1, m3);
            simulation::lemma_agrees_regs(p.types, bs, s1, m1, m3);
            let y = LV::Variant(callee, Some(Box::new(x)));
            assert(seq![x][0] == x);
            assert(simulation::has_type(y, TypeV::Named(info.enum_name), p.types));
            lemma_repr_variant(p.types, callee, Some(Box::new(x)), simulation::payload_bits(x));
            m3
        }
    } else {
        assert(args.len() == 0);
        reveal_with_fuel(meaning::eval_args, 2);
        let zero = ValV::Int(Prim::I64, 0);
        let m1 = do_enum(p, ops, g, info.tag, zero, m, 0);
        simulation::lemma_agrees_regs(p.types, bs, s, m, m1);
        let y = LV::Variant(callee, None);
        assert(meaning::eval_args(n, p, args, 0, Seq::empty(), s) == Some(
            (Many::Vals(Seq::<LV>::empty()), s),
        ));
        assert(simulation::has_type(y, TypeV::Named(info.enum_name), p.types));
        lemma_repr_variant(p.types, callee, None, 0);
        m1
    }
}

} // verus!
