//! The scripts of operators do what the operators mean.
use crate::ast::{ExprV, TypeV};
use crate::blocks;
use crate::fitting;
use crate::ir::{OpV, Val, ValV};
use crate::ir;
use crate::lowering::GenV;
use crate::lowering;
use crate::machine::{MachineV, World};
use crate::machine;
use crate::meaning::{LV, Many, Meaning, Res, StateV};
use crate::meaning;
use crate::sim_calls;
use crate::simulation::Bind;
use crate::simulation;
use crate::typing;
use vstd::prelude::*;

verus! {

/// The step of an operator computes the operation.
pub proof fn lemma_arith_step(w: World, op: Seq<char>, ty: TypeV, a: LV, b: LV)
    requires
        meaning::arith_of(op) is Some,
        typing::numeric(ty),
        simulation::has_scalar(a, ty),
        simulation::has_scalar(b, ty),
    ensures
        meaning::arith_value(w, meaning::arith_of(op)->0, a, b) matches Some(z) ==> simulation::has_scalar(z, ty)
            && machine::binary(
            w,
            lowering::bin_op(op, lowering::is_float(ty)).0,
            simulation::scalar_repr(a),
            simulation::scalar_repr(b),
        ) == Some(simulation::scalar_repr(z)),
{
    match (a, b) {
        (LV::I32(x), LV::I32(y)) => {
            if let Some(z) = machine::whole_arith(meaning::arith_of(op)->0, -0x8000_0000, x, y) {
                simulation::lemma_wrap(z);
            }
        },
        (LV::I64(x), LV::I64(y)) => {
            if let Some(z) = machine::whole_arith(
                meaning::arith_of(op)->0,
                -0x8000_0000_0000_0000,
                x,
                y,
            ) {
                simulation::lemma_wrap(z);
            }
        },
        _ => {},
    }
}

pub proof fn lemma_neg_step(w: World, ty: TypeV, a: LV)
    requires
        typing::numeric(ty),
        simulation::has_scalar(a, ty),
    ensures
        meaning::neg_value(w, a) matches Some(z) && simulation::has_scalar(z, ty) && machine::negated(
            w,
            lowering::is_float(ty),
            simulation::scalar_repr(a),
        ) == Some(simulation::scalar_repr(z)),
{
    match a {
        LV::I32(x) => simulation::lemma_wrap(-x),
        LV::I64(x) => simulation::lemma_wrap(-x),
        _ => {},
    }
}

/// One more step behind a value.
pub proof fn then_make(
    p: Meaning,
    ops: Seq<OpV>,
    g: GenV,
    h: GenV,
    op: OpV,
    ty: TypeV,
    bs: Seq<Bind>,
    s: StateV,
    m: MachineV,
    m1: MachineV,
    v: LV,
) -> (r: MachineV)
    requires
        machine::leads(p.w, ops, m, m1),
        simulation::kept(g.ops.len() as int, m, m1),
        simulation::agrees(p.types, bs, s, m1),
        simulation::here(h, m1),
        !h.ended,
        g.ops.len() <= h.ops.len(),
        simulation::within(ops, lowering::step(h, op)),
        !(op is Ret || op is Call || op is Store || op is PositionAt || ir::ends_block(op)),
        ir::in_block(op),
        ops[m1.pc] == op,
        machine::step_of(p.w, ops, m1) == machine::made(m1, Some(simulation::repr(v, p.types))),
        !(op is EntryAlloca || op is GlobalText),
        simulation::has_type(v, ty, p.types),
    ensures
        simulation::does(
            p,
            ops,
            g,
            lowering::step(h, op),
            Some(lowering::made(h)),
            ty,
            bs,
            Res::Val(v),
            s,
            m,
            r,
        ),
{
    simulation::lemma_within_step(ops, h, op);
    let r = simulation::make(p, ops, h, op, m1);
    machine::leads_on(p.w, ops, m, m1, r);
    simulation::kept_on(g.ops.len() as int, h.ops.len() as int, m, m1, r);
    simulation::lemma_agrees_regs(p.types, bs, s, m1, r);
    r
}

pub proof fn sim_arith(
    n: nat,
    p: Meaning,
    ops: Seq<OpV>,
    callee: Seq<char>,
    args: Seq<ExprV>,
    ty: TypeV,
    g: GenV,
    bs: Seq<Bind>,
    s: StateV,
    m: MachineV,
) -> (r: MachineV)
    requires
        sim_calls::callable(n, p, ops, callee, args, g, bs, s, m),
        meaning::arith_of(callee) is Some,
        fitting::fits_builtin(callee, args, ty),
        lowering::lower_arith(callee, args, ty, g).r is Ok,
        simulation::within(ops, lowering::lower_arith(callee, args, ty, g).g),
    ensures
        ({
            let c = lowering::lower_arith(callee, args, ty, g);
            let (v, t) = meaning::eval_call(n, p, callee, args, s)->0;
            simulation::does(p, ops, g, c.g, Some(c.r->Ok_0), ty, bs, v, t, m, r)
        }),
    decreases n, args, args.len() + 1,
{
    sim_calls::lemma_builtins();
    assert(typing::numeric(ty) && fitting::all_of_type(args, ty));
    assert(fitting::fits(args[0], simulation::env_of(bs), p.types));
    assert(args[0].ty == Some(ty));
    if callee == "-"@ && args.len() == 1 {
        let c = lowering::lower_value(args[0], g, "unary -"@);
        simulation::value_after(p, ops, args[0], "unary -"@, g, bs);
        let name = if lowering::is_float(ty) {
            "fneg"@
        } else {
            "neg"@
        };
        let op = OpV::Neg { float: lowering::is_float(ty), val: c.r->Ok_0, name };
        simulation::lemma_within_step(ops, c.g, op);
        let m1 = simulation::sim_value(n, p, ops, args[0], "unary -"@, g, bs, s, m);
        let (v, s1) = meaning::eval(n, p, args[0], s)->0;
        if v is Brk {
            m1
        } else {
            lemma_neg_step(p.w, ty, v->Val_0);
            then_make(p, ops, g, c.g, op, ty, bs, s1, m, m1, meaning::neg_value(p.w, v->Val_0)->0)
        }
    } else if (callee == "+"@ || callee == "*"@) && args.len() == 1 {
        simulation::value_after(p, ops, args[0], "arith identity"@, g, bs);
        let m1 = simulation::sim_value(n, p, ops, args[0], "arith identity"@, g, bs, s, m);
        let (v, s1) = meaning::eval(n, p, args[0], s)->0;
        if v is Val {
            assert(meaning::eval_fold(n, p, meaning::arith_of(callee)->0, args, 1, v->Val_0, s1)
                == meaning::val(v->Val_0, s1));
        }
        m1
    } else {
        let c = lowering::lower_value(args[0], g, "arith lhs"@);
        simulation::value_after(p, ops, args[0], "arith lhs"@, g, bs);
        let z = lowering::lower_fold(callee, args, 1, c.r->Ok_0, ty, c.g);
        blocks::fill_fold(callee, args, 1, c.r->Ok_0, ty, c.g);
        simulation::lemma_within_fills(ops, c.g, z.g);
        let m1 = simulation::sim_value(n, p, ops, args[0], "arith lhs"@, g, bs, s, m);
        let (v, s1) = meaning::eval(n, p, args[0], s)->0;
        if v is Brk {
            m1
        } else {
            let m2 = sim_fold(n, p, ops, callee, args, 1, c.r->Ok_0, v->Val_0, ty, c.g, bs, s1, m1);
            machine::leads_on(p.w, ops, m, m1, m2);
            simulation::kept_on(g.ops.len() as int, c.g.ops.len() as int, m, m1, m2);
            m2
        }
    }
}

pub proof fn sim_fold(
    n: nat,
    p: Meaning,
    ops: Seq<OpV>,
    callee: Seq<char>,
    args: Seq<ExprV>,
    i: int,
    acc: ValV,
    x: LV,
    ty: TypeV,
    g: GenV,
    bs: Seq<Bind>,
    s: StateV,
    m: MachineV,
) -> (r: MachineV)
    requires
        1 <= i <= args.len(),
        simulation::ready(p, ops, g, bs, s, m),
        meaning::arith_of(callee) is Some,
        typing::numeric(ty),
        fitting::all_of_type(args, ty),
        fitting::fits_all(args, simulation::env_of(bs), p.types),
        simulation::has_type(x, ty, p.types),
        simulation::before(acc, g.ops.len() as int),
        machine::operand(p.w, ops, m, acc) == simulation::repr(x, p.types),
        meaning::eval_fold(n, p, meaning::arith_of(callee)->0, args, i, x, s) is Some,
        lowering::lower_fold(callee, args, i, acc, ty, g).r is Ok,
        simulation::within(ops, lowering::lower_fold(callee, args, i, acc, ty, g).g),
    ensures
        ({
            let c = lowering::lower_fold(callee, args, i, acc, ty, g);
            let (v, t) = meaning::eval_fold(n, p, meaning::arith_of(callee)->0, args, i, x, s)->0;
            simulation::does(p, ops, g, c.g, Some(c.r->Ok_0), ty, bs, v, t, m, r)
        }),
    decreases n, args, args.len() - i,
{
    if i < args.len() {
        let c = lowering::lower_value(args[i], g, "arith rhs"@);
        simulation::value_after(p, ops, args[i], "arith rhs"@, g, bs);
        let (o, name) = lowering::bin_op(callee, lowering::is_float(ty));
        let op = OpV::Bin { op: o, a: acc, b: c.r->Ok_0, name };
        let h = lowering::step(c.g, op);
        let z = lowering::lower_fold(callee, args, i + 1, lowering::made(c.g), ty, h);
        blocks::fill_fold(callee, args, i + 1, lowering::made(c.g), ty, h);
        simulation::lemma_within_fills(ops, h, z.g);
        simulation::lemma_within_step(ops, c.g, op);
        assert(args[i].ty == Some(ty));
        let m1 = simulation::sim_value(n, p, ops, args[i], "arith rhs"@, g, bs, s, m);
        let (v, s1) = meaning::eval(n, p, args[i], s)->0;
        if v is Brk {
            m1
        } else {
            lemma_arith_step(p.w, callee, ty, x, v->Val_0);
            simulation::lemma_operand_kept(p.w, ops, g.ops.len() as int, m, m1, acc);
            let y = meaning::arith_value(p.w, meaning::arith_of(callee)->0, x, v->Val_0)->0;
            let m2 = then_make(p, ops, g, c.g, op, ty, bs, s1, m, m1, y);
            simulation::lemma_linked_same(p, ops, c.g, h);
            simulation::lemma_scope_same(ops, c.g, h, bs);
            let m3 = sim_fold(n, p, ops, callee, args, i + 1, lowering::made(c.g), y, ty, h, bs, s1, m2);
            machine::leads_on(p.w, ops, m, m2, m3);
            simulation::kept_on(g.ops.len() as int, h.ops.len() as int, m, m2, m3);
            m3
        }
    } else {
        machine::leads_self(p.w, ops, m);
        m
    }
}

/// Two arguments, one behind the other.
pub proof fn sim_two(
    n: nat,
    p: Meaning,
    ops: Seq<OpV>,
    args: Seq<ExprV>,
    msg0: Seq<char>,
    msg1: Seq<char>,
    g: GenV,
    bs: Seq<Bind>,
    s: StateV,
    m: MachineV,
) -> (r: MachineV)
    requires
        args.len() == 2,
        simulation::ready(p, ops, g, bs, s, m),
        fitting::fits_all(args, simulation::env_of(bs), p.types),
        meaning::eval_args(n, p, args, 0, Seq::empty(), s) is Some,
        lowering::lower_value(args[0], g, msg0).r is Ok,
        ({
            let c = lowering::lower_value(args[0], g, msg0);
            let d = lowering::lower_value(args[1], c.g, msg1);
            d.r is Ok && simulation::within(ops, d.g)
        }),
    ensures
        ({
            let c = lowering::lower_value(args[0], g, msg0);
            let d = lowering::lower_value(args[1], c.g, msg1);
            let (v, t) = meaning::eval_args(n, p, args, 0, Seq::empty(), s)->0;
            &&& machine::leads(p.w, ops, m, r)
            &&& simulation::kept(g.ops.len() as int, m, r)
            &&& g.ops.len() <= c.g.ops.len() <= d.g.ops.len()
            &&& simulation::linked(p, ops, d.g) && simulation::scope(ops, d.g, bs)
            &&& simulation::agrees(p.types, bs, t, r)
            &&& v is Brk ==> simulation::left_loop(ops, g, r)
            &&& v matches Many::Vals(vs) ==> {
                &&& vs.len() == 2
                &&& simulation::here(d.g, r) && !d.g.ended
                &&& simulation::has_type(vs[0], args[0].ty->0, p.types) && simulation::has_type(vs[1], args[1].ty->0, p.types)
                &&& simulation::before(c.r->Ok_0, d.g.ops.len() as int) && simulation::before(d.r->Ok_0, d.g.ops.len() as int)
                &&& machine::operand(p.w, ops, r, c.r->Ok_0) == simulation::repr(vs[0], p.types)
                &&& machine::operand(p.w, ops, r, d.r->Ok_0) == simulation::repr(vs[1], p.types)
            }
        }),
    decreases n, args, args.len(),
{
    let c = lowering::lower_value(args[0], g, msg0);
    simulation::value_after(p, ops, args[0], msg0, g, bs);
    let d = lowering::lower_value(args[1], c.g, msg1);
    simulation::value_after(p, ops, args[1], msg1, c.g, bs);
    simulation::lemma_within_fills(ops, c.g, d.g);
    let none = Seq::<LV>::empty();
    reveal_with_fuel(meaning::eval_args, 3);
    let m1 = simulation::sim_value(n, p, ops, args[0], msg0, g, bs, s, m);
    let (v, s1) = meaning::eval(n, p, args[0], s)->0;
    if v is Brk {
        m1
    } else {
        let m2 = simulation::sim_value(n, p, ops, args[1], msg1, c.g, bs, s1, m1);
        machine::leads_on(p.w, ops, m, m1, m2);
        simulation::kept_on(g.ops.len() as int, c.g.ops.len() as int, m, m1, m2);
        let (w, s2) = meaning::eval(n, p, args[1], s1)->0;
        simulation::lemma_operand_kept(p.w, ops, c.g.ops.len() as int, m1, m2, c.r->Ok_0);
        if w is Val {
            let vs = none.push(v->Val_0).push(w->Val_0);
            assert(vs[0] == v->Val_0 && vs[1] == w->Val_0);
        }
        m2
    }
}

/// One argument.
pub proof fn eval_one(n: nat, p: Meaning, ops: Seq<OpV>, args: Seq<ExprV>, s: StateV)
    requires
        args.len() == 1,
    ensures
        meaning::eval_args(n, p, args, 0, Seq::empty(), s) == match meaning::eval(n, p, args[0], s) {
            Some((Res::Val(v), t)) => Some((Many::Vals(seq![v]), t)),
            Some((Res::Brk, t)) => Some((Many::Brk, t)),
            None => None,
        },
{
    reveal_with_fuel(meaning::eval_args, 2);
    if let Some((Res::Val(v), t)) = meaning::eval(n, p, args[0], s) {
        assert(Seq::<LV>::empty().push(v) =~= seq![v]);
    }
}

pub proof fn sim_test(
    n: nat,
    p: Meaning,
    ops: Seq<OpV>,
    callee: Seq<char>,
    args: Seq<ExprV>,
    g: GenV,
    bs: Seq<Bind>,
    s: StateV,
    m: MachineV,
) -> (r: MachineV)
    requires
        sim_calls::callable(n, p, ops, callee, args, g, bs, s, m),
        meaning::rel_of(callee) is Some,
        meaning::arith_of(callee) is None,
        fitting::fits_builtin(callee, args, TypeV::Bool),
        lowering::lower_test(callee, args, g).r is Ok,
        simulation::within(ops, lowering::lower_test(callee, args, g).g),
    ensures
        ({
            let c = lowering::lower_test(callee, args, g);
            let (v, t) = meaning::eval_call(n, p, callee, args, s)->0;
            simulation::does(p, ops, g, c.g, Some(c.r->Ok_0), TypeV::Bool, bs, v, t, m, r)
        }),
    decreases n, args, args.len() + 1,
{
    sim_calls::lemma_builtins();
    assert(typing::comparison(callee));
    assert(args.len() == 2);
    let ty = args[0].ty->0;
    assert(fitting::fits(args[0], simulation::env_of(bs), p.types));
    assert(args[1].ty == Some(ty));
    let c = lowering::lower_value(args[0], g, "operand"@);
    let d = lowering::lower_value(args[1], c.g, "operand"@);
    let float = lowering::is_float(ty);
    let name = if float {
        "fcmp"@
    } else {
        "cmp"@
    };
    let op = OpV::Test {
        pred: lowering::predicate(callee),
        float,
        a: c.r->Ok_0,
        b: d.r->Ok_0,
        name,
    };
    simulation::lemma_within_step(ops, d.g, op);
    let m1 = sim_two(n, p, ops, args, "operand"@, "operand"@, g, bs, s, m);
    let (v, s1) = meaning::eval_args(n, p, args, 0, Seq::empty(), s)->0;
    if let Many::Vals(vs) = v {
        let y = meaning::rel_value(p.w, meaning::rel_of(callee)->0, vs[0], vs[1])->0;
        then_make(p, ops, g, d.g, op, TypeV::Bool, bs, s1, m, m1, y)
    } else {
        m1
    }
}

pub proof fn sim_not(
    n: nat,
    p: Meaning,
    ops: Seq<OpV>,
    callee: Seq<char>,
    args: Seq<ExprV>,
    g: GenV,
    bs: Seq<Bind>,
    s: StateV,
    m: MachineV,
) -> (r: MachineV)
    requires
        sim_calls::callable(n, p, ops, callee, args, g, bs, s, m),
        callee == "not"@,
        fitting::fits_builtin(callee, args, TypeV::Bool),
        lowering::lower_not(args, g).r is Ok,
        simulation::within(ops, lowering::lower_not(args, g).g),
    ensures
        ({
            let c = lowering::lower_not(args, g);
            let (v, t) = meaning::eval_call(n, p, callee, args, s)->0;
            simulation::does(p, ops, g, c.g, Some(c.r->Ok_0), TypeV::Bool, bs, v, t, m, r)
        }),
    decreases n, args, args.len() + 1,
{
    sim_calls::lemma_builtins();
    assert(args.len() == 1);
    eval_one(n, p, ops, args, s);
    assert(fitting::fits(args[0], simulation::env_of(bs), p.types));
    assert(args[0].ty == Some(TypeV::Bool));
    let c = lowering::lower_value(args[0], g, "operand"@);
    simulation::value_after(p, ops, args[0], "operand"@, g, bs);
    let op = OpV::Not { val: c.r->Ok_0, name: "nottmp"@ };
    simulation::lemma_within_step(ops, c.g, op);
    let m1 = simulation::sim_value(n, p, ops, args[0], "operand"@, g, bs, s, m);
    let (v, s1) = meaning::eval(n, p, args[0], s)->0;
    if v is Brk {
        m1
    } else {
        let y = LV::Bool(!(v->Val_0->Bool_0));
        then_make(p, ops, g, c.g, op, TypeV::Bool, bs, s1, m, m1, y)
    }
}

} // verus!
