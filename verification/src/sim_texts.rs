//! The scripts of what handles text do what this means.
use crate::ast::{ExprV, TypeV};
use crate::blocks;
use crate::fitting;
use crate::ir::{ConvOp, OpV, Prim, ValV};
use crate::lowering::GenV;
use crate::lowering;
use crate::machine::{MachineV, MV, World};
use crate::machine;
use crate::meaning::{LV, Many, Meaning, StateV};
use crate::meaning;
use crate::sim_ariths;
use crate::sim_calls;
use crate::simulation::Bind;
use crate::simulation;
use crate::typing::CkV;
use crate::typing;
use vstd::prelude::*;

verus! {

pub proof fn sim_str_len(
    n: nat,
    p: Meaning,
    ops: Seq<OpV>,
    callee: Seq<char>,
    args: Seq<ExprV>,
    g: GenV,
    bs: Seq<Bind>,
    s: StateV,
    m: MachineV,
) -> (r: MachineV)
    requires
        sim_calls::callable(n, p, ops, callee, args, g, bs, s, m),
        callee == "str-len"@,
        fitting::fits_builtin(callee, args, TypeV::I32),
        lowering::lower_str_len(args, g).r is Ok,
        simulation::within(ops, lowering::lower_str_len(args, g).g),
    ensures
        ({
            let c = lowering::lower_str_len(args, g);
            let (v, t) = meaning::eval_call(n, p, callee, args, s)->0;
            simulation::does(p, ops, g, c.g, Some(c.r->Ok_0), TypeV::I32, bs, v, t, m, r)
        }),
    decreases n, args, args.len() + 1,
{
    sim_calls::lemma_builtins();
    simulation::lemma_names();
    assert(args.len() == 1);
    sim_ariths::eval_one(n, p, ops, args, s);
    assert(args[0].ty == Some(TypeV::Str));
    let c = lowering::lower_value(args[0], g, "str-len"@);
    simulation::value_after(p, ops, args[0], "str-len"@, g, bs);
    let a = c.r->Ok_0;
    let x = lowering::lower_rt(c.g, "risp_str_len"@, seq![a], "strlen"@);
    let y = lowering::lower_drop(x.g, a, TypeV::Str);
    simulation::lemma_linked_same(p, ops, c.g, x.g);
    simulation::lemma_rt_within(ops, x.g, "risp_str_release"@, seq![a], "risp_str_release"@);
    simulation::lemma_rt_within(ops, c.g, "risp_str_len"@, seq![a], "strlen"@);
    let m1 = simulation::sim_value(n, p, ops, args[0], "str-len"@, g, bs, s, m);
    let (v, s1) = meaning::eval(n, p, args[0], s)->0;
    if v is Brk {
        m1
    } else {
        let t = v->Val_0->Str_0;
        simulation::lemma_operands_one(p.w, ops, m1, a);
        assert(simulation::run_time_linked(ops, c.g, "risp_str_len"@, "risp_str_len"@)) by {
            reveal(simulation::linked);
        }
        let m2 = simulation::make_rt(p, ops, c.g, "risp_str_len"@, "risp_str_len"@, seq![a], "strlen"@, m1);
        let m3 = simulation::do_drop(p, ops, x.g, a, TypeV::Str, m2);
        simulation::lemma_operand_kept(p.w, ops, x.g.ops.len() as int, m2, m3, x.r->Ok_0);
        machine::leads_on(p.w, ops, m1, m2, m3);
        machine::leads_on(p.w, ops, m, m1, m3);
        simulation::kept_on(c.g.ops.len() as int, x.g.ops.len() as int, m1, m2, m3);
        simulation::kept_on(g.ops.len() as int, c.g.ops.len() as int, m, m1, m3);
        simulation::lemma_agrees_regs(p.types, bs, s1, m1, m3);
        simulation::lemma_wrap((p.w.text_len)(t));
        m3
    }
}

pub proof fn sim_concat(
    n: nat,
    p: Meaning,
    ops: Seq<OpV>,
    callee: Seq<char>,
    args: Seq<ExprV>,
    g: GenV,
    bs: Seq<Bind>,
    s: StateV,
    m: MachineV,
) -> (r: MachineV)
    requires
        sim_calls::callable(n, p, ops, callee, args, g, bs, s, m),
        callee == "str-concat"@,
        fitting::fits_builtin(callee, args, TypeV::Str),
        lowering::lower_concat(args, g).r is Ok,
        simulation::within(ops, lowering::lower_concat(args, g).g),
    ensures
        ({
            let c = lowering::lower_concat(args, g);
            let (v, t) = meaning::eval_call(n, p, callee, args, s)->0;
            simulation::does(p, ops, g, c.g, Some(c.r->Ok_0), TypeV::Str, bs, v, t, m, r)
        }),
    decreases n, args, args.len() + 1,
{
    sim_calls::lemma_builtins();
    simulation::lemma_names();
    assert(args.len() == 2);
    assert(args[0].ty == Some(TypeV::Str) && args[1].ty == Some(TypeV::Str));
    let c = lowering::lower_value(args[0], g, "str-concat a"@);
    let d = lowering::lower_value(args[1], c.g, "str-concat b"@);
    let a = c.r->Ok_0;
    let b = d.r->Ok_0;
    let x = lowering::lower_rt(d.g, "risp_str_concat"@, seq![a, b], "strconcat"@);
    let y = lowering::lower_drop(x.g, a, TypeV::Str);
    let z = lowering::lower_drop(y.g, b, TypeV::Str);
    simulation::lemma_rt_within(ops, y.g, "risp_str_release"@, seq![b], "risp_str_release"@);
    simulation::lemma_rt_within(ops, x.g, "risp_str_release"@, seq![a], "risp_str_release"@);
    simulation::lemma_rt_within(ops, d.g, "risp_str_concat"@, seq![a, b], "strconcat"@);
    let m1 = sim_ariths::sim_two(n, p, ops, args, "str-concat a"@, "str-concat b"@, g, bs, s, m);
    let (v, s1) = meaning::eval_args(n, p, args, 0, Seq::empty(), s)->0;
    if let Many::Vals(vs) = v {
        simulation::lemma_linked_same(p, ops, d.g, x.g);
        simulation::lemma_linked_same(p, ops, x.g, y.g);
        simulation::lemma_operands_two(p.w, ops, m1, a, b);
        assert(simulation::run_time_linked(ops, d.g, "risp_str_concat"@, "risp_str_concat"@)) by {
            reveal(simulation::linked);
        }
        let m2 = simulation::make_rt(p, ops, d.g, "risp_str_concat"@, "risp_str_concat"@, seq![a, b], "strconcat"@, m1);
        let m3 = simulation::do_drop(p, ops, x.g, a, TypeV::Str, m2);
        let m4 = simulation::do_drop(p, ops, y.g, b, TypeV::Str, m3);
        simulation::quiet_on(p.w, ops, x.g, y.g, z.g, m2, m3, m4);
        simulation::lemma_operand_kept(p.w, ops, x.g.ops.len() as int, m2, m4, x.r->Ok_0);
        machine::leads_on(p.w, ops, m1, m2, m4);
        machine::leads_on(p.w, ops, m, m1, m4);
        simulation::kept_on(d.g.ops.len() as int, x.g.ops.len() as int, m1, m2, m4);
        simulation::kept_on(g.ops.len() as int, d.g.ops.len() as int, m, m1, m4);
        simulation::lemma_agrees_regs(p.types, bs, s1, m1, m4);
        m4
    } else {
        m1
    }
}

/// The step that prints leaves the variables as they are.
pub proof fn lemma_agrees_out(c: CkV, bs: Seq<Bind>, s: StateV, m: MachineV, r: MachineV, x: Seq<char>)
    requires
        simulation::agrees(c, bs, s, m),
        r.mem == m.mem,
        r.out == m.out + x,
    ensures
        simulation::agrees(c, bs, StateV { out: s.out + x, ..s }, r),
{
    reveal(simulation::agrees);
    let t = StateV { out: s.out + x, ..s };
    assert forall|i: int| 0 <= i < bs.len() implies {
        &&& (#[trigger] t.env[i]).name == bs[i].name
        &&& simulation::has_type(t.env[i].val, bs[i].ty, c)
        &&& r.mem.contains_key(bs[i].slot)
        &&& r.mem[bs[i].slot] == simulation::repr(t.env[i].val, c)
    } by {
        assert(t.env[i] == s.env[i]);
    }
}

/// The format of a type.
pub open spec fn shown_as(ty: TypeV) -> Seq<char> {
    match ty {
        TypeV::I32 => "%d"@,
        TypeV::I64 => "%lld"@,
        TypeV::Bool => "%s"@,
        _ => "%g"@,
    }
}

/// What is handed over to be printed.
pub open spec fn handed(w: World, v: LV) -> MV {
    match v {
        LV::Bool(b) => MV::Text(
            if b {
                "true"@
            } else {
                "false"@
            },
        ),
        LV::F32(x) => MV::F64((w.widen)(x)),
        _ => simulation::scalar_repr(v),
    }
}

/// A value printed by its format is shown, and what stands behind the format after it.
pub proof fn lemma_printed(w: World, ty: TypeV, v: LV, newline: bool)
    requires
        simulation::has_scalar(v, ty),
    ensures
        machine::printed(
            w,
            if newline {
                shown_as(ty) + "\n"@
            } else {
                shown_as(ty)
            },
            handed(w, v),
        ) == Some(
            meaning::shown_value(w, v)->0 + (if newline {
                seq!['\n']
            } else {
                Seq::empty()
            }),
        ),
{
    reveal_strlit("%d");
    reveal_strlit("%lld");
    reveal_strlit("%s");
    reveal_strlit("%g");
    reveal_strlit("\n");
    let f = shown_as(ty);
    let all = if newline {
        f + "\n"@
    } else {
        f
    };
    let end: Seq<char> = if newline {
        seq!['\n']
    } else {
        Seq::empty()
    };
    if ty is I64 {
        assert(f.len() == 4 && f[0] == '%' && f[1] == 'l' && f[2] == 'l' && f[3] == 'd');
        assert(all[0] == '%' && all[1] == 'l' && all[2] == 'l' && all[3] == 'd');
        assert(all.subrange(4, all.len() as int) =~= end);
    } else {
        assert(f.len() == 2 && f[0] == '%');
        assert(all[0] == '%' && all[1] == f[1]);
        assert(all.subrange(2, all.len() as int) =~= end);
    }
}

/// A value is made ready to be printed.
pub proof fn do_print_arg(
    p: Meaning,
    ops: Seq<OpV>,
    g: GenV,
    v: ValV,
    ty: TypeV,
    m: MachineV,
    x: LV,
) -> (r: MachineV)
    requires
        simulation::here(g, m),
        !g.ended,
        simulation::has_scalar(x, ty),
        simulation::before(v, g.ops.len() as int),
        machine::operand(p.w, ops, m, v) == simulation::scalar_repr(x),
        simulation::within(ops, lowering::lower_print_arg(g, v, ty).g),
    ensures
        ({
            let d = lowering::lower_print_arg(g, v, ty);
            &&& d.r matches Ok((f, w)) && f == shown_as(ty) && simulation::before(w, d.g.ops.len() as int)
                && machine::operand(p.w, ops, r, w) == handed(p.w, x)
            &&& simulation::quiet(p.w, ops, g, d.g, m, r)
        }),
{
    broadcast use simulation::group_within;

    if ty is Bool {
        let g1 = lowering::lower_text(g, "true"@);
        let g2 = lowering::lower_text(g1, "false"@);
        let op = OpV::Select { cond: v, a: lowering::made(g), b: lowering::made(g1), name: "boolstr"@ };
        assert(simulation::within(ops, lowering::step(g2, op)));
        assert(simulation::within(ops, g2));
        assert(simulation::within(ops, g1));
        let m1 = simulation::take(p.w, ops, m, ops[m.pc]);
        let m2 = simulation::take(p.w, ops, m1, ops[m1.pc]);
        machine::leads_on(p.w, ops, m, m1, m2);
        simulation::lemma_operand_kept(p.w, ops, g.ops.len() as int, m, m2, v);
        let m3 = simulation::make(p, ops, g2, op, m2);
        machine::leads_on(p.w, ops, m, m2, m3);
        simulation::kept_on(g.ops.len() as int, g2.ops.len() as int, m, m2, m3);
        m3
    } else if ty is F32 {
        let op = OpV::Convert { op: ConvOp::FloatExtend, val: v, to: Prim::F64, name: "fpext"@ };
        assert(ops[m.pc] == op);
        simulation::make(p, ops, g, op, m)
    } else {
        machine::leads_self(p.w, ops, m);
        m
    }
}

/// Text is printed by its format.
pub proof fn do_printf(
    p: Meaning,
    ops: Seq<OpV>,
    g: GenV,
    f: Seq<char>,
    v: ValV,
    bs: Seq<Bind>,
    s: StateV,
    m: MachineV,
    x: Seq<char>,
) -> (r: MachineV)
    requires
        simulation::ready(p, ops, g, bs, s, m),
        simulation::before(v, g.ops.len() as int),
        machine::printed(p.w, f, machine::operand(p.w, ops, m, v)) == Some(x),
        lowering::lower_rt(lowering::lower_text(g, f), "__printf"@, seq![lowering::made(g), v], "printfcall"@).r is Ok,
        simulation::within(ops, lowering::lower_rt(lowering::lower_text(g, f), "__printf"@, seq![lowering::made(g), v], "printfcall"@).g),
    ensures
        ({
            let c = lowering::lower_rt(lowering::lower_text(g, f), "__printf"@, seq![lowering::made(g), v], "printfcall"@);
            &&& machine::leads(p.w, ops, m, r)
            &&& simulation::kept(g.ops.len() as int, m, r)
            &&& g.ops.len() <= c.g.ops.len()
            &&& simulation::ready(p, ops, c.g, bs, StateV { out: s.out + x, ..s }, r)
        }),
{
    broadcast use simulation::group_within;

    simulation::lemma_names();
    let g1 = lowering::lower_text(g, f);
    let t = lowering::made(g);
    let c = lowering::lower_rt(g1, "__printf"@, seq![t, v], "printfcall"@);
    simulation::lemma_rt_within(ops, g1, "__printf"@, seq![t, v], "printfcall"@);
    simulation::lemma_linked_same(p, ops, g, g1);
    simulation::lemma_linked_same(p, ops, g1, c.g);
    simulation::lemma_scope_same(ops, g, c.g, bs);
    let m1 = simulation::take(p.w, ops, m, ops[m.pc]);
    simulation::lemma_operand_kept(p.w, ops, g.ops.len() as int, m, m1, v);
    simulation::lemma_operands_two(p.w, ops, m1, t, v);
    assert(simulation::run_time_linked(ops, g1, "__printf"@, "printf"@)) by {
        reveal(simulation::linked);
    }
    let m2 = simulation::make_rt(p, ops, g1, "__printf"@, "printf"@, seq![t, v], "printfcall"@, m1);
    machine::leads_on(p.w, ops, m, m1, m2);
    simulation::kept_on(g.ops.len() as int, g1.ops.len() as int, m, m1, m2);
    lemma_agrees_out(p.types, bs, s, m, m2, x);
    m2
}

/// A string is printed.
pub proof fn do_print_str(
    p: Meaning,
    ops: Seq<OpV>,
    g: GenV,
    v: ValV,
    newline: bool,
    bs: Seq<Bind>,
    s: StateV,
    m: MachineV,
    x: Seq<char>,
) -> (r: MachineV)
    requires
        simulation::ready(p, ops, g, bs, s, m),
        simulation::before(v, g.ops.len() as int),
        machine::operand(p.w, ops, m, v) == MV::Str(x),
        lowering::lower_print_str(g, v, newline).r is Ok,
        simulation::within(ops, lowering::lower_print_str(g, v, newline).g),
    ensures
        ({
            let c = lowering::lower_print_str(g, v, newline);
            let end = if newline {
                seq!['\n']
            } else {
                Seq::empty()
            };
            &&& machine::leads(p.w, ops, m, r)
            &&& simulation::kept(g.ops.len() as int, m, r)
            &&& simulation::here(c.g, r)
            &&& !c.g.ended
            &&& simulation::agrees(p.types, bs, StateV { out: s.out + (x + end), ..s }, r)
        }),
{
    simulation::lemma_names();
    let c = lowering::lower_rt(g, "risp_str_cstr"@, seq![v], "risp_str_cstr"@);
    let t = c.r->Ok_0;
    simulation::lemma_linked_same(p, ops, g, c.g);
    simulation::lemma_scope_same(ops, g, c.g, bs);
    let end: Seq<char> = if newline {
        seq!['\n']
    } else {
        Seq::empty()
    };
    let g1 = if newline {
        c.g
    } else {
        lowering::lower_text(c.g, "%s"@)
    };
    let key = if newline {
        "__puts"@
    } else {
        "__printf"@
    };
    let label = if newline {
        "putscall"@
    } else {
        "printfcall"@
    };
    let given = if newline {
        seq![t]
    } else {
        seq![lowering::made(c.g), t]
    };
    let d = lowering::lower_rt(g1, key, given, label);
    simulation::lemma_linked_same(p, ops, c.g, d.g);
    simulation::lemma_rt_within(ops, d.g, "risp_str_release"@, seq![v], "risp_str_release"@);
    simulation::lemma_rt_within(ops, g1, key, given, label);
    if !newline {
        simulation::lemma_within_text(ops, c.g, "%s"@);
    }
    simulation::lemma_rt_within(ops, g, "risp_str_cstr"@, seq![v], "risp_str_cstr"@);
    simulation::lemma_operands_one(p.w, ops, m, v);
    assert(simulation::run_time_linked(ops, g, "risp_str_cstr"@, "risp_str_cstr"@)) by {
        reveal(simulation::linked);
    }
    let m1 = simulation::make_rt(p, ops, g, "risp_str_cstr"@, "risp_str_cstr"@, seq![v], "risp_str_cstr"@, m);
    simulation::lemma_agrees_regs(p.types, bs, s, m, m1);
    let n = g.ops.len() as int;
    let m2 = if newline {
        simulation::lemma_operands_one(p.w, ops, m1, t);
        assert(simulation::run_time_linked(ops, c.g, "__puts"@, "puts"@)) by {
            reveal(simulation::linked);
        }
        let m2 = simulation::make_rt(p, ops, c.g, "__puts"@, "puts"@, seq![t], "putscall"@, m1);
        assert(m1.out + x + end =~= m1.out + (x + end));
        lemma_agrees_out(p.types, bs, s, m1, m2, x + end);
        m2
    } else {
        reveal_strlit("%s");
        assert("%s"@.subrange(2, 2) =~= end);
        do_printf(p, ops, c.g, "%s"@, t, bs, s, m1, x + end)
    };
    machine::leads_on(p.w, ops, m, m1, m2);
    simulation::kept_on(n, c.g.ops.len() as int, m, m1, m2);
    let m3 = simulation::do_drop(p, ops, d.g, v, TypeV::Str, m2);
    machine::leads_on(p.w, ops, m, m2, m3);
    simulation::kept_on(n, d.g.ops.len() as int, m, m2, m3);
    simulation::lemma_agrees_regs(p.types, bs, StateV { out: s.out + (x + end), ..s }, m2, m3);
    m3
}

pub proof fn sim_print(
    n: nat,
    p: Meaning,
    ops: Seq<OpV>,
    callee: Seq<char>,
    args: Seq<ExprV>,
    g: GenV,
    bs: Seq<Bind>,
    s: StateV,
    m: MachineV,
) -> (r: MachineV)
    requires
        sim_calls::callable(n, p, ops, callee, args, g, bs, s, m),
        callee == "print"@ || callee == "println"@,
        fitting::fits_builtin(callee, args, TypeV::Unit),
        lowering::lower_print(args, callee == "println"@, g).r is Ok,
        simulation::within(ops, lowering::lower_print(args, callee == "println"@, g).g),
    ensures
        ({
            let c = lowering::lower_print(args, callee == "println"@, g);
            let (v, t) = meaning::eval_call(n, p, callee, args, s)->0;
            simulation::does(p, ops, g, c.g, None, TypeV::Unit, bs, v, t, m, r)
        }),
    decreases n, args, args.len() + 1,
{
    sim_calls::lemma_builtins();
    assert(args.len() == 1);
    sim_ariths::eval_one(n, p, ops, args, s);
    let newline = callee == "println"@;
    let ty = args[0].ty->0;
    assert(fitting::fits(args[0], simulation::env_of(bs), p.types));
    assert(typing::printable(ty));
    let c = lowering::lower_value(args[0], g, "print arg"@);
    simulation::value_after(p, ops, args[0], "print arg"@, g, bs);
    let v = c.r->Ok_0;
    let end: Seq<char> = if newline {
        seq!['\n']
    } else {
        Seq::empty()
    };
    let d = lowering::lower_print_arg(c.g, v, ty);
    if ty is Str {
        blocks::fill_print_str(c.g, v, newline);
        simulation::lemma_within_fills(ops, c.g, lowering::lower_print_str(c.g, v, newline).g);
    } else {
        let (f, w) = d.r->Ok_0;
        let fmt = if newline {
            f + "\n"@
        } else {
            f
        };
        simulation::lemma_rt_within(ops, lowering::lower_text(d.g, fmt), "__printf"@, seq![lowering::made(d.g), w], "printfcall"@);
        simulation::lemma_within_text(ops, d.g, fmt);
        blocks::fill_print_arg(c.g, v, ty);
        simulation::lemma_within_fills(ops, c.g, d.g);
    }
    let m1 = simulation::sim_value(n, p, ops, args[0], "print arg"@, g, bs, s, m);
    let (cr, s1) = meaning::eval(n, p, args[0], s)->0;
    if cr is Brk {
        m1
    } else {
        let x = cr->Val_0;
        let shown = meaning::shown_value(p.w, x)->0;
        assert(s1.out + shown + end =~= s1.out + (shown + end));
        if ty is Str {
            let m2 = do_print_str(p, ops, c.g, v, newline, bs, s1, m1, x->Str_0);
            machine::leads_on(p.w, ops, m, m1, m2);
            simulation::kept_on(g.ops.len() as int, c.g.ops.len() as int, m, m1, m2);
            m2
        } else {
            let (f, w) = d.r->Ok_0;
            let fmt = if newline {
                f + "\n"@
            } else {
                f
            };
            let m2 = do_print_arg(p, ops, c.g, v, ty, m1, x);
            simulation::lemma_linked_same(p, ops, c.g, d.g);
            simulation::lemma_scope_same(ops, c.g, d.g, bs);
            simulation::lemma_agrees_regs(p.types, bs, s1, m1, m2);
            lemma_printed(p.w, ty, x, newline);
            let m3 = do_printf(p, ops, d.g, fmt, w, bs, s1, m2, shown + end);
            machine::leads_on(p.w, ops, m1, m2, m3);
            machine::leads_on(p.w, ops, m, m1, m3);
            simulation::kept_on(c.g.ops.len() as int, d.g.ops.len() as int, m1, m2, m3);
            simulation::kept_on(g.ops.len() as int, c.g.ops.len() as int, m, m1, m3);
            m3
        }
    }
}

} // verus!
