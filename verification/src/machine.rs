//! What builder scripts do: a machine that carries out their steps.
use crate::ir::{BinOp, ConvOp, LTyV, OpV, Pred, Prim, ValV};
use crate::text;
use vstd::prelude::*;
use vstd::string::*;

verus! {

/// Arithmetic.
pub enum Arith {
    Add,
    Sub,
    Mul,
    Div,
    Rem,
}

/// Comparison.
pub enum Rel {
    Lt,
    Le,
    Gt,
    Ge,
    Eq,
    Ne,
}

/// What the language and the machine leave to the platform: floats, which are known by
/// their bits, and the length of texts.
pub struct World {
    pub arith32: spec_fn(Arith, u32, u32) -> u32,
    pub arith64: spec_fn(Arith, u64, u64) -> u64,
    pub neg32: spec_fn(u32) -> u32,
    pub neg64: spec_fn(u64) -> u64,
    pub rel32: spec_fn(Rel, u32, u32) -> bool,
    pub rel64: spec_fn(Rel, u64, u64) -> bool,
    pub widen: spec_fn(u32) -> u64,
    pub narrow: spec_fn(u64) -> u32,
    pub float32: spec_fn(int) -> u32,
    pub float64: spec_fn(int) -> u64,
    pub whole32: spec_fn(u32) -> int,
    pub whole64: spec_fn(u64) -> int,
    pub read32: spec_fn(Seq<char>) -> u32,
    pub read64: spec_fn(Seq<char>) -> u64,
    pub shown: spec_fn(u64) -> Seq<char>,
    pub text_len: spec_fn(Seq<char>) -> int,
}

/// The number of 32 bits that `x` is, wrapped around.
pub open spec fn wrap32(x: int) -> int {
    (x + 0x8000_0000) % 0x1_0000_0000 - 0x8000_0000
}

/// The number of 64 bits that `x` is, wrapped around.
pub open spec fn wrap64(x: int) -> int {
    (x + 0x8000_0000_0000_0000) % 0x1_0000_0000_0000_0000 - 0x8000_0000_0000_0000
}

pub open spec fn fits32(x: int) -> bool {
    -0x8000_0000 <= x < 0x8000_0000
}

pub open spec fn fits64(x: int) -> bool {
    -0x8000_0000_0000_0000 <= x < 0x8000_0000_0000_0000
}

pub open spec fn magnitude(x: int) -> int {
    if x < 0 {
        -x
    } else {
        x
    }
}

/// The quotient, rounded towards zero.
pub open spec fn quotient(a: int, b: int) -> int {
    if (a < 0) == (b < 0) {
        magnitude(a) / magnitude(b)
    } else {
        -(magnitude(a) / magnitude(b))
    }
}

/// What is left of `a` behind the division; it has the sign of `a`.
pub open spec fn remainder(a: int, b: int) -> int {
    a - quotient(a, b) * b
}

/// Arithmetic on whole numbers, before they are wrapped around. Division by zero, and one
/// whose quotient does not fit, have no result.
pub open spec fn whole_arith(op: Arith, least: int, a: int, b: int) -> Option<int> {
    match op {
        Arith::Add => Some(a + b),
        Arith::Sub => Some(a - b),
        Arith::Mul => Some(a * b),
        Arith::Div => if b == 0 || (a == least && b == -1) {
            None
        } else {
            Some(quotient(a, b))
        },
        Arith::Rem => if b == 0 || (a == least && b == -1) {
            None
        } else {
            Some(remainder(a, b))
        },
    }
}

pub open spec fn whole_rel(op: Rel, a: int, b: int) -> bool {
    match op {
        Rel::Lt => a < b,
        Rel::Le => a <= b,
        Rel::Gt => a > b,
        Rel::Ge => a >= b,
        Rel::Eq => a == b,
        Rel::Ne => a != b,
    }
}

/// A value of the machine.
#[verifier::ext_equal]
pub enum MV {
    I1(bool),
    I32(int),
    I64(int),
    F32(u32),
    F64(u64),
    /// A string of the run time.
    Str(Seq<char>),
    /// A text with a null byte behind it.
    Text(Seq<char>),
    Null,
    Agg(Seq<MV>),
    /// The slot that a step made.
    Slot(int),
    /// A part of what is in a slot.
    Part(int, int),
    Undef,
}

/// A state of the machine: what the steps made, what the slots hold, the arguments of the
/// function, the next step, the block that it is in and the one before, and what has been
/// printed.
#[verifier::ext_equal]
pub struct MachineV {
    pub regs: Map<int, MV>,
    pub mem: Map<int, MV>,
    pub args: Seq<MV>,
    pub pc: int,
    pub cur: usize,
    pub prev: usize,
    pub out: Seq<char>,
}

/// What an operand is.
pub open spec fn operand(w: World, ops: Seq<OpV>, m: MachineV, v: ValV) -> MV {
    match v {
        ValV::Reg(i) => match ops[i as int] {
            OpV::EntryAlloca { .. } => MV::Slot(i as int),
            OpV::GlobalText { text, .. } => MV::Text(text),
            _ => m.regs[i as int],
        },
        ValV::Arg(i) => m.args[i as int],
        ValV::Int(p, x) => match p {
            Prim::I1 => MV::I1(x != 0),
            Prim::I32 => MV::I32(wrap32(x as int)),
            Prim::I64 => MV::I64(x as int),
            _ => MV::Undef,
        },
        ValV::Float(p, s) => match p {
            Prim::F32 => MV::F32((w.read32)(s)),
            Prim::F64 => MV::F64((w.read64)(s)),
            _ => MV::Undef,
        },
        ValV::Null => MV::Null,
        ValV::Undef(t) => match t {
            LTyV::Struct(ps) => MV::Agg(Seq::new(ps.len(), |i: int| MV::Undef)),
            _ => MV::Undef,
        },
    }
}

/// A binary step.
pub open spec fn binary(w: World, op: BinOp, a: MV, b: MV) -> Option<MV> {
    let (o, float) = match op {
        BinOp::Add => (Arith::Add, false),
        BinOp::Sub => (Arith::Sub, false),
        BinOp::Mul => (Arith::Mul, false),
        BinOp::Div => (Arith::Div, false),
        BinOp::Rem => (Arith::Rem, false),
        BinOp::FAdd => (Arith::Add, true),
        BinOp::FSub => (Arith::Sub, true),
        BinOp::FMul => (Arith::Mul, true),
        BinOp::FDiv => (Arith::Div, true),
        BinOp::FRem => (Arith::Rem, true),
    };
    match (a, b) {
        (MV::I32(x), MV::I32(y)) => if float {
            None
        } else {
            match whole_arith(o, -0x8000_0000, x, y) {
                Some(z) => Some(MV::I32(wrap32(z))),
                None => None,
            }
        },
        (MV::I64(x), MV::I64(y)) => if float {
            None
        } else {
            match whole_arith(o, -0x8000_0000_0000_0000, x, y) {
                Some(z) => Some(MV::I64(wrap64(z))),
                None => None,
            }
        },
        (MV::F32(x), MV::F32(y)) => if float {
            Some(MV::F32((w.arith32)(o, x, y)))
        } else {
            None
        },
        (MV::F64(x), MV::F64(y)) => if float {
            Some(MV::F64((w.arith64)(o, x, y)))
        } else {
            None
        },
        _ => None,
    }
}

pub open spec fn negated(w: World, float: bool, a: MV) -> Option<MV> {
    match a {
        MV::I32(x) => if float {
            None
        } else {
            Some(MV::I32(wrap32(-x)))
        },
        MV::I64(x) => if float {
            None
        } else {
            Some(MV::I64(wrap64(-x)))
        },
        MV::F32(x) => if float {
            Some(MV::F32((w.neg32)(x)))
        } else {
            None
        },
        MV::F64(x) => if float {
            Some(MV::F64((w.neg64)(x)))
        } else {
            None
        },
        _ => None,
    }
}

pub open spec fn bit(b: bool) -> int {
    if b {
        1
    } else {
        0
    }
}

/// A comparing step. The one bit of a truth value counts as a number with a sign.
pub open spec fn tested(w: World, p: Pred, float: bool, a: MV, b: MV) -> Option<MV> {
    let r = match p {
        Pred::Less => Rel::Lt,
        Pred::LessEqual => Rel::Le,
        Pred::Greater => Rel::Gt,
        Pred::GreaterEqual => Rel::Ge,
        Pred::Equal => Rel::Eq,
        Pred::NotEqual => Rel::Ne,
    };
    match (a, b) {
        (MV::I1(x), MV::I1(y)) => if float {
            None
        } else {
            Some(MV::I1(whole_rel(r, -bit(x), -bit(y))))
        },
        (MV::I32(x), MV::I32(y)) => if float {
            None
        } else {
            Some(MV::I1(whole_rel(r, x, y)))
        },
        (MV::I64(x), MV::I64(y)) => if float {
            None
        } else {
            Some(MV::I1(whole_rel(r, x, y)))
        },
        (MV::F32(x), MV::F32(y)) => if float {
            Some(MV::I1((w.rel32)(r, x, y)))
        } else {
            None
        },
        (MV::F64(x), MV::F64(y)) => if float {
            Some(MV::I1((w.rel64)(r, x, y)))
        } else {
            None
        },
        _ => None,
    }
}

/// The bits of a number of 32 bits, without a sign.
pub open spec fn unsigned32(x: int) -> int {
    x % 0x1_0000_0000
}

pub open spec fn unsigned64(x: int) -> int {
    x % 0x1_0000_0000_0000_0000
}

/// A converting step.
pub open spec fn converted(w: World, op: ConvOp, to: Prim, a: MV) -> Option<MV> {
    match (op, a, to) {
        (ConvOp::SignExtend, MV::I32(x), Prim::I64) => Some(MV::I64(x)),
        (ConvOp::ZeroExtend, MV::I32(x), Prim::I64) => Some(MV::I64(unsigned32(x))),
        (ConvOp::ZeroExtend, MV::I1(x), Prim::I64) => Some(MV::I64(bit(x))),
        (ConvOp::Truncate, MV::I64(x), Prim::I32) => Some(MV::I32(wrap32(x))),
        (ConvOp::Truncate, MV::I64(x), Prim::I1) => Some(MV::I1(x % 2 != 0)),
        (ConvOp::FloatExtend, MV::F32(x), Prim::F64) => Some(MV::F64((w.widen)(x))),
        (ConvOp::FloatTruncate, MV::F64(x), Prim::F32) => Some(MV::F32((w.narrow)(x))),
        (ConvOp::IntToFloat, MV::I32(x), Prim::F32) => Some(MV::F32((w.float32)(x))),
        (ConvOp::IntToFloat, MV::I32(x), Prim::F64) => Some(MV::F64((w.float64)(x))),
        (ConvOp::IntToFloat, MV::I64(x), Prim::F32) => Some(MV::F32((w.float32)(x))),
        (ConvOp::IntToFloat, MV::I64(x), Prim::F64) => Some(MV::F64((w.float64)(x))),
        (ConvOp::FloatToInt, MV::F32(x), Prim::I32) => within32((w.whole32)(x)),
        (ConvOp::FloatToInt, MV::F32(x), Prim::I64) => within64((w.whole32)(x)),
        (ConvOp::FloatToInt, MV::F64(x), Prim::I32) => within32((w.whole64)(x)),
        (ConvOp::FloatToInt, MV::F64(x), Prim::I64) => within64((w.whole64)(x)),
        (ConvOp::BitCast, MV::F64(x), Prim::I64) => Some(MV::I64(wrap64(x as int))),
        (ConvOp::BitCast, MV::F32(x), Prim::I32) => Some(MV::I32(wrap32(x as int))),
        (ConvOp::BitCast, MV::I64(x), Prim::F64) => Some(MV::F64(unsigned64(x) as u64)),
        (ConvOp::BitCast, MV::I32(x), Prim::F32) => Some(MV::F32(unsigned32(x) as u32)),
        _ => None,
    }
}

pub open spec fn within32(x: int) -> Option<MV> {
    if fits32(x) {
        Some(MV::I32(x))
    } else {
        None
    }
}

pub open spec fn within64(x: int) -> Option<MV> {
    if fits64(x) {
        Some(MV::I64(x))
    } else {
        None
    }
}

/// What is in a slot. An array that nothing was stored in has its length.
pub open spec fn held(ops: Seq<OpV>, m: MachineV, i: int) -> MV {
    if m.mem.contains_key(i) {
        m.mem[i]
    } else {
        match ops[i] {
            OpV::EntryAlloca { ty: LTyV::Array(_, len), .. } => MV::Agg(
                Seq::new(len as nat, |k: int| MV::Undef),
            ),
            _ => MV::Null,
        }
    }
}

/// What is in a place.
pub open spec fn content(ops: Seq<OpV>, m: MachineV, ptr: MV) -> Option<MV> {
    match ptr {
        MV::Slot(i) => Some(held(ops, m, i)),
        MV::Part(i, k) => match held(ops, m, i) {
            MV::Agg(xs) => if 0 <= k < xs.len() {
                Some(xs[k])
            } else {
                None
            },
            _ => None,
        },
        _ => None,
    }
}

/// The slots with a value stored in a place.
pub open spec fn stored(ops: Seq<OpV>, m: MachineV, ptr: MV, v: MV) -> Option<Map<int, MV>> {
    match ptr {
        MV::Slot(i) => Some(m.mem.insert(i, v)),
        MV::Part(i, k) => match held(ops, m, i) {
            MV::Agg(xs) => if 0 <= k < xs.len() {
                Some(m.mem.insert(i, MV::Agg(xs.update(k, v))))
            } else {
                None
            },
            _ => None,
        },
        _ => None,
    }
}

/// The first place behind `i` where building goes on at block `bb`.
pub open spec fn goes_on(ops: Seq<OpV>, bb: usize, i: int) -> int
    decreases ops.len() - i,
{
    if i < 0 || i >= ops.len() || ops[i] == OpV::PositionAt(bb) {
        i
    } else {
        goes_on(ops, bb, i + 1)
    }
}

/// Control goes to a block.
pub open spec fn enter(ops: Seq<OpV>, m: MachineV, bb: usize) -> MachineV {
    MachineV { pc: goes_on(ops, bb, bb as int) + 1, cur: bb, prev: m.cur, ..m }
}

/// What a switch goes to.
pub open spec fn chosen(cases: Seq<(u32, usize)>, i: int, x: int, default: usize) -> usize
    decreases cases.len() - i,
{
    if i < 0 || i >= cases.len() {
        default
    } else if wrap32(cases[i].0 as int) == x {
        cases[i].1
    } else {
        chosen(cases, i + 1, x, default)
    }
}

/// The value that comes from a block.
pub open spec fn incoming(vs: Seq<(ValV, usize)>, i: int, from: usize) -> Option<ValV>
    decreases vs.len() - i,
{
    if i < 0 || i >= vs.len() {
        None
    } else if vs[i].1 == from {
        Some(vs[i].0)
    } else {
        incoming(vs, i + 1, from)
    }
}

/// The next step, with the value of this one.
pub open spec fn made(m: MachineV, v: Option<MV>) -> Option<MachineV> {
    match v {
        Some(x) => Some(MachineV { regs: m.regs.insert(m.pc, x), pc: m.pc + 1, ..m }),
        None => None,
    }
}

/// What `printf` prints for a format of one directive.
pub open spec fn printed(w: World, format: Seq<char>, v: MV) -> Option<Seq<char>> {
    if format.len() >= 2 && format[0] == '%' {
        match (format[1], v) {
            ('d', MV::I32(x)) => Some(text::signed_dec(x) + format.subrange(2, format.len() as int)),
            ('g', MV::F64(x)) => Some((w.shown)(x) + format.subrange(2, format.len() as int)),
            ('s', MV::Text(s)) => Some(s + format.subrange(2, format.len() as int)),
            ('l', MV::I64(x)) => if format.len() >= 4 && format[2] == 'l' && format[3] == 'd' {
                Some(text::signed_dec(x) + format.subrange(4, format.len() as int))
            } else {
                None
            },
            _ => None,
        }
    } else {
        None
    }
}

/// What a function of the run time gives, and what has been printed then. Giving a string
/// up shows nowhere.
pub open spec fn run_time(w: World, name: Seq<char>, args: Seq<MV>, out: Seq<char>) -> Option<
    (MV, Seq<char>),
> {
    if name == "risp_str_release"@ {
        Some((MV::Undef, out))
    } else if args.len() == 1 {
        match args[0] {
            MV::Text(s) => if name == "puts"@ {
                Some((MV::I32(0), out + s + seq!['\n']))
            } else if name == "risp_str_from_cstr"@ {
                Some((MV::Str(s), out))
            } else {
                None
            },
            MV::Str(s) => if name == "risp_str_retain"@ {
                Some((MV::Str(s), out))
            } else if name == "risp_str_len"@ {
                Some((MV::I32(wrap32((w.text_len)(s))), out))
            } else if name == "risp_str_cstr"@ {
                Some((MV::Text(s), out))
            } else {
                None
            },
            _ => None,
        }
    } else if args.len() == 2 {
        match (args[0], args[1]) {
            (MV::Text(f), v) => if name == "printf"@ {
                match printed(w, f, v) {
                    Some(s) => Some((MV::I32(0), out + s)),
                    None => None,
                }
            } else {
                None
            },
            (MV::Str(a), MV::Str(b)) => if name == "risp_str_concat"@ {
                Some((MV::Str(a + b), out))
            } else {
                None
            },
            _ => None,
        }
    } else {
        None
    }
}

/// A step that neither calls a function of the program nor returns.
pub open spec fn step_of(w: World, ops: Seq<OpV>, m: MachineV) -> Option<MachineV> {
    match ops[m.pc] {
        OpV::AddFunction { .. } => Some(MachineV { pc: m.pc + 1, ..m }),
        OpV::NewBlock { .. } => Some(MachineV { pc: m.pc + 1, ..m }),
        OpV::EntryAlloca { .. } => Some(MachineV { pc: m.pc + 1, ..m }),
        OpV::GlobalText { .. } => Some(MachineV { pc: m.pc + 1, ..m }),
        OpV::Load { ptr, .. } => made(m, content(ops, m, operand(w, ops, m, ptr))),
        OpV::Store { ptr, val } => match stored(
            ops,
            m,
            operand(w, ops, m, ptr),
            operand(w, ops, m, val),
        ) {
            Some(mem) => Some(MachineV { mem, pc: m.pc + 1, ..m }),
            None => None,
        },
        OpV::Br(bb) => Some(enter(ops, m, bb)),
        OpV::CondBr { cond, yes, no } => match operand(w, ops, m, cond) {
            MV::I1(b) => Some(enter(ops, m, if b { yes } else { no })),
            _ => None,
        },
        OpV::Switch { val, default, cases } => match operand(w, ops, m, val) {
            MV::I32(x) => Some(enter(ops, m, chosen(cases, 0, x, default))),
            _ => None,
        },
        OpV::Phi { incoming: vs, .. } => match incoming(vs, 0, m.prev) {
            Some(v) => made(m, Some(operand(w, ops, m, v))),
            None => None,
        },
        OpV::Bin { op, a, b, .. } => made(
            m,
            binary(w, op, operand(w, ops, m, a), operand(w, ops, m, b)),
        ),
        OpV::Neg { float, val, .. } => made(m, negated(w, float, operand(w, ops, m, val))),
        OpV::Not { val, .. } => match operand(w, ops, m, val) {
            MV::I1(b) => made(m, Some(MV::I1(!b))),
            _ => None,
        },
        OpV::Convert { op, val, to, .. } => made(m, converted(w, op, to, operand(w, ops, m, val))),
        OpV::Test { pred, float, a, b, .. } => made(
            m,
            tested(w, pred, float, operand(w, ops, m, a), operand(w, ops, m, b)),
        ),
        OpV::Extract { agg, index, .. } => match operand(w, ops, m, agg) {
            MV::Agg(xs) => if index < xs.len() {
                made(m, Some(xs[index as int]))
            } else {
                None
            },
            _ => None,
        },
        OpV::Insert { agg, val, index, .. } => match operand(w, ops, m, agg) {
            MV::Agg(xs) => if index < xs.len() {
                made(m, Some(MV::Agg(xs.update(index as int, operand(w, ops, m, val)))))
            } else {
                None
            },
            _ => None,
        },
        OpV::FieldPtr { ptr, index, .. } => match operand(w, ops, m, ptr) {
            MV::Slot(i) => made(m, Some(MV::Part(i, index as int))),
            _ => None,
        },
        OpV::ElemPtr { ptr, index, .. } => match (operand(w, ops, m, ptr), operand(w, ops, m, index)) {
            (MV::Slot(i), MV::I32(k)) => made(m, Some(MV::Part(i, k))),
            _ => None,
        },
        OpV::Select { cond, a, b, .. } => match operand(w, ops, m, cond) {
            MV::I1(x) => made(
                m,
                Some(
                    operand(
                        w,
                        ops,
                        m,
                        if x {
                            a
                        } else {
                            b
                        },
                    ),
                ),
            ),
            _ => None,
        },
        _ => None,
    }
}

/// Where the first block of a function is made, if it has one.
pub open spec fn first_block(ops: Seq<OpV>, func: usize, i: int) -> int
    decreases ops.len() - i,
{
    if i < 0 || i >= ops.len() {
        i
    } else {
        match ops[i] {
            OpV::NewBlock { func: f, .. } => if f == func {
                i
            } else {
                first_block(ops, func, i + 1)
            },
            _ => first_block(ops, func, i + 1),
        }
    }
}

pub open spec fn operands(w: World, ops: Seq<OpV>, m: MachineV, vs: Seq<ValV>) -> Seq<MV> {
    Seq::new(vs.len(), |i: int| operand(w, ops, m, vs[i]))
}

/// What a function returned, and what has been printed then.
pub type Returned = Option<(MV, Seq<char>)>;

/// Carries out at most `n` steps, up to a return.
pub open spec fn run(n: nat, w: World, ops: Seq<OpV>, m: MachineV) -> Returned
    decreases n,
{
    if n == 0 || m.pc < 0 || m.pc >= ops.len() {
        None
    } else {
        match ops[m.pc] {
            OpV::Ret(v) => Some(
                (
                    match v {
                        Some(x) => operand(w, ops, m, x),
                        None => MV::Undef,
                    },
                    m.out,
                ),
            ),
            OpV::Call { func, args, .. } => match call(
                (n - 1) as nat,
                w,
                ops,
                func,
                operands(w, ops, m, args),
                m.out,
            ) {
                Some((v, out)) => run(
                    (n - 1) as nat,
                    w,
                    ops,
                    MachineV { regs: m.regs.insert(m.pc, v), pc: m.pc + 1, out, ..m },
                ),
                None => None,
            },
            _ => match step_of(w, ops, m) {
                Some(m2) => run((n - 1) as nat, w, ops, m2),
                None => None,
            },
        }
    }
}

/// The start of a function.
pub open spec fn started(ops: Seq<OpV>, func: usize, args: Seq<MV>, out: Seq<char>) -> MachineV {
    let bb = first_block(ops, func, 0) as usize;
    MachineV {
        regs: Map::empty(),
        mem: Map::empty(),
        args,
        pc: goes_on(ops, bb, bb as int) + 1,
        cur: bb,
        prev: bb,
        out,
    }
}

/// Calls a function of the script, or one of the run time.
pub open spec fn call(
    n: nat,
    w: World,
    ops: Seq<OpV>,
    func: usize,
    args: Seq<MV>,
    out: Seq<char>,
) -> Returned
    decreases n,
{
    if first_block(ops, func, 0) < ops.len() {
        if n == 0 {
            None
        } else {
            run((n - 1) as nat, w, ops, started(ops, func, args, out))
        }
    } else {
        match ops[func as int] {
            OpV::AddFunction { name, .. } => run_time(w, name, args, out),
            _ => None,
        }
    }
}

/// More steps do not change what is returned.
pub proof fn lemma_run_more(n: nat, k: nat, w: World, ops: Seq<OpV>, m: MachineV)
    requires
        run(n, w, ops, m) is Some,
        n <= k,
    ensures
        run(k, w, ops, m) == run(n, w, ops, m),
    decreases n,
{
    match ops[m.pc] {
        OpV::Ret(v) => {},
        OpV::Call { func, args, .. } => {
            let vs = operands(w, ops, m, args);
            lemma_call_more((n - 1) as nat, (k - 1) as nat, w, ops, func, vs, m.out);
            let (v, out) = call((n - 1) as nat, w, ops, func, vs, m.out)->0;
            let m2 = MachineV { regs: m.regs.insert(m.pc, v), pc: m.pc + 1, out, ..m };
            lemma_run_more((n - 1) as nat, (k - 1) as nat, w, ops, m2);
        },
        _ => {
            lemma_run_more((n - 1) as nat, (k - 1) as nat, w, ops, step_of(w, ops, m)->0);
        },
    }
}

pub proof fn lemma_call_more(
    n: nat,
    k: nat,
    w: World,
    ops: Seq<OpV>,
    func: usize,
    args: Seq<MV>,
    out: Seq<char>,
)
    requires
        call(n, w, ops, func, args, out) is Some,
        n <= k,
    ensures
        call(k, w, ops, func, args, out) == call(n, w, ops, func, args, out),
    decreases n,
{
    if first_block(ops, func, 0) < ops.len() {
        lemma_run_more((n - 1) as nat, (k - 1) as nat, w, ops, started(ops, func, args, out));
    }
}

/// Whether whatever is returned from state `b` is returned from state `a`.
#[verifier::opaque]
pub open spec fn leads(w: World, ops: Seq<OpV>, a: MachineV, b: MachineV) -> bool {
    exists|k: nat| leads_in(k, w, ops, a, b)
}

pub open spec fn leads_in(k: nat, w: World, ops: Seq<OpV>, a: MachineV, b: MachineV) -> bool {
    forall|n: nat|
        (#[trigger] run(n, w, ops, b)) is Some ==> run(n + k, w, ops, a) == run(n, w, ops, b)
}

pub proof fn leads_self(w: World, ops: Seq<OpV>, a: MachineV)
    ensures
        leads(w, ops, a, a),
{
    reveal(leads);
    assert(leads_in(0, w, ops, a, a));
}

pub broadcast proof fn leads_on(w: World, ops: Seq<OpV>, a: MachineV, b: MachineV, c: MachineV)
    requires
        #[trigger] leads(w, ops, a, b),
        #[trigger] leads(w, ops, b, c),
    ensures
        leads(w, ops, a, c),
{
    reveal(leads);
    let k = choose|k: nat| leads_in(k, w, ops, a, b);
    let l = choose|l: nat| leads_in(l, w, ops, b, c);
    assert forall|n: nat| (#[trigger] run(n, w, ops, c)) is Some implies run(n + (k + l), w, ops, a)
        == run(n, w, ops, c) by {
        assert(run(n + l, w, ops, b) == run(n, w, ops, c));
        assert(run((n + l) + k, w, ops, a) == run(n + l, w, ops, b));
        assert((n + l) + k == n + (k + l));
    }
    assert(leads_in(k + l, w, ops, a, c));
}

/// One step.
pub proof fn leads_step(w: World, ops: Seq<OpV>, a: MachineV)
    requires
        0 <= a.pc < ops.len(),
        !(ops[a.pc] is Ret || ops[a.pc] is Call),
        step_of(w, ops, a) is Some,
    ensures
        leads(w, ops, a, step_of(w, ops, a)->0),
{
    reveal(leads);
    let b = step_of(w, ops, a)->0;
    assert forall|n: nat| (#[trigger] run(n, w, ops, b)) is Some implies run(n + 1, w, ops, a) == run(
        n,
        w,
        ops,
        b,
    ) by {
        assert((n + 1 - 1) as nat == n);
    }
    assert(leads_in(1, w, ops, a, b));
}

/// One call.
pub proof fn leads_call(m: nat, w: World, ops: Seq<OpV>, a: MachineV)
    requires
        0 <= a.pc < ops.len(),
        ops[a.pc] matches OpV::Call { func, args, .. } && call(
            m,
            w,
            ops,
            func,
            operands(w, ops, a, args),
            a.out,
        ) is Some,
    ensures
        ops[a.pc] matches OpV::Call { func, args, .. } && ({
            let (v, out) = call(m, w, ops, func, operands(w, ops, a, args), a.out)->0;
            leads(
                w,
                ops,
                a,
                MachineV { regs: a.regs.insert(a.pc, v), pc: a.pc + 1, out, ..a },
            )
        }),
{
    reveal(leads);
    if let OpV::Call { func, args, .. } = ops[a.pc] {
        let vs = operands(w, ops, a, args);
        let (v, out) = call(m, w, ops, func, vs, a.out)->0;
        let b = MachineV { regs: a.regs.insert(a.pc, v), pc: a.pc + 1, out, ..a };
        assert forall|n: nat| (#[trigger] run(n, w, ops, b)) is Some implies run(
            n + (m + 1),
            w,
            ops,
            a,
        ) == run(n, w, ops, b) by {
            lemma_call_more(m, n + m, w, ops, func, vs, a.out);
            lemma_run_more(n, n + m, w, ops, b);
            assert((n + (m + 1) - 1) as nat == n + m);
        }
        assert(leads_in(m + 1, w, ops, a, b));
    }
}

} // verus!
