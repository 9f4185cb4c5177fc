//! Builder scripts: the steps that build a module of machine code.
//!
//! A script is a list of steps for an instruction builder. A step is named by its
//! place in the list, and so is what it makes: a function, a block or a value.
use crate::text::Dup;
use vstd::prelude::*;

verus! {

/// A machine type that fits a register.
#[derive(Debug, Clone, Copy, PartialEq, Eq, Structural)]
pub enum Prim {
    I1,
    I32,
    I64,
    F32,
    F64,
    Ptr,
}

/// Binary operations; those on floats begin with `F`.
#[derive(Debug, Clone, Copy, PartialEq, Eq, Structural)]
pub enum BinOp {
    Add,
    Sub,
    Mul,
    Div,
    Rem,
    FAdd,
    FSub,
    FMul,
    FDiv,
    FRem,
}

/// Conversions between machine types.
#[derive(Debug, Clone, Copy, PartialEq, Eq, Structural)]
pub enum ConvOp {
    SignExtend,
    ZeroExtend,
    Truncate,
    FloatExtend,
    FloatTruncate,
    IntToFloat,
    FloatToInt,
    BitCast,
}

/// Comparisons; integers are signed, floats ordered.
#[derive(Debug, Clone, Copy, PartialEq, Eq, Structural)]
pub enum Pred {
    Less,
    LessEqual,
    Greater,
    GreaterEqual,
    Equal,
    NotEqual,
}

impl DeepView for Prim {
    type V = Prim;

    open spec fn deep_view(&self) -> Prim {
        *self
    }
}

impl Dup for Prim {
    fn dup(&self) -> (r: Self) {
        *self
    }
}

/// A machine type.
#[derive(Debug)]
pub enum LTy {
    /// A type that fits a register.
    One(Prim),
    Struct(Vec<Prim>),
    Array(Prim, u32),
}

/// Model of [`LTy`].
#[verifier::ext_equal]
pub enum LTyV {
    One(Prim),
    Struct(Seq<Prim>),
    Array(Prim, u32),
}

impl View for LTy {
    type V = LTyV;

    open spec fn view(&self) -> LTyV {
        match *self {
            LTy::One(a) => LTyV::One(a),
            LTy::Struct(a) => LTyV::Struct(a.deep_view()),
            LTy::Array(a, b) => LTyV::Array(a, b),
        }
    }
}

impl DeepView for LTy {
    type V = LTyV;

    open spec fn deep_view(&self) -> LTyV {
        self@
    }
}

impl Dup for LTy {
    fn dup(&self) -> (r: Self) {
        match self {
            LTy::One(a) => LTy::One(*a),
            LTy::Struct(a) => LTy::Struct(a.dup()),
            LTy::Array(a, b) => LTy::Array(*a, *b),
        }
    }
}

impl Clone for LTy {
    fn clone(&self) -> (r: Self)
        ensures
            r@ == self@,
    {
        self.dup()
    }
}

/// A machine value.
#[derive(Debug)]
pub enum Val {
    /// What a step has made.
    Reg(usize),
    /// An argument of the function that is built.
    Arg(u32),
    Int(Prim, i64),
    /// A float, by its digits.
    Float(Prim, String),
    Null,
    Undef(LTy),
}

/// Model of [`Val`].
#[verifier::ext_equal]
pub enum ValV {
    Reg(usize),
    Arg(u32),
    Int(Prim, i64),
    Float(Prim, Seq<char>),
    Null,
    Undef(LTyV),
}

impl View for Val {
    type V = ValV;

    open spec fn view(&self) -> ValV {
        match *self {
            Val::Reg(a) => ValV::Reg(a),
            Val::Arg(a) => ValV::Arg(a),
            Val::Int(a, b) => ValV::Int(a, b),
            Val::Float(a, b) => ValV::Float(a, b.deep_view()),
            Val::Null => ValV::Null,
            Val::Undef(a) => ValV::Undef(a.deep_view()),
        }
    }
}

impl DeepView for Val {
    type V = ValV;

    open spec fn deep_view(&self) -> ValV {
        self@
    }
}

impl Dup for Val {
    fn dup(&self) -> (r: Self) {
        match self {
            Val::Reg(a) => Val::Reg(*a),
            Val::Arg(a) => Val::Arg(*a),
            Val::Int(a, b) => Val::Int(*a, *b),
            Val::Float(a, b) => Val::Float(*a, b.dup()),
            Val::Null => Val::Null,
            Val::Undef(a) => Val::Undef(a.dup()),
        }
    }
}

impl Clone for Val {
    fn clone(&self) -> (r: Self)
        ensures
            r@ == self@,
    {
        self.dup()
    }
}

/// A step of a builder.
#[derive(Debug)]
pub enum Op {
    AddFunction { name: String, params: Vec<LTy>, ret: Option<LTy>, vararg: bool },
    /// A block at the end of a function.
    NewBlock { func: usize, name: String },
    /// Goes on at the end of a block.
    PositionAt(usize),
    /// A stack slot, made at the very start of a function; `zeroed` stores a null pointer in it.
    EntryAlloca { func: usize, ty: LTy, name: String, zeroed: bool },
    Load { ty: LTy, ptr: Val, name: String },
    Store { ptr: Val, val: Val },
    Br(usize),
    CondBr { cond: Val, yes: usize, no: usize },
    Switch { val: Val, default: usize, cases: Vec<(u32, usize)> },
    Ret(Option<Val>),
    Unreachable,
    Call { func: usize, args: Vec<Val>, name: String },
    Phi { ty: LTy, incoming: Vec<(Val, usize)>, name: String },
    Bin { op: BinOp, a: Val, b: Val, name: String },
    Neg { float: bool, val: Val, name: String },
    Not { val: Val, name: String },
    Convert { op: ConvOp, val: Val, to: Prim, name: String },
    Test { pred: Pred, float: bool, a: Val, b: Val, name: String },
    Extract { agg: Val, index: u32, name: String },
    Insert { agg: Val, val: Val, index: u32, name: String },
    FieldPtr { ty: LTy, ptr: Val, index: u32, name: String },
    ElemPtr { ty: LTy, ptr: Val, index: Val, name: String },
    /// A text with a null byte behind it.
    GlobalText { text: String, name: String },
    Select { cond: Val, a: Val, b: Val, name: String },
}

/// Model of [`Op`].
#[verifier::ext_equal]
pub enum OpV {
    AddFunction { name: Seq<char>, params: Seq<LTyV>, ret: Option<LTyV>, vararg: bool },
    NewBlock { func: usize, name: Seq<char> },
    PositionAt(usize),
    EntryAlloca { func: usize, ty: LTyV, name: Seq<char>, zeroed: bool },
    Load { ty: LTyV, ptr: ValV, name: Seq<char> },
    Store { ptr: ValV, val: ValV },
    Br(usize),
    CondBr { cond: ValV, yes: usize, no: usize },
    Switch { val: ValV, default: usize, cases: Seq<(u32, usize)> },
    Ret(Option<ValV>),
    Unreachable,
    Call { func: usize, args: Seq<ValV>, name: Seq<char> },
    Phi { ty: LTyV, incoming: Seq<(ValV, usize)>, name: Seq<char> },
    Bin { op: BinOp, a: ValV, b: ValV, name: Seq<char> },
    Neg { float: bool, val: ValV, name: Seq<char> },
    Not { val: ValV, name: Seq<char> },
    Convert { op: ConvOp, val: ValV, to: Prim, name: Seq<char> },
    Test { pred: Pred, float: bool, a: ValV, b: ValV, name: Seq<char> },
    Extract { agg: ValV, index: u32, name: Seq<char> },
    Insert { agg: ValV, val: ValV, index: u32, name: Seq<char> },
    FieldPtr { ty: LTyV, ptr: ValV, index: u32, name: Seq<char> },
    ElemPtr { ty: LTyV, ptr: ValV, index: ValV, name: Seq<char> },
    GlobalText { text: Seq<char>, name: Seq<char> },
    Select { cond: ValV, a: ValV, b: ValV, name: Seq<char> },
}

impl View for Op {
    type V = OpV;

    open spec fn view(&self) -> OpV {
        match *self {
            Op::AddFunction { name, params, ret, vararg } => OpV::AddFunction { name: name.deep_view(), params: params.deep_view(), ret: ret.deep_view(), vararg },
            Op::NewBlock { func, name } => OpV::NewBlock { func, name: name.deep_view() },
            Op::PositionAt(a) => OpV::PositionAt(a),
            Op::EntryAlloca { func, ty, name, zeroed } => OpV::EntryAlloca { func, ty: ty.deep_view(), name: name.deep_view(), zeroed },
            Op::Load { ty, ptr, name } => OpV::Load { ty: ty.deep_view(), ptr: ptr.deep_view(), name: name.deep_view() },
            Op::Store { ptr, val } => OpV::Store { ptr: ptr.deep_view(), val: val.deep_view() },
            Op::Br(a) => OpV::Br(a),
            Op::CondBr { cond, yes, no } => OpV::CondBr { cond: cond.deep_view(), yes, no },
            Op::Switch { val, default, cases } => OpV::Switch { val: val.deep_view(), default, cases: cases.deep_view() },
            Op::Ret(a) => OpV::Ret(a.deep_view()),
            Op::Unreachable => OpV::Unreachable,
            Op::Call { func, args, name } => OpV::Call { func, args: args.deep_view(), name: name.deep_view() },
            Op::Phi { ty, incoming, name } => OpV::Phi { ty: ty.deep_view(), incoming: incoming.deep_view(), name: name.deep_view() },
            Op::Bin { op, a, b, name } => OpV::Bin { op, a: a.deep_view(), b: b.deep_view(), name: name.deep_view() },
            Op::Neg { float, val, name } => OpV::Neg { float, val: val.deep_view(), name: name.deep_view() },
            Op::Not { val, name } => OpV::Not { val: val.deep_view(), name: name.deep_view() },
            Op::Convert { op, val, to, name } => OpV::Convert { op, val: val.deep_view(), to, name: name.deep_view() },
            Op::Test { pred, float, a, b, name } => OpV::Test { pred, float, a: a.deep_view(), b: b.deep_view(), name: name.deep_view() },
            Op::Extract { agg, index, name } => OpV::Extract { agg: agg.deep_view(), index, name: name.deep_view() },
            Op::Insert { agg, val, index, name } => OpV::Insert { agg: agg.deep_view(), val: val.deep_view(), index, name: name.deep_view() },
            Op::FieldPtr { ty, ptr, index, name } => OpV::FieldPtr { ty: ty.deep_view(), ptr: ptr.deep_view(), index, name: name.deep_view() },
            Op::ElemPtr { ty, ptr, index, name } => OpV::ElemPtr { ty: ty.deep_view(), ptr: ptr.deep_view(), index: index.deep_view(), name: name.deep_view() },
            Op::GlobalText { text, name } => OpV::GlobalText { text: text.deep_view(), name: name.deep_view() },
            Op::Select { cond, a, b, name } => OpV::Select { cond: cond.deep_view(), a: a.deep_view(), b: b.deep_view(), name: name.deep_view() },
        }
    }
}

impl DeepView for Op {
    type V = OpV;

    open spec fn deep_view(&self) -> OpV {
        self@
    }
}

/// Whether a step puts an instruction behind the others of the block that is built.
pub open spec fn in_block(op: OpV) -> bool {
    !(op is AddFunction || op is NewBlock || op is PositionAt || op is EntryAlloca || op is GlobalText)
}

/// Whether a step ends a block.
pub open spec fn ends_block(op: OpV) -> bool {
    op is Br || op is CondBr || op is Switch || op is Ret || op is Unreachable
}

impl Op {
    /// Whether the step puts an instruction behind the others of the block that is built.
    pub fn is_in_block(&self) -> (r: bool)
        ensures
            r == in_block(self@),
    {
        !matches!(
            self,
            Op::AddFunction { .. } | Op::NewBlock { .. } | Op::PositionAt(_) | Op::EntryAlloca { .. }
                | Op::GlobalText { .. }
        )
    }

    /// Whether the step ends a block.
    pub fn is_end(&self) -> (r: bool)
        ensures
            r == ends_block(self@),
    {
        matches!(
            self,
            Op::Br(_) | Op::CondBr { .. } | Op::Switch { .. } | Op::Ret(_) | Op::Unreachable
        )
    }
}

/// A finished builder script.
#[derive(Debug)]
pub struct Module {
    pub name: String,
    pub ops: Vec<Op>,
}

/// Model of [`Module`].
#[verifier::ext_equal]
pub struct ModuleV {
    pub name: Seq<char>,
    pub ops: Seq<OpV>,
}

impl View for Module {
    type V = ModuleV;

    open spec fn view(&self) -> ModuleV {
        ModuleV { name: self.name.deep_view(), ops: self.ops.deep_view() }
    }
}

impl DeepView for Module {
    type V = ModuleV;

    open spec fn deep_view(&self) -> ModuleV {
        self@
    }
}

} // verus!
