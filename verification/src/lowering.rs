//! Lowering: which builder script a program is.
//!
//! Every rule is a function from what has been built so far, a [`GenV`], to what is
//! built then and the value of what was lowered.
use crate::ast::{
    BindingV, EnumDefV, ExprKindV, ExprV, FieldDefV, ImplBlockV, LitV, MatchArmV, ParamV,
    ProgramV, StructDefV, TopLevelV, Type, TypeV,
};
use crate::ast;
use crate::codegen::one;
use crate::ir::{BinOp, ConvOp, LTy, LTyV, ModuleV, OpV, Pred, Prim, Val, ValV};
use crate::ir;
use crate::text::Dup;
use crate::text;
use crate::typing::{CkV, FnSigV, VariantInfoV};
use crate::typing;
use vstd::prelude::*;
use vstd::string::*;

verus! {

/// Why no code can be made.
#[derive(Debug)]
pub enum CodegenError {
    Llvm(String),
    Internal(String),
}

/// Model of [`CodegenError`].
#[verifier::ext_equal]
pub enum CodegenErrorV {
    Llvm(Seq<char>),
    Internal(Seq<char>),
}

impl View for CodegenError {
    type V = CodegenErrorV;

    open spec fn view(&self) -> CodegenErrorV {
        match *self {
            CodegenError::Llvm(a) => CodegenErrorV::Llvm(a.deep_view()),
            CodegenError::Internal(a) => CodegenErrorV::Internal(a.deep_view()),
        }
    }
}

impl DeepView for CodegenError {
    type V = CodegenErrorV;

    open spec fn deep_view(&self) -> CodegenErrorV {
        self@
    }
}

impl Dup for CodegenError {
    fn dup(&self) -> (r: Self) {
        match self {
            CodegenError::Llvm(a) => CodegenError::Llvm(a.dup()),
            CodegenError::Internal(a) => CodegenError::Internal(a.dup()),
        }
    }
}

impl Clone for CodegenError {
    fn clone(&self) -> (r: Self)
        ensures
            r@ == self@,
    {
        self.dup()
    }
}

/// A variable in scope.
#[derive(Debug)]
pub struct Local {
    pub name: String,
    /// The slot of its value; that of an array holds where the array is.
    pub ptr: Val,
    pub ty: Type,
}

/// Model of [`Local`].
#[verifier::ext_equal]
pub struct LocalV {
    pub name: Seq<char>,
    pub ptr: ValV,
    pub ty: TypeV,
}

impl View for Local {
    type V = LocalV;

    open spec fn view(&self) -> LocalV {
        LocalV { name: self.name.deep_view(), ptr: self.ptr.deep_view(), ty: self.ty.deep_view() }
    }
}

impl DeepView for Local {
    type V = LocalV;

    open spec fn deep_view(&self) -> LocalV {
        self@
    }
}

impl Dup for Local {
    fn dup(&self) -> (r: Self) {
        Local { name: self.name.dup(), ptr: self.ptr.dup(), ty: self.ty.dup() }
    }
}

impl Clone for Local {
    fn clone(&self) -> (r: Self)
        ensures
            r@ == self@,
    {
        self.dup()
    }
}

/// The message of a code generation error.
pub open spec fn codegen_error_text(e: CodegenErrorV) -> Seq<char> {
    match e {
        CodegenErrorV::Llvm(s) => "LLVM error: "@ + s,
        CodegenErrorV::Internal(s) => "internal: "@ + s,
    }
}

/// What has been built so far.
#[verifier::ext_equal]
pub struct GenV {
    pub name: Seq<char>,
    pub ops: Seq<OpV>,
    /// The functions that can be called, by name.
    pub fns: Map<Seq<char>, usize>,
    pub fn_types: Map<Seq<char>, FnSigV>,
    pub consts: Map<Seq<char>, (TypeV, ValV)>,
    /// The variables in scope.
    pub locals: Seq<LocalV>,
    /// The parameters of the function that is built.
    pub param_locals: Seq<LocalV>,
    pub param_names: Seq<Seq<char>>,
    pub current_fn: Option<Seq<char>>,
    /// Where a tail call of the function to itself goes.
    pub loop_header: Option<usize>,
    /// Where `break` goes, the innermost loop last.
    pub loop_exits: Seq<usize>,
    pub str_count: usize,
    pub structs: Map<Seq<char>, StructDefV>,
    pub enums: Map<Seq<char>, EnumDefV>,
    pub variants: Map<Seq<char>, VariantInfoV>,
    pub externs: Map<Seq<char>, FnSigV>,
    /// The function and the block that are built, and whether the block has ended.
    pub func: usize,
    pub block: usize,
    pub ended: bool,
}

/// What lowering something gives.
#[verifier::ext_equal]
pub struct Gen<R> {
    pub g: GenV,
    pub r: Result<R, CodegenErrorV>,
}

pub open spec fn fail<R>(g: GenV, msg: Seq<char>) -> Gen<R> {
    Gen { g, r: Err(CodegenErrorV::Internal(msg)) }
}

pub open spec fn done<R>(g: GenV, r: R) -> Gen<R> {
    Gen { g, r: Ok(r) }
}

/// Whether what was built and what came of it are what a rule gives.
pub open spec fn built<R: DeepView>(g: GenV, r: Result<R, CodegenError>, c: Gen<R::V>) -> bool {
    &&& g == c.g
    &&& text::outcome(r) == c.r
}

/// The name of the next step.
pub open spec fn next(g: GenV) -> usize {
    g.ops.len() as usize
}

/// What the next step makes.
pub open spec fn made(g: GenV) -> ValV {
    ValV::Reg(next(g))
}

/// One more step.
pub open spec fn step(g: GenV, op: OpV) -> GenV {
    GenV {
        ops: g.ops.push(op),
        ended: if ir::in_block(op) {
            ir::ends_block(op)
        } else {
            g.ended
        },
        ..g
    }
}

/// A new block of the function that is built.
pub open spec fn block(g: GenV, name: Seq<char>) -> GenV {
    step(g, OpV::NewBlock { func: g.func, name })
}

/// Goes on at the end of a block, in which nothing is yet.
pub open spec fn go(g: GenV, bb: usize) -> GenV {
    GenV { block: bb, ended: false, ..step(g, OpV::PositionAt(bb)) }
}

/// The place of a variable among the variables in scope.
pub open spec fn local_at(ls: Seq<LocalV>, name: Seq<char>, i: int) -> Option<int>
    decreases ls.len() - i,
{
    if i < 0 || i >= ls.len() {
        None
    } else if ls[i].name == name {
        Some(i)
    } else {
        local_at(ls, name, i + 1)
    }
}

pub open spec fn find_local(ls: Seq<LocalV>, name: Seq<char>) -> Option<LocalV> {
    match local_at(ls, name, 0) {
        Some(i) => Some(ls[i]),
        None => None,
    }
}

/// The variables with one more, or with another one of that name in its place.
pub open spec fn with_local(ls: Seq<LocalV>, l: LocalV) -> Seq<LocalV> {
    match local_at(ls, l.name, 0) {
        Some(i) => ls.update(i, l),
        None => ls.push(l),
    }
}

pub open spec fn without_local(ls: Seq<LocalV>, name: Seq<char>) -> Seq<LocalV> {
    match local_at(ls, name, 0) {
        Some(i) => ls.remove(i),
        None => ls,
    }
}

/// What a name stood for before, to be restored.
pub type Shadowed = (Seq<char>, Option<LocalV>);

pub open spec fn restored(ls: Seq<LocalV>, s: Shadowed) -> Seq<LocalV> {
    match s.1 {
        Some(l) => with_local(ls, l),
        None => without_local(ls, s.0),
    }
}

/// The variables with the last `n` of `prev` restored, the last one first.
pub open spec fn restored_all(ls: Seq<LocalV>, prev: Seq<Shadowed>, n: int) -> Seq<LocalV>
    decreases n,
{
    if n <= 0 || n > prev.len() {
        ls
    } else {
        restored_all(restored(ls, prev[n - 1]), prev, n - 1)
    }
}

/// The machine type of a value that fits a register.
pub open spec fn prim_of(ty: TypeV) -> Option<Prim> {
    match ty {
        TypeV::I32 => Some(Prim::I32),
        TypeV::I64 => Some(Prim::I64),
        TypeV::F32 => Some(Prim::F32),
        TypeV::F64 => Some(Prim::F64),
        TypeV::Bool => Some(Prim::I1),
        TypeV::Str => Some(Prim::Ptr),
        TypeV::Array { .. } => Some(Prim::Ptr),
        TypeV::Unit => None,
        TypeV::Named(_) => None,
    }
}

/// The machine types of the fields from place `i` on, behind `acc`.
pub open spec fn field_prims(fields: Seq<FieldDefV>, i: int, acc: Seq<Prim>) -> Result<
    Seq<Prim>,
    CodegenErrorV,
>
    decreases fields.len() - i,
{
    if i < 0 || i >= fields.len() {
        Ok(acc)
    } else {
        match prim_of(fields[i].ty) {
            None => Err(
                CodegenErrorV::Internal("unsupported field type "@ + ast::type_text(fields[i].ty)),
            ),
            Some(p) => field_prims(fields, i + 1, acc.push(p)),
        }
    }
}

/// An enum is its tag and the bits of its payload.
pub open spec fn enum_type() -> LTyV {
    LTyV::Struct(seq![Prim::I32, Prim::I64])
}

/// The machine type of a value.
pub open spec fn lower_type(g: GenV, ty: TypeV) -> Result<LTyV, CodegenErrorV> {
    match prim_of(ty) {
        Some(p) => Ok(LTyV::One(p)),
        None => match ty {
            TypeV::Named(n) => if g.structs.contains_key(n) {
                match field_prims(g.structs[n].fields, 0, Seq::empty()) {
                    Ok(ps) => Ok(LTyV::Struct(ps)),
                    Err(e) => Err(e),
                }
            } else if g.enums.contains_key(n) {
                Ok(enum_type())
            } else {
                Err(CodegenErrorV::Internal("unknown named type "@ + n))
            },
            _ => Err(CodegenErrorV::Internal("unit has no basic type"@)),
        },
    }
}

/// The machine type of an array.
pub open spec fn lower_array_type(elem: TypeV, len: u32) -> Result<LTyV, CodegenErrorV> {
    if ast::scalar(elem) {
        Ok(LTyV::Array(prim_of(elem)->0, len))
    } else {
        Err(CodegenErrorV::Internal("unsupported array element type "@ + ast::type_text(elem)))
    }
}

/// Whether values own something that must be released. Fields and payloads do not.
pub open spec fn needs_drop(ty: TypeV) -> bool {
    ty is Str
}

/// Whether a use takes a value or only looks at it.
#[derive(Clone, Copy)]
pub enum ValueUse {
    Move,
    Place,
}

/// A stack slot for a variable.
pub open spec fn lower_slot(g: GenV, name: Seq<char>, ty: TypeV) -> Gen<ValV> {
    match lower_type(g, ty) {
        Err(err) => Gen { g: g, r: Err(err) },
        Ok(t) => {
            done(
                step(g, OpV::EntryAlloca { func: g.func, ty: t, name, zeroed: needs_drop(ty) }),
                made(g),
            )
        },
    }
}

/// A call of a function of the run time.
pub open spec fn lower_rt(g: GenV, fname: Seq<char>, args: Seq<ValV>, name: Seq<char>) -> Gen<ValV> {
    if g.fns.contains_key(fname) {
        done(step(g, OpV::Call { func: g.fns[fname], args, name }), made(g))
    } else {
        fail(g, "no run-time function "@ + fname)
    }
}

/// Releases a value.
pub open spec fn lower_drop(g: GenV, v: ValV, ty: TypeV) -> Gen<()> {
    if needs_drop(ty) {
        let c = lower_rt(g, "risp_str_release"@, seq![v], "risp_str_release"@);
        match c.r {
            Err(err) => Gen { g: c.g, r: Err(err) },
            Ok(_v) => {
                done(c.g, ())
            },
        }
    } else {
        done(g, ())
    }
}

/// One more owner of a value.
pub open spec fn lower_retain(g: GenV, v: ValV, ty: TypeV) -> Gen<ValV> {
    if needs_drop(ty) {
        lower_rt(g, "risp_str_retain"@, seq![v], "risp_str_retain"@)
    } else {
        done(g, v)
    }
}

/// Loads from a slot.
pub open spec fn lower_load(g: GenV, ptr: ValV, ty: TypeV, name: Seq<char>) -> Gen<ValV> {
    match lower_type(g, ty) {
        Err(err) => Gen { g: g, r: Err(err) },
        Ok(t) => {
            done(step(g, OpV::Load { ty: t, ptr, name }), made(g))
        },
    }
}

/// Loads what is in a slot and releases it.
pub open spec fn lower_release(g: GenV, ptr: ValV, ty: TypeV, name: Seq<char>) -> Gen<()> {
    let c = lower_load(g, ptr, ty, name);
    match c.r {
        Err(err) => Gen { g: c.g, r: Err(err) },
        Ok(v) => {
            lower_drop(c.g, v, ty)
        },
    }
}

/// Stores an owned value in a slot, and releases what was there.
pub open spec fn lower_store(g: GenV, ptr: ValV, v: ValV, ty: TypeV) -> Gen<()> {
    if needs_drop(ty) {
        let c = lower_release(g, ptr, ty, "old.owned"@);
        match c.r {
            Err(err) => Gen { g: c.g, r: Err(err) },
            Ok(_u) => {
                done(step(c.g, OpV::Store { ptr, val: v }), ())
            },
        }
    } else {
        done(step(g, OpV::Store { ptr, val: v }), ())
    }
}

/// Loads a variable that is a string, a struct or an enum.
pub open spec fn lower_load_owned(g: GenV, ptr: ValV, ty: TypeV, mode: ValueUse) -> Gen<ValV> {
    let c = lower_load(g, ptr, ty, "load.owned"@);
    match c.r {
        Err(err) => Gen { g: c.g, r: Err(err) },
        Ok(v) => {
            match mode {
                ValueUse::Place => done(c.g, v),
                ValueUse::Move => lower_retain(c.g, v, ty),
            }
        },
    }
}

/// Releases the variables from place `i` on, but not those in `kept`. Slots that are
/// used `again` are left empty.
pub open spec fn lower_release_locals(
    g: GenV,
    ls: Seq<LocalV>,
    i: int,
    kept: Seq<LocalV>,
    name: Seq<char>,
    again: bool,
) -> Gen<()>
    decreases ls.len() - i,
{
    if i < 0 || i >= ls.len() {
        done(g, ())
    } else if needs_drop(ls[i].ty) && find_local(kept, ls[i].name) is None {
        let c = lower_release(g, ls[i].ptr, ls[i].ty, name);
        match c.r {
            Err(err) => Gen { g: c.g, r: Err(err) },
            Ok(_u) => {
                let g1 = if again {
                    step(c.g, OpV::Store { ptr: ls[i].ptr, val: ValV::Null })
                } else {
                    c.g
                };
                lower_release_locals(g1, ls, i + 1, kept, name, again)
            },
        }
    } else {
        lower_release_locals(g, ls, i + 1, kept, name, again)
    }
}

/// A static text.
pub open spec fn lower_text(g: GenV, s: Seq<char>) -> GenV {
    GenV {
        str_count: g.str_count.wrapping_add(1),
        ..step(g, OpV::GlobalText { text: s, name: ".str"@ + text::dec(g.str_count as nat) })
    }
}

/// A literal. A text is static here.
pub open spec fn lower_lit(g: GenV, l: LitV, ty: TypeV) -> (GenV, ValV) {
    match l {
        LitV::Int(v, _) => (
            g,
            ValV::Int(
                if ty is I64 {
                    Prim::I64
                } else {
                    Prim::I32
                },
                v,
            ),
        ),
        LitV::Float(s, _) => (
            g,
            ValV::Float(
                if ty is F32 {
                    Prim::F32
                } else {
                    Prim::F64
                },
                s,
            ),
        ),
        LitV::Bool(b) => (
            g,
            ValV::Int(
                Prim::I1,
                if b {
                    1
                } else {
                    0
                },
            ),
        ),
        LitV::Str(s) => (lower_text(g, s), made(g)),
    }
}

/// A variable or a constant.
pub open spec fn lower_var(g: GenV, name: Seq<char>, mode: ValueUse) -> Gen<ValV> {
    match find_local(g.locals, name) {
        Some(l) => if l.ty is Str || l.ty is Named {
            lower_load_owned(g, l.ptr, l.ty, mode)
        } else {
            lower_load(g, l.ptr, l.ty, name)
        },
        None => if g.consts.contains_key(name) {
            let (ty, v) = g.consts[name];
            if ty is Str {
                lower_rt(g, "risp_str_from_cstr"@, seq![v], "risp_str_from_cstr"@)
            } else {
                done(g, v)
            }
        } else {
            fail(g, "unresolved var "@ + name)
        },
    }
}

pub open spec fn no_type<R>(g: GenV) -> Gen<R> {
    fail(g, "expression missing type info (typeck not run?)"@)
}

/// An expression that must have a value.
pub open spec fn lower_value(e: ExprV, g: GenV, msg: Seq<char>) -> Gen<ValV>
    decreases e, 10int,
{
    let c = lower(e, ValueUse::Move, g);
    match c.r {
        Err(err) => Gen { g: c.g, r: Err(err) },
        Ok(v) => {
            match v {
                None => fail(c.g, msg),
                Some(x) => {
                    done(c.g, x)
                },
            }
        },
    }
}

/// An expression; one of type `unit` has no value.
pub open spec fn lower(e: ExprV, mode: ValueUse, g: GenV) -> Gen<Option<ValV>>
    decreases e, 9int,
{
    match e.ty {
        None => no_type(g),
        Some(ty) => lower_form(e.kind, ty, mode, g),
    }
}

/// `v` as the value of an expression.
pub open spec fn valued(c: Gen<ValV>) -> Gen<Option<ValV>> {
    match c.r {
        Err(err) => Gen { g: c.g, r: Err(err) },
        Ok(v) => done(c.g, Some(v)),
    }
}

/// No value.
pub open spec fn valueless<R>(c: Gen<R>) -> Gen<Option<ValV>> {
    match c.r {
        Err(err) => Gen { g: c.g, r: Err(err) },
        Ok(_) => done(c.g, None),
    }
}

/// The forms of expressions.
pub open spec fn lower_form(k: ExprKindV, ty: TypeV, mode: ValueUse, g: GenV) -> Gen<Option<ValV>>
    decreases k, 8int,
{
    match k {
        ExprKindV::Lit(l) => {
            let (g1, v) = lower_lit(g, l, ty);
            if l is Str {
                valued(lower_rt(g1, "risp_str_from_cstr"@, seq![v], "risp_str_from_cstr"@))
            } else {
                done(g1, Some(v))
            }
        },
        ExprKindV::Var(name) => valued(lower_var(g, name, mode)),
        ExprKindV::If { .. } => lower_if(k, ty, g),
        ExprKindV::Let { .. } => lower_let(k, g),
        ExprKindV::Do(es) => lower_do(es, 0, None, g),
        ExprKindV::Cast { .. } => valued(lower_cast_form(k, g)),
        ExprKindV::Assign { .. } => lower_assign(k, g),
        ExprKindV::While { .. } => lower_while(k, g),
        ExprKindV::Loop { .. } => lower_loop(k, g),
        ExprKindV::Break => if g.loop_exits.len() == 0 {
            fail(g, "break without loop"@)
        } else {
            done(step(g, OpV::Br(g.loop_exits.last())), None)
        },
        ExprKindV::ArrayLit { elem_ty, elems } => valued(lower_array(elem_ty, elems, g)),
        ExprKindV::Field { .. } => valued(lower_field(k, g)),
        ExprKindV::Match { .. } => lower_match(k, ty, g),
        ExprKindV::Call { callee, args } => lower_call(callee, args, ty, g),
    }
}

/// `if`: the two branches meet in a block in which the value is chosen. A branch
/// that a `break` ends does not get there.
pub open spec fn lower_if(k: ExprKindV, ty: TypeV, g: GenV) -> Gen<Option<ValV>>
    decreases k, 7int,
{
    match k {
        ExprKindV::If { cond, then_branch, else_branch } => {
            let c = lower_value(*cond, g, "if cond"@);
            match c.r {
                Err(err) => Gen { g: c.g, r: Err(err) },
                Ok(cv) => {
                    let then_bb = next(c.g);
                    let g1 = block(c.g, "then"@);
                    let else_bb = next(g1);
                    let g2 = block(g1, "else"@);
                    let merge_bb = next(g2);
                    let g3 = block(g2, "ifcont"@);
                    let g4 = go(step(g3, OpV::CondBr { cond: cv, yes: then_bb, no: else_bb }), then_bb);
                    let t = lower(*then_branch, ValueUse::Move, g4);
                    match t.r {
                        Err(err) => Gen { g: t.g, r: Err(err) },
                        Ok(tv) => {
                            let then_end = t.g.block;
                            let then_ok = !t.g.ended;
                            let g5 = if then_ok {
                                step(t.g, OpV::Br(merge_bb))
                            } else {
                                t.g
                            };
                            let f = lower(*else_branch, ValueUse::Move, go(g5, else_bb));
                            match f.r {
                                Err(err) => Gen { g: f.g, r: Err(err) },
                                Ok(fv) => {
                                    let else_end = f.g.block;
                                    let else_ok = !f.g.ended;
                                    let g6 = if else_ok {
                                        step(f.g, OpV::Br(merge_bb))
                                    } else {
                                        f.g
                                    };
                                    let g7 = go(g6, merge_bb);
                                    if !then_ok && !else_ok {
                                        done(step(g7, OpV::Unreachable), None)
                                    } else if ty is Unit {
                                        done(g7, None)
                                    } else {
                                        match lower_type(g7, ty) {
                                            Err(err) => Gen { g: g7, r: Err(err) },
                                            Ok(lt) => {
                                                if then_ok && tv is None {
                                                    fail(g7, "if then no value"@)
                                                } else if else_ok && fv is None {
                                                    fail(g7, "if else no value"@)
                                                } else {
                                                    let one = if then_ok {
                                                        seq![(tv->0, then_end)]
                                                    } else {
                                                        Seq::empty()
                                                    };
                                                    let both = if else_ok {
                                                        one.push((fv->0, else_end))
                                                    } else {
                                                        one
                                                    };
                                                    done(
                                                        step(g7, OpV::Phi { ty: lt, incoming: both, name: "iftmp"@ }),
                                                        Some(made(g7)),
                                                    )
                                                }
                                            },
                                        }
                                    }
                                },
                            }
                        },
                    }
                },
            }
        },
        _ => arbitrary(),
    }
}

/// A binding of a `let`: the value goes into a slot. Of an array that is where the
/// array is: it is not copied.
pub open spec fn lower_binding(b: BindingV, g: GenV) -> Gen<Shadowed>
    decreases b, 11int,
{
    let c = lower_value(b.value, g, "let value"@);
    match c.r {
        Err(err) => Gen { g: c.g, r: Err(err) },
        Ok(v) => {
            let s = lower_slot(c.g, b.name, b.ty);
            match s.r {
                Err(err) => Gen { g: s.g, r: Err(err) },
                Ok(slot) => {
                    let d = lower_store(s.g, slot, v, b.ty);
                    match d.r {
                        Err(err) => Gen { g: d.g, r: Err(err) },
                        Ok(_u) => {
                            let l = LocalV { name: b.name, ptr: slot, ty: b.ty };
                            done(
                                GenV { locals: with_local(d.g.locals, l), ..d.g },
                                (b.name, find_local(d.g.locals, b.name)),
                            )
                        },
                    }
                },
            }
        },
    }
}

/// The bindings of a `let` from place `i` on.
pub open spec fn lower_bindings(bs: Seq<BindingV>, i: int, prev: Seq<Shadowed>, g: GenV) -> Gen<
    Seq<Shadowed>,
>
    decreases bs, bs.len() - i,
{
    if i < 0 || i >= bs.len() {
        done(g, prev)
    } else {
        let c = lower_binding(bs[i], g);
        match c.r {
            Err(err) => Gen { g: c.g, r: Err(err) },
            Ok(s) => {
                lower_bindings(bs, i + 1, prev.push(s), c.g)
            },
        }
    }
}

/// Releases the first `n` variables of a `let`, the last one first.
pub open spec fn lower_let_end(bs: Seq<BindingV>, n: int, g: GenV) -> Gen<()>
    decreases n,
{
    if n <= 0 || n > bs.len() {
        done(g, ())
    } else {
        let b = bs[n - 1];
        match find_local(g.locals, b.name) {
            Some(l) => if needs_drop(b.ty) {
                let c = lower_release(g, l.ptr, b.ty, "letscope.drop"@);
                match c.r {
                    Err(err) => Gen { g: c.g, r: Err(err) },
                    Ok(_u) => {
                        lower_let_end(bs, n - 1, step(c.g, OpV::Store { ptr: l.ptr, val: ValV::Null }))
                    },
                }
            } else {
                lower_let_end(bs, n - 1, g)
            },
            None => lower_let_end(bs, n - 1, g),
        }
    }
}

/// `let`: at the end its variables are released and what they hid is back.
pub open spec fn lower_let(k: ExprKindV, g: GenV) -> Gen<Option<ValV>>
    decreases k, 7int,
{
    match k {
        ExprKindV::Let { bindings, body } => {
            let c = lower_bindings(bindings, 0, Seq::empty(), g);
            match c.r {
                Err(err) => Gen { g: c.g, r: Err(err) },
                Ok(prev) => {
                    let b = lower(*body, ValueUse::Move, c.g);
                    match b.r {
                        Err(err) => Gen { g: b.g, r: Err(err) },
                        Ok(v) => {
                            let d = if b.g.ended { done(b.g, ()) } else { lower_let_end(bindings, bindings.len() as int, b.g) };
                            match d.r {
                                Err(err) => Gen { g: d.g, r: Err(err) },
                                Ok(_u) => {
                                    done(
                                        GenV { locals: restored_all(d.g.locals, prev, prev.len() as int), ..d.g },
                                        v,
                                    )
                                },
                            }
                        },
                    }
                },
            }
        },
        _ => arbitrary(),
    }
}

/// Releases the value of an expression that is not used.
pub open spec fn lower_unused(g: GenV, e: ExprV, v: Option<ValV>) -> Gen<()> {
    match (e.ty, v) {
        (Some(ty), Some(x)) => lower_drop(g, x, ty),
        _ => done(g, ()),
    }
}

/// `do` from place `i` on. Behind a `break` nothing is built.
pub open spec fn lower_do(es: Seq<ExprV>, i: int, last: Option<ValV>, g: GenV) -> Gen<Option<ValV>>
    decreases es, es.len() - i,
{
    if i < 0 || i >= es.len() || g.ended {
        done(g, last)
    } else {
        let c = lower(es[i], ValueUse::Move, g);
        match c.r {
            Err(err) => Gen { g: c.g, r: Err(err) },
            Ok(v) => {
                if i == es.len() - 1 {
                    done(c.g, v)
                } else {
                    let d = lower_unused(c.g, es[i], v);
                    match d.r {
                        Err(err) => Gen { g: d.g, r: Err(err) },
                        Ok(_u) => {
                            lower_do(es, i + 1, last, d.g)
                        },
                    }
                }
            },
        }
    }
}

/// The conversion between two numeric types.
pub open spec fn conversion(from: TypeV, to: TypeV) -> Option<(ConvOp, Prim, Seq<char>)> {
    match (from, to) {
        (TypeV::I32, TypeV::I64) => Some((ConvOp::SignExtend, Prim::I64, "sext"@)),
        (TypeV::I64, TypeV::I32) => Some((ConvOp::Truncate, Prim::I32, "trunc"@)),
        (TypeV::F32, TypeV::F64) => Some((ConvOp::FloatExtend, Prim::F64, "fpext"@)),
        (TypeV::F64, TypeV::F32) => Some((ConvOp::FloatTruncate, Prim::F32, "fptrunc"@)),
        (TypeV::I32, TypeV::F32) => Some((ConvOp::IntToFloat, Prim::F32, "sitofp"@)),
        (TypeV::I32, TypeV::F64) => Some((ConvOp::IntToFloat, Prim::F64, "sitofp"@)),
        (TypeV::I64, TypeV::F32) => Some((ConvOp::IntToFloat, Prim::F32, "sitofp"@)),
        (TypeV::I64, TypeV::F64) => Some((ConvOp::IntToFloat, Prim::F64, "sitofp"@)),
        (TypeV::F32, TypeV::I32) => Some((ConvOp::FloatToInt, Prim::I32, "fptosi"@)),
        (TypeV::F32, TypeV::I64) => Some((ConvOp::FloatToInt, Prim::I64, "fptosi"@)),
        (TypeV::F64, TypeV::I32) => Some((ConvOp::FloatToInt, Prim::I32, "fptosi"@)),
        (TypeV::F64, TypeV::I64) => Some((ConvOp::FloatToInt, Prim::I64, "fptosi"@)),
        _ => None,
    }
}

/// A cast of a value.
pub open spec fn lower_cast(g: GenV, v: ValV, from: TypeV, to: TypeV) -> Gen<ValV> {
    if from == to {
        done(g, v)
    } else {
        match conversion(from, to) {
            Some((op, p, name)) => done(step(g, OpV::Convert { op, val: v, to: p, name }), made(g)),
            None => fail(g, "unsupported cast "@ + ast::type_text(from) + " -> "@ + ast::type_text(to)),
        }
    }
}

/// `as`
pub open spec fn lower_cast_form(k: ExprKindV, g: GenV) -> Gen<ValV>
    decreases k, 7int,
{
    match k {
        ExprKindV::Cast { ty, expr } => match expr.ty {
            None => no_type(g),
            Some(from) => {
                let c = lower_value(*expr, g, "cast expr"@);
                match c.r {
                    Err(err) => Gen { g: c.g, r: Err(err) },
                    Ok(v) => {
                        lower_cast(c.g, v, from, ty)
                    },
                }
            },
        },
        _ => arbitrary(),
    }
}

/// `set!`: the slot of the variable gets the value. That of an array then holds where
/// the other array is.
pub open spec fn lower_assign(k: ExprKindV, g: GenV) -> Gen<Option<ValV>>
    decreases k, 7int,
{
    match k {
        ExprKindV::Assign { name, value } => {
            let c = lower_value(*value, g, "set! value"@);
            match c.r {
                Err(err) => Gen { g: c.g, r: Err(err) },
                Ok(v) => {
                    match find_local(c.g.locals, name) {
                        None => fail(c.g, "set! unresolved "@ + name),
                        Some(l) => valueless(lower_store(c.g, l.ptr, v, l.ty)),
                    }
                },
            }
        },
        _ => arbitrary(),
    }
}

/// `while`
pub open spec fn lower_while(k: ExprKindV, g: GenV) -> Gen<Option<ValV>>
    decreases k, 7int,
{
    match k {
        ExprKindV::While { cond, body } => {
            let cond_bb = next(g);
            let g1 = block(g, "while.cond"@);
            let body_bb = next(g1);
            let g2 = block(g1, "while.body"@);
            let end_bb = next(g2);
            let g3 = block(g2, "while.end"@);
            let c = lower_value(*cond, go(step(g3, OpV::Br(cond_bb)), cond_bb), "while cond"@);
            match c.r {
                Err(err) => Gen { g: c.g, r: Err(err) },
                Ok(cv) => {
                    let g4 = step(c.g, OpV::CondBr { cond: cv, yes: body_bb, no: end_bb });
                    let g5 = go(GenV { loop_exits: g4.loop_exits.push(end_bb), ..g4 }, body_bb);
                    let b = lower(*body, ValueUse::Move, g5);
                    match b.r {
                        Err(err) => Gen { g: b.g, r: Err(err) },
                        Ok(_v) => {
                            let g6 = if b.g.ended {
                                b.g
                            } else {
                                step(b.g, OpV::Br(cond_bb))
                            };
                            let g7 = GenV { loop_exits: popped(g6.loop_exits), ..g6 };
                            done(go(g7, end_bb), None)
                        },
                    }
                },
            }
        },
        _ => arbitrary(),
    }
}

pub open spec fn popped(s: Seq<usize>) -> Seq<usize> {
    if s.len() > 0 {
        s.drop_last()
    } else {
        s
    }
}

/// `loop`
pub open spec fn lower_loop(k: ExprKindV, g: GenV) -> Gen<Option<ValV>>
    decreases k, 7int,
{
    match k {
        ExprKindV::Loop { body } => {
            let body_bb = next(g);
            let g1 = block(g, "loop.body"@);
            let end_bb = next(g1);
            let g2 = block(g1, "loop.end"@);
            let g3 = step(g2, OpV::Br(body_bb));
            let g4 = go(GenV { loop_exits: g3.loop_exits.push(end_bb), ..g3 }, body_bb);
            let b = lower(*body, ValueUse::Move, g4);
            match b.r {
                Err(err) => Gen { g: b.g, r: Err(err) },
                Ok(_v) => {
                    let g5 = if b.g.ended {
                        b.g
                    } else {
                        step(b.g, OpV::Br(body_bb))
                    };
                    let g6 = GenV { loop_exits: popped(g5.loop_exits), ..g5 };
                    done(go(g6, end_bb), None)
                },
            }
        },
        _ => arbitrary(),
    }
}

/// The elements of an array literal from place `i` on.
pub open spec fn lower_elems(at: LTyV, slot: ValV, es: Seq<ExprV>, i: int, g: GenV) -> Gen<()>
    decreases es, es.len() - i,
{
    if i < 0 || i >= es.len() {
        done(g, ())
    } else {
        let c = lower_value(es[i], g, "array elem"@);
        match c.r {
            Err(err) => Gen { g: c.g, r: Err(err) },
            Ok(v) => {
                let index = ValV::Int(Prim::I32, i as i64);
                let g1 = step(c.g, OpV::ElemPtr { ty: at, ptr: slot, index, name: "elemptr"@ });
                lower_elems(at, slot, es, i + 1, step(g1, OpV::Store { ptr: made(c.g), val: v }))
            },
        }
    }
}

/// An array literal, which lives in a slot.
pub open spec fn lower_array(elem_ty: TypeV, elems: Seq<ExprV>, g: GenV) -> Gen<ValV>
    decreases elems, elems.len() + 1,
{
    match lower_array_type(elem_ty, elems.len() as u32) {
        Err(err) => Gen { g: g, r: Err(err) },
        Ok(at) => {
            let slot = made(g);
            let g1 = step(g, OpV::EntryAlloca { func: g.func, ty: at, name: "arrtmp"@, zeroed: false });
            let c = lower_elems(at, slot, elems, 0, g1);
            match c.r {
                Err(err) => Gen { g: c.g, r: Err(err) },
                Ok(_u) => {
                    done(c.g, slot)
                },
            }
        },
    }
}

/// The place of a field.
pub open spec fn field_at(fields: Seq<FieldDefV>, name: Seq<char>, i: int) -> Option<int>
    decreases fields.len() - i,
{
    if i < 0 || i >= fields.len() {
        None
    } else if fields[i].name == name {
        Some(i)
    } else {
        field_at(fields, name, i + 1)
    }
}

/// The variable that an expression is.
pub open spec fn as_var(e: ExprV) -> Option<Seq<char>> {
    match e.kind {
        ExprKindV::Var(name) => Some(name),
        _ => None,
    }
}

/// `field`: a field of a variable is read in place.
pub open spec fn lower_field(k: ExprKindV, g: GenV) -> Gen<ValV>
    decreases k, 7int,
{
    match k {
        ExprKindV::Field { base, field } => match base.ty {
            None => no_type(g),
            Some(TypeV::Named(n)) => if !g.structs.contains_key(n) {
                fail(g, "no struct "@ + n)
            } else {
                let fields = g.structs[n].fields;
                match field_at(fields, field, 0) {
                    None => fail(g, "no field "@ + field),
                    Some(i) => match as_var(*base) {
                        Some(name) => match find_local(g.locals, name) {
                            None => fail(g, "field unresolved "@ + name),
                            Some(l) => {
                                match lower_type(g, TypeV::Named(n)) {
                                    Err(err) => Gen { g: g, r: Err(err) },
                                    Ok(st) => {
                                        let g1 = step(
                                            g,
                                            OpV::FieldPtr {
                                                ty: st,
                                                ptr: l.ptr,
                                                index: i as u32,
                                                name: field,
                                            },
                                        );
                                        let c = lower_load(g1, made(g), fields[i].ty, field);
                                        match c.r {
                                            Err(err) => Gen { g: c.g, r: Err(err) },
                                            Ok(v) => {
                                                lower_retain(c.g, v, fields[i].ty)
                                            },
                                        }
                                    },
                                }
                            },
                        },
                        None => {
                            let c = lower_value(*base, g, "field base"@);
                            match c.r {
                                Err(err) => Gen { g: c.g, r: Err(err) },
                                Ok(bv) => {
                                    let g1 = step(
                                        c.g,
                                        OpV::Extract { agg: bv, index: i as u32, name: field },
                                    );
                                    lower_retain(g1, made(c.g), fields[i].ty)
                                },
                            }
                        },
                    },
                }
            },
            Some(_) => fail(g, "field on non-struct"@),
        },
        _ => arbitrary(),
    }
}

/// A payload as the bits that an enum holds.
pub open spec fn lower_pack(g: GenV, v: ValV, ty: TypeV) -> Gen<ValV> {
    match ty {
        TypeV::I64 => done(g, v),
        TypeV::I32 => done(
            step(
                g,
                OpV::Convert { op: ConvOp::ZeroExtend, val: v, to: Prim::I64, name: "zext"@ },
            ),
            made(g),
        ),
        TypeV::Bool => done(
            step(
                g,
                OpV::Convert { op: ConvOp::ZeroExtend, val: v, to: Prim::I64, name: "zext"@ },
            ),
            made(g),
        ),
        TypeV::F64 => done(
            step(
                g,
                OpV::Convert { op: ConvOp::BitCast, val: v, to: Prim::I64, name: "f64bits"@ },
            ),
            made(g),
        ),
        TypeV::F32 => {
            let g1 = step(
                g,
                OpV::Convert { op: ConvOp::BitCast, val: v, to: Prim::I32, name: "f32bits"@ },
            );
            done(
                step(
                    g1,
                    OpV::Convert {
                        op: ConvOp::ZeroExtend,
                        val: made(g),
                        to: Prim::I64,
                        name: "f32zext"@,
                    },
                ),
                made(g1),
            )
        },
        _ => fail(g, "cannot pack payload type "@ + ast::type_text(ty)),
    }
}

/// The payload that the bits of an enum stand for.
pub open spec fn lower_unpack(g: GenV, bits: ValV, ty: TypeV) -> Gen<ValV> {
    match ty {
        TypeV::I64 => done(g, bits),
        TypeV::I32 => done(
            step(
                g,
                OpV::Convert { op: ConvOp::Truncate, val: bits, to: Prim::I32, name: "trunc"@ },
            ),
            made(g),
        ),
        TypeV::Bool => done(
            step(
                g,
                OpV::Convert { op: ConvOp::Truncate, val: bits, to: Prim::I1, name: "truncb"@ },
            ),
            made(g),
        ),
        TypeV::F64 => done(
            step(
                g,
                OpV::Convert { op: ConvOp::BitCast, val: bits, to: Prim::F64, name: "f64"@ },
            ),
            made(g),
        ),
        TypeV::F32 => {
            let g1 = step(
                g,
                OpV::Convert { op: ConvOp::Truncate, val: bits, to: Prim::I32, name: "f32lo"@ },
            );
            done(
                step(
                    g1,
                    OpV::Convert { op: ConvOp::BitCast, val: made(g), to: Prim::F32, name: "f32"@ },
                ),
                made(g1),
            )
        },
        _ => fail(g, "cannot unpack payload type "@ + ast::type_text(ty)),
    }
}

/// The blocks of match arms from place `i` on.
pub open spec fn lower_arm_blocks(
    arms: Seq<MatchArmV>,
    i: int,
    cases: Seq<(u32, usize)>,
    g: GenV,
) -> Gen<Seq<(u32, usize)>>
    decreases arms.len() - i,
{
    if i < 0 || i >= arms.len() {
        done(g, cases)
    } else if !g.variants.contains_key(arms[i].variant) {
        fail(g, "unknown variant "@ + arms[i].variant)
    } else {
        let tag = g.variants[arms[i].variant].tag;
        lower_arm_blocks(
            arms,
            i + 1,
            cases.push((tag, next(g))),
            block(g, "match."@ + arms[i].variant),
        )
    }
}

/// Puts the payload of an arm into a variable.
pub open spec fn lower_arm_binding(arm: MatchArmV, payload: ValV, g: GenV) -> Gen<Option<Shadowed>> {
    match (g.variants[arm.variant].payload, arm.binding) {
        (Some(pty), Some(name)) => {
            let c = lower_unpack(g, payload, pty);
            match c.r {
                Err(err) => Gen { g: c.g, r: Err(err) },
                Ok(v) => {
                    let s = lower_slot(c.g, name, pty);
                    match s.r {
                        Err(err) => Gen { g: s.g, r: Err(err) },
                        Ok(slot) => {
                            let g1 = step(s.g, OpV::Store { ptr: slot, val: v });
                            let l = LocalV { name, ptr: slot, ty: pty };
                            done(
                                GenV { locals: with_local(g1.locals, l), ..g1 },
                                Some((name, find_local(g1.locals, name))),
                            )
                        },
                    }
                },
            }
        },
        (_, Some(name)) => done(g, Some((name, None))),
        _ => done(g, None),
    }
}

/// The bodies of match arms from place `i` on. `incoming` is what reaches the end
/// with a value.
pub open spec fn lower_arms(
    arms: Seq<MatchArmV>,
    i: int,
    cases: Seq<(u32, usize)>,
    payload: ValV,
    merge_bb: usize,
    unit: bool,
    incoming: Seq<(ValV, usize)>,
    g: GenV,
) -> Gen<Seq<(ValV, usize)>>
    decreases arms, arms.len() - i,
{
    if i < 0 || i >= arms.len() {
        done(g, incoming)
    } else {
        let arm = arms[i];
        let g1 = go(g, cases[i].1);
        if !g1.variants.contains_key(arm.variant) {
            fail(g1, "unknown variant "@ + arm.variant)
        } else {
            let p = lower_arm_binding(arm, payload, g1);
            match p.r {
                Err(err) => Gen { g: p.g, r: Err(err) },
                Ok(prev) => {
                    let b = lower(arm.body, ValueUse::Move, p.g);
                    match b.r {
                        Err(err) => Gen { g: b.g, r: Err(err) },
                        Ok(v) => {
                            let end_bb = b.g.block;
                            let reached = !b.g.ended;
                            let g2 = if reached {
                                step(b.g, OpV::Br(merge_bb))
                            } else {
                                b.g
                            };
                            let g3 = match prev {
                                Some(s) => GenV { locals: restored(g2.locals, s), ..g2 },
                                None => g2,
                            };
                            if reached && !unit {
                                match v {
                                    None => fail(g3, "match arm value"@),
                                    Some(x) => {
                                        lower_arms(
                                            arms,
                                            i + 1,
                                            cases,
                                            payload,
                                            merge_bb,
                                            unit,
                                            incoming.push((x, end_bb)),
                                            g3,
                                        )
                                    },
                                }
                            } else {
                                lower_arms(arms, i + 1, cases, payload, merge_bb, unit, incoming, g3)
                            }
                        },
                    }
                },
            }
        }
    }
}

/// `match`: a switch on the tag.
pub open spec fn lower_match(k: ExprKindV, ty: TypeV, g: GenV) -> Gen<Option<ValV>>
    decreases k, 7int,
{
    match k {
        ExprKindV::Match { scrutinee, arms } => match scrutinee.ty {
            None => no_type(g),
            Some(_) => {
                let c = lower_value(*scrutinee, g, "match scrutinee"@);
                match c.r {
                    Err(err) => Gen { g: c.g, r: Err(err) },
                    Ok(ev) => {
                        let g1 = step(c.g, OpV::Extract { agg: ev, index: 0, name: "mtag"@ });
                        let g2 = step(g1, OpV::Extract { agg: ev, index: 1, name: "mpayload"@ });
                        let merge_bb = next(g2);
                        let g3 = block(g2, "match.end"@);
                        let else_bb = next(g3);
                        let g4 = block(g3, "match.unreachable"@);
                        let b = lower_arm_blocks(arms, 0, Seq::empty(), g4);
                        match b.r {
                            Err(err) => Gen { g: b.g, r: Err(err) },
                            Ok(cases) => {
                                let g5 = step(b.g, OpV::Switch { val: made(c.g), default: else_bb, cases });
                                let a = lower_arms(arms, 0, cases, made(g1), merge_bb, ty is Unit, Seq::empty(), g5);
                                match a.r {
                                    Err(err) => Gen { g: a.g, r: Err(err) },
                                    Ok(incoming) => {
                                        let g6 = go(step(go(a.g, else_bb), OpV::Unreachable), merge_bb);
                                        if ty is Unit {
                                            done(g6, None)
                                        } else {
                                            match lower_type(g6, ty) {
                                                Err(err) => Gen { g: g6, r: Err(err) },
                                                Ok(lt) => {
                                                    done(
                                                        step(g6, OpV::Phi { ty: lt, incoming, name: "matchtmp"@ }),
                                                        Some(made(g6)),
                                                    )
                                                },
                                            }
                                        }
                                    },
                                }
                            },
                        }
                    },
                }
            },
        },
        _ => arbitrary(),
    }
}

/// The values of arguments from place `i` on, behind `acc`.
pub open spec fn lower_args(args: Seq<ExprV>, i: int, acc: Seq<ValV>, g: GenV, msg: Seq<char>) -> Gen<
    Seq<ValV>,
>
    decreases args, args.len() - i,
{
    if i < 0 || i >= args.len() {
        done(g, acc)
    } else {
        let c = lower_value(args[i], g, msg);
        match c.r {
            Err(err) => Gen { g: c.g, r: Err(err) },
            Ok(v) => {
                lower_args(args, i + 1, acc.push(v), c.g, msg)
            },
        }
    }
}

/// The operation of an arithmetic operator.
pub open spec fn bin_op(op: Seq<char>, float: bool) -> (BinOp, Seq<char>) {
    if op == "+"@ {
        if float {
            (BinOp::FAdd, "fadd"@)
        } else {
            (BinOp::Add, "add"@)
        }
    } else if op == "-"@ {
        if float {
            (BinOp::FSub, "fsub"@)
        } else {
            (BinOp::Sub, "sub"@)
        }
    } else if op == "*"@ {
        if float {
            (BinOp::FMul, "fmul"@)
        } else {
            (BinOp::Mul, "mul"@)
        }
    } else if op == "/"@ {
        if float {
            (BinOp::FDiv, "fdiv"@)
        } else {
            (BinOp::Div, "div"@)
        }
    } else {
        if float {
            (BinOp::FRem, "fmod"@)
        } else {
            (BinOp::Rem, "mod"@)
        }
    }
}

pub open spec fn is_float(ty: TypeV) -> bool {
    ty is F32 || ty is F64
}

/// One arithmetic operation.
pub open spec fn lower_bin(g: GenV, op: Seq<char>, a: ValV, b: ValV, ty: TypeV) -> Gen<ValV> {
    if typing::numeric(ty) {
        let (o, name) = bin_op(op, is_float(ty));
        done(step(g, OpV::Bin { op: o, a, b, name }), made(g))
    } else {
        fail(g, "arith on "@ + ast::type_text(ty))
    }
}

/// The change of a sign.
pub open spec fn lower_neg(g: GenV, a: ValV, ty: TypeV) -> Gen<ValV> {
    if typing::numeric(ty) {
        let name = if is_float(ty) {
            "fneg"@
        } else {
            "neg"@
        };
        done(step(g, OpV::Neg { float: is_float(ty), val: a, name }), made(g))
    } else {
        fail(g, "neg on "@ + ast::type_text(ty))
    }
}

/// The operands from place `i` on, folded from the left into `acc`.
pub open spec fn lower_fold(op: Seq<char>, args: Seq<ExprV>, i: int, acc: ValV, ty: TypeV, g: GenV) -> Gen<
    ValV,
>
    decreases args, args.len() - i,
{
    if i < 0 || i >= args.len() {
        done(g, acc)
    } else {
        let c = lower_value(args[i], g, "arith rhs"@);
        match c.r {
            Err(err) => Gen { g: c.g, r: Err(err) },
            Ok(b) => {
                let d = lower_bin(c.g, op, acc, b, ty);
                match d.r {
                    Err(err) => Gen { g: d.g, r: Err(err) },
                    Ok(v) => {
                        lower_fold(op, args, i + 1, v, ty, d.g)
                    },
                }
            },
        }
    }
}

pub open spec fn missing<R>(g: GenV) -> Gen<R> {
    fail(g, "missing argument"@)
}

/// Arithmetic: a single `-` changes the sign, a single `+` or `*` changes nothing.
pub open spec fn lower_arith(op: Seq<char>, args: Seq<ExprV>, ty: TypeV, g: GenV) -> Gen<ValV>
    decreases args, args.len() + 1,
{
    if args.len() == 0 {
        missing(g)
    } else if op == "-"@ && args.len() == 1 {
        let c = lower_value(args[0], g, "unary -"@);
        match c.r {
            Err(err) => Gen { g: c.g, r: Err(err) },
            Ok(a) => {
                lower_neg(c.g, a, ty)
            },
        }
    } else if (op == "+"@ || op == "*"@) && args.len() == 1 {
        lower_value(args[0], g, "arith identity"@)
    } else {
        let c = lower_value(args[0], g, "arith lhs"@);
        match c.r {
            Err(err) => Gen { g: c.g, r: Err(err) },
            Ok(a) => {
                lower_fold(op, args, 1, a, ty, c.g)
            },
        }
    }
}

pub open spec fn predicate(op: Seq<char>) -> Pred {
    if op == "<"@ {
        Pred::Less
    } else if op == "<="@ {
        Pred::LessEqual
    } else if op == ">"@ {
        Pred::Greater
    } else if op == ">="@ {
        Pred::GreaterEqual
    } else if op == "="@ {
        Pred::Equal
    } else {
        Pred::NotEqual
    }
}

/// A comparison.
pub open spec fn lower_test(op: Seq<char>, args: Seq<ExprV>, g: GenV) -> Gen<ValV>
    decreases args, args.len() + 1,
{
    if args.len() < 2 {
        missing(g)
    } else {
        let c = lower_value(args[0], g, "operand"@);
        match c.r {
            Err(err) => Gen { g: c.g, r: Err(err) },
            Ok(a) => {
                let d = lower_value(args[1], c.g, "operand"@);
                match d.r {
                    Err(err) => Gen { g: d.g, r: Err(err) },
                    Ok(b) => {
                        match args[0].ty {
                            None => no_type(d.g),
                            Some(ty) => if ast::scalar(ty) {
                                let float = is_float(ty);
                                let name = if float {
                                    "fcmp"@
                                } else {
                                    "cmp"@
                                };
                                done(step(d.g, OpV::Test { pred: predicate(op), float, a, b, name }), made(d.g))
                            } else {
                                fail(d.g, "comparison of "@ + ast::type_text(ty))
                            },
                        }
                    },
                }
            },
        }
    }
}

/// `and` and `or`: the right side is only reached if the left does not decide.
pub open spec fn lower_short(is_and: bool, args: Seq<ExprV>, g: GenV) -> Gen<ValV>
    decreases args, args.len() + 1,
{
    if args.len() < 2 {
        missing(g)
    } else {
        let c = lower_value(args[0], g, if is_and { "and lhs"@ } else { "or lhs"@ });
        match c.r {
            Err(err) => Gen { g: c.g, r: Err(err) },
            Ok(a) => {
                let rhs_bb = next(c.g);
                let g1 = block(c.g, if is_and { "and.rhs"@ } else { "or.rhs"@ });
                let merge_bb = next(g1);
                let g2 = block(g1, if is_and { "and.end"@ } else { "or.end"@ });
                let entry_bb = g2.block;
                let g3 = if is_and {
                    step(g2, OpV::CondBr { cond: a, yes: rhs_bb, no: merge_bb })
                } else {
                    step(g2, OpV::CondBr { cond: a, yes: merge_bb, no: rhs_bb })
                };
                let d = lower_value(args[1], go(g3, rhs_bb), if is_and { "and rhs"@ } else { "or rhs"@ });
                match d.r {
                    Err(err) => Gen { g: d.g, r: Err(err) },
                    Ok(b) => {
                        let rhs_end = d.g.block;
                        let g4 = go(step(d.g, OpV::Br(merge_bb)), merge_bb);
                        let decided = ValV::Int(
                            Prim::I1,
                            if is_and {
                                0
                            } else {
                                1
                            },
                        );
                        done(
                            step(
                                g4,
                                OpV::Phi {
                                    ty: LTyV::One(Prim::I1),
                                    incoming: seq![(decided, entry_bb), (b, rhs_end)],
                                    name: if is_and {
                                        "andtmp"@
                                    } else {
                                        "ortmp"@
                                    },
                                },
                            ),
                            made(g4),
                        )
                    },
                }
            },
        }
    }
}

/// `not`
pub open spec fn lower_not(args: Seq<ExprV>, g: GenV) -> Gen<ValV>
    decreases args, args.len() + 1,
{
    if args.len() == 0 {
        missing(g)
    } else {
        let c = lower_value(args[0], g, "operand"@);
        match c.r {
            Err(err) => Gen { g: c.g, r: Err(err) },
            Ok(a) => {
                done(step(c.g, OpV::Not { val: a, name: "nottmp"@ }), made(c.g))
            },
        }
    }
}

/// What `printf` is given for a value: its format and the argument.
pub open spec fn lower_print_arg(g: GenV, v: ValV, ty: TypeV) -> Gen<(Seq<char>, ValV)> {
    match ty {
        TypeV::I32 => done(g, ("%d"@, v)),
        TypeV::I64 => done(g, ("%lld"@, v)),
        TypeV::F64 => done(g, ("%g"@, v)),
        TypeV::F32 => done(
            step(
                g,
                OpV::Convert { op: ConvOp::FloatExtend, val: v, to: Prim::F64, name: "fpext"@ },
            ),
            ("%g"@, made(g)),
        ),
        TypeV::Bool => {
            let g1 = lower_text(g, "true"@);
            let g2 = lower_text(g1, "false"@);
            done(
                step(
                    g2,
                    OpV::Select { cond: v, a: made(g), b: made(g1), name: "boolstr"@ },
                ),
                ("%s"@, made(g2)),
            )
        },
        _ => fail(g, "cannot print this type"@),
    }
}

/// Printing of a string, which is released behind it.
pub open spec fn lower_print_str(g: GenV, v: ValV, newline: bool) -> Gen<()> {
    let c = lower_rt(g, "risp_str_cstr"@, seq![v], "risp_str_cstr"@);
    match c.r {
        Err(err) => Gen { g: c.g, r: Err(err) },
        Ok(cstr) => {
            if newline {
                let d = lower_rt(c.g, "__puts"@, seq![cstr], "putscall"@);
                match d.r {
                    Err(err) => Gen { g: d.g, r: Err(err) },
                    Ok(_v) => {
                        lower_drop(d.g, v, TypeV::Str)
                    },
                }
            } else {
                let g1 = lower_text(c.g, "%s"@);
                let d = lower_rt(g1, "__printf"@, seq![made(c.g), cstr], "printfcall"@);
                match d.r {
                    Err(err) => Gen { g: d.g, r: Err(err) },
                    Ok(_v) => {
                        lower_drop(d.g, v, TypeV::Str)
                    },
                }
            }
        },
    }
}

/// `print` and `println`
pub open spec fn lower_print(args: Seq<ExprV>, newline: bool, g: GenV) -> Gen<()>
    decreases args, args.len() + 1,
{
    if args.len() == 0 {
        missing(g)
    } else {
        match args[0].ty {
            None => no_type(g),
            Some(ty) => {
                let c = lower_value(args[0], g, "print arg"@);
                match c.r {
                    Err(err) => Gen { g: c.g, r: Err(err) },
                    Ok(v) => {
                        if ty is Str {
                            lower_print_str(c.g, v, newline)
                        } else {
                            let d = lower_print_arg(c.g, v, ty);
                            match d.r {
                                Err(err) => Gen { g: d.g, r: Err(err) },
                                Ok(fa) => {
                                    let fmt = if newline {
                                        fa.0 + "\n"@
                                    } else {
                                        fa.0
                                    };
                                    let p = lower_rt(lower_text(d.g, fmt), "__printf"@, seq![made(d.g), fa.1], "printfcall"@);
                                    match p.r {
                                        Err(err) => Gen { g: p.g, r: Err(err) },
                                        Ok(_v) => {
                                            done(p.g, ())
                                        },
                                    }
                                },
                            }
                        }
                    },
                }
            },
        }
    }
}

/// `str-concat`
pub open spec fn lower_concat(args: Seq<ExprV>, g: GenV) -> Gen<ValV>
    decreases args, args.len() + 1,
{
    if args.len() < 2 {
        missing(g)
    } else {
        let c = lower_value(args[0], g, "str-concat a"@);
        match c.r {
            Err(err) => Gen { g: c.g, r: Err(err) },
            Ok(a) => {
                let d = lower_value(args[1], c.g, "str-concat b"@);
                match d.r {
                    Err(err) => Gen { g: d.g, r: Err(err) },
                    Ok(b) => {
                        let x = lower_rt(d.g, "risp_str_concat"@, seq![a, b], "strconcat"@);
                        match x.r {
                            Err(err) => Gen { g: x.g, r: Err(err) },
                            Ok(v) => {
                                let y = lower_drop(x.g, a, TypeV::Str);
                                match y.r {
                                    Err(err) => Gen { g: y.g, r: Err(err) },
                                    Ok(_u) => {
                                        let z = lower_drop(y.g, b, TypeV::Str);
                                        match z.r {
                                            Err(err) => Gen { g: z.g, r: Err(err) },
                                            Ok(_w) => {
                                                done(z.g, v)
                                            },
                                        }
                                    },
                                }
                            },
                        }
                    },
                }
            },
        }
    }
}

/// `str-len`
pub open spec fn lower_str_len(args: Seq<ExprV>, g: GenV) -> Gen<ValV>
    decreases args, args.len() + 1,
{
    if args.len() == 0 {
        missing(g)
    } else {
        let c = lower_value(args[0], g, "str-len"@);
        match c.r {
            Err(err) => Gen { g: c.g, r: Err(err) },
            Ok(a) => {
                let x = lower_rt(c.g, "risp_str_len"@, seq![a], "strlen"@);
                match x.r {
                    Err(err) => Gen { g: x.g, r: Err(err) },
                    Ok(v) => {
                        let y = lower_drop(x.g, a, TypeV::Str);
                        match y.r {
                            Err(err) => Gen { g: y.g, r: Err(err) },
                            Ok(_u) => {
                                done(y.g, v)
                            },
                        }
                    },
                }
            },
        }
    }
}

/// `aget`
pub open spec fn lower_aget(args: Seq<ExprV>, g: GenV) -> Gen<ValV>
    decreases args, args.len() + 1,
{
    if args.len() < 2 {
        missing(g)
    } else {
        match args[0].ty {
            None => no_type(g),
            Some(TypeV::Array { elem, len }) => {
                let c = lower_value(args[0], g, "aget arr"@);
                match c.r {
                    Err(err) => Gen { g: c.g, r: Err(err) },
                    Ok(a) => {
                        let d = lower_value(args[1], c.g, "aget idx"@);
                        match d.r {
                            Err(err) => Gen { g: d.g, r: Err(err) },
                            Ok(i) => {
                                match lower_array_type(*elem, len) {
                                    Err(err) => Gen { g: d.g, r: Err(err) },
                                    Ok(at) => {
                                        let g1 = step(d.g, OpV::ElemPtr { ty: at, ptr: a, index: i, name: "agetptr"@ });
                                        lower_load(g1, made(d.g), *elem, "aget"@)
                                    },
                                }
                            },
                        }
                    },
                }
            },
            Some(_) => fail(g, "aget on non-array"@),
        }
    }
}

/// `aset!`
pub open spec fn lower_aset(args: Seq<ExprV>, g: GenV) -> Gen<()>
    decreases args, args.len() + 1,
{
    if args.len() < 3 {
        missing(g)
    } else {
        match args[0].ty {
            None => no_type(g),
            Some(TypeV::Array { elem, len }) => {
                let c = lower_value(args[0], g, "aset! arr"@);
                match c.r {
                    Err(err) => Gen { g: c.g, r: Err(err) },
                    Ok(a) => {
                        let d = lower_value(args[1], c.g, "aset! idx"@);
                        match d.r {
                            Err(err) => Gen { g: d.g, r: Err(err) },
                            Ok(i) => {
                                let x = lower_value(args[2], d.g, "aset! val"@);
                                match x.r {
                                    Err(err) => Gen { g: x.g, r: Err(err) },
                                    Ok(v) => {
                                        match lower_array_type(*elem, len) {
                                            Err(err) => Gen { g: x.g, r: Err(err) },
                                            Ok(at) => {
                                                let g1 = step(x.g, OpV::ElemPtr { ty: at, ptr: a, index: i, name: "asetptr"@ });
                                                done(step(g1, OpV::Store { ptr: made(x.g), val: v }), ())
                                            },
                                        }
                                    },
                                }
                            },
                        }
                    },
                }
            },
            Some(_) => fail(g, "aset! on non-array"@),
        }
    }
}

/// `alen`: the length is known, the array is still evaluated.
pub open spec fn lower_alen(args: Seq<ExprV>, g: GenV) -> Gen<ValV>
    decreases args, args.len() + 1,
{
    if args.len() == 0 {
        missing(g)
    } else {
        match args[0].ty {
            None => no_type(g),
            Some(TypeV::Array { elem, len }) => {
                let c = lower(args[0], ValueUse::Move, g);
                match c.r {
                    Err(err) => Gen { g: c.g, r: Err(err) },
                    Ok(_v) => {
                        done(c.g, ValV::Int(Prim::I32, len as i64))
                    },
                }
            },
            Some(_) => fail(g, "alen on non-array"@),
        }
    }
}

/// The fields of a struct value from place `i` on, put into `agg`.
pub open spec fn lower_fields(
    fields: Seq<FieldDefV>,
    args: Seq<ExprV>,
    i: int,
    agg: ValV,
    g: GenV,
) -> Gen<ValV>
    decreases args, args.len() - i,
{
    if i < 0 || i >= args.len() || i >= fields.len() {
        done(g, agg)
    } else {
        let c = lower_value(args[i], g, "struct field"@);
        match c.r {
            Err(err) => Gen { g: c.g, r: Err(err) },
            Ok(v) => {
                let g1 = step(
                    c.g,
                    OpV::Insert { agg, val: v, index: i as u32, name: fields[i].name },
                );
                lower_fields(fields, args, i + 1, made(c.g), g1)
            },
        }
    }
}

/// A struct value.
pub open spec fn lower_struct(name: Seq<char>, args: Seq<ExprV>, g: GenV) -> Gen<ValV>
    decreases args, args.len() + 1,
{
    match lower_type(g, TypeV::Named(name)) {
        Err(err) => Gen { g: g, r: Err(err) },
        Ok(st) => {
            lower_fields(g.structs[name].fields, args, 0, ValV::Undef(st), g)
        },
    }
}

/// An enum value out of its tag and its payload bits.
pub open spec fn lower_enum(g: GenV, tag: u32, bits: ValV) -> Gen<ValV> {
    let g1 = step(
        g,
        OpV::Insert {
            agg: ValV::Undef(enum_type()),
            val: ValV::Int(Prim::I32, tag as i64),
            index: 0,
            name: "tag"@,
        },
    );
    done(
        step(g1, OpV::Insert { agg: made(g), val: bits, index: 1, name: "payload"@ }),
        made(g1),
    )
}

/// A value of an enum.
pub open spec fn lower_variant(info: VariantInfoV, args: Seq<ExprV>, g: GenV) -> Gen<ValV>
    decreases args, args.len() + 1,
{
    match info.payload {
        None => lower_enum(g, info.tag, ValV::Int(Prim::I64, 0)),
        Some(pty) => if args.len() == 0 {
            missing(g)
        } else {
            let c = lower_value(args[0], g, "variant payload"@);
            match c.r {
                Err(err) => Gen { g: c.g, r: Err(err) },
                Ok(v) => {
                    let d = lower_pack(c.g, v, pty);
                    match d.r {
                        Err(err) => Gen { g: d.g, r: Err(err) },
                        Ok(bits) => {
                            lower_enum(d.g, info.tag, bits)
                        },
                    }
                },
            }
        },
    }
}

/// The arguments of a call from place `i` on. A foreign function gets C strings;
/// the strings that they belong to are in `owned`.
pub open spec fn lower_call_args(
    args: Seq<ExprV>,
    i: int,
    params: Seq<TypeV>,
    foreign: bool,
    acc: Seq<ValV>,
    owned: Seq<ValV>,
    g: GenV,
) -> Gen<(Seq<ValV>, Seq<ValV>)>
    decreases args, args.len() - i,
{
    if i < 0 || i >= args.len() {
        done(g, (acc, owned))
    } else {
        let c = lower_value(args[i], g, "call argument"@);
        match c.r {
            Err(err) => Gen { g: c.g, r: Err(err) },
            Ok(v) => {
                if foreign && i < params.len() && params[i] is Str {
                    let d = lower_rt(c.g, "risp_str_cstr"@, seq![v], "risp_str_cstr"@);
                    match d.r {
                        Err(err) => Gen { g: d.g, r: Err(err) },
                        Ok(cstr) => {
                            lower_call_args(args, i + 1, params, foreign, acc.push(cstr), owned.push(v), d.g)
                        },
                    }
                } else {
                    lower_call_args(args, i + 1, params, foreign, acc.push(v), owned, c.g)
                }
            },
        }
    }
}

/// Releases strings from place `i` on.
pub open spec fn lower_drop_all(vs: Seq<ValV>, i: int, g: GenV) -> Gen<()>
    decreases vs.len() - i,
{
    if i < 0 || i >= vs.len() {
        done(g, ())
    } else {
        let c = lower_drop(g, vs[i], TypeV::Str);
        match c.r {
            Err(err) => Gen { g: c.g, r: Err(err) },
            Ok(_u) => {
                lower_drop_all(vs, i + 1, c.g)
            },
        }
    }
}

/// A call of a function.
pub open spec fn lower_fn_call(callee: Seq<char>, args: Seq<ExprV>, g: GenV) -> Gen<Option<ValV>>
    decreases args, args.len() + 1,
{
    if !g.fns.contains_key(callee) {
        fail(g, "undef fn "@ + callee)
    } else if !g.fn_types.contains_key(callee) {
        fail(g, "no sig "@ + callee)
    } else {
        let func = g.fns[callee];
        let sig = g.fn_types[callee];
        let foreign = g.externs.contains_key(callee);
        let c = lower_call_args(args, 0, sig.params, foreign, Seq::empty(), Seq::empty(), g);
        match c.r {
            Err(err) => Gen { g: c.g, r: Err(err) },
            Ok(av) => {
                let g1 = step(c.g, OpV::Call { func, args: av.0, name: "calltmp"@ });
                let result = made(c.g);
                let d = lower_drop_all(av.1, 0, g1);
                match d.r {
                    Err(err) => Gen { g: d.g, r: Err(err) },
                    Ok(_u) => {
                        if sig.ret is Unit {
                            done(d.g, None)
                        } else if foreign && sig.ret is Str {
                            valued(lower_rt(d.g, "risp_str_from_cstr"@, seq![result], "risp_str_from_cstr"@))
                        } else {
                            done(d.g, Some(result))
                        }
                    },
                }
            },
        }
    }
}

/// A call: of a builtin, a constructor or a function.
pub open spec fn lower_call(callee: Seq<char>, args: Seq<ExprV>, ty: TypeV, g: GenV) -> Gen<Option<ValV>>
    decreases args, args.len() + 2,
{
    if callee == "+"@ || callee == "-"@ || callee == "*"@ || callee == "/"@ || callee == "mod"@ {
        valued(lower_arith(callee, args, ty, g))
    } else if typing::comparison(callee) {
        valued(lower_test(callee, args, g))
    } else if callee == "and"@ {
        valued(lower_short(true, args, g))
    } else if callee == "or"@ {
        valued(lower_short(false, args, g))
    } else if callee == "not"@ {
        valued(lower_not(args, g))
    } else if callee == "println"@ {
        valueless(lower_print(args, true, g))
    } else if callee == "print"@ {
        valueless(lower_print(args, false, g))
    } else if callee == "str-concat"@ {
        valued(lower_concat(args, g))
    } else if callee == "str-len"@ {
        valued(lower_str_len(args, g))
    } else if callee == "aget"@ {
        valued(lower_aget(args, g))
    } else if callee == "aset!"@ {
        valueless(lower_aset(args, g))
    } else if callee == "alen"@ {
        valued(lower_alen(args, g))
    } else if g.structs.contains_key(callee) {
        valued(lower_struct(callee, args, g))
    } else if g.variants.contains_key(callee) {
        valued(lower_variant(g.variants[callee], args, g))
    } else {
        lower_fn_call(callee, args, g)
    }
}

/// Returns from a function; the variables are released before.
pub open spec fn lower_return(g: GenV, v: Option<ValV>, ret: TypeV) -> Gen<()> {
    let c = lower_release_locals(g, g.locals, 0, Seq::empty(), "drop.local"@, false);
    match c.r {
        Err(err) => Gen { g: c.g, r: Err(err) },
        Ok(_u) => {
            if ret is Unit {
                done(step(c.g, OpV::Ret(None)), ())
            } else {
                match v {
                    Some(x) => done(step(c.g, OpV::Ret(Some(x))), ()),
                    None => fail(c.g, "tail expr produced no value but return type is non-unit"@),
                }
            }
        },
    }
}

/// Stores new values in the parameters from place `i` on.
pub open spec fn lower_new_params(names: Seq<Seq<char>>, vs: Seq<ValV>, i: int, g: GenV) -> Gen<()>
    decreases names.len() - i,
{
    if i < 0 || i >= names.len() || i >= vs.len() {
        done(g, ())
    } else {
        match find_local(g.param_locals, names[i]) {
            None => fail(g, "unknown parameter "@ + names[i]),
            Some(l) => {
                let c = lower_store(g, l.ptr, vs[i], l.ty);
                match c.r {
                    Err(err) => Gen { g: c.g, r: Err(err) },
                    Ok(_u) => {
                        lower_new_params(names, vs, i + 1, c.g)
                    },
                }
            },
        }
    }
}

/// A tail call of a function to itself: all arguments are evaluated, then the
/// parameters get them, and control goes back to the start of the body.
pub open spec fn lower_self_call(args: Seq<ExprV>, g: GenV) -> Gen<()> {
    if args.len() != g.param_names.len() {
        fail(g, "self-TCO arity mismatch (typeck should have caught this)"@)
    } else {
        let c = lower_args(args, 0, Seq::empty(), g, "tco arg"@);
        match c.r {
            Err(err) => Gen { g: c.g, r: Err(err) },
            Ok(vs) => {
                let d = lower_release_locals(c.g, c.g.locals, 0, c.g.param_locals, "tco.drop"@, true);
                match d.r {
                    Err(err) => Gen { g: d.g, r: Err(err) },
                    Ok(_u) => {
                        let x = lower_new_params(d.g.param_names, vs, 0, d.g);
                        match x.r {
                            Err(err) => Gen { g: x.g, r: Err(err) },
                            Ok(_w) => {
                                match x.g.loop_header {
                                    None => fail(x.g, "TCO without loop header"@),
                                    Some(bb) => done(step(x.g, OpV::Br(bb)), ()),
                                }
                            },
                        }
                    },
                }
            },
        }
    }
}

/// An expression in tail position: it ends with a return, or with a jump back to the
/// start if it is a call of the function to itself. The variables in scope are then
/// those from before it, for what is built next.
pub open spec fn lower_tail(e: ExprV, ret: TypeV, g: GenV) -> Gen<()>
    decreases e, 3int,
{
    match e.kind {
        ExprKindV::If { cond, then_branch, else_branch } => {
            let c = lower_value(*cond, g, "if cond"@);
            match c.r {
                Err(err) => Gen { g: c.g, r: Err(err) },
                Ok(cv) => {
                    let then_bb = next(c.g);
                    let g1 = block(c.g, "then.tail"@);
                    let else_bb = next(g1);
                    let g2 = block(g1, "else.tail"@);
                    let g3 = step(g2, OpV::CondBr { cond: cv, yes: then_bb, no: else_bb });
                    let t = lower_tail(*then_branch, ret, go(g3, then_bb));
                    match t.r {
                        Err(err) => Gen { g: t.g, r: Err(err) },
                        Ok(_u) => {
                            lower_tail(*else_branch, ret, go(t.g, else_bb))
                        },
                    }
                },
            }
        },
        ExprKindV::Let { bindings, body } => {
            let c = lower_bindings(bindings, 0, Seq::empty(), g);
            match c.r {
                Err(err) => Gen { g: c.g, r: Err(err) },
                Ok(prev) => {
                    let b = lower_tail(*body, ret, c.g);
                    match b.r {
                        Err(err) => Gen { g: b.g, r: Err(err) },
                        Ok(_u) => {
                            done(
                                GenV { locals: restored_all(b.g.locals, prev, prev.len() as int), ..b.g },
                                (),
                            )
                        },
                    }
                },
            }
        },
        ExprKindV::Do(es) => if es.len() == 0 {
            lower_return(g, None, ret)
        } else {
            let c = lower_tail_do(es, 0, g);
            match c.r {
                Err(err) => Gen { g: c.g, r: Err(err) },
                Ok(_u) => {
                    lower_tail(es.last(), ret, c.g)
                },
            }
        },
        ExprKindV::Call { callee, args } => if g.current_fn == Some(callee) {
            lower_self_call(args, g)
        } else {
            let c = lower(e, ValueUse::Move, g);
            match c.r {
                Err(err) => Gen { g: c.g, r: Err(err) },
                Ok(v) => {
                    lower_return(c.g, v, ret)
                },
            }
        },
        _ => {
            let c = lower(e, ValueUse::Move, g);
            match c.r {
                Err(err) => Gen { g: c.g, r: Err(err) },
                Ok(v) => {
                    lower_return(c.g, v, ret)
                },
            }
        },
    }
}

/// All but the last expression of a `do` in tail position, from place `i` on.
pub open spec fn lower_tail_do(es: Seq<ExprV>, i: int, g: GenV) -> Gen<()>
    decreases es.len() - i,
{
    if i < 0 || i >= es.len() - 1 {
        done(g, ())
    } else {
        let c = lower(es[i], ValueUse::Move, g);
        match c.r {
            Err(err) => Gen { g: c.g, r: Err(err) },
            Ok(v) => {
                let d = lower_unused(c.g, es[i], v);
                match d.r {
                    Err(err) => Gen { g: d.g, r: Err(err) },
                    Ok(_u) => {
                        lower_tail_do(es, i + 1, d.g)
                    },
                }
            },
        }
    }
}

/// The parameters of a function from place `i` on, each in a slot.
pub open spec fn lower_params(params: Seq<ParamV>, i: int, g: GenV) -> Gen<()>
    decreases params.len() - i,
{
    if i < 0 || i >= params.len() {
        done(g, ())
    } else {
        let p = params[i];
        let c = lower_slot(g, p.name, p.ty);
        match c.r {
            Err(err) => Gen { g: c.g, r: Err(err) },
            Ok(slot) => {
                let g1 = step(c.g, OpV::Store { ptr: slot, val: ValV::Arg(i as u32) });
                let l = LocalV { name: p.name, ptr: slot, ty: p.ty };
                lower_params(
                    params,
                    i + 1,
                    GenV {
                        locals: with_local(g1.locals, l),
                        param_names: g1.param_names.push(p.name),
                        ..g1
                    },
                )
            },
        }
    }
}

/// A function: a block for the slots of the parameters, and one for the body.
pub open spec fn lower_function(
    name: Seq<char>,
    params: Seq<ParamV>,
    ret: TypeV,
    body: ExprV,
    g: GenV,
) -> Gen<()> {
    if !g.fns.contains_key(name) {
        fail(g, "undef fn "@ + name)
    } else {
        let g0 = GenV { func: g.fns[name], ..g };
        let entry = next(g0);
        let g1 = block(g0, "entry"@);
        let loop_bb = next(g1);
        let g2 = go(block(g1, "loop"@), entry);
        let g3 = GenV { locals: Seq::empty(), param_names: Seq::empty(), ..g2 };
        let c = lower_params(params, 0, g3);
        match c.r {
            Err(err) => Gen { g: c.g, r: Err(err) },
            Ok(_u) => {
                let g4 = GenV {
                    param_locals: c.g.locals,
                    current_fn: Some(name),
                    loop_header: Some(loop_bb),
                    ..c.g
                };
                let b = lower_tail(body, ret, go(step(g4, OpV::Br(loop_bb)), loop_bb));
                match b.r {
                    Err(err) => Gen { g: b.g, r: Err(err) },
                    Ok(_w) => {
                        done(
                            GenV {
                                current_fn: None,
                                loop_header: None,
                                param_locals: Seq::empty(),
                                param_names: Seq::empty(),
                                ..b.g
                            },
                            (),
                        )
                    },
                }
            },
        }
    }
}

/// A function of the run time.
#[derive(Debug)]
pub struct RuntimeFn {
    /// What the generator calls it.
    pub key: String,
    /// Its symbol.
    pub name: String,
    pub params: Vec<LTy>,
    pub ret: Option<LTy>,
    pub vararg: bool,
}

/// Model of [`RuntimeFn`].
#[verifier::ext_equal]
pub struct RuntimeFnV {
    pub key: Seq<char>,
    pub name: Seq<char>,
    pub params: Seq<LTyV>,
    pub ret: Option<LTyV>,
    pub vararg: bool,
}

impl View for RuntimeFn {
    type V = RuntimeFnV;

    open spec fn view(&self) -> RuntimeFnV {
        RuntimeFnV { key: self.key.deep_view(), name: self.name.deep_view(), params: self.params.deep_view(), ret: self.ret.deep_view(), vararg: self.vararg }
    }
}

impl DeepView for RuntimeFn {
    type V = RuntimeFnV;

    open spec fn deep_view(&self) -> RuntimeFnV {
        self@
    }
}

impl Dup for RuntimeFn {
    fn dup(&self) -> (r: Self) {
        RuntimeFn { key: self.key.dup(), name: self.name.dup(), params: self.params.dup(), ret: self.ret.dup(), vararg: self.vararg }
    }
}

impl Clone for RuntimeFn {
    fn clone(&self) -> (r: Self)
        ensures
            r@ == self@,
    {
        self.dup()
    }
}

pub open spec fn ptr_type() -> LTyV {
    LTyV::One(Prim::Ptr)
}

pub open spec fn runtime_fn(name: Seq<char>, params: Seq<LTyV>, ret: Option<LTyV>) -> RuntimeFnV {
    RuntimeFnV { key: name, name, params, ret, vararg: false }
}

/// The functions that programs are linked with.
pub open spec fn runtime() -> Seq<RuntimeFnV> {
    let p = ptr_type();
    let i32t = LTyV::One(Prim::I32);
    let i64t = LTyV::One(Prim::I64);
    seq![
        RuntimeFnV { key: "__puts"@, name: "puts"@, params: seq![p], ret: Some(i32t), vararg: false },
        RuntimeFnV {
            key: "__printf"@,
            name: "printf"@,
            params: seq![p],
            ret: Some(i32t),
            vararg: true,
        },
        runtime_fn("risp_str_from_cstr"@, seq![p], Some(p)),
        runtime_fn("risp_str_retain"@, seq![p], Some(p)),
        runtime_fn("risp_str_release"@, seq![p], None),
        runtime_fn("risp_str_concat"@, seq![p, p], Some(p)),
        runtime_fn("risp_str_len"@, seq![p], Some(i32t)),
        runtime_fn("risp_str_cstr"@, seq![p], Some(p)),
        runtime_fn("risp_box_alloc"@, seq![i64t], Some(p)),
        runtime_fn("risp_box_free"@, seq![p], None),
        runtime_fn("risp_vec_i32_new"@, Seq::empty(), Some(p)),
        runtime_fn("risp_vec_i32_push"@, seq![p, i32t], None),
        runtime_fn("risp_vec_i32_get"@, seq![p, i32t], Some(i32t)),
        runtime_fn("risp_vec_i32_len"@, seq![p], Some(i32t)),
        runtime_fn("risp_vec_i32_free"@, seq![p], None),
        runtime_fn("risp_rc_alloc"@, seq![i64t], Some(p)),
        runtime_fn("risp_rc_retain"@, seq![p], Some(p)),
        runtime_fn("risp_rc_release_strong"@, seq![p], Some(i32t)),
        runtime_fn("risp_rc_after_payload_drop"@, seq![p], None),
        runtime_fn("risp_weak_from"@, seq![p], Some(p)),
        runtime_fn("risp_weak_upgrade"@, seq![p], Some(p)),
        runtime_fn("risp_weak_release"@, seq![p], None),
    ]
}

/// Declares a function of the run time.
pub open spec fn declare_one(g: GenV, f: RuntimeFnV) -> GenV {
    GenV {
        fns: g.fns.insert(f.key, next(g)),
        ..step(
            g,
            OpV::AddFunction { name: f.name, params: f.params, ret: f.ret, vararg: f.vararg },
        )
    }
}

/// Declares functions of the run time from place `i` on.
pub open spec fn declare_runtime(fs: Seq<RuntimeFnV>, i: int, g: GenV) -> GenV
    decreases fs.len() - i,
{
    if i < 0 || i >= fs.len() {
        g
    } else {
        declare_runtime(fs, i + 1, declare_one(g, fs[i]))
    }
}

/// The machine types of types from place `i` on, behind `acc`.
pub open spec fn lower_types(g: GenV, tys: Seq<TypeV>, i: int, acc: Seq<LTyV>) -> Result<
    Seq<LTyV>,
    CodegenErrorV,
>
    decreases tys.len() - i,
{
    if i < 0 || i >= tys.len() {
        Ok(acc)
    } else {
        match lower_type(g, tys[i]) {
            Err(e) => Err(e),
            Ok(t) => lower_types(g, tys, i + 1, acc.push(t)),
        }
    }
}

/// The machine type of a result; nothing for `unit`.
pub open spec fn lower_ret(g: GenV, ty: TypeV) -> Result<Option<LTyV>, CodegenErrorV> {
    if ty is Unit {
        Ok(None)
    } else {
        match lower_type(g, ty) {
            Err(e) => Err(e),
            Ok(t) => Ok(Some(t)),
        }
    }
}

/// Declares a function of the program.
pub open spec fn declare_fn(g: GenV, name: Seq<char>, params: Seq<TypeV>, ret: TypeV) -> Gen<()> {
    match lower_types(g, params, 0, Seq::empty()) {
        Err(err) => Gen { g: g, r: Err(err) },
        Ok(ps) => {
            match lower_ret(g, ret) {
                Err(err) => Gen { g: g, r: Err(err) },
                Ok(r) => {
                    let g1 = step(g, OpV::AddFunction { name, params: ps, ret: r, vararg: false });
                    done(
                        GenV {
                            fns: g1.fns.insert(name, next(g)),
                            fn_types: g1.fn_types.insert(name, FnSigV { params, ret }),
                            ..g1
                        },
                        (),
                    )
                },
            }
        },
    }
}

/// Declares the methods of an impl from place `i` on.
pub open spec fn declare_methods(ib: ImplBlockV, i: int, g: GenV) -> Gen<()>
    decreases ib.methods.len() - i,
{
    if i < 0 || i >= ib.methods.len() {
        done(g, ())
    } else {
        let m = ib.methods[i];
        let c = declare_fn(g, typing::method_symbol(ib.trait_name, ib.for_ty, m.name), typing::param_types(m.params), m.ret);
        match c.r {
            Err(err) => Gen { g: c.g, r: Err(err) },
            Ok(_u) => {
                declare_methods(ib, i + 1, c.g)
            },
        }
    }
}

/// Declares the functions of the items from place `i` on, so that all can be called.
pub open spec fn declare_items(items: Seq<TopLevelV>, i: int, g: GenV) -> Gen<()>
    decreases items.len() - i,
{
    if i < 0 || i >= items.len() {
        done(g, ())
    } else {
        let c = match items[i] {
            TopLevelV::Function(f) => declare_fn(g, f.name, typing::param_types(f.params), f.ret),
            TopLevelV::Extern(e) => declare_fn(g, e.name, typing::param_types(e.params), e.ret),
            TopLevelV::Impl(ib) => declare_methods(ib, 0, g),
            _ => done(g, ()),
        };
        match c.r {
            Err(err) => Gen { g: c.g, r: Err(err) },
            Ok(_u) => {
                declare_items(items, i + 1, c.g)
            },
        }
    }
}

/// The constants of the items from place `i` on.
pub open spec fn lower_consts(items: Seq<TopLevelV>, i: int, g: GenV) -> Gen<()>
    decreases items.len() - i,
{
    if i < 0 || i >= items.len() {
        done(g, ())
    } else {
        match items[i] {
            TopLevelV::Const(c) => match c.value.kind {
                ExprKindV::Lit(l) => {
                    let (g1, v) = lower_lit(g, l, c.ty);
                    lower_consts(
                        items,
                        i + 1,
                        GenV { consts: g1.consts.insert(c.name, (c.ty, v)), ..g1 },
                    )
                },
                _ => fail(g, "only literal constants supported in `def` for MVP"@),
            },
            _ => lower_consts(items, i + 1, g),
        }
    }
}

/// The methods of an impl from place `i` on.
pub open spec fn lower_methods(ib: ImplBlockV, i: int, g: GenV) -> Gen<()>
    decreases ib.methods.len() - i,
{
    if i < 0 || i >= ib.methods.len() {
        done(g, ())
    } else {
        let m = ib.methods[i];
        let name = typing::method_symbol(ib.trait_name, ib.for_ty, m.name);
        let c = lower_function(name, m.params, m.ret, m.body, g);
        match c.r {
            Err(err) => Gen { g: c.g, r: Err(err) },
            Ok(_u) => {
                lower_methods(ib, i + 1, c.g)
            },
        }
    }
}

/// The bodies of the items from place `i` on.
pub open spec fn lower_items(items: Seq<TopLevelV>, i: int, g: GenV) -> Gen<()>
    decreases items.len() - i,
{
    if i < 0 || i >= items.len() {
        done(g, ())
    } else {
        let c = match items[i] {
            TopLevelV::Function(f) => lower_function(f.name, f.params, f.ret, f.body, g),
            TopLevelV::Impl(ib) => lower_methods(ib, 0, g),
            _ => done(g, ()),
        };
        match c.r {
            Err(err) => Gen { g: c.g, r: Err(err) },
            Ok(_u) => {
                lower_items(items, i + 1, c.g)
            },
        }
    }
}

/// A program: the functions of the run time, those of the program, its constants,
/// then the bodies.
pub open spec fn lower_program(p: ProgramV, s: CkV, g: GenV) -> Gen<()> {
    let g0 = GenV {
        structs: s.structs,
        enums: s.enums,
        variants: s.variants,
        externs: s.externs,
        ..g
    };
    let c = declare_items(p.items, 0, declare_runtime(runtime(), 0, g0));
    match c.r {
        Err(err) => Gen { g: c.g, r: Err(err) },
        Ok(_u) => {
            let d = lower_consts(p.items, 0, c.g);
            match d.r {
                Err(err) => Gen { g: d.g, r: Err(err) },
                Ok(_v) => {
                    lower_items(p.items, 0, d.g)
                },
            }
        },
    }
}

/// Nothing built yet.
pub open spec fn nothing_built(name: Seq<char>) -> GenV {
    GenV {
        name,
        ops: Seq::empty(),
        fns: Map::empty(),
        fn_types: Map::empty(),
        consts: Map::empty(),
        locals: Seq::empty(),
        param_locals: Seq::empty(),
        param_names: Seq::empty(),
        current_fn: None,
        loop_header: None,
        loop_exits: Seq::empty(),
        str_count: 0,
        structs: Map::empty(),
        enums: Map::empty(),
        variants: Map::empty(),
        externs: Map::empty(),
        func: 0,
        block: 0,
        ended: false,
    }
}

/// The script that was built.
pub open spec fn module_of(g: GenV) -> ModuleV {
    ModuleV { name: g.name, ops: g.ops }
}

} // verus!
