//! Code generator: lowers checked programs to builder scripts.
use crate::ast::{EnumDef, Expr, FieldDef, Lit, Param, StructDef, Type};
use crate::ast;
use crate::ir::{LTy, Module, Op, OpV, Prim, Val};
use crate::lowering::{CodegenError, CodegenErrorV, GenV, Local, ValueUse};
use crate::lowering;
use crate::table::{NameTable, Table};
use crate::text::{decimal, Dup, same_text};
use crate::text;
use crate::typing::{FnSig, VariantInfo};
use crate::typing;
use vstd::prelude::*;
use vstd::string::*;

verus! {

/// Lowers a program step by step.
pub struct Codegen {
    /// The name of the module.
    pub name: String,
    pub ops: Vec<Op>,
    pub fns: NameTable<usize>,
    pub fn_types: NameTable<FnSig>,
    pub consts: NameTable<(Type, Val)>,
    /// The variables in scope.
    pub locals: Vec<Local>,
    /// The parameters of the function that is built, to which a tail call of the
    /// function to itself goes back.
    pub param_locals: Vec<Local>,
    pub param_names: Vec<String>,
    pub current_fn: Option<String>,
    /// Where a tail call of the function to itself goes.
    pub loop_header: Option<usize>,
    /// Where `break` goes, the innermost loop last.
    pub loop_exits: Vec<usize>,
    pub str_count: usize,
    pub structs: NameTable<StructDef>,
    pub enums: NameTable<EnumDef>,
    pub variants: NameTable<VariantInfo>,
    pub externs: NameTable<FnSig>,
    /// The function and the block that are built, and whether the block has ended.
    pub func: usize,
    pub block: usize,
    pub ended: bool,
}

impl View for Codegen {
    type V = GenV;

    open spec fn view(&self) -> GenV {
        GenV {
            name: self.name@,
            ops: self.ops.deep_view(),
            fns: self.fns@,
            fn_types: self.fn_types@,
            consts: self.consts@,
            locals: self.locals.deep_view(),
            param_locals: self.param_locals.deep_view(),
            param_names: self.param_names.deep_view(),
            current_fn: self.current_fn.deep_view(),
            loop_header: self.loop_header,
            loop_exits: self.loop_exits@,
            str_count: self.str_count,
            structs: self.structs@,
            enums: self.enums@,
            variants: self.variants@,
            externs: self.externs@,
            func: self.func,
            block: self.block,
            ended: self.ended,
        }
    }
}

impl CodegenError {
    /// The message.
    pub fn to_text(&self) -> (r: String)
        ensures
            r@ == lowering::codegen_error_text(self@),
    {
        match self {
            CodegenError::Llvm(s) => joined("LLVM error: ", s.as_str()),
            CodegenError::Internal(s) => joined("internal: ", s.as_str()),
        }
    }
}

/// One text behind the other.
pub(crate) fn joined(a: &str, b: &str) -> (r: String)
    ensures
        r@ == a@ + b@,
{
    let mut s = String::from_str(a);
    s.append(b);
    s
}

pub(crate) fn internal<T>(msg: &str) -> (r: Result<T, CodegenError>)
    ensures
        r matches Err(e) && e@ == CodegenErrorV::Internal(msg@),
{
    Err(CodegenError::Internal(String::from_str(msg)))
}

pub(crate) fn internal_about<T>(msg: &str, what: &str) -> (r: Result<T, CodegenError>)
    ensures
        r matches Err(e) && e@ == CodegenErrorV::Internal(msg@ + what@),
{
    Err(CodegenError::Internal(joined(msg, what)))
}

/// The place of a variable.
pub(crate) fn local_index(ls: &Vec<Local>, name: &str) -> (r: Option<usize>)
    ensures
        match r {
            Some(i) => i < ls@.len() && lowering::local_at(ls.deep_view(), name@, 0) == Some(i as int),
            None => lowering::local_at(ls.deep_view(), name@, 0) is None,
        },
{
    let mut i: usize = 0;
    while i < ls.len()
        invariant
            i <= ls@.len(),
            lowering::local_at(ls.deep_view(), name@, 0) == lowering::local_at(ls.deep_view(), name@, i as int),
        decreases ls@.len() - i,
    {
        if same_text(ls[i].name.as_str(), name) {
            return Some(i);
        }
        i += 1;
    }
    None
}

/// A variable.
pub(crate) fn local_named(ls: &Vec<Local>, name: &str) -> (r: Option<Local>)
    ensures
        r.deep_view() == lowering::find_local(ls.deep_view(), name@),
{
    match local_index(ls, name) {
        Some(i) => Some(ls[i].dup()),
        None => None,
    }
}

/// Puts a variable in scope; gives what its name stood for before.
pub(crate) fn put_local(ls: &mut Vec<Local>, l: Local) -> (r: Option<Local>)
    ensures
        r.deep_view() == lowering::find_local(old(ls).deep_view(), l.name@),
        final(ls).deep_view() == lowering::with_local(old(ls).deep_view(), l@),
{
    match local_index(&*ls, l.name.as_str()) {
        Some(i) => {
            let before = ls[i].dup();
            ls.set(i, l);
            assert(ls.deep_view() =~= old(ls).deep_view().update(i as int, l@));
            Some(before)
        },
        None => {
            ls.push(l);
            assert(ls.deep_view() =~= old(ls).deep_view().push(l@));
            None
        },
    }
}

/// Restores what a name stood for.
pub(crate) fn restore_local(ls: &mut Vec<Local>, name: &str, before: Option<Local>)
    requires
        before matches Some(l) ==> l.name@ == name@,
    ensures
        final(ls).deep_view() == lowering::restored(old(ls).deep_view(), (name@, before.deep_view())),
{
    match before {
        Some(l) => {
            let _ = put_local(ls, l);
        },
        None => match local_index(&*ls, name) {
            Some(i) => {
                let _ = ls.remove(i);
                assert(ls.deep_view() =~= old(ls).deep_view().remove(i as int));
            },
            None => {},
        },
    }
}

/// The machine type of a value that fits a register.
pub(crate) fn register_type(ty: &Type) -> (r: Option<Prim>)
    ensures
        r == lowering::prim_of(ty@),
{
    match ty {
        Type::I32 => Some(Prim::I32),
        Type::I64 => Some(Prim::I64),
        Type::F32 => Some(Prim::F32),
        Type::F64 => Some(Prim::F64),
        Type::Bool => Some(Prim::I1),
        Type::Str => Some(Prim::Ptr),
        Type::Array { .. } => Some(Prim::Ptr),
        Type::Unit => None,
        Type::Named(_) => None,
    }
}

/// The machine types of fields.
fn field_types(fields: &Vec<FieldDef>) -> (r: Result<Vec<Prim>, CodegenError>)
    ensures
        text::outcome(r) == lowering::field_prims(fields.deep_view(), 0, Seq::empty()),
{
    let mut out: Vec<Prim> = Vec::new();
    let mut i: usize = 0;
    assert(out.deep_view() =~= Seq::empty());
    while i < fields.len()
        invariant
            i <= fields@.len(),
            lowering::field_prims(fields.deep_view(), 0, Seq::empty()) == lowering::field_prims(
                fields.deep_view(),
                i as int,
                out.deep_view(),
            ),
        decreases fields@.len() - i,
    {
        match register_type(&fields[i].ty) {
            None => {
                return internal_about("unsupported field type ", fields[i].ty.to_text().as_str());
            },
            Some(p) => {
                let ghost before = out.deep_view();
                out.push(p);
                assert(out.deep_view() =~= before.push(p));
            },
        }
        i += 1;
    }
    Ok(out)
}

/// The machine type of an array.
pub(crate) fn llvm_array_type(elem: &Type, len: u32) -> (r: Result<LTy, CodegenError>)
    ensures
        text::outcome(r) == lowering::lower_array_type(elem@, len),
{
    if elem.is_array_elem_allowed() {
        match register_type(elem) {
            Some(p) => Ok(LTy::Array(p, len)),
            None => internal("unreachable"),
        }
    } else {
        internal_about("unsupported array element type ", elem.to_text().as_str())
    }
}

/// Whether values of a type own something that must be released.
pub(crate) fn owns(ty: &Type) -> (r: bool)
    ensures
        r == lowering::needs_drop(ty@),
{
    matches!(ty, Type::Str)
}

/// An expression's type.
pub(crate) fn expr_ty(e: &Expr) -> (r: Result<&Type, CodegenError>)
    ensures
        match r {
            Ok(t) => ast::expr_v(*e).ty == Some(t@),
            Err(x) => ast::expr_v(*e).ty is None && x@ == CodegenErrorV::Internal(
                "expression missing type info (typeck not run?)"@,
            ),
        },
{
    match &e.ty {
        Some(t) => Ok(t),
        None => internal("expression missing type info (typeck not run?)"),
    }
}

/// What an expression must have.
pub(crate) fn owed(v: Option<Val>, msg: &str) -> (r: Result<Val, CodegenError>)
    ensures
        match v {
            Some(x) => r == Ok::<Val, CodegenError>(x),
            None => r matches Err(e) && e@ == CodegenErrorV::Internal(msg@),
        },
{
    match v {
        Some(x) => Ok(x),
        None => internal(msg),
    }
}

/// The types of parameters.
pub(crate) fn types_of(params: &Vec<Param>) -> (r: Vec<Type>)
    ensures
        r.deep_view() == typing::param_types(params.deep_view()),
{
    let mut out: Vec<Type> = Vec::new();
    let mut i: usize = 0;
    while i < params.len()
        invariant
            i <= params@.len(),
            out@.len() == i,
            forall|j: int| 0 <= j < i ==> (#[trigger] out@[j])@ == params@[j].ty@,
        decreases params@.len() - i,
    {
        out.push(params[i].ty.dup());
        i += 1;
    }
    assert(out.deep_view() =~= typing::param_types(params.deep_view()));
    out
}

/// `v` alone.
pub(crate) fn one(v: Val) -> (r: Vec<Val>)
    ensures
        r.deep_view() == seq![v@],
{
    let mut out: Vec<Val> = Vec::new();
    out.push(v);
    assert(out.deep_view() =~= seq![v@]);
    out
}

pub(crate) fn two(a: Val, b: Val) -> (r: Vec<Val>)
    ensures
        r.deep_view() == seq![a@, b@],
{
    let mut out: Vec<Val> = Vec::new();
    out.push(a);
    out.push(b);
    assert(out.deep_view() =~= seq![a@, b@]);
    out
}

impl Codegen {
    /// A generator that has built nothing.
    pub fn new(module_name: &str) -> (r: Self)
        ensures
            r@ == lowering::nothing_built(module_name@),
    {
        let r = Codegen {
            name: String::from_str(module_name),
            ops: Vec::new(),
            fns: Table::new(),
            fn_types: Table::new(),
            consts: Table::new(),
            locals: Vec::new(),
            param_locals: Vec::new(),
            param_names: Vec::new(),
            current_fn: None,
            loop_header: None,
            loop_exits: Vec::new(),
            str_count: 0,
            structs: Table::new(),
            enums: Table::new(),
            variants: Table::new(),
            externs: Table::new(),
            func: 0,
            block: 0,
            ended: false,
        };
        assert(r@ =~= lowering::nothing_built(module_name@));
        r
    }

    /// The script that was built.
    pub fn into_module(self) -> (r: Module)
        ensures
            r@ == lowering::module_of(self@),
    {
        Module { name: self.name, ops: self.ops }
    }

    /// One more step.
    pub(crate) fn put(&mut self, op: Op) -> (r: usize)
        ensures
            r == lowering::next(old(self)@),
            final(self)@ == lowering::step(old(self)@, op@),
    {
        let at = self.ops.len();
        if op.is_in_block() {
            self.ended = op.is_end();
        }
        self.ops.push(op);
        assert(self.ops.deep_view() =~= old(self).ops.deep_view().push(op@));
        assert(self@ =~= lowering::step(old(self)@, op@));
        at
    }

    /// One more step, for what it makes.
    pub(crate) fn make(&mut self, op: Op) -> (r: Val)
        ensures
            r@ == lowering::made(old(self)@),
            final(self)@ == lowering::step(old(self)@, op@),
    {
        Val::Reg(self.put(op))
    }

    /// A new block of the function that is built.
    pub(crate) fn new_block(&mut self, name: &str) -> (r: usize)
        ensures
            r == lowering::next(old(self)@),
            final(self)@ == lowering::block(old(self)@, name@),
    {
        let func = self.func;
        self.put(Op::NewBlock { func, name: String::from_str(name) })
    }

    /// Goes on in a block.
    pub(crate) fn go_to(&mut self, bb: usize)
        ensures
            final(self)@ == lowering::go(old(self)@, bb),
    {
        let _ = self.put(Op::PositionAt(bb));
        self.block = bb;
        self.ended = false;
        assert(self@ =~= lowering::go(old(self)@, bb));
    }

    /// Ends a block with a jump.
    pub(crate) fn jump(&mut self, bb: usize)
        ensures
            final(self)@ == lowering::step(old(self)@, OpV::Br(bb)),
    {
        let _ = self.put(Op::Br(bb));
    }

    /// Ends a block with a jump unless it has ended.
    pub(crate) fn jump_unless_ended(&mut self, bb: usize)
        ensures
            final(self)@ == (if old(self)@.ended {
                old(self)@
            } else {
                lowering::step(old(self)@, OpV::Br(bb))
            }),
    {
        if !self.ended {
            self.jump(bb);
        }
    }

    /// Whether the block that is built has ended.
    pub(crate) fn block_terminated(&self) -> (r: bool)
        ensures
            r == self@.ended,
    {
        self.ended
    }

    /// The machine type of a value.
    pub(crate) fn llvm_basic(&self, ty: &Type) -> (r: Result<LTy, CodegenError>)
        ensures
            text::outcome(r) == lowering::lower_type(self@, ty@),
    {
        match register_type(ty) {
            Some(p) => Ok(LTy::One(p)),
            None => match ty {
                Type::Named(n) => match self.structs.get(n) {
                    Some(s) => Ok(LTy::Struct(field_types(&s.fields)?)),
                    None => {
                        if self.enums.has(n) {
                            Ok(llvm_enum_ty())
                        } else {
                            internal_about("unknown named type ", n.as_str())
                        }
                    },
                },
                _ => internal("unit has no basic type"),
            },
        }
    }

    /// A stack slot for a variable.
    pub(crate) fn create_entry_alloca(&mut self, name: &str, ty: &Type) -> (r: Result<
        Val,
        CodegenError,
    >)
        ensures
            lowering::built(final(self)@, r, lowering::lower_slot(old(self)@, name@, ty@)),
    {
        let func = self.func;
        let lt = self.llvm_basic(ty)?;
        let op = Op::EntryAlloca { func, ty: lt, name: String::from_str(name), zeroed: owns(ty) };
        Ok(self.make(op))
    }

    /// A call of a function of the run time.
    pub(crate) fn rt_call(&mut self, fname: &str, args: Vec<Val>, name: &str) -> (r: Result<
        Val,
        CodegenError,
    >)
        ensures
            lowering::built(final(self)@, r, lowering::lower_rt(old(self)@, fname@, args.deep_view(), name@)),
    {
        match self.fns.get(&String::from_str(fname)) {
            Some(f) => {
                let func = *f;
                Ok(self.make(Op::Call { func, args, name: String::from_str(name) }))
            },
            None => internal_about("no run-time function ", fname),
        }
    }

    /// A call of a function of the run time with one argument, named like it.
    pub(crate) fn rt_call_ptr1(&mut self, fname: &str, v: &Val) -> (r: Result<Val, CodegenError>)
        ensures
            lowering::built(final(self)@, r, lowering::lower_rt(old(self)@, fname@, seq![v@], fname@)),
    {
        self.rt_call(fname, one(v.dup()), fname)
    }

    /// Releases a value.
    pub(crate) fn emit_drop(&mut self, v: &Val, ty: &Type) -> (r: Result<(), CodegenError>)
        ensures
            lowering::built(final(self)@, r, lowering::lower_drop(old(self)@, v@, ty@)),
    {
        if owns(ty) {
            let _ = self.rt_call_ptr1("risp_str_release", v)?;
        }
        Ok(())
    }

    /// One more owner of a value.
    pub(crate) fn emit_retain(&mut self, v: Val, ty: &Type) -> (r: Result<Val, CodegenError>)
        ensures
            lowering::built(final(self)@, r, lowering::lower_retain(old(self)@, v@, ty@)),
    {
        if owns(ty) {
            self.rt_call_ptr1("risp_str_retain", &v)
        } else {
            Ok(v)
        }
    }

    /// Loads from a slot.
    pub(crate) fn load(&mut self, ptr: &Val, ty: &Type, name: &str) -> (r: Result<Val, CodegenError>)
        ensures
            lowering::built(final(self)@, r, lowering::lower_load(old(self)@, ptr@, ty@, name@)),
    {
        let lt = self.llvm_basic(ty)?;
        Ok(self.make(Op::Load { ty: lt, ptr: ptr.dup(), name: String::from_str(name) }))
    }

    /// Releases what is in a slot.
    pub(crate) fn release(&mut self, ptr: &Val, ty: &Type, name: &str) -> (r: Result<
        (),
        CodegenError,
    >)
        ensures
            lowering::built(final(self)@, r, lowering::lower_release(old(self)@, ptr@, ty@, name@)),
    {
        let v = self.load(ptr, ty, name)?;
        self.emit_drop(&v, ty)
    }

    /// Stores an owned value in a slot, and releases what was there.
    pub(crate) fn store_owned(&mut self, ptr: &Val, v: Val, ty: &Type) -> (r: Result<
        (),
        CodegenError,
    >)
        ensures
            lowering::built(final(self)@, r, lowering::lower_store(old(self)@, ptr@, v@, ty@)),
    {
        if owns(ty) {
            self.release(ptr, ty, "old.owned")?;
        }
        let _ = self.put(Op::Store { ptr: ptr.dup(), val: v });
        Ok(())
    }

    /// Loads a variable that is a string, a struct or an enum.
    pub(crate) fn load_owned(&mut self, ptr: &Val, ty: &Type, mode: ValueUse) -> (r: Result<
        Val,
        CodegenError,
    >)
        ensures
            lowering::built(final(self)@, r, lowering::lower_load_owned(old(self)@, ptr@, ty@, mode)),
    {
        let v = self.load(ptr, ty, "load.owned")?;
        match mode {
            ValueUse::Place => Ok(v),
            ValueUse::Move => self.emit_retain(v, ty),
        }
    }

    /// Releases the variables that are not in `kept`.
    pub(crate) fn release_drop_locals(&mut self, kept: &Vec<Local>, name: &str, again: bool) -> (r:
        Result<(), CodegenError>)
        ensures
            lowering::built(
                final(self)@,
                r,
                lowering::lower_release_locals(old(self)@, old(self)@.locals, 0, kept.deep_view(), name@, again),
            ),
    {
        let ls = self.locals.dup();
        let mut i: usize = 0;
        while i < ls.len()
            invariant
                i <= ls@.len(),
                lowering::lower_release_locals(
                    old(self)@,
                    ls.deep_view(),
                    0,
                    kept.deep_view(),
                    name@,
                    again,
                ) == lowering::lower_release_locals(
                    self@,
                    ls.deep_view(),
                    i as int,
                    kept.deep_view(),
                    name@,
                    again,
                ),
                ls.deep_view() == old(self)@.locals,
            decreases ls@.len() - i,
        {
            let keep = local_index(kept, ls[i].name.as_str()).is_some();
            if owns(&ls[i].ty) && !keep {
                self.release(&ls[i].ptr, &ls[i].ty, name)?;
                if again {
                    let _ = self.put(Op::Store { ptr: ls[i].ptr.dup(), val: Val::Null });
                }
            }
            i += 1;
        }
        Ok(())
    }

    /// A static text.
    pub(crate) fn intern_str(&mut self, s: &str) -> (r: Val)
        ensures
            r@ == lowering::made(old(self)@),
            final(self)@ == lowering::lower_text(old(self)@, s@),
    {
        let name = joined(".str", decimal(self.str_count).as_str());
        let v = self.make(Op::GlobalText { text: String::from_str(s), name });
        self.str_count = self.str_count.wrapping_add(1);
        assert(self@ =~= lowering::lower_text(old(self)@, s@));
        v
    }

    /// A literal.
    pub(crate) fn emit_lit(&mut self, l: &Lit, ty: &Type) -> (r: Val)
        ensures
            (final(self)@, r@) == lowering::lower_lit(old(self)@, l@, ty@),
    {
        match l {
            Lit::Int(v, _) => {
                let p = if matches!(ty, Type::I64) {
                    Prim::I64
                } else {
                    Prim::I32
                };
                Val::Int(p, *v)
            },
            Lit::Float(s, _) => {
                let p = if matches!(ty, Type::F32) {
                    Prim::F32
                } else {
                    Prim::F64
                };
                Val::Float(p, s.dup())
            },
            Lit::Bool(b) => Val::Int(
                Prim::I1,
                if *b {
                    1
                } else {
                    0
                },
            ),
            Lit::Str(s) => self.intern_str(s.as_str()),
        }
    }
}

/// The machine type of enums.
pub(crate) fn llvm_enum_ty() -> (r: LTy)
    ensures
        r@ == lowering::enum_type(),
{
    let mut ps: Vec<Prim> = Vec::new();
    ps.push(Prim::I32);
    ps.push(Prim::I64);
    assert(ps.deep_view() =~= seq![Prim::I32, Prim::I64]);
    LTy::Struct(ps)
}

} // verus!
