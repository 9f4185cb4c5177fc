//! Code generator: the forms of expressions.
use crate::ast::{Binding, Expr, ExprKind, FieldDef, Lit, MatchArm, Type};
use crate::ast;
use crate::codegen::{
    Codegen, expr_ty, internal, internal_about, joined, llvm_array_type, local_named, owed, owns,
    put_local, restore_local,
};
use crate::ir::{ConvOp, Op, OpV, Prim, Val};
use crate::lowering::{CodegenError, Gen, GenV, Local, LocalV, ValueUse};
use crate::lowering;
use crate::text::{Dup, same_text};
use vstd::prelude::*;
use vstd::string::*;

verus! {

/// What a name stood for before.
pub(crate) type Before = (String, Option<Local>);

/// The place of a field.
fn field_index(fields: &Vec<FieldDef>, name: &str) -> (r: Option<usize>)
    ensures
        match r {
            Some(i) => i < fields@.len() && lowering::field_at(fields.deep_view(), name@, 0) == Some(
                i as int,
            ),
            None => lowering::field_at(fields.deep_view(), name@, 0) is None,
        },
{
    let mut i: usize = 0;
    while i < fields.len()
        invariant
            i <= fields@.len(),
            lowering::field_at(fields.deep_view(), name@, 0) == lowering::field_at(
                fields.deep_view(),
                name@,
                i as int,
            ),
        decreases fields@.len() - i,
    {
        if same_text(fields[i].name.as_str(), name) {
            return Some(i);
        }
        i += 1;
    }
    None
}

/// The conversion between two numeric types.
fn conversion_of(from: &Type, to: &Type) -> (r: Option<(ConvOp, Prim, String)>)
    ensures
        match (r, lowering::conversion(from@, to@)) {
            (Some(a), Some(b)) => a.0 == b.0 && a.1 == b.1 && a.2@ == b.2,
            (None, None) => true,
            _ => false,
        },
{
    match (from, to) {
        (Type::I32, Type::I64) => Some((ConvOp::SignExtend, Prim::I64, String::from_str("sext"))),
        (Type::I64, Type::I32) => Some((ConvOp::Truncate, Prim::I32, String::from_str("trunc"))),
        (Type::F32, Type::F64) => Some((ConvOp::FloatExtend, Prim::F64, String::from_str("fpext"))),
        (Type::F64, Type::F32) => Some(
            (ConvOp::FloatTruncate, Prim::F32, String::from_str("fptrunc")),
        ),
        (Type::I32 | Type::I64, Type::F32) => Some(
            (ConvOp::IntToFloat, Prim::F32, String::from_str("sitofp")),
        ),
        (Type::I32 | Type::I64, Type::F64) => Some(
            (ConvOp::IntToFloat, Prim::F64, String::from_str("sitofp")),
        ),
        (Type::F32 | Type::F64, Type::I32) => Some(
            (ConvOp::FloatToInt, Prim::I32, String::from_str("fptosi")),
        ),
        (Type::F32 | Type::F64, Type::I64) => Some(
            (ConvOp::FloatToInt, Prim::I64, String::from_str("fptosi")),
        ),
        _ => None,
    }
}

impl Codegen {
    /// A conversion.
    fn convert(&mut self, op: ConvOp, val: Val, to: Prim, name: &str) -> (r: Val)
        ensures
            r@ == lowering::made(old(self)@),
            final(self)@ == lowering::step(old(self)@, OpV::Convert { op, val: val@, to, name: name@ }),
    {
        self.make(Op::Convert { op, val, to, name: String::from_str(name) })
    }

    /// An expression that must have a value.
    pub(crate) fn emit_value(&mut self, e: &Expr, msg: &str) -> (r: Result<Val, CodegenError>)
        ensures
            lowering::built(final(self)@, r, lowering::lower_value(ast::expr_v(*e), old(self)@, msg@)),
        decreases *e, 10int,
    {
        let v = self.emit_expr(e)?;
        owed(v, msg)
    }

    /// An expression whose value is taken.
    pub(crate) fn emit_expr(&mut self, e: &Expr) -> (r: Result<Option<Val>, CodegenError>)
        ensures
            lowering::built(final(self)@, r, lowering::lower(ast::expr_v(*e), ValueUse::Move, old(self)@)),
        decreases *e, 9int,
    {
        self.emit_expr_mode(e, ValueUse::Move)
    }

    /// An expression; one of type `unit` has no value.
    pub(crate) fn emit_expr_mode(&mut self, e: &Expr, mode: ValueUse) -> (r: Result<
        Option<Val>,
        CodegenError,
    >)
        ensures
            lowering::built(final(self)@, r, lowering::lower(ast::expr_v(*e), mode, old(self)@)),
        decreases *e, 8int,
    {
        let ty = expr_ty(e)?;
        self.emit_form(&e.kind, ty, mode)
    }

    /// The forms of expressions.
    fn emit_form(&mut self, k: &ExprKind, ty: &Type, mode: ValueUse) -> (r: Result<
        Option<Val>,
        CodegenError,
    >)
        ensures
            lowering::built(final(self)@, r, lowering::lower_form(ast::kind_v(*k), ty@, mode, old(self)@)),
        decreases *k, 8int,
    {
        match k {
            ExprKind::Lit(l) => {
                let v = self.emit_lit(l, ty);
                if matches!(l, Lit::Str(_)) {
                    Ok(Some(self.rt_call_ptr1("risp_str_from_cstr", &v)?))
                } else {
                    Ok(Some(v))
                }
            },
            ExprKind::Var(name) => Ok(Some(self.emit_var(name, mode)?)),
            ExprKind::If { .. } => self.emit_if(k, ty),
            ExprKind::Let { .. } => self.emit_let(k),
            ExprKind::Do(es) => self.emit_do(es),
            ExprKind::Cast { .. } => Ok(Some(self.emit_cast_form(k)?)),
            ExprKind::Assign { .. } => self.emit_assign(k),
            ExprKind::While { .. } => self.emit_while(k),
            ExprKind::Loop { .. } => self.emit_loop(k),
            ExprKind::Break => {
                let n = self.loop_exits.len();
                if n == 0 {
                    internal("break without loop")
                } else {
                    let exit = self.loop_exits[n - 1];
                    self.jump(exit);
                    Ok(None)
                }
            },
            ExprKind::ArrayLit { elem_ty, elems } => Ok(Some(self.emit_array_lit(elem_ty, elems)?)),
            ExprKind::Field { .. } => Ok(Some(self.emit_field(k)?)),
            ExprKind::Match { .. } => self.emit_match(k, ty),
            ExprKind::Call { callee, args } => self.emit_call(callee, args, ty),
        }
    }

    /// A variable or a constant.
    fn emit_var(&mut self, name: &String, mode: ValueUse) -> (r: Result<Val, CodegenError>)
        ensures
            lowering::built(final(self)@, r, lowering::lower_var(old(self)@, name@, mode)),
    {
        match local_named(&self.locals, name.as_str()) {
            Some(l) => match &l.ty {
                Type::Str | Type::Named(_) => self.load_owned(&l.ptr, &l.ty, mode),
                _ => self.load(&l.ptr, &l.ty, name.as_str()),
            },
            None => match self.consts.get(name) {
                Some(c) => {
                    let v = c.1.dup();
                    if matches!(c.0, Type::Str) {
                        self.rt_call_ptr1("risp_str_from_cstr", &v)
                    } else {
                        Ok(v)
                    }
                },
                None => internal_about("unresolved var ", name.as_str()),
            },
        }
    }

    /// `if`
    #[verifier::rlimit(30)]
    fn emit_if(&mut self, k: &ExprKind, ty: &Type) -> (r: Result<Option<Val>, CodegenError>)
        requires
            k is If,
        ensures
            lowering::built(final(self)@, r, lowering::lower_if(ast::kind_v(*k), ty@, old(self)@)),
        decreases *k, 7int,
    {
        match k {
            ExprKind::If { cond, then_branch, else_branch } => {
                let cv = self.emit_value(cond, "if cond")?;
                let then_bb = self.new_block("then");
                let else_bb = self.new_block("else");
                let merge_bb = self.new_block("ifcont");
                let _ = self.put(Op::CondBr { cond: cv, yes: then_bb, no: else_bb });
                self.go_to(then_bb);
                let tv = self.emit_expr(then_branch)?;
                let then_end = self.block;
                let then_ok = !self.block_terminated();
                self.jump_unless_ended(merge_bb);
                self.go_to(else_bb);
                let fv = self.emit_expr(else_branch)?;
                let else_end = self.block;
                let else_ok = !self.block_terminated();
                self.jump_unless_ended(merge_bb);
                self.go_to(merge_bb);
                if !then_ok && !else_ok {
                    let _ = self.put(Op::Unreachable);
                    return Ok(None);
                }
                if matches!(ty, Type::Unit) {
                    return Ok(None);
                }
                let lt = self.llvm_basic(ty)?;
                let mut incoming: Vec<(Val, usize)> = Vec::new();
                assert(incoming.deep_view() =~= Seq::empty());
                if then_ok {
                    incoming.push((owed(tv, "if then no value")?, then_end));
                    assert(incoming.deep_view() =~= seq![(tv.deep_view()->0, then_end)]);
                }
                if else_ok {
                    let ghost before = incoming.deep_view();
                    incoming.push((owed(fv, "if else no value")?, else_end));
                    assert(incoming.deep_view() =~= before.push((fv.deep_view()->0, else_end)));
                }
                Ok(Some(self.make(Op::Phi { ty: lt, incoming, name: String::from_str("iftmp") })))
            },
            _ => Ok(None),
        }
    }

    /// A binding of a `let`.
    fn bind_local(&mut self, b: &Binding) -> (r: Result<Before, CodegenError>)
        ensures
            lowering::built(final(self)@, r, lowering::lower_binding(ast::binding_v(*b), old(self)@)),
            r matches Ok(p) ==> (p.1 matches Some(l) ==> l.name@ == p.0@),
        decreases *b, 11int,
    {
        let v = self.emit_value(&b.value, "let value")?;
        let ptr = self.create_entry_alloca(b.name.as_str(), &b.ty)?;
        self.store_owned(&ptr, v, &b.ty)?;
        let ghost was = self@;
        let l = Local { name: b.name.dup(), ptr, ty: b.ty.dup() };
        let before = put_local(&mut self.locals, l);
        proof {
            lemma_found(was.locals, b.name@, 0);
        }
        assert(self@ =~= GenV { locals: lowering::with_local(was.locals, l@), ..was });
        Ok((b.name.dup(), before))
    }

    /// The bindings of a `let`.
    pub(crate) fn bind_locals(&mut self, bs: &Vec<Binding>) -> (r: Result<Vec<Before>, CodegenError>)
        ensures
            lowering::built(final(self)@, r, lowering::lower_bindings(ast::bindings_v(bs@), 0, Seq::empty(), old(self)@)),
            r matches Ok(ps) ==> forall|j: int|
                0 <= j < ps@.len() ==> ((#[trigger] ps@[j]).1 matches Some(l) ==> l.name@
                    == ps@[j].0@),
        decreases bs@, 0int,
    {
        let mut prev: Vec<Before> = Vec::new();
        let mut i: usize = 0;
        assert(prev.deep_view() =~= Seq::empty());
        while i < bs.len()
            invariant
                i <= bs@.len(),
                lowering::lower_bindings(ast::bindings_v(bs@), 0, Seq::empty(), old(self)@) == lowering::lower_bindings(
                    ast::bindings_v(bs@),
                    i as int,
                    prev.deep_view(),
                    self@,
                ),
                forall|j: int|
                    0 <= j < prev@.len() ==> ((#[trigger] prev@[j]).1 matches Some(l) ==> l.name@
                        == prev@[j].0@),
            decreases bs@.len() - i,
        {
            assert(ast::bindings_v(bs@)[i as int] == ast::binding_v(bs@[i as int]));
            let p = self.bind_local(&bs[i])?;
            let ghost before = prev.deep_view();
            prev.push(p);
            assert(prev.deep_view() =~= before.push(p.deep_view()));
            i += 1;
        }
        Ok(prev)
    }

    /// Releases the variables of a `let`.
    fn release_let_drop_bindings(&mut self, bs: &Vec<Binding>) -> (r: Result<(), CodegenError>)
        ensures
            lowering::built(
                final(self)@,
                r,
                lowering::lower_let_end(ast::bindings_v(bs@), bs@.len() as int, old(self)@),
            ),
    {
        let mut n: usize = bs.len();
        while n > 0
            invariant
                n <= bs@.len(),
                lowering::lower_let_end(ast::bindings_v(bs@), bs@.len() as int, old(self)@) == lowering::lower_let_end(
                    ast::bindings_v(bs@),
                    n as int,
                    self@,
                ),
            decreases n,
        {
            n -= 1;
            let b = &bs[n];
            assert(ast::bindings_v(bs@)[n as int] == ast::binding_v(*b));
            if let Some(l) = local_named(&self.locals, b.name.as_str()) {
                if owns(&b.ty) {
                    self.release(&l.ptr, &b.ty, "letscope.drop")?;
                    let _ = self.put(Op::Store { ptr: l.ptr, val: Val::Null });
                }
            }
        }
        Ok(())
    }

    /// Restores what names stood for, the last one first.
    pub(crate) fn restore_locals(&mut self, prev: Vec<Before>)
        requires
            forall|j: int|
                0 <= j < prev@.len() ==> ((#[trigger] prev@[j]).1 matches Some(l) ==> l.name@
                    == prev@[j].0@),
        ensures
            final(self)@ == (GenV {
                locals: lowering::restored_all(
                    old(self)@.locals,
                    prev.deep_view(),
                    prev@.len() as int,
                ),
                ..old(self)@
            }),
    {
        let mut n: usize = prev.len();
        while n > 0
            invariant
                n <= prev@.len(),
                forall|j: int|
                    0 <= j < prev@.len() ==> ((#[trigger] prev@[j]).1 matches Some(l) ==> l.name@
                        == prev@[j].0@),
                self@ == (GenV { locals: self@.locals, ..old(self)@ }),
                lowering::restored_all(old(self)@.locals, prev.deep_view(), prev@.len() as int)
                    == lowering::restored_all(self@.locals, prev.deep_view(), n as int),
            decreases n,
        {
            n -= 1;
            assert(prev.deep_view()[n as int] == prev@[n as int].deep_view());
            let before = prev[n].1.dup();
            assert(before.deep_view() == prev@[n as int].1.deep_view());
            restore_local(&mut self.locals, prev[n].0.as_str(), before);
        }
        assert(self@ =~= GenV { locals: self@.locals, ..old(self)@ });
    }

    /// `let`
    fn emit_let(&mut self, k: &ExprKind) -> (r: Result<Option<Val>, CodegenError>)
        requires
            k is Let,
        ensures
            lowering::built(final(self)@, r, lowering::lower_let(ast::kind_v(*k), old(self)@)),
        decreases *k, 7int,
    {
        match k {
            ExprKind::Let { bindings, body } => {
                let prev = self.bind_locals(bindings)?;
                let v = self.emit_expr(body)?;
                if !self.block_terminated() {
                    self.release_let_drop_bindings(bindings)?;
                }
                self.restore_locals(prev);
                Ok(v)
            },
            _ => Ok(None),
        }
    }

    /// Releases a value that is not used.
    pub(crate) fn drop_unused(&mut self, e: &Expr, v: Option<Val>) -> (r: Result<(), CodegenError>)
        ensures
            lowering::built(final(self)@, r, lowering::lower_unused(old(self)@, ast::expr_v(*e), v.deep_view())),
    {
        match (&e.ty, v) {
            (Some(ty), Some(x)) => self.emit_drop(&x, ty),
            _ => Ok(()),
        }
    }

    /// `do`
    fn emit_do(&mut self, es: &Vec<Expr>) -> (r: Result<Option<Val>, CodegenError>)
        ensures
            lowering::built(final(self)@, r, lowering::lower_do(ast::exprs_v(es@), 0, None, old(self)@)),
        decreases es@, 0int,
    {
        let mut i: usize = 0;
        while i < es.len() && !self.block_terminated()
            invariant
                i <= es@.len(),
                lowering::lower_do(ast::exprs_v(es@), 0, None, old(self)@) == lowering::lower_do(
                    ast::exprs_v(es@),
                    i as int,
                    None,
                    self@,
                ),
            decreases es@.len() - i,
        {
            assert(ast::exprs_v(es@)[i as int] == ast::expr_v(es@[i as int]));
            let v = self.emit_expr(&es[i])?;
            if i == es.len() - 1 {
                return Ok(v);
            }
            self.drop_unused(&es[i], v)?;
            i += 1;
        }
        Ok(None)
    }

    /// A cast of a value.
    fn emit_cast(&mut self, v: Val, from: &Type, to: &Type) -> (r: Result<Val, CodegenError>)
        ensures
            lowering::built(final(self)@, r, lowering::lower_cast(old(self)@, v@, from@, to@)),
    {
        if from.same(to) {
            return Ok(v);
        }
        match conversion_of(from, to) {
            Some(c) => Ok(self.convert(c.0, v, c.1, c.2.as_str())),
            None => {
                let mut msg = joined("unsupported cast ", from.to_text().as_str());
                msg.append(" -> ");
                msg.append(to.to_text().as_str());
                internal(msg.as_str())
            },
        }
    }

    /// `as`
    fn emit_cast_form(&mut self, k: &ExprKind) -> (r: Result<Val, CodegenError>)
        requires
            k is Cast,
        ensures
            lowering::built(final(self)@, r, lowering::lower_cast_form(ast::kind_v(*k), old(self)@)),
        decreases *k, 7int,
    {
        match k {
            ExprKind::Cast { ty, expr } => {
                proof {
                    reveal_with_fuel(ast::expr_v, 2);
                }
                let from = expr_ty(expr)?;
                let v = self.emit_value(expr, "cast expr")?;
                self.emit_cast(v, from, ty)
            },
            _ => Ok(Val::Null),
        }
    }

    /// `set!`
    fn emit_assign(&mut self, k: &ExprKind) -> (r: Result<Option<Val>, CodegenError>)
        requires
            k is Assign,
        ensures
            lowering::built(final(self)@, r, lowering::lower_assign(ast::kind_v(*k), old(self)@)),
        decreases *k, 7int,
    {
        match k {
            ExprKind::Assign { name, value } => {
                let v = self.emit_value(value, "set! value")?;
                match local_named(&self.locals, name.as_str()) {
                    None => internal_about("set! unresolved ", name.as_str()),
                    Some(l) => {
                        self.store_owned(&l.ptr, v, &l.ty)?;
                        Ok(None)
                    },
                }
            },
            _ => Ok(None),
        }
    }

    /// Enters a loop: `break` goes to `end_bb`.
    fn enter_loop(&mut self, end_bb: usize)
        ensures
            final(self)@ == (GenV {
                loop_exits: old(self)@.loop_exits.push(end_bb),
                ..old(self)@
            }),
    {
        self.loop_exits.push(end_bb);
        assert(self@ =~= GenV { loop_exits: old(self)@.loop_exits.push(end_bb), ..old(self)@ });
    }

    /// Leaves a loop.
    fn leave_loop(&mut self)
        ensures
            final(self)@ == (GenV { loop_exits: lowering::popped(old(self)@.loop_exits), ..old(self)@ }),
    {
        let _ = self.loop_exits.pop();
        assert(self@ =~= GenV { loop_exits: lowering::popped(old(self)@.loop_exits), ..old(self)@ });
    }

    /// `while`
    fn emit_while(&mut self, k: &ExprKind) -> (r: Result<Option<Val>, CodegenError>)
        requires
            k is While,
        ensures
            lowering::built(final(self)@, r, lowering::lower_while(ast::kind_v(*k), old(self)@)),
        decreases *k, 7int,
    {
        match k {
            ExprKind::While { cond, body } => {
                let cond_bb = self.new_block("while.cond");
                let body_bb = self.new_block("while.body");
                let end_bb = self.new_block("while.end");
                self.jump(cond_bb);
                self.go_to(cond_bb);
                let cv = self.emit_value(cond, "while cond")?;
                let _ = self.put(Op::CondBr { cond: cv, yes: body_bb, no: end_bb });
                self.enter_loop(end_bb);
                self.go_to(body_bb);
                let _ = self.emit_expr(body)?;
                self.jump_unless_ended(cond_bb);
                self.leave_loop();
                self.go_to(end_bb);
                Ok(None)
            },
            _ => Ok(None),
        }
    }

    /// `loop`
    fn emit_loop(&mut self, k: &ExprKind) -> (r: Result<Option<Val>, CodegenError>)
        requires
            k is Loop,
        ensures
            lowering::built(final(self)@, r, lowering::lower_loop(ast::kind_v(*k), old(self)@)),
        decreases *k, 7int,
    {
        match k {
            ExprKind::Loop { body } => {
                let body_bb = self.new_block("loop.body");
                let end_bb = self.new_block("loop.end");
                self.jump(body_bb);
                self.enter_loop(end_bb);
                self.go_to(body_bb);
                let _ = self.emit_expr(body)?;
                self.jump_unless_ended(body_bb);
                self.leave_loop();
                self.go_to(end_bb);
                Ok(None)
            },
            _ => Ok(None),
        }
    }

    /// An array literal.
    fn emit_array_lit(&mut self, elem_ty: &Type, elems: &Vec<Expr>) -> (r: Result<
        Val,
        CodegenError,
    >)
        ensures
            lowering::built(final(self)@, r, lowering::lower_array(elem_ty@, ast::exprs_v(elems@), old(self)@)),
        decreases elems@, 0int,
    {
        let at = llvm_array_type(elem_ty, elems.len() as u32)?;
        let func = self.func;
        let op = Op::EntryAlloca {
            func,
            ty: at.dup(),
            name: String::from_str("arrtmp"),
            zeroed: false,
        };
        let slot = self.make(op);
        let ghost g1 = self@;
        let mut i: usize = 0;
        while i < elems.len()
            invariant
                i <= elems@.len(),
                lowering::lower_elems(at@, slot@, ast::exprs_v(elems@), 0, g1) == lowering::lower_elems(
                    at@,
                    slot@,
                    ast::exprs_v(elems@),
                    i as int,
                    self@,
                ),
                lowering::lower_array(elem_ty@, ast::exprs_v(elems@), old(self)@) == (match lowering::lower_elems(
                    at@,
                    slot@,
                    ast::exprs_v(elems@),
                    0,
                    g1,
                ) {
                    c => match c.r {
                        Err(err) => Gen { g: c.g, r: Err(err) },
                        Ok(_) => lowering::done(c.g, slot@),
                    },
                }),
            decreases elems@.len() - i,
        {
            assert(ast::exprs_v(elems@)[i as int] == ast::expr_v(elems@[i as int]));
            let v = self.emit_value(&elems[i], "array elem")?;
            let index = Val::Int(Prim::I32, i as i64);
            let ptr = self.make(
                Op::ElemPtr {
                    ty: at.dup(),
                    ptr: slot.dup(),
                    index,
                    name: String::from_str("elemptr"),
                },
            );
            let _ = self.put(Op::Store { ptr, val: v });
            i += 1;
        }
        Ok(slot)
    }

    /// `field`
    fn emit_field(&mut self, k: &ExprKind) -> (r: Result<Val, CodegenError>)
        requires
            k is Field,
        ensures
            lowering::built(final(self)@, r, lowering::lower_field(ast::kind_v(*k), old(self)@)),
        decreases *k, 7int,
    {
        match k {
            ExprKind::Field { base, field } => {
                proof {
                    reveal_with_fuel(ast::expr_v, 2);
                    reveal_with_fuel(ast::kind_v, 3);
                }
                let n = match expr_ty(base)? {
                    Type::Named(n) => n,
                    _ => return internal("field on non-struct"),
                };
                let fields = match self.structs.get(n) {
                    Some(s) => s.fields.dup(),
                    None => return internal_about("no struct ", n.as_str()),
                };
                let i: usize = match field_index(&fields, field.as_str()) {
                    Some(i) => i,
                    None => return internal_about("no field ", field.as_str()),
                };
                match &base.kind {
                    ExprKind::Var(name) => match local_named(&self.locals, name.as_str()) {
                        None => internal_about("field unresolved ", name.as_str()),
                        Some(l) => {
                            let st = self.llvm_basic(&Type::Named(n.dup()))?;
                            let ptr = self.make(
                                Op::FieldPtr {
                                    ty: st,
                                    ptr: l.ptr,
                                    index: i as u32,
                                    name: field.dup(),
                                },
                            );
                            let v = self.load(&ptr, &fields[i].ty, field.as_str())?;
                            self.emit_retain(v, &fields[i].ty)
                        },
                    },
                    _ => {
                        let bv = self.emit_value(base, "field base")?;
                        let v = self.make(
                            Op::Extract { agg: bv, index: i as u32, name: field.dup() },
                        );
                        self.emit_retain(v, &fields[i].ty)
                    },
                }
            },
            _ => Ok(Val::Null),
        }
    }

    /// A payload as the bits that an enum holds.
    pub(crate) fn pack_payload(&mut self, v: Val, ty: &Type) -> (r: Result<Val, CodegenError>)
        ensures
            lowering::built(final(self)@, r, lowering::lower_pack(old(self)@, v@, ty@)),
    {
        match ty {
            Type::I64 => Ok(v),
            Type::I32 | Type::Bool => Ok(self.convert(ConvOp::ZeroExtend, v, Prim::I64, "zext")),
            Type::F64 => Ok(self.convert(ConvOp::BitCast, v, Prim::I64, "f64bits")),
            Type::F32 => {
                let low = self.convert(ConvOp::BitCast, v, Prim::I32, "f32bits");
                Ok(self.convert(ConvOp::ZeroExtend, low, Prim::I64, "f32zext"))
            },
            _ => internal_about("cannot pack payload type ", ty.to_text().as_str()),
        }
    }

    /// The payload that the bits of an enum stand for.
    fn unpack_payload(&mut self, bits: &Val, ty: &Type) -> (r: Result<Val, CodegenError>)
        ensures
            lowering::built(final(self)@, r, lowering::lower_unpack(old(self)@, bits@, ty@)),
    {
        let v = bits.dup();
        match ty {
            Type::I64 => Ok(v),
            Type::I32 => Ok(self.convert(ConvOp::Truncate, v, Prim::I32, "trunc")),
            Type::Bool => Ok(self.convert(ConvOp::Truncate, v, Prim::I1, "truncb")),
            Type::F64 => Ok(self.convert(ConvOp::BitCast, v, Prim::F64, "f64")),
            Type::F32 => {
                let low = self.convert(ConvOp::Truncate, v, Prim::I32, "f32lo");
                Ok(self.convert(ConvOp::BitCast, low, Prim::F32, "f32"))
            },
            _ => internal_about("cannot unpack payload type ", ty.to_text().as_str()),
        }
    }

    /// The blocks of match arms, with their tags.
    fn arm_blocks(&mut self, arms: &Vec<MatchArm>) -> (r: Result<Vec<(u32, usize)>, CodegenError>)
        ensures
            lowering::built(final(self)@, r, lowering::lower_arm_blocks(ast::arms_v(arms@), 0, Seq::empty(), old(self)@)),
            r matches Ok(cases) ==> cases@.len() == arms@.len(),
    {
        let mut cases: Vec<(u32, usize)> = Vec::new();
        let mut i: usize = 0;
        assert(cases.deep_view() =~= Seq::empty());
        while i < arms.len()
            invariant
                i <= arms@.len(),
                cases@.len() == i,
                lowering::lower_arm_blocks(ast::arms_v(arms@), 0, Seq::empty(), old(self)@) == lowering::lower_arm_blocks(
                    ast::arms_v(arms@),
                    i as int,
                    cases.deep_view(),
                    self@,
                ),
            decreases arms@.len() - i,
        {
            assert(ast::arms_v(arms@)[i as int] == ast::arm_v(arms@[i as int]));
            let tag: u32 = match self.variants.get(&arms[i].variant) {
                Some(info) => info.tag,
                None => return internal_about("unknown variant ", arms[i].variant.as_str()),
            };
            let name = joined("match.", arms[i].variant.as_str());
            let bb = self.new_block(name.as_str());
            let ghost before = cases.deep_view();
            cases.push((tag, bb));
            assert(cases.deep_view() =~= before.push((tag, bb)));
            i += 1;
        }
        Ok(cases)
    }

    /// Puts the payload of an arm into a variable.
    fn bind_payload(&mut self, arm: &MatchArm, payload: &Val) -> (r: Result<
        Option<Before>,
        CodegenError,
    >)
        requires
            old(self)@.variants.contains_key(arm.variant@),
        ensures
            lowering::built(final(self)@, r, lowering::lower_arm_binding(ast::arm_v(*arm), payload@, old(self)@)),
            r matches Ok(Some(p)) ==> (p.1 matches Some(l) ==> l.name@ == p.0@),
    {
        let pty = match self.variants.get(&arm.variant) {
            Some(info) => info.payload.dup(),
            None => None,
        };
        match (pty, &arm.binding) {
            (Some(pty), Some(name)) => {
                let v = self.unpack_payload(payload, &pty)?;
                let slot = self.create_entry_alloca(name.as_str(), &pty)?;
                let _ = self.put(Op::Store { ptr: slot.dup(), val: v });
                let ghost was = self@;
                let l = Local { name: name.dup(), ptr: slot, ty: pty };
                let before = put_local(&mut self.locals, l);
                proof {
                    lemma_found(was.locals, name@, 0);
                }
                assert(self@ =~= GenV { locals: lowering::with_local(was.locals, l@), ..was });
                Ok(Some((name.dup(), before)))
            },
            (_, Some(name)) => Ok(Some((name.dup(), None))),
            _ => Ok(None),
        }
    }

    /// The bodies of match arms.
    #[verifier::rlimit(40)]
    fn emit_arms(
        &mut self,
        arms: &Vec<MatchArm>,
        cases: &Vec<(u32, usize)>,
        payload: &Val,
        merge_bb: usize,
        unit: bool,
    ) -> (r: Result<Vec<(Val, usize)>, CodegenError>)
        requires
            cases@.len() == arms@.len(),
        ensures
            lowering::built(
                final(self)@,
                r,
                lowering::lower_arms(
                    ast::arms_v(arms@),
                    0,
                    cases.deep_view(),
                    payload@,
                    merge_bb,
                    unit,
                    Seq::empty(),
                    old(self)@,
                ),
            ),
        decreases arms@, 0int,
    {
        let mut incoming: Vec<(Val, usize)> = Vec::new();
        let mut i: usize = 0;
        assert(incoming.deep_view() =~= Seq::empty());
        while i < arms.len()
            invariant
                i <= arms@.len(),
                cases@.len() == arms@.len(),
                lowering::lower_arms(
                    ast::arms_v(arms@),
                    0,
                    cases.deep_view(),
                    payload@,
                    merge_bb,
                    unit,
                    Seq::empty(),
                    old(self)@,
                ) == lowering::lower_arms(
                    ast::arms_v(arms@),
                    i as int,
                    cases.deep_view(),
                    payload@,
                    merge_bb,
                    unit,
                    incoming.deep_view(),
                    self@,
                ),
            decreases arms@.len() - i,
        {
            let arm = &arms[i];
            assert(ast::arms_v(arms@)[i as int] == ast::arm_v(*arm));
            assert(cases.deep_view()[i as int] == cases@[i as int].deep_view());
            self.go_to(cases[i].1);
            if !self.variants.has(&arm.variant) {
                return internal_about("unknown variant ", arm.variant.as_str());
            }
            let prev = self.bind_payload(arm, payload)?;
            let v = self.emit_expr(&arm.body)?;
            let end_bb = self.block;
            let reached = !self.block_terminated();
            self.jump_unless_ended(merge_bb);
            if let Some(p) = prev {
                let ghost was = self@;
                restore_local(&mut self.locals, p.0.as_str(), p.1);
                assert(self@ =~= GenV { locals: lowering::restored(was.locals, p.deep_view()), ..was });
            }
            if reached && !unit {
                let ghost before = incoming.deep_view();
                let x = owed(v, "match arm value")?;
                incoming.push((x, end_bb));
                assert(incoming.deep_view() =~= before.push((x@, end_bb)));
            }
            i += 1;
        }
        Ok(incoming)
    }

    /// `match`
    fn emit_match(&mut self, k: &ExprKind, ty: &Type) -> (r: Result<Option<Val>, CodegenError>)
        requires
            k is Match,
        ensures
            lowering::built(final(self)@, r, lowering::lower_match(ast::kind_v(*k), ty@, old(self)@)),
        decreases *k, 7int,
    {
        match k {
            ExprKind::Match { scrutinee, arms } => {
                proof {
                    reveal_with_fuel(ast::expr_v, 2);
                }
                let _ = expr_ty(scrutinee)?;
                let ev = self.emit_value(scrutinee, "match scrutinee")?;
                let tag = self.make(
                    Op::Extract { agg: ev.dup(), index: 0, name: String::from_str("mtag") },
                );
                let payload = self.make(
                    Op::Extract { agg: ev, index: 1, name: String::from_str("mpayload") },
                );
                let merge_bb = self.new_block("match.end");
                let else_bb = self.new_block("match.unreachable");
                let cases = self.arm_blocks(arms)?;
                let _ = self.put(Op::Switch { val: tag, default: else_bb, cases: cases.dup() });
                let unit = matches!(ty, Type::Unit);
                let incoming = self.emit_arms(arms, &cases, &payload, merge_bb, unit)?;
                self.go_to(else_bb);
                let _ = self.put(Op::Unreachable);
                self.go_to(merge_bb);
                if unit {
                    return Ok(None);
                }
                let lt = self.llvm_basic(ty)?;
                Ok(Some(self.make(Op::Phi { ty: lt, incoming, name: String::from_str("matchtmp") })))
            },
            _ => Ok(None),
        }
    }
}

/// A variable that is found has the name that was looked for.
proof fn lemma_found(ls: Seq<LocalV>, name: Seq<char>, i: int)
    requires
        0 <= i,
    ensures
        lowering::local_at(ls, name, i) matches Some(j) ==> i <= j < ls.len() && ls[j].name == name,
    decreases ls.len() - i,
{
    if i < ls.len() && ls[i].name != name {
        lemma_found(ls, name, i + 1);
    }
}

} // verus!
