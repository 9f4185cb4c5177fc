//! Code generator: functions and programs.
use crate::ast::{Expr, ExprKind, Function, ImplBlock, Param, Program, TopLevel, Type};
use crate::ast;
use crate::codegen::{Codegen, internal, internal_about, local_named, put_local, types_of};
use crate::ir::{LTy, LTyV, Op, Prim, Val};
use crate::lowering::{CodegenError, GenV, Local, RuntimeFn};
use crate::lowering;
use crate::text::{Dup, same_text};
use crate::text;
use crate::typeck::{mangle_method, TypeCk};
use crate::typing::{FnSig, FnSigV};
use crate::typing;
use vstd::prelude::*;
use vstd::string::*;

verus! {

/// A function of the run time that is called by its symbol.
fn runtime_named(name: &str, params: Vec<LTy>, ret: Option<LTy>) -> (r: RuntimeFn)
    ensures
        r@ == lowering::runtime_fn(name@, params.deep_view(), ret.deep_view()),
{
    RuntimeFn {
        key: String::from_str(name),
        name: String::from_str(name),
        params,
        ret,
        vararg: false,
    }
}

fn no_types() -> (r: Vec<LTy>)
    ensures
        r.deep_view() == Seq::<LTyV>::empty(),
{
    let r: Vec<LTy> = Vec::new();
    assert(r.deep_view() =~= Seq::empty());
    r
}

fn one_type(p: Prim) -> (r: Vec<LTy>)
    ensures
        r.deep_view() == seq![LTyV::One(p)],
{
    let r = vec![LTy::One(p)];
    assert(r.deep_view() =~= seq![LTyV::One(p)]);
    r
}

fn two_types(p: Prim, q: Prim) -> (r: Vec<LTy>)
    ensures
        r.deep_view() == seq![LTyV::One(p), LTyV::One(q)],
{
    let r = vec![LTy::One(p), LTy::One(q)];
    assert(r.deep_view() =~= seq![LTyV::One(p), LTyV::One(q)]);
    r
}

/// The functions that programs are linked with.
#[verifier::rlimit(50)]
fn runtime_fns() -> (r: Vec<RuntimeFn>)
    ensures
        r.deep_view() == lowering::runtime(),
{
    let p = Prim::Ptr;
    let i = Prim::I32;
    let l = Prim::I64;
    let r = vec![
        RuntimeFn {
            key: String::from_str("__puts"),
            name: String::from_str("puts"),
            params: one_type(p),
            ret: Some(LTy::One(i)),
            vararg: false,
        },
        RuntimeFn {
            key: String::from_str("__printf"),
            name: String::from_str("printf"),
            params: one_type(p),
            ret: Some(LTy::One(i)),
            vararg: true,
        },
        runtime_named("risp_str_from_cstr", one_type(p), Some(LTy::One(p))),
        runtime_named("risp_str_retain", one_type(p), Some(LTy::One(p))),
        runtime_named("risp_str_release", one_type(p), None),
        runtime_named("risp_str_concat", two_types(p, p), Some(LTy::One(p))),
        runtime_named("risp_str_len", one_type(p), Some(LTy::One(i))),
        runtime_named("risp_str_cstr", one_type(p), Some(LTy::One(p))),
        runtime_named("risp_box_alloc", one_type(l), Some(LTy::One(p))),
        runtime_named("risp_box_free", one_type(p), None),
        runtime_named("risp_vec_i32_new", no_types(), Some(LTy::One(p))),
        runtime_named("risp_vec_i32_push", two_types(p, i), None),
        runtime_named("risp_vec_i32_get", two_types(p, i), Some(LTy::One(i))),
        runtime_named("risp_vec_i32_len", one_type(p), Some(LTy::One(i))),
        runtime_named("risp_vec_i32_free", one_type(p), None),
        runtime_named("risp_rc_alloc", one_type(l), Some(LTy::One(p))),
        runtime_named("risp_rc_retain", one_type(p), Some(LTy::One(p))),
        runtime_named("risp_rc_release_strong", one_type(p), Some(LTy::One(i))),
        runtime_named("risp_rc_after_payload_drop", one_type(p), None),
        runtime_named("risp_weak_from", one_type(p), Some(LTy::One(p))),
        runtime_named("risp_weak_upgrade", one_type(p), Some(LTy::One(p))),
        runtime_named("risp_weak_release", one_type(p), None),
    ];
    assert(r.deep_view() =~= lowering::runtime());
    r
}

/// The symbol of a method.
fn method_name(ib: &ImplBlock, m: &Function) -> (r: String)
    ensures
        r@ == typing::method_symbol(ib@.trait_name, ib@.for_ty, m@.name),
{
    mangle_method(ib.trait_name.as_str(), &ib.for_ty, m.name.as_str())
}

impl Codegen {
    /// Returns from a function; the variables are released before.
    fn emit_return(&mut self, v: Option<Val>, ret: &Type) -> (r: Result<(), CodegenError>)
        ensures
            lowering::built(final(self)@, r, lowering::lower_return(old(self)@, v.deep_view(), ret@)),
    {
        let kept: Vec<Local> = Vec::new();
        assert(kept.deep_view() =~= Seq::empty());
        self.release_drop_locals(&kept, "drop.local", false)?;
        if matches!(ret, Type::Unit) {
            let _ = self.put(Op::Ret(None));
            return Ok(());
        }
        match v {
            Some(x) => {
                let _ = self.put(Op::Ret(Some(x)));
                Ok(())
            },
            None => internal("tail expr produced no value but return type is non-unit"),
        }
    }

    /// Stores new values in the parameters.
    fn store_params(&mut self, vs: &Vec<Val>) -> (r: Result<(), CodegenError>)
        ensures
            lowering::built(
                final(self)@,
                r,
                lowering::lower_new_params(old(self)@.param_names, vs.deep_view(), 0, old(self)@),
            ),
    {
        let names = self.param_names.dup();
        let mut i: usize = 0;
        while i < names.len() && i < vs.len()
            invariant
                i <= names@.len(),
                i <= vs@.len(),
                names.deep_view() == old(self)@.param_names,
                lowering::lower_new_params(names.deep_view(), vs.deep_view(), 0, old(self)@)
                    == lowering::lower_new_params(names.deep_view(), vs.deep_view(), i as int, self@),
            decreases names@.len() - i,
        {
            assert(names.deep_view()[i as int] == names@[i as int]@);
            assert(vs.deep_view()[i as int] == vs@[i as int]@);
            match local_named(&self.param_locals, names[i].as_str()) {
                None => return internal_about("unknown parameter ", names[i].as_str()),
                Some(l) => {
                    self.store_owned(&l.ptr, vs[i].dup(), &l.ty)?;
                },
            }
            i += 1;
        }
        Ok(())
    }

    /// A tail call of a function to itself: the parameters get the values of the
    /// arguments, and control goes back to the start of the body.
    fn emit_self_tco(&mut self, args: &Vec<Expr>) -> (r: Result<(), CodegenError>)
        ensures
            lowering::built(final(self)@, r, lowering::lower_self_call(ast::exprs_v(args@), old(self)@)),
    {
        if args.len() != self.param_names.len() {
            return internal("self-TCO arity mismatch (typeck should have caught this)");
        }
        let vs = self.emit_args(args, "tco arg")?;
        let kept = self.param_locals.dup();
        self.release_drop_locals(&kept, "tco.drop", true)?;
        self.store_params(&vs)?;
        match self.loop_header {
            None => internal("TCO without loop header"),
            Some(bb) => {
                self.jump(bb);
                Ok(())
            },
        }
    }

    /// All but the last expression of a `do` in tail position.
    fn emit_tail_do(&mut self, es: &Vec<Expr>) -> (r: Result<(), CodegenError>)
        requires
            es@.len() > 0,
        ensures
            lowering::built(final(self)@, r, lowering::lower_tail_do(ast::exprs_v(es@), 0, old(self)@)),
    {
        let last = es.len() - 1;
        let mut i: usize = 0;
        while i < last
            invariant
                i <= last == es@.len() - 1,
                lowering::lower_tail_do(ast::exprs_v(es@), 0, old(self)@) == lowering::lower_tail_do(
                    ast::exprs_v(es@),
                    i as int,
                    self@,
                ),
            decreases last - i,
        {
            assert(ast::exprs_v(es@)[i as int] == ast::expr_v(es@[i as int]));
            let v = self.emit_expr(&es[i])?;
            self.drop_unused(&es[i], v)?;
            i += 1;
        }
        Ok(())
    }

    /// An expression in tail position.
    #[verifier::rlimit(20)]
    fn emit_tail(&mut self, e: &Expr, ret: &Type) -> (r: Result<(), CodegenError>)
        ensures
            lowering::built(final(self)@, r, lowering::lower_tail(ast::expr_v(*e), ret@, old(self)@)),
        decreases *e,
    {
        proof {
            reveal_with_fuel(ast::expr_v, 2);
            reveal_with_fuel(ast::kind_v, 2);
        }
        match &e.kind {
            ExprKind::If { cond, then_branch, else_branch } => {
                let cv = self.emit_value(cond, "if cond")?;
                let then_bb = self.new_block("then.tail");
                let else_bb = self.new_block("else.tail");
                let _ = self.put(Op::CondBr { cond: cv, yes: then_bb, no: else_bb });
                self.go_to(then_bb);
                self.emit_tail(then_branch, ret)?;
                self.go_to(else_bb);
                self.emit_tail(else_branch, ret)
            },
            ExprKind::Let { bindings, body } => {
                let prev = self.bind_locals(bindings)?;
                self.emit_tail(body, ret)?;
                self.restore_locals(prev);
                Ok(())
            },
            ExprKind::Do(es) => {
                let n = es.len();
                if n == 0 {
                    return self.emit_return(None, ret);
                }
                assert(ast::exprs_v(es@)[n - 1] == ast::expr_v(es@[n - 1]));
                self.emit_tail_do(es)?;
                self.emit_tail(&es[n - 1], ret)
            },
            ExprKind::Call { callee, args } => {
                let to_itself = match &self.current_fn {
                    Some(f) => same_text(f.as_str(), callee.as_str()),
                    None => false,
                };
                if to_itself {
                    self.emit_self_tco(args)
                } else {
                    let v = self.emit_expr(e)?;
                    self.emit_return(v, ret)
                }
            },
            _ => {
                let v = self.emit_expr(e)?;
                self.emit_return(v, ret)
            },
        }
    }

    /// The parameters of a function, each in a slot.
    fn emit_params(&mut self, params: &Vec<Param>) -> (r: Result<(), CodegenError>)
        ensures
            lowering::built(final(self)@, r, lowering::lower_params(params.deep_view(), 0, old(self)@)),
    {
        let mut i: usize = 0;
        while i < params.len()
            invariant
                i <= params@.len(),
                lowering::lower_params(params.deep_view(), 0, old(self)@) == lowering::lower_params(
                    params.deep_view(),
                    i as int,
                    self@,
                ),
            decreases params@.len() - i,
        {
            let p = &params[i];
            assert(params.deep_view()[i as int] == p@);
            let slot = self.create_entry_alloca(p.name.as_str(), &p.ty)?;
            let _ = self.put(Op::Store { ptr: slot.dup(), val: Val::Arg(i as u32) });
            let ghost was = self@;
            let l = Local { name: p.name.dup(), ptr: slot, ty: p.ty.dup() };
            let _ = put_local(&mut self.locals, l);
            self.param_names.push(p.name.dup());
            assert(self.param_names.deep_view() =~= was.param_names.push(p.name@));
            assert(self@ =~= GenV {
                locals: lowering::with_local(was.locals, l@),
                param_names: was.param_names.push(p.name@),
                ..was
            });
            i += 1;
        }
        Ok(())
    }

    /// A function.
    fn emit_function(&mut self, name: &String, params: &Vec<Param>, ret: &Type, body: &Expr) -> (r:
        Result<(), CodegenError>)
        ensures
            lowering::built(
                final(self)@,
                r,
                lowering::lower_function(name@, params.deep_view(), ret@, ast::expr_v(*body), old(self)@),
            ),
    {
        let func: usize = match self.fns.get(name) {
            Some(f) => *f,
            None => return internal_about("undef fn ", name.as_str()),
        };
        self.func = func;
        let entry = self.new_block("entry");
        let loop_bb = self.new_block("loop");
        self.go_to(entry);
        let ghost g2 = self@;
        self.locals = Vec::new();
        self.param_names = Vec::new();
        assert(self@ =~= GenV { locals: Seq::empty(), param_names: Seq::empty(), ..g2 });
        self.emit_params(params)?;
        let ghost g3 = self@;
        self.param_locals = self.locals.dup();
        self.current_fn = Some(name.dup());
        self.loop_header = Some(loop_bb);
        assert(self@ =~= GenV {
            param_locals: g3.locals,
            current_fn: Some(name@),
            loop_header: Some(loop_bb),
            ..g3
        });
        self.jump(loop_bb);
        self.go_to(loop_bb);
        self.emit_tail(body, ret)?;
        let ghost g5 = self@;
        self.current_fn = None;
        self.loop_header = None;
        self.param_locals = Vec::new();
        self.param_names = Vec::new();
        assert(self@ =~= GenV {
            current_fn: None,
            loop_header: None,
            param_locals: Seq::empty(),
            param_names: Seq::empty(),
            ..g5
        });
        Ok(())
    }

    /// Declares the functions of the run time.
    fn declare_runtime_fns(&mut self)
        ensures
            final(self)@ == lowering::declare_runtime(lowering::runtime(), 0, old(self)@),
    {
        let fs = runtime_fns();
        let mut i: usize = 0;
        while i < fs.len()
            invariant
                i <= fs@.len(),
                lowering::declare_runtime(fs.deep_view(), 0, old(self)@) == lowering::declare_runtime(
                    fs.deep_view(),
                    i as int,
                    self@,
                ),
            decreases fs@.len() - i,
        {
            let f = &fs[i];
            assert(fs.deep_view()[i as int] == f@);
            let ghost was = self@;
            let at = self.put(
                Op::AddFunction {
                    name: f.name.dup(),
                    params: f.params.dup(),
                    ret: f.ret.dup(),
                    vararg: f.vararg,
                },
            );
            self.fns.put(f.key.dup(), at);
            assert(self@ =~= lowering::declare_one(was, f@));
            i += 1;
        }
    }

    /// The machine types of parameters.
    fn llvm_types(&self, tys: &Vec<Type>) -> (r: Result<Vec<LTy>, CodegenError>)
        ensures
            text::outcome(r) == lowering::lower_types(self@, tys.deep_view(), 0, Seq::empty()),
    {
        let mut out: Vec<LTy> = Vec::new();
        let mut i: usize = 0;
        assert(out.deep_view() =~= Seq::empty());
        while i < tys.len()
            invariant
                i <= tys@.len(),
                lowering::lower_types(self@, tys.deep_view(), 0, Seq::empty()) == lowering::lower_types(
                    self@,
                    tys.deep_view(),
                    i as int,
                    out.deep_view(),
                ),
            decreases tys@.len() - i,
        {
            assert(tys.deep_view()[i as int] == tys@[i as int]@);
            let t = self.llvm_basic(&tys[i])?;
            let ghost before = out.deep_view();
            out.push(t);
            assert(out.deep_view() =~= before.push(t@));
            i += 1;
        }
        Ok(out)
    }

    /// Declares a function of the program.
    fn declare_function(&mut self, name: String, params: &Vec<Param>, ret: &Type) -> (r: Result<
        (),
        CodegenError,
    >)
        ensures
            lowering::built(
                final(self)@,
                r,
                lowering::declare_fn(old(self)@, name@, typing::param_types(params.deep_view()), ret@),
            ),
    {
        let tys = types_of(params);
        let ps = self.llvm_types(&tys)?;
        let rt = if matches!(ret, Type::Unit) {
            None
        } else {
            Some(self.llvm_basic(ret)?)
        };
        let ghost was = self@;
        let at = self.put(
            Op::AddFunction { name: name.dup(), params: ps, ret: rt, vararg: false },
        );
        let ghost g1 = self@;
        let sig = FnSig { params: tys, ret: ret.dup() };
        self.fns.put(name.dup(), at);
        self.fn_types.put(name, sig);
        assert(self@ =~= GenV {
            fns: g1.fns.insert(name@, lowering::next(was)),
            fn_types: g1.fn_types.insert(
                name@,
                FnSigV { params: typing::param_types(params.deep_view()), ret: ret@ },
            ),
            ..g1
        });
        Ok(())
    }

    /// Declares the methods of an impl.
    fn declare_methods_of(&mut self, ib: &ImplBlock) -> (r: Result<(), CodegenError>)
        ensures
            lowering::built(final(self)@, r, lowering::declare_methods(ib@, 0, old(self)@)),
    {
        let mut i: usize = 0;
        while i < ib.methods.len()
            invariant
                i <= ib.methods@.len(),
                lowering::declare_methods(ib@, 0, old(self)@) == lowering::declare_methods(ib@, i as int, self@),
            decreases ib.methods@.len() - i,
        {
            let m = &ib.methods[i];
            assert(ib@.methods[i as int] == m@);
            self.declare_function(method_name(ib, m), &m.params, &m.ret)?;
            i += 1;
        }
        Ok(())
    }

    /// Declares the functions of a program.
    fn declare_all(&mut self, items: &Vec<TopLevel>) -> (r: Result<(), CodegenError>)
        ensures
            lowering::built(final(self)@, r, lowering::declare_items(items.deep_view(), 0, old(self)@)),
    {
        let mut i: usize = 0;
        while i < items.len()
            invariant
                i <= items@.len(),
                lowering::declare_items(items.deep_view(), 0, old(self)@) == lowering::declare_items(
                    items.deep_view(),
                    i as int,
                    self@,
                ),
            decreases items@.len() - i,
        {
            assert(items.deep_view()[i as int] == items@[i as int]@);
            match &items[i] {
                TopLevel::Function(f) => self.declare_function(f.name.dup(), &f.params, &f.ret)?,
                TopLevel::Extern(e) => self.declare_function(e.name.dup(), &e.params, &e.ret)?,
                TopLevel::Impl(ib) => self.declare_methods_of(ib)?,
                _ => {},
            }
            i += 1;
        }
        Ok(())
    }

    /// The constants of a program; they are literals.
    fn emit_consts(&mut self, items: &Vec<TopLevel>) -> (r: Result<(), CodegenError>)
        ensures
            lowering::built(final(self)@, r, lowering::lower_consts(items.deep_view(), 0, old(self)@)),
    {
        let mut i: usize = 0;
        while i < items.len()
            invariant
                i <= items@.len(),
                lowering::lower_consts(items.deep_view(), 0, old(self)@) == lowering::lower_consts(
                    items.deep_view(),
                    i as int,
                    self@,
                ),
            decreases items@.len() - i,
        {
            assert(items.deep_view()[i as int] == items@[i as int]@);
            if let TopLevel::Const(c) = &items[i] {
                proof {
                    reveal_with_fuel(ast::expr_v, 2);
                    reveal_with_fuel(ast::kind_v, 2);
                }
                match &c.value.kind {
                    ExprKind::Lit(l) => {
                        let v = self.emit_lit(l, &c.ty);
                        let ghost was = self@;
                        self.consts.put(c.name.dup(), (c.ty.dup(), v));
                        assert(self@ =~= GenV {
                            consts: was.consts.insert(c.name@, (c.ty@, v@)),
                            ..was
                        });
                    },
                    _ => return internal("only literal constants supported in `def` for MVP"),
                }
            }
            i += 1;
        }
        Ok(())
    }

    /// The methods of an impl.
    fn emit_methods(&mut self, ib: &ImplBlock) -> (r: Result<(), CodegenError>)
        ensures
            lowering::built(final(self)@, r, lowering::lower_methods(ib@, 0, old(self)@)),
    {
        let mut i: usize = 0;
        while i < ib.methods.len()
            invariant
                i <= ib.methods@.len(),
                lowering::lower_methods(ib@, 0, old(self)@) == lowering::lower_methods(ib@, i as int, self@),
            decreases ib.methods@.len() - i,
        {
            let m = &ib.methods[i];
            assert(ib@.methods[i as int] == m@);
            self.emit_function(&method_name(ib, m), &m.params, &m.ret, &m.body)?;
            i += 1;
        }
        Ok(())
    }

    /// The bodies of a program.
    fn emit_bodies(&mut self, items: &Vec<TopLevel>) -> (r: Result<(), CodegenError>)
        ensures
            lowering::built(final(self)@, r, lowering::lower_items(items.deep_view(), 0, old(self)@)),
    {
        let mut i: usize = 0;
        while i < items.len()
            invariant
                i <= items@.len(),
                lowering::lower_items(items.deep_view(), 0, old(self)@) == lowering::lower_items(
                    items.deep_view(),
                    i as int,
                    self@,
                ),
            decreases items@.len() - i,
        {
            assert(items.deep_view()[i as int] == items@[i as int]@);
            match &items[i] {
                TopLevel::Function(f) => self.emit_function(&f.name, &f.params, &f.ret, &f.body)?,
                TopLevel::Impl(ib) => self.emit_methods(ib)?,
                _ => {},
            }
            i += 1;
        }
        Ok(())
    }

    /// Lowers a checked program.
    pub fn compile_program(&mut self, prog: &Program, tyck: &TypeCk) -> (r: Result<
        (),
        CodegenError,
    >)
        requires
            typing::plain_types(tyck@),
        ensures
            lowering::built(final(self)@, r, lowering::lower_program(prog@, tyck@, old(self)@)),
    {
        self.structs = tyck.structs.copy();
        self.enums = tyck.enums.copy();
        self.variants = tyck.variants.copy();
        self.externs = tyck.externs.copy();
        assert(self@ =~= GenV {
            structs: tyck@.structs,
            enums: tyck@.enums,
            variants: tyck@.variants,
            externs: tyck@.externs,
            ..old(self)@
        });
        self.declare_runtime_fns();
        self.declare_all(&prog.items)?;
        self.emit_consts(&prog.items)?;
        self.emit_bodies(&prog.items)
    }
}

} // verus!
