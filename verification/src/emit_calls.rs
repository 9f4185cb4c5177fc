//! Code generator: calls.
use crate::ast::{Expr, Type};
use crate::ast;
use crate::codegen::{
    Codegen, expr_ty, internal, internal_about, llvm_array_type, llvm_enum_ty, one, two,
};
use crate::ir::{BinOp, ConvOp, LTy, Op, Pred, Prim, Val};
use crate::lowering::CodegenError;
use crate::lowering;
use crate::text::{Dup, same_text};
use crate::typeck::{is_comparison, is_numeric};
use crate::typing::VariantInfo;
use vstd::prelude::*;
use vstd::string::*;

verus! {

impl Codegen {
    /// A call.
    pub(crate) fn emit_call(&mut self, callee: &String, args: &Vec<Expr>, ty: &Type) -> (r: Result<
        Option<Val>,
        CodegenError,
    >)
        ensures
            lowering::built(final(self)@, r, lowering::lower_call(callee@, ast::exprs_v(args@), ty@, old(self)@)),
        decreases args@, 2int,
    {
        let name = callee.as_str();
        if same_text(name, "+") || same_text(name, "-") || same_text(name, "*") || same_text(
            name,
            "/",
        ) || same_text(name, "mod") {
            Ok(Some(self.emit_arith_call(name, args, ty)?))
        } else if is_comparison(name) {
            Ok(Some(self.emit_test(name, args)?))
        } else if same_text(name, "and") {
            Ok(Some(self.emit_short_circuit(true, args)?))
        } else if same_text(name, "or") {
            Ok(Some(self.emit_short_circuit(false, args)?))
        } else if same_text(name, "not") {
            Ok(Some(self.emit_not(args)?))
        } else if same_text(name, "println") {
            self.emit_print(args, true)?;
            Ok(None)
        } else if same_text(name, "print") {
            self.emit_print(args, false)?;
            Ok(None)
        } else if same_text(name, "str-concat") {
            Ok(Some(self.emit_str_concat(args)?))
        } else if same_text(name, "str-len") {
            Ok(Some(self.emit_str_len(args)?))
        } else if same_text(name, "aget") {
            Ok(Some(self.emit_aget(args)?))
        } else if same_text(name, "aset!") {
            self.emit_aset(args)?;
            Ok(None)
        } else if same_text(name, "alen") {
            Ok(Some(self.emit_alen(args)?))
        } else if self.structs.has(callee) {
            Ok(Some(self.emit_struct_lit(callee, args)?))
        } else {
            match self.variants.get(callee) {
                Some(info) => {
                    let info = info.dup();
                    Ok(Some(self.emit_variant_lit(&info, args)?))
                },
                None => self.emit_fn_call(callee, args),
            }
        }
    }

    /// The values of arguments.
    pub(crate) fn emit_args(&mut self, args: &Vec<Expr>, msg: &str) -> (r: Result<
        Vec<Val>,
        CodegenError,
    >)
        ensures
            lowering::built(
                final(self)@,
                r,
                lowering::lower_args(ast::exprs_v(args@), 0, Seq::empty(), old(self)@, msg@),
            ),
        decreases args@, 0int,
    {
        let mut out: Vec<Val> = Vec::new();
        let mut i: usize = 0;
        assert(out.deep_view() =~= Seq::empty());
        while i < args.len()
            invariant
                i <= args@.len(),
                lowering::lower_args(ast::exprs_v(args@), 0, Seq::empty(), old(self)@, msg@) == lowering::lower_args(
                    ast::exprs_v(args@),
                    i as int,
                    out.deep_view(),
                    self@,
                    msg@,
                ),
            decreases args@.len() - i,
        {
            assert(ast::exprs_v(args@)[i as int] == ast::expr_v(args@[i as int]));
            let v = self.emit_value(&args[i], msg)?;
            let ghost before = out.deep_view();
            out.push(v);
            assert(out.deep_view() =~= before.push(v@));
            i += 1;
        }
        Ok(out)
    }

    /// One arithmetic operation.
    fn emit_arith(&mut self, op: &str, a: Val, b: Val, ty: &Type) -> (r: Result<Val, CodegenError>)
        ensures
            lowering::built(final(self)@, r, lowering::lower_bin(old(self)@, op@, a@, b@, ty@)),
    {
        if is_numeric(ty) {
            let (o, name) = operation(op, is_float_type(ty));
            Ok(self.make(Op::Bin { op: o, a, b, name: String::from_str(name) }))
        } else {
            internal_about("arith on ", ty.to_text().as_str())
        }
    }

    /// The change of a sign.
    fn emit_neg(&mut self, a: Val, ty: &Type) -> (r: Result<Val, CodegenError>)
        ensures
            lowering::built(final(self)@, r, lowering::lower_neg(old(self)@, a@, ty@)),
    {
        if is_numeric(ty) {
            let float = is_float_type(ty);
            let name = String::from_str(
                if float {
                    "fneg"
                } else {
                    "neg"
                },
            );
            Ok(self.make(Op::Neg { float, val: a, name }))
        } else {
            internal_about("neg on ", ty.to_text().as_str())
        }
    }

    /// Arithmetic on any number of operands.
    fn emit_arith_call(&mut self, op: &str, args: &Vec<Expr>, ty: &Type) -> (r: Result<
        Val,
        CodegenError,
    >)
        ensures
            lowering::built(final(self)@, r, lowering::lower_arith(op@, ast::exprs_v(args@), ty@, old(self)@)),
        decreases args@, 1int,
    {
        if args.len() == 0 {
            return internal("missing argument");
        }
        assert(ast::exprs_v(args@)[0] == ast::expr_v(args@[0]));
        if same_text(op, "-") && args.len() == 1 {
            let a = self.emit_value(&args[0], "unary -")?;
            return self.emit_neg(a, ty);
        }
        if (same_text(op, "+") || same_text(op, "*")) && args.len() == 1 {
            return self.emit_value(&args[0], "arith identity");
        }
        let mut acc = self.emit_value(&args[0], "arith lhs")?;
        let mut i: usize = 1;
        while i < args.len()
            invariant
                1 <= i <= args@.len(),
                lowering::lower_arith(op@, ast::exprs_v(args@), ty@, old(self)@) == lowering::lower_fold(
                    op@,
                    ast::exprs_v(args@),
                    i as int,
                    acc@,
                    ty@,
                    self@,
                ),
            decreases args@.len() - i,
        {
            assert(ast::exprs_v(args@)[i as int] == ast::expr_v(args@[i as int]));
            let b = self.emit_value(&args[i], "arith rhs")?;
            acc = self.emit_arith(op, acc, b, ty)?;
            i += 1;
        }
        Ok(acc)
    }

    /// A comparison.
    fn emit_test(&mut self, op: &str, args: &Vec<Expr>) -> (r: Result<Val, CodegenError>)
        ensures
            lowering::built(final(self)@, r, lowering::lower_test(op@, ast::exprs_v(args@), old(self)@)),
        decreases args@, 1int,
    {
        if args.len() < 2 {
            return internal("missing argument");
        }
        assert(ast::exprs_v(args@)[0] == ast::expr_v(args@[0]));
        assert(ast::exprs_v(args@)[1] == ast::expr_v(args@[1]));
        let a = self.emit_value(&args[0], "operand")?;
        let b = self.emit_value(&args[1], "operand")?;
        let ty = expr_ty(&args[0])?;
        if ty.is_array_elem_allowed() {
            let float = is_float_type(ty);
            let name = String::from_str(
                if float {
                    "fcmp"
                } else {
                    "cmp"
                },
            );
            Ok(self.make(Op::Test { pred: predicate_of(op), float, a, b, name }))
        } else {
            internal_about("comparison of ", ty.to_text().as_str())
        }
    }

    /// `and` and `or`: the right side is only reached if the left does not decide.
    #[verifier::rlimit(20)]
    fn emit_short_circuit(&mut self, is_and: bool, args: &Vec<Expr>) -> (r: Result<
        Val,
        CodegenError,
    >)
        ensures
            lowering::built(final(self)@, r, lowering::lower_short(is_and, ast::exprs_v(args@), old(self)@)),
        decreases args@, 1int,
    {
        if args.len() < 2 {
            return internal("missing argument");
        }
        assert(ast::exprs_v(args@)[0] == ast::expr_v(args@[0]));
        assert(ast::exprs_v(args@)[1] == ast::expr_v(args@[1]));
        let a = self.emit_value(&args[0], if is_and { "and lhs" } else { "or lhs" })?;
        let rhs_bb = self.new_block(if is_and { "and.rhs" } else { "or.rhs" });
        let merge_bb = self.new_block(if is_and { "and.end" } else { "or.end" });
        let entry_bb = self.block;
        if is_and {
            let _ = self.put(Op::CondBr { cond: a, yes: rhs_bb, no: merge_bb });
        } else {
            let _ = self.put(Op::CondBr { cond: a, yes: merge_bb, no: rhs_bb });
        }
        self.go_to(rhs_bb);
        let b = self.emit_value(&args[1], if is_and { "and rhs" } else { "or rhs" })?;
        let rhs_end = self.block;
        self.jump(merge_bb);
        self.go_to(merge_bb);
        let decided = Val::Int(
            Prim::I1,
            if is_and {
                0
            } else {
                1
            },
        );
        let mut incoming: Vec<(Val, usize)> = Vec::new();
        incoming.push((decided, entry_bb));
        incoming.push((b, rhs_end));
        assert(incoming.deep_view() =~= seq![(decided@, entry_bb), (b@, rhs_end)]);
        let name = String::from_str(
            if is_and {
                "andtmp"
            } else {
                "ortmp"
            },
        );
        Ok(self.make(Op::Phi { ty: LTy::One(Prim::I1), incoming, name }))
    }

    /// `not`
    fn emit_not(&mut self, args: &Vec<Expr>) -> (r: Result<Val, CodegenError>)
        ensures
            lowering::built(final(self)@, r, lowering::lower_not(ast::exprs_v(args@), old(self)@)),
        decreases args@, 1int,
    {
        if args.len() == 0 {
            return internal("missing argument");
        }
        assert(ast::exprs_v(args@)[0] == ast::expr_v(args@[0]));
        let a = self.emit_value(&args[0], "operand")?;
        Ok(self.make(Op::Not { val: a, name: String::from_str("nottmp") }))
    }

    /// What `printf` is given for a value: its format and the argument.
    fn print_arg(&mut self, v: Val, ty: &Type) -> (r: Result<(String, Val), CodegenError>)
        ensures
            lowering::built(final(self)@, r, lowering::lower_print_arg(old(self)@, v@, ty@)),
    {
        match ty {
            Type::I32 => Ok((String::from_str("%d"), v)),
            Type::I64 => Ok((String::from_str("%lld"), v)),
            Type::F64 => Ok((String::from_str("%g"), v)),
            Type::F32 => {
                let wide = self.make(
                    Op::Convert {
                        op: ConvOp::FloatExtend,
                        val: v,
                        to: Prim::F64,
                        name: String::from_str("fpext"),
                    },
                );
                Ok((String::from_str("%g"), wide))
            },
            Type::Bool => {
                let a = self.intern_str("true");
                let b = self.intern_str("false");
                let s = self.make(
                    Op::Select { cond: v, a, b, name: String::from_str("boolstr") },
                );
                Ok((String::from_str("%s"), s))
            },
            _ => internal("cannot print this type"),
        }
    }

    /// Printing of a string.
    fn print_str(&mut self, v: Val, newline: bool) -> (r: Result<(), CodegenError>)
        ensures
            lowering::built(final(self)@, r, lowering::lower_print_str(old(self)@, v@, newline)),
    {
        let cstr = self.rt_call_ptr1("risp_str_cstr", &v)?;
        if newline {
            let _ = self.rt_call("__puts", one(cstr), "putscall")?;
        } else {
            let fmt = self.intern_str("%s");
            let _ = self.rt_call("__printf", two(fmt, cstr), "printfcall")?;
        }
        self.emit_drop(&v, &Type::Str)
    }

    /// `print` and `println`
    fn emit_print(&mut self, args: &Vec<Expr>, newline: bool) -> (r: Result<(), CodegenError>)
        ensures
            lowering::built(final(self)@, r, lowering::lower_print(ast::exprs_v(args@), newline, old(self)@)),
        decreases args@, 1int,
    {
        if args.len() == 0 {
            return internal("missing argument");
        }
        assert(ast::exprs_v(args@)[0] == ast::expr_v(args@[0]));
        let ty = expr_ty(&args[0])?;
        let v = self.emit_value(&args[0], "print arg")?;
        if matches!(ty, Type::Str) {
            return self.print_str(v, newline);
        }
        let (mut fmt, a) = self.print_arg(v, ty)?;
        if newline {
            fmt.append("\n");
        }
        let f = self.intern_str(fmt.as_str());
        let _ = self.rt_call("__printf", two(f, a), "printfcall")?;
        Ok(())
    }

    /// `str-concat`
    fn emit_str_concat(&mut self, args: &Vec<Expr>) -> (r: Result<Val, CodegenError>)
        ensures
            lowering::built(final(self)@, r, lowering::lower_concat(ast::exprs_v(args@), old(self)@)),
        decreases args@, 1int,
    {
        if args.len() < 2 {
            return internal("missing argument");
        }
        assert(ast::exprs_v(args@)[0] == ast::expr_v(args@[0]));
        assert(ast::exprs_v(args@)[1] == ast::expr_v(args@[1]));
        let a = self.emit_value(&args[0], "str-concat a")?;
        let b = self.emit_value(&args[1], "str-concat b")?;
        let v = self.rt_call("risp_str_concat", two(a.dup(), b.dup()), "strconcat")?;
        self.emit_drop(&a, &Type::Str)?;
        self.emit_drop(&b, &Type::Str)?;
        Ok(v)
    }

    /// `str-len`
    fn emit_str_len(&mut self, args: &Vec<Expr>) -> (r: Result<Val, CodegenError>)
        ensures
            lowering::built(final(self)@, r, lowering::lower_str_len(ast::exprs_v(args@), old(self)@)),
        decreases args@, 1int,
    {
        if args.len() == 0 {
            return internal("missing argument");
        }
        assert(ast::exprs_v(args@)[0] == ast::expr_v(args@[0]));
        let a = self.emit_value(&args[0], "str-len")?;
        let v = self.rt_call("risp_str_len", one(a.dup()), "strlen")?;
        self.emit_drop(&a, &Type::Str)?;
        Ok(v)
    }

    /// `aget`
    fn emit_aget(&mut self, args: &Vec<Expr>) -> (r: Result<Val, CodegenError>)
        ensures
            lowering::built(final(self)@, r, lowering::lower_aget(ast::exprs_v(args@), old(self)@)),
        decreases args@, 1int,
    {
        if args.len() < 2 {
            return internal("missing argument");
        }
        assert(ast::exprs_v(args@)[0] == ast::expr_v(args@[0]));
        assert(ast::exprs_v(args@)[1] == ast::expr_v(args@[1]));
        match expr_ty(&args[0])? {
            Type::Array { elem, len } => {
                let a = self.emit_value(&args[0], "aget arr")?;
                let index = self.emit_value(&args[1], "aget idx")?;
                let at = llvm_array_type(elem, *len)?;
                let ptr = self.make(
                    Op::ElemPtr { ty: at, ptr: a, index, name: String::from_str("agetptr") },
                );
                self.load(&ptr, elem, "aget")
            },
            _ => internal("aget on non-array"),
        }
    }

    /// `aset!`
    fn emit_aset(&mut self, args: &Vec<Expr>) -> (r: Result<(), CodegenError>)
        ensures
            lowering::built(final(self)@, r, lowering::lower_aset(ast::exprs_v(args@), old(self)@)),
        decreases args@, 1int,
    {
        if args.len() < 3 {
            return internal("missing argument");
        }
        assert(ast::exprs_v(args@)[0] == ast::expr_v(args@[0]));
        assert(ast::exprs_v(args@)[1] == ast::expr_v(args@[1]));
        assert(ast::exprs_v(args@)[2] == ast::expr_v(args@[2]));
        match expr_ty(&args[0])? {
            Type::Array { elem, len } => {
                let a = self.emit_value(&args[0], "aset! arr")?;
                let index = self.emit_value(&args[1], "aset! idx")?;
                let v = self.emit_value(&args[2], "aset! val")?;
                let at = llvm_array_type(elem, *len)?;
                let ptr = self.make(
                    Op::ElemPtr { ty: at, ptr: a, index, name: String::from_str("asetptr") },
                );
                let _ = self.put(Op::Store { ptr, val: v });
                Ok(())
            },
            _ => internal("aset! on non-array"),
        }
    }

    /// `alen`
    fn emit_alen(&mut self, args: &Vec<Expr>) -> (r: Result<Val, CodegenError>)
        ensures
            lowering::built(final(self)@, r, lowering::lower_alen(ast::exprs_v(args@), old(self)@)),
        decreases args@, 1int,
    {
        if args.len() == 0 {
            return internal("missing argument");
        }
        assert(ast::exprs_v(args@)[0] == ast::expr_v(args@[0]));
        match expr_ty(&args[0])? {
            Type::Array { elem: _, len } => {
                let _ = self.emit_expr(&args[0])?;
                Ok(Val::Int(Prim::I32, *len as i64))
            },
            _ => internal("alen on non-array"),
        }
    }

    /// A struct value.
    fn emit_struct_lit(&mut self, name: &String, args: &Vec<Expr>) -> (r: Result<Val, CodegenError>)
        requires
            old(self)@.structs.contains_key(name@),
        ensures
            lowering::built(final(self)@, r, lowering::lower_struct(name@, ast::exprs_v(args@), old(self)@)),
        decreases args@, 1int,
    {
        let st = self.llvm_basic(&Type::Named(name.dup()))?;
        let fields = match self.structs.get(name) {
            Some(s) => s.fields.dup(),
            None => Vec::new(),
        };
        let mut agg = Val::Undef(st);
        let mut i: usize = 0;
        while i < args.len() && i < fields.len()
            invariant
                i <= args@.len(),
                i <= fields@.len(),
                lowering::lower_struct(name@, ast::exprs_v(args@), old(self)@) == lowering::lower_fields(
                    fields.deep_view(),
                    ast::exprs_v(args@),
                    i as int,
                    agg@,
                    self@,
                ),
            decreases args@.len() - i,
        {
            assert(ast::exprs_v(args@)[i as int] == ast::expr_v(args@[i as int]));
            let v = self.emit_value(&args[i], "struct field")?;
            agg = self.make(
                Op::Insert { agg, val: v, index: i as u32, name: fields[i].name.dup() },
            );
            i += 1;
        }
        Ok(agg)
    }

    /// An enum value out of its tag and its payload bits.
    fn enum_value(&mut self, tag: u32, bits: Val) -> (r: Result<Val, CodegenError>)
        ensures
            lowering::built(final(self)@, r, lowering::lower_enum(old(self)@, tag, bits@)),
    {
        let tagged = self.make(
            Op::Insert {
                agg: Val::Undef(llvm_enum_ty()),
                val: Val::Int(Prim::I32, tag as i64),
                index: 0,
                name: String::from_str("tag"),
            },
        );
        Ok(
            self.make(
                Op::Insert { agg: tagged, val: bits, index: 1, name: String::from_str("payload") },
            ),
        )
    }

    /// A value of an enum.
    fn emit_variant_lit(&mut self, info: &VariantInfo, args: &Vec<Expr>) -> (r: Result<
        Val,
        CodegenError,
    >)
        ensures
            lowering::built(final(self)@, r, lowering::lower_variant(info@, ast::exprs_v(args@), old(self)@)),
        decreases args@, 1int,
    {
        match &info.payload {
            None => self.enum_value(info.tag, Val::Int(Prim::I64, 0)),
            Some(pty) => {
                if args.len() == 0 {
                    return internal("missing argument");
                }
                assert(ast::exprs_v(args@)[0] == ast::expr_v(args@[0]));
                let v = self.emit_value(&args[0], "variant payload")?;
                let bits = self.pack_payload(v, pty)?;
                self.enum_value(info.tag, bits)
            },
        }
    }

    /// The arguments of a call, and the strings that C strings among them belong to.
    fn call_args(&mut self, args: &Vec<Expr>, params: &Vec<Type>, foreign: bool) -> (r: Result<
        (Vec<Val>, Vec<Val>),
        CodegenError,
    >)
        ensures
            lowering::built(
                final(self)@,
                r,
                lowering::lower_call_args(
                    ast::exprs_v(args@),
                    0,
                    params.deep_view(),
                    foreign,
                    Seq::empty(),
                    Seq::empty(),
                    old(self)@,
                ),
            ),
        decreases args@, 0int,
    {
        let mut out: Vec<Val> = Vec::new();
        let mut owned: Vec<Val> = Vec::new();
        let mut i: usize = 0;
        assert(out.deep_view() =~= Seq::empty());
        assert(owned.deep_view() =~= Seq::empty());
        while i < args.len()
            invariant
                i <= args@.len(),
                lowering::lower_call_args(
                    ast::exprs_v(args@),
                    0,
                    params.deep_view(),
                    foreign,
                    Seq::empty(),
                    Seq::empty(),
                    old(self)@,
                ) == lowering::lower_call_args(
                    ast::exprs_v(args@),
                    i as int,
                    params.deep_view(),
                    foreign,
                    out.deep_view(),
                    owned.deep_view(),
                    self@,
                ),
            decreases args@.len() - i,
        {
            assert(ast::exprs_v(args@)[i as int] == ast::expr_v(args@[i as int]));
            let ghost before = (out.deep_view(), owned.deep_view());
            let v = self.emit_value(&args[i], "call argument")?;
            if foreign && i < params.len() && matches!(params[i], Type::Str) {
                let cstr = self.rt_call_ptr1("risp_str_cstr", &v)?;
                out.push(cstr);
                owned.push(v);
                assert(out.deep_view() =~= before.0.push(cstr@));
                assert(owned.deep_view() =~= before.1.push(v@));
            } else {
                out.push(v);
                assert(out.deep_view() =~= before.0.push(v@));
            }
            i += 1;
        }
        Ok((out, owned))
    }

    /// Releases strings.
    fn drop_all(&mut self, vs: &Vec<Val>) -> (r: Result<(), CodegenError>)
        ensures
            lowering::built(final(self)@, r, lowering::lower_drop_all(vs.deep_view(), 0, old(self)@)),
    {
        let mut i: usize = 0;
        while i < vs.len()
            invariant
                i <= vs@.len(),
                lowering::lower_drop_all(vs.deep_view(), 0, old(self)@) == lowering::lower_drop_all(
                    vs.deep_view(),
                    i as int,
                    self@,
                ),
            decreases vs@.len() - i,
        {
            self.emit_drop(&vs[i], &Type::Str)?;
            i += 1;
        }
        Ok(())
    }

    /// A call of a function.
    fn emit_fn_call(&mut self, callee: &String, args: &Vec<Expr>) -> (r: Result<
        Option<Val>,
        CodegenError,
    >)
        ensures
            lowering::built(final(self)@, r, lowering::lower_fn_call(callee@, ast::exprs_v(args@), old(self)@)),
        decreases args@, 1int,
    {
        let func: usize = match self.fns.get(callee) {
            Some(f) => *f,
            None => return internal_about("undef fn ", callee.as_str()),
        };
        let sig = match self.fn_types.get(callee) {
            Some(s) => s.dup(),
            None => return internal_about("no sig ", callee.as_str()),
        };
        let foreign = self.externs.has(callee);
        let (vs, owned) = self.call_args(args, &sig.params, foreign)?;
        let result = self.make(Op::Call { func, args: vs, name: String::from_str("calltmp") });
        self.drop_all(&owned)?;
        if matches!(sig.ret, Type::Unit) {
            Ok(None)
        } else if foreign && matches!(sig.ret, Type::Str) {
            Ok(Some(self.rt_call_ptr1("risp_str_from_cstr", &result)?))
        } else {
            Ok(Some(result))
        }
    }
}

pub(crate) fn is_float_type(ty: &Type) -> (r: bool)
    ensures
        r == lowering::is_float(ty@),
{
    matches!(ty, Type::F32 | Type::F64)
}

/// The operation of an arithmetic operator.
fn operation(op: &str, float: bool) -> (r: (BinOp, &'static str))
    ensures
        (r.0, r.1@) == lowering::bin_op(op@, float),
{
    if same_text(op, "+") {
        if float {
            (BinOp::FAdd, "fadd")
        } else {
            (BinOp::Add, "add")
        }
    } else if same_text(op, "-") {
        if float {
            (BinOp::FSub, "fsub")
        } else {
            (BinOp::Sub, "sub")
        }
    } else if same_text(op, "*") {
        if float {
            (BinOp::FMul, "fmul")
        } else {
            (BinOp::Mul, "mul")
        }
    } else if same_text(op, "/") {
        if float {
            (BinOp::FDiv, "fdiv")
        } else {
            (BinOp::Div, "div")
        }
    } else {
        if float {
            (BinOp::FRem, "fmod")
        } else {
            (BinOp::Rem, "mod")
        }
    }
}

/// What a comparison operator tests.
fn predicate_of(op: &str) -> (r: Pred)
    ensures
        r == lowering::predicate(op@),
{
    if same_text(op, "<") {
        Pred::Less
    } else if same_text(op, "<=") {
        Pred::LessEqual
    } else if same_text(op, ">") {
        Pred::Greater
    } else if same_text(op, ">=") {
        Pred::GreaterEqual
    } else if same_text(op, "=") {
        Pred::Equal
    } else {
        Pred::NotEqual
    }
}

} // verus!
