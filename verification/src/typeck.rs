//! Type checker.
use crate::ast::{
    Binding, EnumDef, Expr, ExprKind, FieldDef, FloatKind, Function, GenericFunction, ImplBlock,
    ImplBlockV, IntKind, Lit, MatchArm, MethodSig, Param, ParamV, Program, Span, StructDef,
    TopLevel, TopLevelV, TraitDef, Type,
};
use crate::ast;
use crate::collected;
use crate::instances;
use crate::table::{NameTable, Table};
use crate::text::{Dup, same_text};
use crate::text;
use crate::typing::{Checked, CkV, FnSig, Pass, Subst, TypeError, TypeErrorV, Universe, VariantInfo};
use crate::typing;
use vstd::prelude::*;
use vstd::string::*;

verus! {

/// A name with everything but letters and digits replaced by `_`.
fn sanitize_ident_part(s: &str) -> (r: String)
    ensures
        r@ == typing::sanitized(s@),
{
    let mut out = String::new();
    let n: usize = s.unicode_len();
    let mut i: usize = 0;
    while i < n
        invariant
            n == s@.len(),
            i <= n,
            out@ == typing::sanitized(s@).subrange(0, i as int),
        decreases n - i,
    {
        let c = s.get_char(i);
        let kept = '0' <= c && c <= '9' || 'A' <= c && c <= 'Z' || 'a' <= c && c <= 'z';
        out.push(
            if kept {
                c
            } else {
                '_'
            },
        );
        i = i + 1;
        assert(out@ =~= typing::sanitized(s@).subrange(0, i as int));
    }
    assert(out@ =~= typing::sanitized(s@));
    out
}

/// The symbol of a method of an impl.
pub fn mangle_method(trait_name: &str, ty: &Type, method: &str) -> (r: String)
    ensures
        r@ == typing::method_symbol(trait_name@, ty@, method@),
{
    let mut s = String::from_str("__risp_");
    s.append(trait_name);
    s.append("_");
    s.append(sanitize_ident_part(ty.to_text().as_str()).as_str());
    s.append("_");
    s.append(method);
    s
}

/// The symbol of an instance of a generic function.
pub fn mangle_mono(name: &str, tys: &[Type]) -> (r: String)
    ensures
        r@ == typing::instance_symbol(name@, tys.deep_view()),
{
    let mut parts = String::new();
    let mut i: usize = 0;
    proof {
        assert(typing::types_symbol(tys.deep_view().subrange(0, 0)) =~= Seq::<char>::empty());
    }
    while i < tys.len()
        invariant
            i <= tys@.len(),
            parts@ == typing::types_symbol(tys.deep_view().subrange(0, i as int)),
        decreases tys@.len() - i,
    {
        let ghost before = tys.deep_view().subrange(0, i as int);
        let ghost now = tys.deep_view().subrange(0, i + 1);
        proof {
            assert(now.drop_last() =~= before);
            assert(now.last() == tys@[i as int]@);
        }
        let part = sanitize_ident_part(tys[i].to_text().as_str());
        if i > 0 {
            parts.append("_");
            parts.append(part.as_str());
        } else {
            parts = part;
        }
        i = i + 1;
    }
    assert(tys.deep_view().subrange(0, i as int) =~= tys.deep_view());
    let mut s = String::from_str("__risp_mono_");
    s.append(sanitize_ident_part(name).as_str());
    s.append("_");
    s.append(parts.as_str());
    s
}

/// The type checker, with what it has found of a program.
pub struct TypeCk {
    pub fns: NameTable<FnSig>,
    pub consts: NameTable<Type>,
    pub structs: NameTable<StructDef>,
    pub enums: NameTable<EnumDef>,
    /// By the name of the variant.
    pub variants: NameTable<VariantInfo>,
    /// The functions of the C ABI.
    pub externs: NameTable<FnSig>,
    pub traits: NameTable<TraitDef>,
    /// The trait that a method belongs to, by the name of the method.
    pub trait_methods: NameTable<String>,
    /// The pairs of a trait and a type that have an impl.
    pub impls: Table<(String, Type), bool>,
    pub generic_fns: NameTable<GenericFunction>,
    /// The symbol of each instance of a generic function.
    pub mono_cache: Table<(String, Vec<Type>), String>,
    /// The instances, in the order in which they were finished.
    pub mono_fns: Vec<Function>,
    /// Whether a loop surrounds what is checked.
    pub in_loop: bool,
}

impl View for TypeCk {
    type V = CkV;

    open spec fn view(&self) -> CkV {
        CkV {
            fns: self.fns@,
            consts: self.consts@,
            structs: self.structs@,
            enums: self.enums@,
            variants: self.variants@,
            externs: self.externs@,
            traits: self.traits@,
            trait_methods: self.trait_methods@,
            impls: self.impls@.dom(),
            generic_fns: self.generic_fns@,
            mono_cache: self.mono_cache@,
            mono_fns: self.mono_fns.deep_view(),
            in_loop: self.in_loop,
        }
    }
}

/// Whether a result, with what is left and known, is what the rule `c` gives.
pub open spec fn gives<N, T: DeepView>(
    node: N,
    s: CkV,
    r: Result<T, TypeError>,
    c: Checked<N, T::V>,
) -> bool {
    c.node == node && c.s == s && c.r == text::outcome(r)
}

/// The type of a literal.
pub(crate) fn lit_type(l: &Lit) -> (r: Type)
    ensures
        r@ == typing::literal_type(l@),
{
    match l {
        Lit::Int(_, Some(IntKind::I64)) => Type::I64,
        Lit::Int(_, _) => Type::I32,
        Lit::Float(_, Some(FloatKind::F32)) => Type::F32,
        Lit::Float(_, _) => Type::F64,
        Lit::Bool(_) => Type::Bool,
        Lit::Str(_) => Type::Str,
    }
}

pub(crate) fn is_numeric(t: &Type) -> (r: bool)
    ensures
        r == typing::numeric(t@),
{
    matches!(t, Type::I32 | Type::I64 | Type::F32 | Type::F64)
}

pub(crate) fn is_printable(t: &Type) -> (r: bool)
    ensures
        r == typing::printable(t@),
{
    is_numeric(t) || matches!(t, Type::Bool | Type::Str)
}

pub(crate) fn is_extern_type_ok(t: &Type) -> (r: bool)
    ensures
        r == typing::foreign_type(t@),
{
    is_printable(t) || matches!(t, Type::Unit)
}

pub(crate) fn cast_allowed(from: &Type, to: &Type) -> (r: bool)
    ensures
        r == (typing::numeric(from@) && typing::numeric(to@)),
{
    is_numeric(from) && is_numeric(to)
}

/// Checks that `found` is the type that is asked for.
pub(crate) fn expect(expected: &Type, found: &Type, span: Span) -> (r: Result<(), TypeError>)
    ensures
        match r {
            Ok(_) => expected@ == found@,
            Err(e) => expected@ != found@ && e@ == (TypeErrorV::Mismatch {
                expected: expected@,
                found: found@,
                span,
            }),
        },
{
    if expected.same(found) {
        Ok(())
    } else {
        Err(TypeError::Mismatch { expected: expected.dup(), found: found.dup(), span })
    }
}

pub(crate) fn arity(name: &String, expected: usize, got: usize, span: Span) -> (r: TypeError)
    ensures
        r@ == typing::arity_error(name@, expected as nat, got as nat, span),
{
    TypeError::Arity { name: name.clone(), expected, got, span }
}

/// A type with the type parameters replaced.
pub(crate) fn subst_type(ty: &Type, subst: &NameTable<Type>) -> (r: Type)
    ensures
        r@ == typing::subst_in(ty@, subst@),
    decreases ty,
{
    match ty {
        Type::Named(n) => match subst.get(n) {
            Some(t) => t.dup(),
            None => ty.dup(),
        },
        Type::Array { elem, len } => Type::Array {
            elem: Box::new(subst_type(elem, subst)),
            len: *len,
        },
        _ => ty.dup(),
    }
}

/// Replaces the type parameters in an expression, and forgets its types.
pub(crate) fn subst_expr(e: &mut Expr, subst: &NameTable<Type>)
    ensures
        ast::expr_v(*final(e)) == typing::subst_body(ast::expr_v(*old(e)), subst@),
    decreases *old(e),
{
    proof {
        reveal_with_fuel(typing::subst_body, 2);
        reveal_with_fuel(ast::expr_v, 2);
    }
    match &mut e.kind {
        ExprKind::Lit(_) => {},
        ExprKind::Var(_) => {},
        ExprKind::Break => {},
        ExprKind::If { cond, then_branch, else_branch } => {
            subst_expr(cond, subst);
            subst_expr(then_branch, subst);
            subst_expr(else_branch, subst);
        },
        ExprKind::Let { bindings, body } => {
            subst_binding_list(bindings, subst);
            subst_expr(body, subst);
        },
        ExprKind::Do(es) => subst_exprs(es, subst),
        ExprKind::Cast { ty, expr } => {
            *ty = subst_type(&*ty, subst);
            subst_expr(expr, subst);
        },
        ExprKind::Assign { value, .. } => subst_expr(value, subst),
        ExprKind::While { cond, body } => {
            subst_expr(cond, subst);
            subst_expr(body, subst);
        },
        ExprKind::Loop { body } => subst_expr(body, subst),
        ExprKind::ArrayLit { elem_ty, elems } => {
            *elem_ty = subst_type(&*elem_ty, subst);
            subst_exprs(elems, subst);
        },
        ExprKind::Field { base, .. } => subst_expr(base, subst),
        ExprKind::Match { scrutinee, arms } => {
            subst_expr(scrutinee, subst);
            subst_arm_list(arms, subst);
        },
        ExprKind::Call { args, .. } => subst_exprs(args, subst),
    }
    e.ty = None;
}

fn subst_exprs(xs: &mut Vec<Expr>, subst: &NameTable<Type>)
    ensures
        ast::exprs_v(final(xs)@) == typing::subst_all(ast::exprs_v(old(xs)@), subst@),
    decreases *old(xs),
{
    let mut i: usize = 0;
    while i < xs.len()
        invariant
            i <= xs@.len(),
            xs@.len() == old(xs)@.len(),
            forall|j: int| i <= j < xs@.len() ==> #[trigger] xs@[j] == old(xs)@[j],
            forall|j: int|
                0 <= j < i ==> ast::expr_v(#[trigger] xs@[j]) == typing::subst_all(ast::exprs_v(old(xs)@), subst@)[j],
        decreases xs@.len() - i,
    {
        assert(xs@[i as int] == old(xs)@[i as int]);
        subst_expr(&mut xs[i], subst);
        i = i + 1;
    }
    assert(ast::exprs_v(xs@) =~= typing::subst_all(ast::exprs_v(old(xs)@), subst@));
}

fn subst_binding_list(xs: &mut Vec<Binding>, subst: &NameTable<Type>)
    ensures
        ast::bindings_v(final(xs)@) == typing::subst_bindings(ast::bindings_v(old(xs)@), subst@),
    decreases *old(xs),
{
    let mut i: usize = 0;
    while i < xs.len()
        invariant
            i <= xs@.len(),
            xs@.len() == old(xs)@.len(),
            forall|j: int| i <= j < xs@.len() ==> #[trigger] xs@[j] == old(xs)@[j],
            forall|j: int|
                0 <= j < i ==> ast::binding_v(#[trigger] xs@[j]) == typing::subst_bindings(ast::bindings_v(old(xs)@), subst@)[j],
        decreases xs@.len() - i,
    {
        assert(xs@[i as int] == old(xs)@[i as int]);
        let ty = subst_type(&xs[i].ty, subst);
        xs[i].ty = ty;
        subst_expr(&mut xs[i].value, subst);
        i = i + 1;
    }
    assert(ast::bindings_v(xs@) =~= typing::subst_bindings(ast::bindings_v(old(xs)@), subst@));
}

fn subst_arm_list(xs: &mut Vec<MatchArm>, subst: &NameTable<Type>)
    ensures
        ast::arms_v(final(xs)@) == typing::subst_arms(ast::arms_v(old(xs)@), subst@),
    decreases *old(xs),
{
    let mut i: usize = 0;
    while i < xs.len()
        invariant
            i <= xs@.len(),
            xs@.len() == old(xs)@.len(),
            forall|j: int| i <= j < xs@.len() ==> #[trigger] xs@[j] == old(xs)@[j],
            forall|j: int|
                0 <= j < i ==> ast::arm_v(#[trigger] xs@[j]) == typing::subst_arms(ast::arms_v(old(xs)@), subst@)[j],
        decreases xs@.len() - i,
    {
        assert(xs@[i as int] == old(xs)@[i as int]);
        subst_expr(&mut xs[i].body, subst);
        i = i + 1;
    }
    assert(ast::arms_v(xs@) =~= typing::subst_arms(ast::arms_v(old(xs)@), subst@));
}

/// Makes the type of a parameter fit the type of an argument.
pub(crate) fn unify_type_param(
    pattern: &Type,
    concrete: &Type,
    type_params: &NameTable<bool>,
    subst: &mut NameTable<Type>,
    span: Span,
) -> (r: Result<(), TypeError>)
    ensures
        match r {
            Ok(_) => typing::unified(pattern@, concrete@, type_params@.dom(), old(subst)@, span) == Ok::<
                Subst,
                TypeErrorV,
            >(final(subst)@),
            Err(e) => typing::unified(pattern@, concrete@, type_params@.dom(), old(subst)@, span) == Err::<
                Subst,
                TypeErrorV,
            >(e@) && final(subst)@ == old(subst)@,
        },
    decreases pattern,
{
    match pattern {
        Type::Named(n) => {
            if type_params.has(n) {
                match subst.get(n) {
                    Some(prev) => expect(prev, concrete, span),
                    None => {
                        subst.put(n.clone(), concrete.dup());
                        Ok(())
                    },
                }
            } else {
                expect(pattern, concrete, span)
            }
        },
        Type::Array { elem: pe, len: plen } => match concrete {
            Type::Array { elem: ce, len: clen } => {
                if *plen == *clen {
                    unify_type_param(pe, ce, type_params, subst, span)
                } else {
                    Err(
                        TypeError::Mismatch {
                            expected: pattern.dup(),
                            found: concrete.dup(),
                            span,
                        },
                    )
                }
            },
            _ => Err(
                TypeError::Mismatch { expected: pattern.dup(), found: concrete.dup(), span },
            ),
        },
        _ => expect(pattern, concrete, span),
    }
}

/// Whether a name is one of the builtins.
pub(crate) fn is_builtin(op: &str) -> (r: bool)
    ensures
        r == typing::builtin_name(op@),
{
    same_text(op, "/") || same_text(op, "mod") || same_text(op, "+") || same_text(op, "*")
        || same_text(op, "-") || is_comparison(op) || same_text(op, "and") || same_text(op, "or")
        || same_text(op, "not") || same_text(op, "print") || same_text(op, "println") || same_text(
        op,
        "str-concat",
    ) || same_text(op, "str-len") || same_text(op, "aget") || same_text(op, "aset!") || same_text(
        op,
        "alen",
    )
}

pub(crate) fn is_comparison(op: &str) -> (r: bool)
    ensures
        r == typing::comparison(op@),
{
    same_text(op, "<") || same_text(op, "<=") || same_text(op, ">") || same_text(op, ">=")
        || same_text(op, "=") || same_text(op, "!=")
}

/// How many arguments a builtin takes; `None` for one or more.
pub(crate) fn arity_of(op: &str) -> (r: Option<usize>)
    ensures
        match r {
            None => typing::builtin_arity(op@) is None,
            Some(n) => typing::builtin_arity(op@) == Some(n as nat),
        },
{
    if same_text(op, "/") || same_text(op, "mod") {
        Some(2)
    } else if same_text(op, "+") || same_text(op, "*") || same_text(op, "-") {
        None
    } else if is_comparison(op) || same_text(op, "and") || same_text(op, "or") {
        Some(2)
    } else if same_text(op, "not") {
        Some(1)
    } else if same_text(op, "str-concat") {
        Some(2)
    } else if same_text(op, "str-len") || same_text(op, "print") || same_text(op, "println") {
        Some(1)
    } else if same_text(op, "aget") {
        Some(2)
    } else if same_text(op, "aset!") {
        Some(3)
    } else {
        Some(1)
    }
}

/// `n` copies of a type.
pub(crate) fn repeated(t: &Type, n: usize) -> (r: Vec<Type>)
    ensures
        r.deep_view() == Seq::new(n as nat, |i: int| t@),
{
    let mut out: Vec<Type> = Vec::new();
    let mut i: usize = 0;
    while i < n
        invariant
            i <= n,
            out@.len() == i,
            forall|j: int| 0 <= j < i ==> (#[trigger] out@[j])@ == t@,
        decreases n - i,
    {
        out.push(t.dup());
        i = i + 1;
    }
    assert(out.deep_view() =~= Seq::new(n as nat, |i: int| t@));
    out
}

/// The types of parameters.
pub(crate) fn types_of_params(xs: &Vec<Param>) -> (r: Vec<Type>)
    ensures
        r.deep_view() == typing::param_types(xs.deep_view()),
{
    let mut out: Vec<Type> = Vec::new();
    let mut i: usize = 0;
    while i < xs.len()
        invariant
            i <= xs@.len(),
            out@.len() == i,
            forall|j: int| 0 <= j < i ==> (#[trigger] out@[j])@ == xs@[j].ty@,
        decreases xs@.len() - i,
    {
        out.push(xs[i].ty.dup());
        i = i + 1;
    }
    assert(out.deep_view() =~= typing::param_types(xs.deep_view()));
    out
}

/// The types of fields.
pub(crate) fn types_of_fields(xs: &Vec<FieldDef>) -> (r: Vec<Type>)
    ensures
        r.deep_view() == typing::field_types(xs.deep_view()),
{
    let mut out: Vec<Type> = Vec::new();
    let mut i: usize = 0;
    while i < xs.len()
        invariant
            i <= xs@.len(),
            out@.len() == i,
            forall|j: int| 0 <= j < i ==> (#[trigger] out@[j])@ == xs@[j].ty@,
        decreases xs@.len() - i,
    {
        out.push(xs[i].ty.dup());
        i = i + 1;
    }
    assert(out.deep_view() =~= typing::field_types(xs.deep_view()));
    out
}

/// The variables that parameters bring into scope.
pub(crate) fn scope_from(params: &Vec<Param>) -> (r: NameTable<Type>)
    ensures
        r@ == typing::scope_of(params.deep_view()),
{
    let mut env: NameTable<Type> = NameTable::new();
    let mut i: usize = 0;
    while i < params.len()
        invariant
            i <= params@.len(),
            env@ == typing::scope_of(params.deep_view().subrange(0, i as int)),
        decreases params@.len() - i,
    {
        env.put(params[i].name.clone(), params[i].ty.dup());
        proof {
            let now = params.deep_view().subrange(0, i + 1);
            assert(now.drop_last() =~= params.deep_view().subrange(0, i as int));
            assert(now.last() == params@[i as int]@);
        }
        i = i + 1;
    }
    assert(params.deep_view().subrange(0, i as int) =~= params.deep_view());
    env
}

/// The names of type parameters.
pub(crate) fn names_of_type_params(tps: &Vec<(String, Option<String>)>) -> (r: NameTable<bool>)
    ensures
        r@.dom() == typing::type_param_names(tps.deep_view()),
{
    let mut names: NameTable<bool> = NameTable::new();
    let mut i: usize = 0;
    proof {
        assert(names@.dom() =~= Set::empty());
    }
    while i < tps.len()
        invariant
            i <= tps@.len(),
            names@.dom() == typing::type_param_names(tps.deep_view().subrange(0, i as int)),
        decreases tps@.len() - i,
    {
        let ghost before = names@;
        names.put(tps[i].0.clone(), true);
        proof {
            let now = tps.deep_view().subrange(0, i + 1);
            assert(now.drop_last() =~= tps.deep_view().subrange(0, i as int));
            assert(now.last() == tps@[i as int].deep_view());
            assert(names@.dom() =~= before.dom().insert(tps@[i as int].0@));
        }
        i = i + 1;
    }
    assert(tps.deep_view().subrange(0, i as int) =~= tps.deep_view());
    names
}

impl TypeCk {
    /// A type checker that knows of nothing yet.
    pub fn new() -> (r: Self)
        ensures
            r@ == typing::nothing_known(),
    {
        let r = Self {
            fns: NameTable::new(),
            consts: NameTable::new(),
            structs: NameTable::new(),
            enums: NameTable::new(),
            variants: NameTable::new(),
            externs: NameTable::new(),
            traits: NameTable::new(),
            trait_methods: NameTable::new(),
            impls: Table::new(),
            generic_fns: NameTable::new(),
            mono_cache: Table::new(),
            mono_fns: Vec::new(),
            in_loop: false,
        };
        proof {
            assert(r.impls@.dom() =~= Set::empty());
            assert(r.mono_fns.deep_view() =~= Seq::empty());
        }
        r
    }

    /// Checks that a name has not been defined yet.
    pub(crate) fn register_name(&self, name: &String, span: Span) -> (r: Result<(), TypeError>)
        ensures
            match r {
                Ok(_) => !typing::taken(self@, name@),
                Err(e) => typing::taken(self@, name@) && e@ == TypeErrorV::Duplicate(name@, span),
            },
    {
        if self.fns.has(name) || self.consts.has(name) || self.structs.has(name) || self.enums.has(
            name,
        ) || self.variants.has(name) || self.externs.has(name) || self.traits.has(name)
            || self.trait_methods.has(name) || self.generic_fns.has(name) {
            Err(TypeError::Duplicate(name.clone(), span))
        } else {
            Ok(())
        }
    }

    /// Checks that the names in a type are defined or type parameters.
    pub(crate) fn resolve_type_with_params(&self, ty: &Type, span: Span, type_params: &NameTable<bool>) -> (r:
        Result<(), TypeError>)
        ensures
            match r {
                Ok(_) => typing::undefined_in(self@, ty@, type_params@.dom()) is None,
                Err(e) => typing::undefined_in(self@, ty@, type_params@.dom()) is Some && e@
                    == TypeErrorV::UndefinedType(
                    typing::undefined_in(self@, ty@, type_params@.dom())->0,
                    span,
                ),
            },
        decreases ty,
    {
        match ty {
            Type::Named(n) => {
                if type_params.has(n) || self.structs.has(n) || self.enums.has(n) {
                    Ok(())
                } else {
                    Err(TypeError::UndefinedType(n.clone(), span))
                }
            },
            Type::Array { elem, .. } => self.resolve_type_with_params(elem, span, type_params),
            _ => Ok(()),
        }
    }

    /// Checks that the names in a type are defined.
    pub(crate) fn resolve_type(&self, ty: &Type, span: Span) -> (r: Result<(), TypeError>)
        ensures
            match r {
                Ok(_) => typing::undefined_in(self@, ty@, Set::empty()) is None,
                Err(e) => typing::undefined_in(self@, ty@, Set::empty()) is Some && e@
                    == TypeErrorV::UndefinedType(typing::undefined_in(self@, ty@, Set::empty())->0, span),
            },
    {
        let none: NameTable<bool> = NameTable::new();
        assert(none@.dom() =~= Set::empty());
        self.resolve_type_with_params(ty, span, &none)
    }

    /// The variants of an enum.
    fn collect_variant_list(&mut self, e: &EnumDef) -> (r: Result<(), TypeError>)
        ensures
            (final(self)@, problem(r)) == typing::collect_variants(e@, 0, Set::empty(), old(self)@),
    {
        let mut seen: NameTable<bool> = NameTable::new();
        let mut i: usize = 0;
        proof {
            assert(seen@.dom() =~= Set::empty());
        }
        while i < e.variants.len()
            invariant
                i <= e.variants@.len(),
                typing::collect_variants(e@, 0, Set::empty(), old(self)@) == typing::collect_variants(
                    e@,
                    i as int,
                    seen@.dom(),
                    self@,
                ),
            decreases e.variants@.len() - i,
        {
            let v = &e.variants[i];
            assert(e@.variants[i as int] == v@);
            if seen.has(&v.name) {
                return Err(TypeError::Duplicate(v.name.clone(), v.span));
            }
            if let Err(x) = self.register_name(&v.name, v.span) {
                return Err(x);
            }
            if let Some(p) = &v.payload {
                if !p.is_adt_field_allowed() {
                    return Err(TypeError::BadAdtField(p.dup(), v.span));
                }
            }
            let info = VariantInfo {
                enum_name: e.name.clone(),
                tag: i as u32,
                payload: v.payload.dup(),
            };
            self.variants.put(v.name.clone(), info);
            let ghost before = seen@;
            seen.put(v.name.clone(), true);
            proof {
                assert(seen@.dom() =~= before.dom().insert(v.name@));
            }
            i = i + 1;
        }
        Ok(())
    }

    /// A struct or an enum.
    fn collect_type_item(&mut self, it: &TopLevel) -> (r: Result<(), TypeError>)
        ensures
            (final(self)@, problem(r)) == typing::collect_type(it@, old(self)@),
    {
        match it {
            TopLevel::Struct(d) => {
                if let Err(x) = self.register_name(&d.name, d.span) {
                    return Err(x);
                }
                assert(d@.fields.len() == d.fields@.len());
                if d.fields.len() == 0 {
                    return Err(TypeError::EmptyStruct(d.name.clone(), d.span));
                }
                if let Some(x) = first_bad_field(&d.fields) {
                    return Err(x);
                }
                self.structs.put(d.name.clone(), d.dup());
                Ok(())
            },
            TopLevel::Enum(e) => {
                if let Err(x) = self.register_name(&e.name, e.span) {
                    return Err(x);
                }
                assert(e@.variants.len() == e.variants@.len());
                if e.variants.len() == 0 {
                    return Err(TypeError::EmptyEnum(e.name.clone(), e.span));
                }
                if let Err(x) = self.collect_variant_list(e) {
                    return Err(x);
                }
                self.enums.put(e.name.clone(), e.dup());
                Ok(())
            },
            _ => Ok(()),
        }
    }

    /// Checks the type of a parameter or a result.
    fn check_signature_type(&self, ty: &Type, tps: &NameTable<bool>, span: Span) -> (r: Option<
        TypeError,
    >)
        ensures
            r.deep_view() == typing::bad_signature_type(self@, ty@, tps@.dom(), span),
    {
        if let Err(x) = self.resolve_type_with_params(ty, span, tps) {
            return Some(x);
        }
        if matches!(ty, Type::Array { .. }) {
            Some(TypeError::ArrayInSignature(span))
        } else {
            None
        }
    }

    /// Checks the types of parameters.
    fn check_params(&self, params: &Vec<Param>, tps: &NameTable<bool>, methods: bool) -> (r: Option<
        TypeError,
    >)
        ensures
            r.deep_view() == typing::bad_param(self@, params.deep_view(), 0, tps@.dom(), methods),
    {
        let mut i: usize = 0;
        while i < params.len()
            invariant
                i <= params@.len(),
                typing::bad_param(self@, params.deep_view(), 0, tps@.dom(), methods) == typing::bad_param(
                    self@,
                    params.deep_view(),
                    i as int,
                    tps@.dom(),
                    methods,
                ),
            decreases params@.len() - i,
        {
            let p = &params[i];
            assert(params.deep_view()[i as int] == p@);
            let skipped = methods && i == 0 && same_text(p.name.as_str(), "self");
            if !skipped {
                if let Some(x) = self.check_signature_type(&p.ty, tps, p.span) {
                    return Some(x);
                }
            }
            i = i + 1;
        }
        None
    }

    /// The methods of a trait.
    fn collect_method_sigs(&mut self, t: &TraitDef) -> (r: Result<(), TypeError>)
        ensures
            (final(self)@, problem(r)) == typing::collect_sigs(t@, 0, Set::empty(), old(self)@),
    {
        let mut seen: NameTable<bool> = NameTable::new();
        let none: NameTable<bool> = NameTable::new();
        let mut i: usize = 0;
        proof {
            assert(seen@.dom() =~= Set::empty());
        }
        while i < t.methods.len()
            invariant
                i <= t.methods@.len(),
                none@.dom() == Set::<Seq<char>>::empty(),
                typing::collect_sigs(t@, 0, Set::empty(), old(self)@) == typing::collect_sigs(
                    t@,
                    i as int,
                    seen@.dom(),
                    self@,
                ),
            decreases t.methods@.len() - i,
        {
            let m = &t.methods[i];
            assert(t@.methods[i as int] == m@);
            if seen.has(&m.name) {
                return Err(TypeError::Duplicate(m.name.clone(), m.span));
            }
            if self.trait_methods.has(&m.name) {
                return Err(TypeError::AmbiguousTraitMethod(m.name.clone(), m.span));
            }
            if let Err(x) = self.register_name(&m.name, m.span) {
                return Err(x);
            }
            assert(m@.params.len() == m.params@.len());
            if m.params.len() == 0 {
                return Err(arity(&m.name, 1, 0, m.span));
            }
            if let Some(x) = self.check_params(&m.params, &none, true) {
                return Err(x);
            }
            if let Some(x) = self.check_signature_type(&m.ret, &none, m.span) {
                return Err(x);
            }
            self.trait_methods.put(m.name.clone(), t.name.clone());
            let ghost before = seen@;
            seen.put(m.name.clone(), true);
            proof {
                assert(seen@.dom() =~= before.dom().insert(m.name@));
            }
            i = i + 1;
        }
        Ok(())
    }

    /// A trait.
    fn collect_trait_item(&mut self, it: &TopLevel) -> (r: Result<(), TypeError>)
        ensures
            (final(self)@, problem(r)) == typing::collect_trait(it@, old(self)@),
    {
        match it {
            TopLevel::Trait(t) => {
                if let Err(x) = self.register_name(&t.name, t.span) {
                    return Err(x);
                }
                if let Err(x) = self.collect_method_sigs(t) {
                    return Err(x);
                }
                self.traits.put(t.name.clone(), t.dup());
                Ok(())
            },
            _ => Ok(()),
        }
    }

    /// Checks type parameters.
    fn check_type_params(&self, tps: &Vec<(String, Option<String>)>, span: Span) -> (r: Option<
        TypeError,
    >)
        ensures
            r.deep_view() == typing::bad_type_param(self@, tps.deep_view(), 0, Set::empty(), span),
    {
        let mut seen: NameTable<bool> = NameTable::new();
        let mut i: usize = 0;
        proof {
            assert(seen@.dom() =~= Set::empty());
        }
        while i < tps.len()
            invariant
                i <= tps@.len(),
                typing::bad_type_param(self@, tps.deep_view(), 0, Set::empty(), span) == typing::bad_type_param(
                    self@,
                    tps.deep_view(),
                    i as int,
                    seen@.dom(),
                    span,
                ),
            decreases tps@.len() - i,
        {
            assert(tps.deep_view()[i as int] == tps@[i as int].deep_view());
            let name = &tps[i].0;
            if seen.has(name) {
                return Some(TypeError::Duplicate(name.clone(), span));
            }
            if let Some(b) = &tps[i].1 {
                if !self.traits.has(b) {
                    return Some(TypeError::UndefinedTrait(b.clone(), span));
                }
            }
            let ghost before = seen@;
            seen.put(name.clone(), true);
            proof {
                assert(seen@.dom() =~= before.dom().insert(name@));
            }
            i = i + 1;
        }
        None
    }

    /// A function, a generic function, a foreign function or a constant.
    fn collect_sig_item(&mut self, it: &TopLevel) -> (r: Result<(), TypeError>)
        ensures
            (final(self)@, problem(r)) == typing::collect_sig(it@, old(self)@),
    {
        let none: NameTable<bool> = NameTable::new();
        assert(none@.dom() =~= Set::empty());
        match it {
            TopLevel::Function(f) => {
                if let Err(x) = self.register_name(&f.name, f.span) {
                    return Err(x);
                }
                if let Some(x) = self.check_params(&f.params, &none, false) {
                    return Err(x);
                }
                if let Some(x) = self.check_signature_type(&f.ret, &none, f.span) {
                    return Err(x);
                }
                let sig = FnSig { params: types_of_params(&f.params), ret: f.ret.dup() };
                self.fns.put(f.name.clone(), sig);
                Ok(())
            },
            TopLevel::GenericFunction(g) => {
                if let Err(x) = self.register_name(&g.name, g.span) {
                    return Err(x);
                }
                if let Some(x) = self.check_type_params(&g.type_params, g.span) {
                    return Err(x);
                }
                let tps = names_of_type_params(&g.type_params);
                if let Some(x) = self.check_params(&g.params, &tps, false) {
                    return Err(x);
                }
                if let Some(x) = self.check_signature_type(&g.ret, &tps, g.span) {
                    return Err(x);
                }
                self.generic_fns.put(g.name.clone(), g.dup());
                Ok(())
            },
            TopLevel::Extern(e) => {
                if !same_text(e.abi.as_str(), "C") {
                    return Err(TypeError::BadExternAbi(e.abi.clone(), e.span));
                }
                if let Err(x) = self.register_name(&e.name, e.span) {
                    return Err(x);
                }
                if let Some(x) = first_bad_foreign_param(&e.params) {
                    return Err(x);
                }
                if !is_extern_type_ok(&e.ret) {
                    return Err(TypeError::BadExternType(e.ret.dup(), e.span));
                }
                let sig = FnSig { params: types_of_params(&e.params), ret: e.ret.dup() };
                self.externs.put(e.name.clone(), sig.dup());
                self.fns.put(e.name.clone(), sig);
                Ok(())
            },
            TopLevel::Const(c) => {
                if let Err(x) = self.register_name(&c.name, c.span) {
                    return Err(x);
                }
                if let Err(x) = self.resolve_type(&c.ty, c.span) {
                    return Err(x);
                }
                self.consts.put(c.name.clone(), c.ty.dup());
                Ok(())
            },
            _ => Ok(()),
        }
    }

    /// One pass over the definitions.
    fn collect_pass(&mut self, pass: Pass, items: &Vec<TopLevel>) -> (r: Result<(), TypeError>)
        ensures
            (final(self)@, problem(r)) == typing::collect(pass, items.deep_view(), 0, old(self)@),
    {
        let mut i: usize = 0;
        while i < items.len()
            invariant
                i <= items@.len(),
                typing::collect(pass, items.deep_view(), 0, old(self)@) == typing::collect(
                    pass,
                    items.deep_view(),
                    i as int,
                    self@,
                ),
            decreases items@.len() - i,
        {
            assert(items.deep_view()[i as int] == items@[i as int]@);
            let r = match pass {
                Pass::Types => self.collect_type_item(&items[i]),
                Pass::Traits => self.collect_trait_item(&items[i]),
                Pass::Signatures => self.collect_sig_item(&items[i]),
            };
            if r.is_err() {
                return r;
            }
            i = i + 1;
        }
        Ok(())
    }

    /// Checks the parameters of a method of an impl against those of the trait.
    fn check_method_params(&self, params: &Vec<Param>, sig: &Vec<Param>) -> (r: Option<TypeError>)
        requires
            params@.len() == sig@.len(),
        ensures
            r.deep_view() == typing::bad_method_param(self@, params.deep_view(), sig.deep_view(), 0),
    {
        let none: NameTable<bool> = NameTable::new();
        let mut i: usize = 0;
        while i < params.len()
            invariant
                i <= params@.len(),
                params@.len() == sig@.len(),
                none@.dom() == Set::<Seq<char>>::empty(),
                typing::bad_method_param(self@, params.deep_view(), sig.deep_view(), 0) == typing::bad_method_param(
                    self@,
                    params.deep_view(),
                    sig.deep_view(),
                    i as int,
                ),
            decreases params@.len() - i,
        {
            let p = &params[i];
            let t = &sig[i];
            assert(params.deep_view()[i as int] == p@);
            assert(sig.deep_view()[i as int] == t@);
            let skipped = i == 0 && same_text(p.name.as_str(), "self");
            if !skipped {
                if i > 0 || !same_text(t.name.as_str(), "self") {
                    if let Err(x) = expect(&t.ty, &p.ty, p.span) {
                        return Some(x);
                    }
                }
                if let Some(x) = self.check_signature_type(&p.ty, &none, p.span) {
                    return Some(x);
                }
            }
            i = i + 1;
        }
        None
    }

    /// The methods of an impl.
    fn collect_impl_methods(&mut self, methods: &mut Vec<Function>, head: &ImplHead, sigs: &Vec<
        MethodSig,
    >, Ghost(ib): Ghost<ImplBlockV>) -> (r: Result<(), TypeError>)
        requires
            ib.methods == old(methods).deep_view(),
            head.trait_name@ == ib.trait_name,
            head.for_ty@ == ib.for_ty,
        ensures
            gives(
                final(methods).deep_view(),
                final(self)@,
                r,
                typing::collect_methods(
                    ib,
                    sigs.deep_view(),
                    0,
                    Seq::empty(),
                    Set::empty(),
                    old(self)@,
                ),
            ),
    {
        let mut seen: NameTable<bool> = NameTable::new();
        let none: NameTable<bool> = NameTable::new();
        let mut i: usize = 0;
        proof {
            assert(seen@.dom() =~= Set::empty());
            assert(methods.deep_view().subrange(0, 0) =~= Seq::empty());
        }
        while i < methods.len()
            invariant
                i <= methods@.len(),
                methods@.len() == ib.methods.len(),
                head.trait_name@ == ib.trait_name,
                head.for_ty@ == ib.for_ty,
                none@.dom() == Set::<Seq<char>>::empty(),
                forall|j: int| i <= j < methods@.len() ==> (#[trigger] methods@[j])@ == ib.methods[j],
                typing::collect_methods(
                    ib,
                    sigs.deep_view(),
                    0,
                    Seq::empty(),
                    Set::empty(),
                    old(self)@,
                ) == typing::collect_methods(
                    ib,
                    sigs.deep_view(),
                    i as int,
                    methods.deep_view().subrange(0, i as int),
                    seen@.dom(),
                    self@,
                ),
            decreases methods@.len() - i,
        {
            let ghost before = methods.deep_view();
            assert(methods@[i as int]@ == ib.methods[i as int]);
            let sig = find_method_sig(sigs, &methods[i].name);
            if let Some(x) = check_method_head(&methods[i], &head.trait_name, &sig, &seen) {
                proof {
                    assert(methods.deep_view() =~= typing::resumed(
                        methods.deep_view().subrange(0, i as int),
                        ib.methods,
                        i as int,
                    ));
                }
                return Err(x);
            }
            fill_self(&mut methods[i], &head.for_ty);
            proof {
                assert(methods.deep_view().subrange(0, i + 1) =~= before.subrange(0, i as int).push(
                    methods@[i as int]@,
                ));
                assert(methods.deep_view() =~= typing::resumed(
                    methods.deep_view().subrange(0, i + 1),
                    ib.methods,
                    i + 1,
                ));
            }
            let m = &methods[i];
            if let Some(t) = &sig {
                assert(m@.params.len() == m.params@.len());
                assert(t@.params.len() == t.params@.len());
                if let Some(x) = self.check_method_params(&m.params, &t.params) {
                    return Err(x);
                }
            }
            if let Some(x) = self.check_signature_type(&m.ret, &none, m.span) {
                return Err(x);
            }
            let symbol = mangle_method(head.trait_name.as_str(), &head.for_ty, m.name.as_str());
            let fsig = FnSig { params: types_of_params(&m.params), ret: m.ret.dup() };
            self.fns.put(symbol, fsig);
            let ghost seen_before = seen@;
            seen.put(m.name.clone(), true);
            proof {
                assert(seen@.dom() =~= seen_before.dom().insert(m.name@));
            }
            i = i + 1;
        }
        proof {
            assert(methods.deep_view().subrange(0, i as int) =~= methods.deep_view());
        }
        Ok(())
    }

    /// An impl.
    fn collect_impl_block(&mut self, ib: &mut ImplBlock) -> (r: Result<(), TypeError>)
        ensures
            gives(final(ib)@, final(self)@, r, typing::collect_impl(old(ib)@, old(self)@)),
    {
        let sigs = match self.traits.get(&ib.trait_name) {
            Some(t) => t.methods.dup(),
            None => {
                return Err(TypeError::UndefinedTrait(ib.trait_name.clone(), ib.span));
            },
        };
        if let Err(x) = self.resolve_type(&ib.for_ty, ib.span) {
            return Err(x);
        }
        let key = (ib.trait_name.clone(), ib.for_ty.dup());
        if self.impls.has(&key) {
            return Err(
                TypeError::DuplicateImpl {
                    trait_name: ib.trait_name.clone(),
                    ty: ib.for_ty.dup(),
                    span: ib.span,
                },
            );
        }
        let ghost before = self@;
        self.impls.put(key, true);
        let ghost s2 = CkV { impls: before.impls.insert((ib.trait_name@, ib.for_ty@)), ..before };
        proof {
            assert(self@.impls =~= s2.impls);
            assert(self@ == s2);
        }
        let head = ImplHead { trait_name: ib.trait_name.clone(), for_ty: ib.for_ty.dup() };
        let ghost whole = ib@;
        self.collect_impl_methods(&mut ib.methods, &head, &sigs, Ghost(whole))
    }

    /// The impls of a program.
    fn collect_impl_items(&mut self, items: &mut Vec<TopLevel>) -> (r: Result<(), TypeError>)
        ensures
            gives(
                final(items).deep_view(),
                final(self)@,
                r,
                typing::collect_impls(old(items).deep_view(), 0, Seq::empty(), old(self)@),
            ),
    {
        let ghost all = items.deep_view();
        let mut i: usize = 0;
        proof {
            assert(items.deep_view().subrange(0, 0) =~= Seq::empty());
        }
        while i < items.len()
            invariant
                i <= items@.len(),
                items@.len() == all.len(),
                all == old(items).deep_view(),
                forall|j: int| i <= j < items@.len() ==> (#[trigger] items@[j])@ == all[j],
                typing::collect_impls(all, 0, Seq::empty(), old(self)@) == typing::collect_impls(
                    all,
                    i as int,
                    items.deep_view().subrange(0, i as int),
                    self@,
                ),
            decreases items@.len() - i,
        {
            let ghost before = items.deep_view();
            assert(items@[i as int]@ == all[i as int]);
            let r = self.collect_impl_item(&mut items[i]);
            proof {
                assert(items.deep_view().subrange(0, i + 1) =~= before.subrange(0, i as int).push(
                    items@[i as int]@,
                ));
                assert(items.deep_view() =~= typing::resumed(
                    items.deep_view().subrange(0, i + 1),
                    all,
                    i + 1,
                ));
            }
            if r.is_err() {
                return r;
            }
            i = i + 1;
        }
        proof {
            assert(items.deep_view().subrange(0, i as int) =~= items.deep_view());
        }
        Ok(())
    }

    fn collect_impl_item(&mut self, it: &mut TopLevel) -> (r: Result<(), TypeError>)
        ensures
            match old(it)@ {
                TopLevelV::Impl(ib) => ({
                    let c = typing::collect_impl(ib, old(self)@);
                    final(it)@ == TopLevelV::Impl(c.node) && final(self)@ == c.s && c.r == text::outcome(r)
                }),
                _ => final(it)@ == old(it)@ && final(self)@ == old(self)@ && r is Ok,
            },
    {
        match it {
            TopLevel::Impl(ib) => self.collect_impl_block(ib),
            _ => Ok(()),
        }
    }

    /// Checks `main`, which has no parameters and returns an `i32`.
    fn check_main(&self, items: &Vec<TopLevel>, require_main: bool) -> (r: Option<TypeError>)
        ensures
            r.deep_view() == typing::bad_main(self@, items.deep_view(), require_main),
    {
        let name = String::from_str("main");
        match self.fns.get(&name) {
            Some(sig) => {
                assert(sig@.params.len() == sig.params@.len());
                if sig.params.len() == 0 && matches!(sig.ret, Type::I32) {
                    None
                } else {
                    Some(
                        TypeError::Mismatch {
                            expected: Type::I32,
                            found: sig.ret.dup(),
                            span: span_of_main(items),
                        },
                    )
                }
            },
            None => {
                if require_main {
                    Some(TypeError::NoMain)
                } else {
                    None
                }
            },
        }
    }

    /// Checks the body of a function.
    fn check_function_body(&mut self, f: &mut Function, Ghost(u): Ghost<Universe>, Ghost(gas): Ghost<
        nat,
    >) -> (r: Result<(), TypeError>)
        requires
            instances::ready(old(self)@, u, gas),
            instances::scope_known(u, typing::scope_of(old(f)@.params)),
        ensures
            instances::ready(final(self)@, u, gas),
            gives(final(f)@, final(self)@, r, typing::check_function(gas, old(f)@, old(self)@)),
    {
        let env = scope_from(&f.params);
        let ret = f.ret.dup();
        match self.check_against(&mut f.body, &ret, &env, Ghost(u), Ghost(gas)) {
            Err(x) => Err(x),
            Ok(_) => Ok(()),
        }
    }

    /// Checks the bodies of methods.
    fn check_method_bodies(&mut self, fs: &mut Vec<Function>, Ghost(u): Ghost<Universe>, Ghost(
        gas,
    ): Ghost<nat>) -> (r: Result<(), TypeError>)
        requires
            instances::ready(old(self)@, u, gas),
            forall|j: int|
                0 <= j < old(fs).deep_view().len() ==> instances::scope_known(
                    u,
                    typing::scope_of((#[trigger] old(fs).deep_view()[j]).params),
                ),
        ensures
            instances::ready(final(self)@, u, gas),
            gives(
                final(fs).deep_view(),
                final(self)@,
                r,
                typing::check_methods(gas, old(fs).deep_view(), 0, Seq::empty(), old(self)@),
            ),
    {
        let ghost all = fs.deep_view();
        let mut i: usize = 0;
        proof {
            assert(fs.deep_view().subrange(0, 0) =~= Seq::empty());
        }
        while i < fs.len()
            invariant
                i <= fs@.len(),
                fs@.len() == all.len(),
                all == old(fs).deep_view(),
                instances::ready(self@, u, gas),
                forall|j: int|
                    0 <= j < all.len() ==> instances::scope_known(u, typing::scope_of((#[trigger] all[j]).params)),
                forall|j: int| i <= j < fs@.len() ==> (#[trigger] fs@[j])@ == all[j],
                typing::check_methods(gas, all, 0, Seq::empty(), old(self)@) == typing::check_methods(
                    gas,
                    all,
                    i as int,
                    fs.deep_view().subrange(0, i as int),
                    self@,
                ),
            decreases fs@.len() - i,
        {
            let ghost before = fs.deep_view();
            assert(fs@[i as int]@ == all[i as int]);
            let r = self.check_function_body(&mut fs[i], Ghost(u), Ghost(gas));
            proof {
                assert(fs.deep_view().subrange(0, i + 1) =~= before.subrange(0, i as int).push(
                    fs@[i as int]@,
                ));
                assert(fs.deep_view() =~= typing::resumed(fs.deep_view().subrange(0, i + 1), all, i + 1));
            }
            if r.is_err() {
                return r;
            }
            i = i + 1;
        }
        proof {
            assert(fs.deep_view().subrange(0, i as int) =~= fs.deep_view());
        }
        Ok(())
    }

    /// Checks the body of an item.
    fn check_item_body(&mut self, it: &mut TopLevel, Ghost(u): Ghost<Universe>, Ghost(gas): Ghost<
        nat,
    >) -> (r: Result<(), TypeError>)
        requires
            instances::ready(old(self)@, u, gas),
            collected::item_known(old(it)@, u),
        ensures
            instances::ready(final(self)@, u, gas),
            gives(final(it)@, final(self)@, r, typing::check_item(gas, old(it)@, old(self)@)),
    {
        proof {
            collected::lemma_function_scope(it@, u);
        }
        match it {
            TopLevel::Function(f) => self.check_function_body(f, Ghost(u), Ghost(gas)),
            TopLevel::Impl(ib) => self.check_method_bodies(&mut ib.methods, Ghost(u), Ghost(gas)),
            TopLevel::Const(c) => {
                if !matches!(c.value.kind, ExprKind::Lit(_)) {
                    Err(TypeError::ConstNotLiteral(c.value.span))
                } else {
                    let env: NameTable<Type> = NameTable::new();
                    let ty = c.ty.dup();
                    match self.check_against(&mut c.value, &ty, &env, Ghost(u), Ghost(gas)) {
                        Err(x) => Err(x),
                        Ok(_) => Ok(()),
                    }
                }
            },
            _ => Ok(()),
        }
    }

    /// Checks the bodies of items.
    fn check_item_bodies(&mut self, items: &mut Vec<TopLevel>, Ghost(u): Ghost<Universe>, Ghost(
        gas,
    ): Ghost<nat>) -> (r: Result<(), TypeError>)
        requires
            instances::ready(old(self)@, u, gas),
            forall|j: int|
                0 <= j < old(items).deep_view().len() ==> collected::item_known(
                    #[trigger] old(items).deep_view()[j],
                    u,
                ),
        ensures
            instances::ready(final(self)@, u, gas),
            gives(
                final(items).deep_view(),
                final(self)@,
                r,
                typing::check_items(gas, old(items).deep_view(), 0, Seq::empty(), old(self)@),
            ),
    {
        let ghost all = items.deep_view();
        let mut i: usize = 0;
        proof {
            assert(items.deep_view().subrange(0, 0) =~= Seq::empty());
        }
        while i < items.len()
            invariant
                i <= items@.len(),
                items@.len() == all.len(),
                all == old(items).deep_view(),
                instances::ready(self@, u, gas),
                forall|j: int| 0 <= j < all.len() ==> collected::item_known(#[trigger] all[j], u),
                forall|j: int| i <= j < items@.len() ==> (#[trigger] items@[j])@ == all[j],
                typing::check_items(gas, all, 0, Seq::empty(), old(self)@) == typing::check_items(
                    gas,
                    all,
                    i as int,
                    items.deep_view().subrange(0, i as int),
                    self@,
                ),
            decreases items@.len() - i,
        {
            let ghost before = items.deep_view();
            assert(items@[i as int]@ == all[i as int]);
            let r = self.check_item_body(&mut items[i], Ghost(u), Ghost(gas));
            proof {
                assert(items.deep_view().subrange(0, i + 1) =~= before.subrange(0, i as int).push(
                    items@[i as int]@,
                ));
                assert(items.deep_view() =~= typing::resumed(
                    items.deep_view().subrange(0, i + 1),
                    all,
                    i + 1,
                ));
            }
            if r.is_err() {
                return r;
            }
            i = i + 1;
        }
        proof {
            assert(items.deep_view().subrange(0, i as int) =~= items.deep_view());
        }
        Ok(())
    }

    /// Puts the instances of generic functions behind the items.
    fn append_instances(&mut self, items: &mut Vec<TopLevel>)
        ensures
            final(self)@ == (CkV { mono_fns: Seq::empty(), ..old(self)@ }),
            final(items).deep_view() == old(items).deep_view() + Seq::new(
                old(self)@.mono_fns.len(),
                |i: int| TopLevelV::Function(old(self)@.mono_fns[i]),
            ),
    {
        let ghost made = Seq::new(
            self@.mono_fns.len(),
            |i: int| TopLevelV::Function(self@.mono_fns[i]),
        );
        let mut fs: Vec<Function> = Vec::new();
        fs.append(&mut self.mono_fns);
        proof {
            assert(fs.deep_view() =~= old(self)@.mono_fns);
            assert(self.mono_fns.deep_view() =~= Seq::empty());
        }
        let ghost before = items.deep_view();
        let mut i: usize = 0;
        while i < fs.len()
            invariant
                i <= fs@.len(),
                fs.deep_view() == old(self)@.mono_fns,
                made == Seq::new(
                    old(self)@.mono_fns.len(),
                    |i: int| TopLevelV::Function(old(self)@.mono_fns[i]),
                ),
                items.deep_view() == before + made.subrange(0, i as int),
            decreases fs@.len() - i,
        {
            let ghost now = items.deep_view();
            let it = TopLevel::Function(fs[i].dup());
            assert(fs.deep_view()[i as int] == fs@[i as int]@);
            items.push(it);
            proof {
                assert(items.deep_view() =~= now.push(it@));
                assert(made.subrange(0, i + 1) =~= made.subrange(0, i as int).push(made[i as int]));
                assert(items.deep_view() =~= before + made.subrange(0, i + 1));
            }
            i = i + 1;
        }
        proof {
            assert(made.subrange(0, i as int) =~= made);
        }
    }

    /// Checks a program, which must have a `main`, and fills in the types in it. What
    /// the checker knew before does not matter.
    pub fn check(&mut self, prog: &mut Program) -> (r: Result<(), TypeError>)
        ensures
            gives(
                final(prog)@,
                final(self)@,
                r,
                typing::check_program(old(prog)@, true),
            ),
            r is Ok ==> typing::plain_types(final(self)@),
    {
        self.check_ex(prog, true)
    }

    /// Checks a program and fills in the types in it. A `main` may be missing if
    /// `require_main` is false. What the checker knew before does not matter.
    pub fn check_ex(&mut self, prog: &mut Program, require_main: bool) -> (r: Result<(), TypeError>)
        ensures
            gives(
                final(prog)@,
                final(self)@,
                r,
                typing::check_program(old(prog)@, require_main),
            ),
            r is Ok ==> typing::plain_types(final(self)@),
    {
        let ghost items = prog@.items;
        *self = TypeCk::new();
        assert(self@ == typing::nothing_known());
        if let Err(x) = self.collect_pass(Pass::Types, &prog.items) {
            return Err(x);
        }
        if let Err(x) = self.collect_pass(Pass::Traits, &prog.items) {
            return Err(x);
        }
        if let Err(x) = self.collect_pass(Pass::Signatures, &prog.items) {
            return Err(x);
        }
        if let Err(x) = self.collect_impl_items(&mut prog.items) {
            return Err(x);
        }
        if let Some(x) = self.check_main(&prog.items, require_main) {
            return Err(x);
        }
        let ghost u = typing::universe_of(self@, items);
        let ghost gas = typing::instance_keys(u).len();
        proof {
            self.structs.lemma_finite();
            self.enums.lemma_finite();
            self.generic_fns.lemma_finite();
            collected::lemma_collected(items);
        }
        if let Err(x) = self.check_item_bodies(&mut prog.items, Ghost(u), Ghost(gas)) {
            return Err(x);
        }
        self.append_instances(&mut prog.items);
        proof {
            reveal(instances::ready);
        }
        Ok(())
    }
}

/// The error of a result.
pub open spec fn problem(r: Result<(), TypeError>) -> Option<TypeErrorV> {
    match r {
        Ok(_) => None,
        Err(e) => Some(e@),
    }
}

/// The trait and the type of an impl.
struct ImplHead {
    trait_name: String,
    for_ty: Type,
}

/// What is wrong with the fields of a struct.
fn first_bad_field(fields: &Vec<FieldDef>) -> (r: Option<TypeError>)
    ensures
        r.deep_view() == typing::bad_field(fields.deep_view(), 0, Set::empty()),
{
    let mut seen: NameTable<bool> = NameTable::new();
    let mut i: usize = 0;
    proof {
        assert(seen@.dom() =~= Set::empty());
    }
    while i < fields.len()
        invariant
            i <= fields@.len(),
            typing::bad_field(fields.deep_view(), 0, Set::empty()) == typing::bad_field(
                fields.deep_view(),
                i as int,
                seen@.dom(),
            ),
        decreases fields@.len() - i,
    {
        let f = &fields[i];
        assert(fields.deep_view()[i as int] == f@);
        if seen.has(&f.name) {
            return Some(TypeError::Duplicate(f.name.clone(), f.span));
        }
        if !f.ty.is_adt_field_allowed() {
            return Some(TypeError::BadAdtField(f.ty.dup(), f.span));
        }
        let ghost before = seen@;
        seen.put(f.name.clone(), true);
        proof {
            assert(seen@.dom() =~= before.dom().insert(f.name@));
        }
        i = i + 1;
    }
    None
}

/// What is wrong with the parameters of a foreign function.
fn first_bad_foreign_param(params: &Vec<Param>) -> (r: Option<TypeError>)
    ensures
        r.deep_view() == typing::bad_foreign_param(params.deep_view(), 0),
{
    let mut i: usize = 0;
    while i < params.len()
        invariant
            i <= params@.len(),
            typing::bad_foreign_param(params.deep_view(), 0) == typing::bad_foreign_param(
                params.deep_view(),
                i as int,
            ),
        decreases params@.len() - i,
    {
        let p = &params[i];
        assert(params.deep_view()[i as int] == p@);
        if !is_printable(&p.ty) {
            return Some(TypeError::BadExternType(p.ty.dup(), p.span));
        }
        i = i + 1;
    }
    None
}

/// The first method of a trait with this name.
fn find_method_sig(sigs: &Vec<MethodSig>, name: &String) -> (r: Option<MethodSig>)
    ensures
        r.deep_view() == typing::find_sig(sigs.deep_view(), name@, 0),
{
    let mut i: usize = 0;
    while i < sigs.len()
        invariant
            i <= sigs@.len(),
            typing::find_sig(sigs.deep_view(), name@, 0) == typing::find_sig(sigs.deep_view(), name@, i as int),
        decreases sigs@.len() - i,
    {
        assert(sigs.deep_view()[i as int] == sigs@[i as int]@);
        if same_text(sigs[i].name.as_str(), name.as_str()) {
            return Some(sigs[i].dup());
        }
        i = i + 1;
    }
    None
}

/// What is wrong with a method of an impl before `self` gets its type.
fn check_method_head(
    m: &Function,
    trait_name: &String,
    sig: &Option<MethodSig>,
    seen: &NameTable<bool>,
) -> (r: Option<TypeError>)
    ensures
        r.deep_view() == typing::bad_method_head(m@, trait_name@, sig.deep_view(), seen@.dom()),
{
    if seen.has(&m.name) {
        return Some(TypeError::Duplicate(m.name.clone(), m.span));
    }
    match sig {
        None => Some(
            TypeError::MethodNotInTrait(m.name.clone(), trait_name.clone(), m.span),
        ),
        Some(t) => {
            assert(m@.params.len() == m.params@.len());
            assert(t@.params.len() == t.params@.len());
            if m.params.len() != t.params.len() {
                Some(arity(&m.name, t.params.len(), m.params.len(), m.span))
            } else {
                match expect(&t.ret, &m.ret, m.span) {
                    Err(x) => Some(x),
                    Ok(_) => None,
                }
            }
        },
    }
}

/// Gives a first parameter `self` its type.
fn fill_self(m: &mut Function, ty: &Type)
    ensures
        final(m)@ == typing::with_self(old(m)@, ty@),
{
    assert(m@.params.len() == m.params@.len());
    if m.params.len() > 0 && same_text(m.params[0].name.as_str(), "self") {
        let ghost before = m@;
        m.params[0].ty = ty.dup();
        proof {
            assert(m.params.deep_view() =~= before.params.update(
                0,
                ParamV { ty: ty@, ..before.params[0] },
            ));
        }
    }
}

/// Where `main` is defined.
fn span_of_main(items: &Vec<TopLevel>) -> (r: Span)
    ensures
        r == typing::main_span(items.deep_view(), 0),
{
    let mut i: usize = 0;
    while i < items.len()
        invariant
            i <= items@.len(),
            typing::main_span(items.deep_view(), 0) == typing::main_span(items.deep_view(), i as int),
        decreases items@.len() - i,
    {
        assert(items.deep_view()[i as int] == items@[i as int]@);
        if let TopLevel::Function(f) = &items[i] {
            if same_text(f.name.as_str(), "main") {
                return f.span;
            }
        }
        i = i + 1;
    }
    Span::dummy()
}

} // verus!
