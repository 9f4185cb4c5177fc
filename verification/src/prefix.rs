//! Module prefixes: the global names of an imported module get its name in front.
use crate::ast::{
    Binding, BindingV, Const, ConstV, EnumDef, EnumDefV, Expr, ExprKind, ExprKindV, ExprV,
    ExternFn, ExternFnV, FieldDef, FieldDefV, Function, FunctionV, GenericFunction,
    GenericFunctionV, ImplBlock, ImplBlockV, MacroDef, MacroDefV, MatchArm, MatchArmV, MethodSig,
    MethodSigV, Param, ParamV, StructDef, StructDefV, TopLevel, TopLevelV, TraitDef, TraitDefV,
    Type, TypeV, VariantDef, VariantDefV,
};
use crate::ast;
use crate::table::{NameTable, Table};
use crate::text::Dup;
use vstd::prelude::*;
use vstd::string::*;

verus! {

/// Which names get which prefix.
pub struct Prefix {
    pub module: Seq<char>,
    /// The names that the module defines.
    pub globals: Set<Seq<char>>,
}

/// `mod/name`
pub open spec fn qualified(module: Seq<char>, name: Seq<char>) -> Seq<char> {
    module + "/"@ + name
}

/// A global name gets the prefix, any other name stays.
pub open spec fn prefixed(name: Seq<char>, p: Prefix) -> Seq<char> {
    if p.globals.contains(name) {
        qualified(p.module, name)
    } else {
        name
    }
}

/// The names in a type get the prefix, but not those of type parameters.
pub open spec fn prefixed_type(t: TypeV, p: Prefix, type_params: Set<Seq<char>>) -> TypeV
    decreases t,
{
    match t {
        TypeV::Named(n) => if type_params.contains(n) {
            t
        } else {
            TypeV::Named(prefixed(n, p))
        },
        TypeV::Array { elem, len } => TypeV::Array {
            elem: Box::new(prefixed_type(*elem, p, type_params)),
            len,
        },
        _ => t,
    }
}

/// A name that may be that of a local variable.
pub open spec fn prefixed_var(name: Seq<char>, p: Prefix, locals: Set<Seq<char>>) -> Seq<char> {
    if locals.contains(name) {
        name
    } else {
        prefixed(name, p)
    }
}

/// `locals` with the variables from place `i` on.
pub open spec fn with_bound(bs: Seq<BindingV>, i: int, locals: Set<Seq<char>>) -> Set<Seq<char>>
    decreases bs.len() - i,
{
    if i < 0 || i >= bs.len() {
        locals
    } else {
        with_bound(bs, i + 1, locals.insert(bs[i].name))
    }
}

/// `locals` with the variable of a match arm.
pub open spec fn with_binding(b: Option<Seq<char>>, locals: Set<Seq<char>>) -> Set<Seq<char>> {
    match b {
        Some(n) => locals.insert(n),
        None => locals,
    }
}

/// An expression with the prefix on its global names. Local variables hide globals.
pub open spec fn prefixed_expr(e: ExprV, p: Prefix, locals: Set<Seq<char>>) -> ExprV
    decreases e,
{
    ExprV { kind: prefixed_kind(e.kind, p, locals), ..e }
}

pub open spec fn prefixed_kind(k: ExprKindV, p: Prefix, locals: Set<Seq<char>>) -> ExprKindV
    decreases k,
{
    match k {
        ExprKindV::Lit(_) => k,
        ExprKindV::Break => k,
        ExprKindV::Var(name) => ExprKindV::Var(prefixed_var(name, p, locals)),
        ExprKindV::Assign { name, value } => ExprKindV::Assign {
            name,
            value: Box::new(prefixed_expr(*value, p, locals)),
        },
        ExprKindV::Call { callee, args } => ExprKindV::Call {
            callee: prefixed_var(callee, p, locals),
            args: prefixed_exprs(args, p, locals),
        },
        ExprKindV::If { cond, then_branch, else_branch } => ExprKindV::If {
            cond: Box::new(prefixed_expr(*cond, p, locals)),
            then_branch: Box::new(prefixed_expr(*then_branch, p, locals)),
            else_branch: Box::new(prefixed_expr(*else_branch, p, locals)),
        },
        ExprKindV::Let { bindings, body } => ExprKindV::Let {
            bindings: prefixed_bindings(bindings, p, locals),
            body: Box::new(prefixed_expr(*body, p, with_bound(bindings, 0, locals))),
        },
        ExprKindV::Do(es) => ExprKindV::Do(prefixed_exprs(es, p, locals)),
        ExprKindV::Cast { ty, expr } => ExprKindV::Cast {
            ty: prefixed_type(ty, p, Set::empty()),
            expr: Box::new(prefixed_expr(*expr, p, locals)),
        },
        ExprKindV::While { cond, body } => ExprKindV::While {
            cond: Box::new(prefixed_expr(*cond, p, locals)),
            body: Box::new(prefixed_expr(*body, p, locals)),
        },
        ExprKindV::Loop { body } => ExprKindV::Loop {
            body: Box::new(prefixed_expr(*body, p, locals)),
        },
        ExprKindV::ArrayLit { elem_ty, elems } => ExprKindV::ArrayLit {
            elem_ty: prefixed_type(elem_ty, p, Set::empty()),
            elems: prefixed_exprs(elems, p, locals),
        },
        ExprKindV::Field { base, field } => ExprKindV::Field {
            base: Box::new(prefixed_expr(*base, p, locals)),
            field,
        },
        ExprKindV::Match { scrutinee, arms } => ExprKindV::Match {
            scrutinee: Box::new(prefixed_expr(*scrutinee, p, locals)),
            arms: prefixed_arms(arms, p, locals),
        },
    }
}

pub open spec fn prefixed_exprs(es: Seq<ExprV>, p: Prefix, locals: Set<Seq<char>>) -> Seq<ExprV>
    decreases es,
{
    Seq::new(
        es.len(),
        |i: int|
            if 0 <= i < es.len() {
                prefixed_expr(es[i], p, locals)
            } else {
                arbitrary()
            },
    )
}

/// The values of bindings do not see the variables that are bound.
pub open spec fn prefixed_bindings(bs: Seq<BindingV>, p: Prefix, locals: Set<Seq<char>>) -> Seq<
    BindingV,
>
    decreases bs,
{
    Seq::new(
        bs.len(),
        |i: int|
            if 0 <= i < bs.len() {
                BindingV {
                    ty: prefixed_type(bs[i].ty, p, Set::empty()),
                    value: prefixed_expr(bs[i].value, p, locals),
                    ..bs[i]
                }
            } else {
                arbitrary()
            },
    )
}

pub open spec fn prefixed_arms(arms: Seq<MatchArmV>, p: Prefix, locals: Set<Seq<char>>) -> Seq<
    MatchArmV,
>
    decreases arms,
{
    Seq::new(
        arms.len(),
        |i: int|
            if 0 <= i < arms.len() {
                MatchArmV {
                    variant: prefixed(arms[i].variant, p),
                    body: prefixed_expr(arms[i].body, p, with_binding(arms[i].binding, locals)),
                    ..arms[i]
                }
            } else {
                arbitrary()
            },
    )
}

pub open spec fn prefixed_params(ps: Seq<ParamV>, p: Prefix, type_params: Set<Seq<char>>) -> Seq<
    ParamV,
> {
    Seq::new(ps.len(), |i: int| ParamV { ty: prefixed_type(ps[i].ty, p, type_params), ..ps[i] })
}

/// The names of parameters from place `i` on, and those in `names`.
pub open spec fn param_names(ps: Seq<ParamV>, i: int, names: Set<Seq<char>>) -> Set<Seq<char>>
    decreases ps.len() - i,
{
    if i < 0 || i >= ps.len() {
        names
    } else {
        param_names(ps, i + 1, names.insert(ps[i].name))
    }
}

/// The names from place `i` on, and those in `names`.
pub open spec fn all_names(ns: Seq<Seq<char>>, i: int, names: Set<Seq<char>>) -> Set<Seq<char>>
    decreases ns.len() - i,
{
    if i < 0 || i >= ns.len() {
        names
    } else {
        all_names(ns, i + 1, names.insert(ns[i]))
    }
}

/// The names of type parameters from place `i` on, and those in `names`.
pub open spec fn type_param_names(
    tps: Seq<(Seq<char>, Option<Seq<char>>)>,
    i: int,
    names: Set<Seq<char>>,
) -> Set<Seq<char>>
    decreases tps.len() - i,
{
    if i < 0 || i >= tps.len() {
        names
    } else {
        type_param_names(tps, i + 1, names.insert(tps[i].0))
    }
}

/// The bounds of type parameters are traits.
pub open spec fn prefixed_bounds(tps: Seq<(Seq<char>, Option<Seq<char>>)>, p: Prefix) -> Seq<
    (Seq<char>, Option<Seq<char>>),
> {
    Seq::new(
        tps.len(),
        |i: int|
            (
                tps[i].0,
                match tps[i].1 {
                    Some(b) => Some(prefixed(b, p)),
                    None => None,
                },
            ),
    )
}

/// A function; `name` is its name then.
pub open spec fn prefixed_function(f: FunctionV, name: Seq<char>, p: Prefix) -> FunctionV {
    FunctionV {
        name,
        params: prefixed_params(f.params, p, Set::empty()),
        ret: prefixed_type(f.ret, p, Set::empty()),
        body: prefixed_expr(f.body, p, param_names(f.params, 0, Set::empty())),
        ..f
    }
}

pub open spec fn prefixed_fields(fs: Seq<FieldDefV>, p: Prefix) -> Seq<FieldDefV> {
    Seq::new(fs.len(), |i: int| FieldDefV { ty: prefixed_type(fs[i].ty, p, Set::empty()), ..fs[i] })
}

pub open spec fn prefixed_variants(vs: Seq<VariantDefV>, p: Prefix) -> Seq<VariantDefV> {
    Seq::new(
        vs.len(),
        |i: int|
            VariantDefV {
                name: prefixed(vs[i].name, p),
                payload: match vs[i].payload {
                    Some(t) => Some(prefixed_type(t, p, Set::empty())),
                    None => None,
                },
                ..vs[i]
            },
    )
}

pub open spec fn prefixed_sigs(ms: Seq<MethodSigV>, p: Prefix) -> Seq<MethodSigV> {
    Seq::new(
        ms.len(),
        |i: int|
            MethodSigV {
                params: prefixed_params(ms[i].params, p, Set::empty()),
                ret: prefixed_type(ms[i].ret, p, Set::empty()),
                ..ms[i]
            },
    )
}

/// The names of methods stay.
pub open spec fn prefixed_methods(ms: Seq<FunctionV>, p: Prefix) -> Seq<FunctionV> {
    Seq::new(ms.len(), |i: int| prefixed_function(ms[i], ms[i].name, p))
}

/// A top-level form with the prefix on its global names.
pub open spec fn prefixed_item(it: TopLevelV, p: Prefix) -> TopLevelV {
    match it {
        TopLevelV::Function(f) => TopLevelV::Function(
            prefixed_function(f, prefixed(f.name, p), p),
        ),
        TopLevelV::GenericFunction(g) => {
            let tps = type_param_names(g.type_params, 0, Set::empty());
            TopLevelV::GenericFunction(
                GenericFunctionV {
                    name: prefixed(g.name, p),
                    type_params: prefixed_bounds(g.type_params, p),
                    params: prefixed_params(g.params, p, tps),
                    ret: prefixed_type(g.ret, p, tps),
                    body: prefixed_expr(g.body, p, param_names(g.params, 0, Set::empty())),
                    ..g
                },
            )
        },
        TopLevelV::Const(c) => TopLevelV::Const(
            ConstV {
                name: prefixed(c.name, p),
                ty: prefixed_type(c.ty, p, Set::empty()),
                value: prefixed_expr(c.value, p, Set::empty()),
                ..c
            },
        ),
        TopLevelV::Extern(e) => TopLevelV::Extern(
            ExternFnV {
                name: prefixed(e.name, p),
                params: prefixed_params(e.params, p, Set::empty()),
                ret: prefixed_type(e.ret, p, Set::empty()),
                ..e
            },
        ),
        TopLevelV::Struct(s) => TopLevelV::Struct(
            StructDefV { name: prefixed(s.name, p), fields: prefixed_fields(s.fields, p), ..s },
        ),
        TopLevelV::Enum(e) => TopLevelV::Enum(
            EnumDefV { name: prefixed(e.name, p), variants: prefixed_variants(e.variants, p), ..e },
        ),
        TopLevelV::Trait(t) => TopLevelV::Trait(
            TraitDefV { name: prefixed(t.name, p), methods: prefixed_sigs(t.methods, p), ..t },
        ),
        TopLevelV::Impl(ib) => TopLevelV::Impl(
            ImplBlockV {
                trait_name: prefixed(ib.trait_name, p),
                for_ty: prefixed_type(ib.for_ty, p, Set::empty()),
                methods: prefixed_methods(ib.methods, p),
                ..ib
            },
        ),
        TopLevelV::DefMacro(m) => TopLevelV::DefMacro(
            MacroDefV {
                name: prefixed(m.name, p),
                template: prefixed_expr(m.template, p, all_names(m.params, 0, Set::empty())),
                ..m
            },
        ),
        TopLevelV::Module { .. } => it,
        TopLevelV::Import { .. } => it,
    }
}

/// The names of variants from place `i` on, and those in `names`.
pub open spec fn variant_names(vs: Seq<VariantDefV>, i: int, names: Set<Seq<char>>) -> Set<Seq<char>>
    decreases vs.len() - i,
{
    if i < 0 || i >= vs.len() {
        names
    } else {
        variant_names(vs, i + 1, names.insert(vs[i].name))
    }
}

/// The names that a top-level form defines, and those in `names`.
pub open spec fn defined(it: TopLevelV, names: Set<Seq<char>>) -> Set<Seq<char>> {
    match it {
        TopLevelV::Function(f) => names.insert(f.name),
        TopLevelV::GenericFunction(f) => names.insert(f.name),
        TopLevelV::Const(c) => names.insert(c.name),
        TopLevelV::Extern(e) => names.insert(e.name),
        TopLevelV::Struct(s) => names.insert(s.name),
        TopLevelV::Enum(e) => variant_names(e.variants, 0, names.insert(e.name)),
        TopLevelV::Trait(t) => names.insert(t.name),
        TopLevelV::DefMacro(m) => names.insert(m.name),
        _ => names,
    }
}

/// The names that the items from place `i` on define, and those in `names`.
pub open spec fn all_defined(items: Seq<TopLevelV>, i: int, names: Set<Seq<char>>) -> Set<Seq<char>>
    decreases items.len() - i,
{
    if i < 0 || i >= items.len() {
        names
    } else {
        all_defined(items, i + 1, defined(items[i], names))
    }
}

/// The items of a module with its name in front of what they define.
pub open spec fn prefixed_items(module: Seq<char>, items: Seq<TopLevelV>) -> Seq<TopLevelV> {
    let p = Prefix { module, globals: all_defined(items, 0, Set::empty()) };
    Seq::new(items.len(), |i: int| prefixed_item(items[i], p))
}

/// A set of names.
pub(crate) type Names = NameTable<bool>;

/// No names.
fn no_names() -> (r: Names)
    ensures
        r@.dom() == Set::<Seq<char>>::empty(),
{
    let r: Names = Table::new();
    assert(r@.dom() =~= Set::empty());
    r
}

/// Puts a name into a set.
fn add_name(names: &mut Names, n: &String)
    ensures
        final(names)@.dom() == old(names)@.dom().insert(n@),
{
    names.put(n.dup(), true);
    assert(names@.dom() =~= old(names)@.dom().insert(n@));
}

/// The prefix of a module.
struct Prefixer {
    module: String,
    globals: Names,
}

impl View for Prefixer {
    type V = Prefix;

    closed spec fn view(&self) -> Prefix {
        Prefix { module: self.module@, globals: self.globals@.dom() }
    }
}

/// `mod/name`
pub(crate) fn qualify(module: &str, name: &str) -> (r: String)
    ensures
        r@ == qualified(module@, name@),
{
    let mut s = String::from_str(module);
    s.append("/");
    s.append(name);
    s
}

impl Prefixer {
    fn name(&self, n: &String) -> (r: String)
        ensures
            r@ == prefixed(n@, self@),
    {
        if self.globals.has(n) {
            qualify(self.module.as_str(), n.as_str())
        } else {
            n.dup()
        }
    }

    fn opt_name(&self, n: &Option<String>) -> (r: Option<String>)
        ensures
            r.deep_view() == (match n.deep_view() {
                Some(b) => Some(prefixed(b, self@)),
                None => None,
            }),
    {
        match n {
            Some(b) => Some(self.name(b)),
            None => None,
        }
    }

    fn type_with_params(&self, t: &Type, type_params: &Names) -> (r: Type)
        ensures
            r@ == prefixed_type(t@, self@, type_params@.dom()),
        decreases t,
    {
        match t {
            Type::Named(n) => {
                if type_params.has(n) {
                    t.dup()
                } else {
                    Type::Named(self.name(n))
                }
            },
            Type::Array { elem, len } => Type::Array {
                elem: Box::new(self.type_with_params(elem, type_params)),
                len: *len,
            },
            _ => t.dup(),
        }
    }

    fn ty(&self, t: &Type) -> (r: Type)
        ensures
            r@ == prefixed_type(t@, self@, Set::empty()),
    {
        self.type_with_params(t, &no_names())
    }

    fn var(&self, n: &String, locals: &Names) -> (r: String)
        ensures
            r@ == prefixed_var(n@, self@, locals@.dom()),
    {
        if locals.has(n) {
            n.dup()
        } else {
            self.name(n)
        }
    }

    fn expr(&self, e: &Expr, locals: &Names) -> (r: Expr)
        ensures
            ast::expr_v(r) == prefixed_expr(ast::expr_v(*e), self@, locals@.dom()),
        decreases *e, 1int,
    {
        Expr { kind: self.kind(&e.kind, locals), span: e.span, ty: e.ty.dup() }
    }

    fn boxed(&self, e: &Box<Expr>, locals: &Names) -> (r: Box<Expr>)
        ensures
            ast::expr_v(*r) == prefixed_expr(ast::expr_v(**e), self@, locals@.dom()),
        decreases **e, 2int,
    {
        Box::new(self.expr(e, locals))
    }

    fn kind(&self, k: &ExprKind, locals: &Names) -> (r: ExprKind)
        ensures
            ast::kind_v(r) == prefixed_kind(ast::kind_v(*k), self@, locals@.dom()),
        decreases *k, 0int,
    {
        proof {
            reveal_with_fuel(prefixed_kind, 2);
            reveal_with_fuel(ast::kind_v, 2);
        }
        match k {
            ExprKind::Lit(l) => ExprKind::Lit(l.dup()),
            ExprKind::Break => ExprKind::Break,
            ExprKind::Var(n) => ExprKind::Var(self.var(n, locals)),
            ExprKind::Assign { name, value } => ExprKind::Assign {
                name: name.dup(),
                value: self.boxed(value, locals),
            },
            ExprKind::Call { callee, args } => ExprKind::Call {
                callee: self.var(callee, locals),
                args: self.exprs(args, locals),
            },
            ExprKind::If { cond, then_branch, else_branch } => ExprKind::If {
                cond: self.boxed(cond, locals),
                then_branch: self.boxed(then_branch, locals),
                else_branch: self.boxed(else_branch, locals),
            },
            ExprKind::Let { bindings, body } => {
                let bs = self.bindings(bindings, locals);
                let inner = bound_names(bindings, locals);
                ExprKind::Let { bindings: bs, body: self.boxed(body, &inner) }
            },
            ExprKind::Do(es) => ExprKind::Do(self.exprs(es, locals)),
            ExprKind::Cast { ty, expr } => ExprKind::Cast {
                ty: self.ty(ty),
                expr: self.boxed(expr, locals),
            },
            ExprKind::While { cond, body } => ExprKind::While {
                cond: self.boxed(cond, locals),
                body: self.boxed(body, locals),
            },
            ExprKind::Loop { body } => ExprKind::Loop { body: self.boxed(body, locals) },
            ExprKind::ArrayLit { elem_ty, elems } => ExprKind::ArrayLit {
                elem_ty: self.ty(elem_ty),
                elems: self.exprs(elems, locals),
            },
            ExprKind::Field { base, field } => ExprKind::Field {
                base: self.boxed(base, locals),
                field: field.dup(),
            },
            ExprKind::Match { scrutinee, arms } => ExprKind::Match {
                scrutinee: self.boxed(scrutinee, locals),
                arms: self.arms(arms, locals),
            },
        }
    }

    fn exprs(&self, xs: &Vec<Expr>, locals: &Names) -> (r: Vec<Expr>)
        ensures
            ast::exprs_v(r@) == prefixed_exprs(ast::exprs_v(xs@), self@, locals@.dom()),
        decreases xs@, 0int,
    {
        let mut out: Vec<Expr> = Vec::new();
        let mut i: usize = 0;
        while i < xs.len()
            invariant
                i <= xs@.len(),
                out@.len() == i,
                forall|j: int|
                    0 <= j < i ==> ast::expr_v(#[trigger] out@[j]) == prefixed_expr(
                        ast::expr_v(xs@[j]),
                        self@,
                        locals@.dom(),
                    ),
            decreases xs@.len() - i,
        {
            out.push(self.expr(&xs[i], locals));
            i += 1;
        }
        assert(ast::exprs_v(out@) =~= prefixed_exprs(ast::exprs_v(xs@), self@, locals@.dom()));
        out
    }

    fn binding(&self, b: &Binding, locals: &Names) -> (r: Binding)
        ensures
            ast::binding_v(r) == (BindingV {
                ty: prefixed_type(b.ty@, self@, Set::empty()),
                value: prefixed_expr(ast::expr_v(b.value), self@, locals@.dom()),
                ..ast::binding_v(*b)
            }),
        decreases *b, 2int,
    {
        Binding {
            name: b.name.dup(),
            ty: self.ty(&b.ty),
            value: self.expr(&b.value, locals),
            span: b.span,
        }
    }

    fn bindings(&self, xs: &Vec<Binding>, locals: &Names) -> (r: Vec<Binding>)
        ensures
            ast::bindings_v(r@) == prefixed_bindings(ast::bindings_v(xs@), self@, locals@.dom()),
        decreases xs@, 0int,
    {
        let mut out: Vec<Binding> = Vec::new();
        let mut i: usize = 0;
        while i < xs.len()
            invariant
                i <= xs@.len(),
                out@.len() == i,
                forall|j: int|
                    0 <= j < i ==> ast::binding_v(#[trigger] out@[j]) == prefixed_bindings(
                        ast::bindings_v(xs@),
                        self@,
                        locals@.dom(),
                    )[j],
            decreases xs@.len() - i,
        {
            out.push(self.binding(&xs[i], locals));
            i += 1;
        }
        assert(ast::bindings_v(out@) =~= prefixed_bindings(ast::bindings_v(xs@), self@, locals@.dom()));
        out
    }

    fn arm(&self, a: &MatchArm, locals: &Names) -> (r: MatchArm)
        ensures
            ast::arm_v(r) == (MatchArmV {
                variant: prefixed(a.variant@, self@),
                body: prefixed_expr(
                    ast::expr_v(a.body),
                    self@,
                    with_binding(a.binding.deep_view(), locals@.dom()),
                ),
                ..ast::arm_v(*a)
            }),
        decreases *a, 2int,
    {
        let body = match &a.binding {
            Some(n) => {
                let mut inner = locals.copy();
                add_name(&mut inner, n);
                self.expr(&a.body, &inner)
            },
            None => self.expr(&a.body, locals),
        };
        MatchArm {
            variant: self.name(&a.variant),
            binding: a.binding.dup(),
            body,
            span: a.span,
        }
    }

    fn arms(&self, xs: &Vec<MatchArm>, locals: &Names) -> (r: Vec<MatchArm>)
        ensures
            ast::arms_v(r@) == prefixed_arms(ast::arms_v(xs@), self@, locals@.dom()),
        decreases xs@, 0int,
    {
        let mut out: Vec<MatchArm> = Vec::new();
        let mut i: usize = 0;
        while i < xs.len()
            invariant
                i <= xs@.len(),
                out@.len() == i,
                forall|j: int|
                    0 <= j < i ==> ast::arm_v(#[trigger] out@[j]) == prefixed_arms(
                        ast::arms_v(xs@),
                        self@,
                        locals@.dom(),
                    )[j],
            decreases xs@.len() - i,
        {
            out.push(self.arm(&xs[i], locals));
            i += 1;
        }
        assert(ast::arms_v(out@) =~= prefixed_arms(ast::arms_v(xs@), self@, locals@.dom()));
        out
    }

    fn params(&self, xs: &Vec<Param>, type_params: &Names) -> (r: Vec<Param>)
        ensures
            r.deep_view() == prefixed_params(xs.deep_view(), self@, type_params@.dom()),
    {
        let mut out: Vec<Param> = Vec::new();
        let mut i: usize = 0;
        while i < xs.len()
            invariant
                i <= xs@.len(),
                out@.len() == i,
                forall|j: int|
                    0 <= j < i ==> (#[trigger] out@[j])@ == (ParamV {
                        ty: prefixed_type(xs@[j].ty@, self@, type_params@.dom()),
                        ..xs@[j]@
                    }),
            decreases xs@.len() - i,
        {
            let ty = self.type_with_params(&xs[i].ty, type_params);
            out.push(Param { name: xs[i].name.dup(), ty, span: xs[i].span });
            i += 1;
        }
        assert(out.deep_view() =~= prefixed_params(xs.deep_view(), self@, type_params@.dom()));
        out
    }

    fn bounds(&self, xs: &Vec<(String, Option<String>)>) -> (r: Vec<(String, Option<String>)>)
        ensures
            r.deep_view() == prefixed_bounds(xs.deep_view(), self@),
    {
        let mut out: Vec<(String, Option<String>)> = Vec::new();
        let mut i: usize = 0;
        while i < xs.len()
            invariant
                i <= xs@.len(),
                out@.len() == i,
                forall|j: int|
                    0 <= j < i ==> (#[trigger] out@[j]).deep_view() == prefixed_bounds(
                        xs.deep_view(),
                        self@,
                    )[j],
            decreases xs@.len() - i,
        {
            assert(xs.deep_view()[i as int] == xs@[i as int].deep_view());
            out.push((xs[i].0.dup(), self.opt_name(&xs[i].1)));
            i += 1;
        }
        assert(out.deep_view() =~= prefixed_bounds(xs.deep_view(), self@));
        out
    }

    fn function(&self, f: &Function, name: String) -> (r: Function)
        ensures
            r@ == prefixed_function(f@, name@, self@),
    {
        let locals = names_of_params(&f.params);
        Function {
            name,
            params: self.params(&f.params, &no_names()),
            ret: self.ty(&f.ret),
            body: self.expr(&f.body, &locals),
            span: f.span,
        }
    }

    fn fields(&self, xs: &Vec<FieldDef>) -> (r: Vec<FieldDef>)
        ensures
            r.deep_view() == prefixed_fields(xs.deep_view(), self@),
    {
        let mut out: Vec<FieldDef> = Vec::new();
        let mut i: usize = 0;
        while i < xs.len()
            invariant
                i <= xs@.len(),
                out@.len() == i,
                forall|j: int|
                    0 <= j < i ==> (#[trigger] out@[j])@ == (FieldDefV {
                        ty: prefixed_type(xs@[j].ty@, self@, Set::empty()),
                        ..xs@[j]@
                    }),
            decreases xs@.len() - i,
        {
            out.push(
                FieldDef { name: xs[i].name.dup(), ty: self.ty(&xs[i].ty), span: xs[i].span },
            );
            i += 1;
        }
        assert(out.deep_view() =~= prefixed_fields(xs.deep_view(), self@));
        out
    }

    fn variants(&self, xs: &Vec<VariantDef>) -> (r: Vec<VariantDef>)
        ensures
            r.deep_view() == prefixed_variants(xs.deep_view(), self@),
    {
        let mut out: Vec<VariantDef> = Vec::new();
        let mut i: usize = 0;
        while i < xs.len()
            invariant
                i <= xs@.len(),
                out@.len() == i,
                forall|j: int|
                    0 <= j < i ==> (#[trigger] out@[j])@ == prefixed_variants(
                        xs.deep_view(),
                        self@,
                    )[j],
            decreases xs@.len() - i,
        {
            assert(xs.deep_view()[i as int] == xs@[i as int]@);
            let payload = match &xs[i].payload {
                Some(t) => Some(self.ty(t)),
                None => None,
            };
            out.push(VariantDef { name: self.name(&xs[i].name), payload, span: xs[i].span });
            i += 1;
        }
        assert(out.deep_view() =~= prefixed_variants(xs.deep_view(), self@));
        out
    }

    fn sigs(&self, xs: &Vec<MethodSig>) -> (r: Vec<MethodSig>)
        ensures
            r.deep_view() == prefixed_sigs(xs.deep_view(), self@),
    {
        let mut out: Vec<MethodSig> = Vec::new();
        let mut i: usize = 0;
        while i < xs.len()
            invariant
                i <= xs@.len(),
                out@.len() == i,
                forall|j: int|
                    0 <= j < i ==> (#[trigger] out@[j])@ == prefixed_sigs(xs.deep_view(), self@)[j],
            decreases xs@.len() - i,
        {
            assert(xs.deep_view()[i as int] == xs@[i as int]@);
            out.push(
                MethodSig {
                    name: xs[i].name.dup(),
                    params: self.params(&xs[i].params, &no_names()),
                    ret: self.ty(&xs[i].ret),
                    span: xs[i].span,
                },
            );
            i += 1;
        }
        assert(out.deep_view() =~= prefixed_sigs(xs.deep_view(), self@));
        out
    }

    fn methods(&self, xs: &Vec<Function>) -> (r: Vec<Function>)
        ensures
            r.deep_view() == prefixed_methods(xs.deep_view(), self@),
    {
        let mut out: Vec<Function> = Vec::new();
        let mut i: usize = 0;
        while i < xs.len()
            invariant
                i <= xs@.len(),
                out@.len() == i,
                forall|j: int|
                    0 <= j < i ==> (#[trigger] out@[j])@ == prefixed_function(
                        xs@[j]@,
                        xs@[j].name@,
                        self@,
                    ),
            decreases xs@.len() - i,
        {
            out.push(self.function(&xs[i], xs[i].name.dup()));
            i += 1;
        }
        assert(out.deep_view() =~= prefixed_methods(xs.deep_view(), self@));
        out
    }

    /// A top-level form with the prefix on its global names.
    fn toplevel(&self, it: &TopLevel) -> (r: TopLevel)
        ensures
            r@ == prefixed_item(it@, self@),
    {
        match it {
            TopLevel::Function(f) => TopLevel::Function(self.function(f, self.name(&f.name))),
            TopLevel::GenericFunction(g) => {
                let tps = names_of_type_params(&g.type_params);
                let locals = names_of_params(&g.params);
                TopLevel::GenericFunction(
                    GenericFunction {
                        name: self.name(&g.name),
                        type_params: self.bounds(&g.type_params),
                        params: self.params(&g.params, &tps),
                        ret: self.type_with_params(&g.ret, &tps),
                        body: self.expr(&g.body, &locals),
                        span: g.span,
                    },
                )
            },
            TopLevel::Const(c) => TopLevel::Const(
                Const {
                    name: self.name(&c.name),
                    ty: self.ty(&c.ty),
                    value: self.expr(&c.value, &no_names()),
                    span: c.span,
                },
            ),
            TopLevel::Extern(e) => TopLevel::Extern(
                ExternFn {
                    abi: e.abi.dup(),
                    name: self.name(&e.name),
                    params: self.params(&e.params, &no_names()),
                    ret: self.ty(&e.ret),
                    span: e.span,
                },
            ),
            TopLevel::Struct(s) => TopLevel::Struct(
                StructDef {
                    name: self.name(&s.name),
                    fields: self.fields(&s.fields),
                    span: s.span,
                },
            ),
            TopLevel::Enum(e) => TopLevel::Enum(
                EnumDef {
                    name: self.name(&e.name),
                    variants: self.variants(&e.variants),
                    span: e.span,
                },
            ),
            TopLevel::Trait(t) => TopLevel::Trait(
                TraitDef {
                    name: self.name(&t.name),
                    methods: self.sigs(&t.methods),
                    span: t.span,
                },
            ),
            TopLevel::Impl(ib) => TopLevel::Impl(
                ImplBlock {
                    trait_name: self.name(&ib.trait_name),
                    for_ty: self.ty(&ib.for_ty),
                    methods: self.methods(&ib.methods),
                    span: ib.span,
                },
            ),
            TopLevel::DefMacro(m) => {
                let locals = names_in(&m.params);
                TopLevel::DefMacro(
                    MacroDef {
                        name: self.name(&m.name),
                        params: m.params.dup(),
                        template: self.expr(&m.template, &locals),
                        span: m.span,
                    },
                )
            },
            TopLevel::Module { .. } => it.dup(),
            TopLevel::Import { .. } => it.dup(),
        }
    }
}

/// `locals` and the variables of a `let`.
fn bound_names(bs: &Vec<Binding>, locals: &Names) -> (r: Names)
    ensures
        r@.dom() == with_bound(ast::bindings_v(bs@), 0, locals@.dom()),
{
    let mut out = locals.copy();
    let mut i: usize = 0;
    while i < bs.len()
        invariant
            i <= bs@.len(),
            with_bound(ast::bindings_v(bs@), 0, locals@.dom()) == with_bound(
                ast::bindings_v(bs@),
                i as int,
                out@.dom(),
            ),
        decreases bs@.len() - i,
    {
        assert(ast::bindings_v(bs@)[i as int].name == bs@[i as int].name@);
        add_name(&mut out, &bs[i].name);
        i += 1;
    }
    out
}

/// The names of parameters.
fn names_of_params(ps: &Vec<Param>) -> (r: Names)
    ensures
        r@.dom() == param_names(ps.deep_view(), 0, Set::empty()),
{
    let mut out = no_names();
    let mut i: usize = 0;
    while i < ps.len()
        invariant
            i <= ps@.len(),
            param_names(ps.deep_view(), 0, Set::empty()) == param_names(
                ps.deep_view(),
                i as int,
                out@.dom(),
            ),
        decreases ps@.len() - i,
    {
        assert(ps.deep_view()[i as int] == ps@[i as int]@);
        add_name(&mut out, &ps[i].name);
        i += 1;
    }
    out
}

/// The names of type parameters.
fn names_of_type_params(tps: &Vec<(String, Option<String>)>) -> (r: Names)
    ensures
        r@.dom() == type_param_names(tps.deep_view(), 0, Set::empty()),
{
    let mut out = no_names();
    let mut i: usize = 0;
    while i < tps.len()
        invariant
            i <= tps@.len(),
            type_param_names(tps.deep_view(), 0, Set::empty()) == type_param_names(
                tps.deep_view(),
                i as int,
                out@.dom(),
            ),
        decreases tps@.len() - i,
    {
        assert(tps.deep_view()[i as int] == tps@[i as int].deep_view());
        add_name(&mut out, &tps[i].0);
        i += 1;
    }
    out
}

/// A list of names as a set.
fn names_in(ns: &Vec<String>) -> (r: Names)
    ensures
        r@.dom() == all_names(ns.deep_view(), 0, Set::empty()),
{
    let mut out = no_names();
    let mut i: usize = 0;
    while i < ns.len()
        invariant
            i <= ns@.len(),
            all_names(ns.deep_view(), 0, Set::empty()) == all_names(
                ns.deep_view(),
                i as int,
                out@.dom(),
            ),
        decreases ns@.len() - i,
    {
        assert(ns.deep_view()[i as int] == ns@[i as int]@);
        add_name(&mut out, &ns[i]);
        i += 1;
    }
    out
}

/// Puts the names that a top-level form defines into a set.
fn add_defined(it: &TopLevel, names: &mut Names)
    ensures
        final(names)@.dom() == defined(it@, old(names)@.dom()),
{
    match it {
        TopLevel::Function(f) => add_name(names, &f.name),
        TopLevel::GenericFunction(f) => add_name(names, &f.name),
        TopLevel::Const(c) => add_name(names, &c.name),
        TopLevel::Extern(e) => add_name(names, &e.name),
        TopLevel::Struct(s) => add_name(names, &s.name),
        TopLevel::Enum(e) => {
            add_name(names, &e.name);
            let ghost start = names@.dom();
            let mut i: usize = 0;
            while i < e.variants.len()
                invariant
                    i <= e.variants@.len(),
                    variant_names(e@.variants, 0, start) == variant_names(
                        e@.variants,
                        i as int,
                        names@.dom(),
                    ),
                decreases e.variants@.len() - i,
            {
                assert(e@.variants[i as int] == e.variants@[i as int]@);
                add_name(names, &e.variants[i].name);
                i += 1;
            }
        },
        TopLevel::Trait(t) => add_name(names, &t.name),
        TopLevel::DefMacro(m) => add_name(names, &m.name),
        _ => {},
    }
}

/// The names that a module defines.
fn collect_globals(items: &Vec<TopLevel>) -> (r: Names)
    ensures
        r@.dom() == all_defined(items.deep_view(), 0, Set::empty()),
{
    let mut out = no_names();
    let mut i: usize = 0;
    while i < items.len()
        invariant
            i <= items@.len(),
            all_defined(items.deep_view(), 0, Set::empty()) == all_defined(
                items.deep_view(),
                i as int,
                out@.dom(),
            ),
        decreases items@.len() - i,
    {
        assert(items.deep_view()[i as int] == items@[i as int]@);
        add_defined(&items[i], &mut out);
        i += 1;
    }
    out
}

/// The items of a module with its name in front of what they define.
pub fn prefix_items(mod_name: &str, items: Vec<TopLevel>) -> (r: Vec<TopLevel>)
    ensures
        r.deep_view() == prefixed_items(mod_name@, items.deep_view()),
{
    let p = Prefixer { module: String::from_str(mod_name), globals: collect_globals(&items) };
    let mut out: Vec<TopLevel> = Vec::new();
    let mut i: usize = 0;
    while i < items.len()
        invariant
            i <= items@.len(),
            out@.len() == i,
            forall|j: int| 0 <= j < i ==> (#[trigger] out@[j])@ == prefixed_item(items@[j]@, p@),
        decreases items@.len() - i,
    {
        out.push(p.toplevel(&items[i]));
        i += 1;
    }
    assert(out.deep_view() =~= prefixed_items(mod_name@, items.deep_view()));
    out
}

/// Whether `n` is the qualified name of something in `names`.
pub open spec fn is_qualified(n: Seq<char>, module: Seq<char>, names: Set<Seq<char>>) -> bool {
    exists|m: Seq<char>| #[trigger] names.contains(m) && n == qualified(module, m)
}

proof fn lemma_variant_names(vs: Seq<VariantDefV>, i: int, names: Set<Seq<char>>, n: Seq<char>)
    requires
        0 <= i,
    ensures
        variant_names(vs, i, names).contains(n) <==> names.contains(n) || exists|j: int|
            i <= j < vs.len() && (#[trigger] vs[j]).name == n,
    decreases vs.len() - i,
{
    if i < vs.len() {
        lemma_variant_names(vs, i + 1, names.insert(vs[i].name), n);
        assert(vs[i].name == n ==> names.insert(vs[i].name).contains(n));
    }
}

proof fn lemma_all_defined(items: Seq<TopLevelV>, i: int, names: Set<Seq<char>>, n: Seq<char>)
    requires
        0 <= i,
    ensures
        all_defined(items, i, names).contains(n) <==> names.contains(n) || exists|j: int|
            i <= j < items.len() && defined(#[trigger] items[j], Set::empty()).contains(n),
    decreases items.len() - i,
{
    if i < items.len() {
        lemma_all_defined(items, i + 1, defined(items[i], names), n);
        lemma_defined(items[i], names, n);
    }
}

proof fn lemma_defined(it: TopLevelV, names: Set<Seq<char>>, n: Seq<char>)
    ensures
        defined(it, names).contains(n) <==> names.contains(n) || defined(it, Set::empty()).contains(
            n,
        ),
{
    if let TopLevelV::Enum(e) = it {
        lemma_variant_names(e.variants, 0, names.insert(e.name), n);
        lemma_variant_names(e.variants, 0, Set::empty().insert(e.name), n);
    }
}

/// What a prefixed item defines.
proof fn lemma_prefixed_defines(it: TopLevelV, p: Prefix, n: Seq<char>)
    requires
        forall|m: Seq<char>| #[trigger]
            defined(it, Set::empty()).contains(m) ==> p.globals.contains(m),
    ensures
        defined(prefixed_item(it, p), Set::empty()).contains(n) <==> is_qualified(
            n,
            p.module,
            defined(it, Set::empty()),
        ),
{
    let d = defined(it, Set::<Seq<char>>::empty());
    match it {
        TopLevelV::Function(f) => {
            assert(d.contains(f.name));
        },
        TopLevelV::GenericFunction(f) => {
            assert(d.contains(f.name));
        },
        TopLevelV::Const(c) => {
            assert(d.contains(c.name));
        },
        TopLevelV::Extern(e) => {
            assert(d.contains(e.name));
        },
        TopLevelV::Struct(s) => {
            assert(d.contains(s.name));
        },
        TopLevelV::Trait(t) => {
            assert(d.contains(t.name));
        },
        TopLevelV::DefMacro(m) => {
            assert(d.contains(m.name));
        },
        TopLevelV::Enum(e) => {
            let vs = prefixed_variants(e.variants, p);
            let base = Set::<Seq<char>>::empty();
            assert forall|m: Seq<char>| #[trigger] d.contains(m) <==> m == e.name || exists|j: int|
                0 <= j < e.variants.len() && (#[trigger] e.variants[j]).name == m by {
                lemma_variant_names(e.variants, 0, base.insert(e.name), m);
            }
            assert(d.contains(e.name));
            lemma_variant_names(vs, 0, base.insert(prefixed(e.name, p)), n);
            assert forall|j: int| 0 <= j < vs.len() implies (#[trigger] vs[j]).name == qualified(
                p.module,
                e.variants[j].name,
            ) by {
                assert(d.contains(e.variants[j].name));
            }
            if is_qualified(n, p.module, d) {
                let m = choose|m: Seq<char>| #[trigger] d.contains(m) && n == qualified(p.module, m);
                if m != e.name {
                    let j = choose|j: int|
                        0 <= j < e.variants.len() && (#[trigger] e.variants[j]).name == m;
                    assert(vs[j].name == n);
                }
            }
            if exists|j: int| 0 <= j < vs.len() && (#[trigger] vs[j]).name == n {
                let j = choose|j: int| 0 <= j < vs.len() && (#[trigger] vs[j]).name == n;
                assert(d.contains(e.variants[j].name));
            }
        },
        _ => {},
    }
}

/// What a module defines goes by its qualified name in the merged program, and the
/// merged program gets no other names from the module.
pub proof fn law_definitions_are_qualified(module: Seq<char>, items: Seq<TopLevelV>, n: Seq<char>)
    ensures
        all_defined(prefixed_items(module, items), 0, Set::empty()).contains(n) <==> is_qualified(
            n,
            module,
            all_defined(items, 0, Set::empty()),
        ),
{
    let names = all_defined(items, 0, Set::<Seq<char>>::empty());
    let p = Prefix { module, globals: names };
    let out = prefixed_items(module, items);
    lemma_all_defined(out, 0, Set::empty(), n);
    assert forall|j: int, m: Seq<char>|
        0 <= j < items.len() && #[trigger] defined(items[j], Set::empty()).contains(
            m,
        ) implies names.contains(m) by {
        lemma_all_defined(items, 0, Set::empty(), m);
        let it = items[j];
    }
    assert forall|j: int| 0 <= j < items.len() implies (defined(
        #[trigger] out[j],
        Set::empty(),
    ).contains(n) <==> is_qualified(n, module, defined(items[j], Set::empty()))) by {
        lemma_prefixed_defines(items[j], p, n);
    }
    if is_qualified(n, module, names) {
        let m = choose|m: Seq<char>| #[trigger] names.contains(m) && n == qualified(module, m);
        lemma_all_defined(items, 0, Set::empty(), m);
        let j = choose|j: int|
            0 <= j < items.len() && defined(#[trigger] items[j], Set::empty()).contains(m);
        assert(is_qualified(n, module, defined(items[j], Set::empty())));
        assert(defined(out[j], Set::empty()).contains(n));
    }
    if exists|j: int| 0 <= j < out.len() && defined(#[trigger] out[j], Set::empty()).contains(n) {
        let j = choose|j: int|
            0 <= j < out.len() && defined(#[trigger] out[j], Set::empty()).contains(n);
        let d = defined(items[j], Set::<Seq<char>>::empty());
        let m = choose|m: Seq<char>| #[trigger] d.contains(m) && n == qualified(module, m);
        assert(names.contains(m));
    }
}

/// Names of different modules do not clash, where no module has a slash in its name.
pub proof fn law_modules_do_not_clash(a: Seq<char>, x: Seq<char>, b: Seq<char>, y: Seq<char>)
    requires
        !a.contains('/'),
        !b.contains('/'),
        qualified(a, x) == qualified(b, y),
    ensures
        a == b,
        x == y,
{
    reveal_strlit("/");
    let l = qualified(a, x);
    let r = qualified(b, y);
    assert(l[a.len() as int] == '/');
    assert(r[b.len() as int] == '/');
    if a.len() < b.len() {
        assert(r[a.len() as int] == b[a.len() as int]);
    }
    if b.len() < a.len() {
        assert(l[b.len() as int] == a[b.len() as int]);
    }
    assert forall|i: int| 0 <= i < a.len() implies a[i] == b[i] by {
        assert(l[i] == a[i] && r[i] == b[i]);
    }
    assert(a =~= b);
    assert(l.len() == a.len() + 1 + x.len() && r.len() == b.len() + 1 + y.len());
    assert forall|i: int| 0 <= i < x.len() implies x[i] == y[i] by {
        assert(l[a.len() + 1 + i] == x[i] && r[a.len() + 1 + i] == y[i]);
    }
    assert(x =~= y);
}

} // verus!
