//! Syntax tree of Risp, and its mathematical model.
//!
//! Every executable type `X` that holds text or lists has a model type `XV`, in
//! which text is a `Seq<char>` and a list is a `Seq`. Contracts speak of models.
use crate::ir::Module;
use crate::text::Dup;
use vstd::prelude::*;

verus! {

/// A half-open byte range of the source text.
#[derive(Debug, Clone, Copy, PartialEq, Eq, Structural)]
pub struct Span {
    pub start: usize,
    pub end: usize,
}

impl Span {
    pub fn new(start: usize, end: usize) -> (r: Self)
        ensures
            r == (Span { start, end }),
    {
        Self { start, end }
    }

    /// The span of something that has no place in the source.
    pub fn dummy() -> (r: Self)
        ensures
            r == (Span { start: 0, end: 0 }),
    {
        Self { start: 0, end: 0 }
    }
}

/// A type of the language.
#[derive(Debug, PartialEq, Eq, Hash)]
pub enum Type {
    I32,
    I64,
    F32,
    F64,
    Bool,
    Str,
    Unit,
    /// Fixed-length array.
    Array { elem: Box<Type>, len: u32 },
    /// Struct or enum of the program, by name.
    Named(String),
}

/// Model of [`Type`].
#[verifier::ext_equal]
pub enum TypeV {
    I32,
    I64,
    F32,
    F64,
    Bool,
    Str,
    Unit,
    Array { elem: Box<TypeV>, len: u32 },
    Named(Seq<char>),
}

pub open spec fn type_v(t: Type) -> TypeV
    decreases t,
{
    match t {
        Type::I32 => TypeV::I32,
        Type::I64 => TypeV::I64,
        Type::F32 => TypeV::F32,
        Type::F64 => TypeV::F64,
        Type::Bool => TypeV::Bool,
        Type::Str => TypeV::Str,
        Type::Unit => TypeV::Unit,
        Type::Array { elem, len } => TypeV::Array { elem: Box::new(type_v(*elem)), len },
        Type::Named(n) => TypeV::Named(n@),
    }
}

impl View for Type {
    type V = TypeV;

    open spec fn view(&self) -> TypeV {
        type_v(*self)
    }
}

impl DeepView for Type {
    type V = TypeV;

    open spec fn deep_view(&self) -> TypeV {
        self@
    }
}

fn dup_type(t: &Type) -> (r: Type)
    ensures
        r@ == t@,
    decreases t,
{
    match t {
        Type::I32 => Type::I32,
        Type::I64 => Type::I64,
        Type::F32 => Type::F32,
        Type::F64 => Type::F64,
        Type::Bool => Type::Bool,
        Type::Str => Type::Str,
        Type::Unit => Type::Unit,
        Type::Array { elem, len } => Type::Array { elem: Box::new(dup_type(elem)), len: *len },
        Type::Named(n) => Type::Named(n.clone()),
    }
}

impl Dup for Type {
    fn dup(&self) -> (r: Self) {
        dup_type(self)
    }
}

impl Clone for Type {
    fn clone(&self) -> (r: Self)
        ensures
            r@ == self@,
    {
        self.dup()
    }
}

/// The types that an array may hold: numbers and `bool`.
pub open spec fn scalar(t: TypeV) -> bool {
    t is I32 || t is I64 || t is F32 || t is F64 || t is Bool
}

/// The text of a type, as programs write it.
pub open spec fn type_text(t: TypeV) -> Seq<char>
    decreases t,
{
    match t {
        TypeV::I32 => "i32"@,
        TypeV::I64 => "i64"@,
        TypeV::F32 => "f32"@,
        TypeV::F64 => "f64"@,
        TypeV::Bool => "bool"@,
        TypeV::Str => "str"@,
        TypeV::Unit => "unit"@,
        TypeV::Array { elem, len } => "(Array "@ + type_text(*elem) + " "@ + crate::text::dec(
            len as nat,
        ) + ")"@,
        TypeV::Named(n) => n,
    }
}

impl Type {
    pub fn is_array_elem_allowed(&self) -> (r: bool)
        ensures
            r == scalar(self@),
    {
        matches!(self, Type::I32 | Type::I64 | Type::F32 | Type::F64 | Type::Bool)
    }

    /// Fields of structs and payloads of variants hold what arrays hold.
    pub fn is_adt_field_allowed(&self) -> (r: bool)
        ensures
            r == scalar(self@),
    {
        self.is_array_elem_allowed()
    }

    /// Whether two types are the same type.
    pub fn same(&self, other: &Type) -> (r: bool)
        ensures
            r == (self@ == other@),
        decreases self,
    {
        match (self, other) {
            (Type::I32, Type::I32) => true,
            (Type::I64, Type::I64) => true,
            (Type::F32, Type::F32) => true,
            (Type::F64, Type::F64) => true,
            (Type::Bool, Type::Bool) => true,
            (Type::Str, Type::Str) => true,
            (Type::Unit, Type::Unit) => true,
            (Type::Array { elem: a, len: m }, Type::Array { elem: b, len: n }) => {
                *m == *n && a.same(b)
            },
            (Type::Named(a), Type::Named(b)) => *a == *b,
            _ => false,
        }
    }

    /// The type as text, as programs write it.
    pub fn to_text(&self) -> (r: String)
        ensures
            r@ == type_text(self@),
        decreases self,
    {
        match self {
            Type::I32 => String::from_str("i32"),
            Type::I64 => String::from_str("i64"),
            Type::F32 => String::from_str("f32"),
            Type::F64 => String::from_str("f64"),
            Type::Bool => String::from_str("bool"),
            Type::Str => String::from_str("str"),
            Type::Unit => String::from_str("unit"),
            Type::Array { elem, len } => {
                let mut s = String::from_str("(Array ");
                let e = elem.to_text();
                s.append(e.as_str());
                s.append(" ");
                crate::text::append_decimal(&mut s, *len as u64);
                s.append(")");
                s
            },
            Type::Named(n) => n.clone(),
        }
    }
}

/// A named, typed parameter.
#[derive(Debug)]
pub struct Param {
    pub name: String,
    pub ty: Type,
    pub span: Span,
}

/// Model of [`Param`].
#[verifier::ext_equal]
pub struct ParamV {
    pub name: Seq<char>,
    pub ty: TypeV,
    pub span: Span,
}

impl View for Param {
    type V = ParamV;

    open spec fn view(&self) -> ParamV {
        ParamV { name: self.name.deep_view(), ty: self.ty.deep_view(), span: self.span }
    }
}

impl DeepView for Param {
    type V = ParamV;

    open spec fn deep_view(&self) -> ParamV {
        self@
    }
}

impl Dup for Param {
    fn dup(&self) -> (r: Self) {
        Param { name: self.name.dup(), ty: self.ty.dup(), span: self.span }
    }
}

impl Clone for Param {
    fn clone(&self) -> (r: Self)
        ensures
            r@ == self@,
    {
        self.dup()
    }
}

/// One field of a struct definition.
#[derive(Debug)]
pub struct FieldDef {
    pub name: String,
    pub ty: Type,
    pub span: Span,
}

/// Model of [`FieldDef`].
#[verifier::ext_equal]
pub struct FieldDefV {
    pub name: Seq<char>,
    pub ty: TypeV,
    pub span: Span,
}

impl View for FieldDef {
    type V = FieldDefV;

    open spec fn view(&self) -> FieldDefV {
        FieldDefV { name: self.name.deep_view(), ty: self.ty.deep_view(), span: self.span }
    }
}

impl DeepView for FieldDef {
    type V = FieldDefV;

    open spec fn deep_view(&self) -> FieldDefV {
        self@
    }
}

impl Dup for FieldDef {
    fn dup(&self) -> (r: Self) {
        FieldDef { name: self.name.dup(), ty: self.ty.dup(), span: self.span }
    }
}

impl Clone for FieldDef {
    fn clone(&self) -> (r: Self)
        ensures
            r@ == self@,
    {
        self.dup()
    }
}

/// `(struct Name [f: T ...])`
#[derive(Debug)]
pub struct StructDef {
    pub name: String,
    pub fields: Vec<FieldDef>,
    pub span: Span,
}

/// Model of [`StructDef`].
#[verifier::ext_equal]
pub struct StructDefV {
    pub name: Seq<char>,
    pub fields: Seq<FieldDefV>,
    pub span: Span,
}

impl View for StructDef {
    type V = StructDefV;

    open spec fn view(&self) -> StructDefV {
        StructDefV { name: self.name.deep_view(), fields: self.fields.deep_view(), span: self.span }
    }
}

impl DeepView for StructDef {
    type V = StructDefV;

    open spec fn deep_view(&self) -> StructDefV {
        self@
    }
}

impl Dup for StructDef {
    fn dup(&self) -> (r: Self) {
        StructDef { name: self.name.dup(), fields: self.fields.dup(), span: self.span }
    }
}

impl Clone for StructDef {
    fn clone(&self) -> (r: Self)
        ensures
            r@ == self@,
    {
        self.dup()
    }
}

/// One variant of an enum definition.
#[derive(Debug)]
pub struct VariantDef {
    pub name: String,
    /// `None` for a unit variant.
    pub payload: Option<Type>,
    pub span: Span,
}

/// Model of [`VariantDef`].
#[verifier::ext_equal]
pub struct VariantDefV {
    pub name: Seq<char>,
    pub payload: Option<TypeV>,
    pub span: Span,
}

impl View for VariantDef {
    type V = VariantDefV;

    open spec fn view(&self) -> VariantDefV {
        VariantDefV { name: self.name.deep_view(), payload: self.payload.deep_view(), span: self.span }
    }
}

impl DeepView for VariantDef {
    type V = VariantDefV;

    open spec fn deep_view(&self) -> VariantDefV {
        self@
    }
}

impl Dup for VariantDef {
    fn dup(&self) -> (r: Self) {
        VariantDef { name: self.name.dup(), payload: self.payload.dup(), span: self.span }
    }
}

impl Clone for VariantDef {
    fn clone(&self) -> (r: Self)
        ensures
            r@ == self@,
    {
        self.dup()
    }
}

/// `(enum Name V ...)`
#[derive(Debug)]
pub struct EnumDef {
    pub name: String,
    pub variants: Vec<VariantDef>,
    pub span: Span,
}

/// Model of [`EnumDef`].
#[verifier::ext_equal]
pub struct EnumDefV {
    pub name: Seq<char>,
    pub variants: Seq<VariantDefV>,
    pub span: Span,
}

impl View for EnumDef {
    type V = EnumDefV;

    open spec fn view(&self) -> EnumDefV {
        EnumDefV { name: self.name.deep_view(), variants: self.variants.deep_view(), span: self.span }
    }
}

impl DeepView for EnumDef {
    type V = EnumDefV;

    open spec fn deep_view(&self) -> EnumDefV {
        self@
    }
}

impl Dup for EnumDef {
    fn dup(&self) -> (r: Self) {
        EnumDef { name: self.name.dup(), variants: self.variants.dup(), span: self.span }
    }
}

impl Clone for EnumDef {
    fn clone(&self) -> (r: Self)
        ensures
            r@ == self@,
    {
        self.dup()
    }
}

/// Width suffix of an integer literal.
#[derive(Debug, Clone, Copy, PartialEq, Eq, Structural)]
pub enum IntKind {
    I32,
    I64,
}

/// Width suffix of a float literal.
#[derive(Debug, Clone, Copy, PartialEq, Eq, Structural)]
pub enum FloatKind {
    F32,
    F64,
}

/// A literal. A float is kept as the digits that the program wrote.
#[derive(Debug)]
pub enum Lit {
    Int(i64, Option<IntKind>),
    Float(String, Option<FloatKind>),
    Bool(bool),
    Str(String),
}

/// Model of [`Lit`].
#[verifier::ext_equal]
pub enum LitV {
    Int(i64, Option<IntKind>),
    Float(Seq<char>, Option<FloatKind>),
    Bool(bool),
    Str(Seq<char>),
}

impl View for Lit {
    type V = LitV;

    open spec fn view(&self) -> LitV {
        match *self {
            Lit::Int(v, k) => LitV::Int(v, k),
            Lit::Float(s, k) => LitV::Float(s@, k),
            Lit::Bool(b) => LitV::Bool(b),
            Lit::Str(s) => LitV::Str(s@),
        }
    }
}

impl DeepView for Lit {
    type V = LitV;

    open spec fn deep_view(&self) -> LitV {
        self@
    }
}

impl Dup for Lit {
    fn dup(&self) -> (r: Self) {
        match self {
            Lit::Int(v, k) => Lit::Int(*v, *k),
            Lit::Float(s, k) => Lit::Float(s.clone(), *k),
            Lit::Bool(b) => Lit::Bool(*b),
            Lit::Str(s) => Lit::Str(s.clone()),
        }
    }
}

impl Clone for Lit {
    fn clone(&self) -> (r: Self)
        ensures
            r@ == self@,
    {
        self.dup()
    }
}

/// One `name: T value` of a `let`.
#[derive(Debug)]
pub struct Binding {
    pub name: String,
    pub ty: Type,
    pub value: Expr,
    pub span: Span,
}

/// One arm of a `match`.
#[derive(Debug)]
pub struct MatchArm {
    pub variant: String,
    /// Name bound to the payload; absent for unit variants.
    pub binding: Option<String>,
    pub body: Expr,
    pub span: Span,
}

/// An expression.
#[derive(Debug)]
pub struct Expr {
    pub kind: ExprKind,
    pub span: Span,
    /// Filled by the type checker.
    pub ty: Option<Type>,
}

/// The forms of expressions.
#[derive(Debug)]
pub enum ExprKind {
    Lit(Lit),
    Var(String),
    /// `(if cond then else)`
    If { cond: Box<Expr>, then_branch: Box<Expr>, else_branch: Box<Expr> },
    /// `(let [x: T v, y: T v] body)`
    Let { bindings: Vec<Binding>, body: Box<Expr> },
    /// `(do e1 ... en)`: the value is that of the last expression.
    Do(Vec<Expr>),
    /// `(as T e)`: numeric cast.
    Cast { ty: Type, expr: Box<Expr> },
    /// `(set! name value)`: assigns to a local or a parameter.
    Assign { name: String, value: Box<Expr> },
    /// `(while cond body)`
    While { cond: Box<Expr>, body: Box<Expr> },
    /// `(loop body)`: left by `break` only.
    Loop { body: Box<Expr> },
    /// `(break)`: leaves the innermost loop.
    Break,
    /// `(array T e1 ... en)`
    ArrayLit { elem_ty: Type, elems: Vec<Expr> },
    /// `(field e name)`
    Field { base: Box<Expr>, field: String },
    /// `(match e (Variant body) (Variant x body) ...)`
    Match { scrutinee: Box<Expr>, arms: Vec<MatchArm> },
    /// Call of a function, a builtin, or a struct or variant constructor.
    Call { callee: String, args: Vec<Expr> },
}

/// Model of [`Binding`].
#[verifier::ext_equal]
pub struct BindingV {
    pub name: Seq<char>,
    pub ty: TypeV,
    pub value: ExprV,
    pub span: Span,
}

/// Model of [`MatchArm`].
#[verifier::ext_equal]
pub struct MatchArmV {
    pub variant: Seq<char>,
    pub binding: Option<Seq<char>>,
    pub body: ExprV,
    pub span: Span,
}

/// Model of [`Expr`].
#[verifier::ext_equal]
pub struct ExprV {
    pub kind: ExprKindV,
    pub span: Span,
    pub ty: Option<TypeV>,
}

/// Model of [`ExprKind`].
#[verifier::ext_equal]
pub enum ExprKindV {
    Lit(LitV),
    Var(Seq<char>),
    If { cond: Box<ExprV>, then_branch: Box<ExprV>, else_branch: Box<ExprV> },
    Let { bindings: Seq<BindingV>, body: Box<ExprV> },
    Do(Seq<ExprV>),
    Cast { ty: TypeV, expr: Box<ExprV> },
    Assign { name: Seq<char>, value: Box<ExprV> },
    While { cond: Box<ExprV>, body: Box<ExprV> },
    Loop { body: Box<ExprV> },
    Break,
    ArrayLit { elem_ty: TypeV, elems: Seq<ExprV> },
    Field { base: Box<ExprV>, field: Seq<char> },
    Match { scrutinee: Box<ExprV>, arms: Seq<MatchArmV> },
    Call { callee: Seq<char>, args: Seq<ExprV> },
}

pub open spec fn expr_v(e: Expr) -> ExprV
    decreases e,
{
    ExprV { kind: kind_v(e.kind), span: e.span, ty: e.ty.deep_view() }
}

pub open spec fn kind_v(k: ExprKind) -> ExprKindV
    decreases k,
{
    match k {
        ExprKind::Lit(l) => ExprKindV::Lit(l@),
        ExprKind::Var(n) => ExprKindV::Var(n@),
        ExprKind::If { cond, then_branch, else_branch } => ExprKindV::If {
            cond: Box::new(expr_v(*cond)),
            then_branch: Box::new(expr_v(*then_branch)),
            else_branch: Box::new(expr_v(*else_branch)),
        },
        ExprKind::Let { bindings, body } => ExprKindV::Let {
            bindings: bindings_v(bindings@),
            body: Box::new(expr_v(*body)),
        },
        ExprKind::Do(es) => ExprKindV::Do(exprs_v(es@)),
        ExprKind::Cast { ty, expr } => ExprKindV::Cast { ty: ty@, expr: Box::new(expr_v(*expr)) },
        ExprKind::Assign { name, value } => ExprKindV::Assign {
            name: name@,
            value: Box::new(expr_v(*value)),
        },
        ExprKind::While { cond, body } => ExprKindV::While {
            cond: Box::new(expr_v(*cond)),
            body: Box::new(expr_v(*body)),
        },
        ExprKind::Loop { body } => ExprKindV::Loop { body: Box::new(expr_v(*body)) },
        ExprKind::Break => ExprKindV::Break,
        ExprKind::ArrayLit { elem_ty, elems } => ExprKindV::ArrayLit {
            elem_ty: elem_ty@,
            elems: exprs_v(elems@),
        },
        ExprKind::Field { base, field } => ExprKindV::Field {
            base: Box::new(expr_v(*base)),
            field: field@,
        },
        ExprKind::Match { scrutinee, arms } => ExprKindV::Match {
            scrutinee: Box::new(expr_v(*scrutinee)),
            arms: arms_v(arms@),
        },
        ExprKind::Call { callee, args } => ExprKindV::Call { callee: callee@, args: exprs_v(args@) },
    }
}

pub open spec fn exprs_v(es: Seq<Expr>) -> Seq<ExprV>
    decreases es,
{
    Seq::new(es.len(), |i: int| if 0 <= i < es.len() { expr_v(es[i]) } else { arbitrary() })
}

pub open spec fn binding_v(b: Binding) -> BindingV
    decreases b,
{
    BindingV { name: b.name@, ty: b.ty@, value: expr_v(b.value), span: b.span }
}

pub open spec fn bindings_v(bs: Seq<Binding>) -> Seq<BindingV>
    decreases bs,
{
    Seq::new(bs.len(), |i: int| if 0 <= i < bs.len() { binding_v(bs[i]) } else { arbitrary() })
}

pub open spec fn arm_v(a: MatchArm) -> MatchArmV
    decreases a,
{
    MatchArmV {
        variant: a.variant@,
        binding: a.binding.deep_view(),
        body: expr_v(a.body),
        span: a.span,
    }
}

pub open spec fn arms_v(arms: Seq<MatchArm>) -> Seq<MatchArmV>
    decreases arms,
{
    Seq::new(arms.len(), |i: int| if 0 <= i < arms.len() { arm_v(arms[i]) } else { arbitrary() })
}

impl View for Expr {
    type V = ExprV;

    open spec fn view(&self) -> ExprV {
        expr_v(*self)
    }
}

impl DeepView for Expr {
    type V = ExprV;

    open spec fn deep_view(&self) -> ExprV {
        self@
    }
}

impl View for ExprKind {
    type V = ExprKindV;

    open spec fn view(&self) -> ExprKindV {
        kind_v(*self)
    }
}

impl View for Binding {
    type V = BindingV;

    open spec fn view(&self) -> BindingV {
        binding_v(*self)
    }
}

impl View for MatchArm {
    type V = MatchArmV;

    open spec fn view(&self) -> MatchArmV {
        arm_v(*self)
    }
}

impl Expr {
    /// An expression that no type has been given to yet.
    pub fn new(kind: ExprKind, span: Span) -> (r: Self)
        ensures
            r@ == (ExprV { kind: kind@, span, ty: None }),
    {
        Self { kind, span, ty: None }
    }
}

fn dup_expr(e: &Expr) -> (r: Expr)
    ensures
        r@ == e@,
    decreases e,
{
    let kind = match &e.kind {
        ExprKind::Lit(l) => ExprKind::Lit(l.dup()),
        ExprKind::Var(n) => ExprKind::Var(n.clone()),
        ExprKind::If { cond, then_branch, else_branch } => ExprKind::If {
            cond: Box::new(dup_expr(cond)),
            then_branch: Box::new(dup_expr(then_branch)),
            else_branch: Box::new(dup_expr(else_branch)),
        },
        ExprKind::Let { bindings, body } => ExprKind::Let {
            bindings: dup_bindings(bindings),
            body: Box::new(dup_expr(body)),
        },
        ExprKind::Do(es) => ExprKind::Do(dup_exprs(es)),
        ExprKind::Cast { ty, expr } => ExprKind::Cast {
            ty: ty.dup(),
            expr: Box::new(dup_expr(expr)),
        },
        ExprKind::Assign { name, value } => ExprKind::Assign {
            name: name.clone(),
            value: Box::new(dup_expr(value)),
        },
        ExprKind::While { cond, body } => ExprKind::While {
            cond: Box::new(dup_expr(cond)),
            body: Box::new(dup_expr(body)),
        },
        ExprKind::Loop { body } => ExprKind::Loop { body: Box::new(dup_expr(body)) },
        ExprKind::Break => ExprKind::Break,
        ExprKind::ArrayLit { elem_ty, elems } => ExprKind::ArrayLit {
            elem_ty: elem_ty.dup(),
            elems: dup_exprs(elems),
        },
        ExprKind::Field { base, field } => ExprKind::Field {
            base: Box::new(dup_expr(base)),
            field: field.clone(),
        },
        ExprKind::Match { scrutinee, arms } => ExprKind::Match {
            scrutinee: Box::new(dup_expr(scrutinee)),
            arms: dup_arms(arms),
        },
        ExprKind::Call { callee, args } => ExprKind::Call {
            callee: callee.clone(),
            args: dup_exprs(args),
        },
    };
    Expr { kind, span: e.span, ty: e.ty.dup() }
}

fn dup_exprs(es: &Vec<Expr>) -> (r: Vec<Expr>)
    ensures
        exprs_v(r@) == exprs_v(es@),
    decreases es,
{
    let mut out: Vec<Expr> = Vec::new();
    let mut i: usize = 0;
    while i < es.len()
        invariant
            i <= es@.len(),
            out@.len() == i,
            forall|j: int| 0 <= j < i ==> expr_v(#[trigger] out@[j]) == expr_v(es@[j]),
        decreases es@.len() - i,
    {
        out.push(dup_expr(&es[i]));
        i = i + 1;
    }
    out
}

fn dup_bindings(bs: &Vec<Binding>) -> (r: Vec<Binding>)
    ensures
        bindings_v(r@) == bindings_v(bs@),
    decreases bs,
{
    let mut out: Vec<Binding> = Vec::new();
    let mut i: usize = 0;
    while i < bs.len()
        invariant
            i <= bs@.len(),
            out@.len() == i,
            forall|j: int| 0 <= j < i ==> binding_v(#[trigger] out@[j]) == binding_v(bs@[j]),
        decreases bs@.len() - i,
    {
        let b = &bs[i];
        out.push(
            Binding {
                name: b.name.clone(),
                ty: b.ty.dup(),
                value: dup_expr(&b.value),
                span: b.span,
            },
        );
        i = i + 1;
    }
    out
}

fn dup_arms(arms: &Vec<MatchArm>) -> (r: Vec<MatchArm>)
    ensures
        arms_v(r@) == arms_v(arms@),
    decreases arms,
{
    let mut out: Vec<MatchArm> = Vec::new();
    let mut i: usize = 0;
    while i < arms.len()
        invariant
            i <= arms@.len(),
            out@.len() == i,
            forall|j: int| 0 <= j < i ==> arm_v(#[trigger] out@[j]) == arm_v(arms@[j]),
        decreases arms@.len() - i,
    {
        let a = &arms[i];
        out.push(
            MatchArm {
                variant: a.variant.clone(),
                binding: a.binding.dup(),
                body: dup_expr(&a.body),
                span: a.span,
            },
        );
        i = i + 1;
    }
    out
}

impl Dup for Expr {
    fn dup(&self) -> (r: Self) {
        dup_expr(self)
    }
}

impl Clone for Expr {
    fn clone(&self) -> (r: Self)
        ensures
            r@ == self@,
    {
        self.dup()
    }
}

impl Clone for Binding {
    fn clone(&self) -> (r: Self)
        ensures
            r@ == self@,
    {
        Binding {
            name: self.name.clone(),
            ty: self.ty.dup(),
            value: self.value.dup(),
            span: self.span,
        }
    }
}

impl Clone for MatchArm {
    fn clone(&self) -> (r: Self)
        ensures
            r@ == self@,
    {
        MatchArm {
            variant: self.variant.clone(),
            binding: self.binding.dup(),
            body: self.body.dup(),
            span: self.span,
        }
    }
}

/// `(defn name [params] -> ret body)`
#[derive(Debug)]
pub struct Function {
    pub name: String,
    pub params: Vec<Param>,
    pub ret: Type,
    pub body: Expr,
    pub span: Span,
}

/// Model of [`Function`].
#[verifier::ext_equal]
pub struct FunctionV {
    pub name: Seq<char>,
    pub params: Seq<ParamV>,
    pub ret: TypeV,
    pub body: ExprV,
    pub span: Span,
}

impl View for Function {
    type V = FunctionV;

    open spec fn view(&self) -> FunctionV {
        FunctionV { name: self.name.deep_view(), params: self.params.deep_view(), ret: self.ret.deep_view(), body: self.body.deep_view(), span: self.span }
    }
}

impl DeepView for Function {
    type V = FunctionV;

    open spec fn deep_view(&self) -> FunctionV {
        self@
    }
}

impl Dup for Function {
    fn dup(&self) -> (r: Self) {
        Function { name: self.name.dup(), params: self.params.dup(), ret: self.ret.dup(), body: self.body.dup(), span: self.span }
    }
}

impl Clone for Function {
    fn clone(&self) -> (r: Self)
        ensures
            r@ == self@,
    {
        self.dup()
    }
}

/// Template of a generic function; type parameters carry an optional trait bound.
#[derive(Debug)]
pub struct GenericFunction {
    pub name: String,
    pub type_params: Vec<(String, Option<String>)>,
    pub params: Vec<Param>,
    pub ret: Type,
    pub body: Expr,
    pub span: Span,
}

/// Model of [`GenericFunction`].
#[verifier::ext_equal]
pub struct GenericFunctionV {
    pub name: Seq<char>,
    pub type_params: Seq<(Seq<char>, Option<Seq<char>>)>,
    pub params: Seq<ParamV>,
    pub ret: TypeV,
    pub body: ExprV,
    pub span: Span,
}

impl View for GenericFunction {
    type V = GenericFunctionV;

    open spec fn view(&self) -> GenericFunctionV {
        GenericFunctionV { name: self.name.deep_view(), type_params: self.type_params.deep_view(), params: self.params.deep_view(), ret: self.ret.deep_view(), body: self.body.deep_view(), span: self.span }
    }
}

impl DeepView for GenericFunction {
    type V = GenericFunctionV;

    open spec fn deep_view(&self) -> GenericFunctionV {
        self@
    }
}

impl Dup for GenericFunction {
    fn dup(&self) -> (r: Self) {
        GenericFunction { name: self.name.dup(), type_params: self.type_params.dup(), params: self.params.dup(), ret: self.ret.dup(), body: self.body.dup(), span: self.span }
    }
}

impl Clone for GenericFunction {
    fn clone(&self) -> (r: Self)
        ensures
            r@ == self@,
    {
        self.dup()
    }
}

/// `(def name: ty value)`
#[derive(Debug)]
pub struct Const {
    pub name: String,
    pub ty: Type,
    pub value: Expr,
    pub span: Span,
}

/// Model of [`Const`].
#[verifier::ext_equal]
pub struct ConstV {
    pub name: Seq<char>,
    pub ty: TypeV,
    pub value: ExprV,
    pub span: Span,
}

impl View for Const {
    type V = ConstV;

    open spec fn view(&self) -> ConstV {
        ConstV { name: self.name.deep_view(), ty: self.ty.deep_view(), value: self.value.deep_view(), span: self.span }
    }
}

impl DeepView for Const {
    type V = ConstV;

    open spec fn deep_view(&self) -> ConstV {
        self@
    }
}

impl Dup for Const {
    fn dup(&self) -> (r: Self) {
        Const { name: self.name.dup(), ty: self.ty.dup(), value: self.value.dup(), span: self.span }
    }
}

impl Clone for Const {
    fn clone(&self) -> (r: Self)
        ensures
            r@ == self@,
    {
        self.dup()
    }
}

/// `(extern "C" name [params] -> ret)`
#[derive(Debug)]
pub struct ExternFn {
    pub abi: String,
    pub name: String,
    pub params: Vec<Param>,
    pub ret: Type,
    pub span: Span,
}

/// Model of [`ExternFn`].
#[verifier::ext_equal]
pub struct ExternFnV {
    pub abi: Seq<char>,
    pub name: Seq<char>,
    pub params: Seq<ParamV>,
    pub ret: TypeV,
    pub span: Span,
}

impl View for ExternFn {
    type V = ExternFnV;

    open spec fn view(&self) -> ExternFnV {
        ExternFnV { abi: self.abi.deep_view(), name: self.name.deep_view(), params: self.params.deep_view(), ret: self.ret.deep_view(), span: self.span }
    }
}

impl DeepView for ExternFn {
    type V = ExternFnV;

    open spec fn deep_view(&self) -> ExternFnV {
        self@
    }
}

impl Dup for ExternFn {
    fn dup(&self) -> (r: Self) {
        ExternFn { abi: self.abi.dup(), name: self.name.dup(), params: self.params.dup(), ret: self.ret.dup(), span: self.span }
    }
}

impl Clone for ExternFn {
    fn clone(&self) -> (r: Self)
        ensures
            r@ == self@,
    {
        self.dup()
    }
}

/// Signature of a trait method. A bare `self` first parameter has type `unit` until an impl fills it.
#[derive(Debug)]
pub struct MethodSig {
    pub name: String,
    pub params: Vec<Param>,
    pub ret: Type,
    pub span: Span,
}

/// Model of [`MethodSig`].
#[verifier::ext_equal]
pub struct MethodSigV {
    pub name: Seq<char>,
    pub params: Seq<ParamV>,
    pub ret: TypeV,
    pub span: Span,
}

impl View for MethodSig {
    type V = MethodSigV;

    open spec fn view(&self) -> MethodSigV {
        MethodSigV { name: self.name.deep_view(), params: self.params.deep_view(), ret: self.ret.deep_view(), span: self.span }
    }
}

impl DeepView for MethodSig {
    type V = MethodSigV;

    open spec fn deep_view(&self) -> MethodSigV {
        self@
    }
}

impl Dup for MethodSig {
    fn dup(&self) -> (r: Self) {
        MethodSig { name: self.name.dup(), params: self.params.dup(), ret: self.ret.dup(), span: self.span }
    }
}

impl Clone for MethodSig {
    fn clone(&self) -> (r: Self)
        ensures
            r@ == self@,
    {
        self.dup()
    }
}

/// `(trait Name (method [self ...] -> T)*)`
#[derive(Debug)]
pub struct TraitDef {
    pub name: String,
    pub methods: Vec<MethodSig>,
    pub span: Span,
}

/// Model of [`TraitDef`].
#[verifier::ext_equal]
pub struct TraitDefV {
    pub name: Seq<char>,
    pub methods: Seq<MethodSigV>,
    pub span: Span,
}

impl View for TraitDef {
    type V = TraitDefV;

    open spec fn view(&self) -> TraitDefV {
        TraitDefV { name: self.name.deep_view(), methods: self.methods.deep_view(), span: self.span }
    }
}

impl DeepView for TraitDef {
    type V = TraitDefV;

    open spec fn deep_view(&self) -> TraitDefV {
        self@
    }
}

impl Dup for TraitDef {
    fn dup(&self) -> (r: Self) {
        TraitDef { name: self.name.dup(), methods: self.methods.dup(), span: self.span }
    }
}

impl Clone for TraitDef {
    fn clone(&self) -> (r: Self)
        ensures
            r@ == self@,
    {
        self.dup()
    }
}

/// `(impl Trait for T (method [self ...] -> T body)*)`
#[derive(Debug)]
pub struct ImplBlock {
    pub trait_name: String,
    pub for_ty: Type,
    pub methods: Vec<Function>,
    pub span: Span,
}

/// Model of [`ImplBlock`].
#[verifier::ext_equal]
pub struct ImplBlockV {
    pub trait_name: Seq<char>,
    pub for_ty: TypeV,
    pub methods: Seq<FunctionV>,
    pub span: Span,
}

impl View for ImplBlock {
    type V = ImplBlockV;

    open spec fn view(&self) -> ImplBlockV {
        ImplBlockV { trait_name: self.trait_name.deep_view(), for_ty: self.for_ty.deep_view(), methods: self.methods.deep_view(), span: self.span }
    }
}

impl DeepView for ImplBlock {
    type V = ImplBlockV;

    open spec fn deep_view(&self) -> ImplBlockV {
        self@
    }
}

impl Dup for ImplBlock {
    fn dup(&self) -> (r: Self) {
        ImplBlock { trait_name: self.trait_name.dup(), for_ty: self.for_ty.dup(), methods: self.methods.dup(), span: self.span }
    }
}

impl Clone for ImplBlock {
    fn clone(&self) -> (r: Self)
        ensures
            r@ == self@,
    {
        self.dup()
    }
}

/// `(defmacro name [params] template)`; expanded away before type checking.
#[derive(Debug)]
pub struct MacroDef {
    pub name: String,
    pub params: Vec<String>,
    pub template: Expr,
    pub span: Span,
}

/// Model of [`MacroDef`].
#[verifier::ext_equal]
pub struct MacroDefV {
    pub name: Seq<char>,
    pub params: Seq<Seq<char>>,
    pub template: ExprV,
    pub span: Span,
}

impl View for MacroDef {
    type V = MacroDefV;

    open spec fn view(&self) -> MacroDefV {
        MacroDefV { name: self.name.deep_view(), params: self.params.deep_view(), template: self.template.deep_view(), span: self.span }
    }
}

impl DeepView for MacroDef {
    type V = MacroDefV;

    open spec fn deep_view(&self) -> MacroDefV {
        self@
    }
}

impl Dup for MacroDef {
    fn dup(&self) -> (r: Self) {
        MacroDef { name: self.name.dup(), params: self.params.dup(), template: self.template.dup(), span: self.span }
    }
}

impl Clone for MacroDef {
    fn clone(&self) -> (r: Self)
        ensures
            r@ == self@,
    {
        self.dup()
    }
}

/// A top-level form.
#[derive(Debug)]
pub enum TopLevel {
    Function(Function),
    GenericFunction(GenericFunction),
    Const(Const),
    Struct(StructDef),
    Enum(EnumDef),
    Extern(ExternFn),
    Trait(TraitDef),
    Impl(ImplBlock),
    DefMacro(MacroDef),
    /// `(module name)`: names the module of a file; removed by resolution.
    Module { name: String, span: Span },
    /// `(import name)`: asks for the items of another module; removed by resolution.
    Import { name: String, span: Span },
}

/// Model of [`TopLevel`].
#[verifier::ext_equal]
pub enum TopLevelV {
    Function(FunctionV),
    GenericFunction(GenericFunctionV),
    Const(ConstV),
    Struct(StructDefV),
    Enum(EnumDefV),
    Extern(ExternFnV),
    Trait(TraitDefV),
    Impl(ImplBlockV),
    DefMacro(MacroDefV),
    Module { name: Seq<char>, span: Span },
    Import { name: Seq<char>, span: Span },
}

impl View for TopLevel {
    type V = TopLevelV;

    open spec fn view(&self) -> TopLevelV {
        match *self {
            TopLevel::Function(a) => TopLevelV::Function(a.deep_view()),
            TopLevel::GenericFunction(a) => TopLevelV::GenericFunction(a.deep_view()),
            TopLevel::Const(a) => TopLevelV::Const(a.deep_view()),
            TopLevel::Struct(a) => TopLevelV::Struct(a.deep_view()),
            TopLevel::Enum(a) => TopLevelV::Enum(a.deep_view()),
            TopLevel::Extern(a) => TopLevelV::Extern(a.deep_view()),
            TopLevel::Trait(a) => TopLevelV::Trait(a.deep_view()),
            TopLevel::Impl(a) => TopLevelV::Impl(a.deep_view()),
            TopLevel::DefMacro(a) => TopLevelV::DefMacro(a.deep_view()),
            TopLevel::Module { name, span } => TopLevelV::Module { name: name.deep_view(), span },
            TopLevel::Import { name, span } => TopLevelV::Import { name: name.deep_view(), span },
        }
    }
}

impl DeepView for TopLevel {
    type V = TopLevelV;

    open spec fn deep_view(&self) -> TopLevelV {
        self@
    }
}

impl Dup for TopLevel {
    fn dup(&self) -> (r: Self) {
        match self {
            TopLevel::Function(a) => TopLevel::Function(a.dup()),
            TopLevel::GenericFunction(a) => TopLevel::GenericFunction(a.dup()),
            TopLevel::Const(a) => TopLevel::Const(a.dup()),
            TopLevel::Struct(a) => TopLevel::Struct(a.dup()),
            TopLevel::Enum(a) => TopLevel::Enum(a.dup()),
            TopLevel::Extern(a) => TopLevel::Extern(a.dup()),
            TopLevel::Trait(a) => TopLevel::Trait(a.dup()),
            TopLevel::Impl(a) => TopLevel::Impl(a.dup()),
            TopLevel::DefMacro(a) => TopLevel::DefMacro(a.dup()),
            TopLevel::Module { name, span } => TopLevel::Module { name: name.dup(), span: *span },
            TopLevel::Import { name, span } => TopLevel::Import { name: name.dup(), span: *span },
        }
    }
}

impl Clone for TopLevel {
    fn clone(&self) -> (r: Self)
        ensures
            r@ == self@,
    {
        self.dup()
    }
}

/// A whole program.
#[derive(Debug)]
pub struct Program {
    pub items: Vec<TopLevel>,
}

/// Model of [`Program`].
#[verifier::ext_equal]
pub struct ProgramV {
    pub items: Seq<TopLevelV>,
}

impl View for Program {
    type V = ProgramV;

    open spec fn view(&self) -> ProgramV {
        ProgramV { items: self.items.deep_view() }
    }
}

impl DeepView for Program {
    type V = ProgramV;

    open spec fn deep_view(&self) -> ProgramV {
        self@
    }
}

impl Dup for Program {
    fn dup(&self) -> (r: Self) {
        Program { items: self.items.dup() }
    }
}

impl Clone for Program {
    fn clone(&self) -> (r: Self)
        ensures
            r@ == self@,
    {
        self.dup()
    }
}

} // verus!
