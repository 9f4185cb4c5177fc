//! The typing rules of Risp.
//!
//! Checking goes through a program from left to right. What it has found so far is
//! a [`CkV`]. Every rule gives what it leaves in place of the thing it checks (the
//! tree with types filled in), what is known then, and the result.
use crate::ast::{
    BindingV, ConstV, EnumDefV, ExprKindV, ExprV, FieldDefV, FloatKind, FunctionV,
    GenericFunctionV, ImplBlockV, IntKind, Lit, LitV, MatchArmV, MethodSigV, ParamV, ProgramV,
    Span, StructDefV, TopLevelV, TraitDefV, Type, TypeV, VariantDefV,
};
use crate::ast;
use crate::text::{append_decimal, Dup, quote};
use crate::text;
use crate::typeck::arity;
use vstd::prelude::*;
use vstd::string::*;

verus! {

/// Why a program is not well typed.
#[derive(Debug)]
pub enum TypeError {
    UndefinedVar(String, Span),
    UndefinedFn(String, Span),
    UndefinedType(String, Span),
    Mismatch { expected: Type, found: Type, span: Span },
    Arity { name: String, expected: usize, got: usize, span: Span },
    BadOperand { op: String, ty: Type, span: Span },
    IntLitOverflow(Type, Span),
    BadCast { from: Type, to: Type, span: Span },
    Duplicate(String, Span),
    ConstNotLiteral(Span),
    AssignConst(String, Span),
    BadArrayElem(Type, Span),
    BadAdtField(Type, Span),
    ArrayInSignature(Span),
    UnknownField(String, Type, Span),
    FieldOnNonStruct(Type, Span),
    MatchNonEnum(Type, Span),
    UnknownVariant(String, Span),
    VariantWrongEnum(String, String, String, Span),
    MatchNonExhaustive(String, Span),
    MatchDuplicateArm(String, Span),
    MatchUnitBinding(String, Span),
    MatchMissingBinding(String, Span),
    EmptyStruct(String, Span),
    EmptyEnum(String, Span),
    BreakOutsideLoop(Span),
    BadExternAbi(String, Span),
    BadExternType(Type, Span),
    MissingImpl { trait_name: String, ty: Type, span: Span },
    DuplicateImpl { trait_name: String, ty: Type, span: Span },
    MethodNotInTrait(String, String, Span),
    AmbiguousTraitMethod(String, Span),
    UndefinedTrait(String, Span),
    TraitCallNoReceiver(Span),
    InferTypeParam(String, Span),
    NoMain,
}

/// Model of [`TypeError`].
#[verifier::ext_equal]
pub enum TypeErrorV {
    UndefinedVar(Seq<char>, Span),
    UndefinedFn(Seq<char>, Span),
    UndefinedType(Seq<char>, Span),
    Mismatch { expected: TypeV, found: TypeV, span: Span },
    Arity { name: Seq<char>, expected: usize, got: usize, span: Span },
    BadOperand { op: Seq<char>, ty: TypeV, span: Span },
    IntLitOverflow(TypeV, Span),
    BadCast { from: TypeV, to: TypeV, span: Span },
    Duplicate(Seq<char>, Span),
    ConstNotLiteral(Span),
    AssignConst(Seq<char>, Span),
    BadArrayElem(TypeV, Span),
    BadAdtField(TypeV, Span),
    ArrayInSignature(Span),
    UnknownField(Seq<char>, TypeV, Span),
    FieldOnNonStruct(TypeV, Span),
    MatchNonEnum(TypeV, Span),
    UnknownVariant(Seq<char>, Span),
    VariantWrongEnum(Seq<char>, Seq<char>, Seq<char>, Span),
    MatchNonExhaustive(Seq<char>, Span),
    MatchDuplicateArm(Seq<char>, Span),
    MatchUnitBinding(Seq<char>, Span),
    MatchMissingBinding(Seq<char>, Span),
    EmptyStruct(Seq<char>, Span),
    EmptyEnum(Seq<char>, Span),
    BreakOutsideLoop(Span),
    BadExternAbi(Seq<char>, Span),
    BadExternType(TypeV, Span),
    MissingImpl { trait_name: Seq<char>, ty: TypeV, span: Span },
    DuplicateImpl { trait_name: Seq<char>, ty: TypeV, span: Span },
    MethodNotInTrait(Seq<char>, Seq<char>, Span),
    AmbiguousTraitMethod(Seq<char>, Span),
    UndefinedTrait(Seq<char>, Span),
    TraitCallNoReceiver(Span),
    InferTypeParam(Seq<char>, Span),
    NoMain,
}

impl View for TypeError {
    type V = TypeErrorV;

    open spec fn view(&self) -> TypeErrorV {
        match *self {
            TypeError::UndefinedVar(a, b) => TypeErrorV::UndefinedVar(a.deep_view(), b),
            TypeError::UndefinedFn(a, b) => TypeErrorV::UndefinedFn(a.deep_view(), b),
            TypeError::UndefinedType(a, b) => TypeErrorV::UndefinedType(a.deep_view(), b),
            TypeError::Mismatch { expected, found, span } => TypeErrorV::Mismatch { expected: expected.deep_view(), found: found.deep_view(), span },
            TypeError::Arity { name, expected, got, span } => TypeErrorV::Arity { name: name.deep_view(), expected, got, span },
            TypeError::BadOperand { op, ty, span } => TypeErrorV::BadOperand { op: op.deep_view(), ty: ty.deep_view(), span },
            TypeError::IntLitOverflow(a, b) => TypeErrorV::IntLitOverflow(a.deep_view(), b),
            TypeError::BadCast { from, to, span } => TypeErrorV::BadCast { from: from.deep_view(), to: to.deep_view(), span },
            TypeError::Duplicate(a, b) => TypeErrorV::Duplicate(a.deep_view(), b),
            TypeError::ConstNotLiteral(a) => TypeErrorV::ConstNotLiteral(a),
            TypeError::AssignConst(a, b) => TypeErrorV::AssignConst(a.deep_view(), b),
            TypeError::BadArrayElem(a, b) => TypeErrorV::BadArrayElem(a.deep_view(), b),
            TypeError::BadAdtField(a, b) => TypeErrorV::BadAdtField(a.deep_view(), b),
            TypeError::ArrayInSignature(a) => TypeErrorV::ArrayInSignature(a),
            TypeError::UnknownField(a, b, c) => TypeErrorV::UnknownField(a.deep_view(), b.deep_view(), c),
            TypeError::FieldOnNonStruct(a, b) => TypeErrorV::FieldOnNonStruct(a.deep_view(), b),
            TypeError::MatchNonEnum(a, b) => TypeErrorV::MatchNonEnum(a.deep_view(), b),
            TypeError::UnknownVariant(a, b) => TypeErrorV::UnknownVariant(a.deep_view(), b),
            TypeError::VariantWrongEnum(a, b, c, d) => TypeErrorV::VariantWrongEnum(a.deep_view(), b.deep_view(), c.deep_view(), d),
            TypeError::MatchNonExhaustive(a, b) => TypeErrorV::MatchNonExhaustive(a.deep_view(), b),
            TypeError::MatchDuplicateArm(a, b) => TypeErrorV::MatchDuplicateArm(a.deep_view(), b),
            TypeError::MatchUnitBinding(a, b) => TypeErrorV::MatchUnitBinding(a.deep_view(), b),
            TypeError::MatchMissingBinding(a, b) => TypeErrorV::MatchMissingBinding(a.deep_view(), b),
            TypeError::EmptyStruct(a, b) => TypeErrorV::EmptyStruct(a.deep_view(), b),
            TypeError::EmptyEnum(a, b) => TypeErrorV::EmptyEnum(a.deep_view(), b),
            TypeError::BreakOutsideLoop(a) => TypeErrorV::BreakOutsideLoop(a),
            TypeError::BadExternAbi(a, b) => TypeErrorV::BadExternAbi(a.deep_view(), b),
            TypeError::BadExternType(a, b) => TypeErrorV::BadExternType(a.deep_view(), b),
            TypeError::MissingImpl { trait_name, ty, span } => TypeErrorV::MissingImpl { trait_name: trait_name.deep_view(), ty: ty.deep_view(), span },
            TypeError::DuplicateImpl { trait_name, ty, span } => TypeErrorV::DuplicateImpl { trait_name: trait_name.deep_view(), ty: ty.deep_view(), span },
            TypeError::MethodNotInTrait(a, b, c) => TypeErrorV::MethodNotInTrait(a.deep_view(), b.deep_view(), c),
            TypeError::AmbiguousTraitMethod(a, b) => TypeErrorV::AmbiguousTraitMethod(a.deep_view(), b),
            TypeError::UndefinedTrait(a, b) => TypeErrorV::UndefinedTrait(a.deep_view(), b),
            TypeError::TraitCallNoReceiver(a) => TypeErrorV::TraitCallNoReceiver(a),
            TypeError::InferTypeParam(a, b) => TypeErrorV::InferTypeParam(a.deep_view(), b),
            TypeError::NoMain => TypeErrorV::NoMain,
        }
    }
}

impl DeepView for TypeError {
    type V = TypeErrorV;

    open spec fn deep_view(&self) -> TypeErrorV {
        self@
    }
}

impl Dup for TypeError {
    fn dup(&self) -> (r: Self) {
        match self {
            TypeError::UndefinedVar(a, b) => TypeError::UndefinedVar(a.dup(), *b),
            TypeError::UndefinedFn(a, b) => TypeError::UndefinedFn(a.dup(), *b),
            TypeError::UndefinedType(a, b) => TypeError::UndefinedType(a.dup(), *b),
            TypeError::Mismatch { expected, found, span } => TypeError::Mismatch { expected: expected.dup(), found: found.dup(), span: *span },
            TypeError::Arity { name, expected, got, span } => TypeError::Arity { name: name.dup(), expected: *expected, got: *got, span: *span },
            TypeError::BadOperand { op, ty, span } => TypeError::BadOperand { op: op.dup(), ty: ty.dup(), span: *span },
            TypeError::IntLitOverflow(a, b) => TypeError::IntLitOverflow(a.dup(), *b),
            TypeError::BadCast { from, to, span } => TypeError::BadCast { from: from.dup(), to: to.dup(), span: *span },
            TypeError::Duplicate(a, b) => TypeError::Duplicate(a.dup(), *b),
            TypeError::ConstNotLiteral(a) => TypeError::ConstNotLiteral(*a),
            TypeError::AssignConst(a, b) => TypeError::AssignConst(a.dup(), *b),
            TypeError::BadArrayElem(a, b) => TypeError::BadArrayElem(a.dup(), *b),
            TypeError::BadAdtField(a, b) => TypeError::BadAdtField(a.dup(), *b),
            TypeError::ArrayInSignature(a) => TypeError::ArrayInSignature(*a),
            TypeError::UnknownField(a, b, c) => TypeError::UnknownField(a.dup(), b.dup(), *c),
            TypeError::FieldOnNonStruct(a, b) => TypeError::FieldOnNonStruct(a.dup(), *b),
            TypeError::MatchNonEnum(a, b) => TypeError::MatchNonEnum(a.dup(), *b),
            TypeError::UnknownVariant(a, b) => TypeError::UnknownVariant(a.dup(), *b),
            TypeError::VariantWrongEnum(a, b, c, d) => TypeError::VariantWrongEnum(a.dup(), b.dup(), c.dup(), *d),
            TypeError::MatchNonExhaustive(a, b) => TypeError::MatchNonExhaustive(a.dup(), *b),
            TypeError::MatchDuplicateArm(a, b) => TypeError::MatchDuplicateArm(a.dup(), *b),
            TypeError::MatchUnitBinding(a, b) => TypeError::MatchUnitBinding(a.dup(), *b),
            TypeError::MatchMissingBinding(a, b) => TypeError::MatchMissingBinding(a.dup(), *b),
            TypeError::EmptyStruct(a, b) => TypeError::EmptyStruct(a.dup(), *b),
            TypeError::EmptyEnum(a, b) => TypeError::EmptyEnum(a.dup(), *b),
            TypeError::BreakOutsideLoop(a) => TypeError::BreakOutsideLoop(*a),
            TypeError::BadExternAbi(a, b) => TypeError::BadExternAbi(a.dup(), *b),
            TypeError::BadExternType(a, b) => TypeError::BadExternType(a.dup(), *b),
            TypeError::MissingImpl { trait_name, ty, span } => TypeError::MissingImpl { trait_name: trait_name.dup(), ty: ty.dup(), span: *span },
            TypeError::DuplicateImpl { trait_name, ty, span } => TypeError::DuplicateImpl { trait_name: trait_name.dup(), ty: ty.dup(), span: *span },
            TypeError::MethodNotInTrait(a, b, c) => TypeError::MethodNotInTrait(a.dup(), b.dup(), *c),
            TypeError::AmbiguousTraitMethod(a, b) => TypeError::AmbiguousTraitMethod(a.dup(), *b),
            TypeError::UndefinedTrait(a, b) => TypeError::UndefinedTrait(a.dup(), *b),
            TypeError::TraitCallNoReceiver(a) => TypeError::TraitCallNoReceiver(*a),
            TypeError::InferTypeParam(a, b) => TypeError::InferTypeParam(a.dup(), *b),
            TypeError::NoMain => TypeError::NoMain,
        }
    }
}

impl Clone for TypeError {
    fn clone(&self) -> (r: Self)
        ensures
            r@ == self@,
    {
        self.dup()
    }
}

/// Parameter types and result type of a function.
#[derive(Debug)]
pub struct FnSig {
    pub params: Vec<Type>,
    pub ret: Type,
}

/// Model of [`FnSig`].
#[verifier::ext_equal]
pub struct FnSigV {
    pub params: Seq<TypeV>,
    pub ret: TypeV,
}

impl View for FnSig {
    type V = FnSigV;

    open spec fn view(&self) -> FnSigV {
        FnSigV { params: self.params.deep_view(), ret: self.ret.deep_view() }
    }
}

impl DeepView for FnSig {
    type V = FnSigV;

    open spec fn deep_view(&self) -> FnSigV {
        self@
    }
}

impl Dup for FnSig {
    fn dup(&self) -> (r: Self) {
        FnSig { params: self.params.dup(), ret: self.ret.dup() }
    }
}

impl Clone for FnSig {
    fn clone(&self) -> (r: Self)
        ensures
            r@ == self@,
    {
        self.dup()
    }
}

/// What is known of a variant of an enum.
#[derive(Debug)]
pub struct VariantInfo {
    pub enum_name: String,
    pub tag: u32,
    pub payload: Option<Type>,
}

/// Model of [`VariantInfo`].
#[verifier::ext_equal]
pub struct VariantInfoV {
    pub enum_name: Seq<char>,
    pub tag: u32,
    pub payload: Option<TypeV>,
}

impl View for VariantInfo {
    type V = VariantInfoV;

    open spec fn view(&self) -> VariantInfoV {
        VariantInfoV { enum_name: self.enum_name.deep_view(), tag: self.tag, payload: self.payload.deep_view() }
    }
}

impl DeepView for VariantInfo {
    type V = VariantInfoV;

    open spec fn deep_view(&self) -> VariantInfoV {
        self@
    }
}

impl Dup for VariantInfo {
    fn dup(&self) -> (r: Self) {
        VariantInfo { enum_name: self.enum_name.dup(), tag: self.tag, payload: self.payload.dup() }
    }
}

impl Clone for VariantInfo {
    fn clone(&self) -> (r: Self)
        ensures
            r@ == self@,
    {
        self.dup()
    }
}

/// The message of a type error.
pub open spec fn type_error_text(e: TypeErrorV) -> Seq<char> {
    match e {
        TypeErrorV::UndefinedVar(a, _) => "undefined variable "@ + text::quoted(a),
        TypeErrorV::UndefinedFn(a, _) => "undefined function "@ + text::quoted(a),
        TypeErrorV::UndefinedType(a, _) => "undefined type "@ + text::quoted(a),
        TypeErrorV::Mismatch { expected, found, .. } => "type mismatch: expected "@ + ast::type_text(expected) + ", found "@ + ast::type_text(found),
        TypeErrorV::Arity { name, expected, got, .. } => "arity mismatch for "@ + text::quoted(name) + ": expected "@ + text::dec(expected as nat) + ", got "@ + text::dec(got as nat),
        TypeErrorV::BadOperand { op, ty, .. } => "operator "@ + text::quoted(op) + " cannot be applied to "@ + ast::type_text(ty),
        TypeErrorV::IntLitOverflow(a, _) => "integer literal does not fit type "@ + ast::type_text(a),
        TypeErrorV::BadCast { from, to, .. } => "cannot cast from "@ + ast::type_text(from) + " to "@ + ast::type_text(to),
        TypeErrorV::Duplicate(a, _) => "duplicate definition of "@ + text::quoted(a),
        TypeErrorV::ConstNotLiteral(_) => "const initializer must be a literal"@,
        TypeErrorV::AssignConst(a, _) => "cannot assign to constant "@ + text::quoted(a),
        TypeErrorV::BadArrayElem(a, _) => "array element type "@ + ast::type_text(a) + " is not supported"@,
        TypeErrorV::BadAdtField(a, _) => "ADT field/payload type "@ + ast::type_text(a) + " is not supported"@,
        TypeErrorV::ArrayInSignature(_) => "arrays cannot be used as function parameters or return types yet"@,
        TypeErrorV::UnknownField(a, b, _) => "unknown field "@ + text::quoted(a) + " on type "@ + ast::type_text(b),
        TypeErrorV::FieldOnNonStruct(a, _) => "field access requires a struct, found "@ + ast::type_text(a),
        TypeErrorV::MatchNonEnum(a, _) => "match requires an enum, found "@ + ast::type_text(a),
        TypeErrorV::UnknownVariant(a, _) => "unknown variant "@ + text::quoted(a),
        TypeErrorV::VariantWrongEnum(a, b, c, _) => "variant "@ + text::quoted(a) + " belongs to "@ + b + ", not "@ + c,
        TypeErrorV::MatchNonExhaustive(a, _) => "match is not exhaustive (missing "@ + text::quoted(a) + ")"@,
        TypeErrorV::MatchDuplicateArm(a, _) => "duplicate match arm for variant "@ + text::quoted(a),
        TypeErrorV::MatchUnitBinding(a, _) => "unit variant "@ + text::quoted(a) + " must not bind a value"@,
        TypeErrorV::MatchMissingBinding(a, _) => "payload variant "@ + text::quoted(a) + " requires a binding"@,
        TypeErrorV::EmptyStruct(a, _) => "struct "@ + text::quoted(a) + " must have at least one field"@,
        TypeErrorV::EmptyEnum(a, _) => "enum "@ + text::quoted(a) + " must have at least one variant"@,
        TypeErrorV::BreakOutsideLoop(_) => "`break` outside of loop"@,
        TypeErrorV::BadExternAbi(a, _) => "unsupported extern ABI "@ + text::quoted(a) + " (only \"C\" is supported)"@,
        TypeErrorV::BadExternType(a, _) => "extern parameter/return type "@ + ast::type_text(a) + " is not supported"@,
        TypeErrorV::MissingImpl { trait_name, ty, .. } => "missing impl of trait "@ + trait_name + " for "@ + ast::type_text(ty),
        TypeErrorV::DuplicateImpl { trait_name, ty, .. } => "duplicate impl of trait "@ + trait_name + " for "@ + ast::type_text(ty),
        TypeErrorV::MethodNotInTrait(a, b, _) => "method "@ + text::quoted(a) + " is not a member of trait "@ + b,
        TypeErrorV::AmbiguousTraitMethod(a, _) => "ambiguous trait method name "@ + text::quoted(a) + " (method names must be unique across traits)"@,
        TypeErrorV::UndefinedTrait(a, _) => "undefined trait "@ + text::quoted(a),
        TypeErrorV::TraitCallNoReceiver(_) => "trait method call requires at least one argument (receiver)"@,
        TypeErrorV::InferTypeParam(a, _) => "cannot infer type parameter "@ + text::quoted(a),
        TypeErrorV::NoMain => "missing main function"@,
    }
}

/// The place that a type error points at, if it has one.
pub open spec fn type_error_span(e: TypeErrorV) -> Option<Span> {
    match e {
        TypeErrorV::UndefinedVar(_, span) => Some(span),
        TypeErrorV::UndefinedFn(_, span) => Some(span),
        TypeErrorV::UndefinedType(_, span) => Some(span),
        TypeErrorV::Mismatch { span, .. } => Some(span),
        TypeErrorV::Arity { span, .. } => Some(span),
        TypeErrorV::BadOperand { span, .. } => Some(span),
        TypeErrorV::IntLitOverflow(_, span) => Some(span),
        TypeErrorV::BadCast { span, .. } => Some(span),
        TypeErrorV::Duplicate(_, span) => Some(span),
        TypeErrorV::ConstNotLiteral(span) => Some(span),
        TypeErrorV::AssignConst(_, span) => Some(span),
        TypeErrorV::BadArrayElem(_, span) => Some(span),
        TypeErrorV::BadAdtField(_, span) => Some(span),
        TypeErrorV::ArrayInSignature(span) => Some(span),
        TypeErrorV::UnknownField(_, _, span) => Some(span),
        TypeErrorV::FieldOnNonStruct(_, span) => Some(span),
        TypeErrorV::MatchNonEnum(_, span) => Some(span),
        TypeErrorV::UnknownVariant(_, span) => Some(span),
        TypeErrorV::VariantWrongEnum(_, _, _, span) => Some(span),
        TypeErrorV::MatchNonExhaustive(_, span) => Some(span),
        TypeErrorV::MatchDuplicateArm(_, span) => Some(span),
        TypeErrorV::MatchUnitBinding(_, span) => Some(span),
        TypeErrorV::MatchMissingBinding(_, span) => Some(span),
        TypeErrorV::EmptyStruct(_, span) => Some(span),
        TypeErrorV::EmptyEnum(_, span) => Some(span),
        TypeErrorV::BreakOutsideLoop(span) => Some(span),
        TypeErrorV::BadExternAbi(_, span) => Some(span),
        TypeErrorV::BadExternType(_, span) => Some(span),
        TypeErrorV::MissingImpl { span, .. } => Some(span),
        TypeErrorV::DuplicateImpl { span, .. } => Some(span),
        TypeErrorV::MethodNotInTrait(_, _, span) => Some(span),
        TypeErrorV::AmbiguousTraitMethod(_, span) => Some(span),
        TypeErrorV::UndefinedTrait(_, span) => Some(span),
        TypeErrorV::TraitCallNoReceiver(span) => Some(span),
        TypeErrorV::InferTypeParam(_, span) => Some(span),
        TypeErrorV::NoMain => None,
    }
}

impl TypeError {
    /// The place that the error points at, if it has one.
    pub fn span(&self) -> (r: Option<Span>)
        ensures
            r == type_error_span(self@),
    {
        match self {
            TypeError::UndefinedVar(_, span) => Some(*span),
            TypeError::UndefinedFn(_, span) => Some(*span),
            TypeError::UndefinedType(_, span) => Some(*span),
            TypeError::Mismatch { span, .. } => Some(*span),
            TypeError::Arity { span, .. } => Some(*span),
            TypeError::BadOperand { span, .. } => Some(*span),
            TypeError::IntLitOverflow(_, span) => Some(*span),
            TypeError::BadCast { span, .. } => Some(*span),
            TypeError::Duplicate(_, span) => Some(*span),
            TypeError::ConstNotLiteral(span) => Some(*span),
            TypeError::AssignConst(_, span) => Some(*span),
            TypeError::BadArrayElem(_, span) => Some(*span),
            TypeError::BadAdtField(_, span) => Some(*span),
            TypeError::ArrayInSignature(span) => Some(*span),
            TypeError::UnknownField(_, _, span) => Some(*span),
            TypeError::FieldOnNonStruct(_, span) => Some(*span),
            TypeError::MatchNonEnum(_, span) => Some(*span),
            TypeError::UnknownVariant(_, span) => Some(*span),
            TypeError::VariantWrongEnum(_, _, _, span) => Some(*span),
            TypeError::MatchNonExhaustive(_, span) => Some(*span),
            TypeError::MatchDuplicateArm(_, span) => Some(*span),
            TypeError::MatchUnitBinding(_, span) => Some(*span),
            TypeError::MatchMissingBinding(_, span) => Some(*span),
            TypeError::EmptyStruct(_, span) => Some(*span),
            TypeError::EmptyEnum(_, span) => Some(*span),
            TypeError::BreakOutsideLoop(span) => Some(*span),
            TypeError::BadExternAbi(_, span) => Some(*span),
            TypeError::BadExternType(_, span) => Some(*span),
            TypeError::MissingImpl { span, .. } => Some(*span),
            TypeError::DuplicateImpl { span, .. } => Some(*span),
            TypeError::MethodNotInTrait(_, _, span) => Some(*span),
            TypeError::AmbiguousTraitMethod(_, span) => Some(*span),
            TypeError::UndefinedTrait(_, span) => Some(*span),
            TypeError::TraitCallNoReceiver(span) => Some(*span),
            TypeError::InferTypeParam(_, span) => Some(*span),
            TypeError::NoMain => None,
        }
    }

    /// The error as a message.
    pub fn to_text(&self) -> (r: String)
        ensures
            r@ == type_error_text(self@),
    {
        match self {
            TypeError::UndefinedVar(a, _) => {
                let mut s = String::from_str("undefined variable ");
                s.append(quote(a.as_str()).as_str());
                s
            },
            TypeError::UndefinedFn(a, _) => {
                let mut s = String::from_str("undefined function ");
                s.append(quote(a.as_str()).as_str());
                s
            },
            TypeError::UndefinedType(a, _) => {
                let mut s = String::from_str("undefined type ");
                s.append(quote(a.as_str()).as_str());
                s
            },
            TypeError::Mismatch { expected, found, .. } => {
                let mut s = String::from_str("type mismatch: expected ");
                s.append(expected.to_text().as_str());
                s.append(", found ");
                s.append(found.to_text().as_str());
                s
            },
            TypeError::Arity { name, expected, got, .. } => {
                let mut s = String::from_str("arity mismatch for ");
                s.append(quote(name.as_str()).as_str());
                s.append(": expected ");
                append_decimal(&mut s, *expected as u64);
                s.append(", got ");
                append_decimal(&mut s, *got as u64);
                s
            },
            TypeError::BadOperand { op, ty, .. } => {
                let mut s = String::from_str("operator ");
                s.append(quote(op.as_str()).as_str());
                s.append(" cannot be applied to ");
                s.append(ty.to_text().as_str());
                s
            },
            TypeError::IntLitOverflow(a, _) => {
                let mut s = String::from_str("integer literal does not fit type ");
                s.append(a.to_text().as_str());
                s
            },
            TypeError::BadCast { from, to, .. } => {
                let mut s = String::from_str("cannot cast from ");
                s.append(from.to_text().as_str());
                s.append(" to ");
                s.append(to.to_text().as_str());
                s
            },
            TypeError::Duplicate(a, _) => {
                let mut s = String::from_str("duplicate definition of ");
                s.append(quote(a.as_str()).as_str());
                s
            },
            TypeError::ConstNotLiteral(_) => {
                let mut s = String::from_str("const initializer must be a literal");
                s
            },
            TypeError::AssignConst(a, _) => {
                let mut s = String::from_str("cannot assign to constant ");
                s.append(quote(a.as_str()).as_str());
                s
            },
            TypeError::BadArrayElem(a, _) => {
                let mut s = String::from_str("array element type ");
                s.append(a.to_text().as_str());
                s.append(" is not supported");
                s
            },
            TypeError::BadAdtField(a, _) => {
                let mut s = String::from_str("ADT field/payload type ");
                s.append(a.to_text().as_str());
                s.append(" is not supported");
                s
            },
            TypeError::ArrayInSignature(_) => {
                let mut s = String::from_str("arrays cannot be used as function parameters or return types yet");
                s
            },
            TypeError::UnknownField(a, b, _) => {
                let mut s = String::from_str("unknown field ");
                s.append(quote(a.as_str()).as_str());
                s.append(" on type ");
                s.append(b.to_text().as_str());
                s
            },
            TypeError::FieldOnNonStruct(a, _) => {
                let mut s = String::from_str("field access requires a struct, found ");
                s.append(a.to_text().as_str());
                s
            },
            TypeError::MatchNonEnum(a, _) => {
                let mut s = String::from_str("match requires an enum, found ");
                s.append(a.to_text().as_str());
                s
            },
            TypeError::UnknownVariant(a, _) => {
                let mut s = String::from_str("unknown variant ");
                s.append(quote(a.as_str()).as_str());
                s
            },
            TypeError::VariantWrongEnum(a, b, c, _) => {
                let mut s = String::from_str("variant ");
                s.append(quote(a.as_str()).as_str());
                s.append(" belongs to ");
                s.append(b.as_str());
                s.append(", not ");
                s.append(c.as_str());
                s
            },
            TypeError::MatchNonExhaustive(a, _) => {
                let mut s = String::from_str("match is not exhaustive (missing ");
                s.append(quote(a.as_str()).as_str());
                s.append(")");
                s
            },
            TypeError::MatchDuplicateArm(a, _) => {
                let mut s = String::from_str("duplicate match arm for variant ");
                s.append(quote(a.as_str()).as_str());
                s
            },
            TypeError::MatchUnitBinding(a, _) => {
                let mut s = String::from_str("unit variant ");
                s.append(quote(a.as_str()).as_str());
                s.append(" must not bind a value");
                s
            },
            TypeError::MatchMissingBinding(a, _) => {
                let mut s = String::from_str("payload variant ");
                s.append(quote(a.as_str()).as_str());
                s.append(" requires a binding");
                s
            },
            TypeError::EmptyStruct(a, _) => {
                let mut s = String::from_str("struct ");
                s.append(quote(a.as_str()).as_str());
                s.append(" must have at least one field");
                s
            },
            TypeError::EmptyEnum(a, _) => {
                let mut s = String::from_str("enum ");
                s.append(quote(a.as_str()).as_str());
                s.append(" must have at least one variant");
                s
            },
            TypeError::BreakOutsideLoop(_) => {
                let mut s = String::from_str("`break` outside of loop");
                s
            },
            TypeError::BadExternAbi(a, _) => {
                let mut s = String::from_str("unsupported extern ABI ");
                s.append(quote(a.as_str()).as_str());
                s.append(" (only \"C\" is supported)");
                s
            },
            TypeError::BadExternType(a, _) => {
                let mut s = String::from_str("extern parameter/return type ");
                s.append(a.to_text().as_str());
                s.append(" is not supported");
                s
            },
            TypeError::MissingImpl { trait_name, ty, .. } => {
                let mut s = String::from_str("missing impl of trait ");
                s.append(trait_name.as_str());
                s.append(" for ");
                s.append(ty.to_text().as_str());
                s
            },
            TypeError::DuplicateImpl { trait_name, ty, .. } => {
                let mut s = String::from_str("duplicate impl of trait ");
                s.append(trait_name.as_str());
                s.append(" for ");
                s.append(ty.to_text().as_str());
                s
            },
            TypeError::MethodNotInTrait(a, b, _) => {
                let mut s = String::from_str("method ");
                s.append(quote(a.as_str()).as_str());
                s.append(" is not a member of trait ");
                s.append(b.as_str());
                s
            },
            TypeError::AmbiguousTraitMethod(a, _) => {
                let mut s = String::from_str("ambiguous trait method name ");
                s.append(quote(a.as_str()).as_str());
                s.append(" (method names must be unique across traits)");
                s
            },
            TypeError::UndefinedTrait(a, _) => {
                let mut s = String::from_str("undefined trait ");
                s.append(quote(a.as_str()).as_str());
                s
            },
            TypeError::TraitCallNoReceiver(_) => {
                let mut s = String::from_str("trait method call requires at least one argument (receiver)");
                s
            },
            TypeError::InferTypeParam(a, _) => {
                let mut s = String::from_str("cannot infer type parameter ");
                s.append(quote(a.as_str()).as_str());
                s
            },
            TypeError::NoMain => {
                let mut s = String::from_str("missing main function");
                s
            },
        }
    }
}

/// What is known of a program.
#[verifier::ext_equal]
pub struct CkV {
    pub fns: Map<Seq<char>, FnSigV>,
    pub consts: Map<Seq<char>, TypeV>,
    pub structs: Map<Seq<char>, StructDefV>,
    pub enums: Map<Seq<char>, EnumDefV>,
    pub variants: Map<Seq<char>, VariantInfoV>,
    pub externs: Map<Seq<char>, FnSigV>,
    pub traits: Map<Seq<char>, TraitDefV>,
    pub trait_methods: Map<Seq<char>, Seq<char>>,
    pub impls: Set<(Seq<char>, TypeV)>,
    pub generic_fns: Map<Seq<char>, GenericFunctionV>,
    pub mono_cache: Map<(Seq<char>, Seq<TypeV>), Seq<char>>,
    pub mono_fns: Seq<FunctionV>,
    pub in_loop: bool,
}

/// Nothing known yet.
pub open spec fn nothing_known() -> CkV {
    CkV {
        fns: Map::empty(),
        consts: Map::empty(),
        structs: Map::empty(),
        enums: Map::empty(),
        variants: Map::empty(),
        externs: Map::empty(),
        traits: Map::empty(),
        trait_methods: Map::empty(),
        impls: Set::empty(),
        generic_fns: Map::empty(),
        mono_cache: Map::empty(),
        mono_fns: Seq::empty(),
        in_loop: false,
    }
}

/// The types of the variables in scope.
pub type Env = Map<Seq<char>, TypeV>;

/// The types that type parameters stand for.
pub type Subst = Map<Seq<char>, TypeV>;

/// What checking something gives.
#[verifier::ext_equal]
pub struct Checked<N, R> {
    /// What stands in its place now.
    pub node: N,
    /// What is known now.
    pub s: CkV,
    pub r: Result<R, TypeErrorV>,
}

/// A character of a symbol: letters and digits stay, anything else becomes `_`.
pub open spec fn symbol_char(c: char) -> char {
    if '0' <= c <= '9' || 'A' <= c <= 'Z' || 'a' <= c <= 'z' {
        c
    } else {
        '_'
    }
}

pub open spec fn sanitized(s: Seq<char>) -> Seq<char> {
    Seq::new(s.len(), |i: int| symbol_char(s[i]))
}

/// The symbol of a method of an impl.
pub open spec fn method_symbol(trait_name: Seq<char>, ty: TypeV, method: Seq<char>) -> Seq<char> {
    "__risp_"@ + trait_name + "_"@ + sanitized(ast::type_text(ty)) + "_"@ + method
}

/// The symbols of types, with `_` between them.
pub open spec fn types_symbol(tys: Seq<TypeV>) -> Seq<char>
    decreases tys.len(),
{
    if tys.len() == 0 {
        Seq::empty()
    } else if tys.len() == 1 {
        sanitized(ast::type_text(tys[0]))
    } else {
        types_symbol(tys.drop_last()) + "_"@ + sanitized(ast::type_text(tys.last()))
    }
}

/// The symbol of an instance of a generic function.
pub open spec fn instance_symbol(name: Seq<char>, tys: Seq<TypeV>) -> Seq<char> {
    "__risp_mono_"@ + sanitized(name) + "_"@ + types_symbol(tys)
}

pub open spec fn literal_type(l: LitV) -> TypeV {
    match l {
        LitV::Int(_, Some(IntKind::I64)) => TypeV::I64,
        LitV::Int(_, _) => TypeV::I32,
        LitV::Float(_, Some(FloatKind::F32)) => TypeV::F32,
        LitV::Float(_, _) => TypeV::F64,
        LitV::Bool(_) => TypeV::Bool,
        LitV::Str(_) => TypeV::Str,
    }
}

/// Whether an integer literal is too large for its type.
pub open spec fn literal_overflows(l: LitV) -> bool {
    l matches LitV::Int(v, _) && literal_type(l) == TypeV::I32 && !(i32::MIN <= v <= i32::MAX)
}

pub open spec fn numeric(t: TypeV) -> bool {
    t is I32 || t is I64 || t is F32 || t is F64
}

/// The types that `print` and `println` take.
pub open spec fn printable(t: TypeV) -> bool {
    numeric(t) || t is Bool || t is Str
}

/// The types that functions of the C ABI may have.
pub open spec fn foreign_type(t: TypeV) -> bool {
    printable(t) || t is Unit
}

/// `found`, if it is the type that is asked for.
pub open spec fn wanted(expected: TypeV, found: TypeV, span: Span) -> Result<TypeV, TypeErrorV> {
    if expected == found {
        Ok(found)
    } else {
        Err(TypeErrorV::Mismatch { expected, found, span })
    }
}

/// Whether a name has been defined already.
pub open spec fn taken(s: CkV, name: Seq<char>) -> bool {
    s.fns.contains_key(name) || s.consts.contains_key(name) || s.structs.contains_key(name)
        || s.enums.contains_key(name) || s.variants.contains_key(name) || s.externs.contains_key(
        name,
    ) || s.traits.contains_key(name) || s.trait_methods.contains_key(name)
        || s.generic_fns.contains_key(name)
}

/// The undefined name in a type, if there is one. `tps` are type parameters.
pub open spec fn undefined_in(s: CkV, ty: TypeV, tps: Set<Seq<char>>) -> Option<Seq<char>>
    decreases ty,
{
    match ty {
        TypeV::Named(n) => if tps.contains(n) || s.structs.contains_key(n) || s.enums.contains_key(
            n,
        ) {
            None
        } else {
            Some(n)
        },
        TypeV::Array { elem, .. } => undefined_in(s, *elem, tps),
        _ => None,
    }
}

/// What is wrong with the type of a parameter or a result.
pub open spec fn bad_signature_type(s: CkV, ty: TypeV, tps: Set<Seq<char>>, span: Span) -> Option<
    TypeErrorV,
> {
    match undefined_in(s, ty, tps) {
        Some(n) => Some(TypeErrorV::UndefinedType(n, span)),
        None => if ty is Array {
            Some(TypeErrorV::ArrayInSignature(span))
        } else {
            None
        },
    }
}

/// The types of parameters.
pub open spec fn param_types(params: Seq<ParamV>) -> Seq<TypeV> {
    Seq::new(params.len(), |i: int| params[i].ty)
}

pub open spec fn field_types(fields: Seq<FieldDefV>) -> Seq<TypeV> {
    Seq::new(fields.len(), |i: int| fields[i].ty)
}

/// The variables that parameters bring into scope; of two with one name the later counts.
pub open spec fn scope_of(params: Seq<ParamV>) -> Env
    decreases params.len(),
{
    if params.len() == 0 {
        Map::empty()
    } else {
        scope_of(params.drop_last()).insert(params.last().name, params.last().ty)
    }
}

/// The first field from place `i` on with this name.
pub open spec fn find_field(fields: Seq<FieldDefV>, name: Seq<char>, i: int) -> Option<FieldDefV>
    decreases fields.len() - i,
{
    if i < 0 || i >= fields.len() {
        None
    } else if fields[i].name == name {
        Some(fields[i])
    } else {
        find_field(fields, name, i + 1)
    }
}

/// The first method from place `i` on with this name.
pub open spec fn find_sig(sigs: Seq<MethodSigV>, name: Seq<char>, i: int) -> Option<MethodSigV>
    decreases sigs.len() - i,
{
    if i < 0 || i >= sigs.len() {
        None
    } else if sigs[i].name == name {
        Some(sigs[i])
    } else {
        find_sig(sigs, name, i + 1)
    }
}

/// The first variant from place `i` on that no arm has covered.
pub open spec fn first_missing(variants: Seq<VariantDefV>, seen: Set<Seq<char>>, i: int) -> Option<
    Seq<char>,
>
    decreases variants.len() - i,
{
    if i < 0 || i >= variants.len() {
        None
    } else if !seen.contains(variants[i].name) {
        Some(variants[i].name)
    } else {
        first_missing(variants, seen, i + 1)
    }
}

/// A list of which the first part has been replaced.
pub open spec fn resumed<T>(done: Seq<T>, xs: Seq<T>, i: int) -> Seq<T> {
    done + xs.subrange(i, xs.len() as int)
}

/// A type with the type parameters replaced.
pub open spec fn subst_in(ty: TypeV, subst: Subst) -> TypeV
    decreases ty,
{
    match ty {
        TypeV::Named(n) => if subst.contains_key(n) {
            subst[n]
        } else {
            ty
        },
        TypeV::Array { elem, len } => TypeV::Array { elem: Box::new(subst_in(*elem, subst)), len },
        _ => ty,
    }
}

/// The body of a generic function with the type parameters replaced.
pub open spec fn subst_body(e: ExprV, subst: Subst) -> ExprV
    decreases e,
{
    ExprV { kind: subst_kind(e.kind, subst), span: e.span, ty: None }
}

pub open spec fn subst_kind(k: ExprKindV, subst: Subst) -> ExprKindV
    decreases k,
{
    match k {
        ExprKindV::Lit(_) => k,
        ExprKindV::Var(_) => k,
        ExprKindV::Break => k,
        ExprKindV::If { cond, then_branch, else_branch } => ExprKindV::If {
            cond: Box::new(subst_body(*cond, subst)),
            then_branch: Box::new(subst_body(*then_branch, subst)),
            else_branch: Box::new(subst_body(*else_branch, subst)),
        },
        ExprKindV::Let { bindings, body } => ExprKindV::Let {
            bindings: subst_bindings(bindings, subst),
            body: Box::new(subst_body(*body, subst)),
        },
        ExprKindV::Do(es) => ExprKindV::Do(subst_all(es, subst)),
        ExprKindV::Cast { ty, expr } => ExprKindV::Cast {
            ty: subst_in(ty, subst),
            expr: Box::new(subst_body(*expr, subst)),
        },
        ExprKindV::Assign { name, value } => ExprKindV::Assign {
            name,
            value: Box::new(subst_body(*value, subst)),
        },
        ExprKindV::While { cond, body } => ExprKindV::While {
            cond: Box::new(subst_body(*cond, subst)),
            body: Box::new(subst_body(*body, subst)),
        },
        ExprKindV::Loop { body } => ExprKindV::Loop { body: Box::new(subst_body(*body, subst)) },
        ExprKindV::ArrayLit { elem_ty, elems } => ExprKindV::ArrayLit {
            elem_ty: subst_in(elem_ty, subst),
            elems: subst_all(elems, subst),
        },
        ExprKindV::Field { base, field } => ExprKindV::Field {
            base: Box::new(subst_body(*base, subst)),
            field,
        },
        ExprKindV::Match { scrutinee, arms } => ExprKindV::Match {
            scrutinee: Box::new(subst_body(*scrutinee, subst)),
            arms: subst_arms(arms, subst),
        },
        ExprKindV::Call { callee, args } => ExprKindV::Call { callee, args: subst_all(args, subst) },
    }
}

pub open spec fn subst_all(es: Seq<ExprV>, subst: Subst) -> Seq<ExprV>
    decreases es,
{
    Seq::new(
        es.len(),
        |i: int|
            if 0 <= i < es.len() {
                subst_body(es[i], subst)
            } else {
                arbitrary()
            },
    )
}

pub open spec fn subst_bindings(bs: Seq<BindingV>, subst: Subst) -> Seq<BindingV>
    decreases bs,
{
    Seq::new(
        bs.len(),
        |i: int|
            if 0 <= i < bs.len() {
                BindingV {
                    ty: subst_in(bs[i].ty, subst),
                    value: subst_body(bs[i].value, subst),
                    ..bs[i]
                }
            } else {
                arbitrary()
            },
    )
}

pub open spec fn subst_arms(arms: Seq<MatchArmV>, subst: Subst) -> Seq<MatchArmV>
    decreases arms,
{
    Seq::new(
        arms.len(),
        |i: int|
            if 0 <= i < arms.len() {
                MatchArmV { body: subst_body(arms[i].body, subst), ..arms[i] }
            } else {
                arbitrary()
            },
    )
}

pub open spec fn subst_params(params: Seq<ParamV>, subst: Subst) -> Seq<ParamV> {
    Seq::new(params.len(), |i: int| ParamV { ty: subst_in(params[i].ty, subst), ..params[i] })
}

/// Makes the type of a parameter fit the type of an argument.
pub open spec fn unified(
    pattern: TypeV,
    concrete: TypeV,
    tps: Set<Seq<char>>,
    subst: Subst,
    span: Span,
) -> Result<Subst, TypeErrorV>
    decreases pattern,
{
    let mismatch = TypeErrorV::Mismatch { expected: pattern, found: concrete, span };
    match pattern {
        TypeV::Named(n) if tps.contains(n) => if subst.contains_key(n) {
            match wanted(subst[n], concrete, span) {
                Ok(_) => Ok(subst),
                Err(e) => Err(e),
            }
        } else {
            Ok(subst.insert(n, concrete))
        },
        TypeV::Array { elem: pe, len: plen } => match concrete {
            TypeV::Array { elem: ce, len: clen } => if plen == clen {
                unified(*pe, *ce, tps, subst, span)
            } else {
                Err(mismatch)
            },
            _ => Err(mismatch),
        },
        _ => if pattern == concrete {
            Ok(subst)
        } else {
            Err(mismatch)
        },
    }
}

/// The names of type parameters.
pub open spec fn type_param_names(tps: Seq<(Seq<char>, Option<Seq<char>>)>) -> Set<Seq<char>>
    decreases tps.len(),
{
    if tps.len() == 0 {
        Set::empty()
    } else {
        type_param_names(tps.drop_last()).insert(tps.last().0)
    }
}

/// What the type parameters from place `i` on stand for, behind `acc`.
pub open spec fn type_args(
    tps: Seq<(Seq<char>, Option<Seq<char>>)>,
    i: int,
    acc: Seq<TypeV>,
    subst: Subst,
    impls: Set<(Seq<char>, TypeV)>,
    span: Span,
) -> Result<Seq<TypeV>, TypeErrorV>
    decreases tps.len() - i,
{
    if i < 0 || i >= tps.len() {
        Ok(acc)
    } else {
        let (name, bound) = tps[i];
        if !subst.contains_key(name) {
            Err(TypeErrorV::InferTypeParam(name, span))
        } else if bound is Some && !impls.contains((bound->0, subst[name])) {
            Err(TypeErrorV::MissingImpl { trait_name: bound->0, ty: subst[name], span })
        } else {
            type_args(tps, i + 1, acc.push(subst[name]), subst, impls, span)
        }
    }
}

/// The first argument from place `i` on whose type is not that of the parameter.
pub open spec fn misfit(params: Seq<TypeV>, tys: Seq<TypeV>, args: Seq<ExprV>, i: int) -> Option<
    TypeErrorV,
>
    decreases params.len() - i,
{
    if i < 0 || i >= params.len() || i >= tys.len() {
        None
    } else {
        match wanted(params[i], tys[i], args[i].span) {
            Err(e) => Some(e),
            Ok(_) => misfit(params, tys, args, i + 1),
        }
    }
}

/// An expression. `gas` is how many more instances of generic functions may be made.
pub open spec fn check(gas: nat, e: ExprV, env: Env, s: CkV) -> Checked<ExprV, TypeV>
    decreases gas, e, 0int,
{
    let c = check_kind(gas, e.kind, e.span, env, s);
    Checked {
        node: ExprV {
            kind: c.node,
            span: e.span,
            ty: match c.r {
                Ok(t) => Some(t),
                Err(_) => e.ty,
            },
        },
        s: c.s,
        r: c.r,
    }
}

/// An expression that must be of type `want`.
pub open spec fn check_as(gas: nat, e: ExprV, want: TypeV, env: Env, s: CkV) -> Checked<ExprV, TypeV>
    decreases gas, e, 1int,
{
    let c = check(gas, e, env, s);
    Checked {
        node: c.node,
        s: c.s,
        r: match c.r {
            Ok(t) => wanted(want, t, e.span),
            Err(x) => Err(x),
        },
    }
}

/// The forms of expressions.
pub open spec fn check_kind(gas: nat, k: ExprKindV, span: Span, env: Env, s: CkV) -> Checked<
    ExprKindV,
    TypeV,
>
    decreases gas, k, 3int,
{
    match k {
        ExprKindV::Lit(l) => Checked {
            node: k,
            s,
            r: if literal_overflows(l) {
                Err(TypeErrorV::IntLitOverflow(TypeV::I32, span))
            } else {
                Ok(literal_type(l))
            },
        },
        ExprKindV::Var(name) => Checked {
            node: k,
            s,
            r: if env.contains_key(name) {
                Ok(env[name])
            } else if s.consts.contains_key(name) {
                Ok(s.consts[name])
            } else {
                Err(TypeErrorV::UndefinedVar(name, span))
            },
        },
        ExprKindV::If { cond, then_branch, else_branch } => {
            let c = check_as(gas, *cond, TypeV::Bool, env, s);
            match c.r {
                Err(err) => Checked { node: ExprKindV::If { cond: Box::new(c.node), then_branch, else_branch }, s: c.s, r: Err(err) },
                Ok(_t) => {
                    let a = check(gas, *then_branch, env, c.s);
                    match a.r {
                        Err(err) => Checked { node: ExprKindV::If { cond: Box::new(c.node), then_branch: Box::new(a.node), else_branch }, s: a.s, r: Err(err) },
                        Ok(tt) => {
                            let b = check_as(gas, *else_branch, tt, env, a.s);
                            Checked {
                                node: ExprKindV::If {
                                    cond: Box::new(c.node),
                                    then_branch: Box::new(a.node),
                                    else_branch: Box::new(b.node),
                                },
                                s: b.s,
                                r: b.r,
                            }
                        },
                    }
                },
            }
        },
        ExprKindV::Let { bindings, body } => {
            let c = check_bindings(gas, bindings, 0, Seq::empty(), env, s);
            match c.r {
                Err(err) => Checked { node: ExprKindV::Let { bindings: c.node, body }, s: c.s, r: Err(err) },
                Ok(inner) => {
                    let b = check(gas, *body, inner, c.s);
                    Checked {
                        node: ExprKindV::Let { bindings: c.node, body: Box::new(b.node) },
                        s: b.s,
                        r: b.r,
                    }
                },
            }
        },
        ExprKindV::Do(es) => {
            let c = check_do(gas, es, 0, Seq::empty(), TypeV::Unit, env, s);
            Checked { node: ExprKindV::Do(c.node), s: c.s, r: c.r }
        },
        ExprKindV::Cast { ty, expr } => {
            let c = check(gas, *expr, env, s);
            Checked {
                node: ExprKindV::Cast { ty, expr: Box::new(c.node) },
                s: c.s,
                r: match c.r {
                    Err(x) => Err(x),
                    Ok(from) => if numeric(from) && numeric(ty) {
                        Ok(ty)
                    } else {
                        Err(TypeErrorV::BadCast { from, to: ty, span })
                    },
                },
            }
        },
        ExprKindV::Assign { name, value } => if env.contains_key(name) {
            let c = check_as(gas, *value, env[name], env, s);
            Checked {
                node: ExprKindV::Assign { name, value: Box::new(c.node) },
                s: c.s,
                r: match c.r {
                    Err(x) => Err(x),
                    Ok(_) => Ok(TypeV::Unit),
                },
            }
        } else if s.consts.contains_key(name) {
            Checked { node: k, s, r: Err(TypeErrorV::AssignConst(name, span)) }
        } else {
            Checked { node: k, s, r: Err(TypeErrorV::UndefinedVar(name, span)) }
        },
        ExprKindV::While { cond, body } => {
            let c = check_as(gas, *cond, TypeV::Bool, env, s);
            match c.r {
                Err(err) => Checked { node: ExprKindV::While { cond: Box::new(c.node), body }, s: c.s, r: Err(err) },
                Ok(_t) => {
                    let b = check(gas, *body, env, CkV { in_loop: true, ..c.s });
                    Checked {
                        node: ExprKindV::While { cond: Box::new(c.node), body: Box::new(b.node) },
                        s: CkV { in_loop: c.s.in_loop, ..b.s },
                        r: match b.r {
                            Err(x) => Err(x),
                            Ok(_) => Ok(TypeV::Unit),
                        },
                    }
                },
            }
        },
        ExprKindV::Loop { body } => {
            let b = check(gas, *body, env, CkV { in_loop: true, ..s });
            Checked {
                node: ExprKindV::Loop { body: Box::new(b.node) },
                s: CkV { in_loop: s.in_loop, ..b.s },
                r: match b.r {
                    Err(x) => Err(x),
                    Ok(_) => Ok(TypeV::Unit),
                },
            }
        },
        ExprKindV::Break => Checked {
            node: k,
            s,
            r: if s.in_loop {
                Ok(TypeV::Unit)
            } else {
                Err(TypeErrorV::BreakOutsideLoop(span))
            },
        },
        ExprKindV::ArrayLit { elem_ty, elems } => if !ast::scalar(elem_ty) {
            Checked { node: k, s, r: Err(TypeErrorV::BadArrayElem(elem_ty, span)) }
        } else {
            let wants = Seq::new(elems.len(), |i: int| elem_ty);
            let c = check_args(gas, elems, 0, Seq::empty(), wants, env, s);
            Checked {
                node: ExprKindV::ArrayLit { elem_ty, elems: c.node },
                s: c.s,
                r: match c.r {
                    Err(x) => Err(x),
                    Ok(_) => Ok(TypeV::Array { elem: Box::new(elem_ty), len: elems.len() as u32 }),
                },
            }
        },
        ExprKindV::Field { base, field } => {
            let c = check(gas, *base, env, s);
            Checked {
                node: ExprKindV::Field { base: Box::new(c.node), field },
                s: c.s,
                r: match c.r {
                    Err(x) => Err(x),
                    Ok(bt) => field_type(c.s, bt, field, span),
                },
            }
        },
        ExprKindV::Match { .. } => check_match(gas, k, span, env, s),
        ExprKindV::Call { callee, args } => {
            let c = check_call(gas, callee, args, span, env, s);
            Checked {
                node: ExprKindV::Call { callee: c.node.0, args: c.node.1 },
                s: c.s,
                r: c.r,
            }
        },
    }
}

/// The type of a field of a value of type `bt`.
pub open spec fn field_type(s: CkV, bt: TypeV, field: Seq<char>, span: Span) -> Result<
    TypeV,
    TypeErrorV,
> {
    match bt {
        TypeV::Named(n) => if s.structs.contains_key(n) {
            match find_field(s.structs[n].fields, field, 0) {
                Some(f) => Ok(f.ty),
                None => Err(TypeErrorV::UnknownField(field, bt, span)),
            }
        } else {
            Err(TypeErrorV::FieldOnNonStruct(bt, span))
        },
        _ => Err(TypeErrorV::FieldOnNonStruct(bt, span)),
    }
}

/// A `match`: every variant of the enum has exactly one arm, and all arms have one type.
pub open spec fn check_match(gas: nat, k: ExprKindV, span: Span, env: Env, s: CkV) -> Checked<
    ExprKindV,
    TypeV,
>
    decreases gas, k, 2int,
{
    match k {
        ExprKindV::Match { scrutinee, arms } => {
            let c = check(gas, *scrutinee, env, s);
            match c.r {
                Err(err) => Checked { node: ExprKindV::Match { scrutinee: Box::new(c.node), arms }, s: c.s, r: Err(err) },
                Ok(st) => {
                    if st is Named && c.s.enums.contains_key(st->Named_0) {
                        let edef = c.s.enums[st->Named_0];
                        let a = check_arms(
                            gas,
                            arms,
                            0,
                            Seq::empty(),
                            edef.name,
                            Set::empty(),
                            None,
                            env,
                            c.s,
                        );
                        Checked {
                            node: ExprKindV::Match { scrutinee: Box::new(c.node), arms: a.node },
                            s: a.s,
                            r: match a.r {
                                Err(x) => Err(x),
                                Ok((seen, ty)) => match first_missing(edef.variants, seen, 0) {
                                    Some(v) => Err(TypeErrorV::MatchNonExhaustive(v, span)),
                                    None => Ok(
                                        match ty {
                                            Some(t) => t,
                                            None => TypeV::Unit,
                                        },
                                    ),
                                },
                            },
                        }
                    } else {
                        Checked {
                            node: ExprKindV::Match { scrutinee: Box::new(c.node), arms },
                            s: c.s,
                            r: Err(TypeErrorV::MatchNonEnum(st, span)),
                        }
                    }
                },
            }
        },
        _ => arbitrary(),
    }
}

/// What is wrong with the head of a match arm.
pub open spec fn bad_arm(s: CkV, arm: MatchArmV, enum_name: Seq<char>, seen: Set<Seq<char>>) -> Option<
    TypeErrorV,
> {
    if !s.variants.contains_key(arm.variant) {
        Some(TypeErrorV::UnknownVariant(arm.variant, arm.span))
    } else {
        let info = s.variants[arm.variant];
        if info.enum_name != enum_name {
            Some(TypeErrorV::VariantWrongEnum(arm.variant, info.enum_name, enum_name, arm.span))
        } else if seen.contains(arm.variant) {
            Some(TypeErrorV::MatchDuplicateArm(arm.variant, arm.span))
        } else if info.payload is None && arm.binding is Some {
            Some(TypeErrorV::MatchUnitBinding(arm.variant, arm.span))
        } else if info.payload is Some && arm.binding is None {
            Some(TypeErrorV::MatchMissingBinding(arm.variant, arm.span))
        } else {
            None
        }
    }
}

/// The scope of the body of a match arm.
pub open spec fn arm_scope(s: CkV, arm: MatchArmV, env: Env) -> Env {
    match (s.variants[arm.variant].payload, arm.binding) {
        (Some(t), Some(name)) => env.insert(name, t),
        _ => env,
    }
}

/// Match arms from place `i` on. `seen` are the variants of the arms before, `ty`
/// their type.
pub open spec fn check_arms(
    gas: nat,
    arms: Seq<MatchArmV>,
    i: int,
    acc: Seq<MatchArmV>,
    enum_name: Seq<char>,
    seen: Set<Seq<char>>,
    ty: Option<TypeV>,
    env: Env,
    s: CkV,
) -> Checked<Seq<MatchArmV>, (Set<Seq<char>>, Option<TypeV>)>
    decreases gas, arms, arms.len() - i,
{
    if i < 0 || i >= arms.len() {
        Checked { node: acc, s, r: Ok((seen, ty)) }
    } else {
        let arm = arms[i];
        match bad_arm(s, arm, enum_name, seen) {
            Some(x) => Checked { node: resumed(acc, arms, i), s, r: Err(x) },
            None => {
                let b = check(gas, arm.body, arm_scope(s, arm, env), s);
                match b.r {
                    Err(err) => Checked { node: resumed(acc.push(MatchArmV { body: b.node, ..arm }), arms, i + 1), s: b.s, r: Err(err) },
                    Ok(bt) => {
                        let done = acc.push(MatchArmV { body: b.node, ..arm });
                        if ty is Some && ty->0 != bt {
                            Checked {
                                node: resumed(done, arms, i + 1),
                                s: b.s,
                                r: Err(
                                    TypeErrorV::Mismatch {
                                        expected: ty->0,
                                        found: bt,
                                        span: arm.body.span,
                                    },
                                ),
                            }
                        } else {
                            check_arms(
                                gas,
                                arms,
                                i + 1,
                                done,
                                enum_name,
                                seen.insert(arm.variant),
                                Some(bt),
                                env,
                                b.s,
                            )
                        }
                    },
                }
            },
        }
    }
}

/// The expressions of a `do` from place `i` on; the type is that of the last.
pub open spec fn check_do(
    gas: nat,
    es: Seq<ExprV>,
    i: int,
    acc: Seq<ExprV>,
    last: TypeV,
    env: Env,
    s: CkV,
) -> Checked<Seq<ExprV>, TypeV>
    decreases gas, es, es.len() - i,
{
    if i < 0 || i >= es.len() {
        Checked { node: acc, s, r: Ok(last) }
    } else {
        let c = check(gas, es[i], env, s);
        match c.r {
            Err(err) => Checked { node: resumed(acc.push(c.node), es, i + 1), s: c.s, r: Err(err) },
            Ok(t) => {
                check_do(gas, es, i + 1, acc.push(c.node), t, env, c.s)
            },
        }
    }
}

/// Expressions from place `i` on, each against its type in `wants`.
pub open spec fn check_args(
    gas: nat,
    es: Seq<ExprV>,
    i: int,
    acc: Seq<ExprV>,
    wants: Seq<TypeV>,
    env: Env,
    s: CkV,
) -> Checked<Seq<ExprV>, ()>
    decreases gas, es, es.len() - i,
{
    if i < 0 || i >= es.len() {
        Checked { node: acc, s, r: Ok(()) }
    } else {
        let c = check_as(gas, es[i], wants[i], env, s);
        match c.r {
            Err(err) => Checked { node: resumed(acc.push(c.node), es, i + 1), s: c.s, r: Err(err) },
            Ok(_t) => {
                check_args(gas, es, i + 1, acc.push(c.node), wants, env, c.s)
            },
        }
    }
}

/// The bindings of a `let` from place `i` on; each is in scope from the next one on.
pub open spec fn check_bindings(
    gas: nat,
    bs: Seq<BindingV>,
    i: int,
    acc: Seq<BindingV>,
    env: Env,
    s: CkV,
) -> Checked<Seq<BindingV>, Env>
    decreases gas, bs, bs.len() - i,
{
    if i < 0 || i >= bs.len() {
        Checked { node: acc, s, r: Ok(env) }
    } else {
        let b = bs[i];
        match undefined_in(s, b.ty, Set::empty()) {
            Some(n) => Checked {
                node: resumed(acc, bs, i),
                s,
                r: Err(TypeErrorV::UndefinedType(n, b.span)),
            },
            None => {
                let c = check_as(gas, b.value, b.ty, env, s);
                match c.r {
                    Err(err) => Checked { node: resumed(acc.push(BindingV { value: c.node, ..b }), bs, i + 1), s: c.s, r: Err(err) },
                    Ok(_t) => {
                        check_bindings(
                            gas,
                            bs,
                            i + 1,
                            acc.push(BindingV { value: c.node, ..b }),
                            env.insert(b.name, b.ty),
                            c.s,
                        )
                    },
                }
            },
        }
    }
}

pub open spec fn arity_error(name: Seq<char>, expected: nat, got: nat, span: Span) -> TypeErrorV {
    TypeErrorV::Arity { name, expected: expected as usize, got: got as usize, span }
}

/// A call: of a trait method, a constructor, a builtin, a generic or a plain function.
pub open spec fn check_call(
    gas: nat,
    callee: Seq<char>,
    args: Seq<ExprV>,
    span: Span,
    env: Env,
    s: CkV,
) -> Checked<(Seq<char>, Seq<ExprV>), TypeV>
    decreases gas, args, args.len() + 3,
{
    if s.trait_methods.contains_key(callee) {
        check_method_call(gas, callee, args, span, env, s)
    } else if s.structs.contains_key(callee) {
        let sdef = s.structs[callee];
        check_known_call(
            gas,
            callee,
            args,
            field_types(sdef.fields),
            TypeV::Named(sdef.name),
            span,
            env,
            s,
        )
    } else if s.variants.contains_key(callee) {
        let info = s.variants[callee];
        let wants = match info.payload {
            None => Seq::empty(),
            Some(t) => seq![t],
        };
        check_known_call(gas, callee, args, wants, TypeV::Named(info.enum_name), span, env, s)
    } else if builtin_name(callee) {
        let c = check_builtin(gas, callee, args, span, env, s);
        Checked { node: (callee, c.node), s: c.s, r: c.r }
    } else if s.generic_fns.contains_key(callee) {
        check_generic_call(gas, callee, args, span, env, s)
    } else if s.fns.contains_key(callee) {
        let sig = s.fns[callee];
        check_known_call(gas, callee, args, sig.params, sig.ret, span, env, s)
    } else {
        Checked { node: (callee, args), s, r: Err(TypeErrorV::UndefinedFn(callee, span)) }
    }
}

/// A call of something with these parameter types and this result.
pub open spec fn check_known_call(
    gas: nat,
    callee: Seq<char>,
    args: Seq<ExprV>,
    wants: Seq<TypeV>,
    ret: TypeV,
    span: Span,
    env: Env,
    s: CkV,
) -> Checked<(Seq<char>, Seq<ExprV>), TypeV>
    decreases gas, args, args.len() + 2,
{
    if wants.len() != args.len() {
        Checked {
            node: (callee, args),
            s,
            r: Err(arity_error(callee, wants.len(), args.len(), span)),
        }
    } else {
        let c = check_args(gas, args, 0, Seq::empty(), wants, env, s);
        Checked {
            node: (callee, c.node),
            s: c.s,
            r: match c.r {
                Err(x) => Err(x),
                Ok(_) => Ok(ret),
            },
        }
    }
}

/// A call of a trait method: the type of the first argument says which impl is
/// meant, and its symbol takes the place of the name.
pub open spec fn check_method_call(
    gas: nat,
    callee: Seq<char>,
    args: Seq<ExprV>,
    span: Span,
    env: Env,
    s: CkV,
) -> Checked<(Seq<char>, Seq<ExprV>), TypeV>
    decreases gas, args, args.len() + 2,
{
    if args.len() == 0 {
        Checked { node: (callee, args), s, r: Err(TypeErrorV::TraitCallNoReceiver(span)) }
    } else {
        let trait_name = s.trait_methods[callee];
        let c = check(gas, args[0], env, s);
        match c.r {
            Err(err) => Checked { node: (callee, args.update(0, c.node)), s: c.s, r: Err(err) },
            Ok(recv) => {
                let symbol = method_symbol(trait_name, recv, callee);
                let done = args.update(0, c.node);
                if !c.s.impls.contains((trait_name, recv)) {
                    Checked {
                        node: (callee, done),
                        s: c.s,
                        r: Err(TypeErrorV::MissingImpl { trait_name, ty: recv, span }),
                    }
                } else if !c.s.fns.contains_key(symbol) {
                    Checked { node: (callee, done), s: c.s, r: Err(TypeErrorV::UndefinedFn(symbol, span)) }
                } else {
                    let sig = c.s.fns[symbol];
                    if sig.params.len() != args.len() {
                        Checked {
                            node: (callee, done),
                            s: c.s,
                            r: Err(arity_error(callee, sig.params.len(), args.len(), span)),
                        }
                    } else if sig.params[0] != recv {
                        Checked {
                            node: (callee, done),
                            s: c.s,
                            r: Err(
                                TypeErrorV::Mismatch {
                                    expected: sig.params[0],
                                    found: recv,
                                    span: args[0].span,
                                },
                            ),
                        }
                    } else {
                        let d = check_args(gas, args, 1, seq![c.node], sig.params, env, c.s);
                        match d.r {
                            Err(err) => Checked { node: (callee, d.node), s: d.s, r: Err(err) },
                            Ok(_u) => {
                                Checked { node: (symbol, d.node), s: d.s, r: Ok(sig.ret) }
                            },
                        }
                    }
                }
            },
        }
    }
}

pub open spec fn comparison(op: Seq<char>) -> bool {
    op == "<"@ || op == "<="@ || op == ">"@ || op == ">="@ || op == "="@ || op == "!="@
}

/// How many arguments a builtin takes; `None` for one or more.
pub open spec fn builtin_arity(op: Seq<char>) -> Option<nat> {
    if op == "/"@ || op == "mod"@ {
        Some(2)
    } else if op == "+"@ || op == "*"@ || op == "-"@ {
        None
    } else if comparison(op) || op == "and"@ || op == "or"@ {
        Some(2)
    } else if op == "not"@ {
        Some(1)
    } else if op == "str-concat"@ {
        Some(2)
    } else if op == "str-len"@ {
        Some(1)
    } else if op == "print"@ || op == "println"@ {
        Some(1)
    } else if op == "aget"@ {
        Some(2)
    } else if op == "aset!"@ {
        Some(3)
    } else {
        Some(1)
    }
}

pub open spec fn builtin_name(op: Seq<char>) -> bool {
    op == "/"@ || op == "mod"@ || op == "+"@ || op == "*"@ || op == "-"@ || comparison(op) || op
        == "and"@ || op == "or"@ || op == "not"@ || op == "print"@ || op == "println"@ || op
        == "str-concat"@ || op == "str-len"@ || op == "aget"@ || op == "aset!"@ || op == "alen"@
}

/// A call of a builtin.
pub open spec fn check_builtin(
    gas: nat,
    op: Seq<char>,
    args: Seq<ExprV>,
    span: Span,
    env: Env,
    s: CkV,
) -> Checked<Seq<ExprV>, TypeV>
    decreases gas, args, args.len() + 2,
{
    let arity = builtin_arity(op);
    if arity is None && args.len() == 0 {
        Checked { node: args, s, r: Err(arity_error(op, 1, 0, span)) }
    } else if arity is Some && args.len() != arity->0 {
        Checked { node: args, s, r: Err(arity_error(op, arity->0, args.len(), span)) }
    } else if op == "/"@ || op == "mod"@ || arity is None {
        check_numeric(gas, op, args, env, s)
    } else if comparison(op) {
        check_comparison(gas, op, args, env, s)
    } else if op == "and"@ || op == "or"@ {
        check_uniform(gas, args, TypeV::Bool, TypeV::Bool, env, s)
    } else if op == "not"@ {
        check_uniform(gas, args, TypeV::Bool, TypeV::Bool, env, s)
    } else if op == "str-concat"@ {
        check_uniform(gas, args, TypeV::Str, TypeV::Str, env, s)
    } else if op == "str-len"@ {
        check_uniform(gas, args, TypeV::Str, TypeV::I32, env, s)
    } else {
        check_first(gas, op, args, env, s)
    }
}

/// Arguments that all have the type `want`; the result is `ret`.
pub open spec fn check_uniform(
    gas: nat,
    args: Seq<ExprV>,
    want: TypeV,
    ret: TypeV,
    env: Env,
    s: CkV,
) -> Checked<Seq<ExprV>, TypeV>
    decreases gas, args, args.len() + 1,
{
    let c = check_args(
        gas,
        args,
        0,
        Seq::empty(),
        Seq::new(args.len(), |i: int| want),
        env,
        s,
    );
    Checked {
        node: c.node,
        s: c.s,
        r: match c.r {
            Err(x) => Err(x),
            Ok(_) => Ok(ret),
        },
    }
}

/// Arguments of one numeric type, which is the result.
pub open spec fn check_numeric(gas: nat, op: Seq<char>, args: Seq<ExprV>, env: Env, s: CkV) -> Checked<
    Seq<ExprV>,
    TypeV,
>
    decreases gas, args, args.len() + 1,
{
    if args.len() == 0 {
        arbitrary()
    } else {
        let c = check(gas, args[0], env, s);
        match c.r {
            Err(err) => Checked { node: args.update(0, c.node), s: c.s, r: Err(err) },
            Ok(first) => {
                if !numeric(first) {
                    Checked {
                        node: args.update(0, c.node),
                        s: c.s,
                        r: Err(TypeErrorV::BadOperand { op, ty: first, span: args[0].span }),
                    }
                } else {
                    let d = check_args(
                        gas,
                        args,
                        1,
                        seq![c.node],
                        Seq::new(args.len(), |i: int| first),
                        env,
                        c.s,
                    );
                    Checked {
                        node: d.node,
                        s: d.s,
                        r: match d.r {
                            Err(x) => Err(x),
                            Ok(_) => Ok(first),
                        },
                    }
                }
            },
        }
    }
}

/// Two arguments of one type that can be compared.
pub open spec fn check_comparison(gas: nat, op: Seq<char>, args: Seq<ExprV>, env: Env, s: CkV) -> Checked<
    Seq<ExprV>,
    TypeV,
>
    decreases gas, args, args.len() + 1,
{
    if args.len() != 2 {
        arbitrary()
    } else {
        let a = check(gas, args[0], env, s);
        match a.r {
            Err(err) => Checked { node: args.update(0, a.node), s: a.s, r: Err(err) },
            Ok(t) => {
                let b = check_as(gas, args[1], t, env, a.s);
                match b.r {
                    Err(err) => Checked { node: seq![a.node, b.node], s: b.s, r: Err(err) },
                    Ok(_t) => {
                        Checked {
                            node: seq![a.node, b.node],
                            s: b.s,
                            r: if numeric(t) || t is Bool {
                                Ok(TypeV::Bool)
                            } else {
                                Err(TypeErrorV::BadOperand { op, ty: t, span: args[0].span })
                            },
                        }
                    },
                }
            },
        }
    }
}

/// The builtins whose first argument decides: printing and array access.
pub open spec fn check_first(gas: nat, op: Seq<char>, args: Seq<ExprV>, env: Env, s: CkV) -> Checked<
    Seq<ExprV>,
    TypeV,
>
    decreases gas, args, args.len() + 1,
{
    if args.len() == 0 {
        arbitrary()
    } else {
        let c = check(gas, args[0], env, s);
        match c.r {
            Err(err) => Checked { node: args.update(0, c.node), s: c.s, r: Err(err) },
            Ok(t) => {
                let bad = TypeErrorV::BadOperand { op, ty: t, span: args[0].span };
                if op == "print"@ || op == "println"@ {
                    Checked {
                        node: args.update(0, c.node),
                        s: c.s,
                        r: if printable(t) {
                            Ok(TypeV::Unit)
                        } else {
                            Err(bad)
                        },
                    }
                } else {
                    match t {
                        TypeV::Array { elem, .. } => {
                            let wants = if op == "aset!"@ {
                                seq![t, TypeV::I32, *elem]
                            } else {
                                seq![t, TypeV::I32]
                            };
                            let d = check_args(gas, args, 1, seq![c.node], wants, env, c.s);
                            Checked {
                                node: d.node,
                                s: d.s,
                                r: match d.r {
                                    Err(x) => Err(x),
                                    Ok(_) => Ok(
                                        if op == "aget"@ {
                                            *elem
                                        } else if op == "aset!"@ {
                                            TypeV::Unit
                                        } else {
                                            TypeV::I32
                                        },
                                    ),
                                },
                            }
                        },
                        _ => Checked { node: args.update(0, c.node), s: c.s, r: Err(bad) },
                    }
                }
            },
        }
    }
}

/// The arguments of a generic call from place `i` on: their types, and what the
/// type parameters must stand for.
pub open spec fn check_unified(
    gas: nat,
    args: Seq<ExprV>,
    i: int,
    acc: Seq<ExprV>,
    params: Seq<ParamV>,
    tps: Set<Seq<char>>,
    subst: Subst,
    tys: Seq<TypeV>,
    env: Env,
    s: CkV,
) -> Checked<Seq<ExprV>, (Subst, Seq<TypeV>)>
    decreases gas, args, args.len() - i,
{
    if i < 0 || i >= args.len() {
        Checked { node: acc, s, r: Ok((subst, tys)) }
    } else {
        let c = check(gas, args[i], env, s);
        match c.r {
            Err(err) => Checked { node: resumed(acc.push(c.node), args, i + 1), s: c.s, r: Err(err) },
            Ok(t) => {
                match unified(params[i].ty, t, tps, subst, args[i].span) {
                    Err(x) => Checked { node: resumed(acc.push(c.node), args, i + 1), s: c.s, r: Err(x) },
                    Ok(subst2) => check_unified(
                        gas,
                        args,
                        i + 1,
                        acc.push(c.node),
                        params,
                        tps,
                        subst2,
                        tys.push(t),
                        env,
                        c.s,
                    ),
                }
            },
        }
    }
}

/// A call of a generic function: the arguments say what the type parameters stand
/// for, and the symbol of the instance takes the place of the name.
pub open spec fn check_generic_call(
    gas: nat,
    callee: Seq<char>,
    args: Seq<ExprV>,
    span: Span,
    env: Env,
    s: CkV,
) -> Checked<(Seq<char>, Seq<ExprV>), TypeV>
    decreases gas, args, args.len() + 2,
{
    let g = s.generic_fns[callee];
    if g.params.len() != args.len() {
        Checked {
            node: (callee, args),
            s,
            r: Err(arity_error(callee, g.params.len(), args.len(), span)),
        }
    } else {
        let c = check_unified(gas, args, 0, Seq::empty(), g.params, type_param_names(g.type_params), Map::empty(), Seq::empty(), env, s);
        match c.r {
            Err(err) => Checked { node: (callee, c.node), s: c.s, r: Err(err) },
            Ok(found) => {
                let (subst, tys) = found;
                match type_args(g.type_params, 0, Seq::empty(), subst, c.s.impls, span) {
                    Err(x) => Checked { node: (callee, c.node), s: c.s, r: Err(x) },
                    Ok(targs) => {
                        let known = c.s.mono_cache.contains_key((g.name, targs));
                        let d = if known {
                            Checked { node: (), s: c.s, r: Ok(c.s.mono_cache[(g.name, targs)]) }
                        } else if gas == 0 {
                            Checked { node: (), s: c.s, r: Err(TypeErrorV::UndefinedFn(callee, span)) }
                        } else {
                            check_instance((gas - 1) as nat, g, targs, subst, c.s)
                        };
                        match d.r {
                            Err(err) => Checked { node: (callee, c.node), s: d.s, r: Err(err) },
                            Ok(symbol) => {
                                if !d.s.fns.contains_key(symbol) {
                                    Checked {
                                        node: (callee, c.node),
                                        s: d.s,
                                        r: Err(TypeErrorV::UndefinedFn(symbol, span)),
                                    }
                                } else {
                                    let sig = d.s.fns[symbol];
                                    match misfit(sig.params, tys, c.node, 0) {
                                        Some(x) => Checked { node: (callee, c.node), s: d.s, r: Err(x) },
                                        None => Checked { node: (symbol, c.node), s: d.s, r: Ok(sig.ret) },
                                    }
                                }
                            },
                        }
                    },
                }
            },
        }
    }
}

/// The function that a generic function is for given type arguments.
pub open spec fn instance_of(g: GenericFunctionV, targs: Seq<TypeV>, subst: Subst) -> FunctionV {
    FunctionV {
        name: instance_symbol(g.name, targs),
        params: subst_params(g.params, subst),
        ret: subst_in(g.ret, subst),
        body: subst_body(g.body, subst),
        span: g.span,
    }
}

/// What is known once an instance has been entered. The loops around the call are not
/// its own.
pub open spec fn entered(s: CkV, g: GenericFunctionV, targs: Seq<TypeV>, f: FunctionV) -> CkV {
    CkV {
        fns: s.fns.insert(f.name, FnSigV { params: param_types(f.params), ret: f.ret }),
        mono_cache: s.mono_cache.insert((g.name, targs), f.name),
        in_loop: false,
        ..s
    }
}

/// A new instance: it is entered, so that it may call itself, then checked, then
/// kept. Its symbol is the result.
pub open spec fn check_instance(
    gas: nat,
    g: GenericFunctionV,
    targs: Seq<TypeV>,
    subst: Subst,
    s: CkV,
) -> Checked<(), Seq<char>>
    decreases gas, instance_of(g, targs, subst).body, 2int,
{
    let f = instance_of(g, targs, subst);
    let c = check_as(gas, f.body, f.ret, scope_of(f.params), entered(s, g, targs, f));
    match c.r {
        Err(x) => Checked { node: (), s: CkV { in_loop: s.in_loop, ..c.s }, r: Err(x) },
        Ok(_) => Checked {
            node: (),
            s: CkV {
                mono_fns: c.s.mono_fns.push(FunctionV { body: c.node, ..f }),
                in_loop: s.in_loop,
                ..c.s
            },
            r: Ok(f.name),
        },
    }
}

/// What is wrong with the fields of a struct from place `i` on.
pub open spec fn bad_field(fields: Seq<FieldDefV>, i: int, seen: Set<Seq<char>>) -> Option<TypeErrorV>
    decreases fields.len() - i,
{
    if i < 0 || i >= fields.len() {
        None
    } else {
        let f = fields[i];
        if seen.contains(f.name) {
            Some(TypeErrorV::Duplicate(f.name, f.span))
        } else if !ast::scalar(f.ty) {
            Some(TypeErrorV::BadAdtField(f.ty, f.span))
        } else {
            bad_field(fields, i + 1, seen.insert(f.name))
        }
    }
}

/// The variants of an enum from place `i` on.
pub open spec fn collect_variants(e: EnumDefV, i: int, seen: Set<Seq<char>>, s: CkV) -> (
    CkV,
    Option<TypeErrorV>,
)
    decreases e.variants.len() - i,
{
    if i < 0 || i >= e.variants.len() {
        (s, None)
    } else {
        let v = e.variants[i];
        if seen.contains(v.name) || taken(s, v.name) {
            (s, Some(TypeErrorV::Duplicate(v.name, v.span)))
        } else if v.payload is Some && !ast::scalar(v.payload->0) {
            (s, Some(TypeErrorV::BadAdtField(v.payload->0, v.span)))
        } else {
            let info = VariantInfoV { enum_name: e.name, tag: i as u32, payload: v.payload };
            collect_variants(
                e,
                i + 1,
                seen.insert(v.name),
                CkV { variants: s.variants.insert(v.name, info), ..s },
            )
        }
    }
}

/// A struct or an enum.
pub open spec fn collect_type(it: TopLevelV, s: CkV) -> (CkV, Option<TypeErrorV>) {
    match it {
        TopLevelV::Struct(d) => if taken(s, d.name) {
            (s, Some(TypeErrorV::Duplicate(d.name, d.span)))
        } else if d.fields.len() == 0 {
            (s, Some(TypeErrorV::EmptyStruct(d.name, d.span)))
        } else {
            match bad_field(d.fields, 0, Set::empty()) {
                Some(x) => (s, Some(x)),
                None => (CkV { structs: s.structs.insert(d.name, d), ..s }, None),
            }
        },
        TopLevelV::Enum(e) => if taken(s, e.name) {
            (s, Some(TypeErrorV::Duplicate(e.name, e.span)))
        } else if e.variants.len() == 0 {
            (s, Some(TypeErrorV::EmptyEnum(e.name, e.span)))
        } else {
            let (s2, bad) = collect_variants(e, 0, Set::empty(), s);
            match bad {
                Some(x) => (s2, Some(x)),
                None => (CkV { enums: s2.enums.insert(e.name, e), ..s2 }, None),
            }
        },
        _ => (s, None),
    }
}

/// What is wrong with parameters from place `i` on. A first parameter called `self`
/// is left out if `methods` says so.
pub open spec fn bad_param(
    s: CkV,
    params: Seq<ParamV>,
    i: int,
    tps: Set<Seq<char>>,
    methods: bool,
) -> Option<TypeErrorV>
    decreases params.len() - i,
{
    if i < 0 || i >= params.len() {
        None
    } else if methods && i == 0 && params[0].name == "self"@ {
        bad_param(s, params, i + 1, tps, methods)
    } else {
        match bad_signature_type(s, params[i].ty, tps, params[i].span) {
            Some(x) => Some(x),
            None => bad_param(s, params, i + 1, tps, methods),
        }
    }
}

/// The methods of a trait from place `i` on.
pub open spec fn collect_sigs(t: TraitDefV, i: int, seen: Set<Seq<char>>, s: CkV) -> (
    CkV,
    Option<TypeErrorV>,
)
    decreases t.methods.len() - i,
{
    if i < 0 || i >= t.methods.len() {
        (s, None)
    } else {
        let m = t.methods[i];
        if seen.contains(m.name) {
            (s, Some(TypeErrorV::Duplicate(m.name, m.span)))
        } else if s.trait_methods.contains_key(m.name) {
            (s, Some(TypeErrorV::AmbiguousTraitMethod(m.name, m.span)))
        } else if taken(s, m.name) {
            (s, Some(TypeErrorV::Duplicate(m.name, m.span)))
        } else if m.params.len() == 0 {
            (s, Some(arity_error(m.name, 1, 0, m.span)))
        } else {
            match bad_param(s, m.params, 0, Set::empty(), true) {
                Some(x) => (s, Some(x)),
                None => match bad_signature_type(s, m.ret, Set::empty(), m.span) {
                    Some(x) => (s, Some(x)),
                    None => collect_sigs(
                        t,
                        i + 1,
                        seen.insert(m.name),
                        CkV { trait_methods: s.trait_methods.insert(m.name, t.name), ..s },
                    ),
                },
            }
        }
    }
}

/// A trait.
pub open spec fn collect_trait(it: TopLevelV, s: CkV) -> (CkV, Option<TypeErrorV>) {
    match it {
        TopLevelV::Trait(t) => if taken(s, t.name) {
            (s, Some(TypeErrorV::Duplicate(t.name, t.span)))
        } else {
            let (s2, bad) = collect_sigs(t, 0, Set::empty(), s);
            match bad {
                Some(x) => (s2, Some(x)),
                None => (CkV { traits: s2.traits.insert(t.name, t), ..s2 }, None),
            }
        },
        _ => (s, None),
    }
}

/// What is wrong with type parameters from place `i` on.
pub open spec fn bad_type_param(
    s: CkV,
    tps: Seq<(Seq<char>, Option<Seq<char>>)>,
    i: int,
    seen: Set<Seq<char>>,
    span: Span,
) -> Option<TypeErrorV>
    decreases tps.len() - i,
{
    if i < 0 || i >= tps.len() {
        None
    } else {
        let (name, bound) = tps[i];
        if seen.contains(name) {
            Some(TypeErrorV::Duplicate(name, span))
        } else if bound is Some && !s.traits.contains_key(bound->0) {
            Some(TypeErrorV::UndefinedTrait(bound->0, span))
        } else {
            bad_type_param(s, tps, i + 1, seen.insert(name), span)
        }
    }
}

/// What is wrong with the parameters of a foreign function from place `i` on.
pub open spec fn bad_foreign_param(params: Seq<ParamV>, i: int) -> Option<TypeErrorV>
    decreases params.len() - i,
{
    if i < 0 || i >= params.len() {
        None
    } else if !printable(params[i].ty) {
        Some(TypeErrorV::BadExternType(params[i].ty, params[i].span))
    } else {
        bad_foreign_param(params, i + 1)
    }
}

/// A function, a generic function, a foreign function or a constant.
pub open spec fn collect_sig(it: TopLevelV, s: CkV) -> (CkV, Option<TypeErrorV>) {
    match it {
        TopLevelV::Function(f) => if taken(s, f.name) {
            (s, Some(TypeErrorV::Duplicate(f.name, f.span)))
        } else {
            match bad_param(s, f.params, 0, Set::empty(), false) {
                Some(x) => (s, Some(x)),
                None => match bad_signature_type(s, f.ret, Set::empty(), f.span) {
                    Some(x) => (s, Some(x)),
                    None => {
                        let sig = FnSigV { params: param_types(f.params), ret: f.ret };
                        (CkV { fns: s.fns.insert(f.name, sig), ..s }, None)
                    },
                },
            }
        },
        TopLevelV::GenericFunction(g) => if taken(s, g.name) {
            (s, Some(TypeErrorV::Duplicate(g.name, g.span)))
        } else {
            let tps = type_param_names(g.type_params);
            match bad_type_param(s, g.type_params, 0, Set::empty(), g.span) {
                Some(x) => (s, Some(x)),
                None => match bad_param(s, g.params, 0, tps, false) {
                    Some(x) => (s, Some(x)),
                    None => match bad_signature_type(s, g.ret, tps, g.span) {
                        Some(x) => (s, Some(x)),
                        None => (CkV { generic_fns: s.generic_fns.insert(g.name, g), ..s }, None),
                    },
                },
            }
        },
        TopLevelV::Extern(e) => if e.abi != "C"@ {
            (s, Some(TypeErrorV::BadExternAbi(e.abi, e.span)))
        } else if taken(s, e.name) {
            (s, Some(TypeErrorV::Duplicate(e.name, e.span)))
        } else {
            match bad_foreign_param(e.params, 0) {
                Some(x) => (s, Some(x)),
                None => if !foreign_type(e.ret) {
                    (s, Some(TypeErrorV::BadExternType(e.ret, e.span)))
                } else {
                    let sig = FnSigV { params: param_types(e.params), ret: e.ret };
                    (
                        CkV {
                            fns: s.fns.insert(e.name, sig),
                            externs: s.externs.insert(e.name, sig),
                            ..s
                        },
                        None,
                    )
                },
            }
        },
        TopLevelV::Const(c) => if taken(s, c.name) {
            (s, Some(TypeErrorV::Duplicate(c.name, c.span)))
        } else {
            match undefined_in(s, c.ty, Set::empty()) {
                Some(n) => (s, Some(TypeErrorV::UndefinedType(n, c.span))),
                None => (CkV { consts: s.consts.insert(c.name, c.ty), ..s }, None),
            }
        },
        _ => (s, None),
    }
}

/// The three passes over the definitions.
#[derive(Clone, Copy)]
pub enum Pass {
    Types,
    Traits,
    Signatures,
}

/// One pass over the items from place `i` on.
pub open spec fn collect(pass: Pass, items: Seq<TopLevelV>, i: int, s: CkV) -> (
    CkV,
    Option<TypeErrorV>,
)
    decreases items.len() - i,
{
    if i < 0 || i >= items.len() {
        (s, None)
    } else {
        let (s2, bad) = match pass {
            Pass::Types => collect_type(items[i], s),
            Pass::Traits => collect_trait(items[i], s),
            Pass::Signatures => collect_sig(items[i], s),
        };
        match bad {
            Some(x) => (s2, Some(x)),
            None => collect(pass, items, i + 1, s2),
        }
    }
}

/// A method of an impl, in which the type of a first parameter `self` is filled in.
pub open spec fn with_self(m: FunctionV, ty: TypeV) -> FunctionV {
    if m.params.len() > 0 && m.params[0].name == "self"@ {
        FunctionV { params: m.params.update(0, ParamV { ty, ..m.params[0] }), ..m }
    } else {
        m
    }
}

/// What is wrong with the parameters of a method of an impl from place `i` on.
pub open spec fn bad_method_param(s: CkV, params: Seq<ParamV>, sig: Seq<ParamV>, i: int) -> Option<
    TypeErrorV,
>
    decreases params.len() - i,
{
    if i < 0 || i >= params.len() {
        None
    } else if i == 0 && params[0].name == "self"@ {
        bad_method_param(s, params, sig, i + 1)
    } else {
        let p = params[i];
        if (i > 0 || sig[i].name != "self"@) && p.ty != sig[i].ty {
            Some(TypeErrorV::Mismatch { expected: sig[i].ty, found: p.ty, span: p.span })
        } else {
            match bad_signature_type(s, p.ty, Set::empty(), p.span) {
                Some(x) => Some(x),
                None => bad_method_param(s, params, sig, i + 1),
            }
        }
    }
}

/// What is wrong with a method of an impl before `self` gets its type.
pub open spec fn bad_method_head(
    m: FunctionV,
    trait_name: Seq<char>,
    sig: Option<MethodSigV>,
    seen: Set<Seq<char>>,
) -> Option<TypeErrorV> {
    if seen.contains(m.name) {
        Some(TypeErrorV::Duplicate(m.name, m.span))
    } else {
        match sig {
            None => Some(TypeErrorV::MethodNotInTrait(m.name, trait_name, m.span)),
            Some(t) => if m.params.len() != t.params.len() {
                Some(arity_error(m.name, t.params.len(), m.params.len(), m.span))
            } else if m.ret != t.ret {
                Some(TypeErrorV::Mismatch { expected: t.ret, found: m.ret, span: m.span })
            } else {
                None
            },
        }
    }
}

/// The methods of an impl from place `i` on.
pub open spec fn collect_methods(
    ib: ImplBlockV,
    sigs: Seq<MethodSigV>,
    i: int,
    acc: Seq<FunctionV>,
    seen: Set<Seq<char>>,
    s: CkV,
) -> Checked<Seq<FunctionV>, ()>
    decreases ib.methods.len() - i,
{
    if i < 0 || i >= ib.methods.len() {
        Checked { node: acc, s, r: Ok(()) }
    } else {
        let sig = find_sig(sigs, ib.methods[i].name, 0);
        match bad_method_head(ib.methods[i], ib.trait_name, sig, seen) {
            Some(x) => Checked { node: resumed(acc, ib.methods, i), s, r: Err(x) },
            None => {
                let m = with_self(ib.methods[i], ib.for_ty);
                let done = acc.push(m);
                match bad_method_param(s, m.params, sig->0.params, 0) {
                    Some(x) => Checked { node: resumed(done, ib.methods, i + 1), s, r: Err(x) },
                    None => match bad_signature_type(s, m.ret, Set::empty(), m.span) {
                        Some(x) => Checked { node: resumed(done, ib.methods, i + 1), s, r: Err(x) },
                        None => {
                            let symbol = method_symbol(ib.trait_name, ib.for_ty, m.name);
                            let fsig = FnSigV { params: param_types(m.params), ret: m.ret };
                            collect_methods(
                                ib,
                                sigs,
                                i + 1,
                                done,
                                seen.insert(m.name),
                                CkV { fns: s.fns.insert(symbol, fsig), ..s },
                            )
                        },
                    },
                }
            },
        }
    }
}

/// An impl: its methods must be those of the trait.
pub open spec fn collect_impl(ib: ImplBlockV, s: CkV) -> Checked<ImplBlockV, ()> {
    if !s.traits.contains_key(ib.trait_name) {
        Checked { node: ib, s, r: Err(TypeErrorV::UndefinedTrait(ib.trait_name, ib.span)) }
    } else {
        match undefined_in(s, ib.for_ty, Set::empty()) {
            Some(n) => Checked { node: ib, s, r: Err(TypeErrorV::UndefinedType(n, ib.span)) },
            None => if s.impls.contains((ib.trait_name, ib.for_ty)) {
                Checked {
                    node: ib,
                    s,
                    r: Err(
                        TypeErrorV::DuplicateImpl {
                            trait_name: ib.trait_name,
                            ty: ib.for_ty,
                            span: ib.span,
                        },
                    ),
                }
            } else {
                let s2 = CkV { impls: s.impls.insert((ib.trait_name, ib.for_ty)), ..s };
                let c = collect_methods(
                    ib,
                    s.traits[ib.trait_name].methods,
                    0,
                    Seq::empty(),
                    Set::empty(),
                    s2,
                );
                Checked { node: ImplBlockV { methods: c.node, ..ib }, s: c.s, r: c.r }
            },
        }
    }
}

/// The impls among the items from place `i` on.
pub open spec fn collect_impls(items: Seq<TopLevelV>, i: int, acc: Seq<TopLevelV>, s: CkV) -> Checked<
    Seq<TopLevelV>,
    (),
>
    decreases items.len() - i,
{
    if i < 0 || i >= items.len() {
        Checked { node: acc, s, r: Ok(()) }
    } else {
        match items[i] {
            TopLevelV::Impl(ib) => {
                let c = collect_impl(ib, s);
                match c.r {
                    Err(err) => Checked { node: resumed(acc.push(TopLevelV::Impl(c.node)), items, i + 1), s: c.s, r: Err(err) },
                    Ok(_u) => {
                        collect_impls(items, i + 1, acc.push(TopLevelV::Impl(c.node)), c.s)
                    },
                }
            },
            _ => collect_impls(items, i + 1, acc.push(items[i]), s),
        }
    }
}

/// Where `main` is defined.
pub open spec fn main_span(items: Seq<TopLevelV>, i: int) -> Span
    decreases items.len() - i,
{
    if i < 0 || i >= items.len() {
        Span { start: 0, end: 0 }
    } else {
        match items[i] {
            TopLevelV::Function(f) => if f.name == "main"@ {
                f.span
            } else {
                main_span(items, i + 1)
            },
            _ => main_span(items, i + 1),
        }
    }
}

/// What is wrong with `main`, which has no parameters and returns an `i32`.
pub open spec fn bad_main(s: CkV, items: Seq<TopLevelV>, require_main: bool) -> Option<TypeErrorV> {
    if s.fns.contains_key("main"@) {
        let sig = s.fns["main"@];
        if sig.params.len() == 0 && sig.ret == TypeV::I32 {
            None
        } else {
            Some(
                TypeErrorV::Mismatch {
                    expected: TypeV::I32,
                    found: sig.ret,
                    span: main_span(items, 0),
                },
            )
        }
    } else if require_main {
        Some(TypeErrorV::NoMain)
    } else {
        None
    }
}

/// A function body against its result type.
pub open spec fn check_function(gas: nat, f: FunctionV, s: CkV) -> Checked<FunctionV, ()> {
    let c = check_as(gas, f.body, f.ret, scope_of(f.params), s);
    Checked {
        node: FunctionV { body: c.node, ..f },
        s: c.s,
        r: match c.r {
            Err(x) => Err(x),
            Ok(_) => Ok(()),
        },
    }
}

/// Methods from place `i` on.
pub open spec fn check_methods(gas: nat, fs: Seq<FunctionV>, i: int, acc: Seq<FunctionV>, s: CkV) -> Checked<
    Seq<FunctionV>,
    (),
>
    decreases fs.len() - i,
{
    if i < 0 || i >= fs.len() {
        Checked { node: acc, s, r: Ok(()) }
    } else {
        let c = check_function(gas, fs[i], s);
        match c.r {
            Err(err) => Checked { node: resumed(acc.push(c.node), fs, i + 1), s: c.s, r: Err(err) },
            Ok(_u) => {
                check_methods(gas, fs, i + 1, acc.push(c.node), c.s)
            },
        }
    }
}

/// The body of an item.
pub open spec fn check_item(gas: nat, it: TopLevelV, s: CkV) -> Checked<TopLevelV, ()> {
    match it {
        TopLevelV::Function(f) => {
            let c = check_function(gas, f, s);
            Checked { node: TopLevelV::Function(c.node), s: c.s, r: c.r }
        },
        TopLevelV::Impl(ib) => {
            let c = check_methods(gas, ib.methods, 0, Seq::empty(), s);
            Checked {
                node: TopLevelV::Impl(ImplBlockV { methods: c.node, ..ib }),
                s: c.s,
                r: c.r,
            }
        },
        TopLevelV::Const(k) => if !(k.value.kind is Lit) {
            Checked { node: it, s, r: Err(TypeErrorV::ConstNotLiteral(k.value.span)) }
        } else {
            let c = check_as(gas, k.value, k.ty, Map::empty(), s);
            Checked {
                node: TopLevelV::Const(ConstV { value: c.node, ..k }),
                s: c.s,
                r: match c.r {
                    Err(x) => Err(x),
                    Ok(_) => Ok(()),
                },
            }
        },
        _ => Checked { node: it, s, r: Ok(()) },
    }
}

/// The bodies of the items from place `i` on.
pub open spec fn check_items(gas: nat, items: Seq<TopLevelV>, i: int, acc: Seq<TopLevelV>, s: CkV) -> Checked<
    Seq<TopLevelV>,
    (),
>
    decreases items.len() - i,
{
    if i < 0 || i >= items.len() {
        Checked { node: acc, s, r: Ok(()) }
    } else {
        let c = check_item(gas, items[i], s);
        match c.r {
            Err(err) => Checked { node: resumed(acc.push(c.node), items, i + 1), s: c.s, r: Err(err) },
            Ok(_u) => {
                check_items(gas, items, i + 1, acc.push(c.node), c.s)
            },
        }
    }
}

/// How deep arrays nest in a type.
pub open spec fn type_depth(t: TypeV) -> nat
    decreases t,
{
    match t {
        TypeV::Array { elem, .. } => 1 + type_depth(*elem),
        _ => 0,
    }
}

/// Whether all names in a type are among `names`.
pub open spec fn names_in(names: Set<Seq<char>>, t: TypeV) -> bool
    decreases t,
{
    match t {
        TypeV::Named(n) => names.contains(n),
        TypeV::Array { elem, .. } => names_in(names, *elem),
        _ => true,
    }
}

/// The types that expressions of a program can have, whose names are defined in it
/// and in which arrays do not nest deeper than it says, and its generic functions.
#[verifier::ext_equal]
pub struct Universe {
    pub names: Set<Seq<char>>,
    pub depth: nat,
    pub generics: Map<Seq<char>, GenericFunctionV>,
}

pub open spec fn known(u: Universe, t: TypeV) -> bool {
    names_in(u.names, t) && type_depth(t) <= u.depth
}

/// How deep arrays nest in the types that items from place `i` on bring in.
pub open spec fn items_depth(items: Seq<TopLevelV>, i: int) -> nat
    decreases items.len() - i,
{
    if i < 0 || i >= items.len() {
        1
    } else {
        let rest = items_depth(items, i + 1);
        let here = match items[i] {
            TopLevelV::Const(c) => type_depth(c.ty),
            TopLevelV::Impl(ib) => type_depth(ib.for_ty),
            _ => 0,
        };
        if here > rest {
            here
        } else {
            rest
        }
    }
}

pub open spec fn universe_of(s: CkV, items: Seq<TopLevelV>) -> Universe {
    Universe {
        names: s.structs.dom() + s.enums.dom(),
        depth: items_depth(items, 0),
        generics: s.generic_fns,
    }
}

/// The instances of generic functions that a program can have.
pub open spec fn instance_keys(u: Universe) -> Set<(Seq<char>, Seq<TypeV>)> {
    Set::new(
        |k: (Seq<char>, Seq<TypeV>)|
            u.generics.contains_key(k.0) && k.1.len() == u.generics[k.0].type_params.len()
                && forall|i: int| 0 <= i < k.1.len() ==> known(u, #[trigger] k.1[i]),
    )
}

/// What checking a program gives: the definitions are collected in three passes,
/// then the impls, then bodies are checked, and the instances are put behind.
pub open spec fn check_program(p: ProgramV, require_main: bool) -> Checked<ProgramV, ()> {
    let (s1, bad1) = collect(Pass::Types, p.items, 0, nothing_known());
    let (s2, bad2) = if bad1 is Some {
        (s1, bad1)
    } else {
        collect(Pass::Traits, p.items, 0, s1)
    };
    let (s3, bad3) = if bad2 is Some {
        (s2, bad2)
    } else {
        collect(Pass::Signatures, p.items, 0, s2)
    };
    match bad3 {
        Some(x) => Checked { node: p, s: s3, r: Err(x) },
        None => {
            let c = collect_impls(p.items, 0, Seq::empty(), s3);
            match c.r {
                Err(err) => Checked { node: ProgramV { items: c.node }, s: c.s, r: Err(err) },
                Ok(_u) => {
                    match bad_main(c.s, c.node, require_main) {
                        Some(x) => Checked { node: ProgramV { items: c.node }, s: c.s, r: Err(x) },
                        None => {
                            let gas = instance_keys(universe_of(c.s, p.items)).len();
                            let d = check_items(gas, c.node, 0, Seq::empty(), c.s);
                            match d.r {
                                Err(err) => Checked { node: ProgramV { items: d.node }, s: d.s, r: Err(err) },
                                Ok(_v) => {
                                    let made = Seq::new(
                                        d.s.mono_fns.len(),
                                        |i: int| TopLevelV::Function(d.s.mono_fns[i]),
                                    );
                                    Checked {
                                        node: ProgramV { items: d.node + made },
                                        s: CkV { mono_fns: Seq::empty(), ..d.s },
                                        r: Ok(()),
                                    }
                                },
                            }
                        },
                    }
                },
            }
        },
    }
}

/// Whether the fields of all structs and the payloads of all variants are numbers or
/// truth values, as the type checker sees to.
pub open spec fn plain_types(s: CkV) -> bool {
    &&& forall|n: Seq<char>| #[trigger]
        s.structs.contains_key(n) ==> forall|i: int|
            0 <= i < s.structs[n].fields.len() ==> ast::scalar((#[trigger] s.structs[n].fields[i]).ty)
    &&& forall|n: Seq<char>| #[trigger]
        s.variants.contains_key(n) ==> (s.variants[n].payload is Some ==> ast::scalar(
            s.variants[n].payload->0,
        ))
}

} // verus!
