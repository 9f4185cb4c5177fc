//! The grammar of Risp: which tokens make up which tree.
//!
//! Every rule is a function from a token list and a place in it to what is read
//! there: a tree and the place after it, or an error and the place where reading
//! stopped.
use crate::ast::{
    BindingV, ConstV, EnumDefV, ExprKindV, ExprV, ExternFnV, FieldDefV, FloatKind, FunctionV,
    GenericFunctionV, ImplBlockV, IntKind, LitV, MacroDefV, MatchArmV, MethodSigV, ParamV,
    ProgramV, Span, StructDefV, TopLevelV, TraitDefV, TypeV, VariantDefV,
};
use crate::lexer::{FloatSuffix, IntSuffix, LexError, LexErrorV, SpannedV, TokenV};
use crate::lexer;
use crate::text::Dup;
use crate::text;
use vstd::prelude::*;
use vstd::string::*;

verus! {

/// Why a list of tokens is no program.
#[derive(Debug)]
pub enum ParseError {
    UnexpectedEof,
    Unexpected(String, usize),
    UnknownType(String, usize),
    Expected { expected: &'static str, found: String, at: usize },
}

/// Model of [`ParseError`].
#[verifier::ext_equal]
pub enum ParseErrorV {
    UnexpectedEof,
    Unexpected(Seq<char>, usize),
    UnknownType(Seq<char>, usize),
    Expected { expected: Seq<char>, found: Seq<char>, at: usize },
}

impl View for ParseError {
    type V = ParseErrorV;

    open spec fn view(&self) -> ParseErrorV {
        match *self {
            ParseError::UnexpectedEof => ParseErrorV::UnexpectedEof,
            ParseError::Unexpected(a, b) => ParseErrorV::Unexpected(a.deep_view(), b),
            ParseError::UnknownType(a, b) => ParseErrorV::UnknownType(a.deep_view(), b),
            ParseError::Expected { expected, found, at } => ParseErrorV::Expected { expected: expected.deep_view(), found: found.deep_view(), at },
        }
    }
}

impl DeepView for ParseError {
    type V = ParseErrorV;

    open spec fn deep_view(&self) -> ParseErrorV {
        self@
    }
}

impl Dup for ParseError {
    fn dup(&self) -> (r: Self) {
        match self {
            ParseError::UnexpectedEof => ParseError::UnexpectedEof,
            ParseError::Unexpected(a, b) => ParseError::Unexpected(a.dup(), *b),
            ParseError::UnknownType(a, b) => ParseError::UnknownType(a.dup(), *b),
            ParseError::Expected { expected, found, at } => ParseError::Expected { expected: *expected, found: found.dup(), at: *at },
        }
    }
}

impl Clone for ParseError {
    fn clone(&self) -> (r: Self)
        ensures
            r@ == self@,
    {
        self.dup()
    }
}

/// Why a text is no program.
#[derive(Debug)]
pub enum FrontendError {
    Lex(LexError),
    Parse(ParseError),
}

/// Model of [`FrontendError`].
#[verifier::ext_equal]
pub enum FrontendErrorV {
    Lex(LexErrorV),
    Parse(ParseErrorV),
}

impl View for FrontendError {
    type V = FrontendErrorV;

    open spec fn view(&self) -> FrontendErrorV {
        match *self {
            FrontendError::Lex(a) => FrontendErrorV::Lex(a.deep_view()),
            FrontendError::Parse(a) => FrontendErrorV::Parse(a.deep_view()),
        }
    }
}

impl DeepView for FrontendError {
    type V = FrontendErrorV;

    open spec fn deep_view(&self) -> FrontendErrorV {
        self@
    }
}

impl Dup for FrontendError {
    fn dup(&self) -> (r: Self) {
        match self {
            FrontendError::Lex(a) => FrontendError::Lex(a.dup()),
            FrontendError::Parse(a) => FrontendError::Parse(a.dup()),
        }
    }
}

impl Clone for FrontendError {
    fn clone(&self) -> (r: Self)
        ensures
            r@ == self@,
    {
        self.dup()
    }
}

/// The message of a syntax error.
pub open spec fn parse_error_text(e: ParseErrorV) -> Seq<char> {
    match e {
        ParseErrorV::UnexpectedEof => "unexpected end of input"@,
        ParseErrorV::Unexpected(s, _) => "unexpected token "@ + s,
        ParseErrorV::UnknownType(s, _) => "unknown type "@ + text::quoted(s),
        ParseErrorV::Expected { expected, found, .. } => "expected "@ + expected + ", found "@
            + found,
    }
}

/// The byte that a syntax error points at; none for the end of the input.
pub open spec fn parse_error_byte(e: ParseErrorV) -> Option<usize> {
    match e {
        ParseErrorV::UnexpectedEof => None,
        ParseErrorV::Unexpected(_, at) => Some(at),
        ParseErrorV::UnknownType(_, at) => Some(at),
        ParseErrorV::Expected { at, .. } => Some(at),
    }
}

/// What a kind of token is called in messages.
pub open spec fn kind_name(t: TokenV) -> Seq<char> {
    match t {
        TokenV::LParen => "'('"@,
        TokenV::RParen => "')'"@,
        TokenV::LBracket => "'['"@,
        TokenV::RBracket => "']'"@,
        TokenV::Colon => "':'"@,
        TokenV::Comma => "','"@,
        TokenV::Arrow => "'->'"@,
        TokenV::Ident(_) => "identifier"@,
        TokenV::Int(_, _) => "int literal"@,
        TokenV::Float(_, _) => "float literal"@,
        TokenV::Str(_) => "string literal"@,
        TokenV::Bool(_) => "boolean"@,
    }
}

/// How messages show a token.
pub open spec fn token_text(t: TokenV) -> Seq<char> {
    match t {
        TokenV::LParen => "LParen"@,
        TokenV::RParen => "RParen"@,
        TokenV::LBracket => "LBracket"@,
        TokenV::RBracket => "RBracket"@,
        TokenV::Colon => "Colon"@,
        TokenV::Comma => "Comma"@,
        TokenV::Arrow => "Arrow"@,
        TokenV::Ident(s) => "Ident("@ + text::quoted(s) + ")"@,
        TokenV::Int(v, s) => "Int("@ + text::signed_dec(v as int) + ", "@ + int_suffix_text(s) + ")"@,
        TokenV::Float(s, k) => "Float("@ + s + ", "@ + float_suffix_text(k) + ")"@,
        TokenV::Str(s) => "Str("@ + text::quoted(s) + ")"@,
        TokenV::Bool(b) => if b {
            "Bool(true)"@
        } else {
            "Bool(false)"@
        },
    }
}

pub open spec fn int_suffix_text(s: Option<IntSuffix>) -> Seq<char> {
    match s {
        None => "None"@,
        Some(IntSuffix::I32) => "Some(I32)"@,
        Some(IntSuffix::I64) => "Some(I64)"@,
    }
}

pub open spec fn float_suffix_text(s: Option<FloatSuffix>) -> Seq<char> {
    match s {
        None => "None"@,
        Some(FloatSuffix::F32) => "Some(F32)"@,
        Some(FloatSuffix::F64) => "Some(F64)"@,
    }
}

/// Whether two tokens are of one kind, whatever they hold.
pub open spec fn same_kind(a: TokenV, b: TokenV) -> bool {
    match a {
        TokenV::LParen => b is LParen,
        TokenV::RParen => b is RParen,
        TokenV::LBracket => b is LBracket,
        TokenV::RBracket => b is RBracket,
        TokenV::Colon => b is Colon,
        TokenV::Comma => b is Comma,
        TokenV::Arrow => b is Arrow,
        TokenV::Ident(_) => b is Ident,
        TokenV::Int(_, _) => b is Int,
        TokenV::Float(_, _) => b is Float,
        TokenV::Str(_) => b is Str,
        TokenV::Bool(_) => b is Bool,
    }
}

/// What a rule reads.
#[verifier::ext_equal]
pub enum ParsedV<T> {
    /// A value, and the place after it.
    Got(T, nat),
    /// An error, and the place where reading stopped.
    Bad(ParseErrorV, nat),
}

/// How many tokens are left.
pub open spec fn left(t: Seq<SpannedV>, p: nat) -> nat {
    if p < t.len() {
        (t.len() - p) as nat
    } else {
        0
    }
}

/// The place `q`, or the one after `p` if `q` is not behind `p`.
pub open spec fn ahead(p: nat, q: nat) -> nat {
    if q > p {
        q
    } else {
        p + 1
    }
}

/// Whether the next token is of the kind of `want`.
pub open spec fn next_is(t: Seq<SpannedV>, p: nat, want: TokenV) -> bool {
    p < t.len() && same_kind(t[p as int].tok, want)
}

/// The place behind a comma, if there is one.
pub open spec fn past_comma(t: Seq<SpannedV>, p: nat) -> nat {
    if next_is(t, p, TokenV::Comma) {
        p + 1
    } else {
        p
    }
}

/// Where the token before `p` ends.
pub open spec fn end_before(t: Seq<SpannedV>, p: nat, start: usize) -> usize {
    if p <= t.len() && t.len() > 0 {
        t[if p == 0 { 0 } else { p - 1 }].span.end
    } else {
        start
    }
}

/// A token of the kind of `want`.
pub open spec fn p_eat(t: Seq<SpannedV>, p: nat, want: TokenV) -> ParsedV<Span> {
    if p >= t.len() {
        ParsedV::Bad(ParseErrorV::UnexpectedEof, p)
    } else if same_kind(t[p as int].tok, want) {
        ParsedV::Got(t[p as int].span, p + 1)
    } else {
        ParsedV::Bad(
            ParseErrorV::Expected {
                expected: kind_name(want),
                found: token_text(t[p as int].tok),
                at: t[p as int].span.start,
            },
            p,
        )
    }
}

/// That the token at `p`, which has been taken, is out of place.
pub open spec fn misplaced(t: Seq<SpannedV>, p: nat) -> ParseErrorV {
    ParseErrorV::Unexpected(token_text(t[p as int].tok), t[p as int].span.start)
}

/// An identifier.
pub open spec fn p_name(t: Seq<SpannedV>, p: nat) -> ParsedV<(Seq<char>, Span)> {
    if p >= t.len() {
        ParsedV::Bad(ParseErrorV::UnexpectedEof, p)
    } else {
        match t[p as int].tok {
            TokenV::Ident(s) => ParsedV::Got((s, t[p as int].span), p + 1),
            _ => ParsedV::Bad(misplaced(t, p), p + 1),
        }
    }
}

/// An identifier, without its place.
pub open spec fn p_plain_name(t: Seq<SpannedV>, p: nat) -> ParsedV<Seq<char>> {
    match p_name(t, p) {
        ParsedV::Bad(e, q) => ParsedV::Bad(e, q),
        ParsedV::Got((name, _), q) => {
            ParsedV::Got(name, q)
        },
    }
}

/// The type that a single name stands for.
pub open spec fn named_type(s: Seq<char>) -> TypeV {
    if s == "i32"@ {
        TypeV::I32
    } else if s == "i64"@ {
        TypeV::I64
    } else if s == "f32"@ {
        TypeV::F32
    } else if s == "f64"@ {
        TypeV::F64
    } else if s == "bool"@ {
        TypeV::Bool
    } else if s == "str"@ {
        TypeV::Str
    } else if s == "unit"@ {
        TypeV::Unit
    } else {
        TypeV::Named(s)
    }
}

/// The length of an array type, and the closing parenthesis.
pub open spec fn p_array_len(t: Seq<SpannedV>, p: nat) -> ParsedV<u32> {
    if p >= t.len() {
        ParsedV::Bad(ParseErrorV::UnexpectedEof, p)
    } else {
        match t[p as int].tok {
            TokenV::Int(v, _) => if 0 <= v <= u32::MAX {
                match p_eat(t, p + 1, TokenV::RParen) {
                    ParsedV::Bad(e, q) => ParsedV::Bad(e, q),
                    ParsedV::Got(_, q) => {
                        ParsedV::Got(v as u32, q)
                    },
                }
            } else {
                ParsedV::Bad(
                    ParseErrorV::Expected {
                        expected: "non-negative array length fitting u32"@,
                        found: token_text(t[p as int].tok),
                        at: t[p as int].span.start,
                    },
                    p + 1,
                )
            },
            _ => ParsedV::Bad(
                ParseErrorV::Expected {
                    expected: "array length (int literal)"@,
                    found: token_text(t[p as int].tok),
                    at: t[p as int].span.start,
                },
                p + 1,
            ),
        }
    }
}

/// A type: a name or `(Array T n)`.
pub open spec fn p_type(t: Seq<SpannedV>, p: nat) -> ParsedV<TypeV>
    decreases left(t, p),
{
    if p >= t.len() {
        ParsedV::Bad(ParseErrorV::UnexpectedEof, p)
    } else {
        match t[p as int].tok {
            TokenV::Ident(s) => ParsedV::Got(named_type(s), p + 1),
            TokenV::LParen => {
                match p_name(t, p + 1) {
                    ParsedV::Bad(e, q) => ParsedV::Bad(e, q),
                    ParsedV::Got((head, span), q) => {
                        if head != "Array"@ {
                            ParsedV::Bad(ParseErrorV::UnknownType(head, span.start), q)
                        } else {
                            match p_type(t, p + 2) {
                                ParsedV::Bad(e, q) => ParsedV::Bad(e, q),
                                ParsedV::Got(elem, r) => {
                                    match p_array_len(t, r) {
                                        ParsedV::Bad(e, q) => ParsedV::Bad(e, q),
                                        ParsedV::Got(len, s) => {
                                            ParsedV::Got(TypeV::Array { elem: Box::new(elem), len }, s)
                                        },
                                    }
                                },
                            }
                        }
                    },
                }
            },
            _ => ParsedV::Bad(misplaced(t, p), p),
        }
    }
}

pub open spec fn int_kind(s: Option<IntSuffix>) -> Option<IntKind> {
    match s {
        None => None,
        Some(IntSuffix::I32) => Some(IntKind::I32),
        Some(IntSuffix::I64) => Some(IntKind::I64),
    }
}

pub open spec fn float_kind(s: Option<FloatSuffix>) -> Option<FloatKind> {
    match s {
        None => None,
        Some(FloatSuffix::F32) => Some(FloatKind::F32),
        Some(FloatSuffix::F64) => Some(FloatKind::F64),
    }
}

/// An expression that has no type yet.
pub open spec fn untyped(kind: ExprKindV, span: Span) -> ExprV {
    ExprV { kind, span, ty: None }
}

/// The closing parenthesis of a form that began at `start`.
pub open spec fn p_close(t: Seq<SpannedV>, p: nat, kind: ExprKindV, start: usize) -> ParsedV<ExprV> {
    match p_eat(t, p, TokenV::RParen) {
        ParsedV::Bad(e, q) => ParsedV::Bad(e, q),
        ParsedV::Got(rp, q) => {
            ParsedV::Got(untyped(kind, Span { start, end: rp.end }), q)
        },
    }
}

/// An expression: a literal, a name or a form in parentheses.
pub open spec fn p_expr(t: Seq<SpannedV>, p: nat) -> ParsedV<ExprV>
    decreases left(t, p), 1nat,
{
    if p >= t.len() {
        ParsedV::Bad(ParseErrorV::UnexpectedEof, p)
    } else {
        let span = t[p as int].span;
        match t[p as int].tok {
            TokenV::Int(v, s) => ParsedV::Got(
                untyped(ExprKindV::Lit(LitV::Int(v, int_kind(s))), span),
                p + 1,
            ),
            TokenV::Float(v, s) => ParsedV::Got(
                untyped(ExprKindV::Lit(LitV::Float(v, float_kind(s))), span),
                p + 1,
            ),
            TokenV::Bool(b) => ParsedV::Got(untyped(ExprKindV::Lit(LitV::Bool(b)), span), p + 1),
            TokenV::Str(s) => ParsedV::Got(untyped(ExprKindV::Lit(LitV::Str(s)), span), p + 1),
            TokenV::Ident(name) => ParsedV::Got(untyped(ExprKindV::Var(name), span), p + 1),
            TokenV::LParen => p_compound(t, p),
            _ => ParsedV::Bad(misplaced(t, p), p),
        }
    }
}

/// A form in parentheses; its first word says which.
pub open spec fn p_compound(t: Seq<SpannedV>, p: nat) -> ParsedV<ExprV>
    decreases left(t, p), 0nat,
{
    if p >= t.len() {
        ParsedV::Bad(ParseErrorV::UnexpectedEof, p)
    } else if p + 1 >= t.len() {
        ParsedV::Bad(ParseErrorV::UnexpectedEof, p + 1)
    } else {
        let start = t[p as int].span.start;
        match t[(p + 1) as int].tok {
            TokenV::Ident(head) => {
                let q = p + 2;
                if head == "if"@ {
                    p_if(t, q, start)
                } else if head == "let"@ {
                    p_let(t, q, start)
                } else if head == "do"@ {
                    match p_exprs(t, q, Seq::empty()) {
                        ParsedV::Bad(e, q) => ParsedV::Bad(e, q),
                        ParsedV::Got(es, r) => {
                            p_close(t, r, ExprKindV::Do(es), start)
                        },
                    }
                } else if head == "as"@ {
                    p_cast(t, q, start)
                } else if head == "set!"@ {
                    p_assign(t, q, start)
                } else if head == "while"@ {
                    p_while(t, q, start)
                } else if head == "loop"@ {
                    match p_expr(t, q) {
                        ParsedV::Bad(e, q) => ParsedV::Bad(e, q),
                        ParsedV::Got(body, r) => {
                            p_close(t, r, ExprKindV::Loop { body: Box::new(body) }, start)
                        },
                    }
                } else if head == "break"@ {
                    p_close(t, q, ExprKindV::Break, start)
                } else if head == "array"@ {
                    p_array(t, q, start)
                } else if head == "field"@ {
                    p_field(t, q, start)
                } else if head == "match"@ {
                    p_match(t, q, start)
                } else {
                    match p_exprs(t, q, Seq::empty()) {
                        ParsedV::Bad(e, q) => ParsedV::Bad(e, q),
                        ParsedV::Got(args, r) => {
                            p_close(t, r, ExprKindV::Call { callee: head, args }, start)
                        },
                    }
                }
            },
            _ => ParsedV::Bad(misplaced(t, p + 1), p + 2),
        }
    }
}

/// `cond then else )`
pub open spec fn p_if(t: Seq<SpannedV>, p: nat, start: usize) -> ParsedV<ExprV>
    decreases left(t, p), 3nat,
{
    match p_expr(t, p) {
        ParsedV::Bad(e, q) => ParsedV::Bad(e, q),
        ParsedV::Got(c, q) => {
            match p_expr(t, ahead(p, q)) {
                ParsedV::Bad(e, q) => ParsedV::Bad(e, q),
                ParsedV::Got(a, r) => {
                    match p_expr(t, ahead(p, r)) {
                        ParsedV::Bad(e, q) => ParsedV::Bad(e, q),
                        ParsedV::Got(b, s) => {
                            p_close(
                                t,
                                s,
                                ExprKindV::If { cond: Box::new(c), then_branch: Box::new(a), else_branch: Box::new(b) },
                                start,
                            )
                        },
                    }
                },
            }
        },
    }
}

/// `[x: T v, ...] body )`
pub open spec fn p_let(t: Seq<SpannedV>, p: nat, start: usize) -> ParsedV<ExprV>
    decreases left(t, p), 3nat,
{
    match p_eat(t, p, TokenV::LBracket) {
        ParsedV::Bad(e, q) => ParsedV::Bad(e, q),
        ParsedV::Got(_, q) => {
            match p_bindings(t, ahead(p, q), Seq::empty()) {
                ParsedV::Bad(e, q) => ParsedV::Bad(e, q),
                ParsedV::Got(bindings, r) => {
                    match p_eat(t, r, TokenV::RBracket) {
                        ParsedV::Bad(e, q) => ParsedV::Bad(e, q),
                        ParsedV::Got(_, s) => {
                            match p_expr(t, ahead(p, s)) {
                                ParsedV::Bad(e, q) => ParsedV::Bad(e, q),
                                ParsedV::Got(body, u) => {
                                    p_close(t, u, ExprKindV::Let { bindings, body: Box::new(body) }, start)
                                },
                            }
                        },
                    }
                },
            }
        },
    }
}

/// `T e )`
pub open spec fn p_cast(t: Seq<SpannedV>, p: nat, start: usize) -> ParsedV<ExprV>
    decreases left(t, p), 3nat,
{
    match p_type(t, p) {
        ParsedV::Bad(e, q) => ParsedV::Bad(e, q),
        ParsedV::Got(ty, q) => {
            match p_expr(t, ahead(p, q)) {
                ParsedV::Bad(e, q) => ParsedV::Bad(e, q),
                ParsedV::Got(e, r) => {
                    p_close(t, r, ExprKindV::Cast { ty, expr: Box::new(e) }, start)
                },
            }
        },
    }
}

/// `name value )`
pub open spec fn p_assign(t: Seq<SpannedV>, p: nat, start: usize) -> ParsedV<ExprV>
    decreases left(t, p), 3nat,
{
    match p_name(t, p) {
        ParsedV::Bad(e, q) => ParsedV::Bad(e, q),
        ParsedV::Got((name, _), q) => {
            match p_expr(t, ahead(p, q)) {
                ParsedV::Bad(e, q) => ParsedV::Bad(e, q),
                ParsedV::Got(value, r) => {
                    p_close(t, r, ExprKindV::Assign { name, value: Box::new(value) }, start)
                },
            }
        },
    }
}

/// `cond body )`
pub open spec fn p_while(t: Seq<SpannedV>, p: nat, start: usize) -> ParsedV<ExprV>
    decreases left(t, p), 3nat,
{
    match p_expr(t, p) {
        ParsedV::Bad(e, q) => ParsedV::Bad(e, q),
        ParsedV::Got(cond, q) => {
            match p_expr(t, ahead(p, q)) {
                ParsedV::Bad(e, q) => ParsedV::Bad(e, q),
                ParsedV::Got(body, r) => {
                    p_close(t, r, ExprKindV::While { cond: Box::new(cond), body: Box::new(body) }, start)
                },
            }
        },
    }
}

/// `T e1 ... en )`
pub open spec fn p_array(t: Seq<SpannedV>, p: nat, start: usize) -> ParsedV<ExprV>
    decreases left(t, p), 3nat,
{
    match p_type(t, p) {
        ParsedV::Bad(e, q) => ParsedV::Bad(e, q),
        ParsedV::Got(elem_ty, q) => {
            match p_exprs(t, ahead(p, q), Seq::empty()) {
                ParsedV::Bad(e, q) => ParsedV::Bad(e, q),
                ParsedV::Got(elems, r) => {
                    p_close(t, r, ExprKindV::ArrayLit { elem_ty, elems }, start)
                },
            }
        },
    }
}

/// `e name )`
pub open spec fn p_field(t: Seq<SpannedV>, p: nat, start: usize) -> ParsedV<ExprV>
    decreases left(t, p), 3nat,
{
    match p_expr(t, p) {
        ParsedV::Bad(e, q) => ParsedV::Bad(e, q),
        ParsedV::Got(base, q) => {
            match p_name(t, q) {
                ParsedV::Bad(e, q) => ParsedV::Bad(e, q),
                ParsedV::Got((field, _), r) => {
                    p_close(t, r, ExprKindV::Field { base: Box::new(base), field }, start)
                },
            }
        },
    }
}

/// `e (Variant body) ... )`
pub open spec fn p_match(t: Seq<SpannedV>, p: nat, start: usize) -> ParsedV<ExprV>
    decreases left(t, p), 3nat,
{
    match p_expr(t, p) {
        ParsedV::Bad(e, q) => ParsedV::Bad(e, q),
        ParsedV::Got(scrutinee, q) => {
            match p_arms(t, ahead(p, q), Seq::empty()) {
                ParsedV::Bad(e, q) => ParsedV::Bad(e, q),
                ParsedV::Got(arms, r) => {
                    p_close(t, r, ExprKindV::Match { scrutinee: Box::new(scrutinee), arms }, start)
                },
            }
        },
    }
}

/// Expressions up to a closing parenthesis, behind those in `acc`.
pub open spec fn p_exprs(t: Seq<SpannedV>, p: nat, acc: Seq<ExprV>) -> ParsedV<Seq<ExprV>>
    decreases left(t, p), 2nat,
{
    if p >= t.len() {
        ParsedV::Bad(ParseErrorV::UnexpectedEof, p)
    } else if next_is(t, p, TokenV::RParen) {
        ParsedV::Got(acc, p)
    } else {
        match p_expr(t, p) {
            ParsedV::Bad(e, q) => ParsedV::Bad(e, q),
            ParsedV::Got(e, q) => {
                p_exprs(t, ahead(p, q), acc.push(e))
            },
        }
    }
}

/// Bindings up to a closing bracket, behind those in `acc`.
pub open spec fn p_bindings(t: Seq<SpannedV>, p: nat, acc: Seq<BindingV>) -> ParsedV<Seq<BindingV>>
    decreases left(t, p), 2nat,
{
    if p >= t.len() {
        ParsedV::Bad(ParseErrorV::UnexpectedEof, p)
    } else if next_is(t, p, TokenV::RBracket) {
        ParsedV::Got(acc, p)
    } else {
        match p_binding(t, p) {
            ParsedV::Bad(e, q) => ParsedV::Bad(e, q),
            ParsedV::Got(b, q) => {
                p_bindings(t, ahead(p, past_comma(t, q)), acc.push(b))
            },
        }
    }
}

/// `x: T v`
pub open spec fn p_binding(t: Seq<SpannedV>, p: nat) -> ParsedV<BindingV>
    decreases left(t, p), 0nat,
{
    match p_name(t, p) {
        ParsedV::Bad(e, q) => ParsedV::Bad(e, q),
        ParsedV::Got((name, span), q) => {
            match p_eat(t, q, TokenV::Colon) {
                ParsedV::Bad(e, q) => ParsedV::Bad(e, q),
                ParsedV::Got(_, r) => {
                    match p_type(t, r) {
                        ParsedV::Bad(e, q) => ParsedV::Bad(e, q),
                        ParsedV::Got(ty, s) => {
                            match p_expr(t, ahead(p, s)) {
                                ParsedV::Bad(e, q) => ParsedV::Bad(e, q),
                                ParsedV::Got(value, u) => {
                                    ParsedV::Got(
                                        BindingV { name, ty, value, span: Span { start: span.start, end: value.span.end } },
                                        u,
                                    )
                                },
                            }
                        },
                    }
                },
            }
        },
    }
}

/// Match arms up to a closing parenthesis, behind those in `acc`.
pub open spec fn p_arms(t: Seq<SpannedV>, p: nat, acc: Seq<MatchArmV>) -> ParsedV<Seq<MatchArmV>>
    decreases left(t, p), 2nat,
{
    if p >= t.len() {
        ParsedV::Bad(ParseErrorV::UnexpectedEof, p)
    } else if next_is(t, p, TokenV::RParen) {
        ParsedV::Got(acc, p)
    } else {
        match p_arm(t, p) {
            ParsedV::Bad(e, q) => ParsedV::Bad(e, q),
            ParsedV::Got(a, q) => {
                p_arms(t, ahead(p, q), acc.push(a))
            },
        }
    }
}

/// `(Variant body)` or `(Variant x body)`
pub open spec fn p_arm(t: Seq<SpannedV>, p: nat) -> ParsedV<MatchArmV>
    decreases left(t, p), 0nat,
{
    match p_eat(t, p, TokenV::LParen) {
        ParsedV::Bad(e, q) => ParsedV::Bad(e, q),
        ParsedV::Got(lp, q) => {
            match p_name(t, q) {
                ParsedV::Bad(e, q) => ParsedV::Bad(e, q),
                ParsedV::Got((variant, _), r) => {
                    match p_arm_body(t, ahead(p, r)) {
                        ParsedV::Bad(e, q) => ParsedV::Bad(e, q),
                        ParsedV::Got((binding, body), s) => {
                            match p_eat(t, s, TokenV::RParen) {
                                ParsedV::Bad(e, q) => ParsedV::Bad(e, q),
                                ParsedV::Got(rp, u) => {
                                    ParsedV::Got(
                                        MatchArmV { variant, binding, body, span: Span { start: lp.start, end: rp.end } },
                                        u,
                                    )
                                },
                            }
                        },
                    }
                },
            }
        },
    }
}

/// What stands behind the variant of an arm: a body, or a name and a body. A
/// lone name is a body.
pub open spec fn p_arm_body(t: Seq<SpannedV>, p: nat) -> ParsedV<(Option<Seq<char>>, ExprV)>
    decreases left(t, p), 3nat,
{
    if next_is(t, p, TokenV::RParen) {
        ParsedV::Bad(
            ParseErrorV::Expected {
                expected: "match arm body"@,
                found: "')'"@,
                at: t[p as int].span.start,
            },
            p,
        )
    } else if p < t.len() && t[p as int].tok is Ident {
        let id = t[p as int].tok->Ident_0;
        if next_is(t, p + 1, TokenV::RParen) {
            ParsedV::Got((None, untyped(ExprKindV::Var(id), t[p as int].span)), p + 1)
        } else {
            match p_expr(t, p + 1) {
                ParsedV::Bad(e, q) => ParsedV::Bad(e, q),
                ParsedV::Got(body, q) => {
                    ParsedV::Got((Some(id), body), q)
                },
            }
        }
    } else {
        match p_expr(t, p) {
            ParsedV::Bad(e, q) => ParsedV::Bad(e, q),
            ParsedV::Got(body, q) => {
                ParsedV::Got((None, body), q)
            },
        }
    }
}

/// `x: T`
pub open spec fn p_param(t: Seq<SpannedV>, p: nat) -> ParsedV<ParamV> {
    match p_name(t, p) {
        ParsedV::Bad(e, q) => ParsedV::Bad(e, q),
        ParsedV::Got((name, span), q) => {
            match p_eat(t, q, TokenV::Colon) {
                ParsedV::Bad(e, q) => ParsedV::Bad(e, q),
                ParsedV::Got(_, r) => {
                    match p_type(t, r) {
                        ParsedV::Bad(e, q) => ParsedV::Bad(e, q),
                        ParsedV::Got(ty, s) => {
                            ParsedV::Got(
                                ParamV { name, ty, span: Span { start: span.start, end: end_before(t, s, span.start) } },
                                s,
                            )
                        },
                    }
                },
            }
        },
    }
}

/// Parameters up to a closing bracket, behind those in `acc`.
pub open spec fn p_params(t: Seq<SpannedV>, p: nat, acc: Seq<ParamV>) -> ParsedV<Seq<ParamV>>
    decreases left(t, p),
{
    if p >= t.len() {
        ParsedV::Bad(ParseErrorV::UnexpectedEof, p)
    } else if next_is(t, p, TokenV::RBracket) {
        ParsedV::Got(acc, p)
    } else {
        match p_param(t, p) {
            ParsedV::Bad(e, q) => ParsedV::Bad(e, q),
            ParsedV::Got(x, q) => {
                p_params(t, ahead(p, past_comma(t, q)), acc.push(x))
            },
        }
    }
}

/// `[x: T, ...]`
pub open spec fn p_param_list(t: Seq<SpannedV>, p: nat) -> ParsedV<Seq<ParamV>> {
    match p_eat(t, p, TokenV::LBracket) {
        ParsedV::Bad(e, q) => ParsedV::Bad(e, q),
        ParsedV::Got(_, q) => {
            match p_params(t, q, Seq::empty()) {
                ParsedV::Bad(e, q) => ParsedV::Bad(e, q),
                ParsedV::Got(params, r) => {
                    match p_eat(t, r, TokenV::RBracket) {
                        ParsedV::Bad(e, q) => ParsedV::Bad(e, q),
                        ParsedV::Got(_, s) => {
                            ParsedV::Got(params, s)
                        },
                    }
                },
            }
        },
    }
}

/// Whether a bare `self`, without a type, stands at `p`.
pub open spec fn bare_self(t: Seq<SpannedV>, p: nat) -> bool {
    &&& p < t.len()
    &&& t[p as int].tok == TokenV::Ident("self"@)
    &&& !next_is(t, p + 1, TokenV::Colon)
}

/// The parameter list of a method: the first one may be a bare `self`, whose type
/// is filled in later.
pub open spec fn p_method_params(t: Seq<SpannedV>, p: nat) -> ParsedV<Seq<ParamV>> {
    match p_eat(t, p, TokenV::LBracket) {
        ParsedV::Bad(e, q) => ParsedV::Bad(e, q),
        ParsedV::Got(_, q) => {
            let (first, r): (Seq<ParamV>, nat) = if bare_self(t, q) {
                (
                    seq![ParamV { name: "self"@, ty: TypeV::Unit, span: t[q as int].span }],
                    past_comma(t, q + 1),
                )
            } else {
                (Seq::empty(), q)
            };
            match p_params(t, r, first) {
                ParsedV::Bad(e, q) => ParsedV::Bad(e, q),
                ParsedV::Got(params, s) => {
                    match p_eat(t, s, TokenV::RBracket) {
                        ParsedV::Bad(e, q) => ParsedV::Bad(e, q),
                        ParsedV::Got(_, u) => {
                            ParsedV::Got(params, u)
                        },
                    }
                },
            }
        },
    }
}

/// `-> T`
pub open spec fn p_ret(t: Seq<SpannedV>, p: nat) -> ParsedV<TypeV> {
    match p_eat(t, p, TokenV::Arrow) {
        ParsedV::Bad(e, q) => ParsedV::Bad(e, q),
        ParsedV::Got(_, q) => {
            p_type(t, q)
        },
    }
}

/// `x: T`, as a field of a struct.
pub open spec fn p_field_def(t: Seq<SpannedV>, p: nat) -> ParsedV<FieldDefV> {
    match p_name(t, p) {
        ParsedV::Bad(e, q) => ParsedV::Bad(e, q),
        ParsedV::Got((name, span), q) => {
            match p_eat(t, q, TokenV::Colon) {
                ParsedV::Bad(e, q) => ParsedV::Bad(e, q),
                ParsedV::Got(_, r) => {
                    match p_type(t, r) {
                        ParsedV::Bad(e, q) => ParsedV::Bad(e, q),
                        ParsedV::Got(ty, s) => {
                            ParsedV::Got(
                                FieldDefV { name, ty, span: Span { start: span.start, end: end_before(t, s, span.start) } },
                                s,
                            )
                        },
                    }
                },
            }
        },
    }
}

/// Fields up to a closing bracket, behind those in `acc`.
pub open spec fn p_field_defs(t: Seq<SpannedV>, p: nat, acc: Seq<FieldDefV>) -> ParsedV<Seq<FieldDefV>>
    decreases left(t, p),
{
    if p >= t.len() {
        ParsedV::Bad(ParseErrorV::UnexpectedEof, p)
    } else if next_is(t, p, TokenV::RBracket) {
        ParsedV::Got(acc, p)
    } else {
        match p_field_def(t, p) {
            ParsedV::Bad(e, q) => ParsedV::Bad(e, q),
            ParsedV::Got(x, q) => {
                p_field_defs(t, ahead(p, past_comma(t, q)), acc.push(x))
            },
        }
    }
}

/// `Name [f: T, ...] )`
pub open spec fn p_struct(t: Seq<SpannedV>, p: nat, start: usize) -> ParsedV<StructDefV> {
    match p_name(t, p) {
        ParsedV::Bad(e, q) => ParsedV::Bad(e, q),
        ParsedV::Got((name, _), q) => {
            match p_eat(t, q, TokenV::LBracket) {
                ParsedV::Bad(e, q) => ParsedV::Bad(e, q),
                ParsedV::Got(_, r) => {
                    match p_field_defs(t, r, Seq::empty()) {
                        ParsedV::Bad(e, q) => ParsedV::Bad(e, q),
                        ParsedV::Got(fields, s) => {
                            match p_eat(t, s, TokenV::RBracket) {
                                ParsedV::Bad(e, q) => ParsedV::Bad(e, q),
                                ParsedV::Got(_, u) => {
                                    match p_eat(t, u, TokenV::RParen) {
                                        ParsedV::Bad(e, q) => ParsedV::Bad(e, q),
                                        ParsedV::Got(rp, v) => {
                                            ParsedV::Got(StructDefV { name, fields, span: Span { start, end: rp.end } }, v)
                                        },
                                    }
                                },
                            }
                        },
                    }
                },
            }
        },
    }
}

/// Whether a payload type starts at `p`: a parenthesis or the name of a built-in
/// type. Another name is the next variant.
pub open spec fn type_starts(t: Seq<SpannedV>, p: nat) -> bool {
    p < t.len() && match t[p as int].tok {
        TokenV::LParen => true,
        TokenV::Ident(s) => !(named_type(s) is Named),
        _ => false,
    }
}

/// `Variant` or `Variant T`
pub open spec fn p_variant_def(t: Seq<SpannedV>, p: nat) -> ParsedV<VariantDefV> {
    match p_name(t, p) {
        ParsedV::Bad(e, q) => ParsedV::Bad(e, q),
        ParsedV::Got((name, span), q) => {
            if type_starts(t, q) {
                match p_type(t, q) {
                    ParsedV::Bad(e, q) => ParsedV::Bad(e, q),
                    ParsedV::Got(ty, r) => {
                        ParsedV::Got(
                            VariantDefV {
                                name,
                                payload: Some(ty),
                                span: Span { start: span.start, end: end_before(t, r, span.start) },
                            },
                            r,
                        )
                    },
                }
            } else {
                ParsedV::Got(
                    VariantDefV {
                        name,
                        payload: None,
                        span: Span { start: span.start, end: end_before(t, q, span.start) },
                    },
                    q,
                )
            }
        },
    }
}

/// Variants up to a closing parenthesis, behind those in `acc`.
pub open spec fn p_variant_defs(
    t: Seq<SpannedV>,
    p: nat,
    acc: Seq<VariantDefV>,
) -> ParsedV<Seq<VariantDefV>>
    decreases left(t, p),
{
    if p >= t.len() {
        ParsedV::Bad(ParseErrorV::UnexpectedEof, p)
    } else if next_is(t, p, TokenV::RParen) {
        ParsedV::Got(acc, p)
    } else {
        match p_variant_def(t, p) {
            ParsedV::Bad(e, q) => ParsedV::Bad(e, q),
            ParsedV::Got(x, q) => {
                p_variant_defs(t, ahead(p, q), acc.push(x))
            },
        }
    }
}

/// `Name Variant* )`
pub open spec fn p_enum(t: Seq<SpannedV>, p: nat, start: usize) -> ParsedV<EnumDefV> {
    match p_name(t, p) {
        ParsedV::Bad(e, q) => ParsedV::Bad(e, q),
        ParsedV::Got((name, _), q) => {
            match p_variant_defs(t, q, Seq::empty()) {
                ParsedV::Bad(e, q) => ParsedV::Bad(e, q),
                ParsedV::Got(variants, r) => {
                    match p_eat(t, r, TokenV::RParen) {
                        ParsedV::Bad(e, q) => ParsedV::Bad(e, q),
                        ParsedV::Got(rp, s) => {
                            ParsedV::Got(EnumDefV { name, variants, span: Span { start, end: rp.end } }, s)
                        },
                    }
                },
            }
        },
    }
}

/// `name: T value )`
pub open spec fn p_def(t: Seq<SpannedV>, p: nat, start: usize) -> ParsedV<ConstV> {
    match p_name(t, p) {
        ParsedV::Bad(e, q) => ParsedV::Bad(e, q),
        ParsedV::Got((name, _), q) => {
            match p_eat(t, q, TokenV::Colon) {
                ParsedV::Bad(e, q) => ParsedV::Bad(e, q),
                ParsedV::Got(_, r) => {
                    match p_type(t, r) {
                        ParsedV::Bad(e, q) => ParsedV::Bad(e, q),
                        ParsedV::Got(ty, s) => {
                            match p_expr(t, s) {
                                ParsedV::Bad(e, q) => ParsedV::Bad(e, q),
                                ParsedV::Got(value, u) => {
                                    match p_eat(t, u, TokenV::RParen) {
                                        ParsedV::Bad(e, q) => ParsedV::Bad(e, q),
                                        ParsedV::Got(rp, v) => {
                                            ParsedV::Got(ConstV { name, ty, value, span: Span { start, end: rp.end } }, v)
                                        },
                                    }
                                },
                            }
                        },
                    }
                },
            }
        },
    }
}

/// The first closing bracket from `p` on.
pub open spec fn next_rbracket(t: Seq<SpannedV>, p: nat) -> nat
    decreases left(t, p),
{
    if p >= t.len() || t[p as int].tok is RBracket {
        p
    } else {
        next_rbracket(t, p + 1)
    }
}

/// Whether two bracketed lists follow: type parameters, then parameters.
pub open spec fn two_lists(t: Seq<SpannedV>, p: nat) -> bool {
    next_is(t, p, TokenV::LBracket) && next_is(t, next_rbracket(t, p) + 1, TokenV::LBracket)
}

/// `T` or `T: Trait`
pub open spec fn p_type_param(t: Seq<SpannedV>, p: nat) -> ParsedV<(Seq<char>, Option<Seq<char>>)> {
    match p_name(t, p) {
        ParsedV::Bad(e, q) => ParsedV::Bad(e, q),
        ParsedV::Got((name, _), q) => {
            if next_is(t, q, TokenV::Colon) {
                match p_name(t, q + 1) {
                    ParsedV::Bad(e, q) => ParsedV::Bad(e, q),
                    ParsedV::Got((bound, _), r) => {
                        ParsedV::Got((name, Some(bound)), r)
                    },
                }
            } else {
                ParsedV::Got((name, None), q)
            }
        },
    }
}

/// Type parameters up to a closing bracket, behind those in `acc`.
pub open spec fn p_type_params(
    t: Seq<SpannedV>,
    p: nat,
    acc: Seq<(Seq<char>, Option<Seq<char>>)>,
) -> ParsedV<Seq<(Seq<char>, Option<Seq<char>>)>>
    decreases left(t, p),
{
    if p >= t.len() {
        ParsedV::Bad(ParseErrorV::UnexpectedEof, p)
    } else if next_is(t, p, TokenV::RBracket) {
        ParsedV::Got(acc, p)
    } else {
        match p_type_param(t, p) {
            ParsedV::Bad(e, q) => ParsedV::Bad(e, q),
            ParsedV::Got(x, q) => {
                p_type_params(t, ahead(p, past_comma(t, q)), acc.push(x))
            },
        }
    }
}

/// `[T, U: Trait, ...]`
pub open spec fn p_type_param_list(
    t: Seq<SpannedV>,
    p: nat,
) -> ParsedV<Seq<(Seq<char>, Option<Seq<char>>)>> {
    match p_eat(t, p, TokenV::LBracket) {
        ParsedV::Bad(e, q) => ParsedV::Bad(e, q),
        ParsedV::Got(_, q) => {
            match p_type_params(t, q, Seq::empty()) {
                ParsedV::Bad(e, q) => ParsedV::Bad(e, q),
                ParsedV::Got(type_params, r) => {
                    match p_eat(t, r, TokenV::RBracket) {
                        ParsedV::Bad(e, q) => ParsedV::Bad(e, q),
                        ParsedV::Got(_, s) => {
                            ParsedV::Got(type_params, s)
                        },
                    }
                },
            }
        },
    }
}

/// `name [x: T, ...] -> R body )` or `name [T, ...] [x: T, ...] -> R body )`
pub open spec fn p_defn(t: Seq<SpannedV>, p: nat, start: usize) -> ParsedV<TopLevelV> {
    match p_name(t, p) {
        ParsedV::Bad(e, q) => ParsedV::Bad(e, q),
        ParsedV::Got((name, _), q) => {
            if two_lists(t, q) {
                match p_type_param_list(t, q) {
                    ParsedV::Bad(e, q) => ParsedV::Bad(e, q),
                    ParsedV::Got(type_params, r) => {
                        match p_param_list(t, r) {
                            ParsedV::Bad(e, q) => ParsedV::Bad(e, q),
                            ParsedV::Got(params, s) => {
                                match p_ret(t, s) {
                                    ParsedV::Bad(e, q) => ParsedV::Bad(e, q),
                                    ParsedV::Got(ret, u) => {
                                        match p_expr(t, u) {
                                            ParsedV::Bad(e, q) => ParsedV::Bad(e, q),
                                            ParsedV::Got(body, v) => {
                                                match p_eat(t, v, TokenV::RParen) {
                                                    ParsedV::Bad(e, q) => ParsedV::Bad(e, q),
                                                    ParsedV::Got(rp, w) => {
                                                        ParsedV::Got(
                                                            TopLevelV::GenericFunction(
                                                                GenericFunctionV {
                                                                    name,
                                                                    type_params,
                                                                    params,
                                                                    ret,
                                                                    body,
                                                                    span: Span { start, end: rp.end },
                                                                },
                                                            ),
                                                            w,
                                                        )
                                                    },
                                                }
                                            },
                                        }
                                    },
                                }
                            },
                        }
                    },
                }
            } else {
                match p_param_list(t, q) {
                    ParsedV::Bad(e, q) => ParsedV::Bad(e, q),
                    ParsedV::Got(params, s) => {
                        match p_ret(t, s) {
                            ParsedV::Bad(e, q) => ParsedV::Bad(e, q),
                            ParsedV::Got(ret, u) => {
                                match p_expr(t, u) {
                                    ParsedV::Bad(e, q) => ParsedV::Bad(e, q),
                                    ParsedV::Got(body, v) => {
                                        match p_eat(t, v, TokenV::RParen) {
                                            ParsedV::Bad(e, q) => ParsedV::Bad(e, q),
                                            ParsedV::Got(rp, w) => {
                                                ParsedV::Got(
                                                    TopLevelV::Function(
                                                        FunctionV { name, params, ret, body, span: Span { start, end: rp.end } },
                                                    ),
                                                    w,
                                                )
                                            },
                                        }
                                    },
                                }
                            },
                        }
                    },
                }
            }
        },
    }
}

/// A string literal.
pub open spec fn p_str(t: Seq<SpannedV>, p: nat) -> ParsedV<Seq<char>> {
    if p < t.len() && t[p as int].tok is Str {
        ParsedV::Got(t[p as int].tok->Str_0, p + 1)
    } else {
        match p_eat(t, p, TokenV::Str(Seq::empty())) {
            ParsedV::Bad(e, q) => ParsedV::Bad(e, q),
            ParsedV::Got(_, q) => {
                ParsedV::Got(Seq::empty(), q)
            },
        }
    }
}

/// `"C" name [x: T, ...] -> R )`
pub open spec fn p_foreign(t: Seq<SpannedV>, p: nat, start: usize) -> ParsedV<ExternFnV> {
    match p_str(t, p) {
        ParsedV::Bad(e, q) => ParsedV::Bad(e, q),
        ParsedV::Got(abi, q) => {
            match p_name(t, q) {
                ParsedV::Bad(e, q) => ParsedV::Bad(e, q),
                ParsedV::Got((name, _), r) => {
                    match p_param_list(t, r) {
                        ParsedV::Bad(e, q) => ParsedV::Bad(e, q),
                        ParsedV::Got(params, s) => {
                            match p_ret(t, s) {
                                ParsedV::Bad(e, q) => ParsedV::Bad(e, q),
                                ParsedV::Got(ret, u) => {
                                    match p_eat(t, u, TokenV::RParen) {
                                        ParsedV::Bad(e, q) => ParsedV::Bad(e, q),
                                        ParsedV::Got(rp, v) => {
                                            ParsedV::Got(ExternFnV { abi, name, params, ret, span: Span { start, end: rp.end } }, v)
                                        },
                                    }
                                },
                            }
                        },
                    }
                },
            }
        },
    }
}

/// `(method [self ...] -> T)`
pub open spec fn p_sig(t: Seq<SpannedV>, p: nat) -> ParsedV<MethodSigV> {
    match p_eat(t, p, TokenV::LParen) {
        ParsedV::Bad(e, q) => ParsedV::Bad(e, q),
        ParsedV::Got(lp, q) => {
            match p_name(t, q) {
                ParsedV::Bad(e, q) => ParsedV::Bad(e, q),
                ParsedV::Got((name, _), r) => {
                    match p_method_params(t, r) {
                        ParsedV::Bad(e, q) => ParsedV::Bad(e, q),
                        ParsedV::Got(params, s) => {
                            match p_ret(t, s) {
                                ParsedV::Bad(e, q) => ParsedV::Bad(e, q),
                                ParsedV::Got(ret, u) => {
                                    match p_eat(t, u, TokenV::RParen) {
                                        ParsedV::Bad(e, q) => ParsedV::Bad(e, q),
                                        ParsedV::Got(rp, v) => {
                                            ParsedV::Got(MethodSigV { name, params, ret, span: Span { start: lp.start, end: rp.end } }, v)
                                        },
                                    }
                                },
                            }
                        },
                    }
                },
            }
        },
    }
}

/// Method signatures up to a closing parenthesis, behind those in `acc`.
pub open spec fn p_sigs(t: Seq<SpannedV>, p: nat, acc: Seq<MethodSigV>) -> ParsedV<Seq<MethodSigV>>
    decreases left(t, p),
{
    if p >= t.len() {
        ParsedV::Bad(ParseErrorV::UnexpectedEof, p)
    } else if next_is(t, p, TokenV::RParen) {
        ParsedV::Got(acc, p)
    } else {
        match p_sig(t, p) {
            ParsedV::Bad(e, q) => ParsedV::Bad(e, q),
            ParsedV::Got(x, q) => {
                p_sigs(t, ahead(p, q), acc.push(x))
            },
        }
    }
}

/// `Name (method ...)* )`
pub open spec fn p_trait(t: Seq<SpannedV>, p: nat, start: usize) -> ParsedV<TraitDefV> {
    match p_name(t, p) {
        ParsedV::Bad(e, q) => ParsedV::Bad(e, q),
        ParsedV::Got((name, _), q) => {
            match p_sigs(t, q, Seq::empty()) {
                ParsedV::Bad(e, q) => ParsedV::Bad(e, q),
                ParsedV::Got(methods, r) => {
                    match p_eat(t, r, TokenV::RParen) {
                        ParsedV::Bad(e, q) => ParsedV::Bad(e, q),
                        ParsedV::Got(rp, s) => {
                            ParsedV::Got(TraitDefV { name, methods, span: Span { start, end: rp.end } }, s)
                        },
                    }
                },
            }
        },
    }
}

/// `(method [self ...] -> T body)`
pub open spec fn p_method(t: Seq<SpannedV>, p: nat) -> ParsedV<FunctionV> {
    match p_eat(t, p, TokenV::LParen) {
        ParsedV::Bad(e, q) => ParsedV::Bad(e, q),
        ParsedV::Got(lp, q) => {
            match p_name(t, q) {
                ParsedV::Bad(e, q) => ParsedV::Bad(e, q),
                ParsedV::Got((name, _), r) => {
                    match p_method_params(t, r) {
                        ParsedV::Bad(e, q) => ParsedV::Bad(e, q),
                        ParsedV::Got(params, s) => {
                            match p_ret(t, s) {
                                ParsedV::Bad(e, q) => ParsedV::Bad(e, q),
                                ParsedV::Got(ret, u) => {
                                    match p_expr(t, u) {
                                        ParsedV::Bad(e, q) => ParsedV::Bad(e, q),
                                        ParsedV::Got(body, v) => {
                                            match p_eat(t, v, TokenV::RParen) {
                                                ParsedV::Bad(e, q) => ParsedV::Bad(e, q),
                                                ParsedV::Got(rp, w) => {
                                                    ParsedV::Got(
                                                        FunctionV { name, params, ret, body, span: Span { start: lp.start, end: rp.end } },
                                                        w,
                                                    )
                                                },
                                            }
                                        },
                                    }
                                },
                            }
                        },
                    }
                },
            }
        },
    }
}

/// Methods up to a closing parenthesis, behind those in `acc`.
pub open spec fn p_methods(t: Seq<SpannedV>, p: nat, acc: Seq<FunctionV>) -> ParsedV<Seq<FunctionV>>
    decreases left(t, p),
{
    if p >= t.len() {
        ParsedV::Bad(ParseErrorV::UnexpectedEof, p)
    } else if next_is(t, p, TokenV::RParen) {
        ParsedV::Got(acc, p)
    } else {
        match p_method(t, p) {
            ParsedV::Bad(e, q) => ParsedV::Bad(e, q),
            ParsedV::Got(x, q) => {
                p_methods(t, ahead(p, q), acc.push(x))
            },
        }
    }
}

/// The word `for`.
pub open spec fn p_for(t: Seq<SpannedV>, p: nat) -> ParsedV<Span> {
    if p >= t.len() {
        ParsedV::Bad(ParseErrorV::UnexpectedEof, p)
    } else if t[p as int].tok == TokenV::Ident("for"@) {
        ParsedV::Got(t[p as int].span, p + 1)
    } else {
        ParsedV::Bad(
            ParseErrorV::Expected {
                expected: "'for'"@,
                found: token_text(t[p as int].tok),
                at: t[p as int].span.start,
            },
            p,
        )
    }
}

/// `Name for T (method ...)* )`
pub open spec fn p_impl(t: Seq<SpannedV>, p: nat, start: usize) -> ParsedV<ImplBlockV> {
    match p_name(t, p) {
        ParsedV::Bad(e, q) => ParsedV::Bad(e, q),
        ParsedV::Got((trait_name, _), q) => {
            match p_for(t, q) {
                ParsedV::Bad(e, q) => ParsedV::Bad(e, q),
                ParsedV::Got(_, r) => {
                    match p_type(t, r) {
                        ParsedV::Bad(e, q) => ParsedV::Bad(e, q),
                        ParsedV::Got(for_ty, s) => {
                            match p_methods(t, s, Seq::empty()) {
                                ParsedV::Bad(e, q) => ParsedV::Bad(e, q),
                                ParsedV::Got(methods, u) => {
                                    match p_eat(t, u, TokenV::RParen) {
                                        ParsedV::Bad(e, q) => ParsedV::Bad(e, q),
                                        ParsedV::Got(rp, v) => {
                                            ParsedV::Got(ImplBlockV { trait_name, for_ty, methods, span: Span { start, end: rp.end } }, v)
                                        },
                                    }
                                },
                            }
                        },
                    }
                },
            }
        },
    }
}

/// Names up to a closing bracket, behind those in `acc`.
pub open spec fn p_names(t: Seq<SpannedV>, p: nat, acc: Seq<Seq<char>>) -> ParsedV<Seq<Seq<char>>>
    decreases left(t, p),
{
    if p >= t.len() {
        ParsedV::Bad(ParseErrorV::UnexpectedEof, p)
    } else if next_is(t, p, TokenV::RBracket) {
        ParsedV::Got(acc, p)
    } else {
        match p_plain_name(t, p) {
            ParsedV::Bad(e, q) => ParsedV::Bad(e, q),
            ParsedV::Got(x, q) => {
                p_names(t, ahead(p, past_comma(t, q)), acc.push(x))
            },
        }
    }
}

/// `name [x ...] template )`
pub open spec fn p_defmacro(t: Seq<SpannedV>, p: nat, start: usize) -> ParsedV<MacroDefV> {
    match p_name(t, p) {
        ParsedV::Bad(e, q) => ParsedV::Bad(e, q),
        ParsedV::Got((name, _), q) => {
            match p_eat(t, q, TokenV::LBracket) {
                ParsedV::Bad(e, q) => ParsedV::Bad(e, q),
                ParsedV::Got(_, r) => {
                    match p_names(t, r, Seq::empty()) {
                        ParsedV::Bad(e, q) => ParsedV::Bad(e, q),
                        ParsedV::Got(params, s) => {
                            match p_eat(t, s, TokenV::RBracket) {
                                ParsedV::Bad(e, q) => ParsedV::Bad(e, q),
                                ParsedV::Got(_, u) => {
                                    match p_expr(t, u) {
                                        ParsedV::Bad(e, q) => ParsedV::Bad(e, q),
                                        ParsedV::Got(template, v) => {
                                            match p_eat(t, v, TokenV::RParen) {
                                                ParsedV::Bad(e, q) => ParsedV::Bad(e, q),
                                                ParsedV::Got(rp, w) => {
                                                    ParsedV::Got(MacroDefV { name, params, template, span: Span { start, end: rp.end } }, w)
                                                },
                                            }
                                        },
                                    }
                                },
                            }
                        },
                    }
                },
            }
        },
    }
}

/// `name )`
pub open spec fn p_lone_name(t: Seq<SpannedV>, p: nat, start: usize) -> ParsedV<(Seq<char>, Span)> {
    match p_name(t, p) {
        ParsedV::Bad(e, q) => ParsedV::Bad(e, q),
        ParsedV::Got((name, _), q) => {
            match p_eat(t, q, TokenV::RParen) {
                ParsedV::Bad(e, q) => ParsedV::Bad(e, q),
                ParsedV::Got(rp, r) => {
                    ParsedV::Got((name, Span { start, end: rp.end }), r)
                },
            }
        },
    }
}

/// A definition, which the word `head` begins.
pub open spec fn p_item(t: Seq<SpannedV>, p: nat, start: usize, head: Seq<char>, span: Span) -> ParsedV<
    TopLevelV,
> {
    if head == "defn"@ {
        p_defn(t, p, start)
    } else if head == "def"@ {
        match p_def(t, p, start) {
            ParsedV::Bad(e, q) => ParsedV::Bad(e, q),
            ParsedV::Got(x, q) => {
                ParsedV::Got(TopLevelV::Const(x), q)
            },
        }
    } else if head == "struct"@ {
        match p_struct(t, p, start) {
            ParsedV::Bad(e, q) => ParsedV::Bad(e, q),
            ParsedV::Got(x, q) => {
                ParsedV::Got(TopLevelV::Struct(x), q)
            },
        }
    } else if head == "enum"@ {
        match p_enum(t, p, start) {
            ParsedV::Bad(e, q) => ParsedV::Bad(e, q),
            ParsedV::Got(x, q) => {
                ParsedV::Got(TopLevelV::Enum(x), q)
            },
        }
    } else if head == "extern"@ {
        match p_foreign(t, p, start) {
            ParsedV::Bad(e, q) => ParsedV::Bad(e, q),
            ParsedV::Got(x, q) => {
                ParsedV::Got(TopLevelV::Extern(x), q)
            },
        }
    } else if head == "trait"@ {
        match p_trait(t, p, start) {
            ParsedV::Bad(e, q) => ParsedV::Bad(e, q),
            ParsedV::Got(x, q) => {
                ParsedV::Got(TopLevelV::Trait(x), q)
            },
        }
    } else if head == "impl"@ {
        match p_impl(t, p, start) {
            ParsedV::Bad(e, q) => ParsedV::Bad(e, q),
            ParsedV::Got(x, q) => {
                ParsedV::Got(TopLevelV::Impl(x), q)
            },
        }
    } else if head == "defmacro"@ {
        match p_defmacro(t, p, start) {
            ParsedV::Bad(e, q) => ParsedV::Bad(e, q),
            ParsedV::Got(x, q) => {
                ParsedV::Got(TopLevelV::DefMacro(x), q)
            },
        }
    } else if head == "module"@ {
        match p_lone_name(t, p, start) {
            ParsedV::Bad(e, q) => ParsedV::Bad(e, q),
            ParsedV::Got((name, span), q) => {
                ParsedV::Got(TopLevelV::Module { name, span }, q)
            },
        }
    } else if head == "import"@ {
        match p_lone_name(t, p, start) {
            ParsedV::Bad(e, q) => ParsedV::Bad(e, q),
            ParsedV::Got((name, span), q) => {
                ParsedV::Got(TopLevelV::Import { name, span }, q)
            },
        }
    } else {
        ParsedV::Bad(ParseErrorV::Unexpected("top-level form "@ + text::quoted(head), span.start), p)
    }
}

/// A definition at the top level.
pub open spec fn p_toplevel(t: Seq<SpannedV>, p: nat) -> ParsedV<TopLevelV> {
    match p_eat(t, p, TokenV::LParen) {
        ParsedV::Bad(e, q) => ParsedV::Bad(e, q),
        ParsedV::Got(lp, q) => {
            match p_name(t, q) {
                ParsedV::Bad(e, q) => ParsedV::Bad(e, q),
                ParsedV::Got((head, span), r) => {
                    p_item(t, r, lp.start, head, span)
                },
            }
        },
    }
}

/// Definitions up to the end, behind those in `acc`.
pub open spec fn p_program(t: Seq<SpannedV>, p: nat, acc: Seq<TopLevelV>) -> ParsedV<ProgramV>
    decreases left(t, p),
{
    if p >= t.len() {
        ParsedV::Got(ProgramV { items: acc }, p)
    } else {
        match p_toplevel(t, p) {
            ParsedV::Bad(e, q) => ParsedV::Bad(e, q),
            ParsedV::Got(x, q) => {
                p_program(t, ahead(p, q), acc.push(x))
            },
        }
    }
}

/// The program that a source text holds.
pub open spec fn parse_text(src: Seq<char>) -> Result<ProgramV, FrontendErrorV> {
    match lexer::lex_text(src) {
        Err(e) => Err(FrontendErrorV::Lex(e)),
        Ok(t) => match p_program(t, 0, Seq::empty()) {
            ParsedV::Got(x, _) => Ok(x),
            ParsedV::Bad(e, _) => Err(FrontendErrorV::Parse(e)),
        },
    }
}

/// The one expression that a source text holds.
pub open spec fn parse_expr_text(src: Seq<char>) -> Result<ExprV, FrontendErrorV> {
    match lexer::lex_text(src) {
        Err(e) => Err(FrontendErrorV::Lex(e)),
        Ok(t) => match p_expr(t, 0) {
            ParsedV::Bad(e, _) => Err(FrontendErrorV::Parse(e)),
            ParsedV::Got(x, q) => if q < t.len() {
                Err(FrontendErrorV::Parse(misplaced(t, q)))
            } else {
                Ok(x)
            },
        },
    }
}

/// The message of a lexical or syntax error.
pub open spec fn frontend_error_text(e: FrontendErrorV) -> Seq<char> {
    match e {
        FrontendErrorV::Lex(e) => lexer::lex_error_text(e),
        FrontendErrorV::Parse(e) => parse_error_text(e),
    }
}

} // verus!
