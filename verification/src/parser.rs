//! Parser: tokens to syntax tree.
use crate::ast::{
    Binding, BindingV, Const, EnumDef, Expr, ExprKind, ExprV, ExternFn, FieldDef, FloatKind,
    Function, GenericFunction, ImplBlock, IntKind, Lit, MacroDef, MatchArm, MatchArmV, MethodSig,
    Param, Program, Span, StructDef, TopLevel, TraitDef, Type, VariantDef,
};
use crate::ast;
use crate::grammar::{FrontendError, ParsedV, ParseError};
use crate::grammar;
use crate::lexer::{FloatSuffix, IntSuffix, lex, Spanned, SpannedV, Token, TokenV};
use crate::text::{quote, same_text, signed_decimal};
use crate::text;
use vstd::prelude::*;
use vstd::string::*;

verus! {

impl ParseError {
    /// The byte that the error points at; `None` at the end of the input.
    pub fn byte(&self) -> (r: Option<usize>)
        ensures
            r == grammar::parse_error_byte(self@),
    {
        match self {
            ParseError::UnexpectedEof => None,
            ParseError::Unexpected(_, at) => Some(*at),
            ParseError::UnknownType(_, at) => Some(*at),
            ParseError::Expected { at, .. } => Some(*at),
        }
    }

    /// The error as a message.
    pub fn to_text(&self) -> (r: String)
        ensures
            r@ == grammar::parse_error_text(self@),
    {
        match self {
            ParseError::UnexpectedEof => String::from_str("unexpected end of input"),
            ParseError::Unexpected(s, _) => {
                let mut r = String::from_str("unexpected token ");
                r.append(s.as_str());
                r
            },
            ParseError::UnknownType(s, _) => {
                let mut r = String::from_str("unknown type ");
                r.append(quote(s.as_str()).as_str());
                r
            },
            ParseError::Expected { expected, found, .. } => {
                let mut r = String::from_str("expected ");
                r.append(expected);
                r.append(", found ");
                r.append(found.as_str());
                r
            },
        }
    }
}

impl FrontendError {
    /// The error as a message.
    pub fn to_text(&self) -> (r: String)
        ensures
            r@ == grammar::frontend_error_text(self@),
    {
        match self {
            FrontendError::Lex(e) => e.to_text(),
            FrontendError::Parse(e) => e.to_text(),
        }
    }
}

/// What a kind of token is called in messages.
pub fn token_name(t: &Token) -> (r: &'static str)
    ensures
        r@ == grammar::kind_name(t@),
{
    match t {
        Token::LParen => "'('",
        Token::RParen => "')'",
        Token::LBracket => "'['",
        Token::RBracket => "']'",
        Token::Colon => "':'",
        Token::Comma => "','",
        Token::Arrow => "'->'",
        Token::Ident(_) => "identifier",
        Token::Int(_, _) => "int literal",
        Token::Float(_, _) => "float literal",
        Token::Str(_) => "string literal",
        Token::Bool(_) => "boolean",
    }
}

/// A name for a token with something in parentheses.
fn wrapped(name: &str, inside: &str) -> (r: String)
    ensures
        r@ == name@ + inside@ + ")"@,
{
    let mut r = String::from_str(name);
    r.append(inside);
    r.append(")");
    r
}

/// How messages show a token.
pub fn describe(t: &Token) -> (r: String)
    ensures
        r@ == grammar::token_text(t@),
{
    match t {
        Token::LParen => String::from_str("LParen"),
        Token::RParen => String::from_str("RParen"),
        Token::LBracket => String::from_str("LBracket"),
        Token::RBracket => String::from_str("RBracket"),
        Token::Colon => String::from_str("Colon"),
        Token::Comma => String::from_str("Comma"),
        Token::Arrow => String::from_str("Arrow"),
        Token::Ident(s) => wrapped("Ident(", quote(s.as_str()).as_str()),
        Token::Int(v, s) => {
            let mut r = String::from_str("Int(");
            r.append(signed_decimal(*v).as_str());
            r.append(", ");
            r.append(
                match s {
                    None => "None",
                    Some(IntSuffix::I32) => "Some(I32)",
                    Some(IntSuffix::I64) => "Some(I64)",
                },
            );
            r.append(")");
            r
        },
        Token::Float(v, s) => {
            let mut r = String::from_str("Float(");
            r.append(v.as_str());
            r.append(", ");
            r.append(
                match s {
                    None => "None",
                    Some(FloatSuffix::F32) => "Some(F32)",
                    Some(FloatSuffix::F64) => "Some(F64)",
                },
            );
            r.append(")");
            r
        },
        Token::Str(s) => wrapped("Str(", quote(s.as_str()).as_str()),
        Token::Bool(b) => if *b {
            String::from_str("Bool(true)")
        } else {
            String::from_str("Bool(false)")
        },
    }
}

/// Whether two tokens are of one kind, whatever they hold.
fn alike(a: &Token, b: &Token) -> (r: bool)
    ensures
        r == grammar::same_kind(a@, b@),
{
    match (a, b) {
        (Token::LParen, Token::LParen) => true,
        (Token::RParen, Token::RParen) => true,
        (Token::LBracket, Token::LBracket) => true,
        (Token::RBracket, Token::RBracket) => true,
        (Token::Colon, Token::Colon) => true,
        (Token::Comma, Token::Comma) => true,
        (Token::Arrow, Token::Arrow) => true,
        (Token::Ident(_), Token::Ident(_)) => true,
        (Token::Int(_, _), Token::Int(_, _)) => true,
        (Token::Float(_, _), Token::Float(_, _)) => true,
        (Token::Str(_), Token::Str(_)) => true,
        (Token::Bool(_), Token::Bool(_)) => true,
        _ => false,
    }
}

/// The type that a single name stands for.
fn type_of_name(s: &String) -> (r: Type)
    ensures
        r@ == grammar::named_type(s@),
{
    let n = s.as_str();
    if same_text(n, "i32") {
        Type::I32
    } else if same_text(n, "i64") {
        Type::I64
    } else if same_text(n, "f32") {
        Type::F32
    } else if same_text(n, "f64") {
        Type::F64
    } else if same_text(n, "bool") {
        Type::Bool
    } else if same_text(n, "str") {
        Type::Str
    } else if same_text(n, "unit") {
        Type::Unit
    } else {
        Type::Named(s.clone())
    }
}

/// A reader of tokens: the tokens and the place of the next one.
pub struct Parser<'a> {
    toks: &'a [Spanned],
    pos: usize,
}

/// Whether `r`, with the reader at `pos` now, is what the rule `g` reads.
pub open spec fn reads<T: DeepView>(r: Result<T, ParseError>, pos: nat, g: ParsedV<T::V>) -> bool {
    match r {
        Ok(x) => g == ParsedV::Got(x.deep_view(), pos),
        Err(e) => g == ParsedV::<T::V>::Bad(e@, pos),
    }
}

impl<'a> Parser<'a> {
    /// The tokens that are read.
    pub closed spec fn tokens(&self) -> Seq<SpannedV> {
        self.toks.deep_view()
    }

    /// The place of the next token.
    pub closed spec fn place(&self) -> nat {
        self.pos as nat
    }

    /// A reader at the first of `toks`.
    pub fn new(toks: &'a [Spanned]) -> (r: Self)
        ensures
            r.tokens() == toks.deep_view(),
            r.place() == 0,
    {
        Self { toks, pos: 0 }
    }

    fn peek(&self) -> (r: Option<&'a Spanned>)
        ensures
            match r {
                Some(s) => self.place() < self.tokens().len() && s@ == self.tokens()[self.pos as int],
                None => self.place() >= self.tokens().len(),
            },
    {
        if self.pos < self.toks.len() {
            Some(&self.toks[self.pos])
        } else {
            None
        }
    }

    fn bump(&mut self) -> (r: Option<&'a Spanned>)
        ensures
            final(self).tokens() == old(self).tokens(),
            match r {
                Some(s) => old(self).place() < old(self).tokens().len() && s@ == old(self).tokens()[old(
                    self,
                ).pos as int] && final(self).place() == old(self).place() + 1,
                None => old(self).place() >= old(self).tokens().len() && final(self).place() == old(
                    self,
                ).place(),
            },
    {
        if self.pos < self.toks.len() {
            let t = &self.toks[self.pos];
            self.pos = self.pos + 1;
            Some(t)
        } else {
            None
        }
    }

    /// Whether the next token is of the kind of `want`.
    fn sees(&self, want: &Token) -> (r: bool)
        ensures
            r == grammar::next_is(self.tokens(), self.place(), want@),
    {
        match self.peek() {
            Some(s) => alike(&s.tok, want),
            None => false,
        }
    }

    /// Skips a comma, if there is one.
    fn skip_comma(&mut self)
        ensures
            final(self).tokens() == old(self).tokens(),
            final(self).place() == grammar::past_comma(old(self).tokens(), old(self).place()),
    {
        if self.sees(&Token::Comma) {
            self.bump();
        }
    }

    /// Where the token before the next one ends.
    fn last_end(&self, start: usize) -> (r: usize)
        ensures
            r == grammar::end_before(self.tokens(), self.place(), start),
    {
        let i: usize = if self.pos == 0 {
            0
        } else {
            self.pos - 1
        };
        if i < self.toks.len() {
            let s = &self.toks[i];
            assert(s@ == self.tokens()[i as int]);
            s.span.end
        } else {
            start
        }
    }

    /// Takes a token of the kind of `expected`.
    fn eat(&mut self, expected: &Token) -> (r: Result<Span, ParseError>)
        ensures
            final(self).tokens() == old(self).tokens(),
            final(self).place() >= old(self).place(),
            r is Ok ==> final(self).place() > old(self).place(),
            match r {
                Ok(x) => grammar::p_eat(old(self).tokens(), old(self).place(), expected@) == ParsedV::Got(
                    x,
                    final(self).place(),
                ),
                Err(e) => grammar::p_eat(old(self).tokens(), old(self).place(), expected@) == ParsedV::<
                    Span,
                >::Bad(e@, final(self).place()),
            },
    {
        match self.peek() {
            None => Err(ParseError::UnexpectedEof),
            Some(s) => {
                if alike(&s.tok, expected) {
                    self.bump();
                    Ok(s.span)
                } else {
                    Err(
                        ParseError::Expected {
                            expected: token_name(expected),
                            found: describe(&s.tok),
                            at: s.span.start,
                        },
                    )
                }
            },
        }
    }

    /// Takes an identifier.
    fn name(&mut self) -> (r: Result<(String, Span), ParseError>)
        ensures
            final(self).tokens() == old(self).tokens(),
            final(self).place() >= old(self).place(),
            r is Ok ==> final(self).place() > old(self).place(),
            match r {
                Ok(x) => grammar::p_name(old(self).tokens(), old(self).place()) == ParsedV::Got((x.0@, x.1), final(self).place()),
                Err(e) => grammar::p_name(old(self).tokens(), old(self).place()) == ParsedV::<(Seq<char>, Span)>::Bad(e@, final(self).place()),
            },
    {
        match self.bump() {
            None => Err(ParseError::UnexpectedEof),
            Some(s) => match &s.tok {
                Token::Ident(n) => Ok((n.clone(), s.span)),
                other => Err(ParseError::Unexpected(describe(other), s.span.start)),
            },
        }
    }

    /// The length of an array type, and the closing parenthesis.
    fn array_len(&mut self) -> (r: Result<u32, ParseError>)
        ensures
            final(self).tokens() == old(self).tokens(),
            final(self).place() >= old(self).place(),
            r is Ok ==> final(self).place() > old(self).place(),
            reads(r, final(self).place(), grammar::p_array_len(old(self).tokens(), old(self).place())),
    {
        match self.bump() {
            None => Err(ParseError::UnexpectedEof),
            Some(s) => match &s.tok {
                Token::Int(v, _) => {
                    if 0 <= *v && *v <= 4294967295i64 {
                        let len: u32 = *v as u32;
                        self.eat(&Token::RParen)?;
                        Ok(len)
                    } else {
                        Err(
                            ParseError::Expected {
                                expected: "non-negative array length fitting u32",
                                found: describe(&s.tok),
                                at: s.span.start,
                            },
                        )
                    }
                },
                other => Err(
                    ParseError::Expected {
                        expected: "array length (int literal)",
                        found: describe(other),
                        at: s.span.start,
                    },
                ),
            },
        }
    }

    /// A type: a name or `(Array T n)`.
    fn parse_type(&mut self) -> (r: Result<Type, ParseError>)
        ensures
            final(self).tokens() == old(self).tokens(),
            final(self).place() >= old(self).place(),
            r is Ok ==> final(self).place() > old(self).place(),
            reads(r, final(self).place(), grammar::p_type(old(self).tokens(), old(self).place())),
        decreases grammar::left(old(self).tokens(), old(self).place()), 0nat,
    {
        match self.peek() {
            None => Err(ParseError::UnexpectedEof),
            Some(s) => match &s.tok {
                Token::Ident(n) => {
                    self.bump();
                    Ok(type_of_name(n))
                },
                Token::LParen => {
                    self.bump();
                    let (head, span) = self.name()?;
                    if !same_text(head.as_str(), "Array") {
                        return Err(ParseError::UnknownType(head, span.start));
                    }
                    let elem = self.parse_type()?;
                    let len: u32 = self.array_len()?;
                    Ok(Type::Array { elem: Box::new(elem), len })
                },
                other => Err(ParseError::Unexpected(describe(other), s.span.start)),
            },
        }
    }

    /// The closing parenthesis of a form that began at `start`.
    fn close(&mut self, kind: ExprKind, start: usize) -> (r: Result<Expr, ParseError>)
        ensures
            final(self).tokens() == old(self).tokens(),
            final(self).place() >= old(self).place(),
            r is Ok ==> final(self).place() > old(self).place(),
            reads(r, final(self).place(), grammar::p_close(old(self).tokens(), old(self).place(), ast::kind_v(kind), start)),
    {
        let rp = self.eat(&Token::RParen)?;
        Ok(Expr::new(kind, Span::new(start, rp.end)))
    }

    /// An expression: a literal, a name or a form in parentheses.
    fn parse_expr(&mut self) -> (r: Result<Expr, ParseError>)
        ensures
            final(self).tokens() == old(self).tokens(),
            final(self).place() >= old(self).place(),
            r is Ok ==> final(self).place() > old(self).place(),
            reads(r, final(self).place(), grammar::p_expr(old(self).tokens(), old(self).place())),
        decreases grammar::left(old(self).tokens(), old(self).place()), 1nat,
    {
        match self.peek() {
            None => Err(ParseError::UnexpectedEof),
            Some(s) => {
                let span = s.span;
                match &s.tok {
                    Token::Int(v, suffix) => {
                        let kind = match suffix {
                            None => None,
                            Some(IntSuffix::I32) => Some(IntKind::I32),
                            Some(IntSuffix::I64) => Some(IntKind::I64),
                        };
                        self.bump();
                        Ok(Expr::new(ExprKind::Lit(Lit::Int(*v, kind)), span))
                    },
                    Token::Float(v, suffix) => {
                        let kind = match suffix {
                            None => None,
                            Some(FloatSuffix::F32) => Some(FloatKind::F32),
                            Some(FloatSuffix::F64) => Some(FloatKind::F64),
                        };
                        self.bump();
                        Ok(Expr::new(ExprKind::Lit(Lit::Float(v.clone(), kind)), span))
                    },
                    Token::Bool(b) => {
                        self.bump();
                        Ok(Expr::new(ExprKind::Lit(Lit::Bool(*b)), span))
                    },
                    Token::Str(v) => {
                        self.bump();
                        Ok(Expr::new(ExprKind::Lit(Lit::Str(v.clone())), span))
                    },
                    Token::Ident(n) => {
                        self.bump();
                        Ok(Expr::new(ExprKind::Var(n.clone()), span))
                    },
                    Token::LParen => self.parse_compound(),
                    other => Err(ParseError::Unexpected(describe(other), span.start)),
                }
            },
        }
    }

    /// A form in parentheses; its first word says which.
    fn parse_compound(&mut self) -> (r: Result<Expr, ParseError>)
        requires
            grammar::next_is(old(self).tokens(), old(self).place(), TokenV::LParen),
        ensures
            final(self).tokens() == old(self).tokens(),
            final(self).place() >= old(self).place(),
            r is Ok ==> final(self).place() > old(self).place(),
            reads(r, final(self).place(), grammar::p_compound(old(self).tokens(), old(self).place())),
        decreases grammar::left(old(self).tokens(), old(self).place()), 0nat,
    {
        let lp = self.eat(&Token::LParen)?;
        let start: usize = lp.start;
        match self.bump() {
            None => Err(ParseError::UnexpectedEof),
            Some(s) => match &s.tok {
                Token::Ident(head) => {
                    let h = head.as_str();
                    if same_text(h, "if") {
                        self.parse_if(start)
                    } else if same_text(h, "let") {
                        self.parse_let(start)
                    } else if same_text(h, "do") {
                        let es = self.parse_exprs()?;
                        self.close(ExprKind::Do(es), start)
                    } else if same_text(h, "as") {
                        self.parse_cast(start)
                    } else if same_text(h, "set!") {
                        self.parse_assign(start)
                    } else if same_text(h, "while") {
                        self.parse_while(start)
                    } else if same_text(h, "loop") {
                        let body = self.parse_expr()?;
                        self.close(ExprKind::Loop { body: Box::new(body) }, start)
                    } else if same_text(h, "break") {
                        self.close(ExprKind::Break, start)
                    } else if same_text(h, "array") {
                        self.parse_array(start)
                    } else if same_text(h, "field") {
                        self.parse_field(start)
                    } else if same_text(h, "match") {
                        self.parse_match(start)
                    } else {
                        let args = self.parse_exprs()?;
                        self.close(ExprKind::Call { callee: head.clone(), args }, start)
                    }
                },
                other => Err(ParseError::Unexpected(describe(other), s.span.start)),
            },
        }
    }

    /// `cond then else )`
    fn parse_if(&mut self, start: usize) -> (r: Result<Expr, ParseError>)
        ensures
            final(self).tokens() == old(self).tokens(),
            final(self).place() >= old(self).place(),
            r is Ok ==> final(self).place() > old(self).place(),
            reads(r, final(self).place(), grammar::p_if(old(self).tokens(), old(self).place(), start)),
        decreases grammar::left(old(self).tokens(), old(self).place()), 3nat,
    {
        let cond = self.parse_expr()?;
        let then_branch = self.parse_expr()?;
        let else_branch = self.parse_expr()?;
        self.close(
            ExprKind::If {
                cond: Box::new(cond),
                then_branch: Box::new(then_branch),
                else_branch: Box::new(else_branch),
            },
            start,
        )
    }

    /// `[x: T v, ...] body )`
    fn parse_let(&mut self, start: usize) -> (r: Result<Expr, ParseError>)
        ensures
            final(self).tokens() == old(self).tokens(),
            final(self).place() >= old(self).place(),
            r is Ok ==> final(self).place() > old(self).place(),
            reads(r, final(self).place(), grammar::p_let(old(self).tokens(), old(self).place(), start)),
        decreases grammar::left(old(self).tokens(), old(self).place()), 3nat,
    {
        self.eat(&Token::LBracket)?;
        let bindings = self.parse_bindings()?;
        self.eat(&Token::RBracket)?;
        let body = self.parse_expr()?;
        self.close(ExprKind::Let { bindings, body: Box::new(body) }, start)
    }

    /// `T e )`
    fn parse_cast(&mut self, start: usize) -> (r: Result<Expr, ParseError>)
        ensures
            final(self).tokens() == old(self).tokens(),
            final(self).place() >= old(self).place(),
            r is Ok ==> final(self).place() > old(self).place(),
            reads(r, final(self).place(), grammar::p_cast(old(self).tokens(), old(self).place(), start)),
        decreases grammar::left(old(self).tokens(), old(self).place()), 3nat,
    {
        let ty = self.parse_type()?;
        let expr = self.parse_expr()?;
        self.close(ExprKind::Cast { ty, expr: Box::new(expr) }, start)
    }

    /// `name value )`
    fn parse_assign(&mut self, start: usize) -> (r: Result<Expr, ParseError>)
        ensures
            final(self).tokens() == old(self).tokens(),
            final(self).place() >= old(self).place(),
            r is Ok ==> final(self).place() > old(self).place(),
            reads(r, final(self).place(), grammar::p_assign(old(self).tokens(), old(self).place(), start)),
        decreases grammar::left(old(self).tokens(), old(self).place()), 3nat,
    {
        let (name, _) = self.name()?;
        let value = self.parse_expr()?;
        self.close(ExprKind::Assign { name, value: Box::new(value) }, start)
    }

    /// `cond body )`
    fn parse_while(&mut self, start: usize) -> (r: Result<Expr, ParseError>)
        ensures
            final(self).tokens() == old(self).tokens(),
            final(self).place() >= old(self).place(),
            r is Ok ==> final(self).place() > old(self).place(),
            reads(r, final(self).place(), grammar::p_while(old(self).tokens(), old(self).place(), start)),
        decreases grammar::left(old(self).tokens(), old(self).place()), 3nat,
    {
        let cond = self.parse_expr()?;
        let body = self.parse_expr()?;
        self.close(ExprKind::While { cond: Box::new(cond), body: Box::new(body) }, start)
    }

    /// `T e1 ... en )`
    fn parse_array(&mut self, start: usize) -> (r: Result<Expr, ParseError>)
        ensures
            final(self).tokens() == old(self).tokens(),
            final(self).place() >= old(self).place(),
            r is Ok ==> final(self).place() > old(self).place(),
            reads(r, final(self).place(), grammar::p_array(old(self).tokens(), old(self).place(), start)),
        decreases grammar::left(old(self).tokens(), old(self).place()), 3nat,
    {
        let elem_ty = self.parse_type()?;
        let elems = self.parse_exprs()?;
        self.close(ExprKind::ArrayLit { elem_ty, elems }, start)
    }

    /// `e name )`
    fn parse_field(&mut self, start: usize) -> (r: Result<Expr, ParseError>)
        ensures
            final(self).tokens() == old(self).tokens(),
            final(self).place() >= old(self).place(),
            r is Ok ==> final(self).place() > old(self).place(),
            reads(r, final(self).place(), grammar::p_field(old(self).tokens(), old(self).place(), start)),
        decreases grammar::left(old(self).tokens(), old(self).place()), 3nat,
    {
        let base = self.parse_expr()?;
        let (field, _) = self.name()?;
        self.close(ExprKind::Field { base: Box::new(base), field }, start)
    }

    /// `e (Variant body) ... )`
    fn parse_match(&mut self, start: usize) -> (r: Result<Expr, ParseError>)
        ensures
            final(self).tokens() == old(self).tokens(),
            final(self).place() >= old(self).place(),
            r is Ok ==> final(self).place() > old(self).place(),
            reads(r, final(self).place(), grammar::p_match(old(self).tokens(), old(self).place(), start)),
        decreases grammar::left(old(self).tokens(), old(self).place()), 3nat,
    {
        let scrutinee = self.parse_expr()?;
        let arms = self.parse_arms()?;
        self.close(ExprKind::Match { scrutinee: Box::new(scrutinee), arms }, start)
    }

    /// Expressions up to a closing parenthesis.
    fn parse_exprs(&mut self) -> (r: Result<Vec<Expr>, ParseError>)
        ensures
            final(self).tokens() == old(self).tokens(),
            final(self).place() >= old(self).place(),
            match r {
                Ok(x) => grammar::p_exprs(old(self).tokens(), old(self).place(), Seq::empty()) == ParsedV::Got(ast::exprs_v(x@), final(self).place()),
                Err(e) => grammar::p_exprs(old(self).tokens(), old(self).place(), Seq::empty()) == ParsedV::<Seq<ExprV>>::Bad(e@, final(self).place()),
            },
        decreases grammar::left(old(self).tokens(), old(self).place()), 2nat,
    {
        let mut out: Vec<Expr> = Vec::new();
        proof {
            assert(ast::exprs_v(out@) =~= Seq::empty());
        }
        while !self.sees(&Token::RParen)
            invariant
                self.tokens() == old(self).tokens(),
                self.place() >= old(self).place(),
                grammar::p_exprs(old(self).tokens(), old(self).place(), Seq::empty()) == grammar::p_exprs(self.tokens(), self.place(), ast::exprs_v(out@)),
            decreases grammar::left(self.tokens(), self.place()),
        {
            if self.peek().is_none() {
                return Err(ParseError::UnexpectedEof);
            }
            let x = self.parse_expr()?;
            let ghost before = ast::exprs_v(out@);
            out.push(x);
            proof {
                assert(ast::exprs_v(out@) =~= before.push(ast::expr_v(x)));
            }
        }
        Ok(out)
    }

    /// Bindings up to a closing bracket.
    fn parse_bindings(&mut self) -> (r: Result<Vec<Binding>, ParseError>)
        ensures
            final(self).tokens() == old(self).tokens(),
            final(self).place() >= old(self).place(),
            match r {
                Ok(x) => grammar::p_bindings(old(self).tokens(), old(self).place(), Seq::empty()) == ParsedV::Got(ast::bindings_v(x@), final(self).place()),
                Err(e) => grammar::p_bindings(old(self).tokens(), old(self).place(), Seq::empty()) == ParsedV::<Seq<BindingV>>::Bad(e@, final(self).place()),
            },
        decreases grammar::left(old(self).tokens(), old(self).place()), 2nat,
    {
        let mut out: Vec<Binding> = Vec::new();
        proof {
            assert(ast::bindings_v(out@) =~= Seq::empty());
        }
        while !self.sees(&Token::RBracket)
            invariant
                self.tokens() == old(self).tokens(),
                self.place() >= old(self).place(),
                grammar::p_bindings(old(self).tokens(), old(self).place(), Seq::empty()) == grammar::p_bindings(self.tokens(), self.place(), ast::bindings_v(out@)),
            decreases grammar::left(self.tokens(), self.place()),
        {
            if self.peek().is_none() {
                return Err(ParseError::UnexpectedEof);
            }
            let x = self.parse_binding()?;
            self.skip_comma();
            let ghost before = ast::bindings_v(out@);
            out.push(x);
            proof {
                assert(ast::bindings_v(out@) =~= before.push(ast::binding_v(x)));
            }
        }
        Ok(out)
    }

    /// `x: T v`
    fn parse_binding(&mut self) -> (r: Result<Binding, ParseError>)
        ensures
            final(self).tokens() == old(self).tokens(),
            final(self).place() >= old(self).place(),
            r is Ok ==> final(self).place() > old(self).place(),
            match r {
                Ok(x) => grammar::p_binding(old(self).tokens(), old(self).place()) == ParsedV::Got(ast::binding_v(x), final(self).place()),
                Err(e) => grammar::p_binding(old(self).tokens(), old(self).place()) == ParsedV::<BindingV>::Bad(e@, final(self).place()),
            },
        decreases grammar::left(old(self).tokens(), old(self).place()), 0nat,
    {
        let (name, span) = self.name()?;
        self.eat(&Token::Colon)?;
        let ty = self.parse_type()?;
        let value = self.parse_expr()?;
        let end: usize = value.span.end;
        Ok(Binding { name, ty, value, span: Span::new(span.start, end) })
    }

    /// Match arms up to a closing parenthesis.
    fn parse_arms(&mut self) -> (r: Result<Vec<MatchArm>, ParseError>)
        ensures
            final(self).tokens() == old(self).tokens(),
            final(self).place() >= old(self).place(),
            match r {
                Ok(x) => grammar::p_arms(old(self).tokens(), old(self).place(), Seq::empty()) == ParsedV::Got(ast::arms_v(x@), final(self).place()),
                Err(e) => grammar::p_arms(old(self).tokens(), old(self).place(), Seq::empty()) == ParsedV::<Seq<MatchArmV>>::Bad(e@, final(self).place()),
            },
        decreases grammar::left(old(self).tokens(), old(self).place()), 2nat,
    {
        let mut out: Vec<MatchArm> = Vec::new();
        proof {
            assert(ast::arms_v(out@) =~= Seq::empty());
        }
        while !self.sees(&Token::RParen)
            invariant
                self.tokens() == old(self).tokens(),
                self.place() >= old(self).place(),
                grammar::p_arms(old(self).tokens(), old(self).place(), Seq::empty()) == grammar::p_arms(self.tokens(), self.place(), ast::arms_v(out@)),
            decreases grammar::left(self.tokens(), self.place()),
        {
            if self.peek().is_none() {
                return Err(ParseError::UnexpectedEof);
            }
            let x = self.parse_match_arm()?;
            let ghost before = ast::arms_v(out@);
            out.push(x);
            proof {
                assert(ast::arms_v(out@) =~= before.push(ast::arm_v(x)));
            }
        }
        Ok(out)
    }

    /// `(Variant body)` or `(Variant x body)`
    fn parse_match_arm(&mut self) -> (r: Result<MatchArm, ParseError>)
        ensures
            final(self).tokens() == old(self).tokens(),
            final(self).place() >= old(self).place(),
            r is Ok ==> final(self).place() > old(self).place(),
            match r {
                Ok(x) => grammar::p_arm(old(self).tokens(), old(self).place()) == ParsedV::Got(ast::arm_v(x), final(self).place()),
                Err(e) => grammar::p_arm(old(self).tokens(), old(self).place()) == ParsedV::<MatchArmV>::Bad(e@, final(self).place()),
            },
        decreases grammar::left(old(self).tokens(), old(self).place()), 0nat,
    {
        let lp = self.eat(&Token::LParen)?;
        let (variant, _) = self.name()?;
        let (binding, body) = self.parse_arm_body()?;
        let rp = self.eat(&Token::RParen)?;
        Ok(MatchArm { variant, binding, body, span: Span::new(lp.start, rp.end) })
    }

    /// What stands behind the variant of an arm: a body, or a name and a body.
    fn parse_arm_body(&mut self) -> (r: Result<(Option<String>, Expr), ParseError>)
        ensures
            final(self).tokens() == old(self).tokens(),
            final(self).place() >= old(self).place(),
            r is Ok ==> final(self).place() > old(self).place(),
            match r {
                Ok(x) => grammar::p_arm_body(old(self).tokens(), old(self).place()) == ParsedV::Got((x.0.deep_view(), x.1@), final(self).place()),
                Err(e) => grammar::p_arm_body(old(self).tokens(), old(self).place()) == ParsedV::<(Option<Seq<char>>, ExprV)>::Bad(e@, final(self).place()),
            },
        decreases grammar::left(old(self).tokens(), old(self).place()), 3nat,
    {
        match self.peek() {
            None => Err(ParseError::UnexpectedEof),
            Some(s) => match &s.tok {
                Token::RParen => Err(
                    ParseError::Expected {
                        expected: "match arm body",
                        found: String::from_str("')'"),
                        at: s.span.start,
                    },
                ),
                Token::Ident(id) => {
                    self.bump();
                    if self.sees(&Token::RParen) {
                        Ok((None, Expr::new(ExprKind::Var(id.clone()), s.span)))
                    } else {
                        let body = self.parse_expr()?;
                        Ok((Some(id.clone()), body))
                    }
                },
                _ => {
                    let body = self.parse_expr()?;
                    Ok((None, body))
                },
            },
        }
    }

    /// `x: T`
    fn parse_param(&mut self) -> (r: Result<Param, ParseError>)
        ensures
            final(self).tokens() == old(self).tokens(),
            final(self).place() >= old(self).place(),
            r is Ok ==> final(self).place() > old(self).place(),
            reads(r, final(self).place(), grammar::p_param(old(self).tokens(), old(self).place())),
    {
        let (name, span) = self.name()?;
        self.eat(&Token::Colon)?;
        let ty = self.parse_type()?;
        let end: usize = self.last_end(span.start);
        Ok(Param { name, ty, span: Span::new(span.start, end) })
    }

    /// `x: T`, as a field of a struct.
    fn parse_field_def(&mut self) -> (r: Result<FieldDef, ParseError>)
        ensures
            final(self).tokens() == old(self).tokens(),
            final(self).place() >= old(self).place(),
            r is Ok ==> final(self).place() > old(self).place(),
            reads(r, final(self).place(), grammar::p_field_def(old(self).tokens(), old(self).place())),
    {
        let (name, span) = self.name()?;
        self.eat(&Token::Colon)?;
        let ty = self.parse_type()?;
        let end: usize = self.last_end(span.start);
        Ok(FieldDef { name, ty, span: Span::new(span.start, end) })
    }

    /// `Variant` or `Variant T`
    fn parse_variant_def(&mut self) -> (r: Result<VariantDef, ParseError>)
        ensures
            final(self).tokens() == old(self).tokens(),
            final(self).place() >= old(self).place(),
            r is Ok ==> final(self).place() > old(self).place(),
            reads(r, final(self).place(), grammar::p_variant_def(old(self).tokens(), old(self).place())),
    {
        let (name, span) = self.name()?;
        let payload = if self.peek_is_type_start() {
            Some(self.parse_type()?)
        } else {
            None
        };
        let end: usize = self.last_end(span.start);
        Ok(VariantDef { name, payload, span: Span::new(span.start, end) })
    }

    /// Whether a payload type comes next: a parenthesis or the name of a built-in type.
    fn peek_is_type_start(&self) -> (r: bool)
        ensures
            r == grammar::type_starts(self.tokens(), self.place()),
    {
        match self.peek() {
            None => false,
            Some(s) => match &s.tok {
                Token::LParen => true,
                Token::Ident(n) => {
                    let t = type_of_name(n);
                    !matches!(t, Type::Named(_))
                },
                _ => false,
            },
        }
    }

    /// Whether a bare `self`, without a type, comes next.
    fn sees_bare_self(&self) -> (r: bool)
        ensures
            r == grammar::bare_self(self.tokens(), self.place()),
    {
        match self.peek() {
            None => false,
            Some(s) => match &s.tok {
                Token::Ident(n) => {
                    if same_text(n.as_str(), "self") {
                        if self.toks.len() - self.pos > 1 {
                            let next = &self.toks[self.pos + 1];
                            assert(next@ == self.tokens()[self.pos + 1]);
                            !alike(&next.tok, &Token::Colon)
                        } else {
                            true
                        }
                    } else {
                        false
                    }
                },
                _ => false,
            },
        }
    }

    /// Whether two bracketed lists follow: type parameters, then parameters.
    fn sees_two_lists(&self) -> (r: bool)
        ensures
            r == grammar::two_lists(self.tokens(), self.place()),
    {
        if !self.sees(&Token::LBracket) {
            return false;
        }
        let mut i: usize = self.pos;
        while i < self.toks.len() && !alike(&self.toks[i].tok, &Token::RBracket)
            invariant
                i >= self.pos,
                i <= self.toks@.len(),
                grammar::next_rbracket(self.tokens(), self.place()) == grammar::next_rbracket(self.tokens(), i as nat),
            decreases self.toks@.len() - i,
        {
            assert(self.toks@[i as int]@ == self.tokens()[i as int]);
            i = i + 1;
        }
        assert(i < self.toks@.len() ==> self.toks@[i as int]@ == self.tokens()[i as int]);
        if i < self.toks.len() && self.toks.len() - i > 1 {
            let next = &self.toks[i + 1];
            assert(next@ == self.tokens()[i + 1]);
            alike(&next.tok, &Token::LBracket)
        } else {
            false
        }
    }

    /// Fields up to a closing bracket.
    fn parse_field_defs(&mut self) -> (r: Result<Vec<FieldDef>, ParseError>)
        ensures
            final(self).tokens() == old(self).tokens(),
            final(self).place() >= old(self).place(),
            reads(r, final(self).place(), grammar::p_field_defs(old(self).tokens(), old(self).place(), Seq::empty())),
    {
        let mut out: Vec<FieldDef> = Vec::new();
        proof {
            assert(out.deep_view() =~= Seq::empty());
        }
        while !self.sees(&Token::RBracket)
            invariant
                self.tokens() == old(self).tokens(),
                self.place() >= old(self).place(),
                grammar::p_field_defs(old(self).tokens(), old(self).place(), Seq::empty()) == grammar::p_field_defs(self.tokens(), self.place(), out.deep_view()),
            decreases grammar::left(self.tokens(), self.place()),
        {
            if self.peek().is_none() {
                return Err(ParseError::UnexpectedEof);
            }
            let x = self.parse_field_def()?;
            self.skip_comma();
            let ghost before = out.deep_view();
            out.push(x);
            proof {
                assert(out.deep_view() =~= before.push(x.deep_view()));
            }
        }
        Ok(out)
    }

    /// Variants up to a closing parenthesis.
    fn parse_variant_defs(&mut self) -> (r: Result<Vec<VariantDef>, ParseError>)
        ensures
            final(self).tokens() == old(self).tokens(),
            final(self).place() >= old(self).place(),
            reads(r, final(self).place(), grammar::p_variant_defs(old(self).tokens(), old(self).place(), Seq::empty())),
    {
        let mut out: Vec<VariantDef> = Vec::new();
        proof {
            assert(out.deep_view() =~= Seq::empty());
        }
        while !self.sees(&Token::RParen)
            invariant
                self.tokens() == old(self).tokens(),
                self.place() >= old(self).place(),
                grammar::p_variant_defs(old(self).tokens(), old(self).place(), Seq::empty()) == grammar::p_variant_defs(self.tokens(), self.place(), out.deep_view()),
            decreases grammar::left(self.tokens(), self.place()),
        {
            if self.peek().is_none() {
                return Err(ParseError::UnexpectedEof);
            }
            let x = self.parse_variant_def()?;
            let ghost before = out.deep_view();
            out.push(x);
            proof {
                assert(out.deep_view() =~= before.push(x.deep_view()));
            }
        }
        Ok(out)
    }

    /// `T` or `T: Trait`
    fn parse_type_param(&mut self) -> (r: Result<(String, Option<String>), ParseError>)
        ensures
            final(self).tokens() == old(self).tokens(),
            final(self).place() >= old(self).place(),
            r is Ok ==> final(self).place() > old(self).place(),
            reads(r, final(self).place(), grammar::p_type_param(old(self).tokens(), old(self).place())),
    {
        let (name, _) = self.name()?;
        if self.sees(&Token::Colon) {
            self.bump();
            let (bound, _) = self.name()?;
            Ok((name, Some(bound)))
        } else {
            Ok((name, None))
        }
    }

    /// Type parameters up to a closing bracket.
    fn parse_type_params(&mut self) -> (r: Result<Vec<(String, Option<String>)>, ParseError>)
        ensures
            final(self).tokens() == old(self).tokens(),
            final(self).place() >= old(self).place(),
            reads(r, final(self).place(), grammar::p_type_params(old(self).tokens(), old(self).place(), Seq::empty())),
    {
        let mut out: Vec<(String, Option<String>)> = Vec::new();
        proof {
            assert(out.deep_view() =~= Seq::empty());
        }
        while !self.sees(&Token::RBracket)
            invariant
                self.tokens() == old(self).tokens(),
                self.place() >= old(self).place(),
                grammar::p_type_params(old(self).tokens(), old(self).place(), Seq::empty()) == grammar::p_type_params(self.tokens(), self.place(), out.deep_view()),
            decreases grammar::left(self.tokens(), self.place()),
        {
            if self.peek().is_none() {
                return Err(ParseError::UnexpectedEof);
            }
            let x = self.parse_type_param()?;
            self.skip_comma();
            let ghost before = out.deep_view();
            out.push(x);
            proof {
                assert(out.deep_view() =~= before.push(x.deep_view()));
            }
        }
        Ok(out)
    }

    /// A name alone.
    fn plain_name(&mut self) -> (r: Result<String, ParseError>)
        ensures
            final(self).tokens() == old(self).tokens(),
            final(self).place() >= old(self).place(),
            r is Ok ==> final(self).place() > old(self).place(),
            reads(r, final(self).place(), grammar::p_plain_name(old(self).tokens(), old(self).place())),
    {
        let (name, _) = self.name()?;
        Ok(name)
    }

    /// Names up to a closing bracket.
    fn parse_names(&mut self) -> (r: Result<Vec<String>, ParseError>)
        ensures
            final(self).tokens() == old(self).tokens(),
            final(self).place() >= old(self).place(),
            reads(r, final(self).place(), grammar::p_names(old(self).tokens(), old(self).place(), Seq::empty())),
    {
        let mut out: Vec<String> = Vec::new();
        proof {
            assert(out.deep_view() =~= Seq::empty());
        }
        while !self.sees(&Token::RBracket)
            invariant
                self.tokens() == old(self).tokens(),
                self.place() >= old(self).place(),
                grammar::p_names(old(self).tokens(), old(self).place(), Seq::empty()) == grammar::p_names(self.tokens(), self.place(), out.deep_view()),
            decreases grammar::left(self.tokens(), self.place()),
        {
            if self.peek().is_none() {
                return Err(ParseError::UnexpectedEof);
            }
            let x = self.plain_name()?;
            self.skip_comma();
            let ghost before = out.deep_view();
            out.push(x);
            proof {
                assert(out.deep_view() =~= before.push(x.deep_view()));
            }
        }
        Ok(out)
    }

    /// Parameters up to a closing bracket, behind those in `out`.
    fn parse_params(&mut self, first: Vec<Param>) -> (r: Result<Vec<Param>, ParseError>)
        ensures
            final(self).tokens() == old(self).tokens(),
            final(self).place() >= old(self).place(),
            reads(
                r,
                final(self).place(),
                grammar::p_params(old(self).tokens(), old(self).place(), first.deep_view()),
            ),
    {
        let mut out: Vec<Param> = first;
        while !self.sees(&Token::RBracket)
            invariant
                self.tokens() == old(self).tokens(),
                self.place() >= old(self).place(),
                grammar::p_params(old(self).tokens(), old(self).place(), first.deep_view()) == grammar::p_params(
                    self.tokens(),
                    self.place(),
                    out.deep_view(),
                ),
            decreases grammar::left(self.tokens(), self.place()),
        {
            if self.peek().is_none() {
                return Err(ParseError::UnexpectedEof);
            }
            let x = self.parse_param()?;
            self.skip_comma();
            let ghost before = out.deep_view();
            out.push(x);
            proof {
                assert(out.deep_view() =~= before.push(x@));
            }
        }
        Ok(out)
    }

    /// `[x: T, ...]`
    fn parse_param_list(&mut self) -> (r: Result<Vec<Param>, ParseError>)
        ensures
            final(self).tokens() == old(self).tokens(),
            final(self).place() >= old(self).place(),
            r is Ok ==> final(self).place() > old(self).place(),
            reads(r, final(self).place(), grammar::p_param_list(old(self).tokens(), old(self).place())),
    {
        self.eat(&Token::LBracket)?;
        let none: Vec<Param> = Vec::new();
        assert(none.deep_view() =~= Seq::empty());
        let params = self.parse_params(none)?;
        self.eat(&Token::RBracket)?;
        Ok(params)
    }

    /// The parameter list of a method: the first one may be a bare `self`.
    fn parse_method_params(&mut self) -> (r: Result<Vec<Param>, ParseError>)
        ensures
            final(self).tokens() == old(self).tokens(),
            final(self).place() >= old(self).place(),
            r is Ok ==> final(self).place() > old(self).place(),
            reads(r, final(self).place(), grammar::p_method_params(old(self).tokens(), old(self).place())),
    {
        self.eat(&Token::LBracket)?;
        let mut first: Vec<Param> = Vec::new();
        assert(first.deep_view() =~= Seq::empty());
        if self.sees_bare_self() {
            if let Some(s) = self.bump() {
                let p = Param { name: String::from_str("self"), ty: Type::Unit, span: s.span };
                first.push(p);
                assert(first.deep_view() =~= seq![p@]);
            }
            self.skip_comma();
        }
        let params = self.parse_params(first)?;
        self.eat(&Token::RBracket)?;
        Ok(params)
    }

    /// `-> T`
    fn parse_ret(&mut self) -> (r: Result<Type, ParseError>)
        ensures
            final(self).tokens() == old(self).tokens(),
            final(self).place() >= old(self).place(),
            r is Ok ==> final(self).place() > old(self).place(),
            reads(r, final(self).place(), grammar::p_ret(old(self).tokens(), old(self).place())),
    {
        self.eat(&Token::Arrow)?;
        self.parse_type()
    }

    /// `Name [f: T, ...] )`
    fn parse_struct_body(&mut self, start: usize) -> (r: Result<StructDef, ParseError>)
        ensures
            final(self).tokens() == old(self).tokens(),
            final(self).place() >= old(self).place(),
            r is Ok ==> final(self).place() > old(self).place(),
            reads(r, final(self).place(), grammar::p_struct(old(self).tokens(), old(self).place(), start)),
    {
        let (name, _) = self.name()?;
        self.eat(&Token::LBracket)?;
        let fields = self.parse_field_defs()?;
        self.eat(&Token::RBracket)?;
        let rp = self.eat(&Token::RParen)?;
        Ok(StructDef { name, fields, span: Span::new(start, rp.end) })
    }

    /// `Name Variant* )`
    fn parse_enum_body(&mut self, start: usize) -> (r: Result<EnumDef, ParseError>)
        ensures
            final(self).tokens() == old(self).tokens(),
            final(self).place() >= old(self).place(),
            r is Ok ==> final(self).place() > old(self).place(),
            reads(r, final(self).place(), grammar::p_enum(old(self).tokens(), old(self).place(), start)),
    {
        let (name, _) = self.name()?;
        let variants = self.parse_variant_defs()?;
        let rp = self.eat(&Token::RParen)?;
        Ok(EnumDef { name, variants, span: Span::new(start, rp.end) })
    }

    /// `name: T value )`
    fn parse_def_body(&mut self, start: usize) -> (r: Result<Const, ParseError>)
        ensures
            final(self).tokens() == old(self).tokens(),
            final(self).place() >= old(self).place(),
            r is Ok ==> final(self).place() > old(self).place(),
            reads(r, final(self).place(), grammar::p_def(old(self).tokens(), old(self).place(), start)),
    {
        let (name, _) = self.name()?;
        self.eat(&Token::Colon)?;
        let ty = self.parse_type()?;
        let value = self.parse_expr()?;
        let rp = self.eat(&Token::RParen)?;
        Ok(Const { name, ty, value, span: Span::new(start, rp.end) })
    }

    /// `[T, U: Trait, ...]`
    fn parse_type_param_list(&mut self) -> (r: Result<Vec<(String, Option<String>)>, ParseError>)
        ensures
            final(self).tokens() == old(self).tokens(),
            final(self).place() >= old(self).place(),
            r is Ok ==> final(self).place() > old(self).place(),
            reads(r, final(self).place(), grammar::p_type_param_list(old(self).tokens(), old(self).place())),
    {
        self.eat(&Token::LBracket)?;
        let type_params = self.parse_type_params()?;
        self.eat(&Token::RBracket)?;
        Ok(type_params)
    }

    /// `name [x: T, ...] -> R body )` or `name [T, ...] [x: T, ...] -> R body )`
    fn parse_defn_body(&mut self, start: usize) -> (r: Result<TopLevel, ParseError>)
        ensures
            final(self).tokens() == old(self).tokens(),
            final(self).place() >= old(self).place(),
            r is Ok ==> final(self).place() > old(self).place(),
            reads(r, final(self).place(), grammar::p_defn(old(self).tokens(), old(self).place(), start)),
    {
        let (name, _) = self.name()?;
        if self.sees_two_lists() {
            let type_params = self.parse_type_param_list()?;
            let params = self.parse_param_list()?;
            let ret = self.parse_ret()?;
            let body = self.parse_expr()?;
            let rp = self.eat(&Token::RParen)?;
            let span = Span::new(start, rp.end);
            Ok(
                TopLevel::GenericFunction(
                    GenericFunction { name, type_params, params, ret, body, span },
                ),
            )
        } else {
            let params = self.parse_param_list()?;
            let ret = self.parse_ret()?;
            let body = self.parse_expr()?;
            let rp = self.eat(&Token::RParen)?;
            let span = Span::new(start, rp.end);
            Ok(TopLevel::Function(Function { name, params, ret, body, span }))
        }
    }

    /// A string literal.
    fn parse_str(&mut self) -> (r: Result<String, ParseError>)
        ensures
            final(self).tokens() == old(self).tokens(),
            final(self).place() >= old(self).place(),
            r is Ok ==> final(self).place() > old(self).place(),
            reads(r, final(self).place(), grammar::p_str(old(self).tokens(), old(self).place())),
    {
        if let Some(s) = self.peek() {
            if let Token::Str(v) = &s.tok {
                self.bump();
                return Ok(v.clone());
            }
        }
        let none = String::new();
        let want = Token::Str(none);
        self.eat(&want)?;
        Ok(String::new())
    }

    /// `"C" name [x: T, ...] -> R )`
    fn parse_foreign_body(&mut self, start: usize) -> (r: Result<ExternFn, ParseError>)
        ensures
            final(self).tokens() == old(self).tokens(),
            final(self).place() >= old(self).place(),
            r is Ok ==> final(self).place() > old(self).place(),
            reads(r, final(self).place(), grammar::p_foreign(old(self).tokens(), old(self).place(), start)),
    {
        let abi = self.parse_str()?;
        let (name, _) = self.name()?;
        let params = self.parse_param_list()?;
        let ret = self.parse_ret()?;
        let rp = self.eat(&Token::RParen)?;
        Ok(ExternFn { abi, name, params, ret, span: Span::new(start, rp.end) })
    }

    /// `(method [self ...] -> T)`
    fn parse_sig(&mut self) -> (r: Result<MethodSig, ParseError>)
        ensures
            final(self).tokens() == old(self).tokens(),
            final(self).place() >= old(self).place(),
            r is Ok ==> final(self).place() > old(self).place(),
            reads(r, final(self).place(), grammar::p_sig(old(self).tokens(), old(self).place())),
    {
        let lp = self.eat(&Token::LParen)?;
        let (name, _) = self.name()?;
        let params = self.parse_method_params()?;
        let ret = self.parse_ret()?;
        let rp = self.eat(&Token::RParen)?;
        Ok(MethodSig { name, params, ret, span: Span::new(lp.start, rp.end) })
    }

    /// Method signatures up to a closing parenthesis.
    fn parse_sigs(&mut self) -> (r: Result<Vec<MethodSig>, ParseError>)
        ensures
            final(self).tokens() == old(self).tokens(),
            final(self).place() >= old(self).place(),
            reads(r, final(self).place(), grammar::p_sigs(old(self).tokens(), old(self).place(), Seq::empty())),
    {
        let mut out: Vec<MethodSig> = Vec::new();
        proof {
            assert(out.deep_view() =~= Seq::empty());
        }
        while !self.sees(&Token::RParen)
            invariant
                self.tokens() == old(self).tokens(),
                self.place() >= old(self).place(),
                grammar::p_sigs(old(self).tokens(), old(self).place(), Seq::empty()) == grammar::p_sigs(self.tokens(), self.place(), out.deep_view()),
            decreases grammar::left(self.tokens(), self.place()),
        {
            if self.peek().is_none() {
                return Err(ParseError::UnexpectedEof);
            }
            let x = self.parse_sig()?;
            let ghost before = out.deep_view();
            out.push(x);
            proof {
                assert(out.deep_view() =~= before.push(x.deep_view()));
            }
        }
        Ok(out)
    }

    /// `Name (method ...)* )`
    fn parse_trait_body(&mut self, start: usize) -> (r: Result<TraitDef, ParseError>)
        ensures
            final(self).tokens() == old(self).tokens(),
            final(self).place() >= old(self).place(),
            r is Ok ==> final(self).place() > old(self).place(),
            reads(r, final(self).place(), grammar::p_trait(old(self).tokens(), old(self).place(), start)),
    {
        let (name, _) = self.name()?;
        let methods = self.parse_sigs()?;
        let rp = self.eat(&Token::RParen)?;
        Ok(TraitDef { name, methods, span: Span::new(start, rp.end) })
    }

    /// `(method [self ...] -> T body)`
    fn parse_method(&mut self) -> (r: Result<Function, ParseError>)
        ensures
            final(self).tokens() == old(self).tokens(),
            final(self).place() >= old(self).place(),
            r is Ok ==> final(self).place() > old(self).place(),
            reads(r, final(self).place(), grammar::p_method(old(self).tokens(), old(self).place())),
    {
        let lp = self.eat(&Token::LParen)?;
        let (name, _) = self.name()?;
        let params = self.parse_method_params()?;
        let ret = self.parse_ret()?;
        let body = self.parse_expr()?;
        let rp = self.eat(&Token::RParen)?;
        Ok(Function { name, params, ret, body, span: Span::new(lp.start, rp.end) })
    }

    /// Methods up to a closing parenthesis.
    fn parse_methods(&mut self) -> (r: Result<Vec<Function>, ParseError>)
        ensures
            final(self).tokens() == old(self).tokens(),
            final(self).place() >= old(self).place(),
            reads(r, final(self).place(), grammar::p_methods(old(self).tokens(), old(self).place(), Seq::empty())),
    {
        let mut out: Vec<Function> = Vec::new();
        proof {
            assert(out.deep_view() =~= Seq::empty());
        }
        while !self.sees(&Token::RParen)
            invariant
                self.tokens() == old(self).tokens(),
                self.place() >= old(self).place(),
                grammar::p_methods(old(self).tokens(), old(self).place(), Seq::empty()) == grammar::p_methods(self.tokens(), self.place(), out.deep_view()),
            decreases grammar::left(self.tokens(), self.place()),
        {
            if self.peek().is_none() {
                return Err(ParseError::UnexpectedEof);
            }
            let x = self.parse_method()?;
            let ghost before = out.deep_view();
            out.push(x);
            proof {
                assert(out.deep_view() =~= before.push(x.deep_view()));
            }
        }
        Ok(out)
    }

    /// The word `for`.
    fn parse_for(&mut self) -> (r: Result<Span, ParseError>)
        ensures
            final(self).tokens() == old(self).tokens(),
            final(self).place() >= old(self).place(),
            r is Ok ==> final(self).place() > old(self).place(),
            match r {
                Ok(x) => grammar::p_for(old(self).tokens(), old(self).place()) == ParsedV::Got(x, final(self).place()),
                Err(e) => grammar::p_for(old(self).tokens(), old(self).place()) == ParsedV::<Span>::Bad(e@, final(self).place()),
            },
    {
        match self.peek() {
            None => Err(ParseError::UnexpectedEof),
            Some(s) => {
                if let Token::Ident(n) = &s.tok {
                    if same_text(n.as_str(), "for") {
                        self.bump();
                        return Ok(s.span);
                    }
                }
                Err(
                    ParseError::Expected {
                        expected: "'for'",
                        found: describe(&s.tok),
                        at: s.span.start,
                    },
                )
            },
        }
    }

    /// `Name for T (method ...)* )`
    fn parse_impl_body(&mut self, start: usize) -> (r: Result<ImplBlock, ParseError>)
        ensures
            final(self).tokens() == old(self).tokens(),
            final(self).place() >= old(self).place(),
            r is Ok ==> final(self).place() > old(self).place(),
            reads(r, final(self).place(), grammar::p_impl(old(self).tokens(), old(self).place(), start)),
    {
        let (trait_name, _) = self.name()?;
        self.parse_for()?;
        let for_ty = self.parse_type()?;
        let methods = self.parse_methods()?;
        let rp = self.eat(&Token::RParen)?;
        Ok(ImplBlock { trait_name, for_ty, methods, span: Span::new(start, rp.end) })
    }

    /// `name [x ...] template )`
    fn parse_defmacro_body(&mut self, start: usize) -> (r: Result<MacroDef, ParseError>)
        ensures
            final(self).tokens() == old(self).tokens(),
            final(self).place() >= old(self).place(),
            r is Ok ==> final(self).place() > old(self).place(),
            reads(r, final(self).place(), grammar::p_defmacro(old(self).tokens(), old(self).place(), start)),
    {
        let (name, _) = self.name()?;
        self.eat(&Token::LBracket)?;
        let params = self.parse_names()?;
        self.eat(&Token::RBracket)?;
        let template = self.parse_expr()?;
        let rp = self.eat(&Token::RParen)?;
        Ok(MacroDef { name, params, template, span: Span::new(start, rp.end) })
    }

    /// `name )`
    fn lone_name(&mut self, start: usize) -> (r: Result<(String, Span), ParseError>)
        ensures
            final(self).tokens() == old(self).tokens(),
            final(self).place() >= old(self).place(),
            r is Ok ==> final(self).place() > old(self).place(),
            match r {
                Ok(x) => grammar::p_lone_name(old(self).tokens(), old(self).place(), start) == ParsedV::Got((x.0@, x.1), final(self).place()),
                Err(e) => grammar::p_lone_name(old(self).tokens(), old(self).place(), start) == ParsedV::<(Seq<char>, Span)>::Bad(e@, final(self).place()),
            },
    {
        let (name, _) = self.name()?;
        let rp = self.eat(&Token::RParen)?;
        Ok((name, Span::new(start, rp.end)))
    }

    /// A definition, which the word `head` begins.
    fn parse_item(&mut self, start: usize, head: &String, span: Span) -> (r: Result<TopLevel, ParseError>)
        ensures
            final(self).tokens() == old(self).tokens(),
            final(self).place() >= old(self).place(),
            r is Ok ==> final(self).place() > old(self).place(),
            reads(r, final(self).place(), grammar::p_item(old(self).tokens(), old(self).place(), start, head@, span)),
    {
        let h = head.as_str();
        if same_text(h, "defn") {
            self.parse_defn_body(start)
        } else if same_text(h, "def") {
            Ok(TopLevel::Const(self.parse_def_body(start)?))
        } else if same_text(h, "struct") {
            Ok(TopLevel::Struct(self.parse_struct_body(start)?))
        } else if same_text(h, "enum") {
            Ok(TopLevel::Enum(self.parse_enum_body(start)?))
        } else if same_text(h, "extern") {
            Ok(TopLevel::Extern(self.parse_foreign_body(start)?))
        } else if same_text(h, "trait") {
            Ok(TopLevel::Trait(self.parse_trait_body(start)?))
        } else if same_text(h, "impl") {
            Ok(TopLevel::Impl(self.parse_impl_body(start)?))
        } else if same_text(h, "defmacro") {
            Ok(TopLevel::DefMacro(self.parse_defmacro_body(start)?))
        } else if same_text(h, "module") {
            let (name, span) = self.lone_name(start)?;
            Ok(TopLevel::Module { name, span })
        } else if same_text(h, "import") {
            let (name, span) = self.lone_name(start)?;
            Ok(TopLevel::Import { name, span })
        } else {
            let mut s = String::from_str("top-level form ");
            s.append(quote(h).as_str());
            Err(ParseError::Unexpected(s, span.start))
        }
    }

    /// A definition at the top level.
    fn parse_toplevel(&mut self) -> (r: Result<TopLevel, ParseError>)
        ensures
            final(self).tokens() == old(self).tokens(),
            final(self).place() >= old(self).place(),
            r is Ok ==> final(self).place() > old(self).place(),
            reads(r, final(self).place(), grammar::p_toplevel(old(self).tokens(), old(self).place())),
    {
        let lp = self.eat(&Token::LParen)?;
        let (head, span) = self.name()?;
        self.parse_item(lp.start, &head, span)
    }

    /// Reads definitions up to the end.
    pub fn parse_program(&mut self) -> (r: Result<Program, ParseError>)
        ensures
            final(self).tokens() == old(self).tokens(),
            reads(
                r,
                final(self).place(),
                grammar::p_program(old(self).tokens(), old(self).place(), Seq::empty()),
            ),
    {
        let mut items: Vec<TopLevel> = Vec::new();
        proof {
            assert(items.deep_view() =~= Seq::empty());
        }
        while self.peek().is_some()
            invariant
                self.tokens() == old(self).tokens(),
                grammar::p_program(old(self).tokens(), old(self).place(), Seq::empty()) == grammar::p_program(
                    self.tokens(),
                    self.place(),
                    items.deep_view(),
                ),
            decreases grammar::left(self.tokens(), self.place()),
        {
            let x = self.parse_toplevel()?;
            let ghost before = items.deep_view();
            items.push(x);
            proof {
                assert(items.deep_view() =~= before.push(x@));
            }
        }
        Ok(Program { items })
    }
}

/// Parses a program.
pub fn parse(src: &str) -> (r: Result<Program, FrontendError>)
    ensures
        text::outcome(r) == grammar::parse_text(src@),
{
    match lex(src) {
        Err(e) => Err(FrontendError::Lex(e)),
        Ok(toks) => {
            let mut p = Parser::new(toks.as_slice());
            assert(p.tokens() =~= toks.deep_view());
            match p.parse_program() {
                Ok(x) => Ok(x),
                Err(e) => Err(FrontendError::Parse(e)),
            }
        },
    }
}

/// Parses a text that holds one expression.
pub fn parse_expr_src(src: &str) -> (r: Result<Expr, FrontendError>)
    ensures
        text::outcome(r) == grammar::parse_expr_text(src@),
{
    match lex(src) {
        Err(e) => Err(FrontendError::Lex(e)),
        Ok(toks) => {
            let mut p = Parser::new(toks.as_slice());
            assert(p.tokens() =~= toks.deep_view());
            match p.parse_expr() {
                Err(e) => Err(FrontendError::Parse(e)),
                Ok(x) => match p.peek() {
                    None => Ok(x),
                    Some(s) => Err(
                        FrontendError::Parse(ParseError::Unexpected(describe(&s.tok), s.span.start)),
                    ),
                },
            }
        },
    }
}

} // verus!
