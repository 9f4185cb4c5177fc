//! The written form of expressions: the words of a program, in order, each with what it
//! stands for. The laws of the other modules say what their operations do to it.
use crate::ast::{BindingV, ExprKindV, ExprV, FloatKind, IntKind, LitV, MatchArmV, TypeV};
use crate::lexer::{FloatSuffix, IntSuffix, TokenV};
use vstd::prelude::*;

verus! {

/// A word of a program.
#[verifier::ext_equal]
pub enum PieceV {
    /// A bracket, a keyword or a literal.
    Tok(TokenV),
    /// The use of a variable or a constant.
    Var(Seq<char>),
    /// What is called.
    Callee(Seq<char>),
    /// A variable that is bound or assigned, or a field.
    Name(Seq<char>),
    /// The variant of a match arm.
    Variant(Seq<char>),
    /// The name of a type of the program, or of a type parameter.
    TypeName(Seq<char>),
}

/// The token that a word is.
pub open spec fn token(p: PieceV) -> TokenV {
    match p {
        PieceV::Tok(t) => t,
        PieceV::Var(n) => TokenV::Ident(n),
        PieceV::Callee(n) => TokenV::Ident(n),
        PieceV::Name(n) => TokenV::Ident(n),
        PieceV::Variant(n) => TokenV::Ident(n),
        PieceV::TypeName(n) => TokenV::Ident(n),
    }
}

pub open spec fn word(w: Seq<char>) -> PieceV {
    PieceV::Tok(TokenV::Ident(w))
}

/// The start of a form.
pub open spec fn opened(w: Seq<char>) -> Seq<PieceV> {
    seq![PieceV::Tok(TokenV::LParen), word(w)]
}

pub open spec fn closed() -> Seq<PieceV> {
    seq![PieceV::Tok(TokenV::RParen)]
}

pub open spec fn one_piece(p: PieceV) -> Seq<PieceV> {
    seq![p]
}

pub open spec fn lit_token(l: LitV) -> TokenV {
    match l {
        LitV::Int(v, k) => TokenV::Int(
            v,
            match k {
                None => None,
                Some(IntKind::I32) => Some(IntSuffix::I32),
                Some(IntKind::I64) => Some(IntSuffix::I64),
            },
        ),
        LitV::Float(s, k) => TokenV::Float(
            s,
            match k {
                None => None,
                Some(FloatKind::F32) => Some(FloatSuffix::F32),
                Some(FloatKind::F64) => Some(FloatSuffix::F64),
            },
        ),
        LitV::Bool(b) => TokenV::Bool(b),
        LitV::Str(s) => TokenV::Str(s),
    }
}

/// `T` or `(Array T n)`
pub open spec fn type_pieces(t: TypeV) -> Seq<PieceV>
    decreases t,
{
    match t {
        TypeV::I32 => one_piece(word("i32"@)),
        TypeV::I64 => one_piece(word("i64"@)),
        TypeV::F32 => one_piece(word("f32"@)),
        TypeV::F64 => one_piece(word("f64"@)),
        TypeV::Bool => one_piece(word("bool"@)),
        TypeV::Str => one_piece(word("str"@)),
        TypeV::Unit => one_piece(word("unit"@)),
        TypeV::Array { elem, len } => opened("Array"@) + type_pieces(*elem) + one_piece(
            PieceV::Tok(TokenV::Int(len as i64, None)),
        ) + closed(),
        TypeV::Named(n) => one_piece(PieceV::TypeName(n)),
    }
}

/// The words of an expression.
pub open spec fn pieces(e: ExprV) -> Seq<PieceV>
    decreases e,
{
    pieces_kind(e.kind)
}

pub open spec fn pieces_kind(k: ExprKindV) -> Seq<PieceV>
    decreases k,
{
    match k {
        ExprKindV::Lit(l) => one_piece(PieceV::Tok(lit_token(l))),
        ExprKindV::Var(n) => one_piece(PieceV::Var(n)),
        ExprKindV::Break => opened("break"@) + closed(),
        ExprKindV::If { cond, then_branch, else_branch } => opened("if"@) + pieces(*cond) + pieces(
            *then_branch,
        ) + pieces(*else_branch) + closed(),
        ExprKindV::Let { bindings, body } => opened("let"@) + one_piece(
            PieceV::Tok(TokenV::LBracket),
        ) + pieces_bindings(bindings, bindings.len() as int) + one_piece(
            PieceV::Tok(TokenV::RBracket),
        ) + pieces(*body) + closed(),
        ExprKindV::Do(es) => opened("do"@) + pieces_all(es, es.len() as int) + closed(),
        ExprKindV::Cast { ty, expr } => opened("as"@) + type_pieces(ty) + pieces(*expr) + closed(),
        ExprKindV::Assign { name, value } => opened("set!"@) + one_piece(PieceV::Name(name)) + pieces(
            *value,
        ) + closed(),
        ExprKindV::While { cond, body } => opened("while"@) + pieces(*cond) + pieces(*body)
            + closed(),
        ExprKindV::Loop { body } => opened("loop"@) + pieces(*body) + closed(),
        ExprKindV::ArrayLit { elem_ty, elems } => opened("array"@) + type_pieces(elem_ty)
            + pieces_all(elems, elems.len() as int) + closed(),
        ExprKindV::Field { base, field } => opened("field"@) + pieces(*base) + one_piece(
            PieceV::Name(field),
        ) + closed(),
        ExprKindV::Match { scrutinee, arms } => opened("match"@) + pieces(*scrutinee) + pieces_arms(
            arms,
            arms.len() as int,
        ) + closed(),
        ExprKindV::Call { callee, args } => one_piece(PieceV::Tok(TokenV::LParen)) + one_piece(
            PieceV::Callee(callee),
        ) + pieces_all(args, args.len() as int) + closed(),
    }
}

/// The words of the first `n` expressions.
pub open spec fn pieces_all(es: Seq<ExprV>, n: int) -> Seq<PieceV>
    decreases es, n,
{
    if n <= 0 || n > es.len() {
        Seq::empty()
    } else {
        pieces_all(es, n - 1) + pieces(es[n - 1])
    }
}

/// `x: T v`
pub open spec fn pieces_binding(b: BindingV) -> Seq<PieceV>
    decreases b,
{
    one_piece(PieceV::Name(b.name)) + one_piece(PieceV::Tok(TokenV::Colon)) + type_pieces(b.ty)
        + pieces(b.value)
}

pub open spec fn pieces_bindings(bs: Seq<BindingV>, n: int) -> Seq<PieceV>
    decreases bs, n,
{
    if n <= 0 || n > bs.len() {
        Seq::empty()
    } else {
        pieces_bindings(bs, n - 1) + pieces_binding(bs[n - 1])
    }
}

/// What an arm binds.
pub open spec fn bound_piece(b: Option<Seq<char>>) -> Seq<PieceV> {
    match b {
        Some(n) => one_piece(PieceV::Name(n)),
        None => Seq::empty(),
    }
}

/// `(Variant body)` or `(Variant x body)`
pub open spec fn pieces_arm(a: MatchArmV) -> Seq<PieceV>
    decreases a,
{
    one_piece(PieceV::Tok(TokenV::LParen)) + one_piece(PieceV::Variant(a.variant)) + bound_piece(
        a.binding,
    ) + pieces(a.body) + closed()
}

pub open spec fn pieces_arms(arms: Seq<MatchArmV>, n: int) -> Seq<PieceV>
    decreases arms, n,
{
    if n <= 0 || n > arms.len() {
        Seq::empty()
    } else {
        pieces_arms(arms, n - 1) + pieces_arm(arms[n - 1])
    }
}

/// The first expressions do not depend on those behind them.
pub proof fn lemma_pieces_all_prefix(es: Seq<ExprV>, e: ExprV, n: int)
    requires
        n <= es.len(),
    ensures
        pieces_all(es.push(e), n) == pieces_all(es, n),
    decreases n,
{
    if n > 0 {
        lemma_pieces_all_prefix(es, e, n - 1);
    }
}

pub proof fn lemma_pieces_bindings_prefix(bs: Seq<BindingV>, b: BindingV, n: int)
    requires
        n <= bs.len(),
    ensures
        pieces_bindings(bs.push(b), n) == pieces_bindings(bs, n),
    decreases n,
{
    if n > 0 {
        lemma_pieces_bindings_prefix(bs, b, n - 1);
    }
}

pub proof fn lemma_pieces_arms_prefix(arms: Seq<MatchArmV>, a: MatchArmV, n: int)
    requires
        n <= arms.len(),
    ensures
        pieces_arms(arms.push(a), n) == pieces_arms(arms, n),
    decreases n,
{
    if n > 0 {
        lemma_pieces_arms_prefix(arms, a, n - 1);
    }
}

/// Words in place of words.
pub type Change = spec_fn(PieceV) -> Seq<PieceV>;

/// The words with `f` done to each.
#[verifier::opaque]
pub open spec fn changed(ps: Seq<PieceV>, f: Change) -> Seq<PieceV>
    decreases ps.len(),
{
    if ps.len() == 0 {
        Seq::empty()
    } else {
        changed(ps.drop_last(), f) + f(ps.last())
    }
}

pub proof fn lemma_changed_add(a: Seq<PieceV>, b: Seq<PieceV>, f: Change)
    ensures
        changed(a + b, f) == changed(a, f) + changed(b, f),
    decreases b.len(),
{
    reveal(changed);
    if b.len() == 0 {
        assert(a + b =~= a);
        assert(changed(a, f) + changed(b, f) =~= changed(a, f));
    } else {
        assert((a + b).drop_last() =~= a + b.drop_last());
        lemma_changed_add(a, b.drop_last(), f);
        assert(changed(a + b, f) =~= changed(a, f) + changed(b, f));
    }
}

/// Words that `f` keeps.
pub proof fn lemma_changed_same(ps: Seq<PieceV>, f: Change)
    requires
        forall|i: int| 0 <= i < ps.len() ==> f(#[trigger] ps[i]) == seq![ps[i]],
    ensures
        changed(ps, f) == ps,
    decreases ps.len(),
{
    reveal(changed);
    if ps.len() > 0 {
        let front = ps.drop_last();
        assert forall|i: int| 0 <= i < front.len() implies f(#[trigger] front[i]) == seq![front[i]] by {
            assert(front[i] == ps[i]);
        }
        lemma_changed_same(front, f);
        assert(f(ps[ps.len() - 1]) == seq![ps[ps.len() - 1]]);
        assert(changed(ps, f) =~= ps);
    }
}

pub proof fn lemma_changed_none(f: Change)
    ensures
        changed(Seq::empty(), f) == Seq::<PieceV>::empty(),
{
    reveal(changed);
}

pub proof fn lemma_changed_one(p: PieceV, f: Change)
    ensures
        changed(one_piece(p), f) == f(p),
{
    reveal(changed);
    let s = one_piece(p);
    assert(s.drop_last() =~= Seq::empty());
    assert(s.last() == p);
    assert(changed(s.drop_last(), f) =~= Seq::empty());
    assert(changed(s, f) =~= f(p));
}

} // verus!
