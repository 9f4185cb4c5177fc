//! Laws of the operations that rewrite expressions: what they do to the words that an
//! expression is written with.
use crate::ast::{BindingV, ExprKindV, ExprV, GenericFunctionV, MatchArmV, TypeV};
use crate::lexer::TokenV;
use crate::macroexpand;
use crate::prefix::Prefix;
use crate::prefix;
use crate::typing::Subst;
use crate::typing;
use crate::written::{Change, PieceV};
use crate::written;
use vstd::prelude::*;

verus! {

/// Whether a parameter is the last one of this name.
pub open spec fn stands_for(params: Seq<Seq<char>>, n: Seq<char>, k: int) -> bool {
    &&& 0 <= k < params.len()
    &&& params[k] == n
    &&& forall|j: int| k < j < params.len() ==> #[trigger] params[j] != n
}

/// The place of the last parameter of this name.
pub open spec fn place_of(params: Seq<Seq<char>>, n: Seq<char>) -> int {
    choose|k: int| stands_for(params, n, k)
}

/// The words of the argument in place of a variable that is a parameter; of several
/// parameters of one name the last counts.
pub open spec fn by_arguments(params: Seq<Seq<char>>, given: Seq<ExprV>) -> Change {
    |p: PieceV|
        match p {
            PieceV::Var(n) => if stands_for(params, n, place_of(params, n)) {
                written::pieces(given[place_of(params, n)])
            } else {
                seq![p]
            },
            _ => seq![p],
        }
}

/// What a parameter stands for.
proof fn lemma_argument_at(params: Seq<Seq<char>>, given: Seq<ExprV>, name: Seq<char>, n: int)
    requires
        0 <= n <= params.len() <= given.len(),
        forall|j: int| n <= j < params.len() ==> #[trigger] params[j] != name,
    ensures
        match macroexpand::argument(params, given, name, n) {
            Some(a) => exists|k: int| stands_for(params, name, k) && a == given[k],
            None => forall|k: int| !stands_for(params, name, k),
        },
    decreases n,
{
    if n > 0 {
        if params[n - 1] == name {
            assert(stands_for(params, name, n - 1));
        } else {
            lemma_argument_at(params, given, name, n - 1);
        }
    }
}

proof fn lemma_argument(params: Seq<Seq<char>>, given: Seq<ExprV>, name: Seq<char>)
    requires
        params.len() <= given.len(),
    ensures
        match macroexpand::argument_of(params, given, name) {
            Some(a) => exists|k: int| stands_for(params, name, k) && a == given[k],
            None => forall|k: int| !stands_for(params, name, k),
        },
        forall|j: int, k: int|
            stands_for(params, name, j) && stands_for(params, name, k) ==> j == k,
{
    lemma_argument_at(params, given, name, params.len() as int);
    assert forall|j: int, k: int| stands_for(params, name, j) && stands_for(params, name, k) implies j
        == k by {
        if j < k {
            assert(params[k] != name);
        } else if k < j {
            assert(params[j] != name);
        }
    }
}

proof fn kept_by_arguments(ps: Seq<PieceV>, params: Seq<Seq<char>>, given: Seq<ExprV>)
    requires
        forall|i: int| 0 <= i < ps.len() ==> !((#[trigger] ps[i]) is Var),
    ensures
        written::changed(ps, by_arguments(params, given)) == ps,
{
    written::lemma_changed_same(ps, by_arguments(params, given));
}

/// Types are made of brackets, names and lengths.
proof fn lemma_type_words(t: TypeV)
    ensures
        forall|i: int|
            0 <= i < written::type_pieces(t).len() ==> (#[trigger] written::type_pieces(t)[i]) is Tok
                || written::type_pieces(t)[i] is TypeName,
    decreases t,
{
    if let TypeV::Array { elem, len } = t {
        lemma_type_words(*elem);
    }
}

proof fn types_kept_by_arguments(t: TypeV, params: Seq<Seq<char>>, given: Seq<ExprV>)
    ensures
        written::changed(written::type_pieces(t), by_arguments(params, given)) == written::type_pieces(
            t,
        ),
{
    lemma_type_words(t);
    kept_by_arguments(written::type_pieces(t), params, given);
}

proof fn put(e: ExprV, params: Seq<Seq<char>>, given: Seq<ExprV>)
    requires
        params.len() <= given.len(),
    ensures
        written::changed(written::pieces(e), by_arguments(params, given)) == written::pieces(macroexpand::substituted(e, params, given)),
    decreases e, 2int,
{
    if let ExprKindV::Var(n) = e.kind {
        lemma_argument(params, given, n);
        let f = by_arguments(params, given);
        written::lemma_changed_one(PieceV::Var(n), f);
        assert(written::pieces(e) == written::one_piece(PieceV::Var(n)));
        let r = macroexpand::substituted(e, params, given);
        match macroexpand::argument_of(params, given, n) {
            Some(a) => {
                let k = choose|k: int| stands_for(params, n, k) && a == given[k];
                assert(stands_for(params, n, k));
                let j = place_of(params, n);
                assert(stands_for(params, n, j));
                assert(j == k);
                assert(f(PieceV::Var(n)) == written::pieces(given[j]));
                assert(r == a);
            },
            None => {
                assert(f(PieceV::Var(n)) == seq![PieceV::Var(n)]);
                assert(r.kind == e.kind);
                assert(written::pieces(r) == written::pieces_kind(e.kind));
            },
        }
    } else {
        assert(macroexpand::substituted(e, params, given).kind == macroexpand::substituted_kind(e.kind, params, given));
    }
    put_kind(e.kind, params, given);
}

#[verifier::rlimit(60)]
proof fn put_kind(k: ExprKindV, params: Seq<Seq<char>>, given: Seq<ExprV>)
    requires
        params.len() <= given.len(),
    ensures
        !(k is Var) ==> written::changed(written::pieces_kind(k), by_arguments(params, given)) == written::pieces_kind(macroexpand::substituted_kind(k, params, given)),
    decreases k, 1int,
{
    match k {
        ExprKindV::Lit(l) => {
            kept_by_arguments(written::one_piece(PieceV::Tok(written::lit_token(l))), params, given);
        },
        ExprKindV::Var(n) => {
        },
        ExprKindV::Break => {
            kept_by_arguments(written::opened("break"@), params, given);
            kept_by_arguments(written::closed(), params, given);
            written::lemma_changed_add(written::opened("break"@), written::closed(), by_arguments(params, given));
        },
        ExprKindV::If { cond, then_branch, else_branch } => {
            kept_by_arguments(written::opened("if"@), params, given);
            put(*cond, params, given);
            put(*then_branch, params, given);
            put(*else_branch, params, given);
            kept_by_arguments(written::closed(), params, given);
            written::lemma_changed_add(written::opened("if"@), written::pieces(*cond), by_arguments(params, given));
            written::lemma_changed_add(written::opened("if"@) + written::pieces(*cond), written::pieces(*then_branch), by_arguments(params, given));
            written::lemma_changed_add(written::opened("if"@) + written::pieces(*cond) + written::pieces(*then_branch), written::pieces(*else_branch), by_arguments(params, given));
            written::lemma_changed_add(written::opened("if"@) + written::pieces(*cond) + written::pieces(*then_branch) + written::pieces(*else_branch), written::closed(), by_arguments(params, given));
        },
        ExprKindV::Let { bindings, body } => {
            kept_by_arguments(written::opened("let"@), params, given);
            kept_by_arguments(written::one_piece(PieceV::Tok(TokenV::LBracket)), params, given);
            put_bindings(bindings, bindings.len() as int, params, given);
            kept_by_arguments(written::one_piece(PieceV::Tok(TokenV::RBracket)), params, given);
            put(*body, params, given);
            kept_by_arguments(written::closed(), params, given);
            written::lemma_changed_add(written::opened("let"@), written::one_piece(PieceV::Tok(TokenV::LBracket)), by_arguments(params, given));
            written::lemma_changed_add(written::opened("let"@) + written::one_piece(PieceV::Tok(TokenV::LBracket)), written::pieces_bindings(bindings, bindings.len() as int), by_arguments(params, given));
            written::lemma_changed_add(written::opened("let"@) + written::one_piece(PieceV::Tok(TokenV::LBracket)) + written::pieces_bindings(bindings, bindings.len() as int), written::one_piece(PieceV::Tok(TokenV::RBracket)), by_arguments(params, given));
            written::lemma_changed_add(written::opened("let"@) + written::one_piece(PieceV::Tok(TokenV::LBracket)) + written::pieces_bindings(bindings, bindings.len() as int) + written::one_piece(PieceV::Tok(TokenV::RBracket)), written::pieces(*body), by_arguments(params, given));
            written::lemma_changed_add(written::opened("let"@) + written::one_piece(PieceV::Tok(TokenV::LBracket)) + written::pieces_bindings(bindings, bindings.len() as int) + written::one_piece(PieceV::Tok(TokenV::RBracket)) + written::pieces(*body), written::closed(), by_arguments(params, given));
        },
        ExprKindV::Do(es) => {
            kept_by_arguments(written::opened("do"@), params, given);
            put_all(es, es.len() as int, params, given);
            kept_by_arguments(written::closed(), params, given);
            written::lemma_changed_add(written::opened("do"@), written::pieces_all(es, es.len() as int), by_arguments(params, given));
            written::lemma_changed_add(written::opened("do"@) + written::pieces_all(es, es.len() as int), written::closed(), by_arguments(params, given));
        },
        ExprKindV::Cast { ty, expr } => {
            kept_by_arguments(written::opened("as"@), params, given);
            types_kept_by_arguments(ty, params, given);
            put(*expr, params, given);
            kept_by_arguments(written::closed(), params, given);
            written::lemma_changed_add(written::opened("as"@), written::type_pieces(ty), by_arguments(params, given));
            written::lemma_changed_add(written::opened("as"@) + written::type_pieces(ty), written::pieces(*expr), by_arguments(params, given));
            written::lemma_changed_add(written::opened("as"@) + written::type_pieces(ty) + written::pieces(*expr), written::closed(), by_arguments(params, given));
        },
        ExprKindV::Assign { name, value } => {
            kept_by_arguments(written::opened("set!"@), params, given);
            kept_by_arguments(written::one_piece(PieceV::Name(name)), params, given);
            put(*value, params, given);
            kept_by_arguments(written::closed(), params, given);
            written::lemma_changed_add(written::opened("set!"@), written::one_piece(PieceV::Name(name)), by_arguments(params, given));
            written::lemma_changed_add(written::opened("set!"@) + written::one_piece(PieceV::Name(name)), written::pieces(*value), by_arguments(params, given));
            written::lemma_changed_add(written::opened("set!"@) + written::one_piece(PieceV::Name(name)) + written::pieces(*value), written::closed(), by_arguments(params, given));
        },
        ExprKindV::While { cond, body } => {
            kept_by_arguments(written::opened("while"@), params, given);
            put(*cond, params, given);
            put(*body, params, given);
            kept_by_arguments(written::closed(), params, given);
            written::lemma_changed_add(written::opened("while"@), written::pieces(*cond), by_arguments(params, given));
            written::lemma_changed_add(written::opened("while"@) + written::pieces(*cond), written::pieces(*body), by_arguments(params, given));
            written::lemma_changed_add(written::opened("while"@) + written::pieces(*cond) + written::pieces(*body), written::closed(), by_arguments(params, given));
        },
        ExprKindV::Loop { body } => {
            kept_by_arguments(written::opened("loop"@), params, given);
            put(*body, params, given);
            kept_by_arguments(written::closed(), params, given);
            written::lemma_changed_add(written::opened("loop"@), written::pieces(*body), by_arguments(params, given));
            written::lemma_changed_add(written::opened("loop"@) + written::pieces(*body), written::closed(), by_arguments(params, given));
        },
        ExprKindV::ArrayLit { elem_ty, elems } => {
            kept_by_arguments(written::opened("array"@), params, given);
            types_kept_by_arguments(elem_ty, params, given);
            put_all(elems, elems.len() as int, params, given);
            kept_by_arguments(written::closed(), params, given);
            written::lemma_changed_add(written::opened("array"@), written::type_pieces(elem_ty), by_arguments(params, given));
            written::lemma_changed_add(written::opened("array"@) + written::type_pieces(elem_ty), written::pieces_all(elems, elems.len() as int), by_arguments(params, given));
            written::lemma_changed_add(written::opened("array"@) + written::type_pieces(elem_ty) + written::pieces_all(elems, elems.len() as int), written::closed(), by_arguments(params, given));
        },
        ExprKindV::Field { base, field } => {
            kept_by_arguments(written::opened("field"@), params, given);
            put(*base, params, given);
            kept_by_arguments(written::one_piece(PieceV::Name(field)), params, given);
            kept_by_arguments(written::closed(), params, given);
            written::lemma_changed_add(written::opened("field"@), written::pieces(*base), by_arguments(params, given));
            written::lemma_changed_add(written::opened("field"@) + written::pieces(*base), written::one_piece(PieceV::Name(field)), by_arguments(params, given));
            written::lemma_changed_add(written::opened("field"@) + written::pieces(*base) + written::one_piece(PieceV::Name(field)), written::closed(), by_arguments(params, given));
        },
        ExprKindV::Match { scrutinee, arms } => {
            kept_by_arguments(written::opened("match"@), params, given);
            put(*scrutinee, params, given);
            put_arms(arms, arms.len() as int, params, given);
            kept_by_arguments(written::closed(), params, given);
            written::lemma_changed_add(written::opened("match"@), written::pieces(*scrutinee), by_arguments(params, given));
            written::lemma_changed_add(written::opened("match"@) + written::pieces(*scrutinee), written::pieces_arms(arms, arms.len() as int), by_arguments(params, given));
            written::lemma_changed_add(written::opened("match"@) + written::pieces(*scrutinee) + written::pieces_arms(arms, arms.len() as int), written::closed(), by_arguments(params, given));
        },
        ExprKindV::Call { callee, args } => {
            kept_by_arguments(written::one_piece(PieceV::Tok(TokenV::LParen)), params, given);
            kept_by_arguments(written::one_piece(PieceV::Callee(callee)), params, given);
            put_all(args, args.len() as int, params, given);
            kept_by_arguments(written::closed(), params, given);
            written::lemma_changed_add(written::one_piece(PieceV::Tok(TokenV::LParen)), written::one_piece(PieceV::Callee(callee)), by_arguments(params, given));
            written::lemma_changed_add(written::one_piece(PieceV::Tok(TokenV::LParen)) + written::one_piece(PieceV::Callee(callee)), written::pieces_all(args, args.len() as int), by_arguments(params, given));
            written::lemma_changed_add(written::one_piece(PieceV::Tok(TokenV::LParen)) + written::one_piece(PieceV::Callee(callee)) + written::pieces_all(args, args.len() as int), written::closed(), by_arguments(params, given));
        },
    }
}

proof fn put_all(xs: Seq<ExprV>, n: int, params: Seq<Seq<char>>, given: Seq<ExprV>)
    requires
        n <= xs.len(),
        params.len() <= given.len(),
    ensures
        written::changed(written::pieces_all(xs, n), by_arguments(params, given)) == written::pieces_all(macroexpand::substituted_all(xs, params, given), n),
    decreases xs, n,
{
    if n > 0 {
        put_all(xs, n - 1, params, given);
        put(xs[n - 1], params, given);
        assert(macroexpand::substituted_all(xs, params, given)[n - 1] == macroexpand::substituted(xs[n - 1], params, given));
        written::lemma_changed_add(written::pieces_all(xs, n - 1), written::pieces(xs[n - 1]), by_arguments(params, given));
    } else {
        written::lemma_changed_none(by_arguments(params, given));
    }
}

proof fn put_bindings(xs: Seq<BindingV>, n: int, params: Seq<Seq<char>>, given: Seq<ExprV>)
    requires
        n <= xs.len(),
        params.len() <= given.len(),
    ensures
        written::changed(written::pieces_bindings(xs, n), by_arguments(params, given)) == written::pieces_bindings(macroexpand::substituted_bindings(xs, params, given), n),
    decreases xs, n,
{
    if n > 0 {
        put_bindings(xs, n - 1, params, given);
        let x = xs[n - 1];
        kept_by_arguments(written::one_piece(PieceV::Name(x.name)), params, given);
        kept_by_arguments(written::one_piece(PieceV::Tok(TokenV::Colon)), params, given);
        types_kept_by_arguments(x.ty, params, given);
        put(x.value, params, given);
        written::lemma_changed_add(written::one_piece(PieceV::Name(x.name)), written::one_piece(PieceV::Tok(TokenV::Colon)), by_arguments(params, given));
        written::lemma_changed_add(written::one_piece(PieceV::Name(x.name)) + written::one_piece(PieceV::Tok(TokenV::Colon)), written::type_pieces(x.ty), by_arguments(params, given));
        written::lemma_changed_add(written::one_piece(PieceV::Name(x.name)) + written::one_piece(PieceV::Tok(TokenV::Colon)) + written::type_pieces(x.ty), written::pieces(x.value), by_arguments(params, given));
        let y = macroexpand::substituted_bindings(xs, params, given)[n - 1];
        assert(y == (BindingV { ty: x.ty, value: macroexpand::substituted(x.value, params, given), ..x }));
        assert(written::pieces_binding(y) == written::one_piece(PieceV::Name(x.name)) + written::one_piece(PieceV::Tok(TokenV::Colon)) + written::type_pieces(x.ty) + written::pieces(macroexpand::substituted(x.value, params, given)));
        written::lemma_changed_add(written::pieces_bindings(xs, n - 1), written::pieces_binding(x), by_arguments(params, given));
    } else {
        written::lemma_changed_none(by_arguments(params, given));
    }
}

proof fn put_arms(xs: Seq<MatchArmV>, n: int, params: Seq<Seq<char>>, given: Seq<ExprV>)
    requires
        n <= xs.len(),
        params.len() <= given.len(),
    ensures
        written::changed(written::pieces_arms(xs, n), by_arguments(params, given)) == written::pieces_arms(macroexpand::substituted_arms(xs, params, given), n),
    decreases xs, n,
{
    if n > 0 {
        put_arms(xs, n - 1, params, given);
        let x = xs[n - 1];
        kept_by_arguments(written::one_piece(PieceV::Tok(TokenV::LParen)), params, given);
        kept_by_arguments(written::one_piece(PieceV::Variant(x.variant)), params, given);
        kept_by_arguments(written::bound_piece(x.binding), params, given);
        put(x.body, params, given);
        kept_by_arguments(written::closed(), params, given);
        written::lemma_changed_add(written::one_piece(PieceV::Tok(TokenV::LParen)), written::one_piece(PieceV::Variant(x.variant)), by_arguments(params, given));
        written::lemma_changed_add(written::one_piece(PieceV::Tok(TokenV::LParen)) + written::one_piece(PieceV::Variant(x.variant)), written::bound_piece(x.binding), by_arguments(params, given));
        written::lemma_changed_add(written::one_piece(PieceV::Tok(TokenV::LParen)) + written::one_piece(PieceV::Variant(x.variant)) + written::bound_piece(x.binding), written::pieces(x.body), by_arguments(params, given));
        written::lemma_changed_add(written::one_piece(PieceV::Tok(TokenV::LParen)) + written::one_piece(PieceV::Variant(x.variant)) + written::bound_piece(x.binding) + written::pieces(x.body), written::closed(), by_arguments(params, given));
        let y = macroexpand::substituted_arms(xs, params, given)[n - 1];
        assert(y == (MatchArmV { variant: x.variant, body: macroexpand::substituted(x.body, params, given), ..x }));
        assert(written::pieces_arm(y) == written::one_piece(PieceV::Tok(TokenV::LParen)) + written::one_piece(PieceV::Variant(x.variant)) + written::bound_piece(x.binding) + written::pieces(macroexpand::substituted(x.body, params, given)) + written::closed());
        written::lemma_changed_add(written::pieces_arms(xs, n - 1), written::pieces_arm(x), by_arguments(params, given));
    } else {
        written::lemma_changed_none(by_arguments(params, given));
    }
}

/// Putting arguments into the template of a macro replaces, in the written form of the
/// template, every variable that is a parameter by the written form of its argument, and
/// changes no other word.
pub proof fn law_arguments_replace_parameters(
    template: ExprV,
    params: Seq<Seq<char>>,
    given: Seq<ExprV>,
)
    requires
        params.len() == given.len(),
    ensures
        written::pieces(macroexpand::substituted(template, params, given)) == written::changed(
            written::pieces(template),
            by_arguments(params, given),
        ),
{
    put(template, params, given);
}

/// A parameter by itself becomes its argument, whichever of the parameters it is.
pub proof fn law_parameter_becomes_its_argument(
    e: ExprV,
    params: Seq<Seq<char>>,
    given: Seq<ExprV>,
    k: int,
)
    requires
        params.len() == given.len(),
        0 <= k < params.len(),
        params.no_duplicates(),
        e.kind == ExprKindV::Var(params[k]),
    ensures
        macroexpand::substituted(e, params, given) == given[k],
{
    lemma_argument(params, given, params[k]);
    assert(stands_for(params, params[k], k));
}

/// The words of the type in place of a type parameter.
pub open spec fn by_types(subst: Subst) -> Change {
    |p: PieceV|
        match p {
            PieceV::TypeName(n) => if subst.contains_key(n) {
                written::type_pieces(subst[n])
            } else {
                seq![p]
            },
            _ => seq![p],
        }
}

proof fn kept_by_types(ps: Seq<PieceV>, subst: Subst)
    requires
        forall|i: int| 0 <= i < ps.len() ==> !((#[trigger] ps[i]) is TypeName),
    ensures
        written::changed(ps, by_types(subst)) == ps,
{
    written::lemma_changed_same(ps, by_types(subst));
}

proof fn retype_type(t: TypeV, subst: Subst)
    ensures
        written::changed(written::type_pieces(t), by_types(subst)) == written::type_pieces(
            typing::subst_in(t, subst),
        ),
    decreases t,
{
    match t {
        TypeV::Array { elem, len } => {
            let f = by_types(subst);
            let a = written::opened("Array"@);
            let b = written::type_pieces(*elem);
            let c = written::one_piece(PieceV::Tok(TokenV::Int(len as i64, None)));
            retype_type(*elem, subst);
            kept_by_types(a, subst);
            kept_by_types(c, subst);
            kept_by_types(written::closed(), subst);
            written::lemma_changed_add(a, b, f);
            written::lemma_changed_add(a + b, c, f);
            written::lemma_changed_add(a + b + c, written::closed(), f);
        },
        TypeV::Named(n) => {
            written::lemma_changed_one(PieceV::TypeName(n), by_types(subst));
        },
        _ => {
            kept_by_types(written::type_pieces(t), subst);
        },
    }
}

proof fn retype(e: ExprV, subst: Subst)
    ensures
        written::changed(written::pieces(e), by_types(subst)) == written::pieces(typing::subst_body(e, subst)),
    decreases e, 2int,
{
    retype_kind(e.kind, subst);
}

#[verifier::rlimit(60)]
proof fn retype_kind(k: ExprKindV, subst: Subst)
    ensures
        written::changed(written::pieces_kind(k), by_types(subst)) == written::pieces_kind(typing::subst_kind(k, subst)),
    decreases k, 1int,
{
    match k {
        ExprKindV::Lit(l) => {
            kept_by_types(written::one_piece(PieceV::Tok(written::lit_token(l))), subst);
        },
        ExprKindV::Var(n) => {
            kept_by_types(written::one_piece(PieceV::Var(n)), subst);
        },
        ExprKindV::Break => {
            kept_by_types(written::opened("break"@), subst);
            kept_by_types(written::closed(), subst);
            written::lemma_changed_add(written::opened("break"@), written::closed(), by_types(subst));
        },
        ExprKindV::If { cond, then_branch, else_branch } => {
            kept_by_types(written::opened("if"@), subst);
            retype(*cond, subst);
            retype(*then_branch, subst);
            retype(*else_branch, subst);
            kept_by_types(written::closed(), subst);
            written::lemma_changed_add(written::opened("if"@), written::pieces(*cond), by_types(subst));
            written::lemma_changed_add(written::opened("if"@) + written::pieces(*cond), written::pieces(*then_branch), by_types(subst));
            written::lemma_changed_add(written::opened("if"@) + written::pieces(*cond) + written::pieces(*then_branch), written::pieces(*else_branch), by_types(subst));
            written::lemma_changed_add(written::opened("if"@) + written::pieces(*cond) + written::pieces(*then_branch) + written::pieces(*else_branch), written::closed(), by_types(subst));
        },
        ExprKindV::Let { bindings, body } => {
            kept_by_types(written::opened("let"@), subst);
            kept_by_types(written::one_piece(PieceV::Tok(TokenV::LBracket)), subst);
            retype_bindings(bindings, bindings.len() as int, subst);
            kept_by_types(written::one_piece(PieceV::Tok(TokenV::RBracket)), subst);
            retype(*body, subst);
            kept_by_types(written::closed(), subst);
            written::lemma_changed_add(written::opened("let"@), written::one_piece(PieceV::Tok(TokenV::LBracket)), by_types(subst));
            written::lemma_changed_add(written::opened("let"@) + written::one_piece(PieceV::Tok(TokenV::LBracket)), written::pieces_bindings(bindings, bindings.len() as int), by_types(subst));
            written::lemma_changed_add(written::opened("let"@) + written::one_piece(PieceV::Tok(TokenV::LBracket)) + written::pieces_bindings(bindings, bindings.len() as int), written::one_piece(PieceV::Tok(TokenV::RBracket)), by_types(subst));
            written::lemma_changed_add(written::opened("let"@) + written::one_piece(PieceV::Tok(TokenV::LBracket)) + written::pieces_bindings(bindings, bindings.len() as int) + written::one_piece(PieceV::Tok(TokenV::RBracket)), written::pieces(*body), by_types(subst));
            written::lemma_changed_add(written::opened("let"@) + written::one_piece(PieceV::Tok(TokenV::LBracket)) + written::pieces_bindings(bindings, bindings.len() as int) + written::one_piece(PieceV::Tok(TokenV::RBracket)) + written::pieces(*body), written::closed(), by_types(subst));
        },
        ExprKindV::Do(es) => {
            kept_by_types(written::opened("do"@), subst);
            retype_all(es, es.len() as int, subst);
            kept_by_types(written::closed(), subst);
            written::lemma_changed_add(written::opened("do"@), written::pieces_all(es, es.len() as int), by_types(subst));
            written::lemma_changed_add(written::opened("do"@) + written::pieces_all(es, es.len() as int), written::closed(), by_types(subst));
        },
        ExprKindV::Cast { ty, expr } => {
            kept_by_types(written::opened("as"@), subst);
            retype_type(ty, subst);
            retype(*expr, subst);
            kept_by_types(written::closed(), subst);
            written::lemma_changed_add(written::opened("as"@), written::type_pieces(ty), by_types(subst));
            written::lemma_changed_add(written::opened("as"@) + written::type_pieces(ty), written::pieces(*expr), by_types(subst));
            written::lemma_changed_add(written::opened("as"@) + written::type_pieces(ty) + written::pieces(*expr), written::closed(), by_types(subst));
        },
        ExprKindV::Assign { name, value } => {
            kept_by_types(written::opened("set!"@), subst);
            kept_by_types(written::one_piece(PieceV::Name(name)), subst);
            retype(*value, subst);
            kept_by_types(written::closed(), subst);
            written::lemma_changed_add(written::opened("set!"@), written::one_piece(PieceV::Name(name)), by_types(subst));
            written::lemma_changed_add(written::opened("set!"@) + written::one_piece(PieceV::Name(name)), written::pieces(*value), by_types(subst));
            written::lemma_changed_add(written::opened("set!"@) + written::one_piece(PieceV::Name(name)) + written::pieces(*value), written::closed(), by_types(subst));
        },
        ExprKindV::While { cond, body } => {
            kept_by_types(written::opened("while"@), subst);
            retype(*cond, subst);
            retype(*body, subst);
            kept_by_types(written::closed(), subst);
            written::lemma_changed_add(written::opened("while"@), written::pieces(*cond), by_types(subst));
            written::lemma_changed_add(written::opened("while"@) + written::pieces(*cond), written::pieces(*body), by_types(subst));
            written::lemma_changed_add(written::opened("while"@) + written::pieces(*cond) + written::pieces(*body), written::closed(), by_types(subst));
        },
        ExprKindV::Loop { body } => {
            kept_by_types(written::opened("loop"@), subst);
            retype(*body, subst);
            kept_by_types(written::closed(), subst);
            written::lemma_changed_add(written::opened("loop"@), written::pieces(*body), by_types(subst));
            written::lemma_changed_add(written::opened("loop"@) + written::pieces(*body), written::closed(), by_types(subst));
        },
        ExprKindV::ArrayLit { elem_ty, elems } => {
            kept_by_types(written::opened("array"@), subst);
            retype_type(elem_ty, subst);
            retype_all(elems, elems.len() as int, subst);
            kept_by_types(written::closed(), subst);
            written::lemma_changed_add(written::opened("array"@), written::type_pieces(elem_ty), by_types(subst));
            written::lemma_changed_add(written::opened("array"@) + written::type_pieces(elem_ty), written::pieces_all(elems, elems.len() as int), by_types(subst));
            written::lemma_changed_add(written::opened("array"@) + written::type_pieces(elem_ty) + written::pieces_all(elems, elems.len() as int), written::closed(), by_types(subst));
        },
        ExprKindV::Field { base, field } => {
            kept_by_types(written::opened("field"@), subst);
            retype(*base, subst);
            kept_by_types(written::one_piece(PieceV::Name(field)), subst);
            kept_by_types(written::closed(), subst);
            written::lemma_changed_add(written::opened("field"@), written::pieces(*base), by_types(subst));
            written::lemma_changed_add(written::opened("field"@) + written::pieces(*base), written::one_piece(PieceV::Name(field)), by_types(subst));
            written::lemma_changed_add(written::opened("field"@) + written::pieces(*base) + written::one_piece(PieceV::Name(field)), written::closed(), by_types(subst));
        },
        ExprKindV::Match { scrutinee, arms } => {
            kept_by_types(written::opened("match"@), subst);
            retype(*scrutinee, subst);
            retype_arms(arms, arms.len() as int, subst);
            kept_by_types(written::closed(), subst);
            written::lemma_changed_add(written::opened("match"@), written::pieces(*scrutinee), by_types(subst));
            written::lemma_changed_add(written::opened("match"@) + written::pieces(*scrutinee), written::pieces_arms(arms, arms.len() as int), by_types(subst));
            written::lemma_changed_add(written::opened("match"@) + written::pieces(*scrutinee) + written::pieces_arms(arms, arms.len() as int), written::closed(), by_types(subst));
        },
        ExprKindV::Call { callee, args } => {
            kept_by_types(written::one_piece(PieceV::Tok(TokenV::LParen)), subst);
            kept_by_types(written::one_piece(PieceV::Callee(callee)), subst);
            retype_all(args, args.len() as int, subst);
            kept_by_types(written::closed(), subst);
            written::lemma_changed_add(written::one_piece(PieceV::Tok(TokenV::LParen)), written::one_piece(PieceV::Callee(callee)), by_types(subst));
            written::lemma_changed_add(written::one_piece(PieceV::Tok(TokenV::LParen)) + written::one_piece(PieceV::Callee(callee)), written::pieces_all(args, args.len() as int), by_types(subst));
            written::lemma_changed_add(written::one_piece(PieceV::Tok(TokenV::LParen)) + written::one_piece(PieceV::Callee(callee)) + written::pieces_all(args, args.len() as int), written::closed(), by_types(subst));
        },
    }
}

proof fn retype_all(xs: Seq<ExprV>, n: int, subst: Subst)
    requires
        n <= xs.len(),
    ensures
        written::changed(written::pieces_all(xs, n), by_types(subst)) == written::pieces_all(typing::subst_all(xs, subst), n),
    decreases xs, n,
{
    if n > 0 {
        retype_all(xs, n - 1, subst);
        retype(xs[n - 1], subst);
        assert(typing::subst_all(xs, subst)[n - 1] == typing::subst_body(xs[n - 1], subst));
        written::lemma_changed_add(written::pieces_all(xs, n - 1), written::pieces(xs[n - 1]), by_types(subst));
    } else {
        written::lemma_changed_none(by_types(subst));
    }
}

proof fn retype_bindings(xs: Seq<BindingV>, n: int, subst: Subst)
    requires
        n <= xs.len(),
    ensures
        written::changed(written::pieces_bindings(xs, n), by_types(subst)) == written::pieces_bindings(typing::subst_bindings(xs, subst), n),
    decreases xs, n,
{
    if n > 0 {
        retype_bindings(xs, n - 1, subst);
        let x = xs[n - 1];
        kept_by_types(written::one_piece(PieceV::Name(x.name)), subst);
        kept_by_types(written::one_piece(PieceV::Tok(TokenV::Colon)), subst);
        retype_type(x.ty, subst);
        retype(x.value, subst);
        written::lemma_changed_add(written::one_piece(PieceV::Name(x.name)), written::one_piece(PieceV::Tok(TokenV::Colon)), by_types(subst));
        written::lemma_changed_add(written::one_piece(PieceV::Name(x.name)) + written::one_piece(PieceV::Tok(TokenV::Colon)), written::type_pieces(x.ty), by_types(subst));
        written::lemma_changed_add(written::one_piece(PieceV::Name(x.name)) + written::one_piece(PieceV::Tok(TokenV::Colon)) + written::type_pieces(x.ty), written::pieces(x.value), by_types(subst));
        let y = typing::subst_bindings(xs, subst)[n - 1];
        assert(y == (BindingV { ty: typing::subst_in(x.ty, subst), value: typing::subst_body(x.value, subst), ..x }));
        assert(written::pieces_binding(y) == written::one_piece(PieceV::Name(x.name)) + written::one_piece(PieceV::Tok(TokenV::Colon)) + written::type_pieces(typing::subst_in(x.ty, subst)) + written::pieces(typing::subst_body(x.value, subst)));
        written::lemma_changed_add(written::pieces_bindings(xs, n - 1), written::pieces_binding(x), by_types(subst));
    } else {
        written::lemma_changed_none(by_types(subst));
    }
}

proof fn retype_arms(xs: Seq<MatchArmV>, n: int, subst: Subst)
    requires
        n <= xs.len(),
    ensures
        written::changed(written::pieces_arms(xs, n), by_types(subst)) == written::pieces_arms(typing::subst_arms(xs, subst), n),
    decreases xs, n,
{
    if n > 0 {
        retype_arms(xs, n - 1, subst);
        let x = xs[n - 1];
        kept_by_types(written::one_piece(PieceV::Tok(TokenV::LParen)), subst);
        kept_by_types(written::one_piece(PieceV::Variant(x.variant)), subst);
        kept_by_types(written::bound_piece(x.binding), subst);
        retype(x.body, subst);
        kept_by_types(written::closed(), subst);
        written::lemma_changed_add(written::one_piece(PieceV::Tok(TokenV::LParen)), written::one_piece(PieceV::Variant(x.variant)), by_types(subst));
        written::lemma_changed_add(written::one_piece(PieceV::Tok(TokenV::LParen)) + written::one_piece(PieceV::Variant(x.variant)), written::bound_piece(x.binding), by_types(subst));
        written::lemma_changed_add(written::one_piece(PieceV::Tok(TokenV::LParen)) + written::one_piece(PieceV::Variant(x.variant)) + written::bound_piece(x.binding), written::pieces(x.body), by_types(subst));
        written::lemma_changed_add(written::one_piece(PieceV::Tok(TokenV::LParen)) + written::one_piece(PieceV::Variant(x.variant)) + written::bound_piece(x.binding) + written::pieces(x.body), written::closed(), by_types(subst));
        let y = typing::subst_arms(xs, subst)[n - 1];
        assert(y == (MatchArmV { variant: x.variant, body: typing::subst_body(x.body, subst), ..x }));
        assert(written::pieces_arm(y) == written::one_piece(PieceV::Tok(TokenV::LParen)) + written::one_piece(PieceV::Variant(x.variant)) + written::bound_piece(x.binding) + written::pieces(typing::subst_body(x.body, subst)) + written::closed());
        written::lemma_changed_add(written::pieces_arms(xs, n - 1), written::pieces_arm(x), by_types(subst));
    } else {
        written::lemma_changed_none(by_types(subst));
    }
}

/// The body of an instance is written like that of the generic function, with the types in
/// place of the type parameters. No other word is changed.
pub proof fn law_instance_differs_in_types_only(
    g: GenericFunctionV,
    targs: Seq<TypeV>,
    subst: Subst,
)
    ensures
        ({
            let f = typing::instance_of(g, targs, subst);
            &&& written::pieces(f.body) == written::changed(written::pieces(g.body), by_types(subst))
            &&& written::type_pieces(f.ret) == written::changed(
                written::type_pieces(g.ret),
                by_types(subst),
            )
            &&& f.params.len() == g.params.len()
            &&& forall|i: int|
                0 <= i < f.params.len() ==> (#[trigger] f.params[i]).name == g.params[i].name
                    && written::type_pieces(f.params[i].ty) == written::changed(
                    written::type_pieces(g.params[i].ty),
                    by_types(subst),
                )
        }),
{
    retype(g.body, subst);
    retype_type(g.ret, subst);
    assert forall|i: int| 0 <= i < g.params.len() implies written::type_pieces(
        typing::subst_params(g.params, subst)[i].ty,
    ) == written::changed(written::type_pieces((#[trigger] g.params[i]).ty), by_types(subst)) by {
        retype_type(g.params[i].ty, subst);
    }
}

/// A word and what it is in the merged program. The names of types and variants that the
/// module defines get the prefix. So do variables and callees, except those in `low`, and
/// perhaps those in `high`. Nothing else changes.
pub open spec fn renamed(
    a: PieceV,
    b: PieceV,
    p: Prefix,
    low: Set<Seq<char>>,
    high: Set<Seq<char>>,
) -> bool {
    match (a, b) {
        (PieceV::Var(n), PieceV::Var(m)) => renamed_use(n, m, p, low, high),
        (PieceV::Callee(n), PieceV::Callee(m)) => renamed_use(n, m, p, low, high),
        (PieceV::Variant(n), PieceV::Variant(m)) => m == in_module(n, p),
        (PieceV::TypeName(n), PieceV::TypeName(m)) => m == in_module(n, p),
        _ => a == b && !(a is Var || a is Callee || a is Variant || a is TypeName),
    }
}

pub open spec fn renamed_use(
    n: Seq<char>,
    m: Seq<char>,
    p: Prefix,
    low: Set<Seq<char>>,
    high: Set<Seq<char>>,
) -> bool {
    &&& m == n || m == in_module(n, p)
    &&& low.contains(n) ==> m == n
    &&& !high.contains(n) ==> m == in_module(n, p)
}

/// A name that the module defines has the module in front.
pub open spec fn in_module(n: Seq<char>, p: Prefix) -> Seq<char> {
    if p.globals.contains(n) {
        p.module + seq!['/'] + n
    } else {
        n
    }
}

pub open spec fn all_renamed(
    a: Seq<PieceV>,
    b: Seq<PieceV>,
    p: Prefix,
    low: Set<Seq<char>>,
    high: Set<Seq<char>>,
) -> bool {
    a.len() == b.len() && forall|i: int|
        0 <= i < a.len() ==> renamed(#[trigger] a[i], b[i], p, low, high)
}

/// Whether all that is bound, assigned or a field is among `high`.
pub open spec fn names_in(ps: Seq<PieceV>, high: Set<Seq<char>>) -> bool {
    forall|i: int| 0 <= i < ps.len() ==> ((#[trigger] ps[i]) matches PieceV::Name(n) ==> high.contains(n))
}

proof fn names_split(a: Seq<PieceV>, b: Seq<PieceV>, high: Set<Seq<char>>)
    requires
        names_in(a + b, high),
    ensures
        names_in(a, high),
        names_in(b, high),
{
    assert forall|i: int| 0 <= i < a.len() implies ((#[trigger] a[i]) matches PieceV::Name(n)
        ==> high.contains(n)) by {
        assert((a + b)[i] == a[i]);
    }
    assert forall|i: int| 0 <= i < b.len() implies ((#[trigger] b[i]) matches PieceV::Name(n)
        ==> high.contains(n)) by {
        assert((a + b)[a.len() + i] == b[i]);
    }
}

proof fn renamed_add(
    a: Seq<PieceV>,
    b: Seq<PieceV>,
    c: Seq<PieceV>,
    d: Seq<PieceV>,
    p: Prefix,
    low: Set<Seq<char>>,
    high: Set<Seq<char>>,
)
    requires
        all_renamed(a, b, p, low, high),
        all_renamed(c, d, p, low, high),
    ensures
        all_renamed(a + c, b + d, p, low, high),
{
    assert forall|i: int| 0 <= i < (a + c).len() implies renamed(
        #[trigger] (a + c)[i],
        (b + d)[i],
        p,
        low,
        high,
    ) by {
        if i < a.len() {
            assert(renamed(a[i], b[i], p, low, high));
        } else {
            assert(renamed(c[i - a.len()], d[i - a.len()], p, low, high));
        }
    }
}

proof fn lemma_in_module(n: Seq<char>, p: Prefix)
    ensures
        prefix::prefixed(n, p) == in_module(n, p),
{
    reveal_strlit("/");
    assert("/"@ =~= seq!['/']);
}

proof fn rename_type(t: TypeV, p: Prefix, low: Set<Seq<char>>, high: Set<Seq<char>>)
    ensures
        all_renamed(
            written::type_pieces(t),
            written::type_pieces(prefix::prefixed_type(t, p, Set::empty())),
            p,
            low,
            high,
        ),
    decreases t,
{
    match t {
        TypeV::Array { elem, len } => rename_type(*elem, p, low, high),
        TypeV::Named(n) => lemma_in_module(n, p),
        _ => {},
    }
}

proof fn bound_within(
    bs: Seq<BindingV>,
    i: int,
    locals: Set<Seq<char>>,
    low: Set<Seq<char>>,
    high: Set<Seq<char>>,
)
    requires
        0 <= i,
        low.subset_of(locals),
        locals.subset_of(high),
        names_in(written::pieces_bindings(bs, bs.len() as int), high),
    ensures
        low.subset_of(prefix::with_bound(bs, i, locals)),
        prefix::with_bound(bs, i, locals).subset_of(high),
    decreases bs.len() - i,
{
    if i < bs.len() {
        bound_name(bs, bs.len() as int, i, high);
        bound_within(bs, i + 1, locals.insert(bs[i].name), low, high);
    }
}

proof fn bound_name(bs: Seq<BindingV>, n: int, i: int, high: Set<Seq<char>>)
    requires
        0 <= i < n <= bs.len(),
        names_in(written::pieces_bindings(bs, n), high),
    ensures
        high.contains(bs[i].name),
    decreases n,
{
    let x = bs[n - 1];
    names_split(written::pieces_bindings(bs, n - 1), written::pieces_binding(x), high);
    if i == n - 1 {
        assert(written::pieces_binding(x)[0] == PieceV::Name(x.name));
    } else {
        bound_name(bs, n - 1, i, high);
    }
}

proof fn rename(e: ExprV, p: Prefix, locals: Set<Seq<char>>, low: Set<Seq<char>>, high: Set<Seq<char>>)
    requires
        low.subset_of(locals),
        locals.subset_of(high),
        names_in(written::pieces(e), high),
    ensures
        all_renamed(written::pieces(e), written::pieces(prefix::prefixed_expr(e, p, locals)), p, low, high),
    decreases e, 2int,
{
    rename_kind(e.kind, p, locals, low, high);
}

#[verifier::rlimit(60)]
proof fn rename_kind(k: ExprKindV, p: Prefix, locals: Set<Seq<char>>, low: Set<Seq<char>>, high: Set<Seq<char>>)
    requires
        low.subset_of(locals),
        locals.subset_of(high),
        names_in(written::pieces_kind(k), high),
    ensures
        all_renamed(written::pieces_kind(k), written::pieces_kind(prefix::prefixed_kind(k, p, locals)), p, low, high),
    decreases k, 1int,
{
    match k {
        ExprKindV::Lit(l) => {
            
        },
        ExprKindV::Var(n) => {
            lemma_in_module(n, p);
        },
        ExprKindV::Break => {
            names_split(written::opened("break"@), written::closed(), high);
            
            
            renamed_add(written::opened("break"@), written::opened("break"@), written::closed(), written::closed(), p, low, high);
        },
        ExprKindV::If { cond, then_branch, else_branch } => {
            names_split(written::opened("if"@) + written::pieces(*cond) + written::pieces(*then_branch) + written::pieces(*else_branch), written::closed(), high);
            names_split(written::opened("if"@) + written::pieces(*cond) + written::pieces(*then_branch), written::pieces(*else_branch), high);
            names_split(written::opened("if"@) + written::pieces(*cond), written::pieces(*then_branch), high);
            names_split(written::opened("if"@), written::pieces(*cond), high);
            
            rename(*cond, p, locals, low, high);
            rename(*then_branch, p, locals, low, high);
            rename(*else_branch, p, locals, low, high);
            
            renamed_add(written::opened("if"@), written::opened("if"@), written::pieces(*cond), written::pieces(prefix::prefixed_expr(*cond, p, locals)), p, low, high);
            renamed_add(written::opened("if"@) + written::pieces(*cond), written::opened("if"@) + written::pieces(prefix::prefixed_expr(*cond, p, locals)), written::pieces(*then_branch), written::pieces(prefix::prefixed_expr(*then_branch, p, locals)), p, low, high);
            renamed_add(written::opened("if"@) + written::pieces(*cond) + written::pieces(*then_branch), written::opened("if"@) + written::pieces(prefix::prefixed_expr(*cond, p, locals)) + written::pieces(prefix::prefixed_expr(*then_branch, p, locals)), written::pieces(*else_branch), written::pieces(prefix::prefixed_expr(*else_branch, p, locals)), p, low, high);
            renamed_add(written::opened("if"@) + written::pieces(*cond) + written::pieces(*then_branch) + written::pieces(*else_branch), written::opened("if"@) + written::pieces(prefix::prefixed_expr(*cond, p, locals)) + written::pieces(prefix::prefixed_expr(*then_branch, p, locals)) + written::pieces(prefix::prefixed_expr(*else_branch, p, locals)), written::closed(), written::closed(), p, low, high);
        },
        ExprKindV::Let { bindings, body } => {
            names_split(written::opened("let"@) + written::one_piece(PieceV::Tok(TokenV::LBracket)) + written::pieces_bindings(bindings, bindings.len() as int) + written::one_piece(PieceV::Tok(TokenV::RBracket)) + written::pieces(*body), written::closed(), high);
            names_split(written::opened("let"@) + written::one_piece(PieceV::Tok(TokenV::LBracket)) + written::pieces_bindings(bindings, bindings.len() as int) + written::one_piece(PieceV::Tok(TokenV::RBracket)), written::pieces(*body), high);
            names_split(written::opened("let"@) + written::one_piece(PieceV::Tok(TokenV::LBracket)) + written::pieces_bindings(bindings, bindings.len() as int), written::one_piece(PieceV::Tok(TokenV::RBracket)), high);
            names_split(written::opened("let"@) + written::one_piece(PieceV::Tok(TokenV::LBracket)), written::pieces_bindings(bindings, bindings.len() as int), high);
            names_split(written::opened("let"@), written::one_piece(PieceV::Tok(TokenV::LBracket)), high);
            
            
            rename_bindings(bindings, bindings.len() as int, p, locals, low, high);
            
            bound_within(bindings, 0, locals, low, high);
            rename(*body, p, prefix::with_bound(bindings, 0, locals), low, high);
            
            renamed_add(written::opened("let"@), written::opened("let"@), written::one_piece(PieceV::Tok(TokenV::LBracket)), written::one_piece(PieceV::Tok(TokenV::LBracket)), p, low, high);
            renamed_add(written::opened("let"@) + written::one_piece(PieceV::Tok(TokenV::LBracket)), written::opened("let"@) + written::one_piece(PieceV::Tok(TokenV::LBracket)), written::pieces_bindings(bindings, bindings.len() as int), written::pieces_bindings(prefix::prefixed_bindings(bindings, p, locals), bindings.len() as int), p, low, high);
            renamed_add(written::opened("let"@) + written::one_piece(PieceV::Tok(TokenV::LBracket)) + written::pieces_bindings(bindings, bindings.len() as int), written::opened("let"@) + written::one_piece(PieceV::Tok(TokenV::LBracket)) + written::pieces_bindings(prefix::prefixed_bindings(bindings, p, locals), bindings.len() as int), written::one_piece(PieceV::Tok(TokenV::RBracket)), written::one_piece(PieceV::Tok(TokenV::RBracket)), p, low, high);
            renamed_add(written::opened("let"@) + written::one_piece(PieceV::Tok(TokenV::LBracket)) + written::pieces_bindings(bindings, bindings.len() as int) + written::one_piece(PieceV::Tok(TokenV::RBracket)), written::opened("let"@) + written::one_piece(PieceV::Tok(TokenV::LBracket)) + written::pieces_bindings(prefix::prefixed_bindings(bindings, p, locals), bindings.len() as int) + written::one_piece(PieceV::Tok(TokenV::RBracket)), written::pieces(*body), written::pieces(prefix::prefixed_expr(*body, p, prefix::with_bound(bindings, 0, locals))), p, low, high);
            renamed_add(written::opened("let"@) + written::one_piece(PieceV::Tok(TokenV::LBracket)) + written::pieces_bindings(bindings, bindings.len() as int) + written::one_piece(PieceV::Tok(TokenV::RBracket)) + written::pieces(*body), written::opened("let"@) + written::one_piece(PieceV::Tok(TokenV::LBracket)) + written::pieces_bindings(prefix::prefixed_bindings(bindings, p, locals), bindings.len() as int) + written::one_piece(PieceV::Tok(TokenV::RBracket)) + written::pieces(prefix::prefixed_expr(*body, p, prefix::with_bound(bindings, 0, locals))), written::closed(), written::closed(), p, low, high);
        },
        ExprKindV::Do(es) => {
            names_split(written::opened("do"@) + written::pieces_all(es, es.len() as int), written::closed(), high);
            names_split(written::opened("do"@), written::pieces_all(es, es.len() as int), high);
            
            rename_all(es, es.len() as int, p, locals, low, high);
            
            renamed_add(written::opened("do"@), written::opened("do"@), written::pieces_all(es, es.len() as int), written::pieces_all(prefix::prefixed_exprs(es, p, locals), es.len() as int), p, low, high);
            renamed_add(written::opened("do"@) + written::pieces_all(es, es.len() as int), written::opened("do"@) + written::pieces_all(prefix::prefixed_exprs(es, p, locals), es.len() as int), written::closed(), written::closed(), p, low, high);
        },
        ExprKindV::Cast { ty, expr } => {
            names_split(written::opened("as"@) + written::type_pieces(ty) + written::pieces(*expr), written::closed(), high);
            names_split(written::opened("as"@) + written::type_pieces(ty), written::pieces(*expr), high);
            names_split(written::opened("as"@), written::type_pieces(ty), high);
            
            rename_type(ty, p, low, high);
            rename(*expr, p, locals, low, high);
            
            renamed_add(written::opened("as"@), written::opened("as"@), written::type_pieces(ty), written::type_pieces(prefix::prefixed_type(ty, p, Set::empty())), p, low, high);
            renamed_add(written::opened("as"@) + written::type_pieces(ty), written::opened("as"@) + written::type_pieces(prefix::prefixed_type(ty, p, Set::empty())), written::pieces(*expr), written::pieces(prefix::prefixed_expr(*expr, p, locals)), p, low, high);
            renamed_add(written::opened("as"@) + written::type_pieces(ty) + written::pieces(*expr), written::opened("as"@) + written::type_pieces(prefix::prefixed_type(ty, p, Set::empty())) + written::pieces(prefix::prefixed_expr(*expr, p, locals)), written::closed(), written::closed(), p, low, high);
        },
        ExprKindV::Assign { name, value } => {
            names_split(written::opened("set!"@) + written::one_piece(PieceV::Name(name)) + written::pieces(*value), written::closed(), high);
            names_split(written::opened("set!"@) + written::one_piece(PieceV::Name(name)), written::pieces(*value), high);
            names_split(written::opened("set!"@), written::one_piece(PieceV::Name(name)), high);
            
            
            rename(*value, p, locals, low, high);
            
            renamed_add(written::opened("set!"@), written::opened("set!"@), written::one_piece(PieceV::Name(name)), written::one_piece(PieceV::Name(name)), p, low, high);
            renamed_add(written::opened("set!"@) + written::one_piece(PieceV::Name(name)), written::opened("set!"@) + written::one_piece(PieceV::Name(name)), written::pieces(*value), written::pieces(prefix::prefixed_expr(*value, p, locals)), p, low, high);
            renamed_add(written::opened("set!"@) + written::one_piece(PieceV::Name(name)) + written::pieces(*value), written::opened("set!"@) + written::one_piece(PieceV::Name(name)) + written::pieces(prefix::prefixed_expr(*value, p, locals)), written::closed(), written::closed(), p, low, high);
        },
        ExprKindV::While { cond, body } => {
            names_split(written::opened("while"@) + written::pieces(*cond) + written::pieces(*body), written::closed(), high);
            names_split(written::opened("while"@) + written::pieces(*cond), written::pieces(*body), high);
            names_split(written::opened("while"@), written::pieces(*cond), high);
            
            rename(*cond, p, locals, low, high);
            rename(*body, p, locals, low, high);
            
            renamed_add(written::opened("while"@), written::opened("while"@), written::pieces(*cond), written::pieces(prefix::prefixed_expr(*cond, p, locals)), p, low, high);
            renamed_add(written::opened("while"@) + written::pieces(*cond), written::opened("while"@) + written::pieces(prefix::prefixed_expr(*cond, p, locals)), written::pieces(*body), written::pieces(prefix::prefixed_expr(*body, p, locals)), p, low, high);
            renamed_add(written::opened("while"@) + written::pieces(*cond) + written::pieces(*body), written::opened("while"@) + written::pieces(prefix::prefixed_expr(*cond, p, locals)) + written::pieces(prefix::prefixed_expr(*body, p, locals)), written::closed(), written::closed(), p, low, high);
        },
        ExprKindV::Loop { body } => {
            names_split(written::opened("loop"@) + written::pieces(*body), written::closed(), high);
            names_split(written::opened("loop"@), written::pieces(*body), high);
            
            rename(*body, p, locals, low, high);
            
            renamed_add(written::opened("loop"@), written::opened("loop"@), written::pieces(*body), written::pieces(prefix::prefixed_expr(*body, p, locals)), p, low, high);
            renamed_add(written::opened("loop"@) + written::pieces(*body), written::opened("loop"@) + written::pieces(prefix::prefixed_expr(*body, p, locals)), written::closed(), written::closed(), p, low, high);
        },
        ExprKindV::ArrayLit { elem_ty, elems } => {
            names_split(written::opened("array"@) + written::type_pieces(elem_ty) + written::pieces_all(elems, elems.len() as int), written::closed(), high);
            names_split(written::opened("array"@) + written::type_pieces(elem_ty), written::pieces_all(elems, elems.len() as int), high);
            names_split(written::opened("array"@), written::type_pieces(elem_ty), high);
            
            rename_type(elem_ty, p, low, high);
            rename_all(elems, elems.len() as int, p, locals, low, high);
            
            renamed_add(written::opened("array"@), written::opened("array"@), written::type_pieces(elem_ty), written::type_pieces(prefix::prefixed_type(elem_ty, p, Set::empty())), p, low, high);
            renamed_add(written::opened("array"@) + written::type_pieces(elem_ty), written::opened("array"@) + written::type_pieces(prefix::prefixed_type(elem_ty, p, Set::empty())), written::pieces_all(elems, elems.len() as int), written::pieces_all(prefix::prefixed_exprs(elems, p, locals), elems.len() as int), p, low, high);
            renamed_add(written::opened("array"@) + written::type_pieces(elem_ty) + written::pieces_all(elems, elems.len() as int), written::opened("array"@) + written::type_pieces(prefix::prefixed_type(elem_ty, p, Set::empty())) + written::pieces_all(prefix::prefixed_exprs(elems, p, locals), elems.len() as int), written::closed(), written::closed(), p, low, high);
        },
        ExprKindV::Field { base, field } => {
            names_split(written::opened("field"@) + written::pieces(*base) + written::one_piece(PieceV::Name(field)), written::closed(), high);
            names_split(written::opened("field"@) + written::pieces(*base), written::one_piece(PieceV::Name(field)), high);
            names_split(written::opened("field"@), written::pieces(*base), high);
            
            rename(*base, p, locals, low, high);
            
            
            renamed_add(written::opened("field"@), written::opened("field"@), written::pieces(*base), written::pieces(prefix::prefixed_expr(*base, p, locals)), p, low, high);
            renamed_add(written::opened("field"@) + written::pieces(*base), written::opened("field"@) + written::pieces(prefix::prefixed_expr(*base, p, locals)), written::one_piece(PieceV::Name(field)), written::one_piece(PieceV::Name(field)), p, low, high);
            renamed_add(written::opened("field"@) + written::pieces(*base) + written::one_piece(PieceV::Name(field)), written::opened("field"@) + written::pieces(prefix::prefixed_expr(*base, p, locals)) + written::one_piece(PieceV::Name(field)), written::closed(), written::closed(), p, low, high);
        },
        ExprKindV::Match { scrutinee, arms } => {
            names_split(written::opened("match"@) + written::pieces(*scrutinee) + written::pieces_arms(arms, arms.len() as int), written::closed(), high);
            names_split(written::opened("match"@) + written::pieces(*scrutinee), written::pieces_arms(arms, arms.len() as int), high);
            names_split(written::opened("match"@), written::pieces(*scrutinee), high);
            
            rename(*scrutinee, p, locals, low, high);
            rename_arms(arms, arms.len() as int, p, locals, low, high);
            
            renamed_add(written::opened("match"@), written::opened("match"@), written::pieces(*scrutinee), written::pieces(prefix::prefixed_expr(*scrutinee, p, locals)), p, low, high);
            renamed_add(written::opened("match"@) + written::pieces(*scrutinee), written::opened("match"@) + written::pieces(prefix::prefixed_expr(*scrutinee, p, locals)), written::pieces_arms(arms, arms.len() as int), written::pieces_arms(prefix::prefixed_arms(arms, p, locals), arms.len() as int), p, low, high);
            renamed_add(written::opened("match"@) + written::pieces(*scrutinee) + written::pieces_arms(arms, arms.len() as int), written::opened("match"@) + written::pieces(prefix::prefixed_expr(*scrutinee, p, locals)) + written::pieces_arms(prefix::prefixed_arms(arms, p, locals), arms.len() as int), written::closed(), written::closed(), p, low, high);
        },
        ExprKindV::Call { callee, args } => {
            names_split(written::one_piece(PieceV::Tok(TokenV::LParen)) + written::one_piece(PieceV::Callee(callee)) + written::pieces_all(args, args.len() as int), written::closed(), high);
            names_split(written::one_piece(PieceV::Tok(TokenV::LParen)) + written::one_piece(PieceV::Callee(callee)), written::pieces_all(args, args.len() as int), high);
            names_split(written::one_piece(PieceV::Tok(TokenV::LParen)), written::one_piece(PieceV::Callee(callee)), high);
            
            lemma_in_module(callee, p);
            rename_all(args, args.len() as int, p, locals, low, high);
            
            renamed_add(written::one_piece(PieceV::Tok(TokenV::LParen)), written::one_piece(PieceV::Tok(TokenV::LParen)), written::one_piece(PieceV::Callee(callee)), written::one_piece(PieceV::Callee(prefix::prefixed_var(callee, p, locals))), p, low, high);
            renamed_add(written::one_piece(PieceV::Tok(TokenV::LParen)) + written::one_piece(PieceV::Callee(callee)), written::one_piece(PieceV::Tok(TokenV::LParen)) + written::one_piece(PieceV::Callee(prefix::prefixed_var(callee, p, locals))), written::pieces_all(args, args.len() as int), written::pieces_all(prefix::prefixed_exprs(args, p, locals), args.len() as int), p, low, high);
            renamed_add(written::one_piece(PieceV::Tok(TokenV::LParen)) + written::one_piece(PieceV::Callee(callee)) + written::pieces_all(args, args.len() as int), written::one_piece(PieceV::Tok(TokenV::LParen)) + written::one_piece(PieceV::Callee(prefix::prefixed_var(callee, p, locals))) + written::pieces_all(prefix::prefixed_exprs(args, p, locals), args.len() as int), written::closed(), written::closed(), p, low, high);
        },
    }
}

proof fn rename_all(xs: Seq<ExprV>, n: int, p: Prefix, locals: Set<Seq<char>>, low: Set<Seq<char>>, high: Set<Seq<char>>)
    requires
        n <= xs.len(),
        low.subset_of(locals),
        locals.subset_of(high),
        names_in(written::pieces_all(xs, n), high),
    ensures
        all_renamed(written::pieces_all(xs, n), written::pieces_all(prefix::prefixed_exprs(xs, p, locals), n), p, low, high),
    decreases xs, n,
{
    if n > 0 {
        names_split(written::pieces_all(xs, n - 1), written::pieces(xs[n - 1]), high);
        rename_all(xs, n - 1, p, locals, low, high);
        rename(xs[n - 1], p, locals, low, high);
        assert(prefix::prefixed_exprs(xs, p, locals)[n - 1] == prefix::prefixed_expr(xs[n - 1], p, locals));
        renamed_add(written::pieces_all(xs, n - 1), written::pieces_all(prefix::prefixed_exprs(xs, p, locals), n - 1), written::pieces(xs[n - 1]), written::pieces(prefix::prefixed_expr(xs[n - 1], p, locals)), p, low, high);
    }
}

proof fn rename_bindings(xs: Seq<BindingV>, n: int, p: Prefix, locals: Set<Seq<char>>, low: Set<Seq<char>>, high: Set<Seq<char>>)
    requires
        n <= xs.len(),
        low.subset_of(locals),
        locals.subset_of(high),
        names_in(written::pieces_bindings(xs, n), high),
    ensures
        all_renamed(written::pieces_bindings(xs, n), written::pieces_bindings(prefix::prefixed_bindings(xs, p, locals), n), p, low, high),
    decreases xs, n,
{
    if n > 0 {
        names_split(written::pieces_bindings(xs, n - 1), written::pieces_binding(xs[n - 1]), high);
        rename_bindings(xs, n - 1, p, locals, low, high);
        let x = xs[n - 1];
        names_split(written::one_piece(PieceV::Name(x.name)) + written::one_piece(PieceV::Tok(TokenV::Colon)) + written::type_pieces(x.ty), written::pieces(x.value), high);
        names_split(written::one_piece(PieceV::Name(x.name)) + written::one_piece(PieceV::Tok(TokenV::Colon)), written::type_pieces(x.ty), high);
        names_split(written::one_piece(PieceV::Name(x.name)), written::one_piece(PieceV::Tok(TokenV::Colon)), high);
        
        
        rename_type(x.ty, p, low, high);
        rename(x.value, p, locals, low, high);
        renamed_add(written::one_piece(PieceV::Name(x.name)), written::one_piece(PieceV::Name(x.name)), written::one_piece(PieceV::Tok(TokenV::Colon)), written::one_piece(PieceV::Tok(TokenV::Colon)), p, low, high);
        renamed_add(written::one_piece(PieceV::Name(x.name)) + written::one_piece(PieceV::Tok(TokenV::Colon)), written::one_piece(PieceV::Name(x.name)) + written::one_piece(PieceV::Tok(TokenV::Colon)), written::type_pieces(x.ty), written::type_pieces(prefix::prefixed_type(x.ty, p, Set::empty())), p, low, high);
        renamed_add(written::one_piece(PieceV::Name(x.name)) + written::one_piece(PieceV::Tok(TokenV::Colon)) + written::type_pieces(x.ty), written::one_piece(PieceV::Name(x.name)) + written::one_piece(PieceV::Tok(TokenV::Colon)) + written::type_pieces(prefix::prefixed_type(x.ty, p, Set::empty())), written::pieces(x.value), written::pieces(prefix::prefixed_expr(x.value, p, locals)), p, low, high);
        let y = prefix::prefixed_bindings(xs, p, locals)[n - 1];
        assert(y == (BindingV { ty: prefix::prefixed_type(x.ty, p, Set::empty()), value: prefix::prefixed_expr(x.value, p, locals), ..x }));
        assert(written::pieces_binding(y) == written::one_piece(PieceV::Name(x.name)) + written::one_piece(PieceV::Tok(TokenV::Colon)) + written::type_pieces(prefix::prefixed_type(x.ty, p, Set::empty())) + written::pieces(prefix::prefixed_expr(x.value, p, locals)));
        renamed_add(written::pieces_bindings(xs, n - 1), written::pieces_bindings(prefix::prefixed_bindings(xs, p, locals), n - 1), written::pieces_binding(x), written::pieces_binding(prefix::prefixed_bindings(xs, p, locals)[n - 1]), p, low, high);
    }
}

proof fn rename_arms(xs: Seq<MatchArmV>, n: int, p: Prefix, locals: Set<Seq<char>>, low: Set<Seq<char>>, high: Set<Seq<char>>)
    requires
        n <= xs.len(),
        low.subset_of(locals),
        locals.subset_of(high),
        names_in(written::pieces_arms(xs, n), high),
    ensures
        all_renamed(written::pieces_arms(xs, n), written::pieces_arms(prefix::prefixed_arms(xs, p, locals), n), p, low, high),
    decreases xs, n,
{
    if n > 0 {
        names_split(written::pieces_arms(xs, n - 1), written::pieces_arm(xs[n - 1]), high);
        rename_arms(xs, n - 1, p, locals, low, high);
        let x = xs[n - 1];
        names_split(written::one_piece(PieceV::Tok(TokenV::LParen)) + written::one_piece(PieceV::Variant(x.variant)) + written::bound_piece(x.binding) + written::pieces(x.body), written::closed(), high);
        names_split(written::one_piece(PieceV::Tok(TokenV::LParen)) + written::one_piece(PieceV::Variant(x.variant)) + written::bound_piece(x.binding), written::pieces(x.body), high);
        names_split(written::one_piece(PieceV::Tok(TokenV::LParen)) + written::one_piece(PieceV::Variant(x.variant)), written::bound_piece(x.binding), high);
        names_split(written::one_piece(PieceV::Tok(TokenV::LParen)), written::one_piece(PieceV::Variant(x.variant)), high);
        assert(prefix::with_binding(x.binding, locals).subset_of(high)) by {
            if let Some(n) = x.binding {
                assert(written::bound_piece(x.binding)[0] == PieceV::Name(n));
            }
        }
        
        lemma_in_module(x.variant, p);
        
        rename(x.body, p, prefix::with_binding(x.binding, locals), low, high);
        
        renamed_add(written::one_piece(PieceV::Tok(TokenV::LParen)), written::one_piece(PieceV::Tok(TokenV::LParen)), written::one_piece(PieceV::Variant(x.variant)), written::one_piece(PieceV::Variant(prefix::prefixed(x.variant, p))), p, low, high);
        renamed_add(written::one_piece(PieceV::Tok(TokenV::LParen)) + written::one_piece(PieceV::Variant(x.variant)), written::one_piece(PieceV::Tok(TokenV::LParen)) + written::one_piece(PieceV::Variant(prefix::prefixed(x.variant, p))), written::bound_piece(x.binding), written::bound_piece(x.binding), p, low, high);
        renamed_add(written::one_piece(PieceV::Tok(TokenV::LParen)) + written::one_piece(PieceV::Variant(x.variant)) + written::bound_piece(x.binding), written::one_piece(PieceV::Tok(TokenV::LParen)) + written::one_piece(PieceV::Variant(prefix::prefixed(x.variant, p))) + written::bound_piece(x.binding), written::pieces(x.body), written::pieces(prefix::prefixed_expr(x.body, p, prefix::with_binding(x.binding, locals))), p, low, high);
        renamed_add(written::one_piece(PieceV::Tok(TokenV::LParen)) + written::one_piece(PieceV::Variant(x.variant)) + written::bound_piece(x.binding) + written::pieces(x.body), written::one_piece(PieceV::Tok(TokenV::LParen)) + written::one_piece(PieceV::Variant(prefix::prefixed(x.variant, p))) + written::bound_piece(x.binding) + written::pieces(prefix::prefixed_expr(x.body, p, prefix::with_binding(x.binding, locals))), written::closed(), written::closed(), p, low, high);
        let y = prefix::prefixed_arms(xs, p, locals)[n - 1];
        assert(y == (MatchArmV { variant: prefix::prefixed(x.variant, p), body: prefix::prefixed_expr(x.body, p, prefix::with_binding(x.binding, locals)), ..x }));
        assert(written::pieces_arm(y) == written::one_piece(PieceV::Tok(TokenV::LParen)) + written::one_piece(PieceV::Variant(prefix::prefixed(x.variant, p))) + written::bound_piece(x.binding) + written::pieces(prefix::prefixed_expr(x.body, p, prefix::with_binding(x.binding, locals))) + written::closed());
        renamed_add(written::pieces_arms(xs, n - 1), written::pieces_arms(prefix::prefixed_arms(xs, p, locals), n - 1), written::pieces_arm(x), written::pieces_arm(prefix::prefixed_arms(xs, p, locals)[n - 1]), p, low, high);
    }
}

/// Whether an expression binds, assigns or selects this name.
pub open spec fn names(e: ExprV, n: Seq<char>) -> bool {
    written::pieces(e).contains(PieceV::Name(n))
}

/// Merging a module puts its name in front of the names that it defines and does nothing
/// else: word by word, an expression stays as it is, but for variables, callees, variants
/// and types. Of these the module's own get the prefix. A local variable keeps its name,
/// and a name that is neither local nor bound in the expression never stays unqualified.
pub proof fn law_merging_renames_only(e: ExprV, p: Prefix, locals: Set<Seq<char>>)
    ensures
        all_renamed(
            written::pieces(e),
            written::pieces(prefix::prefixed_expr(e, p, locals)),
            p,
            locals,
            locals.union(Set::new(|n: Seq<char>| names(e, n))),
        ),
{
    let high = locals.union(Set::new(|n: Seq<char>| names(e, n)));
    assert forall|i: int| 0 <= i < written::pieces(e).len() implies ((#[trigger] written::pieces(
        e,
    )[i]) matches PieceV::Name(n) ==> high.contains(n)) by {
        if let PieceV::Name(n) = written::pieces(e)[i] {
            assert(names(e, n));
        }
    }
    rename(e, p, locals, locals, high);
}

/// A body in which none of the types that are filled in occurs is written like before; with
/// nothing to fill in, every body is.
pub proof fn law_instance_keeps_other_words(g: GenericFunctionV, targs: Seq<TypeV>, subst: Subst)
    requires
        forall|n: Seq<char>|
            #[trigger] subst.contains_key(n) ==> !written::pieces(g.body).contains(PieceV::TypeName(n)),
    ensures
        written::pieces(typing::instance_of(g, targs, subst).body) == written::pieces(g.body),
{
    law_instance_differs_in_types_only(g, targs, subst);
    let ps = written::pieces(g.body);
    assert forall|i: int| 0 <= i < ps.len() implies by_types(subst)(#[trigger] ps[i]) == seq![ps[i]] by {
        if let PieceV::TypeName(n) = ps[i] {
            assert(ps.contains(PieceV::TypeName(n)));
        }
    }
    written::lemma_changed_same(ps, by_types(subst));
}

/// Whether a word is a name that the module defines.
pub open spec fn is_own(a: PieceV, p: Prefix) -> bool {
    match a {
        PieceV::Var(n) => p.globals.contains(n),
        PieceV::Callee(n) => p.globals.contains(n),
        PieceV::Variant(n) => p.globals.contains(n),
        PieceV::TypeName(n) => p.globals.contains(n),
        _ => false,
    }
}

/// An expression in which no name that the module defines occurs is written like before.
pub proof fn law_merging_keeps_other_words(e: ExprV, p: Prefix, locals: Set<Seq<char>>)
    requires
        forall|i: int| 0 <= i < written::pieces(e).len() ==> !is_own(#[trigger] written::pieces(e)[i], p),
    ensures
        written::pieces(prefix::prefixed_expr(e, p, locals)) == written::pieces(e),
{
    law_merging_renames_only(e, p, locals);
    let a = written::pieces(e);
    let b = written::pieces(prefix::prefixed_expr(e, p, locals));
    assert forall|i: int| 0 <= i < a.len() implies a[i] == b[i] by {
        assert(!is_own(a[i], p));
        let high = locals.union(Set::new(|n: Seq<char>| names(e, n)));
        assert(renamed(a[i], b[i], p, locals, high));
    }
    assert(a =~= b);
}

} // verus!
