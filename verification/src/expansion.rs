//! Laws of macro expansion: what is expanded comes out of the program by replacing macro
//! calls, and by nothing else.
use crate::ast::{BindingV, ExprKindV, ExprV, MatchArmV};
use crate::lexer::TokenV;
use crate::macroexpand::{Macros, MAX_EXPAND_DEPTH};
use crate::macroexpand;
use crate::rewriting;
use crate::written::PieceV;
use crate::written;
use vstd::prelude::*;

verus! {

/// Whether `b` is `a` with one macro call replaced: by the template of the macro, with the
/// arguments of the call in place of the parameters.
pub open spec fn replaced_at(
    a: Seq<PieceV>,
    b: Seq<PieceV>,
    macros: Macros,
    x: Seq<PieceV>,
    call: ExprV,
    y: Seq<PieceV>,
) -> bool {
    &&& macroexpand::is_macro_call(call, macros)
    &&& a == x + written::pieces(call) + y
    &&& ({
        let m = macros[call.kind->callee];
        let args = call.kind->args;
        &&& args.len() == m.params.len()
        &&& b == x + written::changed(
            written::pieces(m.template),
            rewriting::by_arguments(m.params, args),
        ) + y
    })
}

pub open spec fn replaced(a: Seq<PieceV>, b: Seq<PieceV>, macros: Macros) -> bool {
    exists|x: Seq<PieceV>, call: ExprV, y: Seq<PieceV>| replaced_at(a, b, macros, x, call, y)
}

/// Whether `n` replacements lead from `a` to `b`.
pub open spec fn derives(n: nat, a: Seq<PieceV>, b: Seq<PieceV>, macros: Macros) -> bool
    decreases n,
{
    if n == 0 {
        a == b
    } else {
        exists|m: Seq<PieceV>| #[trigger] replaced(a, m, macros) && derives((n - 1) as nat, m, b, macros)
    }
}

/// Whether some number of replacements leads from `a` to `b`.
#[verifier::opaque]
pub open spec fn expands(a: Seq<PieceV>, b: Seq<PieceV>, macros: Macros) -> bool {
    exists|n: nat| derives(n, a, b, macros)
}

proof fn expands_same(a: Seq<PieceV>, macros: Macros)
    ensures
        expands(a, a, macros),
{
    reveal(expands);
    assert(derives(0, a, a, macros));
}

proof fn derives_then(n: nat, k: nat, a: Seq<PieceV>, b: Seq<PieceV>, c: Seq<PieceV>, macros: Macros)
    requires
        derives(n, a, b, macros),
        derives(k, b, c, macros),
    ensures
        derives(n + k, a, c, macros),
    decreases n,
{
    if n > 0 {
        let m = choose|m: Seq<PieceV>| #[trigger]
            replaced(a, m, macros) && derives((n - 1) as nat, m, b, macros);
        derives_then((n - 1) as nat, k, m, b, c, macros);
        assert(replaced(a, m, macros) && derives((n + k - 1) as nat, m, c, macros));
    }
}

/// What is around a replacement stays.
proof fn derives_within(
    n: nat,
    a: Seq<PieceV>,
    b: Seq<PieceV>,
    macros: Macros,
    front: Seq<PieceV>,
    back: Seq<PieceV>,
)
    requires
        derives(n, a, b, macros),
    ensures
        derives(n, front + a + back, front + b + back, macros),
    decreases n,
{
    if n > 0 {
        let m = choose|m: Seq<PieceV>| #[trigger]
            replaced(a, m, macros) && derives((n - 1) as nat, m, b, macros);
        let (x, call, y) = choose|x: Seq<PieceV>, call: ExprV, y: Seq<PieceV>|
            replaced_at(a, m, macros, x, call, y);
        let t = written::changed(
            written::pieces(macros[call.kind->callee].template),
            rewriting::by_arguments(macros[call.kind->callee].params, call.kind->args),
        );
        assert(front + a + back =~= (front + x) + written::pieces(call) + (y + back));
        assert(front + m + back =~= (front + x) + t + (y + back));
        assert(replaced_at(front + a + back, front + m + back, macros, front + x, call, y + back));
        assert(replaced(front + a + back, front + m + back, macros));
        derives_within((n - 1) as nat, m, b, macros, front, back);
    }
}

/// Parts can be expanded one by one.
proof fn expands_add(a: Seq<PieceV>, b: Seq<PieceV>, c: Seq<PieceV>, d: Seq<PieceV>, macros: Macros)
    requires
        expands(a, b, macros),
        expands(c, d, macros),
    ensures
        expands(a + c, b + d, macros),
{
    reveal(expands);
    let n = choose|n: nat| derives(n, a, b, macros);
    let k = choose|k: nat| derives(k, c, d, macros);
    let none = Seq::<PieceV>::empty();
    derives_within(n, a, b, macros, none, c);
    derives_within(k, c, d, macros, b, none);
    assert(none + a + c =~= a + c);
    assert(none + b + c =~= b + c);
    assert(b + c + none =~= b + c);
    assert(b + d + none =~= b + d);
    derives_then(n, k, a + c, b + c, b + d, macros);
}

/// A macro call is replaced first, and what comes out is expanded then.
proof fn expands_call(call: ExprV, s: ExprV, b: Seq<PieceV>, macros: Macros)
    requires
        macroexpand::is_macro_call(call, macros),
        call.kind->args.len() == macros[call.kind->callee].params.len(),
        written::pieces(s) == written::changed(
            written::pieces(macros[call.kind->callee].template),
            rewriting::by_arguments(macros[call.kind->callee].params, call.kind->args),
        ),
        expands(written::pieces(s), b, macros),
    ensures
        expands(written::pieces(call), b, macros),
{
    reveal(expands);
    let none = Seq::<PieceV>::empty();
    let a = written::pieces(call);
    let m = written::pieces(s);
    assert(none + a + none =~= a);
    assert(none + m + none =~= m);
    assert(replaced_at(a, m, macros, none, call, none));
    assert(replaced(a, m, macros));
    let n = choose|n: nat| derives(n, m, b, macros);
    assert(derives(n + 1, a, b, macros));
}

proof fn grow(e: ExprV, macros: Macros, depth: u32)
    ensures
        ({
            let (r, err) = macroexpand::expanded(e, macros, depth);
            err is None ==> expands(written::pieces(e), written::pieces(r), macros)
        }),
    decreases macroexpand::depth_left(depth), e, 2int,
{
    if macroexpand::is_macro_call(e, macros) {
        let m = macros[e.kind->callee];
        let args = e.kind->args;
        if args.len() == m.params.len() && depth < MAX_EXPAND_DEPTH {
            let s = macroexpand::substituted(m.template, m.params, args);
            let t = ExprV { kind: s.kind, span: e.span, ty: s.ty };
            rewriting::law_arguments_replace_parameters(m.template, m.params, args);
            assert(written::pieces(t) == written::pieces_kind(s.kind));
            grow(t, macros, (depth + 1) as u32);
            let (r, err) = macroexpand::expanded(t, macros, (depth + 1) as u32);
            if err is None {
                expands_call(e, s, written::pieces(r), macros);
            }
        }
    } else {
        grow_kind(e.kind, macros, depth);
    }
}

#[verifier::rlimit(60)]
proof fn grow_kind(k: ExprKindV, macros: Macros, depth: u32)
    ensures
        ({
            let (r, err) = macroexpand::expanded_kind(k, macros, depth);
            err is None ==> expands(written::pieces_kind(k), written::pieces_kind(r), macros)
        }),
    decreases macroexpand::depth_left(depth), k, 1int,
{
    if macroexpand::expanded_kind(k, macros, depth).1 is None {
        match k {
            ExprKindV::Lit(l) => {
                expands_same(written::one_piece(PieceV::Tok(written::lit_token(l))), macros);
            },
            ExprKindV::Var(n) => {
                expands_same(written::one_piece(PieceV::Var(n)), macros);
            },
            ExprKindV::Break => {
                expands_same(written::opened("break"@), macros);
                expands_same(written::closed(), macros);
                expands_add(written::opened("break"@), written::opened("break"@), written::closed(), written::closed(), macros);
            },
            ExprKindV::If { cond, then_branch, else_branch } => {
                expands_same(written::opened("if"@), macros);
                grow(*cond, macros, depth);
                grow(*then_branch, macros, depth);
                grow(*else_branch, macros, depth);
                expands_same(written::closed(), macros);
                expands_add(written::opened("if"@), written::opened("if"@), written::pieces(*cond), written::pieces(macroexpand::expanded(*cond, macros, depth).0), macros);
                expands_add(written::opened("if"@) + written::pieces(*cond), written::opened("if"@) + written::pieces(macroexpand::expanded(*cond, macros, depth).0), written::pieces(*then_branch), written::pieces(macroexpand::expanded(*then_branch, macros, depth).0), macros);
                expands_add(written::opened("if"@) + written::pieces(*cond) + written::pieces(*then_branch), written::opened("if"@) + written::pieces(macroexpand::expanded(*cond, macros, depth).0) + written::pieces(macroexpand::expanded(*then_branch, macros, depth).0), written::pieces(*else_branch), written::pieces(macroexpand::expanded(*else_branch, macros, depth).0), macros);
                expands_add(written::opened("if"@) + written::pieces(*cond) + written::pieces(*then_branch) + written::pieces(*else_branch), written::opened("if"@) + written::pieces(macroexpand::expanded(*cond, macros, depth).0) + written::pieces(macroexpand::expanded(*then_branch, macros, depth).0) + written::pieces(macroexpand::expanded(*else_branch, macros, depth).0), written::closed(), written::closed(), macros);
            },
            ExprKindV::Let { bindings, body } => {
                expands_same(written::opened("let"@), macros);
                expands_same(written::one_piece(PieceV::Tok(TokenV::LBracket)), macros);
                expands_same(Seq::empty(), macros);
                grow_bindings(bindings, 0, Seq::empty(), macros, depth);
                expands_same(written::one_piece(PieceV::Tok(TokenV::RBracket)), macros);
                grow(*body, macros, depth);
                expands_same(written::closed(), macros);
                expands_add(written::opened("let"@), written::opened("let"@), written::one_piece(PieceV::Tok(TokenV::LBracket)), written::one_piece(PieceV::Tok(TokenV::LBracket)), macros);
                expands_add(written::opened("let"@) + written::one_piece(PieceV::Tok(TokenV::LBracket)), written::opened("let"@) + written::one_piece(PieceV::Tok(TokenV::LBracket)), written::pieces_bindings(bindings, bindings.len() as int), written::pieces_bindings(macroexpand::expanded_bindings(bindings, 0, Seq::empty(), macros, depth).0, bindings.len() as int), macros);
                expands_add(written::opened("let"@) + written::one_piece(PieceV::Tok(TokenV::LBracket)) + written::pieces_bindings(bindings, bindings.len() as int), written::opened("let"@) + written::one_piece(PieceV::Tok(TokenV::LBracket)) + written::pieces_bindings(macroexpand::expanded_bindings(bindings, 0, Seq::empty(), macros, depth).0, bindings.len() as int), written::one_piece(PieceV::Tok(TokenV::RBracket)), written::one_piece(PieceV::Tok(TokenV::RBracket)), macros);
                expands_add(written::opened("let"@) + written::one_piece(PieceV::Tok(TokenV::LBracket)) + written::pieces_bindings(bindings, bindings.len() as int) + written::one_piece(PieceV::Tok(TokenV::RBracket)), written::opened("let"@) + written::one_piece(PieceV::Tok(TokenV::LBracket)) + written::pieces_bindings(macroexpand::expanded_bindings(bindings, 0, Seq::empty(), macros, depth).0, bindings.len() as int) + written::one_piece(PieceV::Tok(TokenV::RBracket)), written::pieces(*body), written::pieces(macroexpand::expanded(*body, macros, depth).0), macros);
                expands_add(written::opened("let"@) + written::one_piece(PieceV::Tok(TokenV::LBracket)) + written::pieces_bindings(bindings, bindings.len() as int) + written::one_piece(PieceV::Tok(TokenV::RBracket)) + written::pieces(*body), written::opened("let"@) + written::one_piece(PieceV::Tok(TokenV::LBracket)) + written::pieces_bindings(macroexpand::expanded_bindings(bindings, 0, Seq::empty(), macros, depth).0, bindings.len() as int) + written::one_piece(PieceV::Tok(TokenV::RBracket)) + written::pieces(macroexpand::expanded(*body, macros, depth).0), written::closed(), written::closed(), macros);
            },
            ExprKindV::Do(es) => {
                expands_same(written::opened("do"@), macros);
                expands_same(Seq::empty(), macros);
                grow_all(es, 0, Seq::empty(), macros, depth);
                expands_same(written::closed(), macros);
                expands_add(written::opened("do"@), written::opened("do"@), written::pieces_all(es, es.len() as int), written::pieces_all(macroexpand::expanded_all(es, 0, Seq::empty(), macros, depth).0, es.len() as int), macros);
                expands_add(written::opened("do"@) + written::pieces_all(es, es.len() as int), written::opened("do"@) + written::pieces_all(macroexpand::expanded_all(es, 0, Seq::empty(), macros, depth).0, es.len() as int), written::closed(), written::closed(), macros);
            },
            ExprKindV::Cast { ty, expr } => {
                expands_same(written::opened("as"@), macros);
                expands_same(written::type_pieces(ty), macros);
                grow(*expr, macros, depth);
                expands_same(written::closed(), macros);
                expands_add(written::opened("as"@), written::opened("as"@), written::type_pieces(ty), written::type_pieces(ty), macros);
                expands_add(written::opened("as"@) + written::type_pieces(ty), written::opened("as"@) + written::type_pieces(ty), written::pieces(*expr), written::pieces(macroexpand::expanded(*expr, macros, depth).0), macros);
                expands_add(written::opened("as"@) + written::type_pieces(ty) + written::pieces(*expr), written::opened("as"@) + written::type_pieces(ty) + written::pieces(macroexpand::expanded(*expr, macros, depth).0), written::closed(), written::closed(), macros);
            },
            ExprKindV::Assign { name, value } => {
                expands_same(written::opened("set!"@), macros);
                expands_same(written::one_piece(PieceV::Name(name)), macros);
                grow(*value, macros, depth);
                expands_same(written::closed(), macros);
                expands_add(written::opened("set!"@), written::opened("set!"@), written::one_piece(PieceV::Name(name)), written::one_piece(PieceV::Name(name)), macros);
                expands_add(written::opened("set!"@) + written::one_piece(PieceV::Name(name)), written::opened("set!"@) + written::one_piece(PieceV::Name(name)), written::pieces(*value), written::pieces(macroexpand::expanded(*value, macros, depth).0), macros);
                expands_add(written::opened("set!"@) + written::one_piece(PieceV::Name(name)) + written::pieces(*value), written::opened("set!"@) + written::one_piece(PieceV::Name(name)) + written::pieces(macroexpand::expanded(*value, macros, depth).0), written::closed(), written::closed(), macros);
            },
            ExprKindV::While { cond, body } => {
                expands_same(written::opened("while"@), macros);
                grow(*cond, macros, depth);
                grow(*body, macros, depth);
                expands_same(written::closed(), macros);
                expands_add(written::opened("while"@), written::opened("while"@), written::pieces(*cond), written::pieces(macroexpand::expanded(*cond, macros, depth).0), macros);
                expands_add(written::opened("while"@) + written::pieces(*cond), written::opened("while"@) + written::pieces(macroexpand::expanded(*cond, macros, depth).0), written::pieces(*body), written::pieces(macroexpand::expanded(*body, macros, depth).0), macros);
                expands_add(written::opened("while"@) + written::pieces(*cond) + written::pieces(*body), written::opened("while"@) + written::pieces(macroexpand::expanded(*cond, macros, depth).0) + written::pieces(macroexpand::expanded(*body, macros, depth).0), written::closed(), written::closed(), macros);
            },
            ExprKindV::Loop { body } => {
                expands_same(written::opened("loop"@), macros);
                grow(*body, macros, depth);
                expands_same(written::closed(), macros);
                expands_add(written::opened("loop"@), written::opened("loop"@), written::pieces(*body), written::pieces(macroexpand::expanded(*body, macros, depth).0), macros);
                expands_add(written::opened("loop"@) + written::pieces(*body), written::opened("loop"@) + written::pieces(macroexpand::expanded(*body, macros, depth).0), written::closed(), written::closed(), macros);
            },
            ExprKindV::ArrayLit { elem_ty, elems } => {
                expands_same(written::opened("array"@), macros);
                expands_same(written::type_pieces(elem_ty), macros);
                expands_same(Seq::empty(), macros);
                grow_all(elems, 0, Seq::empty(), macros, depth);
                expands_same(written::closed(), macros);
                expands_add(written::opened("array"@), written::opened("array"@), written::type_pieces(elem_ty), written::type_pieces(elem_ty), macros);
                expands_add(written::opened("array"@) + written::type_pieces(elem_ty), written::opened("array"@) + written::type_pieces(elem_ty), written::pieces_all(elems, elems.len() as int), written::pieces_all(macroexpand::expanded_all(elems, 0, Seq::empty(), macros, depth).0, elems.len() as int), macros);
                expands_add(written::opened("array"@) + written::type_pieces(elem_ty) + written::pieces_all(elems, elems.len() as int), written::opened("array"@) + written::type_pieces(elem_ty) + written::pieces_all(macroexpand::expanded_all(elems, 0, Seq::empty(), macros, depth).0, elems.len() as int), written::closed(), written::closed(), macros);
            },
            ExprKindV::Field { base, field } => {
                expands_same(written::opened("field"@), macros);
                grow(*base, macros, depth);
                expands_same(written::one_piece(PieceV::Name(field)), macros);
                expands_same(written::closed(), macros);
                expands_add(written::opened("field"@), written::opened("field"@), written::pieces(*base), written::pieces(macroexpand::expanded(*base, macros, depth).0), macros);
                expands_add(written::opened("field"@) + written::pieces(*base), written::opened("field"@) + written::pieces(macroexpand::expanded(*base, macros, depth).0), written::one_piece(PieceV::Name(field)), written::one_piece(PieceV::Name(field)), macros);
                expands_add(written::opened("field"@) + written::pieces(*base) + written::one_piece(PieceV::Name(field)), written::opened("field"@) + written::pieces(macroexpand::expanded(*base, macros, depth).0) + written::one_piece(PieceV::Name(field)), written::closed(), written::closed(), macros);
            },
            ExprKindV::Match { scrutinee, arms } => {
                expands_same(written::opened("match"@), macros);
                grow(*scrutinee, macros, depth);
                expands_same(Seq::empty(), macros);
                grow_arms(arms, 0, Seq::empty(), macros, depth);
                expands_same(written::closed(), macros);
                expands_add(written::opened("match"@), written::opened("match"@), written::pieces(*scrutinee), written::pieces(macroexpand::expanded(*scrutinee, macros, depth).0), macros);
                expands_add(written::opened("match"@) + written::pieces(*scrutinee), written::opened("match"@) + written::pieces(macroexpand::expanded(*scrutinee, macros, depth).0), written::pieces_arms(arms, arms.len() as int), written::pieces_arms(macroexpand::expanded_arms(arms, 0, Seq::empty(), macros, depth).0, arms.len() as int), macros);
                expands_add(written::opened("match"@) + written::pieces(*scrutinee) + written::pieces_arms(arms, arms.len() as int), written::opened("match"@) + written::pieces(macroexpand::expanded(*scrutinee, macros, depth).0) + written::pieces_arms(macroexpand::expanded_arms(arms, 0, Seq::empty(), macros, depth).0, arms.len() as int), written::closed(), written::closed(), macros);
            },
            ExprKindV::Call { callee, args } => {
                expands_same(written::one_piece(PieceV::Tok(TokenV::LParen)), macros);
                expands_same(written::one_piece(PieceV::Callee(callee)), macros);
                expands_same(Seq::empty(), macros);
                grow_all(args, 0, Seq::empty(), macros, depth);
                expands_same(written::closed(), macros);
                expands_add(written::one_piece(PieceV::Tok(TokenV::LParen)), written::one_piece(PieceV::Tok(TokenV::LParen)), written::one_piece(PieceV::Callee(callee)), written::one_piece(PieceV::Callee(callee)), macros);
                expands_add(written::one_piece(PieceV::Tok(TokenV::LParen)) + written::one_piece(PieceV::Callee(callee)), written::one_piece(PieceV::Tok(TokenV::LParen)) + written::one_piece(PieceV::Callee(callee)), written::pieces_all(args, args.len() as int), written::pieces_all(macroexpand::expanded_all(args, 0, Seq::empty(), macros, depth).0, args.len() as int), macros);
                expands_add(written::one_piece(PieceV::Tok(TokenV::LParen)) + written::one_piece(PieceV::Callee(callee)) + written::pieces_all(args, args.len() as int), written::one_piece(PieceV::Tok(TokenV::LParen)) + written::one_piece(PieceV::Callee(callee)) + written::pieces_all(macroexpand::expanded_all(args, 0, Seq::empty(), macros, depth).0, args.len() as int), written::closed(), written::closed(), macros);
            },
        }
    }
}

proof fn grow_all(xs: Seq<ExprV>, i: int, acc: Seq<ExprV>, macros: Macros, depth: u32)
    requires
        0 <= i <= xs.len(),
        acc.len() == i,
        expands(written::pieces_all(xs, i), written::pieces_all(acc, i), macros),
    ensures
        ({
            let (r, err) = macroexpand::expanded_all(xs, i, acc, macros, depth);
            err is None ==> r.len() == xs.len() && expands(
                written::pieces_all(xs, xs.len() as int),
                written::pieces_all(r, xs.len() as int),
                macros,
            )
        }),
    decreases macroexpand::depth_left(depth), xs, xs.len() - i,
{
    if i < xs.len() {
        grow(xs[i], macros, depth);
        let (r, err) = macroexpand::expanded(xs[i], macros, depth);
        if err is None {
            let x = r;
            written::lemma_pieces_all_prefix(acc, x, i);
            assert(acc.push(x)[i] == x);
            expands_add(written::pieces_all(xs, i), written::pieces_all(acc, i), written::pieces(xs[i]), written::pieces(r), macros);
            grow_all(xs, i + 1, acc.push(x), macros, depth);
        }
    }
}

proof fn grow_bindings(xs: Seq<BindingV>, i: int, acc: Seq<BindingV>, macros: Macros, depth: u32)
    requires
        0 <= i <= xs.len(),
        acc.len() == i,
        expands(written::pieces_bindings(xs, i), written::pieces_bindings(acc, i), macros),
    ensures
        ({
            let (r, err) = macroexpand::expanded_bindings(xs, i, acc, macros, depth);
            err is None ==> r.len() == xs.len() && expands(
                written::pieces_bindings(xs, xs.len() as int),
                written::pieces_bindings(r, xs.len() as int),
                macros,
            )
        }),
    decreases macroexpand::depth_left(depth), xs, xs.len() - i,
{
    if i < xs.len() {
        grow(xs[i].value, macros, depth);
        let (r, err) = macroexpand::expanded(xs[i].value, macros, depth);
        if err is None {
            let x = BindingV { value: r, ..xs[i] };
            expands_same(written::one_piece(PieceV::Name(xs[i].name)), macros);
            expands_same(written::one_piece(PieceV::Tok(TokenV::Colon)), macros);
            expands_same(written::type_pieces(xs[i].ty), macros);
            expands_add(written::one_piece(PieceV::Name(xs[i].name)), written::one_piece(PieceV::Name(xs[i].name)), written::one_piece(PieceV::Tok(TokenV::Colon)), written::one_piece(PieceV::Tok(TokenV::Colon)), macros);
            expands_add(written::one_piece(PieceV::Name(xs[i].name)) + written::one_piece(PieceV::Tok(TokenV::Colon)), written::one_piece(PieceV::Name(xs[i].name)) + written::one_piece(PieceV::Tok(TokenV::Colon)), written::type_pieces(xs[i].ty), written::type_pieces(xs[i].ty), macros);
            expands_add(written::one_piece(PieceV::Name(xs[i].name)) + written::one_piece(PieceV::Tok(TokenV::Colon)) + written::type_pieces(xs[i].ty), written::one_piece(PieceV::Name(xs[i].name)) + written::one_piece(PieceV::Tok(TokenV::Colon)) + written::type_pieces(xs[i].ty), written::pieces(xs[i].value), written::pieces(r), macros);
            written::lemma_pieces_bindings_prefix(acc, x, i);
            assert(acc.push(x)[i] == x);
            expands_add(written::pieces_bindings(xs, i), written::pieces_bindings(acc, i), written::pieces_binding(xs[i]), written::pieces_binding(x), macros);
            grow_bindings(xs, i + 1, acc.push(x), macros, depth);
        }
    }
}

proof fn grow_arms(xs: Seq<MatchArmV>, i: int, acc: Seq<MatchArmV>, macros: Macros, depth: u32)
    requires
        0 <= i <= xs.len(),
        acc.len() == i,
        expands(written::pieces_arms(xs, i), written::pieces_arms(acc, i), macros),
    ensures
        ({
            let (r, err) = macroexpand::expanded_arms(xs, i, acc, macros, depth);
            err is None ==> r.len() == xs.len() && expands(
                written::pieces_arms(xs, xs.len() as int),
                written::pieces_arms(r, xs.len() as int),
                macros,
            )
        }),
    decreases macroexpand::depth_left(depth), xs, xs.len() - i,
{
    if i < xs.len() {
        grow(xs[i].body, macros, depth);
        let (r, err) = macroexpand::expanded(xs[i].body, macros, depth);
        if err is None {
            let x = MatchArmV { body: r, ..xs[i] };
            expands_same(written::one_piece(PieceV::Tok(TokenV::LParen)), macros);
            expands_same(written::one_piece(PieceV::Variant(xs[i].variant)), macros);
            expands_same(written::bound_piece(xs[i].binding), macros);
            expands_same(written::closed(), macros);
            expands_add(written::one_piece(PieceV::Tok(TokenV::LParen)), written::one_piece(PieceV::Tok(TokenV::LParen)), written::one_piece(PieceV::Variant(xs[i].variant)), written::one_piece(PieceV::Variant(xs[i].variant)), macros);
            expands_add(written::one_piece(PieceV::Tok(TokenV::LParen)) + written::one_piece(PieceV::Variant(xs[i].variant)), written::one_piece(PieceV::Tok(TokenV::LParen)) + written::one_piece(PieceV::Variant(xs[i].variant)), written::bound_piece(xs[i].binding), written::bound_piece(xs[i].binding), macros);
            expands_add(written::one_piece(PieceV::Tok(TokenV::LParen)) + written::one_piece(PieceV::Variant(xs[i].variant)) + written::bound_piece(xs[i].binding), written::one_piece(PieceV::Tok(TokenV::LParen)) + written::one_piece(PieceV::Variant(xs[i].variant)) + written::bound_piece(xs[i].binding), written::pieces(xs[i].body), written::pieces(r), macros);
            expands_add(written::one_piece(PieceV::Tok(TokenV::LParen)) + written::one_piece(PieceV::Variant(xs[i].variant)) + written::bound_piece(xs[i].binding) + written::pieces(xs[i].body), written::one_piece(PieceV::Tok(TokenV::LParen)) + written::one_piece(PieceV::Variant(xs[i].variant)) + written::bound_piece(xs[i].binding) + written::pieces(r), written::closed(), written::closed(), macros);
            written::lemma_pieces_arms_prefix(acc, x, i);
            assert(acc.push(x)[i] == x);
            expands_add(written::pieces_arms(xs, i), written::pieces_arms(acc, i), written::pieces_arm(xs[i]), written::pieces_arm(x), macros);
            grow_arms(xs, i + 1, acc.push(x), macros, depth);
        }
    }
}

/// Expansion replaces macro calls by their templates, with the arguments put in, and
/// changes nothing else.
pub proof fn law_expansion_replaces_calls(e: ExprV, macros: Macros, depth: u32)
    ensures
        ({
            let (r, err) = macroexpand::expanded(e, macros, depth);
            err is None ==> expands(written::pieces(e), written::pieces(r), macros)
        }),
{
    grow(e, macros, depth);
}

} // verus!
