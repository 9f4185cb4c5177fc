//! Laws of the symbols that the methods of impls get.
use crate::ast::TypeV;
use crate::ast;
use crate::grammar;
use crate::text;
use crate::typing;
use vstd::prelude::*;

verus! {

/// Whether a program can write a type: a name in it is not that of a builtin type.
pub open spec fn written(t: TypeV) -> bool
    decreases t,
{
    match t {
        TypeV::Named(n) => grammar::named_type(n) == t,
        TypeV::Array { elem, .. } => written(*elem),
        _ => true,
    }
}

/// Whether a name has no character `c`.
pub open spec fn without(s: Seq<char>, c: char) -> bool {
    forall|i: int| 0 <= i < s.len() ==> #[trigger] s[i] != c
}

/// Whether the names in a type are made of letters and digits.
pub open spec fn plainly_named(t: TypeV) -> bool
    decreases t,
{
    match t {
        TypeV::Named(n) => typing::sanitized(n) == n && without(n, '_'),
        TypeV::Array { elem, .. } => plainly_named(*elem),
        _ => true,
    }
}

/// What is in front of the first `c` and what is behind it.
proof fn lemma_first(x: Seq<char>, r: Seq<char>, y: Seq<char>, q: Seq<char>, c: char)
    requires
        without(x, c),
        without(y, c),
        x + seq![c] + r == y + seq![c] + q,
    ensures
        x == y,
        r == q,
{
    let a = x + seq![c] + r;
    let b = y + seq![c] + q;
    assert(a[x.len() as int] == c);
    assert(b[y.len() as int] == c);
    if x.len() < y.len() {
        assert(b[x.len() as int] == y[x.len() as int]);
    } else if y.len() < x.len() {
        assert(a[y.len() as int] == x[y.len() as int]);
    }
    assert(a.subrange(0, x.len() as int) =~= x);
    assert(b.subrange(0, y.len() as int) =~= y);
    assert(a.subrange(x.len() as int + 1, a.len() as int) =~= r);
    assert(b.subrange(y.len() as int + 1, b.len() as int) =~= q);
}

/// What is in front of the last `c` and what is behind it.
proof fn lemma_last(r: Seq<char>, x: Seq<char>, q: Seq<char>, y: Seq<char>, c: char)
    requires
        without(x, c),
        without(y, c),
        r + seq![c] + x == q + seq![c] + y,
    ensures
        x == y,
        r == q,
{
    let a = r + seq![c] + x;
    let b = q + seq![c] + y;
    assert(a.len() == r.len() + 1 + x.len());
    assert(b.len() == q.len() + 1 + y.len());
    assert(a[r.len() as int] == c);
    assert(b[q.len() as int] == c);
    if r.len() < q.len() {
        assert(a[q.len() as int] == x[q.len() - (r.len() + 1)]);
        assert(x[q.len() - (r.len() + 1)] != c);
    } else if q.len() < r.len() {
        assert(b[r.len() as int] == y[r.len() - (q.len() + 1)]);
        assert(y[r.len() - (q.len() + 1)] != c);
    }
    assert(a.subrange(0, r.len() as int) =~= r);
    assert(b.subrange(0, q.len() as int) =~= q);
    assert(a.subrange(r.len() as int + 1, a.len() as int) =~= x);
    assert(b.subrange(q.len() as int + 1, b.len() as int) =~= y);
}

/// Decimal text is made of digits, and tells numbers apart.
proof fn lemma_dec_unique(a: nat, b: nat)
    ensures
        text::dec(a).len() > 0,
        text::dec(b).len() > 0,
        text::dec(a) == text::dec(b) ==> a == b,
    decreases a + b,
{
    let x = text::dec(a);
    let y = text::dec(b);
    if a >= 10 {
        lemma_dec_unique(a / 10, 0);
    }
    if b >= 10 {
        lemma_dec_unique(0, b / 10);
    }
    if x == y {
        assert(x[x.len() - 1] == y[y.len() - 1]);
        if a >= 10 && b >= 10 {
            assert(x.drop_last() =~= text::dec(a / 10));
            assert(y.drop_last() =~= text::dec(b / 10));
            lemma_dec_unique(a / 10, b / 10);
        }
    }
}

proof fn lemma_dec_plain(n: nat)
    ensures
        typing::sanitized(text::dec(n)) == text::dec(n),
        without(text::dec(n), '_'),
    decreases n,
{
    if n >= 10 {
        lemma_dec_plain(n / 10);
        let front = text::dec(n / 10);
        let all = text::dec(n);
        assert forall|i: int| 0 <= i < all.len() implies typing::symbol_char(#[trigger] all[i])
            == all[i] && all[i] != '_' by {
            if i < front.len() {
                assert(all[i] == front[i]);
                assert(typing::sanitized(front)[i] == front[i]);
            }
        }
    }
    assert(typing::sanitized(text::dec(n)) =~= text::dec(n));
}

proof fn lemma_sanitized_parts(a: Seq<char>, b: Seq<char>)
    ensures
        typing::sanitized(a + b) == typing::sanitized(a) + typing::sanitized(b),
{
    assert(typing::sanitized(a + b) =~= typing::sanitized(a) + typing::sanitized(b));
}

/// The texts of the builtin types.
proof fn lemma_builtin_texts()
    ensures
        "i32"@ == seq!['i', '3', '2'],
        "i64"@ == seq!['i', '6', '4'],
        "f32"@ == seq!['f', '3', '2'],
        "f64"@ == seq!['f', '6', '4'],
        "bool"@ == seq!['b', 'o', 'o', 'l'],
        "str"@ == seq!['s', 't', 'r'],
        "unit"@ == seq!['u', 'n', 'i', 't'],
{
    reveal_strlit("i32");
    reveal_strlit("i64");
    reveal_strlit("f32");
    reveal_strlit("f64");
    reveal_strlit("bool");
    reveal_strlit("str");
    reveal_strlit("unit");
    assert("i32"@ =~= seq!['i', '3', '2']);
    assert("i64"@ =~= seq!['i', '6', '4']);
    assert("f32"@ =~= seq!['f', '3', '2']);
    assert("f64"@ =~= seq!['f', '6', '4']);
    assert("bool"@ =~= seq!['b', 'o', 'o', 'l']);
    assert("str"@ =~= seq!['s', 't', 'r']);
    assert("unit"@ =~= seq!['u', 'n', 'i', 't']);
}

/// Types that are no arrays are told apart by their texts.
proof fn lemma_flat_texts(a: TypeV, b: TypeV)
    requires
        written(a),
        written(b),
        !(a is Array),
        !(b is Array),
        ast::type_text(a) == ast::type_text(b),
    ensures
        a == b,
{
    lemma_builtin_texts();
    let x = ast::type_text(a);
    let y = ast::type_text(b);
    assert(x.len() == y.len());
    if !(a is Named) && !(b is Named) {
        assert(x[0] == y[0] && x[1] == y[1]);
    }
}

/// The text of a type that is no array, made of letters and digits.
proof fn lemma_flat_plain(t: TypeV)
    requires
        plainly_named(t),
        !(t is Array),
    ensures
        typing::sanitized(ast::type_text(t)) == ast::type_text(t),
        without(ast::type_text(t), '_'),
{
    lemma_builtin_texts();
    assert(typing::sanitized(ast::type_text(t)) =~= ast::type_text(t));
}

/// The part of a symbol that an array type gives.
proof fn lemma_array_part(elem: TypeV, len: u32)
    ensures
        typing::sanitized(ast::type_text(TypeV::Array { elem: Box::new(elem), len })) == seq![
            '_',
            'A',
            'r',
            'r',
            'a',
            'y',
            '_',
        ] + (typing::sanitized(ast::type_text(elem)) + seq!['_'] + text::dec(len as nat)) + seq!['_'],
{
    reveal_strlit("(Array ");
    reveal_strlit(" ");
    reveal_strlit(")");
    let e = ast::type_text(elem);
    let n = text::dec(len as nat);
    lemma_dec_plain(len as nat);
    lemma_sanitized_parts("(Array "@ + e + " "@ + n, ")"@);
    lemma_sanitized_parts("(Array "@ + e + " "@, n);
    lemma_sanitized_parts("(Array "@ + e, " "@);
    lemma_sanitized_parts("(Array "@, e);
    assert(typing::sanitized("(Array "@) =~= seq!['_', 'A', 'r', 'r', 'a', 'y', '_']);
    assert(typing::sanitized(" "@) =~= seq!['_']);
    assert(typing::sanitized(")"@) =~= seq!['_']);
    let head = seq!['_', 'A', 'r', 'r', 'a', 'y', '_'];
    let s = typing::sanitized(e);
    assert(head + s + seq!['_'] + n + seq!['_'] =~= head + (s + seq!['_'] + n) + seq!['_']);
}

/// Types with plain names are told apart by their parts of symbols.
proof fn lemma_parts_unique(a: TypeV, b: TypeV)
    requires
        written(a),
        written(b),
        plainly_named(a),
        plainly_named(b),
        typing::sanitized(ast::type_text(a)) == typing::sanitized(ast::type_text(b)),
    ensures
        a == b,
    decreases a,
{
    let head = seq!['_', 'A', 'r', 'r', 'a', 'y', '_'];
    let x = typing::sanitized(ast::type_text(a));
    let y = typing::sanitized(ast::type_text(b));
    match (a, b) {
        (TypeV::Array { elem: ea, len: la }, TypeV::Array { elem: eb, len: lb }) => {
            lemma_array_part(*ea, la);
            lemma_array_part(*eb, lb);
            let sa = typing::sanitized(ast::type_text(*ea));
            let sb = typing::sanitized(ast::type_text(*eb));
            let na = text::dec(la as nat);
            let nb = text::dec(lb as nat);
            let ma = sa + seq!['_'] + na;
            let mb = sb + seq!['_'] + nb;
            assert(x.subrange(7, x.len() - 1) =~= ma);
            assert(y.subrange(7, y.len() - 1) =~= mb);
            lemma_dec_plain(la as nat);
            lemma_dec_plain(lb as nat);
            lemma_last(sa, na, sb, nb, '_');
            lemma_dec_unique(la as nat, lb as nat);
            lemma_parts_unique(*ea, *eb);
        },
        (TypeV::Array { elem, len }, _) => {
            lemma_array_part(*elem, len);
            lemma_flat_plain(b);
            assert(x[0] == '_');
            assert(y[0] != '_');
        },
        (_, TypeV::Array { elem, len }) => {
            lemma_array_part(*elem, len);
            lemma_flat_plain(a);
            assert(y[0] == '_');
            assert(x[0] != '_');
        },
        _ => {
            lemma_flat_plain(a);
            lemma_flat_plain(b);
            lemma_flat_texts(a, b);
        },
    }
}

/// For one trait and one method, two types share a symbol if and only if their texts are
/// the same once everything but letters and digits has been replaced.
pub proof fn law_symbols_of_types(trait_name: Seq<char>, a: TypeV, b: TypeV, method: Seq<char>)
    ensures
        typing::method_symbol(trait_name, a, method) == typing::method_symbol(trait_name, b, method)
            <==> typing::sanitized(ast::type_text(a)) == typing::sanitized(ast::type_text(b)),
{
    let x = typing::sanitized(ast::type_text(a));
    let y = typing::sanitized(ast::type_text(b));
    let front = "__risp_"@ + trait_name + "_"@;
    let back = "_"@ + method;
    let p = typing::method_symbol(trait_name, a, method);
    let q = typing::method_symbol(trait_name, b, method);
    assert(p =~= front + x + back);
    assert(q =~= front + y + back);
    if p == q {
        assert(x.len() == y.len());
        assert(p.subrange(front.len() as int, front.len() as int + x.len() as int) =~= x);
        assert(q.subrange(front.len() as int, front.len() as int + y.len() as int) =~= y);
    }
}

/// For one trait and one method, types whose texts a symbol holds unchanged have symbols
/// of their own.
pub proof fn law_unchanged_types_have_own_symbols(
    trait_name: Seq<char>,
    a: TypeV,
    b: TypeV,
    method: Seq<char>,
)
    requires
        written(a),
        written(b),
        typing::sanitized(ast::type_text(a)) == ast::type_text(a),
        typing::sanitized(ast::type_text(b)) == ast::type_text(b),
        typing::method_symbol(trait_name, a, method) == typing::method_symbol(trait_name, b, method),
    ensures
        a == b,
{
    law_symbols_of_types(trait_name, a, b, method);
    lemma_unchanged_is_flat(a);
    lemma_unchanged_is_flat(b);
    lemma_flat_texts(a, b);
}

/// The text of an array type is changed.
proof fn lemma_unchanged_is_flat(t: TypeV)
    requires
        typing::sanitized(ast::type_text(t)) == ast::type_text(t),
    ensures
        !(t is Array),
{
    reveal_strlit("(Array ");
    if t is Array {
        assert(ast::type_text(t)[0] == '(');
        assert(typing::sanitized(ast::type_text(t))[0] == '_');
    }
}

/// Every method of every impl has a symbol of its own, where the names of traits and
/// methods have no `_` and those in types are made of letters and digits: the symbol
/// tells which trait, which type and which method it is.
pub proof fn law_method_symbols_are_unique(
    trait_a: Seq<char>,
    a: TypeV,
    method_a: Seq<char>,
    trait_b: Seq<char>,
    b: TypeV,
    method_b: Seq<char>,
)
    requires
        without(trait_a, '_') && without(trait_b, '_'),
        without(method_a, '_') && without(method_b, '_'),
        written(a) && written(b),
        plainly_named(a) && plainly_named(b),
        typing::method_symbol(trait_a, a, method_a) == typing::method_symbol(trait_b, b, method_b),
    ensures
        trait_a == trait_b,
        a == b,
        method_a == method_b,
{
    reveal_strlit("_");
    let x = typing::sanitized(ast::type_text(a));
    let y = typing::sanitized(ast::type_text(b));
    let p = typing::method_symbol(trait_a, a, method_a);
    let q = typing::method_symbol(trait_b, b, method_b);
    let start = "__risp_"@;
    assert("_"@ =~= seq!['_']);
    let ra = x + seq!['_'] + method_a;
    let rb = y + seq!['_'] + method_b;
    assert(p =~= start + (trait_a + seq!['_'] + ra));
    assert(q =~= start + (trait_b + seq!['_'] + rb));
    assert(p.subrange(start.len() as int, p.len() as int) =~= trait_a + seq!['_'] + ra);
    assert(q.subrange(start.len() as int, q.len() as int) =~= trait_b + seq!['_'] + rb);
    lemma_first(trait_a, ra, trait_b, rb, '_');
    lemma_last(x, method_a, y, method_b, '_');
    lemma_parts_unique(a, b);
}

} // verus!
