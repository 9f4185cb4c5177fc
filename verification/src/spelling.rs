//! Laws of the lexer: the text of tokens gives back the tokens.
use crate::ast::Span;
use crate::lexer::{FloatSuffix, IntSuffix, LexErrorV, SpannedV, TokenV};
use crate::lexer;
use crate::text;
use vstd::prelude::*;
use vstd::string::*;

verus! {

pub open spec fn int_suffix(k: Option<IntSuffix>) -> Seq<char> {
    match k {
        None => Seq::empty(),
        Some(IntSuffix::I32) => seq!['i', '3', '2'],
        Some(IntSuffix::I64) => seq!['i', '6', '4'],
    }
}

pub open spec fn float_suffix(k: Option<FloatSuffix>) -> Seq<char> {
    match k {
        None => Seq::empty(),
        Some(FloatSuffix::F32) => seq!['f', '3', '2'],
        Some(FloatSuffix::F64) => seq!['f', '6', '4'],
    }
}

/// A character of a string literal.
pub open spec fn char_text(c: char) -> Seq<char> {
    if c == '\n' {
        seq!['\\', 'n']
    } else if c == '\t' {
        seq!['\\', 't']
    } else if c == '\r' {
        seq!['\\', 'r']
    } else if c == '\\' {
        seq!['\\', '\\']
    } else if c == '"' {
        seq!['\\', '"']
    } else if c == '\0' {
        seq!['\\', '0']
    } else {
        seq![c]
    }
}

pub open spec fn chars_text(s: Seq<char>) -> Seq<char>
    decreases s.len(),
{
    if s.len() == 0 {
        Seq::empty()
    } else {
        char_text(s[0]) + chars_text(s.drop_first())
    }
}

/// How a token is written.
pub open spec fn token_chars(t: TokenV) -> Seq<char> {
    match t {
        TokenV::LParen => seq!['('],
        TokenV::RParen => seq![')'],
        TokenV::LBracket => seq!['['],
        TokenV::RBracket => seq![']'],
        TokenV::Colon => seq![':'],
        TokenV::Comma => seq![','],
        TokenV::Arrow => seq!['-', '>'],
        TokenV::Ident(s) => s,
        TokenV::Int(v, k) => text::signed_dec(v as int) + int_suffix(k),
        TokenV::Float(s, k) => s + float_suffix(k),
        TokenV::Str(s) => seq!['"'] + chars_text(s) + seq!['"'],
        TokenV::Bool(b) => if b {
            seq!['t', 'r', 'u', 'e']
        } else {
            seq!['f', 'a', 'l', 's', 'e']
        },
    }
}

pub open spec fn ascii(s: Seq<char>) -> bool {
    forall|i: int| 0 <= i < s.len() ==> '\0' <= #[trigger] s[i] <= '\u{7f}'
}

/// Whether all characters are digits, and there is one.
pub open spec fn digits(s: Seq<char>) -> bool {
    s.len() > 0 && forall|i: int| 0 <= i < s.len() ==> '0' <= #[trigger] s[i] <= '9'
}

/// Whether a name can be written: it starts like a name and goes on like one, and is neither
/// a number, an arrow nor a truth value.
pub open spec fn name_like(s: Seq<char>) -> bool {
    &&& s.len() > 0 && ascii(s)
    &&& lexer::starts_ident(s[0] as u8)
    &&& forall|i: int| 0 <= i < s.len() ==> lexer::continues_ident((#[trigger] s[i]) as u8)
    &&& s.len() > 1 && s[0] == '-' ==> !('0' <= s[1] <= '9') && s[1] != '>'
    &&& s != seq!['t', 'r', 'u', 'e'] && s != seq!['f', 'a', 'l', 's', 'e']
}

/// Whether a text is that of a whole number or, with a point, of a fraction.
pub open spec fn number_like(s: Seq<char>, whole: Seq<char>, rest: Seq<char>) -> bool {
    &&& digits(whole)
    &&& s == whole || s == seq!['-'] + whole || (digits(rest) && (s == whole + seq!['.'] + rest || s
        == seq!['-'] + whole + seq!['.'] + rest))
}

pub open spec fn fraction_like(s: Seq<char>, whole: Seq<char>, rest: Seq<char>) -> bool {
    &&& digits(whole) && digits(rest)
    &&& s == whole + seq!['.'] + rest || s == seq!['-'] + whole + seq!['.'] + rest
}

/// Whether a token can be written.
pub open spec fn spellable(t: TokenV) -> bool {
    match t {
        TokenV::Ident(s) => name_like(s),
        TokenV::Float(s, k) => exists|whole: Seq<char>, rest: Seq<char>|
            {
                &&& #[trigger] number_like(s, whole, rest)
                &&& k is None ==> fraction_like(s, whole, rest)
            },
        TokenV::Str(s) => ascii(s),
        _ => true,
    }
}

/// Tokens with a blank behind each.
pub open spec fn tokens_chars(ts: Seq<TokenV>) -> Seq<char>
    decreases ts.len(),
{
    if ts.len() == 0 {
        Seq::empty()
    } else {
        token_chars(ts[0]) + seq![' '] + tokens_chars(ts.drop_first())
    }
}

/// Whether these characters stand at place `i` of the bytes `b`.
spec fn spelled(b: Seq<u8>, i: int, s: Seq<char>) -> bool {
    &&& 0 <= i && i + s.len() <= b.len()
    &&& forall|k: int| 0 <= k < s.len() ==> b[i + k] == (#[trigger] s[k]) as u8
}

proof fn spelled_split(b: Seq<u8>, i: int, x: Seq<char>, y: Seq<char>)
    requires
        spelled(b, i, x + y),
    ensures
        spelled(b, i, x),
        spelled(b, i + x.len(), y),
{
    assert forall|k: int| 0 <= k < x.len() implies b[i + k] == (#[trigger] x[k]) as u8 by {
        assert((x + y)[k] == x[k]);
    }
    assert forall|k: int| 0 <= k < y.len() implies b[i + x.len() + k] == (#[trigger] y[k]) as u8 by {
        assert((x + y)[x.len() + k] == y[k]);
    }
}

/// A run of bytes ends where the first other one stands.
proof fn run_to(b: Seq<u8>, i: int, j: int, p: spec_fn(u8) -> bool)
    requires
        0 <= i <= j <= b.len(),
        forall|k: int| i <= k < j ==> p(#[trigger] b[k]),
        j < b.len() ==> !p(b[j]),
    ensures
        lexer::run_end(b, i, p) == j,
    decreases j - i,
{
    if i < j {
        assert(p(b[i]));
        run_to(b, i + 1, j, p);
    }
}

proof fn chars_back(b: Seq<u8>, i: int, s: Seq<char>)
    requires
        spelled(b, i, s),
        ascii(s),
    ensures
        lexer::chars_of(b, i, i + s.len()) == s,
{
    assert forall|k: int| 0 <= k < s.len() implies lexer::chars_of(b, i, i + s.len())[k] == s[k] by {
        assert('\0' <= s[k] <= '\u{7f}');
        assert(b[i + k] == s[k] as u8);
    }
    assert(lexer::chars_of(b, i, i + s.len()) =~= s);
}

proof fn name_back(b: Seq<u8>, i: int, s: Seq<char>)
    requires
        spelled(b, i, s),
        s.len() > 0,
        ascii(s),
        lexer::starts_ident(s[0] as u8),
        forall|k: int| 0 <= k < s.len() ==> lexer::continues_ident((#[trigger] s[k]) as u8),
        s.len() > 1 && s[0] == '-' ==> !('0' <= s[1] <= '9') && s[1] != '>',
        i + s.len() < b.len(),
        b[i + s.len()] == 32,
    ensures
        lexer::token_at(b, i) == Ok::<(TokenV, int), LexErrorV>(
            (
                if s == "true"@ {
                    TokenV::Bool(true)
                } else if s == "false"@ {
                    TokenV::Bool(false)
                } else {
                    TokenV::Ident(s)
                },
                i + s.len(),
            ),
        ),
        !lexer::is_blank(b[i]) && b[i] != 59,
{
    let p = |c: u8| lexer::continues_ident(c);
    assert forall|k: int| i <= k < i + s.len() implies p(#[trigger] b[k]) by {
        assert(b[i + (k - i)] == s[k - i] as u8);
    }
    run_to(b, i, i + s.len(), p);
    chars_back(b, i, s);
    assert(b[i + 0] == s[0] as u8);
    if s.len() > 1 {
        assert(b[i + 1] == s[1] as u8);
        assert('\0' <= s[1] <= '\u{7f}');
    }
    assert('\0' <= s[0] <= '\u{7f}');
    assert(lexer::ident_at(b, i).1 == i + s.len());
}

/// Decimal text is read as the number that it is.
proof fn number_back(b: Seq<u8>, i: int, n: nat)
    requires
        spelled(b, i, text::dec(n)),
    ensures
        lexer::digits_value(b, i, i + text::dec(n).len()) == n,
        digits(text::dec(n)),
    decreases n,
{
    let s = text::dec(n);
    let j = i + s.len();
    if n >= 10 {
        let front = text::dec(n / 10);
        assert(s == front + seq![text::digit(n % 10)]);
        spelled_split(b, i, front, seq![text::digit(n % 10)]);
        number_back(b, i, n / 10);
        assert(s[s.len() - 1] == text::digit(n % 10));
        assert(b[i + (s.len() - 1)] == s[s.len() - 1] as u8);
        assert(b[j - 1] == (48 + n % 10) as u8);
        assert(lexer::digits_value(b, i, j) == lexer::digits_value(b, i, j - 1) * 10 + n % 10);
    } else {
        assert(s[0] == text::digit(n));
        assert(b[i + 0] == s[0] as u8);
        assert(lexer::digits_value(b, i, i) == 0);
        assert(lexer::digits_value(b, i, i + 1) == n);
    }
}

/// The digits of a number, with or without a sign, and where they end.
proof fn digits_end(b: Seq<u8>, i: int, s: Seq<char>, j: int)
    requires
        digits(s),
        spelled(b, i, s),
        j == i + s.len(),
        j < b.len(),
        !lexer::is_digit(b[j]),
    ensures
        lexer::run_end(b, i, |c: u8| lexer::is_digit(c)) == j,
        lexer::is_digit(b[i]),
{
    let p = |c: u8| lexer::is_digit(c);
    assert forall|k: int| i <= k < j implies p(#[trigger] b[k]) by {
        assert(b[i + (k - i)] == s[k - i] as u8);
    }
    run_to(b, i, j, p);
}

proof fn int_back(b: Seq<u8>, i: int, v: i64, k: Option<IntSuffix>)
    requires
        spelled(b, i, token_chars(TokenV::Int(v, k))),
        i + token_chars(TokenV::Int(v, k)).len() < b.len(),
        b[i + token_chars(TokenV::Int(v, k)).len()] == 32,
    ensures
        lexer::token_at(b, i) == Ok::<(TokenV, int), LexErrorV>(
            (TokenV::Int(v, k), i + token_chars(TokenV::Int(v, k)).len()),
        ),
        !lexer::is_blank(b[i]) && b[i] != 59,
{
    reveal_strlit("-");
    let all = token_chars(TokenV::Int(v, k));
    let num = text::signed_dec(v as int);
    let n: nat = if v < 0 {
        (-(v as int)) as nat
    } else {
        v as nat
    };
    let d = text::dec(n);
    let suffix = int_suffix(k);
    spelled_split(b, i, num, suffix);
    let at = if v < 0 {
        i + 1
    } else {
        i
    };
    if v < 0 {
        assert("-"@ =~= seq!['-']);
        assert(num == "-"@ + d);
        spelled_split(b, i, "-"@, d);
        assert(b[i + 0] == ("-"@)[0] as u8);
        assert(b[i] == 45);
    }
    assert(spelled(b, at, d));
    number_back(b, at, n);
    let end = at + d.len();
    assert(end == i + num.len());
    assert(suffix.len() == 0 || suffix.len() == 3);
    if suffix.len() == 3 {
        assert(b[end + 0] == suffix[0] as u8);
        assert(b[end + 1] == suffix[1] as u8);
        assert(b[end + 2] == suffix[2] as u8);
    }
    digits_end(b, at, d, end);
    assert(lexer::whole_end(b, i) == end);
    assert(!lexer::has_fraction(b, i));
    assert(lexer::whole_value(b, i, end) == v);
}

proof fn float_back(
    b: Seq<u8>,
    i: int,
    s: Seq<char>,
    k: Option<FloatSuffix>,
    whole: Seq<char>,
    rest: Seq<char>,
)
    requires
        number_like(s, whole, rest),
        k is None ==> fraction_like(s, whole, rest),
        spelled(b, i, s + float_suffix(k)),
        i + s.len() + float_suffix(k).len() < b.len(),
        b[i + s.len() + float_suffix(k).len()] == 32,
    ensures
        lexer::token_at(b, i) == Ok::<(TokenV, int), LexErrorV>(
            (TokenV::Float(s, k), i + s.len() + float_suffix(k).len()),
        ),
        !lexer::is_blank(b[i]) && b[i] != 59,
{
    let suffix = float_suffix(k);
    spelled_split(b, i, s, suffix);
    let end = i + s.len();
    assert(suffix.len() == 0 || suffix.len() == 3);
    if suffix.len() == 3 {
        assert(b[end + 0] == suffix[0] as u8);
        assert(b[end + 1] == suffix[1] as u8);
        assert(b[end + 2] == suffix[2] as u8);
    }
    let minus = s == seq!['-'] + whole || s == seq!['-'] + whole + seq!['.'] + rest;
    let body = if minus {
        s.drop_first()
    } else {
        s
    };
    let at = if minus {
        i + 1
    } else {
        i
    };
    assert(s[0] == '-' <==> minus) by {
        if minus {
            assert(s[0] == '-');
        } else {
            assert(s[0] == whole[0]);
            assert('0' <= whole[0] <= '9');
        }
    }
    assert(b[i + 0] == s[0] as u8);
    let fraction = body == whole + seq!['.'] + rest && digits(rest);
    if minus {
        assert(s =~= seq!['-'] + body);
        spelled_split(b, i, seq!['-'], body);
        assert((seq!['-'] + whole).drop_first() =~= whole);
        assert((seq!['-'] + whole + seq!['.'] + rest).drop_first() =~= whole + seq!['.'] + rest);
    }
    assert(spelled(b, at, body));
    assert(ascii(s)) by {
        assert forall|x: int| 0 <= x < s.len() implies '\0' <= #[trigger] s[x] <= '\u{7f}' by {
            let y = if minus {
                x - 1
            } else {
                x
            };
            if y >= 0 {
                assert(s[x] == body[y]);
                if y < whole.len() {
                    assert(body[y] == whole[y]);
                } else if fraction && y > whole.len() {
                    assert(body[y] == rest[y - whole.len() - 1]);
                }
            }
        }
    }
    chars_back(b, i, s);
    let mid = at + whole.len();
    if fraction {
        spelled_split(b, at, whole + seq!['.'], rest);
        spelled_split(b, at, whole, seq!['.']);
        assert(b[mid + 0] == (seq!['.'])[0] as u8);
        assert(b[mid + 1 + 0] == rest[0] as u8);
        assert('0' <= rest[0] <= '9');
        digits_end(b, at, whole, mid);
        digits_end(b, mid + 1, rest, end);
        assert(lexer::has_fraction(b, i));
    } else {
        assert(body == whole);
        digits_end(b, at, whole, mid);
        assert(!lexer::has_fraction(b, i));
    }
    assert(lexer::whole_end(b, i) == mid);
    assert(lexer::number_end(b, i) == end);
}

proof fn string_back(b: Seq<u8>, start: int, i: int, s: Seq<char>)
    requires
        ascii(s),
        spelled(b, i, chars_text(s) + seq!['"']),
    ensures
        lexer::string_from(b, start, i) == Ok::<(Seq<char>, int), LexErrorV>(
            (s, i + chars_text(s).len() + 1),
        ),
    decreases s.len(),
{
    let all = chars_text(s) + seq!['"'];
    if s.len() == 0 {
        assert(b[i + 0] == all[0] as u8);
        assert(s =~= Seq::empty());
    } else {
        let c = s[0];
        let rest = s.drop_first();
        assert(all =~= char_text(c) + (chars_text(rest) + seq!['"']));
        spelled_split(b, i, char_text(c), chars_text(rest) + seq!['"']);
        assert(ascii(rest)) by {
            assert forall|k: int| 0 <= k < rest.len() implies '\0' <= #[trigger] rest[k] <= '\u{7f}' by {
                assert(rest[k] == s[k + 1]);
            }
        }
        string_back(b, start, i + char_text(c).len(), rest);
        assert(s =~= seq![c] + rest);
        assert('\0' <= c <= '\u{7f}');
        assert(b[i + 0] == char_text(c)[0] as u8);
        if char_text(c).len() == 2 {
            assert(b[i + 1] == char_text(c)[1] as u8);
        }
    }
}

/// One token, with a blank behind it, is read back.
proof fn token_back(b: Seq<u8>, i: int, t: TokenV)
    requires
        spellable(t),
        spelled(b, i, token_chars(t)),
        i + token_chars(t).len() < b.len(),
        b[i + token_chars(t).len()] == 32,
    ensures
        lexer::token_at(b, i) == Ok::<(TokenV, int), LexErrorV>((t, i + token_chars(t).len())),
        !lexer::is_blank(b[i]) && b[i] != 59,
        token_chars(t).len() > 0,
{
    let s = token_chars(t);
    reveal_strlit("true");
    reveal_strlit("false");
    assert("true"@ =~= seq!['t', 'r', 'u', 'e']);
    assert("false"@ =~= seq!['f', 'a', 'l', 's', 'e']);
    match t {
        TokenV::Ident(n) => name_back(b, i, n),
        TokenV::Bool(x) => {
            assert(s.len() == 4 || s.len() == 5);
            name_back(b, i, s);
            assert(("true"@).len() != ("false"@).len());
        },
        TokenV::Int(v, k) => {
            int_back(b, i, v, k);
            reveal_strlit("-");
            number_back_len(v as int);
        },
        TokenV::Float(x, k) => {
            let (whole, rest) = choose|whole: Seq<char>, rest: Seq<char>|
                {
                    &&& #[trigger] number_like(x, whole, rest)
                    &&& k is None ==> fraction_like(x, whole, rest)
                };
            float_back(b, i, x, k, whole, rest);
        },
        TokenV::Str(x) => {
            assert(s =~= seq!['"'] + (chars_text(x) + seq!['"']));
            spelled_split(b, i, seq!['"'], chars_text(x) + seq!['"']);
            assert(b[i + 0] == (seq!['"'])[0] as u8);
            string_back(b, i, i + 1, x);
        },
        TokenV::Arrow => {
            assert(b[i + 0] == s[0] as u8);
            assert(b[i + 1] == s[1] as u8);
        },
        _ => {
            assert(b[i + 0] == s[0] as u8);
        },
    }
}

proof fn number_back_len(v: int)
    ensures
        text::signed_dec(v).len() > 0,
{
    reveal_strlit("-");
}

/// Whether these are the tokens, wherever they stand.
pub open spec fn tokens_are(r: Seq<SpannedV>, ts: Seq<TokenV>) -> bool {
    r.len() == ts.len() && forall|i: int| 0 <= i < ts.len() ==> (#[trigger] r[i]).tok == ts[i]
}

proof fn tokens_back(b: Seq<u8>, i: int, ts: Seq<TokenV>)
    requires
        forall|k: int| 0 <= k < ts.len() ==> spellable(#[trigger] ts[k]),
        spelled(b, i, tokens_chars(ts)),
        i + tokens_chars(ts).len() == b.len(),
    ensures
        lexer::lex_from(b, i) matches Ok(r) && tokens_are(r, ts),
    decreases ts.len(),
{
    if ts.len() > 0 {
        let t = ts[0];
        let rest = ts.drop_first();
        let s = token_chars(t);
        spelled_split(b, i, s + seq![' '], tokens_chars(rest));
        spelled_split(b, i, s, seq![' ']);
        assert(b[i + s.len() + 0] == (seq![' '])[0] as u8);
        token_back(b, i, t);
        assert forall|k: int| 0 <= k < rest.len() implies spellable(#[trigger] rest[k]) by {
            assert(rest[k] == ts[k + 1]);
        }
        let j = i + s.len();
        tokens_back(b, j + 1, rest);
        assert(lexer::lex_from(b, j) == lexer::lex_from(b, j + 1));
        let r = lexer::lex_from(b, j + 1)->Ok_0;
        let first = SpannedV { tok: t, span: Span { start: i as usize, end: j as usize } };
        let whole = seq![first] + r;
        assert(lexer::lex_from(b, i) == Ok::<Seq<SpannedV>, LexErrorV>(whole));
        assert forall|k: int| 0 <= k < ts.len() implies (#[trigger] whole[k]).tok == ts[k] by {
            if k > 0 {
                assert(whole[k] == r[k - 1]);
                assert(ts[k] == rest[k - 1]);
            }
        }
    }
}

proof fn chars_ascii(s: Seq<char>)
    requires
        ascii(s),
    ensures
        ascii(chars_text(s)),
    decreases s.len(),
{
    if s.len() > 0 {
        let rest = s.drop_first();
        assert forall|k: int| 0 <= k < rest.len() implies '\0' <= #[trigger] rest[k] <= '\u{7f}' by {
            assert(rest[k] == s[k + 1]);
        }
        chars_ascii(rest);
        assert('\0' <= s[0] <= '\u{7f}');
        let a = char_text(s[0]);
        let all = a + chars_text(rest);
        assert forall|k: int| 0 <= k < all.len() implies '\0' <= #[trigger] all[k] <= '\u{7f}' by {
            if k >= a.len() {
                assert(all[k] == chars_text(rest)[k - a.len()]);
            }
        }
    }
}

proof fn dec_ascii(n: nat)
    ensures
        ascii(text::dec(n)),
    decreases n,
{
    if n >= 10 {
        dec_ascii(n / 10);
        let all = text::dec(n);
        assert forall|k: int| 0 <= k < all.len() implies '\0' <= #[trigger] all[k] <= '\u{7f}' by {
            if k < all.len() - 1 {
                assert(all[k] == text::dec(n / 10)[k]);
            }
        }
    }
}

proof fn ascii_add(a: Seq<char>, b: Seq<char>)
    requires
        ascii(a),
        ascii(b),
    ensures
        ascii(a + b),
{
    assert forall|k: int| 0 <= k < (a + b).len() implies '\0' <= #[trigger] (a + b)[k] <= '\u{7f}' by {
        if k < a.len() {
            assert((a + b)[k] == a[k]);
        } else {
            assert((a + b)[k] == b[k - a.len()]);
        }
    }
}

proof fn digits_ascii(s: Seq<char>)
    requires
        digits(s),
    ensures
        ascii(s),
{
}

proof fn token_ascii(t: TokenV)
    requires
        spellable(t),
    ensures
        ascii(token_chars(t)),
{
    match t {
        TokenV::Int(v, k) => {
            reveal_strlit("-");
            dec_ascii(v as nat);
            dec_ascii((-(v as int)) as nat);
            if v < 0 {
                ascii_add("-"@, text::dec((-(v as int)) as nat));
            }
            ascii_add(text::signed_dec(v as int), int_suffix(k));
        },
        TokenV::Float(x, k) => {
            let (whole, rest) = choose|whole: Seq<char>, rest: Seq<char>|
                {
                    &&& #[trigger] number_like(x, whole, rest)
                    &&& k is None ==> fraction_like(x, whole, rest)
                };
            digits_ascii(whole);
            ascii_add(seq!['-'], whole);
            if digits(rest) {
                digits_ascii(rest);
                ascii_add(whole, seq!['.']);
                ascii_add(whole + seq!['.'], rest);
                ascii_add(seq!['-'] + whole, seq!['.']);
                ascii_add(seq!['-'] + whole + seq!['.'], rest);
            }
            ascii_add(x, float_suffix(k));
        },
        TokenV::Str(x) => {
            chars_ascii(x);
            ascii_add(seq!['"'], chars_text(x));
            ascii_add(seq!['"'] + chars_text(x), seq!['"']);
        },
        _ => {},
    }
}

proof fn tokens_ascii(ts: Seq<TokenV>)
    requires
        forall|k: int| 0 <= k < ts.len() ==> spellable(#[trigger] ts[k]),
    ensures
        ascii(tokens_chars(ts)),
    decreases ts.len(),
{
    if ts.len() > 0 {
        let rest = ts.drop_first();
        assert forall|k: int| 0 <= k < rest.len() implies spellable(#[trigger] rest[k]) by {
            assert(rest[k] == ts[k + 1]);
        }
        token_ascii(ts[0]);
        tokens_ascii(rest);
        ascii_add(token_chars(ts[0]), seq![' ']);
        ascii_add(token_chars(ts[0]) + seq![' '], tokens_chars(rest));
    }
}

/// The lexer undoes spelling: the text of tokens, with blanks between them, gives back the
/// tokens.
pub proof fn law_text_gives_tokens_back(ts: Seq<TokenV>)
    requires
        forall|k: int| 0 <= k < ts.len() ==> spellable(#[trigger] ts[k]),
    ensures
        lexer::lex_text(tokens_chars(ts)) matches Ok(r) && tokens_are(r, ts),
{
    let s = tokens_chars(ts);
    tokens_ascii(ts);
    assert(vstd::utf8::is_ascii_chars(s));
    vstd::utf8::is_ascii_chars_encode_utf8(s);
    let b = vstd::utf8::encode_utf8(s);
    assert forall|k: int| 0 <= k < s.len() implies b[0 + k] == (#[trigger] s[k]) as u8 by {
        assert(s[k] as u8 == b[k]);
    }
    tokens_back(b, 0, ts);
}

} // verus!
