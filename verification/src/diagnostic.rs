//! Error messages that show where in the source they are.
use crate::ast::Span;
use crate::lexer;
use crate::text::decimal;
use crate::text;
use vstd::prelude::*;
use vstd::string::*;
use vstd::utf8::*;

verus! {

/// A place in a source text, as byte offsets.
#[derive(Debug, Clone, Copy)]
pub struct Loc {
    pub start: usize,
    pub end: usize,
}

/// The offset behind `byte`, as far as there is one.
pub open spec fn behind(byte: usize) -> usize {
    if byte < usize::MAX {
        (byte + 1) as usize
    } else {
        byte
    }
}

/// One byte.
pub open spec fn point_loc(byte: usize) -> Loc {
    Loc { start: byte, end: behind(byte) }
}

/// A span, but at least one byte.
pub open spec fn span_loc(s: Span) -> Loc {
    Loc {
        start: s.start,
        end: if s.end > behind(s.start) {
            s.end
        } else {
            behind(s.start)
        },
    }
}

impl Loc {
    /// One byte.
    pub fn point(byte: usize) -> (r: Self)
        ensures
            r == point_loc(byte),
    {
        Loc { start: byte, end: byte.saturating_add(1) }
    }

    /// A span, but at least one byte.
    pub fn from_span(s: Span) -> (r: Self)
        ensures
            r == span_loc(s),
    {
        let least = s.start.saturating_add(1);
        Loc {
            start: s.start,
            end: if s.end > least {
                s.end
            } else {
                least
            },
        }
    }
}

/// How many lines end in the first `n` bytes.
pub open spec fn newlines(b: Seq<u8>, n: int) -> nat
    decreases n,
{
    if n <= 0 || n > b.len() {
        0
    } else if b[n - 1] == 10 {
        newlines(b, n - 1) + 1
    } else {
        newlines(b, n - 1)
    }
}

/// Where the line that holds offset `n` starts.
pub open spec fn line_start(b: Seq<u8>, n: int) -> int
    decreases n,
{
    if n <= 0 || n > b.len() {
        0
    } else if b[n - 1] == 10 {
        n
    } else {
        line_start(b, n - 1)
    }
}

/// Where the line that starts at `i` ends.
pub open spec fn line_end(b: Seq<u8>, i: int) -> int {
    lexer::run_end(b, i, |c: u8| c != 10)
}

/// `n` as far as a `usize` counts.
pub open spec fn counted(n: nat) -> nat {
    if n <= usize::MAX {
        n
    } else {
        usize::MAX as nat
    }
}

/// The line of an offset, counted from one, the column in bytes, counted from one, and
/// the text of the line.
pub open spec fn located(src: Seq<char>, byte: nat) -> (nat, nat, Seq<char>) {
    let b = encode_utf8(src);
    let at = if byte < b.len() {
        byte as int
    } else {
        b.len() as int
    };
    let start = line_start(b, at);
    (
        counted(newlines(b, at) + 1),
        counted((at - start + 1) as nat),
        decode_utf8(b.subrange(start, line_end(b, start))),
    )
}

/// `n` times the character `c`.
pub open spec fn times(c: char, n: nat) -> Seq<char> {
    Seq::new(n, |i: int| c)
}

/// How wide the mark under a place is.
pub open spec fn mark_width(loc: Loc) -> nat {
    if loc.end > loc.start {
        (loc.end - loc.start) as nat
    } else {
        1
    }
}

/// A message with the line that it is about, and a mark under the place.
pub open spec fn rendered(file: Seq<char>, src: Seq<char>, loc: Loc, message: Seq<char>) -> Seq<
    char,
> {
    let (line, col, text) = located(src, loc.start as nat);
    let pad = times(' ', text::dec(line).len());
    "error: "@ + message + "\n"@ + pad + "--> "@ + file + ":"@ + text::dec(line) + ":"@ + text::dec(col) + "\n"@
        + pad + " |\n"@ + text::dec(line) + " | "@ + text + "\n"@ + pad + " | "@ + times(
        ' ',
        (col - 1) as nat,
    ) + times('^', mark_width(loc)) + "\n"@
}

/// A message without a place.
pub open spec fn rendered_plain(file: Seq<char>, message: Seq<char>) -> Seq<char> {
    "error: "@ + message + "\n  --> "@ + file + "\n"@
}

proof fn lemma_line_start(b: Seq<u8>, n: int)
    requires
        0 <= n <= b.len(),
    ensures
        0 <= line_start(b, n) <= n,
        line_start(b, n) > 0 ==> b[line_start(b, n) - 1] == 10,
    decreases n,
{
    if n > 0 && b[n - 1] != 10 {
        lemma_line_start(b, n - 1);
    }
}

/// A line ends before a newline or at the end of the text.
proof fn lemma_line_end(b: Seq<u8>, i: int)
    requires
        0 <= i <= b.len(),
    ensures
        i <= line_end(b, i) <= b.len(),
        line_end(b, i) < b.len() ==> b[line_end(b, i)] == 10,
    decreases b.len() - i,
{
    if i < b.len() && b[i] != 10 {
        lemma_line_end(b, i + 1);
    }
}

/// Behind a newline a character starts.
proof fn lemma_after_newline(b: Seq<u8>, i: int)
    requires
        valid_utf8(b),
        0 <= i < b.len(),
        b[i] == 10,
    ensures
        is_char_boundary(b, i + 1),
    decreases b.len(),
{
    reveal_with_fuel(is_char_boundary, 2);
    let n = length_of_first_scalar(b);
    let rest = pop_first_scalar(b);
    if i < n {
        assert(i == 0);
    } else {
        assert(rest[i - n] == 10);
        lemma_after_newline(rest, i - n);
    }
}

/// A newline starts a character.
proof fn lemma_at_newline(b: Seq<u8>, i: int)
    requires
        valid_utf8(b),
        0 <= i < b.len(),
        b[i] == 10,
    ensures
        is_char_boundary(b, i),
{
    is_char_boundary_iff_not_is_continuation_byte(b, i);
}

/// The line and column of an offset, and the text of the line.
fn locate(src: &str, byte: usize) -> (r: (usize, usize, &str))
    ensures
        r.1 >= 1,
        (r.0 as nat, r.1 as nat, r.2@) == located(src@, byte as nat),
{
    let bytes = src.as_bytes();
    let ghost b = bytes@;
    let at = if byte < bytes.len() {
        byte
    } else {
        bytes.len()
    };
    let mut line_no: usize = 1;
    let mut start: usize = 0;
    let mut i: usize = 0;
    while i < at
        invariant
            b == bytes@,
            i <= at <= b.len(),
            line_no == counted(newlines(b, i as int) + 1),
            start == line_start(b, i as int),
            start <= i,
        decreases at - i,
    {
        if bytes[i] == 10 {
            line_no = line_no.saturating_add(1);
            start = i + 1;
        }
        i += 1;
    }
    let mut end = start;
    proof {
        lemma_line_start(b, at as int);
    }
    while end < bytes.len() && bytes[end] != 10
        invariant
            b == bytes@,
            start <= end <= b.len(),
            line_end(b, start as int) == line_end(b, end as int),
        decreases b.len() - end,
    {
        end += 1;
    }
    proof {
        encode_utf8_valid_utf8(src@);
        is_char_boundary_start_end_of_seq(b);
        lemma_line_end(b, start as int);
        if start > 0 {
            lemma_after_newline(b, start - 1);
        }
        valid_utf8_split(b, start as int);
    }
    let (_, rest) = src.split_at(start);
    let ghost tail = b.subrange(start as int, b.len() as int);
    proof {
        is_char_boundary_start_end_of_seq(tail);
        if end < b.len() {
            assert(tail[end - start] == 10);
            lemma_at_newline(tail, end - start);
        }
    }
    let (text, _) = rest.split_at(end - start);
    proof {
        assert(tail.subrange(0, end - start) =~= b.subrange(start as int, end as int));
        encode_utf8_decode_utf8(text@);
    }
    (line_no, (at - start).saturating_add(1), text)
}

/// Puts `n` times the character `c` behind a text.
fn append_times(s: &mut String, c: char, n: usize)
    ensures
        final(s)@ == old(s)@ + times(c, n as nat),
{
    let mut i: usize = 0;
    assert(s@ =~= old(s)@ + times(c, 0));
    while i < n
        invariant
            i <= n,
            s@ == old(s)@ + times(c, i as nat),
        decreases n - i,
    {
        s.push(c);
        assert(s@ =~= old(s)@ + times(c, (i + 1) as nat));
        i += 1;
    }
}

/// A message with the line that it is about, and a mark under the place.
pub fn render(file: &str, src: &str, loc: Loc, message: &str) -> (r: String)
    ensures
        r@ == rendered(file@, src@, loc, message@),
{
    let (line, col, text) = locate(src, loc.start);
    let number = decimal(line);
    let width = if loc.end > loc.start {
        loc.end - loc.start
    } else {
        1
    };
    let mut pad = String::new();
    append_times(&mut pad, ' ', number.as_str().unicode_len());
    assert(pad@ =~= times(' ', text::dec(line as nat).len()));
    let mut s = String::from_str("error: ");
    s.append(message);
    s.append("\n");
    s.append(pad.as_str());
    s.append("--> ");
    s.append(file);
    s.append(":");
    s.append(number.as_str());
    s.append(":");
    s.append(decimal(col).as_str());
    s.append("\n");
    s.append(pad.as_str());
    s.append(" |\n");
    s.append(number.as_str());
    s.append(" | ");
    s.append(text);
    s.append("\n");
    s.append(pad.as_str());
    s.append(" | ");
    append_times(&mut s, ' ', col - 1);
    append_times(&mut s, '^', width);
    s.append("\n");
    s
}

/// A message without a place.
pub fn render_plain(file: &str, message: &str) -> (r: String)
    ensures
        r@ == rendered_plain(file@, message@),
{
    let mut s = String::from_str("error: ");
    s.append(message);
    s.append("\n  --> ");
    s.append(file);
    s.append("\n");
    s
}

proof fn lemma_newlines_from(b: Seq<u8>, n: int)
    requires
        0 <= n <= b.len(),
    ensures
        newlines(b, line_start(b, n)) == newlines(b, n),
        forall|k: int| line_start(b, n) <= k < n ==> #[trigger] b[k] != 10,
        0 <= line_start(b, n) <= n,
        line_start(b, n) > 0 ==> b[line_start(b, n) - 1] == 10,
    decreases n,
{
    if n > 0 && b[n - 1] != 10 {
        lemma_newlines_from(b, n - 1);
    }
}

/// A place is shown on its own line: the line starts at the start of the text or
/// behind a line break, holds no line break, reaches up to the place at least, and
/// its number is one more than the line breaks before it.
pub proof fn law_place_is_on_its_line(b: Seq<u8>, at: int)
    requires
        0 <= at <= b.len(),
    ensures
        ({
            let start = line_start(b, at);
            let end = line_end(b, start);
            &&& 0 <= start <= at <= end <= b.len()
            &&& start > 0 ==> b[start - 1] == 10
            &&& end < b.len() ==> b[end] == 10
            &&& forall|k: int| start <= k < end ==> #[trigger] b[k] != 10
            &&& newlines(b, start) == newlines(b, at)
        }),
{
    let start = line_start(b, at);
    lemma_newlines_from(b, at);
    lexer::lemma_run_end(b, start, |c: u8| c != 10);
    let end = line_end(b, start);
    if end < at {
        assert(b[end] != 10);
    }
}

/// The lines of a report above the line that it is about.
pub open spec fn report_head(file: Seq<char>, src: Seq<char>, loc: Loc, message: Seq<char>) -> Seq<
    char,
> {
    let (line, col, _) = located(src, loc.start as nat);
    let pad = times(' ', text::dec(line).len());
    "error: "@ + message + "\n"@ + pad + "--> "@ + file + ":"@ + text::dec(line) + ":"@ + text::dec(
        col,
    ) + "\n"@ + pad + " |\n"@
}

/// The line of a report that shows the text.
pub open spec fn shown_line(src: Seq<char>, loc: Loc) -> Seq<char> {
    let (line, _, text) = located(src, loc.start as nat);
    text::dec(line) + " | "@ + text
}

/// The line of a report that holds the mark.
pub open spec fn mark_line(src: Seq<char>, loc: Loc) -> Seq<char> {
    let (line, col, _) = located(src, loc.start as nat);
    times(' ', text::dec(line).len()) + " | "@ + times(' ', (col - 1) as nat) + times(
        '^',
        mark_width(loc),
    )
}

/// The encoding of a text is that of its parts.
proof fn lemma_encode_concat(a: Seq<char>, b: Seq<char>)
    ensures
        encode_utf8(a + b) == encode_utf8(a) + encode_utf8(b),
    decreases a.len(),
{
    if a.len() == 0 {
        assert(a + b =~= b);
        assert(encode_utf8(a) + encode_utf8(b) =~= encode_utf8(b));
    } else {
        assert((a + b).drop_first() =~= a.drop_first() + b);
        lemma_encode_concat(a.drop_first(), b);
        assert(encode_utf8(a + b) =~= encode_utf8(a) + encode_utf8(b));
    }
}

/// Decimal text is made of digits.
proof fn lemma_dec_digits(n: nat)
    ensures
        forall|i: int| 0 <= i < text::dec(n).len() ==> '0' <= #[trigger] text::dec(n)[i] <= '9',
        text::dec(n).len() > 0,
    decreases n,
{
    if n >= 10 {
        lemma_dec_digits(n / 10);
    }
}

/// A line of a text is valid by itself.
proof fn lemma_line_encoded(src: Seq<char>, start: int, end: int)
    requires
        0 <= start <= end <= encode_utf8(src).len(),
        start > 0 ==> encode_utf8(src)[start - 1] == 10,
        end < encode_utf8(src).len() ==> encode_utf8(src)[end] == 10,
    ensures
        encode_utf8(decode_utf8(encode_utf8(src).subrange(start, end))) == encode_utf8(src).subrange(
            start,
            end,
        ),
{
    let b = encode_utf8(src);
    encode_utf8_valid_utf8(src);
    is_char_boundary_start_end_of_seq(b);
    if start > 0 {
        lemma_after_newline(b, start - 1);
    }
    valid_utf8_split(b, start);
    let tail = b.subrange(start, b.len() as int);
    is_char_boundary_start_end_of_seq(tail);
    if end < b.len() {
        assert(tail[end - start] == 10);
        lemma_at_newline(tail, end - start);
    }
    valid_utf8_split(tail, end - start);
    assert(tail.subrange(0, end - start) =~= b.subrange(start, end));
    decode_utf8_encode_utf8(b.subrange(start, end));
}

/// The mark of a report stands under the bytes that it is about, however wide the number
/// of the line is. The last two lines of the report are the line of the text and that of
/// the mark; both have their bar at the same place; the mark starts under the first byte
/// of the place and is as wide as the place.
pub proof fn law_mark_is_under_its_place(file: Seq<char>, src: Seq<char>, loc: Loc, message: Seq<char>)
    requires
        loc.start < loc.end <= encode_utf8(src).len(),
    ensures
        ({
            let b = encode_utf8(src);
            let (line, col, _) = located(src, loc.start as nat);
            let w = text::dec(line).len() as int;
            let head = encode_utf8(report_head(file, src, loc, message));
            let shown = encode_utf8(shown_line(src, loc));
            let marks = encode_utf8(mark_line(src, loc));
            let at = w + 2 + col;
            &&& encode_utf8(rendered(file, src, loc, message)) == head + shown + seq![10u8] + marks
                + seq![10u8]
            &&& head.len() > 0 && head.last() == 10
            &&& forall|i: int| 0 <= i < shown.len() ==> #[trigger] shown[i] != 10
            &&& forall|i: int| 0 <= i < marks.len() ==> #[trigger] marks[i] != 10
            &&& w + 1 < shown.len() && shown[w + 1] == 124 && marks[w + 1] == 124
            &&& marks.len() == at + (loc.end - loc.start)
            &&& forall|i: int| 0 <= i < marks.len() ==> (#[trigger] marks[i] == 94 <==> at <= i)
            &&& at < shown.len() || b[loc.start as int] == 10
            &&& at < shown.len() ==> shown[at] == b[loc.start as int]
        }),
{
    let b = encode_utf8(src);
    let at = loc.start as int;
    let (line, col, text) = located(src, loc.start as nat);
    let digits = text::dec(line);
    let w = digits.len() as int;
    let start = line_start(b, at);
    let end = line_end(b, start);
    law_place_is_on_its_line(b, at);
    lemma_line_encoded(src, start, end);
    assert(col == at - start + 1);
    let bar = " | "@;
    reveal_strlit(" | ");
    reveal_strlit("\n");
    reveal_strlit(" |\n");
    lemma_dec_digits(line);
    assert(is_ascii_chars(digits));
    is_ascii_chars_encode_utf8(digits);
    assert(is_ascii_chars(bar));
    is_ascii_chars_encode_utf8(bar);
    assert(is_ascii_chars("\n"@));
    is_ascii_chars_encode_utf8("\n"@);
    assert(encode_utf8("\n"@) =~= seq![10u8]);
    let shown = shown_line(src, loc);
    lemma_encode_concat(digits + bar, text);
    lemma_encode_concat(digits, bar);
    let eb = encode_utf8(bar);
    assert(eb.len() == 3 && eb[0] == 32 && eb[1] == 124 && eb[2] == 32) by {
        assert(bar[0] == ' ' && bar[1] == '|' && bar[2] == ' ');
        assert(bar[0] as u8 == eb[0]);
        assert(bar[1] as u8 == eb[1]);
        assert(bar[2] as u8 == eb[2]);
    }
    let es = encode_utf8(shown);
    let ed = encode_utf8(digits);
    assert(es == ed + eb + b.subrange(start, end));
    assert forall|i: int| 0 <= i < es.len() implies #[trigger] es[i] != 10 by {
        if i < w {
            assert(es[i] == ed[i]);
            assert(digits[i] as u8 == ed[i]);
        } else if i < w + 3 {
            assert(es[i] == eb[i - w]);
        } else {
            assert(es[i] == b[start + (i - w - 3)]);
        }
    }
    assert(es[w + 1] == eb[1]);
    let marks = mark_line(src, loc);
    assert(is_ascii_chars(marks));
    is_ascii_chars_encode_utf8(marks);
    let em = encode_utf8(marks);
    assert(marks.len() == w + 2 + col + (loc.end - loc.start));
    assert forall|i: int| 0 <= i < em.len() implies #[trigger] em[i] != 10 && (em[i] == 94 <==> w + 2
        + col <= i) by {
        assert(marks[i] as u8 == em[i]);
        if i < w {
            assert(marks[i] == ' ');
        } else if i < w + 3 {
            assert(marks[i] == bar[i - w]);
        } else if i < w + 2 + col {
            assert(marks[i] == ' ');
        } else {
            assert(marks[i] == '^');
        }
    }
    assert(marks[w + 1] == bar[1]);
    assert(marks[w + 1] as u8 == em[w + 1]);
    let head = report_head(file, src, loc, message);
    let before = head.take(head.len() - 1);
    assert(head =~= before + "\n"@);
    lemma_encode_concat(before, "\n"@);
    let nl = "\n"@;
    assert(rendered(file, src, loc, message) =~= head + shown + nl + marks + nl);
    lemma_encode_concat(head + shown + nl + marks, nl);
    lemma_encode_concat(head + shown + nl, marks);
    lemma_encode_concat(head + shown, nl);
    lemma_encode_concat(head, shown);
    if w + 2 + col < es.len() {
        assert(es[w + 2 + col] == b[start + (col - 1)]);
    }
}

} // verus!
