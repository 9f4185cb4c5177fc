//! Lexer: source text to tokens.
use crate::ast::Span;
use crate::text::{append_decimal, Dup, quote, quote_char};
use crate::text;
use vstd::prelude::*;
use vstd::string::*;

verus! {

/// Suffix of an integer literal.
#[derive(Debug, Clone, Copy, PartialEq, Eq, Structural)]
pub enum IntSuffix {
    I32,
    I64,
}

/// Suffix of a float literal.
#[derive(Debug, Clone, Copy, PartialEq, Eq, Structural)]
pub enum FloatSuffix {
    F32,
    F64,
}

/// A token.
#[derive(Debug)]
pub enum Token {
    LParen,
    RParen,
    LBracket,
    RBracket,
    Colon,
    Comma,
    /// `->`
    Arrow,
    /// Identifier or keyword; the parser tells them apart.
    Ident(String),
    Int(i64, Option<IntSuffix>),
    /// A float literal, as the digits that were written.
    Float(String, Option<FloatSuffix>),
    Str(String),
    Bool(bool),
}

/// Model of [`Token`].
#[verifier::ext_equal]
pub enum TokenV {
    LParen,
    RParen,
    LBracket,
    RBracket,
    Colon,
    Comma,
    Arrow,
    Ident(Seq<char>),
    Int(i64, Option<IntSuffix>),
    Float(Seq<char>, Option<FloatSuffix>),
    Str(Seq<char>),
    Bool(bool),
}

impl View for Token {
    type V = TokenV;

    open spec fn view(&self) -> TokenV {
        match *self {
            Token::LParen => TokenV::LParen,
            Token::RParen => TokenV::RParen,
            Token::LBracket => TokenV::LBracket,
            Token::RBracket => TokenV::RBracket,
            Token::Colon => TokenV::Colon,
            Token::Comma => TokenV::Comma,
            Token::Arrow => TokenV::Arrow,
            Token::Ident(a) => TokenV::Ident(a.deep_view()),
            Token::Int(a, b) => TokenV::Int(a, b),
            Token::Float(a, b) => TokenV::Float(a.deep_view(), b),
            Token::Str(a) => TokenV::Str(a.deep_view()),
            Token::Bool(a) => TokenV::Bool(a),
        }
    }
}

impl DeepView for Token {
    type V = TokenV;

    open spec fn deep_view(&self) -> TokenV {
        self@
    }
}

impl Dup for Token {
    fn dup(&self) -> (r: Self) {
        match self {
            Token::LParen => Token::LParen,
            Token::RParen => Token::RParen,
            Token::LBracket => Token::LBracket,
            Token::RBracket => Token::RBracket,
            Token::Colon => Token::Colon,
            Token::Comma => Token::Comma,
            Token::Arrow => Token::Arrow,
            Token::Ident(a) => Token::Ident(a.dup()),
            Token::Int(a, b) => Token::Int(*a, *b),
            Token::Float(a, b) => Token::Float(a.dup(), *b),
            Token::Str(a) => Token::Str(a.dup()),
            Token::Bool(a) => Token::Bool(*a),
        }
    }
}

impl Clone for Token {
    fn clone(&self) -> (r: Self)
        ensures
            r@ == self@,
    {
        self.dup()
    }
}

/// A token and where it stands.
#[derive(Debug)]
pub struct Spanned {
    pub tok: Token,
    pub span: Span,
}

/// Model of [`Spanned`].
#[verifier::ext_equal]
pub struct SpannedV {
    pub tok: TokenV,
    pub span: Span,
}

impl View for Spanned {
    type V = SpannedV;

    open spec fn view(&self) -> SpannedV {
        SpannedV { tok: self.tok.deep_view(), span: self.span }
    }
}

impl DeepView for Spanned {
    type V = SpannedV;

    open spec fn deep_view(&self) -> SpannedV {
        self@
    }
}

impl Dup for Spanned {
    fn dup(&self) -> (r: Self) {
        Spanned { tok: self.tok.dup(), span: self.span }
    }
}

impl Clone for Spanned {
    fn clone(&self) -> (r: Self)
        ensures
            r@ == self@,
    {
        self.dup()
    }
}

/// Why a text is no sequence of tokens.
#[derive(Debug)]
pub enum LexError {
    UnexpectedChar(char, usize),
    UnterminatedString(usize),
    InvalidEscape(char, usize),
    InvalidNumber(String, usize),
}

/// Model of [`LexError`].
#[verifier::ext_equal]
pub enum LexErrorV {
    UnexpectedChar(char, usize),
    UnterminatedString(usize),
    InvalidEscape(char, usize),
    InvalidNumber(Seq<char>, usize),
}

impl View for LexError {
    type V = LexErrorV;

    open spec fn view(&self) -> LexErrorV {
        match *self {
            LexError::UnexpectedChar(a, b) => LexErrorV::UnexpectedChar(a, b),
            LexError::UnterminatedString(a) => LexErrorV::UnterminatedString(a),
            LexError::InvalidEscape(a, b) => LexErrorV::InvalidEscape(a, b),
            LexError::InvalidNumber(a, b) => LexErrorV::InvalidNumber(a.deep_view(), b),
        }
    }
}

impl DeepView for LexError {
    type V = LexErrorV;

    open spec fn deep_view(&self) -> LexErrorV {
        self@
    }
}

impl Dup for LexError {
    fn dup(&self) -> (r: Self) {
        match self {
            LexError::UnexpectedChar(a, b) => LexError::UnexpectedChar(*a, *b),
            LexError::UnterminatedString(a) => LexError::UnterminatedString(*a),
            LexError::InvalidEscape(a, b) => LexError::InvalidEscape(*a, *b),
            LexError::InvalidNumber(a, b) => LexError::InvalidNumber(a.dup(), *b),
        }
    }
}

impl Clone for LexError {
    fn clone(&self) -> (r: Self)
        ensures
            r@ == self@,
    {
        self.dup()
    }
}


/// The message of a lexical error.
pub open spec fn lex_error_text(e: LexErrorV) -> Seq<char> {
    match e {
        LexErrorV::UnexpectedChar(c, at) => "unexpected character "@ + text::quoted_char(c) + " at byte "@
            + text::dec(at as nat),
        LexErrorV::UnterminatedString(at) => "unterminated string starting at byte "@ + text::dec(
            at as nat,
        ),
        LexErrorV::InvalidEscape(c, at) => "invalid escape sequence \\"@ + seq![c] + " at byte "@
            + text::dec(at as nat),
        LexErrorV::InvalidNumber(s, at) => "invalid number literal "@ + text::quoted(s) + " at byte "@
            + text::dec(at as nat),
    }
}

/// The byte that a lexical error points at.
pub open spec fn lex_error_byte(e: LexErrorV) -> usize {
    match e {
        LexErrorV::UnexpectedChar(_, at) => at,
        LexErrorV::UnterminatedString(at) => at,
        LexErrorV::InvalidEscape(_, at) => at,
        LexErrorV::InvalidNumber(_, at) => at,
    }
}

impl LexError {
    /// The byte that the error points at.
    pub fn byte(&self) -> (r: usize)
        ensures
            r == lex_error_byte(self@),
    {
        match self {
            LexError::UnexpectedChar(_, at) => *at,
            LexError::UnterminatedString(at) => *at,
            LexError::InvalidEscape(_, at) => *at,
            LexError::InvalidNumber(_, at) => *at,
        }
    }

    /// The error as a message.
    pub fn to_text(&self) -> (r: String)
        ensures
            r@ == lex_error_text(self@),
    {
        match self {
            LexError::UnexpectedChar(c, at) => {
                let mut s = String::from_str("unexpected character ");
                s.append(quote_char(*c).as_str());
                s.append(" at byte ");
                append_decimal(&mut s, *at as u64);
                s
            },
            LexError::UnterminatedString(at) => {
                let mut s = String::from_str("unterminated string starting at byte ");
                append_decimal(&mut s, *at as u64);
                s
            },
            LexError::InvalidEscape(c, at) => {
                let mut s = String::from_str("invalid escape sequence \\");
                let ghost before = s@;
                s.push(*c);
                assert(s@ =~= before + seq![*c]);
                s.append(" at byte ");
                append_decimal(&mut s, *at as u64);
                s
            },
            LexError::InvalidNumber(n, at) => {
                let mut s = String::from_str("invalid number literal ");
                s.append(quote(n.as_str()).as_str());
                s.append(" at byte ");
                append_decimal(&mut s, *at as u64);
                s
            },
        }
    }
}

/// White space: blank, tab, line feed, form feed, carriage return.
pub open spec fn is_blank(b: u8) -> bool {
    b == 32 || b == 9 || b == 10 || b == 12 || b == 13
}

pub open spec fn is_digit(b: u8) -> bool {
    48 <= b <= 57
}

pub open spec fn is_letter(b: u8) -> bool {
    65 <= b <= 90 || 97 <= b <= 122
}

/// What an identifier starts with: a letter or one of `_ + - * / < > = ! ? %`.
pub open spec fn starts_ident(b: u8) -> bool {
    is_letter(b) || b == 95 || b == 43 || b == 45 || b == 42 || b == 47 || b == 60 || b == 62 || b
        == 61 || b == 33 || b == 63 || b == 37
}

/// What an identifier goes on with: the same, or a digit.
pub open spec fn continues_ident(b: u8) -> bool {
    starts_ident(b) || is_digit(b)
}

/// The end of the longest run from `i` of bytes that satisfy `p`.
pub open spec fn run_end(b: Seq<u8>, i: int, p: spec_fn(u8) -> bool) -> int
    decreases b.len() - i,
{
    if 0 <= i < b.len() && p(b[i]) {
        run_end(b, i + 1, p)
    } else {
        i
    }
}

/// The bytes from `i` to `j`, each as the character of its number.
pub open spec fn chars_of(b: Seq<u8>, i: int, j: int) -> Seq<char> {
    Seq::new((j - i) as nat, |k: int| b[i + k] as char)
}

/// The number that the digits from `i` to `j` write.
pub open spec fn digits_value(b: Seq<u8>, i: int, j: int) -> nat
    decreases j - i,
{
    if j <= i {
        0
    } else {
        digits_value(b, i, j - 1) * 10 + (b[j - 1] - 48) as nat
    }
}

/// The character that a backslash and `c` stand for.
pub open spec fn escaped(c: u8) -> Option<char> {
    if c == 110 {
        Some('\n')
    } else if c == 116 {
        Some('\t')
    } else if c == 114 {
        Some('\r')
    } else if c == 92 {
        Some('\\')
    } else if c == 34 {
        Some('"')
    } else if c == 48 {
        Some('\0')
    } else {
        None
    }
}

/// The contents of a string literal from `i` on and the place after its closing
/// quote. `start` is where the literal began.
pub open spec fn string_from(b: Seq<u8>, start: int, i: int) -> Result<(Seq<char>, int), LexErrorV>
    decreases b.len() - i,
{
    if i >= b.len() {
        Err(LexErrorV::UnterminatedString(start as usize))
    } else if b[i] == 34 {
        Ok((Seq::empty(), i + 1))
    } else if b[i] == 92 {
        if i + 1 >= b.len() {
            Err(LexErrorV::UnterminatedString(start as usize))
        } else {
            match escaped(b[i + 1]) {
                None => Err(LexErrorV::InvalidEscape(b[i + 1] as char, i as usize)),
                Some(c) => match string_from(b, start, i + 2) {
                    Ok((s, end)) => Ok((seq![c] + s, end)),
                    Err(e) => Err(e),
                },
            }
        }
    } else {
        match string_from(b, start, i + 1) {
            Ok((s, end)) => Ok((seq![b[i] as char] + s, end)),
            Err(e) => Err(e),
        }
    }
}

/// The end of the digits of a number that starts at `start`: a sign, digits,
/// and a fraction if a digit follows the point.
pub open spec fn whole_end(b: Seq<u8>, start: int) -> int {
    run_end(b, if b[start] == 45 { start + 1 } else { start }, |c: u8| is_digit(c))
}

pub open spec fn has_fraction(b: Seq<u8>, start: int) -> bool {
    let i = whole_end(b, start);
    i + 1 < b.len() && b[i] == 46 && is_digit(b[i + 1])
}

pub open spec fn number_end(b: Seq<u8>, start: int) -> int {
    if has_fraction(b, start) {
        run_end(b, whole_end(b, start) + 1, |c: u8| is_digit(c))
    } else {
        whole_end(b, start)
    }
}

/// Whether the three bytes at `i` are `x`, `y`, `z`.
pub open spec fn three(b: Seq<u8>, i: int, x: u8, y: u8, z: u8) -> bool {
    i + 3 <= b.len() && b[i] == x && b[i + 1] == y && b[i + 2] == z
}

/// The value of a whole number that starts at `start` and ends at `end`.
pub open spec fn whole_value(b: Seq<u8>, start: int, end: int) -> int {
    if b[start] == 45 {
        -(digits_value(b, start + 1, end) as int)
    } else {
        digits_value(b, start, end) as int
    }
}

/// The number literal at `start`, with its suffix, and the place after it.
pub open spec fn number_at(b: Seq<u8>, start: int) -> Result<(TokenV, int), LexErrorV> {
    let end = number_end(b, start);
    let raw = chars_of(b, start, end);
    if three(b, end, 102, 51, 50) {
        Ok((TokenV::Float(raw, Some(FloatSuffix::F32)), end + 3))
    } else if three(b, end, 102, 54, 52) {
        Ok((TokenV::Float(raw, Some(FloatSuffix::F64)), end + 3))
    } else {
        let (suffix, after) = if three(b, end, 105, 51, 50) {
            (Some(IntSuffix::I32), end + 3)
        } else if three(b, end, 105, 54, 52) {
            (Some(IntSuffix::I64), end + 3)
        } else {
            (None, end)
        };
        if has_fraction(b, start) {
            Ok((TokenV::Float(raw, None), after))
        } else if i64::MIN <= whole_value(b, start, end) <= i64::MAX {
            Ok((TokenV::Int(whole_value(b, start, end) as i64, suffix), after))
        } else {
            Err(LexErrorV::InvalidNumber(raw, start as usize))
        }
    }
}

/// The identifier or truth value at `start`, and the place after it.
pub open spec fn ident_at(b: Seq<u8>, start: int) -> (TokenV, int) {
    let end = run_end(b, start, |c: u8| continues_ident(c));
    let s = chars_of(b, start, end);
    (
        if s == "true"@ {
            TokenV::Bool(true)
        } else if s == "false"@ {
            TokenV::Bool(false)
        } else {
            TokenV::Ident(s)
        },
        end,
    )
}

/// The token that starts at `i` and the place after it.
pub open spec fn token_at(b: Seq<u8>, i: int) -> Result<(TokenV, int), LexErrorV> {
    let c = b[i];
    if c == 40 {
        Ok((TokenV::LParen, i + 1))
    } else if c == 41 {
        Ok((TokenV::RParen, i + 1))
    } else if c == 91 {
        Ok((TokenV::LBracket, i + 1))
    } else if c == 93 {
        Ok((TokenV::RBracket, i + 1))
    } else if c == 58 {
        Ok((TokenV::Colon, i + 1))
    } else if c == 44 {
        Ok((TokenV::Comma, i + 1))
    } else if c == 34 {
        match string_from(b, i, i + 1) {
            Ok((s, end)) => Ok((TokenV::Str(s), end)),
            Err(e) => Err(e),
        }
    } else if c == 45 && i + 1 < b.len() && b[i + 1] == 62 {
        Ok((TokenV::Arrow, i + 2))
    } else if is_digit(c) || c == 45 && i + 1 < b.len() && is_digit(b[i + 1]) {
        number_at(b, i)
    } else if starts_ident(c) {
        Ok(ident_at(b, i))
    } else {
        Err(LexErrorV::UnexpectedChar(c as char, i as usize))
    }
}

/// `head` in front of the tokens of `rest`.
pub open spec fn prepend(
    head: Seq<SpannedV>,
    rest: Result<Seq<SpannedV>, LexErrorV>,
) -> Result<Seq<SpannedV>, LexErrorV> {
    match rest {
        Ok(s) => Ok(head + s),
        Err(e) => Err(e),
    }
}

/// The tokens from place `i` on. White space separates tokens, and `;` starts a
/// comment that runs to the end of the line.
pub open spec fn lex_from(b: Seq<u8>, i: int) -> Result<Seq<SpannedV>, LexErrorV>
    decreases b.len() - i,
{
    if i < 0 || i >= b.len() {
        Ok(Seq::empty())
    } else if is_blank(b[i]) {
        lex_from(b, i + 1)
    } else if b[i] == 59 {
        let end = run_end(b, i, |c: u8| c != 10);
        proof {
            lemma_run_end(b, i, |c: u8| c != 10);
        }
        if end > i {
            lex_from(b, end)
        } else {
            Ok(Seq::empty())
        }
    } else {
        match token_at(b, i) {
            Ok((tok, end)) => {
                proof {
                    lemma_token_at(b, i);
                }
                let t = SpannedV { tok, span: Span { start: i as usize, end: end as usize } };
                prepend(seq![t], lex_from(b, end))
            },
            Err(e) => Err(e),
        }
    }
}

/// The tokens of a source text, which is read as its UTF-8 bytes.
pub open spec fn lex_text(src: Seq<char>) -> Result<Seq<SpannedV>, LexErrorV> {
    lex_from(vstd::utf8::encode_utf8(src), 0)
}

/// A run does not end before it starts nor behind the text.
pub proof fn lemma_run_end(b: Seq<u8>, i: int, p: spec_fn(u8) -> bool)
    requires
        0 <= i <= b.len(),
    ensures
        i <= run_end(b, i, p) <= b.len(),
        i < b.len() && p(b[i]) ==> i < run_end(b, i, p),
        forall|k: int| i <= k < run_end(b, i, p) ==> p(#[trigger] b[k]),
        run_end(b, i, p) < b.len() ==> !p(b[run_end(b, i, p)]),
    decreases b.len() - i,
{
    if i < b.len() && p(b[i]) {
        lemma_run_end(b, i + 1, p);
    }
}

proof fn lemma_string_from(b: Seq<u8>, start: int, i: int)
    ensures
        string_from(b, start, i) matches Ok((_, end)) ==> i < end <= b.len(),
    decreases b.len() - i,
{
    if i < b.len() {
        lemma_string_from(b, start, i + 1);
        if i + 1 < b.len() {
            lemma_string_from(b, start, i + 2);
        }
    }
}

proof fn lemma_number_end(b: Seq<u8>, start: int)
    requires
        0 <= start < b.len(),
        is_digit(b[start]) || b[start] == 45 && start + 1 < b.len() && is_digit(b[start + 1]),
    ensures
        start < whole_end(b, start) <= number_end(b, start) <= b.len(),
{
    let j = if b[start] == 45 { start + 1 } else { start };
    lemma_run_end(b, j, |c: u8| is_digit(c));
    if has_fraction(b, start) {
        lemma_run_end(b, whole_end(b, start) + 1, |c: u8| is_digit(c));
    }
}

/// A token takes at least one byte and does not reach behind the text.
pub proof fn lemma_token_at(b: Seq<u8>, i: int)
    requires
        0 <= i < b.len(),
    ensures
        token_at(b, i) matches Ok((_, end)) ==> i < end <= b.len(),
{
    lemma_string_from(b, i, i + 1);
    if is_digit(b[i]) || b[i] == 45 && i + 1 < b.len() && is_digit(b[i + 1]) {
        lemma_number_end(b, i);
    }
    lemma_run_end(b, i, |c: u8| continues_ident(c));
}

fn blank(b: u8) -> (r: bool)
    ensures
        r == is_blank(b),
{
    b == 32 || b == 9 || b == 10 || b == 12 || b == 13
}

fn ascii_digit(b: u8) -> (r: bool)
    ensures
        r == is_digit(b),
{
    48 <= b && b <= 57
}

fn is_ident_start(b: u8) -> (r: bool)
    ensures
        r == starts_ident(b),
{
    65 <= b && b <= 90 || 97 <= b && b <= 122 || b == 95 || b == 43 || b == 45 || b == 42 || b == 47
        || b == 60 || b == 62 || b == 61 || b == 33 || b == 63 || b == 37
}

fn is_ident_continue(b: u8) -> (r: bool)
    ensures
        r == continues_ident(b),
{
    is_ident_start(b) || ascii_digit(b)
}

/// The end of the digits at `i`.
fn skip_digits(bytes: &[u8], i: usize) -> (r: usize)
    requires
        i <= bytes@.len(),
    ensures
        r == run_end(bytes@, i as int, |c: u8| is_digit(c)),
        i <= r <= bytes@.len(),
        forall|k: int| i <= k < r ==> is_digit(#[trigger] bytes@[k]),
{
    let ghost p = |c: u8| is_digit(c);
    let mut j = i;
    while j < bytes.len() && ascii_digit(bytes[j])
        invariant
            i <= j <= bytes@.len(),
            p == (|c: u8| is_digit(c)),
            run_end(bytes@, i as int, p) == run_end(bytes@, j as int, p),
            forall|k: int| i <= k < j ==> is_digit(#[trigger] bytes@[k]),
        decreases bytes@.len() - j,
    {
        j = j + 1;
    }
    j
}

/// The bytes from `i` to `j` as text, one character for each byte.
fn text_of(bytes: &[u8], i: usize, j: usize) -> (r: String)
    requires
        i <= j <= bytes@.len(),
    ensures
        r@ == chars_of(bytes@, i as int, j as int),
{
    let mut s = String::new();
    let mut k = i;
    while k < j
        invariant
            i <= k <= j <= bytes@.len(),
            s@ == chars_of(bytes@, i as int, k as int),
        decreases j - k,
    {
        s.push(bytes[k] as char);
        k = k + 1;
        assert(s@ =~= chars_of(bytes@, i as int, k as int));
    }
    s
}

fn lex_ident(bytes: &[u8], start: usize) -> (r: (Token, usize))
    requires
        start < bytes@.len(),
    ensures
        (r.0@, r.1 as int) == ident_at(bytes@, start as int),
{
    let ghost p = |c: u8| continues_ident(c);
    let mut i = start;
    while i < bytes.len() && is_ident_continue(bytes[i])
        invariant
            start <= i <= bytes@.len(),
            p == (|c: u8| continues_ident(c)),
            run_end(bytes@, start as int, p) == run_end(bytes@, i as int, p),
        decreases bytes@.len() - i,
    {
        i = i + 1;
    }
    let s = text_of(bytes, start, i);
    let tok = if crate::text::same_text(s.as_str(), "true") {
        Token::Bool(true)
    } else if crate::text::same_text(s.as_str(), "false") {
        Token::Bool(false)
    } else {
        Token::Ident(s)
    };
    (tok, i)
}

/// The number that the digits from `i` to `j` write, or `None` if it is above 2^63.
fn digits_number(bytes: &[u8], i: usize, j: usize) -> (r: Option<u64>)
    requires
        i <= j <= bytes@.len(),
        forall|k: int| i <= k < j ==> is_digit(#[trigger] bytes@[k]),
    ensures
        match r {
            Some(v) => v == digits_value(bytes@, i as int, j as int) && v <= 9223372036854775808,
            None => digits_value(bytes@, i as int, j as int) > 9223372036854775808,
        },
{
    let mut acc: u64 = 0;
    let mut big = false;
    let mut k = i;
    while k < j
        invariant
            i <= k <= j <= bytes@.len(),
            forall|m: int| i <= m < j ==> is_digit(#[trigger] bytes@[m]),
            !big ==> acc == digits_value(bytes@, i as int, k as int) && acc <= 9223372036854775808,
            big ==> digits_value(bytes@, i as int, k as int) > 9223372036854775808,
        decreases j - k,
    {
        assert(is_digit(bytes@[k as int]));
        let d: u64 = (bytes[k] - 48) as u64;
        if !big {
            let wide: u128 = acc as u128 * 10 + d as u128;
            if wide > 9223372036854775808u128 {
                big = true;
            } else {
                acc = wide as u64;
            }
        }
        k = k + 1;
        assert(digits_value(bytes@, i as int, k as int) == digits_value(bytes@, i as int, k - 1)
            * 10 + d);
    }
    if big {
        None
    } else {
        Some(acc)
    }
}

fn three_at(bytes: &[u8], i: usize, x: u8, y: u8, z: u8) -> (r: bool)
    requires
        i <= bytes@.len(),
    ensures
        r == three(bytes@, i as int, x, y, z),
{
    bytes.len() - i >= 3 && bytes[i] == x && bytes[i + 1] == y && bytes[i + 2] == z
}

fn lex_number(bytes: &[u8], start: usize) -> (r: Result<(Token, usize), LexError>)
    requires
        start < bytes@.len(),
        is_digit(bytes@[start as int]) || bytes@[start as int] == 45 && start + 1 < bytes@.len()
            && is_digit(bytes@[start + 1]),
    ensures
        match r {
            Ok((tok, end)) => number_at(bytes@, start as int) == Ok::<(TokenV, int), LexErrorV>(
                (tok@, end as int),
            ),
            Err(e) => number_at(bytes@, start as int) == Err::<(TokenV, int), LexErrorV>(e@),
        },
{
    proof {
        lemma_number_end(bytes@, start as int);
    }
    let negative = bytes[start] == 45;
    let first: usize = if negative {
        start + 1
    } else {
        start
    };
    let whole = skip_digits(bytes, first);
    let mut fraction = false;
    let mut end = whole;
    if whole < bytes.len() && bytes[whole] == 46 && bytes.len() - whole > 1 && ascii_digit(
        bytes[whole + 1],
    ) {
        fraction = true;
        end = skip_digits(bytes, whole + 1);
    }
    assert(fraction == has_fraction(bytes@, start as int));
    assert(end == number_end(bytes@, start as int));
    let raw = text_of(bytes, start, end);
    if three_at(bytes, end, 102, 51, 50) {
        return Ok((Token::Float(raw, Some(FloatSuffix::F32)), end + 3));
    }
    if three_at(bytes, end, 102, 54, 52) {
        return Ok((Token::Float(raw, Some(FloatSuffix::F64)), end + 3));
    }
    let (suffix, after): (Option<IntSuffix>, usize) = if three_at(bytes, end, 105, 51, 50) {
        (Some(IntSuffix::I32), end + 3)
    } else if three_at(bytes, end, 105, 54, 52) {
        (Some(IntSuffix::I64), end + 3)
    } else {
        (None, end)
    };
    if fraction {
        return Ok((Token::Float(raw, None), after));
    }
    match digits_number(bytes, first, end) {
        None => Err(LexError::InvalidNumber(raw, start)),
        Some(v) => {
            if negative {
                let n: i64 = if v == 9223372036854775808u64 {
                    i64::MIN
                } else {
                    -(v as i64)
                };
                Ok((Token::Int(n, suffix), after))
            } else if v <= 9223372036854775807u64 {
                Ok((Token::Int(v as i64, suffix), after))
            } else {
                Err(LexError::InvalidNumber(raw, start))
            }
        },
    }
}

/// `head` in front of the text of a string literal.
pub open spec fn prepend_text(
    head: Seq<char>,
    rest: Result<(Seq<char>, int), LexErrorV>,
) -> Result<(Seq<char>, int), LexErrorV> {
    match rest {
        Ok((s, end)) => Ok((head + s, end)),
        Err(e) => Err(e),
    }
}

fn lex_string(bytes: &[u8], start: usize) -> (r: Result<(String, usize), LexError>)
    requires
        start < bytes@.len(),
    ensures
        match r {
            Ok((s, end)) => string_from(bytes@, start as int, start + 1) == Ok::<
                (Seq<char>, int),
                LexErrorV,
            >((s@, end as int)) && start < end <= bytes@.len(),
            Err(e) => string_from(bytes@, start as int, start + 1) == Err::<
                (Seq<char>, int),
                LexErrorV,
            >(e@),
        },
{
    let len: usize = bytes.len();
    let mut i: usize = start + 1;
    let mut out = String::new();
    assert(prepend_text(Seq::empty(), string_from(bytes@, start as int, start + 1)) =~= string_from(
        bytes@,
        start as int,
        start + 1,
    )) by {
        match string_from(bytes@, start as int, start + 1) {
            Ok((s, end)) => {
                assert(Seq::<char>::empty() + s =~= s);
            },
            Err(e) => {},
        }
    }
    while i < len
        invariant
            len == bytes@.len(),
            start < i <= bytes@.len(),
            string_from(bytes@, start as int, start + 1) == prepend_text(
                out@,
                string_from(bytes@, start as int, i as int),
            ),
        decreases bytes@.len() - i,
    {
        let b = bytes[i];
        if b == 34 {
            assert(out@ + Seq::<char>::empty() =~= out@);
            return Ok((out, i + 1));
        }
        let ghost before = out@;
        if b == 92 {
            if len - i <= 1 {
                return Err(LexError::UnterminatedString(start));
            }
            let esc = bytes[i + 1];
            let ch: char = if esc == 110 {
                '\n'
            } else if esc == 116 {
                '\t'
            } else if esc == 114 {
                '\r'
            } else if esc == 92 {
                '\\'
            } else if esc == 34 {
                '"'
            } else if esc == 48 {
                '\0'
            } else {
                return Err(LexError::InvalidEscape(esc as char, i));
            };
            out.push(ch);
            proof {
                lemma_prepend_text(before, ch, string_from(bytes@, start as int, i + 2));
            }
            i = i + 2;
        } else {
            out.push(b as char);
            proof {
                lemma_prepend_text(before, b as char, string_from(bytes@, start as int, i + 1));
            }
            i = i + 1;
        }
    }
    Err(LexError::UnterminatedString(start))
}

proof fn lemma_prepend_text(head: Seq<char>, c: char, rest: Result<(Seq<char>, int), LexErrorV>)
    ensures
        prepend_text(head.push(c), rest) == prepend_text(head, prepend_text(seq![c], rest)),
{
    if let Ok((s, end)) = rest {
        assert(head.push(c) + s =~= head + (seq![c] + s));
    }
}

/// The token at `i`, which is neither white space nor the start of a comment.
fn lex_token(bytes: &[u8], i: usize) -> (r: Result<(Token, usize), LexError>)
    requires
        i < bytes@.len(),
    ensures
        match r {
            Ok((tok, end)) => token_at(bytes@, i as int) == Ok::<(TokenV, int), LexErrorV>(
                (tok@, end as int),
            ) && i < end <= bytes@.len(),
            Err(e) => token_at(bytes@, i as int) == Err::<(TokenV, int), LexErrorV>(e@),
        },
{
    proof {
        lemma_token_at(bytes@, i as int);
    }
    let c = bytes[i];
    if c == 40 {
        Ok((Token::LParen, i + 1))
    } else if c == 41 {
        Ok((Token::RParen, i + 1))
    } else if c == 91 {
        Ok((Token::LBracket, i + 1))
    } else if c == 93 {
        Ok((Token::RBracket, i + 1))
    } else if c == 58 {
        Ok((Token::Colon, i + 1))
    } else if c == 44 {
        Ok((Token::Comma, i + 1))
    } else if c == 34 {
        let (s, end) = lex_string(bytes, i)?;
        Ok((Token::Str(s), end))
    } else if c == 45 && bytes.len() - i > 1 && bytes[i + 1] == 62 {
        Ok((Token::Arrow, i + 2))
    } else if ascii_digit(c) || c == 45 && bytes.len() - i > 1 && ascii_digit(bytes[i + 1]) {
        lex_number(bytes, i)
    } else if is_ident_start(c) {
        Ok(lex_ident(bytes, i))
    } else {
        Err(LexError::UnexpectedChar(c as char, i))
    }
}

/// Splits a source text into tokens.
pub fn lex(src: &str) -> (r: Result<Vec<Spanned>, LexError>)
    ensures
        text::outcome(r) == lex_text(src@),
{
    let bytes = src.as_bytes();
    let mut i: usize = 0;
    let mut out: Vec<Spanned> = Vec::new();
    proof {
        lemma_prepend_nothing(lex_from(bytes@, 0));
        assert(out.deep_view() =~= Seq::<SpannedV>::empty());
    }
    while i < bytes.len()
        invariant
            i <= bytes@.len(),
            lex_from(bytes@, 0) == prepend(out.deep_view(), lex_from(bytes@, i as int)),
            bytes@ == vstd::utf8::encode_utf8(src@),
        decreases bytes@.len() - i,
    {
        let c = bytes[i];
        if blank(c) {
            i = i + 1;
        } else if c == 59 {
            let ghost p = |x: u8| x != 10;
            let mut j = i;
            while j < bytes.len() && bytes[j] != 10
                invariant
                    i <= j <= bytes@.len(),
                    p == (|x: u8| x != 10),
                    run_end(bytes@, i as int, p) == run_end(bytes@, j as int, p),
                decreases bytes@.len() - j,
            {
                j = j + 1;
            }
            proof {
                lemma_run_end(bytes@, i as int, p);
            }
            i = j;
        } else {
            let (tok, end) = lex_token(bytes, i)?;
            let t = Spanned { tok, span: Span::new(i, end) };
            let ghost before = out.deep_view();
            out.push(t);
            proof {
                assert(out.deep_view() =~= before.push(t@));
                lemma_prepend_one(before, t@, lex_from(bytes@, end as int));
            }
            i = end;
        }
    }
    proof {
        assert(out.deep_view() + Seq::<SpannedV>::empty() =~= out.deep_view());
    }
    Ok(out)
}

proof fn lemma_prepend_nothing(rest: Result<Seq<SpannedV>, LexErrorV>)
    ensures
        prepend(Seq::empty(), rest) == rest,
{
    if let Ok(s) = rest {
        assert(Seq::<SpannedV>::empty() + s =~= s);
    }
}

proof fn lemma_prepend_one(
    head: Seq<SpannedV>,
    t: SpannedV,
    rest: Result<Seq<SpannedV>, LexErrorV>,
)
    ensures
        prepend(head.push(t), rest) == prepend(head, prepend(seq![t], rest)),
{
    if let Ok(s) = rest {
        assert(head.push(t) + s =~= head + (seq![t] + s));
    }
}

proof fn lemma_string_error(b: Seq<u8>, start: int, i: int)
    requires
        0 <= start < i <= b.len(),
        b.len() <= usize::MAX,
    ensures
        string_from(b, start, i) matches Err(e) ==> lex_error_byte(e) < b.len(),
    decreases b.len() - i,
{
    if i < b.len() {
        lemma_string_error(b, start, i + 1);
        if i + 1 < b.len() {
            lemma_string_error(b, start, i + 2);
        }
    }
}

/// Whether tokens stand one behind the other in the bytes from `from` on, each with at
/// least one byte.
pub open spec fn tokens_in_order(ts: Seq<SpannedV>, from: int, len: int) -> bool {
    &&& forall|i: int|
        0 <= i < ts.len() ==> from <= (#[trigger] ts[i]).span.start < ts[i].span.end <= len
    &&& forall|i: int, j: int|
        0 <= i < j < ts.len() ==> (#[trigger] ts[i]).span.end <= (#[trigger] ts[j]).span.start
}

proof fn lemma_lexed_from(b: Seq<u8>, i: int)
    requires
        0 <= i <= b.len(),
        b.len() <= usize::MAX,
    ensures
        match lex_from(b, i) {
            Ok(ts) => tokens_in_order(ts, i, b.len() as int),
            Err(e) => lex_error_byte(e) < b.len(),
        },
    decreases b.len() - i,
{
    if i < b.len() {
        if is_blank(b[i]) {
            lemma_lexed_from(b, i + 1);
        } else if b[i] == 59 {
            lemma_run_end(b, i, |c: u8| c != 10);
            lemma_lexed_from(b, run_end(b, i, |c: u8| c != 10));
        } else {
            lemma_token_at(b, i);
            lemma_string_error(b, i, i + 1);
            if let Ok((tok, end)) = token_at(b, i) {
                lemma_lexed_from(b, end);
                if let Ok(rest) = lex_from(b, end) {
                    let t = SpannedV { tok, span: Span { start: i as usize, end: end as usize } };
                    let ts = seq![t] + rest;
                    assert forall|k: int| 0 <= k < ts.len() implies i <= (
                    #[trigger] ts[k]).span.start < ts[k].span.end <= b.len() by {
                        if k > 0 {
                            assert(ts[k] == rest[k - 1]);
                        }
                    }
                    assert forall|k: int, l: int| 0 <= k < l < ts.len() implies (
                    #[trigger] ts[k]).span.end <= (#[trigger] ts[l]).span.start by {
                        assert(ts[l] == rest[l - 1]);
                        if k > 0 {
                            assert(ts[k] == rest[k - 1]);
                        }
                    }
                }
            }
        }
    }
}

/// The tokens of a text stand in it one behind the other, and where a text is refused,
/// the place of the error is in the text.
pub proof fn law_spans_in_order(src: Seq<char>)
    requires
        vstd::utf8::encode_utf8(src).len() <= usize::MAX,
    ensures
        match lex_text(src) {
            Ok(ts) => tokens_in_order(ts, 0, vstd::utf8::encode_utf8(src).len() as int),
            Err(e) => lex_error_byte(e) < vstd::utf8::encode_utf8(src).len(),
        },
{
    lemma_lexed_from(vstd::utf8::encode_utf8(src), 0);
}

} // verus!
