use risp::lexer::{lex, FloatSuffix, IntSuffix, LexError, Token};

#[test]
fn lex_basic() {
    let src = "(defn add [x: i32, y: i32] -> i32 (+ x y))";
    let toks = lex(src).unwrap();
    assert!(toks.len() > 5);
}

#[test]
fn lex_string_with_escape() {
    let src = r#""hello\nworld""#;
    let toks = lex(src).unwrap();
    match &toks[0].tok {
        Token::Str(s) => assert_eq!(s, "hello\nworld"),
        _ => panic!("expected string"),
    }
}

#[test]
fn lex_numbers() {
    let toks = lex("42 -7 3.14 2i64 1.5f32").unwrap();
    assert!(matches!(toks[0].tok, Token::Int(42, None)));
    assert!(matches!(toks[1].tok, Token::Int(-7, None)));
    assert!(matches!(toks[2].tok, Token::Float(_, None)));
    assert!(matches!(toks[3].tok, Token::Int(2, Some(IntSuffix::I64))));
    assert!(matches!(toks[4].tok, Token::Float(_, Some(FloatSuffix::F32))));
}

#[test]
fn lex_comment() {
    let toks = lex("; this is a comment\n42").unwrap();
    assert_eq!(toks.len(), 1);
}

#[test]
fn spans_are_byte_ranges() {
    let toks = lex("  (foo \"a\\tb\")").unwrap();
    let spans: Vec<(usize, usize)> = toks.iter().map(|t| (t.span.start, t.span.end)).collect();
    assert_eq!(spans, vec![(2, 3), (3, 6), (7, 13), (13, 14)]);
}

#[test]
fn qualified_names_are_one_token() {
    let toks = lex("math/add").unwrap();
    assert_eq!(toks.len(), 1);
    match &toks[0].tok {
        Token::Ident(n) => assert_eq!(n, "math/add"),
        other => panic!("{other:?}"),
    }
}

#[test]
fn floats_keep_their_digits() {
    let toks = lex("3.14159").unwrap();
    match &toks[0].tok {
        Token::Float(d, None) => assert_eq!(d, "3.14159"),
        other => panic!("{other:?}"),
    }
}

#[test]
fn booleans_and_arrows() {
    let toks = lex("true false ->").unwrap();
    assert!(matches!(toks[0].tok, Token::Bool(true)));
    assert!(matches!(toks[1].tok, Token::Bool(false)));
    assert!(matches!(toks[2].tok, Token::Arrow));
}

#[test]
fn lex_errors() {
    match lex("\"abc").unwrap_err() {
        LexError::UnterminatedString(at) => assert_eq!(at, 0),
        other => panic!("{other:?}"),
    }
    let e = lex(" \"a\\qb\"").unwrap_err();
    assert!(matches!(e, LexError::InvalidEscape('q', _)));
    let e = lex("(\u{1})").unwrap_err();
    assert!(matches!(e, LexError::UnexpectedChar('\u{1}', 1)));
    assert_eq!(e.byte(), 1);
    assert_eq!(e.to_text(), "unexpected character '\\u{1}' at byte 1");
    let e = lex("99999999999999999999").unwrap_err();
    assert!(matches!(e, LexError::InvalidNumber(_, 0)));
    assert_eq!(e.to_text(), "invalid number literal \"99999999999999999999\" at byte 0");
}

#[test]
fn tokens_stand_one_behind_the_other() {
    let src = "(def x: f32 ; a comment\n 1.5f32) \"s\\n\" ->";
    let toks = lex(src).unwrap();
    assert!(toks.iter().all(|t| t.span.start < t.span.end && t.span.end <= src.len()));
    assert!(toks.windows(2).all(|w| w[0].span.end <= w[1].span.start));
}
