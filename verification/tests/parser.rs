use risp::ast::{ExprKind, Lit, TopLevel, Type};
use risp::grammar::{FrontendError, ParseError};
use risp::parser::{parse, parse_expr_src};

#[test]
fn parse_hello() {
    let src = r#"
        (defn main [] -> i32
          (do
            (println "hi")
            0))
        "#;
    let prog = parse(src).unwrap();
    assert_eq!(prog.items.len(), 1);
}

#[test]
fn parse_add() {
    let src = "(defn add [x: i32, y: i32] -> i32 (+ x y))";
    let prog = parse(src).unwrap();
    assert_eq!(prog.items.len(), 1);
}

#[test]
fn parse_let_if() {
    let src = "(defn f [n: i32] -> i32 (let [x: i32 (+ n 1)] (if (< x 0) 0 x)))";
    let prog = parse(src).unwrap();
    assert_eq!(prog.items.len(), 1);
}

#[test]
fn top_level_forms() {
    let src = r#"
        (module demo)
        (import math)
        (def PI: f64 3.14159)
        (struct Point [x: i32, y: i32])
        (enum Opt None Some i32)
        (extern "C" strlen [s: str] -> i32)
        (trait Show (show [self] -> str))
        (impl Show for i32 (show [self] -> str "i32"))
        (defn id [T] [x: T] -> T x)
        (defmacro when [c b] (if c b (do)))
        (defn main [] -> i32 0)
    "#;
    let prog = parse(src).unwrap();
    assert_eq!(prog.items.len(), 11);
    assert!(matches!(&prog.items[0], TopLevel::Module { name, .. } if name == "demo"));
    assert!(matches!(&prog.items[1], TopLevel::Import { name, .. } if name == "math"));
    match &prog.items[2] {
        TopLevel::Const(c) => {
            assert_eq!(c.ty, Type::F64);
            assert!(matches!(&c.value.kind, ExprKind::Lit(Lit::Float(d, None)) if d == "3.14159"));
        }
        other => panic!("{other:?}"),
    }
    match &prog.items[4] {
        TopLevel::Enum(e) => {
            assert_eq!(e.variants.len(), 2);
            assert!(e.variants[0].payload.is_none());
            assert_eq!(e.variants[1].payload, Some(Type::I32));
        }
        other => panic!("{other:?}"),
    }
    assert!(matches!(&prog.items[5], TopLevel::Extern(e) if e.abi == "C"));
    match &prog.items[8] {
        TopLevel::GenericFunction(g) => {
            assert_eq!(g.type_params.len(), 1);
            assert_eq!(g.ret, Type::Named("T".to_string()));
        }
        other => panic!("{other:?}"),
    }
}

#[test]
fn expression_forms() {
    let e = parse_expr_src("(match o (None 0) (Some n n))").unwrap();
    match &e.kind {
        ExprKind::Match { arms, .. } => {
            assert_eq!(arms.len(), 2);
            assert_eq!(arms[0].variant, "None");
            assert!(arms[0].binding.is_none());
            assert_eq!(arms[1].binding.as_deref(), Some("n"));
        }
        other => panic!("{other:?}"),
    }
    let e = parse_expr_src("(array i32 1 2 3)").unwrap();
    assert!(matches!(&e.kind, ExprKind::ArrayLit { elems, .. } if elems.len() == 3));
    let e = parse_expr_src("(set! x 1)").unwrap();
    assert!(matches!(&e.kind, ExprKind::Assign { name, .. } if name == "x"));
    let e = parse_expr_src("(while true (break))").unwrap();
    assert!(matches!(&e.kind, ExprKind::While { .. }));
    let e = parse_expr_src("(as f64 n)").unwrap();
    assert!(matches!(&e.kind, ExprKind::Cast { ty: Type::F64, .. }));
}

#[test]
fn parse_errors() {
    match parse("(defn main [] -> i32").unwrap_err() {
        FrontendError::Parse(ParseError::UnexpectedEof) => {}
        other => panic!("{other:?}"),
    }
    match parse("(defn f [x: Foo!] -> i32 0) )").unwrap_err() {
        FrontendError::Parse(e) => assert!(e.byte().is_some()),
        other => panic!("{other:?}"),
    }
    let e = parse("(\u{1}").unwrap_err();
    assert!(matches!(e, FrontendError::Lex(_)));
    assert_eq!(e.to_text(), "unexpected character '\\u{1}' at byte 1");
}

#[test]
fn spans_reach_from_the_first_to_the_last_token() {
    let e = parse_expr_src(" (+ 1 (f x))").unwrap();
    assert_eq!((e.span.start, e.span.end), (1, 12));
    let ExprKind::Call { args, .. } = &e.kind else {
        panic!("expected a call");
    };
    assert_eq!((args[1].span.start, args[1].span.end), (6, 11));
}
