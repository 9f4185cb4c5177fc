use risp::ast::{ExprKind, Program, TopLevel};
use risp::macroexpand::{expand, MacroError};
use risp::parser::parse;

#[test]
fn expand_when_macro() {
    let src = r#"
(defmacro when [cond body]
  (if cond body (do)))

(defn main [] -> i32
  (do
    (when true 1)
    0))
"#;
    let mut prog = parse(src).unwrap();
    expand(&mut prog).unwrap();
    assert!(prog.items.iter().all(|it| !matches!(it, TopLevel::DefMacro(_))));
    let TopLevel::Function(f) = &prog.items[0] else {
        panic!("expected function");
    };
    // Body should contain an `if` (from when), not a call to `when`.
    let ExprKind::Do(exprs) = &f.body.kind else {
        panic!("expected do");
    };
    assert!(matches!(exprs[0].kind, ExprKind::If { .. }));
}

#[test]
fn macro_arity_error() {
    let src = r#"
(defmacro when [cond body]
  (if cond body (do)))

(defn main [] -> i32
  (when true))
"#;
    let mut prog = parse(src).unwrap();
    let err = expand(&mut prog).unwrap_err();
    assert!(matches!(err, MacroError::Arity { expected: 2, got: 1, .. }));
}

fn body(prog: &Program) -> &ExprKind {
    match prog.items.last() {
        Some(TopLevel::Function(f)) => &f.body.kind,
        other => panic!("{other:?}"),
    }
}

#[test]
fn macros_expand_in_macros() {
    let src = "(defmacro a [x] (b x)) (defmacro b [y] (+ y 1)) (defn f [] -> i32 (a 2))";
    let mut prog = parse(src).unwrap();
    expand(&mut prog).unwrap();
    assert!(matches!(body(&prog), ExprKind::Call { callee, args } if callee == "+" && args.len() == 2));
}

#[test]
fn programs_without_macros_stay() {
    let src = "(defn f [x: i32] -> i32 (let [y: i32 x] (+ x y)))";
    let mut prog = parse(src).unwrap();
    let before = format!("{prog:?}");
    expand(&mut prog).unwrap();
    assert_eq!(format!("{prog:?}"), before);
}

#[test]
fn duplicate_macros_are_rejected() {
    let src = "(defmacro m [] 1) (defmacro m [] 2) (defn f [] -> i32 (m))";
    let err = expand(&mut parse(src).unwrap()).unwrap_err();
    assert!(matches!(&err, MacroError::Duplicate(n, _) if n == "m"));
    assert!(err.span().is_some());
}

#[test]
fn endless_expansion_is_rejected() {
    let src = "(defmacro m [] (m)) (defn f [] -> i32 (m))";
    let err = expand(&mut parse(src).unwrap()).unwrap_err();
    assert!(matches!(err, MacroError::ExpansionLimit(_, _)));
    assert!(err.to_text().contains("possible recursive macro"));
}

#[test]
fn other_items_stay_in_order() {
    let src = "(defn a [] -> i32 (one)) (defmacro one [] 1) (def c: i32 2) (defn b [] -> i32 (one))";
    let mut prog = parse(src).unwrap();
    expand(&mut prog).unwrap();
    assert_eq!(prog.items.len(), 3);
    assert!(matches!(&prog.items[0], TopLevel::Function(f) if f.name == "a" && matches!(f.body.kind, ExprKind::Lit(_))));
    assert!(matches!(&prog.items[1], TopLevel::Const(c) if c.name == "c"));
    assert!(matches!(&prog.items[2], TopLevel::Function(f) if f.name == "b" && matches!(f.body.kind, ExprKind::Lit(_))));
    let once = format!("{prog:?}");
    expand(&mut prog).unwrap();
    assert_eq!(format!("{prog:?}"), once);
}
