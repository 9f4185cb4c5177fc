use risp::repl::{is_definition, paren_balance, Answer, Prompt, Session};

#[test]
fn paren_balance_basic() {
    assert_eq!(paren_balance("(+ 1 2)"), 0);
    assert_eq!(paren_balance("(+ 1"), 1);
    assert_eq!(paren_balance("(+ 1 2))"), -1);
    assert_eq!(paren_balance(r#"(println "a(b)")"#), 0);
}

#[test]
fn session_defn_then_call() {
    let mut s = Session::new();
    assert_eq!(
        s.eval("(defn add [x: i32, y: i32] -> i32 (+ x y))")
            .unwrap(),
        "; ok"
    );
    assert_eq!(s.eval("(add 1 2)").unwrap(), "");
    assert!(s.pending.is_some());
}

#[test]
fn session_expr_only() {
    let mut s = Session::new();
    assert_eq!(s.eval("(+ 10 32)").unwrap(), "");
}

#[test]
fn brackets_in_strings_do_not_count() {
    assert_eq!(paren_balance(r#"("\"(["#), 1);
    assert_eq!(paren_balance("[(])"), 0);
    assert_eq!(paren_balance(""), 0);
}

#[test]
fn definitions_are_told_apart() {
    assert!(is_definition("  (defn f [] -> i32 1)"));
    assert!(is_definition("\u{3000}(def x: i32 1)"));
    assert!(is_definition("(defmacro m [] 1)"));
    assert!(is_definition("(impl Show for i32)"));
    assert!(!is_definition("(default 1)"));
    assert!(!is_definition("(+ 1 2)"));
}

#[test]
fn rejected_definitions_are_forgotten() {
    let mut s = Session::new();
    s.eval("(def x: i32 1)").unwrap();
    let report = s.eval("(defn f [] -> i32 y)").unwrap_err();
    assert!(report.contains("error: undefined variable \"y\"\n"), "{report}");
    assert!(report.contains("--> <repl>:2:19"), "{report}");
    assert_eq!(s.defs.len(), 1);
    assert_eq!(s.eval("(+ x 1)").unwrap(), "");
    s.clear();
    assert!(s.defs.is_empty());
    assert!(s.eval("(+ x 1)").is_err());
}

#[test]
fn macros_persist() {
    let mut s = Session::new();
    assert_eq!(s.eval("(defmacro twice [x] (+ x x))").unwrap(), "; ok");
    assert_eq!(s.eval("(twice 21)").unwrap(), "");
}

#[test]
fn imports_are_rejected() {
    let mut s = Session::new();
    let report = s.eval("(def x: i32 1) (import math)").unwrap_err();
    assert_eq!(report, "error: import not supported in REPL\n  --> <repl>\n");
}

#[test]
fn expressions_must_parse_on_their_own() {
    let mut s = Session::new();
    let report = s.eval("(+ 1 2) (+ 3 4)").unwrap_err();
    assert!(report.starts_with("error: "), "{report}");
    assert!(s.pending.is_none());
}

fn said(a: Answer) -> String {
    match a {
        Answer::Say(s) => s,
        _ => panic!("expected a line"),
    }
}

#[test]
fn prompt_session() {
    let mut p = Prompt::new();
    assert_eq!(p.prompt(), "risp> ");
    assert_eq!(said(p.feed(":defs\n")), "; (no definitions)");
    assert!(matches!(p.feed("\n"), Answer::Nothing));
    assert!(matches!(p.feed("(defn add [x: i32, y: i32] -> i32\n"), Answer::Nothing));
    assert_eq!(p.prompt(), "....> ");
    assert_eq!(said(p.feed("  (+ x y))\n")), "; ok");
    assert_eq!(p.prompt(), "risp> ");
    match p.feed("(add 20 22)\n") {
        Answer::Run(m) => assert_eq!(m.name, "risp_repl"),
        _ => panic!("expected a script"),
    }
    assert_eq!(said(p.feed(":defs\n")), "(defn add [x: i32, y: i32] -> i32\n  (+ x y))");
    match p.feed("(+ 1 2))\n") {
        Answer::Complain(m) => assert_eq!(m, "error: unmatched closing parenthesis\n"),
        _ => panic!("expected a complaint"),
    }
    assert!(matches!(p.feed("(add 1)\n"), Answer::Complain(_)));
    assert_eq!(said(p.feed(":clear\n")), "; cleared");
    assert!(said(p.feed(" :h \n")).starts_with("; Commands:\n"));
    assert!(matches!(p.feed(":q\n"), Answer::Quit));
}
