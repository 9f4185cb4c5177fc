use risp::ast::{ExprKind, TopLevel};
use risp::grammar::FrontendError;
use risp::parser::parse;
use risp::prefix::prefix_items;
use risp::resolve::{prepare_repl, resolve, Entry, FileText, Files, FoundFile, Probe, ResolveError, Stop};
use risp::table::Table;

#[test]
fn prefix_function_and_call() {
    let src = r#"
        (defn helper [] -> i32 1)
        (defn add [x: i32, y: i32] -> i32 (+ x (helper)))
        "#;
    let prog = parse(src).unwrap();
    let items = prefix_items("math", prog.items);
    match &items[0] {
        TopLevel::Function(f) => assert_eq!(f.name, "math/helper"),
        other => panic!("{other:?}"),
    }
    match &items[1] {
        TopLevel::Function(f) => {
            assert_eq!(f.name, "math/add");
            match &f.body.kind {
                ExprKind::Call { args, .. } => match &args[1].kind {
                    ExprKind::Call { callee, .. } => assert_eq!(callee, "math/helper"),
                    other => panic!("{other:?}"),
                },
                other => panic!("{other:?}"),
            }
        }
        other => panic!("{other:?}"),
    }
}

#[test]
fn prepare_repl_rejects_import() {
    let src = "(import math)\n(defn main [] -> i32 0)";
    let mut prog = parse(src).unwrap();
    let err = prepare_repl(&mut prog).unwrap_err();
    assert!(matches!(err, ResolveError::ImportInRepl));
}

#[test]
fn prepare_repl_drops_module_forms() {
    let mut prog = parse("(module m) (defn main [] -> i32 0)").unwrap();
    prepare_repl(&mut prog).unwrap();
    assert_eq!(prog.items.len(), 1);
    assert!(matches!(&prog.items[0], TopLevel::Function(_)));
}

fn entry() -> Entry {
    Entry { parent: "src".to_string(), stem: Some("app".to_string()) }
}

fn put(files: &mut Files, dir: &str, name: &str, text: Option<&str>) {
    let path = format!("{dir}/{name}.rsp");
    let file = text.map(|t| FoundFile {
        path: path.clone(),
        key: path.clone(),
        parent: dir.to_string(),
        stem: Some(name.to_string()),
        text: FileText::Text(t.to_string()),
    });
    files.put((dir.to_string(), name.to_string()), Probe { path, file });
}

fn names(src: &str, files: &Files) -> Vec<String> {
    let mut prog = parse(src).unwrap();
    resolve(&mut prog, &entry(), files).unwrap();
    prog.items
        .iter()
        .map(|it| match it {
            TopLevel::Function(f) => f.name.clone(),
            TopLevel::GenericFunction(f) => f.name.clone(),
            TopLevel::Const(c) => c.name.clone(),
            TopLevel::Extern(e) => e.name.clone(),
            TopLevel::Struct(s) => s.name.clone(),
            TopLevel::Enum(e) => e.name.clone(),
            TopLevel::Trait(t) => t.name.clone(),
            TopLevel::DefMacro(m) => m.name.clone(),
            other => panic!("{other:?}"),
        })
        .collect()
}

fn failure(src: &str, files: &Files) -> ResolveError {
    let mut prog = parse(src).unwrap();
    match resolve(&mut prog, &entry(), files) {
        Err(Stop::Error(e)) => {
            assert!(prog.items.is_empty());
            e
        }
        other => panic!("{other:?}"),
    }
}

#[test]
fn missing_files_are_asked_for() {
    let files: Files = Table::new();
    let mut prog = parse("(import math) (defn main [] -> i32 0)").unwrap();
    match resolve(&mut prog, &entry(), &files) {
        Err(Stop::Need { dir, name }) => {
            assert_eq!(dir, "src");
            assert_eq!(name, "math");
        }
        other => panic!("{other:?}"),
    }
    assert_eq!(prog.items.len(), 2);
}

#[test]
fn imports_come_first_and_once() {
    let mut files: Files = Table::new();
    put(&mut files, "src", "a", Some("(import c) (defn fa [] -> i32 (c/fc))"));
    put(&mut files, "src", "b", Some("(module b) (import c) (defn fb [] -> i32 1)"));
    put(&mut files, "src", "c", Some("(defn fc [] -> i32 1)"));
    let got = names("(import a) (import b) (defn main [] -> i32 0)", &files);
    assert_eq!(got, vec!["c/fc", "a/fa", "b/fb", "main"]);
}

#[test]
fn locals_hide_globals() {
    let src = "(defn x [] -> i32 1) (defn f [x: i32] -> i32 (let [y: i32 x] (+ x y)))";
    let items = prefix_items("m", parse(src).unwrap().items);
    let TopLevel::Function(f) = &items[1] else {
        panic!("expected function");
    };
    let ExprKind::Let { bindings, body } = &f.body.kind else {
        panic!("expected let");
    };
    assert!(matches!(&bindings[0].value.kind, ExprKind::Var(n) if n == "x"));
    assert!(matches!(&body.kind, ExprKind::Call { callee, .. } if callee == "+"));
}

#[test]
fn resolve_errors() {
    let mut files: Files = Table::new();
    put(&mut files, "src", "a", Some("(import b)"));
    put(&mut files, "src", "b", Some("(import a)"));
    let e = failure("(import a)", &files);
    assert_eq!(e.to_text(), "circular import: app -> a -> b -> a");
    assert!(e.span().is_none());

    let e = failure("(import app)", &files);
    assert_eq!(e.to_text(), "circular import: app -> app");

    put(&mut files, "src", "nope", None);
    let e = failure("(import nope)", &files);
    assert_eq!(
        e.to_text(),
        "module `nope` not found (searched src/nope.rsp, src/nope.rsp)"
    );
    assert!(e.span().is_some());

    put(&mut files, "src", "other", Some("(module another)"));
    let e = failure("(import other)", &files);
    assert_eq!(
        e.to_text(),
        "module name mismatch: imported as \"other\", declared \"another\""
    );

    put(&mut files, "src", "late", Some("(defn f [] -> i32 1) (module late)"));
    let e = failure("(import late)", &files);
    assert!(matches!(e, ResolveError::ModuleNotFirst(_)));

    put(&mut files, "src", "bad", Some("(defn"));
    let e = failure("(import bad)", &files);
    match &e {
        ResolveError::Frontend { file, src, err } => {
            assert_eq!(file, "src/bad.rsp");
            assert_eq!(src, "(defn");
            assert!(matches!(err, FrontendError::Parse(_)));
        }
        other => panic!("{other:?}"),
    }

    files.put(
        ("src".to_string(), "locked".to_string()),
        Probe {
            path: "src/locked.rsp".to_string(),
            file: Some(FoundFile {
                path: "src/locked.rsp".to_string(),
                key: "k".to_string(),
                parent: "src".to_string(),
                stem: None,
                text: FileText::Unreadable("denied".to_string()),
            }),
        },
    );
    let e = failure("(import locked)", &files);
    assert_eq!(e.to_text(), "could not read src/locked.rsp: denied");
    assert_eq!(ResolveError::ImportInRepl.to_text(), "import not supported in REPL");
}

#[test]
fn entry_directory_is_searched_second() {
    let mut files: Files = Table::new();
    files.put(
        ("src".to_string(), "lib/a".to_string()),
        Probe {
            path: "src/lib/a.rsp".to_string(),
            file: Some(FoundFile {
                path: "src/lib/a.rsp".to_string(),
                key: "ka".to_string(),
                parent: "src/lib".to_string(),
                stem: Some("a".to_string()),
                text: FileText::Text("(module lib/a) (import b) (defn f [] -> i32 (b/g))".to_string()),
            }),
        },
    );
    put(&mut files, "src/lib", "b", None);
    put(&mut files, "src", "b", Some("(defn g [] -> i32 1)"));
    assert_eq!(names("(import lib/a)", &files), vec!["b/g", "lib/a/f"]);
}

#[test]
fn all_definitions_are_qualified() {
    let mut files = Files::new();
    put(
        &mut files,
        "src",
        "m",
        Some(
            "(struct P [x: i32]) (enum E A B i32) (def K: i32 1) (trait T (show [self] -> i32)) \
             (defmacro w [x] x) (extern \"C\" abs [x: i32] -> i32) (defn id [T] [x: T] -> T x) \
             (defn f [] -> i32 K)",
        ),
    );
    assert_eq!(
        names("(import m) (defn main [] -> i32 (m/f))", &files),
        vec!["m/P", "m/E", "m/K", "m/T", "m/w", "m/abs", "m/id", "m/f", "main"]
    );
}

#[test]
fn values_of_bindings_see_the_outer_variables() {
    let src = "(def x: i32 5) (defn f [] -> i32 (let [x: i32 1, y: i32 x] (+ x y)))";
    let items = prefix_items("m", parse(src).unwrap().items);
    let TopLevel::Function(f) = &items[1] else {
        panic!("expected function");
    };
    let ExprKind::Let { bindings, body } = &f.body.kind else {
        panic!("expected let");
    };
    assert_eq!(bindings[0].name, "x");
    assert!(matches!(&bindings[1].value.kind, ExprKind::Var(n) if n == "m/x"));
    let ExprKind::Call { args, .. } = &body.kind else {
        panic!("expected call");
    };
    assert!(matches!(&args[0].kind, ExprKind::Var(n) if n == "x"));
}
