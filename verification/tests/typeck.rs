use risp::ast::{ExprKind, Program, TopLevel, Type};
use risp::parser::parse;
use risp::typeck::{mangle_method, mangle_mono, TypeCk};
use risp::typing::TypeError;

fn check(src: &str) -> Result<(Program, TypeCk), TypeError> {
    let mut prog = parse(src).unwrap();
    let mut tyck = TypeCk::new();
    tyck.check_ex(&mut prog, false)?;
    Ok((prog, tyck))
}

fn message(src: &str) -> String {
    match check(src) {
        Ok(_) => panic!("accepted: {src}"),
        Err(e) => e.to_text(),
    }
}

/// The message for a function body of type `i32`.
fn body_message(body: &str) -> String {
    message(&format!("(defn f [n: i32] -> i32 {body})"))
}

#[test]
fn symbols() {
    assert_eq!(mangle_method("Show", &Type::I32, "show"), "__risp_Show_i32_show");
    let arr = Type::Array { elem: Box::new(Type::I64), len: 3 };
    assert_eq!(mangle_method("T", &arr, "m"), "__risp_T__Array_i64_3__m");
    assert_eq!(mangle_mono("id", &[Type::I32]), "__risp_mono_id_i32");
}

#[test]
fn symbols_tell_methods_apart() {
    let arr = |len: u32| Type::Array { elem: Box::new(Type::I64), len };
    let tys = [Type::I32, Type::Str, Type::Named("P".to_string()), arr(3), arr(13)];
    let mut seen: Vec<String> = Vec::new();
    for t in ["Show", "Eq"] {
        for ty in &tys {
            for m in ["show", "eq"] {
                let s = mangle_method(t, ty, m);
                assert!(!seen.contains(&s), "{s}");
                seen.push(s);
            }
        }
    }
    // What is neither a letter nor a digit does not count.
    assert_eq!(
        mangle_method("T", &Type::Named("a-b".to_string()), "m"),
        mangle_method("T", &Type::Named("a_b".to_string()), "m")
    );
}

#[test]
fn types_are_filled_in() {
    let (prog, _) = check("(defn f [x: i64] -> i64 (if (< x 0i64) (- x) x))").unwrap();
    let TopLevel::Function(f) = &prog.items[0] else {
        panic!("expected function");
    };
    assert_eq!(f.body.ty, Some(Type::I64));
    let ExprKind::If { cond, then_branch, else_branch } = &f.body.kind else {
        panic!("expected if");
    };
    assert_eq!(cond.ty, Some(Type::Bool));
    assert_eq!(then_branch.ty, Some(Type::I64));
    assert_eq!(else_branch.ty, Some(Type::I64));
}

#[test]
fn instances_are_put_behind() {
    let src = "(defn id [T] [x: T] -> T x) (defn f [] -> i32 (id (id 1)))";
    let (prog, tyck) = check(src).unwrap();
    assert_eq!(prog.items.len(), 3);
    let TopLevel::Function(inst) = &prog.items[2] else {
        panic!("expected function");
    };
    assert_eq!(inst.name, "__risp_mono_id_i32");
    assert_eq!(inst.ret, Type::I32);
    assert_eq!(inst.body.ty, Some(Type::I32));
    assert!(tyck.fns.has(&"__risp_mono_id_i32".to_string()));
    let TopLevel::Function(f) = &prog.items[1] else {
        panic!("expected function");
    };
    assert!(matches!(&f.body.kind, ExprKind::Call { callee, .. } if callee == "__risp_mono_id_i32"));
}

#[test]
fn trait_calls_are_dispatched() {
    let src = r#"(trait Show (show [self] -> str))
        (impl Show for i32 (show [self] -> str "i32"))
        (defn print-show [T: Show] [x: T] -> unit (println (show x)))
        (defn f [] -> unit (print-show 1))"#;
    let (prog, _) = check(src).unwrap();
    let TopLevel::Impl(ib) = &prog.items[1] else {
        panic!("expected impl");
    };
    assert_eq!(ib.methods[0].params[0].ty, Type::I32);
    let text = format!("{:?}", prog.items);
    assert!(text.contains("__risp_Show_i32_show"));
    let e = message(&format!("{src} (defn g [] -> unit (print-show true))"));
    assert_eq!(e, "missing impl of trait Show for bool");
}

#[test]
fn main_is_required() {
    let mut prog = parse("(defn f [] -> i32 0)").unwrap();
    let e = TypeCk::new().check(&mut prog).unwrap_err();
    assert!(matches!(e, TypeError::NoMain));
    assert!(e.span().is_none());
    assert_eq!(e.to_text(), "missing main function");
    let mut prog = parse("(defn main [] -> i64 0i64)").unwrap();
    let e = TypeCk::new().check(&mut prog).unwrap_err();
    assert_eq!(e.to_text(), "type mismatch: expected i32, found i64");
    let mut prog = parse("(defn main [] -> i32 0)").unwrap();
    TypeCk::new().check(&mut prog).unwrap();
}

#[test]
fn matches_are_exhaustive() {
    let en = "(enum Opt None Some i32)";
    let ok = format!("{en} (defn f [o: Opt] -> i32 (match o (None 0) (Some n n)))");
    assert!(check(&ok).is_ok());
    let m = |arms: &str| message(&format!("{en} (enum E A) (defn f [o: Opt] -> i32 (match o {arms}))"));
    assert_eq!(m("(None 0)"), "match is not exhaustive (missing \"Some\")");
    assert_eq!(m("(None 0) (None 1) (Some n n)"), "duplicate match arm for variant \"None\"");
    assert_eq!(m("(None n 0) (Some n n)"), "unit variant \"None\" must not bind a value");
    assert_eq!(m("(None 0) (Some 1)"), "payload variant \"Some\" requires a binding");
    assert_eq!(m("(None 0) (Nope 1)"), "unknown variant \"Nope\"");
    assert_eq!(m("(None 0) (A 1)"), "variant \"A\" belongs to E, not Opt");
    assert_eq!(body_message("(match n (A 1))"), "match requires an enum, found i32");
}

#[test]
fn expression_errors() {
    assert_eq!(body_message("missing"), "undefined variable \"missing\"");
    assert_eq!(body_message("(missing 1)"), "undefined function \"missing\"");
    assert_eq!(body_message("true"), "type mismatch: expected i32, found bool");
    assert_eq!(body_message("(f)"), "arity mismatch for \"f\": expected 1, got 0");
    assert_eq!(body_message("(+ true true)"), "operator \"+\" cannot be applied to bool");
    assert_eq!(body_message("2147483648"), "integer literal does not fit type i32");
    assert_eq!(body_message("(as i32 true)"), "cannot cast from bool to i32");
    assert_eq!(body_message("(do (break) 1)"), "`break` outside of loop");
    assert_eq!(body_message("(field n x)"), "field access requires a struct, found i32");
    assert_eq!(
        body_message("(let [a: (Array str 1) (array str \"a\")] 1)"),
        "array element type str is not supported"
    );
    assert_eq!(
        message("(struct P [x: i32]) (defn f [p: P] -> i32 (field p y))"),
        "unknown field \"y\" on type P"
    );
    assert_eq!(
        message("(def C: i32 1) (defn f [] -> unit (set! C 2))"),
        "cannot assign to constant \"C\""
    );
}

#[test]
fn definition_errors() {
    assert_eq!(
        message("(defn f [] -> i32 1) (defn f [] -> i32 1)"),
        "duplicate definition of \"f\""
    );
    assert_eq!(message("(defn f [x: Nope] -> i32 1)"), "undefined type \"Nope\"");
    assert_eq!(message("(def C: i32 (+ 1 2))"), "const initializer must be a literal");
    assert_eq!(
        message("(struct P [s: str])"),
        "ADT field/payload type str is not supported"
    );
    assert_eq!(
        message("(defn f [a: (Array i32 2)] -> i32 1)"),
        "arrays cannot be used as function parameters or return types yet"
    );
    assert_eq!(message("(struct P [])"), "struct \"P\" must have at least one field");
    assert_eq!(message("(enum E)"), "enum \"E\" must have at least one variant");
    assert_eq!(
        message("(extern \"rust\" f [] -> i32)"),
        "unsupported extern ABI \"rust\" (only \"C\" is supported)"
    );
    assert_eq!(
        message("(struct P [x: i32]) (extern \"C\" f [p: P] -> i32)"),
        "extern parameter/return type P is not supported"
    );
}

#[test]
fn trait_errors() {
    let tr = "(trait Show (show [self] -> str))";
    let im = "(impl Show for i32 (show [self] -> str \"i32\"))";
    assert_eq!(
        message(&format!("{tr} {im} {im}")),
        "duplicate impl of trait Show for i32"
    );
    assert_eq!(
        message(&format!("{tr} (impl Show for i32 (hide [self] -> str \"i32\"))")),
        "method \"hide\" is not a member of trait Show"
    );
    assert_eq!(
        message(&format!("{tr} (trait Print (show [self] -> str))")),
        "ambiguous trait method name \"show\" (method names must be unique across traits)"
    );
    assert_eq!(message(im), "undefined trait \"Show\"");
    assert_eq!(
        message(&format!("{tr} {im} (defn f [] -> str (show))")),
        "trait method call requires at least one argument (receiver)"
    );
    assert_eq!(
        message("(defn g [T] [x: i32] -> i32 x) (defn f [] -> i32 (g 1))"),
        "cannot infer type parameter \"T\""
    );
}

#[test]
fn accepted_types_are_plain() {
    let (_, tyck) = check("(struct P [x: i32, y: bool]) (enum E A B f64)").unwrap();
    let p = tyck.structs.get(&"P".to_string()).unwrap();
    assert!(p.fields.iter().all(|f| f.ty.is_adt_field_allowed()));
    let b = tyck.variants.get(&"B".to_string()).unwrap();
    assert_eq!((b.enum_name.as_str(), b.tag), ("E", 1));
    assert_eq!(b.payload, Some(Type::F64));
}

#[test]
fn type_errors_point_into_the_text() {
    let src = "(defn id [T] [x: T] -> T (+ x nope)) (defn main [] -> i32 (id 1))";
    let Err(e) = check(src) else {
        panic!("accepted");
    };
    let span = e.span().unwrap();
    assert_eq!(&src[span.start..span.end], "nope");
    assert!(check("(defn f [] -> i32 0)").is_ok());
}

#[test]
fn a_generic_body_is_in_no_loop_of_its_caller() {
    let stop = "(defn stop [T] [x: T] -> unit (break))";
    assert_eq!(
        message(&format!("{stop} (defn f [] -> unit (loop (stop 1)))")),
        "`break` outside of loop"
    );
    let own = "(defn own [T] [x: T] -> T (do (loop (break)) x))";
    let (prog, _) =
        check(&format!("{own} (defn f [] -> unit (loop (do (own 1) (break))))")).unwrap();
    assert_eq!(prog.items.len(), 3);
}

#[test]
fn a_used_checker_checks_like_a_new_one() {
    let bad = "(defn f [] -> unit (loop (do (break) (+ 1 true))))";
    let lone = "(defn f [] -> unit (break))";
    let mut tyck = TypeCk::new();
    assert!(tyck.check_ex(&mut parse(bad).unwrap(), false).is_err());
    let e = tyck.check_ex(&mut parse(lone).unwrap(), false).unwrap_err();
    assert_eq!(e.to_text(), message(lone));
    assert_eq!(e.span(), check(lone).err().unwrap().span());
}

#[test]
fn a_match_has_one_arm_for_each_variant() {
    let head = "(enum O None Some i32) (defn f [o: O] -> i32 (match o ";
    assert!(check(&format!("{head} (Some n n) (None 0)))")).is_ok());
    assert!(check(&format!("{head} (None 0) (None 1) (Some n n)))")).is_err());
    assert!(check(&format!("{head} (None n 0) (Some n n)))")).is_err());
    assert!(check(&format!("{head} (None 0) (Some 1)))")).is_err());
    assert!(check(&format!("{head} (None 0)))")).is_err());
}
