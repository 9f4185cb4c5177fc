use risp::ast::Program;
use risp::codegen::Codegen;
use risp::driver::{compile, Halt};
use risp::ir::{BinOp, ConvOp, LTy, Module, Op, Pred, Prim, Val};
use risp::lowering::CodegenError;
use risp::macroexpand::expand;
use risp::parser::parse;
use risp::resolve::{Entry, Files};
use risp::table::Table;
use risp::typeck::TypeCk;

/// How many functions the run time has.
const RUNTIME: usize = 22;

fn module(src: &str) -> Module {
    let mut prog = parse(src).unwrap();
    expand(&mut prog).unwrap();
    let mut tyck = TypeCk::new();
    tyck.check_ex(&mut prog, false).unwrap();
    let mut cg = Codegen::new("m");
    cg.compile_program(&prog, &tyck).unwrap();
    cg.into_module()
}

/// The steps behind the declarations of the run time.
fn steps(src: &str) -> Vec<Op> {
    module(src).ops.into_iter().skip(RUNTIME).collect()
}

fn shown(src: &str) -> Vec<String> {
    steps(src).iter().map(|op| format!("{op:?}")).collect()
}

#[test]
fn run_time_comes_first() {
    let m = module("(defn f [] -> unit (do))");
    assert_eq!(m.name, "m");
    let names: Vec<&str> = m.ops[..RUNTIME]
        .iter()
        .map(|op| match op {
            Op::AddFunction { name, .. } => name.as_str(),
            other => panic!("{other:?}"),
        })
        .collect();
    assert_eq!(
        names,
        vec![
            "puts",
            "printf",
            "risp_str_from_cstr",
            "risp_str_retain",
            "risp_str_release",
            "risp_str_concat",
            "risp_str_len",
            "risp_str_cstr",
            "risp_box_alloc",
            "risp_box_free",
            "risp_vec_i32_new",
            "risp_vec_i32_push",
            "risp_vec_i32_get",
            "risp_vec_i32_len",
            "risp_vec_i32_free",
            "risp_rc_alloc",
            "risp_rc_retain",
            "risp_rc_release_strong",
            "risp_rc_after_payload_drop",
            "risp_weak_from",
            "risp_weak_upgrade",
            "risp_weak_release",
        ]
    );
    assert!(matches!(&m.ops[1], Op::AddFunction { vararg: true, .. }));
}

#[test]
fn a_whole_function() {
    let f = RUNTIME;
    assert_eq!(
        shown("(defn add [x: i32] -> i32 (+ x 1))"),
        vec![
            "AddFunction { name: \"add\", params: [One(I32)], ret: Some(One(I32)), vararg: false }"
                .to_string(),
            format!("NewBlock {{ func: {f}, name: \"entry\" }}"),
            format!("NewBlock {{ func: {f}, name: \"loop\" }}"),
            format!("PositionAt({})", f + 1),
            format!("EntryAlloca {{ func: {f}, ty: One(I32), name: \"x\", zeroed: false }}"),
            format!("Store {{ ptr: Reg({}), val: Arg(0) }}", f + 4),
            format!("Br({})", f + 2),
            format!("PositionAt({})", f + 2),
            format!("Load {{ ty: One(I32), ptr: Reg({}), name: \"x\" }}", f + 4),
            format!("Bin {{ op: Add, a: Reg({}), b: Int(I32, 1), name: \"add\" }}", f + 8),
            format!("Ret(Some(Reg({})))", f + 9),
        ]
    );
}

#[test]
fn tail_calls_to_itself_jump() {
    let src = "(defn sum [n: i32, acc: i32] -> i32 (if (= n 0) acc (sum (- n 1) (+ acc n))))";
    let ops = steps(src);
    assert!(!ops.iter().any(|op| matches!(op, Op::Call { .. })));
    let header = RUNTIME + 2;
    assert!(matches!(ops.last(), Some(Op::Br(bb)) if *bb == header));
    // Both arguments are evaluated before the parameters change.
    let bins = ops.iter().rposition(|op| matches!(op, Op::Bin { .. })).unwrap();
    let stores: Vec<usize> = ops
        .iter()
        .enumerate()
        .filter(|(_, op)| matches!(op, Op::Store { .. }))
        .map(|(i, _)| i)
        .collect();
    assert_eq!(stores.len(), 4);
    assert!(stores[2] > bins && stores[3] > bins);
}

#[test]
fn other_calls_are_calls() {
    let src = "(defn fact [n: i32] -> i32 (if (= n 0) 1 (* n (fact (- n 1)))))";
    let ops = steps(src);
    let calls = ops
        .iter()
        .filter(|op| matches!(op, Op::Call { func, .. } if *func == RUNTIME))
        .count();
    assert_eq!(calls, 1);
}

#[test]
fn break_leaves_the_innermost_loop() {
    let ops = steps("(defn f [] -> unit (loop (do (loop (break)) (break))))");
    let ends: Vec<usize> = ops
        .iter()
        .enumerate()
        .filter(|(_, op)| matches!(op, Op::NewBlock { name, .. } if name == "loop.end"))
        .map(|(i, _)| i + RUNTIME)
        .collect();
    let jumps: Vec<usize> = ops
        .iter()
        .filter_map(|op| match op {
            Op::Br(bb) if ends.contains(bb) => Some(*bb),
            _ => None,
        })
        .collect();
    assert_eq!(jumps, vec![ends[1], ends[0]]);
}

#[test]
fn and_is_short_circuit() {
    let ops = steps("(defn f [a: bool, b: bool] -> bool (and a b))");
    let at = ops
        .iter()
        .position(|op| matches!(op, Op::CondBr { .. }))
        .unwrap();
    let Op::CondBr { yes, no, .. } = &ops[at] else {
        panic!("expected a branch");
    };
    assert!(matches!(&ops[*yes - RUNTIME], Op::NewBlock { name, .. } if name == "and.rhs"));
    assert!(matches!(&ops[*no - RUNTIME], Op::NewBlock { name, .. } if name == "and.end"));
    assert!(ops.iter().any(|op| matches!(
        op,
        Op::Phi { incoming, .. } if matches!(incoming[0].0, Val::Int(Prim::I1, 0))
    )));
}

#[test]
fn strings_are_retained_and_released() {
    let ops = steps("(defn f [s: str] -> str s)");
    let calls: Vec<usize> = ops
        .iter()
        .filter_map(|op| match op {
            Op::Call { func, .. } => Some(*func),
            _ => None,
        })
        .collect();
    // The result is one more owner, the parameter is released.
    assert_eq!(calls, vec![3, 4]);
    assert!(matches!(&ops[4], Op::EntryAlloca { zeroed: true, .. }));
}

#[test]
fn printing() {
    let text = |src: &str| -> Vec<String> {
        steps(src)
            .into_iter()
            .filter_map(|op| match op {
                Op::GlobalText { text, name } => Some(format!("{name}={text}")),
                _ => None,
            })
            .collect()
    };
    assert_eq!(text("(defn f [] -> unit (println 1))"), vec![".str0=%d\n"]);
    assert_eq!(text("(defn f [] -> unit (print 1i64))"), vec![".str0=%lld"]);
    assert_eq!(text("(defn f [] -> unit (print 1.5))"), vec![".str0=%g"]);
    assert_eq!(
        text("(defn f [] -> unit (println true))"),
        vec![".str0=true", ".str1=false", ".str2=%s\n"]
    );
    assert_eq!(text("(defn f [] -> unit (print \"a\"))"), vec![".str0=a", ".str1=%s"]);
    assert_eq!(text("(defn f [] -> unit (println \"a\"))"), vec![".str0=a"]);
}

#[test]
fn enums_and_matches() {
    let src = "(enum Opt None Some f32)
        (defn f [o: Opt] -> f32 (match o (None 0.0f32) (Some x x)))
        (defn g [] -> Opt (Some 1.5f32))";
    let ops = steps(src);
    assert!(ops.iter().any(|op| matches!(
        op,
        Op::Switch { cases, .. } if cases.len() == 2 && cases[0].0 == 0 && cases[1].0 == 1
    )));
    let convs: Vec<(ConvOp, Prim)> = ops
        .iter()
        .filter_map(|op| match op {
            Op::Convert { op, to, .. } => Some((*op, *to)),
            _ => None,
        })
        .collect();
    assert_eq!(
        convs,
        vec![
            (ConvOp::Truncate, Prim::I32),
            (ConvOp::BitCast, Prim::F32),
            (ConvOp::BitCast, Prim::I32),
            (ConvOp::ZeroExtend, Prim::I64),
        ]
    );
}

#[test]
fn arrays_and_structs() {
    let src = "(struct P [x: i32, y: i64])
        (defn f [] -> i64
          (let [a: (Array i32 2) (array i32 1 2), p: P (P 3 4i64)]
            (do (aset! a 0 5) (+ (field p y) (as i64 (+ (aget a 1) (alen a)))))))";
    let ops = steps(src);
    assert!(ops
        .iter()
        .any(|op| matches!(op, Op::EntryAlloca { ty: LTy::Array(Prim::I32, 2), .. })));
    assert!(ops.iter().any(|op| matches!(
        op,
        Op::FieldPtr { ty: LTy::Struct(ps), index: 1, .. } if *ps == vec![Prim::I32, Prim::I64]
    )));
    assert!(ops
        .iter()
        .any(|op| matches!(op, Op::Bin { b: Val::Int(Prim::I32, 2), .. })));
    assert!(ops
        .iter()
        .any(|op| matches!(op, Op::Convert { op: ConvOp::SignExtend, .. })));
}

#[test]
fn comparisons_follow_the_operands() {
    let ops = steps("(defn f [x: f64] -> bool (!= x 1.0)) (defn g [x: i64] -> bool (<= x 1i64))");
    let tests: Vec<(Pred, bool)> = ops
        .iter()
        .filter_map(|op| match op {
            Op::Test { pred, float, .. } => Some((*pred, *float)),
            _ => None,
        })
        .collect();
    assert_eq!(tests, vec![(Pred::NotEqual, true), (Pred::LessEqual, false)]);
}

#[test]
fn arithmetic_folds_from_the_left() {
    let ops = steps("(defn f [] -> i32 (- 1 2 3)) (defn g [] -> f64 (mod 1.0 2.0)) (defn h [] -> i32 (- 4))");
    let bins: Vec<(BinOp, String, String)> = ops
        .iter()
        .filter_map(|op| match op {
            Op::Bin { op, a, b, .. } => Some((*op, format!("{a:?}"), format!("{b:?}"))),
            _ => None,
        })
        .collect();
    assert_eq!(bins.len(), 3);
    assert_eq!((bins[0].0, bins[0].2.as_str()), (BinOp::Sub, "Int(I32, 2)"));
    assert_eq!((bins[1].0, bins[1].2.as_str()), (BinOp::Sub, "Int(I32, 3)"));
    assert_eq!(
        (bins[2].0, bins[2].1.as_str(), bins[2].2.as_str()),
        (BinOp::FRem, "Float(F64, \"1.0\")", "Float(F64, \"2.0\")")
    );
    assert!(ops.iter().any(|op| matches!(op, Op::Neg { float: false, .. })));
}

#[test]
fn foreign_functions_get_c_strings() {
    let src = "(extern \"C\" strlen [s: str] -> i32) (defn f [] -> i32 (strlen \"abc\"))";
    let calls: Vec<usize> = steps(src)
        .iter()
        .filter_map(|op| match op {
            Op::Call { func, .. } => Some(*func),
            _ => None,
        })
        .collect();
    assert_eq!(calls, vec![2, 7, RUNTIME, 4]);
}

#[test]
fn steps_refer_to_earlier_steps() {
    let src = "(defn f [n: i32] -> i32
        (let [i: i32 0, s: str \"x\"]
          (do (while (< i n) (if (= i 3) (break) (set! i (+ i 1))))
              (println (str-concat s \"y\"))
              (if (or (< i 2) (not (= i 5))) i (f (- n 1))))))";
    for (i, op) in module(src).ops.iter().enumerate() {
        match op {
            Op::PositionAt(bb) | Op::Br(bb) => assert!(*bb < i),
            Op::CondBr { yes, no, .. } => assert!(*yes < i && *no < i),
            Op::Call { func, .. } => assert!(*func < i),
            _ => {}
        }
    }
}

#[test]
fn a_let_gives_back_the_outer_variable() {
    let ops = module("(defn f [x: i32] -> i32 (+ (+ x (let [x: i32 1] x)) x))").ops;
    let slots: Vec<usize> = (0..ops.len())
        .filter(|i| matches!(ops[*i], Op::EntryAlloca { .. }))
        .collect();
    let loads: Vec<String> = ops
        .iter()
        .filter(|op| matches!(op, Op::Load { .. }))
        .map(|op| format!("{op:?}"))
        .collect();
    assert_eq!(slots.len(), 2);
    assert_eq!(loads.len(), 3);
    assert!(loads[0].contains(&format!("Reg({})", slots[0])));
    assert!(loads[1].contains(&format!("Reg({})", slots[1])));
    assert_eq!(loads[2], loads[0]);
}

#[test]
fn unchecked_programs_are_refused() {
    let prog: Program = parse("(defn f [] -> i32 1)").unwrap();
    let tyck = TypeCk::new();
    let mut cg = Codegen::new("m");
    let e = cg.compile_program(&prog, &tyck).unwrap_err();
    assert!(matches!(e, CodegenError::Internal(_)));
    assert_eq!(
        e.to_text(),
        "internal: expression missing type info (typeck not run?)"
    );
    assert_eq!(CodegenError::Llvm("x".to_string()).to_text(), "LLVM error: x");
}

/// What an accepted program without code for it is refused with.
fn refusal(src: &str) -> String {
    let mut prog = parse(src).unwrap();
    let mut tyck = TypeCk::new();
    tyck.check_ex(&mut prog, false).unwrap();
    let mut cg = Codegen::new("m");
    cg.compile_program(&prog, &tyck).unwrap_err().to_text()
}

#[test]
fn what_is_used_must_have_a_value() {
    assert_eq!(
        refusal("(defn f [] -> i32 (let [x: unit (do)] 0))"),
        "internal: let value"
    );
    assert_eq!(
        refusal("(defn f [] -> unit (loop (if (do (break) true) (do) (do))))"),
        "internal: if cond"
    );
    let ops = steps("(defn f [] -> unit (loop (do (break) (let [x: unit (do)] (do)))))");
    assert!(ops.iter().any(|op| matches!(op, Op::Ret(None))));
}

fn entry() -> Entry {
    Entry { parent: String::new(), stem: Some("hello".to_string()) }
}

fn report(src: &str) -> String {
    let files: Files = Table::new();
    match compile("hello.rsp", src, &entry(), &files) {
        Err(Halt::Report(m)) => m,
        _ => panic!("expected a report"),
    }
}

#[test]
fn compiles_hello() {
    let files: Files = Table::new();
    let src = "(defn main [] -> i32 (do (println \"Hello, Risp!\") 0))";
    let m = match compile("hello.rsp", src, &entry(), &files) {
        Ok(m) => m,
        Err(_) => panic!("refused"),
    };
    assert_eq!(m.name, "hello");
    assert!(matches!(m.ops.last(), Some(Op::Ret(Some(Val::Int(Prim::I32, 0))))));
}

#[test]
fn compile_reports() {
    assert_eq!(
        report("(defn main [] -> i32 x)"),
        "error: undefined variable \"x\"\n --> hello.rsp:1:22\n  |\n1 | (defn main [] -> i32 x)\n  |                      ^\n"
    );
    assert_eq!(report("(defn main"), "error: unexpected end of input\n  --> hello.rsp\n");
    assert_eq!(report(""), "error: missing main function\n  --> hello.rsp\n");
    assert!(report("(defmacro m [] (m)) (defn main [] -> i32 (m))").contains("--> hello.rsp:1:"));
    assert!(report("(import hello)").starts_with("error: circular import: hello -> hello\n"));
    assert_eq!(
        report("(defn main [] -> i32 (let [u: unit (println 1)] 0))"),
        "error: internal: let value\n"
    );
    let files: Files = Table::new();
    assert!(matches!(
        compile("hello.rsp", "(import math)", &entry(), &files),
        Err(Halt::Need { dir, name }) if dir == "." && name == "math"
    ));
}

/// The slots that a script makes, in order.
fn slots(ops: &[Op]) -> Vec<usize> {
    (0..ops.len()).filter(|i| matches!(ops[*i], Op::EntryAlloca { .. })).collect()
}

#[test]
fn a_let_around_a_self_call_keeps_its_variables() {
    let ops = module("(defn f [n: i32] -> i32 (let [m: i32 (- n 1)] (if (= m 0) (f m) m)))").ops;
    let m = slots(&ops)[1];
    let load = ops.iter().rposition(|op| matches!(op, Op::Load { .. })).unwrap();
    assert!(matches!(&ops[load], Op::Load { ptr: Val::Reg(p), .. } if *p == m));
    assert!(matches!(&ops[ops.len() - 1], Op::Ret(Some(Val::Reg(v))) if *v == load));
}

#[test]
fn branches_in_tail_position_have_scopes_of_their_own() {
    let ops = module("(defn f [x: i32] -> i32 (if (< x 0) (let [x: i32 5] x) x))").ops;
    let x = slots(&ops)[0];
    let load = ops.iter().rposition(|op| matches!(op, Op::Load { .. })).unwrap();
    assert!(matches!(&ops[load], Op::Load { ptr: Val::Reg(p), .. } if *p == x));
}

#[test]
fn a_string_is_released_once_before_a_self_call() {
    let ops =
        module("(defn f [n: i32] -> i32 (let [s: str \"x\"] (if (= n 0) (f (- n 1)) n)))").ops;
    let s = slots(&ops)[1];
    let jump = ops.iter().rposition(|op| matches!(op, Op::Br(_))).unwrap();
    let emptied = ops.iter().position(
        |op| matches!(op, Op::Store { ptr: Val::Reg(p), val: Val::Null } if *p == s),
    );
    assert!(emptied.unwrap() < jump);
}

#[test]
fn an_array_variable_is_a_slot() {
    let src = "(defn f [c: bool] -> i32
        (let [a: (Array i32 1) (array i32 1), b: (Array i32 1) (array i32 2)]
          (do (if c (set! a b) (do)) (aget a 0))))";
    let ops = module(src).ops;
    let at: Vec<usize> = slots(&ops)
        .into_iter()
        .filter(|i| matches!(&ops[*i], Op::EntryAlloca { name, .. } if name == "a"))
        .collect();
    assert_eq!(at.len(), 1);
    assert!(matches!(ops[at[0]], Op::EntryAlloca { ty: LTy::One(Prim::Ptr), .. }));
    let stores = ops
        .iter()
        .filter(|op| matches!(op, Op::Store { ptr: Val::Reg(p), .. } if *p == at[0]))
        .count();
    assert_eq!(stores, 2);
    let last = ops.iter().rposition(|op| matches!(op, Op::ElemPtr { .. })).unwrap();
    let Op::ElemPtr { ptr: Val::Reg(v), .. } = &ops[last] else {
        panic!("expected a place in an array");
    };
    assert!(matches!(&ops[*v], Op::Load { ptr: Val::Reg(p), .. } if *p == at[0]));
}

#[test]
fn accepted_programs_are_lowered() {
    let src = "(struct P [x: i32, y: f64])
      (enum O None Some i32)
      (def k: i64 7i64)
      (trait Show (show [self] -> str))
      (impl Show for i32 (show [self] -> str \"i\"))
      (extern \"C\" abs [x: i32] -> i32)
      (defn pick [T] [a: T, b: T] -> T a)
      (defn f [n: i32] -> i32
        (let [a: (Array i32 3) (array i32 1 2 3), p: P (P 1 2.5), o: O (Some n)]
          (do
            (loop (if (> n 3) (break) (set! n (+ n 1))))
            (aset! a 0 (match o (None 0) (Some v (* v 2))))
            (println (str-concat (show n) \"b\"))
            (if (and (not (= n 2)) (< k (as i64 n)))
              (f (pick (aget (pick a a) 0) (field p x)))
              (+ (abs n) (alen a))))))";
    assert!(module(src).ops.len() > RUNTIME);
}
