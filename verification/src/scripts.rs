//! Laws of the code generator: what holds of every script that it builds.
use crate::ast::{
    BindingV, ExprKindV, ExprV, FieldDefV, ImplBlockV, LitV, MatchArmV, ParamV, ProgramV,
    TopLevelV, TypeV,
};
use crate::codegen::one;
use crate::driver;
use crate::grammar;
use crate::ir::{LTyV, OpV, Prim, ValV};
use crate::lowering::{CodegenErrorV, Gen, GenV, LocalV, RuntimeFnV, Shadowed, ValueUse};
use crate::lowering;
use crate::resolve::{EntryV, FilesV};
use crate::resolve;
use crate::text;
use crate::typing::{CkV, FnSigV, VariantInfoV};
use crate::typing;
use vstd::prelude::*;

verus! {

/// Whether a step makes a value.
pub open spec fn makes_value(op: OpV) -> bool {
    match op {
        OpV::EntryAlloca { .. } => true,
        OpV::Load { .. } => true,
        OpV::Call { .. } => true,
        OpV::Phi { .. } => true,
        OpV::Bin { .. } => true,
        OpV::Neg { .. } => true,
        OpV::Not { .. } => true,
        OpV::Convert { .. } => true,
        OpV::Test { .. } => true,
        OpV::Extract { .. } => true,
        OpV::Insert { .. } => true,
        OpV::FieldPtr { .. } => true,
        OpV::ElemPtr { .. } => true,
        OpV::GlobalText { .. } => true,
        OpV::Select { .. } => true,
        _ => false,
    }
}

/// Whether the first `n` steps make a value, or it needs none.
pub open spec fn value_made(ops: Seq<OpV>, n: int, v: ValV) -> bool {
    match v {
        ValV::Reg(k) => k < n && makes_value(ops[k as int]),
        _ => true,
    }
}

/// Whether `k` is a block that one of the first `n` steps makes.
pub open spec fn block_made(ops: Seq<OpV>, n: int, k: usize) -> bool {
    k < n && ops[k as int] is NewBlock
}

/// Whether `k` is a function that one of the first `n` steps adds.
pub open spec fn fn_made(ops: Seq<OpV>, n: int, k: usize) -> bool {
    k < n && ops[k as int] is AddFunction
}

/// Whether all that a step refers to is made by the first `n` steps, and is of the
/// right kind.
pub open spec fn refers_back(ops: Seq<OpV>, n: int, op: OpV) -> bool {
    match op {
        OpV::AddFunction { .. } => true,
        OpV::NewBlock { func, .. } => fn_made(ops, n, func),
        OpV::PositionAt(bb) => block_made(ops, n, bb),
        OpV::EntryAlloca { func, .. } => fn_made(ops, n, func),
        OpV::Load { ptr, .. } => value_made(ops, n, ptr),
        OpV::Store { ptr, val } => value_made(ops, n, ptr) && value_made(ops, n, val),
        OpV::Br(bb) => block_made(ops, n, bb),
        OpV::CondBr { cond, yes, no } => {
            &&& value_made(ops, n, cond)
            &&& block_made(ops, n, yes)
            &&& block_made(ops, n, no)
        },
        OpV::Switch { val, default, cases } => {
            &&& value_made(ops, n, val)
            &&& block_made(ops, n, default)
            &&& forall|i: int| 0 <= i < cases.len() ==> block_made(ops, n, (#[trigger] cases[i]).1)
        },
        OpV::Ret(v) => v is Some ==> value_made(ops, n, v->0),
        OpV::Unreachable => true,
        OpV::Call { func, args, .. } => {
            &&& fn_made(ops, n, func)
            &&& forall|i: int| 0 <= i < args.len() ==> value_made(ops, n, #[trigger] args[i])
        },
        OpV::Phi { incoming, .. } => forall|i: int|
            0 <= i < incoming.len() ==> value_made(ops, n, (#[trigger] incoming[i]).0)
                && block_made(ops, n, incoming[i].1),
        OpV::Bin { a, b, .. } => value_made(ops, n, a) && value_made(ops, n, b),
        OpV::Neg { val, .. } => value_made(ops, n, val),
        OpV::Not { val, .. } => value_made(ops, n, val),
        OpV::Convert { val, .. } => value_made(ops, n, val),
        OpV::Test { a, b, .. } => value_made(ops, n, a) && value_made(ops, n, b),
        OpV::Extract { agg, .. } => value_made(ops, n, agg),
        OpV::Insert { agg, val, .. } => value_made(ops, n, agg) && value_made(ops, n, val),
        OpV::FieldPtr { ptr, .. } => value_made(ops, n, ptr),
        OpV::ElemPtr { ptr, index, .. } => value_made(ops, n, ptr) && value_made(ops, n, index),
        OpV::GlobalText { .. } => true,
        OpV::Select { cond, a, b, .. } => {
            &&& value_made(ops, n, cond)
            &&& value_made(ops, n, a)
            &&& value_made(ops, n, b)
        },
    }
}

/// Whether every step of a script refers back only.
pub open spec fn script_in_order(ops: Seq<OpV>) -> bool {
    forall|i: int| 0 <= i < ops.len() ==> refers_back(ops, i, #[trigger] ops[i])
}

/// Whether the steps can be counted.
pub open spec fn countable(g: GenV) -> bool {
    g.ops.len() <= usize::MAX
}

#[verifier::opaque]
spec fn val_in(g: GenV, v: ValV) -> bool {
    value_made(g.ops, g.ops.len() as int, v)
}

#[verifier::opaque]
spec fn block_in(g: GenV, k: usize) -> bool {
    block_made(g.ops, g.ops.len() as int, k)
}

#[verifier::opaque]
spec fn fn_in(g: GenV, k: usize) -> bool {
    fn_made(g.ops, g.ops.len() as int, k)
}

/// The same for a list of values.
#[verifier::opaque]
spec fn vals_in(g: GenV, vs: Seq<ValV>) -> bool {
    forall|i: int| 0 <= i < vs.len() ==> val_in(g, #[trigger] vs[i])
}

/// The same for the cases of a switch.
#[verifier::opaque]
spec fn cases_in(g: GenV, cs: Seq<(u32, usize)>) -> bool {
    forall|i: int| 0 <= i < cs.len() ==> block_in(g, (#[trigger] cs[i]).1)
}

/// The same for what a value is chosen from.
#[verifier::opaque]
spec fn incoming_in(g: GenV, inc: Seq<(ValV, usize)>) -> bool {
    forall|i: int|
        0 <= i < inc.len() ==> val_in(g, (#[trigger] inc[i]).0) && block_in(g, inc[i].1)
}

/// The same for variables.
#[verifier::opaque]
spec fn locals_in(g: GenV, ls: Seq<LocalV>) -> bool {
    forall|i: int| 0 <= i < ls.len() ==> val_in(g, (#[trigger] ls[i]).ptr)
}

/// The same for what names stood for before.
#[verifier::opaque]
spec fn shadowed_in(g: GenV, prev: Seq<Shadowed>) -> bool {
    forall|i: int|
        0 <= i < prev.len() ==> ((#[trigger] prev[i]).1 is Some ==> val_in(g, prev[i].1->0.ptr))
}

/// The same for a step.
spec fn op_in(g: GenV, op: OpV) -> bool {
    match op {
        OpV::AddFunction { .. } => true,
        OpV::NewBlock { func, .. } => fn_in(g, func),
        OpV::PositionAt(bb) => block_in(g, bb),
        OpV::EntryAlloca { func, .. } => fn_in(g, func),
        OpV::Load { ptr, .. } => val_in(g, ptr),
        OpV::Store { ptr, val } => val_in(g, ptr) && val_in(g, val),
        OpV::Br(bb) => block_in(g, bb),
        OpV::CondBr { cond, yes, no } => val_in(g, cond) && block_in(g, yes) && block_in(g, no),
        OpV::Switch { val, default, cases } => {
            &&& val_in(g, val)
            &&& block_in(g, default)
            &&& cases_in(g, cases)
        },
        OpV::Ret(v) => v is Some ==> val_in(g, v->0),
        OpV::Unreachable => true,
        OpV::Call { func, args, .. } => fn_in(g, func) && vals_in(g, args),
        OpV::Phi { incoming, .. } => incoming_in(g, incoming),
        OpV::Bin { a, b, .. } => val_in(g, a) && val_in(g, b),
        OpV::Neg { val, .. } => val_in(g, val),
        OpV::Not { val, .. } => val_in(g, val),
        OpV::Convert { val, .. } => val_in(g, val),
        OpV::Test { a, b, .. } => val_in(g, a) && val_in(g, b),
        OpV::Extract { agg, .. } => val_in(g, agg),
        OpV::Insert { agg, val, .. } => val_in(g, agg) && val_in(g, val),
        OpV::FieldPtr { ptr, .. } => val_in(g, ptr),
        OpV::ElemPtr { ptr, index, .. } => val_in(g, ptr) && val_in(g, index),
        OpV::GlobalText { .. } => true,
        OpV::Select { cond, a, b, .. } => val_in(g, cond) && val_in(g, a) && val_in(g, b),
    }
}

/// Whether all that a generator holds has been made.
#[verifier::opaque]
spec fn sound(g: GenV) -> bool {
    &&& script_in_order(g.ops)
    &&& forall|n: Seq<char>| #[trigger] g.fns.contains_key(n) ==> fn_in(g, g.fns[n])
    &&& forall|n: Seq<char>| #[trigger] g.consts.contains_key(n) ==> val_in(g, g.consts[n].1)
    &&& locals_in(g, g.locals)
    &&& locals_in(g, g.param_locals)
    &&& g.loop_header is Some ==> block_in(g, g.loop_header->0)
    &&& forall|i: int| 0 <= i < g.loop_exits.len() ==> block_in(g, #[trigger] g.loop_exits[i])
}

/// The same while a function is built.
spec fn inside(g: GenV) -> bool {
    sound(g) && fn_in(g, g.func) && block_in(g, g.block)
}

/// Whether `h` comes out of `g` by more steps.
#[verifier::opaque]
pub open spec fn extends(g: GenV, h: GenV) -> bool {
    g.ops.is_prefix_of(h.ops)
}

/// What lowering an expression does not change.
pub open spec fn same_context(g: GenV, h: GenV) -> bool {
    h == (GenV {
        ops: h.ops,
        locals: h.locals,
        str_count: h.str_count,
        block: h.block,
        ended: h.ended,
        ..g
    })
}

spec fn grows(g: GenV, h: GenV) -> bool {
    extends(g, h) && same_context(g, h)
}

broadcast proof fn lemma_extends_trans(a: GenV, b: GenV, c: GenV)
    requires
        #[trigger] extends(a, b),
        #[trigger] extends(b, c),
    ensures
        extends(a, c),
{
    reveal(extends);
    assert(a.ops =~= c.ops.subrange(0, a.ops.len() as int));
}

broadcast proof fn lemma_extends_countable(a: GenV, b: GenV)
    requires
        #[trigger] extends(a, b),
        countable(b),
    ensures
        countable(a),
{
    reveal(extends);
}

proof fn lemma_extends_self(g: GenV)
    ensures
        extends(g, g),
{
    reveal(extends);
}

broadcast proof fn lemma_val_stays(a: GenV, b: GenV, v: ValV)
    requires
        #[trigger] extends(a, b),
        #[trigger] val_in(a, v),
    ensures
        val_in(b, v),
{
    reveal(extends);
    reveal(val_in);
}

broadcast proof fn lemma_block_stays(a: GenV, b: GenV, k: usize)
    requires
        #[trigger] extends(a, b),
        #[trigger] block_in(a, k),
    ensures
        block_in(b, k),
{
    reveal(extends);
    reveal(block_in);
}

broadcast proof fn lemma_fn_stays(a: GenV, b: GenV, k: usize)
    requires
        #[trigger] extends(a, b),
        #[trigger] fn_in(a, k),
    ensures
        fn_in(b, k),
{
    reveal(extends);
    reveal(fn_in);
}

broadcast proof fn lemma_vals_stay(a: GenV, b: GenV, vs: Seq<ValV>)
    requires
        #[trigger] extends(a, b),
        #[trigger] vals_in(a, vs),
    ensures
        vals_in(b, vs),
{
    broadcast use lemma_val_stays;

    reveal(vals_in);
}

broadcast proof fn lemma_cases_stay(a: GenV, b: GenV, cs: Seq<(u32, usize)>)
    requires
        #[trigger] extends(a, b),
        #[trigger] cases_in(a, cs),
    ensures
        cases_in(b, cs),
{
    broadcast use lemma_block_stays;

    reveal(cases_in);
}

broadcast proof fn lemma_incoming_stays(a: GenV, b: GenV, inc: Seq<(ValV, usize)>)
    requires
        #[trigger] extends(a, b),
        #[trigger] incoming_in(a, inc),
    ensures
        incoming_in(b, inc),
{
    broadcast use lemma_val_stays, lemma_block_stays;

    reveal(incoming_in);
}

broadcast proof fn lemma_locals_stay(a: GenV, b: GenV, ls: Seq<LocalV>)
    requires
        #[trigger] extends(a, b),
        #[trigger] locals_in(a, ls),
    ensures
        locals_in(b, ls),
{
    broadcast use lemma_val_stays;

    reveal(locals_in);
}

broadcast proof fn lemma_shadowed_stays(a: GenV, b: GenV, prev: Seq<Shadowed>)
    requires
        #[trigger] extends(a, b),
        #[trigger] shadowed_in(a, prev),
    ensures
        shadowed_in(b, prev),
{
    broadcast use lemma_val_stays;

    reveal(shadowed_in);
}

/// Steps before a place do not change when more steps follow.
proof fn lemma_refers_back_stays(ops: Seq<OpV>, more: Seq<OpV>, n: int, op: OpV)
    requires
        0 <= n <= ops.len(),
        ops.is_prefix_of(more),
        refers_back(ops, n, op),
    ensures
        refers_back(more, n, op),
{
    assert(forall|k: int| 0 <= k < n ==> #[trigger] ops[k] == more[k]);
}

/// A step whose parts have been made refers back.
proof fn lemma_op_refers_back(g: GenV, op: OpV)
    requires
        op_in(g, op),
    ensures
        refers_back(g.ops, g.ops.len() as int, op),
{
    reveal(val_in);
    reveal(block_in);
    reveal(fn_in);
    reveal(vals_in);
    reveal(cases_in);
    reveal(incoming_in);
}

/// What one more step does.
broadcast proof fn lemma_step(g: GenV, op: OpV)
    ensures
        extends(g, #[trigger] lowering::step(g, op)),
        same_context(g, lowering::step(g, op)),
        sound(g) && op_in(g, op) ==> sound(lowering::step(g, op)),
        inside(g) && op_in(g, op) ==> inside(lowering::step(g, op)),
        countable(lowering::step(g, op)) && makes_value(op) ==> val_in(lowering::step(g, op), lowering::made(g)),
        countable(lowering::step(g, op)) && op is NewBlock ==> block_in(lowering::step(g, op), lowering::next(g)),
        countable(lowering::step(g, op)) && op is AddFunction ==> fn_in(lowering::step(g, op), lowering::next(g)),
{
    broadcast use
        lemma_val_stays,
        lemma_block_stays,
        lemma_fn_stays,
        lemma_locals_stay,
    ;

    let h = lowering::step(g, op);
    assert(extends(g, h)) by {
        reveal(extends);
        assert(g.ops =~= h.ops.subrange(0, g.ops.len() as int));
    }
    assert(h.ops[g.ops.len() as int] == op);
    if sound(g) && op_in(g, op) {
        reveal(sound);
        assert forall|i: int| 0 <= i < h.ops.len() implies refers_back(h.ops, i, #[trigger] h.ops[i])
            by {
            reveal(extends);
            if i < g.ops.len() {
                assert(h.ops[i] == g.ops[i]);
                lemma_refers_back_stays(g.ops, h.ops, i, g.ops[i]);
            } else {
                lemma_op_refers_back(g, op);
                lemma_refers_back_stays(g.ops, h.ops, i, op);
            }
        }
    }
    reveal(val_in);
    reveal(block_in);
    reveal(fn_in);
}

/// What going on in a block does.
broadcast proof fn lemma_go(g: GenV, bb: usize)
    ensures
        extends(g, #[trigger] lowering::go(g, bb)),
        same_context(g, lowering::go(g, bb)),
        inside(g) && block_in(g, bb) ==> inside(lowering::go(g, bb)),
        sound(g) && fn_in(g, g.func) && block_in(g, bb) ==> inside(lowering::go(g, bb)),
{
    broadcast use
        lemma_extends_trans,
        lemma_block_stays,
        lemma_fn_stays,
        lemma_step,
    ;

    let s = lowering::step(g, OpV::PositionAt(bb));
    let h = lowering::go(g, bb);
    assert(extends(s, h)) by {
        reveal(extends);
    }
    if sound(g) && block_in(g, bb) {
        lemma_sound_fields(s, h);
    }
}

/// Soundness does not depend on where the generator is.
proof fn lemma_sound_fields(g: GenV, h: GenV)
    requires
        sound(g),
        h == (GenV {
            str_count: h.str_count,
            block: h.block,
            ended: h.ended,
            func: h.func,
            name: h.name,
            fn_types: h.fn_types,
            current_fn: h.current_fn,
            param_names: h.param_names,
            structs: h.structs,
            enums: h.enums,
            variants: h.variants,
            externs: h.externs,
            ..g
        }),
    ensures
        sound(h),
        extends(g, h),
{
    broadcast use lemma_val_stays, lemma_block_stays, lemma_fn_stays, lemma_locals_stay;

    assert(extends(g, h)) by {
        reveal(extends);
    }
    reveal(sound);
}

/// What a change of the variables does.
proof fn lemma_set_locals(g: GenV, ls: Seq<LocalV>)
    ensures
        extends(g, (GenV { locals: ls, ..g })),
        same_context(g, (GenV { locals: ls, ..g })),
        inside(g) && locals_in(g, ls) ==> inside((GenV { locals: ls, ..g })),
{
    broadcast use lemma_val_stays, lemma_block_stays, lemma_fn_stays, lemma_locals_stay;

    let h = GenV { locals: ls, ..g };
    assert(extends(g, h)) by {
        reveal(extends);
    }
    if inside(g) && locals_in(g, ls) {
        reveal(sound);
    }
}

broadcast group group_script {
    lemma_extends_trans,
    lemma_extends_countable,
    lemma_val_stays,
    lemma_block_stays,
    lemma_fn_stays,
    lemma_vals_stay,
    lemma_cases_stay,
    lemma_incoming_stays,
    lemma_locals_stay,
    lemma_shadowed_stays,
    lemma_step,
    lemma_go,
}

/// Constants need not be made.
proof fn lemma_plain_values(g: GenV)
    ensures
        forall|p: Prim, n: i64| #[trigger] val_in(g, ValV::Int(p, n)),
        forall|p: Prim, s: Seq<char>| #[trigger] val_in(g, ValV::Float(p, s)),
        forall|t: LTyV| #[trigger] val_in(g, ValV::Undef(t)),
        forall|i: u32| #[trigger] val_in(g, ValV::Arg(i)),
        val_in(g, ValV::Null),
{
    reveal(val_in);
}

proof fn lemma_vals_push(g: GenV, vs: Seq<ValV>, v: ValV)
    requires
        vals_in(g, vs),
        val_in(g, v),
    ensures
        vals_in(g, vs.push(v)),
{
    reveal(vals_in);
}

proof fn lemma_vals_one(g: GenV, v: ValV)
    requires
        val_in(g, v),
    ensures
        vals_in(g, seq![v]),
{
    reveal(vals_in);
}

proof fn lemma_vals_two(g: GenV, a: ValV, b: ValV)
    requires
        val_in(g, a),
        val_in(g, b),
    ensures
        vals_in(g, seq![a, b]),
{
    reveal(vals_in);
}

proof fn lemma_incoming_push(g: GenV, inc: Seq<(ValV, usize)>, v: ValV, bb: usize)
    requires
        incoming_in(g, inc),
        val_in(g, v),
        block_in(g, bb),
    ensures
        incoming_in(g, inc.push((v, bb))),
{
    reveal(incoming_in);
}

proof fn lemma_nothing(g: GenV)
    ensures
        vals_in(g, Seq::empty()),
        incoming_in(g, Seq::empty()),
        cases_in(g, Seq::empty()),
        locals_in(g, Seq::empty()),
        shadowed_in(g, Seq::empty()),
{
    reveal(vals_in);
    reveal(incoming_in);
    reveal(cases_in);
    reveal(locals_in);
    reveal(shadowed_in);
}

proof fn lemma_local_at(ls: Seq<LocalV>, name: Seq<char>, i: int)
    requires
        0 <= i,
    ensures
        lowering::local_at(ls, name, i) matches Some(j) ==> 0 <= j < ls.len(),
    decreases ls.len() - i,
{
    if i < ls.len() && ls[i].name != name {
        lemma_local_at(ls, name, i + 1);
    }
}

/// A variable that is found has been made.
proof fn lemma_find(g: GenV, ls: Seq<LocalV>, name: Seq<char>)
    requires
        locals_in(g, ls),
    ensures
        lowering::find_local(ls, name) matches Some(l) ==> val_in(g, l.ptr),
{
    reveal(locals_in);
    lemma_local_at(ls, name, 0);
}

proof fn lemma_with_local(g: GenV, ls: Seq<LocalV>, l: LocalV)
    requires
        locals_in(g, ls),
        val_in(g, l.ptr),
    ensures
        locals_in(g, lowering::with_local(ls, l)),
{
    reveal(locals_in);
    lemma_local_at(ls, l.name, 0);
    let r = lowering::with_local(ls, l);
    assert forall|i: int| 0 <= i < r.len() implies val_in(g, (#[trigger] r[i]).ptr) by {
        match lowering::local_at(ls, l.name, 0) {
            Some(j) => {
                if i != j {
                    assert(r[i] == ls[i]);
                }
            },
            None => {
                if i < ls.len() {
                    assert(r[i] == ls[i]);
                }
            },
        }
    }
}

proof fn lemma_restored(g: GenV, ls: Seq<LocalV>, s: Shadowed)
    requires
        locals_in(g, ls),
        s.1 is Some ==> val_in(g, s.1->0.ptr),
    ensures
        locals_in(g, lowering::restored(ls, s)),
{
    match s.1 {
        Some(l) => lemma_with_local(g, ls, l),
        None => {
            reveal(locals_in);
            lemma_local_at(ls, s.0, 0);
            let r = lowering::without_local(ls, s.0);
            assert forall|i: int| 0 <= i < r.len() implies val_in(g, (#[trigger] r[i]).ptr) by {
                if let Some(j) = lowering::local_at(ls, s.0, 0) {
                    if i < j {
                        assert(r[i] == ls[i]);
                    } else {
                        assert(r[i] == ls[i + 1]);
                    }
                }
            }
        },
    }
}

proof fn lemma_restored_all(g: GenV, ls: Seq<LocalV>, prev: Seq<Shadowed>, n: int)
    requires
        locals_in(g, ls),
        shadowed_in(g, prev),
    ensures
        locals_in(g, lowering::restored_all(ls, prev, n)),
    decreases n,
{
    if 0 < n <= prev.len() {
        assert(prev[n - 1].1 is Some ==> val_in(g, prev[n - 1].1->0.ptr)) by {
            reveal(shadowed_in);
        }
        lemma_restored(g, ls, prev[n - 1]);
        lemma_restored_all(g, lowering::restored(ls, prev[n - 1]), prev, n - 1);
    }
}

/// What is known inside a function.
proof fn lemma_inside(g: GenV)
    requires
        inside(g),
    ensures
        locals_in(g, g.locals),
        locals_in(g, g.param_locals),
        fn_in(g, g.func),
        block_in(g, g.block),
        g.loop_header is Some ==> block_in(g, g.loop_header->0),
        g.loop_exits.len() > 0 ==> block_in(g, g.loop_exits.last()),
{
    reveal(sound);
}

proof fn lemma_known_fn(g: GenV, n: Seq<char>)
    requires
        sound(g),
        g.fns.contains_key(n),
    ensures
        fn_in(g, g.fns[n]),
{
    reveal(sound);
}

proof fn lemma_known_const(g: GenV, n: Seq<char>)
    requires
        sound(g),
        g.consts.contains_key(n),
    ensures
        val_in(g, g.consts[n].1),
{
    reveal(sound);
}

/// What a rule without a value keeps.
spec fn ok_unit(g: GenV, c: Gen<()>) -> bool {
    c.r is Ok ==> grows(g, c.g) && (countable(c.g) && inside(g) ==> inside(c.g))
}

/// What a rule with a value keeps.
spec fn ok_val(g: GenV, c: Gen<ValV>) -> bool {
    c.r is Ok ==> grows(g, c.g) && (countable(c.g) && inside(g) ==> inside(c.g) && val_in(
        c.g,
        c.r->Ok_0,
    ))
}

/// What a rule that may have a value keeps.
spec fn ok_opt(g: GenV, c: Gen<Option<ValV>>) -> bool {
    c.r is Ok ==> grows(g, c.g) && (countable(c.g) && inside(g) ==> inside(c.g) && (c.r->Ok_0 is Some
        ==> val_in(c.g, c.r->Ok_0->0)))
}

proof fn lemma_lower_slot(g: GenV, name: Seq<char>, ty: TypeV)
    ensures
        ok_val(g, lowering::lower_slot(g, name, ty)),
{
    broadcast use group_script;

}

proof fn lemma_lower_rt(g: GenV, fname: Seq<char>, args: Seq<ValV>, name: Seq<char>)
    ensures
        ({
            let c = lowering::lower_rt(g, fname, args, name);
            c.r is Ok ==> grows(g, c.g) && (countable(c.g) && inside(g) && vals_in(g, args)
                ==> inside(c.g) && val_in(c.g, c.r->Ok_0))
        }),
{
    broadcast use group_script;

    if inside(g) && g.fns.contains_key(fname) {
        lemma_known_fn(g, fname);
    }
}

proof fn lemma_lower_drop(g: GenV, v: ValV, ty: TypeV)
    ensures
        ({
            let c = lowering::lower_drop(g, v, ty);
            c.r is Ok ==> grows(g, c.g) && (countable(c.g) && inside(g) && val_in(g, v) ==> inside(
                c.g,
            ))
        }),
{
    lemma_extends_self(g);
    lemma_lower_rt(g, "risp_str_release"@, seq![v], "risp_str_release"@);
    if val_in(g, v) {
        lemma_vals_one(g, v);
    }
}

proof fn lemma_lower_retain(g: GenV, v: ValV, ty: TypeV)
    ensures
        ({
            let c = lowering::lower_retain(g, v, ty);
            c.r is Ok ==> grows(g, c.g) && (countable(c.g) && inside(g) && val_in(g, v) ==> inside(
                c.g,
            ) && val_in(c.g, c.r->Ok_0))
        }),
{
    lemma_extends_self(g);
    lemma_lower_rt(g, "risp_str_retain"@, seq![v], "risp_str_retain"@);
    if val_in(g, v) {
        lemma_vals_one(g, v);
    }
}

proof fn lemma_lower_load(g: GenV, ptr: ValV, ty: TypeV, name: Seq<char>)
    ensures
        ({
            let c = lowering::lower_load(g, ptr, ty, name);
            c.r is Ok ==> grows(g, c.g) && (countable(c.g) && inside(g) && val_in(g, ptr) ==> inside(
                c.g,
            ) && val_in(c.g, c.r->Ok_0))
        }),
{
    broadcast use group_script;

}

proof fn lemma_lower_release(g: GenV, ptr: ValV, ty: TypeV, name: Seq<char>)
    ensures
        ({
            let c = lowering::lower_release(g, ptr, ty, name);
            c.r is Ok ==> grows(g, c.g) && (countable(c.g) && inside(g) && val_in(g, ptr) ==> inside(
                c.g,
            ))
        }),
{
    broadcast use group_script;

    let c = lowering::lower_load(g, ptr, ty, name);
    lemma_lower_load(g, ptr, ty, name);
    if c.r is Ok {
        lemma_lower_drop(c.g, c.r->Ok_0, ty);
    }
}

proof fn lemma_lower_store(g: GenV, ptr: ValV, v: ValV, ty: TypeV)
    ensures
        ({
            let c = lowering::lower_store(g, ptr, v, ty);
            c.r is Ok ==> grows(g, c.g) && (countable(c.g) && inside(g) && val_in(g, ptr) && val_in(
                g,
                v,
            ) ==> inside(c.g))
        }),
{
    broadcast use group_script;

    lemma_lower_release(g, ptr, ty, "old.owned"@);
}

proof fn lemma_lower_load_owned(g: GenV, ptr: ValV, ty: TypeV, mode: ValueUse)
    ensures
        ({
            let c = lowering::lower_load_owned(g, ptr, ty, mode);
            c.r is Ok ==> grows(g, c.g) && (countable(c.g) && inside(g) && val_in(g, ptr) ==> inside(
                c.g,
            ) && val_in(c.g, c.r->Ok_0))
        }),
{
    broadcast use group_script;

    let c = lowering::lower_load(g, ptr, ty, "load.owned"@);
    lemma_lower_load(g, ptr, ty, "load.owned"@);
    if c.r is Ok {
        lemma_lower_retain(c.g, c.r->Ok_0, ty);
    }
}

proof fn lemma_lower_release_locals(
    g: GenV,
    ls: Seq<LocalV>,
    i: int,
    kept: Seq<LocalV>,
    name: Seq<char>,
    again: bool,
)
    ensures
        ({
            let c = lowering::lower_release_locals(g, ls, i, kept, name, again);
            c.r is Ok ==> grows(g, c.g) && (countable(c.g) && inside(g) && locals_in(g, ls)
                ==> inside(c.g))
        }),
    decreases ls.len() - i,
{
    broadcast use group_script;

    lemma_extends_self(g);
    if 0 <= i < ls.len() {
        if locals_in(g, ls) {
            assert(val_in(g, ls[i].ptr)) by {
                reveal(locals_in);
            }
        }
        let c = lowering::lower_release(g, ls[i].ptr, ls[i].ty, name);
        lemma_lower_release(g, ls[i].ptr, ls[i].ty, name);
        lemma_plain_values(c.g);
        let empty = lowering::step(c.g, OpV::Store { ptr: ls[i].ptr, val: ValV::Null });
        lemma_lower_release_locals(if again { empty } else { c.g }, ls, i + 1, kept, name, again);
        lemma_lower_release_locals(g, ls, i + 1, kept, name, again);
    }
}

proof fn lemma_lower_text(g: GenV, s: Seq<char>)
    ensures
        ({
            let h = lowering::lower_text(g, s);
            grows(g, h) && (sound(g) ==> sound(h)) && (inside(g) ==> inside(h)) && (countable(h)
                ==> val_in(h, lowering::made(g)))
        }),
{
    broadcast use group_script;

    let op = OpV::GlobalText { text: s, name: ".str"@ + text::dec(g.str_count as nat) };
    let m = lowering::step(g, op);
    let h = lowering::lower_text(g, s);
    assert(extends(m, h)) by {
        reveal(extends);
    }
    if sound(m) {
        lemma_sound_fields(m, h);
    }
}

proof fn lemma_lower_lit(g: GenV, l: LitV, ty: TypeV)
    ensures
        ({
            let (h, v) = lowering::lower_lit(g, l, ty);
            grows(g, h) && (sound(g) ==> sound(h)) && (inside(g) ==> inside(h)) && (countable(h)
                ==> val_in(h, v))
        }),
{
    lemma_extends_self(g);
    lemma_plain_values(g);
    if let LitV::Str(s) = l {
        lemma_lower_text(g, s);
    }
}

proof fn lemma_lower_var(g: GenV, name: Seq<char>, mode: ValueUse)
    ensures
        ok_val(g, lowering::lower_var(g, name, mode)),
{
    broadcast use group_script;

    lemma_extends_self(g);
    if inside(g) {
        lemma_inside(g);
        lemma_find(g, g.locals, name);
    }
    match lowering::find_local(g.locals, name) {
        Some(l) => {
            lemma_lower_load_owned(g, l.ptr, l.ty, mode);
            lemma_lower_load(g, l.ptr, l.ty, name);
        },
        None => {
            if g.consts.contains_key(name) {
                let v = g.consts[name].1;
                lemma_lower_rt(g, "risp_str_from_cstr"@, seq![v], "risp_str_from_cstr"@);
                if inside(g) {
                    lemma_known_const(g, name);
                    lemma_vals_one(g, v);
                }
            }
        },
    }
}

proof fn lemma_lower_value(e: ExprV, g: GenV, msg: Seq<char>)
    ensures
        ok_val(g, lowering::lower_value(e, g, msg)),
    decreases e, 10int,
{
    lemma_lower_expr(e, ValueUse::Move, g);
}

proof fn lemma_lower_expr(e: ExprV, mode: ValueUse, g: GenV)
    ensures
        ok_opt(g, lowering::lower(e, mode, g)),
    decreases e, 9int,
{
    if let Some(ty) = e.ty {
        lemma_lower_form(e.kind, ty, mode, g);
    }
}

proof fn lemma_lower_form(k: ExprKindV, ty: TypeV, mode: ValueUse, g: GenV)
    ensures
        ok_opt(g, lowering::lower_form(k, ty, mode, g)),
    decreases k, 8int,
{
    broadcast use group_script;

    match k {
        ExprKindV::Lit(l) => {
            let (g1, v) = lowering::lower_lit(g, l, ty);
            lemma_lower_lit(g, l, ty);
            lemma_lower_rt(g1, "risp_str_from_cstr"@, seq![v], "risp_str_from_cstr"@);
            if val_in(g1, v) {
                lemma_vals_one(g1, v);
            }
        },
        ExprKindV::Var(name) => lemma_lower_var(g, name, mode),
        ExprKindV::If { .. } => lemma_lower_if(k, ty, g),
        ExprKindV::Let { .. } => lemma_lower_let(k, g),
        ExprKindV::Do(es) => lemma_lower_do(es, 0, None, g),
        ExprKindV::Cast { .. } => lemma_lower_cast_form(k, g),
        ExprKindV::Assign { .. } => lemma_lower_assign(k, g),
        ExprKindV::While { .. } => lemma_lower_while(k, g),
        ExprKindV::Loop { .. } => lemma_lower_loop(k, g),
        ExprKindV::Break => {
            if inside(g) {
                lemma_inside(g);
            }
        },
        ExprKindV::ArrayLit { elem_ty, elems } => lemma_lower_array(elem_ty, elems, g),
        ExprKindV::Field { .. } => lemma_lower_field(k, g),
        ExprKindV::Match { .. } => lemma_lower_match(k, ty, g),
        ExprKindV::Call { callee, args } => lemma_lower_call(callee, args, ty, g),
    }
}

#[verifier::rlimit(60)]
proof fn lemma_lower_if(k: ExprKindV, ty: TypeV, g: GenV)
    requires
        k is If,
    ensures
        ok_opt(g, lowering::lower_if(k, ty, g)),
    decreases k, 7int,
{
    broadcast use group_script;

    if let ExprKindV::If { cond, then_branch, else_branch } = k {
        let c = lowering::lower_value(*cond, g, "if cond"@);
        lemma_lower_value(*cond, g, "if cond"@);
        if c.r is Ok {
            let cv = c.r->Ok_0;
            let then_bb = lowering::next(c.g);
            let g1 = lowering::block(c.g, "then"@);
            let else_bb = lowering::next(g1);
            let g2 = lowering::block(g1, "else"@);
            let merge_bb = lowering::next(g2);
            let g3 = lowering::block(g2, "ifcont"@);
            let g4 = lowering::go(lowering::step(g3, OpV::CondBr { cond: cv, yes: then_bb, no: else_bb }), then_bb);
            let t = lowering::lower(*then_branch, ValueUse::Move, g4);
            lemma_lower_expr(*then_branch, ValueUse::Move, g4);
            if t.r is Ok {
                let g5 = if !t.g.ended {
                    lowering::step(t.g, OpV::Br(merge_bb))
                } else {
                    t.g
                };
                let f = lowering::lower(*else_branch, ValueUse::Move, lowering::go(g5, else_bb));
                lemma_lower_expr(*else_branch, ValueUse::Move, lowering::go(g5, else_bb));
                if f.r is Ok {
                    let g6 = if !f.g.ended {
                        lowering::step(f.g, OpV::Br(merge_bb))
                    } else {
                        f.g
                    };
                    let g7 = lowering::go(g6, merge_bb);
                    lemma_extends_self(t.g);
                    lemma_extends_self(f.g);
                    if countable(g7) && inside(g) {
                        lemma_inside(t.g);
                        lemma_inside(f.g);
                        lemma_nothing(g7);
                        if !t.g.ended && t.r->Ok_0 is Some {
                            lemma_incoming_push(g7, Seq::empty(), t.r->Ok_0->0, t.g.block);
                            assert(Seq::empty().push((t.r->Ok_0->0, t.g.block)) =~= seq![
                                (t.r->Ok_0->0, t.g.block),
                            ]);
                        }
                        if !f.g.ended && f.r->Ok_0 is Some {
                            let one = if !t.g.ended {
                                seq![(t.r->Ok_0->0, t.g.block)]
                            } else {
                                Seq::empty()
                            };
                            if t.g.ended || t.r->Ok_0 is Some {
                                lemma_incoming_push(g7, one, f.r->Ok_0->0, f.g.block);
                            }
                        }
                    }
                }
            }
        }
    }
}

proof fn lemma_lower_binding(b: BindingV, g: GenV)
    ensures
        ({
            let c = lowering::lower_binding(b, g);
            c.r is Ok ==> grows(g, c.g) && (countable(c.g) && inside(g) ==> inside(c.g) && (
            c.r->Ok_0.1 is Some ==> val_in(c.g, c.r->Ok_0.1->0.ptr)))
        }),
    decreases b, 11int,
{
    broadcast use group_script;

    let c = lowering::lower_value(b.value, g, "let value"@);
    lemma_lower_value(b.value, g, "let value"@);
    if c.r is Ok {
        let v = c.r->Ok_0;
        let s = lowering::lower_slot(c.g, b.name, b.ty);
        lemma_lower_slot(c.g, b.name, b.ty);
        if s.r is Ok {
            let slot = s.r->Ok_0;
            let d = lowering::lower_store(s.g, slot, v, b.ty);
            lemma_lower_store(s.g, slot, v, b.ty);
            if d.r is Ok {
                let l = LocalV { name: b.name, ptr: slot, ty: b.ty };
                lemma_set_locals(d.g, lowering::with_local(d.g.locals, l));
                if countable(d.g) && inside(g) {
                    lemma_inside(d.g);
                    lemma_with_local(d.g, d.g.locals, l);
                    lemma_find(d.g, d.g.locals, b.name);
                }
                lemma_same_ops(d.g, lowering::with_local(d.g.locals, l));
            }
        }
    }
}

/// A change of the variables adds no steps.
proof fn lemma_same_ops(g: GenV, ls: Seq<LocalV>)
    ensures
        countable(g) == countable((GenV { locals: ls, ..g })),
{
}

proof fn lemma_lower_bindings(bs: Seq<BindingV>, i: int, prev: Seq<Shadowed>, g: GenV)
    ensures
        ({
            let c = lowering::lower_bindings(bs, i, prev, g);
            c.r is Ok ==> grows(g, c.g) && (countable(c.g) && inside(g) && shadowed_in(g, prev)
                ==> inside(c.g) && shadowed_in(c.g, c.r->Ok_0))
        }),
    decreases bs, bs.len() - i,
{
    broadcast use group_script;

    lemma_extends_self(g);
    if 0 <= i < bs.len() {
        let c = lowering::lower_binding(bs[i], g);
        lemma_lower_binding(bs[i], g);
        if c.r is Ok {
            lemma_lower_bindings(bs, i + 1, prev.push(c.r->Ok_0), c.g);
            if countable(c.g) && inside(g) && shadowed_in(g, prev) {
                assert(shadowed_in(c.g, prev));
                assert(shadowed_in(c.g, prev.push(c.r->Ok_0))) by {
                    reveal(shadowed_in);
                }
            }
        }
    }
}

proof fn lemma_lower_let_end(bs: Seq<BindingV>, n: int, g: GenV)
    ensures
        ok_unit(g, lowering::lower_let_end(bs, n, g)),
    decreases n,
{
    broadcast use group_script;

    lemma_extends_self(g);
    if 0 < n <= bs.len() {
        let b = bs[n - 1];
        if inside(g) {
            lemma_inside(g);
            lemma_find(g, g.locals, b.name);
        }
        if let Some(l) = lowering::find_local(g.locals, b.name) {
            let c = lowering::lower_release(g, l.ptr, b.ty, "letscope.drop"@);
            lemma_lower_release(g, l.ptr, b.ty, "letscope.drop"@);
            lemma_plain_values(c.g);
            lemma_lower_let_end(bs, n - 1, lowering::step(c.g, OpV::Store { ptr: l.ptr, val: ValV::Null }));
        }
        lemma_lower_let_end(bs, n - 1, g);
    }
}

#[verifier::rlimit(20)]
proof fn lemma_lower_let(k: ExprKindV, g: GenV)
    requires
        k is Let,
    ensures
        ok_opt(g, lowering::lower_let(k, g)),
    decreases k, 7int,
{
    broadcast use group_script;

    if let ExprKindV::Let { bindings, body } = k {
        let c = lowering::lower_bindings(bindings, 0, Seq::empty(), g);
        lemma_lower_bindings(bindings, 0, Seq::empty(), g);
        lemma_nothing(g);
        if c.r is Ok {
            let prev = c.r->Ok_0;
            let b = lowering::lower(*body, ValueUse::Move, c.g);
            lemma_lower_expr(*body, ValueUse::Move, c.g);
            if b.r is Ok {
                let d = if b.g.ended {
                    lowering::done(b.g, ())
                } else {
                    lowering::lower_let_end(bindings, bindings.len() as int, b.g)
                };
                lemma_lower_let_end(bindings, bindings.len() as int, b.g);
                lemma_extends_self(b.g);
                if d.r is Ok {
                    let ls = lowering::restored_all(d.g.locals, prev, prev.len() as int);
                    lemma_set_locals(d.g, ls);
                    lemma_same_ops(d.g, ls);
                    if countable(d.g) && inside(g) {
                        lemma_inside(d.g);
                        lemma_restored_all(d.g, d.g.locals, prev, prev.len() as int);
                    }
                }
            }
        }
    }
}

proof fn lemma_lower_unused(g: GenV, e: ExprV, v: Option<ValV>)
    ensures
        ({
            let c = lowering::lower_unused(g, e, v);
            c.r is Ok ==> grows(g, c.g) && (countable(c.g) && inside(g) && (v is Some ==> val_in(
                g,
                v->0,
            )) ==> inside(c.g))
        }),
{
    lemma_extends_self(g);
    if let (Some(ty), Some(x)) = (e.ty, v) {
        lemma_lower_drop(g, x, ty);
    }
}

proof fn lemma_lower_do(es: Seq<ExprV>, i: int, last: Option<ValV>, g: GenV)
    requires
        last is None,
    ensures
        ok_opt(g, lowering::lower_do(es, i, last, g)),
    decreases es, es.len() - i,
{
    broadcast use group_script;

    lemma_extends_self(g);
    if 0 <= i < es.len() && !g.ended {
        let c = lowering::lower(es[i], ValueUse::Move, g);
        lemma_lower_expr(es[i], ValueUse::Move, g);
        if c.r is Ok && i != es.len() - 1 {
            let d = lowering::lower_unused(c.g, es[i], c.r->Ok_0);
            lemma_lower_unused(c.g, es[i], c.r->Ok_0);
            lemma_lower_do(es, i + 1, last, d.g);
        }
    }
}

proof fn lemma_lower_cast_form(k: ExprKindV, g: GenV)
    requires
        k is Cast,
    ensures
        ok_val(g, lowering::lower_cast_form(k, g)),
    decreases k, 7int,
{
    broadcast use group_script;

    if let ExprKindV::Cast { ty, expr } = k {
        lemma_lower_value(*expr, g, "cast expr"@);
    }
}

proof fn lemma_lower_assign(k: ExprKindV, g: GenV)
    requires
        k is Assign,
    ensures
        ok_opt(g, lowering::lower_assign(k, g)),
    decreases k, 7int,
{
    broadcast use group_script;

    if let ExprKindV::Assign { name, value } = k {
        let c = lowering::lower_value(*value, g, "set! value"@);
        lemma_lower_value(*value, g, "set! value"@);
        if c.r is Ok {
            if countable(c.g) && inside(g) {
                lemma_inside(c.g);
                lemma_find(c.g, c.g.locals, name);
            }
            if let Some(l) = lowering::find_local(c.g.locals, name) {
                lemma_lower_store(c.g, l.ptr, c.r->Ok_0, l.ty);
            }
        }
    }
}

/// What entering a loop does.
proof fn lemma_enter_loop(g: GenV, end_bb: usize)
    ensures
        ({
            let h = GenV { loop_exits: g.loop_exits.push(end_bb), ..g };
            &&& extends(g, h)
            &&& countable(g) == countable(h)
            &&& inside(g) && block_in(g, end_bb) ==> inside(h)
        }),
{
    broadcast use lemma_val_stays, lemma_block_stays, lemma_fn_stays, lemma_locals_stay;

    let h = GenV { loop_exits: g.loop_exits.push(end_bb), ..g };
    assert(extends(g, h)) by {
        reveal(extends);
    }
    if inside(g) && block_in(g, end_bb) {
        reveal(sound);
        assert forall|i: int| 0 <= i < h.loop_exits.len() implies block_in(
            h,
            #[trigger] h.loop_exits[i],
        ) by {
            if i < g.loop_exits.len() {
                assert(h.loop_exits[i] == g.loop_exits[i]);
                assert(block_in(g, g.loop_exits[i]));
            }
        }
    }
}

/// What leaving a loop does.
proof fn lemma_leave_loop(g: GenV)
    ensures
        ({
            let h = GenV { loop_exits: lowering::popped(g.loop_exits), ..g };
            &&& extends(g, h)
            &&& countable(g) == countable(h)
            &&& inside(g) ==> inside(h)
        }),
{
    broadcast use lemma_val_stays, lemma_block_stays, lemma_fn_stays, lemma_locals_stay;

    let h = GenV { loop_exits: lowering::popped(g.loop_exits), ..g };
    assert(extends(g, h)) by {
        reveal(extends);
    }
    if inside(g) {
        reveal(sound);
        assert forall|i: int| 0 <= i < h.loop_exits.len() implies block_in(
            h,
            #[trigger] h.loop_exits[i],
        ) by {
            assert(h.loop_exits[i] == g.loop_exits[i]);
            assert(block_in(g, g.loop_exits[i]));
        }
    }
}

#[verifier::rlimit(60)]
proof fn lemma_lower_while(k: ExprKindV, g: GenV)
    requires
        k is While,
    ensures
        ok_opt(g, lowering::lower_while(k, g)),
    decreases k, 7int,
{
    broadcast use group_script;

    if let ExprKindV::While { cond, body } = k {
        let cond_bb = lowering::next(g);
        let g1 = lowering::block(g, "while.cond"@);
        let body_bb = lowering::next(g1);
        let g2 = lowering::block(g1, "while.body"@);
        let end_bb = lowering::next(g2);
        let g3 = lowering::block(g2, "while.end"@);
        let g3b = lowering::go(lowering::step(g3, OpV::Br(cond_bb)), cond_bb);
        let c = lowering::lower_value(*cond, g3b, "while cond"@);
        lemma_lower_value(*cond, g3b, "while cond"@);
        if c.r is Ok {
            let g4 = lowering::step(c.g, OpV::CondBr { cond: c.r->Ok_0, yes: body_bb, no: end_bb });
            let g4b = GenV { loop_exits: g4.loop_exits.push(end_bb), ..g4 };
            lemma_enter_loop(g4, end_bb);
            let g5 = lowering::go(g4b, body_bb);
            let b = lowering::lower(*body, ValueUse::Move, g5);
            lemma_lower_expr(*body, ValueUse::Move, g5);
            if b.r is Ok {
                let g6 = if b.g.ended {
                    b.g
                } else {
                    lowering::step(b.g, OpV::Br(cond_bb))
                };
                lemma_extends_self(b.g);
                lemma_leave_loop(g6);
                let g7 = GenV { loop_exits: lowering::popped(g6.loop_exits), ..g6 };
                assert(g7.loop_exits =~= g.loop_exits);
                let g8 = lowering::go(g7, end_bb);
                if inside(g) {
                    lemma_inside(g);
                }
            }
        }
    }
}

#[verifier::rlimit(60)]
proof fn lemma_lower_loop(k: ExprKindV, g: GenV)
    requires
        k is Loop,
    ensures
        ok_opt(g, lowering::lower_loop(k, g)),
    decreases k, 7int,
{
    broadcast use group_script;

    if let ExprKindV::Loop { body } = k {
        let body_bb = lowering::next(g);
        let g1 = lowering::block(g, "loop.body"@);
        let end_bb = lowering::next(g1);
        let g2 = lowering::block(g1, "loop.end"@);
        let g3 = lowering::step(g2, OpV::Br(body_bb));
        let g3b = GenV { loop_exits: g3.loop_exits.push(end_bb), ..g3 };
        lemma_enter_loop(g3, end_bb);
        let g4 = lowering::go(g3b, body_bb);
        let b = lowering::lower(*body, ValueUse::Move, g4);
        lemma_lower_expr(*body, ValueUse::Move, g4);
        if b.r is Ok {
            let g5 = if b.g.ended {
                b.g
            } else {
                lowering::step(b.g, OpV::Br(body_bb))
            };
            lemma_extends_self(b.g);
            lemma_leave_loop(g5);
            let g6 = GenV { loop_exits: lowering::popped(g5.loop_exits), ..g5 };
            assert(g6.loop_exits =~= g.loop_exits);
            let g7 = lowering::go(g6, end_bb);
            if inside(g) {
                lemma_inside(g);
            }
        }
    }
}

proof fn lemma_lower_elems(at: LTyV, slot: ValV, es: Seq<ExprV>, i: int, g: GenV)
    ensures
        ({
            let c = lowering::lower_elems(at, slot, es, i, g);
            c.r is Ok ==> grows(g, c.g) && (countable(c.g) && inside(g) && val_in(g, slot)
                ==> inside(c.g))
        }),
    decreases es, es.len() - i,
{
    broadcast use group_script;

    lemma_extends_self(g);
    if 0 <= i < es.len() {
        let c = lowering::lower_value(es[i], g, "array elem"@);
        lemma_lower_value(es[i], g, "array elem"@);
        if c.r is Ok {
            lemma_plain_values(c.g);
            let index = ValV::Int(Prim::I32, i as i64);
            let g1 = lowering::step(c.g, OpV::ElemPtr { ty: at, ptr: slot, index, name: "elemptr"@ });
            let g2 = lowering::step(g1, OpV::Store { ptr: lowering::made(c.g), val: c.r->Ok_0 });
            lemma_lower_elems(at, slot, es, i + 1, g2);
        }
    }
}

proof fn lemma_lower_array(elem_ty: TypeV, elems: Seq<ExprV>, g: GenV)
    ensures
        ok_val(g, lowering::lower_array(elem_ty, elems, g)),
    decreases elems, elems.len() + 1,
{
    broadcast use group_script;

    if let Ok(at) = lowering::lower_array_type(elem_ty, elems.len() as u32) {
        let g1 = lowering::step(g, OpV::EntryAlloca { func: g.func, ty: at, name: "arrtmp"@, zeroed: false });
        lemma_lower_elems(at, lowering::made(g), elems, 0, g1);
    }
}

proof fn lemma_lower_field(k: ExprKindV, g: GenV)
    requires
        k is Field,
    ensures
        ok_val(g, lowering::lower_field(k, g)),
    decreases k, 7int,
{
    broadcast use group_script;

    if let ExprKindV::Field { base, field } = k {
        if let Some(TypeV::Named(n)) = base.ty {
            let fields = g.structs[n].fields;
            if let Some(i) = lowering::field_at(fields, field, 0) {
                match lowering::as_var(*base) {
                    Some(name) => {
                        if inside(g) {
                            lemma_inside(g);
                            lemma_find(g, g.locals, name);
                        }
                        if let Some(l) = lowering::find_local(g.locals, name) {
                            if let Ok(st) = lowering::lower_type(g, TypeV::Named(n)) {
                                let g1 = lowering::step(
                                    g,
                                    OpV::FieldPtr {
                                        ty: st,
                                        ptr: l.ptr,
                                        index: i as u32,
                                        name: field,
                                    },
                                );
                                let c = lowering::lower_load(g1, lowering::made(g), fields[i].ty, field);
                                lemma_lower_load(g1, lowering::made(g), fields[i].ty, field);
                                if c.r is Ok {
                                    lemma_lower_retain(c.g, c.r->Ok_0, fields[i].ty);
                                }
                            }
                        }
                    },
                    None => {
                        let c = lowering::lower_value(*base, g, "field base"@);
                        lemma_lower_value(*base, g, "field base"@);
                        if c.r is Ok {
                            let g1 = lowering::step(
                                c.g,
                                OpV::Extract { agg: c.r->Ok_0, index: i as u32, name: field },
                            );
                            lemma_lower_retain(g1, lowering::made(c.g), fields[i].ty);
                        }
                    },
                }
            }
        }
    }
}

proof fn lemma_lower_pack(g: GenV, v: ValV, ty: TypeV)
    ensures
        ({
            let c = lowering::lower_pack(g, v, ty);
            c.r is Ok ==> grows(g, c.g) && (countable(c.g) && inside(g) && val_in(g, v) ==> inside(
                c.g,
            ) && val_in(c.g, c.r->Ok_0))
        }),
{
    broadcast use group_script;

    lemma_extends_self(g);
}

proof fn lemma_lower_unpack(g: GenV, bits: ValV, ty: TypeV)
    ensures
        ({
            let c = lowering::lower_unpack(g, bits, ty);
            c.r is Ok ==> grows(g, c.g) && (countable(c.g) && inside(g) && val_in(g, bits)
                ==> inside(c.g) && val_in(c.g, c.r->Ok_0))
        }),
{
    broadcast use group_script;

    lemma_extends_self(g);
}

proof fn lemma_lower_arm_blocks(arms: Seq<MatchArmV>, i: int, cases: Seq<(u32, usize)>, g: GenV)
    requires
        0 <= i <= arms.len(),
        cases.len() == i,
    ensures
        ({
            let c = lowering::lower_arm_blocks(arms, i, cases, g);
            c.r is Ok ==> grows(g, c.g) && c.r->Ok_0.len() == arms.len() && (countable(c.g) && inside(
                g,
            ) && cases_in(g, cases) ==> inside(c.g) && cases_in(c.g, c.r->Ok_0))
        }),
    decreases arms.len() - i,
{
    broadcast use group_script;

    lemma_extends_self(g);
    if i < arms.len() && g.variants.contains_key(arms[i].variant) {
        let tag = g.variants[arms[i].variant].tag;
        let h = lowering::block(g, "match."@ + arms[i].variant);
        lemma_lower_arm_blocks(arms, i + 1, cases.push((tag, lowering::next(g))), h);
        if countable(h) && cases_in(g, cases) {
            assert(cases_in(h, cases));
            assert(cases_in(h, cases.push((tag, lowering::next(g))))) by {
                reveal(cases_in);
            }
        }
    }
}

proof fn lemma_lower_arm_binding(arm: MatchArmV, payload: ValV, g: GenV)
    ensures
        ({
            let c = lowering::lower_arm_binding(arm, payload, g);
            c.r is Ok ==> grows(g, c.g) && (countable(c.g) && inside(g) && val_in(g, payload)
                ==> inside(c.g) && (c.r->Ok_0 matches Some((name, Some(l))) ==> val_in(c.g, l.ptr)))
        }),
{
    broadcast use group_script;

    lemma_extends_self(g);
    if let (Some(pty), Some(name)) = (g.variants[arm.variant].payload, arm.binding) {
        let c = lowering::lower_unpack(g, payload, pty);
        lemma_lower_unpack(g, payload, pty);
        if c.r is Ok {
            let s = lowering::lower_slot(c.g, name, pty);
            lemma_lower_slot(c.g, name, pty);
            if s.r is Ok {
                let slot = s.r->Ok_0;
                let g1 = lowering::step(s.g, OpV::Store { ptr: slot, val: c.r->Ok_0 });
                let l = LocalV { name, ptr: slot, ty: pty };
                lemma_set_locals(g1, lowering::with_local(g1.locals, l));
                lemma_same_ops(g1, lowering::with_local(g1.locals, l));
                if countable(g1) && inside(g) && val_in(g, payload) {
                    lemma_inside(g1);
                    lemma_with_local(g1, g1.locals, l);
                    lemma_find(g1, g1.locals, name);
                }
            }
        }
    }
}

#[verifier::rlimit(60)]
proof fn lemma_lower_arms(
    arms: Seq<MatchArmV>,
    i: int,
    cases: Seq<(u32, usize)>,
    payload: ValV,
    merge_bb: usize,
    unit: bool,
    incoming: Seq<(ValV, usize)>,
    g: GenV,
)
    requires
        cases.len() == arms.len(),
    ensures
        ({
            let c = lowering::lower_arms(arms, i, cases, payload, merge_bb, unit, incoming, g);
            c.r is Ok ==> grows(g, c.g) && (countable(c.g) && inside(g) && cases_in(g, cases)
                && val_in(g, payload) && block_in(g, merge_bb) && incoming_in(g, incoming) ==> inside(
                c.g,
            ) && incoming_in(c.g, c.r->Ok_0))
        }),
    decreases arms, arms.len() - i,
{
    broadcast use group_script;

    lemma_extends_self(g);
    if 0 <= i < arms.len() {
        let arm = arms[i];
        if cases_in(g, cases) {
            assert(block_in(g, cases[i].1)) by {
                reveal(cases_in);
            }
        }
        let g1 = lowering::go(g, cases[i].1);
        if g1.variants.contains_key(arm.variant) {
            let p = lowering::lower_arm_binding(arm, payload, g1);
            lemma_lower_arm_binding(arm, payload, g1);
            if p.r is Ok {
                let b = lowering::lower(arm.body, ValueUse::Move, p.g);
                lemma_lower_expr(arm.body, ValueUse::Move, p.g);
                if b.r is Ok {
                    let v = b.r->Ok_0;
                    let end_bb = b.g.block;
                    let reached = !b.g.ended;
                    let g2 = if reached {
                        lowering::step(b.g, OpV::Br(merge_bb))
                    } else {
                        b.g
                    };
                    lemma_extends_self(b.g);
                    let g3 = match p.r->Ok_0 {
                        Some(s) => GenV { locals: lowering::restored(g2.locals, s), ..g2 },
                        None => g2,
                    };
                    lemma_extends_self(g2);
                    if let Some(s) = p.r->Ok_0 {
                        lemma_set_locals(g2, lowering::restored(g2.locals, s));
                        lemma_same_ops(g2, lowering::restored(g2.locals, s));
                    }
                    let more = if reached && !unit && v is Some {
                        incoming.push((v->0, end_bb))
                    } else {
                        incoming
                    };
                    if countable(g3) && inside(g) && cases_in(g, cases) && val_in(g, payload)
                        && block_in(g, merge_bb) && incoming_in(g, incoming) {
                        lemma_inside(b.g);
                        lemma_inside(g2);
                        if let Some(s) = p.r->Ok_0 {
                            lemma_restored(g2, g2.locals, s);
                        }
                        if reached && !unit && v is Some {
                            lemma_incoming_push(g3, incoming, v->0, end_bb);
                        }
                    }
                    lemma_lower_arms(arms, i + 1, cases, payload, merge_bb, unit, more, g3);
                }
            }
        }
    }
}

#[verifier::rlimit(60)]
proof fn lemma_lower_match(k: ExprKindV, ty: TypeV, g: GenV)
    requires
        k is Match,
    ensures
        ok_opt(g, lowering::lower_match(k, ty, g)),
    decreases k, 7int,
{
    broadcast use group_script;

    if let ExprKindV::Match { scrutinee, arms } = k {
        let c = lowering::lower_value(*scrutinee, g, "match scrutinee"@);
        lemma_lower_value(*scrutinee, g, "match scrutinee"@);
        if c.r is Ok {
            let ev = c.r->Ok_0;
            let g1 = lowering::step(c.g, OpV::Extract { agg: ev, index: 0, name: "mtag"@ });
            let g2 = lowering::step(g1, OpV::Extract { agg: ev, index: 1, name: "mpayload"@ });
            let merge_bb = lowering::next(g2);
            let g3 = lowering::block(g2, "match.end"@);
            let else_bb = lowering::next(g3);
            let g4 = lowering::block(g3, "match.unreachable"@);
            let b = lowering::lower_arm_blocks(arms, 0, Seq::empty(), g4);
            lemma_lower_arm_blocks(arms, 0, Seq::empty(), g4);
            lemma_nothing(g4);
            if b.r is Ok {
                let cases = b.r->Ok_0;
                let g5 = lowering::step(b.g, OpV::Switch { val: lowering::made(c.g), default: else_bb, cases });
                lemma_nothing(g5);
                let a = lowering::lower_arms(
                    arms,
                    0,
                    cases,
                    lowering::made(g1),
                    merge_bb,
                    ty is Unit,
                    Seq::empty(),
                    g5,
                );
                lemma_lower_arms(arms, 0, cases, lowering::made(g1), merge_bb, ty is Unit, Seq::empty(), g5);
                if a.r is Ok {
                    let g6 = lowering::go(lowering::step(lowering::go(a.g, else_bb), OpV::Unreachable), merge_bb);
                    assert(extends(g, g6));
                }
            }
        }
    }
}

proof fn lemma_lower_args(args: Seq<ExprV>, i: int, acc: Seq<ValV>, g: GenV, msg: Seq<char>)
    ensures
        ({
            let c = lowering::lower_args(args, i, acc, g, msg);
            c.r is Ok ==> grows(g, c.g) && (countable(c.g) && inside(g) && vals_in(g, acc)
                ==> inside(c.g) && vals_in(c.g, c.r->Ok_0))
        }),
    decreases args, args.len() - i,
{
    broadcast use group_script;

    lemma_extends_self(g);
    if 0 <= i < args.len() {
        let c = lowering::lower_value(args[i], g, msg);
        lemma_lower_value(args[i], g, msg);
        if c.r is Ok {
            lemma_lower_args(args, i + 1, acc.push(c.r->Ok_0), c.g, msg);
            if countable(c.g) && inside(g) && vals_in(g, acc) {
                lemma_vals_push(c.g, acc, c.r->Ok_0);
            }
        }
    }
}

proof fn lemma_lower_fold(op: Seq<char>, args: Seq<ExprV>, i: int, acc: ValV, ty: TypeV, g: GenV)
    ensures
        ({
            let c = lowering::lower_fold(op, args, i, acc, ty, g);
            c.r is Ok ==> grows(g, c.g) && (countable(c.g) && inside(g) && val_in(g, acc) ==> inside(
                c.g,
            ) && val_in(c.g, c.r->Ok_0))
        }),
    decreases args, args.len() - i,
{
    broadcast use group_script;

    lemma_extends_self(g);
    if 0 <= i < args.len() {
        let c = lowering::lower_value(args[i], g, "arith rhs"@);
        lemma_lower_value(args[i], g, "arith rhs"@);
        if c.r is Ok {
            let d = lowering::lower_bin(c.g, op, acc, c.r->Ok_0, ty);
            if d.r is Ok {
                lemma_lower_fold(op, args, i + 1, d.r->Ok_0, ty, d.g);
            }
        }
    }
}

proof fn lemma_lower_arith(op: Seq<char>, args: Seq<ExprV>, ty: TypeV, g: GenV)
    ensures
        ok_val(g, lowering::lower_arith(op, args, ty, g)),
    decreases args, args.len() + 1,
{
    broadcast use group_script;

    if args.len() > 0 {
        lemma_lower_value(args[0], g, "unary -"@);
        lemma_lower_value(args[0], g, "arith identity"@);
        let c = lowering::lower_value(args[0], g, "arith lhs"@);
        lemma_lower_value(args[0], g, "arith lhs"@);
        if c.r is Ok {
            lemma_lower_fold(op, args, 1, c.r->Ok_0, ty, c.g);
        }
    }
}

proof fn lemma_lower_test(op: Seq<char>, args: Seq<ExprV>, g: GenV)
    ensures
        ok_val(g, lowering::lower_test(op, args, g)),
    decreases args, args.len() + 1,
{
    broadcast use group_script;

    if args.len() >= 2 {
        let c = lowering::lower_value(args[0], g, "operand"@);
        lemma_lower_value(args[0], g, "operand"@);
        if c.r is Ok {
            lemma_lower_value(args[1], c.g, "operand"@);
        }
    }
}

#[verifier::rlimit(60)]
proof fn lemma_lower_short(is_and: bool, args: Seq<ExprV>, g: GenV)
    ensures
        ok_val(g, lowering::lower_short(is_and, args, g)),
    decreases args, args.len() + 1,
{
    broadcast use group_script;

    if args.len() >= 2 {
        let c = lowering::lower_value(args[0], g, if is_and { "and lhs"@ } else { "or lhs"@ });
        lemma_lower_value(args[0], g, if is_and { "and lhs"@ } else { "or lhs"@ });
        if c.r is Ok {
            let a = c.r->Ok_0;
            let rhs_bb = lowering::next(c.g);
            let g1 = lowering::block(c.g, if is_and { "and.rhs"@ } else { "or.rhs"@ });
            let merge_bb = lowering::next(g1);
            let g2 = lowering::block(g1, if is_and { "and.end"@ } else { "or.end"@ });
            let g3 = if is_and {
                lowering::step(g2, OpV::CondBr { cond: a, yes: rhs_bb, no: merge_bb })
            } else {
                lowering::step(g2, OpV::CondBr { cond: a, yes: merge_bb, no: rhs_bb })
            };
            let h = lowering::go(g3, rhs_bb);
            let d = lowering::lower_value(args[1], h, if is_and { "and rhs"@ } else { "or rhs"@ });
            lemma_lower_value(args[1], h, if is_and { "and rhs"@ } else { "or rhs"@ });
            if d.r is Ok {
                let g4 = lowering::go(lowering::step(d.g, OpV::Br(merge_bb)), merge_bb);
                let decided = ValV::Int(
                    Prim::I1,
                    if is_and {
                        0
                    } else {
                        1
                    },
                );
                if countable(g4) && inside(g) {
                    lemma_inside(g2);
                    lemma_inside(d.g);
                    lemma_plain_values(g4);
                    lemma_nothing(g4);
                    lemma_incoming_push(g4, Seq::empty(), decided, g2.block);
                    let one = Seq::empty().push((decided, g2.block));
                    lemma_incoming_push(g4, one, d.r->Ok_0, d.g.block);
                    assert(one.push((d.r->Ok_0, d.g.block)) =~= seq![
                        (decided, g2.block),
                        (d.r->Ok_0, d.g.block),
                    ]);
                }
            }
        }
    }
}

proof fn lemma_lower_not(args: Seq<ExprV>, g: GenV)
    ensures
        ok_val(g, lowering::lower_not(args, g)),
    decreases args, args.len() + 1,
{
    broadcast use group_script;

    if args.len() > 0 {
        lemma_lower_value(args[0], g, "operand"@);
    }
}

proof fn lemma_lower_print_arg(g: GenV, v: ValV, ty: TypeV)
    ensures
        ({
            let c = lowering::lower_print_arg(g, v, ty);
            c.r is Ok ==> grows(g, c.g) && (countable(c.g) && inside(g) && val_in(g, v) ==> inside(
                c.g,
            ) && val_in(c.g, c.r->Ok_0.1))
        }),
{
    broadcast use group_script;

    lemma_extends_self(g);
    if ty is Bool {
        lemma_lower_text(g, "true"@);
        lemma_lower_text(lowering::lower_text(g, "true"@), "false"@);
    }
}

proof fn lemma_lower_print_str(g: GenV, v: ValV, newline: bool)
    ensures
        ({
            let c = lowering::lower_print_str(g, v, newline);
            c.r is Ok ==> grows(g, c.g) && (countable(c.g) && inside(g) && val_in(g, v) ==> inside(
                c.g,
            ))
        }),
{
    broadcast use group_script;

    let c = lowering::lower_rt(g, "risp_str_cstr"@, seq![v], "risp_str_cstr"@);
    lemma_lower_rt(g, "risp_str_cstr"@, seq![v], "risp_str_cstr"@);
    if val_in(g, v) {
        lemma_vals_one(g, v);
    }
    if c.r is Ok {
        let cstr = c.r->Ok_0;
        if val_in(c.g, cstr) {
            lemma_vals_one(c.g, cstr);
        }
        if newline {
            let d = lowering::lower_rt(c.g, "__puts"@, seq![cstr], "putscall"@);
            lemma_lower_rt(c.g, "__puts"@, seq![cstr], "putscall"@);
            lemma_lower_drop(d.g, v, TypeV::Str);
        } else {
            let g1 = lowering::lower_text(c.g, "%s"@);
            lemma_lower_text(c.g, "%s"@);
            let args = seq![lowering::made(c.g), cstr];
            let d = lowering::lower_rt(g1, "__printf"@, args, "printfcall"@);
            lemma_lower_rt(g1, "__printf"@, args, "printfcall"@);
            if val_in(g1, lowering::made(c.g)) && val_in(g1, cstr) {
                lemma_vals_two(g1, lowering::made(c.g), cstr);
            }
            lemma_lower_drop(d.g, v, TypeV::Str);
        }
    }
}

proof fn lemma_lower_print(args: Seq<ExprV>, newline: bool, g: GenV)
    ensures
        ok_unit(g, lowering::lower_print(args, newline, g)),
    decreases args, args.len() + 1,
{
    broadcast use group_script;

    if args.len() > 0 {
        if let Some(ty) = args[0].ty {
            let c = lowering::lower_value(args[0], g, "print arg"@);
            lemma_lower_value(args[0], g, "print arg"@);
            if c.r is Ok {
                let v = c.r->Ok_0;
                lemma_lower_print_str(c.g, v, newline);
                let d = lowering::lower_print_arg(c.g, v, ty);
                lemma_lower_print_arg(c.g, v, ty);
                if d.r is Ok {
                    let fmt = if newline {
                        d.r->Ok_0.0 + "\n"@
                    } else {
                        d.r->Ok_0.0
                    };
                    let h = lowering::lower_text(d.g, fmt);
                    lemma_lower_text(d.g, fmt);
                    let vs = seq![lowering::made(d.g), d.r->Ok_0.1];
                    lemma_lower_rt(h, "__printf"@, vs, "printfcall"@);
                    if val_in(h, lowering::made(d.g)) && val_in(h, d.r->Ok_0.1) {
                        lemma_vals_two(h, lowering::made(d.g), d.r->Ok_0.1);
                    }
                }
            }
        }
    }
}

proof fn lemma_lower_concat(args: Seq<ExprV>, g: GenV)
    ensures
        ok_val(g, lowering::lower_concat(args, g)),
    decreases args, args.len() + 1,
{
    broadcast use group_script;

    if args.len() >= 2 {
        let c = lowering::lower_value(args[0], g, "str-concat a"@);
        lemma_lower_value(args[0], g, "str-concat a"@);
        if c.r is Ok {
            let d = lowering::lower_value(args[1], c.g, "str-concat b"@);
            lemma_lower_value(args[1], c.g, "str-concat b"@);
            if d.r is Ok {
                let (a, b) = (c.r->Ok_0, d.r->Ok_0);
                let x = lowering::lower_rt(d.g, "risp_str_concat"@, seq![a, b], "strconcat"@);
                lemma_lower_rt(d.g, "risp_str_concat"@, seq![a, b], "strconcat"@);
                if val_in(d.g, a) && val_in(d.g, b) {
                    lemma_vals_two(d.g, a, b);
                }
                let y = lowering::lower_drop(x.g, a, TypeV::Str);
                lemma_lower_drop(x.g, a, TypeV::Str);
                lemma_lower_drop(y.g, b, TypeV::Str);
            }
        }
    }
}

proof fn lemma_lower_str_len(args: Seq<ExprV>, g: GenV)
    ensures
        ok_val(g, lowering::lower_str_len(args, g)),
    decreases args, args.len() + 1,
{
    broadcast use group_script;

    if args.len() > 0 {
        let c = lowering::lower_value(args[0], g, "str-len"@);
        lemma_lower_value(args[0], g, "str-len"@);
        if c.r is Ok {
            let a = c.r->Ok_0;
            let x = lowering::lower_rt(c.g, "risp_str_len"@, seq![a], "strlen"@);
            lemma_lower_rt(c.g, "risp_str_len"@, seq![a], "strlen"@);
            if val_in(c.g, a) {
                lemma_vals_one(c.g, a);
            }
            lemma_lower_drop(x.g, a, TypeV::Str);
        }
    }
}

proof fn lemma_lower_aget(args: Seq<ExprV>, g: GenV)
    ensures
        ok_val(g, lowering::lower_aget(args, g)),
    decreases args, args.len() + 1,
{
    broadcast use group_script;

    if args.len() >= 2 {
        if let Some(TypeV::Array { elem, len }) = args[0].ty {
            let c = lowering::lower_value(args[0], g, "aget arr"@);
            lemma_lower_value(args[0], g, "aget arr"@);
            if c.r is Ok {
                let d = lowering::lower_value(args[1], c.g, "aget idx"@);
                lemma_lower_value(args[1], c.g, "aget idx"@);
                if d.r is Ok {
                    if let Ok(at) = lowering::lower_array_type(*elem, len) {
                        let op = OpV::ElemPtr {
                            ty: at,
                            ptr: c.r->Ok_0,
                            index: d.r->Ok_0,
                            name: "agetptr"@,
                        };
                        lemma_lower_load(lowering::step(d.g, op), lowering::made(d.g), *elem, "aget"@);
                    }
                }
            }
        }
    }
}

proof fn lemma_lower_aset(args: Seq<ExprV>, g: GenV)
    ensures
        ok_unit(g, lowering::lower_aset(args, g)),
    decreases args, args.len() + 1,
{
    broadcast use group_script;

    if args.len() >= 3 {
        let c = lowering::lower_value(args[0], g, "aset! arr"@);
        lemma_lower_value(args[0], g, "aset! arr"@);
        if c.r is Ok {
            let d = lowering::lower_value(args[1], c.g, "aset! idx"@);
            lemma_lower_value(args[1], c.g, "aset! idx"@);
            if d.r is Ok {
                lemma_lower_value(args[2], d.g, "aset! val"@);
            }
        }
    }
}

proof fn lemma_lower_alen(args: Seq<ExprV>, g: GenV)
    ensures
        ok_val(g, lowering::lower_alen(args, g)),
    decreases args, args.len() + 1,
{
    broadcast use group_script;

    if args.len() > 0 {
        let c = lowering::lower(args[0], ValueUse::Move, g);
        lemma_lower_expr(args[0], ValueUse::Move, g);
        lemma_plain_values(c.g);
    }
}

proof fn lemma_lower_fields(fields: Seq<FieldDefV>, args: Seq<ExprV>, i: int, agg: ValV, g: GenV)
    ensures
        ({
            let c = lowering::lower_fields(fields, args, i, agg, g);
            c.r is Ok ==> grows(g, c.g) && (countable(c.g) && inside(g) && val_in(g, agg) ==> inside(
                c.g,
            ) && val_in(c.g, c.r->Ok_0))
        }),
    decreases args, args.len() - i,
{
    broadcast use group_script;

    lemma_extends_self(g);
    if 0 <= i < args.len() && i < fields.len() {
        let c = lowering::lower_value(args[i], g, "struct field"@);
        lemma_lower_value(args[i], g, "struct field"@);
        if c.r is Ok {
            let op = OpV::Insert {
                agg,
                val: c.r->Ok_0,
                index: i as u32,
                name: fields[i].name,
            };
            lemma_lower_fields(fields, args, i + 1, lowering::made(c.g), lowering::step(c.g, op));
        }
    }
}

proof fn lemma_lower_enum(g: GenV, tag: u32, bits: ValV)
    ensures
        ({
            let c = lowering::lower_enum(g, tag, bits);
            c.r is Ok ==> grows(g, c.g) && (countable(c.g) && inside(g) && val_in(g, bits)
                ==> inside(c.g) && val_in(c.g, c.r->Ok_0))
        }),
{
    broadcast use group_script;

    lemma_plain_values(g);
}

proof fn lemma_lower_variant(info: VariantInfoV, args: Seq<ExprV>, g: GenV)
    ensures
        ok_val(g, lowering::lower_variant(info, args, g)),
    decreases args, args.len() + 1,
{
    broadcast use group_script;

    match info.payload {
        None => {
            lemma_plain_values(g);
            lemma_lower_enum(g, info.tag, ValV::Int(Prim::I64, 0));
        },
        Some(pty) => {
            if args.len() > 0 {
                let c = lowering::lower_value(args[0], g, "variant payload"@);
                lemma_lower_value(args[0], g, "variant payload"@);
                if c.r is Ok {
                    let d = lowering::lower_pack(c.g, c.r->Ok_0, pty);
                    lemma_lower_pack(c.g, c.r->Ok_0, pty);
                    if d.r is Ok {
                        lemma_lower_enum(d.g, info.tag, d.r->Ok_0);
                    }
                }
            }
        },
    }
}

proof fn lemma_lower_call_args(
    args: Seq<ExprV>,
    i: int,
    params: Seq<TypeV>,
    foreign: bool,
    acc: Seq<ValV>,
    owned: Seq<ValV>,
    g: GenV,
)
    ensures
        ({
            let c = lowering::lower_call_args(args, i, params, foreign, acc, owned, g);
            c.r is Ok ==> grows(g, c.g) && (countable(c.g) && inside(g) && vals_in(g, acc)
                && vals_in(g, owned) ==> inside(c.g) && vals_in(c.g, c.r->Ok_0.0) && vals_in(
                c.g,
                c.r->Ok_0.1,
            ))
        }),
    decreases args, args.len() - i,
{
    broadcast use group_script;

    lemma_extends_self(g);
    if 0 <= i < args.len() {
        let c = lowering::lower_value(args[i], g, "call argument"@);
        lemma_lower_value(args[i], g, "call argument"@);
        if c.r is Ok {
            let v = c.r->Ok_0;
            if val_in(c.g, v) {
                lemma_vals_one(c.g, v);
            }
            if foreign && i < params.len() && params[i] is Str {
                let d = lowering::lower_rt(c.g, "risp_str_cstr"@, seq![v], "risp_str_cstr"@);
                lemma_lower_rt(c.g, "risp_str_cstr"@, seq![v], "risp_str_cstr"@);
                if d.r is Ok {
                    let cstr = d.r->Ok_0;
                    lemma_lower_call_args(args, i + 1, params, foreign, acc.push(cstr), owned.push(v), d.g);
                    if countable(d.g) && inside(g) && vals_in(g, acc) && vals_in(g, owned) {
                        lemma_vals_push(d.g, acc, cstr);
                        lemma_vals_push(d.g, owned, v);
                    }
                }
            } else {
                lemma_lower_call_args(args, i + 1, params, foreign, acc.push(v), owned, c.g);
                if countable(c.g) && inside(g) && vals_in(g, acc) {
                    lemma_vals_push(c.g, acc, v);
                }
            }
        }
    }
}

proof fn lemma_lower_drop_all(vs: Seq<ValV>, i: int, g: GenV)
    ensures
        ({
            let c = lowering::lower_drop_all(vs, i, g);
            c.r is Ok ==> grows(g, c.g) && (countable(c.g) && inside(g) && vals_in(g, vs) ==> inside(
                c.g,
            ))
        }),
    decreases vs.len() - i,
{
    broadcast use group_script;

    lemma_extends_self(g);
    if 0 <= i < vs.len() {
        let c = lowering::lower_drop(g, vs[i], TypeV::Str);
        lemma_lower_drop(g, vs[i], TypeV::Str);
        if vals_in(g, vs) {
            assert(val_in(g, vs[i])) by {
                reveal(vals_in);
            }
        }
        lemma_lower_drop_all(vs, i + 1, c.g);
    }
}

proof fn lemma_lower_fn_call(callee: Seq<char>, args: Seq<ExprV>, g: GenV)
    ensures
        ok_opt(g, lowering::lower_fn_call(callee, args, g)),
    decreases args, args.len() + 1,
{
    broadcast use group_script;

    if g.fns.contains_key(callee) && g.fn_types.contains_key(callee) {
        let func = g.fns[callee];
        let sig = g.fn_types[callee];
        let foreign = g.externs.contains_key(callee);
        let c = lowering::lower_call_args(args, 0, sig.params, foreign, Seq::empty(), Seq::empty(), g);
        lemma_lower_call_args(args, 0, sig.params, foreign, Seq::empty(), Seq::empty(), g);
        lemma_nothing(g);
        if inside(g) {
            lemma_known_fn(g, callee);
        }
        if c.r is Ok {
            let av = c.r->Ok_0;
            let g1 = lowering::step(c.g, OpV::Call { func, args: av.0, name: "calltmp"@ });
            let result = lowering::made(c.g);
            let d = lowering::lower_drop_all(av.1, 0, g1);
            lemma_lower_drop_all(av.1, 0, g1);
            lemma_lower_rt(d.g, "risp_str_from_cstr"@, seq![result], "risp_str_from_cstr"@);
            if val_in(d.g, result) {
                lemma_vals_one(d.g, result);
            }
        }
    }
}

#[verifier::rlimit(40)]
proof fn lemma_lower_call(callee: Seq<char>, args: Seq<ExprV>, ty: TypeV, g: GenV)
    ensures
        ok_opt(g, lowering::lower_call(callee, args, ty, g)),
    decreases args, args.len() + 2,
{
    lemma_lower_arith(callee, args, ty, g);
    lemma_lower_test(callee, args, g);
    lemma_lower_short(true, args, g);
    lemma_lower_short(false, args, g);
    lemma_lower_not(args, g);
    lemma_lower_print(args, true, g);
    lemma_lower_print(args, false, g);
    lemma_lower_concat(args, g);
    lemma_lower_str_len(args, g);
    lemma_lower_aget(args, g);
    lemma_lower_aset(args, g);
    lemma_lower_alen(args, g);
    lemma_lower_struct(callee, args, g);
    lemma_lower_variant(g.variants[callee], args, g);
    lemma_lower_fn_call(callee, args, g);
}

proof fn lemma_lower_struct(name: Seq<char>, args: Seq<ExprV>, g: GenV)
    ensures
        ok_val(g, lowering::lower_struct(name, args, g)),
    decreases args, args.len() + 1,
{
    broadcast use group_script;

    if let Ok(st) = lowering::lower_type(g, TypeV::Named(name)) {
        lemma_plain_values(g);
        lemma_lower_fields(g.structs[name].fields, args, 0, ValV::Undef(st), g);
    }
}

proof fn lemma_lower_return(g: GenV, v: Option<ValV>, ret: TypeV)
    ensures
        ({
            let c = lowering::lower_return(g, v, ret);
            c.r is Ok ==> grows(g, c.g) && (countable(c.g) && inside(g) && (v is Some ==> val_in(
                g,
                v->0,
            )) ==> inside(c.g))
        }),
{
    broadcast use group_script;

    lemma_lower_release_locals(g, g.locals, 0, Seq::empty(), "drop.local"@, false);
    if inside(g) {
        lemma_inside(g);
    }
}

proof fn lemma_lower_new_params(names: Seq<Seq<char>>, vs: Seq<ValV>, i: int, g: GenV)
    ensures
        ({
            let c = lowering::lower_new_params(names, vs, i, g);
            c.r is Ok ==> grows(g, c.g) && (countable(c.g) && inside(g) && vals_in(g, vs) ==> inside(
                c.g,
            ))
        }),
    decreases names.len() - i,
{
    broadcast use group_script;

    lemma_extends_self(g);
    if 0 <= i < names.len() && i < vs.len() {
        if inside(g) {
            lemma_inside(g);
            lemma_find(g, g.param_locals, names[i]);
        }
        if let Some(l) = lowering::find_local(g.param_locals, names[i]) {
            let c = lowering::lower_store(g, l.ptr, vs[i], l.ty);
            lemma_lower_store(g, l.ptr, vs[i], l.ty);
            if vals_in(g, vs) {
                assert(val_in(g, vs[i])) by {
                    reveal(vals_in);
                }
            }
            lemma_lower_new_params(names, vs, i + 1, c.g);
        }
    }
}

proof fn lemma_lower_self_call(args: Seq<ExprV>, g: GenV)
    ensures
        ok_unit(g, lowering::lower_self_call(args, g)),
{
    broadcast use group_script;

    let c = lowering::lower_args(args, 0, Seq::empty(), g, "tco arg"@);
    lemma_lower_args(args, 0, Seq::empty(), g, "tco arg"@);
    lemma_nothing(g);
    if c.r is Ok {
        let vs = c.r->Ok_0;
        let d = lowering::lower_release_locals(c.g, c.g.locals, 0, c.g.param_locals, "tco.drop"@, true);
        lemma_lower_release_locals(c.g, c.g.locals, 0, c.g.param_locals, "tco.drop"@, true);
        if d.r is Ok {
            let x = lowering::lower_new_params(d.g.param_names, vs, 0, d.g);
            lemma_lower_new_params(d.g.param_names, vs, 0, d.g);
            if x.r is Ok && countable(x.g) && inside(g) {
                lemma_inside(c.g);
                lemma_inside(x.g);
            }
        }
    }
}

proof fn lemma_lower_tail_do(es: Seq<ExprV>, i: int, g: GenV)
    ensures
        ok_unit(g, lowering::lower_tail_do(es, i, g)),
    decreases es.len() - i,
{
    broadcast use group_script;

    lemma_extends_self(g);
    if 0 <= i < es.len() - 1 {
        let c = lowering::lower(es[i], ValueUse::Move, g);
        lemma_lower_expr(es[i], ValueUse::Move, g);
        if c.r is Ok {
            let d = lowering::lower_unused(c.g, es[i], c.r->Ok_0);
            lemma_lower_unused(c.g, es[i], c.r->Ok_0);
            lemma_lower_tail_do(es, i + 1, d.g);
        }
    }
}

#[verifier::rlimit(40)]
proof fn lemma_lower_tail(e: ExprV, ret: TypeV, g: GenV)
    ensures
        ok_unit(g, lowering::lower_tail(e, ret, g)),
    decreases e,
{
    broadcast use group_script;

    let c = lowering::lower(e, ValueUse::Move, g);
    lemma_lower_expr(e, ValueUse::Move, g);
    if c.r is Ok {
        lemma_lower_return(c.g, c.r->Ok_0, ret);
    }
    match e.kind {
        ExprKindV::If { cond, then_branch, else_branch } => {
            let c = lowering::lower_value(*cond, g, "if cond"@);
            lemma_lower_value(*cond, g, "if cond"@);
            if c.r is Ok {
                let then_bb = lowering::next(c.g);
                let g1 = lowering::block(c.g, "then.tail"@);
                let else_bb = lowering::next(g1);
                let g2 = lowering::block(g1, "else.tail"@);
                let g3 = lowering::step(g2, OpV::CondBr { cond: c.r->Ok_0, yes: then_bb, no: else_bb });
                let t = lowering::lower_tail(*then_branch, ret, lowering::go(g3, then_bb));
                lemma_lower_tail(*then_branch, ret, lowering::go(g3, then_bb));
                lemma_lower_tail(*else_branch, ret, lowering::go(t.g, else_bb));
            }
        },
        ExprKindV::Let { bindings, body } => {
            let c = lowering::lower_bindings(bindings, 0, Seq::empty(), g);
            lemma_lower_bindings(bindings, 0, Seq::empty(), g);
            lemma_nothing(g);
            if c.r is Ok {
                let prev = c.r->Ok_0;
                let b = lowering::lower_tail(*body, ret, c.g);
                lemma_lower_tail(*body, ret, c.g);
                if b.r is Ok {
                    let ls = lowering::restored_all(b.g.locals, prev, prev.len() as int);
                    lemma_set_locals(b.g, ls);
                    lemma_same_ops(b.g, ls);
                    if countable(b.g) && inside(g) {
                        lemma_inside(b.g);
                        lemma_restored_all(b.g, b.g.locals, prev, prev.len() as int);
                    }
                }
            }
        },
        ExprKindV::Do(es) => {
            lemma_lower_return(g, None, ret);
            if es.len() > 0 {
                let c = lowering::lower_tail_do(es, 0, g);
                lemma_lower_tail_do(es, 0, g);
                lemma_lower_tail(es.last(), ret, c.g);
            }
        },
        ExprKindV::Call { callee, args } => lemma_lower_self_call(args, g),
        _ => {},
    }
}

/// What does not touch the steps.
proof fn lemma_same_steps(g: GenV, h: GenV)
    requires
        g.ops == h.ops,
    ensures
        extends(g, h),
        countable(g) == countable(h),
{
    reveal(extends);
}

proof fn lemma_lower_params(params: Seq<ParamV>, i: int, g: GenV)
    ensures
        ({
            let c = lowering::lower_params(params, i, g);
            c.r is Ok ==> extends(g, c.g) && (countable(c.g) && inside(g) ==> inside(c.g))
        }),
    decreases params.len() - i,
{
    broadcast use group_script;

    lemma_extends_self(g);
    if 0 <= i < params.len() {
        let p = params[i];
        let c = lowering::lower_slot(g, p.name, p.ty);
        lemma_lower_slot(g, p.name, p.ty);
        if c.r is Ok {
            let slot = c.r->Ok_0;
            lemma_plain_values(c.g);
            let g1 = lowering::step(c.g, OpV::Store { ptr: slot, val: ValV::Arg(i as u32) });
            let l = LocalV { name: p.name, ptr: slot, ty: p.ty };
            let g2 = GenV { locals: lowering::with_local(g1.locals, l), ..g1 };
            let g3 = GenV { param_names: g1.param_names.push(p.name), ..g2 };
            lemma_set_locals(g1, lowering::with_local(g1.locals, l));
            lemma_same_steps(g1, g2);
            lemma_same_steps(g2, g3);
            if countable(g3) && inside(g) {
                lemma_inside(g1);
                lemma_with_local(g1, g1.locals, l);
                lemma_sound_fields(g2, g3);
            }
            lemma_lower_params(params, i + 1, g3);
        }
    }
}

#[verifier::rlimit(40)]
proof fn lemma_lower_function(name: Seq<char>, params: Seq<ParamV>, ret: TypeV, body: ExprV, g: GenV)
    ensures
        ({
            let c = lowering::lower_function(name, params, ret, body, g);
            c.r is Ok ==> extends(g, c.g) && (countable(c.g) && sound(g) ==> sound(c.g))
        }),
{
    broadcast use group_script;

    if g.fns.contains_key(name) {
        let g0 = GenV { func: g.fns[name], ..g };
        lemma_same_steps(g, g0);
        if sound(g) {
            lemma_known_fn(g, name);
            lemma_sound_fields(g, g0);
        }
        let entry = lowering::next(g0);
        let g1 = lowering::block(g0, "entry"@);
        let loop_bb = lowering::next(g1);
        let h1 = lowering::block(g1, "loop"@);
        let g2 = lowering::go(h1, entry);
        let h2 = GenV { locals: Seq::empty(), ..g2 };
        let g3 = GenV { param_names: Seq::empty(), ..h2 };
        lemma_set_locals(g2, Seq::empty());
        lemma_nothing(g2);
        lemma_same_steps(g2, h2);
        lemma_same_steps(h2, g3);
        let c = lowering::lower_params(params, 0, g3);
        lemma_lower_params(params, 0, g3);
        if c.r is Ok {
            let g4 = GenV {
                param_locals: c.g.locals,
                current_fn: Some(name),
                loop_header: Some(loop_bb),
                ..c.g
            };
            lemma_same_steps(c.g, g4);
            let g5 = lowering::step(g4, OpV::Br(loop_bb));
            let g6 = lowering::go(g5, loop_bb);
            let b = lowering::lower_tail(body, ret, g6);
            lemma_lower_tail(body, ret, g6);
            if b.r is Ok {
                let g7 = GenV {
                    current_fn: None,
                    loop_header: None,
                    param_locals: Seq::empty(),
                    param_names: Seq::empty(),
                    ..b.g
                };
                lemma_same_steps(b.g, g7);
                if countable(b.g) && sound(g) {
                    assert(inside(g2));
                    lemma_sound_fields(h2, g3);
                    assert(inside(g3));
                    assert(inside(c.g));
                    lemma_body_context(c.g, g4);
                    assert(inside(g6));
                    assert(inside(b.g));
                    lemma_body_context(b.g, g7);
                }
            }
        }
    }
}

/// What entering and leaving a body does.
proof fn lemma_body_context(g: GenV, h: GenV)
    requires
        inside(g),
        h == (GenV {
            current_fn: h.current_fn,
            loop_header: h.loop_header,
            param_locals: h.param_locals,
            param_names: h.param_names,
            ..g
        }),
        h.loop_header is Some ==> block_in(g, h.loop_header->0),
        h.param_locals == g.locals || h.param_locals == Seq::<LocalV>::empty(),
    ensures
        inside(h),
{
    broadcast use lemma_val_stays, lemma_block_stays, lemma_fn_stays, lemma_locals_stay;

    lemma_same_steps(g, h);
    lemma_nothing(h);
    reveal(sound);
}

proof fn lemma_add_fn(g: GenV, key: Seq<char>, op: OpV)
    requires
        op is AddFunction,
    ensures
        ({
            let h = GenV { fns: g.fns.insert(key, lowering::next(g)), ..lowering::step(g, op) };
            extends(g, h) && (countable(h) && sound(g) ==> sound(h))
        }),
{
    broadcast use group_script;

    let s = lowering::step(g, op);
    let h = GenV { fns: g.fns.insert(key, lowering::next(g)), ..s };
    lemma_same_steps(s, h);
    if countable(h) && sound(g) {
        assert(sound(s));
        reveal(sound);
        assert forall|n: Seq<char>| #[trigger] h.fns.contains_key(n) implies fn_in(h, h.fns[n]) by {
            if n != key {
                assert(g.fns.contains_key(n));
            }
        }
        assert forall|n: Seq<char>| #[trigger] h.consts.contains_key(n) implies val_in(
            h,
            h.consts[n].1,
        ) by {
            assert(s.consts.contains_key(n));
        }
    }
}

proof fn lemma_declare_runtime(fs: Seq<RuntimeFnV>, i: int, g: GenV)
    ensures
        extends(g, lowering::declare_runtime(fs, i, g)),
        countable(lowering::declare_runtime(fs, i, g)) && sound(g) ==> sound(lowering::declare_runtime(fs, i, g)),
    decreases fs.len() - i,
{
    broadcast use group_script;

    lemma_extends_self(g);
    if 0 <= i < fs.len() {
        let f = fs[i];
        let op = OpV::AddFunction { name: f.name, params: f.params, ret: f.ret, vararg: f.vararg };
        lemma_add_fn(g, f.key, op);
        lemma_declare_runtime(fs, i + 1, lowering::declare_one(g, f));
    }
}

proof fn lemma_declare_fn(g: GenV, name: Seq<char>, params: Seq<TypeV>, ret: TypeV)
    ensures
        ({
            let c = lowering::declare_fn(g, name, params, ret);
            c.r is Ok ==> extends(g, c.g) && (countable(c.g) && sound(g) ==> sound(c.g))
        }),
{
    broadcast use group_script;

    if let Ok(ps) = lowering::lower_types(g, params, 0, Seq::empty()) {
        if let Ok(r) = lowering::lower_ret(g, ret) {
            let op = OpV::AddFunction { name, params: ps, ret: r, vararg: false };
            lemma_add_fn(g, name, op);
            let g1 = GenV { fns: g.fns.insert(name, lowering::next(g)), ..lowering::step(g, op) };
            let g2 = GenV { fn_types: g1.fn_types.insert(name, FnSigV { params, ret }), ..g1 };
            lemma_same_steps(g1, g2);
            if sound(g1) {
                lemma_sound_fields(g1, g2);
            }
        }
    }
}

proof fn lemma_declare_methods(ib: ImplBlockV, i: int, g: GenV)
    ensures
        ({
            let c = lowering::declare_methods(ib, i, g);
            c.r is Ok ==> extends(g, c.g) && (countable(c.g) && sound(g) ==> sound(c.g))
        }),
    decreases ib.methods.len() - i,
{
    broadcast use group_script;

    lemma_extends_self(g);
    if 0 <= i < ib.methods.len() {
        let m = ib.methods[i];
        let name = typing::method_symbol(ib.trait_name, ib.for_ty, m.name);
        let c = lowering::declare_fn(g, name, typing::param_types(m.params), m.ret);
        lemma_declare_fn(g, name, typing::param_types(m.params), m.ret);
        lemma_declare_methods(ib, i + 1, c.g);
    }
}

proof fn lemma_declare_items(items: Seq<TopLevelV>, i: int, g: GenV)
    ensures
        ({
            let c = lowering::declare_items(items, i, g);
            c.r is Ok ==> extends(g, c.g) && (countable(c.g) && sound(g) ==> sound(c.g))
        }),
    decreases items.len() - i,
{
    broadcast use group_script;

    lemma_extends_self(g);
    if 0 <= i < items.len() {
        match items[i] {
            TopLevelV::Function(f) => {
                lemma_declare_fn(g, f.name, typing::param_types(f.params), f.ret);
                lemma_declare_items(
                    items,
                    i + 1,
                    lowering::declare_fn(g, f.name, typing::param_types(f.params), f.ret).g,
                );
            },
            TopLevelV::Extern(e) => {
                lemma_declare_fn(g, e.name, typing::param_types(e.params), e.ret);
                lemma_declare_items(
                    items,
                    i + 1,
                    lowering::declare_fn(g, e.name, typing::param_types(e.params), e.ret).g,
                );
            },
            TopLevelV::Impl(ib) => {
                lemma_declare_methods(ib, 0, g);
                lemma_declare_items(items, i + 1, lowering::declare_methods(ib, 0, g).g);
            },
            _ => lemma_declare_items(items, i + 1, g),
        }
    }
}

proof fn lemma_lower_consts(items: Seq<TopLevelV>, i: int, g: GenV)
    ensures
        ({
            let c = lowering::lower_consts(items, i, g);
            c.r is Ok ==> extends(g, c.g) && (countable(c.g) && sound(g) ==> sound(c.g))
        }),
    decreases items.len() - i,
{
    broadcast use group_script;

    lemma_extends_self(g);
    if 0 <= i < items.len() {
        match items[i] {
            TopLevelV::Const(c) => match c.value.kind {
                ExprKindV::Lit(l) => {
                    let (g1, v) = lowering::lower_lit(g, l, c.ty);
                    let g2 = GenV { consts: g1.consts.insert(c.name, (c.ty, v)), ..g1 };
                    lemma_const(g, l, c.ty, c.name);
                    lemma_lower_consts(items, i + 1, g2);
                },
                _ => {},
            },
            _ => lemma_lower_consts(items, i + 1, g),
        }
    }
}

/// What a constant does.
proof fn lemma_const(g: GenV, l: LitV, ty: TypeV, name: Seq<char>)
    ensures
        ({
            let (g1, v) = lowering::lower_lit(g, l, ty);
            let g2 = GenV { consts: g1.consts.insert(name, (ty, v)), ..g1 };
            extends(g, g2) && (countable(g2) && sound(g) ==> sound(g2))
        }),
{
    broadcast use group_script;

    let (g1, v) = lowering::lower_lit(g, l, ty);
    let g2 = GenV { consts: g1.consts.insert(name, (ty, v)), ..g1 };
    lemma_same_steps(g1, g2);
    lemma_extends_self(g);
    lemma_plain_values(g);
    lemma_lower_lit(g, l, ty);
    if countable(g2) && sound(g) {
        if let LitV::Str(s) = l {
            let g0 = lowering::step(
                g,
                OpV::GlobalText { text: s, name: ".str"@ + text::dec(g.str_count as nat) },
            );
            assert(sound(g0));
            lemma_sound_fields(g0, g1);
        }
        assert(sound(g1));
        assert(val_in(g1, v));
        reveal(sound);
        assert forall|n: Seq<char>| #[trigger] g2.consts.contains_key(n) implies val_in(
            g2,
            g2.consts[n].1,
        ) by {
            if n != name {
                assert(g1.consts.contains_key(n));
            }
        }
        assert forall|n: Seq<char>| #[trigger] g2.fns.contains_key(n) implies fn_in(g2, g2.fns[n])
            by {
            assert(g1.fns.contains_key(n));
        }
    }
}

proof fn lemma_lower_methods(ib: ImplBlockV, i: int, g: GenV)
    ensures
        ({
            let c = lowering::lower_methods(ib, i, g);
            c.r is Ok ==> extends(g, c.g) && (countable(c.g) && sound(g) ==> sound(c.g))
        }),
    decreases ib.methods.len() - i,
{
    broadcast use group_script;

    lemma_extends_self(g);
    if 0 <= i < ib.methods.len() {
        let m = ib.methods[i];
        let name = typing::method_symbol(ib.trait_name, ib.for_ty, m.name);
        let c = lowering::lower_function(name, m.params, m.ret, m.body, g);
        lemma_lower_function(name, m.params, m.ret, m.body, g);
        lemma_lower_methods(ib, i + 1, c.g);
    }
}

proof fn lemma_lower_items(items: Seq<TopLevelV>, i: int, g: GenV)
    ensures
        ({
            let c = lowering::lower_items(items, i, g);
            c.r is Ok ==> extends(g, c.g) && (countable(c.g) && sound(g) ==> sound(c.g))
        }),
    decreases items.len() - i,
{
    broadcast use group_script;

    lemma_extends_self(g);
    if 0 <= i < items.len() {
        match items[i] {
            TopLevelV::Function(f) => {
                lemma_lower_function(f.name, f.params, f.ret, f.body, g);
                lemma_lower_items(items, i + 1, lowering::lower_function(f.name, f.params, f.ret, f.body, g).g);
            },
            TopLevelV::Impl(ib) => {
                lemma_lower_methods(ib, 0, g);
                lemma_lower_items(items, i + 1, lowering::lower_methods(ib, 0, g).g);
            },
            _ => lemma_lower_items(items, i + 1, g),
        }
    }
}

/// Every step of a script that a program is lowered to refers only to functions,
/// blocks and values that steps before it make, so that the steps can be carried out
/// one after the other. The steps must be few enough to be counted by a machine word.
pub proof fn law_script_in_order(p: ProgramV, s: CkV, name: Seq<char>)
    ensures
        ({
            let c = lowering::lower_program(p, s, lowering::nothing_built(name));
            c.r is Ok && countable(c.g) ==> script_in_order(lowering::module_of(c.g).ops)
        }),
{
    broadcast use group_script;

    let g = lowering::nothing_built(name);
    assert(sound(g)) by {
        reveal(sound);
        lemma_nothing(g);
    }
    let g0 = GenV {
        structs: s.structs,
        enums: s.enums,
        variants: s.variants,
        externs: s.externs,
        ..g
    };
    lemma_same_steps(g, g0);
    lemma_sound_fields(g, g0);
    let g1 = lowering::declare_runtime(lowering::runtime(), 0, g0);
    lemma_declare_runtime(lowering::runtime(), 0, g0);
    let c = lowering::declare_items(p.items, 0, g1);
    lemma_declare_items(p.items, 0, g1);
    if c.r is Ok {
        let d = lowering::lower_consts(p.items, 0, c.g);
        lemma_lower_consts(p.items, 0, c.g);
        if d.r is Ok {
            let e = lowering::lower_items(p.items, 0, d.g);
            lemma_lower_items(p.items, 0, d.g);
            if e.r is Ok && countable(e.g) {
                assert(script_in_order(e.g.ops)) by {
                    reveal(sound);
                }
            }
        }
    }
}

/// Lowering an expression only adds steps. The function that is built, the target of
/// its tail calls, the loops around the expression and all that the program defines
/// stay as they were.
pub proof fn law_expression_keeps_context(e: ExprV, mode: ValueUse, g: GenV)
    ensures
        ({
            let c = lowering::lower(e, mode, g);
            c.r is Ok ==> g.ops.is_prefix_of(c.g.ops) && same_context(g, c.g)
        }),
{
    lemma_lower_expr(e, mode, g);
    reveal(extends);
}

/// So does lowering an expression in tail position.
pub proof fn law_tail_keeps_context(e: ExprV, ret: TypeV, g: GenV)
    ensures
        ({
            let c = lowering::lower_tail(e, ret, g);
            c.r is Ok ==> g.ops.is_prefix_of(c.g.ops) && same_context(g, c.g)
        }),
{
    lemma_lower_tail(e, ret, g);
    reveal(extends);
}

/// The arguments of a call keep the context.
pub proof fn keeps_args(args: Seq<ExprV>, i: int, acc: Seq<ValV>, g: GenV, msg: Seq<char>)
    ensures
        ({
            let c = lowering::lower_args(args, i, acc, g, msg);
            c.r is Ok ==> same_context(g, c.g)
        }),
{
    lemma_lower_args(args, i, acc, g, msg);
}

/// Releasing variables keeps the context.
pub proof fn keeps_release_locals(
    g: GenV,
    ls: Seq<LocalV>,
    i: int,
    kept: Seq<LocalV>,
    name: Seq<char>,
    again: bool,
)
    ensures
        ({
            let c = lowering::lower_release_locals(g, ls, i, kept, name, again);
            c.r is Ok ==> same_context(g, c.g)
        }),
{
    lemma_lower_release_locals(g, ls, i, kept, name, again);
}

/// New values of parameters keep the context.
pub proof fn keeps_new_params(names: Seq<Seq<char>>, vs: Seq<ValV>, i: int, g: GenV)
    ensures
        ({
            let c = lowering::lower_new_params(names, vs, i, g);
            c.r is Ok ==> same_context(g, c.g)
        }),
{
    lemma_lower_new_params(names, vs, i, g);
}

/// The bindings of a `let` keep the context.
pub proof fn keeps_bindings(bs: Seq<BindingV>, i: int, prev: Seq<Shadowed>, g: GenV)
    ensures
        ({
            let c = lowering::lower_bindings(bs, i, prev, g);
            c.r is Ok ==> same_context(g, c.g)
        }),
{
    lemma_lower_bindings(bs, i, prev, g);
}

/// A `do` in tail position keeps the context up to its last expression.
pub proof fn keeps_tail_do(es: Seq<ExprV>, i: int, g: GenV)
    ensures
        ({
            let c = lowering::lower_tail_do(es, i, g);
            c.r is Ok ==> same_context(g, c.g)
        }),
{
    lemma_lower_tail_do(es, i, g);
}

/// A `break` goes to the exit of the innermost loop, also behind other expressions
/// of the loop's body.
pub proof fn law_break_leaves_innermost_loop(before: ExprV, ty: TypeV, g: GenV, end_bb: usize)
    requires
        g.loop_exits.len() > 0,
        g.loop_exits.last() == end_bb,
    ensures
        ({
            let c = lowering::lower(before, ValueUse::Move, g);
            let d = lowering::lower_form(ExprKindV::Break, ty, ValueUse::Move, c.g);
            c.r is Ok ==> d.r is Ok && d.g.ops == c.g.ops.push(OpV::Br(end_bb)) && d.g.ended
        }),
{
    lemma_lower_expr(before, ValueUse::Move, g);
}

/// An expression in tail position ends its block: nothing of the function comes
/// behind it.
pub proof fn law_tail_ends_block(e: ExprV, ret: TypeV, g: GenV)
    ensures
        ({
            let c = lowering::lower_tail(e, ret, g);
            c.r is Ok ==> c.g.ended
        }),
    decreases e,
{
    match e.kind {
        ExprKindV::If { cond, then_branch, else_branch } => {
            let c = lowering::lower_value(*cond, g, "if cond"@);
            if c.r is Ok {
                let then_bb = lowering::next(c.g);
                let g1 = lowering::block(c.g, "then.tail"@);
                let else_bb = lowering::next(g1);
                let g2 = lowering::block(g1, "else.tail"@);
                let g3 = lowering::step(g2, OpV::CondBr { cond: c.r->Ok_0, yes: then_bb, no: else_bb });
                let t = lowering::lower_tail(*then_branch, ret, lowering::go(g3, then_bb));
                law_tail_ends_block(*else_branch, ret, lowering::go(t.g, else_bb));
            }
        },
        ExprKindV::Let { bindings, body } => {
            law_tail_ends_block(*body, ret, lowering::lower_bindings(bindings, 0, Seq::empty(), g).g);
        },
        ExprKindV::Do(es) => {
            if es.len() > 0 {
                law_tail_ends_block(es.last(), ret, lowering::lower_tail_do(es, 0, g).g);
            }
        },
        _ => {},
    }
}

/// A function that calls itself in tail position jumps back to the start of its body:
/// the last step is a branch to the loop header, behind the steps that evaluate the
/// arguments.
pub proof fn law_tail_self_call_is_a_jump(e: ExprV, args: Seq<ExprV>, ret: TypeV, g: GenV)
    requires
        g.current_fn is Some,
        e.kind == (ExprKindV::Call { callee: g.current_fn->0, args }),
    ensures
        ({
            let c = lowering::lower_tail(e, ret, g);
            let a = lowering::lower_args(args, 0, Seq::empty(), g, "tco arg"@);
            c.r is Ok ==> {
                &&& g.loop_header is Some
                &&& a.r is Ok
                &&& a.g.ops.is_prefix_of(c.g.ops)
                &&& c.g.ops.last() == OpV::Br(g.loop_header->0)
            }
        }),
{
    broadcast use group_script;

    let c = lowering::lower_args(args, 0, Seq::empty(), g, "tco arg"@);
    lemma_lower_args(args, 0, Seq::empty(), g, "tco arg"@);
    if c.r is Ok {
        let vs = c.r->Ok_0;
        let d = lowering::lower_release_locals(c.g, c.g.locals, 0, c.g.param_locals, "tco.drop"@, true);
        lemma_lower_release_locals(c.g, c.g.locals, 0, c.g.param_locals, "tco.drop"@, true);
        if d.r is Ok {
            let x = lowering::lower_new_params(d.g.param_names, vs, 0, d.g);
            lemma_lower_new_params(d.g.param_names, vs, 0, d.g);
            if x.r is Ok && g.loop_header is Some {
                let g2 = lowering::step(x.g, OpV::Br(g.loop_header->0));
                assert(extends(c.g, g2));
                reveal(extends);
            }
        }
    }
}

/// `and` and `or` evaluate their second operand only if the first leaves it open:
/// behind the first operand, control branches on it to the block of the second
/// operand or past it, and where that block is passed over, the result is the value
/// that the first operand decides.
pub proof fn law_second_operand_is_skipped(is_and: bool, args: Seq<ExprV>, g: GenV)
    requires
        args.len() >= 2,
    ensures
        ({
            let a = lowering::lower_value(args[0], g, if is_and { "and lhs"@ } else { "or lhs"@ });
            let c = lowering::lower_short(is_and, args, g);
            let n = a.g.ops.len() as int;
            let rhs = lowering::next(a.g);
            let merge = lowering::next(lowering::block(a.g, if is_and { "and.rhs"@ } else { "or.rhs"@ }));
            c.r is Ok ==> {
                &&& a.r is Ok
                &&& a.g.ops.is_prefix_of(c.g.ops)
                &&& n + 4 < c.g.ops.len()
                &&& c.g.ops[n + 2] == (OpV::CondBr {
                    cond: a.r->Ok_0,
                    yes: if is_and { rhs } else { merge },
                    no: if is_and { merge } else { rhs },
                })
                &&& c.g.ops[n + 3] == OpV::PositionAt(rhs)
                &&& c.g.ops.last() is Phi
                &&& c.g.ops.last()->incoming[0] == (
                    ValV::Int(Prim::I1, if is_and { 0 } else { 1 }),
                    a.g.block,
                )
            }
        }),
{
    let a = lowering::lower_value(args[0], g, if is_and { "and lhs"@ } else { "or lhs"@ });
    if a.r is Ok {
        let n = a.g.ops.len() as int;
        let v = a.r->Ok_0;
        let rhs_bb = lowering::next(a.g);
        let g1 = lowering::block(a.g, if is_and { "and.rhs"@ } else { "or.rhs"@ });
        let merge_bb = lowering::next(g1);
        let g2 = lowering::block(g1, if is_and { "and.end"@ } else { "or.end"@ });
        let g3 = if is_and {
            lowering::step(g2, OpV::CondBr { cond: v, yes: rhs_bb, no: merge_bb })
        } else {
            lowering::step(g2, OpV::CondBr { cond: v, yes: merge_bb, no: rhs_bb })
        };
        let h = lowering::go(g3, rhs_bb);
        let d = lowering::lower_value(args[1], h, if is_and { "and rhs"@ } else { "or rhs"@ });
        lemma_lower_value(args[1], h, if is_and { "and rhs"@ } else { "or rhs"@ });
        if d.r is Ok {
            let c = lowering::lower_short(is_and, args, g);
            assert(h.ops.is_prefix_of(d.g.ops)) by {
                reveal(extends);
            }
            let end = lowering::step(d.g, OpV::Br(merge_bb)).ops.push(OpV::PositionAt(merge_bb));
            assert(c.g.ops == end.push(c.g.ops.last()));
            assert forall|i: int| 0 <= i < h.ops.len() implies c.g.ops[i] == #[trigger] h.ops[i] by {
                assert(d.g.ops[i] == h.ops[i]);
            }
            assert(a.g.ops.is_prefix_of(c.g.ops)) by {
                assert(a.g.ops =~= c.g.ops.subrange(0, n)) by {
                    assert forall|i: int| 0 <= i < n implies a.g.ops[i] == c.g.ops[i] by {
                        assert(h.ops[i] == a.g.ops[i]);
                    }
                }
            }
            assert(c.g.ops[n + 2] == h.ops[n + 2]);
            assert(c.g.ops[n + 3] == h.ops[n + 3]);
        }
    }
}

/// Whether step `k` loads a slot and the next one releases what was loaded.
pub open spec fn released_at(ops: Seq<OpV>, k: int, ptr: ValV, release: usize) -> bool {
    &&& 0 <= k && k + 1 < ops.len()
    &&& (ops[k] matches OpV::Load { ptr: p, .. } && p == ptr)
    &&& ops[k + 1] is Call && ops[k + 1]->Call_func == release
    &&& ops[k + 1]->Call_args == seq![ValV::Reg(k as usize)]
}

/// Reading a string variable takes one more reference: what is loaded is retained
/// before it is used.
pub proof fn law_read_string_is_retained(g: GenV, name: Seq<char>)
    requires
        lowering::find_local(g.locals, name) matches Some(l) && l.ty is Str,
        g.fns.contains_key("risp_str_retain"@),
    ensures
        ({
            let c = lowering::lower_var(g, name, ValueUse::Move);
            let n = g.ops.len() as int;
            &&& c.r == Ok::<ValV, CodegenErrorV>(ValV::Reg((n + 1) as usize))
            &&& c.g.ops.len() == n + 2
            &&& (c.g.ops[n] matches OpV::Load { ptr, .. } && ptr == lowering::find_local(
                g.locals,
                name,
            )->0.ptr)
            &&& c.g.ops[n + 1] == (OpV::Call {
                func: g.fns["risp_str_retain"@],
                args: seq![ValV::Reg(n as usize)],
                name: "risp_str_retain"@,
            })
        }),
{
}

/// A string variable that is assigned gives up the string that it had: that is
/// released before the new one is stored.
pub proof fn law_assigned_string_is_released(g: GenV, ptr: ValV, v: ValV)
    requires
        g.fns.contains_key("risp_str_release"@),
    ensures
        ({
            let c = lowering::lower_store(g, ptr, v, TypeV::Str);
            let n = g.ops.len() as int;
            &&& c.r is Ok
            &&& c.g.ops.len() == n + 3
            &&& released_at(c.g.ops, n, ptr, g.fns["risp_str_release"@])
            &&& c.g.ops[n + 2] == (OpV::Store { ptr, val: v })
        }),
{
}

proof fn lemma_released(
    g: GenV,
    ls: Seq<LocalV>,
    i: int,
    kept: Seq<LocalV>,
    name: Seq<char>,
    again: bool,
    j: int,
)
    requires
        0 <= i <= j < ls.len(),
        ls[j].ty is Str,
        lowering::find_local(kept, ls[j].name) is None,
        g.fns.contains_key("risp_str_release"@),
    ensures
        ({
            let c = lowering::lower_release_locals(g, ls, i, kept, name, again);
            c.r is Ok ==> exists|k: int|
                #[trigger] released_at(c.g.ops, k, ls[j].ptr, g.fns["risp_str_release"@])
        }),
    decreases ls.len() - i,
{
    broadcast use group_script;

    if lowering::needs_drop(ls[i].ty) && lowering::find_local(kept, ls[i].name) is None {
        let c = lowering::lower_release(g, ls[i].ptr, ls[i].ty, name);
        lemma_lower_release(g, ls[i].ptr, ls[i].ty, name);
        if c.r is Ok {
            let empty = lowering::step(c.g, OpV::Store { ptr: ls[i].ptr, val: ValV::Null });
            let h = if again { empty } else { c.g };
            lemma_extends_self(c.g);
            if i == j {
                let n = g.ops.len() as int;
                let d = lowering::lower_release_locals(h, ls, i + 1, kept, name, again);
                lemma_lower_release_locals(h, ls, i + 1, kept, name, again);
                assert(extends(c.g, h));
                assert(released_at(c.g.ops, n, ls[j].ptr, g.fns["risp_str_release"@]));
                if d.r is Ok {
                    reveal(extends);
                    assert(d.g.ops[n] == c.g.ops[n]);
                    assert(d.g.ops[n + 1] == c.g.ops[n + 1]);
                    assert(released_at(d.g.ops, n, ls[j].ptr, g.fns["risp_str_release"@]));
                }
            } else {
                lemma_released(h, ls, i + 1, kept, name, again, j);
            }
        }
    } else {
        lemma_released(g, ls, i + 1, kept, name, again, j);
    }
}

/// A function gives up all strings that its variables hold before it returns.
pub proof fn law_return_releases_strings(g: GenV, v: Option<ValV>, ret: TypeV, j: int)
    requires
        0 <= j < g.locals.len(),
        g.locals[j].ty is Str,
        g.fns.contains_key("risp_str_release"@),
    ensures
        ({
            let c = lowering::lower_return(g, v, ret);
            c.r is Ok ==> exists|k: int|
                #[trigger] released_at(c.g.ops, k, g.locals[j].ptr, g.fns["risp_str_release"@])
        }),
{
    let c = lowering::lower_release_locals(g, g.locals, 0, Seq::empty(), "drop.local"@, false);
    lemma_released(g, g.locals, 0, Seq::empty(), "drop.local"@, false, j);
    let d = lowering::lower_return(g, v, ret);
    if d.r is Ok {
        let release = g.fns["risp_str_release"@];
        let ptr = g.locals[j].ptr;
        let k = choose|k: int| #[trigger] released_at(c.g.ops, k, ptr, release);
        assert(d.g.ops[k] == c.g.ops[k]);
        assert(d.g.ops[k + 1] == c.g.ops[k + 1]);
        assert(released_at(d.g.ops, k, ptr, release));
    }
}

/// Every script that the compiler hands out refers back only.
pub proof fn law_compiled_script_in_order(
    file: Seq<char>,
    src: Seq<char>,
    e: EntryV,
    files: FilesV,
)
    ensures
        driver::compiled(file, src, e, files) matches Ok(m) ==> (m.ops.len() <= usize::MAX
            ==> script_in_order(m.ops)),
{
    if let Ok(p) = grammar::parse_text(src) {
        let (q, stop) = resolve::resolved(p, e, files);
        if let Ok((n, s)) = driver::checked(file, src, q, true) {
            law_script_in_order(n, s, resolve::entry_name(e));
        }
    }
}

} // verus!
