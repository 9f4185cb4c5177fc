//! Laws of the blocks that the code generator builds: where building goes on, and which
//! blocks it fills.
use crate::ast::{BindingV, ExprKindV, ExprV, FieldDefV, LitV, MatchArmV, TypeV};
use crate::ir::{LTyV, OpV, Prim, ValV};
use crate::lowering::{GenV, Shadowed, ValueUse};
use crate::lowering;
use crate::typing::VariantInfoV;
use vstd::prelude::*;

verus! {

pub open spec fn countable(g: GenV) -> bool {
    g.ops.len() <= usize::MAX
}

/// Whether from `g` on only blocks that were made from step `n` on are filled, and building
/// stays in the block that it is in or goes to such a block.
#[verifier::opaque]
pub open spec fn since(n: int, g: GenV, h: GenV) -> bool {
    &&& n <= g.ops.len()
    &&& g.ops.is_prefix_of(h.ops)
    &&& countable(h) ==> {
        &&& h.block == g.block || n <= h.block < h.ops.len()
        &&& forall|i: int|
            g.ops.len() <= i < h.ops.len() ==> ((#[trigger] h.ops[i]) matches OpV::PositionAt(bb)
                ==> n <= bb)
    }
}

/// Whether from `g` on only new blocks are filled.
#[verifier::opaque]
pub open spec fn fills(g: GenV, h: GenV) -> bool {
    since(g.ops.len() as int, g, h)
}

broadcast proof fn lemma_fills_grows(g: GenV, h: GenV)
    requires
        #[trigger] fills(g, h),
    ensures
        g.ops.len() <= h.ops.len(),
{
    reveal(fills);
    reveal(since);
}

broadcast proof fn lemma_since_grows(n: int, g: GenV, h: GenV)
    requires
        #[trigger] since(n, g, h),
    ensures
        n <= g.ops.len() <= h.ops.len(),
{
    reveal(since);
}

proof fn lemma_since_same(n: int, a: GenV, b: GenV, c: GenV)
    requires
        since(n, a, b),
        c.ops == b.ops,
        c.block == b.block,
    ensures
        since(n, a, c),
{
    reveal(since);
}

proof fn lemma_fills_same(g: GenV, h: GenV)
    requires
        g.ops == h.ops,
        g.block == h.block,
    ensures
        fills(g, h),
{
    reveal(fills);
    reveal(since);
}

proof fn to_since(n: int, g: GenV, h: GenV)
    requires
        fills(g, h),
        n <= g.ops.len(),
    ensures
        since(n, g, h),
{
    reveal(fills);
    reveal(since);
}

proof fn from_since(g: GenV, h: GenV)
    requires
        since(g.ops.len() as int, g, h),
    ensures
        fills(g, h),
{
    reveal(fills);
}

broadcast proof fn lemma_fills_on(a: GenV, b: GenV, c: GenV)
    requires
        #[trigger] fills(a, b),
        #[trigger] fills(b, c),
    ensures
        fills(a, c),
{
    reveal(fills);
    reveal(since);
    assert(a.ops =~= c.ops.subrange(0, a.ops.len() as int));
    if countable(c) {
        assert forall|i: int| a.ops.len() <= i < c.ops.len() implies ((#[trigger] c.ops[i]) matches OpV::PositionAt(bb)
            ==> a.ops.len() <= bb) by {
            if i < b.ops.len() {
                assert(b.ops[i] == c.ops[i]);
            }
        }
    }
}

broadcast proof fn lemma_since_on(n: int, a: GenV, b: GenV, c: GenV)
    requires
        #[trigger] since(n, a, b),
        #[trigger] fills(b, c),
    ensures
        since(n, a, c),
{
    reveal(fills);
    reveal(since);
    assert(a.ops =~= c.ops.subrange(0, a.ops.len() as int));
    if countable(c) {
        assert forall|i: int| a.ops.len() <= i < c.ops.len() implies ((#[trigger] c.ops[i]) matches OpV::PositionAt(bb)
            ==> n <= bb) by {
            if i < b.ops.len() {
                assert(b.ops[i] == c.ops[i]);
            }
        }
    }
}

broadcast proof fn lemma_fills_step(g: GenV, op: OpV)
    requires
        !(op is PositionAt),
    ensures
        fills(g, #[trigger] lowering::step(g, op)),
{
    reveal(fills);
    reveal(since);
    let h = lowering::step(g, op);
    assert(g.ops =~= h.ops.subrange(0, g.ops.len() as int));
}

broadcast proof fn lemma_fills_text(g: GenV, s: Seq<char>)
    ensures
        fills(g, #[trigger] lowering::lower_text(g, s)),
{
    reveal(fills);
    reveal(since);
    let h = lowering::lower_text(g, s);
    assert(g.ops =~= h.ops.subrange(0, g.ops.len() as int));
}

broadcast proof fn lemma_since_go(n: int, a: GenV, b: GenV, bb: usize)
    requires
        #[trigger] since(n, a, b),
        n <= bb < b.ops.len() || !countable(b),
    ensures
        since(n, a, #[trigger] lowering::go(b, bb)),
{
    reveal(since);
    let c = lowering::go(b, bb);
    assert(a.ops =~= c.ops.subrange(0, a.ops.len() as int));
    if countable(c) {
        assert forall|i: int| a.ops.len() <= i < c.ops.len() implies ((#[trigger] c.ops[i]) matches OpV::PositionAt(x)
            ==> n <= x) by {
            if i < b.ops.len() {
                assert(b.ops[i] == c.ops[i]);
            }
        }
    }
}

broadcast group group_blocks {
    lemma_fills_grows,
    lemma_since_grows,
    lemma_fills_on,
    lemma_since_on,
    lemma_fills_step,
    lemma_fills_text,
    lemma_since_go,
}

proof fn lemma_fills_self(g: GenV)
    ensures
        fills(g, g),
{
    lemma_fills_same(g, g);
}

proof fn fill_lit(g: GenV, l: LitV, ty: TypeV)
    ensures
        fills(g, lowering::lower_lit(g, l, ty).0),
{
    broadcast use group_blocks;

    lemma_fills_self(g);
}

pub proof fn fill_slot(g: GenV, name: Seq<char>, ty: TypeV)
    ensures
        lowering::lower_slot(g, name, ty).r is Ok ==> fills(g, lowering::lower_slot(g, name, ty).g),
{
    broadcast use group_blocks;

    lemma_fills_self(g);


}

proof fn fill_rt(g: GenV, fname: Seq<char>, args: Seq<ValV>, name: Seq<char>)
    ensures
        lowering::lower_rt(g, fname, args, name).r is Ok ==> fills(g, lowering::lower_rt(g, fname, args, name).g),
{
    broadcast use group_blocks;

    lemma_fills_self(g);

}

proof fn fill_drop(g: GenV, v: ValV, ty: TypeV)
    ensures
        lowering::lower_drop(g, v, ty).r is Ok ==> fills(g, lowering::lower_drop(g, v, ty).g),
{
    broadcast use group_blocks;

    lemma_fills_self(g);

    fill_rt(g, "risp_str_release"@, seq![v], "risp_str_release"@);
}

proof fn fill_retain(g: GenV, v: ValV, ty: TypeV)
    ensures
        lowering::lower_retain(g, v, ty).r is Ok ==> fills(g, lowering::lower_retain(g, v, ty).g),
{
    broadcast use group_blocks;

    lemma_fills_self(g);

    fill_rt(g, "risp_str_retain"@, seq![v], "risp_str_retain"@);
}

proof fn fill_load(g: GenV, ptr: ValV, ty: TypeV, name: Seq<char>)
    ensures
        lowering::lower_load(g, ptr, ty, name).r is Ok ==> fills(g, lowering::lower_load(g, ptr, ty, name).g),
{
    broadcast use group_blocks;

    lemma_fills_self(g);


}

proof fn fill_release(g: GenV, ptr: ValV, ty: TypeV, name: Seq<char>)
    ensures
        lowering::lower_release(g, ptr, ty, name).r is Ok ==> fills(g, lowering::lower_release(g, ptr, ty, name).g),
{
    broadcast use group_blocks;

    lemma_fills_self(g);

    let c = lowering::lower_load(g, ptr, ty, name);
    fill_load(g, ptr, ty, name);
    if c.r is Ok {
        fill_drop(c.g, c.r->Ok_0, ty);
    }
}

pub proof fn fill_store(g: GenV, ptr: ValV, v: ValV, ty: TypeV)
    ensures
        lowering::lower_store(g, ptr, v, ty).r is Ok ==> fills(g, lowering::lower_store(g, ptr, v, ty).g),
{
    broadcast use group_blocks;

    lemma_fills_self(g);

    fill_release(g, ptr, ty, "old.owned"@);
}

proof fn fill_load_owned(g: GenV, ptr: ValV, ty: TypeV, mode: ValueUse)
    ensures
        lowering::lower_load_owned(g, ptr, ty, mode).r is Ok ==> fills(g, lowering::lower_load_owned(g, ptr, ty, mode).g),
{
    broadcast use group_blocks;

    lemma_fills_self(g);

    let c = lowering::lower_load(g, ptr, ty, "load.owned"@);
    fill_load(g, ptr, ty, "load.owned"@);
    if c.r is Ok {
        fill_retain(c.g, c.r->Ok_0, ty);
    }
}

proof fn fill_var(g: GenV, name: Seq<char>, mode: ValueUse)
    ensures
        lowering::lower_var(g, name, mode).r is Ok ==> fills(g, lowering::lower_var(g, name, mode).g),
{
    broadcast use group_blocks;

    lemma_fills_self(g);

    match lowering::find_local(g.locals, name) {
        Some(l) => {
            fill_load_owned(g, l.ptr, l.ty, mode);
            fill_load(g, l.ptr, l.ty, name);
        },
        None => {
            if g.consts.contains_key(name) {
                let v = g.consts[name].1;
                fill_rt(g, "risp_str_from_cstr"@, seq![v], "risp_str_from_cstr"@);
            }
        },
    }
}

proof fn fill_value(e: ExprV, g: GenV, msg: Seq<char>)
    ensures
        lowering::lower_value(e, g, msg).r is Ok ==> fills(g, lowering::lower_value(e, g, msg).g),
    decreases e, 10int,
{
    broadcast use group_blocks;

    lemma_fills_self(g);

    fill_expr(e, ValueUse::Move, g);
}

proof fn fill_expr(e: ExprV, mode: ValueUse, g: GenV)
    ensures
        lowering::lower(e, mode, g).r is Ok ==> fills(g, lowering::lower(e, mode, g).g),
    decreases e, 9int,
{
    broadcast use group_blocks;

    lemma_fills_self(g);

    if let Some(ty) = e.ty {
        fill_form(e.kind, ty, mode, g);
    }
}

proof fn fill_form(k: ExprKindV, ty: TypeV, mode: ValueUse, g: GenV)
    ensures
        lowering::lower_form(k, ty, mode, g).r is Ok ==> fills(g, lowering::lower_form(k, ty, mode, g).g),
    decreases k, 8int,
{
    broadcast use group_blocks;

    lemma_fills_self(g);

    match k {
        ExprKindV::Lit(l) => {
            let (g1, v) = lowering::lower_lit(g, l, ty);
            fill_lit(g, l, ty);
            fill_rt(g1, "risp_str_from_cstr"@, seq![v], "risp_str_from_cstr"@);
        },
        ExprKindV::Var(name) => fill_var(g, name, mode),
        ExprKindV::If { .. } => fill_if(k, ty, g),
        ExprKindV::Let { .. } => fill_let(k, g),
        ExprKindV::Do(es) => fill_do(es, 0, None, g),
        ExprKindV::Cast { .. } => fill_cast_form(k, g),
        ExprKindV::Assign { .. } => fill_assign(k, g),
        ExprKindV::While { .. } => fill_while(k, g),
        ExprKindV::Loop { .. } => fill_loop(k, g),
        ExprKindV::Break => {
        },
        ExprKindV::ArrayLit { elem_ty, elems } => fill_array(elem_ty, elems, g),
        ExprKindV::Field { .. } => fill_field(k, g),
        ExprKindV::Match { .. } => fill_match(k, ty, g),
        ExprKindV::Call { callee, args } => fill_call(callee, args, ty, g),
    }
}

pub proof fn fill_let_end(bs: Seq<BindingV>, n: int, g: GenV)
    ensures
        lowering::lower_let_end(bs, n, g).r is Ok ==> fills(g, lowering::lower_let_end(bs, n, g).g),
    decreases n,
{
    broadcast use group_blocks;

    lemma_fills_self(g);

    if 0 < n <= bs.len() {
        let b = bs[n - 1];
        if let Some(l) = lowering::find_local(g.locals, b.name) {
            let c = lowering::lower_release(g, l.ptr, b.ty, "letscope.drop"@);
            fill_release(g, l.ptr, b.ty, "letscope.drop"@);
            fill_let_end(bs, n - 1, lowering::step(c.g, OpV::Store { ptr: l.ptr, val: ValV::Null }));
        }
        fill_let_end(bs, n - 1, g);
    }
}

pub proof fn fill_unused(g: GenV, e: ExprV, v: Option<ValV>)
    ensures
        lowering::lower_unused(g, e, v).r is Ok ==> fills(g, lowering::lower_unused(g, e, v).g),
{
    broadcast use group_blocks;

    lemma_fills_self(g);

    if let (Some(ty), Some(x)) = (e.ty, v) {
        fill_drop(g, x, ty);
    }
}

pub proof fn fill_do(es: Seq<ExprV>, i: int, last: Option<ValV>, g: GenV)
    requires
        last is None,
    ensures
        lowering::lower_do(es, i, last, g).r is Ok ==> fills(g, lowering::lower_do(es, i, last, g).g),
    decreases es, es.len() - i,
{
    broadcast use group_blocks;

    lemma_fills_self(g);

    if 0 <= i < es.len() && !g.ended {
        let c = lowering::lower(es[i], ValueUse::Move, g);
        fill_expr(es[i], ValueUse::Move, g);
        if c.r is Ok && i != es.len() - 1 {
            let d = lowering::lower_unused(c.g, es[i], c.r->Ok_0);
            fill_unused(c.g, es[i], c.r->Ok_0);
            fill_do(es, i + 1, last, d.g);
        }
    }
}

proof fn fill_cast_form(k: ExprKindV, g: GenV)
    requires
        k is Cast,
    ensures
        lowering::lower_cast_form(k, g).r is Ok ==> fills(g, lowering::lower_cast_form(k, g).g),
    decreases k, 7int,
{
    broadcast use group_blocks;

    lemma_fills_self(g);

    if let ExprKindV::Cast { ty, expr } = k {
        fill_value(*expr, g, "cast expr"@);
    }
}

proof fn fill_elems(at: LTyV, slot: ValV, es: Seq<ExprV>, i: int, g: GenV)
    ensures
        lowering::lower_elems(at, slot, es, i, g).r is Ok ==> fills(g, lowering::lower_elems(at, slot, es, i, g).g),
    decreases es, es.len() - i,
{
    broadcast use group_blocks;

    lemma_fills_self(g);

    if 0 <= i < es.len() {
        let c = lowering::lower_value(es[i], g, "array elem"@);
        fill_value(es[i], g, "array elem"@);
        if c.r is Ok {
            let index = ValV::Int(Prim::I32, i as i64);
            let g1 = lowering::step(c.g, OpV::ElemPtr { ty: at, ptr: slot, index, name: "elemptr"@ });
            let g2 = lowering::step(g1, OpV::Store { ptr: lowering::made(c.g), val: c.r->Ok_0 });
            fill_elems(at, slot, es, i + 1, g2);
        }
    }
}

proof fn fill_array(elem_ty: TypeV, elems: Seq<ExprV>, g: GenV)
    ensures
        lowering::lower_array(elem_ty, elems, g).r is Ok ==> fills(g, lowering::lower_array(elem_ty, elems, g).g),
    decreases elems, elems.len() + 1,
{
    broadcast use group_blocks;

    lemma_fills_self(g);

    if let Ok(at) = lowering::lower_array_type(elem_ty, elems.len() as u32) {
        let g1 = lowering::step(g, OpV::EntryAlloca { func: g.func, ty: at, name: "arrtmp"@, zeroed: false });
        fill_elems(at, lowering::made(g), elems, 0, g1);
    }
}

proof fn fill_field(k: ExprKindV, g: GenV)
    requires
        k is Field,
    ensures
        lowering::lower_field(k, g).r is Ok ==> fills(g, lowering::lower_field(k, g).g),
    decreases k, 7int,
{
    broadcast use group_blocks;

    lemma_fills_self(g);

    if let ExprKindV::Field { base, field } = k {
        if let Some(TypeV::Named(n)) = base.ty {
            let fields = g.structs[n].fields;
            if let Some(i) = lowering::field_at(fields, field, 0) {
                match lowering::as_var(*base) {
                    Some(name) => {
                        if let Some(l) = lowering::find_local(g.locals, name) {
                            if let Ok(st) = lowering::lower_type(g, TypeV::Named(n)) {
                                let g1 = lowering::step(
                                    g,
                                    OpV::FieldPtr {
                                        ty: st,
                                        ptr: l.ptr,
                                        index: i as u32,
                                        name: field,
                                    },
                                );
                                let c = lowering::lower_load(g1, lowering::made(g), fields[i].ty, field);
                                fill_load(g1, lowering::made(g), fields[i].ty, field);
                                if c.r is Ok {
                                    fill_retain(c.g, c.r->Ok_0, fields[i].ty);
                                }
                            }
                        }
                    },
                    None => {
                        let c = lowering::lower_value(*base, g, "field base"@);
                        fill_value(*base, g, "field base"@);
                        if c.r is Ok {
                            let g1 = lowering::step(
                                c.g,
                                OpV::Extract { agg: c.r->Ok_0, index: i as u32, name: field },
                            );
                            fill_retain(g1, lowering::made(c.g), fields[i].ty);
                        }
                    },
                }
            }
        }
    }
}

pub proof fn fill_pack(g: GenV, v: ValV, ty: TypeV)
    ensures
        lowering::lower_pack(g, v, ty).r is Ok ==> fills(g, lowering::lower_pack(g, v, ty).g),
{
    broadcast use group_blocks;

    lemma_fills_self(g);


}

proof fn fill_unpack(g: GenV, bits: ValV, ty: TypeV)
    ensures
        lowering::lower_unpack(g, bits, ty).r is Ok ==> fills(g, lowering::lower_unpack(g, bits, ty).g),
{
    broadcast use group_blocks;

    lemma_fills_self(g);


}

proof fn fill_args(args: Seq<ExprV>, i: int, acc: Seq<ValV>, g: GenV, msg: Seq<char>)
    ensures
        lowering::lower_args(args, i, acc, g, msg).r is Ok ==> fills(g, lowering::lower_args(args, i, acc, g, msg).g),
    decreases args, args.len() - i,
{
    broadcast use group_blocks;

    lemma_fills_self(g);

    if 0 <= i < args.len() {
        let c = lowering::lower_value(args[i], g, msg);
        fill_value(args[i], g, msg);
        if c.r is Ok {
            fill_args(args, i + 1, acc.push(c.r->Ok_0), c.g, msg);
        }
    }
}

pub proof fn fill_fold(op: Seq<char>, args: Seq<ExprV>, i: int, acc: ValV, ty: TypeV, g: GenV)
    ensures
        lowering::lower_fold(op, args, i, acc, ty, g).r is Ok ==> fills(g, lowering::lower_fold(op, args, i, acc, ty, g).g),
    decreases args, args.len() - i,
{
    broadcast use group_blocks;

    lemma_fills_self(g);

    if 0 <= i < args.len() {
        let c = lowering::lower_value(args[i], g, "arith rhs"@);
        fill_value(args[i], g, "arith rhs"@);
        if c.r is Ok {
            let d = lowering::lower_bin(c.g, op, acc, c.r->Ok_0, ty);
            if d.r is Ok {
                fill_fold(op, args, i + 1, d.r->Ok_0, ty, d.g);
            }
        }
    }
}

proof fn fill_arith(op: Seq<char>, args: Seq<ExprV>, ty: TypeV, g: GenV)
    ensures
        lowering::lower_arith(op, args, ty, g).r is Ok ==> fills(g, lowering::lower_arith(op, args, ty, g).g),
    decreases args, args.len() + 1,
{
    broadcast use group_blocks;

    lemma_fills_self(g);

    if args.len() > 0 {
        fill_value(args[0], g, "unary -"@);
        fill_value(args[0], g, "arith identity"@);
        let c = lowering::lower_value(args[0], g, "arith lhs"@);
        fill_value(args[0], g, "arith lhs"@);
        if c.r is Ok {
            fill_fold(op, args, 1, c.r->Ok_0, ty, c.g);
        }
    }
}

proof fn fill_test(op: Seq<char>, args: Seq<ExprV>, g: GenV)
    ensures
        lowering::lower_test(op, args, g).r is Ok ==> fills(g, lowering::lower_test(op, args, g).g),
    decreases args, args.len() + 1,
{
    broadcast use group_blocks;

    lemma_fills_self(g);

    if args.len() >= 2 {
        let c = lowering::lower_value(args[0], g, "operand"@);
        fill_value(args[0], g, "operand"@);
        if c.r is Ok {
            fill_value(args[1], c.g, "operand"@);
        }
    }
}

proof fn fill_not(args: Seq<ExprV>, g: GenV)
    ensures
        lowering::lower_not(args, g).r is Ok ==> fills(g, lowering::lower_not(args, g).g),
    decreases args, args.len() + 1,
{
    broadcast use group_blocks;

    lemma_fills_self(g);

    if args.len() > 0 {
        fill_value(args[0], g, "operand"@);
    }
}

pub proof fn fill_print_arg(g: GenV, v: ValV, ty: TypeV)
    ensures
        lowering::lower_print_arg(g, v, ty).r is Ok ==> fills(g, lowering::lower_print_arg(g, v, ty).g),
{
    broadcast use group_blocks;

    lemma_fills_self(g);

    if ty is Bool {
    }
}

pub proof fn fill_print_str(g: GenV, v: ValV, newline: bool)
    ensures
        lowering::lower_print_str(g, v, newline).r is Ok ==> fills(g, lowering::lower_print_str(g, v, newline).g),
{
    broadcast use group_blocks;

    lemma_fills_self(g);

    let c = lowering::lower_rt(g, "risp_str_cstr"@, seq![v], "risp_str_cstr"@);
    fill_rt(g, "risp_str_cstr"@, seq![v], "risp_str_cstr"@);
    if c.r is Ok {
        let cstr = c.r->Ok_0;
        if newline {
            let d = lowering::lower_rt(c.g, "__puts"@, seq![cstr], "putscall"@);
            fill_rt(c.g, "__puts"@, seq![cstr], "putscall"@);
            fill_drop(d.g, v, TypeV::Str);
        } else {
            let g1 = lowering::lower_text(c.g, "%s"@);
            let args = seq![lowering::made(c.g), cstr];
            let d = lowering::lower_rt(g1, "__printf"@, args, "printfcall"@);
            fill_rt(g1, "__printf"@, args, "printfcall"@);
            fill_drop(d.g, v, TypeV::Str);
        }
    }
}

proof fn fill_print(args: Seq<ExprV>, newline: bool, g: GenV)
    ensures
        lowering::lower_print(args, newline, g).r is Ok ==> fills(g, lowering::lower_print(args, newline, g).g),
    decreases args, args.len() + 1,
{
    broadcast use group_blocks;

    lemma_fills_self(g);

    if args.len() > 0 {
        if let Some(ty) = args[0].ty {
            let c = lowering::lower_value(args[0], g, "print arg"@);
            fill_value(args[0], g, "print arg"@);
            if c.r is Ok {
                let v = c.r->Ok_0;
                fill_print_str(c.g, v, newline);
                let d = lowering::lower_print_arg(c.g, v, ty);
                fill_print_arg(c.g, v, ty);
                if d.r is Ok {
                    let fmt = if newline {
                        d.r->Ok_0.0 + "\n"@
                    } else {
                        d.r->Ok_0.0
                    };
                    let h = lowering::lower_text(d.g, fmt);
                    let vs = seq![lowering::made(d.g), d.r->Ok_0.1];
                    fill_rt(h, "__printf"@, vs, "printfcall"@);
                }
            }
        }
    }
}

proof fn fill_concat(args: Seq<ExprV>, g: GenV)
    ensures
        lowering::lower_concat(args, g).r is Ok ==> fills(g, lowering::lower_concat(args, g).g),
    decreases args, args.len() + 1,
{
    broadcast use group_blocks;

    lemma_fills_self(g);

    if args.len() >= 2 {
        let c = lowering::lower_value(args[0], g, "str-concat a"@);
        fill_value(args[0], g, "str-concat a"@);
        if c.r is Ok {
            let d = lowering::lower_value(args[1], c.g, "str-concat b"@);
            fill_value(args[1], c.g, "str-concat b"@);
            if d.r is Ok {
                let (a, b) = (c.r->Ok_0, d.r->Ok_0);
                let x = lowering::lower_rt(d.g, "risp_str_concat"@, seq![a, b], "strconcat"@);
                fill_rt(d.g, "risp_str_concat"@, seq![a, b], "strconcat"@);
                let y = lowering::lower_drop(x.g, a, TypeV::Str);
                fill_drop(x.g, a, TypeV::Str);
                fill_drop(y.g, b, TypeV::Str);
            }
        }
    }
}

proof fn fill_str_len(args: Seq<ExprV>, g: GenV)
    ensures
        lowering::lower_str_len(args, g).r is Ok ==> fills(g, lowering::lower_str_len(args, g).g),
    decreases args, args.len() + 1,
{
    broadcast use group_blocks;

    lemma_fills_self(g);

    if args.len() > 0 {
        let c = lowering::lower_value(args[0], g, "str-len"@);
        fill_value(args[0], g, "str-len"@);
        if c.r is Ok {
            let a = c.r->Ok_0;
            let x = lowering::lower_rt(c.g, "risp_str_len"@, seq![a], "strlen"@);
            fill_rt(c.g, "risp_str_len"@, seq![a], "strlen"@);
            fill_drop(x.g, a, TypeV::Str);
        }
    }
}

proof fn fill_aget(args: Seq<ExprV>, g: GenV)
    ensures
        lowering::lower_aget(args, g).r is Ok ==> fills(g, lowering::lower_aget(args, g).g),
    decreases args, args.len() + 1,
{
    broadcast use group_blocks;

    lemma_fills_self(g);

    if args.len() >= 2 {
        if let Some(TypeV::Array { elem, len }) = args[0].ty {
            let c = lowering::lower_value(args[0], g, "aget arr"@);
            fill_value(args[0], g, "aget arr"@);
            if c.r is Ok {
                let d = lowering::lower_value(args[1], c.g, "aget idx"@);
                fill_value(args[1], c.g, "aget idx"@);
                if d.r is Ok {
                    if let Ok(at) = lowering::lower_array_type(*elem, len) {
                        let op = OpV::ElemPtr {
                            ty: at,
                            ptr: c.r->Ok_0,
                            index: d.r->Ok_0,
                            name: "agetptr"@,
                        };
                        fill_load(lowering::step(d.g, op), lowering::made(d.g), *elem, "aget"@);
                    }
                }
            }
        }
    }
}

proof fn fill_aset(args: Seq<ExprV>, g: GenV)
    ensures
        lowering::lower_aset(args, g).r is Ok ==> fills(g, lowering::lower_aset(args, g).g),
    decreases args, args.len() + 1,
{
    broadcast use group_blocks;

    lemma_fills_self(g);

    if args.len() >= 3 {
        let c = lowering::lower_value(args[0], g, "aset! arr"@);
        fill_value(args[0], g, "aset! arr"@);
        if c.r is Ok {
            let d = lowering::lower_value(args[1], c.g, "aset! idx"@);
            fill_value(args[1], c.g, "aset! idx"@);
            if d.r is Ok {
                fill_value(args[2], d.g, "aset! val"@);
            }
        }
    }
}

proof fn fill_alen(args: Seq<ExprV>, g: GenV)
    ensures
        lowering::lower_alen(args, g).r is Ok ==> fills(g, lowering::lower_alen(args, g).g),
    decreases args, args.len() + 1,
{
    broadcast use group_blocks;

    lemma_fills_self(g);

    if args.len() > 0 {
        let c = lowering::lower(args[0], ValueUse::Move, g);
        fill_expr(args[0], ValueUse::Move, g);
    }
}

pub proof fn fill_fields(fields: Seq<FieldDefV>, args: Seq<ExprV>, i: int, agg: ValV, g: GenV)
    ensures
        lowering::lower_fields(fields, args, i, agg, g).r is Ok ==> fills(g, lowering::lower_fields(fields, args, i, agg, g).g),
    decreases args, args.len() - i,
{
    broadcast use group_blocks;

    lemma_fills_self(g);

    if 0 <= i < args.len() && i < fields.len() {
        let c = lowering::lower_value(args[i], g, "struct field"@);
        fill_value(args[i], g, "struct field"@);
        if c.r is Ok {
            let op = OpV::Insert {
                agg,
                val: c.r->Ok_0,
                index: i as u32,
                name: fields[i].name,
            };
            fill_fields(fields, args, i + 1, lowering::made(c.g), lowering::step(c.g, op));
        }
    }
}

pub proof fn fill_enum(g: GenV, tag: u32, bits: ValV)
    ensures
        lowering::lower_enum(g, tag, bits).r is Ok ==> fills(g, lowering::lower_enum(g, tag, bits).g),
{
    broadcast use group_blocks;

    lemma_fills_self(g);


}

proof fn fill_variant(info: VariantInfoV, args: Seq<ExprV>, g: GenV)
    ensures
        lowering::lower_variant(info, args, g).r is Ok ==> fills(g, lowering::lower_variant(info, args, g).g),
    decreases args, args.len() + 1,
{
    broadcast use group_blocks;

    lemma_fills_self(g);

    match info.payload {
        None => {
            fill_enum(g, info.tag, ValV::Int(Prim::I64, 0));
        },
        Some(pty) => {
            if args.len() > 0 {
                let c = lowering::lower_value(args[0], g, "variant payload"@);
                fill_value(args[0], g, "variant payload"@);
                if c.r is Ok {
                    let d = lowering::lower_pack(c.g, c.r->Ok_0, pty);
                    fill_pack(c.g, c.r->Ok_0, pty);
                    if d.r is Ok {
                        fill_enum(d.g, info.tag, d.r->Ok_0);
                    }
                }
            }
        },
    }
}

proof fn fill_call_args(
    args: Seq<ExprV>,
    i: int,
    params: Seq<TypeV>,
    foreign: bool,
    acc: Seq<ValV>,
    owned: Seq<ValV>,
    g: GenV,
)
    ensures
        lowering::lower_call_args(args, i, params, foreign, acc, owned, g).r is Ok ==> fills(g, lowering::lower_call_args(args, i, params, foreign, acc, owned, g).g),
    decreases args, args.len() - i,
{
    broadcast use group_blocks;

    lemma_fills_self(g);

    if 0 <= i < args.len() {
        let c = lowering::lower_value(args[i], g, "call argument"@);
        fill_value(args[i], g, "call argument"@);
        if c.r is Ok {
            let v = c.r->Ok_0;
            if foreign && i < params.len() && params[i] is Str {
                let d = lowering::lower_rt(c.g, "risp_str_cstr"@, seq![v], "risp_str_cstr"@);
                fill_rt(c.g, "risp_str_cstr"@, seq![v], "risp_str_cstr"@);
                if d.r is Ok {
                    let cstr = d.r->Ok_0;
                    fill_call_args(args, i + 1, params, foreign, acc.push(cstr), owned.push(v), d.g);
                }
            } else {
                fill_call_args(args, i + 1, params, foreign, acc.push(v), owned, c.g);
            }
        }
    }
}

proof fn fill_drop_all(vs: Seq<ValV>, i: int, g: GenV)
    ensures
        lowering::lower_drop_all(vs, i, g).r is Ok ==> fills(g, lowering::lower_drop_all(vs, i, g).g),
    decreases vs.len() - i,
{
    broadcast use group_blocks;

    lemma_fills_self(g);

    if 0 <= i < vs.len() {
        let c = lowering::lower_drop(g, vs[i], TypeV::Str);
        fill_drop(g, vs[i], TypeV::Str);
        fill_drop_all(vs, i + 1, c.g);
    }
}

proof fn fill_fn_call(callee: Seq<char>, args: Seq<ExprV>, g: GenV)
    ensures
        lowering::lower_fn_call(callee, args, g).r is Ok ==> fills(g, lowering::lower_fn_call(callee, args, g).g),
    decreases args, args.len() + 1,
{
    broadcast use group_blocks;

    lemma_fills_self(g);

    if g.fns.contains_key(callee) && g.fn_types.contains_key(callee) {
        let func = g.fns[callee];
        let sig = g.fn_types[callee];
        let foreign = g.externs.contains_key(callee);
        let c = lowering::lower_call_args(args, 0, sig.params, foreign, Seq::empty(), Seq::empty(), g);
        fill_call_args(args, 0, sig.params, foreign, Seq::empty(), Seq::empty(), g);
        if c.r is Ok {
            let av = c.r->Ok_0;
            let g1 = lowering::step(c.g, OpV::Call { func, args: av.0, name: "calltmp"@ });
            let result = lowering::made(c.g);
            let d = lowering::lower_drop_all(av.1, 0, g1);
            fill_drop_all(av.1, 0, g1);
            fill_rt(d.g, "risp_str_from_cstr"@, seq![result], "risp_str_from_cstr"@);
        }
    }
}

#[verifier::rlimit(40)]
pub proof fn fill_call(callee: Seq<char>, args: Seq<ExprV>, ty: TypeV, g: GenV)
    ensures
        lowering::lower_call(callee, args, ty, g).r is Ok ==> fills(g, lowering::lower_call(callee, args, ty, g).g),
    decreases args, args.len() + 2,
{
    broadcast use group_blocks;

    lemma_fills_self(g);

    fill_arith(callee, args, ty, g);
    fill_test(callee, args, g);
    fill_short(true, args, g);
    fill_short(false, args, g);
    fill_not(args, g);
    fill_print(args, true, g);
    fill_print(args, false, g);
    fill_concat(args, g);
    fill_str_len(args, g);
    fill_aget(args, g);
    fill_aset(args, g);
    fill_alen(args, g);
    fill_struct(callee, args, g);
    fill_variant(g.variants[callee], args, g);
    fill_fn_call(callee, args, g);
}

proof fn fill_struct(name: Seq<char>, args: Seq<ExprV>, g: GenV)
    ensures
        lowering::lower_struct(name, args, g).r is Ok ==> fills(g, lowering::lower_struct(name, args, g).g),
    decreases args, args.len() + 1,
{
    broadcast use group_blocks;

    lemma_fills_self(g);

    if let Ok(st) = lowering::lower_type(g, TypeV::Named(name)) {
        fill_fields(g.structs[name].fields, args, 0, ValV::Undef(st), g);
    }
}

#[verifier::rlimit(60)]
proof fn fill_if(k: ExprKindV, ty: TypeV, g: GenV)
    requires
        k is If,
    ensures
        lowering::lower_if(k, ty, g).r is Ok ==> fills(g, lowering::lower_if(k, ty, g).g),
    decreases k, 7int,
{
    broadcast use group_blocks;

    lemma_fills_self(g);
    let n = g.ops.len() as int;
    to_since(n, g, g);

    if let ExprKindV::If { cond, then_branch, else_branch } = k {
        let c = lowering::lower_value(*cond, g, "if cond"@);
        fill_value(*cond, g, "if cond"@);
        if c.r is Ok {
            let cv = c.r->Ok_0;
            let then_bb = lowering::next(c.g);
            let g1 = lowering::block(c.g, "then"@);
            let else_bb = lowering::next(g1);
            let g2 = lowering::block(g1, "else"@);
            let merge_bb = lowering::next(g2);
            let g3 = lowering::block(g2, "ifcont"@);
            let g4 = lowering::go(lowering::step(g3, OpV::CondBr { cond: cv, yes: then_bb, no: else_bb }), then_bb);
            let t = lowering::lower(*then_branch, ValueUse::Move, g4);
            fill_expr(*then_branch, ValueUse::Move, g4);
            if t.r is Ok {
                let g5 = if !t.g.ended {
                    lowering::step(t.g, OpV::Br(merge_bb))
                } else {
                    t.g
                };
                let f = lowering::lower(*else_branch, ValueUse::Move, lowering::go(g5, else_bb));
                fill_expr(*else_branch, ValueUse::Move, lowering::go(g5, else_bb));
                if f.r is Ok {
                    let g6 = if !f.g.ended {
                        lowering::step(f.g, OpV::Br(merge_bb))
                    } else {
                        f.g
                    };
                    let g7 = lowering::go(g6, merge_bb);
                }
            }
        }
    }
    if lowering::lower_if(k, ty, g).r is Ok {
        assert(since(n, g, lowering::lower_if(k, ty, g).g));
        from_since(g, lowering::lower_if(k, ty, g).g);
    }
}

#[verifier::rlimit(60)]
proof fn fill_match(k: ExprKindV, ty: TypeV, g: GenV)
    requires
        k is Match,
    ensures
        lowering::lower_match(k, ty, g).r is Ok ==> fills(g, lowering::lower_match(k, ty, g).g),
    decreases k, 7int,
{
    broadcast use group_blocks;

    lemma_fills_self(g);
    let n = g.ops.len() as int;
    to_since(n, g, g);

    if let ExprKindV::Match { scrutinee, arms } = k {
        let c = lowering::lower_value(*scrutinee, g, "match scrutinee"@);
        fill_value(*scrutinee, g, "match scrutinee"@);
        if c.r is Ok {
            let ev = c.r->Ok_0;
            let g1 = lowering::step(c.g, OpV::Extract { agg: ev, index: 0, name: "mtag"@ });
            let g2 = lowering::step(g1, OpV::Extract { agg: ev, index: 1, name: "mpayload"@ });
            let merge_bb = lowering::next(g2);
            let g3 = lowering::block(g2, "match.end"@);
            let else_bb = lowering::next(g3);
            let g4 = lowering::block(g3, "match.unreachable"@);
            let b = lowering::lower_arm_blocks(arms, 0, Seq::empty(), g4);
            fill_arm_blocks(n, arms, 0, Seq::empty(), g4);
            if b.r is Ok {
                let cases = b.r->Ok_0;
                let g5 = lowering::step(b.g, OpV::Switch { val: lowering::made(c.g), default: else_bb, cases });
                let a = lowering::lower_arms(
                    arms,
                    0,
                    cases,
                    lowering::made(g1),
                    merge_bb,
                    ty is Unit,
                    Seq::empty(),
                    g5,
                );
                fill_arms(n, arms, 0, cases, lowering::made(g1), merge_bb, ty is Unit, Seq::empty(), g5);
                if a.r is Ok {
                    assert(since(n, g, g5));
                    since_twice(n, g, g5, a.g);
                    let g6 = lowering::go(lowering::step(lowering::go(a.g, else_bb), OpV::Unreachable), merge_bb);
                }
            }
        }
    }
    if lowering::lower_match(k, ty, g).r is Ok {
        assert(since(n, g, lowering::lower_match(k, ty, g).g));
        from_since(g, lowering::lower_match(k, ty, g).g);
    }
}

#[verifier::rlimit(60)]
proof fn fill_short(is_and: bool, args: Seq<ExprV>, g: GenV)
    ensures
        lowering::lower_short(is_and, args, g).r is Ok ==> fills(g, lowering::lower_short(is_and, args, g).g),
    decreases args, args.len() + 1,
{
    broadcast use group_blocks;

    lemma_fills_self(g);
    let n = g.ops.len() as int;
    to_since(n, g, g);

    if args.len() >= 2 {
        let c = lowering::lower_value(args[0], g, if is_and { "and lhs"@ } else { "or lhs"@ });
        fill_value(args[0], g, if is_and { "and lhs"@ } else { "or lhs"@ });
        if c.r is Ok {
            let a = c.r->Ok_0;
            let rhs_bb = lowering::next(c.g);
            let g1 = lowering::block(c.g, if is_and { "and.rhs"@ } else { "or.rhs"@ });
            let merge_bb = lowering::next(g1);
            let g2 = lowering::block(g1, if is_and { "and.end"@ } else { "or.end"@ });
            let g3 = if is_and {
                lowering::step(g2, OpV::CondBr { cond: a, yes: rhs_bb, no: merge_bb })
            } else {
                lowering::step(g2, OpV::CondBr { cond: a, yes: merge_bb, no: rhs_bb })
            };
            let h = lowering::go(g3, rhs_bb);
            let d = lowering::lower_value(args[1], h, if is_and { "and rhs"@ } else { "or rhs"@ });
            fill_value(args[1], h, if is_and { "and rhs"@ } else { "or rhs"@ });
            if d.r is Ok {
                let g4 = lowering::go(lowering::step(d.g, OpV::Br(merge_bb)), merge_bb);
                let decided = ValV::Int(
                    Prim::I1,
                    if is_and {
                        0
                    } else {
                        1
                    },
                );
            }
        }
    }
    if lowering::lower_short(is_and, args, g).r is Ok {
        assert(since(n, g, lowering::lower_short(is_and, args, g).g));
        from_since(g, lowering::lower_short(is_and, args, g).g);
    }
}

proof fn fill_while(k: ExprKindV, g: GenV)
    requires
        k is While,
    ensures
        lowering::lower_while(k, g).r is Ok ==> fills(g, lowering::lower_while(k, g).g),
    decreases k, 7int,
{
    broadcast use group_blocks;

    lemma_fills_self(g);
    let n = g.ops.len() as int;
    to_since(n, g, g);

    if let ExprKindV::While { cond, body } = k {
        let cond_bb = lowering::next(g);
        let g1 = lowering::block(g, "while.cond"@);
        let body_bb = lowering::next(g1);
        let g2 = lowering::block(g1, "while.body"@);
        let end_bb = lowering::next(g2);
        let g3 = lowering::block(g2, "while.end"@);
        let g3b = lowering::go(lowering::step(g3, OpV::Br(cond_bb)), cond_bb);
        let c = lowering::lower_value(*cond, g3b, "while cond"@);
        fill_value(*cond, g3b, "while cond"@);
        if c.r is Ok {
            let g4 = lowering::step(c.g, OpV::CondBr { cond: c.r->Ok_0, yes: body_bb, no: end_bb });
            let g4b = GenV { loop_exits: g4.loop_exits.push(end_bb), ..g4 };
            lemma_since_same(n, g, g4, g4b);
            let g5 = lowering::go(g4b, body_bb);
            let b = lowering::lower(*body, ValueUse::Move, g5);
            fill_expr(*body, ValueUse::Move, g5);
            if b.r is Ok {
                let g6 = if b.g.ended {
                    b.g
                } else {
                    lowering::step(b.g, OpV::Br(cond_bb))
                };
                let g7 = GenV { loop_exits: lowering::popped(g6.loop_exits), ..g6 };
            lemma_since_same(n, g, g6, g7);
                let g8 = lowering::go(g7, end_bb);
            }
        }
    }
    if lowering::lower_while(k, g).r is Ok {
        assert(since(n, g, lowering::lower_while(k, g).g));
        from_since(g, lowering::lower_while(k, g).g);
    }
}

proof fn fill_loop(k: ExprKindV, g: GenV)
    requires
        k is Loop,
    ensures
        lowering::lower_loop(k, g).r is Ok ==> fills(g, lowering::lower_loop(k, g).g),
    decreases k, 7int,
{
    broadcast use group_blocks;

    lemma_fills_self(g);
    let n = g.ops.len() as int;
    to_since(n, g, g);

    if let ExprKindV::Loop { body } = k {
        let body_bb = lowering::next(g);
        let g1 = lowering::block(g, "loop.body"@);
        let end_bb = lowering::next(g1);
        let g2 = lowering::block(g1, "loop.end"@);
        let g3 = lowering::step(g2, OpV::Br(body_bb));
        let g3b = GenV { loop_exits: g3.loop_exits.push(end_bb), ..g3 };
            lemma_since_same(n, g, g3, g3b);
        let g4 = lowering::go(g3b, body_bb);
        let b = lowering::lower(*body, ValueUse::Move, g4);
        fill_expr(*body, ValueUse::Move, g4);
        if b.r is Ok {
            let g5 = if b.g.ended {
                b.g
            } else {
                lowering::step(b.g, OpV::Br(body_bb))
            };
            let g6 = GenV { loop_exits: lowering::popped(g5.loop_exits), ..g5 };
            lemma_since_same(n, g, g5, g6);
            let g7 = lowering::go(g6, end_bb);
        }
    }
    if lowering::lower_loop(k, g).r is Ok {
        assert(since(n, g, lowering::lower_loop(k, g).g));
        from_since(g, lowering::lower_loop(k, g).g);
    }
}

proof fn fill_binding(b: BindingV, g: GenV)
    ensures
        lowering::lower_binding(b, g).r is Ok ==> fills(g, lowering::lower_binding(b, g).g),
    decreases b, 11int,
{
    broadcast use group_blocks;

    let c = lowering::lower_value(b.value, g, "let value"@);
    fill_value(b.value, g, "let value"@);
    if c.r is Ok {
        let s = lowering::lower_slot(c.g, b.name, b.ty);
        fill_slot(c.g, b.name, b.ty);
        if s.r is Ok {
            let d = lowering::lower_store(s.g, s.r->Ok_0, c.r->Ok_0, b.ty);
            fill_store(s.g, s.r->Ok_0, c.r->Ok_0, b.ty);
            if d.r is Ok {
                lemma_fills_same(d.g, lowering::lower_binding(b, g).g);
            }
        }
    }
}

pub proof fn fill_bindings(bs: Seq<BindingV>, i: int, prev: Seq<Shadowed>, g: GenV)
    ensures
        lowering::lower_bindings(bs, i, prev, g).r is Ok ==> fills(
            g,
            lowering::lower_bindings(bs, i, prev, g).g,
        ),
    decreases bs, bs.len() - i,
{
    broadcast use group_blocks;

    lemma_fills_self(g);
    if 0 <= i < bs.len() {
        let c = lowering::lower_binding(bs[i], g);
        fill_binding(bs[i], g);
        if c.r is Ok {
            fill_bindings(bs, i + 1, prev.push(c.r->Ok_0), c.g);
        }
    }
}

proof fn fill_let(k: ExprKindV, g: GenV)
    requires
        k is Let,
    ensures
        lowering::lower_let(k, g).r is Ok ==> fills(g, lowering::lower_let(k, g).g),
    decreases k, 7int,
{
    broadcast use group_blocks;

    if let ExprKindV::Let { bindings, body } = k {
        let c = lowering::lower_bindings(bindings, 0, Seq::empty(), g);
        fill_bindings(bindings, 0, Seq::empty(), g);
        if c.r is Ok {
            let b = lowering::lower(*body, ValueUse::Move, c.g);
            fill_expr(*body, ValueUse::Move, c.g);
            if b.r is Ok {
                let d = if b.g.ended {
                    lowering::done(b.g, ())
                } else {
                    lowering::lower_let_end(bindings, bindings.len() as int, b.g)
                };
                fill_let_end(bindings, bindings.len() as int, b.g);
                lemma_fills_self(b.g);
                if d.r is Ok {
                    lemma_fills_same(d.g, lowering::lower_let(k, g).g);
                }
            }
        }
    }
}

proof fn fill_assign(k: ExprKindV, g: GenV)
    requires
        k is Assign,
    ensures
        lowering::lower_assign(k, g).r is Ok ==> fills(g, lowering::lower_assign(k, g).g),
    decreases k, 7int,
{
    broadcast use group_blocks;

    if let ExprKindV::Assign { name, value } = k {
        let c = lowering::lower_value(*value, g, "set! value"@);
        fill_value(*value, g, "set! value"@);
        if c.r is Ok {
            if let Some(l) = lowering::find_local(c.g.locals, name) {
                fill_store(c.g, l.ptr, c.r->Ok_0, l.ty);
            }
        }
    }
}

/// The blocks of match arms are new.
pub open spec fn new_blocks(n: int, cases: Seq<(u32, usize)>, len: int) -> bool {
    forall|j: int| 0 <= j < cases.len() ==> n <= (#[trigger] cases[j]).1 < len
}

proof fn fill_arm_blocks(n: int, arms: Seq<MatchArmV>, i: int, cases: Seq<(u32, usize)>, g: GenV)
    requires
        0 <= i <= arms.len(),
        cases.len() == i,
        n <= g.ops.len(),
    ensures
        ({
            let c = lowering::lower_arm_blocks(arms, i, cases, g);
            c.r is Ok ==> {
                &&& fills(g, c.g)
                &&& c.g.block == g.block
                &&& c.r->Ok_0.len() == arms.len()
                &&& countable(c.g) && new_blocks(n, cases, g.ops.len() as int) ==> new_blocks(
                    n,
                    c.r->Ok_0,
                    c.g.ops.len() as int,
                )
                &&& forall|j: int| 0 <= j < i ==> c.r->Ok_0[j] == #[trigger] cases[j]
                &&& countable(c.g) ==> forall|j: int| i <= j < arms.len() ==> {
                    &&& (#[trigger] c.r->Ok_0[j]).1 == g.ops.len() + (j - i)
                    &&& c.r->Ok_0[j].0 == g.variants[arms[j].variant].tag
                    &&& g.variants.contains_key(arms[j].variant)
                }
                &&& c.g.ops.len() == g.ops.len() + (arms.len() - i)
                &&& forall|j: int| g.ops.len() <= j < c.g.ops.len() ==> (#[trigger] c.g.ops[j]) is NewBlock
            }
        }),
    decreases arms.len() - i,
{
    broadcast use group_blocks;

    lemma_fills_self(g);
    if i < arms.len() && g.variants.contains_key(arms[i].variant) {
        let tag = g.variants[arms[i].variant].tag;
        let h = lowering::block(g, "match."@ + arms[i].variant);
        let more = cases.push((tag, lowering::next(g)));
        fill_arm_blocks(n, arms, i + 1, more, h);
        let c = lowering::lower_arm_blocks(arms, i, cases, g);
        if c.r is Ok {
            assert(c == lowering::lower_arm_blocks(arms, i + 1, more, h));
            if countable(c.g) {
                if new_blocks(n, cases, g.ops.len() as int) {
                    assert(new_blocks(n, more, h.ops.len() as int));
                }
            }
            assert(more[i] == c.r->Ok_0[i]);
            assert forall|j: int| 0 <= j < i implies c.r->Ok_0[j] == #[trigger] cases[j] by {
                assert(more[j] == cases[j]);
            }
            assert forall|j: int| g.ops.len() <= j < c.g.ops.len() implies (#[trigger] c.g.ops[j]) is NewBlock by {
                if j == g.ops.len() {
                    reveal(fills);
                    reveal(since);
                    assert(h.ops[j] == c.g.ops[j]);
                }
            }
        }
    }
}

proof fn fill_arms(
    n: int,
    arms: Seq<MatchArmV>,
    i: int,
    cases: Seq<(u32, usize)>,
    payload: ValV,
    merge_bb: usize,
    unit: bool,
    incoming: Seq<(ValV, usize)>,
    g: GenV,
)
    requires
        n <= g.ops.len(),
        cases.len() == arms.len(),
        new_blocks(n, cases, g.ops.len() as int) || !countable(g),
    ensures
        ({
            let c = lowering::lower_arms(arms, i, cases, payload, merge_bb, unit, incoming, g);
            c.r is Ok ==> since(n, g, c.g)
        }),
    decreases arms, arms.len() - i,
{
    broadcast use group_blocks;

    lemma_fills_self(g);
    to_since(n, g, g);
    if 0 <= i < arms.len() {
        let arm = arms[i];
        let g1 = lowering::go(g, cases[i].1);
        assert(since(n, g, g1));
        if g1.variants.contains_key(arm.variant) {
            let p = lowering::lower_arm_binding(arm, payload, g1);
            fill_arm_binding(arm, payload, g1);
            if p.r is Ok {
                let b = lowering::lower(arm.body, ValueUse::Move, p.g);
                fill_expr(arm.body, ValueUse::Move, p.g);
                if b.r is Ok {
                    let v = b.r->Ok_0;
                    let end_bb = b.g.block;
                    let reached = !b.g.ended;
                    let g2 = if reached {
                        lowering::step(b.g, OpV::Br(merge_bb))
                    } else {
                        b.g
                    };
                    let g3 = match p.r->Ok_0 {
                        Some(s) => GenV { locals: lowering::restored(g2.locals, s), ..g2 },
                        None => g2,
                    };
                    assert(since(n, g, g2));
                    lemma_since_same(n, g, g2, g3);
                    let more = if reached && !unit && v is Some {
                        incoming.push((v->0, end_bb))
                    } else {
                        incoming
                    };
                    fill_arms(n, arms, i + 1, cases, payload, merge_bb, unit, more, g3);
                    let c = lowering::lower_arms(arms, i, cases, payload, merge_bb, unit, incoming, g);
                    if c.r is Ok {
                        since_twice(n, g, g3, c.g);
                    }
                }
            }
        }
    }
}

proof fn since_twice(n: int, a: GenV, b: GenV, c: GenV)
    requires
        since(n, a, b),
        since(n, b, c),
    ensures
        since(n, a, c),
{
    reveal(since);
    assert(a.ops =~= c.ops.subrange(0, a.ops.len() as int));
    if countable(c) {
        assert forall|i: int| a.ops.len() <= i < c.ops.len() implies ((#[trigger] c.ops[i]) matches OpV::PositionAt(bb)
            ==> n <= bb) by {
            if i < b.ops.len() {
                assert(b.ops[i] == c.ops[i]);
            }
        }
    }
}

proof fn fill_arm_binding(arm: MatchArmV, payload: ValV, g: GenV)
    ensures
        lowering::lower_arm_binding(arm, payload, g).r is Ok ==> fills(
            g,
            lowering::lower_arm_binding(arm, payload, g).g,
        ),
{
    broadcast use group_blocks;

    lemma_fills_self(g);
    if let (Some(pty), Some(name)) = (g.variants[arm.variant].payload, arm.binding) {
        let c = lowering::lower_unpack(g, payload, pty);
        fill_unpack(g, payload, pty);
        if c.r is Ok {
            let s = lowering::lower_slot(c.g, name, pty);
            fill_slot(c.g, name, pty);
            if s.r is Ok {
                let g1 = lowering::step(s.g, OpV::Store { ptr: s.r->Ok_0, val: c.r->Ok_0 });
                lemma_fills_same(g1, lowering::lower_arm_binding(arm, payload, g).g);
            }
        }
    }
}

/// An expression fills only blocks that it makes.
pub proof fn law_expression_fills_its_blocks(e: ExprV, mode: ValueUse, g: GenV)
    ensures
        lowering::lower(e, mode, g).r is Ok ==> fills(g, lowering::lower(e, mode, g).g),
{
    fill_expr(e, mode, g);
}

} // verus!
