//! Laws of the code generator: an expression leaves the variables in scope as they were.
use crate::ast::{BindingV, ExprKindV, ExprV, FieldDefV, LitV, MatchArmV, TypeV};
use crate::ir::{LTyV, OpV, Prim, ValV};
use crate::lowering::{GenV, LocalV, Shadowed, ValueUse};
use crate::lowering;
use crate::typing::VariantInfoV;
use vstd::prelude::*;

verus! {

pub type Variants = Map<Seq<char>, VariantInfoV>;

/// Whether match arms bind names for variants with a payload only.
pub open spec fn binds_payloads(e: ExprV, vs: Variants) -> bool
    decreases e,
{
    binds_payloads_kind(e.kind, vs)
}

pub open spec fn binds_payloads_kind(k: ExprKindV, vs: Variants) -> bool
    decreases k,
{
    match k {
        ExprKindV::Lit(_) => true,
        ExprKindV::Var(_) => true,
        ExprKindV::Break => true,
        ExprKindV::If { cond, then_branch, else_branch } => {
            &&& binds_payloads(*cond, vs)
            &&& binds_payloads(*then_branch, vs)
            &&& binds_payloads(*else_branch, vs)
        },
        ExprKindV::Let { bindings, body } => binds_payloads_bindings(bindings, vs)
            && binds_payloads(*body, vs),
        ExprKindV::Do(es) => binds_payloads_all(es, vs),
        ExprKindV::Cast { ty, expr } => binds_payloads(*expr, vs),
        ExprKindV::Assign { name, value } => binds_payloads(*value, vs),
        ExprKindV::While { cond, body } => binds_payloads(*cond, vs) && binds_payloads(*body, vs),
        ExprKindV::Loop { body } => binds_payloads(*body, vs),
        ExprKindV::ArrayLit { elem_ty, elems } => binds_payloads_all(elems, vs),
        ExprKindV::Field { base, field } => binds_payloads(*base, vs),
        ExprKindV::Match { scrutinee, arms } => binds_payloads(*scrutinee, vs)
            && binds_payloads_arms(arms, vs),
        ExprKindV::Call { callee, args } => binds_payloads_all(args, vs),
    }
}

pub open spec fn binds_payloads_all(es: Seq<ExprV>, vs: Variants) -> bool
    decreases es,
{
    forall|i: int| 0 <= i < es.len() ==> binds_payloads(#[trigger] es[i], vs)
}

pub open spec fn binds_payloads_bindings(bs: Seq<BindingV>, vs: Variants) -> bool
    decreases bs,
{
    forall|i: int| 0 <= i < bs.len() ==> binds_payloads((#[trigger] bs[i]).value, vs)
}

pub open spec fn binds_payloads_arms(arms: Seq<MatchArmV>, vs: Variants) -> bool
    decreases arms,
{
    forall|i: int|
        0 <= i < arms.len() ==> {
            &&& (#[trigger] arms[i]).binding is Some ==> vs[arms[i].variant].payload is Some
            &&& binds_payloads(arms[i].body, vs)
        }
}

/// Whether the variables in scope are the same.
spec fn scoped(g: GenV, h: GenV) -> bool {
    h.variants == g.variants && h.locals == g.locals
}

proof fn lemma_scoped_variants(g: GenV, h: GenV)
    requires
        scoped(g, h),
    ensures
        h.variants == g.variants,
{
}

proof fn lemma_scoped_trans(a: GenV, b: GenV, c: GenV)
    requires
        scoped(a, b),
        scoped(b, c),
    ensures
        scoped(a, c),
{
}

proof fn lemma_scoped_same(g: GenV, h: GenV)
    requires
        g.locals == h.locals,
        g.variants == h.variants,
    ensures
        scoped(g, h),
{
}

proof fn lemma_place(ls: Seq<LocalV>, name: Seq<char>, i: int)
    requires
        0 <= i,
    ensures
        match lowering::local_at(ls, name, i) {
            Some(j) => i <= j < ls.len() && ls[j].name == name && forall|k: int|
                i <= k < j ==> (#[trigger] ls[k]).name != name,
            None => forall|k: int| i <= k < ls.len() ==> (#[trigger] ls[k]).name != name,
        },
    decreases ls.len() - i,
{
    if i < ls.len() && ls[i].name != name {
        lemma_place(ls, name, i + 1);
    }
}

/// What a scope with one more variable holds.
pub proof fn lemma_with(ls: Seq<LocalV>, l: LocalV, n: Seq<char>)
    ensures
        lowering::find_local(lowering::with_local(ls, l), n) == if n == l.name {
            Some(l)
        } else {
            lowering::find_local(ls, n)
        },
{
    let r = lowering::with_local(ls, l);
    lemma_place(ls, l.name, 0);
    lemma_place(ls, n, 0);
    lemma_place(r, n, 0);
    match (lowering::local_at(ls, n, 0), lowering::local_at(r, n, 0)) {
        (Some(j), Some(k)) => {
            if j < k {
                assert(r[j].name == n);
            } else if k < j {
                assert(ls[k].name != n);
            }
        },
        (Some(j), None) => {
            assert(r[j].name == n);
        },
        (None, Some(k)) => {
            if k < ls.len() {
                assert(ls[k].name != n);
            }
        },
        _ => {
            if n == l.name {
                assert(r[ls.len() as int].name == n);
            }
        },
    }
}

/// A variable that was bound is undone.
proof fn lemma_undone(ls: Seq<LocalV>, l: LocalV)
    ensures
        lowering::restored(
            lowering::with_local(ls, l),
            (l.name, lowering::find_local(ls, l.name)),
        ) == ls,
{
    let r = lowering::with_local(ls, l);
    lemma_place(ls, l.name, 0);
    lemma_place(r, l.name, 0);
    let at = lowering::local_at(r, l.name, 0);
    match lowering::local_at(ls, l.name, 0) {
        Some(i) => {
            assert(r[i].name == l.name);
            if at->0 < i {
                assert(ls[at->0].name != l.name);
            }
            assert(lowering::with_local(r, ls[i]) =~= ls);
        },
        None => {
            assert(r[ls.len() as int].name == l.name);
            if at->0 < ls.len() {
                assert(ls[at->0].name != l.name);
            }
            assert(r.remove(ls.len() as int) =~= ls);
        },
    }
}

proof fn lemma_restored_prefix(ls: Seq<LocalV>, prev: Seq<Shadowed>, s: Shadowed, n: int)
    requires
        n <= prev.len(),
    ensures
        lowering::restored_all(ls, prev.push(s), n) == lowering::restored_all(ls, prev, n),
    decreases n,
{
    if n > 0 {
        assert(prev.push(s)[n - 1] == prev[n - 1]);
        lemma_restored_prefix(lowering::restored(ls, prev[n - 1]), prev, s, n - 1);
    }
}

/// Whether undoing `prev` leads from the variables in `ls` back to those in `first`.
spec fn undoes(first: Seq<LocalV>, prev: Seq<Shadowed>, ls: Seq<LocalV>) -> bool {
    lowering::restored_all(ls, prev, prev.len() as int) == first
}

/// What one binding does to the scope.
proof fn scope_binding(b: BindingV, g: GenV)
    requires
        binds_payloads(b.value, g.variants),
    ensures
        ({
            let c = lowering::lower_binding(b, g);
            c.r is Ok ==> {
                &&& c.g.variants == g.variants
                &&& lowering::restored(c.g.locals, c.r->Ok_0) == g.locals
            }
        }),
    decreases b, 11int,
{
    let c = lowering::lower_value(b.value, g, "let value"@);
    scope_value(b.value, g, "let value"@);
    if c.r is Ok {
        let s = lowering::lower_slot(c.g, b.name, b.ty);
        scope_slot(c.g, b.name, b.ty);
        if s.r is Ok {
            let d = lowering::lower_store(s.g, s.r->Ok_0, c.r->Ok_0, b.ty);
            scope_store(s.g, s.r->Ok_0, c.r->Ok_0, b.ty);
            if d.r is Ok {
                assert(scoped(g, d.g));
                lemma_undone(d.g.locals, LocalV { name: b.name, ptr: s.r->Ok_0, ty: b.ty });
            }
        }
    }
}

proof fn scope_bindings(
    first: Seq<LocalV>,
    bs: Seq<BindingV>,
    i: int,
    prev: Seq<Shadowed>,
    g: GenV,
)
    requires
        binds_payloads_bindings(bs, g.variants),
        undoes(first, prev, g.locals),
    ensures
        ({
            let c = lowering::lower_bindings(bs, i, prev, g);
            c.r is Ok ==> c.g.variants == g.variants && undoes(first, c.r->Ok_0, c.g.locals)
        }),
    decreases bs, bs.len() - i,
{
    if 0 <= i < bs.len() {
        let c = lowering::lower_binding(bs[i], g);
        scope_binding(bs[i], g);
        if c.r is Ok {
            let more = prev.push(c.r->Ok_0);
            assert(more[more.len() - 1] == c.r->Ok_0);
            lemma_restored_prefix(g.locals, prev, c.r->Ok_0, prev.len() as int);
            scope_bindings(first, bs, i + 1, more, c.g);
        }
    }
}

proof fn scope_let(k: ExprKindV, g: GenV)
    requires
        k is Let,
        binds_payloads_kind(k, g.variants),
    ensures
        lowering::lower_let(k, g).r is Ok ==> scoped(g, lowering::lower_let(k, g).g),
    decreases k, 7int,
{
    if let ExprKindV::Let { bindings, body } = k {
        let none = Seq::<Shadowed>::empty();
        let c = lowering::lower_bindings(bindings, 0, none, g);
        scope_bindings(g.locals, bindings, 0, none, g);
        if c.r is Ok {
            let b = lowering::lower(*body, ValueUse::Move, c.g);
            scope_expr(*body, ValueUse::Move, c.g);
            if b.r is Ok {
                let d = if b.g.ended {
                    lowering::done(b.g, ())
                } else {
                    lowering::lower_let_end(bindings, bindings.len() as int, b.g)
                };
                scope_let_end(bindings, bindings.len() as int, b.g);
                if d.r is Ok {
                    assert(scoped(c.g, d.g));
                }
            }
        }
    }
}

proof fn scope_assign(k: ExprKindV, g: GenV)
    requires
        k is Assign,
        binds_payloads_kind(k, g.variants),
    ensures
        lowering::lower_assign(k, g).r is Ok ==> scoped(g, lowering::lower_assign(k, g).g),
    decreases k, 7int,
{
    if let ExprKindV::Assign { name, value } = k {
        let c = lowering::lower_value(*value, g, "set! value"@);
        scope_value(*value, g, "set! value"@);
        if c.r is Ok {
            if let Some(l) = lowering::find_local(c.g.locals, name) {
                scope_store(c.g, l.ptr, c.r->Ok_0, l.ty);
            }
        }
    }
}

proof fn scope_while(k: ExprKindV, g: GenV)
    requires
        k is While,
        binds_payloads_kind(k, g.variants),
    ensures
        lowering::lower_while(k, g).r is Ok ==> scoped(g, lowering::lower_while(k, g).g),
    decreases k, 7int,
{
    if let ExprKindV::While { cond, body } = k {
        let cond_bb = lowering::next(g);
        let g1 = lowering::block(g, "while.cond"@);
        let body_bb = lowering::next(g1);
        let g2 = lowering::block(g1, "while.body"@);
        let end_bb = lowering::next(g2);
        let g3 = lowering::block(g2, "while.end"@);
        let g3b = lowering::go(lowering::step(g3, OpV::Br(cond_bb)), cond_bb);
        let c = lowering::lower_value(*cond, g3b, "while cond"@);
        scope_value(*cond, g3b, "while cond"@);
        if c.r is Ok {
            let g4 = lowering::step(c.g, OpV::CondBr { cond: c.r->Ok_0, yes: body_bb, no: end_bb });
            let g4b = GenV { loop_exits: g4.loop_exits.push(end_bb), ..g4 };
            lemma_scoped_same(g4, g4b);
            let g5 = lowering::go(g4b, body_bb);
            let b = lowering::lower(*body, ValueUse::Move, g5);
            scope_expr(*body, ValueUse::Move, g5);
            if b.r is Ok {
                let g6 = if b.g.ended {
                    b.g
                } else {
                    lowering::step(b.g, OpV::Br(cond_bb))
                };
                let g7 = GenV { loop_exits: lowering::popped(g6.loop_exits), ..g6 };
                lemma_scoped_same(g6, g7);
                let g8 = lowering::go(g7, end_bb);
                lemma_scoped_same(b.g, g6);
            }
        }
    }
}

proof fn scope_loop(k: ExprKindV, g: GenV)
    requires
        k is Loop,
        binds_payloads_kind(k, g.variants),
    ensures
        lowering::lower_loop(k, g).r is Ok ==> scoped(g, lowering::lower_loop(k, g).g),
    decreases k, 7int,
{
    if let ExprKindV::Loop { body } = k {
        let body_bb = lowering::next(g);
        let g1 = lowering::block(g, "loop.body"@);
        let end_bb = lowering::next(g1);
        let g2 = lowering::block(g1, "loop.end"@);
        let g3 = lowering::step(g2, OpV::Br(body_bb));
        let g3b = GenV { loop_exits: g3.loop_exits.push(end_bb), ..g3 };
        lemma_scoped_same(g3, g3b);
        let g4 = lowering::go(g3b, body_bb);
        let b = lowering::lower(*body, ValueUse::Move, g4);
        scope_expr(*body, ValueUse::Move, g4);
        if b.r is Ok {
            let g5 = if b.g.ended {
                b.g
            } else {
                lowering::step(b.g, OpV::Br(body_bb))
            };
            let g6 = GenV { loop_exits: lowering::popped(g5.loop_exits), ..g5 };
            lemma_scoped_same(b.g, g5);
            lemma_scoped_same(g5, g6);
            let g7 = lowering::go(g6, end_bb);
        }
    }
}

/// What the binding of a match arm does to the scope.
pub proof fn scope_arm_binding(arm: MatchArmV, payload: ValV, g: GenV)
    requires
        arm.binding is Some ==> g.variants[arm.variant].payload is Some,
        lowering::lower_arm_binding(arm, payload, g).r is Ok,
    ensures
        ({
            let c = lowering::lower_arm_binding(arm, payload, g);
            g.locals == match c.r->Ok_0 {
                Some(s) => lowering::restored(c.g.locals, s),
                None => c.g.locals,
            }
        }),
{
    if let (Some(pty), Some(name)) = (g.variants[arm.variant].payload, arm.binding) {
        let c = lowering::lower_unpack(g, payload, pty);
        let s = lowering::lower_slot(c.g, name, pty);
        lemma_undone(g.locals, LocalV { name, ptr: s.r->Ok_0, ty: pty });
    }
}

proof fn scope_arm_variants(arm: MatchArmV, payload: ValV, g: GenV)
    ensures
        lowering::lower_arm_binding(arm, payload, g).r is Ok ==> lowering::lower_arm_binding(arm, payload, g).g.variants
            == g.variants,
{
}

proof fn scope_lit(g: GenV, l: LitV, ty: TypeV)
    ensures
        scoped(g, lowering::lower_lit(g, l, ty).0),
{
    lemma_scoped_same(g, lowering::lower_lit(g, l, ty).0);
}

#[verifier::rlimit(40)]
proof fn scope_arms(
    arms: Seq<MatchArmV>,
    i: int,
    cases: Seq<(u32, usize)>,
    payload: ValV,
    merge_bb: usize,
    unit: bool,
    incoming: Seq<(ValV, usize)>,
    g: GenV,
)
    requires
        binds_payloads_arms(arms, g.variants),
    ensures
        ({
            let c = lowering::lower_arms(arms, i, cases, payload, merge_bb, unit, incoming, g);
            c.r is Ok ==> scoped(g, c.g)
        }),
    decreases arms, arms.len() - i,
{
    lemma_scoped_same(g, g);
    if 0 <= i < arms.len() {
        let arm = arms[i];
        let g1 = lowering::go(g, cases[i].1);
        if g1.variants.contains_key(arm.variant) {
            let p = lowering::lower_arm_binding(arm, payload, g1);
            scope_arm_variants(arm, payload, g1);
            if p.r is Ok {
                let b = lowering::lower(arm.body, ValueUse::Move, p.g);
                scope_expr(arm.body, ValueUse::Move, p.g);
                if b.r is Ok {
                    let v = b.r->Ok_0;
                    let end_bb = b.g.block;
                    let reached = !b.g.ended;
                    let g2 = if reached {
                        lowering::step(b.g, OpV::Br(merge_bb))
                    } else {
                        b.g
                    };
                    let g3 = match p.r->Ok_0 {
                        Some(s) => GenV { locals: lowering::restored(g2.locals, s), ..g2 },
                        None => g2,
                    };
                    assert(scoped(g1, g3)) by {
                        scope_arm_binding(arm, payload, g1);
                    }
                    let more = if reached && !unit && v is Some {
                        incoming.push((v->0, end_bb))
                    } else {
                        incoming
                    };
                    scope_arms(arms, i + 1, cases, payload, merge_bb, unit, more, g3);
                }
            }
        }
    }
}

proof fn scope_slot(g: GenV, name: Seq<char>, ty: TypeV)
    ensures
        lowering::lower_slot(g, name, ty).r is Ok ==> scoped(g, lowering::lower_slot(g, name, ty).g),
{
}

proof fn scope_rt(g: GenV, fname: Seq<char>, args: Seq<ValV>, name: Seq<char>)
    ensures
        lowering::lower_rt(g, fname, args, name).r is Ok ==> scoped(g, lowering::lower_rt(g, fname, args, name).g),
{
}

proof fn scope_drop(g: GenV, v: ValV, ty: TypeV)
    ensures
        lowering::lower_drop(g, v, ty).r is Ok ==> scoped(g, lowering::lower_drop(g, v, ty).g),
{
    scope_rt(g, "risp_str_release"@, seq![v], "risp_str_release"@);
}

proof fn scope_retain(g: GenV, v: ValV, ty: TypeV)
    ensures
        lowering::lower_retain(g, v, ty).r is Ok ==> scoped(g, lowering::lower_retain(g, v, ty).g),
{
    scope_rt(g, "risp_str_retain"@, seq![v], "risp_str_retain"@);
}

proof fn scope_load(g: GenV, ptr: ValV, ty: TypeV, name: Seq<char>)
    ensures
        lowering::lower_load(g, ptr, ty, name).r is Ok ==> scoped(g, lowering::lower_load(g, ptr, ty, name).g),
{
}

proof fn scope_release(g: GenV, ptr: ValV, ty: TypeV, name: Seq<char>)
    ensures
        lowering::lower_release(g, ptr, ty, name).r is Ok ==> scoped(g, lowering::lower_release(g, ptr, ty, name).g),
{
    let c = lowering::lower_load(g, ptr, ty, name);
    scope_load(g, ptr, ty, name);
    if c.r is Ok {
        scope_drop(c.g, c.r->Ok_0, ty);
    }
}

proof fn scope_store(g: GenV, ptr: ValV, v: ValV, ty: TypeV)
    ensures
        lowering::lower_store(g, ptr, v, ty).r is Ok ==> scoped(g, lowering::lower_store(g, ptr, v, ty).g),
{
    scope_release(g, ptr, ty, "old.owned"@);
}

proof fn scope_load_owned(g: GenV, ptr: ValV, ty: TypeV, mode: ValueUse)
    ensures
        lowering::lower_load_owned(g, ptr, ty, mode).r is Ok ==> scoped(g, lowering::lower_load_owned(g, ptr, ty, mode).g),
{
    let c = lowering::lower_load(g, ptr, ty, "load.owned"@);
    scope_load(g, ptr, ty, "load.owned"@);
    if c.r is Ok {
        scope_retain(c.g, c.r->Ok_0, ty);
    }
}

proof fn scope_var(g: GenV, name: Seq<char>, mode: ValueUse)
    ensures
        lowering::lower_var(g, name, mode).r is Ok ==> scoped(g, lowering::lower_var(g, name, mode).g),
{
    match lowering::find_local(g.locals, name) {
        Some(l) => {
            scope_load_owned(g, l.ptr, l.ty, mode);
            scope_load(g, l.ptr, l.ty, name);
        },
        None => {
            if g.consts.contains_key(name) {
                let v = g.consts[name].1;
                scope_rt(g, "risp_str_from_cstr"@, seq![v], "risp_str_from_cstr"@);
            }
        },
    }
}

proof fn scope_value(e: ExprV, g: GenV, msg: Seq<char>)
    requires
        binds_payloads(e, g.variants),
    ensures
        lowering::lower_value(e, g, msg).r is Ok ==> scoped(g, lowering::lower_value(e, g, msg).g),
    decreases e, 10int,
{
    scope_expr(e, ValueUse::Move, g);
}

proof fn scope_expr(e: ExprV, mode: ValueUse, g: GenV)
    requires
        binds_payloads(e, g.variants),
    ensures
        lowering::lower(e, mode, g).r is Ok ==> scoped(g, lowering::lower(e, mode, g).g),
    decreases e, 9int,
{
    if let Some(ty) = e.ty {
        scope_form(e.kind, ty, mode, g);
    }
}

proof fn scope_form(k: ExprKindV, ty: TypeV, mode: ValueUse, g: GenV)
    requires
        binds_payloads_kind(k, g.variants),
    ensures
        lowering::lower_form(k, ty, mode, g).r is Ok ==> scoped(g, lowering::lower_form(k, ty, mode, g).g),
    decreases k, 8int,
{
    match k {
        ExprKindV::Lit(l) => {
            let (g1, v) = lowering::lower_lit(g, l, ty);
            scope_lit(g, l, ty);
            scope_rt(g1, "risp_str_from_cstr"@, seq![v], "risp_str_from_cstr"@);
        },
        ExprKindV::Var(name) => scope_var(g, name, mode),
        ExprKindV::If { .. } => scope_if(k, ty, g),
        ExprKindV::Let { .. } => scope_let(k, g),
        ExprKindV::Do(es) => scope_do(es, 0, None, g),
        ExprKindV::Cast { .. } => scope_cast_form(k, g),
        ExprKindV::Assign { .. } => scope_assign(k, g),
        ExprKindV::While { .. } => scope_while(k, g),
        ExprKindV::Loop { .. } => scope_loop(k, g),
        ExprKindV::Break => {
        },
        ExprKindV::ArrayLit { elem_ty, elems } => scope_array(elem_ty, elems, g),
        ExprKindV::Field { .. } => scope_field(k, g),
        ExprKindV::Match { .. } => scope_match(k, ty, g),
        ExprKindV::Call { callee, args } => scope_call(callee, args, ty, g),
    }
}

#[verifier::rlimit(60)]
proof fn scope_if(k: ExprKindV, ty: TypeV, g: GenV)
    requires
        k is If,
        binds_payloads_kind(k, g.variants),
    ensures
        lowering::lower_if(k, ty, g).r is Ok ==> scoped(g, lowering::lower_if(k, ty, g).g),
    decreases k, 7int,
{
    if let ExprKindV::If { cond, then_branch, else_branch } = k {
        let c = lowering::lower_value(*cond, g, "if cond"@);
        scope_value(*cond, g, "if cond"@);
        if c.r is Ok {
            let cv = c.r->Ok_0;
            let then_bb = lowering::next(c.g);
            let g1 = lowering::block(c.g, "then"@);
            let else_bb = lowering::next(g1);
            let g2 = lowering::block(g1, "else"@);
            let merge_bb = lowering::next(g2);
            let g3 = lowering::block(g2, "ifcont"@);
            let g4 = lowering::go(lowering::step(g3, OpV::CondBr { cond: cv, yes: then_bb, no: else_bb }), then_bb);
            let t = lowering::lower(*then_branch, ValueUse::Move, g4);
            scope_expr(*then_branch, ValueUse::Move, g4);
            if t.r is Ok {
                let g5 = if !t.g.ended {
                    lowering::step(t.g, OpV::Br(merge_bb))
                } else {
                    t.g
                };
                let f = lowering::lower(*else_branch, ValueUse::Move, lowering::go(g5, else_bb));
                scope_expr(*else_branch, ValueUse::Move, lowering::go(g5, else_bb));
                if f.r is Ok {
                    let g6 = if !f.g.ended {
                        lowering::step(f.g, OpV::Br(merge_bb))
                    } else {
                        f.g
                    };
                    let g7 = lowering::go(g6, merge_bb);
                }
            }
        }
    }
}

proof fn scope_let_end(bs: Seq<BindingV>, n: int, g: GenV)
    ensures
        lowering::lower_let_end(bs, n, g).r is Ok ==> scoped(g, lowering::lower_let_end(bs, n, g).g),
    decreases n,
{
    if 0 < n <= bs.len() {
        let b = bs[n - 1];
        if let Some(l) = lowering::find_local(g.locals, b.name) {
            let c = lowering::lower_release(g, l.ptr, b.ty, "letscope.drop"@);
            scope_release(g, l.ptr, b.ty, "letscope.drop"@);
            scope_let_end(bs, n - 1, lowering::step(c.g, OpV::Store { ptr: l.ptr, val: ValV::Null }));
        }
        scope_let_end(bs, n - 1, g);
    }
}

proof fn scope_unused(g: GenV, e: ExprV, v: Option<ValV>)
    ensures
        lowering::lower_unused(g, e, v).r is Ok ==> scoped(g, lowering::lower_unused(g, e, v).g),
{
    if let (Some(ty), Some(x)) = (e.ty, v) {
        scope_drop(g, x, ty);
    }
}

proof fn scope_do(es: Seq<ExprV>, i: int, last: Option<ValV>, g: GenV)
    requires
        last is None,
        binds_payloads_all(es, g.variants),
    ensures
        lowering::lower_do(es, i, last, g).r is Ok ==> scoped(g, lowering::lower_do(es, i, last, g).g),
    decreases es, es.len() - i,
{
    if 0 <= i < es.len() && !g.ended {
        let c = lowering::lower(es[i], ValueUse::Move, g);
        scope_expr(es[i], ValueUse::Move, g);
        if c.r is Ok && i != es.len() - 1 {
            let d = lowering::lower_unused(c.g, es[i], c.r->Ok_0);
            scope_unused(c.g, es[i], c.r->Ok_0);
            scope_do(es, i + 1, last, d.g);
        }
    }
}

proof fn scope_cast_form(k: ExprKindV, g: GenV)
    requires
        k is Cast,
        binds_payloads_kind(k, g.variants),
    ensures
        lowering::lower_cast_form(k, g).r is Ok ==> scoped(g, lowering::lower_cast_form(k, g).g),
    decreases k, 7int,
{
    if let ExprKindV::Cast { ty, expr } = k {
        scope_value(*expr, g, "cast expr"@);
    }
}

proof fn scope_elems(at: LTyV, slot: ValV, es: Seq<ExprV>, i: int, g: GenV)
    requires
        binds_payloads_all(es, g.variants),
    ensures
        lowering::lower_elems(at, slot, es, i, g).r is Ok ==> scoped(g, lowering::lower_elems(at, slot, es, i, g).g),
    decreases es, es.len() - i,
{
    if 0 <= i < es.len() {
        let c = lowering::lower_value(es[i], g, "array elem"@);
        scope_value(es[i], g, "array elem"@);
        if c.r is Ok {
            let index = ValV::Int(Prim::I32, i as i64);
            let g1 = lowering::step(c.g, OpV::ElemPtr { ty: at, ptr: slot, index, name: "elemptr"@ });
            let g2 = lowering::step(g1, OpV::Store { ptr: lowering::made(c.g), val: c.r->Ok_0 });
            scope_elems(at, slot, es, i + 1, g2);
        }
    }
}

proof fn scope_array(elem_ty: TypeV, elems: Seq<ExprV>, g: GenV)
    requires
        binds_payloads_all(elems, g.variants),
    ensures
        lowering::lower_array(elem_ty, elems, g).r is Ok ==> scoped(g, lowering::lower_array(elem_ty, elems, g).g),
    decreases elems, elems.len() + 1,
{
    if let Ok(at) = lowering::lower_array_type(elem_ty, elems.len() as u32) {
        let g1 = lowering::step(g, OpV::EntryAlloca { func: g.func, ty: at, name: "arrtmp"@, zeroed: false });
        scope_elems(at, lowering::made(g), elems, 0, g1);
    }
}

proof fn scope_field(k: ExprKindV, g: GenV)
    requires
        k is Field,
        binds_payloads_kind(k, g.variants),
    ensures
        lowering::lower_field(k, g).r is Ok ==> scoped(g, lowering::lower_field(k, g).g),
    decreases k, 7int,
{
    if let ExprKindV::Field { base, field } = k {
        if let Some(TypeV::Named(n)) = base.ty {
            let fields = g.structs[n].fields;
            if let Some(i) = lowering::field_at(fields, field, 0) {
                match lowering::as_var(*base) {
                    Some(name) => {
                        if let Some(l) = lowering::find_local(g.locals, name) {
                            if let Ok(st) = lowering::lower_type(g, TypeV::Named(n)) {
                                let g1 = lowering::step(
                                    g,
                                    OpV::FieldPtr {
                                        ty: st,
                                        ptr: l.ptr,
                                        index: i as u32,
                                        name: field,
                                    },
                                );
                                let c = lowering::lower_load(g1, lowering::made(g), fields[i].ty, field);
                                scope_load(g1, lowering::made(g), fields[i].ty, field);
                                if c.r is Ok {
                                    scope_retain(c.g, c.r->Ok_0, fields[i].ty);
                                }
                            }
                        }
                    },
                    None => {
                        let c = lowering::lower_value(*base, g, "field base"@);
                        scope_value(*base, g, "field base"@);
                        if c.r is Ok {
                            let g1 = lowering::step(
                                c.g,
                                OpV::Extract { agg: c.r->Ok_0, index: i as u32, name: field },
                            );
                            scope_retain(g1, lowering::made(c.g), fields[i].ty);
                        }
                    },
                }
            }
        }
    }
}

proof fn scope_pack(g: GenV, v: ValV, ty: TypeV)
    ensures
        lowering::lower_pack(g, v, ty).r is Ok ==> scoped(g, lowering::lower_pack(g, v, ty).g),
{
}

proof fn scope_arm_blocks(arms: Seq<MatchArmV>, i: int, cases: Seq<(u32, usize)>, g: GenV)
    requires
        0 <= i <= arms.len(),
        cases.len() == i,
    ensures
        lowering::lower_arm_blocks(arms, i, cases, g).r is Ok ==> scoped(g, lowering::lower_arm_blocks(arms, i, cases, g).g),
    decreases arms.len() - i,
{
    if i < arms.len() && g.variants.contains_key(arms[i].variant) {
        let tag = g.variants[arms[i].variant].tag;
        let h = lowering::block(g, "match."@ + arms[i].variant);
        scope_arm_blocks(arms, i + 1, cases.push((tag, lowering::next(g))), h);
    }
}

#[verifier::rlimit(60)]
proof fn scope_match(k: ExprKindV, ty: TypeV, g: GenV)
    requires
        k is Match,
        binds_payloads_kind(k, g.variants),
    ensures
        lowering::lower_match(k, ty, g).r is Ok ==> scoped(g, lowering::lower_match(k, ty, g).g),
    decreases k, 7int,
{
    if let ExprKindV::Match { scrutinee, arms } = k {
        let c = lowering::lower_value(*scrutinee, g, "match scrutinee"@);
        scope_value(*scrutinee, g, "match scrutinee"@);
        if c.r is Ok {
            let ev = c.r->Ok_0;
            let g1 = lowering::step(c.g, OpV::Extract { agg: ev, index: 0, name: "mtag"@ });
            let g2 = lowering::step(g1, OpV::Extract { agg: ev, index: 1, name: "mpayload"@ });
            let merge_bb = lowering::next(g2);
            let g3 = lowering::block(g2, "match.end"@);
            let else_bb = lowering::next(g3);
            let g4 = lowering::block(g3, "match.unreachable"@);
            let b = lowering::lower_arm_blocks(arms, 0, Seq::empty(), g4);
            scope_arm_blocks(arms, 0, Seq::empty(), g4);
            if b.r is Ok {
                let cases = b.r->Ok_0;
                let g5 = lowering::step(b.g, OpV::Switch { val: lowering::made(c.g), default: else_bb, cases });
                let a = lowering::lower_arms(
                    arms,
                    0,
                    cases,
                    lowering::made(g1),
                    merge_bb,
                    ty is Unit,
                    Seq::empty(),
                    g5,
                );
                scope_arms(arms, 0, cases, lowering::made(g1), merge_bb, ty is Unit, Seq::empty(), g5);
                if a.r is Ok {
                    let g6 = lowering::go(lowering::step(lowering::go(a.g, else_bb), OpV::Unreachable), merge_bb);
                }
            }
        }
    }
}

proof fn scope_args(args: Seq<ExprV>, i: int, acc: Seq<ValV>, g: GenV, msg: Seq<char>)
    requires
        binds_payloads_all(args, g.variants),
    ensures
        lowering::lower_args(args, i, acc, g, msg).r is Ok ==> scoped(g, lowering::lower_args(args, i, acc, g, msg).g),
    decreases args, args.len() - i,
{
    if 0 <= i < args.len() {
        let c = lowering::lower_value(args[i], g, msg);
        scope_value(args[i], g, msg);
        if c.r is Ok {
            scope_args(args, i + 1, acc.push(c.r->Ok_0), c.g, msg);
        }
    }
}

proof fn scope_fold(op: Seq<char>, args: Seq<ExprV>, i: int, acc: ValV, ty: TypeV, g: GenV)
    requires
        binds_payloads_all(args, g.variants),
    ensures
        lowering::lower_fold(op, args, i, acc, ty, g).r is Ok ==> scoped(g, lowering::lower_fold(op, args, i, acc, ty, g).g),
    decreases args, args.len() - i,
{
    if 0 <= i < args.len() {
        let c = lowering::lower_value(args[i], g, "arith rhs"@);
        scope_value(args[i], g, "arith rhs"@);
        if c.r is Ok {
            let d = lowering::lower_bin(c.g, op, acc, c.r->Ok_0, ty);
            if d.r is Ok {
                scope_fold(op, args, i + 1, d.r->Ok_0, ty, d.g);
            }
        }
    }
}

proof fn scope_arith(op: Seq<char>, args: Seq<ExprV>, ty: TypeV, g: GenV)
    requires
        binds_payloads_all(args, g.variants),
    ensures
        lowering::lower_arith(op, args, ty, g).r is Ok ==> scoped(g, lowering::lower_arith(op, args, ty, g).g),
    decreases args, args.len() + 1,
{
    if args.len() > 0 {
        scope_value(args[0], g, "unary -"@);
        scope_value(args[0], g, "arith identity"@);
        let c = lowering::lower_value(args[0], g, "arith lhs"@);
        scope_value(args[0], g, "arith lhs"@);
        if c.r is Ok {
            scope_fold(op, args, 1, c.r->Ok_0, ty, c.g);
        }
    }
}

proof fn scope_test(op: Seq<char>, args: Seq<ExprV>, g: GenV)
    requires
        binds_payloads_all(args, g.variants),
    ensures
        lowering::lower_test(op, args, g).r is Ok ==> scoped(g, lowering::lower_test(op, args, g).g),
    decreases args, args.len() + 1,
{
    if args.len() >= 2 {
        let c = lowering::lower_value(args[0], g, "operand"@);
        scope_value(args[0], g, "operand"@);
        if c.r is Ok {
            scope_value(args[1], c.g, "operand"@);
        }
    }
}

#[verifier::rlimit(60)]
proof fn scope_short(is_and: bool, args: Seq<ExprV>, g: GenV)
    requires
        binds_payloads_all(args, g.variants),
    ensures
        lowering::lower_short(is_and, args, g).r is Ok ==> scoped(g, lowering::lower_short(is_and, args, g).g),
    decreases args, args.len() + 1,
{
    if args.len() >= 2 {
        let c = lowering::lower_value(args[0], g, if is_and { "and lhs"@ } else { "or lhs"@ });
        scope_value(args[0], g, if is_and { "and lhs"@ } else { "or lhs"@ });
        if c.r is Ok {
            let a = c.r->Ok_0;
            let rhs_bb = lowering::next(c.g);
            let g1 = lowering::block(c.g, if is_and { "and.rhs"@ } else { "or.rhs"@ });
            let merge_bb = lowering::next(g1);
            let g2 = lowering::block(g1, if is_and { "and.end"@ } else { "or.end"@ });
            let g3 = if is_and {
                lowering::step(g2, OpV::CondBr { cond: a, yes: rhs_bb, no: merge_bb })
            } else {
                lowering::step(g2, OpV::CondBr { cond: a, yes: merge_bb, no: rhs_bb })
            };
            let h = lowering::go(g3, rhs_bb);
            let d = lowering::lower_value(args[1], h, if is_and { "and rhs"@ } else { "or rhs"@ });
            scope_value(args[1], h, if is_and { "and rhs"@ } else { "or rhs"@ });
            if d.r is Ok {
                let g4 = lowering::go(lowering::step(d.g, OpV::Br(merge_bb)), merge_bb);
                let decided = ValV::Int(
                    Prim::I1,
                    if is_and {
                        0
                    } else {
                        1
                    },
                );
            }
        }
    }
}

proof fn scope_not(args: Seq<ExprV>, g: GenV)
    requires
        binds_payloads_all(args, g.variants),
    ensures
        lowering::lower_not(args, g).r is Ok ==> scoped(g, lowering::lower_not(args, g).g),
    decreases args, args.len() + 1,
{
    if args.len() > 0 {
        scope_value(args[0], g, "operand"@);
    }
}

proof fn scope_print_arg(g: GenV, v: ValV, ty: TypeV)
    ensures
        lowering::lower_print_arg(g, v, ty).r is Ok ==> scoped(g, lowering::lower_print_arg(g, v, ty).g),
{
    if ty is Bool {
    }
}

proof fn scope_print_str(g: GenV, v: ValV, newline: bool)
    ensures
        lowering::lower_print_str(g, v, newline).r is Ok ==> scoped(g, lowering::lower_print_str(g, v, newline).g),
{
    let c = lowering::lower_rt(g, "risp_str_cstr"@, seq![v], "risp_str_cstr"@);
    scope_rt(g, "risp_str_cstr"@, seq![v], "risp_str_cstr"@);
    if c.r is Ok {
        let cstr = c.r->Ok_0;
        if newline {
            let d = lowering::lower_rt(c.g, "__puts"@, seq![cstr], "putscall"@);
            scope_rt(c.g, "__puts"@, seq![cstr], "putscall"@);
            scope_drop(d.g, v, TypeV::Str);
        } else {
            let g1 = lowering::lower_text(c.g, "%s"@);
            let args = seq![lowering::made(c.g), cstr];
            let d = lowering::lower_rt(g1, "__printf"@, args, "printfcall"@);
            scope_rt(g1, "__printf"@, args, "printfcall"@);
            scope_drop(d.g, v, TypeV::Str);
        }
    }
}

proof fn scope_print(args: Seq<ExprV>, newline: bool, g: GenV)
    requires
        binds_payloads_all(args, g.variants),
    ensures
        lowering::lower_print(args, newline, g).r is Ok ==> scoped(g, lowering::lower_print(args, newline, g).g),
    decreases args, args.len() + 1,
{
    if args.len() > 0 {
        if let Some(ty) = args[0].ty {
            let c = lowering::lower_value(args[0], g, "print arg"@);
            scope_value(args[0], g, "print arg"@);
            if c.r is Ok {
                let v = c.r->Ok_0;
                scope_print_str(c.g, v, newline);
                let d = lowering::lower_print_arg(c.g, v, ty);
                scope_print_arg(c.g, v, ty);
                if d.r is Ok {
                    let fmt = if newline {
                        d.r->Ok_0.0 + "\n"@
                    } else {
                        d.r->Ok_0.0
                    };
                    let h = lowering::lower_text(d.g, fmt);
                    let vs = seq![lowering::made(d.g), d.r->Ok_0.1];
                    scope_rt(h, "__printf"@, vs, "printfcall"@);
                }
            }
        }
    }
}

proof fn scope_concat(args: Seq<ExprV>, g: GenV)
    requires
        binds_payloads_all(args, g.variants),
    ensures
        lowering::lower_concat(args, g).r is Ok ==> scoped(g, lowering::lower_concat(args, g).g),
    decreases args, args.len() + 1,
{
    if args.len() >= 2 {
        let c = lowering::lower_value(args[0], g, "str-concat a"@);
        scope_value(args[0], g, "str-concat a"@);
        if c.r is Ok {
            let d = lowering::lower_value(args[1], c.g, "str-concat b"@);
            scope_value(args[1], c.g, "str-concat b"@);
            if d.r is Ok {
                let (a, b) = (c.r->Ok_0, d.r->Ok_0);
                let x = lowering::lower_rt(d.g, "risp_str_concat"@, seq![a, b], "strconcat"@);
                scope_rt(d.g, "risp_str_concat"@, seq![a, b], "strconcat"@);
                let y = lowering::lower_drop(x.g, a, TypeV::Str);
                scope_drop(x.g, a, TypeV::Str);
                scope_drop(y.g, b, TypeV::Str);
            }
        }
    }
}

proof fn scope_str_len(args: Seq<ExprV>, g: GenV)
    requires
        binds_payloads_all(args, g.variants),
    ensures
        lowering::lower_str_len(args, g).r is Ok ==> scoped(g, lowering::lower_str_len(args, g).g),
    decreases args, args.len() + 1,
{
    if args.len() > 0 {
        let c = lowering::lower_value(args[0], g, "str-len"@);
        scope_value(args[0], g, "str-len"@);
        if c.r is Ok {
            let a = c.r->Ok_0;
            let x = lowering::lower_rt(c.g, "risp_str_len"@, seq![a], "strlen"@);
            scope_rt(c.g, "risp_str_len"@, seq![a], "strlen"@);
            scope_drop(x.g, a, TypeV::Str);
        }
    }
}

proof fn scope_aget(args: Seq<ExprV>, g: GenV)
    requires
        binds_payloads_all(args, g.variants),
    ensures
        lowering::lower_aget(args, g).r is Ok ==> scoped(g, lowering::lower_aget(args, g).g),
    decreases args, args.len() + 1,
{
    if args.len() >= 2 {
        if let Some(TypeV::Array { elem, len }) = args[0].ty {
            let c = lowering::lower_value(args[0], g, "aget arr"@);
            scope_value(args[0], g, "aget arr"@);
            if c.r is Ok {
                let d = lowering::lower_value(args[1], c.g, "aget idx"@);
                scope_value(args[1], c.g, "aget idx"@);
                if d.r is Ok {
                    if let Ok(at) = lowering::lower_array_type(*elem, len) {
                        let op = OpV::ElemPtr {
                            ty: at,
                            ptr: c.r->Ok_0,
                            index: d.r->Ok_0,
                            name: "agetptr"@,
                        };
                        scope_load(lowering::step(d.g, op), lowering::made(d.g), *elem, "aget"@);
                    }
                }
            }
        }
    }
}

proof fn scope_aset(args: Seq<ExprV>, g: GenV)
    requires
        binds_payloads_all(args, g.variants),
    ensures
        lowering::lower_aset(args, g).r is Ok ==> scoped(g, lowering::lower_aset(args, g).g),
    decreases args, args.len() + 1,
{
    if args.len() >= 3 {
        let c = lowering::lower_value(args[0], g, "aset! arr"@);
        scope_value(args[0], g, "aset! arr"@);
        if c.r is Ok {
            let d = lowering::lower_value(args[1], c.g, "aset! idx"@);
            scope_value(args[1], c.g, "aset! idx"@);
            if d.r is Ok {
                scope_value(args[2], d.g, "aset! val"@);
            }
        }
    }
}

proof fn scope_alen(args: Seq<ExprV>, g: GenV)
    requires
        binds_payloads_all(args, g.variants),
    ensures
        lowering::lower_alen(args, g).r is Ok ==> scoped(g, lowering::lower_alen(args, g).g),
    decreases args, args.len() + 1,
{
    if args.len() > 0 {
        let c = lowering::lower(args[0], ValueUse::Move, g);
        scope_expr(args[0], ValueUse::Move, g);
    }
}

proof fn scope_fields(fields: Seq<FieldDefV>, args: Seq<ExprV>, i: int, agg: ValV, g: GenV)
    requires
        binds_payloads_all(args, g.variants),
    ensures
        lowering::lower_fields(fields, args, i, agg, g).r is Ok ==> scoped(g, lowering::lower_fields(fields, args, i, agg, g).g),
    decreases args, args.len() - i,
{
    if 0 <= i < args.len() && i < fields.len() {
        let c = lowering::lower_value(args[i], g, "struct field"@);
        scope_value(args[i], g, "struct field"@);
        if c.r is Ok {
            let op = OpV::Insert {
                agg,
                val: c.r->Ok_0,
                index: i as u32,
                name: fields[i].name,
            };
            scope_fields(fields, args, i + 1, lowering::made(c.g), lowering::step(c.g, op));
        }
    }
}

proof fn scope_enum(g: GenV, tag: u32, bits: ValV)
    ensures
        lowering::lower_enum(g, tag, bits).r is Ok ==> scoped(g, lowering::lower_enum(g, tag, bits).g),
{
}

proof fn scope_variant(info: VariantInfoV, args: Seq<ExprV>, g: GenV)
    requires
        binds_payloads_all(args, g.variants),
    ensures
        lowering::lower_variant(info, args, g).r is Ok ==> scoped(g, lowering::lower_variant(info, args, g).g),
    decreases args, args.len() + 1,
{
    match info.payload {
        None => {
            scope_enum(g, info.tag, ValV::Int(Prim::I64, 0));
        },
        Some(pty) => {
            if args.len() > 0 {
                let c = lowering::lower_value(args[0], g, "variant payload"@);
                scope_value(args[0], g, "variant payload"@);
                if c.r is Ok {
                    let d = lowering::lower_pack(c.g, c.r->Ok_0, pty);
                    scope_pack(c.g, c.r->Ok_0, pty);
                    if d.r is Ok {
                        scope_enum(d.g, info.tag, d.r->Ok_0);
                    }
                }
            }
        },
    }
}

proof fn scope_call_args(
    args: Seq<ExprV>,
    i: int,
    params: Seq<TypeV>,
    foreign: bool,
    acc: Seq<ValV>,
    owned: Seq<ValV>,
    g: GenV,
)
    requires
        binds_payloads_all(args, g.variants),
    ensures
        lowering::lower_call_args(args, i, params, foreign, acc, owned, g).r is Ok ==> scoped(g, lowering::lower_call_args(args, i, params, foreign, acc, owned, g).g),
    decreases args, args.len() - i,
{
    if 0 <= i < args.len() {
        let c = lowering::lower_value(args[i], g, "call argument"@);
        scope_value(args[i], g, "call argument"@);
        if c.r is Ok {
            let v = c.r->Ok_0;
            if foreign && i < params.len() && params[i] is Str {
                let d = lowering::lower_rt(c.g, "risp_str_cstr"@, seq![v], "risp_str_cstr"@);
                scope_rt(c.g, "risp_str_cstr"@, seq![v], "risp_str_cstr"@);
                if d.r is Ok {
                    let cstr = d.r->Ok_0;
                    scope_call_args(args, i + 1, params, foreign, acc.push(cstr), owned.push(v), d.g);
                }
            } else {
                scope_call_args(args, i + 1, params, foreign, acc.push(v), owned, c.g);
            }
        }
    }
}

proof fn scope_drop_all(vs: Seq<ValV>, i: int, g: GenV)
    ensures
        lowering::lower_drop_all(vs, i, g).r is Ok ==> scoped(g, lowering::lower_drop_all(vs, i, g).g),
    decreases vs.len() - i,
{
    if 0 <= i < vs.len() {
        let c = lowering::lower_drop(g, vs[i], TypeV::Str);
        scope_drop(g, vs[i], TypeV::Str);
        scope_drop_all(vs, i + 1, c.g);
    }
}

proof fn scope_fn_call(callee: Seq<char>, args: Seq<ExprV>, g: GenV)
    requires
        binds_payloads_all(args, g.variants),
    ensures
        lowering::lower_fn_call(callee, args, g).r is Ok ==> scoped(g, lowering::lower_fn_call(callee, args, g).g),
    decreases args, args.len() + 1,
{
    if g.fns.contains_key(callee) && g.fn_types.contains_key(callee) {
        let func = g.fns[callee];
        let sig = g.fn_types[callee];
        let foreign = g.externs.contains_key(callee);
        let c = lowering::lower_call_args(args, 0, sig.params, foreign, Seq::empty(), Seq::empty(), g);
        scope_call_args(args, 0, sig.params, foreign, Seq::empty(), Seq::empty(), g);
        if c.r is Ok {
            let av = c.r->Ok_0;
            let g1 = lowering::step(c.g, OpV::Call { func, args: av.0, name: "calltmp"@ });
            let result = lowering::made(c.g);
            let d = lowering::lower_drop_all(av.1, 0, g1);
            scope_drop_all(av.1, 0, g1);
            scope_rt(d.g, "risp_str_from_cstr"@, seq![result], "risp_str_from_cstr"@);
        }
    }
}

#[verifier::rlimit(40)]
proof fn scope_call(callee: Seq<char>, args: Seq<ExprV>, ty: TypeV, g: GenV)
    requires
        binds_payloads_all(args, g.variants),
    ensures
        lowering::lower_call(callee, args, ty, g).r is Ok ==> scoped(g, lowering::lower_call(callee, args, ty, g).g),
    decreases args, args.len() + 2,
{
    scope_arith(callee, args, ty, g);
    scope_test(callee, args, g);
    scope_short(true, args, g);
    scope_short(false, args, g);
    scope_not(args, g);
    scope_print(args, true, g);
    scope_print(args, false, g);
    scope_concat(args, g);
    scope_str_len(args, g);
    scope_aget(args, g);
    scope_aset(args, g);
    scope_alen(args, g);
    scope_struct(callee, args, g);
    scope_variant(g.variants[callee], args, g);
    scope_fn_call(callee, args, g);
}

proof fn scope_struct(name: Seq<char>, args: Seq<ExprV>, g: GenV)
    requires
        binds_payloads_all(args, g.variants),
    ensures
        lowering::lower_struct(name, args, g).r is Ok ==> scoped(g, lowering::lower_struct(name, args, g).g),
    decreases args, args.len() + 1,
{
    if let Ok(st) = lowering::lower_type(g, TypeV::Named(name)) {
        scope_fields(g.structs[name].fields, args, 0, ValV::Undef(st), g);
    }
}

/// An expression leaves the variables in scope as they were: what its `let` and
/// `match` forms bind is gone behind it, and what they hid is back.
pub proof fn law_expression_keeps_scope(e: ExprV, mode: ValueUse, g: GenV)
    requires
        binds_payloads(e, g.variants),
    ensures
        ({
            let c = lowering::lower(e, mode, g);
            c.r is Ok ==> c.g.locals == g.locals
        }),
{
    scope_expr(e, mode, g);
}

proof fn scope_release_locals(
    g: GenV,
    ls: Seq<LocalV>,
    i: int,
    kept: Seq<LocalV>,
    name: Seq<char>,
    again: bool,
)
    ensures
        ({
            let c = lowering::lower_release_locals(g, ls, i, kept, name, again);
            c.r is Ok ==> scoped(g, c.g)
        }),
    decreases ls.len() - i,
{
    lemma_scoped_same(g, g);
    if 0 <= i < ls.len() {
        let c = lowering::lower_release(g, ls[i].ptr, ls[i].ty, name);
        scope_release(g, ls[i].ptr, ls[i].ty, name);
        let empty = lowering::step(c.g, OpV::Store { ptr: ls[i].ptr, val: ValV::Null });
        scope_release_locals(if again { empty } else { c.g }, ls, i + 1, kept, name, again);
        scope_release_locals(g, ls, i + 1, kept, name, again);
    }
}

proof fn scope_return(g: GenV, v: Option<ValV>, ret: TypeV)
    ensures
        ({
            let c = lowering::lower_return(g, v, ret);
            c.r is Ok ==> scoped(g, c.g)
        }),
{
    scope_release_locals(g, g.locals, 0, Seq::empty(), "drop.local"@, false);
}

proof fn scope_new_params(names: Seq<Seq<char>>, vs: Seq<ValV>, i: int, g: GenV)
    ensures
        ({
            let c = lowering::lower_new_params(names, vs, i, g);
            c.r is Ok ==> scoped(g, c.g)
        }),
    decreases names.len() - i,
{
    lemma_scoped_same(g, g);
    if 0 <= i < names.len() && i < vs.len() {
        if let Some(l) = lowering::find_local(g.param_locals, names[i]) {
            let c = lowering::lower_store(g, l.ptr, vs[i], l.ty);
            scope_store(g, l.ptr, vs[i], l.ty);
            scope_new_params(names, vs, i + 1, c.g);
        }
    }
}

proof fn scope_self_call(args: Seq<ExprV>, g: GenV)
    requires
        binds_payloads_all(args, g.variants),
    ensures
        ({
            let c = lowering::lower_self_call(args, g);
            c.r is Ok ==> scoped(g, c.g)
        }),
{
    let c = lowering::lower_args(args, 0, Seq::empty(), g, "tco arg"@);
    scope_args(args, 0, Seq::empty(), g, "tco arg"@);
    if c.r is Ok {
        let ls = c.g.locals;
        let d = lowering::lower_release_locals(c.g, ls, 0, c.g.param_locals, "tco.drop"@, true);
        scope_release_locals(c.g, ls, 0, c.g.param_locals, "tco.drop"@, true);
        scope_new_params(d.g.param_names, c.r->Ok_0, 0, d.g);
    }
}

proof fn scope_tail_do(es: Seq<ExprV>, i: int, g: GenV)
    requires
        binds_payloads_all(es, g.variants),
    ensures
        ({
            let c = lowering::lower_tail_do(es, i, g);
            c.r is Ok ==> scoped(g, c.g)
        }),
    decreases es.len() - i,
{
    lemma_scoped_same(g, g);
    if 0 <= i < es.len() - 1 {
        let c = lowering::lower(es[i], ValueUse::Move, g);
        scope_expr(es[i], ValueUse::Move, g);
        if c.r is Ok {
            let d = lowering::lower_unused(c.g, es[i], c.r->Ok_0);
            scope_unused(c.g, es[i], c.r->Ok_0);
            scope_tail_do(es, i + 1, d.g);
        }
    }
}

proof fn scope_tail_if(e: ExprV, ret: TypeV, g: GenV)
    requires
        e.kind is If,
        binds_payloads(e, g.variants),
    ensures
        lowering::lower_tail(e, ret, g).r is Ok ==> scoped(g, lowering::lower_tail(e, ret, g).g),
    decreases e, 0int,
{
    if let ExprKindV::If { cond, then_branch, else_branch } = e.kind {
        let c = lowering::lower_value(*cond, g, "if cond"@);
        scope_value(*cond, g, "if cond"@);
        if c.r is Ok {
            let then_bb = lowering::next(c.g);
            let g1 = lowering::block(c.g, "then.tail"@);
            let else_bb = lowering::next(g1);
            let g2 = lowering::block(g1, "else.tail"@);
            let br = OpV::CondBr { cond: c.r->Ok_0, yes: then_bb, no: else_bb };
            let g3 = lowering::step(g2, br);
            let g4 = lowering::go(g3, then_bb);
            let t = lowering::lower_tail(*then_branch, ret, g4);
            scope_tail(*then_branch, ret, g4);
            if t.r is Ok {
                let g5 = lowering::go(t.g, else_bb);
                scope_tail(*else_branch, ret, g5);
                let f = lowering::lower_tail(*else_branch, ret, g5);
                if f.r is Ok {
                    assert(scoped(g, g4));
                    assert(scoped(g4, g5));
                    assert(scoped(g5, f.g));
                }
            }
        }
    }
}

proof fn scope_tail_let(e: ExprV, ret: TypeV, g: GenV)
    requires
        e.kind is Let,
        binds_payloads(e, g.variants),
    ensures
        lowering::lower_tail(e, ret, g).r is Ok ==> scoped(g, lowering::lower_tail(e, ret, g).g),
    decreases e, 0int,
{
    if let ExprKindV::Let { bindings, body } = e.kind {
        let none = Seq::<Shadowed>::empty();
        let c = lowering::lower_bindings(bindings, 0, none, g);
        scope_bindings(g.locals, bindings, 0, none, g);
        if c.r is Ok {
            scope_tail(*body, ret, c.g);
        }
    }
}

/// An expression whose value is returned.
proof fn scope_value_returned(e: ExprV, ret: TypeV, g: GenV)
    requires
        binds_payloads(e, g.variants),
    ensures
        ({
            let c = lowering::lower(e, ValueUse::Move, g);
            let d = lowering::lower_return(c.g, c.r->Ok_0, ret);
            c.r is Ok && d.r is Ok ==> scoped(g, d.g)
        }),
{
    let c = lowering::lower(e, ValueUse::Move, g);
    scope_expr(e, ValueUse::Move, g);
    if c.r is Ok {
        let d = lowering::lower_return(c.g, c.r->Ok_0, ret);
        scope_return(c.g, c.r->Ok_0, ret);
        if d.r is Ok {
            lemma_scoped_trans(g, c.g, d.g);
        }
    }
}

/// A `do` in tail position, up to its last expression.
proof fn scope_before_last(es: Seq<ExprV>, g: GenV)
    requires
        es.len() > 0,
        binds_payloads_all(es, g.variants),
    ensures
        ({
            let c = lowering::lower_tail_do(es, 0, g);
            c.r is Ok ==> scoped(g, c.g) && binds_payloads(es.last(), c.g.variants)
        }),
{
    let c = lowering::lower_tail_do(es, 0, g);
    scope_tail_do(es, 0, g);
    if c.r is Ok {
        lemma_scoped_variants(g, c.g);
        assert(binds_payloads(es[es.len() - 1], g.variants));
    }
}

#[verifier::rlimit(40)]
proof fn scope_tail_sequence(e: ExprV, ret: TypeV, g: GenV)
    requires
        e.kind is Do,
        binds_payloads(e, g.variants),
    ensures
        lowering::lower_tail(e, ret, g).r is Ok ==> scoped(g, lowering::lower_tail(e, ret, g).g),
    decreases e, 0int,
{
    if let ExprKindV::Do(es) = e.kind {
        let whole = lowering::lower_tail(e, ret, g);
        if es.len() == 0 {
            scope_return(g, None, ret);
            assert(whole == lowering::lower_return(g, None, ret));
        } else {
            let c = lowering::lower_tail_do(es, 0, g);
            scope_before_last(es, g);
            if c.r is Ok {
                let last = es[es.len() - 1];
                let d = lowering::lower_tail(last, ret, c.g);
                assert(whole == d);
                scope_tail(last, ret, c.g);
                if d.r is Ok {
                    lemma_scoped_trans(g, c.g, d.g);
                }
            }
        }
    }
}

proof fn scope_tail(e: ExprV, ret: TypeV, g: GenV)
    requires
        binds_payloads(e, g.variants),
    ensures
        lowering::lower_tail(e, ret, g).r is Ok ==> scoped(g, lowering::lower_tail(e, ret, g).g),
    decreases e, 1int,
{
    if e.kind is If {
        scope_tail_if(e, ret, g);
    } else if e.kind is Let {
        scope_tail_let(e, ret, g);
    } else if e.kind is Do {
        scope_tail_sequence(e, ret, g);
    } else {
        scope_value_returned(e, ret, g);
        if let ExprKindV::Call { callee, args } = e.kind {
            scope_self_call(args, g);
        }
    }
}

/// An expression in tail position leaves the variables in scope as they were too, on
/// every way out of the function: by a return, by a call of the function to itself, and
/// by either branch of an `if`.
pub proof fn law_tail_keeps_scope(e: ExprV, ret: TypeV, g: GenV)
    requires
        binds_payloads(e, g.variants),
    ensures
        ({
            let c = lowering::lower_tail(e, ret, g);
            c.r is Ok ==> c.g.locals == g.locals
        }),
{
    scope_tail(e, ret, g);
}

} // verus!
