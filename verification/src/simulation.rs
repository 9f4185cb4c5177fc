//! Laws of the compiler as a whole: what a script does is what the program means.
use crate::ast::{ExprKindV, ExprV, LitV, TypeV};
use crate::blocks;
use crate::fitting;
use crate::ir::{OpV, Val, ValV};
use crate::ir;
use crate::lowering::{GenV, LocalV, ValueUse};
use crate::lowering;
use crate::machine::{MachineV, MV, World};
use crate::machine;
use crate::meaning::{LV, Meaning, Res, StateV, VarV};
use crate::meaning;
use crate::progress;
use crate::scopes;
use crate::scripts;
use crate::sim_exprs;
use crate::text;
use crate::typing::{CkV, Env};
use crate::typing;
use vstd::prelude::*;
use vstd::string::*;

verus! {

/// Whether a value is a number or a truth value of this type.
pub open spec fn has_scalar(v: LV, t: TypeV) -> bool {
    match (v, t) {
        (LV::I32(x), TypeV::I32) => machine::fits32(x),
        (LV::I64(x), TypeV::I64) => machine::fits64(x),
        (LV::F32(_), TypeV::F32) => true,
        (LV::F64(_), TypeV::F64) => true,
        (LV::Bool(_), TypeV::Bool) => true,
        _ => false,
    }
}

/// Whether a value is of this type.
pub open spec fn has_type(v: LV, t: TypeV, c: CkV) -> bool {
    match v {
        LV::Unit => t is Unit,
        LV::Str(_) => t is Str,
        LV::Struct(vs) => t matches TypeV::Named(n) && c.structs.contains_key(n) && vs.len()
            == c.structs[n].fields.len() && forall|i: int|
            0 <= i < vs.len() ==> has_scalar(#[trigger] vs[i], c.structs[n].fields[i].ty),
        LV::Variant(x, payload) => t matches TypeV::Named(n) && c.variants.contains_key(x)
            && c.variants[x].enum_name == n && (match (payload, c.variants[x].payload) {
            (None, None) => true,
            (Some(y), Some(pt)) => has_scalar(*y, pt),
            _ => false,
        }),
        _ => has_scalar(v, t),
    }
}

/// The bits that an enum holds for a payload.
pub open spec fn payload_bits(v: LV) -> int {
    match v {
        LV::I32(x) => machine::unsigned32(x),
        LV::I64(x) => x,
        LV::F32(b) => b as int,
        LV::F64(b) => machine::wrap64(b as int),
        LV::Bool(b) => machine::bit(b),
        _ => 0,
    }
}

pub open spec fn scalar_repr(v: LV) -> MV {
    match v {
        LV::I32(x) => MV::I32(x),
        LV::I64(x) => MV::I64(x),
        LV::F32(b) => MV::F32(b),
        LV::F64(b) => MV::F64(b),
        LV::Bool(b) => MV::I1(b),
        _ => MV::Undef,
    }
}

/// How the machine holds a value.
pub open spec fn repr(v: LV, c: CkV) -> MV {
    match v {
        LV::Str(s) => MV::Str(s),
        LV::Struct(vs) => MV::Agg(Seq::new(vs.len(), |i: int| scalar_repr(vs[i]))),
        LV::Variant(x, payload) => MV::Agg(
            seq![
                MV::I32(machine::wrap32(c.variants[x].tag as int)),
                MV::I64(
                    match payload {
                        Some(y) => payload_bits(*y),
                        None => 0,
                    },
                ),
            ],
        ),
        _ => scalar_repr(v),
    }
}

/// A variable in scope: its type, and the slot that holds its value.
#[verifier::ext_equal]
pub struct Bind {
    pub name: Seq<char>,
    pub ty: TypeV,
    pub slot: int,
}

/// The place of the innermost variable of this name.
pub open spec fn place(bs: Seq<Bind>, name: Seq<char>) -> Option<int>
    decreases bs.len(),
{
    if bs.len() == 0 {
        None
    } else if bs.last().name == name {
        Some(bs.len() - 1)
    } else {
        place(bs.drop_last(), name)
    }
}

/// The types of the variables in scope.
pub open spec fn env_of(bs: Seq<Bind>) -> Env
    decreases bs.len(),
{
    if bs.len() == 0 {
        Map::empty()
    } else {
        env_of(bs.drop_last()).insert(bs.last().name, bs.last().ty)
    }
}

pub proof fn lemma_place(bs: Seq<Bind>, name: Seq<char>)
    ensures
        match place(bs, name) {
            Some(k) => 0 <= k < bs.len() && bs[k].name == name && env_of(bs).contains_key(name)
                && env_of(bs)[name] == bs[k].ty,
            None => !env_of(bs).contains_key(name),
        },
    decreases bs.len(),
{
    if bs.len() > 0 && bs.last().name != name {
        lemma_place(bs.drop_last(), name);
    }
}

/// The same place in the state of the program.
pub proof fn lemma_innermost(bs: Seq<Bind>, env: Seq<VarV>, name: Seq<char>)
    requires
        bs.len() == env.len(),
        forall|i: int| 0 <= i < bs.len() ==> (#[trigger] env[i]).name == bs[i].name,
    ensures
        meaning::innermost(env, name) == place(bs, name),
    decreases bs.len(),
{
    if bs.len() > 0 {
        assert(env[env.len() - 1].name == bs[bs.len() - 1].name);
        let a = bs.drop_last();
        let b = env.drop_last();
        assert forall|i: int| 0 <= i < a.len() implies (#[trigger] b[i]).name == a[i].name by {
            assert(env[i].name == bs[i].name);
        }
        lemma_innermost(a, b, name);
    }
}

/// Whether the code generator knows the variables `bs`, each by its slot.
#[verifier::opaque]
pub open spec fn scope(ops: Seq<OpV>, g: GenV, bs: Seq<Bind>) -> bool {
    &&& forall|n: Seq<char>| #[trigger]
        lowering::find_local(g.locals, n) == match place(bs, n) {
            Some(k) => Some(
                LocalV { name: n, ptr: ValV::Reg(bs[k].slot as usize), ty: bs[k].ty },
            ),
            None => None,
        }
    &&& forall|i: int| 0 <= i < bs.len() ==> {
        &&& 0 <= (#[trigger] bs[i]).slot < g.ops.len()
        &&& ops[bs[i].slot] is EntryAlloca
    }
    &&& forall|i: int, j: int|
        0 <= i < j < bs.len() ==> (#[trigger] bs[i]).slot != (#[trigger] bs[j]).slot
}

/// Whether the slots hold what the variables are, and the same has been printed.
#[verifier::opaque]
pub open spec fn agrees(c: CkV, bs: Seq<Bind>, s: StateV, m: MachineV) -> bool {
    &&& s.env.len() == bs.len()
    &&& forall|i: int| 0 <= i < bs.len() ==> {
        &&& (#[trigger] s.env[i]).name == bs[i].name
        &&& has_type(s.env[i].val, bs[i].ty, c)
        &&& m.mem.contains_key(bs[i].slot)
        &&& m.mem[bs[i].slot] == repr(s.env[i].val, c)
    }
    &&& m.out == s.out
}

/// Whether the script is one that `g` became.
#[verifier::opaque]
pub open spec fn within(ops: Seq<OpV>, g: GenV) -> bool {
    ops.len() <= usize::MAX && g.ops.is_prefix_of(ops)
}

pub broadcast proof fn lemma_within_step(ops: Seq<OpV>, g: GenV, op: OpV)
    requires
        #[trigger] within(ops, lowering::step(g, op)),
    ensures
        within(ops, g),
        g.ops.len() < ops.len(),
        ops[g.ops.len() as int] == op,
        lowering::next(g) as int == g.ops.len(),
{
    reveal(within);
    let h = lowering::step(g, op);
    assert(h.ops[g.ops.len() as int] == op);
    assert(g.ops =~= ops.subrange(0, g.ops.len() as int)) by {
        assert forall|i: int| 0 <= i < g.ops.len() implies g.ops[i] == ops[i] by {
            assert(h.ops[i] == g.ops[i]);
            assert(ops.subrange(0, h.ops.len() as int)[i] == ops[i]);
        }
    }
    assert(ops.subrange(0, h.ops.len() as int)[g.ops.len() as int] == ops[g.ops.len() as int]);
}

pub broadcast proof fn lemma_within_go(ops: Seq<OpV>, g: GenV, bb: usize)
    requires
        #[trigger] within(ops, lowering::go(g, bb)),
    ensures
        within(ops, g),
        g.ops.len() < ops.len(),
        ops[g.ops.len() as int] == OpV::PositionAt(bb),
{
    let h = lowering::step(g, OpV::PositionAt(bb));
    lemma_within_same(ops, lowering::go(g, bb), h);
    lemma_within_step(ops, g, OpV::PositionAt(bb));
}

pub broadcast proof fn lemma_within_text(ops: Seq<OpV>, g: GenV, s: Seq<char>)
    requires
        #[trigger] within(ops, lowering::lower_text(g, s)),
    ensures
        within(ops, g),
        g.ops.len() < ops.len(),
        ops[g.ops.len() as int] matches OpV::GlobalText { text, .. } && text == s,
        lowering::next(g) as int == g.ops.len(),
{
    let op = OpV::GlobalText { text: s, name: ".str"@ + text::dec(g.str_count as nat) };
    lemma_within_same(ops, lowering::lower_text(g, s), lowering::step(g, op));
    lemma_within_step(ops, g, op);
}

pub proof fn lemma_within_same(ops: Seq<OpV>, g: GenV, h: GenV)
    requires
        within(ops, g),
        g.ops == h.ops,
    ensures
        within(ops, h),
{
    reveal(within);
}

pub broadcast proof fn lemma_within_fills(ops: Seq<OpV>, g: GenV, h: GenV)
    requires
        #[trigger] blocks::fills(g, h),
        #[trigger] within(ops, h),
    ensures
        within(ops, g),
        g.ops.len() <= h.ops.len() <= ops.len(),
{
    reveal(within);
    reveal(blocks::fills);
    reveal(blocks::since);
    assert(g.ops =~= ops.subrange(0, g.ops.len() as int)) by {
        assert forall|i: int| 0 <= i < g.ops.len() implies g.ops[i] == ops[i] by {
            assert(h.ops.subrange(0, g.ops.len() as int)[i] == h.ops[i]);
            assert(ops.subrange(0, h.ops.len() as int)[i] == ops[i]);
        }
    }
}

pub broadcast group group_within {
    lemma_within_step,
    lemma_within_go,
    lemma_within_text,
    lemma_within_fills,
}

/// What the code generator knows of the program and the run time is in the script.
#[verifier::opaque]
pub open spec fn linked(p: Meaning, ops: Seq<OpV>, g: GenV) -> bool {
    &&& g.structs == p.types.structs
    &&& g.enums == p.types.enums
    &&& g.variants == p.types.variants
    &&& fitting::in_order(p.types)
    &&& named_right(p.types)
    &&& forall|n: Seq<char>| #[trigger] p.types.consts.contains_key(n) ==> const_linked(p, ops, g, n)
    &&& run_time_linked(ops, g, "__puts"@, "puts"@)
    &&& run_time_linked(ops, g, "__printf"@, "printf"@)
    &&& run_time_linked(ops, g, "risp_str_from_cstr"@, "risp_str_from_cstr"@)
    &&& run_time_linked(ops, g, "risp_str_retain"@, "risp_str_retain"@)
    &&& run_time_linked(ops, g, "risp_str_release"@, "risp_str_release"@)
    &&& run_time_linked(ops, g, "risp_str_concat"@, "risp_str_concat"@)
    &&& run_time_linked(ops, g, "risp_str_len"@, "risp_str_len"@)
    &&& run_time_linked(ops, g, "risp_str_cstr"@, "risp_str_cstr"@)
}

/// Whether types are known by their names, variants of an enum have tags of their own, and
/// fields can be counted.
pub open spec fn named_right(c: CkV) -> bool {
    &&& forall|n: Seq<char>| #[trigger]
        c.structs.contains_key(n) ==> c.structs[n].name == n && c.structs[n].fields.len() <= u32::MAX
    &&& forall|n: Seq<char>| #[trigger] c.enums.contains_key(n) ==> c.enums[n].name == n
    &&& forall|a: Seq<char>, b: Seq<char>|
        #![trigger c.variants[a], c.variants[b]]
        c.variants.contains_key(a) && c.variants.contains_key(b) && c.variants[a].enum_name
            == c.variants[b].enum_name && c.variants[a].tag == c.variants[b].tag ==> a == b
}

/// A constant is what it is in the program.
pub open spec fn const_linked(p: Meaning, ops: Seq<OpV>, g: GenV, n: Seq<char>) -> bool {
    &&& g.consts.contains_key(n)
    &&& p.consts.contains_key(n)
    &&& has_type(p.consts[n], p.types.consts[n], p.types)
    &&& g.consts[n].0 == p.types.consts[n]
    &&& match p.consts[n] {
        LV::Str(s) => g.consts[n].1 matches ValV::Reg(i) && i < g.ops.len() && (
        ops[i as int] matches OpV::GlobalText { text, .. } && text == s),
        _ => !(g.consts[n].1 is Reg) && forall|m: MachineV| #[trigger]
            machine::operand(p.w, ops, m, g.consts[n].1) == repr(p.consts[n], p.types),
    }
}

/// A function of the run time is declared and has no body.
pub open spec fn run_time_linked(ops: Seq<OpV>, g: GenV, key: Seq<char>, name: Seq<char>) -> bool {
    &&& g.fns.contains_key(key)
    &&& g.fns[key] < ops.len()
    &&& ops[g.fns[key] as int] matches OpV::AddFunction { name: n, .. } && n == name
    &&& machine::first_block(ops, g.fns[key], 0) >= ops.len()
}

pub broadcast proof fn lemma_linked_step(p: Meaning, ops: Seq<OpV>, g: GenV, op: OpV)
    requires
        #[trigger] linked(p, ops, g),
    ensures
        linked(p, ops, #[trigger] lowering::step(g, op)),
{
    lemma_linked_same(p, ops, g, lowering::step(g, op));
}

pub broadcast proof fn lemma_linked_go(p: Meaning, ops: Seq<OpV>, g: GenV, bb: usize)
    requires
        #[trigger] linked(p, ops, g),
    ensures
        linked(p, ops, #[trigger] lowering::go(g, bb)),
{
    lemma_linked_same(p, ops, g, lowering::go(g, bb));
}

pub broadcast proof fn lemma_linked_text(p: Meaning, ops: Seq<OpV>, g: GenV, s: Seq<char>)
    requires
        #[trigger] linked(p, ops, g),
    ensures
        linked(p, ops, #[trigger] lowering::lower_text(g, s)),
{
    lemma_linked_same(p, ops, g, lowering::lower_text(g, s));
}

pub proof fn lemma_linked_same(p: Meaning, ops: Seq<OpV>, g: GenV, h: GenV)
    requires
        linked(p, ops, g),
        h.structs == g.structs,
        h.enums == g.enums,
        h.variants == g.variants,
        h.consts == g.consts,
        h.fns == g.fns,
        h.externs == g.externs,
        g.ops.len() <= h.ops.len(),
    ensures
        linked(p, ops, h),
{
    reveal(linked);
    assert forall|n: Seq<char>| #[trigger] p.types.consts.contains_key(n) implies const_linked(
        p,
        ops,
        h,
        n,
    ) by {
        assert(const_linked(p, ops, g, n));
    }
}

pub broadcast group group_linked {
    lemma_linked_step,
    lemma_linked_go,
    lemma_linked_text,
}

/// The variables in scope do not depend on the steps.
pub broadcast proof fn lemma_scope_step(ops: Seq<OpV>, g: GenV, op: OpV, bs: Seq<Bind>)
    requires
        #[trigger] scope(ops, g, bs),
    ensures
        scope(ops, #[trigger] lowering::step(g, op), bs),
{
    lemma_scope_same(ops, g, lowering::step(g, op), bs);
}

pub broadcast proof fn lemma_scope_go(ops: Seq<OpV>, g: GenV, bb: usize, bs: Seq<Bind>)
    requires
        #[trigger] scope(ops, g, bs),
    ensures
        scope(ops, #[trigger] lowering::go(g, bb), bs),
{
    lemma_scope_same(ops, g, lowering::go(g, bb), bs);
}

pub broadcast proof fn lemma_scope_text(ops: Seq<OpV>, g: GenV, s: Seq<char>, bs: Seq<Bind>)
    requires
        #[trigger] scope(ops, g, bs),
    ensures
        scope(ops, #[trigger] lowering::lower_text(g, s), bs),
{
    lemma_scope_same(ops, g, lowering::lower_text(g, s), bs);
}

pub proof fn lemma_scope_same(ops: Seq<OpV>, g: GenV, h: GenV, bs: Seq<Bind>)
    requires
        scope(ops, g, bs),
        h.locals == g.locals,
        g.ops.len() <= h.ops.len(),
    ensures
        scope(ops, h, bs),
{
    reveal(scope);
}

pub broadcast group group_scoped {
    lemma_scope_step,
    lemma_scope_go,
    lemma_scope_text,
}

/// Whether an operand is a step before `n`, or none.
pub open spec fn before(x: ValV, n: int) -> bool {
    x matches ValV::Reg(i) ==> i < n
}

/// What was made before step `n` stays.
pub open spec fn kept(n: int, a: MachineV, b: MachineV) -> bool {
    &&& b.args == a.args
    &&& forall|i: int| i < n ==> #[trigger] b.regs[i] == a.regs[i]
}

pub proof fn lemma_operand_kept(w: World, ops: Seq<OpV>, n: int, a: MachineV, b: MachineV, x: ValV)
    requires
        kept(n, a, b),
        before(x, n),
    ensures
        machine::operand(w, ops, b, x) == machine::operand(w, ops, a, x),
{
}

/// Where the machine stands when `g` has been carried out.
pub open spec fn here(g: GenV, m: MachineV) -> bool {
    m.pc == g.ops.len() && m.cur == g.block && g.block < g.ops.len()
}

/// One step, whatever it makes.
pub proof fn take(w: World, ops: Seq<OpV>, m: MachineV, op: OpV) -> (r: MachineV)
    requires
        0 <= m.pc < ops.len(),
        ops[m.pc] == op,
        !(op is Ret || op is Call),
        machine::step_of(w, ops, m) is Some,
    ensures
        machine::leads(w, ops, m, r),
        Some(r) == machine::step_of(w, ops, m),
{
    machine::leads_step(w, ops, m);
    machine::step_of(w, ops, m)->0
}

/// A call of a function of the run time.
pub proof fn take_rt(
    w: World,
    ops: Seq<OpV>,
    g: GenV,
    m: MachineV,
    key: Seq<char>,
    name: Seq<char>,
    args: Seq<ValV>,
) -> (r: MachineV)
    requires
        0 <= m.pc < ops.len(),
        run_time_linked(ops, g, key, name),
        ops[m.pc] matches OpV::Call { func, args: xs, .. } && func == g.fns[key] && xs == args,
        machine::run_time(w, name, machine::operands(w, ops, m, args), m.out) is Some,
    ensures
        machine::leads(w, ops, m, r),
        ({
            let (v, out) = machine::run_time(
                w,
                name,
                machine::operands(w, ops, m, args),
                m.out,
            )->0;
            r == (MachineV { regs: m.regs.insert(m.pc, v), pc: m.pc + 1, out, ..m })
        }),
{
    let vs = machine::operands(w, ops, m, args);
    assert(machine::call(0, w, ops, g.fns[key], vs, m.out) == machine::run_time(
        w,
        name,
        vs,
        m.out,
    ));
    machine::leads_call(0, w, ops, m);
    let (v, out) = machine::run_time(w, name, vs, m.out)->0;
    MachineV { regs: m.regs.insert(m.pc, v), pc: m.pc + 1, out, ..m }
}

pub proof fn lemma_agrees_regs(c: CkV, bs: Seq<Bind>, s: StateV, m: MachineV, r: MachineV)
    requires
        agrees(c, bs, s, m),
        r.mem == m.mem,
        r.out == m.out,
    ensures
        agrees(c, bs, s, r),
{
    reveal(agrees);
}

/// Where control is behind a `break`.
pub open spec fn left_loop(ops: Seq<OpV>, g: GenV, m: MachineV) -> bool {
    let bb = g.loop_exits.last();
    &&& g.loop_exits.len() > 0
    &&& m.pc == machine::goes_on(ops, bb, bb as int) + 1
    &&& m.cur == bb
}

/// Whether the machine, from state `a`, did what the expression means: `r` is what the
/// expression comes to, `s` the state of the program then, `h` what was built, and `x`
/// where the value is.
pub open spec fn does(
    p: Meaning,
    ops: Seq<OpV>,
    g: GenV,
    h: GenV,
    x: Option<ValV>,
    ty: TypeV,
    bs: Seq<Bind>,
    r: Res,
    s: StateV,
    a: MachineV,
    b: MachineV,
) -> bool {
    &&& machine::leads(p.w, ops, a, b)
    &&& kept(g.ops.len() as int, a, b)
    &&& agrees(p.types, bs, s, b)
    &&& match r {
        Res::Val(v) => {
            &&& !h.ended
            &&& here(h, b)
            &&& has_type(v, ty, p.types)
            &&& !(ty is Unit) ==> x is Some
            &&& x matches Some(y) ==> before(y, h.ops.len() as int) && machine::operand(p.w, ops, b, y)
                == repr(v, p.types)
        },
        Res::Brk => left_loop(ops, g, b),
    }
}

/// Where an expression can be carried out.
pub open spec fn ready(
    p: Meaning,
    ops: Seq<OpV>,
    g: GenV,
    bs: Seq<Bind>,
    s: StateV,
    m: MachineV,
) -> bool {
    &&& linked(p, ops, g)
    &&& scope(ops, g, bs)
    &&& agrees(p.types, bs, s, m)
    &&& here(g, m)
    &&& !g.ended
}

/// Steps that neither store nor print.
pub open spec fn quiet(
    w: World,
    ops: Seq<OpV>,
    g: GenV,
    h: GenV,
    a: MachineV,
    b: MachineV,
) -> bool {
    &&& machine::leads(w, ops, a, b)
    &&& kept(g.ops.len() as int, a, b)
    &&& b.mem == a.mem
    &&& b.out == a.out
    &&& here(h, b)
    &&& !h.ended
    &&& g.ops.len() <= h.ops.len()
}

/// One more step that makes a value.
pub proof fn make(p: Meaning, ops: Seq<OpV>, g: GenV, op: OpV, m: MachineV) -> (r: MachineV)
    requires
        here(g, m),
        !g.ended,
        within(ops, lowering::step(g, op)),
        !(op is Ret || op is Call || op is Store || op is PositionAt || ir::ends_block(op)),
        machine::step_of(p.w, ops, m) is Some,
    ensures
        quiet(p.w, ops, g, lowering::step(g, op), m, r),
        Some(r) == machine::step_of(p.w, ops, m),
        ops[m.pc] == op,
        r.pc == m.pc + 1,
{
    broadcast use group_within;

    take(p.w, ops, m, op)
}

pub proof fn quiet_on(
    w: World,
    ops: Seq<OpV>,
    g: GenV,
    h: GenV,
    i: GenV,
    a: MachineV,
    b: MachineV,
    c: MachineV,
)
    requires
        quiet(w, ops, g, h, a, b),
        quiet(w, ops, h, i, b, c),
    ensures
        quiet(w, ops, g, i, a, c),
{
    machine::leads_on(w, ops, a, b, c);
}

/// A call of the run time that prints nothing.
pub proof fn make_rt(
    p: Meaning,
    ops: Seq<OpV>,
    g: GenV,
    key: Seq<char>,
    name: Seq<char>,
    args: Seq<ValV>,
    label: Seq<char>,
    m: MachineV,
) -> (r: MachineV)
    requires
        here(g, m),
        !g.ended,
        run_time_linked(ops, g, key, name),
        lowering::lower_rt(g, key, args, label).r is Ok,
        within(ops, lowering::lower_rt(g, key, args, label).g),
        machine::run_time(p.w, name, machine::operands(p.w, ops, m, args), m.out) is Some,
    ensures
        ({
            let c = lowering::lower_rt(g, key, args, label);
            let (v, out) = machine::run_time(
                p.w,
                name,
                machine::operands(p.w, ops, m, args),
                m.out,
            )->0;
            &&& machine::leads(p.w, ops, m, r)
            &&& kept(g.ops.len() as int, m, r)
            &&& r == (MachineV { regs: m.regs.insert(m.pc, v), pc: m.pc + 1, out, ..m })
            &&& here(c.g, r)
            &&& !c.g.ended
            &&& c.g.ops.len() == g.ops.len() + 1
            &&& c.r->Ok_0 == ValV::Reg(g.ops.len() as usize)
            &&& machine::operand(p.w, ops, r, c.r->Ok_0) == v
            &&& before(c.r->Ok_0, c.g.ops.len() as int)
        }),
{
    broadcast use group_within;

    take_rt(p.w, ops, g, m, key, name, args)
}

pub proof fn lemma_operands_one(w: World, ops: Seq<OpV>, m: MachineV, v: ValV)
    ensures
        machine::operands(w, ops, m, seq![v]) == seq![machine::operand(w, ops, m, v)],
{
    assert(machine::operands(w, ops, m, seq![v]) =~= seq![machine::operand(w, ops, m, v)]);
}

pub proof fn lemma_operands_two(w: World, ops: Seq<OpV>, m: MachineV, a: ValV, b: ValV)
    ensures
        machine::operands(w, ops, m, seq![a, b]) == seq![
            machine::operand(w, ops, m, a),
            machine::operand(w, ops, m, b),
        ],
{
    assert(machine::operands(w, ops, m, seq![a, b]) =~= seq![
        machine::operand(w, ops, m, a),
        machine::operand(w, ops, m, b),
    ]);
}

/// Giving a value up.
pub proof fn do_drop(
    p: Meaning,
    ops: Seq<OpV>,
    g: GenV,
    v: ValV,
    ty: TypeV,
    m: MachineV,
) -> (r: MachineV)
    requires
        here(g, m),
        !g.ended,
        linked(p, ops, g),
        lowering::lower_drop(g, v, ty).r is Ok,
        within(ops, lowering::lower_drop(g, v, ty).g),
    ensures
        quiet(p.w, ops, g, lowering::lower_drop(g, v, ty).g, m, r),
{
    if lowering::needs_drop(ty) {
        reveal(linked);
        make_rt(p, ops, g, "risp_str_release"@, "risp_str_release"@, seq![v], "risp_str_release"@, m)
    } else {
        machine::leads_self(p.w, ops, m);
        m
    }
}

/// One more owner of a string.
pub proof fn do_retain(
    p: Meaning,
    ops: Seq<OpV>,
    g: GenV,
    v: ValV,
    ty: TypeV,
    m: MachineV,
    x: LV,
) -> (r: MachineV)
    requires
        here(g, m),
        !g.ended,
        linked(p, ops, g),
        lowering::lower_retain(g, v, ty).r is Ok,
        within(ops, lowering::lower_retain(g, v, ty).g),
        has_type(x, ty, p.types),
        before(v, g.ops.len() as int),
        machine::operand(p.w, ops, m, v) == repr(x, p.types),
    ensures
        quiet(p.w, ops, g, lowering::lower_retain(g, v, ty).g, m, r),
        before(
            lowering::lower_retain(g, v, ty).r->Ok_0,
            lowering::lower_retain(g, v, ty).g.ops.len() as int,
        ),
        machine::operand(p.w, ops, r, lowering::lower_retain(g, v, ty).r->Ok_0) == repr(x, p.types),
{
    if lowering::needs_drop(ty) {
        reveal(linked);
        lemma_operands_one(p.w, ops, m, v);
        lemma_names();
        assert(x is Str);
        make_rt(p, ops, g, "risp_str_retain"@, "risp_str_retain"@, seq![v], "risp_str_retain"@, m)
    } else {
        machine::leads_self(p.w, ops, m);
        m
    }
}

/// Reading a slot.
pub proof fn do_load(
    p: Meaning,
    ops: Seq<OpV>,
    g: GenV,
    slot: int,
    ty: TypeV,
    name: Seq<char>,
    m: MachineV,
) -> (r: MachineV)
    requires
        here(g, m),
        !g.ended,
        0 <= slot < ops.len(),
        ops.len() <= usize::MAX,
        ops[slot] is EntryAlloca,
        lowering::lower_load(g, ValV::Reg(slot as usize), ty, name).r is Ok,
        within(ops, lowering::lower_load(g, ValV::Reg(slot as usize), ty, name).g),
    ensures
        ({
            let c = lowering::lower_load(g, ValV::Reg(slot as usize), ty, name);
            &&& quiet(p.w, ops, g, c.g, m, r)
            &&& before(c.r->Ok_0, c.g.ops.len() as int)
            &&& c.g.ops.len() == g.ops.len() + 1
            &&& m.mem.contains_key(slot) ==> machine::operand(p.w, ops, r, c.r->Ok_0) == m.mem[slot]
        }),
{
    broadcast use group_within;

    let t = lowering::lower_type(g, ty)->Ok_0;
    let op = OpV::Load { ty: t, ptr: ValV::Reg(slot as usize), name };
    assert(within(ops, lowering::step(g, op)));
    make(p, ops, g, op, m)
}

/// Storing in a slot, and giving up what was there.
pub proof fn do_store(
    p: Meaning,
    ops: Seq<OpV>,
    g: GenV,
    slot: int,
    v: ValV,
    ty: TypeV,
    m: MachineV,
) -> (r: MachineV)
    requires
        here(g, m),
        !g.ended,
        linked(p, ops, g),
        0 <= slot < ops.len(),
        ops.len() <= usize::MAX,
        ops[slot] is EntryAlloca,
        before(v, g.ops.len() as int),
        lowering::lower_store(g, ValV::Reg(slot as usize), v, ty).r is Ok,
        within(ops, lowering::lower_store(g, ValV::Reg(slot as usize), v, ty).g),
    ensures
        ({
            let c = lowering::lower_store(g, ValV::Reg(slot as usize), v, ty);
            &&& machine::leads(p.w, ops, m, r)
            &&& kept(g.ops.len() as int, m, r)
            &&& r.mem == m.mem.insert(slot, machine::operand(p.w, ops, m, v))
            &&& r.out == m.out
            &&& here(c.g, r)
            &&& !c.g.ended
            &&& linked(p, ops, c.g)
            &&& c.g.locals == g.locals
            &&& g.ops.len() <= c.g.ops.len()
        }),
{
    broadcast use {group_within, group_linked};

    let ptr = ValV::Reg(slot as usize);
    let op = OpV::Store { ptr, val: v };
    if lowering::needs_drop(ty) {
        let c = lowering::lower_release(g, ptr, ty, "old.owned"@);
        let l = lowering::lower_load(g, ptr, ty, "old.owned"@);
        let d = lowering::lower_drop(l.g, l.r->Ok_0, ty);
        assert(within(ops, lowering::step(c.g, op)));
        assert(within(ops, c.g));
        assert(c.g == d.g);
        assert(within(ops, l.g)) by {
            lemma_rt_within(ops, l.g, "risp_str_release"@, seq![l.r->Ok_0], "risp_str_release"@);
        }
        let m1 = do_load(p, ops, g, slot, ty, "old.owned"@, m);
        let m2 = do_drop(p, ops, l.g, l.r->Ok_0, ty, m1);
        quiet_on(p.w, ops, g, l.g, d.g, m, m1, m2);
        lemma_operand_kept(p.w, ops, g.ops.len() as int, m, m2, v);
        let m3 = take(p.w, ops, m2, op);
        machine::leads_on(p.w, ops, m, m2, m3);
        m3
    } else {
        assert(within(ops, lowering::step(g, op)));
        take(p.w, ops, m, op)
    }
}

pub proof fn lemma_rt_within(ops: Seq<OpV>, g: GenV, key: Seq<char>, args: Seq<ValV>, label: Seq<char>)
    requires
        lowering::lower_rt(g, key, args, label).r is Ok,
        within(ops, lowering::lower_rt(g, key, args, label).g),
    ensures
        within(ops, g),
{
    broadcast use group_within;

}

/// The names of the functions of the run time differ.
pub proof fn lemma_names()
    ensures
        "risp_str_retain"@ != "risp_str_release"@,
        "risp_str_from_cstr"@ != "risp_str_release"@,
        "risp_str_from_cstr"@ != "puts"@,
        "risp_str_len"@ != "risp_str_release"@,
        "risp_str_len"@ != "risp_str_retain"@,
        "risp_str_cstr"@ != "risp_str_release"@,
        "risp_str_cstr"@ != "risp_str_retain"@,
        "risp_str_cstr"@ != "risp_str_len"@,
        "risp_str_concat"@ != "risp_str_release"@,
        "puts"@ != "risp_str_release"@,
        "printf"@ != "risp_str_release"@,
{
    reveal_strlit("risp_str_retain");
    reveal_strlit("risp_str_release");
    reveal_strlit("risp_str_from_cstr");
    reveal_strlit("risp_str_len");
    reveal_strlit("risp_str_cstr");
    reveal_strlit("risp_str_concat");
    reveal_strlit("puts");
    reveal_strlit("printf");
    assert("risp_str_release"@.len() == 16);
    assert("risp_str_retain"@.len() == 15);
    assert("risp_str_from_cstr"@.len() == 18);
    assert("risp_str_len"@.len() == 12);
    assert("risp_str_cstr"@.len() == 13);
    assert("risp_str_concat"@.len() == 15);
    assert("puts"@.len() == 4);
    assert("printf"@.len() == 6);
}

pub proof fn lemma_wrap(x: int)
    ensures
        machine::fits32(machine::wrap32(x)),
        machine::fits64(machine::wrap64(x)),
        machine::fits32(x) ==> machine::wrap32(x) == x,
        machine::fits64(x) ==> machine::wrap64(x) == x,
        machine::fits32(x) ==> machine::wrap32(machine::unsigned32(x)) == x,
        machine::fits64(x) ==> machine::wrap64(machine::unsigned64(x)) == x,
{
}

pub proof fn sim_lit(
    p: Meaning,
    ops: Seq<OpV>,
    l: LitV,
    ty: TypeV,
    mode: ValueUse,
    g: GenV,
    bs: Seq<Bind>,
    s: StateV,
    m: MachineV,
) -> (r: MachineV)
    requires
        ready(p, ops, g, bs, s, m),
        ty == typing::literal_type(l),
        lowering::lower_form(ExprKindV::Lit(l), ty, mode, g).r is Ok,
        within(ops, lowering::lower_form(ExprKindV::Lit(l), ty, mode, g).g),
    ensures
        ({
            let c = lowering::lower_form(ExprKindV::Lit(l), ty, mode, g);
            does(p, ops, g, c.g, c.r->Ok_0, ty, bs, Res::Val(meaning::literal_value(p.w, l)), s, m, r)
        }),
{
    broadcast use {group_within, group_linked};

    lemma_names();
    match l {
        LitV::Str(t) => {
            let g1 = lowering::lower_text(g, t);
            let v = lowering::made(g);
            let c = lowering::lower_rt(g1, "risp_str_from_cstr"@, seq![v], "risp_str_from_cstr"@);
            lemma_rt_within(ops, g1, "risp_str_from_cstr"@, seq![v], "risp_str_from_cstr"@);
            assert(within(ops, g1));
            let m1 = take(p.w, ops, m, ops[m.pc]);
            lemma_operands_one(p.w, ops, m1, v);
            assert(run_time_linked(ops, g1, "risp_str_from_cstr"@, "risp_str_from_cstr"@)) by {
                reveal(linked);
            }
            let m2 = make_rt(p, ops, g1, "risp_str_from_cstr"@, "risp_str_from_cstr"@, seq![v], "risp_str_from_cstr"@, m1);
            machine::leads_on(p.w, ops, m, m1, m2);
            lemma_agrees_regs(p.types, bs, s, m, m2);
            m2
        },
        LitV::Int(v, k) => {
            lemma_wrap(v as int);
            machine::leads_self(p.w, ops, m);
            m
        },
        _ => {
            machine::leads_self(p.w, ops, m);
            m
        },
    }
}

pub proof fn sim_var(
    p: Meaning,
    ops: Seq<OpV>,
    name: Seq<char>,
    ty: TypeV,
    mode: ValueUse,
    g: GenV,
    bs: Seq<Bind>,
    s: StateV,
    m: MachineV,
    x: LV,
) -> (r: MachineV)
    requires
        ready(p, ops, g, bs, s, m),
        fitting::fits_kind(ExprKindV::Var(name), ty, env_of(bs), p.types),
        lowering::lower_var(g, name, mode).r is Ok,
        within(ops, lowering::lower_var(g, name, mode).g),
        match meaning::innermost(s.env, name) {
            Some(k) => x == s.env[k].val,
            None => p.consts.contains_key(name) && x == p.consts[name],
        },
    ensures
        ({
            let c = lowering::lower_var(g, name, mode);
            does(p, ops, g, c.g, Some(c.r->Ok_0), ty, bs, Res::Val(x), s, m, r)
        }),
{
    broadcast use {group_within, group_linked};

    lemma_place(bs, name);
    assert(meaning::innermost(s.env, name) == place(bs, name)) by {
        reveal(agrees);
        lemma_innermost(bs, s.env, name);
    }
    reveal(within);
    match place(bs, name) {
        Some(k) => {
            let b = bs[k];
            assert(lowering::find_local(g.locals, name) == Some(
                LocalV { name, ptr: ValV::Reg(b.slot as usize), ty: b.ty },
            ) && 0 <= b.slot < g.ops.len() && ops[b.slot] is EntryAlloca) by {
                reveal(scope);
            }
            assert(m.mem.contains_key(b.slot) && m.mem[b.slot] == repr(x, p.types) && has_type(
                x,
                b.ty,
                p.types,
            )) by {
                reveal(agrees);
            }
            let ptr = ValV::Reg(b.slot as usize);
            if b.ty is Str || b.ty is Named {
                let l = lowering::lower_load(g, ptr, b.ty, "load.owned"@);
                assert(within(ops, l.g)) by {
                    if mode is Move && b.ty is Str {
                        lemma_rt_within(ops, l.g, "risp_str_retain"@, seq![l.r->Ok_0], "risp_str_retain"@);
                    }
                }
                let m1 = do_load(p, ops, g, b.slot, b.ty, "load.owned"@, m);
                match mode {
                    ValueUse::Place => {
                        lemma_agrees_regs(p.types, bs, s, m, m1);
                        m1
                    },
                    ValueUse::Move => {
                        let m2 = do_retain(p, ops, l.g, l.r->Ok_0, b.ty, m1, x);
                        quiet_on(p.w, ops, g, l.g, lowering::lower_var(g, name, mode).g, m, m1, m2);
                        lemma_agrees_regs(p.types, bs, s, m, m2);
                        m2
                    },
                }
            } else {
                let m1 = do_load(p, ops, g, b.slot, b.ty, name, m);
                lemma_agrees_regs(p.types, bs, s, m, m1);
                m1
            }
        },
        None => {
            assert(lowering::find_local(g.locals, name) is None) by {
                reveal(scope);
            }
            assert(const_linked(p, ops, g, name)) by {
                reveal(linked);
            }
            let v = g.consts[name].1;
            if p.types.consts[name] is Str {
                lemma_names();
                lemma_operands_one(p.w, ops, m, v);
                assert(run_time_linked(ops, g, "risp_str_from_cstr"@, "risp_str_from_cstr"@)) by {
                    reveal(linked);
                }
                let m1 = make_rt(p, ops, g, "risp_str_from_cstr"@, "risp_str_from_cstr"@, seq![v], "risp_str_from_cstr"@, m);
                lemma_agrees_regs(p.types, bs, s, m, m1);
                m1
            } else {
                machine::leads_self(p.w, ops, m);
                m
            }
        },
    }
}

/// The first place where building goes on at a block.
pub proof fn goes_on_at(ops: Seq<OpV>, bb: usize, from: int, i: int)
    requires
        0 <= from <= i < ops.len(),
        ops[i] == OpV::PositionAt(bb),
        clear(ops, bb, from, i),
    ensures
        machine::goes_on(ops, bb, from) == i,
    decreases i - from,
{
    if from < i {
        assert(ops[from] != OpV::PositionAt(bb));
        goes_on_at(ops, bb, from + 1, i);
    }
}

/// Whether building does not go on at a block from step `a` to step `b`.
pub open spec fn clear(ops: Seq<OpV>, bb: usize, a: int, b: int) -> bool {
    forall|j: int| a <= j < b ==> #[trigger] ops[j] != OpV::PositionAt(bb)
}

pub proof fn clear_fills(ops: Seq<OpV>, g: GenV, h: GenV, bb: usize)
    requires
        blocks::fills(g, h),
        within(ops, h),
        bb < g.ops.len(),
    ensures
        clear(ops, bb, g.ops.len() as int, h.ops.len() as int),
{
    reveal(blocks::fills);
    reveal(blocks::since);
    reveal(within);
    assert forall|j: int| g.ops.len() <= j < h.ops.len() implies #[trigger] ops[j] != OpV::PositionAt(bb) by {
        assert(ops.subrange(0, h.ops.len() as int)[j] == ops[j]);
        assert(h.ops[j] == ops[j]);
    }
}

/// The block that building is in behind an expression.
pub proof fn block_fills(ops: Seq<OpV>, g: GenV, h: GenV)
    requires
        blocks::fills(g, h),
        within(ops, h),
    ensures
        h.block == g.block || g.ops.len() <= h.block < h.ops.len(),
{
    reveal(blocks::fills);
    reveal(blocks::since);
    reveal(within);
}

/// What holds behind an expression.
pub proof fn after(p: Meaning, ops: Seq<OpV>, e: ExprV, mode: ValueUse, g: GenV, bs: Seq<Bind>)
    requires
        linked(p, ops, g),
        scope(ops, g, bs),
        fitting::fits(e, env_of(bs), p.types),
        lowering::lower(e, mode, g).r is Ok,
    ensures
        ({
            let h = lowering::lower(e, mode, g).g;
            &&& blocks::fills(g, h)
            &&& scripts::same_context(g, h)
            &&& h.locals == g.locals
            &&& linked(p, ops, h)
            &&& scope(ops, h, bs)
            &&& g.ops.len() <= h.ops.len()
        }),
{
    let h = lowering::lower(e, mode, g).g;
    progress::lemma_fits_binds(e, env_of(bs), p.types);
    assert(g.variants == p.types.variants) by {
        reveal(linked);
    }
    blocks::law_expression_fills_its_blocks(e, mode, g);
    scripts::law_expression_keeps_context(e, mode, g);
    scopes::law_expression_keeps_scope(e, mode, g);
    assert(g.ops.len() <= h.ops.len()) by {
        reveal(blocks::fills);
        reveal(blocks::since);
    }
    lemma_linked_same(p, ops, g, h);
    lemma_scope_same(ops, g, h, bs);
}

pub proof fn kept_on(n: int, k: int, a: MachineV, b: MachineV, c: MachineV)
    requires
        kept(n, a, b),
        kept(k, b, c),
        n <= k,
    ensures
        kept(n, a, c),
{
    assert forall|i: int| i < n implies #[trigger] c.regs[i] == a.regs[i] by {
        assert(b.regs[i] == a.regs[i]);
    }
}

/// Control goes to a block.
pub proof fn jump(p: Meaning, ops: Seq<OpV>, m: MachineV, bb: usize, i: int) -> (r: MachineV)
    requires
        0 <= m.pc < ops.len(),
        machine::step_of(p.w, ops, m) == Some(machine::enter(ops, m, bb)),
        !(ops[m.pc] is Ret || ops[m.pc] is Call),
        bb as int <= i < ops.len(),
        ops[i] == OpV::PositionAt(bb),
        clear(ops, bb, bb as int, i),
    ensures
        machine::leads(p.w, ops, m, r),
        r == (MachineV { pc: i + 1, cur: bb, prev: m.cur, ..m }),
{
    goes_on_at(ops, bb, bb as int, i);
    take(p.w, ops, m, ops[m.pc])
}

/// What an expression in such a place must be.
pub open spec fn fine(
    n: nat,
    p: Meaning,
    ops: Seq<OpV>,
    e: ExprV,
    g: GenV,
    bs: Seq<Bind>,
    s: StateV,
    m: MachineV,
) -> bool {
    &&& ready(p, ops, g, bs, s, m)
    &&& fitting::fits(e, env_of(bs), p.types)
    &&& meaning::eval(n, p, e, s) is Some
}

pub proof fn sim_value(
    n: nat,
    p: Meaning,
    ops: Seq<OpV>,
    e: ExprV,
    msg: Seq<char>,
    g: GenV,
    bs: Seq<Bind>,
    s: StateV,
    m: MachineV,
) -> (r: MachineV)
    requires
        fine(n, p, ops, e, g, bs, s, m),
        lowering::lower_value(e, g, msg).r is Ok,
        within(ops, lowering::lower_value(e, g, msg).g),
    ensures
        ({
            let c = lowering::lower_value(e, g, msg);
            let (v, t) = meaning::eval(n, p, e, s)->0;
            &&& does(p, ops, g, c.g, Some(c.r->Ok_0), e.ty->0, bs, v, t, m, r)
            &&& blocks::fills(g, c.g)
            &&& scripts::same_context(g, c.g)
            &&& c.g.locals == g.locals
            &&& linked(p, ops, c.g)
            &&& scope(ops, c.g, bs)
            &&& g.ops.len() <= c.g.ops.len()
            &&& v is Val ==> ready(p, ops, c.g, bs, t, r)
        }),
    decreases n, e, 10int,
{
    after(p, ops, e, ValueUse::Move, g, bs);
    sim_exprs::sim_expr(n, p, ops, e, ValueUse::Move, g, bs, s, m)
}

/// What can be said of the script for a value without carrying it out.
pub proof fn value_after(p: Meaning, ops: Seq<OpV>, e: ExprV, msg: Seq<char>, g: GenV, bs: Seq<Bind>)
    requires
        linked(p, ops, g),
        scope(ops, g, bs),
        fitting::fits(e, env_of(bs), p.types),
        lowering::lower_value(e, g, msg).r is Ok,
    ensures
        ({
            let h = lowering::lower_value(e, g, msg).g;
            &&& blocks::fills(g, h)
            &&& scripts::same_context(g, h)
            &&& h.locals == g.locals
            &&& linked(p, ops, h)
            &&& scope(ops, h, bs)
            &&& g.ops.len() <= h.ops.len()
        }),
{
    after(p, ops, e, ValueUse::Move, g, bs);
}

} // verus!
