//! What expressions mean: their values, and what they print.
use crate::ast::{BindingV, ExprKindV, ExprV, FieldDefV, FloatKind, IntKind, LitV, TypeV};
use crate::ir::Val;
use crate::machine::{Arith, Rel, World};
use crate::machine;
use crate::text;
use crate::typing::CkV;
use crate::typing;
use vstd::prelude::*;
use vstd::string::*;

verus! {

/// A value of the language.
#[verifier::ext_equal]
pub enum LV {
    Unit,
    I32(int),
    I64(int),
    F32(u32),
    F64(u64),
    Bool(bool),
    Str(Seq<char>),
    Struct(Seq<LV>),
    /// A value of an enum: its variant and its payload.
    Variant(Seq<char>, Option<Box<LV>>),
}

/// A variable and its value.
#[verifier::ext_equal]
pub struct VarV {
    pub name: Seq<char>,
    pub val: LV,
}

/// The variables in scope, the innermost last, and what has been printed.
#[verifier::ext_equal]
pub struct StateV {
    pub env: Seq<VarV>,
    pub out: Seq<char>,
}

/// What evaluation comes to: a value, or a `break` that leaves the loop around.
pub enum Res {
    Val(LV),
    Brk,
}

/// What evaluation of several expressions comes to.
pub enum Many {
    Vals(Seq<LV>),
    Brk,
}

/// What expressions rest on: the constants and the types of the program.
pub struct Meaning {
    pub w: World,
    pub consts: Map<Seq<char>, LV>,
    pub types: CkV,
}

/// The place of the innermost variable of this name.
pub open spec fn innermost(env: Seq<VarV>, name: Seq<char>) -> Option<int>
    decreases env.len(),
{
    if env.len() == 0 {
        None
    } else if env.last().name == name {
        Some(env.len() - 1)
    } else {
        innermost(env.drop_last(), name)
    }
}

/// Whether a field is the first one of this name.
pub open spec fn is_field(fields: Seq<FieldDefV>, name: Seq<char>, k: int) -> bool {
    &&& 0 <= k < fields.len()
    &&& fields[k].name == name
    &&& forall|j: int| 0 <= j < k ==> (#[trigger] fields[j]).name != name
}

pub open spec fn arith_of(op: Seq<char>) -> Option<Arith> {
    if op == "+"@ {
        Some(Arith::Add)
    } else if op == "-"@ {
        Some(Arith::Sub)
    } else if op == "*"@ {
        Some(Arith::Mul)
    } else if op == "/"@ {
        Some(Arith::Div)
    } else if op == "mod"@ {
        Some(Arith::Rem)
    } else {
        None
    }
}

pub open spec fn rel_of(op: Seq<char>) -> Option<Rel> {
    if op == "<"@ {
        Some(Rel::Lt)
    } else if op == "<="@ {
        Some(Rel::Le)
    } else if op == ">"@ {
        Some(Rel::Gt)
    } else if op == ">="@ {
        Some(Rel::Ge)
    } else if op == "="@ {
        Some(Rel::Eq)
    } else if op == "!="@ {
        Some(Rel::Ne)
    } else {
        None
    }
}

/// Arithmetic on two values of one type. Whole numbers wrap around.
pub open spec fn arith_value(w: World, op: Arith, a: LV, b: LV) -> Option<LV> {
    match (a, b) {
        (LV::I32(x), LV::I32(y)) => match machine::whole_arith(op, -0x8000_0000, x, y) {
            Some(z) => Some(LV::I32(machine::wrap32(z))),
            None => None,
        },
        (LV::I64(x), LV::I64(y)) => match machine::whole_arith(op, -0x8000_0000_0000_0000, x, y) {
            Some(z) => Some(LV::I64(machine::wrap64(z))),
            None => None,
        },
        (LV::F32(x), LV::F32(y)) => Some(LV::F32((w.arith32)(op, x, y))),
        (LV::F64(x), LV::F64(y)) => Some(LV::F64((w.arith64)(op, x, y))),
        _ => None,
    }
}

/// The number with the other sign.
pub open spec fn neg_value(w: World, a: LV) -> Option<LV> {
    match a {
        LV::I32(x) => Some(LV::I32(machine::wrap32(-x))),
        LV::I64(x) => Some(LV::I64(machine::wrap64(-x))),
        LV::F32(x) => Some(LV::F32((w.neg32)(x))),
        LV::F64(x) => Some(LV::F64((w.neg64)(x))),
        _ => None,
    }
}

/// A comparison of two values of one type. Of the truth values, true is the lesser one: a
/// bit that is set counts as minus one.
pub open spec fn rel_value(w: World, op: Rel, a: LV, b: LV) -> Option<LV> {
    match (a, b) {
        (LV::I32(x), LV::I32(y)) => Some(LV::Bool(machine::whole_rel(op, x, y))),
        (LV::I64(x), LV::I64(y)) => Some(LV::Bool(machine::whole_rel(op, x, y))),
        (LV::F32(x), LV::F32(y)) => Some(LV::Bool((w.rel32)(op, x, y))),
        (LV::F64(x), LV::F64(y)) => Some(LV::Bool((w.rel64)(op, x, y))),
        (LV::Bool(x), LV::Bool(y)) => Some(
            LV::Bool(machine::whole_rel(op, if x { -1 } else { 0 }, if y { -1 } else { 0 })),
        ),
        _ => None,
    }
}

pub open spec fn whole_value(x: int, to: TypeV) -> Option<LV> {
    match to {
        TypeV::I32 => if machine::fits32(x) {
            Some(LV::I32(x))
        } else {
            None
        },
        TypeV::I64 => if machine::fits64(x) {
            Some(LV::I64(x))
        } else {
            None
        },
        _ => None,
    }
}

/// A number as one of another type. A float that is too large for a whole number has no
/// value there.
pub open spec fn cast_value(w: World, a: LV, to: TypeV) -> Option<LV> {
    match (a, to) {
        (LV::I32(x), TypeV::I32) => Some(a),
        (LV::I32(x), TypeV::I64) => Some(LV::I64(x)),
        (LV::I32(x), TypeV::F32) => Some(LV::F32((w.float32)(x))),
        (LV::I32(x), TypeV::F64) => Some(LV::F64((w.float64)(x))),
        (LV::I64(x), TypeV::I32) => Some(LV::I32(machine::wrap32(x))),
        (LV::I64(x), TypeV::I64) => Some(a),
        (LV::I64(x), TypeV::F32) => Some(LV::F32((w.float32)(x))),
        (LV::I64(x), TypeV::F64) => Some(LV::F64((w.float64)(x))),
        (LV::F32(x), TypeV::F32) => Some(a),
        (LV::F32(x), TypeV::F64) => Some(LV::F64((w.widen)(x))),
        (LV::F32(x), _) => whole_value((w.whole32)(x), to),
        (LV::F64(x), TypeV::F64) => Some(a),
        (LV::F64(x), TypeV::F32) => Some(LV::F32((w.narrow)(x))),
        (LV::F64(x), _) => whole_value((w.whole64)(x), to),
        _ => None,
    }
}

pub open spec fn literal_value(w: World, l: LitV) -> LV {
    match l {
        LitV::Int(v, Some(IntKind::I64)) => LV::I64(v as int),
        LitV::Int(v, _) => LV::I32(machine::wrap32(v as int)),
        LitV::Float(s, Some(FloatKind::F32)) => LV::F32((w.read32)(s)),
        LitV::Float(s, _) => LV::F64((w.read64)(s)),
        LitV::Bool(b) => LV::Bool(b),
        LitV::Str(s) => LV::Str(s),
    }
}

/// What `print` shows of a value.
pub open spec fn shown_value(w: World, v: LV) -> Option<Seq<char>> {
    match v {
        LV::I32(x) => Some(text::signed_dec(x)),
        LV::I64(x) => Some(text::signed_dec(x)),
        LV::F32(x) => Some((w.shown)((w.widen)(x))),
        LV::F64(x) => Some((w.shown)(x)),
        LV::Bool(b) => Some(
            if b {
                "true"@
            } else {
                "false"@
            },
        ),
        LV::Str(s) => Some(s),
        _ => None,
    }
}

/// What evaluation gives, and the state behind it. `None` if it does not end within `n`
/// rounds of loops, or has no value. Arrays, matches and calls of functions have none here.
pub type Eval = Option<(Res, StateV)>;

pub open spec fn val(v: LV, s: StateV) -> Eval {
    Some((Res::Val(v), s))
}

pub open spec fn val_of(v: Option<LV>, s: StateV) -> Eval {
    match v {
        Some(x) => val(x, s),
        None => None,
    }
}

/// An expression.
pub open spec fn eval(n: nat, p: Meaning, e: ExprV, s: StateV) -> Eval
    decreases n, e, 5int,
{
    match e.kind {
        ExprKindV::Lit(l) => val(literal_value(p.w, l), s),
        ExprKindV::Var(name) => match innermost(s.env, name) {
            Some(k) => val(s.env[k].val, s),
            None => if p.consts.contains_key(name) {
                val(p.consts[name], s)
            } else {
                None
            },
        },
        ExprKindV::Break => Some((Res::Brk, s)),
        ExprKindV::If { cond, then_branch, else_branch } => match eval(n, p, *cond, s) {
            Some((Res::Val(LV::Bool(b)), t)) => if b {
                eval(n, p, *then_branch, t)
            } else {
                eval(n, p, *else_branch, t)
            },
            Some((Res::Brk, t)) => Some((Res::Brk, t)),
            _ => None,
        },
        ExprKindV::Let { bindings, body } => {
            let depth = s.env.len() as int;
            match eval_bindings(n, p, bindings, 0, s) {
                Some((Res::Val(_), t)) => match eval(n, p, *body, t) {
                    Some((r, u)) => Some((r, StateV { env: u.env.take(depth), ..u })),
                    None => None,
                },
                Some((Res::Brk, t)) => Some((Res::Brk, StateV { env: t.env.take(depth), ..t })),
                None => None,
            }
        },
        ExprKindV::Do(es) => eval_do(n, p, es, 0, LV::Unit, s),
        ExprKindV::Cast { ty, expr } => match eval(n, p, *expr, s) {
            Some((Res::Val(v), t)) => val_of(cast_value(p.w, v, ty), t),
            r => r,
        },
        ExprKindV::Assign { name, value } => match eval(n, p, *value, s) {
            Some((Res::Val(v), t)) => match innermost(t.env, name) {
                Some(k) => val(
                    LV::Unit,
                    StateV { env: t.env.update(k, VarV { name, val: v }), ..t },
                ),
                None => None,
            },
            r => r,
        },
        ExprKindV::While { cond, body } => match eval(n, p, *cond, s) {
            Some((Res::Val(LV::Bool(b)), t)) => if b {
                match eval(n, p, *body, t) {
                    Some((Res::Val(_), u)) => if n == 0 {
                        None
                    } else {
                        eval((n - 1) as nat, p, e, u)
                    },
                    Some((Res::Brk, u)) => val(LV::Unit, u),
                    None => None,
                }
            } else {
                val(LV::Unit, t)
            },
            Some((Res::Brk, t)) => Some((Res::Brk, t)),
            _ => None,
        },
        ExprKindV::Loop { body } => match eval(n, p, *body, s) {
            Some((Res::Val(_), u)) => if n == 0 {
                None
            } else {
                eval((n - 1) as nat, p, e, u)
            },
            Some((Res::Brk, u)) => val(LV::Unit, u),
            None => None,
        },
        ExprKindV::ArrayLit { .. } => None,
        ExprKindV::Field { base, field } => match eval(n, p, *base, s) {
            Some((Res::Val(LV::Struct(vs)), t)) => match base.ty {
                Some(TypeV::Named(name)) => {
                    let k = choose|k: int| is_field(p.types.structs[name].fields, field, k);
                    if is_field(p.types.structs[name].fields, field, k) && k < vs.len() {
                        val(vs[k], t)
                    } else {
                        None
                    }
                },
                _ => None,
            },
            Some((Res::Brk, t)) => Some((Res::Brk, t)),
            _ => None,
        },
        ExprKindV::Match { .. } => None,
        ExprKindV::Call { callee, args } => eval_call(n, p, callee, args, s),
    }
}

/// The bindings of a `let` from place `i` on; each is in scope from the next one on.
pub open spec fn eval_bindings(n: nat, p: Meaning, bs: Seq<BindingV>, i: int, s: StateV) -> Eval
    decreases n, bs, bs.len() - i,
{
    if i < 0 || i >= bs.len() {
        val(LV::Unit, s)
    } else {
        match eval(n, p, bs[i].value, s) {
            Some((Res::Val(v), t)) => eval_bindings(
                n,
                p,
                bs,
                i + 1,
                StateV { env: t.env.push(VarV { name: bs[i].name, val: v }), ..t },
            ),
            r => r,
        }
    }
}

/// Expressions from place `i` on, one behind the other; the last one counts.
pub open spec fn eval_do(n: nat, p: Meaning, es: Seq<ExprV>, i: int, last: LV, s: StateV) -> Eval
    decreases n, es, es.len() - i,
{
    if i < 0 || i >= es.len() {
        val(last, s)
    } else {
        match eval(n, p, es[i], s) {
            Some((Res::Val(v), t)) => eval_do(n, p, es, i + 1, v, t),
            r => r,
        }
    }
}

/// The values of arguments from place `i` on, from left to right, behind `acc`.
pub open spec fn eval_args(
    n: nat,
    p: Meaning,
    es: Seq<ExprV>,
    i: int,
    acc: Seq<LV>,
    s: StateV,
) -> Option<(Many, StateV)>
    decreases n, es, es.len() - i,
{
    if i < 0 || i >= es.len() {
        Some((Many::Vals(acc), s))
    } else {
        match eval(n, p, es[i], s) {
            Some((Res::Val(v), t)) => eval_args(n, p, es, i + 1, acc.push(v), t),
            Some((Res::Brk, t)) => Some((Many::Brk, t)),
            None => None,
        }
    }
}

/// Operands from place `i` on, folded from the left into `acc`.
pub open spec fn eval_fold(
    n: nat,
    p: Meaning,
    op: Arith,
    es: Seq<ExprV>,
    i: int,
    acc: LV,
    s: StateV,
) -> Eval
    decreases n, es, es.len() - i,
{
    if i < 0 || i >= es.len() {
        val(acc, s)
    } else {
        match eval(n, p, es[i], s) {
            Some((Res::Val(v), t)) => match arith_value(p.w, op, acc, v) {
                Some(x) => eval_fold(n, p, op, es, i + 1, x, t),
                None => None,
            },
            r => r,
        }
    }
}

/// A call of a builtin or a constructor.
pub open spec fn eval_call(n: nat, p: Meaning, callee: Seq<char>, args: Seq<ExprV>, s: StateV) -> Eval
    decreases n, args, args.len() + 2,
{
    if arith_of(callee) is Some {
        if args.len() == 0 {
            None
        } else {
            match eval(n, p, args[0], s) {
                Some((Res::Val(v), t)) => if args.len() == 1 && callee == "-"@ {
                    val_of(neg_value(p.w, v), t)
                } else {
                    eval_fold(n, p, arith_of(callee)->0, args, 1, v, t)
                },
                r => r,
            }
        }
    } else if callee == "and"@ || callee == "or"@ {
        if args.len() != 2 {
            None
        } else {
            match eval(n, p, args[0], s) {
                Some((Res::Val(LV::Bool(b)), t)) => if b == (callee == "and"@) {
                    match eval(n, p, args[1], t) {
                        Some((Res::Val(LV::Bool(c)), u)) => val(LV::Bool(c), u),
                        Some((Res::Brk, u)) => Some((Res::Brk, u)),
                        _ => None,
                    }
                } else {
                    val(LV::Bool(b), t)
                },
                Some((Res::Brk, t)) => Some((Res::Brk, t)),
                _ => None,
            }
        }
    } else if !applicable(p, callee) {
        None
    } else {
        match eval_args(n, p, args, 0, Seq::empty(), s) {
            Some((Many::Vals(vs), t)) => applied(p, callee, vs, t),
            Some((Many::Brk, t)) => Some((Res::Brk, t)),
            None => None,
        }
    }
}

/// Whether what is called comes to something as soon as its arguments have values.
pub open spec fn applicable(p: Meaning, callee: Seq<char>) -> bool {
    ||| rel_of(callee) is Some
    ||| callee == "not"@
    ||| callee == "print"@
    ||| callee == "println"@
    ||| callee == "str-concat"@
    ||| callee == "str-len"@
    ||| !typing::builtin_name(callee) && (p.types.structs.contains_key(callee)
        || p.types.variants.contains_key(callee))
}

/// What is called with these values: a builtin or a constructor.
pub open spec fn applied(p: Meaning, callee: Seq<char>, vs: Seq<LV>, s: StateV) -> Eval {
    if rel_of(callee) is Some {
        if vs.len() == 2 {
            val_of(rel_value(p.w, rel_of(callee)->0, vs[0], vs[1]), s)
        } else {
            None
        }
    } else if callee == "not"@ {
        match vs[0] {
            LV::Bool(b) => if vs.len() == 1 {
                val(LV::Bool(!b), s)
            } else {
                None
            },
            _ => None,
        }
    } else if callee == "print"@ || callee == "println"@ {
        match shown_value(p.w, vs[0]) {
            Some(x) => if vs.len() == 1 {
                let end = if callee == "println"@ {
                    seq!['\n']
                } else {
                    Seq::empty()
                };
                val(LV::Unit, StateV { out: s.out + x + end, ..s })
            } else {
                None
            },
            None => None,
        }
    } else if callee == "str-concat"@ {
        match (vs[0], vs[1]) {
            (LV::Str(a), LV::Str(b)) => if vs.len() == 2 {
                val(LV::Str(a + b), s)
            } else {
                None
            },
            _ => None,
        }
    } else if callee == "str-len"@ {
        match vs[0] {
            LV::Str(a) => if vs.len() == 1 {
                val(LV::I32(machine::wrap32((p.w.text_len)(a))), s)
            } else {
                None
            },
            _ => None,
        }
    } else if p.types.structs.contains_key(callee) {
        val(LV::Struct(vs), s)
    } else if p.types.variants.contains_key(callee) {
        match p.types.variants[callee].payload {
            None => if vs.len() == 0 {
                val(LV::Variant(callee, None), s)
            } else {
                None
            },
            Some(_) => if vs.len() == 1 {
                val(LV::Variant(callee, Some(Box::new(vs[0]))), s)
            } else {
                None
            },
        }
    } else {
        None
    }
}

} // verus!
