//! Laws of the code generator as a whole: what a script does is what the expression means.
use vstd::arithmetic::div_mod;
use crate::ast::ExprV;
use crate::fitting;
use crate::ir::OpV;
use crate::lowering::{GenV, ValueUse};
use crate::lowering;
use crate::machine::{MachineV, MV, World};
use crate::machine;
use crate::meaning::{Meaning, StateV};
use crate::meaning;
use crate::sim_calls;
use crate::sim_exprs;
use crate::simulation::Bind;
use crate::simulation;
use vstd::prelude::*;

verus! {

/// The script of an expression does what the expression means. Let the machine stand where
/// building stood, with the variables in scope in their slots. If the expression comes to a
/// value, then the script takes the machine to its end. There the operand that stands for
/// the expression holds that value, the slots hold what the variables are then, and what was
/// printed is what the expression prints. If the expression leaves a loop, the machine
/// stands behind that loop.
pub proof fn law_script_does_what_expression_means(
    n: nat,
    p: Meaning,
    ops: Seq<OpV>,
    e: ExprV,
    g: GenV,
    bs: Seq<Bind>,
    s: StateV,
    m: MachineV,
)
    requires
        simulation::ready(p, ops, g, bs, s, m),
        fitting::fits(e, simulation::env_of(bs), p.types),
        meaning::eval(n, p, e, s) is Some,
        lowering::lower(e, ValueUse::Move, g).r is Ok,
        simulation::within(ops, lowering::lower(e, ValueUse::Move, g).g),
    ensures
        ({
            let c = lowering::lower(e, ValueUse::Move, g);
            let (v, t) = meaning::eval(n, p, e, s)->0;
            exists|b: MachineV|
                simulation::does(p, ops, g, c.g, c.r->Ok_0, e.ty->0, bs, v, t, m, b)
        }),
{
    let c = lowering::lower(e, ValueUse::Move, g);
    let (v, t) = meaning::eval(n, p, e, s)->0;
    let b = sim_exprs::sim_expr(n, p, ops, e, ValueUse::Move, g, bs, s, m);
    assert(simulation::does(p, ops, g, c.g, c.r->Ok_0, e.ty->0, bs, v, t, m, b));
}

/// Whether `q` is how often `y` goes into `x`, toward zero, and `r` what is left.
pub open spec fn divides_into(x: int, y: int, q: int, r: int) -> bool {
    &&& q * y + r == x
    &&& machine::magnitude(r) < machine::magnitude(y)
    &&& r == 0 || (r < 0 <==> x < 0)
}

proof fn lemma_division(x: int, y: int)
    requires
        y != 0,
    ensures
        divides_into(x, y, machine::quotient(x, y), machine::remainder(x, y)),
        machine::magnitude(machine::quotient(x, y)) <= machine::magnitude(x),
        machine::magnitude(y) >= 2 ==> 2 * machine::magnitude(machine::quotient(x, y)) <= machine::magnitude(x),
{
    let a = machine::magnitude(x);
    let b = machine::magnitude(y);
    let q = a / b;
    let r = a % b;
    div_mod::lemma_fundamental_div_mod(a, b);
    div_mod::lemma_mod_bound(a, b);
    div_mod::lemma_div_pos_is_pos(a, b);
    assert(q <= a && (b >= 2 ==> 2 * q <= a)) by (nonlinear_arith)
        requires
            a == b * q + r,
            0 <= r,
            b >= 1,
            q >= 0,
    ;
    let k = machine::quotient(x, y);
    assert(k * y == if x < 0 {
        -(b * q)
    } else {
        b * q
    }) by (nonlinear_arith)
        requires
            b == if y < 0 {
                -y
            } else {
                y
            },
            k == if (x < 0) == (y < 0) {
                q
            } else {
                -q
            },
    ;
}

/// A number of 32 bits is its sum, difference or product, up to a multiple of two to the
/// power of 32, and so for 64.
proof fn lemma_wrapped(x: int)
    ensures
        machine::fits32(machine::wrap32(x)),
        (machine::wrap32(x) - x) % 0x1_0000_0000 == 0,
        machine::fits64(machine::wrap64(x)),
        (machine::wrap64(x) - x) % 0x1_0000_0000_0000_0000 == 0,
{
}

/// The step that is made for `+`, `-`, `*`, `/` or `mod` computes, on numbers of 32 bits,
/// their sum, difference, product, quotient or remainder. The first three wrap around. The
/// quotient is rounded toward zero; a divisor of zero, and a quotient that does not fit,
/// are left out.
pub proof fn law_operators_compute_on_i32(w: World, op: Seq<char>, x: int, y: int)
    requires
        meaning::arith_of(op) is Some,
        machine::fits32(x),
        machine::fits32(y),
        op == "/"@ || op == "mod"@ ==> y != 0 && !(x == -0x8000_0000 && y == -1),
    ensures
        machine::binary(w, lowering::bin_op(op, false).0, MV::I32(x), MV::I32(y)) matches Some(MV::I32(z)) && {
            &&& machine::fits32(z)
            &&& op == "+"@ ==> (z - (x + y)) % 0x1_0000_0000 == 0
            &&& op == "-"@ ==> (z - (x - y)) % 0x1_0000_0000 == 0
            &&& op == "*"@ ==> (z - x * y) % 0x1_0000_0000 == 0
            &&& op == "/"@ ==> divides_into(x, y, z, x - z * y)
            &&& op == "mod"@ ==> divides_into(x, y, machine::quotient(x, y), z)
        },
{
    sim_calls::lemma_builtins();
    lemma_wrapped(x + y);
    lemma_wrapped(x - y);
    lemma_wrapped(x * y);
    if op == "/"@ || op == "mod"@ {
        lemma_division(x, y);
    }
}

/// The same on numbers of 64 bits.
pub proof fn law_operators_compute_on_i64(w: World, op: Seq<char>, x: int, y: int)
    requires
        meaning::arith_of(op) is Some,
        machine::fits64(x),
        machine::fits64(y),
        op == "/"@ || op == "mod"@ ==> y != 0 && !(x == -0x8000_0000_0000_0000 && y == -1),
    ensures
        machine::binary(w, lowering::bin_op(op, false).0, MV::I64(x), MV::I64(y)) matches Some(MV::I64(z)) && {
            &&& machine::fits64(z)
            &&& op == "+"@ ==> (z - (x + y)) % 0x1_0000_0000_0000_0000 == 0
            &&& op == "-"@ ==> (z - (x - y)) % 0x1_0000_0000_0000_0000 == 0
            &&& op == "*"@ ==> (z - x * y) % 0x1_0000_0000_0000_0000 == 0
            &&& op == "/"@ ==> divides_into(x, y, z, x - z * y)
            &&& op == "mod"@ ==> divides_into(x, y, machine::quotient(x, y), z)
        },
{
    sim_calls::lemma_builtins();
    lemma_wrapped(x + y);
    lemma_wrapped(x - y);
    lemma_wrapped(x * y);
    if op == "/"@ || op == "mod"@ {
        lemma_division(x, y);
    }
}

} // verus!
