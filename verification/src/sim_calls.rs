//! The scripts of calls do what the calls mean.
use crate::ast::{ExprKindV, ExprV, TypeV};
use crate::fitting;
use crate::ir::OpV;
use crate::lowering::{GenV, ValueUse};
use crate::lowering;
use crate::machine::MachineV;
use crate::meaning::{LV, Many, Meaning, Res, StateV};
use crate::meaning;
use crate::sim_ariths;
use crate::sim_makers;
use crate::sim_shorts;
use crate::sim_texts;
use crate::simulation::Bind;
use crate::simulation;
use crate::typing;
use vstd::prelude::*;

verus! {

/// What tells the names of builtins apart: how long they are, and their ends.
pub open spec fn outline(name: Seq<char>) -> (nat, char, char) {
    (name.len(), name[0], name[name.len() - 1])
}

/// The names that are signs.
pub open spec fn signs_apart() -> bool {
    &&& outline("+"@) == (1nat, '+', '+')
    &&& outline("-"@) == (1nat, '-', '-')
    &&& outline("*"@) == (1nat, '*', '*')
    &&& outline("/"@) == (1nat, '/', '/')
    &&& outline("<"@) == (1nat, '<', '<')
    &&& outline("<="@) == (2nat, '<', '=')
    &&& outline(">"@) == (1nat, '>', '>')
    &&& outline(">="@) == (2nat, '>', '=')
    &&& outline("="@) == (1nat, '=', '=')
    &&& outline("!="@) == (2nat, '!', '=')
}

/// The names that are words.
pub open spec fn words_apart() -> bool {
    &&& outline("mod"@) == (3nat, 'm', 'd')
    &&& outline("and"@) == (3nat, 'a', 'd')
    &&& outline("or"@) == (2nat, 'o', 'r')
    &&& outline("not"@) == (3nat, 'n', 't')
    &&& outline("print"@) == (5nat, 'p', 't')
    &&& outline("println"@) == (7nat, 'p', 'n')
    &&& outline("str-concat"@) == (10nat, 's', 't')
    &&& outline("str-len"@) == (7nat, 's', 'n')
    &&& outline("aget"@) == (4nat, 'a', 't')
    &&& outline("aset!"@) == (5nat, 'a', '!')
    &&& outline("alen"@) == (4nat, 'a', 'n')
}

/// The names of the builtins differ.
pub proof fn lemma_builtins()
    ensures
        signs_apart(),
        words_apart(),
{
    lemma_signs();
    lemma_words();
}

pub proof fn lemma_signs()
    ensures
        signs_apart(),
{
    reveal_strlit("+");
    reveal_strlit("-");
    reveal_strlit("*");
    reveal_strlit("/");
    reveal_strlit("<");
    reveal_strlit("<=");
    reveal_strlit(">");
    reveal_strlit(">=");
    reveal_strlit("=");
    reveal_strlit("!=");
}

/// What a call must meet.
pub open spec fn callable(
    n: nat,
    p: Meaning,
    ops: Seq<OpV>,
    callee: Seq<char>,
    args: Seq<ExprV>,
    g: GenV,
    bs: Seq<Bind>,
    s: StateV,
    m: MachineV,
) -> bool {
    &&& simulation::ready(p, ops, g, bs, s, m)
    &&& fitting::fits_all(args, simulation::env_of(bs), p.types)
    &&& meaning::eval_call(n, p, callee, args, s) is Some
}

/// How an operator is lowered, and which types it has.
pub proof fn form_arith(callee: Seq<char>, args: Seq<ExprV>, ty: TypeV, g: GenV)
    requires
        meaning::arith_of(callee) is Some,
    ensures
        lowering::lower_call(callee, args, ty, g) == lowering::valued(
            lowering::lower_arith(callee, args, ty, g),
        ),
{
    lemma_builtins();
}

pub proof fn form_test(callee: Seq<char>, args: Seq<ExprV>, ty: TypeV, g: GenV)
    requires
        meaning::rel_of(callee) is Some,
    ensures
        meaning::arith_of(callee) is None,
        lowering::lower_call(callee, args, ty, g) == lowering::valued(
            lowering::lower_test(callee, args, g),
        ),
        fitting::fits_builtin(callee, args, ty) ==> ty is Bool,
{
    lemma_builtins();
}

pub proof fn form_truth(callee: Seq<char>, args: Seq<ExprV>, ty: TypeV, g: GenV)
    requires
        callee == "and"@ || callee == "or"@ || callee == "not"@,
    ensures
        meaning::arith_of(callee) is None,
        lowering::lower_call(callee, args, ty, g) == lowering::valued(
            if callee == "not"@ {
                lowering::lower_not(args, g)
            } else {
                lowering::lower_short(callee == "and"@, args, g)
            },
        ),
        fitting::fits_builtin(callee, args, ty) ==> ty is Bool,
{
    lemma_builtins();
}

pub proof fn form_print(callee: Seq<char>, args: Seq<ExprV>, ty: TypeV, g: GenV)
    requires
        callee == "print"@ || callee == "println"@,
    ensures
        lowering::lower_call(callee, args, ty, g) == lowering::valueless(
            lowering::lower_print(args, callee == "println"@, g),
        ),
        fitting::fits_builtin(callee, args, ty) ==> ty is Unit,
{
    lemma_builtins();
}

pub proof fn form_text(callee: Seq<char>, args: Seq<ExprV>, ty: TypeV, g: GenV)
    requires
        callee == "str-concat"@ || callee == "str-len"@,
    ensures
        lowering::lower_call(callee, args, ty, g) == lowering::valued(
            if callee == "str-len"@ {
                lowering::lower_str_len(args, g)
            } else {
                lowering::lower_concat(args, g)
            },
        ),
        fitting::fits_builtin(callee, args, ty) ==> ty == (if callee == "str-len"@ {
            TypeV::I32
        } else {
            TypeV::Str
        }),
{
    lemma_builtins();
}

/// Constructors have names of their own.
pub proof fn form_made(
    n: nat,
    p: Meaning,
    callee: Seq<char>,
    args: Seq<ExprV>,
    ty: TypeV,
    g: GenV,
    s: StateV,
)
    requires
        !typing::builtin_name(callee),
        g.structs == p.types.structs,
        g.variants == p.types.variants,
    ensures
        p.types.structs.contains_key(callee) ==> lowering::lower_call(callee, args, ty, g)
            == lowering::valued(lowering::lower_struct(callee, args, g)),
        !p.types.structs.contains_key(callee) && p.types.variants.contains_key(callee)
            ==> lowering::lower_call(callee, args, ty, g) == lowering::valued(
            lowering::lower_variant(p.types.variants[callee], args, g),
        ),
        meaning::eval_call(n, p, callee, args, s) == if p.types.structs.contains_key(callee)
            || p.types.variants.contains_key(callee) {
            match meaning::eval_args(n, p, args, 0, Seq::empty(), s) {
                Some((Many::Vals(vs), t)) => meaning::applied(p, callee, vs, t),
                Some((Many::Brk, t)) => Some((Res::Brk, t)),
                None => None,
            }
        } else {
            None
        },
        forall|vs: Seq<LV>, t: StateV|
            p.types.structs.contains_key(callee) ==> #[trigger] meaning::applied(p, callee, vs, t)
                == meaning::val(LV::Struct(vs), t),
        forall|vs: Seq<LV>, t: StateV|
            !p.types.structs.contains_key(callee) && p.types.variants.contains_key(callee) ==> (
            #[trigger] meaning::applied(p, callee, vs, t) matches Some(r) ==> r == (
                Res::Val(
                    LV::Variant(
                        callee,
                        if p.types.variants[callee].payload is Some {
                            Some(Box::new(vs[0]))
                        } else {
                            None
                        },
                    ),
                ),
                t,
            )),
{
}

pub proof fn sim_call(
    n: nat,
    p: Meaning,
    ops: Seq<OpV>,
    e: ExprV,
    g: GenV,
    bs: Seq<Bind>,
    s: StateV,
    m: MachineV,
) -> (r: MachineV)
    requires
        e.kind is Call,
        simulation::fine(n, p, ops, e, g, bs, s, m),
        lowering::lower_form(e.kind, e.ty->0, ValueUse::Move, g).r is Ok,
        simulation::within(ops, lowering::lower_form(e.kind, e.ty->0, ValueUse::Move, g).g),
    ensures
        ({
            let c = lowering::lower_form(e.kind, e.ty->0, ValueUse::Move, g);
            let (v, t) = meaning::eval(n, p, e, s)->0;
            simulation::does(p, ops, g, c.g, c.r->Ok_0, e.ty->0, bs, v, t, m, r)
        }),
    decreases n, e, 8int,
{
    if let ExprKindV::Call { callee, args } = e.kind {
        let ty = e.ty->0;
        assert(fitting::fits_kind(e.kind, ty, simulation::env_of(bs), p.types));
        assert(meaning::eval(n, p, e, s) == meaning::eval_call(n, p, callee, args, s));
        assert(lowering::lower_form(e.kind, ty, ValueUse::Move, g) == lowering::lower_call(callee, args, ty, g));
        if typing::builtin_name(callee) {
            sim_builtin(n, p, ops, callee, args, ty, g, bs, s, m)
        } else {
            sim_made(n, p, ops, callee, args, ty, g, bs, s, m)
        }
    } else {
        m
    }
}

pub proof fn sim_builtin(
    n: nat,
    p: Meaning,
    ops: Seq<OpV>,
    callee: Seq<char>,
    args: Seq<ExprV>,
    ty: TypeV,
    g: GenV,
    bs: Seq<Bind>,
    s: StateV,
    m: MachineV,
) -> (r: MachineV)
    requires
        callable(n, p, ops, callee, args, g, bs, s, m),
        typing::builtin_name(callee),
        fitting::fits_builtin(callee, args, ty),
        lowering::lower_call(callee, args, ty, g).r is Ok,
        simulation::within(ops, lowering::lower_call(callee, args, ty, g).g),
    ensures
        ({
            let c = lowering::lower_call(callee, args, ty, g);
            let (v, t) = meaning::eval_call(n, p, callee, args, s)->0;
            simulation::does(p, ops, g, c.g, c.r->Ok_0, ty, bs, v, t, m, r)
        }),
    decreases n, args, args.len() + 2,
{
    if meaning::arith_of(callee) is Some {
        form_arith(callee, args, ty, g);
        sim_ariths::sim_arith(n, p, ops, callee, args, ty, g, bs, s, m)
    } else if meaning::rel_of(callee) is Some {
        form_test(callee, args, ty, g);
        sim_ariths::sim_test(n, p, ops, callee, args, g, bs, s, m)
    } else if callee == "and"@ || callee == "or"@ || callee == "not"@ {
        form_truth(callee, args, ty, g);
        if callee == "not"@ {
            sim_ariths::sim_not(n, p, ops, callee, args, g, bs, s, m)
        } else {
            sim_shorts::sim_short(n, p, ops, callee, args, g, bs, s, m)
        }
    } else if callee == "print"@ || callee == "println"@ {
        form_print(callee, args, ty, g);
        sim_texts::sim_print(n, p, ops, callee, args, g, bs, s, m)
    } else if callee == "str-len"@ {
        form_text(callee, args, ty, g);
        sim_texts::sim_str_len(n, p, ops, callee, args, g, bs, s, m)
    } else if callee == "str-concat"@ {
        form_text(callee, args, ty, g);
        sim_texts::sim_concat(n, p, ops, callee, args, g, bs, s, m)
    } else {
        assert(meaning::eval_call(n, p, callee, args, s) is None);
        m
    }
}

pub proof fn sim_made(
    n: nat,
    p: Meaning,
    ops: Seq<OpV>,
    callee: Seq<char>,
    args: Seq<ExprV>,
    ty: TypeV,
    g: GenV,
    bs: Seq<Bind>,
    s: StateV,
    m: MachineV,
) -> (r: MachineV)
    requires
        callable(n, p, ops, callee, args, g, bs, s, m),
        !typing::builtin_name(callee),
        fitting::fits_call(callee, args, ty, p.types),
        lowering::lower_call(callee, args, ty, g).r is Ok,
        simulation::within(ops, lowering::lower_call(callee, args, ty, g).g),
    ensures
        ({
            let c = lowering::lower_call(callee, args, ty, g);
            let (v, t) = meaning::eval_call(n, p, callee, args, s)->0;
            simulation::does(p, ops, g, c.g, c.r->Ok_0, ty, bs, v, t, m, r)
        }),
    decreases n, args, args.len() + 2,
{
    assert(g.structs == p.types.structs && g.variants == p.types.variants && simulation::named_right(p.types)) by {
        reveal(simulation::linked);
    }
    form_made(n, p, callee, args, ty, g, s);
    if p.types.structs.contains_key(callee) {
        sim_makers::sim_struct(n, p, ops, callee, args, g, bs, s, m)
    } else {
        sim_makers::sim_variant(n, p, ops, callee, args, g, bs, s, m)
    }
}

pub proof fn lemma_words()
    ensures
        words_apart(),
{
    reveal_strlit("mod");
    reveal_strlit("and");
    reveal_strlit("or");
    reveal_strlit("not");
    reveal_strlit("print");
    reveal_strlit("println");
    reveal_strlit("str-concat");
    reveal_strlit("str-len");
    reveal_strlit("aget");
    reveal_strlit("aset!");
    reveal_strlit("alen");
}

} // verus!
