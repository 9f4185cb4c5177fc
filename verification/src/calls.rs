//! Type checker: calls, and the instances of generic functions.
use crate::ast::{Expr, Function, GenericFunction, Param, Span, Type, TypeV};
use crate::ast;
use crate::instances;
use crate::table::NameTable;
use crate::text::{Dup, same_text};
use crate::text;
use crate::typeck::{
    arity, arity_of, expect, is_builtin, is_comparison, is_numeric, is_printable, mangle_method,
    mangle_mono, names_of_type_params, repeated, scope_from, subst_expr, subst_type, TypeCk,
    types_of_fields, types_of_params, unify_type_param,
};
use crate::typeck;
use crate::typing::{Checked, FnSig, Subst, TypeError, TypeErrorV, Universe};
use crate::typing;
use vstd::prelude::*;
use vstd::string::*;

verus! {

/// Where unification succeeds, the type parameters stand for known types.
pub(crate) proof fn lemma_unified_known(
    pattern: TypeV,
    concrete: TypeV,
    tps: Set<Seq<char>>,
    subst: Subst,
    span: Span,
    u: Universe,
)
    requires
        typing::known(u, concrete),
        instances::scope_known(u, subst),
    ensures
        typing::unified(pattern, concrete, tps, subst, span) matches Ok(s2) ==> instances::scope_known(u, s2),
    decreases pattern,
{
    if let TypeV::Array { elem: pe, len: plen } = pattern {
        if let TypeV::Array { elem: ce, len: clen } = concrete {
            lemma_unified_known(*pe, *ce, tps, subst, span, u);
        }
    }
}

/// The type arguments are what the type parameters stand for.
pub(crate) proof fn lemma_type_args(
    tps: Seq<(Seq<char>, Option<Seq<char>>)>,
    i: int,
    acc: Seq<TypeV>,
    subst: Subst,
    impls: Set<(Seq<char>, TypeV)>,
    span: Span,
    u: Universe,
)
    requires
        0 <= i <= tps.len(),
        acc.len() == i,
        instances::scope_known(u, subst),
        forall|j: int| 0 <= j < i ==> typing::known(u, #[trigger] acc[j]),
        forall|j: int| 0 <= j < i ==> subst.contains_key((#[trigger] tps[j]).0),
    ensures
        typing::type_args(tps, i, acc, subst, impls, span) matches Ok(ts) ==> {
            &&& ts.len() == tps.len()
            &&& forall|j: int| 0 <= j < ts.len() ==> typing::known(u, #[trigger] ts[j])
            &&& forall|j: int| 0 <= j < tps.len() ==> subst.contains_key((#[trigger] tps[j]).0)
        },
    decreases tps.len() - i,
{
    if i < tps.len() {
        let (name, bound) = tps[i];
        if subst.contains_key(name) && !(bound is Some && !impls.contains((bound->0, subst[name]))) {
            lemma_type_args(tps, i + 1, acc.push(subst[name]), subst, impls, span, u);
        }
    }
}

/// A list of which the first element has been replaced.
pub(crate) proof fn lemma_first_checked(orig: Seq<Expr>, now: Seq<Expr>)
    requires
        orig.len() == now.len(),
        orig.len() > 0,
        forall|j: int| 0 < j < orig.len() ==> #[trigger] now[j] == orig[j],
    ensures
        ast::exprs_v(now) == ast::exprs_v(orig).update(0, ast::expr_v(now[0])),
        ast::exprs_v(now).subrange(0, 1) == seq![ast::expr_v(now[0])],
        ast::exprs_v(now).len() == orig.len(),
{
    assert(ast::exprs_v(now) =~= ast::exprs_v(orig).update(0, ast::expr_v(now[0])));
    assert(ast::exprs_v(now).subrange(0, 1) =~= seq![ast::expr_v(now[0])]);
}

impl TypeCk {
    /// A call: of a trait method, a constructor, a builtin, a generic or a plain function.
    #[verifier::rlimit(20)]
    pub(crate) fn check_call(&mut self, callee: &mut String, args: &mut Vec<Expr>, span: Span, env: &NameTable<Type>, Ghost(u): Ghost<Universe>, Ghost(gas): Ghost<nat>) -> (r: Result<Type, TypeError>)
        requires
            instances::ready(old(self)@, u, gas),
            instances::scope_known(u, env@),
        ensures
            instances::ready(final(self)@, u, gas),
            r is Ok ==> typing::known(u, r->Ok_0@),
            typeck::gives((final(callee)@, ast::exprs_v(final(args)@)), final(self)@, r, typing::check_call(gas, old(callee)@, ast::exprs_v(old(args)@), span, env@, old(self)@)),
        decreases gas, old(args)@, old(args)@.len() + 3,
    {
        if self.trait_methods.has(&*callee) {
            return self.check_method_call(callee, args, span, env, Ghost(u), Ghost(gas));
        }
        let mut known_sig: Option<(Vec<Type>, Type)> = None;
        if let Some(d) = self.structs.get(&*callee) {
            proof {
                instances::lemma_ready_struct(self@, u, gas, callee@);
            }
            known_sig = Some((types_of_fields(&d.fields), Type::Named(d.name.clone())));
        } else if let Some(info) = self.variants.get(&*callee) {
            proof {
                instances::lemma_ready_variant(self@, u, gas, callee@);
            }
            let mut wants: Vec<Type> = Vec::new();
            assert(wants.deep_view() =~= Seq::empty());
            if let Some(t) = &info.payload {
                wants.push(t.dup());
                assert(wants.deep_view() =~= seq![t@]);
            }
            known_sig = Some((wants, Type::Named(info.enum_name.clone())));
        } else if !is_builtin(callee.as_str()) && !self.generic_fns.has(&*callee) {
            match self.fns.get(&*callee) {
                Some(sig) => {
                    proof {
                        instances::lemma_ready_fn(self@, u, gas, callee@);
                    }
                    known_sig = Some((sig.params.dup(), sig.ret.dup()));
                },
                None => {
                    return Err(TypeError::UndefinedFn(callee.clone(), span));
                },
            }
        }
        match known_sig {
            Some((wants, ret)) => self.check_known_call(
                &*callee,
                args,
                &wants,
                ret,
                span,
                env,
                Ghost(u),
                Ghost(gas),
            ),
            None => {
                if is_builtin(callee.as_str()) {
                    self.check_builtin(&*callee, args, span, env, Ghost(u), Ghost(gas))
                } else {
                    self.check_generic_call(callee, args, span, env, Ghost(u), Ghost(gas))
                }
            },
        }
    }

    /// A call of something with these parameter types and this result.
    pub(crate) fn check_known_call(&mut self, callee: &String, args: &mut Vec<Expr>, wants: &Vec<Type>, ret: Type, span: Span, env: &NameTable<Type>, Ghost(u): Ghost<Universe>, Ghost(gas): Ghost<nat>) -> (r: Result<Type, TypeError>)
        requires
            instances::ready(old(self)@, u, gas),
            instances::scope_known(u, env@),
            typing::known(u, ret@),
        ensures
            instances::ready(final(self)@, u, gas),
            r is Ok ==> typing::known(u, r->Ok_0@),
            typeck::gives((callee@, ast::exprs_v(final(args)@)), final(self)@, r, typing::check_known_call(gas, callee@, ast::exprs_v(old(args)@), wants.deep_view(), ret@, span, env@, old(self)@)),
        decreases gas, old(args)@, old(args)@.len() + 2,
    {
        if wants.len() != args.len() {
            return Err(arity(callee, wants.len(), args.len(), span));
        }
        proof {
            assert(ast::exprs_v(args@).subrange(0, 0) =~= Seq::empty());
        }
        match self.check_each(args, 0, wants, Ghost(args@), env, Ghost(u), Ghost(gas)) {
            Err(x) => Err(x),
            Ok(_) => Ok(ret),
        }
    }

    /// A call of a trait method: the type of the first argument says which impl is meant.
    #[verifier::rlimit(20)]
    pub(crate) fn check_method_call(&mut self, callee: &mut String, args: &mut Vec<Expr>, span: Span, env: &NameTable<Type>, Ghost(u): Ghost<Universe>, Ghost(gas): Ghost<nat>) -> (r: Result<Type, TypeError>)
        requires
            instances::ready(old(self)@, u, gas),
            instances::scope_known(u, env@),
            old(self)@.trait_methods.contains_key(old(callee)@),
        ensures
            instances::ready(final(self)@, u, gas),
            r is Ok ==> typing::known(u, r->Ok_0@),
            typeck::gives((final(callee)@, ast::exprs_v(final(args)@)), final(self)@, r, typing::check_method_call(gas, old(callee)@, ast::exprs_v(old(args)@), span, env@, old(self)@)),
        decreases gas, old(args)@, old(args)@.len() + 2,
    {
        if args.len() == 0 {
            return Err(TypeError::TraitCallNoReceiver(span));
        }
        let trait_name = match self.trait_methods.get(&*callee) {
            Some(t) => t.clone(),
            None => String::new(),
        };
        let ghost orig = args@;
        let span0 = args[0].span;
        let r = self.check_expr(&mut args[0], env, Ghost(u), Ghost(gas));
        proof {
            lemma_first_checked(orig, args@);
        }
        match r {
            Err(x) => Err(x),
            Ok(recv) => {
                let key = (trait_name.clone(), recv.dup());
                if !self.impls.has(&key) {
                    return Err(TypeError::MissingImpl { trait_name, ty: recv, span });
                }
                let symbol = mangle_method(trait_name.as_str(), &recv, callee.as_str());
                let sig = match self.fns.get(&symbol) {
                    Some(sig) => sig.dup(),
                    None => {
                        return Err(TypeError::UndefinedFn(symbol, span));
                    },
                };
                proof {
                    instances::lemma_ready_fn(self@, u, gas, symbol@);
                    assert(sig@.params.len() == sig.params@.len());
                }
                if sig.params.len() != args.len() {
                    return Err(arity(&*callee, sig.params.len(), args.len(), span));
                }
                assert(sig@.params[0] == sig.params@[0]@);
                if let Err(x) = expect(&sig.params[0], &recv, span0) {
                    return Err(x);
                }
                match self.check_each(args, 1, &sig.params, Ghost(orig), env, Ghost(u), Ghost(gas)) {
                    Err(x) => Err(x),
                    Ok(_) => {
                        *callee = symbol;
                        Ok(sig.ret)
                    },
                }
            },
        }
    }

    /// Arguments of one numeric type, which is the result.
    pub(crate) fn check_numeric_args(&mut self, op: &String, args: &mut Vec<Expr>, env: &NameTable<Type>, Ghost(u): Ghost<Universe>, Ghost(gas): Ghost<nat>) -> (r: Result<Type, TypeError>)
        requires
            instances::ready(old(self)@, u, gas),
            instances::scope_known(u, env@),
            old(args)@.len() > 0,
        ensures
            instances::ready(final(self)@, u, gas),
            r is Ok ==> typing::known(u, r->Ok_0@),
            typeck::gives(ast::exprs_v(final(args)@), final(self)@, r, typing::check_numeric(gas, op@, ast::exprs_v(old(args)@), env@, old(self)@)),
        decreases gas, old(args)@, old(args)@.len() + 1,
    {
        let ghost orig = args@;
        let span0 = args[0].span;
        let r = self.check_expr(&mut args[0], env, Ghost(u), Ghost(gas));
        proof {
            lemma_first_checked(orig, args@);
        }
        match r {
            Err(x) => Err(x),
            Ok(first) => {
                if !is_numeric(&first) {
                    return Err(TypeError::BadOperand { op: op.clone(), ty: first, span: span0 });
                }
                let wants = repeated(&first, args.len());
                match self.check_each(args, 1, &wants, Ghost(orig), env, Ghost(u), Ghost(gas)) {
                    Err(x) => Err(x),
                    Ok(_) => Ok(first),
                }
            },
        }
    }

    /// Two arguments of one type that can be compared.
    pub(crate) fn check_compare_args(&mut self, op: &String, args: &mut Vec<Expr>, env: &NameTable<Type>, Ghost(u): Ghost<Universe>, Ghost(gas): Ghost<nat>) -> (r: Result<Type, TypeError>)
        requires
            instances::ready(old(self)@, u, gas),
            instances::scope_known(u, env@),
            old(args)@.len() == 2,
        ensures
            instances::ready(final(self)@, u, gas),
            r is Ok ==> typing::known(u, r->Ok_0@),
            typeck::gives(ast::exprs_v(final(args)@), final(self)@, r, typing::check_comparison(gas, op@, ast::exprs_v(old(args)@), env@, old(self)@)),
        decreases gas, old(args)@, old(args)@.len() + 1,
    {
        let ghost orig = args@;
        let span0 = args[0].span;
        let r = self.check_expr(&mut args[0], env, Ghost(u), Ghost(gas));
        proof {
            lemma_first_checked(orig, args@);
        }
        match r {
            Err(x) => Err(x),
            Ok(t) => {
                let r2 = self.check_against(&mut args[1], &t, env, Ghost(u), Ghost(gas));
                proof {
                    assert(ast::exprs_v(args@) =~= seq![ast::expr_v(args@[0]), ast::expr_v(args@[1])]);
                }
                match r2 {
                    Err(x) => Err(x),
                    Ok(_) => {
                        if is_numeric(&t) || matches!(t, Type::Bool) {
                            Ok(Type::Bool)
                        } else {
                            Err(TypeError::BadOperand { op: op.clone(), ty: t, span: span0 })
                        }
                    },
                }
            },
        }
    }

    /// Arguments that all have one type.
    pub(crate) fn check_uniform_args(&mut self, args: &mut Vec<Expr>, want: &Type, ret: Type, env: &NameTable<Type>, Ghost(u): Ghost<Universe>, Ghost(gas): Ghost<nat>) -> (r: Result<Type, TypeError>)
        requires
            instances::ready(old(self)@, u, gas),
            instances::scope_known(u, env@),
            typing::known(u, ret@),
        ensures
            instances::ready(final(self)@, u, gas),
            r is Ok ==> typing::known(u, r->Ok_0@),
            typeck::gives(ast::exprs_v(final(args)@), final(self)@, r, typing::check_uniform(gas, ast::exprs_v(old(args)@), want@, ret@, env@, old(self)@)),
        decreases gas, old(args)@, old(args)@.len() + 1,
    {
        let wants = repeated(want, args.len());
        proof {
            assert(ast::exprs_v(args@).subrange(0, 0) =~= Seq::empty());
        }
        match self.check_each(args, 0, &wants, Ghost(args@), env, Ghost(u), Ghost(gas)) {
            Err(x) => Err(x),
            Ok(_) => Ok(ret),
        }
    }

    /// The builtins whose first argument decides: printing and array access.
    #[verifier::rlimit(20)]
    pub(crate) fn check_first_arg(&mut self, op: &String, args: &mut Vec<Expr>, env: &NameTable<Type>, Ghost(u): Ghost<Universe>, Ghost(gas): Ghost<nat>) -> (r: Result<Type, TypeError>)
        requires
            instances::ready(old(self)@, u, gas),
            instances::scope_known(u, env@),
            1 <= old(args)@.len() <= 3,
            old(args)@.len() == 3 ==> op@ == "aset!"@,
        ensures
            instances::ready(final(self)@, u, gas),
            r is Ok ==> typing::known(u, r->Ok_0@),
            typeck::gives(ast::exprs_v(final(args)@), final(self)@, r, typing::check_first(gas, op@, ast::exprs_v(old(args)@), env@, old(self)@)),
        decreases gas, old(args)@, old(args)@.len() + 1,
    {
        let ghost orig = args@;
        let span0 = args[0].span;
        let r = self.check_expr(&mut args[0], env, Ghost(u), Ghost(gas));
        proof {
            lemma_first_checked(orig, args@);
        }
        match r {
            Err(x) => Err(x),
            Ok(t) => {
                if same_text(op.as_str(), "print") || same_text(op.as_str(), "println") {
                    if is_printable(&t) {
                        return Ok(Type::Unit);
                    }
                    return Err(TypeError::BadOperand { op: op.clone(), ty: t, span: span0 });
                }
                let elem = match &t {
                    Type::Array { elem, .. } => (**elem).dup(),
                    _ => {
                        return Err(TypeError::BadOperand { op: op.clone(), ty: t, span: span0 });
                    },
                };
                let mut wants: Vec<Type> = Vec::new();
                wants.push(t);
                wants.push(Type::I32);
                let setting = same_text(op.as_str(), "aset!");
                if setting {
                    wants.push(elem.dup());
                    assert(wants.deep_view() =~= seq![t@, TypeV::I32, elem@]);
                } else {
                    assert(wants.deep_view() =~= seq![t@, TypeV::I32]);
                }
                match self.check_each(args, 1, &wants, Ghost(orig), env, Ghost(u), Ghost(gas)) {
                    Err(x) => Err(x),
                    Ok(_) => {
                        if same_text(op.as_str(), "aget") {
                            Ok(elem)
                        } else if setting {
                            Ok(Type::Unit)
                        } else {
                            Ok(Type::I32)
                        }
                    },
                }
            },
        }
    }

    /// A call of a builtin.
    #[verifier::rlimit(20)]
    pub(crate) fn check_builtin(&mut self, op: &String, args: &mut Vec<Expr>, span: Span, env: &NameTable<Type>, Ghost(u): Ghost<Universe>, Ghost(gas): Ghost<nat>) -> (r: Result<Type, TypeError>)
        requires
            instances::ready(old(self)@, u, gas),
            instances::scope_known(u, env@),
            typing::builtin_name(op@),
        ensures
            instances::ready(final(self)@, u, gas),
            r is Ok ==> typing::known(u, r->Ok_0@),
            typeck::gives((op@, ast::exprs_v(final(args)@)), final(self)@, r, ({
                let c = typing::check_builtin(gas, op@, ast::exprs_v(old(args)@), span, env@, old(self)@);
                Checked { node: (op@, c.node), s: c.s, r: c.r }
            })),
        decreases gas, old(args)@, old(args)@.len() + 2,
    {
        let name = op.as_str();
        match arity_of(name) {
            None => {
                if args.len() == 0 {
                    return Err(arity(op, 1, 0, span));
                }
                return self.check_numeric_args(op, args, env, Ghost(u), Ghost(gas));
            },
            Some(n) => {
                if args.len() != n {
                    return Err(arity(op, n, args.len(), span));
                }
            },
        }
        if same_text(name, "/") || same_text(name, "mod") {
            self.check_numeric_args(op, args, env, Ghost(u), Ghost(gas))
        } else if is_comparison(name) {
            self.check_compare_args(op, args, env, Ghost(u), Ghost(gas))
        } else if same_text(name, "and") || same_text(name, "or") || same_text(name, "not") {
            self.check_uniform_args(args, &Type::Bool, Type::Bool, env, Ghost(u), Ghost(gas))
        } else if same_text(name, "str-concat") {
            self.check_uniform_args(args, &Type::Str, Type::Str, env, Ghost(u), Ghost(gas))
        } else if same_text(name, "str-len") {
            self.check_uniform_args(args, &Type::Str, Type::I32, env, Ghost(u), Ghost(gas))
        } else {
            self.check_first_arg(op, args, env, Ghost(u), Ghost(gas))
        }
    }

    /// The arguments of a generic call: what the type parameters stand for, and the
    /// types of the arguments.
    pub(crate) fn check_unified_args(&mut self, args: &mut Vec<Expr>, params: &Vec<Param>, tps: &NameTable<bool>, env: &NameTable<Type>, Ghost(
        u,
    ): Ghost<Universe>, Ghost(gas): Ghost<nat>) -> (r: Result<
        (NameTable<Type>, Vec<Type>),
        TypeError,
    >)
        requires
            instances::ready(old(self)@, u, gas),
            instances::scope_known(u, env@),
            params@.len() == old(args)@.len(),
        ensures
            instances::ready(final(self)@, u, gas),
            final(args)@.len() == old(args)@.len(),
            r is Ok ==> instances::scope_known(u, r->Ok_0.0@),
            r is Ok ==> r->Ok_0.1@.len() == old(args)@.len(),
            typing::check_unified(
                gas,
                ast::exprs_v(old(args)@),
                0,
                Seq::empty(),
                params.deep_view(),
                tps@.dom(),
                Map::empty(),
                Seq::empty(),
                env@,
                old(self)@,
            ) == (Checked {
                node: ast::exprs_v(final(args)@),
                s: final(self)@,
                r: match r {
                    Ok((subst, tys)) => Ok::<(Subst, Seq<TypeV>), TypeErrorV>(
                        (subst@, tys.deep_view()),
                    ),
                    Err(x) => Err::<(Subst, Seq<TypeV>), TypeErrorV>(x@),
                },
            }),
        decreases gas, old(args)@, old(args)@.len() + 1,
    {
        let ghost orig = args@;
        let ghost all = ast::exprs_v(args@);
        let mut subst: NameTable<Type> = NameTable::new();
        let mut tys: Vec<Type> = Vec::new();
        let mut i: usize = 0;
        proof {
            assert(ast::exprs_v(args@.subrange(0, 0)) =~= Seq::empty());
            assert(tys.deep_view() =~= Seq::empty());
        }
        while i < args.len()
            invariant
                i <= args@.len(),
                args@.len() == orig.len(),
                orig == old(args)@,
                params@.len() == orig.len(),
                tys@.len() == i,
                all == ast::exprs_v(orig),
                instances::ready(self@, u, gas),
                instances::scope_known(u, env@),
                instances::scope_known(u, subst@),
                forall|j: int| i <= j < args@.len() ==> #[trigger] args@[j] == orig[j],
                typing::check_unified(
                    gas,
                    all,
                    0,
                    Seq::empty(),
                    params.deep_view(),
                    tps@.dom(),
                    Map::empty(),
                    Seq::empty(),
                    env@,
                    old(self)@,
                ) == typing::check_unified(
                    gas,
                    all,
                    i as int,
                    ast::exprs_v(args@.subrange(0, i as int)),
                    params.deep_view(),
                    tps@.dom(),
                    subst@,
                    tys.deep_view(),
                    env@,
                    self@,
                ),
            decreases args@.len() - i,
        {
            let ghost before = args@;
            let ghost tys_before = tys.deep_view();
            assert(args@[i as int] == orig[i as int]);
            assert(params.deep_view()[i as int] == params@[i as int]@);
            let span = args[i].span;
            let r = self.check_expr(&mut args[i], env, Ghost(u), Ghost(gas));
            proof {
                assert(ast::exprs_v(args@.subrange(0, i + 1)) =~= ast::exprs_v(
                    before.subrange(0, i as int),
                ).push(ast::expr_v(args@[i as int])));
                assert(ast::exprs_v(args@) =~= typing::resumed(ast::exprs_v(args@.subrange(0, i + 1)), all, i + 1));
            }
            match r {
                Err(x) => {
                    return Err(x);
                },
                Ok(t) => {
                    proof {
                        lemma_unified_known(params@[i as int].ty@, t@, tps@.dom(), subst@, span, u);
                    }
                    if let Err(x) = unify_type_param(&params[i].ty, &t, tps, &mut subst, span) {
                        return Err(x);
                    }
                    tys.push(t);
                    assert(tys.deep_view() =~= tys_before.push(t@));
                },
            }
            i = i + 1;
        }
        proof {
            assert(args@.subrange(0, i as int) =~= args@);
        }
        Ok((subst, tys))
    }

    /// What the type parameters stand for.
    pub(crate) fn infer_type_args(&self, tps: &Vec<(String, Option<String>)>, subst: &NameTable<Type>, span: Span) -> (r:
        Result<Vec<Type>, TypeError>)
        ensures
            text::outcome(r) == typing::type_args(
                tps.deep_view(),
                0,
                Seq::empty(),
                subst@,
                self@.impls,
                span,
            ),
    {
        let mut out: Vec<Type> = Vec::new();
        let mut i: usize = 0;
        proof {
            assert(out.deep_view() =~= Seq::empty());
        }
        while i < tps.len()
            invariant
                i <= tps@.len(),
                typing::type_args(tps.deep_view(), 0, Seq::empty(), subst@, self@.impls, span) == typing::type_args(
                    tps.deep_view(),
                    i as int,
                    out.deep_view(),
                    subst@,
                    self@.impls,
                    span,
                ),
            decreases tps@.len() - i,
        {
            let ghost before = out.deep_view();
            assert(tps.deep_view()[i as int] == tps@[i as int].deep_view());
            let name = &tps[i].0;
            let ty = match subst.get(name) {
                Some(t) => t.dup(),
                None => {
                    return Err(TypeError::InferTypeParam(name.clone(), span));
                },
            };
            if let Some(trait_name) = &tps[i].1 {
                let key = (trait_name.clone(), ty.dup());
                if !self.impls.has(&key) {
                    return Err(
                        TypeError::MissingImpl { trait_name: trait_name.clone(), ty, span },
                    );
                }
            }
            out.push(ty);
            assert(out.deep_view() =~= before.push(ty@));
            i = i + 1;
        }
        Ok(out)
    }

    /// Makes a new instance of a generic function, whose body with the type
    /// parameters replaced is `body`. Gives its symbol.
    pub(crate) fn instantiate_generic(&mut self, g: &GenericFunction, type_args: &Vec<Type>, subst: &NameTable<Type>, body: Expr, Ghost(
        u,
    ): Ghost<Universe>, Ghost(gas): Ghost<nat>) -> (r: Result<String, TypeError>)
        requires
            body@ == typing::subst_body(g.body@, subst@),
            instances::ready(
                typing::entered(
                    old(self)@,
                    g@,
                    type_args.deep_view(),
                    typing::instance_of(g@, type_args.deep_view(), subst@),
                ),
                u,
                gas,
            ),
            instances::scope_known(
                u,
                typing::scope_of(typing::instance_of(g@, type_args.deep_view(), subst@).params),
            ),
        ensures
            instances::ready(final(self)@, u, gas),
            typeck::gives(
                (),
                final(self)@,
                r,
                typing::check_instance(gas, g@, type_args.deep_view(), subst@, old(self)@),
            ),
        decreases gas, body, 2int,
    {
        let symbol = mangle_mono(g.name.as_str(), type_args);
        let ghost f = typing::instance_of(g@, type_args.deep_view(), subst@);
        let mut params: Vec<Param> = Vec::new();
        let mut i: usize = 0;
        while i < g.params.len()
            invariant
                i <= g.params@.len(),
                params@.len() == i,
                f == typing::instance_of(g@, type_args.deep_view(), subst@),
                forall|j: int| 0 <= j < i ==> (#[trigger] params@[j])@ == f.params[j],
            decreases g.params@.len() - i,
        {
            let p = &g.params[i];
            assert(g@.params[i as int] == p@);
            params.push(
                Param { name: p.name.clone(), ty: subst_type(&p.ty, subst), span: p.span },
            );
            i = i + 1;
        }
        assert(params.deep_view() =~= f.params);
        let ret = subst_type(&g.ret, subst);
        let sig = FnSig { params: types_of_params(&params), ret: ret.dup() };
        let key = (g.name.clone(), type_args.dup());
        self.fns.put(symbol.clone(), sig);
        self.mono_cache.put(key, symbol.clone());
        let was = self.in_loop;
        self.in_loop = false;
        let env = scope_from(&params);
        let mut body = body;
        assert(self@ == typing::entered(old(self)@, g@, type_args.deep_view(), f));
        let checked = self.check_against(&mut body, &ret, &env, Ghost(u), Ghost(gas));
        let ghost s1 = self@;
        self.in_loop = was;
        proof {
            instances::lemma_ready_frame(s1, self@, u, gas);
        }
        match checked {
            Err(x) => Err(x),
            Ok(_) => {
                let made = Function { name: symbol.clone(), params, ret, body, span: g.span };
                self.mono_fns.push(made);
                proof {
                    assert(self.mono_fns.deep_view() =~= s1.mono_fns.push(made@));
                    instances::lemma_ready_frame(s1, self@, u, gas);
                }
                Ok(symbol)
            },
        }
    }

    /// The first argument whose type is not that of the parameter.
    pub(crate) fn first_misfit(params: &Vec<Type>, tys: &Vec<Type>, args: &Vec<Expr>) -> (r: Option<TypeError>)
        requires
            tys@.len() <= args@.len(),
        ensures
            r.deep_view() == typing::misfit(params.deep_view(), tys.deep_view(), ast::exprs_v(args@), 0),
    {
        let mut i: usize = 0;
        while i < params.len() && i < tys.len()
            invariant
                i <= params@.len(),
                i <= tys@.len(),
                tys@.len() <= args@.len(),
                typing::misfit(params.deep_view(), tys.deep_view(), ast::exprs_v(args@), 0) == typing::misfit(
                    params.deep_view(),
                    tys.deep_view(),
                    ast::exprs_v(args@),
                    i as int,
                ),
            decreases params@.len() - i,
        {
            assert(params.deep_view()[i as int] == params@[i as int]@);
            assert(tys.deep_view()[i as int] == tys@[i as int]@);
            if let Err(x) = expect(&params[i], &tys[i], args[i].span) {
                return Some(x);
            }
            i = i + 1;
        }
        None
    }

    /// A call of a generic function: the arguments say what the type parameters stand for.
    #[verifier::rlimit(30)]
    pub(crate) fn check_generic_call(&mut self, callee: &mut String, args: &mut Vec<Expr>, span: Span, env: &NameTable<Type>, Ghost(u): Ghost<Universe>, Ghost(gas): Ghost<nat>) -> (r: Result<Type, TypeError>)
        requires
            instances::ready(old(self)@, u, gas),
            instances::scope_known(u, env@),
            old(self)@.generic_fns.contains_key(old(callee)@),
        ensures
            instances::ready(final(self)@, u, gas),
            r is Ok ==> typing::known(u, r->Ok_0@),
            typeck::gives((final(callee)@, ast::exprs_v(final(args)@)), final(self)@, r, typing::check_generic_call(gas, old(callee)@, ast::exprs_v(old(args)@), span, env@, old(self)@)),
        decreases gas, old(args)@, old(args)@.len() + 2,
    {
        let g = match self.generic_fns.get(&*callee) {
            Some(g) => g.dup(),
            None => {
                return Err(TypeError::UndefinedFn(callee.clone(), span));
            },
        };
        assert(g@.params.len() == g.params@.len());
        if g.params.len() != args.len() {
            return Err(arity(&*callee, g.params.len(), args.len(), span));
        }
        let tps = names_of_type_params(&g.type_params);
        let (subst, tys) = match self.check_unified_args(
            args,
            &g.params,
            &tps,
            env,
            Ghost(u),
            Ghost(gas),
        ) {
            Ok(found) => found,
            Err(x) => {
                return Err(x);
            },
        };
        let ghost s1 = self@;
        let type_args = match self.infer_type_args(&g.type_params, &subst, span) {
            Ok(ts) => ts,
            Err(x) => {
                return Err(x);
            },
        };
        proof {
            instances::lemma_ready_generic(old(self)@, u, gas, old(callee)@);
            lemma_type_args(
                g@.type_params,
                0,
                Seq::empty(),
                subst@,
                s1.impls,
                span,
                u,
            );
        }
        let key = (g.name.clone(), type_args.dup());
        let cached = match self.mono_cache.get(&key) {
            Some(symbol) => Some(symbol.clone()),
            None => None,
        };
        let symbol = match cached {
            Some(symbol) => symbol,
            None => {
                let mut body = g.body.dup();
                subst_expr(&mut body, &subst);
                proof {
                    instances::lemma_enter(s1, u, gas, g@, type_args.deep_view(), subst@);
                }
                let ghost less = (gas - 1) as nat;
                let r = self.instantiate_generic(
                    &g,
                    &type_args,
                    &subst,
                    body,
                    Ghost(u),
                    Ghost(less),
                );
                proof {
                    instances::lemma_ready_more(self@, u, less, gas);
                }
                match r {
                    Ok(symbol) => symbol,
                    Err(x) => {
                        return Err(x);
                    },
                }
            },
        };
        match self.fns.get(&symbol) {
            None => Err(TypeError::UndefinedFn(symbol, span)),
            Some(sig) => {
                proof {
                    instances::lemma_ready_fn(self@, u, gas, symbol@);
                }
                match Self::first_misfit(&sig.params, &tys, &*args) {
                    Some(x) => Err(x),
                    None => {
                        let ret = sig.ret.dup();
                        *callee = symbol;
                        Ok(ret)
                    },
                }
            },
        }
    }

}

} // verus!
