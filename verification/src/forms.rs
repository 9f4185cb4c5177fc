//! Type checker: the forms of expressions.
use crate::ast::{Binding, Expr, ExprKind, Lit, MatchArm, Span, Type, TypeV, VariantDef};
use crate::ast;
use crate::instances;
use crate::table::NameTable;
use crate::text::{Dup, same_text};
use crate::text;
use crate::typeck::{cast_allowed, expect, lit_type, repeated, TypeCk};
use crate::typeck;
use crate::typing::{Checked, Env, TypeError, TypeErrorV, Universe};
use crate::typing;
use vstd::prelude::*;
use vstd::string::*;

verus! {

impl TypeCk {
    /// Checks an expression and fills in the types in it.
    pub(crate) fn check_expr(&mut self, e: &mut Expr, env: &NameTable<Type>, Ghost(u): Ghost<Universe>, Ghost(gas): Ghost<nat>) -> (r: Result<Type, TypeError>)
        requires
            instances::ready(old(self)@, u, gas),
            instances::scope_known(u, env@),
        ensures
            instances::ready(final(self)@, u, gas),
            r is Ok ==> typing::known(u, r->Ok_0@),
            typeck::gives(ast::expr_v(*final(e)), final(self)@, r, typing::check(gas, ast::expr_v(*old(e)), env@, old(self)@)),
        decreases gas, *old(e), 0int,
    {
        let span = e.span;
        let r = self.check_form(&mut e.kind, span, env, Ghost(u), Ghost(gas));
        if let Ok(t) = &r {
            e.ty = Some(t.dup());
        }
        r
    }

    /// Checks an expression that must be of type `want`.
    pub(crate) fn check_against(&mut self, e: &mut Expr, want: &Type, env: &NameTable<Type>, Ghost(u): Ghost<Universe>, Ghost(gas): Ghost<nat>) -> (r: Result<Type, TypeError>)
        requires
            instances::ready(old(self)@, u, gas),
            instances::scope_known(u, env@),
        ensures
            instances::ready(final(self)@, u, gas),
            r is Ok ==> typing::known(u, r->Ok_0@),
            typeck::gives(ast::expr_v(*final(e)), final(self)@, r, typing::check_as(gas, ast::expr_v(*old(e)), want@, env@, old(self)@)),
        decreases gas, *old(e), 1int,
    {
        let span = e.span;
        match self.check_expr(e, env, Ghost(u), Ghost(gas)) {
            Err(x) => Err(x),
            Ok(t) => match expect(want, &t, span) {
                Ok(_) => Ok(t),
                Err(x) => Err(x),
            },
        }
    }

    /// Checks one of the forms of expressions.
    #[verifier::rlimit(30)]
    pub(crate) fn check_form(&mut self, k: &mut ExprKind, span: Span, env: &NameTable<Type>, Ghost(u): Ghost<Universe>, Ghost(gas): Ghost<nat>) -> (r: Result<Type, TypeError>)
        requires
            instances::ready(old(self)@, u, gas),
            instances::scope_known(u, env@),
        ensures
            instances::ready(final(self)@, u, gas),
            r is Ok ==> typing::known(u, r->Ok_0@),
            typeck::gives(ast::kind_v(*final(k)), final(self)@, r, typing::check_kind(gas, ast::kind_v(*old(k)), span, env@, old(self)@)),
        decreases gas, *old(k), 3int,
    {
        match k {
            ExprKind::Lit(l) => {
                let t = lit_type(&*l);
                let fits = match &*l {
                    Lit::Int(v, _) => !matches!(t, Type::I32) || -2147483648 <= *v && *v
                        <= 2147483647,
                    _ => true,
                };
                if fits {
                    Ok(t)
                } else {
                    Err(TypeError::IntLitOverflow(Type::I32, span))
                }
            },
            ExprKind::Var(name) => match env.get(&*name) {
                Some(t) => Ok(t.dup()),
                None => match self.consts.get(&*name) {
                    Some(t) => {
                        proof {
                            instances::lemma_ready_const(self@, u, gas, name@);
                        }
                        Ok(t.dup())
                    },
                    None => Err(TypeError::UndefinedVar(name.clone(), span)),
                },
            },
            ExprKind::If { .. } => self.check_if(k, span, env, Ghost(u), Ghost(gas)),
            ExprKind::Let { .. } => self.check_let(k, span, env, Ghost(u), Ghost(gas)),
            ExprKind::Do(es) => self.check_sequence(es, env, Ghost(u), Ghost(gas)),
            ExprKind::Cast { ty, expr } => match self.check_expr(expr, env, Ghost(u), Ghost(gas)) {
                Err(x) => Err(x),
                Ok(from) => {
                    if cast_allowed(&from, &*ty) {
                        Ok(ty.dup())
                    } else {
                        Err(TypeError::BadCast { from, to: ty.dup(), span })
                    }
                },
            },
            ExprKind::Assign { name, value } => match env.get(&*name) {
                Some(t) => match self.check_against(value, t, env, Ghost(u), Ghost(gas)) {
                    Err(x) => Err(x),
                    Ok(_) => Ok(Type::Unit),
                },
                None => {
                    if self.consts.has(&*name) {
                        Err(TypeError::AssignConst(name.clone(), span))
                    } else {
                        Err(TypeError::UndefinedVar(name.clone(), span))
                    }
                },
            },
            ExprKind::While { .. } => self.check_while(k, span, env, Ghost(u), Ghost(gas)),
            ExprKind::Loop { .. } => self.check_loop_body(k, span, env, Ghost(u), Ghost(gas)),
            ExprKind::Break => {
                if self.in_loop {
                    Ok(Type::Unit)
                } else {
                    Err(TypeError::BreakOutsideLoop(span))
                }
            },
            ExprKind::ArrayLit { .. } => self.check_array(k, span, env, Ghost(u), Ghost(gas)),
            ExprKind::Field { base, field } => match self.check_expr(
                base,
                env,
                Ghost(u),
                Ghost(gas),
            ) {
                Err(x) => Err(x),
                Ok(bt) => self.check_field(bt, &*field, span, Ghost(u), Ghost(gas)),
            },
            ExprKind::Match { .. } => self.check_match(k, span, env, Ghost(u), Ghost(gas)),
            ExprKind::Call { callee, args } => self.check_call(
                callee,
                args,
                span,
                env,
                Ghost(u),
                Ghost(gas),
            ),
        }
    }

    /// `if`: both branches have one type.
    pub(crate) fn check_if(&mut self, k: &mut ExprKind, span: Span, env: &NameTable<Type>, Ghost(u): Ghost<Universe>, Ghost(gas): Ghost<nat>) -> (r: Result<Type, TypeError>)
        requires
            instances::ready(old(self)@, u, gas),
            instances::scope_known(u, env@),
            *old(k) is If,
        ensures
            instances::ready(final(self)@, u, gas),
            r is Ok ==> typing::known(u, r->Ok_0@),
            typeck::gives(ast::kind_v(*final(k)), final(self)@, r, typing::check_kind(gas, ast::kind_v(*old(k)), span, env@, old(self)@)),
        decreases gas, *old(k), 2int,
    {
        match k {
            ExprKind::If { cond, then_branch, else_branch } => {
                match self.check_against(cond, &Type::Bool, env, Ghost(u), Ghost(gas)) {
                    Err(x) => Err(x),
                    Ok(_) => match self.check_expr(then_branch, env, Ghost(u), Ghost(gas)) {
                        Err(x) => Err(x),
                        Ok(t) => self.check_against(else_branch, &t, env, Ghost(u), Ghost(gas)),
                    },
                }
            },
            _ => Ok(Type::Unit),
        }
    }

    /// `let`: each binding has the type that it says.
    pub(crate) fn check_let(&mut self, k: &mut ExprKind, span: Span, env: &NameTable<Type>, Ghost(u): Ghost<Universe>, Ghost(gas): Ghost<nat>) -> (r: Result<Type, TypeError>)
        requires
            instances::ready(old(self)@, u, gas),
            instances::scope_known(u, env@),
            *old(k) is Let,
        ensures
            instances::ready(final(self)@, u, gas),
            r is Ok ==> typing::known(u, r->Ok_0@),
            typeck::gives(ast::kind_v(*final(k)), final(self)@, r, typing::check_kind(gas, ast::kind_v(*old(k)), span, env@, old(self)@)),
        decreases gas, *old(k), 2int,
    {
        match k {
            ExprKind::Let { bindings, body } => {
                let mut inner = env.copy();
                match self.check_binding_list(bindings, &mut inner, Ghost(u), Ghost(gas)) {
                    Err(x) => Err(x),
                    Ok(_) => self.check_expr(body, &inner, Ghost(u), Ghost(gas)),
                }
            },
            _ => Ok(Type::Unit),
        }
    }

    /// `while`
    pub(crate) fn check_while(&mut self, k: &mut ExprKind, span: Span, env: &NameTable<Type>, Ghost(u): Ghost<Universe>, Ghost(gas): Ghost<nat>) -> (r: Result<Type, TypeError>)
        requires
            instances::ready(old(self)@, u, gas),
            instances::scope_known(u, env@),
            *old(k) is While,
        ensures
            instances::ready(final(self)@, u, gas),
            r is Ok ==> typing::known(u, r->Ok_0@),
            typeck::gives(ast::kind_v(*final(k)), final(self)@, r, typing::check_kind(gas, ast::kind_v(*old(k)), span, env@, old(self)@)),
        decreases gas, *old(k), 2int,
    {
        match k {
            ExprKind::While { cond, body } => {
                match self.check_against(cond, &Type::Bool, env, Ghost(u), Ghost(gas)) {
                    Err(x) => Err(x),
                    Ok(_) => {
                        let was = self.in_loop;
                        let ghost s1 = self@;
                        self.in_loop = true;
                        proof {
                            instances::lemma_ready_frame(s1, self@, u, gas);
                        }
                        let r = self.check_expr(body, env, Ghost(u), Ghost(gas));
                        let ghost s2 = self@;
                        self.in_loop = was;
                        proof {
                            instances::lemma_ready_frame(s2, self@, u, gas);
                        }
                        match r {
                            Err(x) => Err(x),
                            Ok(_) => Ok(Type::Unit),
                        }
                    },
                }
            },
            _ => Ok(Type::Unit),
        }
    }

    /// `loop`
    pub(crate) fn check_loop_body(&mut self, k: &mut ExprKind, span: Span, env: &NameTable<Type>, Ghost(u): Ghost<Universe>, Ghost(gas): Ghost<nat>) -> (r: Result<Type, TypeError>)
        requires
            instances::ready(old(self)@, u, gas),
            instances::scope_known(u, env@),
            *old(k) is Loop,
        ensures
            instances::ready(final(self)@, u, gas),
            r is Ok ==> typing::known(u, r->Ok_0@),
            typeck::gives(ast::kind_v(*final(k)), final(self)@, r, typing::check_kind(gas, ast::kind_v(*old(k)), span, env@, old(self)@)),
        decreases gas, *old(k), 2int,
    {
        match k {
            ExprKind::Loop { body } => {
                let was = self.in_loop;
                self.in_loop = true;
                proof {
                    instances::lemma_ready_frame(old(self)@, self@, u, gas);
                }
                let r = self.check_expr(body, env, Ghost(u), Ghost(gas));
                let ghost s2 = self@;
                self.in_loop = was;
                proof {
                    instances::lemma_ready_frame(s2, self@, u, gas);
                }
                match r {
                    Err(x) => Err(x),
                    Ok(_) => Ok(Type::Unit),
                }
            },
            _ => Ok(Type::Unit),
        }
    }

    /// An array literal: all elements have the type that it says.
    pub(crate) fn check_array(&mut self, k: &mut ExprKind, span: Span, env: &NameTable<Type>, Ghost(u): Ghost<Universe>, Ghost(gas): Ghost<nat>) -> (r: Result<Type, TypeError>)
        requires
            instances::ready(old(self)@, u, gas),
            instances::scope_known(u, env@),
            *old(k) is ArrayLit,
        ensures
            instances::ready(final(self)@, u, gas),
            r is Ok ==> typing::known(u, r->Ok_0@),
            typeck::gives(ast::kind_v(*final(k)), final(self)@, r, typing::check_kind(gas, ast::kind_v(*old(k)), span, env@, old(self)@)),
        decreases gas, *old(k), 2int,
    {
        match k {
            ExprKind::ArrayLit { elem_ty, elems } => {
                if !elem_ty.is_array_elem_allowed() {
                    return Err(TypeError::BadArrayElem(elem_ty.dup(), span));
                }
                let wants = repeated(&*elem_ty, elems.len());
                let len: u32 = elems.len() as u32;
                proof {
                    assert(ast::exprs_v(elems@).subrange(0, 0) =~= Seq::empty());
                }
                match self.check_each(elems, 0, &wants, Ghost(elems@), env, Ghost(u), Ghost(gas)) {
                    Err(x) => Err(x),
                    Ok(_) => {
                        proof {
                            instances::lemma_ready_array(self@, u, gas, elem_ty@, len);
                        }
                        Ok(Type::Array { elem: Box::new(elem_ty.dup()), len })
                    },
                }
            },
            _ => Ok(Type::Unit),
        }
    }

    /// The type of a field of a value of type `bt`.
    pub(crate) fn check_field(&self, bt: Type, field: &String, span: Span, Ghost(u): Ghost<Universe>, Ghost(
        gas,
    ): Ghost<nat>) -> (r: Result<Type, TypeError>)
        requires
            instances::ready(self@, u, gas),
        ensures
            r is Ok ==> typing::known(u, r->Ok_0@),
            text::outcome(r) == typing::field_type(self@, bt@, field@, span),
    {
        if let Type::Named(n) = &bt {
            if let Some(d) = self.structs.get(n) {
                let mut i: usize = 0;
                while i < d.fields.len()
                    invariant
                        i <= d.fields@.len(),
                        instances::ready(self@, u, gas),
                        self@.structs.contains_key(n@),
                        self@.structs[n@] == d@,
                        bt@ == TypeV::Named(n@),
                        typing::find_field(d@.fields, field@, 0) == typing::find_field(d@.fields, field@, i as int),
                    decreases d.fields@.len() - i,
                {
                    assert(d@.fields[i as int] == d.fields@[i as int]@);
                    if same_text(d.fields[i].name.as_str(), field.as_str()) {
                        proof {
                            instances::lemma_ready_struct(self@, u, gas, n@);
                            assert(typing::known(u, self@.structs[n@].fields[i as int].ty));
                        }
                        return Ok(d.fields[i].ty.dup());
                    }
                    i = i + 1;
                }
                return Err(TypeError::UnknownField(field.clone(), bt, span));
            }
        }
        Err(TypeError::FieldOnNonStruct(bt, span))
    }

    /// The bindings of a `let`, which come into scope one after the other.
    pub(crate) fn check_binding_list(&mut self, bs: &mut Vec<Binding>, env: &mut NameTable<Type>, Ghost(
        u,
    ): Ghost<Universe>, Ghost(gas): Ghost<nat>) -> (r: Result<(), TypeError>)
        requires
            instances::ready(old(self)@, u, gas),
            instances::scope_known(u, old(env)@),
        ensures
            instances::ready(final(self)@, u, gas),
            instances::scope_known(u, final(env)@),
            typing::check_bindings(gas, ast::bindings_v(old(bs)@), 0, Seq::empty(), old(env)@, old(self)@) == (
            Checked {
                node: ast::bindings_v(final(bs)@),
                s: final(self)@,
                r: match r {
                    Ok(_) => Ok::<Env, TypeErrorV>(final(env)@),
                    Err(x) => Err::<Env, TypeErrorV>(x@),
                },
            }),
        decreases gas, *old(bs),
    {
        let ghost all = ast::bindings_v(bs@);
        let mut i: usize = 0;
        proof {
            assert(ast::bindings_v(bs@.subrange(0, 0)) =~= Seq::empty());
        }
        while i < bs.len()
            invariant
                i <= bs@.len(),
                bs@.len() == old(bs)@.len(),
                all == ast::bindings_v(old(bs)@),
                instances::ready(self@, u, gas),
                instances::scope_known(u, env@),
                forall|j: int| i <= j < bs@.len() ==> #[trigger] bs@[j] == old(bs)@[j],
                typing::check_bindings(gas, all, 0, Seq::empty(), old(env)@, old(self)@) == typing::check_bindings(
                    gas,
                    all,
                    i as int,
                    ast::bindings_v(bs@.subrange(0, i as int)),
                    env@,
                    self@,
                ),
            decreases bs@.len() - i,
        {
            let ghost before = bs@;
            assert(bs@[i as int] == old(bs)@[i as int]);
            if let Err(x) = self.resolve_type(&bs[i].ty, bs[i].span) {
                proof {
                    assert(ast::bindings_v(bs@) =~= typing::resumed(
                        ast::bindings_v(bs@.subrange(0, i as int)),
                        all,
                        i as int,
                    ));
                }
                return Err(x);
            }
            let ty = bs[i].ty.dup();
            let r = self.check_against(&mut bs[i].value, &ty, &*env, Ghost(u), Ghost(gas));
            proof {
                assert(ast::bindings_v(bs@.subrange(0, i + 1)) =~= ast::bindings_v(
                    before.subrange(0, i as int),
                ).push(ast::binding_v(bs@[i as int])));
            }
            if let Err(x) = r {
                proof {
                    assert(ast::bindings_v(bs@) =~= typing::resumed(
                        ast::bindings_v(bs@.subrange(0, i + 1)),
                        all,
                        i + 1,
                    ));
                }
                return Err(x);
            }
            env.put(bs[i].name.clone(), ty);
            i = i + 1;
        }
        proof {
            assert(bs@.subrange(0, i as int) =~= bs@);
        }
        Ok(())
    }

    /// The expressions of a `do`; the type is that of the last.
    pub(crate) fn check_sequence(&mut self, es: &mut Vec<Expr>, env: &NameTable<Type>, Ghost(u): Ghost<
        Universe,
    >, Ghost(gas): Ghost<nat>) -> (r: Result<Type, TypeError>)
        requires
            instances::ready(old(self)@, u, gas),
            instances::scope_known(u, env@),
        ensures
            instances::ready(final(self)@, u, gas),
            r is Ok ==> typing::known(u, r->Ok_0@),
            typeck::gives(
                ast::exprs_v(final(es)@),
                final(self)@,
                r,
                typing::check_do(gas, ast::exprs_v(old(es)@), 0, Seq::empty(), TypeV::Unit, env@, old(self)@),
            ),
        decreases gas, *old(es),
    {
        let ghost all = ast::exprs_v(es@);
        let mut last = Type::Unit;
        let mut i: usize = 0;
        proof {
            assert(ast::exprs_v(es@.subrange(0, 0)) =~= Seq::empty());
        }
        while i < es.len()
            invariant
                i <= es@.len(),
                es@.len() == old(es)@.len(),
                all == ast::exprs_v(old(es)@),
                instances::ready(self@, u, gas),
                instances::scope_known(u, env@),
                typing::known(u, last@),
                forall|j: int| i <= j < es@.len() ==> #[trigger] es@[j] == old(es)@[j],
                typing::check_do(gas, all, 0, Seq::empty(), TypeV::Unit, env@, old(self)@) == typing::check_do(
                    gas,
                    all,
                    i as int,
                    ast::exprs_v(es@.subrange(0, i as int)),
                    last@,
                    env@,
                    self@,
                ),
            decreases es@.len() - i,
        {
            let ghost before = es@;
            assert(es@[i as int] == old(es)@[i as int]);
            let r = self.check_expr(&mut es[i], env, Ghost(u), Ghost(gas));
            proof {
                assert(ast::exprs_v(es@.subrange(0, i + 1)) =~= ast::exprs_v(
                    before.subrange(0, i as int),
                ).push(ast::expr_v(es@[i as int])));
            }
            match r {
                Err(x) => {
                    proof {
                        assert(ast::exprs_v(es@) =~= typing::resumed(
                            ast::exprs_v(es@.subrange(0, i + 1)),
                            all,
                            i + 1,
                        ));
                    }
                    return Err(x);
                },
                Ok(t) => {
                    last = t;
                },
            }
            i = i + 1;
        }
        proof {
            assert(es@.subrange(0, i as int) =~= es@);
        }
        Ok(last)
    }

    /// Expressions from place `from` on, each against its type in `wants`. `orig`
    /// is what the list was before any of it was checked.
    pub(crate) fn check_each(&mut self, es: &mut Vec<Expr>, from: usize, wants: &Vec<Type>, Ghost(
        orig,
    ): Ghost<Seq<Expr>>, env: &NameTable<Type>, Ghost(u): Ghost<Universe>, Ghost(gas): Ghost<nat>) -> (r:
        Result<(), TypeError>)
        requires
            instances::ready(old(self)@, u, gas),
            instances::scope_known(u, env@),
            from <= old(es)@.len(),
            orig.len() == old(es)@.len(),
            wants.deep_view().len() >= orig.len(),
            forall|j: int| from <= j < orig.len() ==> #[trigger] old(es)@[j] == orig[j],
        ensures
            instances::ready(final(self)@, u, gas),
            final(es)@.len() == old(es)@.len(),
            typeck::gives(
                ast::exprs_v(final(es)@),
                final(self)@,
                r,
                typing::check_args(
                    gas,
                    ast::exprs_v(orig),
                    from as int,
                    ast::exprs_v(old(es)@).subrange(0, from as int),
                    wants.deep_view(),
                    env@,
                    old(self)@,
                ),
            ),
        decreases gas, orig, orig.len() - from,
    {
        let ghost all = ast::exprs_v(orig);
        let ghost start = ast::exprs_v(es@).subrange(0, from as int);
        let mut i: usize = from;
        proof {
            assert(ast::exprs_v(es@.subrange(0, from as int)) =~= start);
        }
        while i < es.len()
            invariant
                from <= i <= es@.len(),
                es@.len() == orig.len(),
                orig.len() == old(es)@.len(),
                start == ast::exprs_v(old(es)@).subrange(0, from as int),
                wants.deep_view().len() >= orig.len(),
                all == ast::exprs_v(orig),
                instances::ready(self@, u, gas),
                instances::scope_known(u, env@),
                forall|j: int| i <= j < es@.len() ==> #[trigger] es@[j] == orig[j],
                typing::check_args(gas, all, from as int, start, wants.deep_view(), env@, old(self)@)
                    == typing::check_args(
                    gas,
                    all,
                    i as int,
                    ast::exprs_v(es@.subrange(0, i as int)),
                    wants.deep_view(),
                    env@,
                    self@,
                ),
            decreases es@.len() - i,
        {
            let ghost before = es@;
            assert(es@[i as int] == orig[i as int]);
            assert(all[i as int] == ast::expr_v(orig[i as int]));
            assert(wants.deep_view()[i as int] == wants@[i as int]@);
            let r = self.check_against(&mut es[i], &wants[i], env, Ghost(u), Ghost(gas));
            proof {
                assert(ast::exprs_v(es@.subrange(0, i + 1)) =~= ast::exprs_v(
                    before.subrange(0, i as int),
                ).push(ast::expr_v(es@[i as int])));
            }
            if let Err(x) = r {
                proof {
                    assert(ast::exprs_v(es@) =~= typing::resumed(ast::exprs_v(es@.subrange(0, i + 1)), all, i + 1));
                }
                return Err(x);
            }
            i = i + 1;
        }
        proof {
            assert(es@.subrange(0, i as int) =~= es@);
        }
        Ok(())
    }

    /// What is wrong with the head of a match arm.
    pub(crate) fn check_arm_head(&self, arm: &MatchArm, enum_name: &String, seen: &NameTable<bool>) -> (r:
        Option<TypeError>)
        ensures
            r.deep_view() == typing::bad_arm(self@, ast::arm_v(*arm), enum_name@, seen@.dom()),
    {
        match self.variants.get(&arm.variant) {
            None => Some(TypeError::UnknownVariant(arm.variant.clone(), arm.span)),
            Some(info) => {
                if !same_text(info.enum_name.as_str(), enum_name.as_str()) {
                    Some(
                        TypeError::VariantWrongEnum(
                            arm.variant.clone(),
                            info.enum_name.clone(),
                            enum_name.clone(),
                            arm.span,
                        ),
                    )
                } else if seen.has(&arm.variant) {
                    Some(TypeError::MatchDuplicateArm(arm.variant.clone(), arm.span))
                } else if info.payload.is_none() && arm.binding.is_some() {
                    Some(TypeError::MatchUnitBinding(arm.variant.clone(), arm.span))
                } else if info.payload.is_some() && arm.binding.is_none() {
                    Some(TypeError::MatchMissingBinding(arm.variant.clone(), arm.span))
                } else {
                    None
                }
            },
        }
    }

    /// The scope of the body of a match arm.
    pub(crate) fn arm_env(&self, arm: &MatchArm, env: &NameTable<Type>, Ghost(u): Ghost<Universe>, Ghost(
        gas,
    ): Ghost<nat>) -> (r: NameTable<Type>)
        requires
            instances::ready(self@, u, gas),
            instances::scope_known(u, env@),
            self@.variants.contains_key(arm.variant@),
        ensures
            r@ == typing::arm_scope(self@, ast::arm_v(*arm), env@),
            instances::scope_known(u, r@),
    {
        let mut inner = env.copy();
        if let Some(info) = self.variants.get(&arm.variant) {
            if let (Some(t), Some(name)) = (&info.payload, &arm.binding) {
                proof {
                    instances::lemma_ready_variant(self@, u, gas, arm.variant@);
                }
                inner.put(name.clone(), t.dup());
            }
        }
        inner
    }

    /// The arms of a `match`: the variants that they cover, and their type.
    pub(crate) fn check_arm_list(&mut self, arms: &mut Vec<MatchArm>, enum_name: &String, env: &NameTable<Type>, Ghost(
        u,
    ): Ghost<Universe>, Ghost(gas): Ghost<nat>) -> (r: Result<
        (NameTable<bool>, Option<Type>),
        TypeError,
    >)
        requires
            instances::ready(old(self)@, u, gas),
            instances::scope_known(u, env@),
        ensures
            instances::ready(final(self)@, u, gas),
            r matches Ok((_, Some(t))) ==> typing::known(u, t@),
            typing::check_arms(
                gas,
                ast::arms_v(old(arms)@),
                0,
                Seq::empty(),
                enum_name@,
                Set::empty(),
                None,
                env@,
                old(self)@,
            ) == (Checked {
                node: ast::arms_v(final(arms)@),
                s: final(self)@,
                r: match r {
                    Ok((seen, ty)) => Ok::<(Set<Seq<char>>, Option<TypeV>), TypeErrorV>(
                        (seen@.dom(), ty.deep_view()),
                    ),
                    Err(x) => Err::<(Set<Seq<char>>, Option<TypeV>), TypeErrorV>(x@),
                },
            }),
        decreases gas, *old(arms),
    {
        let ghost all = ast::arms_v(arms@);
        let mut seen: NameTable<bool> = NameTable::new();
        let mut ty: Option<Type> = None;
        let mut i: usize = 0;
        proof {
            assert(ast::arms_v(arms@.subrange(0, 0)) =~= Seq::empty());
            assert(seen@.dom() =~= Set::empty());
        }
        while i < arms.len()
            invariant
                i <= arms@.len(),
                arms@.len() == old(arms)@.len(),
                all == ast::arms_v(old(arms)@),
                instances::ready(self@, u, gas),
                instances::scope_known(u, env@),
                ty is Some ==> typing::known(u, ty->0@),
                forall|j: int| i <= j < arms@.len() ==> #[trigger] arms@[j] == old(arms)@[j],
                typing::check_arms(
                    gas,
                    all,
                    0,
                    Seq::empty(),
                    enum_name@,
                    Set::empty(),
                    None,
                    env@,
                    old(self)@,
                ) == typing::check_arms(
                    gas,
                    all,
                    i as int,
                    ast::arms_v(arms@.subrange(0, i as int)),
                    enum_name@,
                    seen@.dom(),
                    ty.deep_view(),
                    env@,
                    self@,
                ),
            decreases arms@.len() - i,
        {
            let ghost before = arms@;
            assert(arms@[i as int] == old(arms)@[i as int]);
            if let Some(x) = self.check_arm_head(&arms[i], enum_name, &seen) {
                proof {
                    assert(ast::arms_v(arms@) =~= typing::resumed(
                        ast::arms_v(arms@.subrange(0, i as int)),
                        all,
                        i as int,
                    ));
                }
                return Err(x);
            }
            let inner = self.arm_env(&arms[i], env, Ghost(u), Ghost(gas));
            let span = arms[i].body.span;
            let r = self.check_expr(&mut arms[i].body, &inner, Ghost(u), Ghost(gas));
            proof {
                assert(ast::arms_v(arms@.subrange(0, i + 1)) =~= ast::arms_v(
                    before.subrange(0, i as int),
                ).push(ast::arm_v(arms@[i as int])));
                assert(ast::arms_v(arms@) =~= typing::resumed(ast::arms_v(arms@.subrange(0, i + 1)), all, i + 1));
            }
            match r {
                Err(x) => {
                    return Err(x);
                },
                Ok(bt) => {
                    if let Some(t) = &ty {
                        if let Err(x) = expect(t, &bt, span) {
                            return Err(x);
                        }
                    }
                    ty = Some(bt);
                },
            }
            let ghost seen_before = seen@;
            seen.put(arms[i].variant.clone(), true);
            proof {
                assert(seen@.dom() =~= seen_before.dom().insert(arms@[i as int].variant@));
            }
            i = i + 1;
        }
        proof {
            assert(arms@.subrange(0, i as int) =~= arms@);
        }
        Ok((seen, ty))
    }

    /// `match`: every variant of the enum has exactly one arm.
    pub(crate) fn check_match(&mut self, k: &mut ExprKind, span: Span, env: &NameTable<Type>, Ghost(u): Ghost<Universe>, Ghost(gas): Ghost<nat>) -> (r: Result<Type, TypeError>)
        requires
            instances::ready(old(self)@, u, gas),
            instances::scope_known(u, env@),
            *old(k) is Match,
        ensures
            instances::ready(final(self)@, u, gas),
            r is Ok ==> typing::known(u, r->Ok_0@),
            typeck::gives(ast::kind_v(*final(k)), final(self)@, r, typing::check_match(gas, ast::kind_v(*old(k)), span, env@, old(self)@)),
        decreases gas, *old(k), 2int,
    {
        match k {
            ExprKind::Match { scrutinee, arms } => {
                match self.check_expr(scrutinee, env, Ghost(u), Ghost(gas)) {
                    Err(x) => Err(x),
                    Ok(st) => {
                        let found = match &st {
                            Type::Named(n) => match self.enums.get(n) {
                                Some(d) => Some(d.dup()),
                                None => None,
                            },
                            _ => None,
                        };
                        match found {
                            None => Err(TypeError::MatchNonEnum(st, span)),
                            Some(d) => match self.check_arm_list(arms, &d.name, env, Ghost(u), Ghost(gas)) {
                                Err(x) => Err(x),
                                Ok((seen, ty)) => match missing_variant(&d.variants, &seen) {
                                    Some(v) => Err(TypeError::MatchNonExhaustive(v, span)),
                                    None => match ty {
                                        Some(t) => Ok(t),
                                        None => Ok(Type::Unit),
                                    },
                                },
                            },
                        }
                    },
                }
            },
            _ => Ok(Type::Unit),
        }
    }
}

/// The first variant that no arm covers.
fn missing_variant(variants: &Vec<VariantDef>, seen: &NameTable<bool>) -> (r: Option<String>)
    ensures
        r.deep_view() == typing::first_missing(variants.deep_view(), seen@.dom(), 0),
{
    let mut i: usize = 0;
    while i < variants.len()
        invariant
            i <= variants@.len(),
            typing::first_missing(variants.deep_view(), seen@.dom(), 0) == typing::first_missing(
                variants.deep_view(),
                seen@.dom(),
                i as int,
            ),
        decreases variants@.len() - i,
    {
        assert(variants.deep_view()[i as int] == variants@[i as int]@);
        if !seen.has(&variants[i].name) {
            return Some(variants[i].name.clone());
        }
        i = i + 1;
    }
    None
}

} // verus!
