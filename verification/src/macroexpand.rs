//! Macro expansion: calls of `defmacro` names are replaced by their templates.
use crate::ast::{
    Binding, BindingV, ConstV, Expr, ExprKind, ExprKindV, ExprV, Function, FunctionV,
    GenericFunctionV, ImplBlockV, MacroDef, MacroDefV, MatchArm, MatchArmV, Program, ProgramV,
    Span, TopLevel, TopLevelV,
};
use crate::ast;
use crate::table::NameTable;
use crate::text::{append_decimal, Dup, quote, same_text};
use crate::text;
use vstd::prelude::*;
use vstd::string::*;

verus! {

/// How deep expansions may nest.
pub const MAX_EXPAND_DEPTH: u32 = 64;

/// Why macros cannot be expanded.
#[derive(Debug)]
pub enum MacroError {
    Duplicate(String, Span),
    Arity { name: String, expected: usize, got: usize, span: Span },
    ExpansionLimit(u32, Span),
}

/// Model of [`MacroError`].
#[verifier::ext_equal]
pub enum MacroErrorV {
    Duplicate(Seq<char>, Span),
    Arity { name: Seq<char>, expected: usize, got: usize, span: Span },
    ExpansionLimit(u32, Span),
}

impl View for MacroError {
    type V = MacroErrorV;

    open spec fn view(&self) -> MacroErrorV {
        match *self {
            MacroError::Duplicate(a, b) => MacroErrorV::Duplicate(a.deep_view(), b),
            MacroError::Arity { name, expected, got, span } => MacroErrorV::Arity { name: name.deep_view(), expected, got, span },
            MacroError::ExpansionLimit(a, b) => MacroErrorV::ExpansionLimit(a, b),
        }
    }
}

impl DeepView for MacroError {
    type V = MacroErrorV;

    open spec fn deep_view(&self) -> MacroErrorV {
        self@
    }
}

impl Dup for MacroError {
    fn dup(&self) -> (r: Self) {
        match self {
            MacroError::Duplicate(a, b) => MacroError::Duplicate(a.dup(), *b),
            MacroError::Arity { name, expected, got, span } => MacroError::Arity { name: name.dup(), expected: *expected, got: *got, span: *span },
            MacroError::ExpansionLimit(a, b) => MacroError::ExpansionLimit(*a, *b),
        }
    }
}

impl Clone for MacroError {
    fn clone(&self) -> (r: Self)
        ensures
            r@ == self@,
    {
        self.dup()
    }
}

/// The message of a macro error.
pub open spec fn macro_error_text(e: MacroErrorV) -> Seq<char> {
    match e {
        MacroErrorV::Duplicate(name, _) => "duplicate macro definition "@ + text::quoted(name),
        MacroErrorV::Arity { name, expected, got, .. } => "macro arity mismatch for "@ + text::quoted(name)
            + ": expected "@ + text::dec(expected as nat) + ", got "@ + text::dec(got as nat),
        MacroErrorV::ExpansionLimit(n, _) => "macro expansion exceeded "@ + text::dec(n as nat)
            + " iterations (possible recursive macro)"@,
    }
}

/// The place that a macro error points at.
pub open spec fn macro_error_span(e: MacroErrorV) -> Span {
    match e {
        MacroErrorV::Duplicate(_, span) => span,
        MacroErrorV::Arity { span, .. } => span,
        MacroErrorV::ExpansionLimit(_, span) => span,
    }
}

impl MacroError {
    /// The place that the error points at.
    pub fn span(&self) -> (r: Option<Span>)
        ensures
            r == Some(macro_error_span(self@)),
    {
        match self {
            MacroError::Duplicate(_, span) => Some(*span),
            MacroError::Arity { span, .. } => Some(*span),
            MacroError::ExpansionLimit(_, span) => Some(*span),
        }
    }

    /// The error as a message.
    pub fn to_text(&self) -> (r: String)
        ensures
            r@ == macro_error_text(self@),
    {
        match self {
            MacroError::Duplicate(name, _) => {
                let mut s = String::from_str("duplicate macro definition ");
                s.append(quote(name.as_str()).as_str());
                s
            },
            MacroError::Arity { name, expected, got, .. } => {
                let mut s = String::from_str("macro arity mismatch for ");
                s.append(quote(name.as_str()).as_str());
                s.append(": expected ");
                append_decimal(&mut s, *expected as u64);
                s.append(", got ");
                append_decimal(&mut s, *got as u64);
                s
            },
            MacroError::ExpansionLimit(n, _) => {
                let mut s = String::from_str("macro expansion exceeded ");
                append_decimal(&mut s, *n as u64);
                s.append(" iterations (possible recursive macro)");
                s
            },
        }
    }
}

/// The argument of the last of the first `n` parameters that is called `name`.
pub open spec fn argument(
    params: Seq<Seq<char>>,
    args: Seq<ExprV>,
    name: Seq<char>,
    n: int,
) -> Option<ExprV>
    decreases n,
{
    if n <= 0 {
        None
    } else if params[n - 1] == name {
        Some(args[n - 1])
    } else {
        argument(params, args, name, n - 1)
    }
}

pub open spec fn argument_of(params: Seq<Seq<char>>, args: Seq<ExprV>, name: Seq<char>) -> Option<
    ExprV,
> {
    argument(params, args, name, if params.len() <= args.len() { params.len() } else { args.len() } as int)
}

/// `e` with the arguments in place of the names of the parameters.
pub open spec fn substituted(e: ExprV, params: Seq<Seq<char>>, args: Seq<ExprV>) -> ExprV
    decreases e,
{
    match e.kind {
        ExprKindV::Var(name) => match argument_of(params, args, name) {
            Some(a) => a,
            None => ExprV { kind: e.kind, span: e.span, ty: None },
        },
        _ => ExprV { kind: substituted_kind(e.kind, params, args), span: e.span, ty: None },
    }
}

pub open spec fn substituted_kind(k: ExprKindV, params: Seq<Seq<char>>, args: Seq<ExprV>) -> ExprKindV
    decreases k,
{
    match k {
        ExprKindV::Lit(_) => k,
        ExprKindV::Var(_) => k,
        ExprKindV::Break => k,
        ExprKindV::If { cond, then_branch, else_branch } => ExprKindV::If {
            cond: Box::new(substituted(*cond, params, args)),
            then_branch: Box::new(substituted(*then_branch, params, args)),
            else_branch: Box::new(substituted(*else_branch, params, args)),
        },
        ExprKindV::Let { bindings, body } => ExprKindV::Let {
            bindings: substituted_bindings(bindings, params, args),
            body: Box::new(substituted(*body, params, args)),
        },
        ExprKindV::Do(es) => ExprKindV::Do(substituted_all(es, params, args)),
        ExprKindV::Cast { ty, expr } => ExprKindV::Cast {
            ty,
            expr: Box::new(substituted(*expr, params, args)),
        },
        ExprKindV::Assign { name, value } => ExprKindV::Assign {
            name,
            value: Box::new(substituted(*value, params, args)),
        },
        ExprKindV::While { cond, body } => ExprKindV::While {
            cond: Box::new(substituted(*cond, params, args)),
            body: Box::new(substituted(*body, params, args)),
        },
        ExprKindV::Loop { body } => ExprKindV::Loop {
            body: Box::new(substituted(*body, params, args)),
        },
        ExprKindV::ArrayLit { elem_ty, elems } => ExprKindV::ArrayLit {
            elem_ty,
            elems: substituted_all(elems, params, args),
        },
        ExprKindV::Field { base, field } => ExprKindV::Field {
            base: Box::new(substituted(*base, params, args)),
            field,
        },
        ExprKindV::Match { scrutinee, arms } => ExprKindV::Match {
            scrutinee: Box::new(substituted(*scrutinee, params, args)),
            arms: substituted_arms(arms, params, args),
        },
        ExprKindV::Call { callee, args: es } => ExprKindV::Call {
            callee,
            args: substituted_all(es, params, args),
        },
    }
}

pub open spec fn substituted_all(es: Seq<ExprV>, params: Seq<Seq<char>>, args: Seq<ExprV>) -> Seq<ExprV>
    decreases es,
{
    Seq::new(
        es.len(),
        |i: int|
            if 0 <= i < es.len() {
                substituted(es[i], params, args)
            } else {
                arbitrary()
            },
    )
}

pub open spec fn substituted_bindings(
    bs: Seq<BindingV>,
    params: Seq<Seq<char>>,
    args: Seq<ExprV>,
) -> Seq<BindingV>
    decreases bs,
{
    Seq::new(
        bs.len(),
        |i: int|
            if 0 <= i < bs.len() {
                BindingV { value: substituted(bs[i].value, params, args), ..bs[i] }
            } else {
                arbitrary()
            },
    )
}

pub open spec fn substituted_arms(
    arms: Seq<MatchArmV>,
    params: Seq<Seq<char>>,
    args: Seq<ExprV>,
) -> Seq<MatchArmV>
    decreases arms,
{
    Seq::new(
        arms.len(),
        |i: int|
            if 0 <= i < arms.len() {
                MatchArmV { body: substituted(arms[i].body, params, args), ..arms[i] }
            } else {
                arbitrary()
            },
    )
}

fn find_argument<'a>(params: &Vec<String>, args: &'a Vec<Expr>, name: &String) -> (r: Option<&'a Expr>)
    ensures
        match r {
            Some(a) => argument_of(params.deep_view(), ast::exprs_v(args@), name@) == Some(a@),
            None => argument_of(params.deep_view(), ast::exprs_v(args@), name@) is None,
        },
{
    let mut n: usize = if params.len() <= args.len() {
        params.len()
    } else {
        args.len()
    };
    while n > 0
        invariant
            n <= params@.len(),
            n <= args@.len(),
            argument_of(params.deep_view(), ast::exprs_v(args@), name@) == argument(
                params.deep_view(),
                ast::exprs_v(args@),
                name@,
                n as int,
            ),
        decreases n,
    {
        n = n - 1;
        assert(params.deep_view()[n as int] == params@[n as int]@);
        if same_text(params[n].as_str(), name.as_str()) {
            return Some(&args[n]);
        }
    }
    None
}

/// A copy of `template` with the arguments in place of the names of the parameters.
fn substitute(template: &Expr, params: &Vec<String>, args: &Vec<Expr>) -> (r: Expr)
    ensures
        r@ == substituted(template@, params.deep_view(), ast::exprs_v(args@)),
    decreases template,
{
    let kind = match &template.kind {
        ExprKind::Lit(l) => ExprKind::Lit(l.dup()),
        ExprKind::Var(name) => {
            if let Some(a) = find_argument(params, args, name) {
                return a.dup();
            }
            ExprKind::Var(name.clone())
        },
        ExprKind::Break => ExprKind::Break,
        ExprKind::If { cond, then_branch, else_branch } => ExprKind::If {
            cond: Box::new(substitute(cond, params, args)),
            then_branch: Box::new(substitute(then_branch, params, args)),
            else_branch: Box::new(substitute(else_branch, params, args)),
        },
        ExprKind::Let { bindings, body } => ExprKind::Let {
            bindings: substitute_bindings(bindings, params, args),
            body: Box::new(substitute(body, params, args)),
        },
        ExprKind::Do(es) => ExprKind::Do(substitute_all(es, params, args)),
        ExprKind::Cast { ty, expr } => ExprKind::Cast {
            ty: ty.dup(),
            expr: Box::new(substitute(expr, params, args)),
        },
        ExprKind::Assign { name, value } => ExprKind::Assign {
            name: name.clone(),
            value: Box::new(substitute(value, params, args)),
        },
        ExprKind::While { cond, body } => ExprKind::While {
            cond: Box::new(substitute(cond, params, args)),
            body: Box::new(substitute(body, params, args)),
        },
        ExprKind::Loop { body } => ExprKind::Loop {
            body: Box::new(substitute(body, params, args)),
        },
        ExprKind::ArrayLit { elem_ty, elems } => ExprKind::ArrayLit {
            elem_ty: elem_ty.dup(),
            elems: substitute_all(elems, params, args),
        },
        ExprKind::Field { base, field } => ExprKind::Field {
            base: Box::new(substitute(base, params, args)),
            field: field.clone(),
        },
        ExprKind::Match { scrutinee, arms } => ExprKind::Match {
            scrutinee: Box::new(substitute(scrutinee, params, args)),
            arms: substitute_arms(arms, params, args),
        },
        ExprKind::Call { callee, args: es } => ExprKind::Call {
            callee: callee.clone(),
            args: substitute_all(es, params, args),
        },
    };
    Expr { kind, span: template.span, ty: None }
}

fn substitute_all(es: &Vec<Expr>, params: &Vec<String>, args: &Vec<Expr>) -> (r: Vec<Expr>)
    ensures
        ast::exprs_v(r@) == substituted_all(ast::exprs_v(es@), params.deep_view(), ast::exprs_v(args@)),
    decreases es,
{
    let mut out: Vec<Expr> = Vec::new();
    let mut i: usize = 0;
    while i < es.len()
        invariant
            i <= es@.len(),
            out@.len() == i,
            forall|j: int|
                0 <= j < i ==> ast::expr_v(#[trigger] out@[j]) == substituted(
                    ast::expr_v(es@[j]),
                    params.deep_view(),
                    ast::exprs_v(args@),
                ),
        decreases es@.len() - i,
    {
        out.push(substitute(&es[i], params, args));
        i = i + 1;
    }
    assert(ast::exprs_v(out@) =~= substituted_all(ast::exprs_v(es@), params.deep_view(), ast::exprs_v(args@)));
    out
}

fn substitute_bindings(xs: &Vec<Binding>, params: &Vec<String>, args: &Vec<Expr>) -> (r: Vec<Binding>)
    ensures
        ast::bindings_v(r@) == substituted_bindings(ast::bindings_v(xs@), params.deep_view(), ast::exprs_v(args@)),
    decreases xs,
{
    let mut out: Vec<Binding> = Vec::new();
    let mut i: usize = 0;
    while i < xs.len()
        invariant
            i <= xs@.len(),
            out@.len() == i,
            forall|j: int|
                0 <= j < i ==> ast::binding_v(#[trigger] out@[j]) == substituted_bindings(
                    ast::bindings_v(xs@),
                    params.deep_view(),
                    ast::exprs_v(args@),
                )[j],
        decreases xs@.len() - i,
    {
        let x = &xs[i];
        out.push(
            Binding {
                name: x.name.clone(),
                ty: x.ty.dup(),
                value: substitute(&x.value, params, args),
                span: x.span,
            },
        );
        i = i + 1;
    }
    assert(ast::bindings_v(out@) =~= substituted_bindings(ast::bindings_v(xs@), params.deep_view(), ast::exprs_v(args@)));
    out
}

fn substitute_arms(xs: &Vec<MatchArm>, params: &Vec<String>, args: &Vec<Expr>) -> (r: Vec<MatchArm>)
    ensures
        ast::arms_v(r@) == substituted_arms(ast::arms_v(xs@), params.deep_view(), ast::exprs_v(args@)),
    decreases xs,
{
    let mut out: Vec<MatchArm> = Vec::new();
    let mut i: usize = 0;
    while i < xs.len()
        invariant
            i <= xs@.len(),
            out@.len() == i,
            forall|j: int|
                0 <= j < i ==> ast::arm_v(#[trigger] out@[j]) == substituted_arms(
                    ast::arms_v(xs@),
                    params.deep_view(),
                    ast::exprs_v(args@),
                )[j],
        decreases xs@.len() - i,
    {
        let x = &xs[i];
        out.push(
            MatchArm {
                variant: x.variant.clone(),
                binding: x.binding.dup(),
                body: substitute(&x.body, params, args),
                span: x.span,
            },
        );
        i = i + 1;
    }
    assert(ast::arms_v(out@) =~= substituted_arms(ast::arms_v(xs@), params.deep_view(), ast::exprs_v(args@)));
    out
}

/// The macros of a program, by name.
pub type Macros = Map<Seq<char>, MacroDefV>;

/// What expansion leaves in place of something, and the error that stopped it.
pub type ExpandedV<T> = (T, Option<MacroErrorV>);

/// How many more expansions may nest.
pub open spec fn depth_left(depth: u32) -> nat {
    if depth < MAX_EXPAND_DEPTH {
        (MAX_EXPAND_DEPTH - depth) as nat
    } else {
        0
    }
}

/// Whether `e` is a call of a macro.
pub open spec fn is_macro_call(e: ExprV, macros: Macros) -> bool {
    e.kind matches ExprKindV::Call { callee, .. } && macros.contains_key(callee)
}

/// `e` with its macro calls expanded. A call is replaced by the template of the
/// macro, with the arguments in place of the parameters, and what results is
/// expanded in turn. Expansion stops at the first error.
pub open spec fn expanded(e: ExprV, macros: Macros, depth: u32) -> ExpandedV<ExprV>
    decreases depth_left(depth), e,
{
    if is_macro_call(e, macros) {
        let callee = e.kind->callee;
        let args = e.kind->args;
        let m = macros[callee];
        if args.len() != m.params.len() {
            (
                e,
                Some(
                    MacroErrorV::Arity {
                        name: callee,
                        expected: m.params.len() as usize,
                        got: args.len() as usize,
                        span: e.span,
                    },
                ),
            )
        } else if depth >= MAX_EXPAND_DEPTH {
            (e, Some(MacroErrorV::ExpansionLimit(MAX_EXPAND_DEPTH, e.span)))
        } else {
            let s = substituted(m.template, m.params, args);
            expanded(ExprV { kind: s.kind, span: e.span, ty: s.ty }, macros, (depth + 1) as u32)
        }
    } else {
        let (kind, err) = expanded_kind(e.kind, macros, depth);
        (ExprV { kind, span: e.span, ty: e.ty }, err)
    }
}

/// The parts of a form, expanded from left to right.
pub open spec fn expanded_kind(k: ExprKindV, macros: Macros, depth: u32) -> ExpandedV<ExprKindV>
    decreases depth_left(depth), k,
{
    match k {
        ExprKindV::Lit(_) => (k, None),
        ExprKindV::Var(_) => (k, None),
        ExprKindV::Break => (k, None),
        ExprKindV::If { cond, then_branch, else_branch } => {
            let (c, e1) = expanded(*cond, macros, depth);
            let (a, e2) = if e1 is Some { (*then_branch, e1) } else { expanded(*then_branch, macros, depth) };
            let (b, e3) = if e2 is Some { (*else_branch, e2) } else { expanded(*else_branch, macros, depth) };
            (
                ExprKindV::If {
                    cond: Box::new(c),
                    then_branch: Box::new(a),
                    else_branch: Box::new(b),
                },
                e3,
            )
        },
        ExprKindV::Let { bindings, body } => {
            let (bs, e1) = expanded_bindings(bindings, 0, Seq::empty(), macros, depth);
            let (b, e2) = if e1 is Some { (*body, e1) } else { expanded(*body, macros, depth) };
            (ExprKindV::Let { bindings: bs, body: Box::new(b) }, e2)
        },
        ExprKindV::Do(es) => {
            let (rs, err) = expanded_all(es, 0, Seq::empty(), macros, depth);
            (ExprKindV::Do(rs), err)
        },
        ExprKindV::Cast { ty, expr } => {
            let (r, err) = expanded(*expr, macros, depth);
            (ExprKindV::Cast { ty, expr: Box::new(r) }, err)
        },
        ExprKindV::Assign { name, value } => {
            let (r, err) = expanded(*value, macros, depth);
            (ExprKindV::Assign { name, value: Box::new(r) }, err)
        },
        ExprKindV::While { cond, body } => {
            let (c, e1) = expanded(*cond, macros, depth);
            let (b, e2) = if e1 is Some { (*body, e1) } else { expanded(*body, macros, depth) };
            (ExprKindV::While { cond: Box::new(c), body: Box::new(b) }, e2)
        },
        ExprKindV::Loop { body } => {
            let (r, err) = expanded(*body, macros, depth);
            (ExprKindV::Loop { body: Box::new(r) }, err)
        },
        ExprKindV::ArrayLit { elem_ty, elems } => {
            let (rs, err) = expanded_all(elems, 0, Seq::empty(), macros, depth);
            (ExprKindV::ArrayLit { elem_ty, elems: rs }, err)
        },
        ExprKindV::Field { base, field } => {
            let (r, err) = expanded(*base, macros, depth);
            (ExprKindV::Field { base: Box::new(r), field }, err)
        },
        ExprKindV::Match { scrutinee, arms } => {
            let (s, e1) = expanded(*scrutinee, macros, depth);
            let (rs, e2) = if e1 is Some { (arms, e1) } else { expanded_arms(arms, 0, Seq::empty(), macros, depth) };
            (ExprKindV::Match { scrutinee: Box::new(s), arms: rs }, e2)
        },
        ExprKindV::Call { callee, args } => {
            let (rs, err) = expanded_all(args, 0, Seq::empty(), macros, depth);
            (ExprKindV::Call { callee, args: rs }, err)
        },
    }
}

/// Expressions from place `i` on, expanded behind those in `acc`. Behind an error the
/// rest stays as it is.
pub open spec fn expanded_all(xs: Seq<ExprV>, i: int, acc: Seq<ExprV>, macros: Macros, depth: u32) -> ExpandedV<
    Seq<ExprV>,
>
    decreases depth_left(depth), xs, xs.len() - i,
{
    if i < 0 || i >= xs.len() {
        (acc, None)
    } else {
        let (r, err) = expanded(xs[i], macros, depth);
        let done = acc.push(r);
        if err is Some {
            (done + xs.subrange(i + 1, xs.len() as int), err)
        } else {
            expanded_all(xs, i + 1, done, macros, depth)
        }
    }
}

/// Bindings from place `i` on, expanded behind those in `acc`. Behind an error the
/// rest stays as it is.
pub open spec fn expanded_bindings(xs: Seq<BindingV>, i: int, acc: Seq<BindingV>, macros: Macros, depth: u32) -> ExpandedV<
    Seq<BindingV>,
>
    decreases depth_left(depth), xs, xs.len() - i,
{
    if i < 0 || i >= xs.len() {
        (acc, None)
    } else {
        let (r, err) = expanded(xs[i].value, macros, depth);
        let done = acc.push(BindingV { value: r, ..xs[i] });
        if err is Some {
            (done + xs.subrange(i + 1, xs.len() as int), err)
        } else {
            expanded_bindings(xs, i + 1, done, macros, depth)
        }
    }
}

/// Match arms from place `i` on, expanded behind those in `acc`. Behind an error the
/// rest stays as it is.
pub open spec fn expanded_arms(xs: Seq<MatchArmV>, i: int, acc: Seq<MatchArmV>, macros: Macros, depth: u32) -> ExpandedV<
    Seq<MatchArmV>,
>
    decreases depth_left(depth), xs, xs.len() - i,
{
    if i < 0 || i >= xs.len() {
        (acc, None)
    } else {
        let (r, err) = expanded(xs[i].body, macros, depth);
        let done = acc.push(MatchArmV { body: r, ..xs[i] });
        if err is Some {
            (done + xs.subrange(i + 1, xs.len() as int), err)
        } else {
            expanded_arms(xs, i + 1, done, macros, depth)
        }
    }
}

/// The error of a result.
pub open spec fn error_of(r: Result<(), MacroError>) -> Option<MacroErrorV> {
    match r {
        Ok(_) => None,
        Err(e) => Some(e@),
    }
}

/// What a macro call is replaced by; `None` for any other expression.
fn expand_call(expr: &Expr, macros: &NameTable<MacroDef>, depth: u32) -> (r: Result<
    Option<Expr>,
    MacroError,
>)
    ensures
        match r {
            Err(e) => expanded(expr@, macros@, depth) == (expr@, Some(e@)),
            Ok(None) => !is_macro_call(expr@, macros@),
            Ok(Some(x)) => is_macro_call(expr@, macros@) && depth < MAX_EXPAND_DEPTH && expanded(
                expr@,
                macros@,
                depth,
            ) == expanded(x@, macros@, (depth + 1) as u32),
        },
{
    match &expr.kind {
        ExprKind::Call { callee, args } => match macros.get(callee) {
            Some(mac) => {
                assert(mac@.params.len() == mac.params@.len());
                if args.len() != mac.params.len() {
                    Err(
                        MacroError::Arity {
                            name: callee.clone(),
                            expected: mac.params.len(),
                            got: args.len(),
                            span: expr.span,
                        },
                    )
                } else if depth >= MAX_EXPAND_DEPTH {
                    Err(MacroError::ExpansionLimit(MAX_EXPAND_DEPTH, expr.span))
                } else {
                    let e = substitute(&mac.template, &mac.params, args);
                    Ok(Some(Expr { kind: e.kind, span: expr.span, ty: e.ty }))
                }
            },
            None => Ok(None),
        },
        _ => Ok(None),
    }
}

/// Expands the macro calls of an expression in place.
fn expand_expr(expr: &mut Expr, macros: &NameTable<MacroDef>, depth: u32) -> (r: Result<(), MacroError>)
    ensures
        (ast::expr_v(*final(expr)), error_of(r)) == expanded(ast::expr_v(*old(expr)), macros@, depth),
    decreases depth_left(depth), *old(expr),
{
    proof {
        reveal_with_fuel(expanded, 2);
        reveal_with_fuel(ast::expr_v, 2);
    }
    match expand_call(&*expr, macros, depth) {
        Err(e) => Err(e),
        Ok(Some(x)) => {
            *expr = x;
            expand_expr(expr, macros, depth + 1)
        },
        Ok(None) => match &mut expr.kind {
            ExprKind::Lit(_) => Ok(()),
            ExprKind::Var(_) => Ok(()),
            ExprKind::Break => Ok(()),
            ExprKind::If { cond, then_branch, else_branch } => {
                let mut r = expand_expr(cond, macros, depth);
                if r.is_ok() {
                    r = expand_expr(then_branch, macros, depth);
                }
                if r.is_ok() {
                    r = expand_expr(else_branch, macros, depth);
                }
                r
            },
            ExprKind::Let { bindings, body } => {
                let mut r = expand_bindings(bindings, macros, depth);
                if r.is_ok() {
                    r = expand_expr(body, macros, depth);
                }
                r
            },
            ExprKind::Do(es) => expand_all(es, macros, depth),
            ExprKind::Cast { expr: inner, .. } => expand_expr(inner, macros, depth),
            ExprKind::Assign { value, .. } => expand_expr(value, macros, depth),
            ExprKind::While { cond, body } => {
                let mut r = expand_expr(cond, macros, depth);
                if r.is_ok() {
                    r = expand_expr(body, macros, depth);
                }
                r
            },
            ExprKind::Loop { body } => expand_expr(body, macros, depth),
            ExprKind::ArrayLit { elems, .. } => expand_all(elems, macros, depth),
            ExprKind::Field { base, .. } => expand_expr(base, macros, depth),
            ExprKind::Match { scrutinee, arms } => {
                let mut r = expand_expr(scrutinee, macros, depth);
                if r.is_ok() {
                    r = expand_arms(arms, macros, depth);
                }
                r
            },
            ExprKind::Call { args, .. } => expand_all(args, macros, depth),
        },
    }
}

fn expand_all(xs: &mut Vec<Expr>, macros: &NameTable<MacroDef>, depth: u32) -> (r: Result<(), MacroError>)
    ensures
        (ast::exprs_v(final(xs)@), error_of(r)) == expanded_all(ast::exprs_v(old(xs)@), 0, Seq::empty(), macros@, depth),
    decreases depth_left(depth), *old(xs),
{
    let ghost all = ast::exprs_v(xs@);
    let mut i: usize = 0;
    proof {
        assert(ast::exprs_v(xs@.subrange(0, 0)) =~= Seq::empty());
    }
    while i < xs.len()
        invariant
            i <= xs@.len(),
            xs@.len() == old(xs)@.len(),
            all == ast::exprs_v(old(xs)@),
            forall|j: int| i <= j < xs@.len() ==> #[trigger] xs@[j] == old(xs)@[j],
            expanded_all(all, 0, Seq::empty(), macros@, depth) == expanded_all(
                all,
                i as int,
                ast::exprs_v(xs@.subrange(0, i as int)),
                macros@,
                depth,
            ),
        decreases xs@.len() - i,
    {
        let ghost before = xs@;
        assert(xs@[i as int] == old(xs)@[i as int]);
        let r = expand_expr(&mut xs[i], macros, depth);
        proof {
            assert(ast::exprs_v(xs@.subrange(0, i + 1)) =~= ast::exprs_v(before.subrange(0, i as int)).push(
                ast::expr_v(xs@[i as int]),
            ));
        }
        if r.is_err() {
            proof {
                assert(ast::exprs_v(xs@) =~= ast::exprs_v(xs@.subrange(0, i + 1)) + all.subrange(
                    i + 1,
                    all.len() as int,
                ));
            }
            return r;
        }
        i = i + 1;
    }
    proof {
        assert(xs@.subrange(0, i as int) =~= xs@);
    }
    Ok(())
}

fn expand_bindings(xs: &mut Vec<Binding>, macros: &NameTable<MacroDef>, depth: u32) -> (r: Result<(), MacroError>)
    ensures
        (ast::bindings_v(final(xs)@), error_of(r)) == expanded_bindings(ast::bindings_v(old(xs)@), 0, Seq::empty(), macros@, depth),
    decreases depth_left(depth), *old(xs),
{
    let ghost all = ast::bindings_v(xs@);
    let mut i: usize = 0;
    proof {
        assert(ast::bindings_v(xs@.subrange(0, 0)) =~= Seq::empty());
    }
    while i < xs.len()
        invariant
            i <= xs@.len(),
            xs@.len() == old(xs)@.len(),
            all == ast::bindings_v(old(xs)@),
            forall|j: int| i <= j < xs@.len() ==> #[trigger] xs@[j] == old(xs)@[j],
            expanded_bindings(all, 0, Seq::empty(), macros@, depth) == expanded_bindings(
                all,
                i as int,
                ast::bindings_v(xs@.subrange(0, i as int)),
                macros@,
                depth,
            ),
        decreases xs@.len() - i,
    {
        let ghost before = xs@;
        assert(xs@[i as int] == old(xs)@[i as int]);
        let r = expand_expr(&mut xs[i].value, macros, depth);
        proof {
            assert(ast::bindings_v(xs@.subrange(0, i + 1)) =~= ast::bindings_v(before.subrange(0, i as int)).push(
                ast::binding_v(xs@[i as int]),
            ));
        }
        if r.is_err() {
            proof {
                assert(ast::bindings_v(xs@) =~= ast::bindings_v(xs@.subrange(0, i + 1)) + all.subrange(
                    i + 1,
                    all.len() as int,
                ));
            }
            return r;
        }
        i = i + 1;
    }
    proof {
        assert(xs@.subrange(0, i as int) =~= xs@);
    }
    Ok(())
}

fn expand_arms(xs: &mut Vec<MatchArm>, macros: &NameTable<MacroDef>, depth: u32) -> (r: Result<(), MacroError>)
    ensures
        (ast::arms_v(final(xs)@), error_of(r)) == expanded_arms(ast::arms_v(old(xs)@), 0, Seq::empty(), macros@, depth),
    decreases depth_left(depth), *old(xs),
{
    let ghost all = ast::arms_v(xs@);
    let mut i: usize = 0;
    proof {
        assert(ast::arms_v(xs@.subrange(0, 0)) =~= Seq::empty());
    }
    while i < xs.len()
        invariant
            i <= xs@.len(),
            xs@.len() == old(xs)@.len(),
            all == ast::arms_v(old(xs)@),
            forall|j: int| i <= j < xs@.len() ==> #[trigger] xs@[j] == old(xs)@[j],
            expanded_arms(all, 0, Seq::empty(), macros@, depth) == expanded_arms(
                all,
                i as int,
                ast::arms_v(xs@.subrange(0, i as int)),
                macros@,
                depth,
            ),
        decreases xs@.len() - i,
    {
        let ghost before = xs@;
        assert(xs@[i as int] == old(xs)@[i as int]);
        let r = expand_expr(&mut xs[i].body, macros, depth);
        proof {
            assert(ast::arms_v(xs@.subrange(0, i + 1)) =~= ast::arms_v(before.subrange(0, i as int)).push(
                ast::arm_v(xs@[i as int]),
            ));
        }
        if r.is_err() {
            proof {
                assert(ast::arms_v(xs@) =~= ast::arms_v(xs@.subrange(0, i + 1)) + all.subrange(
                    i + 1,
                    all.len() as int,
                ));
            }
            return r;
        }
        i = i + 1;
    }
    proof {
        assert(xs@.subrange(0, i as int) =~= xs@);
    }
    Ok(())
}

/// The macros among the items from place `i` on, and the other items, behind those
/// that were found before. No name may be defined twice.
pub open spec fn split_items(
    items: Seq<TopLevelV>,
    i: int,
    macros: Macros,
    kept: Seq<TopLevelV>,
) -> Result<(Macros, Seq<TopLevelV>), MacroErrorV>
    decreases items.len() - i,
{
    if i < 0 || i >= items.len() {
        Ok((macros, kept))
    } else {
        match items[i] {
            TopLevelV::DefMacro(m) => if macros.contains_key(m.name) {
                Err(MacroErrorV::Duplicate(m.name, m.span))
            } else {
                split_items(items, i + 1, macros.insert(m.name, m), kept)
            },
            _ => split_items(items, i + 1, macros, kept.push(items[i])),
        }
    }
}

/// Methods from place `i` on, expanded behind those in `acc`.
pub open spec fn expanded_methods(
    xs: Seq<FunctionV>,
    i: int,
    acc: Seq<FunctionV>,
    macros: Macros,
) -> ExpandedV<Seq<FunctionV>>
    decreases xs.len() - i,
{
    if i < 0 || i >= xs.len() {
        (acc, None)
    } else {
        let (r, err) = expanded(xs[i].body, macros, 0);
        let done = acc.push(FunctionV { body: r, ..xs[i] });
        if err is Some {
            (done + xs.subrange(i + 1, xs.len() as int), err)
        } else {
            expanded_methods(xs, i + 1, done, macros)
        }
    }
}

/// An item with its macro calls expanded.
pub open spec fn expanded_item(it: TopLevelV, macros: Macros) -> ExpandedV<TopLevelV> {
    match it {
        TopLevelV::Function(f) => {
            let (r, err) = expanded(f.body, macros, 0);
            (TopLevelV::Function(FunctionV { body: r, ..f }), err)
        },
        TopLevelV::GenericFunction(g) => {
            let (r, err) = expanded(g.body, macros, 0);
            (TopLevelV::GenericFunction(GenericFunctionV { body: r, ..g }), err)
        },
        TopLevelV::Const(c) => {
            let (r, err) = expanded(c.value, macros, 0);
            (TopLevelV::Const(ConstV { value: r, ..c }), err)
        },
        TopLevelV::Impl(ib) => {
            let (ms, err) = expanded_methods(ib.methods, 0, Seq::empty(), macros);
            (TopLevelV::Impl(ImplBlockV { methods: ms, ..ib }), err)
        },
        _ => (it, None),
    }
}

/// Items from place `i` on, expanded behind those in `acc`.
pub open spec fn expanded_items(
    xs: Seq<TopLevelV>,
    i: int,
    acc: Seq<TopLevelV>,
    macros: Macros,
) -> ExpandedV<Seq<TopLevelV>>
    decreases xs.len() - i,
{
    if i < 0 || i >= xs.len() {
        (acc, None)
    } else {
        let (r, err) = expanded_item(xs[i], macros);
        let done = acc.push(r);
        if err is Some {
            (done + xs.subrange(i + 1, xs.len() as int), err)
        } else {
            expanded_items(xs, i + 1, done, macros)
        }
    }
}

/// What expansion makes of a program. If a macro is defined twice nothing is left.
pub open spec fn expanded_program(p: ProgramV) -> ExpandedV<ProgramV> {
    match split_items(p.items, 0, Map::empty(), Seq::empty()) {
        Err(e) => (ProgramV { items: Seq::empty() }, Some(e)),
        Ok((macros, kept)) => {
            let (items, err) = expanded_items(kept, 0, Seq::empty(), macros);
            (ProgramV { items }, err)
        },
    }
}

fn expand_methods(xs: &mut Vec<Function>, macros: &NameTable<MacroDef>) -> (r: Result<(), MacroError>)
    ensures
        (final(xs).deep_view(), error_of(r)) == expanded_methods(old(xs).deep_view(), 0, Seq::empty(), macros@),
{
    let ghost all = xs.deep_view();
    let mut i: usize = 0;
    proof {
        assert(xs.deep_view().subrange(0, 0) =~= Seq::empty());
    }
    while i < xs.len()
        invariant
            i <= xs@.len(),
            xs@.len() == old(xs)@.len(),
            all == old(xs).deep_view(),
            forall|j: int| i <= j < xs@.len() ==> #[trigger] xs@[j] == old(xs)@[j],
            expanded_methods(all, 0, Seq::empty(), macros@) == expanded_methods(
                all,
                i as int,
                xs.deep_view().subrange(0, i as int),
                macros@,
            ),
        decreases xs@.len() - i,
    {
        let ghost before = xs.deep_view();
        assert(xs@[i as int] == old(xs)@[i as int]);
        let r = expand_expr(&mut xs[i].body, macros, 0);
        proof {
            assert(xs.deep_view().subrange(0, i + 1) =~= before.subrange(0, i as int).push(
                xs@[i as int]@,
            ));
        }
        if r.is_err() {
            proof {
                assert(xs.deep_view() =~= xs.deep_view().subrange(0, i + 1) + all.subrange(
                    i + 1,
                    all.len() as int,
                ));
            }
            return r;
        }
        i = i + 1;
    }
    proof {
        assert(xs.deep_view().subrange(0, i as int) =~= xs.deep_view());
    }
    Ok(())
}

/// Expands the macro calls of an item in place.
fn expand_item(it: &mut TopLevel, macros: &NameTable<MacroDef>) -> (r: Result<(), MacroError>)
    ensures
        (final(it)@, error_of(r)) == expanded_item(old(it)@, macros@),
{
    match it {
        TopLevel::Function(f) => expand_expr(&mut f.body, macros, 0),
        TopLevel::GenericFunction(g) => expand_expr(&mut g.body, macros, 0),
        TopLevel::Const(c) => expand_expr(&mut c.value, macros, 0),
        TopLevel::Impl(ib) => expand_methods(&mut ib.methods, macros),
        TopLevel::Struct(_) => Ok(()),
        TopLevel::Enum(_) => Ok(()),
        TopLevel::Extern(_) => Ok(()),
        TopLevel::Trait(_) => Ok(()),
        TopLevel::DefMacro(_) => Ok(()),
        TopLevel::Module { .. } => Ok(()),
        TopLevel::Import { .. } => Ok(()),
    }
}

fn expand_items(xs: &mut Vec<TopLevel>, macros: &NameTable<MacroDef>) -> (r: Result<(), MacroError>)
    ensures
        (final(xs).deep_view(), error_of(r)) == expanded_items(old(xs).deep_view(), 0, Seq::empty(), macros@),
{
    let ghost all = xs.deep_view();
    let mut i: usize = 0;
    proof {
        assert(xs.deep_view().subrange(0, 0) =~= Seq::empty());
    }
    while i < xs.len()
        invariant
            i <= xs@.len(),
            xs@.len() == old(xs)@.len(),
            all == old(xs).deep_view(),
            forall|j: int| i <= j < xs@.len() ==> #[trigger] xs@[j] == old(xs)@[j],
            expanded_items(all, 0, Seq::empty(), macros@) == expanded_items(
                all,
                i as int,
                xs.deep_view().subrange(0, i as int),
                macros@,
            ),
        decreases xs@.len() - i,
    {
        let ghost before = xs.deep_view();
        assert(xs@[i as int] == old(xs)@[i as int]);
        let r = expand_item(&mut xs[i], macros);
        proof {
            assert(xs.deep_view().subrange(0, i + 1) =~= before.subrange(0, i as int).push(
                xs@[i as int]@,
            ));
        }
        if r.is_err() {
            proof {
                assert(xs.deep_view() =~= xs.deep_view().subrange(0, i + 1) + all.subrange(
                    i + 1,
                    all.len() as int,
                ));
            }
            return r;
        }
        i = i + 1;
    }
    proof {
        assert(xs.deep_view().subrange(0, i as int) =~= xs.deep_view());
    }
    Ok(())
}

/// Expands all macros of a program in place and takes their definitions out.
pub fn expand(prog: &mut Program) -> (r: Result<(), MacroError>)
    ensures
        (final(prog)@, error_of(r)) == expanded_program(old(prog)@),
{
    let mut macros: NameTable<MacroDef> = NameTable::new();
    let ghost all = prog@.items;
    let ghost mut done: int = 0;
    let mut i: usize = 0;
    proof {
        assert(prog@.items.subrange(0, 0) =~= Seq::empty());
        assert(all.subrange(0, all.len() as int) =~= all);
        assert(prog@.items.subrange(0, prog@.items.len() as int) =~= prog@.items);
    }
    while i < prog.items.len()
        invariant
            i <= prog.items@.len(),
            all == old(prog)@.items,
            0 <= done <= all.len(),
            prog.items@.len() - i == all.len() - done,
            prog@.items.subrange(i as int, prog.items@.len() as int) == all.subrange(
                done,
                all.len() as int,
            ),
            split_items(all, 0, Map::empty(), Seq::empty()) == split_items(
                all,
                done,
                macros@,
                prog@.items.subrange(0, i as int),
            ),
        decreases prog.items@.len() - i,
    {
        let ghost before = prog@.items;
        proof {
            assert(before.subrange(i as int, before.len() as int)[0] == all.subrange(
                done,
                all.len() as int,
            )[0]);
            assert(before[i as int] == prog.items@[i as int]@);
        }
        if matches!(prog.items[i], TopLevel::DefMacro(_)) {
            let it = prog.items.remove(i);
            proof {
                assert(prog@.items =~= before.remove(i as int));
                assert(prog@.items.subrange(0, i as int) =~= before.subrange(0, i as int));
                assert forall|j: int| 0 <= j < all.len() - done - 1 implies #[trigger] prog@.items.subrange(
                    i as int,
                    prog.items@.len() as int,
                )[j] == all.subrange(done + 1, all.len() as int)[j] by {
                    assert(before.subrange(i as int, before.len() as int)[j + 1] == all.subrange(
                        done,
                        all.len() as int,
                    )[j + 1]);
                }
                assert(prog@.items.subrange(i as int, prog.items@.len() as int) =~= all.subrange(
                    done + 1,
                    all.len() as int,
                ));
            }
            if let TopLevel::DefMacro(m) = it {
                if macros.has(&m.name) {
                    prog.items.clear();
                    assert(prog@.items =~= Seq::empty());
                    return Err(MacroError::Duplicate(m.name, m.span));
                }
                macros.put(m.name.clone(), m);
            }
        } else {
            i = i + 1;
            proof {
                assert(prog@.items.subrange(0, i as int) =~= before.subrange(0, i - 1).push(
                    before[i - 1],
                ));
                assert forall|j: int| 0 <= j < all.len() - done - 1 implies #[trigger] prog@.items.subrange(
                    i as int,
                    prog.items@.len() as int,
                )[j] == all.subrange(done + 1, all.len() as int)[j] by {
                    assert(before.subrange(i - 1, before.len() as int)[j + 1] == all.subrange(
                        done,
                        all.len() as int,
                    )[j + 1]);
                }
                assert(prog@.items.subrange(i as int, prog.items@.len() as int) =~= all.subrange(
                    done + 1,
                    all.len() as int,
                ));
            }
        }
        proof {
            done = done + 1;
        }
    }
    proof {
        assert(prog@.items.subrange(0, i as int) =~= prog@.items);
    }
    expand_items(&mut prog.items, &macros)
}

/// Whether no call of one of the macros occurs in `e`.
pub open spec fn macro_free(e: ExprV, macros: Macros) -> bool
    decreases e,
{
    !is_macro_call(e, macros) && match e.kind {
        ExprKindV::Lit(_) => true,
        ExprKindV::Var(_) => true,
        ExprKindV::Break => true,
        ExprKindV::If { cond, then_branch, else_branch } => macro_free(*cond, macros) && macro_free(
            *then_branch,
            macros,
        ) && macro_free(*else_branch, macros),
        ExprKindV::Let { bindings, body } => macro_free(*body, macros) && forall|i: int|
            0 <= i < bindings.len() ==> macro_free((#[trigger] bindings[i]).value, macros),
        ExprKindV::Do(es) => forall|i: int|
            0 <= i < es.len() ==> macro_free(#[trigger] es[i], macros),
        ExprKindV::Cast { expr, .. } => macro_free(*expr, macros),
        ExprKindV::Assign { value, .. } => macro_free(*value, macros),
        ExprKindV::While { cond, body } => macro_free(*cond, macros) && macro_free(*body, macros),
        ExprKindV::Loop { body } => macro_free(*body, macros),
        ExprKindV::ArrayLit { elems, .. } => forall|i: int|
            0 <= i < elems.len() ==> macro_free(#[trigger] elems[i], macros),
        ExprKindV::Field { base, .. } => macro_free(*base, macros),
        ExprKindV::Match { scrutinee, arms } => macro_free(*scrutinee, macros) && forall|i: int|
            0 <= i < arms.len() ==> macro_free((#[trigger] arms[i]).body, macros),
        ExprKindV::Call { args, .. } => forall|i: int|
            0 <= i < args.len() ==> macro_free(#[trigger] args[i], macros),
    }
}

/// Where expansion of an expression succeeds, no macro call is left in it.
pub proof fn law_expanded_is_macro_free(e: ExprV, macros: Macros, depth: u32)
    ensures
        expanded(e, macros, depth).1 is None ==> macro_free(expanded(e, macros, depth).0, macros),
    decreases depth_left(depth), e,
{
    reveal_with_fuel(expanded, 2);
    if is_macro_call(e, macros) {
        let m = macros[e.kind->callee];
        if e.kind->args.len() == m.params.len() && depth < MAX_EXPAND_DEPTH {
            let s = substituted(m.template, m.params, e.kind->args);
            law_expanded_is_macro_free(
                ExprV { kind: s.kind, span: e.span, ty: s.ty },
                macros,
                (depth + 1) as u32,
            );
        }
    } else {
        match e.kind {
            ExprKindV::Lit(_) => {},
            ExprKindV::Var(_) => {},
            ExprKindV::Break => {},
            ExprKindV::If { cond, then_branch, else_branch } => {
                law_expanded_is_macro_free(*cond, macros, depth);
                law_expanded_is_macro_free(*then_branch, macros, depth);
                law_expanded_is_macro_free(*else_branch, macros, depth);
            },
            ExprKindV::Let { bindings, body } => {
                lemma_bindings_free(bindings, 0, Seq::empty(), macros, depth);
                law_expanded_is_macro_free(*body, macros, depth);
            },
            ExprKindV::Do(es) => lemma_all_free(es, 0, Seq::empty(), macros, depth),
            ExprKindV::Cast { expr, .. } => law_expanded_is_macro_free(*expr, macros, depth),
            ExprKindV::Assign { value, .. } => law_expanded_is_macro_free(*value, macros, depth),
            ExprKindV::While { cond, body } => {
                law_expanded_is_macro_free(*cond, macros, depth);
                law_expanded_is_macro_free(*body, macros, depth);
            },
            ExprKindV::Loop { body } => law_expanded_is_macro_free(*body, macros, depth),
            ExprKindV::ArrayLit { elems, .. } => lemma_all_free(elems, 0, Seq::empty(), macros, depth),
            ExprKindV::Field { base, .. } => law_expanded_is_macro_free(*base, macros, depth),
            ExprKindV::Match { scrutinee, arms } => {
                law_expanded_is_macro_free(*scrutinee, macros, depth);
                lemma_arms_free(arms, 0, Seq::empty(), macros, depth);
            },
            ExprKindV::Call { args, .. } => lemma_all_free(args, 0, Seq::empty(), macros, depth),
        }
    }
}

proof fn lemma_all_free(xs: Seq<ExprV>, i: int, acc: Seq<ExprV>, macros: Macros, depth: u32)
    requires
        0 <= i,
        forall|j: int| 0 <= j < acc.len() ==> macro_free(#[trigger] acc[j], macros),
    ensures
        expanded_all(xs, i, acc, macros, depth).1 is None ==> forall|j: int|
            0 <= j < expanded_all(xs, i, acc, macros, depth).0.len() ==> macro_free(
                #[trigger] expanded_all(xs, i, acc, macros, depth).0[j],
                macros,
            ),
    decreases depth_left(depth), xs, xs.len() - i,
{
    if i < xs.len() {
        law_expanded_is_macro_free(xs[i], macros, depth);
        let (r, err) = expanded(xs[i], macros, depth);
        if err is None {
            lemma_all_free(xs, i + 1, acc.push(r), macros, depth);
        }
    }
}

proof fn lemma_bindings_free(xs: Seq<BindingV>, i: int, acc: Seq<BindingV>, macros: Macros, depth: u32)
    requires
        0 <= i,
        forall|j: int| 0 <= j < acc.len() ==> macro_free((#[trigger] acc[j]).value, macros),
    ensures
        expanded_bindings(xs, i, acc, macros, depth).1 is None ==> forall|j: int|
            0 <= j < expanded_bindings(xs, i, acc, macros, depth).0.len() ==> macro_free(
                (#[trigger] expanded_bindings(xs, i, acc, macros, depth).0[j]).value,
                macros,
            ),
    decreases depth_left(depth), xs, xs.len() - i,
{
    if i < xs.len() {
        law_expanded_is_macro_free(xs[i].value, macros, depth);
        let (r, err) = expanded(xs[i].value, macros, depth);
        if err is None {
            lemma_bindings_free(xs, i + 1, acc.push(BindingV { value: r, ..xs[i] }), macros, depth);
        }
    }
}

proof fn lemma_arms_free(xs: Seq<MatchArmV>, i: int, acc: Seq<MatchArmV>, macros: Macros, depth: u32)
    requires
        0 <= i,
        forall|j: int| 0 <= j < acc.len() ==> macro_free((#[trigger] acc[j]).body, macros),
    ensures
        expanded_arms(xs, i, acc, macros, depth).1 is None ==> forall|j: int|
            0 <= j < expanded_arms(xs, i, acc, macros, depth).0.len() ==> macro_free(
                (#[trigger] expanded_arms(xs, i, acc, macros, depth).0[j]).body,
                macros,
            ),
    decreases depth_left(depth), xs, xs.len() - i,
{
    if i < xs.len() {
        law_expanded_is_macro_free(xs[i].body, macros, depth);
        let (r, err) = expanded(xs[i].body, macros, depth);
        if err is None {
            lemma_arms_free(xs, i + 1, acc.push(MatchArmV { body: r, ..xs[i] }), macros, depth);
        }
    }
}

/// Where a name is no macro, expansion leaves an expression as it is.
pub proof fn law_macro_free_unchanged(e: ExprV, macros: Macros, depth: u32)
    requires
        macro_free(e, macros),
    ensures
        expanded(e, macros, depth) == (e, None::<MacroErrorV>),
    decreases e,
{
    reveal_with_fuel(expanded, 2);
    match e.kind {
        ExprKindV::Lit(_) => {},
        ExprKindV::Var(_) => {},
        ExprKindV::Break => {},
        ExprKindV::If { cond, then_branch, else_branch } => {
            law_macro_free_unchanged(*cond, macros, depth);
            law_macro_free_unchanged(*then_branch, macros, depth);
            law_macro_free_unchanged(*else_branch, macros, depth);
        },
        ExprKindV::Let { bindings, body } => {
            lemma_bindings_same(bindings, 0, macros, depth);
            assert(bindings.subrange(0, 0) =~= Seq::empty());
            law_macro_free_unchanged(*body, macros, depth);
        },
        ExprKindV::Do(es) => {
            lemma_all_same(es, 0, macros, depth);
            assert(es.subrange(0, 0) =~= Seq::empty());
        },
        ExprKindV::Cast { expr, .. } => law_macro_free_unchanged(*expr, macros, depth),
        ExprKindV::Assign { value, .. } => law_macro_free_unchanged(*value, macros, depth),
        ExprKindV::While { cond, body } => {
            law_macro_free_unchanged(*cond, macros, depth);
            law_macro_free_unchanged(*body, macros, depth);
        },
        ExprKindV::Loop { body } => law_macro_free_unchanged(*body, macros, depth),
        ExprKindV::ArrayLit { elems, .. } => {
            lemma_all_same(elems, 0, macros, depth);
            assert(elems.subrange(0, 0) =~= Seq::empty());
        },
        ExprKindV::Field { base, .. } => law_macro_free_unchanged(*base, macros, depth),
        ExprKindV::Match { scrutinee, arms } => {
            law_macro_free_unchanged(*scrutinee, macros, depth);
            lemma_arms_same(arms, 0, macros, depth);
            assert(arms.subrange(0, 0) =~= Seq::empty());
        },
        ExprKindV::Call { args, .. } => {
            lemma_all_same(args, 0, macros, depth);
            assert(args.subrange(0, 0) =~= Seq::empty());
        },
    }
}

proof fn lemma_all_same(xs: Seq<ExprV>, i: int, macros: Macros, depth: u32)
    requires
        0 <= i <= xs.len(),
        forall|j: int| 0 <= j < xs.len() ==> macro_free(#[trigger] xs[j], macros),
    ensures
        expanded_all(xs, i, xs.subrange(0, i), macros, depth) == (xs, None::<MacroErrorV>),
    decreases xs, xs.len() - i,
{
    if i < xs.len() {
        law_macro_free_unchanged(xs[i], macros, depth);
        lemma_all_same(xs, i + 1, macros, depth);
        assert(xs.subrange(0, i).push(xs[i]) =~= xs.subrange(0, i + 1));
    } else {
        assert(xs.subrange(0, i) =~= xs);
    }
}

proof fn lemma_bindings_same(xs: Seq<BindingV>, i: int, macros: Macros, depth: u32)
    requires
        0 <= i <= xs.len(),
        forall|j: int| 0 <= j < xs.len() ==> macro_free((#[trigger] xs[j]).value, macros),
    ensures
        expanded_bindings(xs, i, xs.subrange(0, i), macros, depth) == (xs, None::<MacroErrorV>),
    decreases xs, xs.len() - i,
{
    if i < xs.len() {
        law_macro_free_unchanged(xs[i].value, macros, depth);
        lemma_bindings_same(xs, i + 1, macros, depth);
        assert(xs.subrange(0, i).push(xs[i]) =~= xs.subrange(0, i + 1));
    } else {
        assert(xs.subrange(0, i) =~= xs);
    }
}

proof fn lemma_arms_same(xs: Seq<MatchArmV>, i: int, macros: Macros, depth: u32)
    requires
        0 <= i <= xs.len(),
        forall|j: int| 0 <= j < xs.len() ==> macro_free((#[trigger] xs[j]).body, macros),
    ensures
        expanded_arms(xs, i, xs.subrange(0, i), macros, depth) == (xs, None::<MacroErrorV>),
    decreases xs, xs.len() - i,
{
    if i < xs.len() {
        law_macro_free_unchanged(xs[i].body, macros, depth);
        lemma_arms_same(xs, i + 1, macros, depth);
        assert(xs.subrange(0, i).push(xs[i]) =~= xs.subrange(0, i + 1));
    } else {
        assert(xs.subrange(0, i) =~= xs);
    }
}

/// Whether an item defines a macro.
pub open spec fn defines_macro(it: TopLevelV) -> bool {
    it is DefMacro
}

/// After a successful expansion no macro definition is left in the program.
pub proof fn law_no_macro_definitions_left(p: ProgramV)
    ensures
        expanded_program(p).1 is None ==> forall|j: int|
            0 <= j < expanded_program(p).0.items.len() ==> !defines_macro(
                #[trigger] expanded_program(p).0.items[j],
            ),
{
    lemma_split_keeps_others(p.items, 0, Map::empty(), Seq::empty());
    if let Ok((macros, kept)) = split_items(p.items, 0, Map::empty(), Seq::empty()) {
        lemma_items_keep_kind(kept, 0, Seq::empty(), macros);
    }
}

proof fn lemma_split_keeps_others(items: Seq<TopLevelV>, i: int, macros: Macros, kept: Seq<TopLevelV>)
    requires
        0 <= i,
        forall|j: int| 0 <= j < kept.len() ==> !defines_macro(#[trigger] kept[j]),
    ensures
        split_items(items, i, macros, kept) matches Ok((_, k)) ==> forall|j: int|
            0 <= j < k.len() ==> !defines_macro(#[trigger] k[j]),
    decreases items.len() - i,
{
    if i < items.len() {
        match items[i] {
            TopLevelV::DefMacro(m) => if !macros.contains_key(m.name) {
                lemma_split_keeps_others(items, i + 1, macros.insert(m.name, m), kept);
            },
            _ => lemma_split_keeps_others(items, i + 1, macros, kept.push(items[i])),
        }
    }
}

proof fn lemma_items_keep_kind(xs: Seq<TopLevelV>, i: int, acc: Seq<TopLevelV>, macros: Macros)
    requires
        0 <= i,
        forall|j: int| 0 <= j < xs.len() ==> !defines_macro(#[trigger] xs[j]),
        forall|j: int| 0 <= j < acc.len() ==> !defines_macro(#[trigger] acc[j]),
    ensures
        forall|j: int|
            0 <= j < expanded_items(xs, i, acc, macros).0.len() ==> !defines_macro(
                #[trigger] expanded_items(xs, i, acc, macros).0[j],
            ),
    decreases xs.len() - i,
{
    if i < xs.len() {
        assert(!defines_macro(xs[i]));
        let (r, err) = expanded_item(xs[i], macros);
        if err is None {
            lemma_items_keep_kind(xs, i + 1, acc.push(r), macros);
            assert(expanded_items(xs, i, acc, macros) == expanded_items(
                xs,
                i + 1,
                acc.push(r),
                macros,
            ));
        } else {
            let rest = xs.subrange(i + 1, xs.len() as int);
            let done = acc.push(r);
            assert(expanded_items(xs, i, acc, macros).0 == done + rest);
            assert forall|j: int| 0 <= j < (done + rest).len() implies !defines_macro(
                #[trigger] (done + rest)[j],
            ) by {
                if j < acc.len() {
                    assert((done + rest)[j] == acc[j]);
                } else if j == acc.len() {
                    assert((done + rest)[j] == r);
                } else {
                    assert((done + rest)[j] == xs[i + 1 + (j - done.len())]);
                }
            }
        }
    }
}

/// The items from place `i` on that define no macro, in order.
pub open spec fn other_items(items: Seq<TopLevelV>, i: int) -> Seq<TopLevelV>
    decreases items.len() - i,
{
    if i < 0 || i >= items.len() {
        Seq::empty()
    } else if defines_macro(items[i]) {
        other_items(items, i + 1)
    } else {
        seq![items[i]] + other_items(items, i + 1)
    }
}

/// The macros that the items from place `i` on define, added to `macros`.
pub open spec fn macros_of(items: Seq<TopLevelV>, i: int, macros: Macros) -> Macros
    decreases items.len() - i,
{
    if i < 0 || i >= items.len() {
        macros
    } else {
        match items[i] {
            TopLevelV::DefMacro(m) => macros_of(items, i + 1, macros.insert(m.name, m)),
            _ => macros_of(items, i + 1, macros),
        }
    }
}

/// Whether no macro call is left in the bodies of an item.
pub open spec fn macro_free_item(it: TopLevelV, macros: Macros) -> bool {
    match it {
        TopLevelV::Function(f) => macro_free(f.body, macros),
        TopLevelV::GenericFunction(g) => macro_free(g.body, macros),
        TopLevelV::Const(c) => macro_free(c.value, macros),
        TopLevelV::Impl(ib) => forall|i: int|
            0 <= i < ib.methods.len() ==> macro_free((#[trigger] ib.methods[i]).body, macros),
        _ => true,
    }
}

proof fn lemma_split(items: Seq<TopLevelV>, i: int, macros: Macros, kept: Seq<TopLevelV>)
    requires
        0 <= i,
    ensures
        split_items(items, i, macros, kept) matches Ok((m, k)) ==> m == macros_of(items, i, macros)
            && k == kept + other_items(items, i),
    decreases items.len() - i,
{
    if i < items.len() {
        match items[i] {
            TopLevelV::DefMacro(m) => {
                lemma_split(items, i + 1, macros.insert(m.name, m), kept);
            },
            _ => {
                lemma_split(items, i + 1, macros, kept.push(items[i]));
                assert(kept.push(items[i]) + other_items(items, i + 1) =~= kept + other_items(
                    items,
                    i,
                ));
            },
        }
    } else {
        assert(kept + other_items(items, i) =~= kept);
    }
}

proof fn lemma_methods_free(xs: Seq<FunctionV>, i: int, acc: Seq<FunctionV>, macros: Macros)
    requires
        0 <= i,
        forall|j: int| 0 <= j < acc.len() ==> macro_free((#[trigger] acc[j]).body, macros),
    ensures
        ({
            let (r, err) = expanded_methods(xs, i, acc, macros);
            err is None ==> forall|j: int|
                0 <= j < r.len() ==> macro_free((#[trigger] r[j]).body, macros)
        }),
    decreases xs.len() - i,
{
    if i < xs.len() {
        law_expanded_is_macro_free(xs[i].body, macros, 0);
        let (r, err) = expanded(xs[i].body, macros, 0);
        if err is None {
            lemma_methods_free(xs, i + 1, acc.push(FunctionV { body: r, ..xs[i] }), macros);
        }
    }
}

proof fn lemma_item_free(it: TopLevelV, macros: Macros)
    ensures
        expanded_item(it, macros).1 is None ==> macro_free_item(expanded_item(it, macros).0, macros),
{
    match it {
        TopLevelV::Function(f) => law_expanded_is_macro_free(f.body, macros, 0),
        TopLevelV::GenericFunction(g) => law_expanded_is_macro_free(g.body, macros, 0),
        TopLevelV::Const(c) => law_expanded_is_macro_free(c.value, macros, 0),
        TopLevelV::Impl(ib) => lemma_methods_free(ib.methods, 0, Seq::empty(), macros),
        _ => {},
    }
}

/// Whether `done` are the first items of `xs`, expanded.
pub open spec fn expanded_from(xs: Seq<TopLevelV>, done: Seq<TopLevelV>, macros: Macros) -> bool {
    &&& done.len() <= xs.len()
    &&& forall|j: int|
        0 <= j < done.len() ==> (#[trigger] done[j]) == expanded_item(xs[j], macros).0
            && expanded_item(xs[j], macros).1 is None && macro_free_item(done[j], macros)
}

proof fn lemma_items_expanded(xs: Seq<TopLevelV>, i: int, acc: Seq<TopLevelV>, macros: Macros)
    requires
        0 <= i <= xs.len(),
        acc.len() == i,
        expanded_from(xs, acc, macros),
    ensures
        ({
            let (r, err) = expanded_items(xs, i, acc, macros);
            err is None ==> r.len() == xs.len() && expanded_from(xs, r, macros)
        }),
    decreases xs.len() - i,
{
    if i < xs.len() {
        lemma_item_free(xs[i], macros);
        let (r, err) = expanded_item(xs[i], macros);
        if err is None {
            lemma_items_expanded(xs, i + 1, acc.push(r), macros);
        }
    }
}

/// A program that is expanded has its items but the macro definitions, in the same order,
/// each with its bodies expanded, and no call of a macro of the program is left in any
/// body.
pub proof fn law_program_is_expanded(p: ProgramV)
    ensures
        expanded_program(p).1 is None ==> {
            let macros = macros_of(p.items, 0, Map::empty());
            let kept = other_items(p.items, 0);
            let items = expanded_program(p).0.items;
            &&& items.len() == kept.len()
            &&& forall|j: int|
                0 <= j < items.len() ==> (#[trigger] items[j]) == expanded_item(kept[j], macros).0
                    && macro_free_item(items[j], macros)
        },
{
    lemma_split(p.items, 0, Map::empty(), Seq::empty());
    if let Ok((macros, kept)) = split_items(p.items, 0, Map::empty(), Seq::empty()) {
        assert(kept =~= other_items(p.items, 0));
        lemma_items_expanded(kept, 0, Seq::empty(), macros);
    }
}

/// Every macro that a program defines is among its macros.
pub proof fn law_macros_are_known(items: Seq<TopLevelV>, i: int)
    requires
        0 <= i < items.len(),
        defines_macro(items[i]),
    ensures
        macros_of(items, 0, Map::empty()).contains_key(items[i]->DefMacro_0.name),
{
    lemma_macro_reached(items, 0, Map::empty(), i);
}

proof fn lemma_macro_reached(items: Seq<TopLevelV>, i: int, macros: Macros, k: int)
    requires
        0 <= i <= k < items.len(),
        defines_macro(items[k]),
    ensures
        macros_of(items, i, macros).contains_key(items[k]->DefMacro_0.name),
    decreases items.len() - i,
{
    if i < k {
        match items[i] {
            TopLevelV::DefMacro(m) => lemma_macro_reached(
                items,
                i + 1,
                macros.insert(m.name, m),
                k,
            ),
            _ => lemma_macro_reached(items, i + 1, macros, k),
        }
    } else {
        let m = items[k]->DefMacro_0;
        lemma_macros_stay(items, i + 1, macros.insert(m.name, m), m.name);
    }
}

proof fn lemma_macros_stay(items: Seq<TopLevelV>, i: int, macros: Macros, n: Seq<char>)
    requires
        0 <= i,
        macros.contains_key(n),
    ensures
        macros_of(items, i, macros).contains_key(n),
    decreases items.len() - i,
{
    if i < items.len() {
        match items[i] {
            TopLevelV::DefMacro(m) => lemma_macros_stay(items, i + 1, macros.insert(m.name, m), n),
            _ => lemma_macros_stay(items, i + 1, macros, n),
        }
    }
}

/// Without macros nothing is a macro call.
proof fn lemma_nothing_to_expand(e: ExprV)
    ensures
        macro_free(e, Map::empty()),
    decreases e,
{
    match e.kind {
        ExprKindV::If { cond, then_branch, else_branch } => {
            lemma_nothing_to_expand(*cond);
            lemma_nothing_to_expand(*then_branch);
            lemma_nothing_to_expand(*else_branch);
        },
        ExprKindV::Let { bindings, body } => {
            assert forall|i: int| 0 <= i < bindings.len() implies macro_free(
                (#[trigger] bindings[i]).value,
                Map::empty(),
            ) by {
                lemma_nothing_to_expand(bindings[i].value);
            }
            lemma_nothing_to_expand(*body);
        },
        ExprKindV::Do(es) => {
            assert forall|i: int| 0 <= i < es.len() implies macro_free(#[trigger] es[i], Map::empty()) by {
                lemma_nothing_to_expand(es[i]);
            }
        },
        ExprKindV::Cast { ty, expr } => lemma_nothing_to_expand(*expr),
        ExprKindV::Assign { name, value } => lemma_nothing_to_expand(*value),
        ExprKindV::While { cond, body } => {
            lemma_nothing_to_expand(*cond);
            lemma_nothing_to_expand(*body);
        },
        ExprKindV::Loop { body } => lemma_nothing_to_expand(*body),
        ExprKindV::ArrayLit { elem_ty, elems } => {
            assert forall|i: int| 0 <= i < elems.len() implies macro_free(
                #[trigger] elems[i],
                Map::empty(),
            ) by {
                lemma_nothing_to_expand(elems[i]);
            }
        },
        ExprKindV::Field { base, field } => lemma_nothing_to_expand(*base),
        ExprKindV::Match { scrutinee, arms } => {
            lemma_nothing_to_expand(*scrutinee);
            assert forall|i: int| 0 <= i < arms.len() implies macro_free(
                (#[trigger] arms[i]).body,
                Map::empty(),
            ) by {
                lemma_nothing_to_expand(arms[i].body);
            }
        },
        ExprKindV::Call { callee, args } => {
            assert forall|i: int| 0 <= i < args.len() implies macro_free(
                #[trigger] args[i],
                Map::empty(),
            ) by {
                lemma_nothing_to_expand(args[i]);
            }
        },
        _ => {},
    }
}

proof fn lemma_methods_same(xs: Seq<FunctionV>, i: int)
    requires
        0 <= i <= xs.len(),
    ensures
        expanded_methods(xs, i, xs.subrange(0, i), Map::empty()) == (xs, None::<MacroErrorV>),
    decreases xs.len() - i,
{
    if i < xs.len() {
        lemma_nothing_to_expand(xs[i].body);
        law_macro_free_unchanged(xs[i].body, Map::empty(), 0);
        assert(xs.subrange(0, i).push(xs[i]) =~= xs.subrange(0, i + 1));
        lemma_methods_same(xs, i + 1);
    } else {
        assert(xs.subrange(0, i) =~= xs);
    }
}

proof fn lemma_item_same(it: TopLevelV)
    ensures
        expanded_item(it, Map::empty()) == (it, None::<MacroErrorV>),
{
    match it {
        TopLevelV::Function(f) => {
            lemma_nothing_to_expand(f.body);
            law_macro_free_unchanged(f.body, Map::empty(), 0);
        },
        TopLevelV::GenericFunction(g) => {
            lemma_nothing_to_expand(g.body);
            law_macro_free_unchanged(g.body, Map::empty(), 0);
        },
        TopLevelV::Const(c) => {
            lemma_nothing_to_expand(c.value);
            law_macro_free_unchanged(c.value, Map::empty(), 0);
        },
        TopLevelV::Impl(ib) => {
            assert(ib.methods.subrange(0, 0) =~= Seq::empty());
            lemma_methods_same(ib.methods, 0);
        },
        _ => {},
    }
}

proof fn lemma_items_same(xs: Seq<TopLevelV>, i: int)
    requires
        0 <= i <= xs.len(),
    ensures
        expanded_items(xs, i, xs.subrange(0, i), Map::empty()) == (xs, None::<MacroErrorV>),
    decreases xs.len() - i,
{
    if i < xs.len() {
        lemma_item_same(xs[i]);
        assert(xs.subrange(0, i).push(xs[i]) =~= xs.subrange(0, i + 1));
        lemma_items_same(xs, i + 1);
    } else {
        assert(xs.subrange(0, i) =~= xs);
    }
}

proof fn lemma_split_without(items: Seq<TopLevelV>, i: int)
    requires
        0 <= i <= items.len(),
        forall|j: int| 0 <= j < items.len() ==> !defines_macro(#[trigger] items[j]),
    ensures
        split_items(items, i, Map::empty(), items.subrange(0, i)) == Ok::<
            (Macros, Seq<TopLevelV>),
            MacroErrorV,
        >((Map::empty(), items)),
    decreases items.len() - i,
{
    if i < items.len() {
        assert(!defines_macro(items[i]));
        assert(items.subrange(0, i).push(items[i]) =~= items.subrange(0, i + 1));
        lemma_split_without(items, i + 1);
    } else {
        assert(items.subrange(0, i) =~= items);
    }
}

/// A program without macro definitions is left as it is, and so is one that has been
/// expanded before.
pub proof fn law_program_without_macros_unchanged(p: ProgramV)
    requires
        forall|j: int| 0 <= j < p.items.len() ==> !defines_macro(#[trigger] p.items[j]),
    ensures
        expanded_program(p) == (p, None::<MacroErrorV>),
{
    assert(p.items.subrange(0, 0) =~= Seq::empty());
    lemma_split_without(p.items, 0);
    lemma_items_same(p.items, 0);
}

} // verus!
