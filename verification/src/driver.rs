//! The compiler from source text to builder script, and its error reports.
use crate::ast::{Program, ProgramV, Span};
use crate::codegen::Codegen;
use crate::diagnostic::{Loc, render, render_plain};
use crate::diagnostic;
use crate::grammar::{FrontendError, FrontendErrorV};
use crate::grammar;
use crate::ir::{Module, ModuleV};
use crate::lexer;
use crate::lowering;
use crate::macroexpand::{expand, MacroError};
use crate::macroexpand;
use crate::parser::parse;
use crate::resolve::{
    Entry, EntryV, Files, FilesV, resolve, ResolveError, ResolveErrorV, Stop, StopV,
};
use crate::resolve;
use crate::text::Dup;
use crate::text;
use crate::typeck::TypeCk;
use crate::typing::{CkV, TypeError};
use crate::typing;
use vstd::prelude::*;
use vstd::string::*;

verus! {

/// Why compiling stopped: it needs to know of a file, or there is an error to report.
#[derive(Debug)]
pub enum Halt {
    Need { dir: String, name: String },
    Report(String),
}

/// Model of [`Halt`].
#[verifier::ext_equal]
pub enum HaltV {
    Need { dir: Seq<char>, name: Seq<char> },
    Report(Seq<char>),
}

impl View for Halt {
    type V = HaltV;

    open spec fn view(&self) -> HaltV {
        match *self {
            Halt::Need { dir, name } => HaltV::Need { dir: dir.deep_view(), name: name.deep_view() },
            Halt::Report(a) => HaltV::Report(a.deep_view()),
        }
    }
}

impl DeepView for Halt {
    type V = HaltV;

    open spec fn deep_view(&self) -> HaltV {
        self@
    }
}

impl Dup for Halt {
    fn dup(&self) -> (r: Self) {
        match self {
            Halt::Need { dir, name } => Halt::Need { dir: dir.dup(), name: name.dup() },
            Halt::Report(a) => Halt::Report(a.dup()),
        }
    }
}

impl Clone for Halt {
    fn clone(&self) -> (r: Self)
        ensures
            r@ == self@,
    {
        self.dup()
    }
}

/// A report about a span, or about no place in particular.
pub open spec fn report(file: Seq<char>, src: Seq<char>, span: Option<Span>, message: Seq<char>) -> Seq<
    char,
> {
    match span {
        Some(s) => diagnostic::rendered(file, src, diagnostic::span_loc(s), message),
        None => diagnostic::rendered_plain(file, message),
    }
}

/// A report of an error in the text.
pub open spec fn frontend_report(file: Seq<char>, src: Seq<char>, e: FrontendErrorV) -> Seq<char> {
    match e {
        FrontendErrorV::Lex(x) => diagnostic::rendered(
            file,
            src,
            diagnostic::point_loc(lexer::lex_error_byte(x)),
            lexer::lex_error_text(x),
        ),
        FrontendErrorV::Parse(x) => match grammar::parse_error_byte(x) {
            Some(b) => diagnostic::rendered(file, src, diagnostic::point_loc(b), grammar::parse_error_text(x)),
            None => diagnostic::rendered_plain(file, grammar::parse_error_text(x)),
        },
    }
}

/// A report of an error in imports; an error in the text of an imported file is shown
/// in that file.
pub open spec fn resolve_report(file: Seq<char>, src: Seq<char>, e: ResolveErrorV) -> Seq<char> {
    match e {
        ResolveErrorV::Frontend { file: f, src: s, err } => frontend_report(f, s, err),
        _ => report(file, src, resolve::resolve_error_span(e), resolve::resolve_error_text(e)),
    }
}

/// A report of an error that is about no file.
pub open spec fn plain_report(message: Seq<char>) -> Seq<char> {
    "error: "@ + message + "\n"@
}

/// Reports an error about a span.
fn render_at(file: &str, src: &str, span: Option<Span>, message: &str) -> (r: String)
    ensures
        r@ == report(file@, src@, span, message@),
{
    match span {
        Some(s) => render(file, src, Loc::from_span(s), message),
        None => render_plain(file, message),
    }
}

/// Reports an error in the text.
pub fn render_frontend(file: &str, src: &str, e: &FrontendError) -> (r: String)
    ensures
        r@ == frontend_report(file@, src@, e@),
{
    match e {
        FrontendError::Lex(x) => render(
            file,
            src,
            Loc::point(x.byte()),
            x.to_text().as_str(),
        ),
        FrontendError::Parse(x) => match x.byte() {
            Some(b) => render(file, src, Loc::point(b), x.to_text().as_str()),
            None => render_plain(file, x.to_text().as_str()),
        },
    }
}

/// Reports an error in types.
pub fn render_typeck(file: &str, src: &str, e: &TypeError) -> (r: String)
    ensures
        r@ == report(file@, src@, typing::type_error_span(e@), typing::type_error_text(e@)),
{
    render_at(file, src, e.span(), e.to_text().as_str())
}

/// Reports an error in macros.
pub fn render_macro(file: &str, src: &str, e: &MacroError) -> (r: String)
    ensures
        r@ == report(file@, src@, Some(macroexpand::macro_error_span(e@)), macroexpand::macro_error_text(e@)),
{
    render_at(file, src, e.span(), e.to_text().as_str())
}

/// Reports an error in imports.
pub fn render_resolve(file: &str, src: &str, e: &ResolveError) -> (r: String)
    ensures
        r@ == resolve_report(file@, src@, e@),
{
    match e {
        ResolveError::Frontend { file: f, src: s, err } => render_frontend(
            f.as_str(),
            s.as_str(),
            err,
        ),
        _ => render_at(file, src, e.span(), e.to_text().as_str()),
    }
}

/// Reports an error that is about no file.
pub fn plain(message: &str) -> (r: String)
    ensures
        r@ == plain_report(message@),
{
    let mut s = String::from_str("error: ");
    s.append(message);
    s.append("\n");
    s
}

/// A program without imports, expanded and checked.
pub open spec fn checked(file: Seq<char>, src: Seq<char>, p: ProgramV, require_main: bool) -> Result<
    (ProgramV, CkV),
    Seq<char>,
> {
    let (q, bad) = macroexpand::expanded_program(p);
    match bad {
        Some(e) => Err(report(file, src, Some(macroexpand::macro_error_span(e)), macroexpand::macro_error_text(e))),
        None => {
            let c = typing::check_program(q, require_main);
            match c.r {
                Err(e) => Err(report(file, src, typing::type_error_span(e), typing::type_error_text(e))),
                Ok(_) => Ok((c.node, c.s)),
            }
        },
    }
}

/// The script of a checked program.
pub open spec fn lowered(p: ProgramV, s: CkV, name: Seq<char>) -> Result<ModuleV, Seq<char>> {
    let c = lowering::lower_program(p, s, lowering::nothing_built(name));
    match c.r {
        Err(e) => Err(plain_report(lowering::codegen_error_text(e))),
        Ok(_) => Ok(lowering::module_of(c.g)),
    }
}

/// The script of a source text: it is parsed, its imports are merged, its macros
/// expanded, its types checked, and then it is lowered.
pub open spec fn compiled(file: Seq<char>, src: Seq<char>, e: EntryV, files: FilesV) -> Result<
    ModuleV,
    HaltV,
> {
    match grammar::parse_text(src) {
        Err(x) => Err(HaltV::Report(frontend_report(file, src, x))),
        Ok(p) => {
            let (q, stop) = resolve::resolved(p, e, files);
            match stop {
                Some(StopV::Need { dir, name }) => Err(HaltV::Need { dir, name }),
                Some(StopV::Error(x)) => Err(HaltV::Report(resolve_report(file, src, x))),
                None => match checked(file, src, q, true) {
                    Err(m) => Err(HaltV::Report(m)),
                    Ok((n, s)) => match lowered(n, s, resolve::entry_name(e)) {
                        Err(m) => Err(HaltV::Report(m)),
                        Ok(m) => Ok(m),
                    },
                },
            }
        },
    }
}

/// Expands and checks a program without imports.
pub(crate) fn check_text(file: &str, src: &str, prog: &mut Program, require_main: bool) -> (r: Result<
    TypeCk,
    String,
>)
    ensures
        match (r, checked(file@, src@, old(prog)@, require_main)) {
            (Ok(t), Ok((p, s))) => final(prog)@ == p && t@ == s && typing::plain_types(t@),
            (Err(m), Err(x)) => m@ == x,
            _ => false,
        },
{
    if let Err(e) = expand(prog) {
        return Err(render_macro(file, src, &e));
    }
    let mut tyck = TypeCk::new();
    match tyck.check_ex(prog, require_main) {
        Ok(_) => Ok(tyck),
        Err(e) => Err(render_typeck(file, src, &e)),
    }
}

/// Lowers a checked program.
pub(crate) fn lower_checked(prog: &Program, tyck: &TypeCk, name: &str) -> (r: Result<Module, String>)
    requires
        typing::plain_types(tyck@),
    ensures
        text::outcome(r) == lowered(prog@, tyck@, name@),
{
    let mut cg = Codegen::new(name);
    match cg.compile_program(prog, tyck) {
        Ok(_) => Ok(cg.into_module()),
        Err(e) => Err(plain(e.to_text().as_str())),
    }
}

/// Compiles a source text, as far as the files that it imports are known.
pub fn compile(file: &str, src: &str, entry: &Entry, files: &Files) -> (r: Result<Module, Halt>)
    ensures
        text::outcome(r) == compiled(file@, src@, entry@, files@),
{
    let mut prog = match parse(src) {
        Ok(p) => p,
        Err(e) => return Err(Halt::Report(render_frontend(file, src, &e))),
    };
    match resolve(&mut prog, entry, files) {
        Ok(_) => {},
        Err(Stop::Need { dir, name }) => return Err(Halt::Need { dir, name }),
        Err(Stop::Error(e)) => return Err(Halt::Report(render_resolve(file, src, &e))),
    }
    let tyck = match check_text(file, src, &mut prog, true) {
        Ok(t) => t,
        Err(m) => return Err(Halt::Report(m)),
    };
    let name = match &entry.stem {
        Some(s) => s.dup(),
        None => String::from_str("main"),
    };
    match lower_checked(&prog, &tyck, name.as_str()) {
        Ok(m) => Ok(m),
        Err(m) => Err(Halt::Report(m)),
    }
}

} // verus!
