//! The session of an interactive prompt.
use crate::ast::{Program, ProgramV};
use crate::driver::{check_text, lower_checked, render_frontend, render_resolve};
use crate::driver;
use crate::grammar;
use crate::ir::{Module, ModuleV};
use crate::parser::{parse, parse_expr_src};
use crate::resolve::{prepare_repl, ResolveErrorV};
use crate::resolve;
use crate::text::{Dup, join_texts, same_text, starts_with, text_chars, trim, trim_start};
use crate::text;
use crate::typeck::TypeCk;
use crate::typing::CkV;
use crate::typing;
use vstd::prelude::*;
use vstd::string::*;

verus! {

/// The function that an expression is evaluated in.
pub const REPL_MAIN: &'static str = "__risp_repl_main";

/// A scan for open brackets.
#[verifier::ext_equal]
pub struct Scan {
    /// How many brackets are open.
    pub open: int,
    pub in_str: bool,
    pub escape: bool,
}

/// One more character. What is in a string literal does not count.
pub open spec fn scanned(st: Scan, c: char) -> Scan {
    if st.in_str {
        if st.escape {
            Scan { escape: false, ..st }
        } else if c == '\\' {
            Scan { escape: true, ..st }
        } else if c == '"' {
            Scan { in_str: false, ..st }
        } else {
            st
        }
    } else if c == '"' {
        Scan { in_str: true, ..st }
    } else if c == '(' || c == '[' {
        Scan { open: st.open + 1, ..st }
    } else if c == ')' || c == ']' {
        Scan { open: st.open - 1, ..st }
    } else {
        st
    }
}

/// The scan of the first `n` characters.
pub open spec fn scan(s: Seq<char>, n: int) -> Scan
    decreases n,
{
    if n <= 0 || n > s.len() {
        Scan { open: 0, in_str: false, escape: false }
    } else {
        scanned(scan(s, n - 1), s[n - 1])
    }
}

/// How many brackets a text leaves open.
pub open spec fn balance(s: Seq<char>) -> int {
    scan(s, s.len() as int).open
}

/// How many brackets a text leaves open; those in string literals do not count.
pub fn paren_balance(s: &str) -> (r: i128)
    ensures
        r == balance(s@),
{
    let cs = text_chars(s);
    let mut open: i128 = 0;
    let mut in_str = false;
    let mut escape = false;
    let n = cs.len();
    let mut i: usize = 0;
    while i < n
        invariant
            i <= n == cs@.len(),
            cs@ == s@,
            (Scan { open: open as int, in_str, escape }) == scan(s@, i as int),
            -(i as int) <= open <= i,
        decreases cs@.len() - i,
    {
        let c = cs[i];
        if in_str {
            if escape {
                escape = false;
            } else if c == '\\' {
                escape = true;
            } else if c == '"' {
                in_str = false;
            }
        } else if c == '"' {
            in_str = true;
        } else if c == '(' || c == '[' {
            open += 1;
        } else if c == ')' || c == ']' {
            open -= 1;
        }
        i += 1;
    }
    open
}

/// Whether an input defines something.
pub open spec fn defines(input: Seq<char>) -> bool {
    let t = text::trimmed_start(input);
    ||| text::starts(t, "(defn"@)
    ||| text::starts(t, "(def "@)
    ||| text::starts(t, "(def\t"@)
    ||| text::starts(t, "(def\n"@)
    ||| text::starts(t, "(defmacro"@)
    ||| text::starts(t, "(struct"@)
    ||| text::starts(t, "(enum"@)
    ||| text::starts(t, "(extern"@)
    ||| text::starts(t, "(trait"@)
    ||| text::starts(t, "(impl"@)
}

/// Whether an input defines something.
pub fn is_definition(src: &str) -> (r: bool)
    ensures
        r == defines(src@),
{
    let t = trim_start(src);
    let t = t.as_str();
    starts_with(t, "(defn") || starts_with(t, "(def ") || starts_with(t, "(def\t") || starts_with(
        t,
        "(def\n",
    ) || starts_with(t, "(defmacro") || starts_with(t, "(struct") || starts_with(t, "(enum")
        || starts_with(t, "(extern") || starts_with(t, "(trait") || starts_with(t, "(impl")
}

/// The definitions so far, and the script that waits to be run.
pub struct Session {
    pub defs: Vec<String>,
    pub pending: Option<Module>,
}

/// Model of [`Session`].
#[verifier::ext_equal]
pub struct SessionV {
    pub defs: Seq<Seq<char>>,
    pub pending: Option<ModuleV>,
}

impl View for Session {
    type V = SessionV;

    open spec fn view(&self) -> SessionV {
        SessionV { defs: self.defs.deep_view(), pending: self.pending.deep_view() }
    }
}

/// A text of the session, checked: without imports, and with or without `main`.
pub open spec fn repl_checked(src: Seq<char>) -> Result<(ProgramV, CkV), Seq<char>> {
    match grammar::parse_text(src) {
        Err(e) => Err(driver::frontend_report("<repl>"@, src, e)),
        Ok(p) => match resolve::repl_items(p.items, 0, Seq::empty()) {
            None => Err(driver::resolve_report("<repl>"@, src, ResolveErrorV::ImportInRepl)),
            Some(items) => driver::checked("<repl>"@, src, ProgramV { items }, false),
        },
    }
}

/// A definition is kept if all definitions together are in order.
pub open spec fn defined_in(s: SessionV, input: Seq<char>) -> (SessionV, Result<Seq<char>, Seq<char>>) {
    let trial = s.defs.push(input);
    match repl_checked(text::join(trial, "\n"@)) {
        Err(m) => (SessionV { pending: None, ..s }, Err(m)),
        Ok(_) => (SessionV { defs: trial, pending: None }, Ok("; ok"@)),
    }
}

/// The function that prints the value of an expression.
pub open spec fn printing(input: Seq<char>) -> Seq<char> {
    "(defn "@ + REPL_MAIN@ + " [] -> i32 (do (println "@ + input + ") 0))"@
}

/// The script that prints the value of an expression.
pub open spec fn printer(s: SessionV, input: Seq<char>) -> Result<ModuleV, Seq<char>> {
    match grammar::parse_expr_text(input) {
        Err(e) => Err(driver::frontend_report("<repl>"@, input, e)),
        Ok(_) => match repl_checked(text::join(s.defs.push(printing(input)), "\n"@)) {
            Err(m) => Err(m),
            Ok((p, t)) => driver::lowered(p, t, "risp_repl"@),
        },
    }
}

/// An expression leaves the definitions as they are; its script waits to be run.
pub open spec fn evaluated_in(s: SessionV, input: Seq<char>) -> (
    SessionV,
    Result<Seq<char>, Seq<char>>,
) {
    match printer(s, input) {
        Err(m) => (SessionV { pending: None, ..s }, Err(m)),
        Ok(m) => (SessionV { pending: Some(m), ..s }, Ok(""@)),
    }
}

/// An input.
pub open spec fn entered_in(s: SessionV, input: Seq<char>) -> (SessionV, Result<Seq<char>, Seq<char>>) {
    if defines(input) {
        defined_in(s, input)
    } else {
        evaluated_in(s, input)
    }
}

/// Parses and checks a text of the session.
fn check_repl(src: &str) -> (r: Result<(Program, TypeCk), String>)
    ensures
        match (r, repl_checked(src@)) {
            (Ok(t), Ok((p, s))) => t.0@ == p && t.1@ == s && typing::plain_types(t.1@),
            (Err(m), Err(x)) => m@ == x,
            _ => false,
        },
{
    let mut prog = match parse(src) {
        Ok(p) => p,
        Err(e) => return Err(render_frontend("<repl>", src, &e)),
    };
    match prepare_repl(&mut prog) {
        Ok(_) => {},
        Err(e) => return Err(render_resolve("<repl>", src, &e)),
    }
    let tyck = match check_text("<repl>", src, &mut prog, false) {
        Ok(t) => t,
        Err(m) => return Err(m),
    };
    Ok((prog, tyck))
}

impl Session {
    /// A session without definitions.
    pub fn new() -> (r: Self)
        ensures
            r@ == (SessionV { defs: Seq::empty(), pending: None }),
    {
        let r = Session { defs: Vec::new(), pending: None };
        assert(r@.defs =~= Seq::empty());
        r
    }

    /// Forgets all definitions.
    pub fn clear(&mut self)
        ensures
            final(self)@ == (SessionV { defs: Seq::empty(), ..old(self)@ }),
    {
        self.defs = Vec::new();
        assert(self@.defs =~= Seq::empty());
    }

    /// Takes an input: a definition, or an expression whose script then waits to be
    /// run.
    pub fn eval(&mut self, input: &str) -> (r: Result<String, String>)
        ensures
            (final(self)@, text::outcome(r)) == entered_in(old(self)@, input@),
    {
        if is_definition(input) {
            self.eval_definition(input)
        } else {
            self.eval_expression(input)
        }
    }

    /// The definitions with one more text behind them.
    fn with_text(&self, more: String) -> (r: Vec<String>)
        ensures
            r.deep_view() == self@.defs.push(more@),
    {
        let mut out = self.defs.dup();
        out.push(more);
        assert(out.deep_view() =~= self@.defs.push(more@));
        out
    }

    fn eval_definition(&mut self, input: &str) -> (r: Result<String, String>)
        ensures
            (final(self)@, text::outcome(r)) == defined_in(old(self)@, input@),
    {
        self.pending = None;
        let trial = self.with_text(String::from_str(input));
        let src = join_texts(&trial, "\n");
        match check_repl(src.as_str()) {
            Err(m) => Err(m),
            Ok(_) => {
                self.defs = trial;
                Ok(String::from_str("; ok"))
            },
        }
    }

    fn eval_expression(&mut self, input: &str) -> (r: Result<String, String>)
        ensures
            (final(self)@, text::outcome(r)) == evaluated_in(old(self)@, input@),
    {
        self.pending = None;
        match self.print_script(input) {
            Err(m) => Err(m),
            Ok(m) => {
                self.pending = Some(m);
                Ok(String::from_str(""))
            },
        }
    }

    /// The script that prints the value of an expression.
    fn print_script(&self, input: &str) -> (r: Result<Module, String>)
        ensures
            text::outcome(r) == printer(self@, input@),
    {
        if let Err(e) = parse_expr_src(input) {
            return Err(render_frontend("<repl>", input, &e));
        }
        let mut main = String::from_str("(defn ");
        main.append(REPL_MAIN);
        main.append(" [] -> i32 (do (println ");
        main.append(input);
        main.append(") 0))");
        assert(main@ =~= printing(input@));
        let src = join_texts(&self.with_text(main), "\n");
        match check_repl(src.as_str()) {
            Err(m) => Err(m),
            Ok(t) => lower_checked(&t.0, &t.1, "risp_repl"),
        }
    }
}

/// What the prompt does with a line.
pub enum Answer {
    /// Asks for the next line.
    Nothing,
    Quit,
    /// Prints a line.
    Say(String),
    /// Prints an error report.
    Complain(String),
    /// Runs a script.
    Run(Module),
}

/// Model of [`Answer`].
#[verifier::ext_equal]
pub enum AnswerV {
    Nothing,
    Quit,
    Say(Seq<char>),
    Complain(Seq<char>),
    Run(ModuleV),
}

impl View for Answer {
    type V = AnswerV;

    open spec fn view(&self) -> AnswerV {
        match *self {
            Answer::Nothing => AnswerV::Nothing,
            Answer::Quit => AnswerV::Quit,
            Answer::Say(s) => AnswerV::Say(s@),
            Answer::Complain(s) => AnswerV::Complain(s@),
            Answer::Run(m) => AnswerV::Run(m@),
        }
    }
}

/// A prompt: a session, and the lines of an input that is not complete yet.
pub struct Prompt {
    pub session: Session,
    pub buf: String,
}

/// Model of [`Prompt`].
#[verifier::ext_equal]
pub struct PromptV {
    pub session: SessionV,
    pub buf: Seq<char>,
}

impl View for Prompt {
    type V = PromptV;

    open spec fn view(&self) -> PromptV {
        PromptV { session: self.session@, buf: self.buf@ }
    }
}

pub open spec fn trimmed(s: Seq<char>) -> Seq<char> {
    text::trimmed_end(text::trimmed_start(s))
}

/// The list of commands.
pub open spec fn help_text() -> Seq<char> {
    "; Commands:\n;   :help / :h     show this help\n;   :quit / :q     exit\n;   :clear         drop accumulated definitions\n;   :defs          show accumulated definitions\n; Definitions (`defn` / `def` / `defmacro` / `struct` / `enum` / `extern` / `trait` / `impl`) persist across inputs.\n; Other expressions are JIT-evaluated and printed."@
}

/// What a command does; `None` if a line is none.
pub open spec fn command(p: PromptV, line: Seq<char>) -> Option<(PromptV, AnswerV)> {
    let c = trimmed(line);
    if c == ""@ {
        Some((p, AnswerV::Nothing))
    } else if c == ":q"@ || c == ":quit"@ || c == ":exit"@ {
        Some((p, AnswerV::Quit))
    } else if c == ":help"@ || c == ":h"@ {
        Some((p, AnswerV::Say(help_text())))
    } else if c == ":clear"@ {
        Some(
            (
                PromptV { session: SessionV { defs: Seq::empty(), ..p.session }, ..p },
                AnswerV::Say("; cleared"@),
            ),
        )
    } else if c == ":defs"@ {
        Some(
            (
                p,
                AnswerV::Say(
                    if p.session.defs.len() == 0 {
                        "; (no definitions)"@
                    } else {
                        text::join(p.session.defs, "\n"@)
                    },
                ),
            ),
        )
    } else {
        None
    }
}

/// What an input does.
pub open spec fn answered(p: PromptV, input: Seq<char>) -> (PromptV, AnswerV) {
    let (s, r) = entered_in(p.session, input);
    let q = PromptV { session: SessionV { pending: None, ..s }, ..p };
    match r {
        Err(m) => (q, AnswerV::Complain(m)),
        Ok(m) => match s.pending {
            Some(script) => (q, AnswerV::Run(script)),
            None => (q, AnswerV::Say(m)),
        },
    }
}

/// What a line does: it is a command, or it is put behind the lines before it, and
/// these are an input once all brackets are closed.
pub open spec fn fed(p: PromptV, line: Seq<char>) -> (PromptV, AnswerV) {
    let cmd = if p.buf.len() == 0 {
        command(p, line)
    } else {
        None
    };
    match cmd {
        Some(done) => done,
        None => {
            let text = p.buf + line;
            let empty = PromptV { buf: Seq::empty(), ..p };
            if balance(text) > 0 {
                (PromptV { buf: text, ..p }, AnswerV::Nothing)
            } else if balance(text) < 0 {
                (empty, AnswerV::Complain("error: unmatched closing parenthesis\n"@))
            } else if trimmed(text).len() == 0 {
                (empty, AnswerV::Nothing)
            } else {
                answered(empty, trimmed(text))
            }
        },
    }
}

/// The list of commands.
pub fn help() -> (r: String)
    ensures
        r@ == help_text(),
{
    String::from_str(
        "; Commands:\n;   :help / :h     show this help\n;   :quit / :q     exit\n;   :clear         drop accumulated definitions\n;   :defs          show accumulated definitions\n; Definitions (`defn` / `def` / `defmacro` / `struct` / `enum` / `extern` / `trait` / `impl`) persist across inputs.\n; Other expressions are JIT-evaluated and printed.",
    )
}

impl Prompt {
    /// A prompt without definitions.
    pub fn new() -> (r: Self)
        ensures
            r@.session == (SessionV { defs: Seq::empty(), pending: None }),
            r@.buf == Seq::<char>::empty(),
    {
        let r = Prompt { session: Session::new(), buf: String::new() };
        assert(r@.buf =~= Seq::empty());
        r
    }

    /// What is shown before a line is read.
    pub fn prompt(&self) -> (r: String)
        ensures
            r@ == (if self@.buf.len() == 0 {
                "risp> "@
            } else {
                "....> "@
            }),
    {
        if self.buf.as_str().is_empty() {
            String::from_str("risp> ")
        } else {
            String::from_str("....> ")
        }
    }

    /// A command, if the line is one.
    fn run_command(&mut self, line: &str) -> (r: Option<Answer>)
        ensures
            match (r, command(old(self)@, line@)) {
                (Some(a), Some((p, b))) => final(self)@ == p && a@ == b,
                (None, None) => final(self)@ == old(self)@,
                _ => false,
            },
    {
        let c = trim(line);
        let c = c.as_str();
        if same_text(c, "") {
            Some(Answer::Nothing)
        } else if same_text(c, ":q") || same_text(c, ":quit") || same_text(c, ":exit") {
            Some(Answer::Quit)
        } else if same_text(c, ":help") || same_text(c, ":h") {
            Some(Answer::Say(help()))
        } else if same_text(c, ":clear") {
            self.session.clear();
            Some(Answer::Say(String::from_str("; cleared")))
        } else if same_text(c, ":defs") {
            if self.session.defs.len() == 0 {
                Some(Answer::Say(String::from_str("; (no definitions)")))
            } else {
                Some(Answer::Say(join_texts(&self.session.defs, "\n")))
            }
        } else {
            None
        }
    }

    /// Takes an input.
    fn answer(&mut self, input: &str) -> (r: Answer)
        ensures
            (final(self)@, r@) == answered(old(self)@, input@),
    {
        match self.session.eval(input) {
            Err(m) => {
                self.session.pending = None;
                Answer::Complain(m)
            },
            Ok(m) => {
                let script = self.session.pending.take();
                match script {
                    Some(s) => Answer::Run(s),
                    None => Answer::Say(m),
                }
            },
        }
    }

    /// Takes a line.
    pub fn feed(&mut self, line: &str) -> (r: Answer)
        ensures
            (final(self)@, r@) == fed(old(self)@, line@),
    {
        if self.buf.as_str().is_empty() {
            if let Some(a) = self.run_command(line) {
                return a;
            }
        }
        self.buf.append(line);
        let open: i128 = paren_balance(self.buf.as_str());
        if open > 0 {
            return Answer::Nothing;
        }
        let input = trim(self.buf.as_str());
        self.buf = String::new();
        assert(self.buf@ =~= Seq::empty());
        if open < 0 {
            return Answer::Complain(String::from_str("error: unmatched closing parenthesis\n"));
        }
        if input.as_str().is_empty() {
            return Answer::Nothing;
        }
        self.answer(input.as_str())
    }
}

/// Whether the definitions of a session are accepted together.
pub open spec fn valid(s: SessionV) -> bool {
    s.defs.len() == 0 || repl_checked(text::join(s.defs, "\n"@)) is Ok
}

/// What a session keeps is accepted as a whole, whatever is entered.
pub proof fn law_session_stays_valid(p: PromptV, line: Seq<char>)
    requires
        valid(p.session),
    ensures
        valid(fed(p, line).0.session),
{
}

/// Input that is refused leaves the definitions as they were.
pub proof fn law_refused_input_keeps_definitions(p: PromptV, line: Seq<char>)
    ensures
        fed(p, line).1 is Complain ==> fed(p, line).0.session.defs == p.session.defs,
{
}

/// An expression leaves the definitions as they were.
pub proof fn law_expression_keeps_definitions(s: SessionV, input: Seq<char>)
    requires
        !defines(input),
    ensures
        entered_in(s, input).0.defs == s.defs,
{
}

/// Lines are kept until the brackets are closed, and nothing of them is kept then.
pub proof fn law_input_waits_for_brackets(p: PromptV, line: Seq<char>)
    requires
        p.buf.len() > 0,
    ensures
        balance(p.buf + line) > 0 ==> fed(p, line) == (
            PromptV { buf: p.buf + line, ..p },
            AnswerV::Nothing,
        ),
        balance(p.buf + line) <= 0 ==> fed(p, line).0.buf.len() == 0,
{
}

} // verus!
