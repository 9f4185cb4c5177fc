//! Modules: finding, loading and merging what a program imports.
//!
//! One file is one module. Its name is the one that a `(module name)` at its top
//! gives, else the stem of the file. `(import name)` asks for the file `name.rsp` in
//! the directory of the importing file, then in that of the entry file.
//!
//! Reading files is left to the caller: [`resolve`] works on what was read so far and
//! says which file it needs next.
use crate::ast::{Program, ProgramV, Span, TopLevel, TopLevelV};
use crate::grammar::{FrontendError, FrontendErrorV};
use crate::grammar;
use crate::ir::Module;
use crate::parser::parse;
use crate::prefix::prefix_items;
use crate::prefix;
use crate::table::{NameTable, Table};
use crate::text::{Dup, join_texts, quote, same_text};
use crate::text;
use vstd::prelude::*;
use vstd::string::*;

verus! {

/// The entry file.
#[derive(Debug)]
pub struct Entry {
    /// The directory of the entry file; empty for the current one.
    pub parent: String,
    /// The stem of its name.
    pub stem: Option<String>,
}

/// Model of [`Entry`].
#[verifier::ext_equal]
pub struct EntryV {
    pub parent: Seq<char>,
    pub stem: Option<Seq<char>>,
}

impl View for Entry {
    type V = EntryV;

    open spec fn view(&self) -> EntryV {
        EntryV { parent: self.parent.deep_view(), stem: self.stem.deep_view() }
    }
}

impl DeepView for Entry {
    type V = EntryV;

    open spec fn deep_view(&self) -> EntryV {
        self@
    }
}

impl Dup for Entry {
    fn dup(&self) -> (r: Self) {
        Entry { parent: self.parent.dup(), stem: self.stem.dup() }
    }
}

impl Clone for Entry {
    fn clone(&self) -> (r: Self)
        ensures
            r@ == self@,
    {
        self.dup()
    }
}

/// The text of a file, or why it cannot be read.
#[derive(Debug)]
pub enum FileText {
    Text(String),
    Unreadable(String),
}

/// Model of [`FileText`].
#[verifier::ext_equal]
pub enum FileTextV {
    Text(Seq<char>),
    Unreadable(Seq<char>),
}

impl View for FileText {
    type V = FileTextV;

    open spec fn view(&self) -> FileTextV {
        match *self {
            FileText::Text(a) => FileTextV::Text(a.deep_view()),
            FileText::Unreadable(a) => FileTextV::Unreadable(a.deep_view()),
        }
    }
}

impl DeepView for FileText {
    type V = FileTextV;

    open spec fn deep_view(&self) -> FileTextV {
        self@
    }
}

impl Dup for FileText {
    fn dup(&self) -> (r: Self) {
        match self {
            FileText::Text(a) => FileText::Text(a.dup()),
            FileText::Unreadable(a) => FileText::Unreadable(a.dup()),
        }
    }
}

impl Clone for FileText {
    fn clone(&self) -> (r: Self)
        ensures
            r@ == self@,
    {
        self.dup()
    }
}

/// The file of a module.
#[derive(Debug)]
pub struct FoundFile {
    pub path: String,
    /// Names the file, however it was reached.
    pub key: String,
    /// Its directory; empty for the current one.
    pub parent: String,
    pub stem: Option<String>,
    pub text: FileText,
}

/// Model of [`FoundFile`].
#[verifier::ext_equal]
pub struct FoundFileV {
    pub path: Seq<char>,
    pub key: Seq<char>,
    pub parent: Seq<char>,
    pub stem: Option<Seq<char>>,
    pub text: FileTextV,
}

impl View for FoundFile {
    type V = FoundFileV;

    open spec fn view(&self) -> FoundFileV {
        FoundFileV { path: self.path.deep_view(), key: self.key.deep_view(), parent: self.parent.deep_view(), stem: self.stem.deep_view(), text: self.text.deep_view() }
    }
}

impl DeepView for FoundFile {
    type V = FoundFileV;

    open spec fn deep_view(&self) -> FoundFileV {
        self@
    }
}

impl Dup for FoundFile {
    fn dup(&self) -> (r: Self) {
        FoundFile { path: self.path.dup(), key: self.key.dup(), parent: self.parent.dup(), stem: self.stem.dup(), text: self.text.dup() }
    }
}

impl Clone for FoundFile {
    fn clone(&self) -> (r: Self)
        ensures
            r@ == self@,
    {
        self.dup()
    }
}

/// A look for a module in one directory.
#[derive(Debug)]
pub struct Probe {
    /// Where the file would be.
    pub path: String,
    /// The file, if there is one.
    pub file: Option<FoundFile>,
}

/// Model of [`Probe`].
#[verifier::ext_equal]
pub struct ProbeV {
    pub path: Seq<char>,
    pub file: Option<FoundFileV>,
}

impl View for Probe {
    type V = ProbeV;

    open spec fn view(&self) -> ProbeV {
        ProbeV { path: self.path.deep_view(), file: self.file.deep_view() }
    }
}

impl DeepView for Probe {
    type V = ProbeV;

    open spec fn deep_view(&self) -> ProbeV {
        self@
    }
}

impl Dup for Probe {
    fn dup(&self) -> (r: Self) {
        Probe { path: self.path.dup(), file: self.file.dup() }
    }
}

impl Clone for Probe {
    fn clone(&self) -> (r: Self)
        ensures
            r@ == self@,
    {
        self.dup()
    }
}

/// `(import name)`
#[derive(Debug)]
pub struct ImportRequest {
    pub name: String,
    pub span: Span,
}

/// Model of [`ImportRequest`].
#[verifier::ext_equal]
pub struct ImportRequestV {
    pub name: Seq<char>,
    pub span: Span,
}

impl View for ImportRequest {
    type V = ImportRequestV;

    open spec fn view(&self) -> ImportRequestV {
        ImportRequestV { name: self.name.deep_view(), span: self.span }
    }
}

impl DeepView for ImportRequest {
    type V = ImportRequestV;

    open spec fn deep_view(&self) -> ImportRequestV {
        self@
    }
}

impl Dup for ImportRequest {
    fn dup(&self) -> (r: Self) {
        ImportRequest { name: self.name.dup(), span: self.span }
    }
}

impl Clone for ImportRequest {
    fn clone(&self) -> (r: Self)
        ensures
            r@ == self@,
    {
        self.dup()
    }
}

/// The parts of a module.
#[derive(Debug)]
pub struct Split {
    pub name: String,
    pub imports: Vec<ImportRequest>,
    pub items: Vec<TopLevel>,
}

/// Model of [`Split`].
#[verifier::ext_equal]
pub struct SplitV {
    pub name: Seq<char>,
    pub imports: Seq<ImportRequestV>,
    pub items: Seq<TopLevelV>,
}

impl View for Split {
    type V = SplitV;

    open spec fn view(&self) -> SplitV {
        SplitV { name: self.name.deep_view(), imports: self.imports.deep_view(), items: self.items.deep_view() }
    }
}

impl DeepView for Split {
    type V = SplitV;

    open spec fn deep_view(&self) -> SplitV {
        self@
    }
}

impl Dup for Split {
    fn dup(&self) -> (r: Self) {
        Split { name: self.name.dup(), imports: self.imports.dup(), items: self.items.dup() }
    }
}

impl Clone for Split {
    fn clone(&self) -> (r: Self)
        ensures
            r@ == self@,
    {
        self.dup()
    }
}

/// Why imports cannot be merged.
#[derive(Debug)]
pub enum ResolveError {
    ImportInRepl,
    ModuleNotFirst(Span),
    NameMismatch { imported: String, declared: String, span: Span },
    Cycle(Vec<String>),
    NotFound { name: String, searched: Vec<String>, span: Span },
    Io { path: String, msg: String, span: Span },
    Frontend { file: String, src: String, err: FrontendError },
}

/// Model of [`ResolveError`].
#[verifier::ext_equal]
pub enum ResolveErrorV {
    ImportInRepl,
    ModuleNotFirst(Span),
    NameMismatch { imported: Seq<char>, declared: Seq<char>, span: Span },
    Cycle(Seq<Seq<char>>),
    NotFound { name: Seq<char>, searched: Seq<Seq<char>>, span: Span },
    Io { path: Seq<char>, msg: Seq<char>, span: Span },
    Frontend { file: Seq<char>, src: Seq<char>, err: FrontendErrorV },
}

impl View for ResolveError {
    type V = ResolveErrorV;

    open spec fn view(&self) -> ResolveErrorV {
        match *self {
            ResolveError::ImportInRepl => ResolveErrorV::ImportInRepl,
            ResolveError::ModuleNotFirst(a) => ResolveErrorV::ModuleNotFirst(a),
            ResolveError::NameMismatch { imported, declared, span } => ResolveErrorV::NameMismatch { imported: imported.deep_view(), declared: declared.deep_view(), span },
            ResolveError::Cycle(a) => ResolveErrorV::Cycle(a.deep_view()),
            ResolveError::NotFound { name, searched, span } => ResolveErrorV::NotFound { name: name.deep_view(), searched: searched.deep_view(), span },
            ResolveError::Io { path, msg, span } => ResolveErrorV::Io { path: path.deep_view(), msg: msg.deep_view(), span },
            ResolveError::Frontend { file, src, err } => ResolveErrorV::Frontend { file: file.deep_view(), src: src.deep_view(), err: err.deep_view() },
        }
    }
}

impl DeepView for ResolveError {
    type V = ResolveErrorV;

    open spec fn deep_view(&self) -> ResolveErrorV {
        self@
    }
}

impl Dup for ResolveError {
    fn dup(&self) -> (r: Self) {
        match self {
            ResolveError::ImportInRepl => ResolveError::ImportInRepl,
            ResolveError::ModuleNotFirst(a) => ResolveError::ModuleNotFirst(*a),
            ResolveError::NameMismatch { imported, declared, span } => ResolveError::NameMismatch { imported: imported.dup(), declared: declared.dup(), span: *span },
            ResolveError::Cycle(a) => ResolveError::Cycle(a.dup()),
            ResolveError::NotFound { name, searched, span } => ResolveError::NotFound { name: name.dup(), searched: searched.dup(), span: *span },
            ResolveError::Io { path, msg, span } => ResolveError::Io { path: path.dup(), msg: msg.dup(), span: *span },
            ResolveError::Frontend { file, src, err } => ResolveError::Frontend { file: file.dup(), src: src.dup(), err: err.dup() },
        }
    }
}

impl Clone for ResolveError {
    fn clone(&self) -> (r: Self)
        ensures
            r@ == self@,
    {
        self.dup()
    }
}

/// Why resolving stopped: it needs to know of a file, or there is an error.
#[derive(Debug)]
pub enum Stop {
    Need { dir: String, name: String },
    Error(ResolveError),
}

/// Model of [`Stop`].
#[verifier::ext_equal]
pub enum StopV {
    Need { dir: Seq<char>, name: Seq<char> },
    Error(ResolveErrorV),
}

impl View for Stop {
    type V = StopV;

    open spec fn view(&self) -> StopV {
        match *self {
            Stop::Need { dir, name } => StopV::Need { dir: dir.deep_view(), name: name.deep_view() },
            Stop::Error(a) => StopV::Error(a.deep_view()),
        }
    }
}

impl DeepView for Stop {
    type V = StopV;

    open spec fn deep_view(&self) -> StopV {
        self@
    }
}

impl Dup for Stop {
    fn dup(&self) -> (r: Self) {
        match self {
            Stop::Need { dir, name } => Stop::Need { dir: dir.dup(), name: name.dup() },
            Stop::Error(a) => Stop::Error(a.dup()),
        }
    }
}

impl Clone for Stop {
    fn clone(&self) -> (r: Self)
        ensures
            r@ == self@,
    {
        self.dup()
    }
}

/// The message of an error.
pub open spec fn resolve_error_text(e: ResolveErrorV) -> Seq<char> {
    match e {
        ResolveErrorV::ImportInRepl => "import not supported in REPL"@,
        ResolveErrorV::ModuleNotFirst(_) => "(module …) must be the first top-level form"@,
        ResolveErrorV::NameMismatch { imported, declared, .. } => "module name mismatch: imported as "@
            + text::quoted(imported) + ", declared "@ + text::quoted(declared),
        ResolveErrorV::Cycle(names) => "circular import: "@ + text::join(names, " -> "@),
        ResolveErrorV::NotFound { name, searched, .. } => "module `"@ + name
            + "` not found (searched "@ + text::join(searched, ", "@) + ")"@,
        ResolveErrorV::Io { path, msg, .. } => "could not read "@ + path + ": "@ + msg,
        ResolveErrorV::Frontend { err, .. } => grammar::frontend_error_text(err),
    }
}

impl ResolveError {
    /// The error as a message.
    pub fn to_text(&self) -> (r: String)
        ensures
            r@ == resolve_error_text(self@),
    {
        match self {
            ResolveError::ImportInRepl => String::from_str("import not supported in REPL"),
            ResolveError::ModuleNotFirst(_) => String::from_str(
                "(module …) must be the first top-level form",
            ),
            ResolveError::NameMismatch { imported, declared, .. } => {
                let mut s = String::from_str("module name mismatch: imported as ");
                s.append(quote(imported.as_str()).as_str());
                s.append(", declared ");
                s.append(quote(declared.as_str()).as_str());
                s
            },
            ResolveError::Cycle(names) => {
                let mut s = String::from_str("circular import: ");
                s.append(join_texts(names, " -> ").as_str());
                s
            },
            ResolveError::NotFound { name, searched, .. } => {
                let mut s = String::from_str("module `");
                s.append(name.as_str());
                s.append("` not found (searched ");
                s.append(join_texts(searched, ", ").as_str());
                s.append(")");
                s
            },
            ResolveError::Io { path, msg, .. } => {
                let mut s = String::from_str("could not read ");
                s.append(path.as_str());
                s.append(": ");
                s.append(msg.as_str());
                s
            },
            ResolveError::Frontend { err, .. } => err.to_text(),
        }
    }
}
impl ResolveError {
    /// Where in the importing file the error is.
    pub fn span(&self) -> (r: Option<Span>)
        ensures
            r == resolve_error_span(self@),
    {
        match self {
            ResolveError::ModuleNotFirst(s) => Some(*s),
            ResolveError::NameMismatch { span, .. } => Some(*span),
            ResolveError::NotFound { span, .. } => Some(*span),
            ResolveError::Io { span, .. } => Some(*span),
            _ => None,
        }
    }
}

/// Where in the importing file an error is.
pub open spec fn resolve_error_span(e: ResolveErrorV) -> Option<Span> {
    match e {
        ResolveErrorV::ModuleNotFirst(s) => Some(s),
        ResolveErrorV::NameMismatch { span, .. } => Some(span),
        ResolveErrorV::NotFound { span, .. } => Some(span),
        ResolveErrorV::Io { span, .. } => Some(span),
        _ => None,
    }
}

/// What was looked for so far: by directory and module name.
pub type Files = Table<(String, String), Probe>;

pub type FilesV = Map<(Seq<char>, Seq<char>), ProbeV>;

/// Splits items from place `i` on; the module form may only stand at the very top.
pub open spec fn split_from(
    items: Seq<TopLevelV>,
    i: int,
    imports: Seq<ImportRequestV>,
    kept: Seq<TopLevelV>,
) -> Result<(Seq<ImportRequestV>, Seq<TopLevelV>), ResolveErrorV>
    decreases items.len() - i,
{
    if i < 0 || i >= items.len() {
        Ok((imports, kept))
    } else {
        match items[i] {
            TopLevelV::Module { name, span } => if i > 0 {
                Err(ResolveErrorV::ModuleNotFirst(span))
            } else {
                split_from(items, i + 1, imports, kept)
            },
            TopLevelV::Import { name, span } => split_from(
                items,
                i + 1,
                imports.push(ImportRequestV { name, span }),
                kept,
            ),
            other => split_from(items, i + 1, imports, kept.push(other)),
        }
    }
}

/// The name of a module: the one it gives itself, else the stem of its file.
pub open spec fn module_name(items: Seq<TopLevelV>, stem: Seq<char>) -> Seq<char> {
    if items.len() > 0 {
        match items[0] {
            TopLevelV::Module { name, .. } => name,
            _ => stem,
        }
    } else {
        stem
    }
}

/// The name, the imports and the other items of a module.
pub open spec fn split(items: Seq<TopLevelV>, stem: Seq<char>) -> Result<SplitV, ResolveErrorV> {
    match split_from(items, 0, Seq::empty(), Seq::empty()) {
        Err(e) => Err(e),
        Ok((imports, kept)) => Ok(SplitV { name: module_name(items, stem), imports, items: kept }),
    }
}

/// The file of a module: the importing file's directory comes before the entry
/// file's.
pub open spec fn find(
    files: FilesV,
    name: Seq<char>,
    from: Seq<char>,
    entry: Seq<char>,
    at: Span,
) -> Result<FoundFileV, StopV> {
    if !files.contains_key((from, name)) {
        Err(StopV::Need { dir: from, name })
    } else {
        let first = files[(from, name)];
        match first.file {
            Some(f) => Ok(f),
            None => if !files.contains_key((entry, name)) {
                Err(StopV::Need { dir: entry, name })
            } else {
                let second = files[(entry, name)];
                match second.file {
                    Some(f) => Ok(f),
                    None => Err(
                        StopV::Error(
                            ResolveErrorV::NotFound {
                                name,
                                searched: seq![first.path, second.path],
                                span: at,
                            },
                        ),
                    ),
                }
            },
        }
    }
}

/// What was loaded so far.
#[verifier::ext_equal]
pub struct LoadV {
    /// The files that are loaded.
    pub loaded: Set<Seq<char>>,
    /// Their items.
    pub merged: Seq<TopLevelV>,
}

/// What loading gives.
#[verifier::ext_equal]
pub struct Loaded {
    pub st: LoadV,
    pub r: Result<(), StopV>,
}

/// The lookups of modules that are not being loaded.
pub open spec fn open_lookups(files: FilesV, stack: Seq<Seq<char>>) -> Set<(Seq<char>, Seq<char>)> {
    files.dom().filter(|k: (Seq<char>, Seq<char>)| !stack.contains(k.1))
}

/// Loading one more module leaves fewer lookups of others.
pub proof fn lemma_fewer_lookups(
    files: FilesV,
    stack: Seq<Seq<char>>,
    dir: Seq<char>,
    name: Seq<char>,
)
    requires
        files.dom().finite(),
        files.contains_key((dir, name)),
        !stack.contains(name),
    ensures
        open_lookups(files, stack.push(name)).len() < open_lookups(files, stack).len(),
{
    let old_set = open_lookups(files, stack);
    let new_set = open_lookups(files, stack.push(name));
    assert(old_set.finite()) by {
        files.dom().lemma_len_filter(|k: (Seq<char>, Seq<char>)| !stack.contains(k.1));
    }
    assert(stack.push(name).contains(name)) by {
        assert(stack.push(name)[stack.len() as int] == name);
    }
    assert forall|k: (Seq<char>, Seq<char>)| new_set.contains(k) implies old_set.remove(
        (dir, name),
    ).contains(k) by {
        if stack.contains(k.1) {
            let j = choose|j: int| 0 <= j < stack.len() && stack[j] == k.1;
            assert(stack.push(name)[j] == k.1);
        }
    }
    vstd::set_lib::lemma_len_subset(new_set, old_set.remove((dir, name)));
}

/// The directory of a file, or `from` where it has none.
pub open spec fn dir_of(parent: Seq<char>, from: Seq<char>) -> Seq<char> {
    if parent.len() == 0 {
        from
    } else {
        parent
    }
}

pub open spec fn stopped(st: LoadV, e: ResolveErrorV) -> Loaded {
    Loaded { st, r: Err(StopV::Error(e)) }
}

/// Loads a module and what it imports. `stack` are the modules being loaded.
pub open spec fn load(
    files: FilesV,
    entry: Seq<char>,
    name: Seq<char>,
    from: Seq<char>,
    at: Span,
    stack: Seq<Seq<char>>,
    st: LoadV,
) -> Loaded
    decreases open_lookups(files, stack).len(), 0int,
{
    if stack.contains(name) {
        stopped(st, ResolveErrorV::Cycle(stack.push(name)))
    } else {
        match find(files, name, from, entry, at) {
            Err(e) => Loaded { st, r: Err(e) },
            Ok(file) => if st.loaded.contains(file.key) {
                Loaded { st, r: Ok(()) }
            } else {
                match file.text {
                    FileTextV::Unreadable(msg) => stopped(
                        st,
                        ResolveErrorV::Io { path: file.path, msg, span: at },
                    ),
                    FileTextV::Text(src) => match grammar::parse_text(src) {
                        Err(err) => stopped(
                            st,
                            ResolveErrorV::Frontend { file: file.path, src, err },
                        ),
                        Ok(p) => match split(
                            p.items,
                            match file.stem {
                                Some(s) => s,
                                None => name,
                            },
                        ) {
                            Err(e) => stopped(st, e),
                            Ok(m) => if m.name != name {
                                stopped(
                                    st,
                                    ResolveErrorV::NameMismatch {
                                        imported: name,
                                        declared: m.name,
                                        span: at,
                                    },
                                )
                            } else if !files.dom().finite() {
                                Loaded { st, r: Err(StopV::Need { dir: from, name }) }
                            } else {
                                proof {
                                    if files.contains_key((from, name)) {
                                        lemma_fewer_lookups(files, stack, from, name);
                                    }
                                }
                                let c = load_all(
                                    files,
                                    entry,
                                    m.imports,
                                    0,
                                    dir_of(file.parent, from),
                                    stack.push(name),
                                    st,
                                );
                                match c.r {
                                    Err(e) => c,
                                    Ok(_) => Loaded {
                                        st: LoadV {
                                            loaded: c.st.loaded.insert(file.key),
                                            merged: c.st.merged + prefix::prefixed_items(m.name, m.items),
                                        },
                                        r: Ok(()),
                                    },
                                }
                            },
                        },
                    },
                }
            },
        }
    }
}

/// Loads the imports from place `i` on.
pub open spec fn load_all(
    files: FilesV,
    entry: Seq<char>,
    imports: Seq<ImportRequestV>,
    i: int,
    from: Seq<char>,
    stack: Seq<Seq<char>>,
    st: LoadV,
) -> Loaded
    decreases open_lookups(files, stack).len(), imports.len() - i,
{
    if i < 0 || i >= imports.len() {
        Loaded { st, r: Ok(()) }
    } else {
        let c = load(files, entry, imports[i].name, from, imports[i].span, stack, st);
        match c.r {
            Err(e) => c,
            Ok(_) => load_all(files, entry, imports, i + 1, from, stack, c.st),
        }
    }
}

/// The stem of the entry file, or `main`.
pub open spec fn entry_name(e: EntryV) -> Seq<char> {
    match e.stem {
        Some(s) => s,
        None => "main"@,
    }
}

/// A program with its imports merged: the items of imported modules, with their
/// prefixes, come before its own. While a file is needed the program stays; with an
/// error nothing is left of it.
pub open spec fn resolved(p: ProgramV, e: EntryV, files: FilesV) -> (ProgramV, Option<StopV>) {
    let nothing = ProgramV { items: Seq::empty() };
    match split(p.items, entry_name(e)) {
        Err(err) => (nothing, Some(StopV::Error(err))),
        Ok(m) => {
            let dir = dir_of(e.parent, "."@);
            let start = LoadV { loaded: Set::empty(), merged: Seq::empty() };
            let c = load_all(files, dir, m.imports, 0, dir, seq![m.name], start);
            match c.r {
                Ok(_) => (ProgramV { items: c.st.merged + m.items }, None),
                Err(StopV::Need { dir, name }) => (p, Some(StopV::Need { dir, name })),
                Err(StopV::Error(err)) => (nothing, Some(StopV::Error(err))),
            }
        },
    }
}

/// The items of a REPL input from place `i` on, behind `kept`: no imports, and
/// without module forms.
pub open spec fn repl_items(items: Seq<TopLevelV>, i: int, kept: Seq<TopLevelV>) -> Option<
    Seq<TopLevelV>,
>
    decreases items.len() - i,
{
    if i < 0 || i >= items.len() {
        Some(kept)
    } else {
        match items[i] {
            TopLevelV::Import { .. } => None,
            TopLevelV::Module { .. } => repl_items(items, i + 1, kept),
            other => repl_items(items, i + 1, kept.push(other)),
        }
    }
}

/// What a stop is about.
pub open spec fn stop_of(r: Result<(), Stop>) -> Option<StopV> {
    match r {
        Ok(_) => None,
        Err(s) => Some(s@),
    }
}

/// Splits a module.
fn split_module(raw: &Vec<TopLevel>, file_stem: &str) -> (r: Result<Split, ResolveError>)
    ensures
        text::outcome(r) == split(raw.deep_view(), file_stem@),
{
    let mut imports: Vec<ImportRequest> = Vec::new();
    let mut kept: Vec<TopLevel> = Vec::new();
    let mut i: usize = 0;
    assert(imports.deep_view() =~= Seq::empty());
    assert(kept.deep_view() =~= Seq::empty());
    while i < raw.len()
        invariant
            i <= raw@.len(),
            split_from(raw.deep_view(), 0, Seq::empty(), Seq::empty()) == split_from(
                raw.deep_view(),
                i as int,
                imports.deep_view(),
                kept.deep_view(),
            ),
        decreases raw@.len() - i,
    {
        assert(raw.deep_view()[i as int] == raw@[i as int]@);
        let ghost before = (imports.deep_view(), kept.deep_view());
        match &raw[i] {
            TopLevel::Module { name: _, span } => {
                if i > 0 {
                    return Err(ResolveError::ModuleNotFirst(*span));
                }
            },
            TopLevel::Import { name, span } => {
                let req = ImportRequest { name: name.dup(), span: *span };
                imports.push(req);
                assert(imports.deep_view() =~= before.0.push(req@));
            },
            _ => {
                let it = raw[i].dup();
                kept.push(it);
                assert(kept.deep_view() =~= before.1.push(it@));
            },
        }
        i += 1;
    }
    let mut name = String::from_str(file_stem);
    if raw.len() > 0 {
        assert(raw.deep_view()[0] == raw@[0]@);
        if let TopLevel::Module { name: n, span: _ } = &raw[0] {
            name = n.dup();
        }
    }
    Ok(Split { name, imports, items: kept })
}

/// The file of a module.
fn find_module(files: &Files, name: &String, from: &String, entry: &String, at: Span) -> (r: Result<
    FoundFile,
    Stop,
>)
    ensures
        text::outcome(r) == find(files@, name@, from@, entry@, at),
{
    let first = match files.get(&(from.dup(), name.dup())) {
        Some(p) => p,
        None => return Err(Stop::Need { dir: from.dup(), name: name.dup() }),
    };
    if let Some(f) = &first.file {
        return Ok(f.dup());
    }
    let second = match files.get(&(entry.dup(), name.dup())) {
        Some(p) => p,
        None => return Err(Stop::Need { dir: entry.dup(), name: name.dup() }),
    };
    if let Some(f) = &second.file {
        return Ok(f.dup());
    }
    let searched = vec![first.path.dup(), second.path.dup()];
    assert(searched.deep_view() =~= seq![first.path@, second.path@]);
    Err(Stop::Error(ResolveError::NotFound { name: name.dup(), searched, span: at }))
}

/// What was loaded so far.
struct Load {
    loaded: NameTable<bool>,
    merged: Vec<TopLevel>,
}

impl View for Load {
    type V = LoadV;

    closed spec fn view(&self) -> LoadV {
        LoadV { loaded: self.loaded@.dom(), merged: self.merged.deep_view() }
    }
}

/// Whether a name is in a list.
fn in_list(xs: &Vec<String>, name: &str) -> (r: bool)
    ensures
        r == xs.deep_view().contains(name@),
{
    let mut i: usize = 0;
    while i < xs.len()
        invariant
            i <= xs@.len(),
            forall|j: int| 0 <= j < i ==> (#[trigger] xs@[j])@ != name@,
        decreases xs@.len() - i,
    {
        if same_text(xs[i].as_str(), name) {
            assert(xs.deep_view()[i as int] == name@);
            return true;
        }
        i += 1;
    }
    assert forall|j: int| 0 <= j < xs.deep_view().len() implies xs.deep_view()[j] != name@ by {
        assert(xs@[j]@ != name@);
    }
    false
}

/// A list with one more name.
fn with_name(xs: &Vec<String>, name: &String) -> (r: Vec<String>)
    ensures
        r.deep_view() == xs.deep_view().push(name@),
{
    let mut out = xs.dup();
    out.push(name.dup());
    assert(out.deep_view() =~= xs.deep_view().push(name@));
    out
}

/// The directory of a file, or `from` where it has none.
fn directory(parent: &String, from: &str) -> (r: String)
    ensures
        r@ == dir_of(parent@, from@),
{
    if same_text(parent.as_str(), "") {
        proof {
            reveal_strlit("");
        }
        String::from_str(from)
    } else {
        proof {
            reveal_strlit("");
            if parent@.len() == 0 {
                assert(parent@ =~= ""@);
            }
        }
        parent.dup()
    }
}

/// Loads a module and what it imports.
fn load_module(
    files: &Files,
    entry: &String,
    name: &String,
    from: &String,
    at: Span,
    stack: &Vec<String>,
    st: &mut Load,
) -> (r: Result<(), Stop>)
    ensures
        (Loaded { st: final(st)@, r: text::outcome(r) }) == load(
            files@,
            entry@,
            name@,
            from@,
            at,
            stack.deep_view(),
            old(st)@,
        ),
    decreases open_lookups(files@, stack.deep_view()).len(), 0int,
{
    if in_list(stack, name.as_str()) {
        return Err(Stop::Error(ResolveError::Cycle(with_name(stack, name))));
    }
    let file = find_module(files, name, from, entry, at)?;
    if st.loaded.has(&file.key) {
        return Ok(());
    }
    let src = match &file.text {
        FileText::Unreadable(msg) => {
            return Err(
                Stop::Error(ResolveError::Io { path: file.path.dup(), msg: msg.dup(), span: at }),
            );
        },
        FileText::Text(src) => src,
    };
    let parsed = match parse(src.as_str()) {
        Ok(p) => p,
        Err(err) => {
            return Err(
                Stop::Error(
                    ResolveError::Frontend { file: file.path.dup(), src: src.dup(), err },
                ),
            );
        },
    };
    let stem = match &file.stem {
        Some(s) => s.dup(),
        None => name.dup(),
    };
    let m = match split_module(&parsed.items, stem.as_str()) {
        Ok(m) => m,
        Err(e) => return Err(Stop::Error(e)),
    };
    if !same_text(m.name.as_str(), name.as_str()) {
        return Err(
            Stop::Error(
                ResolveError::NameMismatch {
                    imported: name.dup(),
                    declared: m.name.dup(),
                    span: at,
                },
            ),
        );
    }
    let inner = with_name(stack, name);
    let dir = directory(&file.parent, from.as_str());
    proof {
        files.lemma_finite();
        lemma_fewer_lookups(files@, stack.deep_view(), from@, name@);
    }
    load_modules(files, entry, &m.imports, &dir, &inner, st)?;
    let ghost mid = st@;
    let mut items = prefix_items(m.name.as_str(), m.items);
    let ghost added = items.deep_view();
    let ghost before = st.merged@;
    st.merged.append(&mut items);
    assert(st.merged.deep_view() =~= mid.merged + added);
    st.loaded.put(file.key, true);
    assert(st@.loaded =~= mid.loaded.insert(file.key@));
    Ok(())
}

/// Loads imports.
fn load_modules(
    files: &Files,
    entry: &String,
    imports: &Vec<ImportRequest>,
    from: &String,
    stack: &Vec<String>,
    st: &mut Load,
) -> (r: Result<(), Stop>)
    ensures
        (Loaded { st: final(st)@, r: text::outcome(r) }) == load_all(
            files@,
            entry@,
            imports.deep_view(),
            0,
            from@,
            stack.deep_view(),
            old(st)@,
        ),
    decreases open_lookups(files@, stack.deep_view()).len(), imports@.len(),
{
    let mut i: usize = 0;
    while i < imports.len()
        invariant
            i <= imports@.len(),
            load_all(
                files@,
                entry@,
                imports.deep_view(),
                0,
                from@,
                stack.deep_view(),
                old(st)@,
            ) == load_all(
                files@,
                entry@,
                imports.deep_view(),
                i as int,
                from@,
                stack.deep_view(),
                st@,
            ),
        decreases imports@.len() - i,
    {
        assert(imports.deep_view()[i as int] == imports@[i as int]@);
        load_module(files, entry, &imports[i].name, from, imports[i].span, stack, st)?;
        i += 1;
    }
    Ok(())
}

/// Merges the imports of a program, as far as the files are known.
pub fn resolve(prog: &mut Program, entry: &Entry, files: &Files) -> (r: Result<(), Stop>)
    ensures
        (final(prog)@, stop_of(r)) == resolved(old(prog)@, entry@, files@),
{
    let stem = match &entry.stem {
        Some(s) => s.dup(),
        None => String::from_str("main"),
    };
    let mut m = match split_module(&prog.items, stem.as_str()) {
        Ok(m) => m,
        Err(e) => {
            prog.items = Vec::new();
            assert(prog@.items =~= Seq::empty());
            return Err(Stop::Error(e));
        },
    };
    let dir = directory(&entry.parent, ".");
    let mut st = Load { loaded: Table::new(), merged: Vec::new() };
    assert(st@ =~= LoadV { loaded: Set::empty(), merged: Seq::empty() });
    let stack = vec![m.name.dup()];
    assert(stack.deep_view() =~= seq![m.name@]);
    match load_modules(files, &dir, &m.imports, &dir, &stack, &mut st) {
        Ok(_) => {
            let ghost own = m.items.deep_view();
            let ghost mid = st.merged.deep_view();
            st.merged.append(&mut m.items);
            assert(st.merged.deep_view() =~= mid + own);
            prog.items = st.merged;
            Ok(())
        },
        Err(Stop::Need { dir, name }) => Err(Stop::Need { dir, name }),
        Err(Stop::Error(e)) => {
            prog.items = Vec::new();
            assert(prog@.items =~= Seq::empty());
            Err(Stop::Error(e))
        },
    }
}

/// Prepares a REPL input: imports are rejected, module forms dropped.
pub fn prepare_repl(prog: &mut Program) -> (r: Result<(), ResolveError>)
    ensures
        match repl_items(old(prog)@.items, 0, Seq::empty()) {
            Some(items) => r is Ok && final(prog)@.items == items,
            None => r == Err::<(), ResolveError>(ResolveError::ImportInRepl)
                && final(prog)@.items.len() == 0,
        },
{
    let mut kept: Vec<TopLevel> = Vec::new();
    let mut i: usize = 0;
    assert(kept.deep_view() =~= Seq::empty());
    while i < prog.items.len()
        invariant
            i <= prog.items@.len(),
            prog@ == old(prog)@,
            repl_items(prog@.items, 0, Seq::empty()) == repl_items(
                prog@.items,
                i as int,
                kept.deep_view(),
            ),
        decreases prog.items@.len() - i,
    {
        assert(prog@.items[i as int] == prog.items@[i as int]@);
        let ghost before = kept.deep_view();
        match &prog.items[i] {
            TopLevel::Import { .. } => {
                prog.items = Vec::new();
                return Err(ResolveError::ImportInRepl);
            },
            TopLevel::Module { .. } => {},
            _ => {
                let it = prog.items[i].dup();
                kept.push(it);
                assert(kept.deep_view() =~= before.push(it@));
            },
        }
        i += 1;
    }
    prog.items = kept;
    Ok(())
}

/// Whether an item is neither a module header nor an import.
pub open spec fn plain_item(it: TopLevelV) -> bool {
    !(it is Module) && !(it is Import)
}

/// Whether no item is a module header or an import.
pub open spec fn flat(items: Seq<TopLevelV>) -> bool {
    forall|i: int| 0 <= i < items.len() ==> plain_item(#[trigger] items[i])
}

proof fn lemma_split_flat(
    items: Seq<TopLevelV>,
    i: int,
    imports: Seq<ImportRequestV>,
    kept: Seq<TopLevelV>,
)
    requires
        flat(kept),
    ensures
        split_from(items, i, imports, kept) matches Ok((_, k)) ==> flat(k),
    decreases items.len() - i,
{
    if 0 <= i < items.len() {
        match items[i] {
            TopLevelV::Module { name, span } => lemma_split_flat(items, i + 1, imports, kept),
            TopLevelV::Import { name, span } => lemma_split_flat(
                items,
                i + 1,
                imports.push(ImportRequestV { name, span }),
                kept,
            ),
            other => lemma_split_flat(items, i + 1, imports, kept.push(other)),
        }
    }
}

proof fn lemma_prefixed_flat(module: Seq<char>, items: Seq<TopLevelV>)
    requires
        flat(items),
    ensures
        flat(prefix::prefixed_items(module, items)),
{
    let out = prefix::prefixed_items(module, items);
    assert forall|i: int| 0 <= i < out.len() implies plain_item(#[trigger] out[i]) by {
        assert(plain_item(items[i]));
    }
}

proof fn lemma_load_flat(
    files: FilesV,
    entry: Seq<char>,
    name: Seq<char>,
    from: Seq<char>,
    at: Span,
    stack: Seq<Seq<char>>,
    st: LoadV,
)
    requires
        flat(st.merged),
    ensures
        flat(load(files, entry, name, from, at, stack, st).st.merged),
        st.loaded.subset_of(load(files, entry, name, from, at, stack, st).st.loaded),
        st.merged.is_prefix_of(load(files, entry, name, from, at, stack, st).st.merged),
    decreases open_lookups(files, stack).len(), 0int,
{
    if !stack.contains(name) {
        if let Ok(file) = find(files, name, from, entry, at) {
            if !st.loaded.contains(file.key) {
                if let FileTextV::Text(src) = file.text {
                    if let Ok(p) = grammar::parse_text(src) {
                        let stem = match file.stem {
                            Some(s) => s,
                            None => name,
                        };
                        lemma_split_flat(p.items, 0, Seq::empty(), Seq::empty());
                        if let Ok(m) = split(p.items, stem) {
                            if m.name == name && files.dom().finite() {
                                lemma_fewer_lookups(files, stack, from, name);
                                lemma_load_all_flat(
                                    files,
                                    entry,
                                    m.imports,
                                    0,
                                    dir_of(file.parent, from),
                                    stack.push(name),
                                    st,
                                );
                                lemma_prefixed_flat(m.name, m.items);
                            }
                        }
                    }
                }
            }
        }
    }
}

proof fn lemma_load_all_flat(
    files: FilesV,
    entry: Seq<char>,
    imports: Seq<ImportRequestV>,
    i: int,
    from: Seq<char>,
    stack: Seq<Seq<char>>,
    st: LoadV,
)
    requires
        flat(st.merged),
    ensures
        flat(load_all(files, entry, imports, i, from, stack, st).st.merged),
        st.loaded.subset_of(load_all(files, entry, imports, i, from, stack, st).st.loaded),
        st.merged.is_prefix_of(load_all(files, entry, imports, i, from, stack, st).st.merged),
    decreases open_lookups(files, stack).len(), imports.len() - i,
{
    if 0 <= i < imports.len() {
        lemma_load_flat(files, entry, imports[i].name, from, imports[i].span, stack, st);
        let c = load(files, entry, imports[i].name, from, imports[i].span, stack, st);
        lemma_load_all_flat(files, entry, imports, i + 1, from, stack, c.st);
    }
}

/// A program that is resolved holds no module headers and no imports any more.
pub proof fn law_resolved_is_flat(p: ProgramV, e: EntryV, files: FilesV)
    ensures
        resolved(p, e, files).1 is None ==> flat(resolved(p, e, files).0.items),
{
    lemma_split_flat(p.items, 0, Seq::empty(), Seq::empty());
    if let Ok(m) = split(p.items, entry_name(e)) {
        let dir = dir_of(e.parent, "."@);
        let start = LoadV { loaded: Set::empty(), merged: Seq::empty() };
        lemma_load_all_flat(files, dir, m.imports, 0, dir, seq![m.name], start);
    }
}

/// What the entry file defines itself stands at the end of the resolved program, as
/// it was written; the imported modules stand before it.
pub proof fn law_entry_comes_last(p: ProgramV, e: EntryV, files: FilesV)
    ensures
        resolved(p, e, files).1 is None ==> split(p.items, entry_name(e)) is Ok && split(
            p.items,
            entry_name(e),
        )->Ok_0.items.is_suffix_of(resolved(p, e, files).0.items),
{
}

/// A module is merged once: importing it again, from wherever, changes nothing.
pub proof fn law_module_is_merged_once(
    files: FilesV,
    entry: Seq<char>,
    name: Seq<char>,
    from: Seq<char>,
    at: Span,
    stack: Seq<Seq<char>>,
    st: LoadV,
    again: Seq<char>,
    later: Span,
)
    requires
        load(files, entry, name, from, at, stack, st).r is Ok,
        find(files, name, again, entry, later) == find(files, name, from, entry, at),
    ensures
        ({
            let c = load(files, entry, name, from, at, stack, st);
            load(files, entry, name, again, later, stack, c.st) == c
        }),
{
}

/// A module that imports itself, directly or through others, is refused.
pub proof fn law_import_cycles_are_refused(
    files: FilesV,
    entry: Seq<char>,
    name: Seq<char>,
    from: Seq<char>,
    at: Span,
    stack: Seq<Seq<char>>,
    st: LoadV,
)
    requires
        stack.contains(name),
    ensures
        load(files, entry, name, from, at, stack, st).r == Err::<(), StopV>(
            StopV::Error(ResolveErrorV::Cycle(stack.push(name))),
        ),
{
}

/// A prompt accepts no import, and drops module headers.
pub proof fn law_prompt_takes_no_imports(items: Seq<TopLevelV>)
    ensures
        repl_items(items, 0, Seq::empty()) is None <==> exists|i: int|
            0 <= i < items.len() && #[trigger] items[i] is Import,
        repl_items(items, 0, Seq::empty()) matches Some(k) ==> flat(k),
{
    lemma_repl_items(items, 0, Seq::empty());
}

proof fn lemma_repl_items(items: Seq<TopLevelV>, i: int, kept: Seq<TopLevelV>)
    requires
        0 <= i,
        flat(kept),
    ensures
        repl_items(items, i, kept) is None <==> exists|j: int|
            i <= j < items.len() && #[trigger] items[j] is Import,
        repl_items(items, i, kept) matches Some(k) ==> flat(k),
    decreases items.len() - i,
{
    if i < items.len() {
        match items[i] {
            TopLevelV::Import { .. } => {},
            TopLevelV::Module { .. } => lemma_repl_items(items, i + 1, kept),
            other => lemma_repl_items(items, i + 1, kept.push(other)),
        }
    }
}

} // verus!
