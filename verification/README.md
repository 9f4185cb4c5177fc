# Risp

A compiler for Risp, a small Lisp with static types. The library under `src/` is written in
Verus: every function has a contract, and Verus proves all but those of four small items in `text`,
which stand for what `std` does with texts and are believed as they are written.

- `text`, `table`: texts and tables.
- `ast`, `ir`: the syntax tree, and the builder scripts that a program is compiled to.
- `lexer`, `grammar`, `parser`: from text to syntax tree.
- `macroexpand`, `prefix`, `resolve`: macros, module prefixes and imports.
- `typing`, `typeck`, `forms`, `calls`, `instances`, `collected`: the type checker. `typing` holds
  the rules, `instances` bounds the instances of generic functions.
- `lowering`, `codegen`, `emit`, `emit_calls`, `emit_fns`: the code generator. `lowering` holds the
  rules.
- `diagnostic`, `driver`, `repl`: reports, the pipeline and the interactive session.
- `places`, `blame`, `typed`, `symbols`, `fitting`, `declared`, `scripts`, `scopes`, `progress`: laws
  of the library as a whole. What is parsed and what is refused has a place in the text; what is
  accepted is well typed, and its `break`s have loops; symbols tell methods apart; the steps of a
  script refer to earlier steps only; an expression leaves the variables in scope as they were; an
  accepted program is lowered.

The code generator does not talk to LLVM. It writes a script, a list of steps for an instruction
builder, and `app/` carries the script out with `inkwell`. `app/` also holds the command line, the
search for the files of imported modules, and the prompt. Programs are linked with a small C run
time, `runtime/risp_rt.c`.
