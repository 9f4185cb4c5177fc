//! Risp: a small Lisp with static types.
pub mod ast;
pub mod blame;
pub mod blocks;
pub mod calls;
pub mod codegen;
pub mod collected;
pub mod declared;
pub mod diagnostic;
pub mod driver;
pub mod emit;
pub mod emit_calls;
pub mod emit_fns;
pub mod expansion;
pub mod fitting;
pub mod forms;
pub mod grammar;
pub mod instances;
pub mod ir;
pub mod lexer;
pub mod lowering;
pub mod machine;
pub mod macroexpand;
pub mod correctness;
pub mod meaning;
pub mod parser;
pub mod places;
pub mod prefix;
pub mod progress;
pub mod reading;
pub mod repl;
pub mod resolve;
pub mod rewriting;
pub mod scopes;
pub mod scripts;
pub mod sim_lets;
pub mod sim_loops;
pub mod sim_fields;
pub mod sim_calls;
pub mod sim_exprs;
pub mod sim_ifs;
pub mod sim_dos;
pub mod sim_casts;
pub mod sim_binds;
pub mod sim_shorts;
pub mod sim_texts;
pub mod sim_makers;
pub mod sim_ariths;
pub mod simulation;
pub mod spelling;
pub mod symbols;
pub mod table;
pub mod text;
pub mod typeck;
pub mod typed;
pub mod typing;
pub mod written;
