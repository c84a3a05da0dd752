//! Front end of a single-pass compiler for a small C-like language:
//! a scanner, a scoped symbol table, the type and cast rules, and a
//! recursive-descent parser that checks types while it recognises the grammar.

pub mod token;
pub mod lexis;
pub mod lexer;
pub mod symbols;
pub mod rules;
pub mod grammar;
pub mod parser;
pub mod expr;
pub mod stm;
pub mod decl;
pub mod diagnostic;
pub mod laws;
pub mod progress;
pub mod vm;
