//! A lexical scanner for a small programming language: it turns source text
//! into identifiers, integer and string literals, operators, delimiters and
//! keywords.
//!
//! Policies chosen where the language leaves room:
//! - keywords are recognised without regard to ASCII letter case (`LET` and
//!   `lEt` are the `let` keyword), while identifiers keep their spelling;
//! - space, tab, line feed and carriage return are all skipped between tokens.

pub mod laws;
pub mod lexer;
pub mod model;
pub mod parser;
pub mod text;
pub mod types;
