//! A statement-level recursive-descent parser for a Python-like language.
//!
//! The parser reads a sequence of positioned tokens and builds a module AST.
//! The grammar is stated as spec functions in `grammar`; the executable
//! parsers in `parser` are proved to compute exactly what the grammar says.
pub mod ast;
pub mod grammar;
pub mod laws;
pub mod parser;
pub mod token;
