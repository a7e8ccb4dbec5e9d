//! An interpreter for the Ethereal scripting language: a lexer, a
//! precedence-climbing parser and a tree-walking evaluator over chained
//! lexical scopes, each stated against a mathematical model and proved.

pub mod text;
pub mod token;
pub mod lexer;
pub mod ast;
pub mod parser;
pub mod evaluation;
pub mod std_library;
pub mod interpreter;
pub mod laws;
