//! A small typed expression language: a lexer, a recursive-descent parser and
//! a tree-walking evaluator over one flat table of variables.

pub mod ast;
pub mod grammar;
pub mod integer_expressions;
pub mod interpreter;
pub mod lexer;
pub mod parser;
pub mod pipeline;
pub mod token;
pub mod types;
