//! A small dynamically typed scripting language: lexer, parser and the
//! decision core of its tree-walking evaluator.

pub mod error;
pub mod grammar;
pub mod interpreter;
pub mod parser;
pub mod rpn;
pub mod text;
pub mod tokenizer;
