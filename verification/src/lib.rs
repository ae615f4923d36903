//! A small interpreter for a parenthesised, Lisp-like expression language:
//! a lexer that turns source text into a token stream, a recursive-descent
//! parser from tokens to an expression tree, and a tree-walking evaluator
//! over a mutable binding environment.

pub mod ast;
pub mod env;
pub mod error;
pub mod eval;
pub mod file;
pub mod helpers;
pub mod lexer;
pub mod number;
pub mod operation;
pub mod parser;
pub mod repl;
pub mod stack;
pub mod token;
