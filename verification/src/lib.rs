//! A rule-driven parsing front end: a composable lexical pipeline that turns
//! raw text into a token stream, and a shift-reduce grammar engine that turns
//! a token stream into a parse tree by greedily matching trailing runs of a
//! working stack against declarative substitution rules.

pub mod ids;
pub mod rule;
pub mod grammar;
pub mod lexer;
pub mod token;
pub mod ast;
pub mod lexer_modules;
pub mod ast_parser;
pub mod parser;
