//! A tokenizer, a precedence-climbing parser, a canonical printer and an
//! evaluator for a small expression language, with their contracts proved.
pub mod ast;
pub mod evaluator;
pub mod grammar;
pub mod lexer;
pub mod object;
pub mod parser;
pub mod repl;
pub mod roundtrip;
pub mod token;
