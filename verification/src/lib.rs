//! A small expression language: a scanner that turns source text into tokens,
//! a recursive-descent parser that builds a syntax tree from them, and an
//! evaluator that walks the tree.
//!
//! Numbers are IEEE-754 doubles, held everywhere by their 64-bit patterns.
//! Comparing, negating and testing them is done here on the bits; rounding
//! arithmetic and the reading of numerals are handed in by the caller.

pub mod error;
pub mod expr;
pub mod grammar;
pub mod interpreter;
pub mod lexical;
pub mod lox;
pub mod number;
pub mod parser;
pub mod scanner;
pub mod text;
pub mod token;
pub mod token_type;
