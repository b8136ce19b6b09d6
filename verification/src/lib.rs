//! A compiler front end for a small imperative language: a tokenizer, a
//! bracket grouper, a pattern-based grammar rule engine, a scope model that
//! hands out storage slots, and an expression tree that emits assembly for a
//! stack-augmented register machine.

pub mod error;
pub mod expression;
pub mod frame;
pub mod function;
pub mod labels;
pub mod lexer;
pub mod mips;
pub mod parser;
pub mod pattern;
pub mod rules;
pub mod token;
