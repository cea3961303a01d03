//! A small Lisp: a tokenizer, a parser and an evaluator with lexical scoping
//! and first-class closures.
//!
//! Numbers are binary64 values, held here as their bit patterns. The library
//! compares, negates and classifies them itself; it leaves reading a numeral,
//! rounding arithmetic and writing a number to its host, and says exactly
//! what it asks of the host and what it does with each answer.
//!
//! A host goes through three stages. The [`tokenizer`] turns text into
//! lexemes; the host reads the value of each numeral, which makes the
//! lexemes tokens. The [`parser`] turns tokens into expressions. The
//! [`evaluator`] is started on the expressions and then run: each run ends
//! with what the evaluator asks of the host, an operation to carry out, a
//! line to write or a procedure of the host to call, or with the result of
//! the evaluation.

pub mod ast;
pub mod evaluator;
pub mod number;
pub mod parser;
pub mod text;
pub mod tokenizer;
