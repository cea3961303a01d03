//! From tokens to expressions.

pub mod parser;

pub use self::parser::{Parser, ParserError};
