//! From text to tokens.

pub mod token;
pub mod tokenizer;

pub use self::token::{Lexeme, Token};
pub use self::tokenizer::{Tokenizer, TokenizerError};
