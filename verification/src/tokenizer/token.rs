//! Tokens, and the lexemes they are made from.

use vstd::prelude::*;
use crate::number::Number;

verus! {

/// One token of a program.
#[derive(Debug, PartialEq)]
pub enum Token {
    LeftParen,
    RightParen,
    /// A word: a name, an operator, `true` or `false`.
    Identifier(String),
    /// The characters between two double quotes.
    String(String),
    Number(Number),
    /// The end of the input.
    Eof,
}

/// What a [`Token`] stands for.
pub enum TokenView {
    LeftParen,
    RightParen,
    Identifier(Seq<char>),
    String(Seq<char>),
    Number(Number),
    Eof,
}

impl View for Token {
    type V = TokenView;

    open spec fn view(&self) -> TokenView {
        match self {
            Token::LeftParen => TokenView::LeftParen,
            Token::RightParen => TokenView::RightParen,
            Token::Identifier(s) => TokenView::Identifier(s@),
            Token::String(s) => TokenView::String(s@),
            Token::Number(n) => TokenView::Number(*n),
            Token::Eof => TokenView::Eof,
        }
    }
}

/// The views of a sequence of tokens, in order.
pub open spec fn token_views(items: Seq<Token>) -> Seq<TokenView> {
    Seq::new(items.len(), |i: int| items[i]@)
}

impl Clone for Token {
    fn clone(&self) -> (r: Token)
        ensures
            r@ == self@,
    {
        match self {
            Token::LeftParen => Token::LeftParen,
            Token::RightParen => Token::RightParen,
            Token::Identifier(s) => Token::Identifier(s.clone()),
            Token::String(s) => Token::String(s.clone()),
            Token::Number(n) => Token::Number(*n),
            Token::Eof => Token::Eof,
        }
    }
}

/// The failures of the tokenizer, each with the position of the character
/// at which the token in question starts.
#[derive(Clone, Copy, Debug, PartialEq, Eq)]
pub enum TokenizerError {
    UnexpectedCharacter(char, usize),
    UnterminatedString(usize),
    MalformedNumber(usize),
}

/// What the tokenizer finds in the text: a token, or a numeral, which
/// becomes a number token once the host has read its value.
#[derive(Debug, PartialEq)]
pub enum Lexeme {
    Token(Token),
    /// Digits, or digits, a point and digits, as they stand in the text, and
    /// the position of the first digit.
    Numeral { text: String, position: usize },
}

/// What a [`Lexeme`] stands for.
pub enum LexemeView {
    Token(TokenView),
    Numeral { text: Seq<char>, position: usize },
}

impl View for Lexeme {
    type V = LexemeView;

    open spec fn view(&self) -> LexemeView {
        match self {
            Lexeme::Token(t) => LexemeView::Token(t@),
            Lexeme::Numeral { text, position } => LexemeView::Numeral {
                text: text@,
                position: *position,
            },
        }
    }
}

/// The views of a sequence of lexemes, in order.
pub open spec fn lexeme_views(items: Seq<Lexeme>) -> Seq<LexemeView> {
    Seq::new(items.len(), |i: int| items[i]@)
}

impl LexemeView {
    /// The token of the lexeme, given what the host read from a numeral: the
    /// value, or nothing where the numeral has none.
    pub open spec fn resolved(self, value: Option<Number>) -> Result<TokenView, TokenizerError> {
        match self {
            LexemeView::Token(t) => Ok(t),
            LexemeView::Numeral { text, position } => match value {
                Some(n) => Ok(TokenView::Number(n)),
                None => Err(TokenizerError::MalformedNumber(position)),
            },
        }
    }
}

impl Lexeme {
    /// Makes the token of the lexeme. A token stays as it is, whatever
    /// `value` is. A numeral becomes the number token of `value`; a numeral
    /// without a value is malformed.
    pub fn resolve(self, value: Option<Number>) -> (r: Result<Token, TokenizerError>)
        ensures
            match self@.resolved(value) {
                Ok(t) => r matches Ok(got) && got@ == t,
                Err(e) => r == Err::<Token, TokenizerError>(e),
            },
    {
        match self {
            Lexeme::Token(t) => Ok(t),
            Lexeme::Numeral { text, position } => match value {
                Some(n) => Ok(Token::Number(n)),
                None => Err(TokenizerError::MalformedNumber(position)),
            },
        }
    }
}

} // verus!
