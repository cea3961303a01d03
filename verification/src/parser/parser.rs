//! The parser: recursive descent over the tokens of a program.

use vstd::prelude::*;
use crate::ast::{Expression, ExpressionView, lemma_list_view, views_of};
use crate::text::same_text;
use crate::tokenizer::token::{Token, TokenView, token_views};

verus! {

/// The failures of the parser.
#[derive(Debug, PartialEq)]
pub enum ParserError {
    /// The token that was found, and the kind of token that was expected.
    UnexpectedToken(Token, String),
    /// A right parenthesis without a left one, or a list that the input ends
    /// in.
    UnmatchedParenthesis,
    /// The tokens ended where an expression was expected.
    EndOfInput,
}

/// What a [`ParserError`] stands for.
pub enum ParserErrorView {
    UnexpectedToken(TokenView, Seq<char>),
    UnmatchedParenthesis,
    EndOfInput,
}

impl View for ParserError {
    type V = ParserErrorView;

    open spec fn view(&self) -> ParserErrorView {
        match self {
            ParserError::UnexpectedToken(t, s) => ParserErrorView::UnexpectedToken(t@, s@),
            ParserError::UnmatchedParenthesis => ParserErrorView::UnmatchedParenthesis,
            ParserError::EndOfInput => ParserErrorView::EndOfInput,
        }
    }
}

/// A parser over the tokens of one program.
#[derive(Debug)]
pub struct Parser {
    tokens: Vec<Token>,
    current_token_index: usize,
}

/// What a [`Parser`] stands for: the tokens, and how many of them are behind
/// it.
pub struct ParserView {
    pub tokens: Seq<TokenView>,
    pub index: int,
}

impl View for Parser {
    type V = ParserView;

    closed spec fn view(&self) -> ParserView {
        ParserView { tokens: token_views(self.tokens@), index: self.current_token_index as int }
    }
}

/// The token at an index, if there is one.
pub open spec fn token_at(tokens: Seq<TokenView>, index: int) -> Option<TokenView> {
    if 0 <= index < tokens.len() {
        Some(tokens[index])
    } else {
        None
    }
}

/// Two tokens are of one kind, whatever they hold.
pub open spec fn same_kind(a: TokenView, b: TokenView) -> bool {
    match (a, b) {
        (TokenView::LeftParen, TokenView::LeftParen) => true,
        (TokenView::RightParen, TokenView::RightParen) => true,
        (TokenView::Identifier(_), TokenView::Identifier(_)) => true,
        (TokenView::String(_), TokenView::String(_)) => true,
        (TokenView::Number(_), TokenView::Number(_)) => true,
        (TokenView::Eof, TokenView::Eof) => true,
        _ => false,
    }
}

/// The token holds nothing: it is a parenthesis or the end token.
pub open spec fn is_bare(token: TokenView) -> bool {
    token is LeftParen || token is RightParen || token is Eof
}

/// The name of the kind of a token.
pub open spec fn kind_name(token: TokenView) -> Seq<char> {
    match token {
        TokenView::LeftParen => "LeftParen"@,
        TokenView::RightParen => "RightParen"@,
        TokenView::Identifier(_) => "Identifier"@,
        TokenView::String(_) => "String"@,
        TokenView::Number(_) => "Number"@,
        TokenView::Eof => "Eof"@,
    }
}

/// The expression of a word: `true` and `false` are the booleans, every
/// other word is an identifier.
pub open spec fn word_expression(word: Seq<char>) -> ExpressionView {
    if word == "true"@ {
        ExpressionView::Boolean(true)
    } else if word == "false"@ {
        ExpressionView::Boolean(false)
    } else {
        ExpressionView::Identifier(word)
    }
}

/// The expression that starts at `index`, with the index behind it; or the
/// failure, with the index at which it was met. A number, a string or a word
/// is an expression of its own. A left parenthesis starts a list, which goes
/// up to the right parenthesis that matches it. No expression starts with a
/// right parenthesis, with the end token, or behind the last token.
pub open spec fn expression_at(tokens: Seq<TokenView>, index: int) -> (
    Result<ExpressionView, ParserErrorView>,
    int,
)
    decreases tokens.len() - index, 0int,
{
    match token_at(tokens, index) {
        None => (Err(ParserErrorView::EndOfInput), index),
        Some(TokenView::Number(n)) => (Ok(ExpressionView::Number(n)), index + 1),
        Some(TokenView::String(s)) => (Ok(ExpressionView::String(s)), index + 1),
        Some(TokenView::Identifier(word)) => (Ok(word_expression(word)), index + 1),
        Some(TokenView::LeftParen) => match elements_at(tokens, index + 1, Seq::empty()) {
            (Ok(elements), next) => (Ok(ExpressionView::List(elements)), next),
            (Err(e), at) => (Err(e), at),
        },
        Some(TokenView::RightParen) => (Err(ParserErrorView::UnmatchedParenthesis), index),
        Some(TokenView::Eof) => (Err(ParserErrorView::EndOfInput), index),
    }
}

/// The elements of a list from `index` on, after those of `found`, with the
/// index behind the right parenthesis that ends the list. A list that meets
/// the end token first is not closed.
pub open spec fn elements_at(tokens: Seq<TokenView>, index: int, found: Seq<ExpressionView>) -> (
    Result<Seq<ExpressionView>, ParserErrorView>,
    int,
)
    decreases tokens.len() - index, 1int,
{
    match token_at(tokens, index) {
        Some(TokenView::RightParen) => (Ok(found), index + 1),
        Some(TokenView::Eof) => (Err(ParserErrorView::UnmatchedParenthesis), index),
        _ => match expression_at(tokens, index) {
            (Err(e), at) => (Err(e), at),
            (Ok(element), next) => if index < next <= tokens.len() {
                elements_at(tokens, next, found.push(element))
            } else {
                (Err(ParserErrorView::EndOfInput), next)
            },
        },
    }
}

/// The expressions of a program from `index` on, after those of `found`, up
/// to the end token or the last token, with the index at which they end.
pub open spec fn program_at(tokens: Seq<TokenView>, index: int, found: Seq<ExpressionView>) -> (
    Result<Seq<ExpressionView>, ParserErrorView>,
    int,
)
    decreases tokens.len() - index,
{
    match token_at(tokens, index) {
        None => (Ok(found), index),
        Some(TokenView::Eof) => (Ok(found), index),
        _ => match expression_at(tokens, index) {
            (Err(e), at) => (Err(e), at),
            (Ok(expression), next) => if index < next <= tokens.len() {
                program_at(tokens, next, found.push(expression))
            } else {
                (Ok(found.push(expression)), next)
            },
        },
    }
}

/// An expression takes at least one token and ends inside the tokens; a
/// failure is met at the index or behind it, and inside the tokens.
pub proof fn lemma_expression_advances(tokens: Seq<TokenView>, index: int)
    requires
        0 <= index <= tokens.len(),
    ensures
        index <= expression_at(tokens, index).1 <= tokens.len(),
        expression_at(tokens, index).0 is Ok ==> index < expression_at(tokens, index).1,
    decreases tokens.len() - index, 0int,
{
    if token_at(tokens, index) == Some(TokenView::LeftParen) {
        lemma_elements_advance(tokens, index + 1, Seq::empty());
    }
}

/// The elements of a list end inside the tokens, behind the index.
pub proof fn lemma_elements_advance(
    tokens: Seq<TokenView>,
    index: int,
    found: Seq<ExpressionView>,
)
    requires
        0 <= index <= tokens.len(),
    ensures
        index <= elements_at(tokens, index, found).1 <= tokens.len(),
        elements_at(tokens, index, found).0 is Ok ==> index < elements_at(tokens, index, found).1,
    decreases tokens.len() - index, 1int,
{
    match token_at(tokens, index) {
        Some(TokenView::RightParen) => {},
        Some(TokenView::Eof) => {},
        _ => {
            lemma_expression_advances(tokens, index);
            match expression_at(tokens, index) {
                (Err(e), at) => {},
                (Ok(element), next) => {
                    if index < next <= tokens.len() {
                        lemma_elements_advance(tokens, next, found.push(element));
                    }
                },
            }
        },
    }
}

fn name_of_kind(token: &Token) -> (r: String)
    requires
        is_bare(token@),
    ensures
        r@ == kind_name(token@),
{
    match token {
        Token::LeftParen => String::from_str("LeftParen"),
        Token::RightParen => String::from_str("RightParen"),
        Token::Identifier(_) => String::from_str("Identifier"),
        Token::String(_) => String::from_str("String"),
        Token::Number(_) => String::from_str("Number"),
        Token::Eof => String::from_str("Eof"),
    }
}

fn of_same_kind(a: &Token, b: &Token) -> (r: bool)
    ensures
        r == same_kind(a@, b@),
{
    match (a, b) {
        (Token::LeftParen, Token::LeftParen) => true,
        (Token::RightParen, Token::RightParen) => true,
        (Token::Identifier(_), Token::Identifier(_)) => true,
        (Token::String(_), Token::String(_)) => true,
        (Token::Number(_), Token::Number(_)) => true,
        (Token::Eof, Token::Eof) => true,
        _ => false,
    }
}

impl Parser {
    /// A parser at the first of `tokens`.
    pub fn new(tokens: Vec<Token>) -> (r: Parser)
        ensures
            r@ == (ParserView { tokens: token_views(tokens@), index: 0 }),
    {
        Parser { tokens, current_token_index: 0 }
    }

    /// The index is a number that can be counted: it is never negative and
    /// never beyond the greatest index, and neither is the number of tokens.
    pub proof fn lemma_index_is_bounded(&self)
        ensures
            0 <= self@.index <= usize::MAX,
            self@.tokens.len() <= usize::MAX,
    {
        assert(self.tokens.len() <= usize::MAX);
    }

    /// Parses the expressions from the index on, up to the end token or the
    /// last token.
    pub fn parse(&mut self) -> (r: Result<Vec<Expression>, ParserError>)
        ensures
            final(self)@.tokens == old(self)@.tokens,
            final(self)@.index == program_at(old(self)@.tokens, old(self)@.index, Seq::empty()).1,
            match program_at(old(self)@.tokens, old(self)@.index, Seq::empty()).0 {
                Ok(program) => r matches Ok(got) && views_of(got@) == program,
                Err(e) => r matches Err(got) && got@ == e,
            },
    {
        let mut program: Vec<Expression> = Vec::new();
        assert(views_of(program@) =~= Seq::empty());
        loop
            invariant
                self@.tokens == old(self)@.tokens,
                program_at(self@.tokens, self@.index, views_of(program@)) == program_at(
                    old(self)@.tokens,
                    old(self)@.index,
                    Seq::empty(),
                ),
            decreases self@.tokens.len() - self@.index,
        {
            if self.current_token_index >= self.tokens.len() || self.check(&Token::Eof) {
                return Ok(program);
            }
            proof {
                lemma_expression_advances(self@.tokens, self@.index);
            }
            let ghost found = views_of(program@);
            match self.parse_expression() {
                Ok(expression) => {
                    program.push(expression);
                    assert(views_of(program@) =~= found.push(expression@));
                },
                Err(e) => {
                    return Err(e);
                },
            }
        }
    }

    /// The token at the index; behind the last token the input has ended.
    fn current_token(&self) -> (r: Result<&Token, ParserError>)
        ensures
            match token_at(self@.tokens, self@.index) {
                Some(t) => r matches Ok(got) && got@ == t,
                None => r matches Err(e) && e@ == ParserErrorView::EndOfInput,
            },
    {
        if self.current_token_index < self.tokens.len() {
            Ok(&self.tokens[self.current_token_index])
        } else {
            Err(ParserError::EndOfInput)
        }
    }

    /// Goes past the token at the index; behind the last token the input has
    /// ended.
    fn advance(&mut self) -> (r: Result<(), ParserError>)
        ensures
            final(self)@.tokens == old(self)@.tokens,
            final(self)@.index == if r is Ok {
                old(self)@.index + 1
            } else {
                old(self)@.index
            },
            r is Ok == (token_at(old(self)@.tokens, old(self)@.index) is Some),
            r matches Err(e) ==> e@ == ParserErrorView::EndOfInput,
    {
        if self.current_token_index < self.tokens.len() {
            self.current_token_index = self.current_token_index + 1;
            Ok(())
        } else {
            Err(ParserError::EndOfInput)
        }
    }

    /// Goes past the token at the index if it is of the kind of `expected`,
    /// which is a parenthesis or the end token, and fails with the token that
    /// is there if it is of another kind.
    fn consume(&mut self, expected: &Token) -> (r: Result<(), ParserError>)
        requires
            is_bare(expected@),
        ensures
            final(self)@.tokens == old(self)@.tokens,
            final(self)@.index == if r is Ok {
                old(self)@.index + 1
            } else {
                old(self)@.index
            },
            match token_at(old(self)@.tokens, old(self)@.index) {
                None => r matches Err(e) && e@ == ParserErrorView::EndOfInput,
                Some(t) => if same_kind(t, expected@) {
                    r is Ok
                } else {
                    r matches Err(e) && e@ == ParserErrorView::UnexpectedToken(
                        t,
                        kind_name(expected@),
                    )
                },
            },
    {
        let current = self.current_token()?.clone();
        if of_same_kind(&current, expected) {
            self.advance()
        } else {
            Err(ParserError::UnexpectedToken(current, name_of_kind(expected)))
        }
    }

    /// Whether the token at the index is of the kind of `expected`.
    fn check(&self, expected: &Token) -> (r: bool)
        ensures
            r == match token_at(self@.tokens, self@.index) {
                Some(t) => same_kind(t, expected@),
                None => false,
            },
    {
        match self.current_token() {
            Ok(current) => of_same_kind(current, expected),
            Err(_) => false,
        }
    }

    /// Parses the expression that starts at the index.
    fn parse_expression(&mut self) -> (r: Result<Expression, ParserError>)
        ensures
            final(self)@.tokens == old(self)@.tokens,
            final(self)@.index == expression_at(old(self)@.tokens, old(self)@.index).1,
            match expression_at(old(self)@.tokens, old(self)@.index).0 {
                Ok(expression) => r matches Ok(got) && got@ == expression,
                Err(e) => r matches Err(got) && got@ == e,
            },
        decreases old(self)@.tokens.len() - old(self)@.index, 1int,
    {
        if self.current_token_index >= self.tokens.len() {
            return Err(ParserError::EndOfInput);
        }
        match &self.tokens[self.current_token_index] {
            Token::Number(n) => {
                let value = *n;
                self.current_token_index = self.current_token_index + 1;
                Ok(Expression::Number(value))
            },
            Token::String(s) => {
                let value = s.clone();
                self.current_token_index = self.current_token_index + 1;
                Ok(Expression::String(value))
            },
            Token::Identifier(word) => {
                let value = word.clone();
                self.current_token_index = self.current_token_index + 1;
                if same_text(value.as_str(), "true") {
                    Ok(Expression::Boolean(true))
                } else if same_text(value.as_str(), "false") {
                    Ok(Expression::Boolean(false))
                } else {
                    Ok(Expression::Identifier(value))
                }
            },
            Token::LeftParen => self.parse_list_expression(),
            Token::RightParen => Err(ParserError::UnmatchedParenthesis),
            Token::Eof => Err(ParserError::EndOfInput),
        }
    }

    /// Parses the list whose left parenthesis is at the index.
    fn parse_list_expression(&mut self) -> (r: Result<Expression, ParserError>)
        requires
            token_at(old(self)@.tokens, old(self)@.index) == Some(TokenView::LeftParen),
        ensures
            final(self)@.tokens == old(self)@.tokens,
            final(self)@.index == expression_at(old(self)@.tokens, old(self)@.index).1,
            match expression_at(old(self)@.tokens, old(self)@.index).0 {
                Ok(expression) => r matches Ok(got) && got@ == expression,
                Err(e) => r matches Err(got) && got@ == e,
            },
        decreases old(self)@.tokens.len() - old(self)@.index, 0int,
    {
        match self.consume(&Token::LeftParen) {
            Ok(()) => {},
            Err(e) => {
                return Err(e);
            },
        }
        let ghost start = self@.index;
        let mut elements: Vec<Expression> = Vec::new();
        assert(views_of(elements@) =~= Seq::empty());
        loop
            invariant_except_break
                self@.tokens == old(self)@.tokens,
                token_at(old(self)@.tokens, old(self)@.index) == Some(TokenView::LeftParen),
                start == old(self)@.index + 1,
                start <= self@.index <= self@.tokens.len(),
                elements_at(self@.tokens, self@.index, views_of(elements@)) == elements_at(
                    self@.tokens,
                    start,
                    Seq::empty(),
                ),
            ensures
                self@.tokens == old(self)@.tokens,
                start == old(self)@.index + 1,
                token_at(self@.tokens, self@.index) == Some(TokenView::RightParen),
                elements_at(self@.tokens, self@.index, views_of(elements@)) == elements_at(
                    self@.tokens,
                    start,
                    Seq::empty(),
                ),
            decreases self@.tokens.len() - self@.index,
        {
            if self.check(&Token::RightParen) {
                break ;
            }
            if self.check(&Token::Eof) {
                return Err(ParserError::UnmatchedParenthesis);
            }
            proof {
                lemma_expression_advances(self@.tokens, self@.index);
            }
            let ghost found = views_of(elements@);
            match self.parse_expression() {
                Ok(element) => {
                    elements.push(element);
                    assert(views_of(elements@) =~= found.push(element@));
                },
                Err(e) => {
                    return Err(e);
                },
            }
        }
        match self.consume(&Token::RightParen) {
            Ok(()) => {},
            Err(e) => {
                return Err(e);
            },
        }
        proof {
            lemma_list_view(elements);
        }
        Ok(Expression::List(elements))
    }
}

} // verus!
