use lisp::ast::Expression;
use lisp::number::Number;
use lisp::parser::{Parser, ParserError};
use lisp::tokenizer::Token;

fn number(x: f64) -> Number {
    Number::from_bits(x.to_bits())
}

fn word(s: &str) -> Token {
    Token::Identifier(s.to_string())
}

fn name(s: &str) -> Expression {
    Expression::Identifier(s.to_string())
}

fn parse(tokens: Vec<Token>) -> Result<Vec<Expression>, ParserError> {
    Parser::new(tokens).parse()
}

#[test]
fn no_tokens_are_an_empty_program() {
    assert_eq!(parse(vec![]), Ok(vec![]));
    assert_eq!(parse(vec![Token::Eof]), Ok(vec![]));
}

#[test]
fn atoms_are_parsed() {
    let tokens = vec![
        Token::Number(number(1.5)),
        Token::String("s".to_string()),
        word("x"),
        word("true"),
        word("false"),
        word("+"),
        Token::Eof,
    ];
    assert_eq!(parse(tokens), Ok(vec![
        Expression::Number(number(1.5)),
        Expression::String("s".to_string()),
        name("x"),
        Expression::Boolean(true),
        Expression::Boolean(false),
        name("+"),
    ]));
}

#[test]
fn words_that_hold_true_are_identifiers() {
    assert_eq!(parse(vec![word("truely"), word("True"), Token::Eof]), Ok(vec![
        name("truely"),
        name("True"),
    ]));
}

#[test]
fn a_string_that_reads_true_is_a_string() {
    assert_eq!(parse(vec![Token::String("true".to_string()), Token::Eof]), Ok(vec![
        Expression::String("true".to_string()),
    ]));
}

#[test]
fn lists_nest() {
    let tokens = vec![
        Token::LeftParen,
        word("f"),
        Token::LeftParen,
        Token::RightParen,
        Token::LeftParen,
        word("g"),
        Token::Number(number(2.0)),
        Token::RightParen,
        Token::RightParen,
        word("y"),
        Token::Eof,
    ];
    assert_eq!(parse(tokens), Ok(vec![
        Expression::List(vec![
            name("f"),
            Expression::List(vec![]),
            Expression::List(vec![name("g"), Expression::Number(number(2.0))]),
        ]),
        name("y"),
    ]));
}

#[test]
fn parsing_stops_at_the_end_token() {
    assert_eq!(parse(vec![word("a"), Token::Eof, word("b")]), Ok(vec![name("a")]));
}

#[test]
fn tokens_without_an_end_token_are_a_program() {
    assert_eq!(parse(vec![word("a"), word("b")]), Ok(vec![name("a"), name("b")]));
}

#[test]
fn a_right_parenthesis_alone_is_unmatched() {
    assert_eq!(parse(vec![Token::RightParen, Token::Eof]), Err(ParserError::UnmatchedParenthesis));
    assert_eq!(
        parse(vec![Token::LeftParen, Token::RightParen, Token::RightParen, Token::Eof]),
        Err(ParserError::UnmatchedParenthesis)
    );
}

#[test]
fn an_open_list_is_unmatched() {
    assert_eq!(
        parse(vec![Token::LeftParen, word("a"), Token::Eof]),
        Err(ParserError::UnmatchedParenthesis)
    );
    assert_eq!(
        parse(vec![Token::LeftParen, Token::LeftParen, Token::RightParen, Token::Eof]),
        Err(ParserError::UnmatchedParenthesis)
    );
}

#[test]
fn an_open_list_without_an_end_token_ends_the_input() {
    assert_eq!(parse(vec![Token::LeftParen, word("a")]), Err(ParserError::EndOfInput));
    assert_eq!(parse(vec![Token::LeftParen]), Err(ParserError::EndOfInput));
}

#[test]
fn parse_goes_on_from_where_it_stopped() {
    let mut parser = Parser::new(vec![word("a"), Token::Eof]);
    assert_eq!(parser.parse(), Ok(vec![name("a")]));
    assert_eq!(parser.parse(), Ok(vec![]));
}
