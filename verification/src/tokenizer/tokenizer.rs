//! The tokenizer.

use vstd::prelude::*;
use crate::text::{is_whitespace, whitespace};
use crate::tokenizer::token::{Lexeme, LexemeView, Token, TokenView, lexeme_views};

pub use crate::tokenizer::token::TokenizerError;

verus! {

/// A tokenizer over the characters of one text.
#[derive(Debug)]
pub struct Tokenizer {
    current_position: usize,
    source: Vec<char>,
}

/// What a [`Tokenizer`] stands for: the characters, and the position, which
/// counts from the first character and can lie behind the last one.
pub struct TokenizerView {
    pub source: Seq<char>,
    pub position: int,
}

impl View for Tokenizer {
    type V = TokenizerView;

    closed spec fn view(&self) -> TokenizerView {
        TokenizerView { source: self.source@, position: self.current_position as int }
    }
}

/// The character at a position, if there is one.
pub open spec fn char_at(source: Seq<char>, position: int) -> Option<char> {
    if 0 <= position < source.len() {
        Some(source[position])
    } else {
        None
    }
}

/// The character is a decimal digit.
pub open spec fn is_digit(c: char) -> bool {
    '0' <= c && c <= '9'
}

/// The character can stand in a word: it is no white space, no parenthesis
/// and no double quote.
pub open spec fn is_word_char(c: char) -> bool {
    !whitespace(c) && c != '(' && c != ')' && c != '"'
}

/// The first position from `from` on whose character `keep` does not hold
/// of, or the end of the text.
pub open spec fn skip_while(source: Seq<char>, from: int, keep: spec_fn(char) -> bool) -> int
    decreases source.len() - from,
{
    if 0 <= from < source.len() && keep(source[from]) {
        skip_while(source, from + 1, keep)
    } else {
        from
    }
}

/// Where the numeral that starts at `start` ends: after its digits, and
/// after a point and further digits if the point is followed by a digit.
pub open spec fn numeral_end(source: Seq<char>, start: int) -> int {
    let whole = skip_while(source, start, |c: char| is_digit(c));
    if char_at(source, whole) == Some('.') && (char_at(source, whole + 1) matches Some(c)
        && is_digit(c)) {
        skip_while(source, whole + 1, |c: char| is_digit(c))
    } else {
        whole
    }
}

/// The next lexeme from `position` on, and the position behind it. White
/// space is skipped first. At the end of the text the lexeme is the end
/// token. A parenthesis is a token of its own. A double quote starts a
/// string, which ends before the next double quote; without one the string
/// is unterminated. A digit starts a numeral. Every other character starts a
/// word, which ends before the next white space, parenthesis or double
/// quote.
pub open spec fn scan(source: Seq<char>, position: int) -> (
    Result<LexemeView, TokenizerError>,
    int,
) {
    let start = skip_while(source, position, |c: char| whitespace(c));
    match char_at(source, start) {
        None => (Ok(LexemeView::Token(TokenView::Eof)), start),
        Some(c) => if c == '(' {
            (Ok(LexemeView::Token(TokenView::LeftParen)), start + 1)
        } else if c == ')' {
            (Ok(LexemeView::Token(TokenView::RightParen)), start + 1)
        } else if c == '"' {
            let close = skip_while(source, start + 1, |c: char| c != '"');
            if close < source.len() {
                (
                    Ok(LexemeView::Token(TokenView::String(source.subrange(start + 1, close)))),
                    close + 1,
                )
            } else {
                (Err(TokenizerError::UnterminatedString(start as usize)), close)
            }
        } else if is_digit(c) {
            let end = numeral_end(source, start);
            (
                Ok(
                    LexemeView::Numeral {
                        text: source.subrange(start, end),
                        position: start as usize,
                    },
                ),
                end,
            )
        } else {
            let end = skip_while(source, start, |c: char| is_word_char(c));
            (Ok(LexemeView::Token(TokenView::Identifier(source.subrange(start, end)))), end)
        },
    }
}

/// The lexemes from `position` on, after those of `found`, up to and with
/// the end token, and the position behind them; or the first failure, and
/// the position at which it was met.
pub open spec fn scan_all(source: Seq<char>, position: int, found: Seq<LexemeView>) -> (
    Result<Seq<LexemeView>, TokenizerError>,
    int,
)
    decreases source.len() - position,
{
    match scan(source, position) {
        (Err(e), at) => (Err(e), at),
        (Ok(lexeme), next) => if lexeme == LexemeView::Token(TokenView::Eof) || next <= position
            || next > source.len() {
            (Ok(found.push(lexeme)), next)
        } else {
            scan_all(source, next, found.push(lexeme))
        },
    }
}

/// Skipping goes forward and stops inside the text or at its end.
pub proof fn lemma_skip_while_bounds(source: Seq<char>, from: int, keep: spec_fn(char) -> bool)
    requires
        0 <= from <= source.len(),
    ensures
        from <= skip_while(source, from, keep) <= source.len(),
        forall|i: int| from <= i < skip_while(source, from, keep) ==> keep(#[trigger] source[i]),
        skip_while(source, from, keep) < source.len() ==> !keep(
            source[skip_while(source, from, keep)],
        ),
    decreases source.len() - from,
{
    if from < source.len() && keep(source[from]) {
        lemma_skip_while_bounds(source, from + 1, keep);
    }
}

/// Every lexeme but the end token takes at least one character, and none
/// goes beyond the end of the text.
pub proof fn lemma_scan_advances(source: Seq<char>, position: int)
    ensures
        position <= scan(source, position).1,
        scan(source, position).0 matches Ok(lexeme) && lexeme != LexemeView::Token(TokenView::Eof)
            ==> position < scan(source, position).1 <= source.len(),
{
    let start = skip_while(source, position, |c: char| whitespace(c));
    if 0 <= position <= source.len() {
        lemma_skip_while_bounds(source, position, |c: char| whitespace(c));
    }
    if 0 <= start < source.len() {
        let c = source[start];
        lemma_skip_while_bounds(source, start + 1, |c: char| c != '"');
        lemma_skip_while_bounds(source, start, |c: char| is_digit(c));
        let whole = skip_while(source, start, |c: char| is_digit(c));
        if whole + 1 <= source.len() {
            lemma_skip_while_bounds(source, whole + 1, |c: char| is_digit(c));
        }
        lemma_skip_while_bounds(source, start, |c: char| is_word_char(c));
        if is_digit(c) {
            assert(skip_while(source, start, |c: char| is_digit(c)) > start);
        } else if c != '(' && c != ')' && c != '"' {
            assert(is_word_char(c));
            assert(skip_while(source, start, |c: char| is_word_char(c)) > start);
        }
    }
}

impl Tokenizer {
    /// A tokenizer at the start of `input`.
    pub fn new(input: &str) -> (r: Tokenizer)
        ensures
            r@ == (TokenizerView { source: input@, position: 0 }),
    {
        let mut source: Vec<char> = Vec::new();
        for c in it: input.chars()
            invariant
                source@ == it.history(),
                it.seq() == input@,
        {
            source.push(c);
        }
        assert(source@ == input@);
        Tokenizer { current_position: 0, source }
    }

    /// The position is a number that can be counted: it is never negative
    /// and never beyond the greatest index.
    pub proof fn lemma_position_is_bounded(&self)
        ensures
            0 <= self@.position <= usize::MAX,
            self@.source.len() <= usize::MAX,
    {
        assert(self.source.len() <= usize::MAX);
    }

    /// The position: the index of the character that is read next.
    pub fn position(&self) -> (r: usize)
        ensures
            r == self@.position,
    {
        self.current_position
    }

    /// The character at the position of the tokenizer, if the text has not
    /// ended.
    pub fn current(&self) -> (r: Option<char>)
        ensures
            r == char_at(self@.source, self@.position),
    {
        if self.current_position < self.source.len() {
            Some(self.source[self.current_position])
        } else {
            None
        }
    }

    /// Returns the character at the position, if the text has not ended, and
    /// moves the position on by one. The position moves on also at the end of
    /// the text and behind it, where there is no character to return; it stays
    /// only where it is the greatest position that can be counted.
    pub fn advance(&mut self) -> (r: Option<char>)
        ensures
            r == char_at(old(self)@.source, old(self)@.position),
            final(self)@.source == old(self)@.source,
            final(self)@.position == if old(self)@.position < usize::MAX {
                old(self)@.position + 1
            } else {
                old(self)@.position
            },
    {
        let consumed = self.current();
        if self.current_position < usize::MAX {
            self.current_position = self.current_position + 1;
        }
        consumed
    }

    /// The character behind the one at the position, if there is one.
    pub fn peek(&self) -> (r: Option<char>)
        ensures
            r == char_at(self@.source, self@.position + 1),
    {
        if self.current_position < self.source.len() && self.current_position + 1
            < self.source.len() {
            Some(self.source[self.current_position + 1])
        } else {
            None
        }
    }

    /// Goes past the white space at the position.
    pub fn skip_whitespace(&mut self)
        ensures
            final(self)@.source == old(self)@.source,
            final(self)@.position == skip_while(
                old(self)@.source,
                old(self)@.position,
                |c: char| whitespace(c),
            ),
    {
        while self.current_position < self.source.len() && is_whitespace(
            self.source[self.current_position],
        )
            invariant
                self.source@ == old(self).source@,
                skip_while(self.source@, self.current_position as int, |c: char| whitespace(c))
                    == skip_while(
                    old(self).source@,
                    old(self).current_position as int,
                    |c: char| whitespace(c),
                ),
            decreases self.source@.len() - self.current_position,
        {
            self.current_position = self.current_position + 1;
        }
    }

    fn skip_digits(&mut self)
        ensures
            final(self)@.source == old(self)@.source,
            final(self)@.position == skip_while(
                old(self)@.source,
                old(self)@.position,
                |c: char| is_digit(c),
            ),
    {
        while self.current_position < self.source.len() && digit(
            self.source[self.current_position],
        )
            invariant
                self.source@ == old(self).source@,
                skip_while(self.source@, self.current_position as int, |c: char| is_digit(c))
                    == skip_while(
                    old(self).source@,
                    old(self).current_position as int,
                    |c: char| is_digit(c),
                ),
            decreases self.source@.len() - self.current_position,
        {
            self.current_position = self.current_position + 1;
        }
    }

    /// The characters from `from` up to the position, as a string.
    fn text_since(&self, from: usize) -> (r: String)
        requires
            from <= self.current_position <= self.source@.len(),
        ensures
            r@ == self.source@.subrange(from as int, self.current_position as int),
    {
        let mut text = String::new();
        let mut i: usize = from;
        while i < self.current_position
            invariant
                from <= i <= self.current_position <= self.source@.len(),
                text@ == self.source@.subrange(from as int, i as int),
            decreases self.current_position - i,
        {
            text.push(self.source[i]);
            i += 1;
            assert(text@ =~= self.source@.subrange(from as int, i as int));
        }
        text
    }

    /// Reads the string whose opening double quote is at the position.
    fn read_string(&mut self) -> (r: Result<Lexeme, TokenizerError>)
        requires
            char_at(old(self)@.source, old(self)@.position) == Some('"'),
        ensures
            final(self)@.source == old(self)@.source,
            ({
                let source = old(self)@.source;
                let start = old(self)@.position;
                let close = skip_while(source, start + 1, |c: char| c != '"');
                &&& final(self)@.position == if close < source.len() {
                    close + 1
                } else {
                    close
                }
                &&& if close < source.len() {
                    r matches Ok(lexeme) && lexeme@ == LexemeView::Token(
                        TokenView::String(source.subrange(start + 1, close)),
                    )
                } else {
                    r == Err::<Lexeme, TokenizerError>(
                        TokenizerError::UnterminatedString(start as usize),
                    )
                }
            }),
    {
        let start = self.current_position;
        proof {
            self.lemma_position_is_bounded();
        }
        self.current_position = self.current_position + 1;
        let content = self.current_position;
        proof {
            lemma_skip_while_bounds(self.source@, content as int, |c: char| c != '"');
        }
        while self.current_position < self.source.len() && self.source[self.current_position]
            != '"'
            invariant
                self.source@ == old(self).source@,
                content <= self.current_position <= self.source@.len(),
                skip_while(self.source@, self.current_position as int, |c: char| c != '"')
                    == skip_while(self.source@, content as int, |c: char| c != '"'),
            decreases self.source@.len() - self.current_position,
        {
            self.current_position = self.current_position + 1;
        }
        if self.current_position >= self.source.len() {
            return Err(TokenizerError::UnterminatedString(start));
        }
        let text = self.text_since(content);
        self.current_position = self.current_position + 1;
        Ok(Lexeme::Token(Token::String(text)))
    }

    /// Reads the numeral whose first digit is at the position.
    fn read_number(&mut self) -> (r: Lexeme)
        requires
            old(self)@.position <= old(self)@.source.len(),
        ensures
            final(self)@.source == old(self)@.source,
            final(self)@.position == numeral_end(old(self)@.source, old(self)@.position),
            r@ == (LexemeView::Numeral {
                text: old(self)@.source.subrange(old(self)@.position, final(self)@.position),
                position: old(self)@.position as usize,
            }),
    {
        let start = self.current_position;
        proof {
            self.lemma_position_is_bounded();
            lemma_skip_while_bounds(self.source@, start as int, |c: char| is_digit(c));
        }
        self.skip_digits();
        let point = match self.current() {
            Some(c) => c == '.',
            None => false,
        };
        let fraction = match self.peek() {
            Some(c) => digit(c),
            None => false,
        };
        if point && fraction {
            proof {
                lemma_skip_while_bounds(
                    self.source@,
                    self.current_position + 1,
                    |c: char| is_digit(c),
                );
            }
            self.current_position = self.current_position + 1;
            self.skip_digits();
        }
        Lexeme::Numeral { text: self.text_since(start), position: start }
    }

    /// Reads the word whose first character is at the position.
    fn read_identifier(&mut self) -> (r: Lexeme)
        requires
            old(self)@.position <= old(self)@.source.len(),
        ensures
            final(self)@.source == old(self)@.source,
            final(self)@.position == skip_while(
                old(self)@.source,
                old(self)@.position,
                |c: char| is_word_char(c),
            ),
            r@ == LexemeView::Token(
                TokenView::Identifier(
                    old(self)@.source.subrange(old(self)@.position, final(self)@.position),
                ),
            ),
    {
        let start = self.current_position;
        proof {
            lemma_skip_while_bounds(self.source@, start as int, |c: char| is_word_char(c));
        }
        while self.current_position < self.source.len() && word_char(
            self.source[self.current_position],
        )
            invariant
                self.source@ == old(self).source@,
                start <= self.current_position <= self.source@.len(),
                skip_while(self.source@, self.current_position as int, |c: char| is_word_char(c))
                    == skip_while(self.source@, start as int, |c: char| is_word_char(c)),
            decreases self.source@.len() - self.current_position,
        {
            self.current_position = self.current_position + 1;
        }
        Lexeme::Token(Token::Identifier(self.text_since(start)))
    }

    /// Reads the next lexeme.
    pub fn next_token(&mut self) -> (r: Result<Lexeme, TokenizerError>)
        ensures
            final(self)@.source == old(self)@.source,
            final(self)@.position == scan(old(self)@.source, old(self)@.position).1,
            match scan(old(self)@.source, old(self)@.position).0 {
                Ok(lexeme) => r matches Ok(got) && got@ == lexeme,
                Err(e) => r == Err::<Lexeme, TokenizerError>(e),
            },
    {
        self.skip_whitespace();
        if self.current_position >= self.source.len() {
            return Ok(Lexeme::Token(Token::Eof));
        }
        let c = self.source[self.current_position];
        if c == '(' {
            self.current_position = self.current_position + 1;
            Ok(Lexeme::Token(Token::LeftParen))
        } else if c == ')' {
            self.current_position = self.current_position + 1;
            Ok(Lexeme::Token(Token::RightParen))
        } else if c == '"' {
            self.read_string()
        } else if digit(c) {
            Ok(self.read_number())
        } else {
            Ok(self.read_identifier())
        }
    }

    /// Reads the lexemes from the position on, up to and with the end token,
    /// or up to the first failure.
    pub fn tokenize(&mut self) -> (r: Result<Vec<Lexeme>, TokenizerError>)
        ensures
            final(self)@.source == old(self)@.source,
            final(self)@.position == scan_all(
                old(self)@.source,
                old(self)@.position,
                Seq::empty(),
            ).1,
            match scan_all(old(self)@.source, old(self)@.position, Seq::empty()).0 {
                Ok(lexemes) => r matches Ok(got) && lexeme_views(got@) == lexemes,
                Err(e) => r == Err::<Vec<Lexeme>, TokenizerError>(e),
            },
    {
        let mut lexemes: Vec<Lexeme> = Vec::new();
        assert(lexeme_views(lexemes@) =~= Seq::empty());
        loop
            invariant
                self.source@ == old(self).source@,
                scan_all(self.source@, self.current_position as int, lexeme_views(lexemes@))
                    == scan_all(old(self).source@, old(self).current_position as int, Seq::empty()),
            decreases self.source@.len() - self.current_position,
        {
            proof {
                lemma_scan_advances(self.source@, self.current_position as int);
            }
            let ghost found = lexeme_views(lexemes@);
            match self.next_token() {
                Err(e) => {
                    return Err(e);
                },
                Ok(lexeme) => {
                    let ended = match &lexeme {
                        Lexeme::Token(Token::Eof) => true,
                        _ => false,
                    };
                    lexemes.push(lexeme);
                    assert(lexeme_views(lexemes@) =~= found.push(lexeme@));
                    if ended {
                        return Ok(lexemes);
                    }
                },
            }
        }
    }
}

/// Whether the character is a decimal digit.
pub fn digit(c: char) -> (r: bool)
    ensures
        r == is_digit(c),
{
    '0' <= c && c <= '9'
}

/// Whether the character can stand in a word.
pub fn word_char(c: char) -> (r: bool)
    ensures
        r == is_word_char(c),
{
    !is_whitespace(c) && c != '(' && c != ')' && c != '"'
}

} // verus!
