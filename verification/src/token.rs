//! Tokens and the classification of characters.

use vstd::prelude::*;

verus! {

/// One lexical unit of an input line.
#[derive(Debug, Clone, Copy, PartialEq, Eq)]
pub enum Token {
    /// A digit or a single-letter variable name.
    Atom(char),
    /// Any other character that is not whitespace: an operator or a parenthesis.
    Op(char),
    /// The end of the input, reported once the tokens are exhausted.
    Eof,
}

/// `c` is one of the ten ASCII digits.
pub open spec fn is_digit(c: char) -> bool {
    '0' <= c <= '9'
}

/// `c` is an ASCII letter, lower or upper case.
pub open spec fn is_letter(c: char) -> bool {
    'a' <= c <= 'z' || 'A' <= c <= 'Z'
}

/// `c` is ASCII whitespace: space, tab, line feed, form feed or carriage return.
pub open spec fn is_whitespace(c: char) -> bool {
    c == ' ' || c == '\t' || c == '\n' || c == '\x0C' || c == '\r'
}

/// The number that the digit `c` stands for.
pub open spec fn digit_value(c: char) -> nat
    recommends
        is_digit(c),
{
    (c as int - '0' as int) as nat
}

/// The token that a single character gives: none for whitespace, an atom for
/// a digit or a letter, an operator for everything else.
pub open spec fn token_of(c: char) -> Option<Token> {
    if is_whitespace(c) {
        None
    } else if is_digit(c) || is_letter(c) {
        Some(Token::Atom(c))
    } else {
        Some(Token::Op(c))
    }
}

/// The tokens of a line: each character classified on its own, in order,
/// with whitespace dropped.
pub open spec fn tokenize(input: Seq<char>) -> Seq<Token> {
    input.filter_map(|c: char| token_of(c))
}

/// The first token of `tokens`, or `Eof` where there is none.
pub open spec fn head(tokens: Seq<Token>) -> Token {
    if tokens.len() > 0 {
        tokens[0]
    } else {
        Token::Eof
    }
}

/// What is left of `tokens` once its first token is taken.
pub open spec fn tail(tokens: Seq<Token>) -> Seq<Token> {
    if tokens.len() > 0 {
        tokens.skip(1)
    } else {
        tokens
    }
}

#[verifier::when_used_as_spec(is_digit)]
pub fn char_is_digit(c: char) -> (b: bool)
    ensures
        b == is_digit(c),
{
    '0' <= c && c <= '9'
}

#[verifier::when_used_as_spec(is_letter)]
pub fn char_is_letter(c: char) -> (b: bool)
    ensures
        b == is_letter(c),
{
    ('a' <= c && c <= 'z') || ('A' <= c && c <= 'Z')
}

#[verifier::when_used_as_spec(is_whitespace)]
pub fn char_is_whitespace(c: char) -> (b: bool)
    ensures
        b == is_whitespace(c),
{
    c == ' ' || c == '\t' || c == '\n' || c == '\x0C' || c == '\r'
}

/// Classifies one character.
pub fn classify(c: char) -> (token: Option<Token>)
    ensures
        token == token_of(c),
{
    if char_is_whitespace(c) {
        None
    } else if char_is_digit(c) || char_is_letter(c) {
        Some(Token::Atom(c))
    } else {
        Some(Token::Op(c))
    }
}

} // verus!
