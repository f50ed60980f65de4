//! The token stream that the parser reads.

use crate::token::{classify, head, tail, tokenize, Token};
use vstd::prelude::*;
use vstd::std_specs::iter::IteratorSpec;

verus! {

/// The tokens of one input line that have not been read yet.
pub struct Lexer {
    /// The unread tokens, last one first, so that reading is a `pop`.
    tokens: Vec<Token>,
}

impl View for Lexer {
    type V = Seq<Token>;

    /// The unread tokens in reading order.
    closed spec fn view(&self) -> Seq<Token> {
        self.tokens@.reverse()
    }
}

impl Lexer {
    /// Tokenizes `input`. Any character maps to some token, so this never fails.
    pub fn new(input: &str) -> (lexer: Lexer)
        ensures
            lexer@ == tokenize(input@),
    {
        let mut forward: Vec<Token> = Vec::new();
        let mut chars = input.chars();
        let ghost mut read: int = 0;
        loop
            invariant
                0 <= read <= input@.len(),
                chars.remaining() == input@.skip(read),
                forward@ == tokenize(input@.take(read)),
            ensures
                forward@ == tokenize(input@),
            decreases input@.len() - read,
        {
            match chars.next() {
                Some(c) => {
                    proof {
                        let before = input@.take(read);
                        let after = input@.take(read + 1);
                        assert(after.drop_last() == before);
                        assert(after.last() == c);
                        read = read + 1;
                    }
                    match classify(c) {
                        Some(token) => forward.push(token),
                        None => {},
                    }
                },
                None => {
                    assert(input@.take(read) == input@);
                    break;
                },
            }
        }
        let mut tokens: Vec<Token> = Vec::new();
        let mut left: usize = forward.len();
        while left > 0
            invariant
                left <= forward.len(),
                tokens.len() == forward.len() - left,
                forall|j: int|
                    0 <= j < tokens.len() ==> tokens[j] == forward[forward.len() - 1 - j],
            decreases left,
        {
            left = left - 1;
            tokens.push(forward[left]);
        }
        assert(tokens@.reverse() == forward@);
        Lexer { tokens }
    }

    /// Takes the next token; `Eof` once the tokens are exhausted.
    pub fn next(&mut self) -> (token: Token)
        ensures
            token == head(old(self)@),
            final(self)@ == tail(old(self)@),
    {
        match self.tokens.pop() {
            Some(token) => {
                assert(self.tokens@.reverse() == old(self).tokens@.reverse().skip(1));
                token
            },
            None => Token::Eof,
        }
    }

    /// Looks at the next token without taking it; `Eof` once the tokens are exhausted.
    pub fn peek(&mut self) -> (token: Token)
        ensures
            token == head(old(self)@),
            final(self)@ == old(self)@,
    {
        let n = self.tokens.len();
        if n > 0 {
            self.tokens[n - 1]
        } else {
            Token::Eof
        }
    }
}

} // verus!
