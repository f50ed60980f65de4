//! Precedence climbing over a token stream.

use crate::expression::Expression;
use crate::lexer::Lexer;
use crate::token::{head, tail, tokenize, Token};
use vstd::prelude::*;

verus! {

/// Why a token sequence is no expression.
#[derive(Debug, Clone, Copy, PartialEq, Eq)]
pub enum ParseError {
    /// An operand had to start here, and the token is neither an atom nor `(`.
    UnexpectedToken(Token),
    /// An operand had to start here, and the input has ended.
    UnexpectedEnd,
    /// An operator had to follow here, and the token is an atom or a
    /// character without a binding power.
    BadOperator(Token),
    /// The expression after a `(` is not followed by `)`.
    UnmatchedParenthesis,
}

/// An expression together with the tokens that follow it.
pub type Parsed = Result<(Expression, Seq<Token>), ParseError>;

/// The left and right binding power of an infix operator, in tenths.
///
/// An operator binds more tightly the larger its powers are. Its right power
/// is the larger one where it associates to the left, the smaller one where
/// it associates to the right.
///
/// | operator | left | right | associates |
/// |----------|------|-------|------------|
/// | `=`      | 2    | 1     | right      |
/// | `+` `-`  | 10   | 11    | left       |
/// | `*` `/`  | 20   | 21    | left       |
/// | `^`      | 31   | 30    | right      |
pub open spec fn binding_power(op: char) -> Option<(u8, u8)> {
    if op == '=' {
        Some((2u8, 1u8))
    } else if op == '+' || op == '-' {
        Some((10u8, 11u8))
    } else if op == '*' || op == '/' {
        Some((20u8, 21u8))
    } else if op == '^' {
        Some((31u8, 30u8))
    } else {
        None
    }
}

/// The left binding power of `op`; 0 where it has none.
pub open spec fn left_power(op: char) -> u8 {
    match binding_power(op) {
        Some((left_bp, _)) => left_bp,
        None => 0,
    }
}

/// The right binding power of `op`; 0 where it has none.
pub open spec fn right_power(op: char) -> u8 {
    match binding_power(op) {
        Some((_, right_bp)) => right_bp,
        None => 0,
    }
}

/// Looks `op` up in the table of binding powers.
pub fn infix_binding_power(op: char) -> (power: Option<(u8, u8)>)
    ensures
        power == binding_power(op),
{
    if op == '=' {
        Some((2, 1))
    } else if op == '+' || op == '-' {
        Some((10, 11))
    } else if op == '*' || op == '/' {
        Some((20, 21))
    } else if op == '^' {
        Some((31, 30))
    } else {
        None
    }
}

/// The expression that starts `tokens`, read by precedence climbing, and the
/// tokens after it.
///
/// An operand is read first; then operators whose left binding power is at
/// least `min_bp` are folded onto it, each with the expression to its right.
///
/// The test on the lengths serves the termination argument alone: an operand
/// always takes a token (`lemma_parse_consumes`).
pub open spec fn parse_tokens(tokens: Seq<Token>, min_bp: u8) -> Parsed
    decreases tokens.len(), 2int,
{
    match parse_operand(tokens) {
        Ok((lhs, rest)) => if rest.len() <= tokens.len() {
            parse_operators(lhs, rest, min_bp)
        } else {
            Err(ParseError::UnexpectedEnd)
        },
        Err(error) => Err(error),
    }
}

/// The operand that starts `tokens`: an atom, or an expression in parentheses.
pub open spec fn parse_operand(tokens: Seq<Token>) -> Parsed
    decreases tokens.len(), 0int,
{
    match head(tokens) {
        Token::Atom(c) => Ok((Expression::Atom(c), tail(tokens))),
        Token::Op(c) => if c == '(' {
            match parse_tokens(tail(tokens), 0) {
                Ok((inner, rest)) => if head(rest) == Token::Op(')') {
                    Ok((inner, tail(rest)))
                } else {
                    Err(ParseError::UnmatchedParenthesis)
                },
                Err(error) => Err(error),
            }
        } else {
            Err(ParseError::UnexpectedToken(Token::Op(c)))
        },
        Token::Eof => Err(ParseError::UnexpectedEnd),
    }
}

/// Folds the operators that start `tokens` onto `lhs`, as long as they bind
/// at least as tightly as `min_bp` on their left.
///
/// The loop stops in front of `)`, at the end of the input, and in front of
/// an operator that binds less tightly: that one belongs to an enclosing
/// level. The right operand of an operator is read with the operator's right
/// binding power as its bound.
///
/// Again the test on the lengths serves the termination argument alone.
pub open spec fn parse_operators(lhs: Expression, tokens: Seq<Token>, min_bp: u8) -> Parsed
    decreases tokens.len(), 1int,
{
    match head(tokens) {
        Token::Eof => Ok((lhs, tokens)),
        Token::Atom(c) => Err(ParseError::BadOperator(Token::Atom(c))),
        Token::Op(op) => if op == ')' {
            Ok((lhs, tokens))
        } else {
            match binding_power(op) {
                None => Err(ParseError::BadOperator(Token::Op(op))),
                Some((left_bp, right_bp)) => if left_bp < min_bp {
                    Ok((lhs, tokens))
                } else {
                    match parse_tokens(tail(tokens), right_bp) {
                        Ok((rhs, rest)) => if rest.len() < tokens.len() {
                            parse_operators(
                                Expression::Operation(op, Box::new(lhs), Box::new(rhs)),
                                rest,
                                min_bp,
                            )
                        } else {
                            Err(ParseError::UnexpectedEnd)
                        },
                        Err(error) => Err(error),
                    }
                },
            }
        },
    }
}

/// The expression that a line of text stands for: the line is tokenized and
/// parsed with no bound on the binding power. Tokens that follow the parsed
/// expression (they start with a stray `)`) are ignored.
pub open spec fn parse(input: Seq<char>) -> Result<Expression, ParseError> {
    match parse_tokens(tokenize(input), 0) {
        Ok((expression, _)) => Ok(expression),
        Err(error) => Err(error),
    }
}

/// A successful parse takes at least one token.
pub proof fn lemma_parse_consumes(tokens: Seq<Token>, min_bp: u8)
    ensures
        parse_tokens(tokens, min_bp) matches Ok((_, rest)) ==> rest.len() < tokens.len(),
        parse_operand(tokens) matches Ok((_, rest)) ==> rest.len() < tokens.len(),
    decreases tokens.len(),
{
    if tokens.len() > 0 {
        lemma_parse_consumes(tail(tokens), 0);
        if let Ok((lhs, rest)) = parse_operand(tokens) {
            lemma_operators_consume(lhs, rest, min_bp);
        }
    }
}

/// The operator loop never gives tokens back.
pub proof fn lemma_operators_consume(lhs: Expression, tokens: Seq<Token>, min_bp: u8)
    ensures
        parse_operators(lhs, tokens, min_bp) matches Ok((_, rest)) ==> rest.len() <= tokens.len(),
    decreases tokens.len(),
{
    if let Token::Op(op) = head(tokens) {
        if let Some((left_bp, right_bp)) = binding_power(op) {
            if op != ')' && left_bp >= min_bp {
                if let Ok((rhs, rest)) = parse_tokens(tail(tokens), right_bp) {
                    if rest.len() < tokens.len() {
                        lemma_operators_consume(
                            Expression::Operation(op, Box::new(lhs), Box::new(rhs)),
                            rest,
                            min_bp,
                        );
                    }
                }
            }
        }
    }
}

/// Parses one expression from the front of `lexer`, folding only operators
/// whose left binding power is at least `min_bp`.
///
/// On success the lexer stands behind the expression.
pub fn parse_expression(lexer: &mut Lexer, min_bp: u8) -> (result: Result<Expression, ParseError>)
    ensures
        match parse_tokens(old(lexer)@, min_bp) {
            Ok((expression, rest)) => result == Ok::<_, ParseError>(expression) && final(lexer)@
                == rest,
            Err(error) => result == Err::<Expression, _>(error),
        },
    decreases old(lexer)@.len(),
{
    let ghost start = lexer@;
    proof {
        lemma_parse_consumes(start, min_bp);
    }
    let mut lhs = match lexer.next() {
        Token::Atom(c) => Expression::Atom(c),
        Token::Op(c) => {
            if c == '(' {
                let inner = parse_expression(lexer, 0)?;
                match lexer.next() {
                    Token::Op(close) => {
                        if close == ')' {
                            inner
                        } else {
                            return Err(ParseError::UnmatchedParenthesis);
                        }
                    },
                    _ => {
                        return Err(ParseError::UnmatchedParenthesis);
                    },
                }
            } else {
                return Err(ParseError::UnexpectedToken(Token::Op(c)));
            }
        },
        Token::Eof => {
            return Err(ParseError::UnexpectedEnd);
        },
    };
    loop
        invariant
            start == old(lexer)@,
            lexer@.len() < start.len(),
            parse_operators(lhs, lexer@, min_bp) == parse_tokens(start, min_bp),
        ensures
            parse_tokens(start, min_bp) == Ok::<_, ParseError>((lhs, lexer@)),
        decreases lexer@.len(),
    {
        let op = match lexer.peek() {
            Token::Op(op) => {
                if op == ')' {
                    break ;
                }
                op
            },
            Token::Eof => {
                break ;
            },
            Token::Atom(c) => {
                return Err(ParseError::BadOperator(Token::Atom(c)));
            },
        };
        let (left_bp, right_bp) = match infix_binding_power(op) {
            Some(power) => power,
            None => {
                return Err(ParseError::BadOperator(Token::Op(op)));
            },
        };
        if left_bp < min_bp {
            break ;
        }
        let ghost before = lexer@;
        lexer.next();
        proof {
            lemma_parse_consumes(tail(before), right_bp);
        }
        let rhs = parse_expression(lexer, right_bp)?;
        lhs = Expression::Operation(op, Box::new(lhs), Box::new(rhs));
    }
    Ok(lhs)
}

impl Expression {
    /// Parses a line of text into an expression tree.
    pub fn from_str(input: &str) -> (result: Result<Expression, ParseError>)
        ensures
            result == parse(input@),
    {
        let mut lexer = Lexer::new(input);
        parse_expression(&mut lexer, 0)
    }
}

} // verus!
