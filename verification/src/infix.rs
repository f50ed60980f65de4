//! The infix form of a tree, with no more parentheses than the binding
//! powers ask for, and the proof that the parser reads it back.

use crate::expression::Expression;
use crate::parser::{
    binding_power, parse, parse_operand, parse_operators, parse_tokens, right_power, ParseError,
};
use crate::token::{head, tail, token_of, tokenize, Token};
use vstd::prelude::*;

verus! {

/// The operator loop at `level` stops in front of `next`: the end of the
/// input, a closing parenthesis, or an operator that binds less tightly on
/// its left.
pub open spec fn stops(next: Token, level: u8) -> bool {
    match next {
        Token::Eof => true,
        Token::Atom(_) => false,
        Token::Op(c) => c == ')' || match binding_power(c) {
            Some((left_bp, _)) => left_bp < level,
            None => false,
        },
    }
}

impl Expression {
    /// Every operator of the tree has a binding power.
    pub open spec fn operators_are_known(self) -> bool
        decreases self,
    {
        match self {
            Expression::Atom(_) => true,
            Expression::Operation(op, lhs, rhs) => binding_power(op) is Some
                && lhs.operators_are_known() && rhs.operators_are_known(),
        }
    }

    /// The tree needs no parentheses where it is read at `level` and followed
    /// by `next`: its root operator is folded at that level, and `next` ends
    /// its right operand.
    pub open spec fn stands_bare(self, level: u8, next: Token) -> bool {
        match self {
            Expression::Atom(_) => true,
            Expression::Operation(op, _, _) => match binding_power(op) {
                Some((left_bp, right_bp)) => left_bp >= level && stops(next, right_bp),
                None => false,
            },
        }
    }

    /// The infix form of the tree where it is read at `level` and followed by
    /// `next`: bare where it can stand so, in parentheses otherwise.
    pub open spec fn infix(self, level: u8, next: Token) -> Seq<Token>
        decreases self, 1int,
    {
        if self.stands_bare(level, next) {
            self.bare(level, next)
        } else {
            seq![Token::Op('(')] + self.bare(0, Token::Op(')')) + seq![Token::Op(')')]
        }
    }

    /// The infix form without parentheses around the whole: an atom is its
    /// token; an operation is its left operand as read at the same level in
    /// front of the operator, the operator, and its right operand as read at
    /// the operator's right binding power in front of `next`.
    pub open spec fn bare(self, level: u8, next: Token) -> Seq<Token>
        decreases self, 0int,
    {
        match self {
            Expression::Atom(c) => seq![Token::Atom(c)],
            Expression::Operation(op, lhs, rhs) => lhs.infix(level, Token::Op(op)) + seq![
                Token::Op(op),
            ] + rhs.infix(right_power(op), next),
        }
    }
}

/// In front of a token that stops it, the operator loop folds nothing.
pub proof fn lemma_loop_stops(lhs: Expression, tokens: Seq<Token>, level: u8)
    requires
        stops(head(tokens), level),
    ensures
        parse_operators(lhs, tokens, level) == Ok::<_, ParseError>((lhs, tokens)),
{
}

/// Reading the infix form of a tree at `level` brings the operator loop of
/// that level to the tokens behind it, with the tree as what was read so far.
pub proof fn lemma_parse_reads_infix(tree: Expression, level: u8, rest: Seq<Token>)
    requires
        tree.operators_are_known(),
    ensures
        parse_tokens(tree.infix(level, head(rest)) + rest, level) == parse_operators(
            tree,
            rest,
            level,
        ),
    decreases tree, 1int,
{
    let next = head(rest);
    if tree.stands_bare(level, next) {
        lemma_parse_reads_bare(tree, level, rest);
    } else {
        let open = seq![Token::Op('(')];
        let close = seq![Token::Op(')')];
        let inner = tree.bare(0, Token::Op(')'));
        let tokens = tree.infix(level, next) + rest;
        let after = close + rest;
        assert(tokens == open + inner + close + rest);
        assert(head(tokens) == Token::Op('('));
        assert(tail(tokens) == inner + after);
        assert(head(after) == Token::Op(')'));
        assert(tail(after) == rest);
        lemma_parse_reads_bare(tree, 0, after);
        lemma_loop_stops(tree, after, 0);
        assert(parse_tokens(inner + after, 0) == Ok::<_, ParseError>((tree, after)));
        assert(parse_operand(tokens) == Ok::<_, ParseError>((tree, rest)));
    }
}

/// The same for a tree that stands bare.
pub proof fn lemma_parse_reads_bare(tree: Expression, level: u8, rest: Seq<Token>)
    requires
        tree.operators_are_known(),
        tree.stands_bare(level, head(rest)),
    ensures
        parse_tokens(tree.bare(level, head(rest)) + rest, level) == parse_operators(
            tree,
            rest,
            level,
        ),
    decreases tree, 0int,
{
    let next = head(rest);
    let tokens = tree.bare(level, next) + rest;
    match tree {
        Expression::Atom(c) => {
            assert(head(tokens) == Token::Atom(c));
            assert(tail(tokens) == rest);
        },
        Expression::Operation(op, lhs, rhs) => {
            let right_bp = right_power(op);
            let right = rhs.infix(right_bp, next) + rest;
            let middle = seq![Token::Op(op)] + right;
            assert(tokens == lhs.infix(level, Token::Op(op)) + middle);
            assert(head(middle) == Token::Op(op));
            assert(tail(middle) == right);
            lemma_parse_reads_infix(*lhs, level, middle);
            lemma_parse_reads_infix(*rhs, right_bp, rest);
            lemma_loop_stops(*rhs, rest, right_bp);
            assert(parse_tokens(right, right_bp) == Ok::<_, ParseError>((*rhs, rest)));
            assert(parse_operators(*lhs, middle, level) == parse_operators(
                Expression::Operation(op, lhs, rhs),
                rest,
                level,
            ));
        },
    }
}

/// The parser reads the infix form of a tree back as that tree, and leaves
/// no token behind.
pub proof fn lemma_parse_inverts_infix(tree: Expression)
    requires
        tree.operators_are_known(),
    ensures
        parse_tokens(tree.infix(0, Token::Eof), 0) == Ok::<_, ParseError>(
            (tree, Seq::<Token>::empty()),
        ),
{
    let rest = Seq::<Token>::empty();
    lemma_parse_reads_infix(tree, 0, rest);
    assert(tree.infix(0, Token::Eof) + rest == tree.infix(0, Token::Eof));
    lemma_loop_stops(tree, rest, 0);
}

/// The character that a token was made of; a space for the end of the input,
/// which was made of none.
pub open spec fn char_of(token: Token) -> char {
    match token {
        Token::Atom(c) => c,
        Token::Op(c) => c,
        Token::Eof => ' ',
    }
}

/// `token` is the token that its own character gives.
pub open spec fn is_proper(token: Token) -> bool {
    token_of(char_of(token)) == Some(token)
}

/// Every token of `tokens` is the token that its own character gives.
pub open spec fn all_proper(tokens: Seq<Token>) -> bool {
    forall|i: int| 0 <= i < tokens.len() ==> is_proper(#[trigger] tokens[i])
}

/// The text that `tokens` were made of, without any whitespace.
pub open spec fn text_of(tokens: Seq<Token>) -> Seq<char> {
    tokens.map_values(|token: Token| char_of(token))
}

impl Expression {
    /// The atoms are digits and letters, and the operators have binding
    /// powers: the trees that the parser builds from text.
    pub open spec fn well_formed(self) -> bool {
        self.atoms_are_alphanumeric() && self.operators_are_known()
    }

    /// The tree as a line of text in infix form.
    pub open spec fn render(self) -> Seq<char> {
        text_of(self.infix(0, Token::Eof))
    }
}

/// Tokenizing the text of proper tokens gives the tokens back.
pub proof fn lemma_tokenize_inverts_text(tokens: Seq<Token>)
    requires
        all_proper(tokens),
    ensures
        tokenize(text_of(tokens)) == tokens,
    decreases tokens.len(),
{
    let text = text_of(tokens);
    if tokens.len() == 0 {
        assert(tokenize(text) == tokens);
    } else {
        let front = tokens.drop_last();
        lemma_tokenize_inverts_text(front);
        assert(text.drop_last() == text_of(front));
        assert(text.last() == char_of(tokens.last()));
        assert(is_proper(tokens.last()));
        assert(tokenize(text) == tokenize(text.drop_last()) + seq![tokens.last()]);
        assert(front + seq![tokens.last()] == tokens);
    }
}

/// The infix form of a well-formed tree holds proper tokens only.
pub proof fn lemma_infix_is_proper(tree: Expression, level: u8, next: Token)
    requires
        tree.well_formed(),
    ensures
        all_proper(tree.infix(level, next)),
        all_proper(tree.bare(level, next)),
    decreases tree,
{
    match tree {
        Expression::Atom(c) => {},
        Expression::Operation(op, lhs, rhs) => {
            lemma_infix_is_proper(*lhs, level, Token::Op(op));
            lemma_infix_is_proper(*rhs, right_power(op), next);
            lemma_infix_is_proper(*lhs, 0, Token::Op(op));
            lemma_infix_is_proper(*rhs, right_power(op), Token::Op(')'));
            assert(is_proper(Token::Op(op)));
        },
    }
    assert(is_proper(Token::Op('(')));
    assert(is_proper(Token::Op(')')));
}

/// Parsing inverts rendering: the rendered line of a well-formed tree parses
/// to that tree.
pub proof fn lemma_parse_inverts_render(tree: Expression)
    requires
        tree.well_formed(),
    ensures
        parse(tree.render()) == Ok::<_, ParseError>(tree),
{
    lemma_infix_is_proper(tree, 0, Token::Eof);
    lemma_tokenize_inverts_text(tree.infix(0, Token::Eof));
    lemma_parse_inverts_infix(tree);
}

} // verus!
