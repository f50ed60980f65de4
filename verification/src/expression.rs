//! The expression tree, its prefix rendering and the detection of assignments.

use crate::token::{char_is_letter, is_digit, is_letter};
use vstd::prelude::*;

verus! {

/// A parsed expression: a tree whose leaves are atoms and whose inner nodes
/// are binary operations.
#[derive(Debug, PartialEq, Eq)]
pub enum Expression {
    /// A digit or a single-letter variable name.
    Atom(char),
    /// An operator with its left and its right operand.
    Operation(char, Box<Expression>, Box<Expression>),
}

/// Why a tree with `=` at its root is no assignment.
#[derive(Debug, Clone, Copy, PartialEq, Eq)]
pub enum AssignmentError {
    /// The left-hand side of `=` is not a single letter.
    NotAVariable,
}

impl Expression {
    /// Every atom is a digit or a letter.
    pub open spec fn atoms_are_alphanumeric(self) -> bool
        decreases self,
    {
        match self {
            Expression::Atom(c) => is_digit(c) || is_letter(c),
            Expression::Operation(_, lhs, rhs) => lhs.atoms_are_alphanumeric()
                && rhs.atoms_are_alphanumeric(),
        }
    }

    /// The fully parenthesized prefix form: an atom is its character, an
    /// operation is `(op lhs rhs)`.
    pub open spec fn display(self) -> Seq<char>
        decreases self,
    {
        match self {
            Expression::Atom(c) => seq![c],
            Expression::Operation(op, lhs, rhs) => seq!['(', op, ' '] + lhs.display() + seq![' ']
                + rhs.display() + seq![')'],
        }
    }

    /// What the assignment detector finds at the root of the tree.
    ///
    /// Only a root `=` counts. Its left operand must be a letter atom; the
    /// assignment is then that letter and the right operand. Any other left
    /// operand is an error, and any other root is no assignment.
    pub open spec fn assignment(self) -> Result<Option<(char, Expression)>, AssignmentError> {
        match self {
            Expression::Operation(op, lhs, rhs) if op == '=' => match *lhs {
                Expression::Atom(name) if is_letter(name) => Ok(Some((name, *rhs))),
                _ => Err(AssignmentError::NotAVariable),
            },
            _ => Ok(None),
        }
    }

    /// Recognizes `name = value` at the root and hands out the name and a
    /// reference to the value's tree.
    pub fn is_asign(&self) -> (found: Result<Option<(char, &Expression)>, AssignmentError>)
        ensures
            match self.assignment() {
                Ok(Some((name, value))) => found == Ok::<_, AssignmentError>(Some((name, &value))),
                Ok(None) => found == Ok::<Option<(char, &Expression)>, AssignmentError>(None),
                Err(error) => found == Err::<Option<(char, &Expression)>, _>(error),
            },
    {
        match self {
            Expression::Atom(_) => Ok(None),
            Expression::Operation(op, lhs, rhs) => {
                if *op == '=' {
                    match &**lhs {
                        Expression::Atom(name) => {
                            if char_is_letter(*name) {
                                Ok(Some((*name, &**rhs)))
                            } else {
                                Err(AssignmentError::NotAVariable)
                            }
                        },
                        Expression::Operation(_, _, _) => Err(AssignmentError::NotAVariable),
                    }
                } else {
                    Ok(None)
                }
            },
        }
    }

    /// Appends the prefix form of the tree to `out`.
    fn write_to(&self, out: &mut String)
        ensures
            final(out)@ == old(out)@ + self.display(),
        decreases self,
    {
        match self {
            Expression::Atom(c) => {
                push_char(out, *c);
            },
            Expression::Operation(op, lhs, rhs) => {
                push_char(out, '(');
                push_char(out, *op);
                push_char(out, ' ');
                lhs.write_to(out);
                push_char(out, ' ');
                rhs.write_to(out);
                push_char(out, ')');
            },
        }
    }

    /// Renders the tree in its prefix form, as in `(+ 1 (* 2 3))`.
    pub fn to_string(&self) -> (text: String)
        ensures
            text@ == self.display(),
    {
        let mut text = String::new();
        self.write_to(&mut text);
        text
    }
}

/// `String::push` of the standard library: the string afterwards is the
/// string before with `c` appended as its last character. Trusted.
#[verifier::external_body]
fn push_char(text: &mut String, c: char)
    ensures
        final(text)@ == old(text)@.push(c),
{
    text.push(c);
}

} // verus!
