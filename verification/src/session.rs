//! One input line, from text to its effect on the variables.

use crate::environment::Environment;
use crate::eval::{evaluates, EvalError};
use crate::expression::{AssignmentError, Expression};
use crate::number::Number;
use crate::parser::{parse, ParseError};
use vstd::prelude::*;

verus! {

/// Why a line has no outcome.
#[derive(Debug, Clone, Copy, PartialEq, Eq)]
pub enum Error {
    /// The line is no expression.
    Parse(ParseError),
    /// The line assigns to something that is no variable.
    Assignment(AssignmentError),
    /// The expression has no value.
    Eval(EvalError),
}

/// What a line has done.
#[derive(Debug, PartialEq, Eq)]
pub enum Outcome<N> {
    /// The line is an expression with this value.
    Value(N),
    /// The line has assigned this value to this variable.
    Assigned(char, N),
}

/// `outcome` is what the line `input` comes to where the variables hold
/// `variables`.
///
/// A line that does not parse, or that assigns to something other than a
/// variable, fails with that error. A line with `=` at its root assigns what
/// its right-hand side evaluates to; any other line is worth what its
/// expression evaluates to.
pub open spec fn is_outcome<N: Number>(
    input: Seq<char>,
    variables: Map<char, N>,
    outcome: Result<Outcome<N>, Error>,
) -> bool {
    match parse(input) {
        Err(error) => outcome == Err::<Outcome<N>, Error>(Error::Parse(error)),
        Ok(tree) => match tree.assignment() {
            Err(error) => outcome == Err::<Outcome<N>, Error>(Error::Assignment(error)),
            Ok(Some((name, value))) => match outcome {
                Ok(Outcome::Assigned(target, number)) => target == name && evaluates(
                    value,
                    variables,
                    Ok(number),
                ),
                Err(Error::Eval(error)) => evaluates(value, variables, Err(error)),
                _ => false,
            },
            Ok(None) => match outcome {
                Ok(Outcome::Value(number)) => evaluates(tree, variables, Ok(number)),
                Err(Error::Eval(error)) => evaluates(tree, variables, Err(error)),
                _ => false,
            },
        },
    }
}

/// The variables after a line with this outcome: an assignment sets its
/// variable, and nothing else changes anything.
pub open spec fn variables_after<N>(
    variables: Map<char, N>,
    outcome: Result<Outcome<N>, Error>,
) -> Map<char, N> {
    match outcome {
        Ok(Outcome::Assigned(name, number)) => variables.insert(name, number),
        _ => variables,
    }
}

/// Parses and evaluates one line, and performs its assignment if it is one.
/// A line that fails leaves the variables as they were.
pub fn execute<N: Number>(input: &str, variables: &mut Environment<N>) -> (outcome: Result<
    Outcome<N>,
    Error,
>)
    ensures
        is_outcome(input@, old(variables)@, outcome),
        final(variables)@ == variables_after(old(variables)@, outcome),
{
    let tree = match Expression::from_str(input) {
        Ok(tree) => tree,
        Err(error) => {
            return Err(Error::Parse(error));
        },
    };
    match tree.is_asign() {
        Err(error) => Err(Error::Assignment(error)),
        Ok(Some((name, value))) => match value.eval(variables) {
            Ok(number) => {
                variables.insert(name, number);
                Ok(Outcome::Assigned(name, number))
            },
            Err(error) => Err(Error::Eval(error)),
        },
        Ok(None) => match tree.eval(variables) {
            Ok(number) => Ok(Outcome::Value(number)),
            Err(error) => Err(Error::Eval(error)),
        },
    }
}

} // verus!
