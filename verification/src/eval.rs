//! Evaluation of an expression tree.

use crate::environment::Environment;
use crate::expression::Expression;
use crate::number::{
    applies, arithmetic_operator, digit_number, operator_of, ArithmeticError, Number, Operator,
};
use crate::token::{char_is_digit, digit_value, is_digit};
use vstd::prelude::*;

verus! {

/// Why an expression has no value.
#[derive(Debug, Clone, Copy, PartialEq, Eq)]
pub enum EvalError {
    /// The variable is not assigned.
    UndefinedVariable(char),
    /// The operator is none of `+ - * / ^`.
    BadOperator(char),
    /// The operator has no result on its operands.
    Arithmetic(ArithmeticError),
}

/// The value of an operation, from what its parts have come to.
///
/// The left operand is evaluated first and its error wins; then the right
/// one's. The operator is looked at only once both have a value: a character
/// that is no arithmetic operator is an error, and otherwise the operation is
/// worth what the operator has made of the two values.
pub open spec fn fold<N>(
    op: char,
    left: Result<N, EvalError>,
    right: Result<N, EvalError>,
    applied: Result<N, ArithmeticError>,
) -> Result<N, EvalError> {
    match left {
        Err(error) => Err(error),
        Ok(_) => match right {
            Err(error) => Err(error),
            Ok(_) => match operator_of(op) {
                None => Err(EvalError::BadOperator(op)),
                Some(_) => match applied {
                    Ok(value) => Ok(value),
                    Err(error) => Err(EvalError::Arithmetic(error)),
                },
            },
        },
    }
}

/// Where both operands have a value and `op` is an arithmetic operator,
/// `applied` is what the number type makes of the two values under it.
pub open spec fn operands_meet<N: Number>(
    op: char,
    left: Result<N, EvalError>,
    right: Result<N, EvalError>,
    applied: Result<N, ArithmeticError>,
) -> bool {
    match (left, right, operator_of(op)) {
        (Ok(l), Ok(r), Some(operator)) => applies(operator, l, r, applied),
        _ => true,
    }
}

/// `result` is what `expression` evaluates to where the variables hold
/// `variables`.
///
/// A digit is worth what the number type makes of it, whatever the variables
/// hold. Any other atom names a variable and is worth what the variable
/// holds; it is an error where the variable is not assigned. An operation is
/// the `fold` of its operands' results and of what the number type makes of
/// their values under its operator.
pub open spec fn evaluates<N: Number>(
    expression: Expression,
    variables: Map<char, N>,
    result: Result<N, EvalError>,
) -> bool
    decreases expression,
{
    match expression {
        Expression::Atom(c) => if is_digit(c) {
            result matches Ok(number) && digit_number(digit_value(c) as u8, number)
        } else if variables.contains_key(c) {
            result == Ok::<N, EvalError>(variables[c])
        } else {
            result == Err::<N, EvalError>(EvalError::UndefinedVariable(c))
        },
        Expression::Operation(op, lhs, rhs) => exists|
            left: Result<N, EvalError>,
            right: Result<N, EvalError>,
            applied: Result<N, ArithmeticError>,
        |
            {
                &&& result == #[trigger] fold(op, left, right, applied)
                &&& evaluates(*lhs, variables, left)
                &&& left is Ok ==> evaluates(*rhs, variables, right)
                &&& operands_meet(op, left, right, applied)
            },
    }
}

/// The value of `expression` over a number type whose digits are `digit` and
/// whose arithmetic is `combine`.
pub open spec fn evaluate<N>(
    expression: Expression,
    variables: Map<char, N>,
    digit: spec_fn(nat) -> N,
    combine: spec_fn(Operator, N, N) -> Result<N, ArithmeticError>,
) -> Result<N, EvalError>
    decreases expression,
{
    match expression {
        Expression::Atom(c) => if is_digit(c) {
            Ok(digit(digit_value(c)))
        } else if variables.contains_key(c) {
            Ok(variables[c])
        } else {
            Err(EvalError::UndefinedVariable(c))
        },
        Expression::Operation(op, lhs, rhs) => match evaluate(*lhs, variables, digit, combine) {
            Err(error) => Err(error),
            Ok(left) => match evaluate(*rhs, variables, digit, combine) {
                Err(error) => Err(error),
                Ok(right) => match operator_of(op) {
                    None => Err(EvalError::BadOperator(op)),
                    Some(operator) => match combine(operator, left, right) {
                        Ok(value) => Ok(value),
                        Err(error) => Err(EvalError::Arithmetic(error)),
                    },
                },
            },
        },
    }
}

/// The number of the digit `c`; none where `c` is no digit.
pub fn digit_of(c: char) -> (digit: Option<u8>)
    ensures
        digit == if is_digit(c) {
            Some(digit_value(c) as u8)
        } else {
            None
        },
        digit matches Some(number) ==> number <= 9,
{
    if char_is_digit(c) {
        Some((c as u32 - '0' as u32) as u8)
    } else {
        None
    }
}

impl Expression {
    /// Evaluates the tree against `variables`, which it only reads.
    pub fn eval<N: Number>(&self, variables: &Environment<N>) -> (result: Result<N, EvalError>)
        ensures
            evaluates(*self, variables@, result),
        decreases self,
    {
        match self {
            Expression::Atom(c) => {
                match digit_of(*c) {
                    Some(digit) => Ok(N::from_digit(digit)),
                    None => match variables.get(*c) {
                        Some(value) => Ok(value),
                        None => Err(EvalError::UndefinedVariable(*c)),
                    },
                }
            },
            Expression::Operation(op, lhs, rhs) => {
                // Stands for what the operator makes of the operands where
                // it is never applied.
                let ghost unused = Err::<N, ArithmeticError>(ArithmeticError::Overflow);
                let left = lhs.eval(variables);
                let l = match left {
                    Ok(l) => l,
                    Err(error) => {
                        assert(left == fold(*op, left, left, unused));
                        return Err(error);
                    },
                };
                let right = rhs.eval(variables);
                let r = match right {
                    Ok(r) => r,
                    Err(error) => {
                        assert(right == fold(*op, left, right, unused));
                        return Err(error);
                    },
                };
                match arithmetic_operator(*op) {
                    None => {
                        assert(fold(*op, left, right, unused) == Err::<N, EvalError>(
                            EvalError::BadOperator(*op),
                        ));
                        Err(EvalError::BadOperator(*op))
                    },
                    Some(operator) => {
                        let applied = N::apply(operator, l, r);
                        let result = match applied {
                            Ok(value) => Ok(value),
                            Err(error) => Err(EvalError::Arithmetic(error)),
                        };
                        assert(result == fold(*op, left, right, applied));
                        result
                    },
                }
            },
        }
    }
}

/// Where a number type's digits and arithmetic are functions, so is
/// evaluation over it.
pub proof fn lemma_evaluation_is_a_function<N: Number>(
    expression: Expression,
    variables: Map<char, N>,
    result: Result<N, EvalError>,
    digit: spec_fn(nat) -> N,
    combine: spec_fn(Operator, N, N) -> Result<N, ArithmeticError>,
)
    requires
        forall|d: u8, number: N|
            d <= 9 && #[trigger] digit_number(d, number) ==> number == digit(d as nat),
        forall|op: Operator, lhs: N, rhs: N, applied: Result<N, ArithmeticError>| #[trigger]
            applies(op, lhs, rhs, applied) ==> applied == combine(op, lhs, rhs),
        evaluates(expression, variables, result),
    ensures
        result == evaluate(expression, variables, digit, combine),
    decreases expression,
{
    match expression {
        Expression::Atom(c) => {},
        Expression::Operation(op, lhs, rhs) => {
            let (left, right, applied) = choose|
                left: Result<N, EvalError>,
                right: Result<N, EvalError>,
                applied: Result<N, ArithmeticError>,
            |
                {
                    &&& result == #[trigger] fold(op, left, right, applied)
                    &&& evaluates(*lhs, variables, left)
                    &&& left is Ok ==> evaluates(*rhs, variables, right)
                    &&& operands_meet(op, left, right, applied)
                };
            lemma_evaluation_is_a_function(*lhs, variables, left, digit, combine);
            if left is Ok {
                lemma_evaluation_is_a_function(*rhs, variables, right, digit, combine);
            }
        },
    }
}

} // verus!
