//! The numbers that expressions are evaluated over.

use vstd::prelude::*;

verus! {

/// An arithmetic operator.
#[derive(Debug, Clone, Copy, PartialEq, Eq)]
pub enum Operator {
    Add,
    Subtract,
    Multiply,
    Divide,
    Power,
}

/// Why two numbers have no result under an operator.
#[derive(Debug, Clone, Copy, PartialEq, Eq)]
pub enum ArithmeticError {
    /// The divisor is zero.
    DivisionByZero,
    /// The result lies outside the numbers that the type can hold.
    Overflow,
    /// The exponent is negative, and the type holds no fractions.
    NegativeExponent,
}

/// The arithmetic operator that a character denotes: `+ - * / ^`.
pub open spec fn operator_of(op: char) -> Option<Operator> {
    if op == '+' {
        Some(Operator::Add)
    } else if op == '-' {
        Some(Operator::Subtract)
    } else if op == '*' {
        Some(Operator::Multiply)
    } else if op == '/' {
        Some(Operator::Divide)
    } else if op == '^' {
        Some(Operator::Power)
    } else {
        None
    }
}

/// Decodes an operator character.
pub fn arithmetic_operator(op: char) -> (operator: Option<Operator>)
    ensures
        operator == operator_of(op),
{
    if op == '+' {
        Some(Operator::Add)
    } else if op == '-' {
        Some(Operator::Subtract)
    } else if op == '*' {
        Some(Operator::Multiply)
    } else if op == '/' {
        Some(Operator::Divide)
    } else if op == '^' {
        Some(Operator::Power)
    } else {
        None
    }
}

/// A numeric type that expressions can be evaluated over.
///
/// The evaluator decides which numbers meet under which operator; the type
/// says what a digit is worth and what an operator makes of two numbers.
/// What a type promises of the two, it states on its own implementation.
pub trait Number: Copy {
    /// The number that a digit between 0 and 9 stands for.
    fn from_digit(digit: u8) -> Self
        requires
            digit <= 9,
    ;

    /// The result of `lhs op rhs`, or why there is none.
    fn apply(op: Operator, lhs: Self, rhs: Self) -> Result<Self, ArithmeticError>;
}

/// `number` is what the type `N` makes of the digit `digit`.
pub open spec fn digit_number<N: Number>(digit: u8, number: N) -> bool {
    call_ensures(N::from_digit, (digit,), number)
}

/// `result` is what the type `N` makes of `lhs op rhs`.
pub open spec fn applies<N: Number>(
    op: Operator,
    lhs: N,
    rhs: N,
    result: Result<N, ArithmeticError>,
) -> bool {
    call_ensures(N::apply, (op, lhs, rhs), result)
}

} // verus!
