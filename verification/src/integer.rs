//! Exact arithmetic on 64-bit integers.

use crate::number::{ArithmeticError, Number, Operator};
use vstd::arithmetic::power::pow;
use vstd::math::abs;
use vstd::prelude::*;

verus! {

/// `value` is a 64-bit signed integer.
pub open spec fn fits(value: int) -> bool {
    i64::MIN <= value <= i64::MAX
}

/// `value` as a 64-bit integer, or an overflow.
pub open spec fn checked(value: int) -> Result<i64, ArithmeticError> {
    if fits(value) {
        Ok(value as i64)
    } else {
        Err(ArithmeticError::Overflow)
    }
}

/// The quotient of `lhs` by `rhs`, rounded towards zero.
pub open spec fn truncated_quotient(lhs: int, rhs: int) -> int
    recommends
        rhs != 0,
{
    if lhs >= 0 && rhs > 0 {
        lhs / rhs
    } else if lhs < 0 && rhs < 0 {
        (-lhs) / (-rhs)
    } else if lhs < 0 {
        -((-lhs) / rhs)
    } else {
        -(lhs / (-rhs))
    }
}

/// From one exponent to a larger one, a power of a base of magnitude at
/// least two doubles at least, and none is zero.
proof fn lemma_power_grows(base: int, low: nat, high: nat)
    requires
        abs(base) >= 2,
        low < high,
    ensures
        abs(pow(base, low)) >= 1,
        abs(pow(base, high)) >= 2 * abs(pow(base, low)),
    decreases high,
{
    reveal(pow);
    let below = pow(base, (high - 1) as nat);
    assert(pow(base, high) == base * below);
    assert(abs(base * below) == abs(base) * abs(below)) by (nonlinear_arith);
    if high - 1 == low {
        if low == 0 {
        } else {
            lemma_power_grows(base, 0, low);
        }
    } else {
        lemma_power_grows(base, low, (high - 1) as nat);
    }
    assert(abs(base) * abs(below) >= 2 * abs(below)) by (nonlinear_arith)
        requires
            abs(base) >= 2,
            abs(below) >= 0,
    ;
}

/// `base` raised to `exponent`: exact where the exponent is not negative
/// and a 64-bit integer holds the power.
pub open spec fn power(base: i64, exponent: i64) -> Result<i64, ArithmeticError> {
    if exponent < 0 {
        Err(ArithmeticError::NegativeExponent)
    } else {
        checked(pow(base as int, exponent as nat))
    }
}

/// Raises `base` to the power `exponent`, watching for overflow.
pub fn checked_power(base: i64, exponent: i64) -> (result: Result<i64, ArithmeticError>)
    ensures
        result == power(base, exponent),
{
    proof {
        reveal(pow);
    }
    if exponent < 0 {
        return Err(ArithmeticError::NegativeExponent);
    }
    if exponent == 0 {
        return Ok(1);
    }
    if base == 0 {
        proof {
            vstd::arithmetic::power::lemma0_pow(exponent as nat);
        }
        return Ok(0);
    }
    if base == 1 {
        proof {
            vstd::arithmetic::power::lemma1_pow(exponent as nat);
        }
        return Ok(1);
    }
    if base == -1 {
        proof {
            lemma_power_of_minus_one(exponent as nat);
        }
        return Ok(if exponent % 2 == 0 { 1 } else { -1 });
    }
    let mut result: i64 = 1;
    let mut done: i64 = 0;
    while done < exponent
        invariant
            0 <= done <= exponent,
            abs(base as int) >= 2,
            result == pow(base as int, done as nat),
        decreases exponent - done,
    {
        proof {
            reveal(pow);
            assert(pow(base as int, (done + 1) as nat) == base * pow(base as int, done as nat));
            assert(base * result == result * base) by (nonlinear_arith);
        }
        match result.checked_mul(base) {
            Some(product) => {
                result = product;
            },
            None => {
                proof {
                    if done + 1 < exponent {
                        lemma_power_grows(base as int, (done + 1) as nat, exponent as nat);
                    }
                }
                return Err(ArithmeticError::Overflow);
            },
        }
        done = done + 1;
    }
    Ok(result)
}

/// The powers of minus one alternate between one and minus one.
proof fn lemma_power_of_minus_one(exponent: nat)
    ensures
        pow(-1, exponent) == if exponent % 2 == 0 { 1int } else { -1int },
    decreases exponent,
{
    reveal(pow);
    if exponent > 0 {
        lemma_power_of_minus_one((exponent - 1) as nat);
    }
}

/// The integer that a digit stands for.
pub open spec fn of_digit(digit: nat) -> i64 {
    digit as i64
}

/// What an operator makes of two integers.
///
/// Sums, differences and products are exact; a quotient is rounded towards
/// zero; a power takes an exponent that is not negative. A result that no
/// 64-bit integer holds is an overflow.
pub open spec fn combine(op: Operator, lhs: i64, rhs: i64) -> Result<i64, ArithmeticError> {
    match op {
        Operator::Add => checked(lhs + rhs),
        Operator::Subtract => checked(lhs - rhs),
        Operator::Multiply => checked(lhs * rhs),
        Operator::Divide => if rhs == 0 {
            Err(ArithmeticError::DivisionByZero)
        } else {
            checked(truncated_quotient(lhs as int, rhs as int))
        },
        Operator::Power => power(lhs, rhs),
    }
}

impl Number for i64 {
    fn from_digit(digit: u8) -> (number: i64)
        ensures
            number == of_digit(digit as nat),
    {
        digit as i64
    }

    fn apply(op: Operator, lhs: i64, rhs: i64) -> (result: Result<i64, ArithmeticError>)
        ensures
            result == combine(op, lhs, rhs),
    {
        match op {
            Operator::Add => match lhs.checked_add(rhs) {
                Some(sum) => Ok(sum),
                None => Err(ArithmeticError::Overflow),
            },
            Operator::Subtract => match lhs.checked_sub(rhs) {
                Some(difference) => Ok(difference),
                None => Err(ArithmeticError::Overflow),
            },
            Operator::Multiply => match lhs.checked_mul(rhs) {
                Some(product) => Ok(product),
                None => Err(ArithmeticError::Overflow),
            },
            Operator::Divide => if rhs == 0 {
                Err(ArithmeticError::DivisionByZero)
            } else {
                match lhs.checked_div(rhs) {
                    Some(quotient) => Ok(quotient),
                    None => Err(ArithmeticError::Overflow),
                }
            },
            Operator::Power => checked_power(lhs, rhs),
        }
    }
}

} // verus!
