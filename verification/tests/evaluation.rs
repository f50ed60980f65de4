use pratt_calc::environment::Environment;
use pratt_calc::eval::{digit_of, EvalError};
use pratt_calc::expression::{AssignmentError, Expression};
use pratt_calc::integer::checked_power;
use pratt_calc::number::{arithmetic_operator, ArithmeticError, Number, Operator};
use pratt_calc::parser::ParseError;
use pratt_calc::session::{execute, Error, Outcome};
use pratt_calc::token::Token;

/// Single-precision floating point, on which no operation fails.
#[derive(Clone, Copy, Debug, PartialEq)]
struct Float(f32);

impl Number for Float {
    fn from_digit(digit: u8) -> Float {
        Float(digit as f32)
    }

    fn apply(op: Operator, lhs: Float, rhs: Float) -> Result<Float, ArithmeticError> {
        Ok(Float(match op {
            Operator::Add => lhs.0 + rhs.0,
            Operator::Subtract => lhs.0 - rhs.0,
            Operator::Multiply => lhs.0 * rhs.0,
            Operator::Divide => lhs.0 / rhs.0,
            Operator::Power => lhs.0.powf(rhs.0),
        }))
    }
}

fn float_value(text: &str) -> Result<Float, EvalError> {
    Expression::from_str(text).unwrap().eval(&Environment::<Float>::new())
}

fn integer_value(text: &str) -> Result<i64, EvalError> {
    Expression::from_str(text).unwrap().eval(&Environment::<i64>::new())
}

#[test]
fn every_digit_is_worth_itself() {
    let mut variables = Environment::<i64>::new();
    variables.insert('x', 77);
    let digits = ['0', '1', '2', '3', '4', '5', '6', '7', '8', '9'];
    for (number, digit) in digits.iter().enumerate() {
        let text = digit.to_string();
        let tree = Expression::from_str(&text).unwrap();
        assert_eq!(tree, Expression::Atom(*digit));
        assert_eq!(tree.eval(&Environment::<i64>::new()), Ok(number as i64));
        assert_eq!(tree.eval(&variables), Ok(number as i64));
        assert_eq!(tree.eval(&Environment::<Float>::new()), Ok(Float(number as f32)));
        assert_eq!(digit_of(*digit), Some(number as u8));
    }
}

#[test]
fn subtraction_associates_to_the_left() {
    assert_eq!(float_value("1-2-3"), Ok(Float(-4.0)));
    assert_eq!(integer_value("1-2-3"), Ok(-4));
}

#[test]
fn power_associates_to_the_right() {
    assert_eq!(float_value("2^3^2"), Ok(Float(512.0)));
    assert_eq!(integer_value("2^3^2"), Ok(512));
}

#[test]
fn multiplication_binds_tighter_than_addition() {
    assert_eq!(float_value("1+2*3"), Ok(Float(7.0)));
    assert_eq!(integer_value("1+2*3"), Ok(7));
}

#[test]
fn parentheses_group_first() {
    assert_eq!(float_value("(1+2)*3"), Ok(Float(9.0)));
    assert_eq!(integer_value("(1+2)*3"), Ok(9));
}

#[test]
fn assignment_is_seen_by_the_next_line() {
    let mut variables = Environment::<Float>::new();
    assert_eq!(execute("x=5", &mut variables), Ok(Outcome::Assigned('x', Float(5.0))));
    assert_eq!(variables.get('x'), Some(Float(5.0)));
    assert_eq!(execute("x+1", &mut variables), Ok(Outcome::Value(Float(6.0))));

    let mut integers = Environment::<i64>::new();
    assert_eq!(execute("x=5\n", &mut integers), Ok(Outcome::Assigned('x', 5)));
    assert_eq!(execute("x+1\n", &mut integers), Ok(Outcome::Value(6)));
}

#[test]
fn assignment_replaces_the_earlier_value() {
    let mut variables = Environment::<i64>::new();
    assert_eq!(execute("a = 2", &mut variables), Ok(Outcome::Assigned('a', 2)));
    assert_eq!(execute("a = a * 4", &mut variables), Ok(Outcome::Assigned('a', 8)));
    assert_eq!(variables.get('a'), Some(8));
    assert_eq!(variables.get('b'), None);
}

#[test]
fn assignment_to_a_digit_is_refused() {
    let mut variables = Environment::<i64>::new();
    assert_eq!(
        execute("1=2", &mut variables),
        Err(Error::Assignment(AssignmentError::NotAVariable))
    );
    assert_eq!(variables.get('1'), None);
}

#[test]
fn assignment_to_an_operation_is_refused() {
    let tree = Expression::from_str("(a+b)=2").unwrap();
    assert_eq!(tree.is_asign(), Err(AssignmentError::NotAVariable));
}

#[test]
fn assignment_hands_out_the_right_hand_side() {
    let tree = Expression::from_str("Z=1+2").unwrap();
    let (name, value) = tree.is_asign().unwrap().unwrap();
    assert_eq!(name, 'Z');
    assert_eq!(value.to_string(), "(+ 1 2)");
}

#[test]
fn assignment_is_right_associative_and_only_seen_at_the_root() {
    let tree = Expression::from_str("a=b=1").unwrap();
    assert_eq!(tree.to_string(), "(= a (= b 1))");
    let mut variables = Environment::<i64>::new();
    assert_eq!(
        execute("a=b=1", &mut variables),
        Err(Error::Eval(EvalError::UndefinedVariable('b')))
    );
    assert_eq!(variables.get('a'), None);
    assert_eq!(variables.get('b'), None);
    assert_eq!(
        execute("1+(x=2)", &mut variables),
        Err(Error::Eval(EvalError::UndefinedVariable('x')))
    );
}

#[test]
fn expression_without_assignment_is_no_assignment() {
    assert_eq!(Expression::from_str("1+2").unwrap().is_asign(), Ok(None));
    assert_eq!(Expression::from_str("x").unwrap().is_asign(), Ok(None));
}

#[test]
fn undefined_variable_is_an_error() {
    assert_eq!(float_value("y"), Err(EvalError::UndefinedVariable('y')));
    assert_eq!(integer_value("y"), Err(EvalError::UndefinedVariable('y')));
}

#[test]
fn failed_assignment_leaves_the_variables_alone() {
    let mut variables = Environment::<i64>::new();
    variables.insert('x', 3);
    assert_eq!(
        execute("x=y+1", &mut variables),
        Err(Error::Eval(EvalError::UndefinedVariable('y')))
    );
    assert_eq!(variables.get('x'), Some(3));
    assert_eq!(
        execute("x=1/0", &mut variables),
        Err(Error::Eval(EvalError::Arithmetic(ArithmeticError::DivisionByZero)))
    );
    assert_eq!(variables.get('x'), Some(3));
}

#[test]
fn parse_errors_reach_the_session() {
    let mut variables = Environment::<i64>::new();
    assert_eq!(
        execute("(1+2", &mut variables),
        Err(Error::Parse(ParseError::UnmatchedParenthesis))
    );
    assert_eq!(
        execute("1#2", &mut variables),
        Err(Error::Parse(ParseError::BadOperator(Token::Op('#'))))
    );
    assert_eq!(execute("", &mut variables), Err(Error::Parse(ParseError::UnexpectedEnd)));
}

#[test]
fn equals_sign_is_no_arithmetic_operator() {
    assert_eq!(integer_value("1=2"), Err(EvalError::BadOperator('=')));
    let tree = Expression::Operation(
        '#',
        Box::new(Expression::Atom('1')),
        Box::new(Expression::Atom('2')),
    );
    assert_eq!(tree.eval(&Environment::<i64>::new()), Err(EvalError::BadOperator('#')));
}

#[test]
fn operands_are_evaluated_before_the_operator_is_looked_at() {
    let tree = Expression::Operation(
        '#',
        Box::new(Expression::Atom('y')),
        Box::new(Expression::Atom('z')),
    );
    assert_eq!(
        tree.eval(&Environment::<i64>::new()),
        Err(EvalError::UndefinedVariable('y'))
    );
    assert_eq!(integer_value("1+(2-z)*q"), Err(EvalError::UndefinedVariable('z')));
}

#[test]
fn float_division_by_zero_is_infinite() {
    assert_eq!(float_value("1/0"), Ok(Float(f32::INFINITY)));
    assert_eq!(float_value("1/2"), Ok(Float(0.5)));
}

#[test]
fn integer_division_rounds_towards_zero() {
    assert_eq!(integer_value("7/2"), Ok(3));
    assert_eq!(integer_value("(0-7)/2"), Ok(-3));
    assert_eq!(integer_value("7/(0-2)"), Ok(-3));
    assert_eq!(integer_value("(0-7)/(0-2)"), Ok(3));
    assert_eq!(
        integer_value("7/0"),
        Err(EvalError::Arithmetic(ArithmeticError::DivisionByZero))
    );
}

#[test]
fn integer_arithmetic_reports_overflow() {
    assert_eq!(i64::apply(Operator::Add, i64::MAX, 1), Err(ArithmeticError::Overflow));
    assert_eq!(i64::apply(Operator::Subtract, i64::MIN, 1), Err(ArithmeticError::Overflow));
    assert_eq!(i64::apply(Operator::Multiply, i64::MAX, 2), Err(ArithmeticError::Overflow));
    assert_eq!(i64::apply(Operator::Divide, i64::MIN, -1), Err(ArithmeticError::Overflow));
    assert_eq!(i64::apply(Operator::Add, i64::MAX, 0), Ok(i64::MAX));
    assert_eq!(
        integer_value("9^9^9"),
        Err(EvalError::Arithmetic(ArithmeticError::Overflow))
    );
}

#[test]
fn integer_powers() {
    assert_eq!(checked_power(2, 62), Ok(1 << 62));
    assert_eq!(checked_power(2, 63), Err(ArithmeticError::Overflow));
    assert_eq!(checked_power(-2, 63), Ok(i64::MIN));
    assert_eq!(checked_power(-2, 64), Err(ArithmeticError::Overflow));
    assert_eq!(checked_power(0, 0), Ok(1));
    assert_eq!(checked_power(0, 5), Ok(0));
    assert_eq!(checked_power(1, i64::MAX), Ok(1));
    assert_eq!(checked_power(-1, i64::MAX), Ok(-1));
    assert_eq!(checked_power(-1, i64::MAX - 1), Ok(1));
    assert_eq!(checked_power(3, 4), Ok(81));
    assert_eq!(checked_power(-3, 3), Ok(-27));
    assert_eq!(checked_power(2, -1), Err(ArithmeticError::NegativeExponent));
    assert_eq!(i64::apply(Operator::Power, 2, -1), Err(ArithmeticError::NegativeExponent));
    assert_eq!(
        integer_value("2^(0-1)"),
        Err(EvalError::Arithmetic(ArithmeticError::NegativeExponent))
    );
}

#[test]
fn operator_characters() {
    assert_eq!(arithmetic_operator('+'), Some(Operator::Add));
    assert_eq!(arithmetic_operator('-'), Some(Operator::Subtract));
    assert_eq!(arithmetic_operator('*'), Some(Operator::Multiply));
    assert_eq!(arithmetic_operator('/'), Some(Operator::Divide));
    assert_eq!(arithmetic_operator('^'), Some(Operator::Power));
    assert_eq!(arithmetic_operator('='), None);
    assert_eq!(i64::from_digit(7), 7);
}

#[test]
fn environment_keeps_the_last_value_of_each_name() {
    let mut variables = Environment::<i64>::new();
    assert_eq!(variables.get('a'), None);
    variables.insert('a', 1);
    variables.insert('A', 2);
    variables.insert('a', 3);
    assert_eq!(variables.get('a'), Some(3));
    assert_eq!(variables.get('A'), Some(2));
    assert_eq!(variables.get('b'), None);
}

#[test]
fn variables_are_read_by_name() {
    let mut variables = Environment::<i64>::new();
    variables.insert('x', 6);
    variables.insert('y', 7);
    let tree = Expression::from_str("x*y-x/y").unwrap();
    assert_eq!(tree.eval(&variables), Ok(42));
    let mut floats = Environment::<Float>::new();
    floats.insert('x', Float(1.5));
    assert_eq!(
        Expression::from_str("x*x").unwrap().eval(&floats),
        Ok(Float(2.25))
    );
}

#[test]
fn evaluation_does_not_change_the_variables() {
    let mut variables = Environment::<i64>::new();
    variables.insert('x', 6);
    assert_eq!(execute("x*2", &mut variables), Ok(Outcome::Value(12)));
    assert_eq!(variables.get('x'), Some(6));
}

#[test]
fn digits_count_from_zero_to_nine() {
    assert_eq!(digit_of('0'), Some(0));
    assert_eq!(digit_of('9'), Some(9));
    assert_eq!(digit_of('/'), None);
    assert_eq!(digit_of(':'), None);
    assert_eq!(digit_of('a'), None);
    assert_eq!(i64::from_digit(0), 0);
    assert_eq!(i64::from_digit(9), 9);
}

#[test]
fn integer_results_are_exact() {
    assert_eq!(i64::apply(Operator::Add, 2, 3), Ok(5));
    assert_eq!(i64::apply(Operator::Subtract, 2, 3), Ok(-1));
    assert_eq!(i64::apply(Operator::Multiply, -2, 3), Ok(-6));
    assert_eq!(i64::apply(Operator::Divide, -7, 2), Ok(-3));
    assert_eq!(i64::apply(Operator::Power, -2, 3), Ok(-8));
    assert_eq!(i64::apply(Operator::Power, 5, 0), Ok(1));
    assert_eq!(i64::apply(Operator::Divide, 0, 0), Err(ArithmeticError::DivisionByZero));
    assert_eq!(i64::apply(Operator::Multiply, i64::MIN, -1), Err(ArithmeticError::Overflow));
}
