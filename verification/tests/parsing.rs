use pratt_calc::expression::{AssignmentError, Expression};
use pratt_calc::lexer::Lexer;
use pratt_calc::parser::{infix_binding_power, parse_expression, ParseError};
use pratt_calc::token::Token;

fn atom(c: char) -> Box<Expression> {
    Box::new(Expression::Atom(c))
}

#[test]
fn lexer_classifies_each_character() {
    let mut lexer = Lexer::new(" a+ 1\t*(b)\n");
    let expected = [
        Token::Atom('a'),
        Token::Op('+'),
        Token::Atom('1'),
        Token::Op('*'),
        Token::Op('('),
        Token::Atom('b'),
        Token::Op(')'),
    ];
    for token in expected {
        assert_eq!(lexer.peek(), token);
        assert_eq!(lexer.next(), token);
    }
    assert_eq!(lexer.peek(), Token::Eof);
    assert_eq!(lexer.next(), Token::Eof);
    assert_eq!(lexer.next(), Token::Eof);
}

#[test]
fn precedence_display_form() {
    let tree = Expression::from_str("1+2*3").unwrap();
    assert_eq!(tree.to_string(), "(+ 1 (* 2 3))");
}

#[test]
fn subtraction_leans_left() {
    let tree = Expression::from_str("1-2-3").unwrap();
    assert_eq!(tree.to_string(), "(- (- 1 2) 3)");
}

#[test]
fn power_leans_right() {
    let tree = Expression::from_str("2^3^2").unwrap();
    assert_eq!(tree.to_string(), "(^ 2 (^ 3 2))");
}

#[test]
fn parentheses_override_precedence() {
    let tree = Expression::from_str("(1+2)*3").unwrap();
    assert_eq!(
        tree,
        Expression::Operation(
            '*',
            Box::new(Expression::Operation('+', atom('1'), atom('2'))),
            atom('3'),
        )
    );
}

#[test]
fn unmatched_parenthesis_is_an_error() {
    assert_eq!(Expression::from_str("(1+2"), Err(ParseError::UnmatchedParenthesis));
}

#[test]
fn unknown_operator_is_an_error() {
    assert_eq!(
        Expression::from_str("1#2"),
        Err(ParseError::BadOperator(Token::Op('#')))
    );
}

#[test]
fn non_letter_target_is_an_error() {
    let tree = Expression::from_str("1=2").unwrap();
    assert_eq!(tree.is_asign(), Err(AssignmentError::NotAVariable));
}

#[test]
fn binding_powers_of_the_table() {
    assert_eq!(infix_binding_power('='), Some((2, 1)));
    assert_eq!(infix_binding_power('^'), Some((31, 30)));
    assert_eq!(infix_binding_power('#'), None);
}

#[test]
fn parse_expression_stops_at_weaker_operator() {
    let mut lexer = Lexer::new("2*3+4");
    let tree = parse_expression(&mut lexer, 20).unwrap();
    assert_eq!(tree.to_string(), "(* 2 3)");
    assert_eq!(lexer.next(), Token::Op('+'));
}

fn prefix(text: &str) -> String {
    Expression::from_str(text).unwrap().to_string()
}

#[test]
fn parsing_twice_gives_the_same_tree() {
    for text in ["1+2*3", "a=(b-1)^2", "x", "((1))"] {
        let first = Expression::from_str(text).unwrap();
        let second = Expression::from_str(text).unwrap();
        assert_eq!(first, second);
        assert_eq!(first.to_string(), second.to_string());
    }
}

#[test]
fn a_single_atom_is_its_own_tree() {
    assert_eq!(Expression::from_str("7"), Ok(Expression::Atom('7')));
    assert_eq!(Expression::from_str(" q "), Ok(Expression::Atom('q')));
    assert_eq!(prefix("Q"), "Q");
}

#[test]
fn operators_of_one_level_lean_left() {
    assert_eq!(prefix("8/4/2"), "(/ (/ 8 4) 2)");
    assert_eq!(prefix("1-2+3"), "(+ (- 1 2) 3)");
    assert_eq!(prefix("2*3/4"), "(/ (* 2 3) 4)");
}

#[test]
fn all_levels_together() {
    assert_eq!(prefix("a=1+2*3^4^5-6"), "(= a (- (+ 1 (* 2 (^ 3 (^ 4 5)))) 6))");
    assert_eq!(prefix("1*2+3"), "(+ (* 1 2) 3)");
    assert_eq!(prefix("2^3*4"), "(* (^ 2 3) 4)");
}

#[test]
fn parentheses_are_kept_where_the_tree_needs_them() {
    assert_eq!(prefix("1-(2-3)"), "(- 1 (- 2 3))");
    assert_eq!(prefix("(2^3)^2"), "(^ (^ 2 3) 2)");
    assert_eq!(prefix("((1))"), "1");
    assert_eq!(prefix("(a)+((b))"), "(+ a b)");
    assert_eq!(prefix("2*(3+4)*5"), "(* (* 2 (+ 3 4)) 5)");
}

#[test]
fn operator_where_an_operand_must_start() {
    assert_eq!(
        Expression::from_str("+1"),
        Err(ParseError::UnexpectedToken(Token::Op('+')))
    );
    assert_eq!(
        Expression::from_str(")"),
        Err(ParseError::UnexpectedToken(Token::Op(')')))
    );
    assert_eq!(
        Expression::from_str("()"),
        Err(ParseError::UnexpectedToken(Token::Op(')')))
    );
    assert_eq!(
        Expression::from_str("1+*2"),
        Err(ParseError::UnexpectedToken(Token::Op('*')))
    );
}

#[test]
fn input_that_ends_where_an_operand_must_start() {
    assert_eq!(Expression::from_str(""), Err(ParseError::UnexpectedEnd));
    assert_eq!(Expression::from_str("  \n"), Err(ParseError::UnexpectedEnd));
    assert_eq!(Expression::from_str("1+"), Err(ParseError::UnexpectedEnd));
    assert_eq!(Expression::from_str("("), Err(ParseError::UnexpectedEnd));
}

#[test]
fn atom_where_an_operator_must_follow() {
    assert_eq!(
        Expression::from_str("12"),
        Err(ParseError::BadOperator(Token::Atom('2')))
    );
    assert_eq!(
        Expression::from_str("(1)x"),
        Err(ParseError::BadOperator(Token::Atom('x')))
    );
}

#[test]
fn opening_parenthesis_where_an_operator_must_follow() {
    assert_eq!(
        Expression::from_str("1(2)"),
        Err(ParseError::BadOperator(Token::Op('(')))
    );
}

#[test]
fn parenthesis_that_is_never_closed() {
    assert_eq!(Expression::from_str("((1)"), Err(ParseError::UnmatchedParenthesis));
    assert_eq!(Expression::from_str("(1+(2*3)"), Err(ParseError::UnmatchedParenthesis));
}

#[test]
fn tokens_behind_a_stray_closing_parenthesis_are_ignored() {
    assert_eq!(Expression::from_str("1)2"), Ok(Expression::Atom('1')));
    assert_eq!(prefix("1+2)#"), "(+ 1 2)");
}

#[test]
fn characters_outside_ascii_are_operators() {
    let mut lexer = Lexer::new("é1");
    assert_eq!(lexer.next(), Token::Op('é'));
    assert_eq!(lexer.next(), Token::Atom('1'));
    assert_eq!(lexer.next(), Token::Eof);
    assert_eq!(
        Expression::from_str("1é2"),
        Err(ParseError::BadOperator(Token::Op('é')))
    );
}

#[test]
fn only_ascii_whitespace_is_dropped() {
    let mut lexer = Lexer::new(" \t\n\u{c}\r\u{b}\u{a0}");
    assert_eq!(lexer.next(), Token::Op('\u{b}'));
    assert_eq!(lexer.next(), Token::Op('\u{a0}'));
    assert_eq!(lexer.next(), Token::Eof);
}

#[test]
fn empty_input_has_no_tokens() {
    let mut lexer = Lexer::new("");
    assert_eq!(lexer.peek(), Token::Eof);
    assert_eq!(lexer.next(), Token::Eof);
}

#[test]
fn every_operator_has_its_binding_power() {
    assert_eq!(infix_binding_power('+'), Some((10, 11)));
    assert_eq!(infix_binding_power('-'), Some((10, 11)));
    assert_eq!(infix_binding_power('*'), Some((20, 21)));
    assert_eq!(infix_binding_power('/'), Some((20, 21)));
    assert_eq!(infix_binding_power('('), None);
    assert_eq!(infix_binding_power(')'), None);
    assert_eq!(infix_binding_power('a'), None);
}

#[test]
fn parse_expression_leaves_the_closing_parenthesis() {
    let mut lexer = Lexer::new("1+2)*3");
    let tree = parse_expression(&mut lexer, 0).unwrap();
    assert_eq!(tree.to_string(), "(+ 1 2)");
    assert_eq!(lexer.next(), Token::Op(')'));
    assert_eq!(lexer.next(), Token::Op('*'));
}

#[test]
fn parse_expression_absorbs_equal_power_only_on_the_right() {
    let mut lexer = Lexer::new("2^3^4");
    let tree = parse_expression(&mut lexer, 31).unwrap();
    assert_eq!(tree.to_string(), "(^ 2 (^ 3 4))");
    let mut lexer = Lexer::new("2-3-4");
    let tree = parse_expression(&mut lexer, 11).unwrap();
    assert_eq!(tree, Expression::Atom('2'));
    assert_eq!(lexer.next(), Token::Op('-'));
}

#[test]
fn display_of_a_hand_built_tree() {
    let tree = Expression::Operation(
        '#',
        atom('x'),
        Box::new(Expression::Operation('=', atom('1'), atom('2'))),
    );
    assert_eq!(tree.to_string(), "(# x (= 1 2))");
    assert_eq!(tree.is_asign(), Ok(None));
}

#[test]
fn assignment_needs_a_letter() {
    assert_eq!(
        Expression::from_str("a=1").unwrap().is_asign(),
        Ok(Some(('a', &Expression::Atom('1'))))
    );
    assert_eq!(
        Expression::from_str("z=1").unwrap().is_asign(),
        Ok(Some(('z', &Expression::Atom('1'))))
    );
    assert_eq!(
        Expression::from_str("A=1").unwrap().is_asign(),
        Ok(Some(('A', &Expression::Atom('1'))))
    );
    assert_eq!(
        Expression::from_str("9=1").unwrap().is_asign(),
        Err(AssignmentError::NotAVariable)
    );
    let odd = Expression::Operation('=', atom('['), atom('1'));
    assert_eq!(odd.is_asign(), Err(AssignmentError::NotAVariable));
}
