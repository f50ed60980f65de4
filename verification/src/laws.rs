//! Laws that relate the parser, the evaluator and the number types.

use crate::eval::{
    evaluate, evaluates, fold, lemma_evaluation_is_a_function, operands_meet, EvalError,
};
use crate::expression::Expression;
use crate::infix::{all_proper, is_proper, lemma_parse_inverts_render};
use crate::integer::{combine, of_digit};
use crate::number::{digit_number, ArithmeticError, Number, Operator};
use crate::parser::{
    binding_power, left_power, parse, parse_operand, parse_operators, parse_tokens, right_power,
    ParseError,
};
use crate::session::{is_outcome, variables_after, Error, Outcome};
use crate::token::{digit_value, head, is_digit, is_letter, tail, tokenize, Token};
use vstd::prelude::*;

verus! {

/// A line that holds one digit parses to that digit's atom.
pub proof fn lemma_digit_parses_to_atom(digit: char)
    requires
        is_digit(digit),
    ensures
        tokenize(seq![digit]) == seq![Token::Atom(digit)],
        parse(seq![digit]) == Ok::<_, ParseError>(Expression::Atom(digit)),
{
    let line = seq![digit];
    assert(line.drop_last() == Seq::<char>::empty());
    assert(line.last() == digit);
    reveal_with_fuel(Seq::filter_map, 3);
    assert(tokenize(line) == seq![Token::Atom(digit)]);
    let tokens = tokenize(line);
    assert(parse_operand(tokens) == Ok::<_, ParseError>(
        (Expression::Atom(digit), tokens.skip(1)),
    ));
    assert(tokens.skip(1).len() == 0);
    assert(parse_operators(Expression::Atom(digit), tokens.skip(1), 0) == Ok::<_, ParseError>(
        (Expression::Atom(digit), tokens.skip(1)),
    ));
    assert(parse_tokens(tokens, 0) == Ok::<_, ParseError>(
        (Expression::Atom(digit), tokens.skip(1)),
    ));
}

/// A digit evaluates to what the number type makes of it, whatever the
/// variables hold.
pub proof fn lemma_digit_evaluates_to_its_number<N: Number>(
    digit: char,
    variables: Map<char, N>,
    result: Result<N, EvalError>,
)
    requires
        is_digit(digit),
        parse(seq![digit]) matches Ok(tree) && evaluates(tree, variables, result),
    ensures
        0 <= digit_value(digit) <= 9,
        result matches Ok(number) && digit_number(digit_value(digit) as u8, number),
{
    lemma_digit_parses_to_atom(digit);
}

/// The value of `expression` over the integers.
pub open spec fn evaluate_integer(expression: Expression, variables: Map<char, i64>) -> Result<
    i64,
    EvalError,
> {
    evaluate(
        expression,
        variables,
        |digit: nat| of_digit(digit),
        |op: Operator, lhs: i64, rhs: i64| combine(op, lhs, rhs),
    )
}

/// Over the integers an expression evaluates to one result only: the one
/// that `evaluate_integer` gives.
pub proof fn lemma_integer_evaluation(
    expression: Expression,
    variables: Map<char, i64>,
    result: Result<i64, EvalError>,
)
    requires
        evaluates(expression, variables, result),
    ensures
        result == evaluate_integer(expression, variables),
{
    lemma_evaluation_is_a_function(
        expression,
        variables,
        result,
        |digit: nat| of_digit(digit),
        |op: Operator, lhs: i64, rhs: i64| combine(op, lhs, rhs),
    );
}

/// Over the integers a digit evaluates to the distance of its character
/// from `'0'`, whatever the variables hold.
pub proof fn lemma_digit_evaluates_to_integer(
    digit: char,
    variables: Map<char, i64>,
    result: Result<i64, EvalError>,
)
    requires
        is_digit(digit),
        parse(seq![digit]) matches Ok(tree) && evaluates(tree, variables, result),
    ensures
        result == Ok::<i64, EvalError>((digit as int - '0' as int) as i64),
{
    lemma_digit_evaluates_to_its_number(digit, variables, result);
}

/// An assignment is read back: once a line has assigned a value to a
/// variable, the variable evaluates to that value.
pub proof fn lemma_assigned_variable_is_read_back<N: Number>(
    variables: Map<char, N>,
    name: char,
    number: N,
    result: Result<N, EvalError>,
)
    requires
        !is_digit(name),
        evaluates(
            Expression::Atom(name),
            variables_after(variables, Ok(Outcome::Assigned(name, number))),
            result,
        ),
    ensures
        result == Ok::<N, EvalError>(number),
{
}

/// A line that is an assignment assigns to a letter, and a line that fails
/// changes no variable.
pub proof fn lemma_lines_change_letters_only<N: Number>(
    input: Seq<char>,
    variables: Map<char, N>,
    outcome: Result<Outcome<N>, Error>,
)
    requires
        is_outcome(input, variables, outcome),
    ensures
        outcome matches Ok(Outcome::Assigned(name, _)) ==> is_letter(name),
        outcome is Err ==> variables_after(variables, outcome) == variables,
        forall|other: char|
            !is_letter(other) ==> (#[trigger] variables_after(variables, outcome).contains_key(
                other,
            ) <==> variables.contains_key(other)),
{
}

/// The prefix form is a prefix code: where the forms of two trees, each
/// followed by some text, give the same text, the trees are the same and so
/// is what follows them.
pub proof fn lemma_display_is_a_prefix_code(
    one: Expression,
    after_one: Seq<char>,
    other: Expression,
    after_other: Seq<char>,
)
    requires
        one.atoms_are_alphanumeric(),
        other.atoms_are_alphanumeric(),
        one.display() + after_one == other.display() + after_other,
    ensures
        one == other,
        after_one == after_other,
    decreases one,
{
    let text = one.display() + after_one;
    match (one, other) {
        (Expression::Atom(c), Expression::Atom(d)) => {
            assert(text[0] == c && text[0] == d);
            assert(after_one == text.skip(1));
            assert(after_other == text.skip(1));
        },
        (Expression::Atom(c), Expression::Operation(_, _, _)) => {
            assert(text[0] == c && text[0] == '(');
        },
        (Expression::Operation(_, _, _), Expression::Atom(d)) => {
            assert(text[0] == '(' && text[0] == d);
        },
        (Expression::Operation(op, lhs, rhs), Expression::Operation(op2, lhs2, rhs2)) => {
            assert(text[1] == op && text[1] == op2);
            let close = seq![')'];
            let right = rhs.display() + (close + after_one);
            let right2 = rhs2.display() + (close + after_other);
            let space = seq![' '];
            assert(text.skip(3) == lhs.display() + (space + right));
            assert(text.skip(3) == lhs2.display() + (space + right2));
            lemma_display_is_a_prefix_code(*lhs, space + right, *lhs2, space + right2);
            assert(right == (space + right).skip(1));
            assert(right2 == (space + right2).skip(1));
            lemma_display_is_a_prefix_code(*rhs, close + after_one, *rhs2, close + after_other);
            assert(after_one == (close + after_one).skip(1));
            assert(after_other == (close + after_other).skip(1));
        },
    }
}

/// The prefix form is unambiguous: trees with the same form are the same.
pub proof fn lemma_display_is_unambiguous(one: Expression, other: Expression)
    requires
        one.atoms_are_alphanumeric(),
        other.atoms_are_alphanumeric(),
        one.display() == other.display(),
    ensures
        one == other,
{
    let nothing = Seq::<char>::empty();
    assert(one.display() + nothing == one.display());
    assert(other.display() + nothing == other.display());
    lemma_display_is_a_prefix_code(one, nothing, other, nothing);
}

/// Parsing is a function of the text: two parses of one text give the same
/// result, and so trees with the same prefix form.
pub proof fn lemma_parse_is_repeatable(
    text: Seq<char>,
    first: Result<Expression, ParseError>,
    second: Result<Expression, ParseError>,
)
    requires
        first == parse(text),
        second == parse(text),
    ensures
        first == second,
        first matches Ok(one) ==> second matches Ok(other) && one.display() == other.display(),
{
}

/// Of two neighbouring operators the left one takes the operand between
/// them, unless the right one binds it more tightly: `a p b q c` is
/// `(a p b) q c` where the left binding power of `q` is below the right
/// binding power of `p`, and `a p (b q c)` otherwise.
pub proof fn lemma_neighbouring_operators(a: char, p: char, b: char, q: char, c: char)
    requires
        binding_power(p) is Some,
        binding_power(q) is Some,
    ensures
        parse_tokens(
            seq![Token::Atom(a), Token::Op(p), Token::Atom(b), Token::Op(q), Token::Atom(c)],
            0,
        ) == Ok::<_, ParseError>(
            (
                if left_power(q) < right_power(p) {
                    Expression::Operation(
                        q,
                        Box::new(
                            Expression::Operation(
                                p,
                                Box::new(Expression::Atom(a)),
                                Box::new(Expression::Atom(b)),
                            ),
                        ),
                        Box::new(Expression::Atom(c)),
                    )
                } else {
                    Expression::Operation(
                        p,
                        Box::new(Expression::Atom(a)),
                        Box::new(
                            Expression::Operation(
                                q,
                                Box::new(Expression::Atom(b)),
                                Box::new(Expression::Atom(c)),
                            ),
                        ),
                    )
                },
                Seq::<Token>::empty(),
            ),
        ),
{
    let tokens = seq![Token::Atom(a), Token::Op(p), Token::Atom(b), Token::Op(q), Token::Atom(c)];
    let inner = Expression::Operation(
        p,
        Box::new(Expression::Atom(a)),
        Box::new(Expression::Atom(b)),
    );
    let outer = Expression::Operation(
        q,
        Box::new(Expression::Atom(b)),
        Box::new(Expression::Atom(c)),
    );
    let left_leaning = Expression::Operation(q, Box::new(inner), Box::new(Expression::Atom(c)));
    let right_leaning = Expression::Operation(p, Box::new(Expression::Atom(a)), Box::new(outer));
    let (first, second, third) = (Expression::Atom(a), Expression::Atom(b), Expression::Atom(c));
    assert(first.operators_are_known() && second.operators_are_known()
        && third.operators_are_known());
    assert(inner.operators_are_known() && outer.operators_are_known());
    assert(left_leaning.operators_are_known());
    assert(right_leaning.operators_are_known());
    let tree = if left_power(q) < right_power(p) {
        left_leaning
    } else {
        right_leaning
    };
    assert(first.infix(0, Token::Op(p)) == seq![Token::Atom(a)]);
    assert(second.infix(right_power(p), Token::Op(q)) == seq![Token::Atom(b)]);
    assert(third.infix(right_power(q), Token::Eof) == seq![Token::Atom(c)]);
    if left_power(q) < right_power(p) {
        assert(inner.stands_bare(0, Token::Op(q)));
        assert(inner.infix(0, Token::Op(q)) =~= seq![
            Token::Atom(a),
            Token::Op(p),
            Token::Atom(b),
        ]);
    } else {
        assert(outer.stands_bare(right_power(p), Token::Eof));
        assert(outer.infix(right_power(p), Token::Eof) =~= seq![
            Token::Atom(b),
            Token::Op(q),
            Token::Atom(c),
        ]);
    }
    assert(tree.stands_bare(0, Token::Eof));
    assert(tree.infix(0, Token::Eof) =~= tokens);
    crate::infix::lemma_parse_inverts_infix(tree);
}

/// The tokens of any text are proper: each is the token that its own
/// character gives.
pub proof fn lemma_tokenize_is_proper(text: Seq<char>)
    ensures
        all_proper(tokenize(text)),
    decreases text.len(),
{
    if text.len() > 0 {
        lemma_tokenize_is_proper(text.drop_last());
    }
}

/// From proper tokens the parser builds well-formed trees only, and leaves
/// proper tokens behind.
pub proof fn lemma_parsed_is_well_formed(tokens: Seq<Token>, min_bp: u8)
    requires
        all_proper(tokens),
    ensures
        parse_tokens(tokens, min_bp) matches Ok((tree, rest)) ==> tree.well_formed()
            && all_proper(rest),
        parse_operand(tokens) matches Ok((tree, rest)) ==> tree.well_formed() && all_proper(
            rest,
        ),
    decreases tokens.len(), 1int,
{
    if tokens.len() > 0 {
        assert(is_proper(tokens[0]));
        assert(all_proper(tail(tokens)));
        lemma_parsed_is_well_formed(tail(tokens), 0);
        if let Ok((inner, rest)) = parse_tokens(tail(tokens), 0) {
            if rest.len() > 0 {
                assert(all_proper(tail(rest))) by {
                    assert forall|i: int| 0 <= i < tail(rest).len() implies is_proper(
                        #[trigger] tail(rest)[i],
                    ) by {
                        assert(tail(rest)[i] == rest[i + 1]);
                    }
                }
            }
        }
        if let Ok((lhs, rest)) = parse_operand(tokens) {
            crate::parser::lemma_parse_consumes(tokens, min_bp);
            lemma_folded_is_well_formed(lhs, rest, min_bp);
        }
    }
}

/// The same for the operator loop, which starts from a well-formed tree.
pub proof fn lemma_folded_is_well_formed(lhs: Expression, tokens: Seq<Token>, min_bp: u8)
    requires
        lhs.well_formed(),
        all_proper(tokens),
    ensures
        parse_operators(lhs, tokens, min_bp) matches Ok((tree, rest)) ==> tree.well_formed()
            && all_proper(rest),
    decreases tokens.len(), 0int,
{
    if let Token::Op(op) = head(tokens) {
        if let Some((left_bp, right_bp)) = binding_power(op) {
            if op != ')' && left_bp >= min_bp {
                assert(all_proper(tail(tokens))) by {
                    assert forall|i: int| 0 <= i < tail(tokens).len() implies is_proper(
                        #[trigger] tail(tokens)[i],
                    ) by {
                        assert(tail(tokens)[i] == tokens[i + 1]);
                    }
                }
                lemma_parsed_is_well_formed(tail(tokens), right_bp);
                if let Ok((rhs, rest)) = parse_tokens(tail(tokens), right_bp) {
                    if rest.len() < tokens.len() {
                        lemma_folded_is_well_formed(
                            Expression::Operation(op, Box::new(lhs), Box::new(rhs)),
                            rest,
                            min_bp,
                        );
                    }
                }
            }
        }
    }
}

/// Every tree that a text parses to is well-formed, and its rendered line
/// parses to the same tree again.
pub proof fn lemma_parse_gives_well_formed(text: Seq<char>)
    ensures
        parse(text) matches Ok(tree) ==> tree.well_formed() && parse(tree.render()) == Ok::<
            _,
            ParseError,
        >(tree),
{
    lemma_tokenize_is_proper(text);
    lemma_parsed_is_well_formed(tokenize(text), 0);
    if let Ok(tree) = parse(text) {
        lemma_parse_inverts_render(tree);
    }
}

/// The only operator of a well-formed tree that evaluation can fail on is
/// `=`, which has a binding power and no arithmetic.
pub proof fn lemma_bad_operator_is_assignment<N: Number>(
    tree: Expression,
    variables: Map<char, N>,
    op: char,
)
    requires
        tree.operators_are_known(),
        evaluates(tree, variables, Err::<N, EvalError>(EvalError::BadOperator(op))),
    ensures
        op == '=',
    decreases tree,
{
    match tree {
        Expression::Atom(_) => {},
        Expression::Operation(root, lhs, rhs) => {
            let result = Err::<N, EvalError>(EvalError::BadOperator(op));
            let (left, right, applied) = choose|
                left: Result<N, EvalError>,
                right: Result<N, EvalError>,
                applied: Result<N, ArithmeticError>,
            |
                {
                    &&& result == #[trigger] fold(root, left, right, applied)
                    &&& evaluates(*lhs, variables, left)
                    &&& left is Ok ==> evaluates(*rhs, variables, right)
                    &&& operands_meet(root, left, right, applied)
                };
            if left is Err {
                lemma_bad_operator_is_assignment(*lhs, variables, op);
            } else if right is Err {
                lemma_bad_operator_is_assignment(*rhs, variables, op);
            }
        },
    }
}

} // verus!
