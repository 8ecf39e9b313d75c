//! Tests of the lexer on its own: token shapes, the unary-minus lookbehind,
//! skipped characters, malformed literals, and determinism.

use calc::compute::{eval, to_rpn, EvalOutcome};
use calc::errors::Error;
use calc::tokenize::tokenize;
use calc::tokenize::{Operator, Token};

#[test]
fn number_and_operator_tokens() {
    let tokens = tokenize("2 + 3").unwrap();
    assert_eq!(
        tokens,
        vec![
            Token::Number(2.0f64.to_bits()),
            Token::Operator(Operator::Add),
            Token::Number(3.0f64.to_bits()),
        ]
    );
}

#[test]
fn unary_minus_lookbehind() {
    // A minus at the start, or after an operator or an opening parenthesis,
    // is unary; after a number it is binary subtraction.
    let tokens = tokenize("4 * -2").unwrap();
    assert_eq!(
        tokens,
        vec![
            Token::Number(4.0f64.to_bits()),
            Token::Operator(Operator::Multiply),
            Token::Operator(Operator::UnaryMinus),
            Token::Number(2.0f64.to_bits()),
        ]
    );
    let tokens2 = tokenize("(-2)").unwrap();
    assert_eq!(
        tokens2,
        vec![
            Token::LParen,
            Token::Operator(Operator::UnaryMinus),
            Token::Number(2.0f64.to_bits()),
            Token::RParen,
        ]
    );
    let tokens3 = tokenize("4 - 2").unwrap();
    assert_eq!(
        tokens3,
        vec![
            Token::Number(4.0f64.to_bits()),
            Token::Operator(Operator::Subtract),
            Token::Number(2.0f64.to_bits()),
        ]
    );
}

#[test]
fn retokenizing_is_deterministic() {
    let first = tokenize("3 + 5 * (2 ^ 3) - 4 / 2").unwrap();
    let second = tokenize("3 + 5 * (2 ^ 3) - 4 / 2").unwrap();
    assert_eq!(first, second);
}

#[test]
fn unrecognized_characters_are_skipped() {
    assert_eq!(tokenize("2 + 3").unwrap(), tokenize("2+3").unwrap());
    assert_eq!(tokenize("2a+\tb3").unwrap(), tokenize("2+3").unwrap());
}

#[test]
fn malformed_literal_is_unacceptable() {
    let result = tokenize("1.2.3");
    assert!(matches!(result, Err(Error::UnacceptableToken)));
}

#[test]
fn unicode_digit_joins_literal() {
    // A Unicode numeric character continues a literal, so the buffer fails
    // to parse as a number instead of the character being skipped.
    let result = tokenize("1٣");
    assert!(matches!(result, Err(Error::UnacceptableToken)));
}

#[test]
fn fractional_literals_parse_exactly() {
    let tokens = tokenize("0.1").unwrap();
    assert_eq!(tokens, vec![Token::Number(0.1f64.to_bits())]);
}

#[test]
fn rpn_order_respects_precedence() {
    let rpn = to_rpn(tokenize("2 + 3 * 4").unwrap());
    assert_eq!(
        rpn,
        vec![
            Token::Number(2.0f64.to_bits()),
            Token::Number(3.0f64.to_bits()),
            Token::Number(4.0f64.to_bits()),
            Token::Operator(Operator::Multiply),
            Token::Operator(Operator::Add),
        ]
    );
}

#[test]
fn power_operands_are_reported() {
    // With no power results supplied, evaluation stops at `^` and reports
    // its operands.
    let rpn = to_rpn(tokenize("2 ^ 3").unwrap());
    let outcome = eval(&rpn, &Vec::new());
    assert_eq!(
        outcome,
        EvalOutcome::NeedPow(2.0f64.to_bits(), 3.0f64.to_bits())
    );
}

#[test]
fn power_chain_requests_right_group_first() {
    // 2 ^ 3 ^ 2 groups to the right: the first power requested is 3 ^ 2,
    // the second joins 2 with that result.
    let rpn = to_rpn(tokenize("2 ^ 3 ^ 2").unwrap());
    assert_eq!(
        eval(&rpn, &Vec::new()),
        EvalOutcome::NeedPow(3.0f64.to_bits(), 2.0f64.to_bits())
    );
    let pows = vec![9.0f64.to_bits()];
    assert_eq!(
        eval(&rpn, &pows),
        EvalOutcome::NeedPow(2.0f64.to_bits(), 9.0f64.to_bits())
    );
    let pows2 = vec![9.0f64.to_bits(), 512.0f64.to_bits()];
    assert_eq!(eval(&rpn, &pows2), EvalOutcome::Done(512.0f64.to_bits()));
}

#[test]
fn nonfinite_power_result_fails() {
    let rpn = to_rpn(tokenize("2 ^ 3").unwrap());
    let pows = vec![f64::NAN.to_bits()];
    let outcome = eval(&rpn, &pows);
    assert_eq!(outcome, EvalOutcome::Failed(Error::DivisionByZero));
}

#[test]
fn chained_unary_minus_fails() {
    // The converter compares a unary minus against the one already on the
    // stack and pops it before any operand has arrived, so a doubled sign
    // reaches the evaluator with too few operands.
    let rpn = to_rpn(tokenize("--2").unwrap());
    let outcome = eval(&rpn, &Vec::new());
    assert_eq!(outcome, EvalOutcome::Failed(Error::InsufficientOperands));
}
