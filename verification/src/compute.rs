//! Infix-to-postfix conversion (shunting yard) and postfix evaluation.

use vstd::prelude::*;

use crate::errors::Error;
use crate::numeric::add_bits;
use crate::numeric::div_bits;
use crate::numeric::is_nonfinite_bits;
use crate::numeric::mul_bits;
use crate::numeric::neg_bits;
use crate::numeric::rem_bits;
use crate::numeric::spec_add;
use crate::numeric::spec_div;
use crate::numeric::spec_is_nonfinite;
use crate::numeric::spec_mul;
use crate::numeric::spec_neg;
use crate::numeric::spec_rem;
use crate::numeric::spec_sub;
use crate::numeric::sub_bits;
use crate::tokenize::Operator;
use crate::tokenize::Token;

verus! {

/// The precedence rank of an operator; a higher rank binds tighter.
pub open spec fn spec_precedence(op: Operator) -> u8 {
    match op {
        Operator::Add | Operator::Subtract => 10,
        Operator::Multiply | Operator::Divide | Operator::Modulus => 20,
        Operator::Power => 30,
        Operator::UnaryMinus => 40,
    }
}

/// Returns the precedence rank of an operator; a higher rank binds tighter.
pub fn precedence(op: &Operator) -> (r: u8)
    ensures
        r == spec_precedence(*op),
{
    match op {
        Operator::Add | Operator::Subtract => 10,
        Operator::Multiply | Operator::Divide | Operator::Modulus => 20,
        Operator::Power => 30,
        Operator::UnaryMinus => 40,
    }
}

/// Whether an operator is right-associative: only power is.
pub open spec fn spec_is_right_associative(op: Operator) -> bool {
    op == Operator::Power
}

/// Returns whether an operator is right-associative: only power is.
pub fn is_right_associative(op: &Operator) -> (r: bool)
    ensures
        r == spec_is_right_associative(*op),
{
    matches!(op, Operator::Power)
}

/// Whether `op2`, on top of the operator stack, is popped to the output
/// before `op1` is pushed: a right-associative `op1` yields only to strictly
/// higher precedence, a left-associative one also to equal precedence.
pub open spec fn spec_should_pop(op1: Operator, op2: Operator) -> bool {
    (spec_is_right_associative(op1) && spec_precedence(op1) < spec_precedence(op2)) || (
    !spec_is_right_associative(op1) && spec_precedence(op1) <= spec_precedence(op2))
}

/// The output and operator stack after popping, for an incoming operator
/// `op1`, every stack operator that outranks it.
pub open spec fn spec_pop_for(op1: Operator, out: Seq<Token>, ops: Seq<Token>) -> (Seq<Token>, Seq<
    Token,
>)
    decreases ops.len(),
{
    if ops.len() == 0 {
        (out, ops)
    } else {
        match ops.last() {
            Token::Operator(op2) => {
                if spec_should_pop(op1, op2) {
                    spec_pop_for(op1, out.push(ops.last()), ops.drop_last())
                } else {
                    (out, ops)
                }
            },
            _ => (out, ops),
        }
    }
}

/// The output and operator stack after a closing parenthesis: operators are
/// popped to the output until an opening parenthesis is popped and
/// discarded, or the stack runs out.
pub open spec fn spec_pop_to_lparen(out: Seq<Token>, ops: Seq<Token>) -> (Seq<Token>, Seq<Token>)
    decreases ops.len(),
{
    if ops.len() == 0 {
        (out, ops)
    } else if ops.last() == Token::LParen {
        (out, ops.drop_last())
    } else {
        spec_pop_to_lparen(out.push(ops.last()), ops.drop_last())
    }
}

/// The output once the whole input is consumed: the remaining stack is
/// drained onto it, top first.
pub open spec fn spec_drain(out: Seq<Token>, ops: Seq<Token>) -> Seq<Token>
    decreases ops.len(),
{
    if ops.len() == 0 {
        out
    } else {
        spec_drain(out.push(ops.last()), ops.drop_last())
    }
}

/// The postfix form of the tokens of `ts` from position `i` on, given the
/// output and operator stack built so far.
pub open spec fn spec_rpn_from(ts: Seq<Token>, i: int, out: Seq<Token>, ops: Seq<Token>) -> Seq<
    Token,
>
    recommends
        0 <= i <= ts.len(),
    decreases ts.len() - i when 0 <= i <= ts.len()
{
    if i >= ts.len() {
        spec_drain(out, ops)
    } else {
        match ts[i] {
            Token::Number(_) => spec_rpn_from(ts, i + 1, out.push(ts[i]), ops),
            Token::Operator(op1) => {
                let popped = spec_pop_for(op1, out, ops);
                spec_rpn_from(ts, i + 1, popped.0, popped.1.push(ts[i]))
            },
            Token::LParen => spec_rpn_from(ts, i + 1, out, ops.push(Token::LParen)),
            Token::RParen => {
                let popped = spec_pop_to_lparen(out, ops);
                spec_rpn_from(ts, i + 1, popped.0, popped.1)
            },
        }
    }
}

/// The postfix (reverse Polish) form of an infix token sequence.
pub open spec fn spec_to_rpn(ts: Seq<Token>) -> Seq<Token> {
    spec_rpn_from(ts, 0, Seq::empty(), Seq::empty())
}

/// Reorders an infix token sequence into postfix form with the
/// shunting-yard algorithm.
///
/// The conversion is total: unbalanced parentheses are not rejected here.
/// An unmatched closing parenthesis is discarded, and an unmatched opening
/// parenthesis is drained into the output at the end, where evaluation
/// reports it as [`Error::MismatchedParentheses`].
pub fn to_rpn(tokens: Vec<Token>) -> (r: Vec<Token>)
    ensures
        r@ == spec_to_rpn(tokens@),
{
    let mut output: Vec<Token> = Vec::new();
    let mut ops: Vec<Token> = Vec::new();
    let n = tokens.len();
    let mut i: usize = 0;
    while i < n
        invariant
            i <= n,
            n == tokens@.len(),
            spec_rpn_from(tokens@, i as int, output@, ops@) == spec_to_rpn(tokens@),
        decreases n - i,
    {
        let t = tokens[i];
        match t {
            Token::Number(_) => {
                output.push(t);
            },
            Token::Operator(op1) => {
                let ghost out0 = output@;
                let ghost ops0 = ops@;
                loop
                    invariant
                        spec_pop_for(op1, output@, ops@) == spec_pop_for(op1, out0, ops0),
                    ensures
                        (output@, ops@) == spec_pop_for(op1, out0, ops0),
                    decreases ops@.len(),
                {
                    if ops.len() == 0 {
                        break ;
                    }
                    let top = ops[ops.len() - 1];
                    match top {
                        Token::Operator(op2) => {
                            let prec1 = precedence(&op1);
                            let prec2 = precedence(&op2);
                            let right1 = is_right_associative(&op1);
                            if (right1 && prec1 < prec2) || (!right1 && prec1 <= prec2) {
                                let popped = ops.pop().unwrap();
                                output.push(popped);
                            } else {
                                break ;
                            }
                        },
                        _ => {
                            break ;
                        },
                    }
                }
                ops.push(t);
            },
            Token::LParen => {
                ops.push(t);
            },
            Token::RParen => {
                let ghost out0 = output@;
                let ghost ops0 = ops@;
                loop
                    invariant_except_break
                        spec_pop_to_lparen(output@, ops@) == spec_pop_to_lparen(out0, ops0),
                    ensures
                        (output@, ops@) == spec_pop_to_lparen(out0, ops0),
                    decreases ops@.len(),
                {
                    if ops.len() == 0 {
                        break ;
                    }
                    let ghost ops_pre = ops@;
                    let top = ops.pop().unwrap();
                    match top {
                        Token::LParen => {
                            proof {
                                assert(ops@ =~= ops_pre.drop_last());
                            }
                            break ;
                        },
                        _ => {
                            output.push(top);
                        },
                    }
                }
            },
        }
        i = i + 1;
    }
    while ops.len() > 0
        invariant
            spec_drain(output@, ops@) == spec_to_rpn(tokens@),
        decreases ops@.len(),
    {
        let top = ops.pop().unwrap();
        output.push(top);
    }
    output
}

/// What a single evaluation pass reports.
#[derive(Debug, PartialEq, Eq, Structural, Clone, Copy)]
pub enum EvalOutcome {
    /// Evaluation finished with this binary64 bit pattern.
    Done(u64),
    /// Evaluation reached a power operation over these base and exponent bit
    /// patterns and needs its result supplied before it can go further.
    NeedPow(u64, u64),
    /// Evaluation failed.
    Failed(Error),
}

/// The result of a binary operation other than power, on binary64 bit
/// patterns.
pub open spec fn spec_apply_binary(op: Operator, a: u64, b: u64) -> u64
    recommends
        op != Operator::UnaryMinus,
        op != Operator::Power,
{
    match op {
        Operator::Add => spec_add(a, b),
        Operator::Subtract => spec_sub(a, b),
        Operator::Multiply => spec_mul(a, b),
        Operator::Divide => spec_div(a, b),
        Operator::Modulus => spec_rem(a, b),
        _ => 0,
    }
}

/// Applies a binary operation other than power to two bit patterns.
fn apply_binary(op: Operator, a: u64, b: u64) -> (r: u64)
    requires
        op != Operator::UnaryMinus,
        op != Operator::Power,
    ensures
        r == spec_apply_binary(op, a, b),
{
    match op {
        Operator::Add => add_bits(a, b),
        Operator::Subtract => sub_bits(a, b),
        Operator::Multiply => mul_bits(a, b),
        Operator::Divide => div_bits(a, b),
        Operator::Modulus => rem_bits(a, b),
        Operator::Power | Operator::UnaryMinus => 0,
    }
}

/// The outcome of evaluating the postfix tokens of `ts` from position `i`
/// on, over the value stack built so far, with `pows[j..]` the power results
/// not yet consumed.
pub open spec fn spec_eval_from(
    ts: Seq<Token>,
    i: int,
    stack: Seq<u64>,
    pows: Seq<u64>,
    j: int,
) -> EvalOutcome
    recommends
        0 <= i <= ts.len(),
        0 <= j <= pows.len(),
    decreases ts.len() - i,
{
    if i >= ts.len() {
        if stack.len() == 0 {
            EvalOutcome::Failed(Error::InsufficientOperands)
        } else {
            EvalOutcome::Done(stack.last())
        }
    } else {
        match ts[i] {
            Token::Number(v) => spec_eval_from(ts, i + 1, stack.push(v), pows, j),
            Token::Operator(op) => {
                if op == Operator::UnaryMinus {
                    if stack.len() == 0 {
                        EvalOutcome::Failed(Error::InsufficientOperands)
                    } else {
                        spec_eval_from(
                            ts,
                            i + 1,
                            stack.drop_last().push(spec_neg(stack.last())),
                            pows,
                            j,
                        )
                    }
                } else if stack.len() < 2 {
                    EvalOutcome::Failed(Error::InsufficientOperands)
                } else {
                    let a = stack[stack.len() - 2];
                    let b = stack.last();
                    if op == Operator::Power {
                        if j >= pows.len() {
                            EvalOutcome::NeedPow(a, b)
                        } else if spec_is_nonfinite(pows[j]) {
                            EvalOutcome::Failed(Error::DivisionByZero)
                        } else {
                            spec_eval_from(
                                ts,
                                i + 1,
                                stack.drop_last().drop_last().push(pows[j]),
                                pows,
                                j + 1,
                            )
                        }
                    } else {
                        let r = spec_apply_binary(op, a, b);
                        if spec_is_nonfinite(r) {
                            EvalOutcome::Failed(Error::DivisionByZero)
                        } else {
                            spec_eval_from(
                                ts,
                                i + 1,
                                stack.drop_last().drop_last().push(r),
                                pows,
                                j,
                            )
                        }
                    }
                }
            },
            Token::LParen => EvalOutcome::Failed(Error::MismatchedParentheses),
            Token::RParen => EvalOutcome::Failed(Error::MismatchedParentheses),
        }
    }
}

/// The outcome of evaluating a postfix token sequence with the given power
/// results.
pub open spec fn spec_eval(ts: Seq<Token>, pows: Seq<u64>) -> EvalOutcome {
    spec_eval_from(ts, 0, Seq::empty(), pows, 0)
}

/// Evaluates a postfix token sequence with a single value stack.
///
/// Exponentiation is delegated to the caller: when a power operation is
/// reached whose result is not yet in `pows`, evaluation stops and reports
/// the operands as [`EvalOutcome::NeedPow`]; the caller appends the power's
/// bit pattern to `pows` and runs the pass again. A sequence without power
/// operations evaluates in one pass with empty `pows`.
///
/// A binary operation pops the right operand first; an operation with too
/// few operands, or an empty final stack, fails with
/// [`Error::InsufficientOperands`]. A non-finite operation result fails with
/// [`Error::DivisionByZero`]. A parenthesis token fails with
/// [`Error::MismatchedParentheses`]. When more than one value remains at the
/// end, the last one pushed is returned.
pub fn eval(tokens: &Vec<Token>, pows: &Vec<u64>) -> (r: EvalOutcome)
    ensures
        r == spec_eval(tokens@, pows@),
{
    let mut stack: Vec<u64> = Vec::new();
    let n = tokens.len();
    let mut i: usize = 0;
    let mut j: usize = 0;
    while i < n
        invariant
            i <= n,
            n == tokens@.len(),
            j <= pows@.len(),
            spec_eval_from(tokens@, i as int, stack@, pows@, j as int) == spec_eval(
                tokens@,
                pows@,
            ),
        decreases n - i,
    {
        let t = tokens[i];
        match t {
            Token::Number(v) => {
                stack.push(v);
            },
            Token::Operator(op) => {
                if op == Operator::UnaryMinus {
                    if stack.len() == 0 {
                        return EvalOutcome::Failed(Error::InsufficientOperands);
                    }
                    let a = stack.pop().unwrap();
                    stack.push(neg_bits(a));
                } else {
                    if stack.len() < 2 {
                        return EvalOutcome::Failed(Error::InsufficientOperands);
                    }
                    let b = stack.pop().unwrap();
                    let a = stack.pop().unwrap();
                    let r: u64;
                    if op == Operator::Power {
                        if j >= pows.len() {
                            return EvalOutcome::NeedPow(a, b);
                        }
                        r = pows[j];
                        j = j + 1;
                    } else {
                        r = apply_binary(op, a, b);
                    }
                    if is_nonfinite_bits(r) {
                        return EvalOutcome::Failed(Error::DivisionByZero);
                    }
                    stack.push(r);
                }
            },
            Token::LParen => {
                return EvalOutcome::Failed(Error::MismatchedParentheses);
            },
            Token::RParen => {
                return EvalOutcome::Failed(Error::MismatchedParentheses);
            },
        }
        i = i + 1;
    }
    if stack.len() == 0 {
        EvalOutcome::Failed(Error::InsufficientOperands)
    } else {
        EvalOutcome::Done(stack[stack.len() - 1])
    }
}

/// A binary operation evaluates as written: converting the infix tokens of
/// `a op b` to postfix and evaluating them applies `op` to `a` and `b`,
/// failing with `DivisionByZero` exactly when the result is not finite.
pub proof fn lemma_binary_expression(a: u64, op: Operator, b: u64)
    requires
        op != Operator::UnaryMinus,
        op != Operator::Power,
    ensures
        ({
            let infix = seq![Token::Number(a), Token::Operator(op), Token::Number(b)];
            let r = spec_apply_binary(op, a, b);
            spec_eval(spec_to_rpn(infix), Seq::empty()) == (if spec_is_nonfinite(r) {
                EvalOutcome::Failed(Error::DivisionByZero)
            } else {
                EvalOutcome::Done(r)
            })
        }),
{
    let infix = seq![Token::Number(a), Token::Operator(op), Token::Number(b)];
    let rpn = seq![Token::Number(a), Token::Number(b), Token::Operator(op)];
    reveal_with_fuel(spec_rpn_from, 5);
    reveal_with_fuel(spec_pop_for, 2);
    reveal_with_fuel(spec_drain, 3);
    assert(spec_to_rpn(infix) =~= rpn);
    reveal_with_fuel(spec_eval_from, 5);
    let stack2 = seq![a, b];
    assert(stack2.drop_last().drop_last() =~= Seq::<u64>::empty());
    let r = spec_apply_binary(op, a, b);
    if !spec_is_nonfinite(r) {
        assert(spec_eval(rpn, Seq::empty()) == EvalOutcome::Done(r));
    }
}

/// Precedence orders evaluation: in `a op1 b op2 c`, where `op2` binds
/// tighter than `op1` and neither is unary minus or power, `op2` is applied
/// to `b` and `c` first and `op1` then joins `a` with that result, each
/// step failing with `DivisionByZero` exactly when its result is not
/// finite.
#[verifier::rlimit(100)]
pub proof fn lemma_precedence_groups_tighter(
    a: u64,
    op1: Operator,
    b: u64,
    op2: Operator,
    c: u64,
)
    requires
        op1 != Operator::UnaryMinus,
        op1 != Operator::Power,
        op2 != Operator::UnaryMinus,
        op2 != Operator::Power,
        spec_precedence(op1) < spec_precedence(op2),
    ensures
        ({
            let infix = seq![
                Token::Number(a),
                Token::Operator(op1),
                Token::Number(b),
                Token::Operator(op2),
                Token::Number(c),
            ];
            let inner = spec_apply_binary(op2, b, c);
            let outer = spec_apply_binary(op1, a, inner);
            spec_to_rpn(infix) == seq![
                Token::Number(a),
                Token::Number(b),
                Token::Number(c),
                Token::Operator(op2),
                Token::Operator(op1),
            ] && spec_eval(spec_to_rpn(infix), Seq::empty()) == (if spec_is_nonfinite(inner) {
                EvalOutcome::Failed(Error::DivisionByZero)
            } else if spec_is_nonfinite(outer) {
                EvalOutcome::Failed(Error::DivisionByZero)
            } else {
                EvalOutcome::Done(outer)
            })
        }),
{
    let infix = seq![
        Token::Number(a),
        Token::Operator(op1),
        Token::Number(b),
        Token::Operator(op2),
        Token::Number(c),
    ];
    let rpn = seq![
        Token::Number(a),
        Token::Number(b),
        Token::Number(c),
        Token::Operator(op2),
        Token::Operator(op1),
    ];
    reveal_with_fuel(spec_rpn_from, 7);
    reveal_with_fuel(spec_pop_for, 3);
    reveal_with_fuel(spec_drain, 4);
    assert(spec_to_rpn(infix) =~= rpn);
    reveal_with_fuel(spec_eval_from, 7);
    let inner = spec_apply_binary(op2, b, c);
    let stack3 = seq![a, b, c];
    assert(stack3.drop_last().drop_last().push(inner) =~= seq![a, inner]);
    let stack2 = seq![a, inner];
    assert(stack2.drop_last().drop_last() =~= Seq::<u64>::empty());
}

/// Parentheses override precedence: in `( a op1 b ) op2 c`, whatever the
/// two precedences, `op1` is applied to `a` and `b` first and `op2` then
/// joins that result with `c`, each step failing with `DivisionByZero`
/// exactly when its result is not finite.
#[verifier::rlimit(100)]
pub proof fn lemma_parentheses_group_first(
    a: u64,
    op1: Operator,
    b: u64,
    op2: Operator,
    c: u64,
)
    requires
        op1 != Operator::UnaryMinus,
        op1 != Operator::Power,
        op2 != Operator::UnaryMinus,
        op2 != Operator::Power,
    ensures
        ({
            let infix = seq![
                Token::LParen,
                Token::Number(a),
                Token::Operator(op1),
                Token::Number(b),
                Token::RParen,
                Token::Operator(op2),
                Token::Number(c),
            ];
            let inner = spec_apply_binary(op1, a, b);
            let outer = spec_apply_binary(op2, inner, c);
            spec_to_rpn(infix) == seq![
                Token::Number(a),
                Token::Number(b),
                Token::Operator(op1),
                Token::Number(c),
                Token::Operator(op2),
            ] && spec_eval(spec_to_rpn(infix), Seq::empty()) == (if spec_is_nonfinite(inner) {
                EvalOutcome::Failed(Error::DivisionByZero)
            } else if spec_is_nonfinite(outer) {
                EvalOutcome::Failed(Error::DivisionByZero)
            } else {
                EvalOutcome::Done(outer)
            })
        }),
{
    let infix = seq![
        Token::LParen,
        Token::Number(a),
        Token::Operator(op1),
        Token::Number(b),
        Token::RParen,
        Token::Operator(op2),
        Token::Number(c),
    ];
    let rpn = seq![
        Token::Number(a),
        Token::Number(b),
        Token::Operator(op1),
        Token::Number(c),
        Token::Operator(op2),
    ];
    reveal_with_fuel(spec_rpn_from, 9);
    reveal_with_fuel(spec_pop_for, 3);
    reveal_with_fuel(spec_pop_to_lparen, 3);
    reveal_with_fuel(spec_drain, 3);
    assert(spec_to_rpn(infix) =~= rpn);
    reveal_with_fuel(spec_eval_from, 7);
    let inner = spec_apply_binary(op1, a, b);
    let stack2 = seq![a, b];
    assert(stack2.drop_last().drop_last().push(inner) =~= seq![inner]);
    let stack2b = seq![inner, c];
    assert(stack2b.drop_last().drop_last() =~= Seq::<u64>::empty());
}

/// Power chains to the right: evaluating `a ^ b ^ c` first asks for the
/// power of `b` and `c`, then for the power of `a` and that result `p`,
/// and finishes with the second result `q`, failing with `DivisionByZero`
/// exactly when a supplied result is not finite.
pub proof fn lemma_power_right_associative(a: u64, b: u64, c: u64, p: u64, q: u64)
    requires
        !spec_is_nonfinite(p),
    ensures
        ({
            let infix = seq![
                Token::Number(a),
                Token::Operator(Operator::Power),
                Token::Number(b),
                Token::Operator(Operator::Power),
                Token::Number(c),
            ];
            let rpn = spec_to_rpn(infix);
            rpn == seq![
                Token::Number(a),
                Token::Number(b),
                Token::Number(c),
                Token::Operator(Operator::Power),
                Token::Operator(Operator::Power),
            ] && spec_eval(rpn, Seq::empty()) == EvalOutcome::NeedPow(b, c) && spec_eval(
                rpn,
                seq![p],
            ) == EvalOutcome::NeedPow(a, p) && spec_eval(rpn, seq![p, q]) == (
            if spec_is_nonfinite(q) {
                EvalOutcome::Failed(Error::DivisionByZero)
            } else {
                EvalOutcome::Done(q)
            })
        }),
{
    let infix = seq![
        Token::Number(a),
        Token::Operator(Operator::Power),
        Token::Number(b),
        Token::Operator(Operator::Power),
        Token::Number(c),
    ];
    let rpn = seq![
        Token::Number(a),
        Token::Number(b),
        Token::Number(c),
        Token::Operator(Operator::Power),
        Token::Operator(Operator::Power),
    ];
    reveal_with_fuel(spec_rpn_from, 7);
    reveal_with_fuel(spec_pop_for, 3);
    reveal_with_fuel(spec_drain, 4);
    assert(spec_to_rpn(infix) =~= rpn);
    reveal_with_fuel(spec_eval_from, 7);
    let stack3 = seq![a, b, c];
    assert(stack3.drop_last().drop_last().push(p) =~= seq![a, p]);
    let stack2 = seq![a, p];
    assert(stack2.drop_last().drop_last().push(q) =~= seq![q]);
    assert(stack2.drop_last().drop_last() =~= Seq::<u64>::empty());
}

/// A negated operand evaluates as written: converting the infix tokens of
/// `- a` to postfix and evaluating them yields `a` with its sign flipped.
pub proof fn lemma_unary_negation(a: u64)
    ensures
        spec_eval(
            spec_to_rpn(seq![Token::Operator(Operator::UnaryMinus), Token::Number(a)]),
            Seq::empty(),
        ) == EvalOutcome::Done(spec_neg(a)),
{
    let infix = seq![Token::Operator(Operator::UnaryMinus), Token::Number(a)];
    let rpn = seq![Token::Number(a), Token::Operator(Operator::UnaryMinus)];
    reveal_with_fuel(spec_rpn_from, 4);
    reveal_with_fuel(spec_pop_for, 2);
    reveal_with_fuel(spec_drain, 3);
    assert(spec_to_rpn(infix) =~= rpn);
    reveal_with_fuel(spec_eval_from, 4);
    let stack1 = seq![a];
    assert(stack1.drop_last().push(spec_neg(a)) =~= seq![spec_neg(a)]);
}

} // verus!
