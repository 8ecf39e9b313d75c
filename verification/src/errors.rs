use vstd::prelude::*;

verus! {

/// The ways an evaluation can fail.
///
/// All failures surface at the evaluation stage: the lexer reports only a
/// malformed numeric literal, and the infix-to-postfix conversion is total.
#[derive(Debug, PartialEq, Eq, Structural, Clone, Copy)]
pub enum Error {
    /// An operator was applied with too few values on the stack, or the
    /// final stack was empty.
    InsufficientOperands,
    /// An arithmetic operation produced a non-finite (infinite or
    /// not-a-number) result; this deliberately conflates a true division by
    /// zero with any other overflow or invalid operation.
    DivisionByZero,
    /// A parenthesis token survived into the postfix stage, showing that the
    /// original input's grouping was unbalanced.
    MismatchedParentheses,
    /// A token was structurally invalid in its context, such as a numeric
    /// literal with two decimal points.
    UnacceptableToken,
}

} // verus!
