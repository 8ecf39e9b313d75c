//! A verified arithmetic expression calculator.
//!
//! Evaluation runs in three stages: [`tokenize::tokenize`] turns text into
//! tokens, [`compute::to_rpn`] reorders them into postfix form with the
//! shunting-yard algorithm, and [`compute::eval`] reduces the postfix
//! sequence to a single number. Numbers are carried throughout as the bit
//! patterns of IEEE 754 binary64 values.

pub mod compute;
pub mod errors;
pub mod numeric;
pub mod tokenize;
