//! A small numeric library in two parts: exact combinatorial counting
//! (factorial, permutation, combination) over `u128` with explicit error
//! reporting, and a dual-valued abstraction that applies a scalar operation
//! to one value or elementwise to a pair of values under a broadcasting rule.

pub mod combinatorics;
pub mod dual;
