use numcombo::combinatorics::{combination, factorial, permutation, CombinatoricsError};

#[test]
fn factorial_of_zero_is_one() {
    assert_eq!(factorial(0), Ok(1));
}

#[test]
fn factorial_of_five() {
    assert_eq!(factorial(5), Ok(120));
}

#[test]
fn combination_five_choose_two() {
    assert_eq!(combination(5, 2), Ok(10));
}

#[test]
fn permutation_five_pick_two() {
    assert_eq!(permutation(5, 2), Ok(20));
}

#[test]
fn combination_is_symmetric_in_k() {
    assert_eq!(combination(10, 3), combination(10, 7));
    assert_eq!(combination(10, 3), Ok(120));
    assert_eq!(combination(7, 0), combination(7, 7));
    assert_eq!(combination(7, 0), Ok(1));
}

#[test]
fn combination_rejects_k_above_n() {
    assert_eq!(combination(2, 5), Err(CombinatoricsError::InvalidCombinatoricArgs));
}

#[test]
fn permutation_rejects_k_above_n() {
    assert_eq!(permutation(0, 1), Err(CombinatoricsError::InvalidCombinatoricArgs));
}

#[test]
fn factorial_overflow_boundary() {
    // 34! is the largest factorial that fits in a u128; 35! must be reported
    // as an overflow, never wrapped or truncated.
    assert!(factorial(34).is_ok());
    assert_eq!(factorial(35), Err(CombinatoricsError::IntegerOverflow));
    assert_eq!(factorial(u128::MAX), Err(CombinatoricsError::IntegerOverflow));
}

#[test]
fn factorial_exact_value_at_the_boundary() {
    assert_eq!(factorial(34), Ok(295232799039604140847618609643520000000));
}

#[test]
fn combination_reports_overflow() {
    assert_eq!(combination(40, 1), Err(CombinatoricsError::IntegerOverflow));
}

#[test]
fn permutation_reports_overflow() {
    assert_eq!(permutation(40, 1), Err(CombinatoricsError::IntegerOverflow));
}
