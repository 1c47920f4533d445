//! Exact combinatorial counting over `u128`: factorial, permutation and
//! combination, with checked arithmetic. A result that does not fit in the
//! integer width, or arguments with `k > n`, are reported as explicit errors.

use rayon::iter::IntoParallelRefIterator;
use rayon::iter::ParallelIterator;
use vstd::arithmetic::mul::{lemma_mul_inequality, lemma_mul_is_commutative};
use vstd::prelude::*;

verus! {

/// Why a combinatorial count could not be produced.
#[derive(Clone, Copy, Debug, PartialEq, Eq, Structural)]
pub enum CombinatoricsError {
    /// The exact result exceeds the representable range of `u128`.
    IntegerOverflow,
    /// `k > n`: more items were requested than exist.
    InvalidCombinatoricArgs,
}

/// The factorial of `n`: the product of all integers from 1 to `n`,
/// with `fact(0) == 1`.
pub open spec fn fact(n: nat) -> nat
    decreases n,
{
    if n == 0 {
        1
    } else {
        n * fact((n - 1) as nat)
    }
}

/// Every factorial is at least 1.
pub proof fn lemma_fact_positive(n: nat)
    ensures
        fact(n) >= 1,
    decreases n,
{
    if n > 0 {
        lemma_fact_positive((n - 1) as nat);
        lemma_mul_inequality(1, n as int, fact((n - 1) as nat) as int);
    }
}

/// The factorial function never decreases as its argument grows.
pub proof fn lemma_fact_monotone(a: nat, b: nat)
    requires
        a <= b,
    ensures
        fact(a) <= fact(b),
    decreases b,
{
    if a < b {
        lemma_fact_monotone(a, (b - 1) as nat);
        lemma_fact_positive((b - 1) as nat);
        lemma_mul_inequality(1, b as int, fact((b - 1) as nat) as int);
    }
}

/// What `factorial` returns: the exact factorial when it fits in `u128`,
/// and an overflow error otherwise.
pub open spec fn factorial_result(n: u128) -> Result<u128, CombinatoricsError> {
    if fact(n as nat) <= u128::MAX {
        Ok((fact(n as nat)) as u128)
    } else {
        Err(CombinatoricsError::IntegerOverflow)
    }
}

/// Compute `n!` exactly, or report that it exceeds the `u128` range.
pub fn factorial(n: u128) -> (r: Result<u128, CombinatoricsError>)
    ensures
        r == factorial_result(n),
{
    let mut acc: u128 = 1;
    let mut i: u128 = 0;
    while i < n
        invariant
            i <= n,
            acc == fact(i as nat),
        decreases n - i,
    {
        let next: u128 = i + 1;
        proof {
            lemma_mul_is_commutative(acc as int, next as int);
        }
        match acc.checked_mul(next) {
            Some(product) => {
                acc = product;
                i = next;
            },
            None => {
                proof {
                    lemma_fact_monotone(next as nat, n as nat);
                }
                return Err(CombinatoricsError::IntegerOverflow);
            },
        }
    }
    Ok(acc)
}

/// The factorials of two parts never exceed the factorial of the whole:
/// `fact(a) * fact(b) <= fact(a + b)`.
pub proof fn lemma_fact_split(a: nat, b: nat)
    ensures
        fact(a) * fact(b) <= fact(a + b),
    decreases b,
{
    if b == 0 {
        lemma_fact_positive(a);
        assert(fact(b) == 1);
    } else {
        lemma_fact_split(a, (b - 1) as nat);
        let fa = fact(a);
        let fb1 = fact((b - 1) as nat);
        let fab1 = fact((a + b - 1) as nat);
        assert(fact(b) == b * fb1);
        assert(fact(a + b) == (a + b) * fab1);
        assert(fa * (b * fb1) <= (a + b) * fab1) by (nonlinear_arith)
            requires
                fa * fb1 <= fab1,
                b >= 1,
                a >= 0,
                fa >= 0,
                fb1 >= 0,
                fab1 >= 0,
        ;
        assert(fa * fact(b) <= fact(a + b));
    }
}

/// Relies on rayon's `par_iter`, `map` and `collect`: the mapping closure is
/// applied once to each element (here it only calls the verified `factorial`,
/// whose contract pins each result), and collecting an indexed parallel
/// iterator into a `Vec` preserves the input order.
#[verifier::external_body]
fn parallel_factorials(inputs: Vec<u128>) -> (r: Vec<Result<u128, CombinatoricsError>>)
    ensures
        r@.len() == inputs@.len(),
        forall|j: int| 0 <= j < inputs@.len() ==> r@[j] == factorial_result(inputs@[j]),
{
    inputs.par_iter().map(|v| factorial(*v)).collect()
}

/// What `permutation` returns: `n! / (n - k)!` when `k <= n` and `n!` fits
/// in `u128`, and the applicable error otherwise.
pub open spec fn permutation_result(n: u128, k: u128) -> Result<u128, CombinatoricsError> {
    if k > n {
        Err(CombinatoricsError::InvalidCombinatoricArgs)
    } else if fact(n as nat) > u128::MAX {
        Err(CombinatoricsError::IntegerOverflow)
    } else {
        Ok((fact(n as nat) / fact((n - k) as nat)) as u128)
    }
}

/// Count the arrangements of `k` items drawn from `n`: `n! / (n - k)!`.
///
/// The two factorials are evaluated as independent concurrent tasks and then
/// combined by integer division; concurrency is a pure performance choice and
/// the result equals sequential evaluation.
pub fn permutation(n: u128, k: u128) -> (r: Result<u128, CombinatoricsError>)
    ensures
        r == permutation_result(n, k),
{
    if k > n {
        return Err(CombinatoricsError::InvalidCombinatoricArgs);
    }
    let mut inputs: Vec<u128> = Vec::new();
    inputs.push(n);
    inputs.push(n - k);
    let results = parallel_factorials(inputs);
    proof {
        lemma_fact_monotone((n - k) as nat, n as nat);
        lemma_fact_positive((n - k) as nat);
    }
    match (results[0], results[1]) {
        (Ok(f_n), Ok(f_nk)) => Ok(f_n / f_nk),
        _ => Err(CombinatoricsError::IntegerOverflow),
    }
}

/// What `combination` returns: `n! / (k! * (n - k)!)` when `k <= n` and `n!`
/// fits in `u128`, and the applicable error otherwise.
pub open spec fn combination_result(n: u128, k: u128) -> Result<u128, CombinatoricsError> {
    if k > n {
        Err(CombinatoricsError::InvalidCombinatoricArgs)
    } else if fact(n as nat) > u128::MAX {
        Err(CombinatoricsError::IntegerOverflow)
    } else {
        Ok((fact(n as nat) / (fact(k as nat) * fact((n - k) as nat))) as u128)
    }
}

/// Count the ways to choose `k` items from `n`: `n! / (k! * (n - k)!)`.
///
/// The three factorials are evaluated as independent concurrent tasks and
/// then combined by integer division; concurrency is a pure performance
/// choice and the result equals sequential evaluation.
pub fn combination(n: u128, k: u128) -> (r: Result<u128, CombinatoricsError>)
    ensures
        r == combination_result(n, k),
{
    if k > n {
        return Err(CombinatoricsError::InvalidCombinatoricArgs);
    }
    let mut inputs: Vec<u128> = Vec::new();
    inputs.push(n);
    inputs.push(k);
    inputs.push(n - k);
    let results = parallel_factorials(inputs);
    proof {
        lemma_fact_monotone(k as nat, n as nat);
        lemma_fact_monotone((n - k) as nat, n as nat);
        lemma_fact_positive(k as nat);
        lemma_fact_positive((n - k) as nat);
        lemma_fact_split(k as nat, (n - k) as nat);
        lemma_mul_inequality(1, fact(k as nat) as int, fact((n - k) as nat) as int);
    }
    match (results[0], results[1], results[2]) {
        (Ok(f_n), Ok(f_k), Ok(f_nk)) => {
            let denom = f_k * f_nk;
            Ok(f_n / denom)
        },
        _ => Err(CombinatoricsError::IntegerOverflow),
    }
}

/// Law: choosing `k` of `n` items counts the same as leaving out the other
/// `n - k`: `combination(n, k)` and `combination(n, n - k)` agree, errors
/// included.
pub proof fn lemma_combination_symmetric(n: u128, k: u128)
    requires
        k <= n,
    ensures
        combination_result(n, k) == combination_result(n, (n - k) as u128),
{
    lemma_mul_is_commutative(fact(k as nat) as int, fact((n - k) as nat) as int);
}

} // verus!
