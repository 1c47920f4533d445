//! A dual-valued abstraction: a value holding either one scalar or exactly
//! two, with a broadcasting rule that applies a scalar operation uniformly
//! to whatever is held.

use vstd::prelude::*;

verus! {

/// A value holding either one scalar or exactly two.
///
/// `Pair` never promises distinct scalars: producers decide when to collapse
/// to `Single` (the quadratic solver does so for a repeated or undefined
/// root). Values are immutable; every operation yields a new value. Equality
/// is structural; the type deliberately offers no ordering, because ordering
/// a `Pair` against a `Single` carries no domain meaning.
#[derive(Clone, Copy, Debug, PartialEq)]
pub enum DualValue<T> {
    Pair(T, T),
    Single(T),
}

/// The broadcasting rule for a binary scalar operation: elementwise when the
/// shapes agree, and a lone scalar is paired against each element of the
/// other side; two single values give a single value.
pub open spec fn zip_spec<T>(
    lhs: DualValue<T>,
    rhs: DualValue<T>,
    op: spec_fn(T, T) -> T,
) -> DualValue<T> {
    match (lhs, rhs) {
        (DualValue::Pair(x, y), DualValue::Pair(x2, y2)) => DualValue::Pair(op(x, x2), op(y, y2)),
        (DualValue::Pair(x, y), DualValue::Single(v)) => DualValue::Pair(op(x, v), op(y, v)),
        (DualValue::Single(v), DualValue::Pair(x, y)) => DualValue::Pair(op(v, x), op(v, y)),
        (DualValue::Single(v), DualValue::Single(v2)) => DualValue::Single(op(v, v2)),
    }
}

/// A unary scalar operation applied to every scalar held, preserving the
/// shape.
pub open spec fn map_spec<T>(val: DualValue<T>, op: spec_fn(T) -> T) -> DualValue<T> {
    match val {
        DualValue::Pair(x, y) => DualValue::Pair(op(x), op(y)),
        DualValue::Single(v) => DualValue::Single(op(v)),
    }
}

/// Combine two dual values with a binary scalar operation under the
/// broadcasting rule: elementwise on two pairs, a lone scalar broadcast
/// against both slots of a pair, and single against single giving single.
pub fn zip_with<T: Copy, F: Fn(T, T) -> T>(
    lhs: DualValue<T>,
    rhs: DualValue<T>,
    op: F,
) -> (r: DualValue<T>)
    requires
        match (lhs, rhs) {
            (DualValue::Pair(x, y), DualValue::Pair(x2, y2)) => call_requires(op, (x, x2))
                && call_requires(op, (y, y2)),
            (DualValue::Pair(x, y), DualValue::Single(v)) => call_requires(op, (x, v))
                && call_requires(op, (y, v)),
            (DualValue::Single(v), DualValue::Pair(x, y)) => call_requires(op, (v, x))
                && call_requires(op, (v, y)),
            (DualValue::Single(v), DualValue::Single(v2)) => call_requires(op, (v, v2)),
        },
    ensures
        match (lhs, rhs) {
            (DualValue::Pair(x, y), DualValue::Pair(x2, y2)) => (r matches DualValue::Pair(a, b)
                && call_ensures(op, (x, x2), a) && call_ensures(op, (y, y2), b)),
            (DualValue::Pair(x, y), DualValue::Single(v)) => (r matches DualValue::Pair(a, b)
                && call_ensures(op, (x, v), a) && call_ensures(op, (y, v), b)),
            (DualValue::Single(v), DualValue::Pair(x, y)) => (r matches DualValue::Pair(a, b)
                && call_ensures(op, (v, x), a) && call_ensures(op, (v, y), b)),
            (DualValue::Single(v), DualValue::Single(v2)) => (r matches DualValue::Single(a)
                && call_ensures(op, (v, v2), a)),
        },
{
    match (lhs, rhs) {
        (DualValue::Pair(x, y), DualValue::Pair(x2, y2)) => DualValue::Pair(op(x, x2), op(y, y2)),
        (DualValue::Pair(x, y), DualValue::Single(v)) => DualValue::Pair(op(x, v), op(y, v)),
        (DualValue::Single(v), DualValue::Pair(x, y)) => DualValue::Pair(op(v, x), op(v, y)),
        (DualValue::Single(v), DualValue::Single(v2)) => DualValue::Single(op(v, v2)),
    }
}

/// Apply a unary scalar operation to every scalar held, preserving the shape:
/// `Pair(x, y)` becomes `Pair(op(x), op(y))` and `Single(v)` becomes
/// `Single(op(v))`.
pub fn map_each<T: Copy, F: Fn(T) -> T>(val: DualValue<T>, op: F) -> (r: DualValue<T>)
    requires
        match val {
            DualValue::Pair(x, y) => call_requires(op, (x,)) && call_requires(op, (y,)),
            DualValue::Single(v) => call_requires(op, (v,)),
        },
    ensures
        match val {
            DualValue::Pair(x, y) => (r matches DualValue::Pair(a, b) && call_ensures(op, (x,), a)
                && call_ensures(op, (y,), b)),
            DualValue::Single(v) => (r matches DualValue::Single(a) && call_ensures(op, (v,), a)),
        },
{
    match val {
        DualValue::Pair(x, y) => DualValue::Pair(op(x), op(y)),
        DualValue::Single(v) => DualValue::Single(op(v)),
    }
}

/// Decide the shape of a root result: a repeated or undefined root collapses
/// to `Single`, two distinct roots stand as a `Pair`.
///
/// The caller passes the two root candidates together with the two facts the
/// decision reads: whether the first root is undefined (the "not-a-number"
/// sentinel, meaning no real root exists) and whether the two are exactly
/// equal. The undefined first root propagates inside the `Single`, so a
/// caller can tell "no real root" from a legitimate repeated root by testing
/// the contained value.
pub fn collapse_roots<T: Copy>(first: T, second: T, first_undefined: bool, equal: bool) -> (r:
    DualValue<T>)
    ensures
        (first_undefined || equal) ==> r == DualValue::Single(first),
        !(first_undefined || equal) ==> r == DualValue::Pair(first, second),
{
    if first_undefined || equal {
        DualValue::Single(first)
    } else {
        DualValue::Pair(first, second)
    }
}

/// Law: adding a broadcast scalar and then subtracting it restores the
/// original dual value, whenever the scalar subtraction undoes the scalar
/// addition on every scalar.
pub proof fn lemma_round_trip<T>(
    val: DualValue<T>,
    s: T,
    plus: spec_fn(T, T) -> T,
    minus: spec_fn(T, T) -> T,
)
    requires
        forall|a: T| #[trigger] minus(plus(a, s), s) == a,
    ensures
        zip_spec(zip_spec(val, DualValue::Single(s), plus), DualValue::Single(s), minus) == val,
{
}

} // verus!
