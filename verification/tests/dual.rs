use numcombo::dual::{collapse_roots, map_each, zip_with, DualValue};

/// Solve a*x^2 + b*x + c = 0, collapsing a repeated or undefined root to a
/// `Single`; the library decides the shape, the floating point stays here.
fn solve_quadratic(a: f64, b: f64, c: f64) -> DualValue<f64> {
    let d = (b.powi(2) - 4.0 * a * c).sqrt();
    let x = (-b + d) / (2.0 * a);
    let x2 = (-b - d) / (2.0 * a);
    collapse_roots(x, x2, x.is_nan(), x == x2)
}

#[test]
fn quadratic_with_two_roots() {
    assert_eq!(solve_quadratic(1.0, -3.0, 2.0), DualValue::Pair(2.0, 1.0));
}

#[test]
fn quadratic_with_repeated_root() {
    assert_eq!(solve_quadratic(1.0, 2.0, 1.0), DualValue::Single(-1.0));
}

#[test]
fn quadratic_with_no_real_root() {
    match solve_quadratic(1.0, 0.0, 1.0) {
        DualValue::Single(v) => assert!(v.is_nan()),
        DualValue::Pair(_, _) => panic!("expected a single sentinel value"),
    }
}

#[test]
fn broadcast_pair_plus_single() {
    let r = zip_with(DualValue::Pair(1.0, 2.0), DualValue::Single(3.0), |a: f64, b: f64| a + b);
    assert_eq!(r, DualValue::Pair(4.0, 5.0));
}

#[test]
fn broadcast_single_plus_pair() {
    let r = zip_with(DualValue::Single(3.0), DualValue::Pair(1.0, 2.0), |a: f64, b: f64| a + b);
    assert_eq!(r, DualValue::Pair(4.0, 5.0));
}

#[test]
fn broadcast_pair_plus_pair() {
    let r = zip_with(DualValue::Pair(1.0, 2.0), DualValue::Pair(3.0, 4.0), |a: f64, b: f64| a + b);
    assert_eq!(r, DualValue::Pair(4.0, 6.0));
}

#[test]
fn broadcast_single_plus_single() {
    let r = zip_with(DualValue::Single(3.0), DualValue::Single(4.0), |a: f64, b: f64| a + b);
    assert_eq!(r, DualValue::Single(7.0));
}

#[test]
fn negate_applies_to_every_scalar() {
    let s = map_each(DualValue::Single(3.0), |v: f64| -v);
    assert_eq!(s, DualValue::Single(-3.0));
    let p = map_each(DualValue::Pair(1.0, 2.0), |v: f64| -v);
    assert_eq!(p, DualValue::Pair(-1.0, -2.0));
}

#[test]
fn adding_then_subtracting_a_scalar_restores_the_value() {
    let v = DualValue::Pair(1.5, 2.5);
    let s = 3.25;
    let forth = zip_with(v, DualValue::Single(s), |a: f64, b: f64| a + b);
    let back = zip_with(forth, DualValue::Single(s), |a: f64, b: f64| a - b);
    assert_eq!(back, v);
    let w = DualValue::Single(-7.0);
    let forth = zip_with(w, DualValue::Single(s), |a: f64, b: f64| a + b);
    let back = zip_with(forth, DualValue::Single(s), |a: f64, b: f64| a - b);
    assert_eq!(back, w);
}

#[test]
fn collapse_keeps_distinct_roots_as_a_pair() {
    assert_eq!(collapse_roots(2.0, 1.0, false, false), DualValue::Pair(2.0, 1.0));
    assert_eq!(collapse_roots(-1.0, -1.0, false, true), DualValue::Single(-1.0));
}
