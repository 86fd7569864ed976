use core::cmp::Ordering;
use measurements::Value;

#[test]
fn constructors_agree_on_exact_fractions() {
    assert_eq!(Value::decimal(1035, 1), Value::ratio(207, 2));
    assert_eq!(Value::decimal(254, 4), Value::ratio(127, 5000));
    assert_eq!(Value::from_int(5), Value::decimal(5, 0));
    assert_eq!(Value::from_int(5), Value::ratio(10, 2));
}

#[test]
fn arithmetic_is_exact() {
    // A tenth added ten times is exactly one.
    let tenth = Value::decimal(1, 1);
    let mut sum = Value::from_int(0);
    for _ in 0..10 {
        sum = sum + tenth;
    }
    assert_eq!(Value::from_int(1), sum);

    // Thirds resolve exactly as well.
    let third = Value::ratio(1, 3);
    assert_eq!(Value::from_int(1), third + third + third);
    assert_eq!(Value::ratio(1, 6), Value::ratio(1, 2) - third);
    assert_eq!(Value::ratio(2, 3), third * Value::from_int(2));
    assert_eq!(Value::ratio(1, 6), third / Value::from_int(2));
}

#[test]
fn division_by_zero_follows_floating_point_conventions() {
    assert!(Value::ratio(1, 0).is_infinite());
    assert!(Value::ratio(1, 0).is_sign_positive());
    assert!(Value::ratio(-1, 0).is_infinite());
    assert!(Value::ratio(-1, 0).is_sign_negative());
    assert!(Value::ratio(0, 0).is_nan());
    assert!((Value::from_int(1) / Value::from_int(0)).is_infinite());
    assert!((Value::from_int(0) / Value::from_int(0)).is_nan());
}

#[test]
fn nan_propagates_and_differs_from_itself() {
    let nan = Value::nan();
    assert!(nan != nan);
    assert!((nan + Value::from_int(1)).is_nan());
    assert!((Value::from_int(1) - nan).is_nan());
    assert!((nan * Value::from_int(2)).is_nan());
    assert!((Value::infinity() - Value::infinity()).is_nan());
    assert!((Value::from_int(0) * Value::infinity()).is_nan());
}

#[test]
fn signed_zeros_are_equal_but_distinguishable() {
    assert_eq!(Value::zero(true), Value::zero(false));
    assert!(Value::zero(true).is_sign_negative());
    assert!(Value::zero(false).is_sign_positive());
    assert!(Value::zero(true).abs().is_sign_positive());
    assert_eq!(Value::ratio(0, -5), Value::from_int(0));
    assert!(Value::ratio(0, -5).is_sign_negative());
}

#[test]
fn ordering_follows_values_not_representations() {
    assert_eq!(Some(Ordering::Less), Value::ratio(1, 3).partial_cmp(&Value::decimal(34, 2)));
    assert_eq!(Some(Ordering::Greater), Value::ratio(1, 3).partial_cmp(&Value::decimal(33, 2)));
    assert_eq!(Some(Ordering::Equal), Value::ratio(2, 4).partial_cmp(&Value::decimal(5, 1)));
    assert_eq!(Some(Ordering::Equal), Value::zero(true).partial_cmp(&Value::zero(false)));
    assert_eq!(Some(Ordering::Less), Value::neg_infinity().partial_cmp(&Value::from_int(0)));
    assert_eq!(Some(Ordering::Greater), Value::infinity().partial_cmp(&Value::from_int(0)));
    assert_eq!(None, Value::nan().partial_cmp(&Value::from_int(0)));
    assert!(Value::from_int(-3) < Value::from_int(2));
}

#[test]
fn unrepresentable_results_are_nan() {
    // A decimal finer than the magnitude bound cannot be held exactly.
    assert!(Value::decimal(1, 40).is_nan());
    assert_eq!(Value::from_int(0), Value::decimal(0, 40));
    // A product past the magnitude bound cannot be held exactly.
    let big = Value::from_int(i64::MAX);
    assert!((big * big).is_nan());
}

#[test]
fn negation_flips_signs_of_all_values() {
    assert_eq!(Value::from_int(-3), -Value::from_int(3));
    assert!((-Value::from_int(0)).is_sign_negative());
    assert!((-Value::infinity()).is_sign_negative());
    assert!((-Value::nan()).is_nan());
}
