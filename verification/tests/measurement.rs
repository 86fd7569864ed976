use core::cmp::Ordering;
use measurements::units::Length;
use measurements::{Dimension, Measurement, UnitConverter, Value};

/// The same affine test unit the conversion tests exercise: a length
/// unit with coefficient `2.3` and constant `3.2`.
fn test_unit() -> Length {
    Length::new(
        "test",
        UnitConverter::Linear { coeff: Value::decimal(23, 1), constant: Value::decimal(32, 1) },
    )
}

/// A test unit carrying the identity rule under its own symbol.
fn plain_unit() -> Length {
    Length::new(
        "test",
        UnitConverter::Linear { coeff: Value::from_int(1), constant: Value::from_int(0) },
    )
}

#[test]
fn convert_to_same_unit_is_eq() {
    let unit = test_unit();
    let measurement = Measurement::new(Value::decimal(1035, 1), unit.clone());
    let converted = measurement.converted_to(unit.clone());
    assert_eq!(converted, measurement);
}

#[test]
fn convert_to_same_unit() {
    let unit = test_unit();
    let measurement = Measurement::new(Value::decimal(1035, 1), unit.clone());
    let converted = measurement.converted_to(unit.clone());
    assert_eq!(&unit, converted.unit());
    assert_eq!(measurement.value, converted.value);
}

#[test]
fn convert_convert_to_base_unit() {
    let unit = test_unit();
    let measurement = Measurement::new(Value::decimal(1035, 1), unit.clone());
    let converted = measurement.converted_to(Length::base_unit());
    assert_eq!(&Length::base_unit(), converted.unit());
    // 103.5 * 2.3 + 3.2 is exactly 241.25.
    assert_eq!(Value::decimal(24125, 2), converted.value);
}

#[test]
fn add_measurements() {
    let unit = plain_unit();
    let lhs = Measurement::new(Value::decimal(1035, 1), unit.clone());
    let rhs = Measurement::new(Value::decimal(1002, 1), unit.clone());
    assert_eq!(Value::decimal(2037, 1), (lhs + rhs).value);
}

#[test]
fn sub_measurements() {
    let unit = plain_unit();
    let lhs = Measurement::new(Value::decimal(1024, 1), unit.clone());
    let rhs = Measurement::new(Value::decimal(998, 1), unit.clone());
    assert_eq!(Value::decimal(26, 1), (lhs - rhs).value);
}

#[test]
fn abs_measurements() {
    let unit = plain_unit();
    assert_eq!(Measurement::new(Value::from_int(-1), unit.clone()).abs().value, Value::from_int(1));
    assert_eq!(Measurement::new(Value::from_int(1), unit.clone()).abs().value, Value::from_int(1));
    assert_eq!(Measurement::new(Value::zero(true), unit.clone()).abs().value, Value::from_int(0));
    assert_eq!(Measurement::new(Value::from_int(0), unit.clone()).abs().value, Value::from_int(0));
}

#[test]
fn abs_of_negative_zero_is_positive_zero() {
    let unit = plain_unit();
    let m = Measurement::new(Value::zero(true), unit);
    assert!(m.value.is_sign_negative());
    assert!(m.abs().value.is_sign_positive());
    assert_eq!(m.abs().value, Value::from_int(0));
}

#[test]
fn round_trip_is_exact() {
    // 12.34 feet, through inches and back, is 12.34 feet to the bit.
    let v = Value::decimal(1234, 2);
    let m = Measurement::new(v, Length::feet());
    let back = m.converted_to(Length::inches()).converted_to(Length::feet());
    assert_eq!(v, back.value);
}

#[test]
fn mixed_addition_collapses_to_base_unit() {
    // One foot plus one meter is 1.3048 meters.
    let feet = Measurement::new(Value::from_int(1), Length::feet());
    let meters = Measurement::new(Value::from_int(1), Length::meters());
    let sum = feet + meters;
    assert_eq!(&Length::meters(), sum.unit());
    assert_eq!(Value::decimal(13048, 4), sum.value);
}

#[test]
fn add_assign_preserves_left_unit() {
    let mut a = Measurement::new(Value::from_int(1), Length::feet());
    let b = Measurement::new(Value::from_int(1), Length::meters());
    a.add_assign(b);
    assert_eq!(&Length::feet(), a.unit());
    // One meter is 1250/381 feet, so the sum is 1631/381 feet.
    assert_eq!(Value::ratio(1631, 381), a.value);
}

#[test]
fn sub_assign_preserves_left_unit() {
    let mut a = Measurement::new(Value::from_int(1), Length::meters());
    let b = Measurement::new(Value::from_int(1), Length::feet());
    a.sub_assign(b);
    assert_eq!(&Length::meters(), a.unit());
    assert_eq!(Value::decimal(6952, 4), a.value);
}

#[test]
fn scaling_keeps_the_unit() {
    let m = Measurement::new(Value::decimal(15, 1), Length::feet());
    let tripled = m.clone() * Value::from_int(3);
    assert_eq!(&Length::feet(), tripled.unit());
    assert_eq!(Value::decimal(45, 1), tripled.value);
    let halved = m / Value::from_int(2);
    assert_eq!(&Length::feet(), halved.unit());
    assert_eq!(Value::decimal(75, 2), halved.value);
}

#[test]
fn negation_keeps_the_unit() {
    let m = Measurement::new(Value::decimal(15, 1), Length::feet());
    let negated = -m;
    assert_eq!(&Length::feet(), negated.unit());
    assert_eq!(Value::decimal(-15, 1), negated.value);
}

#[test]
fn comparison_converts_across_units() {
    // One meter is more than two feet and less than four feet.
    let meter = Measurement::new(Value::from_int(1), Length::meters());
    let two_feet = Measurement::new(Value::from_int(2), Length::feet());
    let four_feet = Measurement::new(Value::from_int(4), Length::feet());
    assert_eq!(Some(Ordering::Greater), meter.partial_cmp(&two_feet));
    assert_eq!(Some(Ordering::Less), meter.partial_cmp(&four_feet));
    assert_eq!(
        Some(Ordering::Equal),
        meter.partial_cmp(&Measurement::new(Value::from_int(1), Length::meters()))
    );
    let undefined = Measurement::new(Value::nan(), Length::meters());
    assert_eq!(None, meter.partial_cmp(&undefined));
}

#[test]
fn equality_does_not_cross_convert() {
    // The same physical length in different units is not `==`.
    let foot = Measurement::new(Value::from_int(1), Length::feet());
    let as_meters = foot.converted_to(Length::meters());
    assert_eq!(Value::decimal(3048, 4), as_meters.value);
    assert!(foot != as_meters);
}
