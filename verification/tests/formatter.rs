use measurements::units::{ElectricCharge, Energy, Power};
use measurements::{Formatter, Measurement, Value};

#[test]
fn format_precision() {
    let precision1 = Formatter::with_precision(1);
    let precision4 = Formatter::with_precision(4);

    assert_eq!(
        precision1.format(&Measurement::<Power>::new(Value::decimal(23, 1), Power::kilowatts())),
        "2.3 kW"
    );
    assert_eq!(
        precision1.format(
            &Measurement::<ElectricCharge>::new(Value::decimal(56, 1), ElectricCharge::coulombs())
        ),
        "5.6 C"
    );
    assert_eq!(
        precision1.format(
            &Measurement::<Energy>::new(Value::decimal(1, 1), Energy::kilowatt_hours())
        ),
        "0.1 kWh"
    );

    assert_eq!(
        precision4.format(
            &Measurement::<Power>::new(Value::decimal(234567, 5), Power::kilowatts())
        ),
        "2.3457 kW"
    );
    assert_eq!(
        precision4.format(
            &Measurement::<ElectricCharge>::new(
                Value::decimal(523456, 5),
                ElectricCharge::coulombs()
            )
        ),
        "5.2346 C"
    );
    assert_eq!(
        precision4.format(
            &Measurement::<Energy>::new(Value::decimal(1234, 5), Energy::kilowatt_hours())
        ),
        "0.0123 kWh"
    );
}

#[test]
fn format_exact_integers_without_fraction_digits() {
    let precision4 = Formatter::with_precision(4);
    assert_eq!(
        precision4.format(&Measurement::<Power>::new(Value::from_int(2), Power::kilowatts())),
        "2 kW"
    );
    assert_eq!(
        precision4.format(&Measurement::<Power>::new(Value::from_int(-7), Power::watts())),
        "-7 W"
    );
    assert_eq!(
        precision4.format(&Measurement::<Power>::new(Value::zero(true), Power::watts())),
        "-0 W"
    );
}

#[test]
fn format_rounds_ties_to_even() {
    let precision1 = Formatter::with_precision(1);
    assert_eq!(
        precision1.format(&Measurement::<Power>::new(Value::decimal(225, 2), Power::kilowatts())),
        "2.2 kW"
    );
    assert_eq!(
        precision1.format(&Measurement::<Power>::new(Value::decimal(235, 2), Power::kilowatts())),
        "2.4 kW"
    );
    let precision0 = Formatter::with_precision(0);
    assert_eq!(
        precision0.format(&Measurement::<Power>::new(Value::decimal(5, 1), Power::watts())),
        "0 W"
    );
    assert_eq!(
        precision0.format(&Measurement::<Power>::new(Value::decimal(15, 1), Power::watts())),
        "2 W"
    );
}

#[test]
fn format_carries_rounding_into_the_integer_part() {
    let precision1 = Formatter::with_precision(1);
    assert_eq!(
        precision1.format(&Measurement::<Power>::new(Value::decimal(196, 2), Power::watts())),
        "2.0 W"
    );
    let precision2 = Formatter::with_precision(2);
    assert_eq!(
        precision2.format(&Measurement::<Power>::new(Value::decimal(9999, 4), Power::watts())),
        "1.00 W"
    );
}

#[test]
fn format_negative_values() {
    let precision1 = Formatter::with_precision(1);
    assert_eq!(
        precision1.format(&Measurement::<Power>::new(Value::decimal(-25, 1), Power::kilowatts())),
        "-2.5 kW"
    );
    assert_eq!(
        precision1.format(&Measurement::<Power>::new(Value::decimal(-4, 2), Power::watts())),
        "-0.0 W"
    );
}

#[test]
fn format_special_values_by_name() {
    let precision2 = Formatter::with_precision(2);
    assert_eq!(
        precision2.format(&Measurement::<Power>::new(Value::nan(), Power::watts())),
        "NaN W"
    );
    assert_eq!(
        precision2.format(&Measurement::<Power>::new(Value::infinity(), Power::watts())),
        "inf W"
    );
    assert_eq!(
        precision2.format(&Measurement::<Power>::new(Value::neg_infinity(), Power::watts())),
        "-inf W"
    );
}

#[test]
fn format_repeating_fractions() {
    // One third of a kilowatt at four digits rounds to 0.3333.
    let precision4 = Formatter::with_precision(4);
    assert_eq!(
        precision4.format(&Measurement::<Power>::new(Value::ratio(1, 3), Power::kilowatts())),
        "0.3333 kW"
    );
    assert_eq!(
        precision4.format(&Measurement::<Power>::new(Value::ratio(2, 3), Power::kilowatts())),
        "0.6667 kW"
    );
}
