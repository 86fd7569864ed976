use measurements::{UnitConverter, Value};

fn linear(coeff: Value, constant: Value) -> UnitConverter {
    UnitConverter::Linear { coeff, constant }
}

#[test]
fn identity() {
    let conv = linear(Value::from_int(1), Value::from_int(0));

    assert_eq!(Value::from_int(0), conv.convert_to_base_unit(Value::from_int(0)));
    assert_eq!(Value::from_int(1), conv.convert_to_base_unit(Value::from_int(1)));
    assert_eq!(Value::from_int(-3), conv.convert_to_base_unit(Value::from_int(-3)));

    assert_eq!(Value::from_int(0), conv.convert_from_base_unit(Value::from_int(0)));
    assert_eq!(Value::from_int(1), conv.convert_from_base_unit(Value::from_int(1)));
    assert_eq!(Value::from_int(-3), conv.convert_from_base_unit(Value::from_int(-3)));
}

#[test]
fn zero_coeff_and_zero_constant() {
    let conv = linear(Value::from_int(0), Value::from_int(0));

    assert_eq!(Value::from_int(0), conv.convert_to_base_unit(Value::from_int(0)));
    assert_eq!(Value::from_int(0), conv.convert_to_base_unit(Value::from_int(1)));
    assert_eq!(Value::from_int(0), conv.convert_to_base_unit(Value::from_int(-3)));

    assert!(conv.convert_from_base_unit(Value::from_int(0)).is_nan());
    let val = conv.convert_from_base_unit(Value::from_int(1));
    assert!(val.is_infinite() && val.is_sign_positive());
    let val = conv.convert_from_base_unit(Value::from_int(-3));
    assert!(val.is_infinite() && val.is_sign_negative());
}

#[test]
fn zero_coeff_and_non_zero_constant() {
    let conv = linear(Value::from_int(0), Value::from_int(-2));

    assert_eq!(Value::from_int(-2), conv.convert_to_base_unit(Value::from_int(0)));
    assert_eq!(Value::from_int(-2), conv.convert_to_base_unit(Value::from_int(1)));
    assert_eq!(Value::from_int(-2), conv.convert_to_base_unit(Value::from_int(-3)));

    assert!(conv.convert_from_base_unit(Value::from_int(0)).is_infinite());
    assert!(conv.convert_from_base_unit(Value::from_int(1)).is_infinite());
    assert!(conv.convert_from_base_unit(Value::from_int(-3)).is_infinite());
}

#[test]
fn non_zero_coeff() {
    let conv = linear(Value::from_int(2), Value::from_int(0));

    assert_eq!(Value::from_int(0), conv.convert_to_base_unit(Value::from_int(0)));
    assert_eq!(Value::from_int(2), conv.convert_to_base_unit(Value::from_int(1)));
    assert_eq!(Value::from_int(-6), conv.convert_to_base_unit(Value::from_int(-3)));

    assert_eq!(Value::from_int(0), conv.convert_from_base_unit(Value::from_int(0)));
    assert_eq!(Value::decimal(5, 1), conv.convert_from_base_unit(Value::from_int(1)));
    assert_eq!(Value::decimal(-15, 1), conv.convert_from_base_unit(Value::from_int(-3)));
}

#[test]
fn non_zero_constant() {
    let conv = linear(Value::from_int(1), Value::from_int(3));

    assert_eq!(Value::from_int(3), conv.convert_to_base_unit(Value::from_int(0)));
    assert_eq!(Value::from_int(4), conv.convert_to_base_unit(Value::from_int(1)));
    assert_eq!(Value::from_int(0), conv.convert_to_base_unit(Value::from_int(-3)));

    assert_eq!(Value::from_int(-3), conv.convert_from_base_unit(Value::from_int(0)));
    assert_eq!(Value::from_int(-2), conv.convert_from_base_unit(Value::from_int(1)));
    assert_eq!(Value::from_int(-6), conv.convert_from_base_unit(Value::from_int(-3)));
}

#[test]
fn non_zero_coeff_and_constant() {
    let conv = linear(Value::from_int(2), Value::from_int(3));

    assert_eq!(Value::from_int(3), conv.convert_to_base_unit(Value::from_int(0)));
    assert_eq!(Value::from_int(5), conv.convert_to_base_unit(Value::from_int(1)));
    assert_eq!(Value::from_int(-3), conv.convert_to_base_unit(Value::from_int(-3)));

    assert_eq!(Value::decimal(-15, 1), conv.convert_from_base_unit(Value::from_int(0)));
    assert_eq!(Value::from_int(-1), conv.convert_from_base_unit(Value::from_int(1)));
    assert_eq!(Value::from_int(-3), conv.convert_from_base_unit(Value::from_int(-3)));
}
