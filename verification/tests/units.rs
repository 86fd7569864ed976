use measurements::units::{
    Area, ElectricCharge, ElectricCurrent, ElectricPotentialDifference, ElectricResistance,
    Energy, Length, Power, Temperature, Time, Volume,
};
use measurements::{Dimension, Unit, Value};

#[test]
fn electric_charge_conversion_to_base() {
    let coulombs = ElectricCharge::coulombs();
    let ampere_hours = ElectricCharge::ampere_hours();

    assert_eq!(coulombs.converter().convert_to_base_unit(Value::from_int(1)), Value::from_int(1));
    assert_eq!(
        ampere_hours.converter().convert_to_base_unit(Value::from_int(1)),
        Value::from_int(3600)
    );
}

#[test]
fn energy_conversion_to_base() {
    let joules = Energy::joules();
    let watt_hours = Energy::watt_hours();
    let kilowatt_hours = Energy::kilowatt_hours();

    assert_eq!(joules.converter().convert_to_base_unit(Value::from_int(1)), Value::from_int(1));
    assert_eq!(
        watt_hours.converter().convert_to_base_unit(Value::from_int(1)),
        Value::from_int(3600)
    );
    assert_eq!(
        kilowatt_hours.converter().convert_to_base_unit(Value::from_int(1)),
        Value::from_int(3600000)
    );
}

#[test]
fn length_conversion_to_base() {
    let meters = Length::meters();
    let inches = Length::inches();

    assert_eq!(meters.converter().convert_to_base_unit(Value::from_int(1)), Value::from_int(1));
    assert_eq!(
        inches.converter().convert_to_base_unit(Value::from_int(1)),
        Value::decimal(254, 4)
    );
}

#[test]
fn power_conversion_to_base() {
    let watts = Power::watts();
    let kilowatts = Power::kilowatts();

    assert_eq!(watts.converter().convert_to_base_unit(Value::from_int(1)), Value::from_int(1));
    assert_eq!(
        kilowatts.converter().convert_to_base_unit(Value::from_int(1)),
        Value::from_int(1000)
    );
}

#[test]
fn temperature_conversion_to_base() {
    let kelvin = Temperature::kelvin();
    let celsius = Temperature::celsius();
    let fahrenheit = Temperature::fahrenheit();

    assert_eq!(kelvin.converter().convert_to_base_unit(Value::from_int(1)), Value::from_int(1));
    assert_eq!(
        celsius.converter().convert_to_base_unit(Value::from_int(1)),
        Value::decimal(27415, 2)
    );
    // The exact sum of the catalog's two decimals, 0.55555555555556 and
    // 255.37222222222427.
    assert_eq!(
        fahrenheit.converter().convert_to_base_unit(Value::from_int(1)),
        Value::decimal(25592777777777983, 14)
    );
}

#[test]
fn time_conversion_to_base() {
    let seconds = Time::seconds();
    let minutes = Time::minutes();
    let hours = Time::hours();

    assert_eq!(seconds.converter().convert_to_base_unit(Value::from_int(1)), Value::from_int(1));
    assert_eq!(minutes.converter().convert_to_base_unit(Value::from_int(1)), Value::from_int(60));
    assert_eq!(hours.converter().convert_to_base_unit(Value::from_int(1)), Value::from_int(3600));
}

#[test]
fn volume_conversion_to_base() {
    let liters = Volume::liters();
    let gallons = Volume::gallons();

    assert_eq!(liters.converter().convert_to_base_unit(Value::from_int(1)), Value::from_int(1));
    assert_eq!(
        gallons.converter().convert_to_base_unit(Value::from_int(1)),
        Value::decimal(378541, 5)
    );
}

#[test]
fn area_conversion_to_base() {
    let square_millimeters = Area::square_millimeters();
    let square_meters = Area::square_meters();

    assert_eq!(
        square_millimeters.converter().convert_to_base_unit(Value::from_int(1)),
        Value::from_int(1)
    );
    assert_eq!(
        square_meters.converter().convert_to_base_unit(Value::from_int(1)),
        Value::from_int(1000000)
    );
}

#[test]
fn electrical_units_convert_by_identity() {
    assert_eq!(
        ElectricCurrent::amperes().converter().convert_to_base_unit(Value::from_int(7)),
        Value::from_int(7)
    );
    assert_eq!(
        ElectricPotentialDifference::volts().converter().convert_to_base_unit(Value::from_int(7)),
        Value::from_int(7)
    );
    assert_eq!(
        ElectricResistance::ohms().converter().convert_to_base_unit(Value::from_int(7)),
        Value::from_int(7)
    );
}

#[test]
fn base_unit_converter_is_identity() {
    // Every family's base unit carries the identity rule: forward and
    // backward maps leave any value unchanged.
    let v = Value::decimal(1035, 1);
    assert_eq!(Length::base_unit().converter().convert_to_base_unit(v), v);
    assert_eq!(Length::base_unit().converter().convert_from_base_unit(v), v);
    assert_eq!(Temperature::base_unit().converter().convert_to_base_unit(v), v);
    assert_eq!(Time::base_unit().converter().convert_from_base_unit(v), v);
    assert_eq!(Energy::base_unit().converter().convert_to_base_unit(v), v);
}

#[test]
fn unit_symbols() {
    assert_eq!(Length::meters().symbol(), "m");
    assert_eq!(Length::inches().symbol(), "in");
    assert_eq!(Length::feet().symbol(), "ft");
    assert_eq!(Temperature::celsius().symbol(), "°C");
    assert_eq!(Temperature::fahrenheit().symbol(), "°F");
    assert_eq!(ElectricResistance::ohms().symbol(), "Ω");
    assert_eq!(Energy::kilowatt_hours().symbol(), "kWh");
}

#[test]
fn unit_equality_is_symbol_and_rule() {
    assert_eq!(Length::meters(), Length::meters());
    assert!(Length::meters() != Length::feet());
    assert!(Length::meters() != Length::new("m", Length::feet().converter()));
    assert!(Length::meters() != Length::new("x", Length::meters().converter()));
    assert_eq!(Length::meters(), Length::new("m", Length::meters().converter()));
}
