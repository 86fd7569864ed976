//! A dimensional-quantity library: numeric values paired with units of
//! measure, with exact unit conversion and unit-aware arithmetic.
//!
//! The numeric scalar of the library is [`Value`], an exact rational number
//! extended with signed zeros, signed infinities and a not-a-number marker,
//! so every arithmetic contract below is stated and proved exactly.

pub mod dimension;
pub mod formatter;
pub mod measurement;
pub mod rational;
pub mod units;
pub mod unit;
pub mod unit_converter;
pub mod value;

pub use dimension::Dimension;
pub use formatter::Formatter;
pub use measurement::Measurement;
pub use unit::Unit;
pub use unit_converter::UnitConverter;
pub use value::Value;
