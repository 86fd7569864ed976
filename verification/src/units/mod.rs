//! Per-dimension unit catalogs: flat data tables of named units, each
//! supplying a symbol and a linear conversion rule to its family's base
//! unit.

pub mod area;
pub mod electric_charge;
pub mod electric_current;
pub mod electric_potential_difference;
pub mod electric_resistance;
pub mod energy;
pub mod length;
pub mod power;
pub mod temperature;
pub mod time;
pub mod volume;

pub use area::Area;
pub use electric_charge::ElectricCharge;
pub use electric_current::ElectricCurrent;
pub use electric_potential_difference::ElectricPotentialDifference;
pub use electric_resistance::ElectricResistance;
pub use energy::Energy;
pub use length::Length;
pub use power::Power;
pub use temperature::Temperature;
pub use time::Time;
pub use volume::Volume;
