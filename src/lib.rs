//! Weather heuristics: whether a location is ready for summer tires, and which
//! upcoming days at a circuit make good trackdays.
//!
//! Temperatures are held in thousandths of a degree Celsius and precipitation
//! in thousandths of a millimetre, so every threshold is an exact integer
//! comparison.
pub mod calendar;
pub mod forecast;
pub mod tires;
pub mod trackday;
