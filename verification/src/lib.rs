//! Battery voltage measurement through a resistive voltage divider.
//!
//! A microcontroller pin reads the millivolts at the tap point between two
//! resistors; the battery sits at the far end. This crate recovers the
//! battery's voltage from such a sample and sorts it into a charge band.
//! The arithmetic is exact: ratios are fractions of integers, products are
//! formed in 128 bits, and each conversion rounds once, half a millivolt
//! upwards.
//!
//! - [`rational`]: fractions, their reduced form and their rounding.
//! - [`divider`]: a divider checked at run time, its ratio, and the
//!   conversions between source and tap point.
//! - [`reader`]: the battery voltage for what a poll of the pin gave, and
//!   the charge bands.
//! - [`bms`]: a board whose pin, divider and battery are named in types.
//! - [`shared`]: what host and device share.
//! - [`type_driven_101`]: first steps with types that rule values out.

pub mod bms;
pub mod divider;
pub mod rational;
pub mod reader;
pub mod shared;
pub mod type_driven_101;
