//! Processing pipeline that turns a noisy scalar reading (for example an ADC
//! sample from a potentiometer) into a clean, application-scale output value.
//!
//! Every stage of the pipeline works on normalized positions held in
//! fixed-point form: a position `t` in `[0, 1]` is stored as the `i64` value
//! `t * SCALE`. Each stage carries a contract stating exactly what it computes.

use vstd::prelude::*;

mod config;
mod pothead;
mod state;

pub mod curves;
pub mod filters;
pub mod grab_mode;
pub mod hysteresis;
pub mod snap_zones;

pub use config::Config;
pub use config::ConfigError;
pub use pothead::PotHead;
pub use state::State;
pub use curves::ResponseCurve;
pub use filters::NoiseFilter;
pub use grab_mode::GrabMode;
pub use snap_zones::SnapZone;
pub use snap_zones::SnapZoneType;
pub use hysteresis::HysteresisMode;
pub use hysteresis::HysteresisState;
pub use hysteresis::SchmittState;


verus! {

/// One full turn in fixed-point normalized units: the position `1.0` is stored
/// as `SCALE`, and `0.5` as `SCALE / 2`.
pub const SCALE: i64 = 1_000_000;

/// Largest magnitude the stateful stages accept for a sample or a threshold.
/// Keeping every value in `[0, VALUE_LIMIT]` lets each stage use plain `i64`
/// arithmetic with room to spare.
pub const VALUE_LIMIT: i64 = 1_000_000_000_000;

/// Largest magnitude allowed for the endpoints of the input and output ranges,
/// so that mapping a range to and from normalized units stays within `i64`.
pub const RANGE_LIMIT: i64 = 1_000_000_000;

} // verus!
