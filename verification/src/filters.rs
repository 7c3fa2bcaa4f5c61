//! Noise filtering implementations.
//!
//! Filters smooth noisy readings. All filtering happens in normalized
//! fixed-point space.

use vstd::prelude::*;

use crate::SCALE;

pub mod ema;
pub mod moving_avg;

pub use ema::EmaFilter;
pub use moving_avg::MovingAvgFilter;

verus! {

/// Noise filter configuration.
#[derive(Debug, Clone, Copy, PartialEq, Eq, Structural)]
pub enum NoiseFilter {
    /// No filtering applied.
    Off,
    /// Exponential moving average with weight `alpha` in normalized
    /// fixed-point units: lower alpha means more smoothing, `alpha == SCALE`
    /// is pass-through. Requires `0 < alpha <= SCALE`.
    ExponentialMovingAverage { alpha: i64 },
    /// Simple moving average over the last `window_size` samples.
    /// Requires `1 <= window_size <= 32`.
    MovingAverage { window_size: usize },
}

/// The filter parameters pass validation.
pub open spec fn filter_valid(f: NoiseFilter) -> bool {
    match f {
        NoiseFilter::Off => true,
        NoiseFilter::ExponentialMovingAverage { alpha } => 0 < alpha <= SCALE,
        NoiseFilter::MovingAverage { window_size } => 1 <= window_size <= 32,
    }
}

impl NoiseFilter {
    /// Check the filter parameters: an EMA weight must lie in `(0, SCALE]`, a
    /// moving-average window in `[1, 32]`.
    pub fn validate(&self) -> (r: Result<(), &'static str>)
        ensures
            r is Ok <==> filter_valid(*self),
    {
        match self {
            NoiseFilter::Off => Ok(()),
            NoiseFilter::ExponentialMovingAverage { alpha } => {
                if *alpha <= 0 || *alpha > SCALE {
                    Err("EMA alpha must be in range (0, SCALE]")
                } else {
                    Ok(())
                }
            },
            NoiseFilter::MovingAverage { window_size } => {
                if *window_size == 0 {
                    Err("MovingAverage window_size must be > 0")
                } else if *window_size > 32 {
                    Err("MovingAverage window_size must be <= 32")
                } else {
                    Ok(())
                }
            },
        }
    }
}

} // verus!
