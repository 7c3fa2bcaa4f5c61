//! Validated pipeline configuration.

use vstd::prelude::*;

use crate::RANGE_LIMIT;
use crate::SCALE;
use crate::curves::ResponseCurve;
use crate::filters::NoiseFilter;
use crate::filters::filter_valid;
use crate::grab_mode::GrabMode;
use crate::hysteresis::HysteresisMode;
use crate::hysteresis::mode_valid;
use crate::snap_zones::SnapZone;
use crate::snap_zones::zone_overlaps;
use crate::snap_zones::zones_wf;

verus! {

/// The configuration mistakes `Config::validate` can report.
#[derive(Debug, Clone, Copy, PartialEq, Eq, Structural)]
pub enum ConfigError {
    InvalidInputRange,
    InvalidOutputRange,
    InvalidHysteresis,
    InvalidFilter,
    OverlappingSnapZones,
}

impl ConfigError {
    /// A short description of the configuration mistake.
    pub fn message(&self) -> (r: &'static str)
        ensures
            *self is InvalidInputRange ==> r@ == "input_min must be less than input_max"@,
            *self is InvalidOutputRange ==> r@ == "output_min must not equal output_max"@,
            *self is InvalidHysteresis ==> r@ == "invalid hysteresis configuration"@,
            *self is InvalidFilter ==> r@ == "invalid filter configuration"@,
            *self is OverlappingSnapZones ==> r@ == "snap zones must not overlap"@,
    {
        match self {
            ConfigError::InvalidInputRange => "input_min must be less than input_max",
            ConfigError::InvalidOutputRange => "output_min must not equal output_max",
            ConfigError::InvalidHysteresis => "invalid hysteresis configuration",
            ConfigError::InvalidFilter => "invalid filter configuration",
            ConfigError::OverlappingSnapZones => "snap zones must not overlap",
        }
    }
}

/// Pipeline configuration. The input and output ranges are in the caller's
/// units; hysteresis thresholds and snap zone parameters are normalized
/// fixed-point values. Immutable for the lifetime of a pipeline instance.
pub struct Config {
    pub input_min: i64,
    pub input_max: i64,
    pub output_min: i64,
    pub output_max: i64,
    pub hysteresis: HysteresisMode,
    pub curve: ResponseCurve,
    pub filter: NoiseFilter,
    pub snap_zones: Vec<SnapZone>,
    pub grab_mode: GrabMode,
}

/// The hysteresis parameters are normalized values in `[0, SCALE]`, as the
/// pipeline stages expect.
pub open spec fn mode_normalized(m: HysteresisMode) -> bool {
    match m {
        HysteresisMode::Off => true,
        HysteresisMode::ChangeThreshold { threshold } => 0 <= threshold <= SCALE,
        HysteresisMode::SchmittTrigger { rising, falling } => 0 <= rising <= SCALE && 0 <= falling
            <= SCALE,
    }
}

/// The configuration's values fit the pipeline's fixed-point representation:
/// range endpoints within `RANGE_LIMIT`, and the normalized-space parameters
/// (thresholds, zone targets) within `[0, SCALE]`.
pub open spec fn config_wf(cfg: Config) -> bool {
    &&& -RANGE_LIMIT <= cfg.input_min <= RANGE_LIMIT
    &&& -RANGE_LIMIT <= cfg.input_max <= RANGE_LIMIT
    &&& -RANGE_LIMIT <= cfg.output_min <= RANGE_LIMIT
    &&& -RANGE_LIMIT <= cfg.output_max <= RANGE_LIMIT
    &&& mode_normalized(cfg.hysteresis)
    &&& zones_wf(cfg.snap_zones@)
}

/// What `Config::validate` reports: the first mistake found, checking the
/// input range, the output range, the hysteresis and the filter in that order.
pub open spec fn spec_validate(cfg: Config) -> Result<(), ConfigError> {
    if cfg.input_min >= cfg.input_max {
        Err(ConfigError::InvalidInputRange)
    } else if cfg.output_min == cfg.output_max {
        Err(ConfigError::InvalidOutputRange)
    } else if !mode_valid(cfg.hysteresis) {
        Err(ConfigError::InvalidHysteresis)
    } else if !filter_valid(cfg.filter) {
        Err(ConfigError::InvalidFilter)
    } else {
        Ok(())
    }
}

/// The configuration passes validation.
pub open spec fn config_valid(cfg: Config) -> bool {
    spec_validate(cfg) is Ok
}

/// Some pair of zones in the list overlaps.
pub open spec fn zones_overlap(zs: Seq<SnapZone>) -> bool {
    exists|i: int, j: int| 0 <= i < j < zs.len() && zone_overlaps(zs[i], zs[j])
}

impl Config {
    /// Validate the configuration: the input range must be ordered, the output
    /// range non-degenerate, and the hysteresis and filter parameters sound.
    /// Returns the first mistake found.
    pub fn validate(&self) -> (r: Result<(), ConfigError>)
        ensures
            r == spec_validate(*self),
            r is Ok <==> config_valid(*self),
    {
        if self.input_min >= self.input_max {
            return Err(ConfigError::InvalidInputRange);
        }
        if self.output_min == self.output_max {
            return Err(ConfigError::InvalidOutputRange);
        }
        if self.hysteresis.validate().is_err() {
            return Err(ConfigError::InvalidHysteresis);
        }
        match self.filter.validate() {
            Err(_) => Err(ConfigError::InvalidFilter),
            Ok(()) => Ok(()),
        }
    }

    /// Validate that no snap zones overlap. This is an optional helper:
    /// overlaps are allowed by default, and first-match evaluation decides
    /// between overlapping zones.
    pub fn validate_snap_zones(&self) -> (r: Result<(), ConfigError>)
        requires
            zones_wf(self.snap_zones@),
        ensures
            r is Ok <==> !zones_overlap(self.snap_zones@),
            r is Err ==> r == Err::<(), ConfigError>(ConfigError::OverlappingSnapZones),
    {
        let zs = &self.snap_zones;
        let mut i: usize = 0;
        while i < zs.len()
            invariant
                i <= zs@.len(),
                zs@ == self.snap_zones@,
                zones_wf(zs@),
                forall|a: int, b: int|
                    0 <= a < b < zs@.len() && a < i ==> !zone_overlaps(zs@[a], zs@[b]),
            decreases zs@.len() - i,
        {
            let mut j: usize = i + 1;
            while j < zs.len()
                invariant
                    i < j <= zs@.len() || (i + 1 == j && j > zs@.len()),
                    i < zs@.len(),
                    zs@ == self.snap_zones@,
                    zones_wf(zs@),
                    forall|a: int, b: int|
                        0 <= a < b < zs@.len() && a < i ==> !zone_overlaps(zs@[a], zs@[b]),
                    forall|b: int| i < b < j ==> !zone_overlaps(zs@[i as int], zs@[b]),
                decreases zs@.len() - j,
            {
                if zs[i].overlaps(&zs[j]) {
                    return Err(ConfigError::OverlappingSnapZones);
                }
                j = j + 1;
            }
            i = i + 1;
        }
        Ok(())
    }
}

} // verus!
