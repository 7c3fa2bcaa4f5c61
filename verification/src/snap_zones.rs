//! Snap zone implementations for value snapping and dead zones.
//!
//! Operates on normalized fixed-point values in the processing pipeline.

use vstd::prelude::*;

use crate::SCALE;

verus! {

/// Snap zone behavior types.
#[derive(Debug, Clone, Copy, PartialEq, Eq, Structural)]
pub enum SnapZoneType {
    /// Snap to the target value when within the threshold.
    Snap,
    /// Dead zone: ignore input changes within the threshold.
    Dead,
}

/// Snap zone configuration: a target value and a threshold range around it,
/// both in normalized fixed-point units.
#[derive(Debug, Clone, Copy, PartialEq, Eq, Structural)]
pub struct SnapZone {
    pub target: i64,
    pub threshold: i64,
    pub zone_type: SnapZoneType,
}

/// The zone's parameters are normalized values.
pub open spec fn zone_wf(z: SnapZone) -> bool {
    0 <= z.target <= SCALE && 0 <= z.threshold <= SCALE
}

/// A value lies in the zone's range `[target - threshold, target + threshold]`.
pub open spec fn zone_contains(z: SnapZone, value: i64) -> bool {
    z.target - z.threshold <= value <= z.target + z.threshold
}

/// What the zone turns a value into: a `Snap` zone forces the target, a `Dead`
/// zone freezes the previous output.
pub open spec fn zone_apply(z: SnapZone, value: i64, last_output: i64) -> i64 {
    match z.zone_type {
        SnapZoneType::Snap => z.target,
        SnapZoneType::Dead => last_output,
    }
}

/// Two zones overlap when their ranges intersect.
pub open spec fn zone_overlaps(a: SnapZone, b: SnapZone) -> bool {
    !(a.target + a.threshold < b.target - b.threshold || b.target + b.threshold < a.target
        - a.threshold)
}

/// Every zone of the sequence is well-formed.
pub open spec fn zones_wf(zs: Seq<SnapZone>) -> bool {
    forall|i: int| 0 <= i < zs.len() ==> zone_wf(#[trigger] zs[i])
}

/// First-match evaluation of a zone list: the first zone whose range contains
/// `value` decides the result; with no match, `value` passes through.
pub open spec fn snap_eval(zones: Seq<SnapZone>, value: i64, last_output: i64) -> i64
    decreases zones.len(),
{
    if zones.len() == 0 {
        value
    } else if zone_contains(zones[0], value) {
        zone_apply(zones[0], value, last_output)
    } else {
        snap_eval(zones.drop_first(), value, last_output)
    }
}

/// Snap zone evaluation of a normalized value over well-formed zones yields a
/// normalized value: it is the value itself, a zone's target, or the previous
/// output.
pub proof fn lemma_snap_eval_bounds(zones: Seq<SnapZone>, value: i64, last_output: i64)
    requires
        zones_wf(zones),
        0 <= value <= SCALE,
        0 <= last_output <= SCALE,
    ensures
        0 <= snap_eval(zones, value, last_output) <= SCALE,
    decreases zones.len(),
{
    if zones.len() > 0 && !zone_contains(zones[0], value) {
        assert(zones_wf(zones.drop_first()));
        lemma_snap_eval_bounds(zones.drop_first(), value, last_output);
    }
}

impl SnapZone {
    /// Create a new snap zone.
    pub fn new(target: i64, threshold: i64, zone_type: SnapZoneType) -> (r: Self)
        ensures
            r == (SnapZone { target, threshold, zone_type }),
    {
        SnapZone { target, threshold, zone_type }
    }

    /// Check if a value falls within this zone's range (target ± threshold).
    pub fn contains(&self, value: i64) -> (r: bool)
        requires
            zone_wf(*self),
        ensures
            r == zone_contains(*self, value),
    {
        let min: i64 = self.target - self.threshold;
        let max: i64 = self.target + self.threshold;
        value >= min && value <= max
    }

    /// Apply this zone's behavior to the input value. Assumes the value is
    /// within the zone (call `contains` first).
    pub fn apply(&self, _value: i64, last_output: i64) -> (r: i64)
        ensures
            r == zone_apply(*self, _value, last_output),
    {
        match self.zone_type {
            SnapZoneType::Snap => self.target,
            SnapZoneType::Dead => last_output,
        }
    }

    /// Check if this zone overlaps with another zone: two zones overlap when
    /// their ranges (target ± threshold) intersect.
    pub fn overlaps(&self, other: &SnapZone) -> (r: bool)
        requires
            zone_wf(*self),
            zone_wf(*other),
        ensures
            r == zone_overlaps(*self, *other),
    {
        let self_min: i64 = self.target - self.threshold;
        let self_max: i64 = self.target + self.threshold;
        let other_min: i64 = other.target - other.threshold;
        let other_max: i64 = other.target + other.threshold;
        !(self_max < other_min || other_max < self_min)
    }
}

} // verus!
