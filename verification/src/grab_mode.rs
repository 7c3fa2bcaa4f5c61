//! Grab mode functionality for parameter automation.
//!
//! When the physical pot position does not match the virtual parameter value
//! (for example after automation or a preset change), grab modes prevent
//! jarring jumps.

use vstd::prelude::*;

verus! {

/// Grab mode determines how the pot position synchronizes with the virtual
/// parameter value.
#[derive(Debug, Clone, Copy, PartialEq, Eq, Structural)]
pub enum GrabMode {
    /// Disabled: the pot position immediately controls the output (which may
    /// cause jumps).
    Off,
    /// Pickup mode: catches when the pot crosses the virtual value from below.
    Pickup,
    /// PassThrough mode: catches when the pot crosses the virtual value from
    /// either direction.
    PassThrough,
}

impl Default for GrabMode {
    fn default() -> (r: Self)
        ensures
            r is Off,
    {
        GrabMode::Off
    }
}

} // verus!
