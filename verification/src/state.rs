//! Mutable per-instance pipeline state.

use vstd::prelude::*;

use crate::filters::EmaFilter;
use crate::filters::MovingAvgFilter;
use crate::hysteresis::HysteresisState;
use crate::hysteresis::SchmittState;

verus! {

/// The mutable state one pipeline instance owns: the hysteresis baseline, the
/// optional filter state (at most one filter is active), the last emitted
/// normalized output (used by dead zones), and the grab-mode bookkeeping.
pub struct State {
    /// Hysteresis processing state.
    pub hysteresis: HysteresisState,
    /// EMA filter state, present when the configured filter is an EMA.
    pub ema_filter: Option<EmaFilter>,
    /// Moving average filter state, present when that filter is configured.
    pub ma_filter: Option<MovingAvgFilter>,
    /// Last normalized output value (for dead zones).
    pub last_output: i64,
    /// Grab mode: whether the pot has been grabbed.
    pub grabbed: bool,
    /// Grab mode: the virtual parameter value (locked while not grabbed).
    pub virtual_value: i64,
    /// Grab mode: physical position after processing, before snap zones.
    pub physical_position: i64,
    /// Grab mode: previous physical position (for PassThrough crossing
    /// detection).
    pub last_physical: i64,
    /// Grab mode: whether `last_physical` has been recorded since the last
    /// virtual-value change (for the PassThrough first read).
    pub passthrough_initialized: bool,
}

impl Default for State {
    fn default() -> (r: Self)
        ensures
            r.hysteresis.last_output == 0,
            r.hysteresis.schmitt_state is Low,
            r.ema_filter is None,
            r.ma_filter is None,
            r.last_output == 0,
            !r.grabbed,
            r.virtual_value == 0,
            r.physical_position == 0,
            r.last_physical == 0,
            !r.passthrough_initialized,
    {
        State {
            hysteresis: HysteresisState { last_output: 0, schmitt_state: SchmittState::Low },
            ema_filter: None,
            ma_filter: None,
            last_output: 0,
            grabbed: false,
            virtual_value: 0,
            physical_position: 0,
            last_physical: 0,
            passthrough_initialized: false,
        }
    }
}

} // verus!
