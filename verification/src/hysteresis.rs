//! Hysteresis modes for noise reduction and oscillation prevention.
//!
//! Operates on normalized fixed-point values in the processing pipeline.

use vstd::prelude::*;

use crate::VALUE_LIMIT;

verus! {

/// Schmitt trigger output state.
#[derive(Debug, Clone, Copy, PartialEq, Eq, Structural)]
pub enum SchmittState {
    Low,
    High,
}

/// Hysteresis modes. Thresholds are normalized fixed-point values.
#[derive(Debug, Clone, Copy, PartialEq, Eq, Structural)]
pub enum HysteresisMode {
    /// No hysteresis applied.
    Off,
    /// Ignore changes whose magnitude does not exceed `threshold`.
    ChangeThreshold { threshold: i64 },
    /// Separate rising/falling thresholds to prevent boundary oscillation.
    SchmittTrigger { rising: i64, falling: i64 },
}

/// State for hysteresis processing.
#[derive(Debug, Clone, Copy, PartialEq, Eq, Structural)]
pub struct HysteresisState {
    pub last_output: i64,
    pub schmitt_state: SchmittState,
}

impl Default for HysteresisState {
    fn default() -> (r: Self)
        ensures
            r.last_output == 0,
            r.schmitt_state is Low,
    {
        HysteresisState { last_output: 0, schmitt_state: SchmittState::Low }
    }
}

/// The mode's parameters fit the range the stages work over.
pub open spec fn mode_wf(m: HysteresisMode) -> bool {
    match m {
        HysteresisMode::Off => true,
        HysteresisMode::ChangeThreshold { threshold } => 0 <= threshold <= VALUE_LIMIT,
        HysteresisMode::SchmittTrigger { rising, falling } => 0 <= rising <= VALUE_LIMIT
            && 0 <= falling <= VALUE_LIMIT,
    }
}

/// The mode's parameters pass validation: a Schmitt trigger needs
/// `rising > falling`; the other modes are always valid.
pub open spec fn mode_valid(m: HysteresisMode) -> bool {
    match m {
        HysteresisMode::Off => true,
        HysteresisMode::ChangeThreshold { .. } => true,
        HysteresisMode::SchmittTrigger { rising, falling } => rising > falling,
    }
}

/// The value a Schmitt trigger emits in a given state.
pub open spec fn schmitt_level(st: SchmittState, rising: i64, falling: i64) -> i64 {
    match st {
        SchmittState::High => rising,
        SchmittState::Low => falling,
    }
}

/// One step of hysteresis processing: the state after the step and the value
/// emitted.
///
/// `Off` passes the input through and leaves the state alone.
/// `ChangeThreshold` emits the input and records it only when it differs from
/// `last_output` by strictly more than `threshold`; otherwise it re-emits
/// `last_output` (equality at the boundary does not update).
/// `SchmittTrigger` switches high at `input >= rising`, low at
/// `input <= falling`, and emits the threshold value of the state it is in.
pub open spec fn hyst_step(m: HysteresisMode, st: HysteresisState, input: i64) -> (
    HysteresisState,
    i64,
) {
    match m {
        HysteresisMode::Off => (st, input),
        HysteresisMode::ChangeThreshold { threshold } => {
            let diff: int = if input > st.last_output {
                input - st.last_output
            } else {
                st.last_output - input
            };
            let out: i64 = if diff > threshold {
                input
            } else {
                st.last_output
            };
            (HysteresisState { last_output: out, schmitt_state: st.schmitt_state }, out)
        },
        HysteresisMode::SchmittTrigger { rising, falling } => {
            let ns: SchmittState = if input >= rising {
                SchmittState::High
            } else if input <= falling {
                SchmittState::Low
            } else {
                st.schmitt_state
            };
            let out: i64 = schmitt_level(ns, rising, falling);
            (HysteresisState { last_output: out, schmitt_state: ns }, out)
        },
    }
}

impl HysteresisMode {
    /// The mode that applies no hysteresis.
    pub fn none() -> (r: Self)
        ensures
            r is Off,
    {
        HysteresisMode::Off
    }

    /// Run one hysteresis step on `input`, updating `state`.
    pub fn apply(&self, input: i64, state: &mut HysteresisState) -> (r: i64)
        requires
            mode_wf(*self),
            0 <= input <= VALUE_LIMIT,
            0 <= old(state).last_output <= VALUE_LIMIT,
        ensures
            *final(state) == hyst_step(*self, *old(state), input).0,
            r == hyst_step(*self, *old(state), input).1,
            0 <= r <= VALUE_LIMIT,
            0 <= final(state).last_output <= VALUE_LIMIT,
    {
        match self {
            HysteresisMode::Off => input,
            HysteresisMode::ChangeThreshold { threshold } => {
                let diff: i64 = if input > state.last_output {
                    input - state.last_output
                } else {
                    state.last_output - input
                };
                let output: i64 = if diff > *threshold {
                    input
                } else {
                    state.last_output
                };
                state.last_output = output;
                output
            },
            HysteresisMode::SchmittTrigger { rising, falling } => {
                if input >= *rising {
                    state.schmitt_state = SchmittState::High;
                } else if input <= *falling {
                    state.schmitt_state = SchmittState::Low;
                }
                let output: i64 = match state.schmitt_state {
                    SchmittState::High => *rising,
                    SchmittState::Low => *falling,
                };
                state.last_output = output;
                output
            },
        }
    }

    /// Check the mode's parameters: a Schmitt trigger must have
    /// `rising > falling`.
    pub fn validate(&self) -> (r: Result<(), &'static str>)
        ensures
            r is Ok <==> mode_valid(*self),
    {
        match self {
            HysteresisMode::Off => Ok(()),
            HysteresisMode::ChangeThreshold { .. } => Ok(()),
            HysteresisMode::SchmittTrigger { rising, falling } => {
                if *rising <= *falling {
                    Err("Schmitt trigger: rising threshold must be greater than falling threshold")
                } else {
                    Ok(())
                }
            },
        }
    }
}

/// The hysteresis state after feeding a whole sequence of inputs, in order.
pub open spec fn hyst_iter(m: HysteresisMode, st: HysteresisState, inputs: Seq<i64>) -> HysteresisState
    decreases inputs.len(),
{
    if inputs.len() == 0 {
        st
    } else {
        hyst_step(m, hyst_iter(m, st, inputs.drop_last()), inputs.last()).0
    }
}

/// A Schmitt trigger fed inputs that all stay strictly between `falling` and
/// `rising` never switches: its state keeps the starting level, and every step
/// emits the value of that starting level, no matter how the inputs oscillate
/// inside the dead band.
pub proof fn lemma_schmitt_band_stable(
    rising: i64,
    falling: i64,
    st: HysteresisState,
    inputs: Seq<i64>,
)
    requires
        forall|k: int| 0 <= k < inputs.len() ==> falling < #[trigger] inputs[k] < rising,
    ensures
        hyst_iter(HysteresisMode::SchmittTrigger { rising, falling }, st, inputs).schmitt_state
            == st.schmitt_state,
        forall|k: int|
            0 <= k < inputs.len() ==> hyst_step(
                HysteresisMode::SchmittTrigger { rising, falling },
                hyst_iter(
                    HysteresisMode::SchmittTrigger { rising, falling },
                    st,
                    inputs.take(k),
                ),
                #[trigger] inputs[k],
            ).1 == schmitt_level(st.schmitt_state, rising, falling),
    decreases inputs.len(),
{
    let m = HysteresisMode::SchmittTrigger { rising, falling };
    if inputs.len() > 0 {
        lemma_schmitt_band_stable(rising, falling, st, inputs.drop_last());
        assert(inputs.take(inputs.len() - 1) == inputs.drop_last());
        assert(forall|k: int|
            0 <= k < inputs.len() - 1 ==> inputs.take(inputs.len() - 1)[k] == #[trigger] inputs[k]);
        assert(forall|k: int|
            0 <= k < inputs.len() - 1 ==> #[trigger] inputs.take(k) == inputs.drop_last().take(k));
    }
}

} // verus!
