//! The pipeline engine: normalize, filter, curve, hysteresis, snap zones,
//! grab mode, denormalize — one `update` per sample tick.

use vstd::arithmetic::div_mod::lemma_div_is_ordered;
use vstd::arithmetic::div_mod::lemma_div_multiples_vanish_fancy;
use vstd::arithmetic::div_mod::lemma_div_pos_is_pos;
use vstd::arithmetic::div_mod::lemma_fundamental_div_mod;
use vstd::arithmetic::div_mod::lemma_mod_division_less_than_divisor;
use vstd::prelude::*;

use crate::SCALE;
use crate::config::Config;
use crate::config::ConfigError;
use crate::config::config_valid;
use crate::config::config_wf;
use crate::config::spec_validate;
use crate::curves::curve_of;
use crate::filters::EmaFilter;
use crate::filters::MovingAvgFilter;
use crate::filters::NoiseFilter;
use crate::filters::ema::ema_out;
use crate::filters::filter_valid;
use crate::filters::moving_avg::lemma_ma_output_bounds;
use crate::filters::moving_avg::ma_output;
use crate::grab_mode::GrabMode;
use crate::hysteresis::HysteresisState;
use crate::hysteresis::hyst_step;
use crate::snap_zones::snap_eval;
use crate::snap_zones::zones_wf;
use crate::state::State;

verus! {

/// Division rounded to the nearest whole unit, ties away from zero.
pub open spec fn round_div(p: int, q: int) -> int {
    if p >= 0 {
        (p + q / 2) / q
    } else {
        -((-p + q / 2) / q)
    }
}

/// Clamp `x` into `[lo, hi]`.
pub open spec fn spec_clamp(x: int, lo: int, hi: int) -> int {
    if x < lo {
        lo
    } else if x > hi {
        hi
    } else {
        x
    }
}

/// The normalized position of `input` in the configured input range: clamp to
/// `[input_min, input_max]`, then map linearly onto `[0, SCALE]`.
pub open spec fn norm_val(cfg: Config, input: i64) -> i64 {
    round_div(
        (spec_clamp(input as int, cfg.input_min as int, cfg.input_max as int) - cfg.input_min)
            * SCALE,
        cfg.input_max - cfg.input_min,
    ) as i64
}

/// Map a normalized position `t` back onto the output range:
/// `output_min + t * (output_max - output_min) / SCALE`, rounded to nearest.
/// With `output_min > output_max` the mapping is polarity-inverted.
pub open spec fn denorm_val(cfg: Config, t: i64) -> i64 {
    (cfg.output_min + round_div(t * (cfg.output_max - cfg.output_min), SCALE as int)) as i64
}

/// What the configured filter turns the normalized sample into, given the
/// filter state in `s`. With no filter state present the sample passes
/// through, as it does with the filter off.
pub open spec fn filt_of(filter: NoiseFilter, s: State, norm: i64) -> i64 {
    match filter {
        NoiseFilter::Off => norm,
        NoiseFilter::ExponentialMovingAverage { alpha } => match s.ema_filter {
            Some(f) => ema_out(f, norm, alpha) as i64,
            None => norm,
        },
        NoiseFilter::MovingAverage { .. } => match s.ma_filter {
            Some(f) => ma_output(f.history().push(norm), f.window()) as i64,
            None => norm,
        },
    }
}

/// One grab-mode step: the grab bookkeeping after the step and the value
/// emitted.
pub struct GrabStep {
    pub grabbed: bool,
    pub virtual_value: i64,
    pub last_physical: i64,
    pub passthrough_initialized: bool,
    pub output: i64,
}

/// What one grab-mode step does with the processed pot position `value`.
///
/// `Off` always reports grabbed and lets the value through, tracking it as the
/// virtual value. `Pickup` grabs once the position reaches the virtual value
/// from below and freezes the virtual value until then. `PassThrough` only
/// records the reference position on the first call after a virtual-value
/// change; afterwards it grabs when the position crosses the virtual value
/// from either direction, and freezes the virtual value until then.
pub open spec fn grab_step(mode: GrabMode, s: State, value: i64) -> GrabStep {
    match mode {
        GrabMode::Off => GrabStep {
            grabbed: true,
            virtual_value: value,
            last_physical: s.last_physical,
            passthrough_initialized: s.passthrough_initialized,
            output: value,
        },
        GrabMode::Pickup => if !s.grabbed {
            if value >= s.virtual_value {
                GrabStep {
                    grabbed: true,
                    virtual_value: value,
                    last_physical: s.last_physical,
                    passthrough_initialized: s.passthrough_initialized,
                    output: value,
                }
            } else {
                GrabStep {
                    grabbed: false,
                    virtual_value: s.virtual_value,
                    last_physical: s.last_physical,
                    passthrough_initialized: s.passthrough_initialized,
                    output: s.virtual_value,
                }
            }
        } else {
            GrabStep {
                grabbed: true,
                virtual_value: value,
                last_physical: s.last_physical,
                passthrough_initialized: s.passthrough_initialized,
                output: value,
            }
        },
        GrabMode::PassThrough => if !s.grabbed {
            if !s.passthrough_initialized {
                GrabStep {
                    grabbed: false,
                    virtual_value: s.virtual_value,
                    last_physical: value,
                    passthrough_initialized: true,
                    output: s.virtual_value,
                }
            } else if (value >= s.virtual_value && s.last_physical < s.virtual_value) || (value
                <= s.virtual_value && s.last_physical > s.virtual_value) {
                GrabStep {
                    grabbed: true,
                    virtual_value: value,
                    last_physical: value,
                    passthrough_initialized: true,
                    output: value,
                }
            } else {
                GrabStep {
                    grabbed: false,
                    virtual_value: s.virtual_value,
                    last_physical: value,
                    passthrough_initialized: true,
                    output: s.virtual_value,
                }
            }
        } else {
            GrabStep {
                grabbed: true,
                virtual_value: value,
                last_physical: value,
                passthrough_initialized: s.passthrough_initialized,
                output: value,
            }
        },
    }
}

/// The filter state matches the configured filter and holds normalized values.
pub open spec fn filter_state_wf(filter: NoiseFilter, s: State) -> bool {
    match filter {
        NoiseFilter::Off => s.ema_filter is None && s.ma_filter is None,
        NoiseFilter::ExponentialMovingAverage { .. } => {
            &&& s.ma_filter is None
            &&& s.ema_filter matches Some(f) && 0 <= f.spec_previous() <= SCALE
        },
        NoiseFilter::MovingAverage { window_size } => {
            &&& s.ema_filter is None
            &&& s.ma_filter matches Some(f) && f.wf() && f.window() == window_size && (forall|
                j: int,
            |
                0 <= j < f.history().len() ==> 0 <= #[trigger] f.history()[j] <= SCALE)
        },
    }
}

/// The pipeline state holds normalized values and matches the configuration.
pub open spec fn state_wf(cfg: Config, s: State) -> bool {
    &&& 0 <= s.last_output <= SCALE
    &&& 0 <= s.hysteresis.last_output <= SCALE
    &&& 0 <= s.virtual_value <= SCALE
    &&& 0 <= s.physical_position <= SCALE
    &&& 0 <= s.last_physical <= SCALE
    &&& filter_state_wf(cfg.filter, s)
}

/// How one `update` call changes the filter state: an EMA records the filtered
/// value, a moving average records the normalized sample in its history, and
/// no other filter state appears or disappears.
pub open spec fn filter_state_step(filter: NoiseFilter, s0: State, s1: State, norm: i64) -> bool {
    match filter {
        NoiseFilter::Off => s1.ema_filter == s0.ema_filter && s1.ma_filter == s0.ma_filter,
        NoiseFilter::ExponentialMovingAverage { alpha } => {
            &&& s1.ma_filter == s0.ma_filter
            &&& s1.ema_filter matches Some(g) && g.spec_initialized() && g.spec_previous()
                == filt_of(filter, s0, norm)
        },
        NoiseFilter::MovingAverage { .. } => {
            &&& s1.ema_filter == s0.ema_filter
            &&& (s0.ma_filter matches Some(f) ==> s1.ma_filter matches Some(g) && g.window()
                == f.window() && g.history() == f.history().push(norm))
            &&& (s0.ma_filter is None ==> s1.ma_filter is None)
        },
    }
}

/// The normalized sample one `update(input)` call feeds to the filter.
pub open spec fn norm_of(cfg: Config, s: State, input: i64) -> i64 {
    norm_val(cfg, input)
}

/// The filter stage's output for `update(input)` from state `s`.
pub open spec fn filt_val(cfg: Config, s: State, input: i64) -> i64 {
    filt_of(cfg.filter, s, norm_of(cfg, s, input))
}

/// The response curve stage's output for `update(input)` from state `s`.
pub open spec fn curve_val(cfg: Config, s: State, input: i64) -> i64 {
    curve_of(cfg.curve, filt_val(cfg, s, input) as int) as i64
}

/// The hysteresis stage's transition for `update(input)` from state `s`.
pub open spec fn hyst_of(cfg: Config, s: State, input: i64) -> (HysteresisState, i64) {
    hyst_step(cfg.hysteresis, s.hysteresis, curve_val(cfg, s, input))
}

/// The snap zone stage's output for `update(input)` from state `s`.
pub open spec fn snap_val(cfg: Config, s: State, input: i64) -> i64 {
    snap_eval(cfg.snap_zones@, hyst_of(cfg, s, input).1, s.last_output)
}

/// The grab mode stage's transition for `update(input)` from state `s`.
pub open spec fn grab_of(cfg: Config, s: State, input: i64) -> GrabStep {
    grab_step(cfg.grab_mode, s, snap_val(cfg, s, input))
}

/// What `update(input)` returns from state `s`: the grab stage's output mapped
/// onto the output range.
pub open spec fn update_out(cfg: Config, s: State, input: i64) -> i64 {
    denorm_val(cfg, grab_of(cfg, s, input).output)
}

/// How one `update(input)` call moves the state from `s0` to `s1`.
pub open spec fn update_rel(cfg: Config, s0: State, s1: State, input: i64) -> bool {
    &&& s1.hysteresis == hyst_of(cfg, s0, input).0
    &&& s1.physical_position == hyst_of(cfg, s0, input).1
    &&& s1.last_output == grab_of(cfg, s0, input).output
    &&& s1.grabbed == grab_of(cfg, s0, input).grabbed
    &&& s1.virtual_value == grab_of(cfg, s0, input).virtual_value
    &&& s1.last_physical == grab_of(cfg, s0, input).last_physical
    &&& s1.passthrough_initialized == grab_of(cfg, s0, input).passthrough_initialized
    &&& filter_state_step(cfg.filter, s0, s1, norm_of(cfg, s0, input))
}

/// The state a freshly constructed pipeline starts from: everything zeroed and
/// ungrabbed, with filter state allocated to match the configured filter.
pub open spec fn initial_state_rel(cfg: Config, s: State) -> bool {
    &&& s.hysteresis.last_output == 0
    &&& s.hysteresis.schmitt_state is Low
    &&& s.last_output == 0
    &&& !s.grabbed
    &&& s.virtual_value == 0
    &&& s.physical_position == 0
    &&& s.last_physical == 0
    &&& !s.passthrough_initialized
    &&& match cfg.filter {
        NoiseFilter::Off => s.ema_filter is None && s.ma_filter is None,
        NoiseFilter::ExponentialMovingAverage { .. } => {
            &&& s.ma_filter is None
            &&& s.ema_filter matches Some(f) && !f.spec_initialized() && f.spec_previous() == 0
        },
        NoiseFilter::MovingAverage { window_size } => {
            &&& s.ema_filter is None
            &&& s.ma_filter matches Some(f) && f.window() == window_size && f.history()
                == Seq::<i64>::empty()
        },
    }
}

/// The pipeline is waiting for the pot to be grabbed: a grab mode is active
/// and the pot has not yet reached (or crossed) the virtual value.
pub open spec fn waiting_for_grab(cfg: Config, s: State) -> bool {
    (cfg.grab_mode is Pickup || cfg.grab_mode is PassThrough) && !s.grabbed
}

/// Pickup holds the virtual value while the pot position stays below it,
/// grabs the first time the position reaches it — equality suffices, no
/// overshoot is needed — and emits the position from that step on.
pub proof fn lemma_pickup_grab(s: State, v: i64)
    requires
        !s.grabbed,
    ensures
        v >= s.virtual_value ==> grab_step(GrabMode::Pickup, s, v).grabbed && grab_step(
            GrabMode::Pickup,
            s,
            v,
        ).output == v,
        v < s.virtual_value ==> !grab_step(GrabMode::Pickup, s, v).grabbed && grab_step(
            GrabMode::Pickup,
            s,
            v,
        ).output == s.virtual_value && grab_step(GrabMode::Pickup, s, v).virtual_value
            == s.virtual_value,
{
}

/// After a virtual-value change, PassThrough's very first step only records
/// the reference position and keeps emitting the virtual value — it does not
/// grab even when the position equals the virtual value. A following step
/// grabs exactly when the position reaches the virtual value from the other
/// side of the recorded reference, from either direction.
pub proof fn lemma_passthrough_first_read_then_cross(s: State, v1: i64, v2: i64)
    requires
        !s.grabbed,
        !s.passthrough_initialized,
    ensures
        !grab_step(GrabMode::PassThrough, s, v1).grabbed,
        grab_step(GrabMode::PassThrough, s, v1).output == s.virtual_value,
        grab_step(GrabMode::PassThrough, s, v1).last_physical == v1,
        ({
            let s1 = State {
                hysteresis: s.hysteresis,
                ema_filter: s.ema_filter,
                ma_filter: s.ma_filter,
                last_output: s.last_output,
                grabbed: false,
                virtual_value: s.virtual_value,
                physical_position: s.physical_position,
                last_physical: v1,
                passthrough_initialized: true,
            };
            let crossing = (v2 >= s.virtual_value && v1 < s.virtual_value) || (v2
                <= s.virtual_value && v1 > s.virtual_value);
            &&& grab_step(GrabMode::PassThrough, s1, v2).grabbed == crossing
            &&& grab_step(GrabMode::PassThrough, s1, v2).output == if crossing {
                v2
            } else {
                s.virtual_value
            }
        }),
{
}

/// With a linear curve, no filter, no hysteresis, no snap zones and grab mode
/// off, the input range endpoints map exactly onto the output range endpoints:
/// `update(input_min)` yields `output_min` and `update(input_max)` yields
/// `output_max` — also when the output range is inverted — from any state.
pub proof fn lemma_update_maps_endpoints(cfg: Config, s: State)
    requires
        config_valid(cfg),
        cfg.curve is Linear,
        cfg.filter is Off,
        cfg.hysteresis is Off,
        cfg.snap_zones@.len() == 0,
        cfg.grab_mode is Off,
    ensures
        update_out(cfg, s, cfg.input_min) == cfg.output_min,
        update_out(cfg, s, cfg.input_max) == cfg.output_max,
{
    let q: int = cfg.input_max - cfg.input_min;
    let s_int: int = SCALE as int;
    lemma_fundamental_div_mod(q, 2);
    lemma_mod_division_less_than_divisor(q, 2);
    lemma_div_pos_is_pos(q, 2);
    assert(0 <= q / 2 < q);
    // the lower endpoint normalizes to zero
    lemma_div_multiples_vanish_fancy(0, q / 2, q);
    assert(q * 0 == 0) by (nonlinear_arith);
    assert(norm_val(cfg, cfg.input_min) == 0);
    // the upper endpoint normalizes to a full turn
    assert((cfg.input_max - cfg.input_min) * SCALE == q * s_int) by (nonlinear_arith)
        requires
            q == cfg.input_max - cfg.input_min,
            s_int == SCALE,
    ;
    lemma_div_multiples_vanish_fancy(s_int, q / 2, q);
    assert(norm_val(cfg, cfg.input_max) == SCALE);
    // denormalizing zero gives the lower output endpoint
    let d: int = cfg.output_max - cfg.output_min;
    assert((0 as i64) * (cfg.output_max - cfg.output_min) == 0) by (nonlinear_arith);
    assert(round_div(0, s_int) == 0);
    assert(denorm_val(cfg, 0) == cfg.output_min);
    // denormalizing a full turn gives the upper output endpoint
    assert((SCALE as i64) * (cfg.output_max - cfg.output_min) == s_int * d) by (nonlinear_arith)
        requires
            d == cfg.output_max - cfg.output_min,
            s_int == SCALE,
    ;
    if d >= 0 {
        lemma_div_multiples_vanish_fancy(d, s_int / 2, s_int);
        assert(round_div(s_int * d, s_int) == d);
    } else {
        assert(-(s_int * d) == s_int * (-d)) by (nonlinear_arith);
        lemma_div_multiples_vanish_fancy(-d, s_int / 2, s_int);
        assert(round_div(s_int * d, s_int) == d);
    }
    assert(denorm_val(cfg, SCALE) == cfg.output_max);
}

/// Out-of-range inputs clamp: an input below `input_min` is processed exactly
/// like `input_min`, and one above `input_max` exactly like `input_max` — the
/// output and every stage of the state change are the same.
pub proof fn lemma_update_clamps(cfg: Config, s: State, x: i64)
    requires
        config_valid(cfg),
    ensures
        x < cfg.input_min ==> norm_val(cfg, x) == norm_val(cfg, cfg.input_min),
        x < cfg.input_min ==> update_out(cfg, s, x) == update_out(cfg, s, cfg.input_min),
        x < cfg.input_min ==> hyst_of(cfg, s, x) == hyst_of(cfg, s, cfg.input_min),
        x < cfg.input_min ==> grab_of(cfg, s, x) == grab_of(cfg, s, cfg.input_min),
        x > cfg.input_max ==> norm_val(cfg, x) == norm_val(cfg, cfg.input_max),
        x > cfg.input_max ==> update_out(cfg, s, x) == update_out(cfg, s, cfg.input_max),
        x > cfg.input_max ==> hyst_of(cfg, s, x) == hyst_of(cfg, s, cfg.input_max),
        x > cfg.input_max ==> grab_of(cfg, s, x) == grab_of(cfg, s, cfg.input_max),
{
    assert(cfg.input_min < cfg.input_max);
    if x < cfg.input_min {
        assert(spec_clamp(x as int, cfg.input_min as int, cfg.input_max as int)
            == cfg.input_min as int);
        assert(spec_clamp(cfg.input_min as int, cfg.input_min as int, cfg.input_max as int)
            == cfg.input_min as int);
    }
    if x > cfg.input_max {
        assert(spec_clamp(x as int, cfg.input_min as int, cfg.input_max as int)
            == cfg.input_max as int);
        assert(spec_clamp(cfg.input_max as int, cfg.input_min as int, cfg.input_max as int)
            == cfg.input_max as int);
    }
}

/// The pipeline engine: owns the immutable configuration and the mutable
/// per-instance state.
pub struct PotHead {
    config: Config,
    state: State,
}

/// Division rounded to the nearest whole unit, ties away from zero.
fn div_round(p: i64, q: i64) -> (r: i64)
    requires
        1 <= q <= 4_000_000_000_000_000,
        -4_000_000_000_000_000 <= p <= 4_000_000_000_000_000,
    ensures
        r == round_div(p as int, q as int),
{
    if p >= 0 {
        (p + q / 2) / q
    } else {
        -((-p + q / 2) / q)
    }
}

/// Apply the configured filter to a normalized sample, updating the filter
/// state carried in `state`.
fn apply_filter(filter: NoiseFilter, state: &mut State, value: i64) -> (r: i64)
    requires
        filter_valid(filter),
        filter_state_wf(filter, *old(state)),
        0 <= value <= SCALE,
    ensures
        r == filt_of(filter, *old(state), value),
        0 <= r <= SCALE,
        filter_state_step(filter, *old(state), *final(state), value),
        filter_state_wf(filter, *final(state)),
        final(state).hysteresis == old(state).hysteresis,
        final(state).last_output == old(state).last_output,
        final(state).grabbed == old(state).grabbed,
        final(state).virtual_value == old(state).virtual_value,
        final(state).physical_position == old(state).physical_position,
        final(state).last_physical == old(state).last_physical,
        final(state).passthrough_initialized == old(state).passthrough_initialized,
{
    match filter {
        NoiseFilter::Off => value,
        NoiseFilter::ExponentialMovingAverage { alpha } => match &mut state.ema_filter {
            Some(f) => {
                let r = f.apply(value, alpha);
                proof {
                    let f0 = old(state).ema_filter->0;
                    assert(ema_out(f0, value, alpha) <= if value >= f0.spec_previous() {
                        value as int
                    } else {
                        f0.spec_previous() as int
                    }) by {
                        if f0.spec_initialized() {
                            crate::filters::ema::lemma_ema_step_approaches(
                                f0.spec_previous() as int,
                                value as int,
                                alpha as int,
                            );
                        }
                    }
                }
                r
            },
            None => value,
        },
        NoiseFilter::MovingAverage { .. } => match &mut state.ma_filter {
            Some(f) => {
                let ghost h0 = f.history();
                let r = f.apply(value);
                proof {
                    assert forall|j: int| 0 <= j < h0.push(value).len() implies 0 <= #[trigger] h0
                        .push(value)[j] <= SCALE by {
                        if j < h0.len() {
                            assert(0 <= h0[j] <= SCALE);
                        }
                    }
                    lemma_ma_output_bounds(h0.push(value), f.window(), SCALE as int);
                }
                r
            },
            None => value,
        },
    }
}

/// Apply the grab mode logic to the processed pot position, updating the grab
/// bookkeeping carried in `state`.
fn apply_grab_mode(mode: GrabMode, state: &mut State, value: i64) -> (r: i64)
    ensures
        r == grab_step(mode, *old(state), value).output,
        final(state).grabbed == grab_step(mode, *old(state), value).grabbed,
        final(state).virtual_value == grab_step(mode, *old(state), value).virtual_value,
        final(state).last_physical == grab_step(mode, *old(state), value).last_physical,
        final(state).passthrough_initialized == grab_step(
            mode,
            *old(state),
            value,
        ).passthrough_initialized,
        final(state).hysteresis == old(state).hysteresis,
        final(state).ema_filter == old(state).ema_filter,
        final(state).ma_filter == old(state).ma_filter,
        final(state).last_output == old(state).last_output,
        final(state).physical_position == old(state).physical_position,
{
    match mode {
        GrabMode::Off => {
            // direct control, no grab logic: always consider the pot grabbed
            state.grabbed = true;
            state.virtual_value = value;
            value
        },
        GrabMode::Pickup => {
            if !state.grabbed {
                // check if the pot reaches the virtual value from below
                if value >= state.virtual_value {
                    state.grabbed = true;
                } else {
                    // hold the virtual value until grabbed
                    return state.virtual_value;
                }
            }
            // the pot is grabbed: track it
            state.virtual_value = value;
            value
        },
        GrabMode::PassThrough => {
            if !state.grabbed {
                // first read after a virtual-value change: only record the
                // reference position
                if !state.passthrough_initialized {
                    state.last_physical = value;
                    state.passthrough_initialized = true;
                    return state.virtual_value;
                }
                // check if the pot crosses the virtual value from either
                // direction
                let crossing_from_below = value >= state.virtual_value && state.last_physical
                    < state.virtual_value;
                let crossing_from_above = value <= state.virtual_value && state.last_physical
                    > state.virtual_value;
                if crossing_from_below || crossing_from_above {
                    state.grabbed = true;
                    state.last_physical = value;
                    state.virtual_value = value;
                    return value;
                }
                // not grabbed yet: update the reference and hold the virtual
                // value
                state.last_physical = value;
                return state.virtual_value;
            }
            // the pot is grabbed: track it
            state.last_physical = value;
            state.virtual_value = value;
            value
        },
    }
}

impl PotHead {
    /// The immutable configuration this pipeline was built with.
    pub closed spec fn spec_config(&self) -> Config {
        self.config
    }

    /// The pipeline's mutable state.
    pub closed spec fn spec_state(&self) -> State {
        self.state
    }

    /// The pipeline holds a valid configuration and matching normalized state.
    pub open spec fn wf(&self) -> bool {
        &&& config_wf(self.spec_config())
        &&& config_valid(self.spec_config())
        &&& state_wf(self.spec_config(), self.spec_state())
    }

    /// Validate the configuration and build a pipeline with freshly
    /// initialized state, or return the first configuration mistake.
    ///
    /// The caller supplies representable values — range endpoints within
    /// `RANGE_LIMIT` and normalized parameters within `[0, SCALE]` — while the
    /// dynamic mistakes (an unordered input range, a degenerate output range,
    /// unsound hysteresis or filter parameters) are reported as `ConfigError`.
    pub fn new(config: Config) -> (r: Result<PotHead, ConfigError>)
        requires
            config_wf(config),
        ensures
            r is Ok <==> config_valid(config),
            r matches Ok(p) ==> p.wf() && p.spec_config() == config && initial_state_rel(
                config,
                p.spec_state(),
            ),
            r matches Err(e) ==> spec_validate(config) == Err::<(), ConfigError>(e),
    {
        match config.validate() {
            Err(e) => {
                return Err(e);
            },
            Ok(()) => {},
        }
        let mut state = State::default();
        match config.filter {
            NoiseFilter::ExponentialMovingAverage { .. } => {
                state.ema_filter = Some(EmaFilter::new());
            },
            NoiseFilter::MovingAverage { window_size } => {
                state.ma_filter = Some(MovingAvgFilter::new(window_size));
            },
            NoiseFilter::Off => {},
        }
        Ok(PotHead { config, state })
    }

    /// Read-only access to the configuration.
    pub fn config(&self) -> (r: &Config)
        ensures
            *r == self.spec_config(),
    {
        &self.config
    }

    /// Process one raw sample through the pipeline: normalize, filter, curve,
    /// hysteresis, snap zones, grab mode, then denormalize. Total on any
    /// input — out-of-range values are clamped — and mutates the state
    /// exactly once.
    pub fn update(&mut self, input: i64) -> (r: i64)
        requires
            old(self).wf(),
        ensures
            final(self).wf(),
            final(self).spec_config() == old(self).spec_config(),
            r == update_out(old(self).spec_config(), old(self).spec_state(), input),
            update_rel(
                old(self).spec_config(),
                old(self).spec_state(),
                final(self).spec_state(),
                input,
            ),
    {
        let ghost cfg = self.config;
        let ghost s0 = self.state;
        let normalized = self.normalize_input(input);
        let filter = self.config.filter;
        let filtered = apply_filter(filter, &mut self.state, normalized);
        let curved = self.config.curve.apply(filtered);
        proof {
            assert(0 <= curved <= SCALE);
            assert(curved == curve_val(cfg, s0, input));
        }
        let hysteresis_mode = self.config.hysteresis;
        let hysteresis_applied = hysteresis_mode.apply(curved, &mut self.state.hysteresis);
        proof {
            assert(0 <= hysteresis_applied <= SCALE);
        }
        // capture the physical position before snap zones and grab mode
        self.state.physical_position = hysteresis_applied;
        let snapped = self.apply_snap_zones(hysteresis_applied);
        proof {
            crate::snap_zones::lemma_snap_eval_bounds(
                cfg.snap_zones@,
                hysteresis_applied,
                s0.last_output,
            );
            assert(snapped == snap_val(cfg, s0, input));
        }
        let grab_mode = self.config.grab_mode;
        let ghost s_mid = self.state;
        let output = apply_grab_mode(grab_mode, &mut self.state, snapped);
        proof {
            assert(grab_step(grab_mode, s_mid, snapped) == grab_step(grab_mode, s0, snapped));
            assert(grab_step(grab_mode, s0, snapped) == grab_of(cfg, s0, input));
            assert(0 <= output <= SCALE);
        }
        // record the last output for dead zones
        self.state.last_output = output;
        self.denormalize_output(output)
    }

    /// Normalize a raw sample: clamp into the input range, then map onto
    /// `[0, SCALE]`.
    fn normalize_input(&self, input: i64) -> (r: i64)
        requires
            config_wf(self.spec_config()),
            config_valid(self.spec_config()),
        ensures
            r == norm_val(self.spec_config(), input),
            0 <= r <= SCALE,
    {
        let lo = self.config.input_min;
        let hi = self.config.input_max;
        let clamped = if input < lo {
            lo
        } else if input > hi {
            hi
        } else {
            input
        };
        let num = (clamped - lo) * SCALE;
        let den = hi - lo;
        let r = div_round(num, den);
        proof {
            let p: int = num as int;
            let q: int = den as int;
            lemma_div_pos_is_pos(p + q / 2, q);
            assert(p <= q * (SCALE as int)) by (nonlinear_arith)
                requires
                    p == (clamped - lo) * SCALE,
                    q == hi - lo,
                    0 <= clamped - lo <= q,
                    SCALE > 0,
            ;
            lemma_div_is_ordered(p + q / 2, q * (SCALE as int) + q / 2, q);
            lemma_div_multiples_vanish_fancy(SCALE as int, q / 2, q);
        }
        r
    }

    /// Map a normalized position back onto the output range. The result lies
    /// between `output_min` and `output_max`, whichever order they are in.
    fn denormalize_output(&self, normalized: i64) -> (r: i64)
        requires
            config_wf(self.spec_config()),
            config_valid(self.spec_config()),
            0 <= normalized <= SCALE,
        ensures
            r == denorm_val(self.spec_config(), normalized),
    {
        let omin = self.config.output_min;
        let omax = self.config.output_max;
        proof {
            let t: int = normalized as int;
            let d: int = (omax - omin) as int;
            let s: int = SCALE as int;
            if d >= 0 {
                assert(0 <= t * d <= s * d) by (nonlinear_arith)
                    requires
                        0 <= t <= s,
                        0 <= d,
                ;
                lemma_div_pos_is_pos(t * d + s / 2, s);
                lemma_div_is_ordered(t * d + s / 2, s * d + s / 2, s);
                lemma_div_multiples_vanish_fancy(d, s / 2, s);
            } else {
                assert(0 <= t * (-d) <= s * (-d)) by (nonlinear_arith)
                    requires
                        0 <= t <= s,
                        d < 0,
                ;
                lemma_div_pos_is_pos(t * (-d) + s / 2, s);
                lemma_div_is_ordered(t * (-d) + s / 2, s * (-d) + s / 2, s);
                lemma_div_multiples_vanish_fancy(-d, s / 2, s);
                assert(-(t * d) == t * (-d)) by (nonlinear_arith);
            }
        }
        let num = normalized * (omax - omin);
        let scaled = div_round(num, SCALE);
        omin + scaled
    }

    /// Evaluate the configured snap zones in order; the first zone containing
    /// the value decides, and with no match the value passes through.
    fn apply_snap_zones(&self, value: i64) -> (r: i64)
        requires
            zones_wf(self.spec_config().snap_zones@),
        ensures
            r == snap_eval(self.spec_config().snap_zones@, value, self.spec_state().last_output),
    {
        let ghost zs = self.config.snap_zones@;
        let ghost lo = self.state.last_output;
        proof {
            assert(zs.skip(0) =~= zs);
        }
        let mut i: usize = 0;
        while i < self.config.snap_zones.len()
            invariant
                i <= zs.len(),
                zs == self.config.snap_zones@,
                lo == self.state.last_output,
                zones_wf(zs),
                snap_eval(zs, value, lo) == snap_eval(zs.skip(i as int), value, lo),
            decreases zs.len() - i,
        {
            let zone = self.config.snap_zones[i];
            proof {
                assert(zs.skip(i as int)[0] == zs[i as int]);
            }
            if zone.contains(value) {
                return zone.apply(value, self.state.last_output);
            }
            proof {
                assert(zs.skip(i as int).drop_first() =~= zs.skip(i as int + 1));
            }
            i = i + 1;
        }
        proof {
            assert(zs.skip(zs.len() as int).len() == 0);
        }
        value
    }

    /// The current physical pot position in normalized units: where the pot is
    /// after normalize, filter, curve and hysteresis, before snap zones and
    /// grab adjustments. Useful for UI display when grab mode is active.
    pub fn physical_position(&self) -> (r: i64)
        ensures
            r == self.spec_state().physical_position,
    {
        self.state.physical_position
    }

    /// The current output value in normalized units, without updating state:
    /// the locked or tracked virtual value.
    pub fn current_output(&self) -> (r: i64)
        ensures
            r == self.spec_state().virtual_value,
    {
        self.state.virtual_value
    }

    /// True when a grab mode is active but the pot has not been grabbed yet;
    /// the output then stays locked at the virtual value.
    pub fn is_waiting_for_grab(&self) -> (r: bool)
        ensures
            r == waiting_for_grab(self.spec_config(), self.spec_state()),
    {
        (match self.config.grab_mode {
            GrabMode::Pickup => true,
            GrabMode::PassThrough => true,
            GrabMode::Off => false,
        }) && !self.state.grabbed
    }

    /// Set the virtual parameter value (after a preset change or automation).
    /// This unlocks grab mode: the pot must be grabbed again.
    pub fn set_virtual_value(&mut self, value: i64)
        requires
            old(self).wf(),
            0 <= value <= SCALE,
        ensures
            final(self).wf(),
            final(self).spec_config() == old(self).spec_config(),
            final(self).spec_state().virtual_value == value,
            !final(self).spec_state().grabbed,
            !final(self).spec_state().passthrough_initialized,
            final(self).spec_state().hysteresis == old(self).spec_state().hysteresis,
            final(self).spec_state().ema_filter == old(self).spec_state().ema_filter,
            final(self).spec_state().ma_filter == old(self).spec_state().ma_filter,
            final(self).spec_state().last_output == old(self).spec_state().last_output,
            final(self).spec_state().physical_position == old(
                self,
            ).spec_state().physical_position,
            final(self).spec_state().last_physical == old(self).spec_state().last_physical,
    {
        self.state.virtual_value = value;
        self.state.grabbed = false;
        self.state.passthrough_initialized = false;
    }

    /// Release the grab: the virtual value becomes the current physical
    /// position and the pot must be grabbed again. Useful when reassigning the
    /// physical pot to a different logical parameter.
    pub fn release(&mut self)
        requires
            old(self).wf(),
        ensures
            final(self).wf(),
            final(self).spec_config() == old(self).spec_config(),
            final(self).spec_state().virtual_value == old(self).spec_state().physical_position,
            !final(self).spec_state().grabbed,
            !final(self).spec_state().passthrough_initialized,
            final(self).spec_state().hysteresis == old(self).spec_state().hysteresis,
            final(self).spec_state().ema_filter == old(self).spec_state().ema_filter,
            final(self).spec_state().ma_filter == old(self).spec_state().ma_filter,
            final(self).spec_state().last_output == old(self).spec_state().last_output,
            final(self).spec_state().physical_position == old(
                self,
            ).spec_state().physical_position,
            final(self).spec_state().last_physical == old(self).spec_state().last_physical,
    {
        self.state.virtual_value = self.state.physical_position;
        self.state.grabbed = false;
        self.state.passthrough_initialized = false;
    }
}

} // verus!
