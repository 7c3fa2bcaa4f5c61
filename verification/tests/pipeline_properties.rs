use pot_head::Config;
use pot_head::GrabMode;
use pot_head::HysteresisMode;
use pot_head::NoiseFilter;
use pot_head::PotHead;
use pot_head::ResponseCurve;
use pot_head::filters::EmaFilter;
use pot_head::filters::MovingAvgFilter;

fn fx(x: f64) -> i64 {
    (x * 1_000_000.0).round() as i64
}

fn unfx(x: i64) -> f32 {
    x as f32 / 1_000_000.0
}

#[test]
fn log_curve_exact_table_points() {
    // Exact fixed-point values of the audio taper at tabulated points
    let curve = ResponseCurve::Logarithmic;
    assert_eq!(curve.apply(0), 0);
    assert_eq!(curve.apply(fx(0.25)), 58_526);
    assert_eq!(curve.apply(fx(0.5)), 182_426);
    assert_eq!(curve.apply(fx(1.0)), 1_000_000);
}

#[test]
fn moving_avg_largest_window() {
    // The largest allowed window holds exactly 32 samples
    let mut filter = MovingAvgFilter::new(32);
    for k in 0..32i64 {
        filter.apply(k * 1000);
    }
    // Mean of 0, 1000, ..., 31000 is 15500
    let mut filter2 = MovingAvgFilter::new(32);
    let mut last = 0;
    for k in 0..32i64 {
        last = filter2.apply(k * 1000);
    }
    assert_eq!(last, 15_500);
    // One more sample pushes the oldest (0) out: mean of 1000..=32000 is 16500
    assert_eq!(filter2.apply(32_000), 16_500);
}

#[test]
fn ema_higher_alpha_converges_no_slower() {
    // Two EMA runs on the same constant input: the higher weight is at least
    // as close to the input after every step
    let mut fast = EmaFilter::new();
    let mut slow = EmaFilter::new();
    fast.apply(0, fx(0.6));
    slow.apply(0, fx(0.2));
    let target = fx(1.0);
    let mut fast_out = 0;
    let mut slow_out = 0;
    for _ in 0..6 {
        fast_out = fast.apply(target, fx(0.6));
        slow_out = slow.apply(target, fx(0.2));
        assert!((target - fast_out).abs() <= (target - slow_out).abs());
    }
    assert!(fast_out > slow_out);
}

#[test]
fn endpoints_map_exactly() {
    // The range endpoints map exactly onto the output endpoints
    let config = Config {
        input_min: -500,
        input_max: 1500,
        output_min: 20,
        output_max: 220,
        hysteresis: HysteresisMode::none(),
        curve: ResponseCurve::Linear,
        filter: NoiseFilter::Off,
        snap_zones: vec![],
        grab_mode: GrabMode::Off,
    };
    let mut pot = PotHead::new(config).unwrap();
    assert_eq!(pot.update(-500), 20);
    assert_eq!(pot.update(1500), 220);
    // Clamping: far outside values behave like the endpoints
    assert_eq!(pot.update(-100_000), 20);
    assert_eq!(pot.update(100_000), 220);
}

#[test]
fn dead_zone_freezes_through_grab() {
    // A dead zone freeze feeds the virtual value seen by grab mode
    let config = Config {
        input_min: 0,
        input_max: 1000,
        output_min: fx(0.0),
        output_max: fx(1.0),
        hysteresis: HysteresisMode::none(),
        curve: ResponseCurve::Linear,
        filter: NoiseFilter::Off,
        snap_zones: vec![pot_head::SnapZone::new(
            fx(0.5),
            fx(0.05),
            pot_head::SnapZoneType::Dead,
        )],
        grab_mode: GrabMode::Off,
    };
    let mut pot = PotHead::new(config).unwrap();
    assert_eq!(unfx(pot.update(300)), 0.3);
    // inside the dead zone the previous output holds
    assert_eq!(unfx(pot.update(500)), 0.3);
    assert_eq!(unfx(pot.current_output()), 0.3);
}
