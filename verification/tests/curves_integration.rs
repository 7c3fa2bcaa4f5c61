use pot_head::Config;
use pot_head::GrabMode;
use pot_head::HysteresisMode;
use pot_head::NoiseFilter;
use pot_head::PotHead;
use pot_head::ResponseCurve;

fn fx(x: f64) -> i64 {
    (x * 1_000_000.0).round() as i64
}

fn unfx(x: i64) -> f32 {
    x as f32 / 1_000_000.0
}

#[test]
fn test_linear_curve_integration() {
    let config = Config {
        input_min: 0,
        input_max: 100,
        output_min: fx(0.0),
        output_max: fx(1.0),
        hysteresis: HysteresisMode::none(),
        curve: ResponseCurve::Linear,
        filter: NoiseFilter::Off,
        snap_zones: vec![],
        grab_mode: GrabMode::Off,
    };

    let mut pot = PotHead::new(config).unwrap();

    // Linear curve should map directly
    assert_eq!(unfx(pot.update(0)), 0.0);
    assert_eq!(unfx(pot.update(50)), 0.5);
    assert_eq!(unfx(pot.update(100)), 1.0);
}

#[test]
fn test_logarithmic_curve_integration() {
    let config = Config {
        input_min: 0,
        input_max: 100,
        output_min: fx(0.0),
        output_max: fx(1.0),
        hysteresis: HysteresisMode::none(),
        curve: ResponseCurve::Logarithmic,
        filter: NoiseFilter::Off,
        snap_zones: vec![],
        grab_mode: GrabMode::Off,
    };

    let mut pot = PotHead::new(config).unwrap();

    // Logarithmic curve boundaries
    let min_output = unfx(pot.update(0));
    let max_output = unfx(pot.update(100));

    assert!((min_output - 0.0).abs() < 0.001, "Min should be ~0.0, got {}", min_output);
    assert!((max_output - 1.0).abs() < 0.001, "Max should be ~1.0, got {}", max_output);

    // Logarithmic curve should compress lower values
    let quarter_output = unfx(pot.update(25));
    assert!(quarter_output < 0.15, "Quarter should be <0.2 with log curve, got {}", quarter_output);

    // Middle should be less than 0.5 (shifted down)
    let mid_output = unfx(pot.update(50));
    assert!(mid_output < 0.5, "Middle should be <0.5 with log curve, got {}", mid_output);

    // Should be monotonically increasing
    assert!(min_output < quarter_output);
    assert!(quarter_output < mid_output);
    assert!(mid_output < max_output);
}
