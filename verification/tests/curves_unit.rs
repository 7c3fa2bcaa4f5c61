use pot_head::curves::ResponseCurve;

fn fx(x: f64) -> i64 {
    (x * 1_000_000.0).round() as i64
}

fn unfx(x: i64) -> f32 {
    x as f32 / 1_000_000.0
}

#[test]
fn curves_test_linear_curve() {
    let curve = ResponseCurve::Linear;

    assert_eq!(unfx(curve.apply(fx(0.0))), 0.0);
    assert_eq!(unfx(curve.apply(fx(0.25))), 0.25);
    assert_eq!(unfx(curve.apply(fx(0.5))), 0.5);
    assert_eq!(unfx(curve.apply(fx(0.75))), 0.75);
    assert_eq!(unfx(curve.apply(fx(1.0))), 1.0);
}

#[test]
fn curves_test_logarithmic_curve() {
    let curve = ResponseCurve::Logarithmic;

    let result_0 = unfx(curve.apply(fx(0.0)));
    let result_1 = unfx(curve.apply(fx(1.0)));

    assert!((result_0 - 0.0).abs() < 0.001, "Expected ~0.0, got {}", result_0);
    assert!((result_1 - 1.0).abs() < 0.001, "Expected ~1.0, got {}", result_1);

    let result_quarter = unfx(curve.apply(fx(0.25)));
    assert!(result_quarter < 0.15, "Expected <0.15, got {}", result_quarter);

    let result_half = unfx(curve.apply(fx(0.5)));
    assert!(result_half < 0.5, "Expected <0.5, got {}", result_half);

    assert!(result_0 < result_quarter);
    assert!(result_quarter < result_half);
    assert!(result_half < result_1);
}

#[test]
fn curves_test_logarithmic_curve_clamping() {
    let curve = ResponseCurve::Logarithmic;

    assert!((unfx(curve.apply(fx(-0.1))) - 0.0).abs() < 0.001);
    assert!((unfx(curve.apply(fx(1.1))) - 1.0).abs() < 0.001);
}

#[test]
fn curves_test_response_curve_copy() {
    let curve1 = ResponseCurve::Linear;
    let curve2 = curve1;

    assert_eq!(curve1, curve2);
}
