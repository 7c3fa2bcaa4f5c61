use pot_head::GrabMode;

#[test]
fn test_grab_mode_default() {
    assert_eq!(GrabMode::default(), GrabMode::Off);
}

#[test]
fn test_grab_mode_equality() {
    assert_eq!(GrabMode::Off, GrabMode::Off);
    assert_eq!(GrabMode::Pickup, GrabMode::Pickup);
    assert_eq!(GrabMode::PassThrough, GrabMode::PassThrough);
    assert_ne!(GrabMode::Pickup, GrabMode::PassThrough);
}
