use netchart::input::{apply_input, InputKey};

#[test]
fn increase_doubles_duration() {
    assert_eq!(apply_input(60_000, 250, InputKey::IncreaseWindow), (120_000, false));
}

#[test]
fn increase_that_would_overflow_is_ignored() {
    assert_eq!(apply_input(u64::MAX, 250, InputKey::IncreaseWindow), (u64::MAX, false));
}

#[test]
fn decrease_halves_duration_with_a_floor() {
    assert_eq!(apply_input(60_000, 250, InputKey::DecreaseWindow), (30_000, false));
    assert_eq!(apply_input(400, 250, InputKey::DecreaseWindow), (250, false));
    assert_eq!(apply_input(250, 250, InputKey::DecreaseWindow), (250, false));
}

#[test]
fn quit_requests_shutdown_without_touching_duration() {
    assert_eq!(apply_input(60_000, 250, InputKey::Quit), (60_000, true));
}

#[test]
fn other_keys_are_ignored() {
    assert_eq!(apply_input(60_000, 250, InputKey::Other), (60_000, false));
}
