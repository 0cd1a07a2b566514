//! Tests for the input classifier: rotation edges, press durations,
//! debounce, and the voice hold.

use kiosk_core::encoder::{ButtonPhase, Encoder};
use kiosk_core::EncoderEvent;

const UP: bool = false;
const DOWN: bool = true;

#[test]
fn falling_clk_edge_classifies_rotation_by_dt() {
    let mut enc = Encoder::new(0);
    // CLK falls with DT high: clockwise
    assert_eq!(enc.poll(false, true, UP, 10), Some(EncoderEvent::Clockwise));
    // CLK stays low: no event
    assert_eq!(enc.poll(false, true, UP, 11), None);
    // CLK back high, then falls with DT low: counter-clockwise
    assert_eq!(enc.poll(true, false, UP, 12), None);
    assert_eq!(enc.poll(false, false, UP, 13), Some(EncoderEvent::CounterClockwise));
}

#[test]
fn rotation_takes_priority_over_button() {
    let mut enc = Encoder::new(0);
    // a falling edge and a button press in the same tick: only the
    // rotation fires, and the button phase is untouched this tick
    assert_eq!(enc.poll(false, true, DOWN, 10), Some(EncoderEvent::Clockwise));
    assert_eq!(enc.phase, ButtonPhase::Released);
}

#[test]
fn short_hold_is_a_short_press() {
    let mut enc = Encoder::new(0);
    assert_eq!(enc.poll(true, true, DOWN, 10_000), None);
    // held for 0.49 s then released
    assert_eq!(enc.poll(true, true, UP, 10_490), Some(EncoderEvent::ShortPress));
}

#[test]
fn long_hold_is_a_long_press() {
    let mut enc = Encoder::new(0);
    assert_eq!(enc.poll(true, true, DOWN, 10_000), None);
    // held for 0.51 s then released
    assert_eq!(enc.poll(true, true, UP, 10_510), Some(EncoderEvent::LongPress));
}

#[test]
fn hold_at_exactly_the_threshold_is_long() {
    let mut enc = Encoder::new(0);
    assert_eq!(enc.poll(true, true, DOWN, 10_000), None);
    assert_eq!(enc.poll(true, true, UP, 10_500), Some(EncoderEvent::LongPress));
}

#[test]
fn voice_hold_fires_once_then_stops_cleanly() {
    let mut enc = Encoder::new(0);
    assert_eq!(enc.poll(true, true, DOWN, 10_000), None);
    // still below the voice threshold
    assert_eq!(enc.poll(true, true, DOWN, 10_900), None);
    // the threshold passes: VoiceStart fires exactly once
    assert_eq!(enc.poll(true, true, DOWN, 11_000), Some(EncoderEvent::VoiceStart));
    assert_eq!(enc.poll(true, true, DOWN, 11_100), None);
    // release after 1.2 s: VoiceStop, no ShortPress or LongPress
    assert_eq!(enc.poll(true, true, UP, 11_200), Some(EncoderEvent::VoiceStop));
    assert_eq!(enc.phase, ButtonPhase::Released);
}

#[test]
fn second_release_within_debounce_is_suppressed() {
    let mut enc = Encoder::new(0);
    assert_eq!(enc.poll(true, true, DOWN, 10_000), None);
    assert_eq!(enc.poll(true, true, UP, 10_100), Some(EncoderEvent::ShortPress));
    // a second press and release within 0.2 s of the first release
    assert_eq!(enc.poll(true, true, DOWN, 10_150), None);
    assert_eq!(enc.poll(true, true, UP, 10_250), None);
    // and once the window has passed, presses classify again
    assert_eq!(enc.poll(true, true, DOWN, 10_400), None);
    assert_eq!(enc.poll(true, true, UP, 10_550), Some(EncoderEvent::ShortPress));
}

#[test]
fn suppressed_release_leaves_the_debounce_clock_alone() {
    let mut enc = Encoder::new(0);
    assert_eq!(enc.poll(true, true, DOWN, 10_000), None);
    assert_eq!(enc.poll(true, true, UP, 10_100), Some(EncoderEvent::ShortPress));
    // bounced: suppressed
    assert_eq!(enc.poll(true, true, DOWN, 10_150), None);
    assert_eq!(enc.poll(true, true, UP, 10_200), None);
    // measured from the last *accepted* release at 10100, this one clears
    assert_eq!(enc.poll(true, true, DOWN, 10_250), None);
    assert_eq!(enc.poll(true, true, UP, 10_301), Some(EncoderEvent::ShortPress));
}

#[test]
fn voice_stop_bypasses_debounce() {
    let mut enc = Encoder::new(0);
    assert_eq!(enc.poll(true, true, DOWN, 10_000), None);
    assert_eq!(enc.poll(true, true, UP, 10_100), Some(EncoderEvent::ShortPress));
    // immediately hold again into a voice hold; its stop is not debounced
    assert_eq!(enc.poll(true, true, DOWN, 10_120), None);
    assert_eq!(enc.poll(true, true, DOWN, 11_120), Some(EncoderEvent::VoiceStart));
    assert_eq!(enc.poll(true, true, UP, 11_150), Some(EncoderEvent::VoiceStop));
}

#[test]
fn activity_clock_and_backlight_wake() {
    let mut enc = Encoder::new(0);
    enc.set_backlight(false);
    assert!(!enc.is_backlight_on());
    // a press-down records activity and wakes the display
    assert_eq!(enc.poll(true, true, DOWN, 5_000), None);
    assert!(enc.is_backlight_on());
    assert_eq!(enc.seconds_since_activity(8_000), 3);
    // a rotation also counts as activity
    enc.set_backlight(false);
    assert_eq!(enc.poll(false, true, UP, 9_000), Some(EncoderEvent::Clockwise));
    assert!(enc.is_backlight_on());
    assert_eq!(enc.seconds_since_activity(9_999), 0);
}
