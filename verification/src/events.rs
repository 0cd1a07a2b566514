//! Discrete input events produced by the encoder classifier.

use vstd::prelude::*;

verus! {

/// Events produced by the rotary encoder and its push button.
#[derive(Debug, Clone, Copy, PartialEq, Eq, Structural)]
pub enum EncoderEvent {
    /// One detent of clockwise rotation.
    Clockwise,
    /// One detent of counter-clockwise rotation.
    CounterClockwise,
    /// Button released before the long-press threshold.
    ShortPress,
    /// Button released at or past the long-press threshold.
    LongPress,
    /// Button held past the voice threshold; recording should start.
    VoiceStart,
    /// Button released after `VoiceStart`; recording should stop.
    VoiceStop,
}

} // verus!
