//! Input classifier for a rotary encoder with push button.
//!
//! The host samples the two quadrature lines and the button level once per
//! scheduler tick and hands the levels to [`Encoder::poll`] together with a
//! monotonic timestamp in milliseconds; the classifier emits at most one
//! [`EncoderEvent`] per tick. Rotation is classified on the falling edge of
//! CLK from the level of DT and takes priority over the button within a
//! tick; button releases are debounced and classified by hold duration;
//! a hold past the voice threshold fires `VoiceStart` once per press and
//! ends in `VoiceStop` on release, bypassing the debounce.

use vstd::prelude::*;

use crate::events::EncoderEvent;

verus! {

/// Long press threshold in milliseconds (back/escape).
pub const LONG_PRESS_MS: u64 = 500;

/// Voice trigger threshold in milliseconds (hold to start recording).
pub const VOICE_TRIGGER_MS: u64 = 1000;

/// Debounce window for button releases in milliseconds.
pub const BUTTON_DEBOUNCE_MS: u64 = 200;

/// Phase of the push button. `Held` is created on press-down and destroyed
/// on release; `voice_fired` flips once per hold so that `VoiceStart`
/// fires at most once per physical press.
#[derive(Debug, Clone, Copy, PartialEq, Eq, Structural)]
pub enum ButtonPhase {
    Released,
    Held { since_ms: u64, voice_fired: bool },
}

/// Rotary encoder classifier state, including the activity clock and the
/// backlight flag that wake-on-interact drives.
#[derive(Debug, Clone, Copy, PartialEq, Eq, Structural)]
pub struct Encoder {
    /// CLK level seen on the previous tick, for edge detection.
    pub last_clk: bool,
    /// Current button phase.
    pub phase: ButtonPhase,
    /// Time of the last debounced button event.
    pub last_button_event_ms: u64,
    /// Time of the last qualifying user activity.
    pub last_activity_ms: u64,
    /// Whether the backlight is on.
    pub backlight_on: bool,
}

/// Every timestamp the classifier has stored lies at or before `now`:
/// holds whenever the host hands in monotonically non-decreasing times.
pub open spec fn enc_wf(e: Encoder, now: u64) -> bool {
    &&& e.last_activity_ms <= now
    &&& e.last_button_event_ms <= now
    &&& (e.phase matches ButtonPhase::Held { since_ms, .. } ==> since_ms <= now)
}

/// The classifier step: next state and emitted event for one tick's
/// samples. Rotation first; otherwise the button phase advances.
pub open spec fn spec_poll(e: Encoder, clk_high: bool, dt_high: bool, pressed: bool, now: u64) -> (
    Encoder,
    Option<EncoderEvent>,
) {
    if e.last_clk && !clk_high {
        // falling edge on CLK: rotation, direction from DT
        (
            Encoder { last_clk: clk_high, last_activity_ms: now, backlight_on: true, ..e },
            Some(
                if dt_high {
                    EncoderEvent::Clockwise
                } else {
                    EncoderEvent::CounterClockwise
                },
            ),
        )
    } else {
        let e1 = Encoder { last_clk: clk_high, ..e };
        match e.phase {
            ButtonPhase::Released => if pressed {
                (
                    Encoder {
                        phase: ButtonPhase::Held { since_ms: now, voice_fired: false },
                        last_activity_ms: now,
                        backlight_on: true,
                        ..e1
                    },
                    None,
                )
            } else {
                (e1, None)
            },
            ButtonPhase::Held { since_ms, voice_fired } => if pressed {
                if !voice_fired && now - since_ms >= VOICE_TRIGGER_MS {
                    (
                        Encoder {
                            phase: ButtonPhase::Held { since_ms, voice_fired: true },
                            last_activity_ms: now,
                            backlight_on: true,
                            ..e1
                        },
                        Some(EncoderEvent::VoiceStart),
                    )
                } else {
                    (e1, None)
                }
            } else {
                if voice_fired {
                    // a voice hold always ends cleanly, bypassing debounce
                    (
                        Encoder {
                            phase: ButtonPhase::Released,
                            last_button_event_ms: now,
                            ..e1
                        },
                        Some(EncoderEvent::VoiceStop),
                    )
                } else if now - e.last_button_event_ms < BUTTON_DEBOUNCE_MS {
                    // bounced release: suppressed, and the debounce clock
                    // is left alone
                    (Encoder { phase: ButtonPhase::Released, ..e1 }, None)
                } else if now - since_ms >= LONG_PRESS_MS {
                    (
                        Encoder {
                            phase: ButtonPhase::Released,
                            last_button_event_ms: now,
                            ..e1
                        },
                        Some(EncoderEvent::LongPress),
                    )
                } else {
                    (
                        Encoder {
                            phase: ButtonPhase::Released,
                            last_button_event_ms: now,
                            ..e1
                        },
                        Some(EncoderEvent::ShortPress),
                    )
                }
            },
        }
    }
}

/// Law: without a rotation edge, a release of a plain (non-voice) hold
/// that clears the debounce window classifies by duration alone: at or
/// past the long-press threshold it is a long press, under it a short
/// press.
pub proof fn lemma_release_classifies_by_duration(
    e: Encoder,
    clk: bool,
    dt: bool,
    now: u64,
    since: u64,
)
    requires
        enc_wf(e, now),
        !(e.last_clk && !clk),
        e.phase == (ButtonPhase::Held { since_ms: since, voice_fired: false }),
        now - e.last_button_event_ms >= BUTTON_DEBOUNCE_MS,
    ensures
        spec_poll(e, clk, dt, false, now).1 == Some(
            if now - since >= LONG_PRESS_MS {
                EncoderEvent::LongPress
            } else {
                EncoderEvent::ShortPress
            },
        ),
{
}

/// Law: a release within the debounce window of the last accepted
/// button event is suppressed, and leaves the debounce clock alone.
pub proof fn lemma_debounce_suppresses(e: Encoder, clk: bool, dt: bool, now: u64, since: u64)
    requires
        enc_wf(e, now),
        !(e.last_clk && !clk),
        e.phase == (ButtonPhase::Held { since_ms: since, voice_fired: false }),
        now - e.last_button_event_ms < BUTTON_DEBOUNCE_MS,
    ensures
        spec_poll(e, clk, dt, false, now).1 is None,
        spec_poll(e, clk, dt, false, now).0.last_button_event_ms == e.last_button_event_ms,
{
}

/// Law: holding a fresh press to the voice threshold fires `VoiceStart`
/// exactly once: the hold is marked, and a marked hold never fires it
/// again.
pub proof fn lemma_voice_fires_once(e: Encoder, clk: bool, dt: bool, now: u64, since: u64)
    requires
        enc_wf(e, now),
        !(e.last_clk && !clk),
        e.phase == (ButtonPhase::Held { since_ms: since, voice_fired: false }),
        now - since >= VOICE_TRIGGER_MS,
    ensures
        spec_poll(e, clk, dt, true, now).1 == Some(EncoderEvent::VoiceStart),
        spec_poll(e, clk, dt, true, now).0.phase == (ButtonPhase::Held {
            since_ms: since,
            voice_fired: true,
        }),
        forall|clk2: bool, dt2: bool, now2: u64|
            !(clk && !clk2) ==> (#[trigger] spec_poll(
                spec_poll(e, clk, dt, true, now).0,
                clk2,
                dt2,
                true,
                now2,
            )).1 is None,
{
}

/// Law: releasing a voice hold ends in `VoiceStop`, never in a short or
/// long press, and bypasses the debounce window.
pub proof fn lemma_voice_release_stops(e: Encoder, clk: bool, dt: bool, now: u64, since: u64)
    requires
        enc_wf(e, now),
        !(e.last_clk && !clk),
        e.phase == (ButtonPhase::Held { since_ms: since, voice_fired: true }),
    ensures
        spec_poll(e, clk, dt, false, now).1 == Some(EncoderEvent::VoiceStop),
        spec_poll(e, clk, dt, false, now).0.phase == ButtonPhase::Released,
{
}

impl Encoder {
    /// A fresh classifier: CLK idles high through the pull-up, the button
    /// is up, the backlight is on.
    pub fn new(now_ms: u64) -> (r: Self)
        ensures
            r == (Encoder {
                last_clk: true,
                phase: ButtonPhase::Released,
                last_button_event_ms: now_ms,
                last_activity_ms: now_ms,
                backlight_on: true,
            }),
            enc_wf(r, now_ms),
    {
        Encoder {
            last_clk: true,
            phase: ButtonPhase::Released,
            last_button_event_ms: now_ms,
            last_activity_ms: now_ms,
            backlight_on: true,
        }
    }

    /// Classify one tick's samples. `clk_high` and `dt_high` are the
    /// quadrature levels, `pressed` is the active-low button read as a
    /// boolean, `now_ms` must not go backwards between calls.
    pub fn poll(&mut self, clk_high: bool, dt_high: bool, pressed: bool, now_ms: u64) -> (r: Option<
        EncoderEvent,
    >)
        requires
            enc_wf(*old(self), now_ms),
        ensures
            *final(self) == spec_poll(*old(self), clk_high, dt_high, pressed, now_ms).0,
            r == spec_poll(*old(self), clk_high, dt_high, pressed, now_ms).1,
            enc_wf(*final(self), now_ms),
    {
        if self.last_clk && !clk_high {
            self.last_clk = clk_high;
            self.record_activity(now_ms);
            return Some(
                if dt_high {
                    EncoderEvent::Clockwise
                } else {
                    EncoderEvent::CounterClockwise
                },
            );
        }
        self.last_clk = clk_high;

        match self.phase {
            ButtonPhase::Released => {
                if pressed {
                    self.phase = ButtonPhase::Held { since_ms: now_ms, voice_fired: false };
                    self.record_activity(now_ms);
                }
                None
            },
            ButtonPhase::Held { since_ms, voice_fired } => {
                if pressed {
                    if !voice_fired && now_ms - since_ms >= VOICE_TRIGGER_MS {
                        self.phase = ButtonPhase::Held { since_ms, voice_fired: true };
                        self.record_activity(now_ms);
                        Some(EncoderEvent::VoiceStart)
                    } else {
                        None
                    }
                } else {
                    self.phase = ButtonPhase::Released;
                    if voice_fired {
                        self.last_button_event_ms = now_ms;
                        Some(EncoderEvent::VoiceStop)
                    } else if now_ms - self.last_button_event_ms < BUTTON_DEBOUNCE_MS {
                        None
                    } else {
                        self.last_button_event_ms = now_ms;
                        if now_ms - since_ms >= LONG_PRESS_MS {
                            Some(EncoderEvent::LongPress)
                        } else {
                            Some(EncoderEvent::ShortPress)
                        }
                    }
                }
            },
        }
    }

    /// Record user activity: reset the idle clock and wake the display.
    pub fn record_activity(&mut self, now_ms: u64)
        ensures
            *final(self) == (Encoder {
                last_activity_ms: now_ms,
                backlight_on: true,
                ..*old(self)
            }),
    {
        self.last_activity_ms = now_ms;
        self.backlight_on = true;
    }

    /// Set the backlight state.
    pub fn set_backlight(&mut self, on: bool)
        ensures
            *final(self) == (Encoder { backlight_on: on, ..*old(self) }),
    {
        self.backlight_on = on;
    }

    /// Whether the backlight is currently on.
    pub fn is_backlight_on(&self) -> (r: bool)
        ensures
            r == self.backlight_on,
    {
        self.backlight_on
    }

    /// Whole seconds since the last qualifying user activity.
    pub fn seconds_since_activity(&self, now_ms: u64) -> (r: u64)
        requires
            enc_wf(*self, now_ms),
        ensures
            r == (now_ms - self.last_activity_ms) / 1000,
    {
        (now_ms - self.last_activity_ms) / 1000
    }
}

} // verus!
