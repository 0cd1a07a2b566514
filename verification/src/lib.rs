//! Core engine of a rotary-encoder-driven task kiosk: the input classifier
//! that turns raw quadrature and button samples into discrete events, the
//! navigation state machine that consumes those events, and the projector
//! that describes what the renderer should draw.

pub mod audio;
pub mod color;
pub mod dates;
pub mod dns;
pub mod encoder;
pub mod events;
pub mod models;
pub mod storage;
pub mod text;
pub mod theme;
pub mod views;
pub mod voice;
pub mod wifi;

pub use events::EncoderEvent;
