//! The core of a real-time waveform generator, without its floating-point
//! arithmetic.
//!
//! Numbers pass through the library as bit patterns ([`scalar`]) that it
//! compares and, where the result is exact, computes with ([`phase`]). Around them stand the waveform names ([`waveform`]), the
//! parameter record ([`params`]), the choice of generator and the terms of
//! the band-limited series ([`synthesis`]), the oscillator that holds these
//! together ([`oscillator`]), the sampler that turns the audio-rate stream
//! into a small picture ([`sampler`], [`stream`]), the buffer that the
//! display reads ([`display`]) and the meaning of the keys of the
//! interactive controller ([`control`]).
pub mod control;
pub mod display;
mod exact;
pub mod oscillator;
pub mod params;
pub mod phase;
pub mod sampler;
pub mod scalar;
pub mod stream;
pub mod synthesis;
pub mod waveform;
