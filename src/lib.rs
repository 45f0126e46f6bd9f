//! A parameterised mixing engine for a player that crossfades between mood
//! arrangements of one song: modulators that ramp linearly over time,
//! linear parameter mappings, a routing graph of buses, looping stems and a
//! scene controller that turns key presses into synchronised transitions.
//!
//! All quantities are integers: times in milliseconds, modulator values in
//! millionths (see `modulator::FULL_SCALE`), amplitudes in millionths and
//! filter cutoffs in hertz.

pub mod arith;
pub mod modulator;
pub mod mapping;
pub mod mood;
pub mod mix_graph;
pub mod stem;
pub mod scene;
