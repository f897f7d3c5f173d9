//! Sample-level logic of a few small audio programs: a sample clock that
//! drives a sine oscillator, a fixed-length delay line for an echo effect,
//! a multi-tap echo planner over a recorded take, the stereo interleaving of
//! a mono signal, and the keep-running decision of a realtime process
//! callback. Everything that touches floating-point samples or an audio
//! device stays with the caller; the integer and indexing logic is here.

pub mod clock;
pub mod delay;
pub mod echo;
pub mod stereo;
pub mod control;
