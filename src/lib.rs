//! An in-process audio sample pipeline: typed sample buffers, a chain of
//! modifiers applied in a fixed-point working representation, channel
//! remixing, and the negotiation of an output configuration.

pub mod codec;
pub mod config;
pub mod errors;
pub mod modifiers;
pub mod player;
pub mod remix;
pub mod sample;
pub mod samples;
pub mod traits;
pub mod wav;
