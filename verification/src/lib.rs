//! Core of a real-time audio playback engine: a command-coalescing scheduler,
//! a device-rendering session model, a source decoding/resampling pipeline
//! with exact resampler-delay accounting, and the player loop that binds them.
//!
//! All timing is carried in integer units (milliseconds, frames, device clock
//! ticks); audio samples travel through the pipeline as opaque stereo frames.

pub mod command;
pub mod device;
pub mod player;
pub mod source;
pub mod transport;
