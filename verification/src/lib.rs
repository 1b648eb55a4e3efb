//! Sample acquisition and spectral planning for a real-time audio visualizer.
//!
//! The crate is generic over the sample type: callers choose how an amplitude
//! is represented, and the library only moves samples around, never computes
//! with them.

pub mod audio;
pub mod error;
pub mod spectrum;
pub mod wav;
