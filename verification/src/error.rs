//! The ways in which an audio source can fail.

use vstd::prelude::*;

verus! {

/// Why an audio source could not be set up, or what went wrong while it ran.
#[derive(Debug, Clone, Copy, PartialEq, Eq)]
pub enum AudioError {
    /// No input device is present.
    DeviceUnavailable,
    /// The device's configuration could not be negotiated, or its stream
    /// could not be created or started.
    StreamInitError,
    /// The file is missing, unreadable, ill-formed or in an encoding that is
    /// not supported.
    FileOpenError,
    /// The running stream reported an error; capture goes on.
    StreamRuntimeError,
}

impl AudioError {
    /// Whether the error ends start-up. Only an error of the running stream
    /// does not: the buffer keeps its last contents and capture goes on.
    pub fn is_fatal(&self) -> (fatal: bool)
        ensures
            fatal == !(*self is StreamRuntimeError),
    {
        match self {
            AudioError::StreamRuntimeError => false,
            _ => true,
        }
    }
}

} // verus!
