//! Core of a push-to-talk dictation daemon.
//!
//! The library holds the verified logic of the daemon: the recording session
//! state machine, the keyboard-chord tracker, the Opus bundle framing, the
//! BLE demultiplexer and reconnect policy, the stdin command interpreter,
//! the prompt builder and the text post-processing stage. Audio capture,
//! BLE I/O and the speech recognizer live outside the library and are
//! reached through narrow trusted wrappers or driven from the binary.

use vstd::prelude::*;

pub mod base64;
pub mod ble_link;
pub mod bundle;
pub mod commands;
pub mod context;
pub mod emit;
pub mod hotkey;
pub mod jobs;
pub mod model;
pub mod prompt;
pub mod ring;
pub mod session;
pub mod textproc;
pub mod textutil;
pub mod trigger;

verus! {

/// Simple error type carrying a message.
#[derive(Debug)]
pub struct Error(pub String);

impl Error {
    /// The error's message text.
    pub fn message(&self) -> (r: &str)
        ensures
            r@ == self.0@,
    {
        self.0.as_str()
    }
}

/// Result type alias used throughout the library.
pub type Result<T> = core::result::Result<T, Error>;

} // verus!
