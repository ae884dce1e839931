//! Session protocol between a recording controller and a browser runner.
//!
//! The controller drives the runner over a framed, typed message protocol:
//! one request (`Session`) is followed by a fixed sequence of phase
//! acknowledgements. The runner prepares a browser build and profile in a
//! per-session directory, restarts the machine, and the controller resumes
//! the session after reconnecting with exponential backoff.
//!
//! The protocol logic — message catalogue and kinds, the wire framing,
//! the `user.js` preference format, session validation, the idle detector,
//! and both sides of the phase state machine — is verified. Network and
//! filesystem effects sit behind narrow trait seams that the callers
//! implement.

use vstd::prelude::*;

pub mod analysis;
pub mod config;
pub mod framing;
pub mod message;
pub mod osapi;
pub mod prefs;
pub mod recorder_proto;
pub mod retry;
pub mod runner_proto;
pub mod session;
pub mod taskcluster;
pub mod testing;
pub mod text;
pub mod zip;

verus! {

/// An error that consists only of a human-readable message.
///
/// Errors are stringified into this form before being sent to the remote
/// party, which therefore never needs the local error types.
#[derive(Debug)]
pub struct ErrorMessage(pub String);

impl ErrorMessage {
    /// The text carried by this error.
    pub fn message(&self) -> (r: &str)
        ensures
            r@ == self.0@,
    {
        self.0.as_str()
    }
}

impl Clone for ErrorMessage {
    fn clone(&self) -> (r: Self)
        ensures
            r.0@ == self.0@,
    {
        ErrorMessage(self.0.clone())
    }
}

} // verus!
