//! The failure taxonomy of the session engine.
//!
//! Establishment failures (`Connection`, `Authentication`, `Channel`) abort a
//! connect attempt before any registry entry exists; `NotFound` is returned
//! synchronously by operations that name an unregistered identifier; `Write`
//! and `Control` describe a send to an already-broken channel and are
//! swallowed by the relay loop rather than surfaced.

use vstd::prelude::*;
use vstd::string::StringExecFns;

verus! {

#[derive(Clone, Copy, Debug, PartialEq, Eq, Structural)]
pub enum SshError {
    /// The transport to host:port could not be established.
    Connection,
    /// No password was supplied, or the peer rejected the credentials.
    Authentication,
    /// The PTY or shell request was rejected after authentication.
    Channel,
    /// An operation referenced an identifier with no registered session.
    NotFound,
    /// A data write to the remote channel failed.
    Write,
    /// A window-change request to the remote channel failed.
    Control,
}

impl SshError {
    /// The human-readable description carried by an error event.
    pub open spec fn spec_message(self) -> Seq<char> {
        match self {
            SshError::Connection => "Connection failed"@,
            SshError::Authentication => "Authentication failed"@,
            SshError::Channel => "Channel request rejected"@,
            SshError::NotFound => "Session not found"@,
            SshError::Write => "Write failed"@,
            SshError::Control => "Resize failed"@,
        }
    }

    /// Renders the error for the consumer-facing error event stream.
    pub fn message(&self) -> (m: String)
        ensures
            m@ == self.spec_message(),
    {
        match self {
            SshError::Connection => String::from_str("Connection failed"),
            SshError::Authentication => String::from_str("Authentication failed"),
            SshError::Channel => String::from_str("Channel request rejected"),
            SshError::NotFound => String::from_str("Session not found"),
            SshError::Write => String::from_str("Write failed"),
            SshError::Control => String::from_str("Resize failed"),
        }
    }
}

} // verus!
