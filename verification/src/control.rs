//! Consumer-originated control messages.
//!
//! A session's control channel carries these from the command surface into
//! the session's relay loop. Delivery is FIFO per session; closing the
//! channel (all senders dropped) is the consumer's cancellation signal.

use vstd::prelude::*;

verus! {

/// A command for one session's relay loop.
#[derive(Debug)]
pub enum SshInput {
    /// Opaque bytes to forward verbatim to the remote shell.
    Data(Vec<u8>),
    /// New terminal geometry: columns, then rows.
    Resize(u32, u32),
}

} // verus!
