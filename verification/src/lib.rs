//! Session lifecycle and I/O-relay engine for a multi-session SSH client.
//!
//! The crate models the parts of an interactive SSH client that carry real
//! state: the connection registry mapping session identifiers to control
//! handles, the establishment decision chain (transport, authentication,
//! channel, PTY, shell), and the per-session relay state machine that
//! multiplexes remote channel events against consumer control messages.
//! Network transport and the SSH wire protocol are delegated to an SSH
//! library behind narrow trusted wrappers; every decision taken on their
//! results is verified here.

pub mod channel;
pub mod control;
pub mod errors;
pub mod establish;
pub mod registry;
pub mod relay;
pub mod session;
pub mod topics;
