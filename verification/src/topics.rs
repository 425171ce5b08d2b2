//! Per-session event topics.
//!
//! Every outbound event is scoped to its session: the consumer subscribes
//! to one named topic per event kind per identifier. The names are the
//! fixed prefixes below with the session identifier appended.

use vstd::prelude::*;
use vstd::string::StringExecFns;

verus! {

/// The topic carrying raw output bytes from the remote shell.
pub fn output_topic(id: &str) -> (t: String)
    ensures
        t@ == "ssh-output-"@ + id@,
{
    String::from_str("ssh-output-").concat(id)
}

/// The topic carrying the remote process's exit status.
pub fn exit_topic(id: &str) -> (t: String)
    ensures
        t@ == "ssh-exit-"@ + id@,
{
    String::from_str("ssh-exit-").concat(id)
}

/// The topic carrying descriptions of fatal connect, authentication and
/// channel failures.
pub fn error_topic(id: &str) -> (t: String)
    ensures
        t@ == "ssh-error-"@ + id@,
{
    String::from_str("ssh-error-").concat(id)
}

} // verus!
