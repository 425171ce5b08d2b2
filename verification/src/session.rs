//! The boundary-facing command surface and per-session plumbing.
//!
//! Each operation takes the connection registry explicitly; the caller
//! serializes access to it (one lock around each call). `send_ssh_input` on
//! an unknown identifier deliberately succeeds without effect, while
//! `resize_pty` and `disconnect_ssh` report not-found: a known asymmetry,
//! kept as is and stated exactly in the contracts below.

use vstd::prelude::*;
use crate::channel::classify_remote;
use crate::channel::open_control_channel;
use crate::channel::send_control;
use crate::control::SshInput;
use crate::errors::SshError;
use crate::registry::Registry;
use crate::relay::relay_step;
use crate::relay::spec_relay_step;
use crate::relay::RelayAction;
use crate::relay::RelayEvent;
use crate::relay::RelayState;
use crate::relay::RemoteEvent;
use tokio::sync::mpsc::UnboundedReceiver;
use tokio::sync::mpsc::UnboundedSender;
use russh::ChannelMsg;

verus! {

/// What the registry holds for one live session: the send end of the
/// session's control channel, and nothing else — the remote connection is
/// owned by the relay loop alone.
pub struct SshConnection {
    pub tx: UnboundedSender<SshInput>,
}

/// What became of one input payload handed to the command surface.
#[derive(Clone, Copy, Debug, PartialEq, Eq, Structural)]
pub enum InputDisposition {
    /// The session exists and the payload was queued on its control channel.
    Enqueued,
    /// The session exists but its relay loop already dropped the receiver.
    QueueClosed,
    /// No session carries the identifier; the payload was dropped.
    UnknownId,
}

/// Creates a session's control channel and installs its send end in the
/// registry under the identifier — an upsert, visible to every subsequent
/// lookup — returning the receive end for the session's relay loop.
pub fn install_session(reg: &mut Registry<SshConnection>, id: String) -> (rx: UnboundedReceiver<
    SshInput,
>)
    requires
        old(reg).wf(),
    ensures
        final(reg).wf(),
        final(reg)@.contains_key(id@),
        exists|c: SshConnection| final(reg)@ == old(reg)@.insert(id@, c),
{
    let (tx, rx) = open_control_channel();
    let conn = SshConnection { tx };
    let ghost c = conn;
    reg.insert(id, conn);
    proof {
        assert(reg@ == old(reg)@.insert(id@, c));
    }
    rx
}

/// Looks the identifier up and, when a session is registered, queues the
/// payload on its control channel. Exactly the unknown identifier yields
/// `UnknownId`; for a registered one the outcome depends on whether the
/// relay loop still holds the receiver.
pub fn forward_input(reg: &Registry<SshConnection>, id: &String, data: Vec<u8>) -> (d:
    InputDisposition)
    requires
        reg.wf(),
    ensures
        d == InputDisposition::UnknownId <==> !reg@.contains_key(id@),
{
    match reg.lookup(id) {
        Some(conn) => {
            if send_control(&conn.tx, SshInput::Data(data)) {
                InputDisposition::Enqueued
            } else {
                InputDisposition::QueueClosed
            }
        },
        None => InputDisposition::UnknownId,
    }
}

/// Sends input bytes to a session. On an unknown identifier this is a
/// silent no-op: it still succeeds, and the registry is untouched.
pub fn send_ssh_input(reg: &Registry<SshConnection>, id: &String, data: Vec<u8>) -> (r: Result<
    (),
    SshError,
>)
    requires
        reg.wf(),
    ensures
        r == Ok::<(), SshError>(()),
{
    let _ = forward_input(reg, id, data);
    Ok(())
}

/// Queues a resize request for a session: succeeds exactly when the
/// identifier is registered (a send to an already-broken channel is
/// swallowed), and reports not-found otherwise.
pub fn resize_pty(reg: &Registry<SshConnection>, id: &String, cols: u32, rows: u32) -> (r: Result<
    (),
    SshError,
>)
    requires
        reg.wf(),
    ensures
        r is Ok <==> reg@.contains_key(id@),
        !reg@.contains_key(id@) ==> r == Err::<(), SshError>(SshError::NotFound),
{
    match reg.lookup(id) {
        Some(conn) => {
            let _ = send_control(&conn.tx, SshInput::Resize(cols, rows));
            Ok(())
        },
        None => Err(SshError::NotFound),
    }
}

/// Disconnects a session: removes its registry entry, which drops the last
/// control sender and lets the relay loop observe closure and terminate.
/// Succeeds exactly when the identifier was registered.
pub fn disconnect_ssh(reg: &mut Registry<SshConnection>, id: &String) -> (r: Result<(), SshError>)
    requires
        old(reg).wf(),
    ensures
        final(reg).wf(),
        final(reg)@ == old(reg)@.remove(id@),
        r is Ok <==> old(reg)@.contains_key(id@),
        !old(reg)@.contains_key(id@) ==> r == Err::<(), SshError>(SshError::NotFound),
{
    if reg.remove(id) {
        Ok(())
    } else {
        Err(SshError::NotFound)
    }
}

/// The one cleanup action of a terminating relay loop: removes the
/// session's registry entry — idempotently, since an explicit disconnect
/// may already have removed it — and yields the terminal state. After
/// this the identifier is certainly absent, so the registry and the relay
/// loop agree that the session is dead.
pub fn finish_relay(reg: &mut Registry<SshConnection>, id: &String) -> (s: RelayState)
    requires
        old(reg).wf(),
    ensures
        final(reg).wf(),
        final(reg)@ == old(reg)@.remove(id@),
        !final(reg)@.contains_key(id@),
        s == RelayState::Terminated,
{
    let _ = reg.remove(id);
    RelayState::Terminated
}

/// Handles one message from the remote channel: classifies it and takes
/// the verified relay decision on the result. Whatever the channel
/// delivered, the action and state are those of `spec_relay_step` on the
/// classified remote event.
pub fn step_remote(msg: Option<ChannelMsg>) -> (r: (RelayAction, RelayState))
    ensures
        exists|e: RemoteEvent| r == spec_relay_step(RelayEvent::Remote(e)),
        r.0 matches RelayAction::EmitOutput(_) || r.0 matches RelayAction::EmitExit(_) || r.0
            is Ignore,
        r.1 == RelayState::Running || r.1 == RelayState::Terminating,
{
    let ev = classify_remote(msg);
    let ghost ge = ev;
    let r = relay_step(RelayEvent::Remote(ev));
    proof {
        assert(r == spec_relay_step(RelayEvent::Remote(ge)));
    }
    r
}

} // verus!
