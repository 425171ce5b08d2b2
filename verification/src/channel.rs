//! Trusted boundary to the outside channel machinery.
//!
//! Two outside crates meet the verified code here. The control channel of a
//! session is a tokio unbounded MPSC queue; its sender lives in the
//! registry, its receiver in the relay loop. The remote side speaks
//! russh's `ChannelMsg`, which is opaque to the verifier; the classifier
//! below maps each variant the relay loop reacts to onto the crate's own
//! event type, and everything decided on that event is verified.

use vstd::prelude::*;
use crate::control::SshInput;
use crate::relay::RemoteEvent;
use tokio::sync::mpsc::UnboundedReceiver;
use tokio::sync::mpsc::UnboundedSender;
use russh::ChannelMsg;

verus! {

#[verifier::external_type_specification]
#[verifier::external_body]
#[verifier::reject_recursive_types(T)]
pub struct ExUnboundedSender<T>(UnboundedSender<T>);

#[verifier::external_type_specification]
#[verifier::external_body]
#[verifier::reject_recursive_types(T)]
pub struct ExUnboundedReceiver<T>(UnboundedReceiver<T>);

#[verifier::external_type_specification]
#[verifier::external_body]
pub struct ExChannelMsg(ChannelMsg);

/// Relies on tokio::sync::mpsc::unbounded_channel: returns the sender and
/// receiver ends of a fresh FIFO queue; messages sent on the sender arrive
/// on the receiver in send order, and dropping the sender closes the queue.
#[verifier::external_body]
pub(crate) fn open_control_channel() -> (r: (
    UnboundedSender<SshInput>,
    UnboundedReceiver<SshInput>,
))
{
    tokio::sync::mpsc::unbounded_channel()
}

/// Relies on tokio::sync::mpsc::UnboundedSender::send: never blocks, and
/// returns Ok exactly when the receiver half is still alive; the message is
/// then queued behind all earlier sends. Whether the receiver is alive
/// depends on the concurrent relay loop, so nothing relates the result to
/// the arguments.
#[verifier::external_body]
pub(crate) fn send_control(tx: &UnboundedSender<SshInput>, msg: SshInput) -> (accepted: bool) {
    tx.send(msg).is_ok()
}

/// Relies on russh::ChannelMsg: tells apart the variants the relay loop
/// reacts to — a data payload, an exit-status notification, a channel
/// close — moving the payload out; `None` is the end of the message
/// stream. Every other channel message is ignored by the loop.
#[verifier::external_body]
pub(crate) fn classify_remote(msg: Option<ChannelMsg>) -> (e: RemoteEvent) {
    match msg {
        Some(ChannelMsg::Data { data }) => RemoteEvent::Data(data.to_vec()),
        Some(ChannelMsg::ExitStatus { exit_status }) => RemoteEvent::Exit(exit_status),
        Some(ChannelMsg::Close) => RemoteEvent::Closed,
        Some(_) => RemoteEvent::Other,
        None => RemoteEvent::Closed,
    }
}

} // verus!
