//! The per-session I/O relay state machine.
//!
//! One relay loop runs per active session. While `Running` it waits on two
//! sources — the remote channel and the session's control channel — and
//! handles exactly one event per iteration, in arrival order. The decision
//! taken on each event is `relay_step`, a pure verified function; the
//! surrounding loop (which performs the awaits and the network writes) only
//! executes the action that `relay_step` hands back. `run_relay` processes a
//! whole arrival sequence and is the executable model of one loop lifetime:
//! events queued behind the first termination trigger are discarded.

use vstd::prelude::*;
use crate::control::SshInput;

verus! {

/// What the remote side of the channel produced, one message at a time.
#[derive(Debug)]
pub enum RemoteEvent {
    /// A data payload to forward verbatim to the consumer.
    Data(Vec<u8>),
    /// The remote process exited with this status.
    Exit(u32),
    /// The channel closed or the stream ended.
    Closed,
    /// Any other channel message; the relay loop ignores it.
    Other,
}

/// One arrival at the relay loop: first-ready-wins between the two sources.
#[derive(Debug)]
pub enum RelayEvent {
    /// A message from the remote channel.
    Remote(RemoteEvent),
    /// A consumer control message; `None` means the control channel closed
    /// (every sender dropped), which cancels the session.
    Control(Option<SshInput>),
}

/// The single action the loop must execute for one event.
#[derive(Debug)]
pub enum RelayAction {
    /// Emit an output event with these bytes to the consumer.
    EmitOutput(Vec<u8>),
    /// Emit an exit event with this status to the consumer.
    EmitExit(u32),
    /// Write these bytes to the remote channel (failure is swallowed).
    WriteData(Vec<u8>),
    /// Send a window-change request with this geometry (failure is swallowed).
    WindowChange(u32, u32),
    /// Nothing to execute.
    Ignore,
}

/// The lifecycle of one relay loop. `Terminating` triggers exactly one
/// cleanup (removal of the registry entry), after which the loop is
/// `Terminated` and never processes another event.
#[derive(Clone, Copy, Debug, PartialEq, Eq, Structural)]
pub enum RelayState {
    Running,
    Terminating,
    Terminated,
}

/// Whether this event ends the session: a remote exit, a remote close or
/// end-of-stream, or closure of the control channel.
pub open spec fn is_terminator(e: RelayEvent) -> bool {
    match e {
        RelayEvent::Remote(RemoteEvent::Exit(_)) => true,
        RelayEvent::Remote(RemoteEvent::Closed) => true,
        RelayEvent::Remote(_) => false,
        RelayEvent::Control(m) => m is None,
    }
}

/// The decision taken on one event while `Running`.
pub open spec fn spec_relay_step(e: RelayEvent) -> (RelayAction, RelayState) {
    match e {
        RelayEvent::Remote(RemoteEvent::Data(d)) => (
            RelayAction::EmitOutput(d),
            RelayState::Running,
        ),
        RelayEvent::Remote(RemoteEvent::Exit(s)) => (
            RelayAction::EmitExit(s),
            RelayState::Terminating,
        ),
        RelayEvent::Remote(RemoteEvent::Closed) => (RelayAction::Ignore, RelayState::Terminating),
        RelayEvent::Remote(RemoteEvent::Other) => (RelayAction::Ignore, RelayState::Running),
        RelayEvent::Control(Some(SshInput::Data(d))) => (
            RelayAction::WriteData(d),
            RelayState::Running,
        ),
        RelayEvent::Control(Some(SshInput::Resize(cols, rows))) => (
            RelayAction::WindowChange(cols, rows),
            RelayState::Running,
        ),
        RelayEvent::Control(None) => (RelayAction::Ignore, RelayState::Terminating),
    }
}

/// Processes one event of a `Running` relay loop: returns the action to
/// execute and the state the loop is in afterwards.
pub fn relay_step(event: RelayEvent) -> (r: (RelayAction, RelayState))
    ensures
        r == spec_relay_step(event),
        r.1 == RelayState::Terminating <==> is_terminator(event),
{
    match event {
        RelayEvent::Remote(RemoteEvent::Data(d)) => (
            RelayAction::EmitOutput(d),
            RelayState::Running,
        ),
        RelayEvent::Remote(RemoteEvent::Exit(s)) => (
            RelayAction::EmitExit(s),
            RelayState::Terminating,
        ),
        RelayEvent::Remote(RemoteEvent::Closed) => (RelayAction::Ignore, RelayState::Terminating),
        RelayEvent::Remote(RemoteEvent::Other) => (RelayAction::Ignore, RelayState::Running),
        RelayEvent::Control(Some(SshInput::Data(d))) => (
            RelayAction::WriteData(d),
            RelayState::Running,
        ),
        RelayEvent::Control(Some(SshInput::Resize(cols, rows))) => (
            RelayAction::WindowChange(cols, rows),
            RelayState::Running,
        ),
        RelayEvent::Control(None) => (RelayAction::Ignore, RelayState::Terminating),
    }
}

/// How many arrivals one loop lifetime consumes: everything up to and
/// including the first terminator, or the whole sequence if none occurs.
pub open spec fn processed_len(events: Seq<RelayEvent>) -> int
    decreases events.len(),
{
    if events.len() == 0 {
        0
    } else if is_terminator(events[0]) {
        1
    } else {
        1 + processed_len(events.drop_first())
    }
}

/// Whether the arrival sequence contains a termination trigger.
pub open spec fn reaches_termination(events: Seq<RelayEvent>) -> bool
    decreases events.len(),
{
    if events.len() == 0 {
        false
    } else if is_terminator(events[0]) {
        true
    } else {
        reaches_termination(events.drop_first())
    }
}

/// The output payloads the consumer receives over one loop lifetime, in
/// arrival order.
pub open spec fn outputs_of(events: Seq<RelayEvent>) -> Seq<Seq<u8>>
    decreases events.len(),
{
    if events.len() == 0 {
        Seq::empty()
    } else if is_terminator(events[0]) {
        Seq::empty()
    } else {
        match events[0] {
            RelayEvent::Remote(RemoteEvent::Data(d)) => seq![d@] + outputs_of(
                events.drop_first(),
            ),
            _ => outputs_of(events.drop_first()),
        }
    }
}

/// The input payloads written to the remote channel over one loop lifetime,
/// in arrival order.
pub open spec fn writes_of(events: Seq<RelayEvent>) -> Seq<Seq<u8>>
    decreases events.len(),
{
    if events.len() == 0 {
        Seq::empty()
    } else if is_terminator(events[0]) {
        Seq::empty()
    } else {
        match events[0] {
            RelayEvent::Control(Some(SshInput::Data(d))) => seq![d@] + writes_of(
                events.drop_first(),
            ),
            _ => writes_of(events.drop_first()),
        }
    }
}

/// The window-change requests sent to the remote over one loop lifetime,
/// as (columns, rows) pairs in arrival order.
pub open spec fn resizes_of(events: Seq<RelayEvent>) -> Seq<(u32, u32)>
    decreases events.len(),
{
    if events.len() == 0 {
        Seq::empty()
    } else if is_terminator(events[0]) {
        Seq::empty()
    } else {
        match events[0] {
            RelayEvent::Control(Some(SshInput::Resize(cols, rows))) => seq![(cols, rows)]
                + resizes_of(events.drop_first()),
            _ => resizes_of(events.drop_first()),
        }
    }
}

/// The exit status the consumer receives, if the loop ends on a remote exit.
pub open spec fn exit_of(events: Seq<RelayEvent>) -> Option<u32>
    decreases events.len(),
{
    if events.len() == 0 {
        None
    } else {
        match events[0] {
            RelayEvent::Remote(RemoteEvent::Exit(s)) => Some(s),
            _ => if is_terminator(events[0]) {
                None
            } else {
                exit_of(events.drop_first())
            },
        }
    }
}

/// The views of a sequence of byte vectors.
pub open spec fn views_of(vs: Seq<Vec<u8>>) -> Seq<Seq<u8>> {
    vs.map_values(|v: Vec<u8>| v@)
}

/// Everything one relay-loop lifetime did, given its arrival sequence.
#[derive(Debug)]
pub struct RelayOutcome {
    /// Payloads of the output events emitted, in order.
    pub outputs: Vec<Vec<u8>>,
    /// Payloads written to the remote channel, in order.
    pub writes: Vec<Vec<u8>>,
    /// Window-change requests sent, as (columns, rows), in order.
    pub resizes: Vec<(u32, u32)>,
    /// The status of the exit event, if one was emitted.
    pub exit_status: Option<u32>,
    /// How many arrivals were consumed.
    pub processed: usize,
    /// Whether a termination trigger was consumed; if so the loop cleaned up
    /// its registry entry and no later arrival is processed.
    pub terminated: bool,
}

fn clone_bytes(v: &Vec<u8>) -> (r: Vec<u8>)
    ensures
        r@ == v@,
{
    let mut r: Vec<u8> = Vec::new();
    let mut i: usize = 0;
    while i < v.len()
        invariant
            i <= v.len(),
            r@ == v@.take(i as int),
        decreases v.len() - i,
    {
        r.push(v[i]);
        proof {
            assert(v@.take(i as int).push(v@[i as int]) =~= v@.take(i as int + 1));
        }
        i = i + 1;
    }
    proof {
        assert(v@.take(v@.len() as int) =~= v@);
    }
    r
}

/// Drives one relay-loop lifetime over a whole arrival sequence: events are
/// handled one at a time in arrival order, and nothing past the first
/// termination trigger is processed.
pub fn run_relay(events: &Vec<RelayEvent>) -> (o: RelayOutcome)
    ensures
        views_of(o.outputs@) == outputs_of(events@),
        views_of(o.writes@) == writes_of(events@),
        o.resizes@ == resizes_of(events@),
        o.exit_status == exit_of(events@),
        o.processed == processed_len(events@),
        o.terminated == reaches_termination(events@),
{
    let ghost all = events@;
    let mut outputs: Vec<Vec<u8>> = Vec::new();
    let mut writes: Vec<Vec<u8>> = Vec::new();
    let mut resizes: Vec<(u32, u32)> = Vec::new();
    let mut exit_status: Option<u32> = None;
    let mut terminated: bool = false;
    let mut i: usize = 0;
    proof {
        assert(all.skip(0) =~= all);
        assert(views_of(Seq::<Vec<u8>>::empty()) =~= Seq::<Seq<u8>>::empty());
    }
    while i < events.len() && !terminated
        invariant
            i <= events.len(),
            all == events@,
            !terminated ==> {
                &&& exit_status is None
                &&& outputs_of(all) == views_of(outputs@) + outputs_of(all.skip(i as int))
                &&& writes_of(all) == views_of(writes@) + writes_of(all.skip(i as int))
                &&& resizes_of(all) == resizes@ + resizes_of(all.skip(i as int))
                &&& exit_of(all) == exit_of(all.skip(i as int))
                &&& processed_len(all) == i + processed_len(all.skip(i as int))
                &&& reaches_termination(all) == reaches_termination(all.skip(i as int))
            },
            terminated ==> {
                &&& outputs_of(all) == views_of(outputs@)
                &&& writes_of(all) == views_of(writes@)
                &&& resizes_of(all) == resizes@
                &&& exit_of(all) == exit_status
                &&& processed_len(all) == i
                &&& reaches_termination(all)
            },
        decreases events.len() - i,
    {
        let ghost rest = all.skip(i as int);
        proof {
            assert(rest[0] == all[i as int]);
            assert(rest.drop_first() =~= all.skip(i as int + 1));
        }
        let ghost prev_outputs = outputs@;
        let ghost prev_writes = writes@;
        match &events[i] {
            RelayEvent::Remote(RemoteEvent::Data(d)) => {
                let payload = clone_bytes(d);
                outputs.push(payload);
                proof {
                    assert(views_of(outputs@) =~= views_of(prev_outputs).push(rest[0]->Remote_0->Data_0@));
                    assert(views_of(prev_outputs) + outputs_of(rest) =~= views_of(outputs@)
                        + outputs_of(rest.drop_first()));
                }
            },
            RelayEvent::Remote(RemoteEvent::Exit(s)) => {
                exit_status = Some(*s);
                terminated = true;
            },
            RelayEvent::Remote(RemoteEvent::Closed) => {
                terminated = true;
            },
            RelayEvent::Remote(RemoteEvent::Other) => {
            },
            RelayEvent::Control(Some(SshInput::Data(d))) => {
                let payload = clone_bytes(d);
                writes.push(payload);
                proof {
                    assert(views_of(writes@) =~= views_of(prev_writes).push(
                        rest[0]->Control_0->Some_0->Data_0@,
                    ));
                    assert(views_of(prev_writes) + writes_of(rest) =~= views_of(writes@)
                        + writes_of(rest.drop_first()));
                }
            },
            RelayEvent::Control(Some(SshInput::Resize(cols, rows))) => {
                resizes.push((*cols, *rows));
                proof {
                    assert(resizes@.drop_last() + resizes_of(rest) =~= resizes@ + resizes_of(
                        rest.drop_first(),
                    ));
                }
            },
            RelayEvent::Control(None) => {
                terminated = true;
            },
        }
        i = i + 1;
        proof {
            if terminated {
                assert(views_of(outputs@) + Seq::<Seq<u8>>::empty() =~= views_of(outputs@));
                assert(views_of(writes@) + Seq::<Seq<u8>>::empty() =~= views_of(writes@));
                assert(resizes@ + Seq::<(u32, u32)>::empty() =~= resizes@);
            }
        }
    }
    proof {
        if !terminated {
            assert(all.skip(all.len() as int) =~= Seq::<RelayEvent>::empty());
            assert(views_of(outputs@) + outputs_of(Seq::<RelayEvent>::empty()) =~= views_of(
                outputs@,
            ));
            assert(views_of(writes@) + writes_of(Seq::<RelayEvent>::empty()) =~= views_of(writes@));
            assert(resizes@ + resizes_of(Seq::<RelayEvent>::empty()) =~= resizes@);
        }
    }
    RelayOutcome { outputs, writes, resizes, exit_status, processed: i, terminated }
}

/// The payloads of all remote data messages in a sequence, in arrival order,
/// with no termination cutoff.
pub open spec fn data_payloads(events: Seq<RelayEvent>) -> Seq<Seq<u8>>
    decreases events.len(),
{
    if events.len() == 0 {
        Seq::empty()
    } else {
        match events[0] {
            RelayEvent::Remote(RemoteEvent::Data(d)) => seq![d@] + data_payloads(
                events.drop_first(),
            ),
            _ => data_payloads(events.drop_first()),
        }
    }
}

/// The payloads of all consumer input messages in a sequence, in the order
/// the consumer enqueued them, with no termination cutoff.
pub open spec fn input_payloads(events: Seq<RelayEvent>) -> Seq<Seq<u8>>
    decreases events.len(),
{
    if events.len() == 0 {
        Seq::empty()
    } else {
        match events[0] {
            RelayEvent::Control(Some(SshInput::Data(d))) => seq![d@] + input_payloads(
                events.drop_first(),
            ),
            _ => input_payloads(events.drop_first()),
        }
    }
}

/// The relay loop consumes at most the whole arrival sequence, and at least
/// one event when there is one.
pub proof fn lemma_processed_len_bounds(events: Seq<RelayEvent>)
    ensures
        0 <= processed_len(events) <= events.len(),
        events.len() > 0 ==> 1 <= processed_len(events),
    decreases events.len(),
{
    if events.len() > 0 && !is_terminator(events[0]) {
        lemma_processed_len_bounds(events.drop_first());
    }
}

/// Order preservation toward the consumer: over one loop lifetime, the
/// output events carry exactly the payloads of the remote data messages
/// among the processed arrivals, in arrival order.
pub proof fn lemma_outputs_in_arrival_order(events: Seq<RelayEvent>)
    ensures
        outputs_of(events) == data_payloads(events.take(processed_len(events))),
    decreases events.len(),
{
    lemma_processed_len_bounds(events);
    if events.len() == 0 {
        assert(events.take(0) =~= events);
    } else if is_terminator(events[0]) {
        let p = events.take(1);
        assert(p.len() == 1 && p[0] == events[0]);
        assert(p.drop_first() =~= Seq::<RelayEvent>::empty());
        assert(data_payloads(Seq::<RelayEvent>::empty()) =~= Seq::<Seq<u8>>::empty());
        assert(data_payloads(p) == data_payloads(p.drop_first()));
    } else {
        let tail = events.drop_first();
        lemma_outputs_in_arrival_order(tail);
        lemma_processed_len_bounds(tail);
        let p = events.take(processed_len(events));
        assert(p[0] == events[0]);
        assert(p.drop_first() =~= tail.take(processed_len(tail)));
    }
}

/// Order preservation toward the remote: over one loop lifetime, the bytes
/// written to the remote channel are exactly the payloads of the consumer
/// input messages among the processed arrivals, in enqueue order.
pub proof fn lemma_writes_in_enqueue_order(events: Seq<RelayEvent>)
    ensures
        writes_of(events) == input_payloads(events.take(processed_len(events))),
    decreases events.len(),
{
    lemma_processed_len_bounds(events);
    if events.len() == 0 {
        assert(events.take(0) =~= events);
    } else if is_terminator(events[0]) {
        let p = events.take(1);
        assert(p.len() == 1 && p[0] == events[0]);
        assert(p.drop_first() =~= Seq::<RelayEvent>::empty());
        assert(input_payloads(Seq::<RelayEvent>::empty()) =~= Seq::<Seq<u8>>::empty());
        assert(input_payloads(p) == input_payloads(p.drop_first()));
    } else {
        let tail = events.drop_first();
        lemma_writes_in_enqueue_order(tail);
        lemma_processed_len_bounds(tail);
        let p = events.take(processed_len(events));
        assert(p[0] == events[0]);
        assert(p.drop_first() =~= tail.take(processed_len(tail)));
    }
}

/// Taking a prefix of the arrivals takes a prefix of the input payloads:
/// no input is duplicated or reordered by cutting the sequence anywhere.
pub proof fn lemma_input_payloads_prefix(events: Seq<RelayEvent>, k: int)
    requires
        0 <= k <= events.len(),
    ensures
        input_payloads(events.take(k)).is_prefix_of(input_payloads(events)),
    decreases events.len(),
{
    if k == 0 {
        assert(events.take(0) =~= Seq::<RelayEvent>::empty());
        assert(input_payloads(events.take(0)) =~= Seq::<Seq<u8>>::empty());
        assert(input_payloads(events).subrange(0, 0) =~= Seq::<Seq<u8>>::empty());
    } else {
        let tail = events.drop_first();
        lemma_input_payloads_prefix(tail, k - 1);
        let p = events.take(k);
        assert(p[0] == events[0]);
        assert(p.drop_first() =~= tail.take(k - 1));
        let tp = input_payloads(tail.take(k - 1));
        let tw = input_payloads(tail);
        assert(tp =~= tw.subrange(0, tp.len() as int));
        match events[0] {
            RelayEvent::Control(Some(SshInput::Data(d))) => {
                assert(input_payloads(p) =~= seq![d@] + tp);
                assert(input_payloads(events) =~= seq![d@] + tw);
                assert((seq![d@] + tp) =~= (seq![d@] + tw).subrange(0, (seq![d@] + tp).len() as int));
            },
            _ => {
                assert(input_payloads(p) == tp);
                assert(input_payloads(events) == tw);
            },
        }
    }
}

/// Inputs enqueued before a disconnect are either forwarded before
/// termination or discarded entirely: the bytes written over one loop
/// lifetime form a prefix of everything the consumer enqueued, so nothing
/// is duplicated or reordered and no later input overtakes an earlier one.
pub proof fn lemma_inputs_forwarded_or_discarded(events: Seq<RelayEvent>)
    ensures
        writes_of(events).is_prefix_of(input_payloads(events)),
    decreases events.len(),
{
    lemma_processed_len_bounds(events);
    lemma_writes_in_enqueue_order(events);
    lemma_input_payloads_prefix(events, processed_len(events));
}

} // verus!
