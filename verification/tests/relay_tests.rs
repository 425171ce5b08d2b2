use ssh_relay::control::SshInput;
use ssh_relay::relay::run_relay;
use ssh_relay::relay::relay_step;
use ssh_relay::relay::RelayAction;
use ssh_relay::relay::RelayEvent;
use ssh_relay::relay::RelayState;
use ssh_relay::relay::RemoteEvent;

fn remote_data(bytes: &[u8]) -> RelayEvent {
    RelayEvent::Remote(RemoteEvent::Data(bytes.to_vec()))
}

fn consumer_input(bytes: &[u8]) -> RelayEvent {
    RelayEvent::Control(Some(SshInput::Data(bytes.to_vec())))
}

#[test]
fn outputs_preserve_arrival_order() {
    let events = vec![
        remote_data(b"first"),
        remote_data(b"second"),
        remote_data(b"third"),
        RelayEvent::Remote(RemoteEvent::Closed),
    ];
    let o = run_relay(&events);
    assert_eq!(
        o.outputs,
        vec![b"first".to_vec(), b"second".to_vec(), b"third".to_vec()]
    );
    assert!(o.terminated);
    assert_eq!(o.exit_status, None);
    assert_eq!(o.processed, 4);
}

#[test]
fn greeting_is_first_output() {
    let greeting = b"Last login: today\nuser@host:~$ ";
    let events = vec![remote_data(greeting), remote_data(b"ls\r\n")];
    let o = run_relay(&events);
    assert_eq!(o.outputs[0], greeting.to_vec());
    assert!(!o.terminated);
    assert_eq!(o.processed, 2);
}

#[test]
fn exit_status_zero_is_reported() {
    let events = vec![
        remote_data(b"bye\n"),
        RelayEvent::Remote(RemoteEvent::Exit(0)),
    ];
    let o = run_relay(&events);
    assert_eq!(o.exit_status, Some(0));
    assert!(o.terminated);
    assert_eq!(o.outputs, vec![b"bye\n".to_vec()]);
}

#[test]
fn events_after_termination_are_discarded() {
    let events = vec![
        RelayEvent::Remote(RemoteEvent::Exit(3)),
        remote_data(b"late"),
        consumer_input(b"late input"),
    ];
    let o = run_relay(&events);
    assert_eq!(o.processed, 1);
    assert_eq!(o.exit_status, Some(3));
    assert!(o.outputs.is_empty());
    assert!(o.writes.is_empty());
}

#[test]
fn inputs_before_disconnect_forwarded_in_order() {
    let events = vec![
        consumer_input(b"ls"),
        consumer_input(b" -l"),
        RelayEvent::Control(None),
        consumer_input(b"never sent"),
    ];
    let o = run_relay(&events);
    assert_eq!(o.writes, vec![b"ls".to_vec(), b" -l".to_vec()]);
    assert!(o.terminated);
    assert_eq!(o.processed, 3);
}

#[test]
fn resize_reaches_remote_geometry() {
    let (action, state) = relay_step(RelayEvent::Control(Some(SshInput::Resize(120, 40))));
    assert!(matches!(action, RelayAction::WindowChange(120, 40)));
    assert_eq!(state, RelayState::Running);

    let events = vec![RelayEvent::Control(Some(SshInput::Resize(120, 40)))];
    let o = run_relay(&events);
    assert_eq!(o.resizes, vec![(120, 40)]);
}

#[test]
fn remote_close_terminates_without_exit_event() {
    let o = run_relay(&vec![RelayEvent::Remote(RemoteEvent::Closed)]);
    assert!(o.terminated);
    assert_eq!(o.exit_status, None);
    assert_eq!(o.processed, 1);
}

#[test]
fn control_channel_closure_cancels_session() {
    let o = run_relay(&vec![RelayEvent::Control(None)]);
    assert!(o.terminated);
    assert_eq!(o.processed, 1);
}

#[test]
fn unknown_remote_messages_are_ignored() {
    let events = vec![
        RelayEvent::Remote(RemoteEvent::Other),
        remote_data(b"data"),
    ];
    let o = run_relay(&events);
    assert_eq!(o.outputs, vec![b"data".to_vec()]);
    assert!(!o.terminated);
    assert_eq!(o.processed, 2);
}

#[test]
fn data_step_emits_output_and_keeps_running() {
    let (action, state) = relay_step(remote_data(b"xyz"));
    match action {
        RelayAction::EmitOutput(bytes) => assert_eq!(bytes, b"xyz".to_vec()),
        other => panic!("unexpected action: {:?}", other),
    }
    assert_eq!(state, RelayState::Running);
}

#[test]
fn exit_step_emits_exit_and_terminates() {
    let (action, state) = relay_step(RelayEvent::Remote(RemoteEvent::Exit(7)));
    assert!(matches!(action, RelayAction::EmitExit(7)));
    assert_eq!(state, RelayState::Terminating);
}

#[test]
fn write_failures_do_not_terminate() {
    let events = vec![
        consumer_input(b"a"),
        RelayEvent::Control(Some(SshInput::Resize(1, 1))),
        remote_data(b"still alive"),
    ];
    let o = run_relay(&events);
    assert!(!o.terminated);
    assert_eq!(o.processed, 3);
    assert_eq!(o.outputs, vec![b"still alive".to_vec()]);
}
