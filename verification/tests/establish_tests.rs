use ssh_relay::errors::SshError;
use ssh_relay::registry::Registry;
use ssh_relay::session::disconnect_ssh;
use ssh_relay::session::SshConnection;
use ssh_relay::establish::auth_decision;
use ssh_relay::establish::default_pty_geometry;
use ssh_relay::establish::default_term_type;
use ssh_relay::establish::establish_outcome;
use ssh_relay::establish::establish_step;
use ssh_relay::establish::password_for_auth;
use ssh_relay::establish::EstablishPhase;
use ssh_relay::topics::error_topic;
use ssh_relay::topics::exit_topic;
use ssh_relay::topics::output_topic;

#[test]
fn missing_password_is_an_authentication_error() {
    assert_eq!(password_for_auth(None), Err(SshError::Authentication));
}

#[test]
fn supplied_password_is_used_for_auth() {
    assert_eq!(
        password_for_auth(Some(String::from("hunter2"))),
        Ok(String::from("hunter2"))
    );
}

#[test]
fn rejected_credentials_are_an_authentication_error() {
    assert_eq!(auth_decision(false), Err(SshError::Authentication));
    assert_eq!(
        establish_step(EstablishPhase::Auth, false),
        Err(SshError::Authentication)
    );
    let message = SshError::Authentication.message();
    assert!(message.contains("Authentication"));
    assert_eq!(message, "Authentication failed");

    // Establishment aborted, so no registry entry was ever created: the
    // session is installed only after every phase has succeeded.
    let mut reg: Registry<SshConnection> = Registry::new();
    let id = String::from("rejected");
    assert!(reg.lookup(&id).is_none());
    assert_eq!(disconnect_ssh(&mut reg, &id), Err(SshError::NotFound));
}

#[test]
fn accepted_credentials_continue_establishment() {
    assert_eq!(auth_decision(true), Ok(()));
}

#[test]
fn phases_advance_in_order_on_success() {
    let mut phase = EstablishPhase::Transport;
    let expected = [
        EstablishPhase::Auth,
        EstablishPhase::OpenChannel,
        EstablishPhase::Pty,
        EstablishPhase::Shell,
        EstablishPhase::Established,
    ];
    for want in expected {
        phase = establish_step(phase, true).unwrap();
        assert_eq!(phase, want);
    }
}

#[test]
fn transport_failure_is_a_connection_error() {
    assert_eq!(
        establish_step(EstablishPhase::Transport, false),
        Err(SshError::Connection)
    );
}

#[test]
fn channel_pty_and_shell_failures_are_channel_errors() {
    assert_eq!(
        establish_step(EstablishPhase::OpenChannel, false),
        Err(SshError::Channel)
    );
    assert_eq!(
        establish_step(EstablishPhase::Pty, false),
        Err(SshError::Channel)
    );
    assert_eq!(
        establish_step(EstablishPhase::Shell, false),
        Err(SshError::Channel)
    );
}

#[test]
fn full_establishment_chain_succeeds() {
    let pw = Some(String::from("pw"));
    assert_eq!(establish_outcome(true, pw, true, true, true, true), Ok(()));
}

#[test]
fn no_password_never_yields_a_session() {
    assert_eq!(
        establish_outcome(true, None, true, true, true, true),
        Err(SshError::Authentication)
    );
    assert!(establish_outcome(false, None, true, true, true, true).is_err());
}

#[test]
fn first_failing_phase_decides_the_error() {
    let pw = Some(String::from("pw"));
    assert_eq!(
        establish_outcome(false, pw.clone(), false, false, false, false),
        Err(SshError::Connection)
    );
    assert_eq!(
        establish_outcome(true, pw.clone(), false, true, true, true),
        Err(SshError::Authentication)
    );
    assert_eq!(
        establish_outcome(true, pw, true, false, false, false),
        Err(SshError::Channel)
    );
}

#[test]
fn default_pty_is_eighty_by_twenty_four() {
    assert_eq!(default_pty_geometry(), (80, 24));
    assert_eq!(default_term_type(), "xterm-256color");
}

#[test]
fn event_topics_are_scoped_by_identifier() {
    assert_eq!(output_topic("term-1"), "ssh-output-term-1");
    assert_eq!(exit_topic("term-1"), "ssh-exit-term-1");
    assert_eq!(error_topic("term-1"), "ssh-error-term-1");
}

#[test]
fn error_messages_describe_each_failure() {
    assert_eq!(SshError::Connection.message(), "Connection failed");
    assert_eq!(SshError::Channel.message(), "Channel request rejected");
    assert_eq!(SshError::NotFound.message(), "Session not found");
    assert_eq!(SshError::Write.message(), "Write failed");
    assert_eq!(SshError::Control.message(), "Resize failed");
}
