//! The session-establisher decision chain.
//!
//! Establishing a session runs through fixed phases: open the transport,
//! authenticate with a password, open a session channel, request a PTY,
//! request a shell. The network calls themselves are performed by the SSH
//! library outside this crate; every decision taken on their results is
//! here, verified: which typed failure each phase produces, that a missing
//! password is itself an authentication failure, and the fixed default PTY
//! geometry and terminal type requested at establishment.

use vstd::prelude::*;
use vstd::string::StringExecFns;
use crate::errors::SshError;

verus! {

/// The phases of session establishment, in the order they run.
#[derive(Clone, Copy, Debug, PartialEq, Eq, Structural)]
pub enum EstablishPhase {
    /// Opening the transport connection to host:port.
    Transport,
    /// Password authentication as the given user.
    Auth,
    /// Opening the interactive session channel.
    OpenChannel,
    /// Requesting a pseudo-terminal on the channel.
    Pty,
    /// Requesting a shell on the channel.
    Shell,
    /// All phases succeeded; the session is live.
    Established,
}

/// The phase that follows a successful one.
pub open spec fn spec_next_phase(phase: EstablishPhase) -> EstablishPhase {
    match phase {
        EstablishPhase::Transport => EstablishPhase::Auth,
        EstablishPhase::Auth => EstablishPhase::OpenChannel,
        EstablishPhase::OpenChannel => EstablishPhase::Pty,
        EstablishPhase::Pty => EstablishPhase::Shell,
        EstablishPhase::Shell => EstablishPhase::Established,
        EstablishPhase::Established => EstablishPhase::Established,
    }
}

/// The typed failure a phase produces when its outside call fails: transport
/// failures are connection errors, rejection of the credentials is an
/// authentication error, and a refused channel, PTY or shell request is a
/// channel error.
pub open spec fn spec_phase_failure(phase: EstablishPhase) -> SshError {
    match phase {
        EstablishPhase::Transport => SshError::Connection,
        EstablishPhase::Auth => SshError::Authentication,
        EstablishPhase::OpenChannel => SshError::Channel,
        EstablishPhase::Pty => SshError::Channel,
        EstablishPhase::Shell => SshError::Channel,
        EstablishPhase::Established => SshError::Channel,
    }
}

/// Advances the establishment state machine by one phase outcome: on
/// success the next phase, on failure the typed error that aborts the
/// whole attempt.
pub fn establish_step(phase: EstablishPhase, succeeded: bool) -> (r: Result<
    EstablishPhase,
    SshError,
>)
    requires
        phase != EstablishPhase::Established,
    ensures
        succeeded ==> r == Ok::<EstablishPhase, SshError>(spec_next_phase(phase)),
        !succeeded ==> r == Err::<EstablishPhase, SshError>(spec_phase_failure(phase)),
{
    if succeeded {
        Ok(
            match phase {
                EstablishPhase::Transport => EstablishPhase::Auth,
                EstablishPhase::Auth => EstablishPhase::OpenChannel,
                EstablishPhase::OpenChannel => EstablishPhase::Pty,
                EstablishPhase::Pty => EstablishPhase::Shell,
                EstablishPhase::Shell => EstablishPhase::Established,
                EstablishPhase::Established => EstablishPhase::Established,
            },
        )
    } else {
        Err(
            match phase {
                EstablishPhase::Transport => SshError::Connection,
                EstablishPhase::Auth => SshError::Authentication,
                _ => SshError::Channel,
            },
        )
    }
}

/// Picks the password to authenticate with. Only password authentication is
/// supported, so the absence of a password is itself an authentication
/// failure, never a request for another method.
pub fn password_for_auth(password: Option<String>) -> (r: Result<String, SshError>)
    ensures
        password matches Some(p) ==> r == Ok::<String, SshError>(p),
        password is None ==> r == Err::<String, SshError>(SshError::Authentication),
{
    match password {
        Some(p) => Ok(p),
        None => Err(SshError::Authentication),
    }
}

/// Turns the peer's verdict on the supplied credentials into the
/// establishment outcome: rejection is an authentication failure.
pub fn auth_decision(accepted: bool) -> (r: Result<(), SshError>)
    ensures
        r is Ok <==> accepted,
        !accepted ==> r == Err::<(), SshError>(SshError::Authentication),
{
    if accepted {
        Ok(())
    } else {
        Err(SshError::Authentication)
    }
}

/// The whole establishment decision chain, given the outcome of each
/// outside call in the order the phases run. The first failing phase
/// decides the typed error and aborts the attempt; later outcomes are
/// never consulted. Without a password there is never a successful
/// session: at best the attempt ends in an authentication failure.
pub fn establish_outcome(
    transport_ok: bool,
    password: Option<String>,
    auth_accepted: bool,
    channel_ok: bool,
    pty_ok: bool,
    shell_ok: bool,
) -> (r: Result<(), SshError>)
    ensures
        !transport_ok ==> r == Err::<(), SshError>(SshError::Connection),
        transport_ok && password is None ==> r == Err::<(), SshError>(SshError::Authentication),
        transport_ok && password is Some && !auth_accepted ==> r == Err::<(), SshError>(
            SshError::Authentication,
        ),
        transport_ok && password is Some && auth_accepted && !channel_ok ==> r == Err::<
            (),
            SshError,
        >(SshError::Channel),
        transport_ok && password is Some && auth_accepted && channel_ok && !pty_ok ==> r == Err::<
            (),
            SshError,
        >(SshError::Channel),
        transport_ok && password is Some && auth_accepted && channel_ok && pty_ok && !shell_ok
            ==> r == Err::<(), SshError>(SshError::Channel),
        transport_ok && password is Some && auth_accepted && channel_ok && pty_ok && shell_ok
            ==> r == Ok::<(), SshError>(()),
        password is None ==> r is Err,
{
    let phase = match establish_step(EstablishPhase::Transport, transport_ok) {
        Ok(p) => p,
        Err(e) => {
            return Err(e);
        },
    };
    let _password = match password_for_auth(password) {
        Ok(p) => p,
        Err(e) => {
            return Err(e);
        },
    };
    let phase = match establish_step(phase, auth_accepted) {
        Ok(p) => p,
        Err(e) => {
            return Err(e);
        },
    };
    let phase = match establish_step(phase, channel_ok) {
        Ok(p) => p,
        Err(e) => {
            return Err(e);
        },
    };
    let phase = match establish_step(phase, pty_ok) {
        Ok(p) => p,
        Err(e) => {
            return Err(e);
        },
    };
    match establish_step(phase, shell_ok) {
        Ok(_) => Ok(()),
        Err(e) => Err(e),
    }
}

/// The fixed default PTY geometry requested at establishment:
/// 80 columns by 24 rows.
pub fn default_pty_geometry() -> (g: (u32, u32))
    ensures
        g.0 == 80,
        g.1 == 24,
{
    (80, 24)
}

/// The fixed terminal type requested for the PTY.
pub fn default_term_type() -> (t: String)
    ensures
        t@ == "xterm-256color"@,
{
    String::from_str("xterm-256color")
}

} // verus!
