//! The state machine of one connection to the login server. The owner of
//! the connection does the reading and writing; after each step it reports
//! what happened, and is told what to do next.

use crate::account::{account_check, verify_credential, AuthResult};
use crate::command::LOGIN_AUTH_ATTEMPT;
use crate::credential::{parse_credential, read_login_authenticate_data, CREDENTIAL_LEN};
use crate::login::{answer_auth_result, login_attempt_reply};
use vstd::prelude::*;

verus! {

/// Where a connection to the login server stands.
#[derive(Clone, Copy, Debug, PartialEq, Eq, Structural)]
pub enum LoginState {
    /// Waiting for the opcode of the next command.
    AwaitingCommand,
    /// A login request was announced; waiting for its body.
    ParsingCredential,
    /// The login was accepted; the reply is being sent.
    Authenticated,
    /// The login was refused; the reply is being sent.
    Rejected,
    /// The account is banned; the reply is being sent, and the connection
    /// closes after it.
    Banned,
    /// The connection is over.
    Closed,
}

/// What the owner of the connection reports.
#[derive(Clone, Debug, PartialEq, Eq)]
pub enum LoginEvent {
    /// An opcode was read.
    Opcode(u16),
    /// The body that was asked for was read.
    Body(Vec<u8>),
    /// The reply was written and flushed.
    Flushed,
    /// Reading or writing failed, or the peer closed the connection.
    IoFailure,
}

/// An event as a mathematical value.
pub ghost enum LoginEventView {
    Opcode(u16),
    Body(Seq<u8>),
    Flushed,
    IoFailure,
}

impl View for LoginEvent {
    type V = LoginEventView;

    open spec fn view(&self) -> LoginEventView {
        match self {
            LoginEvent::Opcode(opcode) => LoginEventView::Opcode(*opcode),
            LoginEvent::Body(body) => LoginEventView::Body(body@),
            LoginEvent::Flushed => LoginEventView::Flushed,
            LoginEvent::IoFailure => LoginEventView::IoFailure,
        }
    }
}

/// What the owner of the connection is to do next.
#[derive(Clone, Debug, PartialEq, Eq)]
pub enum LoginAction {
    /// Read the two bytes of the next opcode.
    ReadOpcode,
    /// Read exactly this many bytes of body.
    ReadBody(usize),
    /// The opcode is unknown: take whatever input is at hand off the
    /// connection, note it, and read the next opcode.
    DiscardInput(u16),
    /// Write and flush these bytes.
    Send(Vec<u8>),
    /// Close the connection and take the session out of the registry.
    Disconnect,
}

/// An action as a mathematical value.
pub ghost enum LoginActionView {
    ReadOpcode,
    ReadBody(usize),
    DiscardInput(u16),
    Send(Seq<u8>),
    Disconnect,
}

impl View for LoginAction {
    type V = LoginActionView;

    open spec fn view(&self) -> LoginActionView {
        match self {
            LoginAction::ReadOpcode => LoginActionView::ReadOpcode,
            LoginAction::ReadBody(len) => LoginActionView::ReadBody(*len),
            LoginAction::DiscardInput(opcode) => LoginActionView::DiscardInput(*opcode),
            LoginAction::Send(packet) => LoginActionView::Send(packet@),
            LoginAction::Disconnect => LoginActionView::Disconnect,
        }
    }
}

/// The state in which the reply to a login with outcome `result` is sent.
pub open spec fn state_of(result: AuthResult) -> LoginState {
    match result {
        AuthResult::Success { .. } => LoginState::Authenticated,
        AuthResult::InvalidCredentials => LoginState::Rejected,
        AuthResult::Banned { .. } => LoginState::Banned,
    }
}

/// The transition relation: the next state and the action that follow from
/// an event in a state. An event that the state does not wait for ends the
/// connection.
pub open spec fn login_step(state: LoginState, event: LoginEventView) -> (
    LoginState,
    LoginActionView,
) {
    match (state, event) {
        (LoginState::AwaitingCommand, LoginEventView::Opcode(opcode)) => if opcode
            == LOGIN_AUTH_ATTEMPT {
            (LoginState::ParsingCredential, LoginActionView::ReadBody(CREDENTIAL_LEN))
        } else {
            (LoginState::AwaitingCommand, LoginActionView::DiscardInput(opcode))
        },
        (LoginState::ParsingCredential, LoginEventView::Body(body)) => match parse_credential(
            body,
        ) {
            Ok(credential) => (
                state_of(account_check(credential.password)),
                LoginActionView::Send(login_attempt_reply(credential.password).packet),
            ),
            Err(_) => (LoginState::Closed, LoginActionView::Disconnect),
        },
        (LoginState::Authenticated, LoginEventView::Flushed) => (
            LoginState::AwaitingCommand,
            LoginActionView::ReadOpcode,
        ),
        (LoginState::Rejected, LoginEventView::Flushed) => (
            LoginState::AwaitingCommand,
            LoginActionView::ReadOpcode,
        ),
        _ => (LoginState::Closed, LoginActionView::Disconnect),
    }
}

/// The state of a connection that was just accepted.
pub fn initial_state() -> (state: LoginState)
    ensures
        state == LoginState::AwaitingCommand,
{
    LoginState::AwaitingCommand
}

/// Takes one step: from the state and what happened to the next state and
/// what to do. An unknown opcode leaves the connection waiting for the next
/// command; a failure of the connection, a body that cannot be decoded and a
/// flushed ban end it; and a connection that is over stays so.
pub fn login_transition(state: LoginState, event: &LoginEvent) -> (next: (LoginState, LoginAction))
    ensures
        (next.0, next.1@) == login_step(state, event@),
        event matches LoginEvent::Opcode(opcode) ==> (state == LoginState::AwaitingCommand
            && opcode != LOGIN_AUTH_ATTEMPT ==> next.0 == LoginState::AwaitingCommand),
        event is IoFailure || state == LoginState::Closed ==> next.0 == LoginState::Closed,
        next.0 == LoginState::Closed <==> next.1 is Disconnect,
{
    match state {
        LoginState::AwaitingCommand => match event {
            LoginEvent::Opcode(opcode) => {
                if *opcode == LOGIN_AUTH_ATTEMPT {
                    (LoginState::ParsingCredential, LoginAction::ReadBody(CREDENTIAL_LEN))
                } else {
                    (LoginState::AwaitingCommand, LoginAction::DiscardInput(*opcode))
                }
            },
            _ => (LoginState::Closed, LoginAction::Disconnect),
        },
        LoginState::ParsingCredential => match event {
            LoginEvent::Body(body) => match read_login_authenticate_data(body.as_slice()) {
                Ok(credential) => {
                    let result = verify_credential(&credential);
                    let reply = answer_auth_result(result);
                    let state = match result {
                        AuthResult::Success { .. } => LoginState::Authenticated,
                        AuthResult::InvalidCredentials => LoginState::Rejected,
                        AuthResult::Banned { .. } => LoginState::Banned,
                    };
                    (state, LoginAction::Send(reply.packet))
                },
                Err(_) => (LoginState::Closed, LoginAction::Disconnect),
            },
            _ => (LoginState::Closed, LoginAction::Disconnect),
        },
        LoginState::Authenticated | LoginState::Rejected => match event {
            LoginEvent::Flushed => (LoginState::AwaitingCommand, LoginAction::ReadOpcode),
            _ => (LoginState::Closed, LoginAction::Disconnect),
        },
        LoginState::Banned | LoginState::Closed => (LoginState::Closed, LoginAction::Disconnect),
    }
}

} // verus!
