//! The character server: the hello that hands a client over from the login
//! server, and the liveness ping.

use crate::account::{gender_from_u8, gender_of, Gender};
use crate::codec::{
    read_opcode, read_u32_le, u16_at, u16_le_bytes, u32_at, u32_le_bytes, write_bytes,
    write_u16_le, write_u32_le, DecodeError,
};
use crate::command::{AUTH_COMMAND, PING_COMMAND};
use crate::reply::{closing_reply, silent_reply, Disposition, Reply, ReplyView};
use vstd::prelude::*;
use vstd::slice::slice_subrange;

verus! {

/// Length in bytes of the body of the hello.
pub const AUTH_BODY_LEN: usize = 15;

/// Length in bytes of the body of a ping.
pub const PING_BODY_LEN: usize = 4;

/// What the hello of a client carries.
#[derive(Clone, Copy, Debug, PartialEq, Eq, Structural)]
pub struct AuthData {
    pub account_id: u32,
    pub login_id1: u32,
    pub login_id2: u32,
    pub gender: Gender,
}

/// What a ping carries.
#[derive(Clone, Copy, Debug, PartialEq, Eq, Structural)]
pub struct PingData {
    pub account_id: u32,
}

/// A command as the character server reads it off a connection.
#[derive(Clone, Debug, PartialEq, Eq)]
pub enum CharCommand {
    /// The hello of a client, with its opcode.
    Auth(u16, AuthData),
    /// A liveness ping, with its opcode.
    Ping(u16, PingData),
    /// An opcode that the character server does not know, with everything
    /// that followed it.
    Unknown(u16, Vec<u8>),
    /// The peer has closed the connection.
    Disconnected,
}

/// A command of the character server as a mathematical value.
pub ghost enum CharCommandView {
    Auth(u16, AuthData),
    Ping(u16, PingData),
    Unknown(u16, Seq<u8>),
    Disconnected,
}

impl View for CharCommand {
    type V = CharCommandView;

    open spec fn view(&self) -> CharCommandView {
        match self {
            CharCommand::Auth(opcode, data) => CharCommandView::Auth(*opcode, *data),
            CharCommand::Ping(opcode, data) => CharCommandView::Ping(*opcode, *data),
            CharCommand::Unknown(opcode, payload) => CharCommandView::Unknown(*opcode, payload@),
            CharCommand::Disconnected => CharCommandView::Disconnected,
        }
    }
}

/// What the body of a hello carries: account id, two login ids, two
/// reserved bytes, gender.
pub open spec fn parse_auth_body(body: Seq<u8>) -> Result<AuthData, DecodeError> {
    if body.len() < AUTH_BODY_LEN {
        Err(DecodeError::Truncated)
    } else {
        Ok(
            AuthData {
                account_id: u32_at(body, 0) as u32,
                login_id1: u32_at(body, 4) as u32,
                login_id2: u32_at(body, 8) as u32,
                gender: gender_of(body[14]),
            },
        )
    }
}

/// What the body of a ping carries: the account id.
pub open spec fn parse_ping_body(body: Seq<u8>) -> Result<PingData, DecodeError> {
    if body.len() < PING_BODY_LEN {
        Err(DecodeError::Truncated)
    } else {
        Ok(PingData { account_id: u32_at(body, 0) as u32 })
    }
}

/// The command that `frame` carries: what was read off the connection for
/// one command, opcode first. Nothing at all means that the peer is gone.
pub open spec fn parse_char_frame(frame: Seq<u8>) -> Result<CharCommandView, DecodeError> {
    if frame.len() == 0 {
        Ok(CharCommandView::Disconnected)
    } else if frame.len() < 2 {
        Err(DecodeError::Truncated)
    } else if u16_at(frame, 0) == AUTH_COMMAND {
        match parse_auth_body(frame.skip(2)) {
            Ok(data) => Ok(CharCommandView::Auth(AUTH_COMMAND, data)),
            Err(e) => Err(e),
        }
    } else if u16_at(frame, 0) == PING_COMMAND {
        match parse_ping_body(frame.skip(2)) {
            Ok(data) => Ok(CharCommandView::Ping(PING_COMMAND, data)),
            Err(e) => Err(e),
        }
    } else {
        Ok(CharCommandView::Unknown(u16_at(frame, 0) as u16, frame.skip(2)))
    }
}

/// The answer to a hello: the account id, and nothing else.
pub open spec fn authentication_echo(account_id: u32) -> Seq<u8> {
    u32_le_bytes(account_id)
}

/// The answer to a ping: the ping opcode, then the account id.
pub open spec fn ping_echo(account_id: u32) -> Seq<u8> {
    u16_le_bytes(PING_COMMAND) + u32_le_bytes(account_id)
}

/// The reply of the character server to a command.
pub open spec fn char_command_reply(command: CharCommandView) -> ReplyView {
    match command {
        CharCommandView::Auth(_, data) => ReplyView {
            packet: authentication_echo(data.account_id),
            disposition: Disposition::KeepOpen,
        },
        CharCommandView::Ping(_, data) => ReplyView {
            packet: ping_echo(data.account_id),
            disposition: Disposition::KeepOpen,
        },
        CharCommandView::Unknown(_, _) => silent_reply(),
        CharCommandView::Disconnected => closing_reply(),
    }
}

/// Decodes the body of a hello.
pub fn parse_auth_command(body: &[u8]) -> (r: Result<AuthData, DecodeError>)
    ensures
        r == parse_auth_body(body@),
{
    if body.len() < AUTH_BODY_LEN {
        return Err(DecodeError::Truncated);
    }
    let account_id = match read_u32_le(body, 0) {
        Ok(v) => v,
        Err(e) => {
            return Err(e);
        },
    };
    let login_id1 = match read_u32_le(body, 4) {
        Ok(v) => v,
        Err(e) => {
            return Err(e);
        },
    };
    let login_id2 = match read_u32_le(body, 8) {
        Ok(v) => v,
        Err(e) => {
            return Err(e);
        },
    };
    Ok(AuthData { account_id, login_id1, login_id2, gender: gender_from_u8(body[14]) })
}

/// Decodes the body of a ping.
pub fn parse_ping_command(body: &[u8]) -> (r: Result<PingData, DecodeError>)
    ensures
        r == parse_ping_body(body@),
{
    match read_u32_le(body, 0) {
        Ok(account_id) => Ok(PingData { account_id }),
        Err(e) => Err(e),
    }
}

/// Decodes one command of the character server from what was read for it.
pub fn parse_incoming_command(frame: &[u8]) -> (r: Result<CharCommand, DecodeError>)
    ensures
        parse_char_frame(frame@) matches Ok(c) ==> r is Ok && r->Ok_0@ == c,
        parse_char_frame(frame@) matches Err(e) ==> r == Err::<CharCommand, DecodeError>(e),
{
    if frame.len() == 0 {
        return Ok(CharCommand::Disconnected);
    }
    let opcode = match read_opcode(frame) {
        Ok(opcode) => opcode,
        Err(e) => {
            return Err(e);
        },
    };
    let body = slice_subrange(frame, 2, frame.len());
    assert(body@ == frame@.skip(2));
    if opcode == AUTH_COMMAND {
        match parse_auth_command(body) {
            Ok(data) => Ok(CharCommand::Auth(opcode, data)),
            Err(e) => Err(e),
        }
    } else if opcode == PING_COMMAND {
        match parse_ping_command(body) {
            Ok(data) => Ok(CharCommand::Ping(opcode, data)),
            Err(e) => Err(e),
        }
    } else {
        let mut payload: Vec<u8> = Vec::new();
        write_bytes(&mut payload, body);
        assert(payload@ =~= body@);
        Ok(CharCommand::Unknown(opcode, payload))
    }
}

/// Builds the answer to a hello.
pub fn write_authentication_echo(account_id: u32) -> (packet: Vec<u8>)
    ensures
        packet@ == authentication_echo(account_id),
        packet@.len() == 4,
{
    let mut packet: Vec<u8> = Vec::new();
    write_u32_le(&mut packet, account_id);
    packet
}

/// Builds the answer to a ping.
pub fn write_ping_echo(account_id: u32) -> (packet: Vec<u8>)
    ensures
        packet@ == ping_echo(account_id),
        packet@.len() == 6,
{
    let mut packet: Vec<u8> = Vec::new();
    write_u16_le(&mut packet, PING_COMMAND);
    write_u32_le(&mut packet, account_id);
    packet
}

/// Answers one command of the character server. An unknown opcode gets no
/// answer and never closes the connection; only a peer that is gone does.
pub fn handle_char_command(command: &CharCommand) -> (reply: Reply)
    ensures
        reply@ == char_command_reply(command@),
        command is Unknown ==> reply@ == silent_reply(),
        reply.disposition == Disposition::Close <==> command is Disconnected,
{
    match command {
        CharCommand::Auth(_, data) => Reply {
            packet: write_authentication_echo(data.account_id),
            disposition: Disposition::KeepOpen,
        },
        CharCommand::Ping(_, data) => Reply {
            packet: write_ping_echo(data.account_id),
            disposition: Disposition::KeepOpen,
        },
        CharCommand::Unknown(_, _) => Reply {
            packet: Vec::new(),
            disposition: Disposition::KeepOpen,
        },
        CharCommand::Disconnected => Reply { packet: Vec::new(), disposition: Disposition::Close },
    }
}

/// Handles what was read off a connection for one command: decodes it and
/// answers it. An error is fatal to the connection.
pub fn handle_char_stream(frame: &[u8]) -> (r: Result<Reply, DecodeError>)
    ensures
        parse_char_frame(frame@) matches Ok(c) ==> r is Ok && r->Ok_0@ == char_command_reply(c),
        parse_char_frame(frame@) matches Err(e) ==> r == Err::<Reply, DecodeError>(e),
        frame@.len() >= 2 && u16_at(frame@, 0) != AUTH_COMMAND && u16_at(frame@, 0) != PING_COMMAND
            ==> r is Ok && r->Ok_0@ == silent_reply(),
{
    match parse_incoming_command(frame) {
        Ok(command) => Ok(handle_char_command(&command)),
        Err(e) => Err(e),
    }
}

} // verus!
