//! The command tables of the two servers: which opcodes each one knows, and
//! how long the body is that follows each of them.

use vstd::prelude::*;

verus! {

/// Opcode of a login request.
pub const LOGIN_AUTH_ATTEMPT: u16 = 0x0064;

/// Opcode of the hello that a client sends to a character server.
pub const AUTH_COMMAND: u16 = 0x0065;

/// Opcode of a liveness ping, and of its echo.
pub const PING_COMMAND: u16 = 0x0187;

/// Opcode of the reply to a successful login.
pub const LOGIN_SUCCESS: u16 = 0x0ac4;

/// Opcode of the reply to a refused login.
pub const LOGIN_ERROR: u16 = 0x006a;

/// Opcode of the packet that announces that the server closes the
/// connection.
pub const LOGIN_BANNED: u16 = 0x0081;

/// Length in bytes of an opcode.
pub const OPCODE_LEN: usize = 2;

/// Which of the two servers a command table belongs to.
#[derive(Clone, Copy, Debug, PartialEq, Eq, Structural)]
pub enum ServerKind {
    Login,
    Character,
}

/// A command with a known body layout.
#[derive(Clone, Copy, Debug, PartialEq, Eq, Structural)]
pub enum CommandKind {
    /// Login request: protocol version, user name, password, flag.
    LoginAuth,
    /// Character-server hello: account id, two login ids, two reserved
    /// bytes, gender.
    CharAuth,
    /// Liveness ping: account id.
    Ping,
}

/// The command that `opcode` names in the table of `server`, if any.
pub open spec fn command_of(server: ServerKind, opcode: u16) -> Option<CommandKind> {
    match server {
        ServerKind::Login => if opcode == LOGIN_AUTH_ATTEMPT {
            Some(CommandKind::LoginAuth)
        } else {
            None
        },
        ServerKind::Character => if opcode == AUTH_COMMAND {
            Some(CommandKind::CharAuth)
        } else if opcode == PING_COMMAND {
            Some(CommandKind::Ping)
        } else {
            None
        },
    }
}

/// Length in bytes of the body of a command.
pub open spec fn body_len_of(kind: CommandKind) -> nat {
    match kind {
        CommandKind::LoginAuth => 53,
        CommandKind::CharAuth => 15,
        CommandKind::Ping => 4,
    }
}

/// Looks `opcode` up in the command table of `server`.
pub fn lookup(server: ServerKind, opcode: u16) -> (r: Option<CommandKind>)
    ensures
        r == command_of(server, opcode),
{
    match server {
        ServerKind::Login => {
            if opcode == LOGIN_AUTH_ATTEMPT {
                Some(CommandKind::LoginAuth)
            } else {
                None
            }
        },
        ServerKind::Character => {
            if opcode == AUTH_COMMAND {
                Some(CommandKind::CharAuth)
            } else if opcode == PING_COMMAND {
                Some(CommandKind::Ping)
            } else {
                None
            }
        },
    }
}

/// Length in bytes of the body that follows the opcode of `kind`.
pub fn body_len(kind: CommandKind) -> (r: usize)
    ensures
        r == body_len_of(kind),
{
    match kind {
        CommandKind::LoginAuth => 53,
        CommandKind::CharAuth => 15,
        CommandKind::Ping => 4,
    }
}

} // verus!
