//! The login server: the packets it answers with, and the handler that turns
//! a login request into one of them.

use crate::account::{
    account_check, auth_error_code, ban_code, ban_reason_of, banned_password, gender_code,
    gender_from_u8, gender_of, gender_to_u8, invalid_password, verify_credential, AuthErrorReason,
    AuthResult, BanReason, Gender, BAN_CODE, GRANTED_ACCOUNT_ID, GRANTED_LOGIN_ID1,
    GRANTED_LOGIN_ID2,
};
use crate::codec::{
    lemma_u16_round_trip, lemma_u32_round_trip, read_opcode, read_u16_le, read_u32_le, u16_at,
    u16_le_bytes, u32_at, u32_le_bytes, write_bytes, write_u16_le, write_u32_le, write_u8,
    write_zeros, zeros, DecodeError,
};
use crate::command::{LOGIN_AUTH_ATTEMPT, LOGIN_BANNED, LOGIN_ERROR, LOGIN_SUCCESS};
use crate::credential::{
    parse_credential, read_login_authenticate_data, Credential, CredentialView,
};
use crate::listing::{
    get_login_character_servers_list_packet, known_character_server, lemma_known_character_server,
    listing_bytes, LISTING_LEN,
};
use crate::reply::{closing_reply, silent_reply, Disposition, Reply, ReplyView};
use vstd::prelude::*;
use vstd::slice::slice_subrange;

verus! {

/// Length in bytes of the header of a successful login reply.
pub const SUCCESS_HEADER_LEN: usize = 64;

/// Length in bytes of the reply to a refused login.
pub const ERROR_PACKET_LEN: usize = 23;

/// Length in bytes of the packet that announces a ban.
pub const BANNED_PACKET_LEN: usize = 3;

/// Length in bytes of a session token.
pub const SESSION_TOKEN_LEN: usize = 16;

/// The header of a successful login reply. `total_len` is the length of the
/// whole packet, header and server list together.
pub open spec fn success_header(
    total_len: u16,
    account_id: u32,
    login_id1: u32,
    login_id2: u32,
    gender: Gender,
    token: Seq<u8>,
) -> Seq<u8>
    recommends
        token.len() == SESSION_TOKEN_LEN,
{
    u16_le_bytes(LOGIN_SUCCESS) + u16_le_bytes(total_len) + u32_le_bytes(login_id1) + u32_le_bytes(
        account_id,
    ) + u32_le_bytes(login_id2) + zeros(4) + zeros(26) + seq![gender_code(gender)] + token
        + seq![0u8]
}

/// The reply to a successful login: the header, then the server list.
pub open spec fn success_packet(
    account_id: u32,
    login_id1: u32,
    login_id2: u32,
    gender: Gender,
    token: Seq<u8>,
    server_list: Seq<u8>,
) -> Seq<u8>
    recommends
        token.len() == SESSION_TOKEN_LEN,
        SUCCESS_HEADER_LEN + server_list.len() <= u16::MAX,
{
    success_header(
        (SUCCESS_HEADER_LEN + server_list.len()) as u16,
        account_id,
        login_id1,
        login_id2,
        gender,
        token,
    ) + server_list
}

/// The reply to a refused login: opcode, reason code, twenty zero bytes.
pub open spec fn auth_error_packet(reason: AuthErrorReason) -> Seq<u8> {
    u16_le_bytes(LOGIN_ERROR) + seq![auth_error_code(reason)] + zeros(20)
}

/// The packet that announces a ban: opcode, reason code.
pub open spec fn banned_packet(reason: BanReason) -> Seq<u8> {
    u16_le_bytes(LOGIN_BANNED) + seq![ban_code(reason)]
}

/// The packet that answers a login with `result`.
pub open spec fn auth_result_bytes(result: AuthResult, token: Seq<u8>, server_list: Seq<u8>) -> Seq<
    u8,
> {
    match result {
        AuthResult::Success { account_id, login_id1, login_id2, gender } => success_packet(
            account_id,
            login_id1,
            login_id2,
            gender,
            token,
            server_list,
        ),
        AuthResult::InvalidCredentials => auth_error_packet(AuthErrorReason::InvalidCredentials),
        AuthResult::Banned { reason } => banned_packet(reason),
    }
}

/// What becomes of the connection after a login was answered with
/// `result`: a ban closes it, anything else leaves it open.
pub open spec fn auth_result_disposition(result: AuthResult) -> Disposition {
    match result {
        AuthResult::Banned { .. } => Disposition::Close,
        _ => Disposition::KeepOpen,
    }
}

/// True when the reply to `result` can be built: the whole packet of a
/// successful login must have a length that its own length field can hold.
pub open spec fn auth_result_encodable(result: AuthResult, server_list: Seq<u8>) -> bool {
    result is Success ==> SUCCESS_HEADER_LEN + server_list.len() <= u16::MAX
}

/// The outcome that a reply packet reports to the client that reads it.
pub open spec fn parse_auth_result(packet: Seq<u8>) -> Result<AuthResult, DecodeError> {
    if packet.len() < 2 {
        Err(DecodeError::Truncated)
    } else if u16_at(packet, 0) == LOGIN_SUCCESS {
        if packet.len() < SUCCESS_HEADER_LEN {
            Err(DecodeError::Truncated)
        } else if u16_at(packet, 2) != packet.len() {
            Err(DecodeError::LengthMismatch)
        } else {
            Ok(
                AuthResult::Success {
                    account_id: u32_at(packet, 8) as u32,
                    login_id1: u32_at(packet, 4) as u32,
                    login_id2: u32_at(packet, 12) as u32,
                    gender: gender_of(packet[46]),
                },
            )
        }
    } else if u16_at(packet, 0) == LOGIN_ERROR {
        if packet.len() < ERROR_PACKET_LEN {
            Err(DecodeError::Truncated)
        } else if packet[2] == auth_error_code(AuthErrorReason::InvalidCredentials) {
            Ok(AuthResult::InvalidCredentials)
        } else {
            Err(DecodeError::Unsupported)
        }
    } else if u16_at(packet, 0) == LOGIN_BANNED {
        if packet.len() < BANNED_PACKET_LEN {
            Err(DecodeError::Truncated)
        } else {
            Ok(AuthResult::Banned { reason: ban_reason_of(packet[2]) })
        }
    } else {
        Err(DecodeError::Unsupported)
    }
}

/// The session token that the login server hands out.
pub open spec fn issued_token() -> Seq<u8> {
    seq![
        0x54u8, 0x50u8, 0x5au8, 0x4du8, 0x67u8, 0x63u8, 0x30u8, 0x32u8, 0x43u8, 0x30u8, 0x69u8,
        0x41u8, 0x52u8, 0x79u8, 0x72u8, 0x55u8,
    ]
}

/// The session token that the login server hands out.
pub fn session_token() -> (token: [u8; 16])
    ensures
        token@ == issued_token(),
{
    let token: [u8; 16] = [
        0x54, 0x50, 0x5a, 0x4d, 0x67, 0x63, 0x30, 0x32, 0x43, 0x30, 0x69, 0x41, 0x52, 0x79, 0x72,
        0x55,
    ];
    assert(token@ =~= issued_token());
    token
}

/// Builds the reply to a refused login.
pub fn write_login_auth_error(reason: AuthErrorReason) -> (packet: Vec<u8>)
    ensures
        packet@ == auth_error_packet(reason),
        packet@.len() == ERROR_PACKET_LEN,
{
    let mut packet: Vec<u8> = Vec::new();
    write_u16_le(&mut packet, LOGIN_ERROR);
    write_u8(&mut packet, reason.code());
    write_zeros(&mut packet, 20);
    packet
}

/// Builds the packet that announces a ban.
pub fn write_login_banned(reason: BanReason) -> (packet: Vec<u8>)
    ensures
        packet@ == banned_packet(reason),
        packet@.len() == BANNED_PACKET_LEN,
{
    let mut packet: Vec<u8> = Vec::new();
    write_u16_le(&mut packet, LOGIN_BANNED);
    write_u8(&mut packet, reason.code());
    packet
}

/// Builds the reply to a successful login: the header, with the length of
/// the whole packet in its length field, then `server_list` as it is.
/// Returns `None` when the whole would be longer than the length field can
/// say.
pub fn write_login_authenticate_success(
    account_id: u32,
    login_id1: u32,
    login_id2: u32,
    gender: Gender,
    token: &[u8; 16],
    server_list: &[u8],
) -> (r: Option<Vec<u8>>)
    ensures
        SUCCESS_HEADER_LEN + server_list@.len() > u16::MAX ==> r is None,
        SUCCESS_HEADER_LEN + server_list@.len() <= u16::MAX ==> {
            &&& r is Some
            &&& r->Some_0@ == success_packet(
                account_id,
                login_id1,
                login_id2,
                gender,
                token@,
                server_list@,
            )
            &&& r->Some_0@.len() == SUCCESS_HEADER_LEN + server_list@.len()
            &&& u16_at(r->Some_0@, 2) == r->Some_0@.len()
        },
{
    if server_list.len() > 65535 - SUCCESS_HEADER_LEN {
        return None;
    }
    let total_len: u16 = (SUCCESS_HEADER_LEN + server_list.len()) as u16;
    let mut packet: Vec<u8> = Vec::new();
    write_u16_le(&mut packet, LOGIN_SUCCESS);
    write_u16_le(&mut packet, total_len);
    write_u32_le(&mut packet, login_id1);
    write_u32_le(&mut packet, account_id);
    write_u32_le(&mut packet, login_id2);
    write_zeros(&mut packet, 4);
    write_zeros(&mut packet, 26);
    write_u8(&mut packet, gender_to_u8(gender));
    write_bytes(&mut packet, token.as_slice());
    write_u8(&mut packet, 0);
    assert(packet@.len() == SUCCESS_HEADER_LEN);
    write_bytes(&mut packet, server_list);
    proof {
        lemma_u16_round_trip(total_len);
        assert(u16_at(packet@, 2) == u16_at(u16_le_bytes(total_len), 0));
    }
    Some(packet)
}

/// Builds the reply to a login that was answered with `result`, and says
/// what becomes of the connection. Returns `None` when the packet of a
/// successful login would be longer than its length field can say.
pub fn login_reply(result: AuthResult, token: &[u8; 16], server_list: &[u8]) -> (r: Option<Reply>)
    ensures
        auth_result_encodable(result, server_list@) ==> r is Some && r->Some_0@ == (ReplyView {
            packet: auth_result_bytes(result, token@, server_list@),
            disposition: auth_result_disposition(result),
        }),
        !auth_result_encodable(result, server_list@) ==> r is None,
{
    match result {
        AuthResult::Success { account_id, login_id1, login_id2, gender } => {
            match write_login_authenticate_success(
                account_id,
                login_id1,
                login_id2,
                gender,
                token,
                server_list,
            ) {
                Some(packet) => Some(Reply { packet, disposition: Disposition::KeepOpen }),
                None => None,
            }
        },
        AuthResult::InvalidCredentials => Some(
            Reply {
                packet: write_login_auth_error(AuthErrorReason::InvalidCredentials),
                disposition: Disposition::KeepOpen,
            },
        ),
        AuthResult::Banned { reason } => Some(
            Reply { packet: write_login_banned(reason), disposition: Disposition::Close },
        ),
    }
}

/// The reply of the login server to a login with outcome `result`: the
/// packet carries the token that this server issues and its server list.
pub open spec fn login_result_reply(result: AuthResult) -> ReplyView {
    ReplyView {
        packet: auth_result_bytes(result, issued_token(), listing_bytes(known_character_server())),
        disposition: auth_result_disposition(result),
    }
}

/// The reply of the login server to a login with `password`.
pub open spec fn login_attempt_reply(password: Seq<char>) -> ReplyView {
    login_result_reply(account_check(password))
}

/// The reply of the login server to the body of a login request, or the
/// error that ends the connection when the body cannot be decoded.
pub open spec fn login_body_reply(body: Seq<u8>) -> Result<ReplyView, DecodeError> {
    match parse_credential(body) {
        Ok(credential) => Ok(login_attempt_reply(credential.password)),
        Err(e) => Err(e),
    }
}

/// Builds the reply of this server to a login with outcome `result`.
pub fn answer_auth_result(result: AuthResult) -> (reply: Reply)
    ensures
        reply@ == login_result_reply(result),
{
    let token = session_token();
    let server_list = get_login_character_servers_list_packet();
    match login_reply(result, &token, server_list.as_slice()) {
        Some(reply) => reply,
        // One listing after the header always fits the length field.
        None => Reply { packet: Vec::new(), disposition: Disposition::Close },
    }
}

/// Checks a credential with the built-in account check and builds the
/// reply.
pub fn answer_credential(credential: &Credential) -> (reply: Reply)
    ensures
        reply@ == login_attempt_reply(credential@.password),
{
    answer_auth_result(verify_credential(credential))
}

/// Handles the body of a login request: decodes the credential, checks it,
/// and builds the reply. A body that cannot be decoded is an error, and
/// fatal to the connection.
pub fn handle_login_attempt(body: &[u8]) -> (r: Result<Reply, DecodeError>)
    ensures
        login_body_reply(body@) matches Ok(reply) ==> r is Ok && r->Ok_0@ == reply,
        login_body_reply(body@) matches Err(e) ==> r == Err::<Reply, DecodeError>(e),
{
    match read_login_authenticate_data(body) {
        Ok(credential) => Ok(answer_credential(&credential)),
        Err(e) => Err(e),
    }
}

/// A command as the login server reads it off a connection.
#[derive(Clone, Debug, PartialEq, Eq)]
pub enum LoginCommand {
    /// A login request, with its opcode.
    Auth(u16, Credential),
    /// An opcode that the login server does not know, with everything that
    /// followed it.
    Unknown(u16, Vec<u8>),
    /// The peer has closed the connection.
    Disconnected,
}

/// A login command as a mathematical value.
pub ghost enum LoginCommandView {
    Auth(u16, CredentialView),
    Unknown(u16, Seq<u8>),
    Disconnected,
}

impl View for LoginCommand {
    type V = LoginCommandView;

    open spec fn view(&self) -> LoginCommandView {
        match self {
            LoginCommand::Auth(opcode, credential) => LoginCommandView::Auth(*opcode, credential@),
            LoginCommand::Unknown(opcode, payload) => LoginCommandView::Unknown(*opcode, payload@),
            LoginCommand::Disconnected => LoginCommandView::Disconnected,
        }
    }
}

/// The command that `frame` carries: what was read off the connection for
/// one command, opcode first. Nothing at all means that the peer is gone.
pub open spec fn parse_login_frame(frame: Seq<u8>) -> Result<LoginCommandView, DecodeError> {
    if frame.len() == 0 {
        Ok(LoginCommandView::Disconnected)
    } else if frame.len() < 2 {
        Err(DecodeError::Truncated)
    } else if u16_at(frame, 0) == LOGIN_AUTH_ATTEMPT {
        match parse_credential(frame.skip(2)) {
            Ok(credential) => Ok(LoginCommandView::Auth(LOGIN_AUTH_ATTEMPT, credential)),
            Err(e) => Err(e),
        }
    } else {
        Ok(LoginCommandView::Unknown(u16_at(frame, 0) as u16, frame.skip(2)))
    }
}

/// The reply of the login server to a command.
pub open spec fn login_command_reply(command: LoginCommandView) -> ReplyView {
    match command {
        LoginCommandView::Auth(_, credential) => login_attempt_reply(credential.password),
        LoginCommandView::Unknown(_, _) => silent_reply(),
        LoginCommandView::Disconnected => closing_reply(),
    }
}

/// Decodes one command of the login server from what was read for it.
pub fn parse_login_command(frame: &[u8]) -> (r: Result<LoginCommand, DecodeError>)
    ensures
        parse_login_frame(frame@) matches Ok(c) ==> r is Ok && r->Ok_0@ == c,
        parse_login_frame(frame@) matches Err(e) ==> r == Err::<LoginCommand, DecodeError>(e),
{
    if frame.len() == 0 {
        return Ok(LoginCommand::Disconnected);
    }
    let opcode = match read_opcode(frame) {
        Ok(opcode) => opcode,
        Err(e) => {
            return Err(e);
        },
    };
    let body = slice_subrange(frame, 2, frame.len());
    assert(body@ == frame@.skip(2));
    if opcode == LOGIN_AUTH_ATTEMPT {
        match read_login_authenticate_data(body) {
            Ok(credential) => Ok(LoginCommand::Auth(opcode, credential)),
            Err(e) => Err(e),
        }
    } else {
        let mut payload: Vec<u8> = Vec::new();
        write_bytes(&mut payload, body);
        assert(payload@ =~= body@);
        Ok(LoginCommand::Unknown(opcode, payload))
    }
}

/// Answers one command of the login server. An unknown opcode gets no answer
/// and never closes the connection.
pub fn handle_login_command(command: &LoginCommand) -> (reply: Reply)
    ensures
        reply@ == login_command_reply(command@),
        command is Unknown ==> reply@ == silent_reply(),
{
    match command {
        LoginCommand::Auth(_, credential) => answer_credential(credential),
        LoginCommand::Unknown(_, _) => Reply {
            packet: Vec::new(),
            disposition: Disposition::KeepOpen,
        },
        LoginCommand::Disconnected => Reply { packet: Vec::new(), disposition: Disposition::Close },
    }
}

/// Handles what was read off a connection for one command: decodes it and
/// answers it. An error is fatal to the connection.
pub fn handle_login_stream(frame: &[u8]) -> (r: Result<Reply, DecodeError>)
    ensures
        parse_login_frame(frame@) matches Ok(c) ==> r is Ok && r->Ok_0@ == login_command_reply(c),
        parse_login_frame(frame@) matches Err(e) ==> r == Err::<Reply, DecodeError>(e),
        frame@.len() >= 2 && u16_at(frame@, 0) != LOGIN_AUTH_ATTEMPT ==> r is Ok && r->Ok_0@
            == silent_reply(),
{
    match parse_login_command(frame) {
        Ok(command) => Ok(handle_login_command(&command)),
        Err(e) => Err(e),
    }
}

/// Reads the outcome of a login off the reply packet, as a client does.
pub fn decode_auth_result(packet: &[u8]) -> (r: Result<AuthResult, DecodeError>)
    ensures
        r == parse_auth_result(packet@),
{
    let opcode = match read_opcode(packet) {
        Ok(opcode) => opcode,
        Err(e) => {
            return Err(e);
        },
    };
    if opcode == LOGIN_SUCCESS {
        if packet.len() < SUCCESS_HEADER_LEN {
            return Err(DecodeError::Truncated);
        }
        let declared = match read_u16_le(packet, 2) {
            Ok(v) => v,
            Err(e) => {
                return Err(e);
            },
        };
        if declared as usize != packet.len() {
            return Err(DecodeError::LengthMismatch);
        }
        let login_id1 = match read_u32_le(packet, 4) {
            Ok(v) => v,
            Err(e) => {
                return Err(e);
            },
        };
        let account_id = match read_u32_le(packet, 8) {
            Ok(v) => v,
            Err(e) => {
                return Err(e);
            },
        };
        let login_id2 = match read_u32_le(packet, 12) {
            Ok(v) => v,
            Err(e) => {
                return Err(e);
            },
        };
        Ok(
            AuthResult::Success {
                account_id,
                login_id1,
                login_id2,
                gender: gender_from_u8(packet[46]),
            },
        )
    } else if opcode == LOGIN_ERROR {
        if packet.len() < ERROR_PACKET_LEN {
            Err(DecodeError::Truncated)
        } else if packet[2] == AuthErrorReason::InvalidCredentials.code() {
            Ok(AuthResult::InvalidCredentials)
        } else {
            Err(DecodeError::Unsupported)
        }
    } else if opcode == LOGIN_BANNED {
        if packet.len() < BANNED_PACKET_LEN {
            Err(DecodeError::Truncated)
        } else {
            Ok(AuthResult::Banned { reason: BanReason::from_code(packet[2]) })
        }
    } else {
        Err(DecodeError::Unsupported)
    }
}

/// The outcome of a login survives being sent as a reply packet and read
/// back.
pub proof fn lemma_auth_result_round_trip(result: AuthResult, token: Seq<u8>, server_list: Seq<u8>)
    requires
        result.wf(),
        token.len() == SESSION_TOKEN_LEN,
        auth_result_encodable(result, server_list),
    ensures
        parse_auth_result(auth_result_bytes(result, token, server_list)) == Ok::<
            AuthResult,
            DecodeError,
        >(result),
{
    let packet = auth_result_bytes(result, token, server_list);
    lemma_u16_round_trip(LOGIN_SUCCESS);
    lemma_u16_round_trip(LOGIN_ERROR);
    lemma_u16_round_trip(LOGIN_BANNED);
    match result {
        AuthResult::Success { account_id, login_id1, login_id2, gender } => {
            let total = (SUCCESS_HEADER_LEN + server_list.len()) as u16;
            lemma_u16_round_trip(total);
            lemma_u32_round_trip(account_id);
            lemma_u32_round_trip(login_id1);
            lemma_u32_round_trip(login_id2);
            assert(packet.len() == SUCCESS_HEADER_LEN + server_list.len());
            assert(u16_at(packet, 0) == u16_at(u16_le_bytes(LOGIN_SUCCESS), 0));
            assert(u16_at(packet, 2) == u16_at(u16_le_bytes(total), 0));
            assert(u32_at(packet, 4) == u32_at(u32_le_bytes(login_id1), 0));
            assert(u32_at(packet, 8) == u32_at(u32_le_bytes(account_id), 0));
            assert(u32_at(packet, 12) == u32_at(u32_le_bytes(login_id2), 0));
            assert(packet[46] == gender_code(gender));
        },
        AuthResult::InvalidCredentials => {
            assert(u16_at(packet, 0) == u16_at(u16_le_bytes(LOGIN_ERROR), 0));
            assert(packet[2] == 1);
        },
        AuthResult::Banned { reason } => {
            assert(u16_at(packet, 0) == u16_at(u16_le_bytes(LOGIN_BANNED), 0));
            assert(packet[2] == ban_code(reason));
        },
    }
}

/// A login request whose password is neither of the two failing ones is
/// answered with one success packet, whose length field holds the length of
/// the header and of the server list together, and the connection stays
/// open.
pub proof fn lemma_accepted_login_reply(body: Seq<u8>)
    requires
        parse_credential(body) is Ok,
        parse_credential(body)->Ok_0.password != invalid_password(),
        parse_credential(body)->Ok_0.password != banned_password(),
    ensures
        login_body_reply(body) is Ok,
        login_body_reply(body)->Ok_0.packet == success_packet(
            GRANTED_ACCOUNT_ID,
            GRANTED_LOGIN_ID1,
            GRANTED_LOGIN_ID2,
            Gender::Male,
            issued_token(),
            listing_bytes(known_character_server()),
        ),
        login_body_reply(body)->Ok_0.packet.len() == SUCCESS_HEADER_LEN + LISTING_LEN,
        u16_at(login_body_reply(body)->Ok_0.packet, 0) == LOGIN_SUCCESS,
        u16_at(login_body_reply(body)->Ok_0.packet, 2) == SUCCESS_HEADER_LEN + LISTING_LEN,
        login_body_reply(body)->Ok_0.disposition == Disposition::KeepOpen,
{
    let packet = login_body_reply(body)->Ok_0.packet;
    let total = (SUCCESS_HEADER_LEN + LISTING_LEN) as u16;
    lemma_known_character_server();
    lemma_u16_round_trip(total);
    lemma_u16_round_trip(LOGIN_SUCCESS);
    assert(u16_at(packet, 0) == u16_at(u16_le_bytes(LOGIN_SUCCESS), 0));
    assert(u16_at(packet, 2) == u16_at(u16_le_bytes(total), 0));
}

/// The two failing passwords are answered byte for byte as follows: the
/// invalid one with the 23-byte error packet, after which the connection
/// stays open, the banned one with the 3-byte ban packet, after which the
/// connection is closed.
pub proof fn lemma_refused_login_replies(body: Seq<u8>)
    requires
        parse_credential(body) is Ok,
    ensures
        parse_credential(body)->Ok_0.password == invalid_password() ==> login_body_reply(body)
            == Ok::<ReplyView, DecodeError>(
            ReplyView {
                packet: seq![0x6au8, 0x00u8, 0x01u8] + zeros(20),
                disposition: Disposition::KeepOpen,
            },
        ),
        parse_credential(body)->Ok_0.password == banned_password() ==> login_body_reply(body)
            == Ok::<ReplyView, DecodeError>(
            ReplyView { packet: seq![0x81u8, 0x00u8, BAN_CODE], disposition: Disposition::Close },
        ),
{
    reveal_strlit("000failpassword");
    reveal_strlit("000fail");
    assert(invalid_password().len() != banned_password().len());
    assert(auth_error_packet(AuthErrorReason::InvalidCredentials) =~= seq![0x6au8, 0x00u8, 0x01u8]
        + zeros(20));
    assert(banned_packet(BanReason::Unlisted(BAN_CODE)) =~= seq![0x81u8, 0x00u8, BAN_CODE]);
}

} // verus!
