use ragnarok_auth::account::{AuthErrorReason, AuthResult, BanReason, Gender};
use ragnarok_auth::codec::DecodeError;
use ragnarok_auth::listing::get_login_character_servers_list_packet;
use ragnarok_auth::login::{
    answer_auth_result, answer_credential, decode_auth_result, handle_login_attempt, handle_login_command,
    handle_login_stream, login_reply, parse_login_command, session_token, write_login_auth_error,
    write_login_authenticate_success, write_login_banned, LoginCommand, ERROR_PACKET_LEN,
    SUCCESS_HEADER_LEN,
};
use ragnarok_auth::credential::Credential;
use ragnarok_auth::reply::{Disposition, Reply};

fn login_body(username: &str, password: &str) -> Vec<u8> {
    let mut out: Vec<u8> = vec![20, 0, 0, 0];
    let mut name: Vec<u8> = username.as_bytes().to_vec();
    name.resize(24, 0);
    let mut pass: Vec<u8> = password.as_bytes().to_vec();
    pass.resize(24, 0);
    out.extend(name);
    out.extend(pass);
    out.push(0);
    out
}

fn login_frame(username: &str, password: &str) -> Vec<u8> {
    let mut out: Vec<u8> = vec![0x64, 0x00];
    out.extend(login_body(username, password));
    out
}

fn expected_success_packet() -> Vec<u8> {
    let mut out: Vec<u8> = vec![0xc4, 0x0a, 224, 0];
    out.extend([0x09, 0x68, 0x26, 0x1d]);
    out.extend([0x1d, 0xbb, 0x5d, 0x00]);
    out.extend([0u8; 4]);
    out.extend([0u8; 4]);
    out.extend([0u8; 26]);
    out.push(0);
    out.extend(b"TPZMgc02C0iARyrU");
    out.push(0);
    out.extend(get_login_character_servers_list_packet());
    out
}

#[test]
fn error_packet_is_byte_exact() {
    let mut expected: Vec<u8> = vec![0x6a, 0x00, 0x01];
    expected.extend([0u8; 20]);
    assert_eq!(write_login_auth_error(AuthErrorReason::InvalidCredentials), expected);
    assert_eq!(expected.len(), ERROR_PACKET_LEN);
    assert_eq!(write_login_auth_error(AuthErrorReason::ServerOverpopulated)[2], 7);
}

#[test]
fn banned_packet_is_byte_exact() {
    assert_eq!(write_login_banned(BanReason::Unlisted(26)), vec![0x81, 0x00, 26]);
    assert_eq!(write_login_banned(BanReason::Disconnected), vec![0x81, 0x00, 0]);
    assert_eq!(write_login_banned(BanReason::SessionExists), vec![0x81, 0x00, 8]);
}

#[test]
fn session_token_bytes() {
    assert_eq!(&session_token(), b"TPZMgc02C0iARyrU");
}

#[test]
fn success_packet_is_byte_exact() {
    let packet = write_login_authenticate_success(
        0x005dbb1d,
        0x1d266809,
        0,
        Gender::Male,
        &session_token(),
        &get_login_character_servers_list_packet(),
    )
    .unwrap();
    assert_eq!(packet.len(), 224);
    assert_eq!(packet, expected_success_packet());
}

#[test]
fn success_packet_declares_its_own_length() {
    for listings in [0usize, 1, 2, 5] {
        let list: Vec<u8> = vec![0xab; 160 * listings];
        let packet = write_login_authenticate_success(
            1,
            2,
            3,
            Gender::Female,
            &[7u8; 16],
            &list,
        )
        .unwrap();
        assert_eq!(packet.len(), SUCCESS_HEADER_LEN + 160 * listings);
        let declared = u16::from_le_bytes([packet[2], packet[3]]) as usize;
        assert_eq!(declared, packet.len());
        assert_eq!(&packet[64..], &list[..]);
        assert_eq!(packet[46], 1);
        assert_eq!(&packet[47..63], &[7u8; 16]);
    }
}

#[test]
fn success_packet_that_is_too_long_is_refused() {
    let fits: Vec<u8> = vec![0; 65535 - 64];
    let packet =
        write_login_authenticate_success(1, 2, 3, Gender::Male, &[0u8; 16], &fits).unwrap();
    assert_eq!(packet.len(), 65535);
    assert_eq!(&packet[2..4], &[0xff, 0xff]);
    let too_long: Vec<u8> = vec![0; 65535 - 63];
    assert_eq!(
        write_login_authenticate_success(1, 2, 3, Gender::Male, &[0u8; 16], &too_long),
        None
    );
}

#[test]
fn accepted_login_is_answered_with_one_success_packet() {
    for password in ["", "secret", "000failpasswor", "000fai"] {
        let reply = handle_login_attempt(&login_body("alice", password)).unwrap();
        assert_eq!(reply.packet, expected_success_packet());
        assert_eq!(reply.disposition, Disposition::KeepOpen);
        let declared = u16::from_le_bytes([reply.packet[2], reply.packet[3]]) as usize;
        assert_eq!(declared, 64 + 160);
        assert_eq!(declared, reply.packet.len());
    }
}

#[test]
fn invalid_sentinel_gets_the_error_packet_and_stays_open() {
    let reply = handle_login_attempt(&login_body("alice", "000failpassword")).unwrap();
    let mut expected: Vec<u8> = vec![0x6a, 0x00, 0x01];
    expected.extend([0u8; 20]);
    assert_eq!(reply.packet.len(), 23);
    assert_eq!(reply.packet, expected);
    assert_eq!(reply.disposition, Disposition::KeepOpen);
}

#[test]
fn banned_sentinel_gets_the_ban_packet_and_is_closed() {
    let reply = handle_login_attempt(&login_body("alice", "000fail")).unwrap();
    assert_eq!(reply.packet, vec![0x81, 0x00, 26]);
    assert_eq!(reply.disposition, Disposition::Close);
}

#[test]
fn malformed_login_body_is_fatal() {
    assert_eq!(handle_login_attempt(&[1, 2, 3]), Err(DecodeError::Truncated));
    let mut body = login_body("alice", "secret");
    body[4] = 0xff;
    assert_eq!(handle_login_attempt(&body), Err(DecodeError::InvalidText));
}

#[test]
fn answer_credential_matches_the_handler() {
    let credential = Credential {
        protocol_version: 20,
        username: "alice".to_string(),
        password: "000fail".to_string(),
        trailing_flag: 0,
    };
    assert_eq!(
        answer_credential(&credential),
        Reply { packet: vec![0x81, 0x00, 26], disposition: Disposition::Close }
    );
}

#[test]
fn answer_auth_result_uses_the_issued_token_and_list() {
    let success = AuthResult::Success {
        account_id: 0x005dbb1d,
        login_id1: 0x1d266809,
        login_id2: 0,
        gender: Gender::Male,
    };
    assert_eq!(
        answer_auth_result(success),
        Reply { packet: expected_success_packet(), disposition: Disposition::KeepOpen }
    );
    assert_eq!(
        answer_auth_result(AuthResult::Banned { reason: BanReason::ServerClosed }),
        Reply { packet: vec![0x81, 0x00, 1], disposition: Disposition::Close }
    );
}

#[test]
fn login_reply_for_each_outcome() {
    let token = session_token();
    let list = get_login_character_servers_list_packet();
    let success = AuthResult::Success {
        account_id: 0x005dbb1d,
        login_id1: 0x1d266809,
        login_id2: 0,
        gender: Gender::Male,
    };
    assert_eq!(
        login_reply(success, &token, &list),
        Some(Reply { packet: expected_success_packet(), disposition: Disposition::KeepOpen })
    );
    assert_eq!(
        login_reply(AuthResult::InvalidCredentials, &token, &list).unwrap().disposition,
        Disposition::KeepOpen
    );
    assert_eq!(
        login_reply(AuthResult::Banned { reason: BanReason::AccountSuspended }, &token, &list),
        Some(Reply { packet: vec![0x81, 0x00, 11], disposition: Disposition::Close })
    );
    let too_long: Vec<u8> = vec![0; 70000];
    assert_eq!(login_reply(success, &token, &too_long), None);
    assert!(login_reply(AuthResult::InvalidCredentials, &token, &too_long).is_some());
}

#[test]
fn auth_result_round_trip() {
    let token = session_token();
    let list = get_login_character_servers_list_packet();
    let mut samples: Vec<AuthResult> = vec![
        AuthResult::InvalidCredentials,
        AuthResult::Success { account_id: 0, login_id1: 0, login_id2: 0, gender: Gender::Male },
        AuthResult::Success {
            account_id: 0x11223344,
            login_id1: 0xffffffff,
            login_id2: 0x01020304,
            gender: Gender::Female,
        },
    ];
    for code in 0u8..=255 {
        samples.push(AuthResult::Banned { reason: BanReason::from_code(code) });
    }
    for result in samples {
        let reply = login_reply(result, &token, &list).unwrap();
        assert_eq!(decode_auth_result(&reply.packet), Ok(result));
    }
}

#[test]
fn decode_auth_result_rejects_malformed_packets() {
    assert_eq!(decode_auth_result(&[]), Err(DecodeError::Truncated));
    assert_eq!(decode_auth_result(&[0x6a]), Err(DecodeError::Truncated));
    assert_eq!(decode_auth_result(&[0x6a, 0x00, 0x01]), Err(DecodeError::Truncated));
    assert_eq!(decode_auth_result(&[0x81, 0x00]), Err(DecodeError::Truncated));
    assert_eq!(decode_auth_result(&[0x64, 0x00, 0x00]), Err(DecodeError::Unsupported));
    let mut other_reason: Vec<u8> = vec![0x6a, 0x00, 0x04];
    other_reason.extend([0u8; 20]);
    assert_eq!(decode_auth_result(&other_reason), Err(DecodeError::Unsupported));
    let mut success = expected_success_packet();
    assert_eq!(decode_auth_result(&success[..63]), Err(DecodeError::Truncated));
    assert_eq!(decode_auth_result(&success[..100]), Err(DecodeError::LengthMismatch));
    success[2] = 225;
    assert_eq!(decode_auth_result(&success), Err(DecodeError::LengthMismatch));
}

#[test]
fn login_command_is_parsed_from_a_frame() {
    let command = parse_login_command(&login_frame("alice", "secret")).unwrap();
    assert_eq!(
        command,
        LoginCommand::Auth(
            0x0064,
            Credential {
                protocol_version: 20,
                username: "alice".to_string(),
                password: "secret".to_string(),
                trailing_flag: 0,
            }
        )
    );
}

#[test]
fn unknown_login_opcode_captures_the_payload() {
    assert_eq!(
        parse_login_command(&[0x65, 0x00, 1, 2, 3]),
        Ok(LoginCommand::Unknown(0x0065, vec![1, 2, 3]))
    );
    assert_eq!(parse_login_command(&[0xff, 0xff]), Ok(LoginCommand::Unknown(0xffff, vec![])));
}

#[test]
fn empty_login_frame_is_a_disconnect() {
    assert_eq!(parse_login_command(&[]), Ok(LoginCommand::Disconnected));
    assert_eq!(
        handle_login_stream(&[]),
        Ok(Reply { packet: vec![], disposition: Disposition::Close })
    );
}

#[test]
fn half_an_opcode_is_truncated() {
    assert_eq!(parse_login_command(&[0x64]), Err(DecodeError::Truncated));
    assert_eq!(handle_login_stream(&[0x64]), Err(DecodeError::Truncated));
    assert_eq!(handle_login_stream(&[0x64, 0x00, 1, 2]), Err(DecodeError::Truncated));
}

#[test]
fn unknown_login_opcode_never_closes_the_connection() {
    for opcode in [0x0000u16, 0x0065, 0x0187, 0x0069, 0x0a4d, 0xf180, 0xffff] {
        let mut frame: Vec<u8> = opcode.to_le_bytes().to_vec();
        frame.extend([0xde, 0xad]);
        assert_eq!(
            handle_login_stream(&frame),
            Ok(Reply { packet: vec![], disposition: Disposition::KeepOpen })
        );
    }
    assert_eq!(
        handle_login_command(&LoginCommand::Unknown(0x1234, vec![1])),
        Reply { packet: vec![], disposition: Disposition::KeepOpen }
    );
}

#[test]
fn login_stream_answers_a_login_frame() {
    let reply = handle_login_stream(&login_frame("alice", "secret")).unwrap();
    assert_eq!(reply.packet, expected_success_packet());
    assert_eq!(reply.disposition, Disposition::KeepOpen);
    let refused = handle_login_stream(&login_frame("alice", "000failpassword")).unwrap();
    assert_eq!(refused.packet.len(), 23);
    assert_eq!(refused.disposition, Disposition::KeepOpen);
    let banned = handle_login_stream(&login_frame("alice", "000fail")).unwrap();
    assert_eq!(banned.packet, vec![0x81, 0x00, 26]);
    assert_eq!(banned.disposition, Disposition::Close);
}
