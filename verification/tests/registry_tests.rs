use ragnarok_auth::registry::{ConnectionRegistry, PeerAddress, Session, SessionIds};
use ragnarok_auth::session::{initial_state, login_transition, LoginAction, LoginEvent, LoginState};
use std::cell::RefCell;

fn session(id: u64) -> Session<String> {
    Session {
        id,
        peer: PeerAddress { ip: [127, 0, 0, 1], port: 40000 + id as u16 },
        handle: format!("socket-{id}"),
    }
}

#[test]
fn new_registry_is_empty() {
    let registry: ConnectionRegistry<String> = ConnectionRegistry::new();
    assert_eq!(registry.count(), 0);
    assert_eq!(registry.session_id_list(), Vec::<u64>::new());
    assert!(!registry.contains(1));
    assert!(registry.get(1).is_none());
}

#[test]
fn add_keeps_the_order_of_arrival() {
    let mut registry: ConnectionRegistry<String> = ConnectionRegistry::new();
    assert!(registry.add(session(3)).is_ok());
    assert!(registry.add(session(1)).is_ok());
    assert!(registry.add(session(2)).is_ok());
    assert_eq!(registry.count(), 3);
    assert_eq!(registry.session_id_list(), vec![3, 1, 2]);
    assert!(registry.contains(1));
    assert!(!registry.contains(4));
    assert_eq!(registry.get(2).unwrap().handle, "socket-2");
    assert_eq!(registry.get(3).unwrap().peer.port, 40003);
}

#[test]
fn add_hands_back_a_session_whose_id_is_taken() {
    let mut registry: ConnectionRegistry<String> = ConnectionRegistry::new();
    assert!(registry.add(session(1)).is_ok());
    let mut twin = session(1);
    twin.handle = "other".to_string();
    let rejected = registry.add(twin).unwrap_err();
    assert_eq!(
        rejected,
        Session {
            id: 1,
            peer: PeerAddress { ip: [127, 0, 0, 1], port: 40001 },
            handle: "other".to_string(),
        }
    );
    assert_eq!(registry.count(), 1);
    assert_eq!(registry.get(1).unwrap().handle, "socket-1");
}

#[test]
fn remove_by_id_takes_out_that_session_only() {
    let mut registry: ConnectionRegistry<String> = ConnectionRegistry::new();
    for id in [1u64, 2, 3, 4] {
        assert!(registry.add(session(id)).is_ok());
    }
    let removed = registry.remove_by_id(2).unwrap();
    assert_eq!(removed.id, 2);
    assert_eq!(removed.handle, "socket-2");
    assert_eq!(registry.session_id_list(), vec![1, 3, 4]);
    assert!(registry.remove_by_id(2).is_none());
    assert!(registry.remove_by_id(9).is_none());
    assert_eq!(registry.count(), 3);
    assert_eq!(registry.remove_by_id(4).unwrap().id, 4);
    assert_eq!(registry.remove_by_id(1).unwrap().id, 1);
    assert_eq!(registry.session_id_list(), vec![3]);
}

#[test]
fn peer_list_gives_ids_and_addresses() {
    let mut registry: ConnectionRegistry<String> = ConnectionRegistry::new();
    for id in [2u64, 9] {
        assert!(registry.add(session(id)).is_ok());
    }
    assert_eq!(
        registry.peer_list(),
        vec![
            (2, PeerAddress { ip: [127, 0, 0, 1], port: 40002 }),
            (9, PeerAddress { ip: [127, 0, 0, 1], port: 40009 })
        ]
    );
}

#[test]
fn for_each_visits_in_order() {
    let mut registry: ConnectionRegistry<String> = ConnectionRegistry::new();
    for id in [5u64, 6, 7] {
        assert!(registry.add(session(id)).is_ok());
    }
    let seen: RefCell<Vec<(u64, String)>> = RefCell::new(Vec::new());
    registry.for_each(|s: &Session<String>| seen.borrow_mut().push((s.id, s.handle.clone())));
    assert_eq!(
        seen.into_inner(),
        vec![
            (5, "socket-5".to_string()),
            (6, "socket-6".to_string()),
            (7, "socket-7".to_string())
        ]
    );
}

#[test]
fn session_ids_are_increasing() {
    let mut ids = SessionIds::new();
    assert_eq!(ids.allocate(), Some(1));
    assert_eq!(ids.allocate(), Some(2));
    assert_eq!(ids.allocate(), Some(3));
}

#[test]
fn session_ids_run_out_at_the_largest_value() {
    let mut ids = SessionIds::starting_at(u64::MAX - 1);
    assert_eq!(ids.allocate(), Some(u64::MAX - 1));
    assert_eq!(ids.allocate(), None);
    assert_eq!(ids.allocate(), None);
    let mut from_zero = SessionIds::starting_at(0);
    assert_eq!(from_zero.allocate(), Some(0));
    assert_eq!(from_zero.allocate(), Some(1));
}

#[test]
fn interleaved_connects_and_disconnects_leave_the_open_sessions() {
    let mut registry: ConnectionRegistry<String> = ConnectionRegistry::new();
    let mut ids = SessionIds::new();
    let mut open: Vec<u64> = Vec::new();
    for round in 0u64..50 {
        let a = ids.allocate().unwrap();
        let b = ids.allocate().unwrap();
        assert!(registry.add(session(a)).is_ok());
        open.push(a);
        if round % 3 == 0 && !open.is_empty() {
            let gone = open.remove(0);
            assert_eq!(registry.remove_by_id(gone).unwrap().id, gone);
        }
        assert!(registry.add(session(b)).is_ok());
        open.push(b);
        if round % 2 == 0 {
            let gone = open.pop().unwrap();
            assert_eq!(registry.remove_by_id(gone).unwrap().id, gone);
            assert!(registry.remove_by_id(gone).is_none());
        }
        assert_eq!(registry.count(), open.len());
        assert_eq!(registry.session_id_list(), open);
    }
    let mut listed = registry.session_id_list();
    listed.sort();
    listed.dedup();
    assert_eq!(listed.len(), registry.count());
    for id in open.clone() {
        assert!(registry.remove_by_id(id).is_some());
    }
    assert_eq!(registry.count(), 0);
}

fn login_body(password: &str) -> Vec<u8> {
    let mut out: Vec<u8> = vec![20, 0, 0, 0];
    let mut name: Vec<u8> = b"alice".to_vec();
    name.resize(24, 0);
    let mut pass: Vec<u8> = password.as_bytes().to_vec();
    pass.resize(24, 0);
    out.extend(name);
    out.extend(pass);
    out.push(0);
    out
}

#[test]
fn accepted_login_walks_through_the_states() {
    let state = initial_state();
    assert_eq!(state, LoginState::AwaitingCommand);
    let (state, action) = login_transition(state, &LoginEvent::Opcode(0x0064));
    assert_eq!(state, LoginState::ParsingCredential);
    assert_eq!(action, LoginAction::ReadBody(53));
    let (state, action) = login_transition(state, &LoginEvent::Body(login_body("secret")));
    assert_eq!(state, LoginState::Authenticated);
    match action {
        LoginAction::Send(packet) => {
            assert_eq!(packet.len(), 224);
            assert_eq!(&packet[..4], &[0xc4, 0x0a, 224, 0]);
        }
        other => panic!("unexpected action {other:?}"),
    }
    let (state, action) = login_transition(state, &LoginEvent::Flushed);
    assert_eq!(state, LoginState::AwaitingCommand);
    assert_eq!(action, LoginAction::ReadOpcode);
}

#[test]
fn refused_login_returns_to_waiting() {
    let (state, action) = login_transition(
        LoginState::ParsingCredential,
        &LoginEvent::Body(login_body("000failpassword")),
    );
    assert_eq!(state, LoginState::Rejected);
    let mut expected: Vec<u8> = vec![0x6a, 0x00, 0x01];
    expected.extend([0u8; 20]);
    assert_eq!(action, LoginAction::Send(expected));
    assert_eq!(
        login_transition(state, &LoginEvent::Flushed),
        (LoginState::AwaitingCommand, LoginAction::ReadOpcode)
    );
}

#[test]
fn banned_login_ends_the_connection_after_the_reply() {
    let (state, action) =
        login_transition(LoginState::ParsingCredential, &LoginEvent::Body(login_body("000fail")));
    assert_eq!(state, LoginState::Banned);
    assert_eq!(action, LoginAction::Send(vec![0x81, 0x00, 26]));
    assert_eq!(
        login_transition(state, &LoginEvent::Flushed),
        (LoginState::Closed, LoginAction::Disconnect)
    );
}

#[test]
fn unknown_opcode_keeps_waiting() {
    for opcode in [0x0000u16, 0x0065, 0x0187, 0xffff] {
        assert_eq!(
            login_transition(LoginState::AwaitingCommand, &LoginEvent::Opcode(opcode)),
            (LoginState::AwaitingCommand, LoginAction::DiscardInput(opcode))
        );
    }
}

#[test]
fn malformed_body_ends_the_connection() {
    assert_eq!(
        login_transition(LoginState::ParsingCredential, &LoginEvent::Body(vec![1, 2, 3])),
        (LoginState::Closed, LoginAction::Disconnect)
    );
    let mut body = login_body("secret");
    body[30] = 0xff;
    assert_eq!(
        login_transition(LoginState::ParsingCredential, &LoginEvent::Body(body)),
        (LoginState::Closed, LoginAction::Disconnect)
    );
}

#[test]
fn io_failure_ends_the_connection_in_every_state() {
    let states = [
        LoginState::AwaitingCommand,
        LoginState::ParsingCredential,
        LoginState::Authenticated,
        LoginState::Rejected,
        LoginState::Banned,
        LoginState::Closed,
    ];
    for state in states {
        assert_eq!(
            login_transition(state, &LoginEvent::IoFailure),
            (LoginState::Closed, LoginAction::Disconnect)
        );
    }
}

#[test]
fn closed_connection_stays_closed() {
    let events = [
        LoginEvent::Opcode(0x0064),
        LoginEvent::Body(login_body("secret")),
        LoginEvent::Flushed,
        LoginEvent::IoFailure,
    ];
    for event in events {
        assert_eq!(
            login_transition(LoginState::Closed, &event),
            (LoginState::Closed, LoginAction::Disconnect)
        );
    }
}

#[test]
fn event_out_of_turn_ends_the_connection() {
    assert_eq!(
        login_transition(LoginState::AwaitingCommand, &LoginEvent::Flushed),
        (LoginState::Closed, LoginAction::Disconnect)
    );
    assert_eq!(
        login_transition(LoginState::ParsingCredential, &LoginEvent::Opcode(0x0064)),
        (LoginState::Closed, LoginAction::Disconnect)
    );
    assert_eq!(
        login_transition(LoginState::Authenticated, &LoginEvent::Opcode(0x0064)),
        (LoginState::Closed, LoginAction::Disconnect)
    );
}
