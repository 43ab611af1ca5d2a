use filelink::code::generate_code;
use filelink::protocol::{ClientGetDetails, ClientJoin, HostCreate};
use filelink::registry::{well_formed_code, ApiError, OwnerId, PollStep, SessionManager};

fn owner(a: u8, b: u8, c: u8, d: u8) -> OwnerId {
    let ip = 0xffff_0000_0000u128 | ((a as u128) << 24) | ((b as u128) << 16) | ((c as u128) << 8) | d as u128;
    OwnerId { ip, port: 40000 }
}

fn create(details: &str, level: u8, password: &str) -> HostCreate {
    HostCreate {
        connection_details: details.to_string(),
        compression_level: level,
        password: password.to_string(),
    }
}

#[test]
fn create_poll_join_delivers_answer() {
    let mut m = SessionManager::new();
    let host = owner(10, 0, 0, 1);
    let code = m.create_session(create("AAA", 9, ""), host).unwrap().code;
    assert!(well_formed_code(&code));
    assert_eq!(m.poll_session(&host, &code, false), Ok(PollStep::Wait));
    let join = ClientJoin { code: code.clone(), password: String::new(), connection_details: "BBB".to_string() };
    let joined = m.join_session(join).unwrap();
    assert_eq!(joined.compression_level, 9);
    assert!(!joined.has_password);
    assert_eq!(joined.connection_details, "AAA");
    match m.poll_session(&host, &code, false) {
        Ok(PollStep::Ready(r)) => assert_eq!(r.connection_details, "BBB"),
        other => panic!("unexpected poll result {:?}", other),
    }
}

#[test]
fn wrong_password_is_unauthorized() {
    let mut m = SessionManager::new();
    let code = m.create_session(create("AAA", 9, "secret"), owner(10, 0, 0, 1)).unwrap().code;
    let req = ClientGetDetails { code: code.clone(), password: "nope".to_string() };
    let e = m.get_session_details(&req).unwrap_err();
    assert_eq!(e, ApiError::Unauthorized);
    assert_eq!(e.status_code(), 401);
    let ok = ClientGetDetails { code, password: "secret".to_string() };
    assert_eq!(m.get_session_details(&ok).unwrap().connection_details, "AAA");
}

#[test]
fn poll_from_other_address_is_forbidden() {
    let mut m = SessionManager::new();
    let code = m.create_session(create("AAA", 9, ""), owner(10, 0, 0, 1)).unwrap().code;
    let e = m.poll_session(&owner(10, 0, 0, 2), &code, false).unwrap_err();
    assert_eq!(e, ApiError::Forbidden);
    assert_eq!(e.status_code(), 403);
}

#[test]
fn poll_timeout_then_retry_succeeds() {
    let mut m = SessionManager::new();
    let host = owner(10, 0, 0, 1);
    let code = m.create_session(create("AAA", 9, ""), host).unwrap().code;
    let e = m.poll_session(&host, &code, true).unwrap_err();
    assert_eq!(e, ApiError::PollTimeout);
    assert_eq!(e.status_code(), 408);
    let join = ClientJoin { code: code.clone(), password: String::new(), connection_details: "BBB".to_string() };
    assert!(m.join_session(join).is_ok());
    match m.poll_session(&host, &code, false) {
        Ok(PollStep::Ready(r)) => assert_eq!(r.connection_details, "BBB"),
        other => panic!("unexpected poll result {:?}", other),
    }
}

#[test]
fn empty_password_accepts_only_empty_password() {
    let mut m = SessionManager::new();
    let code = m.create_session(create("AAA", 3, ""), owner(10, 0, 0, 1)).unwrap().code;
    let bad = ClientGetDetails { code: code.clone(), password: "x".to_string() };
    assert_eq!(m.get_session_details(&bad).unwrap_err(), ApiError::Unauthorized);
    let good = ClientGetDetails { code: code.clone(), password: String::new() };
    assert_eq!(m.get_session_details(&good).unwrap().connection_details, "AAA");
    let bad_join = ClientJoin { code: code.clone(), password: "x".to_string(), connection_details: "B".to_string() };
    assert_eq!(m.join_session(bad_join).unwrap_err(), ApiError::Unauthorized);
    let good_join = ClientJoin { code, password: String::new(), connection_details: "B".to_string() };
    assert!(m.join_session(good_join).is_ok());
}

#[test]
fn unknown_code_is_not_found() {
    let mut m = SessionManager::new();
    let host = owner(10, 0, 0, 1);
    let req = ClientGetDetails { code: "abcdefghij".to_string(), password: String::new() };
    assert_eq!(m.get_session_details(&req).unwrap_err().status_code(), 404);
    assert_eq!(m.poll_session(&host, "abcdefghij", false).unwrap_err(), ApiError::NotFound);
    let join = ClientJoin { code: "abcdefghij".to_string(), password: String::new(), connection_details: "B".to_string() };
    assert_eq!(m.join_session(join).unwrap_err(), ApiError::NotFound);
}

#[test]
fn second_join_conflicts_and_keeps_first_answer() {
    let mut m = SessionManager::new();
    let host = owner(10, 0, 0, 1);
    let code = m.create_session(create("AAA", 1, "pw"), host).unwrap().code;
    let first = ClientJoin { code: code.clone(), password: "pw".to_string(), connection_details: "first".to_string() };
    let r = m.join_session(first).unwrap();
    assert!(r.has_password);
    let second = ClientJoin { code: code.clone(), password: "pw".to_string(), connection_details: "second".to_string() };
    let e = m.join_session(second).unwrap_err();
    assert_eq!(e, ApiError::Conflict);
    assert_eq!(e.status_code(), 409);
    match m.poll_session(&host, &code, true) {
        Ok(PollStep::Ready(r)) => assert_eq!(r.connection_details, "first"),
        other => panic!("unexpected poll result {:?}", other),
    }
}

#[test]
fn generated_codes_are_ten_lowercase_alphanumerics() {
    for _ in 0..50 {
        let c = generate_code();
        assert_eq!(c.chars().count(), 10);
        assert!(c.chars().all(|ch| ch.is_ascii_lowercase() || ch.is_ascii_digit()));
    }
}

#[test]
fn codes_of_live_sessions_differ() {
    let mut m = SessionManager::new();
    let mut codes = Vec::new();
    for i in 0..20u8 {
        codes.push(m.create_session(create("A", 0, ""), owner(10, 0, 0, i)).unwrap().code);
    }
    for i in 0..codes.len() {
        assert!(m.is_session_code_valid(&codes[i]));
        for j in 0..i {
            assert_ne!(codes[i], codes[j]);
        }
    }
}

#[test]
fn create_with_taken_or_malformed_code_fails() {
    let mut m = SessionManager::new();
    let host = owner(10, 0, 0, 1);
    let r = m.create_session_with_code("abc0000000".to_string(), create("A", 0, ""), host).unwrap();
    assert_eq!(r.code, "abc0000000");
    assert_eq!(
        m.create_session_with_code("abc0000000".to_string(), create("B", 0, ""), host).unwrap_err(),
        ApiError::Internal
    );
    assert_eq!(
        m.create_session_with_code("ABC0000000".to_string(), create("B", 0, ""), host).unwrap_err(),
        ApiError::Internal
    );
    assert_eq!(
        m.create_session_with_code("abc".to_string(), create("B", 0, ""), host).unwrap_err(),
        ApiError::Internal
    );
    assert!(m.is_session_owner(&host, "abc0000000"));
    assert!(!m.is_session_owner(&owner(10, 0, 0, 2), "abc0000000"));
    assert_eq!(m.get_session("abc0000000").unwrap().connection_details_host, "A");
}

#[test]
fn removed_session_is_gone() {
    let mut m = SessionManager::new();
    let host = owner(10, 0, 0, 1);
    let code = m.create_session(create("A", 0, ""), host).unwrap().code;
    m.remove_session(&code);
    assert!(!m.is_session_code_valid(&code));
    assert!(m.get_condvar_details(&code).is_none());
    assert_eq!(m.poll_session(&host, &code, false).unwrap_err(), ApiError::NotFound);
}

#[test]
fn connection_details_need_code_and_password() {
    let mut m = SessionManager::new();
    let code = m.create_session(create("offer", 0, "pw"), owner(1, 2, 3, 4)).unwrap().code;
    assert!(m.get_connection_details(&code, "bad").is_none());
    assert_eq!(m.get_connection_details(&code, "pw").unwrap().connection_details, "offer");
    assert!(m.get_connection_details("zzzzzzzzzz", "pw").is_none());
}

#[test]
fn error_statuses() {
    assert_eq!(ApiError::MalformedRequest.status_code(), 400);
    assert_eq!(ApiError::Internal.status_code(), 500);
}

#[test]
fn first_session_is_always_created() {
    let mut m = SessionManager::new();
    let host = owner(10, 0, 0, 1);
    let r = m.create_session(create("AAA", 9, ""), host).unwrap();
    let s = m.get_session(&r.code).unwrap();
    assert_eq!(s.connection_details_host, "AAA");
    assert_eq!(s.compression_level, 9);
    assert_eq!(s.password, "");
    assert_eq!(s.address, host);
    assert!(!s.handoff.is_filled());
}
