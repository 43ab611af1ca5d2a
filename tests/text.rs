use filelink::client_flow::{extract_code_from_link, current_state, details_need_password, poll_response_action, ClientState, PollAction};
use filelink::page::{get_host_address, next_slider_id};
use filelink::file_tag::convert_bytes_to_readable_format;
use filelink::request::unescape_quotes;
use filelink::signal::{create_encoded_offer, decode_connection_details, OfferError};
use filelink::ws_signal::{
    determine_session_result, extract_code_and_password, find_wanted_connection,
    process_session_client, Registration, SessionAnswer, SessionCheckResult, SessionClient,
    SessionFetchOffer, SessionHost,
};
use filelink::file_tag::FileTag;

#[test]
fn readable_sizes() {
    assert_eq!(convert_bytes_to_readable_format(0), "0 Bytes");
    assert_eq!(convert_bytes_to_readable_format(1023), "1023 Bytes");
    assert_eq!(convert_bytes_to_readable_format(1024), "1.00 KB");
    assert_eq!(convert_bytes_to_readable_format(1536), "1.50 KB");
    assert_eq!(convert_bytes_to_readable_format(1152), "1.12 KB");
    assert_eq!(convert_bytes_to_readable_format(1408), "1.38 KB");
    assert_eq!(convert_bytes_to_readable_format(1160), "1.13 KB");
    assert_eq!(convert_bytes_to_readable_format(131073), "128.00 KB");
    assert_eq!(convert_bytes_to_readable_format(5 * 1024 * 1024 + 1024 * 1024 / 4), "5.25 MB");
    assert_eq!(convert_bytes_to_readable_format(3 * 1024 * 1024 * 1024), "3.00 GB");
    assert_eq!(convert_bytes_to_readable_format(2 * 1024 * 1024 * 1024 * 1024), "2.00 TB");
}

#[test]
fn host_address_joins_host_and_port() {
    assert_eq!(get_host_address("http://localhost", 8000), "http://localhost:8000");
}

#[test]
fn slider_ids_count_up() {
    let mut c: usize = 0;
    assert_eq!(next_slider_id(&mut c), 0);
    assert_eq!(next_slider_id(&mut c), 1);
    assert_eq!(c, 2);
}

#[test]
fn quoted_body_is_unquoted_and_unescaped() {
    let body = "\"{\\\"code\\\":\\\"abc\\\"}\"";
    assert_eq!(unescape_quotes(body).unwrap(), "{\"code\":\"abc\"}");
    assert_eq!(unescape_quotes("plain").unwrap(), "plain");
    assert_eq!(unescape_quotes("\"\"").unwrap(), "");
    assert_eq!(unescape_quotes("\"bad\\q\""), None);
}

#[test]
fn connection_details_round_trip_through_base64() {
    let encoded = create_encoded_offer("abc");
    assert_eq!(encoded, "YWJj");
    assert_eq!(decode_connection_details(&encoded).unwrap(), "abc");
    assert_eq!(decode_connection_details("not base64!"), Err(OfferError::InvalidBase64));
    assert_eq!(decode_connection_details("/w=="), Err(OfferError::InvalidString));
}

#[test]
fn poll_responses() {
    assert_eq!(poll_response_action(408), PollAction::Retry);
    assert_eq!(poll_response_action(502), PollAction::Retry);
    assert_eq!(poll_response_action(200), PollAction::Deliver);
    assert_eq!(poll_response_action(403), PollAction::Fail(403));
    assert!(details_need_password(401));
    assert!(!details_need_password(404));
}

#[test]
fn client_screens() {
    assert_eq!(current_state(true, true, true, true), ClientState::Connected);
    assert_eq!(current_state(false, false, false, true), ClientState::Connect);
    assert_eq!(current_state(false, false, true, false), ClientState::Connect);
    assert_eq!(current_state(false, false, true, true), ClientState::Password);
}

#[test]
fn websocket_session_checks() {
    let host = SessionHost { offer: "o".to_string(), compression: 3, password: "p".to_string() };
    assert_eq!(determine_session_result(None, "p"), SessionCheckResult::NotFound);
    assert_eq!(determine_session_result(Some(&host), "x"), SessionCheckResult::WrongPassword);
    assert_eq!(determine_session_result(Some(&host), "p"), SessionCheckResult::Success(host.clone()));
    let client = SessionClient::SessionFetchOffer(SessionFetchOffer { code: "c".to_string(), password: "p".to_string() });
    assert_eq!(extract_code_and_password(&client), ("c".to_string(), "p".to_string()));
}

#[test]
fn share_link_gives_its_code() {
    assert_eq!(extract_code_from_link("https://example.org/receive/abc0123456"), Some("abc0123456"));
    assert_eq!(extract_code_from_link("abc0123456"), None);
    assert_eq!(extract_code_from_link("/receive/"), Some(""));
    assert_eq!(extract_code_from_link("https://example.org/send/abc"), None);
}

#[test]
fn file_tags_are_equal_by_identifier() {
    let a = FileTag::new("a".to_string(), 1, 7);
    let b = FileTag::new("b".to_string(), 2, 7);
    let c = FileTag::new("a".to_string(), 1, 8);
    assert!(a == b);
    assert!(a != c);
}

#[test]
fn websocket_answer_is_forwarded_to_the_host() {
    let host = SessionHost { offer: "o".to_string(), compression: 3, password: "p".to_string() };
    let regs = vec![
        Registration { code: None, details: None },
        Registration { code: Some("abc".to_string()), details: Some(host.clone()) },
    ];
    assert_eq!(find_wanted_connection("abc", &regs), Some(1));
    assert_eq!(find_wanted_connection("zzz", &regs), None);
    let answer = SessionClient::SessionAnswer(SessionAnswer {
        code: "abc".to_string(),
        password: "p".to_string(),
        answer: "ans".to_string(),
    });
    let (check, forward) = process_session_client(&regs, &answer);
    assert_eq!(check.result, SessionCheckResult::Success(host.clone()));
    let (to, fwd) = forward.unwrap();
    assert_eq!(to, 1);
    assert_eq!(fwd.answer, "ans");
    let wrong = SessionClient::SessionAnswer(SessionAnswer {
        code: "abc".to_string(),
        password: "x".to_string(),
        answer: "ans".to_string(),
    });
    let (check, forward) = process_session_client(&regs, &wrong);
    assert_eq!(check.result, SessionCheckResult::WrongPassword);
    assert!(forward.is_none());
    let missing = SessionClient::SessionFetchOffer(SessionFetchOffer { code: "q".to_string(), password: "p".to_string() });
    let (check, forward) = process_session_client(&regs, &missing);
    assert_eq!(check.result, SessionCheckResult::NotFound);
    assert!(forward.is_none());
}
