//! The WebSocket signalling protocol: a host registers its offer and gets a
//! code; a client fetches the offer, or sends its answer to be forwarded.
use vstd::prelude::*;

use crate::text::same_text;

verus! {

/// Page -> server: a host's registration or a client's request.
#[derive(Clone, Debug, PartialEq, Eq)]
pub enum SessionDetails {
    SessionHost(SessionHost),
    SessionClient(SessionClient),
}

/// A host's offer, compression level and password.
#[derive(Clone, Debug, PartialEq, Eq)]
pub struct SessionHost {
    pub offer: String,
    pub compression: u8,
    pub password: String,
}

/// A client's request.
#[derive(Clone, Debug, PartialEq, Eq)]
pub enum SessionClient {
    SessionFetchOffer(SessionFetchOffer),
    SessionAnswer(SessionAnswer),
}

/// Asks for the offer of the session `code`.
#[derive(Clone, Debug, PartialEq, Eq)]
pub struct SessionFetchOffer {
    pub code: String,
    pub password: String,
}

/// Sends the client's answer to the host of the session `code`.
#[derive(Clone, Debug, PartialEq, Eq)]
pub struct SessionAnswer {
    pub code: String,
    pub password: String,
    pub answer: String,
}

/// Server -> host.
#[derive(Clone, Debug, PartialEq, Eq)]
pub enum SessionHostResult {
    SessionCode(SessionCode),
    SessionAnswerForward(SessionAnswerForward),
}

/// The code the host's session was registered under.
#[derive(Clone, Debug, PartialEq, Eq)]
pub struct SessionCode {
    pub code: String,
}

/// A client's answer, forwarded to the host.
#[derive(Clone, Debug, PartialEq, Eq)]
pub struct SessionAnswerForward {
    pub answer: String,
}

/// Server -> client: the outcome of a request.
#[derive(Clone, Debug, PartialEq, Eq)]
pub struct SessionCheck {
    pub result: SessionCheckResult,
}

/// The outcome of a client's request.
#[derive(Clone, Debug, PartialEq, Eq)]
pub enum SessionCheckResult {
    Success(SessionHost),
    WrongPassword,
    NotFound,
}

/// The code and password that a client's request names.
pub fn extract_code_and_password(session_client: &SessionClient) -> (r: (String, String))
    ensures
        match session_client {
            SessionClient::SessionFetchOffer(f) => r.0@ == f.code@ && r.1@ == f.password@,
            SessionClient::SessionAnswer(a) => r.0@ == a.code@ && r.1@ == a.password@,
        },
{
    match session_client {
        SessionClient::SessionFetchOffer(f) => (f.code.clone(), f.password.clone()),
        SessionClient::SessionAnswer(a) => (a.code.clone(), a.password.clone()),
    }
}

/// The outcome of a client's request with `password` on a session whose host
/// registered `host` (nothing, when the host has not registered yet): the
/// host's registration when the password is right.
pub fn determine_session_result(host: Option<&SessionHost>, password: &str) -> (r:
    SessionCheckResult)
    ensures
        match host {
            None => r == SessionCheckResult::NotFound,
            Some(h) => if h.password@ == password@ {
                r matches SessionCheckResult::Success(s) && s.offer@ == h.offer@ && s.compression
                    == h.compression && s.password@ == h.password@
            } else {
                r == SessionCheckResult::WrongPassword
            },
        },
{
    match host {
        None => SessionCheckResult::NotFound,
        Some(h) => {
            if same_text(h.password.as_str(), password) {
                SessionCheckResult::Success(
                    SessionHost {
                        offer: h.offer.clone(),
                        compression: h.compression,
                        password: h.password.clone(),
                    },
                )
            } else {
                SessionCheckResult::WrongPassword
            }
        },
    }
}

/// What the server knows of one connected page: the code it handed out to it
/// and the host registration it made, once it made one.
#[derive(Clone, Debug, PartialEq, Eq)]
pub struct Registration {
    pub code: Option<String>,
    pub details: Option<SessionHost>,
}

/// Whether `r` holds the code `code`.
pub open spec fn has_code(r: Registration, code: Seq<char>) -> bool {
    r.code is Some && r.code->0@ == code
}

/// The first registration that holds `code`.
pub fn find_wanted_connection(code: &str, registrations: &Vec<Registration>) -> (r: Option<usize>)
    ensures
        match r {
            Some(i) => i < registrations@.len() && has_code(registrations@[i as int], code@) && forall|
                k: int,
            | 0 <= k < i ==> !has_code(#[trigger] registrations@[k], code@),
            None => forall|k: int|
                0 <= k < registrations@.len() ==> !has_code(#[trigger] registrations@[k], code@),
        },
{
    let mut i: usize = 0;
    while i < registrations.len()
        invariant
            i <= registrations@.len(),
            forall|k: int| 0 <= k < i ==> !has_code(#[trigger] registrations@[k], code@),
        decreases registrations@.len() - i,
    {
        match &registrations[i].code {
            Some(c) => {
                if same_text(c.as_str(), code) {
                    return Some(i);
                }
            },
            None => {},
        }
        i = i + 1;
    }
    None
}

/// The server's handling of a client's request over the registrations of the
/// connected pages: the outcome for the client and, for an answer that named
/// a session and its right password, the page of the host that the answer is
/// forwarded to.
pub fn process_session_client(registrations: &Vec<Registration>, session_client: &SessionClient) -> (r:
    (SessionCheck, Option<(usize, SessionAnswerForward)>))
    ensures
        ({
            let code = match session_client {
                SessionClient::SessionFetchOffer(f) => f.code@,
                SessionClient::SessionAnswer(a) => a.code@,
            };
            let password = match session_client {
                SessionClient::SessionFetchOffer(f) => f.password@,
                SessionClient::SessionAnswer(a) => a.password@,
            };
            let found = exists|k: int|
                0 <= k < registrations@.len() && has_code(#[trigger] registrations@[k], code);
            &&& !found ==> r.0.result == SessionCheckResult::NotFound && r.1 is None
            &&& found ==> exists|i: int|
                0 <= i < registrations@.len() && has_code(registrations@[i], code) && (forall|
                    k: int,
                | 0 <= k < i ==> !has_code(#[trigger] registrations@[k], code)) && {
                    let reg = registrations@[i];
                    &&& reg.details is None ==> r.0.result == SessionCheckResult::NotFound
                    &&& reg.details is Some && reg.details->0.password@ != password ==> r.0.result
                        == SessionCheckResult::WrongPassword
                    &&& reg.details is Some && reg.details->0.password@ == password ==> (r.0.result
                        matches SessionCheckResult::Success(h) && h.offer@ == reg.details->0.offer@
                        && h.compression == reg.details->0.compression)
                    &&& r.1 is Some <==> (reg.details is Some && reg.details->0.password@
                        == password && session_client is SessionAnswer)
                    &&& r.1 is Some ==> (r.1->0).0 == i && match session_client {
                        SessionClient::SessionAnswer(a) => (r.1->0).1.answer@ == a.answer@,
                        _ => false,
                    }
                }
        }),
{
    let (code, password) = extract_code_and_password(session_client);
    match find_wanted_connection(code.as_str(), registrations) {
        None => (SessionCheck { result: SessionCheckResult::NotFound }, None),
        Some(i) => {
            let result = determine_session_result(registrations[i].details.as_ref(), password.as_str());
            let forward = match (&result, session_client) {
                (SessionCheckResult::Success(_), SessionClient::SessionAnswer(a)) => Some(
                    (i, SessionAnswerForward { answer: a.answer.clone() }),
                ),
                _ => None,
            };
            (SessionCheck { result }, forward)
        },
    }
}

} // verus!
