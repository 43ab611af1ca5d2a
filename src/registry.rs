//! The registry of live rendezvous sessions and the decisions of the four
//! endpoints of the rendezvous API.
use vstd::prelude::*;

use crate::code::{generate_code, is_session_code};
use crate::handoff::{after_publish, HandoffSlot};
use crate::protocol::{
    ClientGetDetails, ClientGetDetailsResult, ClientJoin, ClientJoinResult, HostCreate,
    HostCreateResult, HostPollResult,
};
use crate::text::same_text;

verus! {

/// How many fresh codes `create_session` draws before it gives up.
pub const CODE_ATTEMPTS: u32 = 2;

/// Identity of the peer that created a session: the address and port it
/// connected from (an IPv4 address is held in its IPv4-mapped IPv6 form).
#[derive(Clone, Copy, Debug, PartialEq, Eq, Structural)]
pub struct OwnerId {
    pub ip: u128,
    pub port: u16,
}

/// Errors of the rendezvous API.
#[derive(Clone, Copy, Debug, PartialEq, Eq, Structural)]
pub enum ApiError {
    MalformedRequest,
    Unauthorized,
    Forbidden,
    NotFound,
    PollTimeout,
    Conflict,
    Internal,
}

/// The HTTP status that stands for each error.
pub open spec fn status_of(e: ApiError) -> u16 {
    match e {
        ApiError::MalformedRequest => 400,
        ApiError::Unauthorized => 401,
        ApiError::Forbidden => 403,
        ApiError::NotFound => 404,
        ApiError::PollTimeout => 408,
        ApiError::Conflict => 409,
        ApiError::Internal => 500,
    }
}

impl ApiError {
    /// The HTTP status of the error.
    pub fn status_code(&self) -> (r: u16)
        ensures
            r == status_of(*self),
    {
        match self {
            ApiError::MalformedRequest => 400,
            ApiError::Unauthorized => 401,
            ApiError::Forbidden => 403,
            ApiError::NotFound => 404,
            ApiError::PollTimeout => 408,
            ApiError::Conflict => 409,
            ApiError::Internal => 500,
        }
    }
}

/// One step of the host's long poll.
#[derive(Debug, PartialEq, Eq)]
pub enum PollStep {
    /// The client's answer has arrived.
    Ready(HostPollResult),
    /// No answer yet: wait for the next publication, then ask again.
    Wait,
}

/// The mathematical content of a session.
pub struct SessionView {
    pub compression_level: u8,
    pub password: Seq<char>,
    pub connection_details_host: Seq<char>,
    pub address: OwnerId,
    pub handoff: Option<Seq<char>>,
}

/// A live session: what the host registered, and the slot of the answer.
#[derive(Debug)]
pub struct Session {
    pub compression_level: u8,
    pub password: String,
    pub connection_details_host: String,
    pub address: OwnerId,
    pub handoff: HandoffSlot,
}

impl View for Session {
    type V = SessionView;

    open spec fn view(&self) -> SessionView {
        SessionView {
            compression_level: self.compression_level,
            password: self.password@,
            connection_details_host: self.connection_details_host@,
            address: self.address,
            handoff: self.handoff@,
        }
    }
}

/// The session that a `create` request from `address` registers.
pub open spec fn created_session(request: HostCreate, address: OwnerId) -> SessionView {
    SessionView {
        compression_level: request.compression_level,
        password: request.password@,
        connection_details_host: request.connection_details@,
        address: address,
        handoff: None,
    }
}

/// The session `s` after the client's answer `answer` was published into it.
pub open spec fn joined_session(s: SessionView, answer: Seq<char>) -> SessionView {
    SessionView { handoff: after_publish(s.handoff, answer), ..s }
}

/// A session whose slot holds an answer keeps that answer through any later
/// join: a second client's answer never replaces the first.
pub proof fn lemma_join_keeps_answer(s: SessionView, answer: Seq<char>, later: Seq<char>)
    requires
        s.handoff == Some(answer),
    ensures
        joined_session(s, later).handoff == Some(answer),
{
}

impl Session {
    /// The session that `session_create` asks for, owned by `address`, with an
    /// empty answer slot.
    pub fn from(session_create: HostCreate, address: OwnerId) -> (s: Self)
        ensures
            s@ == created_session(session_create, address),
    {
        Session {
            compression_level: session_create.compression_level,
            password: session_create.password,
            connection_details_host: session_create.connection_details,
            address,
            handoff: HandoffSlot::new(),
        }
    }

    /// Whether a password guards the session (the empty password means none).
    pub fn has_password(&self) -> (r: bool)
        ensures
            r == (self.password@.len() > 0),
    {
        self.password.as_str().unicode_len() != 0
    }
}

/// The registry of live sessions, keyed by their codes.
pub struct SessionManager {
    codes: Vec<String>,
    sessions: Vec<Session>,
    model: Ghost<Map<Seq<char>, SessionView>>,
}

impl View for SessionManager {
    type V = Map<Seq<char>, SessionView>;

    closed spec fn view(&self) -> Map<Seq<char>, SessionView> {
        self.model@
    }
}

impl SessionManager {
    /// The registry's invariant: each key is a well-formed code, and the codes
    /// and sessions that it holds are the model's keys and values.
    pub closed spec fn wf(&self) -> bool {
        &&& self.codes.len() == self.sessions.len()
        &&& forall|i: int|
            0 <= i < self.codes.len() ==> {
                &&& #[trigger] self.model@.contains_key(self.codes[i]@)
                &&& self.model@[self.codes[i]@] == self.sessions[i]@
            }
        &&& forall|k: Seq<char>|
            #[trigger] self.model@.contains_key(k) ==> exists|i: int|
                0 <= i < self.codes.len() && self.codes[i]@ == k
        &&& forall|i: int, j: int|
            0 <= i < self.codes.len() && 0 <= j < self.codes.len() && i != j
                ==> self.codes[i]@ != self.codes[j]@
        &&& forall|k: Seq<char>| #[trigger] self.model@.contains_key(k) ==> is_session_code(k)
        &&& self.model@.dom().finite()
    }

    /// Every live session's code is a well-formed code; the model being a map,
    /// no two live sessions share a code.
    pub proof fn lemma_codes_well_formed(&self)
        requires
            self.wf(),
        ensures
            forall|k: Seq<char>| #[trigger] self@.contains_key(k) ==> is_session_code(k),
    {
    }

    /// An empty registry.
    pub fn new() -> (m: Self)
        ensures
            m.wf(),
            m@ == Map::<Seq<char>, SessionView>::empty(),
    {
        SessionManager { codes: Vec::new(), sessions: Vec::new(), model: Ghost(Map::empty()) }
    }

    /// The position of `code` in the registry.
    fn find(&self, code: &str) -> (r: Option<usize>)
        requires
            self.wf(),
        ensures
            match r {
                Some(i) => {
                    &&& i < self.codes.len()
                    &&& self.codes[i as int]@ == code@
                    &&& self@.contains_key(code@)
                    &&& self@[code@] == self.sessions[i as int]@
                },
                None => !self@.contains_key(code@),
            },
    {
        let mut i: usize = 0;
        while i < self.codes.len()
            invariant
                self.wf(),
                i <= self.codes.len(),
                forall|k: int| 0 <= k < i ==> self.codes[k]@ != code@,
            decreases self.codes.len() - i,
        {
            if same_text(self.codes[i].as_str(), code) {
                return Some(i);
            }
            i = i + 1;
        }
        None
    }

    /// Whether a session is registered under `code`.
    pub fn is_session_code_valid(&self, code: &str) -> (r: bool)
        requires
            self.wf(),
        ensures
            r == self@.contains_key(code@),
    {
        self.find(code).is_some()
    }

    /// Whether `address` created the session registered under `code`.
    pub fn is_session_owner(&self, address: &OwnerId, code: &str) -> (r: bool)
        requires
            self.wf(),
        ensures
            r == (self@.contains_key(code@) && self@[code@].address == *address),
    {
        match self.find(code) {
            Some(i) => self.sessions[i].address == *address,
            None => false,
        }
    }

    /// The session registered under `code`.
    pub fn get_session(&self, code: &str) -> (r: Option<&Session>)
        requires
            self.wf(),
        ensures
            match r {
                Some(s) => self@.contains_key(code@) && s@ == self@[code@],
                None => !self@.contains_key(code@),
            },
    {
        match self.find(code) {
            Some(i) => Some(&self.sessions[i]),
            None => None,
        }
    }

    /// The answer slot of the session registered under `code`: the state that
    /// the host's wait condition guards.
    pub fn get_condvar_details(&self, code: &str) -> (r: Option<&HandoffSlot>)
        requires
            self.wf(),
        ensures
            match r {
                Some(slot) => self@.contains_key(code@) && slot@ == self@[code@].handoff,
                None => !self@.contains_key(code@),
            },
    {
        match self.find(code) {
            Some(i) => Some(&self.sessions[i].handoff),
            None => None,
        }
    }

    /// The host's offer, for a request that names a live session and its
    /// password.
    pub fn get_connection_details(&self, code: &str, password: &str) -> (r: Option<
        ClientGetDetailsResult,
    >)
        requires
            self.wf(),
        ensures
            r.is_some() == (self@.contains_key(code@) && self@[code@].password == password@),
            r.is_some() ==> r->0.connection_details@ == self@[code@].connection_details_host,
    {
        match self.find(code) {
            Some(i) => {
                if same_text(self.sessions[i].password.as_str(), password) {
                    Some(
                        ClientGetDetailsResult {
                            connection_details: self.sessions[i].connection_details_host.clone(),
                        },
                    )
                } else {
                    None
                }
            },
            None => None,
        }
    }
    /// Registers the session that `session_create` asks for under `code`, owned
    /// by `address`. A code that is not well-formed, or that a live session
    /// holds already, is refused with `Internal` and nothing changes.
    pub fn create_session_with_code(
        &mut self,
        code: String,
        session_create: HostCreate,
        address: OwnerId,
    ) -> (r: Result<HostCreateResult, ApiError>)
        requires
            old(self).wf(),
        ensures
            final(self).wf(),
            r is Ok <==> (is_session_code(code@) && !old(self)@.contains_key(code@)),
            r is Ok ==> r->Ok_0.code@ == code@ && final(self)@ == old(self)@.insert(
                code@,
                created_session(session_create, address),
            ),
            r is Err ==> r->Err_0 == ApiError::Internal && final(self)@ == old(self)@,
    {
        if !well_formed_code(code.as_str()) {
            return Err(ApiError::Internal);
        }
        if self.find(code.as_str()).is_some() {
            return Err(ApiError::Internal);
        }
        let ghost old_codes = self.codes@;
        let session = Session::from(session_create, address);
        let result = HostCreateResult { code: code.clone() };
        proof {
            self.model@ = self.model@.insert(code@, session@);
        }
        self.codes.push(code);
        self.sessions.push(session);
        proof {
            assert forall|k: Seq<char>| #[trigger] self.model@.contains_key(k) implies exists|i: int|
                0 <= i < self.codes.len() && self.codes[i]@ == k by {
                if k != self.codes[self.codes.len() - 1]@ {
                    let i = choose|i: int| 0 <= i < old_codes.len() && old_codes[i]@ == k;
                    assert(self.codes[i]@ == k);
                }
            }
        }
        Ok(result)
    }

    /// Registers the session that `session_create` asks for, owned by
    /// `address`, under a fresh random code. When every code drawn is taken the
    /// request fails with `Internal` and nothing changes.
    pub fn create_session(&mut self, session_create: HostCreate, address: OwnerId) -> (r: Result<
        HostCreateResult,
        ApiError,
    >)
        requires
            old(self).wf(),
        ensures
            final(self).wf(),
            r is Ok ==> {
                &&& is_session_code(r->Ok_0.code@)
                &&& !old(self)@.contains_key(r->Ok_0.code@)
                &&& final(self)@ == old(self)@.insert(
                    r->Ok_0.code@,
                    created_session(session_create, address),
                )
            },
            r is Err ==> r->Err_0 == ApiError::Internal && final(self)@ == old(self)@,
            old(self)@.dom().len() == 0 ==> r is Ok,
    {
        let mut attempt: u32 = 0;
        while attempt < CODE_ATTEMPTS
            invariant
                self.wf(),
                self@ == old(self)@,
                self@.dom().len() == 0 ==> attempt == 0,
            decreases CODE_ATTEMPTS - attempt,
        {
            let code = generate_code();
            if !self.is_session_code_valid(code.as_str()) {
                return self.create_session_with_code(code, session_create, address);
            }
            proof {
                if self@.dom().len() == 0 {
                    self@.dom().lemma_len0_is_empty();
                    assert(self@.dom().contains(code@));
                }
            }
            attempt = attempt + 1;
        }
        Err(ApiError::Internal)
    }

    /// The `details` endpoint: the host's offer, for the right code and
    /// password.
    pub fn get_session_details(&self, request: &ClientGetDetails) -> (r: Result<
        ClientGetDetailsResult,
        ApiError,
    >)
        requires
            self.wf(),
        ensures
            !self@.contains_key(request.code@) <==> r == Err::<ClientGetDetailsResult, ApiError>(
                ApiError::NotFound,
            ),
            self@.contains_key(request.code@) && self@[request.code@].password != request.password@
                <==> r == Err::<ClientGetDetailsResult, ApiError>(ApiError::Unauthorized),
            r is Ok <==> self@.contains_key(request.code@) && self@[request.code@].password
                == request.password@,
            r is Ok ==> r->Ok_0.connection_details@ == self@[request.code@].connection_details_host,
    {
        if !self.is_session_code_valid(request.code.as_str()) {
            return Err(ApiError::NotFound);
        }
        match self.get_connection_details(request.code.as_str(), request.password.as_str()) {
            Some(result) => Ok(result),
            None => Err(ApiError::Unauthorized),
        }
    }

    /// The `join` endpoint: publishes the client's answer into the session's
    /// slot and hands back the session's metadata and the host's offer. An
    /// unknown code gives `NotFound`, a wrong password `Unauthorized`, and a
    /// slot that holds an answer already `Conflict`; on each error nothing
    /// changes.
    pub fn join_session(&mut self, request: ClientJoin) -> (r: Result<ClientJoinResult, ApiError>)
        requires
            old(self).wf(),
        ensures
            final(self).wf(),
            !old(self)@.contains_key(request.code@) <==> r == Err::<ClientJoinResult, ApiError>(
                ApiError::NotFound,
            ),
            old(self)@.contains_key(request.code@) && old(self)@[request.code@].password
                != request.password@ <==> r == Err::<ClientJoinResult, ApiError>(
                ApiError::Unauthorized,
            ),
            old(self)@.contains_key(request.code@) && old(self)@[request.code@].password
                == request.password@ && old(self)@[request.code@].handoff is Some
                <==> r == Err::<ClientJoinResult, ApiError>(ApiError::Conflict),
            r is Ok <==> old(self)@.contains_key(request.code@) && old(self)@[request.code@].password
                == request.password@ && old(self)@[request.code@].handoff is None,
            r is Err ==> final(self)@ == old(self)@,
            r is Ok ==> {
                let s = old(self)@[request.code@];
                &&& r->Ok_0.compression_level == s.compression_level
                &&& r->Ok_0.has_password == (s.password.len() > 0)
                &&& r->Ok_0.connection_details@ == s.connection_details_host
                &&& final(self)@ == old(self)@.insert(
                    request.code@,
                    joined_session(s, request.connection_details@),
                )
            },
    {
        let i = match self.find(request.code.as_str()) {
            Some(i) => i,
            None => {
                return Err(ApiError::NotFound);
            },
        };
        if !same_text(self.sessions[i].password.as_str(), request.password.as_str()) {
            return Err(ApiError::Unauthorized);
        }
        if self.sessions[i].handoff.is_filled() {
            return Err(ApiError::Conflict);
        }
        let result = ClientJoinResult {
            compression_level: self.sessions[i].compression_level,
            has_password: self.sessions[i].has_password(),
            connection_details: self.sessions[i].connection_details_host.clone(),
        };
        let ghost old_sessions = self.sessions@;
        let ghost old_model = self.model@;
        assert(forall|j: int| 0 <= j < self.codes.len() ==> old_model.contains_key(self.codes[j]@)
            && old_model[self.codes[j]@] == old_sessions[j]@);
        let mut session = self.sessions.remove(i);
        let _ = session.handoff.publish(request.connection_details);
        self.sessions.insert(i, session);
        proof {
            self.model@ = self.model@.insert(request.code@, self.sessions[i as int]@);
            assert forall|j: int| 0 <= j < self.codes.len() implies {
                &&& #[trigger] self.model@.contains_key(self.codes[j]@)
                &&& self.model@[self.codes[j]@] == self.sessions[j]@
            } by {
                if j != i {
                    assert(self.sessions[j] == old_sessions[j]);
                    assert(self.codes[j]@ != self.codes[i as int]@);
                    assert(old_model.contains_key(self.codes[j]@));
                }
            }
        }
        Ok(result)
    }

    /// One step of the host's long poll on `code`: `NotFound` for an unknown
    /// code, `Forbidden` for a caller that did not create the session, the
    /// answer once it is there, and otherwise `Wait`, or `PollTimeout` once the
    /// poll's deadline has passed.
    pub fn poll_session(&self, address: &OwnerId, code: &str, deadline_passed: bool) -> (r: Result<
        PollStep,
        ApiError,
    >)
        requires
            self.wf(),
        ensures
            !self@.contains_key(code@) <==> r == Err::<PollStep, ApiError>(ApiError::NotFound),
            self@.contains_key(code@) && self@[code@].address != *address <==> r == Err::<
                PollStep,
                ApiError,
            >(ApiError::Forbidden),
            self@.contains_key(code@) && self@[code@].address == *address ==> match r {
                Ok(PollStep::Ready(answer)) => self@[code@].handoff == Some(
                    answer.connection_details@,
                ),
                Ok(PollStep::Wait) => self@[code@].handoff is None && !deadline_passed,
                Err(e) => e == ApiError::PollTimeout && self@[code@].handoff is None
                    && deadline_passed,
            },
    {
        let i = match self.find(code) {
            Some(i) => i,
            None => {
                return Err(ApiError::NotFound);
            },
        };
        if self.sessions[i].address != *address {
            return Err(ApiError::Forbidden);
        }
        match self.sessions[i].handoff.answer() {
            Some(answer) => Ok(PollStep::Ready(HostPollResult { connection_details: answer })),
            None => {
                if deadline_passed {
                    Err(ApiError::PollTimeout)
                } else {
                    Ok(PollStep::Wait)
                }
            },
        }
    }

    /// Removes the session registered under `code`, if any.
    pub fn remove_session(&mut self, code: &str)
        requires
            old(self).wf(),
        ensures
            final(self).wf(),
            final(self)@ == old(self)@.remove(code@),
    {
        match self.find(code) {
            Some(i) => {
                let ghost old_codes = self.codes@;
                let ghost old_sessions = self.sessions@;
                let ghost old_model = self.model@;
                assert(forall|j: int| 0 <= j < old_codes.len() ==> old_model.contains_key(old_codes[j]@)
                    && old_model[old_codes[j]@] == old_sessions[j]@);
                self.codes.remove(i);
                self.sessions.remove(i);
                proof {
                    self.model@ = self.model@.remove(code@);
                    assert forall|j: int| 0 <= j < self.codes.len() implies {
                        &&& #[trigger] self.model@.contains_key(self.codes[j]@)
                        &&& self.model@[self.codes[j]@] == self.sessions[j]@
                    } by {
                        let oj = if j < i { j } else { j + 1 };
                        assert(self.codes[j] == old_codes[oj]);
                        assert(self.sessions[j] == old_sessions[oj]);
                        assert(old_codes[oj]@ != old_codes[i as int]@);
                        assert(old_model.contains_key(old_codes[oj]@));
                    }
                    assert forall|k: Seq<char>| #[trigger] self.model@.contains_key(k) implies exists|j: int|
                        0 <= j < self.codes.len() && self.codes[j]@ == k by {
                        let oj = choose|oj: int| 0 <= oj < old_codes.len() && old_codes[oj]@ == k;
                        let j = if oj < i { oj } else { oj - 1 };
                        assert(self.codes[j]@ == k);
                    }
                    assert forall|a: int, b: int|
                        0 <= a < self.codes.len() && 0 <= b < self.codes.len() && a != b
                        implies self.codes[a]@ != self.codes[b]@ by {
                        let oa = if a < i { a } else { a + 1 };
                        let ob = if b < i { b } else { b + 1 };
                        assert(self.codes[a] == old_codes[oa]);
                        assert(self.codes[b] == old_codes[ob]);
                    }
                }
            },
            None => {
                assert(self@.remove(code@) =~= self@);
            },
        }
    }
}

/// Whether `code` is a well-formed session code.
pub fn well_formed_code(code: &str) -> (r: bool)
    ensures
        r == is_session_code(code@),
{
    let n = code.unicode_len();
    if n != 10 {
        return false;
    }
    let mut i: usize = 0;
    while i < n
        invariant
            n == code@.len(),
            n == 10,
            i <= n,
            forall|k: int| 0 <= k < i ==> #[trigger] crate::code::is_code_char(code@[k]),
        decreases n - i,
    {
        let c = code.get_char(i);
        if !(('a' <= c && c <= 'z') || ('0' <= c && c <= '9')) {
            assert(!crate::code::is_code_char(code@[i as int]));
            return false;
        }
        i = i + 1;
    }
    true
}

} // verus!
