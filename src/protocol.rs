//! Message bodies of the rendezvous API, exchanged as JSON between the peers
//! and the server.
use vstd::prelude::*;

verus! {

/// Host -> server: opens a session with the host's offer.
#[derive(Clone, Debug, PartialEq, Eq)]
pub struct HostCreate {
    pub connection_details: String,
    pub compression_level: u8,
    pub password: String,
}

/// Server -> host: the code under which the session was registered.
#[derive(Clone, Debug, PartialEq, Eq)]
pub struct HostCreateResult {
    pub code: String,
}

/// Server -> host: the client's answer, delivered by the long poll.
#[derive(Clone, Debug, PartialEq, Eq)]
pub struct HostPollResult {
    pub connection_details: String,
}

/// Client -> server: asks for the host's offer of a session.
#[derive(Clone, Debug, PartialEq, Eq)]
pub struct ClientGetDetails {
    pub code: String,
    pub password: String,
}

/// Server -> client: the host's offer.
#[derive(Clone, Debug, PartialEq, Eq)]
pub struct ClientGetDetailsResult {
    pub connection_details: String,
}

/// Client -> server: publishes the client's answer to a session.
#[derive(Clone, Debug, PartialEq, Eq)]
pub struct ClientJoin {
    pub code: String,
    pub password: String,
    pub connection_details: String,
}

/// Server -> client: the session's metadata and the host's offer.
#[derive(Clone, Debug, PartialEq, Eq)]
pub struct ClientJoinResult {
    pub compression_level: u8,
    pub has_password: bool,
    pub connection_details: String,
}

/// Outcome of one call of the rendezvous API as a peer sees it: the decoded
/// body, or the HTTP status that the server answered with.
#[derive(Debug, PartialEq, Eq)]
pub enum ApiServiceMessage {
    HostCreate(Result<HostCreateResult, u16>),
    HostPoll(Result<HostPollResult, u16>),
    ClientDetails(Result<ClientGetDetailsResult, u16>),
    ClientJoin(Result<ClientJoinResult, u16>),
}

} // verus!
