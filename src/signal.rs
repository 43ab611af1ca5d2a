//! The connection details that the peers exchange through the rendezvous: a
//! JSON bundle of the session description and the ICE candidates, carried as
//! base64 text.
use vstd::prelude::*;

verus! {

/// One ICE candidate of a peer.
#[derive(Clone, Debug, PartialEq, Eq)]
pub struct IceCandidate {
    pub candidate: String,
    pub sdp_mid: String,
    pub sdp_m_line_index: u16,
}

/// A peer's session description with its gathered ICE candidates.
#[derive(Clone, Debug, PartialEq, Eq)]
pub struct IceOfferBundle {
    pub ice_candidates: Vec<IceCandidate>,
    pub offer: String,
}

/// The same bundle under the name the older signalling used.
#[derive(Clone, Debug, PartialEq, Eq)]
pub struct ConnectionString {
    pub ice_candidates: Vec<IceCandidate>,
    pub offer: String,
}

/// Why a peer's connection details were refused.
#[derive(Clone, Copy, Debug, PartialEq, Eq, Structural)]
pub enum OfferError {
    /// Not base64 text.
    InvalidBase64,
    /// The decoded bytes are not UTF-8.
    InvalidString,
    /// The decoded text is not a bundle.
    SerializationError,
    /// The bundle's description is not JSON.
    InvalidOffer,
}

/// Events of the browser's WebSocket, as the page sees them.
#[derive(Clone, Debug, PartialEq, Eq)]
pub enum WebSocketMessage {
    Text(String),
    Open,
    Close,
    Error,
}

/// The standard base64 encoding (with padding) of the UTF-8 bytes of `s`.
pub uninterp spec fn base64_text(s: Seq<char>) -> Seq<char>;

/// The bytes that the standard base64 text `s` stands for, when it is valid.
pub uninterp spec fn base64_bytes(s: Seq<char>) -> Option<Seq<u8>>;

/// The text that the bytes `b` encode in UTF-8, when they are valid UTF-8.
pub uninterp spec fn utf8_text(b: Seq<u8>) -> Option<Seq<char>>;

/// Relies on base64's `STANDARD` engine, `Engine::encode`: the padded base64
/// text of the bytes, a function of them alone; no bytes give no text.
#[verifier::external_body]
fn encode_base64(s: &str) -> (r: String)
    ensures
        r@ == base64_text(s@),
        s@.len() == 0 ==> r@.len() == 0,
{
    base64::Engine::encode(&base64::engine::general_purpose::STANDARD, s)
}

/// Relies on base64's `STANDARD` engine, `Engine::decode`: the decoded bytes,
/// or an error for text that is not valid padded base64.
#[verifier::external_body]
fn decode_base64(s: &str) -> (r: Option<Vec<u8>>)
    ensures
        match r {
            Some(b) => base64_bytes(s@) == Some(b@),
            None => base64_bytes(s@) is None,
        },
{
    base64::Engine::decode(&base64::engine::general_purpose::STANDARD, s).ok()
}

/// Relies on `String::from_utf8`: the text of the bytes, or an error for bytes
/// that are not valid UTF-8.
#[verifier::external_body]
fn decode_utf8(b: Vec<u8>) -> (r: Option<String>)
    ensures
        match r {
            Some(t) => utf8_text(b@) == Some(t@),
            None => utf8_text(b@) is None,
        },
{
    String::from_utf8(b).ok()
}

/// The connection details that carry the JSON bundle `bundle_json`.
pub fn create_encoded_offer(bundle_json: &str) -> (r: String)
    ensures
        r@ == base64_text(bundle_json@),
{
    encode_base64(bundle_json)
}

/// The JSON bundle that connection details carry: `InvalidBase64` for text
/// that is not base64, `InvalidString` for bytes that are not UTF-8.
pub fn decode_connection_details(details: &str) -> (r: Result<String, OfferError>)
    ensures
        base64_bytes(details@) is None <==> r == Err::<String, OfferError>(
            OfferError::InvalidBase64,
        ),
        base64_bytes(details@) is Some && utf8_text(base64_bytes(details@)->0) is None
            <==> r == Err::<String, OfferError>(OfferError::InvalidString),
        r is Ok ==> base64_bytes(details@) is Some && utf8_text(base64_bytes(details@)->0)
            == Some(r->Ok_0@),
{
    let bytes = match decode_base64(details) {
        Some(b) => b,
        None => {
            return Err(OfferError::InvalidBase64);
        },
    };
    match decode_utf8(bytes) {
        Some(text) => Ok(text),
        None => Err(OfferError::InvalidString),
    }
}

} // verus!
