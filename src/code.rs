//! Session codes: ten characters drawn from lowercase letters and digits.
use vstd::prelude::*;
use rand::Rng;

use crate::text::push_char;

verus! {

/// Number of characters in the alphabet of session codes.
pub const CODE_CHAR_COUNT: usize = 36;

/// Number of characters in a session code.
pub const CODE_LENGTH: usize = 10;

/// A character that may appear in a session code: `[a-z0-9]`.
pub open spec fn is_code_char(c: char) -> bool {
    ('a' <= c && c <= 'z') || ('0' <= c && c <= '9')
}

/// A well-formed session code: exactly ten characters of `[a-z0-9]`.
pub open spec fn is_session_code(s: Seq<char>) -> bool {
    &&& s.len() == CODE_LENGTH as nat
    &&& forall|i: int| 0 <= i < s.len() ==> #[trigger] is_code_char(s[i])
}

/// Relies on `rand::Rng::gen_range` over the thread-local generator: for a
/// non-empty range `0..bound` it returns a value inside the range (it panics
/// only on an empty range, which `requires` leaves out).
#[verifier::external_body]
fn draw_below(bound: usize) -> (r: usize)
    requires
        bound > 0,
    ensures
        r < bound,
{
    rand::thread_rng().gen_range(0..bound)
}

/// The alphabet of session codes, in order: the letters, then the digits.
pub open spec fn code_alphabet() -> Seq<char> {
    "abcdefghijklmnopqrstuvwxyz0123456789"@
}

/// The character of the code alphabet at position `idx`.
pub fn code_char(idx: usize) -> (c: char)
    requires
        idx < CODE_CHAR_COUNT,
    ensures
        c == code_alphabet()[idx as int],
        is_code_char(c),
{
    proof {
        reveal_strlit("abcdefghijklmnopqrstuvwxyz0123456789");
    }
    let alphabet: &str = "abcdefghijklmnopqrstuvwxyz0123456789";
    alphabet.get_char(idx)
}

/// Draws a fresh random session code; every outcome is a well-formed code.
pub fn generate_code() -> (code: String)
    ensures
        is_session_code(code@),
{
    let mut code = String::new();
    let mut i: usize = 0;
    while i < CODE_LENGTH
        invariant
            i <= CODE_LENGTH,
            code@.len() == i,
            forall|k: int| 0 <= k < code@.len() ==> #[trigger] is_code_char(code@[k]),
        decreases CODE_LENGTH - i,
    {
        let idx = draw_below(CODE_CHAR_COUNT);
        let c = code_char(idx);
        push_char(&mut code, c);
        i = i + 1;
    }
    code
}

} // verus!
