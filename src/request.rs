//! Request bodies as they reach the server: JSON text that the page sent as a
//! quoted, backslash-escaped JSON string.
use vstd::prelude::*;

verus! {

/// `s` without the double quotes at its start.
pub open spec fn strip_leading_quotes(s: Seq<char>) -> Seq<char>
    decreases s.len(),
{
    if s.len() > 0 && s[0] == '"' {
        strip_leading_quotes(s.drop_first())
    } else {
        s
    }
}

/// `s` without the double quotes at its end.
pub open spec fn strip_trailing_quotes(s: Seq<char>) -> Seq<char>
    decreases s.len(),
{
    if s.len() > 0 && s.last() == '"' {
        strip_trailing_quotes(s.drop_last())
    } else {
        s
    }
}

/// `s` without the double quotes at either end.
pub open spec fn trim_quotes(s: Seq<char>) -> Seq<char> {
    strip_trailing_quotes(strip_leading_quotes(s))
}

/// What the backslash escapes of `s` stand for (`\n`, `\"`, `\\`, `\u0041`,
/// ...), or nothing when an escape is malformed.
pub uninterp spec fn unescaped(s: Seq<char>) -> Option<Seq<char>>;

/// Relies on `unescape::unescape`: the text with its backslash escapes
/// replaced, `None` for a malformed escape; text without a backslash comes
/// back as it is.
#[verifier::external_body]
fn unescape_text(s: &str) -> (r: Option<String>)
    ensures
        match r {
            Some(t) => unescaped(s@) == Some(t@),
            None => unescaped(s@) is None,
        },
        !s@.contains('\\') ==> r is Some && r->0@ == s@,
{
    unescape::unescape(s)
}

/// The JSON text inside a quoted body: the surrounding double quotes are
/// dropped and the escapes resolved; `None` when an escape is malformed.
pub fn unescape_quotes(s: &str) -> (r: Option<String>)
    ensures
        match r {
            Some(t) => unescaped(trim_quotes(s@)) == Some(t@),
            None => unescaped(trim_quotes(s@)) is None,
        },
        !trim_quotes(s@).contains('\\') ==> r is Some && r->0@ == trim_quotes(s@),
{
    let n = s.unicode_len();
    let mut a: usize = 0;
    assert(s@.subrange(0, n as int) =~= s@);
    while a < n && s.get_char(a) == '"'
        invariant
            n == s@.len(),
            a <= n,
            strip_leading_quotes(s@) == strip_leading_quotes(s@.subrange(a as int, n as int)),
        decreases n - a,
    {
        assert(s@.subrange(a as int, n as int).drop_first() =~= s@.subrange(a + 1, n as int));
        a = a + 1;
    }
    assert(strip_leading_quotes(s@.subrange(a as int, n as int)) == s@.subrange(a as int, n as int));
    let mut b: usize = n;
    while b > a && s.get_char(b - 1) == '"'
        invariant
            n == s@.len(),
            a <= b <= n,
            trim_quotes(s@) == strip_trailing_quotes(s@.subrange(a as int, b as int)),
        decreases b,
    {
        assert(s@.subrange(a as int, b as int).drop_last() =~= s@.subrange(a as int, b - 1));
        b = b - 1;
    }
    let inner = s.substring_char(a, b);
    assert(strip_trailing_quotes(inner@) == inner@);
    unescape_text(inner)
}

} // verus!
