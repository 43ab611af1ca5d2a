//! The decisions a peer makes on the rendezvous API's answers.
use vstd::prelude::*;

verus! {

/// Which screen the client shows.
#[derive(Clone, Copy, Debug, PartialEq, Eq, Structural)]
pub enum ClientState {
    /// Asks for the session's link or code.
    Connect,
    /// Asks for the session's password.
    Password,
    /// Lists the host's files.
    Connected,
}

/// The client's screen: the file list once the channel is up and the join
/// went through; the password prompt when the server asked for a password for
/// a known code; the code prompt otherwise.
pub fn current_state(channel_connected: bool, joined: bool, password_needed: bool, has_code: bool) -> (r:
    ClientState)
    ensures
        channel_connected && joined ==> r == ClientState::Connected,
        !(channel_connected && joined) && (!password_needed || !has_code) ==> r
            == ClientState::Connect,
        !(channel_connected && joined) && password_needed && has_code ==> r
            == ClientState::Password,
{
    if channel_connected && joined {
        ClientState::Connected
    } else if !password_needed || !has_code {
        ClientState::Connect
    } else {
        ClientState::Password
    }
}

/// What the host does with the status of a long-poll response.
#[derive(Clone, Copy, Debug, PartialEq, Eq, Structural)]
pub enum PollAction {
    /// The poll timed out on the server: poll again.
    Retry,
    /// The answer is in the body.
    Deliver,
    /// The poll failed with this status.
    Fail(u16),
}

/// The host's reaction to a long-poll response: 408 and 502 are the server's
/// poll timeout and call for a new poll, 200 carries the answer, anything else
/// is a failure.
pub fn poll_response_action(status: u16) -> (r: PollAction)
    ensures
        status == 408 || status == 502 ==> r == PollAction::Retry,
        status == 200 ==> r == PollAction::Deliver,
        status != 408 && status != 502 && status != 200 ==> r == PollAction::Fail(status),
{
    if status == 408 || status == 502 {
        PollAction::Retry
    } else if status == 200 {
        PollAction::Deliver
    } else {
        PollAction::Fail(status)
    }
}

/// Whether a failed `details` call means that the session wants a password
/// (the server answered 401).
pub fn details_need_password(status: u16) -> (r: bool)
    ensures
        r == (status == 401),
{
    status == 401
}

/// The path marker of a share link: `/receive/`.
pub open spec fn receive_marker() -> Seq<char> {
    seq!['/', 'r', 'e', 'c', 'e', 'i', 'v', 'e', '/']
}

/// Whether `pat` occurs in `s` at position `i`.
pub open spec fn occurs_at(s: Seq<char>, pat: Seq<char>, i: int) -> bool {
    0 <= i && i + pat.len() <= s.len() && s.subrange(i, i + pat.len()) == pat
}

/// The position of the last `/` of `s`, or -1.
pub open spec fn last_slash(s: Seq<char>) -> int
    decreases s.len(),
{
    if s.len() == 0 {
        -1
    } else if s.last() == '/' {
        s.len() - 1
    } else {
        last_slash(s.drop_last())
    }
}

fn marker_at(link: &str, n: usize, i: usize) -> (r: bool)
    requires
        n == link@.len(),
        i + 9 <= n,
    ensures
        r == occurs_at(link@, receive_marker(), i as int),
{
    let r = link.get_char(i) == '/' && link.get_char(i + 1) == 'r' && link.get_char(i + 2) == 'e'
        && link.get_char(i + 3) == 'c' && link.get_char(i + 4) == 'e' && link.get_char(i + 5)
        == 'i' && link.get_char(i + 6) == 'v' && link.get_char(i + 7) == 'e' && link.get_char(
        i + 8,
    ) == '/';
    assert(r ==> link@.subrange(i as int, i + 9) =~= receive_marker());
    r
}

/// The session code of a share link (`https://host/receive/<code>`): what
/// follows the link's last `/`, for a link that holds `/receive/`.
pub fn extract_code_from_link(link: &str) -> (r: Option<&str>)
    ensures
        (exists|i: int| occurs_at(link@, receive_marker(), i)) ==> r is Some && r->0@
            == link@.subrange(last_slash(link@) + 1, link@.len() as int),
        !(exists|i: int| occurs_at(link@, receive_marker(), i)) ==> r is None,
{
    let n = link.unicode_len();
    let mut found = false;
    let mut i: usize = 0;
    while !found && n >= 9 && i <= n - 9
        invariant
            n == link@.len(),
            i <= n,
            found ==> exists|k: int| occurs_at(link@, receive_marker(), k),
            !found ==> forall|k: int| 0 <= k < i ==> !occurs_at(link@, receive_marker(), k),
        decreases n - i, if found { 0int } else { 1int },
    {
        if marker_at(link, n, i) {
            found = true;
        } else {
            i = i + 1;
        }
    }
    if !found {
        assert forall|k: int| !occurs_at(link@, receive_marker(), k) by {
            if 0 <= k && k + 9 <= n {
                assert(k < i);
            }
        }
        return None;
    }
    let mut j: usize = n;
    assert(link@.subrange(0, n as int) =~= link@);
    while j > 0 && link.get_char(j - 1) != '/'
        invariant
            n == link@.len(),
            j <= n,
            last_slash(link@) == last_slash(link@.subrange(0, j as int)),
        decreases j,
    {
        assert(link@.subrange(0, j as int).drop_last() =~= link@.subrange(0, j - 1));
        j = j - 1;
    }
    assert(j > 0 ==> link@.subrange(0, j as int).last() == link@[j - 1]);
    Some(link.substring_char(j, n))
}

} // verus!
