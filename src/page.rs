//! Helpers of the peers' page: where the rendezvous API lives, and the
//! numbering of the page's range inputs.
use vstd::prelude::*;

use crate::text::{decimal, push_char, push_decimal};

verus! {

/// The address of the rendezvous API: `host:port`.
pub fn get_host_address(host: &str, port: u16) -> (r: String)
    ensures
        r@ == host@ + seq![':'] + decimal(port as nat),
{
    let mut s = String::new();
    s.append(host);
    push_char(&mut s, ':');
    push_decimal(&mut s, port as u64);
    s
}

/// A range input of the page, known by a number unique on the page.
#[derive(Clone, Copy, Debug, PartialEq, Eq, Structural)]
pub struct Slider {
    pub id: usize,
}

/// Hands out the next slider number from `counter`.
pub fn next_slider_id(counter: &mut usize) -> (r: usize)
    requires
        *old(counter) < usize::MAX,
    ensures
        r == *old(counter),
        *final(counter) == *old(counter) + 1,
{
    let id = *counter;
    *counter = id + 1;
    id
}

} // verus!
