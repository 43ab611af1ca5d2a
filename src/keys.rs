//! Text keys of the receiver's keyed blob store: `$<uuid>` for a file's meta
//! record and `$<uuid>-$<seq>` for its chunks, so that the prefix `$<uuid>-$`
//! covers exactly the chunks of one file.
use vstd::prelude::*;

use crate::text::{decimal, push_char, push_decimal};

verus! {

/// The lowercase hexadecimal digit of `d < 16`.
pub open spec fn hex_digit(d: nat) -> char {
    if d < 10 {
        (('0' as u8) + d) as char
    } else {
        (('a' as u8) + (d - 10)) as char
    }
}

/// The hyphenated lowercase form of a UUID given as a 128-bit number, most
/// significant digit first: 8, 4, 4, 4 and 12 hex digits parted by hyphens.
pub open spec fn uuid_text(id: u128) -> Seq<char> {
    Seq::new(
        36,
        |p: int|
            if p == 8 || p == 13 || p == 18 || p == 23 {
                '-'
            } else {
                let k = if p < 8 {
                    p
                } else if p < 13 {
                    p - 1
                } else if p < 18 {
                    p - 2
                } else if p < 23 {
                    p - 3
                } else {
                    p - 4
                };
                hex_digit(((id as nat) / pow16((31 - k) as nat)) % 16)
            },
    )
}

/// `16` to the power `e`.
pub open spec fn pow16(e: nat) -> nat
    decreases e,
{
    if e == 0 {
        1
    } else {
        16 * pow16((e - 1) as nat)
    }
}

/// Relies on uuid's `Display` for `Uuid` (`Uuid::from_u128(id).to_string()`):
/// the hyphenated form in lowercase hex, the bytes of the number taken
/// most significant first.
#[verifier::external_body]
fn uuid_string(id: u128) -> (r: String)
    ensures
        r@ == uuid_text(id),
{
    uuid::Uuid::from_u128(id).to_string()
}

/// Key of the meta record of the file `uuid`.
pub open spec fn meta_key_text(uuid: u128) -> Seq<char> {
    seq!['$'] + uuid_text(uuid)
}

/// Key of chunk `seq` of the file `uuid`.
pub open spec fn chunk_key_text(uuid: u128, seq: u32) -> Seq<char> {
    seq!['$'] + uuid_text(uuid) + seq!['-', '$'] + decimal(seq as nat)
}

/// The key of the meta record of the file `uuid`.
pub fn meta_key(uuid: u128) -> (r: String)
    ensures
        r@ == meta_key_text(uuid),
{
    let mut s = String::new();
    push_char(&mut s, '$');
    let id = uuid_string(uuid);
    s.append(id.as_str());
    s
}

/// The key of chunk `seq` of the file `uuid`.
pub fn chunk_key(uuid: u128, seq: u32) -> (r: String)
    ensures
        r@ == chunk_key_text(uuid, seq),
{
    let mut s = String::new();
    push_char(&mut s, '$');
    let id = uuid_string(uuid);
    s.append(id.as_str());
    push_char(&mut s, '-');
    push_char(&mut s, '$');
    push_decimal(&mut s, seq as u64);
    s
}

} // verus!
