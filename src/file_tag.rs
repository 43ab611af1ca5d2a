//! What both peers know of an offered file.
use vstd::prelude::*;

use vstd::arithmetic::div_mod::{lemma_div_is_ordered, lemma_div_is_ordered_by_denominator};

use crate::text::{decimal, push_char, push_decimal};

verus! {

/// Where a file stands on either side of the transfer.
#[derive(Clone, Copy, Debug, PartialEq, Eq, Structural)]
pub enum FileState {
    Pending,
    Transferring,
    Done,
    Queued,
}

/// A file offered by the host: its name, its size in bytes, and the identifier
/// (a UUID, as a 128-bit number) under which both peers refer to it.
#[derive(Clone, Debug)]
pub struct FileTag {
    pub name: String,
    pub size: u64,
    pub uuid: u128,
}

impl FileTag {
    /// The tag of the file `name` of `size` bytes, known as `uuid`.
    pub fn new(name: String, size: u64, uuid: u128) -> (t: Self)
        ensures
            t.name@ == name@,
            t.size == size,
            t.uuid == uuid,
    {
        FileTag { name, size, uuid }
    }

    /// The file's name.
    pub fn name(&self) -> (r: &str)
        ensures
            r@ == self.name@,
    {
        self.name.as_str()
    }

    /// The file's identifier.
    pub fn uuid(&self) -> (r: u128)
        ensures
            r == self.uuid,
    {
        self.uuid
    }

    /// The file's size in bytes.
    pub fn size(&self) -> (r: u64)
        ensures
            r == self.size,
    {
        self.size
    }

    /// A copy of the tag.
    pub fn duplicate(&self) -> (r: Self)
        ensures
            r.name@ == self.name@,
            r.size == self.size,
            r.uuid == self.uuid,
    {
        FileTag { name: self.name.clone(), size: self.size, uuid: self.uuid }
    }
}

impl PartialEq for FileTag {
    /// Two tags stand for the same file when their identifiers agree.
    fn eq(&self, other: &FileTag) -> (r: bool) {
        self.uuid == other.uuid
    }
}

impl vstd::std_specs::cmp::PartialEqSpecImpl for FileTag {
    open spec fn obeys_eq_spec() -> bool {
        true
    }

    open spec fn eq_spec(&self, other: &FileTag) -> bool {
        self.uuid == other.uuid
    }
}

pub const KILO: u64 = 1024;

pub const MEGA: u64 = 1048576;

pub const GIGA: u64 = 1073741824;

pub const TERA: u64 = 1099511627776;

/// `value / unit` rounded to the nearest hundredth, counted in hundredths; an
/// exact tie goes to the even neighbour.
pub open spec fn hundredths(value: nat, unit: nat) -> nat
    recommends
        unit > 0,
{
    let q = value * 100 / unit;
    let r = value * 100 % unit;
    if 2 * r > unit || (2 * r == unit && q % 2 == 1) {
        q + 1
    } else {
        q
    }
}

/// The text of an amount of hundredths: the whole part, a dot, two digits.
pub open spec fn two_decimals(h: nat) -> Seq<char> {
    decimal(h / 100) + seq!['.'] + decimal((h % 100) / 10) + decimal(h % 10)
}

/// A byte count as people read it: plain bytes below one KiB, otherwise the
/// largest binary unit (KB, MB, GB, TB) that fits, with two decimals.
pub open spec fn readable_size(bytes: nat) -> Seq<char> {
    if bytes < KILO {
        decimal(bytes) + " Bytes"@
    } else if bytes < MEGA {
        two_decimals(hundredths(bytes, KILO as nat)) + " KB"@
    } else if bytes < GIGA {
        two_decimals(hundredths(bytes, MEGA as nat)) + " MB"@
    } else if bytes < TERA {
        two_decimals(hundredths(bytes, GIGA as nat)) + " GB"@
    } else {
        two_decimals(hundredths(bytes, TERA as nat)) + " TB"@
    }
}

fn push_two_decimals(s: &mut String, h: u64)
    ensures
        final(s)@ == old(s)@ + two_decimals(h as nat),
{
    push_decimal(s, h / 100);
    push_char(s, '.');
    push_decimal(s, (h % 100) / 10);
    push_decimal(s, h % 10);
}

/// `bytes` in readable form: `"512 Bytes"`, `"1.50 KB"`, `"2.00 GB"`.
pub fn convert_bytes_to_readable_format(bytes: u64) -> (r: String)
    ensures
        r@ == readable_size(bytes as nat),
{
    let mut s = String::new();
    let unit: u64;
    let suffix: &str;
    if bytes < KILO {
        push_decimal(&mut s, bytes);
        let t: &str = " Bytes";
        s.append(t);
        return s;
    } else if bytes < MEGA {
        unit = KILO;
        suffix = " KB";
    } else if bytes < GIGA {
        unit = MEGA;
        suffix = " MB";
    } else if bytes < TERA {
        unit = GIGA;
        suffix = " GB";
    } else {
        unit = TERA;
        suffix = " TB";
    }
    let wide: u128 = (bytes as u128) * 100;
    let q: u128 = wide / (unit as u128);
    let r: u128 = wide % (unit as u128);
    proof {
        lemma_div_is_ordered_by_denominator(wide as int, 1024, unit as int);
        lemma_div_is_ordered(wide as int, 0x10000_0000_0000_0000int * 100, 1024);
    }
    let h: u64 = if 2 * r > unit as u128 || (2 * r == unit as u128 && q % 2 == 1) {
        (q + 1) as u64
    } else {
        q as u64
    };
    push_two_decimals(&mut s, h);
    s.append(suffix);
    s
}

} // verus!
