//! Linux `tc` class/qdisc handles: a 32-bit value split into a 16-bit major
//! and a 16-bit minor number.
use vstd::prelude::*;
use crate::text::{
    append_str, chars_of, find_char, first_index_of, hex_seq, hex_string, owned, slice_chars,
    trim_chars, trim_seq,
};

verus! {

/// A `tc` handle, stored as its raw 32-bit value (`major << 16 | minor`).
#[derive(Clone, Copy, Debug, PartialEq, Eq, Structural, Hash)]
pub struct TcHandle(pub u32);

/// Reasons a textual `tc` handle could not be parsed.
#[derive(Clone, Copy, Debug, PartialEq, Eq, Structural)]
pub enum TcHandleParseError {
    /// A major or minor part is not a hexadecimal number below `0x10000`.
    InvalidNumber,
    /// The text has more than one `:` separator.
    TooManyParts,
}

/// Major number of a raw handle value.
pub open spec fn major_of(v: u32) -> u16 {
    (v / 65536) as u16
}

/// Minor number of a raw handle value.
pub open spec fn minor_of(v: u32) -> u16 {
    (v % 65536) as u16
}

/// Raw value of the handle `major:minor`.
pub open spec fn handle_value(major: u16, minor: u16) -> u32 {
    (major as int * 65536 + minor as int) as u32
}

/// `0x<major>:0x<minor>` in lower-case hexadecimal, as `tc` prints it.
pub open spec fn tc_seq(v: u32) -> Seq<char> {
    "0x"@ + hex_seq(major_of(v) as nat) + ":0x"@ + hex_seq(minor_of(v) as nat)
}

/// `0x<major>:0x<minor>` for separately given major and minor numbers.
pub open spec fn class_id_seq(major: u16, minor: u16) -> Seq<char> {
    "0x"@ + hex_seq(major as nat) + ":0x"@ + hex_seq(minor as nat)
}

/// `0x<major>:` (a qdisc handle with an implicit minor of zero).
pub open spec fn qdisc_handle_seq(major: u16) -> Seq<char> {
    "0x"@ + hex_seq(major as nat) + ":"@
}

pub proof fn lemma_handle_value_parts(major: u16, minor: u16)
    ensures
        major_of(handle_value(major, minor)) == major,
        minor_of(handle_value(major, minor)) == minor,
        handle_value(major, minor) as int == major as int * 65536 + minor as int,
{
}

pub proof fn lemma_value_from_parts(v: u32)
    ensures
        handle_value(major_of(v), minor_of(v)) == v,
{
}

impl TcHandle {
    /// Major number of this handle.
    pub open spec fn major(self) -> u16 {
        major_of(self.0)
    }

    /// Minor number of this handle.
    pub open spec fn minor(self) -> u16 {
        minor_of(self.0)
    }

    /// Wraps a raw handle value.
    pub fn from_u32(value: u32) -> (r: TcHandle)
        ensures
            r.0 == value,
    {
        TcHandle(value)
    }

    /// The raw handle value.
    pub fn as_u32(&self) -> (r: u32)
        ensures
            r == self.0,
    {
        self.0
    }

    /// Splits the handle into `(major, minor)`.
    pub fn get_major_minor(&self) -> (r: (u16, u16))
        ensures
            r.0 == self.major(),
            r.1 == self.minor(),
    {
        ((self.0 / 65536) as u16, (self.0 % 65536) as u16)
    }

    /// Builds the handle `major:minor`.
    pub fn from_major_minor(major: u16, minor: u16) -> (r: TcHandle)
        ensures
            r.0 == handle_value(major, minor),
            r.major() == major,
            r.minor() == minor,
    {
        proof {
            lemma_handle_value_parts(major, minor);
        }
        TcHandle(major as u32 * 65536 + minor as u32)
    }

    /// Renders the handle as `0x<major>:0x<minor>`.
    pub fn as_tc_string(&self) -> (r: String)
        ensures
            r@ == tc_seq(self.0),
    {
        let (major, minor) = self.get_major_minor();
        class_id_string(major, minor)
    }

    /// Parses `root`, `none`, `<major>`, `<major>:` or `<major>:<minor>`
    /// (each number hexadecimal, optionally prefixed with `0x`).
    pub fn from_string(text: &str) -> (r: Result<TcHandle, TcHandleParseError>)
        ensures
            match parse_tc_handle(text@) {
                Ok(v) => r == Ok::<TcHandle, TcHandleParseError>(TcHandle(v)),
                Err(e) => r == Err::<TcHandle, TcHandleParseError>(e),
            },
    {
        let raw = chars_of(text);
        let t = trim_chars(&raw);
        let root = chars_of("root");
        let none = chars_of("none");
        if vec_eq(&t, &root) {
            return Ok(TcHandle(0xFFFF_FFFF));
        }
        if vec_eq(&t, &none) {
            return Ok(TcHandle(0));
        }
        let tl = t.len();
        match find_char(&t, ':') {
            None => {
                match parse_hex_part(&t) {
                    Some(major) => Ok(TcHandle::from_major_minor(major, 0)),
                    None => Err(TcHandleParseError::InvalidNumber),
                }
            },
            Some(i) => {
                let major_text = slice_chars(&t, 0, i);
                let minor_text = slice_chars(&t, i + 1, t.len());
                if find_char(&minor_text, ':').is_some() {
                    return Err(TcHandleParseError::TooManyParts);
                }
                let major = parse_hex_part(&major_text);
                let minor: Option<u16> = if minor_text.len() == 0 {
                    Some(0)
                } else {
                    parse_hex_part(&minor_text)
                };
                match (major, minor) {
                    (Some(major), Some(minor)) => Ok(TcHandle::from_major_minor(major, minor)),
                    _ => Err(TcHandleParseError::InvalidNumber),
                }
            },
        }
    }
}

/// `0x<major>:0x<minor>` for separately given major and minor numbers.
pub fn class_id_string(major: u16, minor: u16) -> (r: String)
    ensures
        r@ == class_id_seq(major, minor),
{
    let mut s = owned("0x");
    let maj = hex_string(major as u64);
    append_str(&mut s, maj.as_str());
    append_str(&mut s, ":0x");
    let min = hex_string(minor as u64);
    append_str(&mut s, min.as_str());
    s
}

/// `0x<major>:` for a qdisc handle.
pub fn qdisc_handle_string(major: u16) -> (r: String)
    ensures
        r@ == qdisc_handle_seq(major),
{
    let mut s = owned("0x");
    let maj = hex_string(major as u64);
    append_str(&mut s, maj.as_str());
    append_str(&mut s, ":");
    s
}

/// Value of a hexadecimal digit, if `c` is one.
pub open spec fn hex_digit_value(c: char) -> Option<nat> {
    if '0' <= c && c <= '9' {
        Some((c as u32 - '0' as u32) as nat)
    } else if 'a' <= c && c <= 'f' {
        Some((c as u32 - 'a' as u32 + 10) as nat)
    } else if 'A' <= c && c <= 'F' {
        Some((c as u32 - 'A' as u32 + 10) as nat)
    } else {
        None
    }
}

/// Every character is a hexadecimal digit.
pub open spec fn all_hex(s: Seq<char>) -> bool {
    forall|i: int| 0 <= i < s.len() ==> (#[trigger] hex_digit_value(s[i])) is Some
}

/// Numeric value of a run of hexadecimal digits.
pub open spec fn hex_value(s: Seq<char>) -> nat
    decreases s.len(),
{
    if s.len() == 0 {
        0
    } else {
        hex_value(s.drop_last()) * 16 + hex_digit_value(s.last()).unwrap_or(0)
    }
}

/// The text of one handle part with an optional `0x` prefix removed.
pub open spec fn strip_hex_prefix(s: Seq<char>) -> Seq<char> {
    if s.len() >= 2 && s[0] == '0' && s[1] == 'x' {
        s.skip(2)
    } else {
        s
    }
}

/// One handle part: a non-empty hexadecimal number below `0x10000`.
pub open spec fn parse_part(s: Seq<char>) -> Option<u16> {
    let d = strip_hex_prefix(s);
    if d.len() > 0 && all_hex(d) && hex_value(d) < 65536 {
        Some(hex_value(d) as u16)
    } else {
        None
    }
}

/// The meaning of a textual `tc` handle, as parsed by [`TcHandle::from_string`].
pub open spec fn parse_tc_handle(text: Seq<char>) -> Result<u32, TcHandleParseError> {
    let t = trim_seq(text);
    if t == "root"@ {
        Ok(0xFFFF_FFFFu32)
    } else if t == "none"@ {
        Ok(0u32)
    } else {
        match first_index_of(t, ':') {
            None => match parse_part(t) {
                Some(major) => Ok(handle_value(major, 0)),
                None => Err(TcHandleParseError::InvalidNumber),
            },
            Some(i) => {
                let major_text = t.subrange(0, i);
                let minor_text = t.subrange(i + 1, t.len() as int);
                if first_index_of(minor_text, ':') is Some {
                    Err(TcHandleParseError::TooManyParts)
                } else {
                    let minor = if minor_text.len() == 0 {
                        Some(0u16)
                    } else {
                        parse_part(minor_text)
                    };
                    match (parse_part(major_text), minor) {
                        (Some(major), Some(minor)) => Ok(handle_value(major, minor)),
                        _ => Err(TcHandleParseError::InvalidNumber),
                    }
                }
            },
        }
    }
}

/// Element-wise equality of two character vectors.
pub fn vec_eq(a: &Vec<char>, b: &Vec<char>) -> (r: bool)
    ensures
        r == (a@ == b@),
{
    if a.len() != b.len() {
        assert(a@.len() != b@.len());
        return false;
    }
    let mut i: usize = 0;
    while i < a.len()
        invariant
            a@.len() == b@.len(),
            i <= a@.len(),
            forall|k: int| 0 <= k < i ==> a@[k] == b@[k],
        decreases a.len() - i,
    {
        if a[i] != b[i] {
            assert(a@[i as int] != b@[i as int]);
            return false;
        }
        i = i + 1;
    }
    assert(a@ =~= b@);
    true
}

fn digit_value(c: char) -> (r: Option<u64>)
    ensures
        match hex_digit_value(c) {
            Some(v) => r == Some(v as u64),
            None => r is None,
        },
{
    if '0' <= c && c <= '9' {
        Some((c as u32 - '0' as u32) as u64)
    } else if 'a' <= c && c <= 'f' {
        Some((c as u32 - 'a' as u32 + 10) as u64)
    } else if 'A' <= c && c <= 'F' {
        Some((c as u32 - 'A' as u32 + 10) as u64)
    } else {
        None
    }
}

fn parse_hex_part(s: &Vec<char>) -> (r: Option<u16>)
    ensures
        r == parse_part(s@),
{
    let start: usize = if s.len() >= 2 && s[0] == '0' && s[1] == 'x' {
        2
    } else {
        0
    };
    let d = slice_chars(s, start, s.len());
    assert(d@ =~= strip_hex_prefix(s@));
    if d.len() == 0 {
        return None;
    }
    let mut acc: u64 = 0;
    let mut i: usize = 0;
    while i < d.len()
        invariant
            d@ == strip_hex_prefix(s@),
            d@.len() > 0,
            i <= d@.len(),
            all_hex(d@.take(i as int)),
            acc == if hex_value(d@.take(i as int)) < 65536 {
                hex_value(d@.take(i as int))
            } else {
                65536
            },
        decreases d.len() - i,
    {
        match digit_value(d[i]) {
            None => {
                assert(hex_digit_value(d@[i as int]) is None);
                assert(!all_hex(d@));
                return None;
            },
            Some(v) => {
                proof {
                    let t = d@.take(i + 1);
                    assert(t.drop_last() =~= d@.take(i as int));
                    assert(t.last() == d@[i as int]);
                    assert(hex_value(t) == hex_value(d@.take(i as int)) * 16 + v);
                    assert forall|k: int| 0 <= k < t.len() implies (#[trigger] hex_digit_value(t[k])) is Some by {
                        if k < i {
                            assert(t[k] == d@.take(i as int)[k]);
                        }
                    }
                }
                let next = acc * 16 + v;
                acc = if next < 65536 { next } else { 65536 };
            },
        }
        i = i + 1;
    }
    assert(d@.take(d@.len() as int) =~= d@);
    if acc < 65536 {
        Some(acc as u16)
    } else {
        None
    }
}

} // verus!
