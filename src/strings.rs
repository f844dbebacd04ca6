//! Interned strings: an 8-byte handle is either an inline NUL-padded string
//! or an `(offset, length)` reference into the string-bytes buffer.

use vstd::prelude::*;
use vstd::utf8::{decode_utf8, valid_utf8};
use crate::bytes::{fits, le_u64, read_u64};
use crate::error::ParseError;

verus! {

/// `2^63`: the top bit of a handle, set when it refers to the string heap.
pub const HANDLE_TOP_BIT: u64 = 0x8000_0000_0000_0000;

/// `2^32`: offsets take the low 32 bits of a heap handle, lengths the rest.
pub const HANDLE_SPLIT: u64 = 0x1_0000_0000;

/// Index of the first NUL byte of `s` at or after `i`, or `s.len()`.
pub open spec fn nul_from(s: Seq<u8>, i: int) -> int
    decreases s.len() - i,
{
    if i >= s.len() || i < 0 {
        s.len() as int
    } else if s[i] == 0 {
        i
    } else {
        nul_from(s, i + 1)
    }
}

/// The eight bytes of a handle, least significant first.
pub open spec fn handle_byte_seq(raw: u64) -> Seq<u8> {
    seq![
        raw as u8,
        (raw >> 8u64) as u8,
        (raw >> 16u64) as u8,
        (raw >> 24u64) as u8,
        (raw >> 32u64) as u8,
        (raw >> 40u64) as u8,
        (raw >> 48u64) as u8,
        (raw >> 56u64) as u8,
    ]
}

pub open spec fn handle_is_inline(raw: u64) -> bool {
    raw < HANDLE_TOP_BIT
}

pub open spec fn handle_offset(raw: u64) -> int {
    (raw - HANDLE_TOP_BIT) % (HANDLE_SPLIT as int)
}

pub open spec fn handle_length(raw: u64) -> int {
    (raw - HANDLE_TOP_BIT) / (HANDLE_SPLIT as int)
}

/// The bytes a handle designates, or `None` when a heap handle points
/// outside `heap`.
pub open spec fn handle_bytes(raw: u64, heap: Seq<u8>) -> Option<Seq<u8>> {
    if handle_is_inline(raw) {
        Some(handle_byte_seq(raw).take(nul_from(handle_byte_seq(raw), 0)))
    } else if handle_offset(raw) + handle_length(raw) <= heap.len() {
        Some(heap.subrange(handle_offset(raw), handle_offset(raw) + handle_length(raw)))
    } else {
        None
    }
}

/// The text a handle designates.
pub open spec fn handle_text(raw: u64, heap: Seq<u8>) -> Result<Seq<char>, ParseError> {
    match handle_bytes(raw, heap) {
        None => Err(
            ParseError::BadStringPointer(handle_offset(raw) as u32, handle_length(raw) as u32),
        ),
        Some(bs) => if valid_utf8(bs) {
            Ok(decode_utf8(bs))
        } else {
            Err(ParseError::InvalidUtf8)
        },
    }
}

/// `r` is the string result that `t` describes.
pub open spec fn text_matches(r: Result<String, ParseError>, t: Result<Seq<char>, ParseError>) -> bool {
    match r {
        Ok(s) => t == Ok::<Seq<char>, ParseError>(s@),
        Err(e) => t == Err::<Seq<char>, ParseError>(e),
    }
}

/// Relies on `String::from_utf8`: it accepts exactly the well-formed UTF-8
/// byte sequences and keeps the characters they encode.
#[verifier::external_body]
fn utf8_to_string(v: Vec<u8>) -> (r: Option<String>)
    ensures
        r is Some <==> valid_utf8(v@),
        r matches Some(s) ==> s@ == decode_utf8(v@),
{
    String::from_utf8(v).ok()
}

/// Relies on `String::push_str`: appends the characters of `t`.
#[verifier::external_body]
pub(crate) fn append_str(s: &mut String, t: &str)
    ensures
        final(s)@ == old(s)@ + t@,
{
    s.push_str(t)
}

/// Relies on `String::push`: appends one character.
#[verifier::external_body]
pub(crate) fn append_char(s: &mut String, c: char)
    ensures
        final(s)@ == old(s)@.push(c),
{
    s.push(c)
}

/// Turns `v` into text, or `InvalidUtf8`.
pub fn text_from_bytes(v: Vec<u8>) -> (r: Result<String, ParseError>)
    ensures
        text_matches(
            r,
            if valid_utf8(v@) {
                Ok(decode_utf8(v@))
            } else {
                Err(ParseError::InvalidUtf8)
            },
        ),
{
    match utf8_to_string(v) {
        Some(s) => Ok(s),
        None => Err(ParseError::InvalidUtf8),
    }
}

/// An 8-byte string handle, read as a little-endian `u64`.
#[derive(Debug, Clone, Copy, PartialEq, Eq, Structural)]
pub struct SemverString {
    pub raw: u64,
}

/// The handle stored at `b[pos..pos + 8]`.
pub open spec fn handle_at(b: Seq<u8>, pos: int) -> SemverString {
    SemverString { raw: le_u64(b, pos) as u64 }
}

/// Reads the handle stored at `b[pos..pos + 8]`.
pub fn read_handle(b: &[u8], pos: usize) -> (r: Option<SemverString>)
    ensures
        fits(b@, pos as int, 8) ==> r == Some(handle_at(b@, pos as int)),
        !fits(b@, pos as int, 8) ==> r is None,
{
    match read_u64(b, pos) {
        Some(raw) => Some(SemverString { raw }),
        None => None,
    }
}

impl SemverString {
    /// True when the handle holds its string inline.
    pub fn is_inline(&self) -> (r: bool)
        ensures
            r == handle_is_inline(self.raw),
    {
        self.raw < HANDLE_TOP_BIT
    }

    /// The text of this handle; `string_bytes` is the string heap.
    pub fn decode(&self, string_bytes: &[u8]) -> (r: Result<String, ParseError>)
        ensures
            text_matches(r, handle_text(self.raw, string_bytes@)),
    {
        let raw = self.raw;
        if self.is_inline() {
            let mut h: Vec<u8> = Vec::new();
            h.push(raw as u8);
            h.push((raw >> 8u64) as u8);
            h.push((raw >> 16u64) as u8);
            h.push((raw >> 24u64) as u8);
            h.push((raw >> 32u64) as u8);
            h.push((raw >> 40u64) as u8);
            h.push((raw >> 48u64) as u8);
            h.push((raw >> 56u64) as u8);
            let ghost hs = handle_byte_seq(raw);
            assert(h@ =~= hs);
            let mut end: usize = 0;
            while end < 8 && h[end] != 0
                invariant
                    end <= 8,
                    h@ == hs,
                    hs.len() == 8,
                    nul_from(hs, 0) == nul_from(hs, end as int),
                decreases 8 - end,
            {
                end = end + 1;
            }
            let v = vstd::slice::slice_to_vec(vstd::slice::slice_subrange(h.as_slice(), 0, end));
            assert(v@ =~= hs.take(nul_from(hs, 0)));
            return text_from_bytes(v);
        }
        let cleared = raw - HANDLE_TOP_BIT;
        let off = cleared % HANDLE_SPLIT;
        let len = cleared / HANDLE_SPLIT;
        assert(len < HANDLE_SPLIT) by (nonlinear_arith)
            requires
                len == cleared / HANDLE_SPLIT,
                cleared < HANDLE_TOP_BIT,
        ;
        if off > string_bytes.len() as u64 || len > string_bytes.len() as u64 - off {
            return Err(ParseError::BadStringPointer(off as u32, len as u32));
        }
        let v = vstd::slice::slice_to_vec(
            vstd::slice::slice_subrange(string_bytes, off as usize, (off + len) as usize),
        );
        text_from_bytes(v)
    }
}

pub open spec fn digit_char(d: int) -> char {
    if d == 0 {
        '0'
    } else if d == 1 {
        '1'
    } else if d == 2 {
        '2'
    } else if d == 3 {
        '3'
    } else if d == 4 {
        '4'
    } else if d == 5 {
        '5'
    } else if d == 6 {
        '6'
    } else if d == 7 {
        '7'
    } else if d == 8 {
        '8'
    } else {
        '9'
    }
}

/// The decimal digits of `n`, most significant first, without leading zeros.
pub open spec fn decimal(n: nat) -> Seq<char>
    decreases n,
{
    if n < 10 {
        seq![digit_char(n as int)]
    } else {
        decimal(n / 10).push(digit_char((n % 10) as int))
    }
}

fn digit(d: u64) -> (c: char)
    requires
        d < 10,
    ensures
        c == digit_char(d as int),
{
    if d == 0 {
        '0'
    } else if d == 1 {
        '1'
    } else if d == 2 {
        '2'
    } else if d == 3 {
        '3'
    } else if d == 4 {
        '4'
    } else if d == 5 {
        '5'
    } else if d == 6 {
        '6'
    } else if d == 7 {
        '7'
    } else if d == 8 {
        '8'
    } else {
        '9'
    }
}

/// Appends the decimal form of `n` to `s`.
pub fn push_decimal(s: &mut String, n: u64)
    ensures
        final(s)@ == old(s)@ + decimal(n as nat),
    decreases n,
{
    if n >= 10 {
        push_decimal(s, n / 10);
    }
    append_char(s, digit(n % 10));
    proof {
        if n >= 10 {
            assert(final(s)@ =~= old(s)@ + decimal(n as nat));
        } else {
            assert(final(s)@ =~= old(s)@ + decimal(n as nat));
        }
    }
}

} // verus!
