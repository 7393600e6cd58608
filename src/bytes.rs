//! Little-endian integers read from a byte buffer.
use vstd::prelude::*;

verus! {

/// The unsigned integer that the four bytes of `s` starting at `at` encode,
/// least significant byte first.
pub open spec fn le_u32(s: Seq<u8>, at: int) -> nat {
    s[at] as nat + 256 * (s[at + 1] as nat) + 65536 * (s[at + 2] as nat)
        + 16777216 * (s[at + 3] as nat)
}

/// Relies on byteorder's `LittleEndian::read_u32`, which decodes the first four
/// bytes of its buffer least significant first (it is `u32::from_le_bytes`).
#[verifier::external_body]
pub(crate) fn read_u32_le(s: &[u8], at: usize) -> (r: u32)
    requires
        at + 4 <= s@.len(),
    ensures
        r as nat == le_u32(s@, at as int),
{
    <byteorder::LittleEndian as byteorder::ByteOrder>::read_u32(&s[at..at + 4])
}

/// `b` with an ASCII capital letter made small.
pub open spec fn ascii_lower(b: u8) -> u8 {
    if 65 <= b <= 90 {
        (b + 32) as u8
    } else {
        b
    }
}

/// The bytes of `s` from `at` on begin with `kw`, ASCII letters compared
/// without regard to case.
pub open spec fn starts_with_ci(s: Seq<u8>, at: int, end: int, kw: Seq<u8>) -> bool {
    &&& 0 <= at
    &&& at + kw.len() <= end
    &&& end <= s.len()
    &&& forall|j: int| 0 <= j < kw.len() ==> ascii_lower(#[trigger] s[at + j]) == ascii_lower(kw[j])
}

fn lower_byte(b: u8) -> (r: u8)
    ensures
        r == ascii_lower(b),
{
    if 65 <= b && b <= 90 {
        b + 32
    } else {
        b
    }
}

/// Whether `s[at..end]` begins with `kw`, ignoring ASCII case.
pub fn has_prefix_ci(s: &[u8], at: usize, end: usize, kw: &[u8]) -> (r: bool)
    requires
        at <= end <= s@.len(),
    ensures
        r == starts_with_ci(s@, at as int, end as int, kw@),
{
    if kw.len() > end - at {
        return false;
    }
    let mut j: usize = 0;
    while j < kw.len()
        invariant
            at + kw@.len() <= end <= s@.len(),
            j <= kw@.len(),
            forall|i: int| 0 <= i < j ==> ascii_lower(#[trigger] s@[at + i]) == ascii_lower(kw@[i]),
        decreases kw@.len() - j,
    {
        if lower_byte(s[at + j]) != lower_byte(kw[j]) {
            return false;
        }
        j = j + 1;
    }
    true
}

} // verus!
