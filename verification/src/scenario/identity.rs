//! The identity of an imported scenario: a stable id derived from the file's
//! bytes, and the checks on a scenario's name and id.
use vstd::prelude::*;

use super::error::{SceError, SceFault};
use super::text::{ascii, bytes_of, find, find_from};

verus! {

/// Largest scenario file accepted, in bytes.
pub const LIMIT: usize = 2097152;

/// FNV-1a 128-bit offset basis.
pub const FNV_OFFSET: u128 = 0x6c62272e07bb014262b821756295c58d;

/// FNV-1a 128-bit prime.
pub const FNV_PRIME: u128 = 0x1000000000000000000013b;

/// One FNV-1a step.
pub open spec fn fnv_step(h: u128, b: u8) -> u128 {
    vstd::wrapping::u128_specs::wrapping_mul(h ^ (b as u128), FNV_PRIME)
}

/// The FNV-1a 128-bit hash of a byte string.
pub open spec fn fnv_hash(s: Seq<u8>) -> u128
    decreases s.len(),
{
    if s.len() == 0 {
        FNV_OFFSET
    } else {
        fnv_step(fnv_hash(s.drop_last()), s.last())
    }
}

/// The FNV-1a 128-bit hash of a scenario file: a stable source identity
/// that does not depend on the file's name or place. Not a security digest.
pub fn source_hash(text: &[u8]) -> (r: u128)
    ensures
        r == fnv_hash(text@),
{
    let mut h: u128 = 0x6c62272e07bb014262b821756295c58d;
    let mut i: usize = 0;
    assert(text@.subrange(0, 0) =~= Seq::<u8>::empty());
    while i < text.len()
        invariant
            i <= text@.len(),
            h == fnv_hash(text@.subrange(0, i as int)),
        decreases text@.len() - i,
    {
        assert(text@.subrange(0, i + 1).drop_last() =~= text@.subrange(0, i as int));
        h = (h ^ (text[i] as u128)).wrapping_mul(0x1000000000000000000013b);
        i = i + 1;
    }
    assert(text@.subrange(0, text@.len() as int) =~= text@);
    h
}

/// The lower-case hexadecimal digit for a value below sixteen.
pub open spec fn hex_char(d: u8) -> u8 {
    if d < 10 {
        (48 + d) as u8
    } else {
        (87 + d) as u8
    }
}

/// The `i`-th of the 32 hexadecimal digits of `h`, most significant first.
pub open spec fn hex_digit(h: u128, i: int) -> u8 {
    hex_char(((h >> ((4 * (31 - i)) as u32)) & 15u128) as u8)
}

/// `h` as 32 lower-case hexadecimal digits, zero-padded.
pub open spec fn hex32(h: u128) -> Seq<u8> {
    Seq::new(32, |i: int| hex_digit(h, i))
}

/// Writes a hash as 32 lower-case hexadecimal digits, zero-padded.
pub fn hex_id(h: u128) -> (r: Vec<u8>)
    ensures
        r@ == hex32(h),
{
    let mut out: Vec<u8> = Vec::new();
    let mut i: usize = 0;
    while i < 32
        invariant
            i <= 32,
            out@.len() == i,
            forall|j: int| 0 <= j < i ==> out@[j] == hex_digit(h, j),
        decreases 32 - i,
    {
        let shift: u32 = (4 * (31 - i)) as u32;
        let d = ((h >> shift) & 15u128) as u8;
        assert(((h >> shift) & 15u128) < 16) by (bit_vector);
        let c = if d < 10 {
            48 + d
        } else {
            87 + d
        };
        out.push(c);
        i = i + 1;
    }
    assert(out@ =~= hex32(h));
    out
}

/// An ASCII hexadecimal digit, either case.
pub open spec fn is_hex_digit(b: u8) -> bool {
    (48 <= b && b <= 57) || (65 <= b && b <= 70) || (97 <= b && b <= 102)
}

/// A scenario id: 32 hexadecimal digits.
pub open spec fn valid_id(id: Seq<u8>) -> bool {
    id.len() == 32 && forall|i: int| 0 <= i < id.len() ==> is_hex_digit(id[i])
}

/// Whether a UTF-8 name holds a control character (U+0000 to U+001F or
/// U+007F to U+009F) starting at byte `i`.
pub open spec fn control_at(s: Seq<u8>, i: int) -> bool {
    s[i] < 32 || s[i] == 127 || (s[i] == 0xC2 && i + 1 < s.len() && 0x80 <= s[i + 1] && s[i + 1]
        <= 0x9F)
}

/// A scenario name: 1 to 80 bytes, without control characters.
pub open spec fn valid_name(name: Seq<u8>) -> bool {
    name.len() > 0 && name.len() <= 80 && !(exists|i: int| 0 <= i < name.len() && control_at(name, i))
}

/// Checks a scenario's name and id.
pub fn valid_identity(name: &[u8], id: &[u8]) -> (r: bool)
    ensures
        r == (valid_name(name@) && valid_id(id@)),
{
    if name.len() == 0 || name.len() > 80 || id.len() != 32 {
        return false;
    }
    let mut i: usize = 0;
    while i < name.len()
        invariant
            i <= name@.len(),
            forall|j: int| 0 <= j < i ==> !control_at(name@, j),
        decreases name@.len() - i,
    {
        let b = name[i];
        if b < 32 || b == 127 || (b == 0xC2 && i + 1 < name.len() && 0x80 <= name[i + 1] && name[i
            + 1] <= 0x9F) {
            assert(control_at(name@, i as int));
            return false;
        }
        i = i + 1;
    }
    let mut k: usize = 0;
    while k < id.len()
        invariant
            k <= id@.len(),
            forall|j: int| 0 <= j < k ==> is_hex_digit(id@[j]),
        decreases id@.len() - k,
    {
        let b = id[k];
        if !((48 <= b && b <= 57) || (65 <= b && b <= 70) || (97 <= b && b <= 102)) {
            return false;
        }
        k = k + 1;
    }
    true
}

/// Every id made from a hash is a valid id.
pub proof fn lemma_hex_id_valid(h: u128)
    ensures
        valid_id(hex32(h)),
{
    assert forall|i: int| 0 <= i < 32 implies is_hex_digit(#[trigger] hex32(h)[i]) by {
        let shift = (4 * (31 - i)) as u32;
        assert(((h >> shift) & 15u128) < 16) by (bit_vector);
    }
}

/// The marker between a file's profiles and its map.
pub open spec fn map_marker() -> Seq<u8> {
    ascii("[Map Data]"@)
}

/// Where a file's profile part ends and its map part begins.
pub open spec fn parts_of(text: Seq<u8>) -> Result<(int, int), SceFault> {
    if text.len() > LIMIT {
        Err(SceFault::TooLarge)
    } else {
        match find_from(text, map_marker(), 0) {
            Some(i) => Ok((i, i + map_marker().len())),
            None => Err(SceFault::NoMapData),
        }
    }
}

/// Splits a scenario file at its first map marker: the profile part is
/// `text[..r.0]`, the map part `text[r.1..]`. Files over [`LIMIT`] bytes are
/// refused.
pub fn split_parts(text: &[u8]) -> (r: Result<(usize, usize), SceError>)
    ensures
        match (r, parts_of(text@)) {
            (Ok(a), Ok(b)) => a.0 == b.0 && a.1 == b.1 && a.0 <= a.1 <= text@.len(),
            (Err(e), Err(f)) => e@ == f,
            _ => false,
        },
{
    if text.len() > 2097152 {
        return Err(SceError::TooLarge);
    }
    proof {
        reveal_strlit("[Map Data]");
    }
    let marker = bytes_of("[Map Data]");
    match find(text, marker) {
        Some(i) => {
            proof {
                lemma_find_bounds(text@, marker@, 0);
            }
            Ok((i, i + marker.len()))
        },
        None => Err(SceError::NoMapData),
    }
}

proof fn lemma_find_bounds(text: Seq<u8>, p: Seq<u8>, from: int)
    ensures
        find_from(text, p, from) matches Some(i) ==> from <= i && i + p.len() <= text.len(),
    decreases text.len() + 1 - from,
{
    if from >= 0 && from + p.len() <= text.len() && !super::text::matches_at(text, p, from) {
        lemma_find_bounds(text, p, from + 1);
    }
}

} // verus!
