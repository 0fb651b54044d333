//! Byte-level text helpers for UTF-8 scenario files.
use vstd::prelude::*;

verus! {

/// The bytes of an ASCII character sequence.
pub open spec fn ascii(s: Seq<char>) -> Seq<u8> {
    s.map_values(|c: char| c as u8)
}

/// The bytes of an ASCII string literal.
pub fn bytes_of(s: &str) -> (r: &[u8])
    requires
        vstd::string::is_ascii(s),
    ensures
        r@ == ascii(s@),
{
    proof {
        vstd::utf8::is_ascii_chars_encode_utf8(s@);
    }
    let r = s.as_bytes();
    assert(r@ =~= ascii(s@));
    r
}

/// A copy of `text[start..end]`.
pub fn copy_range(text: &[u8], start: usize, end: usize) -> (r: Vec<u8>)
    requires
        start <= end <= text@.len(),
    ensures
        r@ == text@.subrange(start as int, end as int),
{
    vstd::slice::slice_to_vec(vstd::slice::slice_subrange(text, start, end))
}

pub fn bytes_eq(a: &[u8], b: &[u8]) -> (r: bool)
    ensures
        r == (a@ == b@),
{
    if a.len() != b.len() {
        return false;
    }
    let mut i: usize = 0;
    while i < a.len()
        invariant
            a@.len() == b@.len(),
            i <= a@.len(),
            forall|j: int| 0 <= j < i ==> a@[j] == b@[j],
        decreases a@.len() - i,
    {
        if a[i] != b[i] {
            assert(a@[i as int] != b@[i as int]);
            return false;
        }
        i = i + 1;
    }
    assert(a@ =~= b@);
    true
}

/// Whether `pattern` occurs in `text` at `at`.
pub open spec fn matches_at(text: Seq<u8>, pattern: Seq<u8>, at: int) -> bool {
    0 <= at && at + pattern.len() <= text.len() && text.subrange(at, at + pattern.len()) == pattern
}

pub open spec fn starts_with(text: Seq<u8>, pattern: Seq<u8>) -> bool {
    matches_at(text, pattern, 0)
}

pub open spec fn ends_with(text: Seq<u8>, pattern: Seq<u8>) -> bool {
    matches_at(text, pattern, text.len() - pattern.len())
}

pub fn occurs_at(text: &[u8], pattern: &[u8], at: usize) -> (r: bool)
    ensures
        r == matches_at(text@, pattern@, at as int),
{
    if at > text.len() || pattern.len() > text.len() - at {
        return false;
    }
    let mut i: usize = 0;
    while i < pattern.len()
        invariant
            at + pattern@.len() <= text@.len(),
            text@.len() == text.len(),
            i <= pattern@.len(),
            forall|j: int| 0 <= j < i ==> text@[at + j] == pattern@[j],
        decreases pattern@.len() - i,
    {
        if text[at + i] != pattern[i] {
            assert(text@.subrange(at as int, at + pattern@.len())[i as int] != pattern@[i as int]);
            return false;
        }
        i = i + 1;
    }
    assert(text@.subrange(at as int, at + pattern@.len()) =~= pattern@);
    true
}

/// The first position at or after `from` where `pattern` occurs, if any.
pub open spec fn find_from(text: Seq<u8>, pattern: Seq<u8>, from: int) -> Option<int>
    decreases text.len() + 1 - from,
{
    if from < 0 || from + pattern.len() > text.len() {
        None
    } else if matches_at(text, pattern, from) {
        Some(from)
    } else {
        find_from(text, pattern, from + 1)
    }
}

pub fn find(text: &[u8], pattern: &[u8]) -> (r: Option<usize>)
    requires
        pattern@.len() > 0,
    ensures
        match r {
            Some(i) => find_from(text@, pattern@, 0) == Some(i as int),
            None => find_from(text@, pattern@, 0) is None,
        },
{
    if pattern.len() > text.len() {
        return None;
    }
    let mut i: usize = 0;
    while i <= text.len() - pattern.len()
        invariant
            pattern@.len() > 0,
            pattern@.len() <= text@.len(),
            text@.len() == text.len(),
            i <= text@.len(),
            find_from(text@, pattern@, 0) == find_from(text@, pattern@, i as int),
        decreases text@.len() - i,
    {
        if occurs_at(text, pattern, i) {
            return Some(i);
        }
        i = i + 1;
    }
    None
}

/// The first position at or after `from` holding `byte`, or the length.
pub open spec fn first_byte_from(text: Seq<u8>, byte: u8, from: int) -> int
    decreases text.len() - from,
{
    if from >= text.len() {
        text.len() as int
    } else if text[from] == byte {
        from
    } else {
        first_byte_from(text, byte, from + 1)
    }
}

/// The first position of a byte lies in range, holds the byte, and no
/// position before it does.
pub proof fn lemma_next_byte_bounds(text: Seq<u8>, byte: u8, from: int)
    requires
        0 <= from <= text.len(),
    ensures
        from <= first_byte_from(text, byte, from) <= text.len(),
        first_byte_from(text, byte, from) < text.len() ==> text[first_byte_from(text, byte, from)] == byte,
        forall|k: int| from <= k < first_byte_from(text, byte, from) ==> text[k] != byte,
    decreases text.len() - from,
{
    if from < text.len() && text[from] != byte {
        lemma_next_byte_bounds(text, byte, from + 1);
    }
}

/// Position of the first `byte` in `text[start..end]`, or `end`.
pub fn next_byte(text: &[u8], byte: u8, start: usize, end: usize) -> (r: usize)
    requires
        start <= end <= text@.len(),
    ensures
        start <= r <= end,
        r - start == first_byte_from(text@.subrange(start as int, end as int), byte, 0),
{
    let ghost t = text@.subrange(start as int, end as int);
    let mut i = start;
    while i < end
        invariant
            start <= i <= end,
            end <= text@.len(),
            t == text@.subrange(start as int, end as int),
            first_byte_from(t, byte, 0) == first_byte_from(t, byte, i - start),
        decreases end - i,
    {
        assert(t[i - start] == text@[i as int]);
        if text[i] == byte {
            return i;
        }
        i = i + 1;
    }
    i
}

/// A single-byte white-space character.
pub open spec fn ascii_space(b: u8) -> bool {
    b == 9 || b == 10 || b == 11 || b == 12 || b == 13 || b == 32
}

/// The last two bytes of a two-byte white-space character (U+0085, U+00A0).
pub open spec fn space2(a: u8, b: u8) -> bool {
    a == 0xC2 && (b == 0x85 || b == 0xA0)
}

/// A three-byte white-space character: U+1680, U+2000 to U+200A, U+2028,
/// U+2029, U+202F, U+205F, U+3000.
pub open spec fn space3(a: u8, b: u8, c: u8) -> bool {
    ||| a == 0xE1 && b == 0x9A && c == 0x80
    ||| a == 0xE2 && b == 0x80 && ((0x80 <= c && c <= 0x8A) || c == 0xA8 || c == 0xA9 || c
        == 0xAF)
    ||| a == 0xE2 && b == 0x81 && c == 0x9F
    ||| a == 0xE3 && b == 0x80 && c == 0x80
}

/// The length of the white-space character at the start of `s`, or zero.
pub open spec fn leading_space(s: Seq<u8>) -> int {
    if s.len() >= 1 && ascii_space(s[0]) {
        1
    } else if s.len() >= 2 && space2(s[0], s[1]) {
        2
    } else if s.len() >= 3 && space3(s[0], s[1], s[2]) {
        3
    } else {
        0
    }
}

/// The length of the white-space character at the end of `s`, or zero.
pub open spec fn trailing_space(s: Seq<u8>) -> int {
    let n = s.len() as int;
    if n >= 1 && ascii_space(s[n - 1]) {
        1
    } else if n >= 2 && space2(s[n - 2], s[n - 1]) {
        2
    } else if n >= 3 && space3(s[n - 3], s[n - 2], s[n - 1]) {
        3
    } else {
        0
    }
}

/// `s` without its leading white space (Unicode `White_Space`, UTF-8).
pub open spec fn trim_start(s: Seq<u8>) -> Seq<u8>
    decreases s.len(),
{
    if leading_space(s) > 0 {
        trim_start(s.subrange(leading_space(s), s.len() as int))
    } else {
        s
    }
}

/// `s` without its trailing white space.
pub open spec fn trim_end(s: Seq<u8>) -> Seq<u8>
    decreases s.len(),
{
    if trailing_space(s) > 0 {
        trim_end(s.subrange(0, s.len() - trailing_space(s)))
    } else {
        s
    }
}

/// `s` without white space at either end.
pub open spec fn trim(s: Seq<u8>) -> Seq<u8> {
    trim_end(trim_start(s))
}

fn leading_space_at(text: &[u8], start: usize, end: usize) -> (r: usize)
    requires
        start <= end <= text@.len(),
    ensures
        r == leading_space(text@.subrange(start as int, end as int)),
{
    let ghost s = text@.subrange(start as int, end as int);
    let n = end - start;
    if n >= 1 && (text[start] == 9 || text[start] == 10 || text[start] == 11 || text[start] == 12
        || text[start] == 13 || text[start] == 32) {
        return 1;
    }
    if n >= 2 && text[start] == 0xC2 && (text[start + 1] == 0x85 || text[start + 1] == 0xA0) {
        return 2;
    }
    if n >= 3 {
        let a = text[start];
        let b = text[start + 1];
        let c = text[start + 2];
        assert(a == s[0] && b == s[1] && c == s[2]);
        if (a == 0xE1 && b == 0x9A && c == 0x80) || (a == 0xE2 && b == 0x80 && ((0x80 <= c && c
            <= 0x8A) || c == 0xA8 || c == 0xA9 || c == 0xAF)) || (a == 0xE2 && b == 0x81 && c
            == 0x9F) || (a == 0xE3 && b == 0x80 && c == 0x80) {
            return 3;
        }
    }
    0
}

fn trailing_space_at(text: &[u8], start: usize, end: usize) -> (r: usize)
    requires
        start <= end <= text@.len(),
    ensures
        r == trailing_space(text@.subrange(start as int, end as int)),
{
    let ghost s = text@.subrange(start as int, end as int);
    let n = end - start;
    if n >= 1 {
        let z = text[end - 1];
        assert(z == s[s.len() - 1]);
        if z == 9 || z == 10 || z == 11 || z == 12 || z == 13 || z == 32 {
            return 1;
        }
    }
    if n >= 2 {
        let y = text[end - 2];
        let z = text[end - 1];
        assert(y == s[s.len() - 2] && z == s[s.len() - 1]);
        if y == 0xC2 && (z == 0x85 || z == 0xA0) {
            return 2;
        }
    }
    if n >= 3 {
        let a = text[end - 3];
        let b = text[end - 2];
        let c = text[end - 1];
        assert(a == s[s.len() - 3] && b == s[s.len() - 2] && c == s[s.len() - 1]);
        if (a == 0xE1 && b == 0x9A && c == 0x80) || (a == 0xE2 && b == 0x80 && ((0x80 <= c && c
            <= 0x8A) || c == 0xA8 || c == 0xA9 || c == 0xAF)) || (a == 0xE2 && b == 0x81 && c
            == 0x9F) || (a == 0xE3 && b == 0x80 && c == 0x80) {
            return 3;
        }
    }
    0
}

/// The bounds of `text[start..end]` with white space removed from both ends.
pub fn trim_range(text: &[u8], start: usize, end: usize) -> (r: (usize, usize))
    requires
        start <= end <= text@.len(),
    ensures
        start <= r.0 <= r.1 <= end,
        text@.subrange(r.0 as int, r.1 as int) == trim(text@.subrange(start as int, end as int)),
{
    let mut a = start;
    let mut k = leading_space_at(text, a, end);
    while k > 0
        invariant
            start <= a <= end,
            end <= text@.len(),
            k == leading_space(text@.subrange(a as int, end as int)),
            trim_start(text@.subrange(start as int, end as int)) == trim_start(
                text@.subrange(a as int, end as int),
            ),
        decreases end - a,
    {
        assert(text@.subrange(a as int, end as int).subrange(k as int, end - a) =~= text@.subrange(
            a + k,
            end as int,
        ));
        a = a + k;
        k = leading_space_at(text, a, end);
    }
    assert(trim_start(text@.subrange(start as int, end as int)) == text@.subrange(
        a as int,
        end as int,
    ));
    let mut b = end;
    let mut k = trailing_space_at(text, a, b);
    while k > 0
        invariant
            a <= b <= end,
            end <= text@.len(),
            k == trailing_space(text@.subrange(a as int, b as int)),
            trim_end(text@.subrange(a as int, end as int)) == trim_end(
                text@.subrange(a as int, b as int),
            ),
        decreases b - a,
    {
        assert(text@.subrange(a as int, b as int).subrange(0, b - a - k) =~= text@.subrange(
            a as int,
            b - k,
        ));
        b = b - k;
        k = trailing_space_at(text, a, b);
    }
    (a, b)
}

/// Lower-case form of an ASCII letter; other bytes are unchanged.
pub open spec fn ascii_lower(b: u8) -> u8 {
    if 65 <= b && b <= 90 {
        (b + 32) as u8
    } else {
        b
    }
}

/// Equality that ignores ASCII letter case.
pub open spec fn same_ignoring_case(a: Seq<u8>, b: Seq<u8>) -> bool {
    a.len() == b.len() && forall|i: int| 0 <= i < a.len() ==> ascii_lower(a[i]) == ascii_lower(b[i])
}

pub fn eq_ignore_case(a: &[u8], b: &[u8]) -> (r: bool)
    ensures
        r == same_ignoring_case(a@, b@),
{
    if a.len() != b.len() {
        return false;
    }
    let mut i: usize = 0;
    while i < a.len()
        invariant
            a@.len() == b@.len(),
            i <= a@.len(),
            forall|j: int| 0 <= j < i ==> ascii_lower(a@[j]) == ascii_lower(b@[j]),
        decreases a@.len() - i,
    {
        let x = a[i];
        let y = b[i];
        let lx = if 65 <= x && x <= 90 {
            x + 32
        } else {
            x
        };
        let ly = if 65 <= y && y <= 90 {
            y + 32
        } else {
            y
        };
        if lx != ly {
            return false;
        }
        i = i + 1;
    }
    true
}

/// `s` with every trailing repetition of a non-empty `suffix` removed.
pub open spec fn strip_suffixes(s: Seq<u8>, suffix: Seq<u8>) -> Seq<u8>
    decreases s.len(),
{
    if suffix.len() > 0 && suffix.len() <= s.len() && s.subrange(
        s.len() - suffix.len(),
        s.len() as int,
    ) == suffix {
        strip_suffixes(s.subrange(0, s.len() - suffix.len()), suffix)
    } else {
        s
    }
}

/// The end of `text[start..end]` once every trailing `suffix` is removed.
pub fn strip_suffixes_end(text: &[u8], start: usize, end: usize, suffix: &[u8]) -> (r: usize)
    requires
        start <= end <= text@.len(),
    ensures
        start <= r <= end,
        text@.subrange(start as int, r as int) == strip_suffixes(
            text@.subrange(start as int, end as int),
            suffix@,
        ),
{
    let mut b = end;
    let mut going = suffix.len() > 0 && suffix.len() <= b - start && occurs_at(
        text,
        suffix,
        b - suffix.len(),
    );
    while going
        invariant
            start <= b <= end,
            end <= text@.len(),
            going == (suffix@.len() > 0 && suffix@.len() <= b - start && matches_at(
                text@,
                suffix@,
                b - suffix@.len(),
            )),
            strip_suffixes(text@.subrange(start as int, end as int), suffix@) == strip_suffixes(
                text@.subrange(start as int, b as int),
                suffix@,
            ),
        decreases b - start,
    {
        let ghost s = text@.subrange(start as int, b as int);
        let at = b - suffix.len();
        assert(s.subrange(s.len() - suffix@.len(), s.len() as int) =~= text@.subrange(
            at as int,
            at + suffix@.len(),
        ));
        assert(s.subrange(0, s.len() - suffix@.len()) =~= text@.subrange(start as int, at as int));
        b = at;
        going = suffix.len() > 0 && suffix.len() <= b - start && occurs_at(
            text,
            suffix,
            b - suffix.len(),
        );
    }
    proof {
        let s = text@.subrange(start as int, b as int);
        if suffix@.len() > 0 && suffix@.len() <= s.len() {
            assert(s.subrange(s.len() - suffix@.len(), s.len() as int) =~= text@.subrange(
                b - suffix@.len(),
                b as int,
            ));
        }
    }
    b
}

} // verus!
