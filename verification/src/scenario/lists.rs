//! Value lists and references between profiles.
use vstd::prelude::*;

use super::error::{SceError, SceFault};
use super::profile::{dup, lookup, name_key, sections_view, Section, SectionView};
use super::text::{
    ascii, bytes_of, copy_range, eq_ignore_case, first_byte_from, lemma_next_byte_bounds,
    next_byte, same_ignoring_case, strip_suffixes, strip_suffixes_end, trim, trim_range,
};

verus! {

/// The pieces of `s` between occurrences of `sep`; there is always at least
/// one piece, possibly empty.
pub open spec fn pieces(s: Seq<u8>, sep: u8) -> Seq<Seq<u8>>
    decreases s.len(),
{
    let q = first_byte_from(s, sep, 0);
    if q >= s.len() || q < 0 {
        seq![s]
    } else {
        seq![s.subrange(0, q)] + pieces(s.subrange(q + 1, s.len() as int), sep)
    }
}

/// The abstract form of a list of byte strings.
pub open spec fn strings_view(v: Seq<Vec<u8>>) -> Seq<Seq<u8>> {
    v.map_values(|x: Vec<u8>| x@)
}

proof fn lemma_strings_push(v: Seq<Vec<u8>>, x: Vec<u8>)
    ensures
        strings_view(v.push(x)) == strings_view(v).push(x@),
{
    assert(strings_view(v.push(x)) =~= strings_view(v).push(x@));
}

/// Splits `s` at every `sep` byte.
pub fn split(s: &[u8], sep: u8) -> (r: Vec<Vec<u8>>)
    ensures
        strings_view(r@) == pieces(s@, sep),
{
    let mut out: Vec<Vec<u8>> = Vec::new();
    let mut pos: usize = 0;
    assert(s@.subrange(0, s@.len() as int) =~= s@);
    loop
        invariant
            pos <= s@.len(),
            pieces(s@, sep) == strings_view(out@) + pieces(
                s@.subrange(pos as int, s@.len() as int),
                sep,
            ),
        decreases s@.len() - pos,
    {
        let ghost rest = s@.subrange(pos as int, s@.len() as int);
        let q = next_byte(s, sep, pos, s.len());
        proof {
            lemma_next_byte_bounds(rest, sep, 0);
        }
        let piece = copy_range(s, pos, q);
        assert(piece@ =~= rest.subrange(0, q - pos));
        proof {
            lemma_strings_push(out@, piece);
        }
        if q == s.len() {
            out.push(piece);
            assert(pieces(rest, sep) == seq![piece@]);
            assert(strings_view(out@) =~= strings_view(out@.drop_last()) + seq![piece@]);
            return out;
        }
        let ghost before = strings_view(out@);
        out.push(piece);
        assert(rest.subrange(q - pos + 1, rest.len() as int) =~= s@.subrange(
            q + 1,
            s@.len() as int,
        ));
        assert(before + pieces(rest, sep) =~= strings_view(out@) + pieces(
            s@.subrange(q + 1, s@.len() as int),
            sep,
        ));
        pos = q + 1;
    }
}

/// The non-empty pieces, in order.
pub open spec fn non_empty(p: Seq<Seq<u8>>) -> Seq<Seq<u8>> {
    p.filter(|x: Seq<u8>| x.len() > 0)
}

/// Splits `s` at every `sep` byte and drops empty pieces.
pub fn split_non_empty(s: &[u8], sep: u8) -> (r: Vec<Vec<u8>>)
    ensures
        strings_view(r@) == non_empty(pieces(s@, sep)),
{
    let all = split(s, sep);
    let ghost p = strings_view(all@);
    let mut out: Vec<Vec<u8>> = Vec::new();
    let mut i: usize = 0;
    assert(p.subrange(0, 0) =~= Seq::<Seq<u8>>::empty());
    while i < all.len()
        invariant
            p == strings_view(all@),
            i <= all@.len(),
            strings_view(out@) == non_empty(p.subrange(0, i as int)),
        decreases all@.len() - i,
    {
        assert(p.subrange(0, i + 1).drop_last() =~= p.subrange(0, i as int));
        reveal_with_fuel(Seq::<_>::filter, 1);
        if all[i].len() > 0 {
            let item = dup(all[i].as_slice());
            proof {
                lemma_strings_push(out@, item);
            }
            out.push(item);
        }
        i = i + 1;
    }
    assert(p.subrange(0, all@.len() as int) =~= p);
    out
}

/// The profile name a reference points at: trailing `.bot` and then
/// `.abilmelee` extensions are removed.
pub open spec fn referenced_name(name: Seq<u8>) -> Seq<u8> {
    strip_suffixes(strip_suffixes(name, ascii(".bot"@)), ascii(".abilmelee"@))
}

/// Whether a profile is of `kind` and named `name`, ignoring ASCII case.
pub open spec fn is_named(s: SectionView, kind: Seq<u8>, name: Seq<u8>) -> bool {
    s.kind == kind && match lookup(s.fields, name_key()) {
        Some(n) => same_ignoring_case(n, name),
        None => false,
    }
}

/// The first profile from `from` on of `kind` named `name`.
pub open spec fn first_named(secs: Seq<SectionView>, kind: Seq<u8>, name: Seq<u8>, from: int) -> Option<
    int,
>
    decreases secs.len() - from,
{
    if from < 0 || from >= secs.len() {
        None
    } else if is_named(secs[from], kind, name) {
        Some(from)
    } else {
        first_named(secs, kind, name, from + 1)
    }
}

/// The profile a reference resolves to, or the unresolved name.
pub open spec fn resolve(secs: Seq<SectionView>, kind: Seq<u8>, name: Seq<u8>) -> Result<
    int,
    SceFault,
> {
    let n = referenced_name(name);
    match first_named(secs, kind, n, 0) {
        Some(i) => Ok(i),
        None => Err(SceFault::Unresolved { kind: kind, name: n }),
    }
}

/// Resolves a reference to a profile of `kind`, returning its index.
pub fn reference(secs: &Vec<Section>, kind: &[u8], name: &[u8]) -> (r: Result<usize, SceError>)
    ensures
        match (r, resolve(sections_view(secs@), kind@, name@)) {
            (Ok(i), Ok(j)) => i == j && i < secs@.len(),
            (Err(e), Err(f)) => e@ == f,
            _ => false,
        },
{
    proof {
        reveal_strlit(".bot");
        reveal_strlit(".abilmelee");
        reveal_strlit("Name");
    }
    let e1 = strip_suffixes_end(name, 0, name.len(), bytes_of(".bot"));
    let e2 = strip_suffixes_end(name, 0, e1, bytes_of(".abilmelee"));
    assert(name@.subrange(0, name@.len() as int) =~= name@);
    let n = vstd::slice::slice_subrange(name, 0, e2);
    assert(n@ == referenced_name(name@));
    let ghost sv = sections_view(secs@);
    let nk = bytes_of("Name");
    let mut i: usize = 0;
    while i < secs.len()
        invariant
            sv == sections_view(secs@),
            i <= secs@.len(),
            nk@ == name_key(),
            n@ == referenced_name(name@),
            first_named(sv, kind@, n@, 0) == first_named(sv, kind@, n@, i as int),
        decreases secs@.len() - i,
    {
        assert(sv[i as int] == secs@[i as int]@);
        if super::text::bytes_eq(secs[i].kind().as_slice(), kind) {
            match secs[i].lookup(nk) {
                Some(v) => {
                    if eq_ignore_case(v.as_slice(), n) {
                        assert(is_named(sv[i as int], kind@, n@));
                        return Ok(i);
                    }
                },
                None => {},
            }
        }
        i = i + 1;
    }
    Err(SceError::Unresolved { kind: dup(kind), name: dup(n) })
}

/// Splits `s` at every `sep` byte and trims white space off each piece.
pub fn split_trimmed(s: &[u8], sep: u8) -> (r: Vec<Vec<u8>>)
    ensures
        strings_view(r@) == pieces(s@, sep).map_values(|p: Seq<u8>| trim(p)),
{
    let all = split(s, sep);
    let ghost p = strings_view(all@);
    let mut out: Vec<Vec<u8>> = Vec::new();
    let mut i: usize = 0;
    while i < all.len()
        invariant
            p == strings_view(all@),
            i <= all@.len(),
            strings_view(out@) =~= p.subrange(0, i as int).map_values(|x: Seq<u8>| trim(x)),
        decreases all@.len() - i,
    {
        let piece = all[i].as_slice();
        let (a, b) = trim_range(piece, 0, piece.len());
        assert(piece@.subrange(0, piece@.len() as int) =~= piece@);
        let t = copy_range(piece, a, b);
        proof {
            lemma_strings_push(out@, t);
        }
        out.push(t);
        i = i + 1;
    }
    assert(p.subrange(0, all@.len() as int) =~= p);
    out
}

/// The number an ASCII digit string spells.
pub open spec fn digits_value(s: Seq<u8>) -> nat
    decreases s.len(),
{
    if s.len() == 0 {
        0
    } else {
        digits_value(s.drop_last()) * 10 + (s.last() - 48) as nat
    }
}

pub open spec fn all_digits(s: Seq<u8>) -> bool {
    forall|i: int| 0 <= i < s.len() ==> 48 <= #[trigger] s[i] <= 57
}

/// The digits of an unsigned number's text: an optional `+` sign is dropped.
pub open spec fn unsigned_digits(s: Seq<u8>) -> Seq<u8> {
    if s.len() > 0 && s[0] == 43 {
        s.drop_first()
    } else {
        s
    }
}

/// The count a text states, read as an unsigned 32-bit number.
pub open spec fn count_of(s: Seq<u8>) -> Option<u32> {
    let d = unsigned_digits(s);
    if d.len() > 0 && all_digits(d) && digits_value(d) <= u32::MAX {
        Some(digits_value(d) as u32)
    } else {
        None
    }
}

proof fn lemma_digits_grow(s: Seq<u8>, i: int)
    requires
        0 <= i <= s.len(),
        all_digits(s),
    ensures
        digits_value(s.subrange(0, i)) <= digits_value(s),
    decreases s.len() - i,
{
    if i < s.len() {
        lemma_digits_grow(s, i + 1);
        assert(s.subrange(0, i + 1).drop_last() =~= s.subrange(0, i));
    } else {
        assert(s.subrange(0, i) =~= s);
    }
}

/// Reads an unsigned 32-bit count, as Rust's `u32` parsing does: an optional
/// `+`, then one or more ASCII digits, within range.
pub fn parse_count(s: &[u8]) -> (r: Option<u32>)
    ensures
        r == count_of(s@),
{
    let start: usize = if s.len() > 0 && s[0] == 43 {
        1
    } else {
        0
    };
    let ghost d = unsigned_digits(s@);
    assert(d =~= s@.subrange(start as int, s@.len() as int));
    if start == s.len() {
        return None;
    }
    let mut i: usize = start;
    let mut acc: u64 = 0;
    assert(d.subrange(0, 0) =~= Seq::<u8>::empty());
    while i < s.len()
        invariant
            start <= i <= s@.len(),
            d == s@.subrange(start as int, s@.len() as int),
            d == unsigned_digits(s@),
            all_digits(d.subrange(0, i - start)),
            acc == digits_value(d.subrange(0, i - start)),
            acc <= u32::MAX,
        decreases s@.len() - i,
    {
        let b = s[i];
        assert(d[i - start] == b);
        if b < 48 || b > 57 {
            assert(!all_digits(d));
            return None;
        }
        assert(d.subrange(0, i - start + 1).drop_last() =~= d.subrange(0, i - start));
        acc = acc * 10 + (b - 48) as u64;
        i = i + 1;
        if acc > 4294967295 {
            proof {
                let k = i - start;
                if all_digits(d) {
                    lemma_digits_grow(d, k);
                }
            }
            return None;
        }
    }
    assert(d.subrange(0, d.len() as int) =~= d);
    Some(acc as u32)
}

} // verus!
