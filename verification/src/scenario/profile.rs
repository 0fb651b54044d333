//! The profile part of a scenario file: `[Kind]` headers followed by
//! `key=value` lines, each profile holding its fields in key order.
use vstd::prelude::*;

use super::error::{SceError, SceFault};
use super::text::{
    ascii, bytes_eq, bytes_of, copy_range, eq_ignore_case, first_byte_from,
    lemma_next_byte_bounds, next_byte, same_ignoring_case, starts_with, trim, trim_range,
};

verus! {

/// Byte-wise lexicographic order, the order of Rust strings.
pub open spec fn lex_lt(a: Seq<u8>, b: Seq<u8>) -> bool
    decreases a.len(),
{
    if b.len() == 0 {
        false
    } else if a.len() == 0 {
        true
    } else if a[0] != b[0] {
        a[0] < b[0]
    } else {
        lex_lt(a.drop_first(), b.drop_first())
    }
}

/// No byte string sorts before itself.
pub proof fn lemma_lex_irreflexive(a: Seq<u8>)
    ensures
        !lex_lt(a, a),
    decreases a.len(),
{
    if a.len() > 0 {
        lemma_lex_irreflexive(a.drop_first());
    }
}

/// The byte order is transitive.
pub proof fn lemma_lex_transitive(a: Seq<u8>, b: Seq<u8>, c: Seq<u8>)
    requires
        lex_lt(a, b),
        lex_lt(b, c),
    ensures
        lex_lt(a, c),
    decreases a.len(),
{
    if a.len() > 0 && b.len() > 0 && c.len() > 0 && a[0] == b[0] && b[0] == c[0] {
        lemma_lex_transitive(a.drop_first(), b.drop_first(), c.drop_first());
    }
}

/// Of two different byte strings, one sorts before the other.
pub proof fn lemma_lex_total(a: Seq<u8>, b: Seq<u8>)
    ensures
        a == b || lex_lt(a, b) || lex_lt(b, a),
    decreases a.len(),
{
    if a.len() > 0 && b.len() > 0 && a[0] == b[0] {
        lemma_lex_total(a.drop_first(), b.drop_first());
        if a.drop_first() == b.drop_first() {
            assert(a.drop_first().len() == b.drop_first().len());
            assert(a.len() == b.len());
            assert forall|i: int| 0 <= i < a.len() implies a[i] == b[i] by {
                if i > 0 {
                    assert(a[i] == a.drop_first()[i - 1]);
                    assert(b[i] == b.drop_first()[i - 1]);
                }
            }
            assert(a =~= b);
        }
    } else if a.len() == 0 && b.len() == 0 {
        assert(a =~= b);
    }
}

/// Compares two byte strings in lexicographic order.
pub fn lex_less(a: &[u8], b: &[u8]) -> (r: bool)
    ensures
        r == lex_lt(a@, b@),
{
    let mut i: usize = 0;
    assert(a@.skip(0) =~= a@);
    assert(b@.skip(0) =~= b@);
    while i < a.len() && i < b.len() && a[i] == b[i]
        invariant
            i <= a@.len(),
            i <= b@.len(),
            lex_lt(a@, b@) == lex_lt(a@.skip(i as int), b@.skip(i as int)),
        decreases a@.len() - i,
    {
        assert(a@.skip(i as int).drop_first() =~= a@.skip(i + 1));
        assert(b@.skip(i as int).drop_first() =~= b@.skip(i + 1));
        i = i + 1;
    }
    if i == b.len() {
        false
    } else if i == a.len() {
        true
    } else {
        a[i] < b[i]
    }
}

/// A profile's fields as key/value byte strings.
pub type Fields = Seq<(Seq<u8>, Seq<u8>)>;

/// Keys strictly increase.
pub open spec fn keys_sorted(f: Fields) -> bool {
    forall|i: int, j: int| 0 <= i < j < f.len() ==> lex_lt(f[i].0, f[j].0)
}

/// The value stored under `key`.
pub open spec fn lookup(f: Fields, key: Seq<u8>) -> Option<Seq<u8>>
    decreases f.len(),
{
    if f.len() == 0 {
        None
    } else if f[0].0 == key {
        Some(f[0].1)
    } else {
        lookup(f.drop_first(), key)
    }
}

/// A key is missing exactly when no field carries it.
pub proof fn lemma_lookup_none(f: Fields, key: Seq<u8>)
    ensures
        lookup(f, key) is None <==> forall|i: int| 0 <= i < f.len() ==> f[i].0 != key,
    decreases f.len(),
{
    if f.len() > 0 {
        lemma_lookup_none(f.drop_first(), key);
        if lookup(f, key) is None {
            assert forall|i: int| 0 <= i < f.len() implies f[i].0 != key by {
                if i > 0 {
                    assert(f.drop_first()[i - 1] == f[i]);
                }
            }
        } else if f[0].0 != key {
            let w = choose|i: int| 0 <= i < f.drop_first().len() && f.drop_first()[i].0 == key;
            assert(f[w + 1].0 == key);
        }
    }
}

/// Where a new key goes: after every smaller key.
pub open spec fn insert_pos(f: Fields, key: Seq<u8>) -> int
    decreases f.len(),
{
    if f.len() == 0 || !lex_lt(f[0].0, key) {
        0
    } else {
        1 + insert_pos(f.drop_first(), key)
    }
}

/// The fields with a new key added in key order.
pub open spec fn sorted_insert(f: Fields, key: Seq<u8>, value: Seq<u8>) -> Fields {
    f.insert(insert_pos(f, key), (key, value))
}

proof fn lemma_insert_pos(f: Fields, key: Seq<u8>, p: int)
    requires
        0 <= p <= f.len(),
        forall|j: int| 0 <= j < p ==> lex_lt(f[j].0, key),
        p < f.len() ==> !lex_lt(f[p].0, key),
    ensures
        insert_pos(f, key) == p,
    decreases p,
{
    if p > 0 {
        assert forall|j: int| 0 <= j < p - 1 implies lex_lt(f.drop_first()[j].0, key) by {
            assert(f.drop_first()[j] == f[j + 1]);
        }
        if p - 1 < f.drop_first().len() {
            assert(f.drop_first()[p - 1] == f[p]);
        }
        lemma_insert_pos(f.drop_first(), key, p - 1);
    }
}

/// The abstract form of a profile.
pub struct SectionView {
    pub kind: Seq<u8>,
    pub fields: Fields,
}

/// One profile: its kind (the header text) and its fields in key order.
pub struct Section {
    kind: Vec<u8>,
    fields: Vec<(Vec<u8>, Vec<u8>)>,
}

pub open spec fn field_view(p: (Vec<u8>, Vec<u8>)) -> (Seq<u8>, Seq<u8>) {
    (p.0@, p.1@)
}

impl View for Section {
    type V = SectionView;

    closed spec fn view(&self) -> SectionView {
        SectionView { kind: self.kind@, fields: self.fields@.map_values(|p| field_view(p)) }
    }
}

/// The abstract form of a list of profiles.
pub open spec fn sections_view(s: Seq<Section>) -> Seq<SectionView> {
    s.map_values(|x: Section| x@)
}

/// Copies a byte string.
pub fn dup(v: &[u8]) -> (r: Vec<u8>)
    ensures
        r@ == v@,
{
    vstd::slice::slice_to_vec(v)
}

/// The key that names a profile.
pub open spec fn name_key() -> Seq<u8> {
    ascii("Name"@)
}

/// The abstract result of reading a field.
pub open spec fn get_result(s: SectionView, key: Seq<u8>) -> Result<Seq<u8>, SceFault> {
    match lookup(s.fields, key) {
        Some(v) => Ok(v),
        None => Err(SceFault::MissingField { kind: s.kind, key: key }),
    }
}

/// The abstract result of reading a `true`/`false` field.
pub open spec fn flag_result(s: SectionView, key: Seq<u8>) -> Result<bool, SceFault> {
    match get_result(s, key) {
        Err(e) => Err(e),
        Ok(v) => if v == ascii("true"@) {
            Ok(true)
        } else if v == ascii("false"@) {
            Ok(false)
        } else {
            Err(SceFault::InvalidBoolean(key))
        },
    }
}

/// The abstract result of demanding a field's one supported value.
pub open spec fn require_result(s: SectionView, key: Seq<u8>, value: Seq<u8>) -> Result<
    (),
    SceFault,
> {
    match get_result(s, key) {
        Err(e) => Err(e),
        Ok(v) => if v == value {
            Ok(())
        } else {
            Err(SceFault::Unsupported { kind: s.kind, key: key, value: value })
        },
    }
}

/// The abstract result of demanding `false` where a field is present.
pub open spec fn false_if_present_result(s: SectionView, key: Seq<u8>) -> Result<(), SceFault> {
    if lookup(s.fields, key) is Some {
        require_result(s, key, ascii("false"@))
    } else {
        Ok(())
    }
}

impl Section {
    pub fn new(kind: Vec<u8>) -> (r: Section)
        ensures
            r@.kind == kind@,
            r@.fields == Seq::<(Seq<u8>, Seq<u8>)>::empty(),
    {
        let r = Section { kind, fields: Vec::new() };
        assert(r@.fields =~= Seq::<(Seq<u8>, Seq<u8>)>::empty());
        r
    }

    pub fn kind(&self) -> (r: &Vec<u8>)
        ensures
            r@ == self@.kind,
    {
        &self.kind
    }

    /// The number of fields.
    pub fn len(&self) -> (r: usize)
        ensures
            r == self@.fields.len(),
    {
        self.fields.len()
    }

    /// The key and value of the `i`-th field in key order.
    pub fn field(&self, i: usize) -> (r: (&Vec<u8>, &Vec<u8>))
        requires
            i < self@.fields.len(),
        ensures
            r.0@ == self@.fields[i as int].0,
            r.1@ == self@.fields[i as int].1,
    {
        let p = &self.fields[i];
        (&p.0, &p.1)
    }

    /// The value of a field, if present.
    pub fn lookup(&self, key: &[u8]) -> (r: Option<&Vec<u8>>)
        ensures
            match (r, lookup(self@.fields, key@)) {
                (Some(v), Some(w)) => v@ == w,
                (None, None) => true,
                _ => false,
            },
    {
        let ghost f = self@.fields;
        let mut i: usize = 0;
        assert(f.skip(0) =~= f);
        while i < self.fields.len()
            invariant
                f == self@.fields,
                i <= f.len(),
                lookup(f, key@) == lookup(f.skip(i as int), key@),
            decreases f.len() - i,
        {
            assert(f.skip(i as int).drop_first() =~= f.skip(i + 1));
            assert(f.skip(i as int)[0] == field_view(self.fields@[i as int]));
            if bytes_eq(self.fields[i].0.as_slice(), key) {
                return Some(&self.fields[i].1);
            }
            i = i + 1;
        }
        None
    }

    /// Whether a field is present.
    pub fn contains(&self, key: &[u8]) -> (r: bool)
        ensures
            r == lookup(self@.fields, key@) is Some,
    {
        self.lookup(key).is_some()
    }

    /// A field's value; missing fields are an error naming the profile kind.
    pub fn get(&self, key: &[u8]) -> (r: Result<&Vec<u8>, SceError>)
        ensures
            match (r, get_result(self@, key@)) {
                (Ok(v), Ok(w)) => v@ == w,
                (Err(e), Err(f)) => e@ == f,
                _ => false,
            },
    {
        match self.lookup(key) {
            Some(v) => Ok(v),
            None => Err(SceError::MissingField { kind: dup(self.kind.as_slice()), key: dup(key) }),
        }
    }

    /// A `true`/`false` field.
    pub fn flag(&self, key: &[u8]) -> (r: Result<bool, SceError>)
        ensures
            match (r, flag_result(self@, key@)) {
                (Ok(v), Ok(w)) => v == w,
                (Err(e), Err(f)) => e@ == f,
                _ => false,
            },
    {
        let v = self.get(key)?;
        proof {
            reveal_strlit("true");
            reveal_strlit("false");
        }
        if bytes_eq(v.as_slice(), bytes_of("true")) {
            Ok(true)
        } else if bytes_eq(v.as_slice(), bytes_of("false")) {
            Ok(false)
        } else {
            Err(SceError::InvalidBoolean(dup(key)))
        }
    }

    /// Demands that a field hold exactly `value`.
    pub fn require(&self, key: &[u8], value: &[u8]) -> (r: Result<(), SceError>)
        ensures
            match (r, require_result(self@, key@, value@)) {
                (Ok(_), Ok(_)) => true,
                (Err(e), Err(f)) => e@ == f,
                _ => false,
            },
    {
        let v = self.get(key)?;
        if bytes_eq(v.as_slice(), value) {
            Ok(())
        } else {
            Err(
                SceError::Unsupported {
                    kind: dup(self.kind.as_slice()),
                    key: dup(key),
                    value: dup(value),
                },
            )
        }
    }

    /// Demands `false` where a field is present.
    pub fn false_if_present(&self, key: &[u8]) -> (r: Result<(), SceError>)
        ensures
            match (r, false_if_present_result(self@, key@)) {
                (Ok(_), Ok(_)) => true,
                (Err(e), Err(f)) => e@ == f,
                _ => false,
            },
    {
        if self.contains(key) {
            proof {
                reveal_strlit("false");
            }
            self.require(key, bytes_of("false"))
        } else {
            Ok(())
        }
    }

    /// Adds a field in key order; returns false, changing nothing, when the
    /// key is already present.
    pub(crate) fn insert(&mut self, key: Vec<u8>, value: Vec<u8>) -> (r: bool)
        requires
            keys_sorted(old(self)@.fields),
        ensures
            r == lookup(old(self)@.fields, key@) is None,
            r ==> final(self)@ == (SectionView {
                kind: old(self)@.kind,
                fields: sorted_insert(old(self)@.fields, key@, value@),
            }),
            !r ==> final(self)@ == old(self)@,
            keys_sorted(final(self)@.fields),
    {
        let ghost f = self@.fields;
        proof {
            lemma_lookup_none(f, key@);
        }
        let mut i: usize = 0;
        while i < self.fields.len() && lex_less(self.fields[i].0.as_slice(), key.as_slice())
            invariant
                f == self@.fields,
                f.len() == self.fields@.len(),
                i <= f.len(),
                forall|j: int| 0 <= j < i ==> lex_lt(f[j].0, key@),
            decreases f.len() - i,
        {
            assert(f[i as int] == field_view(self.fields@[i as int]));
            i = i + 1;
        }
        if i < self.fields.len() {
            assert(f[i as int] == field_view(self.fields@[i as int]));
            if bytes_eq(self.fields[i].0.as_slice(), key.as_slice()) {
                return false;
            }
        }
        proof {
            lemma_insert_pos(f, key@, i as int);
            if i < f.len() {
                lemma_lex_total(f[i as int].0, key@);
            }
            assert forall|j: int| 0 <= j < f.len() implies f[j].0 != key@ by {
                if j < i {
                    lemma_lex_irreflexive(key@);
                } else if j > i {
                    lemma_lex_transitive(key@, f[i as int].0, f[j].0);
                    lemma_lex_irreflexive(key@);
                }
            }
        }
        let ghost kv = key@;
        let ghost vv = value@;
        self.fields.insert(i, (key, value));
        proof {
            let g = self@.fields;
            assert(g =~= f.insert(i as int, (kv, vv)));
            assert forall|a: int, b: int| 0 <= a < b < g.len() implies lex_lt(g[a].0, g[b].0) by {
                if b < i {
                } else if b == i {
                } else if a < i {
                    lemma_lex_transitive(g[a].0, kv, f[i as int].0);
                    if b - 1 > i {
                        lemma_lex_transitive(g[a].0, f[i as int].0, f[b - 1].0);
                    }
                } else if a == i {
                    if b - 1 > i {
                        lemma_lex_transitive(kv, f[i as int].0, f[b - 1].0);
                    }
                } else {
                }
            }
        }
        true
    }
}

/// Most profiles a file may hold, the scenario's own settings included.
pub const MAX_PROFILES: usize = 64;

/// `s` without any byte-order marks at its start.
pub open spec fn strip_boms(s: Seq<u8>) -> Seq<u8>
    decreases s.len(),
{
    if s.len() >= 3 && s[0] == 0xEF && s[1] == 0xBB && s[2] == 0xBF {
        strip_boms(s.subrange(3, s.len() as int))
    } else {
        s
    }
}

/// A line as the grammar reads it: trimmed, then without byte-order marks.
pub open spec fn line_content(line: Seq<u8>) -> Seq<u8> {
    strip_boms(trim(line))
}

/// The profile kinds a file may declare.
pub open spec fn allowed_kind(kind: Seq<u8>) -> bool {
    ||| kind == ascii("Aim Profile"@)
    ||| kind == ascii("Bot Profile"@)
    ||| kind == ascii("Character Profile"@)
    ||| kind == ascii("Dodge Profile"@)
    ||| kind == ascii("Weapon Profile"@)
    ||| kind == ascii("Melee Ability Profile"@)
}

/// The kind of the scenario's own settings, the first profile.
pub open spec fn root_kind() -> Seq<u8> {
    ascii("Scenario"@)
}

pub open spec fn root_section() -> SectionView {
    SectionView { kind: root_kind(), fields: Seq::empty() }
}

/// Reads one line (numbered from zero) into the profiles read so far.
pub open spec fn step(secs: Seq<SectionView>, line: Seq<u8>, number: nat) -> Result<
    Seq<SectionView>,
    SceFault,
> {
    let t = line_content(line);
    if t.len() == 0 || starts_with(t, ascii("//"@)) {
        Ok(secs)
    } else if t[0] == 91 && t[t.len() - 1] == 93 {
        let kind = t.subrange(1, t.len() - 1);
        if !allowed_kind(kind) {
            Err(SceFault::UnsupportedProfile(kind))
        } else if secs.len() >= MAX_PROFILES {
            Err(SceFault::TooManyProfiles)
        } else {
            Ok(secs.push(SectionView { kind: kind, fields: Seq::empty() }))
        }
    } else {
        let p = first_byte_from(t, 61, 0);
        if p >= t.len() {
            Err(SceFault::InvalidLine(number + 1))
        } else {
            let raw = t.subrange(0, p);
            let key = trim(raw);
            let value = trim(t.subrange(p + 1, t.len() as int));
            let last = secs.last();
            if lookup(last.fields, key) is Some {
                Err(SceFault::DuplicateField(raw))
            } else {
                Ok(
                    secs.update(
                        secs.len() - 1,
                        SectionView { kind: last.kind, fields: sorted_insert(last.fields, key, value) },
                    ),
                )
            }
        }
    }
}

/// Reads the lines of `rest` (the first numbered `number`) into `secs`.
/// Lines end at each newline byte.
pub open spec fn read_lines(rest: Seq<u8>, number: nat, secs: Seq<SectionView>) -> Result<
    Seq<SectionView>,
    SceFault,
>
    decreases rest.len(),
{
    let q = first_byte_from(rest, 10, 0);
    match step(secs, rest.subrange(0, q), number) {
        Err(e) => Err(e),
        Ok(next) => if q >= rest.len() || q < 0 {
            Ok(next)
        } else {
            read_lines(rest.subrange(q + 1, rest.len() as int), number + 1, next)
        },
    }
}

/// Whether an earlier profile (not the root) of the same kind as profile `i`
/// bears `name`, ignoring ASCII case.
pub open spec fn clashes(secs: Seq<SectionView>, i: int, name: Seq<u8>) -> bool {
    exists|j: int|
        1 <= j < i && secs[j].kind == secs[i].kind && match lookup(secs[j].fields, name_key()) {
            Some(n) => same_ignoring_case(n, name),
            None => false,
        }
}

/// The first unnamed or doubly named profile from `i` on.
pub open spec fn first_duplicate(secs: Seq<SectionView>, i: int) -> Option<SceFault>
    decreases secs.len() - i,
{
    if i >= secs.len() || i < 1 {
        None
    } else {
        match lookup(secs[i].fields, name_key()) {
            None => Some(SceFault::MissingField { kind: secs[i].kind, key: name_key() }),
            Some(name) => if clashes(secs, i, name) {
                Some(SceFault::DuplicateProfile(name))
            } else {
                first_duplicate(secs, i + 1)
            },
        }
    }
}

/// The profiles of a file's profile part, or the first fault in it.
pub open spec fn profiles_of(text: Seq<u8>) -> Result<Seq<SectionView>, SceFault> {
    match read_lines(text, 0, seq![root_section()]) {
        Err(e) => Err(e),
        Ok(secs) => match first_duplicate(secs, 1) {
            Some(e) => Err(e),
            None => Ok(secs),
        },
    }
}

fn skip_boms(text: &[u8], start: usize, end: usize) -> (r: usize)
    requires
        start <= end <= text@.len(),
    ensures
        start <= r <= end,
        text@.subrange(r as int, end as int) == strip_boms(text@.subrange(start as int, end as int)),
{
    let mut a = start;
    while end - a >= 3 && text[a] == 0xEF && text[a + 1] == 0xBB && text[a + 2] == 0xBF
        invariant
            start <= a <= end,
            end <= text@.len(),
            strip_boms(text@.subrange(start as int, end as int)) == strip_boms(
                text@.subrange(a as int, end as int),
            ),
        decreases end - a,
    {
        assert(text@.subrange(a as int, end as int).subrange(3, end - a) =~= text@.subrange(
            a + 3,
            end as int,
        ));
        a = a + 3;
    }
    a
}

fn is_allowed_kind(kind: &[u8]) -> (r: bool)
    ensures
        r == allowed_kind(kind@),
{
    proof {
        reveal_strlit("Aim Profile");
        reveal_strlit("Bot Profile");
        reveal_strlit("Character Profile");
        reveal_strlit("Dodge Profile");
        reveal_strlit("Weapon Profile");
        reveal_strlit("Melee Ability Profile");
    }
    bytes_eq(kind, bytes_of("Aim Profile")) || bytes_eq(kind, bytes_of("Bot Profile")) || bytes_eq(
        kind,
        bytes_of("Character Profile"),
    ) || bytes_eq(kind, bytes_of("Dodge Profile")) || bytes_eq(kind, bytes_of("Weapon Profile"))
        || bytes_eq(kind, bytes_of("Melee Ability Profile"))
}

proof fn lemma_view_push(v: Seq<Section>, x: Section)
    ensures
        sections_view(v.push(x)) == sections_view(v).push(x@),
{
    assert(sections_view(v.push(x)) =~= sections_view(v).push(x@));
}

/// Reads one line, given as `text[start..end]`, into `secs`.
fn read_line(secs: &mut Vec<Section>, text: &[u8], start: usize, end: usize, number: usize) -> (r:
    Result<(), SceError>)
    requires
        start <= end <= text@.len(),
        number < usize::MAX,
        old(secs)@.len() >= 1,
        forall|i: int| 0 <= i < old(secs)@.len() ==> keys_sorted(#[trigger] old(secs)@[i]@.fields),
    ensures
        match (r, step(sections_view(old(secs)@), text@.subrange(start as int, end as int), number as nat)) {
            (Ok(_), Ok(s)) => sections_view(final(secs)@) == s,
            (Err(e), Err(f)) => e@ == f,
            _ => false,
        },
        final(secs)@.len() >= 1,
        forall|i: int| 0 <= i < final(secs)@.len() ==> keys_sorted(#[trigger] final(secs)@[i]@.fields),
{
    let ghost line = text@.subrange(start as int, end as int);
    let ghost before = sections_view(secs@);
    let (a0, b) = trim_range(text, start, end);
    let a = skip_boms(text, a0, b);
    let ghost t = text@.subrange(a as int, b as int);
    assert(t == line_content(line));
    proof {
        reveal_strlit("//");
        assert(ascii("//"@) =~= seq![47u8, 47u8]);
    }
    if a == b || (b - a >= 2 && text[a] == 47 && text[a + 1] == 47) {
        proof {
            if a < b {
                assert(t.subrange(0, 2) =~= seq![47u8, 47u8]);
            }
        }
        return Ok(());
    }
    assert(!starts_with(t, ascii("//"@))) by {
        if t.len() >= 2 {
            if t.subrange(0, 2) == seq![47u8, 47u8] {
                assert(t.subrange(0, 2)[0] == t[0]);
                assert(t.subrange(0, 2)[1] == t[1]);
            }
        }
    }
    assert(t[0] == text@[a as int] && t[t.len() - 1] == text@[b - 1]);
    if text[a] == 91 && text[b - 1] == 93 {
        let kind_text = vstd::slice::slice_subrange(text, a + 1, b - 1);
        assert(kind_text@ =~= t.subrange(1, t.len() - 1));
        if !is_allowed_kind(kind_text) {
            return Err(SceError::UnsupportedProfile(dup(kind_text)));
        }
        if secs.len() >= 64 {
            return Err(SceError::TooManyProfiles);
        }
        let section = Section::new(dup(kind_text));
        proof {
            lemma_view_push(secs@, section);
        }
        secs.push(section);
        return Ok(());
    }
    let p = next_byte(text, 61, a, b);
    if p == b {
        return Err(SceError::InvalidLine(number + 1));
    }
    assert(text@.subrange(a as int, p as int) =~= t.subrange(0, p - a));
    assert(text@.subrange(p + 1, b as int) =~= t.subrange(p - a + 1, t.len() as int));
    let (ka, kb) = trim_range(text, a, p);
    let (va, vb) = trim_range(text, p + 1, b);
    let key = copy_range(text, ka, kb);
    let value = copy_range(text, va, vb);
    assert(before.last() == secs@[secs@.len() - 1]@);
    if secs[secs.len() - 1].contains(key.as_slice()) {
        return Err(SceError::DuplicateField(copy_range(text, a, p)));
    }
    let mut last = secs.pop().unwrap();
    let ghost popped = secs@;
    assert(before.last() == last@);
    let inserted = last.insert(key, value);
    proof {
        lemma_view_push(popped, last);
        assert(sections_view(popped) =~= before.drop_last());
        assert(before.drop_last().push(last@) =~= before.update(before.len() - 1, last@));
    }
    secs.push(last);
    Ok(())
}

/// The abstract form of a result holding profiles.
pub open spec fn profiles_outcome(r: Result<Vec<Section>, SceError>, s: Result<Seq<SectionView>, SceFault>) -> bool {
    match (r, s) {
        (Ok(v), Ok(w)) => sections_view(v@) == w,
        (Err(e), Err(f)) => e@ == f,
        _ => false,
    }
}

/// Finds the first unnamed or doubly named profile.
fn check_names(secs: &Vec<Section>) -> (r: Result<(), SceError>)
    ensures
        match (r, first_duplicate(sections_view(secs@), 1)) {
            (Ok(_), None) => true,
            (Err(e), Some(f)) => e@ == f,
            _ => false,
        },
{
    let ghost sv = sections_view(secs@);
    proof {
        reveal_strlit("Name");
    }
    let nk = bytes_of("Name");
    let mut i: usize = 1;
    while i < secs.len()
        invariant
            sv == sections_view(secs@),
            1 <= i,
            nk@ == name_key(),
            first_duplicate(sv, 1) == first_duplicate(sv, i as int),
        decreases secs@.len() - i,
    {
        assert(sv[i as int] == secs@[i as int]@);
        let name = secs[i].get(nk)?;
        let mut j: usize = 1;
        while j < i
            invariant
                sv == sections_view(secs@),
                1 <= j <= i < secs@.len(),
                nk@ == name_key(),
                first_duplicate(sv, 1) == first_duplicate(sv, i as int),
                lookup(sv[i as int].fields, name_key()) == Some(name@),
                forall|k: int|
                    1 <= k < j ==> !(sv[k].kind == sv[i as int].kind && match lookup(
                        sv[k].fields,
                        name_key(),
                    ) {
                        Some(n) => same_ignoring_case(n, name@),
                        None => false,
                    }),
            decreases i - j,
        {
            assert(sv[j as int] == secs@[j as int]@);
            if bytes_eq(secs[j].kind().as_slice(), secs[i].kind().as_slice()) {
                match secs[j].lookup(nk) {
                    Some(other) => {
                        if eq_ignore_case(other.as_slice(), name.as_slice()) {
                            assert(1 <= j < i && sv[j as int].kind == sv[i as int].kind && match lookup(
                                sv[j as int].fields,
                                name_key(),
                            ) {
                                Some(n) => same_ignoring_case(n, name@),
                                None => false,
                            });
                            assert(clashes(sv, i as int, name@));
                            return Err(SceError::DuplicateProfile(dup(name.as_slice())));
                        }
                    },
                    None => {},
                }
            }
            j = j + 1;
        }
        i = i + 1;
    }
    Ok(())
}

/// Reads the profile part of a scenario file into profiles, the scenario's
/// own settings first. Refuses unknown profile kinds, more than
/// [`MAX_PROFILES`] profiles, lines that are neither headers, comments nor
/// `key=value`, repeated keys, unnamed profiles and profiles of one kind
/// whose names differ only in ASCII case.
pub fn parse_profiles(text: &[u8]) -> (r: Result<Vec<Section>, SceError>)
    requires
        text@.len() < usize::MAX,
    ensures
        profiles_outcome(r, profiles_of(text@)),
        r matches Ok(v) ==> forall|i: int| 0 <= i < v@.len() ==> keys_sorted(#[trigger] v@[i]@.fields),
{
    proof {
        reveal_strlit("Scenario");
    }
    let mut secs: Vec<Section> = Vec::new();
    let root = Section::new(dup(bytes_of("Scenario")));
    proof {
        lemma_view_push(secs@, root);
    }
    secs.push(root);
    assert(sections_view(secs@) =~= seq![root_section()]);
    let mut pos: usize = 0;
    let mut number: usize = 0;
    assert(text@.subrange(0, text@.len() as int) =~= text@);
    loop
        invariant
            pos <= text@.len() < usize::MAX,
            number <= pos,
            secs@.len() >= 1,
            forall|i: int| 0 <= i < secs@.len() ==> keys_sorted(#[trigger] secs@[i]@.fields),
            read_lines(text@, 0, seq![root_section()]) == read_lines(
                text@.subrange(pos as int, text@.len() as int),
                number as nat,
                sections_view(secs@),
            ),
        decreases text@.len() - pos,
    {
        let ghost rest = text@.subrange(pos as int, text@.len() as int);
        let q = next_byte(text, 10, pos, text.len());
        proof {
            lemma_next_byte_bounds(rest, 10, 0);
            assert(rest.subrange(0, q - pos) =~= text@.subrange(pos as int, q as int));
        }
        read_line(&mut secs, text, pos, q, number)?;
        if q == text.len() {
            check_names(&secs)?;
            return Ok(secs);
        }
        assert(rest.subrange(q - pos + 1, rest.len() as int) =~= text@.subrange(
            q + 1,
            text@.len() as int,
        ));
        pos = q + 1;
        number = number + 1;
    }
}

/// Scenario settings that this import supports only at zero: the per-event
/// score and score-loss settings other than the score per kill, time refills
/// and early endings.
pub open spec fn zero_only_score_key(key: Seq<u8>) -> bool {
    ||| starts_with(key, ascii("ScorePer"@)) && key != ascii("ScorePerKill"@)
    ||| starts_with(key, ascii("ScoreLoss"@))
    ||| key == ascii("TimeRefilledByKill"@)
    ||| key == ascii("EndChallengeAfterKills"@)
    ||| key == ascii("EndChallengeAfterDamage"@)
}

/// Whether a scenario setting is one that must be zero to be supported.
pub fn score_key_zero_only(key: &[u8]) -> (r: bool)
    ensures
        r == zero_only_score_key(key@),
{
    proof {
        reveal_strlit("ScorePer");
        reveal_strlit("ScorePerKill");
        reveal_strlit("ScoreLoss");
        reveal_strlit("TimeRefilledByKill");
        reveal_strlit("EndChallengeAfterKills");
        reveal_strlit("EndChallengeAfterDamage");
    }
    (super::text::occurs_at(key, bytes_of("ScorePer"), 0) && !bytes_eq(key, bytes_of("ScorePerKill")))
        || super::text::occurs_at(key, bytes_of("ScoreLoss"), 0) || bytes_eq(
        key,
        bytes_of("TimeRefilledByKill"),
    ) || bytes_eq(key, bytes_of("EndChallengeAfterKills")) || bytes_eq(
        key,
        bytes_of("EndChallengeAfterDamage"),
    )
}

} // verus!
