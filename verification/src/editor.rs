//! Typing a number into a settings field.
use vstd::prelude::*;

verus! {

/// The numeric settings fields.
#[derive(Clone, Copy, Debug, PartialEq, Eq, Structural)]
pub enum Field {
    Sensitivity,
    Dpi,
    Fov,
    Crosshair,
    Gap,
    Volume,
}

/// Longest text a field accepts.
pub const MAX_ENTRY: usize = 12;

/// A key that a numeric field accepts: an ASCII digit or a decimal point.
pub open spec fn accepted(c: char) -> bool {
    ('0' <= c && c <= '9') || c == '.'
}

/// The abstract state of an open field: its text, and whether the next key
/// replaces it.
pub struct EditorState {
    pub field: Field,
    pub text: Seq<u8>,
    pub replace: bool,
}

/// The state after typing one character.
pub open spec fn typed_one(s: EditorState, c: char) -> EditorState {
    if !accepted(c) {
        s
    } else {
        let base = if s.replace {
            Seq::empty()
        } else {
            s.text
        };
        EditorState {
            field: s.field,
            text: if base.len() < MAX_ENTRY {
                base.push(c as u8)
            } else {
                base
            },
            replace: false,
        }
    }
}

/// The state after typing the first `n` characters of `keys`.
pub open spec fn typed(s: EditorState, keys: Seq<char>, n: int) -> EditorState
    decreases n,
{
    if n <= 0 {
        s
    } else {
        typed_one(typed(s, keys, n - 1), keys[n - 1])
    }
}

/// The state after a backspace: the first key after opening clears the
/// field, later ones remove the last character.
pub open spec fn after_backspace(s: EditorState) -> EditorState {
    if s.replace {
        EditorState { field: s.field, text: Seq::empty(), replace: false }
    } else {
        EditorState {
            field: s.field,
            text: if s.text.len() > 0 {
                s.text.drop_last()
            } else {
                s.text
            },
            replace: false,
        }
    }
}

/// The text being typed into a numeric settings field.
pub struct Editor {
    field: Field,
    text: Vec<u8>,
    replace: bool,
}

impl View for Editor {
    type V = EditorState;

    closed spec fn view(&self) -> EditorState {
        EditorState { field: self.field, text: self.text@, replace: self.replace }
    }
}

impl Editor {
    /// Opens a field showing `current`; the first key typed replaces it.
    pub fn open(field: Field, current: Vec<u8>) -> (r: Editor)
        ensures
            r@ == (EditorState { field: field, text: current@, replace: true }),
    {
        Editor { field, text: current, replace: true }
    }

    pub fn field(&self) -> (r: Field)
        ensures
            r == self@.field,
    {
        self.field
    }

    pub fn text(&self) -> (r: &Vec<u8>)
        ensures
            r@ == self@.text,
    {
        &self.text
    }

    /// Types characters: digits and decimal points are kept, up to
    /// [`MAX_ENTRY`] of them; other characters are ignored.
    pub fn type_keys(&mut self, keys: &[char])
        ensures
            final(self)@ == typed(old(self)@, keys@, keys@.len() as int),
    {
        let mut i: usize = 0;
        while i < keys.len()
            invariant
                i <= keys@.len(),
                self@ == typed(old(self)@, keys@, i as int),
            decreases keys@.len() - i,
        {
            let c = keys[i];
            if ('0' <= c && c <= '9') || c == '.' {
                if self.replace {
                    self.text.clear();
                    self.replace = false;
                }
                if self.text.len() < 12 {
                    self.text.push(c as u8);
                }
            }
            i = i + 1;
        }
    }

    /// Deletes: clears a freshly opened field, else removes the last
    /// character.
    pub fn backspace(&mut self)
        ensures
            final(self)@ == after_backspace(old(self)@),
    {
        if self.replace {
            self.text.clear();
            self.replace = false;
        } else {
            self.text.pop();
        }
    }
}

/// Typing never makes a field hold more than [`MAX_ENTRY`] characters once
/// it has been replaced, and every typed character is a digit or a point.
pub proof fn lemma_typed_text_bounded(s: EditorState, keys: Seq<char>, n: int)
    requires
        0 <= n <= keys.len(),
        !s.replace ==> s.text.len() <= MAX_ENTRY,
    ensures
        !typed(s, keys, n).replace ==> typed(s, keys, n).text.len() <= MAX_ENTRY,
        typed(s, keys, n).field == s.field,
    decreases n,
{
    if n > 0 {
        lemma_typed_text_bounded(s, keys, n - 1);
    }
}

/// Typing a digit and then deleting it restores a field that was already
/// being edited and had room.
pub proof fn lemma_backspace_undoes_typing(s: EditorState, c: char)
    requires
        !s.replace,
        s.text.len() < MAX_ENTRY,
        accepted(c),
    ensures
        after_backspace(typed_one(s, c)) == s,
{
    assert(s.text.push(c as u8).drop_last() =~= s.text);
}

/// A number's fixed-point text without trailing zeros after its point, and
/// without the point when nothing follows it.
pub open spec fn tidied(text: Seq<u8>) -> Seq<u8> {
    super::scenario::text::strip_suffixes(
        super::scenario::text::strip_suffixes(text, seq![48u8]),
        seq![46u8],
    )
}

/// Removes trailing zeros, then trailing points, from a number's text.
pub fn tidy_decimal(text: &[u8]) -> (r: Vec<u8>)
    ensures
        r@ == tidied(text@),
{
    let zero: Vec<u8> = vec![48u8];
    let point: Vec<u8> = vec![46u8];
    assert(zero@ =~= seq![48u8]);
    assert(point@ =~= seq![46u8]);
    let a = super::scenario::text::strip_suffixes_end(text, 0, text.len(), zero.as_slice());
    let b = super::scenario::text::strip_suffixes_end(text, 0, a, point.as_slice());
    assert(text@.subrange(0, text@.len() as int) =~= text@);
    super::scenario::text::copy_range(text, 0, b)
}

} // verus!
