//! A single-line text input with a cursor.

use vstd::prelude::*;

use crate::steps::Key;
use crate::text::{chars_of, string_of};

verus! {

/// A single-line text input. The cursor is a character position in
/// `0..=len`: typed characters go in front of it. It counts characters, not
/// bytes, so it always sits between two characters: after
/// `with_value("é")` it is 1, not the 2 bytes that "é" takes in UTF-8.
#[derive(Debug)]
pub struct TextInput {
    label: String,
    chars: Vec<char>,
    cursor: usize,
}

impl TextInput {
    #[verifier::type_invariant]
    spec fn inv(self) -> bool {
        self.cursor <= self.chars@.len()
    }

    /// The current text.
    pub closed spec fn text(self) -> Seq<char> {
        self.chars@
    }

    /// The cursor position.
    pub closed spec fn pos(self) -> nat {
        self.cursor as nat
    }

    /// The label drawn on the input's border.
    pub closed spec fn title(self) -> Seq<char> {
        self.label@
    }

    /// An empty input with the given label and the cursor at 0.
    pub fn new(label: &str) -> (r: TextInput)
        ensures
            r.title() == label@,
            r.text() == Seq::<char>::empty(),
            r.pos() == 0,
    {
        TextInput { label: String::from_str(label), chars: Vec::new(), cursor: 0 }
    }

    /// The same input holding `value`, with the cursor at its end.
    pub fn with_value(self, value: &str) -> (r: TextInput)
        ensures
            r.title() == self.title(),
            r.text() == value@,
            r.pos() == value@.len(),
    {
        let chars = chars_of(value);
        let n = chars.len();
        TextInput { label: self.label, chars, cursor: n }
    }

    /// Replaces the text, keeping the cursor where it was unless it would
    /// fall past the end, in which case it moves to the end.
    pub fn set_value(&mut self, value: &str)
        ensures
            final(self).title() == old(self).title(),
            final(self).text() == value@,
            final(self).pos() == (if old(self).pos() <= value@.len() {
                old(self).pos()
            } else {
                value@.len()
            }),
    {
        let chars = chars_of(value);
        let n = chars.len();
        let c = if self.cursor <= n { self.cursor } else { n };
        *self = TextInput { label: self.label.clone(), chars, cursor: c };
    }

    /// The current text.
    pub fn value(&self) -> (r: String)
        ensures
            r@ == self.text(),
    {
        string_of(&self.chars)
    }

    /// The number of characters in the text.
    pub fn char_count(&self) -> (r: usize)
        ensures
            r == self.text().len(),
    {
        self.chars.len()
    }

    /// The label drawn on the input's border.
    pub fn label(&self) -> (r: &str)
        ensures
            r@ == self.title(),
    {
        self.label.as_str()
    }

    /// The cursor position; never past the end of the text.
    pub fn cursor(&self) -> (r: usize)
        ensures
            r == self.pos(),
            r <= self.text().len(),
    {
        proof {
            use_type_invariant(self);
        }
        self.cursor
    }

    /// Edits the text or moves the cursor (see [`edited`]).
    pub fn handle_input(&mut self, key: Key)
        requires
            old(self).text().len() < usize::MAX,
        ensures
            final(self).title() == old(self).title(),
            final(self).pos() <= final(self).text().len(),
            (final(self).text(), final(self).pos()) == edited(old(self).text(), old(self).pos(), key),
    {
        proof {
            use_type_invariant(&*self);
        }
        let mut chars = self.chars.clone();
        let mut cursor = self.cursor;
        assert(chars@ == self.chars@);
        match key {
            Key::Char(c) => {
                chars.insert(cursor, c);
                cursor = cursor + 1;
            },
            Key::Backspace => {
                if cursor > 0 {
                    cursor = cursor - 1;
                    chars.remove(cursor);
                }
            },
            Key::Delete => {
                if cursor < chars.len() {
                    chars.remove(cursor);
                }
            },
            Key::Left => {
                if cursor > 0 {
                    cursor = cursor - 1;
                }
            },
            Key::Right => {
                if cursor < chars.len() {
                    cursor = cursor + 1;
                }
            },
            Key::Home => {
                cursor = 0;
            },
            Key::End => {
                cursor = chars.len();
            },
            _ => {},
        }
        *self = TextInput { label: self.label.clone(), chars, cursor };
    }
}

/// The text and cursor after a key: a character is inserted at the cursor,
/// which then moves past it; Backspace deletes the character before the
/// cursor, Delete the one at it; Left/Right move by one within the text;
/// Home/End jump to the ends. Other keys change nothing.
pub open spec fn edited(text: Seq<char>, pos: nat, key: Key) -> (Seq<char>, nat) {
    match key {
        Key::Char(c) => (text.insert(pos as int, c), pos + 1),
        Key::Backspace => if pos > 0 {
            (text.remove(pos - 1), (pos - 1) as nat)
        } else {
            (text, pos)
        },
        Key::Delete => if pos < text.len() {
            (text.remove(pos as int), pos)
        } else {
            (text, pos)
        },
        Key::Left => (text, if pos > 0 {
            (pos - 1) as nat
        } else {
            0
        }),
        Key::Right => (text, if pos < text.len() {
            pos + 1
        } else {
            pos
        }),
        Key::Home => (text, 0),
        Key::End => (text, text.len()),
        _ => (text, pos),
    }
}

impl Default for TextInput {
    fn default() -> (r: TextInput)
        ensures
            r.title() == Seq::<char>::empty(),
            r.text() == Seq::<char>::empty(),
            r.pos() == 0,
    {
        TextInput { label: String::new(), chars: Vec::new(), cursor: 0 }
    }
}

} // verus!
