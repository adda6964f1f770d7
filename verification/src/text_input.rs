//! The search field: a text, a cursor and a selection, edited key by key.
//!
//! Positions are byte offsets on character boundaries. The field takes
//! input only while it has a cursor. Each method is one step of the field
//! for one event; the frontend reads keys and the clipboard and calls them
//! in the order the keyboard gives them.

use vstd::prelude::*;
use vstd::string::StringSliceAdditionalSpecFns;
use vstd::utf8::{encode_utf8_valid_utf8, is_char_boundary, is_char_boundary_start_end_of_seq};
use crate::text::{char_string, str_eq};
use crate::utf8_text::{
    boundary, byte_len, bytes_of, ceil_cb, ceil_char_boundary, ceil_word, ceil_word_boundary,
    floor_cb, floor_char_boundary, floor_word, floor_word_boundary, lemma_ceil_cb, lemma_floor_cb,
    lemma_replace_boundaries, replace_range, substring,
};

verus! {

/// The bytes `b` without the range `s..e`.
pub open spec fn cut(b: Seq<u8>, s: int, e: int) -> Seq<u8> {
    b.subrange(0, s) + b.subrange(e, b.len() as int)
}

/// The bytes `b` with `t` put at `at`.
pub open spec fn put(b: Seq<u8>, at: int, t: Seq<u8>) -> Seq<u8> {
    b.subrange(0, at) + t + b.subrange(at, b.len() as int)
}

/// The text and cursor once the selection, if any, is removed.
pub open spec fn without_selection(b: Seq<u8>, cursor: int, sel: Option<(usize, usize)>) -> (Seq<u8>, int) {
    match sel {
        Some((s, e)) => (cut(b, s as int, e as int), s as int),
        None => (b, cursor),
    }
}

/// The selection between an anchor and the cursor, start first; none when
/// they meet.
pub open spec fn anchored(anchor: usize, cursor: usize) -> Option<(usize, usize)> {
    if cursor < anchor {
        Some((cursor, anchor))
    } else if anchor < cursor {
        Some((anchor, cursor))
    } else {
        None
    }
}

/// The selection after moving the cursor from `old` to `new` with shift
/// held: the end of the selection that is not at the cursor stays anchored
/// (without a selection, the old cursor is the anchor); a selection that
/// the cursor is not at does not change.
pub open spec fn extend_selection(sel: Option<(usize, usize)>, old: usize, new: usize) -> Option<(usize, usize)> {
    match sel {
        Some((s, e)) => if s == old {
            anchored(e, new)
        } else if e == old {
            anchored(s, new)
        } else {
            Some((s, e))
        },
        None => anchored(old, new),
    }
}

/// Typing a text at a position and then deleting as many bytes after that
/// position gives the text back.
pub proof fn lemma_put_then_cut(b: Seq<u8>, at: int, t: Seq<u8>)
    requires
        0 <= at <= b.len(),
    ensures
        cut(put(b, at, t), at, at + t.len()) == b,
{
    let p = put(b, at, t);
    assert(p.subrange(0, at) =~= b.subrange(0, at));
    assert(p.subrange(at + t.len(), p.len() as int) =~= b.subrange(at, b.len() as int));
    assert(b.subrange(0, at) + b.subrange(at, b.len() as int) =~= b);
}

/// Cutting a range and pasting it back at its start gives the text back.
pub proof fn lemma_cut_then_put(b: Seq<u8>, s: int, e: int)
    requires
        0 <= s <= e <= b.len(),
    ensures
        put(cut(b, s, e), s, b.subrange(s, e)) == b,
{
    let c = cut(b, s, e);
    assert(c.subrange(0, s) =~= b.subrange(0, s));
    assert(c.subrange(s, c.len() as int) =~= b.subrange(e, b.len() as int));
    assert(b.subrange(0, s) + b.subrange(s, e) + b.subrange(e, b.len() as int) =~= b);
}

/// No character boundary lies inside the encoding of one character.
proof fn lemma_no_boundary_inside_char(ch: char, k: int)
    requires
        0 < k < bytes_of(seq![ch]).len(),
    ensures
        !is_char_boundary(bytes_of(seq![ch]), k),
{
    let e = bytes_of(seq![ch]);
    vstd::utf8::encode_utf8_first_scalar(seq![ch]);
    encode_utf8_valid_utf8(seq![ch]);
    assert(seq![ch].drop_first() =~= Seq::<char>::empty());
    assert(vstd::utf8::encode_utf8(Seq::<char>::empty()) =~= Seq::<u8>::empty());
    assert(e =~= vstd::utf8::encode_scalar(ch as u32));
    assert(vstd::utf8::length_of_first_scalar(e) == e.len());
    assert(vstd::utf8::pop_first_scalar(e) =~= Seq::<u8>::empty());
    assert(vstd::utf8::valid_utf8(Seq::<u8>::empty()));
    assert(!is_char_boundary(Seq::<u8>::empty(), k - e.len()));
    reveal_with_fuel(is_char_boundary, 2);
}

/// Typing a character at a boundary and then deleting the character before
/// the cursor gives the text back: the character starts at the old cursor
/// and ends at the new one, with no boundary between.
pub proof fn lemma_type_then_backspace(b: Seq<u8>, c: int, ch: char)
    requires
        vstd::utf8::valid_utf8(b),
        is_char_boundary(b, c),
    ensures
        ({
            let n = bytes_of(seq![ch]).len() as int;
            let typed = put(b, c, bytes_of(seq![ch]));
            &&& floor_cb(typed, c + n) == c
            &&& ceil_cb(typed, c) == c + n
            &&& cut(typed, c, c + n) == b
        }),
{
    let e = bytes_of(seq![ch]);
    let n = e.len() as int;
    crate::utf8_text::lemma_boundary_le(b, c);
    encode_utf8_valid_utf8(seq![ch]);
    vstd::utf8::encode_utf8_first_scalar(seq![ch]);
    let typed = put(b, c, e);
    lemma_replace_boundaries(b, c, c, e);
    assert(b.subrange(0, c) + e + b.subrange(c, b.len() as int) == typed);
    vstd::utf8::valid_utf8_split(b, c);
    let p = b.subrange(0, c);
    let q = b.subrange(c, b.len() as int);
    assert forall|j: int| c < j < c + n implies !is_char_boundary(typed, j) by {
        crate::utf8_text::lemma_boundary_concat(p, e, j);
        crate::utf8_text::lemma_boundary_concat(p + e, q, j);
        lemma_no_boundary_inside_char(ch, j - c);
    }
    lemma_floor_cb(typed, c + n);
    lemma_ceil_cb(typed, c);
    lemma_put_then_cut(b, c, e);
}

/// The selection between an anchor and the cursor, start first.
fn anchor_selection(anchor: usize, cursor: usize) -> (r: Option<(usize, usize)>)
    ensures
        r == anchored(anchor, cursor),
{
    if cursor < anchor {
        Some((cursor, anchor))
    } else if anchor < cursor {
        Some((anchor, cursor))
    } else {
        None
    }
}

/// The text field.
pub struct TextInput {
    text: String,
    cursor_index: Option<usize>,
    cursor_tick: usize,
    select_range: Option<(usize, usize)>,
    hovered: bool,
}

impl TextInput {
    #[verifier::type_invariant]
    spec fn inv(self) -> bool {
        &&& match self.cursor_index {
            Some(c) => is_char_boundary(bytes_of(self.text@), c as int),
            None => true,
        }
        &&& match self.select_range {
            Some((s, e)) => s <= e && is_char_boundary(bytes_of(self.text@), s as int)
                && is_char_boundary(bytes_of(self.text@), e as int),
            None => true,
        }
    }

    /// The UTF-8 bytes of the text.
    pub closed spec fn bytes(self) -> Seq<u8> {
        bytes_of(self.text@)
    }

    /// The characters of the text.
    pub closed spec fn chars(self) -> Seq<char> {
        self.text@
    }

    /// The cursor, when the field has one.
    pub closed spec fn cursor(self) -> Option<usize> {
        self.cursor_index
    }

    /// The selection `(start, end)`, when there is one.
    pub closed spec fn selection(self) -> Option<(usize, usize)> {
        self.select_range
    }

    /// Frames since the cursor last moved (it blinks).
    pub closed spec fn tick(self) -> usize {
        self.cursor_tick
    }

    /// Whether the mouse is over the field.
    pub closed spec fn is_hovered(self) -> bool {
        self.hovered
    }

    /// An empty field with the cursor at 0.
    pub fn default() -> (r: Self)
        ensures
            r.chars() == Seq::<char>::empty(),
            r.cursor() == Some(0usize),
            r.tick() == 0,
            r.selection() is None,
            !r.is_hovered(),
    {
        let text = String::new();
        proof {
            encode_utf8_valid_utf8(text@);
            is_char_boundary_start_end_of_seq(bytes_of(text@));
        }
        TextInput { text, cursor_index: Some(0), cursor_tick: 0, select_range: None, hovered: false }
    }

    /// The text.
    pub fn text(&self) -> (r: &String)
        ensures
            r@ == self.chars(),
    {
        &self.text
    }

    /// The cursor.
    pub fn cursor_index(&self) -> (r: Option<usize>)
        ensures
            r == self.cursor(),
            r matches Some(c) ==> c <= self.bytes().len() && is_char_boundary(self.bytes(), c as int),
    {
        proof {
            use_type_invariant(self);
            encode_utf8_valid_utf8(self.text@);
            if let Some(c) = self.cursor_index {
                crate::utf8_text::lemma_boundary_le(bytes_of(self.text@), c as int);
            }
        }
        self.cursor_index
    }

    /// The selection.
    pub fn select_range(&self) -> (r: Option<(usize, usize)>)
        ensures
            r == self.selection(),
            r matches Some((s, e)) ==> s <= e && is_char_boundary(self.bytes(), s as int) && is_char_boundary(
                self.bytes(),
                e as int,
            ),
    {
        proof {
            use_type_invariant(self);
        }
        self.select_range
    }

    /// The blink counter.
    pub fn cursor_tick(&self) -> (r: usize)
        ensures
            r == self.tick(),
    {
        self.cursor_tick
    }

    /// Whether the mouse is over the field.
    pub fn hovered(&self) -> (r: bool)
        ensures
            r == self.is_hovered(),
    {
        self.hovered
    }

    /// Records whether the mouse is over the field.
    pub fn set_hovered(&mut self, hovered: bool)
        ensures
            final(self).is_hovered() == hovered,
            final(self).chars() == old(self).chars(),
            final(self).cursor() == old(self).cursor(),
            final(self).selection() == old(self).selection(),
            final(self).tick() == old(self).tick(),
    {
        proof {
            use_type_invariant(&*self);
        }
        self.hovered = hovered;
    }

    /// A click on the field gives it a cursor at 0.
    pub fn click(&mut self)
        ensures
            final(self).cursor() == Some(0usize),
            final(self).chars() == old(self).chars(),
            final(self).selection() == old(self).selection(),
            final(self).tick() == old(self).tick(),
            final(self).is_hovered() == old(self).is_hovered(),
    {
        proof {
            use_type_invariant(&*self);
        }
        proof {
            encode_utf8_valid_utf8(self.text@);
            is_char_boundary_start_end_of_seq(bytes_of(self.text@));
        }
        self.cursor_index = Some(0);
    }

    /// Counts a frame: the blink counter grows while the field has a cursor
    /// and is reset otherwise.
    pub fn tick_frame(&mut self)
        requires
            old(self).cursor() is Some ==> old(self).tick() < usize::MAX,
        ensures
            final(self).tick() == if old(self).cursor() is Some {
                (old(self).tick() + 1) as usize
            } else {
                0
            },
            final(self).chars() == old(self).chars(),
            final(self).cursor() == old(self).cursor(),
            final(self).selection() == old(self).selection(),
            final(self).is_hovered() == old(self).is_hovered(),
    {
        proof {
            use_type_invariant(&*self);
        }
        if self.cursor_index.is_some() {
            self.cursor_tick = self.cursor_tick + 1;
        } else {
            self.cursor_tick = 0;
        }
    }

    /// Takes the selection out of the text; the cursor goes to its start.
    fn remove_selection(&mut self)
        requires
            old(self).cursor() is Some,
        ensures
            (final(self).bytes(), final(self).cursor()->0 as int) == without_selection(
                old(self).bytes(),
                old(self).cursor()->0 as int,
                old(self).selection(),
            ),
            final(self).cursor() is Some,
            final(self).selection() is None,
            final(self).tick() == old(self).tick(),
            final(self).is_hovered() == old(self).is_hovered(),
    {
        proof {
            use_type_invariant(&*self);
        }
        if let Some((s, e)) = self.select_range {
            let ghost b = bytes_of(self.text@);
            let new_text = replace_range(&self.text, s, e, "");
            proof {
                encode_utf8_valid_utf8(self.text@);
                encode_utf8_valid_utf8(""@);
                assert(""@ =~= Seq::<char>::empty()) by {
                    reveal_strlit("");
                }
                assert(""@.len() == 0) by {
                    reveal_strlit("");
                }
                assert(("").spec_bytes() =~= Seq::<u8>::empty()) by {
                    reveal_strlit("");
                }
                lemma_replace_boundaries(b, s as int, e as int, Seq::<u8>::empty());
                assert(bytes_of(new_text@) =~= cut(b, s as int, e as int));
            }
            self.select_range = None;
            self.cursor_index = None;
            self.text = new_text;
            self.cursor_index = Some(s);
        }
    }

    /// Puts `t` at the cursor and moves the cursor after it.
    fn insert_at_cursor(&mut self, t: &str)
        requires
            old(self).cursor() is Some,
            old(self).selection() is None,
        ensures
            final(self).bytes() == put(old(self).bytes(), old(self).cursor()->0 as int, t.spec_bytes()),
            final(self).cursor() == Some((old(self).cursor()->0 + t.spec_bytes().len()) as usize),
            final(self).selection() is None,
            final(self).tick() == old(self).tick(),
            final(self).is_hovered() == old(self).is_hovered(),
    {
        proof {
            use_type_invariant(&*self);
        }
        let c = self.cursor_index.unwrap();
        let ghost b = bytes_of(self.text@);
        let new_text = replace_range(&self.text, c, c, t);
        proof {
            encode_utf8_valid_utf8(self.text@);
            encode_utf8_valid_utf8(t@);
            lemma_replace_boundaries(b, c as int, c as int, t.spec_bytes());
            assert(bytes_of(new_text@) =~= put(b, c as int, t.spec_bytes()));
        }
        let total = byte_len(&new_text);
        let tail = byte_len(&self.text) - c;
        let new_cursor = total - tail;
        self.cursor_index = None;
        self.text = new_text;
        self.cursor_index = Some(new_cursor);
    }

    /// A typed character replaces the selection, or goes at the cursor.
    /// Returns whether the text changed.
    pub fn type_char(&mut self, ch: char) -> (modified: bool)
        ensures
            modified == old(self).cursor() is Some,
            final(self).is_hovered() == old(self).is_hovered(),
            old(self).cursor() is None ==> *final(self) == *old(self),
            old(self).cursor() is Some ==> ({
                let (b, c) = without_selection(
                    old(self).bytes(),
                    old(self).cursor()->0 as int,
                    old(self).selection(),
                );
                &&& final(self).bytes() == put(b, c, bytes_of(seq![ch]))
                &&& final(self).cursor() == Some((c + bytes_of(seq![ch]).len()) as usize)
                &&& final(self).selection() is None
                &&& final(self).tick() == 0
            }),
    {
        proof {
            use_type_invariant(&*self);
        }
        if self.cursor_index.is_none() {
            return false;
        }
        self.remove_selection();
        let s = char_string(ch);
        self.insert_at_cursor(s.as_str());
        proof {
            use_type_invariant(&*self);
        }
        self.cursor_tick = 0;
        true
    }

    /// Ctrl+A: selects the whole text.
    pub fn select_all(&mut self)
        ensures
            old(self).cursor() is Some ==> final(self).selection() == Some(
                (0usize, old(self).bytes().len() as usize),
            ),
            old(self).cursor() is None ==> final(self).selection() == old(self).selection(),
            final(self).chars() == old(self).chars(),
            final(self).cursor() == old(self).cursor(),
            final(self).tick() == old(self).tick(),
            final(self).is_hovered() == old(self).is_hovered(),
    {
        proof {
            use_type_invariant(&*self);
        }
        if self.cursor_index.is_some() {
            proof {
                encode_utf8_valid_utf8(self.text@);
                is_char_boundary_start_end_of_seq(bytes_of(self.text@));
            }
            self.select_range = Some((0, byte_len(&self.text)));
        }
    }

    /// Ctrl+C: the selected text, to be put on the clipboard.
    pub fn copy(&self) -> (r: Option<String>)
        ensures
            match r {
                Some(t) => self.cursor() is Some && match self.selection() {
                    Some((s, e)) => bytes_of(t@) == self.bytes().subrange(s as int, e as int),
                    None => false,
                },
                None => self.cursor() is None || self.selection() is None,
            },
    {
        proof {
            use_type_invariant(self);
        }
        if self.cursor_index.is_none() {
            return None;
        }
        match self.select_range {
            Some((s, e)) => Some(substring(&self.text, s, e)),
            None => None,
        }
    }

    /// Ctrl+X: takes the selected text out, to be put on the clipboard; the
    /// text changed exactly when the text returned is not empty.
    pub fn cut(&mut self) -> (r: Option<String>)
        ensures
            final(self).is_hovered() == old(self).is_hovered(),
            final(self).tick() == old(self).tick(),
            match r {
                Some(t) => {
                    let (s, e) = old(self).selection()->0;
                    &&& old(self).cursor() is Some
                    &&& bytes_of(t@) == old(self).bytes().subrange(s as int, e as int)
                    &&& final(self).bytes() == cut(old(self).bytes(), s as int, e as int)
                    &&& final(self).cursor() == Some(s)
                    &&& final(self).selection() is None
                },
                None => (old(self).cursor() is None || old(self).selection() is None) && *final(self)
                    == *old(self),
            },
    {
        proof {
            use_type_invariant(&*self);
        }
        if self.cursor_index.is_none() {
            return None;
        }
        match self.select_range {
            Some((s, e)) => {
                let t = substring(&self.text, s, e);
                self.remove_selection();
                Some(t)
            },
            None => None,
        }
    }

    /// Removes the selection, then puts `clipboard` at the cursor when it is
    /// not empty.
    fn put_clipboard(&mut self, clipboard: &str)
        ensures
            final(self).is_hovered() == old(self).is_hovered(),
            final(self).tick() == old(self).tick(),
            old(self).cursor() is None ==> *final(self) == *old(self),
            old(self).cursor() is Some ==> ({
                let (b, c) = without_selection(
                    old(self).bytes(),
                    old(self).cursor()->0 as int,
                    old(self).selection(),
                );
                &&& final(self).bytes() == put(b, c, clipboard.spec_bytes())
                &&& final(self).cursor() == Some((c + clipboard.spec_bytes().len()) as usize)
                &&& final(self).selection() is None
            }),
    {
        if self.cursor_index.is_none() {
            return;
        }
        self.remove_selection();
        if clipboard.is_empty() {
            proof {
                use_type_invariant(&*self);
                encode_utf8_valid_utf8(self.text@);
                crate::utf8_text::lemma_boundary_le(bytes_of(self.text@), self.cursor()->0 as int);
                assert(clipboard@ =~= Seq::<char>::empty());
                assert(clipboard.spec_bytes() == vstd::utf8::encode_utf8(clipboard@));
                assert(vstd::utf8::encode_utf8(clipboard@) =~= Seq::<u8>::empty());
                let b = self.bytes();
                let c = self.cursor()->0 as int;
                assert(put(b, c, clipboard.spec_bytes()) =~= b);
            }
        } else {
            self.insert_at_cursor(clipboard);
        }
    }

    /// Ctrl+V: removes the selection, then puts the clipboard text at the
    /// cursor when it is not empty (see `put_clipboard`). Returns whether
    /// the text changed.
    pub fn paste(&mut self, clipboard: &str) -> (modified: bool)
        ensures
            final(self).is_hovered() == old(self).is_hovered(),
            final(self).tick() == old(self).tick(),
            old(self).cursor() is None ==> *final(self) == *old(self),
            old(self).cursor() is Some ==> ({
                let (b, c) = without_selection(
                    old(self).bytes(),
                    old(self).cursor()->0 as int,
                    old(self).selection(),
                );
                &&& final(self).bytes() == put(b, c, clipboard.spec_bytes())
                &&& final(self).cursor() == Some((c + clipboard.spec_bytes().len()) as usize)
                &&& final(self).selection() is None
            }),
            modified == (final(self).chars() != old(self).chars()),
    {
        let before = self.text.clone();
        self.put_clipboard(clipboard);
        !str_eq(before.as_str(), self.text.as_str())
    }

    /// Left arrow (Ctrl: by word; Shift: extend the selection). Acts when
    /// the cursor is after the start.
    pub fn move_left(&mut self, ctrl: bool, shift: bool)
        ensures
            final(self).chars() == old(self).chars(),
            final(self).is_hovered() == old(self).is_hovered(),
            match old(self).cursor() {
                Some(c) if c > 0 => {
                    let new = if ctrl {
                        floor_word(old(self).bytes(), c as int)
                    } else {
                        floor_cb(old(self).bytes(), c as int)
                    } as usize;
                    &&& final(self).tick() == 0
                    &&& if shift {
                        &&& final(self).selection() == extend_selection(old(self).selection(), c, new)
                        &&& final(self).cursor() == Some(new)
                    } else {
                        &&& final(self).selection() is None
                        &&& final(self).cursor() == Some(
                            match old(self).selection() {
                                Some((s, _)) => s,
                                None => new,
                            },
                        )
                    }
                },
                _ => *final(self) == *old(self),
            },
    {
        proof {
            use_type_invariant(&*self);
        }
        let c = match self.cursor_index {
            Some(c) => c,
            None => return,
        };
        if c == 0 {
            return;
        }
        proof {
            encode_utf8_valid_utf8(self.text@);
            crate::utf8_text::lemma_boundary_le(bytes_of(self.text@), c as int);
        }
        self.cursor_tick = 0;
        let new = if ctrl {
            floor_word_boundary(&self.text, c)
        } else {
            floor_char_boundary(&self.text, c)
        };
        let mut cursor = new;
        if shift {
            self.select_range = match self.select_range {
                Some((s, e)) => if s == c {
                    anchor_selection(e, new)
                } else if e == c {
                    anchor_selection(s, new)
                } else {
                    Some((s, e))
                },
                None => anchor_selection(c, new),
            };
        } else if let Some((s, _)) = self.select_range {
            self.select_range = None;
            cursor = s;
        }
        self.cursor_index = Some(cursor);
    }

    /// Right arrow (Ctrl: by word; Shift: extend the selection). Acts when
    /// the cursor is before the end.
    pub fn move_right(&mut self, ctrl: bool, shift: bool)
        ensures
            final(self).chars() == old(self).chars(),
            final(self).is_hovered() == old(self).is_hovered(),
            match old(self).cursor() {
                Some(c) if c < old(self).bytes().len() => {
                    let new = if ctrl {
                        ceil_word(old(self).bytes(), c as int)
                    } else {
                        ceil_cb(old(self).bytes(), c as int)
                    } as usize;
                    &&& final(self).tick() == 0
                    &&& if shift {
                        &&& final(self).selection() == extend_selection(old(self).selection(), c, new)
                        &&& final(self).cursor() == Some(new)
                    } else {
                        &&& final(self).selection() is None
                        &&& final(self).cursor() == Some(
                            match old(self).selection() {
                                Some((_, e)) => e,
                                None => new,
                            },
                        )
                    }
                },
                _ => *final(self) == *old(self),
            },
    {
        proof {
            use_type_invariant(&*self);
        }
        let c = match self.cursor_index {
            Some(c) => c,
            None => return,
        };
        if c >= byte_len(&self.text) {
            return;
        }
        self.cursor_tick = 0;
        let new = if ctrl {
            ceil_word_boundary(&self.text, c)
        } else {
            ceil_char_boundary(&self.text, c)
        };
        let mut cursor = new;
        if shift {
            self.select_range = match self.select_range {
                Some((s, e)) => if s == c {
                    anchor_selection(e, new)
                } else if e == c {
                    anchor_selection(s, new)
                } else {
                    Some((s, e))
                },
                None => anchor_selection(c, new),
            };
        } else if let Some((_, e)) = self.select_range {
            self.select_range = None;
            cursor = e;
        }
        self.cursor_index = Some(cursor);
    }

    /// Removes the selection, or the character before the cursor.
    fn remove_back(&mut self)
        ensures
            final(self).is_hovered() == old(self).is_hovered(),
            final(self).tick() == old(self).tick(),
            old(self).cursor() is None ==> *final(self) == *old(self),
            old(self).cursor() is Some ==> match old(self).selection() {
                Some((s, e)) => {
                    &&& final(self).bytes() == cut(old(self).bytes(), s as int, e as int)
                    &&& final(self).cursor() == Some(s)
                    &&& final(self).selection() is None
                },
                None => {
                    let c = old(self).cursor()->0;
                    if c > 0 {
                        let p = floor_cb(old(self).bytes(), c as int);
                        &&& final(self).bytes() == cut(old(self).bytes(), p, c as int)
                        &&& final(self).cursor() == Some(p as usize)
                        &&& final(self).selection() is None
                    } else {
                        *final(self) == *old(self)
                    }
                },
            },
    {
        proof {
            use_type_invariant(&*self);
        }
        let c = match self.cursor_index {
            Some(c) => c,
            None => return,
        };
        if self.select_range.is_some() {
            self.remove_selection();
        } else if c > 0 {
            let p = floor_char_boundary(&self.text, c);
            let ghost b = bytes_of(self.text@);
            let new_text = replace_range(&self.text, p, c, "");
            proof {
                encode_utf8_valid_utf8(self.text@);
                assert(("").spec_bytes() =~= Seq::<u8>::empty()) by {
                    reveal_strlit("");
                }
                encode_utf8_valid_utf8(""@);
                lemma_replace_boundaries(b, p as int, c as int, Seq::<u8>::empty());
                assert(bytes_of(new_text@) =~= cut(b, p as int, c as int));
            }
            self.cursor_index = None;
            self.text = new_text;
            self.cursor_index = Some(p);
        }
    }

    /// Backspace: removes the selection, or the character before the
    /// cursor (see `remove_back`). Returns whether the text changed.
    pub fn backspace(&mut self) -> (modified: bool)
        ensures
            modified == (final(self).chars() != old(self).chars()),
            final(self).is_hovered() == old(self).is_hovered(),
            final(self).tick() == old(self).tick(),
            old(self).cursor() is None ==> *final(self) == *old(self),
            old(self).cursor() is Some ==> match old(self).selection() {
                Some((s, e)) => {
                    &&& final(self).bytes() == cut(old(self).bytes(), s as int, e as int)
                    &&& final(self).cursor() == Some(s)
                    &&& final(self).selection() is None
                },
                None => {
                    let c = old(self).cursor()->0;
                    if c > 0 {
                        let p = floor_cb(old(self).bytes(), c as int);
                        &&& final(self).bytes() == cut(old(self).bytes(), p, c as int)
                        &&& final(self).cursor() == Some(p as usize)
                        &&& final(self).selection() is None
                    } else {
                        *final(self) == *old(self)
                    }
                },
            },
    {
        let before = self.text.clone();
        self.remove_back();
        !str_eq(before.as_str(), self.text.as_str())
    }

    /// After the text changed: a user edit keeps the cursor (at most the
    /// length); any other change puts the cursor at the end. The selection goes.
    pub fn update_input(&mut self, from_user: bool)
        ensures
            final(self).chars() == old(self).chars(),
            final(self).selection() is None,
            final(self).tick() == old(self).tick(),
            final(self).is_hovered() == old(self).is_hovered(),
            final(self).cursor() == match old(self).cursor() {
                Some(c) if from_user => Some(
                    if c <= old(self).bytes().len() {
                        c
                    } else {
                        old(self).bytes().len() as usize
                    },
                ),
                _ => Some(old(self).bytes().len() as usize),
            },
    {
        proof {
            use_type_invariant(&*self);
            encode_utf8_valid_utf8(self.text@);
            is_char_boundary_start_end_of_seq(bytes_of(self.text@));
        }
        let len = byte_len(&self.text);
        let old_cursor = self.cursor_index;
        self.cursor_index = None;
        self.select_range = None;
        self.cursor_index = match old_cursor {
            Some(c) if from_user => Some(
                if c <= len {
                    c
                } else {
                    len
                },
            ),
            _ => Some(len),
        };
    }

    /// Replaces the whole text (a plugin changed the input): the cursor goes
    /// to the end and the selection goes.
    pub fn set_text(&mut self, text: String)
        ensures
            final(self).chars() == text@,
            final(self).cursor() == Some(bytes_of(text@).len() as usize),
            final(self).selection() is None,
            final(self).tick() == old(self).tick(),
            final(self).is_hovered() == old(self).is_hovered(),
    {
        proof {
            use_type_invariant(&*self);
        }
        proof {
            encode_utf8_valid_utf8(text@);
            is_char_boundary_start_end_of_seq(bytes_of(text@));
        }
        let len = byte_len(&text);
        self.select_range = None;
        self.cursor_index = None;
        self.text = text;
        self.cursor_index = Some(len);
    }
}

} // verus!
