//! The search field of the desktop frontend: a text with a cursor or a
//! selection made of a pivot and a cursor, edited key by key.
//!
//! Positions are byte offsets. The field takes keys only while it is
//! active (it has a cursor or a selection). Clipboard contents come in with
//! the key that pastes, and text to copy goes out as a result.

use vstd::prelude::*;
use vstd::string::StringSliceAdditionalSpecFns;
use vstd::utf8::{encode_utf8_valid_utf8, is_char_boundary, is_char_boundary_start_end_of_seq};
use crate::text::{char_is_control, chars_of, is_control, str_eq};
use crate::text_input::{cut, put};
use crate::utf8_text::{
    byte_len, bytes_of, ceil_cb, ceil_char_boundary, ceil_word, ceil_word_boundary, floor_cb,
    floor_char_boundary, floor_word, floor_word_boundary, lemma_boundary_le, lemma_ceil_cb,
    lemma_floor_cb, lemma_replace_boundaries, replace_range, substring,
};

verus! {

/// Where the cursor of the field is.
#[derive(Debug, Clone, Copy, PartialEq, Eq, Structural)]
pub enum Selection {
    /// The field takes no keys.
    Inactive,
    /// A cursor at a position.
    Cursor(usize),
    /// A selection between the pivot, where it started, and the cursor.
    Select { pivot: usize, cursor: usize },
}

/// The selected range, start first, when there is a selection.
pub open spec fn range_of(s: Selection) -> Option<(usize, usize)> {
    match s {
        Selection::Select { pivot, cursor } => if pivot < cursor {
            Some((pivot, cursor))
        } else {
            Some((cursor, pivot))
        },
        _ => None,
    }
}

impl Selection {
    /// Whether the field is inactive.
    pub fn is_none(&self) -> (r: bool)
        ensures
            r == (*self is Inactive),
    {
        match self {
            Selection::Inactive => true,
            _ => false,
        }
    }

    /// The selected range, start first, when there is a selection.
    pub fn select_range(&self) -> (r: Option<(usize, usize)>)
        ensures
            r == range_of(*self),
    {
        match self {
            Selection::Select { pivot, cursor } => if *pivot < *cursor {
                Some((*pivot, *cursor))
            } else {
                Some((*cursor, *pivot))
            },
            _ => None,
        }
    }
}

/// The keys the field reacts to; `A`, `C`, `X` and `V` act with Ctrl held,
/// and otherwise type their text like any other key.
#[derive(Debug, Clone, Copy, PartialEq, Eq, Structural)]
pub enum Key {
    A,
    C,
    X,
    V,
    Left,
    Right,
    Backspace,
    Delete,
    Other,
}

/// The position one character or (`word`) one word away from `pos`, to the
/// right or to the left.
pub open spec fn step(b: Seq<u8>, pos: int, right: bool, word: bool) -> int {
    if right {
        if word {
            ceil_word(b, pos)
        } else {
            ceil_cb(b, pos)
        }
    } else {
        if word {
            floor_word(b, pos)
        } else {
            floor_cb(b, pos)
        }
    }
}

/// The selection after an arrow key. Without Shift a selection collapses
/// to its bound in the direction of the key (Ctrl then moves on by a word
/// from there), and a cursor moves; with Shift the cursor moves and the
/// pivot stays, a selection that becomes empty turning into a cursor.
pub open spec fn moved(b: Seq<u8>, sel: Selection, right: bool, ctrl: bool, shift: bool) -> Selection {
    match sel {
        Selection::Inactive => Selection::Inactive,
        Selection::Cursor(c) => {
            let n = step(b, c as int, right, ctrl) as usize;
            if shift && n != c {
                Selection::Select { pivot: c, cursor: n }
            } else {
                Selection::Cursor(n)
            }
        },
        Selection::Select { pivot, cursor } => if !shift {
            let bound = if (right && pivot < cursor) || (!right && cursor < pivot) {
                cursor
            } else {
                pivot
            };
            Selection::Cursor(
                if ctrl {
                    step(b, bound as int, right, true) as usize
                } else {
                    bound
                },
            )
        } else {
            let n = step(b, cursor as int, right, ctrl) as usize;
            if pivot == n {
                Selection::Cursor(n)
            } else {
                Selection::Select { pivot, cursor: n }
            }
        },
    }
}

/// Whether a typed text can go in the field: it holds no line break and no
/// control character.
pub open spec fn typable(t: Seq<char>) -> bool {
    forall|i: int| 0 <= i < t.len() ==> !(t[i] == '\n' || t[i] == '\r' || char_is_control(t[i]))
}

/// What a key did: whether the text changed, and the text to put on the
/// clipboard, if any.
#[derive(Debug)]
pub struct KeyOutcome {
    pub modified: bool,
    pub copied: Option<String>,
}

/// The search field.
pub struct TextInput {
    text: String,
    selection: Selection,
    cursor_tick: usize,
}

/// Whether every position of the selection is a character boundary of `b`.
pub open spec fn positions_ok(b: Seq<u8>, s: Selection) -> bool {
    match s {
        Selection::Inactive => true,
        Selection::Cursor(c) => is_char_boundary(b, c as int),
        Selection::Select { pivot, cursor } => is_char_boundary(b, pivot as int) && is_char_boundary(
            b,
            cursor as int,
        ),
    }
}

/// The text without the range `s..e`, between boundaries.
fn remove_range(text: &String, s: usize, e: usize) -> (r: String)
    requires
        s <= e,
        is_char_boundary(bytes_of(text@), s as int),
        is_char_boundary(bytes_of(text@), e as int),
    ensures
        bytes_of(r@) == cut(bytes_of(text@), s as int, e as int),
        is_char_boundary(bytes_of(r@), s as int),
{
    let ghost b = bytes_of(text@);
    let r = replace_range(text, s, e, "");
    proof {
        encode_utf8_valid_utf8(text@);
        assert(("").spec_bytes() =~= Seq::<u8>::empty()) by {
            reveal_strlit("");
        }
        encode_utf8_valid_utf8(""@);
        lemma_replace_boundaries(b, s as int, e as int, Seq::<u8>::empty());
        assert(bytes_of(r@) =~= cut(b, s as int, e as int));
    }
    r
}

/// The text with `t` put at the boundary `at`.
fn insert_at(text: &String, at: usize, t: &str) -> (r: String)
    requires
        is_char_boundary(bytes_of(text@), at as int),
    ensures
        bytes_of(r@) == put(bytes_of(text@), at as int, t.spec_bytes()),
        is_char_boundary(bytes_of(r@), at + t.spec_bytes().len()),
{
    let ghost b = bytes_of(text@);
    proof {
        encode_utf8_valid_utf8(text@);
        encode_utf8_valid_utf8(t@);
        lemma_boundary_le(b, at as int);
    }
    let r = replace_range(text, at, at, t);
    proof {
        lemma_replace_boundaries(b, at as int, at as int, t.spec_bytes());
        assert(bytes_of(r@) =~= put(b, at as int, t.spec_bytes()));
        encode_utf8_valid_utf8(r@);
        lemma_boundary_le(bytes_of(r@), at + t.spec_bytes().len());
    }
    r
}

/// Whether the text has no line break and no control character.
fn is_typable(t: &str) -> (r: bool)
    ensures
        r == typable(t@),
{
    let v = chars_of(t);
    let mut i: usize = 0;
    while i < v.len()
        invariant
            0 <= i <= v.len(),
            v@ == t@,
            forall|k: int| 0 <= k < i ==> !(v@[k] == '\n' || v@[k] == '\r' || char_is_control(v@[k])),
        decreases v.len() - i,
    {
        let c = v[i];
        if c == '\n' || c == '\r' || is_control(c) {
            return false;
        }
        i += 1;
    }
    true
}

/// What a key press does to the field, from `old` to `new`, with the text
/// to copy: the rules `TextInput::on_key_press` follows (see there).
pub open spec fn key_press_effect(
    old: TextInput,
    new: TextInput,
    key: Key,
    ctrl: bool,
    shift: bool,
    text: Option<&str>,
    clipboard: Option<&str>,
    copied: Option<String>,
) -> bool {
    let b = old.bytes();
    let sel = old.sel();
    let range = range_of(sel);
    let (b1, at) = match range {
        Some((s, e)) => (cut(b, s as int, e as int), s as int),
        None => (b, sel->Cursor_0 as int),
    };
    if sel is Inactive {
        &&& new.tick() == 0
        &&& new.chars() == old.chars()
        &&& new.sel() == sel
        &&& copied is None
    } else if key == Key::A && ctrl {
        &&& new.sel() == (Selection::Select { pivot: 0, cursor: b.len() as usize })
        &&& new.chars() == old.chars()
        &&& new.tick() == old.tick()
        &&& copied is None
    } else if key == Key::C && ctrl {
        &&& new.sel() == sel
        &&& new.chars() == old.chars()
        &&& new.tick() == old.tick()
        &&& match range {
            Some((s, e)) => copied matches Some(t) && bytes_of(t@) == b.subrange(s as int, e as int),
            None => copied is None,
        }
    } else if key == Key::X && ctrl {
        &&& new.tick() == old.tick()
        &&& match range {
            Some((s, e)) => {
                &&& copied matches Some(t) && bytes_of(t@) == b.subrange(s as int, e as int)
                &&& new.bytes() == cut(b, s as int, e as int)
                &&& new.sel() == Selection::Cursor(s)
            },
            None => {
                &&& copied is None
                &&& new.chars() == old.chars()
                &&& new.sel() == sel
            },
        }
    } else if key == Key::V && ctrl {
        &&& new.tick() == old.tick()
        &&& copied is None
        &&& match clipboard {
            Some(t) if t@.len() > 0 => {
                &&& new.bytes() == put(b1, at, t.spec_bytes())
                &&& new.sel() == Selection::Cursor((at + t.spec_bytes().len()) as usize)
            },
            _ => {
                &&& new.bytes() == b1
                &&& new.sel() == sel
            },
        }
    } else if key == Key::Left || key == Key::Right {
        &&& new.tick() == 0
        &&& new.chars() == old.chars()
        &&& new.sel() == moved(b, sel, key == Key::Right, ctrl, shift)
        &&& copied is None
    } else if key == Key::Backspace || key == Key::Delete {
        &&& new.tick() == old.tick()
        &&& copied is None
        &&& match range {
            Some((s, e)) => new.bytes() == cut(b, s as int, e as int) && new.sel() == Selection::Cursor(s),
            None => {
                let c = sel->Cursor_0 as int;
                if key == Key::Backspace && c > 0 {
                    let p = floor_cb(b, c);
                    &&& new.bytes() == cut(b, p, ceil_cb(b, p))
                    &&& new.sel() == Selection::Cursor(p as usize)
                } else if key == Key::Delete && c < b.len() {
                    &&& new.bytes() == cut(b, c, ceil_cb(b, c))
                    &&& new.sel() == sel
                } else {
                    &&& new.chars() == old.chars()
                    &&& new.sel() == sel
                }
            },
        }
    } else {
        &&& copied is None
        &&& match text {
            Some(t) if typable(t@) => {
                &&& new.bytes() == put(b1, at, t.spec_bytes())
                &&& new.sel() == Selection::Cursor((at + t.spec_bytes().len()) as usize)
                &&& new.tick() == 0
            },
            _ => {
                &&& new.chars() == old.chars()
                &&& new.sel() == sel
                &&& new.tick() == old.tick()
            },
        }
    }
}

/// Whether a key press leaves the selection's positions as they were over
/// a text that lost the selected range: Ctrl+V on a selection with nothing
/// to paste. The field is then consistent again once `update_input` runs,
/// as it must after a change.
pub open spec fn leaves_stale_selection(sel: Selection, key: Key, ctrl: bool, clipboard: Option<&str>) -> bool {
    &&& sel is Select
    &&& key == Key::V && ctrl
    &&& !(clipboard matches Some(t) && t@.len() > 0)
}

impl TextInput {

    /// The UTF-8 bytes of the text.
    pub closed spec fn bytes(self) -> Seq<u8> {
        bytes_of(self.text@)
    }

    /// The characters of the text.
    pub closed spec fn chars(self) -> Seq<char> {
        self.text@
    }

    /// The cursor or selection.
    pub closed spec fn sel(self) -> Selection {
        self.selection
    }

    /// Frames since the cursor last moved (it blinks).
    pub closed spec fn tick(self) -> usize {
        self.cursor_tick
    }

    /// Every position of the selection is a character boundary of the text.
    pub open spec fn wf(self) -> bool {
        positions_ok(self.bytes(), self.sel())
    }

    /// The bytes of the field are the valid UTF-8 encoding of its characters.
    pub proof fn lemma_bytes_of_chars(self)
        ensures
            self.bytes() == bytes_of(self.chars()),
            vstd::utf8::valid_utf8(self.bytes()),
            is_char_boundary(self.bytes(), 0),
            is_char_boundary(self.bytes(), self.bytes().len() as int),
    {
        encode_utf8_valid_utf8(self.text@);
        is_char_boundary_start_end_of_seq(self.bytes());
    }

    /// An empty, inactive field.
    pub fn new() -> (r: Self)
        ensures
            r.chars() == Seq::<char>::empty(),
            r.sel() == Selection::Inactive,
            r.tick() == 0,
            r.wf(),
    {
        TextInput { text: String::new(), selection: Selection::Inactive, cursor_tick: 0 }
    }

    /// The text.
    pub fn text(&self) -> (r: &String)
        ensures
            r@ == self.chars(),
    {
        &self.text
    }

    /// The cursor or selection.
    pub fn selection(&self) -> (r: Selection)
        ensures
            r == self.sel(),
    {
        self.selection
    }

    /// Frames since the cursor last moved.
    pub fn cursor_tick(&self) -> (r: usize)
        ensures
            r == self.tick(),
    {
        self.cursor_tick
    }

    /// Whether every position of the selection is a character boundary of
    /// the text, as the editing keys need.
    pub fn is_consistent(&self) -> (r: bool)
        ensures
            r == self.wf(),
    {
        match self.selection {
            Selection::Inactive => true,
            Selection::Cursor(c) => self.text.as_str().is_char_boundary(c),
            Selection::Select { pivot, cursor } => self.text.as_str().is_char_boundary(pivot)
                && self.text.as_str().is_char_boundary(cursor),
        }
    }

    /// A click in the field puts the cursor at the character boundary `index`.
    pub fn click_at(&mut self, index: usize)
        requires
            is_char_boundary(old(self).bytes(), index as int),
        ensures
            final(self).sel() == Selection::Cursor(index),
            final(self).chars() == old(self).chars(),
            final(self).tick() == old(self).tick(),
            final(self).wf(),
    {
        self.selection = Selection::Cursor(index);
    }

    /// Moves the cursor by an arrow key (see `moved`): to the right when
    /// `right`, by a word with Ctrl, extending the selection with Shift.
    pub fn move_cursor(&mut self, right: bool, ctrl: bool, shift: bool)
        requires
            old(self).wf(),
        ensures
            final(self).sel() == moved(old(self).bytes(), old(self).sel(), right, ctrl, shift),
            final(self).chars() == old(self).chars(),
            final(self).tick() == old(self).tick(),
            final(self).wf(),
    {
        let ghost b = bytes_of(self.text@);
        proof {
            encode_utf8_valid_utf8(self.text@);
        }
        let (old_cursor, new_cursor) = match self.selection {
            Selection::Inactive => return,
            Selection::Select { pivot, cursor } if !shift => {
                let bound = if (right && pivot < cursor) || (!right && cursor < pivot) {
                    cursor
                } else {
                    pivot
                };
                proof {
                    lemma_boundary_le(b, bound as int);
                }
                if ctrl {
                    (bound, self.step_from(bound, right, true))
                } else {
                    (bound, bound)
                }
            },
            Selection::Cursor(cursor) => {
                proof {
                    lemma_boundary_le(b, cursor as int);
                }
                (cursor, self.step_from(cursor, right, ctrl))
            },
            Selection::Select { pivot: _, cursor } => {
                proof {
                    lemma_boundary_le(b, cursor as int);
                }
                (cursor, self.step_from(cursor, right, ctrl))
            },
        };
        if shift {
            match self.selection {
                Selection::Select { pivot, cursor: _ } => {
                    if pivot == new_cursor {
                        self.selection = Selection::Cursor(new_cursor);
                    } else {
                        self.selection = Selection::Select { pivot, cursor: new_cursor };
                    }
                },
                _ => {
                    if new_cursor != old_cursor {
                        self.selection = Selection::Select { cursor: new_cursor, pivot: old_cursor };
                    } else {
                        self.selection = Selection::Cursor(new_cursor);
                    }
                },
            }
        } else {
            self.selection = Selection::Cursor(new_cursor);
        }
    }

    fn step_from(&self, pos: usize, right: bool, word: bool) -> (r: usize)
        requires
            is_char_boundary(self.bytes(), pos as int),
            pos <= self.bytes().len(),
        ensures
            r == step(self.bytes(), pos as int, right, word),
            is_char_boundary(self.bytes(), r as int),
    {
        if right {
            if word {
                ceil_word_boundary(&self.text, pos)
            } else {
                ceil_char_boundary(&self.text, pos)
            }
        } else {
            if word {
                floor_word_boundary(&self.text, pos)
            } else {
                floor_char_boundary(&self.text, pos)
            }
        }
    }

    /// Replaces the text and puts the cursor at `cursor`, a boundary of the
    /// new text.
    fn set_text_and_cursor(&mut self, text: String, cursor: usize)
        requires
            is_char_boundary(bytes_of(text@), cursor as int),
        ensures
            final(self).chars() == text@,
            final(self).sel() == Selection::Cursor(cursor),
            final(self).tick() == old(self).tick(),
            final(self).wf(),
    {
        self.text = text;
        self.selection = Selection::Cursor(cursor);
    }

    /// Applies a key press (see `key_press_effect`) and gives the text to copy.
    fn apply_key(&mut self, key: Key, ctrl: bool, shift: bool, text: Option<&str>, clipboard: Option<&str>) -> (copied: Option<String>)
        requires
            old(self).wf(),
        ensures
            key_press_effect(*old(self), *final(self), key, ctrl, shift, text, clipboard, copied),
            !leaves_stale_selection(old(self).sel(), key, ctrl, clipboard) ==> final(self).wf(),
    {
        let ghost b = bytes_of(self.text@);
        proof {
            encode_utf8_valid_utf8(self.text@);
            is_char_boundary_start_end_of_seq(b);
        }
        if self.selection.is_none() {
            self.cursor_tick = 0;
            return None;
        }
        let range = self.selection.select_range();
        if key == Key::A && ctrl {
            self.selection = Selection::Select { pivot: 0, cursor: byte_len(&self.text) };
            return None;
        }
        if key == Key::C && ctrl {
            return match range {
                Some((s, e)) => Some(substring(&self.text, s, e)),
                None => None,
            };
        }
        if key == Key::X && ctrl {
            return match range {
                Some((s, e)) => {
                    let t = substring(&self.text, s, e);
                    let rest = remove_range(&self.text, s, e);
                    self.set_text_and_cursor(rest, s);
                    Some(t)
                },
                None => None,
            };
        }
        if key == Key::Left || key == Key::Right {
            self.cursor_tick = 0;
            self.move_cursor(key == Key::Right, ctrl, shift);
            return None;
        }
        if key == Key::Backspace || key == Key::Delete {
            match range {
                Some((s, e)) => {
                    let rest = remove_range(&self.text, s, e);
                    self.set_text_and_cursor(rest, s);
                },
                None => {
                    let c = match self.selection {
                        Selection::Cursor(c) => c,
                        _ => 0,
                    };
                    proof {
                        lemma_boundary_le(b, c as int);
                    }
                    if key == Key::Backspace && c > 0 {
                        let p = floor_char_boundary(&self.text, c);
                        proof {
                            lemma_floor_cb(b, c as int);
                            lemma_ceil_cb(b, p as int);
                        }
                        let q = ceil_char_boundary(&self.text, p);
                        let rest = remove_range(&self.text, p, q);
                        self.set_text_and_cursor(rest, p);
                    } else if key == Key::Delete && c < byte_len(&self.text) {
                        let q = ceil_char_boundary(&self.text, c);
                        proof {
                            lemma_ceil_cb(b, c as int);
                        }
                        let rest = remove_range(&self.text, c, q);
                        self.set_text_and_cursor(rest, c);
                    }
                },
            }
            return None;
        }
        let is_paste = key == Key::V && ctrl;
        let insert = if is_paste {
            match clipboard {
                Some(t) => if t.is_empty() {
                    None
                } else {
                    Some(t)
                },
                None => None,
            }
        } else {
            match text {
                Some(t) => if is_typable(t) {
                    Some(t)
                } else {
                    None
                },
                None => None,
            }
        };
        if !is_paste && insert.is_none() {
            return None;
        }
        let at = match range {
            Some((s, e)) => {
                let rest = remove_range(&self.text, s, e);
                if insert.is_some() {
                    self.set_text_and_cursor(rest, s);
                } else {
                    self.text = rest;
                }
                s
            },
            None => match self.selection {
                Selection::Cursor(c) => c,
                _ => 0,
            },
        };
        if let Some(t) = insert {
            let new_text = insert_at(&self.text, at, t);
            let total = byte_len(&new_text);
            let tail = byte_len(&self.text) - at;
            self.set_text_and_cursor(new_text, total - tail);
            if !is_paste {
                self.cursor_tick = 0;
            }
        }
        None
    }

    /// A key press, with Ctrl and Shift held or not, the text the key types
    /// (if any), and the clipboard's contents (read for Ctrl+V). Gives
    /// whether the text changed and the text to copy (Ctrl+C, Ctrl+X). An
    /// inactive field only resets the cursor's blink.
    ///
    /// - Ctrl+A selects the whole text; Ctrl+C copies the selection; Ctrl+X
    ///   cuts it; Ctrl+V removes the selection and puts the clipboard's text,
    ///   when there is one, at the cursor (with nothing to paste, the
    ///   selection keeps its positions until `update_input`, which a change
    ///   calls for, puts the cursor at the end).
    /// - The arrows move the cursor (see `move_cursor`).
    /// - Backspace and Delete remove the selection, or the character before
    ///   (after) the cursor.
    /// - Other keys type their text, unless it holds a line break or a
    ///   control character: it replaces the selection, and the cursor goes
    ///   after it.
    pub fn on_key_press(&mut self, key: Key, ctrl: bool, shift: bool, text: Option<&str>, clipboard: Option<&str>) -> (r: KeyOutcome)
        requires
            old(self).wf(),
        ensures
            key_press_effect(*old(self), *final(self), key, ctrl, shift, text, clipboard, r.copied),
            r.modified == (final(self).chars() != old(self).chars()),
            !leaves_stale_selection(old(self).sel(), key, ctrl, clipboard) ==> final(self).wf(),
    {
        let before = self.text.clone();
        let copied = self.apply_key(key, ctrl, shift, text, clipboard);
        let modified = !str_eq(before.as_str(), self.text.as_str());
        KeyOutcome { modified, copied }
    }

    /// After the text changed: a user edit keeps the cursor (at most the
    /// length); any other change, or a field without a cursor, gets the
    /// cursor at the end.
    pub fn update_input(&mut self, from_user: bool)
        ensures
            final(self).chars() == old(self).chars(),
            final(self).tick() == old(self).tick(),
            final(self).sel() == match old(self).sel() {
                Selection::Cursor(c) if from_user => Selection::Cursor(
                    if c < old(self).bytes().len() {
                        c
                    } else {
                        old(self).bytes().len() as usize
                    },
                ),
                _ => Selection::Cursor(old(self).bytes().len() as usize),
            },
            (old(self).wf() || !(old(self).sel() is Cursor)) ==> final(self).wf(),
    {
        proof {
            encode_utf8_valid_utf8(self.text@);
            is_char_boundary_start_end_of_seq(bytes_of(self.text@));
        }
        let len = byte_len(&self.text);
        match self.selection {
            Selection::Cursor(c) if from_user => {
                self.selection = Selection::Cursor(if c < len {
                    c
                } else {
                    len
                });
            },
            _ => {
                self.selection = Selection::Cursor(len);
            },
        }
    }

    /// Replaces the whole text (a plugin changed the input); the cursor goes
    /// to the end.
    pub fn set_text(&mut self, text: String)
        ensures
            final(self).chars() == text@,
            final(self).sel() == Selection::Cursor(bytes_of(text@).len() as usize),
            final(self).tick() == old(self).tick(),
            final(self).wf(),
    {
        proof {
            encode_utf8_valid_utf8(text@);
            is_char_boundary_start_end_of_seq(bytes_of(text@));
        }
        let len = byte_len(&text);
        self.set_text_and_cursor(text, len);
    }

    /// Counts a frame for the cursor's blink.
    pub fn tick_frame(&mut self)
        requires
            old(self).tick() < usize::MAX,
        ensures
            final(self).tick() == old(self).tick() + 1,
            final(self).chars() == old(self).chars(),
            final(self).sel() == old(self).sel(),
    {
        self.cursor_tick = self.cursor_tick + 1;
    }
}

/// Ctrl+X on a non-empty selection then Ctrl+V of what it copied gives the
/// text back, with the cursor at the end of the range that was selected;
/// both presses change the text.
pub proof fn lemma_cut_then_paste(
    t0: TextInput,
    t1: TextInput,
    t2: TextInput,
    shift1: bool,
    shift2: bool,
    text1: Option<&str>,
    text2: Option<&str>,
    clip1: Option<&str>,
    copied1: Option<String>,
    copied2: Option<String>,
    clip: &str,
)
    requires
        positions_ok(t0.bytes(), t0.sel()),
        t0.sel() matches Selection::Select { pivot, cursor } && pivot != cursor,
        key_press_effect(t0, t1, Key::X, true, shift1, text1, clip1, copied1),
        copied1 matches Some(t) && t@ == clip@,
        key_press_effect(t1, t2, Key::V, true, shift2, text2, Some(clip), copied2),
    ensures
        ({
            let (s, e) = range_of(t0.sel())->0;
            &&& bytes_of(clip@) == t0.bytes().subrange(s as int, e as int)
            &&& t1.chars() != t0.chars()
            &&& t2.chars() != t1.chars()
            &&& t2.chars() == t0.chars()
            &&& t2.sel() == Selection::Cursor(e)
        }),
{
    let (s, e) = range_of(t0.sel())->0;
    let b = t0.bytes();
    t0.lemma_bytes_of_chars();
    t1.lemma_bytes_of_chars();
    t2.lemma_bytes_of_chars();
    lemma_boundary_le(b, s as int);
    lemma_boundary_le(b, e as int);
    let sub = b.subrange(s as int, e as int);
    assert(clip.spec_bytes() == bytes_of(clip@));
    assert(clip@.len() > 0) by {
        if clip@.len() == 0 {
            assert(clip@ =~= Seq::<char>::empty());
            assert(bytes_of(clip@) =~= Seq::<u8>::empty());
        }
    }
    crate::text_input::lemma_cut_then_put(b, s as int, e as int);
    assert(t1.bytes().len() < b.len());
    vstd::utf8::encode_utf8_decode_utf8(t0.chars());
    vstd::utf8::encode_utf8_decode_utf8(t1.chars());
    vstd::utf8::encode_utf8_decode_utf8(t2.chars());
}

} // verus!
