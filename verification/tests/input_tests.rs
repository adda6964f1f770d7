use keal::selection_input::{Key, Selection, TextInput as Field};
use keal::text_input::TextInput;

#[test]
fn typing_and_backspace() {
    let mut t = TextInput::default();
    assert!(t.type_char('h'));
    assert!(t.type_char('é'));
    assert_eq!(t.text(), "hé");
    assert_eq!(t.cursor_index(), Some(3));
    assert!(t.backspace());
    assert_eq!(t.text(), "h");
    assert_eq!(t.cursor_index(), Some(1));
}

#[test]
fn arrows_and_selection() {
    let mut t = TextInput::default();
    t.set_text("hello world".to_owned());
    assert_eq!(t.cursor_index(), Some(11));
    t.move_left(true, false);
    assert_eq!(t.cursor_index(), Some(6));
    t.move_left(false, true);
    assert_eq!(t.select_range(), Some((5, 6)));
    t.move_left(false, true);
    assert_eq!(t.select_range(), Some((4, 6)));
    let copied = t.cut();
    assert_eq!(copied.as_deref(), Some("o "));
    assert_eq!(t.text(), "hellworld");
    assert_eq!(t.cursor_index(), Some(4));
    assert!(t.paste("o "));
    assert_eq!(t.text(), "hello world");
    assert_eq!(t.cursor_index(), Some(6));
    t.move_right(false, false);
    assert_eq!(t.cursor_index(), Some(7));
}

#[test]
fn select_all_and_copy() {
    let mut t = TextInput::default();
    t.set_text("abc".to_owned());
    t.select_all();
    assert_eq!(t.select_range(), Some((0, 3)));
    assert_eq!(t.copy().as_deref(), Some("abc"));
    assert!(t.type_char('x'));
    assert_eq!(t.text(), "x");
}

#[test]
fn update_input_places_cursor() {
    let mut t = TextInput::default();
    t.set_text("abc".to_owned());
    t.move_left(false, false);
    t.update_input(true);
    assert_eq!(t.cursor_index(), Some(2));
    t.update_input(false);
    assert_eq!(t.cursor_index(), Some(3));
}

fn field(text: &str) -> Field {
    let mut f = Field::new();
    f.set_text(text.to_owned());
    f
}

#[test]
fn selection_ranges() {
    assert_eq!(Selection::Select { pivot: 4, cursor: 1 }.select_range(), Some((1, 4)));
    assert_eq!(Selection::Select { pivot: 1, cursor: 4 }.select_range(), Some((1, 4)));
    assert_eq!(Selection::Cursor(2).select_range(), None);
    assert!(Selection::Inactive.is_none());
    assert!(!Selection::Cursor(0).is_none());
}

#[test]
fn inactive_field_ignores_keys() {
    let mut f = Field::new();
    let r = f.on_key_press(Key::Other, false, false, Some("a"), None);
    assert!(!r.modified);
    assert_eq!(f.text(), "");
    assert_eq!(f.selection(), Selection::Inactive);
}

#[test]
fn field_typing_and_deleting() {
    let mut f = field("ab");
    let r = f.on_key_press(Key::Other, false, false, Some("ç"), None);
    assert!(r.modified);
    assert_eq!(f.text(), "abç");
    assert_eq!(f.selection(), Selection::Cursor(4));
    assert!(!f.on_key_press(Key::Other, false, false, Some("\n"), None).modified);
    assert!(!f.on_key_press(Key::Other, false, false, Some("\u{7}"), None).modified);
    f.on_key_press(Key::Backspace, false, false, None, None);
    assert_eq!(f.text(), "ab");
    assert_eq!(f.selection(), Selection::Cursor(2));
    f.on_key_press(Key::Left, false, false, None, None);
    f.on_key_press(Key::Delete, false, false, None, None);
    assert_eq!(f.text(), "a");
    assert_eq!(f.selection(), Selection::Cursor(1));
    // a key without Ctrl types its text
    f.on_key_press(Key::A, false, false, Some("A"), None);
    assert_eq!(f.text(), "aA");
}

#[test]
fn field_shift_selection_and_clipboard() {
    let mut f = field("hello world");
    f.on_key_press(Key::Left, true, true, None, None);
    assert_eq!(f.selection(), Selection::Select { pivot: 11, cursor: 6 });
    let r = f.on_key_press(Key::C, true, false, None, None);
    assert_eq!(r.copied.as_deref(), Some("world"));
    let r = f.on_key_press(Key::X, true, false, None, None);
    assert!(r.modified);
    assert_eq!(r.copied.as_deref(), Some("world"));
    assert_eq!(f.text(), "hello ");
    assert_eq!(f.selection(), Selection::Cursor(6));
    let r = f.on_key_press(Key::V, true, false, None, Some("there"));
    assert!(r.modified);
    assert_eq!(f.text(), "hello there");
    assert_eq!(f.selection(), Selection::Cursor(11));
    f.on_key_press(Key::A, true, false, None, None);
    assert_eq!(f.selection(), Selection::Select { pivot: 0, cursor: 11 });
    f.on_key_press(Key::Right, false, false, None, None);
    assert_eq!(f.selection(), Selection::Cursor(11));
}

#[test]
fn paste_with_empty_clipboard_keeps_selection_until_update() {
    let mut f = field("abcdef");
    f.on_key_press(Key::Left, false, true, None, None);
    f.on_key_press(Key::Left, false, true, None, None);
    assert_eq!(f.selection(), Selection::Select { pivot: 6, cursor: 4 });
    let r = f.on_key_press(Key::V, true, false, None, Some(""));
    assert!(r.modified);
    assert_eq!(f.text(), "abcd");
    assert_eq!(f.selection(), Selection::Select { pivot: 6, cursor: 4 });
    assert!(!f.is_consistent());
    f.update_input(true);
    assert_eq!(f.selection(), Selection::Cursor(4));
    assert!(f.is_consistent());
}

#[test]
fn field_reports_modified_only_when_text_changes() {
    let mut f = field("ab");
    f.click_at(0);
    let r = f.on_key_press(Key::Backspace, false, false, None, None);
    assert!(!r.modified);
    assert_eq!(f.text(), "ab");
    f.click_at(2);
    let r = f.on_key_press(Key::Delete, false, false, None, None);
    assert!(!r.modified);
    let r = f.on_key_press(Key::Backspace, false, false, None, None);
    assert!(r.modified);
    assert_eq!(f.text(), "a");
    // pasting the selected text over itself leaves the text as it was
    f.on_key_press(Key::A, true, false, None, None);
    let r = f.on_key_press(Key::V, true, false, None, Some("a"));
    assert!(!r.modified);
    assert_eq!(f.selection(), Selection::Cursor(1));
    // nothing to paste: the selection is taken out
    f.on_key_press(Key::A, true, false, None, None);
    let r = f.on_key_press(Key::V, true, false, None, None);
    assert!(r.modified);
    assert_eq!(f.text(), "");
    f.update_input(true);
    assert_eq!(f.selection(), Selection::Cursor(0));
}

#[test]
fn field_cut_then_paste_gives_text_back() {
    let mut f = field("hello world");
    f.on_key_press(Key::Left, true, true, None, None);
    let cut = f.on_key_press(Key::X, true, false, None, None);
    assert!(cut.modified);
    let clip = cut.copied.unwrap();
    assert_eq!(clip, "world");
    let pasted = f.on_key_press(Key::V, true, false, None, Some(&clip));
    assert!(pasted.modified);
    assert_eq!(f.text(), "hello world");
    assert_eq!(f.selection(), Selection::Cursor(11));
}

#[test]
fn word_selection_stays_anchored() {
    let mut t = TextInput::default();
    t.set_text("abc def".to_owned());
    t.move_left(false, false);
    t.move_left(false, false);
    t.move_right(false, true);
    assert_eq!(t.cursor_index(), Some(6));
    assert_eq!(t.select_range(), Some((5, 6)));
    t.move_left(true, true);
    assert_eq!(t.select_range(), Some((4, 5)));
    assert_eq!(t.cursor_index(), Some(4));
    t.move_right(true, true);
    assert_eq!(t.select_range(), Some((5, 7)));
    assert_eq!(t.cursor_index(), Some(7));
}

#[test]
fn field_update_input() {
    let mut f = field("abc");
    f.on_key_press(Key::Left, false, false, None, None);
    f.update_input(true);
    assert_eq!(f.selection(), Selection::Cursor(2));
    f.update_input(false);
    assert_eq!(f.selection(), Selection::Cursor(3));
    f.click_at(1);
    assert_eq!(f.selection(), Selection::Cursor(1));
}

#[test]
fn backspace_and_paste_report_changes_only() {
    let mut t = TextInput::default();
    assert!(!t.backspace());
    assert!(!t.paste(""));
    t.set_text("ab".to_owned());
    t.select_all();
    assert!(!t.paste("ab"));
    assert_eq!(t.text(), "ab");
    assert!(t.backspace());
    assert_eq!(t.text(), "a");
}
