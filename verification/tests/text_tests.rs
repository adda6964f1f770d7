use keal::number::{is_float_text, parse_usize, usize_to_string};
use keal::text::{is_control, is_whitespace, split, split_once_str, starts_with_str, str_eq, string_of_range, trim_range};
use keal::utf8_text::{ceil_char_boundary, ceil_word_boundary, floor_char_boundary, floor_word_boundary};

#[test]
fn parse_usize_reads_digits() {
    assert_eq!(parse_usize("42"), Some(42));
    assert_eq!(parse_usize("+7"), Some(7));
    assert_eq!(parse_usize("0"), Some(0));
}

#[test]
fn parse_usize_rejects_other_text() {
    assert_eq!(parse_usize(""), None);
    assert_eq!(parse_usize("-1"), None);
    assert_eq!(parse_usize("1a"), None);
    assert_eq!(parse_usize("+"), None);
    assert_eq!(parse_usize("99999999999999999999999999"), None);
}

#[test]
fn usize_to_string_round_trip() {
    for n in [0usize, 5, 10, 123, 4096, usize::MAX] {
        let s = usize_to_string(n);
        assert_eq!(s, n.to_string());
        assert_eq!(parse_usize(&s), Some(n));
    }
}

#[test]
fn split_keeps_empty_parts() {
    assert_eq!(split("a;;b", ';'), vec!["a".to_owned(), "".to_owned(), "b".to_owned()]);
    assert_eq!(split("", ';'), vec!["".to_owned()]);
}

#[test]
fn split_once_takes_first_separator() {
    assert_eq!(split_once_str("name:a:b", ':'), Some(("name".to_owned(), "a:b".to_owned())));
    assert_eq!(split_once_str("none", ':'), None);
}

#[test]
fn string_helpers() {
    assert!(str_eq("abc", "abc"));
    assert!(!str_eq("abc", "abd"));
    assert!(starts_with_str("name:x", "name"));
    assert!(!starts_with_str("na", "name"));
    assert_eq!(split("héllo", 'l'), vec!["hé".to_owned(), "".to_owned(), "o".to_owned()]);
    let v = vec!['a', 'ß', 'c'];
    assert_eq!(string_of_range(&v, 1, 3), "ßc");
    assert_eq!(string_of_range(&v, 1, 1), "");
}

#[test]
fn trimming_uses_unicode_whitespace() {
    let v: Vec<char> = "\u{3000} a b\t".chars().collect();
    assert_eq!(trim_range(&v, 0, v.len()), (2, 5));
    let blank: Vec<char> = "  ".chars().collect();
    let (s, e) = trim_range(&blank, 0, 2);
    assert_eq!(s, e);
}

#[test]
fn char_boundaries_skip_multibyte_characters() {
    let s = "aé€b".to_owned(); // bytes: a(1) é(2) €(3) b(1)
    assert_eq!(ceil_char_boundary(&s, 0), 1);
    assert_eq!(ceil_char_boundary(&s, 1), 3);
    assert_eq!(ceil_char_boundary(&s, 3), 6);
    assert_eq!(ceil_char_boundary(&s, 7), 7);
    assert_eq!(floor_char_boundary(&s, 6), 3);
    assert_eq!(floor_char_boundary(&s, 3), 1);
    assert_eq!(floor_char_boundary(&s, 0), 0);
}

#[test]
fn word_boundaries_skip_separators() {
    let s = "hello, big world".to_owned();
    assert_eq!(floor_word_boundary(&s, 16), 11);
    assert_eq!(floor_word_boundary(&s, 11), 7);
    assert_eq!(floor_word_boundary(&s, 3), 0);
    assert_eq!(ceil_word_boundary(&s, 0), 5);
    assert_eq!(ceil_word_boundary(&s, 5), 10);
    assert_eq!(ceil_word_boundary(&s, 14), 16);
}

#[test]
fn word_boundaries_at_text_edges() {
    let s = " ab".to_owned();
    assert_eq!(floor_word_boundary(&s, 3), 1);
    assert_eq!(floor_word_boundary(&s, 1), 0);
    let s = "a bc".to_owned();
    assert_eq!(ceil_word_boundary(&s, 0), 1);
    assert_eq!(ceil_word_boundary(&s, 1), 4);
    assert_eq!(ceil_word_boundary(&s, 4), 4);
}

#[test]
fn float_text_follows_number_syntax() {
    for ok in ["16", "16.0", "+.5", "-3.", "1e5", "2.5E-3", "inf", "-Infinity", "NaN"] {
        assert!(is_float_text(ok), "{ok}");
    }
    for bad in ["big", "", ".", "1.2.3", "e5", "1e", "1e+", " 1", "infinite", "++1"] {
        assert!(!is_float_text(bad), "{bad}");
    }
}

#[test]
fn character_classes_agree_with_std() {
    for n in 0..=0x10FFFFu32 {
        if let Some(c) = char::from_u32(n) {
            assert_eq!(is_whitespace(c), c.is_whitespace(), "{n:#x}");
            assert_eq!(is_control(c), c.is_control(), "{n:#x}");
        }
    }
}
