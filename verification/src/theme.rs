//! Colors of the interface, read from the `[colors]` section.
//!
//! A color is written `rrggbb` or `rrggbbaa` in hexadecimal; each channel is
//! read as `u32::from_str_radix(.., 16)` reads two bytes of the text, so a
//! channel may also be written `+d`.

use vstd::prelude::*;
use vstd::utf8::is_char_boundary;
use vstd::string::StringSliceAdditionalSpecFns;
use crate::config::{parse_bool, parse_bool_spec, ConfigWarning, FrontendConfig};
use crate::text::str_eq;

verus! {

/// A color with 8-bit channels.
#[derive(Debug, Clone, Copy, PartialEq, Eq, Structural)]
pub struct Color {
    pub r: u8,
    pub g: u8,
    pub b: u8,
    pub a: u8,
}

/// Value of a hexadecimal digit (either case).
pub open spec fn hex_digit(b: u8) -> Option<u8> {
    if 48 <= b <= 57 {
        Some((b - 48) as u8)
    } else if 97 <= b <= 102 {
        Some((b - 87) as u8)
    } else if 65 <= b <= 70 {
        Some((b - 55) as u8)
    } else {
        None
    }
}

/// A two-byte text read as a base-16 number: two digits, or `+` and a digit.
pub open spec fn radix16_pair(b0: u8, b1: u8) -> Option<u8> {
    if b0 == 43 {
        hex_digit(b1)
    } else {
        match (hex_digit(b0), hex_digit(b1)) {
            (Some(x), Some(y)) => Some((16 * x + y) as u8),
            _ => None,
        }
    }
}

/// Whether the bytes `a..b` of the text form a slice of whole characters (`str::get`).
pub open spec fn has_range(bytes: Seq<u8>, a: int, b: int) -> bool {
    a <= b <= bytes.len() && is_char_boundary(bytes, a) && is_char_boundary(bytes, b)
}

/// The channel written at bytes `a..a+2`, if they are there and parse.
pub open spec fn channel(bytes: Seq<u8>, a: int) -> Option<u8> {
    if has_range(bytes, a, a + 2) {
        radix16_pair(bytes[a], bytes[a + 1])
    } else {
        None
    }
}

/// Why a color code does not parse.
#[derive(Debug, Clone, Copy, PartialEq, Eq, Structural)]
pub enum ColorError {
    Red,
    Green,
    Blue,
    Alpha,
}

/// The color a text gives, or the first channel that fails. The alpha
/// channel is 255 when bytes 6 to 8 are not there.
pub open spec fn parse_color_spec(bytes: Seq<u8>) -> Result<Color, ColorError> {
    match channel(bytes, 0) {
        None => Err(ColorError::Red),
        Some(r) => match channel(bytes, 2) {
            None => Err(ColorError::Green),
            Some(g) => match channel(bytes, 4) {
                None => Err(ColorError::Blue),
                Some(b) => if has_range(bytes, 6, 8) {
                    match radix16_pair(bytes[6], bytes[7]) {
                        Some(a) => Ok(Color { r, g, b, a }),
                        None => Err(ColorError::Alpha),
                    }
                } else {
                    Ok(Color { r, g, b, a: 255 })
                },
            },
        },
    }
}

fn hex_digit_exec(b: u8) -> (r: Option<u8>)
    ensures
        r == hex_digit(b),
{
    if 48 <= b && b <= 57 {
        Some(b - 48)
    } else if 97 <= b && b <= 102 {
        Some(b - 87)
    } else if 65 <= b && b <= 70 {
        Some(b - 55)
    } else {
        None
    }
}

fn radix16_pair_exec(b0: u8, b1: u8) -> (r: Option<u8>)
    ensures
        r == radix16_pair(b0, b1),
{
    if b0 == 43 {
        hex_digit_exec(b1)
    } else {
        match (hex_digit_exec(b0), hex_digit_exec(b1)) {
            (Some(x), Some(y)) => Some(16 * x + y),
            _ => None,
        }
    }
}

fn has_range_exec(s: &str, a: usize, b: usize) -> (r: bool)
    requires
        a <= b,
    ensures
        r == has_range(s.spec_bytes(), a as int, b as int),
{
    b <= s.as_bytes().len() && s.is_char_boundary(a) && s.is_char_boundary(b)
}

fn channel_exec(s: &str, a: usize) -> (r: Option<u8>)
    requires
        a <= 6,
    ensures
        r == channel(s.spec_bytes(), a as int),
{
    if has_range_exec(s, a, a + 2) {
        let bytes = s.as_bytes();
        radix16_pair_exec(bytes[a], bytes[a + 1])
    } else {
        None
    }
}

impl ColorError {
    /// The message that describes the error.
    pub fn message(&self) -> (r: &'static str)
        ensures
            r@ == match self {
                ColorError::Red => "invalid color code, mistyped or missing red channel"@,
                ColorError::Green => "invalid color code, mistyped or missing green channel"@,
                ColorError::Blue => "invalid color code, mistyped or missing blue channel"@,
                ColorError::Alpha => "invalid color code, mistyped alpha channel"@,
            },
    {
        match self {
            ColorError::Red => "invalid color code, mistyped or missing red channel",
            ColorError::Green => "invalid color code, mistyped or missing green channel",
            ColorError::Blue => "invalid color code, mistyped or missing blue channel",
            ColorError::Alpha => "invalid color code, mistyped alpha channel",
        }
    }
}

impl Color {
    /// Opaque black.
    pub fn black() -> (r: Self)
        ensures
            r == (Color { r: 0, g: 0, b: 0, a: 255 }),
    {
        Color { r: 0, g: 0, b: 0, a: 255 }
    }

    /// Parses a color code `rrggbb` or `rrggbbaa`.
    pub fn parse(s: &str) -> (r: Result<Color, ColorError>)
        ensures
            r == parse_color_spec(s.spec_bytes()),
    {
        let r = match channel_exec(s, 0) {
            Some(r) => r,
            None => return Err(ColorError::Red),
        };
        let g = match channel_exec(s, 2) {
            Some(g) => g,
            None => return Err(ColorError::Green),
        };
        let b = match channel_exec(s, 4) {
            Some(b) => b,
            None => return Err(ColorError::Blue),
        };
        if has_range_exec(s, 6, 8) {
            let bytes = s.as_bytes();
            match radix16_pair_exec(bytes[6], bytes[7]) {
                Some(a) => Ok(Color { r, g, b, a }),
                None => Err(ColorError::Alpha),
            }
        } else {
            Ok(Color { r, g, b, a: 255 })
        }
    }
}

/// The colors, scrollbar switch and scrollbar radius of the interface.
pub struct Theme {
    pub background: Color,
    pub input_placeholder: Color,
    pub input_selection: Color,
    pub input_background: Color,
    pub text: Color,
    pub matched_text: Color,
    pub selected_matched_text: Color,
    pub comment: Color,
    pub choice_background: Color,
    pub selected_choice_background: Color,
    pub hovered_choice_background: Color,
    pub pressed_choice_background: Color,
    pub scrollbar_enabled: bool,
    pub scrollbar: Color,
    pub hovered_scrollbar: Color,
    /// The text of the radius; the frontend reads it as a number.
    pub scrollbar_border_radius: String,
    /// Fields that did not parse, in the order they came.
    pub problems: Vec<ConfigWarning>,
}

/// The names of the color fields, in the order of `colors_of`.
pub open spec fn color_field_names() -> Seq<Seq<char>> {
    seq![
        "background"@,
        "input_placeholder"@,
        "input_selection"@,
        "input_background"@,
        "text"@,
        "matched_text"@,
        "selected_matched_text"@,
        "comment"@,
        "choice_background"@,
        "selected_choice_background"@,
        "hovered_choice_background"@,
        "pressed_choice_background"@,
        "scrollbar"@,
        "hovered_scrollbar"@,
    ]
}

/// The color fields of a theme, in the order of `color_field_names`.
pub open spec fn colors_of(t: Theme) -> Seq<Color> {
    seq![
        t.background,
        t.input_placeholder,
        t.input_selection,
        t.input_background,
        t.text,
        t.matched_text,
        t.selected_matched_text,
        t.comment,
        t.choice_background,
        t.selected_choice_background,
        t.hovered_choice_background,
        t.pressed_choice_background,
        t.scrollbar,
        t.hovered_scrollbar,
    ]
}

/// Index of the first name equal to `key`, or `-1`.
pub open spec fn index_of(names: Seq<Seq<char>>, key: Seq<char>) -> int
    decreases names.len(),
{
    if names.len() == 0 {
        -1
    } else if names[0] == key {
        0
    } else {
        let r = index_of(names.drop_first(), key);
        if r < 0 {
            -1
        } else {
            r + 1
        }
    }
}

/// What setting a field does to a theme: a color field parses its value, the
/// switch parses a boolean, the radius keeps its text; other names change nothing.
pub open spec fn theme_field_effect(
    old: Theme,
    new: Theme,
    key: Seq<char>,
    value: Seq<char>,
    value_bytes: Seq<u8>,
    r: Result<(), ConfigWarning>,
) -> bool {
    let i = index_of(color_field_names(), key);
    if i >= 0 {
        (match parse_color_spec(value_bytes) {
            Ok(c) => colors_of(new) == colors_of(old).update(i, c) && r is Ok,
            Err(_) => colors_of(new) == colors_of(old) && r is Err,
        }) && new.scrollbar_enabled == old.scrollbar_enabled
            && new.scrollbar_border_radius@ == old.scrollbar_border_radius@
    } else if key == "scrollbar_enabled"@ {
        colors_of(new) == colors_of(old) && new.scrollbar_border_radius@ == old.scrollbar_border_radius@
            && (match parse_bool_spec(value) {
            Some(b) => new.scrollbar_enabled == b && r is Ok,
            None => new.scrollbar_enabled == old.scrollbar_enabled && r is Err,
        })
    } else if key == "scrollbar_border_radius"@ {
        colors_of(new) == colors_of(old) && new.scrollbar_enabled == old.scrollbar_enabled
            && new.scrollbar_border_radius@ == value && r is Ok
    } else {
        colors_of(new) == colors_of(old) && new.scrollbar_enabled == old.scrollbar_enabled
            && new.scrollbar_border_radius@ == old.scrollbar_border_radius@ && r is Ok
    }
}

fn color_index(key: &str) -> (r: Option<usize>)
    ensures
        match r {
            Some(i) => i < 14 && index_of(color_field_names(), key@) == i,
            None => index_of(color_field_names(), key@) < 0,
        },
{
    let names: [&str; 14] = [
        "background",
        "input_placeholder",
        "input_selection",
        "input_background",
        "text",
        "matched_text",
        "selected_matched_text",
        "comment",
        "choice_background",
        "selected_choice_background",
        "hovered_choice_background",
        "pressed_choice_background",
        "scrollbar",
        "hovered_scrollbar",
    ];
    let ghost spec_names = color_field_names();
    assert(forall|j: int| 0 <= j < 14 ==> #[trigger] names@[j]@ == spec_names[j]);
    assert(spec_names.skip(0) =~= spec_names);
    let mut i: usize = 0;
    while i < 14
        invariant
            0 <= i <= 14,
            spec_names == color_field_names(),
            forall|j: int| 0 <= j < 14 ==> #[trigger] names@[j]@ == spec_names[j],
            index_of(spec_names, key@) == if index_of(spec_names.skip(i as int), key@) < 0 {
                -1
            } else {
                index_of(spec_names.skip(i as int), key@) + i
            },
        decreases 14 - i,
    {
        assert(spec_names.skip(i as int)[0] == spec_names[i as int]);
        assert(spec_names.skip(i as int).drop_first() =~= spec_names.skip(i + 1));
        if str_eq(names[i], key) {
            return Some(i);
        }
        i += 1;
    }
    assert(spec_names.skip(14) =~= Seq::<Seq<char>>::empty());
    None
}

impl Theme {
    /// Every color opaque black, the scrollbar off, no radius text.
    pub fn default() -> (r: Self)
        ensures
            forall|i: int| 0 <= i < 14 ==> colors_of(r)[i] == Color::black_spec(),
            r.scrollbar_enabled == false,
            r.scrollbar_border_radius@ == Seq::<char>::empty(),
            r.problems@ == Seq::<ConfigWarning>::empty(),
    {
        Theme {
            background: Color::black(),
            input_placeholder: Color::black(),
            input_selection: Color::black(),
            input_background: Color::black(),
            text: Color::black(),
            matched_text: Color::black(),
            selected_matched_text: Color::black(),
            comment: Color::black(),
            choice_background: Color::black(),
            selected_choice_background: Color::black(),
            hovered_choice_background: Color::black(),
            pressed_choice_background: Color::black(),
            scrollbar_enabled: false,
            scrollbar: Color::black(),
            hovered_scrollbar: Color::black(),
            scrollbar_border_radius: String::new(),
            problems: Vec::new(),
        }
    }

    fn set_color(&mut self, i: usize, c: Color)
        requires
            i < 14,
        ensures
            colors_of(*final(self)) == colors_of(*old(self)).update(i as int, c),
            final(self).scrollbar_enabled == old(self).scrollbar_enabled,
            final(self).scrollbar_border_radius == old(self).scrollbar_border_radius,
            final(self).problems == old(self).problems,
    {
        match i {
            0 => self.background = c,
            1 => self.input_placeholder = c,
            2 => self.input_selection = c,
            3 => self.input_background = c,
            4 => self.text = c,
            5 => self.matched_text = c,
            6 => self.selected_matched_text = c,
            7 => self.comment = c,
            8 => self.choice_background = c,
            9 => self.selected_choice_background = c,
            10 => self.hovered_choice_background = c,
            11 => self.pressed_choice_background = c,
            12 => self.scrollbar = c,
            _ => self.hovered_scrollbar = c,
        }
        assert(colors_of(*self) =~= colors_of(*old(self)).update(i as int, c));
    }

    /// Sets the field `key` from its text `value`; an invalid value leaves
    /// the theme as it was and is returned as a warning.
    pub fn set_field(&mut self, key: &str, value: &str) -> (r: Result<(), ConfigWarning>)
        ensures
            theme_field_effect(*old(self), *final(self), key@, value@, value.spec_bytes(), r),
            final(self).problems == old(self).problems,
    {
        match color_index(key) {
            Some(i) => match Color::parse(value) {
                Ok(c) => {
                    self.set_color(i, c);
                    Ok(())
                },
                Err(e) => Err(
                    ConfigWarning::InvalidField {
                        field: key.to_owned(),
                        message: e.message().to_owned(),
                        value: value.to_owned(),
                    },
                ),
            },
            None => {
                if str_eq(key, "scrollbar_enabled") {
                    match parse_bool(value) {
                        Some(b) => {
                            self.scrollbar_enabled = b;
                            Ok(())
                        },
                        None => Err(
                            ConfigWarning::InvalidField {
                                field: key.to_owned(),
                                message: "invalid boolean".to_owned(),
                                value: value.to_owned(),
                            },
                        ),
                    }
                } else if str_eq(key, "scrollbar_border_radius") {
                    self.scrollbar_border_radius = value.to_owned();
                    Ok(())
                } else {
                    Ok(())
                }
            },
        }
    }
}

impl Color {
    /// Opaque black.
    pub open spec fn black_spec() -> Color {
        Color { r: 0, g: 0, b: 0, a: 255 }
    }
}

impl FrontendConfig for Theme {
    open spec fn section_names(&self) -> Seq<Seq<char>> {
        seq!["colors"@]
    }


    fn sections(&self) -> (r: Vec<String>) {
        let r = vec!["colors".to_owned()];
        assert(crate::config::strings_view(r@) =~= seq!["colors"@]);
        r
    }

    /// The field is set (see `set_field`); a value that does not parse
    /// leaves the theme as it was and adds a warning to `problems`.
    open spec fn field_added(self, new: Self, field: (Seq<char>, Seq<char>)) -> bool {
        ||| (theme_field_effect(self, new, field.0, field.1, crate::utf8_text::bytes_of(field.1), Ok(()))
            && new.problems@ == self.problems@)
        ||| exists|w: ConfigWarning|
            theme_field_effect(self, new, field.0, field.1, crate::utf8_text::bytes_of(field.1), Err(w))
                && new.problems@ == self.problems@.push(w)
    }

    /// Sets the field (see `set_field`); a value that does not parse is
    /// added to `problems`.
    fn add_field(&mut self, field: (String, String))
    {
        let (key, value) = field;
        match self.set_field(key.as_str(), value.as_str()) {
            Ok(()) => {},
            Err(w) => {
                let ghost mid = *self;
                self.problems.push(w);
                assert(theme_field_effect(*old(self), mid, key@, value@, crate::utf8_text::bytes_of(value@), Err(w)));
                assert(colors_of(*self) == colors_of(mid));
            },
        }
    }
}

/// Bytes below 0x80 are valid UTF-8, and every position among them is a
/// character boundary.
pub proof fn lemma_ascii_boundaries(b: Seq<u8>)
    requires
        forall|i: int| 0 <= i < b.len() ==> #[trigger] b[i] < 0x80,
    ensures
        vstd::utf8::valid_utf8(b),
        forall|i: int| 0 <= i <= b.len() ==> is_char_boundary(b, i),
    decreases b.len(),
{
    if b.len() > 0 {
        let x = b[0];
        assert(x < 0x80);
        assert((x & 0x7f) as u32 <= 0x7f) by (bit_vector);
        let rest = b.subrange(1, b.len() as int);
        assert(vstd::utf8::pop_first_scalar(b) =~= rest);
        lemma_ascii_boundaries(rest);
        assert forall|i: int| 0 <= i <= b.len() implies is_char_boundary(b, i) by {
            if i > 0 {
                assert(is_char_boundary(rest, i - 1));
            }
        }
    }
}

/// The hexadecimal digit of a value below 16, in upper or lower case.
pub open spec fn digit_byte(d: u8, upper: bool) -> u8 {
    if d < 10 {
        (48 + d) as u8
    } else if upper {
        (55 + d) as u8
    } else {
        (87 + d) as u8
    }
}

/// The two hexadecimal digits of a byte, high digit first.
pub open spec fn byte_digits(v: u8, upper: bool) -> Seq<u8> {
    seq![digit_byte(v / 16, upper), digit_byte(v % 16, upper)]
}

/// A color written `rrggbbaa` in hexadecimal, in upper or lower case.
pub open spec fn color_code(c: Color, upper: bool) -> Seq<u8> {
    byte_digits(c.r, upper) + byte_digits(c.g, upper) + byte_digits(c.b, upper) + byte_digits(c.a, upper)
}

proof fn lemma_byte_digits(v: u8, upper: bool)
    ensures
        byte_digits(v, upper)[0] < 0x80,
        byte_digits(v, upper)[1] < 0x80,
        radix16_pair(byte_digits(v, upper)[0], byte_digits(v, upper)[1]) == Some(v),
{
    let hi = v / 16;
    let lo = v % 16;
    assert(hi < 16 && lo < 16);
    assert(hex_digit(digit_byte(hi, upper)) == Some(hi));
    assert(hex_digit(digit_byte(lo, upper)) == Some(lo));
    assert(16 * hi + lo == v);
}

/// Every color reads back from its code, in upper or lower case: `rrggbbaa`
/// gives the color, and `rrggbb` gives it opaque.
pub proof fn lemma_color_code_parses(c: Color, upper: bool)
    ensures
        parse_color_spec(color_code(c, upper)) == Ok::<Color, ColorError>(c),
        parse_color_spec(color_code(c, upper).take(6)) == Ok::<Color, ColorError>(
            Color { r: c.r, g: c.g, b: c.b, a: 255 },
        ),
{
    let s = color_code(c, upper);
    let s6 = s.take(6);
    lemma_byte_digits(c.r, upper);
    lemma_byte_digits(c.g, upper);
    lemma_byte_digits(c.b, upper);
    lemma_byte_digits(c.a, upper);
    assert(s.len() == 8);
    assert(s[0] == byte_digits(c.r, upper)[0] && s[1] == byte_digits(c.r, upper)[1]);
    assert(s[2] == byte_digits(c.g, upper)[0] && s[3] == byte_digits(c.g, upper)[1]);
    assert(s[4] == byte_digits(c.b, upper)[0] && s[5] == byte_digits(c.b, upper)[1]);
    assert(s[6] == byte_digits(c.a, upper)[0] && s[7] == byte_digits(c.a, upper)[1]);
    lemma_ascii_boundaries(s);
    lemma_ascii_boundaries(s6);
    assert(channel(s, 0) == Some(c.r));
    assert(channel(s, 2) == Some(c.g));
    assert(channel(s, 4) == Some(c.b));
    assert(has_range(s, 6, 8));
    assert(channel(s6, 0) == Some(c.r));
    assert(channel(s6, 2) == Some(c.g));
    assert(channel(s6, 4) == Some(c.b));
    assert(!has_range(s6, 6, 8));
}

/// The byte with an ASCII capital letter made small.
pub open spec fn ascii_lower(b: u8) -> u8 {
    if 65 <= b <= 90 {
        (b + 32) as u8
    } else {
        b
    }
}

/// Reading a channel does not depend on the case of its letters: any two
/// bytes read as they do once lower-cased.
pub proof fn lemma_channel_ignores_case(b0: u8, b1: u8)
    ensures
        radix16_pair(ascii_lower(b0), ascii_lower(b1)) == radix16_pair(b0, b1),
{
}

} // verus!
