//! Strings addressed by byte offsets, as the text field edits them.
//!
//! A string is seen through its UTF-8 bytes (`encode_utf8` of its
//! characters); positions are byte offsets on character boundaries.

use vstd::prelude::*;
use vstd::string::StringSliceAdditionalSpecFns;
use vstd::utf8::{
    decode_utf8, encode_utf8, encode_utf8_decode_utf8, encode_utf8_valid_utf8, is_char_boundary,
    is_char_boundary_iff_not_is_continuation_byte, is_char_boundary_start_end_of_seq,
    valid_utf8, valid_utf8_concat,
};
use crate::text::{char_is_alphanumeric, is_alphanumeric};

verus! {

/// The UTF-8 bytes of a text.
pub open spec fn bytes_of(s: Seq<char>) -> Seq<u8> {
    encode_utf8(s)
}

/// The encoding of two texts put together is the two encodings put together.
pub proof fn lemma_encode_concat(a: Seq<char>, b: Seq<char>)
    ensures
        encode_utf8(a + b) == encode_utf8(a) + encode_utf8(b),
    decreases a.len(),
{
    if a.len() == 0 {
        assert(a + b =~= b);
        assert(encode_utf8(a) =~= Seq::<u8>::empty());
        assert(encode_utf8(a) + encode_utf8(b) =~= encode_utf8(b));
    } else {
        lemma_encode_concat(a.drop_first(), b);
        assert((a + b).drop_first() =~= a.drop_first() + b);
        assert((a + b)[0] == a[0]);
    }
}

/// The character boundaries of a concatenation of valid encodings are those
/// of the first part, then those of the second part shifted by its start.
pub proof fn lemma_boundary_concat(a: Seq<u8>, b: Seq<u8>, i: int)
    requires
        valid_utf8(a),
        valid_utf8(b),
        0 <= i <= a.len() + b.len(),
    ensures
        valid_utf8(a + b),
        is_char_boundary(a + b, i) == if i <= a.len() {
            is_char_boundary(a, i)
        } else {
            is_char_boundary(b, i - a.len())
        },
{
    valid_utf8_concat(a, b);
    is_char_boundary_start_end_of_seq(a);
    is_char_boundary_start_end_of_seq(b);
    is_char_boundary_start_end_of_seq(a + b);
    let c = a + b;
    if i < a.len() {
        is_char_boundary_iff_not_is_continuation_byte(a, i);
        is_char_boundary_iff_not_is_continuation_byte(c, i);
        assert(c[i] == a[i]);
    } else if i == a.len() {
        if b.len() > 0 {
            is_char_boundary_iff_not_is_continuation_byte(b, 0);
            is_char_boundary_iff_not_is_continuation_byte(c, i);
            assert(c[i] == b[0]);
        } else {
            assert(c =~= a);
        }
    } else if i < c.len() {
        is_char_boundary_iff_not_is_continuation_byte(b, i - a.len());
        is_char_boundary_iff_not_is_continuation_byte(c, i);
        assert(c[i] == b[i - a.len()]);
    }
}

/// A character boundary lies within the bytes.
pub proof fn lemma_boundary_le(b: Seq<u8>, i: int)
    requires
        valid_utf8(b),
        is_char_boundary(b, i),
    ensures
        0 <= i <= b.len(),
{
}

/// The text of valid bytes is the decoding of the bytes.
pub proof fn lemma_chars_of_bytes(s: Seq<char>, b: Seq<u8>)
    requires
        encode_utf8(s) == b,
    ensures
        decode_utf8(b) == s,
        valid_utf8(b),
{
    encode_utf8_decode_utf8(s);
    encode_utf8_valid_utf8(s);
}

/// The bytes of a string slice, as a slice; its length is the byte length.
fn bytes_len(s: &str) -> (r: usize)
    ensures
        r == s.spec_bytes().len(),
{
    s.as_bytes().len()
}

/// The byte length of a string.
pub fn byte_len(s: &String) -> (r: usize)
    ensures
        r == bytes_of(s@).len(),
{
    bytes_len(s.as_str())
}

/// Whether `i` is a character boundary of `s`.
pub fn boundary(s: &String, i: usize) -> (r: bool)
    ensures
        r == is_char_boundary(bytes_of(s@), i as int),
{
    s.as_str().is_char_boundary(i)
}

/// The parts of `s` before and after the byte offset `at`.
pub fn split_at_str(s: &str, at: usize) -> (r: (&str, &str))
    requires
        is_char_boundary(s.spec_bytes(), at as int),
    ensures
        at <= s.spec_bytes().len(),
        r.0.spec_bytes() == s.spec_bytes().subrange(0, at as int),
        r.1.spec_bytes() == s.spec_bytes().subrange(at as int, s.spec_bytes().len() as int),
        r.0@ + r.1@ == s@,
{
    let r = s.split_at(at);
    proof {
        encode_utf8_valid_utf8(s@);
        vstd::utf8::valid_utf8_split(s.spec_bytes(), at as int);
        vstd::utf8::decode_utf8_split(s.spec_bytes(), at as int);
        lemma_chars_of_bytes(r.0@, r.0.spec_bytes());
        lemma_chars_of_bytes(r.1@, r.1.spec_bytes());
        lemma_chars_of_bytes(s@, s.spec_bytes());
        assert(r.0.spec_bytes() =~= s.spec_bytes().subrange(0, at as int));
        assert(r.1.spec_bytes() =~= s.spec_bytes().subrange(at as int, s.spec_bytes().len() as int));
    }
    r
}

/// The string `a + b + c`.
pub fn concat3(a: &str, b: &str, c: &str) -> (r: String)
    ensures
        r@ == a@ + b@ + c@,
        bytes_of(r@) == a.spec_bytes() + b.spec_bytes() + c.spec_bytes(),
{
    let mut r = a.to_owned();
    r.append(b);
    r.append(c);
    proof {
        lemma_encode_concat(a@ + b@, c@);
        lemma_encode_concat(a@, b@);
    }
    r
}

/// `s` with the bytes `start..end` replaced by `t`.
pub fn replace_range(s: &String, start: usize, end: usize, t: &str) -> (r: String)
    requires
        start <= end,
        is_char_boundary(bytes_of(s@), start as int),
        is_char_boundary(bytes_of(s@), end as int),
    ensures
        end <= bytes_of(s@).len(),
        bytes_of(r@) == bytes_of(s@).subrange(0, start as int) + t.spec_bytes() + bytes_of(
            s@,
        ).subrange(end as int, bytes_of(s@).len() as int),
{
    let whole = s.as_str();
    let (head, rest) = split_at_str(whole, start);
    proof {
        let b = bytes_of(s@);
        encode_utf8_valid_utf8(s@);
        encode_utf8_valid_utf8(rest@);
        encode_utf8_valid_utf8(head@);
        lemma_boundary_concat(head.spec_bytes(), rest.spec_bytes(), end as int);
        assert(head.spec_bytes() + rest.spec_bytes() =~= b);
    }
    let (_, tail) = split_at_str(rest, end - start);
    proof {
        assert(tail.spec_bytes() =~= bytes_of(s@).subrange(end as int, bytes_of(s@).len() as int));
    }
    concat3(head, t, tail)
}

/// Replacing a range between boundaries by a valid text leaves boundaries at
/// both ends of the new text, and valid bytes.
pub proof fn lemma_replace_boundaries(b: Seq<u8>, start: int, end: int, t: Seq<u8>)
    requires
        valid_utf8(b),
        valid_utf8(t),
        0 <= start <= end <= b.len(),
        is_char_boundary(b, start),
        is_char_boundary(b, end),
    ensures
        valid_utf8(b.subrange(0, start) + t + b.subrange(end, b.len() as int)),
        is_char_boundary(b.subrange(0, start) + t + b.subrange(end, b.len() as int), start),
        is_char_boundary(
            b.subrange(0, start) + t + b.subrange(end, b.len() as int),
            start + t.len(),
        ),
{
    vstd::utf8::valid_utf8_split(b, start);
    vstd::utf8::valid_utf8_split(b, end);
    let p = b.subrange(0, start);
    let q = b.subrange(end, b.len() as int);
    valid_utf8_concat(p, t);
    is_char_boundary_start_end_of_seq(p);
    is_char_boundary_start_end_of_seq(p + t);
    lemma_boundary_concat(p, t, start);
    lemma_boundary_concat(p + t, q, start);
    lemma_boundary_concat(p + t, q, start + t.len());
}

/// The bytes `start..end` of `s`, as a string.
pub fn substring(s: &String, start: usize, end: usize) -> (r: String)
    requires
        start <= end,
        is_char_boundary(bytes_of(s@), start as int),
        is_char_boundary(bytes_of(s@), end as int),
    ensures
        end <= bytes_of(s@).len(),
        bytes_of(r@) == bytes_of(s@).subrange(start as int, end as int),
{
    let whole = s.as_str();
    let (head, _) = split_at_str(whole, end);
    proof {
        encode_utf8_valid_utf8(s@);
        encode_utf8_valid_utf8(head@);
        vstd::utf8::valid_utf8_split(bytes_of(s@), end as int);
        assert(head.spec_bytes() =~= bytes_of(s@).subrange(0, end as int));
        let b = bytes_of(s@);
        lemma_boundary_concat(b.subrange(0, end as int), b.subrange(end as int, b.len() as int), start as int);
        assert(b.subrange(0, end as int) + b.subrange(end as int, b.len() as int) =~= b);
    }
    let (_, mid) = split_at_str(head, start);
    let r = mid.to_owned();
    proof {
        assert(mid.spec_bytes() =~= bytes_of(s@).subrange(start as int, end as int));
    }
    r
}

/// The character that starts at byte `i` of the bytes `b`.
pub open spec fn char_at(b: Seq<u8>, i: int) -> char {
    decode_utf8(b.subrange(i, b.len() as int))[0]
}

/// The character that starts at byte `i` of `s`.
pub fn char_at_exec(s: &String, i: usize) -> (c: char)
    requires
        i < bytes_of(s@).len(),
        is_char_boundary(bytes_of(s@), i as int),
    ensures
        c == char_at(bytes_of(s@), i as int),
{
    let (_, rest) = split_at_str(s.as_str(), i);
    proof {
        lemma_chars_of_bytes(rest@, rest.spec_bytes());
        assert(rest@.len() > 0) by {
            if rest@.len() == 0 {
                assert(rest.spec_bytes() =~= Seq::<u8>::empty());
            }
        }
    }
    let v = crate::text::chars_of(rest);
    v[0]
}

/// Whether the character at byte `i` is alphanumeric.
pub open spec fn alnum_at(b: Seq<u8>, i: int) -> bool {
    char_is_alphanumeric(char_at(b, i))
}

/// The character boundary before `i` (0 stays 0): the offset `floor_char_boundary` returns.
pub open spec fn floor_cb(b: Seq<u8>, i: int) -> int
    decreases i,
{
    if i <= 0 {
        0
    } else if i - 1 == 0 || is_char_boundary(b, i - 1) {
        i - 1
    } else {
        floor_cb(b, i - 1)
    }
}

/// The character boundary after `i`, at most the length: the offset `ceil_char_boundary` returns.
pub open spec fn ceil_cb(b: Seq<u8>, i: int) -> int
    decreases b.len() - i,
{
    if i >= b.len() {
        b.len() as int
    } else if i + 1 >= b.len() || is_char_boundary(b, i + 1) {
        i + 1
    } else {
        ceil_cb(b, i + 1)
    }
}

/// `floor_cb` moves left to a boundary; nothing between is a boundary.
pub proof fn lemma_floor_cb(b: Seq<u8>, i: int)
    requires
        valid_utf8(b),
        0 <= i,
    ensures
        i == 0 ==> floor_cb(b, i) == 0,
        i > 0 ==> 0 <= floor_cb(b, i) < i,
        is_char_boundary(b, floor_cb(b, i)),
        forall|j: int| floor_cb(b, i) < j < i ==> !is_char_boundary(b, j),
    decreases i,
{
    is_char_boundary_start_end_of_seq(b);
    if i > 1 && !is_char_boundary(b, i - 1) {
        lemma_floor_cb(b, i - 1);
    }
}

/// `ceil_cb` moves right to a boundary, at most the length; nothing between is a boundary.
pub proof fn lemma_ceil_cb(b: Seq<u8>, i: int)
    requires
        valid_utf8(b),
        0 <= i,
    ensures
        i >= b.len() ==> ceil_cb(b, i) == b.len(),
        i < b.len() ==> i < ceil_cb(b, i) <= b.len(),
        is_char_boundary(b, ceil_cb(b, i)),
        forall|j: int| i < j < ceil_cb(b, i) ==> !is_char_boundary(b, j),
    decreases b.len() - i,
{
    is_char_boundary_start_end_of_seq(b);
    if i < b.len() && !(i + 1 >= b.len() || is_char_boundary(b, i + 1)) {
        lemma_ceil_cb(b, i + 1);
    }
}

/// Returns the index of the character to the left of `index`; saturates at 0.
pub fn floor_char_boundary(s: &String, index: usize) -> (r: usize)
    ensures
        r == floor_cb(bytes_of(s@), index as int),
        index > 0 ==> r < index,
        is_char_boundary(bytes_of(s@), r as int),
        forall|j: int| r < j < index ==> !is_char_boundary(bytes_of(s@), j),
{
    proof {
        encode_utf8_valid_utf8(s@);
        lemma_floor_cb(bytes_of(s@), index as int);
    }
    if index == 0 {
        return 0;
    }
    let mut i = index - 1;
    while i > 0 && !boundary(s, i)
        invariant
            i < index,
            floor_cb(bytes_of(s@), index as int) == floor_cb(bytes_of(s@), i + 1),
        decreases i,
    {
        i -= 1;
    }
    i
}

/// Returns the index of the character to the right of `index`; saturates at
/// the length of `s`.
pub fn ceil_char_boundary(s: &String, index: usize) -> (r: usize)
    ensures
        r == ceil_cb(bytes_of(s@), index as int),
        r <= bytes_of(s@).len(),
        index < bytes_of(s@).len() ==> index < r,
        is_char_boundary(bytes_of(s@), r as int),
        forall|j: int| index < j < r ==> !is_char_boundary(bytes_of(s@), j),
{
    proof {
        encode_utf8_valid_utf8(s@);
        lemma_ceil_cb(bytes_of(s@), index as int);
    }
    let len = byte_len(s);
    if index >= len {
        return len;
    }
    let mut i = index + 1;
    while i < len && !boundary(s, i)
        invariant
            index < i <= len,
            len == bytes_of(s@).len(),
            ceil_cb(bytes_of(s@), index as int) == ceil_cb(bytes_of(s@), i - 1),
        decreases len - i,
    {
        i += 1;
    }
    i
}

/// Moving left from `i` past the characters that are not alphanumeric: the
/// end of the nearest word before `i`, or 0 when there is none.
pub open spec fn skip_left(b: Seq<u8>, i: int) -> int
    decreases i,
{
    if i <= 0 {
        0
    } else if alnum_at(b, floor_cb(b, i)) {
        i
    } else if valid_utf8(b) {
        proof {
            lemma_floor_cb(b, i);
        }
        skip_left(b, floor_cb(b, i))
    } else {
        0
    }
}

/// The start of the run of alphanumeric characters that ends at `i`.
pub open spec fn word_start(b: Seq<u8>, i: int) -> int
    decreases i,
{
    if i <= 0 {
        0
    } else if !alnum_at(b, floor_cb(b, i)) {
        i
    } else if valid_utf8(b) {
        proof {
            lemma_floor_cb(b, i);
        }
        word_start(b, floor_cb(b, i))
    } else {
        0
    }
}

/// The start of the word left of `i`, past the characters before `i` that
/// are not alphanumeric; 0 when no word lies left of `i`.
pub open spec fn floor_word(b: Seq<u8>, i: int) -> int {
    word_start(b, skip_left(b, i))
}

/// Moving right from `i` past the characters that are not alphanumeric: the
/// start of the nearest word at or after `i`, or the end of the text.
pub open spec fn skip_right(b: Seq<u8>, i: int) -> int
    decreases b.len() - i,
{
    if i >= b.len() {
        b.len() as int
    } else if alnum_at(b, i) {
        i
    } else if valid_utf8(b) && i >= 0 {
        proof {
            lemma_ceil_cb(b, i);
        }
        skip_right(b, ceil_cb(b, i))
    } else {
        b.len() as int
    }
}

/// The end of the run of alphanumeric characters that starts at `i`.
pub open spec fn word_end(b: Seq<u8>, i: int) -> int
    decreases b.len() - i,
{
    if i >= b.len() {
        b.len() as int
    } else if !alnum_at(b, i) {
        i
    } else if valid_utf8(b) && i >= 0 {
        proof {
            lemma_ceil_cb(b, i);
        }
        word_end(b, ceil_cb(b, i))
    } else {
        b.len() as int
    }
}

/// The end of the word at or right of `i`, past the characters from `i` on
/// that are not alphanumeric; the end of the text when no word follows.
pub open spec fn ceil_word(b: Seq<u8>, i: int) -> int {
    word_end(b, skip_right(b, i))
}

/// Returns the start of the word left of `index`, skipping any
/// non-alphanumeric characters first.
pub fn floor_word_boundary(s: &String, index: usize) -> (r: usize)
    requires
        index <= bytes_of(s@).len(),
    ensures
        r == floor_word(bytes_of(s@), index as int),
        is_char_boundary(bytes_of(s@), r as int),
        r <= index,
        index > 0 ==> r < index,
{
    let ghost b = bytes_of(s@);
    proof {
        encode_utf8_valid_utf8(s@);
        is_char_boundary_start_end_of_seq(b);
    }
    let mut i = index;
    loop
        invariant
            valid_utf8(b),
            b == bytes_of(s@),
            i <= index <= b.len(),
            skip_left(b, index as int) == skip_left(b, i as int),
        ensures
            i <= index,
            skip_left(b, index as int) == i,
            i > 0 ==> alnum_at(b, floor_cb(b, i as int)),
        decreases i,
    {
        if i == 0 {
            break;
        }
        let n = floor_char_boundary(s, i);
        proof {
            lemma_floor_cb(b, i as int);
        }
        if is_alphanumeric(char_at_exec(s, n)) {
            break;
        }
        i = n;
    }
    if i == 0 {
        return 0;
    }
    let mut w = floor_char_boundary(s, i);
    proof {
        lemma_floor_cb(b, i as int);
    }
    loop
        invariant
            valid_utf8(b),
            b == bytes_of(s@),
            w < i <= index <= b.len(),
            is_char_boundary(b, w as int),
            floor_word(b, index as int) == word_start(b, w as int),
        decreases w,
    {
        if w == 0 {
            return 0;
        }
        let n = floor_char_boundary(s, w);
        proof {
            lemma_floor_cb(b, w as int);
        }
        if !is_alphanumeric(char_at_exec(s, n)) {
            return w;
        }
        w = n;
    }
}

/// Returns the end of the word at or right of `index`, skipping any
/// non-alphanumeric characters first.
pub fn ceil_word_boundary(s: &String, index: usize) -> (r: usize)
    requires
        is_char_boundary(bytes_of(s@), index as int),
    ensures
        r == ceil_word(bytes_of(s@), index as int),
        is_char_boundary(bytes_of(s@), r as int),
        r <= bytes_of(s@).len(),
        index < bytes_of(s@).len() ==> index < r,
{
    let ghost b = bytes_of(s@);
    proof {
        encode_utf8_valid_utf8(s@);
        is_char_boundary_start_end_of_seq(b);
        lemma_boundary_le(b, index as int);
    }
    let len = byte_len(s);
    let mut i = index;
    loop
        invariant
            valid_utf8(b),
            b == bytes_of(s@),
            len == b.len(),
            index <= i <= len,
            is_char_boundary(b, i as int),
            skip_right(b, index as int) == skip_right(b, i as int),
        ensures
            index <= i <= len,
            is_char_boundary(b, i as int),
            skip_right(b, index as int) == i,
            i < len ==> alnum_at(b, i as int),
        decreases len - i,
    {
        if i >= len {
            break;
        }
        if is_alphanumeric(char_at_exec(s, i)) {
            break;
        }
        proof {
            lemma_ceil_cb(b, i as int);
        }
        i = ceil_char_boundary(s, i);
    }
    if i >= len {
        return len;
    }
    proof {
        lemma_ceil_cb(b, i as int);
    }
    let mut w = ceil_char_boundary(s, i);
    loop
        invariant
            valid_utf8(b),
            b == bytes_of(s@),
            len == b.len(),
            index <= i < w <= len,
            is_char_boundary(b, w as int),
            ceil_word(b, index as int) == word_end(b, w as int),
        decreases len - w,
    {
        if w >= len {
            return len;
        }
        if !is_alphanumeric(char_at_exec(s, w)) {
            return w;
        }
        proof {
            lemma_ceil_cb(b, w as int);
        }
        w = ceil_char_boundary(s, w);
    }
}

} // verus!
