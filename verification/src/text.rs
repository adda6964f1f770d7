//! Character-level text utilities: line splitting, trimming, searching.
//!
//! Strings are modelled by their view, a `Seq<char>`. Algorithms run on a
//! `Vec<char>` taken from the string once, and build strings back from
//! ranges of it.

use vstd::prelude::*;

verus! {

/// Whether `c` has the Unicode `White_Space` property, which
/// `char::is_whitespace` tests: tab to carriage return, space, next line,
/// no-break space, ogham space mark, en quad to hair space, line and
/// paragraph separators, narrow no-break space, medium mathematical space
/// and ideographic space.
pub open spec fn char_is_whitespace(c: char) -> bool {
    let n = c as u32;
    ||| 0x09 <= n <= 0x0D
    ||| n == 0x20
    ||| n == 0x85
    ||| n == 0xA0
    ||| n == 0x1680
    ||| 0x2000 <= n <= 0x200A
    ||| n == 0x2028
    ||| n == 0x2029
    ||| n == 0x202F
    ||| n == 0x205F
    ||| n == 0x3000
}

/// Whether `char::is_alphanumeric` holds of `c` (Unicode `Alphabetic` or `Numeric`).
pub uninterp spec fn char_is_alphanumeric(c: char) -> bool;

/// Whether `c` is in the Unicode general category `Cc`, which
/// `char::is_control` tests: U+0000 to U+001F and U+007F to U+009F.
pub open spec fn char_is_control(c: char) -> bool {
    let n = c as u32;
    n <= 0x1F || (0x7F <= n && n <= 0x9F)
}

/// Whether `c` is white space (see `char_is_whitespace`).
pub fn is_whitespace(c: char) -> (r: bool)
    ensures
        r == char_is_whitespace(c),
{
    let n = c as u32;
    (0x09 <= n && n <= 0x0D) || n == 0x20 || n == 0x85 || n == 0xA0 || n == 0x1680 || (0x2000 <= n
        && n <= 0x200A) || n == 0x2028 || n == 0x2029 || n == 0x202F || n == 0x205F || n == 0x3000
}

/// Whether `c` is an ASCII letter or digit.
pub open spec fn ascii_alphanumeric(c: char) -> bool {
    ('a' <= c && c <= 'z') || ('A' <= c && c <= 'Z') || ('0' <= c && c <= '9')
}

/// Calls `char::is_alphanumeric`: the Unicode `Alphabetic` property or a
/// numeric general category. Outside ASCII the result is named, not stated:
/// it is given by tables of the Unicode database. Within ASCII those are
/// exactly the letters and the digits.
#[verifier::external_body]
pub(crate) fn is_alphanumeric(c: char) -> (r: bool)
    ensures
        r == char_is_alphanumeric(c),
        (c as u32) < 0x80 ==> (r == ascii_alphanumeric(c)),
{
    c.is_alphanumeric()
}

/// Whether `c` is a control character (see `char_is_control`).
pub fn is_control(c: char) -> (r: bool)
    ensures
        r == char_is_control(c),
{
    let n = c as u32;
    n <= 0x1F || (0x7F <= n && n <= 0x9F)
}

/// Collects the characters of `s` (`str::chars`, then `collect`): the
/// vector holds the characters of `s` in order.
#[verifier::external_body]
pub(crate) fn chars_of(s: &str) -> (v: Vec<char>)
    ensures
        v@ == s@,
{
    s.chars().collect()
}

/// Builds a string from characters (`FromIterator<&char>` for `String`):
/// the string holds exactly these characters in order.
#[verifier::external_body]
pub(crate) fn string_of(v: &[char]) -> (s: String)
    ensures
        s@ == v@,
{
    v.iter().collect()
}

/// `char::to_string`: the string of one character.
#[verifier::external_body]
pub(crate) fn char_string(c: char) -> (s: String)
    ensures
        s@ == seq![c],
{
    c.to_string()
}

/// The string made of the characters of `v` from `start` to `end`.
pub fn string_of_range(v: &Vec<char>, start: usize, end: usize) -> (s: String)
    requires
        start <= end <= v.len(),
    ensures
        s@ == v@.subrange(start as int, end as int),
{
    string_of(vstd::slice::slice_subrange(v.as_slice(), start, end))
}

/// `s` without its leading whitespace (`str::trim_start`).
pub open spec fn trim_start(s: Seq<char>) -> Seq<char>
    decreases s.len(),
{
    if s.len() > 0 && char_is_whitespace(s[0]) {
        trim_start(s.drop_first())
    } else {
        s
    }
}

/// `s` without its trailing whitespace (`str::trim_end`).
pub open spec fn trim_end(s: Seq<char>) -> Seq<char>
    decreases s.len(),
{
    if s.len() > 0 && char_is_whitespace(s.last()) {
        trim_end(s.drop_last())
    } else {
        s
    }
}

/// `s` without leading and trailing whitespace (`str::trim`).
pub open spec fn trim(s: Seq<char>) -> Seq<char> {
    trim_end(trim_start(s))
}

/// Index of the first occurrence of `c` in `s`, or `-1`.
pub open spec fn find_char(s: Seq<char>, c: char) -> int
    decreases s.len(),
{
    if s.len() == 0 {
        -1
    } else if s[0] == c {
        0
    } else {
        let r = find_char(s.drop_first(), c);
        if r < 0 {
            -1
        } else {
            r + 1
        }
    }
}

/// `str::split_once` on a character: the parts before and after its first occurrence.
pub open spec fn split_once(s: Seq<char>, c: char) -> Option<(Seq<char>, Seq<char>)> {
    let i = find_char(s, c);
    if i < 0 {
        None
    } else {
        Some((s.take(i), s.skip(i + 1)))
    }
}

/// `str::rsplit_once` on a character: the parts before and after its last occurrence.
pub open spec fn rsplit_once(s: Seq<char>, c: char) -> Option<(Seq<char>, Seq<char>)>
    decreases s.len(),
{
    if s.len() == 0 {
        None
    } else if s.last() == c {
        Some((s.drop_last(), Seq::empty()))
    } else {
        match rsplit_once(s.drop_last(), c) {
            Some((a, b)) => Some((a, b.push(s.last()))),
            None => None,
        }
    }
}

/// Index of the first character of `s` that belongs to `set`, or `-1`.
pub open spec fn find_any(s: Seq<char>, set: Seq<char>) -> int
    decreases s.len(),
{
    if s.len() == 0 {
        -1
    } else if set.contains(s[0]) {
        0
    } else {
        let r = find_any(s.drop_first(), set);
        if r < 0 {
            -1
        } else {
            r + 1
        }
    }
}

/// The lines of `s` as `str::lines` gives them: split after each `'\n'`,
/// drop that `'\n'` and a `'\r'` just before it; a final line ending adds no
/// empty line.
pub open spec fn lines(s: Seq<char>) -> Seq<Seq<char>>
    decreases s.len(),
{
    if s.len() == 0 {
        Seq::empty()
    } else {
        let i = find_char(s, '\n');
        if i < 0 {
            seq![s]
        } else {
            proof {
                lemma_find_char(s, '\n');
            }
            seq![strip_cr(s.take(i))] + lines(s.skip(i + 1))
        }
    }
}

/// `s` without one trailing `'\r'`.
pub open spec fn strip_cr(s: Seq<char>) -> Seq<char> {
    if s.len() > 0 && s.last() == '\r' {
        s.drop_last()
    } else {
        s
    }
}

/// The pieces of `s` between occurrences of `c` (`str::split` on a character).
pub open spec fn split_char(s: Seq<char>, c: char) -> Seq<Seq<char>>
    decreases s.len(),
{
    let i = find_char(s, c);
    if i < 0 {
        seq![s]
    } else {
        proof {
            lemma_find_char(s, c);
        }
        seq![s.take(i)] + split_char(s.skip(i + 1), c)
    }
}

/// Splits the characters `v[start..]` at each `c` into strings.
pub fn split_range(v: &Vec<char>, start: usize, c: char) -> (r: Vec<String>)
    requires
        start <= v.len(),
    ensures
        r@.map_values(|x: String| x@) == split_char(v@.subrange(start as int, v@.len() as int), c),
    decreases v.len() - start,
{
    let e = find_char_in(v, start, v.len(), c);
    let first = string_of_range(v, start, e);
    let ghost s = v@.subrange(start as int, v@.len() as int);
    if e == v.len() {
        let r = vec![first];
        assert(r@.map_values(|x: String| x@) =~= seq![s]);
        r
    } else {
        let rest = split_range(v, e + 1, c);
        let mut r = vec![first];
        let ghost rest_view = rest@.map_values(|x: String| x@);
        let mut rest = rest;
        r.append(&mut rest);
        assert(s.take(e - start) =~= v@.subrange(start as int, e as int));
        assert(s.skip(e - start + 1) =~= v@.subrange(e + 1, v@.len() as int));
        assert(r@.map_values(|x: String| x@) =~= seq![s.take(e - start)] + rest_view);
        r
    }
}

/// `str::split` on a character, each piece as a string.
pub fn split(s: &str, c: char) -> (r: Vec<String>)
    ensures
        r@.map_values(|x: String| x@) == split_char(s@, c),
{
    let v = chars_of(s);
    assert(v@.subrange(0, v@.len() as int) =~= v@);
    split_range(&v, 0, c)
}

/// `s` starts with `prefix`.
pub open spec fn starts_with(s: Seq<char>, prefix: Seq<char>) -> bool {
    prefix.len() <= s.len() && s.take(prefix.len() as int) == prefix
}

/// What `find_char` returns: an index of `c` with no earlier `c`, or `-1` when there is no `c`.
pub proof fn lemma_find_char(s: Seq<char>, c: char)
    ensures
        -1 <= find_char(s, c) < s.len(),
        find_char(s, c) >= 0 ==> s[find_char(s, c)] == c,
        forall|j: int| 0 <= j < s.len() && (find_char(s, c) < 0 || j < find_char(s, c)) ==> s[j] != c,
    decreases s.len(),
{
    if s.len() > 0 {
        lemma_find_char(s.drop_first(), c);
        if s[0] != c {
            assert forall|j: int| 1 <= j < s.len() implies #[trigger] s[j] == s.drop_first()[j - 1] by {}
        }
    }
}

/// The characters before and after an index characterise `find_char`.
pub proof fn lemma_find_char_at(s: Seq<char>, c: char, i: int)
    requires
        0 <= i <= s.len(),
        forall|j: int| 0 <= j < i ==> s[j] != c,
        i < s.len() ==> s[i] == c,
    ensures
        find_char(s, c) == if i < s.len() { i } else { -1 },
{
    lemma_find_char(s, c);
}

/// What `find_any` returns: the first index of a character of `set`, or `-1`.
pub proof fn lemma_find_any_at(s: Seq<char>, set: Seq<char>, i: int)
    requires
        0 <= i <= s.len(),
        forall|j: int| 0 <= j < i ==> !set.contains(s[j]),
        i < s.len() ==> set.contains(s[i]),
    ensures
        find_any(s, set) == if i < s.len() { i } else { -1 },
    decreases s.len(),
{
    if s.len() > 0 && i > 0 {
        lemma_find_any_at(s.drop_first(), set, i - 1);
    }
}

/// Searches `v[start..end]` for `c`; returns the absolute index of the first
/// occurrence, or `end` when there is none.
pub fn find_char_in(v: &Vec<char>, start: usize, end: usize, c: char) -> (r: usize)
    requires
        start <= end <= v.len(),
    ensures
        start <= r <= end,
        r < end ==> v@[r as int] == c,
        forall|j: int| start <= j < r ==> v@[j] != c,
        find_char(v@.subrange(start as int, end as int), c) == if r < end {
            (r - start) as int
        } else {
            -1
        },
{
    let mut i: usize = start;
    while i < end && v[i] != c
        invariant
            start <= i <= end <= v.len(),
            forall|j: int| start <= j < i ==> v@[j] != c,
        decreases end - i,
    {
        i += 1;
    }
    proof {
        lemma_find_char_at(v@.subrange(start as int, end as int), c, (i - start) as int);
    }
    i
}

/// The range of `v[start..end]` left once whitespace is trimmed from both ends.
pub fn trim_range(v: &Vec<char>, start: usize, end: usize) -> (r: (usize, usize))
    requires
        start <= end <= v.len(),
    ensures
        start <= r.0 <= r.1 <= end,
        v@.subrange(r.0 as int, r.1 as int) == trim(v@.subrange(start as int, end as int)),
{
    let mut a: usize = start;
    while a < end && is_whitespace(v[a])
        invariant
            start <= a <= end <= v.len(),
            trim_start(v@.subrange(start as int, end as int)) == trim_start(
                v@.subrange(a as int, end as int),
            ),
        decreases end - a,
    {
        assert(v@.subrange(a as int, end as int).drop_first() =~= v@.subrange(
            a + 1,
            end as int,
        ));
        a += 1;
    }
    assert(a < end ==> v@.subrange(a as int, end as int)[0] == v@[a as int]);
    assert(trim_start(v@.subrange(a as int, end as int)) == v@.subrange(a as int, end as int));
    let mut b: usize = end;
    while b > a && is_whitespace(v[b - 1])
        invariant
            start <= a <= b <= end <= v.len(),
            trim_end(v@.subrange(a as int, end as int)) == trim_end(
                v@.subrange(a as int, b as int),
            ),
        decreases b - a,
    {
        assert(v@.subrange(a as int, b as int).drop_last() =~= v@.subrange(
            a as int,
            b - 1,
        ));
        b -= 1;
    }
    assert(a < b ==> v@.subrange(a as int, b as int).last() == v@[b - 1]);
    assert(trim_end(v@.subrange(a as int, b as int)) == v@.subrange(a as int, b as int));
    (a, b)
}

/// Whether `v[start..end]` equals the characters of `s`.
pub fn range_eq(v: &Vec<char>, start: usize, end: usize, s: &Vec<char>) -> (r: bool)
    requires
        start <= end <= v.len(),
    ensures
        r == (v@.subrange(start as int, end as int) == s@),
{
    if end - start != s.len() {
        return false;
    }
    let mut i: usize = 0;
    while i < s.len()
        invariant
            start <= end <= v.len(),
            end - start == s.len(),
            0 <= i <= s.len(),
            forall|j: int| 0 <= j < i ==> v@[start + j] == s@[j],
        decreases s.len() - i,
    {
        if v[start + i] != s[i] {
            assert(v@.subrange(start as int, end as int)[i as int] != s@[i as int]);
            return false;
        }
        i += 1;
    }
    assert(v@.subrange(start as int, end as int) =~= s@);
    true
}

/// `str::split_once` on a character, the parts as strings.
pub fn split_once_str(s: &str, c: char) -> (r: Option<(String, String)>)
    ensures
        match r {
            Some((a, b)) => split_once(s@, c) == Some((a@, b@)),
            None => split_once(s@, c) is None,
        },
{
    let v = chars_of(s);
    let i = find_char_in(&v, 0, v.len(), c);
    assert(v@.subrange(0, v@.len() as int) =~= v@);
    if i == v.len() {
        None
    } else {
        let a = string_of_range(&v, 0, i);
        let b = string_of_range(&v, i + 1, v.len());
        assert(v@.take(i as int) =~= v@.subrange(0, i as int));
        assert(v@.skip(i + 1) =~= v@.subrange(i + 1, v@.len() as int));
        Some((a, b))
    }
}

/// Whether `s` starts with `prefix`.
pub fn starts_with_str(s: &str, prefix: &str) -> (r: bool)
    ensures
        r == starts_with(s@, prefix@),
{
    let v = chars_of(s);
    let p = chars_of(prefix);
    if p.len() > v.len() {
        return false;
    }
    let r = range_eq(&v, 0, p.len(), &p);
    assert(v@.subrange(0, p@.len() as int) =~= v@.take(p@.len() as int));
    r
}

/// Whether two strings hold the same characters.
pub fn str_eq(a: &str, b: &str) -> (r: bool)
    ensures
        r == (a@ == b@),
{
    let va = chars_of(a);
    let vb = chars_of(b);
    assert(va@.subrange(0, va@.len() as int) =~= va@);
    range_eq(&va, 0, va.len(), &vb)
}

} // verus!
