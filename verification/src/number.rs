//! Decimal numbers in text: reading an index (`usize::from_str`),
//! writing one (`usize::to_string`), and recognising the text of a
//! floating-point number (the syntax `f32::from_str` accepts).

use vstd::prelude::*;
use crate::text::chars_of;

verus! {

/// Whether `c` is an ASCII decimal digit.
pub open spec fn is_digit(c: char) -> bool {
    '0' <= c <= '9'
}

/// The value of a decimal digit.
pub open spec fn digit_value(c: char) -> int {
    (c as int) - ('0' as int)
}

/// Whether every character of `s` is a decimal digit.
pub open spec fn all_digits(s: Seq<char>) -> bool {
    forall|i: int| 0 <= i < s.len() ==> is_digit(#[trigger] s[i])
}

/// The value of a run of decimal digits (0 for none).
pub open spec fn dec_value(s: Seq<char>) -> int
    decreases s.len(),
{
    if s.len() == 0 {
        0
    } else {
        dec_value(s.drop_last()) * 10 + digit_value(s.last())
    }
}

/// The number `usize::from_str` reads: an optional `+` before at least one
/// digit, then digits only, and a value that fits in `usize`.
pub open spec fn parse_usize_spec(s: Seq<char>) -> Option<usize> {
    let d = if s.len() > 1 && s[0] == '+' {
        s.drop_first()
    } else {
        s
    };
    if d.len() > 0 && all_digits(d) && dec_value(d) <= usize::MAX {
        Some(dec_value(d) as usize)
    } else {
        None
    }
}

/// The decimal digits of `n`, without leading zeros (`"0"` for zero).
pub open spec fn dec_string(n: nat) -> Seq<char>
    decreases n,
{
    if n < 10 {
        seq![digit_char(n)]
    } else {
        dec_string(n / 10).push(digit_char(n % 10))
    }
}

/// The digit character of a value below ten.
pub open spec fn digit_char(d: nat) -> char {
    if d == 0 {
        '0'
    } else if d == 1 {
        '1'
    } else if d == 2 {
        '2'
    } else if d == 3 {
        '3'
    } else if d == 4 {
        '4'
    } else if d == 5 {
        '5'
    } else if d == 6 {
        '6'
    } else if d == 7 {
        '7'
    } else if d == 8 {
        '8'
    } else {
        '9'
    }
}

proof fn lemma_dec_value_nonneg(s: Seq<char>)
    requires
        all_digits(s),
    ensures
        dec_value(s) >= 0,
    decreases s.len(),
{
    if s.len() > 0 {
        assert(all_digits(s.drop_last())) by {
            assert forall|i: int| 0 <= i < s.drop_last().len() implies is_digit(
                #[trigger] s.drop_last()[i],
            ) by {
                assert(s.drop_last()[i] == s[i]);
            }
        }
        lemma_dec_value_nonneg(s.drop_last());
        assert(is_digit(s[s.len() - 1]));
    }
}

proof fn lemma_dec_value_prefix(s: Seq<char>, k: int)
    requires
        all_digits(s),
        0 <= k <= s.len(),
    ensures
        dec_value(s.take(k)) <= dec_value(s),
    decreases s.len() - k,
{
    if k < s.len() {
        lemma_dec_value_prefix(s, k + 1);
        assert(s.take(k + 1).drop_last() =~= s.take(k));
        assert(all_digits(s.take(k))) by {
            assert forall|i: int| 0 <= i < s.take(k).len() implies is_digit(#[trigger] s.take(k)[i]) by {
                assert(s.take(k)[i] == s[i]);
            }
        }
        lemma_dec_value_nonneg(s.take(k));
        assert(is_digit(s[k]));
        assert(s.take(k + 1).last() == s[k]);
    } else {
        assert(s.take(k) =~= s);
    }
}

/// Reads a decimal index as `usize::from_str` does.
pub fn parse_usize(s: &str) -> (r: Option<usize>)
    ensures
        r == parse_usize_spec(s@),
{
    let v = chars_of(s);
    let start: usize = if v.len() > 1 && v[0] == '+' {
        1
    } else {
        0
    };
    let ghost d = v@.skip(start as int);
    assert(start == 1 ==> d =~= v@.drop_first());
    assert(start == 0 ==> d =~= v@);
    assert(parse_usize_spec(s@) == if d.len() > 0 && all_digits(d) && dec_value(d) <= usize::MAX {
        Some(dec_value(d) as usize)
    } else {
        None
    });
    if start == v.len() {
        return None;
    }
    let mut value: usize = 0;
    let mut i: usize = start;
    while i < v.len()
        invariant
            parse_usize_spec(s@) == if d.len() > 0 && all_digits(d) && dec_value(d) <= usize::MAX {
                Some(dec_value(d) as usize)
            } else {
                None
            },
            start <= i <= v.len(),
            d == v@.skip(start as int),
            v@ == s@,
            d.len() > 0,
            all_digits(d.take(i - start)),
            value == dec_value(d.take(i - start)),
        decreases v.len() - i,
    {
        let c = v[i];
        let ghost k = i - start;
        assert(d[k] == c);
        if c < '0' || c > '9' {
            assert(!is_digit(d[k]));
            assert(!all_digits(d));
            return None;
        }
        assert(d.take(k + 1).drop_last() =~= d.take(k));
        assert(d.take(k + 1).last() == c);
        assert(all_digits(d.take(k + 1))) by {
            assert forall|j: int| 0 <= j < k + 1 implies is_digit(#[trigger] d.take(k + 1)[j]) by {
                if j < k {
                    assert(d.take(k + 1)[j] == d.take(k)[j]);
                }
            }
        }
        let digit = (c as u32 - '0' as u32) as usize;
        assert(digit == digit_value(c));
        match value.checked_mul(10) {
            Some(m) => match m.checked_add(digit) {
                Some(n) => value = n,
                None => {
                    proof {
                        lemma_overflow_none(d, k + 1);
                    }
                    return None;
                },
            },
            None => {
                proof {
                    lemma_dec_value_nonneg(d.take(k + 1));
                    assert(dec_value(d.take(k + 1)) >= value * 10);
                    lemma_overflow_none(d, k + 1);
                }
                return None;
            },
        }
        i += 1;
    }
    assert(d.take(v.len() - start) =~= d);
    Some(value)
}

proof fn lemma_overflow_none(d: Seq<char>, k: int)
    requires
        0 < k <= d.len(),
        all_digits(d.take(k)),
        dec_value(d.take(k)) > usize::MAX,
    ensures
        !(all_digits(d) && dec_value(d) <= usize::MAX),
{
    if all_digits(d) {
        lemma_dec_value_prefix(d, k);
    }
}

/// Writes `n` in decimal, as `usize::to_string` does.
pub fn usize_to_string(n: usize) -> (r: String)
    ensures
        r@ == dec_string(n as nat),
    decreases n,
{
    let d = (n % 10) as u32;
    let c = char_from_digit(d);
    if n < 10 {
        crate::text::char_string(c)
    } else {
        let mut r = usize_to_string(n / 10);
        let cs = crate::text::char_string(c);
        r.append(cs.as_str());
        r
    }
}

fn char_from_digit(d: u32) -> (c: char)
    requires
        d < 10,
    ensures
        c == digit_char(d as nat),
{
    match d {
        0 => '0',
        1 => '1',
        2 => '2',
        3 => '3',
        4 => '4',
        5 => '5',
        6 => '6',
        7 => '7',
        8 => '8',
        _ => '9',
    }
}

/// Reading back the decimal text of an index gives the index.
pub proof fn lemma_parse_dec_string(n: usize)
    ensures
        parse_usize_spec(dec_string(n as nat)) == Some(n),
{
    lemma_dec_string(n as nat);
    let s = dec_string(n as nat);
    assert(!(s.len() > 1 && s[0] == '+')) by {
        assert(is_digit(s[0]));
    }
}

proof fn lemma_dec_string(n: nat)
    ensures
        dec_string(n).len() > 0,
        all_digits(dec_string(n)),
        dec_value(dec_string(n)) == n,
    decreases n,
{
    if n < 10 {
        assert(digit_value(digit_char(n)) == n);
        let s = dec_string(n);
        assert(s.drop_last() =~= Seq::<char>::empty());
        assert(s.last() == digit_char(n));
        assert(dec_value(s.drop_last()) == 0);
        assert(dec_value(s) == n);
    } else {
        assert((n / 10) * 10 + n % 10 == n) by (nonlinear_arith);
        assert(digit_value(digit_char(n % 10)) == n % 10);
        lemma_dec_string(n / 10);
        let s = dec_string(n);
        assert(s.drop_last() =~= dec_string(n / 10));
        assert(s.last() == digit_char(n % 10));
        assert(dec_value(s) == dec_value(s.drop_last()) * 10 + digit_value(s.last()));
        assert(dec_value(s) == (n / 10) * 10 + n % 10);
        assert(dec_value(s) == n);
        assert(all_digits(s)) by {
            assert forall|i: int| 0 <= i < s.len() implies is_digit(#[trigger] s[i]) by {
                if i < s.len() - 1 {
                    assert(s[i] == dec_string(n / 10)[i]);
                }
            }
        }
    }
}

/// Whether `c` is the lower-case ASCII letter `l` in either case.
pub open spec fn letter_ci(c: char, l: char) -> bool {
    c == l || (c as int) + 32 == (l as int)
}

/// Whether `s` spells the lower-case word `w`, in any mix of cases.
pub open spec fn word_ci(s: Seq<char>, w: Seq<char>) -> bool {
    s.len() == w.len() && forall|i: int| 0 <= i < s.len() ==> letter_ci(#[trigger] s[i], w[i])
}

/// The text without its leading sign, if it has one.
pub open spec fn unsigned(s: Seq<char>) -> Seq<char> {
    if s.len() > 0 && (s[0] == '+' || s[0] == '-') {
        s.drop_first()
    } else {
        s
    }
}

/// Digits with at most one point among them, and at least one digit.
pub open spec fn mantissa_text(m: Seq<char>) -> bool {
    &&& forall|i: int| 0 <= i < m.len() ==> is_digit(#[trigger] m[i]) || m[i] == '.'
    &&& forall|i: int, j: int| 0 <= i < j < m.len() && #[trigger] m[i] == '.' ==> #[trigger] m[j] != '.'
    &&& exists|i: int| 0 <= i < m.len() && is_digit(#[trigger] m[i])
}

/// Nothing, or `e` (in either case), an optional sign and at least one digit.
pub open spec fn exponent_text(x: Seq<char>) -> bool {
    x.len() == 0 || (letter_ci(x[0], 'e') && unsigned(x.drop_first()).len() > 0 && all_digits(
        unsigned(x.drop_first()),
    ))
}

/// Whether `s` is the text of a floating-point number as `f32::from_str`
/// reads it: an optional sign, then `inf`, `infinity` or `nan` in any case,
/// or a mantissa (digits with at most one point) and an optional exponent.
pub open spec fn float_text(s: Seq<char>) -> bool {
    let b = unsigned(s);
    ||| word_ci(b, seq!['i', 'n', 'f'])
    ||| word_ci(b, seq!['i', 'n', 'f', 'i', 'n', 'i', 't', 'y'])
    ||| word_ci(b, seq!['n', 'a', 'n'])
    ||| exists|k: int| 0 <= k <= b.len() && mantissa_text(b.take(k)) && exponent_text(#[trigger] b.skip(k))
}

fn is_letter_ci(c: char, l: char) -> (r: bool)
    requires
        l as u32 >= 32,
    ensures
        r == letter_ci(c, l),
{
    c == l || (c as u32) + 32 == (l as u32)
}

/// Whether the characters of `v` from `start` on spell the word `w`.
fn word_at(v: &Vec<char>, start: usize, w: &[char]) -> (r: bool)
    requires
        start <= v.len(),
        forall|i: int| 0 <= i < w@.len() ==> (#[trigger] w@[i]) as u32 >= 32,
    ensures
        r == word_ci(v@.skip(start as int), w@),
{
    let ghost b = v@.skip(start as int);
    if v.len() - start != w.len() {
        return false;
    }
    let mut i: usize = 0;
    while i < w.len()
        invariant
            b == v@.skip(start as int),
            start + w.len() == v.len(),
            i <= w@.len(),
            forall|j: int| 0 <= j < w@.len() ==> (#[trigger] w@[j]) as u32 >= 32,
            forall|j: int| 0 <= j < i ==> letter_ci(#[trigger] b[j], w@[j]),
        decreases w.len() - i,
    {
        if !is_letter_ci(v[start + i], w[i]) {
            assert(!letter_ci(b[i as int], w@[i as int]));
            return false;
        }
        i += 1;
    }
    true
}

/// Whether the characters `start..end` of `v` make a mantissa.
fn mantissa_at(v: &Vec<char>, start: usize, end: usize) -> (r: bool)
    requires
        start <= end <= v.len(),
    ensures
        r == mantissa_text(v@.subrange(start as int, end as int)),
{
    let ghost m = v@.subrange(start as int, end as int);
    let mut point: Option<usize> = None;
    let mut digit: Option<usize> = None;
    let mut i = start;
    while i < end
        invariant
            m == v@.subrange(start as int, end as int),
            start <= i <= end <= v.len(),
            forall|j: int| 0 <= j < i - start ==> is_digit(#[trigger] m[j]) || m[j] == '.',
            match point {
                Some(p) => start <= p < i && v@[p as int] == '.' && forall|j: int|
                    start <= j < i && j != p ==> #[trigger] v@[j] != '.',
                None => forall|j: int| start <= j < i ==> #[trigger] v@[j] != '.',
            },
            match digit {
                Some(d) => start <= d < i && is_digit(v@[d as int]),
                None => forall|j: int| start <= j < i ==> !is_digit(#[trigger] v@[j]),
            },
        decreases end - i,
    {
        let c = v[i];
        if c == '.' {
            if point.is_some() {
                let p = point.unwrap();
                assert(m[p - start] == '.' && m[i - start] == '.');
                return false;
            }
            point = Some(i);
        } else if '0' <= c && c <= '9' {
            digit = Some(i);
        } else {
            assert(!(is_digit(m[i - start]) || m[i - start] == '.'));
            return false;
        }
        i += 1;
    }
    match digit {
        Some(d) => {
            assert(is_digit(m[d - start]));
            assert forall|a: int, b: int| 0 <= a < b < m.len() && #[trigger] m[a] == '.' implies #[trigger] m[b] != '.' by {
                assert(m[a] == v@[a + start]);
                assert(m[b] == v@[b + start]);
            }
            true
        },
        None => {
            assert forall|j: int| 0 <= j < m.len() implies !is_digit(#[trigger] m[j]) by {
                assert(m[j] == v@[j + start]);
            }
            false
        },
    }
}

/// Whether the characters of `v` from `k` on make an exponent.
fn exponent_at(v: &Vec<char>, k: usize) -> (r: bool)
    requires
        k <= v.len(),
    ensures
        r == exponent_text(v@.skip(k as int)),
{
    let ghost x = v@.skip(k as int);
    if k == v.len() {
        assert(x.len() == 0);
        return true;
    }
    if !is_letter_ci(v[k], 'e') {
        return false;
    }
    let ghost y = x.drop_first();
    assert(y =~= v@.skip(k + 1));
    let d = if k + 1 < v.len() && (v[k + 1] == '+' || v[k + 1] == '-') {
        k + 2
    } else {
        k + 1
    };
    let ghost u = unsigned(y);
    assert(u =~= v@.skip(d as int));
    if d >= v.len() {
        assert(u.len() == 0);
        return false;
    }
    let mut i = d;
    while i < v.len()
        invariant
            d <= i <= v.len(),
            k < v.len(),
            x == v@.skip(k as int),
            letter_ci(x[0], 'e'),
            u == unsigned(x.drop_first()),
            u =~= v@.skip(d as int),
            forall|j: int| d <= j < i ==> is_digit(#[trigger] v@[j]),
        decreases v.len() - i,
    {
        if !('0' <= v[i] && v[i] <= '9') {
            assert(!is_digit(u[i - d]));
            return false;
        }
        i += 1;
    }
    assert forall|j: int| 0 <= j < u.len() implies is_digit(#[trigger] u[j]) by {
        assert(u[j] == v@[j + d]);
    }
    true
}

/// The only place a mantissa can end is the first `e` (or the end).
proof fn lemma_decimal_split(b: Seq<char>, k: int)
    requires
        0 <= k <= b.len(),
        forall|i: int| 0 <= i < k ==> !letter_ci(#[trigger] b[i], 'e'),
        k < b.len() ==> letter_ci(b[k], 'e'),
    ensures
        (exists|k2: int| 0 <= k2 <= b.len() && mantissa_text(b.take(k2)) && exponent_text(#[trigger] b.skip(k2)))
            == (mantissa_text(b.take(k)) && exponent_text(b.skip(k))),
{
    if exists|k2: int| 0 <= k2 <= b.len() && mantissa_text(b.take(k2)) && exponent_text(#[trigger] b.skip(k2)) {
        let k2 = choose|k2: int| 0 <= k2 <= b.len() && mantissa_text(b.take(k2)) && exponent_text(#[trigger] b.skip(k2));
        if k2 < k {
            assert(b.skip(k2)[0] == b[k2]);
            assert(!letter_ci(b[k2], 'e'));
        } else if k2 > k {
            assert(b.take(k2)[k] == b[k]);
            assert(is_digit(b.take(k2)[k]) || b.take(k2)[k] == '.');
        }
    }
}

/// Whether `s` is the text of a floating-point number (see `float_text`).
pub fn is_float_text(s: &str) -> (r: bool)
    ensures
        r == float_text(s@),
{
    let v = chars_of(s);
    let start: usize = if v.len() > 0 && (v[0] == '+' || v[0] == '-') {
        1
    } else {
        0
    };
    let ghost b = v@.skip(start as int);
    assert(b =~= unsigned(s@));
    let inf = ['i', 'n', 'f'];
    let infinity = ['i', 'n', 'f', 'i', 'n', 'i', 't', 'y'];
    let nan = ['n', 'a', 'n'];
    assert(inf@ =~= seq!['i', 'n', 'f']);
    assert(infinity@ =~= seq!['i', 'n', 'f', 'i', 'n', 'i', 't', 'y']);
    assert(nan@ =~= seq!['n', 'a', 'n']);
    if word_at(&v, start, &inf) || word_at(&v, start, &infinity) || word_at(&v, start, &nan) {
        return true;
    }
    let mut k = start;
    while k < v.len() && !is_letter_ci(v[k], 'e')
        invariant
            start <= k <= v.len(),
            b == v@.skip(start as int),
            forall|i: int| start <= i < k ==> !letter_ci(#[trigger] v@[i], 'e'),
        decreases v.len() - k,
    {
        k += 1;
    }
    proof {
        assert forall|i: int| 0 <= i < k - start implies !letter_ci(#[trigger] b[i], 'e') by {
            assert(b[i] == v@[i + start]);
        }
        lemma_decimal_split(b, k - start);
        assert(b.take(k - start) =~= v@.subrange(start as int, k as int));
        assert(b.skip(k - start) =~= v@.skip(k as int));
    }
    mantissa_at(&v, start, k) && exponent_at(&v, k)
}

} // verus!
