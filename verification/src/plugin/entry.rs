//! The choices that plugins return, their scores, and the highlighting of
//! the characters that matched the query.

use vstd::prelude::*;
use crate::icon::IconPath;
use crate::plugin::fuzzy::{nucleo_indices, nucleo_score, FuzzyMatcher, FuzzyPattern};
use crate::plugin::manager::PluginIndex;
use crate::text::{chars_of, string_of_range};

verus! {

/// Where an entry comes from.
#[derive(Debug, Clone, Copy, PartialEq, Eq, Structural)]
pub struct Label {
    /// The plugin it comes from.
    pub plugin_index: PluginIndex,
    /// Its index in the plugin itself.
    pub index: usize,
}

impl Label {
    /// The label of the choice at `index` of the first plugin.
    pub fn index(index: usize) -> (r: Self)
        ensures
            r.plugin_index == PluginIndex(0),
            r.index == index,
    {
        Label { plugin_index: PluginIndex::default(), index }
    }

    /// The same choice, from the plugin at `plugin_index`.
    pub fn with_plugin(self, plugin_index: PluginIndex) -> (r: Self)
        ensures
            r.plugin_index == plugin_index,
            r.index == self.index,
    {
        Label { plugin_index, index: self.index }
    }
}

/// A choice returned by a plugin to the plugin manager.
pub struct Entry<'a> {
    pub name: &'a str,
    pub icon: Option<&'a IconPath>,
    pub comment: Option<&'a str>,
    /// The fuzzy matching score.
    pub score: u32,
    pub label: Label,
}

/// The score of a choice from the scores of its name and its comment: their
/// sum when both match, twice the name's when only the name matches, the
/// comment's when only the comment matches, and none when neither does.
pub open spec fn combined_score(name: Option<u32>, comment: Option<u32>) -> Option<int> {
    match name {
        Some(a) => match comment {
            Some(b) => Some(a + b),
            None => Some(2 * a),
        },
        None => match comment {
            Some(b) => Some(b as int),
            None => None,
        },
    }
}

/// Whether a combined score is absent or fits in a `u32`.
pub open spec fn fits_u32(s: Option<int>) -> bool {
    s matches Some(v) ==> v <= u32::MAX
}

/// An optional borrowed string seen as characters.
pub open spec fn opt_str(o: Option<&str>) -> Option<Seq<char>> {
    match o {
        Some(c) => Some(c@),
        None => None,
    }
}

/// The score of a choice with this name and comment against the query.
pub open spec fn entry_score(query: Seq<char>, name: Seq<char>, comment: Option<Seq<char>>) -> Option<int> {
    combined_score(
        nucleo_score(query, name),
        match comment {
            Some(c) => nucleo_score(query, c),
            None => None,
        },
    )
}

/// Whether a choice with this score is kept: it matched, and its score fits.
pub open spec fn kept(s: Option<int>) -> bool {
    s is Some && fits_u32(s)
}

/// The positions and scores of the choices (names and comments) that match
/// the query, in order.
pub open spec fn matches_of(query: Seq<char>, choices: Seq<(Seq<char>, Option<Seq<char>>)>) -> Seq<(int, int)>
    decreases choices.len(),
{
    if choices.len() == 0 {
        Seq::empty()
    } else {
        let i = choices.len() - 1;
        let prev = matches_of(query, choices.drop_last());
        let s = entry_score(query, choices[i].0, choices[i].1);
        if kept(s) {
            prev.push((i, s->0))
        } else {
            prev
        }
    }
}

/// Whether an entry shows a choice with this name, icon and comment.
pub open spec fn shows(e: Entry, name: Seq<char>, icon: Option<IconPath>, comment: Option<Seq<char>>) -> bool {
    &&& e.name@ == name
    &&& (e.icon is Some <==> icon is Some)
    &&& (icon is Some ==> *e.icon->0 == icon->0)
    &&& opt_str(e.comment) == comment
}


/// The positions and scores of entries.
pub open spec fn entries_scores(v: Seq<Entry>) -> Seq<(int, int)> {
    v.map_values(|e: Entry| (e.label.index as int, e.score as int))
}

/// Combines the scores of a name and a comment as `combined_score` says.
pub fn combine_scores(name: Option<u32>, comment: Option<u32>) -> (r: Option<u32>)
    requires
        fits_u32(combined_score(name, comment)),
    ensures
        match r {
            Some(s) => combined_score(name, comment) == Some(s as int),
            None => combined_score(name, comment) is None,
        },
{
    match name {
        Some(a) => match comment {
            Some(b) => Some(a + b),
            None => Some(2 * a),
        },
        None => comment,
    }
}

/// Whether the combined score of these scores fits in a `u32`.
fn scores_fit(name: Option<u32>, comment: Option<u32>) -> (r: bool)
    ensures
        r == fits_u32(combined_score(name, comment)),
{
    match name {
        Some(a) => match comment {
            Some(b) => a.checked_add(b).is_some(),
            None => a.checked_mul(2).is_some(),
        },
        None => true,
    }
}

impl<'a> Entry<'a> {
    /// Matches the query against the name and the comment; gives the choice
    /// at `index` with the combined score, or `None` when neither matches
    /// (or when the combined score does not fit in a `u32`).
    pub fn new(
        matcher: &mut FuzzyMatcher,
        pattern: &FuzzyPattern,
        name: &'a str,
        icon: Option<&'a IconPath>,
        comment: Option<&'a str>,
        index: usize,
    ) -> (r: Option<Self>)
        ensures
            ({
                let s = entry_score(pattern@, name@, opt_str(comment));
                match r {
                    Some(e) => {
                        &&& s == Some(e.score as int)
                        &&& e.name == name
                        &&& e.icon == icon
                        &&& e.comment == comment
                        &&& e.label == Label { plugin_index: PluginIndex(0), index }
                    },
                    None => s is None || !fits_u32(s),
                }
            }),
    {
        let a = pattern.score(matcher, name);
        let b = match comment {
            Some(c) => pattern.score(matcher, c),
            None => None,
        };
        if !scores_fit(a, b) {
            return None;
        }
        match combine_scores(a, b) {
            Some(score) => Some(Entry { name, icon, comment, score, label: Label::index(index) }),
            None => None,
        }
    }

    /// The same choice, labelled as coming from the plugin at `plugin_index`.
    pub fn label(self, plugin_index: PluginIndex) -> (r: Self)
        ensures
            r.name == self.name,
            r.icon == self.icon,
            r.comment == self.comment,
            r.score == self.score,
            r.label == (Label { plugin_index, index: self.label.index }),
    {
        Entry { label: self.label.with_plugin(plugin_index), ..self }
    }

    /// The choice with its matched characters highlighted, owning its text.
    pub fn to_display(&self, pattern: &FuzzyPattern, matcher: &mut FuzzyMatcher) -> (r: DisplayEntry)
        ensures
            r.name.text() == self.name@,
            sorted_set_of(r.name.matched(), nucleo_indices(pattern@, self.name@)),
            match self.comment {
                Some(c) => r.comment matches Some(h) && h.text() == c@ && sorted_set_of(
                    h.matched(),
                    nucleo_indices(pattern@, c@),
                ),
                None => r.comment is None,
            },
            match self.icon {
                Some(i) => r.icon == Some(*i),
                None => r.icon is None,
            },
            r.score == self.score,
            r.label == self.label,
    {
        let name = HighlightedString::build(self.name.to_owned(), pattern, matcher);
        let comment = match self.comment {
            Some(c) => Some(HighlightedString::build(c.to_owned(), pattern, matcher)),
            None => None,
        };
        let icon = match self.icon {
            Some(i) => Some(i.duplicate()),
            None => None,
        };
        DisplayEntry { name, comment, icon, score: self.score, label: self.label }
    }
}

/// A choice with its highlighting, sent from the plugin manager to the
/// frontend.
#[derive(Debug)]
pub struct DisplayEntry {
    pub name: HighlightedString,
    pub comment: Option<HighlightedString>,
    pub icon: Option<IconPath>,
    /// The fuzzy matching score.
    pub score: u32,
    pub label: Label,
}

/// Whether the positions increase strictly.
pub open spec fn strictly_increasing(s: Seq<u32>) -> bool {
    forall|i: int, j: int| 0 <= i < j < s.len() ==> s[i] < s[j]
}

/// Whether `s` holds the values of `raw`, each once, in increasing order.
pub open spec fn sorted_set_of(s: Seq<u32>, raw: Seq<u32>) -> bool {
    &&& strictly_increasing(s)
    &&& forall|x: u32| s.contains(x) <==> raw.contains(x)
}

/// The values of `raw` in increasing order, each once (what `sort_unstable`
/// then `dedup` give).
pub fn sorted_unique(raw: &Vec<u32>) -> (r: Vec<u32>)
    ensures
        sorted_set_of(r@, raw@),
{
    let mut out: Vec<u32> = Vec::new();
    let mut i: usize = 0;
    while i < raw.len()
        invariant
            0 <= i <= raw.len(),
            strictly_increasing(out@),
            forall|x: u32| out@.contains(x) <==> raw@.take(i as int).contains(x),
        decreases raw.len() - i,
    {
        let x = raw[i];
        let mut p: usize = 0;
        while p < out.len() && out[p] < x
            invariant
                0 <= p <= out.len(),
                forall|k: int| 0 <= k < p ==> out@[k] < x,
            decreases out.len() - p,
        {
            p += 1;
        }
        let ghost before = out@;
        if p < out.len() && out[p] == x {
        } else {
            out.insert(p, x);
            proof {
                assert forall|a: int, b: int| 0 <= a < b < out@.len() implies out@[a] < out@[b] by {
                    if b < p {
                    } else if a < p && b == p {
                    } else if a < p {
                        assert(out@[b] == before[b - 1]);
                        if p < before.len() {
                            assert(before[p as int] > x);
                        }
                    } else if a == p {
                        assert(out@[b] == before[b - 1]);
                        assert(before[p as int] > x);
                    } else {
                        assert(out@[a] == before[a - 1]);
                        assert(out@[b] == before[b - 1]);
                    }
                }
            }
        }
        proof {
            let t0 = raw@.take(i as int);
            let t1 = raw@.take(i + 1);
            assert(t1 =~= t0.push(x));
            assert forall|y: u32| out@.contains(y) <==> t1.contains(y) by {
                if out@.contains(y) {
                    let k = choose|k: int| 0 <= k < out@.len() && out@[k] == y;
                    if y != x {
                        if out@.len() == before.len() || k < p {
                            assert(before[k] == y);
                        } else {
                            assert(before[k - 1] == y);
                        }
                        assert(before.contains(y));
                        assert(t0.contains(y));
                        let m = choose|m: int| 0 <= m < t0.len() && t0[m] == y;
                        assert(t1[m] == y);
                    } else {
                        assert(t1[i as int] == x);
                    }
                }
                if t1.contains(y) {
                    let m = choose|m: int| 0 <= m < t1.len() && t1[m] == y;
                    if m < i {
                        assert(t0[m] == y);
                        assert(before.contains(y));
                        let k = choose|k: int| 0 <= k < before.len() && before[k] == y;
                        if out@.len() == before.len() {
                            assert(out@[k] == y);
                        } else if k < p {
                            assert(out@[k] == y);
                        } else {
                            assert(out@[k + 1] == y);
                        }
                    } else {
                        assert(y == x);
                        assert(out@[p as int] == x);
                    }
                }
            }
        }
        i += 1;
    }
    assert(raw@.take(raw.len() as int) =~= raw@);
    out
}

/// A string and which of its characters matched a pattern.
#[derive(Debug)]
pub struct HighlightedString {
    source: String,
    /// The positions of the matched characters, increasing.
    indices: Vec<u32>,
}

impl HighlightedString {
    #[verifier::type_invariant]
    spec fn positions_increase(self) -> bool {
        strictly_increasing(self.indices@)
    }

    /// The highlighted text.
    pub closed spec fn text(self) -> Seq<char> {
        self.source@
    }

    /// The positions of its matched characters, increasing.
    pub closed spec fn matched(self) -> Seq<u32> {
        self.indices@
    }

    /// Highlights the characters of `source` that the pattern matched.
    pub fn build(source: String, pattern: &FuzzyPattern, matcher: &mut FuzzyMatcher) -> (r: Self)
        ensures
            r.text() == source@,
            sorted_set_of(r.matched(), nucleo_indices(pattern@, source@)),
    {
        let raw = pattern.indices(matcher, source.as_str());
        let indices = sorted_unique(&raw);
        HighlightedString { source, indices }
    }

    /// The highlighted text.
    pub fn source(&self) -> (r: &str)
        ensures
            r@ == self.text(),
    {
        self.source.as_str()
    }

    /// Walks the matched and unmatched spans of the text, from its start.
    pub fn iter(&self) -> (r: MatchSpanIterator)
        ensures
            r.wf(),
            r.text() == self.text(),
            r.matched() == self.matched(),
            r.position() == 0,
    {
        proof {
            use_type_invariant(self);
        }
        MatchSpanIterator {
            chars: chars_of(self.source.as_str()),
            matched: self.indices.clone(),
            matched_index: 0,
            index: 0,
        }
    }

    /// The matched and unmatched spans of the text, in order.
    pub fn spans(&self) -> (r: Vec<(String, bool)>)
        ensures
            spans_view(r@) == spans_from(self.text(), self.matched(), 0),
    {
        let mut it = self.iter();
        let mut out: Vec<(String, bool)> = Vec::new();
        proof {
            lemma_spans_from_empty_prefix(it.text(), it.matched());
        }
        loop
            invariant_except_break
                it.wf(),
                it.text() == self.text(),
                it.matched() == self.matched(),
                0 <= it.position() <= it.text().len(),
                spans_view(out@) + spans_from(it.text(), it.matched(), it.position()) == spans_from(
                    self.text(),
                    self.matched(),
                    0,
                ),
            ensures
                spans_view(out@) == spans_from(self.text(), self.matched(), 0),
            decreases it.text().len() - it.position(),
        {
            let ghost pos = it.position();
            match it.next() {
                Some(span) => {
                    proof {
                        lemma_span_end(it.text(), it.matched(), pos);
                        assert(spans_from(it.text(), it.matched(), pos) == seq![
                            (span.0@, span.1),
                        ] + spans_from(it.text(), it.matched(), it.position()));
                    }
                    let ghost before = out@;
                    out.push(span);
                    proof {
                        assert(spans_view(out@) =~= spans_view(before).push((span.0@, span.1)));
                        assert(spans_view(before) + seq![(span.0@, span.1)] =~= spans_view(out@));
                        assert(spans_view(before) + (seq![(span.0@, span.1)] + spans_from(
                            it.text(),
                            it.matched(),
                            it.position(),
                        )) =~= spans_view(out@) + spans_from(it.text(), it.matched(), it.position()));
                    }
                },
                None => {
                    assert(spans_view(out@) + Seq::<(Seq<char>, bool)>::empty() =~= spans_view(out@));
                    break;
                },
            }
        }
        out
    }
}

/// Whether the character at position `k` matched.
pub open spec fn is_matched(matched: Seq<u32>, k: int) -> bool {
    exists|j: int| 0 <= j < matched.len() && matched[j] == k
}

/// The first position from `k` on that is the end of the text or whose
/// character's match state differs from `state`.
pub open spec fn run_end(n: int, matched: Seq<u32>, state: bool, k: int) -> int
    decreases n - k,
{
    if k >= n {
        k
    } else if is_matched(matched, k) != state {
        k
    } else {
        run_end(n, matched, state, k + 1)
    }
}

/// The end of the span that starts at `start`: the characters from `start`
/// up to it all have the match state of the character at `start`, and it is
/// the end of the text or a character of the other state.
pub open spec fn span_end(n: int, matched: Seq<u32>, start: int) -> int {
    run_end(n, matched, is_matched(matched, start), start + 1)
}

/// The spans of `text` from position `pos` on, each with its match state.
pub open spec fn spans_from(text: Seq<char>, matched: Seq<u32>, pos: int) -> Seq<(Seq<char>, bool)>
    decreases text.len() - pos,
{
    if pos < 0 || pos >= text.len() {
        Seq::empty()
    } else {
        let e = span_end(text.len() as int, matched, pos);
        proof {
            lemma_run_end(text.len() as int, matched, is_matched(matched, pos), pos + 1);
        }
        seq![(text.subrange(pos, e), is_matched(matched, pos))] + spans_from(text, matched, e)
    }
}

/// Spans with their text seen as characters.
pub open spec fn spans_view(v: Seq<(String, bool)>) -> Seq<(Seq<char>, bool)> {
    v.map_values(|s: (String, bool)| (s.0@, s.1))
}

/// The texts of the spans, one after the other.
pub open spec fn concat_spans(s: Seq<(Seq<char>, bool)>) -> Seq<char>
    decreases s.len(),
{
    if s.len() == 0 {
        Seq::empty()
    } else {
        s[0].0 + concat_spans(s.drop_first())
    }
}

/// A run ends after its start and at most at the end of the text.
pub proof fn lemma_run_end(n: int, matched: Seq<u32>, state: bool, k: int)
    requires
        k <= n,
    ensures
        k <= run_end(n, matched, state, k) <= n,
        forall|m: int| k <= m < run_end(n, matched, state, k) ==> is_matched(matched, m) == state,
        run_end(n, matched, state, k) < n ==> is_matched(matched, run_end(n, matched, state, k)) != state,
    decreases n - k,
{
    if k < n && is_matched(matched, k) == state {
        lemma_run_end(n, matched, state, k + 1);
    }
}

/// A span is not empty, stays in the text, and all its characters have the
/// state of its first one; the next character, if any, has the other state.
pub proof fn lemma_span_end(text: Seq<char>, matched: Seq<u32>, start: int)
    requires
        0 <= start < text.len(),
    ensures
        start < span_end(text.len() as int, matched, start) <= text.len(),
        forall|m: int|
            start <= m < span_end(text.len() as int, matched, start) ==> is_matched(matched, m)
                == is_matched(matched, start),
        span_end(text.len() as int, matched, start) < text.len() ==> is_matched(
            matched,
            span_end(text.len() as int, matched, start),
        ) != is_matched(matched, start),
{
    lemma_run_end(text.len() as int, matched, is_matched(matched, start), start + 1);
}

proof fn lemma_spans_from_empty_prefix(text: Seq<char>, matched: Seq<u32>)
    ensures
        spans_view(Seq::<(String, bool)>::empty()) + spans_from(text, matched, 0) == spans_from(
            text,
            matched,
            0,
        ),
{
    assert(spans_view(Seq::<(String, bool)>::empty()) =~= Seq::<(Seq<char>, bool)>::empty());
    assert(Seq::<(Seq<char>, bool)>::empty() + spans_from(text, matched, 0) =~= spans_from(
        text,
        matched,
        0,
    ));
}

/// The spans of a text, put back one after the other, give the text: the
/// highlighting loses and repeats nothing.
pub proof fn lemma_spans_concat(text: Seq<char>, matched: Seq<u32>, pos: int)
    requires
        0 <= pos <= text.len(),
    ensures
        concat_spans(spans_from(text, matched, pos)) == text.subrange(pos, text.len() as int),
    decreases text.len() - pos,
{
    if pos < text.len() {
        let e = span_end(text.len() as int, matched, pos);
        lemma_span_end(text, matched, pos);
        lemma_spans_concat(text, matched, e);
        let s = spans_from(text, matched, pos);
        assert(s.drop_first() =~= spans_from(text, matched, e));
        assert(text.subrange(pos, e) + text.subrange(e, text.len() as int) =~= text.subrange(
            pos,
            text.len() as int,
        ));
    } else {
        assert(text.subrange(pos, text.len() as int) =~= Seq::<char>::empty());
    }
}

/// Each span is not empty, all its characters share its match state, and
/// two spans in a row have different states: the spans are the maximal runs
/// of matched and of unmatched characters.
pub proof fn lemma_spans_maximal(text: Seq<char>, matched: Seq<u32>, pos: int, i: int)
    requires
        0 <= pos <= text.len(),
        0 <= i < spans_from(text, matched, pos).len(),
    ensures
        spans_from(text, matched, pos)[i].0.len() > 0,
        i + 1 < spans_from(text, matched, pos).len() ==> spans_from(text, matched, pos)[i].1
            != spans_from(text, matched, pos)[i + 1].1,
    decreases text.len() - pos,
{
    let e = span_end(text.len() as int, matched, pos);
    lemma_span_end(text, matched, pos);
    if i > 0 {
        lemma_spans_maximal(text, matched, e, i - 1);
    } else if e < text.len() {
        lemma_span_end(text, matched, e);
    }
}

/// The flag each character of the spans gets: the flag of its span.
pub open spec fn char_flags(s: Seq<(Seq<char>, bool)>) -> Seq<bool>
    decreases s.len(),
{
    if s.len() == 0 {
        Seq::empty()
    } else {
        Seq::new(s[0].0.len(), |k: int| s[0].1) + char_flags(s.drop_first())
    }
}

/// Each character of the text lies in a span flagged as matched exactly
/// when its position is one of the matched positions.
pub proof fn lemma_spans_flag_chars(text: Seq<char>, matched: Seq<u32>, pos: int)
    requires
        0 <= pos <= text.len(),
    ensures
        char_flags(spans_from(text, matched, pos)) == Seq::new(
            (text.len() - pos) as nat,
            |k: int| is_matched(matched, pos + k),
        ),
    decreases text.len() - pos,
{
    let s = spans_from(text, matched, pos);
    if pos < text.len() {
        let e = span_end(text.len() as int, matched, pos);
        lemma_span_end(text, matched, pos);
        lemma_spans_flag_chars(text, matched, e);
        assert(s.drop_first() =~= spans_from(text, matched, e));
        assert(s[0].0.len() == e - pos);
        assert(char_flags(s) =~= Seq::new(
            (text.len() - pos) as nat,
            |k: int| is_matched(matched, pos + k),
        ));
    } else {
        assert(char_flags(s) =~= Seq::new(
            (text.len() - pos) as nat,
            |k: int| is_matched(matched, pos + k),
        ));
    }
}

/// Walks the matched and unmatched spans of a highlighted string.
pub struct MatchSpanIterator {
    chars: Vec<char>,
    matched: Vec<u32>,
    /// The number of matched positions before `index`.
    matched_index: usize,
    /// The position of the next span's first character.
    index: usize,
}

impl MatchSpanIterator {
    /// The text being walked.
    pub closed spec fn text(self) -> Seq<char> {
        self.chars@
    }

    /// The matched positions, increasing.
    pub closed spec fn matched(self) -> Seq<u32> {
        self.matched@
    }

    /// Where the next span starts.
    pub closed spec fn position(self) -> int {
        self.index as int
    }

    /// The walk is in a consistent state: the matched positions increase,
    /// and `matched_index` counts those before the position.
    pub closed spec fn wf(self) -> bool {
        &&& strictly_increasing(self.matched@)
        &&& self.index <= self.chars.len()
        &&& self.matched_index <= self.matched.len()
        &&& forall|j: int| 0 <= j < self.matched_index ==> self.matched@[j] < self.index
        &&& forall|j: int| self.matched_index <= j < self.matched@.len() ==> self.matched@[j] >= self.index
    }

    /// The next span and whether it matched, or `None` at the end of the
    /// text. A span runs from the position to `span_end`.
    pub fn next(&mut self) -> (r: Option<(String, bool)>)
        requires
            old(self).wf(),
        ensures
            final(self).wf(),
            final(self).text() == old(self).text(),
            final(self).matched() == old(self).matched(),
            match r {
                Some((s, m)) => {
                    &&& old(self).position() < old(self).text().len()
                    &&& m == is_matched(old(self).matched(), old(self).position())
                    &&& final(self).position() == span_end(
                        old(self).text().len() as int,
                        old(self).matched(),
                        old(self).position(),
                    )
                    &&& s@ == old(self).text().subrange(old(self).position(), final(self).position())
                },
                None => old(self).position() >= old(self).text().len() && final(self).position()
                    == old(self).position(),
            },
    {
        let n = self.chars.len();
        let start = self.index;
        if start >= n {
            return None;
        }
        let ghost m = self.matched@;
        let ghost nn = n as int;
        let state = self.matched_index < self.matched.len() && self.matched[self.matched_index] == start as u32;
        proof {
            lemma_matched_at(m, self.matched_index as int, start as int);
        }
        assert(state == is_matched(m, start as int));
        let mut index = start;
        let mut mi = self.matched_index;
        loop
            invariant_except_break
                index < n,
                forall|k: int| start <= k <= index ==> is_matched(m, k) == state,
                state == (mi < m.len() && m[mi as int] == index),
                run_end(nn, m, state, start + 1) == run_end(nn, m, state, index + 1),
            invariant
                nn == n,
                n == self.chars.len(),
                m == self.matched@,
                m.len() == self.matched.len(),
                strictly_increasing(m),
                start <= index <= n,
                mi <= m.len(),
                forall|j: int| 0 <= j < mi ==> m[j] < index,
                forall|j: int| mi <= j < m.len() ==> m[j] >= index,
            ensures
                start < index <= n,
                index == run_end(nn, m, state, start + 1),
            decreases n - index,
        {
            if state {
                mi = mi + 1;
            }
            index = index + 1;
            if index >= n {
                assert(run_end(nn, m, state, index as int) == index);
                break;
            }
            let now = mi < self.matched.len() && self.matched[mi] == index as u32;
            proof {
                lemma_matched_at(m, mi as int, index as int);
            }
            if now != state {
                assert(run_end(nn, m, state, index as int) == index);
                break;
            }
            assert(run_end(nn, m, state, index as int) == run_end(nn, m, state, index + 1));
        }
        self.index = index;
        self.matched_index = mi;
        Some((string_of_range(&self.chars, start, index), state))
    }
}

/// When `mi` counts the matched positions before `k`, position `k` matched
/// exactly when the next of them is `k`.
proof fn lemma_matched_at(m: Seq<u32>, mi: int, k: int)
    requires
        strictly_increasing(m),
        0 <= mi <= m.len(),
        forall|j: int| 0 <= j < mi ==> m[j] < k,
        forall|j: int| mi <= j < m.len() ==> m[j] >= k,
    ensures
        is_matched(m, k) == (mi < m.len() && m[mi] == k),
{
    if is_matched(m, k) {
        let j = choose|j: int| 0 <= j < m.len() && m[j] == k;
        if j != mi {
            assert(j > mi);
            assert(m[mi] < m[j]);
        }
    }
}

} // verus!
