//! A small INI parser: global keys, `[section]` headers, `key = value`
//! lines, line comments.
//!
//! Parsing is stated line by line (`parse_step`): a line is cut at its first
//! comment character and trimmed; an empty line is skipped; `[name]` opens a
//! section (a later section with the same name replaces an earlier one);
//! `key = value` sets a key of the open section, or a global key before any
//! header (a repeated key keeps its place and takes the new value); any
//! other line is ignored.

use vstd::prelude::*;
use indexmap::IndexMap;
use crate::assoc::{
    assoc_find, assoc_get, assoc_insert, lemma_assoc_find, lemma_assoc_insert, lemma_assoc_remove,
    unique_keys,
};
use crate::index_map::{
    pairs_view, string_map_entries, string_map_get, string_map_insert, string_map_into_pairs,
    string_map_new, string_map_pairs,
};
use crate::text::{
    find_any, find_char_in, lines, lemma_find_any_at, split_once, string_of_range, trim,
    trim_range,
};

verus! {

/// Key-value pairs as characters, in order.
pub type Pairs = Seq<(Seq<char>, Seq<char>)>;

/// Named sections, each with its pairs.
pub type SectionPairs = Seq<(Seq<char>, Pairs)>;

/// State of a parse: global pairs, closed sections, the open section.
pub type ParseState = (Pairs, SectionPairs, Option<(Seq<char>, Pairs)>);

/// The meaningful part of a line: up to the first comment character, trimmed.
pub open spec fn line_content(line: Seq<char>, comment_chars: Seq<char>) -> Seq<char> {
    let i = find_any(line, comment_chars);
    trim(if i < 0 { line } else { line.take(i) })
}

/// A section header: starts with `[` and ends with `]`.
pub open spec fn is_header(content: Seq<char>) -> bool {
    content.len() > 0 && content[0] == '[' && content.last() == ']'
}

/// Closes the open section, if any, into the sections.
pub open spec fn close_section(sections: SectionPairs, current: Option<(Seq<char>, Pairs)>) -> SectionPairs {
    match current {
        Some((name, pairs)) => assoc_insert(sections, name, pairs),
        None => sections,
    }
}

/// The effect of one line on the parse.
pub open spec fn parse_step(st: ParseState, line: Seq<char>, comment_chars: Seq<char>) -> ParseState {
    let content = line_content(line, comment_chars);
    if content.len() == 0 {
        st
    } else if is_header(content) {
        (
            st.0,
            close_section(st.1, st.2),
            Some((content.subrange(1, content.len() - 1), Seq::empty())),
        )
    } else {
        match split_once(content, '=') {
            Some((k, v)) => match st.2 {
                Some((name, pairs)) => (st.0, st.1, Some((name, assoc_insert(pairs, trim(k), trim(v))))),
                None => (assoc_insert(st.0, trim(k), trim(v)), st.1, None),
            },
            None => st,
        }
    }
}

/// The state after the given lines, from an empty start.
pub open spec fn parse_lines(ls: Seq<Seq<char>>, comment_chars: Seq<char>) -> ParseState
    decreases ls.len(),
{
    if ls.len() == 0 {
        (Seq::empty(), Seq::empty(), None)
    } else {
        parse_step(parse_lines(ls.drop_last(), comment_chars), ls.last(), comment_chars)
    }
}

/// The global pairs and the sections of an INI text.
pub open spec fn parse_ini(file: Seq<char>, comment_chars: Seq<char>) -> (Pairs, SectionPairs) {
    let st = parse_lines(lines(file), comment_chars);
    (st.0, close_section(st.1, st.2))
}

/// In an open section, a line `key = value` sets the key to the value
/// (trimmed), replacing any earlier value of the key; keys stay unique.
pub proof fn lemma_assignment_sets_key(st: ParseState, line: Seq<char>, comment_chars: Seq<char>)
    requires
        st.2 matches Some((_, pairs)) && unique_keys(pairs),
        line_content(line, comment_chars).len() > 0,
        !is_header(line_content(line, comment_chars)),
        split_once(line_content(line, comment_chars), '=') is Some,
    ensures
        ({
            let (k, v) = split_once(line_content(line, comment_chars), '=')->0;
            parse_step(st, line, comment_chars).2 matches Some((_, pairs2)) && assoc_get(pairs2, trim(k))
                == Some(trim(v)) && unique_keys(pairs2)
        }),
{
    let (k, v) = split_once(line_content(line, comment_chars), '=')->0;
    match st.2 {
        Some((_, pairs)) => lemma_assoc_insert(pairs, trim(k), trim(v)),
        None => {},
    }
}

/// The keys of a section, in the order they first appeared.
pub struct Section {
    keys: IndexMap<String, String>,
}

impl Section {
    #[verifier::type_invariant]
    spec fn inv(self) -> bool {
        unique_keys(string_map_entries(self.keys))
    }

    /// The pairs of the section, in order.
    pub closed spec fn entries(self) -> Pairs {
        string_map_entries(self.keys)
    }

    /// A section without keys.
    pub fn new() -> (r: Self)
        ensures
            r.entries() == Pairs::empty(),
    {
        Section { keys: string_map_new() }
    }

    /// Sets `key` to `value`: in place when the key is present, last otherwise.
    pub fn insert(&mut self, key: String, value: String)
        ensures
            final(self).entries() == assoc_insert(old(self).entries(), key@, value@),
    {
        let mut keys = string_map_new();
        std::mem::swap(&mut keys, &mut self.keys);
        let _ = string_map_insert(&mut keys, key, value);
        self.keys = keys;
    }

    /// The value of `key`, if the section has it.
    pub fn get(&self, key: &str) -> (r: Option<&String>)
        ensures
            match r {
                Some(v) => assoc_get(self.entries(), key@) == Some(v@),
                None => assoc_get(self.entries(), key@) is None,
            },
    {
        string_map_get(&self.keys, key)
    }

    /// The underlying ordered map, borrowed.
    pub fn as_map(&self) -> (r: &IndexMap<String, String>)
        ensures
            string_map_entries(*r) == self.entries(),
    {
        &self.keys
    }

    /// The underlying ordered map.
    pub fn into_map(self) -> (r: IndexMap<String, String>)
        ensures
            string_map_entries(r) == self.entries(),
    {
        self.keys
    }

    /// The pairs of the section, in order.
    pub fn iter(&self) -> (r: Vec<(String, String)>)
        ensures
            pairs_view(r@) == self.entries(),
    {
        string_map_pairs(&self.keys)
    }

    /// The pairs of the section, in order, moved out of it.
    pub fn into_iter(self) -> (r: Vec<(String, String)>)
        ensures
            pairs_view(r@) == self.entries(),
    {
        string_map_into_pairs(self.keys)
    }
}

/// Sections seen as names and pairs.
pub open spec fn sections_view(v: Seq<(String, Section)>) -> SectionPairs {
    v.map_values(|p: (String, Section)| (p.0@, p.1.entries()))
}

/// A parsed INI file.
pub struct Ini {
    globals: IndexMap<String, String>,
    sections: Vec<(String, Section)>,
}

impl Ini {
    #[verifier::type_invariant]
    spec fn inv(self) -> bool {
        unique_keys(sections_view(self.sections@))
    }

    /// The pairs that come before any section header.
    pub closed spec fn globals_model(self) -> Pairs {
        string_map_entries(self.globals)
    }

    /// The sections, each once, with their pairs.
    pub closed spec fn sections_model(self) -> SectionPairs {
        sections_view(self.sections@)
    }

    /// Parses `file`; a line comment starts at any character of `comment_chars`.
    pub fn from_string(file: String, comment_chars: &[char]) -> (r: Self)
        ensures
            r.globals_model() == parse_ini(file@, comment_chars@).0,
            r.sections_model() == parse_ini(file@, comment_chars@).1,
    {
        let v = crate::text::chars_of(file.as_str());
        let mut this = Ini { globals: string_map_new(), sections: Vec::new() };
        let mut current: Option<(String, Section)> = None;
        let ghost mut done: Seq<Seq<char>> = Seq::empty();
        let mut p: usize = 0;
        assert(v@.subrange(0, v@.len() as int) =~= v@);
        while p < v.len()
            invariant
                p <= v.len(),
                v@ == file@,
                lines(file@) == done + lines(v@.subrange(p as int, v@.len() as int)),
                parse_lines(done, comment_chars@) == (
                    this.globals_model(),
                    this.sections_model(),
                    current_view(current),
                ),
            decreases v.len() - p,
        {
            let ghost rest = v@.subrange(p as int, v@.len() as int);
            let e = find_char_in(&v, p, v.len(), '\n');
            let mut line_end = e;
            if line_end > p && e < v.len() && v[line_end - 1] == '\r' {
                line_end = line_end - 1;
            }
            let ghost line = v@.subrange(p as int, line_end as int);
            proof {
                if e < v.len() {
                    assert(rest.take(e - p) =~= v@.subrange(p as int, e as int));
                    assert(rest.skip(e - p + 1) =~= v@.subrange(e + 1, v@.len() as int));
                    assert(line =~= crate::text::strip_cr(rest.take(e - p)));
                    assert(lines(rest) == seq![line] + lines(
                        v@.subrange(e + 1, v@.len() as int),
                    ));
                } else {
                    assert(line =~= rest);
                    assert(lines(v@.subrange(v@.len() as int, v@.len() as int)) =~= Seq::<
                        Seq<char>,
                    >::empty());
                }
            }
            self_parse_line(&mut this, &mut current, &v, p, line_end, comment_chars);
            proof {
                let old_done = done;
                done = done.push(line);
                assert(done.drop_last() =~= old_done);
            }
            p = if e < v.len() { e + 1 } else { v.len() };
            proof {
                assert(lines(file@) =~= done + lines(v@.subrange(p as int, v@.len() as int)));
            }
        }
        assert(lines(v@.subrange(p as int, v@.len() as int)) =~= Seq::<Seq<char>>::empty());
        assert(done =~= lines(file@));
        if let Some((name, section)) = current {
            this.insert(name, section);
        }
        this
    }

    /// Stores `section` under `name`, replacing a section of that name.
    fn insert(&mut self, name: String, section: Section)
        ensures
            final(self).globals_model() == old(self).globals_model(),
            final(self).sections_model() == assoc_insert(
                old(self).sections_model(),
                name@,
                section.entries(),
            ),
    {
        proof {
            use_type_invariant(&*self);
        }
        let ghost s = self.sections_model();
        let i = self.find(name.as_str());
        proof {
            lemma_assoc_find(s, name@);
        }
        proof {
            lemma_assoc_insert(s, name@, section.entries());
        }
        if i < self.sections.len() {
            let ghost entries = section.entries();
            let mut sections: Vec<(String, Section)> = Vec::new();
            std::mem::swap(&mut sections, &mut self.sections);
            sections.set(i, (name, section));
            assert(sections_view(sections@) =~= s.update(i as int, (name@, entries)));
            self.sections = sections;
        } else {
            let ghost entries = section.entries();
            let mut sections: Vec<(String, Section)> = Vec::new();
            std::mem::swap(&mut sections, &mut self.sections);
            sections.push((name, section));
            assert(sections_view(sections@) =~= s.push((name@, entries)));
            self.sections = sections;
        }
    }

    /// Iterates on the global pairs, in order.
    pub fn globals(&self) -> (r: Vec<(String, String)>)
        ensures
            pairs_view(r@) == self.globals_model(),
    {
        string_map_pairs(&self.globals)
    }

    /// The sections with their names, moved out.
    pub fn into_sections(self) -> (r: Vec<(String, Section)>)
        ensures
            sections_view(r@) == self.sections_model(),
            unique_keys(sections_view(r@)),
    {
        proof {
            use_type_invariant(&self);
        }
        self.sections
    }

    /// The pairs of a section; none when the section does not exist.
    pub fn section_iter(&self, section: &str) -> (r: Vec<(String, String)>)
        ensures
            pairs_view(r@) == match assoc_get(self.sections_model(), section@) {
                Some(pairs) => pairs,
                None => Pairs::empty(),
            },
    {
        match self.section(section) {
            Some(s) => s.iter(),
            None => {
                let r: Vec<(String, String)> = Vec::new();
                assert(pairs_view(r@) =~= Pairs::empty());
                r
            },
        }
    }

    /// The section called `section`, if any.
    pub fn section(&self, section: &str) -> (r: Option<&Section>)
        ensures
            match r {
                Some(s) => assoc_get(self.sections_model(), section@) == Some(s.entries()),
                None => assoc_get(self.sections_model(), section@) is None,
            },
    {
        let i = self.find(section);
        if i < self.sections.len() {
            Some(&self.sections[i].1)
        } else {
            None
        }
    }

    /// Index of the section called `name` (as `assoc_find`), or the number of sections.
    fn find(&self, name: &str) -> (i: usize)
        ensures
            i <= self.sections@.len(),
            i < self.sections@.len() ==> assoc_find(self.sections_model(), name@) == i,
            i == self.sections@.len() ==> assoc_find(self.sections_model(), name@) < 0,
    {
        let ghost s = self.sections_model();
        let mut i = self.sections.len();
        assert(s.take(s.len() as int) =~= s);
        while i > 0
            invariant
                i <= self.sections.len(),
                s == sections_view(self.sections@),
                assoc_find(s, name@) == assoc_find(s.take(i as int), name@),
            decreases i,
        {
            if crate::text::str_eq(self.sections[i - 1].0.as_str(), name) {
                proof {
                    assert(s.take(i as int).last() == s[i - 1]);
                }
                return i - 1;
            }
            proof {
                assert(s.take(i as int).drop_last() =~= s.take(i - 1));
            }
            i -= 1;
        }
        assert(s.take(0) =~= SectionPairs::empty());
        self.sections.len()
    }

    /// Removes the section called `section` and returns it.
    pub fn remove_section(&mut self, section: &str) -> (r: Option<Section>)
        ensures
            final(self).globals_model() == old(self).globals_model(),
            match r {
                Some(s) => assoc_get(old(self).sections_model(), section@) == Some(s.entries()),
                None => assoc_get(old(self).sections_model(), section@) is None,
            },
            assoc_get(final(self).sections_model(), section@) is None,
            final(self).sections_model() == remove_key(old(self).sections_model(), section@),
            forall|k: Seq<char>|
                k != section@ ==> assoc_get(final(self).sections_model(), k) == assoc_get(
                    old(self).sections_model(),
                    k,
                ),
    {
        proof {
            use_type_invariant(&*self);
        }
        let i = self.find(section);
        let ghost s = self.sections_model();
        proof {
            lemma_assoc_find(s, section@);
        }
        if i < self.sections.len() {
            proof {
                lemma_assoc_remove(s, i as int);
            }
            let mut sections: Vec<(String, Section)> = Vec::new();
            std::mem::swap(&mut sections, &mut self.sections);
            let (_, removed) = sections.remove(i);
            assert(sections_view(sections@) =~= s.remove(i as int));
            self.sections = sections;
            Some(removed)
        } else {
            None
        }
    }
}

/// The sections without the one called `name` (unchanged when there is none).
pub open spec fn remove_key(s: SectionPairs, name: Seq<char>) -> SectionPairs {
    let i = assoc_find(s, name);
    if i >= 0 {
        s.remove(i)
    } else {
        s
    }
}

/// The open section of a parse, as characters.
pub open spec fn current_view(current: Option<(String, Section)>) -> Option<(Seq<char>, Pairs)> {
    match current {
        Some((n, s)) => Some((n@, s.entries())),
        None => None,
    }
}

/// Whether `c` is one of `set`.
fn contains_char(set: &[char], c: char) -> (r: bool)
    ensures
        r == set@.contains(c),
{
    let mut i: usize = 0;
    while i < set.len()
        invariant
            0 <= i <= set.len(),
            forall|j: int| 0 <= j < i ==> set@[j] != c,
        decreases set.len() - i,
    {
        if set[i] == c {
            return true;
        }
        i += 1;
    }
    false
}

/// Applies the line `v[start..end]` to the parse (`parse_step`).
fn self_parse_line(
    this: &mut Ini,
    current: &mut Option<(String, Section)>,
    v: &Vec<char>,
    start: usize,
    end: usize,
    comment_chars: &[char],
)
    requires
        start <= end <= v.len(),
    ensures
        (final(this).globals_model(), final(this).sections_model(), current_view(*final(current)))
            == parse_step(
            (old(this).globals_model(), old(this).sections_model(), current_view(*old(current))),
            v@.subrange(start as int, end as int),
            comment_chars@,
        ),
{
    proof {
        use_type_invariant(&*this);
    }
    let ghost line = v@.subrange(start as int, end as int);
    let mut cut = start;
    while cut < end && !contains_char(comment_chars, v[cut])
        invariant
            start <= cut <= end <= v.len(),
            forall|j: int| start <= j < cut ==> !comment_chars@.contains(v@[j]),
        decreases end - cut,
    {
        cut += 1;
    }
    proof {
        lemma_find_any_at(line, comment_chars@, cut - start);
        if cut < end {
            assert(line.take(cut - start) =~= v@.subrange(start as int, cut as int));
        } else {
            assert(line =~= v@.subrange(start as int, cut as int));
        }
    }
    let (a, b) = trim_range(v, start, cut);
    let ghost content = v@.subrange(a as int, b as int);
    assert(content == crate::ini_parser::line_content(line, comment_chars@));
    if a == b {
        return;
    }
    if v[a] == '[' && v[b - 1] == ']' {
        let name = string_of_range(v, a + 1, b - 1);
        assert(name@ =~= content.subrange(1, content.len() - 1));
        let mut previous = Some((name, Section::new()));
        std::mem::swap(&mut previous, current);
        if let Some((n, s)) = previous {
            this.insert(n, s);
        }
        return;
    }
    let e = find_char_in(v, a, b, '=');
    if e == b {
        return;
    }
    proof {
        assert(content.take(e - a) =~= v@.subrange(a as int, e as int));
        assert(content.skip(e - a + 1) =~= v@.subrange(e + 1, b as int));
    }
    let (ka, kb) = trim_range(v, a, e);
    let (va, vb) = trim_range(v, e + 1, b);
    let key = string_of_range(v, ka, kb);
    let value = string_of_range(v, va, vb);
    match current {
        Some((_, section)) => section.insert(key, value),
        None => {
            let mut globals = string_map_new();
            std::mem::swap(&mut globals, &mut this.globals);
            let _ = string_map_insert(&mut globals, key, value);
            this.globals = globals;
        },
    }
}

} // verus!
