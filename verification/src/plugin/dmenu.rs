//! Dmenu mode: choices read from the standard input, and the chosen one
//! printed back.

use vstd::prelude::*;
use crate::arguments::Protocol;
use crate::icon::{icon_model_of, icon_path_model, opt_chars, IconPath};
use crate::plugin::entry::{shows, entries_scores, matches_of, Entry};
use crate::plugin::fuzzy::{FuzzyMatcher, FuzzyPattern};
use crate::plugin::protocol::{empty_fields, entry_from, entry_of, lemma_entry_from_advances, lines_view, read_entry_from_stream, EntryFields};
use crate::plugin::{Action, Plugin};
use crate::text::{split_once, split_once_str, str_eq};

verus! {

/// A choice of dmenu mode.
#[derive(Debug)]
pub struct DmenuEntry {
    pub name: String,
    pub icon: Option<IconPath>,
    pub comment: Option<String>,
}

/// A choice seen as its name, its icon (as `icon_path_model`) and its comment.
pub open spec fn dmenu_view(e: DmenuEntry) -> (Seq<char>, Option<(bool, bool, Seq<char>)>, Option<Seq<char>>) {
    (
        e.name@,
        match e.icon {
            Some(i) => Some(icon_path_model(i)),
            None => None,
        },
        opt_chars(e.comment),
    )
}

/// The choice a line of rofi's extended dmenu protocol gives: the whole
/// line as the name, or, when the line holds a `\0`, the name before it and
/// the icon after `icon\x1f` (relative icons read against `cwd`); `None`
/// when what follows the `\0` is not an icon.
pub open spec fn rofi_entry(line: Seq<char>, cwd: Option<Seq<char>>) -> Option<(Seq<char>, Option<(bool, bool, Seq<char>)>, Option<Seq<char>>)> {
    match split_once(line, '\0') {
        Some((name, rest)) => match split_once(rest, '\x1f') {
            Some((k, icon)) => if k == "icon"@ {
                Some((name, Some(icon_model_of(icon, cwd)), None))
            } else {
                None
            },
            None => None,
        },
        None => Some((line, None, None)),
    }
}

/// The choices read from the lines from `i` on with rofi's protocol: each
/// readable line gives its choice (or none), and reading stops at the first
/// unreadable line.
pub open spec fn rofi_entries(lines: Seq<Option<Seq<char>>>, i: int, cwd: Option<Seq<char>>) -> Seq<(Seq<char>, Option<(bool, bool, Seq<char>)>, Option<Seq<char>>)>
    decreases lines.len() - i,
{
    if i < 0 || i >= lines.len() {
        Seq::empty()
    } else {
        match lines[i] {
            None => Seq::empty(),
            Some(l) => match rofi_entry(l, cwd) {
                Some(e) => seq![e] + rofi_entries(lines, i + 1, cwd),
                None => rofi_entries(lines, i + 1, cwd),
            },
        }
    }
}

/// The entries read from the lines from `i` on with the plugin protocol:
/// one entry after the other until the end of the input.
pub open spec fn keal_entries(lines: Seq<Option<Seq<char>>>, i: int) -> Seq<EntryFields>
    decreases lines.len() - i,
{
    if i < 0 || i >= lines.len() {
        Seq::empty()
    } else {
        let (f, j) = entry_from(lines, i, empty_fields());
        proof {
            lemma_entry_from_advances(lines, i, empty_fields());
        }
        seq![f] + keal_entries(lines, j)
    }
}

/// Choices seen as `dmenu_view`.
pub open spec fn dmenus_view(v: Seq<DmenuEntry>) -> Seq<(Seq<char>, Option<(bool, bool, Seq<char>)>, Option<Seq<char>>)> {
    v.map_values(|e: DmenuEntry| dmenu_view(e))
}

impl DmenuEntry {
    /// Reads a line of rofi's extended dmenu protocol (see `rofi_entry`);
    /// `cwd` is the process's working directory.
    pub fn new_from_rofi_extended(line: &str, cwd: Option<String>) -> (r: Option<Self>)
        ensures
            match rofi_entry(line@, opt_chars(cwd)) {
                Some(e) => r matches Some(d) && dmenu_view(d) == e,
                None => r is None,
            },
    {
        match split_once_str(line, '\0') {
            Some((name, rest)) => match split_once_str(rest.as_str(), '\x1f') {
                Some((k, icon)) => if str_eq(k.as_str(), "icon") {
                    Some(DmenuEntry { name, icon: Some(IconPath::new(icon, cwd)), comment: None })
                } else {
                    None
                },
                None => None,
            },
            None => Some(DmenuEntry { name: line.to_owned(), icon: None, comment: None }),
        }
    }

    /// Reads an entry of the plugin protocol from line `start` on; gives it
    /// with the index of the first line not read. `cwd` is the process's
    /// working directory.
    pub fn new_from_keal(lines: &Vec<Option<String>>, start: usize, cwd: Option<String>) -> (r: (Self, usize))
        requires
            start <= lines.len(),
        ensures
            ({
                let (f, next) = entry_from(lines_view(lines@), start as int, empty_fields());
                &&& dmenu_view(r.0) == entry_of(f, opt_chars(cwd))
                &&& r.1 == next
            }),
    {
        let (e, next) = read_entry_from_stream(lines, start, cwd);
        (DmenuEntry { name: e.name, icon: e.icon, comment: e.comment }, next)
    }
}

/// Reads all the choices of the input lines with the given protocol; `cwd`
/// is the process's working directory.
pub fn read_dmenu_entries(lines: &Vec<Option<String>>, protocol: Protocol, cwd: &Option<String>) -> (r: Vec<DmenuEntry>)
    ensures
        protocol == Protocol::RofiExtended ==> dmenus_view(r@) == rofi_entries(lines_view(lines@), 0, opt_chars(*cwd)),
        protocol == Protocol::Keal ==> dmenus_view(r@) == keal_entries(lines_view(lines@), 0).map_values(
            |f: EntryFields| entry_of(f, opt_chars(*cwd)),
        ),
{
    let ghost l = lines_view(lines@);
    let mut out: Vec<DmenuEntry> = Vec::new();
    let mut i: usize = 0;
    let ghost mut acc: Seq<(Seq<char>, Option<(bool, bool, Seq<char>)>, Option<Seq<char>>)> = Seq::empty();
    let ghost target = if protocol == Protocol::RofiExtended {
        rofi_entries(l, 0, opt_chars(*cwd))
    } else {
        keal_entries(l, 0).map_values(|f: EntryFields| entry_of(f, opt_chars(*cwd)))
    };
    proof {
        assert(dmenus_view(out@) =~= acc);
    }
    loop
        invariant_except_break
            protocol == Protocol::RofiExtended ==> acc + rofi_entries(l, i as int, opt_chars(*cwd)) == target,
            protocol == Protocol::Keal ==> acc + keal_entries(l, i as int).map_values(
                |f: EntryFields| entry_of(f, opt_chars(*cwd)),
            ) == target,
        invariant
            0 <= i <= lines.len(),
            l == lines_view(lines@),
            dmenus_view(out@) == acc,
            target == if protocol == Protocol::RofiExtended {
                rofi_entries(l, 0, opt_chars(*cwd))
            } else {
                keal_entries(l, 0).map_values(|f: EntryFields| entry_of(f, opt_chars(*cwd)))
            },
        ensures
            acc == target,
        decreases lines.len() - i,
    {
        if i >= lines.len() {
            proof {
                assert(keal_entries(l, i as int).map_values(|f: EntryFields| entry_of(f, opt_chars(*cwd))) =~= Seq::<
                    (Seq<char>, Option<(bool, bool, Seq<char>)>, Option<Seq<char>>),
                >::empty());
                assert(acc + Seq::<(Seq<char>, Option<(bool, bool, Seq<char>)>, Option<Seq<char>>)>::empty() =~= acc);
            }
            break;
        }
        assert(l[i as int] == opt_chars(lines@[i as int]));
        match protocol {
            Protocol::RofiExtended => {
                match &lines[i] {
                    None => {
                        assert(acc + Seq::<(Seq<char>, Option<(bool, bool, Seq<char>)>, Option<Seq<char>>)>::empty() =~= acc);
                        break;
                    },
                    Some(line) => {
                        match DmenuEntry::new_from_rofi_extended(line.as_str(), clone_cwd(cwd)) {
                            Some(e) => {
                                let ghost before = out@;
                                let ghost v = dmenu_view(e);
                                out.push(e);
                                proof {
                                    assert(dmenus_view(out@) =~= dmenus_view(before).push(v));
                                    assert(acc + rofi_entries(l, i as int, opt_chars(*cwd)) =~= acc.push(v) + rofi_entries(
                                        l,
                                        i + 1,
                                        opt_chars(*cwd),
                                    ));
                                    acc = acc.push(v);
                                }
                            },
                            None => {},
                        }
                        i += 1;
                    },
                }
            },
            Protocol::Keal => {
                proof {
                    lemma_entry_from_advances(l, i as int, empty_fields());
                }
                let ghost f = entry_from(l, i as int, empty_fields()).0;
                let (e, next) = DmenuEntry::new_from_keal(lines, i, clone_cwd(cwd));
                let ghost before = out@;
                let ghost v = dmenu_view(e);
                out.push(e);
                proof {
                    assert(dmenus_view(out@) =~= dmenus_view(before).push(v));
                    let ks = keal_entries(l, i as int);
                    assert(ks == seq![f] + keal_entries(l, next as int));
                    assert(ks.map_values(|f: EntryFields| entry_of(f, opt_chars(*cwd))) =~= seq![v] + keal_entries(
                        l,
                        next as int,
                    ).map_values(|f: EntryFields| entry_of(f, opt_chars(*cwd))));
                    assert(acc + (seq![v] + keal_entries(l, next as int).map_values(
                        |f: EntryFields| entry_of(f, opt_chars(*cwd)),
                    )) =~= acc.push(v) + keal_entries(l, next as int).map_values(
                        |f: EntryFields| entry_of(f, opt_chars(*cwd)),
                    ));
                    acc = acc.push(v);
                }
                i = next;
            },
        }
    }
    out
}

fn clone_cwd(cwd: &Option<String>) -> (r: Option<String>)
    ensures
        opt_chars(r) == opt_chars(*cwd),
{
    match cwd {
        Some(c) => Some(c.clone()),
        None => None,
    }
}

/// The dmenu mode's choices.
pub struct DmenuPlugin(pub Vec<DmenuEntry>);

impl DmenuPlugin {
    /// The plugin as the launcher lists it; its prefix is a character that
    /// cannot be typed, so that it is never selected by prefix.
    pub fn plugin() -> (r: Plugin)
        ensures
            r.name@ == "Dmenu"@,
            r.prefix@ == seq!['\0'],
            r.icon is None,
            r.comment is None,
    {
        Plugin {
            name: "Dmenu".to_owned(),
            prefix: crate::text::char_string('\0'),
            icon: None,
            comment: None,
            config: crate::index_map::string_map_new(),
        }
    }

    /// Prints the name of the chosen entry and closes; without a choice,
    /// prints the query.
    pub fn send_enter(&self, query: &str, idx: Option<usize>) -> (r: Action)
        requires
            idx matches Some(i) ==> i < self.0@.len(),
        ensures
            match idx {
                Some(i) => r matches Action::PrintAndClose(s) && s@ == self.0@[i as int].name@,
                None => r matches Action::PrintAndClose(s) && s@ == query@,
            },
    {
        match idx {
            Some(i) => Action::PrintAndClose(self.0[i].name.clone()),
            None => Action::PrintAndClose(query.to_owned()),
        }
    }

    /// The choices seen as names and comments.
    pub open spec fn choices(&self) -> Seq<(Seq<char>, Option<Seq<char>>)> {
        self.0@.map_values(|e: DmenuEntry| (e.name@, opt_chars(e.comment)))
    }

    /// The choices that match the query, with their scores, in order.
    pub fn get_entries<'a>(&'a self, matcher: &mut FuzzyMatcher, pattern: &FuzzyPattern) -> (r: Vec<Entry<'a>>)
        ensures
            entries_scores(r@) == matches_of(pattern@, self.choices()),
            forall|i: int|
                0 <= i < r@.len() ==> r@[i].label.index < self.0@.len() && shows(
                    r@[i],
                    self.0@[r@[i].label.index as int].name@,
                    self.0@[r@[i].label.index as int].icon,
                    opt_chars(self.0@[r@[i].label.index as int].comment),
                ),
    {
        let mut out: Vec<Entry<'a>> = Vec::new();
        let mut index: usize = 0;
        let ghost ch = self.choices();
        while index < self.0.len()
            invariant
                0 <= index <= self.0@.len(),
                ch == self.choices(),
                ch.len() == self.0@.len(),
                entries_scores(out@) == matches_of(pattern@, ch.take(index as int)),
                forall|i: int|
                    0 <= i < out@.len() ==> out@[i].label.index < index && shows(
                        out@[i],
                        self.0@[out@[i].label.index as int].name@,
                        self.0@[out@[i].label.index as int].icon,
                        opt_chars(self.0@[out@[i].label.index as int].comment),
                    ),
            decreases self.0@.len() - index,
        {
            let entry = &self.0[index];
            let ghost before = out@;
            assert(ch.take(index + 1).drop_last() =~= ch.take(index as int));
            let comment = match &entry.comment {
                Some(c) => Some(c.as_str()),
                None => None,
            };
            assert(ch[index as int] == (entry.name@, crate::plugin::entry::opt_str(comment)));
            match Entry::new(matcher, pattern, entry.name.as_str(), entry.icon.as_ref(), comment, index) {
                Some(e) => {
                    out.push(e);
                    assert(entries_scores(out@) =~= entries_scores(before).push((index as int, e.score as int)));
                },
                None => {},
            }
            index += 1;
        }
        assert(ch.take(self.0@.len() as int) =~= ch);
        out
    }

    /// The name of the choice at `index`.
    pub fn get_name(&self, index: usize) -> (r: &str)
        requires
            index < self.0@.len(),
        ensures
            r@ == self.0@[index as int].name@,
    {
        self.0[index].name.as_str()
    }
}

} // verus!
