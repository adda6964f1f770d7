//! The list plugin: one choice per loaded plugin, which types its prefix.

use vstd::prelude::*;
use crate::icon::{opt_chars, IconPath};
use crate::plugin::entry::{shows, entries_scores, matches_of, Entry};
use crate::plugin::fuzzy::{FuzzyMatcher, FuzzyPattern};
use crate::plugin::{Action, Plugin};

verus! {

/// A choice of the list plugin: a plugin's prefix, icon and description.
#[derive(Debug)]
pub struct ListEntry {
    pub name: String,
    pub icon: Option<IconPath>,
    pub comment: Option<String>,
}

/// The description of a plugin in the list: its name, followed by its
/// comment in parentheses when it has one.
pub open spec fn description(name: Seq<char>, comment: Option<Seq<char>>) -> Seq<char> {
    match comment {
        Some(c) => name + " ("@ + c + ")"@,
        None => name,
    }
}

/// Whether `e` is the choice that lists plugin `p`: its prefix, its icon,
/// and its description.
pub open spec fn lists_plugin(e: ListEntry, p: Plugin) -> bool {
    &&& e.name@ == p.prefix@
    &&& e.icon == p.icon
    &&& e.comment matches Some(c) && c@ == description(p.name@, opt_chars(p.comment))
}

/// The list plugin's choices.
pub struct ListPlugin(pub Vec<ListEntry>);

impl ListPlugin {
    /// The plugin as the launcher lists it.
    pub fn plugin() -> (r: Plugin)
        ensures
            r.name@ == "List"@,
            r.prefix@ == "ls"@,
            r.icon is None,
            r.comment matches Some(c) && c@ == "List loaded keal plugins"@,
    {
        Plugin {
            name: "List".to_owned(),
            prefix: "ls".to_owned(),
            icon: None,
            comment: Some("List loaded keal plugins".to_owned()),
            config: crate::index_map::string_map_new(),
        }
    }

    /// One choice per plugin, in order: its prefix, its icon, and its
    /// description.
    pub fn from_plugins(plugins: &Vec<Plugin>) -> (r: Self)
        ensures
            r.0@.len() == plugins@.len(),
            forall|i: int| 0 <= i < plugins@.len() ==> lists_plugin(#[trigger] r.0@[i], plugins@[i]),
    {
        let mut entries: Vec<ListEntry> = Vec::new();
        let mut i: usize = 0;
        while i < plugins.len()
            invariant
                0 <= i <= plugins.len(),
                entries@.len() == i,
                forall|k: int| 0 <= k < i ==> lists_plugin(#[trigger] entries@[k], plugins@[k]),
            decreases plugins.len() - i,
        {
            let p = &plugins[i];
            let comment = match &p.comment {
                Some(c) => {
                    let mut d = crate::utf8_text::concat3(p.name.as_str(), " (", c.as_str());
                    d.append(")");
                    d
                },
                None => p.name.clone(),
            };
            let icon = match &p.icon {
                Some(ic) => Some(ic.duplicate()),
                None => None,
            };
            let ghost before = entries@;
            entries.push(ListEntry { name: p.prefix.clone(), icon, comment: Some(comment) });
            proof {
                assert forall|k: int| 0 <= k < i + 1 implies lists_plugin(#[trigger] entries@[k], plugins@[k]) by {
                    if k < i {
                        assert(entries@[k] == before[k]);
                    }
                }
            }
            i += 1;
        }
        ListPlugin(entries)
    }

    /// Types the prefix of the chosen plugin, followed by a space; nothing
    /// without a choice.
    pub fn send_enter(&self, idx: Option<usize>) -> (r: Action)
        requires
            idx matches Some(i) ==> i < self.0@.len(),
        ensures
            match idx {
                Some(i) => r matches Action::ChangeInput(s) && s@ == self.0@[i as int].name@ + " "@,
                None => r is Nothing,
            },
    {
        match idx {
            Some(i) => {
                let mut s = self.0[i].name.clone();
                s.append(" ");
                Action::ChangeInput(s)
            },
            None => Action::Nothing,
        }
    }

    /// The choices seen as names and comments.
    pub open spec fn choices(&self) -> Seq<(Seq<char>, Option<Seq<char>>)> {
        self.0@.map_values(|e: ListEntry| (e.name@, opt_chars(e.comment)))
    }

    /// The choices that match the query, with their scores, in order.
    pub fn get_entries<'a>(&'a self, matcher: &mut FuzzyMatcher, pattern: &FuzzyPattern) -> (r: Vec<Entry<'a>>)
        ensures
            entries_scores(r@) == matches_of(pattern@, self.choices()),
            forall|i: int|
                0 <= i < r@.len() ==> r@[i].label.index < self.0@.len() && shows(
                    r@[i],
                    self.0@[r@[i].label.index as int].name@,
                    self.0@[r@[i].label.index as int].icon,
                    opt_chars(self.0@[r@[i].label.index as int].comment),
                ),
    {
        let mut out: Vec<Entry<'a>> = Vec::new();
        let mut index: usize = 0;
        let ghost ch = self.choices();
        while index < self.0.len()
            invariant
                0 <= index <= self.0@.len(),
                ch == self.choices(),
                ch.len() == self.0@.len(),
                entries_scores(out@) == matches_of(pattern@, ch.take(index as int)),
                forall|i: int|
                    0 <= i < out@.len() ==> out@[i].label.index < index && shows(
                        out@[i],
                        self.0@[out@[i].label.index as int].name@,
                        self.0@[out@[i].label.index as int].icon,
                        opt_chars(self.0@[out@[i].label.index as int].comment),
                    ),
            decreases self.0@.len() - index,
        {
            let entry = &self.0[index];
            let ghost before = out@;
            assert(ch.take(index + 1).drop_last() =~= ch.take(index as int));
            let comment = match &entry.comment {
                Some(c) => Some(c.as_str()),
                None => None,
            };
            assert(ch[index as int] == (entry.name@, crate::plugin::entry::opt_str(comment)));
            match Entry::new(matcher, pattern, entry.name.as_str(), entry.icon.as_ref(), comment, index) {
                Some(e) => {
                    out.push(e);
                    assert(entries_scores(out@) =~= entries_scores(before).push((index as int, e.score as int)));
                },
                None => {},
            }
            index += 1;
        }
        assert(ch.take(self.0@.len() as int) =~= ch);
        out
    }

    /// The name of the choice at `index`.
    pub fn get_name(&self, index: usize) -> (r: &str)
        requires
            index < self.0@.len(),
        ensures
            r@ == self.0@[index as int].name@,
    {
        self.0[index].name.as_str()
    }
}

} // verus!
