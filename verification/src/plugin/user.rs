//! Plugins written by the user: a directory with a `config.ini` and an
//! executable that speaks the line protocol.

use vstd::prelude::*;
use crate::assoc::assoc_get;
use crate::icon::{icon_model_of, joined_path, path_join, IconPath};
use crate::index_map::{string_map_entries, string_map_new};
use crate::ini_parser::{Ini, Pairs, SectionPairs};
use crate::plugin::entry::{shows, entries_scores, matches_of, Entry};
use crate::plugin::fuzzy::{FuzzyMatcher, FuzzyPattern};
use crate::plugin::protocol::{apply_update, ActionLine, PluginEntry, PluginEvents, ProtocolError};
use crate::plugin::{plugin_view, Action, Plugin};

verus! {

/// What a plugin's `config.ini` declares, read from its sections: the name,
/// prefix and executable are required in `[plugin]`, the icon (relative to
/// the plugin's directory) and comment are optional; `[config]` gives the
/// options with their default values. The executable is relative to the
/// plugin's directory.
pub open spec fn user_plugin_spec(sections: SectionPairs, dir: Seq<char>) -> Option<
    (Seq<char>, Option<(bool, bool, Seq<char>)>, Option<Seq<char>>, Seq<char>, Pairs, Seq<char>),
> {
    match assoc_get(sections, "plugin"@) {
        None => None,
        Some(p) => match (assoc_get(p, "exec"@), assoc_get(p, "name"@), assoc_get(p, "prefix"@)) {
            (Some(exec), Some(name), Some(prefix)) => Some(
                (
                    name,
                    match assoc_get(p, "icon"@) {
                        Some(i) => Some(icon_model_of(i, Some(dir))),
                        None => None,
                    },
                    assoc_get(p, "comment"@),
                    prefix,
                    match assoc_get(sections, "config"@) {
                        Some(c) => c,
                        None => Seq::empty(),
                    },
                    joined_path(dir, exec),
                ),
            ),
            _ => None,
        },
    }
}

fn cloned(o: Option<&String>) -> (r: Option<String>)
    ensures
        match o {
            Some(s) => r == Some(*s),
            None => r is None,
        },
{
    match o {
        Some(s) => Some(s.clone()),
        None => None,
    }
}

/// Reads the `config.ini` of the plugin in directory `dir`: the plugin, and
/// the path of its executable; `None` when `[plugin]` lacks a name, a
/// prefix or an executable.
pub fn user_plugin(ini: Ini, dir: &str) -> (r: Option<(Plugin, String)>)
    ensures
        match user_plugin_spec(ini.sections_model(), dir@) {
            Some((name, icon, comment, prefix, config, exec)) => r matches Some((p, e)) && plugin_view(p)
                == (name, icon, comment, prefix, config) && e@ == exec,
            None => r is None,
        },
{
    let mut ini = ini;
    let ghost sections = ini.sections_model();
    proof {
        reveal_strlit("config");
        reveal_strlit("plugin");
        assert("config"@ != "plugin"@) by {
            assert("config"@[0] != "plugin"@[0]);
        }
    }
    let config = match ini.remove_section("config") {
        Some(c) => c.into_map(),
        None => string_map_new(),
    };
    let plugin = match ini.remove_section("plugin") {
        Some(p) => p,
        None => return None,
    };
    let exec = match cloned(plugin.get("exec")) {
        Some(e) => e,
        None => return None,
    };
    let name = match cloned(plugin.get("name")) {
        Some(n) => n,
        None => return None,
    };
    let prefix = match cloned(plugin.get("prefix")) {
        Some(p) => p,
        None => return None,
    };
    let icon = match cloned(plugin.get("icon")) {
        Some(i) => Some(IconPath::new(i, Some(dir.to_owned()))),
        None => None,
    };
    let comment = cloned(plugin.get("comment"));
    let exec_path = path_join(dir, exec.as_str());
    Some((Plugin { name, icon, comment, prefix, config }, exec_path))
}

/// A running user plugin, as the launcher knows it: its choices, the events
/// it listens for, and its directory (against which its icons resolve).
pub struct UserPlugin {
    pub entries: Vec<PluginEntry>,
    pub events: PluginEvents,
    pub cwd: String,
}

/// What an action line does to the choices: `update_all` replaces them with
/// the choice list that follows, `update:<i>` replaces the one at `i` with the
/// (last) entry of the list that follows.
impl UserPlugin {
    /// Carries out an action line of the plugin; `list` is the choice list
    /// that followed it (empty for actions without one). Gives the action for
    /// the launcher, or the protocol error for an `update` without a choice
    /// or past the last choice.
    pub fn apply_action(&mut self, action: ActionLine, list: Vec<PluginEntry>) -> (r: Result<Action, ProtocolError>)
        ensures
            final(self).events == old(self).events,
            final(self).cwd == old(self).cwd,
            match action {
                ActionLine::ChangeInput(v) => r matches Ok(Action::ChangeInput(w)) && w == v
                    && final(self).entries@ == old(self).entries@,
                ActionLine::ChangeQuery(v) => r matches Ok(Action::ChangeQuery(w)) && w == v
                    && final(self).entries@ == old(self).entries@,
                ActionLine::Fork => r matches Ok(Action::Fork) && final(self).entries@ == old(self).entries@,
                ActionLine::WaitAndClose => r matches Ok(Action::WaitAndClose) && final(self).entries@
                    == old(self).entries@,
                ActionLine::Nothing => r matches Ok(Action::Nothing) && final(self).entries@
                    == old(self).entries@,
                ActionLine::UpdateAll => r matches Ok(Action::Nothing) && final(self).entries@ == list@,
                ActionLine::Update(i) => if list@.len() == 0 {
                    r matches Err(ProtocolError::EmptyUpdate) && final(self).entries@ == old(self).entries@
                } else if i >= old(self).entries@.len() {
                    r matches Err(ProtocolError::IndexOutOfRange(j)) && j == i && final(self).entries@
                        == old(self).entries@
                } else {
                    r matches Ok(Action::Nothing) && final(self).entries@ == old(self).entries@.update(
                        i as int,
                        list@.last(),
                    )
                },
            },
    {
        match action {
            ActionLine::ChangeInput(v) => Ok(Action::ChangeInput(v)),
            ActionLine::ChangeQuery(v) => Ok(Action::ChangeQuery(v)),
            ActionLine::Fork => Ok(Action::Fork),
            ActionLine::WaitAndClose => Ok(Action::WaitAndClose),
            ActionLine::Nothing => Ok(Action::Nothing),
            ActionLine::UpdateAll => {
                self.entries = list;
                Ok(Action::Nothing)
            },
            ActionLine::Update(i) => match apply_update(&mut self.entries, i, list) {
                Ok(()) => Ok(Action::Nothing),
                Err(e) => Err(e),
            },
        }
    }

    /// The choices seen as names and comments.
    pub open spec fn choices(&self) -> Seq<(Seq<char>, Option<Seq<char>>)> {
        self.entries@.map_values(|e: PluginEntry| (e.name@, opt_chars_of(e.comment)))
    }

    /// The choices that match the query, with their scores, in order.
    pub fn get_entries<'a>(&'a self, matcher: &mut FuzzyMatcher, pattern: &FuzzyPattern) -> (r: Vec<Entry<'a>>)
        ensures
            entries_scores(r@) == matches_of(pattern@, self.choices()),
            forall|i: int|
                0 <= i < r@.len() ==> r@[i].label.index < self.entries@.len() && shows(
                    r@[i],
                    self.entries@[r@[i].label.index as int].name@,
                    self.entries@[r@[i].label.index as int].icon,
                    opt_chars_of(self.entries@[r@[i].label.index as int].comment),
                ),
    {
        let mut out: Vec<Entry<'a>> = Vec::new();
        let mut index: usize = 0;
        let ghost ch = self.choices();
        while index < self.entries.len()
            invariant
                0 <= index <= self.entries@.len(),
                ch == self.choices(),
                ch.len() == self.entries@.len(),
                entries_scores(out@) == matches_of(pattern@, ch.take(index as int)),
                forall|i: int|
                    0 <= i < out@.len() ==> out@[i].label.index < index && shows(
                        out@[i],
                        self.entries@[out@[i].label.index as int].name@,
                        self.entries@[out@[i].label.index as int].icon,
                        opt_chars_of(self.entries@[out@[i].label.index as int].comment),
                    ),
            decreases self.entries@.len() - index,
        {
            let entry = &self.entries[index];
            let ghost before = out@;
            assert(ch.take(index + 1).drop_last() =~= ch.take(index as int));
            let comment = match &entry.comment {
                Some(c) => Some(c.as_str()),
                None => None,
            };
            assert(ch[index as int] == (entry.name@, crate::plugin::entry::opt_str(comment)));
            match Entry::new(matcher, pattern, entry.name.as_str(), entry.icon.as_ref(), comment, index) {
                Some(e) => {
                    out.push(e);
                    assert(entries_scores(out@) =~= entries_scores(before).push((index as int, e.score as int)));
                },
                None => {},
            }
            index += 1;
        }
        assert(ch.take(self.entries@.len() as int) =~= ch);
        out
    }

    /// The name of the choice at `index`.
    pub fn get_name(&self, index: usize) -> (r: &str)
        requires
            index < self.entries@.len(),
        ensures
            r@ == self.entries@[index as int].name@,
    {
        self.entries[index].name.as_str()
    }
}

/// An optional string seen as characters.
pub open spec fn opt_chars_of(o: Option<String>) -> Option<Seq<char>> {
    match o {
        Some(s) => Some(s@),
        None => None,
    }
}

} // verus!
