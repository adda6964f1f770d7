//! The session manager plugin: log out, suspend, hibernate, reboot and
//! power off, each by a configurable shell command.

use vstd::prelude::*;
use indexmap::IndexMap;
use crate::assoc::{assoc_get, lemma_assoc_find};
use crate::icon::IconPath;
use crate::index_map::{string_map_entries, string_map_get, string_map_insert, string_map_new};
use crate::plugin::entry::{shows, entries_scores, entry_score, kept, matches_of, Entry};
use crate::plugin::fuzzy::{FuzzyMatcher, FuzzyPattern};
use crate::plugin::{Action, CommandSpec, Plugin};
use crate::text::str_eq;

verus! {

/// The command that logs out of the desktop session `desktop` (the value of
/// `XDG_CURRENT_DESKTOP`, if set). For an unknown desktop, `swaymsg exit`
/// when `SWAYSOCK` is set, else nothing.
pub open spec fn log_out_spec(desktop: Option<Seq<char>>, swaysock: bool) -> Seq<char> {
    match desktop {
        None => Seq::empty(),
        Some(d) => if d == "Unity"@ || d == "Pantheon"@ || d == "GNOME"@ {
            "gnome-session-quit --logout"@
        } else if d == "niri"@ || d == "Niri"@ {
            "niri msg action quit"@
        } else if d == "sway"@ || d == "Sway"@ {
            "swaymsg exit"@
        } else if d == "kde-plasma"@ || d == "KDE"@ {
            "qdbus org.kde.ksmserver /KSMServer logout 0 0 0"@
        } else if d == "X-Cinnamon"@ || d == "Cinnamon"@ {
            "cinnamon-session-quit --logout"@
        } else if d == "MATE"@ {
            "mate-session-save --logout-dialog"@
        } else if d == "XFCE"@ {
            "xfce4-session-logout --logout"@
        } else if swaysock {
            "swaymsg exit"@
        } else {
            Seq::empty()
        },
    }
}

/// The log out command for the desktop session (see `log_out_spec`).
pub fn log_out_command(desktop: Option<&str>, swaysock: bool) -> (r: String)
    ensures
        r@ == log_out_spec(
            match desktop {
                Some(d) => Some(d@),
                None => None,
            },
            swaysock,
        ),
{
    let d = match desktop {
        None => return String::new(),
        Some(d) => d,
    };
    if str_eq(d, "Unity") || str_eq(d, "Pantheon") || str_eq(d, "GNOME") {
        "gnome-session-quit --logout".to_owned()
    } else if str_eq(d, "niri") || str_eq(d, "Niri") {
        "niri msg action quit".to_owned()
    } else if str_eq(d, "sway") || str_eq(d, "Sway") {
        "swaymsg exit".to_owned()
    } else if str_eq(d, "kde-plasma") || str_eq(d, "KDE") {
        "qdbus org.kde.ksmserver /KSMServer logout 0 0 0".to_owned()
    } else if str_eq(d, "X-Cinnamon") || str_eq(d, "Cinnamon") {
        "cinnamon-session-quit --logout".to_owned()
    } else if str_eq(d, "MATE") {
        "mate-session-save --logout-dialog".to_owned()
    } else if str_eq(d, "XFCE") {
        "xfce4-session-logout --logout".to_owned()
    } else if swaysock {
        "swaymsg exit".to_owned()
    } else {
        String::new()
    }
}

/// The configuration keys of the session manager and the names of their
/// choices, in order.
pub open spec fn session_keys() -> Seq<(Seq<char>, Seq<char>)> {
    seq![
        ("log_out"@, "Log Out"@),
        ("suspend"@, "Suspend"@),
        ("hibernate"@, "Hibernate"@),
        ("reboot"@, "Reboot"@),
        ("poweroff"@, "Power off"@),
    ]
}

/// The default configuration of the session manager: the log out command,
/// then `systemctl` for the others.
pub fn session_config(log_out: String) -> (r: IndexMap<String, String>)
    ensures
        string_map_entries(r) == seq![
            ("log_out"@, log_out@),
            ("suspend"@, "systemctl suspend"@),
            ("hibernate"@, "systemctl hibernate"@),
            ("reboot"@, "systemctl reboot"@),
            ("poweroff"@, "systemctl poweroff"@),
        ],
{
    proof {
        lemma_session_keys_distinct();
    }
    let ghost k = session_keys();
    let mut m = string_map_new();
    let ghost e0 = string_map_entries(m);
    let _ = string_map_insert(&mut m, "log_out".to_owned(), log_out);
    proof {
        lemma_assoc_find(e0, k[0].0);
        assert(string_map_entries(m) =~= seq![(k[0].0, log_out@)]);
    }
    let ghost e1 = string_map_entries(m);
    let _ = string_map_insert(&mut m, "suspend".to_owned(), "systemctl suspend".to_owned());
    proof {
        lemma_assoc_find(e1, k[1].0);
        assert(string_map_entries(m) =~= e1.push((k[1].0, "systemctl suspend"@)));
    }
    let ghost e2 = string_map_entries(m);
    let _ = string_map_insert(&mut m, "hibernate".to_owned(), "systemctl hibernate".to_owned());
    proof {
        lemma_assoc_find(e2, k[2].0);
        assert(string_map_entries(m) =~= e2.push((k[2].0, "systemctl hibernate"@)));
    }
    let ghost e3 = string_map_entries(m);
    let _ = string_map_insert(&mut m, "reboot".to_owned(), "systemctl reboot".to_owned());
    proof {
        lemma_assoc_find(e3, k[3].0);
        assert(string_map_entries(m) =~= e3.push((k[3].0, "systemctl reboot"@)));
    }
    let ghost e4 = string_map_entries(m);
    let _ = string_map_insert(&mut m, "poweroff".to_owned(), "systemctl poweroff".to_owned());
    proof {
        lemma_assoc_find(e4, k[4].0);
        assert(string_map_entries(m) =~= e4.push((k[4].0, "systemctl poweroff"@)));
    }
    m
}

/// The configuration keys of the session manager are distinct.
proof fn lemma_session_keys_distinct()
    ensures
        forall|i: int, j: int| 0 <= i < j < 5 ==> session_keys()[i].0 != session_keys()[j].0,
        session_keys()[0].0 == "log_out"@,
        session_keys()[1].0 == "suspend"@,
        session_keys()[2].0 == "hibernate"@,
        session_keys()[3].0 == "reboot"@,
        session_keys()[4].0 == "poweroff"@,
{
    reveal_strlit("log_out");
    reveal_strlit("suspend");
    reveal_strlit("hibernate");
    reveal_strlit("reboot");
    reveal_strlit("poweroff");
    assert("log_out"@[0] != "suspend"@[0]);
    assert("log_out"@.len() != "hibernate"@.len());
    assert("log_out"@.len() != "reboot"@.len());
    assert("log_out"@[0] != "poweroff"@[0]);
    assert("suspend"@.len() != "hibernate"@.len());
    assert("suspend"@.len() != "reboot"@.len());
    assert("suspend"@.len() != "poweroff"@.len());
    assert("hibernate"@.len() != "reboot"@.len());
    assert("hibernate"@.len() != "poweroff"@.len());
    assert("reboot"@.len() != "poweroff"@.len());
}

/// The session manager as the launcher lists it: named "Session Manager",
/// selected by the prefix `sm`, without an icon, with its comment and the
/// default configuration for the log out command `log_out`.
pub fn session_plugin(log_out: String) -> (r: Plugin)
    ensures
        r.name@ == "Session Manager"@,
        r.prefix@ == "sm"@,
        r.icon is None,
        r.comment matches Some(c) && c@ == "Manage current session"@,
        string_map_entries(r.config) == seq![
            ("log_out"@, log_out@),
            ("suspend"@, "systemctl suspend"@),
            ("hibernate"@, "systemctl hibernate"@),
            ("reboot"@, "systemctl reboot"@),
            ("poweroff"@, "systemctl poweroff"@),
        ],
{
    Plugin {
        name: "Session Manager".to_owned(),
        prefix: "sm".to_owned(),
        icon: None,
        comment: Some("Manage current session".to_owned()),
        config: session_config(log_out),
    }
}

/// A choice of the session manager.
#[derive(Debug)]
pub struct SessionEntry {
    pub name: String,
    pub icon: Option<IconPath>,
    pub command: String,
}

/// The session manager's choices.
pub struct SessionPlugin(pub Vec<SessionEntry>);

/// The choices that a configuration gives: one per key of `session_keys`, in
/// order, for each key whose command is not empty.
pub open spec fn session_choices(config: Seq<(Seq<char>, Seq<char>)>, k: int) -> Seq<(Seq<char>, Seq<char>)>
    decreases k,
{
    if k <= 0 {
        Seq::empty()
    } else {
        let prev = session_choices(config, k - 1);
        let key = session_keys()[k - 1];
        match assoc_get(config, key.0) {
            Some(c) => if c.len() > 0 {
                prev.push((key.1, c))
            } else {
                prev
            },
            None => prev,
        }
    }
}

/// The choices seen as names and commands.
pub open spec fn session_view(v: Seq<SessionEntry>) -> Seq<(Seq<char>, Seq<char>)> {
    v.map_values(|e: SessionEntry| (e.name@, e.command@))
}

impl SessionPlugin {
    /// The choices of a configuration: for each of log out, suspend,
    /// hibernate, reboot and power off whose command is not empty, a choice
    /// that runs it. Every key must be in the configuration.
    pub fn from_config(config: &IndexMap<String, String>) -> (r: Self)
        requires
            forall|k: int| 0 <= k < 5 ==> assoc_get(string_map_entries(*config), #[trigger] session_keys()[k].0) is Some,
        ensures
            session_view(r.0@) == session_choices(string_map_entries(*config), 5),
            forall|i: int| 0 <= i < r.0@.len() ==> r.0@[i].icon is None,
    {
        let ghost cfg = string_map_entries(*config);
        let mut entries: Vec<SessionEntry> = Vec::new();
        proof {
            reveal_strlit("log_out");
            reveal_strlit("suspend");
            reveal_strlit("hibernate");
            reveal_strlit("reboot");
            reveal_strlit("poweroff");
            reveal_strlit("Log Out");
            reveal_strlit("Suspend");
            reveal_strlit("Hibernate");
            reveal_strlit("Reboot");
            reveal_strlit("Power off");
            assert(session_view(entries@) =~= session_choices(cfg, 0));
        }
        assert(assoc_get(cfg, session_keys()[0].0) is Some);
        Self::add(&mut entries, config, "Log Out", "log_out", 0);
        assert(assoc_get(cfg, session_keys()[1].0) is Some);
        Self::add(&mut entries, config, "Suspend", "suspend", 1);
        assert(assoc_get(cfg, session_keys()[2].0) is Some);
        Self::add(&mut entries, config, "Hibernate", "hibernate", 2);
        assert(assoc_get(cfg, session_keys()[3].0) is Some);
        Self::add(&mut entries, config, "Reboot", "reboot", 3);
        assert(assoc_get(cfg, session_keys()[4].0) is Some);
        Self::add(&mut entries, config, "Power off", "poweroff", 4);
        SessionPlugin(entries)
    }

    fn add(entries: &mut Vec<SessionEntry>, config: &IndexMap<String, String>, name: &str, id: &str, k: usize)
        requires
            k < 5,
            session_keys()[k as int] == (id@, name@),
            session_view(old(entries)@) == session_choices(string_map_entries(*config), k as int),
            assoc_get(string_map_entries(*config), id@) is Some,
            forall|i: int| 0 <= i < old(entries)@.len() ==> old(entries)@[i].icon is None,
        ensures
            session_view(final(entries)@) == session_choices(string_map_entries(*config), k + 1),
            forall|i: int| 0 <= i < final(entries)@.len() ==> final(entries)@[i].icon is None,
    {
        match string_map_get(config, id) {
            Some(command) => {
                if !command.as_str().is_empty() {
                    let ghost before = entries@;
                    entries.push(SessionEntry { name: name.to_owned(), icon: None, command: command.clone() });
                    assert(session_view(entries@) =~= session_view(before).push((name@, command@)));
                }
            },
            None => {},
        }
    }

    /// The choices seen as names without comments.
    pub closed spec fn choices(&self) -> Seq<(Seq<char>, Option<Seq<char>>)> {
        self.0@.map_values(|e: SessionEntry| (e.name@, None::<Seq<char>>))
    }

    /// Runs the command of the chosen entry with `sh -c`; nothing without a
    /// choice.
    pub fn send_enter(&self, idx: Option<usize>) -> (r: Action)
        requires
            idx matches Some(i) ==> i < self.0@.len(),
        ensures
            match idx {
                None => r is Nothing,
                Some(i) => r matches Action::Exec(c) && c.program@ == "sh"@ && c.args@.len() == 2
                    && c.args@[0]@ == "-c"@ && c.args@[1]@ == self.0@[i as int].command@ && c.current_dir
                    is None,
            },
    {
        match idx {
            None => Action::Nothing,
            Some(i) => {
                let mut args: Vec<String> = Vec::new();
                args.push("-c".to_owned());
                args.push(self.0[i].command.clone());
                Action::Exec(CommandSpec { program: "sh".to_owned(), args, current_dir: None })
            },
        }
    }

    /// The choices that match the query, with their scores, in order.
    pub fn get_entries<'a>(&'a self, matcher: &mut FuzzyMatcher, pattern: &FuzzyPattern) -> (r: Vec<Entry<'a>>)
        ensures
            entries_scores(r@) == matches_of(pattern@, self.choices()),
            forall|i: int|
                0 <= i < r@.len() ==> r@[i].label.index < self.0@.len() && shows(
                    r@[i],
                    self.0@[r@[i].label.index as int].name@,
                    self.0@[r@[i].label.index as int].icon,
                    None::<Seq<char>>,
                ),
    {
        let mut out: Vec<Entry<'a>> = Vec::new();
        let mut index: usize = 0;
        let ghost ch = self.choices();
        while index < self.0.len()
            invariant
                0 <= index <= self.0@.len(),
                ch == self.choices(),
                ch.len() == self.0@.len(),
                entries_scores(out@) == matches_of(pattern@, ch.take(index as int)),
                forall|i: int|
                    0 <= i < out@.len() ==> out@[i].label.index < index && shows(
                        out@[i],
                        self.0@[out@[i].label.index as int].name@,
                        self.0@[out@[i].label.index as int].icon,
                        None::<Seq<char>>,
                    ),
            decreases self.0@.len() - index,
        {
            let entry = &self.0[index];
            let ghost before = out@;
            assert(ch.take(index + 1).drop_last() =~= ch.take(index as int));
            assert(ch[index as int] == (entry.name@, None::<Seq<char>>));
            match Entry::new(matcher, pattern, entry.name.as_str(), entry.icon.as_ref(), None, index) {
                Some(e) => {
                    out.push(e);
                    assert(entries_scores(out@) =~= entries_scores(before).push((index as int, e.score as int)));
                },
                None => {},
            }
            index += 1;
        }
        assert(ch.take(self.0@.len() as int) =~= ch);
        out
    }

    /// The name of the choice at `index`.
    pub fn get_name(&self, index: usize) -> (r: &str)
        requires
            index < self.0@.len(),
        ensures
            r@ == self.0@[index as int].name@,
    {
        self.0[index].name.as_str()
    }
}

} // verus!
