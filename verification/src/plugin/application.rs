//! The applications plugin: the `.desktop` files of the system, and the
//! commands they launch.

use vstd::prelude::*;
use crate::assoc::assoc_get;
use crate::icon::{icon_model_of, icon_path_model, opt_chars, IconPath};
use crate::ini_parser::{Ini, Pairs, SectionPairs};
use crate::plugin::entry::{shows, Entry, Label};
use crate::plugin::fuzzy::{nucleo_score, FuzzyMatcher, FuzzyPattern};
use crate::plugin::manager::PluginIndex;
use crate::plugin::{Action, CommandSpec, Plugin};
use crate::text::{chars_of, split, split_char, str_eq, string_of};

verus! {

/// Whether one of the non-empty `;`-separated desktop names of `list` is in
/// `current`.
pub open spec fn shows_in(list: Seq<char>, current: Seq<Seq<char>>) -> bool {
    exists|j: int|
        0 <= j < split_char(list, ';').len() && split_char(list, ';')[j].len() > 0 && current.contains(
            #[trigger] split_char(list, ';')[j],
        )
}

/// What a `%` code of an `Exec` key expands to: `%%` a percent sign, `%i`
/// `--icon` and the icon (when it has a non-empty name or path), `%c` the
/// name, `%k` the location of the file; the other codes expand to nothing.
pub open spec fn exec_code(c: char, name: Seq<char>, location: Seq<char>, icon: Option<(bool, bool, Seq<char>)>) -> Seq<char> {
    if c == '%' {
        seq!['%']
    } else if c == 'i' {
        match icon {
            Some((_, _, p)) => if p.len() > 0 {
                "--icon "@ + p
            } else {
                Seq::empty()
            },
            None => Seq::empty(),
        }
    } else if c == 'c' {
        name
    } else if c == 'k' {
        location
    } else {
        Seq::empty()
    }
}

/// The command line of an `Exec` key with its `%` codes expanded; a `%` at
/// the very end is dropped.
pub open spec fn exec_expand(s: Seq<char>, name: Seq<char>, location: Seq<char>, icon: Option<(bool, bool, Seq<char>)>) -> Seq<char>
    decreases s.len(),
{
    if s.len() == 0 {
        Seq::empty()
    } else if s[0] == '%' {
        if s.len() == 1 {
            Seq::empty()
        } else {
            exec_code(s[1], name, location, icon) + exec_expand(s.skip(2), name, location, icon)
        }
    } else {
        seq![s[0]] + exec_expand(s.skip(1), name, location, icon)
    }
}

/// An optional icon path seen as `icon_path_model`.
pub open spec fn opt_icon(i: Option<IconPath>) -> Option<(bool, bool, Seq<char>)> {
    match i {
        Some(p) => Some(icon_path_model(p)),
        None => None,
    }
}

/// Expands the `%` codes of the `Exec` key of a desktop file (see
/// `exec_expand`); `location` is the path of the file.
pub fn parse_exec_key(exec_key: String, name: &str, location: &str, icon: Option<&IconPath>) -> (r: String)
    ensures
        r@ == exec_expand(
            exec_key@,
            name@,
            location@,
            match icon {
                Some(p) => Some(icon_path_model(*p)),
                None => None,
            },
        ),
{
    let ghost ic = match icon {
        Some(p) => Some(icon_path_model(*p)),
        None => None,
    };
    let v = chars_of(exec_key.as_str());
    let mut out: Vec<char> = Vec::new();
    let mut i: usize = 0;
    assert(v@.skip(0) =~= v@);
    assert(out@ + exec_expand(v@, name@, location@, ic) =~= exec_expand(v@, name@, location@, ic));
    while i < v.len()
        invariant
            0 <= i <= v.len(),
            ic == match icon {
                Some(p) => Some(icon_path_model(*p)),
                None => None,
            },
            out@ + exec_expand(v@.skip(i as int), name@, location@, ic) == exec_expand(v@, name@, location@, ic),
        decreases v.len() - i,
    {
        let ghost rest = v@.skip(i as int);
        let c = v[i];
        if c != '%' {
            out.push(c);
            proof {
                assert(rest.skip(1) =~= v@.skip(i + 1));
                assert(out@ + exec_expand(v@.skip(i + 1), name@, location@, ic) =~= out@.drop_last() + (seq![c]
                    + exec_expand(rest.skip(1), name@, location@, ic)));
            }
            i += 1;
        } else if i + 1 >= v.len() {
            proof {
                assert(rest =~= seq!['%']);
                assert(v@.skip(i + 1) =~= Seq::<char>::empty());
            }
            i += 1;
        } else {
            let code = v[i + 1];
            let ghost before = out@;
            let expansion = exec_code_exec(code, name, location, icon);
            let ev = chars_of(expansion.as_str());
            assert(ev@ == exec_code(code, name@, location@, ic));
            let mut k: usize = 0;
            while k < ev.len()
                invariant
                    0 <= k <= ev.len(),
                    out@ == before + ev@.take(k as int),
                    ev@ == exec_code(code, name@, location@, ic),
                decreases ev.len() - k,
            {
                out.push(ev[k]);
                assert(ev@.take(k + 1) =~= ev@.take(k as int).push(ev[k as int]));
                k += 1;
            }
            proof {
                assert(ev@.take(ev.len() as int) =~= ev@);
                assert(out@ == before + ev@);
                assert(ev@ == exec_code(code, name@, location@, ic));
                assert(rest.skip(2) =~= v@.skip(i + 2));
                assert(rest[1] == code);
                assert(out@ + exec_expand(v@.skip(i + 2), name@, location@, ic) =~= before + (exec_code(
                    code,
                    name@,
                    location@,
                    ic,
                ) + exec_expand(rest.skip(2), name@, location@, ic)));
            }
            i += 2;
        }
    }
    proof {
        assert(v@.skip(v.len() as int) =~= Seq::<char>::empty());
        assert(out@ + Seq::<char>::empty() =~= out@);
    }
    string_of(out.as_slice())
}

fn exec_code_exec(c: char, name: &str, location: &str, icon: Option<&IconPath>) -> (r: String)
    ensures
        r@ == exec_code(
            c,
            name@,
            location@,
            match icon {
                Some(p) => Some(icon_path_model(*p)),
                None => None,
            },
        ),
{
    proof {
        reveal_strlit("");
    }
    if c == '%' {
        crate::text::char_string('%')
    } else if c == 'i' {
        match icon {
            Some(p) => {
                let text = match p {
                    IconPath::Name(n) => n,
                    IconPath::Path(i) => i.path(),
                };
                if !text.as_str().is_empty() {
                    let r = crate::utf8_text::concat3("--icon ", text.as_str(), "");
                    assert(r@ =~= "--icon "@ + text@);
                    r
                } else {
                    String::new()
                }
            },
            None => String::new(),
        }
    } else if c == 'c' {
        name.to_owned()
    } else if c == 'k' {
        location.to_owned()
    } else {
        String::new()
    }
}

/// An application of a desktop file.
pub struct DesktopEntry {
    pub name: String,
    pub comment: Option<String>,
    pub icon: Option<IconPath>,
    /// Other text the query is matched against: the generic name, the
    /// categories, the keywords and the comment, after the name.
    pub to_match: String,
    /// The command line.
    pub command: String,
    /// The directory to run it in.
    pub path: Option<String>,
    /// Whether it runs in a terminal.
    pub terminal: bool,
}

/// A value of the `[Desktop Entry]` section, or the empty text.
pub open spec fn value_or_empty(d: Pairs, key: Seq<char>) -> Seq<char> {
    match assoc_get(d, key) {
        Some(v) => v,
        None => Seq::empty(),
    }
}

/// Whether a desktop file's `[Desktop Entry]` describes an application to
/// show on the current desktops: its `Type` is `Application`, `NoDisplay` is
/// not `true`, `OnlyShowIn` (when present) names a current desktop,
/// `NotShowIn` (when present) names none, and it has a `Name` and an `Exec`.
pub open spec fn shown_application(d: Pairs, current: Seq<Seq<char>>) -> bool {
    &&& assoc_get(d, "Type"@) == Some("Application"@)
    &&& assoc_get(d, "NoDisplay"@) != Some("true"@)
    &&& (assoc_get(d, "OnlyShowIn"@) matches Some(o) ==> shows_in(o, current))
    &&& (assoc_get(d, "NotShowIn"@) matches Some(n) ==> !shows_in(n, current))
    &&& assoc_get(d, "Name"@) is Some
    &&& assoc_get(d, "Exec"@) is Some
}

/// An application seen as its name, comment, icon, text to match, command
/// line, directory and terminal flag.
pub type DesktopModel = (
    Seq<char>,
    Option<Seq<char>>,
    Option<(bool, bool, Seq<char>)>,
    Seq<char>,
    Seq<char>,
    Option<Seq<char>>,
    bool,
);

/// The application that a `[Desktop Entry]` section describes (when
/// `shown_application` holds); `location` is the path of the file, and
/// relative icons are read against `cwd`.
pub open spec fn desktop_model(d: Pairs, location: Seq<char>, cwd: Option<Seq<char>>) -> DesktopModel {
    let name = value_or_empty(d, "Name"@);
    let comment = assoc_get(d, "Comment"@);
    let icon = match assoc_get(d, "Icon"@) {
        Some(i) => Some(icon_model_of(i, cwd)),
        None => None,
    };
    (
        name,
        comment,
        icon,
        name + value_or_empty(d, "GenericName"@) + value_or_empty(d, "Categories"@) + value_or_empty(
            d,
            "Keywords"@,
        ) + value_or_empty(d, "Comment"@),
        exec_expand(value_or_empty(d, "Exec"@), name, location, icon),
        assoc_get(d, "Path"@),
        assoc_get(d, "Terminal"@) == Some("true"@),
    )
}

/// The text a query is matched against is the application's name, then
/// its generic name, its categories, its keywords and its comment, in that
/// order, each value of the `[Desktop Entry]` section whole and at its
/// place (an absent one empty): so a query can find an application by any
/// of them.
pub proof fn lemma_match_text_parts(d: Pairs, location: Seq<char>, cwd: Option<Seq<char>>, e: DesktopEntry)
    requires
        desktop_view(e) == desktop_model(d, location, cwd),
    ensures
        ({
            let n = match assoc_get(d, "Name"@) {
                Some(v) => v,
                None => Seq::<char>::empty(),
            };
            let g = match assoc_get(d, "GenericName"@) {
                Some(v) => v,
                None => Seq::<char>::empty(),
            };
            let c = match assoc_get(d, "Categories"@) {
                Some(v) => v,
                None => Seq::<char>::empty(),
            };
            let k = match assoc_get(d, "Keywords"@) {
                Some(v) => v,
                None => Seq::<char>::empty(),
            };
            let m = match assoc_get(d, "Comment"@) {
                Some(v) => v,
                None => Seq::<char>::empty(),
            };
            let t = e.to_match@;
            let a = n.len() as int;
            let b = a + g.len();
            let x = b + c.len();
            let y = x + k.len();
            &&& t.len() == y + m.len()
            &&& t.subrange(0, a) == n
            &&& t.subrange(a, b) == g
            &&& t.subrange(b, x) == c
            &&& t.subrange(x, y) == k
            &&& t.subrange(y, t.len() as int) == m
        }),
{
    let n = value_or_empty(d, "Name"@);
    let g = value_or_empty(d, "GenericName"@);
    let c = value_or_empty(d, "Categories"@);
    let k = value_or_empty(d, "Keywords"@);
    let m = value_or_empty(d, "Comment"@);
    let t = e.to_match@;
    assert(t == n + g + c + k + m);
    let a = n.len() as int;
    let b = a + g.len();
    let x = b + c.len();
    let y = x + k.len();
    assert(t.subrange(0, a) =~= n);
    assert(t.subrange(a, b) =~= g);
    assert(t.subrange(b, x) =~= c);
    assert(t.subrange(x, y) =~= k);
    assert(t.subrange(y, t.len() as int) =~= m);
}

/// An application seen as `DesktopModel`.
pub open spec fn desktop_view(e: DesktopEntry) -> DesktopModel {
    (
        e.name@,
        match e.comment {
            Some(c) => Some(c@),
            None => None,
        },
        opt_icon(e.icon),
        e.to_match@,
        e.command@,
        match e.path {
            Some(p) => Some(p@),
            None => None,
        },
        e.terminal,
    )
}

fn get_str<'a>(d: &'a crate::ini_parser::Section, key: &str) -> (r: Option<&'a String>)
    ensures
        match r {
            Some(v) => assoc_get(d.entries(), key@) == Some(v@),
            None => assoc_get(d.entries(), key@) is None,
        },
{
    d.get(key)
}

fn text_or_empty(o: Option<&String>) -> (r: String)
    ensures
        r@ == match o {
            Some(s) => s@,
            None => Seq::empty(),
        },
{
    match o {
        Some(s) => s.clone(),
        None => String::new(),
    }
}

fn cloned(o: Option<&String>) -> (r: Option<String>)
    ensures
        match o {
            Some(s) => r == Some(*s),
            None => r is None,
        },
{
    match o {
        Some(s) => Some(s.clone()),
        None => None,
    }
}

/// Whether one of the non-empty `;`-separated names of `list` is in `current`.
fn shows_in_exec(list: &str, current: &Vec<String>) -> (r: bool)
    ensures
        r == shows_in(list@, current@.map_values(|s: String| s@)),
{
    let ghost cur = current@.map_values(|s: String| s@);
    let parts = split(list, ';');
    let ghost ps = split_char(list@, ';');
    let mut j: usize = 0;
    while j < parts.len()
        invariant
            0 <= j <= parts.len(),
            cur == current@.map_values(|s: String| s@),
            ps == split_char(list@, ';'),
            parts@.map_values(|x: String| x@) == ps,
            forall|k: int| 0 <= k < j ==> !(ps[k].len() > 0 && cur.contains(#[trigger] ps[k])),
        decreases parts.len() - j,
    {
        assert(ps[j as int] == parts@[j as int]@);
        if !parts[j].as_str().is_empty() {
            let mut c: usize = 0;
            while c < current.len()
                invariant
                    0 <= c <= current.len(),
                    j < parts@.len(),
                    ps == split_char(list@, ';'),
                    parts@.map_values(|x: String| x@) == ps,
                    ps[j as int].len() > 0,
                    cur == current@.map_values(|s: String| s@),
                    forall|k: int| 0 <= k < c ==> cur[k] != parts@[j as int]@,
                decreases current.len() - c,
            {
                if str_eq(current[c].as_str(), parts[j].as_str()) {
                    proof {
                        assert(cur[c as int] == ps[j as int]);
                        assert(cur.contains(ps[j as int]));
                        assert(split_char(list@, ';')[j as int].len() > 0 && cur.contains(
                            split_char(list@, ';')[j as int],
                        ));
                    }
                    return true;
                }
                c += 1;
            }
            proof {
                if cur.contains(ps[j as int]) {
                    let k = choose|k: int| 0 <= k < cur.len() && cur[k] == ps[j as int];
                    assert(cur[k] != parts@[j as int]@);
                }
            }
        }
        j += 1;
    }
    false
}

impl DesktopEntry {
    /// The application a desktop file describes, when it is one to show on
    /// the `current` desktops (see `shown_application` and `desktop_model`);
    /// `location` is the path of the file, and `cwd` the process's working
    /// directory, against which relative icons are read.
    pub fn new(ini: Ini, location: &str, current: &Vec<String>, cwd: Option<String>) -> (r: Option<Self>)
        ensures
            match assoc_get(ini.sections_model(), "Desktop Entry"@) {
                Some(d) => if shown_application(d, current@.map_values(|s: String| s@)) {
                    r matches Some(e) && desktop_view(e) == desktop_model(d, location@, opt_chars(cwd))
                } else {
                    r is None
                },
                None => r is None,
            },
    {
        let mut ini = ini;
        let d = match ini.remove_section("Desktop Entry") {
            Some(d) => d,
            None => return None,
        };
        let ghost cur = current@.map_values(|s: String| s@);
        proof {
            reveal_strlit("true");
            reveal_strlit("Application");
        }
        match get_str(&d, "Type") {
            Some(t) => if !str_eq(t.as_str(), "Application") {
                return None;
            },
            None => return None,
        }
        match get_str(&d, "NoDisplay") {
            Some(v) => if str_eq(v.as_str(), "true") {
                return None;
            },
            None => {},
        }
        match get_str(&d, "OnlyShowIn") {
            Some(o) => if !shows_in_exec(o.as_str(), current) {
                return None;
            },
            None => {},
        }
        match get_str(&d, "NotShowIn") {
            Some(n) => if shows_in_exec(n.as_str(), current) {
                return None;
            },
            None => {},
        }
        let name = match cloned(get_str(&d, "Name")) {
            Some(n) => n,
            None => return None,
        };
        let exec_key = match cloned(get_str(&d, "Exec")) {
            Some(e) => e,
            None => return None,
        };
        let comment = cloned(get_str(&d, "Comment"));
        let icon = match cloned(get_str(&d, "Icon")) {
            Some(i) => Some(IconPath::new(i, cwd)),
            None => None,
        };
        let mut to_match = name.clone();
        to_match.append(text_or_empty(get_str(&d, "GenericName")).as_str());
        to_match.append(text_or_empty(get_str(&d, "Categories")).as_str());
        to_match.append(text_or_empty(get_str(&d, "Keywords")).as_str());
        to_match.append(text_or_empty(get_str(&d, "Comment")).as_str());
        let command = parse_exec_key(exec_key, name.as_str(), location, icon.as_ref());
        let path = cloned(get_str(&d, "Path"));
        let terminal = match get_str(&d, "Terminal") {
            Some(v) => str_eq(v.as_str(), "true"),
            None => false,
        };
        Some(DesktopEntry { name, comment, icon, to_match, command, path, terminal })
    }
}

/// The desktop names of `XDG_CURRENT_DESKTOP`: its `:`-separated parts.
pub fn current_desktops(value: &str) -> (r: Vec<String>)
    ensures
        r@.map_values(|s: String| s@) == split_char(value@, ':'),
{
    split(value, ':')
}

/// The sum of two optional scores: one of them when the other is absent.
pub open spec fn add_scores(a: Option<int>, b: Option<int>) -> Option<int> {
    match (a, b) {
        (Some(x), Some(y)) => Some(x + y),
        (Some(x), None) => Some(x),
        (None, Some(y)) => Some(y),
        (None, None) => None,
    }
}

/// An optional score as an optional integer.
pub open spec fn opt_int(a: Option<u32>) -> Option<int> {
    match a {
        Some(x) => Some(x as int),
        None => None,
    }
}

/// The score of an application from the scores of its name, its comment
/// and its other text: their sum over those that match.
pub open spec fn app_score_of(name: Option<u32>, comment: Option<u32>, other: Option<u32>) -> Option<int> {
    add_scores(add_scores(opt_int(name), opt_int(comment)), opt_int(other))
}

/// The score of an application against the query (see `app_score_of`).
pub open spec fn app_score(query: Seq<char>, e: DesktopModel) -> Option<int> {
    app_score_of(
        nucleo_score(query, e.0),
        match e.1 {
            Some(c) => nucleo_score(query, c),
            None => None,
        },
        nucleo_score(query, e.3),
    )
}

/// Combines the scores of an application's name, comment and other text
/// (see `app_score_of`).
pub fn combine_app_scores(name: Option<u32>, comment: Option<u32>, other: Option<u32>) -> (r: Option<u32>)
    requires
        app_score_of(name, comment, other) matches Some(s) ==> s <= u32::MAX,
    ensures
        opt_int(r) == app_score_of(name, comment, other),
{
    let first = match (name, comment) {
        (Some(x), Some(y)) => Some(x + y),
        (Some(x), None) => Some(x),
        (None, Some(y)) => Some(y),
        (None, None) => None,
    };
    match (first, other) {
        (Some(x), Some(y)) => Some(x + y),
        (Some(x), None) => Some(x),
        (None, Some(y)) => Some(y),
        (None, None) => None,
    }
}

/// The positions and scores of the applications that match the query and
/// whose score fits in a `u32`, in order.
pub open spec fn app_matches(query: Seq<char>, apps: Seq<DesktopModel>) -> Seq<(int, int)>
    decreases apps.len(),
{
    if apps.len() == 0 {
        Seq::empty()
    } else {
        let i = apps.len() - 1;
        let prev = app_matches(query, apps.drop_last());
        match app_score(query, apps[i]) {
            Some(s) => if s <= u32::MAX {
                prev.push((i, s))
            } else {
                prev
            },
            None => prev,
        }
    }
}

/// Whether the combined score of an application fits in a `u32`.
fn app_score_fits(name: Option<u32>, comment: Option<u32>, other: Option<u32>) -> (r: bool)
    ensures
        r == (app_score_of(name, comment, other) matches Some(s) ==> s <= u32::MAX),
{
    let x: u64 = match name {
        Some(v) => v as u64,
        None => 0,
    };
    let y: u64 = match comment {
        Some(v) => v as u64,
        None => 0,
    };
    let z: u64 = match other {
        Some(v) => v as u64,
        None => 0,
    };
    x + y + z <= u32::MAX as u64
}

/// The applications plugin's choices.
pub struct ApplicationPlugin(pub Vec<DesktopEntry>);

/// Applications seen as `DesktopModel`.
pub open spec fn apps_view(v: Seq<DesktopEntry>) -> Seq<DesktopModel> {
    v.map_values(|e: DesktopEntry| desktop_view(e))
}

impl ApplicationPlugin {
    /// The plugin as the launcher lists it.
    pub fn plugin() -> (r: Plugin)
        ensures
            r.name@ == "Applications"@,
            r.prefix@ == "app"@,
            r.icon is None,
            r.comment matches Some(c) && c@ == "Launch applications on the system"@,
    {
        Plugin {
            name: "Applications".to_owned(),
            prefix: "app".to_owned(),
            icon: None,
            comment: Some("Launch applications on the system".to_owned()),
            config: crate::index_map::string_map_new(),
        }
    }

    /// Launches the chosen application with `sh -c`, in the terminal
    /// `terminal_path` (with `-e`) when it runs in a terminal, and in its
    /// directory when it has one; nothing without a choice.
    pub fn send_enter(&self, terminal_path: &str, idx: Option<usize>) -> (r: Action)
        requires
            idx matches Some(i) ==> i < self.0@.len(),
        ensures
            match idx {
                None => r is Nothing,
                Some(i) => r matches Action::Exec(c) && {
                    let app = self.0@[i as int];
                    &&& c.current_dir == app.path
                    &&& if app.terminal {
                        &&& c.program@ == terminal_path@
                        &&& c.args@.map_values(|s: String| s@) == seq!["-e"@, "sh"@, "-c"@, app.command@]
                    } else {
                        &&& c.program@ == "sh"@
                        &&& c.args@.map_values(|s: String| s@) == seq!["-c"@, app.command@]
                    }
                },
            },
    {
        let i = match idx {
            None => return Action::Nothing,
            Some(i) => i,
        };
        let app = &self.0[i];
        let mut args: Vec<String> = Vec::new();
        let program = if app.terminal {
            args.push("-e".to_owned());
            args.push("sh".to_owned());
            terminal_path.to_owned()
        } else {
            "sh".to_owned()
        };
        args.push("-c".to_owned());
        args.push(app.command.clone());
        let current_dir = cloned(app.path.as_ref());
        proof {
            if app.terminal {
                assert(args@.map_values(|s: String| s@) =~= seq!["-e"@, "sh"@, "-c"@, app.command@]);
            } else {
                assert(args@.map_values(|s: String| s@) =~= seq!["-c"@, app.command@]);
            }
        }
        Action::Exec(CommandSpec { program, args, current_dir })
    }

    /// The applications that match the query, with their scores (the sum of
    /// the scores of the name, the comment and the other text), in order.
    pub fn get_entries<'a>(&'a self, matcher: &mut FuzzyMatcher, pattern: &FuzzyPattern) -> (r: Vec<Entry<'a>>)
        ensures
            crate::plugin::entry::entries_scores(r@) == app_matches(pattern@, apps_view(self.0@)),
            forall|i: int|
                0 <= i < r@.len() ==> r@[i].label.index < self.0@.len() && shows(
                    r@[i],
                    self.0@[r@[i].label.index as int].name@,
                    self.0@[r@[i].label.index as int].icon,
                    match self.0@[r@[i].label.index as int].comment {
                        Some(c) => Some(c@),
                        None => None,
                    },
                ),
    {
        let mut out: Vec<Entry<'a>> = Vec::new();
        let mut index: usize = 0;
        let ghost apps = apps_view(self.0@);
        while index < self.0.len()
            invariant
                0 <= index <= self.0@.len(),
                apps == apps_view(self.0@),
                crate::plugin::entry::entries_scores(out@) == app_matches(pattern@, apps.take(index as int)),
                forall|i: int|
                    0 <= i < out@.len() ==> out@[i].label.index < index && shows(
                        out@[i],
                        self.0@[out@[i].label.index as int].name@,
                        self.0@[out@[i].label.index as int].icon,
                        match self.0@[out@[i].label.index as int].comment {
                            Some(c) => Some(c@),
                            None => None,
                        },
                    ),
            decreases self.0@.len() - index,
        {
            let app = &self.0[index];
            let ghost before = out@;
            assert(apps.take(index + 1).drop_last() =~= apps.take(index as int));
            assert(apps[index as int] == desktop_view(*app));
            let a = pattern.score(matcher, app.name.as_str());
            let b = match &app.comment {
                Some(c) => pattern.score(matcher, c.as_str()),
                None => None,
            };
            let c = pattern.score(matcher, app.to_match.as_str());
            if app_score_fits(a, b, c) {
                match combine_app_scores(a, b, c) {
                    Some(score) => {
                        let e = Entry {
                            name: app.name.as_str(),
                            icon: app.icon.as_ref(),
                            comment: match &app.comment {
                                Some(c) => Some(c.as_str()),
                                None => None,
                            },
                            score,
                            label: Label::index(index),
                        };
                        out.push(e);
                        assert(crate::plugin::entry::entries_scores(out@) =~= crate::plugin::entry::entries_scores(
                            before,
                        ).push((index as int, score as int)));
                    },
                    None => {},
                }
            }
            index += 1;
        }
        assert(apps.take(self.0@.len() as int) =~= apps);
        out
    }

    /// The name of the application at `index`.
    pub fn get_name(&self, index: usize) -> (r: &str)
        requires
            index < self.0@.len(),
        ensures
            r@ == self.0@[index as int].name@,
    {
        self.0[index].name.as_str()
    }
}

} // verus!
