//! The line protocol between the launcher and a plugin process.
//!
//! At start-up the plugin names the events it wants (`events:enter query`),
//! then sends a choice list: entries made of `name:`, `icon:` and `comment:`
//! lines, ended by `end`. For each event it answers with an `action:` line;
//! `update_all` and `update:<index>` are followed by a choice list.
//!
//! Lines are given as `Some(text)`, or `None` for a line that could not be
//! read.

use vstd::prelude::*;
use crate::icon::{icon_model_of, icon_path_model, opt_chars, IconPath};
use crate::number::{dec_string, parse_usize, parse_usize_spec, usize_to_string};
use crate::text::{split_char, split_once, split_once_str, starts_with, starts_with_str, str_eq};

verus! {

/// A line as characters, or `None` when it could not be read.
pub open spec fn lines_view(v: Seq<Option<String>>) -> Seq<Option<Seq<char>>> {
    v.map_values(|l: Option<String>| opt_chars(l))
}

/// Name, raw icon value and comment of an entry being read.
pub type EntryFields = (Seq<char>, Option<Seq<char>>, Option<Seq<char>>);

/// The fields before any line is read: empty name, no icon, no comment.
pub open spec fn empty_fields() -> EntryFields {
    (Seq::empty(), None, None)
}

/// The effect of one line of an entry: `name:`, `icon:` and `comment:` set
/// their field; anything else is ignored.
pub open spec fn apply_descriptor(f: EntryFields, line: Seq<char>) -> EntryFields {
    match split_once(line, ':') {
        Some((k, v)) => if k == "name"@ {
            (v, f.1, f.2)
        } else if k == "icon"@ {
            (f.0, Some(v), f.2)
        } else if k == "comment"@ {
            (f.0, f.1, Some(v))
        } else {
            f
        },
        None => f,
    }
}

/// Whether the next line starts a new entry or ends the list: it starts with `name` or is `end`.
pub open spec fn ends_entry(next: Option<Seq<char>>) -> bool {
    match next {
        Some(l) => starts_with(l, "name"@) || l == "end"@,
        None => false,
    }
}

/// Reads an entry from line `j` on: each readable line sets a field, an
/// unreadable one is skipped; the entry ends before a line that starts a new
/// entry or ends the list, or at the end of the input. Gives the fields and
/// the index of the first line not read.
pub open spec fn entry_from(lines: Seq<Option<Seq<char>>>, j: int, f: EntryFields) -> (EntryFields, int)
    decreases lines.len() - j,
{
    if j < 0 || j >= lines.len() {
        (f, j)
    } else {
        match lines[j] {
            None => entry_from(lines, j + 1, f),
            Some(line) => {
                let g = apply_descriptor(f, line);
                if j + 1 < lines.len() && ends_entry(lines[j + 1]) {
                    (g, j + 1)
                } else {
                    entry_from(lines, j + 1, g)
                }
            },
        }
    }
}

/// Reads a choice list from line `i` on: it stops at an `end` line (read),
/// before an unreadable line, or at the end of the input. Gives the
/// entries and the index of the first line not read.
pub open spec fn choice_list(lines: Seq<Option<Seq<char>>>, i: int) -> (Seq<EntryFields>, int)
    decreases lines.len() - i,
{
    if i < 0 || i >= lines.len() {
        (Seq::empty(), i)
    } else {
        match lines[i] {
            None => (Seq::empty(), i),
            Some(l) => if l == "end"@ {
                (Seq::empty(), i + 1)
            } else {
                let (e, j) = entry_from(lines, i, empty_fields());
                proof {
                    lemma_entry_from_advances(lines, i, empty_fields());
                }
                let (rest, k) = choice_list(lines, j);
                (seq![e] + rest, k)
            },
        }
    }
}

/// Reading an entry from a line of the input reads at least that line.
pub proof fn lemma_entry_from_advances(lines: Seq<Option<Seq<char>>>, j: int, f: EntryFields)
    requires
        0 <= j < lines.len(),
    ensures
        j < entry_from(lines, j, f).1 <= lines.len(),
    decreases lines.len() - j,
{
    reveal_with_fuel(entry_from, 2);
    if j + 1 < lines.len() {
        match lines[j] {
            None => lemma_entry_from_advances(lines, j + 1, f),
            Some(line) => {
                let g = apply_descriptor(f, line);
                if !ends_entry(lines[j + 1]) {
                    lemma_entry_from_advances(lines, j + 1, g);
                }
            },
        }
    }
}

/// An empty line, or one without a known field, leaves an entry as it is.
pub proof fn lemma_blank_line_ignored(f: EntryFields, line: Seq<char>)
    requires
        line.len() == 0 || !(split_once(line, ':') matches Some((k, _)) && (k == "name"@ || k == "icon"@ || k
            == "comment"@)),
    ensures
        apply_descriptor(f, line) == f,
{
    if line.len() == 0 {
        assert(split_once(line, ':') is None) by {
            crate::text::lemma_find_char(line, ':');
        }
    }
}

/// A choice of a plugin: a name, an optional icon and an optional comment.
#[derive(Debug)]
pub struct PluginEntry {
    pub name: String,
    pub icon: Option<IconPath>,
    pub comment: Option<String>,
}

/// An entry seen as its name, its icon (as `icon_path_model`) and its comment.
pub open spec fn entry_view(e: PluginEntry) -> (Seq<char>, Option<(bool, bool, Seq<char>)>, Option<Seq<char>>) {
    (
        e.name@,
        match e.icon {
            Some(i) => Some(icon_path_model(i)),
            None => None,
        },
        opt_chars(e.comment),
    )
}

/// The entry the fields give, icons resolved against `cwd`.
pub open spec fn entry_of(f: EntryFields, cwd: Option<Seq<char>>) -> (Seq<char>, Option<(bool, bool, Seq<char>)>, Option<Seq<char>>) {
    (
        f.0,
        match f.1 {
            Some(v) => Some(icon_model_of(v, cwd)),
            None => None,
        },
        f.2,
    )
}

fn apply_descriptor_exec(
    name: &mut String,
    icon: &mut Option<String>,
    comment: &mut Option<String>,
    line: &str,
)
    ensures
        (final(name)@, opt_chars(*final(icon)), opt_chars(*final(comment))) == apply_descriptor(
            (old(name)@, opt_chars(*old(icon)), opt_chars(*old(comment))),
            line@,
        ),
{
    match split_once_str(line, ':') {
        Some((k, v)) => {
            if str_eq(k.as_str(), "name") {
                *name = v;
            } else if str_eq(k.as_str(), "icon") {
                *icon = Some(v);
            } else if str_eq(k.as_str(), "comment") {
                *comment = Some(v);
            }
        },
        None => {},
    }
}

fn ends_entry_exec(next: &Option<String>) -> (r: bool)
    ensures
        r == ends_entry(opt_chars(*next)),
{
    match next {
        Some(l) => starts_with_str(l.as_str(), "name") || str_eq(l.as_str(), "end"),
        None => false,
    }
}

/// Reads one entry from `lines`, starting at `start`; returns it with the
/// index of the first line not read. Icons starting with `./` are relative
/// to `cwd`.
pub fn read_entry_from_stream(lines: &Vec<Option<String>>, start: usize, cwd: Option<String>) -> (r: (PluginEntry, usize))
    requires
        start <= lines.len(),
    ensures
        ({
            let (f, next) = entry_from(lines_view(lines@), start as int, empty_fields());
            &&& entry_view(r.0) == entry_of(f, opt_chars(cwd))
            &&& r.1 == next
        }),
{
    let ghost l = lines_view(lines@);
    let mut name = String::new();
    let mut icon: Option<String> = None;
    let mut comment: Option<String> = None;
    let mut j = start;
    loop
        invariant_except_break
            entry_from(l, start as int, empty_fields()) == entry_from(
                l,
                j as int,
                (name@, opt_chars(icon), opt_chars(comment)),
            ),
        invariant
            start <= j <= lines.len(),
            l == lines_view(lines@),
        ensures
            entry_from(l, start as int, empty_fields()) == ((name@, opt_chars(icon), opt_chars(comment)), j as int),
        decreases lines.len() - j,
    {
        if j >= lines.len() {
            break;
        }
        assert(l[j as int] == opt_chars(lines@[j as int]));
        match &lines[j] {
            None => {
                j += 1;
            },
            Some(line) => {
                apply_descriptor_exec(&mut name, &mut icon, &mut comment, line.as_str());
                if j + 1 < lines.len() && ends_entry_exec(&lines[j + 1]) {
                    assert(l[j + 1] == opt_chars(lines@[j + 1]));
                    j += 1;
                    break;
                }
                proof {
                    if j + 1 < lines.len() {
                        assert(l[j + 1] == opt_chars(lines@[j + 1]));
                    }
                }
                j += 1;
            },
        }
    }
    let icon_path = match icon {
        Some(v) => Some(IconPath::new(v, cwd)),
        None => None,
    };
    (PluginEntry { name, icon: icon_path, comment }, j)
}

/// Entries seen as `entry_view`.
pub open spec fn entries_view(v: Seq<PluginEntry>) -> Seq<(Seq<char>, Option<(bool, bool, Seq<char>)>, Option<Seq<char>>)> {
    v.map_values(|e: PluginEntry| entry_view(e))
}

/// Entry fields resolved as `entry_of`.
pub open spec fn entries_of(fs: Seq<EntryFields>, cwd: Option<Seq<char>>) -> Seq<(Seq<char>, Option<(bool, bool, Seq<char>)>, Option<Seq<char>>)> {
    fs.map_values(|f: EntryFields| entry_of(f, cwd))
}

/// Reads a choice list from `lines`, starting at `start`; returns the
/// entries with the index of the first line not read.
pub fn read_choice_list(lines: &Vec<Option<String>>, start: usize, cwd: Option<String>) -> (r: (Vec<PluginEntry>, usize))
    requires
        start <= lines.len(),
    ensures
        ({
            let (fs, next) = choice_list(lines_view(lines@), start as int);
            &&& entries_view(r.0@) == entries_of(fs, opt_chars(cwd))
            &&& r.1 == next
        }),
{
    let ghost l = lines_view(lines@);
    let mut entries: Vec<PluginEntry> = Vec::new();
    let mut i = start;
    let ghost mut acc: Seq<EntryFields> = Seq::empty();
    loop
        invariant_except_break
            choice_list(l, start as int) == (acc + choice_list(l, i as int).0, choice_list(l, i as int).1),
        invariant
            start <= i <= lines.len(),
            l == lines_view(lines@),
            entries_view(entries@) == entries_of(acc, opt_chars(cwd)),
        ensures
            choice_list(l, start as int) == (acc, i as int),
        decreases lines.len() - i,
    {
        if i >= lines.len() {
            assert(acc + Seq::<EntryFields>::empty() =~= acc);
            break;
        }
        assert(l[i as int] == opt_chars(lines@[i as int]));
        match &lines[i] {
            None => {
                assert(acc + Seq::<EntryFields>::empty() =~= acc);
                break;
            },
            Some(line) => {
                if str_eq(line.as_str(), "end") {
                    assert(acc + Seq::<EntryFields>::empty() =~= acc);
                    i += 1;
                    break;
                }
                proof {
                    lemma_entry_from_advances(l, i as int, empty_fields());
                }
                let ghost f = entry_from(l, i as int, empty_fields()).0;
                let (e, j) = read_entry_from_stream(lines, i, clone_opt_string(&cwd));
                let ghost old_acc = acc;
                let ghost old_entries = entries@;
                assert(entry_view(e) == entry_of(f, opt_chars(cwd)));
                entries.push(e);
                proof {
                    acc = acc.push(f);
                    assert(entries@ == old_entries.push(e));
                    assert(entries_view(entries@) =~= entries_view(old_entries).push(entry_view(e)));
                    assert(entries_of(acc, opt_chars(cwd)) =~= entries_of(old_acc, opt_chars(cwd)).push(
                        entry_of(f, opt_chars(cwd)),
                    ));
                    assert(old_acc + (seq![f] + choice_list(l, j as int).0) =~= acc + choice_list(
                        l,
                        j as int,
                    ).0);
                }
                i = j;
            },
        }
    }
    (entries, i)
}

fn clone_opt_string(o: &Option<String>) -> (r: Option<String>)
    ensures
        opt_chars(r) == opt_chars(*o),
{
    match o {
        Some(s) => Some(s.clone()),
        None => None,
    }
}

/// The events a plugin subscribes to.
#[derive(Debug, Clone, Copy, PartialEq, Eq, Structural)]
pub struct PluginEvents {
    pub enter: bool,
    pub shift_enter: bool,
    pub query: bool,
}

/// Why a plugin's message breaks the protocol.
#[derive(Debug)]
pub enum ProtocolError {
    /// The first line is not `events:...`.
    ExpectedEvents(String),
    /// An event name that is not known.
    UnknownEvent(String),
    /// A line that is not `action:...`.
    ExpectedAction(String),
    /// An action that is not known.
    UnknownAction(String),
    /// `update:` with something else than an index.
    BadIndex(String),
    /// `update:` followed by an empty choice list.
    EmptyUpdate,
    /// `update:` with an index past the last entry.
    IndexOutOfRange(usize),
}

/// The events named by a list of words, added to `acc`, or the first unknown word.
pub open spec fn events_of(words: Seq<Seq<char>>, acc: PluginEvents) -> Result<PluginEvents, Seq<char>>
    decreases words.len(),
{
    if words.len() == 0 {
        Ok(acc)
    } else {
        match events_of(words.drop_last(), acc) {
            Err(w) => Err(w),
            Ok(e) => {
                let w = words.last();
                if w == "enter"@ {
                    Ok(PluginEvents { enter: true, ..e })
                } else if w == "shift_enter"@ {
                    Ok(PluginEvents { shift_enter: true, ..e })
                } else if w == "query"@ {
                    Ok(PluginEvents { query: true, ..e })
                } else {
                    Err(w)
                }
            },
        }
    }
}

/// No events.
pub open spec fn no_events() -> PluginEvents {
    PluginEvents { enter: false, shift_enter: false, query: false }
}

/// What the subscription line gives: `events:` then words separated by
/// single spaces, each `enter`, `shift_enter` or `query`.
pub open spec fn parse_events_spec(line: Seq<char>) -> Result<PluginEvents, Seq<char>> {
    match split_once(line, ':') {
        Some((k, words)) => if k == "events"@ {
            events_of(split_char(words, ' '), no_events())
        } else {
            Err(line)
        },
        None => Err(line),
    }
}

/// Reads the subscription line of a plugin.
pub fn parse_events(line: &str) -> (r: Result<PluginEvents, ProtocolError>)
    ensures
        match r {
            Ok(e) => parse_events_spec(line@) == Ok::<PluginEvents, Seq<char>>(e),
            Err(ProtocolError::ExpectedEvents(l)) => parse_events_spec(line@) == Err::<
                PluginEvents,
                Seq<char>,
            >(line@) && l@ == line@ && !(split_once(line@, ':') matches Some((k, _)) && k
                == "events"@),
            Err(ProtocolError::UnknownEvent(w)) => parse_events_spec(line@) == Err::<
                PluginEvents,
                Seq<char>,
            >(w@) && (split_once(line@, ':') matches Some((k, _)) && k == "events"@),
            Err(_) => false,
        },
{
    let (k, words) = match split_once_str(line, ':') {
        Some(p) => p,
        None => return Err(ProtocolError::ExpectedEvents(line.to_owned())),
    };
    if !str_eq(k.as_str(), "events") {
        return Err(ProtocolError::ExpectedEvents(line.to_owned()));
    }
    let list = crate::text::split(words.as_str(), ' ');
    let ghost ws = list@.map_values(|x: String| x@);
    let mut e = PluginEvents { enter: false, shift_enter: false, query: false };
    let mut i: usize = 0;
    assert(ws.take(0) =~= Seq::<Seq<char>>::empty());
    while i < list.len()
        invariant
            0 <= i <= list.len(),
            ws == list@.map_values(|x: String| x@),
            ws == split_char(words@, ' '),
            split_once(line@, ':') == Some((k@, words@)),
            k@ == "events"@,
            events_of(ws.take(i as int), no_events()) == Ok::<PluginEvents, Seq<char>>(e),
        decreases list.len() - i,
    {
        let w = &list[i];
        assert(ws.take(i + 1).drop_last() =~= ws.take(i as int));
        assert(ws.take(i + 1).last() == w@);
        if str_eq(w.as_str(), "enter") {
            e.enter = true;
        } else if str_eq(w.as_str(), "shift_enter") {
            e.shift_enter = true;
        } else if str_eq(w.as_str(), "query") {
            e.query = true;
        } else {
            proof {
                lemma_events_error_prefix(ws, i + 1, w@);
            }
            return Err(ProtocolError::UnknownEvent(w.clone()));
        }
        i += 1;
    }
    assert(ws.take(list.len() as int) =~= ws);
    Ok(e)
}

/// An unknown word stops the reading of events: the result is that error
/// whatever follows.
proof fn lemma_events_error_prefix(ws: Seq<Seq<char>>, k: int, w: Seq<char>)
    requires
        0 < k <= ws.len(),
        events_of(ws.take(k), no_events()) == Err::<PluginEvents, Seq<char>>(w),
    ensures
        events_of(ws, no_events()) == Err::<PluginEvents, Seq<char>>(w),
    decreases ws.len() - k,
{
    if k < ws.len() {
        assert(ws.take(k + 1).drop_last() =~= ws.take(k));
        lemma_events_error_prefix(ws, k + 1, w);
    } else {
        assert(ws.take(k) =~= ws);
    }
}

/// What an action line asks for.
#[derive(Debug)]
pub enum ActionLine {
    ChangeInput(String),
    ChangeQuery(String),
    /// Replace one choice; a one-element choice list follows.
    Update(usize),
    Fork,
    WaitAndClose,
    /// Replace all choices; a choice list follows.
    UpdateAll,
    Nothing,
}

/// An action line seen as a tag (its position in `ActionLine`, from zero), a text and an index.
pub open spec fn action_line_view(a: ActionLine) -> (int, Seq<char>, int) {
    match a {
        ActionLine::ChangeInput(s) => (0, s@, 0),
        ActionLine::ChangeQuery(s) => (1, s@, 0),
        ActionLine::Update(i) => (2, Seq::empty(), i as int),
        ActionLine::Fork => (3, Seq::empty(), 0),
        ActionLine::WaitAndClose => (4, Seq::empty(), 0),
        ActionLine::UpdateAll => (5, Seq::empty(), 0),
        ActionLine::Nothing => (6, Seq::empty(), 0),
    }
}

/// What an action line gives, as `action_line_view`, or an error code:
/// 0 for a line that is not `action:...`, 1 for an unknown action, 2 for a bad index.
pub open spec fn parse_action_spec(line: Seq<char>) -> Result<(int, Seq<char>, int), int> {
    match split_once(line, ':') {
        Some((k, action)) => if k != "action"@ {
            Err(0)
        } else {
            match split_once(action, ':') {
                Some((a, v)) if a == "change_input"@ => Ok((0, v, 0)),
                Some((a, v)) if a == "change_query"@ => Ok((1, v, 0)),
                Some((a, v)) if a == "update"@ => match parse_usize_spec(v) {
                    Some(i) => Ok((2, Seq::empty(), i as int)),
                    None => Err(2),
                },
                _ => if action == "fork"@ {
                    Ok((3, Seq::empty(), 0))
                } else if action == "wait_and_close"@ {
                    Ok((4, Seq::empty(), 0))
                } else if action == "update_all"@ {
                    Ok((5, Seq::empty(), 0))
                } else if action == "none"@ {
                    Ok((6, Seq::empty(), 0))
                } else {
                    Err(1)
                },
            }
        },
        None => Err(0),
    }
}

/// Reads an action line of a plugin.
pub fn parse_action_line(line: &str) -> (r: Result<ActionLine, ProtocolError>)
    ensures
        match r {
            Ok(a) => parse_action_spec(line@) == Ok::<(int, Seq<char>, int), int>(action_line_view(a)),
            Err(ProtocolError::ExpectedAction(l)) => parse_action_spec(line@) == Err::<
                (int, Seq<char>, int),
                int,
            >(0) && l@ == line@,
            Err(ProtocolError::UnknownAction(_)) => parse_action_spec(line@) == Err::<
                (int, Seq<char>, int),
                int,
            >(1),
            Err(ProtocolError::BadIndex(_)) => parse_action_spec(line@) == Err::<
                (int, Seq<char>, int),
                int,
            >(2),
            Err(_) => false,
        },
{
    let (k, action) = match split_once_str(line, ':') {
        Some(p) => p,
        None => return Err(ProtocolError::ExpectedAction(line.to_owned())),
    };
    if !str_eq(k.as_str(), "action") {
        return Err(ProtocolError::ExpectedAction(line.to_owned()));
    }
    match split_once_str(action.as_str(), ':') {
        Some((a, v)) => {
            if str_eq(a.as_str(), "change_input") {
                return Ok(ActionLine::ChangeInput(v));
            } else if str_eq(a.as_str(), "change_query") {
                return Ok(ActionLine::ChangeQuery(v));
            } else if str_eq(a.as_str(), "update") {
                return match parse_usize(v.as_str()) {
                    Some(i) => Ok(ActionLine::Update(i)),
                    None => Err(ProtocolError::BadIndex(v)),
                };
            }
        },
        None => {},
    }
    if str_eq(action.as_str(), "fork") {
        Ok(ActionLine::Fork)
    } else if str_eq(action.as_str(), "wait_and_close") {
        Ok(ActionLine::WaitAndClose)
    } else if str_eq(action.as_str(), "update_all") {
        Ok(ActionLine::UpdateAll)
    } else if str_eq(action.as_str(), "none") {
        Ok(ActionLine::Nothing)
    } else {
        Err(ProtocolError::UnknownAction(action))
    }
}

/// Replaces the choice at `index` with the single entry of `list` (its last
/// entry when it has more).
pub fn apply_update(entries: &mut Vec<PluginEntry>, index: usize, list: Vec<PluginEntry>) -> (r: Result<(), ProtocolError>)
    ensures
        match r {
            Ok(()) => list@.len() > 0 && index < old(entries)@.len() && final(entries)@ == old(
                entries,
            )@.update(index as int, list@.last()),
            Err(ProtocolError::EmptyUpdate) => list@.len() == 0 && final(entries)@ == old(entries)@,
            Err(ProtocolError::IndexOutOfRange(i)) => list@.len() > 0 && i == index && index
                >= old(entries)@.len() && final(entries)@ == old(entries)@,
            Err(_) => false,
        },
{
    let mut list = list;
    let element = match list.pop() {
        Some(e) => e,
        None => return Err(ProtocolError::EmptyUpdate),
    };
    if index >= entries.len() {
        return Err(ProtocolError::IndexOutOfRange(index));
    }
    entries.set(index, element);
    Ok(())
}

/// The message that tells a plugin the query changed, when it listens for it.
pub fn query_message(events: PluginEvents, query: &str) -> (r: Option<String>)
    ensures
        match r {
            Some(m) => events.query && m@ == "query\n"@ + query@ + "\n"@,
            None => !events.query,
        },
{
    if !events.query {
        return None;
    }
    Some(crate::utf8_text::concat3("query\n", query, "\n"))
}

/// The message that tells a plugin a choice was entered, when it listens for
/// it and a choice is selected.
pub fn enter_message(events: PluginEvents, index: Option<usize>) -> (r: Option<String>)
    ensures
        match r {
            Some(m) => events.enter && index is Some && m@ == "enter\n"@ + dec_string(
                index->0 as nat,
            ) + "\n"@,
            None => !events.enter || index is None,
        },
{
    if !events.enter {
        return None;
    }
    match index {
        Some(i) => {
            let n = usize_to_string(i);
            Some(crate::utf8_text::concat3("enter\n", n.as_str(), "\n"))
        },
        None => None,
    }
}

/// The configuration values of a plugin, one per line, in order.
pub fn config_message(values: &Vec<(String, String)>) -> (r: String)
    ensures
        r@ == config_lines(values@),
{
    let mut r = String::new();
    let mut i: usize = 0;
    while i < values.len()
        invariant
            0 <= i <= values.len(),
            r@ == config_lines(values@.take(i as int)),
        decreases values.len() - i,
    {
        assert(values@.take(i + 1).drop_last() =~= values@.take(i as int));
        r.append(values[i].1.as_str());
        r.append("\n");
        i += 1;
    }
    assert(values@.take(values.len() as int) =~= values@);
    r
}

/// Each value followed by a line break.
pub open spec fn config_lines(values: Seq<(String, String)>) -> Seq<char>
    decreases values.len(),
{
    if values.len() == 0 {
        Seq::empty()
    } else {
        config_lines(values.drop_last()) + values.last().1@ + "\n"@
    }
}

} // verus!
