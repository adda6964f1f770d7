//! The decisions of the plugin manager: which plugin runs, which receives
//! a query or a choice, and in which order the choices are shown.

use vstd::prelude::*;
use crate::assoc::assoc_get;
use crate::plugin::entry::{Entry, Label};
use crate::plugin::usage::Usage;
use crate::text::{split_once, split_once_str, str_eq};

verus! {

/// The position of a plugin in the launcher's table of plugins.
#[derive(Debug, Clone, Copy, PartialEq, Eq, Structural)]
pub struct PluginIndex(pub usize);

impl Default for PluginIndex {
    /// The first plugin.
    fn default() -> (r: Self)
        ensures
            r.0 == 0,
    {
        PluginIndex(0)
    }
}

/// The order key of a choice: its score, and how often it was launched when
/// that is known.
pub type RankKey = (u32, Option<usize>);

/// Whether usage `a` ranks higher than usage `b`: a known count beats an
/// unknown one, and a larger count beats a smaller one.
pub open spec fn usage_higher(a: Option<usize>, b: Option<usize>) -> bool {
    match (a, b) {
        (Some(x), Some(y)) => x > y,
        (Some(_), None) => true,
        _ => false,
    }
}

/// Whether key `a` ranks strictly higher than key `b`: by score first, then,
/// when `by_usage`, by usage.
pub open spec fn key_higher(a: RankKey, b: RankKey, by_usage: bool) -> bool {
    a.0 > b.0 || (a.0 == b.0 && by_usage && usage_higher(a.1, b.1))
}

/// Whether choice `a` comes before choice `b`: it ranks higher, or they rank
/// the same and `a` came first (the sort is stable).
pub open spec fn ranks_before(keys: Seq<RankKey>, by_usage: bool, a: int, b: int) -> bool {
    key_higher(keys[a], keys[b], by_usage) || (!key_higher(keys[b], keys[a], by_usage) && a < b)
}

/// Whether `order` lists choices of `keys` each at most once, in ranking order,
/// and every choice it leaves out comes after all those it lists.
pub open spec fn is_top_order(order: Seq<usize>, keys: Seq<RankKey>, by_usage: bool) -> bool {
    &&& forall|i: int| 0 <= i < order.len() ==> order[i] < keys.len()
    &&& forall|i: int, j: int| 0 <= i < j < order.len() ==> ranks_before(keys, by_usage, order[i] as int, order[j] as int)
    &&& forall|x: usize, i: int|
        x < keys.len() && !order.contains(x) && 0 <= i < order.len() ==> ranks_before(
            keys,
            by_usage,
            order[i] as int,
            x as int,
        )
}

/// The choices to show, best first: the `n` first of a stable sort of the
/// choices by decreasing score, then (when `by_usage`) by decreasing usage.
/// Gives their positions in `keys`.
pub fn top_entries(keys: &Vec<RankKey>, n: usize, by_usage: bool) -> (r: Vec<usize>)
    ensures
        r@.len() == if n < keys@.len() { n as int } else { keys@.len() as int },
        is_top_order(r@, keys@, by_usage),
{
    let mut order: Vec<usize> = Vec::new();
    let mut i: usize = 0;
    while i < keys.len()
        invariant
            0 <= i <= keys.len(),
            order@.len() == i,
            forall|k: int| 0 <= k < order@.len() ==> order@[k] < i,
            forall|x: usize| x < i ==> order@.contains(x),
            forall|a: int, b: int|
                0 <= a < b < order@.len() ==> ranks_before(keys@, by_usage, order@[a] as int, order@[b] as int),
        decreases keys.len() - i,
    {
        let ki = keys[i];
        let mut p: usize = 0;
        while p < order.len() && !higher(ki, keys[order[p]], by_usage)
            invariant
                0 <= p <= order@.len(),
                ki == keys@[i as int],
                forall|k: int| 0 <= k < order@.len() ==> order@[k] < i,
                i < keys@.len(),
                forall|k: int| 0 <= k < p ==> !key_higher(ki, keys@[order@[k] as int], by_usage),
            decreases order@.len() - p,
        {
            p += 1;
        }
        let ghost before = order@;
        order.insert(p, i);
        proof {
            assert forall|a: int, b: int| 0 <= a < b < order@.len() implies ranks_before(
                keys@,
                by_usage,
                order@[a] as int,
                order@[b] as int,
            ) by {
                if b < p {
                    assert(order@[a] == before[a]);
                    assert(order@[b] == before[b]);
                } else if b == p {
                    assert(order@[a] == before[a]);
                } else if a == p {
                    assert(order@[b] == before[b - 1]);
                    assert(key_higher(ki, keys@[before[p as int] as int], by_usage));
                    if b - 1 > p {
                        assert(ranks_before(keys@, by_usage, before[p as int] as int, before[b - 1] as int));
                    }
                } else if a < p {
                    assert(order@[a] == before[a]);
                    assert(order@[b] == before[b - 1]);
                } else {
                    assert(order@[a] == before[a - 1]);
                    assert(order@[b] == before[b - 1]);
                }
            }
            assert forall|x: usize| x < i + 1 implies order@.contains(x) by {
                if x == i {
                    assert(order@[p as int] == i);
                } else {
                    assert(before.contains(x));
                    let k = choose|k: int| 0 <= k < before.len() && before[k] == x;
                    if k < p {
                        assert(order@[k] == x);
                    } else {
                        assert(order@[k + 1] == x);
                    }
                }
            }
            assert forall|k: int| 0 <= k < order@.len() implies order@[k] < i + 1 by {
                if k < p {
                    assert(order@[k] == before[k]);
                } else if k > p {
                    assert(order@[k] == before[k - 1]);
                }
            }
        }
        i += 1;
    }
    let ghost full = order@;
    if n < order.len() {
        order.truncate(n);
    }
    proof {
        assert forall|x: usize, j: int|
            x < keys@.len() && !order@.contains(x) && 0 <= j < order@.len() implies ranks_before(
            keys@,
            by_usage,
            order@[j] as int,
            x as int,
        ) by {
            assert(full.contains(x));
            let k = choose|k: int| 0 <= k < full.len() && full[k] == x;
            if k < order@.len() {
                assert(order@[k] == full[k]);
                assert(order@.contains(x));
            }
            assert(order@[j] == full[j]);
        }
    }
    order
}

/// Whether key `a` ranks strictly higher than key `b`.
fn higher(a: RankKey, b: RankKey, by_usage: bool) -> (r: bool)
    ensures
        r == key_higher(a, b, by_usage),
{
    if a.0 != b.0 {
        return a.0 > b.0;
    }
    if !by_usage {
        return false;
    }
    match (a.1, b.1) {
        (Some(x), Some(y)) => x > y,
        (Some(_), None) => true,
        _ => false,
    }
}

/// Whether `i` is the first index whose prefix is `name`.
pub open spec fn first_with(prefixes: Seq<Seq<char>>, name: Seq<char>, i: int) -> bool {
    &&& 0 <= i < prefixes.len()
    &&& prefixes[i] == name
    &&& forall|k: int| 0 <= k < i ==> prefixes[k] != name
}

/// The index of the (first) plugin whose prefix is `name`, if one has it.
pub open spec fn prefix_index(prefixes: Seq<Seq<char>>, name: Seq<char>) -> Option<int> {
    if exists|i: int| first_with(prefixes, name, i) {
        Some(choose|i: int| first_with(prefixes, name, i))
    } else {
        None
    }
}

/// The order key of each choice: its score and, when `by_usage`, how often
/// it was launched, counted under the name of the plugin its label points to
/// (`plugin_names` by plugin index) and its own name.
pub open spec fn rank_keys_of(
    entries: Seq<Entry>,
    plugin_names: Seq<Seq<char>>,
    usage: Seq<((Seq<char>, Seq<char>), usize)>,
    by_usage: bool,
) -> Seq<RankKey> {
    Seq::new(
        entries.len(),
        |i: int|
            (
                entries[i].score,
                if by_usage {
                    assoc_get(usage, (plugin_names[entries[i].label.plugin_index.0 as int], entries[i].name@))
                } else {
                    None
                },
            ),
    )
}

/// The order keys of the choices, to rank them with `top_entries`.
pub fn rank_keys(entries: &Vec<Entry>, plugin_names: &Vec<String>, usage: &Usage, by_usage: bool) -> (r: Vec<RankKey>)
    requires
        forall|i: int| 0 <= i < entries.len() ==> #[trigger] entries[i].label.plugin_index.0 < plugin_names.len(),
    ensures
        r@ == rank_keys_of(entries@, plugin_names@.map_values(|p: String| p@), usage@, by_usage),
{
    let ghost names = plugin_names@.map_values(|p: String| p@);
    let mut r: Vec<RankKey> = Vec::new();
    let mut i: usize = 0;
    while i < entries.len()
        invariant
            i <= entries.len(),
            names == plugin_names@.map_values(|p: String| p@),
            forall|k: int| 0 <= k < entries.len() ==> #[trigger] entries[k].label.plugin_index.0 < plugin_names.len(),
            r@ == rank_keys_of(entries@, names, usage@, by_usage).take(i as int),
        decreases entries.len() - i,
    {
        let e = &entries[i];
        let count = if by_usage {
            usage.get(plugin_names[e.label.plugin_index.0].as_str(), e.name)
        } else {
            None
        };
        r.push((e.score, count));
        proof {
            assert(rank_keys_of(entries@, names, usage@, by_usage).take(i + 1) =~= rank_keys_of(
                entries@,
                names,
                usage@,
                by_usage,
            ).take(i as int).push((e.score, count)));
        }
        i += 1;
    }
    proof {
        assert(rank_keys_of(entries@, names, usage@, by_usage).take(entries.len() as int) =~= rank_keys_of(
            entries@,
            names,
            usage@,
            by_usage,
        ));
    }
    r
}

/// The plugin prefix the input starts with, and the rest of the input: a
/// word followed by a space that is a plugin's prefix.
pub open spec fn typed_plugin(prefixes: Seq<Seq<char>>, input: Seq<char>) -> Option<(int, Seq<char>)> {
    match split_once(input, ' ') {
        Some((name, rest)) => match prefix_index(prefixes, name) {
            Some(i) => Some((i, rest)),
            None => None,
        },
        None => None,
    }
}

/// What the plugin manager does when the input changes.
#[derive(Debug, Clone, Copy, PartialEq, Eq, Structural)]
pub enum InputStep {
    /// No plugin prefix was typed: stop the running plugin when `stop`, and,
    /// when `query_defaults`, send the query to each default plugin in turn
    /// until one answers with an action.
    Defaults { stop: bool, query_defaults: bool },
    /// A plugin prefix was typed and no plugin runs: count a use of the
    /// plugin and start it; send it the query when `send_query` (the user
    /// typed the change: a change made by a plugin action is not sent back
    /// as an event).
    Launch { plugin: usize, send_query: bool },
    /// A plugin prefix was typed while another plugin, or a finished one,
    /// runs: start the typed plugin afresh.
    Relaunch { plugin: usize },
    /// The running plugin's prefix was typed by the user: send it the query.
    SendQuery,
    /// The running plugin's prefix was set by a plugin action: nothing to do.
    Keep,
}

/// Decides what a change of the input does, given the plugins' prefixes in
/// order, the running plugin (its index and whether it finished), and whether
/// the user typed the change. Gives the query (the input without the plugin
/// prefix) and the step to take.
pub fn update_input_step(
    input: &str,
    prefixes: &Vec<String>,
    current: Option<(PluginIndex, bool)>,
    from_user: bool,
) -> (r: (String, InputStep))
    ensures
        match typed_plugin(prefixes@.map_values(|p: String| p@), input@) {
            Some((idx, rest)) => {
                &&& r.0@ == rest
                &&& match current {
                    None => r.1 == InputStep::Launch { plugin: idx as usize, send_query: from_user },
                    Some((running, finished)) => if finished || running.0 != idx {
                        r.1 == InputStep::Relaunch { plugin: idx as usize }
                    } else if from_user {
                        r.1 == InputStep::SendQuery
                    } else {
                        r.1 == InputStep::Keep
                    },
                }
            },
            None => r.0@ == input@ && r.1 == InputStep::Defaults {
                stop: current is Some,
                query_defaults: from_user,
            },
        },
{
    let ghost ps = prefixes@.map_values(|p: String| p@);
    let typed = match split_once_str(input, ' ') {
        Some((name, rest)) => {
            let mut found: Option<usize> = None;
            let mut i: usize = 0;
            while i < prefixes.len()
                invariant_except_break
                    found is None,
                    forall|k: int| 0 <= k < i ==> ps[k] != name@,
                invariant
                    0 <= i <= prefixes.len(),
                    ps == prefixes@.map_values(|p: String| p@),
                ensures
                    match found {
                        Some(k) => k < prefixes.len() && ps[k as int] == name@ && forall|j: int|
                            0 <= j < k ==> ps[j] != name@,
                        None => forall|k: int| 0 <= k < prefixes.len() ==> ps[k] != name@,
                    },
                decreases prefixes.len() - i,
            {
                if str_eq(prefixes[i].as_str(), name.as_str()) {
                    found = Some(i);
                    break;
                }
                i += 1;
            }
            proof {
                match found {
                    Some(k) => {
                        assert(first_with(ps, name@, k as int));
                        let c = choose|c: int| first_with(ps, name@, c);
                        if c < k {
                        } else if c > k {
                        }
                        assert(prefix_index(ps, name@) == Some(k as int));
                    },
                    None => {
                        assert(!exists|c: int| first_with(ps, name@, c));
                    },
                }
            }
            match found {
                Some(k) => Some((k, rest)),
                None => None,
            }
        },
        None => None,
    };
    match typed {
        Some((idx, rest)) => {
            let step = match current {
                None => InputStep::Launch { plugin: idx, send_query: from_user },
                Some((running, finished)) => if finished || running.0 != idx {
                    InputStep::Relaunch { plugin: idx }
                } else if from_user {
                    InputStep::SendQuery
                } else {
                    InputStep::Keep
                },
            };
            (rest, step)
        },
        None => (input.to_owned(), InputStep::Defaults { stop: current.is_some(), query_defaults: from_user }),
    }
}

/// Which plugin receives the choice the user launched.
#[derive(Debug, Clone, Copy, PartialEq, Eq, Structural)]
pub enum LaunchStep {
    /// The running plugin.
    Current,
    /// The default plugin at this position of the list of default plugins.
    Default(usize),
    /// None: no plugin runs and the choice is of no default plugin.
    Nothing,
}

/// Decides which plugin receives a launched choice: the running plugin if
/// there is one; else the only default plugin, when there is one; else the
/// default plugin the selected choice comes from. The plugin then receives
/// the index of the selected choice, and a use of that choice is counted.
pub fn launch_step(running: bool, defaults: &Vec<PluginIndex>, selected: Option<Label>) -> (r: LaunchStep)
    ensures
        running ==> r == LaunchStep::Current,
        !running && defaults@.len() == 1 ==> r == LaunchStep::Default(0),
        !running && defaults@.len() != 1 ==> match selected {
            Some(l) => match r {
                LaunchStep::Default(p) => p < defaults@.len() && defaults@[p as int] == l.plugin_index
                    && forall|q: int| 0 <= q < p ==> defaults@[q] != l.plugin_index,
                LaunchStep::Nothing => forall|q: int| 0 <= q < defaults@.len() ==> defaults@[q] != l.plugin_index,
                LaunchStep::Current => false,
            },
            None => r == LaunchStep::Nothing,
        },
{
    if running {
        return LaunchStep::Current;
    }
    if defaults.len() == 1 {
        return LaunchStep::Default(0);
    }
    match selected {
        Some(l) => {
            let mut p: usize = 0;
            while p < defaults.len()
                invariant
                    0 <= p <= defaults.len(),
                    !running,
                    defaults@.len() != 1,
                    selected == Some(l),
                    forall|q: int| 0 <= q < p ==> defaults@[q] != l.plugin_index,
                decreases defaults.len() - p,
            {
                if defaults[p].0 == l.plugin_index.0 {
                    return LaunchStep::Default(p);
                }
                p += 1;
            }
            LaunchStep::Nothing
        },
        None => LaunchStep::Nothing,
    }
}

/// The input that replaces the query while keeping the running plugin's
/// prefix: the prefix, a space and the query; just the query when no plugin
/// runs.
pub fn query_input(prefix: Option<&str>, query: String) -> (r: String)
    ensures
        r@ == match prefix {
            Some(p) => p@ + " "@ + query@,
            None => query@,
        },
{
    match prefix {
        Some(p) => crate::utf8_text::concat3(p, " ", query.as_str()),
        None => query,
    }
}

} // verus!
