//! The table of loaded plugins, keyed by prefix in an `IndexMap`, and how
//! the user's configuration changes it: overrides of prefixes, icons and
//! comments, option values, and the default plugins.

use vstd::prelude::*;
use indexmap::IndexMap;
use crate::assoc::{assoc_find, assoc_get, assoc_insert, lemma_assoc_find, lemma_assoc_find_unique, lemma_assoc_insert, lemma_swap_remove, swap_remove_at, unique_keys};
use crate::config::{opt_view, override_view, Override, OverrideView};
use crate::icon::{icon_model_of, IconPath};
use crate::index_map::{string_map_clone, string_map_entries, string_map_get, string_map_insert, string_map_pairs, pairs_view};
use crate::ini_parser::Pairs;
use crate::plugin::manager::PluginIndex;
use crate::plugin::{plugin_view, Plugin, PluginModel};
use crate::text::str_eq;

verus! {

/// The plugins of a table, in order, each under its prefix and seen as
/// `plugin_view`.
pub uninterp spec fn plugin_table_entries(m: IndexMap<String, Plugin>) -> Seq<(Seq<char>, PluginModel)>;

/// `IndexMap::new`: a table without plugins.
#[verifier::external_body]
fn table_new() -> (m: IndexMap<String, Plugin>)
    ensures
        plugin_table_entries(m) == Seq::<(Seq<char>, PluginModel)>::empty(),
{
    IndexMap::new()
}

/// `IndexMap::insert_full`: when the key is present, its value is replaced
/// in place and its index returned with the old value; otherwise the pair
/// is appended last and its index returned with `None`. Keys stay unique
/// when they were.
#[verifier::external_body]
fn table_insert_full(m: &mut IndexMap<String, Plugin>, k: String, v: Plugin) -> (r: (usize, Option<Plugin>))
    ensures
        plugin_table_entries(*final(m)) == assoc_insert(plugin_table_entries(*old(m)), k@, plugin_view(v)),
        r.0 == assoc_find(plugin_table_entries(*final(m)), k@),
        unique_keys(plugin_table_entries(*old(m))) ==> unique_keys(plugin_table_entries(*final(m))),
        match r.1 {
            Some(o) => assoc_get(plugin_table_entries(*old(m)), k@) == Some(plugin_view(o)),
            None => assoc_get(plugin_table_entries(*old(m)), k@) is None,
        },
{
    m.insert_full(k, v)
}

/// `IndexMap::swap_remove_index`: removes the pair at `i` by moving the
/// last pair into its place, and returns it; `None`, with the table
/// unchanged, when `i` is past the end.
#[verifier::external_body]
fn table_swap_remove_index(m: &mut IndexMap<String, Plugin>, i: usize) -> (r: Option<(String, Plugin)>)
    ensures
        match r {
            Some((k, v)) => {
                &&& i < plugin_table_entries(*old(m)).len()
                &&& plugin_table_entries(*old(m))[i as int] == (k@, plugin_view(v))
                &&& plugin_table_entries(*final(m)) == swap_remove_at(plugin_table_entries(*old(m)), i as int)
            },
            None => i >= plugin_table_entries(*old(m)).len() && plugin_table_entries(*final(m))
                == plugin_table_entries(*old(m)),
        },
{
    m.swap_remove_index(i)
}

/// `IndexMap::get_index`: the pair at `i`, if any.
#[verifier::external_body]
fn table_get_index<'a>(m: &'a IndexMap<String, Plugin>, i: usize) -> (r: Option<(&'a String, &'a Plugin)>)
    ensures
        match r {
            Some((k, v)) => i < plugin_table_entries(*m).len() && plugin_table_entries(*m)[i as int] == (
                k@,
                plugin_view(*v),
            ),
            None => i >= plugin_table_entries(*m).len(),
        },
{
    m.get_index(i)
}

/// `IndexMap::get_index_of`: the index of the key, if present.
#[verifier::external_body]
fn table_get_index_of(m: &IndexMap<String, Plugin>, k: &str) -> (r: Option<usize>)
    ensures
        match r {
            Some(i) => i as int == assoc_find(plugin_table_entries(*m), k@) && i < plugin_table_entries(*m).len(),
            None => assoc_find(plugin_table_entries(*m), k@) < 0,
        },
{
    m.get_index_of(k)
}

/// `IndexMap::len`: the number of plugins.
#[verifier::external_body]
fn table_len(m: &IndexMap<String, Plugin>) -> (r: usize)
    ensures
        r == plugin_table_entries(*m).len(),
{
    m.len()
}

/// A copy of a plugin.
pub fn duplicate_plugin(p: &Plugin) -> (r: Plugin)
    ensures
        plugin_view(r) == plugin_view(*p),
{
    Plugin {
        name: p.name.clone(),
        icon: match &p.icon {
            Some(i) => Some(i.duplicate()),
            None => None,
        },
        comment: match &p.comment {
            Some(c) => Some(c.clone()),
            None => None,
        },
        prefix: p.prefix.clone(),
        config: string_map_clone(&p.config),
    }
}

/// The table made of plugins inserted in order under their prefixes: a
/// plugin whose prefix is taken replaces the one that had it, in its place.
pub open spec fn table_of(plugins: Seq<PluginModel>) -> Seq<(Seq<char>, PluginModel)>
    decreases plugins.len(),
{
    if plugins.len() == 0 {
        Seq::empty()
    } else {
        assoc_insert(table_of(plugins.drop_last()), plugins.last().3, plugins.last())
    }
}

/// Plugins seen as `plugin_view`.
pub open spec fn plugins_view(v: Seq<Plugin>) -> Seq<PluginModel> {
    v.map_values(|p: Plugin| plugin_view(p))
}

/// Builds the table of the plugins, in order, each under its prefix (see `table_of`).
pub fn build_table(plugins: Vec<Plugin>) -> (r: IndexMap<String, Plugin>)
    ensures
        plugin_table_entries(r) == table_of(plugins_view(plugins@)),
        unique_keys(plugin_table_entries(r)),
{
    let mut m = table_new();
    let mut plugins = plugins;
    let ghost all = plugins_view(plugins@);
    let mut rest: Vec<Plugin> = Vec::new();
    // Take the plugins out in reverse, to insert them in order.
    while plugins.len() > 0
        invariant
            plugins_view(plugins@) + plugins_view(rest@).reverse() == all,
        decreases plugins.len(),
    {
        let ghost before_p = plugins@;
        let ghost before_r = rest@;
        let p = plugins.pop().unwrap();
        rest.push(p);
        proof {
            assert(plugins_view(before_p) =~= plugins_view(plugins@).push(plugin_view(p)));
            assert(plugins_view(rest@).reverse() =~= seq![plugin_view(p)] + plugins_view(before_r).reverse());
            assert(plugins_view(plugins@) + plugins_view(rest@).reverse() =~= plugins_view(before_p) + plugins_view(
                before_r,
            ).reverse());
        }
    }
    assert(plugins_view(rest@).reverse() =~= all);
    let ghost mut done: Seq<PluginModel> = Seq::empty();
    while rest.len() > 0
        invariant
            done + plugins_view(rest@).reverse() == all,
            plugin_table_entries(m) == table_of(done),
            unique_keys(plugin_table_entries(m)),
        decreases rest.len(),
    {
        let ghost before_r = rest@;
        let p = rest.pop().unwrap();
        let ghost v = plugin_view(p);
        let k = p.prefix.clone();
        let _ = table_insert_full(&mut m, k, p);
        proof {
            assert(plugins_view(before_r) =~= plugins_view(rest@).push(v));
            assert(plugins_view(before_r).reverse() =~= seq![v] + plugins_view(rest@).reverse());
            assert(done.push(v).drop_last() =~= done);
            assert(done.push(v) + plugins_view(rest@).reverse() =~= done + plugins_view(before_r).reverse());
            done = done.push(v);
        }
    }
    assert(done + plugins_view(rest@).reverse() =~= done);
    m
}

/// The index of the first plugin named `name`, if there is one.
pub open spec fn name_index(t: Seq<(Seq<char>, PluginModel)>, name: Seq<char>) -> Option<int> {
    if exists|i: int| first_named(t, name, i) {
        Some(choose|i: int| first_named(t, name, i))
    } else {
        None
    }
}

/// Whether `i` is the first index of a plugin named `name`.
pub open spec fn first_named(t: Seq<(Seq<char>, PluginModel)>, name: Seq<char>, i: int) -> bool {
    &&& 0 <= i < t.len()
    &&& t[i].1.0 == name
    &&& forall|k: int| 0 <= k < i ==> t[k].1.0 != name
}

/// The index of the first plugin named `name`, if there is one.
fn position_by_name(m: &IndexMap<String, Plugin>, name: &str) -> (r: Option<usize>)
    ensures
        match r {
            Some(i) => name_index(plugin_table_entries(*m), name@) == Some(i as int),
            None => name_index(plugin_table_entries(*m), name@) is None,
        },
{
    let ghost t = plugin_table_entries(*m);
    let n = table_len(m);
    let mut i: usize = 0;
    while i < n
        invariant
            0 <= i <= n,
            n == t.len(),
            t == plugin_table_entries(*m),
            forall|k: int| 0 <= k < i ==> t[k].1.0 != name@,
        decreases n - i,
    {
        match table_get_index(m, i) {
            Some((_, p)) => {
                if str_eq(p.name.as_str(), name) {
                    proof {
                        assert(first_named(t, name@, i as int));
                        let c = choose|c: int| first_named(t, name@, c);
                        if c < i {
                        } else if c > i {
                        }
                    }
                    return Some(i);
                }
            },
            None => {},
        }
        i += 1;
    }
    proof {
        assert(!exists|c: int| first_named(t, name@, c));
    }
    None
}

/// A plugin with a new prefix.
pub open spec fn with_prefix(p: PluginModel, prefix: Seq<char>) -> PluginModel {
    (p.0, p.1, p.2, prefix, p.4)
}

/// A plugin with the icon and comment of an override, where it gives them;
/// the icon is read relative to `dir`.
pub open spec fn with_looks(p: PluginModel, o: OverrideView, dir: Option<Seq<char>>) -> PluginModel {
    (
        p.0,
        match o.1 {
            Some(icon) => Some(icon_model_of(icon, dir)),
            None => p.1,
        },
        match o.2 {
            Some(c) => Some(c),
            None => p.2,
        },
        p.3,
        p.4,
    )
}

/// The table after the override of the plugin named `name`, or `None`
/// when no plugin has that name. A new prefix moves the plugin: it is
/// removed (the last plugin taking its place) and inserted under the new
/// prefix; then the icon and comment are set.
pub open spec fn override_step(t: Seq<(Seq<char>, PluginModel)>, name: Seq<char>, o: OverrideView, dir: Option<Seq<char>>) -> Option<Seq<(Seq<char>, PluginModel)>> {
    match name_index(t, name) {
        None => None,
        Some(i) => {
            let moved = match o.0 {
                Some(p) => assoc_insert(swap_remove_at(t, i), p, with_prefix(t[i].1, p)),
                None => t,
            };
            let j = match o.0 {
                Some(p) => assoc_find(moved, p),
                None => i,
            };
            Some(moved.update(j, (moved[j].0, with_looks(moved[j].1, o, dir))))
        },
    }
}

/// The table after the overrides, in order, and the names of the overrides
/// that matched no plugin.
pub open spec fn overrides_result(t: Seq<(Seq<char>, PluginModel)>, os: Seq<(Seq<char>, OverrideView)>, dir: Option<Seq<char>>) -> (Seq<(Seq<char>, PluginModel)>, Seq<Seq<char>>)
    decreases os.len(),
{
    if os.len() == 0 {
        (t, Seq::empty())
    } else {
        let (prev, unknown) = overrides_result(t, os.drop_last(), dir);
        match override_step(prev, os.last().0, os.last().1, dir) {
            Some(next) => (next, unknown),
            None => (prev, unknown.push(os.last().0)),
        }
    }
}

/// Sets the icon and comment of the plugin at `j` from an override.
fn set_looks(m: &mut IndexMap<String, Plugin>, j: usize, o: &Override, dir: &Option<String>)
    requires
        j < plugin_table_entries(*old(m)).len(),
        unique_keys(plugin_table_entries(*old(m))),
    ensures
        unique_keys(plugin_table_entries(*final(m))),
        plugin_table_entries(*final(m)) == plugin_table_entries(*old(m)).update(
            j as int,
            (
                plugin_table_entries(*old(m))[j as int].0,
                with_looks(plugin_table_entries(*old(m))[j as int].1, override_view(*o), opt_view(*dir)),
            ),
        ),
{
    let ghost t = plugin_table_entries(*m);
    let (k, mut p) = match table_get_index(m, j) {
        Some((k, p)) => (k.clone(), duplicate_plugin(p)),
        None => {
            return;
        },
    };
    match &o.icon {
        Some(icon) => {
            let d = match dir {
                Some(d) => Some(d.clone()),
                None => None,
            };
            p.icon = Some(IconPath::new(icon.clone(), d));
        },
        None => {},
    }
    match &o.comment {
        Some(c) => {
            p.comment = Some(c.clone());
        },
        None => {},
    }
    proof {
        lemma_assoc_find_unique(t, j as int);
        lemma_assoc_find(t, k@);
    }
    let _ = table_insert_full(m, k, p);
}

/// Applies the user's overrides of plugin prefixes, icons and comments, in
/// order (see `overrides_result`); icons are read relative to `dir`, the
/// configuration directory. Gives the names of the overrides that matched
/// no plugin.
pub fn apply_overrides(m: &mut IndexMap<String, Plugin>, overrides: &Vec<(String, Override)>, dir: &Option<String>) -> (r: Vec<String>)
    requires
        unique_keys(plugin_table_entries(*old(m))),
    ensures
        unique_keys(plugin_table_entries(*final(m))),
        ({
            let (t, unknown) = overrides_result(
                plugin_table_entries(*old(m)),
                crate::config::overrides_view(overrides@),
                opt_view(*dir),
            );
            &&& plugin_table_entries(*final(m)) == t
            &&& r@.map_values(|s: String| s@) == unknown
        }),
{
    let ghost t0 = plugin_table_entries(*m);
    let ghost os = crate::config::overrides_view(overrides@);
    let ghost d = opt_view(*dir);
    let mut unknown: Vec<String> = Vec::new();
    let mut i: usize = 0;
    while i < overrides.len()
        invariant
            0 <= i <= overrides.len(),
            os == crate::config::overrides_view(overrides@),
            d == opt_view(*dir),
            unique_keys(plugin_table_entries(*m)),
            overrides_result(t0, os.take(i as int), d) == (
                plugin_table_entries(*m),
                unknown@.map_values(|s: String| s@),
            ),
        decreases overrides.len() - i,
    {
        let (name, o) = &overrides[i];
        let ghost t = plugin_table_entries(*m);
        proof {
            assert(os.take(i + 1).drop_last() =~= os.take(i as int));
            assert(os.take(i + 1).last() == (name@, override_view(*o)));
        }
        match position_by_name(m, name.as_str()) {
            None => {
                let ghost before = unknown@;
                unknown.push(name.clone());
                assert(unknown@.map_values(|s: String| s@) =~= before.map_values(|s: String| s@).push(name@));
            },
            Some(idx) => {
                let j = match &o.prefix {
                    Some(prefix) => {
                        match table_swap_remove_index(m, idx) {
                            Some((_, plugin)) => {
                                let mut plugin = plugin;
                                proof {
                                    lemma_swap_remove(t, idx as int);
                                }
                                plugin.prefix = prefix.clone();
                                let (j, _) = table_insert_full(m, prefix.clone(), plugin);
                                proof {
                                    lemma_assoc_find(plugin_table_entries(*m), prefix@);
                                    lemma_assoc_insert(swap_remove_at(t, idx as int), prefix@, with_prefix(t[idx as int].1, prefix@));
                                }
                                j
                            },
                            None => idx,
                        }
                    },
                    None => idx,
                };
                set_looks(m, j, o, dir);
            },
        }
        i += 1;
    }
    assert(os.take(overrides.len() as int) =~= os);
    unknown
}

/// The options of a plugin after the user's values: each value whose key the
/// plugin declares replaces the default, in place; the others are unknown
/// and listed.
pub open spec fn set_options(config: Pairs, values: Pairs) -> (Pairs, Seq<Seq<char>>)
    decreases values.len(),
{
    if values.len() == 0 {
        (config, Seq::empty())
    } else {
        let (prev, unknown) = set_options(config, values.drop_last());
        let (k, v) = values.last();
        if assoc_get(prev, k) is Some {
            (assoc_insert(prev, k, v), unknown)
        } else {
            (prev, unknown.push(k))
        }
    }
}

/// A plugin with new options.
pub open spec fn with_options(p: PluginModel, config: Pairs) -> PluginModel {
    (p.0, p.1, p.2, p.3, config)
}

/// The table after the user's option values for the plugins, in order,
/// and the warnings: a plugin name with no unknown field for an unknown
/// plugin, or with the field for an option the plugin does not declare.
pub open spec fn configs_result(t: Seq<(Seq<char>, PluginModel)>, cs: Seq<(Seq<char>, Pairs)>) -> (Seq<(Seq<char>, PluginModel)>, Seq<(Seq<char>, Option<Seq<char>>)>)
    decreases cs.len(),
{
    if cs.len() == 0 {
        (t, Seq::empty())
    } else {
        let (prev, warnings) = configs_result(t, cs.drop_last());
        let (name, values) = cs.last();
        match name_index(prev, name) {
            None => (prev, warnings.push((name, None))),
            Some(i) => {
                let (config, unknown) = set_options(prev[i].1.4, values);
                (
                    prev.update(i, (prev[i].0, with_options(prev[i].1, config))),
                    warnings + unknown.map_values(|f: Seq<char>| (name, Some(f))),
                )
            },
        }
    }
}

/// Sets the options of a plugin from the user's values (see `set_options`);
/// gives the unknown keys.
fn set_plugin_options(p: &mut Plugin, values: &IndexMap<String, String>) -> (r: Vec<String>)
    ensures
        ({
            let (config, unknown) = set_options(string_map_entries(old(p).config), string_map_entries(*values));
            &&& plugin_view(*final(p)) == with_options(plugin_view(*old(p)), config)
            &&& r@.map_values(|s: String| s@) == unknown
        }),
{
    let pairs = string_map_pairs(values);
    let ghost vs = string_map_entries(*values);
    let ghost c0 = string_map_entries(p.config);
    let ghost p0 = plugin_view(*p);
    let mut unknown: Vec<String> = Vec::new();
    let mut i: usize = 0;
    while i < pairs.len()
        invariant
            0 <= i <= pairs.len(),
            pairs_view(pairs@) == vs,
            vs == string_map_entries(*values),
            p0.0 == p.name@ && p0.3 == p.prefix@,
            p0.1 == plugin_view(*p).1 && p0.2 == plugin_view(*p).2,
            set_options(c0, vs.take(i as int)) == (string_map_entries(p.config), unknown@.map_values(|s: String| s@)),
        decreases pairs.len() - i,
    {
        let (k, v) = &pairs[i];
        proof {
            assert(vs.take(i + 1).drop_last() =~= vs.take(i as int));
            assert(vs.take(i + 1).last() == (k@, v@));
        }
        let known = match string_map_get(&p.config, k.as_str()) {
            Some(_) => true,
            None => false,
        };
        if known {
            let _ = string_map_insert(&mut p.config, k.clone(), v.clone());
        } else {
            let ghost before = unknown@;
            unknown.push(k.clone());
            assert(unknown@.map_values(|s: String| s@) =~= before.map_values(|s: String| s@).push(k@));
        }
        i += 1;
    }
    assert(vs.take(pairs.len() as int) =~= vs);
    unknown
}

/// An override with a new prefix moves the plugin under that prefix: the
/// plugin named in the override is then found under its new prefix, with
/// that prefix, and the prefixes stay unique.
pub proof fn lemma_override_moves_plugin(t: Seq<(Seq<char>, PluginModel)>, name: Seq<char>, o: OverrideView, dir: Option<Seq<char>>)
    requires
        unique_keys(t),
        name_index(t, name) is Some,
        o.0 is Some,
    ensures
        override_step(t, name, o, dir) matches Some(t2) && {
            &&& unique_keys(t2)
            &&& assoc_get(t2, o.0->0) matches Some(m) && m.0 == name && m.3 == o.0->0
        },
{
    let i = name_index(t, name)->0;
    assert(first_named(t, name, i));
    let p = o.0->0;
    let removed = swap_remove_at(t, i);
    lemma_swap_remove(t, i);
    let moved = assoc_insert(removed, p, with_prefix(t[i].1, p));
    lemma_assoc_insert(removed, p, with_prefix(t[i].1, p));
    lemma_assoc_find(moved, p);
    let j = assoc_find(moved, p);
    let t2 = moved.update(j, (moved[j].0, with_looks(moved[j].1, o, dir)));
    assert(unique_keys(t2)) by {
        assert forall|a: int, b: int| 0 <= a < b < t2.len() implies t2[a].0 != t2[b].0 by {
            assert(t2[a].0 == moved[a].0);
            assert(t2[b].0 == moved[b].0);
        }
    }
    lemma_assoc_find_unique(t2, j);
    assert(t2[j].0 == p);
}

/// An override changes only what it gives. The plugin it names is found
/// afterwards under the new prefix when the override gives one, else under
/// its own; it keeps its name and options, takes the new prefix, icon and
/// comment where the override gives them, and keeps its own prefix, icon
/// and comment where it does not.
pub proof fn lemma_override_changes_only_given(
    t: Seq<(Seq<char>, PluginModel)>,
    name: Seq<char>,
    o: OverrideView,
    dir: Option<Seq<char>>,
)
    requires
        unique_keys(t),
        name_index(t, name) is Some,
    ensures
        ({
            let p = t[name_index(t, name)->0];
            let key = match o.0 {
                Some(n) => n,
                None => p.0,
            };
            override_step(t, name, o, dir) matches Some(t2) && assoc_get(t2, key) matches Some(m) && {
                &&& m.0 == p.1.0
                &&& m.4 == p.1.4
                &&& (o.0 matches Some(n) ==> m.3 == n)
                &&& (o.0 is None ==> m.3 == p.1.3)
                &&& (o.1 matches Some(i) ==> m.1 == Some(icon_model_of(i, dir)))
                &&& (o.1 is None ==> m.1 == p.1.1)
                &&& (o.2 matches Some(c) ==> m.2 == Some(c))
                &&& (o.2 is None ==> m.2 == p.1.2)
            }
        }),
{
    let i = name_index(t, name)->0;
    assert(first_named(t, name, i));
    match o.0 {
        Some(np) => {
            let removed = swap_remove_at(t, i);
            lemma_swap_remove(t, i);
            let moved = assoc_insert(removed, np, with_prefix(t[i].1, np));
            lemma_assoc_insert(removed, np, with_prefix(t[i].1, np));
            lemma_assoc_find(moved, np);
            let j = assoc_find(moved, np);
            assert(moved[j].1 == with_prefix(t[i].1, np));
            let t2 = moved.update(j, (moved[j].0, with_looks(moved[j].1, o, dir)));
            assert(unique_keys(t2)) by {
                assert forall|a: int, b: int| 0 <= a < b < t2.len() implies t2[a].0 != t2[b].0 by {
                    assert(t2[a].0 == moved[a].0);
                    assert(t2[b].0 == moved[b].0);
                }
            }
            lemma_assoc_find_unique(t2, j);
            assert(t2[j].0 == np);
        },
        None => {
            let t2 = t.update(i, (t[i].0, with_looks(t[i].1, o, dir)));
            assert(unique_keys(t2)) by {
                assert forall|a: int, b: int| 0 <= a < b < t2.len() implies t2[a].0 != t2[b].0 by {
                    assert(t2[a].0 == t[a].0);
                    assert(t2[b].0 == t[b].0);
                }
            }
            lemma_assoc_find_unique(t2, i);
        },
    }
}

/// Setting option values keeps the options a plugin declares, in order:
/// values for undeclared options are not added.
pub proof fn lemma_options_keep_keys(config: Pairs, values: Pairs)
    requires
        unique_keys(config),
    ensures
        crate::assoc::assoc_keys(set_options(config, values).0) == crate::assoc::assoc_keys(config),
        unique_keys(set_options(config, values).0),
    decreases values.len(),
{
    if values.len() > 0 {
        lemma_options_keep_keys(config, values.drop_last());
        let prev = set_options(config, values.drop_last()).0;
        let (k, v) = values.last();
        if assoc_get(prev, k) is Some {
            lemma_assoc_find(prev, k);
            lemma_assoc_insert(prev, k, v);
            let next = assoc_insert(prev, k, v);
            assert(crate::assoc::assoc_keys(next) =~= crate::assoc::assoc_keys(prev));
        }
    }
}

/// Applies the user's option values for the plugins, in order (see
/// `configs_result`). Gives the warnings: a plugin name with `None` for an
/// unknown plugin, with the field for an unknown option.
pub fn apply_configs(m: &mut IndexMap<String, Plugin>, configs: &Vec<(String, IndexMap<String, String>)>) -> (r: Vec<(String, Option<String>)>)
    requires
        unique_keys(plugin_table_entries(*old(m))),
    ensures
        unique_keys(plugin_table_entries(*final(m))),
        ({
            let (t, warnings) = configs_result(plugin_table_entries(*old(m)), crate::config::configs_view(configs@));
            &&& plugin_table_entries(*final(m)) == t
            &&& r@.map_values(|w: (String, Option<String>)| (w.0@, opt_view(w.1))) == warnings
        }),
{
    let ghost t0 = plugin_table_entries(*m);
    let ghost cs = crate::config::configs_view(configs@);
    let mut warnings: Vec<(String, Option<String>)> = Vec::new();
    let mut i: usize = 0;
    while i < configs.len()
        invariant
            0 <= i <= configs.len(),
            cs == crate::config::configs_view(configs@),
            unique_keys(plugin_table_entries(*m)),
            configs_result(t0, cs.take(i as int)) == (
                plugin_table_entries(*m),
                warnings@.map_values(|w: (String, Option<String>)| (w.0@, opt_view(w.1))),
            ),
        decreases configs.len() - i,
    {
        let (name, values) = &configs[i];
        let ghost t = plugin_table_entries(*m);
        let ghost before = warnings@;
        proof {
            assert(cs.take(i + 1).drop_last() =~= cs.take(i as int));
            assert(cs.take(i + 1).last() == (name@, string_map_entries(*values)));
        }
        match position_by_name(m, name.as_str()) {
            None => {
                warnings.push((name.clone(), None));
                assert(warnings@.map_values(|w: (String, Option<String>)| (w.0@, opt_view(w.1))) =~= before.map_values(
                    |w: (String, Option<String>)| (w.0@, opt_view(w.1)),
                ).push((name@, None)));
            },
            Some(idx) => {
                let (k, mut p) = match table_get_index(m, idx) {
                    Some((k, p)) => (k.clone(), duplicate_plugin(p)),
                    None => {
                        return warnings;
                    },
                };
                let unknown = set_plugin_options(&mut p, values);
                proof {
                    lemma_assoc_find_unique(t, idx as int);
                }
                let _ = table_insert_full(m, k, p);
                let mut u: usize = 0;
                let ghost mid = warnings@;
                while u < unknown.len()
                    invariant
                        0 <= u <= unknown.len(),
                        warnings@.map_values(|w: (String, Option<String>)| (w.0@, opt_view(w.1))) == mid.map_values(
                            |w: (String, Option<String>)| (w.0@, opt_view(w.1)),
                        ) + unknown@.take(u as int).map_values(|s: String| (name@, Some(s@))),
                    decreases unknown.len() - u,
                {
                    let ghost b = warnings@;
                    warnings.push((name.clone(), Some(unknown[u].clone())));
                    proof {
                        assert(unknown@.take(u + 1) =~= unknown@.take(u as int).push(unknown@[u as int]));
                        assert(warnings@.map_values(|w: (String, Option<String>)| (w.0@, opt_view(w.1))) =~= b.map_values(
                            |w: (String, Option<String>)| (w.0@, opt_view(w.1)),
                        ).push((name@, Some(unknown@[u as int]@))));
                        assert(unknown@.take(u + 1).map_values(|s: String| (name@, Some(s@))) =~= unknown@.take(
                            u as int,
                        ).map_values(|s: String| (name@, Some(s@))).push((name@, Some(unknown@[u as int]@))));
                    }
                    u += 1;
                }
                proof {
                    assert(unknown@.take(unknown.len() as int) =~= unknown@);
                    assert(unknown@.map_values(|s: String| (name@, Some(s@))) =~= unknown@.map_values(|s: String| s@).map_values(
                        |f: Seq<char>| (name@, Some(f)),
                    ));
                }
            },
        }
        i += 1;
    }
    assert(cs.take(configs.len() as int) =~= cs);
    warnings
}

/// The indices of the default plugins, by prefix, in order, and the prefixes
/// of no plugin.
pub open spec fn defaults_result(t: Seq<(Seq<char>, PluginModel)>, prefixes: Seq<Seq<char>>) -> (Seq<int>, Seq<Seq<char>>)
    decreases prefixes.len(),
{
    if prefixes.len() == 0 {
        (Seq::empty(), Seq::empty())
    } else {
        let (found, unknown) = defaults_result(t, prefixes.drop_last());
        let i = assoc_find(t, prefixes.last());
        if i >= 0 {
            (found.push(i), unknown)
        } else {
            (found, unknown.push(prefixes.last()))
        }
    }
}

/// The plugins that show when no prefix is typed: those whose prefixes the
/// user listed, in order; gives the unknown prefixes too.
pub fn default_plugins(m: &IndexMap<String, Plugin>, prefixes: &Vec<String>) -> (r: (Vec<PluginIndex>, Vec<String>))
    ensures
        ({
            let (found, unknown) = defaults_result(plugin_table_entries(*m), prefixes@.map_values(|s: String| s@));
            &&& r.0@.map_values(|p: PluginIndex| p.0 as int) == found
            &&& r.1@.map_values(|s: String| s@) == unknown
        }),
{
    let ghost ps = prefixes@.map_values(|s: String| s@);
    let ghost t = plugin_table_entries(*m);
    let mut found: Vec<PluginIndex> = Vec::new();
    let mut unknown: Vec<String> = Vec::new();
    let mut i: usize = 0;
    while i < prefixes.len()
        invariant
            0 <= i <= prefixes.len(),
            ps == prefixes@.map_values(|s: String| s@),
            t == plugin_table_entries(*m),
            defaults_result(t, ps.take(i as int)) == (
                found@.map_values(|p: PluginIndex| p.0 as int),
                unknown@.map_values(|s: String| s@),
            ),
        decreases prefixes.len() - i,
    {
        proof {
            assert(ps.take(i + 1).drop_last() =~= ps.take(i as int));
            assert(ps.take(i + 1).last() == prefixes@[i as int]@);
        }
        match table_get_index_of(m, prefixes[i].as_str()) {
            Some(idx) => {
                let ghost b = found@;
                found.push(PluginIndex(idx));
                assert(found@.map_values(|p: PluginIndex| p.0 as int) =~= b.map_values(|p: PluginIndex| p.0 as int).push(
                    idx as int,
                ));
            },
            None => {
                let ghost b = unknown@;
                unknown.push(prefixes[i].clone());
                assert(unknown@.map_values(|s: String| s@) =~= b.map_values(|s: String| s@).push(prefixes@[i as int]@));
            },
        }
        i += 1;
    }
    assert(ps.take(prefixes.len() as int) =~= ps);
    (found, unknown)
}

} // verus!
