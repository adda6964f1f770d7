//! The launcher's configuration, read from an INI text.
//!
//! The `[keal]` section sets the general fields; sections claimed by the
//! frontend are handed to it field by field; a section `[<plugin>.plugin]`
//! overrides the prefix, icon or comment of a plugin, and a section
//! `[<plugin>.config]` sets the configuration options of a plugin.

use vstd::prelude::*;
use indexmap::IndexMap;
use crate::assoc::{assoc_find, assoc_get, assoc_insert};
use crate::index_map::{pairs_view, string_map_clone, string_map_entries};
use crate::number::{float_text, is_float_text};
use crate::ini_parser::{parse_ini, remove_key, Ini, Pairs, Section, SectionPairs};
use crate::text::{rsplit_once, split, split_char, str_eq};

verus! {

/// The characters that start a comment in a configuration file.
pub open spec fn config_comment_chars() -> Seq<char> {
    seq!['#', ';']
}

/// `"true"` and `"false"` and nothing else are booleans.
pub open spec fn parse_bool_spec(s: Seq<char>) -> Option<bool> {
    if s == "true"@ {
        Some(true)
    } else if s == "false"@ {
        Some(false)
    } else {
        None
    }
}

/// Parses a boolean field value.
pub fn parse_bool(s: &str) -> (r: Option<bool>)
    ensures
        r == parse_bool_spec(s@),
{
    if str_eq(s, "true") {
        Some(true)
    } else if str_eq(s, "false") {
        Some(false)
    } else {
        None
    }
}

/// Parses a list field value: the pieces between commas, untrimmed.
pub fn parse_list(s: &str) -> (r: Vec<String>)
    ensures
        r@.map_values(|x: String| x@) == split_char(s@, ','),
{
    split(s, ',')
}

/// Overrides of a plugin's presentation, set by the user.
#[derive(Debug)]
pub struct Override {
    pub prefix: Option<String>,
    pub icon: Option<String>,
    pub comment: Option<String>,
}

/// An optional string seen as characters.
pub open spec fn opt_view(o: Option<String>) -> Option<Seq<char>> {
    match o {
        Some(s) => Some(s@),
        None => None,
    }
}

/// The prefix, icon and comment of an override.
pub type OverrideView = (Option<Seq<char>>, Option<Seq<char>>, Option<Seq<char>>);

/// An override seen as characters.
pub open spec fn override_view(o: Override) -> OverrideView {
    (opt_view(o.prefix), opt_view(o.icon), opt_view(o.comment))
}

/// The override that the fields of a `.plugin` section give.
pub open spec fn override_of(pairs: Pairs) -> OverrideView {
    (assoc_get(pairs, "prefix"@), assoc_get(pairs, "icon"@), assoc_get(pairs, "comment"@))
}

impl Override {
    /// An override that changes nothing.
    pub fn new() -> (r: Self)
        ensures
            override_view(r) == (None::<Seq<char>>, None::<Seq<char>>, None::<Seq<char>>),
    {
        Override { prefix: None, icon: None, comment: None }
    }

    /// The override given by the fields of a `.plugin` section; other fields are ignored.
    pub fn from_section(section: &Section) -> (r: Self)
        ensures
            override_view(r) == override_of(section.entries()),
    {
        Override {
            prefix: clone_opt(section.get("prefix")),
            icon: clone_opt(section.get("icon")),
            comment: clone_opt(section.get("comment")),
        }
    }
}

fn clone_opt(o: Option<&String>) -> (r: Option<String>)
    ensures
        opt_view(r) == match o {
            Some(s) => Some(s@),
            None => None::<Seq<char>>,
        },
{
    match o {
        Some(s) => Some(s.clone()),
        None => None,
    }
}

/// Overrides keyed by plugin name, seen as characters.
pub open spec fn overrides_view(v: Seq<(String, Override)>) -> Seq<(Seq<char>, OverrideView)> {
    v.map_values(|p: (String, Override)| (p.0@, override_view(p.1)))
}

/// Plugin configurations keyed by plugin name, seen as characters.
pub open spec fn configs_view(v: Seq<(String, IndexMap<String, String>)>) -> Seq<(Seq<char>, Pairs)> {
    v.map_values(|p: (String, IndexMap<String, String>)| (p.0@, string_map_entries(p.1)))
}

/// A field whose value is not valid, or a section of an unknown kind.
#[derive(Debug)]
pub enum ConfigWarning {
    /// `field = value` where the value does not parse.
    InvalidField { field: String, message: String, value: String },
    /// A section `[name.kind]` where the kind is neither `plugin` nor `config`.
    UnknownKind { name: String, kind: String },
}

/// The general configuration of the launcher.
pub struct Config {
    pub font: String,
    /// The text of the font size, a number (see `float_text`); the frontend
    /// reads it as one.
    pub font_size: String,
    pub icon_theme: Vec<String>,
    pub usage_frequency: bool,
    pub terminal_path: String,
    pub placeholder_text: String,
    pub default_plugins: Vec<String>,
    /// Overrides by plugin name, each name once.
    pub plugin_overrides: Vec<(String, Override)>,
    /// Configuration options by plugin name, each name once.
    pub plugin_configs: Vec<(String, IndexMap<String, String>)>,
}

/// A list of strings seen as characters.
pub open spec fn strings_view(v: Seq<String>) -> Seq<Seq<char>> {
    v.map_values(|x: String| x@)
}

/// The value of a field of the `[keal]` section of a configuration text.
pub open spec fn keal_field(content: Seq<char>, key: Seq<char>) -> Option<Seq<char>> {
    match assoc_get(parse_ini(content, config_comment_chars()).1, "keal"@) {
        Some(pairs) => assoc_get(pairs, key),
        None => None,
    }
}

/// The sections left once those named in `names` are taken out, in order.
pub open spec fn remove_keys(s: SectionPairs, names: Seq<Seq<char>>) -> SectionPairs
    decreases names.len(),
{
    if names.len() == 0 {
        s
    } else {
        remove_key(remove_keys(s, names.drop_last()), names.last())
    }
}

/// Plugin overrides, plugin configurations and unknown section kinds after
/// reading the given sections in order.
pub open spec fn plugin_sections(
    ov: Seq<(Seq<char>, OverrideView)>,
    cfg: Seq<(Seq<char>, Pairs)>,
    sections: SectionPairs,
) -> (Seq<(Seq<char>, OverrideView)>, Seq<(Seq<char>, Pairs)>, Seq<(Seq<char>, Seq<char>)>)
    decreases sections.len(),
{
    if sections.len() == 0 {
        (ov, cfg, Seq::empty())
    } else {
        let (o, c, u) = plugin_sections(ov, cfg, sections.drop_last());
        let (name, pairs) = sections.last();
        match rsplit_once(name, '.') {
            Some((n, kind)) => if kind == "plugin"@ {
                (assoc_insert(o, n, override_of(pairs)), c, u)
            } else if kind == "config"@ {
                (o, assoc_insert(c, n, pairs), u)
            } else {
                (o, c, u.push((n, kind)))
            },
            None => (o, c, u),
        }
    }
}

/// A frontend that reads sections of the configuration of its own.
pub trait FrontendConfig: Sized {
    /// The names of the sections the frontend reads.
    spec fn section_names(&self) -> Seq<Seq<char>>;

    /// Whether reading the field `field` (its name and value) takes the
    /// frontend from `self` to `new`.
    spec fn field_added(self, new: Self, field: (Seq<char>, Seq<char>)) -> bool;

    /// The sections of the configuration file read by this frontend.
    fn sections(&self) -> (r: Vec<String>)
        ensures
            strings_view(r@) == self.section_names(),
    ;

    /// Reads a field of one of its sections.
    fn add_field(&mut self, field: (String, String))
        ensures
            old(self).field_added(*final(self), (field.0@, field.1@)),
    ;
}

/// The pairs of the sections called `names`, in the order of the names; a
/// section is taken out when its name first comes, so a name given twice
/// adds its pairs once.
pub open spec fn frontend_fields(s: SectionPairs, names: Seq<Seq<char>>) -> Pairs
    decreases names.len(),
{
    if names.len() == 0 {
        Seq::empty()
    } else {
        frontend_fields(s, names.drop_last()) + match assoc_get(
            remove_keys(s, names.drop_last()),
            names.last(),
        ) {
            Some(p) => p,
            None => Seq::empty(),
        }
    }
}

/// Whether reading the fields in order takes the frontend from `from` to `to`.
pub open spec fn fields_added<T: FrontendConfig>(from: T, to: T, fields: Pairs) -> bool
    decreases fields.len(),
{
    if fields.len() == 0 {
        from == to
    } else {
        exists|mid: T| fields_added(from, mid, fields.drop_last()) && #[trigger] mid.field_added(to, fields.last())
    }
}

/// The pairs of the `[keal]` section of a configuration text.
pub open spec fn keal_pairs(content: Seq<char>) -> Pairs {
    match assoc_get(parse_ini(content, config_comment_chars()).1, "keal"@) {
        Some(p) => p,
        None => Seq::empty(),
    }
}

/// The warning a field of the `[keal]` section gives: a `font_size` that is
/// not a number, or a `usage_frequency` that is not a boolean.
pub open spec fn keal_field_warning(key: Seq<char>, value: Seq<char>) -> Seq<(bool, Seq<char>, Seq<char>)> {
    if (key == "font_size"@ && !float_text(value)) || (key == "usage_frequency"@ && parse_bool_spec(value) is None) {
        seq![(true, key, value)]
    } else {
        Seq::empty()
    }
}

/// The warnings of the fields of the `[keal]` section, in their order.
pub open spec fn keal_warnings(pairs: Pairs) -> Seq<(bool, Seq<char>, Seq<char>)>
    decreases pairs.len(),
{
    if pairs.len() == 0 {
        Seq::empty()
    } else {
        keal_warnings(pairs.drop_last()) + keal_field_warning(pairs.last().0, pairs.last().1)
    }
}

/// Takes the sections called `names` out of `file`, in order, and gives
/// their pairs in order.
fn take_sections(file: &mut Ini, names: &Vec<String>) -> (fields: Vec<(String, String)>)
    ensures
        final(file).sections_model() == remove_keys(old(file).sections_model(), strings_view(names@)),
        pairs_view(fields@) == frontend_fields(old(file).sections_model(), strings_view(names@)),
{
    let ghost parsed = file.sections_model();
    let mut fields: Vec<(String, String)> = Vec::new();
    let mut i: usize = 0;
    assert(strings_view(names@).take(0) =~= Seq::<Seq<char>>::empty());
    while i < names.len()
        invariant
            0 <= i <= names.len(),
            parsed == old(file).sections_model(),
            file.sections_model() == remove_keys(parsed, strings_view(names@).take(i as int)),
            pairs_view(fields@) == frontend_fields(parsed, strings_view(names@).take(i as int)),
        decreases names.len() - i,
    {
        let ghost before = fields@;
        let ghost model = file.sections_model();
        let removed = file.remove_section(names[i].as_str());
        proof {
            assert(strings_view(names@).take(i + 1).drop_last() =~= strings_view(names@).take(i as int));
            assert(strings_view(names@).take(i + 1).last() == names@[i as int]@);
        }
        if let Some(section) = removed {
            let mut pairs = section.into_iter();
            let ghost added = pairs@;
            fields.append(&mut pairs);
            proof {
                assert(pairs_view(fields@) =~= pairs_view(before) + pairs_view(added));
            }
        } else {
            proof {
                assert(pairs_view(fields@) =~= pairs_view(before) + Seq::<(Seq<char>, Seq<char>)>::empty());
            }
        }
        i += 1;
    }
    assert(strings_view(names@).take(names.len() as int) =~= strings_view(names@));
    fields
}

impl Config {
    /// An empty configuration: empty strings and lists, no overrides, `usage_frequency` off.
    pub fn default() -> (r: Self)
        ensures
            r.font@ == Seq::<char>::empty(),
            r.font_size@ == Seq::<char>::empty(),
            r.icon_theme@ == Seq::<String>::empty(),
            r.usage_frequency == false,
            r.terminal_path@ == Seq::<char>::empty(),
            r.placeholder_text@ == Seq::<char>::empty(),
            r.default_plugins@ == Seq::<String>::empty(),
            r.plugin_overrides@ == Seq::<(String, Override)>::empty(),
            r.plugin_configs@ == Seq::<(String, IndexMap<String, String>)>::empty(),
    {
        Config {
            font: String::new(),
            font_size: String::new(),
            icon_theme: Vec::new(),
            terminal_path: String::new(),
            placeholder_text: String::new(),
            usage_frequency: false,
            default_plugins: Vec::new(),
            plugin_overrides: Vec::new(),
            plugin_configs: Vec::new(),
        }
    }

    /// Reads the configuration text `content` on top of the current values:
    /// the fields of `[keal]` (a `font_size` that is not a number and a
    /// `usage_frequency` that is not a boolean are kept as they were), the
    /// fields of the frontend's sections, handed to it in order, and the
    /// plugin sections. Returns the problems found: the invalid fields of
    /// `[keal]` in their order, then the sections of unknown kind.
    pub fn add_from_string<T: FrontendConfig>(
        &mut self,
        frontend: &mut T,
        content: String,
    ) -> (warnings: Vec<ConfigWarning>)
        ensures
            final(self).font@ == keal_field(content@, "font"@).unwrap_or(old(self).font@),
            final(self).font_size@ == match keal_field(content@, "font_size"@) {
                Some(v) => if float_text(v) {
                    v
                } else {
                    old(self).font_size@
                },
                None => old(self).font_size@,
            },
            final(self).terminal_path@ == keal_field(content@, "terminal_path"@).unwrap_or(
                old(self).terminal_path@,
            ),
            final(self).placeholder_text@ == keal_field(content@, "placeholder_text"@).unwrap_or(
                old(self).placeholder_text@,
            ),
            strings_view(final(self).icon_theme@) == match keal_field(content@, "icon_theme"@) {
                Some(v) => split_char(v, ','),
                None => strings_view(old(self).icon_theme@),
            },
            strings_view(final(self).default_plugins@) == match keal_field(
                content@,
                "default_plugins"@,
            ) {
                Some(v) => split_char(v, ','),
                None => strings_view(old(self).default_plugins@),
            },
            final(self).usage_frequency == match keal_field(content@, "usage_frequency"@) {
                Some(v) => match parse_bool_spec(v) {
                    Some(b) => b,
                    None => old(self).usage_frequency,
                },
                None => old(self).usage_frequency,
            },
            ({
                let rest = remove_keys(
                    parse_ini(content@, config_comment_chars()).1,
                    old(frontend).section_names(),
                );
                let (o, c, u) = plugin_sections(
                    overrides_view(old(self).plugin_overrides@),
                    configs_view(old(self).plugin_configs@),
                    rest,
                );
                &&& overrides_view(final(self).plugin_overrides@) == o
                &&& configs_view(final(self).plugin_configs@) == c
                &&& warnings_view(warnings@) == keal_warnings(keal_pairs(content@)) + unknown_warnings(u)
            }),
            fields_added(
                *old(frontend),
                *final(frontend),
                frontend_fields(parse_ini(content@, config_comment_chars()).1, old(frontend).section_names()),
            ),
    {
        let comment_chars = ['#', ';'];
        let cc: &[char] = &comment_chars;
        assert(cc@ =~= config_comment_chars());
        let mut file = Ini::from_string(content, cc);
        let mut warnings: Vec<ConfigWarning> = Vec::new();
        assert(warnings_view(warnings@) =~= Seq::empty());
        match file.section("keal") {
            Some(keal) => {
                if let Some(v) = keal.get("font") {
                    self.font = v.clone();
                }
                if let Some(v) = keal.get("font_size") {
                    if is_float_text(v.as_str()) {
                        self.font_size = v.clone();
                    }
                }
                if let Some(v) = keal.get("icon_theme") {
                    self.icon_theme = parse_list(v.as_str());
                }
                if let Some(v) = keal.get("usage_frequency") {
                    if let Some(b) = parse_bool(v.as_str()) {
                        self.usage_frequency = b;
                    }
                }
                if let Some(v) = keal.get("terminal_path") {
                    self.terminal_path = v.clone();
                }
                if let Some(v) = keal.get("placeholder_text") {
                    self.placeholder_text = v.clone();
                }
                if let Some(v) = keal.get("default_plugins") {
                    self.default_plugins = parse_list(v.as_str());
                }
                let pairs = keal.iter();
                let mut i: usize = 0;
                assert(pairs_view(pairs@).take(0) =~= Seq::<(Seq<char>, Seq<char>)>::empty());
                while i < pairs.len()
                    invariant
                        0 <= i <= pairs.len(),
                        warnings_view(warnings@) == keal_warnings(pairs_view(pairs@).take(i as int)),
                    decreases pairs.len() - i,
                {
                    let key = &pairs[i].0;
                    let value = &pairs[i].1;
                    let ghost old_w = warnings@;
                    proof {
                        assert(pairs_view(pairs@).take(i + 1).drop_last() =~= pairs_view(pairs@).take(i as int));
                        assert(pairs_view(pairs@).take(i + 1).last() == (key@, value@));
                    }
                    if str_eq(key.as_str(), "font_size") && !is_float_text(value.as_str()) {
                        warnings.push(
                            ConfigWarning::InvalidField {
                                field: key.clone(),
                                message: "invalid float literal".to_owned(),
                                value: value.clone(),
                            },
                        );
                        assert(warnings_view(warnings@) =~= warnings_view(old_w).push((true, key@, value@)));
                    } else if str_eq(key.as_str(), "usage_frequency") && parse_bool(value.as_str()).is_none() {
                        warnings.push(
                            ConfigWarning::InvalidField {
                                field: key.clone(),
                                message: "invalid boolean".to_owned(),
                                value: value.clone(),
                            },
                        );
                        assert(warnings_view(warnings@) =~= warnings_view(old_w).push((true, key@, value@)));
                    } else {
                        assert(keal_field_warning(key@, value@) =~= Seq::empty());
                    }
                    i += 1;
                }
                assert(pairs_view(pairs@).take(pairs.len() as int) =~= pairs_view(pairs@));
            },
            None => {},
        }
        let ghost w0 = warnings_view(warnings@);
        let names = frontend.sections();
        let ghost parsed = file.sections_model();
        let fields = take_sections(&mut file, &names);
        let ghost fs = pairs_view(fields@);
        let mut j: usize = 0;
        assert(fs.take(0) =~= Seq::<(Seq<char>, Seq<char>)>::empty());
        while j < fields.len()
            invariant
                0 <= j <= fields.len(),
                fs == pairs_view(fields@),
                fields_added(*old(frontend), *frontend, fs.take(j as int)),
            decreases fields.len() - j,
        {
            let ghost prev = *frontend;
            let field = (fields[j].0.clone(), fields[j].1.clone());
            frontend.add_field(field);
            proof {
                assert(fs.take(j + 1).drop_last() =~= fs.take(j as int));
                assert(fs.take(j + 1).last() == fs[j as int]);
                assert(prev.field_added(*frontend, fs.take(j + 1).last()));
            }
            j += 1;
        }
        assert(fs.take(fields.len() as int) =~= fs);
        let mut overrides: Vec<(String, Override)> = Vec::new();
        std::mem::swap(&mut overrides, &mut self.plugin_overrides);
        let mut configs: Vec<(String, IndexMap<String, String>)> = Vec::new();
        std::mem::swap(&mut configs, &mut self.plugin_configs);
        let sections = file.into_sections();
        let ghost rest = sections_view_of(sections@);
        let mut k: usize = 0;
        let ghost ov0 = overrides_view(overrides@);
        let ghost cfg0 = configs_view(configs@);
        assert(rest.take(0) =~= SectionPairs::empty());
        while k < sections.len()
            invariant
                0 <= k <= sections.len(),
                rest == sections_view_of(sections@),
                ({
                    let (o, c, u) = plugin_sections(ov0, cfg0, rest.take(k as int));
                    &&& overrides_view(overrides@) == o
                    &&& configs_view(configs@) == c
                    &&& warnings_view(warnings@) == w0 + unknown_warnings(u)
                }),
            decreases sections.len() - k,
        {
            let ghost prev = plugin_sections(ov0, cfg0, rest.take(k as int));
            proof {
                assert(rest.take(k + 1).drop_last() =~= rest.take(k as int));
                assert(rest.take(k + 1).last() == rest[k as int]);
            }
            let name = &sections[k].0;
            let section = &sections[k].1;
            match rsplit_dot(name.as_str()) {
                Some((n, kind)) => {
                    if str_eq(kind.as_str(), "plugin") {
                        let over = Override::from_section(section);
                        insert_override(&mut overrides, n, over);
                    } else if str_eq(kind.as_str(), "config") {
                        let map = string_map_clone(section.as_map());
                        insert_config(&mut configs, n, map);
                    } else {
                        let ghost nv = n@;
                        let ghost kv = kind@;
                        let ghost old_w = warnings@;
                        warnings.push(ConfigWarning::UnknownKind { name: n, kind: kind });
                        proof {
                            assert(warnings_view(warnings@) =~= warnings_view(old_w).push(
                                (false, nv, kv),
                            ));
                            let u0 = prev.2;
                            assert(unknown_warnings(u0.push((nv, kv))) =~= unknown_warnings(
                                u0,
                            ).push((false, nv, kv)));
                            assert(warnings_view(warnings@) =~= w0 + unknown_warnings(
                                u0.push((nv, kv)),
                            ));
                        }
                    }
                },
                None => {},
            }
            k += 1;
        }
        assert(rest.take(sections.len() as int) =~= rest);
        self.plugin_overrides = overrides;
        self.plugin_configs = configs;
        warnings
    }
}

/// Unknown section kinds seen as warnings.
pub open spec fn unknown_warnings(u: Seq<(Seq<char>, Seq<char>)>) -> Seq<(bool, Seq<char>, Seq<char>)> {
    u.map_values(|p: (Seq<char>, Seq<char>)| (false, p.0, p.1))
}

/// Sections moved out of an `Ini`, seen as names and pairs.
pub open spec fn sections_view_of(v: Seq<(String, Section)>) -> SectionPairs {
    v.map_values(|p: (String, Section)| (p.0@, p.1.entries()))
}

/// Warnings seen as characters: `(true, field, value)` for an invalid field,
/// `(false, name, kind)` for an unknown section kind.
pub open spec fn warnings_view(v: Seq<ConfigWarning>) -> Seq<(bool, Seq<char>, Seq<char>)> {
    v.map_values(
        |w: ConfigWarning|
            match w {
                ConfigWarning::InvalidField { field, message: _, value } => (true, field@, value@),
                ConfigWarning::UnknownKind { name, kind } => (false, name@, kind@),
            },
    )
}

/// `str::rsplit_once('.')`, the parts as strings.
fn rsplit_dot(s: &str) -> (r: Option<(String, String)>)
    ensures
        match r {
            Some((a, b)) => rsplit_once(s@, '.') == Some((a@, b@)),
            None => rsplit_once(s@, '.') is None,
        },
{
    let v = crate::text::chars_of(s);
    let mut i = v.len();
    while i > 0 && v[i - 1] != '.'
        invariant
            i <= v.len(),
            v@ == s@,
            forall|j: int| i <= j < v.len() ==> v@[j] != '.',
        decreases i,
    {
        i -= 1;
    }
    proof {
        lemma_rsplit_once_at(v@, i as int);
    }
    if i == 0 {
        None
    } else {
        let a = crate::text::string_of_range(&v, 0, i - 1);
        let b = crate::text::string_of_range(&v, i, v.len());
        Some((a, b))
    }
}

proof fn lemma_rsplit_once_at(s: Seq<char>, i: int)
    requires
        0 <= i <= s.len(),
        forall|j: int| i <= j < s.len() ==> s[j] != '.',
        i > 0 ==> s[i - 1] == '.',
    ensures
        rsplit_once(s, '.') == if i > 0 {
            Some((s.take(i - 1), s.skip(i)))
        } else {
            None::<(Seq<char>, Seq<char>)>
        },
    decreases s.len(),
{
    if s.len() > 0 {
        if s.last() == '.' {
            assert(i == s.len());
            assert(s.skip(i) =~= Seq::<char>::empty());
        } else {
            lemma_rsplit_once_at(s.drop_last(), if i == s.len() { i - 1 } else { i });
            if i > 0 {
                assert(s.drop_last().take(i - 1) =~= s.take(i - 1));
                assert(s.drop_last().skip(i).push(s.last()) =~= s.skip(i));
            }
        }
    }
}

/// Stores an override under `name`, replacing one with that name.
fn insert_override(v: &mut Vec<(String, Override)>, name: String, o: Override)
    ensures
        overrides_view(final(v)@) == assoc_insert(overrides_view(old(v)@), name@, override_view(o)),
{
    let ghost s = overrides_view(v@);
    let mut i = v.len();
    assert(s.take(s.len() as int) =~= s);
    while i > 0
        invariant
            i <= v.len(),
            s == overrides_view(v@),
            v@ == old(v)@,
            assoc_find(s, name@) == assoc_find(s.take(i as int), name@),
        decreases i,
    {
        if str_eq(v[i - 1].0.as_str(), name.as_str()) {
            assert(s.take(i as int).last() == s[i - 1]);
            assert(s[i - 1].0 == name@);
            assert(assoc_find(s, name@) == i - 1);
            let ghost ov = override_view(o);
            v.set(i - 1, (name, o));
            assert(overrides_view(v@) =~= s.update(i - 1, (s[i - 1].0, ov)));
            return;
        }
        assert(s.take(i as int).drop_last() =~= s.take(i - 1));
        i -= 1;
    }
    assert(s.take(0) =~= Seq::<(Seq<char>, OverrideView)>::empty());
    let ghost ov = override_view(o);
    let ghost nv = name@;
    v.push((name, o));
    assert(overrides_view(v@) =~= s.push((nv, ov)));
}

/// Stores a plugin configuration under `name`, replacing one with that name.
fn insert_config(v: &mut Vec<(String, IndexMap<String, String>)>, name: String, m: IndexMap<String, String>)
    ensures
        configs_view(final(v)@) == assoc_insert(configs_view(old(v)@), name@, string_map_entries(m)),
{
    let ghost s = configs_view(v@);
    let mut i = v.len();
    assert(s.take(s.len() as int) =~= s);
    while i > 0
        invariant
            i <= v.len(),
            s == configs_view(v@),
            v@ == old(v)@,
            assoc_find(s, name@) == assoc_find(s.take(i as int), name@),
        decreases i,
    {
        if str_eq(v[i - 1].0.as_str(), name.as_str()) {
            assert(s.take(i as int).last() == s[i - 1]);
            assert(s[i - 1].0 == name@);
            assert(assoc_find(s, name@) == i - 1);
            let ghost mv = string_map_entries(m);
            v.set(i - 1, (name, m));
            assert(configs_view(v@) =~= s.update(i - 1, (s[i - 1].0, mv)));
            return;
        }
        assert(s.take(i as int).drop_last() =~= s.take(i - 1));
        i -= 1;
    }
    assert(s.take(0) =~= Seq::<(Seq<char>, Pairs)>::empty());
    let ghost mv = string_map_entries(m);
    let ghost nv = name@;
    v.push((name, m));
    assert(configs_view(v@) =~= s.push((nv, mv)));
}

} // verus!
