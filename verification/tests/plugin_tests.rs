use indexmap::IndexMap;
use keal::arguments::{Arguments, Error, Protocol};
use keal::config::Override;
use keal::icon::{Icon, IconPath};
use keal::ini_parser::Ini;
use keal::plugin::application::{combine_app_scores, current_desktops, parse_exec_key, ApplicationPlugin, DesktopEntry};
use keal::plugin::dmenu::{read_dmenu_entries, DmenuEntry, DmenuPlugin};
use keal::plugin::entry::{combine_scores, sorted_unique, Entry, HighlightedString, Label};
use keal::plugin::fuzzy::{FuzzyMatcher, FuzzyPattern};
use keal::plugin::list::ListPlugin;
use keal::plugin::manager::{launch_step, query_input, rank_keys, top_entries, update_input_step, InputStep, LaunchStep, PluginIndex};
use keal::plugin::protocol::{ActionLine, PluginEntry, PluginEvents, ProtocolError};
use keal::plugin::session::{log_out_command, session_config, session_plugin, SessionPlugin};
use keal::plugin::table::{apply_configs, apply_overrides, build_table, default_plugins};
use keal::plugin::usage::Usage;
use keal::plugin::user::{user_plugin, UserPlugin};
use keal::plugin::{Action, Plugin};
use nucleo_matcher::pattern::{CaseMatching, Normalization, Pattern};
use nucleo_matcher::{Matcher, Utf32Str};

fn nucleo_score(query: &str, text: &str) -> Option<u32> {
    let p = Pattern::parse(query, CaseMatching::Ignore, Normalization::Smart);
    let mut m = Matcher::default();
    let mut buf = Vec::new();
    p.score(Utf32Str::new(text, &mut buf), &mut m)
}

fn nucleo_indices(query: &str, text: &str) -> Vec<u32> {
    let p = Pattern::parse(query, CaseMatching::Ignore, Normalization::Smart);
    let mut m = Matcher::default();
    let mut buf = Vec::new();
    let mut v = Vec::new();
    p.indices(Utf32Str::new(text, &mut buf), &mut m, &mut v);
    v
}

fn plugin(name: &str, prefix: &str, comment: Option<&str>) -> Plugin {
    Plugin {
        name: name.to_owned(),
        icon: None,
        comment: comment.map(|c| c.to_owned()),
        prefix: prefix.to_owned(),
        config: IndexMap::new(),
    }
}

#[test]
fn fuzzy_pattern_matches_like_nucleo() {
    let pattern = FuzzyPattern::new("frx");
    let mut matcher = FuzzyMatcher::new();
    assert_eq!(pattern.query(), "frx");
    assert_eq!(pattern.score(&mut matcher, "Firefox"), nucleo_score("frx", "Firefox"));
    assert!(pattern.score(&mut matcher, "Firefox").is_some());
    assert_eq!(pattern.score(&mut matcher, "Chromium"), None);
    assert_eq!(pattern.indices(&mut matcher, "Firefox"), nucleo_indices("frx", "Firefox"));
    let empty = FuzzyPattern::new("");
    assert_eq!(empty.score(&mut matcher, "anything"), Some(0));
    assert!(empty.indices(&mut matcher, "anything").is_empty());
}

#[test]
fn combined_scores() {
    assert_eq!(combine_scores(Some(3), Some(4)), Some(7));
    assert_eq!(combine_scores(Some(3), None), Some(6));
    assert_eq!(combine_scores(None, Some(4)), Some(4));
    assert_eq!(combine_scores(None, None), None);
}

#[test]
fn entry_scores_name_and_comment() {
    let pattern = FuzzyPattern::new("fire");
    let mut matcher = FuzzyMatcher::new();
    let a = nucleo_score("fire", "Firefox").unwrap();
    let e = Entry::new(&mut matcher, &pattern, "Firefox", None, None, 3).unwrap();
    assert_eq!(e.score, 2 * a);
    assert_eq!(e.label, Label { plugin_index: PluginIndex(0), index: 3 });
    let b = nucleo_score("fire", "fire starter").unwrap();
    let e = Entry::new(&mut matcher, &pattern, "Firefox", None, Some("fire starter"), 1).unwrap();
    assert_eq!(e.score, a + b);
    let e = Entry::new(&mut matcher, &pattern, "Chromium", None, Some("fire starter"), 1).unwrap();
    assert_eq!(e.score, b);
    assert!(Entry::new(&mut matcher, &pattern, "Chromium", None, Some("browser"), 1).is_none());
    let labelled = e.label(PluginIndex(4));
    assert_eq!(labelled.label, Label { plugin_index: PluginIndex(4), index: 1 });
    assert_eq!(Label::index(9).with_plugin(PluginIndex(2)), Label { plugin_index: PluginIndex(2), index: 9 });
}

#[test]
fn application_scores_add_up() {
    assert_eq!(combine_app_scores(Some(1), None, Some(2)), Some(3));
    assert_eq!(combine_app_scores(Some(1), Some(4), Some(2)), Some(7));
    assert_eq!(combine_app_scores(None, None, Some(2)), Some(2));
    assert_eq!(combine_app_scores(Some(5), None, None), Some(5));
    assert_eq!(combine_app_scores(None, None, None), None);
}

#[test]
fn sorted_unique_sorts_and_dedups() {
    assert_eq!(sorted_unique(&vec![5, 1, 3, 1, 5, 0]), vec![0, 1, 3, 5]);
    assert_eq!(sorted_unique(&vec![]), Vec::<u32>::new());
}

#[test]
fn highlighted_spans_follow_the_matched_characters() {
    let pattern = FuzzyPattern::new("fox");
    let mut matcher = FuzzyMatcher::new();
    let h = HighlightedString::build("firefox".to_owned(), &pattern, &mut matcher);
    assert_eq!(h.source(), "firefox");
    let mut indices = nucleo_indices("fox", "firefox");
    indices.sort_unstable();
    indices.dedup();
    let spans = h.spans();
    let joined: String = spans.iter().map(|(s, _)| s.as_str()).collect();
    assert_eq!(joined, "firefox");
    let mut pos = 0u32;
    for (i, (text, matched)) in spans.iter().enumerate() {
        assert!(!text.is_empty());
        if i > 0 {
            assert_ne!(spans[i - 1].1, *matched);
        }
        for _ in text.chars() {
            assert_eq!(indices.contains(&pos), *matched);
            pos += 1;
        }
    }
}

#[test]
fn span_iterator_walks_spans() {
    let pattern = FuzzyPattern::new("");
    let mut matcher = FuzzyMatcher::new();
    let h = HighlightedString::build("héllo".to_owned(), &pattern, &mut matcher);
    let mut it = h.iter();
    assert_eq!(it.next(), Some(("héllo".to_owned(), false)));
    assert_eq!(it.next(), None);
    let empty = HighlightedString::build(String::new(), &pattern, &mut matcher);
    assert_eq!(empty.iter().next(), None);
}

#[test]
fn display_entry_keeps_fields() {
    let pattern = FuzzyPattern::new("ff");
    let mut matcher = FuzzyMatcher::new();
    let icon = IconPath::Name("firefox".to_owned());
    let e = Entry::new(&mut matcher, &pattern, "Firefox", Some(&icon), Some("fast fox"), 2).unwrap();
    let d = e.to_display(&pattern, &mut matcher);
    assert_eq!(d.name.source(), "Firefox");
    assert_eq!(d.comment.as_ref().map(|c| c.source()), Some("fast fox"));
    assert!(matches!(d.icon, Some(IconPath::Name(n)) if n == "firefox"));
    assert_eq!(d.score, e.score);
    assert_eq!(d.label, e.label);
}

#[test]
fn top_entries_sort_by_score_then_usage() {
    let keys = vec![(10, None), (20, Some(1)), (20, Some(5)), (10, Some(0))];
    assert_eq!(top_entries(&keys, 3, true), vec![2, 1, 3]);
    assert_eq!(top_entries(&keys, 10, true), vec![2, 1, 3, 0]);
    assert_eq!(top_entries(&keys, 3, false), vec![1, 2, 0]);
    assert_eq!(top_entries(&keys, 0, false), Vec::<usize>::new());
}

#[test]
fn input_steps() {
    let prefixes = vec!["app".to_owned(), "ls".to_owned(), "sm".to_owned()];
    let (q, s) = update_input_step("ls foo", &prefixes, None, true);
    assert_eq!((q.as_str(), s), ("foo", InputStep::Launch { plugin: 1, send_query: true }));
    let (q, s) = update_input_step("ls foo", &prefixes, None, false);
    assert_eq!((q.as_str(), s), ("foo", InputStep::Launch { plugin: 1, send_query: false }));
    let (_, s) = update_input_step("ls foo", &prefixes, Some((PluginIndex(1), false)), true);
    assert_eq!(s, InputStep::SendQuery);
    let (_, s) = update_input_step("ls foo", &prefixes, Some((PluginIndex(1), false)), false);
    assert_eq!(s, InputStep::Keep);
    let (_, s) = update_input_step("ls foo", &prefixes, Some((PluginIndex(1), true)), true);
    assert_eq!(s, InputStep::Relaunch { plugin: 1 });
    let (_, s) = update_input_step("ls foo", &prefixes, Some((PluginIndex(0), false)), true);
    assert_eq!(s, InputStep::Relaunch { plugin: 1 });
    let (q, s) = update_input_step("fire fox", &prefixes, Some((PluginIndex(0), false)), true);
    assert_eq!((q.as_str(), s), ("fire fox", InputStep::Defaults { stop: true, query_defaults: true }));
    let (q, s) = update_input_step("ls", &prefixes, None, false);
    assert_eq!((q.as_str(), s), ("ls", InputStep::Defaults { stop: false, query_defaults: false }));
}

#[test]
fn launch_steps() {
    let l = Label { plugin_index: PluginIndex(2), index: 5 };
    assert_eq!(launch_step(true, &vec![], Some(l)), LaunchStep::Current);
    assert_eq!(launch_step(false, &vec![PluginIndex(7)], None), LaunchStep::Default(0));
    assert_eq!(launch_step(false, &vec![PluginIndex(0), PluginIndex(2)], Some(l)), LaunchStep::Default(1));
    assert_eq!(launch_step(false, &vec![PluginIndex(0), PluginIndex(3)], Some(l)), LaunchStep::Nothing);
    assert_eq!(launch_step(false, &vec![PluginIndex(0), PluginIndex(2)], None), LaunchStep::Nothing);
    assert_eq!(query_input(Some("ls"), "x".to_owned()), "ls x");
    assert_eq!(query_input(None, "x".to_owned()), "x");
}

#[test]
fn usage_counts_launches() {
    let mut u = Usage::new();
    assert_eq!(u.get("Applications", "Firefox"), None);
    u.add_use("Applications", "Firefox");
    u.add_use("Applications", "Firefox");
    u.add_use("List", "app");
    assert_eq!(u.get("Applications", "Firefox"), Some(2));
    assert_eq!(u.get("List", "app"), Some(1));
    assert_eq!(u.get("List", "Firefox"), None);
    assert_eq!(
        u.entries(),
        vec![(("Applications".to_owned(), "Firefox".to_owned()), 2), (("List".to_owned(), "app".to_owned()), 1)]
    );
}

#[test]
fn session_log_out_by_desktop() {
    assert_eq!(log_out_command(Some("GNOME"), false), "gnome-session-quit --logout");
    assert_eq!(log_out_command(Some("Niri"), false), "niri msg action quit");
    assert_eq!(log_out_command(Some("KDE"), false), "qdbus org.kde.ksmserver /KSMServer logout 0 0 0");
    assert_eq!(log_out_command(Some("Hyprland"), true), "swaymsg exit");
    assert_eq!(log_out_command(Some("Hyprland"), false), "");
    assert_eq!(log_out_command(None, true), "");
}

#[test]
fn session_entries_skip_empty_commands() {
    let config = session_config(String::new());
    assert_eq!(config.len(), 5);
    assert_eq!(config.get("reboot").map(|s| s.as_str()), Some("systemctl reboot"));
    let plugin = SessionPlugin::from_config(&config);
    let names: Vec<&str> = plugin.0.iter().map(|e| e.name.as_str()).collect();
    assert_eq!(names, vec!["Suspend", "Hibernate", "Reboot", "Power off"]);
    match plugin.send_enter(Some(0)) {
        Action::Exec(c) => {
            assert_eq!(c.program, "sh");
            assert_eq!(c.args, vec!["-c".to_owned(), "systemctl suspend".to_owned()]);
            assert_eq!(c.current_dir, None);
        },
        other => panic!("unexpected {other:?}"),
    }
    assert!(matches!(plugin.send_enter(None), Action::Nothing));
    assert_eq!(plugin.get_name(3), "Power off");
    let pattern = FuzzyPattern::new("");
    let mut matcher = FuzzyMatcher::new();
    let entries = plugin.get_entries(&mut matcher, &pattern);
    assert_eq!(entries.len(), 4);
    assert!(entries.iter().all(|e| e.score == 0));
    let pattern = FuzzyPattern::new("reboot");
    let entries = plugin.get_entries(&mut matcher, &pattern);
    assert_eq!(entries.len(), 1);
    assert_eq!(entries[0].name, "Reboot");
    assert_eq!(entries[0].label.index, 2);
}

#[test]
fn user_plugin_from_config_ini() {
    let ini = Ini::from_string(
        "[plugin]\nname = Session Manager\nicon = user\ncomment = Manage current session\nprefix = sm\nexec = exec.sh\n[config]\nlog_out =\n".to_owned(),
        &['#', ';'],
    );
    let (p, exec) = user_plugin(ini, "/plugins/sm").unwrap();
    assert_eq!(p.name, "Session Manager");
    assert_eq!(p.prefix, "sm");
    assert_eq!(p.comment.as_deref(), Some("Manage current session"));
    assert!(matches!(p.icon, Some(IconPath::Name(n)) if n == "user"));
    assert_eq!(p.config.get("log_out").map(|s| s.as_str()), Some(""));
    assert_eq!(exec, "/plugins/sm/exec.sh");
    let missing = Ini::from_string("[plugin]\nname = x\nexec = run\n".to_owned(), &['#', ';']);
    assert!(user_plugin(missing, "/p").is_none());
    let icon = Ini::from_string("[plugin]\nname = x\nprefix = x\nexec = run\nicon = ./i.png\n".to_owned(), &['#', ';']);
    let (p, _) = user_plugin(icon, "/p").unwrap();
    assert!(matches!(p.icon, Some(IconPath::Path(Icon::Other(path))) if path == "/p/./i.png"));
}

#[test]
fn user_plugin_actions() {
    let e = |n: &str| PluginEntry { name: n.to_owned(), icon: None, comment: None };
    let events = PluginEvents { enter: true, shift_enter: false, query: false };
    let mut u = UserPlugin { entries: vec![e("a"), e("b")], events, cwd: "/p".to_owned() };
    assert!(matches!(u.apply_action(ActionLine::Fork, vec![]), Ok(Action::Fork)));
    assert!(matches!(u.apply_action(ActionLine::ChangeQuery("q".to_owned()), vec![]), Ok(Action::ChangeQuery(q)) if q == "q"));
    assert!(matches!(u.apply_action(ActionLine::Update(1), vec![e("c")]), Ok(Action::Nothing)));
    assert_eq!(u.get_name(1), "c");
    assert!(matches!(u.apply_action(ActionLine::Update(9), vec![e("d")]), Err(ProtocolError::IndexOutOfRange(9))));
    assert!(matches!(u.apply_action(ActionLine::UpdateAll, vec![e("x")]), Ok(Action::Nothing)));
    assert_eq!(u.entries.len(), 1);
    assert_eq!(u.get_name(0), "x");
}

#[test]
fn exec_key_codes() {
    let icon = IconPath::Name("firefox".to_owned());
    assert_eq!(
        parse_exec_key("firefox %u --name %c %% %k %i".to_owned(), "Firefox", "/apps/f.desktop", Some(&icon)),
        "firefox  --name Firefox % /apps/f.desktop --icon firefox"
    );
    assert_eq!(parse_exec_key("a %F b %x c %".to_owned(), "n", "/l", None), "a  b  c ");
    assert_eq!(parse_exec_key("%i".to_owned(), "n", "/l", None), "");
    let file = IconPath::Path(Icon::Svg("/i/a.svg".to_owned()));
    assert_eq!(parse_exec_key("run %i".to_owned(), "n", "/l", Some(&file)), "run --icon /i/a.svg");
}

fn desktop(text: &str) -> Ini {
    Ini::from_string(text.to_owned(), &['#'])
}

#[test]
fn desktop_entries() {
    let text = "[Desktop Entry]\nType=Application\nName=Firefox\nComment=Browse\nGenericName=Web Browser\nKeywords=web;\nExec=firefox %u\nIcon=firefox\nTerminal=false\nOnlyShowIn=GNOME;KDE;\n";
    let gnome = current_desktops("GNOME");
    let e = DesktopEntry::new(desktop(text), "/apps/firefox.desktop", &gnome, None).unwrap();
    assert_eq!(e.name, "Firefox");
    assert_eq!(e.comment.as_deref(), Some("Browse"));
    assert_eq!(e.to_match, "FirefoxWeb Browserweb;Browse");
    assert_eq!(e.command, "firefox ");
    assert!(!e.terminal);
    assert!(e.path.is_none());
    assert!(matches!(&e.icon, Some(IconPath::Name(n)) if n == "firefox"));
    assert!(DesktopEntry::new(desktop(text), "/a", &current_desktops("sway:wlroots"), None).is_none());
    let hidden = "[Desktop Entry]\nType=Application\nName=X\nExec=x\nNoDisplay=true\n";
    assert!(DesktopEntry::new(desktop(hidden), "/a", &gnome, None).is_none());
    let link = "[Desktop Entry]\nType=Link\nName=X\nExec=x\n";
    assert!(DesktopEntry::new(desktop(link), "/a", &gnome, None).is_none());
    let not_here = "[Desktop Entry]\nType=Application\nName=X\nExec=x\nNotShowIn=KDE;GNOME\n";
    assert!(DesktopEntry::new(desktop(not_here), "/a", &gnome, None).is_none());
    let no_exec = "[Desktop Entry]\nType=Application\nName=X\n";
    assert!(DesktopEntry::new(desktop(no_exec), "/a", &gnome, None).is_none());
    assert_eq!(current_desktops("a:b"), vec!["a".to_owned(), "b".to_owned()]);
    let local = "[Desktop Entry]\nType=Application\nName=X\nExec=x\nIcon=./x.png\n";
    let e = DesktopEntry::new(desktop(local), "/a", &gnome, Some("/work".to_owned())).unwrap();
    assert!(matches!(&e.icon, Some(IconPath::Path(Icon::Other(p))) if p == "/work/./x.png"));
    let d = DmenuEntry::new_from_rofi_extended("n\0icon\u{1f}./i.svg", Some("/work".to_owned())).unwrap();
    assert!(matches!(d.icon, Some(IconPath::Path(Icon::Svg(p))) if p == "/work/./i.svg"));
}

#[test]
fn applications_launch_in_terminal() {
    let text = "[Desktop Entry]\nType=Application\nName=Htop\nExec=htop\nTerminal=true\nPath=/tmp\n";
    let e = DesktopEntry::new(desktop(text), "/a", &vec![], None).unwrap();
    let apps = ApplicationPlugin(vec![e]);
    match apps.send_enter("kitty", Some(0)) {
        Action::Exec(c) => {
            assert_eq!(c.program, "kitty");
            assert_eq!(c.args, vec!["-e".to_owned(), "sh".to_owned(), "-c".to_owned(), "htop".to_owned()]);
            assert_eq!(c.current_dir.as_deref(), Some("/tmp"));
        },
        other => panic!("unexpected {other:?}"),
    }
    let pattern = FuzzyPattern::new("htop");
    let mut matcher = FuzzyMatcher::new();
    let entries = apps.get_entries(&mut matcher, &pattern);
    assert_eq!(entries.len(), 1);
    let a = nucleo_score("htop", "Htop").unwrap();
    let c = nucleo_score("htop", "Htop").unwrap();
    assert_eq!(entries[0].score, a + c);
    assert_eq!(ApplicationPlugin::plugin().prefix, "app");
}

#[test]
fn dmenu_lines() {
    let d = DmenuEntry::new_from_rofi_extended("name\0icon\u{1f}firefox", None).unwrap();
    assert_eq!(d.name, "name");
    assert!(matches!(d.icon, Some(IconPath::Name(n)) if n == "firefox"));
    let d = DmenuEntry::new_from_rofi_extended("plain", None).unwrap();
    assert_eq!(d.name, "plain");
    assert!(d.icon.is_none());
    assert!(DmenuEntry::new_from_rofi_extended("a\0meta\u{1f}x", None).is_none());
    let lines: Vec<Option<String>> = vec![Some("a".to_owned()), Some("b\0icon\u{1f}i".to_owned()), Some("c\0bad".to_owned()), None, Some("d".to_owned())];
    let entries = read_dmenu_entries(&lines, Protocol::RofiExtended, &None);
    let names: Vec<&str> = entries.iter().map(|e| e.name.as_str()).collect();
    assert_eq!(names, vec!["a", "b"]);
    let lines: Vec<Option<String>> = vec![Some("name:a".to_owned()), Some("comment:x".to_owned()), Some("name:b".to_owned())];
    let entries = read_dmenu_entries(&lines, Protocol::Keal, &None);
    assert_eq!(entries.len(), 2);
    assert_eq!(entries[0].comment.as_deref(), Some("x"));
    let (e, next) = DmenuEntry::new_from_keal(&lines, 2, None);
    assert_eq!((e.name.as_str(), next), ("b", 3));
    let plugin = DmenuPlugin(entries);
    assert!(matches!(plugin.send_enter("typed", None), Action::PrintAndClose(s) if s == "typed"));
    assert!(matches!(plugin.send_enter("typed", Some(1)), Action::PrintAndClose(s) if s == "b"));
    assert_eq!(DmenuPlugin::plugin().prefix, "\0");
}

#[test]
fn list_plugin_lists_prefixes() {
    let plugins = vec![plugin("Applications", "app", Some("Launch applications")), plugin("Dmenu", "dm", None)];
    let list = ListPlugin::from_plugins(&plugins);
    assert_eq!(list.0[0].name, "app");
    assert_eq!(list.0[0].comment.as_deref(), Some("Applications (Launch applications)"));
    assert_eq!(list.0[1].comment.as_deref(), Some("Dmenu"));
    assert!(matches!(list.send_enter(Some(1)), Action::ChangeInput(s) if s == "dm "));
    assert!(matches!(list.send_enter(None), Action::Nothing));
    assert_eq!(ListPlugin::plugin().prefix, "ls");
}

#[test]
fn table_and_overrides() {
    let mut sm = plugin("Session Manager", "sm", None);
    sm.config.insert("log_out".to_owned(), String::new());
    let table_plugins = vec![plugin("Applications", "app", None), plugin("List", "ls", None), sm, plugin("Other", "app", None)];
    let mut table = build_table(table_plugins);
    let keys: Vec<&str> = table.keys().map(|k| k.as_str()).collect();
    assert_eq!(keys, vec!["app", "ls", "sm"]);
    assert_eq!(table["app"].name, "Other");
    let overrides = vec![
        ("List".to_owned(), Override { prefix: Some("list".to_owned()), icon: Some("./l.png".to_owned()), comment: Some("I changed the comment!".to_owned()) }),
        ("Nope".to_owned(), Override { prefix: None, icon: None, comment: None }),
    ];
    let unknown = apply_overrides(&mut table, &overrides, &Some("/home/u/.config/keal".to_owned()));
    assert_eq!(unknown, vec!["Nope".to_owned()]);
    let keys: Vec<&str> = table.keys().map(|k| k.as_str()).collect();
    assert_eq!(keys, vec!["app", "sm", "list"]);
    let list = &table["list"];
    assert_eq!(list.prefix, "list");
    assert_eq!(list.comment.as_deref(), Some("I changed the comment!"));
    assert!(matches!(&list.icon, Some(IconPath::Path(Icon::Other(p))) if p == "/home/u/.config/keal/./l.png"));
    let mut values = IndexMap::new();
    values.insert("log_out".to_owned(), "sway exit".to_owned());
    values.insert("bogus".to_owned(), "x".to_owned());
    let configs = vec![("Session Manager".to_owned(), values), ("Nope".to_owned(), IndexMap::new())];
    let warnings = apply_configs(&mut table, &configs);
    assert_eq!(warnings, vec![("Session Manager".to_owned(), Some("bogus".to_owned())), ("Nope".to_owned(), None)]);
    assert_eq!(table["sm"].config.get("log_out").map(|s| s.as_str()), Some("sway exit"));
    assert!(table["sm"].config.get("bogus").is_none());
    let (found, unknown) = default_plugins(&table, &vec!["list".to_owned(), "x".to_owned(), "app".to_owned()]);
    assert_eq!(found, vec![PluginIndex(2), PluginIndex(0)]);
    assert_eq!(unknown, vec!["x".to_owned()]);
}

#[test]
fn arguments() {
    let args = |v: &[&str]| v.iter().map(|s| s.to_string()).collect::<Vec<String>>();
    let (r, text) = Arguments::parse("piet", "1.0", &args(&["-d", "-k", "--timings"]));
    let a = r.ok().unwrap();
    assert!(a.dmenu && a.timings);
    assert_eq!(a.protocol, Protocol::Keal);
    assert_eq!(a.frontend, "piet");
    assert!(text.is_none());
    let (r, text) = Arguments::parse("piet", "1.0", &args(&[]));
    let a = r.ok().unwrap();
    assert!(!a.dmenu && !a.timings);
    assert_eq!(a.protocol, Protocol::RofiExtended);
    assert!(text.is_none());
    let (r, text) = Arguments::parse("piet", "1.0", &args(&["--help", "--bogus"]));
    assert!(matches!(r, Err(Error::Exit)));
    assert!(text.unwrap().starts_with("usage: keal [options...]\n\noptions:\n"));
    let (r, text) = Arguments::parse("piet", "1.0", &args(&["--bogus", "--help"]));
    assert!(matches!(r, Err(Error::UnknownFlag(f)) if f == "--bogus"));
    assert!(text.is_none());
    let (r, text) = Arguments::parse("iced", "0.3.1", &args(&["-v"]));
    assert!(matches!(r, Err(Error::Exit)));
    assert_eq!(text.unwrap(), "keal version 0.3.1, iced frontend\n");
}

#[test]
fn session_plugin_record() {
    let p = session_plugin(String::new());
    assert_eq!(p.name, "Session Manager");
    assert_eq!(p.prefix, "sm");
    assert!(p.icon.is_none());
    assert_eq!(p.comment.as_deref(), Some("Manage current session"));
    let keys: Vec<&str> = p.config.keys().map(|k| k.as_str()).collect();
    assert_eq!(keys, vec!["log_out", "suspend", "hibernate", "reboot", "poweroff"]);
    assert_eq!(p.config["poweroff"], "systemctl poweroff");
    let plugin = SessionPlugin::from_config(&p.config);
    let names: Vec<&str> = (0..4).map(|i| plugin.get_name(i)).collect();
    assert_eq!(names, vec!["Suspend", "Hibernate", "Reboot", "Power off"]);
}

#[test]
fn rank_keys_look_up_usage_by_plugin_name() {
    let mut usage = Usage::new();
    usage.add_use("Applications", "firefox");
    usage.add_use("Applications", "firefox");
    let names = vec!["Applications".to_owned(), "List".to_owned()];
    let entries = vec![
        Entry { name: "firefox", icon: None, comment: None, score: 5, label: Label { plugin_index: PluginIndex(0), index: 0 } },
        Entry { name: "firefox", icon: None, comment: None, score: 3, label: Label { plugin_index: PluginIndex(1), index: 0 } },
    ];
    assert_eq!(rank_keys(&entries, &names, &usage, true), vec![(5, Some(2)), (3, None)]);
    assert_eq!(rank_keys(&entries, &names, &usage, false), vec![(5, None), (3, None)]);
}
