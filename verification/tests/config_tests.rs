use keal::config::{parse_bool, parse_list, Config, ConfigWarning, FrontendConfig, Override};
use keal::icon::{path_join, Icon, IconCache, IconPath};
use keal::ini_parser::{Ini, Section};
use keal::theme::{Color, ColorError, Theme};

fn ini(text: &str) -> Ini {
    Ini::from_string(text.to_owned(), &['#', ';'])
}

#[test]
fn ini_reads_globals_and_sections() {
    let file = ini("top = 1\n[keal]\nfont = Iosevka # comment\n; whole line comment\nfont_size=16.0\n[colors]\ntext = cad3f5\n");
    assert_eq!(file.globals(), vec![("top".to_owned(), "1".to_owned())]);
    let keal = file.section("keal").unwrap();
    assert_eq!(keal.get("font").map(|s| s.as_str()), Some("Iosevka"));
    assert_eq!(keal.get("font_size").map(|s| s.as_str()), Some("16.0"));
    assert_eq!(file.section_iter("colors"), vec![("text".to_owned(), "cad3f5".to_owned())]);
    assert!(file.section("missing").is_none());
}

#[test]
fn ini_later_assignment_wins_in_place() {
    let file = ini("[s]\na = 1\nb = 2\na = 3\n");
    assert_eq!(file.section_iter("s"), vec![("a".to_owned(), "3".to_owned()), ("b".to_owned(), "2".to_owned())]);
}

#[test]
fn ini_remove_section_takes_it_out() {
    let mut file = ini("[a]\nx = 1\n[b]\ny = 2\n");
    let a = file.remove_section("a").unwrap();
    assert_eq!(a.iter(), vec![("x".to_owned(), "1".to_owned())]);
    assert!(file.section("a").is_none());
    assert!(file.remove_section("a").is_none());
    let names: Vec<String> = file.into_sections().into_iter().map(|(n, _)| n).collect();
    assert_eq!(names, vec!["b".to_owned()]);
}

#[test]
fn section_insert_and_get() {
    let mut s = Section::new();
    s.insert("k".to_owned(), "v".to_owned());
    s.insert("k".to_owned(), "w".to_owned());
    assert_eq!(s.get("k").map(|v| v.as_str()), Some("w"));
    assert_eq!(s.into_iter(), vec![("k".to_owned(), "w".to_owned())]);
}

#[test]
fn section_keeps_insertion_order() {
    let mut s = Section::new();
    s.insert("a".to_owned(), "1".to_owned());
    s.insert("b".to_owned(), "2".to_owned());
    s.insert("c".to_owned(), "3".to_owned());
    s.insert("a".to_owned(), "4".to_owned());
    assert_eq!(s.get("a").map(|v| v.as_str()), Some("4"));
    assert!(s.get("d").is_none());
    let pairs = vec![("a".to_owned(), "4".to_owned()), ("b".to_owned(), "2".to_owned()), ("c".to_owned(), "3".to_owned())];
    assert_eq!(s.iter(), pairs);
    assert_eq!(s.as_map().len(), 3);
    let map = s.into_map();
    let keys: Vec<&str> = map.keys().map(|k| k.as_str()).collect();
    assert_eq!(keys, vec!["a", "b", "c"]);
}

#[test]
fn parse_bool_and_list() {
    assert_eq!(parse_bool("true"), Some(true));
    assert_eq!(parse_bool("false"), Some(false));
    assert_eq!(parse_bool("yes"), None);
    assert_eq!(parse_list("app,ls"), vec!["app".to_owned(), "ls".to_owned()]);
}

#[test]
fn override_from_section() {
    let file = ini("[List.plugin]\nprefix = list\ncomment = I changed the comment!\nother = x\n");
    let o = Override::from_section(file.section("List.plugin").unwrap());
    assert_eq!(o.prefix.as_deref(), Some("list"));
    assert_eq!(o.comment.as_deref(), Some("I changed the comment!"));
    assert_eq!(o.icon, None);
}

#[test]
fn config_reads_keal_section_and_plugins() {
    let mut config = Config::default();
    let mut theme = Theme::default();
    let text = "[keal]\nfont = Iosevka\nfont_size = 16.0\nicon_theme = Zafiro,hicolor\nusage_frequency = true\nterminal_path = kitty\nplaceholder_text = search your dreams!\ndefault_plugins = app,ls\n[colors]\nbackground = 24273a\n[List.plugin]\nprefix = list\n[Session Manager.config]\nlog_out = sway exit\n[x.weird]\na = b\n";
    let warnings = config.add_from_string(&mut theme, text.to_owned());
    assert_eq!(config.font, "Iosevka");
    assert_eq!(config.font_size, "16.0");
    assert_eq!(config.icon_theme, vec!["Zafiro".to_owned(), "hicolor".to_owned()]);
    assert!(config.usage_frequency);
    assert_eq!(config.terminal_path, "kitty");
    assert_eq!(config.placeholder_text, "search your dreams!");
    assert_eq!(config.default_plugins, vec!["app".to_owned(), "ls".to_owned()]);
    assert_eq!(theme.background, Color { r: 0x24, g: 0x27, b: 0x3a, a: 255 });
    assert_eq!(config.plugin_overrides.len(), 1);
    assert_eq!(config.plugin_overrides[0].0, "List");
    assert_eq!(config.plugin_overrides[0].1.prefix.as_deref(), Some("list"));
    assert_eq!(config.plugin_configs.len(), 1);
    assert_eq!(config.plugin_configs[0].0, "Session Manager");
    assert_eq!(config.plugin_configs[0].1.get("log_out").map(|s| s.as_str()), Some("sway exit"));
    assert_eq!(warnings.len(), 1);
    assert!(matches!(&warnings[0], ConfigWarning::UnknownKind { name, kind } if name == "x" && kind == "weird"));
}

#[test]
fn config_warns_on_invalid_boolean() {
    let mut config = Config::default();
    let mut theme = Theme::default();
    let warnings = config.add_from_string(&mut theme, "[keal]\nusage_frequency = maybe\n".to_owned());
    assert!(!config.usage_frequency);
    assert!(matches!(&warnings[0], ConfigWarning::InvalidField { field, value, .. } if field == "usage_frequency" && value == "maybe"));
}

#[test]
fn theme_sections_name_colors() {
    let theme = Theme::default();
    assert_eq!(theme.sections(), vec!["colors".to_owned()]);
}

#[test]
fn color_parse_channels() {
    assert_eq!(Color::parse("b4d5ff33"), Ok(Color { r: 0xb4, g: 0xd5, b: 0xff, a: 0x33 }));
    assert_eq!(Color::parse("FFFFFF"), Ok(Color { r: 255, g: 255, b: 255, a: 255 }));
    assert_eq!(Color::parse("+1+2+3"), Ok(Color { r: 1, g: 2, b: 3, a: 255 }));
    assert_eq!(Color::parse("zz0000"), Err(ColorError::Red));
    assert_eq!(Color::parse("00zz00"), Err(ColorError::Green));
    assert_eq!(Color::parse("0000"), Err(ColorError::Blue));
    assert_eq!(Color::parse("000000zz"), Err(ColorError::Alpha));
    assert_eq!(ColorError::Alpha.message(), "invalid color code, mistyped alpha channel");
}

#[test]
fn theme_set_field_reports_invalid_values() {
    let mut theme = Theme::default();
    assert!(theme.set_field("text", "cad3f5").is_ok());
    assert_eq!(theme.text, Color { r: 0xca, g: 0xd3, b: 0xf5, a: 255 });
    assert!(theme.set_field("scrollbar_enabled", "true").is_ok());
    assert!(theme.scrollbar_enabled);
    assert!(theme.set_field("scrollbar_border_radius", "2.0").is_ok());
    assert_eq!(theme.scrollbar_border_radius, "2.0");
    assert!(matches!(theme.set_field("comment", "nope"), Err(ConfigWarning::InvalidField { .. })));
    assert_eq!(theme.comment, Color::black());
    assert!(theme.set_field("unknown", "x").is_ok());
}

#[test]
fn icon_paths() {
    assert!(matches!(IconPath::new("firefox".to_owned(), None), IconPath::Name(n) if n == "firefox"));
    assert!(matches!(IconPath::new("/usr/share/a.svg".to_owned(), None), IconPath::Path(Icon::Svg(p)) if p == "/usr/share/a.svg"));
    assert!(matches!(IconPath::new("./i.png".to_owned(), Some("/plug".to_owned())), IconPath::Path(Icon::Other(p)) if p == "/plug/./i.png"));
    assert!(matches!(IconPath::new("./i.png".to_owned(), None), IconPath::Name(n) if n == "./i.png"));
    // a hidden file has no extension; the last dot decides
    assert!(matches!(IconPath::new("/icons/.svg".to_owned(), None), IconPath::Path(Icon::Other(_))));
    assert!(matches!(IconPath::new("/icons/a.b.svg".to_owned(), None), IconPath::Path(Icon::Svg(_))));
    assert!(matches!(IconPath::new("/icons.svg/a".to_owned(), None), IconPath::Path(Icon::Other(_))));
    assert!(matches!(Icon::from_path("x.SVG".to_owned()), Icon::Other(_)));
    assert!(matches!(Icon::from_path("dir/x.svg".to_owned()), Icon::Svg(_)));
}

#[test]
fn path_join_cases() {
    assert_eq!(path_join("/plug", "exec.sh"), "/plug/exec.sh");
    assert_eq!(path_join("/plug/", "exec.sh"), "/plug/exec.sh");
    assert_eq!(path_join("/plug", "/bin/sh"), "/bin/sh");
    assert_eq!(path_join("", "a"), "a");
}

#[test]
fn icon_cache_keeps_first_found() {
    let mut cache = IconCache::new();
    assert!(cache.insert_found("app".to_owned(), Icon::from_path("/a/app.svg".to_owned())));
    assert!(!cache.insert_found("app".to_owned(), Icon::from_path("/b/app.png".to_owned())));
    let name = IconPath::Name("app".to_owned());
    assert!(matches!(cache.get(&name), Some(Icon::Svg(p)) if p == "/a/app.svg"));
    assert!(cache.get(&IconPath::Name("other".to_owned())).is_none());
    let direct = IconPath::Path(Icon::Other("/x.png".to_owned()));
    assert!(matches!(cache.get(&direct), Some(Icon::Other(p)) if p == "/x.png"));
}


#[test]
fn config_keeps_font_size_that_is_not_a_number() {
    let mut config = Config::default();
    config.font_size = "12".to_owned();
    let mut theme = Theme::default();
    let text = "[keal]\nfont_size = big\nusage_frequency = yes\nfont = Mono\n";
    let warnings = config.add_from_string(&mut theme, text.to_owned());
    assert_eq!(config.font, "Mono");
    assert_eq!(config.font_size, "12");
    assert!(!config.usage_frequency);
    assert_eq!(warnings.len(), 2);
    assert!(matches!(&warnings[0], ConfigWarning::InvalidField { field, value, .. } if field == "font_size" && value == "big"));
    assert!(matches!(&warnings[1], ConfigWarning::InvalidField { field, value, .. } if field == "usage_frequency" && value == "yes"));
    assert!(config.plugin_overrides.is_empty());
    assert!(config.plugin_configs.is_empty());
}

#[test]
fn config_hands_frontend_fields_in_order() {
    let mut config = Config::default();
    let mut theme = Theme::default();
    let text = "[colors]\nbackground = 24273a\ntext = cad3f5\n[keal]\nfont = Mono\n";
    let warnings = config.add_from_string(&mut theme, text.to_owned());
    assert!(warnings.is_empty());
    assert_eq!(theme.background, Color { r: 0x24, g: 0x27, b: 0x3a, a: 255 });
    assert_eq!(theme.text, Color { r: 0xca, g: 0xd3, b: 0xf5, a: 255 });
    assert_eq!(config.font, "Mono");
    assert!(config.plugin_overrides.is_empty());
    assert!(config.plugin_configs.is_empty());
}
