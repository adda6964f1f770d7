use keal::icon::{Icon, IconPath};
use keal::plugin::protocol::{
    apply_update, config_message, enter_message, parse_action_line, parse_events, query_message, read_choice_list,
    read_entry_from_stream, ActionLine, PluginEntry, PluginEvents, ProtocolError,
};

fn lines(v: &[&str]) -> Vec<Option<String>> {
    v.iter().map(|l| Some((*l).to_owned())).collect()
}

fn entry(name: &str) -> PluginEntry {
    PluginEntry { name: name.to_owned(), icon: None, comment: None }
}

#[test]
fn reads_the_readme_choice_list() {
    let input = lines(&["name:firefox", "icon:com.firefox.icon", "name:chromium", "comment:Google's browser", "name:edge", "end", "after"]);
    let (entries, next) = read_choice_list(&input, 0, None);
    assert_eq!(next, 6);
    assert_eq!(entries.len(), 3);
    assert_eq!(entries[0].name, "firefox");
    assert!(matches!(&entries[0].icon, Some(IconPath::Name(n)) if n == "com.firefox.icon"));
    assert_eq!(entries[1].name, "chromium");
    assert_eq!(entries[1].comment.as_deref(), Some("Google's browser"));
    assert_eq!(entries[2].name, "edge");
    assert!(entries[2].icon.is_none());
}

#[test]
fn unreadable_lines_inside_an_entry_are_skipped() {
    let mut input = lines(&["name:a"]);
    input.push(None);
    input.push(Some("name:b".to_owned()));
    let (entries, next) = read_choice_list(&input, 0, None);
    // the unreadable line is skipped inside the entry, which then reads `name:b` too
    assert_eq!(entries.len(), 1);
    assert_eq!(entries[0].name, "b");
    assert_eq!(next, 3);
    let (none, at) = read_choice_list(&vec![None], 0, None);
    assert!(none.is_empty());
    assert_eq!(at, 0);
}

#[test]
fn entry_ignores_empty_and_unknown_lines() {
    let input = lines(&["name:x", "", "colour:red", "comment:c", "name:y"]);
    let (e, next) = read_entry_from_stream(&input, 0, None);
    assert_eq!(e.name, "x");
    assert_eq!(e.comment.as_deref(), Some("c"));
    assert_eq!(next, 4);
}

#[test]
fn relative_icons_resolve_against_plugin_directory() {
    let input = lines(&["name:x", "icon:./x.svg", "end"]);
    let (e, _) = read_entry_from_stream(&input, 0, Some("/plugins/p".to_owned()));
    assert!(matches!(e.icon, Some(IconPath::Path(Icon::Svg(p))) if p == "/plugins/p/./x.svg"));
}

#[test]
fn events_line() {
    let e = parse_events("events:enter shift_enter query").unwrap();
    assert_eq!(e, PluginEvents { enter: true, shift_enter: true, query: true });
    let e = parse_events("events:enter").unwrap();
    assert_eq!(e, PluginEvents { enter: true, shift_enter: false, query: false });
    assert!(matches!(parse_events("events:enter jump"), Err(ProtocolError::UnknownEvent(w)) if w == "jump"));
    assert!(matches!(parse_events("name:x"), Err(ProtocolError::ExpectedEvents(l)) if l == "name:x"));
}

#[test]
fn action_lines() {
    assert!(matches!(parse_action_line("action:fork"), Ok(ActionLine::Fork)));
    assert!(matches!(parse_action_line("action:wait_and_close"), Ok(ActionLine::WaitAndClose)));
    assert!(matches!(parse_action_line("action:update_all"), Ok(ActionLine::UpdateAll)));
    assert!(matches!(parse_action_line("action:none"), Ok(ActionLine::Nothing)));
    assert!(matches!(parse_action_line("action:update:3"), Ok(ActionLine::Update(3))));
    assert!(matches!(parse_action_line("action:change_input:ls "), Ok(ActionLine::ChangeInput(v)) if v == "ls "));
    assert!(matches!(parse_action_line("action:change_query:a:b"), Ok(ActionLine::ChangeQuery(v)) if v == "a:b"));
    assert!(matches!(parse_action_line("action:update:x"), Err(ProtocolError::BadIndex(v)) if v == "x"));
    assert!(matches!(parse_action_line("action:jump"), Err(ProtocolError::UnknownAction(v)) if v == "jump"));
    assert!(matches!(parse_action_line("name:x"), Err(ProtocolError::ExpectedAction(_))));
}

#[test]
fn update_replaces_one_choice() {
    let mut entries = vec![entry("a"), entry("b")];
    assert!(apply_update(&mut entries, 1, vec![entry("c")]).is_ok());
    assert_eq!(entries[0].name, "a");
    assert_eq!(entries[1].name, "c");
    assert!(matches!(apply_update(&mut entries, 0, vec![]), Err(ProtocolError::EmptyUpdate)));
    assert!(matches!(apply_update(&mut entries, 5, vec![entry("d")]), Err(ProtocolError::IndexOutOfRange(5))));
    assert_eq!(entries[1].name, "c");
}

#[test]
fn messages_to_the_plugin() {
    let events = PluginEvents { enter: true, shift_enter: false, query: true };
    assert_eq!(query_message(events, "~"), Some("query\n~\n".to_owned()));
    assert_eq!(enter_message(events, Some(12)), Some("enter\n12\n".to_owned()));
    assert_eq!(enter_message(events, None), None);
    let quiet = PluginEvents { enter: false, shift_enter: false, query: false };
    assert_eq!(query_message(quiet, "x"), None);
    assert_eq!(enter_message(quiet, Some(0)), None);
    let values = vec![("log_out".to_owned(), "swaymsg exit".to_owned()), ("suspend".to_owned(), "".to_owned())];
    assert_eq!(config_message(&values), "swaymsg exit\n\n");
}
