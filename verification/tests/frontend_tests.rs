use keal::config::FrontendConfig;
use keal::navigation::{navigation_step, select_next, select_previous, NavKey, NavStep};
use keal::theme::{Color, Theme};
use keal::xdg_utils::{config_dir, icon_search_dirs, state_dir, xdg_directories};

#[test]
fn selection_moves_within_the_list() {
    assert_eq!(select_next(0, 3), 1);
    assert_eq!(select_next(2, 3), 2);
    assert_eq!(select_next(0, 0), 0);
    assert_eq!(select_previous(2), 1);
    assert_eq!(select_previous(0), 0);
}

#[test]
fn navigation_keys() {
    assert_eq!(navigation_step(NavKey::Escape, false, 0, 3), NavStep::Quit);
    assert_eq!(navigation_step(NavKey::Enter, false, 1, 3), NavStep::Launch(Some(1)));
    assert_eq!(navigation_step(NavKey::Enter, false, 0, 0), NavStep::Launch(None));
    assert_eq!(navigation_step(NavKey::Down, false, 1, 3), NavStep::Select(2));
    assert_eq!(navigation_step(NavKey::J, true, 1, 3), NavStep::Select(2));
    assert_eq!(navigation_step(NavKey::N, false, 1, 3), NavStep::Stay);
    assert_eq!(navigation_step(NavKey::Up, false, 1, 3), NavStep::Select(0));
    assert_eq!(navigation_step(NavKey::P, true, 0, 3), NavStep::Select(0));
    assert_eq!(navigation_step(NavKey::K, false, 2, 3), NavStep::Stay);
    assert_eq!(navigation_step(NavKey::Other, true, 2, 3), NavStep::Stay);
}

#[test]
fn xdg_data_directories() {
    assert_eq!(
        xdg_directories(None, None, Some("/home/u".to_owned()), "icons"),
        vec!["/usr/local/share/icons".to_owned(), "/usr/share/icons".to_owned(), "/home/u/.local/share/icons".to_owned()]
    );
    assert_eq!(
        xdg_directories(Some("/a:/b/".to_owned()), Some("/data".to_owned()), Some("/home/u".to_owned()), "applications"),
        vec!["/a/applications".to_owned(), "/b/applications".to_owned(), "/data/applications".to_owned()]
    );
    assert_eq!(xdg_directories(Some("/a".to_owned()), None, None, "x"), vec!["/a/x".to_owned()]);
}

#[test]
fn keal_directories() {
    assert_eq!(config_dir(Some("/cfg".to_owned()), Some("/home/u".to_owned())), Ok("/cfg/keal".to_owned()));
    assert_eq!(config_dir(None, Some("/home/u".to_owned())), Ok("/home/u/.config/keal".to_owned()));
    assert_eq!(config_dir(None, None), Err("neither $XDG_CONFIG_HOME nor $HOME are defined"));
    assert_eq!(state_dir(None, Some("/home/u".to_owned())), Ok("/home/u/.local/state/keal".to_owned()));
    assert_eq!(state_dir(None, None), Err("neither $XDG_STATE_HOME nor $HOME are defined"));
}

#[test]
fn icon_directories_by_preference() {
    let themes = vec!["Zafiro".to_owned(), "hicolor".to_owned()];
    let dirs = vec!["/usr/share/icons".to_owned(), "/home/u/.local/share/icons".to_owned()];
    assert_eq!(
        icon_search_dirs(&themes, &dirs),
        vec![
            "/usr/share/icons/Zafiro".to_owned(),
            "/home/u/.local/share/icons/Zafiro".to_owned(),
            "/usr/share/icons/hicolor".to_owned(),
            "/home/u/.local/share/icons/hicolor".to_owned(),
            "/usr/share/pixmaps".to_owned(),
        ]
    );
}

#[test]
fn theme_add_field_records_problems() {
    let mut theme = Theme::default();
    theme.add_field(("matched_text".to_owned(), "a6da95".to_owned()));
    assert_eq!(theme.matched_text, Color { r: 0xa6, g: 0xda, b: 0x95, a: 255 });
    assert!(theme.problems.is_empty());
    theme.add_field(("scrollbar_enabled".to_owned(), "yes".to_owned()));
    assert_eq!(theme.problems.len(), 1);
    assert!(!theme.scrollbar_enabled);
}
