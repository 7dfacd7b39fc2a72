use open_now::hotkeys::HotkeyAction;
use open_now::launch::LaunchError;
use open_now::launcher::{
    category_filter, hotkey_from_input, hotkey_response, launch_failed_message, launched_message,
    prepare_for_save, tidy_for_save, LauncherInput, LauncherState,
};
use open_now::shortcut::Shortcut;
use open_now::store::ShortcutStore;

fn store() -> ShortcutStore {
    let mut a = Shortcut::with_id("a".to_string(), "Alpha", "x");
    a.launch_count = 1;
    let b = Shortcut::with_id("b".to_string(), "Beta", "y");
    let c = Shortcut::with_id("c".to_string(), "Gamma", "z");
    ShortcutStore::new(vec![a, b, c])
}

#[test]
fn toggle_shows_everything_then_hides() {
    let s = store();
    let mut l = LauncherState::new();
    l.search = "old".to_string();
    l.selected = 2;
    l.toggle(&s);
    assert!(l.visible);
    assert_eq!(l.search, "");
    assert_eq!(l.selected, 0);
    let ids: Vec<String> = l.results.iter().map(|x| x.id.clone()).collect();
    assert_eq!(ids, vec!["a", "b", "c"]);
    l.select_next();
    l.toggle(&s);
    assert!(!l.visible);
    assert_eq!(l.selected, 1);
}

#[test]
fn navigation_stays_on_results() {
    let s = store();
    let mut l = LauncherState::new();
    l.toggle(&s);
    l.select_previous();
    assert_eq!(l.selected, 0);
    l.select_next();
    l.select_next();
    l.select_next();
    assert_eq!(l.selected, 2);
    assert_eq!(l.chosen().unwrap().id, "c");
    l.search = "bet".to_string();
    l.refresh(&s);
    assert_eq!(l.selected, 0);
    assert_eq!(l.results.len(), 1);
    l.select_next();
    assert_eq!(l.selected, 0);
    l.search = "zzz".to_string();
    l.refresh(&s);
    assert!(l.chosen().is_none());
}

#[test]
fn hotkey_actions() {
    let s = store();
    let mut l = LauncherState::new();
    assert!(hotkey_response(&mut l, &s, HotkeyAction::TogglePopup).is_none());
    assert!(l.visible);
    let got = hotkey_response(&mut l, &s, HotkeyAction::LaunchShortcut("b".to_string()));
    assert_eq!(got.unwrap().name, "Beta");
    assert!(l.visible);
    assert!(hotkey_response(&mut l, &s, HotkeyAction::LaunchShortcut("q".to_string())).is_none());
}

#[test]
fn saving_tidies_name_and_category() {
    let mut s = Shortcut::with_id("i".to_string(), "   ", "t");
    s.category = "  Dev  ".to_string();
    let r = prepare_for_save(s);
    assert_eq!(r.name, "Untitled");
    assert_eq!(r.category, "Dev");
    let mut s = Shortcut::with_id("i".to_string(), " Keep ", "t");
    s.category = " \t ".to_string();
    let r = prepare_for_save(s);
    assert_eq!(r.name, " Keep ");
    assert_eq!(r.category, "General");
    assert_eq!(r.id, "i");
}

#[test]
fn dialog_helpers() {
    assert_eq!(hotkey_from_input(String::new()), None);
    assert_eq!(hotkey_from_input("ctrl+k".to_string()), Some("ctrl+k".to_string()));
    assert_eq!(category_filter("All"), None);
    assert_eq!(category_filter("Web"), Some("Web"));
    assert_eq!(launched_message("VS Code"), "Launched: VS Code");
    assert_eq!(
        launch_failed_message("VS Code", &LaunchError::Io("gone".to_string())),
        "Failed to launch VS Code: IO error: gone"
    );
}

#[test]
fn tidy_uses_given_trimmed_texts() {
    let s = Shortcut::with_id("i".to_string(), "n", "t");
    let r = tidy_for_save(s, "", "Dev");
    assert_eq!(r.name, "Untitled");
    assert_eq!(r.category, "Dev");
    let s = Shortcut::with_id("i".to_string(), "n", "t");
    let r = tidy_for_save(s, "n", "");
    assert_eq!(r.name, "n");
    assert_eq!(r.category, "General");
}

#[test]
fn enter_launches_selection_and_escape_hides() {
    let s = store();
    let mut l = LauncherState::new();
    l.toggle(&s);
    assert_eq!(l.handle_input(LauncherInput::Next), None);
    let launched = l.handle_input(LauncherInput::Enter).unwrap();
    assert_eq!(launched.id, "b");
    assert!(!l.visible);
    l.toggle(&s);
    assert_eq!(l.handle_input(LauncherInput::Escape), None);
    assert!(!l.visible);
    assert_eq!(l.results.len(), 3);
}

#[test]
fn clicks_and_hover_in_the_popup() {
    let s = store();
    let mut l = LauncherState::new();
    l.toggle(&s);
    assert_eq!(l.handle_input(LauncherInput::Hover(2)), None);
    assert_eq!(l.selected, 2);
    assert_eq!(l.handle_input(LauncherInput::Previous), None);
    assert_eq!(l.selected, 1);
    assert_eq!(l.handle_input(LauncherInput::Click(7)), None);
    assert!(l.visible);
    assert_eq!(l.handle_input(LauncherInput::Click(0)).unwrap().id, "a");
    assert!(!l.visible);
}

#[test]
fn enter_without_results_does_nothing() {
    let s = ShortcutStore::new(Vec::new());
    let mut l = LauncherState::new();
    l.toggle(&s);
    assert_eq!(l.handle_input(LauncherInput::Enter), None);
    assert!(l.visible);
}
