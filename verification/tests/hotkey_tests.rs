use global_hotkey::hotkey::{Code, HotKey, Modifiers};
use open_now::hotkeys::{
    hotkey_id, parse_hotkey, parse_key_code, split_plus, HotkeyAction, HotkeyManager, HotkeyModifiers,
    HotkeyParseError, KeyCode,
};
use open_now::shortcut::Shortcut;

fn mods(control: bool, alt: bool, shift: bool, super_key: bool) -> HotkeyModifiers {
    HotkeyModifiers { control, alt, shift, super_key }
}

#[test]
fn key_codes() {
    assert_eq!(parse_key_code("space").unwrap(), KeyCode::Space);
    assert_eq!(parse_key_code("esc").unwrap(), KeyCode::Escape);
    assert_eq!(parse_key_code("escape").unwrap(), KeyCode::Escape);
    assert_eq!(parse_key_code("pagedown").unwrap(), KeyCode::PageDown);
    assert_eq!(parse_key_code("left").unwrap(), KeyCode::ArrowLeft);
    assert_eq!(parse_key_code("f12").unwrap(), KeyCode::F12);
    assert_eq!(parse_key_code("0").unwrap(), KeyCode::Digit0);
    assert_eq!(parse_key_code("z").unwrap(), KeyCode::KeyZ);
    assert_eq!(
        parse_key_code("F1").unwrap_err(),
        HotkeyParseError::UnknownKey("F1".to_string())
    );
}

#[test]
fn parse_full_hotkeys() {
    assert_eq!(parse_hotkey("ctrl+alt+v").unwrap(), (mods(true, true, false, false), KeyCode::KeyV));
    assert_eq!(
        parse_hotkey(" Control + SHIFT + F5 ").unwrap(),
        (mods(true, false, true, false), KeyCode::F5)
    );
    assert_eq!(parse_hotkey("win+cmd+1").unwrap(), (mods(false, false, false, true), KeyCode::Digit1));
    assert_eq!(parse_hotkey("a+b").unwrap(), (mods(false, false, false, false), KeyCode::KeyB));
}

#[test]
fn modifier_order_does_not_matter() {
    assert_eq!(parse_hotkey("alt+ctrl+k").unwrap(), parse_hotkey("ctrl+alt+k").unwrap());
    assert_eq!(parse_hotkey("k+alt+ctrl").unwrap(), parse_hotkey("ctrl+alt+k").unwrap());
}

#[test]
fn parse_errors() {
    assert_eq!(
        parse_hotkey("ctrl+alt").unwrap_err(),
        HotkeyParseError::NoKey("ctrl+alt".to_string())
    );
    assert_eq!(
        parse_hotkey("ctrl+hyper+k").unwrap_err(),
        HotkeyParseError::UnknownKey("hyper".to_string())
    );
    assert_eq!(parse_hotkey("").unwrap_err(), HotkeyParseError::UnknownKey(String::new()));
    assert_eq!(parse_hotkey("ctrl++k").unwrap_err(), HotkeyParseError::UnknownKey(String::new()));
    assert_eq!(
        parse_hotkey("ctrl+alt").unwrap_err().message(),
        "No key in hotkey: ctrl+alt"
    );
    assert_eq!(parse_key_code("x1").unwrap_err().message(), "Unknown key: x1");
}

#[test]
fn split_keeps_empty_parts() {
    assert_eq!(split_plus("a+b"), vec!["a", "b"]);
    assert_eq!(split_plus(""), vec![""]);
    assert_eq!(split_plus("+"), vec!["", ""]);
    assert_eq!(split_plus("a++"), vec!["a", "", ""]);
}

#[test]
fn manager_dispatches_registered_actions() {
    let mut m = HotkeyManager::new();
    let toggle = hotkey_id(mods(true, true, false, false), KeyCode::Space);
    assert_eq!(m.handle_event(toggle), None);
    assert_eq!(m.register_toggle(mods(true, true, false, false), KeyCode::Space), toggle);
    let launch = m.register_shortcut(mods(false, true, false, false), KeyCode::KeyA, "abc");
    assert_ne!(launch, toggle);
    assert_eq!(m.handle_event(toggle), Some(HotkeyAction::TogglePopup));
    assert_eq!(m.handle_event(launch), Some(HotkeyAction::LaunchShortcut("abc".to_string())));
    assert_eq!(m.unregister_all().len(), 2);
    m.clear();
    assert_eq!(m.handle_event(toggle), None);
    assert!(m.unregister_all().is_empty());
}

#[test]
fn hotkey_ids_are_those_global_hotkey_reports() {
    assert_eq!(
        hotkey_id(mods(true, true, false, false), KeyCode::Space),
        HotKey::new(Some(Modifiers::CONTROL | Modifiers::ALT), Code::Space).id()
    );
    assert_eq!(
        hotkey_id(mods(false, false, true, true), KeyCode::F5),
        HotKey::new(Some(Modifiers::SHIFT | Modifiers::SUPER), Code::F5).id()
    );
    assert_eq!(
        hotkey_id(mods(false, false, false, false), KeyCode::Digit7),
        HotKey::new(None, Code::Digit7).id()
    );
    assert_ne!(
        hotkey_id(mods(true, false, false, false), KeyCode::KeyA),
        hotkey_id(mods(true, false, false, false), KeyCode::KeyB)
    );
}

#[test]
fn rebuild_plans_toggle_then_each_hotkey() {
    let mut m = HotkeyManager::new();
    let old = m.register_toggle(mods(true, true, false, false), KeyCode::Space);
    let mut a = Shortcut::with_id("a".to_string(), "Alpha", "x");
    a.hotkey = Some("ctrl+alt+1".to_string());
    let b = Shortcut::with_id("b".to_string(), "Beta", "x");
    let mut c = Shortcut::with_id("c".to_string(), "Gamma", "x");
    c.hotkey = Some("ctrl+oops".to_string());
    let plan = m.rebuild(&vec![a, b, c]);
    assert_eq!(m.handle_event(old), None);
    assert_eq!(plan.len(), 3);
    let toggle = plan[0].as_ref().unwrap();
    assert_eq!(toggle.modifiers, mods(true, true, false, false));
    assert_eq!(toggle.key, KeyCode::Space);
    assert_eq!(toggle.action, HotkeyAction::TogglePopup);
    let first = plan[1].as_ref().unwrap();
    assert_eq!(first.key, KeyCode::Digit1);
    assert_eq!(first.action, HotkeyAction::LaunchShortcut("a".to_string()));
    let rejected = plan[2].as_ref().unwrap_err();
    assert_eq!(rejected.hotkey, "ctrl+oops");
    assert_eq!(rejected.shortcut_name, "Gamma");
    assert_eq!(rejected.error, HotkeyParseError::UnknownKey("oops".to_string()));
}
