use open_now::shortcut::Shortcut;

fn check_uuid_text(id: &str) {
    let chars: Vec<char> = id.chars().collect();
    assert_eq!(chars.len(), 36);
    for (i, c) in chars.iter().enumerate() {
        if i == 8 || i == 13 || i == 18 || i == 23 {
            assert_eq!(*c, '-');
        } else {
            assert!(c.is_ascii_hexdigit() && !c.is_ascii_uppercase());
        }
    }
    assert_eq!(chars[14], '4');
    assert!("89ab".contains(chars[19]));
}

#[test]
fn new_shortcut_has_defaults() {
    let s = Shortcut::new("VS Code", "code");
    check_uuid_text(&s.id);
    assert_eq!(s.name, "VS Code");
    assert_eq!(s.target, "code");
    assert_eq!(s.args, "");
    assert_eq!(s.category, "General");
    assert_eq!(s.icon_path, None);
    assert_eq!(s.hotkey, None);
    assert_eq!(s.launch_count, 0);
}

#[test]
fn default_shortcut_is_blank_with_fresh_id() {
    let a = Shortcut::default();
    let b = Shortcut::default();
    check_uuid_text(&a.id);
    assert_ne!(a.id, b.id);
    assert_eq!(a.name, "");
    assert_eq!(a.category, "General");
}

#[test]
fn with_id_keeps_the_id() {
    let s = Shortcut::with_id("abc".to_string(), "n", "t");
    assert_eq!(s.id, "abc");
    assert_eq!(s.clone(), s);
}
