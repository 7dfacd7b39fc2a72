use open_now::shortcut::Shortcut;
use open_now::table::{sort_by_column, SortColumn};

fn sc(id: &str, name: &str, category: &str, hotkey: Option<&str>, count: u64) -> Shortcut {
    let mut s = Shortcut::with_id(id.to_string(), name, "/bin/true");
    s.category = category.to_string();
    s.hotkey = hotkey.map(|h| h.to_string());
    s.launch_count = count;
    s
}

fn rows() -> Vec<Shortcut> {
    vec![
        sc("1", "vim", "Development", Some("Ctrl+Alt+V"), 3),
        sc("2", "Firefox", "Web", None, 10),
        sc("3", "VS Code", "development", Some("ctrl+alt+c"), 3),
        sc("4", "Spotify", "Media", None, 0),
    ]
}

fn ids(v: &[Shortcut]) -> Vec<String> {
    v.iter().map(|s| s.id.clone()).collect()
}

#[test]
fn sorts_by_name_ignoring_case() {
    let r = sort_by_column(rows(), SortColumn::Name, false);
    assert_eq!(ids(&r), vec!["2", "4", "1", "3"]);
}

#[test]
fn sorts_by_name_descending() {
    let r = sort_by_column(rows(), SortColumn::Name, true);
    assert_eq!(ids(&r), vec!["3", "1", "4", "2"]);
}

#[test]
fn sorts_by_category_keeping_equal_rows_in_order() {
    let r = sort_by_column(rows(), SortColumn::Category, false);
    assert_eq!(ids(&r), vec!["1", "3", "4", "2"]);
}

#[test]
fn sorts_by_hotkey_with_missing_hotkeys_first() {
    let r = sort_by_column(rows(), SortColumn::Hotkey, false);
    assert_eq!(ids(&r), vec!["2", "4", "3", "1"]);
}

#[test]
fn sorts_by_launch_count_both_ways() {
    let up = sort_by_column(rows(), SortColumn::Launches, false);
    assert_eq!(ids(&up), vec!["4", "1", "3", "2"]);
    let down = sort_by_column(rows(), SortColumn::Launches, true);
    assert_eq!(ids(&down), vec!["2", "3", "1", "4"]);
}

#[test]
fn sorting_nothing_gives_nothing() {
    assert!(sort_by_column(Vec::new(), SortColumn::Name, true).is_empty());
}
