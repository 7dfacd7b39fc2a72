use open_now::ranking::rank;
use open_now::shortcut::Shortcut;
use open_now::store::{category_matches, query_matches, ShortcutStore};

fn sc(id: &str, name: &str, category: &str, count: u64) -> Shortcut {
    let mut s = Shortcut::with_id(id.to_string(), name, "/bin/true");
    s.category = category.to_string();
    s.launch_count = count;
    s
}

fn names(v: &[Shortcut]) -> Vec<String> {
    v.iter().map(|s| s.name.clone()).collect()
}

fn sample() -> ShortcutStore {
    ShortcutStore::new(vec![
        sc("1", "VS Code", "Development", 3),
        sc("2", "Firefox", "Web", 10),
        sc("3", "vim", "Development", 3),
        sc("4", "Spotify", "Media", 0),
        sc("5", "Terminal", "", 3),
    ])
}

#[test]
fn new_store_keeps_order() {
    let store = sample();
    assert_eq!(
        names(&store.get_all()),
        vec!["VS Code", "Firefox", "vim", "Spotify", "Terminal"]
    );
}

#[test]
fn add_appends_and_lookup_finds_it() {
    let mut store = sample();
    store.add(sc("6", "Notes", "Office", 0));
    let all = store.get_all();
    assert_eq!(all.len(), 6);
    assert_eq!(all[5].name, "Notes");
    assert_eq!(store.get_by_id("6").unwrap().name, "Notes");
}

#[test]
fn get_by_id_finds_first_match_or_none() {
    let mut store = sample();
    store.add(sc("2", "Second two", "Web", 0));
    assert_eq!(store.get_by_id("2").unwrap().name, "Firefox");
    assert!(store.get_by_id("missing").is_none());
    assert!(store.get_by_id("").is_none());
}

#[test]
fn update_replaces_first_with_same_id() {
    let mut store = sample();
    let changed = store.update(sc("3", "neovim", "Editors", 7));
    assert!(changed);
    let got = store.get_by_id("3").unwrap();
    assert_eq!(got.name, "neovim");
    assert_eq!(got.launch_count, 7);
    assert_eq!(store.get_all().len(), 5);
    assert_eq!(store.get_all()[2].name, "neovim");
}

#[test]
fn update_of_unknown_id_changes_nothing() {
    let mut store = sample();
    let before = store.get_all();
    assert!(!store.update(sc("99", "ghost", "", 0)));
    assert_eq!(store.get_all(), before);
}

#[test]
fn delete_removes_every_shortcut_with_that_id() {
    let mut store = sample();
    store.add(sc("2", "Another", "Web", 1));
    store.delete("2");
    assert_eq!(names(&store.get_all()), vec!["VS Code", "vim", "Spotify", "Terminal"]);
    assert!(store.get_by_id("2").is_none());
    store.delete("nothing-here");
    assert_eq!(store.get_all().len(), 4);
}

#[test]
fn bump_launch_count_adds_one() {
    let mut store = sample();
    assert!(store.bump_launch_count("4"));
    assert!(store.bump_launch_count("4"));
    assert_eq!(store.get_by_id("4").unwrap().launch_count, 2);
    assert_eq!(store.get_by_id("1").unwrap().launch_count, 3);
    assert!(!store.bump_launch_count("nope"));
}

#[test]
fn categories_sorted_unique_without_empty() {
    let store = sample();
    assert_eq!(store.categories(), vec!["Development", "Media", "Web"]);
}

#[test]
fn categories_default_when_none_used() {
    let empty = ShortcutStore::new(vec![]);
    assert_eq!(empty.categories(), vec!["General"]);
    let blank = ShortcutStore::new(vec![sc("1", "a", "", 0), sc("2", "b", "", 0)]);
    assert_eq!(blank.categories(), vec!["General"]);
}

#[test]
fn categories_order_is_by_code_point() {
    let store = ShortcutStore::new(vec![
        sc("1", "a", "b", 0),
        sc("2", "b", "B", 0),
        sc("3", "c", "a", 0),
        sc("4", "d", "b", 0),
    ]);
    assert_eq!(store.categories(), vec!["B", "a", "b"]);
}

#[test]
fn search_empty_query_returns_all_most_used_first() {
    let store = sample();
    let r = store.search("", None);
    assert_eq!(names(&r), vec!["Firefox", "Terminal", "vim", "VS Code", "Spotify"]);
}

#[test]
fn search_blank_query_returns_all() {
    let store = sample();
    assert_eq!(store.search("   ", None).len(), 5);
}

#[test]
fn search_matches_name_case_insensitively_after_trim() {
    let store = sample();
    let r = store.search("  CODE ", None);
    assert_eq!(names(&r), vec!["VS Code"]);
}

#[test]
fn search_matches_category_text() {
    let store = sample();
    let r = store.search("develop", None);
    assert_eq!(names(&r), vec!["vim", "VS Code"]);
}

#[test]
fn search_category_filter() {
    let store = sample();
    assert_eq!(names(&store.search("", Some("Media"))), vec!["Spotify"]);
    assert_eq!(store.search("", Some("All")).len(), 5);
    assert_eq!(store.search("", Some("media")).len(), 0);
    assert_eq!(names(&store.search("vi", Some("Development"))), vec!["vim"]);
}

#[test]
fn search_ties_keep_store_order() {
    let store = ShortcutStore::new(vec![
        sc("1", "Same", "x", 1),
        sc("2", "same", "x", 1),
        sc("3", "SAME", "x", 1),
    ]);
    let r = store.search("", None);
    let ids: Vec<String> = r.iter().map(|s| s.id.clone()).collect();
    assert_eq!(ids, vec!["1", "2", "3"]);
}

#[test]
fn rank_orders_by_count_then_key() {
    let items = vec![sc("1", "b", "", 1), sc("2", "a", "", 1), sc("3", "z", "", 5), sc("4", "c", "", 0)];
    let keys = vec!["b".to_string(), "a".to_string(), "z".to_string(), "c".to_string()];
    let r = rank(items, keys);
    let ids: Vec<String> = r.iter().map(|s| s.id.clone()).collect();
    assert_eq!(ids, vec!["3", "2", "1", "4"]);
}

#[test]
fn search_sorts_by_lowercased_name() {
    let store = ShortcutStore::new(vec![sc("1", "Beta", "", 0), sc("2", "alpha", "", 0)]);
    assert_eq!(names(&store.search("", None)), vec!["alpha", "Beta"]);
}

#[test]
fn filter_helpers() {
    assert!(category_matches(None, "x"));
    assert!(category_matches(Some("All"), "x"));
    assert!(category_matches(Some("x"), "x"));
    assert!(!category_matches(Some("y"), "x"));
    assert!(query_matches("", "a", "b"));
    assert!(query_matches("od", "code", "dev"));
    assert!(query_matches("ev", "code", "dev"));
    assert!(!query_matches("zz", "code", "dev"));
}

#[test]
fn search_ignores_ascii_case_of_query() {
    let store = sample();
    assert_eq!(names(&store.search("VI", None)), names(&store.search("vi", None)));
    assert_eq!(names(&store.search("Vs cOdE", None)), vec!["VS Code"]);
    assert_eq!(
        names(&store.search("DEVELOPMENT", Some("All"))),
        names(&store.search("development", None))
    );
}
