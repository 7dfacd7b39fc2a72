use open_now::paths::{get_data_dir, get_data_file, get_icon_cache_dir, hash_text, hex_text, icon_cache_path};
use std::collections::hash_map::DefaultHasher;
use std::hash::{Hash, Hasher};

#[test]
fn data_locations() {
    assert_eq!(get_data_dir(Some("/home/u/.local/share")), "/home/u/.local/share/ShortcutManager");
    assert_eq!(get_data_dir(None), "./ShortcutManager");
    assert_eq!(get_data_file("/d/ShortcutManager"), "/d/ShortcutManager/shortcuts.json");
    assert_eq!(get_icon_cache_dir("/d/ShortcutManager"), "/d/ShortcutManager/icon_cache");
}

#[test]
fn hex_formatting() {
    assert_eq!(hex_text(0), "0");
    assert_eq!(hex_text(255), "ff");
    assert_eq!(hex_text(4096), "1000");
    assert_eq!(hex_text(u64::MAX), format!("{:x}", u64::MAX));
}

#[test]
fn hash_matches_std_hash_of_str() {
    for t in ["", "C:\\x.exe", "/usr/bin/code", "héllo"] {
        let mut h = DefaultHasher::new();
        t.hash(&mut h);
        assert_eq!(hash_text(t), h.finish());
    }
}

#[test]
fn icon_cache_file_name() {
    let target = "/usr/bin/code";
    let mut h = DefaultHasher::new();
    target.hash(&mut h);
    let expected = format!("/d/icon_cache/{:x}.png", h.finish());
    assert_eq!(icon_cache_path("/d", target), expected);
}
