use open_now::tray::{bgra_to_rgba, icon_rgba, menu_action, TrayAction, ICON_SIZE};

#[test]
fn icon_has_letter_on_background() {
    let px = icon_rgba();
    assert_eq!(px.len(), (ICON_SIZE * ICON_SIZE * 4) as usize);
    let at = |x: usize, y: usize| -> [u8; 4] {
        let i = (y * 32 + x) * 4;
        [px[i], px[i + 1], px[i + 2], px[i + 3]]
    };
    assert_eq!(at(0, 0), [0x58, 0x65, 0xF2, 0xFF]);
    assert_eq!(at(8, 6), [0xFF, 0xFF, 0xFF, 0xFF]);
    assert_eq!(at(15, 8), [0x58, 0x65, 0xF2, 0xFF]);
    assert_eq!(at(15, 16), [0xFF, 0xFF, 0xFF, 0xFF]);
    assert_eq!(at(23, 16), [0x58, 0x65, 0xF2, 0xFF]);
    assert_eq!(at(24, 26), [0xFF, 0xFF, 0xFF, 0xFF]);
    assert_eq!(at(31, 31), [0x58, 0x65, 0xF2, 0xFF]);
    assert!(px.chunks(4).all(|c| c[3] == 0xFF));
}

#[test]
fn menu_events() {
    assert_eq!(menu_action("1", "1", "2"), Some(TrayAction::Show));
    assert_eq!(menu_action("2", "1", "2"), Some(TrayAction::Quit));
    assert_eq!(menu_action("3", "1", "2"), None);
}

#[test]
fn bgra_pixels_become_rgba() {
    let mut bytes = vec![1, 2, 3, 4, 10, 20, 30, 40, 7, 8];
    bgra_to_rgba(&mut bytes);
    assert_eq!(bytes, vec![3, 2, 1, 4, 30, 20, 10, 40, 7, 8]);
    bgra_to_rgba(&mut bytes);
    assert_eq!(bytes, vec![1, 2, 3, 4, 10, 20, 30, 40, 7, 8]);
    let mut empty: Vec<u8> = Vec::new();
    bgra_to_rgba(&mut empty);
    assert!(empty.is_empty());
}
