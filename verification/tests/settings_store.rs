use floatkeys::board::Board;
use floatkeys::setup::{Stored, StoredSlot};

fn empty_slot() -> StoredSlot {
    StoredSlot { mods: None, vk: None, name: None, star: None }
}

fn nothing_stored() -> Stored {
    Stored {
        opacity: None,
        compact: None,
        show_fn: None,
        lang: None,
        predict: None,
        autocorrect: None,
        highlight: None,
        bigram: None,
        pin_bar: None,
        x: None,
        y: None,
        slots: (0..10).map(|_| empty_slot()).collect(),
    }
}

fn name_of(buf: &[u16]) -> String {
    let n = buf.iter().position(|&u| u == 0).unwrap_or(buf.len());
    String::from_utf16_lossy(&buf[..n])
}

#[test]
fn nothing_stored_changes_nothing() {
    let mut b = Board::new();
    b.apply_settings(&nothing_stored());
    assert_eq!(b.opacity, 245);
    assert!(b.show_fn && !b.compact && b.pin_bar_on);
    assert!(!b.has_pos);
    assert!(b.sc.iter().all(|e| !e.used));
}

#[test]
fn stored_values_are_kept_in_range() {
    let mut b = Board::new();
    let mut s = nothing_stored();
    s.opacity = Some(20);
    s.compact = Some(5);
    s.show_fn = Some(0);
    s.lang = Some(7);
    s.predict = Some(0);
    s.pin_bar = Some(0);
    s.x = Some(30);
    s.y = Some(40);
    b.apply_settings(&s);
    assert_eq!(b.opacity, 102);
    assert!(b.compact);
    assert!(!b.show_fn);
    assert!(!b.pin_bar_on);
    assert_eq!(b.pred.language(), 0);
    assert_eq!((b.pos_x, b.pos_y, b.has_pos), (30, 40, true));
    s.opacity = Some(1000);
    s.lang = Some(1);
    b.apply_settings(&s);
    assert_eq!(b.opacity, 255);
    assert_eq!(b.pred.language(), 1);
}

#[test]
fn x_without_y_moves_but_is_not_known() {
    let mut b = Board::new();
    let mut s = nothing_stored();
    s.x = Some(12);
    b.apply_settings(&s);
    assert_eq!(b.pos_x, 12);
    assert!(!b.has_pos);
}

#[test]
fn slots_load_with_names() {
    let mut b = Board::new();
    let mut s = nothing_stored();
    s.slots[0] = StoredSlot { mods: Some(0x13), vk: Some(b'C' as u32), name: None, star: Some(1) };
    let mut buf = [0u16; 16];
    for (i, u) in "copy all".encode_utf16().enumerate() {
        buf[i] = u;
    }
    s.slots[1] = StoredSlot { mods: Some(2), vk: Some(b'A' as u32), name: Some(buf), star: None };
    s.slots[2] = StoredSlot { mods: Some(2), vk: Some(0x1FF), name: None, star: Some(1) };
    b.apply_settings(&s);
    assert!(b.sc[0].used && b.sc[0].star);
    assert_eq!(b.sc[0].mods, 3);
    assert_eq!(name_of(&b.sc[0].name), "C+S+C");
    assert_eq!(name_of(&b.sc[1].name), "copy all");
    assert!(!b.sc[1].star);
    // a key out of range leaves the slot empty (its modifiers kept)
    assert!(!b.sc[2].used);
    assert_eq!(b.sc[2].vk, 0);
    assert_eq!(b.sc[2].mods, 2);
}

#[test]
fn long_stored_names_are_cut_to_nine_units() {
    let mut b = Board::new();
    let mut s = nothing_stored();
    let mut buf = [0u16; 16];
    for (i, u) in "abcdefghijklmno".encode_utf16().enumerate() {
        buf[i] = u;
    }
    s.slots[4] = StoredSlot { mods: Some(0), vk: Some(b'K' as u32), name: Some(buf), star: None };
    b.apply_settings(&s);
    assert_eq!(name_of(&b.sc[4].name), "abcdefghi");
}

#[test]
fn only_three_stars_are_kept() {
    let mut b = Board::new();
    let mut s = nothing_stored();
    for i in 0..5 {
        s.slots[i] = StoredSlot { mods: Some(1), vk: Some(0x41 + i as u32), name: None, star: Some(1) };
    }
    b.apply_settings(&s);
    let stars: Vec<bool> = b.sc.iter().map(|e| e.star).collect();
    assert_eq!(&stars[..5], &[true, true, true, false, false]);
}

#[test]
fn saved_settings_of_a_new_board() {
    let b = Board::new();
    let s = b.saved_settings();
    assert_eq!(s.opacity, Some(245));
    assert_eq!(s.compact, Some(0));
    assert_eq!(s.show_fn, Some(1));
    assert_eq!(s.lang, Some(0));
    assert_eq!(s.predict, Some(1));
    assert_eq!(s.pin_bar, Some(1));
    assert_eq!(s.x, None);
    assert_eq!(s.slots.len(), 10);
    assert_eq!(s.slots[3].vk, Some(0));
    assert_eq!(s.slots[3].name, Some([0u16; 16]));
}

#[test]
fn settings_round_trip() {
    let mut a = Board::new();
    let mut s = nothing_stored();
    s.opacity = Some(180);
    s.compact = Some(1);
    s.lang = Some(1);
    s.bigram = Some(0);
    s.slots[2] = StoredSlot { mods: Some(6), vk: Some(0x70), name: None, star: Some(1) };
    a.apply_settings(&s);
    let saved = a.saved_settings();
    let mut b = Board::new();
    b.apply_settings(&saved);
    assert_eq!(b.opacity, 180);
    assert!(b.compact);
    assert_eq!(b.pred.language(), 1);
    assert_eq!(b.pred.switches(), a.pred.switches());
    for i in 0..10 {
        assert_eq!(b.sc[i].used, a.sc[i].used);
        assert_eq!(b.sc[i].mods, a.sc[i].mods);
        assert_eq!(b.sc[i].vk, a.sc[i].vk);
        assert_eq!(b.sc[i].name, a.sc[i].name);
        assert_eq!(b.sc[i].star, a.sc[i].star);
    }
    assert_eq!(name_of(&b.sc[2].name), "C+A+F1");
}
