use floatkeys::board::{Board, Kind, MX_CTRL, MX_SHIFT};
use floatkeys::look::{clip_preview, Shade};

fn units(s: &str) -> Vec<u16> {
    s.encode_utf16().collect()
}

fn key_of(b: &Board, kind: Kind, m: i32) -> usize {
    b.keys.iter().position(|k| k.kind == kind && (kind != Kind::Mod || k.mod_ == m)).expect("key")
}

#[test]
fn modifier_keys_show_their_state() {
    let mut b = Board::new();
    b.build_keys();
    let ctrl = key_of(&b, Kind::Mod, MX_CTRL as i32);
    let l = b.key_look(ctrl, false, false);
    assert_eq!(l.shade, Shade::Special);
    assert!(!l.dark_text);
    let mut out = Vec::new();
    b.toggle_mod(MX_CTRL, &mut out);
    let l = b.key_look(ctrl, false, false);
    assert_eq!(l.shade, Shade::Held);
    assert!(l.dark_text);
    b.toggle_mod(MX_CTRL, &mut out);
    let l = b.key_look(ctrl, false, false);
    assert_eq!(l.shade, Shade::Locked);
    assert!(!l.dark_text);
}

#[test]
fn character_keys_are_plain_and_caps_shows_its_light() {
    let mut b = Board::new();
    b.build_keys();
    let ch = key_of(&b, Kind::Char, 0);
    assert_eq!(b.key_look(ch, true, false).shade, Shade::Plain);
    let caps = key_of(&b, Kind::Caps, 0);
    assert_eq!(b.key_look(caps, false, false).shade, Shade::Special);
    assert_eq!(b.key_look(caps, true, false).shade, Shade::Locked);
    b.pressed = ch as i32;
    assert!(b.key_look(ch, false, false).pressed);
}

#[test]
fn shift_caps_key_of_the_compact_layout() {
    let mut b = Board::new();
    b.compact = true;
    b.build_keys();
    let k = key_of(&b, Kind::Shcap, 0);
    assert_eq!(b.key_look(k, false, false).shade, Shade::Special);
    let mut out = Vec::new();
    b.toggle_mod(MX_SHIFT, &mut out);
    let l = b.key_look(k, false, false);
    assert_eq!(l.shade, Shade::Held);
    assert!(l.dark_text);
    assert_eq!(b.key_look(k, true, false).shade, Shade::Locked);
}

#[test]
fn preview_of_short_text() {
    assert_eq!(clip_preview(&[104, 105, 0, 120]), units("hi"));
    assert_eq!(clip_preview(&units("a\tb\r\nc")), units("a b  c"));
}

#[test]
fn preview_of_long_text_ends_with_ellipsis() {
    let t = units("abcdefghijklmnopqrstuvwxyz0123456789");
    let mut want = units("abcdefghijklmnopqrstuvwxyz01");
    want.push(0x2026);
    assert_eq!(clip_preview(&t), want);
}

#[test]
fn preview_keeps_pairs_whole_and_drops_lone_surrogates() {
    assert_eq!(clip_preview(&[0x41, 0xD83D, 0xDE00, 0xDC00, 0x42]), vec![0x41, 0xD83D, 0xDE00, 0x42]);
    // a pair that would be cut at the 28th unit is left out
    let mut t = units("abcdefghijklmnopqrstuvwxyz0");
    t.push(0xD83D);
    t.push(0xDE00);
    let mut want = units("abcdefghijklmnopqrstuvwxyz0");
    want.push(0x2026);
    assert_eq!(clip_preview(&t), want);
}

use floatkeys::focus::{explorer_class, focus_step, shell_class, tracks, unpinnable_class, FocusStep, Front};

fn zbuf(s: &str) -> Vec<u16> {
    let mut v = units(s);
    v.push(0);
    v.push(77);
    v
}

#[test]
fn window_classes() {
    assert!(shell_class(&zbuf("Shell_TrayWnd")));
    assert!(shell_class(&zbuf("FloatKeys")));
    assert!(!shell_class(&zbuf("Notepad")));
    assert!(!shell_class(&zbuf("Shell_SecondaryTrayWnd")));
    assert!(unpinnable_class(&zbuf("Shell_SecondaryTrayWnd")));
    assert!(explorer_class(&zbuf("CabinetWClass")));
    assert!(!explorer_class(&zbuf("Cabinet")));
}

#[test]
fn focus_steps() {
    let f = Front { is_self: true, usable: false, is_startup: false, last_alive: true, last_is_front: false };
    assert_eq!(focus_step(f), FocusStep::Restore);
    let f = Front { is_self: false, usable: true, is_startup: false, last_alive: true, last_is_front: false };
    assert_eq!(focus_step(f), FocusStep::Adopt);
    let f = Front { is_self: false, usable: true, is_startup: true, last_alive: true, last_is_front: false };
    assert_eq!(focus_step(f), FocusStep::Restore);
    let f = Front { is_self: false, usable: false, is_startup: false, last_alive: false, last_is_front: false };
    assert_eq!(focus_step(f), FocusStep::Keep);
    assert!(tracks(true, true, false, false, false, true));
    assert!(!tracks(true, true, false, false, true, true));
    assert!(!tracks(true, true, true, false, false, false));
}
