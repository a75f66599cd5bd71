use floatkeys::board::{Board, Kind, Shortcut, M_HELD, M_LOCKED, M_OFF, MX_CTRL, MX_SHIFT};
use floatkeys::keys::{VK_BACK, VK_CONTROL, VK_SHIFT};
use floatkeys::state::Out;

fn show(o: &Out) -> String {
    match o {
        Out::Focus => "Focus".to_string(),
        Out::Down(v) => format!("Down({:#x})", v),
        Out::Up(v) => format!("Up({:#x})", v),
        Out::Tap(v) => format!("Tap({:#x})", v),
        Out::Type(u) => format!("Type({})", String::from_utf16_lossy(u)),
        Out::Sleep(ms) => format!("Sleep({})", ms),
        Out::SetTimer(id, ms) => format!("SetTimer({},{})", id, ms),
        Out::KillTimer(id) => format!("KillTimer({})", id),
        Out::Relayout => "Relayout".to_string(),
        Out::Resize => "Resize".to_string(),
        Out::Save => "Save".to_string(),
        Out::Opacity => "Opacity".to_string(),
        Out::Smaller => "Smaller".to_string(),
        Out::Larger => "Larger".to_string(),
        Out::PinWindow => "PinWindow".to_string(),
        Out::Paste(i) => format!("Paste({})", i),
        Out::Close => "Close".to_string(),
    }
}

fn shown(out: &[Out]) -> Vec<String> {
    out.iter().map(show).collect()
}

fn units(s: &str) -> Vec<u16> {
    let mut v: Vec<u16> = s.encode_utf16().collect();
    v.push(0);
    v
}

#[test]
fn new_board_defaults() {
    let b = Board::new();
    assert_eq!(b.opacity, 245);
    assert!(b.show_fn);
    assert!(!b.compact);
    assert!(b.pin_bar_on);
    assert_eq!(b.mods, [M_OFF; 4]);
    assert!(b.sc.iter().all(|e| !e.used && e.vk == 0 && !e.star));
    assert!(b.keys.is_empty());
    assert_eq!(b.bar.len(), 7);
    assert_eq!(b.pending, -1);
}

#[test]
fn modifier_cycles_off_held_locked_off() {
    let mut b = Board::new();
    let mut out = Vec::new();
    b.toggle_mod(MX_CTRL, &mut out);
    assert_eq!(b.mods[MX_CTRL], M_HELD);
    assert_eq!(shown(&out), vec![format!("Down({:#x})", VK_CONTROL)]);
    out.clear();
    b.toggle_mod(MX_CTRL, &mut out);
    assert_eq!(b.mods[MX_CTRL], M_LOCKED);
    assert!(out.is_empty());
    b.toggle_mod(MX_CTRL, &mut out);
    assert_eq!(b.mods[MX_CTRL], M_OFF);
    assert_eq!(shown(&out), vec![format!("Up({:#x})", VK_CONTROL)]);
}

#[test]
fn held_modifier_applies_to_one_key() {
    let mut b = Board::new();
    let mut out = Vec::new();
    b.toggle_mod(MX_CTRL, &mut out);
    out.clear();
    b.emit_vk(b'C' as u32, &mut out);
    assert_eq!(shown(&out), vec!["Focus".to_string(), "Tap(0x43)".to_string(), format!("Up({:#x})", VK_CONTROL)]);
    assert_eq!(b.mods[MX_CTRL], M_OFF);
}

#[test]
fn locked_modifier_stays_on() {
    let mut b = Board::new();
    let mut out = Vec::new();
    b.toggle_mod(MX_CTRL, &mut out);
    b.toggle_mod(MX_CTRL, &mut out);
    out.clear();
    b.emit_vk(b'C' as u32, &mut out);
    assert_eq!(shown(&out), vec!["Focus".to_string(), "Tap(0x43)".to_string()]);
    assert_eq!(b.mods[MX_CTRL], M_LOCKED);
}

#[test]
fn held_shift_is_let_go_while_typing() {
    let mut b = Board::new();
    let mut out = Vec::new();
    b.toggle_mod(MX_SHIFT, &mut out);
    out.clear();
    b.emit_text(&units("x"), &mut out);
    assert_eq!(shown(&out), vec!["Focus".to_string(), format!("Up({:#x})", VK_SHIFT), "Type(x)".to_string()]);
    assert_eq!(b.mods[MX_SHIFT], M_OFF);
}

#[test]
fn autocorrect_and_one_backspace_undo() {
    let mut b = Board::new();
    b.pred.load_data(b"the\nthem\n", b"", b"", b"");
    let mut out = Vec::new();
    b.emit_text(&units("Teh"), &mut out);
    assert_eq!(shown(&out), vec!["Focus", "Type(Teh)"]);
    out.clear();
    b.emit_text(&units(" "), &mut out);
    assert_eq!(shown(&out), vec!["Focus", "Tap(0x8)", "Tap(0x8)", "Tap(0x8)", "Type(The)", "Type( )"]);
    assert!(b.pred.undo_armed());
    out.clear();
    b.emit_vk(VK_BACK, &mut out);
    assert_eq!(shown(&out), vec!["Focus", "Tap(0x8)", "Tap(0x8)", "Tap(0x8)", "Tap(0x8)", "Type(Teh)"]);
    assert!(!b.pred.undo_armed());
}

#[test]
fn known_word_is_not_corrected() {
    let mut b = Board::new();
    b.pred.load_data(b"the\nthem\n", b"", b"", b"");
    let mut out = Vec::new();
    b.emit_text(&units("them"), &mut out);
    out.clear();
    b.emit_text(&units(" "), &mut out);
    assert_eq!(shown(&out), vec!["Focus", "Type( )"]);
}

#[test]
fn double_backspace_window() {
    let mut b = Board::new();
    assert!(!b.is_double_bksp(100));
    b.bksp_last_up = 1000;
    assert!(b.is_double_bksp(1300));
    assert!(b.is_double_bksp(1400));
    assert!(!b.is_double_bksp(1401));
}

#[test]
fn releasing_modifiers_on_close() {
    let mut b = Board::new();
    let mut out = Vec::new();
    b.toggle_mod(MX_CTRL, &mut out);
    b.toggle_mod(MX_SHIFT, &mut out);
    b.toggle_mod(MX_SHIFT, &mut out);
    out.clear();
    b.release_mods(&mut out);
    let s = shown(&out);
    assert!(s.contains(&format!("Up({:#x})", VK_CONTROL)));
    assert!(s.contains(&format!("Up({:#x})", VK_SHIFT)));
}

fn slot(vk: u32, name: &str) -> Shortcut {
    let mut e = Shortcut::new();
    e.used = true;
    e.mods = 2;
    e.vk = vk;
    for (i, u) in name.encode_utf16().take(9).enumerate() {
        e.name[i] = u;
    }
    e
}

fn scut_key(b: &Board, s: u32) -> i32 {
    b.keys.iter().position(|k| k.kind == Kind::Scut && k.vk == s).expect("slot key") as i32
}

#[test]
fn at_most_three_shortcuts_on_the_strip() {
    let mut b = Board::new();
    for i in 0..5 {
        b.sc[i] = slot(b'A' as u32 + i as u32, "x");
    }
    b.view_sc = true;
    b.star_arm = true;
    b.build_keys();
    let mut out = Vec::new();
    for s in 0..4u32 {
        let k = scut_key(&b, s);
        b.press_key(k, false, 1000, &mut out);
    }
    assert!(b.sc[0].star && b.sc[1].star && b.sc[2].star);
    assert!(!b.sc[3].star);
    assert_eq!(b.star_count(), 3);
    // tapping a starred slot again takes it off the strip
    let k = scut_key(&b, 1);
    b.press_key(k, false, 1000, &mut out);
    assert!(!b.sc[1].star);
    let k = scut_key(&b, 3);
    b.press_key(k, false, 1000, &mut out);
    assert!(b.sc[3].star);
}

#[test]
fn double_backspace_erases_the_typed_word() {
    let mut b = Board::new();
    let mut out = Vec::new();
    b.emit_text(&units("abc"), &mut out);
    out.clear();
    b.double_backspace(&mut out);
    assert_eq!(shown(&out), vec!["Focus", "Tap(0x8)", "Tap(0x8)", "Tap(0x8)"]);
    assert_eq!(b.bksp_last_up, 0);
    out.clear();
    // with no word: Ctrl+Backspace erases the word before the caret
    b.double_backspace(&mut out);
    assert_eq!(shown(&out), vec![
        "Focus".to_string(),
        format!("Down({:#x})", VK_CONTROL),
        "Sleep(15)".to_string(),
        "Tap(0x8)".to_string(),
        "Sleep(15)".to_string(),
        format!("Up({:#x})", VK_CONTROL),
    ]);
}

#[test]
fn shortcut_macro_presses_its_modifiers_around_the_key() {
    let mut b = Board::new();
    let mut out = Vec::new();
    b.run_macro(0x3, b'S' as u32, &mut out);
    assert_eq!(shown(&out), vec![
        "Focus".to_string(),
        format!("Down({:#x})", VK_CONTROL),
        format!("Down({:#x})", VK_SHIFT),
        "Sleep(30)".to_string(),
        "Tap(0x53)".to_string(),
        "Sleep(30)".to_string(),
        format!("Up({:#x})", VK_SHIFT),
        format!("Up({:#x})", VK_CONTROL),
    ]);
}

#[test]
fn tapping_a_suggestion_completes_the_word() {
    let mut b = Board::new();
    b.pred.load_data(b"the\nthem\nthen\n", b"", b"", b"");
    let mut out = Vec::new();
    b.emit_text(&units("Th"), &mut out);
    out.clear();
    b.commit_sugg(1, &mut out);
    let typed: Vec<String> = shown(&out).into_iter().filter(|s| s.starts_with("Tap") || s.starts_with("Type")).collect();
    assert_eq!(typed, vec!["Tap(0x8)", "Tap(0x8)", "Type(Them)", "Type( )"]);
}

use floatkeys::board::TIMER_HOLD;
use floatkeys::events::Down;

fn placed_board() -> Board {
    let mut b = Board::new();
    b.build_keys();
    let w = vec![40; b.keys.len()];
    b.place_keys(720, 400, 30, &w);
    b
}

fn center(r: &floatkeys::board::Rect) -> (i32, i32) {
    ((r.left + r.right) / 2, (r.top + r.bottom) / 2)
}

#[test]
fn holding_a_letter_offers_its_alternative() {
    let mut b = placed_board();
    let qi = b.keys.iter().position(|k| k.kind == Kind::Char && k.lo == 113).unwrap();
    let (cx, cy) = center(&b.keys[qi].rc);
    let mut out = Vec::new();
    let d = b.button_down(cx, cy, 30, false, 1000, &mut out);
    assert!(matches!(d, Down::Key));
    assert_eq!(b.pending, qi as i32);
    assert!(shown(&out).contains(&"SetTimer(4,400)".to_string()));
    out.clear();
    b.on_timer(TIMER_HOLD, 720, 30, &mut out);
    assert_eq!(b.hold_popup, qi as i32);
    assert_eq!(b.pop_alt, 81);
    let (ax, ay) = center(&b.pop_rc[1]);
    b.hover(ax, ay);
    assert_eq!(b.pop_hover, 1);
    out.clear();
    b.button_up(ax, ay, false, 1500, false, &mut out);
    assert!(shown(&out).contains(&"Type(Q)".to_string()));
    assert_eq!(b.hold_popup, -1);
    assert_eq!(b.pending, -1);
}

#[test]
fn quick_tap_types_the_letter_as_a_real_key() {
    let mut b = placed_board();
    let qi = b.keys.iter().position(|k| k.kind == Kind::Char && k.lo == 113).unwrap();
    let (cx, cy) = center(&b.keys[qi].rc);
    let mut out = Vec::new();
    b.button_down(cx, cy, 30, false, 1000, &mut out);
    out.clear();
    b.button_up(cx, cy, false, 1100, false, &mut out);
    assert!(shown(&out).contains(&"Tap(0x51)".to_string()));
    assert_eq!(b.pending, -1);
}

#[test]
fn shift_caps_key_tap_and_double_tap() {
    let mut b = Board::new();
    let mut out = Vec::new();
    b.shcap_press(&mut out);
    assert_eq!(b.mods[MX_SHIFT], M_HELD);
    assert!(b.shcap_armed);
    assert!(shown(&out).contains(&format!("Down({:#x})", VK_SHIFT)));
    out.clear();
    b.shcap_press(&mut out);
    assert_eq!(b.mods[MX_SHIFT], M_OFF);
    assert!(!b.shcap_armed);
    let s = shown(&out);
    assert!(s.contains(&format!("Up({:#x})", VK_SHIFT)));
    assert!(s.contains(&"Tap(0x14)".to_string()));
}

use floatkeys::panel::PinChange;

#[test]
fn pinning_a_window_twice_unpins_it() {
    let mut b = Board::new();
    assert!(matches!(b.toggle_pin(77), PinChange::Pinned));
    assert_eq!(b.pinwins, vec![77]);
    assert!(b.cur_target_pinned(77, true));
    assert!(!b.cur_target_pinned(77, false));
    assert!(matches!(b.toggle_pin(77), PinChange::Unpinned));
    assert!(b.pinwins.is_empty());
    assert!(matches!(b.toggle_pin(0), PinChange::Unchanged));
}

#[test]
fn at_most_eight_windows_are_pinned() {
    let mut b = Board::new();
    for h in 1..=8usize {
        assert!(matches!(b.toggle_pin(h * 10), PinChange::Pinned));
    }
    assert!(matches!(b.toggle_pin(999), PinChange::Unchanged));
    assert_eq!(b.pinwins.len(), 8);
    // closed windows leave the list
    let alive = [true, false, true, true, false, true, true, true];
    assert!(b.repair_pins(&alive));
    assert_eq!(b.pinwins, vec![10, 30, 40, 60, 70, 80]);
    assert_eq!(b.unpin_all(), vec![10, 30, 40, 60, 70, 80]);
    assert!(b.pinwins.is_empty());
}

#[test]
fn tapping_the_misspelt_word_keeps_it() {
    let mut b = Board::new();
    b.pred.load_data(b"the\nthem\n", b"", b"", b"");
    let mut out = Vec::new();
    b.emit_text(&units("Teh"), &mut out);
    assert!(b.pred.is_misspelt());
    out.clear();
    b.commit_sugg(0, &mut out);
    assert_eq!(shown(&out), vec!["Focus", "Type( )"]);
    assert!(!b.pred.undo_armed());
}

#[test]
fn windows_that_lost_their_place_on_top_are_raised() {
    let mut b = Board::new();
    for h in [11usize, 22, 33, 44] {
        b.toggle_pin(h);
    }
    let raise = b.pins_to_raise(&[true, false, true, true], &[false, false, true, false]);
    assert_eq!(raise, vec![11, 44]);
}

#[test]
fn shortcut_button_labels() {
    let mut b = Board::new();
    assert_eq!(b.scut_text(0), None);
    let mut e = Shortcut::new();
    e.used = true;
    e.vk = 0x43;
    for (i, u) in "copyallnow".encode_utf16().take(9).enumerate() {
        e.name[i] = u;
    }
    b.sc[0] = e;
    assert_eq!(b.scut_text(0), Some("copyallno".encode_utf16().collect::<Vec<u16>>()));
    b.sc[0].star = true;
    assert_eq!(b.scut_text(0), Some("\u{2605}copyalln".encode_utf16().collect::<Vec<u16>>()));
}

#[test]
fn undo_brings_back_the_typed_word() {
    let mut b = Board::new();
    b.pred.load_data(b"the\nthem\n", b"", b"", b"");
    let mut out = Vec::new();
    b.emit_text(&units("Teh"), &mut out);
    b.emit_text(&units(" "), &mut out);
    assert!(b.pred.word().is_empty());
    b.emit_vk(VK_BACK, &mut out);
    assert_eq!(b.pred.word(), &"Teh".encode_utf16().collect::<Vec<u16>>());
    assert!(!b.pred.undo_armed());
}

#[test]
fn pinned_windows_stay_distinct() {
    let mut b = Board::new();
    b.toggle_pin(5);
    b.toggle_pin(6);
    b.toggle_pin(5);
    b.toggle_pin(7);
    b.toggle_pin(6);
    b.toggle_pin(5);
    assert_eq!(b.pinwins, vec![7, 5]);
}
