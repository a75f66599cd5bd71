//! Key layouts (Full, Compact letters and symbols, and the panels), which rows are shown,
//! and hit testing.
use vstd::prelude::*;
use crate::board::{
    BAR_FN, BAR_MODE, BAR_NONE, BarModel, Board, BoardModel, Key, KeyModel, Kind, MAXKEYS,
    MAXSCUT, Rect, ShortcutModel, keys_view, pt_in_rect, zero_rect_spec,
};
use crate::keys::{
    VK_APPS, VK_BACK, VK_DELETE, VK_DOWN, VK_ESCAPE, VK_LEFT, VK_NEXT, VK_PRIOR, VK_RETURN,
    VK_RIGHT, VK_SNAPSHOT, VK_TAB, VK_UP,
};
use crate::predict::sugg_row_on_m;
use crate::text::{lossy_units, lossy_units_spec, utf16_of, utf16_units, wstr_fill, zstr};

verus! {

// Settings panel actions.
pub const SET_SM: u32 = 1;
pub const SET_BG: u32 = 2;
pub const SET_OPDN: u32 = 3;
pub const SET_OPUP: u32 = 4;
pub const SET_DONE: u32 = 5;
pub const SET_LANG: u32 = 6;
pub const SET_PRED: u32 = 7;
pub const SET_AUTO: u32 = 8;
pub const SET_SPELL: u32 = 9;
pub const SET_PINWIN: u32 = 10;
pub const SET_BIGRAM: u32 = 11;
pub const SET_PINBAR: u32 = 12;

// Clipboard and shortcut page navigation.
pub const CNAV_UP: u32 = 1;
pub const CNAV_DOWN: u32 = 2;
pub const CNAV_CLEAR: u32 = 3;
pub const CNAV_BACK: u32 = 4;
pub const CNAV_PIN: u32 = 5;
pub const CNAV_SDEL: u32 = 6;
pub const CNAV_SBACK: u32 = 7;
pub const CNAV_SSTAR: u32 = 8;

/// One entry of a key table.
#[derive(Clone, Copy)]
pub struct KeyDef {
    pub label: &'static str,
    pub kind: Kind,
    pub vk: u32,
    pub m: i32,
    pub lo: u16,
    pub hi: u16,
    pub w10: u32,
    pub row: i32,
    pub tag: u16,
}

/// A freshly added key with label units `u`.
pub open spec fn key_from_units(u: Seq<u16>, k: Kind, vk: u32, m: i32, lo: u16, hi: u16, w10: u32, row: i32) -> KeyModel {
    KeyModel {
        text: wstr_fill(u, 10),
        sub: Seq::new(4, |i: int| 0u16),
        tag: 0,
        kind: k,
        vk: vk,
        mod_: m,
        lo: lo,
        hi: hi,
        w10: w10,
        row: row,
        rc: zero_rect_spec(),
    }
}

/// A layout holds at most 160 keys: a key beyond that is not added.
pub open spec fn push_key(keys: Seq<KeyModel>, k: KeyModel) -> Seq<KeyModel> {
    if keys.len() >= MAXKEYS { keys } else { keys.push(k) }
}

/// Adding a table entry: the key, then its tag set on the last key.
pub open spec fn push_def(keys: Seq<KeyModel>, d: KeyDef) -> Seq<KeyModel> {
    let k1 = push_key(keys, key_from_units(utf16_of(d.label@), d.kind, d.vk, d.m, d.lo, d.hi, d.w10, d.row));
    if d.tag != 0 && k1.len() > 0 {
        k1.update(k1.len() - 1, KeyModel { tag: d.tag, ..k1.last() })
    } else {
        k1
    }
}

/// The keys after adding the entries of a table in order.
pub open spec fn append_defs(keys: Seq<KeyModel>, defs: Seq<KeyDef>) -> Seq<KeyModel>
    decreases defs.len(),
{
    if defs.len() == 0 {
        keys
    } else {
        push_def(append_defs(keys, defs.drop_last()), defs.last())
    }
}

/// The Full layout: function row, numbers, QWERTY rows, modifiers and arrows (rows 0 to 5).
#[verifier::opaque]
pub open spec fn full_defs() -> Seq<KeyDef> {
    seq![
        KeyDef { label: "Esc", kind: Kind::Special, vk: VK_ESCAPE, m: 0, lo: 0, hi: 0, w10: 12, row: 0, tag: 0 },
        KeyDef { label: "F1", kind: Kind::Special, vk: 112, m: 0, lo: 0, hi: 0, w10: 10, row: 0, tag: 0 },
        KeyDef { label: "F2", kind: Kind::Special, vk: 113, m: 0, lo: 0, hi: 0, w10: 10, row: 0, tag: 0 },
        KeyDef { label: "F3", kind: Kind::Special, vk: 114, m: 0, lo: 0, hi: 0, w10: 10, row: 0, tag: 0 },
        KeyDef { label: "F4", kind: Kind::Special, vk: 115, m: 0, lo: 0, hi: 0, w10: 10, row: 0, tag: 0 },
        KeyDef { label: "F5", kind: Kind::Special, vk: 116, m: 0, lo: 0, hi: 0, w10: 10, row: 0, tag: 0 },
        KeyDef { label: "F6", kind: Kind::Special, vk: 117, m: 0, lo: 0, hi: 0, w10: 10, row: 0, tag: 0 },
        KeyDef { label: "F7", kind: Kind::Special, vk: 118, m: 0, lo: 0, hi: 0, w10: 10, row: 0, tag: 0 },
        KeyDef { label: "F8", kind: Kind::Special, vk: 119, m: 0, lo: 0, hi: 0, w10: 10, row: 0, tag: 0 },
        KeyDef { label: "F9", kind: Kind::Special, vk: 120, m: 0, lo: 0, hi: 0, w10: 10, row: 0, tag: 0 },
        KeyDef { label: "F10", kind: Kind::Special, vk: 121, m: 0, lo: 0, hi: 0, w10: 10, row: 0, tag: 0 },
        KeyDef { label: "F11", kind: Kind::Special, vk: 122, m: 0, lo: 0, hi: 0, w10: 10, row: 0, tag: 0 },
        KeyDef { label: "F12", kind: Kind::Special, vk: 123, m: 0, lo: 0, hi: 0, w10: 10, row: 0, tag: 0 },
        KeyDef { label: "PrtSc", kind: Kind::Special, vk: VK_SNAPSHOT, m: 0, lo: 0, hi: 0, w10: 12, row: 0, tag: 0 },
        KeyDef { label: "Del", kind: Kind::Special, vk: VK_DELETE, m: 0, lo: 0, hi: 0, w10: 12, row: 0, tag: 0 },
        KeyDef { label: "`", kind: Kind::Char, vk: 0, m: 0, lo: 96, hi: 126, w10: 10, row: 1, tag: 0 },
        KeyDef { label: "1", kind: Kind::Char, vk: 0, m: 0, lo: 49, hi: 33, w10: 10, row: 1, tag: 0 },
        KeyDef { label: "2", kind: Kind::Char, vk: 0, m: 0, lo: 50, hi: 64, w10: 10, row: 1, tag: 0 },
        KeyDef { label: "3", kind: Kind::Char, vk: 0, m: 0, lo: 51, hi: 35, w10: 10, row: 1, tag: 0 },
        KeyDef { label: "4", kind: Kind::Char, vk: 0, m: 0, lo: 52, hi: 36, w10: 10, row: 1, tag: 0 },
        KeyDef { label: "5", kind: Kind::Char, vk: 0, m: 0, lo: 53, hi: 37, w10: 10, row: 1, tag: 0 },
        KeyDef { label: "6", kind: Kind::Char, vk: 0, m: 0, lo: 54, hi: 94, w10: 10, row: 1, tag: 0 },
        KeyDef { label: "7", kind: Kind::Char, vk: 0, m: 0, lo: 55, hi: 38, w10: 10, row: 1, tag: 0 },
        KeyDef { label: "8", kind: Kind::Char, vk: 0, m: 0, lo: 56, hi: 42, w10: 10, row: 1, tag: 0 },
        KeyDef { label: "9", kind: Kind::Char, vk: 0, m: 0, lo: 57, hi: 40, w10: 10, row: 1, tag: 0 },
        KeyDef { label: "0", kind: Kind::Char, vk: 0, m: 0, lo: 48, hi: 41, w10: 10, row: 1, tag: 0 },
        KeyDef { label: "-", kind: Kind::Char, vk: 0, m: 0, lo: 45, hi: 95, w10: 10, row: 1, tag: 0 },
        KeyDef { label: "=", kind: Kind::Char, vk: 0, m: 0, lo: 61, hi: 43, w10: 10, row: 1, tag: 0 },
        KeyDef { label: "Back", kind: Kind::Special, vk: VK_BACK, m: 0, lo: 0, hi: 0, w10: 20, row: 1, tag: 0 },
        KeyDef { label: "Tab", kind: Kind::Special, vk: VK_TAB, m: 0, lo: 0, hi: 0, w10: 16, row: 2, tag: 0 },
        KeyDef { label: "Q", kind: Kind::Char, vk: 0, m: 0, lo: 113, hi: 81, w10: 10, row: 2, tag: 0 },
        KeyDef { label: "W", kind: Kind::Char, vk: 0, m: 0, lo: 119, hi: 87, w10: 10, row: 2, tag: 0 },
        KeyDef { label: "E", kind: Kind::Char, vk: 0, m: 0, lo: 101, hi: 69, w10: 10, row: 2, tag: 0 },
        KeyDef { label: "R", kind: Kind::Char, vk: 0, m: 0, lo: 114, hi: 82, w10: 10, row: 2, tag: 0 },
        KeyDef { label: "T", kind: Kind::Char, vk: 0, m: 0, lo: 116, hi: 84, w10: 10, row: 2, tag: 0 },
        KeyDef { label: "Y", kind: Kind::Char, vk: 0, m: 0, lo: 121, hi: 89, w10: 10, row: 2, tag: 0 },
        KeyDef { label: "U", kind: Kind::Char, vk: 0, m: 0, lo: 117, hi: 85, w10: 10, row: 2, tag: 0 },
        KeyDef { label: "I", kind: Kind::Char, vk: 0, m: 0, lo: 105, hi: 73, w10: 10, row: 2, tag: 0 },
        KeyDef { label: "O", kind: Kind::Char, vk: 0, m: 0, lo: 111, hi: 79, w10: 10, row: 2, tag: 0 },
        KeyDef { label: "P", kind: Kind::Char, vk: 0, m: 0, lo: 112, hi: 80, w10: 10, row: 2, tag: 0 },
        KeyDef { label: "[", kind: Kind::Char, vk: 0, m: 0, lo: 91, hi: 123, w10: 10, row: 2, tag: 0 },
        KeyDef { label: "]", kind: Kind::Char, vk: 0, m: 0, lo: 93, hi: 125, w10: 10, row: 2, tag: 0 },
        KeyDef { label: "\\", kind: Kind::Char, vk: 0, m: 0, lo: 92, hi: 124, w10: 15, row: 2, tag: 0 },
        KeyDef { label: "Caps", kind: Kind::Caps, vk: 0, m: 0, lo: 0, hi: 0, w10: 18, row: 3, tag: 0 },
        KeyDef { label: "A", kind: Kind::Char, vk: 0, m: 0, lo: 97, hi: 65, w10: 10, row: 3, tag: 0 },
        KeyDef { label: "S", kind: Kind::Char, vk: 0, m: 0, lo: 115, hi: 83, w10: 10, row: 3, tag: 0 },
        KeyDef { label: "D", kind: Kind::Char, vk: 0, m: 0, lo: 100, hi: 68, w10: 10, row: 3, tag: 0 },
        KeyDef { label: "F", kind: Kind::Char, vk: 0, m: 0, lo: 102, hi: 70, w10: 10, row: 3, tag: 0 },
        KeyDef { label: "G", kind: Kind::Char, vk: 0, m: 0, lo: 103, hi: 71, w10: 10, row: 3, tag: 0 },
        KeyDef { label: "H", kind: Kind::Char, vk: 0, m: 0, lo: 104, hi: 72, w10: 10, row: 3, tag: 0 },
        KeyDef { label: "J", kind: Kind::Char, vk: 0, m: 0, lo: 106, hi: 74, w10: 10, row: 3, tag: 0 },
        KeyDef { label: "K", kind: Kind::Char, vk: 0, m: 0, lo: 107, hi: 75, w10: 10, row: 3, tag: 0 },
        KeyDef { label: "L", kind: Kind::Char, vk: 0, m: 0, lo: 108, hi: 76, w10: 10, row: 3, tag: 0 },
        KeyDef { label: ";", kind: Kind::Char, vk: 0, m: 0, lo: 59, hi: 58, w10: 10, row: 3, tag: 0 },
        KeyDef { label: "'", kind: Kind::Char, vk: 0, m: 0, lo: 39, hi: 34, w10: 10, row: 3, tag: 0 },
        KeyDef { label: "Enter", kind: Kind::Special, vk: VK_RETURN, m: 0, lo: 0, hi: 0, w10: 22, row: 3, tag: 0 },
        KeyDef { label: "Shift", kind: Kind::Mod, vk: 0, m: 0, lo: 0, hi: 0, w10: 22, row: 4, tag: 0 },
        KeyDef { label: "Z", kind: Kind::Char, vk: 0, m: 0, lo: 122, hi: 90, w10: 10, row: 4, tag: 0 },
        KeyDef { label: "X", kind: Kind::Char, vk: 0, m: 0, lo: 120, hi: 88, w10: 10, row: 4, tag: 0 },
        KeyDef { label: "C", kind: Kind::Char, vk: 0, m: 0, lo: 99, hi: 67, w10: 10, row: 4, tag: 0 },
        KeyDef { label: "V", kind: Kind::Char, vk: 0, m: 0, lo: 118, hi: 86, w10: 10, row: 4, tag: 0 },
        KeyDef { label: "B", kind: Kind::Char, vk: 0, m: 0, lo: 98, hi: 66, w10: 10, row: 4, tag: 0 },
        KeyDef { label: "N", kind: Kind::Char, vk: 0, m: 0, lo: 110, hi: 78, w10: 10, row: 4, tag: 0 },
        KeyDef { label: "M", kind: Kind::Char, vk: 0, m: 0, lo: 109, hi: 77, w10: 10, row: 4, tag: 0 },
        KeyDef { label: ",", kind: Kind::Char, vk: 0, m: 0, lo: 44, hi: 60, w10: 10, row: 4, tag: 0 },
        KeyDef { label: ".", kind: Kind::Char, vk: 0, m: 0, lo: 46, hi: 62, w10: 10, row: 4, tag: 0 },
        KeyDef { label: "/", kind: Kind::Char, vk: 0, m: 0, lo: 47, hi: 63, w10: 10, row: 4, tag: 0 },
        KeyDef { label: "Shift", kind: Kind::Mod, vk: 0, m: 0, lo: 0, hi: 0, w10: 22, row: 4, tag: 0 },
        KeyDef { label: "\u{25B2}", kind: Kind::Special, vk: VK_UP, m: 0, lo: 0, hi: 0, w10: 10, row: 4, tag: 0 },
        KeyDef { label: "Ctrl", kind: Kind::Mod, vk: 0, m: 1, lo: 0, hi: 0, w10: 15, row: 5, tag: 0 },
        KeyDef { label: "Win", kind: Kind::Mod, vk: 0, m: 3, lo: 0, hi: 0, w10: 15, row: 5, tag: 0 },
        KeyDef { label: "Alt", kind: Kind::Mod, vk: 0, m: 2, lo: 0, hi: 0, w10: 15, row: 5, tag: 0 },
        KeyDef { label: "Space", kind: Kind::Space, vk: 0, m: 0, lo: 0, hi: 0, w10: 60, row: 5, tag: 0 },
        KeyDef { label: "Alt", kind: Kind::Mod, vk: 0, m: 2, lo: 0, hi: 0, w10: 13, row: 5, tag: 0 },
        KeyDef { label: "\u{2630}", kind: Kind::Special, vk: VK_APPS, m: 0, lo: 0, hi: 0, w10: 13, row: 5, tag: 0 },
        KeyDef { label: "Ctrl", kind: Kind::Mod, vk: 0, m: 1, lo: 0, hi: 0, w10: 13, row: 5, tag: 0 },
        KeyDef { label: "PgUp", kind: Kind::Special, vk: VK_PRIOR, m: 0, lo: 0, hi: 0, w10: 12, row: 5, tag: 0 },
        KeyDef { label: "PgDn", kind: Kind::Special, vk: VK_NEXT, m: 0, lo: 0, hi: 0, w10: 12, row: 5, tag: 0 },
        KeyDef { label: "\u{25C0}", kind: Kind::Special, vk: VK_LEFT, m: 0, lo: 0, hi: 0, w10: 10, row: 5, tag: 0 },
        KeyDef { label: "\u{25BC}", kind: Kind::Special, vk: VK_DOWN, m: 0, lo: 0, hi: 0, w10: 10, row: 5, tag: 0 },
        KeyDef { label: "\u{25B6}", kind: Kind::Special, vk: VK_RIGHT, m: 0, lo: 0, hi: 0, w10: 10, row: 5, tag: 0 },
    ]
}

fn full_table() -> (t: [KeyDef; 81])
    ensures
        t@ == full_defs(),
{
    let t: [KeyDef; 81] = [
        KeyDef { label: "Esc", kind: Kind::Special, vk: VK_ESCAPE, m: 0, lo: 0, hi: 0, w10: 12, row: 0, tag: 0 },
        KeyDef { label: "F1", kind: Kind::Special, vk: 112, m: 0, lo: 0, hi: 0, w10: 10, row: 0, tag: 0 },
        KeyDef { label: "F2", kind: Kind::Special, vk: 113, m: 0, lo: 0, hi: 0, w10: 10, row: 0, tag: 0 },
        KeyDef { label: "F3", kind: Kind::Special, vk: 114, m: 0, lo: 0, hi: 0, w10: 10, row: 0, tag: 0 },
        KeyDef { label: "F4", kind: Kind::Special, vk: 115, m: 0, lo: 0, hi: 0, w10: 10, row: 0, tag: 0 },
        KeyDef { label: "F5", kind: Kind::Special, vk: 116, m: 0, lo: 0, hi: 0, w10: 10, row: 0, tag: 0 },
        KeyDef { label: "F6", kind: Kind::Special, vk: 117, m: 0, lo: 0, hi: 0, w10: 10, row: 0, tag: 0 },
        KeyDef { label: "F7", kind: Kind::Special, vk: 118, m: 0, lo: 0, hi: 0, w10: 10, row: 0, tag: 0 },
        KeyDef { label: "F8", kind: Kind::Special, vk: 119, m: 0, lo: 0, hi: 0, w10: 10, row: 0, tag: 0 },
        KeyDef { label: "F9", kind: Kind::Special, vk: 120, m: 0, lo: 0, hi: 0, w10: 10, row: 0, tag: 0 },
        KeyDef { label: "F10", kind: Kind::Special, vk: 121, m: 0, lo: 0, hi: 0, w10: 10, row: 0, tag: 0 },
        KeyDef { label: "F11", kind: Kind::Special, vk: 122, m: 0, lo: 0, hi: 0, w10: 10, row: 0, tag: 0 },
        KeyDef { label: "F12", kind: Kind::Special, vk: 123, m: 0, lo: 0, hi: 0, w10: 10, row: 0, tag: 0 },
        KeyDef { label: "PrtSc", kind: Kind::Special, vk: VK_SNAPSHOT, m: 0, lo: 0, hi: 0, w10: 12, row: 0, tag: 0 },
        KeyDef { label: "Del", kind: Kind::Special, vk: VK_DELETE, m: 0, lo: 0, hi: 0, w10: 12, row: 0, tag: 0 },
        KeyDef { label: "`", kind: Kind::Char, vk: 0, m: 0, lo: 96, hi: 126, w10: 10, row: 1, tag: 0 },
        KeyDef { label: "1", kind: Kind::Char, vk: 0, m: 0, lo: 49, hi: 33, w10: 10, row: 1, tag: 0 },
        KeyDef { label: "2", kind: Kind::Char, vk: 0, m: 0, lo: 50, hi: 64, w10: 10, row: 1, tag: 0 },
        KeyDef { label: "3", kind: Kind::Char, vk: 0, m: 0, lo: 51, hi: 35, w10: 10, row: 1, tag: 0 },
        KeyDef { label: "4", kind: Kind::Char, vk: 0, m: 0, lo: 52, hi: 36, w10: 10, row: 1, tag: 0 },
        KeyDef { label: "5", kind: Kind::Char, vk: 0, m: 0, lo: 53, hi: 37, w10: 10, row: 1, tag: 0 },
        KeyDef { label: "6", kind: Kind::Char, vk: 0, m: 0, lo: 54, hi: 94, w10: 10, row: 1, tag: 0 },
        KeyDef { label: "7", kind: Kind::Char, vk: 0, m: 0, lo: 55, hi: 38, w10: 10, row: 1, tag: 0 },
        KeyDef { label: "8", kind: Kind::Char, vk: 0, m: 0, lo: 56, hi: 42, w10: 10, row: 1, tag: 0 },
        KeyDef { label: "9", kind: Kind::Char, vk: 0, m: 0, lo: 57, hi: 40, w10: 10, row: 1, tag: 0 },
        KeyDef { label: "0", kind: Kind::Char, vk: 0, m: 0, lo: 48, hi: 41, w10: 10, row: 1, tag: 0 },
        KeyDef { label: "-", kind: Kind::Char, vk: 0, m: 0, lo: 45, hi: 95, w10: 10, row: 1, tag: 0 },
        KeyDef { label: "=", kind: Kind::Char, vk: 0, m: 0, lo: 61, hi: 43, w10: 10, row: 1, tag: 0 },
        KeyDef { label: "Back", kind: Kind::Special, vk: VK_BACK, m: 0, lo: 0, hi: 0, w10: 20, row: 1, tag: 0 },
        KeyDef { label: "Tab", kind: Kind::Special, vk: VK_TAB, m: 0, lo: 0, hi: 0, w10: 16, row: 2, tag: 0 },
        KeyDef { label: "Q", kind: Kind::Char, vk: 0, m: 0, lo: 113, hi: 81, w10: 10, row: 2, tag: 0 },
        KeyDef { label: "W", kind: Kind::Char, vk: 0, m: 0, lo: 119, hi: 87, w10: 10, row: 2, tag: 0 },
        KeyDef { label: "E", kind: Kind::Char, vk: 0, m: 0, lo: 101, hi: 69, w10: 10, row: 2, tag: 0 },
        KeyDef { label: "R", kind: Kind::Char, vk: 0, m: 0, lo: 114, hi: 82, w10: 10, row: 2, tag: 0 },
        KeyDef { label: "T", kind: Kind::Char, vk: 0, m: 0, lo: 116, hi: 84, w10: 10, row: 2, tag: 0 },
        KeyDef { label: "Y", kind: Kind::Char, vk: 0, m: 0, lo: 121, hi: 89, w10: 10, row: 2, tag: 0 },
        KeyDef { label: "U", kind: Kind::Char, vk: 0, m: 0, lo: 117, hi: 85, w10: 10, row: 2, tag: 0 },
        KeyDef { label: "I", kind: Kind::Char, vk: 0, m: 0, lo: 105, hi: 73, w10: 10, row: 2, tag: 0 },
        KeyDef { label: "O", kind: Kind::Char, vk: 0, m: 0, lo: 111, hi: 79, w10: 10, row: 2, tag: 0 },
        KeyDef { label: "P", kind: Kind::Char, vk: 0, m: 0, lo: 112, hi: 80, w10: 10, row: 2, tag: 0 },
        KeyDef { label: "[", kind: Kind::Char, vk: 0, m: 0, lo: 91, hi: 123, w10: 10, row: 2, tag: 0 },
        KeyDef { label: "]", kind: Kind::Char, vk: 0, m: 0, lo: 93, hi: 125, w10: 10, row: 2, tag: 0 },
        KeyDef { label: "\\", kind: Kind::Char, vk: 0, m: 0, lo: 92, hi: 124, w10: 15, row: 2, tag: 0 },
        KeyDef { label: "Caps", kind: Kind::Caps, vk: 0, m: 0, lo: 0, hi: 0, w10: 18, row: 3, tag: 0 },
        KeyDef { label: "A", kind: Kind::Char, vk: 0, m: 0, lo: 97, hi: 65, w10: 10, row: 3, tag: 0 },
        KeyDef { label: "S", kind: Kind::Char, vk: 0, m: 0, lo: 115, hi: 83, w10: 10, row: 3, tag: 0 },
        KeyDef { label: "D", kind: Kind::Char, vk: 0, m: 0, lo: 100, hi: 68, w10: 10, row: 3, tag: 0 },
        KeyDef { label: "F", kind: Kind::Char, vk: 0, m: 0, lo: 102, hi: 70, w10: 10, row: 3, tag: 0 },
        KeyDef { label: "G", kind: Kind::Char, vk: 0, m: 0, lo: 103, hi: 71, w10: 10, row: 3, tag: 0 },
        KeyDef { label: "H", kind: Kind::Char, vk: 0, m: 0, lo: 104, hi: 72, w10: 10, row: 3, tag: 0 },
        KeyDef { label: "J", kind: Kind::Char, vk: 0, m: 0, lo: 106, hi: 74, w10: 10, row: 3, tag: 0 },
        KeyDef { label: "K", kind: Kind::Char, vk: 0, m: 0, lo: 107, hi: 75, w10: 10, row: 3, tag: 0 },
        KeyDef { label: "L", kind: Kind::Char, vk: 0, m: 0, lo: 108, hi: 76, w10: 10, row: 3, tag: 0 },
        KeyDef { label: ";", kind: Kind::Char, vk: 0, m: 0, lo: 59, hi: 58, w10: 10, row: 3, tag: 0 },
        KeyDef { label: "'", kind: Kind::Char, vk: 0, m: 0, lo: 39, hi: 34, w10: 10, row: 3, tag: 0 },
        KeyDef { label: "Enter", kind: Kind::Special, vk: VK_RETURN, m: 0, lo: 0, hi: 0, w10: 22, row: 3, tag: 0 },
        KeyDef { label: "Shift", kind: Kind::Mod, vk: 0, m: 0, lo: 0, hi: 0, w10: 22, row: 4, tag: 0 },
        KeyDef { label: "Z", kind: Kind::Char, vk: 0, m: 0, lo: 122, hi: 90, w10: 10, row: 4, tag: 0 },
        KeyDef { label: "X", kind: Kind::Char, vk: 0, m: 0, lo: 120, hi: 88, w10: 10, row: 4, tag: 0 },
        KeyDef { label: "C", kind: Kind::Char, vk: 0, m: 0, lo: 99, hi: 67, w10: 10, row: 4, tag: 0 },
        KeyDef { label: "V", kind: Kind::Char, vk: 0, m: 0, lo: 118, hi: 86, w10: 10, row: 4, tag: 0 },
        KeyDef { label: "B", kind: Kind::Char, vk: 0, m: 0, lo: 98, hi: 66, w10: 10, row: 4, tag: 0 },
        KeyDef { label: "N", kind: Kind::Char, vk: 0, m: 0, lo: 110, hi: 78, w10: 10, row: 4, tag: 0 },
        KeyDef { label: "M", kind: Kind::Char, vk: 0, m: 0, lo: 109, hi: 77, w10: 10, row: 4, tag: 0 },
        KeyDef { label: ",", kind: Kind::Char, vk: 0, m: 0, lo: 44, hi: 60, w10: 10, row: 4, tag: 0 },
        KeyDef { label: ".", kind: Kind::Char, vk: 0, m: 0, lo: 46, hi: 62, w10: 10, row: 4, tag: 0 },
        KeyDef { label: "/", kind: Kind::Char, vk: 0, m: 0, lo: 47, hi: 63, w10: 10, row: 4, tag: 0 },
        KeyDef { label: "Shift", kind: Kind::Mod, vk: 0, m: 0, lo: 0, hi: 0, w10: 22, row: 4, tag: 0 },
        KeyDef { label: "\u{25B2}", kind: Kind::Special, vk: VK_UP, m: 0, lo: 0, hi: 0, w10: 10, row: 4, tag: 0 },
        KeyDef { label: "Ctrl", kind: Kind::Mod, vk: 0, m: 1, lo: 0, hi: 0, w10: 15, row: 5, tag: 0 },
        KeyDef { label: "Win", kind: Kind::Mod, vk: 0, m: 3, lo: 0, hi: 0, w10: 15, row: 5, tag: 0 },
        KeyDef { label: "Alt", kind: Kind::Mod, vk: 0, m: 2, lo: 0, hi: 0, w10: 15, row: 5, tag: 0 },
        KeyDef { label: "Space", kind: Kind::Space, vk: 0, m: 0, lo: 0, hi: 0, w10: 60, row: 5, tag: 0 },
        KeyDef { label: "Alt", kind: Kind::Mod, vk: 0, m: 2, lo: 0, hi: 0, w10: 13, row: 5, tag: 0 },
        KeyDef { label: "\u{2630}", kind: Kind::Special, vk: VK_APPS, m: 0, lo: 0, hi: 0, w10: 13, row: 5, tag: 0 },
        KeyDef { label: "Ctrl", kind: Kind::Mod, vk: 0, m: 1, lo: 0, hi: 0, w10: 13, row: 5, tag: 0 },
        KeyDef { label: "PgUp", kind: Kind::Special, vk: VK_PRIOR, m: 0, lo: 0, hi: 0, w10: 12, row: 5, tag: 0 },
        KeyDef { label: "PgDn", kind: Kind::Special, vk: VK_NEXT, m: 0, lo: 0, hi: 0, w10: 12, row: 5, tag: 0 },
        KeyDef { label: "\u{25C0}", kind: Kind::Special, vk: VK_LEFT, m: 0, lo: 0, hi: 0, w10: 10, row: 5, tag: 0 },
        KeyDef { label: "\u{25BC}", kind: Kind::Special, vk: VK_DOWN, m: 0, lo: 0, hi: 0, w10: 10, row: 5, tag: 0 },
        KeyDef { label: "\u{25B6}", kind: Kind::Special, vk: VK_RIGHT, m: 0, lo: 0, hi: 0, w10: 10, row: 5, tag: 0 },
    ];
    assert(t@ =~= full_defs()) by {
        reveal(full_defs);
    }
    t
}

/// The letters page of the Compact layout (rows 0 to 3); letter keys carry a digit hint.
#[verifier::opaque]
pub open spec fn compact_abc_defs() -> Seq<KeyDef> {
    seq![
        KeyDef { label: "Esc", kind: Kind::Special, vk: VK_ESCAPE, m: 0, lo: 0, hi: 0, w10: 12, row: 0, tag: 0 },
        KeyDef { label: "Q", kind: Kind::Char, vk: 0, m: 0, lo: 113, hi: 81, w10: 10, row: 0, tag: 49 },
        KeyDef { label: "W", kind: Kind::Char, vk: 0, m: 0, lo: 119, hi: 87, w10: 10, row: 0, tag: 50 },
        KeyDef { label: "E", kind: Kind::Char, vk: 0, m: 0, lo: 101, hi: 69, w10: 10, row: 0, tag: 51 },
        KeyDef { label: "R", kind: Kind::Char, vk: 0, m: 0, lo: 114, hi: 82, w10: 10, row: 0, tag: 52 },
        KeyDef { label: "T", kind: Kind::Char, vk: 0, m: 0, lo: 116, hi: 84, w10: 10, row: 0, tag: 53 },
        KeyDef { label: "Y", kind: Kind::Char, vk: 0, m: 0, lo: 121, hi: 89, w10: 10, row: 0, tag: 54 },
        KeyDef { label: "U", kind: Kind::Char, vk: 0, m: 0, lo: 117, hi: 85, w10: 10, row: 0, tag: 55 },
        KeyDef { label: "I", kind: Kind::Char, vk: 0, m: 0, lo: 105, hi: 73, w10: 10, row: 0, tag: 56 },
        KeyDef { label: "O", kind: Kind::Char, vk: 0, m: 0, lo: 111, hi: 79, w10: 10, row: 0, tag: 57 },
        KeyDef { label: "P", kind: Kind::Char, vk: 0, m: 0, lo: 112, hi: 80, w10: 10, row: 0, tag: 48 },
        KeyDef { label: "\u{232B}", kind: Kind::Special, vk: VK_BACK, m: 0, lo: 0, hi: 0, w10: 16, row: 0, tag: 0 },
        KeyDef { label: "\u{21E5}", kind: Kind::Special, vk: VK_TAB, m: 0, lo: 0, hi: 0, w10: 14, row: 1, tag: 0 },
        KeyDef { label: "A", kind: Kind::Char, vk: 0, m: 0, lo: 97, hi: 65, w10: 10, row: 1, tag: 0 },
        KeyDef { label: "S", kind: Kind::Char, vk: 0, m: 0, lo: 115, hi: 83, w10: 10, row: 1, tag: 0 },
        KeyDef { label: "D", kind: Kind::Char, vk: 0, m: 0, lo: 100, hi: 68, w10: 10, row: 1, tag: 0 },
        KeyDef { label: "F", kind: Kind::Char, vk: 0, m: 0, lo: 102, hi: 70, w10: 10, row: 1, tag: 0 },
        KeyDef { label: "G", kind: Kind::Char, vk: 0, m: 0, lo: 103, hi: 71, w10: 10, row: 1, tag: 0 },
        KeyDef { label: "H", kind: Kind::Char, vk: 0, m: 0, lo: 104, hi: 72, w10: 10, row: 1, tag: 0 },
        KeyDef { label: "J", kind: Kind::Char, vk: 0, m: 0, lo: 106, hi: 74, w10: 10, row: 1, tag: 0 },
        KeyDef { label: "K", kind: Kind::Char, vk: 0, m: 0, lo: 107, hi: 75, w10: 10, row: 1, tag: 0 },
        KeyDef { label: "L", kind: Kind::Char, vk: 0, m: 0, lo: 108, hi: 76, w10: 10, row: 1, tag: 0 },
        KeyDef { label: "\u{23CE}", kind: Kind::Special, vk: VK_RETURN, m: 0, lo: 0, hi: 0, w10: 18, row: 1, tag: 0 },
        KeyDef { label: "\u{21EA}", kind: Kind::Shcap, vk: 0, m: 0, lo: 0, hi: 0, w10: 20, row: 2, tag: 0 },
        KeyDef { label: "Z", kind: Kind::Char, vk: 0, m: 0, lo: 122, hi: 90, w10: 10, row: 2, tag: 0 },
        KeyDef { label: "X", kind: Kind::Char, vk: 0, m: 0, lo: 120, hi: 88, w10: 10, row: 2, tag: 0 },
        KeyDef { label: "C", kind: Kind::Char, vk: 0, m: 0, lo: 99, hi: 67, w10: 10, row: 2, tag: 0 },
        KeyDef { label: "V", kind: Kind::Char, vk: 0, m: 0, lo: 118, hi: 86, w10: 10, row: 2, tag: 0 },
        KeyDef { label: "B", kind: Kind::Char, vk: 0, m: 0, lo: 98, hi: 66, w10: 10, row: 2, tag: 0 },
        KeyDef { label: "N", kind: Kind::Char, vk: 0, m: 0, lo: 110, hi: 78, w10: 10, row: 2, tag: 0 },
        KeyDef { label: "M", kind: Kind::Char, vk: 0, m: 0, lo: 109, hi: 77, w10: 10, row: 2, tag: 0 },
        KeyDef { label: ",", kind: Kind::Char, vk: 0, m: 0, lo: 44, hi: 60, w10: 10, row: 2, tag: 0 },
        KeyDef { label: ".", kind: Kind::Char, vk: 0, m: 0, lo: 46, hi: 62, w10: 10, row: 2, tag: 0 },
        KeyDef { label: "/", kind: Kind::Char, vk: 0, m: 0, lo: 47, hi: 63, w10: 10, row: 2, tag: 0 },
        KeyDef { label: "\u{25B2}", kind: Kind::Special, vk: VK_UP, m: 0, lo: 0, hi: 0, w10: 10, row: 2, tag: 0 },
        KeyDef { label: "Ctrl", kind: Kind::Mod, vk: 0, m: 1, lo: 0, hi: 0, w10: 12, row: 3, tag: 0 },
        KeyDef { label: "Win", kind: Kind::Mod, vk: 0, m: 3, lo: 0, hi: 0, w10: 12, row: 3, tag: 0 },
        KeyDef { label: "Alt", kind: Kind::Mod, vk: 0, m: 2, lo: 0, hi: 0, w10: 12, row: 3, tag: 0 },
        KeyDef { label: "&123", kind: Kind::Page, vk: 1, m: 0, lo: 0, hi: 0, w10: 14, row: 3, tag: 0 },
        KeyDef { label: "Space", kind: Kind::Space, vk: 0, m: 0, lo: 0, hi: 0, w10: 40, row: 3, tag: 0 },
        KeyDef { label: "Del", kind: Kind::Special, vk: VK_DELETE, m: 0, lo: 0, hi: 0, w10: 12, row: 3, tag: 0 },
        KeyDef { label: "PgUp", kind: Kind::Special, vk: VK_PRIOR, m: 0, lo: 0, hi: 0, w10: 10, row: 3, tag: 0 },
        KeyDef { label: "PgDn", kind: Kind::Special, vk: VK_NEXT, m: 0, lo: 0, hi: 0, w10: 10, row: 3, tag: 0 },
        KeyDef { label: "\u{25C0}", kind: Kind::Special, vk: VK_LEFT, m: 0, lo: 0, hi: 0, w10: 10, row: 3, tag: 0 },
        KeyDef { label: "\u{25BC}", kind: Kind::Special, vk: VK_DOWN, m: 0, lo: 0, hi: 0, w10: 10, row: 3, tag: 0 },
        KeyDef { label: "\u{25B6}", kind: Kind::Special, vk: VK_RIGHT, m: 0, lo: 0, hi: 0, w10: 10, row: 3, tag: 0 },
    ]
}

fn compact_abc_table() -> (t: [KeyDef; 46])
    ensures
        t@ == compact_abc_defs(),
{
    let t: [KeyDef; 46] = [
        KeyDef { label: "Esc", kind: Kind::Special, vk: VK_ESCAPE, m: 0, lo: 0, hi: 0, w10: 12, row: 0, tag: 0 },
        KeyDef { label: "Q", kind: Kind::Char, vk: 0, m: 0, lo: 113, hi: 81, w10: 10, row: 0, tag: 49 },
        KeyDef { label: "W", kind: Kind::Char, vk: 0, m: 0, lo: 119, hi: 87, w10: 10, row: 0, tag: 50 },
        KeyDef { label: "E", kind: Kind::Char, vk: 0, m: 0, lo: 101, hi: 69, w10: 10, row: 0, tag: 51 },
        KeyDef { label: "R", kind: Kind::Char, vk: 0, m: 0, lo: 114, hi: 82, w10: 10, row: 0, tag: 52 },
        KeyDef { label: "T", kind: Kind::Char, vk: 0, m: 0, lo: 116, hi: 84, w10: 10, row: 0, tag: 53 },
        KeyDef { label: "Y", kind: Kind::Char, vk: 0, m: 0, lo: 121, hi: 89, w10: 10, row: 0, tag: 54 },
        KeyDef { label: "U", kind: Kind::Char, vk: 0, m: 0, lo: 117, hi: 85, w10: 10, row: 0, tag: 55 },
        KeyDef { label: "I", kind: Kind::Char, vk: 0, m: 0, lo: 105, hi: 73, w10: 10, row: 0, tag: 56 },
        KeyDef { label: "O", kind: Kind::Char, vk: 0, m: 0, lo: 111, hi: 79, w10: 10, row: 0, tag: 57 },
        KeyDef { label: "P", kind: Kind::Char, vk: 0, m: 0, lo: 112, hi: 80, w10: 10, row: 0, tag: 48 },
        KeyDef { label: "\u{232B}", kind: Kind::Special, vk: VK_BACK, m: 0, lo: 0, hi: 0, w10: 16, row: 0, tag: 0 },
        KeyDef { label: "\u{21E5}", kind: Kind::Special, vk: VK_TAB, m: 0, lo: 0, hi: 0, w10: 14, row: 1, tag: 0 },
        KeyDef { label: "A", kind: Kind::Char, vk: 0, m: 0, lo: 97, hi: 65, w10: 10, row: 1, tag: 0 },
        KeyDef { label: "S", kind: Kind::Char, vk: 0, m: 0, lo: 115, hi: 83, w10: 10, row: 1, tag: 0 },
        KeyDef { label: "D", kind: Kind::Char, vk: 0, m: 0, lo: 100, hi: 68, w10: 10, row: 1, tag: 0 },
        KeyDef { label: "F", kind: Kind::Char, vk: 0, m: 0, lo: 102, hi: 70, w10: 10, row: 1, tag: 0 },
        KeyDef { label: "G", kind: Kind::Char, vk: 0, m: 0, lo: 103, hi: 71, w10: 10, row: 1, tag: 0 },
        KeyDef { label: "H", kind: Kind::Char, vk: 0, m: 0, lo: 104, hi: 72, w10: 10, row: 1, tag: 0 },
        KeyDef { label: "J", kind: Kind::Char, vk: 0, m: 0, lo: 106, hi: 74, w10: 10, row: 1, tag: 0 },
        KeyDef { label: "K", kind: Kind::Char, vk: 0, m: 0, lo: 107, hi: 75, w10: 10, row: 1, tag: 0 },
        KeyDef { label: "L", kind: Kind::Char, vk: 0, m: 0, lo: 108, hi: 76, w10: 10, row: 1, tag: 0 },
        KeyDef { label: "\u{23CE}", kind: Kind::Special, vk: VK_RETURN, m: 0, lo: 0, hi: 0, w10: 18, row: 1, tag: 0 },
        KeyDef { label: "\u{21EA}", kind: Kind::Shcap, vk: 0, m: 0, lo: 0, hi: 0, w10: 20, row: 2, tag: 0 },
        KeyDef { label: "Z", kind: Kind::Char, vk: 0, m: 0, lo: 122, hi: 90, w10: 10, row: 2, tag: 0 },
        KeyDef { label: "X", kind: Kind::Char, vk: 0, m: 0, lo: 120, hi: 88, w10: 10, row: 2, tag: 0 },
        KeyDef { label: "C", kind: Kind::Char, vk: 0, m: 0, lo: 99, hi: 67, w10: 10, row: 2, tag: 0 },
        KeyDef { label: "V", kind: Kind::Char, vk: 0, m: 0, lo: 118, hi: 86, w10: 10, row: 2, tag: 0 },
        KeyDef { label: "B", kind: Kind::Char, vk: 0, m: 0, lo: 98, hi: 66, w10: 10, row: 2, tag: 0 },
        KeyDef { label: "N", kind: Kind::Char, vk: 0, m: 0, lo: 110, hi: 78, w10: 10, row: 2, tag: 0 },
        KeyDef { label: "M", kind: Kind::Char, vk: 0, m: 0, lo: 109, hi: 77, w10: 10, row: 2, tag: 0 },
        KeyDef { label: ",", kind: Kind::Char, vk: 0, m: 0, lo: 44, hi: 60, w10: 10, row: 2, tag: 0 },
        KeyDef { label: ".", kind: Kind::Char, vk: 0, m: 0, lo: 46, hi: 62, w10: 10, row: 2, tag: 0 },
        KeyDef { label: "/", kind: Kind::Char, vk: 0, m: 0, lo: 47, hi: 63, w10: 10, row: 2, tag: 0 },
        KeyDef { label: "\u{25B2}", kind: Kind::Special, vk: VK_UP, m: 0, lo: 0, hi: 0, w10: 10, row: 2, tag: 0 },
        KeyDef { label: "Ctrl", kind: Kind::Mod, vk: 0, m: 1, lo: 0, hi: 0, w10: 12, row: 3, tag: 0 },
        KeyDef { label: "Win", kind: Kind::Mod, vk: 0, m: 3, lo: 0, hi: 0, w10: 12, row: 3, tag: 0 },
        KeyDef { label: "Alt", kind: Kind::Mod, vk: 0, m: 2, lo: 0, hi: 0, w10: 12, row: 3, tag: 0 },
        KeyDef { label: "&123", kind: Kind::Page, vk: 1, m: 0, lo: 0, hi: 0, w10: 14, row: 3, tag: 0 },
        KeyDef { label: "Space", kind: Kind::Space, vk: 0, m: 0, lo: 0, hi: 0, w10: 40, row: 3, tag: 0 },
        KeyDef { label: "Del", kind: Kind::Special, vk: VK_DELETE, m: 0, lo: 0, hi: 0, w10: 12, row: 3, tag: 0 },
        KeyDef { label: "PgUp", kind: Kind::Special, vk: VK_PRIOR, m: 0, lo: 0, hi: 0, w10: 10, row: 3, tag: 0 },
        KeyDef { label: "PgDn", kind: Kind::Special, vk: VK_NEXT, m: 0, lo: 0, hi: 0, w10: 10, row: 3, tag: 0 },
        KeyDef { label: "\u{25C0}", kind: Kind::Special, vk: VK_LEFT, m: 0, lo: 0, hi: 0, w10: 10, row: 3, tag: 0 },
        KeyDef { label: "\u{25BC}", kind: Kind::Special, vk: VK_DOWN, m: 0, lo: 0, hi: 0, w10: 10, row: 3, tag: 0 },
        KeyDef { label: "\u{25B6}", kind: Kind::Special, vk: VK_RIGHT, m: 0, lo: 0, hi: 0, w10: 10, row: 3, tag: 0 },
    ];
    assert(t@ =~= compact_abc_defs()) by {
        reveal(compact_abc_defs);
    }
    t
}

/// The numbers and symbols page of the Compact layout (rows 0 to 3).
#[verifier::opaque]
pub open spec fn compact_sym_defs() -> Seq<KeyDef> {
    seq![
        KeyDef { label: "`", kind: Kind::Char, vk: 0, m: 0, lo: 96, hi: 126, w10: 10, row: 0, tag: 0 },
        KeyDef { label: "1", kind: Kind::Char, vk: 0, m: 0, lo: 49, hi: 33, w10: 10, row: 0, tag: 0 },
        KeyDef { label: "2", kind: Kind::Char, vk: 0, m: 0, lo: 50, hi: 64, w10: 10, row: 0, tag: 0 },
        KeyDef { label: "3", kind: Kind::Char, vk: 0, m: 0, lo: 51, hi: 35, w10: 10, row: 0, tag: 0 },
        KeyDef { label: "4", kind: Kind::Char, vk: 0, m: 0, lo: 52, hi: 36, w10: 10, row: 0, tag: 0 },
        KeyDef { label: "5", kind: Kind::Char, vk: 0, m: 0, lo: 53, hi: 37, w10: 10, row: 0, tag: 0 },
        KeyDef { label: "6", kind: Kind::Char, vk: 0, m: 0, lo: 54, hi: 94, w10: 10, row: 0, tag: 0 },
        KeyDef { label: "7", kind: Kind::Char, vk: 0, m: 0, lo: 55, hi: 38, w10: 10, row: 0, tag: 0 },
        KeyDef { label: "8", kind: Kind::Char, vk: 0, m: 0, lo: 56, hi: 42, w10: 10, row: 0, tag: 0 },
        KeyDef { label: "9", kind: Kind::Char, vk: 0, m: 0, lo: 57, hi: 40, w10: 10, row: 0, tag: 0 },
        KeyDef { label: "0", kind: Kind::Char, vk: 0, m: 0, lo: 48, hi: 41, w10: 10, row: 0, tag: 0 },
        KeyDef { label: "-", kind: Kind::Char, vk: 0, m: 0, lo: 45, hi: 95, w10: 10, row: 0, tag: 0 },
        KeyDef { label: "=", kind: Kind::Char, vk: 0, m: 0, lo: 61, hi: 43, w10: 10, row: 0, tag: 0 },
        KeyDef { label: "\u{232B}", kind: Kind::Special, vk: VK_BACK, m: 0, lo: 0, hi: 0, w10: 20, row: 0, tag: 0 },
        KeyDef { label: "\u{21E5}", kind: Kind::Special, vk: VK_TAB, m: 0, lo: 0, hi: 0, w10: 14, row: 1, tag: 0 },
        KeyDef { label: "[", kind: Kind::Char, vk: 0, m: 0, lo: 91, hi: 123, w10: 10, row: 1, tag: 0 },
        KeyDef { label: "]", kind: Kind::Char, vk: 0, m: 0, lo: 93, hi: 125, w10: 10, row: 1, tag: 0 },
        KeyDef { label: "\\", kind: Kind::Char, vk: 0, m: 0, lo: 92, hi: 124, w10: 10, row: 1, tag: 0 },
        KeyDef { label: ";", kind: Kind::Char, vk: 0, m: 0, lo: 59, hi: 58, w10: 10, row: 1, tag: 0 },
        KeyDef { label: "'", kind: Kind::Char, vk: 0, m: 0, lo: 39, hi: 34, w10: 10, row: 1, tag: 0 },
        KeyDef { label: "Del", kind: Kind::Special, vk: VK_DELETE, m: 0, lo: 0, hi: 0, w10: 14, row: 1, tag: 0 },
        KeyDef { label: "\u{23CE}", kind: Kind::Special, vk: VK_RETURN, m: 0, lo: 0, hi: 0, w10: 18, row: 1, tag: 0 },
        KeyDef { label: "\u{21EA}", kind: Kind::Shcap, vk: 0, m: 0, lo: 0, hi: 0, w10: 18, row: 2, tag: 0 },
        KeyDef { label: "<", kind: Kind::Char, vk: 0, m: 0, lo: 60, hi: 60, w10: 10, row: 2, tag: 0 },
        KeyDef { label: ">", kind: Kind::Char, vk: 0, m: 0, lo: 62, hi: 62, w10: 10, row: 2, tag: 0 },
        KeyDef { label: "?", kind: Kind::Char, vk: 0, m: 0, lo: 63, hi: 63, w10: 10, row: 2, tag: 0 },
        KeyDef { label: "!", kind: Kind::Char, vk: 0, m: 0, lo: 33, hi: 33, w10: 10, row: 2, tag: 0 },
        KeyDef { label: ":", kind: Kind::Char, vk: 0, m: 0, lo: 58, hi: 58, w10: 10, row: 2, tag: 0 },
        KeyDef { label: "\"", kind: Kind::Char, vk: 0, m: 0, lo: 34, hi: 34, w10: 10, row: 2, tag: 0 },
        KeyDef { label: "\u{25B2}", kind: Kind::Special, vk: VK_UP, m: 0, lo: 0, hi: 0, w10: 10, row: 2, tag: 0 },
        KeyDef { label: "Ctrl", kind: Kind::Mod, vk: 0, m: 1, lo: 0, hi: 0, w10: 12, row: 3, tag: 0 },
        KeyDef { label: "Win", kind: Kind::Mod, vk: 0, m: 3, lo: 0, hi: 0, w10: 12, row: 3, tag: 0 },
        KeyDef { label: "Alt", kind: Kind::Mod, vk: 0, m: 2, lo: 0, hi: 0, w10: 12, row: 3, tag: 0 },
        KeyDef { label: "ABC", kind: Kind::Page, vk: 0, m: 0, lo: 0, hi: 0, w10: 14, row: 3, tag: 0 },
        KeyDef { label: "Space", kind: Kind::Space, vk: 0, m: 0, lo: 0, hi: 0, w10: 40, row: 3, tag: 0 },
        KeyDef { label: "\u{2630}", kind: Kind::Special, vk: VK_APPS, m: 0, lo: 0, hi: 0, w10: 12, row: 3, tag: 0 },
        KeyDef { label: "PgUp", kind: Kind::Special, vk: VK_PRIOR, m: 0, lo: 0, hi: 0, w10: 10, row: 3, tag: 0 },
        KeyDef { label: "PgDn", kind: Kind::Special, vk: VK_NEXT, m: 0, lo: 0, hi: 0, w10: 10, row: 3, tag: 0 },
        KeyDef { label: "\u{25C0}", kind: Kind::Special, vk: VK_LEFT, m: 0, lo: 0, hi: 0, w10: 10, row: 3, tag: 0 },
        KeyDef { label: "\u{25BC}", kind: Kind::Special, vk: VK_DOWN, m: 0, lo: 0, hi: 0, w10: 10, row: 3, tag: 0 },
        KeyDef { label: "\u{25B6}", kind: Kind::Special, vk: VK_RIGHT, m: 0, lo: 0, hi: 0, w10: 10, row: 3, tag: 0 },
    ]
}

fn compact_sym_table() -> (t: [KeyDef; 41])
    ensures
        t@ == compact_sym_defs(),
{
    let t: [KeyDef; 41] = [
        KeyDef { label: "`", kind: Kind::Char, vk: 0, m: 0, lo: 96, hi: 126, w10: 10, row: 0, tag: 0 },
        KeyDef { label: "1", kind: Kind::Char, vk: 0, m: 0, lo: 49, hi: 33, w10: 10, row: 0, tag: 0 },
        KeyDef { label: "2", kind: Kind::Char, vk: 0, m: 0, lo: 50, hi: 64, w10: 10, row: 0, tag: 0 },
        KeyDef { label: "3", kind: Kind::Char, vk: 0, m: 0, lo: 51, hi: 35, w10: 10, row: 0, tag: 0 },
        KeyDef { label: "4", kind: Kind::Char, vk: 0, m: 0, lo: 52, hi: 36, w10: 10, row: 0, tag: 0 },
        KeyDef { label: "5", kind: Kind::Char, vk: 0, m: 0, lo: 53, hi: 37, w10: 10, row: 0, tag: 0 },
        KeyDef { label: "6", kind: Kind::Char, vk: 0, m: 0, lo: 54, hi: 94, w10: 10, row: 0, tag: 0 },
        KeyDef { label: "7", kind: Kind::Char, vk: 0, m: 0, lo: 55, hi: 38, w10: 10, row: 0, tag: 0 },
        KeyDef { label: "8", kind: Kind::Char, vk: 0, m: 0, lo: 56, hi: 42, w10: 10, row: 0, tag: 0 },
        KeyDef { label: "9", kind: Kind::Char, vk: 0, m: 0, lo: 57, hi: 40, w10: 10, row: 0, tag: 0 },
        KeyDef { label: "0", kind: Kind::Char, vk: 0, m: 0, lo: 48, hi: 41, w10: 10, row: 0, tag: 0 },
        KeyDef { label: "-", kind: Kind::Char, vk: 0, m: 0, lo: 45, hi: 95, w10: 10, row: 0, tag: 0 },
        KeyDef { label: "=", kind: Kind::Char, vk: 0, m: 0, lo: 61, hi: 43, w10: 10, row: 0, tag: 0 },
        KeyDef { label: "\u{232B}", kind: Kind::Special, vk: VK_BACK, m: 0, lo: 0, hi: 0, w10: 20, row: 0, tag: 0 },
        KeyDef { label: "\u{21E5}", kind: Kind::Special, vk: VK_TAB, m: 0, lo: 0, hi: 0, w10: 14, row: 1, tag: 0 },
        KeyDef { label: "[", kind: Kind::Char, vk: 0, m: 0, lo: 91, hi: 123, w10: 10, row: 1, tag: 0 },
        KeyDef { label: "]", kind: Kind::Char, vk: 0, m: 0, lo: 93, hi: 125, w10: 10, row: 1, tag: 0 },
        KeyDef { label: "\\", kind: Kind::Char, vk: 0, m: 0, lo: 92, hi: 124, w10: 10, row: 1, tag: 0 },
        KeyDef { label: ";", kind: Kind::Char, vk: 0, m: 0, lo: 59, hi: 58, w10: 10, row: 1, tag: 0 },
        KeyDef { label: "'", kind: Kind::Char, vk: 0, m: 0, lo: 39, hi: 34, w10: 10, row: 1, tag: 0 },
        KeyDef { label: "Del", kind: Kind::Special, vk: VK_DELETE, m: 0, lo: 0, hi: 0, w10: 14, row: 1, tag: 0 },
        KeyDef { label: "\u{23CE}", kind: Kind::Special, vk: VK_RETURN, m: 0, lo: 0, hi: 0, w10: 18, row: 1, tag: 0 },
        KeyDef { label: "\u{21EA}", kind: Kind::Shcap, vk: 0, m: 0, lo: 0, hi: 0, w10: 18, row: 2, tag: 0 },
        KeyDef { label: "<", kind: Kind::Char, vk: 0, m: 0, lo: 60, hi: 60, w10: 10, row: 2, tag: 0 },
        KeyDef { label: ">", kind: Kind::Char, vk: 0, m: 0, lo: 62, hi: 62, w10: 10, row: 2, tag: 0 },
        KeyDef { label: "?", kind: Kind::Char, vk: 0, m: 0, lo: 63, hi: 63, w10: 10, row: 2, tag: 0 },
        KeyDef { label: "!", kind: Kind::Char, vk: 0, m: 0, lo: 33, hi: 33, w10: 10, row: 2, tag: 0 },
        KeyDef { label: ":", kind: Kind::Char, vk: 0, m: 0, lo: 58, hi: 58, w10: 10, row: 2, tag: 0 },
        KeyDef { label: "\"", kind: Kind::Char, vk: 0, m: 0, lo: 34, hi: 34, w10: 10, row: 2, tag: 0 },
        KeyDef { label: "\u{25B2}", kind: Kind::Special, vk: VK_UP, m: 0, lo: 0, hi: 0, w10: 10, row: 2, tag: 0 },
        KeyDef { label: "Ctrl", kind: Kind::Mod, vk: 0, m: 1, lo: 0, hi: 0, w10: 12, row: 3, tag: 0 },
        KeyDef { label: "Win", kind: Kind::Mod, vk: 0, m: 3, lo: 0, hi: 0, w10: 12, row: 3, tag: 0 },
        KeyDef { label: "Alt", kind: Kind::Mod, vk: 0, m: 2, lo: 0, hi: 0, w10: 12, row: 3, tag: 0 },
        KeyDef { label: "ABC", kind: Kind::Page, vk: 0, m: 0, lo: 0, hi: 0, w10: 14, row: 3, tag: 0 },
        KeyDef { label: "Space", kind: Kind::Space, vk: 0, m: 0, lo: 0, hi: 0, w10: 40, row: 3, tag: 0 },
        KeyDef { label: "\u{2630}", kind: Kind::Special, vk: VK_APPS, m: 0, lo: 0, hi: 0, w10: 12, row: 3, tag: 0 },
        KeyDef { label: "PgUp", kind: Kind::Special, vk: VK_PRIOR, m: 0, lo: 0, hi: 0, w10: 10, row: 3, tag: 0 },
        KeyDef { label: "PgDn", kind: Kind::Special, vk: VK_NEXT, m: 0, lo: 0, hi: 0, w10: 10, row: 3, tag: 0 },
        KeyDef { label: "\u{25C0}", kind: Kind::Special, vk: VK_LEFT, m: 0, lo: 0, hi: 0, w10: 10, row: 3, tag: 0 },
        KeyDef { label: "\u{25BC}", kind: Kind::Special, vk: VK_DOWN, m: 0, lo: 0, hi: 0, w10: 10, row: 3, tag: 0 },
        KeyDef { label: "\u{25B6}", kind: Kind::Special, vk: VK_RIGHT, m: 0, lo: 0, hi: 0, w10: 10, row: 3, tag: 0 },
    ];
    assert(t@ =~= compact_sym_defs()) by {
        reveal(compact_sym_defs);
    }
    t
}

/// The settings panel (row 10); the language key shows the current language.
#[verifier::opaque]
pub open spec fn settings_row_defs(lang_label: &'static str) -> Seq<KeyDef> {
    seq![
        KeyDef { label: "A-", kind: Kind::Setting, vk: SET_SM, m: 0, lo: 0, hi: 0, w10: 15, row: 10, tag: 0 },
        KeyDef { label: "A+", kind: Kind::Setting, vk: SET_BG, m: 0, lo: 0, hi: 0, w10: 15, row: 10, tag: 0 },
        KeyDef { label: "\u{25D0}", kind: Kind::Setting, vk: SET_OPDN, m: 0, lo: 0, hi: 0, w10: 15, row: 10, tag: 0 },
        KeyDef { label: "\u{25D1}", kind: Kind::Setting, vk: SET_OPUP, m: 0, lo: 0, hi: 0, w10: 15, row: 10, tag: 0 },
        KeyDef { label: lang_label, kind: Kind::Setting, vk: SET_LANG, m: 0, lo: 0, hi: 0, w10: 15, row: 10, tag: 0 },
        KeyDef { label: "Pred", kind: Kind::Setting, vk: SET_PRED, m: 0, lo: 0, hi: 0, w10: 15, row: 10, tag: 0 },
        KeyDef { label: "Auto", kind: Kind::Setting, vk: SET_AUTO, m: 0, lo: 0, hi: 0, w10: 15, row: 10, tag: 0 },
        KeyDef { label: "Spell", kind: Kind::Setting, vk: SET_SPELL, m: 0, lo: 0, hi: 0, w10: 15, row: 10, tag: 0 },
        KeyDef { label: "Bi", kind: Kind::Setting, vk: SET_BIGRAM, m: 0, lo: 0, hi: 0, w10: 15, row: 10, tag: 0 },
        KeyDef { label: "Pin", kind: Kind::Setting, vk: SET_PINWIN, m: 0, lo: 0, hi: 0, w10: 15, row: 10, tag: 0 },
        KeyDef { label: "\u{2605}", kind: Kind::Setting, vk: SET_PINBAR, m: 0, lo: 0, hi: 0, w10: 15, row: 10, tag: 0 },
        KeyDef { label: "Done", kind: Kind::Setting, vk: SET_DONE, m: 0, lo: 0, hi: 0, w10: 15, row: 10, tag: 0 },
    ]
}

fn settings_row_table(lang_label: &'static str) -> (t: [KeyDef; 12])
    ensures
        t@ == settings_row_defs(lang_label),
{
    let t: [KeyDef; 12] = [
        KeyDef { label: "A-", kind: Kind::Setting, vk: SET_SM, m: 0, lo: 0, hi: 0, w10: 15, row: 10, tag: 0 },
        KeyDef { label: "A+", kind: Kind::Setting, vk: SET_BG, m: 0, lo: 0, hi: 0, w10: 15, row: 10, tag: 0 },
        KeyDef { label: "\u{25D0}", kind: Kind::Setting, vk: SET_OPDN, m: 0, lo: 0, hi: 0, w10: 15, row: 10, tag: 0 },
        KeyDef { label: "\u{25D1}", kind: Kind::Setting, vk: SET_OPUP, m: 0, lo: 0, hi: 0, w10: 15, row: 10, tag: 0 },
        KeyDef { label: lang_label, kind: Kind::Setting, vk: SET_LANG, m: 0, lo: 0, hi: 0, w10: 15, row: 10, tag: 0 },
        KeyDef { label: "Pred", kind: Kind::Setting, vk: SET_PRED, m: 0, lo: 0, hi: 0, w10: 15, row: 10, tag: 0 },
        KeyDef { label: "Auto", kind: Kind::Setting, vk: SET_AUTO, m: 0, lo: 0, hi: 0, w10: 15, row: 10, tag: 0 },
        KeyDef { label: "Spell", kind: Kind::Setting, vk: SET_SPELL, m: 0, lo: 0, hi: 0, w10: 15, row: 10, tag: 0 },
        KeyDef { label: "Bi", kind: Kind::Setting, vk: SET_BIGRAM, m: 0, lo: 0, hi: 0, w10: 15, row: 10, tag: 0 },
        KeyDef { label: "Pin", kind: Kind::Setting, vk: SET_PINWIN, m: 0, lo: 0, hi: 0, w10: 15, row: 10, tag: 0 },
        KeyDef { label: "\u{2605}", kind: Kind::Setting, vk: SET_PINBAR, m: 0, lo: 0, hi: 0, w10: 15, row: 10, tag: 0 },
        KeyDef { label: "Done", kind: Kind::Setting, vk: SET_DONE, m: 0, lo: 0, hi: 0, w10: 15, row: 10, tag: 0 },
    ];
    assert(t@ =~= settings_row_defs(lang_label)) by {
        reveal(settings_row_defs);
    }
    t
}

/// The one-tap shortcut panel (row 11): Copy, Paste, Cut, Undo, Save, All, AltTab, Shot, Lock.
#[verifier::opaque]
pub open spec fn macros_row_defs() -> Seq<KeyDef> {
    seq![
        KeyDef { label: "Copy", kind: Kind::Macro, vk: 0x43, m: 2, lo: 0, hi: 0, w10: 15, row: 11, tag: 0 },
        KeyDef { label: "Paste", kind: Kind::Macro, vk: 0x56, m: 2, lo: 0, hi: 0, w10: 15, row: 11, tag: 0 },
        KeyDef { label: "Cut", kind: Kind::Macro, vk: 0x58, m: 2, lo: 0, hi: 0, w10: 15, row: 11, tag: 0 },
        KeyDef { label: "Undo", kind: Kind::Macro, vk: 0x5A, m: 2, lo: 0, hi: 0, w10: 15, row: 11, tag: 0 },
        KeyDef { label: "Save", kind: Kind::Macro, vk: 0x53, m: 2, lo: 0, hi: 0, w10: 15, row: 11, tag: 0 },
        KeyDef { label: "All", kind: Kind::Macro, vk: 0x41, m: 2, lo: 0, hi: 0, w10: 15, row: 11, tag: 0 },
        KeyDef { label: "AltTab", kind: Kind::Macro, vk: VK_TAB, m: 4, lo: 0, hi: 0, w10: 15, row: 11, tag: 0 },
        KeyDef { label: "Shot", kind: Kind::Macro, vk: VK_SNAPSHOT, m: 8, lo: 0, hi: 0, w10: 15, row: 11, tag: 0 },
        KeyDef { label: "Lock", kind: Kind::Macro, vk: 0x4C, m: 8, lo: 0, hi: 0, w10: 15, row: 11, tag: 0 },
    ]
}

fn macros_row_table() -> (t: [KeyDef; 9])
    ensures
        t@ == macros_row_defs(),
{
    let t: [KeyDef; 9] = [
        KeyDef { label: "Copy", kind: Kind::Macro, vk: 0x43, m: 2, lo: 0, hi: 0, w10: 15, row: 11, tag: 0 },
        KeyDef { label: "Paste", kind: Kind::Macro, vk: 0x56, m: 2, lo: 0, hi: 0, w10: 15, row: 11, tag: 0 },
        KeyDef { label: "Cut", kind: Kind::Macro, vk: 0x58, m: 2, lo: 0, hi: 0, w10: 15, row: 11, tag: 0 },
        KeyDef { label: "Undo", kind: Kind::Macro, vk: 0x5A, m: 2, lo: 0, hi: 0, w10: 15, row: 11, tag: 0 },
        KeyDef { label: "Save", kind: Kind::Macro, vk: 0x53, m: 2, lo: 0, hi: 0, w10: 15, row: 11, tag: 0 },
        KeyDef { label: "All", kind: Kind::Macro, vk: 0x41, m: 2, lo: 0, hi: 0, w10: 15, row: 11, tag: 0 },
        KeyDef { label: "AltTab", kind: Kind::Macro, vk: VK_TAB, m: 4, lo: 0, hi: 0, w10: 15, row: 11, tag: 0 },
        KeyDef { label: "Shot", kind: Kind::Macro, vk: VK_SNAPSHOT, m: 8, lo: 0, hi: 0, w10: 15, row: 11, tag: 0 },
        KeyDef { label: "Lock", kind: Kind::Macro, vk: 0x4C, m: 8, lo: 0, hi: 0, w10: 15, row: 11, tag: 0 },
    ];
    assert(t@ =~= macros_row_defs()) by {
        reveal(macros_row_defs);
    }
    t
}

/// The suggestion strip (row 12): three slots.
#[verifier::opaque]
pub open spec fn sugg_row_defs() -> Seq<KeyDef> {
    seq![
        KeyDef { label: "", kind: Kind::Sugg, vk: 0, m: 0, lo: 0, hi: 0, w10: 20, row: 12, tag: 0 },
        KeyDef { label: "", kind: Kind::Sugg, vk: 1, m: 0, lo: 0, hi: 0, w10: 20, row: 12, tag: 0 },
        KeyDef { label: "", kind: Kind::Sugg, vk: 2, m: 0, lo: 0, hi: 0, w10: 20, row: 12, tag: 0 },
    ]
}

fn sugg_row_table() -> (t: [KeyDef; 3])
    ensures
        t@ == sugg_row_defs(),
{
    let t: [KeyDef; 3] = [
        KeyDef { label: "", kind: Kind::Sugg, vk: 0, m: 0, lo: 0, hi: 0, w10: 20, row: 12, tag: 0 },
        KeyDef { label: "", kind: Kind::Sugg, vk: 1, m: 0, lo: 0, hi: 0, w10: 20, row: 12, tag: 0 },
        KeyDef { label: "", kind: Kind::Sugg, vk: 2, m: 0, lo: 0, hi: 0, w10: 20, row: 12, tag: 0 },
    ];
    assert(t@ =~= sugg_row_defs()) by {
        reveal(sugg_row_defs);
    }
    t
}

/// The clipboard page: five entry rows (20 to 24) and its navigation row (25).
#[verifier::opaque]
pub open spec fn clip_rows_defs() -> Seq<KeyDef> {
    seq![
        KeyDef { label: "", kind: Kind::Clip, vk: 0, m: 0, lo: 0, hi: 0, w10: 10, row: 20, tag: 0 },
        KeyDef { label: "", kind: Kind::Clip, vk: 1, m: 0, lo: 0, hi: 0, w10: 10, row: 21, tag: 0 },
        KeyDef { label: "", kind: Kind::Clip, vk: 2, m: 0, lo: 0, hi: 0, w10: 10, row: 22, tag: 0 },
        KeyDef { label: "", kind: Kind::Clip, vk: 3, m: 0, lo: 0, hi: 0, w10: 10, row: 23, tag: 0 },
        KeyDef { label: "", kind: Kind::Clip, vk: 4, m: 0, lo: 0, hi: 0, w10: 10, row: 24, tag: 0 },
        KeyDef { label: "\u{25B2}", kind: Kind::Cnav, vk: CNAV_UP, m: 0, lo: 0, hi: 0, w10: 12, row: 25, tag: 0 },
        KeyDef { label: "\u{25BC}", kind: Kind::Cnav, vk: CNAV_DOWN, m: 0, lo: 0, hi: 0, w10: 12, row: 25, tag: 0 },
        KeyDef { label: "Clear", kind: Kind::Cnav, vk: CNAV_CLEAR, m: 0, lo: 0, hi: 0, w10: 18, row: 25, tag: 0 },
        KeyDef { label: "Pin", kind: Kind::Cnav, vk: CNAV_PIN, m: 0, lo: 0, hi: 0, w10: 18, row: 25, tag: 0 },
        KeyDef { label: "Keys", kind: Kind::Cnav, vk: CNAV_BACK, m: 0, lo: 0, hi: 0, w10: 18, row: 25, tag: 0 },
    ]
}

fn clip_rows_table() -> (t: [KeyDef; 10])
    ensures
        t@ == clip_rows_defs(),
{
    let t: [KeyDef; 10] = [
        KeyDef { label: "", kind: Kind::Clip, vk: 0, m: 0, lo: 0, hi: 0, w10: 10, row: 20, tag: 0 },
        KeyDef { label: "", kind: Kind::Clip, vk: 1, m: 0, lo: 0, hi: 0, w10: 10, row: 21, tag: 0 },
        KeyDef { label: "", kind: Kind::Clip, vk: 2, m: 0, lo: 0, hi: 0, w10: 10, row: 22, tag: 0 },
        KeyDef { label: "", kind: Kind::Clip, vk: 3, m: 0, lo: 0, hi: 0, w10: 10, row: 23, tag: 0 },
        KeyDef { label: "", kind: Kind::Clip, vk: 4, m: 0, lo: 0, hi: 0, w10: 10, row: 24, tag: 0 },
        KeyDef { label: "\u{25B2}", kind: Kind::Cnav, vk: CNAV_UP, m: 0, lo: 0, hi: 0, w10: 12, row: 25, tag: 0 },
        KeyDef { label: "\u{25BC}", kind: Kind::Cnav, vk: CNAV_DOWN, m: 0, lo: 0, hi: 0, w10: 12, row: 25, tag: 0 },
        KeyDef { label: "Clear", kind: Kind::Cnav, vk: CNAV_CLEAR, m: 0, lo: 0, hi: 0, w10: 18, row: 25, tag: 0 },
        KeyDef { label: "Pin", kind: Kind::Cnav, vk: CNAV_PIN, m: 0, lo: 0, hi: 0, w10: 18, row: 25, tag: 0 },
        KeyDef { label: "Keys", kind: Kind::Cnav, vk: CNAV_BACK, m: 0, lo: 0, hi: 0, w10: 18, row: 25, tag: 0 },
    ];
    assert(t@ =~= clip_rows_defs()) by {
        reveal(clip_rows_defs);
    }
    t
}

/// The navigation row of the shortcut page (row 32).
#[verifier::opaque]
pub open spec fn sc_nav_defs() -> Seq<KeyDef> {
    seq![
        KeyDef { label: "Del", kind: Kind::Cnav, vk: CNAV_SDEL, m: 0, lo: 0, hi: 0, w10: 15, row: 32, tag: 0 },
        KeyDef { label: "\u{2605}", kind: Kind::Cnav, vk: CNAV_SSTAR, m: 0, lo: 0, hi: 0, w10: 15, row: 32, tag: 0 },
        KeyDef { label: "Keys", kind: Kind::Cnav, vk: CNAV_SBACK, m: 0, lo: 0, hi: 0, w10: 15, row: 32, tag: 0 },
    ]
}

fn sc_nav_table() -> (t: [KeyDef; 3])
    ensures
        t@ == sc_nav_defs(),
{
    let t: [KeyDef; 3] = [
        KeyDef { label: "Del", kind: Kind::Cnav, vk: CNAV_SDEL, m: 0, lo: 0, hi: 0, w10: 15, row: 32, tag: 0 },
        KeyDef { label: "\u{2605}", kind: Kind::Cnav, vk: CNAV_SSTAR, m: 0, lo: 0, hi: 0, w10: 15, row: 32, tag: 0 },
        KeyDef { label: "Keys", kind: Kind::Cnav, vk: CNAV_SBACK, m: 0, lo: 0, hi: 0, w10: 15, row: 32, tag: 0 },
    ];
    assert(t@ =~= sc_nav_defs()) by {
        reveal(sc_nav_defs);
    }
    t
}

// ---------------------------------------------------------------------------
// Adding keys
// ---------------------------------------------------------------------------

/// Adds a key labelled with the units `u` (see `push_key`).
fn keys_add_units(keys: &mut Vec<Key>, u: &[u16], k: Kind, vk: u32, m: i32, lo: u16, hi: u16, w10: u32, row: i32)
    ensures
        keys_view(final(keys)@) == push_key(keys_view(old(keys)@), key_from_units(u@, k, vk, m, lo, hi, w10, row)),
{
    if keys.len() >= MAXKEYS {
        return;
    }
    let mut key = Key {
        text: [0u16; 10],
        sub: [0u16; 4],
        tag: 0,
        kind: k,
        vk: vk,
        mod_: m,
        lo: lo,
        hi: hi,
        w10: w10,
        row: row,
        rc: Rect { left: 0, top: 0, right: 0, bottom: 0 },
    };
    crate::text::set_units(&mut key.text, u);
    let ghost km = key@;
    assert(km.sub =~= Seq::new(4, |i: int| 0u16));
    assert(km == key_from_units(u@, k, vk, m, lo, hi, w10, row));
    let ghost before = keys_view(keys@);
    keys.push(key);
    assert(keys_view(keys@) =~= before.push(km));
}

fn keys_add(keys: &mut Vec<Key>, t: &str, k: Kind, vk: u32, m: i32, lo: u16, hi: u16, w10: u32, row: i32)
    ensures
        keys_view(final(keys)@) == push_key(keys_view(old(keys)@), key_from_units(utf16_of(t@), k, vk, m, lo, hi, w10, row)),
{
    let u = utf16_units(t);
    keys_add_units(keys, u.as_slice(), k, vk, m, lo, hi, w10, row);
}

fn keys_add_def(keys: &mut Vec<Key>, d: KeyDef)
    ensures
        keys_view(final(keys)@) == push_def(keys_view(old(keys)@), d),
{
    keys_add(keys, d.label, d.kind, d.vk, d.m, d.lo, d.hi, d.w10, d.row);
    if d.tag != 0 && keys.len() > 0 {
        let n = keys.len();
        let mut last = keys[n - 1];
        last.tag = d.tag;
        let ghost before = keys_view(keys@);
        keys.set(n - 1, last);
        assert(keys_view(keys@) =~= before.update(n - 1, KeyModel { tag: d.tag, ..before.last() }));
    }
}

fn keys_add_defs(keys: &mut Vec<Key>, defs: &[KeyDef])
    ensures
        keys_view(final(keys)@) == append_defs(keys_view(old(keys)@), defs@),
{
    let ghost k0 = keys_view(keys@);
    let mut i: usize = 0;
    while i < defs.len()
        invariant
            i <= defs.len(),
            keys_view(keys@) == append_defs(k0, defs@.take(i as int)),
        decreases defs.len() - i,
    {
        keys_add_def(keys, defs[i]);
        assert(defs@.take(i + 1).drop_last() =~= defs@.take(i as int));
        i = i + 1;
    }
    assert(defs@.take(defs.len() as int) =~= defs@);
}

impl Board {
    /// Adds a key labelled with the units `u` (at most 9 kept), unless the layout already
    /// holds 160 keys.
    pub fn add_key_units(&mut self, u: &[u16], k: Kind, vk: u32, m: i32, lo: u16, hi: u16, w10: u32, row: i32)
        ensures
            final(self)@ == (BoardModel {
                keys: push_key(old(self)@.keys, key_from_units(u@, k, vk, m, lo, hi, w10, row)),
                ..old(self)@
            }),
    {
        keys_add_units(&mut self.keys, u, k, vk, m, lo, hi, w10, row);
    }

    /// Adds a key labelled `t` (see `add_key_units`).
    pub fn add_key(&mut self, t: &str, k: Kind, vk: u32, m: i32, lo: u16, hi: u16, w10: u32, row: i32)
        ensures
            final(self)@ == (BoardModel {
                keys: push_key(old(self)@.keys, key_from_units(utf16_of(t@), k, vk, m, lo, hi, w10, row)),
                ..old(self)@
            }),
    {
        keys_add(&mut self.keys, t, k, vk, m, lo, hi, w10, row);
    }

    fn add_defs(&mut self, defs: &[KeyDef])
        ensures
            final(self)@ == (BoardModel { keys: append_defs(old(self)@.keys, defs@), ..old(self)@ }),
    {
        keys_add_defs(&mut self.keys, defs);
    }

    fn clear_keys(&mut self)
        ensures
            final(self)@ == (BoardModel { keys: seq![], ..old(self)@ }),
    {
        self.keys.clear();
        assert(keys_view(self.keys@) =~= Seq::<KeyModel>::empty());
    }

    /// Replaces the keys with the Full layout.
    pub fn build_full(&mut self)
        ensures
            final(self)@ == (BoardModel { keys: append_defs(seq![], full_defs()), ..old(self)@ }),
    {
        self.clear_keys();
        let t = full_table();
        self.add_defs(&t);
    }

    /// Replaces the keys with the letters page of the Compact layout.
    pub fn build_compact_abc(&mut self)
        ensures
            final(self)@ == (BoardModel { keys: append_defs(seq![], compact_abc_defs()), ..old(self)@ }),
    {
        self.clear_keys();
        let t = compact_abc_table();
        self.add_defs(&t);
    }

    /// Replaces the keys with the symbols page of the Compact layout.
    pub fn build_compact_sym(&mut self)
        ensures
            final(self)@ == (BoardModel { keys: append_defs(seq![], compact_sym_defs()), ..old(self)@ }),
    {
        self.clear_keys();
        let t = compact_sym_table();
        self.add_defs(&t);
    }

    /// Adds the settings panel; its language key reads "ID" or "EN".
    pub fn build_settings_row(&mut self)
        ensures
            final(self)@ == (BoardModel {
                keys: append_defs(old(self)@.keys, settings_row_defs(lang_label_spec(old(self)@.pred.lang))),
                ..old(self)@
            }),
    {
        let lang_label = if self.pred.language() == 0 { "ID" } else { "EN" };
        let t = settings_row_table(lang_label);
        self.add_defs(&t);
    }

    /// Adds the one-tap shortcut panel.
    pub fn build_macros_row(&mut self)
        ensures
            final(self)@ == (BoardModel { keys: append_defs(old(self)@.keys, macros_row_defs()), ..old(self)@ }),
    {
        let t = macros_row_table();
        self.add_defs(&t);
    }

    /// Adds the suggestion strip.
    pub fn build_sugg_row(&mut self)
        ensures
            final(self)@ == (BoardModel { keys: append_defs(old(self)@.keys, sugg_row_defs()), ..old(self)@ }),
    {
        let t = sugg_row_table();
        self.add_defs(&t);
    }

    /// Adds the clipboard page.
    pub fn build_clip_rows(&mut self)
        ensures
            final(self)@ == (BoardModel { keys: append_defs(old(self)@.keys, clip_rows_defs()), ..old(self)@ }),
    {
        let t = clip_rows_table();
        self.add_defs(&t);
    }

    /// Adds the line that shows the shortcut being recorded (row 13).
    pub fn build_rec_row(&mut self)
        ensures
            final(self)@ == (BoardModel {
                keys: push_key(old(self)@.keys, key_from_units(utf16_of(""@), Kind::Info, 0, 0, 0, 0, 100, 13)),
                ..old(self)@
            }),
    {
        self.add_key("", Kind::Info, 0, 0, 0, 0, 100, 13);
    }
}

/// Label of the language key.
pub open spec fn lang_label_spec(lang: int) -> &'static str {
    if lang == 0 { "ID" } else { "EN" }
}

// ---------------------------------------------------------------------------
// Shortcut rows
// ---------------------------------------------------------------------------

/// A shortcut slot that shows on the pinned strip: used, with a key, and starred.
pub open spec fn starred(s: ShortcutModel) -> bool {
    s.used && s.vk != 0 && s.star
}

/// Number of starred slots among the first `k`.
pub open spec fn star_count_upto(sc: Seq<ShortcutModel>, k: int) -> int
    decreases k,
{
    if k <= 0 {
        0
    } else {
        star_count_upto(sc, k - 1) + if starred(sc[k - 1]) { 1int } else { 0int }
    }
}

pub open spec fn star_count_spec(sc: Seq<ShortcutModel>) -> int {
    star_count_upto(sc, sc.len() as int)
}

/// The slot of the `i`-th starred shortcut (counting from 0), scanning from slot `s` with
/// `n` starred slots already passed; -1 when there is none.
pub open spec fn pin_slot_from(sc: Seq<ShortcutModel>, i: int, s: int, n: int) -> int
    decreases sc.len() - s,
{
    if s < 0 || s >= sc.len() {
        -1
    } else if starred(sc[s]) {
        if n == i { s } else { pin_slot_from(sc, i, s + 1, n + 1) }
    } else {
        pin_slot_from(sc, i, s + 1, n)
    }
}

/// Label units of a shortcut button: its name, or "+" for an empty slot.
pub open spec fn sc_label(s: ShortcutModel) -> Seq<u16> {
    if s.used && s.name[0] != 0 { lossy_units_spec(zstr(s.name)) } else { utf16_of("+"@) }
}

/// The shortcut page's slot buttons for slots below `k` (rows 30 and 31).
pub open spec fn sc_keys_upto(keys: Seq<KeyModel>, sc: Seq<ShortcutModel>, k: int) -> Seq<KeyModel>
    decreases k,
{
    if k <= 0 {
        keys
    } else {
        push_key(
            sc_keys_upto(keys, sc, k - 1),
            key_from_units(sc_label(sc[k - 1]), Kind::Scut, (k - 1) as u32, 0, 0, 0, 20, if k - 1 < 5 { 30i32 } else { 31i32 }),
        )
    }
}

/// Label units of a button on the pinned strip: the name, or "?".
pub open spec fn pin_label(s: ShortcutModel) -> Seq<u16> {
    if s.name[0] != 0 { lossy_units_spec(zstr(s.name)) } else { utf16_of("?"@) }
}

/// The pinned strip (row 14): a button for each of the first three starred slots, from
/// the `i`-th on.
pub open spec fn pin_keys_from(keys: Seq<KeyModel>, sc: Seq<ShortcutModel>, i: int) -> Seq<KeyModel>
    decreases 3 - i,
{
    if i >= 3 || i < 0 {
        keys
    } else {
        let s = pin_slot_from(sc, i, 0, 0);
        if s < 0 {
            keys
        } else {
            pin_keys_from(push_key(keys, key_from_units(pin_label(sc[s]), Kind::Scut, s as u32, 0, 0, 0, 20, 14)), sc, i + 1)
        }
    }
}

proof fn lemma_pin_slot_range(sc: Seq<ShortcutModel>, i: int, s: int, n: int)
    ensures
        -1 <= pin_slot_from(sc, i, s, n) < sc.len(),
        pin_slot_from(sc, i, s, n) >= 0 ==> pin_slot_from(sc, i, s, n) >= s,
    decreases sc.len() - s,
{
    if 0 <= s < sc.len() {
        lemma_pin_slot_range(sc, i, s + 1, n + 1);
        lemma_pin_slot_range(sc, i, s + 1, n);
    }
}

impl Board {
    /// Number of shortcuts pinned to the strip.
    pub fn star_count(&self) -> (n: i32)
        requires
            self.wf(),
        ensures
            n == star_count_spec(self@.sc),
    {
        let mut n: i32 = 0;
        let mut s: usize = 0;
        while s < MAXSCUT
            invariant
                self.wf(),
                s <= MAXSCUT,
                n == star_count_upto(self@.sc, s as int),
                n <= s,
            decreases MAXSCUT - s,
        {
            let sc = self.sc[s];
            if sc.used && sc.vk != 0 && sc.star {
                n = n + 1;
            }
            s = s + 1;
        }
        n
    }

    /// The slot of the `i`-th button of the pinned strip, or -1.
    pub fn pin_slot_by_bar(&self, i: i32) -> (s: i32)
        requires
            self.wf(),
        ensures
            s == pin_slot_from(self@.sc, i as int, 0, 0),
    {
        pin_slot_in(&self.sc, i)
    }

    /// Adds the shortcut page: ten slot buttons and its navigation row.
    pub fn build_sc_rows(&mut self)
        ensures
            final(self)@ == (BoardModel {
                keys: append_defs(sc_keys_upto(old(self)@.keys, old(self)@.sc, 10), sc_nav_defs()),
                ..old(self)@
            }),
    {
        let ghost b0 = self@;
        sc_rows_into(&mut self.keys, &self.sc);
        assert(self@ == (BoardModel {
            keys: append_defs(sc_keys_upto(b0.keys, b0.sc, 10), sc_nav_defs()),
            ..b0
        }));
    }

    /// Adds the pinned strip: buttons for up to three starred shortcuts.
    pub fn build_pin_row(&mut self)
        ensures
            final(self)@ == (BoardModel { keys: pin_keys_from(old(self)@.keys, old(self)@.sc, 0), ..old(self)@ }),
    {
        let ghost b0 = self@;
        pin_row_into(&mut self.keys, &self.sc);
        assert(self@ == (BoardModel { keys: pin_keys_from(b0.keys, b0.sc, 0), ..b0 }));
    }
}

fn sc_rows_into(keys: &mut Vec<Key>, sc: &[crate::board::Shortcut; 10])
    ensures
        keys_view(final(keys)@) == append_defs(sc_keys_upto(keys_view(old(keys)@), sc@.map_values(|s: crate::board::Shortcut| s@), 10), sc_nav_defs()),
{
    let ghost scv = sc@.map_values(|s: crate::board::Shortcut| s@);
    let ghost k0 = keys_view(keys@);
    let mut i: usize = 0;
    while i < MAXSCUT
        invariant
            i <= MAXSCUT,
            scv == sc@.map_values(|s: crate::board::Shortcut| s@),
            keys_view(keys@) == sc_keys_upto(k0, scv, i as int),
        decreases MAXSCUT - i,
    {
        let s = sc[i];
        let row: i32 = if i < 5 { 30 } else { 31 };
        assert(s@ == scv[i as int]);
        if s.used && s.name[0] != 0 {
            let z = crate::text::zero_prefix(&s.name);
            let l = lossy_units(z.as_slice());
            keys_add_units(keys, l.as_slice(), Kind::Scut, i as u32, 0, 0, 0, 20, row);
        } else {
            keys_add(keys, "+", Kind::Scut, i as u32, 0, 0, 0, 20, row);
        }
        i = i + 1;
    }
    let t = sc_nav_table();
    keys_add_defs(keys, &t);
}

fn pin_row_into(keys: &mut Vec<Key>, sc: &[crate::board::Shortcut; 10])
    ensures
        keys_view(final(keys)@) == pin_keys_from(keys_view(old(keys)@), sc@.map_values(|s: crate::board::Shortcut| s@), 0),
{
    let ghost scv = sc@.map_values(|s: crate::board::Shortcut| s@);
    let mut i: i32 = 0;
    while i < 3
        invariant
            0 <= i <= 3,
            scv == sc@.map_values(|s: crate::board::Shortcut| s@),
            scv.len() == MAXSCUT,
            pin_keys_from(keys_view(old(keys)@), scv, 0) == pin_keys_from(keys_view(keys@), scv, i as int),
        decreases 3 - i,
    {
        let s = pin_slot_in(sc, i);
        proof {
            lemma_pin_slot_range(scv, i as int, 0, 0);
        }
        if s < 0 {
            return;
        }
        let e = sc[s as usize];
        assert(e@ == scv[s as int]);
        if e.name[0] != 0 {
            let z = crate::text::zero_prefix(&e.name);
            let l = lossy_units(z.as_slice());
            keys_add_units(keys, l.as_slice(), Kind::Scut, s as u32, 0, 0, 0, 20, 14);
        } else {
            keys_add(keys, "?", Kind::Scut, s as u32, 0, 0, 0, 20, 14);
        }
        i = i + 1;
    }
}

fn pin_slot_in(sc: &[crate::board::Shortcut; 10], i: i32) -> (s: i32)
    ensures
        s == pin_slot_from(sc@.map_values(|x: crate::board::Shortcut| x@), i as int, 0, 0),
{
    let ghost scv = sc@.map_values(|x: crate::board::Shortcut| x@);
    let mut n: i32 = 0;
    let mut s: usize = 0;
    while s < MAXSCUT
        invariant
            s <= MAXSCUT,
            0 <= n <= s,
            scv == sc@.map_values(|x: crate::board::Shortcut| x@),
            pin_slot_from(scv, i as int, 0, 0) == pin_slot_from(scv, i as int, s as int, n as int),
        decreases MAXSCUT - s,
    {
        let e = sc[s];
        assert(e@ == scv[s as int]);
        if e.used && e.vk != 0 && e.star {
            if n == i {
                return s as i32;
            }
            n = n + 1;
        }
        s = s + 1;
    }
    -1
}

// ---------------------------------------------------------------------------
// Whole layouts
// ---------------------------------------------------------------------------

/// The keys after adding the panels (settings, shortcuts, suggestions, clipboard page,
/// shortcut page, recording line, pinned strip) to `keys`.
#[verifier::opaque]
pub open spec fn panels_spec(lang: int, sc: Seq<ShortcutModel>, keys: Seq<KeyModel>) -> Seq<KeyModel> {
    let k1 = append_defs(keys, settings_row_defs(lang_label_spec(lang)));
    let k2 = append_defs(k1, macros_row_defs());
    let k3 = append_defs(k2, sugg_row_defs());
    let k4 = append_defs(k3, clip_rows_defs());
    let k5 = append_defs(sc_keys_upto(k4, sc, 10), sc_nav_defs());
    let k6 = push_key(k5, key_from_units(utf16_of(""@), Kind::Info, 0, 0, 0, 0, 100, 13));
    pin_keys_from(k6, sc, 0)
}

/// The key table of the current layout and page.
pub open spec fn base_defs(b: BoardModel) -> Seq<KeyDef> {
    if !b.compact {
        full_defs()
    } else if b.page == 0 {
        compact_abc_defs()
    } else {
        compact_sym_defs()
    }
}

/// All keys of the current layout.
#[verifier::opaque]
pub open spec fn build_keys_spec(b: BoardModel) -> Seq<KeyModel> {
    panels_spec(b.pred.lang, b.sc, append_defs(seq![], base_defs(b)))
}

proof fn lemma_append_defs_len(keys: Seq<KeyModel>, defs: Seq<KeyDef>)
    requires
        keys.len() <= MAXKEYS,
    ensures
        append_defs(keys, defs).len() <= MAXKEYS,
    decreases defs.len(),
{
    if defs.len() > 0 {
        lemma_append_defs_len(keys, defs.drop_last());
    }
}

proof fn lemma_sc_keys_len(keys: Seq<KeyModel>, sc: Seq<ShortcutModel>, k: int)
    requires
        keys.len() <= MAXKEYS,
    ensures
        sc_keys_upto(keys, sc, k).len() <= MAXKEYS,
    decreases k,
{
    if k > 0 {
        lemma_sc_keys_len(keys, sc, k - 1);
    }
}

proof fn lemma_pin_keys_len(keys: Seq<KeyModel>, sc: Seq<ShortcutModel>, i: int)
    requires
        keys.len() <= MAXKEYS,
    ensures
        pin_keys_from(keys, sc, i).len() <= MAXKEYS,
    decreases 3 - i,
{
    if 0 <= i < 3 {
        let s = pin_slot_from(sc, i, 0, 0);
        if s >= 0 {
            lemma_pin_keys_len(push_key(keys, key_from_units(pin_label(sc[s]), Kind::Scut, s as u32, 0, 0, 0, 20, 14)), sc, i + 1);
        }
    }
}

/// Every layout fits in the key table.
proof fn lemma_build_keys_len(b: BoardModel)
    ensures
        build_keys_spec(b).len() <= MAXKEYS,
{
    reveal(build_keys_spec);
    reveal(panels_spec);
    let k0 = append_defs(seq![], base_defs(b));
    lemma_append_defs_len(seq![], base_defs(b));
    let k1 = append_defs(k0, settings_row_defs(lang_label_spec(b.pred.lang)));
    lemma_append_defs_len(k0, settings_row_defs(lang_label_spec(b.pred.lang)));
    let k2 = append_defs(k1, macros_row_defs());
    lemma_append_defs_len(k1, macros_row_defs());
    let k3 = append_defs(k2, sugg_row_defs());
    lemma_append_defs_len(k2, sugg_row_defs());
    let k4 = append_defs(k3, clip_rows_defs());
    lemma_append_defs_len(k3, clip_rows_defs());
    lemma_sc_keys_len(k4, b.sc, 10);
    let k5 = append_defs(sc_keys_upto(k4, b.sc, 10), sc_nav_defs());
    lemma_append_defs_len(sc_keys_upto(k4, b.sc, 10), sc_nav_defs());
    let k6 = push_key(k5, key_from_units(utf16_of(""@), Kind::Info, 0, 0, 0, 0, 100, 13));
    lemma_pin_keys_len(k6, b.sc, 0);
}

impl Board {
    /// Adds every panel (see `panels_spec`).
    pub fn build_panels(&mut self)
        ensures
            final(self)@ == (BoardModel { keys: panels_spec(old(self)@.pred.lang, old(self)@.sc, old(self)@.keys), ..old(self)@ }),
    {
        let ghost b0 = self@;
        self.build_settings_row();
        self.build_macros_row();
        self.build_sugg_row();
        self.build_clip_rows();
        self.build_sc_rows();
        self.build_rec_row();
        self.build_pin_row();
        assert(self@ == (BoardModel { keys: panels_spec(b0.pred.lang, b0.sc, b0.keys), ..b0 })) by {
            reveal(panels_spec);
        }
    }

    /// Builds the keys of the current layout and page, then the panels.
    pub fn build_keys(&mut self)
        ensures
            final(self)@ == (BoardModel { keys: build_keys_spec(old(self)@), ..old(self)@ }),
            old(self).wf() ==> final(self).wf(),
    {
        proof {
            crate::board::lemma_board_wf_all();
        }
        reveal(build_keys_spec);
        proof {
            lemma_build_keys_len(self@);
        }
        self.build_base();
        self.build_panels();
    }

    /// Builds the keys of the current layout and page alone.
    pub fn build_base(&mut self)
        ensures
            final(self)@ == (BoardModel { keys: append_defs(seq![], base_defs(old(self)@)), ..old(self)@ }),
    {
        if !self.compact {
            self.build_full();
        } else if self.page == 0 {
            self.build_compact_abc();
        } else {
            self.build_compact_sym();
        }
    }
}

// ---------------------------------------------------------------------------
// Rows shown
// ---------------------------------------------------------------------------

/// Whether keys of `row` are shown: the clipboard page (rows 20 to 25) and the shortcut
/// page (30 to 32) replace everything; otherwise the panels show when switched on, and the
/// key rows show except the function row of the Full layout when it is hidden.
pub open spec fn visible_row_spec(b: BoardModel, row: i32) -> bool {
    if b.view_clip {
        20 <= row <= 25
    } else if b.view_sc {
        30 <= row <= 32
    } else if row == 10 {
        b.show_settings
    } else if row == 11 {
        b.show_macros
    } else if row == 12 {
        sugg_row_on_m(b.pred)
    } else if row == 13 {
        b.rec_slot >= 0
    } else if row == 14 {
        b.pin_bar_on && star_count_spec(b.sc) > 0
    } else if row >= 20 {
        false
    } else if b.compact {
        true
    } else {
        !(row == 0 && !b.show_fn)
    }
}

/// Number of rows shown.
pub open spec fn n_rows_spec(b: BoardModel) -> int {
    if b.view_clip {
        6
    } else if b.view_sc {
        3
    } else {
        (if b.compact { 4int } else if b.show_fn { 6int } else { 5int })
            + (if b.rec_slot >= 0 { 1int } else { 0int })
            + (if b.pin_bar_on && star_count_spec(b.sc) > 0 { 1int } else { 0int })
            + (if b.show_settings || b.show_macros { 1int } else { 0int })
            + (if sugg_row_on_m(b.pred) { 1int } else { 0int })
    }
}

/// The rows shown, top to bottom.
pub open spec fn layout_rows_spec(b: BoardModel) -> Seq<i32> {
    if b.view_clip {
        seq![20i32, 21, 22, 23, 24, 25]
    } else if b.view_sc {
        seq![30i32, 31, 32]
    } else {
        panel_rows_spec(b) + key_rows_spec(b.compact, b.show_fn)
    }
}

/// The panel rows shown above the keys: recording line, settings, shortcuts, pinned strip
/// (when it has a button), suggestion strip.
pub open spec fn panel_rows_spec(b: BoardModel) -> Seq<i32> {
    (if b.rec_slot >= 0 { seq![13i32] } else { seq![] })
        + (if b.show_settings { seq![10i32] } else { seq![] })
        + (if b.show_macros { seq![11i32] } else { seq![] })
        + (if b.pin_bar_on && star_count_spec(b.sc) > 0 { seq![14i32] } else { seq![] })
        + (if sugg_row_on_m(b.pred) { seq![12i32] } else { seq![] })
}

/// The key rows: 0 to 3 in the Compact layout; 0 to 5 in the Full one, without the
/// function row 0 when it is hidden.
pub open spec fn key_rows_spec(compact: bool, show_fn: bool) -> Seq<i32> {
    if compact {
        seq![0i32, 1, 2, 3]
    } else if show_fn {
        seq![0i32, 1, 2, 3, 4, 5]
    } else {
        seq![1i32, 2, 3, 4, 5]
    }
}

impl Board {
    /// Whether the suggestion strip is shown.
    pub fn sugg_row_shown(&self) -> (r: bool)
        requires
            self.wf(),
        ensures
            r == sugg_row_on_m(self@.pred),
    {
        proof {
            crate::board::lemma_wf_pred(self@);
        }
        self.pred.sugg_row_on()
    }

    /// See `visible_row_spec`.
    pub fn visible_row(&self, row: i32) -> (r: bool)
        requires
            self.wf(),
        ensures
            r == visible_row_spec(self@, row),
    {
        if self.view_clip {
            return 20 <= row && row <= 25;
        }
        if self.view_sc {
            return 30 <= row && row <= 32;
        }
        if row == 10 {
            self.show_settings
        } else if row == 11 {
            self.show_macros
        } else if row == 12 {
            self.sugg_row_shown()
        } else if row == 13 {
            self.rec_slot >= 0
        } else if row == 14 {
            self.pin_bar_on && self.star_count() > 0
        } else if row >= 20 {
            false
        } else if self.compact {
            true
        } else {
            !(row == 0 && !self.show_fn)
        }
    }

    /// See `n_rows_spec`.
    pub fn n_rows(&self) -> (n: i32)
        requires
            self.wf(),
        ensures
            n == n_rows_spec(self@),
    {
        if self.view_clip {
            return 6;
        }
        if self.view_sc {
            return 3;
        }
        let mut n: i32 = if self.compact { 4 } else if self.show_fn { 6 } else { 5 };
        if self.rec_slot >= 0 {
            n = n + 1;
        }
        if self.pin_bar_on && self.star_count() > 0 {
            n = n + 1;
        }
        if self.show_settings || self.show_macros {
            n = n + 1;
        }
        if self.sugg_row_shown() {
            n = n + 1;
        }
        n
    }

    /// See `layout_rows_spec`.
    pub fn layout_rows(&self) -> (rows: Vec<i32>)
        requires
            self.wf(),
        ensures
            rows@ == layout_rows_spec(self@),
    {
        let mut rows: Vec<i32> = Vec::new();
        if self.view_clip {
            rows.push(20);
            rows.push(21);
            rows.push(22);
            rows.push(23);
            rows.push(24);
            rows.push(25);
            assert(rows@ =~= seq![20i32, 21, 22, 23, 24, 25]);
            return rows;
        }
        if self.view_sc {
            rows.push(30);
            rows.push(31);
            rows.push(32);
            assert(rows@ =~= seq![30i32, 31, 32]);
            return rows;
        }
        let mut p = self.panel_rows();
        let k = key_rows(self.compact, self.show_fn);
        let ghost pv = p@;
        let mut i: usize = 0;
        while i < k.len()
            invariant
                i <= k.len(),
                p@ == pv + k@.take(i as int),
            decreases k.len() - i,
        {
            p.push(k[i]);
            assert(k@.take(i + 1) =~= k@.take(i as int).push(k@[i as int]));
            i = i + 1;
        }
        assert(k@.take(k.len() as int) =~= k@);
        p
    }

    /// The panel rows shown above the keys (see `layout_rows_spec`).
    fn panel_rows(&self) -> (rows: Vec<i32>)
        requires
            self.wf(),
        ensures
            rows@ == panel_rows_spec(self@),
    {
        let mut rows: Vec<i32> = Vec::new();
        if self.rec_slot >= 0 {
            rows.push(13);
        }
        let ghost r1 = rows@;
        if self.show_settings {
            rows.push(10);
        }
        let ghost r2 = rows@;
        if self.show_macros {
            rows.push(11);
        }
        let ghost r3 = rows@;
        let pins = self.pin_bar_on && self.star_count() > 0;
        if pins {
            rows.push(14);
        }
        let ghost r4 = rows@;
        if self.sugg_row_shown() {
            rows.push(12);
        }
        assert(rows@ =~= panel_rows_spec(self@));
        rows
    }
}

/// The key rows of a layout (see `layout_rows_spec`).
fn key_rows(compact: bool, show_fn: bool) -> (rows: Vec<i32>)
    ensures
        rows@ == key_rows_spec(compact, show_fn),
{
    let mut rows: Vec<i32> = Vec::new();
    if compact || show_fn {
        rows.push(0);
    }
    rows.push(1);
    rows.push(2);
    rows.push(3);
    if !compact {
        rows.push(4);
        rows.push(5);
    }
    assert(rows@ =~= key_rows_spec(compact, show_fn));
    rows
}

// ---------------------------------------------------------------------------
// Hit testing and the top bar
// ---------------------------------------------------------------------------

/// Index of the first key from `i` on that is shown and contains the point, or -1.
pub open spec fn hit_key_from(b: BoardModel, x: i32, y: i32, i: int) -> int
    decreases b.keys.len() - i,
{
    if i < 0 || i >= b.keys.len() {
        -1
    } else if visible_row_spec(b, b.keys[i].row) && x >= b.keys[i].rc.left && x < b.keys[i].rc.right
        && y >= b.keys[i].rc.top && y < b.keys[i].rc.bottom {
        i
    } else {
        hit_key_from(b, x, y, i + 1)
    }
}

/// The id of the first shown bar button from `i` on that contains the point, or
/// `BAR_NONE`.
pub open spec fn hit_bar_from(b: BoardModel, x: i32, y: i32, i: int) -> i32
    decreases 7 - i,
{
    if i < 0 || i >= 7 {
        BAR_NONE
    } else if b.bar[i].show && x >= b.bar[i].rc.left && x < b.bar[i].rc.right && y >= b.bar[i].rc.top
        && y < b.bar[i].rc.bottom {
        b.bar[i].id
    } else {
        hit_bar_from(b, x, y, i + 1)
    }
}

impl Board {
    /// The key under the point, or -1 (see `hit_key_from`).
    pub fn hit_key(&self, x: i32, y: i32) -> (r: i32)
        requires
            self.wf(),
            self.keys.len() <= MAXKEYS,
        ensures
            r == hit_key_from(self@, x, y, 0),
    {
        let mut i: usize = 0;
        while i < self.keys.len()
            invariant
                self.wf(),
                self.keys.len() <= MAXKEYS,
                i <= self.keys.len(),
                hit_key_from(self@, x, y, 0) == hit_key_from(self@, x, y, i as int),
            decreases self.keys.len() - i,
        {
            let k = self.keys[i];
            if self.visible_row(k.row) && pt_in_rect(&k.rc, x, y) {
                return i as i32;
            }
            i = i + 1;
        }
        -1
    }

    /// The bar button under the point, or `BAR_NONE` (see `hit_bar_from`).
    pub fn hit_bar(&self, x: i32, y: i32) -> (r: i32)
        requires
            self.wf(),
        ensures
            r == hit_bar_from(self@, x, y, 0),
    {
        let mut i: usize = 0;
        while i < 7
            invariant
                self.wf(),
                i <= 7,
                hit_bar_from(self@, x, y, 0) == hit_bar_from(self@, x, y, i as int),
            decreases 7 - i,
        {
            let bb = self.bar[i];
            if bb.show && pt_in_rect(&bb.rc, x, y) {
                return bb.id;
            }
            i = i + 1;
        }
        BAR_NONE
    }
}

} // verus!
