//! How keys look: the shade of each key, and the preview line of a clipboard entry.
use vstd::prelude::*;
use crate::board::{Board, BoardModel, Kind, KeyModel, ShortcutModel, M_HELD, M_LOCKED, M_OFF, MX_SHIFT, MAXSCUT};
use crate::layout::{SET_PRED, SET_AUTO, SET_SPELL, SET_BIGRAM, SET_PINBAR, SET_PINWIN, CNAV_PIN, CNAV_SDEL};
use crate::press::mod_key_ok;
use crate::text::{zstr, zero_prefix};

verus! {

/// The background of a key.
#[derive(Clone, Copy, Debug, PartialEq, Eq, Structural)]
pub enum Shade {
    /// A character key.
    Plain,
    /// Any other key.
    Special,
    /// A modifier held for the next key (light, with dark text).
    Held,
    /// Something locked or switched on.
    Locked,
}

/// A key's look: its shade, whether its text is dark, and whether it is flashing pressed.
#[derive(Clone, Copy)]
pub struct KeyLook {
    pub shade: Shade,
    pub dark_text: bool,
    pub pressed: bool,
}

/// The kinds of key drawn on the darker background.
pub open spec fn special_kind(k: Kind) -> bool {
    k == Kind::Special || k == Kind::Caps || k == Kind::Mod || k == Kind::Page || k == Kind::Macro
        || k == Kind::Setting || k == Kind::Cnav || k == Kind::Shcap
}

/// Whether setting button `vk` shows as on (`pin_on`: the target window is pinned).
pub open spec fn setting_on(b: BoardModel, vk: u32, pin_on: bool) -> bool {
    if vk == SET_PRED {
        b.pred.predict_on
    } else if vk == SET_AUTO {
        b.pred.autocorrect
    } else if vk == SET_SPELL {
        b.pred.highlight_on
    } else if vk == SET_BIGRAM {
        b.pred.bigram_on
    } else if vk == SET_PINBAR {
        b.pin_bar_on
    } else if vk == SET_PINWIN {
        pin_on
    } else {
        false
    }
}

/// The shade and text colour of key `k` before the pressed flash: a held modifier is
/// light, a locked one dark blue, as is a modifier picked for the shortcut being recorded;
/// Caps, the Shift/Caps key and the setting buttons show their state; the pin and delete
/// switches of the page show when armed.
pub open spec fn key_shade(b: BoardModel, k: KeyModel, caps: bool, pin_on: bool) -> (Shade, bool) {
    let base = if special_kind(k.kind) { Shade::Special } else { Shade::Plain };
    if k.kind == Kind::Mod {
        let v = b.mods[k.mod_ as int];
        if v == M_HELD {
            (Shade::Held, true)
        } else if v == M_LOCKED {
            (Shade::Locked, false)
        } else if b.rec_slot >= 0 && b.rec_step == 0 && b.rec_mods & (1i32 << k.mod_) != 0 {
            (Shade::Locked, false)
        } else {
            (base, false)
        }
    } else if k.kind == Kind::Caps {
        if caps { (Shade::Locked, false) } else { (base, false) }
    } else if k.kind == Kind::Shcap {
        if caps || b.mods[MX_SHIFT as int] == M_LOCKED {
            (Shade::Locked, false)
        } else if b.mods[MX_SHIFT as int] != M_OFF {
            (Shade::Held, true)
        } else {
            (base, false)
        }
    } else if k.kind == Kind::Setting {
        if setting_on(b, k.vk, pin_on) { (Shade::Locked, false) } else { (base, false) }
    } else if k.kind == Kind::Cnav && ((k.vk == CNAV_PIN && b.pin_arm) || (k.vk == CNAV_SDEL && b.sc_del_arm)) {
        (Shade::Locked, false)
    } else {
        (base, false)
    }
}

/// The look of key `i` with Caps Lock `caps` on or off.
pub open spec fn key_look_spec(b: BoardModel, i: int, caps: bool, pin_on: bool) -> KeyLook {
    let s = key_shade(b, b.keys[i], caps, pin_on);
    KeyLook { shade: s.0, dark_text: s.1, pressed: i == b.pressed }
}

impl Board {
    /// See `key_look_spec`.
    pub fn key_look(&self, i: usize, caps: bool, pin_on: bool) -> (r: KeyLook)
        requires
            self.wf(),
            i < self@.keys.len(),
            mod_key_ok(self@.keys[i as int]),
        ensures
            r == key_look_spec(self@, i as int, caps, pin_on),
    {
        proof {
            crate::board::lemma_board_wf(self@);
            crate::board::lemma_wf_pred(self@);
        }
        let k = &self.keys[i];
        let (l0, p0, a0, h0, g0) = self.pred.switches();
        let base = if k.kind == Kind::Special || k.kind == Kind::Caps || k.kind == Kind::Mod || k.kind == Kind::Page
            || k.kind == Kind::Macro || k.kind == Kind::Setting || k.kind == Kind::Cnav || k.kind == Kind::Shcap {
            Shade::Special
        } else {
            Shade::Plain
        };
        let (shade, dark) = if k.kind == Kind::Mod {
            let v = self.mods[k.mod_ as usize];
            if v == M_HELD {
                (Shade::Held, true)
            } else if v == M_LOCKED {
                (Shade::Locked, false)
            } else if self.rec_slot >= 0 && self.rec_step == 0 && self.rec_mods & (1i32 << k.mod_) != 0 {
                (Shade::Locked, false)
            } else {
                (base, false)
            }
        } else if k.kind == Kind::Caps {
            if caps { (Shade::Locked, false) } else { (base, false) }
        } else if k.kind == Kind::Shcap {
            if caps || self.mods[MX_SHIFT] == M_LOCKED {
                (Shade::Locked, false)
            } else if self.mods[MX_SHIFT] != M_OFF {
                (Shade::Held, true)
            } else {
                (base, false)
            }
        } else if k.kind == Kind::Setting {
            let on = if k.vk == SET_PRED {
                p0
            } else if k.vk == SET_AUTO {
                a0
            } else if k.vk == SET_SPELL {
                h0
            } else if k.vk == SET_BIGRAM {
                g0
            } else if k.vk == SET_PINBAR {
                self.pin_bar_on
            } else if k.vk == SET_PINWIN {
                pin_on
            } else {
                false
            };
            if on { (Shade::Locked, false) } else { (base, false) }
        } else if k.kind == Kind::Cnav && ((k.vk == CNAV_PIN && self.pin_arm) || (k.vk == CNAV_SDEL && self.sc_del_arm)) {
            (Shade::Locked, false)
        } else {
            (base, false)
        };
        KeyLook { shade: shade, dark_text: dark, pressed: i as i32 == self.pressed }
    }
}

// ---------------------------------------------------------------------------
// Clipboard preview
// ---------------------------------------------------------------------------

/// Units of a preview line.
pub const PREVIEW_MAX: usize = 28;

/// A unit as shown in a preview: line breaks, tabs and control units become spaces.
pub open spec fn shown_unit(c: u16) -> u16 {
    if c < 0x20 || (0x7F <= c < 0xA0) { 32 } else { c }
}

/// The preview built from units `j..n` of `t` onto `acc`: units shown one by one, a
/// surrogate pair only whole and only when both fit, a lone surrogate left out, stopping
/// once 28 units are shown.
pub open spec fn preview_from(t: Seq<u16>, n: int, j: int, acc: Seq<u16>) -> Seq<u16>
    decreases n - j,
{
    if j < 0 || j >= n || acc.len() >= PREVIEW_MAX {
        acc
    } else {
        let c = shown_unit(t[j]);
        if 0xD800 <= c <= 0xDBFF && j + 1 < n && 0xDC00 <= t[j + 1] <= 0xDFFF {
            if acc.len() + 2 > PREVIEW_MAX {
                acc
            } else {
                preview_from(t, n, j + 2, acc.push(c).push(t[j + 1]))
            }
        } else if 0xD800 <= c <= 0xDFFF {
            preview_from(t, n, j + 1, acc)
        } else {
            preview_from(t, n, j + 1, acc.push(c))
        }
    }
}

/// The one-line preview of a clipboard text (up to its first zero): at most 28 units, then
/// an ellipsis when the text is longer than 28 units.
pub open spec fn preview_spec(t: Seq<u16>) -> Seq<u16> {
    let n = zstr(t).len() as int;
    let p = preview_from(t, n, 0, seq![]);
    if n > PREVIEW_MAX { p.push(0x2026u16) } else { p }
}

/// See `preview_spec`.
pub fn clip_preview(t: &[u16]) -> (v: Vec<u16>)
    ensures
        v@ == preview_spec(t@),
{
    let z = crate::text::zero_prefix(t);
    let n = z.len();
    proof {
        crate::text::lemma_zstr_no_zero(t@);
    }
    let mut acc: Vec<u16> = Vec::new();
    let mut j: usize = 0;
    while j < n && acc.len() < PREVIEW_MAX
        invariant
            n == zstr(t@).len(),
            n <= t.len(),
            j <= n + 1,
            acc.len() <= PREVIEW_MAX,
            preview_from(t@, n as int, j as int, acc@) == preview_from(t@, n as int, 0, seq![]),
        ensures
            preview_from(t@, n as int, j as int, acc@) == acc@,
            preview_from(t@, n as int, 0, seq![]) == acc@,
            acc.len() <= PREVIEW_MAX,
        decreases n + 1 - j,
    {
        let c0 = t[j];
        let c = if c0 < 0x20 || (0x7F <= c0 && c0 < 0xA0) { 32u16 } else { c0 };
        if 0xD800 <= c && c <= 0xDBFF && j + 1 < n && 0xDC00 <= t[j + 1] && t[j + 1] <= 0xDFFF {
            if acc.len() + 2 > PREVIEW_MAX {
                break;
            }
            acc.push(c);
            acc.push(t[j + 1]);
            j = j + 2;
        } else if 0xD800 <= c && c <= 0xDFFF {
            j = j + 1;
        } else {
            acc.push(c);
            j = j + 1;
        }
    }
    if n > PREVIEW_MAX {
        acc.push(0x2026u16);
    }
    acc
}

// ---------------------------------------------------------------------------
// Shortcut labels
// ---------------------------------------------------------------------------

/// The text drawn on a shortcut button: a used, named slot shows its name, a starred one
/// as ★ and the first 8 units of its name; `None` for a slot to record, drawn as a dim "+".
pub open spec fn scut_text_spec(e: ShortcutModel) -> Option<Seq<u16>> {
    if e.used && e.name[0] != 0 {
        Some(if e.star { seq![0x2605u16] + zstr(e.name.take(8)) } else { zstr(e.name) })
    } else {
        None
    }
}

impl Board {
    /// See `scut_text_spec`: the text of slot `s`'s button.
    pub fn scut_text(&self, s: usize) -> (r: Option<Vec<u16>>)
        requires
            self.wf(),
            s < MAXSCUT,
        ensures
            match scut_text_spec(self@.sc[s as int]) {
                None => r is None,
                Some(t) => r matches Some(v) && v@ == t,
            },
    {
        proof {
            crate::board::lemma_board_wf(self@);
        }
        let e = &self.sc[s];
        if !(e.used && e.name[0] != 0) {
            return None;
        }
        if e.star {
            let head: [u16; 8] = [e.name[0], e.name[1], e.name[2], e.name[3], e.name[4], e.name[5], e.name[6], e.name[7]];
            assert(head@ =~= e.name@.take(8));
            let z = zero_prefix(&head);
            let mut v: Vec<u16> = Vec::new();
            v.push(0x2605u16);
            let mut i: usize = 0;
            while i < z.len()
                invariant
                    i <= z.len(),
                    v@ == seq![0x2605u16] + z@.take(i as int),
                decreases z.len() - i,
            {
                v.push(z[i]);
                assert(z@.take(i + 1) =~= z@.take(i as int).push(z@[i as int]));
                i = i + 1;
            }
            assert(z@.take(z.len() as int) =~= z@);
            Some(v)
        } else {
            Some(zero_prefix(&e.name))
        }
    }
}

} // verus!
