//! What pressing a key of the keyboard does, by kind of key.
use vstd::prelude::*;
use crate::board::{
    Board, BoardModel, Kind, KeyModel, Key, Shortcut, ShortcutModel, empty_shortcut, board_wf,
    MAXSCUT, TIMER_FLASH, TIMER_HOLD, TIMER_REPEAT,
};
use crate::clip::{ClipView, pin_count_spec};
use crate::keys::{is_repeatable, is_repeatable_spec, VK_BACK, VK_SPACE, VK_CAPITAL};
use crate::layout::{build_keys_spec, star_count_spec, star_count_upto, starred, CNAV_UP, CNAV_DOWN, CNAV_CLEAR, CNAV_BACK,
    CNAV_PIN, CNAV_SDEL, CNAV_SBACK, CNAV_SSTAR};
use crate::panel::set_action_spec;
use crate::press::{capture_spec, start_record_spec, mod_key_ok};
use crate::state::{
    Out, OutModel, outs_view, push_out, toggle_mod_spec, shcap_press_spec, commit_sugg_spec,
    run_macro_spec, emit_vk_spec, key_char_spec, flush_pending_spec, double_backspace_spec,
    is_double_bksp_spec, combo_active_spec,
};

verus! {

/// A key the dispatcher can handle: a modifier key names a modifier slot.
pub open spec fn key_ok(k: KeyModel) -> bool {
    mod_key_ok(k)
}

/// The board with its keys rebuilt.
pub open spec fn rebuilt(b: BoardModel) -> BoardModel {
    BoardModel { keys: build_keys_spec(b), ..b }
}

/// A clipboard entry of the page (entry `v` from the top).  With the pin switch armed it is
/// pinned or unpinned; otherwise it is put on the clipboard and pasted with Ctrl+V.
#[verifier::opaque]
pub open spec fn clip_key_spec(b: BoardModel, v: u32) -> (BoardModel, Seq<OutModel>) {
    let hi = b.clip_off + v;
    if b.pin_arm {
        if hi < b.clip.len() {
            let c = crate::clip::toggle_pin_spec(b.clip, hi);
            (BoardModel { clip: c, clip_off: if b.clip_off >= c.len() { 0 } else { b.clip_off }, ..b }, seq![])
        } else {
            (b, seq![])
        }
    } else if hi < b.clip.len() {
        let r = run_macro_spec(b, 2, 0x56);
        (r.0, seq![OutModel::Paste(hi as usize)] + r.1)
    } else {
        (b, seq![])
    }
}

/// A navigation key of the clipboard or shortcut page: scroll by five entries, clear the
/// unpinned entries, arm the pin, delete or star switches (deleting and starring exclude each
/// other), or go back to the keys.
#[verifier::opaque]
pub open spec fn cnav_spec(b: BoardModel, v: u32) -> (BoardModel, Seq<OutModel>) {
    if v == CNAV_UP && b.clip_off > 0 {
        (BoardModel { clip_off: if b.clip_off >= 5 { (b.clip_off - 5) as usize } else { 0 }, ..b }, seq![])
    } else if v == CNAV_DOWN && b.clip_off + 5 < b.clip.len() {
        (BoardModel { clip_off: (b.clip_off + 5) as usize, ..b }, seq![])
    } else if v == CNAV_CLEAR {
        (BoardModel { clip: b.clip.take(pin_count_spec(b.clip)), clip_off: 0, ..b }, seq![])
    } else if v == CNAV_PIN {
        (BoardModel { pin_arm: !b.pin_arm, ..b }, seq![])
    } else if v == CNAV_SDEL {
        let d = !b.sc_del_arm;
        (BoardModel { sc_del_arm: d, star_arm: if d { false } else { b.star_arm }, ..b }, seq![])
    } else if v == CNAV_SSTAR {
        let t = !b.star_arm;
        (BoardModel { star_arm: t, sc_del_arm: if t { false } else { b.sc_del_arm }, ..b }, seq![])
    } else if v == CNAV_SBACK {
        (BoardModel { view_sc: false, sc_del_arm: false, star_arm: false, ..b }, seq![OutModel::Resize])
    } else if v == CNAV_BACK {
        (BoardModel { view_clip: false, pin_arm: false, pressed: -1i32, ..b }, seq![OutModel::KillTimer(TIMER_FLASH), OutModel::Resize])
    } else {
        (b, seq![])
    }
}

/// A shortcut button (slot `v`).  With the star switch armed a recorded shortcut is pinned
/// to the strip or unpinned (at most three are pinned); with the delete switch armed a used
/// slot is emptied; an empty slot starts recording; a recorded one runs.
#[verifier::opaque]
pub open spec fn scut_spec(b: BoardModel, v: u32) -> (BoardModel, Seq<OutModel>) {
    let s = v as int;
    let done = seq![OutModel::Save, OutModel::Relayout, OutModel::Resize];
    if v >= MAXSCUT {
        (b, seq![])
    } else if b.star_arm {
        if star_ok(b, s) {
            (star_flipped(b, s), done)
        } else {
            (b, seq![])
        }
    } else if b.sc_del_arm {
        if b.sc[s].used {
            (rebuilt(BoardModel { sc: b.sc.update(s, empty_shortcut()), ..b }), done)
        } else {
            (b, seq![])
        }
    } else if !b.sc[s].used || b.sc[s].vk == 0 {
        start_record_spec(b, v as i32)
    } else {
        run_macro_spec(b, b.sc[s].mods, b.sc[s].vk)
    }
}

/// A recorded shortcut can be pinned to the strip or unpinned: at most three are pinned.
pub open spec fn star_ok(b: BoardModel, s: int) -> bool {
    let e = b.sc[s];
    e.used && e.vk != 0 && !(!e.star && star_count_spec(b.sc) >= 3)
}

/// The board after slot `s` was pinned to the strip or unpinned.
pub open spec fn star_flipped(b: BoardModel, s: int) -> BoardModel {
    rebuilt(BoardModel { sc: b.sc.update(s, ShortcutModel { star: !b.sc[s].star, ..b.sc[s] }), ..b })
}

/// A page key of the Compact layout: the keys of page `v` replace the current ones.
pub open spec fn page_spec(b: BoardModel, v: u32) -> (BoardModel, Seq<OutModel>) {
    (rebuilt(BoardModel { pressed: -1i32, page: v as i32, ..b }), seq![OutModel::KillTimer(TIMER_FLASH), OutModel::Relayout])
}

/// The key starts repeating (after 450 ms) while it is held.
pub open spec fn arm_repeat(b: BoardModel, idx: i32, vk: u32) -> BoardModel {
    BoardModel { repeat_idx: idx, repeat_vk: vk, repeat_first: true, ..b }
}

/// Space: with Ctrl, Alt or Win on it is a repeating key; otherwise a word-ending
/// character typed through its key.
#[verifier::opaque]
pub open spec fn space_spec(b: BoardModel, idx: i32) -> (BoardModel, Seq<OutModel>) {
    if combo_active_spec(b) {
        let r = emit_vk_spec(arm_repeat(b, idx, VK_SPACE), VK_SPACE);
        (r.0, seq![OutModel::SetTimer(TIMER_REPEAT, 450)] + r.1)
    } else {
        key_char_spec(b, VK_SPACE, 32)
    }
}

/// A character key waits (400 ms) in case it is held for its popup; a character already
/// waiting is typed first.
#[verifier::opaque]
pub open spec fn char_press_spec(b: BoardModel, idx: i32, caps: bool) -> (BoardModel, Seq<OutModel>) {
    let r = if b.pending >= 0 { flush_pending_spec(b, caps) } else { (b, seq![]) };
    (BoardModel { pending: idx, ..r.0 }, r.1 + seq![OutModel::SetTimer(TIMER_HOLD, 400)])
}

/// A special key: a second Backspace soon after the last one erases a word; otherwise the
/// key is sent.  Repeating keys start repeating while held.
#[verifier::opaque]
pub open spec fn special_spec(b: BoardModel, vk: u32, idx: i32, now: u32) -> (BoardModel, Seq<OutModel>) {
    let rep = is_repeatable_spec(vk);
    let timer = if rep { seq![OutModel::SetTimer(TIMER_REPEAT, 450)] } else { seq![] };
    if vk == VK_BACK && is_double_bksp_spec(b, now) {
        let r = double_backspace_spec(b);
        (if rep { arm_repeat(r.0, idx, vk) } else { r.0 }, r.1 + timer)
    } else {
        let r = emit_vk_spec(if rep { arm_repeat(b, idx, vk) } else { b }, vk);
        (r.0, timer + r.1)
    }
}

/// What key `k` (at `idx`) does by its kind.
#[verifier::opaque]
pub open spec fn kind_spec(b: BoardModel, k: KeyModel, idx: i32, caps: bool, now: u32) -> (BoardModel, Seq<OutModel>) {
    match k.kind {
        Kind::Mod => toggle_mod_spec(b, k.mod_ as int),
        Kind::Shcap => shcap_press_spec(b),
        Kind::Sugg => commit_sugg_spec(b, k.vk as i32),
        Kind::Clip => clip_key_spec(b, k.vk),
        Kind::Cnav => cnav_spec(b, k.vk),
        Kind::Macro => run_macro_spec(b, k.mod_, k.vk),
        Kind::Scut => scut_spec(b, k.vk),
        Kind::Info => (b, seq![]),
        Kind::Setting => set_action_spec(b, k.vk),
        Kind::Page => page_spec(b, k.vk),
        Kind::Caps => (b, seq![OutModel::Tap(VK_CAPITAL)]),
        Kind::Space => space_spec(b, idx),
        Kind::Char => char_press_spec(b, idx, caps),
        Kind::Special => special_spec(b, k.vk, idx, now),
    }
}

/// Pressing key `idx` (`caps`: Caps Lock is on; `now`: the tick count).  While recording
/// (and no page is shown) the key goes to the recorder.  Otherwise: any key but Backspace
/// forgets the last Backspace release; a key other than a character first types the
/// character waiting for its popup; the key flashes (80 ms); then it acts by its kind.
#[verifier::opaque]
pub open spec fn press_spec(b: BoardModel, idx: i32, caps: bool, now: u32) -> (BoardModel, Seq<OutModel>) {
    let flash = seq![OutModel::SetTimer(TIMER_FLASH, 80)];
    if idx < 0 || idx >= b.keys.len() {
        (b, seq![])
    } else if b.rec_slot >= 0 && !b.view_sc && !b.view_clip {
        let r = capture_spec(b, idx as int, caps);
        (BoardModel { pressed: idx, ..r.0 }, r.1 + flash)
    } else {
        let k = b.keys[idx as int];
        let r1 = prelude_flush(b, k, caps);
        let r3 = kind_spec(BoardModel { pressed: idx, ..r1.0 }, k, idx, caps, now);
        (r3.0, r1.1 + flash + r3.1)
    }
}

impl Board {
    /// See `press_spec`.
    pub fn press_key(&mut self, idx: i32, caps: bool, now: u32, out: &mut Vec<Out>)
        requires
            old(self).wf(),
            0 <= idx < old(self)@.keys.len() ==> key_ok(old(self)@.keys[idx as int]),
        ensures
            final(self).wf(),
            final(self)@ == press_spec(old(self)@, idx, caps, now).0,
            outs_view(final(out)@) == outs_view(old(out)@) + press_spec(old(self)@, idx, caps, now).1,
    {
        reveal(press_spec);
        let ghost b0 = self@;
        let ghost o0 = outs_view(out@);
        if idx < 0 || idx as usize >= self.keys.len() {
            assert(outs_view(out@) =~= o0 + seq![]);
            return;
        }
        if self.rec_slot >= 0 && !self.view_sc && !self.view_clip {
            self.capture_key(idx as usize, caps, out);
            self.set_pressed(idx);
            push_out(out, Out::SetTimer(TIMER_FLASH, 80));
            assert(outs_view(out@) =~= o0 + press_spec(b0, idx, caps, now).1);
            return;
        }
        let k = self.keys[idx as usize];
        assert(k@ == b0.keys[idx as int]);
        self.press_prelude(k, idx, caps, out);
        let ghost o1 = outs_view(out@);
        self.press_kind(k, idx, caps, now, out);
        assert(outs_view(out@) =~= o0 + press_spec(b0, idx, caps, now).1);
    }

    fn set_pressed(&mut self, idx: i32)
        requires
            old(self).wf(),
        ensures
            final(self).wf(),
            final(self)@ == (BoardModel { pressed: idx, ..old(self)@ }),
    {
        proof {
            crate::board::lemma_board_wf_all();
        }
        self.pressed = idx;
    }

    fn set_bksp_up(&mut self, t: u32)
        requires
            old(self).wf(),
        ensures
            final(self).wf(),
            final(self)@ == (BoardModel { bksp_last_up: t, ..old(self)@ }),
    {
        proof {
            crate::board::lemma_board_wf_all();
        }
        self.bksp_last_up = t;
    }

    /// Before a key acts (see `press_spec`).
    fn press_prelude(&mut self, k: Key, idx: i32, caps: bool, out: &mut Vec<Out>)
        requires
            old(self).wf(),
        ensures
            final(self).wf(),
            final(self)@ == (BoardModel { pressed: idx, ..prelude_flush(old(self)@, k@, caps).0 }),
            outs_view(final(out)@) == outs_view(old(out)@) + prelude_flush(old(self)@, k@, caps).1
                + seq![OutModel::SetTimer(TIMER_FLASH, 80)],
    {
        let ghost o0 = outs_view(out@);
        if !(k.kind == Kind::Special && k.vk == VK_BACK) {
            self.set_bksp_up(0);
        }
        if k.kind != Kind::Char && self.pending >= 0 {
            self.flush_pending(caps, out);
        } else {
            assert(outs_view(out@) =~= o0 + seq![]);
        }
        self.set_pressed(idx);
        push_out(out, Out::SetTimer(TIMER_FLASH, 80));
    }

    /// See `kind_spec`.
    fn press_kind(&mut self, k: Key, idx: i32, caps: bool, now: u32, out: &mut Vec<Out>)
        requires
            old(self).wf(),
            key_ok(k@),
        ensures
            final(self).wf(),
            final(self)@ == kind_spec(old(self)@, k@, idx, caps, now).0,
            outs_view(final(out)@) == outs_view(old(out)@) + kind_spec(old(self)@, k@, idx, caps, now).1,
    {
        reveal(kind_spec);
        let ghost o0 = outs_view(out@);
        match k.kind {
            Kind::Mod => self.toggle_mod(k.mod_ as usize, out),
            Kind::Shcap => self.shcap_press(out),
            Kind::Sugg => self.commit_sugg(k.vk as i32, out),
            Kind::Clip => self.clip_key(k.vk, out),
            Kind::Cnav => self.cnav_key(k.vk, out),
            Kind::Macro => self.run_macro(k.mod_, k.vk, out),
            Kind::Scut => self.scut_key(k.vk, out),
            Kind::Info => {
                assert(outs_view(out@) =~= o0 + seq![]);
            },
            Kind::Setting => self.do_set_action(k.vk, out),
            Kind::Page => self.page_key(k.vk, out),
            Kind::Caps => push_out(out, Out::Tap(VK_CAPITAL)),
            Kind::Space => self.space_key(idx, out),
            Kind::Char => self.char_key(idx, caps, out),
            Kind::Special => self.special_key(k.vk, idx, now, out),
        }
    }
}

/// The flush of a waiting character before a key other than a character acts (see
/// `press_spec`).
pub open spec fn prelude_flush(b: BoardModel, k: KeyModel, caps: bool) -> (BoardModel, Seq<OutModel>) {
    let b1 = if k.kind == Kind::Special && k.vk == VK_BACK { b } else { BoardModel { bksp_last_up: 0, ..b } };
    if k.kind != Kind::Char && b1.pending >= 0 { flush_pending_spec(b1, caps) } else { (b1, seq![]) }
}

impl Board {
    /// See `clip_key_spec`.
    fn clip_key(&mut self, v: u32, out: &mut Vec<Out>)
        requires
            old(self).wf(),
        ensures
            final(self).wf(),
            final(self)@ == clip_key_spec(old(self)@, v).0,
            outs_view(final(out)@) == outs_view(old(out)@) + clip_key_spec(old(self)@, v).1,
    {
        proof {
            crate::board::lemma_board_wf_all();
        }
        reveal(clip_key_spec);
        proof {
            crate::board::lemma_board_wf_all();
        }
        let ghost o0 = outs_view(out@);
        let n = self.clips.clip.len();
        let off = self.clips.clip_off;
        let vu = v as usize;
        let fits = vu < n && off < n - vu;
        let hi = if fits { off + vu } else { n };
        assert(fits == (self@.clip_off + v < self@.clip.len()));
        if self.pin_arm {
            if fits {
                proof {
                    crate::board::lemma_history_ok(self.clips@);
                }
                self.clips.clip_toggle_pin(hi);
                proof {
                    crate::board::lemma_history_ok(self.clips@);
                }
            }
            assert(outs_view(out@) =~= o0 + seq![]);
            return;
        }
        if fits {
            push_out(out, Out::Paste(hi));
            self.run_macro(2, 0x56, out);
        } else {
            assert(outs_view(out@) =~= o0 + seq![]);
        }
    }

    /// See `cnav_spec`.
    fn cnav_key(&mut self, v: u32, out: &mut Vec<Out>)
        requires
            old(self).wf(),
        ensures
            final(self).wf(),
            final(self)@ == cnav_spec(old(self)@, v).0,
            outs_view(final(out)@) == outs_view(old(out)@) + cnav_spec(old(self)@, v).1,
    {
        proof {
            crate::board::lemma_wf_clip(self@);
        }
        let off = self.clips.clip_off;
        let n = self.clips.clip.len();
        if (v == CNAV_UP && off > 0) || (v == CNAV_DOWN && off + 5 < n) || v == CNAV_CLEAR {
            self.cnav_scroll(v);
            proof {
                reveal(cnav_spec);
            }
            assert(outs_view(out@) =~= outs_view(old(out)@) + seq![]);
        } else {
            self.cnav_switch(v, out);
        }
    }

    fn cnav_scroll(&mut self, v: u32)
        requires
            old(self).wf(),
            (v == CNAV_UP && old(self)@.clip_off > 0) || (v == CNAV_DOWN && old(self)@.clip_off + 5 < old(self)@.clip.len())
                || v == CNAV_CLEAR,
        ensures
            final(self).wf(),
            final(self)@ == cnav_spec(old(self)@, v).0,
    {
        reveal(cnav_spec);
        proof {
            crate::board::lemma_wf_clip(self@);
        }
        let off = self.clips.clip_off;
        if v == CNAV_UP && off > 0 {
            let n = if off >= 5 { off - 5 } else { 0 };
            self.scroll_clips(n);
        } else if v == CNAV_DOWN && off + 5 < self.clips.clip.len() {
            self.scroll_clips(off + 5);
        } else {
            self.clear_unpinned();
        }
    }

    fn scroll_clips(&mut self, n: usize)
        requires
            old(self).wf(),
            n <= crate::clip::MAXCLIP,
        ensures
            final(self).wf(),
            final(self)@ == (BoardModel { clip_off: n, ..old(self)@ }),
    {
        proof {
            crate::board::lemma_board_wf_all();
        }
        self.clips.scroll_to(n);
    }

    fn clear_unpinned(&mut self)
        requires
            old(self).wf(),
        ensures
            final(self).wf(),
            final(self)@ == (BoardModel { clip: old(self)@.clip.take(pin_count_spec(old(self)@.clip)), clip_off: 0, ..old(self)@ }),
    {
        proof {
            crate::board::lemma_board_wf_all();
            crate::board::lemma_history_ok(self.clips@);
        }
        self.clips.clip_clear_unpinned();
        proof {
            crate::board::lemma_history_ok(self.clips@);
        }
    }

    fn cnav_switch(&mut self, v: u32, out: &mut Vec<Out>)
        requires
            old(self).wf(),
            !((v == CNAV_UP && old(self)@.clip_off > 0) || (v == CNAV_DOWN && old(self)@.clip_off + 5 < old(self)@.clip.len())
                || v == CNAV_CLEAR),
        ensures
            final(self).wf(),
            final(self)@ == cnav_spec(old(self)@, v).0,
            outs_view(final(out)@) == outs_view(old(out)@) + cnav_spec(old(self)@, v).1,
    {
        if v == CNAV_PIN || v == CNAV_SDEL || v == CNAV_SSTAR {
            self.cnav_arm(v);
            proof {
                reveal(cnav_spec);
            }
            assert(outs_view(out@) =~= outs_view(old(out)@) + seq![]);
        } else {
            self.cnav_close(v, out);
        }
    }

    fn cnav_arm(&mut self, v: u32)
        requires
            old(self).wf(),
            !((v == CNAV_UP && old(self)@.clip_off > 0) || (v == CNAV_DOWN && old(self)@.clip_off + 5 < old(self)@.clip.len())
                || v == CNAV_CLEAR),
            v == CNAV_PIN || v == CNAV_SDEL || v == CNAV_SSTAR,
        ensures
            final(self).wf(),
            final(self)@ == cnav_spec(old(self)@, v).0,
    {
        reveal(cnav_spec);
        if v == CNAV_PIN {
            let a = !self.pin_arm;
            self.set_arms(a, self.sc_del_arm, self.star_arm);
        } else if v == CNAV_SDEL {
            let d = !self.sc_del_arm;
            let t = if d { false } else { self.star_arm };
            self.set_arms(self.pin_arm, d, t);
        } else {
            let t = !self.star_arm;
            let d = if t { false } else { self.sc_del_arm };
            self.set_arms(self.pin_arm, d, t);
        }
    }

    fn cnav_close(&mut self, v: u32, out: &mut Vec<Out>)
        requires
            old(self).wf(),
            !((v == CNAV_UP && old(self)@.clip_off > 0) || (v == CNAV_DOWN && old(self)@.clip_off + 5 < old(self)@.clip.len())
                || v == CNAV_CLEAR || v == CNAV_PIN || v == CNAV_SDEL || v == CNAV_SSTAR),
        ensures
            final(self).wf(),
            final(self)@ == cnav_spec(old(self)@, v).0,
            outs_view(final(out)@) == outs_view(old(out)@) + cnav_spec(old(self)@, v).1,
    {
        reveal(cnav_spec);
        let ghost o0 = outs_view(out@);
        if v == CNAV_SBACK {
            self.close_sc_page();
            push_out(out, Out::Resize);
        } else if v == CNAV_BACK {
            self.close_clip_page();
            push_out(out, Out::KillTimer(TIMER_FLASH));
            push_out(out, Out::Resize);
        }
        assert(outs_view(out@) =~= o0 + cnav_spec(old(self)@, v).1);
    }

    fn set_arms(&mut self, pin: bool, del: bool, star: bool)
        requires
            old(self).wf(),
        ensures
            final(self).wf(),
            final(self)@ == (BoardModel { pin_arm: pin, sc_del_arm: del, star_arm: star, ..old(self)@ }),
    {
        proof {
            crate::board::lemma_board_wf_all();
        }
        self.pin_arm = pin;
        self.sc_del_arm = del;
        self.star_arm = star;
    }

    fn close_sc_page(&mut self)
        requires
            old(self).wf(),
        ensures
            final(self).wf(),
            final(self)@ == (BoardModel { view_sc: false, sc_del_arm: false, star_arm: false, ..old(self)@ }),
    {
        proof {
            crate::board::lemma_board_wf_all();
        }
        self.view_sc = false;
        self.sc_del_arm = false;
        self.star_arm = false;
    }

    fn close_clip_page(&mut self)
        requires
            old(self).wf(),
        ensures
            final(self).wf(),
            final(self)@ == (BoardModel { view_clip: false, pin_arm: false, pressed: -1i32, ..old(self)@ }),
    {
        proof {
            crate::board::lemma_board_wf_all();
        }
        self.view_clip = false;
        self.pin_arm = false;
        self.pressed = -1;
    }

    /// See `scut_spec`.
    fn scut_key(&mut self, v: u32, out: &mut Vec<Out>)
        requires
            old(self).wf(),
        ensures
            final(self).wf(),
            final(self)@ == scut_spec(old(self)@, v).0,
            outs_view(final(out)@) == outs_view(old(out)@) + scut_spec(old(self)@, v).1,
    {
        if v as usize >= MAXSCUT {
            proof {
                reveal(scut_spec);
            }
            assert(outs_view(out@) =~= outs_view(old(out)@) + seq![]);
            return;
        }
        if self.star_arm {
            self.scut_star(v as usize, out);
        } else if self.sc_del_arm {
            self.scut_delete(v as usize, out);
        } else {
            self.scut_use(v as usize, out);
        }
    }

    fn scut_star(&mut self, s: usize, out: &mut Vec<Out>)
        requires
            old(self).wf(),
            s < MAXSCUT,
            old(self)@.star_arm,
        ensures
            final(self).wf(),
            final(self)@ == scut_spec(old(self)@, s as u32).0,
            outs_view(final(out)@) == outs_view(old(out)@) + scut_spec(old(self)@, s as u32).1,
    {
        reveal(scut_spec);
        if self.star_ok(s) {
            self.flip_star(s, out);
        } else {
            assert(outs_view(out@) =~= outs_view(old(out)@) + seq![]);
        }
    }

    /// See `star_ok`.
    fn star_ok(&self, s: usize) -> (r: bool)
        requires
            self.wf(),
            s < MAXSCUT,
        ensures
            r == star_ok(self@, s as int),
    {
        let e = self.sc[s];
        assert(e@ == self@.sc[s as int]);
        let n = self.star_count();
        e.used && e.vk != 0 && !(!e.star && n >= 3)
    }

    /// Pins slot `s` to the strip or unpins it, then stores and rebuilds.
    fn flip_star(&mut self, s: usize, out: &mut Vec<Out>)
        requires
            old(self).wf(),
            s < MAXSCUT,
        ensures
            final(self).wf(),
            final(self)@ == star_flipped(old(self)@, s as int),
            outs_view(final(out)@) == outs_view(old(out)@) + seq![OutModel::Save, OutModel::Relayout, OutModel::Resize],
    {
        let mut f = self.sc[s];
        assert(f@ == old(self)@.sc[s as int]);
        f.star = !f.star;
        self.set_slot(s, f);
        self.rebuild(out);
    }

    fn scut_delete(&mut self, s: usize, out: &mut Vec<Out>)
        requires
            old(self).wf(),
            s < MAXSCUT,
            !old(self)@.star_arm,
            old(self)@.sc_del_arm,
        ensures
            final(self).wf(),
            final(self)@ == scut_spec(old(self)@, s as u32).0,
            outs_view(final(out)@) == outs_view(old(out)@) + scut_spec(old(self)@, s as u32).1,
    {
        reveal(scut_spec);
        let e = self.sc[s];
        assert(e@ == old(self)@.sc[s as int]);
        if e.used {
            self.set_slot(s, Shortcut::new());
            self.rebuild(out);
        } else {
            assert(outs_view(out@) =~= outs_view(old(out)@) + seq![]);
        }
    }

    fn scut_use(&mut self, s: usize, out: &mut Vec<Out>)
        requires
            old(self).wf(),
            s < MAXSCUT,
            !old(self)@.star_arm,
            !old(self)@.sc_del_arm,
        ensures
            final(self).wf(),
            final(self)@ == scut_spec(old(self)@, s as u32).0,
            outs_view(final(out)@) == outs_view(old(out)@) + scut_spec(old(self)@, s as u32).1,
    {
        reveal(scut_spec);
        let e = self.sc[s];
        assert(e@ == old(self)@.sc[s as int]);
        if !e.used || e.vk == 0 {
            self.start_record(s as i32, out);
        } else {
            self.run_macro(e.mods, e.vk, out);
        }
    }

    /// Stores the settings and rebuilds the keys.
    fn rebuild(&mut self, out: &mut Vec<Out>)
        requires
            old(self).wf(),
        ensures
            final(self).wf(),
            final(self)@ == rebuilt(old(self)@),
            outs_view(final(out)@) == outs_view(old(out)@) + seq![OutModel::Save, OutModel::Relayout, OutModel::Resize],
    {
        let ghost o0 = outs_view(out@);
        push_out(out, Out::Save);
        self.build_keys();
        push_out(out, Out::Relayout);
        push_out(out, Out::Resize);
        assert(outs_view(out@) =~= o0 + seq![OutModel::Save, OutModel::Relayout, OutModel::Resize]);
    }

    /// See `page_spec`.
    fn page_key(&mut self, v: u32, out: &mut Vec<Out>)
        requires
            old(self).wf(),
        ensures
            final(self).wf(),
            final(self)@ == page_spec(old(self)@, v).0,
            outs_view(final(out)@) == outs_view(old(out)@) + page_spec(old(self)@, v).1,
    {
        proof {
            crate::board::lemma_board_wf_all();
        }
        let ghost o0 = outs_view(out@);
        self.set_page(v as i32);
        push_out(out, Out::KillTimer(TIMER_FLASH));
        self.build_keys();
        push_out(out, Out::Relayout);
        assert(outs_view(out@) =~= o0 + seq![OutModel::KillTimer(TIMER_FLASH), OutModel::Relayout]);
    }

    fn set_page(&mut self, pg: i32)
        requires
            old(self).wf(),
        ensures
            final(self).wf(),
            final(self)@ == (BoardModel { pressed: -1i32, page: pg, ..old(self)@ }),
    {
        proof {
            crate::board::lemma_board_wf_all();
        }
        self.pressed = -1;
        self.page = pg;
    }

    fn arm_repeat(&mut self, idx: i32, vk: u32)
        requires
            old(self).wf(),
        ensures
            final(self).wf(),
            final(self)@ == arm_repeat(old(self)@, idx, vk),
    {
        proof {
            crate::board::lemma_board_wf_all();
        }
        self.repeat_idx = idx;
        self.repeat_vk = vk;
        self.repeat_first = true;
    }

    /// See `space_spec`.
    fn space_key(&mut self, idx: i32, out: &mut Vec<Out>)
        requires
            old(self).wf(),
        ensures
            final(self).wf(),
            final(self)@ == space_spec(old(self)@, idx).0,
            outs_view(final(out)@) == outs_view(old(out)@) + space_spec(old(self)@, idx).1,
    {
        reveal(space_spec);
        let ghost o0 = outs_view(out@);
        if self.combo_active() {
            self.arm_repeat(idx, VK_SPACE);
            push_out(out, Out::SetTimer(TIMER_REPEAT, 450));
            self.emit_vk(VK_SPACE, out);
            assert(outs_view(out@) =~= o0 + space_spec(old(self)@, idx).1);
        } else {
            self.emit_vk_char(VK_SPACE, 32, out);
            proof {
                reveal(crate::state::emit_vk_char_spec);
            }
        }
    }

    /// See `char_press_spec`.
    fn char_key(&mut self, idx: i32, caps: bool, out: &mut Vec<Out>)
        requires
            old(self).wf(),
        ensures
            final(self).wf(),
            final(self)@ == char_press_spec(old(self)@, idx, caps).0,
            outs_view(final(out)@) == outs_view(old(out)@) + char_press_spec(old(self)@, idx, caps).1,
    {
        proof {
            crate::board::lemma_board_wf_all();
        }
        reveal(char_press_spec);
        let ghost o0 = outs_view(out@);
        if self.pending >= 0 {
            self.flush_pending(caps, out);
        } else {
            assert(outs_view(out@) =~= o0 + seq![]);
        }
        self.set_pending_idx(idx);
        push_out(out, Out::SetTimer(TIMER_HOLD, 400));
    }

    fn set_pending_idx(&mut self, v: i32)
        requires
            old(self).wf(),
        ensures
            final(self).wf(),
            final(self)@ == (BoardModel { pending: v, ..old(self)@ }),
    {
        proof {
            crate::board::lemma_board_wf_all();
        }
        self.pending = v;
    }

    /// See `special_spec`.
    fn special_key(&mut self, vk: u32, idx: i32, now: u32, out: &mut Vec<Out>)
        requires
            old(self).wf(),
        ensures
            final(self).wf(),
            final(self)@ == special_spec(old(self)@, vk, idx, now).0,
            outs_view(final(out)@) == outs_view(old(out)@) + special_spec(old(self)@, vk, idx, now).1,
    {
        reveal(special_spec);
        let ghost o0 = outs_view(out@);
        let rep = is_repeatable(vk);
        if vk == VK_BACK && self.is_double_bksp(now) {
            self.double_backspace(out);
            if rep {
                self.arm_repeat(idx, vk);
                push_out(out, Out::SetTimer(TIMER_REPEAT, 450));
            }
            assert(outs_view(out@) =~= o0 + special_spec(old(self)@, vk, idx, now).1);
            return;
        }
        if rep {
            self.arm_repeat(idx, vk);
            push_out(out, Out::SetTimer(TIMER_REPEAT, 450));
        }
        self.emit_vk(vk, out);
        assert(outs_view(out@) =~= o0 + special_spec(old(self)@, vk, idx, now).1);
    }
}

// ---------------------------------------------------------------------------
// Laws of the pinned-shortcut strip
// ---------------------------------------------------------------------------

proof fn lemma_star_count_update(sc: Seq<ShortcutModel>, s: int, x: ShortcutModel, k: int)
    requires
        0 <= s < sc.len(),
        0 <= k <= sc.len(),
    ensures
        star_count_upto(sc.update(s, x), k) == star_count_upto(sc, k) + (if s < k {
            (if starred(x) { 1int } else { 0int }) - (if starred(sc[s]) { 1int } else { 0int })
        } else {
            0int
        }),
    decreases k,
{
    if k > 0 {
        lemma_star_count_update(sc, s, x, k - 1);
    }
}

/// With the star switch on, tapping a slot never leaves more than three slots on the
/// pinned strip: a fourth is refused.
pub proof fn lemma_star_cap(b: BoardModel, v: u32)
    requires
        b.sc.len() == MAXSCUT,
        b.star_arm,
        star_count_spec(b.sc) <= 3,
    ensures
        star_count_spec(scut_spec(b, v).0.sc) <= 3,
{
    reveal(scut_spec);
    if v < MAXSCUT && star_ok(b, v as int) {
        let s = v as int;
        lemma_star_count_update(b.sc, s, ShortcutModel { star: !b.sc[s].star, ..b.sc[s] }, 10);
    }
}

/// With the star switch on, tapping a slot twice takes it off the strip again (or puts it
/// back): the slots are as before.
pub proof fn lemma_star_twice(b: BoardModel, v: u32)
    requires
        b.sc.len() == MAXSCUT,
        b.star_arm,
        star_count_spec(b.sc) <= 3,
        v < MAXSCUT,
        star_ok(b, v as int),
    ensures
        scut_spec(scut_spec(b, v).0, v).0.sc == b.sc,
{
    reveal(scut_spec);
    let s = v as int;
    let e = b.sc[s];
    let f = ShortcutModel { star: !e.star, ..e };
    let b1 = scut_spec(b, v).0;
    lemma_star_count_update(b.sc, s, f, 10);
    assert(b1.sc == b.sc.update(s, f));
    assert(star_ok(b1, s));
    assert(b1.sc.update(s, ShortcutModel { star: !f.star, ..f }) =~= b.sc);
}

/// Tapping clipboard button `v` with the pin switch off pastes the entry that the page
/// shows on that button, history entry `clip_off + v` (and then sends Ctrl+V); scrolling
/// down one page first makes the same button paste the entry five further down.
pub proof fn lemma_clip_key_pastes_shown_entry(b: BoardModel, v: u32)
    requires
        board_wf(b),
        !b.pin_arm,
        b.clip_off + v < b.clip.len(),
    ensures
        clip_key_spec(b, v).1.len() > 0,
        clip_key_spec(b, v).1[0] == OutModel::Paste((b.clip_off + v) as usize),
        b.clip_off + 5 + v < b.clip.len() ==> clip_key_spec(cnav_spec(b, CNAV_DOWN).0, v).1.len() > 0
            && clip_key_spec(cnav_spec(b, CNAV_DOWN).0, v).1[0] == OutModel::Paste((b.clip_off + 5 + v) as usize),
{
    reveal(clip_key_spec);
    reveal(cnav_spec);
    if b.clip_off + 5 + v < b.clip.len() {
        let b2 = cnav_spec(b, CNAV_DOWN).0;
        crate::board::lemma_board_wf(b);
        crate::board::lemma_history_ok(b.clip);
        assert(b.clip_off + 5 < b.clip.len());
        assert(b2 == BoardModel { clip_off: (b.clip_off + 5) as usize, ..b });
        assert(b2.clip_off == b.clip_off + 5);
        assert(!b2.pin_arm && b2.clip == b.clip);
    }
}

/// Tapping clipboard button `v` with the pin switch on pins or unpins the entry that the
/// page shows on that button, history entry `clip_off + v`, and sends nothing.
pub proof fn lemma_clip_key_pins_shown_entry(b: BoardModel, v: u32)
    requires
        b.pin_arm,
        b.clip_off + v < b.clip.len(),
    ensures
        clip_key_spec(b, v).0.clip == crate::clip::toggle_pin_spec(b.clip, b.clip_off + v),
        clip_key_spec(b, v).1.len() == 0,
{
    reveal(clip_key_spec);
}

} // verus!
