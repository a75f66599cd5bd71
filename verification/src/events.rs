//! The keyboard's answers to the host's events: the pointer going down, moving and coming
//! up, its timers, and the hold popup of character keys.
use vstd::prelude::*;
use crate::board::{
    Board, BoardModel, Kind, KeyModel, Rect, board_wf, BAR_NONE, MAXKEYS, TIMER_FLASH, TIMER_HOLD,
    TIMER_REPEAT, TIMER_SHCAP,
};
use crate::input::{press_spec, key_ok};
use crate::layout::{hit_key_from, hit_bar_from, visible_row_spec};
use crate::keys::VK_BACK;
use crate::panel::bar_spec;
use crate::state::{Out, OutModel, outs_view, push_out, resolve_popup_spec, flush_pending_spec};

verus! {

// ---------------------------------------------------------------------------
// The hold popup
// ---------------------------------------------------------------------------

/// A coordinate far from any machine limit.
pub open spec fn coord_ok(v: int) -> bool {
    -1_000_000 <= v <= 1_000_000
}

pub open spec fn rect_ok(r: Rect) -> bool {
    coord_ok(r.left as int) && coord_ok(r.top as int) && coord_ok(r.right as int) && coord_ok(r.bottom as int)
}

/// The alternative character a held character key offers: its tag, else its shifted
/// character when that differs; 0 for none.
pub open spec fn popup_alt(k: KeyModel) -> u16 {
    if k.tag != 0 { k.tag } else if k.hi != k.lo { k.hi } else { 0 }
}

/// Division by 2 rounding toward zero.
pub open spec fn half(v: int) -> int {
    if v >= 0 { v / 2 } else { -((-v) / 2) }
}

/// The popup's two cells (base character, alternative) for a key at `rc`, in a client area
/// `cw` wide under a bar `bh` high: cells at least 52 wide and as high as the key, centred
/// over the key but kept 6 pixels inside the sides, above the key unless that would cover
/// the bar, then below it.
pub open spec fn popup_cells(rc: Rect, cw: i32, bh: i32) -> (Rect, Rect) {
    let w = if rc.right - rc.left < 52 { 52 } else { rc.right - rc.left };
    let h = rc.bottom - rc.top;
    let cx = half(rc.left + rc.right);
    let xa = if cx - w < 6 { 6 } else { cx - w };
    let x0 = if xa + w * 2 > cw - 6 { cw - 6 - w * 2 } else { xa };
    let below = rc.top - 4 - h < bh + 2;
    let y0 = if below { rc.bottom + 4 } else { rc.top - 4 - h };
    let y1 = if below { rc.bottom + 4 + h } else { rc.top - 4 };
    (
        Rect { left: x0 as i32, top: y0 as i32, right: (x0 + w) as i32, bottom: y1 as i32 },
        Rect { left: (x0 + w) as i32, top: y0 as i32, right: (x0 + w * 2) as i32, bottom: y1 as i32 },
    )
}

/// Holding character key `idx`: when it has an alternative character, the popup opens with
/// the base character and the alternative, nothing under the pointer yet.
pub open spec fn show_popup_spec(b: BoardModel, idx: i32, cw: i32, bh: i32) -> BoardModel {
    if idx < 0 || idx >= b.keys.len() || b.keys[idx as int].kind != Kind::Char || popup_alt(b.keys[idx as int]) == 0 {
        b
    } else {
        popup_state(b, idx, b.keys[idx as int], cw, bh)
    }
}

/// The area the popup covers: both cells, two pixels wider.
pub open spec fn popup_all(c0: Rect, c1: Rect) -> Rect {
    Rect { left: (c0.left - 2) as i32, top: (c0.top - 2) as i32, right: (c1.right + 2) as i32, bottom: (c0.bottom + 2) as i32 }
}

/// The board with the popup of key `k` (at `idx`) open.
pub open spec fn popup_state(b: BoardModel, idx: i32, k: KeyModel, cw: i32, bh: i32) -> BoardModel {
    let c = popup_cells(k.rc, cw, bh);
    BoardModel {
        pop_base: k.lo,
        pop_alt: popup_alt(k),
        hold_popup: idx,
        pop_hover: -1i32,
        pop_rc: seq![c.0, c.1],
        pop_all: popup_all(c.0, c.1),
        ..b
    }
}

/// The popup cells (see `popup_cells`) and the area they cover, two pixels wider.
#[verifier::spinoff_prover]
fn popup_rects(rc: Rect, cw: i32, bh: i32) -> (r: (Rect, Rect, Rect))
    requires
        rect_ok(rc),
        coord_ok(cw as int),
        coord_ok(bh as int),
    ensures
        (r.0, r.1) == popup_cells(rc, cw, bh),
        r.2 == popup_all(r.0, r.1),
{
    let mut w = rc.right - rc.left;
    if w < 52 {
        w = 52;
    }
    let h = rc.bottom - rc.top;
    let sum = rc.left + rc.right;
    let cx = if sum >= 0 { sum / 2 } else { -((-sum) / 2) };
    let mut x0 = cx - w;
    if x0 < 6 {
        x0 = 6;
    }
    if x0 + w * 2 > cw - 6 {
        x0 = cw - 6 - w * 2;
    }
    let mut y1 = rc.top - 4;
    let mut y0 = y1 - h;
    if y0 < bh + 2 {
        y0 = rc.bottom + 4;
        y1 = y0 + h;
    }
    let c0 = Rect { left: x0, top: y0, right: x0 + w, bottom: y1 };
    let c1 = Rect { left: x0 + w, top: y0, right: x0 + w * 2, bottom: y1 };
    let mut all = c0;
    if c1.left < all.left {
        all.left = c1.left;
    }
    if c1.top < all.top {
        all.top = c1.top;
    }
    if c1.right > all.right {
        all.right = c1.right;
    }
    if c1.bottom > all.bottom {
        all.bottom = c1.bottom;
    }
    all.left = all.left - 2;
    all.top = all.top - 2;
    all.right = all.right + 2;
    all.bottom = all.bottom + 2;
    (c0, c1, all)
}

impl Board {
    /// See `show_popup_spec`; `cw` is the client width and `bh` the bar height.
    #[verifier::spinoff_prover]
    pub fn show_popup(&mut self, idx: i32, cw: i32, bh: i32)
        requires
            old(self).wf(),
            0 <= idx < old(self)@.keys.len() ==> rect_ok(old(self)@.keys[idx as int].rc),
            coord_ok(cw as int),
            coord_ok(bh as int),
        ensures
            final(self).wf(),
            final(self)@ == show_popup_spec(old(self)@, idx, cw, bh),
    {
        if idx < 0 || idx as usize >= self.keys.len() {
            return;
        }
        let k = self.keys[idx as usize];
        assert(k@ == old(self)@.keys[idx as int]);
        if k.kind != Kind::Char {
            return;
        }
        let alt = if k.tag != 0 { k.tag } else if k.hi != k.lo { k.hi } else { 0 };
        if alt == 0 {
            return;
        }
        self.open_popup(k, idx, cw, bh);
    }

    #[verifier::spinoff_prover]
    fn open_popup(&mut self, k: crate::board::Key, idx: i32, cw: i32, bh: i32)
        requires
            old(self).wf(),
            rect_ok(k.rc),
            coord_ok(cw as int),
            coord_ok(bh as int),
        ensures
            final(self).wf(),
            final(self)@ == popup_state(old(self)@, idx, k@, cw, bh),
    {
        proof {
            crate::board::lemma_board_wf_all();
        }
        let alt = if k.tag != 0 { k.tag } else if k.hi != k.lo { k.hi } else { 0 };
        let (c0, c1, all) = popup_rects(k.rc, cw, bh);
        self.pop_base = k.lo;
        self.pop_alt = alt;
        self.hold_popup = idx;
        self.pop_hover = -1;
        self.pop_rc = [c0, c1];
        self.pop_all = all;
        assert(self.pop_rc@ =~= seq![c0, c1]);
    }
}
// ---------------------------------------------------------------------------
// The pointer
// ---------------------------------------------------------------------------

/// What the pointer went down on.
#[derive(Clone, Copy, Debug, PartialEq, Eq, Structural)]
pub enum Down {
    /// A button of the top bar (it acts when the pointer comes up on it).
    Bar,
    /// A key (it acted at once).
    Key,
    /// The top bar outside its buttons: the host drags the window.
    Drag,
    /// Nothing.
    Nothing,
}

/// Every key can be handled by the dispatcher (see `key_ok`).
pub open spec fn keys_ok(b: BoardModel) -> bool {
    forall|i: int| 0 <= i < b.keys.len() ==> key_ok(#[trigger] b.keys[i])
}

/// The pointer going down at (`x`, `y`), with a top bar `bh` high: a bar button is marked
/// pressed, a key acts at once (see `press_spec`), the bar elsewhere starts a drag.
#[verifier::opaque]
pub open spec fn down_spec(b: BoardModel, x: i32, y: i32, bh: i32, caps: bool, now: u32) -> (BoardModel, Seq<OutModel>, Down) {
    let id = hit_bar_from(b, x, y, 0);
    let k = hit_key_from(b, x, y, 0);
    if id != BAR_NONE {
        (BoardModel { down_idx: (1000 + id) as i32, ..b }, seq![], Down::Bar)
    } else if k >= 0 {
        let r = press_spec(BoardModel { down_idx: k as i32, ..b }, k as i32, caps, now);
        (r.0, r.1, Down::Key)
    } else if y < bh {
        (BoardModel { down_idx: -3i32, ..b }, seq![], Down::Drag)
    } else {
        (BoardModel { down_idx: -2i32, ..b }, seq![], Down::Nothing)
    }
}

proof fn lemma_hit_key_range(b: BoardModel, x: i32, y: i32, i: int)
    requires
        0 <= i,
    ensures
        -1 <= hit_key_from(b, x, y, i) < b.keys.len(),
    decreases b.keys.len() - i,
{
    if i < b.keys.len() {
        lemma_hit_key_range(b, x, y, i + 1);
    }
}

proof fn lemma_hit_bar_range(b: BoardModel, x: i32, y: i32, i: int)
    requires
        0 <= i,
        b.bar.len() == 7,
        forall|j: int| 0 <= j < 7 ==> 0 <= #[trigger] b.bar[j].id <= 7,
    ensures
        0 <= hit_bar_from(b, x, y, i) <= 7,
    decreases 7 - i,
{
    if i < 7 {
        lemma_hit_bar_range(b, x, y, i + 1);
    }
}

/// The pointer coming up at (`x`, `y`) (`dragging`: the host was dragging the window).  A
/// held key's popup resolves, or a waiting character is typed; the release of Backspace is
/// timed (for a double Backspace); a bar button acts when the pointer is still on it; a drag
/// stores the position; the key stops repeating.
#[verifier::opaque]
pub open spec fn up_spec(b: BoardModel, x: i32, y: i32, caps: bool, now: u32, dragging: bool) -> (BoardModel, Seq<OutModel>) {
    let r1 = if b.hold_popup >= 0 {
        resolve_popup_spec(b, caps)
    } else if b.pending >= 0 {
        flush_pending_spec(b, caps)
    } else {
        (b, seq![])
    };
    let b2 = bksp_timed(r1.0, now);
    let r3 = release_bar(b2, x, y);
    (
        BoardModel { repeat_idx: -1i32, ..r3.0 },
        seq![OutModel::KillTimer(TIMER_HOLD)] + r1.1 + r3.1 + (if dragging { seq![OutModel::Save] } else { seq![] })
            + seq![OutModel::KillTimer(TIMER_REPEAT)],
    )
}

/// The release of a Backspace key is remembered (tick count `now`).
pub open spec fn bksp_timed(b: BoardModel, now: u32) -> BoardModel {
    let d = b.down_idx;
    if 0 <= d < b.keys.len() && b.keys[d as int].kind == Kind::Special && b.keys[d as int].vk == VK_BACK {
        BoardModel { bksp_last_up: now, ..b }
    } else {
        b
    }
}

/// A pressed bar button acts when the pointer comes up on it.
pub open spec fn release_bar(b: BoardModel, x: i32, y: i32) -> (BoardModel, Seq<OutModel>) {
    let b1 = BoardModel { down_idx: -2i32, ..b };
    if b.down_idx >= 1000 && hit_bar_from(b1, x, y, 0) == b.down_idx - 1000 {
        bar_spec(b1, (b.down_idx - 1000) as i32)
    } else {
        (b1, seq![])
    }
}

/// The pointer moving over the popup marks the cell under it (1 the alternative, 0 the
/// base character, -1 none).
pub open spec fn hover_spec(b: BoardModel, x: i32, y: i32) -> BoardModel {
    if b.hold_popup >= 0 {
        let r1 = b.pop_rc[1];
        let r0 = b.pop_rc[0];
        let hv = if x >= r1.left && x < r1.right && y >= r1.top && y < r1.bottom {
            1i32
        } else if x >= r0.left && x < r0.right && y >= r0.top && y < r0.bottom {
            0i32
        } else {
            -1i32
        };
        BoardModel { pop_hover: hv, ..b }
    } else {
        b
    }
}

/// A timer went off.  Repeat taps the repeating key (the first time it also speeds up to
/// every 60 ms); flash ends the key's flash; hold opens the popup of the waiting character
/// key (`cw`, `bh`: client width and bar height); the Shift/Caps arming times out.
#[verifier::opaque]
pub open spec fn timer_spec(b: BoardModel, id: usize, cw: i32, bh: i32) -> (BoardModel, Seq<OutModel>) {
    if id == TIMER_REPEAT {
        if b.repeat_idx >= 0 {
            if b.repeat_first {
                (BoardModel { repeat_first: false, ..b },
                    seq![OutModel::Tap(b.repeat_vk), OutModel::KillTimer(TIMER_REPEAT), OutModel::SetTimer(TIMER_REPEAT, 60)])
            } else {
                (b, seq![OutModel::Tap(b.repeat_vk)])
            }
        } else {
            (b, seq![])
        }
    } else if id == TIMER_FLASH {
        (BoardModel { pressed: -1i32, ..b }, seq![OutModel::KillTimer(TIMER_FLASH)])
    } else if id == TIMER_HOLD {
        (if b.pending >= 0 { show_popup_spec(b, b.pending, cw, bh) } else { b }, seq![OutModel::KillTimer(TIMER_HOLD)])
    } else if id == TIMER_SHCAP {
        (BoardModel { shcap_armed: false, ..b }, seq![OutModel::KillTimer(TIMER_SHCAP)])
    } else {
        (b, seq![])
    }
}

/// Every key rectangle is far from the machine limits.
pub open spec fn rects_ok(b: BoardModel) -> bool {
    forall|i: int| 0 <= i < b.keys.len() ==> rect_ok(#[trigger] b.keys[i].rc)
}

impl Board {
    #[verifier::spinoff_prover]
    fn set_down(&mut self, d: i32)
        requires
            old(self).wf(),
        ensures
            final(self).wf(),
            final(self)@ == (BoardModel { down_idx: d, ..old(self)@ }),
    {
        proof {
            crate::board::lemma_board_wf_all();
        }
        self.down_idx = d;
    }

    /// See `down_spec`.
    #[verifier::spinoff_prover]
    pub fn button_down(&mut self, x: i32, y: i32, bh: i32, caps: bool, now: u32, out: &mut Vec<Out>) -> (r: Down)
        requires
            old(self).wf(),
            keys_ok(old(self)@),
        ensures
            final(self).wf(),
            final(self)@ == down_spec(old(self)@, x, y, bh, caps, now).0,
            outs_view(final(out)@) == outs_view(old(out)@) + down_spec(old(self)@, x, y, bh, caps, now).1,
            r == down_spec(old(self)@, x, y, bh, caps, now).2,
    {
        proof {
            crate::board::lemma_wf_keys_bar(self@);
        }
        let id = self.hit_bar(x, y);
        let k = self.hit_key(x, y);
        self.down_at(id, k, x, y, bh, caps, now, out)
    }

    #[verifier::spinoff_prover]
    fn down_at(&mut self, id: i32, k: i32, x: i32, y: i32, bh: i32, caps: bool, now: u32, out: &mut Vec<Out>) -> (r: Down)
        requires
            old(self).wf(),
            keys_ok(old(self)@),
            id == hit_bar_from(old(self)@, x, y, 0),
            k == hit_key_from(old(self)@, x, y, 0),
        ensures
            final(self).wf(),
            final(self)@ == down_spec(old(self)@, x, y, bh, caps, now).0,
            outs_view(final(out)@) == outs_view(old(out)@) + down_spec(old(self)@, x, y, bh, caps, now).1,
            r == down_spec(old(self)@, x, y, bh, caps, now).2,
    {
        proof {
            crate::board::lemma_wf_keys_bar(self@);
            lemma_hit_bar_range(self@, x, y, 0);
            lemma_hit_key_range(self@, x, y, 0);
        }
        if id != BAR_NONE {
            self.down_mark(1000 + id, x, y, bh, caps, now, out)
        } else if k >= 0 {
            self.down_on_key(k, caps, now, out);
            proof {
                reveal(down_spec);
            }
            Down::Key
        } else {
            let d: i32 = if y < bh { -3 } else { -2 };
            self.down_mark(d, x, y, bh, caps, now, out)
        }
    }

    #[verifier::spinoff_prover]
    fn down_mark(&mut self, d: i32, x: i32, y: i32, bh: i32, caps: bool, now: u32, out: &mut Vec<Out>) -> (r: Down)
        requires
            old(self).wf(),
            0 <= hit_bar_from(old(self)@, x, y, 0) <= 7,
            (hit_bar_from(old(self)@, x, y, 0) != BAR_NONE && d == 1000 + hit_bar_from(old(self)@, x, y, 0))
                || (hit_bar_from(old(self)@, x, y, 0) == BAR_NONE && hit_key_from(old(self)@, x, y, 0) < 0
                    && d == (if y < bh { -3i32 } else { -2i32 })),
        ensures
            final(self).wf(),
            final(self)@ == down_spec(old(self)@, x, y, bh, caps, now).0,
            outs_view(final(out)@) == outs_view(old(out)@) + down_spec(old(self)@, x, y, bh, caps, now).1,
            r == down_spec(old(self)@, x, y, bh, caps, now).2,
    {
        reveal(down_spec);
        self.set_down(d);
        assert(outs_view(out@) =~= outs_view(old(out)@) + seq![]);
        if d >= 1000 {
            Down::Bar
        } else if d == -3 {
            Down::Drag
        } else {
            Down::Nothing
        }
    }

    #[verifier::spinoff_prover]
    fn down_on_key(&mut self, k: i32, caps: bool, now: u32, out: &mut Vec<Out>)
        requires
            old(self).wf(),
            keys_ok(old(self)@),
            0 <= k < old(self)@.keys.len(),
        ensures
            final(self).wf(),
            final(self)@ == press_spec(BoardModel { down_idx: k, ..old(self)@ }, k, caps, now).0,
            outs_view(final(out)@) == outs_view(old(out)@) + press_spec(BoardModel { down_idx: k, ..old(self)@ }, k, caps, now).1,
    {
        self.set_down(k);
        assert(key_ok(self@.keys[k as int]));
        self.press_key(k, caps, now, out);
    }

    /// See `up_spec`.
    #[verifier::spinoff_prover]
    pub fn button_up(&mut self, x: i32, y: i32, caps: bool, now: u32, dragging: bool, out: &mut Vec<Out>)
        requires
            old(self).wf(),
        ensures
            final(self).wf(),
            final(self)@ == up_spec(old(self)@, x, y, caps, now, dragging).0,
            outs_view(final(out)@) == outs_view(old(out)@) + up_spec(old(self)@, x, y, caps, now, dragging).1,
    {
        reveal(up_spec);
        let ghost o0 = outs_view(out@);
        push_out(out, Out::KillTimer(TIMER_HOLD));
        let ghost o1 = outs_view(out@);
        if self.hold_popup >= 0 {
            self.resolve_popup(caps, out);
        } else if self.pending >= 0 {
            self.flush_pending(caps, out);
        } else {
            assert(outs_view(out@) =~= o1 + seq![]);
        }
        self.time_bksp(now);
        self.bar_release(x, y, out);
        if dragging {
            push_out(out, Out::Save);
        }
        push_out(out, Out::KillTimer(TIMER_REPEAT));
        self.stop_repeat();
        assert(outs_view(out@) =~= o0 + up_spec(old(self)@, x, y, caps, now, dragging).1);
    }

    #[verifier::spinoff_prover]
    fn time_bksp(&mut self, now: u32)
        requires
            old(self).wf(),
        ensures
            final(self).wf(),
            final(self)@ == bksp_timed(old(self)@, now),
    {
        proof {
            crate::board::lemma_board_wf_all();
        }
        let d = self.down_idx;
        if d >= 0 && (d as usize) < self.keys.len() {
            let k = self.keys[d as usize];
            assert(k@ == old(self)@.keys[d as int]);
            if k.kind == Kind::Special && k.vk == VK_BACK {
                self.bksp_last_up = now;
            }
        }
    }

    #[verifier::spinoff_prover]
    fn bar_release(&mut self, x: i32, y: i32, out: &mut Vec<Out>)
        requires
            old(self).wf(),
        ensures
            final(self).wf(),
            final(self)@ == release_bar(old(self)@, x, y).0,
            outs_view(final(out)@) == outs_view(old(out)@) + release_bar(old(self)@, x, y).1,
    {
        let d = self.down_idx;
        self.set_down(-2);
        if d >= 1000 && self.hit_bar(x, y) == d - 1000 {
            self.do_bar(d - 1000, out);
        } else {
            assert(outs_view(out@) =~= outs_view(old(out)@) + seq![]);
        }
    }

    #[verifier::spinoff_prover]
    fn stop_repeat(&mut self)
        requires
            old(self).wf(),
        ensures
            final(self).wf(),
            final(self)@ == (BoardModel { repeat_idx: -1i32, ..old(self)@ }),
    {
        proof {
            crate::board::lemma_board_wf_all();
        }
        self.repeat_idx = -1;
    }

    /// See `hover_spec`.
    #[verifier::spinoff_prover]
    pub fn hover(&mut self, x: i32, y: i32)
        requires
            old(self).wf(),
        ensures
            final(self).wf(),
            final(self)@ == hover_spec(old(self)@, x, y),
    {
        proof {
            crate::board::lemma_board_wf_all();
        }
        if self.hold_popup >= 0 {
            let r1 = self.pop_rc[1];
            let r0 = self.pop_rc[0];
            let hv: i32 = if x >= r1.left && x < r1.right && y >= r1.top && y < r1.bottom {
                1
            } else if x >= r0.left && x < r0.right && y >= r0.top && y < r0.bottom {
                0
            } else {
                -1
            };
            self.pop_hover = hv;
        }
    }

    /// See `timer_spec`.
    #[verifier::spinoff_prover]
    pub fn on_timer(&mut self, id: usize, cw: i32, bh: i32, out: &mut Vec<Out>)
        requires
            old(self).wf(),
            rects_ok(old(self)@),
            coord_ok(cw as int),
            coord_ok(bh as int),
        ensures
            final(self).wf(),
            final(self)@ == timer_spec(old(self)@, id, cw, bh).0,
            outs_view(final(out)@) == outs_view(old(out)@) + timer_spec(old(self)@, id, cw, bh).1,
    {
        if id == TIMER_REPEAT {
            self.timer_repeat(cw, bh, out);
        } else if id == TIMER_HOLD {
            self.timer_hold(cw, bh, out);
        } else {
            self.timer_other(id, cw, bh, out);
        }
    }

    #[verifier::spinoff_prover]
    fn timer_repeat(&mut self, cw: i32, bh: i32, out: &mut Vec<Out>)
        requires
            old(self).wf(),
        ensures
            final(self).wf(),
            final(self)@ == timer_spec(old(self)@, TIMER_REPEAT, cw, bh).0,
            outs_view(final(out)@) == outs_view(old(out)@) + timer_spec(old(self)@, TIMER_REPEAT, cw, bh).1,
    {
        reveal(timer_spec);
        proof {
            crate::board::lemma_board_wf_all();
        }
        let ghost o0 = outs_view(out@);
        if self.repeat_idx >= 0 {
            push_out(out, Out::Tap(self.repeat_vk));
            if self.repeat_first {
                self.repeat_first = false;
                push_out(out, Out::KillTimer(TIMER_REPEAT));
                push_out(out, Out::SetTimer(TIMER_REPEAT, 60));
            }
        }
        assert(outs_view(out@) =~= o0 + timer_spec(old(self)@, TIMER_REPEAT, cw, bh).1);
    }

    #[verifier::spinoff_prover]
    fn timer_hold(&mut self, cw: i32, bh: i32, out: &mut Vec<Out>)
        requires
            old(self).wf(),
            rects_ok(old(self)@),
            coord_ok(cw as int),
            coord_ok(bh as int),
        ensures
            final(self).wf(),
            final(self)@ == timer_spec(old(self)@, TIMER_HOLD, cw, bh).0,
            outs_view(final(out)@) == outs_view(old(out)@) + timer_spec(old(self)@, TIMER_HOLD, cw, bh).1,
    {
        reveal(timer_spec);
        push_out(out, Out::KillTimer(TIMER_HOLD));
        if self.pending >= 0 {
            let p = self.pending;
            self.show_popup(p, cw, bh);
        }
    }

    #[verifier::spinoff_prover]
    fn timer_other(&mut self, id: usize, cw: i32, bh: i32, out: &mut Vec<Out>)
        requires
            old(self).wf(),
            id != TIMER_REPEAT && id != TIMER_HOLD,
        ensures
            final(self).wf(),
            final(self)@ == timer_spec(old(self)@, id, cw, bh).0,
            outs_view(final(out)@) == outs_view(old(out)@) + timer_spec(old(self)@, id, cw, bh).1,
    {
        reveal(timer_spec);
        let ghost o0 = outs_view(out@);
        if id == TIMER_FLASH {
            push_out(out, Out::KillTimer(TIMER_FLASH));
            self.flash_off();
            assert(outs_view(out@) =~= o0 + seq![OutModel::KillTimer(TIMER_FLASH)]);
        } else if id == TIMER_SHCAP {
            push_out(out, Out::KillTimer(TIMER_SHCAP));
            self.shcap_off();
            assert(outs_view(out@) =~= o0 + seq![OutModel::KillTimer(TIMER_SHCAP)]);
        } else {
            assert(outs_view(out@) =~= o0 + seq![]);
        }
    }

    #[verifier::spinoff_prover]
    fn flash_off(&mut self)
        requires
            old(self).wf(),
        ensures
            final(self).wf(),
            final(self)@ == (BoardModel { pressed: -1i32, ..old(self)@ }),
    {
        proof {
            crate::board::lemma_board_wf_all();
        }
        self.pressed = -1;
    }

    #[verifier::spinoff_prover]
    fn shcap_off(&mut self)
        requires
            old(self).wf(),
        ensures
            final(self).wf(),
            final(self)@ == (BoardModel { shcap_armed: false, ..old(self)@ }),
    {
        proof {
            crate::board::lemma_board_wf_all();
        }
        self.shcap_armed = false;
    }

    /// The key-up actions that leave no modifier key down (when the keyboard closes).
    #[verifier::spinoff_prover]
    pub fn release_mods(&self, out: &mut Vec<Out>)
        ensures
            outs_view(final(out)@) == outs_view(old(out)@) + crate::press::release_on_upto(self@.mods, 4),
    {
        crate::press::push_releases(out, &self.mods);
    }
}

} // verus!
