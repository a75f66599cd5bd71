//! The settings panel, the top bar's buttons, windows pinned on top and the recorder of
//! custom shortcuts.
use vstd::prelude::*;
use crate::board::{
    Board, BoardModel, BarModel, BarBtn, Kind, Rect, board_wf, lemma_tracker_ok, set_rect, BAR_FN,
    BAR_STAR, BAR_MODE, BAR_X, BAR_GEAR, BAR_CLIP, BAR_SC, MAXPINWIN, TIMER_HOLD,
};
use crate::text::{utf16_of, wstr_fill, set_wstr};
use crate::layout::{
    build_keys_spec, SET_SM, SET_BG, SET_OPDN, SET_OPUP, SET_DONE, SET_LANG, SET_PRED, SET_AUTO,
    SET_SPELL, SET_PINWIN, SET_BIGRAM, SET_PINBAR,
};
use crate::predict::{PredModel, dict_avail, dict_avail_m, compute_sugg_spec, word_clear_spec, pad3};
use crate::state::{Out, OutModel, outs_view, push_out, with_pred, refresh_pred};

verus! {

// ---------------------------------------------------------------------------
// The settings panel
// ---------------------------------------------------------------------------

/// One opacity step down, not below 102 (40%).
pub open spec fn opacity_down(v: i32) -> i32 {
    if v - 13 < 102 { 102 } else { (v - 13) as i32 }
}

/// One opacity step up, not above 255.
pub open spec fn opacity_up(v: i32) -> i32 {
    if v + 13 > 255 { 255 } else { (v + 13) as i32 }
}

/// The language the language button switches to: the other one when it has a dictionary,
/// else the current one.
pub open spec fn lang_target(p: PredModel) -> int {
    let other = if p.lang == 0 { 1int } else { 0int };
    if dict_avail_m(p, other) { other } else { p.lang }
}

/// The word tracker after switching to language `l`.
pub open spec fn lang_pred(p: PredModel, l: int) -> PredModel {
    word_clear_spec(PredModel { lang: l, prev_word: seq![], prev_idx: -1, sugg: pad3(seq![]), misspelt: false, ..p })
}

/// A button of the settings panel.  Each stores the settings afterwards, except the
/// language button when neither language has a dictionary (it then does nothing).
/// Smaller and larger leave the scale to the host; the opacity steps by 13 between 102 and
/// 255; the language button switches language (rebuilding the keys, whose label shows it);
/// prediction, highlighting and bigrams recompute the strip; autocorrect disarms its undo.
#[verifier::opaque]
pub open spec fn set_action_spec(b: BoardModel, a: u32) -> (BoardModel, Seq<OutModel>) {
    let p = b.pred;
    let save = seq![OutModel::Save];
    if a == SET_SM {
        (b, seq![OutModel::Smaller] + save)
    } else if a == SET_BG {
        (b, seq![OutModel::Larger] + save)
    } else if a == SET_OPDN {
        (BoardModel { opacity: opacity_down(b.opacity), ..b }, seq![OutModel::Opacity] + save)
    } else if a == SET_OPUP {
        (BoardModel { opacity: opacity_up(b.opacity), ..b }, seq![OutModel::Opacity] + save)
    } else if a == SET_DONE {
        (BoardModel { show_settings: false, ..b }, seq![OutModel::Resize] + save)
    } else if a == SET_LANG {
        if !lang_ok(p) {
            (b, seq![])
        } else {
            (lang_state(b), seq![OutModel::Relayout] + save)
        }
    } else if a == SET_PRED {
        (with_pred(b, refresh_pred(PredModel { predict_on: !p.predict_on, ..p })), seq![OutModel::Resize] + save)
    } else if a == SET_AUTO {
        (with_pred(b, PredModel { autocorrect: !p.autocorrect, auto_active: false, ..p }), save)
    } else if a == SET_SPELL {
        (with_pred(b, refresh_pred(PredModel { highlight_on: !p.highlight_on, ..p })), seq![OutModel::Resize] + save)
    } else if a == SET_PINWIN {
        (b, seq![OutModel::PinWindow] + save)
    } else if a == SET_BIGRAM {
        (with_pred(b, refresh_pred(PredModel { bigram_on: !p.bigram_on, ..p })), save)
    } else if a == SET_PINBAR {
        (BoardModel { pin_bar_on: !b.pin_bar_on, ..b }, seq![OutModel::Resize] + save)
    } else {
        (b, save)
    }
}

/// Whether the language button does anything: one of the two languages has a dictionary.
pub open spec fn lang_ok(p: PredModel) -> bool {
    dict_avail_m(p, if p.lang == 0 { 1int } else { 0int }) || dict_avail_m(p, p.lang)
}

/// The board after the language button switched language.
pub open spec fn lang_state(b: BoardModel) -> BoardModel {
    let b1 = with_pred(b, lang_pred(b.pred, lang_target(b.pred)));
    BoardModel { keys: build_keys_spec(b1), ..b1 }
}

impl Board {
    /// Switches the word tracker to language `t`.
    #[verifier::spinoff_prover]
    fn apply_lang(&mut self, t: usize)
        requires
            old(self).wf(),
            t < 2,
        ensures
            final(self).wf(),
            final(self)@ == with_pred(old(self)@, lang_pred(old(self)@.pred, t as int)),
    {
        let ghost b0 = self@;
        proof {
            crate::board::lemma_wf_pred(b0);
        }
        self.pred.set_lang(t);
        proof {
            crate::board::lemma_wf_frame_pred(b0, self@);
        }
    }

    /// The language the language button switches to, if it does anything.
    #[verifier::spinoff_prover]
    fn lang_choice(&self) -> (r: Option<usize>)
        requires
            self.wf(),
        ensures
            r is Some <==> lang_ok(self@.pred),
            r matches Some(t) ==> t == lang_target(self@.pred) && t < 2,
    {
        proof {
            crate::board::lemma_wf_pred(self@);
        }
        let cur = self.pred.language();
        let other: usize = if cur == 0 { 1 } else { 0 };
        if dict_avail(&self.pred, other) {
            Some(other)
        } else if dict_avail(&self.pred, cur) {
            Some(cur)
        } else {
            None
        }
    }

    /// The language button (see `set_action_spec`).
    #[verifier::spinoff_prover]
    fn lang_action(&mut self, out: &mut Vec<Out>)
        requires
            old(self).wf(),
        ensures
            final(self).wf(),
            final(self)@ == set_action_spec(old(self)@, SET_LANG).0,
            outs_view(final(out)@) == outs_view(old(out)@) + set_action_spec(old(self)@, SET_LANG).1,
    {
        reveal(set_action_spec);
        let ghost b0 = self@;
        let ghost o0 = outs_view(out@);
        match self.lang_choice() {
            None => {
                assert(outs_view(out@) =~= o0 + seq![]);
            },
            Some(t) => {
                self.apply_lang(t);
                self.build_keys();
                assert(self@ == lang_state(b0));
                push_out(out, Out::Relayout);
                push_out(out, Out::Save);
                assert(outs_view(out@) =~= o0 + (seq![OutModel::Relayout] + seq![OutModel::Save]));
            },
        }
    }

    /// The buttons that switch a setting of the word tracker (see `set_action_spec`).
    #[verifier::spinoff_prover]
    fn tracker_action(&mut self, a: u32, out: &mut Vec<Out>)
        requires
            old(self).wf(),
            a == SET_PRED || a == SET_AUTO || a == SET_SPELL || a == SET_BIGRAM,
        ensures
            final(self).wf(),
            final(self)@ == set_action_spec(old(self)@, a).0,
            outs_view(final(out)@) == outs_view(old(out)@) + set_action_spec(old(self)@, a).1,
    {
        reveal(set_action_spec);
        let ghost o0 = outs_view(out@);
        if a == SET_PRED {
            self.toggle_predict();
            push_out(out, Out::Resize);
            push_out(out, Out::Save);
            assert(outs_view(out@) =~= o0 + (seq![OutModel::Resize] + seq![OutModel::Save]));
        } else if a == SET_AUTO {
            self.toggle_autocorrect();
            push_out(out, Out::Save);
            assert(outs_view(out@) =~= o0 + seq![OutModel::Save]);
        } else if a == SET_SPELL {
            self.toggle_highlight();
            push_out(out, Out::Resize);
            push_out(out, Out::Save);
            assert(outs_view(out@) =~= o0 + (seq![OutModel::Resize] + seq![OutModel::Save]));
        } else {
            self.toggle_bigram();
            push_out(out, Out::Save);
            assert(outs_view(out@) =~= o0 + seq![OutModel::Save]);
        }
    }

    /// The buttons that change a field of the board (see `set_action_spec`).
    #[verifier::spinoff_prover]
    fn field_action(&mut self, a: u32, out: &mut Vec<Out>)
        requires
            old(self).wf(),
            a == SET_OPDN || a == SET_OPUP || a == SET_DONE || a == SET_PINBAR,
        ensures
            final(self).wf(),
            final(self)@ == set_action_spec(old(self)@, a).0,
            outs_view(final(out)@) == outs_view(old(out)@) + set_action_spec(old(self)@, a).1,
    {
        proof {
            crate::board::lemma_board_wf_all();
        }
        reveal(set_action_spec);
        let ghost o0 = outs_view(out@);
        if a == SET_OPDN {
            let v = if self.opacity - 13 < 102 { 102 } else { self.opacity - 13 };
            self.set_opacity(v);
            push_out(out, Out::Opacity);
        } else if a == SET_OPUP {
            let v = if self.opacity + 13 > 255 { 255 } else { self.opacity + 13 };
            self.set_opacity(v);
            push_out(out, Out::Opacity);
        } else if a == SET_DONE {
            self.set_show_settings(false);
            push_out(out, Out::Resize);
        } else {
            let v = !self.pin_bar_on;
            self.set_pin_bar_on(v);
            push_out(out, Out::Resize);
        }
        push_out(out, Out::Save);
        assert(outs_view(out@) =~= o0 + set_action_spec(old(self)@, a).1);
    }

    #[verifier::spinoff_prover]
    pub(crate) fn set_opacity(&mut self, v: i32)
        requires
            old(self).wf(),
            102 <= v <= 255,
        ensures
            final(self).wf(),
            final(self)@ == (BoardModel { opacity: v, ..old(self)@ }),
    {
        proof {
            crate::board::lemma_board_wf_all();
        }
        self.opacity = v;
    }

    #[verifier::spinoff_prover]
    fn set_show_settings(&mut self, v: bool)
        requires
            old(self).wf(),
        ensures
            final(self).wf(),
            final(self)@ == (BoardModel { show_settings: v, ..old(self)@ }),
    {
        proof {
            crate::board::lemma_board_wf_all();
        }
        self.show_settings = v;
    }

    #[verifier::spinoff_prover]
    pub(crate) fn set_pin_bar_on(&mut self, v: bool)
        requires
            old(self).wf(),
        ensures
            final(self).wf(),
            final(self)@ == (BoardModel { pin_bar_on: v, ..old(self)@ }),
    {
        proof {
            crate::board::lemma_board_wf_all();
        }
        self.pin_bar_on = v;
    }

    /// The buttons that leave the board as it is (see `set_action_spec`).
    #[verifier::spinoff_prover]
    fn host_action(&mut self, a: u32, out: &mut Vec<Out>)
        requires
            old(self).wf(),
            !(a == SET_LANG || a == SET_PRED || a == SET_AUTO || a == SET_SPELL || a == SET_BIGRAM
                || a == SET_OPDN || a == SET_OPUP || a == SET_DONE || a == SET_PINBAR),
        ensures
            final(self).wf(),
            final(self)@ == set_action_spec(old(self)@, a).0,
            outs_view(final(out)@) == outs_view(old(out)@) + set_action_spec(old(self)@, a).1,
    {
        reveal(set_action_spec);
        let ghost o0 = outs_view(out@);
        if a == SET_SM {
            push_out(out, Out::Smaller);
        } else if a == SET_BG {
            push_out(out, Out::Larger);
        } else if a == SET_PINWIN {
            push_out(out, Out::PinWindow);
        }
        push_out(out, Out::Save);
        assert(outs_view(out@) =~= o0 + set_action_spec(old(self)@, a).1);
    }

    /// See `set_action_spec`.
    #[verifier::spinoff_prover]
    pub fn do_set_action(&mut self, a: u32, out: &mut Vec<Out>)
        requires
            old(self).wf(),
        ensures
            final(self).wf(),
            final(self)@ == set_action_spec(old(self)@, a).0,
            outs_view(final(out)@) == outs_view(old(out)@) + set_action_spec(old(self)@, a).1,
    {
        if a == SET_LANG {
            self.lang_action(out);
        } else if a == SET_PRED || a == SET_AUTO || a == SET_SPELL || a == SET_BIGRAM {
            self.tracker_action(a, out);
        } else if a == SET_OPDN || a == SET_OPUP || a == SET_DONE || a == SET_PINBAR {
            self.field_action(a, out);
        } else {
            self.host_action(a, out);
        }
    }
}
// ---------------------------------------------------------------------------
// Windows pinned on top
// ---------------------------------------------------------------------------

/// The position of window `h` among the pinned ones, from `i` on; -1 when it is not pinned.
pub open spec fn pin_index_from(p: Seq<usize>, h: usize, i: int) -> int
    decreases p.len() - i,
{
    if i < 0 || i >= p.len() {
        -1
    } else if p[i] == h {
        i
    } else {
        pin_index_from(p, h, i + 1)
    }
}

/// What pinning or unpinning a window did, for the host to apply to the window.
#[derive(Clone, Copy, Debug, PartialEq, Eq, Structural)]
pub enum PinChange {
    /// Nothing (no window, or already eight pinned).
    Unchanged,
    /// The window was added to the pinned ones.
    Pinned,
    /// The window was taken off the pinned ones.
    Unpinned,
}

/// Pinning the target window `t` (0 when there is none): a pinned window is unpinned,
/// another one is pinned unless eight already are.
pub open spec fn toggle_pin_spec(p: Seq<usize>, t: usize) -> (Seq<usize>, PinChange) {
    let i = pin_index_from(p, t, 0);
    if t == 0 {
        (p, PinChange::Unchanged)
    } else if i >= 0 {
        (p.remove(i), PinChange::Unpinned)
    } else if p.len() >= MAXPINWIN {
        (p, PinChange::Unchanged)
    } else {
        (p.push(t), PinChange::Pinned)
    }
}

/// The pinned windows that still exist (`alive[i]` tells whether `p[i]` does), in order.
pub open spec fn alive_pins(p: Seq<usize>, alive: Seq<bool>, k: int) -> Seq<usize>
    decreases k,
{
    if k <= 0 {
        seq![]
    } else {
        alive_pins(p, alive, k - 1) + (if alive[k - 1] { seq![p[k - 1]] } else { seq![] })
    }
}

/// The pinned windows among the first `k` that still exist but are no longer on top.
pub open spec fn raise_pins(p: Seq<usize>, alive: Seq<bool>, topmost: Seq<bool>, k: int) -> Seq<usize>
    decreases k,
{
    if k <= 0 {
        seq![]
    } else {
        raise_pins(p, alive, topmost, k - 1) + (if alive[k - 1] && !topmost[k - 1] { seq![p[k - 1]] } else { seq![] })
    }
}

proof fn lemma_alive_pins_len(p: Seq<usize>, alive: Seq<bool>, k: int)
    requires
        0 <= k <= p.len(),
    ensures
        alive_pins(p, alive, k).len() <= k,
        (forall|j: int| 0 <= j < k ==> alive[j]) ==> alive_pins(p, alive, k) == p.take(k),
    decreases k,
{
    if k > 0 {
        lemma_alive_pins_len(p, alive, k - 1);
        assert(p.take(k) =~= p.take(k - 1).push(p[k - 1]));
    } else {
        assert(p.take(0) =~= seq![]);
    }
}

proof fn lemma_pin_index(p: Seq<usize>, t: usize, k: int)
    requires
        0 <= k,
    ensures
        -1 <= pin_index_from(p, t, k) < p.len(),
        pin_index_from(p, t, k) >= 0 ==> k <= pin_index_from(p, t, k) && p[pin_index_from(p, t, k)] == t,
        pin_index_from(p, t, k) < 0 ==> forall|j: int| k <= j < p.len() ==> p[j] != t,
    decreases p.len() - k,
{
    if k < p.len() && p[k] != t {
        lemma_pin_index(p, t, k + 1);
    }
}

/// Pinning a window and pinning it again leaves the pinned windows as they were: the
/// second press unpins it.  At most eight windows are ever pinned.
pub proof fn lemma_pin_twice(p: Seq<usize>, t: usize)
    requires
        p.len() <= MAXPINWIN,
        pin_index_from(p, t, 0) < 0,
    ensures
        toggle_pin_spec(toggle_pin_spec(p, t).0, t).0 == p,
        toggle_pin_spec(p, t).0.len() <= MAXPINWIN,
{
    lemma_pin_index(p, t, 0);
    if t != 0 && p.len() < MAXPINWIN {
        let q = p.push(t);
        lemma_pin_index(q, t, 0);
        let i = pin_index_from(q, t, 0);
        if i < 0 {
            assert(q[p.len() as int] == t);
        } else if i < p.len() {
            assert(q[i] == p[i]);
            assert(p[i] != t);
        }
        assert(i == p.len());
        assert(q.remove(i) =~= p);
    }
}

/// The pinned windows are real windows (not 0), each pinned once.
pub open spec fn pins_distinct(p: Seq<usize>) -> bool {
    &&& forall|i: int| 0 <= i < p.len() ==> #[trigger] p[i] != 0
    &&& forall|i: int, j: int| 0 <= i < j < p.len() ==> #[trigger] p[i] != #[trigger] p[j]
}

/// Pinning or unpinning a window keeps the pinned windows real and distinct.
pub proof fn lemma_pins_stay_distinct(p: Seq<usize>, t: usize)
    requires
        pins_distinct(p),
    ensures
        pins_distinct(toggle_pin_spec(p, t).0),
{
    lemma_pin_index(p, t, 0);
    let i = pin_index_from(p, t, 0);
    if t != 0 && i >= 0 {
        let q = p.remove(i);
        assert forall|a: int, b: int| 0 <= a < b < q.len() implies #[trigger] q[a] != #[trigger] q[b] by {
            let a1 = if a < i { a } else { a + 1 };
            let b1 = if b < i { b } else { b + 1 };
            assert(q[a] == p[a1]);
            assert(q[b] == p[b1]);
        }
        assert forall|a: int| 0 <= a < q.len() implies #[trigger] q[a] != 0 by {
            let a1 = if a < i { a } else { a + 1 };
            assert(q[a] == p[a1]);
        }
    } else if t != 0 && p.len() < MAXPINWIN {
        let q = p.push(t);
        assert forall|a: int, b: int| 0 <= a < b < q.len() implies #[trigger] q[a] != #[trigger] q[b] by {
            assert(q[a] == p[a]);
            if b < p.len() {
                assert(q[b] == p[b]);
            }
        }
        assert forall|a: int| 0 <= a < q.len() implies #[trigger] q[a] != 0 by {
            if a < p.len() {
                assert(q[a] == p[a]);
            }
        }
    }
}

impl Board {
    /// See `pin_index_from`.
    #[verifier::spinoff_prover]
    pub fn pin_index(&self, h: usize) -> (r: i32)
        requires
            self.wf(),
        ensures
            r == pin_index_from(self@.pinwins, h, 0),
    {
        proof {
            crate::board::lemma_board_wf_all();
        }
        let mut i: usize = 0;
        while i < self.pinwins.len()
            invariant
                i <= self.pinwins.len(),
                self.pinwins.len() <= MAXPINWIN,
                pin_index_from(self@.pinwins, h, 0) == pin_index_from(self@.pinwins, h, i as int),
            decreases self.pinwins.len() - i,
        {
            if self.pinwins[i] == h {
                return i as i32;
            }
            i = i + 1;
        }
        -1
    }

    /// Whether window `t` (0 for none; `alive` tells whether it exists) is pinned.
    #[verifier::spinoff_prover]
    pub fn cur_target_pinned(&self, t: usize, alive: bool) -> (r: bool)
        requires
            self.wf(),
        ensures
            r == (t != 0 && alive && pin_index_from(self@.pinwins, t, 0) >= 0),
    {
        t != 0 && alive && self.pin_index(t) >= 0
    }

    /// See `toggle_pin_spec`.
    #[verifier::spinoff_prover]
    pub fn toggle_pin(&mut self, t: usize) -> (r: PinChange)
        requires
            old(self).wf(),
        ensures
            final(self).wf(),
            final(self)@ == (BoardModel { pinwins: toggle_pin_spec(old(self)@.pinwins, t).0, ..old(self)@ }),
            r == toggle_pin_spec(old(self)@.pinwins, t).1,
    {
        proof {
            crate::board::lemma_board_wf_all();
        }
        let i = self.pin_index(t);
        let (v, r) = toggled_pins(&self.pinwins, t, i);
        self.set_pinwins(v);
        r
    }

    #[verifier::spinoff_prover]
    fn set_pinwins(&mut self, v: Vec<usize>)
        requires
            old(self).wf(),
            v.len() <= MAXPINWIN,
        ensures
            final(self).wf(),
            final(self)@ == (BoardModel { pinwins: v@, ..old(self)@ }),
    {
        proof {
            crate::board::lemma_board_wf_all();
        }
        self.pinwins = v;
    }

    /// Drops the pinned windows that no longer exist (`alive[i]` tells whether the `i`-th
    /// does); returns whether any was dropped.
    #[verifier::spinoff_prover]
    pub fn repair_pins(&mut self, alive: &[bool]) -> (changed: bool)
        requires
            old(self).wf(),
            alive.len() == old(self)@.pinwins.len(),
        ensures
            final(self).wf(),
            final(self)@ == (BoardModel { pinwins: alive_pins(old(self)@.pinwins, alive@, alive.len() as int), ..old(self)@ }),
            changed == exists|i: int| 0 <= i < alive.len() && !alive@[i],
    {
        proof {
            crate::board::lemma_board_wf_all();
        }
        let (kept, changed) = kept_pins(&self.pinwins, alive);
        self.set_pinwins(kept);
        changed
    }

    /// The pinned windows to put back on top: those that still exist (`alive[i]`) but lost
    /// the topmost style (`topmost[i]`), in order.
    pub fn pins_to_raise(&self, alive: &[bool], topmost: &[bool]) -> (v: Vec<usize>)
        requires
            alive.len() == self@.pinwins.len(),
            topmost.len() == self@.pinwins.len(),
        ensures
            v@ == raise_pins(self@.pinwins, alive@, topmost@, alive.len() as int),
    {
        let mut v: Vec<usize> = Vec::new();
        let mut i: usize = 0;
        while i < alive.len()
            invariant
                i <= alive.len(),
                alive.len() == self.pinwins@.len(),
                topmost.len() == self.pinwins@.len(),
                v@ == raise_pins(self@.pinwins, alive@, topmost@, i as int),
            decreases alive.len() - i,
        {
            if alive[i] && !topmost[i] {
                v.push(self.pinwins[i]);
            }
            i = i + 1;
        }
        v
    }

    /// Unpins every window; returns the windows that were pinned.
    #[verifier::spinoff_prover]
    pub fn unpin_all(&mut self) -> (was: Vec<usize>)
        requires
            old(self).wf(),
        ensures
            final(self).wf(),
            final(self)@ == (BoardModel { pinwins: seq![], ..old(self)@ }),
            was@ == old(self)@.pinwins,
    {
        proof {
            crate::board::lemma_board_wf_all();
        }
        let mut was: Vec<usize> = Vec::new();
        std::mem::swap(&mut was, &mut self.pinwins);
        was
    }
}

proof fn lemma_pin_index_range(p: Seq<usize>, h: usize, i: int)
    requires
        0 <= i,
    ensures
        -1 <= pin_index_from(p, h, i) < p.len(),
        pin_index_from(p, h, i) >= 0 ==> p[pin_index_from(p, h, i)] == h,
    decreases p.len() - i,
{
    if i < p.len() {
        lemma_pin_index_range(p, h, i + 1);
    }
}

/// The pinned windows after pinning `t` (see `toggle_pin_spec`), `i` being its position.
#[verifier::spinoff_prover]
fn toggled_pins(p: &Vec<usize>, t: usize, i: i32) -> (r: (Vec<usize>, PinChange))
    requires
        p.len() <= MAXPINWIN,
        i == pin_index_from(p@, t, 0),
    ensures
        r.0@ == toggle_pin_spec(p@, t).0,
        r.1 == toggle_pin_spec(p@, t).1,
        r.0.len() <= MAXPINWIN,
{
    let mut v = p.clone();
    assert(v@ == p@);
    if t == 0 {
        return (v, PinChange::Unchanged);
    }
    if i >= 0 {
        proof {
            lemma_pin_index_range(p@, t, 0);
        }
        v.remove(i as usize);
        return (v, PinChange::Unpinned);
    }
    if v.len() >= MAXPINWIN {
        return (v, PinChange::Unchanged);
    }
    v.push(t);
    (v, PinChange::Pinned)
}

/// The pinned windows that still exist, and whether any was dropped.
#[verifier::spinoff_prover]
fn kept_pins(p: &Vec<usize>, alive: &[bool]) -> (r: (Vec<usize>, bool))
    requires
        alive.len() == p.len(),
        p.len() <= MAXPINWIN,
    ensures
        r.0@ == alive_pins(p@, alive@, alive.len() as int),
        r.0.len() <= MAXPINWIN,
        r.1 == exists|i: int| 0 <= i < alive.len() && !alive@[i],
{
    let mut kept: Vec<usize> = Vec::new();
    let mut changed = false;
    let mut i: usize = 0;
    while i < alive.len()
        invariant
            i <= alive.len(),
            alive.len() == p.len(),
            kept@ == alive_pins(p@, alive@, i as int),
            changed == exists|j: int| 0 <= j < i && !alive@[j],
        decreases alive.len() - i,
    {
        if alive[i] {
            kept.push(p[i]);
        } else {
            changed = true;
        }
        i = i + 1;
    }
    proof {
        lemma_alive_pins_len(p@, alive@, alive.len() as int);
    }
    (kept, changed)
}

// ---------------------------------------------------------------------------
// The recorder's reset, the top bar, the hold popup
// ---------------------------------------------------------------------------

/// Ten zero units: an empty name.
pub open spec fn no_name() -> Seq<u16> {
    Seq::new(10, |i: int| 0u16)
}

/// Stopping the recorder: nothing is being recorded and every modifier is off (their keys
/// are left as they are).
pub open spec fn cancel_record_spec(b: BoardModel) -> BoardModel {
    BoardModel {
        rec_slot: -1i32,
        rec_step: 0,
        rec_mods: 0,
        rec_vk: 0,
        rec_name: no_name(),
        mods: Seq::new(4, |i: int| crate::board::M_OFF),
        ..b
    }
}

/// The label of the layout button: the layout it switches to.
pub open spec fn mode_label(compact: bool) -> Seq<u16> {
    wstr_fill(utf16_of(if compact { "Full"@ } else { "Compact"@ }), 8)
}

/// The top bar after a change of layout: the layout button names the other layout, and
/// the Fn button shows in the Full layout only.
pub open spec fn mode_bar(bar: Seq<BarModel>, compact: bool) -> Seq<BarModel> {
    Seq::new(bar.len(), |i: int| BarModel {
        t: if bar[i].id == BAR_MODE { mode_label(compact) } else { bar[i].t },
        show: if bar[i].id == BAR_FN { !compact } else { bar[i].show },
        ..bar[i]
    })
}

/// The board after switching between the Full and Compact layouts: the Compact one starts
/// on its letters page, a waiting character and the hold popup are dropped, and the keys and
/// the top bar are rebuilt.
pub open spec fn mode_switch_state(b: BoardModel) -> BoardModel {
    let c = !b.compact;
    let b1 = BoardModel { compact: c, page: if c { 0 } else { b.page }, pending: -1i32, hold_popup: -1i32, ..b };
    let b2 = BoardModel { keys: build_keys_spec(b1), ..b1 };
    BoardModel { bar: mode_bar(b2.bar, c), ..b2 }
}

/// A button of the top bar.  Every button stores the settings afterwards.  ✕ closes the
/// keyboard; Fn shows or hides the function row; ⚙, ★, Clip and SC each open their page
/// (closing the others) or close it again (Clip also scrolls back to the top, SC stops the
/// recorder first); the layout button switches between Full and Compact.
#[verifier::opaque]
pub open spec fn bar_spec(b: BoardModel, id: i32) -> (BoardModel, Seq<OutModel>) {
    let done = seq![OutModel::Resize, OutModel::Save];
    if id == BAR_X {
        (b, seq![OutModel::Close, OutModel::Save])
    } else if id == BAR_FN {
        (BoardModel { show_fn: !b.show_fn, ..b }, done)
    } else if id == BAR_GEAR {
        let v = !b.show_settings;
        (BoardModel {
            show_settings: v,
            show_macros: if v { false } else { b.show_macros },
            view_clip: if v { false } else { b.view_clip },
            view_sc: if v { false } else { b.view_sc },
            ..b
        }, done)
    } else if id == BAR_STAR {
        let v = !b.show_macros;
        (BoardModel {
            show_macros: v,
            show_settings: if v { false } else { b.show_settings },
            view_clip: if v { false } else { b.view_clip },
            view_sc: if v { false } else { b.view_sc },
            ..b
        }, done)
    } else if id == BAR_CLIP {
        let v = !b.view_clip;
        (BoardModel {
            view_clip: v,
            show_settings: if v { false } else { b.show_settings },
            show_macros: if v { false } else { b.show_macros },
            view_sc: if v { false } else { b.view_sc },
            pin_arm: if v { b.pin_arm } else { false },
            clip_off: 0,
            ..b
        }, done)
    } else if id == BAR_SC {
        let b1 = if b.rec_slot >= 0 { cancel_record_spec(b) } else { b };
        let v = !b1.view_sc;
        (BoardModel {
            view_sc: v,
            show_settings: if v { false } else { b1.show_settings },
            show_macros: if v { false } else { b1.show_macros },
            view_clip: if v { false } else { b1.view_clip },
            pin_arm: if v { false } else { b1.pin_arm },
            sc_del_arm: if v { b1.sc_del_arm } else { false },
            star_arm: if v { b1.star_arm } else { false },
            ..b1
        }, done)
    } else if id == BAR_MODE {
        (mode_switch_state(b), seq![OutModel::KillTimer(TIMER_HOLD)] + done)
    } else {
        (b, seq![OutModel::Save])
    }
}

/// At most one page is open: the settings row, the shortcut row, the clipboard page or the
/// shortcut page.
pub open spec fn one_page(b: BoardModel) -> bool {
    (if b.show_settings { 1int } else { 0int }) + (if b.show_macros { 1int } else { 0int })
        + (if b.view_clip { 1int } else { 0int }) + (if b.view_sc { 1int } else { 0int }) <= 1
}

/// The bar buttons keep at most one page open: ⚙, ★, Clip and SC each flip their own page
/// and opening one closes the others; Clip scrolls back to the top and, when it closes the
/// clipboard page, disarms its pin switch; SC ends any recording.  Every button stores the
/// settings.
pub proof fn lemma_bar_pages(b: BoardModel, id: i32)
    requires
        board_wf(b),
        one_page(b),
    ensures
        one_page(bar_spec(b, id).0),
        id == BAR_GEAR ==> bar_spec(b, id).0.show_settings == !b.show_settings,
        id == BAR_STAR ==> bar_spec(b, id).0.show_macros == !b.show_macros,
        id == BAR_CLIP ==> bar_spec(b, id).0.view_clip == !b.view_clip,
        id == BAR_SC ==> bar_spec(b, id).0.view_sc == !b.view_sc,
        id == BAR_CLIP ==> bar_spec(b, id).0.clip_off == 0,
        id == BAR_CLIP && !bar_spec(b, id).0.view_clip ==> !bar_spec(b, id).0.pin_arm,
        id == BAR_SC ==> bar_spec(b, id).0.rec_slot == -1,
        bar_spec(b, id).1.last() == OutModel::Save,
{
    reveal(bar_spec);
    crate::board::lemma_board_wf(b);
}

impl Board {
    /// See `cancel_record_spec`.
    #[verifier::spinoff_prover]
    pub fn cancel_record(&mut self)
        requires
            old(self).wf(),
        ensures
            final(self).wf(),
            final(self)@ == cancel_record_spec(old(self)@),
    {
        proof {
            crate::board::lemma_board_wf_all();
        }
        let ghost b0 = self@;
        self.rec_slot = -1;
        self.rec_step = 0;
        self.rec_mods = 0;
        self.rec_vk = 0;
        self.rec_name = [0u16; 10];
        self.mods = [crate::board::M_OFF; 4];
        assert(self.rec_name@ =~= no_name());
        assert(self.mods@ =~= Seq::new(4, |i: int| crate::board::M_OFF));
    }

    /// See `mode_bar`.
    #[verifier::spinoff_prover]
    pub fn set_mode_label(&mut self)
        requires
            old(self).wf(),
        ensures
            final(self).wf(),
            final(self)@ == (BoardModel { bar: mode_bar(old(self)@.bar, old(self)@.compact), ..old(self)@ }),
    {
        let nb = relabel(&self.bar, self.compact);
        self.set_bar(nb);
    }

    #[verifier::spinoff_prover]
    fn set_bar(&mut self, v: [BarBtn; 7])
        requires
            old(self).wf(),
            forall|i: int| 0 <= i < 7 ==> #[trigger] v@[i].id == old(self).bar@[i].id,
        ensures
            final(self).wf(),
            final(self)@ == (BoardModel { bar: v@.map_values(|x: BarBtn| x@), ..old(self)@ }),
    {
        proof {
            crate::board::lemma_board_wf_all();
        }
        let ghost b0 = self@;
        self.bar = v;
        assert forall|i: int| 0 <= i < 7 implies 0 <= #[trigger] self@.bar[i].id <= 7 by {
            assert(b0.bar[i].id == old(self).bar@[i].id);
        }
    }

    /// See `bar_spec`.
    #[verifier::spinoff_prover]
    pub fn do_bar(&mut self, id: i32, out: &mut Vec<Out>)
        requires
            old(self).wf(),
        ensures
            final(self).wf(),
            final(self)@ == bar_spec(old(self)@, id).0,
            outs_view(final(out)@) == outs_view(old(out)@) + bar_spec(old(self)@, id).1,
    {
        if id == BAR_MODE {
            self.bar_mode(out);
        } else if id == BAR_SC {
            self.bar_sc(out);
        } else if id == BAR_CLIP {
            self.bar_clip(out);
        } else {
            self.bar_simple(id, out);
        }
    }

    #[verifier::spinoff_prover]
    fn bar_mode(&mut self, out: &mut Vec<Out>)
        requires
            old(self).wf(),
        ensures
            final(self).wf(),
            final(self)@ == bar_spec(old(self)@, BAR_MODE).0,
            outs_view(final(out)@) == outs_view(old(out)@) + bar_spec(old(self)@, BAR_MODE).1,
    {
        reveal(bar_spec);
        let ghost o0 = outs_view(out@);
        let c = !self.compact;
        let pg = if c { 0 } else { self.page };
        self.set_mode(c, pg);
        push_out(out, Out::KillTimer(TIMER_HOLD));
        self.build_keys();
        self.set_mode_label();
        push_out(out, Out::Resize);
        push_out(out, Out::Save);
        assert(outs_view(out@) =~= o0 + (seq![OutModel::KillTimer(TIMER_HOLD)] + seq![OutModel::Resize, OutModel::Save]));
    }

    #[verifier::spinoff_prover]
    fn set_mode(&mut self, c: bool, pg: i32)
        requires
            old(self).wf(),
        ensures
            final(self).wf(),
            final(self)@ == (BoardModel { compact: c, page: pg, pending: -1i32, hold_popup: -1i32, ..old(self)@ }),
    {
        proof {
            crate::board::lemma_board_wf_all();
        }
        self.compact = c;
        self.page = pg;
        self.pending = -1;
        self.hold_popup = -1;
    }

    #[verifier::spinoff_prover]
    fn bar_sc(&mut self, out: &mut Vec<Out>)
        requires
            old(self).wf(),
        ensures
            final(self).wf(),
            final(self)@ == bar_spec(old(self)@, BAR_SC).0,
            outs_view(final(out)@) == outs_view(old(out)@) + bar_spec(old(self)@, BAR_SC).1,
    {
        reveal(bar_spec);
        let ghost o0 = outs_view(out@);
        if self.rec_slot >= 0 {
            self.cancel_record();
        }
        let v = !self.view_sc;
        self.set_sc_view(v);
        push_out(out, Out::Resize);
        push_out(out, Out::Save);
        assert(outs_view(out@) =~= o0 + seq![OutModel::Resize, OutModel::Save]);
    }

    #[verifier::spinoff_prover]
    fn set_sc_view(&mut self, v: bool)
        requires
            old(self).wf(),
        ensures
            final(self).wf(),
            final(self)@ == (BoardModel {
                view_sc: v,
                show_settings: if v { false } else { old(self)@.show_settings },
                show_macros: if v { false } else { old(self)@.show_macros },
                view_clip: if v { false } else { old(self)@.view_clip },
                pin_arm: if v { false } else { old(self)@.pin_arm },
                sc_del_arm: if v { old(self)@.sc_del_arm } else { false },
                star_arm: if v { old(self)@.star_arm } else { false },
                ..old(self)@
            }),
    {
        proof {
            crate::board::lemma_board_wf_all();
        }
        self.view_sc = v;
        if v {
            self.show_settings = false;
            self.show_macros = false;
            self.view_clip = false;
            self.pin_arm = false;
        } else {
            self.sc_del_arm = false;
            self.star_arm = false;
        }
    }

    #[verifier::spinoff_prover]
    fn bar_clip(&mut self, out: &mut Vec<Out>)
        requires
            old(self).wf(),
        ensures
            final(self).wf(),
            final(self)@ == bar_spec(old(self)@, BAR_CLIP).0,
            outs_view(final(out)@) == outs_view(old(out)@) + bar_spec(old(self)@, BAR_CLIP).1,
    {
        proof {
            crate::board::lemma_board_wf_all();
        }
        reveal(bar_spec);
        let ghost o0 = outs_view(out@);
        let v = !self.view_clip;
        self.set_clip_view(v);
        self.clips.scroll_top();
        push_out(out, Out::Resize);
        push_out(out, Out::Save);
        assert(outs_view(out@) =~= o0 + seq![OutModel::Resize, OutModel::Save]);
    }

    #[verifier::spinoff_prover]
    fn set_clip_view(&mut self, v: bool)
        requires
            old(self).wf(),
        ensures
            final(self).wf(),
            final(self)@ == (BoardModel {
                view_clip: v,
                show_settings: if v { false } else { old(self)@.show_settings },
                show_macros: if v { false } else { old(self)@.show_macros },
                view_sc: if v { false } else { old(self)@.view_sc },
                pin_arm: if v { old(self)@.pin_arm } else { false },
                ..old(self)@
            }),
    {
        proof {
            crate::board::lemma_board_wf_all();
        }
        self.view_clip = v;
        if v {
            self.show_settings = false;
            self.show_macros = false;
            self.view_sc = false;
        } else {
            self.pin_arm = false;
        }
    }

    #[verifier::spinoff_prover]
    fn bar_simple(&mut self, id: i32, out: &mut Vec<Out>)
        requires
            old(self).wf(),
            id != BAR_MODE && id != BAR_SC && id != BAR_CLIP,
        ensures
            final(self).wf(),
            final(self)@ == bar_spec(old(self)@, id).0,
            outs_view(final(out)@) == outs_view(old(out)@) + bar_spec(old(self)@, id).1,
    {
        if id == BAR_FN {
            self.bar_fn(out);
        } else if id == BAR_GEAR {
            self.bar_gear(out);
        } else if id == BAR_STAR {
            self.bar_star(out);
        } else {
            self.bar_host(id, out);
        }
    }

    #[verifier::spinoff_prover]
    fn bar_fn(&mut self, out: &mut Vec<Out>)
        requires
            old(self).wf(),
        ensures
            final(self).wf(),
            final(self)@ == bar_spec(old(self)@, BAR_FN).0,
            outs_view(final(out)@) == outs_view(old(out)@) + bar_spec(old(self)@, BAR_FN).1,
    {
        reveal(bar_spec);
        let ghost o0 = outs_view(out@);
        let v = !self.show_fn;
        self.set_show_fn(v);
        push_out(out, Out::Resize);
        push_out(out, Out::Save);
        assert(outs_view(out@) =~= o0 + seq![OutModel::Resize, OutModel::Save]);
    }

    #[verifier::spinoff_prover]
    fn bar_gear(&mut self, out: &mut Vec<Out>)
        requires
            old(self).wf(),
        ensures
            final(self).wf(),
            final(self)@ == bar_spec(old(self)@, BAR_GEAR).0,
            outs_view(final(out)@) == outs_view(old(out)@) + bar_spec(old(self)@, BAR_GEAR).1,
    {
        reveal(bar_spec);
        let ghost o0 = outs_view(out@);
        let v = !self.show_settings;
        self.set_settings_view(v);
        push_out(out, Out::Resize);
        push_out(out, Out::Save);
        assert(outs_view(out@) =~= o0 + seq![OutModel::Resize, OutModel::Save]);
    }

    #[verifier::spinoff_prover]
    fn bar_star(&mut self, out: &mut Vec<Out>)
        requires
            old(self).wf(),
        ensures
            final(self).wf(),
            final(self)@ == bar_spec(old(self)@, BAR_STAR).0,
            outs_view(final(out)@) == outs_view(old(out)@) + bar_spec(old(self)@, BAR_STAR).1,
    {
        reveal(bar_spec);
        let ghost o0 = outs_view(out@);
        let v = !self.show_macros;
        self.set_macros_view(v);
        push_out(out, Out::Resize);
        push_out(out, Out::Save);
        assert(outs_view(out@) =~= o0 + seq![OutModel::Resize, OutModel::Save]);
    }

    #[verifier::spinoff_prover]
    fn bar_host(&mut self, id: i32, out: &mut Vec<Out>)
        requires
            old(self).wf(),
            id != BAR_MODE && id != BAR_SC && id != BAR_CLIP && id != BAR_FN && id != BAR_GEAR && id != BAR_STAR,
        ensures
            final(self).wf(),
            final(self)@ == bar_spec(old(self)@, id).0,
            outs_view(final(out)@) == outs_view(old(out)@) + bar_spec(old(self)@, id).1,
    {
        reveal(bar_spec);
        let ghost o0 = outs_view(out@);
        if id == BAR_X {
            push_out(out, Out::Close);
        }
        push_out(out, Out::Save);
        assert(outs_view(out@) =~= o0 + bar_spec(old(self)@, id).1);
    }
}

/// The top bar's buttons after a change of layout (see `mode_bar`).
#[verifier::spinoff_prover]
fn relabel(bar: &[BarBtn; 7], compact: bool) -> (r: [BarBtn; 7])
    ensures
        r@.map_values(|x: BarBtn| x@) == mode_bar(bar@.map_values(|x: BarBtn| x@), compact),
        forall|i: int| 0 <= i < 7 ==> #[trigger] r@[i].id == bar@[i].id,
{
    let ghost bv = bar@.map_values(|x: BarBtn| x@);
    let mut r = *bar;
    let mut i: usize = 0;
    while i < 7
        invariant
            i <= 7,
            bv == bar@.map_values(|x: BarBtn| x@),
            r@.len() == 7,
            forall|j: int| 0 <= j < i ==> #[trigger] r@[j]@ == mode_bar(bv, compact)[j],
            forall|j: int| 0 <= j < 7 ==> #[trigger] r@[j].id == bar@[j].id,
            forall|j: int| i <= j < 7 ==> #[trigger] r@[j] == bar@[j],
        decreases 7 - i,
    {
        let mut e = r[i];
        if e.id == BAR_MODE {
            if compact {
                set_wstr(&mut e.t, "Full");
            } else {
                set_wstr(&mut e.t, "Compact");
            }
        }
        if e.id == BAR_FN {
            e.show = !compact;
        }
        r[i] = e;
        i = i + 1;
    }
    assert(r@.map_values(|x: BarBtn| x@) =~= mode_bar(bv, compact));
    r
}

impl Board {
    #[verifier::spinoff_prover]
    pub(crate) fn set_show_fn(&mut self, v: bool)
        requires
            old(self).wf(),
        ensures
            final(self).wf(),
            final(self)@ == (BoardModel { show_fn: v, ..old(self)@ }),
    {
        proof {
            crate::board::lemma_board_wf_all();
        }
        self.show_fn = v;
    }

    #[verifier::spinoff_prover]
    fn set_settings_view(&mut self, v: bool)
        requires
            old(self).wf(),
        ensures
            final(self).wf(),
            final(self)@ == (BoardModel {
                show_settings: v,
                show_macros: if v { false } else { old(self)@.show_macros },
                view_clip: if v { false } else { old(self)@.view_clip },
                view_sc: if v { false } else { old(self)@.view_sc },
                ..old(self)@
            }),
    {
        proof {
            crate::board::lemma_board_wf_all();
        }
        self.show_settings = v;
        if v {
            self.show_macros = false;
            self.view_clip = false;
            self.view_sc = false;
        }
    }

    #[verifier::spinoff_prover]
    fn set_macros_view(&mut self, v: bool)
        requires
            old(self).wf(),
        ensures
            final(self).wf(),
            final(self)@ == (BoardModel {
                show_macros: v,
                show_settings: if v { false } else { old(self)@.show_settings },
                view_clip: if v { false } else { old(self)@.view_clip },
                view_sc: if v { false } else { old(self)@.view_sc },
                ..old(self)@
            }),
    {
        proof {
            crate::board::lemma_board_wf_all();
        }
        self.show_macros = v;
        if v {
            self.show_settings = false;
            self.view_clip = false;
            self.view_sc = false;
        }
    }
}

} // verus!
