//! What pressing keys does: sticky modifiers, typing through the word tracker, the
//! autocorrect undo, backspace handling and the modifier-held shortcuts.
//!
//! The keyboard never touches the system itself: every operation appends the actions the
//! host has to carry out, in order, to a list of [`Out`] values.
use vstd::prelude::*;
use crate::board::{Board, BoardModel, Kind, KeyModel, Rect, board_wf, mod_state_ok, lemma_tracker_ok, lemma_tracker_flags, set_rect, M_OFF, M_HELD, M_LOCKED, MX_SHIFT, MX_CTRL, MX_ALT, MX_WIN, TIMER_SHCAP, TIMER_HOLD, BKSP_DBL_MS};
use crate::keys::{mod_vk, mod_vk_spec, char_to_vk, char_to_vk_spec, VK_SHIFT, VK_BACK, VK_RETURN, VK_CONTROL, VK_MENU, VK_LWIN, VK_SPACE, VK_CAPITAL};
use crate::predict::{
    PredModel, Predictor, pred_wf, type_units, word_char_spec, autocorrect_choice, corrected_word,
    cur_dict, autocorrect_state,
};
use crate::text::{zstr, zero_prefix, units_vec};

verus! {

/// An action for the host, in the order the keyboard asks for them.
pub enum Out {
    /// Give the keyboard focus back to the window the user types into.
    Focus,
    /// Press a virtual key.
    Down(u32),
    /// Release a virtual key.
    Up(u32),
    /// Press and release a virtual key.
    Tap(u32),
    /// Type these UTF-16 units as Unicode input.
    Type(Vec<u16>),
    /// Wait this many milliseconds.
    Sleep(u32),
    /// Start (or restart) a timer, with its period in milliseconds.
    SetTimer(usize, u32),
    /// Stop a timer.
    KillTimer(usize),
    /// The keys were rebuilt: lay them out again.
    Relayout,
    /// The window's size may have changed: lay everything out again.
    Resize,
    /// Store the settings.
    Save,
    /// Apply the opacity.
    Opacity,
    /// Make the keyboard one step smaller.
    Smaller,
    /// Make the keyboard one step larger.
    Larger,
    /// Pin the target window on top, or unpin it.
    PinWindow,
    /// Put clipboard history entry `i` on the clipboard.
    Paste(usize),
    /// Close the keyboard.
    Close,
}

/// An action as a mathematical value.
pub enum OutModel {
    Focus,
    Down(u32),
    Up(u32),
    Tap(u32),
    Type(Seq<u16>),
    Sleep(u32),
    SetTimer(usize, u32),
    KillTimer(usize),
    Relayout,
    Resize,
    Save,
    Opacity,
    Smaller,
    Larger,
    PinWindow,
    Paste(usize),
    Close,
}

impl View for Out {
    type V = OutModel;

    open spec fn view(&self) -> OutModel {
        match self {
            Out::Focus => OutModel::Focus,
            Out::Down(v) => OutModel::Down(*v),
            Out::Up(v) => OutModel::Up(*v),
            Out::Tap(v) => OutModel::Tap(*v),
            Out::Type(u) => OutModel::Type(u@),
            Out::Sleep(ms) => OutModel::Sleep(*ms),
            Out::SetTimer(id, ms) => OutModel::SetTimer(*id, *ms),
            Out::KillTimer(id) => OutModel::KillTimer(*id),
            Out::Relayout => OutModel::Relayout,
            Out::Resize => OutModel::Resize,
            Out::Save => OutModel::Save,
            Out::Opacity => OutModel::Opacity,
            Out::Smaller => OutModel::Smaller,
            Out::Larger => OutModel::Larger,
            Out::PinWindow => OutModel::PinWindow,
            Out::Paste(i) => OutModel::Paste(*i),
            Out::Close => OutModel::Close,
        }
    }
}

pub open spec fn outs_view(o: Seq<Out>) -> Seq<OutModel> {
    o.map_values(|x: Out| x@)
}

/// Appends one action.
#[verifier::spinoff_prover]
pub fn push_out(out: &mut Vec<Out>, o: Out)
    ensures
        outs_view(final(out)@) == outs_view(old(out)@).push(o@),
{
    let ghost before = outs_view(out@);
    let ghost ov = o@;
    out.push(o);
    assert(outs_view(out@) =~= before.push(ov));
}

/// The board with its modifiers replaced.
pub open spec fn with_mods(b: BoardModel, m: Seq<i32>) -> BoardModel {
    BoardModel { mods: m, ..b }
}

/// The board with its word tracker replaced.
pub open spec fn with_pred(b: BoardModel, p: PredModel) -> BoardModel {
    BoardModel { pred: p, ..b }
}

/// `n` taps of a key.
pub open spec fn taps(vk: u32, n: nat) -> Seq<OutModel> {
    Seq::new(n, |i: int| OutModel::Tap(vk))
}

#[verifier::spinoff_prover]
fn push_taps(out: &mut Vec<Out>, vk: u32, n: usize)
    ensures
        outs_view(final(out)@) == outs_view(old(out)@) + taps(vk, n as nat),
{
    let ghost o0 = outs_view(out@);
    let mut i: usize = 0;
    while i < n
        invariant
            i <= n,
            outs_view(out@) == o0 + taps(vk, i as nat),
        decreases n - i,
    {
        push_out(out, Out::Tap(vk));
        assert(o0 + taps(vk, (i + 1) as nat) =~= (o0 + taps(vk, i as nat)).push(OutModel::Tap(vk)));
        i = i + 1;
    }
}

/// Appends what a correction returned by the word tracker types: `n` Backspaces, then the
/// correction.
#[verifier::spinoff_prover]
fn push_correction(out: &mut Vec<Out>, n: usize, r: Option<Vec<u16>>)
    ensures
        outs_view(final(out)@) == outs_view(old(out)@) + (match r {
            None => seq![],
            Some(w) => taps(VK_BACK, n as nat) + seq![OutModel::Type(w@)],
        }),
{
    let ghost o0 = outs_view(out@);
    match r {
        None => {
            assert(outs_view(out@) =~= o0 + seq![]);
        },
        Some(w) => {
            let ghost wv = w@;
            push_taps(out, VK_BACK, n);
            push_out(out, Out::Type(w));
            assert(outs_view(out@) =~= o0 + (taps(VK_BACK, n as nat) + seq![OutModel::Type(wv)]));
        },
    }
}

#[verifier::spinoff_prover]
fn pred_autocorrect(p: &mut Predictor, trail: bool, out: &mut Vec<Out>)
    requires
        old(p).wf(),
    ensures
        final(p).wf(),
        final(p)@ == autocorrect_pred(old(p)@, trail),
        outs_view(final(out)@) == outs_view(old(out)@) + autocorrect_outs(old(p)@),
{
    let n = p.word_len();
    let r = p.auto_correct_now(trail);
    push_correction(out, n, r);
}

// ---------------------------------------------------------------------------
// Sticky modifiers
// ---------------------------------------------------------------------------

/// The state a modifier goes to when its key is pressed: off, held, locked, off again.
pub open spec fn next_mod_state(v: i32) -> i32 {
    if v == M_OFF { M_HELD } else if v == M_HELD { M_LOCKED } else { M_OFF }
}

/// Pressing modifier key `m`: it cycles off → held (its key goes down) → locked → off
/// (its key comes up).
pub open spec fn toggle_mod_spec(b: BoardModel, m: int) -> (BoardModel, Seq<OutModel>) {
    let v = b.mods[m];
    let b1 = with_mods(b, b.mods.update(m, next_mod_state(v)));
    if v == M_OFF {
        (b1, seq![OutModel::Down(mod_vk_spec(m))])
    } else if v == M_HELD {
        (b1, seq![])
    } else {
        (b1, seq![OutModel::Up(mod_vk_spec(m))])
    }
}

/// The modifiers after the held ones (not the locked ones) were released.
pub open spec fn clear_held(mods: Seq<i32>) -> Seq<i32> {
    Seq::new(mods.len(), |i: int| if mods[i] == M_HELD { M_OFF } else { mods[i] })
}

/// The key-up actions that release the held modifiers among the first `k`.
pub open spec fn release_held_upto(mods: Seq<i32>, k: int) -> Seq<OutModel>
    decreases k,
{
    if k <= 0 {
        seq![]
    } else {
        release_held_upto(mods, k - 1) + (if mods[k - 1] == M_HELD {
            seq![OutModel::Up(mod_vk_spec(k - 1))]
        } else {
            seq![]
        })
    }
}

/// After a key other than a modifier: every held modifier is released.
pub open spec fn consume_held_spec(b: BoardModel) -> (BoardModel, Seq<OutModel>) {
    (with_mods(b, clear_held(b.mods)), release_held_upto(b.mods, 4))
}

/// Ctrl, Alt or Win is on (held or locked).
pub open spec fn combo_active_spec(b: BoardModel) -> bool {
    b.mods[MX_CTRL as int] != M_OFF || b.mods[MX_ALT as int] != M_OFF || b.mods[MX_WIN as int] != M_OFF
}

/// Whether the shifted character of a key is meant: for a letter, Caps Lock and Shift
/// cancel out; otherwise Shift alone decides.
pub open spec fn shifted_for_spec(b: BoardModel, lo: u16, caps: bool) -> bool {
    let c = (lo % 256) as u8;
    let sh = b.mods[MX_SHIFT as int] != M_OFF;
    if (65 <= c <= 90) || (97 <= c <= 122) { caps != sh } else { sh }
}

impl Board {
    /// See `combo_active_spec`.
    #[verifier::spinoff_prover]
    pub fn combo_active(&self) -> (r: bool)
        requires
            self.wf(),
        ensures
            r == combo_active_spec(self@),
    {
        self.mods[MX_CTRL] != M_OFF || self.mods[MX_ALT] != M_OFF || self.mods[MX_WIN] != M_OFF
    }

    /// See `shifted_for_spec`; `caps` is whether Caps Lock is on.
    #[verifier::spinoff_prover]
    pub fn shifted_for(&self, lo: u16, caps: bool) -> (r: bool)
        requires
            self.wf(),
        ensures
            r == shifted_for_spec(self@, lo, caps),
    {
        let c = (lo % 256) as u8;
        let sh = self.mods[MX_SHIFT] != M_OFF;
        if (65u8 <= c && c <= 90u8) || (97u8 <= c && c <= 122u8) {
            return caps != sh;
        }
        sh
    }

    /// See `toggle_mod_spec`.
    #[verifier::spinoff_prover]
    pub fn toggle_mod(&mut self, m: usize, out: &mut Vec<Out>)
        requires
            old(self).wf(),
            m < 4,
        ensures
            final(self).wf(),
            final(self)@ == toggle_mod_spec(old(self)@, m as int).0,
            outs_view(final(out)@) == outs_view(old(out)@) + toggle_mod_spec(old(self)@, m as int).1,
    {
        let vk = mod_vk(m);
        let v = self.mods[m];
        let nv: i32 = if v == M_OFF { M_HELD } else if v == M_HELD { M_LOCKED } else { M_OFF };
        self.set_mod(m, nv);
        if v == M_OFF {
            push_out(out, Out::Down(vk));
        } else if v != M_HELD {
            push_out(out, Out::Up(vk));
        }
    }

    /// Sets modifier slot `m` to state `v`.
    #[verifier::spinoff_prover]
    pub fn set_mod(&mut self, m: usize, v: i32)
        requires
            old(self).wf(),
            m < 4,
            mod_state_ok(v),
        ensures
            final(self).wf(),
            final(self)@ == with_mods(old(self)@, old(self)@.mods.update(m as int, v)),
    {
        proof {
            crate::board::lemma_board_wf_all();
        }
        let ghost b0 = self@;
        self.mods[m] = v;
        assert(self.mods@ =~= b0.mods.update(m as int, v));
    }

    /// See `consume_held_spec`.
    #[verifier::spinoff_prover]
    pub fn consume_held(&mut self, out: &mut Vec<Out>)
        requires
            old(self).wf(),
        ensures
            final(self).wf(),
            final(self)@ == consume_held_spec(old(self)@).0,
            outs_view(final(out)@) == outs_view(old(out)@) + consume_held_spec(old(self)@).1,
    {
        proof {
            crate::board::lemma_board_wf_all();
        }
        let ghost o0 = outs_view(out@);
        let ghost b0 = self@;
        let ghost m0 = self.mods@;
        let mut i: usize = 0;
        while i < 4
            invariant
                i <= 4,
                b0.mods == m0,
                board_wf(b0),
                self.mods@ == Seq::new(4, |j: int| if j < i && m0[j] == M_HELD { M_OFF } else { m0[j] }),
                self@ == (BoardModel { mods: self.mods@, ..b0 }),
                outs_view(out@) == o0 + release_held_upto(m0, i as int),
            decreases 4 - i,
        {
            if self.mods[i] == M_HELD {
                let vk = mod_vk(i);
                push_out(out, Out::Up(vk));
                self.mods[i] = M_OFF;
            }
            assert(self.mods@ =~= Seq::new(4, |j: int| if j < i + 1 && m0[j] == M_HELD { M_OFF } else { m0[j] }));
            assert(outs_view(out@) =~= o0 + release_held_upto(m0, i + 1));
            i = i + 1;
        }
        assert(self.mods@ =~= clear_held(m0));
        assert(self@ == consume_held_spec(b0).0);
    }
}

// ---------------------------------------------------------------------------
// Typing
// ---------------------------------------------------------------------------

/// A unit that ends a word and so gives autocorrect its chance: anything but a letter,
/// a digit, an apostrophe or an underscore (judged on the low byte).
pub open spec fn is_commit_unit(c: u16) -> bool {
    c != 39 && c != 95 && !((48 <= c % 256 <= 57) || (65 <= c % 256 <= 90) || (97 <= c % 256 <= 122))
}

/// Autocorrect on the word typed so far (see `autocorrect_choice`): the word tracker after
/// it.
pub open spec fn autocorrect_pred(m: PredModel, trail: bool) -> PredModel {
    match autocorrect_choice(m) {
        None => m,
        Some(i) => autocorrect_state(m, corrected_word(cur_dict(m)[i], m.word_buf), trail),
    }
}

/// What autocorrect sends: when a correction is chosen, the typed word is erased with one
/// Backspace per unit and the correction typed in its place.
pub open spec fn autocorrect_outs(m: PredModel) -> Seq<OutModel> {
    match autocorrect_choice(m) {
        None => seq![],
        Some(i) => taps(VK_BACK, m.word_buf.len()) + seq![OutModel::Type(corrected_word(cur_dict(m)[i], m.word_buf))],
    }
}

pub open spec fn autocorrect_out(m: PredModel, trail: bool) -> (PredModel, Seq<OutModel>) {
    (autocorrect_pred(m, trail), autocorrect_outs(m))
}

/// The word tracker with the autocorrect undo disarmed.
pub open spec fn disarm(p: PredModel) -> PredModel {
    PredModel { auto_active: false, ..p }
}

/// The word tracker once the undo is disarmed and, if `fix`, autocorrect had its chance.
pub open spec fn fixed_pred(p: PredModel, fix: bool, trail: bool) -> PredModel {
    if fix { autocorrect_pred(disarm(p), trail) } else { disarm(p) }
}

/// What autocorrect sent, if it had its chance.
#[verifier::opaque]
pub open spec fn fixed_outs(p: PredModel, fix: bool) -> Seq<OutModel> {
    if fix { autocorrect_outs(disarm(p)) } else { seq![] }
}

/// Whether typing text `u` lets autocorrect fix the word first: it is a single word-ending
/// unit, typed without Ctrl, Alt or Win, after a word of at least 3 units.
pub open spec fn text_fix(b: BoardModel, u: Seq<u16>) -> bool {
    u.len() == 1 && !combo_active_spec(b) && is_commit_unit(u[0]) && b.pred.word_buf.len() >= 3
}

/// Whether typing lets Shift go for the text: it is on, without Ctrl, Alt or Win.
pub open spec fn text_lift(b: BoardModel) -> bool {
    b.mods[MX_SHIFT as int] != M_OFF && !combo_active_spec(b)
}

/// The modifiers after the text was typed, before held ones are released: a held Shift
/// turns off.
pub open spec fn text_mods(b: BoardModel) -> Seq<i32> {
    if text_lift(b) && b.mods[MX_SHIFT as int] != M_LOCKED {
        b.mods.update(MX_SHIFT as int, M_OFF)
    } else {
        b.mods
    }
}

/// After typing, a locked Shift goes down again.
pub open spec fn shift_back_outs(b: BoardModel) -> Seq<OutModel> {
    if text_lift(b) && b.mods[MX_SHIFT as int] == M_LOCKED { seq![OutModel::Down(VK_SHIFT)] } else { seq![] }
}

/// What typing text `u` sends before held modifiers are released.
pub open spec fn text_outs(b: BoardModel, u: Seq<u16>) -> Seq<OutModel> {
    text_outs_with(b, u, text_fix(b, u))
}

/// What typing text `u` sends before held modifiers are released, autocorrect having its
/// chance when `fix`.
pub open spec fn text_outs_with(b: BoardModel, u: Seq<u16>, fix: bool) -> Seq<OutModel> {
    seq![OutModel::Focus] + (if text_lift(b) { seq![OutModel::Up(VK_SHIFT)] } else { seq![] })
        + fixed_outs(b.pred, fix) + seq![OutModel::Type(u)] + shift_back_outs(b)
}

/// Typing text `s` (up to its first zero): Shift, if on, is let go while typing (a lone
/// word-ending unit first lets autocorrect fix the word), the text is typed and fed to the
/// word tracker, then a locked Shift goes down again, a held Shift turns off, and the other
/// held modifiers are released.  With Ctrl, Alt or Win on, Shift is left alone.
#[verifier::opaque]
pub open spec fn emit_text_spec(b: BoardModel, s: Seq<u16>) -> (BoardModel, Seq<OutModel>) {
    let u = zstr(s);
    (
        with_mods(with_pred(b, text_pred(b.pred, u, text_fix(b, u))), clear_held(text_mods(b))),
        text_outs(b, u) + release_held_upto(text_mods(b), 4),
    )
}

/// Typing text `s` (up to its first zero) as `emit_text_spec` does, except that autocorrect
/// never has a chance: the word typed so far is kept as it is.
#[verifier::opaque]
pub open spec fn emit_plain_spec(b: BoardModel, s: Seq<u16>) -> (BoardModel, Seq<OutModel>) {
    let u = zstr(s);
    (
        with_mods(with_pred(b, text_pred(b.pred, u, false)), clear_held(text_mods(b))),
        text_outs_with(b, u, false) + release_held_upto(text_mods(b), 4),
    )
}

/// The word tracker after a key that is not a character: Backspace shortens the word,
/// Enter ends it, a modifier key leaves it, anything else forgets it.
pub open spec fn after_key_spec(p: PredModel, vk: u32) -> PredModel {
    if vk == VK_BACK {
        crate::predict::word_chop_spec(p)
    } else if vk == VK_RETURN {
        crate::predict::word_commit_spec(p)
    } else if vk != VK_SHIFT && vk != VK_CONTROL && vk != VK_MENU && vk != VK_LWIN {
        crate::predict::word_clear_spec(p)
    } else {
        p
    }
}

/// Undoing an autocorrection: the word tracker gets the typed word back.
#[verifier::opaque]
pub open spec fn undo_pred(p: PredModel) -> PredModel {
    type_units(disarm(p), p.auto_orig)
}

/// Undoing an autocorrection: the correction, and the unit that triggered it, are erased
/// and the typed word typed again.
#[verifier::opaque]
pub open spec fn undo_outs(p: PredModel) -> Seq<OutModel> {
    taps(VK_BACK, (p.auto_corr_len + (if p.auto_trail { 1int } else { 0int })) as nat)
        + seq![OutModel::Type(p.auto_orig)]
}

/// Backspace right after an autocorrection undoes it.
pub open spec fn vk_undoes(b: BoardModel, vk: u32) -> bool {
    vk == VK_BACK && b.pred.auto_active
}

/// Enter lets autocorrect fix a word of 3 units or more, without Ctrl, Alt or Win.
pub open spec fn vk_fix(b: BoardModel, vk: u32) -> bool {
    vk == VK_RETURN && !combo_active_spec(b) && b.pred.word_buf.len() >= 3
}

/// The word tracker after sending virtual key `vk`.
pub open spec fn vk_pred(b: BoardModel, vk: u32) -> PredModel {
    if vk_undoes(b, vk) { undo_pred(b.pred) } else { key_pred(b.pred, vk, vk_fix(b, vk)) }
}

/// What sending virtual key `vk` sends before held modifiers are released.
pub open spec fn vk_outs(b: BoardModel, vk: u32) -> Seq<OutModel> {
    if vk_undoes(b, vk) {
        undo_outs(b.pred)
    } else {
        fixed_outs(b.pred, vk_fix(b, vk)) + seq![OutModel::Tap(vk)]
    }
}

/// Sending virtual key `vk`.  Backspace right after an autocorrection undoes it (see
/// `undo_outs`).  Otherwise Enter first gives autocorrect its chance, the key is tapped, and
/// the word tracker follows (see `after_key_spec`).  Held modifiers are released afterwards.
#[verifier::opaque]
pub open spec fn emit_vk_spec(b: BoardModel, vk: u32) -> (BoardModel, Seq<OutModel>) {
    (
        with_mods(with_pred(b, vk_pred(b, vk)), clear_held(b.mods)),
        seq![OutModel::Focus] + vk_outs(b, vk) + release_held_upto(b.mods, 4),
    )
}

/// A character lets autocorrect fix the word first when it ends a word of 3 units or more.
pub open spec fn char_fix(b: BoardModel, ch: u16) -> bool {
    is_commit_unit(ch) && b.pred.word_buf.len() >= 3
}

/// Typing character `ch` through virtual key `vk` (not 0), before the spec below picks
/// the case.
#[verifier::opaque]
pub open spec fn key_char_spec(b: BoardModel, vk: u32, ch: u16) -> (BoardModel, Seq<OutModel>) {
    (
        with_mods(with_pred(b, char_pred(b.pred, ch, char_fix(b, ch))), clear_held(b.mods)),
        seq![OutModel::Focus] + fixed_outs(b.pred, char_fix(b, ch)) + seq![OutModel::Tap(vk)]
            + release_held_upto(b.mods, 4),
    )
}

/// Typing character `ch` through virtual key `vk` (through Unicode input when `vk` is 0);
/// a word-ending character first lets autocorrect fix the word.
#[verifier::opaque]
pub open spec fn emit_vk_char_spec(b: BoardModel, vk: u32, ch: u16) -> (BoardModel, Seq<OutModel>) {
    if vk == 0 {
        emit_text_spec(b, seq![ch, 0u16])
    } else {
        key_char_spec(b, vk, ch)
    }
}

/// Typing the character `ch` of a key whose base character is `lo`.  With Ctrl, Alt or Win
/// on, the key's virtual key is sent so that the shortcut works (or the character typed when
/// it has none); otherwise the character goes through its virtual key (Space for a space).
#[verifier::opaque]
pub open spec fn emit_char_choice_spec(b: BoardModel, lo: u16, ch: u16) -> (BoardModel, Seq<OutModel>) {
    if combo_active_spec(b) {
        let vk = char_to_vk_spec(lo);
        if vk != 0 { emit_vk_spec(b, vk) } else { emit_text_spec(b, seq![ch, 0u16]) }
    } else {
        let vk = if ch == 32 { VK_SPACE } else { char_to_vk_spec(lo) };
        emit_vk_char_spec(b, vk, ch)
    }
}

/// The word tracker after typing text `u` (see `emit_text_spec`).
#[verifier::opaque]
pub open spec fn text_pred(p: PredModel, u: Seq<u16>, fix: bool) -> PredModel {
    type_units(fixed_pred(p, fix, true), u)
}

/// The word tracker after a key (see `emit_vk_spec`).
#[verifier::opaque]
pub open spec fn key_pred(p: PredModel, vk: u32, fix: bool) -> PredModel {
    after_key_spec(fixed_pred(p, fix, false), vk)
}

/// The word tracker after a character sent through its key (see `emit_vk_char_spec`).
#[verifier::opaque]
pub open spec fn char_pred(p: PredModel, ch: u16, fix: bool) -> PredModel {
    word_char_spec(fixed_pred(p, fix, true), ch)
}

/// Feeds the units of `u` to the word tracker.
#[verifier::spinoff_prover]
fn pred_feed(p: &mut Predictor, u: &[u16])
    requires
        old(p).wf(),
    ensures
        final(p).wf(),
        final(p)@ == type_units(old(p)@, u@),
{
    let ghost p0 = p@;
    let mut i: usize = 0;
    while i < u.len()
        invariant
            i <= u.len(),
            p.wf(),
            p@ == type_units(p0, u@.take(i as int)),
        decreases u.len() - i,
    {
        p.word_char(u[i]);
        assert(u@.take(i + 1).drop_last() =~= u@.take(i as int));
        i = i + 1;
    }
    assert(u@.take(u.len() as int) =~= u@);
}

/// See `fixed_pred` and `fixed_outs`.
#[verifier::spinoff_prover]
fn pred_fix(p: &mut Predictor, fix: bool, trail: bool, out: &mut Vec<Out>)
    requires
        old(p).wf(),
    ensures
        final(p).wf(),
        final(p)@ == fixed_pred(old(p)@, fix, trail),
        outs_view(final(out)@) == outs_view(old(out)@) + fixed_outs(old(p)@, fix),
{
    let ghost o0 = outs_view(out@);
    reveal(fixed_outs);
    p.disarm();
    if fix {
        pred_autocorrect(p, trail, out);
    } else {
        assert(outs_view(out@) =~= o0 + seq![]);
    }
}

/// The word-tracker part of typing text (see `emit_text_spec`).
#[verifier::spinoff_prover]
fn pred_text(p: &mut Predictor, u: &[u16], fix: bool, out: &mut Vec<Out>)
    requires
        old(p).wf(),
    ensures
        final(p).wf(),
        final(p)@ == text_pred(old(p)@, u@, fix),
        outs_view(final(out)@) == outs_view(old(out)@) + fixed_outs(old(p)@, fix) + seq![OutModel::Type(u@)],
{
    reveal(text_pred);
    pred_fix(p, fix, true, out);
    let t = units_vec(u);
    push_out(out, Out::Type(t));
    pred_feed(p, u);
}

/// The word-tracker part of a key (see `emit_vk_spec`).
#[verifier::spinoff_prover]
fn pred_key(p: &mut Predictor, vk: u32, fix: bool, out: &mut Vec<Out>)
    requires
        old(p).wf(),
    ensures
        final(p).wf(),
        final(p)@ == key_pred(old(p)@, vk, fix),
        outs_view(final(out)@) == outs_view(old(out)@) + fixed_outs(old(p)@, fix) + seq![OutModel::Tap(vk)],
{
    reveal(key_pred);
    pred_fix(p, fix, false, out);
    push_out(out, Out::Tap(vk));
    if vk == VK_BACK {
        p.word_chop();
    } else if vk == VK_RETURN {
        p.word_commit();
    } else if vk != VK_SHIFT && vk != VK_CONTROL && vk != VK_MENU && vk != VK_LWIN {
        p.word_clear();
    }
}

/// The word-tracker part of a character sent through its key (see `emit_vk_char_spec`).
#[verifier::spinoff_prover]
fn pred_key_char(p: &mut Predictor, vk: u32, ch: u16, fix: bool, out: &mut Vec<Out>)
    requires
        old(p).wf(),
    ensures
        final(p).wf(),
        final(p)@ == char_pred(old(p)@, ch, fix),
        outs_view(final(out)@) == outs_view(old(out)@) + fixed_outs(old(p)@, fix) + seq![OutModel::Tap(vk)],
{
    reveal(char_pred);
    pred_fix(p, fix, true, out);
    push_out(out, Out::Tap(vk));
    p.word_char(ch);
}

/// The word-tracker part of undoing an autocorrection (see `undo_outs`).
#[verifier::spinoff_prover]
fn pred_undo(p: &mut Predictor, out: &mut Vec<Out>)
    requires
        old(p).wf(),
    ensures
        final(p).wf(),
        final(p)@ == undo_pred(old(p)@),
        outs_view(final(out)@) == outs_view(old(out)@) + undo_outs(old(p)@),
{
    reveal(undo_pred);
    reveal(undo_outs);
    let ghost p0 = p@;
    let n = p.undo_len();
    let orig = units_vec(p.typed_before().as_slice());
    p.disarm();
    push_taps(out, VK_BACK, n);
    let t = units_vec(orig.as_slice());
    push_out(out, Out::Type(t));
    pred_feed(p, orig.as_slice());
}

impl Board {
    /// The word-tracker part of typing text, on the board.
    fn tracker_text(&mut self, u: &[u16], fix: bool, out: &mut Vec<Out>)
        requires
            old(self).wf(),
        ensures
            final(self).wf(),
            final(self)@ == with_pred(old(self)@, text_pred(old(self)@.pred, u@, fix)),
            outs_view(final(out)@) == outs_view(old(out)@) + fixed_outs(old(self)@.pred, fix) + seq![OutModel::Type(u@)],
    {
        proof {
            crate::board::lemma_board_wf_all();
            lemma_tracker_ok(self.pred@);
        }
        pred_text(&mut self.pred, u, fix, out);
        proof {
            lemma_tracker_ok(self.pred@);
        }
    }

    fn tracker_key(&mut self, vk: u32, fix: bool, out: &mut Vec<Out>)
        requires
            old(self).wf(),
        ensures
            final(self).wf(),
            final(self)@ == with_pred(old(self)@, key_pred(old(self)@.pred, vk, fix)),
            outs_view(final(out)@) == outs_view(old(out)@) + fixed_outs(old(self)@.pred, fix) + seq![OutModel::Tap(vk)],
    {
        proof {
            crate::board::lemma_board_wf_all();
            lemma_tracker_ok(self.pred@);
        }
        pred_key(&mut self.pred, vk, fix, out);
        proof {
            lemma_tracker_ok(self.pred@);
        }
    }

    fn tracker_key_char(&mut self, vk: u32, ch: u16, fix: bool, out: &mut Vec<Out>)
        requires
            old(self).wf(),
        ensures
            final(self).wf(),
            final(self)@ == with_pred(old(self)@, char_pred(old(self)@.pred, ch, fix)),
            outs_view(final(out)@) == outs_view(old(out)@) + fixed_outs(old(self)@.pred, fix) + seq![OutModel::Tap(vk)],
    {
        proof {
            crate::board::lemma_board_wf_all();
            lemma_tracker_ok(self.pred@);
        }
        pred_key_char(&mut self.pred, vk, ch, fix, out);
        proof {
            lemma_tracker_ok(self.pred@);
        }
    }

    #[verifier::spinoff_prover]
    fn tracker_undo(&mut self, out: &mut Vec<Out>)
        requires
            old(self).wf(),
        ensures
            final(self).wf(),
            final(self)@ == with_pred(old(self)@, undo_pred(old(self)@.pred)),
            outs_view(final(out)@) == outs_view(old(out)@) + undo_outs(old(self)@.pred),
    {
        let ghost b0 = self@;
        proof {
            crate::board::lemma_wf_pred(b0);
        }
        pred_undo(&mut self.pred, out);
        proof {
            crate::board::lemma_wf_frame_pred(b0, self@);
        }
    }

    /// The word typed so far, in units.
    #[verifier::spinoff_prover]
    pub fn word_len(&self) -> (n: usize)
        ensures
            n == self@.pred.word_buf.len(),
    {
        self.pred.word_len()
    }

    /// See `emit_text_spec`.
    #[verifier::spinoff_prover]
    pub fn emit_text(&mut self, s: &[u16], out: &mut Vec<Out>)
        requires
            old(self).wf(),
        ensures
            final(self).wf(),
            final(self)@ == emit_text_spec(old(self)@, s@).0,
            outs_view(final(out)@) == outs_view(old(out)@) + emit_text_spec(old(self)@, s@).1,
    {
        reveal(emit_text_spec);
        let ghost b0 = self@;
        let ghost o0 = outs_view(out@);
        let u = zero_prefix(s);
        self.type_text(u.as_slice(), true, out);
        let ghost o1 = outs_view(out@);
        assert(self@ == with_mods(with_pred(b0, text_pred(b0.pred, u@, text_fix(b0, u@))), text_mods(b0)));
        self.consume_held(out);
        assert(outs_view(out@) =~= o0 + (text_outs(b0, u@) + release_held_upto(text_mods(b0), 4)));
    }

    /// See `emit_plain_spec`.
    #[verifier::spinoff_prover]
    fn emit_plain(&mut self, s: &[u16], out: &mut Vec<Out>)
        requires
            old(self).wf(),
        ensures
            final(self).wf(),
            final(self)@ == emit_plain_spec(old(self)@, s@).0,
            outs_view(final(out)@) == outs_view(old(out)@) + emit_plain_spec(old(self)@, s@).1,
    {
        reveal(emit_plain_spec);
        let ghost b0 = self@;
        let ghost o0 = outs_view(out@);
        let u = zero_prefix(s);
        self.type_text(u.as_slice(), false, out);
        assert(self@ == with_mods(with_pred(b0, text_pred(b0.pred, u@, false)), text_mods(b0)));
        self.consume_held(out);
        assert(outs_view(out@) =~= o0 + (text_outs_with(b0, u@, false) + release_held_upto(text_mods(b0), 4)));
    }

    /// Puts a locked Shift down again, or turns a held one off, after typing.
    #[verifier::spinoff_prover]
    fn shift_after_text(&mut self, lift: bool, out: &mut Vec<Out>)
        requires
            old(self).wf(),
            lift == text_lift(old(self)@),
        ensures
            final(self).wf(),
            final(self)@ == with_mods(old(self)@, text_mods(old(self)@)),
            outs_view(final(out)@) == outs_view(old(out)@) + shift_back_outs(old(self)@),
    {
        let ghost o0 = outs_view(out@);
        let ghost b0 = self@;
        let ss = self.mods[MX_SHIFT];
        if lift && ss != M_LOCKED {
            self.set_mod(MX_SHIFT, M_OFF);
        } else {
            assert(b0 == with_mods(b0, b0.mods));
        }
        if lift && ss == M_LOCKED {
            push_out(out, Out::Down(VK_SHIFT));
        }
        assert(outs_view(out@) =~= o0 + shift_back_outs(b0));
    }

    /// See `text_lift`.
    #[verifier::spinoff_prover]
    fn text_lift(&self) -> (r: bool)
        requires
            self.wf(),
        ensures
            r == text_lift(self@),
    {
        self.mods[MX_SHIFT] != M_OFF && !self.combo_active()
    }

    /// See `text_fix`.
    #[verifier::spinoff_prover]
    fn text_fix(&self, u: &[u16]) -> (r: bool)
        requires
            self.wf(),
        ensures
            r == text_fix(self@, u@),
    {
        u.len() == 1 && !self.combo_active() && Predictor::is_commit_char(u[0]) && self.word_len() >= 3
    }

    /// Typing text `u` before held modifiers are released (see `emit_text_spec`).
    #[verifier::spinoff_prover]
    fn type_text(&mut self, u: &[u16], allow: bool, out: &mut Vec<Out>)
        requires
            old(self).wf(),
        ensures
            final(self).wf(),
            final(self)@ == with_mods(with_pred(old(self)@, text_pred(old(self)@.pred, u@, allow && text_fix(old(self)@, u@))), text_mods(old(self)@)),
            outs_view(final(out)@) == outs_view(old(out)@) + text_outs_with(old(self)@, u@, allow && text_fix(old(self)@, u@)),
    {
        let ghost b0 = self@;
        let ghost o0 = outs_view(out@);
        let lift = self.text_lift();
        let fix = allow && self.text_fix(u);
        self.lift_and_type(u, fix, lift, out);
        let ghost b1 = self@;
        assert(b1.mods == b0.mods);
        assert(text_lift(b1) == text_lift(b0));
        assert(text_mods(b1) == text_mods(b0));
        assert(shift_back_outs(b1) == shift_back_outs(b0));
        self.shift_after_text(lift, out);
        assert(outs_view(out@) =~= o0 + text_outs_with(b0, u@, fix));
    }

    #[verifier::spinoff_prover]
    fn lift_and_type(&mut self, u: &[u16], fix: bool, lift: bool, out: &mut Vec<Out>)
        requires
            old(self).wf(),
        ensures
            final(self).wf(),
            final(self)@ == with_pred(old(self)@, text_pred(old(self)@.pred, u@, fix)),
            outs_view(final(out)@) == outs_view(old(out)@) + (seq![OutModel::Focus] + (if lift { seq![OutModel::Up(VK_SHIFT)] } else { seq![] })
                + fixed_outs(old(self)@.pred, fix) + seq![OutModel::Type(u@)]),
    {
        let ghost o0 = outs_view(out@);
        push_out(out, Out::Focus);
        if lift {
            push_out(out, Out::Up(VK_SHIFT));
        }
        self.tracker_text(u, fix, out);
        assert(outs_view(out@) =~= o0 + (seq![OutModel::Focus] + (if lift { seq![OutModel::Up(VK_SHIFT)] } else { seq![] })
                + fixed_outs(old(self)@.pred, fix) + seq![OutModel::Type(u@)]));
    }

    /// The word-tracker part of sending a virtual key (see `vk_pred`, `vk_outs`).
    #[verifier::spinoff_prover]
    fn vk_tracker(&mut self, vk: u32, out: &mut Vec<Out>)
        requires
            old(self).wf(),
        ensures
            final(self).wf(),
            final(self)@ == with_pred(old(self)@, vk_pred(old(self)@, vk)),
            outs_view(final(out)@) == outs_view(old(out)@) + vk_outs(old(self)@, vk),
    {
        if vk == VK_BACK && self.pred.undo_armed() {
            self.tracker_undo(out);
            return;
        }
        let fix = vk == VK_RETURN && !self.combo_active() && self.word_len() >= 3;
        self.tracker_key(vk, fix, out);
    }

    /// See `emit_vk_spec`.
    #[verifier::spinoff_prover]
    pub fn emit_vk(&mut self, vk: u32, out: &mut Vec<Out>)
        requires
            old(self).wf(),
        ensures
            final(self).wf(),
            final(self)@ == emit_vk_spec(old(self)@, vk).0,
            outs_view(final(out)@) == outs_view(old(out)@) + emit_vk_spec(old(self)@, vk).1,
    {
        reveal(emit_vk_spec);
        let ghost b0 = self@;
        let ghost o0 = outs_view(out@);
        push_out(out, Out::Focus);
        self.vk_tracker(vk, out);
        let ghost b1 = self@;
        assert(b1.mods == b0.mods);
        self.consume_held(out);
        assert(outs_view(out@) =~= o0 + emit_vk_spec(b0, vk).1);
    }

    /// See `char_fix`.
    #[verifier::spinoff_prover]
    fn char_fix(&self, ch: u16) -> (r: bool)
        requires
            self.wf(),
        ensures
            r == char_fix(self@, ch),
    {
        Predictor::is_commit_char(ch) && self.word_len() >= 3
    }

    /// See `emit_vk_char_spec`.
    #[verifier::spinoff_prover]
    pub fn emit_vk_char(&mut self, vk: u32, ch: u16, out: &mut Vec<Out>)
        requires
            old(self).wf(),
        ensures
            final(self).wf(),
            final(self)@ == emit_vk_char_spec(old(self)@, vk, ch).0,
            outs_view(final(out)@) == outs_view(old(out)@) + emit_vk_char_spec(old(self)@, vk, ch).1,
    {
        reveal(emit_vk_char_spec);
        if vk == 0 {
            let s: [u16; 2] = [ch, 0];
            assert(s@ =~= seq![ch, 0u16]);
            self.emit_text(&s, out);
        } else {
            self.key_char(vk, ch, out);
        }
    }

    /// See `key_char_spec`.
    #[verifier::spinoff_prover]
    fn key_char(&mut self, vk: u32, ch: u16, out: &mut Vec<Out>)
        requires
            old(self).wf(),
        ensures
            final(self).wf(),
            final(self)@ == key_char_spec(old(self)@, vk, ch).0,
            outs_view(final(out)@) == outs_view(old(out)@) + key_char_spec(old(self)@, vk, ch).1,
    {
        proof {
            crate::board::lemma_board_wf_all();
        }
        reveal(key_char_spec);
        let ghost b0 = self@;
        let ghost o0 = outs_view(out@);
        push_out(out, Out::Focus);
        let fix = self.char_fix(ch);
        self.tracker_key_char(vk, ch, fix, out);
        let ghost b1 = self@;
        assert(b1.mods == b0.mods);
        self.consume_held(out);
        assert(outs_view(out@) =~= o0 + key_char_spec(b0, vk, ch).1);
    }

    /// See `emit_char_choice_spec`.
    #[verifier::spinoff_prover]
    pub fn emit_char_choice(&mut self, lo: u16, ch: u16, out: &mut Vec<Out>)
        requires
            old(self).wf(),
        ensures
            final(self).wf(),
            final(self)@ == emit_char_choice_spec(old(self)@, lo, ch).0,
            outs_view(final(out)@) == outs_view(old(out)@) + emit_char_choice_spec(old(self)@, lo, ch).1,
    {
        reveal(emit_char_choice_spec);
        if self.combo_active() {
            let vk = char_to_vk(lo);
            if vk != 0 {
                self.emit_vk(vk, out);
                return;
            }
            let s: [u16; 2] = [ch, 0];
            assert(s@ =~= seq![ch, 0u16]);
            self.emit_text(&s, out);
        } else {
            let vk = if ch == 32u16 { VK_SPACE } else { char_to_vk(lo) };
            self.emit_vk_char(vk, ch, out);
        }
    }
}
// ---------------------------------------------------------------------------
// Macros, double Backspace, the Shift/Caps key
// ---------------------------------------------------------------------------

/// Whether modifier bits `mods` (1 Shift, 2 Ctrl, 4 Alt, 8 Win) hold `bit`.
pub open spec fn has_bit(mods: i32, bit: i32) -> bool {
    mods & bit != 0
}

/// The modifier keys a macro presses, in order: Ctrl, Shift, Alt, Win.
pub open spec fn macro_downs(mods: i32) -> Seq<OutModel> {
    (if has_bit(mods, 2) { seq![OutModel::Down(VK_CONTROL)] } else { seq![] })
        + (if has_bit(mods, 1) { seq![OutModel::Down(VK_SHIFT)] } else { seq![] })
        + (if has_bit(mods, 4) { seq![OutModel::Down(VK_MENU)] } else { seq![] })
        + (if has_bit(mods, 8) { seq![OutModel::Down(VK_LWIN)] } else { seq![] })
}

/// The modifier keys a macro releases, in the reverse order.
pub open spec fn macro_ups(mods: i32) -> Seq<OutModel> {
    (if has_bit(mods, 8) { seq![OutModel::Up(VK_LWIN)] } else { seq![] })
        + (if has_bit(mods, 4) { seq![OutModel::Up(VK_MENU)] } else { seq![] })
        + (if has_bit(mods, 1) { seq![OutModel::Up(VK_SHIFT)] } else { seq![] })
        + (if has_bit(mods, 2) { seq![OutModel::Up(VK_CONTROL)] } else { seq![] })
}

/// Running a macro (a key with modifier bits `mods`): the modifiers go down, the key is
/// tapped between two 30 ms pauses, the modifiers come up in reverse order, and the held
/// sticky modifiers are released.
#[verifier::opaque]
pub open spec fn run_macro_spec(b: BoardModel, mods: i32, vk: u32) -> (BoardModel, Seq<OutModel>) {
    (
        with_mods(with_pred(b, disarm(b.pred)), clear_held(b.mods)),
        seq![OutModel::Focus] + macro_downs(mods) + seq![OutModel::Sleep(30), OutModel::Tap(vk), OutModel::Sleep(30)]
            + macro_ups(mods) + release_held_upto(b.mods, 4),
    )
}

/// A Backspace press within 400 ms (wrapping tick count) of the last Backspace release.
pub open spec fn is_double_bksp_spec(b: BoardModel, now: u32) -> bool {
    b.bksp_last_up != 0 && now.wrapping_sub(b.bksp_last_up) <= BKSP_DBL_MS
}

/// What a double Backspace sends: one Backspace per unit of the typed word, or, with no
/// word, Ctrl+Backspace (with Ctrl pressed around it unless Ctrl is already on).
pub open spec fn word_erase_outs(b: BoardModel) -> Seq<OutModel> {
    let n = b.pred.word_buf.len();
    if n > 0 {
        taps(VK_BACK, n)
    } else if b.mods[MX_CTRL as int] != M_OFF {
        seq![OutModel::Tap(VK_BACK)]
    } else {
        seq![OutModel::Down(VK_CONTROL), OutModel::Sleep(15), OutModel::Tap(VK_BACK), OutModel::Sleep(15), OutModel::Up(VK_CONTROL)]
    }
}

/// A double Backspace erases the word being typed (or the word before the caret).
#[verifier::opaque]
pub open spec fn double_backspace_spec(b: BoardModel) -> (BoardModel, Seq<OutModel>) {
    (
        with_mods(with_pred(BoardModel { bksp_last_up: 0, ..b }, crate::predict::word_clear_spec(b.pred)), clear_held(b.mods)),
        seq![OutModel::Focus] + word_erase_outs(b) + release_held_upto(b.mods, 4),
    )
}

/// The Shift/Caps key: a second press within the arming time (350 ms) toggles Caps Lock
/// (Shift is released first); a press with Shift on turns Shift off; otherwise Shift is
/// held and the second press is armed.
#[verifier::opaque]
pub open spec fn shcap_press_spec(b: BoardModel) -> (BoardModel, Seq<OutModel>) {
    let on = b.mods[MX_SHIFT as int] != M_OFF;
    let off = b.mods.update(MX_SHIFT as int, M_OFF);
    if b.shcap_armed {
        (
            BoardModel { shcap_armed: false, mods: off, ..b },
            seq![OutModel::KillTimer(TIMER_SHCAP)] + (if on { seq![OutModel::Up(VK_SHIFT)] } else { seq![] })
                + seq![OutModel::Tap(VK_CAPITAL)],
        )
    } else if on {
        (BoardModel { mods: off, ..b }, seq![OutModel::Up(VK_SHIFT)])
    } else {
        (
            BoardModel { shcap_armed: true, mods: b.mods.update(MX_SHIFT as int, M_HELD), ..b },
            seq![OutModel::Down(VK_SHIFT), OutModel::SetTimer(TIMER_SHCAP, 350)],
        )
    }
}

impl Board {
    /// Disarms the autocorrect undo.
    #[verifier::spinoff_prover]
    fn disarm_undo(&mut self)
        requires
            old(self).wf(),
        ensures
            final(self).wf(),
            final(self)@ == with_pred(old(self)@, disarm(old(self)@.pred)),
    {
        let ghost b0 = self@;
        proof {
            crate::board::lemma_wf_pred(b0);
        }
        self.pred.disarm();
        proof {
            crate::board::lemma_wf_frame_pred(b0, self@);
        }
    }

    /// Forgets the word being typed.
    #[verifier::spinoff_prover]
    fn clear_word(&mut self)
        requires
            old(self).wf(),
        ensures
            final(self).wf(),
            final(self)@ == with_pred(old(self)@, crate::predict::word_clear_spec(old(self)@.pred)),
    {
        let ghost b0 = self@;
        proof {
            crate::board::lemma_wf_pred(b0);
        }
        self.pred.word_clear();
        proof {
            crate::board::lemma_wf_frame_pred(b0, self@);
        }
    }

    /// See `run_macro_spec`.
    #[verifier::spinoff_prover]
    pub fn run_macro(&mut self, mods: i32, vk: u32, out: &mut Vec<Out>)
        requires
            old(self).wf(),
        ensures
            final(self).wf(),
            final(self)@ == run_macro_spec(old(self)@, mods, vk).0,
            outs_view(final(out)@) == outs_view(old(out)@) + run_macro_spec(old(self)@, mods, vk).1,
    {
        reveal(run_macro_spec);
        let ghost b0 = self@;
        let ghost o0 = outs_view(out@);
        push_out(out, Out::Focus);
        self.disarm_undo();
        push_macro_keys(out, mods, vk);
        let ghost b1 = self@;
        assert(b1.mods == b0.mods);
        self.consume_held(out);
        assert(outs_view(out@) =~= o0 + run_macro_spec(b0, mods, vk).1);
    }

    /// See `is_double_bksp_spec`; `now` is the tick count in milliseconds.
    #[verifier::spinoff_prover]
    pub fn is_double_bksp(&self, now: u32) -> (r: bool)
        ensures
            r == is_double_bksp_spec(self@, now),
    {
        self.bksp_last_up != 0 && now.wrapping_sub(self.bksp_last_up) <= BKSP_DBL_MS
    }

    /// See `double_backspace_spec`.
    #[verifier::spinoff_prover]
    pub fn double_backspace(&mut self, out: &mut Vec<Out>)
        requires
            old(self).wf(),
        ensures
            final(self).wf(),
            final(self)@ == double_backspace_spec(old(self)@).0,
            outs_view(final(out)@) == outs_view(old(out)@) + double_backspace_spec(old(self)@).1,
    {
        proof {
            crate::board::lemma_board_wf_all();
        }
        reveal(double_backspace_spec);
        let ghost b0 = self@;
        let ghost o0 = outs_view(out@);
        push_out(out, Out::Focus);
        self.bksp_last_up = 0;
        let n = self.word_len();
        let ctrl = self.mods[MX_CTRL] != M_OFF;
        push_word_erase(out, n, ctrl);
        let ghost b1 = self@;
        self.clear_word();
        let ghost b2 = self@;
        assert(b2.mods == b0.mods);
        self.consume_held(out);
        assert(outs_view(out@) =~= o0 + double_backspace_spec(b0).1);
    }

    /// See `shcap_press_spec`.
    #[verifier::spinoff_prover]
    pub fn shcap_press(&mut self, out: &mut Vec<Out>)
        requires
            old(self).wf(),
        ensures
            final(self).wf(),
            final(self)@ == shcap_press_spec(old(self)@).0,
            outs_view(final(out)@) == outs_view(old(out)@) + shcap_press_spec(old(self)@).1,
    {
        reveal(shcap_press_spec);
        let ghost b0 = self@;
        let ghost o0 = outs_view(out@);
        let on = self.mods[MX_SHIFT] != M_OFF;
        if self.shcap_armed {
            push_out(out, Out::KillTimer(TIMER_SHCAP));
            push_if(out, on, Out::Up(VK_SHIFT));
            push_out(out, Out::Tap(VK_CAPITAL));
            self.set_mod(MX_SHIFT, M_OFF);
            self.set_shcap_armed(false);
        } else if on {
            push_out(out, Out::Up(VK_SHIFT));
            self.set_mod(MX_SHIFT, M_OFF);
        } else {
            push_out(out, Out::Down(VK_SHIFT));
            push_out(out, Out::SetTimer(TIMER_SHCAP, 350));
            self.set_mod(MX_SHIFT, M_HELD);
            self.set_shcap_armed(true);
        }
        assert(outs_view(out@) =~= o0 + shcap_press_spec(b0).1);
    }

    #[verifier::spinoff_prover]
    fn set_shcap_armed(&mut self, v: bool)
        requires
            old(self).wf(),
        ensures
            final(self).wf(),
            final(self)@ == (BoardModel { shcap_armed: v, ..old(self)@ }),
    {
        proof {
            crate::board::lemma_board_wf_all();
        }
        self.shcap_armed = v;
    }
}

/// Appends `o` when `cond` holds.
#[verifier::spinoff_prover]
pub fn push_if(out: &mut Vec<Out>, cond: bool, o: Out)
    ensures
        outs_view(final(out)@) == outs_view(old(out)@) + (if cond { seq![o@] } else { seq![] }),
{
    let ghost o0 = outs_view(out@);
    if cond {
        push_out(out, o);
        assert(outs_view(out@) =~= o0 + seq![o@]);
    } else {
        assert(outs_view(out@) =~= o0 + seq![]);
    }
}

/// Appends the key actions of a macro (see `run_macro_spec`).
#[verifier::spinoff_prover]
fn push_macro_keys(out: &mut Vec<Out>, mods: i32, vk: u32)
    ensures
        outs_view(final(out)@) == outs_view(old(out)@) + macro_downs(mods)
            + seq![OutModel::Sleep(30), OutModel::Tap(vk), OutModel::Sleep(30)] + macro_ups(mods),
{
    let ghost o0 = outs_view(out@);
    push_macro_downs(out, mods);
    push_out(out, Out::Sleep(30));
    push_out(out, Out::Tap(vk));
    push_out(out, Out::Sleep(30));
    let ghost o2 = outs_view(out@);
    push_macro_ups(out, mods);
    assert(outs_view(out@) =~= o0 + macro_downs(mods)
        + seq![OutModel::Sleep(30), OutModel::Tap(vk), OutModel::Sleep(30)] + macro_ups(mods));
}

#[verifier::spinoff_prover]
fn push_macro_downs(out: &mut Vec<Out>, mods: i32)
    ensures
        outs_view(final(out)@) == outs_view(old(out)@) + macro_downs(mods),
{
    let ghost o0 = outs_view(out@);
    push_if(out, mods & 2 != 0, Out::Down(VK_CONTROL));
    push_if(out, mods & 1 != 0, Out::Down(VK_SHIFT));
    push_if(out, mods & 4 != 0, Out::Down(VK_MENU));
    push_if(out, mods & 8 != 0, Out::Down(VK_LWIN));
    assert(outs_view(out@) =~= o0 + macro_downs(mods));
}

#[verifier::spinoff_prover]
fn push_macro_ups(out: &mut Vec<Out>, mods: i32)
    ensures
        outs_view(final(out)@) == outs_view(old(out)@) + macro_ups(mods),
{
    let ghost o0 = outs_view(out@);
    push_if(out, mods & 8 != 0, Out::Up(VK_LWIN));
    push_if(out, mods & 4 != 0, Out::Up(VK_MENU));
    push_if(out, mods & 1 != 0, Out::Up(VK_SHIFT));
    push_if(out, mods & 2 != 0, Out::Up(VK_CONTROL));
    assert(outs_view(out@) =~= o0 + macro_ups(mods));
}

/// Appends what a double Backspace sends (see `word_erase_outs`) for a word of `n` units.
#[verifier::spinoff_prover]
fn push_word_erase(out: &mut Vec<Out>, n: usize, ctrl: bool)
    ensures
        outs_view(final(out)@) == outs_view(old(out)@) + (if n > 0 {
            taps(VK_BACK, n as nat)
        } else if ctrl {
            seq![OutModel::Tap(VK_BACK)]
        } else {
            seq![OutModel::Down(VK_CONTROL), OutModel::Sleep(15), OutModel::Tap(VK_BACK), OutModel::Sleep(15), OutModel::Up(VK_CONTROL)]
        }),
{
    let ghost o0 = outs_view(out@);
    if n > 0 {
        push_taps(out, VK_BACK, n);
    } else if ctrl {
        push_out(out, Out::Tap(VK_BACK));
        assert(outs_view(out@) =~= o0 + seq![OutModel::Tap(VK_BACK)]);
    } else {
        push_out(out, Out::Down(VK_CONTROL));
        push_out(out, Out::Sleep(15));
        push_out(out, Out::Tap(VK_BACK));
        push_out(out, Out::Sleep(15));
        push_out(out, Out::Up(VK_CONTROL));
        assert(outs_view(out@) =~= o0 + seq![OutModel::Down(VK_CONTROL), OutModel::Sleep(15), OutModel::Tap(VK_BACK), OutModel::Sleep(15), OutModel::Up(VK_CONTROL)]);
    }
}

// ---------------------------------------------------------------------------
// Characters waiting for a hold, the hold popup, suggestions
// ---------------------------------------------------------------------------

/// The character a character key types: its shifted one when Shift (or Caps Lock, for a
/// letter) says so.
pub open spec fn key_char(b: BoardModel, k: KeyModel, caps: bool) -> u16 {
    if shifted_for_spec(b, k.lo, caps) { k.hi } else { k.lo }
}

/// Types the character key that was waiting (in case it would be held for its popup).
#[verifier::opaque]
pub open spec fn flush_pending_spec(b: BoardModel, caps: bool) -> (BoardModel, Seq<OutModel>) {
    let idx = b.pending;
    let b1 = BoardModel { pending: -1i32, ..b };
    let o1 = seq![OutModel::KillTimer(TIMER_HOLD)];
    if idx < 0 || idx >= b.keys.len() || b.keys[idx as int].kind != Kind::Char {
        (b1, o1)
    } else {
        let k = b.keys[idx as int];
        let r = emit_char_choice_spec(b1, k.lo, key_char(b, k, caps));
        (r.0, o1 + r.1)
    }
}

/// Releasing a held character key: the popup closes and the alternative character is typed
/// when the pointer is on it, the key's own character otherwise.
#[verifier::opaque]
pub open spec fn resolve_popup_spec(b: BoardModel, caps: bool) -> (BoardModel, Seq<OutModel>) {
    let idx = b.hold_popup;
    let b1 = BoardModel { hold_popup: -1i32, pending: -1i32, ..b };
    let o1 = seq![OutModel::KillTimer(TIMER_HOLD)];
    if idx < 0 || idx >= b.keys.len() || b.keys[idx as int].kind != Kind::Char {
        (b1, o1)
    } else if b.pop_hover == 1 {
        let r = emit_text_spec(b1, seq![b.pop_alt, 0u16]);
        (r.0, o1 + r.1)
    } else {
        let k = b.keys[idx as int];
        let r = emit_char_choice_spec(b1, k.lo, key_char(b, k, caps));
        (r.0, o1 + r.1)
    }
}

/// Sending virtual key `vk` `n` times.
#[verifier::opaque]
pub open spec fn repeat_vk_spec(b: BoardModel, vk: u32, n: nat) -> (BoardModel, Seq<OutModel>)
    decreases n,
{
    if n == 0 {
        (b, seq![])
    } else {
        let r1 = repeat_vk_spec(b, vk, (n - 1) as nat);
        let r2 = emit_vk_spec(r1.0, vk);
        (r2.0, r1.1 + r2.1)
    }
}

/// The text of suggestion `w` as typed over word `buf`: capitalised when the typed word
/// starts with a capital.
pub open spec fn sugg_text(w: Seq<u8>, buf: Seq<u16>) -> Seq<u16> {
    let u = w.map_values(|c: u8| c as u16);
    if buf.len() > 0 && 65 <= buf[0] <= 90 && 97 <= w[0] <= 122 {
        u.update(0, (w[0] - 32) as u16)
    } else {
        u
    }
}

/// Tapping suggestion slot `slot`.  With the typed word marked misspelt, the first slot
/// (which shows that word) just ends it with a space, keeping the word as typed:
/// autocorrect does not run.  Otherwise a filled slot replaces the
/// typed word: one Backspace per unit, then the suggestion and a space.
#[verifier::opaque]
pub open spec fn commit_sugg_spec(b: BoardModel, slot: i32) -> (BoardModel, Seq<OutModel>) {
    let p = b.pred;
    let b1 = with_pred(b, disarm(p));
    if slot == 0 && p.highlight_on && p.misspelt && p.word_buf.len() > 0 {
        emit_plain_spec(b1, seq![32u16, 0u16])
    } else if slot < 0 || slot > 2 || p.sugg[slot as int].len() == 0 {
        (b1, seq![])
    } else {
        repeat_then_type(b1, p.word_buf.len(), sugg_text(p.sugg[slot as int], p.word_buf).push(0u16))
    }
}

/// `n` Backspaces, then text `w`, then a space.
pub open spec fn repeat_then_type(b: BoardModel, n: nat, w: Seq<u16>) -> (BoardModel, Seq<OutModel>) {
    let r1 = repeat_vk_spec(b, VK_BACK, n);
    let r2 = emit_text_spec(r1.0, w);
    let r3 = emit_text_spec(r2.0, seq![32u16, 0u16]);
    (r3.0, r1.1 + r2.1 + r3.1)
}

impl Board {
    #[verifier::spinoff_prover]
    fn set_pending(&mut self, v: i32)
        requires
            old(self).wf(),
        ensures
            final(self).wf(),
            final(self)@ == (BoardModel { pending: v, ..old(self)@ }),
    {
        proof {
            crate::board::lemma_board_wf_all();
        }
        self.pending = v;
    }

    #[verifier::spinoff_prover]
    fn close_popup(&mut self)
        requires
            old(self).wf(),
        ensures
            final(self).wf(),
            final(self)@ == (BoardModel { hold_popup: -1i32, pending: -1i32, ..old(self)@ }),
    {
        proof {
            crate::board::lemma_board_wf_all();
        }
        self.hold_popup = -1;
        self.pending = -1;
    }

    /// See `flush_pending_spec`; `caps` is whether Caps Lock is on.
    #[verifier::spinoff_prover]
    pub fn flush_pending(&mut self, caps: bool, out: &mut Vec<Out>)
        requires
            old(self).wf(),
        ensures
            final(self).wf(),
            final(self)@ == flush_pending_spec(old(self)@, caps).0,
            outs_view(final(out)@) == outs_view(old(out)@) + flush_pending_spec(old(self)@, caps).1,
    {
        reveal(flush_pending_spec);
        let ghost b0 = self@;
        let ghost o0 = outs_view(out@);
        let idx = self.pending;
        self.set_pending(-1);
        push_out(out, Out::KillTimer(TIMER_HOLD));
        if idx < 0 || idx as usize >= self.keys.len() {
            return;
        }
        let k = self.keys[idx as usize];
        assert(k@ == b0.keys[idx as int]);
        if k.kind != Kind::Char {
            return;
        }
        let ch = if self.shifted_for(k.lo, caps) { k.hi } else { k.lo };
        let ghost o1 = outs_view(out@);
        self.emit_char_choice(k.lo, ch, out);
        assert(outs_view(out@) =~= o0 + flush_pending_spec(b0, caps).1);
    }

    /// See `resolve_popup_spec`; `caps` is whether Caps Lock is on.
    #[verifier::spinoff_prover]
    pub fn resolve_popup(&mut self, caps: bool, out: &mut Vec<Out>)
        requires
            old(self).wf(),
        ensures
            final(self).wf(),
            final(self)@ == resolve_popup_spec(old(self)@, caps).0,
            outs_view(final(out)@) == outs_view(old(out)@) + resolve_popup_spec(old(self)@, caps).1,
    {
        reveal(resolve_popup_spec);
        let ghost b0 = self@;
        let ghost o0 = outs_view(out@);
        let idx = self.hold_popup;
        self.close_popup();
        push_out(out, Out::KillTimer(TIMER_HOLD));
        if idx < 0 || idx as usize >= self.keys.len() {
            return;
        }
        let k = self.keys[idx as usize];
        assert(k@ == b0.keys[idx as int]);
        if k.kind != Kind::Char {
            return;
        }
        let ghost o1 = outs_view(out@);
        if self.pop_hover == 1 {
            let s: [u16; 2] = [self.pop_alt, 0];
            assert(s@ =~= seq![b0.pop_alt, 0u16]);
            self.emit_text(&s, out);
            assert(outs_view(out@) =~= o0 + resolve_popup_spec(b0, caps).1);
            return;
        }
        let ch = if self.shifted_for(k.lo, caps) { k.hi } else { k.lo };
        self.emit_char_choice(k.lo, ch, out);
        assert(outs_view(out@) =~= o0 + resolve_popup_spec(b0, caps).1);
    }

    /// See `repeat_vk_spec`.
    #[verifier::spinoff_prover]
    pub fn repeat_vk(&mut self, vk: u32, n: usize, out: &mut Vec<Out>)
        requires
            old(self).wf(),
        ensures
            final(self).wf(),
            final(self)@ == repeat_vk_spec(old(self)@, vk, n as nat).0,
            outs_view(final(out)@) == outs_view(old(out)@) + repeat_vk_spec(old(self)@, vk, n as nat).1,
    {
        reveal(repeat_vk_spec);
        let ghost b0 = self@;
        let ghost o0 = outs_view(out@);
        let mut i: usize = 0;
        while i < n
            invariant
                i <= n,
                self.wf(),
                self@ == repeat_vk_spec(b0, vk, i as nat).0,
                outs_view(out@) == o0 + repeat_vk_spec(b0, vk, i as nat).1,
            decreases n - i,
        {
            proof {
                reveal(repeat_vk_spec);
            }
            let ghost oi = outs_view(out@);
            self.emit_vk(vk, out);
            assert(outs_view(out@) =~= o0 + repeat_vk_spec(b0, vk, (i + 1) as nat).1);
            i = i + 1;
        }
    }

    /// See `commit_sugg_spec`.
    #[verifier::spinoff_prover]
    pub fn commit_sugg(&mut self, slot: i32, out: &mut Vec<Out>)
        requires
            old(self).wf(),
        ensures
            final(self).wf(),
            final(self)@ == commit_sugg_spec(old(self)@, slot).0,
            outs_view(final(out)@) == outs_view(old(out)@) + commit_sugg_spec(old(self)@, slot).1,
    {
        reveal(commit_sugg_spec);
        let ghost b0 = self@;
        let ghost o0 = outs_view(out@);
        proof {
            crate::board::lemma_wf_pred(b0);
        }
        if slot == 0 && self.pred.highlight() && self.pred.is_misspelt() && self.word_len() > 0 {
            self.disarm_undo();
            let sp: [u16; 2] = [32, 0];
            assert(sp@ =~= seq![32u16, 0u16]);
            self.emit_plain(&sp, out);
            return;
        }
        if slot < 0 || slot > 2 || self.pred.suggestion(slot as usize).len() == 0 {
            self.disarm_undo();
            assert(outs_view(out@) =~= o0 + seq![]);
            return;
        }
        self.replace_word(slot as usize, out);
    }

    /// Replaces the typed word with suggestion `slot` (see `commit_sugg_spec`).
    #[verifier::spinoff_prover]
    fn replace_word(&mut self, slot: usize, out: &mut Vec<Out>)
        requires
            old(self).wf(),
            slot < 3,
            old(self)@.pred.sugg[slot as int].len() > 0,
        ensures
            final(self).wf(),
            final(self)@ == repeat_then_type(with_pred(old(self)@, disarm(old(self)@.pred)), old(self)@.pred.word_buf.len(),
                sugg_text(old(self)@.pred.sugg[slot as int], old(self)@.pred.word_buf).push(0u16)).0,
            outs_view(final(out)@) == outs_view(old(out)@) + repeat_then_type(with_pred(old(self)@, disarm(old(self)@.pred)),
                old(self)@.pred.word_buf.len(), sugg_text(old(self)@.pred.sugg[slot as int], old(self)@.pred.word_buf).push(0u16)).1,
    {
        proof {
            crate::board::lemma_wf_pred(self@);
        }
        let w = sugg_units(self.pred.suggestion(slot), self.pred.word());
        let n = self.word_len();
        self.disarm_undo();
        self.repeat_then_type(n, w.as_slice(), out);
    }

    /// `n` Backspaces, then text `w`, then a space.
    #[verifier::spinoff_prover]
    fn repeat_then_type(&mut self, n: usize, w: &[u16], out: &mut Vec<Out>)
        requires
            old(self).wf(),
        ensures
            final(self).wf(),
            final(self)@ == repeat_then_type(old(self)@, n as nat, w@).0,
            outs_view(final(out)@) == outs_view(old(out)@) + repeat_then_type(old(self)@, n as nat, w@).1,
    {
        let ghost o0 = outs_view(out@);
        self.repeat_vk(VK_BACK, n, out);
        let ghost o1 = outs_view(out@);
        self.emit_text(w, out);
        let ghost o2 = outs_view(out@);
        let sp: [u16; 2] = [32, 0];
        assert(sp@ =~= seq![32u16, 0u16]);
        self.emit_text(&sp, out);
        assert(outs_view(out@) =~= o0 + repeat_then_type(old(self)@, n as nat, w@).1);
    }
}

/// The units that tapping a suggestion types (see `sugg_text`), ending with a zero.
#[verifier::spinoff_prover]
fn sugg_units(w: &Vec<u8>, buf: &Vec<u16>) -> (r: Vec<u16>)
    requires
        w.len() > 0,
    ensures
        r@ == sugg_text(w@, buf@).push(0u16),
{
    let mut r: Vec<u16> = Vec::new();
    let mut i: usize = 0;
    while i < w.len()
        invariant
            i <= w.len(),
            r@ == w@.take(i as int).map_values(|c: u8| c as u16),
        decreases w.len() - i,
    {
        r.push(w[i] as u16);
        assert(w@.take(i + 1).map_values(|c: u8| c as u16) =~= w@.take(i as int).map_values(|c: u8| c as u16).push(w@[i as int] as u16));
        i = i + 1;
    }
    assert(w@.take(w.len() as int) =~= w@);
    if buf.len() > 0 && 65u16 <= buf[0] && buf[0] <= 90u16 && 97u8 <= w[0] && w[0] <= 122u8 {
        let up = (w[0] - 32) as u16;
        r.set(0, up);
    }
    assert(r@ =~= sugg_text(w@, buf@));
    r.push(0);
    r
}

// ---------------------------------------------------------------------------
// Switches of the word tracker
// ---------------------------------------------------------------------------

/// A toggle of the word tracker that clears and recomputes the strip.
pub open spec fn refresh_pred(p: PredModel) -> PredModel {
    crate::predict::compute_sugg_spec(PredModel { sugg: crate::predict::pad3(seq![]), misspelt: false, ..p })
}

impl Board {
    #[verifier::spinoff_prover]
    pub(crate) fn toggle_predict(&mut self)
        requires
            old(self).wf(),
        ensures
            final(self).wf(),
            final(self)@ == with_pred(old(self)@, refresh_pred(PredModel { predict_on: !old(self)@.pred.predict_on, ..old(self)@.pred })),
    {
        let ghost b0 = self@;
        proof {
            crate::board::lemma_wf_pred(b0);
        }
        self.pred.toggle_predict();
        proof {
            crate::board::lemma_wf_frame_pred(b0, self@);
        }
    }

    #[verifier::spinoff_prover]
    pub(crate) fn toggle_highlight(&mut self)
        requires
            old(self).wf(),
        ensures
            final(self).wf(),
            final(self)@ == with_pred(old(self)@, refresh_pred(PredModel { highlight_on: !old(self)@.pred.highlight_on, ..old(self)@.pred })),
    {
        let ghost b0 = self@;
        proof {
            crate::board::lemma_wf_pred(b0);
        }
        self.pred.toggle_highlight();
        proof {
            crate::board::lemma_wf_frame_pred(b0, self@);
        }
    }

    #[verifier::spinoff_prover]
    pub(crate) fn toggle_bigram(&mut self)
        requires
            old(self).wf(),
        ensures
            final(self).wf(),
            final(self)@ == with_pred(old(self)@, refresh_pred(PredModel { bigram_on: !old(self)@.pred.bigram_on, ..old(self)@.pred })),
    {
        let ghost b0 = self@;
        proof {
            crate::board::lemma_wf_pred(b0);
        }
        self.pred.toggle_bigram();
        proof {
            crate::board::lemma_wf_frame_pred(b0, self@);
        }
    }

    #[verifier::spinoff_prover]
    pub(crate) fn toggle_autocorrect(&mut self)
        requires
            old(self).wf(),
        ensures
            final(self).wf(),
            final(self)@ == with_pred(old(self)@, PredModel { autocorrect: !old(self)@.pred.autocorrect, auto_active: false, ..old(self)@.pred }),
    {
        let ghost b0 = self@;
        proof {
            crate::board::lemma_wf_pred(b0);
        }
        self.pred.toggle_autocorrect();
        proof {
            crate::board::lemma_wf_frame_pred(b0, self@);
        }
    }
}


// ---------------------------------------------------------------------------
// Laws of the modifier keys
// ---------------------------------------------------------------------------

/// Pressing a modifier key three times leaves the board as it was: off → held → locked →
/// off.  From off, its key goes down at the first press and comes up at the third, and the
/// second press sends nothing.
proof fn lemma_with_mods_same(b: BoardModel)
    ensures
        with_mods(b, b.mods) == b,
{
}

proof fn lemma_with_mods_twice(b: BoardModel, x: Seq<i32>, y: Seq<i32>)
    ensures
        with_mods(with_mods(b, x), y) == with_mods(b, y),
{
}

#[verifier::spinoff_prover]
pub proof fn lemma_modifier_cycle(b: BoardModel, m: int)
    requires
        b.mods.len() == 4,
        0 <= m < 4,
        mod_state_ok(b.mods[m]),
    ensures
        toggle_mod_spec(toggle_mod_spec(toggle_mod_spec(b, m).0, m).0, m).0 == b,
        b.mods[m] == M_OFF ==> {
            &&& toggle_mod_spec(b, m).0.mods[m] == M_HELD
            &&& toggle_mod_spec(toggle_mod_spec(b, m).0, m).0.mods[m] == M_LOCKED
            &&& toggle_mod_spec(b, m).1 + toggle_mod_spec(toggle_mod_spec(b, m).0, m).1
                + toggle_mod_spec(toggle_mod_spec(toggle_mod_spec(b, m).0, m).0, m).1
                == seq![OutModel::Down(mod_vk_spec(m)), OutModel::Up(mod_vk_spec(m))]
        },
{
    let v = b.mods[m];
    let (b1, o1) = toggle_mod_spec(b, m);
    let (b2, o2) = toggle_mod_spec(b1, m);
    let (b3, o3) = toggle_mod_spec(b2, m);
    assert(b1.mods == b.mods.update(m, next_mod_state(v)));
    assert(b2.mods == b1.mods.update(m, next_mod_state(next_mod_state(v))));
    assert(b3.mods == b2.mods.update(m, next_mod_state(next_mod_state(next_mod_state(v)))));
    assert(next_mod_state(next_mod_state(next_mod_state(v))) == v);
    assert(b3.mods =~= b.mods);
    lemma_with_mods_twice(b, b1.mods, b2.mods);
    lemma_with_mods_twice(b, b2.mods, b3.mods);
    lemma_with_mods_same(b);
    if v == M_OFF {
        assert(o1 == seq![OutModel::Down(mod_vk_spec(m))]);
        assert(o2 == Seq::<OutModel>::empty());
        assert(o3 == seq![OutModel::Up(mod_vk_spec(m))]);
        assert(o1 + o2 + o3 =~= seq![OutModel::Down(mod_vk_spec(m)), OutModel::Up(mod_vk_spec(m))]);
    }
}

/// A held modifier applies to the next key only: after a key is sent, every held
/// modifier is off again (its key-up sent last), and the locked ones stay locked.
pub proof fn lemma_held_for_one_key(b: BoardModel, vk: u32)
    requires
        board_wf(b),
    ensures
        forall|i: int| 0 <= i < 4 ==> #[trigger] emit_vk_spec(b, vk).0.mods[i]
            == (if b.mods[i] == M_HELD { M_OFF } else { b.mods[i] }),
        emit_vk_spec(b, vk).1 == seq![OutModel::Focus] + vk_outs(b, vk) + release_held_upto(b.mods, 4),
{
    reveal(emit_vk_spec);
    crate::board::lemma_board_wf(b);
}

// ---------------------------------------------------------------------------
// Law of the autocorrect undo
// ---------------------------------------------------------------------------

/// The text of the focused field after the actions `o`, from text `t`: Backspace erases
/// the last unit, typed text is appended, and the other actions leave the text alone.
pub open spec fn typed_text(t: Seq<u16>, o: Seq<OutModel>) -> Seq<u16>
    decreases o.len(),
{
    if o.len() == 0 {
        t
    } else {
        let t1 = typed_text(t, o.drop_last());
        match o.last() {
            OutModel::Tap(vk) => if vk == VK_BACK && t1.len() > 0 { t1.drop_last() } else { t1 },
            OutModel::Type(u) => t1 + u,
            _ => t1,
        }
    }
}

/// Actions that neither tap a key nor type text.
pub open spec fn quiet(o: Seq<OutModel>) -> bool {
    forall|i: int| 0 <= i < o.len() ==> !(#[trigger] o[i] is Tap) && !(o[i] is Type)
}

proof fn lemma_typed_concat(t: Seq<u16>, a: Seq<OutModel>, b: Seq<OutModel>)
    ensures
        typed_text(t, a + b) == typed_text(typed_text(t, a), b),
    decreases b.len(),
{
    if b.len() == 0 {
        assert(a + b =~= a);
    } else {
        lemma_typed_concat(t, a, b.drop_last());
        assert((a + b).drop_last() =~= a + b.drop_last());
        assert((a + b).last() == b.last());
    }
}

proof fn lemma_typed_type(x: Seq<u16>, v: Seq<u16>)
    ensures
        typed_text(x, seq![OutModel::Type(v)]) == x + v,
{
    let o = seq![OutModel::Type(v)];
    assert(o.drop_last() =~= Seq::<OutModel>::empty());
    assert(typed_text(x, o.drop_last()) == x);
    assert(o.last() == OutModel::Type(v));
}

proof fn lemma_typed_quiet(t: Seq<u16>, o: Seq<OutModel>)
    requires
        quiet(o),
    ensures
        typed_text(t, o) == t,
    decreases o.len(),
{
    if o.len() > 0 {
        assert(quiet(o.drop_last()));
        lemma_typed_quiet(t, o.drop_last());
        assert(o[o.len() - 1] == o.last());
    }
}

proof fn lemma_typed_taps(t: Seq<u16>, n: nat)
    requires
        n <= t.len(),
    ensures
        typed_text(t, taps(VK_BACK, n)) == t.take(t.len() - n),
    decreases n,
{
    if n == 0 {
        assert(taps(VK_BACK, 0) =~= Seq::<OutModel>::empty());
        assert(t.take(t.len() as int) =~= t);
    } else {
        lemma_typed_taps(t, (n - 1) as nat);
        assert(taps(VK_BACK, n).drop_last() =~= taps(VK_BACK, (n - 1) as nat));
        assert(taps(VK_BACK, n).last() == OutModel::Tap(VK_BACK));
        assert(t.take(t.len() - (n - 1)).drop_last() =~= t.take(t.len() - n));
    }
}

proof fn lemma_release_quiet(m: Seq<i32>, k: int)
    ensures
        quiet(release_held_upto(m, k)),
    decreases k,
{
    if k > 0 {
        lemma_release_quiet(m, k - 1);
        let a = release_held_upto(m, k - 1);
        let r = if m[k - 1] == M_HELD { seq![OutModel::Up(mod_vk_spec(k - 1))] } else { seq![] };
        assert(release_held_upto(m, k) == a + r);
        assert forall|i: int| 0 <= i < (a + r).len() implies !(#[trigger] (a + r)[i] is Tap) && !((a + r)[i] is Type) by {
            if i < a.len() {
                assert((a + r)[i] == a[i]);
            } else {
                assert((a + r)[i] == r[i - a.len()]);
            }
        }
    }
}

/// The undo state of the word tracker: what undoing a correction needs.
pub open spec fn undo_fields(m: PredModel) -> (Seq<u16>, int, bool, bool) {
    (m.auto_orig, m.auto_corr_len, m.auto_trail, m.auto_active)
}

proof fn lemma_sugg_keeps_undo(m: PredModel)
    ensures
        undo_fields(crate::predict::compute_sugg_spec(m)) == undo_fields(m),
{
    reveal(crate::predict::compute_sugg_spec);
}

proof fn lemma_char_keeps_undo(m: PredModel, ch: u16)
    ensures
        undo_fields(crate::predict::word_char_spec(m, ch)) == undo_fields(m),
{
    let buf = if m.word_buf.len() < crate::dict::MAXWLEN { m.word_buf.push(ch) } else { m.word_buf };
    lemma_sugg_keeps_undo(PredModel { word_buf: buf, ..m });
    let m1 = if m.word_buf.len() > 0 {
        PredModel {
            prev_word: m.word_buf,
            prev_idx: crate::predict::find_word_from(cur_dict(m), crate::predict::low_codes(m.word_buf), 0),
            ..m
        }
    } else {
        m
    };
    lemma_sugg_keeps_undo(PredModel { word_buf: seq![], ..m1 });
}

pub(crate) proof fn lemma_units_keep_undo(m: PredModel, s: Seq<u16>)
    ensures
        undo_fields(crate::predict::type_units(m, s)) == undo_fields(m),
    decreases s.len(),
{
    if s.len() > 0 {
        lemma_units_keep_undo(m, s.drop_last());
        lemma_char_keeps_undo(crate::predict::type_units(m, s.drop_last()), s.last());
    }
}

/// Right after autocorrect replaced a word as a word-ending unit was typed, one Backspace
/// gives the text back as it was typed before that unit: whatever text `t` stood before
/// the word, the correction and the unit are erased and the typed word comes back.
pub proof fn lemma_backspace_undoes_autocorrect(b: BoardModel, ch: u16, t: Seq<u16>)
    requires
        board_wf(b),
        ch != 0,
        text_fix(b, seq![ch]),
        autocorrect_choice(disarm(b.pred)) is Some,
    ensures
        vk_undoes(emit_text_spec(b, seq![ch, 0u16]).0, VK_BACK),
        typed_text(
            t + b.pred.word_buf,
            emit_text_spec(b, seq![ch, 0u16]).1 + emit_vk_spec(emit_text_spec(b, seq![ch, 0u16]).0, VK_BACK).1,
        ) == t + b.pred.word_buf,
        emit_vk_spec(emit_text_spec(b, seq![ch, 0u16]).0, VK_BACK).0.pred.word_buf == b.pred.word_buf,
        !emit_vk_spec(emit_text_spec(b, seq![ch, 0u16]).0, VK_BACK).0.pred.auto_active,
        no_held(emit_vk_spec(emit_text_spec(b, seq![ch, 0u16]).0, VK_BACK).0.mods),
{
    reveal(emit_text_spec);
    reveal(emit_vk_spec);
    reveal(fixed_outs);
    reveal(undo_outs);
    reveal(autocorrect_state);
    reveal(text_pred);
    let s = seq![ch, 0u16];
    assert(crate::text::first_zero_from(s, 1) == 1);
    assert(crate::text::first_zero_from(s, 0) == 1);
    let u = zstr(s);
    assert(u =~= seq![ch]);
    let p = b.pred;
    let w = p.word_buf;
    let dp = disarm(p);
    let i = autocorrect_choice(dp)->0;
    let c = corrected_word(cur_dict(dp)[i], dp.word_buf);
    // What typing the unit sends, and the text after it.
    let (b1, o1) = emit_text_spec(b, s);
    let lift = if text_lift(b) { seq![OutModel::Up(VK_SHIFT)] } else { seq![] };
    let fo = fixed_outs(p, true);
    assert(fo == taps(VK_BACK, w.len()) + seq![OutModel::Type(c)]);
    let rel1 = release_held_upto(text_mods(b), 4);
    assert(o1 == seq![OutModel::Focus] + lift + fo + seq![OutModel::Type(u)] + shift_back_outs(b) + rel1);
    lemma_release_quiet(text_mods(b), 4);
    lemma_typed_quiet(t + w, seq![OutModel::Focus] + lift);
    lemma_typed_concat(t + w, seq![OutModel::Focus] + lift, fo);
    lemma_typed_concat(t + w, seq![OutModel::Focus] + lift, taps(VK_BACK, w.len()));
    lemma_typed_taps(t + w, w.len());
    assert((t + w).take((t + w).len() - w.len()) =~= t);
    lemma_typed_concat(t + w, seq![OutModel::Focus] + lift + taps(VK_BACK, w.len()), seq![OutModel::Type(c)]);
    lemma_typed_type(t, c);
    lemma_typed_type(t + c, u);
    assert(seq![OutModel::Focus] + lift + fo =~= seq![OutModel::Focus] + lift + taps(VK_BACK, w.len()) + seq![OutModel::Type(c)]);
    lemma_typed_concat(t + w, seq![OutModel::Focus] + lift + fo, seq![OutModel::Type(u)]);
    let mid = seq![OutModel::Focus] + lift + fo + seq![OutModel::Type(u)];
    assert(typed_text(t + w, mid) == t + c + u);
    lemma_typed_concat(t + w, mid, shift_back_outs(b));
    lemma_typed_quiet(t + c + u, shift_back_outs(b));
    lemma_typed_concat(t + w, mid + shift_back_outs(b), rel1);
    lemma_typed_quiet(t + c + u, rel1);
    assert(typed_text(t + w, o1) == t + c + u);
    // The undo state after the unit.
    let m1 = PredModel { auto_orig: dp.word_buf, auto_corr_len: c.len() as int, word_buf: seq![], ..dp };
    lemma_units_keep_undo(m1, c);
    let a = PredModel { auto_trail: true, auto_active: true, ..crate::predict::type_units(m1, c) };
    assert(fixed_pred(p, true, true) == a);
    assert(u.drop_last() =~= Seq::<u16>::empty());
    assert(u.last() == ch);
    assert(crate::predict::type_units(a, u.drop_last()) == a);
    assert(crate::predict::type_units(a, u) == crate::predict::word_char_spec(a, ch));
    lemma_char_keeps_undo(a, ch);
    assert(b1.pred == text_pred(p, u, true));
    assert(b1.pred == crate::predict::type_units(a, u));
    assert(undo_fields(b1.pred) == undo_fields(a));
    assert(undo_fields(crate::predict::type_units(m1, c)) == undo_fields(m1));
    assert(undo_fields(b1.pred) == (w, c.len() as int, true, true));
    // What Backspace sends, and the text after it.
    let o2 = emit_vk_spec(b1, VK_BACK).1;
    let un = undo_outs(b1.pred);
    assert(un == taps(VK_BACK, (c.len() + 1) as nat) + seq![OutModel::Type(w)]);
    let rel2 = release_held_upto(b1.mods, 4);
    assert(o2 == seq![OutModel::Focus] + un + rel2);
    lemma_release_quiet(b1.mods, 4);
    let t2 = t + c + u;
    lemma_typed_quiet(t2, seq![OutModel::Focus]);
    lemma_typed_concat(t2, seq![OutModel::Focus], taps(VK_BACK, (c.len() + 1) as nat));
    lemma_typed_taps(t2, (c.len() + 1) as nat);
    assert(t2.take(t2.len() - (c.len() + 1)) =~= t);
    lemma_typed_concat(t2, seq![OutModel::Focus] + taps(VK_BACK, (c.len() + 1) as nat), seq![OutModel::Type(w)]);
    lemma_typed_type(t, w);
    assert(seq![OutModel::Focus] + un =~= seq![OutModel::Focus] + taps(VK_BACK, (c.len() + 1) as nat) + seq![OutModel::Type(w)]);
    lemma_typed_concat(t2, seq![OutModel::Focus] + un, rel2);
    lemma_typed_quiet(t + w, rel2);
    assert(typed_text(t2, o2) == t + w);
    lemma_typed_concat(t + w, o1, o2);
    lemma_undo_state(b, ch);
}

/// Backspace right after an autocorrection undoes it: with the word that triggered the
/// correction ended, it erases the correction (and the unit typed after it, if any) with one
/// Backspace per unit, types the word as it was typed, and sends no Backspace of its own.
/// Afterwards the word tracker holds the typed word again, the undo is spent, and no
/// modifier is held.
pub proof fn lemma_backspace_after_correction(b: BoardModel)
    requires
        board_wf(b),
        b.pred.auto_active,
        b.pred.word_buf.len() == 0,
    ensures
        emit_vk_spec(b, VK_BACK).1 == seq![OutModel::Focus]
            + taps(VK_BACK, (b.pred.auto_corr_len + (if b.pred.auto_trail { 1int } else { 0int })) as nat)
            + seq![OutModel::Type(b.pred.auto_orig)] + release_held_upto(b.mods, 4),
        quiet(release_held_upto(b.mods, 4)),
        emit_vk_spec(b, VK_BACK).0.pred.word_buf == b.pred.auto_orig,
        !emit_vk_spec(b, VK_BACK).0.pred.auto_active,
        no_held(emit_vk_spec(b, VK_BACK).0.mods),
{
    reveal(emit_vk_spec);
    reveal(undo_outs);
    reveal(undo_pred);
    crate::board::lemma_wf_pred(b);
    let p = b.pred;
    lemma_release_quiet(b.mods, 4);
    crate::predict::lemma_type_word_units(disarm(p), p.auto_orig);
    assert(disarm(p).word_buf + p.auto_orig =~= p.auto_orig);
    lemma_units_keep_undo(disarm(p), p.auto_orig);
    let b2 = emit_vk_spec(b, VK_BACK).0;
    assert(b2.pred == undo_pred(p));
    assert(b2.mods == clear_held(b.mods));
    crate::board::lemma_board_wf(b);
    assert forall|i: int| 0 <= i < 4 implies #[trigger] b2.mods[i] != M_HELD by {
        assert(b2.mods[i] == clear_held(b.mods)[i]);
    }
}

/// The word tracker and the modifiers after the undo (see
/// `lemma_backspace_undoes_autocorrect`).
#[verifier::spinoff_prover]
proof fn lemma_undo_state(b: BoardModel, ch: u16)
    requires
        board_wf(b),
        ch != 0,
        text_fix(b, seq![ch]),
        autocorrect_choice(disarm(b.pred)) is Some,
    ensures
        emit_vk_spec(emit_text_spec(b, seq![ch, 0u16]).0, VK_BACK).0.pred.word_buf == b.pred.word_buf,
        !emit_vk_spec(emit_text_spec(b, seq![ch, 0u16]).0, VK_BACK).0.pred.auto_active,
        no_held(emit_vk_spec(emit_text_spec(b, seq![ch, 0u16]).0, VK_BACK).0.mods),
{
    reveal(emit_text_spec);
    reveal(emit_vk_spec);
    reveal(autocorrect_state);
    reveal(text_pred);
    reveal(undo_pred);
    let s = seq![ch, 0u16];
    assert(crate::text::first_zero_from(s, 1) == 1);
    assert(crate::text::first_zero_from(s, 0) == 1);
    let u = zstr(s);
    assert(u =~= seq![ch]);
    let p = b.pred;
    let w = p.word_buf;
    let dp = disarm(p);
    let i = autocorrect_choice(dp)->0;
    let c = corrected_word(cur_dict(dp)[i], dp.word_buf);
    let b1 = emit_text_spec(b, s).0;
    let m1 = PredModel { auto_orig: dp.word_buf, auto_corr_len: c.len() as int, word_buf: seq![], ..dp };
    lemma_units_keep_undo(m1, c);
    let a = PredModel { auto_trail: true, auto_active: true, ..crate::predict::type_units(m1, c) };
    assert(fixed_pred(p, true, true) == a);
    assert(u.drop_last() =~= Seq::<u16>::empty());
    assert(u.last() == ch);
    assert(crate::predict::type_units(a, u.drop_last()) == a);
    assert(b1.pred == crate::predict::word_char_spec(a, ch));
    lemma_char_keeps_undo(a, ch);
    assert(undo_fields(b1.pred) == undo_fields(a));
    assert(!crate::predict::is_word_unit(ch));
    let a1 = if a.word_buf.len() > 0 {
        PredModel { prev_word: a.word_buf, prev_idx: crate::predict::find_word_from(cur_dict(a), crate::predict::low_codes(a.word_buf), 0), ..a }
    } else { a };
    crate::predict::lemma_sugg_keeps_buf(PredModel { word_buf: seq![], ..a1 });
    assert(b1.pred.word_buf.len() == 0);
    crate::board::lemma_board_wf(b);
    crate::board::lemma_wf_pred(b);
    let dp1 = disarm(b1.pred);
    crate::predict::lemma_type_word_units(dp1, w);
    assert(dp1.word_buf + w =~= w);
    lemma_units_keep_undo(dp1, w);
    let b2 = emit_vk_spec(b1, VK_BACK).0;
    assert(b2.pred == undo_pred(b1.pred));
    assert(b2.mods == clear_held(b1.mods));
}

/// No modifier is held for the next key.
pub open spec fn no_held(mods: Seq<i32>) -> bool {
    forall|i: int| 0 <= i < 4 ==> #[trigger] mods[i] != M_HELD
}

/// A double Backspace erases the word being typed, whatever text `t` stood before it.
pub proof fn lemma_double_backspace_erases_word(b: BoardModel, t: Seq<u16>)
    requires
        b.pred.word_buf.len() > 0,
    ensures
        typed_text(t + b.pred.word_buf, double_backspace_spec(b).1) == t,
{
    reveal(double_backspace_spec);
    let w = b.pred.word_buf;
    let e = taps(VK_BACK, w.len());
    let rel = release_held_upto(b.mods, 4);
    assert(double_backspace_spec(b).1 == seq![OutModel::Focus] + e + rel);
    lemma_release_quiet(b.mods, 4);
    lemma_typed_quiet(t + w, seq![OutModel::Focus]);
    lemma_typed_concat(t + w, seq![OutModel::Focus], e);
    lemma_typed_taps(t + w, w.len());
    assert((t + w).take((t + w).len() - w.len()) =~= t);
    lemma_typed_concat(t + w, seq![OutModel::Focus] + e, rel);
    lemma_typed_quiet(t, rel);
}

/// Tapping the first suggestion slot while it shows the typed word as misspelt keeps the
/// typing: whatever text `t` stood before the word, only a space is added after it.
pub proof fn lemma_misspelt_tap_keeps_word(b: BoardModel, t: Seq<u16>)
    requires
        b.pred.highlight_on,
        b.pred.misspelt,
        b.pred.word_buf.len() > 0,
    ensures
        typed_text(t + b.pred.word_buf, commit_sugg_spec(b, 0).1) == t + b.pred.word_buf + seq![32u16],
{
    reveal(commit_sugg_spec);
    reveal(emit_plain_spec);
    reveal(fixed_outs);
    let w = b.pred.word_buf;
    let b1 = with_pred(b, disarm(b.pred));
    let s = seq![32u16, 0u16];
    assert(crate::text::first_zero_from(s, 1) == 1);
    assert(crate::text::first_zero_from(s, 0) == 1);
    let u = zstr(s);
    assert(u =~= seq![32u16]);
    let lift = if text_lift(b1) { seq![OutModel::Up(VK_SHIFT)] } else { seq![] };
    let head = seq![OutModel::Focus] + lift;
    let rel = release_held_upto(text_mods(b1), 4);
    let o = commit_sugg_spec(b, 0).1;
    assert(fixed_outs(b1.pred, false) =~= Seq::<OutModel>::empty());
    assert(o =~= head + seq![OutModel::Type(u)] + shift_back_outs(b1) + rel);
    lemma_typed_quiet(t + w, head);
    lemma_typed_concat(t + w, head, seq![OutModel::Type(u)]);
    lemma_typed_type(t + w, u);
    lemma_typed_concat(t + w, head + seq![OutModel::Type(u)], shift_back_outs(b1));
    lemma_typed_quiet(t + w + u, shift_back_outs(b1));
    lemma_release_quiet(text_mods(b1), 4);
    lemma_typed_concat(t + w, head + seq![OutModel::Type(u)] + shift_back_outs(b1), rel);
    lemma_typed_quiet(t + w + u, rel);
}

/// Typing a character through its key (not as Unicode text) after a typed word: a
/// word-ending character after a word of three or more units lets autocorrect fire first,
/// as typing it as text does.  When autocorrect would replace the word, the key sends one
/// Backspace per typed unit and the replacement before the key itself, and the undo is
/// armed; otherwise (a character inside a word, a shorter word, or no replacement) only the
/// key is sent.
pub proof fn lemma_key_char_autocorrects(b: BoardModel, vk: u32, ch: u16)
    requires
        board_wf(b),
        vk != 0,
    ensures
        is_commit_unit(ch) && b.pred.word_buf.len() >= 3 ==> (autocorrect_choice(disarm(b.pred)) matches Some(i)
            ==> emit_vk_char_spec(b, vk, ch).1 == seq![OutModel::Focus] + taps(VK_BACK, b.pred.word_buf.len())
            + seq![OutModel::Type(corrected_word(cur_dict(b.pred)[i], b.pred.word_buf))] + seq![OutModel::Tap(vk)]
            + release_held_upto(b.mods, 4) && emit_vk_char_spec(b, vk, ch).0.pred.auto_active),
        !(is_commit_unit(ch) && b.pred.word_buf.len() >= 3) || autocorrect_choice(disarm(b.pred)) is None
            ==> emit_vk_char_spec(b, vk, ch).1 == seq![OutModel::Focus, OutModel::Tap(vk)] + release_held_upto(b.mods, 4),
{
    reveal(emit_vk_char_spec);
    reveal(key_char_spec);
    reveal(fixed_outs);
    reveal(char_pred);
    let p = b.pred;
    let dp = disarm(p);
    if is_commit_unit(ch) && p.word_buf.len() >= 3 {
        if let Some(i) = autocorrect_choice(dp) {
            let c = corrected_word(cur_dict(dp)[i], dp.word_buf);
            reveal(autocorrect_state);
            let m1 = PredModel { auto_orig: dp.word_buf, auto_corr_len: c.len() as int, word_buf: seq![], ..dp };
            lemma_units_keep_undo(m1, c);
            let a = PredModel { auto_trail: true, auto_active: true, ..type_units(m1, c) };
            assert(fixed_pred(p, true, true) == a);
            lemma_char_keeps_undo(a, ch);
            assert(emit_vk_char_spec(b, vk, ch).0.pred == word_char_spec(a, ch));
            assert(seq![OutModel::Focus] + fixed_outs(p, true) + seq![OutModel::Tap(vk)] + release_held_upto(b.mods, 4)
                =~= seq![OutModel::Focus] + taps(VK_BACK, p.word_buf.len()) + seq![OutModel::Type(c)]
                + seq![OutModel::Tap(vk)] + release_held_upto(b.mods, 4));
        } else {
            assert(seq![OutModel::Focus] + fixed_outs(p, true) + seq![OutModel::Tap(vk)] + release_held_upto(b.mods, 4)
                =~= seq![OutModel::Focus, OutModel::Tap(vk)] + release_held_upto(b.mods, 4));
        }
    } else {
        assert(seq![OutModel::Focus] + fixed_outs(p, false) + seq![OutModel::Tap(vk)] + release_held_upto(b.mods, 4)
            =~= seq![OutModel::Focus, OutModel::Tap(vk)] + release_held_upto(b.mods, 4));
    }
}

proof fn lemma_single_contains(a: OutModel, x: OutModel)
    ensures
        seq![a].contains(x) == (a == x),
        Seq::<OutModel>::empty().contains(x) == false,
{
    assert(seq![a][0] == a);
}

/// Releasing held modifiers only lets keys go.
proof fn lemma_release_no_down(m: Seq<i32>, k: int, x: u32)
    ensures
        !release_held_upto(m, k).contains(OutModel::Down(x)),
    decreases k,
{
    broadcast use vstd::seq_lib::lemma_seq_concat_contains_all_elements;
    if k > 0 {
        lemma_release_no_down(m, k - 1, x);
        lemma_single_contains(OutModel::Up(mod_vk_spec(k - 1)), OutModel::Down(x));
    }
}

/// The only key presses of a macro are those of its modifiers.
proof fn lemma_macro_downs_only(b: BoardModel, mods: i32, vk: u32, x: u32)
    ensures
        run_macro_spec(b, mods, vk).1.contains(OutModel::Down(x)) == macro_downs(mods).contains(OutModel::Down(x)),
{
    broadcast use vstd::seq_lib::lemma_seq_concat_contains_all_elements;
    reveal(run_macro_spec);
    let mid = seq![OutModel::Sleep(30), OutModel::Tap(vk), OutModel::Sleep(30)];
    lemma_release_no_down(b.mods, 4, x);
    lemma_single_contains(OutModel::Focus, OutModel::Down(x));
    assert(!mid.contains(OutModel::Down(x))) by {
        if mid.contains(OutModel::Down(x)) {
            let i = choose|i: int| 0 <= i < mid.len() && mid[i] == OutModel::Down(x);
            assert(mid[0] == OutModel::Sleep(30) && mid[1] == OutModel::Tap(vk) && mid[2] == OutModel::Sleep(30));
        }
    }
    lemma_single_contains(OutModel::Up(VK_CONTROL), OutModel::Down(x));
    lemma_single_contains(OutModel::Up(VK_SHIFT), OutModel::Down(x));
    lemma_single_contains(OutModel::Up(VK_MENU), OutModel::Down(x));
    lemma_single_contains(OutModel::Up(VK_LWIN), OutModel::Down(x));
    assert(!macro_ups(mods).contains(OutModel::Down(x)));
}

proof fn lemma_macro_singles(x: u32)
    ensures
        seq![OutModel::Down(VK_CONTROL)].contains(OutModel::Down(x)) == (x == VK_CONTROL),
        seq![OutModel::Down(VK_SHIFT)].contains(OutModel::Down(x)) == (x == VK_SHIFT),
        seq![OutModel::Down(VK_MENU)].contains(OutModel::Down(x)) == (x == VK_MENU),
        seq![OutModel::Down(VK_LWIN)].contains(OutModel::Down(x)) == (x == VK_LWIN),
        seq![OutModel::Up(VK_CONTROL)].contains(OutModel::Up(x)) == (x == VK_CONTROL),
        seq![OutModel::Up(VK_SHIFT)].contains(OutModel::Up(x)) == (x == VK_SHIFT),
        seq![OutModel::Up(VK_MENU)].contains(OutModel::Up(x)) == (x == VK_MENU),
        seq![OutModel::Up(VK_LWIN)].contains(OutModel::Up(x)) == (x == VK_LWIN),
        Seq::<OutModel>::empty().contains(OutModel::Down(x)) == false,
        Seq::<OutModel>::empty().contains(OutModel::Up(x)) == false,
{
    lemma_single_contains(OutModel::Down(VK_CONTROL), OutModel::Down(x));
    lemma_single_contains(OutModel::Down(VK_SHIFT), OutModel::Down(x));
    lemma_single_contains(OutModel::Down(VK_MENU), OutModel::Down(x));
    lemma_single_contains(OutModel::Down(VK_LWIN), OutModel::Down(x));
    lemma_single_contains(OutModel::Up(VK_CONTROL), OutModel::Up(x));
    lemma_single_contains(OutModel::Up(VK_SHIFT), OutModel::Up(x));
    lemma_single_contains(OutModel::Up(VK_MENU), OutModel::Up(x));
    lemma_single_contains(OutModel::Up(VK_LWIN), OutModel::Up(x));
    lemma_single_contains(OutModel::Focus, OutModel::Up(x));
    lemma_single_contains(OutModel::Focus, OutModel::Down(x));
}

/// A macro with modifier bits `mods` (1 Shift, 2 Ctrl, 4 Alt, 8 Win) presses exactly the
/// modifier keys whose bits are set (Shift for 1, Ctrl for 2, Alt for 4, Win for 8), taps
/// its key, and then releases exactly the same modifier keys.
pub proof fn lemma_macro_presses_its_modifiers(b: BoardModel, mods: i32, vk: u32)
    ensures
        run_macro_spec(b, mods, vk).1.contains(OutModel::Down(VK_SHIFT)) == (mods & 1 != 0),
        run_macro_spec(b, mods, vk).1.contains(OutModel::Down(VK_CONTROL)) == (mods & 2 != 0),
        run_macro_spec(b, mods, vk).1.contains(OutModel::Down(VK_MENU)) == (mods & 4 != 0),
        run_macro_spec(b, mods, vk).1.contains(OutModel::Down(VK_LWIN)) == (mods & 8 != 0),
        run_macro_spec(b, mods, vk).1[macro_downs(mods).len() + 2int] == OutModel::Tap(vk),
        run_macro_spec(b, mods, vk).1.subrange(
            macro_downs(mods).len() + 4int,
            macro_downs(mods).len() + 4int + macro_ups(mods).len(),
        ) == macro_ups(mods),
        macro_ups(mods).contains(OutModel::Up(VK_SHIFT)) == (mods & 1 != 0),
        macro_ups(mods).contains(OutModel::Up(VK_CONTROL)) == (mods & 2 != 0),
        macro_ups(mods).contains(OutModel::Up(VK_MENU)) == (mods & 4 != 0),
        macro_ups(mods).contains(OutModel::Up(VK_LWIN)) == (mods & 8 != 0),
{
    broadcast use vstd::seq_lib::lemma_seq_concat_contains_all_elements;
    reveal(run_macro_spec);
    lemma_macro_downs_only(b, mods, vk, VK_SHIFT);
    lemma_macro_downs_only(b, mods, vk, VK_CONTROL);
    lemma_macro_downs_only(b, mods, vk, VK_MENU);
    lemma_macro_downs_only(b, mods, vk, VK_LWIN);
    lemma_macro_singles(VK_SHIFT);
    lemma_macro_singles(VK_CONTROL);
    lemma_macro_singles(VK_MENU);
    lemma_macro_singles(VK_LWIN);
    let d = macro_downs(mods);
    let u = macro_ups(mods);
    let mid = seq![OutModel::Sleep(30), OutModel::Tap(vk), OutModel::Sleep(30)];
    let o = seq![OutModel::Focus] + d + mid + u + release_held_upto(b.mods, 4);
    assert(run_macro_spec(b, mods, vk).1 == o);
    assert(o[d.len() + 2int] == OutModel::Tap(vk));
    assert(o.subrange(d.len() + 4int, d.len() + 4int + u.len()) =~= u);
}

} // verus!
