//! Recording custom shortcuts and the hold popup of character keys.
use vstd::prelude::*;
use crate::board::{
    Board, BoardModel, Kind, KeyModel, Rect, ShortcutModel, Shortcut, board_wf, mod_state_ok,
    M_OFF, M_HELD, MX_SHIFT, MAXSCUT,
};
use crate::keys::{mod_vk, mod_vk_spec, char_to_vk, char_to_vk_spec, auto_name, auto_name_spec,
    VK_SPACE, VK_CAPITAL, VK_BACK, VK_RETURN, VK_ESCAPE};
use crate::layout::build_keys_spec;
use crate::panel::{cancel_record_spec, no_name};
use crate::state::{Out, OutModel, outs_view, push_out, push_if, key_char, shifted_for_spec};
use crate::text::{zstr, first_zero_from, lossy_units, lossy_units_spec, trim_units, trim_spec,
    wstr_fill, set_units, zero_prefix};

verus! {

// ---------------------------------------------------------------------------
// Starting and saving a recording
// ---------------------------------------------------------------------------

/// The key-up actions for the modifiers among the first `k` that are on.
pub open spec fn release_on_upto(mods: Seq<i32>, k: int) -> Seq<OutModel>
    decreases k,
{
    if k <= 0 {
        seq![]
    } else {
        release_on_upto(mods, k - 1) + (if mods[k - 1] != M_OFF {
            seq![OutModel::Up(mod_vk_spec(k - 1))]
        } else {
            seq![]
        })
    }
}

/// Recording into slot `s`: the modifiers are released, the recording starts empty, and
/// the shortcut page closes.  A slot out of range does nothing.
#[verifier::opaque]
pub open spec fn start_record_spec(b: BoardModel, s: i32) -> (BoardModel, Seq<OutModel>) {
    if s < 0 || s >= MAXSCUT {
        (b, seq![])
    } else {
        (
            BoardModel {
                mods: Seq::new(4, |i: int| M_OFF),
                rec_slot: s,
                rec_step: 0,
                rec_mods: 0,
                rec_vk: 0,
                rec_name: no_name(),
                view_sc: false,
                sc_del_arm: false,
                star_arm: false,
                ..b
            },
            release_on_upto(b.mods, 4) + seq![OutModel::Resize],
        )
    }
}

/// The name a recorded shortcut gets: the typed name without surrounding white space (an
/// unpaired surrogate reading as U+FFFD), or, when that is empty, a name made of its
/// modifiers and key.
pub open spec fn record_name(name: Seq<u16>, mods: i32, vk: u32) -> Seq<u16> {
    let t = trim_spec(lossy_units_spec(zstr(name)));
    if t.len() > 0 { t } else { auto_name_spec(mods, vk) }
}

/// Saving the recording: the slot gets the modifiers (4 bits), the key and the name (its
/// first 9 units), keeping its pin; the recorder stops, the shortcut page opens again, the
/// settings are stored and the keys rebuilt.  Nothing happens without a slot or a key.
#[verifier::opaque]
pub open spec fn commit_record_spec(b: BoardModel) -> (BoardModel, Seq<OutModel>) {
    let s = b.rec_slot;
    if s < 0 || s >= MAXSCUT || b.rec_vk == 0 {
        (b, seq![])
    } else {
        let e = recorded_slot(b.sc[s as int], b.rec_name, b.rec_mods, b.rec_vk);
        (finish_record_state(BoardModel { sc: b.sc.update(s as int, e), ..b }), seq![OutModel::Save, OutModel::Relayout, OutModel::Resize])
    }
}

/// The board once a recording was saved: the recorder stops, the shortcut page shows, and
/// the keys are rebuilt.
pub open spec fn finish_record_state(b: BoardModel) -> BoardModel {
    let b1 = BoardModel { view_sc: true, ..cancel_record_spec(b) };
    BoardModel { keys: build_keys_spec(b1), ..b1 }
}

/// The slot a saved recording fills (see `commit_record_spec`).
pub open spec fn recorded_slot(old: ShortcutModel, name: Seq<u16>, mods: i32, vk: u32) -> ShortcutModel {
    ShortcutModel { used: true, mods: mods & 0xF, vk: vk, name: wstr_fill(record_name(name, mods, vk), 10), star: old.star }
}

impl Board {
    /// See `start_record_spec`.
    #[verifier::spinoff_prover]
    pub fn start_record(&mut self, s: i32, out: &mut Vec<Out>)
        requires
            old(self).wf(),
        ensures
            final(self).wf(),
            final(self)@ == start_record_spec(old(self)@, s).0,
            outs_view(final(out)@) == outs_view(old(out)@) + start_record_spec(old(self)@, s).1,
    {
        reveal(start_record_spec);
        let ghost b0 = self@;
        let ghost o0 = outs_view(out@);
        if s < 0 || s as usize >= MAXSCUT {
            assert(outs_view(out@) =~= o0 + seq![]);
            return;
        }
        push_releases(out, &self.mods);
        self.begin_record(s);
        push_out(out, Out::Resize);
        assert(outs_view(out@) =~= o0 + (release_on_upto(b0.mods, 4) + seq![OutModel::Resize]));
    }

    #[verifier::spinoff_prover]
    fn begin_record(&mut self, s: i32)
        requires
            old(self).wf(),
            0 <= s < MAXSCUT,
        ensures
            final(self).wf(),
            final(self)@ == (BoardModel {
                mods: Seq::new(4, |i: int| M_OFF),
                rec_slot: s,
                rec_step: 0,
                rec_mods: 0,
                rec_vk: 0,
                rec_name: no_name(),
                view_sc: false,
                sc_del_arm: false,
                star_arm: false,
                ..old(self)@
            }),
    {
        proof {
            crate::board::lemma_board_wf_all();
        }
        self.mods = [M_OFF; 4];
        self.rec_slot = s;
        self.rec_step = 0;
        self.rec_mods = 0;
        self.rec_vk = 0;
        self.rec_name = [0u16; 10];
        self.view_sc = false;
        self.sc_del_arm = false;
        self.star_arm = false;
        assert(self.mods@ =~= Seq::new(4, |i: int| M_OFF));
        assert(self.rec_name@ =~= no_name());
    }

    /// See `commit_record_spec`.
    #[verifier::spinoff_prover]
    pub fn commit_record(&mut self, out: &mut Vec<Out>)
        requires
            old(self).wf(),
        ensures
            final(self).wf(),
            final(self)@ == commit_record_spec(old(self)@).0,
            outs_view(final(out)@) == outs_view(old(out)@) + commit_record_spec(old(self)@).1,
    {
        reveal(commit_record_spec);
        let ghost b0 = self@;
        let ghost o0 = outs_view(out@);
        let s = self.rec_slot;
        if s < 0 || s as usize >= MAXSCUT || self.rec_vk == 0 {
            assert(outs_view(out@) =~= o0 + seq![]);
            return;
        }
        let e = fill_slot(self.sc[s as usize], &self.rec_name, self.rec_mods, self.rec_vk);
        self.set_slot(s as usize, e);
        self.finish_record(out);
    }

    #[verifier::spinoff_prover]
    fn finish_record(&mut self, out: &mut Vec<Out>)
        requires
            old(self).wf(),
        ensures
            final(self).wf(),
            final(self)@ == finish_record_state(old(self)@),
            outs_view(final(out)@) == outs_view(old(out)@) + seq![OutModel::Save, OutModel::Relayout, OutModel::Resize],
    {
        let ghost o0 = outs_view(out@);
        self.cancel_record();
        self.set_view_sc(true);
        push_out(out, Out::Save);
        self.build_keys();
        push_out(out, Out::Relayout);
        push_out(out, Out::Resize);
        assert(outs_view(out@) =~= o0 + seq![OutModel::Save, OutModel::Relayout, OutModel::Resize]);
    }

    /// Replaces shortcut slot `s`.
    #[verifier::spinoff_prover]
    pub fn set_slot(&mut self, s: usize, e: Shortcut)
        requires
            old(self).wf(),
            s < MAXSCUT,
        ensures
            final(self).wf(),
            final(self)@ == (BoardModel { sc: old(self)@.sc.update(s as int, e@), ..old(self)@ }),
    {
        proof {
            crate::board::lemma_board_wf_all();
        }
        let ghost b0 = self@;
        self.sc[s] = e;
        assert(self@.sc =~= b0.sc.update(s as int, e@));
    }

    #[verifier::spinoff_prover]
    fn set_view_sc(&mut self, v: bool)
        requires
            old(self).wf(),
        ensures
            final(self).wf(),
            final(self)@ == (BoardModel { view_sc: v, ..old(self)@ }),
    {
        proof {
            crate::board::lemma_board_wf_all();
        }
        self.view_sc = v;
    }
}

/// The slot a saved recording fills (see `recorded_slot`).
#[verifier::spinoff_prover]
fn fill_slot(old: Shortcut, name: &[u16; 10], mods: i32, vk: u32) -> (r: Shortcut)
    ensures
        r@ == recorded_slot(old@, name@, mods, vk),
{
    let nm = recorded_name(name, mods, vk);
    let mut e = old;
    e.used = true;
    e.mods = mods & 0xF;
    e.vk = vk;
    set_units(&mut e.name, nm.as_slice());
    e
}

/// The name a recording is saved under (see `record_name`).
#[verifier::spinoff_prover]
fn recorded_name(name: &[u16; 10], mods: i32, vk: u32) -> (r: Vec<u16>)
    ensures
        r@ == record_name(name@, mods, vk),
{
    let z = zero_prefix(name);
    let l = lossy_units(z.as_slice());
    let t = trim_units(l.as_slice());
    if t.len() > 0 {
        t
    } else {
        auto_name(mods, vk)
    }
}

/// Appends the key-up actions for the modifiers that are on.
#[verifier::spinoff_prover]
pub fn push_releases(out: &mut Vec<Out>, mods: &[i32; 4])
    ensures
        outs_view(final(out)@) == outs_view(old(out)@) + release_on_upto(mods@, 4),
{
    let ghost o0 = outs_view(out@);
    let mut i: usize = 0;
    while i < 4
        invariant
            i <= 4,
            outs_view(out@) == o0 + release_on_upto(mods@, i as int),
        decreases 4 - i,
    {
        let vk = mod_vk(i);
        push_if(out, mods[i] != M_OFF, Out::Up(vk));
        assert(outs_view(out@) =~= o0 + release_on_upto(mods@, i + 1));
        i = i + 1;
    }
}

// ---------------------------------------------------------------------------
// Keys pressed while recording
// ---------------------------------------------------------------------------

/// The modifier bit of modifier slot `m` (1 Shift, 2 Ctrl, 4 Alt, 8 Win).
pub open spec fn mod_bit(m: i32) -> i32 {
    if m == 0 { 1 } else if m == 1 { 2 } else if m == 2 { 4 } else { 8 }
}

/// A modifier key names a modifier slot.
pub open spec fn mod_key_ok(k: KeyModel) -> bool {
    k.kind == Kind::Mod ==> 0 <= k.mod_ < 4
}

/// The recording got its key: the name starts empty.
pub open spec fn got_key(b: BoardModel, vk: u32) -> BoardModel {
    BoardModel { rec_vk: vk, rec_step: 1, rec_name: no_name(), ..b }
}

/// Where the next unit of the name goes: the first zero (10 when it is full).
pub open spec fn name_end(n: Seq<u16>) -> int {
    first_zero_from(n, 0)
}

/// A key pressed while recording, before its key was chosen: modifiers (and the
/// Shift/Caps key for Shift) toggle their bit; a character key (through its virtual key, if
/// it has one), a special key, Space or Caps Lock becomes the recorded key; anything else is
/// ignored.
pub open spec fn capture_first(b: BoardModel, k: KeyModel) -> BoardModel {
    if k.kind == Kind::Mod {
        BoardModel { rec_mods: b.rec_mods ^ mod_bit(k.mod_), ..b }
    } else if k.kind == Kind::Shcap {
        BoardModel { rec_mods: b.rec_mods ^ 1, ..b }
    } else if k.kind == Kind::Char {
        let vk = char_to_vk_spec(k.lo);
        if vk == 0 { b } else { got_key(b, vk) }
    } else if k.kind == Kind::Special {
        got_key(b, k.vk)
    } else if k.kind == Kind::Space {
        got_key(b, VK_SPACE)
    } else if k.kind == Kind::Caps {
        got_key(b, VK_CAPITAL)
    } else {
        b
    }
}

/// A key pressed while naming the recording: modifiers (and the Shift/Caps key) switch
/// between off and held; characters are added to the name (up to 9 units), a space too
/// when the name is not empty; Backspace removes the last unit, Enter saves, Escape cancels
/// and goes back to the shortcut page.
pub open spec fn capture_name(b: BoardModel, k: KeyModel, caps: bool) -> (BoardModel, Seq<OutModel>) {
    let n = b.rec_name;
    let l = name_end(n);
    if k.kind == Kind::Mod {
        let m = k.mod_ as int;
        (BoardModel { mods: b.mods.update(m, if b.mods[m] == M_OFF { M_HELD } else { M_OFF }), ..b }, seq![])
    } else if k.kind == Kind::Shcap {
        let m = MX_SHIFT as int;
        (BoardModel { mods: b.mods.update(m, if b.mods[m] == M_OFF { M_HELD } else { M_OFF }), ..b }, seq![])
    } else if k.kind == Kind::Char {
        (if l < 9 { BoardModel { rec_name: n.update(l, key_char(b, k, caps)), ..b } } else { b }, seq![])
    } else if k.kind == Kind::Space {
        (if 0 < l < 9 { BoardModel { rec_name: n.update(l, 32u16), ..b } } else { b }, seq![])
    } else if k.kind == Kind::Special && k.vk == VK_BACK {
        let e = if l < n.len() { l } else { 0 };
        (if e > 0 { BoardModel { rec_name: n.update(e - 1, 0u16), ..b } } else { b }, seq![])
    } else if k.kind == Kind::Special && k.vk == VK_RETURN {
        commit_record_spec(b)
    } else if k.kind == Kind::Special && k.vk == VK_ESCAPE {
        (BoardModel { view_sc: true, ..cancel_record_spec(b) }, seq![OutModel::Resize])
    } else {
        (b, seq![])
    }
}

/// Key `idx` pressed while recording (see `capture_first` and `capture_name`).
#[verifier::opaque]
pub open spec fn capture_spec(b: BoardModel, idx: int, caps: bool) -> (BoardModel, Seq<OutModel>) {
    let k = b.keys[idx];
    if b.rec_step == 0 { (capture_first(b, k), seq![]) } else { capture_name(b, k, caps) }
}

impl Board {
    /// See `capture_spec`; every key is taken while recording, so it returns true.
    #[verifier::spinoff_prover]
    pub fn capture_key(&mut self, idx: usize, caps: bool, out: &mut Vec<Out>) -> (r: bool)
        requires
            old(self).wf(),
            idx < old(self)@.keys.len(),
            mod_key_ok(old(self)@.keys[idx as int]),
        ensures
            final(self).wf(),
            final(self)@ == capture_spec(old(self)@, idx as int, caps).0,
            outs_view(final(out)@) == outs_view(old(out)@) + capture_spec(old(self)@, idx as int, caps).1,
            r,
    {
        reveal(capture_spec);
        let ghost o0 = outs_view(out@);
        let k = self.keys[idx];
        assert(k@ == self@.keys[idx as int]);
        if self.rec_step == 0 {
            self.capture_first(k);
            assert(outs_view(out@) =~= o0 + seq![]);
        } else {
            self.capture_name(k, caps, out);
        }
        true
    }

    #[verifier::spinoff_prover]
    fn capture_first(&mut self, k: crate::board::Key)
        requires
            old(self).wf(),
            mod_key_ok(k@),
        ensures
            final(self).wf(),
            final(self)@ == capture_first(old(self)@, k@),
    {
        proof {
            crate::board::lemma_board_wf_all();
        }
        if k.kind == Kind::Mod {
            let bit: i32 = if k.mod_ == 0 { 1 } else if k.mod_ == 1 { 2 } else if k.mod_ == 2 { 4 } else { 8 };
            self.rec_mods = self.rec_mods ^ bit;
        } else if k.kind == Kind::Shcap {
            self.rec_mods = self.rec_mods ^ 1;
        } else if k.kind == Kind::Char {
            let vk = char_to_vk(k.lo);
            if vk != 0 {
                self.got_key(vk);
            }
        } else if k.kind == Kind::Special {
            self.got_key(k.vk);
        } else if k.kind == Kind::Space {
            self.got_key(VK_SPACE);
        } else if k.kind == Kind::Caps {
            self.got_key(VK_CAPITAL);
        }
    }

    #[verifier::spinoff_prover]
    fn got_key(&mut self, vk: u32)
        requires
            old(self).wf(),
        ensures
            final(self).wf(),
            final(self)@ == got_key(old(self)@, vk),
    {
        proof {
            crate::board::lemma_board_wf_all();
        }
        self.rec_vk = vk;
        self.rec_step = 1;
        self.rec_name = [0u16; 10];
        assert(self.rec_name@ =~= no_name());
    }

    #[verifier::spinoff_prover]
    fn capture_name(&mut self, k: crate::board::Key, caps: bool, out: &mut Vec<Out>)
        requires
            old(self).wf(),
            mod_key_ok(k@),
        ensures
            final(self).wf(),
            final(self)@ == capture_name(old(self)@, k@, caps).0,
            outs_view(final(out)@) == outs_view(old(out)@) + capture_name(old(self)@, k@, caps).1,
    {
        let ghost o0 = outs_view(out@);
        if k.kind == Kind::Special && k.vk == VK_RETURN {
            self.commit_record(out);
            return;
        }
        if k.kind == Kind::Special && k.vk == VK_ESCAPE {
            self.cancel_record();
            self.set_view_sc(true);
            push_out(out, Out::Resize);
            assert(outs_view(out@) =~= o0 + seq![OutModel::Resize]);
            return;
        }
        self.edit_name(k, caps);
        assert(outs_view(out@) =~= o0 + seq![]);
    }

    #[verifier::spinoff_prover]
    fn edit_name(&mut self, k: crate::board::Key, caps: bool)
        requires
            old(self).wf(),
            mod_key_ok(k@),
            !(k.kind == Kind::Special && (k.vk == VK_RETURN || k.vk == VK_ESCAPE)),
        ensures
            final(self).wf(),
            final(self)@ == capture_name(old(self)@, k@, caps).0,
    {
        if k.kind == Kind::Mod || k.kind == Kind::Shcap {
            self.name_mod(k, caps);
        } else if k.kind == Kind::Char || k.kind == Kind::Space || (k.kind == Kind::Special && k.vk == VK_BACK) {
            self.name_text(k, caps);
        }
    }

    #[verifier::spinoff_prover]
    fn name_mod(&mut self, k: crate::board::Key, caps: bool)
        requires
            old(self).wf(),
            mod_key_ok(k@),
            k.kind == Kind::Mod || k.kind == Kind::Shcap,
        ensures
            final(self).wf(),
            final(self)@ == capture_name(old(self)@, k@, caps).0,
    {
        let m: usize = if k.kind == Kind::Mod { k.mod_ as usize } else { MX_SHIFT };
        let v = if self.mods[m] == M_OFF { M_HELD } else { M_OFF };
        self.set_mod(m, v);
    }

    #[verifier::spinoff_prover]
    fn name_text(&mut self, k: crate::board::Key, caps: bool)
        requires
            old(self).wf(),
            k.kind == Kind::Char || k.kind == Kind::Space || (k.kind == Kind::Special && k.vk == VK_BACK),
        ensures
            final(self).wf(),
            final(self)@ == capture_name(old(self)@, k@, caps).0,
    {
        let l = name_len(&self.rec_name);
        if k.kind == Kind::Char {
            if l < 9 {
                let c = if self.shifted_for(k.lo, caps) { k.hi } else { k.lo };
                self.set_name_unit(l, c);
            }
        } else if k.kind == Kind::Space {
            if 0 < l && l < 9 {
                self.set_name_unit(l, 32);
            }
        } else {
            let e = if l < 10 { l } else { 0 };
            if e > 0 {
                self.set_name_unit(e - 1, 0);
            }
        }
    }

    #[verifier::spinoff_prover]
    fn set_name_unit(&mut self, i: usize, c: u16)
        requires
            old(self).wf(),
            i < 10,
        ensures
            final(self).wf(),
            final(self)@ == (BoardModel { rec_name: old(self)@.rec_name.update(i as int, c), ..old(self)@ }),
    {
        proof {
            crate::board::lemma_board_wf_all();
        }
        let ghost b0 = self@;
        self.rec_name[i] = c;
        assert(self.rec_name@ =~= b0.rec_name.update(i as int, c));
    }
}

/// See `name_end`.
#[verifier::spinoff_prover]
fn name_len(n: &[u16; 10]) -> (r: usize)
    ensures
        r == name_end(n@),
        r <= 10,
{
    let mut i: usize = 0;
    while i < 10 && n[i] != 0
        invariant
            i <= 10,
            first_zero_from(n@, 0) == first_zero_from(n@, i as int),
        decreases 10 - i,
    {
        i = i + 1;
    }
    i
}

/// While the key of a recording is being chosen, pressing the modifier key of slot `m`
/// (0 Shift, 1 Ctrl, 2 Alt, 3 Win) toggles exactly bit `1 << m` of the recorded modifiers
/// (1 Shift, 2 Ctrl, 4 Alt, 8 Win), changes nothing else and sends nothing.
pub proof fn lemma_record_mod_toggles_its_bit(b: BoardModel, idx: int, caps: bool)
    requires
        0 <= idx < b.keys.len(),
        b.rec_step == 0,
        b.keys[idx].kind == Kind::Mod,
        0 <= b.keys[idx].mod_ < 4,
    ensures
        capture_spec(b, idx, caps).0 == (BoardModel { rec_mods: b.rec_mods ^ (1i32 << (b.keys[idx].mod_ as u32)), ..b }),
        capture_spec(b, idx, caps).1.len() == 0,
{
    reveal(capture_spec);
    let m = b.keys[idx].mod_;
    assert(1i32 << 0u32 == 1i32) by (bit_vector);
    assert(1i32 << 1u32 == 2i32) by (bit_vector);
    assert(1i32 << 2u32 == 4i32) by (bit_vector);
    assert(1i32 << 3u32 == 8i32) by (bit_vector);
    assert(mod_bit(m) == 1i32 << (m as u32));
}

/// While the key of a recording is being chosen, the Shift/Caps key toggles the Shift bit
/// (1) of the recorded modifiers, changes nothing else and sends nothing.
pub proof fn lemma_record_shcap_toggles_shift(b: BoardModel, idx: int, caps: bool)
    requires
        0 <= idx < b.keys.len(),
        b.rec_step == 0,
        b.keys[idx].kind == Kind::Shcap,
    ensures
        capture_spec(b, idx, caps).0 == (BoardModel { rec_mods: b.rec_mods ^ 1i32, ..b }),
        capture_spec(b, idx, caps).1.len() == 0,
{
    reveal(capture_spec);
}

} // verus!
