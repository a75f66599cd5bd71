//! The keyboard's state: keys, panels, sticky modifiers, the word tracker, the clipboard
//! history, pinned windows and custom shortcuts.
use vstd::prelude::*;
use crate::clip::{ClipHistory, ClipView, clip_wf};
use crate::predict::{PredModel, Predictor, pred_wf, pad3};
use crate::text::{utf16_of, wstr_fill, wbuf8};
use crate::dict::MAX_DICT_WORDS;

verus! {

/// A rectangle in client coordinates (right and bottom exclusive).
#[derive(Clone, Copy, Debug)]
pub struct Rect {
    pub left: i32,
    pub top: i32,
    pub right: i32,
    pub bottom: i32,
}

pub open spec fn zero_rect_spec() -> Rect {
    Rect { left: 0, top: 0, right: 0, bottom: 0 }
}

/// The empty rectangle at the origin.
pub fn zero_rect() -> (r: Rect)
    ensures
        r == zero_rect_spec(),
{
    Rect { left: 0, top: 0, right: 0, bottom: 0 }
}

/// Whether the point lies inside the rectangle.
pub fn pt_in_rect(rc: &Rect, x: i32, y: i32) -> (r: bool)
    ensures
        r == (x >= rc.left && x < rc.right && y >= rc.top && y < rc.bottom),
{
    x >= rc.left && x < rc.right && y >= rc.top && y < rc.bottom
}

/// Whether the rectangle has no area.
pub fn is_rect_empty(rc: &Rect) -> (r: bool)
    ensures
        r == (rc.right <= rc.left || rc.bottom <= rc.top),
{
    rc.right <= rc.left || rc.bottom <= rc.top
}

/// Makes the rectangle empty (all coordinates 0).
pub fn set_rect_empty(rc: &mut Rect)
    ensures
        *final(rc) == zero_rect_spec(),
{
    rc.left = 0;
    rc.top = 0;
    rc.right = 0;
    rc.bottom = 0;
}

/// Sets the four coordinates of the rectangle.
pub fn set_rect(rc: &mut Rect, l: i32, t: i32, r: i32, b: i32)
    ensures
        *final(rc) == (Rect { left: l, top: t, right: r, bottom: b }),
{
    rc.left = l;
    rc.top = t;
    rc.right = r;
    rc.bottom = b;
}

/// What a key does when pressed.
#[derive(Clone, Copy, Debug, PartialEq, Eq, Structural)]
pub enum Kind {
    Char,
    Special,
    Mod,
    Caps,
    Space,
    Page,
    Macro,
    Setting,
    Sugg,
    Clip,
    Cnav,
    Shcap,
    Scut,
    Info,
}

/// One key: its label, what it does, its width (in tenths of a standard key) and row, and
/// where it was laid out.
#[derive(Clone, Copy)]
pub struct Key {
    pub text: [u16; 10],
    pub sub: [u16; 4],
    pub tag: u16,
    pub kind: Kind,
    pub vk: u32,
    pub mod_: i32,
    pub lo: u16,
    pub hi: u16,
    pub w10: u32,
    pub row: i32,
    pub rc: Rect,
}

/// A key as a mathematical value.
pub struct KeyModel {
    pub text: Seq<u16>,
    pub sub: Seq<u16>,
    pub tag: u16,
    pub kind: Kind,
    pub vk: u32,
    pub mod_: i32,
    pub lo: u16,
    pub hi: u16,
    pub w10: u32,
    pub row: i32,
    pub rc: Rect,
}

impl View for Key {
    type V = KeyModel;

    open spec fn view(&self) -> KeyModel {
        KeyModel {
            text: self.text@,
            sub: self.sub@,
            tag: self.tag,
            kind: self.kind,
            vk: self.vk,
            mod_: self.mod_,
            lo: self.lo,
            hi: self.hi,
            w10: self.w10,
            row: self.row,
            rc: self.rc,
        }
    }
}

pub open spec fn keys_view(k: Seq<Key>) -> Seq<KeyModel> {
    k.map_values(|x: Key| x@)
}

/// A custom shortcut slot: modifier bits (1 Shift, 2 Ctrl, 4 Alt, 8 Win), key, name, and
/// whether it is pinned to the shortcut strip.
#[derive(Clone, Copy)]
pub struct Shortcut {
    pub used: bool,
    pub mods: i32,
    pub vk: u32,
    pub name: [u16; 10],
    pub star: bool,
}

pub struct ShortcutModel {
    pub used: bool,
    pub mods: i32,
    pub vk: u32,
    pub name: Seq<u16>,
    pub star: bool,
}

impl View for Shortcut {
    type V = ShortcutModel;

    open spec fn view(&self) -> ShortcutModel {
        ShortcutModel { used: self.used, mods: self.mods, vk: self.vk, name: self.name@, star: self.star }
    }
}

pub open spec fn empty_shortcut() -> ShortcutModel {
    ShortcutModel { used: false, mods: 0, vk: 0, name: Seq::new(10, |i: int| 0u16), star: false }
}

impl Shortcut {
    /// An unused slot.
    pub fn new() -> (s: Shortcut)
        ensures
            s@ == empty_shortcut(),
    {
        let s = Shortcut { used: false, mods: 0, vk: 0, name: [0u16; 10], star: false };
        assert(s@.name =~= Seq::new(10, |i: int| 0u16));
        s
    }
}

/// A button of the top bar.
#[derive(Clone, Copy)]
pub struct BarBtn {
    pub id: i32,
    pub t: [u16; 8],
    pub rc: Rect,
    pub w: i32,
    pub show: bool,
    pub side: i32,
}

pub struct BarModel {
    pub id: i32,
    pub t: Seq<u16>,
    pub rc: Rect,
    pub w: i32,
    pub show: bool,
    pub side: i32,
}

impl View for BarBtn {
    type V = BarModel;

    open spec fn view(&self) -> BarModel {
        BarModel { id: self.id, t: self.t@, rc: self.rc, w: self.w, show: self.show, side: self.side }
    }
}

// Modifier states.
pub const M_OFF: i32 = 0;
pub const M_HELD: i32 = 1;
pub const M_LOCKED: i32 = 2;

// Modifier slots.
pub const MX_SHIFT: usize = 0;
pub const MX_CTRL: usize = 1;
pub const MX_ALT: usize = 2;
pub const MX_WIN: usize = 3;

// Top bar buttons.
pub const BAR_NONE: i32 = 0;
pub const BAR_FN: i32 = 1;
pub const BAR_STAR: i32 = 2;
pub const BAR_MODE: i32 = 3;
pub const BAR_X: i32 = 4;
pub const BAR_GEAR: i32 = 5;
pub const BAR_CLIP: i32 = 6;
pub const BAR_SC: i32 = 7;

// Timers.
pub const TIMER_CAPS: usize = 1;
pub const TIMER_REPEAT: usize = 2;
pub const TIMER_FLASH: usize = 3;
pub const TIMER_HOLD: usize = 4;
pub const TIMER_SHCAP: usize = 5;
pub const TIMER_PIN: usize = 6;

/// Number of custom shortcut slots.
pub const MAXSCUT: usize = 10;

/// Most keys a layout holds.
pub const MAXKEYS: usize = 160;

/// Most windows that can be pinned on top.
pub const MAXPINWIN: usize = 8;

/// Longest gap (ms) between two Backspace taps that deletes a word.
pub const BKSP_DBL_MS: u32 = 400;

/// The keyboard's state (everything but the host's window handles, fonts and scale).
pub struct Board {
    pub keys: Vec<Key>,
    pub opacity: i32,
    pub show_fn: bool,
    pub compact: bool,
    pub page: i32,
    pub show_settings: bool,
    pub show_macros: bool,
    pub pos_x: i32,
    pub pos_y: i32,
    pub has_pos: bool,
    pub pending: i32,
    pub hold_popup: i32,
    pub shcap_armed: bool,
    pub pop_base: u16,
    pub pop_alt: u16,
    pub pop_rc: [Rect; 2],
    pub pop_all: Rect,
    pub pop_hover: i32,
    pub pred: Predictor,
    pub clips: ClipHistory,
    pub view_clip: bool,
    pub pin_arm: bool,
    pub mods: [i32; 4],
    pub pressed: i32,
    pub down_idx: i32,
    pub repeat_idx: i32,
    pub repeat_vk: u32,
    pub repeat_first: bool,
    pub pinwins: Vec<usize>,
    pub sc: [Shortcut; 10],
    pub view_sc: bool,
    pub sc_del_arm: bool,
    pub rec_slot: i32,
    pub rec_step: i32,
    pub rec_mods: i32,
    pub rec_vk: u32,
    pub rec_name: [u16; 10],
    pub star_arm: bool,
    pub pin_bar_on: bool,
    pub bksp_last_up: u32,
    pub bar: [BarBtn; 7],
}

/// The keyboard's state as a mathematical value.
pub struct BoardModel {
    pub keys: Seq<KeyModel>,
    pub opacity: i32,
    pub show_fn: bool,
    pub compact: bool,
    pub page: i32,
    pub show_settings: bool,
    pub show_macros: bool,
    pub pos_x: i32,
    pub pos_y: i32,
    pub has_pos: bool,
    pub pending: i32,
    pub hold_popup: i32,
    pub shcap_armed: bool,
    pub pop_base: u16,
    pub pop_alt: u16,
    pub pop_rc: Seq<Rect>,
    pub pop_all: Rect,
    pub pop_hover: i32,
    pub pred: PredModel,
    pub clip: Seq<ClipView>,
    pub clip_off: usize,
    pub view_clip: bool,
    pub pin_arm: bool,
    pub mods: Seq<i32>,
    pub pressed: i32,
    pub down_idx: i32,
    pub repeat_idx: i32,
    pub repeat_vk: u32,
    pub repeat_first: bool,
    pub pinwins: Seq<usize>,
    pub sc: Seq<ShortcutModel>,
    pub view_sc: bool,
    pub sc_del_arm: bool,
    pub rec_slot: i32,
    pub rec_step: i32,
    pub rec_mods: i32,
    pub rec_vk: u32,
    pub rec_name: Seq<u16>,
    pub star_arm: bool,
    pub pin_bar_on: bool,
    pub bksp_last_up: u32,
    pub bar: Seq<BarModel>,
}

impl View for Board {
    type V = BoardModel;

    open spec fn view(&self) -> BoardModel {
        BoardModel {
            keys: keys_view(self.keys@),
            opacity: self.opacity,
            show_fn: self.show_fn,
            compact: self.compact,
            page: self.page,
            show_settings: self.show_settings,
            show_macros: self.show_macros,
            pos_x: self.pos_x,
            pos_y: self.pos_y,
            has_pos: self.has_pos,
            pending: self.pending,
            hold_popup: self.hold_popup,
            shcap_armed: self.shcap_armed,
            pop_base: self.pop_base,
            pop_alt: self.pop_alt,
            pop_rc: self.pop_rc@,
            pop_all: self.pop_all,
            pop_hover: self.pop_hover,
            pred: self.pred@,
            clip: self.clips@,
            clip_off: self.clips.clip_off,
            view_clip: self.view_clip,
            pin_arm: self.pin_arm,
            mods: self.mods@,
            pressed: self.pressed,
            down_idx: self.down_idx,
            repeat_idx: self.repeat_idx,
            repeat_vk: self.repeat_vk,
            repeat_first: self.repeat_first,
            pinwins: self.pinwins@,
            sc: self.sc@.map_values(|s: Shortcut| s@),
            view_sc: self.view_sc,
            sc_del_arm: self.sc_del_arm,
            rec_slot: self.rec_slot,
            rec_step: self.rec_step,
            rec_mods: self.rec_mods,
            rec_vk: self.rec_vk,
            rec_name: self.rec_name@,
            star_arm: self.star_arm,
            pin_bar_on: self.pin_bar_on,
            bksp_last_up: self.bksp_last_up,
            bar: self.bar@.map_values(|b: BarBtn| b@),
        }
    }
}

/// A modifier slot is off, held for the next key, or locked.
pub open spec fn mod_state_ok(v: i32) -> bool {
    v == M_OFF || v == M_HELD || v == M_LOCKED
}

/// A well-formed state: the word tracker and the clipboard history are well formed, every
/// modifier is off, held or locked, at most 160 keys, at most 8 pinned windows, and the
/// recorded shortcut name holds at most 9 units.
pub open spec fn board_parts(b: BoardModel) -> bool {
    &&& tracker_ok(b.pred)
    &&& history_ok(b.clip)
    &&& b.mods.len() == 4
    &&& 102 <= b.opacity <= 255
    &&& b.clip_off <= crate::clip::MAXCLIP
    &&& forall|i: int| 0 <= i < 4 ==> mod_state_ok(#[trigger] b.mods[i])
    &&& b.keys.len() <= MAXKEYS
    &&& b.pinwins.len() <= MAXPINWIN
    &&& b.sc.len() == MAXSCUT
    &&& b.rec_name.len() == 10
    &&& b.pop_rc.len() == 2
    &&& b.bar.len() == 7
    &&& forall|i: int| 0 <= i < 7 ==> 0 <= #[trigger] b.bar[i].id <= 7
    &&& -1 <= b.rec_slot < MAXSCUT
}

/// A well-formed state (see `board_parts`; kept folded so that proofs that only pass it
/// along do not unfold it).
pub closed spec fn board_wf(b: BoardModel) -> bool {
    board_parts(b)
}

pub proof fn lemma_board_wf(b: BoardModel)
    ensures
        board_wf(b) == board_parts(b),
{
}

/// A well-formed board has a well-formed word tracker.
pub proof fn lemma_wf_pred(b: BoardModel)
    requires
        board_wf(b),
    ensures
        pred_wf(b.pred),
{
}

/// A board that differs from a well-formed one only in its (well-formed) word tracker and
/// in unconstrained fields is well formed.
pub proof fn lemma_wf_frame_pred(b: BoardModel, c: BoardModel)
    requires
        board_wf(b),
        pred_wf(c.pred),
        c.mods == b.mods,
        c.opacity == b.opacity,
        c.clip_off == b.clip_off,
        c.keys == b.keys,
        c.pinwins == b.pinwins,
        c.sc == b.sc,
        c.rec_name == b.rec_name,
        c.pop_rc == b.pop_rc,
        c.bar == b.bar,
        c.clip == b.clip,
        c.rec_slot == b.rec_slot,
    ensures
        board_wf(c),
{
}

/// The clipboard page's offset and the history's length are bounded on a well-formed board.
pub proof fn lemma_wf_clip(b: BoardModel)
    requires
        board_wf(b),
    ensures
        b.clip_off <= crate::clip::MAXCLIP,
        b.clip.len() <= crate::clip::MAXCLIP,
{
}

/// A well-formed board has at most `MAXKEYS` keys and bar buttons with small ids.
pub proof fn lemma_wf_keys_bar(b: BoardModel)
    requires
        board_wf(b),
    ensures
        b.keys.len() <= MAXKEYS,
        b.bar.len() == 7,
        forall|i: int| 0 <= i < 7 ==> 0 <= #[trigger] b.bar[i].id <= 7,
{
}

/// Unfolds `board_wf` wherever it occurs in the proof that calls this.
pub proof fn lemma_board_wf_all()
    ensures
        forall|b: BoardModel| #[trigger] board_wf(b) == board_parts(b),
{
}

/// The word tracker is well formed (kept folded so that proofs about the rest of the
/// board do not unfold it).
pub closed spec fn tracker_ok(p: PredModel) -> bool {
    pred_wf(p)
}

/// The clipboard history is well formed (kept folded like `tracker_ok`).
pub closed spec fn history_ok(c: Seq<ClipView>) -> bool {
    clip_wf(c)
}

pub proof fn lemma_tracker_ok(p: PredModel)
    ensures
        tracker_ok(p) == pred_wf(p),
{
}

/// The word tracker stays well formed when only its flags change.
pub proof fn lemma_tracker_flags(p: PredModel, q: PredModel)
    requires
        tracker_ok(p),
        q.dict == p.dict,
        q.bigram == p.bigram,
        q.lang == p.lang,
        q.word_buf == p.word_buf,
        q.sugg == p.sugg,
        q.prev_idx == p.prev_idx,
        q.auto_corr_len == p.auto_corr_len,
        q.auto_orig == p.auto_orig,
    ensures
        tracker_ok(q),
{
}

pub proof fn lemma_history_ok(c: Seq<ClipView>)
    ensures
        history_ok(c) == clip_wf(c),
{
}

impl Board {
    pub open spec fn wf(&self) -> bool {
        board_wf(self@)
    }
}

} // verus!
