//! The keyboard's initial state, and the settings it keeps between runs.
use vstd::prelude::*;
use crate::board::{
    Board, BoardModel, BarBtn, BarModel, Rect, Shortcut, empty_shortcut, zero_rect, zero_rect_spec,
    board_wf, M_OFF, BAR_FN, BAR_STAR, BAR_SC, BAR_CLIP, BAR_MODE, BAR_X, BAR_GEAR,
};
use crate::clip::ClipHistory;
use crate::predict::{Predictor, PredModel, fresh_pred};
use crate::text::{utf16_of, wstr_fill, wbuf8, zstr, lossy_units, lossy_units_spec, zero_prefix, set_units};
use crate::keys::{auto_name, auto_name_spec};
use crate::layout::{starred, star_count_upto};
use crate::board::ShortcutModel;
use crate::state::with_pred;

verus! {

/// A bar button with label `t`, `w` pixels wide (before scaling), on side `side` (0 right,
/// 1 left).
pub open spec fn bar_model(id: i32, t: Seq<char>, w: i32, side: i32) -> BarModel {
    BarModel { id: id, t: wstr_fill(utf16_of(t), 8), rc: zero_rect_spec(), w: w, show: true, side: side }
}

/// The top bar: Fn, ★, SC, Clip, the layout button and ✕ on the right, ⚙ on the left.
pub open spec fn initial_bar() -> Seq<BarModel> {
    seq![
        bar_model(BAR_FN, "Fn"@, 40, 0),
        bar_model(BAR_STAR, "\u{2605}"@, 36, 0),
        bar_model(BAR_SC, "SC"@, 36, 0),
        bar_model(BAR_CLIP, "Clip"@, 40, 0),
        bar_model(BAR_MODE, "Compact"@, 58, 0),
        bar_model(BAR_X, "\u{2715}"@, 40, 0),
        bar_model(BAR_GEAR, "\u{2699}"@, 36, 1),
    ]
}

/// The keyboard before its settings and data are loaded: Full layout with the function
/// row, 96% opaque, no keys yet, nothing pressed, waiting, recorded or pinned, every
/// modifier off, ten empty shortcut slots, the pinned strip on.
pub open spec fn initial_board() -> BoardModel {
    BoardModel {
        keys: seq![],
        opacity: 245,
        show_fn: true,
        compact: false,
        page: 0,
        show_settings: false,
        show_macros: false,
        pos_x: 0,
        pos_y: 0,
        has_pos: false,
        pending: -1i32,
        hold_popup: -1i32,
        shcap_armed: false,
        pop_base: 0,
        pop_alt: 0,
        pop_rc: seq![zero_rect_spec(), zero_rect_spec()],
        pop_all: zero_rect_spec(),
        pop_hover: -1i32,
        pred: fresh_pred(),
        clip: seq![],
        clip_off: 0,
        view_clip: false,
        pin_arm: false,
        mods: seq![M_OFF, M_OFF, M_OFF, M_OFF],
        pressed: -1i32,
        down_idx: -2i32,
        repeat_idx: -1i32,
        repeat_vk: 0,
        repeat_first: false,
        pinwins: seq![],
        sc: Seq::new(10, |i: int| empty_shortcut()),
        view_sc: false,
        sc_del_arm: false,
        rec_slot: -1i32,
        rec_step: 0,
        rec_mods: 0,
        rec_vk: 0,
        rec_name: Seq::new(10, |i: int| 0u16),
        star_arm: false,
        pin_bar_on: true,
        bksp_last_up: 0,
        bar: initial_bar(),
    }
}

fn bar_btn(id: i32, t: &str, w: i32, side: i32) -> (b: BarBtn)
    ensures
        b@ == bar_model(id, t@, w, side),
{
    BarBtn { id: id, t: wbuf8(t), rc: zero_rect(), w: w, show: true, side: side }
}

impl Board {
    /// See `initial_board`.
    pub fn new() -> (b: Board)
        ensures
            b.wf(),
            b@ == initial_board(),
    {
        let bar = [
            bar_btn(BAR_FN, "Fn", 40, 0),
            bar_btn(BAR_STAR, "\u{2605}", 36, 0),
            bar_btn(BAR_SC, "SC", 36, 0),
            bar_btn(BAR_CLIP, "Clip", 40, 0),
            bar_btn(BAR_MODE, "Compact", 58, 0),
            bar_btn(BAR_X, "\u{2715}", 40, 0),
            bar_btn(BAR_GEAR, "\u{2699}", 36, 1),
        ];
        let e = Shortcut::new();
        let b = Board {
            keys: Vec::new(),
            opacity: 245,
            show_fn: true,
            compact: false,
            page: 0,
            show_settings: false,
            show_macros: false,
            pos_x: 0,
            pos_y: 0,
            has_pos: false,
            pending: -1,
            hold_popup: -1,
            shcap_armed: false,
            pop_base: 0,
            pop_alt: 0,
            pop_rc: [zero_rect(), zero_rect()],
            pop_all: zero_rect(),
            pop_hover: -1,
            pred: Predictor::new(),
            clips: ClipHistory::new(),
            view_clip: false,
            pin_arm: false,
            mods: [M_OFF; 4],
            pressed: -1,
            down_idx: -2,
            repeat_idx: -1,
            repeat_vk: 0,
            repeat_first: false,
            pinwins: Vec::new(),
            sc: [e; 10],
            view_sc: false,
            sc_del_arm: false,
            rec_slot: -1,
            rec_step: 0,
            rec_mods: 0,
            rec_vk: 0,
            rec_name: [0u16; 10],
            star_arm: false,
            pin_bar_on: true,
            bksp_last_up: 0,
            bar: bar,
        };
        proof {
            crate::board::lemma_board_wf_all();
            crate::board::lemma_tracker_ok(b.pred@);
            crate::board::lemma_history_ok(b.clips@);
            assert(b@.keys =~= seq![]);
            assert(b@.pop_rc =~= seq![zero_rect_spec(), zero_rect_spec()]);
            assert(b@.mods =~= seq![M_OFF, M_OFF, M_OFF, M_OFF]);
            assert(b@.pinwins =~= seq![]);
            assert(b@.sc =~= Seq::new(10, |i: int| empty_shortcut()));
            assert(b@.rec_name =~= Seq::new(10, |i: int| 0u16));
            assert(b@.bar =~= initial_bar());
        }
        b
    }
}

} // verus!

verus! {

// ---------------------------------------------------------------------------
// Stored settings
// ---------------------------------------------------------------------------

/// One shortcut slot as stored: each value is absent when it was not stored.  The name is
/// the stored string's buffer (16 units), present only when it was stored as a string of 1
/// to 16 units.
pub struct StoredSlot {
    pub mods: Option<u32>,
    pub vk: Option<u32>,
    pub name: Option<[u16; 16]>,
    pub star: Option<u32>,
}

/// A stored slot as a mathematical value.
pub struct StoredSlotModel {
    pub mods: Option<u32>,
    pub vk: Option<u32>,
    pub name: Option<Seq<u16>>,
    pub star: Option<u32>,
}

impl View for StoredSlot {
    type V = StoredSlotModel;

    open spec fn view(&self) -> StoredSlotModel {
        StoredSlotModel {
            mods: self.mods,
            vk: self.vk,
            name: match self.name {
                Some(n) => Some(n@),
                None => None,
            },
            star: self.star,
        }
    }
}

/// The stored settings (the scale is the host's).
pub struct Stored {
    pub opacity: Option<u32>,
    pub compact: Option<u32>,
    pub show_fn: Option<u32>,
    pub lang: Option<u32>,
    pub predict: Option<u32>,
    pub autocorrect: Option<u32>,
    pub highlight: Option<u32>,
    pub bigram: Option<u32>,
    pub pin_bar: Option<u32>,
    pub x: Option<u32>,
    pub y: Option<u32>,
    pub slots: Vec<StoredSlot>,
}

/// A stored switch: on unless stored as 0; `d` when absent.
pub open spec fn switch_or(v: Option<u32>, d: bool) -> bool {
    match v {
        Some(x) => x != 0,
        None => d,
    }
}

/// The stored opacity, kept between 102 and 255.
pub open spec fn opacity_of(v: Option<u32>, d: i32) -> i32 {
    match v {
        Some(x) => {
            let o = x as i32;
            if o < 102 { 102 } else if o > 255 { 255 } else { o }
        },
        None => d,
    }
}

/// The name of a stored slot: the stored string (its first 9 units; an unpaired surrogate
/// reads as U+FFFD), or a name made of its modifiers and key.
pub open spec fn stored_name(n: Option<Seq<u16>>, mods: i32, vk: u32) -> Seq<u16> {
    match n {
        Some(buf) => wstr_fill(lossy_units_spec(zstr(buf.update(9, 0u16))), 10),
        None => wstr_fill(auto_name_spec(mods, vk), 10),
    }
}

/// A slot as loaded: its modifiers (4 bits) and key (1 to 254) when stored; a slot with a
/// key is used, named, and starred when stored so.
pub open spec fn loaded_slot(s: StoredSlotModel) -> ShortcutModel {
    let mods = match s.mods {
        Some(m) => (m & 0xF) as i32,
        None => 0i32,
    };
    let vk = match s.vk {
        Some(v) => if 0 < v <= 0xFE { v } else { 0u32 },
        None => 0u32,
    };
    if vk == 0 {
        ShortcutModel { mods: mods, ..empty_shortcut() }
    } else {
        ShortcutModel {
            used: true,
            mods: mods,
            vk: vk,
            name: stored_name(s.name, mods, vk),
            star: match s.star {
                Some(v) => v != 0,
                None => false,
            },
        }
    }
}

/// At most three slots stay pinned to the strip: the first three in slot order.
pub open spec fn cap_stars(sc: Seq<ShortcutModel>) -> Seq<ShortcutModel> {
    Seq::new(sc.len(), |i: int| {
        if starred(sc[i]) && star_count_upto(sc, i + 1) > 3 { ShortcutModel { star: false, ..sc[i] } } else { sc[i] }
    })
}

/// Loading stored settings, first step: opacity, layout, function row and pinned strip.
pub open spec fn display_phase(b: BoardModel, o: Option<u32>, c: Option<u32>, f: Option<u32>, p: Option<u32>) -> BoardModel {
    BoardModel {
        opacity: opacity_of(o, b.opacity),
        compact: switch_or(c, b.compact),
        show_fn: switch_or(f, b.show_fn),
        pin_bar_on: switch_or(p, b.pin_bar_on),
        ..b
    }
}

/// Second step: the language (1 or 0) and the prediction switches.
pub open spec fn switch_phase(b: BoardModel, s: Stored) -> BoardModel {
    let p = b.pred;
    let lang = match s.lang {
        Some(v) => if v == 1 { 1int } else { 0int },
        None => p.lang,
    };
    BoardModel {
        pred: PredModel {
            lang: lang,
            predict_on: switch_or(s.predict, p.predict_on),
            autocorrect: switch_or(s.autocorrect, p.autocorrect),
            highlight_on: switch_or(s.highlight, p.highlight_on),
            bigram_on: switch_or(s.bigram, p.bigram_on),
            ..p
        },
        ..b
    }
}

/// Third step: the ten shortcut slots, each loaded anew, at most three of them starred.
pub open spec fn slots_phase(b: BoardModel, s: Stored) -> BoardModel {
    BoardModel { sc: cap_stars(Seq::new(10, |i: int| loaded_slot(s.slots@[i]@))), ..b }
}

/// Last step: the window position, taken when X is stored; it counts as known when Y is
/// stored too.
pub open spec fn pos_phase(b: BoardModel, s: Stored) -> BoardModel {
    match (s.x, s.y) {
        (Some(x), Some(y)) => BoardModel { pos_x: x as i32, pos_y: y as i32, has_pos: true, ..b },
        (Some(x), None) => BoardModel { pos_x: x as i32, ..b },
        _ => b,
    }
}

/// The board after loading stored settings.
pub open spec fn settings_spec(b: BoardModel, s: Stored) -> BoardModel {
    pos_phase(slots_phase(switch_phase(display_phase(b, s.opacity, s.compact, s.show_fn, s.pin_bar), s), s), s)
}

/// A stored switch (see `switch_or`).
fn switch_of(v: Option<u32>, d: bool) -> (r: bool)
    ensures
        r == switch_or(v, d),
{
    match v {
        Some(x) => x != 0,
        None => d,
    }
}

/// See `loaded_slot`.
fn load_slot(s: &StoredSlot) -> (r: Shortcut)
    ensures
        r@ == loaded_slot(s@),
{
    let mut e = Shortcut::new();
    if let Some(m) = s.mods {
        e.mods = (m & 0xF) as i32;
    }
    if let Some(v) = s.vk {
        if v > 0 && v <= 0xFE {
            e.vk = v;
        }
    }
    if e.vk == 0 {
        assert(e@ == (ShortcutModel { mods: e.mods, ..empty_shortcut() }));
        return e;
    }
    match &s.name {
        Some(buf) => {
            let mut b = *buf;
            b[9] = 0;
            assert(b@ =~= buf@.update(9, 0u16));
            let z = zero_prefix(&b);
            let l = lossy_units(z.as_slice());
            set_units(&mut e.name, l.as_slice());
        },
        None => {
            let an = auto_name(e.mods, e.vk);
            set_units(&mut e.name, an.as_slice());
        },
    }
    e.used = true;
    if let Some(sv) = s.star {
        if sv != 0 {
            e.star = true;
        }
    }
    e
}

/// See `cap_stars`.
fn capped(sc: &[Shortcut; 10]) -> (r: [Shortcut; 10])
    ensures
        r@.map_values(|x: Shortcut| x@) == cap_stars(sc@.map_values(|x: Shortcut| x@)),
{
    let ghost v = sc@.map_values(|x: Shortcut| x@);
    let mut r = *sc;
    let mut kept: i32 = 0;
    let mut q: usize = 0;
    while q < 10
        invariant
            q <= 10,
            v == sc@.map_values(|x: Shortcut| x@),
            kept == star_count_upto(v, q as int),
            0 <= kept <= q,
            forall|j: int| 0 <= j < q ==> #[trigger] r@[j]@ == cap_stars(v)[j],
            forall|j: int| q <= j < 10 ==> #[trigger] r@[j] == sc@[j],
        decreases 10 - q,
    {
        let e = sc[q];
        assert(e@ == v[q as int]);
        if e.used && e.vk != 0 && e.star {
            kept = kept + 1;
            if kept > 3 {
                let mut f = e;
                f.star = false;
                r[q] = f;
            }
        }
        q = q + 1;
    }
    assert(r@.map_values(|x: Shortcut| x@) =~= cap_stars(v));
    r
}

/// The ten slots as loaded (see `loaded_slot`).
fn load_slots(s: &Stored) -> (r: [Shortcut; 10])
    requires
        s.slots.len() == 10,
    ensures
        r@.map_values(|x: Shortcut| x@) == Seq::new(10, |i: int| loaded_slot(s.slots@[i]@)),
{
    let mut sc = [Shortcut::new(); 10];
    let mut i: usize = 0;
    while i < 10
        invariant
            i <= 10,
            s.slots.len() == 10,
            forall|j: int| 0 <= j < i ==> #[trigger] sc@[j]@ == loaded_slot(s.slots@[j]@),
        decreases 10 - i,
    {
        sc[i] = load_slot(&s.slots[i]);
        i = i + 1;
    }
    assert(sc@.map_values(|x: Shortcut| x@) =~= Seq::new(10, |i: int| loaded_slot(s.slots@[i]@)));
    sc
}

/// A stored opacity (see `opacity_of`).
fn opacity_value(v: Option<u32>, d: i32) -> (r: i32)
    ensures
        r == opacity_of(v, d),
        v is Some ==> 102 <= r <= 255,
{
    match v {
        Some(x) => {
            let o = x as i32;
            if o < 102 { 102 } else if o > 255 { 255 } else { o }
        },
        None => d,
    }
}

impl Board {
    #[verifier::spinoff_prover]
    fn set_compact_flag(&mut self, v: bool)
        requires
            old(self).wf(),
        ensures
            final(self).wf(),
            final(self)@ == (BoardModel { compact: v, ..old(self)@ }),
    {
        proof {
            crate::board::lemma_board_wf_all();
        }
        self.compact = v;
    }

    #[verifier::spinoff_prover]
    fn set_pos_x(&mut self, v: i32)
        requires
            old(self).wf(),
        ensures
            final(self).wf(),
            final(self)@ == (BoardModel { pos_x: v, ..old(self)@ }),
    {
        proof {
            crate::board::lemma_board_wf_all();
        }
        self.pos_x = v;
    }

    #[verifier::spinoff_prover]
    fn set_pos_y(&mut self, v: i32)
        requires
            old(self).wf(),
        ensures
            final(self).wf(),
            final(self)@ == (BoardModel { pos_y: v, has_pos: true, ..old(self)@ }),
    {
        proof {
            crate::board::lemma_board_wf_all();
        }
        self.pos_y = v;
        self.has_pos = true;
    }

    #[verifier::spinoff_prover]
    fn set_pred_switches(&mut self, lang: usize, predict: bool, auto: bool, highlight: bool, bigram: bool)
        requires
            old(self).wf(),
            lang < 2,
        ensures
            final(self).wf(),
            final(self)@ == with_pred(old(self)@, PredModel {
                lang: lang as int,
                predict_on: predict,
                autocorrect: auto,
                highlight_on: highlight,
                bigram_on: bigram,
                ..old(self)@.pred
            }),
    {
        proof {
            crate::board::lemma_board_wf_all();
            crate::board::lemma_tracker_ok(self.pred@);
        }
        self.pred.set_switches(lang, predict, auto, highlight, bigram);
        proof {
            crate::board::lemma_tracker_ok(self.pred@);
        }
    }

    #[verifier::spinoff_prover]
    fn set_slots(&mut self, v: [Shortcut; 10])
        requires
            old(self).wf(),
        ensures
            final(self).wf(),
            final(self)@ == (BoardModel { sc: v@.map_values(|x: Shortcut| x@), ..old(self)@ }),
    {
        proof {
            crate::board::lemma_board_wf_all();
        }
        self.sc = v;
    }

    #[verifier::spinoff_prover]
    fn load_look(&mut self, o: Option<u32>, c: Option<u32>)
        requires
            old(self).wf(),
        ensures
            final(self).wf(),
            final(self)@ == (BoardModel {
                opacity: opacity_of(o, old(self)@.opacity),
                compact: switch_or(c, old(self)@.compact),
                ..old(self)@
            }),
    {
        if o.is_some() {
            let ov = opacity_value(o, self.opacity);
            self.set_opacity(ov);
        }
        let cv = switch_of(c, self.compact);
        self.set_compact_flag(cv);
    }

    #[verifier::spinoff_prover]
    fn load_rows(&mut self, f: Option<u32>, p: Option<u32>)
        requires
            old(self).wf(),
        ensures
            final(self).wf(),
            final(self)@ == (BoardModel {
                show_fn: switch_or(f, old(self)@.show_fn),
                pin_bar_on: switch_or(p, old(self)@.pin_bar_on),
                ..old(self)@
            }),
    {
        let fv = switch_of(f, self.show_fn);
        let pv = switch_of(p, self.pin_bar_on);
        let ghost b0 = self@;
        self.set_show_fn(fv);
        assert(self@ == (BoardModel { show_fn: fv, ..b0 }));
        self.set_pin_bar_on(pv);
    }

    #[verifier::spinoff_prover]
    fn load_display(&mut self, o: Option<u32>, c: Option<u32>, f: Option<u32>, p: Option<u32>)
        requires
            old(self).wf(),
        ensures
            final(self).wf(),
            final(self)@ == display_phase(old(self)@, o, c, f, p),
    {
        self.load_look(o, c);
        self.load_rows(f, p);
    }

    #[verifier::spinoff_prover]
    fn load_switches(&mut self, s: &Stored)
        requires
            old(self).wf(),
        ensures
            final(self).wf(),
            final(self)@ == switch_phase(old(self)@, *s),
    {
        let lang: usize = match s.lang {
            Some(v) => if v == 1 { 1 } else { 0 },
            None => self.lang_now(),
        };
        let (l0, p0, a0, h0, g0) = self.pred.switches();
        let pr = switch_of(s.predict, p0);
        let au = switch_of(s.autocorrect, a0);
        let hi = switch_of(s.highlight, h0);
        let bg = switch_of(s.bigram, g0);
        self.set_pred_switches(lang, pr, au, hi, bg);
    }

    fn lang_now(&self) -> (r: usize)
        requires
            self.wf(),
        ensures
            r == self@.pred.lang,
            r < 2,
    {
        proof {
            crate::board::lemma_wf_pred(self@);
        }
        let (l0, p0, a0, h0, g0) = self.pred.switches();
        l0
    }

    fn load_slots_into(&mut self, s: &Stored)
        requires
            old(self).wf(),
            s.slots.len() == 10,
        ensures
            final(self).wf(),
            final(self)@ == slots_phase(old(self)@, *s),
    {
        let sc = load_slots(s);
        let c = capped(&sc);
        self.set_slots(c);
    }

    fn load_pos(&mut self, s: &Stored)
        requires
            old(self).wf(),
        ensures
            final(self).wf(),
            final(self)@ == pos_phase(old(self)@, *s),
    {
        if let Some(x) = s.x {
            self.set_pos_x(x as i32);
            if let Some(y) = s.y {
                self.set_pos_y(y as i32);
            }
        }
    }

    /// See `settings_spec`.
    pub fn apply_settings(&mut self, s: &Stored)
        requires
            old(self).wf(),
            s.slots.len() == 10,
        ensures
            final(self).wf(),
            final(self)@ == settings_spec(old(self)@, *s),
    {
        self.load_display(s.opacity, s.compact, s.show_fn, s.pin_bar);
        self.load_switches(s);
        self.load_slots_into(s);
        self.load_pos(s);
    }
}

// ---------------------------------------------------------------------------
// Settings to store
// ---------------------------------------------------------------------------

/// A stored switch: 1 for on, 0 for off.
pub open spec fn flag(b: bool) -> u32 {
    if b { 1 } else { 0 }
}

/// A slot as stored: its modifiers (4 bits), key, name (the text before its first zero,
/// an unpaired surrogate stored as U+FFFD, in a 16-unit buffer) and star.
pub open spec fn saved_slot(e: ShortcutModel) -> StoredSlotModel {
    StoredSlotModel {
        mods: Some((e.mods & 0xF) as u32),
        vk: Some(e.vk),
        name: Some(wstr_fill(lossy_units_spec(zstr(e.name)), 16)),
        star: Some(flag(e.star)),
    }
}

fn flag_of(b: bool) -> (r: u32)
    ensures
        r == flag(b),
{
    if b { 1 } else { 0 }
}

/// See `saved_slot`.
fn save_slot(e: &Shortcut) -> (r: StoredSlot)
    ensures
        r@ == saved_slot(e@),
{
    let z = zero_prefix(&e.name);
    let l = lossy_units(z.as_slice());
    let mut buf = [0u16; 16];
    set_units(&mut buf, l.as_slice());
    StoredSlot {
        mods: Some((e.mods & 0xF) as u32),
        vk: Some(e.vk),
        name: Some(buf),
        star: Some(flag_of(e.star)),
    }
}

impl Board {
    /// The settings to store: every value the board keeps between runs (the window's
    /// position and the scale are the host's to add).
    pub fn saved_settings(&self) -> (s: Stored)
        requires
            self.wf(),
        ensures
            s.opacity == Some(self@.opacity as u32),
            s.compact == Some(flag(self@.compact)),
            s.show_fn == Some(flag(self@.show_fn)),
            s.lang == Some(self@.pred.lang as u32),
            s.predict == Some(flag(self@.pred.predict_on)),
            s.autocorrect == Some(flag(self@.pred.autocorrect)),
            s.highlight == Some(flag(self@.pred.highlight_on)),
            s.bigram == Some(flag(self@.pred.bigram_on)),
            s.pin_bar == Some(flag(self@.pin_bar_on)),
            s.x is None,
            s.y is None,
            s.slots@.len() == 10,
            forall|i: int| 0 <= i < 10 ==> #[trigger] s.slots@[i]@ == saved_slot(self@.sc[i]),
    {
        proof {
            crate::board::lemma_wf_pred(self@);
        }
        let (l0, p0, a0, h0, g0) = self.pred.switches();
        let mut slots: Vec<StoredSlot> = Vec::new();
        let mut i: usize = 0;
        while i < 10
            invariant
                i <= 10,
                self.sc@.len() == 10,
                self@.sc == self.sc@.map_values(|x: Shortcut| x@),
                slots@.len() == i,
                forall|j: int| 0 <= j < i ==> #[trigger] slots@[j]@ == saved_slot(self@.sc[j]),
            decreases 10 - i,
        {
            slots.push(save_slot(&self.sc[i]));
            i = i + 1;
        }
        Stored {
            opacity: Some(self.opacity as u32),
            compact: Some(flag_of(self.compact)),
            show_fn: Some(flag_of(self.show_fn)),
            lang: Some(l0 as u32),
            predict: Some(flag_of(p0)),
            autocorrect: Some(flag_of(a0)),
            highlight: Some(flag_of(h0)),
            bigram: Some(flag_of(g0)),
            pin_bar: Some(flag_of(self.pin_bar_on)),
            x: None,
            y: None,
            slots: slots,
        }
    }
}

// ---------------------------------------------------------------------------
// Storing and loading back
// ---------------------------------------------------------------------------

/// `s` holds the settings of `b` as `saved_settings` gives them.
pub open spec fn saves(s: Stored, b: BoardModel) -> bool {
    &&& s.opacity == Some(b.opacity as u32)
    &&& s.compact == Some(flag(b.compact))
    &&& s.show_fn == Some(flag(b.show_fn))
    &&& s.lang == Some(b.pred.lang as u32)
    &&& s.predict == Some(flag(b.pred.predict_on))
    &&& s.autocorrect == Some(flag(b.pred.autocorrect))
    &&& s.highlight == Some(flag(b.pred.highlight_on))
    &&& s.bigram == Some(flag(b.pred.bigram_on))
    &&& s.pin_bar == Some(flag(b.pin_bar_on))
    &&& s.x is None
    &&& s.y is None
    &&& s.slots@.len() == 10
    &&& forall|i: int| 0 <= i < 10 ==> #[trigger] s.slots@[i]@ == saved_slot(b.sc[i])
}

/// A slot that its stored form holds whole: modifiers of 4 bits, and either no key (and
/// nothing else) or a key of 1 to 254 with a used slot whose name is at most 9 units of
/// well-formed UTF-16, zero-filled after them.
pub open spec fn slot_keeps(e: ShortcutModel) -> bool {
    &&& 0 <= e.mods < 16
    &&& if e.vk == 0 {
        e == ShortcutModel { mods: e.mods, ..empty_shortcut() }
    } else {
        &&& e.vk <= 0xFE
        &&& e.used
        &&& zstr(e.name).len() <= 9
        &&& lossy_units_spec(zstr(e.name)) == zstr(e.name)
        &&& e.name == wstr_fill(zstr(e.name), 10)
    }
}

proof fn lemma_star_count_mono(sc: Seq<ShortcutModel>, i: int, k: int)
    requires
        0 <= i <= k,
    ensures
        star_count_upto(sc, i) <= star_count_upto(sc, k),
    decreases k,
{
    if i < k {
        lemma_star_count_mono(sc, i, k - 1);
    }
}

proof fn lemma_slot_roundtrip(e: ShortcutModel)
    requires
        slot_keeps(e),
    ensures
        loaded_slot(saved_slot(e)) == e,
{
    let m = e.mods;
    assert(0 <= m < 16 ==> ((m & 0xF) as u32 & 0xF) as i32 == m) by (bit_vector);
    if e.vk != 0 {
        let z = zstr(e.name);
        crate::text::lemma_zstr_no_zero(e.name);
        let buf = wstr_fill(lossy_units_spec(z), 16);
        assert(buf.update(9, 0u16) =~= buf);
        crate::text::lemma_zstr_fill(z, 16);
    }
}

/// Storing the settings and loading them back, onto any board, restores the opacity, the
/// layout, the function row, the pinned strip, the language, the prediction switches, and
/// the shortcut slots, when each slot is one its stored form holds whole and at most three
/// are starred.
pub proof fn lemma_settings_roundtrip(b: BoardModel, c: BoardModel, s: Stored)
    requires
        board_wf(b),
        saves(s, b),
        forall|i: int| 0 <= i < 10 ==> slot_keeps(#[trigger] b.sc[i]),
        star_count_upto(b.sc, 10) <= 3,
    ensures
        settings_spec(c, s).opacity == b.opacity,
        settings_spec(c, s).compact == b.compact,
        settings_spec(c, s).show_fn == b.show_fn,
        settings_spec(c, s).pin_bar_on == b.pin_bar_on,
        settings_spec(c, s).pred.lang == b.pred.lang,
        settings_spec(c, s).pred.predict_on == b.pred.predict_on,
        settings_spec(c, s).pred.autocorrect == b.pred.autocorrect,
        settings_spec(c, s).pred.highlight_on == b.pred.highlight_on,
        settings_spec(c, s).pred.bigram_on == b.pred.bigram_on,
        settings_spec(c, s).sc == b.sc,
{
    crate::board::lemma_board_wf_all();
    crate::board::lemma_wf_pred(b);
    let loaded = Seq::new(10, |i: int| loaded_slot(s.slots@[i]@));
    assert forall|i: int| 0 <= i < 10 implies #[trigger] loaded[i] == b.sc[i] by {
        lemma_slot_roundtrip(b.sc[i]);
    }
    assert(loaded =~= b.sc);
    assert forall|i: int| 0 <= i < 10 implies #[trigger] cap_stars(b.sc)[i] == b.sc[i] by {
        lemma_star_count_mono(b.sc, i + 1, 10);
    }
    assert(cap_stars(b.sc) =~= b.sc);
}

} // verus!
