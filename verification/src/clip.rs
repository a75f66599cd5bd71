//! Clipboard history: the last copies (text and images), pinned entries on top, and the
//! file format that keeps the text entries across sessions.
use vstd::prelude::*;

verus! {

/// Most entries the history keeps.
pub const MAXCLIP: usize = 25;

/// Most image entries the history keeps.
pub const MAXCLIPIMG: usize = 8;

/// First word of a history file ("LCKF" in little-endian order).
pub const CLIP_MAGIC: u32 = 0x464B434C;

/// Version word of a history file.
pub const CLIP_VER: u32 = 1;

/// Longest text (in UTF-16 units) that the history file keeps of an entry.
pub const CLIP_MAX_TEXT: usize = 4000;

/// Largest history file that is read.
pub const CLIP_MAX_FILE: usize = 4194304;

/// One history entry: a text (UTF-16, zero-terminated) or an image (a bitmap handle of the
/// host, with its size).
pub struct ClipEnt {
    pub is_img: bool,
    pub text: Option<Vec<u16>>,
    pub hbmp: usize,
    pub iw: i32,
    pub ih: i32,
    pub pinned: bool,
}

/// A history entry as a mathematical value.
pub struct ClipView {
    pub is_img: bool,
    pub text: Option<Seq<u16>>,
    pub hbmp: usize,
    pub iw: i32,
    pub ih: i32,
    pub pinned: bool,
}

impl View for ClipEnt {
    type V = ClipView;

    open spec fn view(&self) -> ClipView {
        ClipView {
            is_img: self.is_img,
            text: match self.text {
                Some(t) => Some(t@),
                None => None,
            },
            hbmp: self.hbmp,
            iw: self.iw,
            ih: self.ih,
            pinned: self.pinned,
        }
    }
}

impl ClipEnt {
    /// An entry holding nothing.
    pub fn empty() -> (e: ClipEnt)
        ensures
            e@ == (ClipView { is_img: false, text: None, hbmp: 0, iw: 0, ih: 0, pinned: false }),
    {
        ClipEnt { is_img: false, text: None, hbmp: 0, iw: 0, ih: 0, pinned: false }
    }

    /// Empties the entry and returns the bitmap handle that the host must delete (0 when
    /// there is none).
    pub fn clip_free(&mut self) -> (h: usize)
        ensures
            h == old(self).hbmp,
            final(self)@ == (ClipView { is_img: false, text: None, hbmp: 0, iw: 0, ih: 0, pinned: false }),
    {
        let h = self.hbmp;
        self.text = None;
        self.hbmp = 0;
        self.is_img = false;
        self.iw = 0;
        self.ih = 0;
        self.pinned = false;
        h
    }
}

/// The contents of a list of entries.
pub open spec fn clips_view(s: Seq<ClipEnt>) -> Seq<ClipView> {
    s.map_values(|e: ClipEnt| e@)
}

/// Number of leading pinned entries from position `n` on.
pub open spec fn lead_pins(s: Seq<ClipView>, n: int) -> int
    decreases s.len() - n,
{
    if n < 0 || n >= s.len() || !s[n].pinned {
        if n < 0 { 0 } else { n }
    } else {
        lead_pins(s, n + 1)
    }
}

/// Number of pinned entries at the top of the history.
pub open spec fn pin_count_spec(s: Seq<ClipView>) -> int {
    lead_pins(s, 0)
}

/// Number of image entries among the first `k`.
pub open spec fn img_count_upto(s: Seq<ClipView>, k: int) -> int
    decreases k,
{
    if k <= 0 {
        0
    } else {
        img_count_upto(s, k - 1) + if s[k - 1].is_img { 1int } else { 0int }
    }
}

pub open spec fn img_count(s: Seq<ClipView>) -> int {
    img_count_upto(s, s.len() as int)
}

/// Pinned entries come first.
pub open spec fn pins_first(s: Seq<ClipView>) -> bool {
    forall|i: int, j: int| 0 <= i < j < s.len() && #[trigger] s[j].pinned ==> #[trigger] s[i].pinned
}

/// A well-formed history: at most 25 entries, at most 8 images, pinned entries on top.
pub open spec fn clip_wf(s: Seq<ClipView>) -> bool {
    &&& s.len() <= MAXCLIP
    &&& img_count(s) <= MAXCLIPIMG
    &&& pins_first(s)
}

/// Index of the last image entry among the first `k`, or -1.
pub open spec fn last_img_upto(s: Seq<ClipView>, k: int) -> int
    decreases k,
{
    if k <= 0 {
        -1
    } else if s[k - 1].is_img {
        k - 1
    } else {
        last_img_upto(s, k - 1)
    }
}

/// The history without its oldest (last) image, unless that image is pinned: pinned
/// entries are never dropped to make room.
pub open spec fn drop_oldest_img_spec(s: Seq<ClipView>) -> Seq<ClipView> {
    let i = last_img_upto(s, s.len() as int);
    if i >= 0 && !s[i].pinned {
        s.remove(i)
    } else {
        s
    }
}

/// Entry `e` holds the same text as `src` (both texts, same units).
pub open spec fn same_text(e: ClipView, src: ClipView) -> bool {
    !e.is_img && !src.is_img && e.text is Some && src.text is Some && e.text == src.text
}

/// Index of the first entry from `k` on with the same text as `src`, or -1.
pub open spec fn dup_index_from(s: Seq<ClipView>, src: ClipView, k: int) -> int
    decreases s.len() - k,
{
    if k < 0 || k >= s.len() {
        -1
    } else if same_text(s[k], src) {
        k
    } else {
        dup_index_from(s, src, k + 1)
    }
}

pub open spec fn min_int(a: int, b: int) -> int {
    if a <= b { a } else { b }
}

/// The entries and whether they changed after `src` was copied.
///
/// A text already in the history moves to the top of the unpinned entries (no change when
/// it is pinned or already there).  Otherwise, an image beyond the 8th drops the oldest
/// image, a 26th entry drops the last one, and `src` goes on top of the unpinned entries.
/// Pinned entries are never dropped: when the entry that would have to go is pinned (every
/// image is pinned, or a full history ends with a pinned entry), the copy is not added.
pub open spec fn prepend_spec(s: Seq<ClipView>, src: ClipView) -> (Seq<ClipView>, bool) {
    let pins = pin_count_spec(s);
    let di = dup_index_from(s, src, 0);
    if di >= 0 {
        if di <= pins {
            (s, false)
        } else {
            let r = s.remove(di);
            (r.insert(min_int(pins, r.len() as int), s[di]), true)
        }
    } else {
        let s1 = if src.is_img && img_count(s) >= MAXCLIPIMG { drop_oldest_img_spec(s) } else { s };
        if (src.is_img && img_count(s1) >= MAXCLIPIMG) || (s1.len() >= MAXCLIP && s1.last().pinned) {
            (s, false)
        } else {
            let pins1 = pin_count_spec(s1);
            let s2 = if s1.len() >= MAXCLIP { s1.drop_last() } else { s1 };
            (s2.insert(min_int(pins1, s2.len() as int), src), true)
        }
    }
}

/// The entries after the pin of entry `i` was flipped: the entry leaves its place and goes
/// just below the (other) pinned entries.
pub open spec fn toggle_pin_spec(s: Seq<ClipView>, i: int) -> Seq<ClipView> {
    if i < 0 || i >= s.len() {
        s
    } else {
        let e = s[i];
        let r = s.remove(i);
        let pins = pin_count_spec(r);
        r.insert(min_int(pins, r.len() as int), ClipView { pinned: !e.pinned, ..e })
    }
}

// ---------------------------------------------------------------------------
// Lemmas
// ---------------------------------------------------------------------------

proof fn lemma_lead_pins(s: Seq<ClipView>, n: int)
    requires
        0 <= n <= s.len(),
    ensures
        n <= lead_pins(s, n) <= s.len(),
        forall|i: int| n <= i < lead_pins(s, n) ==> #[trigger] s[i].pinned,
        lead_pins(s, n) < s.len() ==> !s[lead_pins(s, n)].pinned,
    decreases s.len() - n,
{
    if n < s.len() && s[n].pinned {
        lemma_lead_pins(s, n + 1);
    }
}

/// In a history with pinned entries first, the entries from `pin_count_spec` on are unpinned.
proof fn lemma_pins_split(s: Seq<ClipView>)
    requires
        pins_first(s),
    ensures
        0 <= pin_count_spec(s) <= s.len(),
        forall|i: int| 0 <= i < pin_count_spec(s) ==> #[trigger] s[i].pinned,
        forall|i: int| pin_count_spec(s) <= i < s.len() ==> !#[trigger] s[i].pinned,
{
    lemma_lead_pins(s, 0);
    let p = pin_count_spec(s);
    assert forall|i: int| p <= i < s.len() implies !#[trigger] s[i].pinned by {
        if s[i].pinned && i > p {
            assert(s[p].pinned);
        }
    }
}

/// Pinned entries first, with exactly the first `p` pinned.
pub open spec fn split_at_pins(s: Seq<ClipView>, p: int) -> bool {
    &&& 0 <= p <= s.len()
    &&& forall|i: int| 0 <= i < p ==> #[trigger] s[i].pinned
    &&& forall|i: int| p <= i < s.len() ==> !#[trigger] s[i].pinned
}

proof fn lemma_split_pins_first(s: Seq<ClipView>, p: int)
    requires
        split_at_pins(s, p),
    ensures
        pins_first(s),
        pin_count_spec(s) == p,
{
    lemma_lead_pins(s, 0);
    let q = pin_count_spec(s);
    if q < p {
        assert(s[q].pinned);
    }
    if q > p {
        assert(s[p].pinned);
    }
}

proof fn lemma_insert_at_split(s: Seq<ClipView>, p: int, e: ClipView)
    requires
        split_at_pins(s, p),
    ensures
        pins_first(s.insert(p, e)),
        e.pinned ==> split_at_pins(s.insert(p, e), p + 1),
        !e.pinned ==> split_at_pins(s.insert(p, e), p),
{
    let t = s.insert(p, e);
    if e.pinned {
        assert(split_at_pins(t, p + 1));
        lemma_split_pins_first(t, p + 1);
    } else {
        assert(split_at_pins(t, p));
        lemma_split_pins_first(t, p);
    }
}

proof fn lemma_remove_pins_first(s: Seq<ClipView>, i: int)
    requires
        pins_first(s),
        0 <= i < s.len(),
    ensures
        pins_first(s.remove(i)),
{
    let t = s.remove(i);
    assert forall|a: int, b: int| 0 <= a < b < t.len() && #[trigger] t[b].pinned implies #[trigger] t[a].pinned by {
        let sa = if a < i { a } else { a + 1 };
        let sb = if b < i { b } else { b + 1 };
        assert(t[a] == s[sa]);
        assert(t[b] == s[sb]);
    }
}

proof fn lemma_img_count_add(a: Seq<ClipView>, b: Seq<ClipView>)
    ensures
        img_count(a + b) == img_count(a) + img_count(b),
    decreases b.len(),
{
    if b.len() == 0 {
        assert(a + b =~= a);
        lemma_img_count_prefix(a + b, a);
    } else {
        let b1 = b.drop_last();
        lemma_img_count_add(a, b1);
        assert((a + b).drop_last() =~= a + b1);
        lemma_img_count_prefix(a + b, a + b1);
        lemma_img_count_prefix(b, b1);
    }
}

proof fn lemma_img_count_prefix(s: Seq<ClipView>, t: Seq<ClipView>)
    requires
        t.len() <= s.len(),
        forall|i: int| 0 <= i < t.len() ==> t[i] == s[i],
    ensures
        img_count_upto(s, t.len() as int) == img_count(t),
        s.len() == t.len() + 1 ==> img_count(s) == img_count(t) + if s.last().is_img { 1int } else { 0int },
{
    lemma_img_count_same(s, t, t.len() as int);
}

proof fn lemma_img_count_same(s: Seq<ClipView>, t: Seq<ClipView>, k: int)
    requires
        0 <= k <= t.len() <= s.len(),
        forall|i: int| 0 <= i < t.len() ==> t[i] == s[i],
    ensures
        img_count_upto(s, k) == img_count_upto(t, k),
    decreases k,
{
    if k > 0 {
        lemma_img_count_same(s, t, k - 1);
    }
}

proof fn lemma_img_count_nonneg(s: Seq<ClipView>, k: int)
    ensures
        img_count_upto(s, k) >= 0,
    decreases k,
{
    if k > 0 {
        lemma_img_count_nonneg(s, k - 1);
    }
}

proof fn lemma_img_count_single(e: ClipView)
    ensures
        img_count(seq![e]) == if e.is_img { 1int } else { 0int },
{
    assert(img_count_upto(seq![e], 0) == 0);
}

proof fn lemma_img_count_remove(s: Seq<ClipView>, i: int)
    requires
        0 <= i < s.len(),
    ensures
        img_count(s.remove(i)) == img_count(s) - if s[i].is_img { 1int } else { 0int },
{
    assert(s =~= s.take(i) + seq![s[i]] + s.skip(i + 1));
    assert(s.remove(i) =~= s.take(i) + s.skip(i + 1));
    lemma_img_count_add(s.take(i) + seq![s[i]], s.skip(i + 1));
    lemma_img_count_add(s.take(i), seq![s[i]]);
    lemma_img_count_add(s.take(i), s.skip(i + 1));
    lemma_img_count_single(s[i]);
}

proof fn lemma_img_count_insert(s: Seq<ClipView>, i: int, e: ClipView)
    requires
        0 <= i <= s.len(),
    ensures
        img_count(s.insert(i, e)) == img_count(s) + if e.is_img { 1int } else { 0int },
{
    assert(s =~= s.take(i) + s.skip(i));
    assert(s.insert(i, e) =~= s.take(i) + seq![e] + s.skip(i));
    lemma_img_count_add(s.take(i) + seq![e], s.skip(i));
    lemma_img_count_add(s.take(i), seq![e]);
    lemma_img_count_add(s.take(i), s.skip(i));
    lemma_img_count_single(e);
}

proof fn lemma_last_img(s: Seq<ClipView>, k: int)
    requires
        0 <= k <= s.len(),
    ensures
        -1 <= last_img_upto(s, k) < k,
        last_img_upto(s, k) >= 0 ==> s[last_img_upto(s, k)].is_img,
        last_img_upto(s, k) == -1 ==> img_count_upto(s, k) == 0,
    decreases k,
{
    if k > 0 {
        lemma_last_img(s, k - 1);
    }
}

proof fn lemma_dup_index(s: Seq<ClipView>, src: ClipView, k: int)
    requires
        0 <= k,
    ensures
        -1 <= dup_index_from(s, src, k) < s.len(),
        dup_index_from(s, src, k) >= 0 ==> k <= dup_index_from(s, src, k) && same_text(s[dup_index_from(s, src, k)], src),
        dup_index_from(s, src, k) >= 0 ==> forall|j: int| k <= j < dup_index_from(s, src, k) ==> !same_text(#[trigger] s[j], src),
        dup_index_from(s, src, k) == -1 ==> forall|j: int| k <= j < s.len() ==> !same_text(#[trigger] s[j], src),
    decreases s.len() - k,
{
    if k < s.len() && !same_text(s[k], src) {
        lemma_dup_index(s, src, k + 1);
    }
}

// ---------------------------------------------------------------------------
// The history file
// ---------------------------------------------------------------------------

/// Little-endian bytes of a 32-bit word.
pub open spec fn u32_bytes(x: u32) -> Seq<u8> {
    seq![(x & 0xff) as u8, ((x >> 8) & 0xff) as u8, ((x >> 16) & 0xff) as u8, ((x >> 24) & 0xff) as u8]
}

/// Little-endian bytes of UTF-16 units.
pub open spec fn units_bytes(u: Seq<u16>) -> Seq<u8> {
    Seq::new(2 * u.len(), |k: int| if k % 2 == 0 { (u[k / 2] & 0xff) as u8 } else { (u[k / 2] >> 8) as u8 })
}

/// The little-endian 32-bit word at byte `p`.
pub open spec fn read_u32(d: Seq<u8>, p: int) -> int {
    d[p] + d[p + 1] * 256 + d[p + 2] * 65536 + d[p + 3] * 16777216
}

/// `n` little-endian UTF-16 units from byte `p`.
pub open spec fn read_units(d: Seq<u8>, p: int, n: int) -> Seq<u16> {
    Seq::new(n as nat, |i: int| (d[p + 2 * i] + d[p + 2 * i + 1] * 256) as u16)
}

/// Index of the first zero unit from `k` on, or the length.
pub open spec fn zero_index_from(t: Seq<u16>, k: int) -> int
    decreases t.len() - k,
{
    if k < 0 || k >= t.len() {
        if k < 0 { 0 } else { t.len() as int }
    } else if t[k] == 0 {
        k
    } else {
        zero_index_from(t, k + 1)
    }
}

/// How many units of text `t` the file keeps: up to its first zero, at most 4000.
pub open spec fn saved_len(t: Seq<u16>) -> int {
    min_int(zero_index_from(t, 0), CLIP_MAX_TEXT as int)
}

/// The entries the file keeps: the texts.
pub open spec fn is_saved(e: ClipView) -> bool {
    !e.is_img && e.text is Some
}

pub open spec fn saved_pred() -> spec_fn(ClipView) -> bool {
    |e: ClipView| is_saved(e)
}

pub open spec fn saved_entries(s: Seq<ClipView>) -> Seq<ClipView> {
    s.filter(saved_pred())
}

/// The saved entries among the first `k`.
pub open spec fn saved_upto(s: Seq<ClipView>, k: int) -> Seq<ClipView> {
    s.take(k).filter(saved_pred())
}

/// One record: pin flag, unit count, units.
pub open spec fn record_bytes(e: ClipView) -> Seq<u8> {
    let t = e.text->0;
    let n = saved_len(t);
    u32_bytes(if e.pinned { 1u32 } else { 0u32 }) + u32_bytes(n as u32) + units_bytes(t.take(n))
}

pub open spec fn records_bytes(s: Seq<ClipView>) -> Seq<u8>
    decreases s.len(),
{
    if s.len() == 0 {
        seq![]
    } else {
        record_bytes(s[0]) + records_bytes(s.drop_first())
    }
}

/// The history file of a history: magic word, version, record count, then one record per
/// text entry (images are not kept).
pub open spec fn encode_clip(s: Seq<ClipView>) -> Seq<u8> {
    u32_bytes(CLIP_MAGIC) + u32_bytes(CLIP_VER) + u32_bytes(saved_entries(s).len() as u32)
        + records_bytes(saved_entries(s))
}

/// The entries read from the records at byte `pos`, at most `cnt` of them, stopping at the
/// first truncated or malformed record (an empty or over-long text).  An entry is pinned
/// when its flag is set and no unpinned entry came before it (`seen`).
pub open spec fn decode_records(d: Seq<u8>, pos: int, cnt: int, seen: bool) -> Seq<ClipView>
    decreases cnt,
{
    if cnt <= 0 || pos < 0 || pos + 8 > d.len() {
        seq![]
    } else {
        let pin = read_u32(d, pos);
        let cch = read_u32(d, pos + 4);
        if cch == 0 || cch > CLIP_MAX_TEXT || pos + 8 + 2 * cch > d.len() {
            seq![]
        } else {
            seq![ClipView { is_img: false, text: Some(read_units(d, pos + 8, cch).push(0u16)), hbmp: 0, iw: 0, ih: 0, pinned: pin != 0 && !seen }]
                + decode_records(d, pos + 8 + 2 * cch, cnt - 1, seen || pin == 0)
        }
    }
}

/// The entries a history file holds, or `None` when it is not a history file (shorter
/// than its header, larger than 4 MiB, wrong magic word or version, or more than 25
/// records announced).
pub open spec fn decode_clip(d: Seq<u8>) -> Option<Seq<ClipView>> {
    if d.len() < 12 || d.len() > CLIP_MAX_FILE || read_u32(d, 0) != CLIP_MAGIC || read_u32(d, 4)
        != CLIP_VER || read_u32(d, 8) > MAXCLIP {
        None
    } else {
        Some(decode_records(d, 12, read_u32(d, 8), false))
    }
}

/// The history after history file `d` is loaded into history `s`, or `None` when `d` is not
/// a history file (see `decode_clip`).  The file's entries are added after those of `s`,
/// up to 25 entries in all; an added entry is pinned when its flag is set and no unpinned
/// entry comes before it.
pub open spec fn load_spec(s: Seq<ClipView>, d: Seq<u8>) -> Option<Seq<ClipView>> {
    match decode_clip(d) {
        None => None,
        Some(_) => Some(s + decode_records(
            d,
            12,
            min_int(read_u32(d, 8), MAXCLIP - s.len()),
            pin_count_spec(s) < s.len(),
        )),
    }
}

proof fn lemma_u32_roundtrip(x: u32)
    ensures
        (x & 0xff) as u8 + ((x >> 8) & 0xff) as u8 * 256 + ((x >> 16) & 0xff) as u8 * 65536 + ((x >> 24) & 0xff) as u8 * 16777216 == x,
{
    assert((x & 0xff) + ((x >> 8) & 0xff) * 256 + ((x >> 16) & 0xff) * 65536 + ((x >> 24) & 0xff) * 16777216 == x) by (bit_vector);
    assert((x & 0xff) < 256 && ((x >> 8) & 0xff) < 256 && ((x >> 16) & 0xff) < 256 && ((x >> 24) & 0xff) < 256) by (bit_vector);
}

proof fn lemma_u16_roundtrip(x: u16)
    ensures
        (x & 0xff) as u8 + (x >> 8) as u8 * 256 == x,
{
    assert((x & 0xff) + (x >> 8) * 256 == x) by (bit_vector);
    assert((x & 0xff) < 256 && (x >> 8) < 256) by (bit_vector);
}

proof fn lemma_read_u32_at(p: Seq<u8>, x: u32, q: Seq<u8>)
    ensures
        read_u32(p + u32_bytes(x) + q, p.len() as int) == x,
{
    let d = p + u32_bytes(x) + q;
    let n = p.len() as int;
    assert(d[n] == u32_bytes(x)[0]);
    assert(d[n + 1] == u32_bytes(x)[1]);
    assert(d[n + 2] == u32_bytes(x)[2]);
    assert(d[n + 3] == u32_bytes(x)[3]);
    lemma_u32_roundtrip(x);
}

proof fn lemma_read_units_at(p: Seq<u8>, u: Seq<u16>, q: Seq<u8>)
    ensures
        read_units(p + units_bytes(u) + q, p.len() as int, u.len() as int) == u,
{
    let d = p + units_bytes(u) + q;
    let n = p.len() as int;
    let r = read_units(d, n, u.len() as int);
    assert forall|i: int| 0 <= i < u.len() implies r[i] == u[i] by {
        assert(d[n + 2 * i] == units_bytes(u)[2 * i]);
        assert(d[n + 2 * i + 1] == units_bytes(u)[2 * i + 1]);
        assert((2 * i) % 2 == 0 && (2 * i) / 2 == i);
        assert((2 * i + 1) % 2 == 1 && (2 * i + 1) / 2 == i);
        lemma_u16_roundtrip(u[i]);
    }
    assert(r =~= u);
}

/// A text entry as clipboard copies make it: 1 to 4000 non-zero units and a terminating
/// zero, no bitmap.
pub open spec fn well_formed_text(e: ClipView) -> bool {
    &&& !e.is_img
    &&& e.text is Some
    &&& 2 <= e.text->0.len() <= CLIP_MAX_TEXT + 1
    &&& e.text->0.last() == 0
    &&& forall|k: int| 0 <= k < e.text->0.len() - 1 ==> #[trigger] e.text->0[k] != 0
    &&& e.hbmp == 0 && e.iw == 0 && e.ih == 0
}

proof fn lemma_zero_index(t: Seq<u16>, k: int)
    requires
        0 <= k < t.len(),
        t.last() == 0,
        forall|j: int| k <= j < t.len() - 1 ==> #[trigger] t[j] != 0,
    ensures
        zero_index_from(t, k) == t.len() - 1,
    decreases t.len() - k,
{
    if k < t.len() - 1 {
        lemma_zero_index(t, k + 1);
    }
}

proof fn lemma_read_record(p: Seq<u8>, e: ClipView, tail: Seq<u8>)
    requires
        well_formed_text(e),
    ensures
        saved_len(e.text->0) == e.text->0.len() - 1,
        record_bytes(e).len() == 8 + 2 * saved_len(e.text->0),
        read_u32(p + record_bytes(e) + tail, p.len() as int) == if e.pinned { 1int } else { 0int },
        read_u32(p + record_bytes(e) + tail, p.len() as int + 4) == saved_len(e.text->0),
        read_units(p + record_bytes(e) + tail, p.len() as int + 8, saved_len(e.text->0)).push(0u16) == e.text->0,
{
    let t = e.text->0;
    lemma_zero_index(t, 0);
    let n = saved_len(t);
    let pinw: u32 = if e.pinned { 1u32 } else { 0u32 };
    let d = p + record_bytes(e) + tail;
    let ub = units_bytes(t.take(n));
    assert(d =~= p + u32_bytes(pinw) + (u32_bytes(n as u32) + ub + tail));
    lemma_read_u32_at(p, pinw, u32_bytes(n as u32) + ub + tail);
    assert(d =~= (p + u32_bytes(pinw)) + u32_bytes(n as u32) + (ub + tail));
    lemma_read_u32_at(p + u32_bytes(pinw), n as u32, ub + tail);
    assert(d =~= (p + u32_bytes(pinw) + u32_bytes(n as u32)) + ub + tail);
    lemma_read_units_at(p + u32_bytes(pinw) + u32_bytes(n as u32), t.take(n), tail);
    assert(t.take(n).push(0u16) =~= t);
}

#[verifier::rlimit(40)]
proof fn lemma_decode_records(p: Seq<u8>, l: Seq<ClipView>, seen: bool)
    requires
        forall|i: int| 0 <= i < l.len() ==> well_formed_text(#[trigger] l[i]),
        pins_first(l),
        seen ==> forall|i: int| 0 <= i < l.len() ==> !(#[trigger] l[i]).pinned,
    ensures
        decode_records(p + records_bytes(l), p.len() as int, l.len() as int, seen) == l,
    decreases l.len(),
{
    let d = p + records_bytes(l);
    let pos = p.len() as int;
    if l.len() == 0 {
        assert(decode_records(d, pos, 0, seen) =~= l);
    } else {
        let e = l[0];
        let rest = l.drop_first();
        let t = e.text->0;
        let rb = record_bytes(e);
        let tail = records_bytes(rest);
        assert(records_bytes(l) == rb + tail);
        assert(d =~= p + rb + tail);
        lemma_read_record(p, e, tail);
        let n = saved_len(t);
        let seen2 = seen || !e.pinned;
        assert forall|i: int| 0 <= i < rest.len() implies well_formed_text(#[trigger] rest[i]) by {
            assert(rest[i] == l[i + 1]);
        }
        assert(pins_first(rest)) by {
            assert forall|a: int, b: int| 0 <= a < b < rest.len() && #[trigger] rest[b].pinned implies #[trigger] rest[a].pinned by {
                assert(rest[a] == l[a + 1]);
                assert(rest[b] == l[b + 1]);
            }
        }
        if seen2 {
            assert forall|i: int| 0 <= i < rest.len() implies !(#[trigger] rest[i]).pinned by {
                assert(rest[i] == l[i + 1]);
                if !seen {
                    assert(!l[0].pinned);
                }
            }
        }
        let p2 = p + rb;
        assert(d =~= p2 + tail);
        lemma_decode_records(p2, rest, seen2);
        assert(pos + 8 + 2 * n == p2.len());
        let de = ClipView { is_img: false, text: Some(t), hbmp: 0, iw: 0, ih: 0, pinned: e.pinned };
        assert(de == e);
        assert(decode_records(d, pos, l.len() as int, seen) =~= seq![e] + rest);
        assert(seq![e] + rest =~= l);
    }
}

proof fn lemma_read_header(a: u32, b: u32, c: u32, rest: Seq<u8>)
    ensures
        read_u32(u32_bytes(a) + u32_bytes(b) + u32_bytes(c) + rest, 0) == a,
        read_u32(u32_bytes(a) + u32_bytes(b) + u32_bytes(c) + rest, 4) == b,
        read_u32(u32_bytes(a) + u32_bytes(b) + u32_bytes(c) + rest, 8) == c,
        (u32_bytes(a) + u32_bytes(b) + u32_bytes(c) + rest).len() == 12 + rest.len(),
{
    let d = u32_bytes(a) + u32_bytes(b) + u32_bytes(c) + rest;
    assert(d =~= Seq::<u8>::empty() + u32_bytes(a) + (u32_bytes(b) + u32_bytes(c) + rest));
    lemma_read_u32_at(Seq::<u8>::empty(), a, u32_bytes(b) + u32_bytes(c) + rest);
    assert(d =~= u32_bytes(a) + u32_bytes(b) + (u32_bytes(c) + rest));
    lemma_read_u32_at(u32_bytes(a), b, u32_bytes(c) + rest);
    lemma_read_u32_at(u32_bytes(a) + u32_bytes(b), c, rest);
}

/// Pinned entries are never evicted: when a copy is added, the pinned entries stay on top,
/// in their order, and the copy (or the entry with its text, moved up) lands right below
/// them.
pub proof fn lemma_prepend_keeps_pins(s: Seq<ClipView>, src: ClipView)
    requires
        clip_wf(s),
    ensures
        prepend_spec(s, src).0.take(pin_count_spec(s)) == s.take(pin_count_spec(s)),
        prepend_spec(s, src).1 ==> prepend_spec(s, src).0[pin_count_spec(s)] == (if dup_index_from(s, src, 0) >= 0 {
            s[dup_index_from(s, src, 0)]
        } else {
            src
        }),
{
    let p = pin_count_spec(s);
    lemma_pins_split(s);
    lemma_dup_index(s, src, 0);
    let di = dup_index_from(s, src, 0);
    if di >= 0 {
        if di > p {
            let r = s.remove(di);
            assert(r.insert(p, s[di]).take(p) =~= s.take(p));
        }
    } else {
        let s1 = if src.is_img && img_count(s) >= MAXCLIPIMG { drop_oldest_img_spec(s) } else { s };
        if src.is_img && img_count(s) >= MAXCLIPIMG {
            lemma_last_img(s, s.len() as int);
            let i = last_img_upto(s, s.len() as int);
            if i >= 0 && !s[i].pinned {
                assert(i >= p);
                lemma_remove_pins_first(s, i);
                assert(s1.take(p) =~= s.take(p));
            }
        }
        if !((src.is_img && img_count(s1) >= MAXCLIPIMG) || (s1.len() >= MAXCLIP && s1.last().pinned)) {
            assert(s1.take(p) =~= s.take(p));
            assert(pins_first(s1)) by {
                if src.is_img && img_count(s) >= MAXCLIPIMG {
                    let i = last_img_upto(s, s.len() as int);
                    if i >= 0 && !s[i].pinned {
                        lemma_remove_pins_first(s, i);
                    }
                }
            }
            lemma_pins_split(s1);
            let pins1 = pin_count_spec(s1);
            assert(s1.len() >= p);
            if pins1 < p {
                assert(s1.take(p)[pins1] == s.take(p)[pins1]);
                assert(s[pins1].pinned);
                assert(!s1[pins1].pinned);
            }
            assert(pins1 >= p);
            if pins1 > p {
                assert(s1[p].pinned);
                if src.is_img && img_count(s) >= MAXCLIPIMG {
                    let i = last_img_upto(s, s.len() as int);
                    if i >= 0 && !s[i].pinned {
                        if p < i {
                            assert(s1[p] == s[p]);
                        } else {
                            assert(s1[p] == s[p + 1]);
                        }
                    }
                }
                assert(false);
            }
            if s1.len() >= MAXCLIP {
                assert(s1.len() - 1 >= p) by {
                    if s1.len() - 1 < p {
                        assert(s1.take(p)[s1.len() - 1] == s.take(p)[s1.len() - 1]);
                    }
                }
            }
            let s2 = if s1.len() >= MAXCLIP { s1.drop_last() } else { s1 };
            assert(s2.len() >= p);
            assert(s2.take(p) =~= s.take(p));
            let at = min_int(pins1, s2.len() as int);
            assert(at == p);
            assert(s2.insert(at, src).take(p) =~= s.take(p));
            assert(s2.insert(at, src)[p] == src);
        }
    }
}

/// A history split at `p` (pinned entries before, unpinned after) has `p` pinned entries.
proof fn lemma_split_count(s: Seq<ClipView>, p: int)
    requires
        split_at_pins(s, p),
    ensures
        pin_count_spec(s) == p,
{
    lemma_lead_pins(s, 0);
    let c = pin_count_spec(s);
    if c < p {
        assert(s[c].pinned);
    } else if c > p {
        assert(s[p].pinned);
    }
}

/// Pinning or unpinning entry `i` moves it to the border between pinned and unpinned
/// entries: a pinned entry becomes the first unpinned one, an unpinned entry the last
/// pinned one.  The other entries keep their order, and the history stays well formed.
pub proof fn lemma_clip_pin_moves(s: Seq<ClipView>, i: int)
    requires
        clip_wf(s),
        0 <= i < s.len(),
    ensures
        toggle_pin_spec(s, i).len() == s.len(),
        toggle_pin_spec(s, i)[if s[i].pinned { pin_count_spec(s) - 1 } else { pin_count_spec(s) }]
            == (ClipView { pinned: !s[i].pinned, ..s[i] }),
        toggle_pin_spec(s, i).remove(if s[i].pinned { pin_count_spec(s) - 1 } else { pin_count_spec(s) })
            == s.remove(i),
        pin_count_spec(toggle_pin_spec(s, i)) == (if s[i].pinned { pin_count_spec(s) - 1 } else { pin_count_spec(s) + 1 }),
        clip_wf(toggle_pin_spec(s, i)),
{
    let p = pin_count_spec(s);
    lemma_pins_split(s);
    let e = s[i];
    let ev = ClipView { pinned: !e.pinned, ..e };
    let r = s.remove(i);
    let k = if e.pinned { p - 1 } else { p };
    assert(split_at_pins(r, k)) by {
        assert forall|j: int| 0 <= j < k implies #[trigger] r[j].pinned by {
            if j < i { assert(r[j] == s[j]); } else { assert(r[j] == s[j + 1]); }
        }
        assert forall|j: int| k <= j < r.len() implies !#[trigger] r[j].pinned by {
            if j < i { assert(r[j] == s[j]); } else { assert(r[j] == s[j + 1]); }
        }
    }
    lemma_split_count(r, k);
    assert(min_int(k, r.len() as int) == k);
    let t = r.insert(k, ev);
    assert(toggle_pin_spec(s, i) == t);
    assert(t.remove(k) =~= r);
    lemma_insert_at_split(r, k, ev);
    let k2 = if ev.pinned { k + 1 } else { k };
    lemma_split_count(t, k2);
    lemma_img_count_remove(s, i);
    lemma_img_count_insert(r, k, ev);
}

/// Saving and loading the history gives back its text entries, with their pins, when
/// every text entry is as clipboard copies make it (the images are not kept).
pub proof fn lemma_clip_file_roundtrip(s: Seq<ClipView>)
    requires
        clip_wf(s),
        forall|i: int| 0 <= i < s.len() && is_saved(#[trigger] s[i]) ==> well_formed_text(s[i]),
    ensures
        decode_clip(encode_clip(s)) == Some(saved_entries(s)),
{
    let l = saved_entries(s);
    lemma_saved_props(s, s.len() as int);
    assert(s.take(s.len() as int) =~= s);
    assert(saved_upto(s, s.len() as int) == l);
    let h = u32_bytes(CLIP_MAGIC) + u32_bytes(CLIP_VER) + u32_bytes(l.len() as u32);
    lemma_read_header(CLIP_MAGIC, CLIP_VER, l.len() as u32, records_bytes(l));
    lemma_records_len(l);
    lemma_decode_records(h, l, false);
}

/// A text entry as it reads back from the file: its text and pin, no bitmap.
pub open spec fn as_loaded(e: ClipView) -> ClipView {
    ClipView { is_img: false, text: e.text, hbmp: 0, iw: 0, ih: 0, pinned: e.pinned }
}

/// A text as clipboard copies make it: 1 to 4000 non-zero units and a terminating zero.
pub open spec fn text_shaped(e: ClipView) -> bool {
    &&& e.text is Some
    &&& 2 <= e.text->0.len() <= CLIP_MAX_TEXT + 1
    &&& e.text->0.last() == 0
    &&& forall|k: int| 0 <= k < e.text->0.len() - 1 ==> #[trigger] e.text->0[k] != 0
}

/// Text entries lose their bitmap fields; the others stay.
pub open spec fn normalized(e: ClipView) -> ClipView {
    if is_saved(e) { as_loaded(e) } else { e }
}

proof fn lemma_saved_normalized(s: Seq<ClipView>)
    ensures
        saved_entries(s.map_values(|e: ClipView| normalized(e))) == saved_entries(s).map_values(|e: ClipView| as_loaded(e)),
    decreases s.len(),
{
    reveal(Seq::filter);
    let sn = s.map_values(|e: ClipView| normalized(e));
    if s.len() == 0 {
        assert(sn =~= Seq::<ClipView>::empty());
        assert(saved_entries(s) =~= Seq::<ClipView>::empty());
        assert(saved_entries(sn) =~= Seq::<ClipView>::empty());
    } else {
        let s1 = s.drop_last();
        lemma_saved_normalized(s1);
        assert(sn.drop_last() =~= s1.map_values(|e: ClipView| normalized(e)));
        assert(sn.last() == normalized(s.last()));
        if is_saved(s.last()) {
            assert(saved_entries(s) == saved_entries(s1).push(s.last()));
            assert(saved_entries(sn) == saved_entries(sn.drop_last()).push(sn.last()));
            assert(saved_entries(s).map_values(|e: ClipView| as_loaded(e))
                =~= saved_entries(s1).map_values(|e: ClipView| as_loaded(e)).push(as_loaded(s.last())));
        } else {
            assert(saved_entries(s) == saved_entries(s1));
            assert(saved_entries(sn) == saved_entries(sn.drop_last()));
        }
    }
}

proof fn lemma_records_loaded(l: Seq<ClipView>)
    ensures
        records_bytes(l.map_values(|e: ClipView| as_loaded(e))) == records_bytes(l),
    decreases l.len(),
{
    let ln = l.map_values(|e: ClipView| as_loaded(e));
    if l.len() > 0 {
        lemma_records_loaded(l.drop_first());
        assert(ln.drop_first() =~= l.drop_first().map_values(|e: ClipView| as_loaded(e)));
        assert(record_bytes(ln[0]) == record_bytes(l[0]));
    }
}

proof fn lemma_img_count_normalized(s: Seq<ClipView>, k: int)
    requires
        0 <= k <= s.len(),
    ensures
        img_count_upto(s.map_values(|e: ClipView| normalized(e)), k) == img_count_upto(s, k),
    decreases k,
{
    if k > 0 {
        lemma_img_count_normalized(s, k - 1);
    }
}

/// Saving and loading the history into an empty one gives back its text entries in order,
/// with their texts and pins (images are not kept, and the entries read back carry no
/// bitmap), when every text is as clipboard copies make it.
pub proof fn lemma_clip_texts_roundtrip(s: Seq<ClipView>)
    requires
        clip_wf(s),
        forall|i: int| 0 <= i < s.len() && is_saved(#[trigger] s[i]) ==> text_shaped(s[i]),
    ensures
        load_spec(Seq::<ClipView>::empty(), encode_clip(s)) == Some(saved_entries(s).map_values(|e: ClipView| as_loaded(e))),
{
    let sn = s.map_values(|e: ClipView| normalized(e));
    lemma_img_count_normalized(s, s.len() as int);
    assert(pins_first(sn)) by {
        assert forall|a: int, b: int| 0 <= a < b < sn.len() && #[trigger] sn[b].pinned implies #[trigger] sn[a].pinned by {
            assert(s[b].pinned);
        }
    }
    assert forall|i: int| 0 <= i < sn.len() && is_saved(#[trigger] sn[i]) implies well_formed_text(sn[i]) by {
        assert(is_saved(s[i]));
    }
    lemma_clip_file_roundtrip(sn);
    lemma_saved_normalized(s);
    let l = saved_entries(s);
    lemma_records_loaded(l);
    assert(saved_entries(sn).len() == l.len());
    assert(encode_clip(sn) == encode_clip(s));
    let d = encode_clip(s);
    let h = u32_bytes(CLIP_MAGIC) + u32_bytes(CLIP_VER) + u32_bytes(l.len() as u32);
    lemma_read_header(CLIP_MAGIC, CLIP_VER, l.len() as u32, records_bytes(l));
    assert(d == h + records_bytes(l));
    assert(min_int(read_u32(d, 8), MAXCLIP - 0) == read_u32(d, 8));
}

proof fn lemma_records_len(l: Seq<ClipView>)
    requires
        forall|i: int| 0 <= i < l.len() ==> well_formed_text(#[trigger] l[i]),
    ensures
        records_bytes(l).len() <= 8008 * l.len(),
    decreases l.len(),
{
    if l.len() > 0 {
        let rest = l.drop_first();
        assert forall|i: int| 0 <= i < rest.len() implies well_formed_text(#[trigger] rest[i]) by {
            assert(rest[i] == l[i + 1]);
        }
        lemma_records_len(rest);
        lemma_read_record(Seq::<u8>::empty(), l[0], Seq::<u8>::empty());
        assert(records_bytes(l).len() == record_bytes(l[0]).len() + records_bytes(rest).len());
        assert(8008 * l.len() == 8008 * rest.len() + 8008);
    }
}

/// The saved entries of the first `k` entries: their properties.
proof fn lemma_saved_props(s: Seq<ClipView>, k: int)
    requires
        clip_wf(s),
        0 <= k <= s.len(),
        forall|i: int| 0 <= i < s.len() && is_saved(#[trigger] s[i]) ==> well_formed_text(s[i]),
    ensures
        saved_upto(s, k).len() <= k,
        forall|i: int|
            0 <= i < saved_upto(s, k).len() ==> well_formed_text(
                #[trigger] saved_upto(s, k)[i],
            ),
        pins_first(saved_upto(s, k)),
        k < s.len() && saved_upto(s, k).len() > 0 && s[k].pinned
            ==> forall|i: int| 0 <= i < saved_upto(s, k).len() ==> (
            #[trigger] saved_upto(s, k)[i]).pinned,
    decreases k,
{
    reveal(Seq::filter);
    let f = saved_upto(s, k);
    if k > 0 {
        lemma_saved_props(s, k - 1);
        assert(s.take(k).drop_last() =~= s.take(k - 1));
        let f1 = saved_upto(s, k - 1);
        if is_saved(s[k - 1]) {
            assert(f =~= f1.push(s[k - 1]));
            assert forall|a: int, b: int| 0 <= a < b < f.len() && #[trigger] f[b].pinned implies #[trigger] f[a].pinned by {
                if b == f.len() - 1 {
                    assert(s[k - 1].pinned);
                }
            }
        } else {
            assert(f =~= f1);
        }
        if k < s.len() && f.len() > 0 && s[k].pinned {
            assert(s[k - 1].pinned);
        }
    } else {
        assert(f =~= Seq::<ClipView>::empty());
    }
}

/// The clipboard history and the first entry shown on its page.
pub struct ClipHistory {
    pub clip: Vec<ClipEnt>,
    pub clip_off: usize,
}

impl View for ClipHistory {
    type V = Seq<ClipView>;

    open spec fn view(&self) -> Seq<ClipView> {
        clips_view(self.clip@)
    }
}

fn units_equal(a: &Vec<u16>, b: &Vec<u16>) -> (r: bool)
    ensures
        r == (a@ == b@),
{
    if a.len() != b.len() {
        return false;
    }
    let mut i: usize = 0;
    while i < a.len()
        invariant
            a.len() == b.len(),
            i <= a.len(),
            forall|k: int| 0 <= k < i ==> a@[k] == b@[k],
        decreases a.len() - i,
    {
        if a[i] != b[i] {
            return false;
        }
        i = i + 1;
    }
    assert(a@ =~= b@);
    true
}

/// Entry `e` holds the same text as `src`.
fn same_text_exec(e: &ClipEnt, src: &ClipEnt) -> (r: bool)
    ensures
        r == same_text(e@, src@),
{
    if e.is_img || src.is_img {
        return false;
    }
    match (&e.text, &src.text) {
        (Some(a), Some(b)) => units_equal(a, b),
        _ => false,
    }
}

impl ClipHistory {
    pub open spec fn wf(&self) -> bool {
        clip_wf(self@)
    }

    /// Scrolls the clipboard page back to its first entry.
    pub fn scroll_top(&mut self)
        ensures
            final(self)@ == old(self)@,
            final(self).clip_off == 0,
    {
        self.clip_off = 0;
    }

    /// Sets the first entry shown on the clipboard page.
    pub fn scroll_to(&mut self, off: usize)
        ensures
            final(self)@ == old(self)@,
            final(self).clip_off == off,
    {
        self.clip_off = off;
    }

    /// An empty history.
    pub fn new() -> (h: ClipHistory)
        ensures
            h.wf(),
            h@ == Seq::<ClipView>::empty(),
            h.clip_off == 0,
    {
        let h = ClipHistory { clip: Vec::new(), clip_off: 0 };
        assert(h@ =~= Seq::<ClipView>::empty());
        h
    }

    /// Number of pinned entries (they are the first ones).
    pub fn pin_count(&self) -> (n: usize)
        ensures
            n == pin_count_spec(self@),
    {
        let mut n: usize = 0;
        while n < self.clip.len() && self.clip[n].pinned
            invariant
                n <= self.clip.len(),
                lead_pins(self@, 0) == lead_pins(self@, n as int),
            decreases self.clip.len() - n,
        {
            n = n + 1;
        }
        n
    }

    /// Number of image entries.
    pub fn clip_img_count(&self) -> (n: usize)
        ensures
            n == img_count(self@),
    {
        let mut n: usize = 0;
        let mut i: usize = 0;
        while i < self.clip.len()
            invariant
                i <= self.clip.len(),
                n == img_count_upto(self@, i as int),
                n <= i,
            decreases self.clip.len() - i,
        {
            if self.clip[i].is_img {
                n = n + 1;
            }
            i = i + 1;
        }
        n
    }

    /// Empties the history; returns the bitmap handles of its entries (0 for texts), which
    /// the host deletes.
    pub fn clip_clear_all(&mut self) -> (handles: Vec<usize>)
        requires
            old(self).wf(),
        ensures
            final(self).wf(),
            final(self)@ == Seq::<ClipView>::empty(),
            final(self).clip_off == 0,
            handles@ == old(self)@.map_values(|e: ClipView| e.hbmp),
    {
        let mut handles: Vec<usize> = Vec::new();
        let mut i: usize = 0;
        while i < self.clip.len()
            invariant
                i <= self.clip.len(),
                handles@ == self@.take(i as int).map_values(|e: ClipView| e.hbmp),
            decreases self.clip.len() - i,
        {
            handles.push(self.clip[i].hbmp);
            assert(self@.take(i + 1).map_values(|e: ClipView| e.hbmp) =~= self@.take(i as int).map_values(|e: ClipView| e.hbmp).push(self@[i as int].hbmp));
            i = i + 1;
        }
        assert(self@.take(self.clip.len() as int) =~= self@);
        self.clip = Vec::new();
        self.clip_off = 0;
        assert(self@ =~= Seq::<ClipView>::empty());
        handles
    }

    /// Removes every unpinned entry (the pinned ones survive) and goes back to the first page.
    pub fn clip_clear_unpinned(&mut self)
        requires
            old(self).wf(),
        ensures
            final(self).wf(),
            final(self)@ == old(self)@.take(pin_count_spec(old(self)@)),
            final(self)@ == old(self)@.filter(|e: ClipView| e.pinned),
            final(self).clip_off == 0,
    {
        let ghost s = self@;
        let p = self.pin_count();
        proof {
            lemma_pins_split(s);
        }
        self.clip.truncate(p);
        self.clip_off = 0;
        proof {
            assert(self@ =~= s.take(p as int));
            lemma_filter_pinned(s, p as int, s.len() as int);
            assert(s.take(s.len() as int) =~= s);
            lemma_img_count_add(s.take(p as int), s.skip(p as int));
            assert(s =~= s.take(p as int) + s.skip(p as int));
            lemma_img_count_nonneg(s.skip(p as int), s.skip(p as int).len() as int);
        }
    }

    /// Drops the oldest (last) image entry, if there is one and it is not pinned.
    pub fn clip_drop_oldest_img(&mut self)
        requires
            old(self).wf(),
        ensures
            final(self).wf(),
            final(self)@ == drop_oldest_img_spec(old(self)@),
            final(self).clip_off == old(self).clip_off,
    {
        let ghost s = self@;
        let mut i = self.clip.len();
        while i > 0 && !self.clip[i - 1].is_img
            invariant
                i <= self.clip.len(),
                s == self@,
                last_img_upto(s, s.len() as int) == last_img_upto(s, i as int),
            decreases i,
        {
            i = i - 1;
        }
        proof {
            lemma_last_img(s, s.len() as int);
        }
        if i > 0 && !self.clip[i - 1].pinned {
            self.clip.remove(i - 1);
            proof {
                assert(self@ =~= s.remove(i - 1));
                lemma_remove_pins_first(s, i - 1);
                lemma_img_count_remove(s, i - 1);
            }
        }
    }

    /// Pins or unpins entry `hist_idx` (see `toggle_pin_spec`); the page goes back to the
    /// first one when it would start past the end.
    pub fn clip_toggle_pin(&mut self, hist_idx: usize)
        requires
            old(self).wf(),
        ensures
            final(self).wf(),
            final(self)@ == toggle_pin_spec(old(self)@, hist_idx as int),
            hist_idx >= old(self)@.len() ==> final(self).clip_off == old(self).clip_off,
            hist_idx < old(self)@.len() ==> final(self).clip_off == (if old(self).clip_off >= final(self)@.len() { 0 } else { old(self).clip_off }),
    {
        if hist_idx >= self.clip.len() {
            return;
        }
        let ghost s = self@;
        let mut e = self.clip.remove(hist_idx);
        let ghost r = self@;
        assert(r =~= s.remove(hist_idx as int));
        let pins = self.pin_count();
        e.pinned = !e.pinned;
        let at = if pins < self.clip.len() { pins } else { self.clip.len() };
        let ghost ev = e@;
        self.clip.insert(at, e);
        proof {
            assert(self@ =~= r.insert(at as int, ev));
            lemma_remove_pins_first(s, hist_idx as int);
            lemma_pins_split(r);
            lemma_insert_at_split(r, at as int, ev);
            lemma_img_count_remove(s, hist_idx as int);
            lemma_img_count_insert(r, at as int, ev);
        }
        if self.clip_off >= self.clip.len() {
            self.clip_off = 0;
        }
    }

    /// Adds a copy to the history (see `prepend_spec`); returns whether the history
    /// changed.  Adding an entry goes back to the first page.
    pub fn clip_prepend(&mut self, src: ClipEnt) -> (changed: bool)
        requires
            old(self).wf(),
        ensures
            final(self).wf(),
            (final(self)@, changed) == prepend_spec(old(self)@, src@),
            dup_index_from(old(self)@, src@, 0) < 0 && changed ==> final(self).clip_off == 0,
            dup_index_from(old(self)@, src@, 0) >= 0 || !changed ==> final(self).clip_off == old(self).clip_off,
    {
        let ghost s = self@;
        let ghost sv = src@;
        let pins = self.pin_count();
        proof {
            lemma_pins_split(s);
            lemma_dup_index(s, sv, 0);
        }
        let mut i: usize = 0;
        while i < self.clip.len()
            invariant
                s == self@,
                i <= self.clip.len(),
                sv == src@,
                pins == pin_count_spec(s),
                s == old(self)@,
                sv == src@,
                self.clip_off == old(self).clip_off,
                clip_wf(s),
                0 <= pin_count_spec(s) <= s.len(),
                forall|j: int| 0 <= j < pin_count_spec(s) ==> #[trigger] s[j].pinned,
                forall|j: int| pin_count_spec(s) <= j < s.len() ==> !#[trigger] s[j].pinned,
                forall|j: int| 0 <= j < i ==> !same_text(#[trigger] s[j], sv),
            decreases self.clip.len() - i,
        {
            if same_text_exec(&self.clip[i], &src) {
                proof {
                    lemma_dup_index(s, sv, 0);
                    assert(same_text(s[i as int], sv));
                    assert(dup_index_from(s, sv, 0) == i);
                }
                if i <= pins {
                    return false;
                }
                let e = self.clip.remove(i);
                let ghost r = self@;
                let at = if pins < self.clip.len() { pins } else { self.clip.len() };
                let ghost ev = e@;
                self.clip.insert(at, e);
                proof {
                    assert(r =~= s.remove(i as int));
                    assert(self@ =~= r.insert(at as int, ev));
                    lemma_remove_pins_first(s, i as int);
                    assert(split_at_pins(r, pins as int));
                    lemma_insert_at_split(r, at as int, ev);
                    lemma_img_count_remove(s, i as int);
                    lemma_img_count_insert(r, at as int, ev);
                }
                return true;
            }
            i = i + 1;
        }
        proof {
            lemma_dup_index(s, sv, 0);
            assert(dup_index_from(s, sv, 0) == -1);
        }
        if src.is_img && self.clip_img_count() >= MAXCLIPIMG {
            self.clip_drop_oldest_img();
            proof {
                lemma_last_img(s, s.len() as int);
                let li = last_img_upto(s, s.len() as int);
                if li >= 0 && !s[li].pinned {
                    lemma_img_count_remove(s, li);
                }
            }
        }
        let ghost s1 = self@;
        let n1 = self.clip.len();
        if (src.is_img && self.clip_img_count() >= MAXCLIPIMG) || (n1 >= MAXCLIP && self.clip[n1 - 1].pinned) {
            proof {
                if self@ != s {
                    lemma_last_img(s, s.len() as int);
                    lemma_img_count_remove(s, last_img_upto(s, s.len() as int));
                    assert(s1.len() == s.len() - 1);
                }
                assert(self@ == s);
            }
            return false;
        }
        let pins1 = self.pin_count();
        proof {
            lemma_pins_split(s1);
        }
        if self.clip.len() >= MAXCLIP {
            self.clip.pop();
            proof {
                assert(self@ =~= s1.drop_last());
                assert(s1 =~= s1.drop_last() + seq![s1.last()]);
                lemma_img_count_add(s1.drop_last(), seq![s1.last()]);
                lemma_img_count_single(s1.last());
            }
        }
        let ghost s2 = self@;
        let at = if pins1 < self.clip.len() { pins1 } else { self.clip.len() };
        self.clip.insert(at, src);
        self.clip_off = 0;
        proof {
            assert(self@ =~= s2.insert(at as int, sv));
            assert(split_at_pins(s2, at as int));
            lemma_insert_at_split(s2, at as int, sv);
            lemma_img_count_insert(s2, at as int, sv);
            if sv.is_img {
                lemma_img_count_nonneg(s, s.len() as int);
            }
        }
        true
    }
}

proof fn lemma_filter_pinned(s: Seq<ClipView>, p: int, k: int)
    requires
        split_at_pins(s, p),
        p <= k <= s.len(),
    ensures
        s.take(k).filter(|e: ClipView| e.pinned) == s.take(p),
    decreases k,
{
    reveal(Seq::filter);
    if k > p {
        lemma_filter_pinned(s, p, k - 1);
        assert(s.take(k).drop_last() =~= s.take(k - 1));
    } else {
        lemma_filter_all_pinned(s, p, k);
    }
}

proof fn lemma_filter_all_pinned(s: Seq<ClipView>, p: int, k: int)
    requires
        split_at_pins(s, p),
        0 <= k <= p,
    ensures
        s.take(k).filter(|e: ClipView| e.pinned) == s.take(k),
    decreases k,
{
    reveal(Seq::filter);
    if k > 0 {
        lemma_filter_all_pinned(s, p, k - 1);
        assert(s.take(k).drop_last() =~= s.take(k - 1));
        assert(s.take(k - 1).push(s[k - 1]) =~= s.take(k));
    } else {
        assert(s.take(0) =~= Seq::<ClipView>::empty());
    }
}

proof fn lemma_records_push(l: Seq<ClipView>, e: ClipView)
    ensures
        records_bytes(l.push(e)) == records_bytes(l) + record_bytes(e),
    decreases l.len(),
{
    let le = l.push(e);
    assert(le[0] == if l.len() == 0 { e } else { l[0] });
    if l.len() == 0 {
        assert(le.drop_first() =~= Seq::<ClipView>::empty());
        assert(records_bytes(le.drop_first()) =~= Seq::<u8>::empty());
        assert(records_bytes(l) =~= Seq::<u8>::empty());
        assert(records_bytes(le) =~= records_bytes(l) + record_bytes(e));
    } else {
        lemma_records_push(l.drop_first(), e);
        assert(le.drop_first() =~= l.drop_first().push(e));
        assert(records_bytes(le) =~= records_bytes(l) + record_bytes(e));
    }
}

proof fn lemma_saved_upto_step(s: Seq<ClipView>, k: int)
    requires
        0 <= k < s.len(),
    ensures
        saved_upto(s, k + 1) == if is_saved(s[k]) { saved_upto(s, k).push(s[k]) } else { saved_upto(s, k) },
{
    reveal(Seq::filter);
    assert(s.take(k + 1).drop_last() =~= s.take(k));
}

proof fn lemma_decode_wf(d: Seq<u8>, pos: int, cnt: int, seen: bool)
    ensures
        decode_records(d, pos, cnt, seen).len() <= if cnt < 0 { 0 } else { cnt },
        img_count(decode_records(d, pos, cnt, seen)) == 0,
        pins_first(decode_records(d, pos, cnt, seen)),
        seen ==> forall|i: int| 0 <= i < decode_records(d, pos, cnt, seen).len() ==> !(#[trigger] decode_records(d, pos, cnt, seen)[i]).pinned,
    decreases cnt,
{
    let r = decode_records(d, pos, cnt, seen);
    if cnt <= 0 || pos < 0 || pos + 8 > d.len() {
        assert(img_count_upto(r, 0) == 0);
    } else {
        let pin = read_u32(d, pos);
        let cch = read_u32(d, pos + 4);
        if cch == 0 || cch > CLIP_MAX_TEXT || pos + 8 + 2 * cch > d.len() {
            assert(img_count_upto(r, 0) == 0);
        } else {
            let seen2 = seen || pin == 0;
            let rest = decode_records(d, pos + 8 + 2 * cch, cnt - 1, seen2);
            lemma_decode_wf(d, pos + 8 + 2 * cch, cnt - 1, seen2);
            let e = r[0];
            assert(r == seq![e] + rest);
            lemma_img_count_add(seq![e], rest);
            lemma_img_count_single(e);
            assert forall|a: int, b: int| 0 <= a < b < r.len() && #[trigger] r[b].pinned implies #[trigger] r[a].pinned by {
                assert(r[b] == rest[b - 1]);
                if a > 0 {
                    assert(r[a] == rest[a - 1]);
                } else {
                    if !seen2 {
                        assert(pin != 0 && !seen);
                    }
                }
            }
        }
    }
}

fn push_u32(buf: &mut Vec<u8>, x: u32)
    ensures
        final(buf)@ == old(buf)@ + u32_bytes(x),
{
    let ghost b0 = buf@;
    buf.push((x & 0xff) as u8);
    buf.push(((x >> 8) & 0xff) as u8);
    buf.push(((x >> 16) & 0xff) as u8);
    buf.push(((x >> 24) & 0xff) as u8);
    assert(buf@ =~= b0 + u32_bytes(x));
}

fn read_u32_exec(data: &[u8], p: usize) -> (r: u32)
    requires
        p + 4 <= data@.len(),
    ensures
        r == read_u32(data@, p as int),
{
    (data[p] as u32) + (data[p + 1] as u32) * 256 + (data[p + 2] as u32) * 65536 + (data[p + 3] as u32)
        * 16777216
}

/// Units of `t` the history file keeps: up to the first zero, at most 4000.
fn saved_len_exec(t: &Vec<u16>) -> (n: usize)
    ensures
        n == saved_len(t@),
        n <= t.len(),
{
    let mut k: usize = 0;
    while k < t.len() && t[k] != 0
        invariant
            k <= t.len(),
            zero_index_from(t@, 0) == zero_index_from(t@, k as int),
        decreases t.len() - k,
    {
        k = k + 1;
    }
    assert(zero_index_from(t@, k as int) == k);
    if k > CLIP_MAX_TEXT { CLIP_MAX_TEXT } else { k }
}

fn push_units(buf: &mut Vec<u8>, t: &Vec<u16>, n: usize)
    requires
        n <= t.len(),
    ensures
        final(buf)@ == old(buf)@ + units_bytes(t@.take(n as int)),
{
    let ghost b0 = buf@;
    let mut k: usize = 0;
    while k < n
        invariant
            n <= t.len(),
            k <= n,
            buf@ == b0 + units_bytes(t@.take(k as int)),
        decreases n - k,
    {
        let u = t[k];
        let ghost before = buf@;
        buf.push((u & 0xff) as u8);
        buf.push((u >> 8) as u8);
        proof {
            let ub = units_bytes(t@.take(k + 1));
            let ua = units_bytes(t@.take(k as int));
            assert forall|j: int| 0 <= j < ub.len() implies #[trigger] ub[j] == (ua + seq![(u & 0xff) as u8, (u >> 8) as u8])[j] by {
                if j < 2 * k {
                    assert(j / 2 < k);
                } else if j == 2 * k {
                    assert(j % 2 == 0 && j / 2 == k);
                } else {
                    assert(j % 2 == 1 && j / 2 == k);
                }
            }
            assert(ub =~= ua + seq![(u & 0xff) as u8, (u >> 8) as u8]);
            assert(buf@ =~= b0 + ub);
        }
        k = k + 1;
    }
}

impl ClipHistory {
    /// The history file for this history (see `encode_clip`).
    pub fn save_clip(&self) -> (buf: Vec<u8>)
        requires
            self.wf(),
        ensures
            buf@ == encode_clip(self@),
    {
        let ghost s = self@;
        let mut n: u32 = 0;
        let mut i: usize = 0;
        while i < self.clip.len()
            invariant
                s == self@,
                s.len() <= MAXCLIP,
                i <= self.clip.len(),
                n == saved_upto(s, i as int).len(),
                n <= i,
            decreases self.clip.len() - i,
        {
            proof {
                lemma_saved_upto_step(s, i as int);
            }
            if !self.clip[i].is_img && self.clip[i].text.is_some() {
                n = n + 1;
            }
            i = i + 1;
        }
        assert(s.take(s.len() as int) =~= s);
        let mut buf: Vec<u8> = Vec::new();
        push_u32(&mut buf, CLIP_MAGIC);
        push_u32(&mut buf, CLIP_VER);
        push_u32(&mut buf, n);
        let ghost h = buf@;
        assert(records_bytes(saved_upto(s, 0)) =~= Seq::<u8>::empty()) by {
            reveal(Seq::filter);
            assert(s.take(0) =~= Seq::<ClipView>::empty());
        }
        assert(buf@ =~= h + records_bytes(saved_upto(s, 0)));
        let mut i: usize = 0;
        while i < self.clip.len()
            invariant
                s == self@,
                i <= self.clip.len(),
                buf@ == h + records_bytes(saved_upto(s, i as int)),
            decreases self.clip.len() - i,
        {
            proof {
                lemma_saved_upto_step(s, i as int);
            }
            let e = &self.clip[i];
            if !e.is_img {
                match &e.text {
                    Some(t) => {
                        let cch = saved_len_exec(t);
                        let pin: u32 = if e.pinned { 1 } else { 0 };
                        let ghost b1 = buf@;
                        push_u32(&mut buf, pin);
                        push_u32(&mut buf, cch as u32);
                        push_units(&mut buf, t, cch);
                        proof {
                            assert(buf@ =~= b1 + record_bytes(s[i as int]));
                            lemma_records_push(saved_upto(s, i as int), s[i as int]);
                        }
                    },
                    None => {},
                }
            }
            i = i + 1;
        }
        buf
    }

    /// Loads the history file `data` into the history (see `load_spec`); data that is not a
    /// history file leaves the history as it is.
    pub fn load_clip(&mut self, data: &[u8])
        requires
            old(self).wf(),
        ensures
            final(self).wf(),
            match load_spec(old(self)@, data@) {
                None => final(self)@ == old(self)@ && final(self).clip_off == old(self).clip_off,
                Some(l) => final(self)@ == l && final(self).clip_off == 0,
            },
    {
        let len = data.len();
        if len < 12 || len > CLIP_MAX_FILE {
            return;
        }
        let magic = read_u32_exec(data, 0);
        let ver = read_u32_exec(data, 4);
        let cnt = read_u32_exec(data, 8);
        if magic != CLIP_MAGIC || ver != CLIP_VER || cnt as usize > MAXCLIP {
            return;
        }
        let ghost d = data@;
        let ghost s0 = self@;
        let n0 = self.clip.len();
        let pins0 = self.pin_count();
        let room: u32 = (MAXCLIP - n0) as u32;
        let lim: u32 = if cnt < room { cnt } else { room };
        let ghost seen0 = pins0 < n0;
        let ghost full = s0 + decode_records(d, 12, lim as int, seen0);
        let mut pos: usize = 12;
        let mut seen = pins0 < n0;
        let mut k: u32 = 0;
        let mut done = false;
        while k < lim && !done
            invariant
                d == data@,
                len == d.len(),
                len <= CLIP_MAX_FILE,
                lim <= MAXCLIP,
                n0 + lim <= MAXCLIP,
                n0 == s0.len(),
                k <= lim,
                12 <= pos <= len,
                self.clip.len() == n0 + k,
                done ==> decode_records(d, pos as int, (lim - k) as int, seen) == Seq::<ClipView>::empty(),
                self@ + decode_records(d, pos as int, (lim - k) as int, seen) == full,
            decreases (lim - k) as int * 2 + if done { 0int } else { 1int },
        {
            if pos + 8 > len {
                done = true;
            } else {
                let pin = read_u32_exec(data, pos);
                let cch = read_u32_exec(data, pos + 4);
                if cch == 0 || cch as usize > CLIP_MAX_TEXT || pos + 8 + 2 * (cch as usize) > len {
                    done = true;
                } else {
                    let start = pos + 8;
                    let mut text: Vec<u16> = Vec::new();
                    let mut q: usize = 0;
                    while q < cch as usize
                        invariant
                            d == data@,
                            start + 2 * (cch as int) <= d.len(),
                            d.len() == data.len(),
                            q <= cch,
                            text@ == read_units(d, start as int, q as int),
                        decreases cch - q,
                    {
                        assert(start + 2 * q + 1 < d.len());
                        let lo = data[start + 2 * q] as u16;
                        let hi = data[start + 2 * q + 1] as u16;
                        let u: u16 = lo + hi * 256;
                        text.push(u);
                        assert(text@ =~= read_units(d, start as int, q + 1));
                        q = q + 1;
                    }
                    text.push(0);
                    let pinned = pin != 0 && !seen;
                    if pin == 0 {
                        seen = true;
                    }
                    let ghost before = self@;
                    let e = ClipEnt { is_img: false, text: Some(text), hbmp: 0, iw: 0, ih: 0, pinned: pinned };
                    self.clip.push(e);
                    pos = start + 2 * (cch as usize);
                    k = k + 1;
                    proof {
                        assert(self@ =~= before.push(e@));
                    }
                }
            }
        }
        proof {
            if !done {
                assert(k == lim);
            }
            assert(decode_records(d, pos as int, (lim - k) as int, seen) =~= Seq::<ClipView>::empty());
            assert(self@ =~= full);
            let r = decode_records(d, 12, lim as int, seen0);
            lemma_decode_wf(d, 12, lim as int, seen0);
            lemma_pins_split(s0);
            lemma_img_count_add(s0, r);
            assert forall|a: int, b: int| 0 <= a < b < full.len() && #[trigger] full[b].pinned implies #[trigger] full[a].pinned by {
                if b >= s0.len() {
                    assert(full[b] == r[b - s0.len()]);
                    if a >= s0.len() {
                        assert(full[a] == r[a - s0.len()]);
                    } else {
                        assert(!seen0);
                        assert(full[a] == s0[a]);
                    }
                } else {
                    assert(full[b] == s0[b]);
                    assert(full[a] == s0[a]);
                }
            }
        }
        self.clip_off = 0;
    }
}

// ---------------------------------------------------------------------------
// Image size
// ---------------------------------------------------------------------------

/// The size an image of `w` by `h` pixels is kept at: its longer side brought down to
/// `max_dim` when larger, the other side scaled alike (rounded down, at least 1); `None` for
/// an empty image.
pub open spec fn fit_dims_spec(w: int, h: int, max_dim: int) -> Option<(int, int)> {
    if w <= 0 || h <= 0 {
        None
    } else if w <= max_dim && h <= max_dim {
        Some((w, h))
    } else if w >= h {
        Some((max_dim, if h * max_dim / w < 1 { 1 } else { h * max_dim / w }))
    } else {
        Some((if w * max_dim / h < 1 { 1 } else { w * max_dim / h }, max_dim))
    }
}

/// See `fit_dims_spec`.
pub fn fit_dims(w: i32, h: i32, max_dim: i32) -> (r: Option<(i32, i32)>)
    requires
        max_dim > 0,
    ensures
        match fit_dims_spec(w as int, h as int, max_dim as int) {
            None => r is None,
            Some(d) => r matches Some(x) && x.0 == d.0 && x.1 == d.1,
        },
{
    if w <= 0 || h <= 0 {
        return None;
    }
    if w <= max_dim && h <= max_dim {
        return Some((w, h));
    }
    proof {
        assert(0 < (h as int) * (max_dim as int) <= 0x4000_0000_0000_0000) by (nonlinear_arith)
            requires 0 < h < 0x8000_0000, 0 < max_dim < 0x8000_0000;
        assert(0 < (w as int) * (max_dim as int) <= 0x4000_0000_0000_0000) by (nonlinear_arith)
            requires 0 < w < 0x8000_0000, 0 < max_dim < 0x8000_0000;
    }
    if w >= h {
        let v: i64 = (h as i64) * (max_dim as i64) / (w as i64);
        proof {
            assert((h as int) * (max_dim as int) <= (w as int) * (max_dim as int)) by (nonlinear_arith)
                requires h <= w, max_dim > 0;
            assert((h as int) * (max_dim as int) / (w as int) <= max_dim) by (nonlinear_arith)
                requires h <= w, max_dim > 0, w > 0, h > 0;
            assert(0 <= (h as int) * (max_dim as int) / (w as int)) by (nonlinear_arith)
                requires max_dim > 0, w > 0, h > 0;
        }
        let t: i32 = if v < 1 { 1 } else { v as i32 };
        Some((max_dim, t))
    } else {
        let v: i64 = (w as i64) * (max_dim as i64) / (h as i64);
        proof {
            assert((w as int) * (max_dim as int) / (h as int) <= max_dim) by (nonlinear_arith)
                requires w < h, max_dim > 0, w > 0, h > 0;
            assert(0 <= (w as int) * (max_dim as int) / (h as int)) by (nonlinear_arith)
                requires max_dim > 0, w > 0, h > 0;
        }
        let t: i32 = if v < 1 { 1 } else { v as i32 };
        Some((t, max_dim))
    }
}

} // verus!
