//! Placing the keys in the window: the rows shown are stacked under the top bar, each
//! the same height, and the keys of a row side by side, the last one reaching the right
//! edge.  The widths in pixels depend on the window's floating-point scale, so the host
//! computes them; placing them is done here.
use vstd::prelude::*;
use crate::board::{Board, BoardModel, BarBtn, BarModel, Key, KeyModel, Rect, keys_view};
use crate::layout::layout_rows_spec;

verus! {

/// Margin around the keys, in pixels.
pub const PAD: i32 = 6;

/// Gap between keys and between rows, in pixels; the pinned-shortcut strip (row 14) has none.
pub open spec fn row_gap(row: i32) -> int {
    if row == 14 { 0 } else { 4 }
}

/// Division rounding toward zero, as machine division does.
pub open spec fn tdiv(a: int, b: int) -> int {
    if a >= 0 { a / b } else { -((-a) / b) }
}

/// The height of each row: what is left under the bar, less the margins and the gaps,
/// shared among the `n` rows.
pub open spec fn row_height(n: int, ch: int, bh: int) -> int {
    if n > 0 { tdiv(ch - bh - 2 * PAD - 4 * (n - 1), n) } else { 0 }
}

/// The top of the row at position `q` of `rows`.
pub open spec fn row_top(rows: Seq<i32>, q: int, bh: int, rh: int) -> int
    decreases q,
{
    if q <= 0 { bh + PAD } else { row_top(rows, q - 1, bh, rh) + rh + row_gap(rows[q - 1]) }
}

/// The position of `row` in `rows`, or -1.
pub open spec fn row_index(rows: Seq<i32>, row: i32, q: int) -> int
    decreases rows.len() - q,
{
    if q < 0 || q >= rows.len() {
        -1
    } else if rows[q] == row {
        q
    } else {
        row_index(rows, row, q + 1)
    }
}

/// The left edge of key `i`: the margin, then the widths and gaps of the keys of its row
/// before it.
pub open spec fn key_left(kr: Seq<i32>, w: Seq<i32>, row: i32, i: int) -> int
    decreases i,
{
    if i <= 0 {
        PAD as int
    } else {
        key_left(kr, w, row, i - 1) + if kr[i - 1] == row { w[i - 1] + row_gap(row) } else { 0 }
    }
}

/// No key after key `i` is in row `row`.
pub open spec fn last_in_row(kr: Seq<i32>, row: i32, i: int) -> bool {
    forall|j: int| i < j < kr.len() ==> kr[j] != row
}

/// The rectangle of key `i` whose row is `kr[i]` and width `w[i]`: empty when its row is
/// not shown; otherwise beside the keys of its row before it, the last key of a row
/// reaching the right margin.
pub open spec fn key_rect(rows: Seq<i32>, kr: Seq<i32>, w: Seq<i32>, i: int, cw: int, ch: int, bh: int) -> Rect {
    let q = row_index(rows, kr[i], 0);
    if q < 0 {
        Rect { left: 0, top: 0, right: 0, bottom: 0 }
    } else {
        let rh = row_height(rows.len() as int, ch, bh);
        let top = row_top(rows, q, bh, rh);
        let left = key_left(kr, w, kr[i], i);
        Rect {
            left: left as i32,
            top: top as i32,
            right: (if last_in_row(kr, kr[i], i) { cw - PAD } else { left + w[i] }) as i32,
            bottom: (top + rh) as i32,
        }
    }
}

/// Bounds that keep every sum of the placement within machine integers.
pub open spec fn place_ok(rows: Seq<i32>, kr: Seq<i32>, w: Seq<i32>, cw: int, ch: int, bh: int) -> bool {
    &&& rows.len() <= 16
    &&& kr.len() == w.len()
    &&& kr.len() <= 160
    &&& 0 <= cw <= 100_000
    &&& 0 <= ch <= 100_000
    &&& 0 <= bh <= 100_000
    &&& forall|i: int| 0 <= i < w.len() ==> -5000 <= #[trigger] w[i] <= 5000
}

proof fn lemma_row_index(rows: Seq<i32>, row: i32, q: int)
    requires
        0 <= q <= rows.len(),
    ensures
        -1 <= row_index(rows, row, q) < rows.len(),
        row_index(rows, row, q) >= 0 ==> q <= row_index(rows, row, q) && rows[row_index(rows, row, q)] == row,
        row_index(rows, row, q) >= 0 ==> forall|j: int| q <= j < row_index(rows, row, q) ==> rows[j] != row,
        row_index(rows, row, q) < 0 ==> forall|j: int| q <= j < rows.len() ==> rows[j] != row,
    decreases rows.len() - q,
{
    if q < rows.len() && rows[q] != row {
        lemma_row_index(rows, row, q + 1);
    }
}

proof fn lemma_key_left_bound(kr: Seq<i32>, w: Seq<i32>, row: i32, i: int)
    requires
        0 <= i <= kr.len(),
        kr.len() == w.len(),
        forall|j: int| 0 <= j < w.len() ==> -5000 <= #[trigger] w[j] <= 5000,
    ensures
        PAD - 5000 * i <= key_left(kr, w, row, i) <= PAD + 5004 * i,
    decreases i,
{
    if i > 0 {
        lemma_key_left_bound(kr, w, row, i - 1);
    }
}

proof fn lemma_row_top_bound(rows: Seq<i32>, q: int, bh: int, rh: int)
    requires
        0 <= q <= rows.len(),
        0 <= bh <= 100_000,
        -300_000 <= rh <= 100_000,
    ensures
        bh + PAD - 300_000 * q <= row_top(rows, q, bh, rh) <= bh + PAD + 100_004 * q,
    decreases q,
{
    if q > 0 {
        lemma_row_top_bound(rows, q - 1, bh, rh);
    }
}

/// See `key_rect`: the rectangles of all keys.
pub fn place_rects(rows: &[i32], kr: &[i32], w: &[i32], cw: i32, ch: i32, bh: i32) -> (r: Vec<Rect>)
    requires
        place_ok(rows@, kr@, w@, cw as int, ch as int, bh as int),
    ensures
        r@.len() == kr@.len(),
        forall|i: int| 0 <= i < kr@.len() ==> #[trigger] r@[i] == key_rect(rows@, kr@, w@, i, cw as int, ch as int, bh as int),
{
    let n = rows.len();
    let ghost rh_s = row_height(n as int, ch as int, bh as int);
    let rh: i32 = if n > 0 {
        let a: i32 = ch - bh - 2 * PAD - 4 * (n as i32 - 1);
        a / (n as i32)
    } else {
        0
    };
    assert(rh == rh_s);
    // The top of each row.
    let mut tops: Vec<i32> = Vec::new();
    let mut y: i32 = bh + PAD;
    let mut q: usize = 0;
    while q < n
        invariant
            q <= n,
            n == rows@.len(),
            n <= 16,
            0 <= bh <= 100_000,
            -300_000 <= rh <= 100_000,
            rh == rh_s,
            tops@.len() == q,
            y == row_top(rows@, q as int, bh as int, rh as int),
            forall|k: int| 0 <= k < q ==> #[trigger] tops@[k] == row_top(rows@, k, bh as int, rh as int),
        decreases n - q,
    {
        proof {
            lemma_row_top_bound(rows@, q as int, bh as int, rh as int);
            lemma_row_top_bound(rows@, q as int + 1, bh as int, rh as int);
        }
        tops.push(y);
        let g: i32 = if rows[q] == 14 { 0 } else { 4 };
        y = y + rh + g;
        q = q + 1;
    }
    // The last key of each row.
    let m = kr.len();
    let mut last: Vec<i64> = Vec::new();
    let mut q2: usize = 0;
    while q2 < n
        invariant
            q2 <= n,
            n == rows@.len(),
            last@.len() == q2,
            forall|k: int| 0 <= k < q2 ==> #[trigger] last@[k] == -1,
        decreases n - q2,
    {
        last.push(-1);
        q2 = q2 + 1;
    }
    let mut i: usize = 0;
    while i < m
        invariant
            i <= m,
            m == kr@.len(),
            m <= 160,
            n == rows@.len(),
            last@.len() == n,
            forall|k: int| 0 <= k < n ==> -1 <= #[trigger] last@[k] < i,
            forall|k: int| 0 <= k < n && last@[k] >= 0 ==> kr@[#[trigger] last@[k] as int] == rows@[k],
            forall|k: int, j: int| 0 <= k < n && last@[k] < j < i ==> #[trigger] kr@[j] != #[trigger] rows@[k],
        decreases m - i,
    {
        let mut q3: usize = 0;
        while q3 < n
            invariant
                q3 <= n,
                i < m,
                m == kr@.len(),
                m <= 160,
                n == rows@.len(),
                last@.len() == n,
                forall|k: int| 0 <= k < n ==> -1 <= #[trigger] last@[k] <= i,
                forall|k: int| 0 <= k < q3 && kr@[i as int] == rows@[k] ==> #[trigger] last@[k] == i,
                forall|k: int| q3 <= k < n ==> -1 <= #[trigger] last@[k] < i,
                forall|k: int| 0 <= k < n && last@[k] >= 0 ==> kr@[#[trigger] last@[k] as int] == rows@[k],
                forall|k: int, j: int| 0 <= k < n && last@[k] < j < i ==> #[trigger] kr@[j] != #[trigger] rows@[k],
                forall|k: int| 0 <= k < q3 && kr@[i as int] != rows@[k] ==> #[trigger] last@[k] < i,
            decreases n - q3,
        {
            if kr[i] == rows[q3] {
                last.set(q3, i as i64);
            }
            q3 = q3 + 1;
        }
        i = i + 1;
    }
    // Each key in turn, with the running left edge of each row.
    let mut xs: Vec<i32> = Vec::new();
    let mut q4: usize = 0;
    while q4 < n
        invariant
            q4 <= n,
            n == rows@.len(),
            xs@.len() == q4,
            forall|k: int| 0 <= k < q4 ==> #[trigger] xs@[k] == PAD,
        decreases n - q4,
    {
        xs.push(PAD);
        q4 = q4 + 1;
    }
    let mut r: Vec<Rect> = Vec::new();
    let mut i2: usize = 0;
    while i2 < m
        invariant
            i2 <= m,
            m == kr@.len(),
            place_ok(rows@, kr@, w@, cw as int, ch as int, bh as int),
            n == rows@.len(),
            rh == rh_s,
            rh_s == row_height(n as int, ch as int, bh as int),
            -300_000 <= rh <= 100_000,
            tops@.len() == n,
            forall|k: int| 0 <= k < n ==> #[trigger] tops@[k] == row_top(rows@, k, bh as int, rh as int),
            last@.len() == n,
            forall|k: int| 0 <= k < n ==> -1 <= #[trigger] last@[k] < m,
            forall|k: int| 0 <= k < n && last@[k] >= 0 ==> kr@[#[trigger] last@[k] as int] == rows@[k],
            forall|k: int, j: int| 0 <= k < n && last@[k] < j < m ==> #[trigger] kr@[j] != #[trigger] rows@[k],
            xs@.len() == n,
            forall|k: int| 0 <= k < n ==> #[trigger] xs@[k] == key_left(kr@, w@, rows@[k], i2 as int),
            r@.len() == i2,
            forall|j: int| 0 <= j < i2 ==> #[trigger] r@[j] == key_rect(rows@, kr@, w@, j, cw as int, ch as int, bh as int),
        decreases m - i2,
    {
        let row = kr[i2];
        let mut q5: usize = 0;
        while q5 < n && rows[q5] != row
            invariant
                q5 <= n,
                n == rows@.len(),
                forall|k: int| 0 <= k < q5 ==> rows@[k] != row,
            decreases n - q5,
        {
            q5 = q5 + 1;
        }
        proof {
            lemma_row_index(rows@, row, 0);
            let ri = row_index(rows@, row, 0);
            if q5 < n {
                assert(ri == q5) by {
                    if ri < 0 {
                        assert(rows@[q5 as int] == row);
                    } else if ri < q5 {
                        assert(rows@[ri] != row);
                    } else if ri > q5 {
                        assert(rows@[q5 as int] != row);
                    }
                }
            } else {
                assert(ri < 0) by {
                    if ri >= 0 {
                        assert(rows@[ri] != row);
                    }
                }
            }
        }
        let rect = if q5 >= n {
            Rect { left: 0, top: 0, right: 0, bottom: 0 }
        } else {
            let x = xs[q5];
            let top = tops[q5];
            proof {
                lemma_key_left_bound(kr@, w@, row, i2 as int);
                lemma_row_top_bound(rows@, q5 as int, bh as int, rh as int);
                // The last key of the row is this one exactly when no later key is in it.
                if last@[q5 as int] == i2 {
                    assert(last_in_row(kr@, row, i2 as int));
                } else {
                    if last@[q5 as int] > i2 {
                        assert(kr@[last@[q5 as int] as int] == row);
                        assert(!last_in_row(kr@, row, i2 as int));
                    } else {
                        assert(last@[q5 as int] < i2);
                        assert(kr@[i2 as int] != rows@[q5 as int]);
                    }
                }
            }
            let right = if last[q5] == i2 as i64 { cw - PAD } else { x + w[i2] };
            Rect { left: x, top: top, right: right, bottom: top + rh }
        };
        r.push(rect);
        let ghost xs0 = xs@;
        let mut q6: usize = 0;
        while q6 < n
            invariant
                q6 <= n,
                n == rows@.len(),
                i2 < m,
                row == kr@[i2 as int],
                m == kr@.len(),
                m <= 160,
                kr@.len() == w@.len(),
                forall|j: int| 0 <= j < w@.len() ==> -5000 <= #[trigger] w@[j] <= 5000,
                xs@.len() == n,
                xs0.len() == n,
                forall|k: int| 0 <= k < n ==> #[trigger] xs0[k] == key_left(kr@, w@, rows@[k], i2 as int),
                forall|k: int| 0 <= k < q6 ==> #[trigger] xs@[k] == key_left(kr@, w@, rows@[k], i2 as int + 1),
                forall|k: int| q6 <= k < n ==> #[trigger] xs@[k] == xs0[k],
            decreases n - q6,
        {
            proof {
                lemma_key_left_bound(kr@, w@, rows@[q6 as int], i2 as int);
                let rk = rows@[q6 as int];
                assert(key_left(kr@, w@, rk, i2 as int + 1) == key_left(kr@, w@, rk, i2 as int)
                    + if kr@[i2 as int] == rk { w@[i2 as int] + row_gap(rk) } else { 0 });
            }
            if rows[q6] == row {
                let g: i32 = if row == 14 { 0 } else { 4 };
                let nx = xs[q6] + w[i2] + g;
                xs.set(q6, nx);
            }
            q6 = q6 + 1;
        }
        i2 = i2 + 1;
    }
    r
}

/// The keys with their rectangles replaced by `rc`.
pub open spec fn with_rects(k: Seq<KeyModel>, rc: Seq<Rect>) -> Seq<KeyModel> {
    Seq::new(k.len(), |i: int| KeyModel { rc: rc[i], ..k[i] })
}

impl Board {
    #[verifier::spinoff_prover]
    fn set_keys(&mut self, v: Vec<Key>)
        requires
            old(self).wf(),
            v@.len() == old(self)@.keys.len(),
        ensures
            final(self).wf(),
            final(self)@ == (BoardModel { keys: keys_view(v@), ..old(self)@ }),
    {
        proof {
            crate::board::lemma_board_wf_all();
        }
        self.keys = v;
    }

    /// Places the keys (see `key_rect`), key `i` being `wpx[i]` pixels wide, in a client
    /// area `cw` by `ch` under a top bar `bh` high.
    pub fn place_keys(&mut self, cw: i32, ch: i32, bh: i32, wpx: &[i32])
        requires
            old(self).wf(),
            wpx@.len() == old(self)@.keys.len(),
            0 <= cw <= 100_000,
            0 <= ch <= 100_000,
            0 <= bh <= 100_000,
            forall|i: int| 0 <= i < wpx@.len() ==> -5000 <= #[trigger] wpx@[i] <= 5000,
        ensures
            final(self).wf(),
            final(self)@ == (BoardModel {
                keys: with_rects(old(self)@.keys, Seq::new(old(self)@.keys.len(), |i: int| key_rect(
                    layout_rows_spec(old(self)@),
                    old(self)@.keys.map_values(|k: KeyModel| k.row),
                    wpx@,
                    i,
                    cw as int,
                    ch as int,
                    bh as int,
                ))),
                ..old(self)@
            }),
    {
        proof {
            crate::board::lemma_board_wf(self@);
        }
        let rows = self.layout_rows();
        proof {
            reveal(crate::layout::panel_rows_spec);
            assert(rows@.len() <= 16);
        }
        let mut kr: Vec<i32> = Vec::new();
        let mut i: usize = 0;
        while i < self.keys.len()
            invariant
                i <= self.keys.len(),
                kr@.len() == i,
                forall|j: int| 0 <= j < i ==> #[trigger] kr@[j] == self@.keys[j].row,
            decreases self.keys.len() - i,
        {
            kr.push(self.keys[i].row);
            i = i + 1;
        }
        assert(kr@ =~= self@.keys.map_values(|k: KeyModel| k.row));
        let rc = place_rects(rows.as_slice(), kr.as_slice(), wpx, cw, ch, bh);
        let mut v: Vec<Key> = Vec::new();
        let mut j: usize = 0;
        while j < self.keys.len()
            invariant
                j <= self.keys.len(),
                rc@.len() == self.keys.len(),
                v@.len() == j,
                forall|t: int| 0 <= t < j ==> #[trigger] v@[t]@ == (KeyModel { rc: rc@[t], ..self.keys@[t]@ }),
            decreases self.keys.len() - j,
        {
            let mut k = self.keys[j];
            k.rc = rc[j];
            v.push(k);
            j = j + 1;
        }
        let ghost old_b = self@;
        assert(keys_view(v@) =~= with_rects(old_b.keys, rc@));
        assert(rc@ =~= Seq::new(old_b.keys.len(), |t: int| key_rect(
            layout_rows_spec(old_b), old_b.keys.map_values(|k: KeyModel| k.row), wpx@, t, cw as int, ch as int, bh as int)));
        self.set_keys(v);
    }
}

// ---------------------------------------------------------------------------
// The top bar
// ---------------------------------------------------------------------------

/// The right edge of the first shown button among `i..6`: the buttons 0 to 5 line up from
/// the right margin leftwards, 3 pixels apart.
pub open spec fn bar_x(bar: Seq<BarModel>, bw: Seq<i32>, cw: int, i: int) -> int
    decreases 6 - i,
{
    if i >= 6 {
        cw - PAD
    } else {
        bar_x(bar, bw, cw, i + 1) - if bar[i].show { bw[i] + 3 } else { 0 }
    }
}

/// The rectangle of bar button `i` (`bw[i]` pixels wide) in a bar `bh` high: hidden ones are
/// empty, the last one (⚙) sits at the left margin.
pub open spec fn bar_rect(bar: Seq<BarModel>, bw: Seq<i32>, i: int, cw: int, bh: int) -> Rect {
    if !bar[i].show {
        Rect { left: 0, top: 0, right: 0, bottom: 0 }
    } else if i == 6 {
        Rect { left: PAD, top: 3, right: (PAD + bw[i]) as i32, bottom: (bh - 3) as i32 }
    } else {
        let r = bar_x(bar, bw, cw, i + 1);
        Rect { left: (r - bw[i]) as i32, top: 3, right: r as i32, bottom: (bh - 3) as i32 }
    }
}

proof fn lemma_bar_x_bound(bar: Seq<BarModel>, bw: Seq<i32>, cw: int, i: int)
    requires
        0 <= i <= 6,
        bw.len() == 7,
        forall|j: int| 0 <= j < 7 ==> 0 <= #[trigger] bw[j] <= 5000,
    ensures
        cw - PAD - 5003 * (6 - i) <= bar_x(bar, bw, cw, i) <= cw - PAD,
    decreases 6 - i,
{
    if i < 6 {
        lemma_bar_x_bound(bar, bw, cw, i + 1);
    }
}

/// The bar buttons with their rectangles set (see `bar_rect`).
fn placed_bar(bar: &[BarBtn; 7], cw: i32, bh: i32, bw: &[i32; 7]) -> (r: [BarBtn; 7])
    requires
        0 <= cw <= 100_000,
        0 <= bh <= 100_000,
        forall|i: int| 0 <= i < 7 ==> 0 <= #[trigger] bw@[i] <= 5000,
    ensures
        forall|i: int| 0 <= i < 7 ==> #[trigger] r@[i]@ == (BarModel {
            rc: bar_rect(bar@.map_values(|x: BarBtn| x@), bw@, i, cw as int, bh as int),
            ..bar@[i]@
        }),
{
    let ghost bv = bar@.map_values(|x: BarBtn| x@);
    let mut r = *bar;
    let mut x: i32 = cw - PAD;
    let mut i: usize = 6;
    while i > 0
        invariant
            i <= 6,
            0 <= cw <= 100_000,
            0 <= bh <= 100_000,
            forall|j: int| 0 <= j < 7 ==> 0 <= #[trigger] bw@[j] <= 5000,
            bv == bar@.map_values(|x: BarBtn| x@),
            x == bar_x(bv, bw@, cw as int, i as int),
            forall|j: int| 0 <= j < 7 && !(i <= j < 6) ==> #[trigger] r@[j] == bar@[j],
            forall|j: int| i <= j < 6 ==> #[trigger] r@[j]@ == (BarModel {
                rc: bar_rect(bv, bw@, j, cw as int, bh as int),
                ..bar@[j]@
            }),
        decreases i,
    {
        i = i - 1;
        proof {
            lemma_bar_x_bound(bv, bw@, cw as int, i as int);
            lemma_bar_x_bound(bv, bw@, cw as int, i as int + 1);
            assert(bv[i as int] == bar@[i as int]@);
        }
        let mut e = bar[i];
        if !e.show {
            e.rc = Rect { left: 0, top: 0, right: 0, bottom: 0 };
        } else {
            let w = bw[i];
            e.rc = Rect { left: x - w, top: 3, right: x, bottom: bh - 3 };
            x = x - (w + 3);
        }
        r[i] = e;
    }
    let mut e = bar[6];
    proof {
        assert(bv[6] == bar@[6]@);
    }
    if e.show {
        e.rc = Rect { left: PAD, top: 3, right: PAD + bw[6], bottom: bh - 3 };
    } else {
        e.rc = Rect { left: 0, top: 0, right: 0, bottom: 0 };
    }
    r[6] = e;
    r
}

impl Board {
    #[verifier::spinoff_prover]
    fn set_bar_btns(&mut self, v: [BarBtn; 7])
        requires
            old(self).wf(),
            forall|i: int| 0 <= i < 7 ==> #[trigger] v@[i].id == old(self)@.bar[i].id,
        ensures
            final(self).wf(),
            final(self)@ == (BoardModel { bar: v@.map_values(|x: BarBtn| x@), ..old(self)@ }),
    {
        proof {
            crate::board::lemma_board_wf_all();
        }
        self.bar = v;
    }

    /// Places the bar buttons (see `bar_rect`), button `i` being `bw[i]` pixels wide, in a
    /// client area `cw` wide under a bar `bh` high.
    pub fn place_bar(&mut self, cw: i32, bh: i32, bw: &[i32; 7])
        requires
            old(self).wf(),
            0 <= cw <= 100_000,
            0 <= bh <= 100_000,
            forall|i: int| 0 <= i < 7 ==> 0 <= #[trigger] bw@[i] <= 5000,
        ensures
            final(self).wf(),
            final(self)@ == (BoardModel {
                bar: Seq::new(7, |i: int| BarModel {
                    rc: bar_rect(old(self)@.bar, bw@, i, cw as int, bh as int),
                    ..old(self)@.bar[i]
                }),
                ..old(self)@
            }),
    {
        proof {
            crate::board::lemma_board_wf(self@);
        }
        let v = placed_bar(&self.bar, cw, bh, bw);
        let ghost b0 = self@;
        assert(b0.bar == self.bar@.map_values(|x: BarBtn| x@));
        assert forall|i: int| 0 <= i < 7 implies #[trigger] v@[i].id == b0.bar[i].id by {
            assert(v@[i]@.id == self.bar@[i]@.id);
        }
        self.set_bar_btns(v);
        assert(self@.bar =~= Seq::new(7, |i: int| BarModel {
            rc: bar_rect(b0.bar, bw@, i, cw as int, bh as int),
            ..b0.bar[i]
        }));
    }
}

} // verus!
