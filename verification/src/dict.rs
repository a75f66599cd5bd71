//! Word lists, bigram tables and the capped edit distance used by autocorrect.
use vstd::prelude::*;
use vstd::utf8::valid_utf8;
use vstd::string::StrSliceExecFns;

verus! {

/// Longest word (in characters) that the dictionary and the word tracker keep.
pub const MAXWLEN: usize = 31;

/// Largest number of words that one dictionary holds.
pub const MAX_DICT_WORDS: usize = 60000;

// ---------------------------------------------------------------------------
// Dictionary text format
// ---------------------------------------------------------------------------

/// Bytes that end the word of a dictionary line (space, tab, carriage return).
pub open spec fn is_word_delim(b: u8) -> bool {
    b == 32 || b == 9 || b == 13
}

/// Bytes that may appear in a dictionary word: ASCII letters and the apostrophe.
pub open spec fn is_word_byte(b: u8) -> bool {
    (97 <= b <= 122) || (65 <= b <= 90) || b == 39
}

/// Bytes of a stored dictionary word: lower-case ASCII letters and the apostrophe.
pub open spec fn is_lower_word_byte(b: u8) -> bool {
    (97 <= b <= 122) || b == 39
}

/// ASCII lower-casing of one byte.
pub open spec fn lower_ascii(b: u8) -> u8 {
    if 65 <= b <= 90 {
        (b + 32) as u8
    } else {
        b
    }
}

/// A word as the dictionary stores it: 1 to 31 lower-case letters or apostrophes.
pub open spec fn dict_word_ok(w: Seq<u8>) -> bool {
    &&& 0 < w.len() <= MAXWLEN
    &&& forall|k: int| 0 <= k < w.len() ==> is_lower_word_byte(#[trigger] w[k])
}

/// The contents of a list of words.
pub open spec fn words_view(d: Seq<Vec<u8>>) -> Seq<Seq<u8>> {
    d.map_values(|w: Vec<u8>| w@)
}

/// Index of the newline that ends the line holding position `p` (or the end of the data).
pub open spec fn line_end(data: Seq<u8>, p: int) -> int
    decreases data.len() - p,
{
    if p >= data.len() {
        data.len() as int
    } else if data[p] == 10 {
        p
    } else {
        line_end(data, p + 1)
    }
}

/// End of the token that starts at `p` and stops at a delimiter or at `end`.
pub open spec fn token_end(data: Seq<u8>, p: int, end: int) -> int
    decreases end - p,
{
    if p >= end || is_word_delim(data[p]) {
        p
    } else {
        token_end(data, p + 1, end)
    }
}

/// The word that the line `data[pos..end]` contributes, if any: its leading token,
/// lower-cased, provided it is non-empty, at most 31 bytes, made only of letters and
/// apostrophes, and the line from the token on is well-formed UTF-8.
pub open spec fn line_word(data: Seq<u8>, pos: int, end: int) -> Option<Seq<u8>> {
    let t = token_end(data, pos, end);
    if pos < t && t - pos <= MAXWLEN && valid_utf8(data.subrange(pos, end)) && (forall|k: int|
        pos <= k < t ==> is_word_byte(#[trigger] data[k])) {
        Some(data.subrange(pos, t).map_values(|b: u8| lower_ascii(b)))
    } else {
        None
    }
}

/// All words of the lines from position `pos` on, in file order.
pub open spec fn dict_words_from(data: Seq<u8>, pos: int) -> Seq<Seq<u8>>
    decreases data.len() - pos,
{
    if pos < 0 || pos >= data.len() {
        seq![]
    } else {
        let end = line_end(data, pos);
        let rest = if pos <= end < data.len() {
            dict_words_from(data, end + 1)
        } else {
            seq![]
        };
        match line_word(data, pos, end) {
            Some(w) => seq![w] + rest,
            None => rest,
        }
    }
}

/// The dictionary that a word file describes: its first 60000 words.
pub open spec fn dict_words(data: Seq<u8>) -> Seq<Seq<u8>> {
    let all = dict_words_from(data, 0);
    if all.len() <= MAX_DICT_WORDS {
        all
    } else {
        all.take(MAX_DICT_WORDS as int)
    }
}

proof fn lemma_token_end_bounds(data: Seq<u8>, p: int, end: int)
    requires
        p <= end,
    ensures
        p <= token_end(data, p, end) <= end,
    decreases end - p,
{
    if p < end && !is_word_delim(data[p]) {
        lemma_token_end_bounds(data, p + 1, end);
    }
}

/// Words of the lines after the one that ends at `end`.
spec fn rest_words(data: Seq<u8>, end: int) -> Seq<Seq<u8>> {
    if end < data.len() {
        dict_words_from(data, end + 1)
    } else {
        seq![]
    }
}

proof fn lemma_line_end_bounds(data: Seq<u8>, p: int)
    requires
        0 <= p <= data.len(),
    ensures
        p <= line_end(data, p) <= data.len(),
        line_end(data, p) < data.len() ==> data[line_end(data, p)] == 10,
    decreases data.len() - p,
{
    if p < data.len() && data[p] != 10 {
        lemma_line_end_bounds(data, p + 1);
    }
}

/// `std::str::from_utf8` on `data[start..end]`: it succeeds exactly when those bytes are
/// well-formed UTF-8 (vstd's `valid_utf8`).
#[verifier::external_body]
fn utf8_range_valid(data: &[u8], start: usize, end: usize) -> (r: bool)
    requires
        start <= end <= data@.len(),
    ensures
        r == valid_utf8(data@.subrange(start as int, end as int)),
{
    std::str::from_utf8(&data[start..end]).is_ok()
}

/// Reads a word list: one word per line, the word being the line's leading token
/// (anything after a space, tab or carriage return is ignored).  Upper-case letters are
/// lowered; a line whose token holds any other byte than a letter or an apostrophe, is
/// longer than 31 bytes, or whose text is not valid UTF-8 contributes no word.  At most
/// 60000 words are kept.
pub fn parse_dict(data: &[u8]) -> (out: Vec<Vec<u8>>)
    ensures
        words_view(out@) == dict_words(data@),
        forall|i: int| 0 <= i < out.len() ==> dict_word_ok(#[trigger] words_view(out@)[i]),
{
    let n = data.len();
    let mut out: Vec<Vec<u8>> = Vec::new();
    let mut pos: usize = 0;
    let ghost all = dict_words_from(data@, 0);
    proof {
        lemma_dict_words_ok(data@, 0);
    }
    while pos < n && out.len() < MAX_DICT_WORDS
        invariant
            n == data@.len(),
            pos <= n,
            out.len() <= MAX_DICT_WORDS,
            all == dict_words_from(data@, 0),
            all == words_view(out@) + dict_words_from(data@, pos as int),
            forall|i: int| 0 <= i < all.len() ==> dict_word_ok(#[trigger] all[i]),
        decreases n - pos,
    {
        let mut end = pos;
        while end < n && data[end] != 10u8
            invariant
                n == data@.len(),
                pos <= end <= n,
                line_end(data@, pos as int) == line_end(data@, end as int),
            decreases n - end,
        {
            end = end + 1;
        }
        let mut t = pos;
        let mut all_word_bytes = true;
        while t < end && data[t] != 32u8 && data[t] != 9u8 && data[t] != 13u8
            invariant
                n == data@.len(),
                pos <= t <= end <= n,
                token_end(data@, pos as int, end as int) == token_end(data@, t as int, end as int),
                all_word_bytes == (forall|k: int| pos <= k < t ==> is_word_byte(#[trigger] data@[k])),
            decreases end - t,
        {
            let b = data[t];
            let good = (97u8 <= b && b <= 122u8) || (65u8 <= b && b <= 90u8) || b == 39u8;
            all_word_bytes = all_word_bytes && good;
            t = t + 1;
        }
        let ghost w_spec = line_word(data@, pos as int, end as int);
        let ghost before = words_view(out@);
        let ghost old_v = out@;
        let ghost old_pos = pos as int;
        proof {
            lemma_line_end_bounds(data@, pos as int);
        }
        if pos < t && t - pos <= MAXWLEN && all_word_bytes && utf8_range_valid(data, pos, end) {
            let mut w: Vec<u8> = Vec::new();
            let mut k = pos;
            while k < t
                invariant
                    n == data@.len(),
                    pos <= k <= t <= n,
                    w@ == data@.subrange(pos as int, k as int).map_values(|b: u8| lower_ascii(b)),
                decreases t - k,
            {
                let b = data[k];
                let lb = if 65u8 <= b && b <= 90u8 {
                    b + 32
                } else {
                    b
                };
                w.push(lb);
                proof {
                    assert(data@.subrange(pos as int, k + 1).map_values(|b: u8| lower_ascii(b))
                        =~= data@.subrange(pos as int, k as int).map_values(|b: u8| lower_ascii(b)).push(lb));
                }
                k = k + 1;
            }
            assert(w_spec == Some(w@));
            let ghost wv = w@;
            out.push(w);
            proof {
                assert(words_view(out@) =~= before.push(wv));
                assert(dict_words_from(data@, old_pos) == seq![wv] + rest_words(data@, end as int));
                assert(all =~= words_view(out@) + rest_words(data@, end as int));
            }
        } else {
            assert(w_spec is None);
            assert(dict_words_from(data@, old_pos) == rest_words(data@, end as int));
        }
        if end < n {
            pos = end + 1;
        } else {
            pos = n;
        }
        proof {
            assert(rest_words(data@, end as int) == dict_words_from(data@, pos as int));
        }
    }
    proof {
        if pos >= n {
            assert(dict_words_from(data@, pos as int) =~= seq![]);
            assert(all =~= words_view(out@));
        } else {
            assert(words_view(out@) =~= all.take(MAX_DICT_WORDS as int));
        }
    }
    out
}

proof fn lemma_dict_words_ok(data: Seq<u8>, pos: int)
    ensures
        forall|i: int|
            0 <= i < dict_words_from(data, pos).len() ==> dict_word_ok(
                #[trigger] dict_words_from(data, pos)[i],
            ),
    decreases data.len() - pos,
{
    if pos < 0 || pos >= data.len() {
    } else {
        let end = line_end(data, pos);
        lemma_line_end_bounds(data, pos);
        if end < data.len() {
            lemma_dict_words_ok(data, end + 1);
        }
        match line_word(data, pos, end) {
            Some(w) => {
                let t = token_end(data, pos, end);
                lemma_token_end_bounds(data, pos, end);
                assert forall|k: int| 0 <= k < w.len() implies is_lower_word_byte(#[trigger] w[k]) by {
                    assert(w == data.subrange(pos, t).map_values(|b: u8| lower_ascii(b)));
                    assert(pos <= pos + k < t);
                    assert(w[k] == lower_ascii(data[pos + k]));
                    assert(is_word_byte(data[pos + k]));
                }
                let rest = if end < data.len() { dict_words_from(data, end + 1) } else { seq![] };
                assert forall|i: int|
                    0 <= i < dict_words_from(data, pos).len() implies dict_word_ok(
                    #[trigger] dict_words_from(data, pos)[i],
                ) by {
                    if i > 0 {
                        assert(dict_words_from(data, pos)[i] == rest[i - 1]);
                    }
                }
            },
            None => {
                assert(dict_words_from(data, pos) == rest_words(data, end));
            },
        }
    }
}

// ---------------------------------------------------------------------------
// Capped optimal-string-alignment distance
// ---------------------------------------------------------------------------

/// Edit distance between the first `i` characters of `a` and the first `j` of `b`,
/// counting insertions, deletions, substitutions and transpositions of adjacent
/// characters (optimal string alignment).
pub open spec fn osa(a: Seq<u32>, b: Seq<u32>, i: int, j: int) -> int
    decreases i + j,
{
    if i <= 0 {
        if j <= 0 { 0 } else { j }
    } else if j <= 0 {
        i
    } else {
        let cost: int = if a[i - 1] == b[j - 1] { 0 } else { 1 };
        let del = osa(a, b, i - 1, j) + 1;
        let ins = osa(a, b, i, j - 1) + 1;
        let sub = osa(a, b, i - 1, j - 1) + cost;
        let m1 = if del <= ins && del <= sub { del } else if ins <= sub { ins } else { sub };
        if i > 1 && j > 1 && a[i - 1] == b[j - 2] && a[i - 2] == b[j - 1] {
            let tr = osa(a, b, i - 2, j - 2) + 1;
            if tr < m1 { tr } else { m1 }
        } else {
            m1
        }
    }
}

/// Edit distance between the whole of `a` and the whole of `b`.
pub open spec fn osa_dist(a: Seq<u32>, b: Seq<u32>) -> int {
    osa(a, b, a.len() as int, b.len() as int)
}

/// Smallest distance from the first `i` characters of `a` to a non-empty prefix of `b`
/// of at most `k` characters.
pub open spec fn row_min_upto(a: Seq<u32>, b: Seq<u32>, i: int, k: int) -> int
    decreases k,
{
    if k <= 1 {
        osa(a, b, i, 1)
    } else {
        let r = row_min_upto(a, b, i, k - 1);
        let v = osa(a, b, i, k);
        if v < r { v } else { r }
    }
}

/// Smallest distance from the first `i` characters of `a` to a non-empty prefix of `b`.
pub open spec fn row_min(a: Seq<u32>, b: Seq<u32>, i: int) -> int {
    row_min_upto(a, b, i, b.len() as int)
}

/// Whether the distance computation gives up on the cap: some prefix of `a` is farther
/// than `cap` from every non-empty prefix of `b` (always so when `b` is empty).
pub open spec fn cap_exceeded(a: Seq<u32>, b: Seq<u32>, cap: int) -> bool {
    a.len() >= 1 && (b.len() == 0 || exists|i: int| 1 <= i <= a.len() && #[trigger] row_min(a, b, i) > cap)
}

pub open spec fn abs_diff(x: int, y: int) -> int {
    if x >= y { x - y } else { y - x }
}

/// The capped distance: `cap + 1` for words longer than 32 characters, for lengths that
/// differ by more than `cap`, or when the computation gives up on the cap; otherwise the
/// exact distance.
pub open spec fn edit_dist_capped(a: Seq<u32>, b: Seq<u32>, cap: int) -> int {
    if a.len() > 32 || b.len() > 32 {
        cap + 1
    } else if abs_diff(a.len() as int, b.len() as int) > cap {
        cap + 1
    } else if cap_exceeded(a, b, cap) {
        cap + 1
    } else {
        osa_dist(a, b)
    }
}

proof fn lemma_osa_bounds(a: Seq<u32>, b: Seq<u32>, i: int, j: int)
    requires
        0 <= i,
        0 <= j,
    ensures
        abs_diff(i, j) <= osa(a, b, i, j) <= i + j,
    decreases i + j,
{
    if i > 0 && j > 0 {
        lemma_osa_bounds(a, b, i - 1, j);
        lemma_osa_bounds(a, b, i, j - 1);
        lemma_osa_bounds(a, b, i - 1, j - 1);
        if i > 1 && j > 1 {
            lemma_osa_bounds(a, b, i - 2, j - 2);
        }
    }
}

proof fn lemma_row_min_upto_le(a: Seq<u32>, b: Seq<u32>, i: int, k: int, j: int)
    requires
        1 <= j <= k,
    ensures
        row_min_upto(a, b, i, k) <= osa(a, b, i, j),
    decreases k,
{
    if k > 1 && j < k {
        lemma_row_min_upto_le(a, b, i, k - 1, j);
    }
}

proof fn lemma_row_min_upto_ge(a: Seq<u32>, b: Seq<u32>, i: int, k: int, lo: int)
    requires
        1 <= k,
        forall|j: int| 1 <= j <= k ==> lo <= #[trigger] osa(a, b, i, j),
    ensures
        lo <= row_min_upto(a, b, i, k),
    decreases k,
{
    if k > 1 {
        lemma_row_min_upto_ge(a, b, i, k - 1, lo);
    }
}

/// Each row of the distance table has a minimum at least that of the row before.
proof fn lemma_row_min_monotone(a: Seq<u32>, b: Seq<u32>, i: int)
    requires
        2 <= i,
        1 <= b.len(),
    ensures
        row_min(a, b, i - 1) <= row_min(a, b, i),
{
    let m = b.len() as int;
    let lo = row_min(a, b, i - 1);
    lemma_row_min_upto_le(a, b, i - 1, m, 1);
    assert(osa(a, b, i - 1, 1) <= i - 1) by {
        lemma_osa_bounds(a, b, i - 2, 0);
        lemma_osa_bounds(a, b, i - 1, 0);
    }
    assert forall|j: int| 1 <= j <= m implies lo <= #[trigger] osa(a, b, i, j) by {
        lemma_osa_row_ge(a, b, i, j, lo);
    }
    lemma_row_min_upto_ge(a, b, i, m, lo);
}

proof fn lemma_osa_row_ge(a: Seq<u32>, b: Seq<u32>, i: int, j: int, lo: int)
    requires
        2 <= i,
        1 <= j <= b.len(),
        lo == row_min(a, b, i - 1),
        osa(a, b, i - 1, 1) <= i - 1,
    ensures
        lo <= osa(a, b, i, j),
    decreases j,
{
    let m = b.len() as int;
    lemma_row_min_upto_le(a, b, i - 1, m, j);
    lemma_row_min_upto_le(a, b, i - 1, m, 1);
    if j > 1 {
        lemma_osa_row_ge(a, b, i, j - 1, lo);
        lemma_row_min_upto_le(a, b, i - 1, m, j - 1);
    } else {
        lemma_osa_bounds(a, b, i, 0);
        lemma_osa_bounds(a, b, i - 1, 0);
    }
    if i > 1 && j > 1 {
        lemma_osa_bounds(a, b, i - 2, j - 2);
    }
}

/// The cap only hides distances beyond it: when the true distance between two words of
/// at most 32 characters is within `cap`, the capped distance is exactly the true one;
/// otherwise it is above `cap`.
pub proof fn lemma_edit_dist_capped_exact(a: Seq<u32>, b: Seq<u32>, cap: int)
    requires
        0 <= cap,
        a.len() <= 32,
        b.len() <= 32,
        a.len() == 0 || b.len() >= 1,
    ensures
        osa_dist(a, b) <= cap ==> edit_dist_capped(a, b, cap) == osa_dist(a, b),
        osa_dist(a, b) > cap ==> edit_dist_capped(a, b, cap) > cap,
{
    let n = a.len() as int;
    let m = b.len() as int;
    lemma_osa_bounds(a, b, n, m);
    if osa_dist(a, b) <= cap && n >= 1 {
        assert forall|i: int| 1 <= i <= n implies #[trigger] row_min(a, b, i) <= cap by {
            lemma_row_min_le_final(a, b, i);
            lemma_row_min_upto_le(a, b, n, m, m);
        }
    }
}

proof fn lemma_osa_symmetric(a: Seq<u32>, b: Seq<u32>, i: int, j: int)
    ensures
        osa(a, b, i, j) == osa(b, a, j, i),
    decreases i + j,
{
    if i > 0 && j > 0 {
        lemma_osa_symmetric(a, b, i - 1, j);
        lemma_osa_symmetric(a, b, i, j - 1);
        lemma_osa_symmetric(a, b, i - 1, j - 1);
        if i > 1 && j > 1 {
            lemma_osa_symmetric(a, b, i - 2, j - 2);
        }
    }
}

proof fn lemma_osa_same(a: Seq<u32>, i: int)
    requires
        0 <= i <= a.len(),
    ensures
        osa(a, a, i, i) == 0,
    decreases i,
{
    if i > 0 {
        lemma_osa_same(a, i - 1);
        crate::predict::lemma_osa_nonneg(a, a, i - 1, i);
        crate::predict::lemma_osa_nonneg(a, a, i, i - 1);
        if i > 1 {
            crate::predict::lemma_osa_nonneg(a, a, i - 2, i - 2);
        }
    }
}

proof fn lemma_line_end_shift(c: Seq<u8>, y: Seq<u8>, q: int)
    requires
        0 <= q <= y.len(),
    ensures
        line_end(c + y, c.len() + q) == c.len() + line_end(y, q),
    decreases y.len() - q,
{
    if q < y.len() {
        assert((c + y)[c.len() + q] == y[q]);
        if y[q] != 10 {
            lemma_line_end_shift(c, y, q + 1);
        }
    }
}

proof fn lemma_token_end_shift(c: Seq<u8>, y: Seq<u8>, p: int, e: int)
    requires
        0 <= p <= e <= y.len(),
    ensures
        token_end(c + y, c.len() + p, c.len() + e) == c.len() + token_end(y, p, e),
    decreases e - p,
{
    if p < e {
        assert((c + y)[c.len() + p] == y[p]);
        if !is_word_delim(y[p]) {
            lemma_token_end_shift(c, y, p + 1, e);
        }
    }
}

proof fn lemma_words_shift(c: Seq<u8>, y: Seq<u8>, q: int)
    requires
        0 <= q,
    ensures
        dict_words_from(c + y, c.len() + q) == dict_words_from(y, q),
    decreases y.len() - q,
{
    let d = c + y;
    let o = c.len() as int;
    if q < y.len() {
        lemma_line_end_shift(c, y, q);
        lemma_line_end_bounds(y, q);
        let e = line_end(y, q);
        lemma_token_end_shift(c, y, q, e);
        lemma_token_end_bounds(y, q, e);
        let t = token_end(y, q, e);
        assert(d.subrange(o + q, o + e) =~= y.subrange(q, e));
        assert(d.subrange(o + q, o + t) =~= y.subrange(q, t));
        assert((forall|k: int| o + q <= k < o + t ==> is_word_byte(#[trigger] d[k]))
            == (forall|k: int| q <= k < t ==> is_word_byte(#[trigger] y[k]))) by {
            if forall|k: int| q <= k < t ==> is_word_byte(#[trigger] y[k]) {
                assert forall|k: int| o + q <= k < o + t implies is_word_byte(#[trigger] d[k]) by {
                    assert(d[k] == y[k - o]);
                }
            }
            if forall|k: int| o + q <= k < o + t ==> is_word_byte(#[trigger] d[k]) {
                assert forall|k: int| q <= k < t implies is_word_byte(#[trigger] y[k]) by {
                    assert(d[k + o] == y[k]);
                }
            }
        }
        assert(line_word(d, o + q, o + e) == line_word(y, q, e));
        if e < y.len() {
            lemma_words_shift(c, y, e + 1);
        }
    }
}

proof fn lemma_words_prefix(x: Seq<u8>, y: Seq<u8>, p: int)
    requires
        0 <= p <= x.len(),
    ensures
        dict_words_from(x + seq![10u8] + y, p) == dict_words_from(x, p) + dict_words_from(y, 0),
    decreases x.len() - p,
{
    let z = seq![10u8] + y;
    let d = x + z;
    assert(x + seq![10u8] + y =~= d);
    lemma_line_end_bounds(x, p);
    let e = line_end(x, p);
    // The line from `p` ends at the same place: at the newline after `x` at the latest.
    assert(line_end(d, p) == e) by {
        lemma_line_end_prefix(x, z, p);
    }
    lemma_token_end_bounds(x, p, e);
    lemma_token_end_prefix(x, z, p, e);
    let t = token_end(x, p, e);
    assert(d.subrange(p, e) =~= x.subrange(p, e));
    assert(d.subrange(p, t) =~= x.subrange(p, t));
    assert forall|k: int| p <= k < t implies #[trigger] d[k] == x[k] by {}
    assert((forall|k: int| p <= k < t ==> is_word_byte(#[trigger] d[k]))
        == (forall|k: int| p <= k < t ==> is_word_byte(#[trigger] x[k]))) by {
        if forall|k: int| p <= k < t ==> is_word_byte(#[trigger] x[k]) {
            assert forall|k: int| p <= k < t implies is_word_byte(#[trigger] d[k]) by {
                assert(d[k] == x[k]);
            }
        }
        if forall|k: int| p <= k < t ==> is_word_byte(#[trigger] d[k]) {
            assert forall|k: int| p <= k < t implies is_word_byte(#[trigger] x[k]) by {
                assert(d[k] == x[k]);
            }
        }
    }
    assert(line_word(d, p, e) == line_word(x, p, e));
    if e < x.len() {
        lemma_words_prefix(x, y, e + 1);
    } else {
        assert(d[x.len() as int] == 10u8);
        lemma_words_shift(x + seq![10u8], y, 0);
        assert((x + seq![10u8]) + y =~= d);
    }
    if p == x.len() {
        assert(dict_words_from(x, p) =~= Seq::<Seq<u8>>::empty());
    }
}

proof fn lemma_line_end_prefix(x: Seq<u8>, z: Seq<u8>, p: int)
    requires
        0 <= p <= x.len(),
        z.len() > 0,
        z[0] == 10,
    ensures
        line_end(x + z, p) == line_end(x, p),
    decreases x.len() - p,
{
    if p < x.len() {
        assert((x + z)[p] == x[p]);
        if x[p] != 10 {
            lemma_line_end_prefix(x, z, p + 1);
        }
    } else {
        assert((x + z)[p] == z[0]);
    }
}

proof fn lemma_token_end_prefix(x: Seq<u8>, z: Seq<u8>, p: int, e: int)
    requires
        0 <= p <= e <= x.len(),
    ensures
        token_end(x + z, p, e) == token_end(x, p, e),
    decreases e - p,
{
    if p < e {
        assert((x + z)[p] == x[p]);
        lemma_token_end_prefix(x, z, p + 1, e);
    }
}

/// Reading two word files joined by a newline gives the words of the first, then those of
/// the second, when together they hold at most 60000 words.
pub proof fn lemma_dict_concat(x: Seq<u8>, y: Seq<u8>)
    requires
        dict_words(x).len() + dict_words(y).len() <= MAX_DICT_WORDS,
    ensures
        dict_words(x + seq![10u8] + y) == dict_words(x) + dict_words(y),
{
    lemma_words_prefix(x, y, 0);
    let ax = dict_words_from(x, 0);
    let ay = dict_words_from(y, 0);
    if ax.len() > MAX_DICT_WORDS {
        assert(ay.len() == 0);
        assert(ax + ay =~= ax);
    } else if ay.len() > MAX_DICT_WORDS {
        assert(ax.len() == 0);
        assert(ax + ay =~= ay);
    }
}

/// Within the cap, the capped distance is the true edit distance: it is then the same both
/// ways round and for any larger cap, and it is 0 exactly for equal words.  (Beyond the cap
/// the result only says "more than the cap"; it may exceed cap + 1.)
pub proof fn lemma_edit_dist_laws(a: Seq<u32>, b: Seq<u32>, cap1: int, cap2: int)
    requires
        0 <= cap1 <= cap2,
        1 <= a.len() <= 32,
        1 <= b.len() <= 32,
    ensures
        (edit_dist_capped(a, b, cap1) <= cap1) == (edit_dist_capped(b, a, cap1) <= cap1),
        edit_dist_capped(a, b, cap1) <= cap1 ==> edit_dist_capped(b, a, cap1) == edit_dist_capped(a, b, cap1),
        edit_dist_capped(a, b, cap1) <= cap1 ==> edit_dist_capped(a, b, cap2) == edit_dist_capped(a, b, cap1),
        edit_dist_capped(a, b, cap1) > cap1 ==> edit_dist_capped(a, b, cap2) > cap1,
        (edit_dist_capped(a, b, cap1) == 0) == (a == b),
{
    lemma_edit_dist_capped_exact(a, b, cap1);
    lemma_edit_dist_capped_exact(b, a, cap1);
    lemma_edit_dist_capped_exact(a, b, cap2);
    lemma_osa_symmetric(a, b, a.len() as int, b.len() as int);
    crate::predict::lemma_osa_nonneg(a, b, a.len() as int, b.len() as int);
    if a == b {
        lemma_osa_same(a, a.len() as int);
    }
    if edit_dist_capped(a, b, cap1) == 0 {
        crate::predict::lemma_osa_zero(a, b, a.len() as int, b.len() as int);
        assert(a =~= b);
    }
}

proof fn lemma_row_min_le_final(a: Seq<u32>, b: Seq<u32>, i: int)
    requires
        1 <= i <= a.len(),
        1 <= b.len(),
    ensures
        row_min(a, b, i) <= row_min(a, b, a.len() as int),
    decreases a.len() - i,
{
    if i < a.len() {
        lemma_row_min_le_final(a, b, i + 1);
        lemma_row_min_monotone(a, b, i + 1);
    }
}

/// Distance table index of cell (`i`, `j`).
spec fn cell(i: int, j: int) -> int {
    i * 34 + j
}

/// Optimal-string-alignment distance with a cap, on character codes; see
/// `edit_dist_capped`.
pub fn edit_dist_cap_codes(a: &[u32], b: &[u32], cap: i32) -> (r: i32)
    requires
        cap < i32::MAX,
    ensures
        r == edit_dist_capped(a@, b@, cap as int),
{
    let n = a.len();
    let m = b.len();
    if n > 32 || m > 32 {
        return cap + 1;
    }
    let diff: i32 = if n >= m { (n - m) as i32 } else { (m - n) as i32 };
    if diff > cap {
        return cap + 1;
    }
    let mut d: Vec<i32> = Vec::new();
    let mut c: usize = 0;
    while c < 1156
        invariant
            c <= 1156,
            d@.len() == c,
        decreases 1156 - c,
    {
        d.push(0);
        c = c + 1;
    }
    let mut i: usize = 0;
    while i <= n
        invariant
            n <= 32,
            m <= 32,
            d@.len() == 1156,
            i <= n + 1,
            forall|ii: int| 0 <= ii < i ==> #[trigger] d@[cell(ii, 0)] == ii,
        decreases n + 1 - i,
    {
        d.set(i * 34, i as i32);
        i = i + 1;
    }
    let mut j: usize = 0;
    while j <= m
        invariant
            n <= 32,
            m <= 32,
            d@.len() == 1156,
            j <= m + 1,
            forall|ii: int| 0 <= ii <= n ==> #[trigger] d@[cell(ii, 0)] == ii,
            forall|jj: int| 0 <= jj < j ==> #[trigger] d@[cell(0, jj)] == jj,
        decreases m + 1 - j,
    {
        d.set(j, j as i32);
        j = j + 1;
    }
    let ghost ga = a@;
    let ghost gb = b@;
    assert forall|jj: int| 0 <= jj <= m implies #[trigger] d@[cell(0, jj)] == osa(ga, gb, 0, jj) by {}
    let mut i: usize = 1;
    while i <= n
        invariant
            n == a@.len(),
            m == b@.len(),
            ga == a@,
            gb == b@,
            n <= 32,
            m <= 32,
            cap < i32::MAX,
            d@.len() == 1156,
            1 <= i <= n + 1,
            forall|ii: int, jj: int|
                0 <= ii < i && 0 <= jj <= m ==> #[trigger] d@[cell(ii, jj)] == osa(ga, gb, ii, jj),
            forall|ii: int| 0 <= ii <= n ==> #[trigger] d@[cell(ii, 0)] == ii,
            forall|ii: int| 1 <= ii < i ==> #[trigger] row_min(ga, gb, ii) <= cap,
            m >= 1 || i == 1,
        decreases n + 1 - i,
    {
        let mut best: i32 = cap + 1;
        let mut j: usize = 1;
        while j <= m
            invariant
                n == a@.len(),
                m == b@.len(),
                ga == a@,
                gb == b@,
                n <= 32,
                m <= 32,
                cap < i32::MAX,
                d@.len() == 1156,
                1 <= i <= n,
                1 <= j <= m + 1,
                forall|ii: int, jj: int|
                    0 <= ii < i && 0 <= jj <= m ==> #[trigger] d@[cell(ii, jj)] == osa(ga, gb, ii, jj),
                forall|jj: int| 0 <= jj < j ==> #[trigger] d@[cell(i as int, jj)] == osa(ga, gb, i as int, jj),
                forall|ii: int| 0 <= ii <= n ==> #[trigger] d@[cell(ii, 0)] == ii,
                j == 1 ==> best == cap + 1,
                j > 1 ==> best == (if row_min_upto(ga, gb, i as int, j - 1) < cap + 1 {
                    row_min_upto(ga, gb, i as int, j - 1)
                } else {
                    cap + 1
                }),
            decreases m + 1 - j,
        {
            proof {
                lemma_osa_bounds(ga, gb, i - 1, j as int);
                lemma_osa_bounds(ga, gb, i as int, j - 1);
                lemma_osa_bounds(ga, gb, i - 1, j - 1);
                assert(d@[cell(i - 1, j as int)] == osa(ga, gb, i - 1, j as int));
                assert(d@[cell(i as int, j - 1)] == osa(ga, gb, i as int, j - 1));
                assert(d@[cell(i - 1, j - 1)] == osa(ga, gb, i - 1, j - 1));
            }
            let cost: i32 = if a[i - 1] == b[j - 1] { 0 } else { 1 };
            let mut v = d[(i - 1) * 34 + j] + 1;
            let wv = d[i * 34 + j - 1] + 1;
            if wv < v {
                v = wv;
            }
            let sv = d[(i - 1) * 34 + j - 1] + cost;
            if sv < v {
                v = sv;
            }
            if i > 1 && j > 1 && a[i - 1] == b[j - 2] && a[i - 2] == b[j - 1] {
                proof {
                    lemma_osa_bounds(ga, gb, i - 2, j - 2);
                    assert(d@[cell(i - 2, j - 2)] == osa(ga, gb, i - 2, j - 2));
                }
                let tv = d[(i - 2) * 34 + j - 2] + 1;
                if tv < v {
                    v = tv;
                }
            }
            proof {
                assert(v == osa(ga, gb, i as int, j as int));
            }
            d.set(i * 34 + j, v);
            if v < best {
                best = v;
            }
            proof {
                assert forall|ii: int, jj: int|
                    0 <= ii < i && 0 <= jj <= m implies #[trigger] d@[cell(ii, jj)] == osa(ga, gb, ii, jj) by {
                    assert(cell(ii, jj) != cell(i as int, j as int));
                }
                assert forall|ii: int| 0 <= ii <= n implies #[trigger] d@[cell(ii, 0)] == ii by {
                    assert(cell(ii, 0) != cell(i as int, j as int));
                }
            }
            j = j + 1;
        }
        if best > cap {
            proof {
                if m >= 1 {
                    assert(row_min(ga, gb, i as int) > cap);
                }
            }
            return cap + 1;
        }
        proof {
            assert(m >= 1);
            assert(row_min(ga, gb, i as int) <= cap);
        }
        i = i + 1;
    }
    proof {
        if n >= 1 {
            assert(m >= 1);
            assert(!cap_exceeded(ga, gb, cap as int));
        }
        assert(d@[cell(n as int, m as int)] == osa(ga, gb, n as int, m as int));
    }
    d[n * 34 + m]
}

/// The character codes of a string.
pub open spec fn char_codes(s: Seq<char>) -> Seq<u32> {
    s.map_values(|c: char| c as u32)
}

/// Capped edit distance between two strings (see `edit_dist_capped`): the exact
/// distance when it is within `cap`, and a value above `cap` otherwise.
pub fn edit_dist_cap(a: &str, b: &str, cap: i32) -> (r: i32)
    requires
        cap < i32::MAX,
    ensures
        r == edit_dist_capped(char_codes(a@), char_codes(b@), cap as int),
{
    let n = a.unicode_len();
    let m = b.unicode_len();
    if n > 32 || m > 32 {
        return cap + 1;
    }
    let av = str_codes(a);
    let bv = str_codes(b);
    edit_dist_cap_codes(av.as_slice(), bv.as_slice(), cap)
}

/// The character codes of a string.
pub fn str_codes(s: &str) -> (v: Vec<u32>)
    ensures
        v@ == char_codes(s@),
{
    let n = s.unicode_len();
    let mut v: Vec<u32> = Vec::new();
    let mut i: usize = 0;
    while i < n
        invariant
            n == s@.len(),
            i <= n,
            v@ == char_codes(s@).take(i as int),
        decreases n - i,
    {
        let c = s.get_char(i);
        v.push(c as u32);
        proof {
            assert(char_codes(s@).take(i + 1) =~= char_codes(s@).take(i as int).push(c as u32));
        }
        i = i + 1;
    }
    assert(char_codes(s@).take(n as int) =~= char_codes(s@));
    v
}

// ---------------------------------------------------------------------------
// Bigram tables
// ---------------------------------------------------------------------------

/// One bigram record: the dictionary index of a word and of a word that often follows it.
#[derive(Clone, Copy, Debug)]
pub struct BigramRec {
    pub prev: u16,
    pub next: u16,
}

/// Little-endian 16-bit value at byte offset `k`.
pub open spec fn le_u16(data: Seq<u8>, k: int) -> int {
    data[k] + 256 * data[k + 1]
}

/// Record `i` of a bigram file: two little-endian 16-bit indices.
pub open spec fn bigram_rec_at(data: Seq<u8>, i: int) -> BigramRec {
    BigramRec { prev: le_u16(data, 4 * i) as u16, next: le_u16(data, 4 * i + 2) as u16 }
}

/// Record `i` names an index that no dictionary can hold.
pub open spec fn bad_bigram_rec(data: Seq<u8>, i: int) -> bool {
    le_u16(data, 4 * i) >= 60000 || le_u16(data, 4 * i + 2) >= 60000
}

/// The bigram table that a file describes: empty when the file is empty, its length is
/// not a multiple of 4, or any index is 60000 or more; otherwise one record per 4 bytes.
pub open spec fn bigram_table(data: Seq<u8>) -> Seq<BigramRec> {
    if data.len() == 0 || data.len() % 4 != 0 {
        seq![]
    } else if exists|i: int| 0 <= i < data.len() / 4 && #[trigger] bad_bigram_rec(data, i) {
        seq![]
    } else {
        Seq::new((data.len() / 4) as nat, |i: int| bigram_rec_at(data, i))
    }
}

/// Reads a bigram file (see `bigram_table`).
pub fn load_bigram(data: &[u8]) -> (out: Vec<BigramRec>)
    ensures
        out@ == bigram_table(data@),
{
    let len = data.len();
    if len == 0 || len % 4 != 0 {
        return Vec::new();
    }
    let n = len / 4;
    let mut out: Vec<BigramRec> = Vec::new();
    let mut i: usize = 0;
    while i < n
        invariant
            len == data@.len(),
            len % 4 == 0,
            len > 0,
            n == len / 4,
            i <= n,
            out@ == Seq::new(i as nat, |k: int| bigram_rec_at(data@, k)),
            forall|k: int| 0 <= k < i ==> !#[trigger] bad_bigram_rec(data@, k),
        decreases n - i,
    {
        let prev: u16 = (data[i * 4] as u16) + (data[i * 4 + 1] as u16) * 256;
        let next: u16 = (data[i * 4 + 2] as u16) + (data[i * 4 + 3] as u16) * 256;
        if prev >= 60000 || next >= 60000 {
            proof {
                assert(bad_bigram_rec(data@, i as int));
            }
            return Vec::new();
        }
        out.push(BigramRec { prev, next });
        proof {
            assert(out@ =~= Seq::new((i + 1) as nat, |k: int| bigram_rec_at(data@, k)));
        }
        i = i + 1;
    }
    out
}

/// The table lists records in non-decreasing order of their first index.
pub open spec fn sorted_by_prev(t: Seq<BigramRec>) -> bool {
    forall|i: int, j: int| 0 <= i <= j < t.len() ==> #[trigger] t[i].prev <= #[trigger] t[j].prev
}

/// In table order, the follower indices below `dlen` of the records among the first `k`
/// whose first index is `p`.
pub open spec fn followers_upto(t: Seq<BigramRec>, k: int, p: int, dlen: int) -> Seq<u32>
    decreases k,
{
    if k <= 0 {
        seq![]
    } else {
        let r = followers_upto(t, k - 1, p, dlen);
        if t[k - 1].prev == p && t[k - 1].next < dlen {
            r.push(t[k - 1].next as u32)
        } else {
            r
        }
    }
}

/// The up to 8 words that most often follow word `p`: the first 8 followers of `p`
/// with an index below `dlen`, in table order.
pub open spec fn bigram_followers(t: Seq<BigramRec>, p: int, dlen: int) -> Seq<u32> {
    let all = followers_upto(t, t.len() as int, p, dlen);
    if all.len() <= 8 {
        all
    } else {
        all.take(8)
    }
}

proof fn lemma_followers_prefix(t: Seq<BigramRec>, a: int, b: int, p: int, dlen: int)
    requires
        0 <= a <= b,
    ensures
        followers_upto(t, a, p, dlen).len() <= followers_upto(t, b, p, dlen).len(),
        followers_upto(t, b, p, dlen).take(followers_upto(t, a, p, dlen).len() as int)
            == followers_upto(t, a, p, dlen),
    decreases b - a,
{
    if a < b {
        lemma_followers_prefix(t, a, b - 1, p, dlen);
        let fa = followers_upto(t, a, p, dlen);
        let fb1 = followers_upto(t, b - 1, p, dlen);
        let fb = followers_upto(t, b, p, dlen);
        assert(fb.take(fa.len() as int) =~= fb1.take(fa.len() as int));
    } else {
        assert(followers_upto(t, b, p, dlen).take(followers_upto(t, a, p, dlen).len() as int)
            =~= followers_upto(t, a, p, dlen));
    }
}

proof fn lemma_followers_none(t: Seq<BigramRec>, a: int, b: int, p: int, dlen: int)
    requires
        0 <= a <= b <= t.len(),
        forall|k: int| a <= k < b ==> #[trigger] t[k].prev != p,
    ensures
        followers_upto(t, b, p, dlen) == followers_upto(t, a, p, dlen),
    decreases b - a,
{
    if a < b {
        lemma_followers_none(t, a, b - 1, p, dlen);
    }
}

proof fn lemma_followers_elems(t: Seq<BigramRec>, k: int, p: int, dlen: int, x: int)
    requires
        0 <= k <= t.len(),
        0 <= x < followers_upto(t, k, p, dlen).len(),
    ensures
        followers_upto(t, k, p, dlen)[x] < dlen,
        exists|r: int|
            0 <= r < k && t[r].prev == p && #[trigger] t[r].next == followers_upto(t, k, p, dlen)[x],
    decreases k,
{
    let r = followers_upto(t, k - 1, p, dlen);
    if x < r.len() {
        lemma_followers_elems(t, k - 1, p, dlen, x);
        let w = choose|q: int| 0 <= q < k - 1 && t[q].prev == p && #[trigger] t[q].next == r[x];
        assert(t[w].next == followers_upto(t, k, p, dlen)[x]);
    } else {
        assert(t[k - 1].next == followers_upto(t, k, p, dlen)[x]);
    }
}

/// Where a bisection of `t[lo..hi]` for the first record whose first index is not below
/// `p` ends.  On a table sorted by first index this is the first record of `p` (or where
/// it would be).
pub open spec fn bisect_lower(t: Seq<BigramRec>, p: int, lo: int, hi: int) -> int
    decreases hi - lo,
{
    if lo >= hi {
        lo
    } else {
        let mid = lo + (hi - lo) / 2;
        if (t[mid].prev as int) < p {
            bisect_lower(t, p, mid + 1, hi)
        } else {
            bisect_lower(t, p, lo, mid)
        }
    }
}

/// Follower indices below `dlen` of the run of records of word `p` that starts at `i`.
pub open spec fn run_followers(t: Seq<BigramRec>, i: int, p: int, dlen: int) -> Seq<u32>
    decreases t.len() - i,
{
    if i < 0 || i >= t.len() || t[i].prev != p {
        seq![]
    } else {
        let rest = run_followers(t, i + 1, p, dlen);
        if t[i].next < dlen {
            seq![t[i].next as u32] + rest
        } else {
            rest
        }
    }
}

/// What a lookup of word `p` finds: the first 8 followers (below `dlen`) of the run of
/// records where the bisection ends.
pub open spec fn bigram_next_spec(t: Seq<BigramRec>, p: int, dlen: int) -> Seq<u32> {
    let run = run_followers(t, bisect_lower(t, p, 0, t.len() as int), p, dlen);
    if run.len() <= 8 {
        run
    } else {
        run.take(8)
    }
}

/// Looks up the words that follow dictionary word `prev_idx` in a table sorted by first
/// index (binary search for the first record of `prev_idx`, then at most 8 followers
/// whose index is below `dict_len`).  On any table the result holds at most 8 indices,
/// each below `dict_len` and the follower of some record of `prev_idx`.
pub fn bigram_lookup(table: &Vec<BigramRec>, dict_len: usize, prev_idx: i32) -> (out: Vec<u32>)
    requires
        prev_idx >= 0,
    ensures
        out@ == bigram_next_spec(table@, prev_idx as int, dict_len as int),
        sorted_by_prev(table@) ==> out@ == bigram_followers(table@, prev_idx as int, dict_len as int),
        out.len() <= 8,
        forall|x: int|
            0 <= x < out.len() ==> #[trigger] out@[x] < dict_len && exists|r: int|
                0 <= r < table.len() && table@[r].prev == prev_idx && table@[r].next == out@[x],
{
    let ghost t = table@;
    let ghost p = prev_idx as int;
    let ghost dlen = dict_len as int;
    let len = table.len();
    let mut lo: usize = 0;
    let mut hi: usize = len;
    while lo < hi
        invariant
            t == table@,
            len == t.len(),
            lo <= hi <= len,
            p == prev_idx,
            bisect_lower(t, p, lo as int, hi as int) == bisect_lower(t, p, 0, len as int),
            sorted_by_prev(t) ==> forall|k: int| 0 <= k < lo ==> #[trigger] t[k].prev < p,
            sorted_by_prev(t) ==> forall|k: int| hi <= k < len ==> #[trigger] t[k].prev >= p,
        decreases hi - lo,
    {
        let mid = lo + (hi - lo) / 2;
        if (table[mid].prev as i32) < prev_idx {
            lo = mid + 1;
        } else {
            hi = mid;
        }
    }
    let mut out: Vec<u32> = Vec::new();
    let mut first = lo;
    assert(run_followers(t, lo as int, p, dlen) =~= out@ + run_followers(t, first as int, p, dlen));
    proof {
        if sorted_by_prev(t) {
            lemma_followers_none(t, 0, lo as int, p, dlen);
            assert(followers_upto(t, 0, p, dlen) =~= seq![]);
        }
    }
    while first < len && (table[first].prev as i32) == prev_idx && out.len() < 8
        invariant
            t == table@,
            len == t.len(),
            lo <= first <= len,
            p == prev_idx,
            dlen == dict_len,
            out.len() <= 8,
            lo == bisect_lower(t, p, 0, len as int),
            run_followers(t, lo as int, p, dlen) == out@ + run_followers(t, first as int, p, dlen),
            sorted_by_prev(t) ==> forall|k: int| 0 <= k < lo ==> #[trigger] t[k].prev < p,
            sorted_by_prev(t) ==> forall|k: int| lo <= k < len ==> #[trigger] t[k].prev >= p,
            sorted_by_prev(t) ==> out@ == followers_upto(t, first as int, p, dlen),
            forall|x: int|
                0 <= x < out.len() ==> #[trigger] out@[x] < dict_len && exists|r: int|
                    0 <= r < len && t[r].prev == prev_idx && t[r].next == out@[x],
        decreases len - first,
    {
        let nx = table[first].next as u32;
        let ghost f = first as int;
        let ghost old_out = out@;
        first = first + 1;
        if (nx as usize) < dict_len {
            out.push(nx);
            assert(run_followers(t, lo as int, p, dlen) =~= out@ + run_followers(t, first as int, p, dlen));
            proof {
                assert forall|x: int|
                    0 <= x < out.len() implies #[trigger] out@[x] < dict_len && exists|r: int|
                        0 <= r < len && t[r].prev == prev_idx && t[r].next == out@[x] by {
                    if x == out.len() - 1 {
                        assert(t[f].next == out@[x]);
                    }
                }
            }
        } else {
            assert(run_followers(t, lo as int, p, dlen) =~= out@ + run_followers(t, first as int, p, dlen));
        }
    }
    proof {
        let run = run_followers(t, lo as int, p, dlen);
        if out.len() == 8 {
            assert(run.take(8) =~= out@);
        } else {
            assert(run_followers(t, first as int, p, dlen) =~= seq![]);
            assert(run =~= out@);
        }
        if sorted_by_prev(t) {
            let all = followers_upto(t, len as int, p, dlen);
            lemma_followers_prefix(t, first as int, len as int, p, dlen);
            if first < len && table@[first as int].prev != p {
                assert forall|k: int| first <= k < len implies #[trigger] t[k].prev != p by {
                    assert(t[first as int].prev <= t[k].prev);
                }
                lemma_followers_none(t, first as int, len as int, p, dlen);
            }
            if out.len() == 8 {
                assert(all.take(8) == out@);
            }
        }
    }
    out
}

} // verus!
