//! The word tracker: the word being typed, the suggestion strip, the misspelt-word
//! highlight and autocorrect.
use vstd::prelude::*;
use crate::dict::{
    BigramRec, MAXWLEN, MAX_DICT_WORDS, abs_diff, bigram_lookup, bigram_next_spec, bigram_table, dict_words, load_bigram, parse_dict, char_codes, str_codes,
    dict_word_ok, edit_dist_cap_codes, edit_dist_capped, lower_ascii, osa, osa_dist, words_view,
};

verus! {

// ---------------------------------------------------------------------------
// Matching typed units against dictionary words
// ---------------------------------------------------------------------------

/// Typed UTF-16 unit `u` matches dictionary byte `b`: `u` is ASCII and, lower-cased, is `b`.
pub open spec fn unit_matches(u: u16, b: u8) -> bool {
    u < 128 && lower_ascii(u as u8) == b
}

/// Dictionary word `w` starts with the typed word `buf` (ignoring ASCII case).
pub open spec fn has_prefix(w: Seq<u8>, buf: Seq<u16>) -> bool {
    buf.len() <= w.len() && forall|k: int| 0 <= k < buf.len() ==> unit_matches(buf[k], #[trigger] w[k])
}

/// In dictionary order, the words among the first `k` that start with `buf`.
pub open spec fn completions_upto(d: Seq<Seq<u8>>, buf: Seq<u16>, k: int) -> Seq<Seq<u8>>
    decreases k,
{
    if k <= 0 {
        seq![]
    } else {
        let r = completions_upto(d, buf, k - 1);
        if has_prefix(d[k - 1], buf) {
            r.push(d[k - 1])
        } else {
            r
        }
    }
}

/// At most the first `k` elements of `s`.
pub open spec fn first_n<A>(s: Seq<A>, k: int) -> Seq<A> {
    if s.len() <= k {
        s
    } else {
        s.take(k)
    }
}

/// The first three dictionary words that start with `buf`.
pub open spec fn completions(d: Seq<Seq<u8>>, buf: Seq<u16>) -> Seq<Seq<u8>> {
    first_n(completions_upto(d, buf, d.len() as int), 3)
}

/// Some dictionary word starts with `buf`.
pub open spec fn has_completion(d: Seq<Seq<u8>>, buf: Seq<u16>) -> bool {
    exists|i: int| 0 <= i < d.len() && #[trigger] has_prefix(d[i], buf)
}

/// The dictionary words at the given indices.
pub open spec fn words_at(d: Seq<Seq<u8>>, idx: Seq<u32>) -> Seq<Seq<u8>> {
    idx.map_values(|i: u32| d[i as int])
}

/// Membership in a list of words, as a predicate.
pub open spec fn in_words(nw: Seq<Seq<u8>>) -> spec_fn(Seq<u8>) -> bool {
    |w: Seq<u8>| nw.contains(w)
}

/// Non-membership in a list of words, as a predicate.
pub open spec fn not_in_words(nw: Seq<Seq<u8>>) -> spec_fn(Seq<u8>) -> bool {
    |w: Seq<u8>| !nw.contains(w)
}

/// Stable partition of `f`: the words that are in `nw` first, then the others.
pub open spec fn reorder(f: Seq<Seq<u8>>, nw: Seq<Seq<u8>>) -> Seq<Seq<u8>> {
    f.filter(in_words(nw)) + f.filter(not_in_words(nw))
}

/// Three suggestion slots holding `f` and empty slots after it.
pub open spec fn pad3(f: Seq<Seq<u8>>) -> Seq<Seq<u8>> {
    Seq::new(3, |i: int| if i < f.len() { f[i] } else { Seq::<u8>::empty() })
}

/// The character that a typed unit stands for: a surrogate unit reads as '?'.
pub open spec fn typed_code(u: u16) -> u32 {
    if 0xD800 <= u <= 0xDFFF {
        63
    } else {
        u as u32
    }
}

/// The typed word with ASCII upper case lowered, as character codes.
pub open spec fn low_codes(buf: Seq<u16>) -> Seq<u32> {
    buf.map_values(|u: u16| if 65 <= u <= 90 { (u + 32) as u32 } else { typed_code(u) })
}

/// A dictionary word as character codes.
pub open spec fn word_codes(w: Seq<u8>) -> Seq<u32> {
    w.map_values(|b: u8| b as u32)
}

/// Index of the first word at or after `k` whose characters are `codes`, or -1.
pub open spec fn find_word_from(d: Seq<Seq<u8>>, codes: Seq<u32>, k: int) -> int
    decreases d.len() - k,
{
    if k < 0 || k >= d.len() {
        -1
    } else if word_codes(d[k]) == codes {
        k
    } else {
        find_word_from(d, codes, k + 1)
    }
}

/// The dictionary holds a word whose characters are `codes`.
pub open spec fn in_dict(d: Seq<Seq<u8>>, codes: Seq<u32>) -> bool {
    exists|i: int| 0 <= i < d.len() && word_codes(#[trigger] d[i]) == codes
}

/// A typed unit that continues a word: its low byte is an ASCII letter or digit, or it is
/// the apostrophe.
pub open spec fn is_word_unit(ch: u16) -> bool {
    let c = (ch % 256) as u8;
    (48 <= c <= 57) || (65 <= c <= 90) || (97 <= c <= 122) || ch == 39
}

// ---------------------------------------------------------------------------
// The model
// ---------------------------------------------------------------------------

/// What a `Predictor` holds, as mathematical values.
#[verifier::ext_equal]
pub struct PredModel {
    pub dict: Seq<Seq<Seq<u8>>>,
    pub bigram: Seq<Seq<BigramRec>>,
    pub lang: int,
    pub predict_on: bool,
    pub autocorrect: bool,
    pub highlight_on: bool,
    pub bigram_on: bool,
    pub misspelt: bool,
    pub auto_active: bool,
    pub auto_trail: bool,
    pub auto_corr_len: int,
    pub auto_orig: Seq<u16>,
    pub word_buf: Seq<u16>,
    pub sugg: Seq<Seq<u8>>,
    pub prev_word: Seq<u16>,
    pub prev_idx: int,
    pub sugg_row_on: int,
}

/// The dictionary of the current language.
pub open spec fn cur_dict(m: PredModel) -> Seq<Seq<u8>> {
    m.dict[m.lang]
}

pub open spec fn dict_avail_m(m: PredModel, lang: int) -> bool {
    m.dict[lang].len() > 0
}

pub open spec fn bigram_avail_m(m: PredModel, lang: int) -> bool {
    m.bigram[lang].len() > 0 && dict_avail_m(m, lang)
}

/// The words that may follow dictionary word `prev_idx` (indices into the current dictionary).
pub open spec fn bigram_next_m(m: PredModel, prev_idx: int) -> Seq<u32> {
    if prev_idx < 0 || !bigram_avail_m(m, m.lang) {
        seq![]
    } else {
        bigram_next_spec(m.bigram[m.lang], prev_idx, cur_dict(m).len() as int)
    }
}

/// The suggestion strip has something to show.
pub open spec fn sugg_row_has_content_m(m: PredModel) -> bool {
    m.sugg[0].len() > 0 || m.sugg[1].len() > 0 || m.sugg[2].len() > 0 || (m.highlight_on
        && m.misspelt && m.word_buf.len() > 0)
}

/// The suggestion strip is shown.
pub open spec fn sugg_row_on_m(m: PredModel) -> bool {
    (m.predict_on || m.highlight_on) && dict_avail_m(m, m.lang) && sugg_row_has_content_m(m)
}

/// Records whether the strip is shown.
pub open spec fn sync_row(m: PredModel) -> PredModel {
    PredModel { sugg_row_on: if sugg_row_on_m(m) { 1 } else { 0 }, ..m }
}

/// The suggestions for the current state.
///
/// With prediction and highlighting off, or no dictionary, the strip is cleared.  With no
/// word typed, up to three words that follow the previous word are offered (if bigrams are
/// on); with nothing to offer the strip keeps what it showed.  While typing, the first three
/// dictionary words that start with the typed word are offered, those that follow the
/// previous word first; with none, a word of two or more letters is marked misspelt and the
/// strip keeps its words.  With prediction off, only the misspelt mark is computed.
#[verifier::opaque]
pub open spec fn compute_sugg_spec(m: PredModel) -> PredModel {
    let d = cur_dict(m);
    let buf = m.word_buf;
    if !(m.predict_on || m.highlight_on) || d.len() == 0 {
        sync_row(PredModel { sugg: pad3(seq![]), misspelt: false, ..m })
    } else if buf.len() == 0 {
        let nw = first_n(words_at(d, bigram_next_m(m, m.prev_idx)), 3);
        let use_bigram = m.predict_on && m.bigram_on && m.prev_idx >= 0 && nw.len() > 0;
        sync_row(PredModel { misspelt: false, sugg: if use_bigram { pad3(nw) } else { m.sugg }, ..m })
    } else if m.predict_on {
        let f0 = completions(d, buf);
        let f = if m.bigram_on && m.prev_idx >= 0 && f0.len() > 1 {
            reorder(f0, words_at(d, bigram_next_m(m, m.prev_idx)))
        } else {
            f0
        };
        if f.len() > 0 {
            sync_row(PredModel { sugg: pad3(f), misspelt: false, ..m })
        } else {
            sync_row(PredModel { misspelt: if buf.len() >= 2 { true } else { m.misspelt }, ..m })
        }
    } else {
        sync_row(PredModel { misspelt: !has_completion(d, buf) && buf.len() >= 2, ..m })
    }
}

/// Ends the typed word: it becomes the previous word (with its dictionary index, or -1),
/// the typed word is cleared and the suggestions recomputed.
pub open spec fn word_commit_spec(m: PredModel) -> PredModel {
    let m1 = if m.word_buf.len() > 0 {
        PredModel {
            prev_word: m.word_buf,
            prev_idx: find_word_from(cur_dict(m), low_codes(m.word_buf), 0),
            ..m
        }
    } else {
        m
    };
    compute_sugg_spec(PredModel { word_buf: seq![], ..m1 })
}

/// One typed unit: a word unit extends the word (up to 31 units), anything else ends it.
pub open spec fn word_char_spec(m: PredModel, ch: u16) -> PredModel {
    if is_word_unit(ch) {
        let buf = if m.word_buf.len() < MAXWLEN { m.word_buf.push(ch) } else { m.word_buf };
        compute_sugg_spec(PredModel { word_buf: buf, ..m })
    } else {
        word_commit_spec(m)
    }
}

/// The state after typing each unit of `s` in turn.
pub open spec fn type_units(m: PredModel, s: Seq<u16>) -> PredModel
    decreases s.len(),
{
    if s.len() == 0 {
        m
    } else {
        word_char_spec(type_units(m, s.drop_last()), s.last())
    }
}

pub open spec fn word_chop_spec(m: PredModel) -> PredModel {
    let buf = if m.word_buf.len() > 0 { m.word_buf.drop_last() } else { m.word_buf };
    compute_sugg_spec(PredModel { word_buf: buf, ..m })
}

pub open spec fn word_clear_spec(m: PredModel) -> PredModel {
    compute_sugg_spec(PredModel { word_buf: seq![], ..m })
}

// ---------------------------------------------------------------------------
// Autocorrect
// ---------------------------------------------------------------------------

/// The typed word holds a digit, or an upper-case letter after its first unit.
pub open spec fn autocorrect_blocked(buf: Seq<u16>) -> bool {
    exists|i: int| 0 <= i < buf.len() && (48 <= #[trigger] buf[i] <= 57 || (i > 0 && 65 <= buf[i] <= 90))
}

/// Largest distance that autocorrect accepts for a word of `n` units.
pub open spec fn max_dist(n: int) -> int {
    if n >= 6 { 2 } else { 1 }
}

/// Dictionary word `w` is close enough in length to a typed word of `n` units.
pub open spec fn len_eligible(w: Seq<u8>, n: int, md: int) -> bool {
    abs_diff(w.len() as int, n) <= md
}

pub open spec fn word_dist(w: Seq<u8>, low: Seq<u32>, md: int) -> int {
    edit_dist_capped(low, word_codes(w), md)
}

/// Smallest capped distance from `low` to a length-eligible word among the first `k`
/// (999 when there is none).
pub open spec fn min_dist_upto(d: Seq<Seq<u8>>, low: Seq<u32>, md: int, k: int) -> int
    decreases k,
{
    if k <= 0 {
        999
    } else {
        let r = min_dist_upto(d, low, md, k - 1);
        let w = d[k - 1];
        if len_eligible(w, low.len() as int, md) && word_dist(w, low, md) < r {
            word_dist(w, low, md)
        } else {
            r
        }
    }
}

/// First index from `k` on of a length-eligible word at distance `target`, or -1.
pub open spec fn first_at_dist(d: Seq<Seq<u8>>, low: Seq<u32>, md: int, target: int, k: int) -> int
    decreases d.len() - k,
{
    if k < 0 || k >= d.len() {
        -1
    } else if len_eligible(d[k], low.len() as int, md) && word_dist(d[k], low, md) == target {
        k
    } else {
        first_at_dist(d, low, md, target, k + 1)
    }
}

/// First bigram follower (from position `j` of `nx`) that is a length-eligible word at
/// distance `target`, or -1.
pub open spec fn first_follower_at_dist(
    d: Seq<Seq<u8>>,
    nx: Seq<u32>,
    low: Seq<u32>,
    md: int,
    target: int,
    j: int,
) -> int
    decreases nx.len() - j,
{
    if j < 0 || j >= nx.len() {
        -1
    } else if len_eligible(d[nx[j] as int], low.len() as int, md) && word_dist(
        d[nx[j] as int],
        low,
        md,
    ) == target {
        nx[j] as int
    } else {
        first_follower_at_dist(d, nx, low, md, target, j + 1)
    }
}

/// The dictionary index autocorrect replaces the typed word with, if any.
///
/// Autocorrect works on words of 3 to 31 units with no digit and no capital after the first
/// letter, that are not in the dictionary.  Among the words whose length differs by at most
/// the allowed distance (1, or 2 for words of 6 or more units), it takes those at the
/// smallest distance, provided that distance is allowed: a word that often follows the
/// previous word is preferred, else the first in dictionary order.
#[verifier::opaque]
pub open spec fn autocorrect_choice(m: PredModel) -> Option<int> {
    let d = cur_dict(m);
    let buf = m.word_buf;
    let n = buf.len() as int;
    let low = low_codes(buf);
    let md = max_dist(n);
    if !m.autocorrect || d.len() == 0 || n < 3 || n > 31 || autocorrect_blocked(buf) || in_dict(
        d,
        low,
    ) {
        None
    } else {
        let best = min_dist_upto(d, low, md, d.len() as int);
        let from_bigram = if m.bigram_on && m.prev_idx >= 0 {
            first_follower_at_dist(d, bigram_next_m(m, m.prev_idx), low, md, best, 0)
        } else {
            -1
        };
        let choice = if from_bigram >= 0 { from_bigram } else { first_at_dist(d, low, md, best, 0) };
        if choice < 0 || best > md {
            None
        } else {
            Some(choice)
        }
    }
}

/// The replacement word: the dictionary word, capitalised when the typed word starts with
/// a capital and the word with a lower-case letter.
#[verifier::opaque]
pub open spec fn corrected_word(w: Seq<u8>, buf: Seq<u16>) -> Seq<u16> {
    let units = w.map_values(|b: u8| b as u16);
    if buf.len() > 0 && 65 <= buf[0] <= 90 && w.len() > 0 && 97 <= w[0] <= 122 {
        units.update(0, (w[0] - 32) as u16)
    } else {
        units
    }
}

/// The state after autocorrect replaced the typed word with `out`: the typed word is kept
/// for undo, the word tracker forgets it and follows the replacement now on screen, and the
/// correction is armed.
#[verifier::opaque]
pub open spec fn autocorrect_state(m: PredModel, out: Seq<u16>, trail: bool) -> PredModel {
    let m1 = PredModel { auto_orig: m.word_buf, auto_corr_len: out.len() as int, word_buf: seq![], ..m };
    PredModel { auto_trail: trail, auto_active: true, ..type_units(m1, out) }
}

// ---------------------------------------------------------------------------
// Lemmas
// ---------------------------------------------------------------------------

pub(crate) proof fn lemma_sugg_keeps_buf(m: PredModel)
    ensures
        compute_sugg_spec(m).word_buf == m.word_buf,
{
    reveal(compute_sugg_spec);
}

/// Typing word units onto a word with room for them extends it by them.
pub(crate) proof fn lemma_type_word_units(m: PredModel, u: Seq<u16>)
    requires
        m.word_buf.len() + u.len() <= MAXWLEN,
        forall|k: int| 0 <= k < u.len() ==> is_word_unit(#[trigger] u[k]),
    ensures
        type_units(m, u).word_buf == m.word_buf + u,
    decreases u.len(),
{
    if u.len() == 0 {
        assert(m.word_buf + u =~= m.word_buf);
    } else {
        let u1 = u.drop_last();
        assert forall|k: int| 0 <= k < u1.len() implies is_word_unit(#[trigger] u1[k]) by {
            assert(u1[k] == u[k]);
        }
        lemma_type_word_units(m, u1);
        let m1 = type_units(m, u1);
        assert(is_word_unit(u[u.len() - 1]));
        lemma_sugg_keeps_buf(PredModel { word_buf: m1.word_buf.push(u.last()), ..m1 });
        assert(m.word_buf + u =~= (m.word_buf + u1).push(u.last()));
    }
}

/// Recomputing the suggestions touches neither the dictionaries nor the previous word.
pub(crate) proof fn lemma_sugg_keeps_context(m: PredModel)
    ensures
        compute_sugg_spec(m).dict == m.dict,
        compute_sugg_spec(m).lang == m.lang,
        compute_sugg_spec(m).prev_word == m.prev_word,
        compute_sugg_spec(m).prev_idx == m.prev_idx,
        compute_sugg_spec(m).auto_orig == m.auto_orig,
{
    reveal(compute_sugg_spec);
}

/// Typing word units touches neither the dictionaries nor the previous word.
proof fn lemma_word_units_keep_context(m: PredModel, u: Seq<u16>)
    requires
        forall|k: int| 0 <= k < u.len() ==> is_word_unit(#[trigger] u[k]),
    ensures
        type_units(m, u).dict == m.dict,
        type_units(m, u).lang == m.lang,
        type_units(m, u).prev_word == m.prev_word,
        type_units(m, u).prev_idx == m.prev_idx,
        type_units(m, u).auto_orig == m.auto_orig,
    decreases u.len(),
{
    if u.len() > 0 {
        let u1 = u.drop_last();
        assert forall|k: int| 0 <= k < u1.len() implies is_word_unit(#[trigger] u1[k]) by {
            assert(u1[k] == u[k]);
        }
        lemma_word_units_keep_context(m, u1);
        let m1 = type_units(m, u1);
        assert(is_word_unit(u[u.len() - 1]));
        let buf = if m1.word_buf.len() < MAXWLEN { m1.word_buf.push(u.last()) } else { m1.word_buf };
        lemma_sugg_keeps_context(PredModel { word_buf: buf, ..m1 });
    }
}

/// A corrected word, once ended by a unit that is not part of a word, becomes the previous
/// word as corrected, with the dictionary index of the correction: the next-word
/// suggestions follow the correction, not the typo.
pub proof fn lemma_corrected_word_is_previous(m: PredModel, out: Seq<u16>, trail: bool, ch: u16)
    requires
        0 < out.len() <= MAXWLEN,
        forall|k: int| 0 <= k < out.len() ==> is_word_unit(#[trigger] out[k]),
        !is_word_unit(ch),
    ensures
        word_char_spec(autocorrect_state(m, out, trail), ch).prev_word == out,
        word_char_spec(autocorrect_state(m, out, trail), ch).prev_idx
            == find_word_from(cur_dict(m), low_codes(out), 0),
        word_char_spec(autocorrect_state(m, out, trail), ch).word_buf.len() == 0,
{
    reveal(autocorrect_state);
    let m1 = PredModel { auto_orig: m.word_buf, auto_corr_len: out.len() as int, word_buf: seq![], ..m };
    lemma_type_word_units(m1, out);
    assert(m1.word_buf + out =~= out);
    lemma_word_units_keep_context(m1, out);
    let a = autocorrect_state(m, out, trail);
    assert(a.word_buf == out);
    let a1 = PredModel { prev_word: a.word_buf, prev_idx: find_word_from(cur_dict(a), low_codes(a.word_buf), 0), ..a };
    lemma_sugg_keeps_context(PredModel { word_buf: seq![], ..a1 });
    lemma_sugg_keeps_buf(PredModel { word_buf: seq![], ..a1 });
}

/// The replacement autocorrect types is a word the tracker can hold: word units only, and
/// no longer than a word.
pub(crate) proof fn lemma_corrected_units(w: Seq<u8>, buf: Seq<u16>)
    requires
        dict_word_ok(w),
    ensures
        corrected_word(w, buf).len() == w.len(),
        corrected_word(w, buf).len() <= MAXWLEN,
        forall|k: int| 0 <= k < corrected_word(w, buf).len() ==> is_word_unit(#[trigger] corrected_word(w, buf)[k]),
{
    reveal(corrected_word);
    let c = corrected_word(w, buf);
    assert forall|k: int| 0 <= k < c.len() implies is_word_unit(#[trigger] c[k]) by {
        assert(crate::dict::is_lower_word_byte(w[k]));
        assert(c[k] < 256);
        assert(c[k] % 256 == c[k]);
    }
}

/// After autocorrect replaced the typed word, the word tracker holds the replacement now on
/// screen, not the typed word; the typed word is kept only for undo.
pub proof fn lemma_correction_is_tracked(m: PredModel, out: Seq<u16>, trail: bool)
    requires
        out.len() <= MAXWLEN,
        forall|k: int| 0 <= k < out.len() ==> is_word_unit(#[trigger] out[k]),
    ensures
        autocorrect_state(m, out, trail).word_buf == out,
        autocorrect_state(m, out, trail).auto_orig == m.word_buf,
        autocorrect_state(m, out, trail).auto_active,
{
    reveal(autocorrect_state);
    let m1 = PredModel { auto_orig: m.word_buf, auto_corr_len: out.len() as int, word_buf: seq![], ..m };
    lemma_type_word_units(m1, out);
    crate::state::lemma_units_keep_undo(m1, out);
    assert(m1.word_buf + out =~= out);
}


pub(crate) proof fn lemma_osa_zero(a: Seq<u32>, b: Seq<u32>, i: int, j: int)
    requires
        0 <= i <= a.len(),
        0 <= j <= b.len(),
        osa(a, b, i, j) == 0,
    ensures
        i == j,
        forall|k: int| 0 <= k < i ==> a[k] == b[k],
    decreases i + j,
{
    if i > 0 && j > 0 {
        lemma_osa_nonneg(a, b, i - 1, j);
        lemma_osa_nonneg(a, b, i, j - 1);
        lemma_osa_nonneg(a, b, i - 1, j - 1);
        if i > 1 && j > 1 {
            lemma_osa_nonneg(a, b, i - 2, j - 2);
        }
        lemma_osa_zero(a, b, i - 1, j - 1);
    }
}

pub(crate) proof fn lemma_osa_nonneg(a: Seq<u32>, b: Seq<u32>, i: int, j: int)
    ensures
        osa(a, b, i, j) >= 0,
    decreases i + j,
{
    if i > 0 && j > 0 {
        lemma_osa_nonneg(a, b, i - 1, j);
        lemma_osa_nonneg(a, b, i, j - 1);
        lemma_osa_nonneg(a, b, i - 1, j - 1);
        if i > 1 && j > 1 {
            lemma_osa_nonneg(a, b, i - 2, j - 2);
        }
    }
}

/// A word that is not the typed word is at capped distance at least 1 from it.
proof fn lemma_dist_pos(low: Seq<u32>, w: Seq<u8>, md: int)
    requires
        md >= 1,
        word_codes(w) != low,
    ensures
        word_dist(w, low, md) >= 1,
{
    let b = word_codes(w);
    lemma_osa_nonneg(low, b, low.len() as int, b.len() as int);
    if osa_dist(low, b) == 0 {
        lemma_osa_zero(low, b, low.len() as int, b.len() as int);
        assert(low =~= b);
    }
}

proof fn lemma_completions_prefix(d: Seq<Seq<u8>>, buf: Seq<u16>, a: int, b: int)
    requires
        0 <= a <= b,
    ensures
        completions_upto(d, buf, a).len() <= completions_upto(d, buf, b).len(),
        completions_upto(d, buf, b).take(completions_upto(d, buf, a).len() as int)
            == completions_upto(d, buf, a),
    decreases b - a,
{
    if a < b {
        lemma_completions_prefix(d, buf, a, b - 1);
        let fa = completions_upto(d, buf, a);
        let fb1 = completions_upto(d, buf, b - 1);
        let fb = completions_upto(d, buf, b);
        assert(fb.take(fa.len() as int) =~= fb1.take(fa.len() as int));
    } else {
        assert(completions_upto(d, buf, b).take(completions_upto(d, buf, a).len() as int)
            =~= completions_upto(d, buf, a));
    }
}


proof fn lemma_min_dist_stable(d: Seq<Seq<u8>>, low: Seq<u32>, md: int, k: int, j: int)
    requires
        0 <= k <= j <= d.len(),
        forall|i: int|
            k <= i < j && len_eligible(#[trigger] d[i], low.len() as int, md) ==> word_dist(d[i], low, md)
                >= min_dist_upto(d, low, md, k),
    ensures
        min_dist_upto(d, low, md, j) == min_dist_upto(d, low, md, k),
    decreases j - k,
{
    if k < j {
        lemma_min_dist_stable(d, low, md, k, j - 1);
    }
}

proof fn lemma_first_at_dist(d: Seq<Seq<u8>>, low: Seq<u32>, md: int, target: int, k: int, bi: int)
    requires
        0 <= k <= bi < d.len(),
        len_eligible(d[bi], low.len() as int, md) && word_dist(d[bi], low, md) == target,
        forall|j: int|
            k <= j < bi ==> !(len_eligible(#[trigger] d[j], low.len() as int, md) && word_dist(d[j], low, md)
                == target),
    ensures
        first_at_dist(d, low, md, target, k) == bi,
    decreases bi - k,
{
    if k < bi {
        lemma_first_at_dist(d, low, md, target, k + 1, bi);
    }
}

/// Follower `j` is a length-eligible word at distance `target`.
pub open spec fn follower_fits(d: Seq<Seq<u8>>, nx: Seq<u32>, low: Seq<u32>, md: int, target: int, j: int) -> bool {
    len_eligible(d[nx[j] as int], low.len() as int, md) && word_dist(d[nx[j] as int], low, md) == target
}

proof fn lemma_first_follower(
    d: Seq<Seq<u8>>,
    nx: Seq<u32>,
    low: Seq<u32>,
    md: int,
    target: int,
    j: int,
    j0: int,
)
    requires
        0 <= j <= j0 < nx.len(),
        follower_fits(d, nx, low, md, target, j0),
        forall|jj: int| j <= jj < j0 ==> !#[trigger] follower_fits(d, nx, low, md, target, jj),
    ensures
        first_follower_at_dist(d, nx, low, md, target, j) == nx[j0] as int,
    decreases j0 - j,
{
    if j < j0 {
        assert(!follower_fits(d, nx, low, md, target, j));
        lemma_first_follower(d, nx, low, md, target, j + 1, j0);
    }
}

proof fn lemma_no_follower(d: Seq<Seq<u8>>, nx: Seq<u32>, low: Seq<u32>, md: int, target: int, j: int)
    requires
        0 <= j <= nx.len(),
        forall|jj: int| j <= jj < nx.len() ==> !#[trigger] follower_fits(d, nx, low, md, target, jj),
    ensures
        first_follower_at_dist(d, nx, low, md, target, j) == -1,
    decreases nx.len() - j,
{
    if j < nx.len() {
        assert(!follower_fits(d, nx, low, md, target, j));
        lemma_no_follower(d, nx, low, md, target, j + 1);
    }
}

proof fn lemma_find_word(d: Seq<Seq<u8>>, codes: Seq<u32>, k: int, i: int)
    requires
        0 <= k <= i < d.len(),
        word_codes(d[i]) == codes,
        forall|j: int| k <= j < i ==> word_codes(#[trigger] d[j]) != codes,
    ensures
        find_word_from(d, codes, k) == i,
    decreases i - k,
{
    if k < i {
        lemma_find_word(d, codes, k + 1, i);
    }
}

proof fn lemma_find_word_none(d: Seq<Seq<u8>>, codes: Seq<u32>, k: int)
    requires
        0 <= k <= d.len(),
        forall|j: int| k <= j < d.len() ==> word_codes(#[trigger] d[j]) != codes,
    ensures
        find_word_from(d, codes, k) == -1,
    decreases d.len() - k,
{
    if k < d.len() {
        lemma_find_word_none(d, codes, k + 1);
    }
}

// ---------------------------------------------------------------------------
// Executable helpers on words
// ---------------------------------------------------------------------------

fn copy_bytes(v: &Vec<u8>) -> (r: Vec<u8>)
    ensures
        r@ == v@,
{
    let mut r: Vec<u8> = Vec::new();
    let mut i: usize = 0;
    while i < v.len()
        invariant
            i <= v.len(),
            r@ == v@.take(i as int),
        decreases v.len() - i,
    {
        r.push(v[i]);
        assert(v@.take(i + 1) =~= v@.take(i as int).push(v@[i as int]));
        i = i + 1;
    }
    assert(v@.take(v.len() as int) =~= v@);
    r
}

fn copy_units(v: &Vec<u16>) -> (r: Vec<u16>)
    ensures
        r@ == v@,
{
    let mut r: Vec<u16> = Vec::new();
    let mut i: usize = 0;
    while i < v.len()
        invariant
            i <= v.len(),
            r@ == v@.take(i as int),
        decreases v.len() - i,
    {
        r.push(v[i]);
        assert(v@.take(i + 1) =~= v@.take(i as int).push(v@[i as int]));
        i = i + 1;
    }
    assert(v@.take(v.len() as int) =~= v@);
    r
}

fn bytes_equal(a: &Vec<u8>, b: &Vec<u8>) -> (r: bool)
    ensures
        r == (a@ == b@),
{
    if a.len() != b.len() {
        return false;
    }
    let mut i: usize = 0;
    while i < a.len()
        invariant
            a.len() == b.len(),
            i <= a.len(),
            forall|k: int| 0 <= k < i ==> a@[k] == b@[k],
        decreases a.len() - i,
    {
        if a[i] != b[i] {
            return false;
        }
        i = i + 1;
    }
    assert(a@ =~= b@);
    true
}

/// Whether dictionary word `w` starts with the typed word `buf`.
fn word_has_prefix(w: &Vec<u8>, buf: &Vec<u16>) -> (r: bool)
    ensures
        r == has_prefix(w@, buf@),
{
    if buf.len() > w.len() {
        return false;
    }
    let mut k: usize = 0;
    while k < buf.len()
        invariant
            k <= buf.len() <= w.len(),
            forall|kk: int| 0 <= kk < k ==> unit_matches(buf@[kk], #[trigger] w@[kk]),
        decreases buf.len() - k,
    {
        let u = buf[k];
        if u >= 128 {
            assert(!unit_matches(buf@[k as int], w@[k as int]));
            return false;
        }
        let c = u as u8;
        let lc = if 65u8 <= c && c <= 90u8 {
            c + 32
        } else {
            c
        };
        assert(lc == lower_ascii(u as u8));
        if lc != w[k] {
            assert(!unit_matches(buf@[k as int], w@[k as int]));
            return false;
        }
        k = k + 1;
    }
    true
}

/// The first three dictionary words that start with `buf`.
fn first_completions(d: &Vec<Vec<u8>>, buf: &Vec<u16>) -> (r: Vec<Vec<u8>>)
    ensures
        words_view(r@) == completions(words_view(d@), buf@),
        r.len() <= 3,
{
    let ghost dv = words_view(d@);
    let mut r: Vec<Vec<u8>> = Vec::new();
    let mut i: usize = 0;
    while i < d.len() && r.len() < 3
        invariant
            dv == words_view(d@),
            i <= d.len(),
            r.len() <= 3,
            words_view(r@) == completions_upto(dv, buf@, i as int),
        decreases d.len() - i,
    {
        if word_has_prefix(&d[i], buf) {
            let w = copy_bytes(&d[i]);
            r.push(w);
        }
        assert(words_view(r@) =~= completions_upto(dv, buf@, i + 1));
        i = i + 1;
    }
    proof {
        lemma_completions_prefix(dv, buf@, i as int, d.len() as int);
        if r.len() == 3 {
            assert(completions_upto(dv, buf@, d.len() as int).take(3) =~= words_view(r@));
        } else {
            assert(i == d.len());
        }
    }
    r
}

/// Whether some dictionary word starts with `buf`.
fn any_completion(d: &Vec<Vec<u8>>, buf: &Vec<u16>) -> (r: bool)
    ensures
        r == has_completion(words_view(d@), buf@),
{
    let ghost dv = words_view(d@);
    let mut i: usize = 0;
    while i < d.len()
        invariant
            dv == words_view(d@),
            i <= d.len(),
            forall|k: int| 0 <= k < i ==> !#[trigger] has_prefix(dv[k], buf@),
        decreases d.len() - i,
    {
        if word_has_prefix(&d[i], buf) {
            assert(has_prefix(dv[i as int], buf@));
            return true;
        }
        i = i + 1;
    }
    false
}

/// At most the first `k` dictionary words at the indices `idx`.
fn words_at_indices(d: &Vec<Vec<u8>>, idx: &Vec<u32>, k: usize) -> (r: Vec<Vec<u8>>)
    requires
        forall|j: int| 0 <= j < idx.len() ==> (#[trigger] idx@[j] as int) < d.len(),
    ensures
        words_view(r@) == first_n(words_at(words_view(d@), idx@), k as int),
{
    let ghost all = words_at(words_view(d@), idx@);
    let mut r: Vec<Vec<u8>> = Vec::new();
    let mut j: usize = 0;
    while j < idx.len() && j < k
        invariant
            all == words_at(words_view(d@), idx@),
            forall|jj: int| 0 <= jj < idx.len() ==> (#[trigger] idx@[jj] as int) < d.len(),
            j <= idx.len(),
            j <= k,
            words_view(r@) == all.take(j as int),
        decreases idx.len() - j,
    {
        let ghost before = words_view(r@);
        let w = copy_bytes(&d[idx[j] as usize]);
        assert(w@ == all[j as int]);
        r.push(w);
        assert(words_view(r@) =~= before.push(w@));
        assert(all.take(j + 1) =~= all.take(j as int).push(all[j as int]));
        assert(words_view(r@) =~= all.take(j + 1));
        j = j + 1;
    }
    proof {
        if idx.len() <= k {
            assert(all.take(j as int) =~= all);
        } else {
            assert(j == k);
        }
    }
    r
}

/// Whether `w` is one of the words `nw`.
fn contains_word(nw: &Vec<Vec<u8>>, w: &Vec<u8>) -> (r: bool)
    ensures
        r == words_view(nw@).contains(w@),
{
    let mut i: usize = 0;
    while i < nw.len()
        invariant
            i <= nw.len(),
            forall|k: int| 0 <= k < i ==> #[trigger] words_view(nw@)[k] != w@,
        decreases nw.len() - i,
    {
        if bytes_equal(&nw[i], w) {
            assert(words_view(nw@)[i as int] == w@);
            return true;
        }
        i = i + 1;
    }
    false
}

/// Stable partition of `f`: the words in `nw` first, then the others.
fn reorder_words(f: &Vec<Vec<u8>>, nw: &Vec<Vec<u8>>) -> (r: Vec<Vec<u8>>)
    ensures
        words_view(r@) == reorder(words_view(f@), words_view(nw@)),
        r.len() == f.len(),
{
    let ghost fv = words_view(f@);
    let ghost nv = words_view(nw@);
    let mut r: Vec<Vec<u8>> = Vec::new();
    let mut j: usize = 0;
    while j < f.len()
        invariant
            fv == words_view(f@),
            nv == words_view(nw@),
            j <= f.len(),
            words_view(r@) == fv.take(j as int).filter(in_words(nv)),
        decreases f.len() - j,
    {
        reveal(Seq::filter);
        let ghost before = words_view(r@);
        let ghost x = fv[j as int];
        reveal(Seq::filter);
        assert(fv.take(j + 1).drop_last() =~= fv.take(j as int));
        assert(fv.take(j + 1).last() == x);
        if contains_word(nw, &f[j]) {
            let w = copy_bytes(&f[j]);
            r.push(w);
            assert(in_words(nv)(x));
            assert(words_view(r@) =~= before.push(x));
        } else {
            assert(!in_words(nv)(x));
        }
        assert(words_view(r@) =~= fv.take(j + 1).filter(in_words(nv)));
        j = j + 1;
    }
    assert(fv.take(f.len() as int) =~= fv);
    reveal(Seq::filter);
    assert(fv.take(0).filter(not_in_words(nv)) =~= Seq::<Seq<u8>>::empty());
    assert(words_view(r@) =~= fv.filter(in_words(nv)) + fv.take(0).filter(not_in_words(nv)));
    let mut j: usize = 0;
    while j < f.len()
        invariant
            fv == words_view(f@),
            nv == words_view(nw@),
            j <= f.len(),
            words_view(r@) == fv.filter(in_words(nv)) + fv.take(j as int).filter(not_in_words(nv)),
        decreases f.len() - j,
    {
        let ghost before = words_view(r@);
        let ghost x = fv[j as int];
        reveal(Seq::filter);
        assert(fv.take(j + 1).drop_last() =~= fv.take(j as int));
        assert(fv.take(j + 1).last() == x);
        if !contains_word(nw, &f[j]) {
            let w = copy_bytes(&f[j]);
            r.push(w);
            assert(not_in_words(nv)(x));
            assert(words_view(r@) =~= before.push(x));
        } else {
            assert(!not_in_words(nv)(x));
        }
        assert(words_view(r@) =~= fv.filter(in_words(nv)) + fv.take(j + 1).filter(not_in_words(nv)));
        j = j + 1;
    }
    proof {
        assert(fv.take(f.len() as int) =~= fv);
        lemma_partition_len(fv, nv);
    }
    r
}

proof fn lemma_partition_len(f: Seq<Seq<u8>>, nv: Seq<Seq<u8>>)
    ensures
        f.filter(in_words(nv)).len() + f.filter(not_in_words(nv)).len() == f.len(),
    decreases f.len(),
{
    reveal(Seq::filter);
    if f.len() > 0 {
        lemma_partition_len(f.drop_last(), nv);
        assert(in_words(nv)(f.last()) == !not_in_words(nv)(f.last()));
    }
}

/// Three suggestion slots from at most three words.
fn pad_sugg(f: Vec<Vec<u8>>) -> (r: Vec<Vec<u8>>)
    requires
        f.len() <= 3,
    ensures
        words_view(r@) == pad3(words_view(f@)),
{
    let mut r = f;
    let ghost fv = words_view(r@);
    while r.len() < 3
        invariant
            r.len() <= 3,
            fv.len() <= r.len(),
            forall|i: int| 0 <= i < fv.len() ==> #[trigger] words_view(r@)[i] == fv[i],
            forall|i: int| fv.len() <= i < r.len() ==> #[trigger] words_view(r@)[i] == Seq::<u8>::empty(),
        decreases 3 - r.len(),
    {
        let ghost before = words_view(r@);
        r.push(Vec::new());
        assert(words_view(r@) =~= before.push(Seq::<u8>::empty()));
    }
    assert(words_view(r@) =~= pad3(fv));
    r
}

/// The typed word lower-cased, as character codes.
fn low_codes_of(buf: &Vec<u16>) -> (r: Vec<u32>)
    ensures
        r@ == low_codes(buf@),
{
    let mut r: Vec<u32> = Vec::new();
    let mut i: usize = 0;
    while i < buf.len()
        invariant
            i <= buf.len(),
            r@ == low_codes(buf@).take(i as int),
        decreases buf.len() - i,
    {
        let u = buf[i];
        let c: u32 = if 65u16 <= u && u <= 90u16 {
            (u + 32) as u32
        } else if 0xD800u16 <= u && u <= 0xDFFFu16 {
            63
        } else {
            u as u32
        };
        r.push(c);
        assert(low_codes(buf@).take(i + 1) =~= low_codes(buf@).take(i as int).push(c));
        i = i + 1;
    }
    assert(low_codes(buf@).take(buf.len() as int) =~= low_codes(buf@));
    r
}

fn word_codes_of(w: &Vec<u8>) -> (r: Vec<u32>)
    ensures
        r@ == word_codes(w@),
{
    let mut r: Vec<u32> = Vec::new();
    let mut i: usize = 0;
    while i < w.len()
        invariant
            i <= w.len(),
            r@ == word_codes(w@).take(i as int),
        decreases w.len() - i,
    {
        r.push(w[i] as u32);
        assert(word_codes(w@).take(i + 1) =~= word_codes(w@).take(i as int).push(w@[i as int] as u32));
        i = i + 1;
    }
    assert(word_codes(w@).take(w.len() as int) =~= word_codes(w@));
    r
}

/// Whether word `w` has exactly the character codes `codes`.
fn word_is(w: &Vec<u8>, codes: &Vec<u32>) -> (r: bool)
    ensures
        r == (word_codes(w@) == codes@),
{
    if w.len() != codes.len() {
        assert(word_codes(w@).len() != codes@.len());
        return false;
    }
    let mut i: usize = 0;
    while i < w.len()
        invariant
            w.len() == codes.len(),
            i <= w.len(),
            forall|k: int| 0 <= k < i ==> word_codes(w@)[k] == codes@[k],
        decreases w.len() - i,
    {
        if (w[i] as u32) != codes[i] {
            assert(word_codes(w@)[i as int] != codes@[i as int]);
            return false;
        }
        i = i + 1;
    }
    assert(word_codes(w@) =~= codes@);
    true
}

/// Index of the first word with the character codes `codes`, or -1.
fn find_word(d: &Vec<Vec<u8>>, codes: &Vec<u32>) -> (r: i32)
    requires
        d.len() <= MAX_DICT_WORDS,
    ensures
        r == find_word_from(words_view(d@), codes@, 0),
{
    let ghost dv = words_view(d@);
    let mut i: usize = 0;
    while i < d.len()
        invariant
            dv == words_view(d@),
            d.len() <= MAX_DICT_WORDS,
            i <= d.len(),
            forall|j: int| 0 <= j < i ==> word_codes(#[trigger] dv[j]) != codes@,
        decreases d.len() - i,
    {
        if word_is(&d[i], codes) {
            proof {
                lemma_find_word(dv, codes@, 0, i as int);
            }
            return i as i32;
        }
        i = i + 1;
    }
    proof {
        lemma_find_word_none(dv, codes@, 0);
    }
    -1
}

// ---------------------------------------------------------------------------
// The predictor
// ---------------------------------------------------------------------------

/// Dictionaries, bigram tables and the state of the word being typed.
pub struct Predictor {
    pub dict: [Vec<Vec<u8>>; 2],
    pub bigram: [Vec<BigramRec>; 2],
    pub lang: usize,
    pub predict_on: bool,
    pub autocorrect: bool,
    pub highlight_on: bool,
    pub bigram_on: bool,
    pub misspelt: bool,
    pub auto_active: bool,
    pub auto_trail: bool,
    pub auto_corr_len: i32,
    pub auto_orig: Vec<u16>,
    pub word_buf: Vec<u16>,
    pub sugg: Vec<Vec<u8>>,
    pub prev_word: Vec<u16>,
    pub prev_idx: i32,
    pub sugg_row_on: i32,
}

impl View for Predictor {
    type V = PredModel;

    closed spec fn view(&self) -> PredModel {
        PredModel {
            dict: seq![words_view(self.dict@[0]@), words_view(self.dict@[1]@)],
            bigram: seq![self.bigram@[0]@, self.bigram@[1]@],
            lang: self.lang as int,
            predict_on: self.predict_on,
            autocorrect: self.autocorrect,
            highlight_on: self.highlight_on,
            bigram_on: self.bigram_on,
            misspelt: self.misspelt,
            auto_active: self.auto_active,
            auto_trail: self.auto_trail,
            auto_corr_len: self.auto_corr_len as int,
            auto_orig: self.auto_orig@,
            word_buf: self.word_buf@,
            sugg: words_view(self.sugg@),
            prev_word: self.prev_word@,
            prev_idx: self.prev_idx as int,
            sugg_row_on: self.sugg_row_on as int,
        }
    }
}

/// An empty predictor: no dictionaries, prediction, autocorrect, highlighting and bigrams
/// on, nothing typed, the strip's state unknown.
pub open spec fn fresh_pred() -> PredModel {
    PredModel {
        dict: seq![Seq::<Seq<u8>>::empty(), Seq::<Seq<u8>>::empty()],
        bigram: seq![Seq::<BigramRec>::empty(), Seq::<BigramRec>::empty()],
        lang: 0,
        predict_on: true,
        autocorrect: true,
        highlight_on: true,
        bigram_on: true,
        misspelt: false,
        auto_active: false,
        auto_trail: false,
        auto_corr_len: 0,
        auto_orig: seq![],
        word_buf: seq![],
        sugg: pad3(seq![]),
        prev_word: seq![],
        prev_idx: -1,
        sugg_row_on: -1,
    }
}

/// A model whose dictionaries are well formed and whose typed word fits and holds word
/// units only.
pub open spec fn pred_wf(m: PredModel) -> bool {
    &&& m.dict.len() == 2
    &&& m.bigram.len() == 2
    &&& 0 <= m.lang < 2
    &&& forall|l: int, i: int|
        0 <= l < 2 && 0 <= i < m.dict[l].len() ==> dict_word_ok(#[trigger] m.dict[l][i])
    &&& forall|l: int| 0 <= l < 2 ==> #[trigger] m.dict[l].len() <= MAX_DICT_WORDS
    &&& m.word_buf.len() <= MAXWLEN
    &&& forall|k: int| 0 <= k < m.word_buf.len() ==> is_word_unit(#[trigger] m.word_buf[k])
    &&& m.sugg.len() == 3
    &&& -1 <= m.prev_idx < MAX_DICT_WORDS
    &&& 0 <= m.auto_corr_len <= MAXWLEN
    &&& m.auto_orig.len() <= MAXWLEN
    &&& forall|k: int| 0 <= k < m.auto_orig.len() ==> is_word_unit(#[trigger] m.auto_orig[k])
}

impl Predictor {
    pub open spec fn wf(&self) -> bool {
        pred_wf(self@)
    }

    /// An empty predictor: no dictionaries, prediction, autocorrect, highlighting and
    /// bigrams on, nothing typed.
    pub fn new() -> (p: Predictor)
        ensures
            p.wf(),
            p@.dict == seq![Seq::<Seq<u8>>::empty(), Seq::<Seq<u8>>::empty()],
            p@.bigram == seq![Seq::<BigramRec>::empty(), Seq::<BigramRec>::empty()],
            p@.lang == 0,
            p@.predict_on && p@.autocorrect && p@.highlight_on && p@.bigram_on,
            !p@.misspelt && !p@.auto_active && !p@.auto_trail,
            p@.auto_corr_len == 0,
            p@.auto_orig == Seq::<u16>::empty(),
            p@.word_buf == Seq::<u16>::empty(),
            p@.sugg == pad3(seq![]),
            p@.prev_word == Seq::<u16>::empty(),
            p@.prev_idx == -1,
            p@.sugg_row_on == -1,
            p@ == fresh_pred(),
    {
        let p = Predictor {
            dict: [Vec::new(), Vec::new()],
            bigram: [Vec::new(), Vec::new()],
            lang: 0,
            predict_on: true,
            autocorrect: true,
            highlight_on: true,
            bigram_on: true,
            misspelt: false,
            auto_active: false,
            auto_trail: false,
            auto_corr_len: 0,
            auto_orig: Vec::new(),
            word_buf: Vec::new(),
            sugg: empty_sugg(),
            prev_word: Vec::new(),
            prev_idx: -1,
            sugg_row_on: -1,
        };
        assert(p.dict@[0]@ =~= Seq::<Vec<u8>>::empty());
        assert(p.dict@[1]@ =~= Seq::<Vec<u8>>::empty());
        assert(words_view(p.dict@[0]@) =~= Seq::<Seq<u8>>::empty());
        assert(words_view(p.dict@[1]@) =~= Seq::<Seq<u8>>::empty());
        assert(p@.dict =~= seq![Seq::<Seq<u8>>::empty(), Seq::<Seq<u8>>::empty()]);
        assert(p@.bigram =~= seq![Seq::<BigramRec>::empty(), Seq::<BigramRec>::empty()]);
        p
    }
}

fn empty_sugg() -> (s: Vec<Vec<u8>>)
    ensures
        words_view(s@) == pad3(seq![]),
{
    let mut s: Vec<Vec<u8>> = Vec::new();
    s.push(Vec::new());
    s.push(Vec::new());
    s.push(Vec::new());
    assert(words_view(s@) =~= pad3(seq![]));
    s
}

/// Whether language `lang` has a dictionary.
pub fn dict_avail(p: &Predictor, lang: usize) -> (r: bool)
    requires
        lang < 2,
    ensures
        r == dict_avail_m(p@, lang as int),
{
    p.dict[lang].len() != 0
}

/// Whether language `lang` has a bigram table and a dictionary.
pub fn bigram_avail(p: &Predictor, lang: usize) -> (r: bool)
    requires
        lang < 2,
    ensures
        r == bigram_avail_m(p@, lang as int),
{
    p.bigram[lang].len() != 0 && dict_avail(p, lang)
}

/// The up to 8 dictionary indices of words that follow word `prev_idx` in the current
/// language (empty for a negative index or without a bigram table).
pub fn bigram_next(p: &Predictor, prev_idx: i32) -> (r: Vec<u32>)
    requires
        p.wf(),
    ensures
        r@ == bigram_next_m(p@, prev_idx as int),
        forall|j: int| 0 <= j < r.len() ==> (#[trigger] r@[j] as int) < cur_dict(p@).len(),
{
    if prev_idx < 0 || !bigram_avail(p, p.lang) {
        return Vec::new();
    }
    bigram_lookup(&p.bigram[p.lang], p.dict[p.lang].len(), prev_idx)
}

/// Whether the current dictionary holds the word `w`.
pub fn dict_exact(p: &Predictor, w: &str) -> (r: bool)
    requires
        p.wf(),
    ensures
        r == in_dict(cur_dict(p@), char_codes(w@)),
{
    let codes = str_codes(w);
    dict_has_codes(&p.dict[p.lang], &codes)
}

fn dict_has_codes(d: &Vec<Vec<u8>>, codes: &Vec<u32>) -> (r: bool)
    ensures
        r == in_dict(words_view(d@), codes@),
{
    let ghost dv = words_view(d@);
    let mut i: usize = 0;
    while i < d.len()
        invariant
            dv == words_view(d@),
            i <= d.len(),
            forall|j: int| 0 <= j < i ==> word_codes(#[trigger] dv[j]) != codes@,
        decreases d.len() - i,
    {
        if word_is(&d[i], codes) {
            assert(word_codes(dv[i as int]) == codes@);
            return true;
        }
        i = i + 1;
    }
    false
}

impl Predictor {
    /// Length of the word being typed.
    pub fn word_len(&self) -> (n: usize)
        ensures
            n == self@.word_buf.len(),
    {
        self.word_buf.len()
    }

    /// Whether a Backspace now would undo an autocorrection.
    pub fn undo_armed(&self) -> (r: bool)
        ensures
            r == self@.auto_active,
    {
        self.auto_active
    }

    /// Whether misspelt words are highlighted.
    pub fn highlight(&self) -> (r: bool)
        ensures
            r == self@.highlight_on,
    {
        self.highlight_on
    }

    /// Whether the typed word is marked misspelt.
    pub fn is_misspelt(&self) -> (r: bool)
        ensures
            r == self@.misspelt,
    {
        self.misspelt
    }

    /// The current language (0 Indonesian, 1 English).
    pub fn language(&self) -> (r: usize)
        ensures
            r == self@.lang,
    {
        self.lang
    }

    /// Suggestion `i` of the strip.
    pub fn suggestion(&self, i: usize) -> (r: &Vec<u8>)
        requires
            self.wf(),
            i < 3,
        ensures
            r@ == self@.sugg[i as int],
    {
        &self.sugg[i]
    }

    /// The word typed so far.
    pub fn word(&self) -> (r: &Vec<u16>)
        ensures
            r@ == self@.word_buf,
    {
        &self.word_buf
    }

    /// How many units undoing the last autocorrection erases: the correction, and the unit
    /// that triggered it when it was typed after the word.
    pub fn undo_len(&self) -> (r: usize)
        requires
            self.wf(),
        ensures
            r == self@.auto_corr_len + (if self@.auto_trail { 1int } else { 0int }),
    {
        if self.auto_trail { self.auto_corr_len as usize + 1 } else { self.auto_corr_len as usize }
    }

    /// The word as typed before the last autocorrection.
    pub fn typed_before(&self) -> (r: &Vec<u16>)
        ensures
            r@ == self@.auto_orig,
    {
        &self.auto_orig
    }

    /// Sets the stored switches: language (0 or 1), prediction, autocorrect, highlighting
    /// and bigrams.
    pub fn set_switches(&mut self, lang: usize, predict: bool, auto: bool, highlight: bool, bigram: bool)
        requires
            old(self).wf(),
            lang < 2,
        ensures
            final(self).wf(),
            final(self)@ == (PredModel {
                lang: lang as int,
                predict_on: predict,
                autocorrect: auto,
                highlight_on: highlight,
                bigram_on: bigram,
                ..old(self)@
            }),
    {
        self.lang = lang;
        self.predict_on = predict;
        self.autocorrect = auto;
        self.highlight_on = highlight;
        self.bigram_on = bigram;
    }

    /// The stored switches (see `set_switches`).
    pub fn switches(&self) -> (r: (usize, bool, bool, bool, bool))
        ensures
            r.0 == self@.lang,
            r.1 == self@.predict_on,
            r.2 == self@.autocorrect,
            r.3 == self@.highlight_on,
            r.4 == self@.bigram_on,
    {
        (self.lang, self.predict_on, self.autocorrect, self.highlight_on, self.bigram_on)
    }

    /// Disarms the autocorrect undo.
    pub fn disarm(&mut self)
        requires
            old(self).wf(),
        ensures
            final(self).wf(),
            final(self)@ == (PredModel { auto_active: false, ..old(self)@ }),
    {
        self.auto_active = false;
    }

    /// Switches word prediction on or off; the strip is cleared and recomputed.
    pub fn toggle_predict(&mut self)
        requires
            old(self).wf(),
        ensures
            final(self).wf(),
            final(self)@ == compute_sugg_spec(PredModel {
                sugg: pad3(seq![]),
                misspelt: false,
                ..PredModel { predict_on: !old(self)@.predict_on, ..old(self)@ }
            }),
    {
        self.predict_on = !self.predict_on;
        self.sugg = empty_sugg();
        self.misspelt = false;
        self.compute_sugg();
    }

    /// Switches misspelling highlighting on or off; the strip is cleared and recomputed.
    pub fn toggle_highlight(&mut self)
        requires
            old(self).wf(),
        ensures
            final(self).wf(),
            final(self)@ == compute_sugg_spec(PredModel {
                sugg: pad3(seq![]),
                misspelt: false,
                ..PredModel { highlight_on: !old(self)@.highlight_on, ..old(self)@ }
            }),
    {
        self.highlight_on = !self.highlight_on;
        self.sugg = empty_sugg();
        self.misspelt = false;
        self.compute_sugg();
    }

    /// Switches next-word bigrams on or off; the strip is cleared and recomputed.
    pub fn toggle_bigram(&mut self)
        requires
            old(self).wf(),
        ensures
            final(self).wf(),
            final(self)@ == compute_sugg_spec(PredModel {
                sugg: pad3(seq![]),
                misspelt: false,
                ..PredModel { bigram_on: !old(self)@.bigram_on, ..old(self)@ }
            }),
    {
        self.bigram_on = !self.bigram_on;
        self.sugg = empty_sugg();
        self.misspelt = false;
        self.compute_sugg();
    }

    /// Switches autocorrect on or off (disarming its undo).
    pub fn toggle_autocorrect(&mut self)
        requires
            old(self).wf(),
        ensures
            final(self).wf(),
            final(self)@ == (PredModel { autocorrect: !old(self)@.autocorrect, auto_active: false, ..old(self)@ }),
    {
        self.autocorrect = !self.autocorrect;
        self.auto_active = false;
    }

    /// Switches to language `lang` (0 or 1): the previous word, the strip, the misspelt
    /// mark and the typed word are forgotten.
    pub fn set_lang(&mut self, lang: usize)
        requires
            old(self).wf(),
            lang < 2,
        ensures
            final(self).wf(),
            final(self)@ == word_clear_spec(PredModel {
                lang: lang as int,
                prev_word: seq![],
                prev_idx: -1,
                sugg: pad3(seq![]),
                misspelt: false,
                ..old(self)@
            }),
    {
        self.lang = lang;
        self.prev_word = Vec::new();
        self.prev_idx = -1;
        self.sugg = empty_sugg();
        self.misspelt = false;
        self.word_clear();
    }

    /// Whether the suggestion strip has a word or the misspelt mark to show.
    pub fn sugg_row_has_content(&self) -> (r: bool)
        requires
            self.wf(),
        ensures
            r == sugg_row_has_content_m(self@),
    {
        self.sugg[0].len() != 0 || self.sugg[1].len() != 0 || self.sugg[2].len() != 0 || (
        self.highlight_on && self.misspelt && self.word_len() > 0)
    }

    /// Whether the suggestion strip is shown.
    pub fn sugg_row_on(&self) -> (r: bool)
        requires
            self.wf(),
        ensures
            r == sugg_row_on_m(self@),
    {
        (self.predict_on || self.highlight_on) && dict_avail(self, self.lang)
            && self.sugg_row_has_content()
    }

    /// Records whether the suggestion strip is shown (1) or not (0); a change of this
    /// field is what makes the window resize.
    pub fn sync_sugg_row(&mut self)
        requires
            old(self).wf(),
        ensures
            final(self).wf(),
            final(self)@ == sync_row(old(self)@),
    {
        let want: i32 = if self.sugg_row_on() { 1 } else { 0 };
        if want == self.sugg_row_on {
            return;
        }
        self.sugg_row_on = want;
    }

    /// Recomputes the suggestions and the misspelt mark (see `compute_sugg_spec`).
    #[verifier::rlimit(80)]
    pub fn compute_sugg(&mut self)
        requires
            old(self).wf(),
        ensures
            final(self).wf(),
            final(self)@ == compute_sugg_spec(old(self)@),
    {
        proof {
            reveal(compute_sugg_spec);
        }
        let ghost m = self@;
        let lang = self.lang;
        if !(self.predict_on || self.highlight_on) || self.dict[lang].len() == 0 {
            self.sugg = empty_sugg();
            self.misspelt = false;
            proof {
                assert(self@ =~= PredModel { sugg: pad3(seq![]), misspelt: false, ..m });
            }
            self.sync_sugg_row();
            return;
        }
        if self.word_buf.len() == 0 {
            self.misspelt = false;
            let ghost nw = first_n(words_at(cur_dict(m), bigram_next_m(m, m.prev_idx)), 3);
            if self.predict_on && self.bigram_on && self.prev_idx >= 0 {
                let nx = bigram_next(self, self.prev_idx);
                let fresh = words_at_indices(&self.dict[lang], &nx, 3);
                if fresh.len() > 0 {
                    self.sugg = pad_sugg(fresh);
                }
            }
            proof {
                let use_bigram = m.predict_on && m.bigram_on && m.prev_idx >= 0 && nw.len() > 0;
                assert(self@ =~= PredModel {
                    misspelt: false,
                    sugg: if use_bigram { pad3(nw) } else { m.sugg },
                    ..m
                });
            }
            self.sync_sugg_row();
            return;
        }
        if self.predict_on {
            let f0 = first_completions(&self.dict[lang], &self.word_buf);
            let f = if self.bigram_on && self.prev_idx >= 0 && f0.len() > 1 {
                let nx = bigram_next(self, self.prev_idx);
                let nw = words_at_indices(&self.dict[lang], &nx, 8);
                proof {
                    assert(words_at(cur_dict(m), nx@).len() <= 8);
                }
                reorder_words(&f0, &nw)
            } else {
                f0
            };
            if f.len() > 0 {
                self.sugg = pad_sugg(f);
                self.misspelt = false;
            } else if self.word_buf.len() >= 2 {
                self.misspelt = true;
            }
        } else {
            let found = any_completion(&self.dict[lang], &self.word_buf);
            self.misspelt = !found && self.word_buf.len() >= 2;
        }
        proof {
            let d = cur_dict(m);
            let buf = m.word_buf;
            if m.predict_on {
                let f0 = completions(d, buf);
                let f = if m.bigram_on && m.prev_idx >= 0 && f0.len() > 1 {
                    reorder(f0, words_at(d, bigram_next_m(m, m.prev_idx)))
                } else {
                    f0
                };
                if f.len() > 0 {
                    assert(self@ =~= PredModel { sugg: pad3(f), misspelt: false, ..m });
                } else {
                    assert(self@ =~= PredModel {
                        misspelt: if buf.len() >= 2 { true } else { m.misspelt },
                        ..m
                    });
                }
            } else {
                assert(self@ =~= PredModel {
                    misspelt: !has_completion(d, buf) && buf.len() >= 2,
                    ..m
                });
            }
        }
        self.sync_sugg_row();
    }

    /// Ends the word being typed (see `word_commit_spec`).
    pub fn word_commit(&mut self)
        requires
            old(self).wf(),
        ensures
            final(self).wf(),
            final(self)@ == word_commit_spec(old(self)@),
    {
        let ghost m = self@;
        if self.word_buf.len() != 0 {
            let low = low_codes_of(&self.word_buf);
            self.prev_word = copy_units(&self.word_buf);
            self.prev_idx = find_word(&self.dict[self.lang], &low);
            proof {
                lemma_find_word_range(cur_dict(m), low@, 0);
            }
        }
        self.word_buf = Vec::new();
        proof {
            let m1 = if m.word_buf.len() > 0 {
                PredModel {
                    prev_word: m.word_buf,
                    prev_idx: find_word_from(cur_dict(m), low_codes(m.word_buf), 0),
                    ..m
                }
            } else {
                m
            };
            assert(self@ =~= PredModel { word_buf: seq![], ..m1 });
        }
        self.compute_sugg();
    }

    /// Feeds one typed unit to the word tracker (see `word_char_spec`).
    pub fn word_char(&mut self, ch: u16)
        requires
            old(self).wf(),
        ensures
            final(self).wf(),
            final(self)@ == word_char_spec(old(self)@, ch),
    {
        let ghost m = self@;
        let c = (ch % 256) as u8;
        let is_word = (48u8 <= c && c <= 57u8) || (65u8 <= c && c <= 90u8) || (97u8 <= c && c <= 122u8)
            || ch == 39u16;
        if is_word {
            if self.word_buf.len() < MAXWLEN {
                self.word_buf.push(ch);
            }
            proof {
                let buf = if m.word_buf.len() < MAXWLEN { m.word_buf.push(ch) } else { m.word_buf };
                assert(self@ =~= PredModel { word_buf: buf, ..m });
            }
            self.compute_sugg();
        } else {
            self.word_commit();
        }
    }

    /// Removes the last typed unit (see `word_chop_spec`).
    pub fn word_chop(&mut self)
        requires
            old(self).wf(),
        ensures
            final(self).wf(),
            final(self)@ == word_chop_spec(old(self)@),
    {
        let ghost m = self@;
        if self.word_buf.len() != 0 {
            self.word_buf.pop();
        }
        proof {
            let buf = if m.word_buf.len() > 0 { m.word_buf.drop_last() } else { m.word_buf };
            assert(self@ =~= PredModel { word_buf: buf, ..m });
        }
        self.compute_sugg();
    }

    /// Forgets the word being typed (see `word_clear_spec`).
    pub fn word_clear(&mut self)
        requires
            old(self).wf(),
        ensures
            final(self).wf(),
            final(self)@ == word_clear_spec(old(self)@),
    {
        let ghost m = self@;
        self.word_buf = Vec::new();
        assert(self@ =~= PredModel { word_buf: seq![], ..m });
        self.compute_sugg();
    }

    /// Whether typing `c` ends a word for autocorrect: anything but an ASCII letter or
    /// digit (judged on its low byte), the apostrophe and the underscore.
    pub fn is_commit_char(c: u16) -> (r: bool)
        ensures
            r == (c != 39 && c != 95 && !((48 <= c % 256 <= 57) || (65 <= c % 256 <= 90) || (97
                <= c % 256 <= 122))),
    {
        if c == 39u16 || c == 95u16 {
            return false;
        }
        let b = (c % 256) as u8;
        !((48u8 <= b && b <= 57u8) || (65u8 <= b && b <= 90u8) || (97u8 <= b && b <= 122u8))
    }
}

proof fn lemma_find_word_range(d: Seq<Seq<u8>>, codes: Seq<u32>, k: int)
    requires
        0 <= k,
    ensures
        -1 <= find_word_from(d, codes, k) < d.len(),
    decreases d.len() - k,
{
    if k < d.len() {
        lemma_find_word_range(d, codes, k + 1);
    }
}

/// Whether the typed word holds a digit or a capital after its first unit.
fn typed_blocked(buf: &Vec<u16>) -> (r: bool)
    ensures
        r == autocorrect_blocked(buf@),
{
    let n = buf.len();
    let mut i: usize = 0;
    while i < n
        invariant
            n == buf.len(),
            i <= n,
            forall|k: int|
                0 <= k < i ==> !(48 <= #[trigger] buf@[k] <= 57 || (k > 0 && 65 <= buf@[k] <= 90)),
        decreases n - i,
    {
        let u = buf[i];
        if (48u16 <= u && u <= 57u16) || (i > 0 && 65u16 <= u && u <= 90u16) {
            assert(48 <= buf@[i as int] <= 57 || (i > 0 && 65 <= buf@[i as int] <= 90));
            return true;
        }
        i = i + 1;
    }
    false
}

/// Whether word `w` is close enough in length to a typed word of `n` units.
fn eligible(w: &Vec<u8>, n: usize, max_d: i32) -> (r: bool)
    requires
        1 <= max_d <= 2,
    ensures
        r == len_eligible(w@, n as int, max_d as int),
{
    let wl = w.len();
    if wl >= n {
        wl - n <= max_d as usize
    } else {
        n - wl <= max_d as usize
    }
}

/// Scans the dictionary for the first word at the smallest capped distance from `low`
/// among the length-eligible words, stopping early at distance 1.
fn closest_word(d: &Vec<Vec<u8>>, low: &Vec<u32>, max_d: i32) -> (res: (i32, i32))
    requires
        1 <= max_d <= 2,
        d.len() <= MAX_DICT_WORDS,
        !in_dict(words_view(d@), low@),
    ensures
        res.0 == min_dist_upto(words_view(d@), low@, max_d as int, d.len() as int),
        res.0 <= 999,
        res.1 == -1 ==> res.0 == 999,
        res.1 >= 0 ==> res.1 < d.len() && res.1 == first_at_dist(words_view(d@), low@, max_d as int, res.0 as int, 0),
        res.1 >= -1,
        forall|j: int|
            0 <= j < d.len() && len_eligible(#[trigger] words_view(d@)[j], low@.len() as int, max_d as int)
                ==> word_dist(words_view(d@)[j], low@, max_d as int) >= res.0,
{
    let ghost dv = words_view(d@);
    let ghost lv = low@;
    let ghost md = max_d as int;
    let n = low.len();
    let dl = d.len();
    let mut best: i32 = 999;
    let mut bi: i32 = -1;
    let mut k: usize = 0;
    while k < dl && best > 1
        invariant
            dv == words_view(d@),
            dl == dv.len(),
            dl <= MAX_DICT_WORDS,
            lv == low@,
            n == lv.len(),
            md == max_d,
            1 <= md <= 2,
            k <= dl,
            best == min_dist_upto(dv, lv, md, k as int),
            best <= 999,
            bi >= -1,
            bi == -1 ==> best == 999,
            bi >= 0 ==> bi < k && len_eligible(dv[bi as int], n as int, md) && word_dist(dv[bi as int], lv, md)
                == best && best < 999 && forall|j: int|
                0 <= j < bi ==> !(len_eligible(#[trigger] dv[j], n as int, md) && word_dist(dv[j], lv, md)
                    == best),
            forall|j: int|
                0 <= j < k && len_eligible(#[trigger] dv[j], n as int, md) ==> word_dist(dv[j], lv, md)
                    >= best,
        decreases dl - k,
    {
        if eligible(&d[k], n, max_d) {
            let wc = word_codes_of(&d[k]);
            let dd = edit_dist_cap_codes(low.as_slice(), wc.as_slice(), max_d);
            if dd < best {
                best = dd;
                bi = k as i32;
            }
        }
        k = k + 1;
    }
    proof {
        if k < dl {
            assert forall|j: int| 0 <= j < dl implies word_codes(#[trigger] dv[j]) != lv by {
                if word_codes(dv[j]) == lv {
                    assert(in_dict(dv, lv));
                }
            }
            assert forall|j: int|
                k <= j < dl && len_eligible(#[trigger] dv[j], lv.len() as int, md) implies word_dist(dv[j], lv, md)
                >= min_dist_upto(dv, lv, md, k as int) by {
                lemma_dist_pos(lv, dv[j], md);
            }
            lemma_min_dist_stable(dv, lv, md, k as int, dl as int);
            assert forall|j: int|
                0 <= j < dl && len_eligible(#[trigger] dv[j], n as int, md) implies word_dist(dv[j], lv, md)
                >= best by {
                if j >= k {
                    lemma_dist_pos(lv, dv[j], md);
                }
            }
        }
        if bi >= 0 {
            lemma_first_at_dist(dv, lv, md, best as int, 0, bi as int);
        }
    }
    (best, bi)
}

/// The first bigram follower that is a length-eligible word at distance `best`, or -1.
fn follower_at(d: &Vec<Vec<u8>>, nx: &Vec<u32>, low: &Vec<u32>, max_d: i32, best: i32) -> (r: i32)
    requires
        1 <= max_d <= 2,
        d.len() <= MAX_DICT_WORDS,
        forall|q: int| 0 <= q < nx.len() ==> (#[trigger] nx@[q] as int) < d.len(),
    ensures
        r == first_follower_at_dist(words_view(d@), nx@, low@, max_d as int, best as int, 0),
        -1 <= r < d.len(),
{
    let ghost dv = words_view(d@);
    let ghost lv = low@;
    let ghost md = max_d as int;
    let n = low.len();
    let mut j: usize = 0;
    while j < nx.len()
        invariant
            dv == words_view(d@),
            lv == low@,
            n == lv.len(),
            md == max_d,
            1 <= md <= 2,
            d.len() <= MAX_DICT_WORDS,
            forall|q: int| 0 <= q < nx.len() ==> (#[trigger] nx@[q] as int) < d.len(),
            j <= nx.len(),
            forall|q: int| 0 <= q < j ==> !#[trigger] follower_fits(dv, nx@, lv, md, best as int, q),
        decreases nx.len() - j,
    {
        let idx = nx[j] as usize;
        if eligible(&d[idx], n, max_d) {
            let wc = word_codes_of(&d[idx]);
            let dd = edit_dist_cap_codes(low.as_slice(), wc.as_slice(), max_d);
            if dd == best {
                assert(follower_fits(dv, nx@, lv, md, best as int, j as int));
                proof {
                    lemma_first_follower(dv, nx@, lv, md, best as int, 0, j as int);
                }
                assert(idx < MAX_DICT_WORDS);
                return idx as i32;
            }
        }
        j = j + 1;
    }
    proof {
        lemma_no_follower(dv, nx@, lv, md, best as int, 0);
    }
    -1
}

/// The replacement text for dictionary word `src` (see `corrected_word`).
fn corrected(src: &Vec<u8>, buf: &Vec<u16>) -> (out: Vec<u16>)
    ensures
        out@ == corrected_word(src@, buf@),
        out.len() == src.len(),
{
    let mut out: Vec<u16> = Vec::new();
    let mut q: usize = 0;
    while q < src.len()
        invariant
            q <= src.len(),
            out@ == src@.take(q as int).map_values(|b: u8| b as u16),
        decreases src.len() - q,
    {
        out.push(src[q] as u16);
        assert(src@.take(q + 1).map_values(|b: u8| b as u16) =~= src@.take(q as int).map_values(
            |b: u8| b as u16,
        ).push(src@[q as int] as u16));
        q = q + 1;
    }
    assert(src@.take(src.len() as int) =~= src@);
    if buf.len() > 0 && 65u16 <= buf[0] && buf[0] <= 90u16 && out.len() > 0 && 97u16 <= out[0]
        && out[0] <= 122u16 {
        let up = out[0] - 32;
        out.set(0, up);
    }
    assert(out@ =~= corrected_word(src@, buf@)) by {
        reveal(corrected_word);
    }
    out
}

impl Predictor {
    /// Keeps the typed word for undo and feeds the replacement `out` to the word tracker.
    fn apply_correction(&mut self, out: &Vec<u16>, trail: bool)
        requires
            old(self).wf(),
            out.len() <= MAXWLEN,
        ensures
            final(self).wf(),
            final(self)@ == autocorrect_state(old(self)@, out@, trail),
    {
        reveal(autocorrect_state);
        let ghost m = self@;
        self.auto_orig = copy_units(&self.word_buf);
        self.auto_corr_len = out.len() as i32;
        self.word_buf = Vec::new();
        let ghost m1 = self@;
        assert(m1 =~= PredModel { auto_orig: m.word_buf, auto_corr_len: out@.len() as int, word_buf: seq![], ..m });
        let mut t: usize = 0;
        while t < out.len()
            invariant
                t <= out.len(),
                self.wf(),
                self@ == type_units(m1, out@.take(t as int)),
            decreases out.len() - t,
        {
            self.word_char(out[t]);
            assert(out@.take(t + 1).drop_last() =~= out@.take(t as int));
            t = t + 1;
        }
        assert(out@.take(out.len() as int) =~= out@);
        self.auto_trail = trail;
        self.auto_active = true;
    }

    /// Autocorrect at the end of a word (see `autocorrect_choice`).  When it fires, it
    /// returns the replacement text: the caller erases the typed word (as many backspaces
    /// as it had units) and types the replacement; the typed word is kept for undo, and the
    /// word tracker now holds the replacement.
    pub fn auto_correct_now(&mut self, trail: bool) -> (r: Option<Vec<u16>>)
        requires
            old(self).wf(),
        ensures
            final(self).wf(),
            match autocorrect_choice(old(self)@) {
                None => r is None && final(self)@ == old(self)@,
                Some(i) => r matches Some(out) && out@ == corrected_word(
                    cur_dict(old(self)@)[i],
                    old(self)@.word_buf,
                ) && final(self)@ == autocorrect_state(old(self)@, out@, trail)
                    && final(self)@.word_buf == out@,
            },
    {
        proof {
            reveal(autocorrect_choice);
        }
        let ghost m = self@;
        let ghost d = cur_dict(m);
        let lang = self.lang;
        if !self.autocorrect || self.dict[lang].len() == 0 {
            return None;
        }
        let n = self.word_buf.len();
        if n < 3 || n > 31 {
            return None;
        }
        if typed_blocked(&self.word_buf) {
            return None;
        }
        let low = low_codes_of(&self.word_buf);
        if dict_has_codes(&self.dict[lang], &low) {
            return None;
        }
        let max_d: i32 = if n >= 6 { 2 } else { 1 };
        let (best, dict_bi) = closest_word(&self.dict[lang], &low, max_d);
        let mut bi = dict_bi;
        if self.bigram_on && self.prev_idx >= 0 {
            let nx = bigram_next(self, self.prev_idx);
            let fb = follower_at(&self.dict[lang], &nx, &low, max_d, best);
            if fb >= 0 {
                bi = fb;
            }
        }
        if bi < 0 || best > max_d {
            return None;
        }
        proof {
            let low_s = low_codes(m.word_buf);
            let md = max_dist(n as int);
            assert(low@ == low_s);
            assert(max_d as int == md);
            assert(autocorrect_choice(m) == Some(bi as int));
            assert(dict_word_ok(d[bi as int]));
        }
        let out = corrected(&self.dict[lang][bi as usize], &self.word_buf);
        proof {
            lemma_corrected_units(d[bi as int], m.word_buf);
            lemma_correction_is_tracked(m, out@, trail);
        }
        self.apply_correction(&out, trail);
        Some(out)
    }
}

/// The predictor after loading the two word lists and bigram tables (index 0 is
/// Indonesian, 1 English): a language without a dictionary is left for the other one;
/// with no dictionary at all prediction, autocorrect and highlighting are switched off, and
/// with no bigram table at all bigrams are switched off.
pub open spec fn load_data_spec(
    m: PredModel,
    words_id: Seq<u8>,
    words_en: Seq<u8>,
    bigram_id: Seq<u8>,
    bigram_en: Seq<u8>,
) -> PredModel {
    let d = seq![dict_words(words_id), dict_words(words_en)];
    let b = seq![bigram_table(bigram_id), bigram_table(bigram_en)];
    let lang = if d[m.lang].len() > 0 { m.lang } else if d[0].len() > 0 { 0 } else { 1 };
    let none = d[0].len() == 0 && d[1].len() == 0;
    PredModel {
        dict: d,
        bigram: b,
        lang: lang,
        predict_on: if none { false } else { m.predict_on },
        autocorrect: if none { false } else { m.autocorrect },
        highlight_on: if none { false } else { m.highlight_on },
        bigram_on: if b[0].len() == 0 && b[1].len() == 0 { false } else { m.bigram_on },
        ..m
    }
}

impl Predictor {
    /// Loads the dictionaries and bigram tables (see `load_data_spec`).
    pub fn load_data(&mut self, words_id: &[u8], words_en: &[u8], bigram_id: &[u8], bigram_en: &[u8])
        requires
            old(self).wf(),
        ensures
            final(self).wf(),
            final(self)@ == load_data_spec(old(self)@, words_id@, words_en@, bigram_id@, bigram_en@),
    {
        let ghost m = self@;
        let d0 = parse_dict(words_id);
        let d1 = parse_dict(words_en);
        let b0 = load_bigram(bigram_id);
        let b1 = load_bigram(bigram_en);
        proof {
            lemma_dict_words_len(words_id@);
            lemma_dict_words_len(words_en@);
        }
        self.dict = [d0, d1];
        self.bigram = [b0, b1];
        if !dict_avail(self, self.lang) {
            self.lang = if dict_avail(self, 0) { 0 } else { 1 };
        }
        if !dict_avail(self, 0) && !dict_avail(self, 1) {
            self.predict_on = false;
            self.autocorrect = false;
            self.highlight_on = false;
        }
        if self.bigram[0].len() == 0 && self.bigram[1].len() == 0 {
            self.bigram_on = false;
        }
        proof {
            assert(self@.dict =~= seq![dict_words(words_id@), dict_words(words_en@)]);
            assert(self@.bigram =~= seq![bigram_table(bigram_id@), bigram_table(bigram_en@)]);
            assert(self@ =~= load_data_spec(m, words_id@, words_en@, bigram_id@, bigram_en@));
        }
    }
}

proof fn lemma_dict_words_len(data: Seq<u8>)
    ensures
        dict_words(data).len() <= MAX_DICT_WORDS,
{
}

// ---------------------------------------------------------------------------
// Law of the suggestion strip
// ---------------------------------------------------------------------------

/// A word offered for the typed word `buf`: a dictionary word that starts with it.
pub open spec fn completes(d: Seq<Seq<u8>>, buf: Seq<u16>, w: Seq<u8>) -> bool {
    has_prefix(w, buf) && d.contains(w)
}

proof fn lemma_completions_upto(d: Seq<Seq<u8>>, buf: Seq<u16>, k: int)
    requires
        0 <= k <= d.len(),
    ensures
        forall|i: int| 0 <= i < completions_upto(d, buf, k).len()
            ==> completes(d, buf, #[trigger] completions_upto(d, buf, k)[i]),
    decreases k,
{
    if k > 0 {
        lemma_completions_upto(d, buf, k - 1);
        let r = completions_upto(d, buf, k - 1);
        if has_prefix(d[k - 1], buf) {
            assert forall|i: int| 0 <= i < r.push(d[k - 1]).len() implies completes(d, buf, #[trigger] r.push(d[k - 1])[i]) by {
                if i == r.len() {
                    assert(d.contains(d[k - 1]));
                } else {
                    assert(r.push(d[k - 1])[i] == r[i]);
                }
            }
        }
    }
}

/// While a word is typed with prediction on, and some dictionary word starts with it, the
/// strip offers completions only: every word it shows is a dictionary word that starts
/// with the typed word, and the first slot is never empty.
pub proof fn lemma_suggestions_complete_word(m: PredModel)
    requires
        pred_wf(m),
        m.predict_on,
        m.word_buf.len() > 0,
        completions(cur_dict(m), m.word_buf).len() > 0,
    ensures
        compute_sugg_spec(m).sugg[0].len() > 0,
        forall|i: int| 0 <= i < 3 && #[trigger] compute_sugg_spec(m).sugg[i].len() > 0
            ==> completes(cur_dict(m), m.word_buf, compute_sugg_spec(m).sugg[i]),
{
    reveal(compute_sugg_spec);
    let d = cur_dict(m);
    let buf = m.word_buf;
    let all = completions_upto(d, buf, d.len() as int);
    lemma_completions_upto(d, buf, d.len() as int);
    let f0 = completions(d, buf);
    assert forall|i: int| 0 <= i < f0.len() implies completes(d, buf, #[trigger] f0[i]) by {
        assert(f0[i] == all[i]);
    }
    let nw = words_at(d, bigram_next_m(m, m.prev_idx));
    let f = if m.bigram_on && m.prev_idx >= 0 && f0.len() > 1 { reorder(f0, nw) } else { f0 };
    if m.bigram_on && m.prev_idx >= 0 && f0.len() > 1 {
        let a = f0.filter(in_words(nw));
        let b = f0.filter(not_in_words(nw));
        assert forall|i: int| 0 <= i < f.len() implies completes(d, buf, #[trigger] f[i]) by {
            if i < a.len() {
                assert(f[i] == a[i]);
                assert(a.contains(a[i]));
                f0.lemma_filter_contains_rev(in_words(nw), a[i]);
            } else {
                assert(f[i] == b[i - a.len()]);
                assert(b.contains(b[i - a.len()]));
                f0.lemma_filter_contains_rev(not_in_words(nw), b[i - a.len()]);
            }
        }
        if in_words(nw)(f0[0]) {
            f0.lemma_filter_contains(in_words(nw), 0);
        } else {
            f0.lemma_filter_contains(not_in_words(nw), 0);
        }
        assert(f.len() > 0);
    }
    assert(f.len() > 0);
    assert(completes(d, buf, f[0]));
    assert(f[0].len() >= buf.len());
}

/// Word `w` may follow the previous word: the bigram table lists it after it.
pub open spec fn may_follow(m: PredModel, w: Seq<u8>) -> bool {
    words_at(cur_dict(m), bigram_next_m(m, m.prev_idx)).contains(w)
}

/// While a word is typed with prediction and bigrams on after a known previous word, the
/// strip shows exactly the first three dictionary completions of the word (and nothing in
/// the other slots), and every shown completion that may follow the previous word comes
/// before every shown completion that may not.
pub proof fn lemma_followers_first(m: PredModel)
    requires
        m.predict_on,
        m.bigram_on,
        m.prev_idx >= 0,
        m.word_buf.len() > 0,
        cur_dict(m).len() > 0,
    ensures
        forall|i: int, j: int|
            0 <= i < j < completions(cur_dict(m), m.word_buf).len()
                && may_follow(m, #[trigger] compute_sugg_spec(m).sugg[j])
                ==> may_follow(m, #[trigger] compute_sugg_spec(m).sugg[i]),
        forall|i: int|
            0 <= i < completions(cur_dict(m), m.word_buf).len()
                ==> completions(cur_dict(m), m.word_buf).contains(#[trigger] compute_sugg_spec(m).sugg[i]),
        forall|i: int|
            0 <= i < completions(cur_dict(m), m.word_buf).len()
                ==> compute_sugg_spec(m).sugg.take(completions(cur_dict(m), m.word_buf).len() as int).contains(
                #[trigger] completions(cur_dict(m), m.word_buf)[i],
            ),
        completions(cur_dict(m), m.word_buf).len() > 0 ==> forall|i: int|
            completions(cur_dict(m), m.word_buf).len() <= i < 3 ==> #[trigger] compute_sugg_spec(m).sugg[i].len() == 0,
{
    reveal(compute_sugg_spec);
    let d = cur_dict(m);
    let buf = m.word_buf;
    let f0 = completions(d, buf);
    let n = f0.len() as int;
    let nw = words_at(d, bigram_next_m(m, m.prev_idx));
    let s = compute_sugg_spec(m).sugg;
    if n == 0 {
        return;
    }
    if n == 1 {
        assert(s[0] == f0[0]);
        assert(s.take(1)[0] == f0[0]);
        assert(s.take(1).contains(f0[0]));
        assert(f0.contains(f0[0]));
        return;
    }
    let a = f0.filter(in_words(nw));
    let b = f0.filter(not_in_words(nw));
    let f = a + b;
    lemma_partition_len(f0, nw);
    assert(f.len() == n);
    assert(s == pad3(f));
    assert forall|i: int| 0 <= i < n implies #[trigger] s[i] == f[i] by {}
    assert forall|k: int| 0 <= k < a.len() implies may_follow(m, #[trigger] a[k]) by {
        f0.lemma_filter_pred(in_words(nw), k);
    }
    assert forall|k: int| 0 <= k < b.len() implies !may_follow(m, #[trigger] b[k]) by {
        f0.lemma_filter_pred(not_in_words(nw), k);
    }
    assert forall|i: int, j: int| 0 <= i < j < n && may_follow(m, #[trigger] s[j]) implies may_follow(m, #[trigger] s[i]) by {
        if j >= a.len() {
            assert(s[j] == b[j - a.len()]);
        }
        assert(s[i] == a[i]);
    }
    assert forall|i: int| 0 <= i < n implies f0.contains(#[trigger] s[i]) by {
        if i < a.len() {
            assert(s[i] == a[i]);
            assert(a.contains(a[i]));
            f0.lemma_filter_contains_rev(in_words(nw), a[i]);
        } else {
            assert(s[i] == b[i - a.len()]);
            assert(b.contains(b[i - a.len()]));
            f0.lemma_filter_contains_rev(not_in_words(nw), b[i - a.len()]);
        }
    }
    assert forall|i: int| 0 <= i < n implies s.take(n).contains(#[trigger] f0[i]) by {
        if in_words(nw)(f0[i]) {
            f0.lemma_filter_contains(in_words(nw), i);
            let k = choose|k: int| 0 <= k < a.len() && a[k] == f0[i];
            assert(s.take(n)[k] == f[k]);
        } else {
            f0.lemma_filter_contains(not_in_words(nw), i);
            let k = choose|k: int| 0 <= k < b.len() && b[k] == f0[i];
            assert(s.take(n)[a.len() + k] == f[a.len() + k]);
        }
    }
}

} // verus!
