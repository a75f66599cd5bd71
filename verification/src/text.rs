//! Zero-terminated UTF-16 buffers, as Win32 text fields hold them.
use vstd::prelude::*;
use vstd::string::StrSliceExecFns;

verus! {

/// UTF-16 encoding of one character.
pub open spec fn utf16_char(c: char) -> Seq<u16> {
    let v = c as u32;
    if v < 0x10000 {
        seq![v as u16]
    } else {
        seq![(0xD800 + (v - 0x10000) / 1024) as u16, (0xDC00 + (v - 0x10000) % 1024) as u16]
    }
}

/// UTF-16 encoding of a string.
pub open spec fn utf16_of(s: Seq<char>) -> Seq<u16>
    decreases s.len(),
{
    if s.len() == 0 {
        seq![]
    } else {
        utf16_of(s.drop_last()) + utf16_char(s.last())
    }
}

/// The UTF-16 encoding of a string.
pub fn utf16_units(s: &str) -> (v: Vec<u16>)
    ensures
        v@ == utf16_of(s@),
{
    let n = s.unicode_len();
    let mut v: Vec<u16> = Vec::new();
    let mut i: usize = 0;
    while i < n
        invariant
            n == s@.len(),
            i <= n,
            v@ == utf16_of(s@.take(i as int)),
        decreases n - i,
    {
        let c = s.get_char(i);
        let x = c as u32;
        let ghost before = v@;
        if x < 0x10000 {
            v.push(x as u16);
        } else {
            let y = x - 0x10000;
            assert(y < 0x100000);
            v.push((0xD800 + y / 1024) as u16);
            v.push((0xDC00 + y % 1024) as u16);
        }
        proof {
            assert(s@.take(i + 1).drop_last() =~= s@.take(i as int));
            assert(s@.take(i + 1).last() == c);
            assert(v@ =~= before + utf16_char(c));
        }
        i = i + 1;
    }
    assert(s@.take(n as int) =~= s@);
    v
}

/// Index of the first zero unit from `k` on, or the length.
pub open spec fn first_zero_from(t: Seq<u16>, k: int) -> int
    decreases t.len() - k,
{
    if k < 0 {
        0
    } else if k >= t.len() {
        t.len() as int
    } else if t[k] == 0 {
        k
    } else {
        first_zero_from(t, k + 1)
    }
}

/// The text of a zero-terminated buffer: the units before the first zero.
pub open spec fn zstr(t: Seq<u16>) -> Seq<u16> {
    t.take(first_zero_from(t, 0))
}

/// A buffer of `n` units holding at most `n - 1` units of `u`, zero-filled after them.
pub open spec fn wstr_fill(u: Seq<u16>, n: int) -> Seq<u16> {
    Seq::new(
        n as nat,
        |i: int|
            if i < u.len() && i < n - 1 {
                u[i]
            } else {
                0u16
            },
    )
}

proof fn lemma_first_zero(t: Seq<u16>, k: int)
    requires
        0 <= k <= t.len(),
    ensures
        k <= first_zero_from(t, k) <= t.len(),
        forall|j: int| k <= j < first_zero_from(t, k) ==> #[trigger] t[j] != 0,
        first_zero_from(t, k) < t.len() ==> t[first_zero_from(t, k)] == 0,
    decreases t.len() - k,
{
    if k < t.len() && t[k] != 0 {
        lemma_first_zero(t, k + 1);
    }
}

/// A text with no zero unit, written into a buffer with room for it and its terminator,
/// reads back unchanged.
pub proof fn lemma_zstr_fill(u: Seq<u16>, n: int)
    requires
        u.len() < n,
        forall|j: int| 0 <= j < u.len() ==> #[trigger] u[j] != 0,
    ensures
        zstr(wstr_fill(u, n)) == u,
{
    let t = wstr_fill(u, n);
    lemma_first_zero(t, 0);
    let f = first_zero_from(t, 0);
    if f < u.len() {
        assert(t[f] == u[f]);
    } else if f > u.len() {
        assert(t[u.len() as int] == 0u16);
    }
    assert(t.take(f) =~= u);
}

/// The text of a buffer holds no zero unit.
pub proof fn lemma_zstr_no_zero(t: Seq<u16>)
    ensures
        zstr(t).len() <= t.len(),
        forall|j: int| 0 <= j < zstr(t).len() ==> #[trigger] zstr(t)[j] != 0,
{
    lemma_first_zero(t, 0);
}

/// Fills `buf` with zeros and copies in as many units of `u` as fit before a final zero.
pub fn set_units(buf: &mut [u16], u: &[u16])
    ensures
        final(buf)@ == wstr_fill(u@, old(buf)@.len() as int),
{
    let n = buf.len();
    let mut i: usize = 0;
    while i < n
        invariant
            n == buf@.len(),
            n == old(buf)@.len(),
            i <= n,
            forall|j: int| 0 <= j < i ==> #[trigger] buf@[j] == wstr_fill(u@, n as int)[j],
        decreases n - i,
    {
        let v: u16 = if i < u.len() && i + 1 < n { u[i] } else { 0 };
        buf[i] = v;
        i = i + 1;
    }
    assert(buf@ =~= wstr_fill(u@, n as int));
}

/// Fills `buf` with zeros and copies in as many UTF-16 units of `s` as fit before a final
/// zero.
pub fn set_wstr(buf: &mut [u16], s: &str)
    ensures
        final(buf)@ == wstr_fill(utf16_of(s@), old(buf)@.len() as int),
{
    let u = utf16_units(s);
    set_units(buf, u.as_slice());
}

/// An 8-unit buffer holding `s` (see `set_wstr`).
pub fn wbuf8(s: &str) -> (b: [u16; 8])
    ensures
        b@ == wstr_fill(utf16_of(s@), 8),
{
    let mut b = [0u16; 8];
    set_wstr(&mut b, s);
    b
}

/// Whether the zero-terminated buffer `a` holds exactly the text `b` (up to the first zero
/// of each).
pub fn wstr_eq(a: &[u16], b: &str) -> (r: bool)
    ensures
        r == (zstr(a@) == zstr(utf16_of(b@))),
{
    let bu = utf16_units(b);
    units_zeq(a, bu.as_slice())
}

/// Whether two zero-terminated buffers hold the same text.
pub fn units_zeq(a: &[u16], b: &[u16]) -> (r: bool)
    ensures
        r == (zstr(a@) == zstr(b@)),
{
    let ghost av = a@;
    let ghost bv = b@;
    proof {
        lemma_first_zero(av, 0);
        lemma_first_zero(bv, 0);
    }
    let ghost za = first_zero_from(av, 0);
    let ghost zb = first_zero_from(bv, 0);
    let mut i: usize = 0;
    while true
        invariant
            av == a@,
            bv == b@,
            za == first_zero_from(av, 0),
            zb == first_zero_from(bv, 0),
            0 <= za <= av.len(),
            0 <= zb <= bv.len(),
            forall|j: int| 0 <= j < za ==> #[trigger] av[j] != 0,
            za < av.len() ==> av[za] == 0,
            forall|j: int| 0 <= j < zb ==> #[trigger] bv[j] != 0,
            zb < bv.len() ==> bv[zb] == 0,
            i <= za,
            i <= zb,
            forall|j: int| 0 <= j < i ==> av[j] == bv[j],
        decreases za - i,
    {
        let x: u16 = if i < a.len() { a[i] } else { 0 };
        let y: u16 = if i < b.len() { b[i] } else { 0 };
        if x != y {
            proof {
                if za == zb {
                    assert(zstr(av)[i as int] != zstr(bv)[i as int]);
                }
                assert(zstr(av).len() == za && zstr(bv).len() == zb);
            }
            return false;
        }
        if x == 0 {
            proof {
                assert(za == i && zb == i);
                assert(zstr(av) =~= zstr(bv));
            }
            return true;
        }
        i = i + 1;
    }
    false
}

/// A copy of the units.
pub fn units_vec(u: &[u16]) -> (v: Vec<u16>)
    ensures
        v@ == u@,
{
    let mut v: Vec<u16> = Vec::new();
    let mut i: usize = 0;
    while i < u.len()
        invariant
            i <= u.len(),
            v@ == u@.take(i as int),
        decreases u.len() - i,
    {
        v.push(u[i]);
        assert(u@.take(i + 1) =~= u@.take(i as int).push(u@[i as int]));
        i = i + 1;
    }
    assert(u@.take(u.len() as int) =~= u@);
    v
}

/// A buffer's text up to its first zero.
pub fn zero_prefix(buf: &[u16]) -> (v: Vec<u16>)
    ensures
        v@ == zstr(buf@),
{
    let ghost t = buf@;
    proof {
        lemma_first_zero(t, 0);
    }
    let mut v: Vec<u16> = Vec::new();
    let mut i: usize = 0;
    while i < buf.len() && buf[i] != 0
        invariant
            t == buf@,
            i <= first_zero_from(t, 0),
            first_zero_from(t, 0) <= t.len(),
            forall|j: int| 0 <= j < first_zero_from(t, 0) ==> #[trigger] t[j] != 0,
            first_zero_from(t, 0) < t.len() ==> t[first_zero_from(t, 0)] == 0,
            v@ == t.take(i as int),
        decreases buf.len() - i,
    {
        v.push(buf[i]);
        assert(t.take(i + 1) =~= t.take(i as int).push(t[i as int]));
        i = i + 1;
    }
    v
}

/// The units of `u` with every unpaired surrogate replaced by U+FFFD, as decoding UTF-16
/// lossily and encoding it again gives.
pub open spec fn lossy_units_spec(u: Seq<u16>) -> Seq<u16>
    decreases u.len(),
{
    if u.len() == 0 {
        seq![]
    } else if u.len() >= 2 && 0xD800 <= u[0] <= 0xDBFF && 0xDC00 <= u[1] <= 0xDFFF {
        seq![u[0], u[1]] + lossy_units_spec(u.subrange(2, u.len() as int))
    } else if 0xD800 <= u[0] <= 0xDFFF {
        seq![0xFFFDu16] + lossy_units_spec(u.drop_first())
    } else {
        seq![u[0]] + lossy_units_spec(u.drop_first())
    }
}

/// See `lossy_units_spec`.
pub fn lossy_units(u: &[u16]) -> (v: Vec<u16>)
    ensures
        v@ == lossy_units_spec(u@),
{
    let ghost full = lossy_units_spec(u@);
    let mut v: Vec<u16> = Vec::new();
    let mut i: usize = 0;
    assert(u@.subrange(0, u@.len() as int) =~= u@);
    while i < u.len()
        invariant
            i <= u.len(),
            full == lossy_units_spec(u@),
            v@ + lossy_units_spec(u@.subrange(i as int, u@.len() as int)) == full,
        decreases u.len() - i,
    {
        let ghost rest = u@.subrange(i as int, u@.len() as int);
        let c = u[i];
        if i + 1 < u.len() && 0xD800u16 <= c && c <= 0xDBFFu16 && 0xDC00u16 <= u[i + 1] && u[i + 1] <= 0xDFFFu16 {
            v.push(c);
            v.push(u[i + 1]);
            assert(rest.subrange(2, rest.len() as int) =~= u@.subrange(i + 2, u@.len() as int));
            i = i + 2;
        } else {
            if 0xD800u16 <= c && c <= 0xDFFFu16 {
                v.push(0xFFFD);
            } else {
                v.push(c);
            }
            assert(rest.drop_first() =~= u@.subrange(i + 1, u@.len() as int));
            i = i + 1;
        }
        assert(v@ + lossy_units_spec(u@.subrange(i as int, u@.len() as int)) =~= full);
    }
    assert(lossy_units_spec(u@.subrange(i as int, u@.len() as int)) =~= Seq::<u16>::empty());
    assert(v@ =~= full);
    v
}

/// A white-space unit in Unicode's sense (every such character is a single UTF-16 unit).
pub open spec fn is_space_unit(c: u16) -> bool {
    (9 <= c <= 13) || c == 32 || c == 0x85 || c == 0xA0 || c == 0x1680 || (0x2000 <= c <= 0x200A)
        || c == 0x2028 || c == 0x2029 || c == 0x202F || c == 0x205F || c == 0x3000
}

/// Index of the first unit from `i` on that is not white space (or the length).
pub open spec fn lead_space_end(u: Seq<u16>, i: int) -> int
    decreases u.len() - i,
{
    if i < 0 || i >= u.len() {
        u.len() as int
    } else if is_space_unit(u[i]) {
        lead_space_end(u, i + 1)
    } else {
        i
    }
}

/// One past the last unit before `j` that is not white space (or 0).
pub open spec fn trail_space_start(u: Seq<u16>, j: int) -> int
    decreases j,
{
    if j <= 0 || j > u.len() {
        0
    } else if is_space_unit(u[j - 1]) {
        trail_space_start(u, j - 1)
    } else {
        j
    }
}

/// The units with leading and trailing white space removed.
pub open spec fn trim_spec(u: Seq<u16>) -> Seq<u16> {
    let a = lead_space_end(u, 0);
    let e = trail_space_start(u, u.len() as int);
    if a >= e { seq![] } else { u.subrange(a, e) }
}

proof fn lemma_space_bounds(u: Seq<u16>, i: int, j: int)
    requires
        0 <= i <= u.len(),
        0 <= j <= u.len(),
    ensures
        i <= lead_space_end(u, i) <= u.len(),
        0 <= trail_space_start(u, j) <= j,
    decreases u.len() - i + j,
{
    if i < u.len() {
        lemma_space_bounds(u, i + 1, j);
    }
    if j > 0 {
        lemma_space_bounds(u, i, j - 1);
    }
}

/// See `trim_spec`.
pub fn trim_units(u: &[u16]) -> (v: Vec<u16>)
    ensures
        v@ == trim_spec(u@),
{
    proof {
        lemma_space_bounds(u@, 0, u@.len() as int);
    }
    let mut a: usize = 0;
    while a < u.len() && is_space(u[a])
        invariant
            a <= u.len(),
            lead_space_end(u@, 0) == lead_space_end(u@, a as int),
        decreases u.len() - a,
    {
        a = a + 1;
    }
    let mut e: usize = u.len();
    while e > 0 && is_space(u[e - 1])
        invariant
            e <= u.len(),
            trail_space_start(u@, u@.len() as int) == trail_space_start(u@, e as int),
        decreases e,
    {
        e = e - 1;
    }
    let mut v: Vec<u16> = Vec::new();
    if a >= e {
        return v;
    }
    let mut i: usize = a;
    while i < e
        invariant
            a <= i <= e,
            e <= u.len(),
            v@ == u@.subrange(a as int, i as int),
        decreases e - i,
    {
        v.push(u[i]);
        assert(u@.subrange(a as int, i + 1) =~= u@.subrange(a as int, i as int).push(u@[i as int]));
        i = i + 1;
    }
    v
}

/// See `is_space_unit`.
pub fn is_space(c: u16) -> (r: bool)
    ensures
        r == is_space_unit(c),
{
    (9u16 <= c && c <= 13u16) || c == 32u16 || c == 0x85u16 || c == 0xA0u16 || c == 0x1680u16
        || (0x2000u16 <= c && c <= 0x200Au16) || c == 0x2028u16 || c == 0x2029u16 || c == 0x202Fu16
        || c == 0x205Fu16 || c == 0x3000u16
}

} // verus!
