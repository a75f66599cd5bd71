//! Virtual-key codes, key names, and the small text and message helpers of the keyboard.
use vstd::prelude::*;

verus! {

// Windows virtual-key codes used by the keyboard.
pub const VK_BACK: u32 = 0x08;
pub const VK_TAB: u32 = 0x09;
pub const VK_RETURN: u32 = 0x0D;
pub const VK_SHIFT: u32 = 0x10;
pub const VK_CONTROL: u32 = 0x11;
pub const VK_MENU: u32 = 0x12;
pub const VK_CAPITAL: u32 = 0x14;
pub const VK_ESCAPE: u32 = 0x1B;
pub const VK_SPACE: u32 = 0x20;
pub const VK_PRIOR: u32 = 0x21;
pub const VK_NEXT: u32 = 0x22;
pub const VK_END: u32 = 0x23;
pub const VK_HOME: u32 = 0x24;
pub const VK_LEFT: u32 = 0x25;
pub const VK_UP: u32 = 0x26;
pub const VK_RIGHT: u32 = 0x27;
pub const VK_DOWN: u32 = 0x28;
pub const VK_SNAPSHOT: u32 = 0x2C;
pub const VK_INSERT: u32 = 0x2D;
pub const VK_DELETE: u32 = 0x2E;
pub const VK_LWIN: u32 = 0x5B;
pub const VK_APPS: u32 = 0x5D;
pub const VK_F1: u32 = 0x70;
pub const VK_F12: u32 = 0x7B;
pub const VK_OEM_1: u32 = 0xBA;
pub const VK_OEM_PLUS: u32 = 0xBB;
pub const VK_OEM_COMMA: u32 = 0xBC;
pub const VK_OEM_MINUS: u32 = 0xBD;
pub const VK_OEM_PERIOD: u32 = 0xBE;
pub const VK_OEM_2: u32 = 0xBF;
pub const VK_OEM_3: u32 = 0xC0;
pub const VK_OEM_4: u32 = 0xDB;
pub const VK_OEM_5: u32 = 0xDC;
pub const VK_OEM_6: u32 = 0xDD;
pub const VK_OEM_7: u32 = 0xDE;

/// The virtual-key code of modifier `m` (Shift, Ctrl, Alt, Win).
pub open spec fn mod_vk_spec(m: int) -> u32 {
    if m == 0 {
        VK_SHIFT
    } else if m == 1 {
        VK_CONTROL
    } else if m == 2 {
        VK_MENU
    } else {
        VK_LWIN
    }
}

/// The virtual-key code of modifier `m` (0 Shift, 1 Ctrl, 2 Alt, 3 Win).
pub fn mod_vk(m: usize) -> (vk: u32)
    requires
        m < 4,
    ensures
        vk == mod_vk_spec(m as int),
{
    if m == 0 {
        VK_SHIFT
    } else if m == 1 {
        VK_CONTROL
    } else if m == 2 {
        VK_MENU
    } else {
        VK_LWIN
    }
}

/// The key of the US layout that types ASCII character `c` (its low byte is what counts):
/// letters give their upper-case code, digits give the character itself, punctuation its
/// OEM key, anything else 0.
pub open spec fn char_to_vk_spec(lo: u16) -> u32 {
    let c = (lo % 256) as u8;
    if 97 <= c <= 122 {
        (c - 32) as u32
    } else if 65 <= c <= 90 {
        c as u32
    } else if 48 <= c <= 57 {
        lo as u32
    } else if c == 59 {
        VK_OEM_1
    } else if c == 61 {
        VK_OEM_PLUS
    } else if c == 44 {
        VK_OEM_COMMA
    } else if c == 45 {
        VK_OEM_MINUS
    } else if c == 46 {
        VK_OEM_PERIOD
    } else if c == 47 {
        VK_OEM_2
    } else if c == 96 {
        VK_OEM_3
    } else if c == 91 {
        VK_OEM_4
    } else if c == 92 {
        VK_OEM_5
    } else if c == 93 {
        VK_OEM_6
    } else if c == 39 {
        VK_OEM_7
    } else {
        0
    }
}

/// See `char_to_vk_spec`.
pub fn char_to_vk(lo: u16) -> (vk: u32)
    ensures
        vk == char_to_vk_spec(lo),
{
    let c = (lo % 256) as u8;
    if 97u8 <= c && c <= 122u8 {
        (c - 32) as u32
    } else if 65u8 <= c && c <= 90u8 {
        c as u32
    } else if 48u8 <= c && c <= 57u8 {
        lo as u32
    } else if c == 59u8 {
        VK_OEM_1
    } else if c == 61u8 {
        VK_OEM_PLUS
    } else if c == 44u8 {
        VK_OEM_COMMA
    } else if c == 45u8 {
        VK_OEM_MINUS
    } else if c == 46u8 {
        VK_OEM_PERIOD
    } else if c == 47u8 {
        VK_OEM_2
    } else if c == 96u8 {
        VK_OEM_3
    } else if c == 91u8 {
        VK_OEM_4
    } else if c == 92u8 {
        VK_OEM_5
    } else if c == 93u8 {
        VK_OEM_6
    } else if c == 39u8 {
        VK_OEM_7
    } else {
        0
    }
}

/// Keys that need the extended-key flag when injected.
pub open spec fn is_ext_key_spec(vk: u32) -> bool {
    let v = vk % 65536;
    v == VK_LEFT || v == VK_UP || v == VK_RIGHT || v == VK_DOWN || v == VK_LWIN || v == VK_APPS
        || v == VK_DELETE || v == VK_SNAPSHOT || v == VK_HOME || v == VK_END || v == VK_PRIOR
        || v == VK_NEXT || v == VK_INSERT
}

/// See `is_ext_key_spec` (the code is judged on its low 16 bits).
pub fn is_ext_key(vk: u32) -> (r: bool)
    ensures
        r == is_ext_key_spec(vk),
{
    let v = vk % 65536;
    v == VK_LEFT || v == VK_UP || v == VK_RIGHT || v == VK_DOWN || v == VK_LWIN || v == VK_APPS
        || v == VK_DELETE || v == VK_SNAPSHOT || v == VK_HOME || v == VK_END || v == VK_PRIOR
        || v == VK_NEXT || v == VK_INSERT
}

/// Keys that repeat while held: Backspace, Delete, Space, the arrows, Page Up and Down.
pub open spec fn is_repeatable_spec(vk: u32) -> bool {
    let v = vk % 65536;
    v == VK_BACK || v == VK_DELETE || v == VK_SPACE || v == VK_LEFT || v == VK_UP || v == VK_DOWN
        || v == VK_RIGHT || v == VK_PRIOR || v == VK_NEXT
}

/// See `is_repeatable_spec` (the code is judged on its low 16 bits).
pub fn is_repeatable(vk: u32) -> (r: bool)
    ensures
        r == is_repeatable_spec(vk),
{
    let v = vk % 65536;
    v == VK_BACK || v == VK_DELETE || v == VK_SPACE || v == VK_LEFT || v == VK_UP || v == VK_DOWN
        || v == VK_RIGHT || v == VK_PRIOR || v == VK_NEXT
}

// ---------------------------------------------------------------------------
// Key names
// ---------------------------------------------------------------------------

/// Upper-case hexadecimal digit of a value below 16.
pub open spec fn hex_digit(v: int) -> u16 {
    if v < 10 { (48 + v) as u16 } else { (55 + v) as u16 }
}

/// ASCII text as UTF-16 units.
pub open spec fn ascii_units(s: Seq<u8>) -> Seq<u16> {
    s.map_values(|b: u8| b as u16)
}

/// The short name of a key shown on shortcut buttons: the letter or digit itself, F1 to
/// F12, a short word for the named keys (matched on the low 16 bits of the code), the
/// character of the punctuation keys, else two upper-case hex digits of the low byte.
pub open spec fn key_name_spec(vk: u32) -> Seq<u16> {
    let v = vk % 65536;
    if 65 <= vk <= 90 || 48 <= vk <= 57 {
        seq![vk as u16]
    } else if VK_F1 <= vk <= VK_F12 {
        if vk - VK_F1 + 1 < 10 {
            seq![70u16, (48 + vk - VK_F1 + 1) as u16]
        } else {
            seq![70u16, 49u16, (48 + vk - VK_F1 + 1 - 10) as u16]
        }
    } else if v == VK_TAB {
        ascii_units(seq![84u8, 97, 98])
    } else if v == VK_RETURN {
        ascii_units(seq![69u8, 110, 116])
    } else if v == VK_ESCAPE {
        ascii_units(seq![69u8, 115, 99])
    } else if v == VK_BACK {
        ascii_units(seq![66u8, 107, 115, 112])
    } else if v == VK_DELETE {
        ascii_units(seq![68u8, 101, 108])
    } else if v == VK_SPACE {
        ascii_units(seq![83u8, 112, 99])
    } else if v == VK_LEFT {
        ascii_units(seq![76u8, 116])
    } else if v == VK_UP {
        ascii_units(seq![85u8, 112])
    } else if v == VK_RIGHT {
        ascii_units(seq![82u8, 116])
    } else if v == VK_DOWN {
        ascii_units(seq![68u8, 110])
    } else if v == VK_CAPITAL {
        ascii_units(seq![67u8, 97, 112, 115])
    } else if v == VK_PRIOR {
        ascii_units(seq![80u8, 103, 85, 112])
    } else if v == VK_NEXT {
        ascii_units(seq![80u8, 103, 68, 110])
    } else if v == VK_SNAPSHOT {
        ascii_units(seq![80u8, 114, 116])
    } else if v == VK_APPS {
        ascii_units(seq![77u8, 101, 110, 117])
    } else if v == VK_OEM_1 {
        seq![59u16]
    } else if v == VK_OEM_PLUS {
        seq![61u16]
    } else if v == VK_OEM_COMMA {
        seq![44u16]
    } else if v == VK_OEM_MINUS {
        seq![45u16]
    } else if v == VK_OEM_PERIOD {
        seq![46u16]
    } else if v == VK_OEM_2 {
        seq![47u16]
    } else if v == VK_OEM_3 {
        seq![96u16]
    } else if v == VK_OEM_4 {
        seq![91u16]
    } else if v == VK_OEM_5 {
        seq![92u16]
    } else if v == VK_OEM_6 {
        seq![93u16]
    } else if v == VK_OEM_7 {
        seq![39u16]
    } else {
        seq![hex_digit(((vk % 256) / 16) as int), hex_digit((vk % 16) as int)]
    }
}

fn ascii_vec(s: &[u8]) -> (v: Vec<u16>)
    ensures
        v@ == ascii_units(s@),
{
    let mut v: Vec<u16> = Vec::new();
    let mut i: usize = 0;
    while i < s.len()
        invariant
            i <= s.len(),
            v@ == ascii_units(s@.take(i as int)),
        decreases s.len() - i,
    {
        v.push(s[i] as u16);
        assert(ascii_units(s@.take(i + 1)) =~= ascii_units(s@.take(i as int)).push(s@[i as int] as u16));
        i = i + 1;
    }
    assert(s@.take(s.len() as int) =~= s@);
    v
}

fn hex_digit_exec(v: u32) -> (d: u16)
    requires
        v < 16,
    ensures
        d == hex_digit(v as int),
{
    if v < 10 {
        (48 + v) as u16
    } else {
        (55 + v) as u16
    }
}

/// The short name of a key (see `key_name_spec`), as UTF-16 units.
pub fn key_name(vk: u32) -> (name: Vec<u16>)
    ensures
        name@ == key_name_spec(vk),
{
    let v = vk % 65536;
    if (65 <= vk && vk <= 90) || (48 <= vk && vk <= 57) {
        let mut n: Vec<u16> = Vec::new();
        n.push(vk as u16);
        assert(n@ =~= seq![vk as u16]);
        return n;
    }
    if VK_F1 <= vk && vk <= VK_F12 {
        let k = vk - VK_F1 + 1;
        let mut n: Vec<u16> = Vec::new();
        n.push(70u16);
        if k < 10 {
            n.push((48 + k) as u16);
            assert(n@ =~= seq![70u16, (48 + vk - VK_F1 + 1) as u16]);
        } else {
            n.push(49u16);
            n.push((48 + k - 10) as u16);
            assert(n@ =~= seq![70u16, 49u16, (48 + vk - VK_F1 + 1 - 10) as u16]);
        }
        return n;
    }
    let r = if v == VK_TAB {
        ascii_vec(&[84u8, 97, 98])
    } else if v == VK_RETURN {
        ascii_vec(&[69u8, 110, 116])
    } else if v == VK_ESCAPE {
        ascii_vec(&[69u8, 115, 99])
    } else if v == VK_BACK {
        ascii_vec(&[66u8, 107, 115, 112])
    } else if v == VK_DELETE {
        ascii_vec(&[68u8, 101, 108])
    } else if v == VK_SPACE {
        ascii_vec(&[83u8, 112, 99])
    } else if v == VK_LEFT {
        ascii_vec(&[76u8, 116])
    } else if v == VK_UP {
        ascii_vec(&[85u8, 112])
    } else if v == VK_RIGHT {
        ascii_vec(&[82u8, 116])
    } else if v == VK_DOWN {
        ascii_vec(&[68u8, 110])
    } else if v == VK_CAPITAL {
        ascii_vec(&[67u8, 97, 112, 115])
    } else if v == VK_PRIOR {
        ascii_vec(&[80u8, 103, 85, 112])
    } else if v == VK_NEXT {
        ascii_vec(&[80u8, 103, 68, 110])
    } else if v == VK_SNAPSHOT {
        ascii_vec(&[80u8, 114, 116])
    } else if v == VK_APPS {
        ascii_vec(&[77u8, 101, 110, 117])
    } else {
        let mut n: Vec<u16> = Vec::new();
        let single: u16 = if v == VK_OEM_1 {
            59
        } else if v == VK_OEM_PLUS {
            61
        } else if v == VK_OEM_COMMA {
            44
        } else if v == VK_OEM_MINUS {
            45
        } else if v == VK_OEM_PERIOD {
            46
        } else if v == VK_OEM_2 {
            47
        } else if v == VK_OEM_3 {
            96
        } else if v == VK_OEM_4 {
            91
        } else if v == VK_OEM_5 {
            92
        } else if v == VK_OEM_6 {
            93
        } else if v == VK_OEM_7 {
            39
        } else {
            0
        };
        if single != 0 {
            n.push(single);
        } else {
            n.push(hex_digit_exec((vk % 256) / 16));
            n.push(hex_digit_exec(vk % 16));
        }
        n
    };
    proof {
        assert(r@ =~= key_name_spec(vk));
    }
    r
}

/// The automatic name of a shortcut: "C+", "S+", "A+", "W+" for Ctrl, Shift, Alt and Win
/// (in that order) followed by the key's name.
pub open spec fn auto_name_spec(mods: i32, vk: u32) -> Seq<u16> {
    (if mods & 2 != 0 { seq![67u16, 43] } else { seq![] }) + (if mods & 1 != 0 { seq![83u16, 43] } else { seq![] })
        + (if mods & 4 != 0 { seq![65u16, 43] } else { seq![] }) + (if mods & 8 != 0 { seq![87u16, 43] } else { seq![] })
        + key_name_spec(vk)
}

/// See `auto_name_spec`.
pub fn auto_name(mods: i32, vk: u32) -> (name: Vec<u16>)
    ensures
        name@ == auto_name_spec(mods, vk),
{
    let mut out: Vec<u16> = Vec::new();
    if mods & 2 != 0 {
        out.push(67);
        out.push(43);
    }
    let ghost a = out@;
    if mods & 1 != 0 {
        out.push(83);
        out.push(43);
    }
    let ghost b = out@;
    if mods & 4 != 0 {
        out.push(65);
        out.push(43);
    }
    let ghost c = out@;
    if mods & 8 != 0 {
        out.push(87);
        out.push(43);
    }
    let kn = key_name(vk);
    let mut i: usize = 0;
    let ghost pre = out@;
    while i < kn.len()
        invariant
            i <= kn.len(),
            out@ == pre + kn@.take(i as int),
        decreases kn.len() - i,
    {
        out.push(kn[i]);
        assert(kn@.take(i + 1) =~= kn@.take(i as int).push(kn@[i as int]));
        i = i + 1;
    }
    proof {
        assert(kn@.take(kn.len() as int) =~= kn@);
        assert(out@ =~= auto_name_spec(mods, vk));
    }
    out
}

// ---------------------------------------------------------------------------
// Window message words and colours
// ---------------------------------------------------------------------------

/// Packs red, green and blue components into a `COLORREF` value.
pub fn rgb(r: u32, g: u32, b: u32) -> (c: u32)
    requires
        r < 256,
        g < 256,
        b < 256,
    ensures
        c == r + g * 256 + b * 65536,
{
    assert(r | (g << 8) | (b << 16) == r + g * 256 + b * 65536) by (bit_vector)
        requires
            r < 256,
            g < 256,
            b < 256,
    ;
    r | (g << 8) | (b << 16)
}

/// The low 16 bits of a message parameter, unsigned.
pub fn loword(l: isize) -> (w: i32)
    ensures
        w == l & 0xffff,
        0 <= w < 65536,
{
    let v = l & 0xffff;
    assert(0 <= l & 0xffff <= 0xffff) by (bit_vector);
    v as i32
}

/// Bits 16 to 31 of a message parameter, unsigned.
pub fn hiword(l: isize) -> (w: i32)
    ensures
        w == (l >> 16) & 0xffff,
        0 <= w < 65536,
{
    let v = (l >> 16) & 0xffff;
    assert(0 <= (l >> 16) & 0xffff <= 0xffff) by (bit_vector);
    v as i32
}

/// A 16-bit field read as a signed coordinate.
pub open spec fn signed16(v: int) -> int {
    if v >= 32768 { v - 65536 } else { v }
}

/// The x coordinate of a mouse message: the low 16 bits, signed.
pub fn get_x_lparam(l: isize) -> (x: i32)
    ensures
        x == signed16((l & 0xffff) as int),
{
    let v = loword(l);
    if v >= 32768 { v - 65536 } else { v }
}

/// The y coordinate of a mouse message: bits 16 to 31, signed.
pub fn get_y_lparam(l: isize) -> (y: i32)
    ensures
        y == signed16(((l >> 16) & 0xffff) as int),
{
    let v = hiword(l);
    if v >= 32768 { v - 65536 } else { v }
}

} // verus!
