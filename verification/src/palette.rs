//! Colours as the renderers use them: the 256-colour palettes of the terminal view
//! and of the CRT rasterizer, and `#RRGGBB` colour strings.

use vstd::prelude::*;
use vstd::utf8::encode_utf8;

use crate::profile::{hex_byte, is_continuation};
use crate::shortcuts::{trim, trimmed_part};
use crate::text::{chars_of, push_char, string_from_chars};

verus! {

/// The component of a 6×6×6 colour-cube step in the terminal view's palette.
pub open spec fn cube_step(c: int) -> int {
    c * 51
}

/// The terminal view's colour for a 256-colour index: its own shades for the 16
/// ANSI colours, then the 6×6×6 cube in steps of 51, then 24 greys from 8 in steps
/// of 10.
pub open spec fn view_palette(idx: u8) -> (u8, u8, u8) {
    if idx == 0 {
        (0x45, 0x47, 0x5a)
    } else if idx == 1 || idx == 9 {
        (0xf3, 0x8b, 0xa8)
    } else if idx == 2 || idx == 10 {
        (0xa6, 0xe3, 0xa1)
    } else if idx == 3 || idx == 11 {
        (0xf9, 0xe2, 0xaf)
    } else if idx == 4 || idx == 12 {
        (0x89, 0xb4, 0xfa)
    } else if idx == 5 || idx == 13 {
        (0xf5, 0xc2, 0xe7)
    } else if idx == 6 || idx == 14 {
        (0x94, 0xe2, 0xd5)
    } else if idx == 7 {
        (0xba, 0xc2, 0xde)
    } else if idx == 8 {
        (0x58, 0x5b, 0x70)
    } else if idx == 15 {
        (0xa6, 0xad, 0xc8)
    } else if idx <= 231 {
        let n = idx - 16;
        (cube_step(n / 36) as u8, cube_step((n / 6) % 6) as u8, cube_step(n % 6) as u8)
    } else {
        let v = ((idx - 232) * 10 + 8) as u8;
        (v, v, v)
    }
}

/// The 256-colour indices above the sixteen named colours: `16 + 36r + 6g + b` is
/// the cube colour with red, green and blue steps `r`, `g`, `b` (each below 6), and
/// `232 + k` the `k`-th grey. In the terminal view's palette a step is 51 and the
/// greys go from 8 in steps of 10; in the xterm palette a step is 0, then 95 to 255
/// in steps of 40, with the same greys.
pub proof fn lemma_cube_and_greys(r: u8, g: u8, b: u8, k: u8)
    requires
        r < 6,
        g < 6,
        b < 6,
        k < 24,
    ensures
        ({
            let idx = (16 + 36 * r + 6 * g + b) as u8;
            let x = |c: u8| if c == 0 { 0u8 } else { (55 + 40 * c) as u8 };
            &&& view_palette(idx) == ((51 * r) as u8, (51 * g) as u8, (51 * b) as u8)
            &&& xterm_palette(idx) == (x(r), x(g), x(b))
        }),
        view_palette((232 + k) as u8) == ((8 + 10 * k) as u8, (8 + 10 * k) as u8, (8 + 10 * k) as u8),
        xterm_palette((232 + k) as u8) == ((8 + 10 * k) as u8, (8 + 10 * k) as u8, (8 + 10 * k) as u8),
{
    let n = 36 * r + 6 * g + b;
    assert(n / 36 == r && (n / 6) % 6 == g && n % 6 == b && (n / 36) % 6 == r) by (nonlinear_arith)
        requires
            n == 36 * r + 6 * g + b,
            r < 6,
            g < 6,
            b < 6,
    ;
}

/// The terminal view's colour for a 256-colour index.
pub fn indexed_color_to_rgb(idx: u8) -> (r: (u8, u8, u8))
    ensures
        r == view_palette(idx),
{
    match idx {
        0 => (0x45, 0x47, 0x5a),
        1 | 9 => (0xf3, 0x8b, 0xa8),
        2 | 10 => (0xa6, 0xe3, 0xa1),
        3 | 11 => (0xf9, 0xe2, 0xaf),
        4 | 12 => (0x89, 0xb4, 0xfa),
        5 | 13 => (0xf5, 0xc2, 0xe7),
        6 | 14 => (0x94, 0xe2, 0xd5),
        7 => (0xba, 0xc2, 0xde),
        8 => (0x58, 0x5b, 0x70),
        15 => (0xa6, 0xad, 0xc8),
        16..=231 => {
            let n = idx - 16;
            ((n / 36) * 51, ((n / 6) % 6) * 51, (n % 6) * 51)
        },
        _ => {
            let v = (idx - 232) * 10 + 8;
            (v, v, v)
        },
    }
}

/// The component of a colour-cube step in the xterm palette: 0, then 95 to 255 in
/// steps of 40.
pub open spec fn xterm_step(c: int) -> int {
    if c == 0 {
        0
    } else {
        55 + 40 * c
    }
}

/// The standard xterm colour for a 256-colour index, as the CRT rasterizer uses it.
pub open spec fn xterm_palette(idx: u8) -> (u8, u8, u8) {
    if idx == 0 {
        (0x00, 0x00, 0x00)
    } else if idx == 1 {
        (0xcd, 0x00, 0x00)
    } else if idx == 2 {
        (0x00, 0xcd, 0x00)
    } else if idx == 3 {
        (0xcd, 0xcd, 0x00)
    } else if idx == 4 {
        (0x00, 0x00, 0xee)
    } else if idx == 5 {
        (0xcd, 0x00, 0xcd)
    } else if idx == 6 {
        (0x00, 0xcd, 0xcd)
    } else if idx == 7 {
        (0xe5, 0xe5, 0xe5)
    } else if idx == 8 {
        (0x7f, 0x7f, 0x7f)
    } else if idx == 9 {
        (0xff, 0x00, 0x00)
    } else if idx == 10 {
        (0x00, 0xff, 0x00)
    } else if idx == 11 {
        (0xff, 0xff, 0x00)
    } else if idx == 12 {
        (0x5c, 0x5c, 0xff)
    } else if idx == 13 {
        (0xff, 0x00, 0xff)
    } else if idx == 14 {
        (0x00, 0xff, 0xff)
    } else if idx == 15 {
        (0xff, 0xff, 0xff)
    } else if idx <= 231 {
        let i = idx - 16;
        (
            xterm_step((i / 36) % 6) as u8,
            xterm_step((i / 6) % 6) as u8,
            xterm_step(i % 6) as u8,
        )
    } else {
        let v = (8 + 10 * (idx - 232)) as u8;
        (v, v, v)
    }
}

fn xterm_component(c: u8) -> (r: u8)
    requires
        c < 6,
    ensures
        r == xterm_step(c as int),
{
    if c == 0 {
        0
    } else {
        55 + 40 * c
    }
}

/// The standard xterm colour for a 256-colour index.
pub fn ansi_index_to_color(idx: u8) -> (r: (u8, u8, u8))
    ensures
        r == xterm_palette(idx),
{
    match idx {
        0 => (0x00, 0x00, 0x00),
        1 => (0xcd, 0x00, 0x00),
        2 => (0x00, 0xcd, 0x00),
        3 => (0xcd, 0xcd, 0x00),
        4 => (0x00, 0x00, 0xee),
        5 => (0xcd, 0x00, 0xcd),
        6 => (0x00, 0xcd, 0xcd),
        7 => (0xe5, 0xe5, 0xe5),
        8 => (0x7f, 0x7f, 0x7f),
        9 => (0xff, 0x00, 0x00),
        10 => (0x00, 0xff, 0x00),
        11 => (0xff, 0xff, 0x00),
        12 => (0x5c, 0x5c, 0xff),
        13 => (0xff, 0x00, 0xff),
        14 => (0x00, 0xff, 0xff),
        15 => (0xff, 0xff, 0xff),
        16..=231 => {
            let i = idx - 16;
            (
                xterm_component((i / 36) % 6),
                xterm_component((i / 6) % 6),
                xterm_component(i % 6),
            )
        },
        _ => {
            let v = 8 + 10 * (idx - 232);
            (v, v, v)
        },
    }
}

/// The colour six bytes spell as three hexadecimal pairs, each as
/// `u8::from_str_radix(.., 16)` reads it.
pub open spec fn hex_rgb(bs: Seq<u8>) -> Option<(u8, u8, u8)> {
    if bs.len() == 6 {
        match (hex_byte(bs[0], bs[1]), hex_byte(bs[2], bs[3]), hex_byte(bs[4], bs[5])) {
            (Some(r), Some(g), Some(b)) => Some((r, g, b)),
            _ => None,
        }
    } else {
        None
    }
}

/// Six bytes whose pairs can be sliced: no character starts inside one.
pub open spec fn pairs_sliceable(bs: Seq<u8>) -> bool {
    bs.len() == 6 ==> !is_continuation(bs[2]) && !is_continuation(bs[4])
}

/// The text after a leading `#`, when the trimmed text has one.
pub open spec fn after_hash(s: Seq<char>) -> Option<Seq<char>> {
    let t = trim(s);
    if t.len() > 0 && t[0] == '#' {
        Some(t.subrange(1, t.len() as int))
    } else {
        None
    }
}

/// The number of `#` characters the text starts with.
pub open spec fn leading_hashes(s: Seq<char>, i: int) -> int
    decreases s.len() - i,
{
    if i < 0 || i >= s.len() || s[i] != '#' {
        i
    } else {
        leading_hashes(s, i + 1)
    }
}

/// The text without its leading `#` characters, as `trim_start_matches('#')`.
pub open spec fn strip_hashes(s: Seq<char>) -> Seq<char> {
    s.subrange(leading_hashes(s, 0), s.len() as int)
}

/// One colour component of six bytes, or the fallback when its pair is not hex.
pub open spec fn component_or(bs: Seq<u8>, k: int, fallback: u8) -> u8 {
    match hex_byte(bs[2 * k], bs[2 * k + 1]) {
        Some(v) => v,
        None => fallback,
    }
}

/// A `#RRGGBB` colour with a fallback for each component: the fallback colour
/// unless the text (leading `#`s removed) is six bytes, else each pair's value or
/// that component's fallback.
pub open spec fn color_or(s: Seq<char>, dr: u8, dg: u8, db: u8) -> (u8, u8, u8) {
    let bs = encode_utf8(strip_hashes(s));
    if bs.len() != 6 {
        (dr, dg, db)
    } else {
        (component_or(bs, 0, dr), component_or(bs, 1, dg), component_or(bs, 2, db))
    }
}

/// The bytes of the characters.
fn utf8_of(v: &Vec<char>) -> (r: Vec<u8>)
    ensures
        r@ == encode_utf8(v@),
{
    let s = string_from_chars(v.as_slice());
    vstd::slice::slice_to_vec(s.as_str().as_bytes())
}

/// A hexadecimal digit's value.
fn hex_digit_of(b: u8) -> (r: Option<u8>)
    ensures
        r == crate::profile::hex_digit(b),
{
    if 48 <= b && b <= 57 {
        Some(b - 48)
    } else if 97 <= b && b <= 102 {
        Some(b - 87)
    } else if 65 <= b && b <= 70 {
        Some(b - 55)
    } else {
        None
    }
}

/// `u8::from_str_radix` in base 16 on two bytes.
fn hex_pair(b0: u8, b1: u8) -> (r: Option<u8>)
    ensures
        r == hex_byte(b0, b1),
{
    if b0 == 43 {
        return hex_digit_of(b1);
    }
    match (hex_digit_of(b0), hex_digit_of(b1)) {
        (Some(hi), Some(lo)) => Some(hi * 16 + lo),
        _ => None,
    }
}

/// A `#RRGGBB` colour string (surrounding whitespace allowed); none when it is not
/// one.
pub fn parse_hex_color(hex: &str) -> (r: Option<(u8, u8, u8)>)
    ensures
        r == match after_hash(hex@) {
            Some(rest) => hex_rgb(encode_utf8(rest)),
            None => None,
        },
{
    let cs = chars_of(hex);
    assert(cs@.subrange(0, cs@.len() as int) =~= cs@);
    let t = chars_of(trimmed_part(&cs, 0, cs.len()).as_str());
    if t.len() == 0 || t[0] != '#' {
        return None;
    }
    let mut rest: Vec<char> = Vec::new();
    let mut i: usize = 1;
    while i < t.len()
        invariant
            1 <= i <= t@.len(),
            rest@ == t@.subrange(1, i as int),
        decreases t@.len() - i,
    {
        rest.push(t[i]);
        i += 1;
        assert(rest@ =~= t@.subrange(1, i as int));
    }
    let bs = utf8_of(&rest);
    if bs.len() != 6 {
        return None;
    }
    match (hex_pair(bs[0], bs[1]), hex_pair(bs[2], bs[3]), hex_pair(bs[4], bs[5])) {
        (Some(r), Some(g), Some(b)) => Some((r, g, b)),
        _ => None,
    }
}

/// The characters without their leading `#`s.
fn without_hashes(s: &str) -> (r: Vec<char>)
    ensures
        r@ == strip_hashes(s@),
{
    let cs = chars_of(s);
    let mut k: usize = 0;
    while k < cs.len() && cs[k] == '#'
        invariant
            cs@ == s@,
            k <= cs@.len(),
            leading_hashes(s@, k as int) == leading_hashes(s@, 0),
        decreases cs@.len() - k,
    {
        k += 1;
    }
    let mut out: Vec<char> = Vec::new();
    let mut i = k;
    while i < cs.len()
        invariant
            cs@ == s@,
            k <= i <= cs@.len(),
            leading_hashes(s@, k as int) == leading_hashes(s@, 0),
            leading_hashes(s@, k as int) == k,
            out@ == s@.subrange(k as int, i as int),
        decreases cs@.len() - i,
    {
        out.push(cs[i]);
        i += 1;
        assert(out@ =~= s@.subrange(k as int, i as int));
    }
    out
}

/// A `#RRGGBB` colour with a fallback for each component that does not parse.
pub fn parse_param_color(hex: Option<&str>, dr: u8, dg: u8, db: u8) -> (r: (u8, u8, u8))
    requires
        hex matches Some(h) ==> pairs_sliceable(encode_utf8(strip_hashes(h@))),
    ensures
        r == match hex {
            Some(h) => color_or(h@, dr, dg, db),
            None => (dr, dg, db),
        },
{
    let hex = match hex {
        Some(h) => h,
        None => return (dr, dg, db),
    };
    let rest = without_hashes(hex);
    let bs = utf8_of(&rest);
    if bs.len() != 6 {
        return (dr, dg, db);
    }
    let r = match hex_pair(bs[0], bs[1]) {
        Some(v) => v,
        None => dr,
    };
    let g = match hex_pair(bs[2], bs[3]) {
        Some(v) => v,
        None => dg,
    };
    let b = match hex_pair(bs[4], bs[5]) {
        Some(v) => v,
        None => db,
    };
    (r, g, b)
}

/// A `#RRGGBB` colour as settings edit it: white where it does not parse.
pub fn hex_to_rgb(hex: &str) -> (r: [u8; 3])
    requires
        pairs_sliceable(encode_utf8(strip_hashes(hex@))),
    ensures
        ({
            let c = color_or(hex@, 255, 255, 255);
            r@ == seq![c.0, c.1, c.2]
        }),
{
    let (r, g, b) = parse_param_color(Some(hex), 255, 255, 255);
    let out = [r, g, b];
    assert(out@ =~= seq![r, g, b]);
    out
}

/// The lowercase hexadecimal digit of a value below 16.
pub open spec fn hex_char(d: int) -> char {
    if d < 10 {
        (d + 48) as char
    } else {
        (d + 87) as char
    }
}

/// A byte as two lowercase hexadecimal digits.
pub open spec fn hex2(b: u8) -> Seq<char> {
    seq![hex_char((b / 16) as int), hex_char((b % 16) as int)]
}

/// Writing a byte as two hexadecimal digits and reading them back gives the byte:
/// the colour text settings write is read back as the same colour.
pub proof fn lemma_hex_round_trip(b: u8)
    ensures
        hex_byte(
            (hex_char((b / 16) as int) as u32) as u8,
            (hex_char((b % 16) as int) as u32) as u8,
        ) == Some(b),
{
    let hi = (b / 16) as int;
    let lo = (b % 16) as int;
    assert(hi < 16 && lo < 16 && b == hi * 16 + lo);
}

fn hex_char_of(d: u8) -> (c: char)
    requires
        d < 16,
    ensures
        c == hex_char(d as int),
{
    if d < 10 {
        (d + 48) as char
    } else {
        (d + 87) as char
    }
}

/// A colour as `#rrggbb` in lowercase.
pub fn rgb_to_hex(r: u8, g: u8, b: u8) -> (s: String)
    ensures
        s@ == seq!['#'] + hex2(r) + hex2(g) + hex2(b),
{
    let mut s = String::new();
    push_char(&mut s, '#');
    push_char(&mut s, hex_char_of(r / 16));
    push_char(&mut s, hex_char_of(r % 16));
    push_char(&mut s, hex_char_of(g / 16));
    push_char(&mut s, hex_char_of(g % 16));
    push_char(&mut s, hex_char_of(b / 16));
    push_char(&mut s, hex_char_of(b % 16));
    assert(s@ =~= seq!['#'] + hex2(r) + hex2(g) + hex2(b));
    s
}

} // verus!
