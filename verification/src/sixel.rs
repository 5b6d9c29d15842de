//! Sixel graphics protocol support.
//!
//! Implements decoding of Sixel DCS sequences into RGBA pixel buffers,
//! and provides an image layer for inline terminal graphics.
//!
//! Sixel format encodes 6 vertical pixels per character. Each data byte
//! (0x3F-0x7E) represents a 6-bit column, with bits mapping bottom-to-top.
use vstd::prelude::*;

use crate::text::{is_whitespace, is_ws, push_char, trim_end};

verus! {

// ── HLS colors ─────────────────────────────────────────────────────────

pub open spec fn abs(v: int) -> int {
    if v < 0 {
        -v
    } else {
        v
    }
}

/// Denominator of the fixed-point HLS computation: channels are multiples of
/// 1/600000.
pub open spec fn hls_den() -> int {
    600000
}

/// A channel value `n / 600000` in [0, 1], scaled to 0-255: rounded half away from
/// zero, and clamped to 0..=255 (as a float-to-`u8` cast does).
pub open spec fn hls_channel(n: int) -> u8 {
    if n <= 0 {
        0
    } else {
        let v = (2 * n * 255 + hls_den()) / (2 * hls_den());
        if v > 255 {
            255
        } else {
            v as u8
        }
    }
}

/// HLS (hue 0-360, lightness 0-100, saturation 0-100) to RGB, with the usual
/// chroma/sector formula evaluated exactly.
pub open spec fn spec_hls_to_rgb(h: u32, l: u32, s: u32) -> (u8, u8, u8) {
    let hh = (h % 360) as int;
    let c = (100 - abs(2 * l - 100)) * s;
    let x = c * (60 - abs(hh % 120 - 60));
    let cc = c * 60;
    let m = l * 6000 - c * 30;
    let (r1, g1, b1) = if hh < 60 {
        (cc, x, 0)
    } else if hh < 120 {
        (x, cc, 0)
    } else if hh < 180 {
        (0, cc, x)
    } else if hh < 240 {
        (0, x, cc)
    } else if hh < 300 {
        (x, 0, cc)
    } else {
        (cc, 0, x)
    };
    (hls_channel(r1 + m), hls_channel(g1 + m), hls_channel(b1 + m))
}

fn channel(n: i128) -> (r: u8)
    requires
        -1000000000000000000000000 <= n <= 1000000000000000000000000,
    ensures
        r == hls_channel(n as int),
{
    if n <= 0 {
        0
    } else {
        let v = (2 * n * 255 + 600000) / 1200000;
        if v > 255 {
            255
        } else {
            v as u8
        }
    }
}

fn abs_i128(v: i128) -> (r: i128)
    requires
        v > i128::MIN,
    ensures
        r == abs(v as int),
{
    if v < 0 {
        -v
    } else {
        v
    }
}

/// Convert HLS (Hue/Lightness/Saturation) to RGB.
///
/// Sixel HLS: H=0-360, L=0-100, S=0-100.
pub fn hls_to_rgb(h: u32, l: u32, s: u32) -> (rgb: (u8, u8, u8))
    ensures
        rgb == spec_hls_to_rgb(h, l, s),
{
    let hh = (h % 360) as i128;
    let li = l as i128;
    let si = s as i128;
    let k = 100 - abs_i128(2 * li - 100);
    assert(-10000000000 <= k <= 100);
    assert(-10000000000 * 5000000000 <= k * si <= 100 * 5000000000) by (nonlinear_arith)
        requires
            -10000000000 <= k <= 100,
            0 <= si <= 5000000000,
    ;
    let c = k * si;
    let w = 60 - abs_i128(hh % 120 - 60);
    assert(0 <= w <= 60);
    assert(-10000000000 * 5000000000 * 60 <= c * w <= 100 * 5000000000 * 60) by (nonlinear_arith)
        requires
            -10000000000 * 5000000000 <= c <= 100 * 5000000000,
            0 <= w <= 60,
    ;
    let x = c * w;
    let cc = c * 60;
    let m = li * 6000 - c * 30;
    let (r1, g1, b1) = if hh < 60 {
        (cc, x, 0)
    } else if hh < 120 {
        (x, cc, 0)
    } else if hh < 180 {
        (0, cc, x)
    } else if hh < 240 {
        (0, x, cc)
    } else if hh < 300 {
        (x, 0, cc)
    } else {
        (cc, 0, x)
    };
    (channel(r1 + m), channel(g1 + m), channel(b1 + m))
}

// ── Base64 ─────────────────────────────────────────────────────────────

/// The value of a base64 digit; `=` counts as zero.
pub open spec fn b64_val(c: u8) -> Option<u8> {
    if 65 <= c <= 90 {
        Some((c - 65) as u8)
    } else if 97 <= c <= 122 {
        Some((c - 97 + 26) as u8)
    } else if 48 <= c <= 57 {
        Some((c - 48 + 52) as u8)
    } else if c == 43 {
        Some(62)
    } else if c == 47 {
        Some(63)
    } else if c == 61 {
        Some(0)
    } else {
        None
    }
}

/// The bytes one group of four digits decodes to; a `=` in third or fourth place
/// drops the byte it would have ended.
pub open spec fn b64_group(g: Seq<u8>, a: u8, b: u8, c: u8, d: u8) -> Seq<u8> {
    seq![(a << 2u8) | (b >> 4u8)] + (if g[2] != 61 {
        seq![(b << 4u8) | (c >> 2u8)]
    } else {
        Seq::empty()
    }) + (if g[3] != 61 {
        seq![(c << 6u8) | d]
    } else {
        Seq::empty()
    })
}

/// Decodes whole groups of four digits; a trailing partial group is ignored, and
/// any byte in a group that is not a digit makes the whole input invalid.
pub open spec fn b64_decode_bytes(bs: Seq<u8>) -> Option<Seq<u8>>
    decreases bs.len(),
{
    if bs.len() < 4 {
        Some(Seq::empty())
    } else {
        match (b64_val(bs[0]), b64_val(bs[1]), b64_val(bs[2]), b64_val(bs[3])) {
            (Some(a), Some(b), Some(c), Some(d)) => match b64_decode_bytes(
                bs.subrange(4, bs.len() as int),
            ) {
                Some(rest) => Some(b64_group(bs, a, b, c, d) + rest),
                None => None,
            },
            _ => None,
        }
    }
}

/// The characters that are not whitespace.
pub open spec fn strip_ws(s: Seq<char>) -> Seq<char> {
    s.filter(|c: char| !is_ws(c))
}

fn b64_digit(c: u8) -> (r: Option<u8>)
    ensures
        r == b64_val(c),
{
    if 65 <= c && c <= 90 {
        Some(c - 65)
    } else if 97 <= c && c <= 122 {
        Some(c - 97 + 26)
    } else if 48 <= c && c <= 57 {
        Some(c - 48 + 52)
    } else if c == 43 {
        Some(62)
    } else if c == 47 {
        Some(63)
    } else if c == 61 {
        Some(0)
    } else {
        None
    }
}

/// Simple base64 decoder: whitespace is skipped, and the UTF-8 bytes of what is left
/// are decoded four at a time.
pub fn base64_decode(input: &str) -> (r: Option<Vec<u8>>)
    ensures
        r matches Some(v) ==> b64_decode_bytes(vstd::utf8::encode_utf8(strip_ws(input@))) == Some(
            v@,
        ),
        r is None ==> b64_decode_bytes(vstd::utf8::encode_utf8(strip_ws(input@))) is None,
{
    let n = input.unicode_len();
    let mut filtered = String::new();
    let mut i: usize = 0;
    while i < n
        invariant
            n == input@.len(),
            i <= n,
            filtered@ == strip_ws(input@.subrange(0, i as int)),
        decreases n - i,
    {
        let c = input.get_char(i);
        proof {
            assert(input@.subrange(0, i + 1).drop_last() =~= input@.subrange(0, i as int));
            reveal(Seq::filter);
        }
        if !is_whitespace(c) {
            push_char(&mut filtered, c);
        }
        i += 1;
    }
    assert(input@.subrange(0, n as int) =~= input@);
    let bytes = filtered.as_str().as_bytes();
    let ghost bs = bytes@;
    assert(bs == vstd::utf8::encode_utf8(strip_ws(input@)));
    let mut output: Vec<u8> = Vec::new();
    let mut i: usize = 0;
    assert(bs.subrange(0, bs.len() as int) =~= bs);
    assert(output@ + bs =~= bs);
    while bytes.len() - i > 3
        invariant
            bs == bytes@,
            bs == vstd::utf8::encode_utf8(strip_ws(input@)),
            i <= bs.len(),
            b64_decode_bytes(bs) == match b64_decode_bytes(bs.subrange(i as int, bs.len() as int)) {
                Some(rest) => Some(output@ + rest),
                None => None::<Seq<u8>>,
            },
        decreases bs.len() - i,
    {
        let ghost tail = bs.subrange(i as int, bs.len() as int);
        assert(tail.subrange(4, tail.len() as int) =~= bs.subrange(i + 4, bs.len() as int));
        assert(tail.len() >= 4);
        assert(tail[0] == bs[i as int] && tail[1] == bs[i + 1] && tail[2] == bs[i + 2] && tail[3]
            == bs[i + 3]);
        let da = b64_digit(bytes[i]);
        let db = b64_digit(bytes[i + 1]);
        let dc = b64_digit(bytes[i + 2]);
        let dd = b64_digit(bytes[i + 3]);
        if da.is_none() || db.is_none() || dc.is_none() || dd.is_none() {
            assert(b64_decode_bytes(tail) is None);
            return None;
        }
        let a = da.unwrap();
        let b = db.unwrap();
        let c = dc.unwrap();
        let d = dd.unwrap();
        let ghost before = output@;
        output.push((a << 2u8) | (b >> 4u8));
        if bytes[i + 2] != 61 {
            output.push((b << 4u8) | (c >> 2u8));
        }
        if bytes[i + 3] != 61 {
            output.push((c << 6u8) | d);
        }
        assert(output@ =~= before + b64_group(tail, a, b, c, d));
        proof {
            match b64_decode_bytes(bs.subrange(i + 4, bs.len() as int)) {
                Some(rest) => {
                    assert(before + b64_group(tail, a, b, c, d) + rest =~= before + (b64_group(
                        tail,
                        a,
                        b,
                        c,
                        d,
                    ) + rest));
                },
                None => {},
            }
        }
        i += 4;
    }
    assert(output@ + Seq::<u8>::empty() =~= output@);
    Some(output)
}

// ── iTerm2 inline images ───────────────────────────────────────────────

/// The characters with leading whitespace removed.
pub open spec fn trim_start(s: Seq<char>) -> Seq<char>
    decreases s.len(),
{
    if s.len() > 0 && is_ws(s[0]) {
        trim_start(s.drop_first())
    } else {
        s
    }
}

/// The characters with leading and trailing whitespace removed.
pub open spec fn trim(s: Seq<char>) -> Seq<char> {
    trim_start(trim_end(s))
}

/// The pieces of `s` between `;` separators (one piece when there is none).
pub open spec fn split_semi(s: Seq<char>) -> Seq<Seq<char>>
    decreases s.len(),
{
    if s.len() == 0 {
        seq![Seq::empty()]
    } else {
        let p = split_semi(s.drop_last());
        if s.last() == ';' {
            p.push(Seq::empty())
        } else {
            p.update(p.len() - 1, p.last().push(s.last()))
        }
    }
}

pub open spec fn inline_flag() -> Seq<char> {
    seq!['i', 'n', 'l', 'i', 'n', 'e', '=', '1']
}

/// Whether one of the `;`-separated parameters is `inline=1` (surrounding
/// whitespace ignored).
pub open spec fn has_inline_param(params: Seq<char>) -> bool {
    exists|i: int|
        0 <= i < split_semi(params).len() && trim(#[trigger] split_semi(params)[i])
            == inline_flag()
}

proof fn lemma_split_semi_nonempty(s: Seq<char>)
    ensures
        split_semi(s).len() >= 1,
    decreases s.len(),
{
    if s.len() > 0 {
        lemma_split_semi_nonempty(s.drop_last());
    }
}

fn trim_chars(v: &Vec<char>) -> (r: Vec<char>)
    ensures
        r@ == trim(v@),
{
    let n = crate::text::trimmed_len(v.as_slice());
    proof {
        crate::text::lemma_trim_end_prefix(v@);
    }
    let ghost t = trim_end(v@);
    let mut start: usize = 0;
    assert(t.subrange(0, t.len() as int) =~= t);
    while start < n && is_whitespace(v[start])
        invariant
            n == t.len(),
            n <= v@.len(),
            t == v@.subrange(0, n as int),
            start <= n,
            trim_start(t.subrange(start as int, n as int)) == trim_start(t),
        decreases n - start,
    {
        assert(t[start as int] == v@[start as int]);
        assert(t.subrange(start as int, n as int).drop_first() =~= t.subrange(start + 1, n as int));
        start += 1;
    }
    assert(trim_start(t.subrange(start as int, n as int)) == t.subrange(start as int, n as int));
    let mut r: Vec<char> = Vec::new();
    let mut i = start;
    while i < n
        invariant
            n == t.len(),
            n <= v@.len(),
            t == v@.subrange(0, n as int),
            start <= i <= n,
            r@ == t.subrange(start as int, i as int),
        decreases n - i,
    {
        r.push(v[i]);
        i += 1;
        assert(r@ =~= t.subrange(start as int, i as int));
    }
    r
}

fn is_inline_flag(seg: &Vec<char>) -> (r: bool)
    ensures
        r == (trim(seg@) == inline_flag()),
{
    let t = trim_chars(seg);
    let flag = ['i', 'n', 'l', 'i', 'n', 'e', '=', '1'];
    assert(flag@ =~= inline_flag());
    assert(inline_flag().len() == 8);
    if t.len() != 8 {
        return false;
    }
    let mut i: usize = 0;
    while i < 8
        invariant
            t@.len() == 8,
            t@ == trim(seg@),
            flag@ == inline_flag(),
            i <= 8,
            forall|j: int| 0 <= j < i ==> t@[j] == flag@[j],
        decreases 8 - i,
    {
        if t[i] != flag[i] {
            assert(t@[i as int] != inline_flag()[i as int]);
            return false;
        }
        i += 1;
    }
    assert(t@ =~= inline_flag());
    true
}

fn has_inline(params: &Vec<char>) -> (r: bool)
    ensures
        r == has_inline_param(params@),
{
    let ghost p = params@;
    let mut done: Vec<bool> = Vec::new();
    let mut cur: Vec<char> = Vec::new();
    let mut found = false;
    let mut i: usize = 0;
    assert(p.subrange(0, 0) =~= Seq::<char>::empty());
    while i < params.len()
        invariant
            p == params@,
            i <= p.len(),
            split_semi(p.subrange(0, i as int)).len() == done@.len() + 1,
            split_semi(p.subrange(0, i as int)).last() == cur@,
            found == exists|j: int|
                0 <= j < done@.len() && trim(#[trigger] split_semi(p.subrange(0, i as int))[j])
                    == inline_flag(),
        decreases p.len() - i,
    {
        let ghost prev = split_semi(p.subrange(0, i as int));
        assert(p.subrange(0, i + 1).drop_last() =~= p.subrange(0, i as int));
        assert(p.subrange(0, i + 1).last() == params@[i as int]);
        proof {
            lemma_split_semi_nonempty(p.subrange(0, i as int));
        }
        if params[i] == ';' {
            let hit = is_inline_flag(&cur);
            done.push(hit);
            let ghost next = split_semi(p.subrange(0, i + 1));
            assert(next == prev.push(Seq::empty()));
            assert forall|j: int| 0 <= j < prev.len() implies next[j] == prev[j] by {}
            found = found || hit;
            cur = Vec::new();
            assert(cur@ =~= Seq::<char>::empty());
        } else {
            cur.push(params[i]);
            let ghost next = split_semi(p.subrange(0, i + 1));
            assert(next == prev.update(prev.len() - 1, prev.last().push(params@[i as int])));
            assert forall|j: int| 0 <= j < prev.len() - 1 implies next[j] == prev[j] by {}
        }
        i += 1;
    }
    let last_hit = is_inline_flag(&cur);
    assert(p.subrange(0, p.len() as int) =~= p);
    proof {
        lemma_split_semi_nonempty(p);
    }
    found || last_hit
}

/// Minimal PNG decoder for uncompressed/simple PNGs: full PNG decoding is not
/// provided, so no image comes out.
fn decode_png_simple(_data: &Vec<u8>) -> (r: Option<SixelImage>)
    ensures
        r is None,
{
    None
}

/// Decode an image from raw bytes; only PNG is recognized.
fn decode_image_bytes(data: &Vec<u8>) -> (r: Option<SixelImage>)
    ensures
        r is None,
{
    if data.len() > 8 && data[0] == 137 && data[1] == 80 && data[2] == 78 && data[3] == 71
        && data[4] == 13 && data[5] == 10 && data[6] == 26 && data[7] == 10 {
        return decode_png_simple(data);
    }
    None
}

/// Decode an iTerm2 inline image from an OSC 1337 sequence.
///
/// Format: `ESC ] 1337 ; File=[params]:base64data BEL`
/// Params: `name=<base64name>;size=<bytes>;inline=1;width=<cols>;height=<rows>`
///
/// Only images this library can decode come back; as PNG data is recognized but not
/// decoded, none does.
pub fn decode_iterm2_image(params_str: &str) -> (r: Option<SixelImage>)
    ensures
        r is None,
{
    let chars = crate::text::chars_of(params_str);
    let mut colon: usize = 0;
    while colon < chars.len() && chars[colon] != ':'
        invariant
            colon <= chars@.len(),
        decreases chars@.len() - colon,
    {
        colon += 1;
    }
    if colon >= chars.len() {
        return None;
    }
    let mut params_part: Vec<char> = Vec::new();
    let mut i: usize = 0;
    while i < colon
        invariant
            i <= colon < chars@.len(),
        decreases colon - i,
    {
        params_part.push(chars[i]);
        i += 1;
    }
    if !has_inline(&params_part) {
        return None;
    }
    let data_part = params_str.substring_char(colon + 1, params_str.unicode_len());
    let decoded = match base64_decode(data_part) {
        Some(d) => d,
        None => return None,
    };
    decode_image_bytes(&decoded)
}

// ── Images ─────────────────────────────────────────────────────────────

/// An RGBA image decoded from a Sixel sequence.
#[derive(Debug, Clone)]
pub struct SixelImage {
    /// RGBA pixel data, row-major, 4 bytes per pixel.
    pub pixels: Vec<u8>,
    /// Image width in pixels.
    pub width: u32,
    /// Image height in pixels.
    pub height: u32,
}

/// Inline image placement in the terminal grid.
#[derive(Debug, Clone)]
pub struct InlineImage {
    /// Decoded image data.
    pub image: SixelImage,
    /// Row where the image starts (in grid coordinates).
    pub start_row: usize,
    /// Column where the image starts.
    pub start_col: usize,
    /// Width in cell columns the image spans.
    pub cell_cols: usize,
    /// Height in cell rows the image spans.
    pub cell_rows: usize,
    /// Unique ID for texture caching.
    pub id: u64,
}

/// Whether an image overlaps the rows `[first_row, last_row]`.
pub open spec fn overlaps(img: InlineImage, first_row: usize, last_row: usize) -> bool {
    img.start_row <= last_row && img.start_row + img.cell_rows >= first_row
}

/// The images a sequence of references points to.
pub open spec fn derefs(v: Seq<&InlineImage>) -> Seq<InlineImage> {
    v.map_values(|x: &InlineImage| *x)
}

/// Manage inline images displayed in the terminal.
pub struct ImageLayer {
    /// Active inline images, keyed by a unique ID.
    images: Vec<InlineImage>,
    /// Counter for generating unique image IDs.
    next_id: u64,
}

/// The abstract image layer: the placed images in order, and the next ID.
pub struct ImageLayerModel {
    pub images: Seq<InlineImage>,
    pub next_id: u64,
}

pub open spec fn images_wf(images: Seq<InlineImage>, next_id: u64) -> bool {
    &&& next_id >= 1
    &&& forall|i: int|
        0 <= i < images.len() ==> (#[trigger] images[i]).start_row + images[i].cell_rows
            <= usize::MAX && 1 <= images[i].id < next_id
    &&& forall|i: int, j: int|
        0 <= i < j < images.len() ==> (#[trigger] images[i]).id < (#[trigger] images[j]).id
}

impl ImageLayerModel {
    /// Every image ends within `usize` and has an ID below the next one; IDs are
    /// increasing in placement order and start at 1.
    pub open spec fn wf(self) -> bool {
        images_wf(self.images, self.next_id)
    }
}

impl View for ImageLayer {
    type V = ImageLayerModel;

    closed spec fn view(&self) -> ImageLayerModel {
        ImageLayerModel { images: self.images@, next_id: self.next_id }
    }
}

impl ImageLayer {
    pub fn new() -> (r: Self)
        ensures
            r@.images.len() == 0,
            r@.next_id == 1,
            r@.wf(),
    {
        ImageLayer { images: Vec::new(), next_id: 1 }
    }

    /// Whether an image spanning `cell_rows` rows from `row` can be placed: an ID
    /// is left and its last row is addressable.
    pub fn can_place(&self, row: usize, cell_rows: usize) -> (r: bool)
        ensures
            r == (self@.next_id < u64::MAX && row + cell_rows <= usize::MAX),
    {
        self.next_id < u64::MAX && row <= usize::MAX - cell_rows
    }

    /// Place a decoded Sixel image at the given grid position, spanning
    /// `cell_cols` x `cell_rows` cells. Returns its new ID.
    pub fn place_image_cells(
        &mut self,
        image: SixelImage,
        row: usize,
        col: usize,
        cell_cols: usize,
        cell_rows: usize,
    ) -> (id: u64)
        requires
            old(self)@.wf(),
            old(self)@.next_id < u64::MAX,
            row + cell_rows <= usize::MAX,
        ensures
            final(self)@.wf(),
            id == old(self)@.next_id,
            final(self)@.next_id == id + 1,
            final(self)@.images == old(self)@.images.push(
                InlineImage { image, start_row: row, start_col: col, cell_cols, cell_rows, id },
            ),
    {
        let ghost m = self@;
        let id = self.next_id;
        self.next_id += 1;
        self.images.push(
            InlineImage { image, start_row: row, start_col: col, cell_cols, cell_rows, id },
        );
        assert forall|i: int| 0 <= i < m.images.len() implies self@.images[i] == m.images[i] by {}
        assert forall|i: int| 0 <= i < self@.images.len() implies (#[trigger] self@.images[i]).start_row
            + self@.images[i].cell_rows <= usize::MAX && 1 <= self@.images[i].id < self@.next_id by {
            if i < m.images.len() {
                assert(self@.images[i] == m.images[i]);
            }
        }
        assert forall|a: int, b: int|
            0 <= a < b < self@.images.len() implies (#[trigger] self@.images[a]).id
            < (#[trigger] self@.images[b]).id by {
            assert(self@.images[a] == m.images[a]);
            if b < m.images.len() {
                assert(self@.images[b] == m.images[b]);
            }
        }
        id
    }

    /// Get all visible images that overlap the given viewport.
    pub fn visible_images(&self, first_row: usize, last_row: usize) -> (r: Vec<&InlineImage>)
        requires
            self@.wf(),
        ensures
            derefs(r@) == self@.images.filter(|img: InlineImage| overlaps(img, first_row, last_row)),
    {
        let ghost imgs = self@.images;
        let ghost pred = |img: InlineImage| overlaps(img, first_row, last_row);
        let mut r: Vec<&InlineImage> = Vec::new();
        let mut i: usize = 0;
        assert(derefs(r@) =~= Seq::<InlineImage>::empty());
        while i < self.images.len()
            invariant
                imgs == self@.images,
                self@.wf(),
                i <= imgs.len(),
                pred == (|img: InlineImage| overlaps(img, first_row, last_row)),
                derefs(r@) == imgs.subrange(0, i as int).filter(pred),
            decreases imgs.len() - i,
        {
            let img = &self.images[i];
            let ghost before = r@;
            assert(imgs.subrange(0, i + 1).drop_last() =~= imgs.subrange(0, i as int));
            proof {
                reveal(Seq::filter);
            }
            assert(imgs[i as int] == *img);
            let img_end = img.start_row + img.cell_rows;
            if img.start_row <= last_row && img_end >= first_row {
                r.push(img);
                assert(derefs(r@) =~= derefs(before).push(*img));
            }
            i += 1;
        }
        assert(imgs.subrange(0, imgs.len() as int) =~= imgs);
        r
    }

    /// Remove images that have scrolled out of view.
    pub fn gc(&mut self, scrollback_top: usize)
        requires
            old(self)@.wf(),
        ensures
            final(self)@.wf(),
            final(self)@.next_id == old(self)@.next_id,
            final(self)@.images == old(self)@.images.filter(
                |img: InlineImage| img.start_row + img.cell_rows > scrollback_top,
            ),
    {
        let ghost m = self@;
        assert(m.images.len() == self.images.len());
        let ghost pred = |img: InlineImage| img.start_row + img.cell_rows > scrollback_top;
        let mut kept: Vec<InlineImage> = Vec::new();
        let mut rest = Vec::new();
        std::mem::swap(&mut rest, &mut self.images);
        let mut i: usize = 0;
        assert(m.images.subrange(0, 0).filter(pred) =~= Seq::<InlineImage>::empty()) by {
            reveal(Seq::filter);
        }
        assert(rest@ =~= m.images.subrange(0, m.images.len() as int));
        while rest.len() > 0
            invariant
                m.wf(),
                m.images.len() <= usize::MAX,
                i <= m.images.len(),
                rest@ == m.images.subrange(i as int, m.images.len() as int),
                pred == (|img: InlineImage| img.start_row + img.cell_rows > scrollback_top),
                kept@ == m.images.subrange(0, i as int).filter(pred),
                images_wf(kept@, m.next_id),
                forall|k: int, j: int|
                    0 <= k < kept@.len() && i <= j < m.images.len() ==> (#[trigger] kept@[k]).id
                        < (#[trigger] m.images[j]).id,
            decreases rest@.len(),
        {
            assert(m.images.subrange(0, i + 1).drop_last() =~= m.images.subrange(0, i as int));
            proof {
                reveal(Seq::filter);
            }
            assert(rest@.len() == m.images.len() - i);
            let img = rest.remove(0);
            assert(img == m.images[i as int]);
            let ghost before = kept@;
            assert(forall|a: int| 0 <= a < before.len() ==> (#[trigger] before[a]).start_row
                + before[a].cell_rows <= usize::MAX && 1 <= before[a].id < m.next_id);
            if img.start_row + img.cell_rows > scrollback_top {
                kept.push(img);
                assert(kept@ == before.push(m.images[i as int]));
                assert forall|k: int| 0 <= k < before.len() implies kept@[k] == before[k] by {}
                assert forall|a: int| 0 <= a < kept@.len() implies (#[trigger] kept@[a]).start_row
                    + kept@[a].cell_rows <= usize::MAX && 1 <= kept@[a].id < m.next_id by {
                    if a < before.len() {
                        assert(kept@[a] == before[a]);
                        assert(images_wf(before, m.next_id));
                        assert(before[a].start_row + before[a].cell_rows <= usize::MAX);
                    } else {
                        assert(kept@[a] == m.images[i as int]);
                        assert(m.images[i as int].start_row + m.images[i as int].cell_rows
                            <= usize::MAX);
                    }
                }
                assert forall|a: int, b: int|
                    0 <= a < b < kept@.len() implies (#[trigger] kept@[a]).id
                    < (#[trigger] kept@[b]).id by {
                    assert(kept@[a] == before[a]);
                    assert(images_wf(before, m.next_id));
                    if b < before.len() {
                        assert(kept@[b] == before[b]);
                        assert(before[a].id < before[b].id);
                    } else {
                        assert(kept@[b] == m.images[i as int]);
                        assert(before[a].id < m.images[i as int].id);
                    }
                }
                assert forall|k: int, j: int|
                    0 <= k < kept@.len() && i + 1 <= j < m.images.len() implies (#[trigger] kept@[k]).id
                    < (#[trigger] m.images[j]).id by {
                    if k < before.len() {
                        assert(kept@[k] == before[k]);
                    }
                }
            }
            i += 1;
            assert(rest@ =~= m.images.subrange(i as int, m.images.len() as int));
        }
        assert(m.images.subrange(0, m.images.len() as int) =~= m.images);
        self.images = kept;
    }

    /// Scroll all images up by `n` rows (called when the terminal scrolls).
    pub fn scroll_up(&mut self, n: usize)
        requires
            old(self)@.wf(),
        ensures
            final(self)@.wf(),
            final(self)@.next_id == old(self)@.next_id,
            final(self)@.images.len() == old(self)@.images.len(),
            forall|i: int|
                0 <= i < old(self)@.images.len() ==> #[trigger] final(self)@.images[i] == (
                InlineImage {
                    start_row: if old(self)@.images[i].start_row >= n {
                        (old(self)@.images[i].start_row - n) as usize
                    } else {
                        0
                    },
                    ..old(self)@.images[i]
                }),
    {
        let ghost m = self@;
        let mut i: usize = 0;
        while i < self.images.len()
            invariant
                self@.next_id == m.next_id,
                self@.images.len() == m.images.len(),
                m.wf(),
                i <= m.images.len(),
                forall|j: int|
                    0 <= j < m.images.len() ==> #[trigger] self@.images[j] == if j < i {
                        InlineImage {
                            start_row: if m.images[j].start_row >= n {
                                (m.images[j].start_row - n) as usize
                            } else {
                                0
                            },
                            ..m.images[j]
                        }
                    } else {
                        m.images[j]
                    },
            decreases m.images.len() - i,
        {
            let s = self.images[i].start_row;
            let new_start = if s >= n {
                s - n
            } else {
                0
            };
            let mut img = self.images.remove(i);
            img.start_row = new_start;
            self.images.insert(i, img);
            i += 1;
        }
        assert forall|a: int, b: int|
            0 <= a < b < self@.images.len() implies (#[trigger] self@.images[a]).id
            < (#[trigger] self@.images[b]).id by {
            assert(self@.images[a].id == m.images[a].id);
            assert(self@.images[b].id == m.images[b].id);
        }
        assert forall|a: int| 0 <= a < self@.images.len() implies (#[trigger] self@.images[a]).start_row
            + self@.images[a].cell_rows <= usize::MAX && 1 <= self@.images[a].id < self@.next_id by {
            assert(m.images[a].start_row + m.images[a].cell_rows <= usize::MAX);
        }
    }

    /// Remove all images.
    pub fn clear(&mut self)
        ensures
            final(self)@.images.len() == 0,
            final(self)@.next_id == old(self)@.next_id,
            old(self)@.wf() ==> final(self)@.wf(),
    {
        self.images.clear();
    }

    /// Get image by ID.
    pub fn get_image(&self, id: u64) -> (r: Option<&InlineImage>)
        ensures
            r matches Some(img) ==> img.id == id && exists|i: int|
                0 <= i < self@.images.len() && self@.images[i] == *img,
            r is None ==> forall|i: int|
                0 <= i < self@.images.len() ==> (#[trigger] self@.images[i]).id != id,
    {
        let mut i: usize = 0;
        while i < self.images.len()
            invariant
                i <= self@.images.len(),
                forall|j: int| 0 <= j < i ==> (#[trigger] self@.images[j]).id != id,
            decreases self@.images.len() - i,
        {
            if self.images[i].id == id {
                assert(self@.images[i as int] == self.images@[i as int]);
                return Some(&self.images[i]);
            }
            i += 1;
        }
        None
    }

    /// Number of active inline images.
    pub fn count(&self) -> (r: usize)
        ensures
            r == self@.images.len(),
    {
        self.images.len()
    }
}

impl Default for ImageLayer {
    fn default() -> (r: Self)
        ensures
            r@.images.len() == 0,
            r@.next_id == 1,
    {
        Self::new()
    }
}

// ── Sixel decoding ─────────────────────────────────────────────────────

/// Parser state of the decoder.
#[derive(Debug, Clone, Copy, PartialEq, Eq, Structural)]
pub enum DecoderState {
    /// Waiting for data.
    Normal,
    /// Inside a `#` color command.
    ColorSelect,
    /// Inside a `!` repeat command.
    Repeat,
    /// Inside `"` raster attributes.
    RasterAttrs,
}

/// The abstract state of a Sixel decoder.
pub struct SixelModel {
    /// Color palette (index → (r, g, b)).
    pub palette: Seq<(u8, u8, u8)>,
    pub current_color: usize,
    /// RGBA bytes, row-major, `width * height * 4` of them.
    pub pixels: Seq<u8>,
    pub width: u32,
    pub height: u32,
    /// Cursor: column, and top of the current six-pixel band.
    pub x: u32,
    pub y: u32,
    pub max_x: u32,
    pub max_y: u32,
    pub mode: DecoderState,
    /// Decimal digits of the parameter being read.
    pub digits: Seq<u8>,
    pub params: Seq<u32>,
    pub repeat_count: u32,
    pub raster: bool,
}

pub open spec fn is_digit(b: u8) -> bool {
    48 <= b <= 57
}

/// The number a string of decimal digits spells.
pub open spec fn digits_value(ds: Seq<u8>) -> nat
    decreases ds.len(),
{
    if ds.len() == 0 {
        0
    } else {
        digits_value(ds.drop_last()) * 10 + (ds.last() - 48) as nat
    }
}

/// `str::parse::<u32>` of a string of decimal digits: nothing for the empty string
/// or a value past `u32::MAX`.
pub open spec fn parse_u32(ds: Seq<u8>) -> Option<u32> {
    if ds.len() == 0 || digits_value(ds) > u32::MAX {
        None
    } else {
        Some(digits_value(ds) as u32)
    }
}

pub open spec fn or_default(v: Option<u32>, d: u32) -> u32 {
    match v {
        Some(x) => x,
        None => d,
    }
}

pub open spec fn max_u32(a: u32, b: u32) -> u32 {
    if a >= b {
        a
    } else {
        b
    }
}

/// One entry of the default 256-color palette: the 16 ANSI colors, a 6x6x6 color
/// cube, and 24 grays.
pub open spec fn default_palette_entry(i: int) -> (u8, u8, u8) {
    if i < 16 {
        let t = seq![
            (0u8, 0u8, 0u8),
            (128u8, 0u8, 0u8),
            (0u8, 128u8, 0u8),
            (128u8, 128u8, 0u8),
            (0u8, 0u8, 128u8),
            (128u8, 0u8, 128u8),
            (0u8, 128u8, 128u8),
            (192u8, 192u8, 192u8),
            (128u8, 128u8, 128u8),
            (255u8, 0u8, 0u8),
            (0u8, 255u8, 0u8),
            (255u8, 255u8, 0u8),
            (0u8, 0u8, 255u8),
            (255u8, 0u8, 255u8),
            (0u8, 255u8, 255u8),
            (255u8, 255u8, 255u8),
        ];
        t[i]
    } else if i < 232 {
        let k = i - 16;
        (cube_level(k / 36), cube_level((k / 6) % 6), cube_level(k % 6))
    } else {
        let v = (8 + 10 * (i - 232)) as u8;
        (v, v, v)
    }
}

pub open spec fn cube_level(v: int) -> u8 {
    if v == 0 {
        0
    } else {
        (55 + 40 * v) as u8
    }
}

pub open spec fn default_palette() -> Seq<(u8, u8, u8)> {
    Seq::new(256, |i: int| default_palette_entry(i))
}

/// The pixel bytes after the image is re-laid out at `nw` x `nh`: the overlapping
/// top-left part is kept, the rest is zero.
pub open spec fn grown(p: Seq<u8>, w: u32, h: u32, nw: u32, nh: u32) -> Seq<u8> {
    Seq::new(
        (nw * nh * 4) as nat,
        |i: int|
            {
                let row = i / (nw * 4) as int;
                let col = i % (nw * 4) as int;
                if row < h && col < (if w <= nw {
                    w
                } else {
                    nw
                }) * 4 {
                    p[row * w * 4 + col]
                } else {
                    0u8
                }
            },
    )
}

/// Writes an opaque pixel of the given color at byte offset `off`.
pub open spec fn set_px(p: Seq<u8>, off: int, rgb: (u8, u8, u8)) -> Seq<u8> {
    p.update(off, rgb.0).update(off + 1, rgb.1).update(off + 2, rgb.2).update(off + 3, 255u8)
}

/// Plots the bits `bit..6` of a sixel at column `x` of the band starting at row `y`.
pub open spec fn plot(
    p: Seq<u8>,
    w: u32,
    h: u32,
    x: u32,
    y: u32,
    sixel: u8,
    rgb: (u8, u8, u8),
    bit: int,
) -> Seq<u8>
    decreases 6 - bit,
{
    if bit >= 6 || bit < 0 {
        p
    } else {
        let py = y + bit;
        let off = (py * w + x) * 4;
        let p2 = if sixel & (1u8 << (bit as u8)) != 0 && x < w && py < h && off + 3 < p.len() {
            set_px(p, off, rgb)
        } else {
            p
        };
        plot(p2, w, h, x, y, sixel, rgb, bit + 1)
    }
}

pub open spec fn resized_bytes(p: Seq<u8>, n: nat) -> Seq<u8> {
    if n <= p.len() {
        p.subrange(0, n as int)
    } else {
        p + Seq::new((n - p.len()) as nat, |i: int| 0u8)
    }
}

/// The palette padded with black entries until `idx` is a valid index.
pub open spec fn padded_palette(pal: Seq<(u8, u8, u8)>, idx: int) -> Seq<(u8, u8, u8)> {
    if pal.len() > idx {
        pal
    } else {
        pal + Seq::new((idx + 1 - pal.len()) as nat, |i: int| (0u8, 0u8, 0u8))
    }
}

pub open spec fn color_def(t: u32, c1: u32, c2: u32, c3: u32) -> (u8, u8, u8) {
    if t == 1 {
        spec_hls_to_rgb(c1, c2, c3)
    } else {
        (((c1 * 255) / 100) as u8, ((c2 * 255) / 100) as u8, ((c3 * 255) / 100) as u8)
    }
}

/// `n` columns drawn from column `x` of the band at `y`, into a buffer of
/// `w` x `h`, stay within `u32`.
pub open spec fn draw_fits(x: u32, y: u32, w: u32, h: u32, n: nat) -> bool {
    n == 0 || {
        &&& x + n <= u32::MAX
        &&& y + 6 <= u32::MAX
        &&& max_u32(w, (x + n) as u32) * max_u32(h, (y + 6) as u32) * 4 <= u32::MAX
    }
}

/// A byte read in normal mode stays within `u32`.
pub open spec fn normal_fits(b: u8, x: u32, y: u32, w: u32, h: u32, repeat: u32) -> bool {
    if 0x3F <= b <= 0x7E {
        draw_fits(x, y, w, h, repeat as nat)
    } else if b == 45 {
        y + 6 <= u32::MAX
    } else {
        true
    }
}

impl SixelModel {
    pub open spec fn wf(self) -> bool {
        &&& self.pixels.len() == self.width * self.height * 4
        &&& self.width * self.height * 4 <= u32::MAX
        &&& self.repeat_count >= 1
        &&& forall|i: int| 0 <= i < self.digits.len() ==> is_digit(#[trigger] self.digits[i])
        &&& !self.raster ==> self.max_x <= self.width && self.max_y <= self.height
    }

    pub open spec fn color(self) -> (u8, u8, u8) {
        if self.current_color < self.palette.len() {
            self.palette[self.current_color as int]
        } else {
            (255, 255, 255)
        }
    }

    pub open spec fn grow(self, nw: u32, nh: u32) -> SixelModel {
        if nw == self.width && nh == self.height {
            self
        } else {
            SixelModel {
                pixels: grown(self.pixels, self.width, self.height, nw, nh),
                width: nw,
                height: nh,
                ..self
            }
        }
    }

    pub open spec fn needs_grow(self) -> bool {
        !self.raster || self.x + 1 > self.width || self.y + 6 > self.height
    }

    pub open spec fn grow_w(self) -> u32 {
        max_u32(self.width, (self.x + 1) as u32)
    }

    pub open spec fn grow_h(self) -> u32 {
        max_u32(self.height, (self.y + 6) as u32)
    }

    /// Drawing one sixel neither overflows the cursor nor the buffer size.
    pub open spec fn draw_ok(self) -> bool {
        &&& self.x + 1 <= u32::MAX
        &&& self.y + 6 <= u32::MAX
        &&& self.needs_grow() ==> self.grow_w() * self.grow_h() * 4 <= u32::MAX
    }

    pub open spec fn with_pixels(self, p: Seq<u8>) -> SixelModel {
        SixelModel { pixels: p, ..self }
    }

    /// Draws one six-pixel column at the cursor and advances it.
    pub open spec fn draw(self, sixel: u8) -> SixelModel {
        let m1 = if self.needs_grow() {
            self.grow(self.grow_w(), self.grow_h())
        } else {
            self
        };
        SixelModel {
            pixels: plot(m1.pixels, m1.width, m1.height, self.x, self.y, sixel, self.color(), 0),
            x: (self.x + 1) as u32,
            max_x: max_u32(self.max_x, (self.x + 1) as u32),
            max_y: max_u32(self.max_y, (self.y + 6) as u32),
            ..m1
        }
    }

    pub open spec fn draw_n(self, sixel: u8, n: nat) -> SixelModel
        decreases n,
    {
        if n == 0 {
            self
        } else {
            self.draw(sixel).draw_n(sixel, (n - 1) as nat)
        }
    }

    /// Drawing `n` sixels from here neither overflows the cursor nor the buffer
    /// size: the last column drawn and the band bottom fit in `u32`, and so does
    /// the byte count of the buffer that covers them.
    pub open spec fn draw_n_ok(self, n: nat) -> bool {
        draw_fits(self.x, self.y, self.width, self.height, n)
    }

    pub open spec fn feed_normal(self, b: u8) -> SixelModel {
        if 0x3F <= b <= 0x7E {
            SixelModel {
                repeat_count: 1,
                ..self.draw_n((b - 0x3F) as u8, self.repeat_count as nat)
            }
        } else if b == 36 {
            SixelModel { x: 0, ..self }
        } else if b == 45 {
            SixelModel { x: 0, y: (self.y + 6) as u32, ..self }
        } else if b == 35 {
            SixelModel {
                mode: DecoderState::ColorSelect,
                digits: Seq::empty(),
                params: Seq::empty(),
                ..self
            }
        } else if b == 33 {
            SixelModel { mode: DecoderState::Repeat, digits: Seq::empty(), ..self }
        } else if b == 34 {
            SixelModel {
                mode: DecoderState::RasterAttrs,
                digits: Seq::empty(),
                params: Seq::empty(),
                ..self
            }
        } else {
            self
        }
    }

    pub open spec fn normal_ok(self, b: u8) -> bool {
        normal_fits(b, self.x, self.y, self.width, self.height, self.repeat_count)
    }

    /// The pending parameter moved to the parameter list (zero when absent).
    pub open spec fn take_param(self) -> SixelModel {
        SixelModel {
            params: self.params.push(or_default(parse_u32(self.digits), 0)),
            digits: Seq::empty(),
            ..self
        }
    }

    /// A color command ended: select or define a color, back to normal mode.
    pub open spec fn color_end(self) -> SixelModel {
        let m = self.take_param();
        let ps = m.params;
        let m2 = if ps.len() == 1 {
            SixelModel { current_color: ps[0] as usize, ..m }
        } else if ps.len() >= 5 {
            let idx = ps[0] as usize;
            SixelModel {
                palette: padded_palette(m.palette, idx as int).update(idx as int, color_def(ps[1], ps[2], ps[3], ps[4])),
                current_color: idx,
                ..m
            }
        } else {
            m
        };
        SixelModel { mode: DecoderState::Normal, ..m2 }
    }

    /// An RGB color definition's arithmetic stays within `u32`.
    pub open spec fn color_ok(self) -> bool {
        let ps = self.take_param().params;
        ps.len() >= 5 && ps[1] != 1 ==> ps[2] * 255 <= u32::MAX && ps[3] * 255 <= u32::MAX
            && ps[4] * 255 <= u32::MAX
    }

    pub open spec fn repeat_end(self) -> SixelModel {
        let v = or_default(parse_u32(self.digits), 1);
        SixelModel {
            repeat_count: if v >= 1 {
                v
            } else {
                1
            },
            digits: Seq::empty(),
            mode: DecoderState::Normal,
            ..self
        }
    }

    pub open spec fn raster_end(self) -> SixelModel {
        let m = self.take_param();
        let ps = m.params;
        let m2 = if ps.len() >= 4 && 0 < ps[2] <= 4096 && 0 < ps[3] <= 4096 {
            SixelModel {
                width: ps[2],
                height: ps[3],
                pixels: resized_bytes(m.pixels, (ps[2] * ps[3] * 4) as nat),
                raster: true,
                ..m
            }
        } else {
            m
        };
        SixelModel { mode: DecoderState::Normal, ..m2 }
    }

    /// One byte of the Sixel data stream.
    pub open spec fn feed(self, b: u8) -> SixelModel {
        match self.mode {
            DecoderState::Normal => self.feed_normal(b),
            DecoderState::ColorSelect => if is_digit(b) {
                SixelModel { digits: self.digits.push(b), ..self }
            } else if b == 59 {
                self.take_param()
            } else {
                self.color_end().feed_normal(b)
            },
            DecoderState::Repeat => if is_digit(b) {
                SixelModel { digits: self.digits.push(b), ..self }
            } else {
                self.repeat_end().feed_normal(b)
            },
            DecoderState::RasterAttrs => if is_digit(b) {
                SixelModel { digits: self.digits.push(b), ..self }
            } else if b == 59 {
                self.take_param()
            } else {
                self.raster_end().feed_normal(b)
            },
        }
    }

    /// Feeding the byte does not overflow any of the decoder's `u32` arithmetic.
    pub open spec fn feed_ok(self, b: u8) -> bool {
        match self.mode {
            DecoderState::Normal => self.normal_ok(b),
            DecoderState::ColorSelect => is_digit(b) || b == 59 || (self.color_ok()
                && self.color_end().normal_ok(b)),
            DecoderState::Repeat => is_digit(b) || self.repeat_end().normal_ok(b),
            DecoderState::RasterAttrs => is_digit(b) || b == 59 || self.raster_end().normal_ok(
                b,
            ),
        }
    }

    pub open spec fn feed_all(self, bs: Seq<u8>) -> SixelModel
        decreases bs.len(),
    {
        if bs.len() == 0 {
            self
        } else {
            self.feed(bs[0]).feed_all(bs.drop_first())
        }
    }

    pub open spec fn feed_all_ok(self, bs: Seq<u8>) -> bool
        decreases bs.len(),
    {
        bs.len() == 0 || (self.feed_ok(bs[0]) && self.feed(bs[0]).feed_all_ok(bs.drop_first()))
    }

    /// The final size: the declared raster size, or else the extent drawn.
    pub open spec fn final_w(self) -> u32 {
        if self.raster {
            self.width
        } else {
            self.max_x
        }
    }

    pub open spec fn final_h(self) -> u32 {
        if self.raster {
            self.height
        } else {
            self.max_y
        }
    }

    /// The image decoded so far, as `finish` returns it: nothing when nothing was
    /// drawn.
    pub open spec fn image(self) -> Option<(Seq<u8>, u32, u32)> {
        if self.max_x == 0 || self.max_y == 0 {
            None
        } else {
            Some((self.grow(self.final_w(), self.final_h()).pixels, self.final_w(), self.final_h()))
        }
    }

    pub open spec fn reset(self) -> SixelModel {
        SixelModel {
            palette: self.palette,
            current_color: 0,
            pixels: Seq::empty(),
            width: 0,
            height: 0,
            x: 0,
            y: 0,
            max_x: 0,
            max_y: 0,
            mode: DecoderState::Normal,
            digits: Seq::empty(),
            params: Seq::empty(),
            repeat_count: 1,
            raster: false,
        }
    }
}

/// Drawing `n` sixels moves the cursor `n` columns right and leaves the mode and the
/// repeat count alone.
proof fn lemma_draw_n_moves(m: SixelModel, sixel: u8, n: nat)
    requires
        m.x + n <= u32::MAX,
    ensures
        m.draw_n(sixel, n).x == m.x + n,
        m.draw_n(sixel, n).mode == m.mode,
        m.draw_n(sixel, n).repeat_count == m.repeat_count,
    decreases n,
{
    if n > 0 {
        lemma_draw_n_moves(m.draw(sixel), sixel, (n - 1) as nat);
    }
}

/// A sixel data byte (`?` to `~`) is drawn whatever state the decoder was in, and
/// leaves it in normal mode with a repeat count of 1: a `!n` repeat applies to the
/// one sixel that follows it. In normal mode the byte is drawn as many times as
/// the repeat count says, one column each.
pub proof fn lemma_data_byte_ends_repeat(m: SixelModel, b: u8)
    requires
        0x3F <= b <= 0x7E,
    ensures
        m.feed(b).repeat_count == 1,
        m.feed(b).mode == DecoderState::Normal,
        m.mode == DecoderState::Normal && m.x + m.repeat_count <= u32::MAX ==> m.feed(b).x
            == m.x + m.repeat_count,
{
    if m.mode == DecoderState::Normal && m.x + m.repeat_count <= u32::MAX {
        lemma_draw_n_moves(m, (b - 0x3F) as u8, m.repeat_count as nat);
    }
    let n = match m.mode {
        DecoderState::Normal => m,
        DecoderState::ColorSelect => m.color_end(),
        DecoderState::Repeat => m.repeat_end(),
        DecoderState::RasterAttrs => m.raster_end(),
    };
    assert(n.mode == DecoderState::Normal);
    if n.x + n.repeat_count <= u32::MAX {
        lemma_draw_n_moves(n, (b - 0x3F) as u8, n.repeat_count as nat);
    }
    lemma_draw_n_mode(n, (b - 0x3F) as u8, n.repeat_count as nat);
}

/// Drawing keeps the mode.
proof fn lemma_draw_n_mode(m: SixelModel, sixel: u8, n: nat)
    ensures
        m.draw_n(sixel, n).mode == m.mode,
    decreases n,
{
    if n > 0 {
        lemma_draw_n_mode(m.draw(sixel), sixel, (n - 1) as nat);
    }
}

/// Digits fed while a command reads its parameter are collected, in order.
proof fn lemma_digits_collected(m: SixelModel, ds: Seq<u8>)
    requires
        m.mode != DecoderState::Normal,
        forall|i: int| 0 <= i < ds.len() ==> is_digit(#[trigger] ds[i]),
    ensures
        m.feed_all(ds) == (SixelModel { digits: m.digits + ds, ..m }),
    decreases ds.len(),
{
    if ds.len() == 0 {
        assert(m.digits + ds =~= m.digits);
    } else {
        let m1 = SixelModel { digits: m.digits.push(ds[0]), ..m };
        assert(m.feed(ds[0]) == m1);
        lemma_digits_collected(m1, ds.drop_first());
        assert(m1.digits + ds.drop_first() =~= m.digits + ds);
    }
}

/// A repeat command `!n` followed by a sixel draws that sixel `n` times, in the
/// `n` columns from the cursor, on the same band, and ends with a repeat count of
/// 1 again.
pub proof fn lemma_repeat_command(m: SixelModel, ds: Seq<u8>, b: u8)
    requires
        m.mode == DecoderState::Normal,
        ds.len() > 0,
        forall|i: int| 0 <= i < ds.len() ==> is_digit(#[trigger] ds[i]),
        1 <= digits_value(ds) <= u32::MAX,
        0x3F <= b <= 0x7E,
        m.x + digits_value(ds) <= u32::MAX,
    ensures
        m.feed_all(seq![33u8] + ds + seq![b]).x == m.x + digits_value(ds),
        m.feed_all(seq![33u8] + ds + seq![b]).y == m.y,
        m.feed_all(seq![33u8] + ds + seq![b]).repeat_count == 1,
        m.feed_all(seq![33u8] + ds + seq![b]).mode == DecoderState::Normal,
{
    let m1 = m.feed(33u8);
    lemma_feed_all_single(m, 33u8);
    lemma_feed_all_concat(m, seq![33u8], ds);
    lemma_feed_all_concat(m, seq![33u8] + ds, seq![b]);
    lemma_digits_collected(m1, ds);
    let m2 = m1.feed_all(ds);
    assert(m1.digits =~= Seq::<u8>::empty());
    assert(m2.digits =~= ds);
    lemma_feed_all_single(m2, b);
    let m3 = m2.repeat_end();
    assert(m3.repeat_count == digits_value(ds));
    assert(m3.mode == DecoderState::Normal);
    lemma_draw_n_moves(m3, (b - 0x3F) as u8, m3.repeat_count as nat);
    lemma_draw_n_y(m3, (b - 0x3F) as u8, m3.repeat_count as nat);
}

/// Drawing keeps the band.
proof fn lemma_draw_n_y(m: SixelModel, sixel: u8, n: nat)
    ensures
        m.draw_n(sixel, n).y == m.y,
    decreases n,
{
    if n > 0 {
        lemma_draw_n_y(m.draw(sixel), sixel, (n - 1) as nat);
    }
}

/// Drawing keeps the selected color.
proof fn lemma_draw_n_color(m: SixelModel, sixel: u8, n: nat)
    ensures
        m.draw_n(sixel, n).current_color == m.current_color,
        m.draw_n(sixel, n).palette == m.palette,
    decreases n,
{
    if n > 0 {
        lemma_draw_n_color(m.draw(sixel), sixel, (n - 1) as nat);
    }
}

/// A color command `#n` with one parameter selects color register `n`; the sixel
/// after it is drawn in that color, the palette unchanged.
pub proof fn lemma_color_select(m: SixelModel, ds: Seq<u8>, b: u8)
    requires
        m.mode == DecoderState::Normal,
        ds.len() > 0,
        forall|i: int| 0 <= i < ds.len() ==> is_digit(#[trigger] ds[i]),
        digits_value(ds) <= u32::MAX,
        0x3F <= b <= 0x7E,
    ensures
        m.feed_all(seq![35u8] + ds + seq![b]).current_color == digits_value(ds),
        m.feed_all(seq![35u8] + ds + seq![b]).palette == m.palette,
        m.feed_all(seq![35u8] + ds + seq![b]).mode == DecoderState::Normal,
{
    let m1 = m.feed(35u8);
    lemma_feed_all_single(m, 35u8);
    lemma_feed_all_concat(m, seq![35u8], ds);
    lemma_feed_all_concat(m, seq![35u8] + ds, seq![b]);
    lemma_digits_collected(m1, ds);
    let m2 = m1.feed_all(ds);
    assert(m1.digits =~= Seq::<u8>::empty());
    assert(m1.params =~= Seq::<u32>::empty());
    assert(m2.digits =~= ds);
    lemma_feed_all_single(m2, b);
    let m3 = m2.color_end();
    assert(m2.take_param().params =~= seq![digits_value(ds) as u32]);
    assert(m3.current_color == digits_value(ds));
    lemma_draw_n_color(m3, (b - 0x3F) as u8, m3.repeat_count as nat);
    lemma_draw_n_mode(m3, (b - 0x3F) as u8, m3.repeat_count as nat);
}

/// A color command with five parameters `n;2;r;g;b` defines register `n` as the
/// RGB color with those percentages scaled to 0-255 (rounded down) and selects it;
/// the palette grows to hold register `n` and no other register changes.
pub proof fn lemma_color_definition(m: SixelModel, n: u32, r: u32, g: u32, b: u32, i: int)
    requires
        m.take_param().params == seq![n, 2u32, r, g, b],
        r <= 100,
        g <= 100,
        b <= 100,
        0 <= i < m.palette.len(),
        i != n,
    ensures
        m.color_end().palette.len() > n,
        m.color_end().palette[n as int] == ((r * 255 / 100) as u8, (g * 255 / 100) as u8, (
            b * 255 / 100) as u8),
        m.color_end().palette[i] == m.palette[i],
        m.color_end().current_color == n,
        m.color_end().mode == DecoderState::Normal,
{
}

/// `$` returns the cursor to the start of the band and `-` to the start of the
/// next band, six pixels down; neither draws anything.
pub proof fn lemma_band_controls(m: SixelModel)
    requires
        m.mode == DecoderState::Normal,
        m.y + 6 <= u32::MAX,
    ensures
        m.feed(36u8).x == 0 && m.feed(36u8).y == m.y && m.feed(36u8).pixels == m.pixels,
        m.feed(45u8).x == 0 && m.feed(45u8).y == m.y + 6 && m.feed(45u8).pixels == m.pixels,
        m.feed(36u8).repeat_count == m.repeat_count,
{
}

/// After a repeated sixel the next sixel is drawn once: two data bytes fed in
/// normal mode move the cursor by the repeat count, then by one.
pub proof fn lemma_repeat_not_carried_over(m: SixelModel, b1: u8, b2: u8)
    requires
        0x3F <= b1 <= 0x7E,
        0x3F <= b2 <= 0x7E,
        m.mode == DecoderState::Normal,
        m.x + m.repeat_count + 1 <= u32::MAX,
    ensures
        m.feed(b1).x == m.x + m.repeat_count,
        m.feed(b1).feed(b2).x == m.x + m.repeat_count + 1,
{
    lemma_data_byte_ends_repeat(m, b1);
    lemma_data_byte_ends_repeat(m.feed(b1), b2);
}

/// Feeding two runs of bytes one after the other is feeding their concatenation,
/// and the concatenation stays within the decoder's arithmetic exactly when both
/// runs do in turn.
pub proof fn lemma_feed_all_concat(m: SixelModel, a: Seq<u8>, b: Seq<u8>)
    ensures
        m.feed_all(a + b) == m.feed_all(a).feed_all(b),
        m.feed_all_ok(a + b) == (m.feed_all_ok(a) && m.feed_all(a).feed_all_ok(b)),
    decreases a.len(),
{
    if a.len() == 0 {
        assert(a + b =~= b);
    } else {
        assert((a + b)[0] == a[0]);
        assert((a + b).drop_first() =~= a.drop_first() + b);
        lemma_feed_all_concat(m.feed(a[0]), a.drop_first(), b);
    }
}

/// Feeding a single byte as a run is feeding that byte.
pub proof fn lemma_feed_all_single(m: SixelModel, x: u8)
    ensures
        m.feed_all(seq![x]) == m.feed(x),
        m.feed_all_ok(seq![x]) == m.feed_ok(x),
{
    let s = seq![x];
    assert(s.drop_first() =~= Seq::<u8>::empty());
    assert(m.feed(x).feed_all(Seq::<u8>::empty()) == m.feed(x));
    assert(m.feed(x).feed_all_ok(Seq::<u8>::empty()));
}

/// A freshly created decoder.
pub open spec fn initial_decoder() -> SixelModel {
    SixelModel {
        palette: default_palette(),
        current_color: 0,
        pixels: Seq::empty(),
        width: 0,
        height: 0,
        x: 0,
        y: 0,
        max_x: 0,
        max_y: 0,
        mode: DecoderState::Normal,
        digits: Seq::empty(),
        params: Seq::empty(),
        repeat_count: 1,
        raster: false,
    }
}

// ── Arithmetic facts ───────────────────────────────────────────────────

proof fn lemma_divmod(row: int, d: int, k: int)
    requires
        d > 0,
        0 <= k < d,
    ensures
        (row * d + k) / d == row,
        (row * d + k) % d == k,
{
    vstd::arithmetic::div_mod::lemma_fundamental_div_mod_converse_div(row * d + k, d, row, k);
    vstd::arithmetic::div_mod::lemma_fundamental_div_mod_converse_mod(row * d + k, d, row, k);
}

proof fn lemma_offset_in_image(row: int, w: int, h: int, col: int)
    by (nonlinear_arith)
    requires
        0 <= row < h,
        0 <= col < w,
    ensures
        0 <= (row * w + col) * 4,
        (row * w + col) * 4 + 4 <= w * h * 4,
{
}

proof fn lemma_row_span(row: int, w: int, h: int, k: int)
    by (nonlinear_arith)
    requires
        0 <= row < h,
        0 <= k <= w * 4,
        0 <= w,
    ensures
        0 <= row * w * 4,
        row * w * 4 + k <= w * h * 4,
        row * (w * 4) == row * w * 4,
{
}

proof fn lemma_mul_mono(a: int, b: int, c: int, d: int)
    by (nonlinear_arith)
    requires
        0 <= a <= c,
        0 <= b <= d,
    ensures
        a * b * 4 <= c * d * 4,
{
}

/// Drawing the first of `n` columns is within bounds, and leaves the rest within
/// bounds.
proof fn lemma_draw_step(m: SixelModel, sixel: u8, n: nat)
    requires
        m.wf(),
        n > 0,
        m.draw_n_ok(n),
    ensures
        m.draw_ok(),
        m.draw(sixel).draw_n_ok((n - 1) as nat),
{
    let bw = max_u32(m.width, (m.x + n) as u32);
    let bh = max_u32(m.height, (m.y + 6) as u32);
    if m.needs_grow() {
        lemma_mul_mono(m.grow_w() as int, m.grow_h() as int, bw as int, bh as int);
    }
}

// ── Executable decoder ─────────────────────────────────────────────────

/// Decoder for Sixel DCS sequences.
///
/// Processes the byte stream between `DCS P1;P2;P3 q` and `ST`,
/// building an RGBA image buffer.
pub struct SixelDecoder {
    /// Color palette (index → (r, g, b)).
    palette: Vec<(u8, u8, u8)>,
    /// Current active color index.
    current_color: usize,
    /// Pixel buffer being constructed.
    pixels: Vec<u8>,
    /// Current raster width.
    width: u32,
    /// Current raster height.
    height: u32,
    /// X cursor position (in pixels).
    x: u32,
    /// Y cursor position (in pixels, top of current 6-pixel band).
    y: u32,
    /// Maximum X reached (determines final width).
    max_x: u32,
    /// Maximum Y reached (determines final height).
    max_y: u32,
    /// Parser state machine.
    state: DecoderState,
    /// Decimal digits of the numeric parameter being read.
    param_buf: Vec<u8>,
    /// Collected parameters for current control sequence.
    params: Vec<u32>,
    /// Repeat count from `!` repeat introducer.
    repeat_count: u32,
    /// Background mode: 0 = device default, 1 = no background, 2 = explicit color.
    background_mode: u8,
    /// Raster attributes set flag.
    raster_attrs_set: bool,
    /// Declared aspect ratio (not commonly used).
    aspect_ratio: (u32, u32),
}

impl View for SixelDecoder {
    type V = SixelModel;

    closed spec fn view(&self) -> SixelModel {
        SixelModel {
            palette: self.palette@,
            current_color: self.current_color,
            pixels: self.pixels@,
            width: self.width,
            height: self.height,
            x: self.x,
            y: self.y,
            max_x: self.max_x,
            max_y: self.max_y,
            mode: self.state,
            digits: self.param_buf@,
            params: self.params@,
            repeat_count: self.repeat_count,
            raster: self.raster_attrs_set,
        }
    }
}

/// `n` zero bytes.
fn zeros(n: usize) -> (v: Vec<u8>)
    ensures
        v@ == Seq::new(n as nat, |i: int| 0u8),
{
    let mut v: Vec<u8> = Vec::new();
    let mut i: usize = 0;
    while i < n
        invariant
            i <= n,
            v@ == Seq::new(i as nat, |k: int| 0u8),
        decreases n - i,
    {
        v.push(0);
        i += 1;
        assert(v@ =~= Seq::new(i as nat, |k: int| 0u8));
    }
    v
}

/// `str::parse::<u32>` of the collected digits.
fn parse_digits(ds: &Vec<u8>) -> (r: Option<u32>)
    requires
        forall|i: int| 0 <= i < ds@.len() ==> is_digit(#[trigger] ds@[i]),
    ensures
        r == parse_u32(ds@),
{
    if ds.len() == 0 {
        return None;
    }
    let mut acc: u32 = 0;
    let mut i: usize = 0;
    while i < ds.len()
        invariant
            i <= ds@.len(),
            forall|k: int| 0 <= k < ds@.len() ==> is_digit(#[trigger] ds@[k]),
            acc == digits_value(ds@.subrange(0, i as int)),
        decreases ds@.len() - i,
    {
        let d = (ds[i] - 48) as u32;
        assert(ds@.subrange(0, i + 1).drop_last() =~= ds@.subrange(0, i as int));
        if acc > (u32::MAX - d) / 10 {
            proof {
                lemma_digits_value_grows(ds@, i as int + 1);
            }
            return None;
        }
        acc = acc * 10 + d;
        i += 1;
    }
    assert(ds@.subrange(0, ds@.len() as int) =~= ds@);
    Some(acc)
}

/// Once a prefix of the digits spells more than `u32::MAX`, so does the whole.
proof fn lemma_digits_value_grows(ds: Seq<u8>, k: int)
    requires
        0 <= k <= ds.len(),
    ensures
        digits_value(ds.subrange(0, k)) <= digits_value(ds),
    decreases ds.len() - k,
{
    if k < ds.len() {
        lemma_digits_value_grows(ds, k + 1);
        assert(ds.subrange(0, k + 1).drop_last() =~= ds.subrange(0, k));
    } else {
        assert(ds.subrange(0, k) =~= ds);
    }
}

/// Pads the palette with black entries until `idx` is a valid index.
fn extend_palette(palette: &mut Vec<(u8, u8, u8)>, idx: usize)
    ensures
        final(palette)@ == padded_palette(old(palette)@, idx as int),
{
    let ghost pal0 = palette@;
    while palette.len() <= idx
        invariant
            pal0.len() <= palette@.len(),
            palette@.len() <= pal0.len() || palette@.len() <= idx + 1,
            palette@ == pal0 + Seq::new(
                (palette@.len() - pal0.len()) as nat,
                |i: int| (0u8, 0u8, 0u8),
            ),
        decreases idx + 1 - palette@.len(),
    {
        palette.push((0, 0, 0));
        assert(palette@ =~= pal0 + Seq::new(
            (palette@.len() - pal0.len()) as nat,
            |i: int| (0u8, 0u8, 0u8),
        ));
    }
    proof {
        if pal0.len() > idx {
            assert(palette@ =~= pal0);
        }
    }
}

/// Whether `n` columns drawn from column `x` of the band at `y` fit a `w` x `h`
/// buffer within `u32`.
fn draw_fits_exec(x: u32, y: u32, w: u32, h: u32, n: u32) -> (r: bool)
    ensures
        r == draw_fits(x, y, w, h, n as nat),
{
    if n == 0 {
        return true;
    }
    let xe: u64 = x as u64 + n as u64;
    let ye: u64 = y as u64 + 6;
    if xe > 0xffff_ffff || ye > 0xffff_ffff {
        return false;
    }
    let bw: u128 = if (w as u64) >= xe {
        w as u128
    } else {
        xe as u128
    };
    let bh: u128 = if (h as u64) >= ye {
        h as u128
    } else {
        ye as u128
    };
    assert(bw * bh * 4 <= 0xffff_ffffu128 * 0xffff_ffffu128 * 4) by (nonlinear_arith)
        requires
            bw <= 0xffff_ffff,
            bh <= 0xffff_ffff,
    ;
    bw * bh * 4 <= 0xffff_ffff
}

/// Whether a byte read in normal mode stays within `u32`.
fn normal_fits_exec(b: u8, x: u32, y: u32, w: u32, h: u32, repeat: u32) -> (r: bool)
    ensures
        r == normal_fits(b, x, y, w, h, repeat),
{
    if 0x3F <= b && b <= 0x7E {
        draw_fits_exec(x, y, w, h, repeat)
    } else if b == 45 {
        y <= 0xffff_ffff - 6
    } else {
        true
    }
}

impl SixelDecoder {
    pub open spec fn wf(&self) -> bool {
        self@.wf()
    }

    /// Create a new Sixel decoder with default 256-color palette.
    pub fn new() -> (r: Self)
        ensures
            r.wf(),
            r@ == initial_decoder(),
    {
        let mut palette = Vec::new();
        Self::init_default_palette(&mut palette);
        let r = SixelDecoder {
            palette,
            current_color: 0,
            pixels: Vec::new(),
            width: 0,
            height: 0,
            x: 0,
            y: 0,
            max_x: 0,
            max_y: 0,
            state: DecoderState::Normal,
            param_buf: Vec::new(),
            params: Vec::new(),
            repeat_count: 1,
            background_mode: 0,
            raster_attrs_set: false,
            aspect_ratio: (1, 1),
        };
        assert(r@.pixels =~= Seq::empty());
        assert(r@.digits =~= Seq::empty());
        assert(r@.params =~= Seq::empty());
        r
    }

    /// Initialize the default 256-color palette.
    fn init_default_palette(palette: &mut Vec<(u8, u8, u8)>)
        requires
            old(palette)@.len() == 0,
        ensures
            final(palette)@ == default_palette(),
    {
        let ansi16: [(u8, u8, u8); 16] = [
            (0, 0, 0),
            (128, 0, 0),
            (0, 128, 0),
            (128, 128, 0),
            (0, 0, 128),
            (128, 0, 128),
            (0, 128, 128),
            (192, 192, 192),
            (128, 128, 128),
            (255, 0, 0),
            (0, 255, 0),
            (255, 255, 0),
            (0, 0, 255),
            (255, 0, 255),
            (0, 255, 255),
            (255, 255, 255),
        ];
        let mut i: usize = 0;
        while i < 16
            invariant
                i <= 16,
                palette@.len() == i,
                forall|k: int| 0 <= k < i ==> #[trigger] palette@[k] == default_palette_entry(k),
                ansi16@ == seq![
                    (0u8, 0u8, 0u8),
                    (128u8, 0u8, 0u8),
                    (0u8, 128u8, 0u8),
                    (128u8, 128u8, 0u8),
                    (0u8, 0u8, 128u8),
                    (128u8, 0u8, 128u8),
                    (0u8, 128u8, 128u8),
                    (192u8, 192u8, 192u8),
                    (128u8, 128u8, 128u8),
                    (255u8, 0u8, 0u8),
                    (0u8, 255u8, 0u8),
                    (255u8, 255u8, 0u8),
                    (0u8, 0u8, 255u8),
                    (255u8, 0u8, 255u8),
                    (0u8, 255u8, 255u8),
                    (255u8, 255u8, 255u8),
                ],
            decreases 16 - i,
        {
            palette.push(ansi16[i]);
            i += 1;
        }
        let mut r: u8 = 0;
        while r < 6
            invariant
                r <= 6,
                palette@.len() == 16 + 36 * r,
                forall|k: int| 0 <= k < palette@.len() ==> #[trigger] palette@[k] == default_palette_entry(k),
            decreases 6 - r,
        {
            let mut g: u8 = 0;
            while g < 6
                invariant
                    r < 6,
                    g <= 6,
                    palette@.len() == 16 + 36 * r + 6 * g,
                    forall|k: int| 0 <= k < palette@.len() ==> #[trigger] palette@[k] == default_palette_entry(k),
                decreases 6 - g,
            {
                let mut b: u8 = 0;
                while b < 6
                    invariant
                        r < 6,
                        g < 6,
                        b <= 6,
                        palette@.len() == 16 + 36 * r + 6 * g + b,
                        forall|k: int| 0 <= k < palette@.len() ==> #[trigger] palette@[k] == default_palette_entry(k),
                    decreases 6 - b,
                {
                    let rv: u8 = if r == 0 {
                        0
                    } else {
                        55 + 40 * r
                    };
                    let gv: u8 = if g == 0 {
                        0
                    } else {
                        55 + 40 * g
                    };
                    let bv: u8 = if b == 0 {
                        0
                    } else {
                        55 + 40 * b
                    };
                    proof {
                        let k = (36 * r + 6 * g + b) as int;
                        lemma_divmod(r as int, 36, 6 * g + b);
                        lemma_divmod(6 * r + g, 6, b as int);
                        lemma_divmod(r as int, 6, g as int);
                        assert(k == (6 * r + g) * 6 + b);
                        assert(k == r * 36 + (6 * g + b));
                        assert(6 * r + g == r * 6 + g);
                    }
                    palette.push((rv, gv, bv));
                    b += 1;
                }
                g += 1;
            }
            r += 1;
        }
        let mut i: u8 = 0;
        while i < 24
            invariant
                i <= 24,
                palette@.len() == 232 + i,
                forall|k: int| 0 <= k < palette@.len() ==> #[trigger] palette@[k] == default_palette_entry(k),
            decreases 24 - i,
        {
            let v = 8 + 10 * i;
            palette.push((v, v, v));
            i += 1;
        }
        assert(palette@ =~= default_palette());
    }

    /// Grow the pixel buffer to accommodate a larger image.
    fn grow_buffer(&mut self, new_w: u32, new_h: u32)
        requires
            old(self)@.pixels.len() == old(self)@.width * old(self)@.height * 4,
            old(self)@.width * old(self)@.height * 4 <= u32::MAX,
            new_w * new_h * 4 <= u32::MAX,
        ensures
            final(self)@ == old(self)@.grow(new_w, new_h),
            final(self)@.pixels.len() == new_w * new_h * 4,
    {
        if new_w == self.width && new_h == self.height {
            return;
        }
        let ghost p = self.pixels@;
        let w = self.width;
        let h = self.height;
        let total = (new_w * new_h * 4) as usize;
        let mut new_pixels = zeros(total);
        let rows = if h <= new_h {
            h
        } else {
            new_h
        };
        let cw: u32 = if w <= new_w {
            w
        } else {
            new_w
        };
        let ghost d = new_w * 4;
        let ghost target = grown(p, w, h, new_w, new_h);
        proof {
            assert(rows * d <= total) by (nonlinear_arith)
                requires
                    rows <= new_h,
                    d == new_w * 4,
                    total == new_w * new_h * 4,
            ;
        }
        let mut row: u32 = 0;
        while row < rows
            invariant
                p == self.pixels@,
                p.len() == w * h * 4,
                w * h * 4 <= u32::MAX,
                new_w * new_h * 4 <= u32::MAX,
                w == self.width,
                h == self.height,
                total == new_w * new_h * 4,
                d == new_w * 4,
                rows <= h,
                rows <= new_h,
                rows * d <= total,
                cw <= w,
                cw <= new_w,
                cw == (if w <= new_w {
                    w
                } else {
                    new_w
                }),
                target == grown(p, w, h, new_w, new_h),
                row <= rows,
                new_pixels@.len() == total,
                forall|i: int|
                    0 <= i < total ==> #[trigger] new_pixels@[i] == (if i < row * d {
                        target[i]
                    } else {
                        0u8
                    }),
            decreases rows - row,
        {
            proof {
                lemma_row_span(row as int, w as int, h as int, (cw * 4) as int);
                lemma_row_span(row as int, new_w as int, new_h as int, (cw * 4) as int);
                assert((row + 1) * d <= rows * d) by (nonlinear_arith)
                    requires
                        row < rows,
                        d >= 0,
                ;
                assert((row + 1) * d == row * d + d) by (nonlinear_arith);
            }
            let src_start = (row * w * 4) as usize;
            let copy_len = (cw * 4) as usize;
            let dst_start = (row * new_w * 4) as usize;
            let mut k: usize = 0;
            while k < copy_len
                invariant
                    p == self.pixels@,
                    p.len() == w * h * 4,
                    d == new_w * 4,
                    row < rows,
                    rows <= h,
                    total == new_w * new_h * 4,
                    (row + 1) * d <= total,
                    copy_len == cw * 4,
                    cw <= w,
                    cw <= new_w,
                    cw == (if w <= new_w {
                        w
                    } else {
                        new_w
                    }),
                    target == grown(p, w, h, new_w, new_h),
                    src_start == row * w * 4,
                    dst_start == row * d,
                    src_start + copy_len <= p.len(),
                    p.len() <= u32::MAX,
                    total <= u32::MAX,
                    dst_start + copy_len <= total,
                    k <= copy_len,
                    new_pixels@.len() == total,
                    forall|i: int|
                        0 <= i < total ==> #[trigger] new_pixels@[i] == (if i < row * d + k {
                            target[i]
                        } else {
                            0u8
                        }),
                decreases copy_len - k,
            {
                proof {
                    lemma_divmod(row as int, d as int, k as int);
                    assert((row * d + k) / (new_w * 4) as int == row);
                    assert(row * w * 4 + k == src_start + k);
                }
                let ghost before = new_pixels@;
                new_pixels.set(dst_start + k, self.pixels[src_start + k]);
                proof {
                    assert(new_pixels@[dst_start + k] == target[dst_start + k]);
                    assert forall|i: int| 0 <= i < total implies #[trigger] new_pixels@[i] == (if i
                        < row * d + k + 1 {
                        target[i]
                    } else {
                        0u8
                    }) by {
                        if i != dst_start + k {
                            assert(new_pixels@[i] == before[i]);
                        }
                    }
                }
                k += 1;
            }
            proof {
                assert forall|i: int| 0 <= i < total implies #[trigger] new_pixels@[i] == (if i < (
                row + 1) * d {
                    target[i]
                } else {
                    0u8
                }) by {
                    if row * d + copy_len <= i < (row + 1) * d {
                        assert((row + 1) * d == row * d + d) by (nonlinear_arith);
                        lemma_divmod(row as int, d as int, i - row * d);
                    }
                }
            }
            row += 1;
        }
        proof {
            assert forall|i: int| 0 <= i < total implies #[trigger] new_pixels@[i] == target[i] by {
                if i >= rows * d {
                    assert(d > 0) by (nonlinear_arith)
                        requires
                            0 <= i < total,
                            total == new_w * new_h * 4,
                            d == new_w * 4,
                    ;
                    vstd::arithmetic::div_mod::lemma_fundamental_div_mod(i, d as int);
                    let q = i / d;
                    let r = i % d;
                    assert(q >= rows) by (nonlinear_arith)
                        requires
                            i == d * q + r,
                            0 <= r < d,
                            i >= rows * d,
                    ;
                    assert(q < new_h) by (nonlinear_arith)
                        requires
                            i == d * q + r,
                            0 <= r,
                            d > 0,
                            i < new_w * new_h * 4,
                            d == new_w * 4,
                    ;
                }
            }
            assert(new_pixels@ =~= target);
        }
        self.pixels = new_pixels;
        self.width = new_w;
        self.height = new_h;
    }

    /// Draw a single sixel column (6 vertical pixels) at the current cursor.
    fn draw_sixel(&mut self, sixel: u8)
        requires
            old(self).wf(),
            old(self)@.draw_ok(),
        ensures
            final(self).wf(),
            final(self)@ == old(self)@.draw(sixel),
    {
        let ghost m = self@;
        let rgb = if self.current_color < self.palette.len() {
            self.palette[self.current_color]
        } else {
            (255, 255, 255)
        };
        let needed_width = self.x + 1;
        let needed_height = self.y + 6;
        if !self.raster_attrs_set || needed_width > self.width || needed_height > self.height {
            let new_w = if self.width >= needed_width {
                self.width
            } else {
                needed_width
            };
            let new_h = if self.height >= needed_height {
                self.height
            } else {
                needed_height
            };
            self.grow_buffer(new_w, new_h);
        }
        let ghost m1 = self@;
        let w = self.width;
        let h = self.height;
        let mut bit: u8 = 0;
        while bit < 6
            invariant
                bit <= 6,
                w == self.width,
                h == self.height,
                self@.pixels.len() == m1.pixels.len(),
                self.pixels@.len() == w * h * 4,
                w * h * 4 <= u32::MAX,
                self.x == m.x,
                self.y == m.y,
                self.y + 6 <= u32::MAX,
                self@ == m1.with_pixels(self.pixels@),
                plot(self.pixels@, w, h, m.x, m.y, sixel, rgb, bit as int) == plot(
                    m1.pixels,
                    w,
                    h,
                    m.x,
                    m.y,
                    sixel,
                    rgb,
                    0,
                ),
            decreases 6 - bit,
        {
            if sixel & (1u8 << bit) != 0 {
                let px = self.x;
                let py = self.y + bit as u32;
                if px < w && py < h {
                    proof {
                        lemma_offset_in_image(py as int, w as int, h as int, px as int);
                    }
                    let offset = ((py * w + px) * 4) as usize;
                    if offset + 3 < self.pixels.len() {
                        self.pixels.set(offset, rgb.0);
                        self.pixels.set(offset + 1, rgb.1);
                        self.pixels.set(offset + 2, rgb.2);
                        self.pixels.set(offset + 3, 255);
                    }
                }
            }
            bit += 1;
        }
        self.x += 1;
        self.max_x = if self.max_x >= self.x {
            self.max_x
        } else {
            self.x
        };
        let band_end = self.y + 6;
        self.max_y = if self.max_y >= band_end {
            self.max_y
        } else {
            band_end
        };
        assert(self@ =~= m.draw(sixel));
    }

    fn feed_normal(&mut self, byte: u8)
        requires
            old(self).wf(),
            old(self)@.normal_ok(byte),
        ensures
            final(self).wf(),
            final(self)@ == old(self)@.feed_normal(byte),
    {
        let ghost m = self@;
        if 0x3F <= byte && byte <= 0x7E {
            let sixel = byte - 0x3F;
            let count = self.repeat_count;
            let mut i: u32 = 0;
            while i < count
                invariant
                    self.wf(),
                    i <= count,
                    count == m.repeat_count,
                    self@.draw_n(sixel, (count - i) as nat) == m.draw_n(sixel, count as nat),
                    self@.draw_n_ok((count - i) as nat),
                decreases count - i,
            {
                proof {
                    lemma_draw_step(self@, sixel, (count - i) as nat);
                }
                self.draw_sixel(sixel);
                i += 1;
            }
            self.repeat_count = 1;
            assert(self@ =~= m.feed_normal(byte));
        } else if byte == 36 {
            self.x = 0;
        } else if byte == 45 {
            self.x = 0;
            self.y += 6;
        } else if byte == 35 {
            self.state = DecoderState::ColorSelect;
            self.param_buf.clear();
            self.params.clear();
            assert(self@ =~= m.feed_normal(byte));
        } else if byte == 33 {
            self.state = DecoderState::Repeat;
            self.param_buf.clear();
            assert(self@ =~= m.feed_normal(byte));
        } else if byte == 34 {
            self.state = DecoderState::RasterAttrs;
            self.param_buf.clear();
            self.params.clear();
            assert(self@ =~= m.feed_normal(byte));
        }
    }

    /// Moves the pending parameter to the parameter list.
    fn take_param(&mut self)
        requires
            old(self).wf(),
        ensures
            final(self).wf(),
            final(self)@ == old(self)@.take_param(),
    {
        let ghost m = self@;
        let val = match parse_digits(&self.param_buf) {
            Some(v) => v,
            None => 0,
        };
        self.params.push(val);
        self.param_buf.clear();
        assert(self@ =~= m.take_param());
    }

    fn feed_color_select(&mut self, byte: u8)
        requires
            old(self).wf(),
            old(self)@.mode == DecoderState::ColorSelect,
            old(self)@.feed_ok(byte),
        ensures
            final(self).wf(),
            final(self)@ == old(self)@.feed(byte),
    {
        let ghost m = self@;
        if 48 <= byte && byte <= 57 {
            self.param_buf.push(byte);
            assert(self@ =~= m.feed(byte));
        } else if byte == 59 {
            self.take_param();
        } else {
            self.take_param();
            let n = self.params.len();
            if n == 1 {
                self.current_color = self.params[0] as usize;
            } else if n >= 5 {
                let idx = self.params[0] as usize;
                let color_type = self.params[1];
                let c1 = self.params[2];
                let c2 = self.params[3];
                let c3 = self.params[4];
                let rgb = if color_type == 1 {
                    hls_to_rgb(c1, c2, c3)
                } else {
                    (((c1 * 255) / 100) as u8, ((c2 * 255) / 100) as u8, ((c3 * 255) / 100) as u8)
                };
                extend_palette(&mut self.palette, idx);
                self.palette.set(idx, rgb);
                self.current_color = idx;
            }
            self.state = DecoderState::Normal;
            assert(self@.palette =~= m.color_end().palette);
            assert(self@.current_color == m.color_end().current_color);
            assert(self@ =~= m.color_end());
            self.feed_normal(byte);
        }
    }

    fn feed_repeat(&mut self, byte: u8)
        requires
            old(self).wf(),
            old(self)@.mode == DecoderState::Repeat,
            old(self)@.feed_ok(byte),
        ensures
            final(self).wf(),
            final(self)@ == old(self)@.feed(byte),
    {
        let ghost m = self@;
        if 48 <= byte && byte <= 57 {
            self.param_buf.push(byte);
            assert(self@ =~= m.feed(byte));
        } else {
            let v = match parse_digits(&self.param_buf) {
                Some(v) => v,
                None => 1,
            };
            self.repeat_count = if v >= 1 {
                v
            } else {
                1
            };
            self.param_buf.clear();
            self.state = DecoderState::Normal;
            assert(self@ =~= m.repeat_end());
            self.feed_normal(byte);
        }
    }

    fn feed_raster_attrs(&mut self, byte: u8)
        requires
            old(self).wf(),
            old(self)@.mode == DecoderState::RasterAttrs,
            old(self)@.feed_ok(byte),
        ensures
            final(self).wf(),
            final(self)@ == old(self)@.feed(byte),
    {
        let ghost m = self@;
        if 48 <= byte && byte <= 57 {
            self.param_buf.push(byte);
            assert(self@ =~= m.feed(byte));
        } else if byte == 59 {
            self.take_param();
        } else {
            self.take_param();
            if self.params.len() >= 4 {
                let ph = self.params[2];
                let pv = self.params[3];
                if ph > 0 && pv > 0 && ph <= 4096 && pv <= 4096 {
                    assert(ph * pv * 4 <= 4096 * 4096 * 4) by (nonlinear_arith)
                        requires
                            0 < ph <= 4096,
                            0 < pv <= 4096,
                    ;
                    self.width = ph;
                    self.height = pv;
                    let n = (ph * pv * 4) as usize;
                    let ghost p0 = self.pixels@;
                    if n <= self.pixels.len() {
                        self.pixels.truncate(n);
                    } else {
                        let extra = zeros(n - self.pixels.len());
                        let mut extra = extra;
                        self.pixels.append(&mut extra);
                    }
                    assert(self.pixels@ =~= resized_bytes(p0, n as nat));
                    self.raster_attrs_set = true;
                }
            }
            self.state = DecoderState::Normal;
            assert(self@ =~= m.raster_end());
            self.feed_normal(byte);
        }
    }

    /// Feed a single byte from the Sixel data stream.
    pub fn feed(&mut self, byte: u8)
        requires
            old(self).wf(),
            old(self)@.feed_ok(byte),
        ensures
            final(self).wf(),
            final(self)@ == old(self)@.feed(byte),
    {
        match self.state {
            DecoderState::Normal => self.feed_normal(byte),
            DecoderState::ColorSelect => self.feed_color_select(byte),
            DecoderState::Repeat => self.feed_repeat(byte),
            DecoderState::RasterAttrs => self.feed_raster_attrs(byte),
        }
    }

    /// Whether feeding the byte stays within the decoder's `u32` arithmetic.
    pub fn can_feed(&self, byte: u8) -> (r: bool)
        requires
            self.wf(),
        ensures
            r == self@.feed_ok(byte),
    {
        let digit = 48 <= byte && byte <= 57;
        let n = self.params.len();
        match self.state {
            DecoderState::Normal => normal_fits_exec(
                byte,
                self.x,
                self.y,
                self.width,
                self.height,
                self.repeat_count,
            ),
            DecoderState::ColorSelect => {
                if digit || byte == 59 {
                    return true;
                }
                let val = match parse_digits(&self.param_buf) {
                    Some(v) => v,
                    None => 0,
                };
                let ghost ps = self@.take_param().params;
                let rgb_ok = if n >= 4 && self.params[1] != 1 {
                    let c3 = if n > 4 {
                        self.params[4]
                    } else {
                        val
                    };
                    let lim = u32::MAX / 255;
                    self.params[2] <= lim && self.params[3] <= lim && c3 <= lim
                } else {
                    true
                };
                rgb_ok && normal_fits_exec(
                    byte,
                    self.x,
                    self.y,
                    self.width,
                    self.height,
                    self.repeat_count,
                )
            },
            DecoderState::Repeat => {
                if digit {
                    return true;
                }
                let v = match parse_digits(&self.param_buf) {
                    Some(v) => v,
                    None => 1,
                };
                let rc = if v >= 1 {
                    v
                } else {
                    1
                };
                normal_fits_exec(byte, self.x, self.y, self.width, self.height, rc)
            },
            DecoderState::RasterAttrs => {
                if digit || byte == 59 {
                    return true;
                }
                let val = match parse_digits(&self.param_buf) {
                    Some(v) => v,
                    None => 0,
                };
                let mut w = self.width;
                let mut h = self.height;
                if n >= 3 {
                    let ph = self.params[2];
                    let pv = if n > 3 {
                        self.params[3]
                    } else {
                        val
                    };
                    if ph > 0 && pv > 0 && ph <= 4096 && pv <= 4096 {
                        w = ph;
                        h = pv;
                    }
                }
                normal_fits_exec(byte, self.x, self.y, w, h, self.repeat_count)
            },
        }
    }

    /// Feed a slice of bytes from the Sixel data stream.
    pub fn feed_bytes(&mut self, bytes: &[u8])
        requires
            old(self).wf(),
            old(self)@.feed_all_ok(bytes@),
        ensures
            final(self).wf(),
            final(self)@ == old(self)@.feed_all(bytes@),
    {
        let ghost m = self@;
        let mut i: usize = 0;
        assert(bytes@.subrange(0, bytes@.len() as int) =~= bytes@);
        while i < bytes.len()
            invariant
                self.wf(),
                i <= bytes@.len(),
                self@.feed_all(bytes@.subrange(i as int, bytes@.len() as int)) == m.feed_all(bytes@),
                self@.feed_all_ok(bytes@.subrange(i as int, bytes@.len() as int)),
            decreases bytes@.len() - i,
        {
            let ghost rest = bytes@.subrange(i as int, bytes@.len() as int);
            assert(rest.drop_first() =~= bytes@.subrange(i + 1, bytes@.len() as int));
            self.feed(bytes[i]);
            i += 1;
        }
    }

    /// Finalize decoding and return the image.
    ///
    /// Call this after all Sixel data has been fed (on DCS unhook).
    pub fn finish(self) -> (r: Option<SixelImage>)
        requires
            self.wf(),
        ensures
            self@.image() is None ==> r is None,
            self@.image() matches Some((p, w, h)) ==> r matches Some(img) && img.pixels@ == p
                && img.width == w && img.height == h,
    {
        let mut this = self;
        if this.max_x == 0 || this.max_y == 0 {
            return None;
        }
        let final_w = if this.raster_attrs_set {
            this.width
        } else {
            this.max_x
        };
        let final_h = if this.raster_attrs_set {
            this.height
        } else {
            this.max_y
        };
        if final_w != this.width || final_h != this.height {
            proof {
                lemma_mul_mono(final_w as int, final_h as int, this.width as int, this.height as int);
            }
            this.grow_buffer(final_w, final_h);
        }
        Some(SixelImage { pixels: this.pixels, width: final_w, height: final_h })
    }

    /// Reset the decoder state for a new image.
    pub fn reset(&mut self)
        ensures
            final(self).wf(),
            final(self)@ == old(self)@.reset(),
    {
        self.pixels.clear();
        self.width = 0;
        self.height = 0;
        self.x = 0;
        self.y = 0;
        self.max_x = 0;
        self.max_y = 0;
        self.current_color = 0;
        self.repeat_count = 1;
        self.state = DecoderState::Normal;
        self.raster_attrs_set = false;
        self.param_buf.clear();
        self.params.clear();
        assert(self@ =~= old(self)@.reset());
    }
}

impl Default for SixelDecoder {
    fn default() -> (r: Self)
        ensures
            r.wf(),
            r@ == initial_decoder(),
    {
        Self::new()
    }
}


} // verus!
