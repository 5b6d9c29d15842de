//! WSL (Windows Subsystem for Linux) distributions, as `wsl.exe --list --verbose`
//! lists them.

use vstd::prelude::*;

use crate::text::{chars_of, is_whitespace, is_ws, string_from_chars};

verus! {

/// Information about an installed WSL distribution.
#[derive(Debug, Clone)]
pub struct WslDistro {
    /// Distribution name (e.g., "Ubuntu", "Debian").
    pub name: String,
    /// Whether this is the default WSL distribution.
    pub is_default: bool,
    /// WSL version (1 or 2).
    pub version: u8,
}

/// The end of the line starting at `i`: the next `\n`, or the end of the text.
pub open spec fn line_end(s: Seq<char>, i: int) -> int
    decreases s.len() - i,
{
    if i < 0 || i >= s.len() || s[i] == '\n' {
        i
    } else {
        line_end(s, i + 1)
    }
}

pub proof fn lemma_line_end(s: Seq<char>, i: int)
    requires
        0 <= i,
    ensures
        i <= line_end(s, i),
        i < s.len() ==> line_end(s, i) <= s.len(),
        i >= s.len() ==> line_end(s, i) == i,
        forall|k: int| i <= k < line_end(s, i) ==> s[k] != '\n',
        line_end(s, i) < s.len() ==> s[line_end(s, i)] == '\n',
    decreases s.len() - i,
{
    if i < s.len() && s[i] != '\n' {
        lemma_line_end(s, i + 1);
    }
}

/// The lines of the text from `i` on, as `str::lines` gives them: split at each
/// `\n`, with no empty line after a final `\n`.
pub open spec fn lines_from(s: Seq<char>, i: int) -> Seq<Seq<char>>
    decreases s.len() + 1 - i,
{
    if i < 0 || i >= s.len() {
        Seq::empty()
    } else {
        let j = line_end(s, i);
        proof {
            lemma_line_end(s, i);
        }
        seq![s.subrange(i, j)] + lines_from(s, j + 1)
    }
}

/// The end of the run of non-whitespace characters starting at `i`.
pub open spec fn word_end(s: Seq<char>, i: int) -> int
    decreases s.len() - i,
{
    if i < 0 || i >= s.len() || is_ws(s[i]) {
        i
    } else {
        word_end(s, i + 1)
    }
}

pub proof fn lemma_word_end(s: Seq<char>, i: int)
    requires
        0 <= i,
    ensures
        i <= word_end(s, i),
        i < s.len() ==> word_end(s, i) <= s.len(),
        i >= s.len() ==> word_end(s, i) == i,
        forall|k: int| i <= k < word_end(s, i) ==> !is_ws(s[k]),
        word_end(s, i) < s.len() ==> is_ws(s[word_end(s, i)]),
    decreases s.len() - i,
{
    if i < s.len() && !is_ws(s[i]) {
        lemma_word_end(s, i + 1);
    }
}

/// The whitespace-separated words of the text from `i` on, as
/// `str::split_whitespace` gives them.
pub open spec fn words_from(s: Seq<char>, i: int) -> Seq<Seq<char>>
    decreases s.len() - i,
{
    if i < 0 || i >= s.len() {
        Seq::empty()
    } else if is_ws(s[i]) {
        words_from(s, i + 1)
    } else {
        let j = word_end(s, i);
        proof {
            lemma_word_end(s, i + 1);
        }
        seq![s.subrange(i, j)] + words_from(s, j)
    }
}

/// The first index from `i` on that holds no whitespace, or the end.
pub open spec fn skip_ws(s: Seq<char>, i: int) -> int
    decreases s.len() - i,
{
    if i < 0 || i >= s.len() || !is_ws(s[i]) {
        i
    } else {
        skip_ws(s, i + 1)
    }
}

/// The first index from `i` on that holds no `*`, or the end.
pub open spec fn skip_stars(s: Seq<char>, i: int) -> int
    decreases s.len() - i,
{
    if i < 0 || i >= s.len() || s[i] != '*' {
        i
    } else {
        skip_stars(s, i + 1)
    }
}

/// The value of a string of decimal digits.
pub open spec fn decimal_value(ds: Seq<char>) -> nat
    decreases ds.len(),
{
    if ds.len() == 0 {
        0
    } else {
        decimal_value(ds.drop_last()) * 10 + (ds.last() as nat - 48) as nat
    }
}

pub open spec fn all_decimal(ds: Seq<char>) -> bool {
    forall|i: int| 0 <= i < ds.len() ==> '0' <= #[trigger] ds[i] <= '9'
}

/// `u8::from_str`: decimal digits after an optional `+`, at most 255.
pub open spec fn parse_u8(w: Seq<char>) -> Option<u8> {
    let ds = if w.len() > 0 && w[0] == '+' {
        w.drop_first()
    } else {
        w
    };
    if ds.len() == 0 || !all_decimal(ds) || decimal_value(ds) > 255 {
        None
    } else {
        Some(decimal_value(ds) as u8)
    }
}

/// The distribution a line of the listing describes: the line trimmed; a leading
/// `*` marks the default; then the words NAME, STATE, VERSION (version 2 when it
/// does not parse), or only a name. A blank line describes none.
pub open spec fn distro_of(line: Seq<char>) -> Option<(Seq<char>, bool, u8)> {
    let k = skip_ws(line, 0);
    if k >= line.len() {
        None
    } else {
        let ws = words_from(line, skip_stars(line, k));
        if ws.len() >= 3 {
            Some(
                (
                    ws[0],
                    line[k] == '*',
                    match parse_u8(ws[2]) {
                        Some(v) => v,
                        None => 2,
                    },
                ),
            )
        } else if ws.len() >= 1 {
            Some((ws[0], line[k] == '*', 2))
        } else {
            None
        }
    }
}

/// The lines after the first (the header), if any.
pub open spec fn after_header(lines: Seq<Seq<char>>) -> Seq<Seq<char>> {
    if lines.len() == 0 {
        lines
    } else {
        lines.drop_first()
    }
}

/// The distributions the lines describe, in order.
pub open spec fn distros_of(lines: Seq<Seq<char>>) -> Seq<(Seq<char>, bool, u8)>
    decreases lines.len(),
{
    if lines.len() == 0 {
        Seq::empty()
    } else {
        let rest = distros_of(lines.drop_first());
        match distro_of(lines[0]) {
            Some(d) => seq![d] + rest,
            None => rest,
        }
    }
}

pub open spec fn distro_views(v: Seq<WslDistro>) -> Seq<(Seq<char>, bool, u8)> {
    v.map_values(|d: WslDistro| (d.name@, d.is_default, d.version))
}

/// `u8::from_str` on a word.
fn parse_version(w: &[char]) -> (r: Option<u8>)
    ensures
        r == parse_u8(w@),
{
    let start: usize = if w.len() > 0 && w[0] == '+' {
        1
    } else {
        0
    };
    let ghost ds = if w@.len() > 0 && w@[0] == '+' {
        w@.drop_first()
    } else {
        w@
    };
    assert(ds =~= w@.subrange(start as int, w@.len() as int));
    if start >= w.len() {
        return None;
    }
    let mut v: u32 = 0;
    let mut i = start;
    while i < w.len()
        invariant
            start <= i <= w@.len(),
            ds == w@.subrange(start as int, w@.len() as int),
            ds == (if w@.len() > 0 && w@[0] == '+' {
                w@.drop_first()
            } else {
                w@
            }),
            ds.len() > 0,
            all_decimal(w@.subrange(start as int, i as int)),
            v == decimal_value(w@.subrange(start as int, i as int)),
            v <= 255,
        decreases w@.len() - i,
    {
        let c = w[i];
        assert(w@.subrange(start as int, i + 1).drop_last() =~= w@.subrange(start as int, i as int));
        if c < '0' || c > '9' {
            proof {
                assert(ds[i - start] == c);
                assert(!('0' <= ds[i - start] <= '9'));
                assert(!all_decimal(ds));
            }
            return None;
        }
        let d = (c as u32) - 48;
        v = v * 10 + d;
        i += 1;
        if v > 255 {
            proof {
                let pre = w@.subrange(start as int, i as int);
                assert(pre.drop_last() =~= w@.subrange(start as int, i - 1));
                assert(v == decimal_value(pre));
                lemma_decimal_grows(ds, i - start);
                assert(ds.subrange(0, i - start) =~= pre);
                if all_decimal(ds) {
                    assert(decimal_value(ds) > 255);
                }
            }
            return None;
        }
    }
    assert(w@.subrange(start as int, w@.len() as int) =~= ds);
    Some(v as u8)
}

/// A longer prefix of digits is worth at least as much.
proof fn lemma_decimal_grows(ds: Seq<char>, k: int)
    requires
        0 <= k <= ds.len(),
    ensures
        all_decimal(ds) ==> decimal_value(ds.subrange(0, k)) <= decimal_value(ds),
    decreases ds.len() - k,
{
    if k < ds.len() {
        lemma_decimal_grows(ds, k + 1);
        assert(ds.subrange(0, k + 1).drop_last() =~= ds.subrange(0, k));
    } else {
        assert(ds.subrange(0, k) =~= ds);
    }
}

/// The distribution one line describes.
fn parse_line(line: &[char]) -> (r: Option<WslDistro>)
    ensures
        match r {
            Some(d) => distro_of(line@) == Some((d.name@, d.is_default, d.version)),
            None => distro_of(line@) is None,
        },
{
    let ghost s = line@;
    let n = line.len();
    let mut k: usize = 0;
    while k < n && is_whitespace(line[k])
        invariant
            k <= n == s.len(),
            s == line@,
            skip_ws(s, k as int) == skip_ws(s, 0),
        decreases n - k,
    {
        k += 1;
    }
    if k >= n {
        return None;
    }
    let is_default = line[k] == '*';
    let mut m = k;
    while m < n && line[m] == '*'
        invariant
            k <= m <= n == s.len(),
            s == line@,
            skip_stars(s, m as int) == skip_stars(s, k as int),
        decreases n - m,
    {
        m += 1;
    }
    let mut words: Vec<Vec<char>> = Vec::new();
    let mut p = m;
    while p < n
        invariant
            m <= p <= n == s.len(),
            s == line@,
            words_from(s, m as int) == word_seqs(words@) + words_from(s, p as int),
        decreases n - p,
    {
        if is_whitespace(line[p]) {
            p += 1;
        } else {
            let start = p;
            proof {
                lemma_word_end(s, start as int);
            }
            while p < n && !is_whitespace(line[p])
                invariant
                    start <= p <= n == s.len(),
                    s == line@,
                    word_end(s, p as int) == word_end(s, start as int),
                decreases n - p,
            {
                p += 1;
            }
            let w = vstd::slice::slice_to_vec(vstd::slice::slice_subrange(line, start, p));
            let ghost before = words@;
            words.push(w);
            assert(word_seqs(words@) =~= word_seqs(before) + seq![s.subrange(start as int, p as int)]);
        }
    }
    assert(words_from(s, n as int) =~= Seq::<Seq<char>>::empty());
    assert(word_seqs(words@) =~= words_from(s, m as int));
    if words.len() >= 3 {
        let version = match parse_version(words[2].as_slice()) {
            Some(v) => v,
            None => 2,
        };
        Some(WslDistro { name: string_from_chars(words[0].as_slice()), is_default, version })
    } else if words.len() >= 1 {
        Some(WslDistro { name: string_from_chars(words[0].as_slice()), is_default, version: 2 })
    } else {
        None
    }
}

pub open spec fn word_seqs(v: Seq<Vec<char>>) -> Seq<Seq<char>> {
    v.map_values(|w: Vec<char>| w@)
}

/// Parse the listing `wsl.exe --list --verbose` prints: a header line, then one
/// line per distribution.
pub fn parse_wsl_list(text: &str) -> (r: Vec<WslDistro>)
    ensures
        distro_views(r@) == distros_of(after_header(lines_from(text@, 0))),
{
    let cs = chars_of(text);
    let ghost s = cs@;
    let n = cs.len();
    let mut out: Vec<WslDistro> = Vec::new();
    if n == 0 {
        assert(distro_views(out@) =~= distros_of(after_header(lines_from(s, 0))));
        return out;
    }
    let mut i: usize = 0;
    while i < n && cs[i] != '\n'
        invariant
            i <= n == s.len(),
            s == cs@,
            line_end(s, i as int) == line_end(s, 0),
        decreases n - i,
    {
        i += 1;
    }
    proof {
        lemma_line_end(s, 0);
        assert(after_header(lines_from(s, 0)) =~= lines_from(s, i + 1));
    }
    let mut i = if i < n {
        i + 1
    } else {
        n
    };
    assert(distro_views(out@) =~= Seq::empty());
    while i < n
        invariant
            i <= n,
            n == s.len(),
            s == cs@,
            distros_of(after_header(lines_from(s, 0))) == distro_views(out@) + distros_of(
                lines_from(s, i as int),
            ),
        decreases n - i,
    {
        let start = i;
        proof {
            lemma_line_end(s, start as int);
        }
        while i < n && cs[i] != '\n'
            invariant
                start <= i <= n == s.len(),
                s == cs@,
                line_end(s, i as int) == line_end(s, start as int),
            decreases n - i,
        {
            i += 1;
        }
        let seg = vstd::slice::slice_subrange(cs.as_slice(), start, i);
        let ghost rest = lines_from(s, i + 1);
        assert(lines_from(s, start as int) == seq![s.subrange(start as int, i as int)] + rest);
        assert((seq![s.subrange(start as int, i as int)] + rest).drop_first() =~= rest);
        let ghost before = distro_views(out@);
        match parse_line(seg) {
            Some(d) => {
                out.push(d);
                assert(distro_views(out@) =~= before + seq![(d.name@, d.is_default, d.version)]);
            },
            None => {},
        }
        i = if i < n {
            i + 1
        } else {
            n
        };
    }
    assert(lines_from(s, i as int) =~= Seq::empty());
    assert(distro_views(out@) + Seq::empty() =~= distro_views(out@));
    out
}

/// UTF-16 decoding with each unpaired surrogate replaced by U+FFFD: a unit that
/// is no surrogate is its character; a high surrogate followed by a low one is the
/// character they encode together; any other surrogate is U+FFFD, and decoding goes
/// on with the next unit.
pub open spec fn utf16_lossy(units: Seq<u16>) -> Seq<char>
    decreases units.len(),
{
    if units.len() == 0 {
        Seq::empty()
    } else {
        let u = units[0] as u32;
        if u < 0xD800 || u > 0xDFFF {
            seq![u as char] + utf16_lossy(units.drop_first())
        } else if u <= 0xDBFF && units.len() >= 2 && 0xDC00 <= units[1] <= 0xDFFF {
            seq![(0x10000 + (u - 0xD800) * 0x400 + (units[1] - 0xDC00)) as char] + utf16_lossy(
                units.subrange(2, units.len() as int),
            )
        } else {
            seq!['\u{FFFD}'] + utf16_lossy(units.drop_first())
        }
    }
}

/// What `String::from_utf8_lossy` makes of the bytes.
pub uninterp spec fn utf8_lossy(bytes: Seq<u8>) -> Seq<char>;

/// `String::from_utf16_lossy`. Its contract claims what std documents: the units
/// decoded as UTF-16, what does not decode (an unpaired surrogate) replaced by
/// U+FFFD.
#[verifier::external_body]
fn string_from_utf16_lossy(units: &[u16]) -> (r: String)
    ensures
        r@ == utf16_lossy(units@),
{
    String::from_utf16_lossy(units)
}

/// `String::from_utf8_lossy`, made an owned string. Its contract claims that the
/// text is a function of the bytes alone, and, as std documents, that valid UTF-8
/// comes out as the characters it encodes.
#[verifier::external_body]
fn string_from_utf8_lossy(bytes: &[u8]) -> (r: String)
    ensures
        r@ == utf8_lossy(bytes@),
        vstd::utf8::valid_utf8(bytes@) ==> r@ == vstd::utf8::decode_utf8(bytes@),
{
    String::from_utf8_lossy(bytes).into_owned()
}

/// The bytes read as little-endian 16-bit code units, a last odd byte left out.
pub open spec fn le_units(bytes: Seq<u8>) -> Seq<u16> {
    Seq::new(bytes.len() / 2, |i: int| (bytes[2 * i] + 256 * bytes[2 * i + 1]) as u16)
}

/// The text of `wsl.exe`'s output: UTF-16LE after a byte-order mark, else UTF-8,
/// what does not decode replaced.
pub open spec fn wsl_text(bytes: Seq<u8>) -> Seq<char> {
    if bytes.len() >= 2 && bytes[0] == 0xFF && bytes[1] == 0xFE {
        utf16_lossy(le_units(bytes.subrange(2, bytes.len() as int)))
    } else {
        utf8_lossy(bytes)
    }
}

/// Decodes what `wsl.exe --list --verbose` printed.
pub fn decode_wsl_output(bytes: &[u8]) -> (r: String)
    ensures
        r@ == wsl_text(bytes@),
{
    if bytes.len() >= 2 && bytes[0] == 0xFF && bytes[1] == 0xFE {
        let ghost rest = bytes@.subrange(2, bytes@.len() as int);
        let mut units: Vec<u16> = Vec::new();
        let mut k: usize = 2;
        while k + 1 < bytes.len()
            invariant
                2 <= k <= bytes@.len(),
                (k - 2) % 2 == 0,
                rest == bytes@.subrange(2, bytes@.len() as int),
                units@ == le_units(rest).subrange(0, (k - 2) / 2),
                (k - 2) / 2 <= le_units(rest).len(),
            decreases bytes@.len() - k,
        {
            let lo = bytes[k];
            let hi = bytes[k + 1];
            let u: u16 = lo as u16 + (hi as u16) * 256;
            units.push(u);
            assert(rest[k - 2] == lo && rest[k - 1] == hi);
            assert(units@ =~= le_units(rest).subrange(0, (k - 2) / 2 + 1));
            k += 2;
        }
        assert(units@ =~= le_units(rest));
        string_from_utf16_lossy(units.as_slice())
    } else {
        string_from_utf8_lossy(bytes)
    }
}

} // verus!
