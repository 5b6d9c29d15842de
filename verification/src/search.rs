//! Text search over the scrollback and the visible screen, by literal text or
//! regular expression.

use vstd::prelude::*;

use crate::buffer::{line_text, ScrollbackBuffer};
use crate::grid::{row_chars, Grid};
use crate::compiled_regex::{
    compile, find_matches, found_views, regex_compiles, regex_escape, regex_escaped,
    regex_find_all, CompiledRegex,
};
use crate::text::{push_char, trim_end, trimmed_string};
use vstd::utf8::{decode_utf8, encode_utf8, is_char_boundary};

verus! {

/// A match found by searching the terminal buffer.
#[derive(Debug, Clone, PartialEq, Eq)]
pub struct SearchMatch {
    /// Line number (0-indexed, relative to scrollback start).
    pub line: usize,
    /// Column start (0-indexed, in characters of the line's text).
    pub col: usize,
    /// Length of the match in characters.
    pub len: usize,
    /// The matched text.
    pub text: String,
}

/// Options controlling search behavior.
#[derive(Debug, Clone)]
pub struct SearchOptions {
    /// The search pattern.
    pub pattern: String,
    /// Whether to use regex mode.
    pub use_regex: bool,
    /// Whether to ignore case (case-insensitive).
    pub ignore_case: bool,
}

impl Default for SearchOptions {
    fn default() -> (r: Self)
        ensures
            r.pattern@.len() == 0,
            !r.use_regex,
            r.ignore_case,
    {
        SearchOptions { pattern: String::new(), use_regex: false, ignore_case: true }
    }
}

/// The line, column, length and text of a match.
pub open spec fn match_view(m: SearchMatch) -> (usize, usize, usize, Seq<char>) {
    (m.line, m.col, m.len, m.text@)
}

pub open spec fn match_views(v: Seq<SearchMatch>) -> Seq<(usize, usize, usize, Seq<char>)> {
    v.map_values(|m: SearchMatch| match_view(m))
}

/// What the regex reports of a match holds of the line's text: the matched text is
/// the line's bytes from the byte offset for the byte length, and both ends fall
/// on character boundaries.
pub open spec fn found_in(f: (usize, usize, Seq<char>), text: Seq<char>) -> bool {
    let e = encode_utf8(text);
    &&& f.0 + f.1 <= e.len()
    &&& encode_utf8(f.2) == e.subrange(f.0 as int, f.0 + f.1)
    &&& is_char_boundary(e, f.0 as int)
    &&& is_char_boundary(e, f.0 + f.1)
}

/// How many characters of the text the first `b` bytes of its UTF-8 encoding hold.
pub open spec fn chars_in_bytes(text: Seq<char>, b: int) -> int {
    decode_utf8(encode_utf8(text).subrange(0, b)).len() as int
}

/// The matches found on line `line`, whose text is `text`, in order: each at the
/// character where it starts, with its length in characters.
pub open spec fn line_hits(line: usize, text: Seq<char>, found: Seq<(usize, usize, Seq<char>)>) -> Seq<
    (usize, usize, usize, Seq<char>),
> {
    found.map_values(
        |f: (usize, usize, Seq<char>)|
            (line, chars_in_bytes(text, f.0 as int) as usize, f.2.len() as usize, f.2),
    )
}

/// The matches of `pattern` in each of the lines, line by line, the lines
/// numbered from 0.
pub open spec fn all_hits(pattern: Seq<char>, lines: Seq<Seq<char>>) -> Seq<
    (usize, usize, usize, Seq<char>),
>
    decreases lines.len(),
{
    if lines.len() == 0 {
        Seq::empty()
    } else {
        all_hits(pattern, lines.drop_last()) + line_hits(
            (lines.len() - 1) as usize,
            lines.last(),
            regex_find_all(pattern, lines.last()),
        )
    }
}

/// The regex a search compiles: `(?i)` first when case is ignored, then the
/// pattern, escaped unless it is a regex.
pub open spec fn search_regex_source(pattern: Seq<char>, use_regex: bool, ignore_case: bool) -> Seq<
    char,
> {
    let body = if use_regex {
        pattern
    } else {
        regex_escaped(pattern)
    };
    if ignore_case {
        seq!['(', '?', 'i', ')'] + body
    } else {
        body
    }
}

/// The text of every line that a search goes through: the scrollback, oldest
/// first, then the rows of the screen.
pub open spec fn searched_lines(scrollback: Seq<Seq<crate::cell::Cell>>, rows: Seq<Seq<crate::cell::Cell>>) -> Seq<Seq<char>> {
    scrollback.map_values(|l: Seq<crate::cell::Cell>| line_text(l)) + rows.map_values(
        |r: Seq<crate::cell::Cell>| trim_end(row_chars(r)),
    )
}

/// The match's text is what its line holds from its column, for its length.
pub open spec fn hit_located(h: (usize, usize, usize, Seq<char>), lines: Seq<Seq<char>>) -> bool {
    &&& h.0 < lines.len()
    &&& h.1 + h.2 <= lines[h.0 as int].len()
    &&& lines[h.0 as int].subrange(h.1 as int, h.1 + h.2) == h.3
}

/// The encoding of two runs of characters is the encoding of the first, then of
/// the second.
proof fn lemma_encode_concat(a: Seq<char>, b: Seq<char>)
    ensures
        encode_utf8(a + b) == encode_utf8(a) + encode_utf8(b),
    decreases a.len(),
{
    if a.len() == 0 {
        assert(a + b =~= b);
        assert(encode_utf8(a) + encode_utf8(b) =~= encode_utf8(b));
    } else {
        assert((a + b)[0] == a[0]);
        assert((a + b).drop_first() =~= a.drop_first() + b);
        lemma_encode_concat(a.drop_first(), b);
        assert(encode_utf8(a + b) =~= encode_utf8(a) + encode_utf8(b));
    }
}

/// A character takes at least one byte.
proof fn lemma_encode_nonempty(t: Seq<char>)
    requires
        t.len() > 0,
    ensures
        encode_utf8(t).len() > 0,
{
}

/// Where a match the regex reports lies in characters: from the number of
/// characters its byte offset covers, its text, character for character.
pub proof fn lemma_char_position(f: (usize, usize, Seq<char>), text: Seq<char>)
    requires
        found_in(f, text),
    ensures
        0 <= chars_in_bytes(text, f.0 as int),
        chars_in_bytes(text, f.0 as int) + f.2.len() <= text.len(),
        text.subrange(
            chars_in_bytes(text, f.0 as int),
            chars_in_bytes(text, f.0 as int) + f.2.len(),
        ) == f.2,
{
    broadcast use vstd::utf8::encode_utf8_valid_utf8, vstd::utf8::encode_utf8_decode_utf8;

    let e = encode_utf8(text);
    let b = f.0 as int;
    let end = f.0 + f.1;
    vstd::utf8::valid_utf8_split(e, b);
    vstd::utf8::decode_utf8_split(e, b);
    vstd::utf8::valid_utf8_split(e, end);
    vstd::utf8::decode_utf8_split(e, end);
    let p = decode_utf8(e.subrange(0, b));
    let q = decode_utf8(e.subrange(0, end));
    vstd::utf8::decode_utf8_encode_utf8(e.subrange(0, b));
    vstd::utf8::decode_utf8_encode_utf8(e.subrange(0, end));
    assert(decode_utf8(e) == text);
    let c = p.len() as int;
    let c2 = q.len() as int;
    assert(text.subrange(0, c) =~= p);
    assert(text.subrange(0, c2) =~= q);
    if c > c2 {
        let rest = text.subrange(c2, c);
        assert(p =~= q + rest);
        lemma_encode_concat(q, rest);
        lemma_encode_nonempty(rest);
        assert(false);
    }
    let m = text.subrange(c, c2);
    assert(q =~= p + m);
    lemma_encode_concat(p, m);
    assert(encode_utf8(p) == e.subrange(0, b));
    assert(encode_utf8(q) == e.subrange(0, end));
    assert(encode_utf8(q) == encode_utf8(p) + encode_utf8(m));
    assert(encode_utf8(m) =~= (encode_utf8(p) + encode_utf8(m)).subrange(b, end));
    assert(encode_utf8(m) =~= e.subrange(b, end));
    assert(decode_utf8(encode_utf8(m)) == m);
    assert(decode_utf8(encode_utf8(f.2)) == f.2);
    assert(m == f.2);
}

/// A match as the search reports it: at the character where it starts, with its
/// length in characters.
fn char_match(line: usize, text: &str, col: usize, len: usize, matched: String) -> (m: SearchMatch)
    requires
        found_in((col, len, matched@), text@),
    ensures
        match_view(m) == (
            line,
            chars_in_bytes(text@, col as int) as usize,
            matched@.len() as usize,
            matched@,
        ),
{
    broadcast use vstd::utf8::encode_utf8_decode_utf8;

    proof {
        lemma_char_position((col, len, matched@), text@);
    }
    let (before, _) = text.split_at(col);
    assert(decode_utf8(encode_utf8(before@)) == before@);
    let k = before.unicode_len();
    let n = matched.as_str().unicode_len();
    SearchMatch { line, col: k, len: n, text: matched }
}

/// Appends the matches found on one line, in order, as search results for that
/// line.
pub fn push_line_matches(
    results: &mut Vec<SearchMatch>,
    line: usize,
    text: &str,
    found: Vec<(usize, usize, String)>,
)
    requires
        forall|i: int| 0 <= i < found@.len() ==> found_in(#[trigger] found_views(found@)[i], text@),
    ensures
        match_views(final(results)@) == match_views(old(results)@) + line_hits(
            line,
            text@,
            found_views(found@),
        ),
{
    let ghost r0 = match_views(results@);
    let ghost fv = found_views(found@);
    let ghost n = fv.len();
    let mut rest = found;
    let total = rest.len();
    assert(n == total);
    let mut k: usize = 0;
    assert(match_views(results@) =~= r0 + line_hits(line, text@, fv.subrange(0, 0)));
    assert(found_views(rest@) =~= fv.subrange(0, n as int));
    while rest.len() > 0
        invariant
            n == fv.len(),
            n <= usize::MAX,
            k + rest@.len() == n,
            found_views(rest@) == fv.subrange(k as int, n as int),
            match_views(results@) == r0 + line_hits(line, text@, fv.subrange(0, k as int)),
            forall|i: int| 0 <= i < fv.len() ==> found_in(#[trigger] fv[i], text@),
        decreases rest@.len(),
    {
        let ghost before = rest@;
        let (col, len, matched) = rest.remove(0);
        let ghost tv = matched@;
        assert(found_views(before)[0] == fv[k as int]);
        assert(fv[k as int] == (col, len, tv));
        let ghost old_results = results@;
        let m = char_match(line, text, col, len, matched);
        let ghost mv = match_view(m);
        results.push(m);
        assert(match_views(results@) =~= match_views(old_results).push(mv));
        assert(line_hits(line, text@, fv.subrange(0, k + 1)) =~= line_hits(
            line,
            text@,
            fv.subrange(0, k as int),
        ).push(mv));
        proof {
            assert forall|i: int| 0 <= i < rest@.len() implies #[trigger] found_views(rest@)[i]
                == fv[k + 1 + i] by {
                assert(rest@[i] == before[i + 1]);
                assert(found_views(before)[i + 1] == fv.subrange(k as int, n as int)[i + 1]);
            }
        }
        k += 1;
        assert(found_views(rest@) =~= fv.subrange(k as int, n as int));
        assert(match_views(results@) =~= r0 + line_hits(line, text@, fv.subrange(0, k as int)));
    }
    assert(fv.subrange(0, n as int) =~= fv);
}

/// What the regex crate documents of each match, restated over the views.
proof fn lemma_found_located(found: Seq<(usize, usize, String)>, text: Seq<char>)
    requires
        forall|i: int|
            0 <= i < found.len() ==> {
                let f = #[trigger] found[i];
                &&& f.0 + f.1 <= encode_utf8(text).len()
                &&& encode_utf8(f.2@) == encode_utf8(text).subrange(f.0 as int, f.0 + f.1)
                &&& is_char_boundary(encode_utf8(text), f.0 as int)
                &&& is_char_boundary(encode_utf8(text), f.0 + f.1)
            },
    ensures
        forall|i: int| 0 <= i < found.len() ==> found_in(#[trigger] found_views(found)[i], text),
{
    assert forall|i: int| 0 <= i < found.len() implies found_in(
        #[trigger] found_views(found)[i],
        text,
    ) by {
        assert(found_views(found)[i] == (found[i].0, found[i].1, found[i].2@));
    }
}

/// Appending the located matches of one line keeps every result located.
proof fn lemma_hits_stay_located(
    before: Seq<SearchMatch>,
    after: Seq<SearchMatch>,
    line: usize,
    fv: Seq<(usize, usize, Seq<char>)>,
    lines: Seq<Seq<char>>,
)
    requires
        line < lines.len(),
        lines[line as int].len() <= usize::MAX,
        match_views(after) == match_views(before) + line_hits(line, lines[line as int], fv),
        forall|i: int| 0 <= i < before.len() ==> hit_located(#[trigger] match_views(before)[i], lines),
        forall|i: int| 0 <= i < fv.len() ==> found_in(#[trigger] fv[i], lines[line as int]),
    ensures
        forall|i: int| 0 <= i < after.len() ==> hit_located(#[trigger] match_views(after)[i], lines),
{
    assert forall|i: int| 0 <= i < after.len() implies hit_located(
        #[trigger] match_views(after)[i],
        lines,
    ) by {
        assert(match_views(after).len() == after.len());
        if i < before.len() {
            assert(match_views(after)[i] == match_views(before)[i]);
        } else {
            let k = i - before.len();
            assert(match_views(after)[i] == line_hits(line, lines[line as int], fv)[k]);
            lemma_char_position(fv[k], lines[line as int]);
        }
    }
}

/// Compiles the search regex: `(?i)` first when case is ignored.
fn build_regex(pattern: &str, ignore_case: bool) -> (r: Result<CompiledRegex, regex::Error>)
    ensures
        r is Ok <==> regex_compiles(
            if ignore_case {
                seq!['(', '?', 'i', ')'] + pattern@
            } else {
                pattern@
            },
        ),
        r matches Ok(re) ==> re.source() == (if ignore_case {
            seq!['(', '?', 'i', ')'] + pattern@
        } else {
            pattern@
        }),
{
    let mut builder = String::new();
    if ignore_case {
        push_char(&mut builder, '(');
        push_char(&mut builder, '?');
        push_char(&mut builder, 'i');
        push_char(&mut builder, ')');
    }
    let chars = crate::text::chars_of(pattern);
    let mut i: usize = 0;
    let ghost prefix = builder@;
    while i < chars.len()
        invariant
            i <= chars@.len(),
            chars@ == pattern@,
            builder@ == prefix + pattern@.subrange(0, i as int),
        decreases chars@.len() - i,
    {
        push_char(&mut builder, chars[i]);
        i += 1;
        assert(builder@ =~= prefix + pattern@.subrange(0, i as int));
    }
    assert(pattern@.subrange(0, pattern@.len() as int) =~= pattern@);
    assert(builder@ =~= (if ignore_case {
        seq!['(', '?', 'i', ')'] + pattern@
    } else {
        pattern@
    }));
    compile(builder.as_str())
}

/// The characters of a line of cells.
fn cell_chars(line: &Vec<crate::cell::Cell>) -> (r: Vec<char>)
    ensures
        r@ == row_chars(line@),
{
    let mut out: Vec<char> = Vec::new();
    let mut i: usize = 0;
    while i < line.len()
        invariant
            i <= line@.len(),
            out@ == row_chars(line@).subrange(0, i as int),
        decreases line@.len() - i,
    {
        out.push(line[i].ch);
        i += 1;
        assert(out@ =~= row_chars(line@).subrange(0, i as int));
    }
    assert(out@ =~= row_chars(line@));
    out
}

/// What a search of the scrollback lines and the screen's rows finds: nothing for
/// an empty pattern or one that does not compile, else every hit of the regex in
/// each line, line by line; each hit lies where it says.
pub open spec fn search_result(
    scrollback: Seq<Seq<crate::cell::Cell>>,
    screen: Seq<Seq<crate::cell::Cell>>,
    options: SearchOptions,
    r: Seq<SearchMatch>,
) -> bool {
    &&& options.pattern@.len() == 0 ==> r.len() == 0
    &&& options.pattern@.len() > 0 ==> {
        let source = search_regex_source(options.pattern@, options.use_regex, options.ignore_case);
        &&& !regex_compiles(source) ==> r.len() == 0
        &&& regex_compiles(source) ==> match_views(r) == all_hits(
            source,
            searched_lines(scrollback, screen),
        )
    }
    &&& forall|i: int|
        0 <= i < r.len() ==> hit_located(
            #[trigger] match_views(r)[i],
            searched_lines(scrollback, screen),
        )
}

/// Search through scrollback buffer and visible grid for matching text.
///
/// Lines are numbered from the oldest scrollback line; the screen's rows follow
/// the scrollback. Each line is searched with trailing whitespace removed, and its
/// matches come in the order the regex finds them.
pub fn search(scrollback: &ScrollbackBuffer, grid: &Grid, options: &SearchOptions) -> (r: Vec<
    SearchMatch,
>)
    requires
        grid.wf(),
        scrollback@.lines.len() + grid@.rows <= usize::MAX,
    ensures
        search_result(scrollback@.lines, grid@.cells, *options, r@),
{
    if options.pattern.as_str().unicode_len() == 0 {
        return Vec::new();
    }
    let mut results: Vec<SearchMatch> = Vec::new();
    let regex = if options.use_regex {
        build_regex(options.pattern.as_str(), options.ignore_case)
    } else {
        let escaped = regex_escape(options.pattern.as_str());
        build_regex(escaped.as_str(), options.ignore_case)
    };
    let regex = match regex {
        Ok(r) => r,
        Err(_) => return Vec::new(),
    };
    let ghost source = regex.source();
    let ghost lines = searched_lines(scrollback@.lines, grid@.cells);
    let n = scrollback.len();
    let mut line_idx: usize = 0;
    assert(match_views(results@) =~= all_hits(source, lines.subrange(0, 0)));
    while line_idx < n
        invariant
            n == scrollback@.lines.len(),
            line_idx <= n,
            n + grid@.rows <= usize::MAX,
            grid.wf(),
            source == regex.source(),
            lines == searched_lines(scrollback@.lines, grid@.cells),
            match_views(results@) == all_hits(source, lines.subrange(0, line_idx as int)),
            lines.len() == n + grid@.rows,
            forall|i: int|
                0 <= i < results@.len() ==> hit_located(#[trigger] match_views(results@)[i], lines),
        decreases n - line_idx,
    {
        let line = scrollback.line(line_idx).unwrap();
        let chars = cell_chars(line);
        let text = trimmed_string(chars.as_slice());
        let found = find_matches(&regex, text.as_str());
        // The line's length in characters fits a `usize`, and so every column.
        let _line_chars: usize = text.as_str().unicode_len();
        let ghost before = results@;
        let ghost fv = found_views(found@);
        proof {
            assert(lines[line_idx as int] == text@);
            lemma_found_located(found@, text@);
        }
        push_line_matches(&mut results, line_idx, text.as_str(), found);
        proof {
            assert(lines.subrange(0, line_idx + 1).drop_last() =~= lines.subrange(0, line_idx as int));
            lemma_hits_stay_located(before, results@, line_idx, fv, lines);
        }
        line_idx += 1;
    }
    let rows = grid.rows();
    let mut row: usize = 0;
    while row < rows
        invariant
            n == scrollback@.lines.len(),
            rows == grid@.rows,
            row <= rows,
            n + rows <= usize::MAX,
            grid.wf(),
            source == regex.source(),
            lines == searched_lines(scrollback@.lines, grid@.cells),
            lines.len() == n + rows,
            match_views(results@) == all_hits(source, lines.subrange(0, n + row)),
            forall|i: int|
                0 <= i < results@.len() ==> hit_located(#[trigger] match_views(results@)[i], lines),
        decreases rows - row,
    {
        let text = grid.row_to_string(row);
        let found = find_matches(&regex, text.as_str());
        // The line's length in characters fits a `usize`, and so every column.
        let _line_chars: usize = text.as_str().unicode_len();
        let ghost before = results@;
        let ghost fv = found_views(found@);
        proof {
            assert(lines[n + row] == text@);
            lemma_found_located(found@, text@);
        }
        push_line_matches(&mut results, n + row, text.as_str(), found);
        proof {
            assert(lines.subrange(0, n + row + 1).drop_last() =~= lines.subrange(0, n + row));
            lemma_hits_stay_located(before, results@, (n + row) as usize, fv, lines);
        }
        row += 1;
    }
    assert(lines.subrange(0, n + rows) =~= lines);
    results
}

} // verus!
