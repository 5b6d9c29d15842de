//! What plugins see of the terminal, what export plugins provide, and the
//! built-in HTML and Markdown export formats.

use vstd::prelude::*;
use vstd::utf8::encode_utf8;

use crate::tabs::{decimal, decimal_chars};
use crate::text::{append_str, chars_of, join_chars, join_with, string_from_chars};

verus! {

/// Trait exposed to plugins for querying terminal buffer content.
pub trait TerminalQuery {
    /// Get the last N lines of terminal output.
    fn last_n_lines(&self, n: usize) -> Vec<String>;

    /// Get the entire terminal log as a single string.
    fn full_log(&self) -> String;

    /// Search for a pattern in the terminal buffer.
    fn search(&self, pattern: &str, use_regex: bool, ignore_case: bool) -> Vec<SearchMatch>;
}

/// A search match returned by the plugin API.
#[derive(Debug, Clone)]
pub struct SearchMatch {
    pub line: usize,
    pub col: usize,
    pub len: usize,
    pub text: String,
}

/// A line with styled spans, for export plugins that preserve color/attributes.
#[derive(Debug, Clone)]
pub struct StyledLine {
    pub spans: Vec<StyledSpan>,
}

/// A contiguous run of text with the same style.
#[derive(Debug, Clone)]
pub struct StyledSpan {
    pub text: String,
    pub fg: Option<(u8, u8, u8)>,
    pub bg: Option<(u8, u8, u8)>,
    pub bold: bool,
    pub italic: bool,
    pub underline: bool,
}

/// Trait for plugins that register additional save/export formats.
pub trait SaveFormatPlugin: Send + Sync {
    /// Display name of the format (e.g., "HTML", "Markdown").
    fn name(&self) -> &str;

    /// File extension (e.g., "html", "md").
    fn extension(&self) -> &str;

    /// Export the styled lines into the target format.
    fn export(&self, lines: &[StyledLine]) -> Vec<u8>;
}


/// The character as HTML text: `&`, `<`, `>` and `"` escaped.
pub open spec fn escape_char(c: char) -> Seq<char> {
    if c == '&' {
        "&amp;"@
    } else if c == '<' {
        "&lt;"@
    } else if c == '>' {
        "&gt;"@
    } else if c == '"' {
        "&quot;"@
    } else {
        seq![c]
    }
}

/// The text with `&`, `<`, `>` and `"` escaped for HTML.
pub open spec fn html_escape(s: Seq<char>) -> Seq<char>
    decreases s.len(),
{
    if s.len() == 0 {
        Seq::empty()
    } else {
        html_escape(s.drop_last()) + escape_char(s.last())
    }
}

/// A CSS colour declaration `name:rgb(r,g,b)`.
pub open spec fn rgb_decl(name: Seq<char>, c: (u8, u8, u8)) -> Seq<char> {
    name + ":rgb("@ + decimal(c.0 as nat) + ","@ + decimal(c.1 as nat) + ","@ + decimal(c.2 as nat)
        + ")"@
}

/// The CSS declarations of a span's style, in order: colour, background, bold,
/// italic, underline.
pub open spec fn style_parts(s: StyledSpan) -> Seq<Seq<char>> {
    (match s.fg {
        Some(c) => seq![rgb_decl("color"@, c)],
        None => Seq::empty(),
    }) + (match s.bg {
        Some(c) => seq![rgb_decl("background"@, c)],
        None => Seq::empty(),
    }) + (if s.bold {
        seq!["font-weight:bold"@]
    } else {
        Seq::empty()
    }) + (if s.italic {
        seq!["font-style:italic"@]
    } else {
        Seq::empty()
    }) + (if s.underline {
        seq!["text-decoration:underline"@]
    } else {
        Seq::empty()
    })
}

/// A span as HTML: its escaped text, inside a styled `<span>` when it has a style.
pub open spec fn span_html(s: StyledSpan) -> Seq<char> {
    let parts = style_parts(s);
    if parts.len() == 0 {
        html_escape(s.text@)
    } else {
        "<span style=\""@ + join_with(parts, ";"@) + "\">"@ + html_escape(s.text@) + "</span>"@
    }
}

pub open spec fn spans_html(spans: Seq<StyledSpan>) -> Seq<char>
    decreases spans.len(),
{
    if spans.len() == 0 {
        Seq::empty()
    } else {
        spans_html(spans.drop_last()) + span_html(spans.last())
    }
}

/// The lines as HTML, each ended by a line break.
pub open spec fn lines_html(lines: Seq<StyledLine>) -> Seq<char>
    decreases lines.len(),
{
    if lines.len() == 0 {
        Seq::empty()
    } else {
        lines_html(lines.drop_last()) + spans_html(lines.last().spans@) + "\n"@
    }
}

/// The HTML document of a session: a dark page with the lines preformatted.
pub open spec fn html_document(lines: Seq<StyledLine>) -> Seq<char> {
    "<!DOCTYPE html>\n<html><head><meta charset=\"utf-8\"><title>Ridgeback Session</title><style>body{background:#1e1e2e;margin:0;padding:16px;}pre{font-family:'Cascadia Mono',monospace;font-size:14px;color:#cdd6f4;line-height:1.3;}</style></head><body><pre>\n"@
        + lines_html(lines) + "</pre></body></html>"@
}

pub open spec fn spans_text(spans: Seq<StyledSpan>) -> Seq<char>
    decreases spans.len(),
{
    if spans.len() == 0 {
        Seq::empty()
    } else {
        spans_text(spans.drop_last()) + spans.last().text@
    }
}

/// The lines as plain text, each ended by a line break.
pub open spec fn lines_text(lines: Seq<StyledLine>) -> Seq<char>
    decreases lines.len(),
{
    if lines.len() == 0 {
        Seq::empty()
    } else {
        lines_text(lines.drop_last()) + spans_text(lines.last().spans@) + "\n"@
    }
}

/// The Markdown document of a session: a heading and the text in a code block.
pub open spec fn markdown_document(lines: Seq<StyledLine>) -> Seq<char> {
    "# Ridgeback Terminal Session\n\n```\n"@ + lines_text(lines) + "```\n"@
}

/// Append the text escaped for HTML.
fn append_escaped(v: &mut Vec<char>, s: &String)
    ensures
        final(v)@ == old(v)@ + html_escape(s@),
{
    let cs = chars_of(s.as_str());
    let mut k: usize = 0;
    while k < cs.len()
        invariant
            k <= cs@.len(),
            cs@ == s@,
            v@ == old(v)@ + html_escape(cs@.subrange(0, k as int)),
        decreases cs@.len() - k,
    {
        let c = cs[k];
        assert(cs@.subrange(0, k + 1).drop_last() =~= cs@.subrange(0, k as int));
        if c == '&' {
            append_str(v, "&amp;");
        } else if c == '<' {
            append_str(v, "&lt;");
        } else if c == '>' {
            append_str(v, "&gt;");
        } else if c == '"' {
            append_str(v, "&quot;");
        } else {
            v.push(c);
        }
        k += 1;
        assert(v@ =~= old(v)@ + html_escape(cs@.subrange(0, k as int)));
    }
    assert(cs@.subrange(0, k as int) =~= s@);
}

/// The CSS colour declaration `name:rgb(r,g,b)`.
fn rgb_chars(name: &str, c: (u8, u8, u8)) -> (r: Vec<char>)
    ensures
        r@ == rgb_decl(name@, c),
{
    let mut v = chars_of(name);
    append_str(&mut v, ":rgb(");
    let mut d = decimal_chars(c.0 as usize);
    v.append(&mut d);
    append_str(&mut v, ",");
    let mut d = decimal_chars(c.1 as usize);
    v.append(&mut d);
    append_str(&mut v, ",");
    let mut d = decimal_chars(c.2 as usize);
    v.append(&mut d);
    append_str(&mut v, ")");
    v
}

/// Append a span as HTML.
fn append_span_html(v: &mut Vec<char>, span: &StyledSpan)
    ensures
        final(v)@ == old(v)@ + span_html(*span),
{
    let mut parts: Vec<Vec<char>> = Vec::new();
    if let Some(c) = span.fg {
        parts.push(rgb_chars("color", c));
    }
    if let Some(c) = span.bg {
        parts.push(rgb_chars("background", c));
    }
    if span.bold {
        parts.push(chars_of("font-weight:bold"));
    }
    if span.italic {
        parts.push(chars_of("font-style:italic"));
    }
    if span.underline {
        parts.push(chars_of("text-decoration:underline"));
    }
    assert(parts@.map_values(|p: Vec<char>| p@) =~= style_parts(*span));
    if parts.len() == 0 {
        append_escaped(v, &span.text);
    } else {
        append_str(v, "<span style=\"");
        let mut joined = join_chars(&parts, ";");
        v.append(&mut joined);
        append_str(v, "\">");
        append_escaped(v, &span.text);
        append_str(v, "</span>");
    }
}

/// The bytes of the text, UTF-8 encoded.
fn utf8_bytes(v: &Vec<char>) -> (r: Vec<u8>)
    ensures
        r@ == encode_utf8(v@),
{
    let s = string_from_chars(v.as_slice());
    vstd::slice::slice_to_vec(s.as_str().as_bytes())
}

/// HTML export plugin — converts styled terminal output to an HTML document.
pub struct HtmlExporter;

impl SaveFormatPlugin for HtmlExporter {
    fn name(&self) -> (r: &str)
        ensures
            r@ == "HTML"@,
    {
        "HTML"
    }

    fn extension(&self) -> (r: &str)
        ensures
            r@ == "html"@,
    {
        "html"
    }

    fn export(&self, lines: &[StyledLine]) -> (r: Vec<u8>)
        ensures
            r@ == encode_utf8(html_document(lines@)),
    {
        let mut v = chars_of(
            "<!DOCTYPE html>\n<html><head><meta charset=\"utf-8\"><title>Ridgeback Session</title><style>body{background:#1e1e2e;margin:0;padding:16px;}pre{font-family:'Cascadia Mono',monospace;font-size:14px;color:#cdd6f4;line-height:1.3;}</style></head><body><pre>\n",
        );
        let ghost head = v@;
        let mut i: usize = 0;
        while i < lines.len()
            invariant
                i <= lines@.len(),
                v@ == head + lines_html(lines@.subrange(0, i as int)),
            decreases lines@.len() - i,
        {
            let spans = &lines[i].spans;
            let ghost before = v@;
            let mut j: usize = 0;
            while j < spans.len()
                invariant
                    j <= spans@.len(),
                    v@ == before + spans_html(spans@.subrange(0, j as int)),
                decreases spans@.len() - j,
            {
                assert(spans@.subrange(0, j + 1).drop_last() =~= spans@.subrange(0, j as int));
                append_span_html(&mut v, &spans[j]);
                j += 1;
                assert(v@ =~= before + spans_html(spans@.subrange(0, j as int)));
            }
            assert(spans@.subrange(0, j as int) =~= spans@);
            v.push('\n');
            proof {
                reveal_strlit("\n");
            }
            assert(lines@.subrange(0, i + 1).drop_last() =~= lines@.subrange(0, i as int));
            assert(lines@.subrange(0, i + 1).last() == lines@[i as int]);
            assert(v@ =~= head + lines_html(lines@.subrange(0, i as int)) + spans_html(
                lines@[i as int].spans@,
            ) + "\n"@);
            i += 1;
            assert(v@ =~= head + lines_html(lines@.subrange(0, i as int)));
        }
        assert(lines@.subrange(0, i as int) =~= lines@);
        append_str(&mut v, "</pre></body></html>");
        utf8_bytes(&v)
    }
}

/// Markdown export plugin — plain text with code block.
pub struct MarkdownExporter;

impl SaveFormatPlugin for MarkdownExporter {
    fn name(&self) -> (r: &str)
        ensures
            r@ == "Markdown"@,
    {
        "Markdown"
    }

    fn extension(&self) -> (r: &str)
        ensures
            r@ == "md"@,
    {
        "md"
    }

    fn export(&self, lines: &[StyledLine]) -> (r: Vec<u8>)
        ensures
            r@ == encode_utf8(markdown_document(lines@)),
    {
        let mut v = chars_of("# Ridgeback Terminal Session\n\n```\n");
        let ghost head = v@;
        let mut i: usize = 0;
        while i < lines.len()
            invariant
                i <= lines@.len(),
                v@ == head + lines_text(lines@.subrange(0, i as int)),
            decreases lines@.len() - i,
        {
            let spans = &lines[i].spans;
            let ghost before = v@;
            let mut j: usize = 0;
            while j < spans.len()
                invariant
                    j <= spans@.len(),
                    v@ == before + spans_text(spans@.subrange(0, j as int)),
                decreases spans@.len() - j,
            {
                assert(spans@.subrange(0, j + 1).drop_last() =~= spans@.subrange(0, j as int));
                append_str(&mut v, spans[j].text.as_str());
                j += 1;
                assert(v@ =~= before + spans_text(spans@.subrange(0, j as int)));
            }
            assert(spans@.subrange(0, j as int) =~= spans@);
            v.push('\n');
            proof {
                reveal_strlit("\n");
            }
            assert(lines@.subrange(0, i + 1).drop_last() =~= lines@.subrange(0, i as int));
            assert(lines@.subrange(0, i + 1).last() == lines@[i as int]);
            assert(v@ =~= head + lines_text(lines@.subrange(0, i as int)) + spans_text(
                lines@[i as int].spans@,
            ) + "\n"@);
            i += 1;
            assert(v@ =~= head + lines_text(lines@.subrange(0, i as int)));
        }
        assert(lines@.subrange(0, i as int) =~= lines@);
        append_str(&mut v, "```\n");
        utf8_bytes(&v)
    }
}

/// Escaped text holds no `<`, `>` or `"`: nothing in it can open or close a tag or
/// an attribute value.
pub proof fn lemma_html_escape_safe(s: Seq<char>)
    ensures
        forall|i: int|
            0 <= i < html_escape(s).len() ==> #[trigger] html_escape(s)[i] != '<' && html_escape(
                s,
            )[i] != '>' && html_escape(s)[i] != '"',
    decreases s.len(),
{
    reveal_strlit("&amp;");
    reveal_strlit("&lt;");
    reveal_strlit("&gt;");
    reveal_strlit("&quot;");
    if s.len() > 0 {
        lemma_html_escape_safe(s.drop_last());
        let a = html_escape(s.drop_last());
        let b = escape_char(s.last());
        assert forall|i: int| 0 <= i < (a + b).len() implies #[trigger] (a + b)[i] != '<' && (a
            + b)[i] != '>' && (a + b)[i] != '"' by {
            if i < a.len() {
                assert((a + b)[i] == a[i]);
            } else {
                assert((a + b)[i] == b[i - a.len()]);
            }
        }
    }
}
} // verus!
