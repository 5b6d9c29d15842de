use ridgeback::plugin_api::{HtmlExporter, MarkdownExporter, SaveFormatPlugin, StyledLine, StyledSpan};

fn span(text: &str) -> StyledSpan {
    StyledSpan { text: text.to_string(), fg: None, bg: None, bold: false, italic: false, underline: false }
}

const HEAD: &str = "<!DOCTYPE html>\n<html><head><meta charset=\"utf-8\"><title>Ridgeback Session</title><style>body{background:#1e1e2e;margin:0;padding:16px;}pre{font-family:'Cascadia Mono',monospace;font-size:14px;color:#cdd6f4;line-height:1.3;}</style></head><body><pre>\n";

#[test]
fn html_export_styles_and_escapes() {
    let mut styled = span("a<b");
    styled.fg = Some((255, 0, 10));
    styled.bold = true;
    let mut under = span("\"q\"");
    under.bg = Some((1, 2, 3));
    under.italic = true;
    under.underline = true;
    let lines = vec![
        StyledLine { spans: vec![styled, span("x&y>")] },
        StyledLine { spans: vec![] },
        StyledLine { spans: vec![under] },
    ];
    let out = String::from_utf8(HtmlExporter.export(&lines)).unwrap();
    let expected = format!(
        "{}{}{}{}{}",
        HEAD,
        "<span style=\"color:rgb(255,0,10);font-weight:bold\">a&lt;b</span>x&amp;y&gt;\n",
        "\n",
        "<span style=\"background:rgb(1,2,3);font-style:italic;text-decoration:underline\">&quot;q&quot;</span>\n",
        "</pre></body></html>"
    );
    assert_eq!(out, expected);
    assert_eq!(HtmlExporter.name(), "HTML");
    assert_eq!(HtmlExporter.extension(), "html");
}

#[test]
fn html_export_of_nothing() {
    let out = String::from_utf8(HtmlExporter.export(&[])).unwrap();
    assert_eq!(out, format!("{}</pre></body></html>", HEAD));
}

#[test]
fn markdown_export_is_plain_text() {
    let mut red = span("é<b>");
    red.fg = Some((9, 9, 9));
    let lines = vec![
        StyledLine { spans: vec![span("$ ls"), red] },
        StyledLine { spans: vec![span("")] },
    ];
    let bytes = MarkdownExporter.export(&lines);
    assert_eq!(
        String::from_utf8(bytes).unwrap(),
        "# Ridgeback Terminal Session\n\n```\n$ lsé<b>\n\n```\n"
    );
    assert_eq!(MarkdownExporter.name(), "Markdown");
    assert_eq!(MarkdownExporter.extension(), "md");
}
