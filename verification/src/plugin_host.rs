//! What the Lua plugin host decides around running a script: which lines and
//! names a script sees, how its printed output is collected, what comes of a run,
//! and how a particle plugin names its trigger. Running Lua itself is not part of
//! this library.

use vstd::prelude::*;

use crate::shortcuts::{lowercase, to_lowercase, trim, trimmed_part};
use crate::text::{chars_of, join_with, push_char};

verus! {

/// When a particle plugin emits particles.
#[derive(Debug, Clone, Copy, PartialEq, Eq, Structural)]
pub enum TriggerMode {
    /// On each typed character.
    Keypress,
    /// On each new line.
    Newline,
    /// Every frame, over the whole terminal.
    Fullscreen,
}

/// The trigger a (trimmed, lowercased) name stands for.
pub open spec fn trigger_named(name: Seq<char>) -> Option<TriggerMode> {
    if name == "keypress"@ || name == "typing"@ {
        Some(TriggerMode::Keypress)
    } else if name == "newline"@ || name == "enter"@ {
        Some(TriggerMode::Newline)
    } else if name == "fullscreen"@ || name == "ambient"@ || name == "frame"@ {
        Some(TriggerMode::Fullscreen)
    } else {
        None
    }
}

/// The trigger a particle plugin names, read without surrounding whitespace and
/// regardless of case.
pub fn parse_trigger_mode(s: &str) -> (r: Option<TriggerMode>)
    ensures
        r == trigger_named(lowercase(trim(s@))),
{
    let cs = chars_of(s);
    assert(cs@.subrange(0, cs@.len() as int) =~= s@);
    let t = trimmed_part(&cs, 0, cs.len());
    let name = to_lowercase(t.as_str());
    if name == String::from_str("keypress") || name == String::from_str("typing") {
        Some(TriggerMode::Keypress)
    } else if name == String::from_str("newline") || name == String::from_str("enter") {
        Some(TriggerMode::Newline)
    } else if name == String::from_str("fullscreen") || name == String::from_str("ambient")
        || name == String::from_str("frame") {
        Some(TriggerMode::Fullscreen)
    } else {
        None
    }
}

pub open spec fn text_views(v: Seq<String>) -> Seq<Seq<char>> {
    v.map_values(|s: String| s@)
}

/// `terminal.last_n_lines(n)`: the first `n` of the snapshot's lines (all of them
/// when there are fewer).
pub fn first_lines(lines: &Vec<String>, n: usize) -> (r: Vec<String>)
    ensures
        text_views(r@) == text_views(lines@).take(
            if n < lines@.len() {
                n as int
            } else {
                lines@.len() as int
            },
        ),
{
    let k = if n < lines.len() {
        n
    } else {
        lines.len()
    };
    let mut out: Vec<String> = Vec::new();
    let mut i: usize = 0;
    while i < k
        invariant
            k <= lines@.len(),
            i <= k,
            text_views(out@) == text_views(lines@).take(i as int),
        decreases k - i,
    {
        let ghost before = out@;
        let line = lines[i].clone();
        out.push(line);
        assert(text_views(out@) =~= text_views(lines@).take(i + 1)) by {
            assert(out@ == before.push(line));
            assert(text_views(out@) =~= text_views(before).push(line@));
        }
        i += 1;
    }
    out
}

/// The collected output after one more `print`: a new line (after a line break
/// when something was printed before) with the printed values separated by tabs.
pub open spec fn printed_after(out: Seq<char>, parts: Seq<Seq<char>>) -> Seq<char> {
    if out.len() > 0 {
        out + seq!['\n'] + join_with(parts, seq!['\t'])
    } else {
        out + join_with(parts, seq!['\t'])
    }
}

/// Adds what one `print` call printed (its values already turned into text) to
/// the collected output.
pub fn record_print(out: &mut String, parts: &Vec<String>)
    ensures
        final(out)@ == printed_after(old(out)@, text_views(parts@)),
{
    let ghost views = text_views(parts@);
    if out.as_str().unicode_len() > 0 {
        push_char(out, '\n');
    }
    let ghost start = out@;
    let mut i: usize = 0;
    while i < parts.len()
        invariant
            i <= parts@.len(),
            views == text_views(parts@),
            out@ == start + join_with(views.subrange(0, i as int), seq!['\t']),
        decreases parts@.len() - i,
    {
        assert(views.subrange(0, i + 1).drop_last() =~= views.subrange(0, i as int));
        assert(views[i as int] == parts@[i as int]@);
        if i > 0 {
            push_char(out, '\t');
        }
        out.append(parts[i].as_str());
        i += 1;
        assert(out@ =~= start + join_with(views.subrange(0, i as int), seq!['\t']));
    }
    assert(views.subrange(0, i as int) =~= views);
}

/// Result from executing a Lua plugin.
#[derive(Debug, Clone)]
pub struct PluginResult {
    pub name: String,
    pub output: String,
    pub error: Option<String>,
}

/// How a script's error is reported: the plugin's name, then Lua's message.
pub open spec fn plugin_error_text(name: Seq<char>, message: Seq<char>) -> Seq<char> {
    "Plugin '"@ + name + "' error: "@ + message
}

/// What running the plugin named `name` came to: its output, or, when Lua
/// reported an error with the message, no output and the error.
pub fn plugin_result(name: &str, outcome: Result<String, String>) -> (r: PluginResult)
    ensures
        r.name@ == name@,
        match outcome {
            Ok(o) => r.output@ == o@ && r.error is None,
            Err(e) => r.output@.len() == 0 && (r.error matches Some(m) && m@ == plugin_error_text(
                name@,
                e@,
            )),
        },
{
    match outcome {
        Ok(output) => PluginResult { name: String::from_str(name), output, error: None },
        Err(message) => {
            let mut text = String::from_str("Plugin '");
            text.append(name);
            text.append("' error: ");
            text.append(message.as_str());
            PluginResult { name: String::from_str(name), output: String::new(), error: Some(text) }
        },
    }
}

/// The globals a script's environment goes without, so that it cannot reach
/// files, processes or the raw table functions.
pub fn sandbox_removed_globals() -> (r: Vec<&'static str>)
    ensures
        r@.map_values(|s: &str| s@) == seq![
            "io"@,
            "os"@,
            "loadfile"@,
            "dofile"@,
            "require"@,
            "rawset"@,
            "rawget"@,
            "debug"@,
        ],
{
    let r = vec!["io", "os", "loadfile", "dofile", "require", "rawset", "rawget", "debug"];
    assert(r@.map_values(|s: &str| s@) =~= seq![
        "io"@,
        "os"@,
        "loadfile"@,
        "dofile"@,
        "require"@,
        "rawset"@,
        "rawget"@,
        "debug"@,
    ]);
    r
}

} // verus!
