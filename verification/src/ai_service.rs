//! The AI service: when inline autocomplete and natural-language command queries
//! are sent, what the model is asked, and how its answer becomes command
//! suggestions. Sending the request is left to the caller.

use vstd::prelude::*;

use crate::ai::{
    AiMessage, AiRole, ClaudeBackend, LmStudioBackend, LocalModelBackend, OpenAiBackend,
};
use crate::ai_config::{AiBackendType, AiConfig, AutocompleteConfig, CommandQueryConfig};
use crate::profile::ShellType;
use crate::shortcuts::{trim, trimmed_part};
use crate::tabs::{decimal, decimal_chars};
use crate::text::{
    append_str, chars_of, is_whitespace, is_ws, join_chars, join_with, lemma_string_views_push,
    string_from_chars, string_views,
};
use crate::wsl::{lemma_line_end, line_end, lines_from, skip_ws};

verus! {

/// Whether the text begins with the prefix.
pub open spec fn starts_with(s: Seq<char>, p: Seq<char>) -> bool {
    p.len() <= s.len() && s.subrange(0, p.len() as int) == p
}

/// The text without its leading whitespace, as `str::trim_start` leaves it.
pub open spec fn trim_start(s: Seq<char>) -> Seq<char> {
    s.subrange(skip_ws(s, 0), s.len() as int)
}

pub open spec fn is_ascii_digit(c: char) -> bool {
    '0' <= c <= '9'
}

/// A suggestion without a leading list marker: `- `, or a one- or two-digit
/// number followed by `.` or `)` (and the whitespace after it).
pub open spec fn strip_numbering(s: Seq<char>) -> Seq<char> {
    if starts_with(s, "- "@) {
        s.subrange(2, s.len() as int)
    } else if s.len() > 2 && is_ascii_digit(s[0]) && (s[1] == '.' || s[1] == ')') {
        trim_start(s.subrange(2, s.len() as int))
    } else if s.len() > 3 && is_ascii_digit(s[0]) && is_ascii_digit(s[1]) && (s[2] == '.' || s[2]
        == ')') {
        trim_start(s.subrange(3, s.len() as int))
    } else {
        s
    }
}

/// A suggestion without surrounding backticks.
pub open spec fn strip_backticks(s: Seq<char>) -> Seq<char> {
    if s.len() > 2 && s[0] == '`' && s.last() == '`' {
        s.subrange(1, s.len() - 1)
    } else {
        s
    }
}

/// What one line of the model's answer contributes: nothing for a blank line, a
/// code fence or an explanation; otherwise the trimmed line without list marker
/// and backticks, unless that leaves nothing.
pub open spec fn clean_line(l: Seq<char>) -> Option<Seq<char>> {
    let t = trim(l);
    if t.len() == 0 || starts_with(t, "```"@) || starts_with(t, "//"@) || starts_with(
        t,
        "Note:"@,
    ) || starts_with(t, "Explanation:"@) {
        None
    } else {
        let c = strip_backticks(strip_numbering(t));
        if c.len() == 0 {
            None
        } else {
            Some(c)
        }
    }
}

/// The cleaned lines, in order.
pub open spec fn cleaned(lines: Seq<Seq<char>>) -> Seq<Seq<char>>
    decreases lines.len(),
{
    if lines.len() == 0 {
        Seq::empty()
    } else {
        match clean_line(lines.last()) {
            Some(c) => cleaned(lines.drop_last()).push(c),
            None => cleaned(lines.drop_last()),
        }
    }
}

/// The suggestions an answer gives when `n` were asked for: its cleaned lines, or,
/// when there are more lines than that, the lines taken as the steps of one
/// command and chained with `&&`.
pub open spec fn suggestions(text: Seq<char>, n: u8) -> Seq<Seq<char>> {
    let raw = cleaned(lines_from(text, 0));
    if raw.len() > n {
        seq![join_with(raw, " && "@)]
    } else {
        raw
    }
}

/// A list marker goes: `- x` gives `x`; a one- or two-digit number with `.` or `)`
/// before a non-empty rest gives the rest without its leading whitespace. A
/// suggestion wrapped in backticks loses them.
pub proof fn lemma_markers_stripped(x: Seq<char>, d: char, e: char, p: char)
    requires
        is_ascii_digit(d),
        is_ascii_digit(e),
        p == '.' || p == ')',
        x.len() > 0,
    ensures
        strip_numbering(seq!['-', ' '] + x) == x,
        strip_numbering(seq![d, p] + x) == trim_start(x),
        strip_numbering(seq![d, e, p] + x) == trim_start(x),
        strip_backticks(seq!['`'] + x + seq!['`']) == x,
{
    reveal_strlit("- ");
    assert((seq!['-', ' '] + x).subrange(0, 2) =~= "- "@);
    assert((seq!['-', ' '] + x).subrange(2, x.len() + 2int) =~= x);
    assert(!starts_with(seq![d, p] + x, "- "@)) by {
        assert((seq![d, p] + x).subrange(0, 2)[0] == d);
        assert("- "@[0] == '-');
    }
    assert((seq![d, p] + x).subrange(2, x.len() + 2int) =~= x);
    assert(!starts_with(seq![d, e, p] + x, "- "@)) by {
        assert((seq![d, e, p] + x).subrange(0, 2)[0] == d);
        assert("- "@[0] == '-');
    }
    assert((seq![d, e, p] + x).subrange(3, x.len() + 3int) =~= x);
    assert((seq!['`'] + x + seq!['`']).subrange(1, x.len() + 1int) =~= x);
}

/// Every suggestion kept is non-empty, and there are never more than the lines of
/// the answer; when more lines than asked for are left they come back as one
/// command chained with `&&`, so never more than asked for (at least one).
pub proof fn lemma_suggestion_count(text: Seq<char>, n: u8)
    ensures
        suggestions(text, n).len() <= (if n >= 1 { n as int } else { 1 }),
        cleaned(lines_from(text, 0)).len() <= lines_from(text, 0).len(),
        forall|i: int| 0 <= i < cleaned(lines_from(text, 0)).len() ==> #[trigger] cleaned(
            lines_from(text, 0),
        )[i].len() > 0,
{
    lemma_cleaned(lines_from(text, 0));
}

proof fn lemma_cleaned(lines: Seq<Seq<char>>)
    ensures
        cleaned(lines).len() <= lines.len(),
        forall|i: int| 0 <= i < cleaned(lines).len() ==> #[trigger] cleaned(lines)[i].len() > 0,
    decreases lines.len(),
{
    if lines.len() > 0 {
        lemma_cleaned(lines.drop_last());
    }
}

/// The characters `v[from..to)`.
fn sub_chars(v: &Vec<char>, from: usize, to: usize) -> (r: Vec<char>)
    requires
        from <= to <= v@.len(),
    ensures
        r@ == v@.subrange(from as int, to as int),
{
    let mut r: Vec<char> = Vec::new();
    let mut i = from;
    while i < to
        invariant
            from <= i <= to <= v@.len(),
            r@ == v@.subrange(from as int, i as int),
        decreases to - i,
    {
        r.push(v[i]);
        i += 1;
        assert(r@ =~= v@.subrange(from as int, i as int));
    }
    r
}

/// Whether the characters begin with the prefix.
fn has_prefix(v: &Vec<char>, p: &str) -> (r: bool)
    ensures
        r == starts_with(v@, p@),
{
    let pc = chars_of(p);
    if pc.len() > v.len() {
        return false;
    }
    let mut i: usize = 0;
    while i < pc.len()
        invariant
            pc@ == p@,
            pc@.len() <= v@.len(),
            i <= pc@.len(),
            forall|k: int| 0 <= k < i ==> v@[k] == pc@[k],
        decreases pc@.len() - i,
    {
        if v[i] != pc[i] {
            assert(v@.subrange(0, pc@.len() as int)[i as int] != pc@[i as int]);
            return false;
        }
        i += 1;
    }
    assert(v@.subrange(0, pc@.len() as int) =~= pc@);
    true
}

/// The characters without their leading whitespace.
fn trimmed_start(v: &Vec<char>) -> (r: Vec<char>)
    ensures
        r@ == trim_start(v@),
{
    let mut k: usize = 0;
    while k < v.len() && is_whitespace(v[k])
        invariant
            k <= v@.len(),
            skip_ws(v@, k as int) == skip_ws(v@, 0),
        decreases v@.len() - k,
    {
        k += 1;
    }
    sub_chars(v, k, v.len())
}

fn is_digit(c: char) -> (r: bool)
    ensures
        r == is_ascii_digit(c),
{
    '0' <= c && c <= '9'
}

/// One line of the answer, cleaned.
fn clean(line: &Vec<char>) -> (r: Option<Vec<char>>)
    ensures
        r matches Some(c) ==> clean_line(line@) == Some(c@),
        r is None ==> clean_line(line@) is None,
{
    let t = chars_of(trimmed_part(line, 0, line.len()).as_str());
    assert(line@.subrange(0, line@.len() as int) =~= line@);
    if t.len() == 0 || has_prefix(&t, "```") || has_prefix(&t, "//") || has_prefix(&t, "Note:")
        || has_prefix(&t, "Explanation:") {
        return None;
    }
    let n = t.len();
    proof {
        reveal_strlit("- ");
    }
    let s = if has_prefix(&t, "- ") {
        sub_chars(&t, 2, n)
    } else if n > 2 && is_digit(t[0]) && (t[1] == '.' || t[1] == ')') {
        trimmed_start(&sub_chars(&t, 2, n))
    } else if n > 3 && is_digit(t[0]) && is_digit(t[1]) && (t[2] == '.' || t[2] == ')') {
        trimmed_start(&sub_chars(&t, 3, n))
    } else {
        t
    };
    let m = s.len();
    let c = if m > 2 && s[0] == '`' && s[m - 1] == '`' {
        sub_chars(&s, 1, m - 1)
    } else {
        s
    };
    if c.len() == 0 {
        None
    } else {
        Some(c)
    }
}

/// The command suggestions in a model's answer, `n` having been asked for; none
/// without an answer.
pub fn parse_command_suggestions(text: Option<&str>, n: u8) -> (r: Vec<String>)
    ensures
        string_views(r@) == match text {
            Some(t) => suggestions(t@, n),
            None => Seq::empty(),
        },
{
    let text = match text {
        Some(t) => t,
        None => {
            assert(string_views(Seq::<String>::empty()) =~= Seq::<Seq<char>>::empty());
            return Vec::new();
        },
    };
    let cs = chars_of(text);
    let ghost sq = cs@;
    let len = cs.len();
    let mut raw: Vec<Vec<char>> = Vec::new();
    let ghost mut done: Seq<Seq<char>> = Seq::empty();
    let mut i: usize = 0;
    while i < len
        invariant
            sq == cs@,
            len == sq.len(),
            i <= len,
            lines_from(sq, 0) == done + lines_from(sq, i as int),
            raw@.map_values(|p: Vec<char>| p@) == cleaned(done),
        decreases len - i,
    {
        let start = i;
        proof {
            lemma_line_end(sq, start as int);
        }
        while i < len && cs[i] != '\n'
            invariant
                start <= i <= len == sq.len(),
                sq == cs@,
                line_end(sq, i as int) == line_end(sq, start as int),
            decreases len - i,
        {
            i += 1;
        }
        let line = sub_chars(&cs, start, i);
        let ghost prev = raw@.map_values(|p: Vec<char>| p@);
        match clean(&line) {
            Some(c) => {
                raw.push(c);
                assert(raw@.map_values(|p: Vec<char>| p@) =~= prev.push(clean_line(line@)->0));
            },
            None => {},
        }
        proof {
            assert(lines_from(sq, start as int) == seq![line@] + lines_from(sq, i + 1));
            assert(done.push(line@).drop_last() =~= done);
            assert(done + lines_from(sq, start as int) =~= done.push(line@) + lines_from(
                sq,
                i + 1,
            ));
            done = done.push(line@);
        }
        if i < len {
            i += 1;
        } else {
            assert(lines_from(sq, i + 1) =~= lines_from(sq, i as int));
        }
    }
    proof {
        assert(done + lines_from(sq, i as int) =~= done);
    }
    let mut out: Vec<String> = Vec::new();
    if raw.len() > n as usize {
        let joined = join_chars(&raw, " && ");
        out.push(string_from_chars(joined.as_slice()));
        assert(string_views(out@) =~= seq![joined@]);
    } else {
        let mut k: usize = 0;
        while k < raw.len()
            invariant
                k <= raw@.len(),
                string_views(out@) == raw@.map_values(|p: Vec<char>| p@).subrange(0, k as int),
            decreases raw@.len() - k,
        {
            let ghost before = out@;
            let s = string_from_chars(raw[k].as_slice());
            out.push(s);
            proof {
                lemma_string_views_push(before, s);
            }
            k += 1;
            assert(string_views(out@) =~= raw@.map_values(|p: Vec<char>| p@).subrange(
                0,
                k as int,
            ));
        }
        assert(raw@.map_values(|p: Vec<char>| p@).subrange(0, k as int) =~= raw@.map_values(
            |p: Vec<char>| p@,
        ));
    }
    out
}


/// How a shell is named to the model.
pub open spec fn shell_display(shell: ShellType) -> Seq<char> {
    match shell {
        ShellType::Powershell => "PowerShell"@,
        ShellType::Cmd => "Command Prompt (cmd.exe)"@,
        ShellType::Wsl => "WSL/Bash"@,
        ShellType::Bash => "Bash"@,
        ShellType::Zsh => "Zsh"@,
        ShellType::Fish => "Fish"@,
        ShellType::Custom => "Terminal"@,
    }
}

/// How a shell is named to the model.
pub fn shell_display_name(shell: ShellType) -> (r: &'static str)
    ensures
        r@ == shell_display(shell),
{
    match shell {
        ShellType::Powershell => "PowerShell",
        ShellType::Cmd => "Command Prompt (cmd.exe)",
        ShellType::Wsl => "WSL/Bash",
        ShellType::Bash => "Bash",
        ShellType::Zsh => "Zsh",
        ShellType::Fish => "Fish",
        ShellType::Custom => "Terminal",
    }
}

/// The block of recent terminal output a prompt ends with; nothing without lines.
pub open spec fn recent_output(lines: Seq<Seq<char>>) -> Seq<char> {
    if lines.len() == 0 {
        Seq::empty()
    } else {
        "\nRecent terminal output:\n"@ + join_with(lines, "\n"@) + "\n"@
    }
}

/// A trimmed history line that looks like a command: longer than one byte.
pub open spec fn command_like(t: Seq<char>) -> bool {
    t.len() > 1 || (t.len() == 1 && (t[0] as u32) >= 0x80)
}

/// Up to `k` of the most recent history lines that look like commands, trimmed,
/// most recent first.
pub open spec fn recent_commands(history: Seq<Seq<char>>, k: nat) -> Seq<Seq<char>>
    decreases history.len(),
{
    if history.len() == 0 || k == 0 {
        Seq::empty()
    } else {
        let t = trim(history.last());
        if command_like(t) {
            seq![t] + recent_commands(history.drop_last(), (k - 1) as nat)
        } else {
            recent_commands(history.drop_last(), k)
        }
    }
}

/// The system prompt for inline autocomplete.
pub open spec fn autocomplete_prompt(
    shell: ShellType,
    os_name: Seq<char>,
    cwd: Seq<char>,
    context_lines: Seq<Seq<char>>,
) -> Seq<char> {
    "You are a terminal command autocomplete engine. Given the user's partial input, suggest ONLY the remaining characters to complete the command. Do not repeat what the user has already typed. Return only the completion text, nothing else. No explanation, no quotes, no markdown.\nShell: "@
        + shell_display(shell) + ". OS: "@ + os_name + ". CWD: "@ + cwd + recent_output(
        context_lines,
    )
}

/// The system prompt for a natural-language command query asking for `n`
/// suggestions.
pub open spec fn command_prompt(
    shell: ShellType,
    os_name: Seq<char>,
    cwd: Seq<char>,
    n: u8,
    history: Seq<Seq<char>>,
) -> Seq<char> {
    "You translate natural language into "@ + shell_display(shell) + " commands for "@ + os_name
        + ".\nRules:\n- Output ONLY shell commands, one per line\n- Each line must be a COMPLETE solution the user can run as-is\n- If a task needs multiple steps, chain them with && on ONE line\n- Output exactly "@
        + decimal(n as nat)
        + " alternative command(s), each on its own line\n- No explanations, no numbering, no markdown, no commentary\n- Commands should be relative to the current directory when possible\n- Use simple common commands (cd, ls, cat, grep, mkdir, etc.)\n\nExamples:\nUser: list files \u{2192} ls -la\nUser: go to home \u{2192} cd ~\nUser: open src folder \u{2192} cd src\nUser: create temp and go into it \u{2192} mkdir temp && cd temp\nUser: make a project folder with a readme \u{2192} mkdir project && echo '# Project' > project/README.md\nUser: show disk usage \u{2192} df -h\nUser: find large files \u{2192} find . -size +100M\nUser: clean build and rebuild \u{2192} rm -rf build && mkdir build && cd build\n\nCurrent directory: "@
        + cwd + recent_output(recent_commands(history, 3))
}

/// The trimmed characters of a string.
fn trimmed_chars(s: &String) -> (r: Vec<char>)
    ensures
        r@ == trim(s@),
{
    let cs = chars_of(s.as_str());
    assert(cs@.subrange(0, cs@.len() as int) =~= cs@);
    chars_of(trimmed_part(&cs, 0, cs.len()).as_str())
}

/// Up to three of the most recent history lines that look like commands, trimmed,
/// most recent first.
fn recent_history_commands(history: &[String]) -> (r: Vec<Vec<char>>)
    ensures
        r@.map_values(|p: Vec<char>| p@) == recent_commands(string_views(history@), 3),
{
    let ghost h = string_views(history@);
    let mut out: Vec<Vec<char>> = Vec::new();
    let mut i = history.len();
    assert(h.subrange(0, i as int) =~= h);
    assert(out@.map_values(|p: Vec<char>| p@) + recent_commands(h, 3) =~= recent_commands(h, 3));
    while i > 0 && out.len() < 3
        invariant
            i <= history@.len(),
            out@.len() <= 3,
            h == string_views(history@),
            recent_commands(h, 3) == out@.map_values(|p: Vec<char>| p@) + recent_commands(
                h.subrange(0, i as int),
                (3 - out@.len()) as nat,
            ),
        decreases i,
    {
        let t = trimmed_chars(&history[i - 1]);
        let ghost prefix = h.subrange(0, i as int);
        assert(prefix.last() == history@[i - 1]@);
        assert(prefix.drop_last() =~= h.subrange(0, i - 1));
        let ghost before = out@.map_values(|p: Vec<char>| p@);
        if t.len() > 1 || (t.len() == 1 && (t[0] as u32) >= 0x80) {
            out.push(t);
            assert(out@.map_values(|p: Vec<char>| p@) =~= before.push(t@));
            assert(before + recent_commands(prefix, (3 - before.len()) as nat) =~= before.push(t@)
                + recent_commands(h.subrange(0, i - 1), (3 - before.len() - 1) as nat));
        }
        i -= 1;
    }
    proof {
        let rest = recent_commands(h.subrange(0, i as int), (3 - out@.len()) as nat);
        assert(rest =~= Seq::<Seq<char>>::empty());
        assert(out@.map_values(|p: Vec<char>| p@) + rest =~= out@.map_values(|p: Vec<char>| p@));
    }
    out
}

/// Append the block of recent terminal output made of the lines.
fn append_recent_output(v: &mut Vec<char>, lines: &Vec<Vec<char>>)
    ensures
        final(v)@ == old(v)@ + recent_output(lines@.map_values(|p: Vec<char>| p@)),
{
    if lines.len() == 0 {
        assert(old(v)@ + Seq::<char>::empty() =~= old(v)@);
        return ;
    }
    append_str(v, "\nRecent terminal output:\n");
    let mut joined = join_chars(lines, "\n");
    v.append(&mut joined);
    append_str(v, "\n");
}

/// The lines of a slice of strings, as characters.
fn lines_of(lines: &[String]) -> (r: Vec<Vec<char>>)
    ensures
        r@.map_values(|p: Vec<char>| p@) == string_views(lines@),
{
    let mut out: Vec<Vec<char>> = Vec::new();
    let mut i: usize = 0;
    while i < lines.len()
        invariant
            i <= lines@.len(),
            out@.map_values(|p: Vec<char>| p@) == string_views(lines@.subrange(0, i as int)),
        decreases lines@.len() - i,
    {
        let ghost before = out@.map_values(|p: Vec<char>| p@);
        let c = chars_of(lines[i].as_str());
        out.push(c);
        assert(out@.map_values(|p: Vec<char>| p@) =~= before.push(c@));
        i += 1;
        assert(out@.map_values(|p: Vec<char>| p@) =~= string_views(lines@.subrange(0, i as int)));
    }
    assert(lines@.subrange(0, i as int) =~= lines@);
    out
}

/// A request to an AI backend, all but its sampling temperature.
pub struct CompletionPlan {
    pub messages: Vec<AiMessage>,
    pub max_tokens: u32,
    /// Number of completions to return.
    pub n: u8,
    pub stop: Option<Vec<String>>,
}

/// The conversation of a request: a system prompt, then the user's text.
pub open spec fn is_exchange(messages: Seq<AiMessage>, system: Seq<char>, user: Seq<char>) -> bool {
    &&& messages.len() == 2
    &&& messages[0].role == AiRole::System
    &&& messages[0].content@ == system
    &&& messages[1].role == AiRole::User
    &&& messages[1].content@ == user
}

/// The backend a service talks to.
pub enum AiBackendChoice {
    LmStudio(LmStudioBackend),
    OpenAi(OpenAiBackend),
    Claude(ClaudeBackend),
    Local(LocalModelBackend),
}

/// Whether the backend can be used: a server address, an API key or a model
/// repository is set.
pub open spec fn backend_available(b: AiBackendChoice) -> bool {
    match b {
        AiBackendChoice::LmStudio(x) => x.base_url@.len() > 0,
        AiBackendChoice::OpenAi(x) => x.api_key@.len() > 0,
        AiBackendChoice::Claude(x) => x.api_key@.len() > 0,
        AiBackendChoice::Local(x) => x.model_repo@.len() > 0,
    }
}

/// Whether the default backend of the configuration can be used.
pub open spec fn config_available(config: AiConfig) -> bool {
    config.enabled && match config.default_backend {
        AiBackendType::LmStudio => config.backends.lm_studio.base_url@.len() > 0,
        AiBackendType::OpenAi => config.backends.openai.api_key@.len() > 0,
        AiBackendType::Claude => config.backends.claude.api_key@.len() > 0,
        AiBackendType::Local => config.backends.local.model_repo@.len() > 0,
    }
}

impl AiBackendChoice {
    pub fn is_available(&self) -> (r: bool)
        ensures
            r == backend_available(*self),
    {
        match self {
            AiBackendChoice::LmStudio(x) => x.is_available(),
            AiBackendChoice::OpenAi(x) => x.is_available(),
            AiBackendChoice::Claude(x) => x.is_available(),
            AiBackendChoice::Local(x) => x.is_available(),
        }
    }
}

/// High-level AI service coordinating autocomplete and command queries.
pub struct AiService {
    backend: Option<AiBackendChoice>,
    autocomplete: AutocompleteConfig,
    command_query: CommandQueryConfig,
}

impl AiService {
    /// Whether a backend is configured and can be used.
    pub closed spec fn available(&self) -> bool {
        match self.backend {
            Some(b) => backend_available(b),
            None => false,
        }
    }

    pub closed spec fn autocomplete_settings(&self) -> AutocompleteConfig {
        self.autocomplete
    }

    pub closed spec fn command_query_settings(&self) -> CommandQueryConfig {
        self.command_query
    }

    /// The service for the configuration: no backend when AI is disabled, else the
    /// default backend built from its settings.
    pub fn new(config: &AiConfig) -> (r: Self)
        ensures
            r.available() == config_available(*config),
            r.autocomplete_settings() == config.autocomplete,
            r.command_query_settings() == config.command_query,
    {
        let backend = if config.enabled {
            Some(
                match config.default_backend {
                    AiBackendType::LmStudio => AiBackendChoice::LmStudio(
                        LmStudioBackend::from_config(&config.backends.lm_studio),
                    ),
                    AiBackendType::OpenAi => AiBackendChoice::OpenAi(
                        OpenAiBackend::from_config(&config.backends.openai),
                    ),
                    AiBackendType::Claude => AiBackendChoice::Claude(
                        ClaudeBackend::from_config(&config.backends.claude),
                    ),
                    AiBackendType::Local => AiBackendChoice::Local(
                        LocalModelBackend::from_config(&config.backends.local),
                    ),
                },
            )
        } else {
            None
        };
        AiService { backend, autocomplete: config.autocomplete, command_query: config.command_query }
    }

    /// Check if the AI service is available.
    pub fn is_available(&self) -> (r: bool)
        ensures
            r == self.available(),
    {
        match &self.backend {
            Some(b) => b.is_available(),
            None => false,
        }
    }

    /// The request that asks the model to complete the partial input; none when
    /// the service is unavailable, autocomplete is off or there is no input.
    pub fn suggest_completion(
        &self,
        partial_input: &str,
        context_lines: &[String],
        shell_type: ShellType,
        os_name: &str,
        cwd: &str,
    ) -> (r: Option<CompletionPlan>)
        ensures
            r is Some <==> self.available() && self.autocomplete_settings().enabled
                && partial_input@.len() > 0,
            r matches Some(p) ==> {
                &&& is_exchange(
                    p.messages@,
                    autocomplete_prompt(shell_type, os_name@, cwd@, string_views(context_lines@)),
                    partial_input@,
                )
                &&& p.max_tokens == self.autocomplete_settings().max_tokens
                &&& p.n == 1
                &&& p.stop matches Some(s) && string_views(s@) == seq!["\n"@]
            },
    {
        if !self.is_available() || !self.autocomplete.enabled || partial_input.unicode_len() == 0 {
            return None;
        }
        let mut sys: Vec<char> = Vec::new();
        append_str(
            &mut sys,
            "You are a terminal command autocomplete engine. Given the user's partial input, suggest ONLY the remaining characters to complete the command. Do not repeat what the user has already typed. Return only the completion text, nothing else. No explanation, no quotes, no markdown.\nShell: ",
        );
        append_str(&mut sys, shell_display_name(shell_type));
        append_str(&mut sys, ". OS: ");
        append_str(&mut sys, os_name);
        append_str(&mut sys, ". CWD: ");
        append_str(&mut sys, cwd);
        let lines = lines_of(context_lines);
        append_recent_output(&mut sys, &lines);
        let messages = vec![
            AiMessage { role: AiRole::System, content: string_from_chars(sys.as_slice()) },
            AiMessage { role: AiRole::User, content: string_from_chars(chars_of(partial_input).as_slice()) },
        ];
        let stop = vec![string_from_chars(chars_of("\n").as_slice())];
        assert(string_views(stop@) =~= seq!["\n"@]);
        Some(
            CompletionPlan {
                messages,
                max_tokens: self.autocomplete.max_tokens,
                n: 1,
                stop: Some(stop),
            },
        )
    }

    /// The request that asks the model for commands doing what the query says;
    /// none when the service is unavailable, command queries are off or the query
    /// is empty. Commands are short, so at most 64 tokens are asked for.
    pub fn query_command(
        &self,
        query: &str,
        shell_type: ShellType,
        os_name: &str,
        cwd: &str,
        history: &[String],
    ) -> (r: Option<CompletionPlan>)
        ensures
            r is Some <==> self.available() && self.command_query_settings().enabled
                && query@.len() > 0,
            r matches Some(p) ==> {
                &&& is_exchange(
                    p.messages@,
                    command_prompt(
                        shell_type,
                        os_name@,
                        cwd@,
                        self.command_query_settings().max_suggestions,
                        string_views(history@),
                    ),
                    query@,
                )
                &&& p.max_tokens == (if self.command_query_settings().max_tokens < 64 {
                    self.command_query_settings().max_tokens
                } else {
                    64
                })
                &&& p.n == 1
                &&& p.stop matches Some(s) && string_views(s@) == seq!["\n\n"@, "User:"@, "```"@]
            },
    {
        if !self.is_available() || !self.command_query.enabled || query.unicode_len() == 0 {
            return None;
        }
        let n = self.command_query.max_suggestions;
        let mut sys: Vec<char> = Vec::new();
        append_str(&mut sys, "You translate natural language into ");
        append_str(&mut sys, shell_display_name(shell_type));
        append_str(&mut sys, " commands for ");
        append_str(&mut sys, os_name);
        append_str(
            &mut sys,
            ".\nRules:\n- Output ONLY shell commands, one per line\n- Each line must be a COMPLETE solution the user can run as-is\n- If a task needs multiple steps, chain them with && on ONE line\n- Output exactly ",
        );
        let mut digits = decimal_chars(n as usize);
        sys.append(&mut digits);
        append_str(
            &mut sys,
            " alternative command(s), each on its own line\n- No explanations, no numbering, no markdown, no commentary\n- Commands should be relative to the current directory when possible\n- Use simple common commands (cd, ls, cat, grep, mkdir, etc.)\n\nExamples:\nUser: list files \u{2192} ls -la\nUser: go to home \u{2192} cd ~\nUser: open src folder \u{2192} cd src\nUser: create temp and go into it \u{2192} mkdir temp && cd temp\nUser: make a project folder with a readme \u{2192} mkdir project && echo '# Project' > project/README.md\nUser: show disk usage \u{2192} df -h\nUser: find large files \u{2192} find . -size +100M\nUser: clean build and rebuild \u{2192} rm -rf build && mkdir build && cd build\n\nCurrent directory: ",
        );
        append_str(&mut sys, cwd);
        let cmds = recent_history_commands(history);
        append_recent_output(&mut sys, &cmds);
        let max_tokens = if self.command_query.max_tokens < 64 {
            self.command_query.max_tokens
        } else {
            64
        };
        let messages = vec![
            AiMessage { role: AiRole::System, content: string_from_chars(sys.as_slice()) },
            AiMessage { role: AiRole::User, content: string_from_chars(chars_of(query).as_slice()) },
        ];
        let stop = vec![
            string_from_chars(chars_of("\n\n").as_slice()),
            string_from_chars(chars_of("User:").as_slice()),
            string_from_chars(chars_of("```").as_slice()),
        ];
        assert(string_views(stop@) =~= seq!["\n\n"@, "User:"@, "```"@]);
        Some(CompletionPlan { messages, max_tokens, n: 1, stop: Some(stop) })
    }

    /// The command suggestions in the backend's answer: its first choice, parsed
    /// for as many suggestions as the settings ask for.
    pub fn command_suggestions(&self, choices: &[String]) -> (r: Vec<String>)
        ensures
            string_views(r@) == (if choices@.len() > 0 {
                suggestions(choices@[0]@, self.command_query_settings().max_suggestions)
            } else {
                Seq::empty()
            }),
    {
        if choices.len() > 0 {
            parse_command_suggestions(Some(choices[0].as_str()), self.command_query.max_suggestions)
        } else {
            parse_command_suggestions(None, self.command_query.max_suggestions)
        }
    }
}
} // verus!
