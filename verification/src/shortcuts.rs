//! Keyboard shortcuts: key combinations like `Ctrl+Shift+T` parsed from the key
//! bindings, and the action a key press triggers.

use vstd::prelude::*;

use crate::keybindings::{KeyBindings, ShortcutAction};
use crate::text::{chars_of, is_whitespace, is_ws, trim_end};
use crate::wsl::skip_ws;

verus! {

/// The keys a shortcut can use.
#[derive(Debug, Clone, Copy, PartialEq, Eq, Structural)]
pub enum KeyCode {
    Tab,
    Enter,
    Escape,
    Backspace,
    Delete,
    Home,
    End,
    PageUp,
    PageDown,
    ArrowUp,
    ArrowDown,
    ArrowLeft,
    ArrowRight,
    Space,
    Slash,
    Comma,
    Period,
    A,
    B,
    C,
    D,
    E,
    F,
    G,
    H,
    I,
    J,
    K,
    L,
    M,
    N,
    O,
    P,
    Q,
    R,
    S,
    T,
    U,
    V,
    W,
    X,
    Y,
    Z,
    Num0,
    Num1,
    Num2,
    Num3,
    Num4,
    Num5,
    Num6,
    Num7,
    Num8,
    Num9,
}

/// A parsed key combination (e.g., Ctrl+Shift+T / Cmd+Shift+T).
#[derive(Debug, Clone, Copy, PartialEq, Eq, Structural)]
pub struct KeyCombo {
    pub key: KeyCode,
    /// Platform command key: Cmd on macOS, Ctrl on Windows/Linux.
    pub command: bool,
    pub shift: bool,
    pub alt: bool,
}

/// What `str::to_lowercase` makes of the text.
pub uninterp spec fn lowercase(s: Seq<char>) -> Seq<char>;

/// `str::to_lowercase`. Its contract claims that the lowercase form is a function of
/// the text alone.
#[verifier::external_body]
pub(crate) fn to_lowercase(s: &str) -> (r: String)
    ensures
        r@ == lowercase(s@),
{
    s.to_lowercase()
}

/// The text with leading and trailing whitespace removed, as `str::trim` does.
pub open spec fn trim(s: Seq<char>) -> Seq<char> {
    trim_end(s.subrange(skip_ws(s, 0), s.len() as int))
}

/// The end of the `+`-separated part starting at `i`.
pub open spec fn part_end(s: Seq<char>, i: int) -> int
    decreases s.len() - i,
{
    if i < 0 || i >= s.len() || s[i] == '+' {
        i
    } else {
        part_end(s, i + 1)
    }
}

pub proof fn lemma_part_end(s: Seq<char>, i: int)
    requires
        0 <= i <= s.len(),
    ensures
        i <= part_end(s, i) <= s.len(),
        forall|k: int| i <= k < part_end(s, i) ==> s[k] != '+',
        part_end(s, i) < s.len() ==> s[part_end(s, i)] == '+',
    decreases s.len() - i,
{
    if i < s.len() && s[i] != '+' {
        lemma_part_end(s, i + 1);
    }
}

/// The parts of the text from `i` on, split at each `+` as `str::split` does.
pub open spec fn parts_from(s: Seq<char>, i: int) -> Seq<Seq<char>>
    decreases s.len() + 1 - i,
{
    if i < 0 || i > s.len() {
        Seq::empty()
    } else {
        let j = part_end(s, i);
        proof {
            lemma_part_end(s, i);
        }
        if j < s.len() {
            seq![s.subrange(i, j)] + parts_from(s, j + 1)
        } else {
            seq![s.subrange(i, j)]
        }
    }
}

/// The key a single character names, letters in either case.
pub open spec fn char_key(c: char) -> Option<KeyCode> {
    if c == 'a' || c == 'A' {
        Some(KeyCode::A)
    } else if c == 'b' || c == 'B' {
        Some(KeyCode::B)
    } else if c == 'c' || c == 'C' {
        Some(KeyCode::C)
    } else if c == 'd' || c == 'D' {
        Some(KeyCode::D)
    } else if c == 'e' || c == 'E' {
        Some(KeyCode::E)
    } else if c == 'f' || c == 'F' {
        Some(KeyCode::F)
    } else if c == 'g' || c == 'G' {
        Some(KeyCode::G)
    } else if c == 'h' || c == 'H' {
        Some(KeyCode::H)
    } else if c == 'i' || c == 'I' {
        Some(KeyCode::I)
    } else if c == 'j' || c == 'J' {
        Some(KeyCode::J)
    } else if c == 'k' || c == 'K' {
        Some(KeyCode::K)
    } else if c == 'l' || c == 'L' {
        Some(KeyCode::L)
    } else if c == 'm' || c == 'M' {
        Some(KeyCode::M)
    } else if c == 'n' || c == 'N' {
        Some(KeyCode::N)
    } else if c == 'o' || c == 'O' {
        Some(KeyCode::O)
    } else if c == 'p' || c == 'P' {
        Some(KeyCode::P)
    } else if c == 'q' || c == 'Q' {
        Some(KeyCode::Q)
    } else if c == 'r' || c == 'R' {
        Some(KeyCode::R)
    } else if c == 's' || c == 'S' {
        Some(KeyCode::S)
    } else if c == 't' || c == 'T' {
        Some(KeyCode::T)
    } else if c == 'u' || c == 'U' {
        Some(KeyCode::U)
    } else if c == 'v' || c == 'V' {
        Some(KeyCode::V)
    } else if c == 'w' || c == 'W' {
        Some(KeyCode::W)
    } else if c == 'x' || c == 'X' {
        Some(KeyCode::X)
    } else if c == 'y' || c == 'Y' {
        Some(KeyCode::Y)
    } else if c == 'z' || c == 'Z' {
        Some(KeyCode::Z)
    } else if c == '0' {
        Some(KeyCode::Num0)
    } else if c == '1' {
        Some(KeyCode::Num1)
    } else if c == '2' {
        Some(KeyCode::Num2)
    } else if c == '3' {
        Some(KeyCode::Num3)
    } else if c == '4' {
        Some(KeyCode::Num4)
    } else if c == '5' {
        Some(KeyCode::Num5)
    } else if c == '6' {
        Some(KeyCode::Num6)
    } else if c == '7' {
        Some(KeyCode::Num7)
    } else if c == '8' {
        Some(KeyCode::Num8)
    } else if c == '9' {
        Some(KeyCode::Num9)
    } else {
        None
    }
}

/// The key a lowercase key name names, if it is one of the named keys.
pub open spec fn named_key(p: Seq<char>) -> Option<KeyCode> {
    if p == "tab"@ {
        Some(KeyCode::Tab)
    } else if p == "enter"@ {
        Some(KeyCode::Enter)
    } else if p == "escape"@ || p == "esc"@ {
        Some(KeyCode::Escape)
    } else if p == "backspace"@ {
        Some(KeyCode::Backspace)
    } else if p == "delete"@ || p == "del"@ {
        Some(KeyCode::Delete)
    } else if p == "home"@ {
        Some(KeyCode::Home)
    } else if p == "end"@ {
        Some(KeyCode::End)
    } else if p == "pageup"@ {
        Some(KeyCode::PageUp)
    } else if p == "pagedown"@ {
        Some(KeyCode::PageDown)
    } else if p == "up"@ {
        Some(KeyCode::ArrowUp)
    } else if p == "down"@ {
        Some(KeyCode::ArrowDown)
    } else if p == "left"@ {
        Some(KeyCode::ArrowLeft)
    } else if p == "right"@ {
        Some(KeyCode::ArrowRight)
    } else if p == "space"@ {
        Some(KeyCode::Space)
    } else if p == "/"@ {
        Some(KeyCode::Slash)
    } else if p == ","@ {
        Some(KeyCode::Comma)
    } else if p == "."@ {
        Some(KeyCode::Period)
    } else {
        None
    }
}

/// What the parsing has gathered: the modifiers and the key so far.
pub struct ComboState {
    pub command: bool,
    pub shift: bool,
    pub alt: bool,
    pub key: Option<KeyCode>,
}

/// One lowercase part applied: a modifier sets its flag, a key name sets the key,
/// a single ASCII character sets the key it names (or none), anything else is
/// ignored.
pub open spec fn apply_part(st: ComboState, p: Seq<char>) -> ComboState {
    if p == "ctrl"@ || p == "cmd"@ {
        ComboState { command: true, ..st }
    } else if p == "shift"@ {
        ComboState { shift: true, ..st }
    } else if p == "alt"@ {
        ComboState { alt: true, ..st }
    } else if named_key(p) is Some {
        ComboState { key: named_key(p), ..st }
    } else if p.len() == 1 && (p[0] as u32) < 0x80 {
        ComboState { key: char_key(p[0]), ..st }
    } else {
        st
    }
}

/// The modifier parts of a binding: "ctrl" and "cmd" both stand for the platform
/// command key, "shift" and "alt" for theirs, and each sets only its own flag,
/// keeping the key and the other modifiers gathered so far.
pub proof fn lemma_modifier_parts(st: ComboState)
    ensures
        apply_part(st, "ctrl"@) == (ComboState { command: true, ..st }),
        apply_part(st, "cmd"@) == (ComboState { command: true, ..st }),
        apply_part(st, "shift"@) == (ComboState { shift: true, ..st }),
        apply_part(st, "alt"@) == (ComboState { alt: true, ..st }),
{
    reveal_strlit("ctrl");
    reveal_strlit("cmd");
    reveal_strlit("shift");
    reveal_strlit("alt");
    assert("cmd"@.len() != "ctrl"@.len());
    assert("shift"@.len() != "ctrl"@.len() && "shift"@.len() != "cmd"@.len());
    assert("alt"@.len() != "ctrl"@.len() && "alt"@[0] != "cmd"@[0] && "alt"@.len()
        != "shift"@.len());
}

/// The named keys: the arrows "up", "down", "left" and "right", "tab", "enter",
/// "escape" (or "esc"), "backspace", "delete" (or "del"), "home", "end", "pageup",
/// "pagedown" and "space".
pub proof fn lemma_named_keys()
    ensures
        named_key("up"@) == Some(KeyCode::ArrowUp),
        named_key("down"@) == Some(KeyCode::ArrowDown),
        named_key("left"@) == Some(KeyCode::ArrowLeft),
        named_key("right"@) == Some(KeyCode::ArrowRight),
        named_key("tab"@) == Some(KeyCode::Tab),
        named_key("enter"@) == Some(KeyCode::Enter),
        named_key("escape"@) == Some(KeyCode::Escape),
        named_key("esc"@) == Some(KeyCode::Escape),
        named_key("backspace"@) == Some(KeyCode::Backspace),
        named_key("delete"@) == Some(KeyCode::Delete),
        named_key("del"@) == Some(KeyCode::Delete),
        named_key("home"@) == Some(KeyCode::Home),
        named_key("end"@) == Some(KeyCode::End),
        named_key("pageup"@) == Some(KeyCode::PageUp),
        named_key("pagedown"@) == Some(KeyCode::PageDown),
        named_key("space"@) == Some(KeyCode::Space),
{
    reveal_strlit("tab");
    assert("tab"@ =~= seq!['t', 'a', 'b']);
    reveal_strlit("enter");
    assert("enter"@ =~= seq!['e', 'n', 't', 'e', 'r']);
    reveal_strlit("escape");
    assert("escape"@ =~= seq!['e', 's', 'c', 'a', 'p', 'e']);
    reveal_strlit("esc");
    assert("esc"@ =~= seq!['e', 's', 'c']);
    reveal_strlit("backspace");
    assert("backspace"@ =~= seq!['b', 'a', 'c', 'k', 's', 'p', 'a', 'c', 'e']);
    reveal_strlit("delete");
    assert("delete"@ =~= seq!['d', 'e', 'l', 'e', 't', 'e']);
    reveal_strlit("del");
    assert("del"@ =~= seq!['d', 'e', 'l']);
    reveal_strlit("home");
    assert("home"@ =~= seq!['h', 'o', 'm', 'e']);
    reveal_strlit("end");
    assert("end"@ =~= seq!['e', 'n', 'd']);
    reveal_strlit("pageup");
    assert("pageup"@ =~= seq!['p', 'a', 'g', 'e', 'u', 'p']);
    reveal_strlit("pagedown");
    assert("pagedown"@ =~= seq!['p', 'a', 'g', 'e', 'd', 'o', 'w', 'n']);
    reveal_strlit("up");
    assert("up"@ =~= seq!['u', 'p']);
    reveal_strlit("down");
    assert("down"@ =~= seq!['d', 'o', 'w', 'n']);
    reveal_strlit("left");
    assert("left"@ =~= seq!['l', 'e', 'f', 't']);
    reveal_strlit("right");
    assert("right"@ =~= seq!['r', 'i', 'g', 'h', 't']);
    reveal_strlit("space");
    assert("space"@ =~= seq!['s', 'p', 'a', 'c', 'e']);
}

/// A letter names the same key in either case, and different letters name
/// different keys.
pub proof fn lemma_letter_keys(c: char, d: char)
    requires
        'a' <= c <= 'z',
        'a' <= d <= 'z',
    ensures
        char_key(c) is Some,
        char_key(c) == char_key(((c as u32) - 32) as char),
        c != d ==> char_key(c) != char_key(d),
{
}

/// The parts applied in order.
pub open spec fn apply_parts(st: ComboState, ps: Seq<Seq<char>>) -> ComboState
    decreases ps.len(),
{
    if ps.len() == 0 {
        st
    } else {
        apply_parts(apply_part(st, lowercase(trim(ps[0]))), ps.drop_first())
    }
}

/// The key combination a binding string describes: its `+`-separated parts,
/// trimmed and lowercased, applied in order; none without a key.
pub open spec fn combo_of(s: Seq<char>) -> Option<KeyCombo> {
    let st = apply_parts(
        ComboState { command: false, shift: false, alt: false, key: None },
        parts_from(s, 0),
    );
    match st.key {
        Some(k) => Some(KeyCombo { key: k, command: st.command, shift: st.shift, alt: st.alt }),
        None => None,
    }
}

/// Whether the characters spell the text.
fn spells(v: &Vec<char>, text: &str) -> (r: bool)
    ensures
        r == (v@ == text@),
{
    let t = chars_of(text);
    if v.len() != t.len() {
        return false;
    }
    let mut i: usize = 0;
    while i < v.len()
        invariant
            i <= v@.len() == t@.len(),
            t@ == text@,
            forall|k: int| 0 <= k < i ==> v@[k] == t@[k],
        decreases v@.len() - i,
    {
        if v[i] != t[i] {
            return false;
        }
        i += 1;
    }
    assert(v@ =~= t@);
    true
}

/// The key a single character names, letters in either case.
fn char_to_key(c: char) -> (r: Option<KeyCode>)
    ensures
        r == char_key(c),
{
    match c {
        'a' | 'A' => Some(KeyCode::A),
        'b' | 'B' => Some(KeyCode::B),
        'c' | 'C' => Some(KeyCode::C),
        'd' | 'D' => Some(KeyCode::D),
        'e' | 'E' => Some(KeyCode::E),
        'f' | 'F' => Some(KeyCode::F),
        'g' | 'G' => Some(KeyCode::G),
        'h' | 'H' => Some(KeyCode::H),
        'i' | 'I' => Some(KeyCode::I),
        'j' | 'J' => Some(KeyCode::J),
        'k' | 'K' => Some(KeyCode::K),
        'l' | 'L' => Some(KeyCode::L),
        'm' | 'M' => Some(KeyCode::M),
        'n' | 'N' => Some(KeyCode::N),
        'o' | 'O' => Some(KeyCode::O),
        'p' | 'P' => Some(KeyCode::P),
        'q' | 'Q' => Some(KeyCode::Q),
        'r' | 'R' => Some(KeyCode::R),
        's' | 'S' => Some(KeyCode::S),
        't' | 'T' => Some(KeyCode::T),
        'u' | 'U' => Some(KeyCode::U),
        'v' | 'V' => Some(KeyCode::V),
        'w' | 'W' => Some(KeyCode::W),
        'x' | 'X' => Some(KeyCode::X),
        'y' | 'Y' => Some(KeyCode::Y),
        'z' | 'Z' => Some(KeyCode::Z),
        '0' => Some(KeyCode::Num0),
        '1' => Some(KeyCode::Num1),
        '2' => Some(KeyCode::Num2),
        '3' => Some(KeyCode::Num3),
        '4' => Some(KeyCode::Num4),
        '5' => Some(KeyCode::Num5),
        '6' => Some(KeyCode::Num6),
        '7' => Some(KeyCode::Num7),
        '8' => Some(KeyCode::Num8),
        '9' => Some(KeyCode::Num9),
        _ => None,
    }
}

/// The key a lowercase key name names, if it is one of the named keys.
fn named_key_of(p: &Vec<char>) -> (r: Option<KeyCode>)
    ensures
        r == named_key(p@),
{
    if spells(p, "tab") {
        Some(KeyCode::Tab)
    } else if spells(p, "enter") {
        Some(KeyCode::Enter)
    } else if spells(p, "escape") || spells(p, "esc") {
        Some(KeyCode::Escape)
    } else if spells(p, "backspace") {
        Some(KeyCode::Backspace)
    } else if spells(p, "delete") || spells(p, "del") {
        Some(KeyCode::Delete)
    } else if spells(p, "home") {
        Some(KeyCode::Home)
    } else if spells(p, "end") {
        Some(KeyCode::End)
    } else if spells(p, "pageup") {
        Some(KeyCode::PageUp)
    } else if spells(p, "pagedown") {
        Some(KeyCode::PageDown)
    } else if spells(p, "up") {
        Some(KeyCode::ArrowUp)
    } else if spells(p, "down") {
        Some(KeyCode::ArrowDown)
    } else if spells(p, "left") {
        Some(KeyCode::ArrowLeft)
    } else if spells(p, "right") {
        Some(KeyCode::ArrowRight)
    } else if spells(p, "space") {
        Some(KeyCode::Space)
    } else if spells(p, "/") {
        Some(KeyCode::Slash)
    } else if spells(p, ",") {
        Some(KeyCode::Comma)
    } else if spells(p, ".") {
        Some(KeyCode::Period)
    } else {
        None
    }
}

/// The part `s[from..to)`, trimmed.
pub(crate) fn trimmed_part(s: &Vec<char>, from: usize, to: usize) -> (r: String)
    requires
        from <= to <= s@.len(),
    ensures
        r@ == trim(s@.subrange(from as int, to as int)),
{
    let ghost part = s@.subrange(from as int, to as int);
    let mut k = from;
    while k < to && is_whitespace(s[k])
        invariant
            from <= k <= to <= s@.len(),
            part == s@.subrange(from as int, to as int),
            skip_ws(part, k - from) == skip_ws(part, 0),
        decreases to - k,
    {
        assert(part[k - from] == s@[k as int]);
        k += 1;
    }
    proof {
        if k < to {
            assert(part[k - from] == s@[k as int]);
        }
        assert(skip_ws(part, k - from) == k - from);
        assert(part.subrange(k - from, part.len() as int) =~= s@.subrange(k as int, to as int));
    }
    crate::text::trimmed_string(vstd::slice::slice_subrange(s.as_slice(), k, to))
}

/// Parse a binding string like `Ctrl+Shift+T` into a key combination.
pub fn parse_key_combo(s: &str) -> (r: Option<KeyCombo>)
    ensures
        r == combo_of(s@),
{
    let cs = chars_of(s);
    let ghost sq = cs@;
    let n = cs.len();
    let mut command = false;
    let mut shift = false;
    let mut alt = false;
    let mut key: Option<KeyCode> = None;
    let ghost init = ComboState { command: false, shift: false, alt: false, key: None };
    let mut i: usize = 0;
    let mut done = false;
    proof {
        lemma_part_end(sq, 0);
    }
    while !done
        invariant
            sq == cs@,
            n == sq.len(),
            i <= n,
            apply_parts(init, parts_from(sq, 0)) == apply_parts(
                ComboState { command, shift, alt, key },
                if done {
                    Seq::empty()
                } else {
                    parts_from(sq, i as int)
                },
            ),
        decreases n - i + if done {
            0int
        } else {
            1int
        },
    {
        let start = i;
        proof {
            lemma_part_end(sq, start as int);
        }
        while i < n && cs[i] != '+'
            invariant
                start <= i <= n == sq.len(),
                sq == cs@,
                part_end(sq, i as int) == part_end(sq, start as int),
            decreases n - i,
        {
            i += 1;
        }
        let part = trimmed_part(&cs, start, i);
        let lower = to_lowercase(part.as_str());
        let p = chars_of(lower.as_str());
        let ghost st0 = ComboState { command, shift, alt, key };
        if spells(&p, "ctrl") || spells(&p, "cmd") {
            command = true;
        } else if spells(&p, "shift") {
            shift = true;
        } else if spells(&p, "alt") {
            alt = true;
        } else {
            let named = named_key_of(&p);
            if named.is_some() {
                key = named;
            } else if p.len() == 1 && (p[0] as u32) < 0x80 {
                key = char_to_key(p[0]);
            }
        }
        proof {
            let ps = parts_from(sq, start as int);
            assert(ps[0] == sq.subrange(start as int, i as int));
            assert(apply_part(st0, lowercase(trim(ps[0]))) == ComboState { command, shift, alt, key });
        }
        if i < n {
            assert(parts_from(sq, start as int).drop_first() =~= parts_from(sq, i + 1));
            i += 1;
        } else {
            assert(parts_from(sq, start as int).drop_first() =~= Seq::<Seq<char>>::empty());
            done = true;
        }
    }
    match key {
        Some(k) => Some(KeyCombo { key: k, command, shift, alt }),
        None => None,
    }
}

/// Checks for keyboard shortcuts and dispatches actions.
pub struct ShortcutManager {
    bindings: Vec<(ShortcutAction, KeyCombo)>,
}

/// Each action with its binding string, in the order the settings list them.
pub open spec fn binding_pairs(k: KeyBindings) -> Seq<(ShortcutAction, Seq<char>)> {
    seq![
        (ShortcutAction::NewTab, k.new_tab@),
        (ShortcutAction::CloseTab, k.close_tab@),
        (ShortcutAction::NextTab, k.next_tab@),
        (ShortcutAction::PrevTab, k.prev_tab@),
        (ShortcutAction::OpenSettings, k.open_settings@),
        (ShortcutAction::SaveSession, k.save_session@),
        (ShortcutAction::FindInSession, k.find_in_session@),
        (ShortcutAction::AiCommandQuery, k.ai_command_query@),
        (ShortcutAction::SplitHorizontal, k.split_horizontal@),
        (ShortcutAction::SplitVertical, k.split_vertical@),
        (ShortcutAction::ClosePane, k.close_pane@),
        (ShortcutAction::ReloadPlugins, k.reload_plugins@),
        (ShortcutAction::FocusNextGroup, k.focus_next_group@),
        (ShortcutAction::FocusPrevGroup, k.focus_prev_group@),
        (ShortcutAction::MoveTabNextGroup, k.move_tab_to_next_group@),
        (ShortcutAction::MoveTabPrevGroup, k.move_tab_to_prev_group@),
    ]
}

/// The bindings that parse, in order, each with its combination.
pub open spec fn parsed_bindings(ps: Seq<(ShortcutAction, Seq<char>)>) -> Seq<
    (ShortcutAction, KeyCombo),
>
    decreases ps.len(),
{
    if ps.len() == 0 {
        Seq::empty()
    } else {
        let rest = parsed_bindings(ps.drop_last());
        match combo_of(ps.last().1) {
            Some(c) => rest.push((ps.last().0, c)),
            None => rest,
        }
    }
}

/// The first binding whose modifiers are the ones held and whose key is pressed.
pub open spec fn first_triggered(
    bs: Seq<(ShortcutAction, KeyCombo)>,
    command: bool,
    shift: bool,
    alt: bool,
    pressed: Seq<KeyCode>,
) -> Option<ShortcutAction>
    decreases bs.len(),
{
    if bs.len() == 0 {
        None
    } else {
        let c = bs[0].1;
        if c.command == command && c.shift == shift && c.alt == alt && pressed.contains(c.key) {
            Some(bs[0].0)
        } else {
            first_triggered(bs.drop_first(), command, shift, alt, pressed)
        }
    }
}

impl View for ShortcutManager {
    type V = Seq<(ShortcutAction, KeyCombo)>;

    closed spec fn view(&self) -> Seq<(ShortcutAction, KeyCombo)> {
        self.bindings@
    }
}

impl ShortcutManager {
    pub fn from_config(keybindings: &KeyBindings) -> (r: Self)
        ensures
            r@ == parsed_bindings(binding_pairs(*keybindings)),
    {
        let pairs: [(ShortcutAction, &String); 16] = [
            (ShortcutAction::NewTab, &keybindings.new_tab),
            (ShortcutAction::CloseTab, &keybindings.close_tab),
            (ShortcutAction::NextTab, &keybindings.next_tab),
            (ShortcutAction::PrevTab, &keybindings.prev_tab),
            (ShortcutAction::OpenSettings, &keybindings.open_settings),
            (ShortcutAction::SaveSession, &keybindings.save_session),
            (ShortcutAction::FindInSession, &keybindings.find_in_session),
            (ShortcutAction::AiCommandQuery, &keybindings.ai_command_query),
            (ShortcutAction::SplitHorizontal, &keybindings.split_horizontal),
            (ShortcutAction::SplitVertical, &keybindings.split_vertical),
            (ShortcutAction::ClosePane, &keybindings.close_pane),
            (ShortcutAction::ReloadPlugins, &keybindings.reload_plugins),
            (ShortcutAction::FocusNextGroup, &keybindings.focus_next_group),
            (ShortcutAction::FocusPrevGroup, &keybindings.focus_prev_group),
            (ShortcutAction::MoveTabNextGroup, &keybindings.move_tab_to_next_group),
            (ShortcutAction::MoveTabPrevGroup, &keybindings.move_tab_to_prev_group),
        ];
        let ghost all = binding_pairs(*keybindings);
        assert(pairs@.len() == all.len());
        assert forall|i: int| 0 <= i < 16 implies (#[trigger] pairs@[i]).0 == all[i].0
            && pairs@[i].1@ == all[i].1 by {}
        let mut bindings: Vec<(ShortcutAction, KeyCombo)> = Vec::new();
        let mut i: usize = 0;
        while i < 16
            invariant
                i <= 16,
                all == binding_pairs(*keybindings),
                forall|k: int| 0 <= k < 16 ==> (#[trigger] pairs@[k]).0 == all[k].0 && pairs@[k].1@
                    == all[k].1,
                bindings@ == parsed_bindings(all.subrange(0, i as int)),
            decreases 16 - i,
        {
            let (action, combo_str) = pairs[i];
            assert(all.subrange(0, i + 1).drop_last() =~= all.subrange(0, i as int));
            if let Some(combo) = parse_key_combo(combo_str.as_str()) {
                bindings.push((action, combo));
            }
            i += 1;
        }
        assert(all.subrange(0, 16) =~= all);
        ShortcutManager { bindings }
    }

    /// The action whose shortcut the held modifiers and a pressed key trigger this
    /// frame: the first binding that matches.
    pub fn check(&self, command: bool, shift: bool, alt: bool, pressed: &[KeyCode]) -> (r: Option<
        ShortcutAction,
    >)
        ensures
            r == first_triggered(self@, command, shift, alt, pressed@),
    {
        let mut i: usize = 0;
        assert(self@.subrange(0, self@.len() as int) =~= self@);
        while i < self.bindings.len()
            invariant
                i <= self@.len(),
                first_triggered(self@, command, shift, alt, pressed@) == first_triggered(
                    self@.subrange(i as int, self@.len() as int),
                    command,
                    shift,
                    alt,
                    pressed@,
                ),
            decreases self@.len() - i,
        {
            let (action, combo) = self.bindings[i];
            let ghost rest = self@.subrange(i as int, self@.len() as int);
            assert(rest[0] == (action, combo));
            assert(rest.drop_first() =~= self@.subrange(i + 1, self@.len() as int));
            if combo.command == command && combo.shift == shift && combo.alt == alt {
                let mut j: usize = 0;
                while j < pressed.len()
                    invariant
                        j <= pressed@.len(),
                        forall|k: int| 0 <= k < j ==> pressed@[k] != combo.key,
                        rest.len() > 0,
                        rest[0] == (action, combo),
                        first_triggered(self@, command, shift, alt, pressed@) == first_triggered(
                            rest,
                            command,
                            shift,
                            alt,
                            pressed@,
                        ),
                        combo.command == command && combo.shift == shift && combo.alt == alt,
                    decreases pressed@.len() - j,
                {
                    if pressed[j] == combo.key {
                        assert(pressed@.contains(combo.key)) by {
                            assert(pressed@[j as int] == combo.key);
                        }
                        assert(first_triggered(rest, command, shift, alt, pressed@) == Some(action));
                        return Some(action);
                    }
                    j += 1;
                }
            }
            i += 1;
        }
        None
    }
}

} // verus!
