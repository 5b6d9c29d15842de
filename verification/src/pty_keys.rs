//! What a key pressed in the focused terminal sends to the shell.

use vstd::prelude::*;

use crate::shortcuts::KeyCode;

verus! {

/// What a key press in the focused terminal leads to.
#[derive(Debug, PartialEq, Eq)]
pub enum PtyKeyAction {
    /// These bytes go to the PTY.
    Send(Vec<u8>),
    /// The visible screen is copied to the clipboard (Ctrl+Shift+C).
    CopyScreen,
    /// The clipboard's text is pasted into the PTY (Ctrl+V).
    Paste,
    /// The key does nothing here.
    Ignore,
}

/// A key press's effect, with the bytes as a sequence.
pub enum KeyEffect {
    Send(Seq<u8>),
    CopyScreen,
    Paste,
    Ignore,
}

/// The control character of Ctrl and a letter: its place in the alphabet.
pub open spec fn ctrl_letter(key: KeyCode) -> Option<u8> {
    match key {
        KeyCode::D => Some(4u8),
        KeyCode::L => Some(12u8),
        KeyCode::U => Some(21u8),
        KeyCode::A => Some(1u8),
        KeyCode::E => Some(5u8),
        KeyCode::K => Some(11u8),
        KeyCode::W => Some(23u8),
        _ => None,
    }
}

/// The effect of `key` with Ctrl and Shift held or not: the editing and motion
/// keys send their terminal sequences whatever the modifiers, Tab sends a tab
/// (back-tab with Shift), and Ctrl with C, D, L, U, A, E, K or W sends the control
/// character, except that Ctrl+Shift+C copies the screen; Ctrl+V pastes.
pub open spec fn key_effect(key: KeyCode, ctrl: bool, shift: bool) -> KeyEffect {
    match key {
        KeyCode::Enter => KeyEffect::Send(seq![13u8]),
        KeyCode::Backspace => KeyEffect::Send(seq![8u8]),
        KeyCode::Delete => KeyEffect::Send(seq![27u8, 91u8, 51u8, 126u8]),
        KeyCode::ArrowUp => KeyEffect::Send(seq![27u8, 91u8, 65u8]),
        KeyCode::ArrowDown => KeyEffect::Send(seq![27u8, 91u8, 66u8]),
        KeyCode::ArrowRight => KeyEffect::Send(seq![27u8, 91u8, 67u8]),
        KeyCode::ArrowLeft => KeyEffect::Send(seq![27u8, 91u8, 68u8]),
        KeyCode::Home => KeyEffect::Send(seq![27u8, 91u8, 72u8]),
        KeyCode::End => KeyEffect::Send(seq![27u8, 91u8, 70u8]),
        KeyCode::PageUp => KeyEffect::Send(seq![27u8, 91u8, 53u8, 126u8]),
        KeyCode::PageDown => KeyEffect::Send(seq![27u8, 91u8, 54u8, 126u8]),
        KeyCode::Escape => KeyEffect::Send(seq![27u8]),
        KeyCode::Tab => if shift {
            KeyEffect::Send(seq![27u8, 91u8, 90u8])
        } else {
            KeyEffect::Send(seq![9u8])
        },
        KeyCode::C => if !ctrl {
            KeyEffect::Ignore
        } else if shift {
            KeyEffect::CopyScreen
        } else {
            KeyEffect::Send(seq![3u8])
        },
        KeyCode::V => if ctrl {
            KeyEffect::Paste
        } else {
            KeyEffect::Ignore
        },
        _ => match ctrl_letter(key) {
            Some(b) => if ctrl {
                KeyEffect::Send(seq![b])
            } else {
                KeyEffect::Ignore
            },
            None => KeyEffect::Ignore,
        },
    }
}

/// The cursor and editing keys send their ANSI sequences whatever the modifiers:
/// the arrows `ESC [ A`, `ESC [ B`, `ESC [ C`, `ESC [ D` for Up, Down, Right and
/// Left; Home `ESC [ H`, End `ESC [ F`; Delete, Page Up and Page Down
/// `ESC [ 3 ~`, `ESC [ 5 ~`, `ESC [ 6 ~`; Escape a lone `ESC`, Enter a carriage
/// return, Backspace a backspace; Tab a tab, or `ESC [ Z` with Shift.
pub proof fn lemma_terminal_key_sequences(ctrl: bool, shift: bool)
    ensures
        key_effect(KeyCode::ArrowUp, ctrl, shift) == KeyEffect::Send(seq![0x1bu8, 0x5bu8, 0x41u8]),
        key_effect(KeyCode::ArrowDown, ctrl, shift) == KeyEffect::Send(seq![0x1bu8, 0x5bu8, 0x42u8]),
        key_effect(KeyCode::ArrowRight, ctrl, shift) == KeyEffect::Send(seq![0x1bu8, 0x5bu8, 0x43u8]),
        key_effect(KeyCode::ArrowLeft, ctrl, shift) == KeyEffect::Send(seq![0x1bu8, 0x5bu8, 0x44u8]),
        key_effect(KeyCode::Home, ctrl, shift) == KeyEffect::Send(seq![0x1bu8, 0x5bu8, 0x48u8]),
        key_effect(KeyCode::End, ctrl, shift) == KeyEffect::Send(seq![0x1bu8, 0x5bu8, 0x46u8]),
        key_effect(KeyCode::Delete, ctrl, shift) == KeyEffect::Send(
            seq![0x1bu8, 0x5bu8, 0x33u8, 0x7eu8],
        ),
        key_effect(KeyCode::PageUp, ctrl, shift) == KeyEffect::Send(
            seq![0x1bu8, 0x5bu8, 0x35u8, 0x7eu8],
        ),
        key_effect(KeyCode::PageDown, ctrl, shift) == KeyEffect::Send(
            seq![0x1bu8, 0x5bu8, 0x36u8, 0x7eu8],
        ),
        key_effect(KeyCode::Escape, ctrl, shift) == KeyEffect::Send(seq![0x1bu8]),
        key_effect(KeyCode::Enter, ctrl, shift) == KeyEffect::Send(seq![0x0du8]),
        key_effect(KeyCode::Backspace, ctrl, shift) == KeyEffect::Send(seq![0x08u8]),
        key_effect(KeyCode::Tab, ctrl, shift) == (if shift {
            KeyEffect::Send(seq![0x1bu8, 0x5bu8, 0x5au8])
        } else {
            KeyEffect::Send(seq![0x09u8])
        }),
{
}

/// With Ctrl held, a letter sends its control character (its place in the
/// alphabet) for C, D, L, U, A, E, K and W, except that Ctrl+Shift+C copies the
/// screen; Ctrl+V pastes; without Ctrl a letter does nothing here.
pub proof fn lemma_control_letters(shift: bool)
    ensures
        key_effect(KeyCode::C, true, false) == KeyEffect::Send(seq![3u8]),
        key_effect(KeyCode::C, true, true) == KeyEffect::CopyScreen,
        key_effect(KeyCode::V, true, shift) == KeyEffect::Paste,
        key_effect(KeyCode::A, true, shift) == KeyEffect::Send(seq![1u8]),
        key_effect(KeyCode::D, true, shift) == KeyEffect::Send(seq![4u8]),
        key_effect(KeyCode::E, true, shift) == KeyEffect::Send(seq![5u8]),
        key_effect(KeyCode::K, true, shift) == KeyEffect::Send(seq![11u8]),
        key_effect(KeyCode::L, true, shift) == KeyEffect::Send(seq![12u8]),
        key_effect(KeyCode::U, true, shift) == KeyEffect::Send(seq![21u8]),
        key_effect(KeyCode::W, true, shift) == KeyEffect::Send(seq![23u8]),
        key_effect(KeyCode::C, false, shift) == KeyEffect::Ignore,
        key_effect(KeyCode::V, false, shift) == KeyEffect::Ignore,
        key_effect(KeyCode::W, false, shift) == KeyEffect::Ignore,
{
}

/// What pressing `key` (with Ctrl and Shift held or not) in the focused terminal
/// does. Enter also ends the line being typed; the caller clears its echo.
pub fn pty_key_action(key: KeyCode, ctrl: bool, shift: bool) -> (r: PtyKeyAction)
    ensures
        match key_effect(key, ctrl, shift) {
            KeyEffect::Send(b) => r matches PtyKeyAction::Send(v) && v@ =~= b,
            KeyEffect::CopyScreen => r is CopyScreen,
            KeyEffect::Paste => r is Paste,
            KeyEffect::Ignore => r is Ignore,
        },
{
    let r = match key {
        KeyCode::Enter => PtyKeyAction::Send(vec![13u8]),
        KeyCode::Backspace => PtyKeyAction::Send(vec![8u8]),
        KeyCode::Delete => PtyKeyAction::Send(vec![27u8, 91u8, 51u8, 126u8]),
        KeyCode::ArrowUp => PtyKeyAction::Send(vec![27u8, 91u8, 65u8]),
        KeyCode::ArrowDown => PtyKeyAction::Send(vec![27u8, 91u8, 66u8]),
        KeyCode::ArrowRight => PtyKeyAction::Send(vec![27u8, 91u8, 67u8]),
        KeyCode::ArrowLeft => PtyKeyAction::Send(vec![27u8, 91u8, 68u8]),
        KeyCode::Home => PtyKeyAction::Send(vec![27u8, 91u8, 72u8]),
        KeyCode::End => PtyKeyAction::Send(vec![27u8, 91u8, 70u8]),
        KeyCode::PageUp => PtyKeyAction::Send(vec![27u8, 91u8, 53u8, 126u8]),
        KeyCode::PageDown => PtyKeyAction::Send(vec![27u8, 91u8, 54u8, 126u8]),
        KeyCode::Escape => PtyKeyAction::Send(vec![27u8]),
        KeyCode::Tab => if shift {
            PtyKeyAction::Send(vec![27u8, 91u8, 90u8])
        } else {
            PtyKeyAction::Send(vec![9u8])
        },
        KeyCode::C => if !ctrl {
            PtyKeyAction::Ignore
        } else if shift {
            PtyKeyAction::CopyScreen
        } else {
            PtyKeyAction::Send(vec![3u8])
        },
        KeyCode::V => if ctrl {
            PtyKeyAction::Paste
        } else {
            PtyKeyAction::Ignore
        },
        _ => {
            let code: Option<u8> = match key {
                KeyCode::D => Some(4u8),
                KeyCode::L => Some(12u8),
                KeyCode::U => Some(21u8),
                KeyCode::A => Some(1u8),
                KeyCode::E => Some(5u8),
                KeyCode::K => Some(11u8),
                KeyCode::W => Some(23u8),
                _ => None,
            };
            match code {
                Some(b) => if ctrl {
                    PtyKeyAction::Send(vec![b])
                } else {
                    PtyKeyAction::Ignore
                },
                None => PtyKeyAction::Ignore,
            }
        },
    };
    r
}

} // verus!
