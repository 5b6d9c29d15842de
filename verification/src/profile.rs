//! Terminal profiles: the shell to run and how the terminal looks.

use vstd::prelude::*;

verus! {

/// The kind of shell a profile starts.
#[derive(Debug, Clone, Copy, PartialEq, Eq, Structural)]
pub enum ShellType {
    Powershell,
    Cmd,
    Wsl,
    Bash,
    Zsh,
    Fish,
    Custom,
}

/// How the text cursor is drawn.
#[derive(Debug, Clone, Copy, PartialEq, Eq, Structural)]
pub enum CursorStyle {
    Block,
    Bar,
    Underline,
}

/// Legacy shader effect discriminant, kept for old configuration files.
#[derive(Debug, Clone, Copy, PartialEq, Eq, Structural)]
pub enum ShaderEffect {
    /// No effect (`none` in configuration files).
    NoEffect,
    Crt,
    Fire,
}


/// Terminal color scheme with ANSI 16-color palette.
#[derive(Debug, Clone, PartialEq)]
pub struct ColorScheme {
    pub background: String,
    pub foreground: String,
    pub cursor: String,
    pub selection_bg: String,
    pub selection_fg: String,
    // ANSI colors 0-15
    pub black: String,
    pub red: String,
    pub green: String,
    pub yellow: String,
    pub blue: String,
    pub magenta: String,
    pub cyan: String,
    pub white: String,
    pub bright_black: String,
    pub bright_red: String,
    pub bright_green: String,
    pub bright_yellow: String,
    pub bright_blue: String,
    pub bright_magenta: String,
    pub bright_cyan: String,
    pub bright_white: String,
}

/// The byte value of a hexadecimal digit.
pub open spec fn hex_digit(b: u8) -> Option<u8> {
    if 48 <= b <= 57 {
        Some((b - 48) as u8)
    } else if 97 <= b <= 102 {
        Some((b - 87) as u8)
    } else if 65 <= b <= 70 {
        Some((b - 55) as u8)
    } else {
        None
    }
}

/// `u8::from_str_radix(s, 16)` on a string of two bytes: two hexadecimal digits,
/// or a `+` sign and one.
pub open spec fn hex_byte(b0: u8, b1: u8) -> Option<u8> {
    if b0 == 43 {
        hex_digit(b1)
    } else {
        match (hex_digit(b0), hex_digit(b1)) {
            (Some(hi), Some(lo)) => Some((hi * 16 + lo) as u8),
            _ => None,
        }
    }
}

/// The color a `#RRGGBB` string spells, over its UTF-8 bytes.
pub open spec fn hex_color(bs: Seq<u8>) -> Option<(u8, u8, u8)> {
    if bs.len() == 7 && bs[0] == 35 {
        match (hex_byte(bs[1], bs[2]), hex_byte(bs[3], bs[4]), hex_byte(bs[5], bs[6])) {
            (Some(r), Some(g), Some(b)) => Some((r, g, b)),
            _ => None,
        }
    } else {
        None
    }
}

/// The name of ANSI color `index` in a scheme, the foreground past 15.
pub open spec fn ansi_color_of(s: ColorScheme, index: u8) -> Seq<char> {
    if index == 0 {
        s.black@
    } else if index == 1 {
        s.red@
    } else if index == 2 {
        s.green@
    } else if index == 3 {
        s.yellow@
    } else if index == 4 {
        s.blue@
    } else if index == 5 {
        s.magenta@
    } else if index == 6 {
        s.cyan@
    } else if index == 7 {
        s.white@
    } else if index == 8 {
        s.bright_black@
    } else if index == 9 {
        s.bright_red@
    } else if index == 10 {
        s.bright_green@
    } else if index == 11 {
        s.bright_yellow@
    } else if index == 12 {
        s.bright_blue@
    } else if index == 13 {
        s.bright_magenta@
    } else if index == 14 {
        s.bright_cyan@
    } else if index == 15 {
        s.bright_white@
    } else {
        s.foreground@
    }
}

/// A hexadecimal digit's value.
fn hex_digit_value(b: u8) -> (r: Option<u8>)
    ensures
        r == hex_digit(b),
{
    if 48 <= b && b <= 57 {
        Some(b - 48)
    } else if 97 <= b && b <= 102 {
        Some(b - 87)
    } else if 65 <= b && b <= 70 {
        Some(b - 55)
    } else {
        None
    }
}

/// `u8::from_str_radix` in base 16 on two bytes.
fn hex_byte_value(b0: u8, b1: u8) -> (r: Option<u8>)
    ensures
        r == hex_byte(b0, b1),
{
    if b0 == 43 {
        return hex_digit_value(b1);
    }
    match (hex_digit_value(b0), hex_digit_value(b1)) {
        (Some(hi), Some(lo)) => Some(hi * 16 + lo),
        _ => None,
    }
}

/// A UTF-8 continuation byte: no character starts there.
pub open spec fn is_continuation(b: u8) -> bool {
    128 <= b < 192
}

impl ColorScheme {
    pub fn catppuccin_mocha() -> (r: Self)
        ensures
            r.background@ == "#1E1E2E"@,
            r.foreground@ == "#CDD6F4"@,
            r.cursor@ == "#F5E0DC"@,
            r.selection_bg@ == "#585B70"@,
            r.selection_fg@ == "#CDD6F4"@,
            r.black@ == "#45475A"@,
            r.red@ == "#F38BA8"@,
            r.green@ == "#A6E3A1"@,
            r.yellow@ == "#F9E2AF"@,
            r.blue@ == "#89B4FA"@,
            r.magenta@ == "#F5C2E7"@,
            r.cyan@ == "#94E2D5"@,
            r.white@ == "#BAC2DE"@,
            r.bright_black@ == "#585B70"@,
            r.bright_red@ == "#F38BA8"@,
            r.bright_green@ == "#A6E3A1"@,
            r.bright_yellow@ == "#F9E2AF"@,
            r.bright_blue@ == "#89B4FA"@,
            r.bright_magenta@ == "#F5C2E7"@,
            r.bright_cyan@ == "#94E2D5"@,
            r.bright_white@ == "#A6ADC8"@,
    {
        ColorScheme {
            background: "#1E1E2E".to_owned(),
            foreground: "#CDD6F4".to_owned(),
            cursor: "#F5E0DC".to_owned(),
            selection_bg: "#585B70".to_owned(),
            selection_fg: "#CDD6F4".to_owned(),
            black: "#45475A".to_owned(),
            red: "#F38BA8".to_owned(),
            green: "#A6E3A1".to_owned(),
            yellow: "#F9E2AF".to_owned(),
            blue: "#89B4FA".to_owned(),
            magenta: "#F5C2E7".to_owned(),
            cyan: "#94E2D5".to_owned(),
            white: "#BAC2DE".to_owned(),
            bright_black: "#585B70".to_owned(),
            bright_red: "#F38BA8".to_owned(),
            bright_green: "#A6E3A1".to_owned(),
            bright_yellow: "#F9E2AF".to_owned(),
            bright_blue: "#89B4FA".to_owned(),
            bright_magenta: "#F5C2E7".to_owned(),
            bright_cyan: "#94E2D5".to_owned(),
            bright_white: "#A6ADC8".to_owned(),
        }
    }

    pub fn default_dark() -> (r: Self)
        ensures
            r.background@ == "#0C0C0C"@,
            r.foreground@ == "#CCCCCC"@,
            r.cursor@ == "#FFFFFF"@,
            r.selection_bg@ == "#264F78"@,
            r.selection_fg@ == "#FFFFFF"@,
            r.black@ == "#0C0C0C"@,
            r.red@ == "#C50F1F"@,
            r.green@ == "#13A10E"@,
            r.yellow@ == "#C19C00"@,
            r.blue@ == "#0037DA"@,
            r.magenta@ == "#881798"@,
            r.cyan@ == "#3A96DD"@,
            r.white@ == "#CCCCCC"@,
            r.bright_black@ == "#767676"@,
            r.bright_red@ == "#E74856"@,
            r.bright_green@ == "#16C60C"@,
            r.bright_yellow@ == "#F9F1A5"@,
            r.bright_blue@ == "#3B78FF"@,
            r.bright_magenta@ == "#B4009E"@,
            r.bright_cyan@ == "#61D6D6"@,
            r.bright_white@ == "#F2F2F2"@,
    {
        ColorScheme {
            background: "#0C0C0C".to_owned(),
            foreground: "#CCCCCC".to_owned(),
            cursor: "#FFFFFF".to_owned(),
            selection_bg: "#264F78".to_owned(),
            selection_fg: "#FFFFFF".to_owned(),
            black: "#0C0C0C".to_owned(),
            red: "#C50F1F".to_owned(),
            green: "#13A10E".to_owned(),
            yellow: "#C19C00".to_owned(),
            blue: "#0037DA".to_owned(),
            magenta: "#881798".to_owned(),
            cyan: "#3A96DD".to_owned(),
            white: "#CCCCCC".to_owned(),
            bright_black: "#767676".to_owned(),
            bright_red: "#E74856".to_owned(),
            bright_green: "#16C60C".to_owned(),
            bright_yellow: "#F9F1A5".to_owned(),
            bright_blue: "#3B78FF".to_owned(),
            bright_magenta: "#B4009E".to_owned(),
            bright_cyan: "#61D6D6".to_owned(),
            bright_white: "#F2F2F2".to_owned(),
        }
    }

    /// Parse a hex color string like "#RRGGBB" into (r, g, b) bytes; anything
    /// else, a multi-byte character among the digits included, gives `None`.
    pub fn parse_hex(hex: &str) -> (r: Option<(u8, u8, u8)>)
        ensures
            r == hex_color(vstd::utf8::encode_utf8(hex@)),
    {
        let bs = hex.as_bytes();
        if bs.len() != 7 || bs[0] != 35 {
            return None;
        }
        let r = match hex_byte_value(bs[1], bs[2]) {
            Some(v) => v,
            None => return None,
        };
        let g = match hex_byte_value(bs[3], bs[4]) {
            Some(v) => v,
            None => return None,
        };
        let b = match hex_byte_value(bs[5], bs[6]) {
            Some(v) => v,
            None => return None,
        };
        Some((r, g, b))
    }

    /// Get an ANSI color by index (0-15).
    pub fn ansi_color(&self, index: u8) -> (r: &str)
        ensures
            r@ == ansi_color_of(*self, index),
    {
        match index {
            0 => self.black.as_str(),
            1 => self.red.as_str(),
            2 => self.green.as_str(),
            3 => self.yellow.as_str(),
            4 => self.blue.as_str(),
            5 => self.magenta.as_str(),
            6 => self.cyan.as_str(),
            7 => self.white.as_str(),
            8 => self.bright_black.as_str(),
            9 => self.bright_red.as_str(),
            10 => self.bright_green.as_str(),
            11 => self.bright_yellow.as_str(),
            12 => self.bright_blue.as_str(),
            13 => self.bright_magenta.as_str(),
            14 => self.bright_cyan.as_str(),
            15 => self.bright_white.as_str(),
            _ => self.foreground.as_str(),
        }
    }
}

impl Default for ColorScheme {
    fn default() -> (r: Self)
        ensures
            r.background@ == "#1E1E2E"@,
            r.foreground@ == "#CDD6F4"@,
            r.cursor@ == "#F5E0DC"@,
            r.selection_bg@ == "#585B70"@,
            r.selection_fg@ == "#CDD6F4"@,
            r.black@ == "#45475A"@,
            r.red@ == "#F38BA8"@,
            r.green@ == "#A6E3A1"@,
            r.yellow@ == "#F9E2AF"@,
            r.blue@ == "#89B4FA"@,
            r.magenta@ == "#F5C2E7"@,
            r.cyan@ == "#94E2D5"@,
            r.white@ == "#BAC2DE"@,
            r.bright_black@ == "#585B70"@,
            r.bright_red@ == "#F38BA8"@,
            r.bright_green@ == "#A6E3A1"@,
            r.bright_yellow@ == "#F9E2AF"@,
            r.bright_blue@ == "#89B4FA"@,
            r.bright_magenta@ == "#F5C2E7"@,
            r.bright_cyan@ == "#94E2D5"@,
            r.bright_white@ == "#A6ADC8"@,
    {
        Self::catppuccin_mocha()
    }
}

} // verus!
