use vstd::prelude::*;

verus! {

/// Terminal color representation.
#[derive(Debug, Clone, Copy, PartialEq, Eq, Structural)]
pub enum Color {
    Default,
    /// ANSI indexed color (0-255).
    Indexed(u8),
    /// True color RGB.
    Rgb(u8, u8, u8),
}

/// Visual attributes for a terminal cell.
#[derive(Debug, Clone, Copy, PartialEq, Eq, Structural)]
pub struct CellAttributes {
    pub fg: Color,
    pub bg: Color,
    pub bold: bool,
    pub italic: bool,
    pub underline: bool,
    pub strikethrough: bool,
    pub dim: bool,
    pub inverse: bool,
    pub hidden: bool,
    pub blink: bool,
}

/// A single cell in the terminal grid.
#[derive(Debug, Clone, Copy, PartialEq, Eq, Structural)]
pub struct Cell {
    pub ch: char,
    pub attrs: CellAttributes,
}

/// The attributes of a freshly cleared cell: default colors, no styling.
pub open spec fn default_attrs() -> CellAttributes {
    CellAttributes {
        fg: Color::Default,
        bg: Color::Default,
        bold: false,
        italic: false,
        underline: false,
        strikethrough: false,
        dim: false,
        inverse: false,
        hidden: false,
        blink: false,
    }
}

/// A blank cell: a space with default attributes.
pub open spec fn blank_cell() -> Cell {
    Cell { ch: ' ', attrs: default_attrs() }
}

impl Default for CellAttributes {
    fn default() -> (r: Self)
        ensures
            r == default_attrs(),
    {
        CellAttributes {
            fg: Color::Default,
            bg: Color::Default,
            bold: false,
            italic: false,
            underline: false,
            strikethrough: false,
            dim: false,
            inverse: false,
            hidden: false,
            blink: false,
        }
    }
}

impl Default for Cell {
    fn default() -> (r: Self)
        ensures
            r == blank_cell(),
    {
        Cell { ch: ' ', attrs: CellAttributes::default() }
    }
}

impl Cell {
    pub fn new(ch: char) -> (r: Self)
        ensures
            r.ch == ch,
            r.attrs == default_attrs(),
    {
        Cell { ch, attrs: CellAttributes::default() }
    }

    pub fn with_attrs(ch: char, attrs: CellAttributes) -> (r: Self)
        ensures
            r.ch == ch,
            r.attrs == attrs,
    {
        Cell { ch, attrs }
    }

    pub fn is_empty(&self) -> (r: bool)
        ensures
            r == (*self == blank_cell()),
    {
        self.ch == ' ' && self.attrs == CellAttributes::default()
    }

    pub fn clear(&mut self)
        ensures
            *final(self) == blank_cell(),
    {
        self.ch = ' ';
        self.attrs = CellAttributes::default();
    }
}

/// The color an SGR foreground code selects, if it is one of the basic ones.
pub open spec fn spec_ansi_fg(code: u16) -> Option<Color> {
    if 30 <= code <= 37 {
        Some(Color::Indexed((code - 30) as u8))
    } else if 90 <= code <= 97 {
        Some(Color::Indexed((code - 90 + 8) as u8))
    } else if code == 39 {
        Some(Color::Default)
    } else {
        None
    }
}

/// The color an SGR background code selects, if it is one of the basic ones.
pub open spec fn spec_ansi_bg(code: u16) -> Option<Color> {
    if 40 <= code <= 47 {
        Some(Color::Indexed((code - 40) as u8))
    } else if 100 <= code <= 107 {
        Some(Color::Indexed((code - 100 + 8) as u8))
    } else if code == 49 {
        Some(Color::Default)
    } else {
        None
    }
}

impl Color {
    /// Map a standard ANSI foreground code (30-37, 90-97) to indexed color.
    pub fn from_ansi_fg(code: u16) -> (r: Option<Self>)
        ensures
            r == spec_ansi_fg(code),
    {
        if 30 <= code && code <= 37 {
            Some(Color::Indexed((code - 30) as u8))
        } else if 90 <= code && code <= 97 {
            Some(Color::Indexed((code - 90 + 8) as u8))
        } else if code == 39 {
            Some(Color::Default)
        } else {
            None
        }
    }

    /// Map a standard ANSI background code (40-47, 100-107) to indexed color.
    pub fn from_ansi_bg(code: u16) -> (r: Option<Self>)
        ensures
            r == spec_ansi_bg(code),
    {
        if 40 <= code && code <= 47 {
            Some(Color::Indexed((code - 40) as u8))
        } else if 100 <= code && code <= 107 {
            Some(Color::Indexed((code - 100 + 8) as u8))
        } else if code == 49 {
            Some(Color::Default)
        } else {
            None
        }
    }
}

} // verus!
