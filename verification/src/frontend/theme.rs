//! Colours and text styles.

use vstd::prelude::*;

verus! {

/// A colour of the palette, or the terminal's own.
#[derive(Debug, Clone, Copy, PartialEq, Eq, Structural)]
pub enum Color {
    Plain,
    Pink,
    Green,
    Red,
    Purple,
    Meta,
    Divider,
    Text,
    Gold,
}

/// The red, green and blue parts of a colour of the palette; the terminal's own colour has none.
pub open spec fn rgb_of(color: Color) -> Option<(u8, u8, u8)> {
    match color {
        Color::Plain => None,
        Color::Pink => Some((0xFF, 0x5A, 0x45)),
        Color::Green => Some((0x6F, 0xCF, 0x97)),
        Color::Red => Some((0xE2, 0x5A, 0x5A)),
        Color::Purple => Some((0x6F, 0xA0, 0xD8)),
        Color::Meta => Some((0xB0, 0xB0, 0xB0)),
        Color::Divider => Some((0x6E, 0x6E, 0x6E)),
        Color::Text => Some((0xFF, 0xFF, 0xFF)),
        Color::Gold => Some((0xE8, 0xB8, 0x4E)),
    }
}

impl Color {
    /// The red, green and blue parts of the colour.
    pub fn rgb(self) -> (r: Option<(u8, u8, u8)>)
        ensures
            r == rgb_of(self),
    {
        match self {
            Color::Plain => None,
            Color::Pink => Some((0xFF, 0x5A, 0x45)),
            Color::Green => Some((0x6F, 0xCF, 0x97)),
            Color::Red => Some((0xE2, 0x5A, 0x5A)),
            Color::Purple => Some((0x6F, 0xA0, 0xD8)),
            Color::Meta => Some((0xB0, 0xB0, 0xB0)),
            Color::Divider => Some((0x6E, 0x6E, 0x6E)),
            Color::Text => Some((0xFF, 0xFF, 0xFF)),
            Color::Gold => Some((0xE8, 0xB8, 0x4E)),
        }
    }
}

/// Different colours look different.
pub proof fn palette_is_distinct(a: Color, b: Color)
    requires
        a != b,
    ensures
        rgb_of(a) != rgb_of(b),
{
}

/// How a piece of text is drawn.
#[derive(Debug, Clone, Copy, PartialEq, Eq, Structural)]
pub struct Style {
    pub color: Color,
    pub bold: bool,
    pub italic: bool,
    pub struck: bool,
}

/// A style that sets the colour only.
pub open spec fn colored(color: Color) -> Style {
    Style { color, bold: false, italic: false, struck: false }
}

/// A style that sets the colour and bold type.
pub open spec fn bold(color: Color) -> Style {
    Style { color, bold: true, italic: false, struck: false }
}

/// A style that sets the colour and italic type.
pub open spec fn italic(color: Color) -> Style {
    Style { color, bold: false, italic: true, struck: false }
}

/// A style that sets the colour and a line through the text.
pub open spec fn struck(color: Color) -> Style {
    Style { color, bold: false, italic: false, struck: true }
}

impl Style {
    /// A style that sets the colour only.
    pub fn colored(color: Color) -> (r: Style)
        ensures
            r == colored(color),
    {
        Style { color, bold: false, italic: false, struck: false }
    }

    /// A style that sets the colour and bold type.
    pub fn bold(color: Color) -> (r: Style)
        ensures
            r == bold(color),
    {
        Style { color, bold: true, italic: false, struck: false }
    }

    /// A style that sets the colour and italic type.
    pub fn italic(color: Color) -> (r: Style)
        ensures
            r == italic(color),
    {
        Style { color, bold: false, italic: true, struck: false }
    }

    /// A style that sets the colour and a line through the text.
    pub fn struck(color: Color) -> (r: Style)
        ensures
            r == struck(color),
    {
        Style { color, bold: false, italic: false, struck: true }
    }
}

/// The style of ordinary text.
pub fn text_style() -> (r: Style)
    ensures
        r == colored(Color::Text),
{
    Style::colored(Color::Text)
}

/// The style of remarks.
pub fn meta_style() -> (r: Style)
    ensures
        r == colored(Color::Meta),
{
    Style::colored(Color::Meta)
}

/// The style of dividing lines.
pub fn divider_style() -> (r: Style)
    ensures
        r == colored(Color::Divider),
{
    Style::colored(Color::Divider)
}

/// The frames of the spinner.
pub open spec fn spinner_frames() -> Seq<char> {
    seq!['⠹', '⠸', '⠼', '⠴', '⠦', '⠧', '⠇', '⠏']
}

/// The number of frames of the spinner.
pub const SPINNER_LEN: usize = 8;

/// Frame `index` of the spinner.
pub fn spinner_frame(index: usize) -> (r: char)
    ensures
        r == spinner_frames()[(index % SPINNER_LEN) as int],
{
    let frames: [char; 8] = ['⠹', '⠸', '⠼', '⠴', '⠦', '⠧', '⠇', '⠏'];
    assert(frames@ =~= spinner_frames());
    frames[index % SPINNER_LEN]
}

} // verus!
