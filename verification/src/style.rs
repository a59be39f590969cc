//! Colors, and pieces of text that carry one.

use crate::entry::FileStatus;
use vstd::prelude::*;

verus! {

/// A color as icons and the classic view name it: the eight ANSI colors,
/// their bright forms, and colors given by their parts.
#[derive(Clone, Copy, Debug, PartialEq, Eq, Structural)]
pub enum Color {
    Black,
    Red,
    Green,
    Yellow,
    Blue,
    Magenta,
    Cyan,
    White,
    BrightBlack,
    BrightRed,
    BrightGreen,
    BrightYellow,
    BrightBlue,
    BrightMagenta,
    BrightCyan,
    BrightWhite,
    TrueColor { r: u8, g: u8, b: u8 },
}

/// A color as the interactive screen names it.
#[derive(Clone, Copy, Debug, PartialEq, Eq, Structural)]
pub enum ScreenColor {
    Reset,
    Black,
    Red,
    Green,
    Yellow,
    Blue,
    Magenta,
    Cyan,
    Gray,
    DarkGray,
    LightRed,
    LightGreen,
    LightYellow,
    LightBlue,
    LightMagenta,
    LightCyan,
    White,
    Rgb(u8, u8, u8),
}

impl Color {
    /// The screen's name for the color. The screen calls bright black gray
    /// and the other bright colors light; it has no bright white, which falls
    /// back to the terminal's own foreground.
    pub open spec fn on_screen(self) -> ScreenColor {
        match self {
            Color::Black => ScreenColor::Black,
            Color::Red => ScreenColor::Red,
            Color::Green => ScreenColor::Green,
            Color::Yellow => ScreenColor::Yellow,
            Color::Blue => ScreenColor::Blue,
            Color::Magenta => ScreenColor::Magenta,
            Color::Cyan => ScreenColor::Cyan,
            Color::White => ScreenColor::White,
            Color::BrightBlack => ScreenColor::Gray,
            Color::BrightRed => ScreenColor::LightRed,
            Color::BrightGreen => ScreenColor::LightGreen,
            Color::BrightYellow => ScreenColor::LightYellow,
            Color::BrightBlue => ScreenColor::LightBlue,
            Color::BrightMagenta => ScreenColor::LightMagenta,
            Color::BrightCyan => ScreenColor::LightCyan,
            Color::BrightWhite => ScreenColor::Reset,
            Color::TrueColor { r, g, b } => ScreenColor::Rgb(r, g, b),
        }
    }
}

/// Gives the screen's name for a color.
pub fn map_color(c: Color) -> (screen: ScreenColor)
    ensures
        screen == c.on_screen(),
{
    match c {
        Color::Black => ScreenColor::Black,
        Color::Red => ScreenColor::Red,
        Color::Green => ScreenColor::Green,
        Color::Yellow => ScreenColor::Yellow,
        Color::Blue => ScreenColor::Blue,
        Color::Magenta => ScreenColor::Magenta,
        Color::Cyan => ScreenColor::Cyan,
        Color::White => ScreenColor::White,
        Color::BrightBlack => ScreenColor::Gray,
        Color::BrightRed => ScreenColor::LightRed,
        Color::BrightGreen => ScreenColor::LightGreen,
        Color::BrightYellow => ScreenColor::LightYellow,
        Color::BrightBlue => ScreenColor::LightBlue,
        Color::BrightMagenta => ScreenColor::LightMagenta,
        Color::BrightCyan => ScreenColor::LightCyan,
        Color::TrueColor { r, g, b } => ScreenColor::Rgb(r, g, b),
        _ => ScreenColor::Reset,
    }
}

impl FileStatus {
    /// The color of a status code: green for what is new, yellow for what
    /// has changed, red for what is gone or in conflict, magenta for what
    /// the repository does not know.
    pub open spec fn spec_color(self) -> Color {
        match self {
            FileStatus::New => Color::Green,
            FileStatus::Renamed => Color::Green,
            FileStatus::Modified => Color::Yellow,
            FileStatus::Typechange => Color::Yellow,
            FileStatus::Deleted => Color::Red,
            FileStatus::Conflicted => Color::BrightRed,
            FileStatus::Untracked => Color::Magenta,
        }
    }

    /// Gives the color of the status code.
    pub fn color(&self) -> (c: Color)
        ensures
            c == self.spec_color(),
    {
        match self {
            FileStatus::New | FileStatus::Renamed => Color::Green,
            FileStatus::Modified | FileStatus::Typechange => Color::Yellow,
            FileStatus::Deleted => Color::Red,
            FileStatus::Conflicted => Color::BrightRed,
            FileStatus::Untracked => Color::Magenta,
        }
    }

    /// The status code as text.
    pub fn label(&self) -> (text: &'static str)
        ensures
            text@ == seq![self.code()],
    {
        proof {
            reveal_strlit("A");
            reveal_strlit("M");
            reveal_strlit("D");
            reveal_strlit("R");
            reveal_strlit("T");
            reveal_strlit("?");
            reveal_strlit("C");
        }
        let text = match self {
            FileStatus::New => "A",
            FileStatus::Modified => "M",
            FileStatus::Deleted => "D",
            FileStatus::Renamed => "R",
            FileStatus::Typechange => "T",
            FileStatus::Untracked => "?",
            FileStatus::Conflicted => "C",
        };
        assert(text@ =~= seq![self.code()]);
        text
    }
}

/// An icon for a path, with the color it is drawn in.
#[derive(Debug)]
pub struct Icon {
    pub glyph: String,
    pub color: Color,
}

/// A piece of a row, drawn in one style.
#[derive(Debug)]
pub struct Segment<C> {
    pub text: String,
    pub color: Option<C>,
    pub bold: bool,
    pub dimmed: bool,
}

/// What a `Segment` stands for in contracts.
pub struct SegmentView<C> {
    pub text: Seq<char>,
    pub color: Option<C>,
    pub bold: bool,
    pub dimmed: bool,
}

impl<C> View for Segment<C> {
    type V = SegmentView<C>;

    open spec fn view(&self) -> SegmentView<C> {
        SegmentView { text: self.text@, color: self.color, bold: self.bold, dimmed: self.dimmed }
    }
}

impl<C> DeepView for Segment<C> {
    type V = SegmentView<C>;

    open spec fn deep_view(&self) -> SegmentView<C> {
        self@
    }
}

/// Text in the terminal's own style.
pub open spec fn plain<C>(text: Seq<char>) -> SegmentView<C> {
    SegmentView { text, color: None, bold: false, dimmed: false }
}

/// Text in a color.
pub open spec fn colored<C>(text: Seq<char>, color: C) -> SegmentView<C> {
    SegmentView { text, color: Some(color), bold: false, dimmed: false }
}

/// `unit` written `n` times over.
pub open spec fn repeated(unit: Seq<char>, n: nat) -> Seq<char>
    decreases n,
{
    if n == 0 {
        Seq::empty()
    } else {
        repeated(unit, (n - 1) as nat) + unit
    }
}

} // verus!
