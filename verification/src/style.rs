//! Terminal colours, text styles and styled spans of text.

use vstd::prelude::*;

verus! {

/// A terminal colour, with the same variants as the colour type of the terminal toolkit.
#[derive(Clone, Copy, Debug, PartialEq, Eq, Structural)]
pub enum TermColor {
    Reset,
    Black,
    Red,
    Green,
    Yellow,
    Blue,
    Magenta,
    Cyan,
    Gray,
    DarkGray,
    LightRed,
    LightGreen,
    LightYellow,
    LightBlue,
    LightMagenta,
    LightCyan,
    White,
    Rgb(u8, u8, u8),
    Indexed(u8),
}

/// Bit of the "reversed" text modifier.
pub const MODIFIER_REVERSED: u16 = 0x40;

/// Bit of the "dim" text modifier.
pub const MODIFIER_DIM: u16 = 0x2;

/// Bit of the "bold" text modifier.
pub const MODIFIER_BOLD: u16 = 0x1;

/// Bit of the "underlined" text modifier.
pub const MODIFIER_UNDERLINED: u16 = 0x8;

/// A text style: optional colours and the modifiers it adds and removes.
#[derive(Clone, Copy, Debug, PartialEq, Eq, Structural)]
pub struct TextStyle {
    pub fg: Option<TermColor>,
    pub bg: Option<TermColor>,
    pub underline_color: Option<TermColor>,
    pub add_modifier: u16,
    pub sub_modifier: u16,
}

/// `first` unless it is `None`, in which case `second`.
pub open spec fn option_or<T>(first: Option<T>, second: Option<T>) -> Option<T> {
    match first {
        Some(v) => Some(v),
        None => second,
    }
}

/// The style that results from laying `other` over `base`.
pub open spec fn spec_patch(base: TextStyle, other: TextStyle) -> TextStyle {
    TextStyle {
        fg: option_or(other.fg, base.fg),
        bg: option_or(other.bg, base.bg),
        underline_color: option_or(other.underline_color, base.underline_color),
        add_modifier: (base.add_modifier & !other.sub_modifier) | other.add_modifier,
        sub_modifier: (base.sub_modifier & !other.add_modifier) | other.sub_modifier,
    }
}

/// The style with `modifier` added (and no longer removed).
pub open spec fn spec_add_modifier(base: TextStyle, modifier: u16) -> TextStyle {
    TextStyle {
        add_modifier: base.add_modifier | modifier,
        sub_modifier: base.sub_modifier & !modifier,
        ..base
    }
}

/// The style with `modifier` removed (and no longer added).
pub open spec fn spec_remove_modifier(base: TextStyle, modifier: u16) -> TextStyle {
    TextStyle {
        add_modifier: base.add_modifier & !modifier,
        sub_modifier: base.sub_modifier | modifier,
        ..base
    }
}

impl TextStyle {
    /// The style that sets nothing.
    pub fn new() -> (s: TextStyle)
        ensures
            s.fg is None && s.bg is None && s.underline_color is None,
            s.add_modifier == 0 && s.sub_modifier == 0,
    {
        TextStyle { fg: None, bg: None, underline_color: None, add_modifier: 0, sub_modifier: 0 }
    }

    /// Lays `other` over this style: colours set in `other` win, and the modifiers that `other`
    /// adds or removes override those of this style.
    pub fn patch(self, other: TextStyle) -> (s: TextStyle)
        ensures
            s == spec_patch(self, other),
    {
        TextStyle {
            fg: match other.fg {
                Some(c) => Some(c),
                None => self.fg,
            },
            bg: match other.bg {
                Some(c) => Some(c),
                None => self.bg,
            },
            underline_color: match other.underline_color {
                Some(c) => Some(c),
                None => self.underline_color,
            },
            add_modifier: (self.add_modifier & !other.sub_modifier) | other.add_modifier,
            sub_modifier: (self.sub_modifier & !other.add_modifier) | other.sub_modifier,
        }
    }

    /// Adds the modifier bits `modifier`.
    pub fn add_modifier(self, modifier: u16) -> (s: TextStyle)
        ensures
            s == spec_add_modifier(self, modifier),
    {
        TextStyle {
            add_modifier: self.add_modifier | modifier,
            sub_modifier: self.sub_modifier & !modifier,
            ..self
        }
    }

    /// Removes the modifier bits `modifier`.
    pub fn remove_modifier(self, modifier: u16) -> (s: TextStyle)
        ensures
            s == spec_remove_modifier(self, modifier),
    {
        TextStyle {
            add_modifier: self.add_modifier & !modifier,
            sub_modifier: self.sub_modifier | modifier,
            ..self
        }
    }

    /// The same style, shown in reverse video.
    pub fn reversed(self) -> (s: TextStyle)
        ensures
            s == spec_add_modifier(self, MODIFIER_REVERSED),
    {
        self.add_modifier(MODIFIER_REVERSED)
    }

    /// The same style, no longer shown in reverse video.
    pub fn not_reversed(self) -> (s: TextStyle)
        ensures
            s == spec_remove_modifier(self, MODIFIER_REVERSED),
    {
        self.remove_modifier(MODIFIER_REVERSED)
    }

    /// The same style with foreground colour `color`.
    pub fn fg(self, color: TermColor) -> (s: TextStyle)
        ensures
            s == (TextStyle { fg: Some(color), ..self }),
    {
        TextStyle { fg: Some(color), ..self }
    }
}

/// The abstract value of a styled span: its characters and its style.
pub struct SpanView {
    pub text: Seq<char>,
    pub style: TextStyle,
}

/// A run of text drawn in one style.
#[derive(Debug)]
pub struct StyledSpan {
    pub content: String,
    pub style: TextStyle,
}

impl View for StyledSpan {
    type V = SpanView;

    open spec fn view(&self) -> SpanView {
        SpanView { text: self.content@, style: self.style }
    }
}

impl DeepView for StyledSpan {
    type V = SpanView;

    open spec fn deep_view(&self) -> SpanView {
        self@
    }
}

impl StyledSpan {
    /// A span of `content` in `style`.
    pub fn styled(content: String, style: TextStyle) -> (s: StyledSpan)
        ensures
            s@ == (SpanView { text: content@, style }),
    {
        StyledSpan { content, style }
    }
}

} // verus!
