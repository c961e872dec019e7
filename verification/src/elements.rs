//! Value types for styled characters: render scale, decoration flags,
//! per-line justification, and the style snapshot stamped onto each
//! appended character.

use vstd::prelude::*;

verus! {

/// Render scale of a character.  Each variant has a fixed visual column
/// width, the unit of the per-line wrap budget.
#[derive(Clone, Copy, Debug, PartialEq, Eq, Structural)]
pub enum TextSize {
    Medium,
    Large,
    ExtraLarge,
}

impl TextSize {
    /// Visual columns one character of this size occupies.
    pub open spec fn spec_char_width(self) -> nat {
        match self {
            TextSize::Medium => 1,
            TextSize::Large => 2,
            TextSize::ExtraLarge => 3,
        }
    }

    /// Returns the visual width of a character with this text size.
    /// Medium = 1 column, Large = 2 columns, ExtraLarge = 3 columns.
    pub fn char_width(&self) -> (w: usize)
        ensures
            w == self.spec_char_width(),
            1 <= w <= 3,
    {
        match self {
            TextSize::Medium => 1,
            TextSize::Large => 2,
            TextSize::ExtraLarge => 3,
        }
    }
}

impl Default for TextSize {
    fn default() -> (r: Self)
        ensures
            r == TextSize::Medium,
    {
        TextSize::Medium
    }
}

/// Independent decoration flags.  The device has no italic face, so
/// italic is rendered identically to underline.
#[derive(Clone, Copy, Debug, PartialEq, Eq, Structural)]
pub struct TextDecoration {
    pub bold: bool,
    pub underline: bool,
    pub italic: bool,
}

impl Default for TextDecoration {
    fn default() -> (r: Self)
        ensures
            r == (TextDecoration { bold: false, underline: false, italic: false }),
    {
        TextDecoration { bold: false, underline: false, italic: false }
    }
}

/// Justification of a whole line.
#[derive(Clone, Copy, Debug, PartialEq, Eq, Structural)]
pub enum Justify {
    Left,
    Center,
    Right,
}

impl Default for Justify {
    fn default() -> (r: Self)
        ensures
            r == Justify::Left,
    {
        Justify::Left
    }
}

/// Snapshot of the pending style state at the time a character is appended.
#[derive(Clone, Copy, Debug, PartialEq, Eq, Structural)]
pub struct FormatState {
    pub text_size: TextSize,
    pub text_decoration: TextDecoration,
}

impl Default for FormatState {
    fn default() -> (r: Self)
        ensures
            r == (FormatState {
                text_size: TextSize::Medium,
                text_decoration: TextDecoration { bold: false, underline: false, italic: false },
            }),
    {
        FormatState {
            text_size: TextSize::Medium,
            text_decoration: TextDecoration { bold: false, underline: false, italic: false },
        }
    }
}

/// One Unicode scalar plus the style it was appended under.  Immutable
/// once created; owned by the line that holds it.
#[derive(Clone, Copy, Debug, PartialEq, Eq, Structural)]
pub struct StyledChar {
    pub ch: char,
    pub state: FormatState,
}

impl StyledChar {
    /// Visual columns this character occupies.
    pub open spec fn spec_width(self) -> nat {
        self.state.text_size.spec_char_width()
    }
}

} // verus!
