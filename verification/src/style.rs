//! Colours, attribute sets, and the styles attached to runs of text.
use vstd::prelude::*;

verus! {

/// One of the sixteen named terminal colours, an indexed palette entry, or a
/// direct red/green/blue value.
#[derive(Clone, Copy, Debug, PartialEq, Eq, Structural)]
pub enum Color {
    Black,
    Red,
    Green,
    Yellow,
    Blue,
    Magenta,
    Cyan,
    White,
    DarkGray,
    LightRed,
    LightGreen,
    LightYellow,
    LightBlue,
    LightMagenta,
    LightCyan,
    Gray,
    Indexed(u8),
    Rgb(u8, u8, u8),
}

/// The set of text attributes a styled run can carry.
#[derive(Clone, Copy, Debug, PartialEq, Eq, Structural)]
pub struct AttrSet {
    pub bold: bool,
    pub dim: bool,
    pub italic: bool,
    pub underline: bool,
    pub blink: bool,
    pub reverse: bool,
    pub hidden: bool,
    pub strike: bool,
}

impl AttrSet {
    /// The empty attribute set.
    pub fn empty() -> (r: AttrSet)
        ensures
            r == AttrSet::spec_empty(),
    {
        AttrSet {
            bold: false,
            dim: false,
            italic: false,
            underline: false,
            blink: false,
            reverse: false,
            hidden: false,
            strike: false,
        }
    }

    pub open spec fn spec_empty() -> AttrSet {
        AttrSet {
            bold: false,
            dim: false,
            italic: false,
            underline: false,
            blink: false,
            reverse: false,
            hidden: false,
            strike: false,
        }
    }
}

impl Default for AttrSet {
    fn default() -> (r: AttrSet)
        ensures
            r == AttrSet::spec_empty(),
    {
        AttrSet::empty()
    }
}

/// The graphic-rendition state: optional foreground and background colours
/// plus an attribute set. Persisted across all text scanned so far.
#[derive(Clone, Copy, Debug, PartialEq, Eq, Structural)]
pub struct Style {
    pub fg: Option<Color>,
    pub bg: Option<Color>,
    pub attrs: AttrSet,
}

impl Style {
    /// The default style: no colours, no attributes.
    pub fn reset() -> (r: Style)
        ensures
            r == Style::spec_reset(),
    {
        Style { fg: None, bg: None, attrs: AttrSet::empty() }
    }

    pub open spec fn spec_reset() -> Style {
        Style { fg: None, bg: None, attrs: AttrSet::spec_empty() }
    }
}

impl Default for Style {
    fn default() -> (r: Style)
        ensures
            r == Style::spec_reset(),
    {
        Style::reset()
    }
}

} // verus!
