//! The fixed colour theme of the user interface.
use vstd::prelude::*;

use crate::style::{AttrSet, Color, Style};

verus! {

/// A style with only a foreground colour.
pub open spec fn fg_only(c: Color) -> Style {
    Style { fg: Option::Some(c), bg: Option::None, attrs: AttrSet::spec_empty() }
}

/// A style with a foreground colour and bold.
pub open spec fn fg_bold(c: Color) -> Style {
    Style {
        fg: Option::Some(c),
        bg: Option::None,
        attrs: AttrSet { bold: true, ..AttrSet::spec_empty() },
    }
}

/// A style with only a foreground colour.
pub fn solid(c: Color) -> (r: Style)
    ensures
        r == fg_only(c),
{
    Style { fg: Option::Some(c), bg: Option::None, attrs: AttrSet::empty() }
}

/// A style with a foreground colour and bold.
pub fn solid_bold(c: Color) -> (r: Style)
    ensures
        r == fg_bold(c),
{
    Style {
        fg: Option::Some(c),
        bg: Option::None,
        attrs: AttrSet { bold: true, ..AttrSet::empty() },
    }
}

pub struct Theme;

impl Theme {
    pub fn title() -> (r: Style)
        ensures
            r == fg_bold(Color::Green),
    {
        solid_bold(Color::Green)
    }

    pub fn highlight() -> (r: Style)
        ensures
            r == (Style {
                fg: Option::Some(Color::Rgb(0, 0, 0)),
                bg: Option::Some(Color::White),
                attrs: AttrSet { bold: true, ..AttrSet::spec_empty() },
            }),
    {
        Style {
            fg: Option::Some(Color::Rgb(0, 0, 0)),
            bg: Option::Some(Color::White),
            attrs: AttrSet { bold: true, ..AttrSet::empty() },
        }
    }

    /// Active: the panel is capturing input.
    pub fn selected_border() -> (r: Style)
        ensures
            r == fg_only(Color::Green),
    {
        solid(Color::Green)
    }

    /// Highlighted while navigating, without capturing input.
    pub fn navigate_border() -> (r: Style)
        ensures
            r == fg_only(Color::Yellow),
    {
        solid(Color::Yellow)
    }

    pub fn normal_border() -> (r: Style)
        ensures
            r == fg_only(Color::DarkGray),
    {
        solid(Color::DarkGray)
    }

    pub fn key_hint_key() -> (r: Style)
        ensures
            r == fg_bold(Color::Yellow),
    {
        solid_bold(Color::Yellow)
    }

    pub fn key_hint_desc() -> (r: Style)
        ensures
            r == fg_only(Color::DarkGray),
    {
        solid(Color::DarkGray)
    }

    pub fn error() -> (r: Style)
        ensures
            r == fg_bold(Color::Red),
    {
        solid_bold(Color::Red)
    }

    pub fn label() -> (r: Style)
        ensures
            r == fg_bold(Color::DarkGray),
    {
        solid_bold(Color::DarkGray)
    }

    pub fn value() -> (r: Style)
        ensures
            r == fg_only(Color::White),
    {
        solid(Color::White)
    }

    pub fn dimmed() -> (r: Style)
        ensures
            r == fg_only(Color::DarkGray),
    {
        solid(Color::DarkGray)
    }

    pub fn chat_user() -> (r: Style)
        ensures
            r == fg_only(Color::Green),
    {
        solid(Color::Green)
    }

    pub fn md_code_block() -> (r: Style)
        ensures
            r == fg_only(Color::Yellow),
    {
        solid(Color::Yellow)
    }

    pub fn md_code_inline() -> (r: Style)
        ensures
            r == fg_bold(Color::Cyan),
    {
        solid_bold(Color::Cyan)
    }
}

} // verus!
