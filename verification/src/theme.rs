//! Light / dark display theme.

use vstd::prelude::*;

verus! {

/// Display theme. Drives the foreground / background palette of the
/// themable widgets.
#[derive(Clone, Copy, Debug, PartialEq, Eq, Structural)]
pub enum Theme {
    /// Dark mode: light text on dark backgrounds. Default.
    Dark,
    /// Light mode: dark text on light backgrounds.
    Light,
}

impl Theme {
    /// `Theme::Dark` if `dark` is `true`, otherwise `Theme::Light`.
    pub fn from_dark(dark: bool) -> (t: Theme)
        ensures
            t == (if dark { Theme::Dark } else { Theme::Light }),
    {
        if dark {
            Theme::Dark
        } else {
            Theme::Light
        }
    }

    /// Whether this is the dark variant.
    pub fn is_dark(self) -> (b: bool)
        ensures
            b <==> self == Theme::Dark,
    {
        match self {
            Theme::Dark => true,
            Theme::Light => false,
        }
    }
}

/// An opaque sRGB colour, one byte per channel.
#[derive(Clone, Copy, Debug, PartialEq, Eq, Structural)]
pub struct Rgb8 {
    /// Red.
    pub r: u8,
    /// Green.
    pub g: u8,
    /// Blue.
    pub b: u8,
}

/// The colour with the given channels.
pub open spec fn rgb(r: u8, g: u8, b: u8) -> Rgb8 {
    Rgb8 { r, g, b }
}

/// The colour of a palette entry: `dark` in the dark theme, `light` in the
/// light one.
pub open spec fn themed(t: Theme, dark: Rgb8, light: Rgb8) -> Rgb8 {
    if t == Theme::Dark { dark } else { light }
}

/// The page / form chrome background of theme `t`.
pub open spec fn bg_of(t: Theme) -> Rgb8 {
    themed(t, rgb(0x22, 0x20, 0x1D), rgb(0xE8, 0xE6, 0xE0))
}

/// The section panel background of theme `t`.
pub open spec fn section_bg_of(t: Theme) -> Rgb8 {
    themed(t, rgb(0x2A, 0x28, 0x25), rgb(0xF2, 0xF0, 0xEA))
}

/// The outer page background of theme `t`.
pub open spec fn page_bg_of(t: Theme) -> Rgb8 {
    themed(t, rgb(0x23, 0x21, 0x1E), rgb(0xEE, 0xEC, 0xE6))
}

/// The navigation background of theme `t`.
pub open spec fn nav_bg_of(t: Theme) -> Rgb8 {
    themed(t, rgb(0x2D, 0x2B, 0x28), rgb(0xE0, 0xDD, 0xD5))
}

/// The hover background of theme `t`.
pub open spec fn hover_bg_of(t: Theme) -> Rgb8 {
    themed(t, rgb(0x37, 0x34, 0x30), rgb(0xD2, 0xCF, 0xC6))
}

/// The active / selected background of theme `t`.
pub open spec fn active_bg_of(t: Theme) -> Rgb8 {
    themed(t, rgb(0x41, 0x3E, 0x3A), rgb(0xC4, 0xC0, 0xB6))
}

/// The primary text colour of theme `t`.
pub open spec fn text_of(t: Theme) -> Rgb8 {
    themed(t, rgb(0xDC, 0xDA, 0xD6), rgb(0x14, 0x14, 0x14))
}

/// The secondary text colour of theme `t`.
pub open spec fn text_secondary_of(t: Theme) -> Rgb8 {
    themed(t, rgb(0xA0, 0x9C, 0x96), rgb(0x55, 0x55, 0x55))
}

impl Theme {
    /// Page / form chrome background.
    pub fn bg(self) -> (c: Rgb8)
        ensures
            c == bg_of(self),
    {
        match self {
            Theme::Dark => Rgb8 { r: 0x22, g: 0x20, b: 0x1D },
            Theme::Light => Rgb8 { r: 0xE8, g: 0xE6, b: 0xE0 },
        }
    }

    /// Surface one level above [`Theme::bg`]: section panels and grouped
    /// controls.
    pub fn section_bg(self) -> (c: Rgb8)
        ensures
            c == section_bg_of(self),
    {
        match self {
            Theme::Dark => Rgb8 { r: 0x2A, g: 0x28, b: 0x25 },
            Theme::Light => Rgb8 { r: 0xF2, g: 0xF0, b: 0xEA },
        }
    }

    /// Outer page background.
    pub fn page_bg(self) -> (c: Rgb8)
        ensures
            c == page_bg_of(self),
    {
        match self {
            Theme::Dark => Rgb8 { r: 0x23, g: 0x21, b: 0x1E },
            Theme::Light => Rgb8 { r: 0xEE, g: 0xEC, b: 0xE6 },
        }
    }

    /// Sidebar / navigation background.
    pub fn nav_bg(self) -> (c: Rgb8)
        ensures
            c == nav_bg_of(self),
    {
        match self {
            Theme::Dark => Rgb8 { r: 0x2D, g: 0x2B, b: 0x28 },
            Theme::Light => Rgb8 { r: 0xE0, g: 0xDD, b: 0xD5 },
        }
    }

    /// Hover background for clickable rows.
    pub fn hover_bg(self) -> (c: Rgb8)
        ensures
            c == hover_bg_of(self),
    {
        match self {
            Theme::Dark => Rgb8 { r: 0x37, g: 0x34, b: 0x30 },
            Theme::Light => Rgb8 { r: 0xD2, g: 0xCF, b: 0xC6 },
        }
    }

    /// Active / selected background for navigation rows and lists.
    pub fn active_bg(self) -> (c: Rgb8)
        ensures
            c == active_bg_of(self),
    {
        match self {
            Theme::Dark => Rgb8 { r: 0x41, g: 0x3E, b: 0x3A },
            Theme::Light => Rgb8 { r: 0xC4, g: 0xC0, b: 0xB6 },
        }
    }

    /// Primary text colour; reads on `bg`, `section_bg` and `nav_bg`.
    pub fn text(self) -> (c: Rgb8)
        ensures
            c == text_of(self),
    {
        match self {
            Theme::Dark => Rgb8 { r: 0xDC, g: 0xDA, b: 0xD6 },
            Theme::Light => Rgb8 { r: 0x14, g: 0x14, b: 0x14 },
        }
    }

    /// Muted secondary text: captions and de-emphasised labels.
    pub fn text_secondary(self) -> (c: Rgb8)
        ensures
            c == text_secondary_of(self),
    {
        match self {
            Theme::Dark => Rgb8 { r: 0xA0, g: 0x9C, b: 0x96 },
            Theme::Light => Rgb8 { r: 0x55, g: 0x55, b: 0x55 },
        }
    }
}

impl Default for Theme {
    fn default() -> (t: Theme)
        ensures
            t == Theme::Dark,
    {
        Theme::Dark
    }
}

/// Choosing a theme from a dark-mode flag and asking whether it is dark
/// gives the flag back; and every theme is the one chosen from its own
/// dark-mode flag.
pub proof fn lemma_theme_round_trip(dark: bool, t: Theme)
    ensures
        (if dark { Theme::Dark } else { Theme::Light } == Theme::Dark) == dark,
        t == (if t == Theme::Dark { Theme::Dark } else { Theme::Light }),
{
}

/// Every channel of `a` is brighter than the same channel of `b`.
pub open spec fn lighter(a: Rgb8, b: Rgb8) -> bool {
    a.r > b.r && a.g > b.g && a.b > b.b
}

/// The dark theme sets light text on dark backgrounds and the light theme
/// dark text on light backgrounds: both text colours are, channel by
/// channel, lighter than every background in the dark theme and darker
/// than every background in the light theme.
pub proof fn lemma_text_contrasts_backgrounds(t: Theme, text: Rgb8, background: Rgb8)
    requires
        text == text_of(t) || text == text_secondary_of(t),
        background == bg_of(t) || background == section_bg_of(t) || background == page_bg_of(t)
            || background == nav_bg_of(t),
    ensures
        t == Theme::Dark ==> lighter(text, background),
        t == Theme::Light ==> lighter(background, text),
{
}

} // verus!
