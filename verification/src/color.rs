//! Color values: concrete sRGB triples and abstract style colors.

use vstd::prelude::*;
use crate::geom::ALPHA_ONE;

verus! {

/// An opaque RGB color with eight-bit sRGB channels.
#[derive(Debug, Clone, Copy, PartialEq, Eq, Structural)]
pub struct Rgb {
    pub r: u8,
    pub g: u8,
    pub b: u8,
}

impl Rgb {
    /// Build a color from its three channels.
    pub fn new(r: u8, g: u8, b: u8) -> (c: Rgb)
        ensures
            c == (Rgb { r, g, b }),
    {
        Rgb { r, g, b }
    }
}

/// An sRGB color with an alpha value in millionths.
#[derive(Debug, Clone, Copy, PartialEq, Eq, Structural)]
pub struct Rgba {
    pub r: u8,
    pub g: u8,
    pub b: u8,
    /// Alpha in millionths of full opacity.
    pub alpha_ppm: i64,
}

impl Rgba {
    /// The alpha value lies inside `[0, 1]`.
    pub open spec fn wf(self) -> bool {
        0 <= self.alpha_ppm <= ALPHA_ONE
    }

    /// The color channels without the alpha value.
    pub open spec fn spec_rgb(self) -> Rgb {
        Rgb { r: self.r, g: self.g, b: self.b }
    }

    /// Extract the color channels without the alpha value.
    pub fn rgb(&self) -> (c: Rgb)
        ensures
            c == self.spec_rgb(),
    {
        Rgb { r: self.r, g: self.g, b: self.b }
    }

    /// Build a color from channels and an alpha value.
    pub fn new(r: u8, g: u8, b: u8, alpha_ppm: i64) -> (c: Rgba)
        ensures
            c == (Rgba { r, g, b, alpha_ppm }),
    {
        Rgba { r, g, b, alpha_ppm }
    }
}

/// Opaque black: the fallback when no color can be resolved.
pub open spec fn spec_opaque_black() -> Rgba {
    Rgba { r: 0, g: 0, b: 0, alpha_ppm: ALPHA_ONE }
}

/// Build opaque black.
pub fn opaque_black() -> (c: Rgba)
    ensures
        c == spec_opaque_black(),
{
    Rgba { r: 0, g: 0, b: 0, alpha_ppm: ALPHA_ONE }
}

/// An abstract color as it appears in computed style data.
#[derive(Debug, Clone, Copy, PartialEq, Eq, Structural)]
pub enum CssColor {
    /// A fully resolved sRGB value.
    Absolute(Rgba),
    /// The `currentcolor` keyword: use the inherited text color.
    CurrentColor,
    /// A value that mixes other colors; it carries the sRGB value the style
    /// system resolved it to against the node's inherited text color.
    Complex(Rgba),
}

impl CssColor {
    /// The alpha value of every carried color lies inside `[0, 1]`.
    pub open spec fn wf(self) -> bool {
        match self {
            CssColor::Absolute(c) => c.wf(),
            CssColor::CurrentColor => true,
            CssColor::Complex(c) => c.wf(),
        }
    }
}

/// What an abstract color denotes given the current (inherited text) color.
pub open spec fn spec_resolve_color(c: CssColor, current: Rgba) -> Rgba {
    match c {
        CssColor::Absolute(a) => a,
        CssColor::CurrentColor => current,
        CssColor::Complex(a) => a,
    }
}

/// Resolve an abstract color against the current color.
pub fn resolve_color(c: &CssColor, current: Rgba) -> (r: Rgba)
    ensures
        r == spec_resolve_color(*c, current),
{
    match c {
        CssColor::Absolute(a) => *a,
        CssColor::CurrentColor => current,
        CssColor::Complex(a) => *a,
    }
}

/// What a background color denotes, with no current color available:
/// `currentcolor` falls back to opaque black, and complex values are not
/// drawn at all.
pub open spec fn spec_extract_color(c: CssColor) -> Option<Rgba> {
    match c {
        CssColor::Absolute(a) => Some(a),
        CssColor::CurrentColor => Some(spec_opaque_black()),
        CssColor::Complex(_) => None,
    }
}

/// Extract a background color value.
pub fn extract_color(c: &CssColor) -> (r: Option<Rgba>)
    ensures
        r == spec_extract_color(*c),
{
    match c {
        CssColor::Absolute(a) => Some(*a),
        CssColor::CurrentColor => Some(opaque_black()),
        CssColor::Complex(_) => None,
    }
}

} // verus!
