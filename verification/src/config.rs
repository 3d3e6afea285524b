//! Configuration types for rendering.

use vstd::prelude::*;
use crate::error::Error;

verus! {

/// Output format for rendered content.
#[derive(Debug, Clone, Copy, PartialEq, Eq, Structural, Default)]
pub enum OutputFormat {
    /// PNG image format (raster).
    #[default]
    Png,
    /// PDF document format (vector).
    Pdf,
}

impl OutputFormat {
    /// The lower-case name of the format, in place of `Display`.
    pub fn name(&self) -> (r: String)
        ensures
            *self is Png ==> r@ == "png"@,
            *self is Pdf ==> r@ == "pdf"@,
    {
        match self {
            OutputFormat::Png => "png".to_owned(),
            OutputFormat::Pdf => "pdf".to_owned(),
        }
    }
}

/// Color scheme preference for rendering.
#[derive(Debug, Clone, Copy, PartialEq, Eq, Structural, Default)]
pub enum ColorScheme {
    /// Light color scheme.
    #[default]
    Light,
    /// Dark color scheme.
    Dark,
}

/// A render scale factor, held as a fixed-point number.
///
/// A scale is one millionth of `micro`, so `micro == 1_000_000` is a factor
/// of one. `finite` records whether the requested factor was a finite number
/// at all; a non-finite request can be carried (and rejected by validation)
/// without ever holding a floating-point value here.
#[derive(Debug, Clone, Copy, PartialEq, Eq, Structural)]
pub struct Scale {
    /// Whether the requested factor is a finite number.
    pub finite: bool,
    /// The factor in millionths; `1_000_000` is a factor of one.
    pub micro: i64,
}

impl Scale {
    /// A scale factor of exactly one.
    pub fn one() -> (r: Scale)
        ensures
            r.finite,
            r.micro == 1_000_000,
    {
        Scale { finite: true, micro: 1_000_000 }
    }

    /// A finite scale factor of `micro` millionths.
    pub fn from_micro(micro: i64) -> (r: Scale)
        ensures
            r.finite,
            r.micro == micro,
    {
        Scale { finite: true, micro }
    }

    /// A non-finite scale request (infinity or not-a-number).
    pub fn not_finite() -> (r: Scale)
        ensures
            !r.finite,
            r.micro == 0,
    {
        Scale { finite: false, micro: 0 }
    }

    /// A scale is usable when it is a finite, strictly positive factor.
    pub open spec fn is_valid(self) -> bool {
        self.finite && self.micro > 0
    }
}

/// Configuration for rendering.
///
/// Built with chained calls; each call returns the updated configuration.
#[derive(Debug, Clone)]
pub struct Config {
    /// Width of the viewport in pixels.
    pub width: u32,
    /// Height of the viewport in pixels.
    ///
    /// For PDF output this may be replaced by the content height when
    /// `auto_height` is enabled.
    pub height: u32,
    /// Scale factor for rendering (for example two for retina displays).
    pub scale: Scale,
    /// Output format (PNG or PDF).
    pub format: OutputFormat,
    /// Color scheme preference (light or dark mode).
    pub color_scheme: ColorScheme,
    /// Whether to take the page height from the laid-out content instead of
    /// the configured height.
    pub auto_height: bool,
    /// Background color as RGBA (default: opaque white).
    pub background: [u8; 4],
}

impl Default for Config {
    /// The default configuration: 800 by 600 pixels, scale one, PNG output,
    /// light color scheme, fixed height, white background.
    fn default() -> (r: Config)
        ensures
            r.width == 800,
            r.height == 600,
            r.scale == (Scale { finite: true, micro: 1_000_000 }),
            r.format is Png,
            r.color_scheme is Light,
            !r.auto_height,
            r.background == [255u8, 255u8, 255u8, 255u8],
    {
        Config {
            width: 800,
            height: 600,
            scale: Scale::one(),
            format: OutputFormat::Png,
            color_scheme: ColorScheme::Light,
            auto_height: false,
            background: [255, 255, 255, 255],
        }
    }
}

impl Config {
    /// Whether the configuration may be rendered: positive dimensions and a
    /// finite, positive scale factor.
    pub open spec fn is_valid(self) -> bool {
        self.width > 0 && self.height > 0 && self.scale.is_valid()
    }

    /// Create a new configuration with the default values.
    pub fn new() -> (r: Config)
        ensures
            r.width == 800,
            r.height == 600,
            r.scale == (Scale { finite: true, micro: 1_000_000 }),
            r.format is Png,
            r.color_scheme is Light,
            !r.auto_height,
            r.background == [255u8, 255u8, 255u8, 255u8],
    {
        Config::default()
    }

    /// Set the viewport width in pixels.
    pub fn width(self, width: u32) -> (r: Config)
        ensures
            r == (Config { width, ..self }),
    {
        Config { width, ..self }
    }

    /// Set the viewport height in pixels.
    pub fn height(self, height: u32) -> (r: Config)
        ensures
            r == (Config { height, ..self }),
    {
        Config { height, ..self }
    }

    /// Set both width and height at once.
    pub fn size(self, width: u32, height: u32) -> (r: Config)
        ensures
            r == (Config { width, height, ..self }),
    {
        Config { width, height, ..self }
    }

    /// Set the scale factor for rendering.
    pub fn scale(self, scale: Scale) -> (r: Config)
        ensures
            r == (Config { scale, ..self }),
    {
        Config { scale, ..self }
    }

    /// Set the output format.
    pub fn format(self, format: OutputFormat) -> (r: Config)
        ensures
            r == (Config { format, ..self }),
    {
        Config { format, ..self }
    }

    /// Set the color scheme preference.
    pub fn color_scheme(self, color_scheme: ColorScheme) -> (r: Config)
        ensures
            r == (Config { color_scheme, ..self }),
    {
        Config { color_scheme, ..self }
    }

    /// Enable or disable automatic height detection.
    pub fn auto_height(self, auto_height: bool) -> (r: Config)
        ensures
            r == (Config { auto_height, ..self }),
    {
        Config { auto_height, ..self }
    }

    /// Set the background color as RGBA values.
    pub fn background(self, background: [u8; 4]) -> (r: Config)
        ensures
            r == (Config { background, ..self }),
    {
        Config { background, ..self }
    }

    /// Set a fully transparent background.
    pub fn transparent(self) -> (r: Config)
        ensures
            r == (Config { background: [0u8, 0u8, 0u8, 0u8], ..self }),
    {
        self.background([0, 0, 0, 0])
    }

    /// Check that the configuration can be rendered.
    ///
    /// Fails exactly when the width or height is zero, or the scale factor is
    /// not a finite, strictly positive number; rendering must be refused
    /// before any drawing occurs in those cases.
    pub fn validate(&self) -> (r: Result<(), Error>)
        ensures
            r is Ok <==> self.is_valid(),
            r is Err ==> r->Err_0 is InvalidConfig,
    {
        if self.width == 0 {
            Err(Error::InvalidConfig("width must be greater than zero".to_owned()))
        } else if self.height == 0 {
            Err(Error::InvalidConfig("height must be greater than zero".to_owned()))
        } else if !self.scale.finite {
            Err(Error::InvalidConfig("scale must be a finite number".to_owned()))
        } else if self.scale.micro <= 0 {
            Err(Error::InvalidConfig("scale must be greater than zero".to_owned()))
        } else {
            Ok(())
        }
    }
}

} // verus!
