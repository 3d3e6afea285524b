//! Error values reported by the rendering pipeline.

use vstd::prelude::*;
use vstd::string::StringExecFns;

verus! {

/// Errors that can occur while rendering a document.
///
/// Per-node anomalies (zero-size boxes, transparent paints, empty gradients)
/// are absorbed during painting and never surface here; these variants cover
/// the fatal, whole-render failures only.
#[derive(Debug)]
pub enum Error {
    /// The requested output format was not enabled at build time.
    FormatNotEnabled(String),
    /// Failed to render to PNG format.
    PngRender(String),
    /// Failed to render to PDF format.
    PdfRender(String),
    /// Failed to encode a pixel buffer as PNG.
    PngEncode(String),
    /// Failed to create the PDF document.
    PdfCreate(String),
    /// Layout computation failed or produced an unusable tree.
    Layout(String),
    /// Font loading or embedding failed.
    Font(String),
    /// An I/O error occurred.
    Io(String),
    /// The rendering configuration was rejected by validation.
    InvalidConfig(String),
}

impl Error {
    /// A human-readable description of the error, prefixed by its kind.
    pub fn message(&self) -> String {
        match self {
            Error::FormatNotEnabled(s) => "output format is not enabled: ".to_owned().concat(
                s.as_str(),
            ),
            Error::PngRender(s) => "PNG rendering failed: ".to_owned().concat(s.as_str()),
            Error::PdfRender(s) => "PDF rendering failed: ".to_owned().concat(s.as_str()),
            Error::PngEncode(s) => "PNG encoding failed: ".to_owned().concat(s.as_str()),
            Error::PdfCreate(s) => "PDF creation failed: ".to_owned().concat(s.as_str()),
            Error::Layout(s) => "layout computation failed: ".to_owned().concat(s.as_str()),
            Error::Font(s) => "font error: ".to_owned().concat(s.as_str()),
            Error::Io(s) => "I/O error: ".to_owned().concat(s.as_str()),
            Error::InvalidConfig(s) => "invalid config: ".to_owned().concat(s.as_str()),
        }
    }
}

} // verus!
