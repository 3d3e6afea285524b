//! A verified paint pipeline for rendering laid-out documents to vector and
//! raster output.
//!
//! The library walks a styled, laid-out document tree in paint order and
//! emits a flat list of drawing commands: backgrounds, linear gradients, box
//! shadows, borders, rounded-corner clip scopes and positioned glyph runs.
//! All geometry is held in fixed-point integer units (thousandths of a CSS
//! pixel, millionths for color and alpha values), so every step of the
//! pipeline is specified and proved exactly.
//!
//! The surrounding, unverified shell is expected to parse and lay out the
//! input document, translate it into [`doc::Document`], and replay the
//! emitted [`scene::DrawCmd`] list onto a concrete vector or raster surface.

mod config;
mod error;
pub mod border;
pub mod color;
pub mod doc;
pub mod geom;
pub mod gradient;
pub mod paint;
pub mod path;
pub mod render;
pub mod scene;
pub mod shadow;
pub mod text;
pub mod walk;

pub use config::{ColorScheme, Config, OutputFormat, Scale};
pub use error::Error;
