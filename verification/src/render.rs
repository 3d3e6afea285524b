//! The page assembler: opens a page of computed dimensions, draws the page
//! background, drives the tree walker, and hands the finished command list
//! (plus the font identities the render resolved) to the backend. Also the
//! PNG encoding step of the raster pipeline.

use vstd::prelude::*;
use crate::color::Rgb;
use crate::config::Config;
use crate::doc::Document;
use crate::error::Error;
use crate::geom::{COORD_LIMIT, PX};
use crate::paint::{draw_rect, spec_draw_rect_cmds};
use crate::scene::{Canvas, CmdModel};
use crate::text::FontCache;
use crate::walk::{render_node, spec_node_cmds, spec_offset_ok};

verus! {

/// A fully rendered page: its dimensions in thousandths of a pixel, the
/// drawing commands in order, and the font identity behind each font
/// handle the commands reference.
#[derive(Debug)]
pub struct RenderedPage {
    /// Page width in thousandths of a pixel.
    pub width: i64,
    /// Page height in thousandths of a pixel.
    pub height: i64,
    /// The recorded drawing commands.
    pub canvas: Canvas,
    /// The font identity behind each handle; a glyph-run command's `handle`
    /// indexes this list.
    pub font_ids: Vec<u64>,
}

/// The page width a configuration asks for, in thousandths of a pixel.
pub open spec fn spec_page_width(config: Config) -> int {
    config.width * PX
}

/// The page height a render uses: the root element's laid-out height when
/// automatic height is enabled, the configured height otherwise.
pub open spec fn spec_page_height(doc: Document, config: Config) -> int {
    if config.auto_height {
        doc.nodes@[doc.root as int].height as int
    } else {
        config.height * PX
    }
}

/// The laid-out content height: the root element's resolved height.
pub fn get_content_height(doc: &Document) -> (h: i64)
    requires
        doc.wf(),
    ensures
        h == doc.nodes@[doc.root as int].height,
{
    doc.nodes[doc.root].height
}

/// The commands and font identities of a whole render: the page background
/// in the configured color (its alpha is not used by the vector backend),
/// then the root node's subtree.
pub open spec fn spec_render_cmds(doc: Document, config: Config) -> (Seq<CmdModel>, Seq<u64>) {
    let w = spec_page_width(config);
    let h = spec_page_height(doc, config);
    let bg = spec_draw_rect_cmds(
        0,
        0,
        w,
        h,
        Rgb { r: config.background[0], g: config.background[1], b: config.background[2] },
    );
    let pair = spec_node_cmds(doc, doc.root as int, 0, 0, Seq::<u64>::empty());
    (bg + pair.0, pair.1)
}

/// Render a document to a page of drawing commands.
///
/// Rendering is a function of the document and configuration alone: two
/// calls on the same input produce identical command lists. Rendering
/// succeeds for every well-formed document under a valid configuration
/// whose page dimensions are positive and within the coordinate range;
/// the error identifies exactly which input was unusable.
pub fn render_document(doc: &Document, config: &Config) -> (r: Result<RenderedPage, Error>)
    ensures
        r is Ok <==> config.is_valid() && doc.wf() && 0 < spec_page_width(*config) <= COORD_LIMIT
            && 0 < spec_page_height(*doc, *config) <= COORD_LIMIT,
        !config.is_valid() ==> r is Err && r->Err_0 is InvalidConfig,
        config.is_valid() && !doc.wf() ==> r is Err && r->Err_0 is Layout,
        r is Err ==> (r->Err_0 is InvalidConfig || r->Err_0 is Layout || r->Err_0 is PdfCreate),
        r is Ok ==> ({
            let page = r->Ok_0;
            &&& page.width == spec_page_width(*config)
            &&& page.height == spec_page_height(*doc, *config)
            &&& page.canvas@ == spec_render_cmds(*doc, *config).0
            &&& page.font_ids@ == spec_render_cmds(*doc, *config).1
        }),
{
    match config.validate() {
        Ok(()) => {
        },
        Err(e) => {
            return Err(e);
        },
    }
    if !doc.check_wf() {
        return Err(Error::Layout("the document tree is not well formed".to_owned()));
    }
    let width: i64 = (config.width as i64) * PX;
    let height: i64 = if config.auto_height {
        get_content_height(doc)
    } else {
        (config.height as i64) * PX
    };
    if width <= 0 || width > COORD_LIMIT || height <= 0 || height > COORD_LIMIT {
        return Err(Error::PdfCreate("invalid page dimensions".to_owned()));
    }

    let mut canvas = Canvas::new();
    let mut cache = FontCache::new();

    // Page background; the alpha component is not used here.
    let bg = Rgb { r: config.background[0], g: config.background[1], b: config.background[2] };
    draw_rect(&mut canvas, 0, 0, width, height, bg);
    let ghost bg_cmds = spec_draw_rect_cmds(
        0,
        0,
        width as int,
        height as int,
        Rgb { r: config.background[0], g: config.background[1], b: config.background[2] },
    );
    proof {
        assert(canvas@ =~= Seq::<CmdModel>::empty() + bg_cmds);
        assert(canvas@ =~= bg_cmds);
        assert(spec_offset_ok(0, doc.root as int)) by (nonlinear_arith)
            requires
                doc.root >= 0,
                COORD_LIMIT > 0,
        ;
    }

    render_node(&mut canvas, doc, doc.root, 0, 0, &mut cache);
    proof {
        let pair = spec_node_cmds(*doc, doc.root as int, 0, 0, Seq::<u64>::empty());
        assert(canvas@ =~= bg_cmds + pair.0);
    }

    Ok(RenderedPage { width, height, canvas, font_ids: cache.ids })
}

/// What the PNG encoder produces for a pixel buffer of the given
/// dimensions; the encoding depends on the buffer and dimensions alone.
pub uninterp spec fn png_bytes_of(data: Seq<u8>, width: u32, height: u32) -> Seq<u8>;

/// Relies on `png::Encoder` (RGBA, eight-bit depth, fast compression)
/// writing into a byte vector: encoding fails exactly when a dimension is
/// zero or the buffer does not hold four bytes per pixel; a successful
/// encoding begins with the eight-byte PNG signature, declares the given
/// dimensions big-endian in its IHDR chunk, and depends on the arguments
/// alone. The crate computes the expected buffer size in `usize`, so inputs
/// whose pixel count would overflow it are excluded here.
#[verifier::external_body]
fn encode_rgba_png(buffer: &[u8], width: u32, height: u32) -> (r: Result<Vec<u8>, String>)
    requires
        4 * width * height <= usize::MAX,
    ensures
        r is Ok <==> (width > 0 && height > 0 && buffer@.len() == 4 * width * height),
        r is Ok ==> r->Ok_0@ == png_bytes_of(buffer@, width, height),
        r is Ok ==> r->Ok_0@.len() >= 24 && r->Ok_0@[0] == 137u8 && r->Ok_0@[1] == 80u8
            && r->Ok_0@[2] == 78u8 && r->Ok_0@[3] == 71u8 && r->Ok_0@[4] == 13u8 && r->Ok_0@[5]
            == 10u8 && r->Ok_0@[6] == 26u8 && r->Ok_0@[7] == 10u8,
        r is Ok ==> r->Ok_0@[12] == 73u8 && r->Ok_0@[13] == 72u8 && r->Ok_0@[14] == 68u8
            && r->Ok_0@[15] == 82u8,
        r is Ok ==> r->Ok_0@[16] == (width >> 24u32) as u8 && r->Ok_0@[17] == (
        width >> 16u32) as u8 && r->Ok_0@[18] == (width >> 8u32) as u8 && r->Ok_0@[19]
            == width as u8,
        r is Ok ==> r->Ok_0@[20] == (height >> 24u32) as u8 && r->Ok_0@[21] == (
        height >> 16u32) as u8 && r->Ok_0@[22] == (height >> 8u32) as u8 && r->Ok_0@[23]
            == height as u8,
{
    let mut output = Vec::new();
    {
        let mut encoder = png::Encoder::new(&mut output, width, height);
        encoder.set_color(png::ColorType::Rgba);
        encoder.set_depth(png::BitDepth::Eight);
        encoder.set_compression(png::Compression::Fast);
        let mut writer = match encoder.write_header() {
            Ok(w) => w,
            Err(e) => return Err(e.to_string()),
        };
        if let Err(e) = writer.write_image_data(buffer) {
            return Err(e.to_string());
        }
    }
    Ok(output)
}

/// Encode an RGBA pixel buffer (four bytes per pixel, row-major) to PNG
/// bytes. Succeeds exactly when both dimensions are positive and the buffer
/// holds four bytes per pixel; the output begins with the eight-byte PNG
/// signature and its IHDR chunk declares the given dimensions big-endian.
pub fn encode_png(buffer: &[u8], width: u32, height: u32) -> (r: Result<Vec<u8>, Error>)
    ensures
        r is Ok <==> (width > 0 && height > 0 && buffer@.len() == 4 * width * height),
        r is Ok ==> r->Ok_0@ == png_bytes_of(buffer@, width, height),
        r is Ok ==> r->Ok_0@.len() >= 24 && r->Ok_0@[0] == 137u8 && r->Ok_0@[1] == 80u8
            && r->Ok_0@[2] == 78u8 && r->Ok_0@[3] == 71u8 && r->Ok_0@[4] == 13u8 && r->Ok_0@[5]
            == 10u8 && r->Ok_0@[6] == 26u8 && r->Ok_0@[7] == 10u8,
        r is Ok ==> r->Ok_0@[16] == (width >> 24u32) as u8 && r->Ok_0@[17] == (
        width >> 16u32) as u8 && r->Ok_0@[18] == (width >> 8u32) as u8 && r->Ok_0@[19]
            == width as u8,
        r is Ok ==> r->Ok_0@[20] == (height >> 24u32) as u8 && r->Ok_0@[21] == (
        height >> 16u32) as u8 && r->Ok_0@[22] == (height >> 8u32) as u8 && r->Ok_0@[23]
            == height as u8,
        r is Err ==> r->Err_0 is PngEncode,
{
    if width == 0 || height == 0 {
        return Err(Error::PngEncode("image dimensions must be positive".to_owned()));
    }
    assert(4 * (width as int) * (height as int) < 0x1_0000_0000_0000_0000_0000) by (nonlinear_arith)
        requires
            0 <= width <= 0xFFFF_FFFF,
            0 <= height <= 0xFFFF_FFFF,
    ;
    let expected: u128 = 4u128 * (width as u128) * (height as u128);
    let len: usize = buffer.len();
    if (len as u128) != expected {
        return Err(Error::PngEncode("pixel buffer does not match the dimensions".to_owned()));
    }
    proof {
        assert(buffer@.len() == len as int);
        assert(4 * width * height == len as int);
        assert(4 * width * height <= usize::MAX);
    }
    match encode_rgba_png(buffer, width, height) {
        Ok(v) => Ok(v),
        Err(m) => Err(Error::PngEncode(m)),
    }
}

/// The pixel dimensions of the raster output: the configured (or
/// content-driven) size scaled by the scale factor, truncated, saturated at
/// the pixel-type range.
pub open spec fn spec_scaled_dim(dim: u32, scale_micro: int) -> int {
    let v = dim * scale_micro / 1_000_000;
    if v > u32::MAX {
        u32::MAX as int
    } else {
        v
    }
}

/// Compute the raster output size for a configuration: each dimension is
/// multiplied by the scale factor; the height comes from the laid-out
/// content when one is given and automatic height is enabled.
pub fn png_render_size(config: &Config, content_height: Option<u32>) -> (r: (u32, u32))
    requires
        config.is_valid(),
    ensures
        r.0 == spec_scaled_dim(config.width, config.scale.micro as int),
        r.1 == spec_scaled_dim(
            if config.auto_height && content_height is Some {
                content_height->0
            } else {
                config.height
            },
            config.scale.micro as int,
        ),
{
    let height_base: u32 = if config.auto_height {
        match content_height {
            Some(h) => h,
            None => config.height,
        }
    } else {
        config.height
    };
    assert(config.width * config.scale.micro < 0x1_0000_0000_0000_0000_0000_0000_0000) by (nonlinear_arith)
        requires
            0 <= config.width <= 0xFFFF_FFFF,
            0 < config.scale.micro < 0x8000_0000_0000_0000,
    ;
    assert(height_base * config.scale.micro < 0x1_0000_0000_0000_0000_0000_0000_0000) by (nonlinear_arith)
        requires
            0 <= height_base <= 0xFFFF_FFFF,
            0 < config.scale.micro < 0x8000_0000_0000_0000,
    ;
    let rw: u128 = (config.width as u128) * (config.scale.micro as u128) / 1_000_000;
    let rh: u128 = (height_base as u128) * (config.scale.micro as u128) / 1_000_000;
    let w32: u32 = if rw > 0xFFFF_FFFF {
        u32::MAX
    } else {
        rw as u32
    };
    let h32: u32 = if rh > 0xFFFF_FFFF {
        u32::MAX
    } else {
        rh as u32
    };
    (w32, h32)
}


/// The command list of a whole render is balanced: every clip scope pushed
/// during painting is popped on the same path, and no pop closes a scope
/// the render did not open.
pub proof fn lemma_render_cmds_balanced(doc: Document, config: Config)
    ensures
        crate::scene::clip_balanced(spec_render_cmds(doc, config).0),
{
    let w = spec_page_width(config);
    let h = spec_page_height(doc, config);
    let bg = spec_draw_rect_cmds(
        0,
        0,
        w,
        h,
        Rgb { r: config.background[0], g: config.background[1], b: config.background[2] },
    );
    crate::paint::lemma_rect_cmds_fills_only(
        0,
        0,
        w,
        h,
        Rgb { r: config.background[0], g: config.background[1], b: config.background[2] },
    );
    crate::scene::lemma_fills_only_balanced(bg);
    crate::walk::lemma_node_cmds_balanced(doc, doc.root as int, 0, 0, Seq::<u64>::empty());
    crate::scene::lemma_clip_concat_balanced(
        bg,
        crate::walk::spec_node_cmds(doc, doc.root as int, 0, 0, Seq::<u64>::empty()).0,
    );
}

} // verus!
