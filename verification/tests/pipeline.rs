//! Tests for the verified paint pipeline: paths, gradients, shadows,
//! borders, text and whole-document renders.

use hyper_render::border::{
    extract_borders, BorderLineStyle, BorderWidths, BordersSpec, EdgeStyleSpec,
};
use hyper_render::color::{CssColor, Rgb, Rgba};
use hyper_render::doc::{BackgroundLayer, Document, NodeData, RadiiSpec, RadiusSpec, StyleData};
use hyper_render::geom::{BorderRadii, CornerRadius, ALPHA_ONE, PX};
use hyper_render::gradient::{convert_gradient_stops, GradientItem, LengthPercentage};
use hyper_render::path::{rect_path, rounded_rect_path, PathEl};
use hyper_render::render::{encode_png, png_render_size, render_document};
use hyper_render::scene::{Canvas, DrawCmd, PaintSpec};
use hyper_render::shadow::{draw_inset_box_shadow, draw_outset_box_shadow, BoxShadowData};
use hyper_render::text::{ClusterData, FontCache, GlyphData, GlyphRunData, LineData, LineItemData, TextLayoutData};
use hyper_render::border::draw_borders;
use hyper_render::{Config, Error, Scale};

fn zero_radii() -> BorderRadii {
    BorderRadii {
        top_left: CornerRadius { rx: 0, ry: 0 },
        top_right: CornerRadius { rx: 0, ry: 0 },
        bottom_right: CornerRadius { rx: 0, ry: 0 },
        bottom_left: CornerRadius { rx: 0, ry: 0 },
    }
}

fn no_style_node(x: i64, y: i64, w: i64, h: i64, children: Vec<usize>) -> NodeData {
    NodeData {
        x,
        y,
        width: w,
        height: h,
        border: BorderWidths { top: 0, right: 0, bottom: 0, left: 0 },
        padding: BorderWidths { top: 0, right: 0, bottom: 0, left: 0 },
        style: None,
        text_layout: None,
        paint_children: children,
    }
}

fn solid_style(r: u8, g: u8, b: u8) -> StyleData {
    StyleData {
        text_color: Rgba { r: 0, g: 0, b: 0, alpha_ppm: ALPHA_ONE },
        background_color: CssColor::Absolute(Rgba { r, g, b, alpha_ppm: ALPHA_ONE }),
        background_images: Vec::new(),
        border_radii: RadiiSpec {
            top_left: RadiusSpec {
                x: LengthPercentage { px: 0, percent_ppm: 0 },
                y: LengthPercentage { px: 0, percent_ppm: 0 },
            },
            top_right: RadiusSpec {
                x: LengthPercentage { px: 0, percent_ppm: 0 },
                y: LengthPercentage { px: 0, percent_ppm: 0 },
            },
            bottom_right: RadiusSpec {
                x: LengthPercentage { px: 0, percent_ppm: 0 },
                y: LengthPercentage { px: 0, percent_ppm: 0 },
            },
            bottom_left: RadiusSpec {
                x: LengthPercentage { px: 0, percent_ppm: 0 },
                y: LengthPercentage { px: 0, percent_ppm: 0 },
            },
        },
        borders: BordersSpec {
            top: EdgeStyleSpec { color: CssColor::CurrentColor, style: BorderLineStyle::Absent },
            right: EdgeStyleSpec { color: CssColor::CurrentColor, style: BorderLineStyle::Absent },
            bottom: EdgeStyleSpec { color: CssColor::CurrentColor, style: BorderLineStyle::Absent },
            left: EdgeStyleSpec { color: CssColor::CurrentColor, style: BorderLineStyle::Absent },
        },
        box_shadows: Vec::new(),
    }
}

fn fill_count(canvas: &Canvas) -> usize {
    canvas
        .cmds
        .iter()
        .filter(|c| matches!(c, DrawCmd::FillPath { .. }))
        .count()
}

fn fill_opacities(canvas: &Canvas) -> Vec<i64> {
    canvas
        .cmds
        .iter()
        .filter_map(|c| match c {
            DrawCmd::FillPath { opacity_ppm, .. } => Some(*opacity_ppm),
            _ => None,
        })
        .collect()
}

// Rounded-rectangle path construction: zero radii trace the plain
// rectangle.
#[test]
fn test_rounded_path_zero_radii_is_rectangle() {
    let plain = rect_path(0, 0, 100_000, 50_000);
    let rounded = rounded_rect_path(0, 0, 100_000, 50_000, &zero_radii()).unwrap();

    assert!(rounded.iter().all(|e| !matches!(e, PathEl::CubicTo { .. })));
    // Same corners in the same order; the rounded form walks back to its
    // start explicitly before closing.
    let points = |p: &Vec<PathEl>| -> Vec<(i64, i64)> {
        p.iter()
            .filter_map(|e| match e {
                PathEl::MoveTo { x, y } => Some((*x, *y)),
                PathEl::LineTo { x, y } => Some((*x, *y)),
                _ => None,
            })
            .collect()
    };
    let mut rp = points(&rounded);
    let sp = points(&plain);
    assert_eq!(rp.last(), rp.first());
    rp.pop();
    assert_eq!(rp, sp);
}

// Rounded-rectangle path construction: radii at half the smaller dimension
// stay clamped so corner arcs cannot overlap.
#[test]
fn test_rounded_path_half_dimension_radii_clamped() {
    let w = 100_000i64;
    let h = 50_000i64;
    let r = h / 2;
    let radii = BorderRadii {
        top_left: CornerRadius { rx: r, ry: r },
        top_right: CornerRadius { rx: r, ry: r },
        bottom_right: CornerRadius { rx: r, ry: r },
        bottom_left: CornerRadius { rx: r, ry: r },
    };
    let path = rounded_rect_path(0, 0, w, h, &radii).unwrap();
    assert!(path.iter().any(|e| matches!(e, PathEl::CubicTo { .. })));
    // The top edge starts after the top-left arc and stops before the
    // top-right arc: the two never overlap.
    match (&path[0], &path[1]) {
        (PathEl::MoveTo { x: x0, .. }, PathEl::LineTo { x: x1, .. }) => {
            assert!(x0 + (w - x1) <= w);
            assert_eq!(*x0, r);
            assert_eq!(*x1, w - r);
        }
        other => panic!("unexpected path start: {:?}", other),
    }
}

#[test]
fn test_degenerate_box_produces_no_path() {
    assert!(rounded_rect_path(0, 0, 0, 50_000, &zero_radii()).is_none());
    assert!(rounded_rect_path(0, 0, 100_000, -1, &zero_radii()).is_none());
}

// Gradient stop resolution: three stops without explicit positions are
// spaced at exactly 0, 1/2 and 1.
#[test]
fn test_gradient_three_even_stops() {
    let black = CssColor::Absolute(Rgba { r: 0, g: 0, b: 0, alpha_ppm: ALPHA_ONE });
    let items = vec![
        GradientItem::Simple(black),
        GradientItem::Simple(black),
        GradientItem::Simple(black),
    ];
    let current = Rgba { r: 0, g: 0, b: 0, alpha_ppm: ALPHA_ONE };
    let stops = convert_gradient_stops(&items, 100_000, current);
    assert_eq!(stops.len(), 3);
    assert_eq!(stops[0].offset_ppm, 0);
    assert_eq!(stops[1].offset_ppm, 500_000);
    assert_eq!(stops[2].offset_ppm, 1_000_000);
}

// Gradient stop resolution: an explicit 30% stop resolves to exactly 0.3,
// whatever the other stops are.
#[test]
fn test_gradient_explicit_percent_stop() {
    let black = CssColor::Absolute(Rgba { r: 0, g: 0, b: 0, alpha_ppm: ALPHA_ONE });
    let current = Rgba { r: 0, g: 0, b: 0, alpha_ppm: ALPHA_ONE };
    let explicit = GradientItem::Complex {
        color: black,
        position: LengthPercentage { px: 0, percent_ppm: 300_000 },
    };
    for extra in [0usize, 1, 4] {
        let mut items = vec![GradientItem::Simple(black); extra];
        items.push(explicit);
        let stops = convert_gradient_stops(&items, 100_000, current);
        assert_eq!(stops.last().unwrap().offset_ppm, 300_000);
    }
}

#[test]
fn test_gradient_hint_produces_no_stop() {
    let black = CssColor::Absolute(Rgba { r: 0, g: 0, b: 0, alpha_ppm: ALPHA_ONE });
    let current = Rgba { r: 0, g: 0, b: 0, alpha_ppm: ALPHA_ONE };
    let items = vec![
        GradientItem::Simple(black),
        GradientItem::InterpolationHint,
        GradientItem::Simple(black),
    ];
    let stops = convert_gradient_stops(&items, 100_000, current);
    assert_eq!(stops.len(), 2);
    assert_eq!(stops[0].offset_ppm, 0);
    assert_eq!(stops[1].offset_ppm, 1_000_000);
}

// Box shadows: no blur draws exactly one rectangle layer.
#[test]
fn test_outset_shadow_blur_zero_single_layer() {
    let mut canvas = Canvas::new();
    let sh = BoxShadowData {
        x_offset: 2 * PX,
        y_offset: 2 * PX,
        blur: 0,
        spread: 0,
        color: Rgb { r: 0, g: 0, b: 0 },
        alpha_ppm: 500_000,
        inset: false,
    };
    draw_outset_box_shadow(&mut canvas, 0, 0, 100 * PX, 100 * PX, &sh, &zero_radii());
    assert_eq!(fill_count(&canvas), 1);
}

// Box shadows: blur of nine pixels draws between two and eight layers with
// strictly decreasing alpha outward.
#[test]
fn test_outset_shadow_blur_nine_layers() {
    let mut canvas = Canvas::new();
    let sh = BoxShadowData {
        x_offset: 0,
        y_offset: 0,
        blur: 9 * PX,
        spread: 0,
        color: Rgb { r: 0, g: 0, b: 0 },
        alpha_ppm: 500_000,
        inset: false,
    };
    draw_outset_box_shadow(&mut canvas, 0, 0, 100 * PX, 100 * PX, &sh, &zero_radii());
    let opacities = fill_opacities(&canvas);
    assert!(opacities.len() >= 2 && opacities.len() <= 8);
    assert_eq!(opacities.len(), 3);
    for pair in opacities.windows(2) {
        assert!(pair[0] > pair[1], "layer alpha must strictly decrease: {:?}", opacities);
    }
}

// Inset shadows stay inside one matched clip scope.
#[test]
fn test_inset_shadow_clip_scope_balanced() {
    let mut canvas = Canvas::new();
    let sh = BoxShadowData {
        x_offset: 3 * PX,
        y_offset: 3 * PX,
        blur: 6 * PX,
        spread: 0,
        color: Rgb { r: 0, g: 0, b: 0 },
        alpha_ppm: 500_000,
        inset: true,
    };
    draw_inset_box_shadow(&mut canvas, 0, 0, 100 * PX, 100 * PX, &sh, &zero_radii());
    let pushes = canvas
        .cmds
        .iter()
        .filter(|c| matches!(c, DrawCmd::PushClip { .. }))
        .count();
    let pops = canvas
        .cmds
        .iter()
        .filter(|c| matches!(c, DrawCmd::PopClip))
        .count();
    assert_eq!(pushes, 1);
    assert_eq!(pops, 1);
    assert!(matches!(canvas.cmds.first(), Some(DrawCmd::PushClip { .. })));
    assert!(matches!(canvas.cmds.last(), Some(DrawCmd::PopClip)));
    assert!(fill_count(&canvas) > 0);
}

fn borders_spec_all_solid() -> BordersSpec {
    let red = CssColor::Absolute(Rgba { r: 255, g: 0, b: 0, alpha_ppm: ALPHA_ONE });
    BordersSpec {
        top: EdgeStyleSpec { color: red, style: BorderLineStyle::Solid },
        right: EdgeStyleSpec { color: red, style: BorderLineStyle::Solid },
        bottom: EdgeStyleSpec { color: red, style: BorderLineStyle::Solid },
        left: EdgeStyleSpec { color: red, style: BorderLineStyle::Solid },
    }
}

// Border edges: a zero width or a `none` style suppresses exactly that
// edge's quadrilateral.
#[test]
fn test_border_zero_width_suppresses_edge() {
    let current = Rgba { r: 0, g: 0, b: 0, alpha_ppm: ALPHA_ONE };
    let widths = BorderWidths { top: 0, right: PX, bottom: PX, left: PX };
    let borders = extract_borders(&borders_spec_all_solid(), widths, current);
    assert!(!borders.top.visible);
    assert!(borders.right.visible && borders.bottom.visible && borders.left.visible);

    let mut canvas = Canvas::new();
    draw_borders(&mut canvas, 0, 0, 100 * PX, 100 * PX, &borders);
    assert_eq!(fill_count(&canvas), 3);
}

#[test]
fn test_border_none_style_suppresses_edge() {
    let current = Rgba { r: 0, g: 0, b: 0, alpha_ppm: ALPHA_ONE };
    let mut spec = borders_spec_all_solid();
    spec.left.style = BorderLineStyle::Absent;
    let widths = BorderWidths { top: PX, right: PX, bottom: PX, left: PX };
    let borders = extract_borders(&spec, widths, current);
    assert!(!borders.left.visible);

    let mut canvas = Canvas::new();
    draw_borders(&mut canvas, 0, 0, 100 * PX, 100 * PX, &borders);
    assert_eq!(fill_count(&canvas), 3);
}

#[test]
fn test_border_hidden_style_suppresses_edge() {
    let current = Rgba { r: 0, g: 0, b: 0, alpha_ppm: ALPHA_ONE };
    let mut spec = borders_spec_all_solid();
    spec.bottom.style = BorderLineStyle::Hidden;
    let widths = BorderWidths { top: PX, right: PX, bottom: PX, left: PX };
    let borders = extract_borders(&spec, widths, current);
    assert!(!borders.bottom.visible);

    let mut canvas = Canvas::new();
    draw_borders(&mut canvas, 0, 0, 100 * PX, 100 * PX, &borders);
    assert_eq!(fill_count(&canvas), 3);
}

// A blue 100 by 100 box nested in a red body: the render draws the red
// body rectangle, then the blue box rectangle at its absolute position.
#[test]
fn test_nested_box_backgrounds() {
    let mut body = no_style_node(0, 0, 800 * PX, 600 * PX, vec![1]);
    body.style = Some(solid_style(255, 0, 0));
    let mut child = no_style_node(10 * PX, 20 * PX, 100 * PX, 100 * PX, vec![]);
    child.style = Some(solid_style(0, 0, 255));
    let doc = Document { nodes: vec![body, child], root: 0 };
    let config = Config::new();

    let page = render_document(&doc, &config).expect("render should succeed");
    let fills: Vec<&DrawCmd> = page
        .canvas
        .cmds
        .iter()
        .filter(|c| matches!(c, DrawCmd::FillPath { .. }))
        .collect();
    // Page background, body background, child background, in that order.
    assert_eq!(fills.len(), 3);
    match fills[1] {
        DrawCmd::FillPath { paint: PaintSpec::Solid(c), .. } => {
            assert_eq!(*c, Rgb { r: 255, g: 0, b: 0 });
        }
        other => panic!("unexpected command: {:?}", other),
    }
    match fills[2] {
        DrawCmd::FillPath { path, paint: PaintSpec::Solid(c), .. } => {
            assert_eq!(*c, Rgb { r: 0, g: 0, b: 255 });
            assert_eq!(
                path[0],
                PathEl::MoveTo { x: 10 * PX, y: 20 * PX },
            );
            assert_eq!(
                path[2],
                PathEl::LineTo { x: 110 * PX, y: 120 * PX },
            );
        }
        other => panic!("unexpected command: {:?}", other),
    }
}

fn hello_text_layout() -> TextLayoutData {
    let text: Vec<u8> = b"Hello, World!".to_vec();
    let glyphs: Vec<GlyphData> = (0..13)
        .map(|i| GlyphData { id: 40 + i as u32, advance: 8 * PX, x: 0, y: 0 })
        .collect();
    let cluster = ClusterData {
        ligature_continuation: false,
        range_start: 0,
        range_end: text.len(),
        glyphs,
    };
    let run = GlyphRunData {
        font_id: 7,
        font_index: 0,
        font_size: 16 * PX,
        style_node: 0,
        offset: 0,
        baseline: 12 * PX,
        clusters: vec![cluster],
    };
    TextLayoutData {
        text,
        lines: vec![LineData { items: vec![LineItemData::Run(run)] }],
    }
}

// A paragraph's shaped text survives the render: the glyph-run command
// carries the full text and one glyph per character.
#[test]
fn test_text_run_rendered() {
    let mut node = no_style_node(0, 0, 800 * PX, 600 * PX, vec![]);
    node.text_layout = Some(hello_text_layout());
    let doc = Document { nodes: vec![node], root: 0 };
    let config = Config::new().width(800).height(600);

    let page = render_document(&doc, &config).expect("render should succeed");
    let runs: Vec<&DrawCmd> = page
        .canvas
        .cmds
        .iter()
        .filter(|c| matches!(c, DrawCmd::GlyphRun { .. }))
        .collect();
    assert_eq!(runs.len(), 1);
    match runs[0] {
        DrawCmd::GlyphRun { text, glyphs, y, font_id, .. } => {
            assert_eq!(text.as_slice(), b"Hello, World!");
            assert_eq!(glyphs.len(), 13);
            assert_eq!(*y, 12 * PX);
            assert_eq!(*font_id, 7);
        }
        other => panic!("unexpected command: {:?}", other),
    }
}

// Ligature continuations extend the previous glyph's range instead of
// adding glyphs.
#[test]
fn test_ligature_continuation_extends_range() {
    let mut tl = hello_text_layout();
    if let LineItemData::Run(run) = &mut tl.lines[0].items[0] {
        run.clusters = vec![
            ClusterData {
                ligature_continuation: false,
                range_start: 0,
                range_end: 2,
                glyphs: vec![GlyphData { id: 1, advance: 8 * PX, x: 0, y: 0 }],
            },
            ClusterData {
                ligature_continuation: true,
                range_start: 2,
                range_end: 4,
                glyphs: vec![],
            },
        ];
    }
    let mut node = no_style_node(0, 0, 800 * PX, 600 * PX, vec![]);
    node.text_layout = Some(tl);
    let doc = Document { nodes: vec![node], root: 0 };
    let page = render_document(&doc, &Config::new()).expect("render should succeed");
    let run = page
        .canvas
        .cmds
        .iter()
        .find(|c| matches!(c, DrawCmd::GlyphRun { .. }))
        .unwrap();
    match run {
        DrawCmd::GlyphRun { glyphs, .. } => {
            assert_eq!(glyphs.len(), 1);
            assert_eq!(glyphs[0].range_start, 0);
            assert_eq!(glyphs[0].range_end, 4);
        }
        _ => unreachable!(),
    }
}

// Rendering the same document and configuration twice produces identical
// command lists.
#[test]
fn test_render_deterministic() {
    let mut body = no_style_node(0, 0, 400 * PX, 300 * PX, vec![1]);
    body.style = Some(solid_style(10, 20, 30));
    let mut child = no_style_node(5 * PX, 5 * PX, 50 * PX, 40 * PX, vec![]);
    child.style = Some(solid_style(200, 100, 0));
    child.text_layout = Some(hello_text_layout());
    let doc = Document { nodes: vec![body, child], root: 0 };
    let config = Config::new().width(400).height(300);

    let page1 = render_document(&doc, &config).expect("first render");
    let page2 = render_document(&doc, &config).expect("second render");
    assert_eq!(page1.canvas.cmds, page2.canvas.cmds);
    assert_eq!(page1.font_ids, page2.font_ids);
    assert_eq!(page1.width, page2.width);
    assert_eq!(page1.height, page2.height);
}

// Rendering succeeds for every well-formed document, including an empty
// one.
#[test]
fn test_render_empty_document() {
    let doc = Document { nodes: vec![no_style_node(0, 0, 800 * PX, 600 * PX, vec![])], root: 0 };
    let page = render_document(&doc, &Config::new()).expect("render should succeed");
    // The page background is always drawn.
    assert_eq!(fill_count(&page.canvas), 1);
}

#[test]
fn test_render_rejects_invalid_config() {
    let doc = Document { nodes: vec![no_style_node(0, 0, PX, PX, vec![])], root: 0 };
    let err = render_document(&doc, &Config::new().width(0)).unwrap_err();
    assert!(matches!(err, Error::InvalidConfig(_)));
    let err = render_document(&doc, &Config::new().scale(Scale::not_finite())).unwrap_err();
    assert!(matches!(err, Error::InvalidConfig(_)));
}

#[test]
fn test_render_rejects_malformed_tree() {
    // A child pointing backward breaks the paint order.
    let node = no_style_node(0, 0, PX, PX, vec![0]);
    let doc = Document { nodes: vec![node], root: 0 };
    let err = render_document(&doc, &Config::new()).unwrap_err();
    assert!(matches!(err, Error::Layout(_)));
}

#[test]
fn test_render_auto_height_uses_content() {
    let doc = Document { nodes: vec![no_style_node(0, 0, 400 * PX, 1000 * PX, vec![])], root: 0 };
    let config = Config::new().width(400).height(100).auto_height(true);
    let page = render_document(&doc, &config).expect("render should succeed");
    assert_eq!(page.height, 1000 * PX);
}

#[test]
fn test_render_auto_height_zero_content_fails() {
    let doc = Document { nodes: vec![no_style_node(0, 0, 400 * PX, 0, vec![])], root: 0 };
    let config = Config::new().width(400).height(100).auto_height(true);
    let err = render_document(&doc, &config).unwrap_err();
    assert!(matches!(err, Error::PdfCreate(_)));
}

// A zero-size box draws nothing itself but its children still render.
#[test]
fn test_zero_size_box_still_visits_children() {
    let parent = no_style_node(0, 0, 0, 0, vec![1]);
    let mut child = no_style_node(0, 0, 10 * PX, 10 * PX, vec![]);
    child.style = Some(solid_style(1, 2, 3));
    let mut root = no_style_node(0, 0, 100 * PX, 100 * PX, vec![1]);
    root.width = 0;
    root.paint_children = vec![1];
    let doc = Document { nodes: vec![root, child], root: 0 };
    let page = render_document(&doc, &Config::new()).expect("render should succeed");
    // Page background plus the child's fill.
    assert_eq!(fill_count(&page.canvas), 2);
}

// Font cache reuse: two runs over the same font blob resolve to the same
// handle.
#[test]
fn test_font_cache_reuse() {
    let mut cache = FontCache::new();
    let h1 = cache.resolve(42);
    let h2 = cache.resolve(42);
    assert_eq!(h1, h2);
    let h3 = cache.resolve(43);
    assert_ne!(h1, h3);
    assert_eq!(cache.resolve(42), h1);
}

#[test]
fn test_font_cache_reuse_across_runs() {
    let mut node = no_style_node(0, 0, 800 * PX, 600 * PX, vec![]);
    let mut tl = hello_text_layout();
    let second_run = match &tl.lines[0].items[0] {
        LineItemData::Run(run) => run.clone(),
        _ => unreachable!(),
    };
    tl.lines[0].items.push(LineItemData::Run(second_run));
    node.text_layout = Some(tl);
    let doc = Document { nodes: vec![node], root: 0 };
    let page = render_document(&doc, &Config::new()).expect("render should succeed");
    let handles: Vec<usize> = page
        .canvas
        .cmds
        .iter()
        .filter_map(|c| match c {
            DrawCmd::GlyphRun { handle, .. } => Some(*handle),
            _ => None,
        })
        .collect();
    assert_eq!(handles.len(), 2);
    assert_eq!(handles[0], handles[1]);
    assert_eq!(page.font_ids.len(), 1);
}

// Glyph metrics are normalized by the font size.
#[test]
fn test_glyph_metrics_normalized() {
    let mut node = no_style_node(0, 0, 800 * PX, 600 * PX, vec![]);
    node.text_layout = Some(hello_text_layout());
    let doc = Document { nodes: vec![node], root: 0 };
    let page = render_document(&doc, &Config::new()).expect("render should succeed");
    match page
        .canvas
        .cmds
        .iter()
        .find(|c| matches!(c, DrawCmd::GlyphRun { .. }))
        .unwrap()
    {
        DrawCmd::GlyphRun { glyphs, .. } => {
            // advance of 8px at a font size of 16px is half an em.
            assert_eq!(glyphs[0].advance_ppm, 500_000);
        }
        _ => unreachable!(),
    }
}

// A rounded box renders inside one matched clip scope.
#[test]
fn test_rounded_box_clip_scope() {
    let mut node = no_style_node(0, 0, 100 * PX, 100 * PX, vec![]);
    let mut style = solid_style(9, 9, 9);
    style.border_radii.top_left = RadiusSpec {
        x: LengthPercentage { px: 8 * PX, percent_ppm: 0 },
        y: LengthPercentage { px: 8 * PX, percent_ppm: 0 },
    };
    node.style = Some(style);
    let doc = Document { nodes: vec![node], root: 0 };
    let page = render_document(&doc, &Config::new()).expect("render should succeed");
    let pushes = page
        .canvas
        .cmds
        .iter()
        .filter(|c| matches!(c, DrawCmd::PushClip { .. }))
        .count();
    let pops = page
        .canvas
        .cmds
        .iter()
        .filter(|c| matches!(c, DrawCmd::PopClip))
        .count();
    assert_eq!(pushes, 1);
    assert_eq!(pops, 1);
    assert!(matches!(page.canvas.cmds.last(), Some(DrawCmd::PopClip)));
}

// Percentage radii resolve against the box's own dimensions.
#[test]
fn test_percentage_radius_resolves_against_box() {
    let mut node = no_style_node(0, 0, 100 * PX, 50 * PX, vec![]);
    let mut style = solid_style(9, 9, 9);
    // 50% of the width and height.
    style.border_radii.top_left = RadiusSpec {
        x: LengthPercentage { px: 0, percent_ppm: 500_000 },
        y: LengthPercentage { px: 0, percent_ppm: 500_000 },
    };
    node.style = Some(style);
    let doc = Document { nodes: vec![node], root: 0 };
    let page = render_document(&doc, &Config::new()).expect("render should succeed");
    let clip = page
        .canvas
        .cmds
        .iter()
        .find_map(|c| match c {
            DrawCmd::PushClip { path } => Some(path.clone()),
            _ => None,
        })
        .expect("a rounded box must push a clip");
    // The path starts after the top-left arc: at min(50% of width, half the
    // width) = 50px horizontally.
    assert_eq!(clip[0], PathEl::MoveTo { x: 50 * PX, y: 0 });
}

// PNG encoding: a valid buffer encodes to bytes with the PNG signature.
#[test]
fn test_encode_png_signature() {
    let buffer = vec![255u8; 4 * 3 * 2];
    let bytes = encode_png(&buffer, 3, 2).expect("encoding should succeed");
    assert!(bytes.starts_with(&[0x89, b'P', b'N', b'G', 0x0D, 0x0A, 0x1A, 0x0A]));
}

#[test]
fn test_encode_png_deterministic() {
    let buffer: Vec<u8> = (0..4 * 5 * 4).map(|i| (i * 37 % 251) as u8).collect();
    let a = encode_png(&buffer, 5, 4).expect("encoding should succeed");
    let b = encode_png(&buffer, 5, 4).expect("encoding should succeed");
    assert_eq!(a, b);
}

#[test]
fn test_encode_png_rejects_bad_input() {
    let buffer = vec![0u8; 12];
    assert!(matches!(encode_png(&buffer, 0, 1), Err(Error::PngEncode(_))));
    assert!(matches!(encode_png(&buffer, 1, 0), Err(Error::PngEncode(_))));
    assert!(matches!(encode_png(&buffer, 2, 2), Err(Error::PngEncode(_))));
}

// The raster output size scales with the configured factor.
#[test]
fn test_png_render_size_scale() {
    let config = Config::new().width(100).height(100).scale(Scale::from_micro(2_000_000));
    let (w, h) = png_render_size(&config, None);
    assert_eq!(w, 200);
    assert_eq!(h, 200);

    let config = Config::new().width(640).height(480);
    let (w, h) = png_render_size(&config, None);
    assert_eq!(w, 640);
    assert_eq!(h, 480);
}

// The encoded PNG's IHDR chunk declares the given dimensions big-endian.
#[test]
fn test_encode_png_header_dimensions() {
    let (w, h): (u32, u32) = (640, 480);
    let buffer = vec![0u8; (4 * w * h) as usize];
    let bytes = encode_png(&buffer, w, h).expect("encoding should succeed");
    assert!(bytes.len() >= 24);
    assert_eq!(&bytes[12..16], b"IHDR");
    let parsed_w = u32::from_be_bytes([bytes[16], bytes[17], bytes[18], bytes[19]]);
    let parsed_h = u32::from_be_bytes([bytes[20], bytes[21], bytes[22], bytes[23]]);
    assert_eq!(parsed_w, w);
    assert_eq!(parsed_h, h);
}

#[test]
fn test_png_render_size_auto_height() {
    let config = Config::new().width(200).height(100).auto_height(true);
    let (w, h) = png_render_size(&config, Some(500));
    assert_eq!(w, 200);
    assert_eq!(h, 500);
}
