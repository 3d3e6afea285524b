//! The tree walker: visits the laid-out node tree in paint order and emits
//! the drawing commands of each node in a fixed compositing order — outset
//! shadows, rounded-corner clip, background color, background gradients,
//! inset shadows, borders, inline text, children, clip pop.

use vstd::prelude::*;
use crate::border::{
    extract_borders, spec_draw_borders_cmds, spec_extract_borders, Borders, draw_borders,
    EdgeBorder,
};
use crate::color::{extract_color, spec_extract_color, spec_opaque_black, opaque_black, Rgba};
use crate::doc::{
    extract_border_radii, spec_extract_border_radii, BackgroundLayer, Document, StyleData,
};
use crate::geom::{
    spec_clamped_radii, BorderRadii, COORD_LIMIT, MAX_NODES,
};
use crate::gradient::{convert_linear_gradient, spec_convert_linear_gradient};
use crate::paint::{
    draw_gradient_rect, draw_rect, spec_draw_gradient_rect_cmds, spec_draw_rect_cmds,
};
use crate::path::rounded_rect_path;
use crate::scene::{Canvas, CmdModel, DrawCmd};
use crate::shadow::{
    draw_inset_box_shadow, draw_outset_box_shadow, extract_box_shadows, spec_draw_inset_cmds,
    spec_draw_outset_cmds, spec_extract_box_shadows, BoxShadowData,
};
use crate::text::{
    build_run_glyphs, spec_cache_after, spec_font_handle, spec_run_glyphs, FontCache,
    GlyphRunData, LineItemData, TextLayoutData,
};

verus! {

/// The offsets the walker accumulates stay below this bound: at most one
/// node position per ancestor, and indices only grow along a path.
pub open spec fn spec_offset_ok(v: int, id: int) -> bool {
    -(id + 1) * COORD_LIMIT <= v <= (id + 1) * COORD_LIMIT
}

/// The commands of a node's background color: a solid rectangle when the
/// color extracts to a visible value.
pub open spec fn spec_bg_color_cmds(style: StyleData, x: int, y: int, w: int, h: int) -> Seq<
    CmdModel,
> {
    match spec_extract_color(style.background_color) {
        Some(c) => {
            if c.alpha_ppm > 0 {
                spec_draw_rect_cmds(x, y, w, h, c.spec_rgb())
            } else {
                Seq::<CmdModel>::empty()
            }
        },
        None => Seq::<CmdModel>::empty(),
    }
}

/// The commands of one background image layer: a gradient rectangle for a
/// linear gradient that resolves to at least one stop; nothing otherwise.
pub open spec fn spec_bg_layer_cmds(
    layer: BackgroundLayer,
    x: int,
    y: int,
    w: int,
    h: int,
    current: Rgba,
) -> Seq<CmdModel> {
    match layer {
        BackgroundLayer::LinearGradient { direction, items, repeating } => {
            match spec_convert_linear_gradient(direction, items@, repeating, w, h, current) {
                Some(g) => spec_draw_gradient_rect_cmds(x, y, w, h, g),
                None => Seq::<CmdModel>::empty(),
            }
        },
        BackgroundLayer::Unsupported => Seq::<CmdModel>::empty(),
    }
}

/// The commands of the background image layers from index `k` on.
pub open spec fn spec_bg_layers_cmds(
    layers: Seq<BackgroundLayer>,
    k: int,
    x: int,
    y: int,
    w: int,
    h: int,
    current: Rgba,
) -> Seq<CmdModel>
    decreases layers.len() - k,
{
    if k < 0 || k >= layers.len() {
        Seq::<CmdModel>::empty()
    } else {
        spec_bg_layer_cmds(layers[k], x, y, w, h, current) + spec_bg_layers_cmds(
            layers,
            k + 1,
            x,
            y,
            w,
            h,
            current,
        )
    }
}

/// The commands of a node's background: the flat color first, then the
/// gradient layers on top, in declaration order.
pub open spec fn spec_background_cmds(
    style: StyleData,
    x: int,
    y: int,
    w: int,
    h: int,
    current: Rgba,
) -> Seq<CmdModel> {
    spec_bg_color_cmds(style, x, y, w, h) + spec_bg_layers_cmds(
        style.background_images@,
        0,
        x,
        y,
        w,
        h,
        current,
    )
}

/// The commands of the outset shadows among a shadow list, in source order.
pub open spec fn spec_outset_pass_cmds(
    shadows: Seq<BoxShadowData>,
    k: int,
    x: int,
    y: int,
    w: int,
    h: int,
    radii: BorderRadii,
) -> Seq<CmdModel>
    decreases shadows.len() - k,
{
    if k < 0 || k >= shadows.len() {
        Seq::<CmdModel>::empty()
    } else {
        (if !shadows[k].inset {
            spec_draw_outset_cmds(x, y, w, h, shadows[k], radii)
        } else {
            Seq::<CmdModel>::empty()
        }) + spec_outset_pass_cmds(shadows, k + 1, x, y, w, h, radii)
    }
}

/// The commands of the inset shadows among a shadow list, in source order.
pub open spec fn spec_inset_pass_cmds(
    shadows: Seq<BoxShadowData>,
    k: int,
    x: int,
    y: int,
    w: int,
    h: int,
    radii: BorderRadii,
) -> Seq<CmdModel>
    decreases shadows.len() - k,
{
    if k < 0 || k >= shadows.len() {
        Seq::<CmdModel>::empty()
    } else {
        (if shadows[k].inset {
            spec_draw_inset_cmds(x, y, w, h, shadows[k], radii)
        } else {
            Seq::<CmdModel>::empty()
        }) + spec_inset_pass_cmds(shadows, k + 1, x, y, w, h, radii)
    }
}

/// The text color a glyph run resolves to: the inherited text color of the
/// node its style references, or opaque black when that node has no style.
pub open spec fn spec_text_color(doc: Document, id: int) -> Rgba {
    if 0 <= id < doc.nodes@.len() {
        match doc.nodes@[id].style {
            Some(s) => s.text_color,
            None => spec_opaque_black(),
        }
    } else {
        spec_opaque_black()
    }
}

/// The commands and cache of one glyph run: the font resolved through the
/// cache (registered on first sight), the glyph list built from the run's
/// clusters, and one glyph-run command when any glyph came out of them.
pub open spec fn spec_run_cmds(
    doc: Document,
    tl: TextLayoutData,
    run: GlyphRunData,
    cx: int,
    cy: int,
    cache: Seq<u64>,
) -> (Seq<CmdModel>, Seq<u64>) {
    let handle = spec_font_handle(cache, run.font_id);
    let cache2 = spec_cache_after(cache, run.font_id);
    let color = spec_text_color(doc, run.style_node as int);
    let glyphs = spec_run_glyphs(run.clusters@, run.font_size as int);
    let cmds = if glyphs.len() > 0 {
        seq![
            CmdModel::GlyphRun {
                x: cx + run.offset,
                y: cy + run.baseline,
                handle,
                font_id: run.font_id,
                font_index: run.font_index,
                font_size: run.font_size as int,
                color: color.spec_rgb(),
                text: tl.text@,
                glyphs,
            },
        ]
    } else {
        Seq::<CmdModel>::empty()
    };
    (cmds, cache2)
}

/// The commands and cache of the items of line `li` from item `ii` on.
pub open spec fn spec_items_cmds(
    doc: Document,
    tl: TextLayoutData,
    li: int,
    ii: int,
    cx: int,
    cy: int,
    cache: Seq<u64>,
) -> (Seq<CmdModel>, Seq<u64>)
    decreases tl.lines@.len() - li, tl.lines@[li].items@.len() - ii,
{
    if li < 0 || li >= tl.lines@.len() || ii < 0 || ii >= tl.lines@[li].items@.len() {
        (Seq::<CmdModel>::empty(), cache)
    } else {
        match tl.lines@[li].items@[ii] {
            LineItemData::Run(run) => {
                let pair = spec_run_cmds(doc, tl, run, cx, cy, cache);
                let rest = spec_items_cmds(doc, tl, li, ii + 1, cx, cy, pair.1);
                (pair.0 + rest.0, rest.1)
            },
            LineItemData::InlineBox => spec_items_cmds(doc, tl, li, ii + 1, cx, cy, cache),
        }
    }
}

/// The commands and cache of the lines from `li` on.
pub open spec fn spec_lines_cmds(
    doc: Document,
    tl: TextLayoutData,
    li: int,
    cx: int,
    cy: int,
    cache: Seq<u64>,
) -> (Seq<CmdModel>, Seq<u64>)
    decreases tl.lines@.len() - li, tl.lines@[li].items@.len() + 1,
{
    if li < 0 || li >= tl.lines@.len() {
        (Seq::<CmdModel>::empty(), cache)
    } else {
        let pair = spec_items_cmds(doc, tl, li, 0, cx, cy, cache);
        let rest = spec_lines_cmds(doc, tl, li + 1, cx, cy, pair.1);
        (pair.0 + rest.0, rest.1)
    }
}

/// The commands and cache of a node's inline text: every positioned glyph
/// run of every line, in order; reserved inline boxes are skipped (they are
/// painted through the node tree).
pub open spec fn spec_text_cmds(
    doc: Document,
    tl: TextLayoutData,
    cx: int,
    cy: int,
    cache: Seq<u64>,
) -> (Seq<CmdModel>, Seq<u64>) {
    spec_lines_cmds(doc, tl, 0, cx, cy, cache)
}

/// The borders value of a node without style: all edges invisible.
pub open spec fn spec_default_borders() -> Borders {
    Borders {
        top: EdgeBorder::spec_default(),
        right: EdgeBorder::spec_default(),
        bottom: EdgeBorder::spec_default(),
        left: EdgeBorder::spec_default(),
    }
}

/// The commands and cache of one node and its subtree.
///
/// A node with zero or negative extent draws nothing itself but still
/// visits its paint-order children. A visible node draws, in order: its
/// outset shadows; a clip scope for rounded corners; its background color,
/// then its background gradients; its inset shadows; its borders; its
/// inline text at the content-box origin; its children at the box origin;
/// and finally the clip pop. This order is the compositing contract:
/// changing it changes visible output wherever translucent boxes overlap.
pub open spec fn spec_node_cmds(
    doc: Document,
    id: int,
    ox: int,
    oy: int,
    cache: Seq<u64>,
) -> (Seq<CmdModel>, Seq<u64>)
    decreases doc.nodes@.len() - id, 3int, 0int,
{
    if id < 0 || id >= doc.nodes@.len() {
        (Seq::<CmdModel>::empty(), cache)
    } else {
        let node = doc.nodes@[id];
        let x = ox + node.x;
        let y = oy + node.y;
        if node.width <= 0 || node.height <= 0 {
            spec_children_cmds(doc, id, 0, x, y, cache)
        } else {
            spec_visible_node_cmds(doc, id, x, y, cache)
        }
    }
}

/// The commands and cache of a node with positive extent, placed at the
/// absolute box origin `(x, y)`.
#[verifier::opaque]
pub open spec fn spec_visible_node_cmds(
    doc: Document,
    id: int,
    x: int,
    y: int,
    cache: Seq<u64>,
) -> (Seq<CmdModel>, Seq<u64>)
    decreases doc.nodes@.len() - id, 2int, 0int,
{
    if id < 0 || id >= doc.nodes@.len() {
        (Seq::<CmdModel>::empty(), cache)
    } else {
        let node = doc.nodes@[id];
        let w = node.width as int;
        let h = node.height as int;
        let current = match node.style {
            Some(s) => s.text_color,
            None => spec_opaque_black(),
        };
        let radii = match node.style {
            Some(s) => spec_extract_border_radii(s.border_radii, w, h),
            None => BorderRadii::spec_default(),
        };
        let shadows = match node.style {
            Some(s) => spec_extract_box_shadows(s.box_shadows@, current),
            None => Seq::<BoxShadowData>::empty(),
        };
        let borders = match node.style {
            Some(s) => spec_extract_borders(s.borders, node.border, current),
            None => spec_default_borders(),
        };
        let has_radius = radii.spec_has_any_radius();
        let s1 = spec_outset_pass_cmds(shadows, 0, x, y, w, h, radii);
        let sopen = if has_radius {
            seq![
                CmdModel::PushClip {
                    path: crate::path::spec_rounded_rect_path(
                        x,
                        y,
                        w,
                        h,
                        spec_clamped_radii(radii, w, h),
                    ),
                },
            ]
        } else {
            Seq::<CmdModel>::empty()
        };
        let s2 = match node.style {
            Some(s) => spec_background_cmds(s, x, y, w, h, current),
            None => Seq::<CmdModel>::empty(),
        };
        let s3 = spec_inset_pass_cmds(shadows, 0, x, y, w, h, radii);
        let s4 = spec_draw_borders_cmds(x, y, w, h, borders);
        let tpair = match node.text_layout {
            Some(tl) => spec_text_cmds(
                doc,
                tl,
                x + node.padding.left + node.border.left,
                y + node.padding.top + node.border.top,
                cache,
            ),
            None => (Seq::<CmdModel>::empty(), cache),
        };
        let cpair = spec_children_cmds(doc, id, 0, x, y, tpair.1);
        let sclose = if has_radius {
            seq![CmdModel::PopClip]
        } else {
            Seq::<CmdModel>::empty()
        };
        (s1 + sopen + s2 + s3 + s4 + tpair.0 + cpair.0 + sclose, cpair.1)
    }
}

/// The commands and cache of a node's paint-order children from child `j`
/// on, visited at the node's absolute box origin.
pub open spec fn spec_children_cmds(
    doc: Document,
    id: int,
    j: int,
    x: int,
    y: int,
    cache: Seq<u64>,
) -> (Seq<CmdModel>, Seq<u64>)
    decreases doc.nodes@.len() - id, 1int, doc.nodes@[id].paint_children@.len() - j,
{
    if id < 0 || id >= doc.nodes@.len() || j < 0 || j >= doc.nodes@[id].paint_children@.len() {
        (Seq::<CmdModel>::empty(), cache)
    } else {
        let c = doc.nodes@[id].paint_children@[j] as int;
        let pair = if id < c < doc.nodes@.len() {
            spec_node_cmds(doc, c, x, y, cache)
        } else {
            (Seq::<CmdModel>::empty(), cache)
        };
        let rest = spec_children_cmds(doc, id, j + 1, x, y, pair.1);
        (pair.0 + rest.0, rest.1)
    }
}


/// Copy a byte vector.
fn copy_bytes(v: &Vec<u8>) -> (r: Vec<u8>)
    ensures
        r@ == v@,
{
    let mut r: Vec<u8> = Vec::new();
    let mut i: usize = 0;
    while i < v.len()
        invariant
            i <= v@.len(),
            r@ == v@.take(i as int),
        decreases v@.len() - i,
    {
        r.push(v[i]);
        proof {
            assert(r@ =~= v@.take(i + 1));
        }
        i = i + 1;
    }
    proof {
        assert(v@.take(v@.len() as int) =~= v@);
    }
    r
}

/// Render a node's inline text: resolve each glyph run's font through the
/// cache, build its glyph list, and draw it at the content-box origin plus
/// the run's line offset and baseline.
pub fn render_text(
    canvas: &mut Canvas,
    doc: &Document,
    tl: &TextLayoutData,
    cx: i64,
    cy: i64,
    cache: &mut FontCache,
)
    requires
        tl.wf(),
        -0x8_0000_0000_0000 <= cx <= 0x8_0000_0000_0000,
        -0x8_0000_0000_0000 <= cy <= 0x8_0000_0000_0000,
    ensures
        final(canvas)@ == old(canvas)@ + spec_text_cmds(
            *doc,
            *tl,
            cx as int,
            cy as int,
            old(cache)@,
        ).0,
        final(cache)@ == spec_text_cmds(*doc, *tl, cx as int, cy as int, old(cache)@).1,
{
    let ghost full = spec_text_cmds(*doc, *tl, cx as int, cy as int, old(cache)@);
    let ghost start = canvas@;
    let mut li: usize = 0;
    while li < tl.lines.len()
        invariant
            li <= tl.lines@.len(),
            tl.wf(),
            -0x8_0000_0000_0000 <= cx <= 0x8_0000_0000_0000,
            -0x8_0000_0000_0000 <= cy <= 0x8_0000_0000_0000,
            canvas@ + spec_lines_cmds(*doc, *tl, li as int, cx as int, cy as int, cache@).0 == start
                + full.0,
            spec_lines_cmds(*doc, *tl, li as int, cx as int, cy as int, cache@).1 == full.1,
        decreases tl.lines@.len() - li,
    {
        let line = &tl.lines[li];
        let ghost line_entry_cache = cache@;
        let ghost line_entry_canvas = canvas@;
        let mut ii: usize = 0;
        proof {
            let lp = spec_lines_cmds(*doc, *tl, li as int, cx as int, cy as int, cache@);
            let ip = spec_items_cmds(*doc, *tl, li as int, 0, cx as int, cy as int, cache@);
            let rp = spec_lines_cmds(*doc, *tl, li + 1, cx as int, cy as int, ip.1);
            assert(lp.0 == ip.0 + rp.0 && lp.1 == rp.1);
            assert(canvas@ + (ip.0 + rp.0) =~= (canvas@ + ip.0) + rp.0);
        }
        while ii < line.items.len()
            invariant
                ii <= line.items@.len(),
                li < tl.lines@.len(),
                line.items@ == tl.lines@[li as int].items@,
                tl.wf(),
                -0x8_0000_0000_0000 <= cx <= 0x8_0000_0000_0000,
                -0x8_0000_0000_0000 <= cy <= 0x8_0000_0000_0000,
                ({
                    let ip = spec_items_cmds(
                        *doc,
                        *tl,
                        li as int,
                        ii as int,
                        cx as int,
                        cy as int,
                        cache@,
                    );
                    let rp = spec_lines_cmds(*doc, *tl, li + 1, cx as int, cy as int, ip.1);
                    (canvas@ + ip.0) + rp.0 == start + full.0 && rp.1 == full.1
                }),
            decreases line.items@.len() - ii,
        {
            let ghost pre_cache = cache@;
            let ghost pre_canvas = canvas@;
            match &line.items[ii] {
                LineItemData::Run(run) => {
                    proof {
                        assert(tl.lines@[li as int].items@[ii as int] is Run);
                        assert(tl.lines@[li as int].items@[ii as int]->Run_0 == *run);
                        assert(run.wf());
                    }
                    let handle = cache.resolve(run.font_id);
                    let glyphs = build_run_glyphs(&run.clusters, run.font_size);
                    let color = if run.style_node < doc.nodes.len() {
                        match &doc.nodes[run.style_node].style {
                            Some(s) => s.text_color,
                            None => opaque_black(),
                        }
                    } else {
                        opaque_black()
                    };
                    proof {
                        assert(color == spec_text_color(*doc, run.style_node as int));
                    }
                    let ghost pair = spec_run_cmds(
                        *doc,
                        *tl,
                        *run,
                        cx as int,
                        cy as int,
                        pre_cache,
                    );
                    if glyphs.len() > 0 {
                        let cmd = DrawCmd::GlyphRun {
                            x: cx + run.offset,
                            y: cy + run.baseline,
                            handle,
                            font_id: run.font_id,
                            font_index: run.font_index,
                            font_size: run.font_size,
                            color: color.rgb(),
                            text: copy_bytes(&tl.text),
                            glyphs,
                        };
                        canvas.record(cmd);
                        proof {
                            assert(canvas@ =~= pre_canvas + pair.0);
                        }
                    } else {
                        proof {
                            assert(canvas@ =~= pre_canvas + pair.0);
                        }
                    }
                    proof {
                        assert(cache@ == pair.1);
                        let ip0 = spec_items_cmds(
                            *doc,
                            *tl,
                            li as int,
                            ii as int,
                            cx as int,
                            cy as int,
                            pre_cache,
                        );
                        let ip1 = spec_items_cmds(
                            *doc,
                            *tl,
                            li as int,
                            ii + 1,
                            cx as int,
                            cy as int,
                            cache@,
                        );
                        assert(ip0.0 == pair.0 + ip1.0 && ip0.1 == ip1.1);
                        let rp = spec_lines_cmds(*doc, *tl, li + 1, cx as int, cy as int, ip0.1);
                        assert((pre_canvas + (pair.0 + ip1.0)) + rp.0 =~= ((pre_canvas + pair.0)
                            + ip1.0) + rp.0);
                    }
                },
                LineItemData::InlineBox => {
                    proof {
                        assert(tl.lines@[li as int].items@[ii as int] is InlineBox);
                    }
                },
            }
            ii = ii + 1;
        }
        proof {
            let ip = spec_items_cmds(
                *doc,
                *tl,
                li as int,
                line.items@.len() as int,
                cx as int,
                cy as int,
                cache@,
            );
            assert(ip.0 == Seq::<CmdModel>::empty() && ip.1 == cache@);
            let rp = spec_lines_cmds(*doc, *tl, li + 1, cx as int, cy as int, cache@);
            assert((canvas@ + Seq::<CmdModel>::empty()) + rp.0 =~= canvas@ + rp.0);
        }
        li = li + 1;
    }
    proof {
        let lp = spec_lines_cmds(
            *doc,
            *tl,
            tl.lines@.len() as int,
            cx as int,
            cy as int,
            cache@,
        );
        assert(lp.0 == Seq::<CmdModel>::empty() && lp.1 == cache@);
        assert(canvas@ + Seq::<CmdModel>::empty() =~= canvas@);
        assert(canvas@ =~= old(canvas)@ + full.0);
    }
}



/// Draw the outset shadows of a shadow list, in source order.
fn paint_outset_pass(
    canvas: &mut Canvas,
    shadows: &Vec<BoxShadowData>,
    x: i64,
    y: i64,
    w: i64,
    h: i64,
    radii: &BorderRadii,
)
    requires
        forall|i: int| 0 <= i < shadows@.len() ==> (#[trigger] shadows@[i]).wf(),
        -0x8_0000_0000_0000 <= x <= 0x8_0000_0000_0000,
        -0x8_0000_0000_0000 <= y <= 0x8_0000_0000_0000,
        0 < w <= COORD_LIMIT,
        0 < h <= COORD_LIMIT,
        radii.bounded_by(COORD_LIMIT as int),
    ensures
        final(canvas)@ == old(canvas)@ + spec_outset_pass_cmds(
            shadows@,
            0,
            x as int,
            y as int,
            w as int,
            h as int,
            *radii,
        ),
{
    let ghost start = canvas@;
    let ghost pass0 = spec_outset_pass_cmds(
        shadows@,
        0,
        x as int,
        y as int,
        w as int,
        h as int,
        *radii,
    );
    let mut k: usize = 0;
    while k < shadows.len()
        invariant
            k <= shadows@.len(),
            forall|i: int| 0 <= i < shadows@.len() ==> (#[trigger] shadows@[i]).wf(),
            -0x8_0000_0000_0000 <= x <= 0x8_0000_0000_0000,
            -0x8_0000_0000_0000 <= y <= 0x8_0000_0000_0000,
            0 < w <= COORD_LIMIT,
            0 < h <= COORD_LIMIT,
            radii.bounded_by(COORD_LIMIT as int),
            canvas@ + spec_outset_pass_cmds(
                shadows@,
                k as int,
                x as int,
                y as int,
                w as int,
                h as int,
                *radii,
            ) == start + pass0,
        decreases shadows@.len() - k,
    {
        let ghost pre = canvas@;
        if !shadows[k].inset {
            draw_outset_box_shadow(canvas, x, y, w, h, &shadows[k], radii);
        }
        proof {
            let seg = if !shadows@[k as int].inset {
                spec_draw_outset_cmds(
                    x as int,
                    y as int,
                    w as int,
                    h as int,
                    shadows@[k as int],
                    *radii,
                )
            } else {
                Seq::<CmdModel>::empty()
            };
            assert(canvas@ =~= pre + seg);
            let rest = spec_outset_pass_cmds(
                shadows@,
                k + 1,
                x as int,
                y as int,
                w as int,
                h as int,
                *radii,
            );
            assert(pre + (seg + rest) =~= (pre + seg) + rest);
        }
        k = k + 1;
    }
    proof {
        assert(spec_outset_pass_cmds(
            shadows@,
            shadows@.len() as int,
            x as int,
            y as int,
            w as int,
            h as int,
            *radii,
        ) =~= Seq::<CmdModel>::empty());
        assert(canvas@ + Seq::<CmdModel>::empty() =~= canvas@);
        assert(canvas@ =~= start + pass0);
    }
}

/// Draw the inset shadows of a shadow list, in source order.
fn paint_inset_pass(
    canvas: &mut Canvas,
    shadows: &Vec<BoxShadowData>,
    x: i64,
    y: i64,
    w: i64,
    h: i64,
    radii: &BorderRadii,
)
    requires
        forall|i: int| 0 <= i < shadows@.len() ==> (#[trigger] shadows@[i]).wf(),
        -0x8_0000_0000_0000 <= x <= 0x8_0000_0000_0000,
        -0x8_0000_0000_0000 <= y <= 0x8_0000_0000_0000,
        0 < w <= COORD_LIMIT,
        0 < h <= COORD_LIMIT,
        radii.bounded_by(COORD_LIMIT as int),
    ensures
        final(canvas)@ == old(canvas)@ + spec_inset_pass_cmds(
            shadows@,
            0,
            x as int,
            y as int,
            w as int,
            h as int,
            *radii,
        ),
{
    let ghost start = canvas@;
    let ghost pass1 = spec_inset_pass_cmds(
        shadows@,
        0,
        x as int,
        y as int,
        w as int,
        h as int,
        *radii,
    );
    let mut k: usize = 0;
    while k < shadows.len()
        invariant
            k <= shadows@.len(),
            forall|i: int| 0 <= i < shadows@.len() ==> (#[trigger] shadows@[i]).wf(),
            -0x8_0000_0000_0000 <= x <= 0x8_0000_0000_0000,
            -0x8_0000_0000_0000 <= y <= 0x8_0000_0000_0000,
            0 < w <= COORD_LIMIT,
            0 < h <= COORD_LIMIT,
            radii.bounded_by(COORD_LIMIT as int),
            canvas@ + spec_inset_pass_cmds(
                shadows@,
                k as int,
                x as int,
                y as int,
                w as int,
                h as int,
                *radii,
            ) == start + pass1,
        decreases shadows@.len() - k,
    {
        let ghost pre = canvas@;
        if shadows[k].inset {
            draw_inset_box_shadow(canvas, x, y, w, h, &shadows[k], radii);
        }
        proof {
            let seg = if shadows@[k as int].inset {
                spec_draw_inset_cmds(
                    x as int,
                    y as int,
                    w as int,
                    h as int,
                    shadows@[k as int],
                    *radii,
                )
            } else {
                Seq::<CmdModel>::empty()
            };
            assert(canvas@ =~= pre + seg);
            let rest = spec_inset_pass_cmds(
                shadows@,
                k + 1,
                x as int,
                y as int,
                w as int,
                h as int,
                *radii,
            );
            assert(pre + (seg + rest) =~= (pre + seg) + rest);
        }
        k = k + 1;
    }
    proof {
        assert(spec_inset_pass_cmds(
            shadows@,
            shadows@.len() as int,
            x as int,
            y as int,
            w as int,
            h as int,
            *radii,
        ) =~= Seq::<CmdModel>::empty());
        assert(canvas@ + Seq::<CmdModel>::empty() =~= canvas@);
        assert(canvas@ =~= start + pass1);
    }
}

/// Draw a node's background: the flat color, then the gradient layers in
/// declaration order.
fn paint_background(
    canvas: &mut Canvas,
    s: &StyleData,
    x: i64,
    y: i64,
    w: i64,
    h: i64,
    current: Rgba,
)
    requires
        s.wf(),
        -0x8_0000_0000_0000 <= x <= 0x8_0000_0000_0000,
        -0x8_0000_0000_0000 <= y <= 0x8_0000_0000_0000,
        0 < w <= COORD_LIMIT,
        0 < h <= COORD_LIMIT,
    ensures
        final(canvas)@ == old(canvas)@ + spec_background_cmds(
            *s,
            x as int,
            y as int,
            w as int,
            h as int,
            current,
        ),
{
    let ghost mbg = canvas@;
    match extract_color(&s.background_color) {
        Some(c) => {
            if c.alpha_ppm > 0 {
                draw_rect(canvas, x, y, w, h, c.rgb());
            }
        },
        None => {
        },
    }
    proof {
        assert(canvas@ =~= mbg + spec_bg_color_cmds(*s, x as int, y as int, w as int, h as int));
    }
    let ghost layers0 = spec_bg_layers_cmds(
        s.background_images@,
        0,
        x as int,
        y as int,
        w as int,
        h as int,
        current,
    );
    let ghost mlayers = canvas@;
    let mut k2: usize = 0;
    while k2 < s.background_images.len()
        invariant
            k2 <= s.background_images@.len(),
            s.wf(),
            -0x8_0000_0000_0000 <= x <= 0x8_0000_0000_0000,
            -0x8_0000_0000_0000 <= y <= 0x8_0000_0000_0000,
            0 < w <= COORD_LIMIT,
            0 < h <= COORD_LIMIT,
            canvas@ + spec_bg_layers_cmds(
                s.background_images@,
                k2 as int,
                x as int,
                y as int,
                w as int,
                h as int,
                current,
            ) == mlayers + layers0,
        decreases s.background_images@.len() - k2,
    {
        let ghost pre = canvas@;
        match &s.background_images[k2] {
            BackgroundLayer::LinearGradient { direction, items, repeating } => {
                proof {
                    assert(s.background_images@[k2 as int] is LinearGradient);
                    assert(s.background_images@[k2 as int]->LinearGradient_direction == *direction);
                    assert(s.background_images@[k2 as int]->LinearGradient_items == *items);
                    assert(s.background_images@[k2 as int]->LinearGradient_repeating == *repeating);
                    assert(s.background_images@[k2 as int].wf());
                }
                match convert_linear_gradient(direction, items, *repeating, w, h, current) {
                    Some(g) => {
                        draw_gradient_rect(canvas, x, y, w, h, g);
                    },
                    None => {
                    },
                }
            },
            BackgroundLayer::Unsupported => {
            },
        }
        proof {
            let seg = spec_bg_layer_cmds(
                s.background_images@[k2 as int],
                x as int,
                y as int,
                w as int,
                h as int,
                current,
            );
            assert(canvas@ =~= pre + seg);
            let rest = spec_bg_layers_cmds(
                s.background_images@,
                k2 + 1,
                x as int,
                y as int,
                w as int,
                h as int,
                current,
            );
            assert(pre + (seg + rest) =~= (pre + seg) + rest);
        }
        k2 = k2 + 1;
    }
    proof {
        assert(spec_bg_layers_cmds(
            s.background_images@,
            s.background_images@.len() as int,
            x as int,
            y as int,
            w as int,
            h as int,
            current,
        ) =~= Seq::<CmdModel>::empty());
        assert(canvas@ + Seq::<CmdModel>::empty() =~= canvas@);
        assert(canvas@ =~= mbg + spec_background_cmds(
            *s,
            x as int,
            y as int,
            w as int,
            h as int,
            current,
        ));
    }
}

/// Visit a node's paint-order children at the node's absolute box origin.
fn render_children(
    canvas: &mut Canvas,
    doc: &Document,
    id: usize,
    x: i64,
    y: i64,
    cache: &mut FontCache,
)
    requires
        doc.wf(),
        id < doc.nodes@.len(),
        -(id + 2) * COORD_LIMIT <= x <= (id + 2) * COORD_LIMIT,
        -(id + 2) * COORD_LIMIT <= y <= (id + 2) * COORD_LIMIT,
    ensures
        final(canvas)@ == old(canvas)@ + spec_children_cmds(
            *doc,
            id as int,
            0,
            x as int,
            y as int,
            old(cache)@,
        ).0,
        final(cache)@ == spec_children_cmds(
            *doc,
            id as int,
            0,
            x as int,
            y as int,
            old(cache)@,
        ).1,
    decreases doc.nodes@.len() - id, 1int,
{
    let ghost full = spec_children_cmds(*doc, id as int, 0, x as int, y as int, old(cache)@);
    let ghost start = canvas@;
    let node = &doc.nodes[id];
    let mut j: usize = 0;
    while j < node.paint_children.len()
        invariant
            j <= node.paint_children@.len(),
            doc.wf(),
            id < doc.nodes@.len(),
            node.paint_children@ == doc.nodes@[id as int].paint_children@,
            -(id + 2) * COORD_LIMIT <= x <= (id + 2) * COORD_LIMIT,
            -(id + 2) * COORD_LIMIT <= y <= (id + 2) * COORD_LIMIT,
            canvas@ + spec_children_cmds(*doc, id as int, j as int, x as int, y as int, cache@).0
                == start + full.0,
            spec_children_cmds(*doc, id as int, j as int, x as int, y as int, cache@).1 == full.1,
        decreases doc.nodes@.len() - id, 0int, node.paint_children@.len() - j,
    {
        let c = node.paint_children[j];
        proof {
            assert(doc.nodes@[id as int].wf(id as int, doc.nodes@.len() as int));
            assert((id as int) < doc.nodes@[id as int].paint_children@[j as int] < doc.nodes@.len());
        }
        let ghost pre_cache = cache@;
        let ghost pre_canvas = canvas@;
        let ghost pair = spec_node_cmds(*doc, c as int, x as int, y as int, pre_cache);
        render_node(canvas, doc, c, x, y, cache);
        proof {
            let rest = spec_children_cmds(*doc, id as int, j + 1, x as int, y as int, cache@);
            assert(spec_children_cmds(*doc, id as int, j as int, x as int, y as int, pre_cache).0
                == pair.0 + rest.0);
            assert((pre_canvas + (pair.0 + rest.0)) + Seq::<CmdModel>::empty() =~= pre_canvas + (
            pair.0 + rest.0));
            assert(pre_canvas + (pair.0 + rest.0) =~= (pre_canvas + pair.0) + rest.0);
        }
        j = j + 1;
    }
    proof {
        let done = spec_children_cmds(
            *doc,
            id as int,
            node.paint_children@.len() as int,
            x as int,
            y as int,
            cache@,
        );
        assert(done.0 == Seq::<CmdModel>::empty() && done.1 == cache@);
        assert(canvas@ + Seq::<CmdModel>::empty() =~= canvas@);
        assert(canvas@ =~= old(canvas)@ + full.0);
    }
}



/// The style-derived paint inputs of one visible node.
struct PaintInputs {
    current: Rgba,
    radii: BorderRadii,
    shadows: Vec<BoxShadowData>,
    borders: Borders,
}

/// The current color a node's style provides.
pub open spec fn spec_node_current(doc: Document, id: int) -> Rgba {
    match doc.nodes@[id].style {
        Some(s) => s.text_color,
        None => spec_opaque_black(),
    }
}

/// The radii a node's style provides for its box.
pub open spec fn spec_node_radii(doc: Document, id: int) -> BorderRadii {
    match doc.nodes@[id].style {
        Some(s) => spec_extract_border_radii(
            s.border_radii,
            doc.nodes@[id].width as int,
            doc.nodes@[id].height as int,
        ),
        None => BorderRadii::spec_default(),
    }
}

/// The extracted shadows of a node.
pub open spec fn spec_node_shadows(doc: Document, id: int) -> Seq<BoxShadowData> {
    match doc.nodes@[id].style {
        Some(s) => spec_extract_box_shadows(s.box_shadows@, spec_node_current(doc, id)),
        None => Seq::<BoxShadowData>::empty(),
    }
}

/// The extracted borders of a node.
pub open spec fn spec_node_borders(doc: Document, id: int) -> Borders {
    match doc.nodes@[id].style {
        Some(s) => spec_extract_borders(
            s.borders,
            doc.nodes@[id].border,
            spec_node_current(doc, id),
        ),
        None => spec_default_borders(),
    }
}

/// Extract the paint inputs of a visible node.
fn extract_paint_inputs(doc: &Document, id: usize) -> (r: PaintInputs)
    requires
        doc.wf(),
        id < doc.nodes@.len(),
        doc.nodes@[id as int].width > 0,
        doc.nodes@[id as int].height > 0,
    ensures
        r.current == spec_node_current(*doc, id as int),
        r.radii == spec_node_radii(*doc, id as int),
        r.shadows@ == spec_node_shadows(*doc, id as int),
        r.borders == spec_node_borders(*doc, id as int),
        r.radii.bounded_by(COORD_LIMIT as int),
        forall|i: int| 0 <= i < r.shadows@.len() ==> (#[trigger] r.shadows@[i]).wf(),
{
    let node = &doc.nodes[id];
    proof {
        assert(doc.nodes@[id as int].wf(id as int, doc.nodes@.len() as int));
    }
    let current: Rgba = match &node.style {
        Some(s) => s.text_color,
        None => opaque_black(),
    };
    let radii: BorderRadii = match &node.style {
        Some(s) => extract_border_radii(&s.border_radii, node.width, node.height),
        None => BorderRadii::default(),
    };
    let shadows: Vec<BoxShadowData> = match &node.style {
        Some(s) => extract_box_shadows(&s.box_shadows, current),
        None => Vec::new(),
    };
    let borders: Borders = match &node.style {
        Some(s) => extract_borders(&s.borders, node.border, current),
        None => Borders {
            top: EdgeBorder::default(),
            right: EdgeBorder::default(),
            bottom: EdgeBorder::default(),
            left: EdgeBorder::default(),
        },
    };
    proof {
        if doc.nodes@[id as int].style is Some {
            crate::shadow::lemma_extracted_shadows_wf(
                doc.nodes@[id as int].style->0.box_shadows@,
                current,
            );
        }
        assert(forall|i: int| 0 <= i < shadows@.len() ==> (#[trigger] shadows@[i]).wf());
    }
    PaintInputs { current, radii, shadows, borders }
}

/// Open a clip scope bounded by the node's rounded outline, when any corner
/// is rounded.
fn push_clip_scope(canvas: &mut Canvas, x: i64, y: i64, w: i64, h: i64, radii: &BorderRadii)
    requires
        -0x8_0000_0000_0000 <= x <= 0x8_0000_0000_0000,
        -0x8_0000_0000_0000 <= y <= 0x8_0000_0000_0000,
        0 < w <= COORD_LIMIT,
        0 < h <= COORD_LIMIT,
        radii.bounded_by(COORD_LIMIT as int),
    ensures
        final(canvas)@ == old(canvas)@ + (if radii.spec_has_any_radius() {
            seq![
                CmdModel::PushClip {
                    path: crate::path::spec_rounded_rect_path(
                        x as int,
                        y as int,
                        w as int,
                        h as int,
                        spec_clamped_radii(*radii, w as int, h as int),
                    ),
                },
            ]
        } else {
            Seq::<CmdModel>::empty()
        }),
{
    if radii.has_any_radius() {
        match rounded_rect_path(x, y, w, h, radii) {
            Some(p) => {
                let cmd = DrawCmd::PushClip { path: p };
                canvas.record(cmd);
                proof {
                    assert(canvas@ =~= old(canvas)@ + seq![
                        CmdModel::PushClip {
                            path: crate::path::spec_rounded_rect_path(
                                x as int,
                                y as int,
                                w as int,
                                h as int,
                                spec_clamped_radii(*radii, w as int, h as int),
                            ),
                        },
                    ]);
                }
            },
            None => {
                proof {
                    assert(false);
                }
            },
        }
    } else {
        proof {
            assert(old(canvas)@ + Seq::<CmdModel>::empty() =~= old(canvas)@);
        }
    }
}


/// The text commands and cache of a node, at its content-box origin.
pub open spec fn spec_node_tpair(doc: Document, id: int, x: int, y: int, cache: Seq<u64>) -> (
    Seq<CmdModel>,
    Seq<u64>,
) {
    let node = doc.nodes@[id];
    match node.text_layout {
        Some(tl) => spec_text_cmds(
            doc,
            tl,
            x + node.padding.left + node.border.left,
            y + node.padding.top + node.border.top,
            cache,
        ),
        None => (Seq::<CmdModel>::empty(), cache),
    }
}

/// The clip-opening commands of a node.
pub open spec fn spec_node_sopen(doc: Document, id: int, x: int, y: int) -> Seq<CmdModel> {
    let node = doc.nodes@[id];
    let radii = spec_node_radii(doc, id);
    if radii.spec_has_any_radius() {
        seq![
            CmdModel::PushClip {
                path: crate::path::spec_rounded_rect_path(
                    x,
                    y,
                    node.width as int,
                    node.height as int,
                    spec_clamped_radii(radii, node.width as int, node.height as int),
                ),
            },
        ]
    } else {
        Seq::<CmdModel>::empty()
    }
}

/// The clip-closing commands of a node.
pub open spec fn spec_node_sclose(doc: Document, id: int) -> Seq<CmdModel> {
    if spec_node_radii(doc, id).spec_has_any_radius() {
        seq![CmdModel::PopClip]
    } else {
        Seq::<CmdModel>::empty()
    }
}

/// The background commands of a node.
pub open spec fn spec_node_s2(doc: Document, id: int, x: int, y: int) -> Seq<CmdModel> {
    let node = doc.nodes@[id];
    match node.style {
        Some(st) => spec_background_cmds(
            st,
            x,
            y,
            node.width as int,
            node.height as int,
            spec_node_current(doc, id),
        ),
        None => Seq::<CmdModel>::empty(),
    }
}

/// A visible node's output decomposes into the compositing phases in order:
/// outset shadows, clip open, background, inset shadows, borders, text,
/// children, clip close; the final cache is the children's.
pub proof fn lemma_visible_node_decomposition(
    doc: Document,
    id: int,
    x: int,
    y: int,
    cache: Seq<u64>,
)
    requires
        0 <= id < doc.nodes@.len(),
        doc.nodes@[id].width > 0,
        doc.nodes@[id].height > 0,
    ensures
        spec_visible_node_cmds(doc, id, x, y, cache).0 == spec_outset_pass_cmds(
            spec_node_shadows(doc, id),
            0,
            x,
            y,
            doc.nodes@[id].width as int,
            doc.nodes@[id].height as int,
            spec_node_radii(doc, id),
        ) + spec_node_sopen(doc, id, x, y) + spec_node_s2(doc, id, x, y) + spec_inset_pass_cmds(
            spec_node_shadows(doc, id),
            0,
            x,
            y,
            doc.nodes@[id].width as int,
            doc.nodes@[id].height as int,
            spec_node_radii(doc, id),
        ) + spec_draw_borders_cmds(
            x,
            y,
            doc.nodes@[id].width as int,
            doc.nodes@[id].height as int,
            spec_node_borders(doc, id),
        ) + spec_node_tpair(doc, id, x, y, cache).0 + spec_children_cmds(
            doc,
            id,
            0,
            x,
            y,
            spec_node_tpair(doc, id, x, y, cache).1,
        ).0 + spec_node_sclose(doc, id),
        spec_visible_node_cmds(doc, id, x, y, cache).1 == spec_children_cmds(
            doc,
            id,
            0,
            x,
            y,
            spec_node_tpair(doc, id, x, y, cache).1,
        ).1,
{
    reveal(spec_visible_node_cmds);
}


/// Draw a visible node's box decorations: outset shadows, the clip opening,
/// the background, inset shadows and borders, in that order.
#[verifier::rlimit(100)]
fn paint_box_decorations(
    canvas: &mut Canvas,
    doc: &Document,
    id: usize,
    x: i64,
    y: i64,
    inputs: &PaintInputs,
)
    requires
        doc.wf(),
        id < doc.nodes@.len(),
        doc.nodes@[id as int].width > 0,
        doc.nodes@[id as int].height > 0,
        -0x8_0000_0000_0000 <= x <= 0x8_0000_0000_0000,
        -0x8_0000_0000_0000 <= y <= 0x8_0000_0000_0000,
        inputs.current == spec_node_current(*doc, id as int),
        inputs.radii == spec_node_radii(*doc, id as int),
        inputs.shadows@ == spec_node_shadows(*doc, id as int),
        inputs.borders == spec_node_borders(*doc, id as int),
        inputs.radii.bounded_by(COORD_LIMIT as int),
        forall|i: int| 0 <= i < inputs.shadows@.len() ==> (#[trigger] inputs.shadows@[i]).wf(),
    ensures
        final(canvas)@ == old(canvas)@ + (spec_outset_pass_cmds(
            spec_node_shadows(*doc, id as int),
            0,
            x as int,
            y as int,
            doc.nodes@[id as int].width as int,
            doc.nodes@[id as int].height as int,
            spec_node_radii(*doc, id as int),
        ) + spec_node_sopen(*doc, id as int, x as int, y as int) + spec_node_s2(
            *doc,
            id as int,
            x as int,
            y as int,
        ) + spec_inset_pass_cmds(
            spec_node_shadows(*doc, id as int),
            0,
            x as int,
            y as int,
            doc.nodes@[id as int].width as int,
            doc.nodes@[id as int].height as int,
            spec_node_radii(*doc, id as int),
        ) + spec_draw_borders_cmds(
            x as int,
            y as int,
            doc.nodes@[id as int].width as int,
            doc.nodes@[id as int].height as int,
            spec_node_borders(*doc, id as int),
        )),
{
    let ghost start = canvas@;
    let node = &doc.nodes[id];
    proof {
        assert(doc.nodes@[id as int].wf(id as int, doc.nodes@.len() as int));
    }
    let w: i64 = node.width;
    let h: i64 = node.height;
    let current: Rgba = inputs.current;
    let radii: BorderRadii = inputs.radii;

    paint_outset_pass(canvas, &inputs.shadows, x, y, w, h, &radii);
    let ghost pass0 = spec_outset_pass_cmds(
        inputs.shadows@,
        0,
        x as int,
        y as int,
        w as int,
        h as int,
        radii,
    );
    proof {
        assert(canvas@ =~= start + pass0);
    }
    let ghost m1 = canvas@;

    push_clip_scope(canvas, x, y, w, h, &radii);
    let ghost sopen = spec_node_sopen(*doc, id as int, x as int, y as int);
    proof {
        assert(canvas@ =~= m1 + sopen);
    }
    let ghost m2 = canvas@;

    match &node.style {
        Some(s) => {
            proof {
                assert(doc.nodes@[id as int].style->0 == *s);
            }
            paint_background(canvas, s, x, y, w, h, current);
        },
        None => {
        },
    }
    let ghost s2 = spec_node_s2(*doc, id as int, x as int, y as int);
    proof {
        assert(canvas@ =~= m2 + s2);
    }
    let ghost m3 = canvas@;

    paint_inset_pass(canvas, &inputs.shadows, x, y, w, h, &radii);
    let ghost pass1 = spec_inset_pass_cmds(
        inputs.shadows@,
        0,
        x as int,
        y as int,
        w as int,
        h as int,
        radii,
    );
    proof {
        assert(canvas@ =~= m3 + pass1);
    }
    let ghost m4 = canvas@;

    draw_borders(canvas, x, y, w, h, &inputs.borders);
    let ghost s4 = spec_draw_borders_cmds(
        x as int,
        y as int,
        w as int,
        h as int,
        inputs.borders,
    );
    proof {
        assert(canvas@ =~= m4 + s4);
        assert(canvas@ =~= start + (pass0 + sopen + s2 + pass1 + s4));
    }
}

/// Render one node and its subtree in paint order.
pub fn render_node(
    canvas: &mut Canvas,
    doc: &Document,
    id: usize,
    ox: i64,
    oy: i64,
    cache: &mut FontCache,
)
    requires
        doc.wf(),
        id < doc.nodes@.len(),
        spec_offset_ok(ox as int, id as int),
        spec_offset_ok(oy as int, id as int),
    ensures
        final(canvas)@ == old(canvas)@ + spec_node_cmds(
            *doc,
            id as int,
            ox as int,
            oy as int,
            old(cache)@,
        ).0,
        final(cache)@ == spec_node_cmds(*doc, id as int, ox as int, oy as int, old(cache)@).1,
    decreases doc.nodes@.len() - id, 3int,
{
    let node = &doc.nodes[id];
    proof {
        assert(doc.nodes@[id as int].wf(id as int, doc.nodes@.len() as int));
        assert((id + 1) * COORD_LIMIT + COORD_LIMIT == (id + 2) * COORD_LIMIT) by (nonlinear_arith);
        assert((id + 2) * COORD_LIMIT <= (MAX_NODES + 2) * COORD_LIMIT) by (nonlinear_arith)
            requires
                0 <= id < MAX_NODES,
        ;
    }
    let x: i64 = ox + node.x;
    let y: i64 = oy + node.y;
    if node.width <= 0 || node.height <= 0 {
        render_children(canvas, doc, id, x, y, cache);
        return ;
    }
    render_visible_node(canvas, doc, id, x, y, cache);
    proof {
        let p1 = spec_visible_node_cmds(*doc, id as int, x as int, y as int, old(cache)@);
        let p0 = spec_node_cmds(*doc, id as int, ox as int, oy as int, old(cache)@);
        assert(x as int == ox + doc.nodes@[id as int].x);
        assert(y as int == oy + doc.nodes@[id as int].y);
        assert(p0 == spec_visible_node_cmds(
            *doc,
            id as int,
            ox + doc.nodes@[id as int].x,
            oy + doc.nodes@[id as int].y,
            old(cache)@,
        )) by {
            reveal_with_fuel(spec_node_cmds, 2);
            reveal_with_fuel(spec_visible_node_cmds, 1);
        };
        assert(p0 == p1);
        assert(canvas@ == old(canvas)@ + p1.0);
        assert(cache@ == p1.1);
    }
}

/// Render a node with positive extent at its absolute box origin: shadows,
/// clip, background, borders, text and children in the fixed compositing
/// order.
#[verifier::rlimit(100)]
#[verifier::spinoff_prover]
fn render_visible_node(
    canvas: &mut Canvas,
    doc: &Document,
    id: usize,
    x: i64,
    y: i64,
    cache: &mut FontCache,
)
    requires
        doc.wf(),
        id < doc.nodes@.len(),
        doc.nodes@[id as int].width > 0,
        doc.nodes@[id as int].height > 0,
        -(id + 2) * COORD_LIMIT <= x <= (id + 2) * COORD_LIMIT,
        -(id + 2) * COORD_LIMIT <= y <= (id + 2) * COORD_LIMIT,
        (id + 2) * COORD_LIMIT <= (MAX_NODES + 2) * COORD_LIMIT,
    ensures
        final(canvas)@ == old(canvas)@ + spec_visible_node_cmds(
            *doc,
            id as int,
            x as int,
            y as int,
            old(cache)@,
        ).0,
        final(cache)@ == spec_visible_node_cmds(*doc, id as int, x as int, y as int, old(cache)@).1,
    decreases doc.nodes@.len() - id, 2int,
{
    let ghost full = spec_visible_node_cmds(*doc, id as int, x as int, y as int, old(cache)@);
    let ghost start = canvas@;
    let node = &doc.nodes[id];
    proof {
        assert(doc.nodes@[id as int].wf(id as int, doc.nodes@.len() as int));
    }
    assert(-0x8_0000_0000_0000 <= x <= 0x8_0000_0000_0000);
    assert(-0x8_0000_0000_0000 <= y <= 0x8_0000_0000_0000);

    let inputs = extract_paint_inputs(doc, id);

    // 1 to 5: outset shadows, clip opening, background, inset shadows,
    // borders.
    paint_box_decorations(canvas, doc, id, x, y, &inputs);
    let ghost deco = spec_outset_pass_cmds(
        spec_node_shadows(*doc, id as int),
        0,
        x as int,
        y as int,
        doc.nodes@[id as int].width as int,
        doc.nodes@[id as int].height as int,
        spec_node_radii(*doc, id as int),
    ) + spec_node_sopen(*doc, id as int, x as int, y as int) + spec_node_s2(
        *doc,
        id as int,
        x as int,
        y as int,
    ) + spec_inset_pass_cmds(
        spec_node_shadows(*doc, id as int),
        0,
        x as int,
        y as int,
        doc.nodes@[id as int].width as int,
        doc.nodes@[id as int].height as int,
        spec_node_radii(*doc, id as int),
    ) + spec_draw_borders_cmds(
        x as int,
        y as int,
        doc.nodes@[id as int].width as int,
        doc.nodes@[id as int].height as int,
        spec_node_borders(*doc, id as int),
    );
    let ghost m5 = canvas@;
    let ghost cache5 = cache@;

    // 6. Inline text at the content-box origin.
    match &node.text_layout {
        Some(tlay) => {
            proof {
                assert(doc.nodes@[id as int].text_layout->0 == *tlay);
            }
            let cx: i64 = x + node.padding.left + node.border.left;
            let cy: i64 = y + node.padding.top + node.border.top;
            render_text(canvas, doc, tlay, cx, cy, cache);
        },
        None => {
        },
    }
    let ghost tpair = spec_node_tpair(*doc, id as int, x as int, y as int, cache5);
    proof {
        assert(canvas@ =~= m5 + tpair.0);
        assert(cache@ == tpair.1);
    }
    let ghost m6 = canvas@;

    // 7. The paint-order children at the box origin.
    render_children(canvas, doc, id, x, y, cache);
    let ghost cpair = spec_children_cmds(*doc, id as int, 0, x as int, y as int, tpair.1);
    proof {
        assert(canvas@ =~= m6 + cpair.0);
        assert(cache@ == cpair.1);
    }

    // 8. Close the clip scope.
    if inputs.radii.has_any_radius() {
        canvas.record(DrawCmd::PopClip);
    }
    let ghost sclose = spec_node_sclose(*doc, id as int);
    proof {
        assert(canvas@ =~= ((m5 + tpair.0) + cpair.0) + sclose);
        lemma_visible_node_decomposition(*doc, id as int, x as int, y as int, old(cache)@);
        assert(full.0 == deco + tpair.0 + cpair.0 + sclose);
        assert(full.1 == cpair.1);
        assert(m5 =~= start + deco);
        assert(canvas@ =~= start + full.0);
    }
}


/// The background commands touch no clip scope.
proof fn lemma_bg_layers_fills_only(
    layers: Seq<BackgroundLayer>,
    k: int,
    x: int,
    y: int,
    w: int,
    h: int,
    current: Rgba,
)
    ensures
        crate::scene::fills_only(spec_bg_layers_cmds(layers, k, x, y, w, h, current)),
    decreases layers.len() - k,
{
    if 0 <= k < layers.len() {
        match layers[k] {
            BackgroundLayer::LinearGradient { direction, items, repeating } => {
                match spec_convert_linear_gradient(direction, items@, repeating, w, h, current) {
                    Some(g) => {
                        crate::paint::lemma_gradient_rect_cmds_fills_only(x, y, w, h, g);
                    },
                    None => {
                    },
                }
            },
            BackgroundLayer::Unsupported => {
            },
        }
        lemma_bg_layers_fills_only(layers, k + 1, x, y, w, h, current);
        crate::scene::lemma_fills_only_concat(
            spec_bg_layer_cmds(layers[k], x, y, w, h, current),
            spec_bg_layers_cmds(layers, k + 1, x, y, w, h, current),
        );
    }
}

/// A node's whole background touches no clip scope.
proof fn lemma_background_fills_only(
    style: StyleData,
    x: int,
    y: int,
    w: int,
    h: int,
    current: Rgba,
)
    ensures
        crate::scene::fills_only(spec_background_cmds(style, x, y, w, h, current)),
{
    match spec_extract_color(style.background_color) {
        Some(c) => {
            crate::paint::lemma_rect_cmds_fills_only(x, y, w, h, c.spec_rgb());
        },
        None => {
        },
    }
    lemma_bg_layers_fills_only(style.background_images@, 0, x, y, w, h, current);
    crate::scene::lemma_fills_only_concat(
        spec_bg_color_cmds(style, x, y, w, h),
        spec_bg_layers_cmds(style.background_images@, 0, x, y, w, h, current),
    );
}

/// The outset pass touches no clip scope.
proof fn lemma_outset_pass_fills_only(
    shadows: Seq<BoxShadowData>,
    k: int,
    x: int,
    y: int,
    w: int,
    h: int,
    radii: BorderRadii,
)
    ensures
        crate::scene::fills_only(spec_outset_pass_cmds(shadows, k, x, y, w, h, radii)),
    decreases shadows.len() - k,
{
    if 0 <= k < shadows.len() {
        if !shadows[k].inset {
            crate::shadow::lemma_outset_cmds_fills_only(x, y, w, h, shadows[k], radii);
        }
        lemma_outset_pass_fills_only(shadows, k + 1, x, y, w, h, radii);
        crate::scene::lemma_fills_only_concat(
            if !shadows[k].inset {
                spec_draw_outset_cmds(x, y, w, h, shadows[k], radii)
            } else {
                Seq::<CmdModel>::empty()
            },
            spec_outset_pass_cmds(shadows, k + 1, x, y, w, h, radii),
        );
    }
}

/// The inset pass is balanced: every clip it opens, it closes.
proof fn lemma_inset_pass_balanced(
    shadows: Seq<BoxShadowData>,
    k: int,
    x: int,
    y: int,
    w: int,
    h: int,
    radii: BorderRadii,
)
    ensures
        crate::scene::clip_balanced(spec_inset_pass_cmds(shadows, k, x, y, w, h, radii)),
    decreases shadows.len() - k,
{
    crate::scene::lemma_clip_empty();
    if 0 <= k < shadows.len() {
        if shadows[k].inset {
            crate::shadow::lemma_inset_cmds_balanced(x, y, w, h, shadows[k], radii);
        }
        lemma_inset_pass_balanced(shadows, k + 1, x, y, w, h, radii);
        crate::scene::lemma_clip_concat_balanced(
            if shadows[k].inset {
                spec_draw_inset_cmds(x, y, w, h, shadows[k], radii)
            } else {
                Seq::<CmdModel>::empty()
            },
            spec_inset_pass_cmds(shadows, k + 1, x, y, w, h, radii),
        );
    }
}

/// Text items touch no clip scope.
proof fn lemma_items_fills_only(
    doc: Document,
    tl: TextLayoutData,
    li: int,
    ii: int,
    cx: int,
    cy: int,
    cache: Seq<u64>,
)
    ensures
        crate::scene::fills_only(spec_items_cmds(doc, tl, li, ii, cx, cy, cache).0),
    decreases tl.lines@.len() - li, tl.lines@[li].items@.len() - ii,
{
    if !(li < 0 || li >= tl.lines@.len() || ii < 0 || ii >= tl.lines@[li].items@.len()) {
        match tl.lines@[li].items@[ii] {
            LineItemData::Run(run) => {
                let pair = spec_run_cmds(doc, tl, run, cx, cy, cache);
                assert(crate::scene::fills_only(pair.0));
                lemma_items_fills_only(doc, tl, li, ii + 1, cx, cy, pair.1);
                crate::scene::lemma_fills_only_concat(
                    pair.0,
                    spec_items_cmds(doc, tl, li, ii + 1, cx, cy, pair.1).0,
                );
            },
            LineItemData::InlineBox => {
                lemma_items_fills_only(doc, tl, li, ii + 1, cx, cy, cache);
            },
        }
    }
}

/// Text lines touch no clip scope.
proof fn lemma_lines_fills_only(
    doc: Document,
    tl: TextLayoutData,
    li: int,
    cx: int,
    cy: int,
    cache: Seq<u64>,
)
    ensures
        crate::scene::fills_only(spec_lines_cmds(doc, tl, li, cx, cy, cache).0),
    decreases tl.lines@.len() - li, tl.lines@[li].items@.len() + 1,
{
    if !(li < 0 || li >= tl.lines@.len()) {
        let pair = spec_items_cmds(doc, tl, li, 0, cx, cy, cache);
        lemma_items_fills_only(doc, tl, li, 0, cx, cy, cache);
        lemma_lines_fills_only(doc, tl, li + 1, cx, cy, pair.1);
        crate::scene::lemma_fills_only_concat(
            pair.0,
            spec_lines_cmds(doc, tl, li + 1, cx, cy, pair.1).0,
        );
    }
}

/// A node's commands are balanced: every clip scope the node or its subtree
/// opens is closed on the same path; no pop closes a scope the subtree did
/// not open. This is the stack discipline the vector surface demands of its
/// clip stack.
pub proof fn lemma_node_cmds_balanced(doc: Document, id: int, ox: int, oy: int, cache: Seq<u64>)
    ensures
        crate::scene::clip_balanced(spec_node_cmds(doc, id, ox, oy, cache).0),
    decreases doc.nodes@.len() - id, 3int, 0int,
{
    reveal_with_fuel(spec_node_cmds, 2);
    reveal_with_fuel(spec_visible_node_cmds, 1);
    crate::scene::lemma_clip_empty();
    if 0 <= id < doc.nodes@.len() {
        let node = doc.nodes@[id];
        let x = ox + node.x;
        let y = oy + node.y;
        if node.width <= 0 || node.height <= 0 {
            lemma_children_cmds_balanced(doc, id, 0, x, y, cache);
        } else {
            lemma_visible_cmds_balanced(doc, id, x, y, cache);
        }
    }
}

/// A visible node's commands are balanced.
#[verifier::rlimit(100)]
#[verifier::spinoff_prover]
proof fn lemma_visible_cmds_balanced(doc: Document, id: int, x: int, y: int, cache: Seq<u64>)
    requires
        0 <= id < doc.nodes@.len(),
        doc.nodes@[id].width > 0,
        doc.nodes@[id].height > 0,
    ensures
        crate::scene::clip_balanced(spec_visible_node_cmds(doc, id, x, y, cache).0),
    decreases doc.nodes@.len() - id, 2int, 0int,
{
    let node = doc.nodes@[id];
    let w = node.width as int;
    let h = node.height as int;
    let shadows = spec_node_shadows(doc, id);
    let radii = spec_node_radii(doc, id);
    let borders = spec_node_borders(doc, id);
    lemma_visible_node_decomposition(doc, id, x, y, cache);
    let s1 = spec_outset_pass_cmds(shadows, 0, x, y, w, h, radii);
    let sopen = spec_node_sopen(doc, id, x, y);
    let s2 = spec_node_s2(doc, id, x, y);
    let s3 = spec_inset_pass_cmds(shadows, 0, x, y, w, h, radii);
    let s4 = spec_draw_borders_cmds(x, y, w, h, borders);
    let tpair = spec_node_tpair(doc, id, x, y, cache);
    let cpair = spec_children_cmds(doc, id, 0, x, y, tpair.1);
    let sclose = spec_node_sclose(doc, id);

    lemma_outset_pass_fills_only(shadows, 0, x, y, w, h, radii);
    crate::scene::lemma_fills_only_balanced(s1);
    match node.style {
        Some(st) => {
            lemma_background_fills_only(st, x, y, w, h, spec_node_current(doc, id));
        },
        None => {
        },
    }
    crate::scene::lemma_fills_only_balanced(s2);
    lemma_inset_pass_balanced(shadows, 0, x, y, w, h, radii);
    crate::border::lemma_borders_cmds_fills_only(x, y, w, h, borders);
    crate::scene::lemma_fills_only_balanced(s4);
    match node.text_layout {
        Some(tl) => {
            lemma_lines_fills_only(
                doc,
                tl,
                0,
                x + node.padding.left + node.border.left,
                y + node.padding.top + node.border.top,
                cache,
            );
        },
        None => {
        },
    }
    crate::scene::lemma_fills_only_balanced(tpair.0);
    lemma_children_cmds_balanced(doc, id, 0, x, y, tpair.1);

    // The middle of the sandwich between the clip opening and closing.
    let mid = s2 + s3 + s4 + tpair.0 + cpair.0;
    crate::scene::lemma_clip_concat_balanced(s2, s3);
    crate::scene::lemma_clip_concat_balanced(s2 + s3, s4);
    crate::scene::lemma_clip_concat_balanced(s2 + s3 + s4, tpair.0);
    crate::scene::lemma_clip_concat_balanced(s2 + s3 + s4 + tpair.0, cpair.0);
    if radii.spec_has_any_radius() {
        crate::scene::lemma_clip_wrap(
            crate::path::spec_rounded_rect_path(x, y, w, h, spec_clamped_radii(radii, w, h)),
            mid,
        );
        assert(sopen + mid + sclose =~= (sopen + s2 + s3 + s4 + tpair.0 + cpair.0) + sclose);
        crate::scene::lemma_clip_concat_balanced(s1, (sopen + s2 + s3 + s4 + tpair.0 + cpair.0)
            + sclose);
        assert(s1 + ((sopen + s2 + s3 + s4 + tpair.0 + cpair.0) + sclose) =~= s1 + sopen + s2 + s3
            + s4 + tpair.0 + cpair.0 + sclose);
    } else {
        assert(sopen =~= Seq::<CmdModel>::empty());
        assert(sclose =~= Seq::<CmdModel>::empty());
        crate::scene::lemma_clip_concat_balanced(s1, mid);
        assert(s1 + mid =~= s1 + sopen + s2 + s3 + s4 + tpair.0 + cpair.0 + sclose);
    }
    assert(spec_visible_node_cmds(doc, id, x, y, cache).0 == s1 + sopen + s2 + s3 + s4 + tpair.0
        + cpair.0 + sclose);
}

/// The children's commands are balanced.
proof fn lemma_children_cmds_balanced(
    doc: Document,
    id: int,
    j: int,
    x: int,
    y: int,
    cache: Seq<u64>,
)
    ensures
        crate::scene::clip_balanced(spec_children_cmds(doc, id, j, x, y, cache).0),
    decreases doc.nodes@.len() - id, 1int, doc.nodes@[id].paint_children@.len() - j,
{
    reveal_with_fuel(spec_children_cmds, 2);
    crate::scene::lemma_clip_empty();
    if !(id < 0 || id >= doc.nodes@.len() || j < 0 || j >= doc.nodes@[id].paint_children@.len()) {
        let c = doc.nodes@[id].paint_children@[j] as int;
        let pair = if id < c < doc.nodes@.len() {
            spec_node_cmds(doc, c, x, y, cache)
        } else {
            (Seq::<CmdModel>::empty(), cache)
        };
        if id < c < doc.nodes@.len() {
            lemma_node_cmds_balanced(doc, c, x, y, cache);
        }
        lemma_children_cmds_balanced(doc, id, j + 1, x, y, pair.1);
        crate::scene::lemma_clip_concat_balanced(
            pair.0,
            spec_children_cmds(doc, id, j + 1, x, y, pair.1).0,
        );
    }
}

} // verus!
