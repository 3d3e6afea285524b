//! Borders: per-edge extraction from style data and mitered trapezoid
//! drawing.

use vstd::prelude::*;
use crate::color::{resolve_color, spec_resolve_color, CssColor, Rgb, Rgba};
use crate::geom::{ALPHA_ONE, COORD_LIMIT, POS_LIMIT};
use crate::gradient::{clamp_unit, spec_clamp_unit};
use crate::path::{el_line, el_move, PathEl};
use crate::scene::{Canvas, CmdModel, DrawCmd, PaintModel, PaintSpec};

verus! {

/// The line style of one border edge, as far as drawing cares: the CSS
/// `none` and `hidden` keywords suppress the edge; every other style is
/// drawn as a solid edge.
#[derive(Debug, Clone, Copy, PartialEq, Eq, Structural)]
pub enum BorderLineStyle {
    /// The CSS `none` keyword.
    Absent,
    /// The CSS `hidden` keyword.
    Hidden,
    /// A solid line.
    Solid,
    /// Any other drawn style; painted as a solid line.
    Other,
}

/// Whether a line style draws anything at all.
pub open spec fn spec_style_drawn(s: BorderLineStyle) -> bool {
    !(s is Absent) && !(s is Hidden)
}

/// The style inputs of one border edge.
#[derive(Debug, Clone, Copy, PartialEq, Eq, Structural)]
pub struct EdgeStyleSpec {
    pub color: CssColor,
    pub style: BorderLineStyle,
}

/// The style inputs of all four border edges.
#[derive(Debug, Clone, Copy, PartialEq, Eq, Structural)]
pub struct BordersSpec {
    pub top: EdgeStyleSpec,
    pub right: EdgeStyleSpec,
    pub bottom: EdgeStyleSpec,
    pub left: EdgeStyleSpec,
}

impl BordersSpec {
    pub open spec fn wf(self) -> bool {
        &&& self.top.color.wf()
        &&& self.right.color.wf()
        &&& self.bottom.color.wf()
        &&& self.left.color.wf()
    }
}

/// Border widths taken from layout, one per edge, in thousandths of a pixel.
#[derive(Debug, Clone, Copy, PartialEq, Eq, Structural)]
pub struct BorderWidths {
    pub top: i64,
    pub right: i64,
    pub bottom: i64,
    pub left: i64,
}

impl BorderWidths {
    pub open spec fn bounded(self) -> bool {
        &&& -COORD_LIMIT <= self.top <= COORD_LIMIT
        &&& -COORD_LIMIT <= self.right <= COORD_LIMIT
        &&& -COORD_LIMIT <= self.bottom <= COORD_LIMIT
        &&& -COORD_LIMIT <= self.left <= COORD_LIMIT
    }

}

/// One border edge ready for drawing.
#[derive(Debug, Clone, Copy, PartialEq, Eq, Structural)]
pub struct EdgeBorder {
    pub color: Rgb,
    /// Alpha in millionths.
    pub alpha_ppm: i64,
    /// Width in thousandths of a pixel.
    pub width: i64,
    pub visible: bool,
}

impl Default for EdgeBorder {
    /// An invisible edge of no width.
    fn default() -> (r: EdgeBorder)
        ensures
            r == EdgeBorder::spec_default(),
    {
        EdgeBorder { color: Rgb { r: 0, g: 0, b: 0 }, alpha_ppm: 0, width: 0, visible: false }
    }
}

impl EdgeBorder {
    /// The invisible edge.
    pub open spec fn spec_default() -> EdgeBorder {
        EdgeBorder { color: Rgb { r: 0, g: 0, b: 0 }, alpha_ppm: 0, width: 0, visible: false }
    }
}

/// All four edges ready for drawing.
#[derive(Debug, Clone, Copy, PartialEq, Eq, Structural)]
pub struct Borders {
    pub top: EdgeBorder,
    pub right: EdgeBorder,
    pub bottom: EdgeBorder,
    pub left: EdgeBorder,
}

/// What one edge's style and width extract to: an invisible edge when the
/// width is not positive or the style draws nothing, otherwise a visible
/// edge with the resolved color.
pub open spec fn spec_extract_edge(e: EdgeStyleSpec, width: int, current: Rgba) -> EdgeBorder {
    if width <= 0 || !spec_style_drawn(e.style) {
        EdgeBorder::spec_default()
    } else {
        let resolved = spec_resolve_color(e.color, current);
        EdgeBorder {
            color: resolved.spec_rgb(),
            alpha_ppm: spec_clamp_unit(resolved.alpha_ppm as int) as i64,
            width: width as i64,
            visible: true,
        }
    }
}

/// What a style's border data extracts to, edge by edge.
pub open spec fn spec_extract_borders(
    spec: BordersSpec,
    widths: BorderWidths,
    current: Rgba,
) -> Borders {
    Borders {
        top: spec_extract_edge(spec.top, widths.top as int, current),
        right: spec_extract_edge(spec.right, widths.right as int, current),
        bottom: spec_extract_edge(spec.bottom, widths.bottom as int, current),
        left: spec_extract_edge(spec.left, widths.left as int, current),
    }
}

/// Extract one border edge.
fn extract_edge(e: &EdgeStyleSpec, width: i64, current: Rgba) -> (r: EdgeBorder)
    ensures
        r == spec_extract_edge(*e, width as int, current),
{
    let drawn = match e.style {
        BorderLineStyle::Absent => false,
        BorderLineStyle::Hidden => false,
        _ => true,
    };
    if width <= 0 || !drawn {
        EdgeBorder::default()
    } else {
        let resolved = resolve_color(&e.color, current);
        EdgeBorder {
            color: resolved.rgb(),
            alpha_ppm: clamp_unit(resolved.alpha_ppm),
            width,
            visible: true,
        }
    }
}

/// Extract all four border edges from style and layout data.
pub fn extract_borders(spec: &BordersSpec, widths: BorderWidths, current: Rgba) -> (r: Borders)
    ensures
        r == spec_extract_borders(*spec, widths, current),
{
    Borders {
        top: extract_edge(&spec.top, widths.top, current),
        right: extract_edge(&spec.right, widths.right, current),
        bottom: extract_edge(&spec.bottom, widths.bottom, current),
        left: extract_edge(&spec.left, widths.left, current),
    }
}

/// The quadrilateral path from an outer edge to an inner edge.
pub open spec fn spec_quad_path(
    ox0: int,
    oy0: int,
    ox1: int,
    oy1: int,
    ix0: int,
    iy0: int,
    ix1: int,
    iy1: int,
) -> Seq<PathEl> {
    seq![
        el_move(ox0, oy0),
        el_line(ox1, oy1),
        el_line(ix1, iy1),
        el_line(ix0, iy0),
        PathEl::Close,
    ]
}

/// The commands of one border edge: a filled quadrilateral, or nothing when
/// the alpha is not positive.
pub open spec fn spec_border_edge_cmds(
    ox0: int,
    oy0: int,
    ox1: int,
    oy1: int,
    ix0: int,
    iy0: int,
    ix1: int,
    iy1: int,
    color: Rgb,
    alpha_ppm: int,
) -> Seq<CmdModel> {
    if alpha_ppm <= 0 {
        Seq::<CmdModel>::empty()
    } else {
        seq![
            CmdModel::FillPath {
                path: spec_quad_path(ox0, oy0, ox1, oy1, ix0, iy0, ix1, iy1),
                paint: PaintModel::Solid(color),
                opacity_ppm: alpha_ppm,
            },
        ]
    }
}

/// Draw one border edge as a quadrilateral from its outer to its inner edge.
pub fn draw_border_edge(
    canvas: &mut Canvas,
    ox0: i64,
    oy0: i64,
    ox1: i64,
    oy1: i64,
    ix0: i64,
    iy0: i64,
    ix1: i64,
    iy1: i64,
    color: Rgb,
    alpha_ppm: i64,
)
    requires
        alpha_ppm <= ALPHA_ONE,
    ensures
        final(canvas)@ == old(canvas)@ + spec_border_edge_cmds(
            ox0 as int,
            oy0 as int,
            ox1 as int,
            oy1 as int,
            ix0 as int,
            iy0 as int,
            ix1 as int,
            iy1 as int,
            color,
            alpha_ppm as int,
        ),
{
    if alpha_ppm <= 0 {
        proof {
            assert(old(canvas)@ + Seq::<CmdModel>::empty() =~= old(canvas)@);
        }
        return ;
    }
    let mut path: Vec<PathEl> = Vec::new();
    path.push(PathEl::MoveTo { x: ox0, y: oy0 });
    path.push(PathEl::LineTo { x: ox1, y: oy1 });
    path.push(PathEl::LineTo { x: ix1, y: iy1 });
    path.push(PathEl::LineTo { x: ix0, y: iy0 });
    path.push(PathEl::Close);
    proof {
        assert(path@ =~= spec_quad_path(
            ox0 as int,
            oy0 as int,
            ox1 as int,
            oy1 as int,
            ix0 as int,
            iy0 as int,
            ix1 as int,
            iy1 as int,
        ));
    }
    let cmd = DrawCmd::FillPath { path, paint: PaintSpec::Solid(color), opacity_ppm: alpha_ppm };
    canvas.record(cmd);
    proof {
        assert(canvas@ =~= old(canvas)@ + spec_border_edge_cmds(
            ox0 as int,
            oy0 as int,
            ox1 as int,
            oy1 as int,
            ix0 as int,
            iy0 as int,
            ix1 as int,
            iy1 as int,
            color,
            alpha_ppm as int,
        ));
    }
}

/// The commands of the top edge: its outer boundary is the box's top side;
/// its inner boundary is offset down by its own width and inset by the left
/// and right widths, which miters the corners.
pub open spec fn spec_top_border_cmds(x: int, y: int, w: int, h: int, b: Borders) -> Seq<
    CmdModel,
> {
    if b.top.visible && b.top.alpha_ppm > 0 {
        spec_border_edge_cmds(
            x,
            y,
            x + w,
            y,
            x + b.left.width,
            y + b.top.width,
            x + w - b.right.width,
            y + b.top.width,
            b.top.color,
            b.top.alpha_ppm as int,
        )
    } else {
        Seq::<CmdModel>::empty()
    }
}

/// The commands of the right edge.
pub open spec fn spec_right_border_cmds(x: int, y: int, w: int, h: int, b: Borders) -> Seq<
    CmdModel,
> {
    if b.right.visible && b.right.alpha_ppm > 0 {
        spec_border_edge_cmds(
            x + w,
            y,
            x + w,
            y + h,
            x + w - b.right.width,
            y + b.top.width,
            x + w - b.right.width,
            y + h - b.bottom.width,
            b.right.color,
            b.right.alpha_ppm as int,
        )
    } else {
        Seq::<CmdModel>::empty()
    }
}

/// The commands of the bottom edge.
pub open spec fn spec_bottom_border_cmds(x: int, y: int, w: int, h: int, b: Borders) -> Seq<
    CmdModel,
> {
    if b.bottom.visible && b.bottom.alpha_ppm > 0 {
        spec_border_edge_cmds(
            x + w,
            y + h,
            x,
            y + h,
            x + w - b.right.width,
            y + h - b.bottom.width,
            x + b.left.width,
            y + h - b.bottom.width,
            b.bottom.color,
            b.bottom.alpha_ppm as int,
        )
    } else {
        Seq::<CmdModel>::empty()
    }
}

/// The commands of the left edge.
pub open spec fn spec_left_border_cmds(x: int, y: int, w: int, h: int, b: Borders) -> Seq<
    CmdModel,
> {
    if b.left.visible && b.left.alpha_ppm > 0 {
        spec_border_edge_cmds(
            x,
            y + h,
            x,
            y,
            x + b.left.width,
            y + h - b.bottom.width,
            x + b.left.width,
            y + b.top.width,
            b.left.color,
            b.left.alpha_ppm as int,
        )
    } else {
        Seq::<CmdModel>::empty()
    }
}

/// The commands of all four borders, drawn top, right, bottom, left.
pub open spec fn spec_draw_borders_cmds(x: int, y: int, w: int, h: int, b: Borders) -> Seq<
    CmdModel,
> {
    spec_top_border_cmds(x, y, w, h, b) + spec_right_border_cmds(x, y, w, h, b)
        + spec_bottom_border_cmds(x, y, w, h, b) + spec_left_border_cmds(x, y, w, h, b)
}

/// Draw the four border edges as mitered trapezoids.
pub fn draw_borders(canvas: &mut Canvas, x: i64, y: i64, w: i64, h: i64, borders: &Borders)
    requires
        -POS_LIMIT <= x <= POS_LIMIT,
        -POS_LIMIT <= y <= POS_LIMIT,
        0 <= w <= COORD_LIMIT,
        0 <= h <= COORD_LIMIT,
        -COORD_LIMIT <= borders.top.width <= COORD_LIMIT,
        -COORD_LIMIT <= borders.right.width <= COORD_LIMIT,
        -COORD_LIMIT <= borders.bottom.width <= COORD_LIMIT,
        -COORD_LIMIT <= borders.left.width <= COORD_LIMIT,
        borders.top.alpha_ppm <= ALPHA_ONE,
        borders.right.alpha_ppm <= ALPHA_ONE,
        borders.bottom.alpha_ppm <= ALPHA_ONE,
        borders.left.alpha_ppm <= ALPHA_ONE,
    ensures
        final(canvas)@ == old(canvas)@ + spec_draw_borders_cmds(
            x as int,
            y as int,
            w as int,
            h as int,
            *borders,
        ),
{
    let ghost start = canvas@;
    let b = *borders;
    if b.top.visible && b.top.alpha_ppm > 0 {
        draw_border_edge(
            canvas,
            x,
            y,
            x + w,
            y,
            x + b.left.width,
            y + b.top.width,
            x + w - b.right.width,
            y + b.top.width,
            b.top.color,
            b.top.alpha_ppm,
        );
    }
    proof {
        assert(canvas@ =~= start + spec_top_border_cmds(x as int, y as int, w as int, h as int, b));
    }
    let ghost after_top = canvas@;
    if b.right.visible && b.right.alpha_ppm > 0 {
        draw_border_edge(
            canvas,
            x + w,
            y,
            x + w,
            y + h,
            x + w - b.right.width,
            y + b.top.width,
            x + w - b.right.width,
            y + h - b.bottom.width,
            b.right.color,
            b.right.alpha_ppm,
        );
    }
    proof {
        assert(canvas@ =~= after_top + spec_right_border_cmds(
            x as int,
            y as int,
            w as int,
            h as int,
            b,
        ));
    }
    let ghost after_right = canvas@;
    if b.bottom.visible && b.bottom.alpha_ppm > 0 {
        draw_border_edge(
            canvas,
            x + w,
            y + h,
            x,
            y + h,
            x + w - b.right.width,
            y + h - b.bottom.width,
            x + b.left.width,
            y + h - b.bottom.width,
            b.bottom.color,
            b.bottom.alpha_ppm,
        );
    }
    proof {
        assert(canvas@ =~= after_right + spec_bottom_border_cmds(
            x as int,
            y as int,
            w as int,
            h as int,
            b,
        ));
    }
    let ghost after_bottom = canvas@;
    if b.left.visible && b.left.alpha_ppm > 0 {
        draw_border_edge(
            canvas,
            x,
            y + h,
            x,
            y,
            x + b.left.width,
            y + h - b.bottom.width,
            x + b.left.width,
            y + b.top.width,
            b.left.color,
            b.left.alpha_ppm,
        );
    }
    proof {
        assert(canvas@ =~= after_bottom + spec_left_border_cmds(
            x as int,
            y as int,
            w as int,
            h as int,
            b,
        ));
        assert(canvas@ =~= start + spec_draw_borders_cmds(
            x as int,
            y as int,
            w as int,
            h as int,
            b,
        ));
    }
}

/// A suppressed edge draws nothing, and suppressing it leaves the other
/// three edges drawn: an edge whose width is not positive or whose style is
/// `none` or `hidden` contributes no commands, while every other visible
/// edge with visible color still contributes exactly one fill.
pub proof fn lemma_border_edge_suppression(
    spec: BordersSpec,
    widths: BorderWidths,
    current: Rgba,
    x: int,
    y: int,
    w: int,
    h: int,
)
    ensures
        ({
            let b = spec_extract_borders(spec, widths, current);
            &&& (widths.top <= 0 || !spec_style_drawn(spec.top.style)) ==> spec_top_border_cmds(
                x,
                y,
                w,
                h,
                b,
            ) == Seq::<CmdModel>::empty()
            &&& (widths.right <= 0 || !spec_style_drawn(spec.right.style))
                ==> spec_right_border_cmds(x, y, w, h, b) == Seq::<CmdModel>::empty()
            &&& (widths.bottom <= 0 || !spec_style_drawn(spec.bottom.style))
                ==> spec_bottom_border_cmds(x, y, w, h, b) == Seq::<CmdModel>::empty()
            &&& (widths.left <= 0 || !spec_style_drawn(spec.left.style)) ==> spec_left_border_cmds(
                x,
                y,
                w,
                h,
                b,
            ) == Seq::<CmdModel>::empty()
            &&& (b.top.visible && b.top.alpha_ppm > 0) ==> spec_top_border_cmds(
                x,
                y,
                w,
                h,
                b,
            ).len() == 1
            &&& (b.right.visible && b.right.alpha_ppm > 0) ==> spec_right_border_cmds(
                x,
                y,
                w,
                h,
                b,
            ).len() == 1
            &&& (b.bottom.visible && b.bottom.alpha_ppm > 0) ==> spec_bottom_border_cmds(
                x,
                y,
                w,
                h,
                b,
            ).len() == 1
            &&& (b.left.visible && b.left.alpha_ppm > 0) ==> spec_left_border_cmds(
                x,
                y,
                w,
                h,
                b,
            ).len() == 1
            &&& spec_draw_borders_cmds(x, y, w, h, b) == spec_top_border_cmds(x, y, w, h, b)
                + spec_right_border_cmds(x, y, w, h, b) + spec_bottom_border_cmds(x, y, w, h, b)
                + spec_left_border_cmds(x, y, w, h, b)
        }),
{
}


/// Border drawing touches no clip scope.
pub proof fn lemma_borders_cmds_fills_only(x: int, y: int, w: int, h: int, b: Borders)
    ensures
        crate::scene::fills_only(spec_draw_borders_cmds(x, y, w, h, b)),
{
    crate::scene::lemma_fills_only_concat(
        spec_top_border_cmds(x, y, w, h, b),
        spec_right_border_cmds(x, y, w, h, b),
    );
    crate::scene::lemma_fills_only_concat(
        spec_top_border_cmds(x, y, w, h, b) + spec_right_border_cmds(x, y, w, h, b),
        spec_bottom_border_cmds(x, y, w, h, b),
    );
    crate::scene::lemma_fills_only_concat(
        spec_top_border_cmds(x, y, w, h, b) + spec_right_border_cmds(x, y, w, h, b)
            + spec_bottom_border_cmds(x, y, w, h, b),
        spec_left_border_cmds(x, y, w, h, b),
    );
}

} // verus!
