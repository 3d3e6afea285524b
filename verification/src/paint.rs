//! Basic fill operations: solid rectangles, gradient rectangles, and
//! rectangles with alpha and optional rounded corners.

use vstd::prelude::*;
use crate::color::Rgb;
use crate::geom::{spec_clamped_radii, BorderRadii, ALPHA_ONE, COORD_LIMIT, DIM_LIMIT, POS_LIMIT};
use crate::gradient::{GradientModel, LinearGradientPaint};
use crate::path::{rect_path, rounded_rect_path, spec_rect_path, spec_rounded_rect_path};
use crate::scene::{Canvas, CmdModel, DrawCmd, PaintModel, PaintSpec};

verus! {

/// The commands of a solid opaque rectangle: one fill, or nothing for a box
/// without extent.
pub open spec fn spec_draw_rect_cmds(x: int, y: int, w: int, h: int, color: Rgb) -> Seq<CmdModel> {
    if w <= 0 || h <= 0 {
        Seq::<CmdModel>::empty()
    } else {
        seq![
            CmdModel::FillPath {
                path: spec_rect_path(x, y, w, h),
                paint: PaintModel::Solid(color),
                opacity_ppm: ALPHA_ONE as int,
            },
        ]
    }
}

/// Fill a rectangle with a solid opaque color; boxes without extent are
/// skipped.
pub fn draw_rect(canvas: &mut Canvas, x: i64, y: i64, w: i64, h: i64, color: Rgb)
    requires
        -POS_LIMIT <= x <= POS_LIMIT,
        -POS_LIMIT <= y <= POS_LIMIT,
        w <= DIM_LIMIT,
        h <= DIM_LIMIT,
    ensures
        final(canvas)@ == old(canvas)@ + spec_draw_rect_cmds(
            x as int,
            y as int,
            w as int,
            h as int,
            color,
        ),
{
    if w <= 0 || h <= 0 {
        proof {
            assert(old(canvas)@ + Seq::<CmdModel>::empty() =~= old(canvas)@);
        }
        return ;
    }
    let path = rect_path(x, y, w, h);
    let cmd = DrawCmd::FillPath { path, paint: PaintSpec::Solid(color), opacity_ppm: ALPHA_ONE };
    canvas.record(cmd);
    proof {
        assert(canvas@ =~= old(canvas)@ + spec_draw_rect_cmds(
            x as int,
            y as int,
            w as int,
            h as int,
            color,
        ));
    }
}

/// A gradient translated to an absolute position.
pub open spec fn spec_translated_gradient(g: GradientModel, x: int, y: int) -> GradientModel {
    GradientModel { x1: x + g.x1, y1: y + g.y1, x2: x + g.x2, y2: y + g.y2, ..g }
}

/// The commands of a gradient-filled rectangle: one fill with the gradient
/// line moved to the box's absolute position, or nothing for a box without
/// extent.
pub open spec fn spec_draw_gradient_rect_cmds(
    x: int,
    y: int,
    w: int,
    h: int,
    g: GradientModel,
) -> Seq<CmdModel> {
    if w <= 0 || h <= 0 {
        Seq::<CmdModel>::empty()
    } else {
        seq![
            CmdModel::FillPath {
                path: spec_rect_path(x, y, w, h),
                paint: PaintModel::LinearGradient(spec_translated_gradient(g, x, y)),
                opacity_ppm: ALPHA_ONE as int,
            },
        ]
    }
}

/// Fill a rectangle with a linear gradient; boxes without extent are
/// skipped.
pub fn draw_gradient_rect(
    canvas: &mut Canvas,
    x: i64,
    y: i64,
    w: i64,
    h: i64,
    gradient: LinearGradientPaint,
)
    requires
        -POS_LIMIT <= x <= POS_LIMIT,
        -POS_LIMIT <= y <= POS_LIMIT,
        w <= DIM_LIMIT,
        h <= DIM_LIMIT,
        -0x1_0000_0000 <= gradient@.x1 <= 0x1_0000_0000,
        -0x1_0000_0000 <= gradient@.y1 <= 0x1_0000_0000,
        -0x1_0000_0000 <= gradient@.x2 <= 0x1_0000_0000,
        -0x1_0000_0000 <= gradient@.y2 <= 0x1_0000_0000,
    ensures
        final(canvas)@ == old(canvas)@ + spec_draw_gradient_rect_cmds(
            x as int,
            y as int,
            w as int,
            h as int,
            gradient@,
        ),
{
    let ghost g = gradient@;
    if w <= 0 || h <= 0 {
        proof {
            assert(old(canvas)@ + Seq::<CmdModel>::empty() =~= old(canvas)@);
        }
        return ;
    }
    let translated = LinearGradientPaint {
        x1: x + gradient.x1,
        y1: y + gradient.y1,
        x2: x + gradient.x2,
        y2: y + gradient.y2,
        spread: gradient.spread,
        stops: gradient.stops,
    };
    proof {
        assert(translated@ == spec_translated_gradient(g, x as int, y as int));
    }
    let path = rect_path(x, y, w, h);
    let cmd = DrawCmd::FillPath {
        path,
        paint: PaintSpec::LinearGradient(translated),
        opacity_ppm: ALPHA_ONE,
    };
    canvas.record(cmd);
    proof {
        assert(canvas@ =~= old(canvas)@ + spec_draw_gradient_rect_cmds(
            x as int,
            y as int,
            w as int,
            h as int,
            g,
        ));
    }
}

/// Radii grown by a shadow's spread, clamped at zero.
pub open spec fn spec_grown_radius(r: int, spread: int) -> int {
    if r + spread < 0 {
        0
    } else {
        r + spread
    }
}

/// All radii grown by a spread, each component clamped at zero; radii stay
/// untouched when no corner is rounded or the spread is zero.
pub open spec fn spec_grown_radii(radii: BorderRadii, spread: int) -> BorderRadii {
    if radii.spec_has_any_radius() && spread != 0 {
        BorderRadii {
            top_left: crate::geom::CornerRadius {
                rx: spec_grown_radius(radii.top_left.rx as int, spread) as i64,
                ry: spec_grown_radius(radii.top_left.ry as int, spread) as i64,
            },
            top_right: crate::geom::CornerRadius {
                rx: spec_grown_radius(radii.top_right.rx as int, spread) as i64,
                ry: spec_grown_radius(radii.top_right.ry as int, spread) as i64,
            },
            bottom_right: crate::geom::CornerRadius {
                rx: spec_grown_radius(radii.bottom_right.rx as int, spread) as i64,
                ry: spec_grown_radius(radii.bottom_right.ry as int, spread) as i64,
            },
            bottom_left: crate::geom::CornerRadius {
                rx: spec_grown_radius(radii.bottom_left.rx as int, spread) as i64,
                ry: spec_grown_radius(radii.bottom_left.ry as int, spread) as i64,
            },
        }
    } else {
        radii
    }
}

/// The commands of a rectangle filled at an alpha value, with corners
/// rounded by the radii grown to follow the spread: one fill, or nothing
/// when the box has no extent or the alpha is not positive.
pub open spec fn spec_draw_rect_alpha_cmds(
    x: int,
    y: int,
    w: int,
    h: int,
    color: Rgb,
    alpha_ppm: int,
    radii: BorderRadii,
    spread: int,
) -> Seq<CmdModel> {
    if w <= 0 || h <= 0 || alpha_ppm <= 0 {
        Seq::<CmdModel>::empty()
    } else {
        let grown = spec_grown_radii(radii, spread);
        let path = if grown.spec_has_any_radius() {
            spec_rounded_rect_path(x, y, w, h, spec_clamped_radii(grown, w, h))
        } else {
            spec_rect_path(x, y, w, h)
        };
        seq![
            CmdModel::FillPath {
                path,
                paint: PaintModel::Solid(color),
                opacity_ppm: alpha_ppm,
            },
        ]
    }
}

/// Fill a rectangle at an alpha value, rounding its corners by the radii
/// grown to follow the spread (so a shadow's corners stay visually
/// consistent with the rounded box that casts it).
pub fn draw_rect_with_alpha(
    canvas: &mut Canvas,
    x: i64,
    y: i64,
    w: i64,
    h: i64,
    color: Rgb,
    alpha_ppm: i64,
    radii: &BorderRadii,
    spread: i64,
)
    requires
        -POS_LIMIT <= x <= POS_LIMIT,
        -POS_LIMIT <= y <= POS_LIMIT,
        w <= DIM_LIMIT,
        h <= DIM_LIMIT,
        radii.bounded_by(COORD_LIMIT as int),
        -DIM_LIMIT <= spread <= DIM_LIMIT,
        alpha_ppm <= ALPHA_ONE,
    ensures
        final(canvas)@ == old(canvas)@ + spec_draw_rect_alpha_cmds(
            x as int,
            y as int,
            w as int,
            h as int,
            color,
            alpha_ppm as int,
            *radii,
            spread as int,
        ),
{
    let ghost target = spec_draw_rect_alpha_cmds(
        x as int,
        y as int,
        w as int,
        h as int,
        color,
        alpha_ppm as int,
        *radii,
        spread as int,
    );
    if w <= 0 || h <= 0 || alpha_ppm <= 0 {
        proof {
            assert(old(canvas)@ + Seq::<CmdModel>::empty() =~= old(canvas)@);
        }
        return ;
    }
    let grown = if radii.has_any_radius() && spread != 0 {
        BorderRadii {
            top_left: crate::geom::CornerRadius {
                rx: grow_radius(radii.top_left.rx, spread),
                ry: grow_radius(radii.top_left.ry, spread),
            },
            top_right: crate::geom::CornerRadius {
                rx: grow_radius(radii.top_right.rx, spread),
                ry: grow_radius(radii.top_right.ry, spread),
            },
            bottom_right: crate::geom::CornerRadius {
                rx: grow_radius(radii.bottom_right.rx, spread),
                ry: grow_radius(radii.bottom_right.ry, spread),
            },
            bottom_left: crate::geom::CornerRadius {
                rx: grow_radius(radii.bottom_left.rx, spread),
                ry: grow_radius(radii.bottom_left.ry, spread),
            },
        }
    } else {
        *radii
    };
    proof {
        assert(grown == spec_grown_radii(*radii, spread as int));
    }
    let path: Vec<crate::path::PathEl> = if grown.has_any_radius() {
        match rounded_rect_path(x, y, w, h, &grown) {
            Some(p) => p,
            None => {
                proof {
                    assert(false);
                }
                Vec::new()
            },
        }
    } else {
        rect_path(x, y, w, h)
    };
    let cmd = DrawCmd::FillPath { path, paint: PaintSpec::Solid(color), opacity_ppm: alpha_ppm };
    canvas.record(cmd);
    proof {
        assert(canvas@ =~= old(canvas)@ + target);
    }
}

/// A radius plus a spread, clamped at zero.
fn grow_radius(r: i64, spread: i64) -> (g: i64)
    requires
        -COORD_LIMIT <= r <= COORD_LIMIT,
        -DIM_LIMIT <= spread <= DIM_LIMIT,
    ensures
        g == spec_grown_radius(r as int, spread as int),
{
    if r + spread < 0 {
        0
    } else {
        r + spread
    }
}

/// The commands of a plain rectangle filled at an alpha value, with no
/// rounding: one fill, or nothing when the box has no extent or the alpha is
/// not positive.
pub open spec fn spec_draw_rect_simple_cmds(
    x: int,
    y: int,
    w: int,
    h: int,
    color: Rgb,
    alpha_ppm: int,
) -> Seq<CmdModel> {
    if w <= 0 || h <= 0 || alpha_ppm <= 0 {
        Seq::<CmdModel>::empty()
    } else {
        seq![
            CmdModel::FillPath {
                path: spec_rect_path(x, y, w, h),
                paint: PaintModel::Solid(color),
                opacity_ppm: alpha_ppm,
            },
        ]
    }
}

/// Fill a plain rectangle at an alpha value.
pub fn draw_rect_simple(
    canvas: &mut Canvas,
    x: i64,
    y: i64,
    w: i64,
    h: i64,
    color: Rgb,
    alpha_ppm: i64,
)
    requires
        -POS_LIMIT <= x <= POS_LIMIT,
        -POS_LIMIT <= y <= POS_LIMIT,
        w <= DIM_LIMIT,
        h <= DIM_LIMIT,
        alpha_ppm <= ALPHA_ONE,
    ensures
        final(canvas)@ == old(canvas)@ + spec_draw_rect_simple_cmds(
            x as int,
            y as int,
            w as int,
            h as int,
            color,
            alpha_ppm as int,
        ),
{
    if w <= 0 || h <= 0 || alpha_ppm <= 0 {
        proof {
            assert(old(canvas)@ + Seq::<CmdModel>::empty() =~= old(canvas)@);
        }
        return ;
    }
    let path = rect_path(x, y, w, h);
    let cmd = DrawCmd::FillPath { path, paint: PaintSpec::Solid(color), opacity_ppm: alpha_ppm };
    canvas.record(cmd);
    proof {
        assert(canvas@ =~= old(canvas)@ + spec_draw_rect_simple_cmds(
            x as int,
            y as int,
            w as int,
            h as int,
            color,
            alpha_ppm as int,
        ));
    }
}


/// A solid rectangle fill touches no clip scope.
pub proof fn lemma_rect_cmds_fills_only(x: int, y: int, w: int, h: int, color: Rgb)
    ensures
        crate::scene::fills_only(spec_draw_rect_cmds(x, y, w, h, color)),
{
}

/// A gradient rectangle fill touches no clip scope.
pub proof fn lemma_gradient_rect_cmds_fills_only(x: int, y: int, w: int, h: int, g: GradientModel)
    ensures
        crate::scene::fills_only(spec_draw_gradient_rect_cmds(x, y, w, h, g)),
{
}

/// An alpha rectangle fill touches no clip scope.
pub proof fn lemma_rect_alpha_cmds_fills_only(
    x: int,
    y: int,
    w: int,
    h: int,
    color: Rgb,
    alpha_ppm: int,
    radii: BorderRadii,
    spread: int,
)
    ensures
        crate::scene::fills_only(
            spec_draw_rect_alpha_cmds(x, y, w, h, color, alpha_ppm, radii, spread),
        ),
{
}

/// A simple alpha rectangle fill touches no clip scope.
pub proof fn lemma_rect_simple_cmds_fills_only(
    x: int,
    y: int,
    w: int,
    h: int,
    color: Rgb,
    alpha_ppm: int,
)
    ensures
        crate::scene::fills_only(spec_draw_rect_simple_cmds(x, y, w, h, color, alpha_ppm)),
{
}

} // verus!
