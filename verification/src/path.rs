//! Closed vector paths: plain rectangles and rounded rectangles built from
//! cubic Bezier corner arcs.

use vstd::prelude::*;
use crate::geom::{
    BorderRadii, clamped_radii, spec_clamped_radii, DIM_LIMIT, KAPPA_PPM, POS_LIMIT,
};

verus! {

/// One element of a vector path, in thousandths of a pixel.
#[derive(Debug, Clone, Copy, PartialEq, Eq, Structural)]
pub enum PathEl {
    /// Start a new contour at the point.
    MoveTo { x: i64, y: i64 },
    /// A straight segment to the point.
    LineTo { x: i64, y: i64 },
    /// A cubic Bezier segment with two control points and an end point.
    CubicTo { x1: i64, y1: i64, x2: i64, y2: i64, x: i64, y: i64 },
    /// Close the current contour back to its starting point.
    Close,
}

/// A `MoveTo` element from mathematical coordinates.
pub open spec fn el_move(x: int, y: int) -> PathEl {
    PathEl::MoveTo { x: x as i64, y: y as i64 }
}

/// A `LineTo` element from mathematical coordinates.
pub open spec fn el_line(x: int, y: int) -> PathEl {
    PathEl::LineTo { x: x as i64, y: y as i64 }
}

/// A `CubicTo` element from mathematical coordinates.
pub open spec fn el_cubic(x1: int, y1: int, x2: int, y2: int, x: int, y: int) -> PathEl {
    PathEl::CubicTo {
        x1: x1 as i64,
        y1: y1 as i64,
        x2: x2 as i64,
        y2: y2 as i64,
        x: x as i64,
        y: y as i64,
    }
}

/// The axis-aligned rectangle path: four straight edges walked clockwise
/// from the top-left corner.
pub open spec fn spec_rect_path(x: int, y: int, w: int, h: int) -> Seq<PathEl> {
    seq![
        el_move(x, y),
        el_line(x + w, y),
        el_line(x + w, y + h),
        el_line(x, y + h),
        PathEl::Close,
    ]
}

/// Build the axis-aligned rectangle path.
pub fn rect_path(x: i64, y: i64, w: i64, h: i64) -> (p: Vec<PathEl>)
    requires
        -POS_LIMIT <= x <= POS_LIMIT,
        -POS_LIMIT <= y <= POS_LIMIT,
        -DIM_LIMIT <= w <= DIM_LIMIT,
        -DIM_LIMIT <= h <= DIM_LIMIT,
    ensures
        p@ == spec_rect_path(x as int, y as int, w as int, h as int),
{
    let mut p: Vec<PathEl> = Vec::new();
    p.push(PathEl::MoveTo { x, y });
    p.push(PathEl::LineTo { x: x + w, y });
    p.push(PathEl::LineTo { x: x + w, y: y + h });
    p.push(PathEl::LineTo { x, y: y + h });
    p.push(PathEl::Close);
    assert(p@ =~= spec_rect_path(x as int, y as int, w as int, h as int));
    p
}

/// The straight-line part of a corner radius: `r * (1 - kappa)`, where kappa
/// is the quarter-circle cubic approximation constant. Control points of a
/// corner arc sit this far from the corner.
pub open spec fn spec_kappa_comp(r: int) -> int {
    r * (1_000_000 - KAPPA_PPM) / 1_000_000
}

/// Compute `r * (1 - kappa)` for a non-negative radius.
pub fn kappa_comp(r: i64) -> (c: i64)
    requires
        0 <= r <= DIM_LIMIT,
    ensures
        c == spec_kappa_comp(r as int),
        0 <= c <= r,
{
    let c: i64 = r * (1_000_000 - KAPPA_PPM) / 1_000_000;
    assert(0 <= (r * 447_715) / 1_000_000 <= r) by (nonlinear_arith)
        requires
            0 <= r,
    ;
    c
}

/// The rounded-rectangle path: the four edges walked clockwise from the
/// top-left corner, with a cubic Bezier arc at every corner whose clamped
/// radii are both positive, and a straight join at every other corner.
/// `c` holds the already clamped radii.
pub open spec fn spec_rounded_rect_path(x: int, y: int, w: int, h: int, c: BorderRadii) -> Seq<
    PathEl,
> {
    let tl = c.top_left;
    let tr = c.top_right;
    let br = c.bottom_right;
    let bl = c.bottom_left;
    seq![el_move(x + tl.rx, y), el_line(x + w - tr.rx, y)] + (if tr.rx > 0 && tr.ry > 0 {
        seq![
            el_cubic(
                x + w - spec_kappa_comp(tr.rx as int),
                y,
                x + w,
                y + spec_kappa_comp(tr.ry as int),
                x + w,
                y + tr.ry,
            ),
        ]
    } else {
        Seq::<PathEl>::empty()
    }) + seq![el_line(x + w, y + h - br.ry)] + (if br.rx > 0 && br.ry > 0 {
        seq![
            el_cubic(
                x + w,
                y + h - spec_kappa_comp(br.ry as int),
                x + w - spec_kappa_comp(br.rx as int),
                y + h,
                x + w - br.rx,
                y + h,
            ),
        ]
    } else {
        Seq::<PathEl>::empty()
    }) + seq![el_line(x + bl.rx, y + h)] + (if bl.rx > 0 && bl.ry > 0 {
        seq![
            el_cubic(
                x + spec_kappa_comp(bl.rx as int),
                y + h,
                x,
                y + h - spec_kappa_comp(bl.ry as int),
                x,
                y + h - bl.ry,
            ),
        ]
    } else {
        Seq::<PathEl>::empty()
    }) + seq![el_line(x, y + tl.ry)] + (if tl.rx > 0 && tl.ry > 0 {
        seq![
            el_cubic(
                x,
                y + spec_kappa_comp(tl.ry as int),
                x + spec_kappa_comp(tl.rx as int),
                y,
                x + tl.rx,
                y,
            ),
        ]
    } else {
        Seq::<PathEl>::empty()
    }) + seq![PathEl::Close]
}

/// Build a rounded rectangle path.
///
/// Radii are first clamped to half the box dimensions so the corner arcs
/// cannot overlap. Boxes of zero or negative extent produce no path.
pub fn rounded_rect_path(x: i64, y: i64, w: i64, h: i64, radii: &BorderRadii) -> (p: Option<
    Vec<PathEl>,
>)
    requires
        -POS_LIMIT <= x <= POS_LIMIT,
        -POS_LIMIT <= y <= POS_LIMIT,
        w <= DIM_LIMIT,
        h <= DIM_LIMIT,
    ensures
        p is Some <==> w > 0 && h > 0,
        p is Some ==> p->0@ == spec_rounded_rect_path(
            x as int,
            y as int,
            w as int,
            h as int,
            spec_clamped_radii(*radii, w as int, h as int),
        ),
{
    if w <= 0 || h <= 0 {
        return None;
    }
    let c = clamped_radii(radii, w, h);
    let tl = c.top_left;
    let tr = c.top_right;
    let br = c.bottom_right;
    let bl = c.bottom_left;

    let mut p: Vec<PathEl> = Vec::new();

    // Start on the top edge, after the top-left corner arc.
    p.push(PathEl::MoveTo { x: x + tl.rx, y });
    // Top edge.
    p.push(PathEl::LineTo { x: x + w - tr.rx, y });
    // Top-right corner.
    if tr.rx > 0 && tr.ry > 0 {
        p.push(PathEl::CubicTo {
            x1: x + w - kappa_comp(tr.rx),
            y1: y,
            x2: x + w,
            y2: y + kappa_comp(tr.ry),
            x: x + w,
            y: y + tr.ry,
        });
    }
    // Right edge.
    p.push(PathEl::LineTo { x: x + w, y: y + h - br.ry });
    // Bottom-right corner.
    if br.rx > 0 && br.ry > 0 {
        p.push(PathEl::CubicTo {
            x1: x + w,
            y1: y + h - kappa_comp(br.ry),
            x2: x + w - kappa_comp(br.rx),
            y2: y + h,
            x: x + w - br.rx,
            y: y + h,
        });
    }
    // Bottom edge.
    p.push(PathEl::LineTo { x: x + bl.rx, y: y + h });
    // Bottom-left corner.
    if bl.rx > 0 && bl.ry > 0 {
        p.push(PathEl::CubicTo {
            x1: x + kappa_comp(bl.rx),
            y1: y + h,
            x2: x,
            y2: y + h - kappa_comp(bl.ry),
            x: x,
            y: y + h - bl.ry,
        });
    }
    // Left edge.
    p.push(PathEl::LineTo { x, y: y + tl.ry });
    // Top-left corner.
    if tl.rx > 0 && tl.ry > 0 {
        p.push(PathEl::CubicTo {
            x1: x,
            y1: y + kappa_comp(tl.ry),
            x2: x + kappa_comp(tl.rx),
            y2: y,
            x: x + tl.rx,
            y: y,
        });
    }
    p.push(PathEl::Close);

    assert(p@ =~= spec_rounded_rect_path(x as int, y as int, w as int, h as int, c));
    Some(p)
}

/// Whether a path consists of straight segments only.
pub open spec fn has_no_curve(p: Seq<PathEl>) -> bool {
    forall|i: int| 0 <= i < p.len() ==> !(p[i] is CubicTo)
}

/// The points a path visits, in order: every move, line and curve target.
pub open spec fn poly_points(p: Seq<PathEl>) -> Seq<(i64, i64)>
    decreases p.len(),
{
    if p.len() == 0 {
        Seq::<(i64, i64)>::empty()
    } else {
        let rest = poly_points(p.drop_first());
        match p[0] {
            PathEl::MoveTo { x, y } => seq![(x, y)] + rest,
            PathEl::LineTo { x, y } => seq![(x, y)] + rest,
            PathEl::CubicTo { x, y, .. } => seq![(x, y)] + rest,
            PathEl::Close => rest,
        }
    }
}

/// The outline of a closed path: its visited points, with an explicit return
/// to the starting point folded away. Two closed polygonal paths with the
/// same outline trace the same contour.
pub open spec fn closed_outline(p: Seq<PathEl>) -> Seq<(i64, i64)> {
    let pts = poly_points(p);
    if pts.len() > 1 && pts.last() == pts[0] {
        pts.drop_last()
    } else {
        pts
    }
}

/// When every clamped radius is zero, the rounded-rectangle path has no
/// curve and traces exactly the outline of the plain rectangle path.
pub proof fn lemma_zero_radii_path_is_rectangle(x: int, y: int, w: int, h: int, radii: BorderRadii)
    requires
        -POS_LIMIT <= x <= POS_LIMIT,
        -POS_LIMIT <= y <= POS_LIMIT,
        0 < w <= DIM_LIMIT,
        0 < h <= DIM_LIMIT,
        !spec_clamped_radii(radii, w, h).spec_has_any_radius(),
    ensures
        has_no_curve(spec_rounded_rect_path(x, y, w, h, spec_clamped_radii(radii, w, h))),
        closed_outline(spec_rounded_rect_path(x, y, w, h, spec_clamped_radii(radii, w, h)))
            == closed_outline(spec_rect_path(x, y, w, h)),
{
    let c = spec_clamped_radii(radii, w, h);
    let rp = spec_rounded_rect_path(x, y, w, h, c);
    let sp = spec_rect_path(x, y, w, h);
    assert(c.top_left.rx == 0 && c.top_left.ry == 0);
    assert(c.top_right.rx == 0 && c.top_right.ry == 0);
    assert(c.bottom_right.rx == 0 && c.bottom_right.ry == 0);
    assert(c.bottom_left.rx == 0 && c.bottom_left.ry == 0);
    assert(rp =~= seq![
        el_move(x, y),
        el_line(x + w, y),
        el_line(x + w, y + h),
        el_line(x, y + h),
        el_line(x, y),
        PathEl::Close,
    ]);
    lemma_poly_points_of_rectangle(x, y, w, h, rp, sp);
}

/// Evaluate `poly_points` over the two concrete rectangle paths.
proof fn lemma_poly_points_of_rectangle(x: int, y: int, w: int, h: int, rp: Seq<PathEl>, sp: Seq<
    PathEl,
>)
    requires
        -POS_LIMIT <= x <= POS_LIMIT,
        -POS_LIMIT <= y <= POS_LIMIT,
        0 < w <= DIM_LIMIT,
        0 < h <= DIM_LIMIT,
        rp =~= seq![
            el_move(x, y),
            el_line(x + w, y),
            el_line(x + w, y + h),
            el_line(x, y + h),
            el_line(x, y),
            PathEl::Close,
        ],
        sp == spec_rect_path(x, y, w, h),
    ensures
        has_no_curve(rp),
        closed_outline(rp) == closed_outline(sp),
{
    let corners: Seq<(i64, i64)> = seq![
        ((x as i64), (y as i64)),
        (((x + w) as i64), (y as i64)),
        (((x + w) as i64), ((y + h) as i64)),
        ((x as i64), ((y + h) as i64)),
    ];
    let closing: (i64, i64) = ((x as i64), (y as i64));

    assert(poly_points(Seq::<PathEl>::empty()) =~= Seq::<(i64, i64)>::empty());
    assert(poly_points(seq![PathEl::Close]) =~= Seq::<(i64, i64)>::empty()) by {
        assert(seq![PathEl::Close].drop_first() =~= Seq::<PathEl>::empty());
        assert(poly_points(Seq::<PathEl>::empty()) =~= Seq::<(i64, i64)>::empty());
    };

    // The rounded path with zero radii: four corners plus the explicit
    // closing point.
    let r5 = rp.drop_first();
    let r4 = r5.drop_first();
    let r3 = r4.drop_first();
    let r2 = r3.drop_first();
    let r1 = r2.drop_first();
    assert(r1 =~= seq![PathEl::Close]);
    assert(poly_points(r1) =~= Seq::<(i64, i64)>::empty());
    assert(poly_points(r2) =~= seq![closing]);
    assert(poly_points(r3) =~= seq![corners[3], closing]);
    assert(poly_points(r4) =~= seq![corners[2], corners[3], closing]);
    assert(poly_points(r5) =~= seq![corners[1], corners[2], corners[3], closing]);
    assert(poly_points(rp) =~= corners.push(closing));

    // The plain rectangle path: the four corners.
    let s4 = sp.drop_first();
    let s3 = s4.drop_first();
    let s2 = s3.drop_first();
    let s1 = s2.drop_first();
    assert(s1 =~= seq![PathEl::Close]);
    assert(poly_points(s1) =~= Seq::<(i64, i64)>::empty());
    assert(poly_points(s2) =~= seq![corners[3]]);
    assert(poly_points(s3) =~= seq![corners[2], corners[3]]);
    assert(poly_points(s4) =~= seq![corners[1], corners[2], corners[3]]);
    assert(poly_points(sp) =~= corners);

    // The closing point repeats the start, so the outlines agree.
    assert(corners.push(closing).last() == corners.push(closing)[0]);
    assert(closed_outline(rp) =~= corners);
    assert(corners.last() != corners[0]);
    assert(closed_outline(sp) =~= corners);
}

} // verus!
