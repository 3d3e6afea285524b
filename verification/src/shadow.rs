//! Box shadows: outset shadows as expanding alpha-attenuated layers, inset
//! shadows as clipped edge rectangles. The output format has no native
//! blur, so a Gaussian falloff is approximated with a small stack of
//! concentric layers whose alpha follows a cheap bell curve.

use vstd::prelude::*;
use crate::color::{resolve_color, spec_resolve_color, CssColor, Rgb, Rgba};
use crate::geom::{spec_clamped_radii, BorderRadii, ALPHA_EPS, ALPHA_ONE, COORD_LIMIT};
use crate::gradient::{clamp_unit, spec_clamp_unit};
use crate::paint::{
    draw_rect_simple, draw_rect_with_alpha, spec_draw_rect_alpha_cmds, spec_draw_rect_simple_cmds,
};
use crate::path::rounded_rect_path;
use crate::scene::{Canvas, CmdModel, DrawCmd};

verus! {

/// The largest magnitude allowed for a shadow position here: far above any
/// accumulated offset, far below overflow.
pub const SHADOW_POS_LIMIT: i64 = 0x8_0000_0000_0000;

/// One box shadow as computed style describes it.
#[derive(Debug, Clone, Copy, PartialEq, Eq, Structural)]
pub struct ShadowSpec {
    pub x_offset: i64,
    pub y_offset: i64,
    pub blur: i64,
    pub spread: i64,
    pub color: CssColor,
    pub inset: bool,
}

impl ShadowSpec {
    pub open spec fn wf(self) -> bool {
        &&& -COORD_LIMIT <= self.x_offset <= COORD_LIMIT
        &&& -COORD_LIMIT <= self.y_offset <= COORD_LIMIT
        &&& 0 <= self.blur <= COORD_LIMIT
        &&& -COORD_LIMIT <= self.spread <= COORD_LIMIT
        &&& self.color.wf()
    }
}

/// One box shadow ready for drawing, its color resolved.
#[derive(Debug, Clone, Copy, PartialEq, Eq, Structural)]
pub struct BoxShadowData {
    pub x_offset: i64,
    pub y_offset: i64,
    pub blur: i64,
    pub spread: i64,
    pub color: Rgb,
    /// Alpha in millionths.
    pub alpha_ppm: i64,
    pub inset: bool,
}

impl BoxShadowData {
    pub open spec fn wf(self) -> bool {
        &&& -COORD_LIMIT <= self.x_offset <= COORD_LIMIT
        &&& -COORD_LIMIT <= self.y_offset <= COORD_LIMIT
        &&& 0 <= self.blur <= COORD_LIMIT
        &&& -COORD_LIMIT <= self.spread <= COORD_LIMIT
        &&& 0 <= self.alpha_ppm <= ALPHA_ONE
    }
}

/// What one shadow spec extracts to: its color resolved against the current
/// color, the alpha clamped into `[0, 1]`.
pub open spec fn spec_extract_shadow(s: ShadowSpec, current: Rgba) -> BoxShadowData {
    let resolved = spec_resolve_color(s.color, current);
    BoxShadowData {
        x_offset: s.x_offset,
        y_offset: s.y_offset,
        blur: s.blur,
        spread: s.spread,
        color: resolved.spec_rgb(),
        alpha_ppm: spec_clamp_unit(resolved.alpha_ppm as int) as i64,
        inset: s.inset,
    }
}

/// What a shadow list extracts to, in source order.
pub open spec fn spec_extract_box_shadows(specs: Seq<ShadowSpec>, current: Rgba) -> Seq<
    BoxShadowData,
> {
    Seq::new(specs.len(), |i: int| spec_extract_shadow(specs[i], current))
}

/// Extract a node's shadow list.
pub fn extract_box_shadows(specs: &Vec<ShadowSpec>, current: Rgba) -> (r: Vec<BoxShadowData>)
    ensures
        r@ == spec_extract_box_shadows(specs@, current),
{
    let mut r: Vec<BoxShadowData> = Vec::new();
    let mut i: usize = 0;
    while i < specs.len()
        invariant
            i <= specs@.len(),
            r@ == spec_extract_box_shadows(specs@, current).take(i as int),
        decreases specs@.len() - i,
    {
        let s = &specs[i];
        let resolved = resolve_color(&s.color, current);
        let d = BoxShadowData {
            x_offset: s.x_offset,
            y_offset: s.y_offset,
            blur: s.blur,
            spread: s.spread,
            color: resolved.rgb(),
            alpha_ppm: clamp_unit(resolved.alpha_ppm),
            inset: s.inset,
        };
        r.push(d);
        proof {
            assert(r@ =~= spec_extract_box_shadows(specs@, current).take(i + 1));
        }
        i = i + 1;
    }
    proof {
        assert(spec_extract_box_shadows(specs@, current).take(specs@.len() as int)
            =~= spec_extract_box_shadows(specs@, current));
    }
    r
}

/// How many layers approximate a blur: one third of the blur in pixels,
/// rounded up, clamped into `[2, 8]`.
pub open spec fn spec_blur_steps(blur: int) -> int {
    let q = (blur + 2999) / 3000;
    if q < 2 {
        2
    } else if q > 8 {
        8
    } else {
        q
    }
}

/// Compute the layer count for a positive blur.
pub fn blur_steps(blur: i64) -> (n: i64)
    requires
        0 <= blur <= COORD_LIMIT,
    ensures
        n == spec_blur_steps(blur as int),
        2 <= n <= 8,
{
    let q: i64 = (blur + 2999) / 3000;
    if q < 2 {
        2
    } else if q > 8 {
        8
    } else {
        q
    }
}

/// The alpha of outset layer `i` of `n`: the shadow's alpha scaled by the
/// bell-curve factor `(1 - (i/n)^2) * 2 / n`.
pub open spec fn spec_layer_alpha(alpha: int, i: int, n: int) -> int {
    alpha * (n * n - i * i) * 2 / (n * n * n)
}

/// The commands of outset layer `i`: a rounded rectangle grown by
/// `i * step`, at the bell-curve alpha, or nothing when that alpha is
/// negligible.
pub open spec fn spec_outset_layer_cmds(
    sx: int,
    sy: int,
    sw: int,
    sh: int,
    color: Rgb,
    alpha: int,
    radii: BorderRadii,
    spread: int,
    i: int,
    n: int,
    step: int,
) -> Seq<CmdModel> {
    let expand = i * step;
    let la = spec_layer_alpha(alpha, i, n);
    if la > ALPHA_EPS {
        spec_draw_rect_alpha_cmds(
            sx - expand / 2,
            sy - expand / 2,
            sw + expand,
            sh + expand,
            color,
            la,
            radii,
            spread + expand / 2,
        )
    } else {
        Seq::<CmdModel>::empty()
    }
}

/// The commands of outset layers `i` to `n`.
pub open spec fn spec_outset_layers_cmds(
    sx: int,
    sy: int,
    sw: int,
    sh: int,
    color: Rgb,
    alpha: int,
    radii: BorderRadii,
    spread: int,
    i: int,
    n: int,
    step: int,
) -> Seq<CmdModel>
    decreases n - i,
{
    if i >= n {
        Seq::<CmdModel>::empty()
    } else {
        spec_outset_layer_cmds(sx, sy, sw, sh, color, alpha, radii, spread, i, n, step)
            + spec_outset_layers_cmds(sx, sy, sw, sh, color, alpha, radii, spread, i + 1, n, step)
    }
}

/// The commands of one outset shadow: nothing for an invisible shadow; one
/// full-alpha rectangle (offset by the shadow offsets and grown by the
/// spread) when there is no blur; otherwise the stack of expanding layers.
pub open spec fn spec_draw_outset_cmds(
    x: int,
    y: int,
    w: int,
    h: int,
    sh: BoxShadowData,
    radii: BorderRadii,
) -> Seq<CmdModel> {
    if sh.alpha_ppm <= 0 {
        Seq::<CmdModel>::empty()
    } else {
        let sx = x + sh.x_offset - sh.spread;
        let sy = y + sh.y_offset - sh.spread;
        let sw = w + sh.spread * 2;
        let shh = h + sh.spread * 2;
        if sh.blur <= 0 {
            spec_draw_rect_alpha_cmds(
                sx,
                sy,
                sw,
                shh,
                sh.color,
                sh.alpha_ppm as int,
                radii,
                sh.spread as int,
            )
        } else {
            let n = spec_blur_steps(sh.blur as int);
            let step = sh.blur * 5 / (2 * n);
            spec_outset_layers_cmds(
                sx,
                sy,
                sw,
                shh,
                sh.color,
                sh.alpha_ppm as int,
                radii,
                sh.spread as int,
                0,
                n,
                step,
            )
        }
    }
}

/// Draw one outset box shadow.
pub fn draw_outset_box_shadow(
    canvas: &mut Canvas,
    x: i64,
    y: i64,
    w: i64,
    h: i64,
    sh: &BoxShadowData,
    radii: &BorderRadii,
)
    requires
        -SHADOW_POS_LIMIT <= x <= SHADOW_POS_LIMIT,
        -SHADOW_POS_LIMIT <= y <= SHADOW_POS_LIMIT,
        0 <= w <= COORD_LIMIT,
        0 <= h <= COORD_LIMIT,
        sh.wf(),
        radii.bounded_by(COORD_LIMIT as int),
    ensures
        final(canvas)@ == old(canvas)@ + spec_draw_outset_cmds(
            x as int,
            y as int,
            w as int,
            h as int,
            *sh,
            *radii,
        ),
{
    let ghost target = spec_draw_outset_cmds(x as int, y as int, w as int, h as int, *sh, *radii);
    if sh.alpha_ppm <= 0 {
        proof {
            assert(old(canvas)@ + Seq::<CmdModel>::empty() =~= old(canvas)@);
        }
        return ;
    }
    let sx: i64 = x + sh.x_offset - sh.spread;
    let sy: i64 = y + sh.y_offset - sh.spread;
    let sw: i64 = w + sh.spread * 2;
    let shh: i64 = h + sh.spread * 2;
    if sh.blur <= 0 {
        draw_rect_with_alpha(canvas, sx, sy, sw, shh, sh.color, sh.alpha_ppm, radii, sh.spread);
        return ;
    }
    let n: i64 = blur_steps(sh.blur);
    let step: i64 = sh.blur * 5 / (2 * n);
    assert(0 <= step <= COORD_LIMIT * 2) by (nonlinear_arith)
        requires
            0 <= sh.blur <= COORD_LIMIT,
            2 <= n <= 8,
            step == sh.blur * 5 as int / (2 * n),
    ;
    let ghost start = canvas@;
    let ghost full0 = spec_outset_layers_cmds(
        sx as int,
        sy as int,
        sw as int,
        shh as int,
        sh.color,
        sh.alpha_ppm as int,
        *radii,
        sh.spread as int,
        0,
        n as int,
        step as int,
    );
    let mut i: i64 = 0;
    while i < n
        invariant
            0 <= i <= n,
            2 <= n <= 8,
            0 <= step <= COORD_LIMIT * 2,
            -SHADOW_POS_LIMIT - 2 * COORD_LIMIT <= sx <= SHADOW_POS_LIMIT + 2 * COORD_LIMIT,
            -SHADOW_POS_LIMIT - 2 * COORD_LIMIT <= sy <= SHADOW_POS_LIMIT + 2 * COORD_LIMIT,
            -2 * COORD_LIMIT <= sw <= 3 * COORD_LIMIT,
            -2 * COORD_LIMIT <= shh <= 3 * COORD_LIMIT,
            -COORD_LIMIT <= sh.spread <= COORD_LIMIT,
            0 < sh.alpha_ppm <= ALPHA_ONE,
            radii.bounded_by(COORD_LIMIT as int),
            canvas@ + spec_outset_layers_cmds(
                sx as int,
                sy as int,
                sw as int,
                shh as int,
                sh.color,
                sh.alpha_ppm as int,
                *radii,
                sh.spread as int,
                i as int,
                n as int,
                step as int,
            ) == start + full0,
        decreases n - i,
    {
        assert(0 <= i * step <= 8 * (COORD_LIMIT * 2)) by (nonlinear_arith)
            requires
                0 <= i <= 8,
                0 <= step <= COORD_LIMIT * 2,
        ;
        let expand: i64 = i * step;
        let half: i64 = expand / 2;
        let layer_x: i64 = sx - half;
        let layer_y: i64 = sy - half;
        let layer_w: i64 = sw + expand;
        let layer_h: i64 = shh + expand;
        assert(1 <= n * n <= 64 && 0 <= i * i <= 64 && 1 <= n * n * n <= 512 && i * i <= n * n)
            by (nonlinear_arith)
            requires
                0 <= i < n <= 8,
        ;
        assert(0 <= sh.alpha_ppm * (n * n - i * i) * 2 <= ALPHA_ONE * (n * n * n))
            by (nonlinear_arith)
            requires
                0 < sh.alpha_ppm <= ALPHA_ONE,
                2 <= n <= 8,
                0 <= i * i <= n * n,
                1 <= n * n <= 64,
                1 <= n * n * n <= 512,
        ;
        let la: i64 = sh.alpha_ppm * (n * n - i * i) * 2 / (n * n * n);
        proof {
            vstd::arithmetic::div_mod::lemma_div_is_ordered(
                sh.alpha_ppm * (n * n - i * i) * 2,
                ALPHA_ONE * (n * n * n),
                n * n * n,
            );
            vstd::arithmetic::div_mod::lemma_div_multiples_vanish(
                ALPHA_ONE as int,
                n * n * n,
            );
            assert(la <= ALPHA_ONE);
        }
        let ghost pre = canvas@;
        if la > ALPHA_EPS {
            draw_rect_with_alpha(
                canvas,
                layer_x,
                layer_y,
                layer_w,
                layer_h,
                sh.color,
                la,
                radii,
                sh.spread + half,
            );
        }
        proof {
            let layer = spec_outset_layer_cmds(
                sx as int,
                sy as int,
                sw as int,
                shh as int,
                sh.color,
                sh.alpha_ppm as int,
                *radii,
                sh.spread as int,
                i as int,
                n as int,
                step as int,
            );
            let rest = spec_outset_layers_cmds(
                sx as int,
                sy as int,
                sw as int,
                shh as int,
                sh.color,
                sh.alpha_ppm as int,
                *radii,
                sh.spread as int,
                i + 1,
                n as int,
                step as int,
            );
            assert(canvas@ =~= pre + layer);
            assert(pre + (layer + rest) =~= (pre + layer) + rest);
            assert(canvas@ + rest =~= start + full0);
        }
        i = i + 1;
    }
    proof {
        assert(spec_outset_layers_cmds(
            sx as int,
            sy as int,
            sw as int,
            shh as int,
            sh.color,
            sh.alpha_ppm as int,
            *radii,
            sh.spread as int,
            n as int,
            n as int,
            step as int,
        ) =~= Seq::<CmdModel>::empty());
        assert(canvas@ + Seq::<CmdModel>::empty() =~= canvas@);
        assert(canvas@ =~= start + full0);
        assert(canvas@ =~= old(canvas)@ + target);
    }
}


/// The commands of one inset layer: partial-depth rectangles along the
/// edges the offset points away from, or nothing when the layer's alpha is
/// negligible or its depth gone.
pub open spec fn spec_inset_layer_cmds(
    x: int,
    y: int,
    w: int,
    h: int,
    sh: BoxShadowData,
    la: int,
    depth: int,
) -> Seq<CmdModel> {
    if la > ALPHA_EPS && depth > 0 {
        (if sh.y_offset > 0 {
            spec_draw_rect_simple_cmds(
                x + sh.x_offset,
                y + sh.y_offset,
                w,
                depth,
                sh.color,
                la,
            )
        } else {
            Seq::<CmdModel>::empty()
        }) + (if sh.y_offset < 0 {
            spec_draw_rect_simple_cmds(
                x + sh.x_offset,
                y + h + sh.y_offset - depth,
                w,
                depth,
                sh.color,
                la,
            )
        } else {
            Seq::<CmdModel>::empty()
        }) + (if sh.x_offset > 0 {
            spec_draw_rect_simple_cmds(
                x + sh.x_offset,
                y + sh.y_offset,
                depth,
                h,
                sh.color,
                la,
            )
        } else {
            Seq::<CmdModel>::empty()
        }) + (if sh.x_offset < 0 {
            spec_draw_rect_simple_cmds(
                x + w + sh.x_offset - depth,
                y + sh.y_offset,
                depth,
                h,
                sh.color,
                la,
            )
        } else {
            Seq::<CmdModel>::empty()
        })
    } else {
        Seq::<CmdModel>::empty()
    }
}

/// The commands of inset layers `i` to `n`: layer `i` reaches the fraction
/// `(n - i) / n` of the full inset depth, at alpha `alpha * (n - i) / n^2`.
pub open spec fn spec_inset_layers_cmds(
    x: int,
    y: int,
    w: int,
    h: int,
    sh: BoxShadowData,
    inset_depth: int,
    i: int,
    n: int,
) -> Seq<CmdModel>
    decreases n - i,
{
    if i >= n {
        Seq::<CmdModel>::empty()
    } else {
        spec_inset_layer_cmds(
            x,
            y,
            w,
            h,
            sh,
            sh.alpha_ppm * (n - i) / (n * n),
            inset_depth * (n - i) / n,
        ) + spec_inset_layers_cmds(x, y, w, h, sh, inset_depth, i + 1, n)
    }
}

/// The commands of one inset shadow: nothing for an invisible shadow or a
/// box without extent; otherwise the edge layers, clipped to the box's
/// rounded bounds, inside one matched clip scope.
pub open spec fn spec_draw_inset_cmds(
    x: int,
    y: int,
    w: int,
    h: int,
    sh: BoxShadowData,
    radii: BorderRadii,
) -> Seq<CmdModel> {
    if sh.alpha_ppm <= 0 || w <= 0 || h <= 0 {
        Seq::<CmdModel>::empty()
    } else {
        let n = if sh.blur > 0 {
            spec_blur_steps(sh.blur as int)
        } else {
            1
        };
        let spread_abs = if sh.spread >= 0 {
            sh.spread as int
        } else {
            -(sh.spread as int)
        };
        let inset_depth = sh.blur * 3 / 2 + spread_abs;
        seq![
            CmdModel::PushClip {
                path: crate::path::spec_rounded_rect_path(
                    x,
                    y,
                    w,
                    h,
                    spec_clamped_radii(radii, w, h),
                ),
            },
        ] + spec_inset_layers_cmds(x, y, w, h, sh, inset_depth, 0, n) + seq![CmdModel::PopClip]
    }
}

/// Draw one inset box shadow, clipped to the box's rounded bounds.
pub fn draw_inset_box_shadow(
    canvas: &mut Canvas,
    x: i64,
    y: i64,
    w: i64,
    h: i64,
    sh: &BoxShadowData,
    radii: &BorderRadii,
)
    requires
        -SHADOW_POS_LIMIT <= x <= SHADOW_POS_LIMIT,
        -SHADOW_POS_LIMIT <= y <= SHADOW_POS_LIMIT,
        0 <= w <= COORD_LIMIT,
        0 <= h <= COORD_LIMIT,
        sh.wf(),
        radii.bounded_by(COORD_LIMIT as int),
    ensures
        final(canvas)@ == old(canvas)@ + spec_draw_inset_cmds(
            x as int,
            y as int,
            w as int,
            h as int,
            *sh,
            *radii,
        ),
{
    let ghost target = spec_draw_inset_cmds(x as int, y as int, w as int, h as int, *sh, *radii);
    if sh.alpha_ppm <= 0 || w <= 0 || h <= 0 {
        proof {
            assert(old(canvas)@ + Seq::<CmdModel>::empty() =~= old(canvas)@);
        }
        return ;
    }
    let clip = match rounded_rect_path(x, y, w, h, radii) {
        Some(p) => p,
        None => {
            proof {
                assert(false);
            }
            Vec::new()
        },
    };
    canvas.record(DrawCmd::PushClip { path: clip });
    let ghost start = canvas@;

    let n: i64 = if sh.blur > 0 {
        blur_steps(sh.blur)
    } else {
        1
    };
    let spread_abs: i64 = if sh.spread >= 0 {
        sh.spread
    } else {
        -sh.spread
    };
    let inset_depth: i64 = sh.blur * 3 / 2 + spread_abs;
    assert(0 <= inset_depth <= 3 * COORD_LIMIT);
    let ghost full0 = spec_inset_layers_cmds(
        x as int,
        y as int,
        w as int,
        h as int,
        *sh,
        inset_depth as int,
        0,
        n as int,
    );
    let mut i: i64 = 0;
    while i < n
        invariant
            0 <= i <= n,
            1 <= n <= 8,
            0 <= inset_depth <= 3 * COORD_LIMIT,
            -SHADOW_POS_LIMIT <= x <= SHADOW_POS_LIMIT,
            -SHADOW_POS_LIMIT <= y <= SHADOW_POS_LIMIT,
            0 < w <= COORD_LIMIT,
            0 < h <= COORD_LIMIT,
            sh.wf(),
            0 < sh.alpha_ppm <= ALPHA_ONE,
            canvas@ + spec_inset_layers_cmds(
                x as int,
                y as int,
                w as int,
                h as int,
                *sh,
                inset_depth as int,
                i as int,
                n as int,
            ) == start + full0,
        decreases n - i,
    {
        assert(0 <= inset_depth * (n - i) <= 24 * COORD_LIMIT) by (nonlinear_arith)
            requires
                0 <= inset_depth <= 3 * COORD_LIMIT,
                0 <= i < n <= 8,
        ;
        assert(0 <= sh.alpha_ppm * (n - i) <= 8 * ALPHA_ONE) by (nonlinear_arith)
            requires
                0 < sh.alpha_ppm <= ALPHA_ONE,
                0 <= i < n <= 8,
        ;
        assert(1 <= n * n <= 64) by (nonlinear_arith)
            requires
                1 <= n <= 8,
        ;
        let depth: i64 = inset_depth * (n - i) / n;
        let la: i64 = sh.alpha_ppm * (n - i) / (n * n);
        proof {
            assert(sh.alpha_ppm * (n - i) <= ALPHA_ONE * (n * n)) by (nonlinear_arith)
                requires
                    0 < sh.alpha_ppm <= ALPHA_ONE,
                    0 <= i < n <= 8,
            ;
            vstd::arithmetic::div_mod::lemma_div_is_ordered(
                sh.alpha_ppm * (n - i),
                ALPHA_ONE * (n * n),
                n * n,
            );
            vstd::arithmetic::div_mod::lemma_div_multiples_vanish(ALPHA_ONE as int, n * n);
            assert(la <= ALPHA_ONE);
            assert(inset_depth * (n - i) / (n as int) <= 24 * COORD_LIMIT) by {
                vstd::arithmetic::div_mod::lemma_div_is_ordered(
                    inset_depth * (n - i),
                    24 * COORD_LIMIT,
                    n as int,
                );
                vstd::arithmetic::div_mod::lemma_div_is_ordered_by_denominator(
                    24 * COORD_LIMIT,
                    1,
                    n as int,
                );
            };
            assert(0 <= depth) by {
                vstd::arithmetic::div_mod::lemma_div_of0(n as int);
                vstd::arithmetic::div_mod::lemma_div_is_ordered(
                    0,
                    inset_depth * (n - i),
                    n as int,
                );
            };
        }
        let ghost pre = canvas@;
        let ghost layer = spec_inset_layer_cmds(
            x as int,
            y as int,
            w as int,
            h as int,
            *sh,
            la as int,
            depth as int,
        );
        let ghost rest = spec_inset_layers_cmds(
            x as int,
            y as int,
            w as int,
            h as int,
            *sh,
            inset_depth as int,
            i + 1,
            n as int,
        );
        if la > crate::geom::ALPHA_EPS && depth > 0 {
            let ghost p0 = canvas@;
            if sh.y_offset > 0 {
                draw_rect_simple(canvas, x + sh.x_offset, y + sh.y_offset, w, depth, sh.color, la);
            }
            proof {
                let seg = if sh.y_offset > 0 {
                    spec_draw_rect_simple_cmds(
                        x + sh.x_offset as int,
                        y + sh.y_offset as int,
                        w as int,
                        depth as int,
                        sh.color,
                        la as int,
                    )
                } else {
                    Seq::<CmdModel>::empty()
                };
                assert(canvas@ =~= p0 + seg);
            }
            let ghost p1 = canvas@;
            if sh.y_offset < 0 {
                draw_rect_simple(
                    canvas,
                    x + sh.x_offset,
                    y + h + sh.y_offset - depth,
                    w,
                    depth,
                    sh.color,
                    la,
                );
            }
            proof {
                let seg = if sh.y_offset < 0 {
                    spec_draw_rect_simple_cmds(
                        x + sh.x_offset as int,
                        y + h + sh.y_offset - depth as int,
                        w as int,
                        depth as int,
                        sh.color,
                        la as int,
                    )
                } else {
                    Seq::<CmdModel>::empty()
                };
                assert(canvas@ =~= p1 + seg);
            }
            let ghost p2 = canvas@;
            if sh.x_offset > 0 {
                draw_rect_simple(canvas, x + sh.x_offset, y + sh.y_offset, depth, h, sh.color, la);
            }
            proof {
                let seg = if sh.x_offset > 0 {
                    spec_draw_rect_simple_cmds(
                        x + sh.x_offset as int,
                        y + sh.y_offset as int,
                        depth as int,
                        h as int,
                        sh.color,
                        la as int,
                    )
                } else {
                    Seq::<CmdModel>::empty()
                };
                assert(canvas@ =~= p2 + seg);
            }
            let ghost p3 = canvas@;
            if sh.x_offset < 0 {
                draw_rect_simple(
                    canvas,
                    x + w + sh.x_offset - depth,
                    y + sh.y_offset,
                    depth,
                    h,
                    sh.color,
                    la,
                );
            }
            proof {
                let seg = if sh.x_offset < 0 {
                    spec_draw_rect_simple_cmds(
                        x + w + sh.x_offset - depth as int,
                        y + sh.y_offset as int,
                        depth as int,
                        h as int,
                        sh.color,
                        la as int,
                    )
                } else {
                    Seq::<CmdModel>::empty()
                };
                assert(canvas@ =~= p3 + seg);
                assert(canvas@ =~= pre + layer);
            }
        } else {
            proof {
                assert(canvas@ =~= pre + layer);
            }
        }
        proof {
            assert(pre + (layer + rest) =~= (pre + layer) + rest);
            assert(canvas@ + rest =~= start + full0);
        }
        i = i + 1;
    }
    canvas.record(DrawCmd::PopClip);
    proof {
        let done = spec_inset_layers_cmds(
            x as int,
            y as int,
            w as int,
            h as int,
            *sh,
            inset_depth as int,
            n as int,
            n as int,
        );
        assert(done =~= Seq::<CmdModel>::empty());
        assert(canvas@ =~= old(canvas)@ + target);
    }
}


/// Extraction preserves well-formedness: every extracted shadow of a
/// well-formed shadow list is well formed.
pub proof fn lemma_extracted_shadows_wf(specs: Seq<ShadowSpec>, current: Rgba)
    requires
        forall|k: int| 0 <= k < specs.len() ==> (#[trigger] specs[k]).wf(),
    ensures
        forall|k: int|
            0 <= k < specs.len() ==> (#[trigger] spec_extract_box_shadows(specs, current)[k]).wf(),
{
    assert forall|k: int| 0 <= k < specs.len() implies (#[trigger] spec_extract_box_shadows(
        specs,
        current,
    )[k]).wf() by {
        assert(specs[k].wf());
        assert(spec_extract_box_shadows(specs, current)[k] == spec_extract_shadow(
            specs[k],
            current,
        ));
    };
}


/// Every layer of a sufficiently visible shadow is itself visible and
/// within the alpha range.
pub proof fn lemma_layer_alpha_visible(alpha: int, i: int, n: int)
    requires
        2 <= n <= 8,
        20_000 <= alpha <= ALPHA_ONE,
        0 <= i < n,
    ensures
        ALPHA_EPS < spec_layer_alpha(alpha, i, n) <= ALPHA_ONE,
{
    let d = n * n * n;
    let xi = alpha * (n * n - i * i) * 2;
    assert(1 <= d <= 512 && xi >= 1001 * d && xi <= ALPHA_ONE * d) by (nonlinear_arith)
        requires
            2 <= n <= 8,
            20_000 <= alpha <= ALPHA_ONE,
            0 <= i < n,
            d == n * n * n,
            xi == alpha * (n * n - i * i) * 2,
    ;
    vstd::arithmetic::div_mod::lemma_div_is_ordered(1001 * d, xi, d);
    vstd::arithmetic::div_mod::lemma_div_multiples_vanish(1001, d);
    vstd::arithmetic::div_mod::lemma_div_is_ordered(xi, ALPHA_ONE * d, d);
    vstd::arithmetic::div_mod::lemma_div_multiples_vanish(ALPHA_ONE as int, d);
}

/// Layer alphas strictly decrease with the distance from the center.
pub proof fn lemma_layer_alpha_strict(alpha: int, i: int, n: int)
    requires
        2 <= n <= 8,
        20_000 <= alpha <= ALPHA_ONE,
        0 <= i,
        i + 1 < n,
    ensures
        spec_layer_alpha(alpha, i, n) > spec_layer_alpha(alpha, i + 1, n),
{
    let d = n * n * n;
    let xi = alpha * (n * n - i * i) * 2;
    let xj = alpha * (n * n - (i + 1) * (i + 1)) * 2;
    assert(1 <= d <= 512 && xj >= 0 && xi >= xj + d) by (nonlinear_arith)
        requires
            2 <= n <= 8,
            20_000 <= alpha <= ALPHA_ONE,
            0 <= i,
            i + 1 < n,
            d == n * n * n,
            xi == alpha * (n * n - i * i) * 2,
            xj == alpha * (n * n - (i + 1) * (i + 1)) * 2,
    ;
    vstd::arithmetic::div_mod::lemma_div_is_ordered(xj + d, xi, d);
    vstd::arithmetic::div_mod::lemma_div_plus_one(xj, d);
}

/// The layers from `i` on of a visible blurred shadow: one fill per layer,
/// carrying exactly the bell-curve alpha of its index.
proof fn lemma_outset_layers_shape(
    sx: int,
    sy: int,
    sw: int,
    sh: int,
    color: Rgb,
    alpha: int,
    radii: BorderRadii,
    spread: int,
    i: int,
    n: int,
    step: int,
)
    requires
        2 <= n <= 8,
        20_000 <= alpha <= ALPHA_ONE,
        sw > 0,
        sh > 0,
        step >= 0,
        0 <= i <= n,
    ensures
        spec_outset_layers_cmds(sx, sy, sw, sh, color, alpha, radii, spread, i, n, step).len() == n
            - i,
        forall|j: int|
            0 <= j < n - i ==> (#[trigger] spec_outset_layers_cmds(
                sx,
                sy,
                sw,
                sh,
                color,
                alpha,
                radii,
                spread,
                i,
                n,
                step,
            )[j]) is FillPath && spec_outset_layers_cmds(
                sx,
                sy,
                sw,
                sh,
                color,
                alpha,
                radii,
                spread,
                i,
                n,
                step,
            )[j]->FillPath_opacity_ppm == spec_layer_alpha(alpha, i + j, n),
    decreases n - i,
{
    if i < n {
        lemma_layer_alpha_visible(alpha, i, n);
        assert(i * step >= 0) by (nonlinear_arith)
            requires
                0 <= i,
                0 <= step,
        ;
        let layer = spec_outset_layer_cmds(sx, sy, sw, sh, color, alpha, radii, spread, i, n, step);
        assert(layer.len() == 1 && layer[0] is FillPath && layer[0]->FillPath_opacity_ppm
            == spec_layer_alpha(alpha, i, n));
        lemma_outset_layers_shape(sx, sy, sw, sh, color, alpha, radii, spread, i + 1, n, step);
    }
}

/// A shadow without blur draws exactly one rectangle layer.
pub proof fn lemma_outset_blur_zero(
    x: int,
    y: int,
    w: int,
    h: int,
    sh: BoxShadowData,
    radii: BorderRadii,
)
    requires
        sh.blur <= 0,
        sh.alpha_ppm > 0,
        w + sh.spread * 2 > 0,
        h + sh.spread * 2 > 0,
    ensures
        spec_draw_outset_cmds(x, y, w, h, sh, radii).len() == 1,
        spec_draw_outset_cmds(x, y, w, h, sh, radii)[0] is FillPath,
        spec_draw_outset_cmds(x, y, w, h, sh, radii)[0]->FillPath_opacity_ppm
            == sh.alpha_ppm as int,
{
}

/// A blurred, sufficiently visible shadow draws between two and eight
/// layers — one per blur step — whose alphas strictly decrease from the
/// innermost layer outward.
pub proof fn lemma_outset_blur_layers(
    x: int,
    y: int,
    w: int,
    h: int,
    sh: BoxShadowData,
    radii: BorderRadii,
)
    requires
        sh.wf(),
        sh.blur > 0,
        20_000 <= sh.alpha_ppm,
        w + sh.spread * 2 > 0,
        h + sh.spread * 2 > 0,
    ensures
        2 <= spec_blur_steps(sh.blur as int) <= 8,
        spec_draw_outset_cmds(x, y, w, h, sh, radii).len() == spec_blur_steps(sh.blur as int),
        forall|j: int|
            0 <= j < spec_blur_steps(sh.blur as int) ==> (#[trigger] spec_draw_outset_cmds(
                x,
                y,
                w,
                h,
                sh,
                radii,
            )[j]) is FillPath && spec_draw_outset_cmds(x, y, w, h, sh, radii)[j]->FillPath_opacity_ppm
                == spec_layer_alpha(sh.alpha_ppm as int, j, spec_blur_steps(sh.blur as int)),
        forall|j: int|
            0 <= j && j + 1 < spec_blur_steps(sh.blur as int) ==> #[trigger] spec_layer_alpha(
                sh.alpha_ppm as int,
                j,
                spec_blur_steps(sh.blur as int),
            ) > spec_layer_alpha(sh.alpha_ppm as int, j + 1, spec_blur_steps(sh.blur as int)),
{
    let n = spec_blur_steps(sh.blur as int);
    let step = sh.blur * 5 / (2 * n);
    assert(step >= 0) by (nonlinear_arith)
        requires
            sh.blur > 0,
            2 <= n <= 8,
            step == sh.blur * 5 as int / (2 * n),
    ;
    lemma_outset_layers_shape(
        x + sh.x_offset - sh.spread,
        y + sh.y_offset - sh.spread,
        w + sh.spread * 2,
        h + sh.spread * 2,
        sh.color,
        sh.alpha_ppm as int,
        radii,
        sh.spread as int,
        0,
        n,
        step,
    );
    assert forall|j: int| 0 <= j && j + 1 < n implies #[trigger] spec_layer_alpha(
        sh.alpha_ppm as int,
        j,
        n,
    ) > spec_layer_alpha(sh.alpha_ppm as int, j + 1, n) by {
        lemma_layer_alpha_strict(sh.alpha_ppm as int, j, n);
    };
}


/// Outset layers touch no clip scope.
proof fn lemma_outset_layers_fills_only(
    sx: int,
    sy: int,
    sw: int,
    sh: int,
    color: Rgb,
    alpha: int,
    radii: BorderRadii,
    spread: int,
    i: int,
    n: int,
    step: int,
)
    ensures
        crate::scene::fills_only(
            spec_outset_layers_cmds(sx, sy, sw, sh, color, alpha, radii, spread, i, n, step),
        ),
    decreases n - i,
{
    if i < n {
        crate::paint::lemma_rect_alpha_cmds_fills_only(
            sx - i * step / 2,
            sy - i * step / 2,
            sw + i * step,
            sh + i * step,
            color,
            spec_layer_alpha(alpha, i, n),
            radii,
            spread + i * step / 2,
        );
        lemma_outset_layers_fills_only(sx, sy, sw, sh, color, alpha, radii, spread, i + 1, n, step);
        crate::scene::lemma_fills_only_concat(
            spec_outset_layer_cmds(sx, sy, sw, sh, color, alpha, radii, spread, i, n, step),
            spec_outset_layers_cmds(sx, sy, sw, sh, color, alpha, radii, spread, i + 1, n, step),
        );
    }
}

/// An outset shadow touches no clip scope.
pub proof fn lemma_outset_cmds_fills_only(
    x: int,
    y: int,
    w: int,
    h: int,
    sh: BoxShadowData,
    radii: BorderRadii,
)
    ensures
        crate::scene::fills_only(spec_draw_outset_cmds(x, y, w, h, sh, radii)),
{
    if sh.alpha_ppm > 0 {
        if sh.blur <= 0 {
            crate::paint::lemma_rect_alpha_cmds_fills_only(
                x + sh.x_offset - sh.spread,
                y + sh.y_offset - sh.spread,
                w + sh.spread * 2,
                h + sh.spread * 2,
                sh.color,
                sh.alpha_ppm as int,
                radii,
                sh.spread as int,
            );
        } else {
            let n = spec_blur_steps(sh.blur as int);
            let step = sh.blur * 5 / (2 * n);
            lemma_outset_layers_fills_only(
                x + sh.x_offset - sh.spread,
                y + sh.y_offset - sh.spread,
                w + sh.spread * 2,
                h + sh.spread * 2,
                sh.color,
                sh.alpha_ppm as int,
                radii,
                sh.spread as int,
                0,
                n,
                step,
            );
        }
    }
}

/// One inset layer touches no clip scope.
proof fn lemma_inset_layer_fills_only(
    x: int,
    y: int,
    w: int,
    h: int,
    sh: BoxShadowData,
    la: int,
    depth: int,
)
    ensures
        crate::scene::fills_only(spec_inset_layer_cmds(x, y, w, h, sh, la, depth)),
{
    if la > ALPHA_EPS && depth > 0 {
        let a = if sh.y_offset > 0 {
            spec_draw_rect_simple_cmds(x + sh.x_offset, y + sh.y_offset, w, depth, sh.color, la)
        } else {
            Seq::<CmdModel>::empty()
        };
        let b = if sh.y_offset < 0 {
            spec_draw_rect_simple_cmds(
                x + sh.x_offset,
                y + h + sh.y_offset - depth,
                w,
                depth,
                sh.color,
                la,
            )
        } else {
            Seq::<CmdModel>::empty()
        };
        let c = if sh.x_offset > 0 {
            spec_draw_rect_simple_cmds(x + sh.x_offset, y + sh.y_offset, depth, h, sh.color, la)
        } else {
            Seq::<CmdModel>::empty()
        };
        let d = if sh.x_offset < 0 {
            spec_draw_rect_simple_cmds(
                x + w + sh.x_offset - depth,
                y + sh.y_offset,
                depth,
                h,
                sh.color,
                la,
            )
        } else {
            Seq::<CmdModel>::empty()
        };
        crate::paint::lemma_rect_simple_cmds_fills_only(
            x + sh.x_offset,
            y + sh.y_offset,
            w,
            depth,
            sh.color,
            la,
        );
        crate::paint::lemma_rect_simple_cmds_fills_only(
            x + sh.x_offset,
            y + h + sh.y_offset - depth,
            w,
            depth,
            sh.color,
            la,
        );
        crate::paint::lemma_rect_simple_cmds_fills_only(
            x + sh.x_offset,
            y + sh.y_offset,
            depth,
            h,
            sh.color,
            la,
        );
        crate::paint::lemma_rect_simple_cmds_fills_only(
            x + w + sh.x_offset - depth,
            y + sh.y_offset,
            depth,
            h,
            sh.color,
            la,
        );
        crate::scene::lemma_fills_only_concat(a, b);
        crate::scene::lemma_fills_only_concat(a + b, c);
        crate::scene::lemma_fills_only_concat(a + b + c, d);
    }
}

/// Inset layers touch no clip scope.
proof fn lemma_inset_layers_fills_only(
    x: int,
    y: int,
    w: int,
    h: int,
    sh: BoxShadowData,
    inset_depth: int,
    i: int,
    n: int,
)
    ensures
        crate::scene::fills_only(spec_inset_layers_cmds(x, y, w, h, sh, inset_depth, i, n)),
    decreases n - i,
{
    if i < n {
        lemma_inset_layer_fills_only(
            x,
            y,
            w,
            h,
            sh,
            sh.alpha_ppm * (n - i) / (n * n),
            inset_depth * (n - i) / n,
        );
        lemma_inset_layers_fills_only(x, y, w, h, sh, inset_depth, i + 1, n);
        crate::scene::lemma_fills_only_concat(
            spec_inset_layer_cmds(
                x,
                y,
                w,
                h,
                sh,
                sh.alpha_ppm * (n - i) / (n * n),
                inset_depth * (n - i) / n,
            ),
            spec_inset_layers_cmds(x, y, w, h, sh, inset_depth, i + 1, n),
        );
    }
}

/// An inset shadow's commands are balanced: its one clip scope is opened
/// and closed around clip-free fills.
pub proof fn lemma_inset_cmds_balanced(
    x: int,
    y: int,
    w: int,
    h: int,
    sh: BoxShadowData,
    radii: BorderRadii,
)
    ensures
        crate::scene::clip_balanced(spec_draw_inset_cmds(x, y, w, h, sh, radii)),
{
    if sh.alpha_ppm <= 0 || w <= 0 || h <= 0 {
        crate::scene::lemma_clip_empty();
    } else {
        let n = if sh.blur > 0 {
            spec_blur_steps(sh.blur as int)
        } else {
            1
        };
        let spread_abs = if sh.spread >= 0 {
            sh.spread as int
        } else {
            -(sh.spread as int)
        };
        let inset_depth = sh.blur * 3 / 2 + spread_abs;
        let layers = spec_inset_layers_cmds(x, y, w, h, sh, inset_depth, 0, n);
        lemma_inset_layers_fills_only(x, y, w, h, sh, inset_depth, 0, n);
        crate::scene::lemma_fills_only_balanced(layers);
        crate::scene::lemma_clip_wrap(
            crate::path::spec_rounded_rect_path(x, y, w, h, spec_clamped_radii(radii, w, h)),
            layers,
        );
        assert(seq![
            CmdModel::PushClip {
                path: crate::path::spec_rounded_rect_path(
                    x,
                    y,
                    w,
                    h,
                    spec_clamped_radii(radii, w, h),
                ),
            },
        ] + layers + seq![CmdModel::PopClip] == spec_draw_inset_cmds(x, y, w, h, sh, radii));
    }
}

} // verus!
