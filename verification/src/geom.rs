//! Fixed-point geometry: units, bounds, corner radii and small numeric
//! helpers.
//!
//! All lengths and coordinates are integers counting thousandths of a CSS
//! pixel; fractional quantities such as alpha values and gradient offsets
//! count millionths of one. Keeping every quantity an integer lets the whole
//! paint pipeline be specified exactly.

use vstd::prelude::*;

verus! {

/// Thousandths of a pixel per pixel: the base unit of every length.
pub const PX: i64 = 1000;

/// Millionths per unit: the base of alpha values and gradient offsets.
pub const ALPHA_ONE: i64 = 1_000_000;

/// Alpha values at or below this threshold (one thousandth) are treated as
/// invisible and skipped by the shadow painters.
pub const ALPHA_EPS: i64 = 1000;

/// The largest magnitude allowed for a single length taken from layout or
/// style data (about a million pixels).
pub const COORD_LIMIT: i64 = 0x4000_0000;

/// The largest number of nodes a document may hold.
pub const MAX_NODES: usize = 0x10_0000;

/// The largest magnitude allowed for an absolute position handed to a path
/// builder; accumulated offsets stay far below this.
pub const POS_LIMIT: i64 = 0x10_0000_0000_0000;

/// The largest magnitude allowed for a box dimension or radius handed to a
/// path builder; grown shadow rectangles stay far below this.
pub const DIM_LIMIT: i64 = 0x10_0000_0000;

/// The quarter-circle cubic Bezier constant, in millionths
/// (the standard approximation constant, about 0.552285).
pub const KAPPA_PPM: i64 = 552_285;

/// One horizontal and one vertical radius of a single box corner.
#[derive(Debug, Clone, Copy, PartialEq, Eq, Structural)]
pub struct CornerRadius {
    /// Horizontal radius in thousandths of a pixel.
    pub rx: i64,
    /// Vertical radius in thousandths of a pixel.
    pub ry: i64,
}

impl CornerRadius {
    /// Whether this corner is rounded at all.
    pub open spec fn is_round(self) -> bool {
        self.rx != 0 || self.ry != 0
    }
}

/// Border radii for each corner of a rounded rectangle.
#[derive(Debug, Clone, Copy, PartialEq, Eq, Structural)]
pub struct BorderRadii {
    pub top_left: CornerRadius,
    pub top_right: CornerRadius,
    pub bottom_right: CornerRadius,
    pub bottom_left: CornerRadius,
}

impl Default for BorderRadii {
    /// All four corners sharp.
    fn default() -> (r: BorderRadii)
        ensures
            r == BorderRadii::spec_default(),
    {
        BorderRadii {
            top_left: CornerRadius { rx: 0, ry: 0 },
            top_right: CornerRadius { rx: 0, ry: 0 },
            bottom_right: CornerRadius { rx: 0, ry: 0 },
            bottom_left: CornerRadius { rx: 0, ry: 0 },
        }
    }
}

impl BorderRadii {
    /// The all-sharp radii value.
    pub open spec fn spec_default() -> BorderRadii {
        BorderRadii {
            top_left: CornerRadius { rx: 0, ry: 0 },
            top_right: CornerRadius { rx: 0, ry: 0 },
            bottom_right: CornerRadius { rx: 0, ry: 0 },
            bottom_left: CornerRadius { rx: 0, ry: 0 },
        }
    }

    /// Whether any corner has a non-zero radius.
    pub open spec fn spec_has_any_radius(self) -> bool {
        self.top_left.is_round() || self.top_right.is_round() || self.bottom_right.is_round()
            || self.bottom_left.is_round()
    }

    /// Check whether any corner has a non-zero radius.
    pub fn has_any_radius(&self) -> (r: bool)
        ensures
            r == self.spec_has_any_radius(),
    {
        self.top_left.rx != 0 || self.top_left.ry != 0 || self.top_right.rx != 0
            || self.top_right.ry != 0 || self.bottom_right.rx != 0 || self.bottom_right.ry != 0
            || self.bottom_left.rx != 0 || self.bottom_left.ry != 0
    }

    /// All radii bounded in magnitude by `limit`.
    pub open spec fn bounded_by(self, limit: int) -> bool {
        &&& -limit <= self.top_left.rx <= limit
        &&& -limit <= self.top_left.ry <= limit
        &&& -limit <= self.top_right.rx <= limit
        &&& -limit <= self.top_right.ry <= limit
        &&& -limit <= self.bottom_right.rx <= limit
        &&& -limit <= self.bottom_right.ry <= limit
        &&& -limit <= self.bottom_left.rx <= limit
        &&& -limit <= self.bottom_left.ry <= limit
    }
}

/// A radius clamped into `[0, half]`.
pub open spec fn spec_clamp_radius(r: int, half: int) -> int {
    if r < 0 {
        0
    } else if r > half {
        half
    } else {
        r
    }
}

/// The radii of `radii` clamped so each horizontal radius is at most half the
/// width and each vertical radius at most half the height; this keeps the
/// four corner arcs from overlapping.
pub open spec fn spec_clamped_radii(radii: BorderRadii, w: int, h: int) -> BorderRadii {
    BorderRadii {
        top_left: CornerRadius {
            rx: spec_clamp_radius(radii.top_left.rx as int, w / 2) as i64,
            ry: spec_clamp_radius(radii.top_left.ry as int, h / 2) as i64,
        },
        top_right: CornerRadius {
            rx: spec_clamp_radius(radii.top_right.rx as int, w / 2) as i64,
            ry: spec_clamp_radius(radii.top_right.ry as int, h / 2) as i64,
        },
        bottom_right: CornerRadius {
            rx: spec_clamp_radius(radii.bottom_right.rx as int, w / 2) as i64,
            ry: spec_clamp_radius(radii.bottom_right.ry as int, h / 2) as i64,
        },
        bottom_left: CornerRadius {
            rx: spec_clamp_radius(radii.bottom_left.rx as int, w / 2) as i64,
            ry: spec_clamp_radius(radii.bottom_left.ry as int, h / 2) as i64,
        },
    }
}

/// Clamp a single radius into `[0, half]`.
pub fn clamp_radius(r: i64, half: i64) -> (c: i64)
    requires
        half >= 0,
    ensures
        c == spec_clamp_radius(r as int, half as int),
        0 <= c <= half,
{
    if r < 0 {
        0
    } else if r > half {
        half
    } else {
        r
    }
}

/// Clamp all radii of a box so no two corner arcs can overlap.
pub fn clamped_radii(radii: &BorderRadii, w: i64, h: i64) -> (c: BorderRadii)
    requires
        w > 0,
        h > 0,
    ensures
        c == spec_clamped_radii(*radii, w as int, h as int),
{
    let half_w: i64 = w / 2;
    let half_h: i64 = h / 2;
    BorderRadii {
        top_left: CornerRadius {
            rx: clamp_radius(radii.top_left.rx, half_w),
            ry: clamp_radius(radii.top_left.ry, half_h),
        },
        top_right: CornerRadius {
            rx: clamp_radius(radii.top_right.rx, half_w),
            ry: clamp_radius(radii.top_right.ry, half_h),
        },
        bottom_right: CornerRadius {
            rx: clamp_radius(radii.bottom_right.rx, half_w),
            ry: clamp_radius(radii.bottom_right.ry, half_h),
        },
        bottom_left: CornerRadius {
            rx: clamp_radius(radii.bottom_left.rx, half_w),
            ry: clamp_radius(radii.bottom_left.ry, half_h),
        },
    }
}

/// Clamped radii keep the corner arcs of each edge from overlapping: along
/// every edge the two adjacent radii sum to at most the edge length.
pub proof fn lemma_clamped_radii_fit(radii: BorderRadii, w: int, h: int)
    requires
        w > 0,
        h > 0,
    ensures
        spec_clamped_radii(radii, w, h).top_left.rx + spec_clamped_radii(radii, w, h).top_right.rx
            <= w,
        spec_clamped_radii(radii, w, h).bottom_left.rx + spec_clamped_radii(
            radii,
            w,
            h,
        ).bottom_right.rx <= w,
        spec_clamped_radii(radii, w, h).top_left.ry + spec_clamped_radii(
            radii,
            w,
            h,
        ).bottom_left.ry <= h,
        spec_clamped_radii(radii, w, h).top_right.ry + spec_clamped_radii(
            radii,
            w,
            h,
        ).bottom_right.ry <= h,
{
}

/// Truncating (toward zero) division on mathematical integers, for a
/// positive divisor.
pub open spec fn spec_div_trunc(a: int, b: int) -> int {
    if a >= 0 {
        a / b
    } else {
        -((-a) / b)
    }
}

/// Truncating division of a length by a positive divisor, as done by the
/// glyph-metric normalization.
pub fn div_trunc(a: i64, b: i64) -> (r: i64)
    requires
        b > 0,
        a > i64::MIN,
    ensures
        r == spec_div_trunc(a as int, b as int),
{
    if a >= 0 {
        let q: i64 = a / b;
        assert(q == a as int / b as int);
        q
    } else {
        let m: i64 = -a;
        let q: i64 = m / b;
        assert(q == m as int / b as int);
        assert(0 <= q <= m) by (nonlinear_arith)
            requires
                q == m as int / b as int,
                m >= 0,
                b > 0,
        ;
        -q
    }
}

/// The integer square root: the largest `r` with `r * r <= n`.
pub open spec fn spec_isqrt(n: nat) -> nat
    decreases n,
{
    if n == 0 {
        0
    } else {
        let r = spec_isqrt((n - 1) as nat);
        if (r + 1) * (r + 1) <= n {
            r + 1
        } else {
            r
        }
    }
}

/// The integer square root brackets its argument between two squares.
pub proof fn lemma_spec_isqrt_bounds(n: nat)
    ensures
        spec_isqrt(n) * spec_isqrt(n) <= n,
        (spec_isqrt(n) + 1) * (spec_isqrt(n) + 1) > n,
    decreases n,
{
    let s = spec_isqrt(n);
    if n == 0 {
        assert(s == 0);
        assert(s * s <= n && (s + 1) * (s + 1) > n) by (nonlinear_arith)
            requires
                s == 0,
                n == 0,
        ;
    } else {
        lemma_spec_isqrt_bounds((n - 1) as nat);
        let r = spec_isqrt((n - 1) as nat);
        if (r + 1) * (r + 1) <= n {
            assert(s == r + 1);
            assert((r + 2) * (r + 2) > n) by (nonlinear_arith)
                requires
                    r * r <= n - 1,
                    (r + 1) * (r + 1) > n - 1,
                    (r + 1) * (r + 1) <= n,
            ;
            assert(s * s <= n && (s + 1) * (s + 1) > n) by (nonlinear_arith)
                requires
                    s == r + 1,
                    (r + 1) * (r + 1) <= n,
                    (r + 2) * (r + 2) > n,
            ;
        } else {
            assert(s == r);
            assert(s * s <= n && (s + 1) * (s + 1) > n) by (nonlinear_arith)
                requires
                    s == r,
                    r * r <= n - 1,
                    (r + 1) * (r + 1) > n,
            ;
        }
    }
}

/// Only one natural number is bracketed that way.
pub proof fn lemma_isqrt_unique(n: nat, r: nat)
    requires
        r * r <= n,
        (r + 1) * (r + 1) > n,
    ensures
        r == spec_isqrt(n),
{
    lemma_spec_isqrt_bounds(n);
    let s = spec_isqrt(n);
    assert(r == s) by (nonlinear_arith)
        requires
            r * r <= n,
            (r + 1) * (r + 1) > n,
            s * s <= n,
            (s + 1) * (s + 1) > n,
    ;
}

/// Compute the integer square root: the largest `r` with `r * r <= n`.
pub fn isqrt(n: u64) -> (r: u64)
    ensures
        r * r <= n,
        (r + 1) * (r + 1) > n,
        r == spec_isqrt(n as nat),
{
    let mut lo: u64 = 0;
    let mut hi: u64 = 0x1_0000_0000;
    assert(0x1_0000_0000 * 0x1_0000_0000 > u64::MAX as int);
    while hi - lo > 1
        invariant
            lo < hi <= 0x1_0000_0000,
            lo * lo <= n,
            hi * hi > n,
        decreases hi - lo,
    {
        let mid: u64 = lo + (hi - lo) / 2;
        assert(lo < mid < hi);
        assert(mid * mid < 0x1_0000_0000 * 0x1_0000_0000) by (nonlinear_arith)
            requires
                0 < mid < 0x1_0000_0000,
        ;
        let sq: u64 = mid * mid;
        if sq <= n {
            lo = mid;
        } else {
            hi = mid;
        }
    }
    proof {
        lemma_isqrt_unique(n as nat, lo as nat);
    }
    lo
}

} // verus!
