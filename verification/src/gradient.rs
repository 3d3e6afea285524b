//! Linear gradients: direction geometry and color-stop resolution.

use vstd::prelude::*;
use crate::color::{resolve_color, spec_resolve_color, CssColor, Rgb, Rgba};
use crate::geom::{div_trunc, isqrt, spec_div_trunc, ALPHA_ONE, COORD_LIMIT};

verus! {

/// The largest magnitude allowed for a percentage, in millionths (1000%).
pub const PERCENT_LIMIT: i64 = 10_000_000;

/// A horizontal gradient direction keyword.
#[derive(Debug, Clone, Copy, PartialEq, Eq, Structural)]
pub enum HorizontalKeyword {
    Left,
    Right,
}

/// A vertical gradient direction keyword.
#[derive(Debug, Clone, Copy, PartialEq, Eq, Structural)]
pub enum VerticalKeyword {
    Top,
    Bottom,
}

/// The direction of a linear gradient.
///
/// An angle direction carries the sine and cosine of the CSS angle (zero
/// degrees pointing up, turning clockwise) in millionths; evaluating the two
/// trigonometric functions is the caller's concern, the geometry built from
/// them is not.
#[derive(Debug, Clone, Copy, PartialEq, Eq, Structural)]
pub enum GradientDirection {
    /// An angle, by the sine and cosine of the CSS angle in millionths.
    Angle { sin_ppm: i64, cos_ppm: i64 },
    /// Toward the left or right edge.
    Horizontal(HorizontalKeyword),
    /// Toward the top or bottom edge.
    Vertical(VerticalKeyword),
    /// Toward one of the four corners.
    Corner(HorizontalKeyword, VerticalKeyword),
}

impl GradientDirection {
    /// Sine and cosine values stay inside `[-1, 1]`.
    pub open spec fn wf(self) -> bool {
        match self {
            GradientDirection::Angle { sin_ppm, cos_ppm } => {
                &&& -1_000_000 <= sin_ppm <= 1_000_000
                &&& -1_000_000 <= cos_ppm <= 1_000_000
            },
            _ => true,
        }
    }
}

/// A CSS length-percentage pair: a fixed part in thousandths of a pixel plus
/// a part relative to some basis, in millionths.
#[derive(Debug, Clone, Copy, PartialEq, Eq, Structural)]
pub struct LengthPercentage {
    /// Fixed part in thousandths of a pixel.
    pub px: i64,
    /// Relative part in millionths of the basis length.
    pub percent_ppm: i64,
}

impl LengthPercentage {
    /// Both parts are bounded.
    pub open spec fn wf(self) -> bool {
        &&& -COORD_LIMIT <= self.px <= COORD_LIMIT
        &&& -PERCENT_LIMIT <= self.percent_ppm <= PERCENT_LIMIT
    }
}

/// What a length-percentage resolves to as a fraction (in millionths) of a
/// basis length: the relative part plus the fixed part divided by the basis.
/// A fixed part cannot be resolved against a non-positive basis.
pub open spec fn spec_resolve_fraction(lp: LengthPercentage, basis: int) -> Option<int> {
    if lp.px == 0 {
        Some(lp.percent_ppm as int)
    } else if basis <= 0 {
        None
    } else {
        Some(lp.percent_ppm + spec_div_trunc(lp.px * 1_000_000, basis))
    }
}

/// Resolve a length-percentage to a fraction of `basis`, in millionths.
pub fn resolve_fraction(lp: &LengthPercentage, basis: i64) -> (r: Option<i64>)
    requires
        lp.wf(),
        0 <= basis <= 0x1_0000_0000,
    ensures
        match r {
            Some(v) => spec_resolve_fraction(*lp, basis as int) == Some(v as int),
            None => spec_resolve_fraction(*lp, basis as int) is None,
        },
{
    if lp.px == 0 {
        Some(lp.percent_ppm)
    } else if basis <= 0 {
        None
    } else {
        Some(lp.percent_ppm + div_trunc(lp.px * 1_000_000, basis))
    }
}

/// One item of a gradient's stop list.
#[derive(Debug, Clone, Copy, PartialEq, Eq, Structural)]
pub enum GradientItem {
    /// A color stop without an explicit position.
    Simple(CssColor),
    /// A color stop with an explicit position along the gradient line.
    Complex { color: CssColor, position: LengthPercentage },
    /// An interpolation hint; accepted but producing no stop.
    InterpolationHint,
}

impl GradientItem {
    pub open spec fn wf(self) -> bool {
        match self {
            GradientItem::Simple(c) => c.wf(),
            GradientItem::Complex { color, position } => color.wf() && position.wf(),
            GradientItem::InterpolationHint => true,
        }
    }
}

/// A resolved gradient color stop: an offset inside `[0, 1]` along the
/// gradient line, a color, and an opacity.
#[derive(Debug, Clone, Copy, PartialEq, Eq, Structural)]
pub struct GradientStop {
    /// Offset along the gradient line in millionths.
    pub offset_ppm: i64,
    pub color: Rgb,
    /// Opacity in millionths.
    pub opacity_ppm: i64,
}

/// How a gradient continues outside its line.
#[derive(Debug, Clone, Copy, PartialEq, Eq, Structural)]
pub enum SpreadMethod {
    Pad,
    Repeat,
}

/// A fully resolved linear gradient paint, positioned relative to the box it
/// fills.
#[derive(Debug, Clone, PartialEq)]
pub struct LinearGradientPaint {
    pub x1: i64,
    pub y1: i64,
    pub x2: i64,
    pub y2: i64,
    pub spread: SpreadMethod,
    pub stops: Vec<GradientStop>,
}

/// The mathematical value of a linear gradient paint.
pub struct GradientModel {
    pub x1: int,
    pub y1: int,
    pub x2: int,
    pub y2: int,
    pub spread: SpreadMethod,
    pub stops: Seq<GradientStop>,
}

impl View for LinearGradientPaint {
    type V = GradientModel;

    open spec fn view(&self) -> GradientModel {
        GradientModel {
            x1: self.x1 as int,
            y1: self.y1 as int,
            x2: self.x2 as int,
            y2: self.y2 as int,
            spread: self.spread,
            stops: self.stops@,
        }
    }
}

/// A value clamped into `[0, 1]` in millionths.
pub open spec fn spec_clamp_unit(v: int) -> int {
    if v < 0 {
        0
    } else if v > 1_000_000 {
        1_000_000
    } else {
        v
    }
}

/// Clamp a value into `[0, 1]` in millionths.
pub fn clamp_unit(v: i64) -> (c: i64)
    ensures
        c == spec_clamp_unit(v as int),
{
    if v < 0 {
        0
    } else if v > 1_000_000 {
        1_000_000
    } else {
        v
    }
}

/// The stop a color produces at a given raw offset: the offset clamped into
/// `[0, 1]`, the color resolved against the current color, and its alpha as
/// the stop opacity.
pub open spec fn spec_color_stop(c: CssColor, offset: int, current: Rgba) -> GradientStop {
    let resolved = spec_resolve_color(c, current);
    GradientStop {
        offset_ppm: spec_clamp_unit(offset) as i64,
        color: resolved.spec_rgb(),
        opacity_ppm: spec_clamp_unit(resolved.alpha_ppm as int) as i64,
    }
}

/// Build the stop a color produces at a raw offset.
pub fn color_to_stop(c: &CssColor, offset: i64, current: Rgba) -> (s: GradientStop)
    ensures
        s == spec_color_stop(*c, offset as int, current),
{
    let resolved = resolve_color(c, current);
    GradientStop {
        offset_ppm: clamp_unit(offset),
        color: resolved.rgb(),
        opacity_ppm: clamp_unit(resolved.alpha_ppm),
    }
}

/// The number of items that are color stops rather than hints.
pub open spec fn spec_stop_count(items: Seq<GradientItem>) -> int
    decreases items.len(),
{
    if items.len() == 0 {
        0
    } else {
        (if items[0] is InterpolationHint {
            0int
        } else {
            1int
        }) + spec_stop_count(items.drop_first())
    }
}

/// The stops produced by the remaining items, `idx` stops having already
/// been produced out of `n` total. Simple stops are spaced evenly across
/// `[0, 1]`; explicitly positioned stops resolve against the gradient-line
/// length and are dropped when they cannot be resolved; hints produce
/// nothing.
pub open spec fn spec_stops_rec(
    items: Seq<GradientItem>,
    n: int,
    idx: int,
    glen: int,
    current: Rgba,
) -> Seq<GradientStop>
    decreases items.len(),
{
    if items.len() == 0 {
        Seq::<GradientStop>::empty()
    } else {
        let rest = items.drop_first();
        match items[0] {
            GradientItem::Simple(c) => {
                let offset = if n > 1 {
                    idx * 1_000_000 / (n - 1)
                } else {
                    0
                };
                seq![spec_color_stop(c, offset, current)] + spec_stops_rec(
                    rest,
                    n,
                    idx + 1,
                    glen,
                    current,
                )
            },
            GradientItem::Complex { color, position } => {
                match spec_resolve_fraction(position, glen) {
                    Some(offset) => seq![spec_color_stop(color, offset, current)]
                        + spec_stops_rec(rest, n, idx + 1, glen, current),
                    None => spec_stops_rec(rest, n, idx, glen, current),
                }
            },
            GradientItem::InterpolationHint => spec_stops_rec(rest, n, idx, glen, current),
        }
    }
}

/// All stops produced by a gradient's item list.
pub open spec fn spec_convert_stops(items: Seq<GradientItem>, glen: int, current: Rgba) -> Seq<
    GradientStop,
> {
    spec_stops_rec(items, spec_stop_count(items), 0, glen, current)
}

/// Count the items that are color stops rather than hints.
fn stop_count(items: &Vec<GradientItem>) -> (n: usize)
    ensures
        n == spec_stop_count(items@),
        n <= items@.len(),
{
    let mut n: usize = 0;
    let mut i: usize = 0;
    while i < items.len()
        invariant
            i <= items@.len(),
            n == spec_stop_count(items@.take(i as int)),
            n <= i,
        decreases items@.len() - i,
    {
        proof {
            lemma_stop_count_take_step(items@, i as int);
        }
        match items[i] {
            GradientItem::InterpolationHint => {
            },
            _ => {
                n = n + 1;
            },
        }
        i = i + 1;
    }
    proof {
        assert(items@.take(items@.len() as int) =~= items@);
    }
    n
}

/// Counting one more item adds one for a stop and nothing for a hint.
proof fn lemma_stop_count_take_step(items: Seq<GradientItem>, i: int)
    requires
        0 <= i < items.len(),
    ensures
        spec_stop_count(items.take(i + 1)) == spec_stop_count(items.take(i)) + (
        if items[i] is InterpolationHint {
            0int
        } else {
            1int
        }),
    decreases i,
{
    let a = items.take(i + 1);
    let b = items.take(i);
    assert(spec_stop_count(Seq::<GradientItem>::empty()) == 0);
    if i == 0 {
        assert(a.len() == 1 && a[0] == items[0]);
        assert(a.drop_first() =~= Seq::<GradientItem>::empty());
        assert(b =~= Seq::<GradientItem>::empty());
    } else {
        assert(a.len() == i + 1 && a[0] == items[0]);
        assert(b.len() == i && b[0] == items[0]);
        assert(a.drop_first() =~= items.drop_first().take(i));
        assert(b.drop_first() =~= items.drop_first().take(i - 1));
        lemma_stop_count_take_step(items.drop_first(), i - 1);
    }
}

/// Convert a gradient's item list to resolved stops.
///
/// `glen` is the gradient-line length in thousandths of a pixel; explicitly
/// positioned stops resolve their fixed parts against it.
pub fn convert_gradient_stops(items: &Vec<GradientItem>, glen: i64, current: Rgba) -> (stops: Vec<
    GradientStop,
>)
    requires
        forall|k: int| 0 <= k < items@.len() ==> (#[trigger] items@[k]).wf(),
        items@.len() <= 0x1_0000,
        0 <= glen <= 0x1_0000_0000,
    ensures
        stops@ == spec_convert_stops(items@, glen as int, current),
{
    let ghost total = spec_convert_stops(items@, glen as int, current);
    let n = stop_count(items);
    let mut stops: Vec<GradientStop> = Vec::new();
    let mut idx: usize = 0;
    let mut i: usize = 0;
    proof {
        assert(items@.skip(0) =~= items@);
        assert(Seq::<GradientStop>::empty() + spec_stops_rec(
            items@,
            n as int,
            0,
            glen as int,
            current,
        ) =~= spec_stops_rec(items@, n as int, 0, glen as int, current));
    }
    while i < items.len()
        invariant
            i <= items@.len(),
            idx <= i,
            forall|k: int| 0 <= k < items@.len() ==> (#[trigger] items@[k]).wf(),
            items@.len() <= 0x1_0000,
            0 <= glen <= 0x1_0000_0000,
            n == spec_stop_count(items@),
            n <= items@.len(),
            total == spec_convert_stops(items@, glen as int, current),
            total == stops@ + spec_stops_rec(
                items@.skip(i as int),
                n as int,
                idx as int,
                glen as int,
                current,
            ),
        decreases items@.len() - i,
    {
        let ghost prev = stops@;
        let ghost previdx = idx as int;
        let ghost rest = spec_stops_rec(
            items@.skip(i as int),
            n as int,
            idx as int,
            glen as int,
            current,
        );
        proof {
            assert(items@.skip(i as int).drop_first() =~= items@.skip(i + 1));
            assert(items@.skip(i as int)[0] == items@[i as int]);
        }
        match &items[i] {
            GradientItem::Simple(c) => {
                let offset: i64 = if n > 1 {
                    (idx as i64) * 1_000_000 / ((n - 1) as i64)
                } else {
                    0
                };
                let s = color_to_stop(c, offset, current);
                stops.push(s);
                idx = idx + 1;
                proof {
                    assert(prev + rest =~= stops@ + spec_stops_rec(
                        items@.skip(i + 1),
                        n as int,
                        idx as int,
                        glen as int,
                        current,
                    ));
                }
            },
            GradientItem::Complex { color, position } => {
                match resolve_fraction(position, glen) {
                    Some(offset) => {
                        let s = color_to_stop(color, offset, current);
                        stops.push(s);
                        idx = idx + 1;
                        proof {
                            assert(prev + rest =~= stops@ + spec_stops_rec(
                                items@.skip(i + 1),
                                n as int,
                                idx as int,
                                glen as int,
                                current,
                            ));
                        }
                    },
                    None => {
                    },
                }
            },
            GradientItem::InterpolationHint => {
            },
        }
        i = i + 1;
    }
    proof {
        assert(items@.skip(items@.len() as int) =~= Seq::<GradientItem>::empty());
        assert(stops@ =~= total);
    }
    stops
}

/// With no hints, every item is a stop.
proof fn lemma_all_simple_count(items: Seq<GradientItem>)
    requires
        forall|k: int| 0 <= k < items.len() ==> items[k] is Simple,
    ensures
        spec_stop_count(items) == items.len(),
    decreases items.len(),
{
    if items.len() > 0 {
        assert(forall|k: int|
            0 <= k < items.drop_first().len() ==> items.drop_first()[k] == items[k + 1]);
        lemma_all_simple_count(items.drop_first());
    }
}

/// The stops of a run of simple items continue the even spacing: the `j`th
/// produced stop sits at `(idx + j) / (n - 1)`.
proof fn lemma_simple_stops_shape(
    items: Seq<GradientItem>,
    n: int,
    idx: int,
    glen: int,
    current: Rgba,
)
    requires
        forall|k: int| 0 <= k < items.len() ==> items[k] is Simple,
        n > 1,
        0 <= idx,
        idx + items.len() <= n,
    ensures
        spec_stops_rec(items, n, idx, glen, current).len() == items.len(),
        forall|j: int|
            0 <= j < items.len() ==> #[trigger] spec_stops_rec(
                items,
                n,
                idx,
                glen,
                current,
            )[j].offset_ppm == (idx + j) * 1_000_000 / (n - 1),
    decreases items.len(),
{
    if items.len() > 0 {
        let c = items[0]->Simple_0;
        let offset = idx * 1_000_000 / (n - 1);
        assert(0 <= offset <= 1_000_000) by (nonlinear_arith)
            requires
                0 <= idx <= n - 1,
                n > 1,
                offset == idx * 1_000_000 / (n - 1),
        ;
        assert(spec_color_stop(c, offset, current).offset_ppm == offset);
        assert(forall|k: int|
            0 <= k < items.drop_first().len() ==> items.drop_first()[k] == items[k + 1]);
        lemma_simple_stops_shape(items.drop_first(), n, idx + 1, glen, current);
        let rest = spec_stops_rec(items.drop_first(), n, idx + 1, glen, current);
        assert(spec_stops_rec(items, n, idx, glen, current) == seq![
            spec_color_stop(c, offset, current),
        ] + rest);
        assert(forall|j: int|
            0 <= j < items.len() ==> #[trigger] spec_stops_rec(
                items,
                n,
                idx,
                glen,
                current,
            )[j].offset_ppm == (idx + j) * 1_000_000 / (n - 1)) by {
            assert(forall|j: int|
                1 <= j < items.len() ==> spec_stops_rec(items, n, idx, glen, current)[j] == rest[j
                    - 1]);
        };
    }
}

/// Stops without explicit positions are spaced evenly across `[0, 1]`: with
/// `n` simple stops and no others, the `k`th stop's offset is exactly
/// `k / (n - 1)`.
pub proof fn lemma_even_stop_spacing(items: Seq<GradientItem>, glen: int, current: Rgba)
    requires
        items.len() >= 2,
        forall|k: int| 0 <= k < items.len() ==> items[k] is Simple,
    ensures
        spec_convert_stops(items, glen, current).len() == items.len(),
        forall|k: int|
            0 <= k < items.len() ==> #[trigger] spec_convert_stops(
                items,
                glen,
                current,
            )[k].offset_ppm == k * 1_000_000 / (items.len() - 1),
{
    lemma_all_simple_count(items);
    lemma_simple_stops_shape(items, items.len() as int, 0, glen, current);
}

/// Stop production distributes over splitting the item list, the produced
/// index advancing by the number of stops the first part emits.
proof fn lemma_stops_rec_concat(
    a: Seq<GradientItem>,
    b: Seq<GradientItem>,
    n: int,
    idx: int,
    glen: int,
    current: Rgba,
)
    ensures
        spec_stops_rec(a + b, n, idx, glen, current) == spec_stops_rec(a, n, idx, glen, current)
            + spec_stops_rec(
            b,
            n,
            idx + spec_stops_rec(a, n, idx, glen, current).len(),
            glen,
            current,
        ),
    decreases a.len(),
{
    if a.len() == 0 {
        assert(a + b =~= b);
        assert(spec_stops_rec(a, n, idx, glen, current) =~= Seq::<GradientStop>::empty());
        assert(Seq::<GradientStop>::empty() + spec_stops_rec(b, n, idx, glen, current)
            =~= spec_stops_rec(b, n, idx, glen, current));
    } else {
        assert((a + b)[0] == a[0]);
        assert((a + b).drop_first() =~= a.drop_first() + b);
        let arest = a.drop_first();
        match a[0] {
            GradientItem::Simple(c) => {
                lemma_stops_rec_concat(arest, b, n, idx + 1, glen, current);
                let offset = if n > 1 {
                    idx * 1_000_000 / (n - 1)
                } else {
                    0
                };
                let s = spec_color_stop(c, offset, current);
                assert(seq![s] + (spec_stops_rec(arest, n, idx + 1, glen, current)
                    + spec_stops_rec(
                    b,
                    n,
                    idx + 1 + spec_stops_rec(arest, n, idx + 1, glen, current).len(),
                    glen,
                    current,
                )) =~= (seq![s] + spec_stops_rec(arest, n, idx + 1, glen, current))
                    + spec_stops_rec(
                    b,
                    n,
                    idx + 1 + spec_stops_rec(arest, n, idx + 1, glen, current).len(),
                    glen,
                    current,
                ));
            },
            GradientItem::Complex { color, position } => {
                match spec_resolve_fraction(position, glen) {
                    Some(offset) => {
                        lemma_stops_rec_concat(arest, b, n, idx + 1, glen, current);
                        let s = spec_color_stop(color, offset, current);
                        assert(seq![s] + (spec_stops_rec(arest, n, idx + 1, glen, current)
                            + spec_stops_rec(
                            b,
                            n,
                            idx + 1 + spec_stops_rec(arest, n, idx + 1, glen, current).len(),
                            glen,
                            current,
                        )) =~= (seq![s] + spec_stops_rec(arest, n, idx + 1, glen, current))
                            + spec_stops_rec(
                            b,
                            n,
                            idx + 1 + spec_stops_rec(arest, n, idx + 1, glen, current).len(),
                            glen,
                            current,
                        ));
                    },
                    None => {
                        lemma_stops_rec_concat(arest, b, n, idx, glen, current);
                    },
                }
            },
            GradientItem::InterpolationHint => {
                lemma_stops_rec_concat(arest, b, n, idx, glen, current);
            },
        }
    }
}

/// A stop with an explicit percentage position resolves to exactly that
/// fraction, whatever other stops surround it: in any item list holding an
/// explicitly positioned stop at `pct` (with no fixed part), the stop it
/// produces sits right after those of the items before it and its offset is
/// `pct` itself.
pub proof fn lemma_explicit_stop_offset(
    before: Seq<GradientItem>,
    after: Seq<GradientItem>,
    color: CssColor,
    pct: i64,
    glen: int,
    current: Rgba,
)
    requires
        0 <= pct <= 1_000_000,
    ensures
        ({
            let item = GradientItem::Complex {
                color,
                position: LengthPercentage { px: 0, percent_ppm: pct },
            };
            let items = before + seq![item] + after;
            let stops = spec_convert_stops(items, glen, current);
            let nb = spec_stops_rec(
                before,
                spec_stop_count(items),
                0,
                glen,
                current,
            ).len();
            &&& nb < stops.len()
            &&& stops[nb as int].offset_ppm == pct
            &&& stops[nb as int].color == spec_resolve_color(color, current).spec_rgb()
        }),
{
    let item = GradientItem::Complex {
        color,
        position: LengthPercentage { px: 0, percent_ppm: pct },
    };
    let items = before + seq![item] + after;
    let n = spec_stop_count(items);
    lemma_stops_rec_concat(before + seq![item], after, n, 0, glen, current);
    let nb0 = spec_stops_rec(before, n, 0, glen, current).len();
    lemma_stops_rec_concat(before, seq![item], n, 0, glen, current);
    assert(spec_resolve_fraction(
        LengthPercentage { px: 0, percent_ppm: pct },
        glen,
    ) == Some(pct as int));
    let s = spec_color_stop(color, pct as int, current);
    assert(spec_stops_rec(seq![item], n, nb0 as int, glen, current) =~= seq![s]) by {
        assert(seq![item].drop_first() =~= Seq::<GradientItem>::empty());
        assert(spec_stops_rec(
            Seq::<GradientItem>::empty(),
            n,
            nb0 as int + 1,
            glen,
            current,
        ) =~= Seq::<GradientStop>::empty());
        assert(seq![s] + Seq::<GradientStop>::empty() =~= seq![s]);
    };
    assert(s.offset_ppm == pct);
    assert(spec_convert_stops(items, glen, current) == spec_stops_rec(
        before + seq![item],
        n,
        0,
        glen,
        current,
    ) + spec_stops_rec(after, n, nb0 as int + 1, glen, current));
    assert(spec_stops_rec(before + seq![item], n, 0, glen, current) == spec_stops_rec(
        before,
        n,
        0,
        glen,
        current,
    ) + seq![s]);
    assert(spec_convert_stops(items, glen, current)[nb0 as int] == s);
}

/// The endpoints of the gradient line inside a `w` by `h` box, so the line
/// spans the box edge to edge along the requested direction.
///
/// For an angle, the CSS convention (zero pointing up, turning clockwise) is
/// rotated into the mathematical one by taking `sin(pi - a) == sin(a)` and
/// `cos(pi - a) == -cos(a)`, and the half-diagonal is projected onto the
/// rotated axis to find the line's half-extent.
pub open spec fn spec_gradient_endpoints(dir: GradientDirection, w: int, h: int) -> (
    int,
    int,
    int,
    int,
) {
    match dir {
        GradientDirection::Angle { sin_ppm, cos_ppm } => {
            let s = sin_ppm as int;
            let c = -(cos_ppm as int);
            let sa = if s >= 0 { s } else { -s };
            let ca = if c >= 0 { c } else { -c };
            let off = (w / 2 * sa + h / 2 * ca) / 1_000_000;
            (
                w / 2 - spec_div_trunc(off * s, 1_000_000),
                h / 2 - spec_div_trunc(off * c, 1_000_000),
                w / 2 + spec_div_trunc(off * s, 1_000_000),
                h / 2 + spec_div_trunc(off * c, 1_000_000),
            )
        },
        GradientDirection::Horizontal(hk) => {
            match hk {
                HorizontalKeyword::Right => (0, h / 2, w, h / 2),
                HorizontalKeyword::Left => (w, h / 2, 0, h / 2),
            }
        },
        GradientDirection::Vertical(vk) => {
            match vk {
                VerticalKeyword::Top => (w / 2, h, w / 2, 0),
                VerticalKeyword::Bottom => (w / 2, 0, w / 2, h),
            }
        },
        GradientDirection::Corner(hk, vk) => {
            let sx = if hk is Right { 0int } else { w };
            let ex = if hk is Right { w } else { 0int };
            let sy = if vk is Top { h } else { 0int };
            let ey = if vk is Top { 0int } else { h };
            (sx, sy, ex, ey)
        },
    }
}

/// The length of the gradient line, by integer square root.
pub open spec fn spec_gradient_length(x1: int, y1: int, x2: int, y2: int) -> int {
    crate::geom::spec_isqrt(((x2 - x1) * (x2 - x1) + (y2 - y1) * (y2 - y1)) as nat) as int
}

/// The gradient a direction and item list resolve to inside a `w` by `h`
/// box: endpoints from the direction, stops resolved against the line
/// length. A gradient without a single resolved stop is not drawn.
pub open spec fn spec_convert_linear_gradient(
    dir: GradientDirection,
    items: Seq<GradientItem>,
    repeating: bool,
    w: int,
    h: int,
    current: Rgba,
) -> Option<GradientModel> {
    let (x1, y1, x2, y2) = spec_gradient_endpoints(dir, w, h);
    let glen = spec_gradient_length(x1, y1, x2, y2);
    let stops = spec_convert_stops(items, glen, current);
    if stops.len() == 0 {
        None
    } else {
        Some(
            GradientModel {
                x1,
                y1,
                x2,
                y2,
                spread: if repeating {
                    SpreadMethod::Repeat
                } else {
                    SpreadMethod::Pad
                },
                stops,
            },
        )
    }
}

/// Convert a gradient direction and item list to a concrete linear-gradient
/// paint for a `w` by `h` box.
pub fn convert_linear_gradient(
    direction: &GradientDirection,
    items: &Vec<GradientItem>,
    repeating: bool,
    w: i64,
    h: i64,
    current: Rgba,
) -> (r: Option<LinearGradientPaint>)
    requires
        direction.wf(),
        forall|k: int| 0 <= k < items@.len() ==> (#[trigger] items@[k]).wf(),
        items@.len() <= 0x1_0000,
        0 < w <= COORD_LIMIT,
        0 < h <= COORD_LIMIT,
    ensures
        match r {
            Some(g) => spec_convert_linear_gradient(
                *direction,
                items@,
                repeating,
                w as int,
                h as int,
                current,
            ) == Some(g@),
            None => spec_convert_linear_gradient(
                *direction,
                items@,
                repeating,
                w as int,
                h as int,
                current,
            ) is None,
        },
        r is Some ==> -0x1_0000_0000 <= r->0@.x1 <= 0x1_0000_0000 && -0x1_0000_0000 <= r->0@.y1
            <= 0x1_0000_0000 && -0x1_0000_0000 <= r->0@.x2 <= 0x1_0000_0000 && -0x1_0000_0000
            <= r->0@.y2 <= 0x1_0000_0000,
{
    let (x1, y1, x2, y2): (i64, i64, i64, i64) = match direction {
        GradientDirection::Angle { sin_ppm, cos_ppm } => {
            let s: i64 = *sin_ppm;
            let c: i64 = -*cos_ppm;
            let sa: i64 = if s >= 0 { s } else { -s };
            let ca: i64 = if c >= 0 { c } else { -c };
            let hw: i64 = w / 2;
            let hh: i64 = h / 2;
            assert(0 <= hw <= 0x2000_0000 && 0 <= hh <= 0x2000_0000);
            assert(0 <= hw * sa <= 0x2000_0000 * 1_000_000 && 0 <= hh * ca <= 0x2000_0000
                * 1_000_000) by (nonlinear_arith)
                requires
                    0 <= hw <= 0x2000_0000,
                    0 <= hh <= 0x2000_0000,
                    0 <= sa <= 1_000_000,
                    0 <= ca <= 1_000_000,
            ;
            let numer: i64 = hw * sa + hh * ca;
            let off: i64 = numer / 1_000_000;
            assert(0 <= off <= 0x4000_0000) by (nonlinear_arith)
                requires
                    0 <= numer <= 0x4000_0000 * 1_000_000,
                    off == numer as int / 1_000_000,
            ;
            assert(-0x4000_0000 * 1_000_000 <= off * s <= 0x4000_0000 * 1_000_000 && -0x4000_0000
                * 1_000_000 <= off * c <= 0x4000_0000 * 1_000_000) by (nonlinear_arith)
                requires
                    0 <= off <= 0x4000_0000,
                    -1_000_000 <= s <= 1_000_000,
                    -1_000_000 <= c <= 1_000_000,
            ;
            let dx: i64 = div_trunc(off * s, 1_000_000);
            let dy: i64 = div_trunc(off * c, 1_000_000);
            assert(-0x4000_0000 <= dx <= 0x4000_0000 && -0x4000_0000 <= dy <= 0x4000_0000) by {
                assert(forall|a: int| -0x4000_0000 * 1_000_000 <= a <= 0x4000_0000 * 1_000_000
                    ==> -0x4000_0000 <= #[trigger] spec_div_trunc(a, 1_000_000) <= 0x4000_0000)
                    by (nonlinear_arith);
            };
            (hw - dx, hh - dy, hw + dx, hh + dy)
        },
        GradientDirection::Horizontal(hk) => {
            match hk {
                HorizontalKeyword::Right => (0, h / 2, w, h / 2),
                HorizontalKeyword::Left => (w, h / 2, 0, h / 2),
            }
        },
        GradientDirection::Vertical(vk) => {
            match vk {
                VerticalKeyword::Top => (w / 2, h, w / 2, 0),
                VerticalKeyword::Bottom => (w / 2, 0, w / 2, h),
            }
        },
        GradientDirection::Corner(hk, vk) => {
            let sx: i64 = if matches!(hk, HorizontalKeyword::Right) { 0 } else { w };
            let ex: i64 = if matches!(hk, HorizontalKeyword::Right) { w } else { 0 };
            let sy: i64 = if matches!(vk, VerticalKeyword::Top) { h } else { 0 };
            let ey: i64 = if matches!(vk, VerticalKeyword::Top) { 0 } else { h };
            (sx, sy, ex, ey)
        },
    };
    assert((x1 as int, y1 as int, x2 as int, y2 as int) == spec_gradient_endpoints(
        *direction,
        w as int,
        h as int,
    ));
    assert(-0x1_0000_0000 <= x1 <= 0x1_0000_0000 && -0x1_0000_0000 <= y1 <= 0x1_0000_0000);
    assert(-0x1_0000_0000 <= x2 <= 0x1_0000_0000 && -0x1_0000_0000 <= y2 <= 0x1_0000_0000);
    let dx: i64 = x2 - x1;
    let dy: i64 = y2 - y1;
    assert(-0x8000_0000 <= dx <= 0x8000_0000 && -0x8000_0000 <= dy <= 0x8000_0000);
    assert(0 <= dx * dx <= 0x4000_0000_0000_0000 && 0 <= dy * dy <= 0x4000_0000_0000_0000)
        by (nonlinear_arith)
        requires
            -0x8000_0000 <= dx <= 0x8000_0000,
            -0x8000_0000 <= dy <= 0x8000_0000,
    ;
    let sqx: i64 = dx * dx;
    let sqy: i64 = dy * dy;
    let sq: u64 = (sqx as u64) + (sqy as u64);
    let glen: u64 = isqrt(sq);
    assert(glen * glen <= sq);
    assert(glen <= 0x1_0000_0000) by (nonlinear_arith)
        requires
            glen * glen <= 0x8000_0000_0000_0000,
    ;

    let stops = convert_gradient_stops(items, glen as i64, current);
    if stops.len() == 0 {
        return None;
    }
    let spread = if repeating {
        SpreadMethod::Repeat
    } else {
        SpreadMethod::Pad
    };
    Some(LinearGradientPaint { x1, y1, x2, y2, spread, stops })
}

} // verus!
