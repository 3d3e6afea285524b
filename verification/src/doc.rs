//! The document model: a styled, laid-out node tree as the paint pipeline
//! reads it. The surrounding shell translates an externally parsed and
//! laid-out document into this form; everything here is plain data.

use vstd::prelude::*;
use crate::border::{BordersSpec, BorderWidths};
use crate::color::{CssColor, Rgba};
use crate::geom::{div_trunc, spec_div_trunc, BorderRadii, CornerRadius, COORD_LIMIT, MAX_NODES};
use crate::gradient::{GradientDirection, GradientItem, LengthPercentage};
use crate::shadow::ShadowSpec;
use crate::text::{ClusterData, GlyphRunData, LineItemData, TextLayoutData};

verus! {

/// One corner's radius specification: a length-percentage for each axis,
/// the horizontal one resolving against the box width and the vertical one
/// against the box height.
#[derive(Debug, Clone, Copy, PartialEq, Eq, Structural)]
pub struct RadiusSpec {
    pub x: LengthPercentage,
    pub y: LengthPercentage,
}

impl RadiusSpec {
    pub open spec fn wf(self) -> bool {
        self.x.wf() && self.y.wf()
    }
}

/// The four corner radius specifications of a box.
#[derive(Debug, Clone, Copy, PartialEq, Eq, Structural)]
pub struct RadiiSpec {
    pub top_left: RadiusSpec,
    pub top_right: RadiusSpec,
    pub bottom_right: RadiusSpec,
    pub bottom_left: RadiusSpec,
}

impl RadiiSpec {
    pub open spec fn wf(self) -> bool {
        &&& self.top_left.wf()
        &&& self.top_right.wf()
        &&& self.bottom_right.wf()
        &&& self.bottom_left.wf()
    }
}

/// One background image layer: only linear gradients are painted; every
/// other kind of image is carried as unsupported and skipped.
#[derive(Debug, Clone)]
pub enum BackgroundLayer {
    LinearGradient { direction: GradientDirection, items: Vec<GradientItem>, repeating: bool },
    Unsupported,
}

impl BackgroundLayer {
    pub open spec fn wf(self) -> bool {
        match self {
            BackgroundLayer::LinearGradient { direction, items, repeating } => {
                &&& direction.wf()
                &&& items@.len() <= 0x1_0000
                &&& forall|k: int| 0 <= k < items@.len() ==> (#[trigger] items@[k]).wf()
            },
            BackgroundLayer::Unsupported => true,
        }
    }
}

/// The computed style of a node, reduced to what painting reads.
#[derive(Debug, Clone)]
pub struct StyleData {
    /// The inherited text color, resolved to sRGB.
    pub text_color: Rgba,
    /// The background color.
    pub background_color: CssColor,
    /// The background image layers, in declaration order.
    pub background_images: Vec<BackgroundLayer>,
    /// The corner radius specifications.
    pub border_radii: RadiiSpec,
    /// The border colors and line styles.
    pub borders: BordersSpec,
    /// The box shadows, in source order.
    pub box_shadows: Vec<ShadowSpec>,
}

impl StyleData {
    pub open spec fn wf(self) -> bool {
        &&& self.text_color.wf()
        &&& self.background_color.wf()
        &&& self.background_images@.len() <= 0x1000
        &&& forall|k: int|
            0 <= k < self.background_images@.len() ==> (#[trigger] self.background_images@[k]).wf()
        &&& self.border_radii.wf()
        &&& self.borders.wf()
        &&& self.box_shadows@.len() <= 0x1000
        &&& forall|k: int|
            0 <= k < self.box_shadows@.len() ==> (#[trigger] self.box_shadows@[k]).wf()
    }
}

/// One node of the laid-out tree: final box geometry, computed style, an
/// optional inline text layout, and the paint-order children.
#[derive(Debug, Clone)]
pub struct NodeData {
    /// Position relative to the parent's box origin, in thousandths of a
    /// pixel.
    pub x: i64,
    pub y: i64,
    /// Box size in thousandths of a pixel.
    pub width: i64,
    pub height: i64,
    /// Border widths from layout.
    pub border: BorderWidths,
    /// Padding widths from layout.
    pub padding: BorderWidths,
    /// The computed style, when the node has one.
    pub style: Option<StyleData>,
    /// The shaped inline text, when the node carries any.
    pub text_layout: Option<TextLayoutData>,
    /// Children in paint order (anonymous wrapper boxes included), as
    /// indices into the document's node list; each is greater than the
    /// node's own index.
    pub paint_children: Vec<usize>,
}

impl NodeData {
    /// Well-formed at index `i` of `n` nodes: bounded geometry, well-formed
    /// style and text, and forward-pointing children.
    pub open spec fn wf(self, i: int, n: int) -> bool {
        &&& -COORD_LIMIT <= self.x <= COORD_LIMIT
        &&& -COORD_LIMIT <= self.y <= COORD_LIMIT
        &&& -COORD_LIMIT <= self.width <= COORD_LIMIT
        &&& -COORD_LIMIT <= self.height <= COORD_LIMIT
        &&& self.border.bounded()
        &&& self.padding.bounded()
        &&& match self.style {
            Some(s) => s.wf(),
            None => true,
        }
        &&& match self.text_layout {
            Some(t) => t.wf(),
            None => true,
        }
        &&& forall|k: int|
            0 <= k < self.paint_children@.len() ==> i < #[trigger] self.paint_children@[k] < n
    }
}

/// A laid-out document: its nodes and the root element's index.
#[derive(Debug, Clone)]
pub struct Document {
    pub nodes: Vec<NodeData>,
    pub root: usize,
}

impl Document {
    /// A well-formed document: a bounded node list, a valid root, and every
    /// node well formed with children pointing forward. Forward-pointing
    /// children make the paint order loop-free.
    pub open spec fn wf(self) -> bool {
        &&& self.nodes@.len() <= MAX_NODES
        &&& self.root < self.nodes@.len()
        &&& forall|i: int|
            0 <= i < self.nodes@.len() ==> (#[trigger] self.nodes@[i]).wf(
                i,
                self.nodes@.len() as int,
            )
    }
}

/// What a length-percentage radius resolves to against a box dimension,
/// clamped into the coordinate range (larger radii draw identically, since
/// every radius is later clamped to half the box anyway).
pub open spec fn spec_resolve_radius(lp: LengthPercentage, basis: int) -> int {
    let v = lp.px + spec_div_trunc(lp.percent_ppm * basis, 1_000_000);
    if v < -COORD_LIMIT {
        -COORD_LIMIT as int
    } else if v > COORD_LIMIT {
        COORD_LIMIT as int
    } else {
        v
    }
}

/// Resolve one radius component against a box dimension.
fn resolve_radius(lp: &LengthPercentage, basis: i64) -> (r: i64)
    requires
        lp.wf(),
        0 <= basis <= COORD_LIMIT,
    ensures
        r == spec_resolve_radius(*lp, basis as int),
        -COORD_LIMIT <= r <= COORD_LIMIT,
{
    assert(-0x40_0000_0000_0000 <= lp.percent_ppm * basis <= 0x40_0000_0000_0000)
        by (nonlinear_arith)
        requires
            -10_000_000 <= lp.percent_ppm <= 10_000_000,
            0 <= basis <= COORD_LIMIT,
    ;
    let v: i64 = lp.px + div_trunc(lp.percent_ppm * basis, 1_000_000);
    if v < -COORD_LIMIT {
        -COORD_LIMIT
    } else if v > COORD_LIMIT {
        COORD_LIMIT
    } else {
        v
    }
}

/// The border radii a style resolves to for a `w` by `h` box: horizontal
/// components resolve against the width, vertical ones against the height.
pub open spec fn spec_extract_border_radii(radii: RadiiSpec, w: int, h: int) -> BorderRadii {
    BorderRadii {
        top_left: CornerRadius {
            rx: spec_resolve_radius(radii.top_left.x, w) as i64,
            ry: spec_resolve_radius(radii.top_left.y, h) as i64,
        },
        top_right: CornerRadius {
            rx: spec_resolve_radius(radii.top_right.x, w) as i64,
            ry: spec_resolve_radius(radii.top_right.y, h) as i64,
        },
        bottom_right: CornerRadius {
            rx: spec_resolve_radius(radii.bottom_right.x, w) as i64,
            ry: spec_resolve_radius(radii.bottom_right.y, h) as i64,
        },
        bottom_left: CornerRadius {
            rx: spec_resolve_radius(radii.bottom_left.x, w) as i64,
            ry: spec_resolve_radius(radii.bottom_left.y, h) as i64,
        },
    }
}

/// Resolve a node's border radii for its box size.
pub fn extract_border_radii(radii: &RadiiSpec, w: i64, h: i64) -> (r: BorderRadii)
    requires
        radii.wf(),
        0 <= w <= COORD_LIMIT,
        0 <= h <= COORD_LIMIT,
    ensures
        r == spec_extract_border_radii(*radii, w as int, h as int),
        r.bounded_by(COORD_LIMIT as int),
{
    BorderRadii {
        top_left: CornerRadius {
            rx: resolve_radius(&radii.top_left.x, w),
            ry: resolve_radius(&radii.top_left.y, h),
        },
        top_right: CornerRadius {
            rx: resolve_radius(&radii.top_right.x, w),
            ry: resolve_radius(&radii.top_right.y, h),
        },
        bottom_right: CornerRadius {
            rx: resolve_radius(&radii.bottom_right.x, w),
            ry: resolve_radius(&radii.bottom_right.y, h),
        },
        bottom_left: CornerRadius {
            rx: resolve_radius(&radii.bottom_left.x, w),
            ry: resolve_radius(&radii.bottom_left.y, h),
        },
    }
}


/// Check an alpha-carrying color value.
fn check_rgba(c: &Rgba) -> (r: bool)
    ensures
        r == c.wf(),
{
    0 <= c.alpha_ppm && c.alpha_ppm <= crate::geom::ALPHA_ONE
}

/// Check an abstract color value.
fn check_color(c: &CssColor) -> (r: bool)
    ensures
        r == c.wf(),
{
    match c {
        CssColor::Absolute(a) => check_rgba(a),
        CssColor::CurrentColor => true,
        CssColor::Complex(a) => check_rgba(a),
    }
}

/// Check a length-percentage pair.
fn check_lp(lp: &LengthPercentage) -> (r: bool)
    ensures
        r == lp.wf(),
{
    -COORD_LIMIT <= lp.px && lp.px <= COORD_LIMIT && -crate::gradient::PERCENT_LIMIT
        <= lp.percent_ppm && lp.percent_ppm <= crate::gradient::PERCENT_LIMIT
}

/// Check a gradient direction.
fn check_direction(d: &GradientDirection) -> (r: bool)
    ensures
        r == d.wf(),
{
    match d {
        GradientDirection::Angle { sin_ppm, cos_ppm } => {
            -1_000_000 <= *sin_ppm && *sin_ppm <= 1_000_000 && -1_000_000 <= *cos_ppm && *cos_ppm
                <= 1_000_000
        },
        _ => true,
    }
}

/// Check one gradient item.
fn check_item(it: &GradientItem) -> (r: bool)
    ensures
        r == it.wf(),
{
    match it {
        GradientItem::Simple(c) => check_color(c),
        GradientItem::Complex { color, position } => check_color(color) && check_lp(position),
        GradientItem::InterpolationHint => true,
    }
}

/// Check one background layer.
fn check_layer(l: &BackgroundLayer) -> (r: bool)
    ensures
        r == l.wf(),
{
    match l {
        BackgroundLayer::LinearGradient { direction, items, repeating } => {
            proof {
                assert(l->LinearGradient_direction == *direction);
                assert(l->LinearGradient_items == *items);
            }
            if !check_direction(direction) {
                return false;
            }
            if items.len() > 0x1_0000 {
                return false;
            }
            let mut k: usize = 0;
            while k < items.len()
                invariant
                    k <= items@.len(),
                    l is LinearGradient,
                    l->LinearGradient_direction == *direction,
                    l->LinearGradient_items == *items,
                    direction.wf(),
                    items@.len() <= 0x1_0000,
                    forall|j: int| 0 <= j < k ==> (#[trigger] items@[j]).wf(),
                decreases items@.len() - k,
            {
                if !check_item(&items[k]) {
                    return false;
                }
                k = k + 1;
            }
            true
        },
        BackgroundLayer::Unsupported => true,
    }
}

/// Check one shadow spec.
fn check_shadow(s: &ShadowSpec) -> (r: bool)
    ensures
        r == s.wf(),
{
    -COORD_LIMIT <= s.x_offset && s.x_offset <= COORD_LIMIT && -COORD_LIMIT <= s.y_offset
        && s.y_offset <= COORD_LIMIT && 0 <= s.blur && s.blur <= COORD_LIMIT && -COORD_LIMIT
        <= s.spread && s.spread <= COORD_LIMIT && check_color(&s.color)
}

/// Check a node's style data.
fn check_style(s: &StyleData) -> (r: bool)
    ensures
        r == s.wf(),
{
    if !check_rgba(&s.text_color) {
        return false;
    }
    if !check_color(&s.background_color) {
        return false;
    }
    if s.background_images.len() > 0x1000 {
        return false;
    }
    let mut k: usize = 0;
    while k < s.background_images.len()
        invariant
            k <= s.background_images@.len(),
            s.text_color.wf(),
            s.background_color.wf(),
            s.background_images@.len() <= 0x1000,
            forall|j: int| 0 <= j < k ==> (#[trigger] s.background_images@[j]).wf(),
        decreases s.background_images@.len() - k,
    {
        if !check_layer(&s.background_images[k]) {
            return false;
        }
        k = k + 1;
    }
    let rr = &s.border_radii;
    if !(check_lp(&rr.top_left.x) && check_lp(&rr.top_left.y) && check_lp(&rr.top_right.x)
        && check_lp(&rr.top_right.y) && check_lp(&rr.bottom_right.x) && check_lp(
        &rr.bottom_right.y,
    ) && check_lp(&rr.bottom_left.x) && check_lp(&rr.bottom_left.y)) {
        return false;
    }
    if !(check_color(&s.borders.top.color) && check_color(&s.borders.right.color) && check_color(
        &s.borders.bottom.color,
    ) && check_color(&s.borders.left.color)) {
        return false;
    }
    if s.box_shadows.len() > 0x1000 {
        return false;
    }
    let mut k2: usize = 0;
    while k2 < s.box_shadows.len()
        invariant
            k2 <= s.box_shadows@.len(),
            s.text_color.wf(),
            s.background_color.wf(),
            s.background_images@.len() <= 0x1000,
            forall|j: int|
                0 <= j < s.background_images@.len() ==> (#[trigger] s.background_images@[j]).wf(),
            s.border_radii.wf(),
            s.borders.wf(),
            s.box_shadows@.len() <= 0x1000,
            forall|j: int| 0 <= j < k2 ==> (#[trigger] s.box_shadows@[j]).wf(),
        decreases s.box_shadows@.len() - k2,
    {
        if !check_shadow(&s.box_shadows[k2]) {
            return false;
        }
        k2 = k2 + 1;
    }
    true
}

/// Check layout widths.
fn check_widths(w: &BorderWidths) -> (r: bool)
    ensures
        r == w.bounded(),
{
    -COORD_LIMIT <= w.top && w.top <= COORD_LIMIT && -COORD_LIMIT <= w.right && w.right
        <= COORD_LIMIT && -COORD_LIMIT <= w.bottom && w.bottom <= COORD_LIMIT && -COORD_LIMIT
        <= w.left && w.left <= COORD_LIMIT
}

/// Check one shaping cluster.
fn check_cluster(c: &ClusterData) -> (r: bool)
    ensures
        r == (c.wf() && c.glyphs@.len() <= 0x10_0000),
{
    if c.range_start > c.range_end {
        return false;
    }
    if c.glyphs.len() > 0x10_0000 {
        return false;
    }
    let mut k: usize = 0;
    while k < c.glyphs.len()
        invariant
            k <= c.glyphs@.len(),
            c.range_start <= c.range_end,
            c.glyphs@.len() <= 0x10_0000,
            forall|j: int| 0 <= j < k ==> (#[trigger] c.glyphs@[j]).wf(),
        decreases c.glyphs@.len() - k,
    {
        let g = &c.glyphs[k];
        if !(-COORD_LIMIT <= g.advance && g.advance <= COORD_LIMIT && -COORD_LIMIT <= g.x && g.x
            <= COORD_LIMIT && -COORD_LIMIT <= g.y && g.y <= COORD_LIMIT) {
            return false;
        }
        k = k + 1;
    }
    true
}

/// Check one glyph run.
fn check_run(run: &GlyphRunData) -> (r: bool)
    ensures
        r == run.wf(),
{
    if !(0 < run.font_size && run.font_size <= COORD_LIMIT && run.style_node < MAX_NODES
        && -COORD_LIMIT <= run.offset && run.offset <= COORD_LIMIT && -COORD_LIMIT <= run.baseline
        && run.baseline <= COORD_LIMIT && run.clusters.len() <= 0x10_0000) {
        return false;
    }
    let mut k: usize = 0;
    while k < run.clusters.len()
        invariant
            k <= run.clusters@.len(),
            0 < run.font_size <= COORD_LIMIT,
            run.style_node < MAX_NODES,
            -COORD_LIMIT <= run.offset <= COORD_LIMIT,
            -COORD_LIMIT <= run.baseline <= COORD_LIMIT,
            run.clusters@.len() <= 0x10_0000,
            forall|j: int|
                0 <= j < k ==> (#[trigger] run.clusters@[j]).wf() && run.clusters@[j].glyphs@.len()
                    <= 0x10_0000,
        decreases run.clusters@.len() - k,
    {
        if !check_cluster(&run.clusters[k]) {
            return false;
        }
        k = k + 1;
    }
    true
}

/// Check a node's text layout.
fn check_text(t: &TextLayoutData) -> (r: bool)
    ensures
        r == t.wf(),
{
    if t.lines.len() > 0x10_0000 {
        return false;
    }
    let mut i: usize = 0;
    while i < t.lines.len()
        invariant
            i <= t.lines@.len(),
            t.lines@.len() <= 0x10_0000,
            forall|a: int, b: int|
                0 <= a < i && 0 <= b < t.lines@[a].items@.len() ==> match #[trigger] t.lines@[a].items@[b] {
                    LineItemData::Run(run) => run.wf(),
                    LineItemData::InlineBox => true,
                },
            forall|a: int| 0 <= a < i ==> (#[trigger] t.lines@[a]).items@.len() <= 0x10_0000,
        decreases t.lines@.len() - i,
    {
        let line = &t.lines[i];
        if line.items.len() > 0x10_0000 {
            return false;
        }
        let mut j: usize = 0;
        while j < line.items.len()
            invariant
                j <= line.items@.len(),
                line.items@ == t.lines@[i as int].items@,
                i < t.lines@.len(),
                line.items@.len() <= 0x10_0000,
                forall|b: int|
                    0 <= b < j ==> match #[trigger] line.items@[b] {
                        LineItemData::Run(run) => run.wf(),
                        LineItemData::InlineBox => true,
                    },
            decreases line.items@.len() - j,
        {
            match &line.items[j] {
                LineItemData::Run(run) => {
                    if !check_run(run) {
                        return false;
                    }
                },
                LineItemData::InlineBox => {
                },
            }
            j = j + 1;
        }
        i = i + 1;
    }
    true
}

/// Check one node at its index.
fn check_node(node: &NodeData, i: usize, n: usize) -> (r: bool)
    ensures
        r == node.wf(i as int, n as int),
{
    if !(-COORD_LIMIT <= node.x && node.x <= COORD_LIMIT && -COORD_LIMIT <= node.y && node.y
        <= COORD_LIMIT && -COORD_LIMIT <= node.width && node.width <= COORD_LIMIT && -COORD_LIMIT
        <= node.height && node.height <= COORD_LIMIT) {
        return false;
    }
    if !check_widths(&node.border) {
        return false;
    }
    if !check_widths(&node.padding) {
        return false;
    }
    match &node.style {
        Some(s) => {
            if !check_style(s) {
                return false;
            }
        },
        None => {
        },
    }
    match &node.text_layout {
        Some(t) => {
            if !check_text(t) {
                return false;
            }
        },
        None => {
        },
    }
    let mut k: usize = 0;
    while k < node.paint_children.len()
        invariant
            k <= node.paint_children@.len(),
            -COORD_LIMIT <= node.x <= COORD_LIMIT,
            -COORD_LIMIT <= node.y <= COORD_LIMIT,
            -COORD_LIMIT <= node.width <= COORD_LIMIT,
            -COORD_LIMIT <= node.height <= COORD_LIMIT,
            node.border.bounded(),
            node.padding.bounded(),
            match node.style {
                Some(s) => s.wf(),
                None => true,
            },
            match node.text_layout {
                Some(t) => t.wf(),
                None => true,
            },
            forall|j: int|
                0 <= j < k ==> i < #[trigger] node.paint_children@[j] < n,
        decreases node.paint_children@.len() - k,
    {
        let c = node.paint_children[k];
        if !(i < c && c < n) {
            return false;
        }
        k = k + 1;
    }
    true
}

impl Document {
    /// Check that a document is well formed.
    pub fn check_wf(&self) -> (r: bool)
        ensures
            r == self.wf(),
    {
        if self.nodes.len() > MAX_NODES {
            return false;
        }
        if self.root >= self.nodes.len() {
            return false;
        }
        let n = self.nodes.len();
        let mut i: usize = 0;
        while i < n
            invariant
                i <= self.nodes@.len(),
                n == self.nodes@.len(),
                self.nodes@.len() <= MAX_NODES,
                self.root < self.nodes@.len(),
                forall|j: int|
                    0 <= j < i ==> (#[trigger] self.nodes@[j]).wf(j, self.nodes@.len() as int),
            decreases self.nodes@.len() - i,
        {
            if !check_node(&self.nodes[i], i, n) {
                return false;
            }
            i = i + 1;
        }
        true
    }
}

} // verus!
