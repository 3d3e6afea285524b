//! Shaped text: glyph runs, cluster structure, glyph normalization and the
//! per-render font cache.

use vstd::prelude::*;
use crate::geom::{div_trunc, spec_div_trunc, COORD_LIMIT, MAX_NODES};

verus! {

/// One shaped glyph, in thousandths of a pixel at the run's font size.
#[derive(Debug, Clone, Copy, PartialEq, Eq, Structural)]
pub struct GlyphData {
    /// The glyph identifier inside its font.
    pub id: u32,
    /// Horizontal advance.
    pub advance: i64,
    /// Horizontal offset from the pen position.
    pub x: i64,
    /// Vertical offset from the baseline.
    pub y: i64,
}

impl GlyphData {
    pub open spec fn wf(self) -> bool {
        &&& -COORD_LIMIT <= self.advance <= COORD_LIMIT
        &&& -COORD_LIMIT <= self.x <= COORD_LIMIT
        &&& -COORD_LIMIT <= self.y <= COORD_LIMIT
    }
}

/// One shaping cluster: a group of glyphs covering a byte range of the text.
/// A ligature continuation carries no glyphs of its own and only extends the
/// range of the glyph before it.
#[derive(Debug, Clone)]
pub struct ClusterData {
    /// Whether this cluster continues a ligature begun by an earlier one.
    pub ligature_continuation: bool,
    /// Start of the covered byte range in the layout text.
    pub range_start: usize,
    /// End of the covered byte range in the layout text.
    pub range_end: usize,
    /// The glyphs of this cluster.
    pub glyphs: Vec<GlyphData>,
}

impl ClusterData {
    pub open spec fn wf(self) -> bool {
        &&& self.range_start <= self.range_end
        &&& forall|i: int| 0 <= i < self.glyphs@.len() ==> (#[trigger] self.glyphs@[i]).wf()
    }
}

/// One positioned glyph run of a shaped line.
#[derive(Debug, Clone)]
pub struct GlyphRunData {
    /// Identity of the underlying font data; two runs over the same font
    /// blob carry the same identifier.
    pub font_id: u64,
    /// The face index inside the font data.
    pub font_index: u32,
    /// Font size in thousandths of a pixel; positive.
    pub font_size: i64,
    /// The document node whose style colors this run's text.
    pub style_node: usize,
    /// Horizontal offset of the run inside its line.
    pub offset: i64,
    /// Baseline offset of the run inside its line.
    pub baseline: i64,
    /// The run's shaping clusters, in visual order.
    pub clusters: Vec<ClusterData>,
}

impl GlyphRunData {
    pub open spec fn wf(self) -> bool {
        &&& 0 < self.font_size <= COORD_LIMIT
        &&& self.style_node < MAX_NODES
        &&& -COORD_LIMIT <= self.offset <= COORD_LIMIT
        &&& -COORD_LIMIT <= self.baseline <= COORD_LIMIT
        &&& self.clusters@.len() <= 0x10_0000
        &&& forall|i: int|
            0 <= i < self.clusters@.len() ==> (#[trigger] self.clusters@[i]).wf()
                && self.clusters@[i].glyphs@.len() <= 0x10_0000
    }
}

/// One item of a shaped line: a glyph run, or space reserved for a box laid
/// out elsewhere (painted through the node tree, not here).
#[derive(Debug, Clone)]
pub enum LineItemData {
    Run(GlyphRunData),
    InlineBox,
}

/// One shaped line.
#[derive(Debug, Clone)]
pub struct LineData {
    pub items: Vec<LineItemData>,
}

/// A node's shaped inline text: the underlying text (as UTF-8 bytes) and
/// its shaped lines.
#[derive(Debug, Clone)]
pub struct TextLayoutData {
    pub text: Vec<u8>,
    pub lines: Vec<LineData>,
}

impl TextLayoutData {
    pub open spec fn wf(self) -> bool {
        &&& self.lines@.len() <= 0x10_0000
        &&& forall|i: int, j: int|
            0 <= i < self.lines@.len() && 0 <= j < self.lines@[i].items@.len() ==> match #[trigger] self.lines@[i].items@[j] {
                LineItemData::Run(run) => run.wf(),
                LineItemData::InlineBox => true,
            }
        &&& forall|i: int|
            0 <= i < self.lines@.len() ==> (#[trigger] self.lines@[i]).items@.len() <= 0x10_0000
    }
}

/// One glyph as it is drawn: metrics normalized by the font size (in
/// millionths of an em), with the byte range of the text it covers.
#[derive(Debug, Clone, Copy, PartialEq, Eq, Structural)]
pub struct OutGlyph {
    pub id: u32,
    /// Advance in millionths of the font size.
    pub advance_ppm: i64,
    /// Horizontal offset in millionths of the font size.
    pub x_ppm: i64,
    /// Vertical offset in millionths of the font size.
    pub y_ppm: i64,
    pub range_start: usize,
    pub range_end: usize,
}

/// A length normalized by the font size, in millionths of an em.
pub open spec fn spec_norm(v: int, size: int) -> int {
    spec_div_trunc(v * 1_000_000, size)
}

/// The drawn glyphs of one cluster.
pub open spec fn spec_cluster_glyphs(c: ClusterData, size: int) -> Seq<OutGlyph> {
    Seq::new(
        c.glyphs@.len(),
        |i: int|
            OutGlyph {
                id: c.glyphs@[i].id,
                advance_ppm: spec_norm(c.glyphs@[i].advance as int, size) as i64,
                x_ppm: spec_norm(c.glyphs@[i].x as int, size) as i64,
                y_ppm: spec_norm(c.glyphs@[i].y as int, size) as i64,
                range_start: c.range_start,
                range_end: c.range_end,
            },
    )
}

/// The drawn glyphs of a cluster sequence: every cluster contributes its
/// glyphs, except that a ligature continuation contributes none and instead
/// extends the byte range of the last glyph emitted so far.
pub open spec fn spec_run_glyphs(clusters: Seq<ClusterData>, size: int) -> Seq<OutGlyph>
    decreases clusters.len(),
{
    if clusters.len() == 0 {
        Seq::<OutGlyph>::empty()
    } else {
        let prev = spec_run_glyphs(clusters.drop_last(), size);
        let c = clusters.last();
        if c.ligature_continuation {
            if prev.len() > 0 {
                let g = prev.last();
                prev.update(prev.len() - 1, OutGlyph { range_end: c.range_end, ..g })
            } else {
                prev
            }
        } else {
            prev + spec_cluster_glyphs(c, size)
        }
    }
}

/// Build the drawn glyph list of a run from its clusters.
pub fn build_run_glyphs(clusters: &Vec<ClusterData>, size: i64) -> (glyphs: Vec<OutGlyph>)
    requires
        0 < size <= COORD_LIMIT,
        forall|i: int| 0 <= i < clusters@.len() ==> (#[trigger] clusters@[i]).wf(),
    ensures
        glyphs@ == spec_run_glyphs(clusters@, size as int),
{
    let mut glyphs: Vec<OutGlyph> = Vec::new();
    let mut i: usize = 0;
    proof {
        assert(clusters@.take(0) =~= Seq::<ClusterData>::empty());
    }
    while i < clusters.len()
        invariant
            i <= clusters@.len(),
            0 < size <= COORD_LIMIT,
            forall|k: int|
                0 <= k < clusters@.len() ==> (#[trigger] clusters@[k]).wf(),
            glyphs@ == spec_run_glyphs(clusters@.take(i as int), size as int),
        decreases clusters@.len() - i,
    {
        proof {
            assert(clusters@.take(i + 1).drop_last() =~= clusters@.take(i as int));
            assert(clusters@.take(i + 1).last() == clusters@[i as int]);
        }
        let c = &clusters[i];
        if c.ligature_continuation {
            if glyphs.len() > 0 {
                let last: usize = glyphs.len() - 1;
                let mut g = glyphs[last];
                g.range_end = c.range_end;
                glyphs.set(last, g);
                proof {
                    assert(glyphs@ =~= spec_run_glyphs(clusters@.take(i + 1), size as int));
                }
            }
        } else {
            let ghost pre = glyphs@;
            let mut j: usize = 0;
            while j < c.glyphs.len()
                invariant
                    j <= c.glyphs@.len(),
                    0 < size <= COORD_LIMIT,
                    c.wf(),
                    glyphs@ == pre + spec_cluster_glyphs(*c, size as int).take(j as int),
                decreases c.glyphs@.len() - j,
            {
                let gd = c.glyphs[j];
                let out = OutGlyph {
                    id: gd.id,
                    advance_ppm: div_trunc(gd.advance * 1_000_000, size),
                    x_ppm: div_trunc(gd.x * 1_000_000, size),
                    y_ppm: div_trunc(gd.y * 1_000_000, size),
                    range_start: c.range_start,
                    range_end: c.range_end,
                };
                glyphs.push(out);
                proof {
                    assert(spec_cluster_glyphs(*c, size as int)[j as int] == out);
                    assert(glyphs@ =~= pre + spec_cluster_glyphs(*c, size as int).take(j + 1));
                }
                j = j + 1;
            }
            proof {
                assert(spec_cluster_glyphs(*c, size as int).take(c.glyphs@.len() as int)
                    =~= spec_cluster_glyphs(*c, size as int));
            }
        }
        i = i + 1;
    }
    proof {
        assert(clusters@.take(clusters@.len() as int) =~= clusters@);
    }
    glyphs
}

/// The first position of a font identity in the cache, or the cache length
/// when it is absent.
pub open spec fn spec_font_handle(cache: Seq<u64>, id: u64) -> int
    decreases cache.len(),
{
    if cache.len() == 0 {
        0
    } else if cache[0] == id {
        0
    } else {
        1 + spec_font_handle(cache.drop_first(), id)
    }
}

/// The cache after resolving a font identity: unchanged when known, with the
/// identity appended when not.
pub open spec fn spec_cache_after(cache: Seq<u64>, id: u64) -> Seq<u64> {
    if cache.contains(id) {
        cache
    } else {
        cache.push(id)
    }
}

/// The handle of a known identity points at it; the handle of an unknown one
/// is the cache length.
pub proof fn lemma_font_handle_bounds(cache: Seq<u64>, id: u64)
    ensures
        cache.contains(id) ==> 0 <= spec_font_handle(cache, id) < cache.len() && cache[
            spec_font_handle(cache, id)
        ] == id,
        !cache.contains(id) ==> spec_font_handle(cache, id) == cache.len(),
    decreases cache.len(),
{
    if cache.len() > 0 && cache[0] != id {
        lemma_font_handle_bounds(cache.drop_first(), id);
        assert(cache.contains(id) ==> cache.drop_first().contains(id)) by {
            if cache.contains(id) {
                let w = choose|w: int| 0 <= w < cache.len() && cache[w] == id;
                assert(cache.drop_first()[w - 1] == id);
            }
        };
        assert(forall|k: int|
            0 <= k < cache.drop_first().len() ==> #[trigger] cache.drop_first()[k] == cache[k + 1]);
    }
}

/// Font cache reuse: the same font identity always resolves to the same
/// handle within one render. Resolving an identity a second time, after any
/// first resolution, changes nothing and returns the same handle.
pub proof fn lemma_font_cache_reuse(cache: Seq<u64>, id: u64)
    ensures
        spec_cache_after(spec_cache_after(cache, id), id) == spec_cache_after(cache, id),
        spec_font_handle(spec_cache_after(cache, id), id) == spec_font_handle(cache, id),
{
    let after = spec_cache_after(cache, id);
    assert(after.contains(id)) by {
        if !cache.contains(id) {
            assert(after == cache.push(id));
            assert(after[cache.len() as int] == id);
        }
    };
    if !cache.contains(id) {
        lemma_font_handle_push(cache, id);
        lemma_font_handle_bounds(cache, id);
    }
}

/// Appending an unknown identity puts its handle at the old length.
proof fn lemma_font_handle_push(cache: Seq<u64>, id: u64)
    requires
        !cache.contains(id),
    ensures
        spec_font_handle(cache.push(id), id) == cache.len(),
    decreases cache.len(),
{
    let p = cache.push(id);
    if cache.len() == 0 {
        assert(p[0] == id);
    } else {
        assert(cache[0] != id) by {
            assert(cache.contains(id) ==> exists|w: int| 0 <= w < cache.len() && cache[w] == id);
            if cache[0] == id {
                assert(cache[0] == id && 0 < cache.len());
            }
        };
        assert(p[0] == cache[0]);
        assert(!cache.drop_first().contains(id)) by {
            if cache.drop_first().contains(id) {
                let w = choose|w: int|
                    0 <= w < cache.drop_first().len() && cache.drop_first()[w] == id;
                assert(cache[w + 1] == id);
            }
        };
        assert(p.drop_first() =~= cache.drop_first().push(id));
        lemma_font_handle_push(cache.drop_first(), id);
    }
}

/// A cache of font handles keyed by font-data identity, scoped to one
/// render: each distinct font blob is resolved to one handle, reused by
/// every glyph run referencing that blob.
#[derive(Debug, Clone)]
pub struct FontCache {
    /// The font identities seen so far; a handle is an index into this list.
    pub ids: Vec<u64>,
}

impl View for FontCache {
    type V = Seq<u64>;

    open spec fn view(&self) -> Seq<u64> {
        self.ids@
    }
}

impl FontCache {
    /// An empty cache for a fresh render.
    pub fn new() -> (c: FontCache)
        ensures
            c@ == Seq::<u64>::empty(),
    {
        let c = FontCache { ids: Vec::new() };
        proof {
            assert(c@ =~= Seq::<u64>::empty());
        }
        c
    }

    /// Resolve a font identity to its handle, registering it on first sight.
    pub fn resolve(&mut self, id: u64) -> (h: usize)
        ensures
            final(self)@ == spec_cache_after(old(self)@, id),
            h as int == spec_font_handle(old(self)@, id),
            h < final(self)@.len(),
            final(self)@[h as int] == id,
    {
        let ghost orig = self.ids@;
        let mut i: usize = 0;
        while i < self.ids.len()
            invariant
                i <= self.ids@.len(),
                self.ids@ == orig,
                forall|k: int| 0 <= k < i ==> self.ids@[k] != id,
            decreases self.ids@.len() - i,
        {
            if self.ids[i] == id {
                proof {
                    assert(orig.contains(id));
                    lemma_font_handle_prefix(orig, id, i as int);
                }
                return i;
            }
            i = i + 1;
        }
        proof {
            assert(!orig.contains(id)) by {
                if orig.contains(id) {
                    let w = choose|w: int| 0 <= w < orig.len() && orig[w] == id;
                    assert(orig[w] != id);
                }
            };
            lemma_font_handle_bounds(orig, id);
        }
        let h = self.ids.len();
        self.ids.push(id);
        h
    }
}

/// A match at `i` with no earlier match puts the handle at `i`.
proof fn lemma_font_handle_prefix(cache: Seq<u64>, id: u64, i: int)
    requires
        0 <= i < cache.len(),
        cache[i] == id,
        forall|k: int| 0 <= k < i ==> cache[k] != id,
    ensures
        spec_font_handle(cache, id) == i,
    decreases i,
{
    if i > 0 {
        assert(forall|k: int|
            0 <= k < cache.drop_first().len() ==> #[trigger] cache.drop_first()[k] == cache[k + 1]);
        lemma_font_handle_prefix(cache.drop_first(), id, i - 1);
    }
}

} // verus!
