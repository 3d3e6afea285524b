//! The drawing command list: what the paint pipeline emits and what a
//! backend replays onto a concrete vector surface.

use vstd::prelude::*;
use crate::color::Rgb;
use crate::gradient::{GradientModel, LinearGradientPaint};
use crate::path::PathEl;
use crate::text::OutGlyph;

verus! {

/// The paint of a fill: a solid color or a linear gradient.
#[derive(Debug, Clone, PartialEq)]
pub enum PaintSpec {
    Solid(Rgb),
    LinearGradient(LinearGradientPaint),
}

/// The mathematical value of a paint.
pub enum PaintModel {
    Solid(Rgb),
    LinearGradient(GradientModel),
}

impl View for PaintSpec {
    type V = PaintModel;

    open spec fn view(&self) -> PaintModel {
        match self {
            PaintSpec::Solid(c) => PaintModel::Solid(*c),
            PaintSpec::LinearGradient(g) => PaintModel::LinearGradient(g@),
        }
    }
}

/// One drawing command.
///
/// The list of commands a render emits is replayed in order onto a stateful
/// vector surface; commands between a `PushClip` and its matching `PopClip`
/// are confined to the pushed path.
#[derive(Debug, Clone, PartialEq)]
pub enum DrawCmd {
    /// Fill a path with a paint at an opacity (in millionths).
    FillPath { path: Vec<PathEl>, paint: PaintSpec, opacity_ppm: i64 },
    /// Open a clip scope bounded by a path.
    PushClip { path: Vec<PathEl> },
    /// Close the innermost open clip scope.
    PopClip,
    /// Draw one glyph run: `handle` identifies the run's font (together with
    /// its identity and face index), the pen starts at `(x, y)`, and the
    /// glyph metrics are in millionths of the font size.
    GlyphRun {
        x: i64,
        y: i64,
        handle: usize,
        font_id: u64,
        font_index: u32,
        font_size: i64,
        color: Rgb,
        text: Vec<u8>,
        glyphs: Vec<OutGlyph>,
    },
}

/// The mathematical value of a drawing command.
pub enum CmdModel {
    FillPath { path: Seq<PathEl>, paint: PaintModel, opacity_ppm: int },
    PushClip { path: Seq<PathEl> },
    PopClip,
    GlyphRun {
        x: int,
        y: int,
        handle: int,
        font_id: u64,
        font_index: u32,
        font_size: int,
        color: Rgb,
        text: Seq<u8>,
        glyphs: Seq<OutGlyph>,
    },
}

impl View for DrawCmd {
    type V = CmdModel;

    open spec fn view(&self) -> CmdModel {
        match self {
            DrawCmd::FillPath { path, paint, opacity_ppm } => CmdModel::FillPath {
                path: path@,
                paint: paint@,
                opacity_ppm: *opacity_ppm as int,
            },
            DrawCmd::PushClip { path } => CmdModel::PushClip { path: path@ },
            DrawCmd::PopClip => CmdModel::PopClip,
            DrawCmd::GlyphRun {
                x,
                y,
                handle,
                font_id,
                font_index,
                font_size,
                color,
                text,
                glyphs,
            } => CmdModel::GlyphRun {
                x: *x as int,
                y: *y as int,
                handle: *handle as int,
                font_id: *font_id,
                font_index: *font_index,
                font_size: *font_size as int,
                color: *color,
                text: text@,
                glyphs: glyphs@,
            },
        }
    }
}

/// A canvas that records drawing commands in order.
#[derive(Debug)]
pub struct Canvas {
    /// The commands recorded so far.
    pub cmds: Vec<DrawCmd>,
}

impl View for Canvas {
    type V = Seq<CmdModel>;

    open spec fn view(&self) -> Seq<CmdModel> {
        Seq::new(self.cmds@.len(), |i: int| self.cmds@[i]@)
    }
}

impl Canvas {
    /// An empty canvas.
    pub fn new() -> (c: Canvas)
        ensures
            c@ == Seq::<CmdModel>::empty(),
    {
        let c = Canvas { cmds: Vec::new() };
        proof {
            assert(c@ =~= Seq::<CmdModel>::empty());
        }
        c
    }

    /// Record one command.
    pub fn record(&mut self, cmd: DrawCmd)
        ensures
            final(self)@ == old(self)@.push(cmd@),
    {
        let ghost v = cmd@;
        self.cmds.push(cmd);
        proof {
            assert(self@ =~= old(self)@.push(v));
        }
    }
}

/// How one command changes the clip depth.
pub open spec fn clip_step(c: CmdModel) -> int {
    match c {
        CmdModel::PushClip { .. } => 1,
        CmdModel::PopClip => -1,
        _ => 0,
    }
}

/// How a command sequence changes the clip depth overall.
pub open spec fn clip_change(s: Seq<CmdModel>) -> int
    decreases s.len(),
{
    if s.len() == 0 {
        0
    } else {
        clip_step(s[0]) + clip_change(s.drop_first())
    }
}

/// Whether replaying a command sequence from clip depth `d` never closes a
/// scope that is not open.
pub open spec fn clip_runs_from(s: Seq<CmdModel>, d: int) -> bool
    decreases s.len(),
{
    if s.len() == 0 {
        true
    } else {
        match s[0] {
            CmdModel::PopClip => d > 0 && clip_runs_from(s.drop_first(), d - 1),
            _ => clip_runs_from(s.drop_first(), d + clip_step(s[0])),
        }
    }
}

/// A balanced command sequence: every pushed clip scope is popped again, and
/// no pop closes a scope the sequence did not open.
pub open spec fn clip_balanced(s: Seq<CmdModel>) -> bool {
    clip_change(s) == 0 && clip_runs_from(s, 0)
}

/// The clip-depth change of a concatenation is the sum of the parts'.
pub proof fn lemma_clip_change_concat(a: Seq<CmdModel>, b: Seq<CmdModel>)
    ensures
        clip_change(a + b) == clip_change(a) + clip_change(b),
    decreases a.len(),
{
    if a.len() == 0 {
        assert(a + b =~= b);
    } else {
        assert((a + b)[0] == a[0]);
        assert((a + b).drop_first() =~= a.drop_first() + b);
        lemma_clip_change_concat(a.drop_first(), b);
    }
}

/// A concatenation replays safely from `d` exactly when the first part does
/// and the second part replays safely from the depth the first part leaves.
pub proof fn lemma_clip_runs_concat(a: Seq<CmdModel>, b: Seq<CmdModel>, d: int)
    ensures
        clip_runs_from(a + b, d) <==> (clip_runs_from(a, d) && clip_runs_from(
            b,
            d + clip_change(a),
        )),
    decreases a.len(),
{
    if a.len() == 0 {
        assert(a + b =~= b);
    } else {
        assert((a + b)[0] == a[0]);
        assert((a + b).drop_first() =~= a.drop_first() + b);
        lemma_clip_runs_concat(a.drop_first(), b, d + clip_step(a[0]));
        lemma_clip_change_concat(a.drop_first(), b);
    }
}

/// A sequence that replays safely from some depth also replays safely from
/// any deeper one.
pub proof fn lemma_clip_runs_deeper(s: Seq<CmdModel>, d1: int, d2: int)
    requires
        clip_runs_from(s, d1),
        d1 <= d2,
    ensures
        clip_runs_from(s, d2),
    decreases s.len(),
{
    if s.len() > 0 {
        lemma_clip_runs_deeper(s.drop_first(), d1 + clip_step(s[0]), d2 + clip_step(s[0]));
    }
}

/// A balanced sequence wrapped in one clip scope is balanced again.
pub proof fn lemma_clip_wrap(p: Seq<PathEl>, s: Seq<CmdModel>)
    requires
        clip_balanced(s),
    ensures
        clip_balanced(seq![CmdModel::PushClip { path: p }] + s + seq![CmdModel::PopClip]),
{
    let open_cmd = seq![CmdModel::PushClip { path: p }];
    let close_cmd = seq![CmdModel::PopClip];
    assert(open_cmd.drop_first() =~= Seq::<CmdModel>::empty());
    assert(close_cmd.drop_first() =~= Seq::<CmdModel>::empty());
    assert(clip_change(Seq::<CmdModel>::empty()) == 0);
    assert(clip_runs_from(Seq::<CmdModel>::empty(), 1));
    assert(clip_runs_from(Seq::<CmdModel>::empty(), 0));
    assert(clip_change(open_cmd) == 1);
    assert(clip_change(close_cmd) == -1);
    assert(clip_runs_from(open_cmd, 0));
    assert(clip_runs_from(close_cmd, 1));
    lemma_clip_runs_deeper(s, 0, 1);
    lemma_clip_change_concat(open_cmd + s, close_cmd);
    lemma_clip_change_concat(open_cmd, s);
    assert((open_cmd + s + close_cmd) =~= (open_cmd + s) + close_cmd);
    lemma_clip_runs_concat(open_cmd, s, 0);
    lemma_clip_runs_concat(open_cmd + s, close_cmd, 0);
}

/// The empty sequence is balanced.
pub proof fn lemma_clip_empty()
    ensures
        clip_balanced(Seq::<CmdModel>::empty()),
        clip_change(Seq::<CmdModel>::empty()) == 0,
{
}

/// Concatenating balanced sequences yields a balanced sequence.
pub proof fn lemma_clip_concat_balanced(a: Seq<CmdModel>, b: Seq<CmdModel>)
    requires
        clip_balanced(a),
        clip_balanced(b),
    ensures
        clip_balanced(a + b),
{
    lemma_clip_change_concat(a, b);
    lemma_clip_runs_concat(a, b, 0);
}


/// A command sequence that touches no clip scope.
pub open spec fn fills_only(s: Seq<CmdModel>) -> bool {
    forall|i: int| 0 <= i < s.len() ==> !((#[trigger] s[i]) is PushClip) && !(s[i] is PopClip)
}

/// A sequence without clip commands is balanced and replays safely from any
/// depth.
pub proof fn lemma_fills_only_balanced(s: Seq<CmdModel>)
    requires
        fills_only(s),
    ensures
        clip_balanced(s),
        clip_change(s) == 0,
        forall|d: int| clip_runs_from(s, d),
    decreases s.len(),
{
    if s.len() > 0 {
        assert(fills_only(s.drop_first())) by {
            assert(forall|i: int|
                0 <= i < s.drop_first().len() ==> #[trigger] s.drop_first()[i] == s[i + 1]);
        };
        lemma_fills_only_balanced(s.drop_first());
        assert(clip_step(s[0]) == 0);
        assert forall|d: int| clip_runs_from(s, d) by {
            assert(clip_runs_from(s.drop_first(), d));
        };
    }
}

/// Concatenating clip-free sequences yields a clip-free sequence.
pub proof fn lemma_fills_only_concat(a: Seq<CmdModel>, b: Seq<CmdModel>)
    requires
        fills_only(a),
        fills_only(b),
    ensures
        fills_only(a + b),
{
    assert forall|i: int| 0 <= i < (a + b).len() implies !((#[trigger] (a + b)[i]) is PushClip)
        && !((a + b)[i] is PopClip) by {
        if i < a.len() {
            assert((a + b)[i] == a[i]);
        } else {
            assert((a + b)[i] == b[i - a.len()]);
        }
    };
}

} // verus!
