//! Grouping of compiled draw commands into render-pass draw calls.
//!
//! Every command owns one instance in the frame's instance buffer, at the
//! command's own index. Consecutive analytic commands (rectangles, circles,
//! gradients) that share a blend state are issued as one instanced draw;
//! meshes, textured quads and text are issued one draw per command because
//! each binds its own buffers or texture. Draws are issued in command order,
//! which is the scene's painter's order.
use vstd::prelude::*;

verus! {

/// What kind of draw a compiled command needs.
#[derive(Clone, Copy, Debug, PartialEq, Eq, Structural)]
pub enum DrawKind {
    /// Analytic shapes and gradients evaluated in the fragment shader.
    Analytic,
    /// A tessellated path mesh.
    Mesh,
    /// A textured quad: image, video, Lottie, GIF, emoji or visualizer frame.
    Texture,
    /// Glyphs sampled from the text atlas.
    Text,
}

/// The fixed-function blend state a draw uses.
#[derive(Clone, Copy, Debug, PartialEq, Eq, Structural)]
pub enum BlendPipeline {
    Normal,
    Multiply,
    Screen,
    Darken,
    Lighten,
}

/// The part of a compiled command that decides how it is drawn.
#[derive(Clone, Copy, Debug, PartialEq, Eq, Structural)]
pub struct DrawCommandSummary {
    pub kind: DrawKind,
    /// The blend code packed into the command's instance (0 normal,
    /// 1 multiply, 2 screen, 3 darken, 4 lighten).
    pub blend: u32,
}

/// One draw call: instances `start..end` drawn with one pipeline.
#[derive(Clone, Copy, Debug, PartialEq, Eq, Structural)]
pub struct DrawBatch {
    pub kind: DrawKind,
    pub pipeline: BlendPipeline,
    pub start: usize,
    pub end: usize,
}

pub open spec fn blend_pipeline_of(code: u32) -> BlendPipeline {
    if code == 1 {
        BlendPipeline::Multiply
    } else if code == 2 {
        BlendPipeline::Screen
    } else if code == 3 {
        BlendPipeline::Darken
    } else if code == 4 {
        BlendPipeline::Lighten
    } else {
        BlendPipeline::Normal
    }
}

/// The blend pipeline selected by an instance's blend code; unknown codes
/// draw normally.
pub fn blend_pipeline(code: u32) -> (p: BlendPipeline)
    ensures
        p == blend_pipeline_of(code),
{
    if code == 1 {
        BlendPipeline::Multiply
    } else if code == 2 {
        BlendPipeline::Screen
    } else if code == 3 {
        BlendPipeline::Darken
    } else if code == 4 {
        BlendPipeline::Lighten
    } else {
        BlendPipeline::Normal
    }
}

/// Whether command `j` continues an analytic run that started at `start`.
pub open spec fn continues_run(cmds: Seq<DrawCommandSummary>, start: int, j: int) -> bool {
    cmds[j].kind == DrawKind::Analytic && cmds[j].blend == cmds[start].blend
}

/// End of the analytic run that started at `start`, scanning from `j`.
pub open spec fn run_end(cmds: Seq<DrawCommandSummary>, start: int, j: int) -> int
    decreases cmds.len() - j,
{
    if j < cmds.len() && continues_run(cmds, start, j) {
        run_end(cmds, start, j + 1)
    } else {
        j
    }
}

/// End (exclusive) of the draw that begins at command `start`.
pub open spec fn batch_end(cmds: Seq<DrawCommandSummary>, start: int) -> int {
    if cmds[start].kind == DrawKind::Analytic {
        run_end(cmds, start, start + 1)
    } else {
        start + 1
    }
}

pub open spec fn batch_at(cmds: Seq<DrawCommandSummary>, start: int) -> DrawBatch {
    DrawBatch {
        kind: cmds[start].kind,
        pipeline: blend_pipeline_of(cmds[start].blend),
        start: start as usize,
        end: batch_end(cmds, start) as usize,
    }
}

pub proof fn lemma_run_end_bounds(cmds: Seq<DrawCommandSummary>, start: int, j: int)
    requires
        0 <= start < j <= cmds.len(),
    ensures
        j <= run_end(cmds, start, j) <= cmds.len(),
        forall|k: int| j <= k < run_end(cmds, start, j) ==> #[trigger] continues_run(cmds, start, k),
        run_end(cmds, start, j) < cmds.len() ==> !continues_run(
            cmds,
            start,
            run_end(cmds, start, j),
        ),
    decreases cmds.len() - j,
{
    if j < cmds.len() && continues_run(cmds, start, j) {
        lemma_run_end_bounds(cmds, start, j + 1);
    }
}

/// The draws for commands `start..`, in order.
pub open spec fn planned_batches(cmds: Seq<DrawCommandSummary>, start: int) -> Seq<DrawBatch>
    decreases cmds.len() - start,
{
    if start < 0 || start >= cmds.len() {
        Seq::empty()
    } else {
        let end = batch_end(cmds, start);
        if end <= start || end > cmds.len() {
            Seq::empty()
        } else {
            seq![batch_at(cmds, start)] + planned_batches(cmds, end)
        }
    }
}

/// Plan the draw calls of a frame's commands.
pub fn plan_draw_batches(commands: &[DrawCommandSummary]) -> (batches: Vec<DrawBatch>)
    ensures
        batches@ == planned_batches(commands@, 0),
{
    let n = commands.len();
    let mut batches: Vec<DrawBatch> = Vec::new();
    let mut i: usize = 0;
    while i < n
        invariant
            n == commands@.len(),
            i <= n,
            planned_batches(commands@, 0) == batches@ + planned_batches(commands@, i as int),
        decreases n - i,
    {
        let start = i;
        let kind = commands[start].kind;
        let end: usize;
        if kind == DrawKind::Analytic {
            let mut j: usize = start + 1;
            while j < n && commands[j].kind == DrawKind::Analytic && commands[j].blend
                == commands[start].blend
                invariant
                    n == commands@.len(),
                    start < j <= n,
                    run_end(commands@, start as int, start + 1) == run_end(
                        commands@,
                        start as int,
                        j as int,
                    ),
                decreases n - j,
            {
                j = j + 1;
            }
            end = j;
        } else {
            end = start + 1;
        }
        assert(end as int == batch_end(commands@, start as int));
        let batch = DrawBatch {
            kind,
            pipeline: blend_pipeline(commands[start].blend),
            start,
            end,
        };
        batches.push(batch);
        assert(planned_batches(commands@, start as int) == seq![batch] + planned_batches(
            commands@,
            end as int,
        ));
        assert(batches@ + planned_batches(commands@, end as int) =~= (batches@.drop_last() + seq![
            batch,
        ]) + planned_batches(commands@, end as int));
        i = end;
    }
    assert(planned_batches(commands@, n as int) =~= Seq::<DrawBatch>::empty());
    assert(batches@ + Seq::<DrawBatch>::empty() =~= batches@);
    batches
}

pub proof fn lemma_batch_end_bounds(cmds: Seq<DrawCommandSummary>, start: int)
    requires
        0 <= start < cmds.len(),
    ensures
        start < batch_end(cmds, start) <= cmds.len(),
        forall|j: int|
            start <= j < batch_end(cmds, start) ==> #[trigger] cmds[j].blend == cmds[start].blend,
        batch_end(cmds, start) - start > 1 ==> forall|j: int|
            start <= j < batch_end(cmds, start) ==> #[trigger] continues_run(cmds, start, j),
        cmds[start].kind == DrawKind::Analytic && batch_end(cmds, start) < cmds.len()
            ==> !continues_run(cmds, start, batch_end(cmds, start)),
{
    if cmds[start].kind == DrawKind::Analytic {
        lemma_run_end_bounds(cmds, start, start + 1);
        assert forall|j: int| start <= j < batch_end(cmds, start) implies #[trigger] cmds[j].blend
            == cmds[start].blend by {
            if j > start {
                assert(continues_run(cmds, start, j));
            }
        }
        assert forall|j: int| start <= j < batch_end(cmds, start) implies #[trigger] continues_run(
            cmds,
            start,
            j,
        ) by {
            if j > start {
                assert(continues_run(cmds, start, j));
            }
        }
    }
}

/// Draw order and coverage: the planned draws cover every command exactly
/// once, in command order, with no empty draw.
pub proof fn lemma_planned_batches_cover_in_order(cmds: Seq<DrawCommandSummary>, start: int)
    requires
        0 <= start <= cmds.len() <= usize::MAX,
    ensures
        ({
            let b = planned_batches(cmds, start);
            &&& start < cmds.len() ==> b.len() > 0 && b[0].start == start && b.last().end
                == cmds.len()
            &&& start == cmds.len() ==> b.len() == 0
            &&& forall|k: int| 0 <= k < b.len() - 1 ==> #[trigger] b[k].end == b[k + 1].start
            &&& forall|k: int|
                0 <= k < b.len() ==> start <= (#[trigger] b[k]).start < b[k].end <= cmds.len()
        }),
    decreases cmds.len() - start,
{
    if start < cmds.len() {
        let end = batch_end(cmds, start);
        lemma_batch_end_bounds(cmds, start);
        lemma_planned_batches_cover_in_order(cmds, end);
        let rest = planned_batches(cmds, end);
        let b = planned_batches(cmds, start);
        assert(b == seq![batch_at(cmds, start)] + rest);
        assert forall|k: int| 0 <= k < b.len() - 1 implies #[trigger] b[k].end == b[k + 1].start by {
            if k > 0 {
                assert(b[k] == rest[k - 1]);
            }
            assert(b[k + 1] == rest[k]);
        }
        assert forall|k: int| 0 <= k < b.len() implies start <= (#[trigger] b[k]).start < b[k].end
            <= cmds.len() by {
            if k > 0 {
                assert(b[k] == rest[k - 1]);
            }
        }
        if rest.len() > 0 {
            assert(b.last() == rest.last());
        }
    }
}

/// What each draw holds: one kind, one blend code and the pipeline of that
/// code; a draw of several instances is an analytic run, and an analytic
/// run is never cut while the next command could have joined it.
pub proof fn lemma_planned_batches_homogeneous(cmds: Seq<DrawCommandSummary>, start: int)
    requires
        0 <= start <= cmds.len() <= usize::MAX,
    ensures
        ({
            let b = planned_batches(cmds, start);
            &&& forall|k: int|
                0 <= k < b.len() ==> (#[trigger] b[k]).kind == cmds[b[k].start as int].kind
                    && b[k].pipeline == blend_pipeline_of(cmds[b[k].start as int].blend)
            &&& forall|k: int, j: int|
                0 <= k < b.len() && b[k].start <= j < b[k].end ==> #[trigger] cmds[j].blend
                    == (#[trigger] b[k]).blend_code_of(cmds)
            &&& forall|k: int, j: int|
                0 <= k < b.len() && b[k].start <= j < b[k].end && b[k].end - b[k].start > 1
                    ==> #[trigger] continues_run(cmds, (#[trigger] b[k]).start as int, j)
            &&& forall|k: int|
                0 <= k < b.len() && (#[trigger] b[k]).kind == DrawKind::Analytic && b[k].end
                    < cmds.len() ==> !continues_run(cmds, b[k].start as int, b[k].end as int)
        }),
    decreases cmds.len() - start,
{
    if start < cmds.len() {
        let end = batch_end(cmds, start);
        lemma_batch_end_bounds(cmds, start);
        lemma_planned_batches_homogeneous(cmds, end);
        let rest = planned_batches(cmds, end);
        let b = planned_batches(cmds, start);
        assert(b == seq![batch_at(cmds, start)] + rest);
        assert forall|k: int| 0 <= k < b.len() implies (#[trigger] b[k]).kind == cmds[b[k].start as int].kind
            && b[k].pipeline == blend_pipeline_of(cmds[b[k].start as int].blend) by {
            if k > 0 {
                assert(b[k] == rest[k - 1]);
            }
        }
        assert forall|k: int, j: int|
            0 <= k < b.len() && b[k].start <= j < b[k].end implies #[trigger] cmds[j].blend
                == (#[trigger] b[k]).blend_code_of(cmds) by {
            if k > 0 {
                assert(b[k] == rest[k - 1]);
            }
        }
        assert forall|k: int, j: int|
            0 <= k < b.len() && b[k].start <= j < b[k].end && b[k].end - b[k].start > 1
                implies #[trigger] continues_run(cmds, (#[trigger] b[k]).start as int, j) by {
            if k > 0 {
                assert(b[k] == rest[k - 1]);
            }
        }
        assert forall|k: int|
            0 <= k < b.len() && (#[trigger] b[k]).kind == DrawKind::Analytic && b[k].end
                < cmds.len() implies !continues_run(cmds, b[k].start as int, b[k].end as int) by {
            if k > 0 {
                assert(b[k] == rest[k - 1]);
            }
        }
    }
}

impl DrawBatch {
    /// The blend code of the command that opens this draw.
    pub open spec fn blend_code_of(self, cmds: Seq<DrawCommandSummary>) -> u32 {
        cmds[self.start as int].blend
    }
}

} // verus!
