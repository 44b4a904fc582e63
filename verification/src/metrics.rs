//! Render statistics and per-frame profiling samples.
//!
//! The backend keeps monotonic counters (frames rendered on the GPU and on
//! the CPU fallback, texture cache traffic, cumulative timings). They wrap at
//! 2^64 like the atomics that hold them at run time. Profiling records one
//! sample per frame; a session summary starts by splitting the samples into
//! per-stage columns.
use vstd::prelude::*;
use crate::text_atlas::wrap_add;

verus! {

/// Frames rendered by the GPU path and by the CPU fallback, and texture
/// cache traffic.
#[derive(Clone, Copy, Debug, PartialEq, Eq, Structural, Default)]
pub struct WgpuRenderStats {
    pub gpu_frames: u64,
    pub cpu_fallback_frames: u64,
    pub texture_cache_hits: u64,
    pub texture_cache_misses: u64,
}

/// Cumulative nanoseconds of the native video texture path.
#[derive(Clone, Copy, Debug, PartialEq, Eq, Structural, Default)]
pub struct WgpuVideoTimingStats {
    pub video_decode_ns: u64,
    pub texture_upload_ns: u64,
    pub gpu_submit_readback_ns: u64,
    pub gpu_submit_no_readback_ns: u64,
}

/// Elapsed time and data volume of every pipeline stage for one frame.
#[derive(Clone, Copy, Debug, PartialEq, Eq, Structural, Default)]
pub struct FrameProfileSample {
    pub frame_idx: u32,
    pub scene_eval_ns: u64,
    pub decode_ns: u64,
    pub upload_ns: u64,
    pub upload_bytes: u64,
    pub compile_encode_ns: u64,
    pub submission_wait_ns: u64,
    pub gpu_exec_ns: Option<u64>,
    pub readback_ns: u64,
    pub readback_bytes: u64,
    pub video_encode_ns: u64,
    pub total_frame_ns: u64,
    pub cpu_fallback: bool,
}

/// The backend's monotonic counters.
pub struct BackendCounters {
    pub gpu_frames: u64,
    pub cpu_fallback_frames: u64,
    pub texture_cache_hits: u64,
    pub texture_cache_misses: u64,
    pub texture_uploads: u64,
    pub texture_upload_bytes: u64,
    pub video_decode_ns: u64,
    pub texture_upload_ns: u64,
    pub gpu_submit_readback_ns: u64,
    pub gpu_submit_no_readback_ns: u64,
    pub last_cpu_fallback_reason: Option<String>,
}

impl BackendCounters {
    /// Every counter at zero and no fallback recorded.
    pub open spec fn zeroed() -> BackendCounters {
        BackendCounters {
            gpu_frames: 0,
            cpu_fallback_frames: 0,
            texture_cache_hits: 0,
            texture_cache_misses: 0,
            texture_uploads: 0,
            texture_upload_bytes: 0,
            video_decode_ns: 0,
            texture_upload_ns: 0,
            gpu_submit_readback_ns: 0,
            gpu_submit_no_readback_ns: 0,
            last_cpu_fallback_reason: None,
        }
    }

    /// Every counter at zero and no fallback recorded.
    pub fn new() -> (c: Self)
        ensures
            c.gpu_frames == 0,
            c.cpu_fallback_frames == 0,
            c.texture_cache_hits == 0,
            c.texture_cache_misses == 0,
            c.texture_uploads == 0,
            c.texture_upload_bytes == 0,
            c.video_decode_ns == 0,
            c.texture_upload_ns == 0,
            c.gpu_submit_readback_ns == 0,
            c.gpu_submit_no_readback_ns == 0,
            c.last_cpu_fallback_reason is None,
    {
        BackendCounters {
            gpu_frames: 0,
            cpu_fallback_frames: 0,
            texture_cache_hits: 0,
            texture_cache_misses: 0,
            texture_uploads: 0,
            texture_upload_bytes: 0,
            video_decode_ns: 0,
            texture_upload_ns: 0,
            gpu_submit_readback_ns: 0,
            gpu_submit_no_readback_ns: 0,
            last_cpu_fallback_reason: None,
        }
    }

    /// A frame was rendered by the GPU path.
    pub fn record_gpu_frame(&mut self)
        ensures
            *final(self) == (BackendCounters {
                gpu_frames: wrap_add(old(self).gpu_frames, 1),
                ..*old(self)
            }),
    {
        self.gpu_frames = self.gpu_frames.wrapping_add(1);
    }

    /// A frame was rendered by the CPU fallback, for `reason`.
    pub fn record_cpu_fallback(&mut self, reason: String)
        ensures
            *final(self) == (BackendCounters {
                cpu_fallback_frames: wrap_add(old(self).cpu_fallback_frames, 1),
                last_cpu_fallback_reason: Some(reason),
                ..*old(self)
            }),
    {
        self.cpu_fallback_frames = self.cpu_fallback_frames.wrapping_add(1);
        self.last_cpu_fallback_reason = Some(reason);
    }

    /// A texture cache lookup reused an uploaded texture.
    pub fn record_texture_cache_hit(&mut self)
        ensures
            *final(self) == (BackendCounters {
                texture_cache_hits: wrap_add(old(self).texture_cache_hits, 1),
                ..*old(self)
            }),
    {
        self.texture_cache_hits = self.texture_cache_hits.wrapping_add(1);
    }

    /// A texture cache lookup missed.
    pub fn record_texture_cache_miss(&mut self)
        ensures
            *final(self) == (BackendCounters {
                texture_cache_misses: wrap_add(old(self).texture_cache_misses, 1),
                ..*old(self)
            }),
    {
        self.texture_cache_misses = self.texture_cache_misses.wrapping_add(1);
    }

    /// A `width` by `height` RGBA8 texture was uploaded in `elapsed_ns`.
    pub fn record_texture_upload(&mut self, width: u32, height: u32, elapsed_ns: u64)
        requires
            width as int * height as int * 4 <= u64::MAX,
        ensures
            *final(self) == (BackendCounters {
                texture_uploads: wrap_add(old(self).texture_uploads, 1),
                texture_upload_bytes: wrap_add(
                    old(self).texture_upload_bytes,
                    (width as int * height as int * 4) as u64,
                ),
                texture_upload_ns: wrap_add(old(self).texture_upload_ns, elapsed_ns),
                ..*old(self)
            }),
    {
        proof {
            assert(width as int * height as int <= width as int * height as int * 4)
                by (nonlinear_arith);
        }
        let bytes: u64 = width as u64 * height as u64 * 4;
        self.texture_upload_ns = self.texture_upload_ns.wrapping_add(elapsed_ns);
        self.texture_uploads = self.texture_uploads.wrapping_add(1);
        self.texture_upload_bytes = self.texture_upload_bytes.wrapping_add(bytes);
    }

    /// Frames rendered by the GPU and by the CPU fallback, and texture cache
    /// hit and miss counts.
    pub fn render_stats(&self) -> (s: WgpuRenderStats)
        ensures
            s == (WgpuRenderStats {
                gpu_frames: self.gpu_frames,
                cpu_fallback_frames: self.cpu_fallback_frames,
                texture_cache_hits: self.texture_cache_hits,
                texture_cache_misses: self.texture_cache_misses,
            }),
    {
        WgpuRenderStats {
            gpu_frames: self.gpu_frames,
            cpu_fallback_frames: self.cpu_fallback_frames,
            texture_cache_hits: self.texture_cache_hits,
            texture_cache_misses: self.texture_cache_misses,
        }
    }

    /// Cumulative timings of the native video texture pipeline.
    pub fn video_timing_stats(&self) -> (s: WgpuVideoTimingStats)
        ensures
            s == (WgpuVideoTimingStats {
                video_decode_ns: self.video_decode_ns,
                texture_upload_ns: self.texture_upload_ns,
                gpu_submit_readback_ns: self.gpu_submit_readback_ns,
                gpu_submit_no_readback_ns: self.gpu_submit_no_readback_ns,
            }),
    {
        WgpuVideoTimingStats {
            video_decode_ns: self.video_decode_ns,
            texture_upload_ns: self.texture_upload_ns,
            gpu_submit_readback_ns: self.gpu_submit_readback_ns,
            gpu_submit_no_readback_ns: self.gpu_submit_no_readback_ns,
        }
    }

    /// The most recent reason a frame was rendered by the CPU fallback.
    pub fn last_cpu_fallback_reason(&self) -> (r: Option<String>)
        ensures
            r == self.last_cpu_fallback_reason,
    {
        match &self.last_cpu_fallback_reason {
            Some(reason) => Some(reason.clone()),
            None => None,
        }
    }
}

/// One change the backend makes to its counters.
pub enum CounterStep {
    /// A frame was rendered by the GPU.
    GpuFrame,
    /// A frame was rendered by the CPU fallback (and its reason recorded).
    CpuFallback,
    /// A texture cache lookup hit.
    CacheHit,
    /// A texture cache lookup missed.
    CacheMiss,
    /// A texture of `bytes` bytes was uploaded in `ns` nanoseconds.
    Upload { bytes: u64, ns: u64 },
    /// Video decoding took `ns` nanoseconds.
    VideoDecode { ns: u64 },
    /// A submission with readback took `ns` nanoseconds.
    SubmitReadback { ns: u64 },
    /// A submission without readback took `ns` nanoseconds.
    SubmitNoReadback { ns: u64 },
}

/// `b` is `a` after `step` (counters wrap at 2^64).
pub open spec fn step_applied(a: BackendCounters, step: CounterStep, b: BackendCounters) -> bool {
    match step {
        CounterStep::GpuFrame => b == BackendCounters { gpu_frames: wrap_add(a.gpu_frames, 1), ..a },
        CounterStep::CpuFallback => b == BackendCounters {
            cpu_fallback_frames: wrap_add(a.cpu_fallback_frames, 1),
            last_cpu_fallback_reason: b.last_cpu_fallback_reason,
            ..a
        },
        CounterStep::CacheHit => b == BackendCounters {
            texture_cache_hits: wrap_add(a.texture_cache_hits, 1),
            ..a
        },
        CounterStep::CacheMiss => b == BackendCounters {
            texture_cache_misses: wrap_add(a.texture_cache_misses, 1),
            ..a
        },
        CounterStep::Upload { bytes, ns } => b == BackendCounters {
            texture_uploads: wrap_add(a.texture_uploads, 1),
            texture_upload_bytes: wrap_add(a.texture_upload_bytes, bytes),
            texture_upload_ns: wrap_add(a.texture_upload_ns, ns),
            ..a
        },
        CounterStep::VideoDecode { ns } => b == BackendCounters {
            video_decode_ns: wrap_add(a.video_decode_ns, ns),
            ..a
        },
        CounterStep::SubmitReadback { ns } => b == BackendCounters {
            gpu_submit_readback_ns: wrap_add(a.gpu_submit_readback_ns, ns),
            ..a
        },
        CounterStep::SubmitNoReadback { ns } => b == BackendCounters {
            gpu_submit_no_readback_ns: wrap_add(a.gpu_submit_no_readback_ns, ns),
            ..a
        },
    }
}

/// `step` does not wrap any counter of `a` around.
pub open spec fn step_fits(a: BackendCounters, step: CounterStep) -> bool {
    match step {
        CounterStep::GpuFrame => a.gpu_frames < u64::MAX,
        CounterStep::CpuFallback => a.cpu_fallback_frames < u64::MAX,
        CounterStep::CacheHit => a.texture_cache_hits < u64::MAX,
        CounterStep::CacheMiss => a.texture_cache_misses < u64::MAX,
        CounterStep::Upload { bytes, ns } => a.texture_uploads < u64::MAX && a.texture_upload_bytes
            + bytes <= u64::MAX && a.texture_upload_ns + ns <= u64::MAX,
        CounterStep::VideoDecode { ns } => a.video_decode_ns + ns <= u64::MAX,
        CounterStep::SubmitReadback { ns } => a.gpu_submit_readback_ns + ns <= u64::MAX,
        CounterStep::SubmitNoReadback { ns } => a.gpu_submit_no_readback_ns + ns <= u64::MAX,
    }
}

/// Every counter of `b` is at least the one of `a`.
pub open spec fn counters_not_below(a: BackendCounters, b: BackendCounters) -> bool {
    &&& a.gpu_frames <= b.gpu_frames
    &&& a.cpu_fallback_frames <= b.cpu_fallback_frames
    &&& a.texture_cache_hits <= b.texture_cache_hits
    &&& a.texture_cache_misses <= b.texture_cache_misses
    &&& a.texture_uploads <= b.texture_uploads
    &&& a.texture_upload_bytes <= b.texture_upload_bytes
    &&& a.video_decode_ns <= b.video_decode_ns
    &&& a.texture_upload_ns <= b.texture_upload_ns
    &&& a.gpu_submit_readback_ns <= b.gpu_submit_readback_ns
    &&& a.gpu_submit_no_readback_ns <= b.gpu_submit_no_readback_ns
}

/// Counters never decrease, barring wrap-around: over any history of
/// counter steps none of which wraps a counter, every later reading of the
/// render statistics and timings is at least every earlier one.
pub proof fn lemma_counters_never_decrease(
    history: Seq<BackendCounters>,
    steps: Seq<CounterStep>,
    i: int,
    j: int,
)
    requires
        history.len() == steps.len() + 1,
        forall|k: int|
            0 <= k < steps.len() ==> step_applied(history[k], #[trigger] steps[k], history[k + 1])
                && step_fits(history[k], steps[k]),
        0 <= i <= j < history.len(),
    ensures
        counters_not_below(history[i], history[j]),
    decreases j - i,
{
    if i < j {
        lemma_counters_never_decrease(history, steps, i, j - 1);
        let k = j - 1;
        assert(step_applied(history[k], steps[k], history[k + 1]) && step_fits(history[k], steps[k]));
    }
}

// ---------------------------------------------------------------------------
// Profiling columns
// ---------------------------------------------------------------------------

/// Per-stage columns of a sequence of profile samples, and frame counts.
pub struct StageSamples {
    pub total_frames: u32,
    pub gpu_frames: u32,
    pub cpu_fallback_frames: u32,
    pub scene_eval_ns: Vec<u64>,
    pub decode_ns: Vec<u64>,
    pub upload_ns: Vec<u64>,
    pub upload_bytes: Vec<u64>,
    pub compile_encode_ns: Vec<u64>,
    pub submission_wait_ns: Vec<u64>,
    pub gpu_exec_ns: Vec<u64>,
    pub readback_ns: Vec<u64>,
    pub readback_bytes: Vec<u64>,
    pub video_encode_ns: Vec<u64>,
    pub total_frame_ns: Vec<u64>,
}

/// Number of samples with and without the CPU fallback flag.
pub open spec fn count_fallback(samples: Seq<FrameProfileSample>, fallback: bool) -> nat
    decreases samples.len(),
{
    if samples.len() == 0 {
        0
    } else {
        count_fallback(samples.drop_last(), fallback) + if samples.last().cpu_fallback
            == fallback {
            1nat
        } else {
            0nat
        }
    }
}

/// The measured GPU execution times, in sample order, of the samples that
/// have one.
pub open spec fn gpu_exec_column(samples: Seq<FrameProfileSample>) -> Seq<u64>
    decreases samples.len(),
{
    if samples.len() == 0 {
        Seq::empty()
    } else {
        let rest = gpu_exec_column(samples.drop_last());
        match samples.last().gpu_exec_ns {
            Some(ns) => rest.push(ns),
            None => rest,
        }
    }
}

/// Every sample is counted exactly once, as a GPU frame or as a CPU
/// fallback frame.
pub proof fn lemma_fallback_counts_partition(samples: Seq<FrameProfileSample>)
    ensures
        count_fallback(samples, false) + count_fallback(samples, true) == samples.len(),
    decreases samples.len(),
{
    if samples.len() > 0 {
        lemma_fallback_counts_partition(samples.drop_last());
    }
}

pub open spec fn saturate_u32(n: nat) -> u32 {
    if n > u32::MAX {
        u32::MAX
    } else {
        n as u32
    }
}

/// Split profile samples into per-stage columns (in sample order), count
/// all frames (the sample count cast to `u32`, which keeps it modulo 2^32), and count
/// GPU and fallback frames (saturating at `u32::MAX`).
pub fn collect_stage_samples(samples: &[FrameProfileSample]) -> (s: StageSamples)
    ensures
        s.total_frames == samples@.len() as u32,
        s.gpu_frames == saturate_u32(count_fallback(samples@, false)),
        s.cpu_fallback_frames == saturate_u32(count_fallback(samples@, true)),
        s.scene_eval_ns@ == samples@.map_values(|x: FrameProfileSample| x.scene_eval_ns),
        s.decode_ns@ == samples@.map_values(|x: FrameProfileSample| x.decode_ns),
        s.upload_ns@ == samples@.map_values(|x: FrameProfileSample| x.upload_ns),
        s.upload_bytes@ == samples@.map_values(|x: FrameProfileSample| x.upload_bytes),
        s.compile_encode_ns@ == samples@.map_values(|x: FrameProfileSample| x.compile_encode_ns),
        s.submission_wait_ns@ == samples@.map_values(
            |x: FrameProfileSample| x.submission_wait_ns,
        ),
        s.gpu_exec_ns@ == gpu_exec_column(samples@),
        s.readback_ns@ == samples@.map_values(|x: FrameProfileSample| x.readback_ns),
        s.readback_bytes@ == samples@.map_values(|x: FrameProfileSample| x.readback_bytes),
        s.video_encode_ns@ == samples@.map_values(|x: FrameProfileSample| x.video_encode_ns),
        s.total_frame_ns@ == samples@.map_values(|x: FrameProfileSample| x.total_frame_ns),
{
    let mut s = StageSamples {
        total_frames: samples.len() as u32,
        gpu_frames: 0,
        cpu_fallback_frames: 0,
        scene_eval_ns: Vec::new(),
        decode_ns: Vec::new(),
        upload_ns: Vec::new(),
        upload_bytes: Vec::new(),
        compile_encode_ns: Vec::new(),
        submission_wait_ns: Vec::new(),
        gpu_exec_ns: Vec::new(),
        readback_ns: Vec::new(),
        readback_bytes: Vec::new(),
        video_encode_ns: Vec::new(),
        total_frame_ns: Vec::new(),
    };
    let mut i: usize = 0;
    while i < samples.len()
        invariant
            i <= samples@.len(),
            s.total_frames == samples@.len() as u32,
            s.gpu_frames == saturate_u32(count_fallback(samples@.take(i as int), false)),
            s.cpu_fallback_frames == saturate_u32(count_fallback(samples@.take(i as int), true)),
            s.scene_eval_ns@ == samples@.take(i as int).map_values(
                |x: FrameProfileSample| x.scene_eval_ns,
            ),
            s.decode_ns@ == samples@.take(i as int).map_values(|x: FrameProfileSample| x.decode_ns),
            s.upload_ns@ == samples@.take(i as int).map_values(|x: FrameProfileSample| x.upload_ns),
            s.upload_bytes@ == samples@.take(i as int).map_values(
                |x: FrameProfileSample| x.upload_bytes,
            ),
            s.compile_encode_ns@ == samples@.take(i as int).map_values(
                |x: FrameProfileSample| x.compile_encode_ns,
            ),
            s.submission_wait_ns@ == samples@.take(i as int).map_values(
                |x: FrameProfileSample| x.submission_wait_ns,
            ),
            s.gpu_exec_ns@ == gpu_exec_column(samples@.take(i as int)),
            s.readback_ns@ == samples@.take(i as int).map_values(
                |x: FrameProfileSample| x.readback_ns,
            ),
            s.readback_bytes@ == samples@.take(i as int).map_values(
                |x: FrameProfileSample| x.readback_bytes,
            ),
            s.video_encode_ns@ == samples@.take(i as int).map_values(
                |x: FrameProfileSample| x.video_encode_ns,
            ),
            s.total_frame_ns@ == samples@.take(i as int).map_values(
                |x: FrameProfileSample| x.total_frame_ns,
            ),
        decreases samples@.len() - i,
    {
        let sample = samples[i];
        let ghost prefix = samples@.take(i as int);
        let ghost next = samples@.take(i + 1);
        assert(next.drop_last() =~= prefix);
        assert(next.last() == sample);
        if sample.cpu_fallback {
            s.cpu_fallback_frames = s.cpu_fallback_frames.saturating_add(1);
        } else {
            s.gpu_frames = s.gpu_frames.saturating_add(1);
        }
        s.scene_eval_ns.push(sample.scene_eval_ns);
        s.decode_ns.push(sample.decode_ns);
        s.upload_ns.push(sample.upload_ns);
        s.upload_bytes.push(sample.upload_bytes);
        s.compile_encode_ns.push(sample.compile_encode_ns);
        s.submission_wait_ns.push(sample.submission_wait_ns);
        match sample.gpu_exec_ns {
            Some(exec) => s.gpu_exec_ns.push(exec),
            None => {},
        }
        s.readback_ns.push(sample.readback_ns);
        s.readback_bytes.push(sample.readback_bytes);
        s.video_encode_ns.push(sample.video_encode_ns);
        s.total_frame_ns.push(sample.total_frame_ns);
        proof {
            assert(s.scene_eval_ns@ =~= next.map_values(|x: FrameProfileSample| x.scene_eval_ns));
            assert(s.decode_ns@ =~= next.map_values(|x: FrameProfileSample| x.decode_ns));
            assert(s.upload_ns@ =~= next.map_values(|x: FrameProfileSample| x.upload_ns));
            assert(s.upload_bytes@ =~= next.map_values(|x: FrameProfileSample| x.upload_bytes));
            assert(s.compile_encode_ns@ =~= next.map_values(
                |x: FrameProfileSample| x.compile_encode_ns,
            ));
            assert(s.submission_wait_ns@ =~= next.map_values(
                |x: FrameProfileSample| x.submission_wait_ns,
            ));
            assert(s.readback_ns@ =~= next.map_values(|x: FrameProfileSample| x.readback_ns));
            assert(s.readback_bytes@ =~= next.map_values(|x: FrameProfileSample| x.readback_bytes));
            assert(s.video_encode_ns@ =~= next.map_values(
                |x: FrameProfileSample| x.video_encode_ns,
            ));
            assert(s.total_frame_ns@ =~= next.map_values(|x: FrameProfileSample| x.total_frame_ns));
        }
        i = i + 1;
    }
    assert(samples@.take(samples@.len() as int) =~= samples@);
    s
}

pub open spec fn seq_sum(values: Seq<u64>) -> int
    decreases values.len(),
{
    if values.len() == 0 {
        0
    } else {
        seq_sum(values.drop_last()) + values.last()
    }
}

/// Total bytes moved by a stage, or `None` when the total does not fit in
/// a `u64`.
pub fn stage_total_bytes(bytes: &[u64]) -> (total: Option<u64>)
    ensures
        total is Some <==> seq_sum(bytes@) <= u64::MAX,
        total matches Some(t) ==> t == seq_sum(bytes@),
{
    let mut total: u64 = 0;
    let mut i: usize = 0;
    while i < bytes.len()
        invariant
            i <= bytes@.len(),
            total == seq_sum(bytes@.take(i as int)),
        decreases bytes@.len() - i,
    {
        proof {
            assert(bytes@.take(i + 1).drop_last() =~= bytes@.take(i as int));
            lemma_prefix_sum_bounded(bytes@, i + 1);
        }
        match total.checked_add(bytes[i]) {
            Some(next) => {
                total = next;
            },
            None => {
                return None;
            },
        }
        i = i + 1;
    }
    assert(bytes@.take(i as int) =~= bytes@);
    Some(total)
}

proof fn lemma_prefix_sum_bounded(values: Seq<u64>, n: int)
    requires
        0 <= n <= values.len(),
    ensures
        seq_sum(values.take(n)) <= seq_sum(values),
    decreases values.len() - n,
{
    if n < values.len() {
        lemma_prefix_sum_bounded(values, n + 1);
        assert(values.take(n + 1).drop_last() =~= values.take(n));
    } else {
        assert(values.take(n) =~= values);
    }
}

/// `a - b`, or 0 when `b > a` (`u64::saturating_sub`).
pub open spec fn sat_sub(a: u64, b: u64) -> u64 {
    if a >= b {
        (a - b) as u64
    } else {
        0
    }
}

/// `a + b`, or `u64::MAX` when it overflows (`u64::saturating_add`).
pub open spec fn sat_add(a: u64, b: u64) -> u64 {
    if a + b <= u64::MAX {
        (a + b) as u64
    } else {
        u64::MAX
    }
}

/// A reading of the cumulative counters that a frame's stages advance.
#[derive(Clone, Copy, Debug, PartialEq, Eq, Structural)]
pub struct StageCounters {
    pub video_decode_ns: u64,
    pub texture_upload_ns: u64,
    pub text_atlas_upload_ns: u64,
    pub texture_upload_bytes: u64,
    pub text_atlas_upload_bytes: u64,
}

/// The decode, upload and compile/encode shares of one GPU frame.
#[derive(Clone, Copy, Debug, PartialEq, Eq, Structural)]
pub struct FrameStageTimings {
    pub decode_ns: u64,
    pub upload_ns: u64,
    pub upload_bytes: u64,
    pub compile_encode_ns: u64,
}

/// The two uploads of a counter reading, summed.
pub open spec fn upload_ns_total(c: StageCounters) -> int {
    c.texture_upload_ns + c.text_atlas_upload_ns
}

pub open spec fn upload_bytes_total(c: StageCounters) -> int {
    c.texture_upload_bytes + c.text_atlas_upload_bytes
}

pub open spec fn counters_summable(c: StageCounters) -> bool {
    upload_ns_total(c) <= u64::MAX && upload_bytes_total(c) <= u64::MAX
}

/// Split a GPU frame's time between its stages from counter readings taken
/// before and after encoding. Decoding is the video decode the counters saw
/// plus `asset_decode_ns` (images, text and animation frames decoded while
/// compiling); uploads are texture plus text-atlas uploads; compile/encode
/// is the encode interval `encode_total_ns` minus uploads and asset
/// decoding. Differences saturate at zero and sums at `u64::MAX`, so a
/// reading that went backwards never underflows.
pub fn attribute_frame_stages(
    before: StageCounters,
    after: StageCounters,
    asset_decode_ns: u64,
    encode_total_ns: u64,
) -> (t: FrameStageTimings)
    requires
        counters_summable(before),
        counters_summable(after),
    ensures
        t.decode_ns == sat_add(sat_sub(after.video_decode_ns, before.video_decode_ns), asset_decode_ns),
        t.upload_ns == sat_sub(upload_ns_total(after) as u64, upload_ns_total(before) as u64),
        t.upload_bytes == sat_sub(
            upload_bytes_total(after) as u64,
            upload_bytes_total(before) as u64,
        ),
        t.compile_encode_ns == sat_sub(sat_sub(encode_total_ns, t.upload_ns), asset_decode_ns),
{
    let upload_before: u64 = before.texture_upload_ns + before.text_atlas_upload_ns;
    let upload_after: u64 = after.texture_upload_ns + after.text_atlas_upload_ns;
    let bytes_before: u64 = before.texture_upload_bytes + before.text_atlas_upload_bytes;
    let bytes_after: u64 = after.texture_upload_bytes + after.text_atlas_upload_bytes;
    let decode_ns = after.video_decode_ns.saturating_sub(before.video_decode_ns).saturating_add(
        asset_decode_ns,
    );
    let upload_ns = upload_after.saturating_sub(upload_before);
    let upload_bytes = bytes_after.saturating_sub(bytes_before);
    let compile_encode_ns = encode_total_ns.saturating_sub(upload_ns).saturating_sub(
        asset_decode_ns,
    );
    FrameStageTimings { decode_ns, upload_ns, upload_bytes, compile_encode_ns }
}

} // verus!
