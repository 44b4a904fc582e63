//! The GPU backend's bookkeeping: render counters, the GPU texture cache,
//! the text-atlas upload state and profiling samples.
//!
//! The backend is generic over the GPU context `C` the host creates (device,
//! queue, pipelines) and the texture resource `T` kept per cached upload;
//! the library records what the host did with them and answers the
//! statistics queries.
use vstd::prelude::*;
use crate::image_cache::{
    has_key, image_bytes, longest_fitting_suffix, touched, trim_count, trimmed_bytes, CachedImage,
    GpuImageCacheState,
};
use crate::frame_route::{
    has_shader, lemma_route_follows_gpu_support, planned_route, route_reason_ok, same_route,
    FrameRoute,
};
use crate::gpu_support::{fallback_reason_text, scene_gpu_supported};
use crate::scene::SceneNode;
use crate::metrics::{
    step_applied, BackendCounters, CounterStep, FrameProfileSample, WgpuRenderStats,
    WgpuVideoTimingStats,
};
use crate::readback::AtlasRect;
use crate::text_atlas::{
    planned_upload, wrap_add, AtlasUpload, GpuAtlasVersion, GpuTextAtlasState,
};

verus! {

/// Byte budget of the GPU texture cache of a new backend (256 MiB).
pub const DEFAULT_GPU_IMAGE_CACHE_BYTES: usize = 268435456;

pub struct WgpuBackend<C, T> {
    context: C,
    counters: BackendCounters,
    gpu_images: GpuImageCacheState<T>,
    text_atlas: GpuTextAtlasState,
    text_atlas_upload_ns: u64,
    last_session_wall_ns: u64,
    profiling_enabled: bool,
    profile_samples: Vec<FrameProfileSample>,
}

/// The reason text a fallback route records.
pub open spec fn route_reason_text(route: FrameRoute) -> Seq<char> {
    match route {
        FrameRoute::CpuFallback { reason, .. } => reason@,
        FrameRoute::TextureLimitFallback { reason } => reason@,
        _ => Seq::empty(),
    }
}

impl<C, T> WgpuBackend<C, T> {
    /// The host's GPU context.
    pub closed spec fn ctx(&self) -> C {
        self.context
    }

    pub closed spec fn counters(&self) -> BackendCounters {
        self.counters
    }

    pub closed spec fn image_cache(&self) -> GpuImageCacheState<T> {
        self.gpu_images
    }

    pub closed spec fn atlas(&self) -> GpuTextAtlasState {
        self.text_atlas
    }

    pub closed spec fn atlas_upload_ns(&self) -> u64 {
        self.text_atlas_upload_ns
    }

    pub closed spec fn session_wall_ns(&self) -> u64 {
        self.last_session_wall_ns
    }

    pub closed spec fn profiling(&self) -> bool {
        self.profiling_enabled
    }

    /// Recorded profile samples, oldest first.
    pub closed spec fn samples(&self) -> Seq<FrameProfileSample> {
        self.profile_samples@
    }

    pub open spec fn wf(&self) -> bool {
        self.image_cache().wf() && self.atlas().wf()
    }

    /// A backend on `context`: every counter at zero, an empty texture
    /// cache with the default budget, no GPU text atlas, profiling off.
    pub fn with_context(context: C) -> (b: Self)
        ensures
            b.wf(),
            b.ctx() == context,
            b.counters() == BackendCounters::zeroed(),
            b.image_cache().exact(),
            b.image_cache().entries().len() == 0,
            b.image_cache().charged() == 0,
            b.image_cache().budget() == DEFAULT_GPU_IMAGE_CACHE_BYTES,
            b.atlas().version() is None,
            b.atlas().total_upload_bytes() == 0,
            b.atlas().hits() == 0,
            b.atlas().misses() == 0,
            b.atlas().full_count() == 0,
            b.atlas().dirty_count() == 0,
            b.atlas().full_bytes() == 0,
            b.atlas().dirty_bytes() == 0,
            b.atlas_upload_ns() == 0,
            b.session_wall_ns() == 0,
            !b.profiling(),
            b.samples().len() == 0,
    {
        WgpuBackend {
            context,
            counters: BackendCounters::new(),
            gpu_images: GpuImageCacheState::new(DEFAULT_GPU_IMAGE_CACHE_BYTES),
            text_atlas: GpuTextAtlasState::new(),
            text_atlas_upload_ns: 0,
            last_session_wall_ns: 0,
            profiling_enabled: false,
            profile_samples: Vec::new(),
        }
    }

    /// The host's GPU context.
    pub fn context(&self) -> (c: &C)
        ensures
            *c == self.ctx(),
    {
        &self.context
    }

    /// Frames rendered by WGPU and by the CPU fallback, and texture cache
    /// hit and miss counts.
    pub fn render_stats(&self) -> (s: WgpuRenderStats)
        ensures
            s == (WgpuRenderStats {
                gpu_frames: self.counters().gpu_frames,
                cpu_fallback_frames: self.counters().cpu_fallback_frames,
                texture_cache_hits: self.counters().texture_cache_hits,
                texture_cache_misses: self.counters().texture_cache_misses,
            }),
    {
        self.counters.render_stats()
    }

    /// The most recent reason a frame was rendered by the CPU fallback.
    pub fn last_cpu_fallback_reason(&self) -> (r: Option<String>)
        ensures
            r == self.counters().last_cpu_fallback_reason,
    {
        self.counters.last_cpu_fallback_reason()
    }

    /// A frame was rendered by the CPU fallback, for `reason`.
    pub fn record_cpu_fallback(&mut self, reason: String)
        ensures
            step_applied(old(self).counters(), CounterStep::CpuFallback, final(self).counters()),
            final(self).counters() == (BackendCounters {
                cpu_fallback_frames: wrap_add(old(self).counters().cpu_fallback_frames, 1),
                last_cpu_fallback_reason: Some(reason),
                ..old(self).counters()
            }),
            final(self).image_cache() == old(self).image_cache(),
            final(self).atlas() == old(self).atlas(),
            final(self).samples() == old(self).samples(),
            final(self).ctx() == old(self).ctx(),
    {
        self.counters.record_cpu_fallback(reason);
    }

    /// Record the CPU fallback a frame route decides on, with its reason;
    /// other routes record nothing. Returns whether a fallback was recorded.
    pub fn record_route_fallback(&mut self, route: FrameRoute) -> (recorded: bool)
        ensures
            recorded == (route is CpuFallback || route is TextureLimitFallback),
            recorded ==> step_applied(
                old(self).counters(),
                CounterStep::CpuFallback,
                final(self).counters(),
            ),
            recorded ==> (final(self).counters().last_cpu_fallback_reason matches Some(r) && r@
                == route_reason_text(route)),
            !recorded ==> final(self).counters() == old(self).counters(),
            final(self).image_cache() == old(self).image_cache(),
            final(self).atlas() == old(self).atlas(),
            final(self).samples() == old(self).samples(),
            final(self).ctx() == old(self).ctx(),
    {
        match route {
            FrameRoute::CpuFallback { reason, .. } | FrameRoute::TextureLimitFallback { reason } => {
                self.counters.record_cpu_fallback(reason.to_owned());
                true
            },
            _ => false,
        }
    }

    /// A frame was rendered by WGPU.
    pub fn record_gpu_frame(&mut self)
        ensures
            step_applied(old(self).counters(), CounterStep::GpuFrame, final(self).counters()),
            final(self).counters() == (BackendCounters {
                gpu_frames: wrap_add(old(self).counters().gpu_frames, 1),
                ..old(self).counters()
            }),
            final(self).image_cache() == old(self).image_cache(),
            final(self).atlas() == old(self).atlas(),
            final(self).samples() == old(self).samples(),
            final(self).ctx() == old(self).ctx(),
    {
        self.counters.record_gpu_frame();
    }

    /// Number of decoded textures uploaded to the GPU.
    pub fn gpu_texture_uploads(&self) -> (n: u64)
        ensures
            n == self.counters().texture_uploads,
    {
        self.counters.texture_uploads
    }

    /// Number of source bytes uploaded by the GPU texture cache.
    pub fn gpu_texture_upload_bytes(&self) -> (n: u64)
        ensures
            n == self.counters().texture_upload_bytes,
    {
        self.counters.texture_upload_bytes
    }

    /// Number of texture cache lookups that reused an uploaded texture.
    pub fn gpu_texture_cache_hits(&self) -> (n: u64)
        ensures
            n == self.counters().texture_cache_hits,
    {
        self.counters.texture_cache_hits
    }

    /// Number of texture cache lookups that needed an upload.
    pub fn gpu_texture_cache_misses(&self) -> (n: u64)
        ensures
            n == self.counters().texture_cache_misses,
    {
        self.counters.texture_cache_misses
    }

    /// Cumulative timings of the native video texture pipeline.
    pub fn video_timing_stats(&self) -> (s: WgpuVideoTimingStats)
        ensures
            s == (WgpuVideoTimingStats {
                video_decode_ns: self.counters().video_decode_ns,
                texture_upload_ns: self.counters().texture_upload_ns,
                gpu_submit_readback_ns: self.counters().gpu_submit_readback_ns,
                gpu_submit_no_readback_ns: self.counters().gpu_submit_no_readback_ns,
            }),
    {
        self.counters.video_timing_stats()
    }

    /// Video decoding took `ns` more nanoseconds.
    pub fn record_video_decode_ns(&mut self, ns: u64)
        ensures
            step_applied(old(self).counters(), CounterStep::VideoDecode { ns }, final(self).counters()),
            final(self).counters() == (BackendCounters {
                video_decode_ns: wrap_add(old(self).counters().video_decode_ns, ns),
                ..old(self).counters()
            }),
            final(self).image_cache() == old(self).image_cache(),
            final(self).atlas() == old(self).atlas(),
            final(self).samples() == old(self).samples(),
            final(self).ctx() == old(self).ctx(),
    {
        self.counters.video_decode_ns = self.counters.video_decode_ns.wrapping_add(ns);
    }

    /// A submission with CPU readback took `ns` nanoseconds to complete.
    pub fn record_submit_readback_ns(&mut self, ns: u64)
        ensures
            step_applied(
                old(self).counters(),
                CounterStep::SubmitReadback { ns },
                final(self).counters(),
            ),
            final(self).counters() == (BackendCounters {
                gpu_submit_readback_ns: wrap_add(old(self).counters().gpu_submit_readback_ns, ns),
                ..old(self).counters()
            }),
            final(self).image_cache() == old(self).image_cache(),
            final(self).atlas() == old(self).atlas(),
            final(self).samples() == old(self).samples(),
            final(self).ctx() == old(self).ctx(),
    {
        self.counters.gpu_submit_readback_ns = self.counters.gpu_submit_readback_ns.wrapping_add(
            ns,
        );
    }

    /// A submission without CPU readback took `ns` nanoseconds to complete.
    pub fn record_submit_no_readback_ns(&mut self, ns: u64)
        ensures
            step_applied(
                old(self).counters(),
                CounterStep::SubmitNoReadback { ns },
                final(self).counters(),
            ),
            final(self).counters() == (BackendCounters {
                gpu_submit_no_readback_ns: wrap_add(
                    old(self).counters().gpu_submit_no_readback_ns,
                    ns,
                ),
                ..old(self).counters()
            }),
            final(self).image_cache() == old(self).image_cache(),
            final(self).atlas() == old(self).atlas(),
            final(self).samples() == old(self).samples(),
            final(self).ctx() == old(self).ctx(),
    {
        self.counters.gpu_submit_no_readback_ns =
        self.counters.gpu_submit_no_readback_ns.wrapping_add(ns);
    }

    /// Set the GPU texture cache budget (at least one byte) and trim the
    /// cache to it.
    pub fn with_image_cache_bytes(self, max_bytes: usize) -> (b: Self)
        requires
            self.wf(),
        ensures
            b.wf(),
            b.image_cache().budget() == if max_bytes > 1 {
                max_bytes as int
            } else {
                1
            },
            b.image_cache().entries() == self.image_cache().entries().skip(
                trim_count(
                    self.image_cache().entries(),
                    self.image_cache().charged(),
                    b.image_cache().budget(),
                ) as int,
            ),
            b.image_cache().charged() == trimmed_bytes(
                self.image_cache().entries(),
                self.image_cache().charged(),
                b.image_cache().budget(),
            ),
            b.image_cache().exact() == self.image_cache().exact(),
            self.image_cache().exact() ==> longest_fitting_suffix(
                self.image_cache().entries(),
                b.image_cache().entries(),
                b.image_cache().budget(),
            ),
            b.image_cache().charged() <= b.image_cache().budget() || b.image_cache().entries().len()
                == 0,
            b.counters() == self.counters(),
            b.atlas() == self.atlas(),
            b.samples() == self.samples(),
            b.profiling() == self.profiling(),
            b.ctx() == self.ctx(),
    {
        let mut b = self;
        b.gpu_images.set_max_bytes(max_bytes);
        b
    }

    /// Look a texture up by source identity. A hit counts as a cache hit
    /// and makes the texture the most recently used one; a miss counts as a
    /// miss and leaves the cache unchanged.
    pub fn lookup_texture(&mut self, key: &String) -> (hit: bool)
        requires
            old(self).wf(),
        ensures
            step_applied(
                old(self).counters(),
                if hit {
                    CounterStep::CacheHit
                } else {
                    CounterStep::CacheMiss
                },
                final(self).counters(),
            ),
            final(self).wf(),
            hit == has_key(old(self).image_cache().entries(), key@),
            hit ==> exists|i: int|
                0 <= i < old(self).image_cache().entries().len() && old(
                    self,
                ).image_cache().entries()[i].key@ == key@ && final(self).image_cache().entries()
                    == touched(old(self).image_cache().entries(), i),
            !hit ==> final(self).image_cache().entries() == old(self).image_cache().entries(),
            final(self).image_cache().charged() == old(self).image_cache().charged(),
            final(self).image_cache().exact() == old(self).image_cache().exact(),
            final(self).counters() == if hit {
                BackendCounters {
                    texture_cache_hits: wrap_add(old(self).counters().texture_cache_hits, 1),
                    ..old(self).counters()
                }
            } else {
                BackendCounters {
                    texture_cache_misses: wrap_add(old(self).counters().texture_cache_misses, 1),
                    ..old(self).counters()
                }
            },
            final(self).atlas() == old(self).atlas(),
            final(self).samples() == old(self).samples(),
            final(self).ctx() == old(self).ctx(),
    {
        let hit = self.gpu_images.lookup(key);
        if hit {
            self.counters.texture_cache_hits = self.counters.texture_cache_hits.wrapping_add(1);
        } else {
            self.counters.texture_cache_misses = self.counters.texture_cache_misses.wrapping_add(1);
        }
        hit
    }

    /// The most recently used cached texture (after a hit, the one found).
    pub fn most_recent_texture(&self) -> (r: &T)
        requires
            self.image_cache().entries().len() > 0,
        ensures
            *r == self.image_cache().entries().last().resource,
    {
        self.gpu_images.most_recent()
    }

    /// A `width` by `height` RGBA8 texture for `key` was uploaded in
    /// `elapsed_ns`: count the upload and its bytes, then cache it (unless
    /// another upload of `key` got there first; see
    /// `GpuImageCacheState::insert`). Returns whether it was cached.
    pub fn record_texture_upload(
        &mut self,
        key: String,
        width: u32,
        height: u32,
        resource: T,
        elapsed_ns: u64,
    ) -> (inserted: bool)
        requires
            old(self).wf(),
            image_bytes(width, height) <= usize::MAX,
            image_bytes(width, height) <= u64::MAX,
        ensures
            step_applied(
                old(self).counters(),
                CounterStep::Upload { bytes: image_bytes(width, height) as u64, ns: elapsed_ns },
                final(self).counters(),
            ),
            final(self).wf(),
            inserted == !has_key(old(self).image_cache().entries(), key@),
            final(self).counters() == (BackendCounters {
                texture_uploads: wrap_add(old(self).counters().texture_uploads, 1),
                texture_upload_bytes: wrap_add(
                    old(self).counters().texture_upload_bytes,
                    image_bytes(width, height) as u64,
                ),
                texture_upload_ns: wrap_add(old(self).counters().texture_upload_ns, elapsed_ns),
                ..old(self).counters()
            }),
            final(self).image_cache().budget() == old(self).image_cache().budget(),
            inserted ==> {
                let pushed = old(self).image_cache().entries().push(
                    CachedImage { key, width, height, resource },
                );
                let charged = if old(self).image_cache().charged() + image_bytes(width, height)
                    > usize::MAX {
                    usize::MAX as int
                } else {
                    old(self).image_cache().charged() + image_bytes(width, height)
                };
                &&& final(self).image_cache().entries() == pushed.skip(
                    trim_count(pushed, charged, old(self).image_cache().budget()) as int,
                )
                &&& final(self).image_cache().charged() == trimmed_bytes(
                    pushed,
                    charged,
                    old(self).image_cache().budget(),
                )
                &&& final(self).image_cache().exact() ==> longest_fitting_suffix(
                    pushed,
                    final(self).image_cache().entries(),
                    old(self).image_cache().budget(),
                )
            },
            final(self).image_cache().exact() == (old(self).image_cache().exact() && (inserted
                ==> old(self).image_cache().charged() + image_bytes(width, height) <= usize::MAX)),
            !inserted ==> final(self).image_cache().charged() == old(self).image_cache().charged(),
            final(self).image_cache().charged() <= final(self).image_cache().budget()
                || final(self).image_cache().entries().len() == 0,
            !inserted ==> exists|i: int|
                0 <= i < old(self).image_cache().entries().len() && old(
                    self,
                ).image_cache().entries()[i].key@ == key@ && final(self).image_cache().entries()
                    == touched(old(self).image_cache().entries(), i),
            final(self).atlas() == old(self).atlas(),
            final(self).samples() == old(self).samples(),
            final(self).ctx() == old(self).ctx(),
    {
        self.counters.record_texture_upload(width, height, elapsed_ns);
        self.gpu_images.insert(key, width, height, resource)
    }

    /// Number of cached GPU textures.
    pub fn gpu_image_cache_len(&self) -> (n: usize)
        ensures
            n == self.image_cache().entries().len(),
    {
        self.gpu_images.len()
    }

    /// Decide the text-atlas upload for a snapshot of the CPU atlas and
    /// account for it (see `GpuTextAtlasState::prepare`).
    pub fn prepare_text_atlas(
        &mut self,
        width: u32,
        height: u32,
        generation: u64,
        dirty: Option<AtlasRect>,
    ) -> (upload: AtlasUpload)
        requires
            old(self).wf(),
        ensures
            final(self).wf(),
            upload == planned_upload(old(self).atlas().version(), width, height, generation, dirty),
            final(self).atlas().version() == Some(GpuAtlasVersion { width, height, generation }),
            final(self).atlas().hits() == (if upload is Reuse {
                wrap_add(old(self).atlas().hits(), 1)
            } else {
                old(self).atlas().hits()
            }),
            final(self).atlas().misses() == (if upload is Full {
                wrap_add(old(self).atlas().misses(), 1)
            } else {
                old(self).atlas().misses()
            }),
            final(self).atlas().full_count() == (if upload is Full {
                wrap_add(old(self).atlas().full_count(), 1)
            } else {
                old(self).atlas().full_count()
            }),
            final(self).atlas().dirty_count() == (if upload is Dirty {
                wrap_add(old(self).atlas().dirty_count(), 1)
            } else {
                old(self).atlas().dirty_count()
            }),
            final(self).atlas().full_bytes() == (if upload is Full {
                wrap_add(old(self).atlas().full_bytes(), (width as int * height as int) as u64)
            } else {
                old(self).atlas().full_bytes()
            }),
            final(self).atlas().dirty_bytes() == (match upload {
                AtlasUpload::Dirty(rect) => wrap_add(
                    old(self).atlas().dirty_bytes(),
                    (rect.width as int * rect.height as int) as u64,
                ),
                _ => old(self).atlas().dirty_bytes(),
            }),
            final(self).atlas().total_upload_bytes() == wrap_add(
                final(self).atlas().full_bytes(),
                final(self).atlas().dirty_bytes(),
            ),
            final(self).counters() == old(self).counters(),
            final(self).image_cache() == old(self).image_cache(),
            final(self).samples() == old(self).samples(),
            final(self).ctx() == old(self).ctx(),
    {
        self.text_atlas.prepare(width, height, generation, dirty)
    }

    /// Glyph uploads to the text atlas took `ns` more nanoseconds.
    pub fn record_text_atlas_upload_ns(&mut self, ns: u64)
        ensures
            final(self).atlas_upload_ns() == wrap_add(old(self).atlas_upload_ns(), ns),
            final(self).counters() == old(self).counters(),
            final(self).image_cache() == old(self).image_cache(),
            final(self).atlas() == old(self).atlas(),
            final(self).samples() == old(self).samples(),
            final(self).ctx() == old(self).ctx(),
    {
        self.text_atlas_upload_ns = self.text_atlas_upload_ns.wrapping_add(ns);
    }

    /// Number of R8 atlas bytes uploaded since backend creation.
    pub fn text_atlas_upload_bytes(&self) -> (n: u64)
        ensures
            n == self.atlas().total_upload_bytes(),
    {
        self.text_atlas.text_atlas_upload_bytes()
    }

    /// Cumulative nanoseconds spent uploading glyphs to the GPU text atlas.
    pub fn text_atlas_upload_ns(&self) -> (n: u64)
        ensures
            n == self.atlas_upload_ns(),
    {
        self.text_atlas_upload_ns
    }

    /// Number of atlas snapshots reused without an upload.
    pub fn text_atlas_cache_hits(&self) -> (n: u64)
        ensures
            n == self.atlas().hits(),
    {
        self.text_atlas.text_atlas_cache_hits()
    }

    /// Number of GPU text atlas allocations.
    pub fn text_atlas_cache_misses(&self) -> (n: u64)
        ensures
            n == self.atlas().misses(),
    {
        self.text_atlas.text_atlas_cache_misses()
    }

    /// Number of full atlas uploads.
    pub fn text_atlas_full_uploads(&self) -> (n: u64)
        ensures
            n == self.atlas().full_count(),
    {
        self.text_atlas.text_atlas_full_uploads()
    }

    /// Number of dirty-rectangle atlas uploads.
    pub fn text_atlas_dirty_uploads(&self) -> (n: u64)
        ensures
            n == self.atlas().dirty_count(),
    {
        self.text_atlas.text_atlas_dirty_uploads()
    }

    /// Bytes sent by full atlas uploads.
    pub fn text_atlas_full_upload_bytes(&self) -> (n: u64)
        ensures
            n == self.atlas().full_bytes(),
    {
        self.text_atlas.text_atlas_full_upload_bytes()
    }

    /// Bytes sent by dirty-rectangle atlas uploads.
    pub fn text_atlas_dirty_upload_bytes(&self) -> (n: u64)
        ensures
            n == self.atlas().dirty_bytes(),
    {
        self.text_atlas.text_atlas_dirty_upload_bytes()
    }

    /// The generation of the atlas snapshot the GPU copy holds, if any.
    pub fn text_atlas_cache_generation(&self) -> (g: Option<u64>)
        ensures
            g == match self.atlas().version() {
                Some(v) => Some(v.generation),
                None => None,
            },
    {
        self.text_atlas.text_atlas_cache_generation()
    }

    /// Wall-clock nanoseconds of the most recent render session.
    pub fn last_session_wall_ns(&self) -> (n: u64)
        ensures
            n == self.session_wall_ns(),
    {
        self.last_session_wall_ns
    }

    /// Record the wall-clock duration of the session that just ended.
    pub fn record_session_wall_ns(&mut self, ns: u64)
        ensures
            final(self).session_wall_ns() == ns,
            final(self).counters() == old(self).counters(),
            final(self).image_cache() == old(self).image_cache(),
            final(self).atlas() == old(self).atlas(),
            final(self).samples() == old(self).samples(),
            final(self).profiling() == old(self).profiling(),
            final(self).ctx() == old(self).ctx(),
    {
        self.last_session_wall_ns = ns;
    }

    /// Enable or disable per-stage profiling.
    pub fn with_profiling(self, enabled: bool) -> (b: Self)
        ensures
            b.profiling() == enabled,
            b.counters() == self.counters(),
            b.image_cache() == self.image_cache(),
            b.atlas() == self.atlas(),
            b.samples() == self.samples(),
            b.session_wall_ns() == self.session_wall_ns(),
            b.ctx() == self.ctx(),
    {
        let mut b = self;
        b.profiling_enabled = enabled;
        b
    }

    /// Whether per-stage profiling is enabled.
    pub fn is_profiling_enabled(&self) -> (r: bool)
        ensures
            r == self.profiling(),
    {
        self.profiling_enabled
    }

    /// Record one frame's profile sample.
    pub fn record_profile_sample(&mut self, sample: FrameProfileSample)
        ensures
            final(self).samples() == old(self).samples().push(sample),
            final(self).counters() == old(self).counters(),
            final(self).image_cache() == old(self).image_cache(),
            final(self).atlas() == old(self).atlas(),
            final(self).profiling() == old(self).profiling(),
            final(self).session_wall_ns() == old(self).session_wall_ns(),
            final(self).ctx() == old(self).ctx(),
    {
        self.profile_samples.push(sample);
    }

    /// Every recorded profile sample, oldest first.
    pub fn profile_samples(&self) -> (samples: Vec<FrameProfileSample>)
        ensures
            samples@ == self.samples(),
    {
        let mut out: Vec<FrameProfileSample> = Vec::new();
        let mut i: usize = 0;
        while i < self.profile_samples.len()
            invariant
                i <= self.profile_samples@.len(),
                out@ == self.profile_samples@.take(i as int),
            decreases self.profile_samples@.len() - i,
        {
            let sample = self.profile_samples[i];
            out.push(sample);
            assert(self.profile_samples@.take(i + 1) =~= self.profile_samples@.take(
                i as int,
            ).push(sample));
            i = i + 1;
        }
        assert(self.profile_samples@.take(i as int) =~= self.profile_samples@);
        out
    }

    /// Drop every recorded profile sample and the session duration.
    pub fn reset_profiling(&mut self)
        ensures
            final(self).samples().len() == 0,
            final(self).session_wall_ns() == 0,
            final(self).counters() == old(self).counters(),
            final(self).image_cache() == old(self).image_cache(),
            final(self).atlas() == old(self).atlas(),
            final(self).profiling() == old(self).profiling(),
            final(self).ctx() == old(self).ctx(),
    {
        self.profile_samples.clear();
        self.last_session_wall_ns = 0;
    }
}

/// A frame the GPU path does not support falls back to the CPU renderer:
/// when a shader-free frame within the texture limit is rejected by the
/// compiler, its planned route (as `plan_frame` gives it) is the CPU
/// fallback for the whole scene, and recording that route
/// (`WgpuBackend::record_route_fallback`) counts one more fallback frame,
/// no GPU frame, and keeps the scene's fallback diagnostic as the latest
/// reason.
pub proof fn lemma_unsupported_frame_falls_back(
    nodes: Seq<SceneNode>,
    within: Seq<bool>,
    width: u32,
    height: u32,
    max_dimension: u32,
    route: FrameRoute,
    before: BackendCounters,
    after: BackendCounters,
)
    requires
        !has_shader(nodes),
        width <= max_dimension,
        height <= max_dimension,
        !scene_gpu_supported(nodes),
        nodes.len() <= usize::MAX,
        same_route(route, planned_route(nodes, within, width, height, max_dimension)),
        route_reason_ok(route, nodes),
        step_applied(before, CounterStep::CpuFallback, after),
        after.last_cpu_fallback_reason matches Some(r) && r@ == route_reason_text(route),
    ensures
        route matches FrameRoute::CpuFallback { base_len, .. } && base_len == nodes.len(),
        after.cpu_fallback_frames == wrap_add(before.cpu_fallback_frames, 1),
        after.gpu_frames == before.gpu_frames,
        after.last_cpu_fallback_reason matches Some(r) && r@ == fallback_reason_text(nodes),
{
    lemma_route_follows_gpu_support(nodes, within, width, height, max_dimension);
    crate::frame_route::lemma_fallback_covers_the_scene(nodes, within);
    assert(nodes.take(nodes.len() as int) =~= nodes);
}

} // verus!
