//! Keeping the GPU copy of the glyph atlas current.
//!
//! The CPU text rasterizer owns an R8 atlas and bumps its generation whenever
//! glyphs are added, remembering the rectangle that changed. Before a frame
//! is drawn the GPU copy is brought up to date with the cheapest upload: none
//! when the generation matches, the dirty rectangle when the size matches and
//! one is known, and the whole atlas otherwise.
use vstd::prelude::*;
use crate::readback::AtlasRect;

verus! {

/// What the GPU copy of the atlas currently holds.
#[derive(Clone, Copy, Debug, PartialEq, Eq, Structural)]
pub struct GpuAtlasVersion {
    pub width: u32,
    pub height: u32,
    pub generation: u64,
}

/// The upload that brings the GPU copy to a snapshot.
#[derive(Clone, Copy, Debug, PartialEq, Eq, Structural)]
pub enum AtlasUpload {
    /// The GPU copy is current.
    Reuse,
    /// Upload the dirty rectangle into the existing texture.
    Dirty(AtlasRect),
    /// Create a texture of the snapshot's size and upload every texel.
    Full,
}

pub open spec fn planned_upload(
    cached: Option<GpuAtlasVersion>,
    width: u32,
    height: u32,
    generation: u64,
    dirty: Option<AtlasRect>,
) -> AtlasUpload {
    match cached {
        Some(v) => if v.width == width && v.height == height {
            if v.generation == generation {
                AtlasUpload::Reuse
            } else {
                match dirty {
                    Some(rect) => AtlasUpload::Dirty(rect),
                    None => AtlasUpload::Full,
                }
            }
        } else {
            AtlasUpload::Full
        },
        None => AtlasUpload::Full,
    }
}

/// Upload counters, all monotonic and wrapping like the atomics they mirror.
pub struct TextAtlasCounters {
    upload_bytes: u64,
    cache_hits: u64,
    cache_misses: u64,
    full_uploads: u64,
    dirty_uploads: u64,
    full_upload_bytes: u64,
    dirty_upload_bytes: u64,
}

/// The GPU atlas version together with its upload counters.
pub struct GpuTextAtlasState {
    cached: Option<GpuAtlasVersion>,
    counters: TextAtlasCounters,
}

/// `a + b` wrapping at 2^64, as `u64::wrapping_add` computes it.
pub open spec fn wrap_add(a: u64, b: u64) -> u64 {
    if a + b > u64::MAX {
        (a + b - 0x1_0000_0000_0000_0000) as u64
    } else {
        (a + b) as u64
    }
}

/// Texels (R8 bytes) of a `width` by `height` region.
fn texel_count(width: u32, height: u32) -> (n: u64)
    ensures
        n == width as int * height as int,
{
    proof {
        assert(width as int * height as int <= u32::MAX as int * u32::MAX as int)
            by (nonlinear_arith)
            requires
                width <= u32::MAX,
                height <= u32::MAX,
        ;
    }
    width as u64 * height as u64
}

impl GpuTextAtlasState {
    pub closed spec fn version(&self) -> Option<GpuAtlasVersion> {
        self.cached
    }

    pub closed spec fn total_upload_bytes(&self) -> u64 {
        self.counters.upload_bytes
    }

    pub closed spec fn hits(&self) -> u64 {
        self.counters.cache_hits
    }

    pub closed spec fn misses(&self) -> u64 {
        self.counters.cache_misses
    }

    pub closed spec fn full_count(&self) -> u64 {
        self.counters.full_uploads
    }

    pub closed spec fn dirty_count(&self) -> u64 {
        self.counters.dirty_uploads
    }

    pub closed spec fn full_bytes(&self) -> u64 {
        self.counters.full_upload_bytes
    }

    pub closed spec fn dirty_bytes(&self) -> u64 {
        self.counters.dirty_upload_bytes
    }

    /// The byte counters agree: every uploaded byte was sent either by a
    /// full or by a dirty-rectangle upload (modulo 2^64).
    pub open spec fn wf(&self) -> bool {
        self.total_upload_bytes() == wrap_add(self.full_bytes(), self.dirty_bytes())
    }

    /// No GPU atlas yet and every counter at zero.
    pub fn new() -> (s: Self)
        ensures
            s.wf(),
            s.version() is None,
            s.total_upload_bytes() == 0,
            s.hits() == 0,
            s.misses() == 0,
            s.full_count() == 0,
            s.dirty_count() == 0,
            s.full_bytes() == 0,
            s.dirty_bytes() == 0,
    {
        GpuTextAtlasState {
            cached: None,
            counters: TextAtlasCounters {
                upload_bytes: 0,
                cache_hits: 0,
                cache_misses: 0,
                full_uploads: 0,
                dirty_uploads: 0,
                full_upload_bytes: 0,
                dirty_upload_bytes: 0,
            },
        }
    }

    /// Decide the upload for a snapshot of the CPU atlas and account for it.
    /// Afterwards the GPU copy is recorded as holding exactly the snapshot.
    pub fn prepare(&mut self, width: u32, height: u32, generation: u64, dirty: Option<AtlasRect>) -> (upload:
        AtlasUpload)
        requires
            old(self).wf(),
        ensures
            final(self).wf(),
            upload == planned_upload(old(self).version(), width, height, generation, dirty),
            final(self).version() == Some(GpuAtlasVersion { width, height, generation }),
            final(self).hits() == (if upload is Reuse {
                wrap_add(old(self).hits(), 1)
            } else {
                old(self).hits()
            }),
            final(self).misses() == (if upload is Full {
                wrap_add(old(self).misses(), 1)
            } else {
                old(self).misses()
            }),
            final(self).full_count() == (if upload is Full {
                wrap_add(old(self).full_count(), 1)
            } else {
                old(self).full_count()
            }),
            final(self).dirty_count() == (if upload is Dirty {
                wrap_add(old(self).dirty_count(), 1)
            } else {
                old(self).dirty_count()
            }),
            final(self).full_bytes() == (if upload is Full {
                wrap_add(old(self).full_bytes(), (width as int * height as int) as u64)
            } else {
                old(self).full_bytes()
            }),
            final(self).dirty_bytes() == (match upload {
                AtlasUpload::Dirty(rect) => wrap_add(
                    old(self).dirty_bytes(),
                    (rect.width as int * rect.height as int) as u64,
                ),
                _ => old(self).dirty_bytes(),
            }),
    {
        let plan = match self.cached {
            Some(v) => if v.width == width && v.height == height {
                if v.generation == generation {
                    AtlasUpload::Reuse
                } else {
                    match dirty {
                        Some(rect) => AtlasUpload::Dirty(rect),
                        None => AtlasUpload::Full,
                    }
                }
            } else {
                AtlasUpload::Full
            },
            None => AtlasUpload::Full,
        };
        let c = &mut self.counters;
        match plan {
            AtlasUpload::Reuse => {
                c.cache_hits = c.cache_hits.wrapping_add(1);
            },
            AtlasUpload::Dirty(rect) => {
                let bytes: u64 = texel_count(rect.width, rect.height);
                c.upload_bytes = c.upload_bytes.wrapping_add(bytes);
                c.dirty_uploads = c.dirty_uploads.wrapping_add(1);
                c.dirty_upload_bytes = c.dirty_upload_bytes.wrapping_add(bytes);
                proof {
                    lemma_wrap_add_assoc(
                        old(self).counters.full_upload_bytes,
                        old(self).counters.dirty_upload_bytes,
                        bytes,
                    );
                }
            },
            AtlasUpload::Full => {
                let bytes: u64 = texel_count(width, height);
                c.cache_misses = c.cache_misses.wrapping_add(1);
                c.upload_bytes = c.upload_bytes.wrapping_add(bytes);
                c.full_uploads = c.full_uploads.wrapping_add(1);
                c.full_upload_bytes = c.full_upload_bytes.wrapping_add(bytes);
                proof {
                    lemma_wrap_add_assoc(
                        old(self).counters.dirty_upload_bytes,
                        old(self).counters.full_upload_bytes,
                        bytes,
                    );
                    lemma_wrap_add_assoc(
                        old(self).counters.full_upload_bytes,
                        bytes,
                        old(self).counters.dirty_upload_bytes,
                    );
                }
            },
        }
        self.cached = Some(GpuAtlasVersion { width, height, generation });
        plan
    }

    pub fn text_atlas_upload_bytes(&self) -> (n: u64)
        ensures
            n == self.total_upload_bytes(),
    {
        self.counters.upload_bytes
    }

    pub fn text_atlas_cache_hits(&self) -> (n: u64)
        ensures
            n == self.hits(),
    {
        self.counters.cache_hits
    }

    pub fn text_atlas_cache_misses(&self) -> (n: u64)
        ensures
            n == self.misses(),
    {
        self.counters.cache_misses
    }

    pub fn text_atlas_full_uploads(&self) -> (n: u64)
        ensures
            n == self.full_count(),
    {
        self.counters.full_uploads
    }

    pub fn text_atlas_dirty_uploads(&self) -> (n: u64)
        ensures
            n == self.dirty_count(),
    {
        self.counters.dirty_uploads
    }

    pub fn text_atlas_full_upload_bytes(&self) -> (n: u64)
        ensures
            n == self.full_bytes(),
    {
        self.counters.full_upload_bytes
    }

    pub fn text_atlas_dirty_upload_bytes(&self) -> (n: u64)
        ensures
            n == self.dirty_bytes(),
    {
        self.counters.dirty_upload_bytes
    }

    /// The generation the GPU copy holds, if any.
    pub fn text_atlas_cache_generation(&self) -> (g: Option<u64>)
        ensures
            g == match self.version() {
                Some(v) => Some(v.generation),
                None => None,
            },
    {
        match self.cached {
            Some(v) => Some(v.generation),
            None => None,
        }
    }
}

proof fn lemma_wrap_add_assoc(a: u64, b: u64, c: u64)
    ensures
        wrap_add(wrap_add(a, b), c) == wrap_add(a, wrap_add(b, c)),
        wrap_add(a, b) == wrap_add(b, a),
{
}

/// Preparing the same snapshot twice uploads nothing the second time: once
/// prepared, the GPU copy is current for that snapshot.
pub proof fn lemma_prepared_snapshot_is_reused(
    width: u32,
    height: u32,
    generation: u64,
    dirty: Option<AtlasRect>,
)
    ensures
        planned_upload(Some(GpuAtlasVersion { width, height, generation }), width, height, generation, dirty)
            == AtlasUpload::Reuse,
{
}


/// The GPU atlas texture is reused or updated in place only when it has the
/// snapshot's size: a reuse needs the very same snapshot, a dirty upload a
/// newer generation of the same size and its dirty rectangle, and any other
/// case (no texture yet, a different width or height) creates and fills a
/// texture of the new size.
pub proof fn lemma_upload_matches_texture_size(
    cached: Option<GpuAtlasVersion>,
    width: u32,
    height: u32,
    generation: u64,
    dirty: Option<AtlasRect>,
)
    ensures
        !(planned_upload(cached, width, height, generation, dirty) is Full) ==> (cached matches Some(
            v,
        ) && v.width == width && v.height == height),
        (cached matches Some(v) && (v.width != width || v.height != height)) ==> planned_upload(
            cached,
            width,
            height,
            generation,
            dirty,
        ) is Full,
        cached is None ==> planned_upload(cached, width, height, generation, dirty) is Full,
        planned_upload(cached, width, height, generation, dirty) is Reuse <==> cached == Some(
            GpuAtlasVersion { width, height, generation },
        ),
        planned_upload(cached, width, height, generation, dirty) matches AtlasUpload::Dirty(rect)
            ==> dirty == Some(rect) && cached != Some(GpuAtlasVersion { width, height, generation }),
{
}
} // verus!
