//! Verified core of the GPU rasterizer backend: scene support decisions,
//! draw batching, readback and atlas byte layout, the GPU texture cache,
//! frame scheduling and profiling bookkeeping.
use vstd::prelude::*;

pub mod backend;
pub mod composite;
pub mod draw_batches;
pub mod draw_commands;
pub mod float_bits;
pub mod frame_route;
pub mod frame_stream;
pub mod gpu_support;
pub mod image_cache;
pub mod mask_shapes;
pub mod mask_slots;
pub mod metrics;
pub mod readback;
pub mod scene;
pub mod shader_source;
pub mod text_atlas;

verus! {

/// Round `n` up to the next multiple of 256 bytes, the row pitch that GPU
/// texture-to-buffer copies require.
pub fn align_to_256(n: u32) -> (r: u32)
    requires
        n <= u32::MAX - 255,
    ensures
        r % 256 == 0,
        n <= r < n + 256,
{
    let sum: u32 = n + 255;
    let r: u32 = sum & !255u32;
    assert(sum & !255u32 == sum - sum % 256) by (bit_vector);
    r
}

} // verus!
