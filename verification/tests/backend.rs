use dioxuscut_rasterizer::backend::{WgpuBackend, DEFAULT_GPU_IMAGE_CACHE_BYTES};
use dioxuscut_rasterizer::metrics::{FrameProfileSample, WgpuRenderStats, WgpuVideoTimingStats};
use dioxuscut_rasterizer::readback::AtlasRect;
use dioxuscut_rasterizer::text_atlas::AtlasUpload;

fn backend() -> WgpuBackend<&'static str, &'static str> {
    WgpuBackend::with_context("device")
}

#[test]
fn new_backend_starts_with_empty_statistics() {
    let gpu = backend();
    assert_eq!(*gpu.context(), "device");
    assert_eq!(gpu.render_stats(), WgpuRenderStats::default());
    assert_eq!(gpu.video_timing_stats(), WgpuVideoTimingStats::default());
    assert_eq!(gpu.last_cpu_fallback_reason(), None);
    assert_eq!(gpu.gpu_texture_uploads(), 0);
    assert_eq!(gpu.gpu_texture_upload_bytes(), 0);
    assert_eq!(gpu.gpu_image_cache_len(), 0);
    assert_eq!(gpu.text_atlas_cache_generation(), None);
    assert_eq!(gpu.text_atlas_upload_ns(), 0);
    assert_eq!(gpu.last_session_wall_ns(), 0);
    assert!(!gpu.is_profiling_enabled());
    assert!(gpu.profile_samples().is_empty());
    assert_eq!(DEFAULT_GPU_IMAGE_CACHE_BYTES, 256 * 1024 * 1024);
}

#[test]
fn fallback_frames_record_the_latest_reason() {
    let mut gpu = backend();
    gpu.record_gpu_frame();
    gpu.record_cpu_fallback("frame dimensions exceed the GPU texture limit".to_string());
    gpu.record_cpu_fallback("scene contains GPU-unsupported nodes or effects".to_string());
    let stats = gpu.render_stats();
    assert_eq!(stats.gpu_frames, 1);
    assert_eq!(stats.cpu_fallback_frames, 2);
    assert_eq!(
        gpu.last_cpu_fallback_reason().as_deref(),
        Some("scene contains GPU-unsupported nodes or effects")
    );
}

#[test]
fn cached_textures_are_not_uploaded_again() {
    let mut gpu = backend();
    let key = "/assets/logo.png".to_string();
    assert!(!gpu.lookup_texture(&key));
    assert!(gpu.record_texture_upload(key.clone(), 16, 8, "logo", 250));
    assert!(gpu.lookup_texture(&key));
    assert_eq!(*gpu.most_recent_texture(), "logo");
    assert!(gpu.lookup_texture(&key));
    assert_eq!(gpu.gpu_texture_uploads(), 1);
    assert_eq!(gpu.gpu_texture_upload_bytes(), 16 * 8 * 4);
    assert_eq!(gpu.gpu_texture_cache_hits(), 2);
    assert_eq!(gpu.gpu_texture_cache_misses(), 1);
    assert_eq!(gpu.video_timing_stats().texture_upload_ns, 250);
    assert_eq!(gpu.gpu_image_cache_len(), 1);
}

#[test]
fn racing_upload_keeps_the_cached_texture() {
    let mut gpu = backend();
    let key = "clip.png".to_string();
    assert!(gpu.record_texture_upload(key.clone(), 2, 2, "first", 1));
    assert!(!gpu.record_texture_upload(key.clone(), 2, 2, "second", 1));
    assert_eq!(*gpu.most_recent_texture(), "first");
    assert_eq!(gpu.gpu_texture_uploads(), 2);
    assert_eq!(gpu.gpu_image_cache_len(), 1);
}

#[test]
fn shrinking_the_texture_budget_evicts_least_recently_used() {
    let mut gpu = backend();
    assert!(gpu.record_texture_upload("a".to_string(), 16, 16, "A", 0));
    assert!(gpu.record_texture_upload("b".to_string(), 16, 16, "B", 0));
    assert!(gpu.lookup_texture(&"a".to_string()));
    let mut gpu = gpu.with_image_cache_bytes(1024);
    assert_eq!(gpu.gpu_image_cache_len(), 1);
    assert!(gpu.lookup_texture(&"a".to_string()));
    assert!(!gpu.lookup_texture(&"b".to_string()));
    let gpu = gpu.with_image_cache_bytes(0);
    assert_eq!(gpu.gpu_image_cache_len(), 0);
}

#[test]
fn text_atlas_state_is_tracked_by_the_backend() {
    let mut gpu = backend();
    assert_eq!(gpu.prepare_text_atlas(32, 16, 1, None), AtlasUpload::Full);
    assert_eq!(gpu.prepare_text_atlas(32, 16, 1, None), AtlasUpload::Reuse);
    let rect = AtlasRect { x: 0, y: 0, width: 4, height: 2 };
    assert_eq!(gpu.prepare_text_atlas(32, 16, 2, Some(rect)), AtlasUpload::Dirty(rect));
    gpu.record_text_atlas_upload_ns(40);
    assert_eq!(gpu.text_atlas_upload_bytes(), 512 + 8);
    assert_eq!(gpu.text_atlas_full_uploads(), 1);
    assert_eq!(gpu.text_atlas_dirty_uploads(), 1);
    assert_eq!(gpu.text_atlas_full_upload_bytes(), 512);
    assert_eq!(gpu.text_atlas_dirty_upload_bytes(), 8);
    assert_eq!(gpu.text_atlas_cache_hits(), 1);
    assert_eq!(gpu.text_atlas_cache_misses(), 1);
    assert_eq!(gpu.text_atlas_cache_generation(), Some(2));
    assert_eq!(gpu.text_atlas_upload_ns(), 40);
}

#[test]
fn profiling_samples_are_kept_until_reset() {
    let mut gpu = backend().with_profiling(true);
    assert!(gpu.is_profiling_enabled());
    let first = FrameProfileSample { frame_idx: 0, total_frame_ns: 10, ..Default::default() };
    let second = FrameProfileSample { frame_idx: 1, cpu_fallback: true, ..Default::default() };
    gpu.record_profile_sample(first);
    gpu.record_profile_sample(second);
    gpu.record_session_wall_ns(99);
    assert_eq!(gpu.profile_samples(), vec![first, second]);
    assert_eq!(gpu.last_session_wall_ns(), 99);
    gpu.reset_profiling();
    assert!(gpu.profile_samples().is_empty());
    assert_eq!(gpu.last_session_wall_ns(), 0);
    assert!(gpu.is_profiling_enabled());
    let gpu = gpu.with_profiling(false);
    assert!(!gpu.is_profiling_enabled());
}

#[test]
fn timing_counters_accumulate() {
    let mut gpu = backend();
    gpu.record_video_decode_ns(5);
    gpu.record_video_decode_ns(7);
    gpu.record_submit_readback_ns(3);
    gpu.record_submit_no_readback_ns(11);
    assert_eq!(
        gpu.video_timing_stats(),
        WgpuVideoTimingStats {
            video_decode_ns: 12,
            texture_upload_ns: 0,
            gpu_submit_readback_ns: 3,
            gpu_submit_no_readback_ns: 11,
        }
    );
}

#[test]
fn streamed_text_frames_reuse_one_atlas_upload() {
    // Three frames of the same text: the atlas snapshot never changes.
    let mut gpu = backend();
    let snapshot = (512, 256, 7);
    for _ in 0..3 {
        gpu.prepare_text_atlas(snapshot.0, snapshot.1, snapshot.2, None);
        gpu.record_gpu_frame();
    }
    assert_eq!(gpu.render_stats().gpu_frames, 3);
    let upload_bytes = gpu.text_atlas_upload_bytes();
    assert!(upload_bytes > 0);
    assert_eq!(gpu.text_atlas_cache_misses(), 1);
    assert!(gpu.text_atlas_cache_hits() >= 2);
    for _ in 0..3 {
        assert_eq!(gpu.prepare_text_atlas(snapshot.0, snapshot.1, snapshot.2, None), AtlasUpload::Reuse);
    }
    assert_eq!(gpu.text_atlas_upload_bytes(), upload_bytes);
    assert!(gpu.text_atlas_cache_hits() >= 5);
}
