use dioxuscut_rasterizer::float_bits::{f32_eq, f32_is_finite, f32_le, f32_lt, f64_lt};
use dioxuscut_rasterizer::metrics::{
    attribute_frame_stages, collect_stage_samples, stage_total_bytes, BackendCounters,
    FrameProfileSample, FrameStageTimings, StageCounters, WgpuRenderStats, WgpuVideoTimingStats,
};
use dioxuscut_rasterizer::shader_source::{shader_opacity_supported, shader_source_with_opacity};

#[test]
fn shader_opacity_needs_a_plain_return_body() {
    assert!(shader_opacity_supported("return vec4<f32>(uv.x, uv.y, 0.25, 1.0);"));
    assert!(!shader_opacity_supported("@fragment fn main() -> @location(0) vec4<f32> { return x; }"));
    assert!(!shader_opacity_supported("let c = vec4<f32>(1.0);"));
    assert!(!shader_opacity_supported(""));
}

#[test]
fn shader_opacity_rewrites_the_last_return() {
    let source = "let a = 1.0; if a > 0.0 { return vec4<f32>(0.0); } return vec4<f32>(1.0, 0.0, 0.0, 1.0);";
    let literal = format!("{:.9}", 0.5f32);
    let rewritten = shader_source_with_opacity(source, 0.5f32.to_bits(), &literal);
    assert_eq!(
        rewritten,
        "let a = 1.0; if a > 0.0 { return vec4<f32>(0.0); } let dioxuscut_color = vec4<f32>(1.0, 0.0, 0.0, 1.0); return vec4<f32>(dioxuscut_color.rgb, dioxuscut_color.a * 0.500000000);"
    );
    // Full opacity, entry-point sources and sources without `;` stay unchanged.
    assert_eq!(shader_source_with_opacity(source, 1.0f32.to_bits(), "1.000000000"), source);
    let entry = "@fragment fn f() -> vec4<f32> { return vec4<f32>(1.0); }";
    assert_eq!(shader_source_with_opacity(entry, 0.5f32.to_bits(), &literal), entry);
    let open = "return vec4<f32>(1.0)";
    assert_eq!(shader_source_with_opacity(open, 0.5f32.to_bits(), &literal), open);
    // Text after the semicolon is kept.
    assert_eq!(
        shader_source_with_opacity("return c; // tail", 0.25f32.to_bits(), "0.250000000"),
        "let dioxuscut_color = c; return vec4<f32>(dioxuscut_color.rgb, dioxuscut_color.a * 0.250000000); // tail"
    );
}

#[test]
fn float_bit_comparisons_match_ieee_order() {
    let values = [
        f32::NEG_INFINITY,
        -2.5,
        -1.0,
        -0.0,
        0.0,
        f32::MIN_POSITIVE,
        0.5,
        1.0,
        1.1,
        10.0,
        f32::MAX,
        f32::INFINITY,
        f32::NAN,
    ];
    for a in values {
        assert_eq!(f32_is_finite(a.to_bits()), a.is_finite());
        for b in values {
            assert_eq!(f32_le(a.to_bits(), b.to_bits()), a <= b, "{a} <= {b}");
            assert_eq!(f32_lt(a.to_bits(), b.to_bits()), a < b, "{a} < {b}");
            assert_eq!(f32_eq(a.to_bits(), b.to_bits()), a == b, "{a} == {b}");
        }
    }
    let doubles = [f64::NEG_INFINITY, -1.0, -0.0, 0.0, 0.25, f64::INFINITY, f64::NAN];
    for a in doubles {
        for b in doubles {
            assert_eq!(f64_lt(a.to_bits(), b.to_bits()), a < b, "{a} < {b}");
        }
    }
}

fn sample(frame_idx: u32, exec: Option<u64>, cpu_fallback: bool) -> FrameProfileSample {
    FrameProfileSample {
        frame_idx,
        scene_eval_ns: 100 + u64::from(frame_idx),
        decode_ns: 2_000_000,
        upload_ns: 1_000_000,
        upload_bytes: if frame_idx == 0 { 1024 } else { 0 },
        compile_encode_ns: 3_000_000,
        submission_wait_ns: 5_000_000,
        gpu_exec_ns: exec,
        readback_ns: 2_000_000,
        readback_bytes: 4096,
        video_encode_ns: 1_000_000,
        total_frame_ns: 14_500_000 - u64::from(frame_idx),
        cpu_fallback,
    }
}

#[test]
fn test_profiling_summary_aggregation() {
    let samples = vec![
        FrameProfileSample {
            frame_idx: 0,
            scene_eval_ns: 500_000,
            decode_ns: 2_000_000,
            upload_ns: 1_000_000,
            upload_bytes: 1024,
            compile_encode_ns: 3_000_000,
            submission_wait_ns: 5_000_000,
            gpu_exec_ns: Some(3_500_000),
            readback_ns: 2_000_000,
            readback_bytes: 4096,
            video_encode_ns: 1_000_000,
            total_frame_ns: 14_500_000,
            cpu_fallback: false,
        },
        FrameProfileSample {
            frame_idx: 1,
            scene_eval_ns: 200_000,
            decode_ns: 1_000_000,
            upload_ns: 500_000,
            upload_bytes: 0,
            compile_encode_ns: 2_000_000,
            submission_wait_ns: 4_000_000,
            gpu_exec_ns: Some(2_500_000),
            readback_ns: 1_500_000,
            readback_bytes: 4096,
            video_encode_ns: 1_000_000,
            total_frame_ns: 10_200_000,
            cpu_fallback: false,
        },
    ];
    let columns = collect_stage_samples(&samples);
    assert_eq!(columns.total_frames, 2);
    assert_eq!(columns.gpu_frames, 2);
    assert_eq!(columns.cpu_fallback_frames, 0);
    assert_eq!(stage_total_bytes(&columns.upload_bytes), Some(1024));
    assert_eq!(stage_total_bytes(&columns.readback_bytes), Some(8192));
    assert_eq!(columns.gpu_exec_ns, vec![3_500_000, 2_500_000]);
    // Steady state excludes the warm-up frame.
    assert_eq!(&columns.total_frame_ns[1..], &[10_200_000]);
}

#[test]
fn stage_columns_follow_sample_order() {
    let samples = vec![sample(0, None, true), sample(1, Some(7), false), sample(2, None, false)];
    let columns = collect_stage_samples(&samples);
    assert_eq!(columns.total_frames, 3);
    assert_eq!(columns.gpu_frames, 2);
    assert_eq!(columns.cpu_fallback_frames, 1);
    assert_eq!(columns.scene_eval_ns, vec![100, 101, 102]);
    assert_eq!(columns.gpu_exec_ns, vec![7]);
    assert_eq!(columns.total_frame_ns, vec![14_500_000, 14_499_999, 14_499_998]);
    let empty = collect_stage_samples(&[]);
    assert_eq!(empty.total_frames, 0);
    assert!(empty.decode_ns.is_empty());
    assert_eq!(stage_total_bytes(&[]), Some(0));
    assert_eq!(stage_total_bytes(&[u64::MAX, 1]), None);
    assert_eq!(stage_total_bytes(&[u64::MAX - 1, 1]), Some(u64::MAX));
}

#[test]
fn render_stats_distinguish_gpu_and_cpu_fallback_frames() {
    let mut counters = BackendCounters::new();
    counters.record_gpu_frame();
    counters.record_gpu_frame();
    counters.record_cpu_fallback("scene contains GPU-unsupported nodes or effects".to_string());
    counters.record_texture_cache_miss();
    counters.record_texture_upload(16, 16, 250);
    counters.record_texture_cache_hit();
    assert_eq!(
        counters.render_stats(),
        WgpuRenderStats {
            gpu_frames: 2,
            cpu_fallback_frames: 1,
            texture_cache_hits: 1,
            texture_cache_misses: 1,
        }
    );
    assert_eq!(counters.texture_uploads, 1);
    assert_eq!(counters.texture_upload_bytes, 1024);
    assert_eq!(
        counters.video_timing_stats(),
        WgpuVideoTimingStats {
            video_decode_ns: 0,
            texture_upload_ns: 250,
            gpu_submit_readback_ns: 0,
            gpu_submit_no_readback_ns: 0,
        }
    );
    assert_eq!(
        counters.last_cpu_fallback_reason().as_deref(),
        Some("scene contains GPU-unsupported nodes or effects")
    );
}

fn counters(decode: u64, upload: u64, atlas: u64, bytes: u64, atlas_bytes: u64) -> StageCounters {
    StageCounters {
        video_decode_ns: decode,
        texture_upload_ns: upload,
        text_atlas_upload_ns: atlas,
        texture_upload_bytes: bytes,
        text_atlas_upload_bytes: atlas_bytes,
    }
}

#[test]
fn frame_stages_split_the_encode_interval() {
    let before = counters(100, 10, 5, 1000, 24);
    let after = counters(160, 40, 15, 5096, 88);
    let timings = attribute_frame_stages(before, after, 7, 100);
    assert_eq!(
        timings,
        FrameStageTimings { decode_ns: 67, upload_ns: 40, upload_bytes: 4160, compile_encode_ns: 53 }
    );
}

#[test]
fn frame_stages_saturate_instead_of_wrapping() {
    let before = counters(500, 30, 0, 10, 0);
    let after = counters(100, 10, 0, 5, 0);
    let timings = attribute_frame_stages(before, after, u64::MAX, 20);
    assert_eq!(
        timings,
        FrameStageTimings { decode_ns: u64::MAX, upload_ns: 0, upload_bytes: 0, compile_encode_ns: 0 }
    );
}
