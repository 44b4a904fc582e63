use dioxuscut_rasterizer::gpu_support::gpu_supports_scene;
use dioxuscut_rasterizer::frame_route::{
    check_native_frame, check_native_frame_size, check_native_stream_frame,
    check_trailing_overlap, interleaved_segments, plan_frame, FrameRoute, NativeFrameError,
    OverlapError, SceneSegment, StreamRoute, plan_stream,
};
use dioxuscut_rasterizer::mask_shapes::{
    gpu_mask_kinds, gpu_mask_shape_kind, path_mask_color, MASK_KIND_CIRCLE,
    MASK_KIND_LINEAR_ALPHA, MASK_KIND_LINEAR_LUMINANCE, MASK_KIND_RADIAL, MASK_KIND_RECT,
    MASK_KIND_ROUNDED_RECT,
};
use dioxuscut_rasterizer::scene::{
    BlendMode, ClipRegion, Color, GradientStop, ImageFit, LayerMaskSupport, MaskMode, Scene, SceneFilter,
    SceneNode,
};

fn f(value: f32) -> u32 {
    value.to_bits()
}

const WHITE: Color = Color { r: 255, g: 255, b: 255, a: 255 };
const RED: Color = Color { r: 255, g: 0, b: 0, a: 255 };
const GREY: Color = Color { r: 128, g: 128, b: 128, a: 200 };

fn rect(x: f32, y: f32, w: f32, h: f32, fill: Color) -> SceneNode {
    SceneNode::Rect {
        x: f(x),
        y: f(y),
        w: f(w),
        h: f(h),
        fill,
        stroke: None,
        stroke_width: f(0.0),
        corner_radius: f(0.0),
    }
}

const RED_SHADER: &str = "@compute fn main() { return vec4<f32>(1.0, 0.0, 0.0, 1.0); }";

fn shader(x: f32, y: f32, w: f32, h: f32, opacity: f32) -> SceneNode {
    SceneNode::Shader {
        x: f(x),
        y: f(y),
        w: f(w),
        h: f(h),
        source: RED_SHADER.to_string(),
        time: f(0.0),
        params: [f(0.0); 4],
        opacity: f(opacity),
    }
}

fn image(x: f32) -> SceneNode {
    SceneNode::Image {
        src: "frame.png".to_string(),
        x: f(x),
        y: f(0.0),
        w: f(10.0),
        h: f(10.0),
        fit: ImageFit::Fill,
        opacity: f(1.0),
    }
}

fn overlap_layer(children: Vec<SceneNode>) -> SceneNode {
    SceneNode::Layer {
        opacity: f(0.5),
        blend_mode: BlendMode::Normal,
        clip: None,
        mask: None,
        mask_mode: MaskMode::Alpha,
        filters: vec![SceneFilter::Opacity { amount: f(0.8) }],
        has_shadow: false,
        children,
        mask_support: LayerMaskSupport {
            clip_path_mask: false,
            mask_path: false,
            disjoint_textures: false,
            clip_rect: false,
            mask_shapes: false,
        },
    }
}

fn within(n: usize) -> Vec<bool> {
    vec![true; n]
}

#[test]
fn all_shader_scene_uses_the_direct_pass_when_every_layer_fits() {
    let scene = Scene { nodes: vec![shader(0.0, 0.0, 10.0, 10.0, 1.0), shader(5.0, 5.0, 5.0, 5.0, 0.5)] };
    let plan = plan_frame(&scene, &within(2), 64, 64, 8192);
    assert!(matches!(plan.route, FrameRoute::ShaderLayersDirect));
    assert!(!plan.try_trailing_overlap);
}

#[test]
fn shader_outside_the_frame_is_composited_layer_by_layer() {
    let scene = Scene { nodes: vec![shader(0.0, 0.0, 10.0, 10.0, 1.0), shader(60.0, 0.0, 10.0, 10.0, 1.0)] };
    let plan = plan_frame(&scene, &vec![true, false], 64, 64, 8192);
    assert!(matches!(plan.route, FrameRoute::ShaderLayers));
    let negative = Scene { nodes: vec![shader(-1.0, 0.0, 10.0, 10.0, 1.0)] };
    assert!(matches!(plan_frame(&negative, &within(1), 64, 64, 8192).route, FrameRoute::ShaderLayers));
}

#[test]
fn shader_before_other_nodes_interleaves() {
    let scene = Scene { nodes: vec![shader(0.0, 0.0, 10.0, 10.0, 1.0), rect(0.0, 0.0, 4.0, 4.0, RED)] };
    let plan = plan_frame(&scene, &within(2), 64, 64, 8192);
    assert!(matches!(plan.route, FrameRoute::InterleavedShaders));
}

#[test]
fn trailing_direct_shaders_follow_the_compiled_base() {
    let scene = Scene {
        nodes: vec![
            rect(0.0, 0.0, 4.0, 4.0, RED),
            rect(1.0, 1.0, 4.0, 4.0, WHITE),
            shader(0.0, 0.0, 10.0, 10.0, 1.0),
        ],
    };
    let plan = plan_frame(&scene, &within(3), 64, 64, 8192);
    assert!(matches!(plan.route, FrameRoute::Gpu { base_len: 2 }));
}

#[test]
fn trailing_shader_outside_the_frame_falls_back_to_cpu() {
    let scene = Scene { nodes: vec![rect(0.0, 0.0, 4.0, 4.0, RED), shader(0.0, 0.0, 10.0, 10.0, 1.0)] };
    let plan = plan_frame(&scene, &vec![true, false], 64, 64, 8192);
    match plan.route {
        FrameRoute::CpuFallback { base_len, reason } => {
            assert_eq!(base_len, 2);
            assert_eq!(reason, "scene contains GPU-unsupported nodes or effects");
        }
        other => panic!("unexpected route {other:?}"),
    }
}

#[test]
fn oversized_frame_uses_cpu_fallback() {
    let scene = Scene { nodes: vec![rect(0.0, 0.0, 4.0, 4.0, RED)] };
    let plan = plan_frame(&scene, &within(1), 9000, 64, 8192);
    match plan.route {
        FrameRoute::TextureLimitFallback { reason } => {
            assert_eq!(reason, "frame dimensions exceed the GPU texture limit")
        }
        other => panic!("unexpected route {other:?}"),
    }
    assert!(!plan.try_trailing_overlap);
}

#[test]
fn plain_scene_compiles_for_the_gpu() {
    let scene = Scene { nodes: vec![rect(0.0, 0.0, 4.0, 4.0, RED)] };
    let plan = plan_frame(&scene, &within(1), 64, 64, 8192);
    assert!(matches!(plan.route, FrameRoute::Gpu { base_len: 1 }));
    let empty = Scene { nodes: vec![] };
    assert!(matches!(plan_frame(&empty, &within(0), 64, 64, 8192).route, FrameRoute::Gpu { base_len: 0 }));
}

#[test]
fn trailing_overlap_layer_is_tried_before_the_fallback() {
    let scene = Scene {
        nodes: vec![rect(0.0, 0.0, 4.0, 4.0, RED), overlap_layer(vec![image(0.0), image(5.0)])],
    };
    let plan = plan_frame(&scene, &within(2), 64, 64, 8192);
    assert!(plan.try_trailing_overlap);
    match plan.route {
        FrameRoute::CpuFallback { base_len, reason } => {
            assert_eq!(base_len, 2);
            assert_eq!(reason, "overlapping texture layer requires offscreen compositing");
        }
        other => panic!("unexpected route {other:?}"),
    }
}

#[test]
fn interleaved_scene_splits_into_ordered_segments() {
    let scene = Scene {
        nodes: vec![
            rect(0.0, 0.0, 4.0, 4.0, RED),
            rect(1.0, 1.0, 4.0, 4.0, WHITE),
            shader(0.0, 0.0, 10.0, 10.0, 1.0),
            shader(0.0, 0.0, 10.0, 10.0, 1.0),
            rect(2.0, 2.0, 4.0, 4.0, RED),
        ],
    };
    let segments = interleaved_segments(&scene, &vec![true, true, true, false, true]);
    assert_eq!(
        segments,
        vec![
            SceneSegment::Nodes { start: 0, end: 2 },
            SceneSegment::Shader { index: 2, direct: true },
            SceneSegment::Shader { index: 3, direct: false },
            SceneSegment::Nodes { start: 4, end: 5 },
        ]
    );
}

#[test]
fn interleaved_scene_starting_with_a_shader_has_no_empty_segment() {
    let scene = Scene {
        nodes: vec![shader(0.0, 0.0, 10.0, 10.0, 1.0), rect(0.0, 0.0, 4.0, 4.0, RED)],
    };
    let segments = interleaved_segments(&scene, &within(2));
    assert_eq!(
        segments,
        vec![SceneSegment::Shader { index: 0, direct: true }, SceneSegment::Nodes { start: 1, end: 2 }]
    );
}

#[test]
fn native_frame_checks_limit_shaders_and_compilation() {
    let plain = Scene { nodes: vec![rect(0.0, 0.0, 4.0, 4.0, RED)] };
    assert_eq!(check_native_frame(&plain, 64, 64, 8192), Ok(()));
    assert_eq!(check_native_frame(&plain, 64, 9000, 8192), Err(NativeFrameError::DimensionsExceedLimit));
    let with_shader = Scene { nodes: vec![rect(0.0, 0.0, 4.0, 4.0, RED), shader(0.0, 0.0, 1.0, 1.0, 1.0)] };
    assert_eq!(check_native_frame(&with_shader, 64, 64, 8192), Err(NativeFrameError::ShaderNodes));
    let overlap = Scene { nodes: vec![overlap_layer(vec![image(0.0), image(5.0)])] };
    assert_eq!(check_native_frame(&overlap, 64, 64, 8192), Err(NativeFrameError::RequiresCpuFallback));
    assert_eq!(check_native_frame_size(8192, 8192, 8192), Ok(()));
    assert_eq!(check_native_frame_size(8193, 1, 8192), Err(NativeFrameError::DimensionsExceedLimit));
}

#[test]
fn native_stream_frame_keeps_the_first_size() {
    let plain = Scene { nodes: vec![rect(0.0, 0.0, 4.0, 4.0, RED)] };
    assert_eq!(check_native_stream_frame(&plain, 64, 64, 64, 64), Ok(()));
    assert_eq!(check_native_stream_frame(&plain, 64, 32, 64, 64), Err(NativeFrameError::DimensionsChanged));
    let with_shader = Scene { nodes: vec![shader(0.0, 0.0, 1.0, 1.0, 1.0)] };
    assert_eq!(
        check_native_stream_frame(&with_shader, 64, 64, 64, 64),
        Err(NativeFrameError::RequiresCpuFallback)
    );
}

fn linear(stops: Vec<GradientStop>) -> SceneNode {
    SceneNode::LinearGradient {
        x: f(0.0),
        y: f(0.0),
        w: f(10.0),
        h: f(10.0),
        angle_deg: f(90.0),
        stops,
        inherited_opacity_finite: true,
    }
}

fn stop(position: f32) -> GradientStop {
    GradientStop { position: f(position), color: WHITE }
}

#[test]
fn mask_shapes_get_their_slot_kinds() {
    assert_eq!(gpu_mask_shape_kind(&rect(0.0, 0.0, 4.0, 4.0, RED), MaskMode::Alpha), Some(MASK_KIND_RECT));
    let rounded = SceneNode::Rect {
        x: f(0.0),
        y: f(0.0),
        w: f(4.0),
        h: f(4.0),
        fill: WHITE,
        stroke: None,
        stroke_width: f(0.0),
        corner_radius: f(2.0),
    };
    assert_eq!(gpu_mask_shape_kind(&rounded, MaskMode::Alpha), Some(MASK_KIND_ROUNDED_RECT));
    let circle = SceneNode::Circle { cx: f(5.0), cy: f(5.0), r: f(3.0), fill: GREY, stroke: None, stroke_width: f(0.0) };
    assert_eq!(gpu_mask_shape_kind(&circle, MaskMode::Luminance), Some(MASK_KIND_CIRCLE));
    let gradient = linear(vec![stop(0.0), stop(1.0)]);
    assert_eq!(gpu_mask_shape_kind(&gradient, MaskMode::Alpha), Some(MASK_KIND_LINEAR_ALPHA));
    assert_eq!(gpu_mask_shape_kind(&gradient, MaskMode::Luminance), Some(MASK_KIND_LINEAR_LUMINANCE));
    let radial = SceneNode::RadialGradient { cx: f(5.0), cy: f(5.0), r: f(5.0), stops: vec![stop(0.0), stop(0.5), stop(1.0)], inherited_opacity_finite: true };
    assert_eq!(gpu_mask_shape_kind(&radial, MaskMode::Luminance), Some(MASK_KIND_RADIAL));
}

#[test]
fn mask_shapes_that_need_a_texture_are_rejected() {
    assert_eq!(gpu_mask_shape_kind(&rect(0.0, 0.0, 4.0, 4.0, RED), MaskMode::Luminance), None);
    assert_eq!(gpu_mask_shape_kind(&rect(0.0, 0.0, 0.0, 4.0, WHITE), MaskMode::Alpha), None);
    let stroked = SceneNode::Rect {
        x: f(0.0),
        y: f(0.0),
        w: f(4.0),
        h: f(4.0),
        fill: WHITE,
        stroke: Some(RED),
        stroke_width: f(1.0),
        corner_radius: f(0.0),
    };
    assert_eq!(gpu_mask_shape_kind(&stroked, MaskMode::Alpha), None);
    assert_eq!(gpu_mask_shape_kind(&linear(vec![stop(0.1), stop(1.0)]), MaskMode::Alpha), None);
    assert_eq!(gpu_mask_shape_kind(&image(0.0), MaskMode::Alpha), None);
}

#[test]
fn mask_lists_fit_four_slots() {
    let one = vec![rect(0.0, 0.0, 4.0, 4.0, WHITE)];
    assert_eq!(gpu_mask_kinds(&one, MaskMode::Alpha), Some(vec![MASK_KIND_RECT]));
    let five: Vec<SceneNode> = (0..5).map(|i| rect(i as f32, 0.0, 4.0, 4.0, WHITE)).collect();
    assert_eq!(gpu_mask_kinds(&five, MaskMode::Alpha), None);
    assert_eq!(gpu_mask_kinds(&vec![], MaskMode::Alpha), None);
    let mixed = vec![rect(0.0, 0.0, 4.0, 4.0, WHITE), linear(vec![stop(0.0), stop(1.0)])];
    assert_eq!(gpu_mask_kinds(&mixed, MaskMode::Luminance), Some(vec![MASK_KIND_RECT, MASK_KIND_LINEAR_LUMINANCE]));
}

#[test]
fn path_mask_color_moves_the_mask_value_into_alpha() {
    let color = Color { r: 10, g: 20, b: 30, a: 128 };
    assert_eq!(path_mask_color(color, MaskMode::Alpha, 0), Color { r: 255, g: 255, b: 255, a: 128 });
    assert_eq!(path_mask_color(color, MaskMode::Luminance, 255), Color { r: 255, g: 255, b: 255, a: 128 });
    assert_eq!(path_mask_color(color, MaskMode::Luminance, 100), Color { r: 255, g: 255, b: 255, a: 50 });
    assert_eq!(path_mask_color(WHITE, MaskMode::Luminance, 255), WHITE);
    assert_eq!(path_mask_color(WHITE, MaskMode::Luminance, 0), Color { r: 255, g: 255, b: 255, a: 0 });
}

fn shader_with(x: f32, y: f32, w: f32, h: f32, source: &str, opacity: f32) -> SceneNode {
    SceneNode::Shader {
        x: f(x),
        y: f(y),
        w: f(w),
        h: f(h),
        source: source.to_string(),
        time: f(0.0),
        params: [f(0.0); 4],
        opacity: f(opacity),
    }
}

fn full_rect(fill: Color) -> SceneNode {
    rect(0.0, 0.0, 16.0, 10.0, fill)
}

/// The per-node flags a caller computes in `f32`: a shader's far corner
/// lies inside the frame.
fn within_frame(scene: &Scene, width: u32, height: u32) -> Vec<bool> {
    scene
        .nodes
        .iter()
        .map(|node| match node {
            SceneNode::Shader { x, y, w, h, .. } => {
                f32::from_bits(*x) + f32::from_bits(*w) <= width as f32
                    && f32::from_bits(*y) + f32::from_bits(*h) <= height as f32
            }
            _ => false,
        })
        .collect()
}

#[test]
fn fullscreen_translucent_shader_takes_the_direct_pass() {
    let scene = Scene {
        nodes: vec![shader_with(0.0, 0.0, 32.0, 16.0, "return vec4<f32>(uv.x, uv.y, 0.25, 1.0);", 0.5)],
    };
    let plan = plan_frame(&scene, &within_frame(&scene, 32, 16), 32, 16, 8192);
    assert!(matches!(plan.route, FrameRoute::ShaderLayersDirect));
}

#[test]
fn shader_region_outside_the_target_takes_the_compatibility_path() {
    let scene = Scene {
        nodes: vec![shader_with(14.0, 2.0, 8.0, 4.0, "return vec4<f32>(1.0, 0.0, 0.0, 1.0);", 1.0)],
    };
    let plan = plan_frame(&scene, &within_frame(&scene, 16, 10), 16, 10, 8192);
    assert!(matches!(plan.route, FrameRoute::ShaderLayers));
}

#[test]
fn shader_suffix_is_drawn_after_the_compiled_scene() {
    let scene = Scene {
        nodes: vec![
            full_rect(RED),
            shader_with(4.0, 2.0, 6.0, 4.0, "return vec4<f32>(0.0, 0.0, 1.0, 1.0);", 0.5),
        ],
    };
    let plan = plan_frame(&scene, &within_frame(&scene, 16, 10), 16, 10, 8192);
    assert!(matches!(plan.route, FrameRoute::Gpu { base_len: 1 }));
    assert!(!plan.try_trailing_overlap);
}

#[test]
fn interleaved_shader_keeps_top_level_draw_order() {
    let green = Color { r: 0, g: 255, b: 0, a: 255 };
    let scene = Scene {
        nodes: vec![
            full_rect(RED),
            shader_with(4.0, 2.0, 6.0, 4.0, "return vec4<f32>(0.0, 0.0, 1.0, 1.0);", 1.0),
            full_rect(green),
        ],
    };
    let within = within_frame(&scene, 16, 10);
    assert!(matches!(plan_frame(&scene, &within, 16, 10, 8192).route, FrameRoute::InterleavedShaders));
    assert_eq!(
        interleaved_segments(&scene, &within),
        vec![
            SceneSegment::Nodes { start: 0, end: 1 },
            SceneSegment::Shader { index: 1, direct: true },
            SceneSegment::Nodes { start: 2, end: 3 },
        ]
    );
}

#[test]
fn shader_free_frames_reach_the_gpu_exactly_when_supported() {
    let scenes = vec![
        Scene { nodes: vec![] },
        Scene { nodes: vec![rect(0.0, 0.0, 4.0, 4.0, RED), image(0.0)] },
        Scene { nodes: vec![overlap_layer(vec![image(0.0), image(5.0)])] },
        Scene { nodes: vec![rect(0.0, 0.0, 4.0, 4.0, RED), overlap_layer(vec![rect(0.0, 0.0, 1.0, 1.0, RED)])] },
    ];
    for scene in &scenes {
        let plan = plan_frame(scene, &within(scene.nodes.len()), 64, 64, 8192);
        let on_gpu = matches!(plan.route, FrameRoute::Gpu { .. });
        let on_cpu = matches!(plan.route, FrameRoute::CpuFallback { .. });
        assert_eq!(on_gpu, gpu_supports_scene(scene));
        assert_eq!(on_cpu, !gpu_supports_scene(scene));
    }
}

#[test]
fn scenes_with_a_top_level_shader_never_compile() {
    let scene = Scene { nodes: vec![rect(0.0, 0.0, 4.0, 4.0, RED), shader(0.0, 0.0, 1.0, 1.0, 1.0)] };
    assert!(!gpu_supports_scene(&scene));
}

fn path_clip_layer() -> SceneNode {
    SceneNode::Layer {
        opacity: f(1.0),
        blend_mode: BlendMode::Normal,
        clip: Some(ClipRegion::Path { d: "M 0 0 L 8 0 L 4 8 Z".to_string() }),
        mask: None,
        mask_mode: MaskMode::Alpha,
        filters: vec![],
        has_shadow: false,
        children: vec![rect(0.0, 0.0, 8.0, 8.0, RED)],
        mask_support: LayerMaskSupport {
            clip_path_mask: true,
            mask_path: false,
            disjoint_textures: false,
            clip_rect: false,
            mask_shapes: false,
        },
    }
}

#[test]
fn trailing_overlap_layer_composites_when_both_parts_compile() {
    let scene = Scene {
        nodes: vec![rect(0.0, 0.0, 4.0, 4.0, RED), overlap_layer(vec![image(0.0), image(5.0)])],
    };
    assert_eq!(check_trailing_overlap(&scene), Ok(()));
    let plain = Scene { nodes: vec![rect(0.0, 0.0, 4.0, 4.0, RED)] };
    assert_eq!(check_trailing_overlap(&plain), Err(OverlapError::NoTrailingLayer));
}

#[test]
fn trailing_overlap_layer_reports_what_blocks_it() {
    let broken_image = SceneNode::Image {
        src: "frame.png".to_string(),
        x: f(0.0),
        y: f(0.0),
        w: f(0.0),
        h: f(10.0),
        fit: ImageFit::Fill,
        opacity: f(1.0),
    };
    let base_fails = Scene { nodes: vec![broken_image, overlap_layer(vec![image(0.0), image(5.0)])] };
    assert_eq!(check_trailing_overlap(&base_fails), Err(OverlapError::BaseNeedsCpu));
    let layer_fails = Scene {
        nodes: vec![overlap_layer(vec![image(0.0), image(5.0), shader(0.0, 0.0, 1.0, 1.0, 1.0)])],
    };
    assert_eq!(check_trailing_overlap(&layer_fails), Err(OverlapError::LayerNeedsCpu));
    let masked = Scene { nodes: vec![path_clip_layer(), overlap_layer(vec![image(0.0), image(5.0)])] };
    assert_eq!(check_trailing_overlap(&masked), Err(OverlapError::PathMask));
}

#[test]
fn oversized_streams_render_entirely_on_the_cpu() {
    assert_eq!(plan_stream(0, 9000, 64, 8192), StreamRoute::Empty);
    assert_eq!(plan_stream(10, 9000, 64, 8192), StreamRoute::CpuFallback);
    assert_eq!(plan_stream(10, 64, 8193, 8192), StreamRoute::CpuFallback);
    assert_eq!(plan_stream(10, 8192, 8192, 8192), StreamRoute::GpuRing);
}

#[test]
fn fallback_routes_are_recorded_with_their_reason() {
    let mut gpu: dioxuscut_rasterizer::backend::WgpuBackend<&'static str, &'static str> =
        dioxuscut_rasterizer::backend::WgpuBackend::with_context("device");

    let plain = Scene { nodes: vec![rect(0.0, 0.0, 4.0, 4.0, RED)] };
    let route = plan_frame(&plain, &within(1), 64, 64, 8192).route;
    assert!(!gpu.record_route_fallback(route));
    assert_eq!(gpu.render_stats().cpu_fallback_frames, 0);
    assert_eq!(gpu.last_cpu_fallback_reason(), None);

    let route = plan_frame(&plain, &within(1), 9000, 64, 8192).route;
    assert!(gpu.record_route_fallback(route));
    assert_eq!(gpu.render_stats().cpu_fallback_frames, 1);
    assert_eq!(
        gpu.last_cpu_fallback_reason().as_deref(),
        Some("frame dimensions exceed the GPU texture limit")
    );

    let unsupported = Scene { nodes: vec![overlap_layer(vec![image(0.0), image(8.0)])] };
    assert!(!gpu_supports_scene(&unsupported));
    let route = plan_frame(&unsupported, &within(1), 64, 64, 8192).route;
    assert!(matches!(route, FrameRoute::CpuFallback { base_len: 1, .. }));
    assert!(gpu.record_route_fallback(route));
    let stats = gpu.render_stats();
    assert_eq!(stats.cpu_fallback_frames, 2);
    assert_eq!(stats.gpu_frames, 0);
    assert_eq!(
        gpu.last_cpu_fallback_reason().as_deref(),
        Some(dioxuscut_rasterizer::gpu_support::gpu_fallback_reason(&unsupported))
    );
}

#[test]
fn native_and_overlap_errors_have_their_messages() {
    assert_eq!(
        NativeFrameError::DimensionsExceedLimit.frame_message(),
        "GPU-native frame dimensions exceed the device limit"
    );
    assert_eq!(
        NativeFrameError::ShaderNodes.frame_message(),
        "GPU-native frame sink does not yet support shader nodes"
    );
    assert_eq!(
        NativeFrameError::RequiresCpuFallback.frame_message(),
        "scene requires the CPU fallback and has no GPU texture handle"
    );
    assert_eq!(
        NativeFrameError::DimensionsChanged.frame_message(),
        "GPU-native stream cannot change dimensions mid-stream"
    );
    assert_eq!(OverlapError::NoTrailingLayer.message(), "scene has no trailing overlap layer");
    assert_eq!(OverlapError::BaseNeedsCpu.message(), "overlap base scene requires CPU fallback");
    assert_eq!(OverlapError::LayerNeedsCpu.message(), "overlap layer requires CPU fallback");
    assert_eq!(OverlapError::PathMask.message(), "overlap layer path masks are not yet supported");
}
