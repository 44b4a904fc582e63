use dioxuscut_rasterizer::draw_batches::DrawKind;
use dioxuscut_rasterizer::draw_commands::{compile_base_commands, compile_commands};
use dioxuscut_rasterizer::gpu_support::{
    gpu_blend_children_supported, gpu_blend_layer_filters_supported, gpu_fallback_reason,
    gpu_layer_effects_supported, gpu_supports_scene, has_trailing_overlap_texture_layer,
    scene_uses_blend_layers,
    valid_gpu_gradient_stops, MAX_GRADIENT_STOPS,
};
use dioxuscut_rasterizer::scene::{
    BlendMode, ClipRegion, Color, GradientStop, ImageFit, LayerMaskSupport, MaskMode, Scene,
    SceneFilter, SceneNode,
};

fn f(value: f32) -> u32 {
    value.to_bits()
}

const WHITE: Color = Color { r: 255, g: 255, b: 255, a: 255 };
const BLACK: Color = Color { r: 0, g: 0, b: 0, a: 255 };

fn no_mask_support() -> LayerMaskSupport {
    LayerMaskSupport {
        clip_path_mask: false,
        mask_path: false,
        disjoint_textures: false,
        clip_rect: false,
        mask_shapes: false,
    }
}

fn rect(x: f32, y: f32, w: f32, h: f32, fill: Color) -> SceneNode {
    SceneNode::Rect {
        x: f(x),
        y: f(y),
        w: f(w),
        h: f(h),
        fill,
        stroke: None,
        stroke_width: f(0.0),
        corner_radius: f(0.0),
    }
}

fn image(src: &str, x: f32, w: f32) -> SceneNode {
    SceneNode::Image {
        src: src.to_string(),
        x: f(x),
        y: f(0.0),
        w: f(w),
        h: f(10.0),
        fit: ImageFit::Fill,
        opacity: f(1.0),
    }
}

fn layer(
    opacity: f32,
    blend_mode: BlendMode,
    filters: Vec<SceneFilter>,
    children: Vec<SceneNode>,
    mask_support: LayerMaskSupport,
) -> SceneNode {
    SceneNode::Layer {
        opacity: f(opacity),
        blend_mode,
        clip: None,
        mask: None,
        mask_mode: MaskMode::Alpha,
        filters,
        has_shadow: false,
        children,
        mask_support,
    }
}

fn stop(position: f32, color: Color) -> GradientStop {
    GradientStop { position: f(position), color }
}

const PIXEL_PNG: &str = "data:image/png;base64,iVBORw0KGgoAAAANSUhEUgAAAAEAAAABCAQAAAC1HAwCAAAAC0lEQVR42mNk+A8AAQUBAScY42YAAAAASUVORK5CYII=";

#[test]
fn gradients_beyond_the_uniform_limit_use_cpu_fallback() {
    let scene = Scene {
        nodes: vec![SceneNode::LinearGradient {
            x: f(0.0),
            y: f(0.0),
            w: f(100.0),
            h: f(100.0),
            angle_deg: f(0.0),
            stops: (0..=MAX_GRADIENT_STOPS)
                .map(|index| GradientStop {
                    position: f(index as f32 / MAX_GRADIENT_STOPS as f32),
                    color: WHITE,
                })
                .collect(),
            inherited_opacity_finite: true,
        }],
    };

    assert!(!gpu_supports_scene(&scene));
}

#[test]
fn invalid_opacity_filter_does_not_enter_gpu_path() {
    let scene = Scene {
        nodes: vec![layer(
            1.0,
            BlendMode::Normal,
            vec![SceneFilter::Opacity { amount: f(1.1) }],
            vec![rect(0.0, 0.0, 1.0, 1.0, WHITE)],
            no_mask_support(),
        )],
    };
    assert!(!gpu_supports_scene(&scene));
}

#[test]
fn gpu_non_normal_blends_accept_opacity_only_filters() {
    assert!(gpu_blend_layer_filters_supported(&[]));
    assert!(gpu_blend_layer_filters_supported(&[SceneFilter::Opacity { amount: f(0.5) }]));
    assert!(!gpu_blend_layer_filters_supported(&[SceneFilter::Brightness { amount: f(1.1) }]));
}

#[test]
fn gpu_color_grading_does_not_claim_mixed_color_filter_order() {
    let filters = [
        SceneFilter::Brightness { amount: f(1.2) },
        SceneFilter::ColorGrading {
            contrast: f(1.1),
            saturation: f(0.9),
            gamma: f(1.2),
            tint: None,
        },
    ];
    assert!(!gpu_layer_effects_supported(&filters, f(1.0)));
}

#[test]
fn unsupported_nodes_trigger_cpu_fallback() {
    let scene = Scene {
        nodes: vec![
            SceneNode::Shader {
                x: f(0.0),
                y: f(0.0),
                w: f(10.0),
                h: f(10.0),
                source: "return vec4<f32>(1.0);".to_string(),
                time: f(0.0),
                params: [f(0.0); 4],
                opacity: f(1.0),
            },
            SceneNode::Text {
                x: f(0.0),
                y: f(20.0),
                content: "text".to_string(),
                font_size: f(20.0),
                color: WHITE,
                font_weight: 400,
                glyphs_ready: true,
            },
        ],
    };
    assert!(!gpu_supports_scene(&scene));

    let image_scene = Scene {
        nodes: vec![SceneNode::Image {
            src: "asset.png".to_string(),
            x: f(0.0),
            y: f(0.0),
            w: f(10.0),
            h: f(10.0),
            fit: ImageFit::Cover,
            opacity: f(1.0),
        }],
    };
    assert!(gpu_supports_scene(&image_scene));

    // "M 0 0 L nope" does not parse, so it cannot be tessellated.
    let invalid_path_scene = Scene {
        nodes: vec![SceneNode::Path {
            d: "M 0 0 L nope".to_string(),
            fill: Some(WHITE),
            stroke: None,
            stroke_width: f(0.0),
            opacity: f(1.0),
            tessellated: false,
        }],
    };
    assert!(!gpu_supports_scene(&invalid_path_scene));
}

#[test]
fn path_strokes_groups_and_multistop_gradients_compile_for_gpu() {
    let scene = Scene {
        nodes: vec![SceneNode::Group {
            opacity: f(0.6),
            transform_finite: true,
            children: vec![
                SceneNode::Path {
                    d: "M 0 0 C 20 0 20 20 40 20 L 40 40 Z".to_string(),
                    fill: Some(Color { r: 255, g: 0, b: 0, a: 255 }),
                    stroke: Some(WHITE),
                    stroke_width: f(3.0),
                    opacity: f(0.8),
                    tessellated: true,
                },
                SceneNode::Rect {
                    x: f(45.0),
                    y: f(0.0),
                    w: f(20.0),
                    h: f(20.0),
                    fill: BLACK,
                    stroke: Some(WHITE),
                    stroke_width: f(2.0),
                    corner_radius: f(4.0),
                },
                SceneNode::Circle {
                    cx: f(75.0),
                    cy: f(10.0),
                    r: f(8.0),
                    fill: BLACK,
                    stroke: Some(WHITE),
                    stroke_width: f(2.0),
                },
                SceneNode::LinearGradient {
                    x: f(0.0),
                    y: f(45.0),
                    w: f(80.0),
                    h: f(20.0),
                    angle_deg: f(90.0),
                    stops: vec![
                        stop(0.0, Color { r: 255, g: 0, b: 0, a: 255 }),
                        stop(0.5, Color { r: 0, g: 255, b: 0, a: 255 }),
                        stop(1.0, Color { r: 0, g: 0, b: 255, a: 255 }),
                    ],
                    inherited_opacity_finite: true,
                },
            ],
        }],
    };
    assert!(gpu_supports_scene(&scene));
    let commands = compile_commands(&scene).unwrap();
    assert_eq!(commands.len(), 5, "path fill/stroke, rect, circle, gradient");
    assert_eq!(
        commands.iter().filter(|command| command.kind == DrawKind::Mesh).count(),
        2
    );
    assert_eq!(commands.last().unwrap().kind, DrawKind::Analytic);
}

#[test]
fn plain_normal_layers_compile_as_gpu_opacity_groups() {
    let scene = Scene {
        nodes: vec![layer(
            0.5,
            BlendMode::Normal,
            vec![SceneFilter::Opacity { amount: f(0.5) }],
            vec![rect(0.0, 0.0, 10.0, 10.0, WHITE)],
            no_mask_support(),
        )],
    };
    assert!(gpu_supports_scene(&scene));
    // The layer is drawn as its child's own instance with the normal blend
    // state; the folded instance opacity (0.5 * 0.5 = 0.25) is a float the
    // caller computes when it fills the instance.
    let commands = compile_commands(&scene).unwrap();
    assert_eq!(commands.len(), 1);
    assert_eq!(commands[0].kind, DrawKind::Analytic);
    assert_eq!(commands[0].blend, 0);
}

#[test]
fn disjoint_texture_layers_compile_as_gpu_opacity_groups() {
    // Images at x = 0 and x = second_x, both 10 wide: disjoint iff second_x >= 10.
    let texture_layer = |second_x: f32| {
        let mut support = no_mask_support();
        support.disjoint_textures = second_x >= 10.0;
        layer(
            0.5,
            BlendMode::Normal,
            Vec::new(),
            vec![image(PIXEL_PNG, 0.0, 10.0), image(PIXEL_PNG, second_x, 10.0)],
            support,
        )
    };
    assert!(gpu_supports_scene(&Scene { nodes: vec![texture_layer(12.0)] }));
    assert!(!gpu_supports_scene(&Scene { nodes: vec![texture_layer(8.0)] }));
    let commands = compile_commands(&Scene { nodes: vec![texture_layer(12.0)] }).unwrap();
    assert_eq!(commands.len(), 2);
    assert!(commands.iter().all(|c| c.kind == DrawKind::Texture && c.blend == 0));
    assert!(compile_commands(&Scene { nodes: vec![texture_layer(8.0)] }).is_none());

    // The second group is translated by 12 and rotated by 5 degrees; its
    // screen bounds start at x = 12 - 10 * sin(5 deg) > 10.
    let mut support = no_mask_support();
    support.disjoint_textures = true;
    let transformed = Scene {
        nodes: vec![layer(
            0.5,
            BlendMode::Normal,
            Vec::new(),
            vec![
                SceneNode::Group {
                    opacity: f(1.0),
                    transform_finite: true,
                    children: vec![image(PIXEL_PNG, 0.0, 10.0)],
                },
                SceneNode::Group {
                    opacity: f(1.0),
                    transform_finite: true,
                    children: vec![image(PIXEL_PNG, 0.0, 10.0)],
                },
            ],
            support,
        )],
    };
    assert!(gpu_supports_scene(&transformed));
}

fn overlapping_layer(filters: Vec<SceneFilter>) -> Scene {
    Scene {
        nodes: vec![layer(
            0.5,
            BlendMode::Normal,
            filters,
            vec![image(PIXEL_PNG, 0.0, 10.0), image(PIXEL_PNG, 8.0, 10.0)],
            no_mask_support(),
        )],
    }
}

#[test]
fn overlapping_texture_layer_reports_offscreen_fallback_reason() {
    let scene = overlapping_layer(Vec::new());
    assert_eq!(
        gpu_fallback_reason(&scene),
        "overlapping texture layer requires offscreen compositing"
    );
    let filtered = overlapping_layer(vec![SceneFilter::Blur { sigma: f(2.0) }]);
    assert!(!has_trailing_overlap_texture_layer(&filtered));

    let opacity_chain = overlapping_layer(vec![
        SceneFilter::Opacity { amount: f(0.8) },
        SceneFilter::Opacity { amount: f(0.5) },
    ]);
    assert!(has_trailing_overlap_texture_layer(&opacity_chain));
}

#[test]
fn fallback_reason_defaults_to_unsupported_nodes() {
    let scene = Scene { nodes: vec![SceneNode::Audio { src: "a.wav".to_string() }] };
    assert_eq!(gpu_fallback_reason(&scene), "scene contains GPU-unsupported nodes or effects");
    // A layer with opaque opacity is not an overlap case.
    let opaque = Scene {
        nodes: vec![layer(
            1.0,
            BlendMode::Normal,
            Vec::new(),
            vec![image(PIXEL_PNG, 0.0, 10.0), image(PIXEL_PNG, 8.0, 10.0)],
            no_mask_support(),
        )],
    };
    assert_eq!(gpu_fallback_reason(&opaque), "scene contains GPU-unsupported nodes or effects");
}

#[test]
fn valid_shader_only_scenes_are_supported() {
    let shader = |opacity: f32, w: f32| SceneNode::Shader {
        x: f(0.0),
        y: f(0.0),
        w: f(w),
        h: f(10.0),
        source: "return vec4<f32>(1.0);".to_string(),
        time: f(0.0),
        params: [f(0.0); 4],
        opacity: f(opacity),
    };
    assert!(gpu_supports_scene(&Scene { nodes: vec![shader(1.0, 10.0), shader(0.5, 4.0)] }));
    assert!(!gpu_supports_scene(&Scene { nodes: vec![shader(1.5, 10.0)] }));
    assert!(!gpu_supports_scene(&Scene { nodes: vec![shader(1.0, 0.0)] }));
    assert!(!gpu_supports_scene(&Scene { nodes: vec![shader(f32::NAN, 10.0)] }));
    // An empty scene compiles to no draws.
    assert!(gpu_supports_scene(&Scene { nodes: Vec::new() }));
}

#[test]
fn gradient_stop_validation_for_mask_gradients() {
    assert!(valid_gpu_gradient_stops(&[stop(0.0, WHITE), stop(1.0, BLACK)]));
    assert!(valid_gpu_gradient_stops(&[stop(-0.0, WHITE), stop(0.5, BLACK), stop(1.0, WHITE)]));
    assert!(valid_gpu_gradient_stops(&[
        stop(0.0, WHITE),
        stop(0.25, BLACK),
        stop(0.25, WHITE),
        stop(1.0, BLACK),
    ]));
    // Too few or too many stops.
    assert!(!valid_gpu_gradient_stops(&[stop(0.0, WHITE)]));
    assert!(!valid_gpu_gradient_stops(&[
        stop(0.0, WHITE),
        stop(0.2, WHITE),
        stop(0.4, WHITE),
        stop(0.6, WHITE),
        stop(1.0, WHITE),
    ]));
    // Must start at 0 and end at 1.
    assert!(!valid_gpu_gradient_stops(&[stop(0.1, WHITE), stop(1.0, BLACK)]));
    assert!(!valid_gpu_gradient_stops(&[stop(0.0, WHITE), stop(0.9, BLACK)]));
    // Positions must not decrease and must be finite.
    assert!(!valid_gpu_gradient_stops(&[stop(0.0, WHITE), stop(0.7, BLACK), stop(0.3, WHITE), stop(1.0, BLACK)]));
    assert!(!valid_gpu_gradient_stops(&[stop(0.0, WHITE), stop(f32::NAN, BLACK), stop(1.0, WHITE)]));
}

#[test]
fn blend_children_exclude_textures_and_layers() {
    let children = vec![
        rect(0.0, 0.0, 1.0, 1.0, WHITE),
        SceneNode::Group {
            opacity: f(1.0),
            transform_finite: true,
            children: vec![SceneNode::Circle {
                cx: f(1.0),
                cy: f(1.0),
                r: f(1.0),
                fill: WHITE,
                stroke: None,
                stroke_width: f(0.0),
            }],
        },
    ];
    assert!(gpu_blend_children_supported(&children));
    let nested_image = vec![SceneNode::Group {
        opacity: f(1.0),
        transform_finite: true,
        children: vec![image(PIXEL_PNG, 0.0, 10.0)],
    }];
    assert!(!gpu_blend_children_supported(&nested_image));
    assert!(gpu_blend_children_supported(&Vec::new()));
}

#[test]
fn multiply_layers_need_blendable_children_and_opacity_only_filters() {
    let multiply = |filters: Vec<SceneFilter>, children: Vec<SceneNode>| Scene {
        nodes: vec![layer(1.0, BlendMode::Multiply, filters, children, no_mask_support())],
    };
    assert!(gpu_supports_scene(&multiply(
        vec![SceneFilter::Opacity { amount: f(0.5) }],
        vec![rect(0.0, 0.0, 4.0, 4.0, WHITE)]
    )));
    assert!(!gpu_supports_scene(&multiply(
        vec![SceneFilter::Brightness { amount: f(1.5) }],
        vec![rect(0.0, 0.0, 4.0, 4.0, WHITE)]
    )));
    assert!(!gpu_supports_scene(&multiply(Vec::new(), vec![image(PIXEL_PNG, 0.0, 10.0)])));
    // Blend modes without a fixed-function pipeline fall back.
    assert!(!gpu_supports_scene(&Scene {
        nodes: vec![layer(
            1.0,
            BlendMode::Overlay,
            Vec::new(),
            vec![rect(0.0, 0.0, 4.0, 4.0, WHITE)],
            no_mask_support()
        )],
    }));
}

#[test]
fn path_mask_texture_serves_one_layer_per_frame() {
    let path_clip_layer = || {
        let mut support = no_mask_support();
        support.clip_path_mask = true;
        SceneNode::Layer {
            opacity: f(1.0),
            blend_mode: BlendMode::Normal,
            clip: Some(ClipRegion::Path { d: "M 4 4 L 28 4 L 16 28 Z".to_string() }),
            mask: None,
            mask_mode: MaskMode::Alpha,
            filters: Vec::new(),
            has_shadow: false,
            children: vec![rect(0.0, 0.0, 32.0, 32.0, WHITE)],
            mask_support: support,
        }
    };
    assert!(gpu_supports_scene(&Scene { nodes: vec![path_clip_layer()] }));
    // The second path-clipped layer finds the path-mask texture taken and has
    // no rectangular clip to fall back on.
    assert!(!gpu_supports_scene(&Scene { nodes: vec![path_clip_layer(), path_clip_layer()] }));

    let mut rect_support = no_mask_support();
    rect_support.clip_rect = true;
    let rect_clip_layer = SceneNode::Layer {
        opacity: f(1.0),
        blend_mode: BlendMode::Normal,
        clip: Some(ClipRegion::Rect {
            x: f(4.0),
            y: f(4.0),
            w: f(16.0),
            h: f(16.0),
            corner_radius: f(0.0),
        }),
        mask: None,
        mask_mode: MaskMode::Alpha,
        filters: Vec::new(),
        has_shadow: false,
        children: vec![rect(0.0, 0.0, 32.0, 32.0, WHITE)],
        mask_support: rect_support,
    };
    assert!(gpu_supports_scene(&Scene { nodes: vec![path_clip_layer(), rect_clip_layer] }));
}

#[test]
fn media_nodes_check_their_own_parameters() {
    let video = |time: f64, opacity: f32| SceneNode::Video {
        src: "clip.mkv".to_string(),
        time: time.to_bits(),
        looped: false,
        x: f(0.0),
        y: f(0.0),
        w: f(16.0),
        h: f(16.0),
        fit: ImageFit::Contain,
        opacity: f(opacity),
    };
    assert!(gpu_supports_scene(&Scene { nodes: vec![video(0.5, 1.0)] }));
    assert!(!gpu_supports_scene(&Scene { nodes: vec![video(-0.5, 1.0)] }));
    assert!(!gpu_supports_scene(&Scene { nodes: vec![video(f64::INFINITY, 1.0)] }));
    assert!(!gpu_supports_scene(&Scene { nodes: vec![video(0.5, -0.25)] }));

    let emoji = |size: f32, ready: bool| SceneNode::Emoji {
        emoji: "😀".to_string(),
        x: f(0.0),
        y: f(0.0),
        size: f(size),
        opacity: f(1.0),
        image_ready: ready,
    };
    assert!(gpu_supports_scene(&Scene { nodes: vec![emoji(32.0, true)] }));
    assert!(!gpu_supports_scene(&Scene { nodes: vec![emoji(32.0, false)] }));
    assert!(!gpu_supports_scene(&Scene { nodes: vec![emoji(0.0, true)] }));
}

fn masked_layer(
    clip: Option<ClipRegion>,
    mask: Option<Vec<SceneNode>>,
    mask_mode: MaskMode,
    support: LayerMaskSupport,
) -> Scene {
    Scene {
        nodes: vec![SceneNode::Layer {
            opacity: f(1.0),
            blend_mode: BlendMode::Normal,
            clip,
            mask,
            mask_mode,
            filters: vec![],
            has_shadow: false,
            children: vec![rect(0.0, 0.0, 10.0, 10.0, WHITE)],
            mask_support: support,
        }],
    }
}

fn exact_slots() -> LayerMaskSupport {
    LayerMaskSupport { clip_rect: true, mask_shapes: true, ..no_mask_support() }
}

#[test]
fn analytic_masks_need_slot_shapes_and_exact_geometry() {
    let shapes = || vec![rect(0.0, 0.0, 5.0, 5.0, WHITE)];
    assert!(gpu_supports_scene(&masked_layer(None, Some(shapes()), MaskMode::Alpha, exact_slots())));
    // The same mask under a transform that would distort the slot.
    assert!(!gpu_supports_scene(&masked_layer(None, Some(shapes()), MaskMode::Alpha, no_mask_support())));
    // A coloured solid cannot be read through its luminance.
    let red = vec![rect(0.0, 0.0, 5.0, 5.0, Color { r: 255, g: 0, b: 0, a: 255 })];
    assert!(!gpu_supports_scene(&masked_layer(None, Some(red), MaskMode::Luminance, exact_slots())));
    // Textures never become mask slots.
    let textured = vec![image("mask.png", 0.0, 5.0)];
    assert!(!gpu_supports_scene(&masked_layer(None, Some(textured), MaskMode::Alpha, exact_slots())));
}

#[test]
fn rectangular_clips_need_a_valid_rectangle() {
    let clip = |w: f32| ClipRegion::Rect { x: f(0.0), y: f(0.0), w: f(w), h: f(4.0), corner_radius: f(1.0) };
    assert!(gpu_supports_scene(&masked_layer(Some(clip(4.0)), None, MaskMode::Alpha, exact_slots())));
    assert!(!gpu_supports_scene(&masked_layer(Some(clip(0.0)), None, MaskMode::Alpha, exact_slots())));
    assert!(!gpu_supports_scene(&masked_layer(Some(clip(4.0)), None, MaskMode::Alpha, no_mask_support())));
}

fn mask_path(fill: Option<Color>, stroke: Option<Color>, stroke_width: f32) -> SceneNode {
    SceneNode::Path {
        d: "M 0 0 L 10 0 L 5 10 Z".to_string(),
        fill,
        stroke,
        stroke_width: f(stroke_width),
        opacity: f(1.0),
        tessellated: true,
    }
}

#[test]
fn path_masks_take_a_fill_or_a_stroke_but_not_both() {
    let support = LayerMaskSupport { mask_path: true, ..no_mask_support() };
    let layer = |node: SceneNode| masked_layer(None, Some(vec![node]), MaskMode::Alpha, support);
    assert!(gpu_supports_scene(&layer(mask_path(Some(WHITE), None, 0.0))));
    assert!(gpu_supports_scene(&layer(mask_path(None, Some(WHITE), 2.0))));
    assert!(!gpu_supports_scene(&layer(mask_path(Some(WHITE), Some(BLACK), 2.0))));
    assert!(!gpu_supports_scene(&layer(mask_path(Some(WHITE), None, 1.0))));
    assert!(!gpu_supports_scene(&layer(mask_path(None, Some(WHITE), 0.0))));
}

#[test]
fn disjoint_bounds_only_help_layers_made_of_textures() {
    let support = LayerMaskSupport { disjoint_textures: true, ..no_mask_support() };
    let mixed = layer(
        0.5,
        BlendMode::Normal,
        Vec::new(),
        vec![image(PIXEL_PNG, 0.0, 10.0), rect(20.0, 0.0, 5.0, 5.0, WHITE)],
        support,
    );
    assert!(!gpu_supports_scene(&Scene { nodes: vec![mixed] }));
    let zero_width = layer(
        0.5,
        BlendMode::Normal,
        Vec::new(),
        vec![image(PIXEL_PNG, 0.0, 10.0), image(PIXEL_PNG, 20.0, 0.0)],
        support,
    );
    assert!(!gpu_supports_scene(&Scene { nodes: vec![zero_width] }));
}

#[test]
fn top_level_blend_layers_flag_the_frame() {
    let plain = Scene { nodes: vec![rect(0.0, 0.0, 1.0, 1.0, WHITE)] };
    assert!(!scene_uses_blend_layers(&plain));
    let normal = Scene {
        nodes: vec![layer(1.0, BlendMode::Normal, Vec::new(), vec![], no_mask_support())],
    };
    assert!(!scene_uses_blend_layers(&normal));
    for mode in [BlendMode::Multiply, BlendMode::Screen, BlendMode::Darken, BlendMode::Lighten] {
        let scene = Scene {
            nodes: vec![
                rect(0.0, 0.0, 1.0, 1.0, WHITE),
                layer(1.0, mode, Vec::new(), vec![], no_mask_support()),
            ],
        };
        assert!(scene_uses_blend_layers(&scene));
    }
    let nested = Scene {
        nodes: vec![SceneNode::Group {
            opacity: f(1.0),
            transform_finite: true,
            children: vec![layer(1.0, BlendMode::Multiply, Vec::new(), vec![], no_mask_support())],
        }],
    };
    assert!(!scene_uses_blend_layers(&nested));
    let overlay = Scene {
        nodes: vec![layer(1.0, BlendMode::Overlay, Vec::new(), vec![], no_mask_support())],
    };
    assert!(!scene_uses_blend_layers(&overlay));
}

#[test]
fn blend_layers_stamp_their_blend_code_on_every_child_command() {
    let codes = [
        (BlendMode::Multiply, 1u32),
        (BlendMode::Screen, 2),
        (BlendMode::Darken, 3),
        (BlendMode::Lighten, 4),
    ];
    for (mode, code) in codes {
        let scene = Scene {
            nodes: vec![
                rect(0.0, 0.0, 4.0, 4.0, WHITE),
                layer(
                    1.0,
                    mode,
                    Vec::new(),
                    vec![rect(0.0, 0.0, 10.0, 10.0, WHITE), rect(5.0, 5.0, 10.0, 10.0, BLACK)],
                    no_mask_support(),
                ),
                rect(8.0, 8.0, 4.0, 4.0, BLACK),
            ],
        };
        let commands = compile_commands(&scene).unwrap();
        let blends: Vec<u32> = commands.iter().map(|c| c.blend).collect();
        assert_eq!(blends, vec![0, code, code, 0]);
        assert!(commands.iter().all(|c| c.kind == DrawKind::Analytic));
    }
}

#[test]
fn scenes_the_gpu_rejects_compile_to_no_commands() {
    let scene = Scene {
        nodes: vec![
            rect(0.0, 0.0, 4.0, 4.0, WHITE),
            layer(
                0.5,
                BlendMode::Normal,
                Vec::new(),
                vec![image(PIXEL_PNG, 0.0, 10.0), image(PIXEL_PNG, 8.0, 10.0)],
                no_mask_support(),
            ),
        ],
    };
    assert!(!gpu_supports_scene(&scene));
    assert!(compile_commands(&scene).is_none());
    let empty = Scene { nodes: Vec::new() };
    assert_eq!(compile_commands(&empty).unwrap().len(), 0);
}

#[test]
fn a_compiled_base_stops_before_the_trailing_nodes() {
    let scene = Scene {
        nodes: vec![
            rect(0.0, 0.0, 4.0, 4.0, WHITE),
            rect(4.0, 4.0, 4.0, 4.0, BLACK),
            layer(
                0.5,
                BlendMode::Normal,
                Vec::new(),
                vec![image(PIXEL_PNG, 0.0, 10.0), image(PIXEL_PNG, 8.0, 10.0)],
                no_mask_support(),
            ),
        ],
    };
    assert_eq!(compile_base_commands(&scene, 0).unwrap().len(), 0);
    assert_eq!(compile_base_commands(&scene, 2).unwrap().len(), 2);
    assert!(compile_base_commands(&scene, 3).is_none());
    assert!(compile_commands(&scene).is_none());
}
