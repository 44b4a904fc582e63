//! The draw commands a scene compiles into, as far as drawing decides:
//! their kinds and blend codes, in painter's order.
//!
//! Rectangles, circles and gradients become analytic commands; a path
//! becomes one mesh for its fill and one for its stroke; media nodes become
//! textured quads and text becomes an atlas draw; groups contribute their
//! children's commands. A layer contributes its children's commands; when
//! its children are drawn directly with the layer's blend state (the
//! path-mask and instance strategies) every one of them carries the
//! layer's blend code. Compilation succeeds exactly when `nodes_compile`
//! says so (`lemma_commands_follow_compile`).
use vstd::prelude::*;
use crate::draw_batches::{blend_pipeline_of, BlendPipeline, DrawCommandSummary, DrawKind};
use crate::frame_route::{first_shader_from, gpu_base_len, lemma_first_shader_is_shader, planned_route, FrameRoute};
use crate::float_bits::{f32_bits_finite, f32_bits_lt, f32_is_finite, f32_le, f32_lt, F32_ONE, F32_ZERO};
use crate::gpu_support::{
    compile_node, disjoint_textures, gpu_blend_mode, gpu_blend_children_supported,
    gpu_blend_layer_filters_supported, gpu_layer_effects_supported, is_gpu_blend_mode,
    is_single_path_mask, lemma_compile_none_absorbs, layer_clip_rect_applies, layer_effects_ok,
    layer_instances_apply, layer_path_clip_applies, layer_path_mask_applies, mask_slots_ok,
    node_compiles, nodes_compile, rect_clip_shape_ok,
};
use crate::scene::{BlendMode, Color, ClipRegion, LayerMaskSupport, MaskMode, Scene, SceneFilter, SceneNode};

verus! {

pub open spec fn command(kind: DrawKind, blend: u32) -> DrawCommandSummary {
    DrawCommandSummary { kind, blend }
}

/// The blend code a layer's blend mode packs into its children's commands
/// (0 normal, 1 multiply, 2 screen, 3 darken, 4 lighten).
pub open spec fn blend_code(mode: BlendMode) -> u32 {
    match mode {
        BlendMode::Multiply => 1,
        BlendMode::Screen => 2,
        BlendMode::Darken => 3,
        BlendMode::Lighten => 4,
        _ => 0,
    }
}

/// The commands with every blend code replaced by `code`.
pub open spec fn with_blend(cmds: Seq<DrawCommandSummary>, code: u32) -> Seq<DrawCommandSummary> {
    cmds.map_values(|c: DrawCommandSummary| command(c.kind, code))
}

/// The commands of a node other than a group or a layer.
pub open spec fn leaf_commands(node: SceneNode) -> Seq<DrawCommandSummary> {
    match node {
        SceneNode::Rect { .. } | SceneNode::Circle { .. } => seq![command(DrawKind::Analytic, 0)],
        SceneNode::Path { fill, stroke, stroke_width, .. } => (if fill is Some {
            seq![command(DrawKind::Mesh, 0)]
        } else {
            Seq::empty()
        }) + (if stroke is Some && f32_bits_lt(F32_ZERO, stroke_width) {
            seq![command(DrawKind::Mesh, 0)]
        } else {
            Seq::empty()
        }),
        SceneNode::LinearGradient { stops, .. } | SceneNode::RadialGradient { stops, .. } => if stops@.len()
            == 0 {
            Seq::empty()
        } else {
            seq![command(DrawKind::Analytic, 0)]
        },
        SceneNode::Image { .. } | SceneNode::Video { .. } | SceneNode::Lottie { .. }
        | SceneNode::Gif { .. } | SceneNode::Emoji { .. } | SceneNode::AudioVisualizer { .. } => seq![
            command(DrawKind::Texture, 0),
        ],
        SceneNode::Text { .. } => seq![command(DrawKind::Text, 0)],
        _ => Seq::empty(),
    }
}

/// The commands of one node and the path-mask state after it, or `None`
/// when the node needs the CPU fallback.
pub open spec fn node_commands(node: SceneNode, mask_free: bool) -> Option<
    (Seq<DrawCommandSummary>, bool),
>
    decreases node,
{
    match node {
        SceneNode::Group { opacity, children, transform_finite } => if !transform_finite
            || !f32_bits_finite(opacity) {
            None
        } else {
            nodes_commands(children@, mask_free)
        },
        SceneNode::Layer {
            opacity,
            blend_mode,
            clip,
            mask,
            mask_mode,
            filters,
            has_shadow,
            children,
            mask_support,
        } => {
            let effects = layer_effects_ok(filters@, opacity);
            if layer_path_clip_applies(
                blend_mode,
                clip,
                mask,
                mask_mode,
                has_shadow,
                effects,
                mask_support,
                mask_free,
            ) {
                match nodes_commands(children@, mask_free) {
                    Some((cmds, _)) => Some((cmds, false)),
                    None => None,
                }
            } else if layer_path_mask_applies(
                blend_mode,
                clip,
                mask,
                has_shadow,
                filters@,
                children@,
                effects,
                mask_support,
                mask_free,
            ) {
                match nodes_commands(children@, mask_free) {
                    Some((cmds, _)) => Some((with_blend(cmds, blend_code(blend_mode)), false)),
                    None => None,
                }
            } else if layer_instances_apply(
                opacity,
                blend_mode,
                clip,
                mask,
                mask_mode,
                has_shadow,
                filters@,
                children@,
                effects,
                mask_support,
            ) {
                match nodes_commands(children@, mask_free) {
                    Some((cmds, free)) => Some((with_blend(cmds, blend_code(blend_mode)), free)),
                    None => None,
                }
            } else if layer_clip_rect_applies(
                blend_mode,
                clip,
                mask,
                mask_mode,
                has_shadow,
                effects,
                mask_support,
            ) {
                nodes_commands(children@, mask_free)
            } else {
                None
            }
        },
        _ => match node_compiles(node, mask_free) {
            Some(free) => Some((leaf_commands(node), free)),
            None => None,
        },
    }
}

/// The commands of a node list in order, threading the path-mask state.
pub open spec fn nodes_commands(nodes: Seq<SceneNode>, mask_free: bool) -> Option<
    (Seq<DrawCommandSummary>, bool),
>
    decreases nodes,
{
    if nodes.len() == 0 {
        Some((Seq::empty(), mask_free))
    } else {
        match nodes_commands(nodes.drop_last(), mask_free) {
            Some((cmds, free)) => match node_commands(nodes.last(), free) {
                Some((more, after)) => Some((cmds + more, after)),
                None => None,
            },
            None => None,
        }
    }
}

pub open spec fn outcome_of(r: Option<(Seq<DrawCommandSummary>, bool)>) -> Option<bool> {
    match r {
        Some((_, free)) => Some(free),
        None => None,
    }
}

/// The command list succeeds exactly when compilation does, with the same
/// path-mask state.
pub proof fn lemma_commands_follow_compile(node: SceneNode, mask_free: bool)
    ensures
        outcome_of(node_commands(node, mask_free)) == node_compiles(node, mask_free),
    decreases node,
{
    match node {
        SceneNode::Group { children, .. } => {
            lemma_nodes_commands_follow_compile(children@, mask_free);
        },
        SceneNode::Layer { children, .. } => {
            lemma_nodes_commands_follow_compile(children@, mask_free);
        },
        _ => {},
    }
}

/// `lemma_commands_follow_compile` for node lists.
pub proof fn lemma_nodes_commands_follow_compile(nodes: Seq<SceneNode>, mask_free: bool)
    ensures
        outcome_of(nodes_commands(nodes, mask_free)) == nodes_compile(nodes, mask_free),
    decreases nodes,
{
    if nodes.len() > 0 {
        lemma_nodes_commands_follow_compile(nodes.drop_last(), mask_free);
        match nodes_commands(nodes.drop_last(), mask_free) {
            Some((_, free)) => {
                lemma_commands_follow_compile(nodes.last(), free);
            },
            None => {},
        }
    }
}


fn blend_code_exec(mode: BlendMode) -> (r: u32)
    ensures
        r == blend_code(mode),
{
    match mode {
        BlendMode::Multiply => 1,
        BlendMode::Screen => 2,
        BlendMode::Darken => 3,
        BlendMode::Lighten => 4,
        _ => 0,
    }
}

/// Appends the commands of a node other than a group or a layer.
fn push_leaf_commands(node: &SceneNode, out: &mut Vec<DrawCommandSummary>)
    ensures
        final(out)@ == old(out)@ + leaf_commands(*node),
{
    let ghost base = out@;
    match node {
        SceneNode::Rect { .. } | SceneNode::Circle { .. } => {
            out.push(DrawCommandSummary { kind: DrawKind::Analytic, blend: 0 });
        },
        SceneNode::Path { fill, stroke, stroke_width, .. } => {
            if fill.is_some() {
                out.push(DrawCommandSummary { kind: DrawKind::Mesh, blend: 0 });
            }
            if stroke.is_some() && f32_lt(F32_ZERO, *stroke_width) {
                out.push(DrawCommandSummary { kind: DrawKind::Mesh, blend: 0 });
            }
        },
        SceneNode::LinearGradient { stops, .. } | SceneNode::RadialGradient { stops, .. } => {
            if stops.len() > 0 {
                out.push(DrawCommandSummary { kind: DrawKind::Analytic, blend: 0 });
            }
        },
        SceneNode::Image { .. }
        | SceneNode::Video { .. }
        | SceneNode::Lottie { .. }
        | SceneNode::Gif { .. }
        | SceneNode::Emoji { .. }
        | SceneNode::AudioVisualizer { .. } => {
            out.push(DrawCommandSummary { kind: DrawKind::Texture, blend: 0 });
        },
        SceneNode::Text { .. } => {
            out.push(DrawCommandSummary { kind: DrawKind::Text, blend: 0 });
        },
        _ => {},
    }
    assert(out@ =~= base + leaf_commands(*node));
}

/// Rewrites the blend code of every command from `start` on.
fn set_blend_from(out: &mut Vec<DrawCommandSummary>, start: usize, code: u32)
    requires
        start <= old(out)@.len(),
    ensures
        final(out)@ == old(out)@.take(start as int) + with_blend(
            old(out)@.skip(start as int),
            code,
        ),
{
    let ghost before = out@;
    let mut k: usize = start;
    while k < out.len()
        invariant
            start <= k <= out@.len(),
            out@.len() == before.len(),
            forall|j: int| 0 <= j < start ==> out@[j] == before[j],
            forall|j: int| start <= j < k ==> out@[j] == command(before[j].kind, code),
            forall|j: int| k <= j < out@.len() ==> out@[j] == before[j],
        decreases out@.len() - k,
    {
        let kind = out[k].kind;
        out.set(k, DrawCommandSummary { kind, blend: code });
        k = k + 1;
    }
    assert(out@ =~= before.take(start as int) + with_blend(before.skip(start as int), code));
}

/// Appends the commands of a layer (see `node_commands`).
fn append_layer_commands(
    opacity: u32,
    blend_mode: BlendMode,
    clip: &Option<ClipRegion>,
    mask: &Option<Vec<SceneNode>>,
    mask_mode: MaskMode,
    filters: &Vec<SceneFilter>,
    has_shadow: bool,
    children: &Vec<SceneNode>,
    mask_support: LayerMaskSupport,
    mask_free: bool,
    out: &mut Vec<DrawCommandSummary>,
) -> (r: Option<bool>)
    ensures
        match node_commands(
            SceneNode::Layer {
                opacity,
                blend_mode,
                clip: *clip,
                mask: *mask,
                mask_mode,
                filters: *filters,
                has_shadow,
                children: *children,
                mask_support,
            },
            mask_free,
        ) {
            Some((cmds, free)) => r == Some(free) && final(out)@ == old(out)@ + cmds,
            None => r is None,
        },
        old(out)@.is_prefix_of(final(out)@),
    decreases children, 1nat,
{
    let ghost base = out@;
    let start = out.len();
    let effects = gpu_layer_effects_supported(filters.as_slice(), opacity);
    let is_normal = blend_mode == BlendMode::Normal;
    let path_clip = is_normal && match clip {
        Some(ClipRegion::Path { .. }) => true,
        _ => false,
    } && mask.is_none() && mask_mode == MaskMode::Alpha && !has_shadow && mask_free && effects
        && mask_support.clip_path_mask;
    if path_clip {
        return match append_nodes_commands(children, mask_free, out) {
            Some(_) => Some(false),
            None => None,
        };
    }
    let path_mask = clip.is_none() && is_single_path_mask(mask) && !has_shadow && mask_free && (
    is_normal || blend_mode == BlendMode::Multiply) && (is_normal
        || gpu_blend_layer_filters_supported(filters.as_slice())) && gpu_blend_children_supported(
        children,
    ) && effects && mask_support.mask_path;
    if path_mask {
        return match append_nodes_commands(children, mask_free, out) {
            Some(_) => {
                proof {
                    assert(out@.take(start as int) =~= base);
                }
                set_blend_from(out, start, blend_code_exec(blend_mode));
                Some(false)
            },
            None => None,
        };
    }
    let strategy_ok = if is_normal {
        f32_le(F32_ONE, opacity) || disjoint_textures(children, mask_support.disjoint_textures)
            || gpu_blend_children_supported(children)
    } else {
        gpu_blend_layer_filters_supported(filters.as_slice()) && gpu_blend_children_supported(
            children,
        )
    };
    let instances = !has_shadow && effects && is_gpu_blend_mode(blend_mode) && strategy_ok && (
    clip.is_none() || (rect_clip_shape_ok(clip) && mask_support.clip_rect)) && mask_slots_ok(
        mask,
        mask_mode,
        mask_support.mask_shapes,
    );
    if instances {
        return match append_nodes_commands(children, mask_free, out) {
            Some(free) => {
                proof {
                    assert(out@.take(start as int) =~= base);
                }
                set_blend_from(out, start, blend_code_exec(blend_mode));
                Some(free)
            },
            None => None,
        };
    }
    let clip_rect = is_normal && clip.is_some() && mask.is_none() && mask_mode == MaskMode::Alpha
        && !has_shadow && effects && rect_clip_shape_ok(clip) && mask_support.clip_rect;
    if clip_rect {
        append_nodes_commands(children, mask_free, out)
    } else {
        None
    }
}

/// Appends the commands of one node (see `node_commands`).
fn append_node_commands(node: &SceneNode, mask_free: bool, out: &mut Vec<DrawCommandSummary>) -> (r:
    Option<bool>)
    ensures
        match node_commands(*node, mask_free) {
            Some((cmds, free)) => r == Some(free) && final(out)@ == old(out)@ + cmds,
            None => r is None,
        },
        old(out)@.is_prefix_of(final(out)@),
    decreases node, 2nat,
{
    match node {
        SceneNode::Group { opacity, children, transform_finite } => {
            if !*transform_finite || !f32_is_finite(*opacity) {
                return None;
            }
            append_nodes_commands(children, mask_free, out)
        },
        SceneNode::Layer {
            opacity,
            blend_mode,
            clip,
            mask,
            mask_mode,
            filters,
            has_shadow,
            children,
            mask_support,
        } => append_layer_commands(
            *opacity,
            *blend_mode,
            clip,
            mask,
            *mask_mode,
            filters,
            *has_shadow,
            children,
            *mask_support,
            mask_free,
            out,
        ),
        _ => {
            let r = compile_node(node, mask_free);
            if r.is_some() {
                push_leaf_commands(node, out);
            }
            r
        },
    }
}

/// Appends the commands of a node list in order (see `nodes_commands`);
/// stops at the first node that needs the CPU fallback.
fn append_nodes_commands(
    nodes: &Vec<SceneNode>,
    mask_free: bool,
    out: &mut Vec<DrawCommandSummary>,
) -> (r: Option<bool>)
    ensures
        match nodes_commands(nodes@, mask_free) {
            Some((cmds, free)) => r == Some(free) && final(out)@ == old(out)@ + cmds,
            None => r is None,
        },
        old(out)@.is_prefix_of(final(out)@),
    decreases nodes, 0nat,
{
    let ghost base = out@;
    let mut state: bool = mask_free;
    let mut i: usize = 0;
    assert(out@ =~= base + Seq::<DrawCommandSummary>::empty());
    while i < nodes.len()
        invariant
            i <= nodes@.len(),
            match nodes_commands(nodes@.take(i as int), mask_free) {
                Some((cmds, free)) => free == state && out@ == base + cmds,
                None => false,
            },
            base == old(out)@,
        decreases nodes@.len() - i,
    {
        let ghost before_state = state;
        let ghost prev = out@;
        let next = append_node_commands(&nodes[i], state, out);
        assert(nodes@.take(i + 1).drop_last() =~= nodes@.take(i as int));
        assert(nodes@.take(i + 1).last() == nodes@[i as int]);
        match next {
            Some(free) => {
                state = free;
                proof {
                    let cmds = nodes_commands(nodes@.take(i as int), mask_free).unwrap().0;
                    let more = node_commands(nodes@[i as int], before_state).unwrap().0;
                    assert((base + cmds) + more =~= base + (cmds + more));
                }
            },
            None => {
                proof {
                    lemma_nodes_commands_follow_compile(nodes@.take(i + 1), mask_free);
                    lemma_compile_none_absorbs(nodes@, mask_free, i + 1);
                    lemma_nodes_commands_follow_compile(nodes@, mask_free);
                    assert(out@.subrange(0, base.len() as int) =~= prev.subrange(
                        0,
                        base.len() as int,
                    ));
                    assert(prev.subrange(0, base.len() as int) =~= base);
                }
                return None;
            },
        }
        i = i + 1;
    }
    assert(nodes@.take(i as int) =~= nodes@);
    Some(state)
}

/// The draw commands of the scene's first `base_len` nodes, in painter's
/// order, or `None` when those nodes need the CPU fallback.
pub fn compile_base_commands(scene: &Scene, base_len: usize) -> (r: Option<Vec<DrawCommandSummary>>)
    requires
        base_len <= scene.nodes@.len(),
    ensures
        match nodes_commands(scene.nodes@.take(base_len as int), true) {
            Some((cmds, _)) => r matches Some(v) && v@ == cmds,
            None => r is None,
        },
{
    let nodes = &scene.nodes;
    let ghost prefix = nodes@.take(base_len as int);
    let mut out: Vec<DrawCommandSummary> = Vec::new();
    let mut state: bool = true;
    let mut i: usize = 0;
    while i < base_len
        invariant
            base_len <= nodes@.len(),
            prefix == nodes@.take(base_len as int),
            prefix == scene.nodes@.take(base_len as int),
            i <= base_len,
            match nodes_commands(prefix.take(i as int), true) {
                Some((cmds, free)) => free == state && out@ == cmds,
                None => false,
            },
        decreases base_len - i,
    {
        let ghost before_state = state;
        let next = append_node_commands(&nodes[i], state, &mut out);
        assert(prefix.take(i + 1).drop_last() =~= prefix.take(i as int));
        assert(prefix.take(i + 1).last() == nodes@[i as int]);
        match next {
            Some(free) => {
                state = free;
            },
            None => {
                proof {
                    assert(node_commands(prefix.take(i + 1).last(), before_state) is None);
                    assert(nodes_commands(prefix.take(i + 1), true) is None);
                    lemma_nodes_commands_follow_compile(prefix.take(i + 1), true);
                    lemma_compile_none_absorbs(prefix, true, i + 1);
                    lemma_nodes_commands_follow_compile(prefix, true);
                }
                return None;
            },
        }
        i = i + 1;
    }
    assert(prefix.take(i as int) =~= prefix);
    Some(out)
}

/// The draw commands of a scene, in painter's order, or `None` when the
/// scene needs the CPU fallback.
pub fn compile_commands(scene: &Scene) -> (r: Option<Vec<DrawCommandSummary>>)
    ensures
        match nodes_commands(scene.nodes@, true) {
            Some((cmds, _)) => r matches Some(v) && v@ == cmds,
            None => r is None,
        },
{
    assert(scene.nodes@.take(scene.nodes@.len() as int) =~= scene.nodes@);
    compile_base_commands(scene, scene.nodes.len())
}

/// A frame routed to the GPU has draw commands for the nodes its route
/// compiles, and a frame routed to the CPU fallback has none for them.
pub proof fn lemma_route_matches_commands(
    nodes: Seq<SceneNode>,
    within: Seq<bool>,
    width: u32,
    height: u32,
    max_dimension: u32,
)
    requires
        nodes.len() <= usize::MAX,
    ensures
        planned_route(nodes, within, width, height, max_dimension) matches FrameRoute::Gpu {
            base_len,
        } ==> nodes_commands(nodes.take(base_len as int), true) is Some,
        planned_route(nodes, within, width, height, max_dimension) matches FrameRoute::CpuFallback {
            base_len,
            ..
        } ==> nodes_commands(nodes.take(base_len as int), true) is None,
{
    let base = gpu_base_len(nodes, within);
    if first_shader_from(nodes, 0) is Some {
        lemma_first_shader_is_shader(nodes, 0);
    }
    assert(0 <= base <= nodes.len());
    lemma_nodes_commands_follow_compile(nodes.take(base), true);
}


/// A tessellated path draws one mesh for its fill when it has a fill, and
/// one mesh for its outline when it has a stroke of positive width, each
/// independently of the other, and nothing else; a scene of that one path
/// compiles to exactly these commands.
pub proof fn lemma_path_meshes(
    d: String,
    fill: Option<Color>,
    stroke: Option<Color>,
    stroke_width: u32,
    opacity: u32,
    mask_free: bool,
)
    ensures
        ({
            let node = SceneNode::Path { d, fill, stroke, stroke_width, opacity, tessellated: true };
            let outline = stroke is Some && f32_bits_lt(F32_ZERO, stroke_width);
            let meshes = (if fill is Some {
                1int
            } else {
                0int
            }) + (if outline {
                1int
            } else {
                0int
            });
            &&& node_commands(node, mask_free) matches Some((cmds, free)) && free == mask_free
                && cmds.len() == meshes && forall|j: int|
                0 <= j < cmds.len() ==> #[trigger] cmds[j] == command(DrawKind::Mesh, 0)
            &&& nodes_commands(seq![node], true) matches Some((cmds, _)) && cmds.len() == meshes
                && forall|j: int| 0 <= j < cmds.len() ==> #[trigger] cmds[j] == command(DrawKind::Mesh, 0)
        }),
{
    let node = SceneNode::Path { d, fill, stroke, stroke_width, opacity, tessellated: true };
    let cmds = leaf_commands(node);
    let mesh = command(DrawKind::Mesh, 0);
    let a: Seq<DrawCommandSummary> = if fill is Some {
        seq![mesh]
    } else {
        Seq::empty()
    };
    let b: Seq<DrawCommandSummary> = if stroke is Some && f32_bits_lt(F32_ZERO, stroke_width) {
        seq![mesh]
    } else {
        Seq::empty()
    };
    assert(cmds == a + b);
    assert forall|j: int| 0 <= j < cmds.len() implies #[trigger] cmds[j] == mesh by {
        if j < a.len() {
            assert(cmds[j] == a[j]);
        } else {
            assert(cmds[j] == b[j - a.len()]);
        }
    }
    assert(node_commands(node, mask_free) == Some((cmds, mask_free)));
    assert(seq![node].drop_last() =~= Seq::<SceneNode>::empty());
    assert(seq![node].last() == node);
    assert(node_commands(node, true) == Some((cmds, true)));
    assert(nodes_commands(seq![node].drop_last(), true) == Some((Seq::<DrawCommandSummary>::empty(), true)));
    assert(Seq::<DrawCommandSummary>::empty() + cmds =~= cmds);
    assert(nodes_commands(seq![node], true) == Some((cmds, true)));
}

/// A layer's blend code selects the draw pipeline of the layer's own blend
/// mode, for every blend mode the GPU draws.
pub proof fn lemma_blend_code_selects_the_layer_pipeline(mode: BlendMode)
    requires
        gpu_blend_mode(mode),
    ensures
        blend_pipeline_of(blend_code(mode)) == match mode {
            BlendMode::Multiply => BlendPipeline::Multiply,
            BlendMode::Screen => BlendPipeline::Screen,
            BlendMode::Darken => BlendPipeline::Darken,
            BlendMode::Lighten => BlendPipeline::Lighten,
            _ => BlendPipeline::Normal,
        },
        mode == BlendMode::Normal <==> blend_code(mode) == 0,
{
}

/// What each kind of node other than a group or a layer draws, all with
/// the normal blend state: shapes and gradients are evaluated analytically
/// (a gradient without stops draws nothing), media nodes are textured
/// quads, text is an atlas draw, paths are meshes, and audio and shader
/// nodes add no command.
pub proof fn lemma_leaf_command_kinds(node: SceneNode)
    ensures
        forall|j: int|
            0 <= j < leaf_commands(node).len() ==> (#[trigger] leaf_commands(node)[j]).blend == 0,
        (node is Rect || node is Circle) ==> leaf_commands(node) == seq![
            command(DrawKind::Analytic, 0),
        ],
        node matches SceneNode::LinearGradient { stops, .. } ==> leaf_commands(node) == (if stops@.len()
            == 0 {
            Seq::empty()
        } else {
            seq![command(DrawKind::Analytic, 0)]
        }),
        node matches SceneNode::RadialGradient { stops, .. } ==> leaf_commands(node) == (if stops@.len()
            == 0 {
            Seq::empty()
        } else {
            seq![command(DrawKind::Analytic, 0)]
        }),
        (node is Image || node is Video || node is Lottie || node is Gif || node is Emoji
            || node is AudioVisualizer) ==> leaf_commands(node) == seq![command(DrawKind::Texture, 0)],
        node is Text ==> leaf_commands(node) == seq![command(DrawKind::Text, 0)],
        node is Path ==> forall|j: int|
            0 <= j < leaf_commands(node).len() ==> (#[trigger] leaf_commands(node)[j]).kind
                == DrawKind::Mesh,
        (node is Audio || node is Shader) ==> leaf_commands(node).len() == 0,
{
    match node {
        SceneNode::Path { fill, stroke, stroke_width, .. } => {
            let mesh = command(DrawKind::Mesh, 0);
            let a: Seq<DrawCommandSummary> = if fill is Some {
                seq![mesh]
            } else {
                Seq::empty()
            };
            let b: Seq<DrawCommandSummary> = if stroke is Some && f32_bits_lt(F32_ZERO, stroke_width) {
                seq![mesh]
            } else {
                Seq::empty()
            };
            assert(leaf_commands(node) == a + b);
            assert forall|j: int| 0 <= j < (a + b).len() implies (#[trigger] (a + b)[j]) == mesh by {
                if j < a.len() {
                    assert((a + b)[j] == a[j]);
                } else {
                    assert((a + b)[j] == b[j - a.len()]);
                }
            }
        },
        _ => {},
    }
}
} // verus!
