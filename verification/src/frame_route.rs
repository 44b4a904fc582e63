//! How the backend routes one frame.
//!
//! Shader nodes are rendered by their own GPU pass and everything else by
//! the draw-command compiler, so a frame is first sorted by where its shader
//! nodes stand: a scene made only of shaders, shaders interleaved with other
//! nodes, or a (possibly empty) run of shaders at the end. Frames larger than
//! a GPU texture, and scenes the compiler rejects, are rendered on the CPU.
//!
//! Whether a shader node's rectangle ends inside the frame (`x + w` and
//! `y + h` against the frame size, computed in `f32`) is passed in by the
//! caller, one flag per node.
use vstd::prelude::*;
use crate::float_bits::{f32_bits_le, f32_bits_lt, f32_le, f32_lt, F32_ONE, F32_ZERO};
use crate::gpu_support::{
    compile_nodes, compile_prefix, fallback_reason_text, fallback_reason_upto, has_trailing_overlap_texture_layer,
    nodes_compile, scene_gpu_supported, shader_node_valid, trailing_overlap_layer,
};
use crate::scene::{Scene, SceneNode};
use crate::shader_source::{shader_body_rewritable, shader_opacity_supported};

verus! {

/// A shader node the single-target shader pass can draw: opacity in
/// `[0, 1]` that the shader source can absorb, a non-negative origin, a
/// positive size, and (`within_frame`) a far corner inside the frame.
pub open spec fn shader_direct_ok(node: SceneNode, within_frame: bool) -> bool {
    match node {
        SceneNode::Shader { x, y, w, h, source, opacity, .. } => {
            &&& f32_bits_le(F32_ZERO, opacity)
            &&& f32_bits_le(opacity, F32_ONE)
            &&& shader_body_rewritable(source@)
            &&& f32_bits_le(F32_ZERO, x)
            &&& f32_bits_le(F32_ZERO, y)
            &&& f32_bits_lt(F32_ZERO, w)
            &&& f32_bits_lt(F32_ZERO, h)
            &&& within_frame
        },
        _ => false,
    }
}

/// Every node from `from` on is a shader the direct pass accepts.
pub open spec fn shaders_direct_from(nodes: Seq<SceneNode>, within: Seq<bool>, from: int) -> bool {
    forall|i: int| from <= i < nodes.len() ==> #[trigger] shader_direct_ok(nodes[i], within[i])
}

/// Every node from `from` on is a shader node.
pub open spec fn shaders_from(nodes: Seq<SceneNode>, from: int) -> bool {
    forall|i: int| from <= i < nodes.len() ==> #[trigger] nodes[i] is Shader
}

/// Index of the first shader node at or after `i`.
pub open spec fn first_shader_from(nodes: Seq<SceneNode>, i: int) -> Option<int>
    decreases nodes.len() - i,
{
    if i < 0 || i >= nodes.len() {
        None
    } else if nodes[i] is Shader {
        Some(i)
    } else {
        first_shader_from(nodes, i + 1)
    }
}

/// What the backend does with a frame.
#[derive(Clone, Copy, Debug)]
pub enum FrameRoute {
    /// Only shader nodes, all drawn by the single-target shader pass.
    ShaderLayersDirect,
    /// Only shader nodes, rendered and composited one by one.
    ShaderLayers,
    /// Shader nodes interleaved with other nodes: render scene segments in
    /// order (see `interleaved_segments`).
    InterleavedShaders,
    /// The frame is larger than a GPU texture: render it on the CPU,
    /// recording `reason`.
    TextureLimitFallback { reason: &'static str },
    /// Compile the first `base_len` nodes into GPU draw commands; the nodes
    /// after them are shaders drawn by the shader pass into the same target.
    Gpu { base_len: usize },
    /// The compiler rejects the first `base_len` nodes: render the whole
    /// frame on the CPU, recording `reason`.
    CpuFallback { base_len: usize, reason: &'static str },
}

/// A frame's route, and whether to first try compositing a trailing
/// translucent layer with overlapping textures offscreen (when that attempt
/// succeeds it produces the frame; otherwise `route` does).
#[derive(Clone, Copy, Debug)]
pub struct FramePlan {
    pub route: FrameRoute,
    pub try_trailing_overlap: bool,
}

/// Number of leading nodes handed to the compiler: the nodes before a
/// non-empty run of direct-pass shaders that ends the scene, or all nodes.
pub open spec fn gpu_base_len(nodes: Seq<SceneNode>, within: Seq<bool>) -> int {
    match first_shader_from(nodes, 0) {
        Some(start) => if start > 0 && shaders_direct_from(nodes, within, start) {
            start
        } else {
            nodes.len() as int
        },
        None => nodes.len() as int,
    }
}

/// The route of a frame. (A fallback's reason text is stated separately, by
/// `route_reason_ok`; here it is left unspecified.)
pub open spec fn planned_route(
    nodes: Seq<SceneNode>,
    within: Seq<bool>,
    width: u32,
    height: u32,
    max_dimension: u32,
) -> FrameRoute {
    if nodes.len() > 0 && shaders_from(nodes, 0) {
        if shaders_direct_from(nodes, within, 0) {
            FrameRoute::ShaderLayersDirect
        } else {
            FrameRoute::ShaderLayers
        }
    } else if first_shader_from(nodes, 0) matches Some(start) && !shaders_from(nodes, start) {
        FrameRoute::InterleavedShaders
    } else if width > max_dimension || height > max_dimension {
        FrameRoute::TextureLimitFallback { reason: arbitrary() }
    } else {
        let base_len = gpu_base_len(nodes, within);
        if nodes_compile(nodes.take(base_len), true) is Some {
            FrameRoute::Gpu { base_len: base_len as usize }
        } else {
            FrameRoute::CpuFallback { base_len: base_len as usize, reason: arbitrary() }
        }
    }
}

/// The route's reason text, where it records one.
pub open spec fn route_reason_ok(route: FrameRoute, nodes: Seq<SceneNode>) -> bool {
    match route {
        FrameRoute::CpuFallback { base_len, reason } => reason@ == fallback_reason_text(
            nodes.take(base_len as int),
        ),
        FrameRoute::TextureLimitFallback { reason } => reason@
            == "frame dimensions exceed the GPU texture limit"@,
        _ => true,
    }
}

/// The two routes agree on everything but the fallback reason texts.
pub open spec fn same_route(a: FrameRoute, b: FrameRoute) -> bool {
    match (a, b) {
        (FrameRoute::ShaderLayersDirect, FrameRoute::ShaderLayersDirect) => true,
        (FrameRoute::ShaderLayers, FrameRoute::ShaderLayers) => true,
        (FrameRoute::InterleavedShaders, FrameRoute::InterleavedShaders) => true,
        (FrameRoute::TextureLimitFallback { .. }, FrameRoute::TextureLimitFallback { .. }) => true,
        (FrameRoute::Gpu { base_len: x }, FrameRoute::Gpu { base_len: y }) => x == y,
        (
            FrameRoute::CpuFallback { base_len: x, .. },
            FrameRoute::CpuFallback { base_len: y, .. },
        ) => x == y,
        _ => false,
    }
}

fn shader_direct(node: &SceneNode, within_frame: bool) -> (r: bool)
    ensures
        r == shader_direct_ok(*node, within_frame),
{
    match node {
        SceneNode::Shader { x, y, w, h, source, opacity, .. } => f32_le(F32_ZERO, *opacity)
            && f32_le(*opacity, F32_ONE) && shader_opacity_supported(source.as_str()) && f32_le(
            F32_ZERO,
            *x,
        ) && f32_le(F32_ZERO, *y) && f32_lt(F32_ZERO, *w) && f32_lt(F32_ZERO, *h) && within_frame,
        _ => false,
    }
}

fn first_shader(nodes: &Vec<SceneNode>) -> (r: Option<usize>)
    ensures
        r matches Some(i) ==> first_shader_from(nodes@, 0) == Some(i as int) && i < nodes@.len(),
        r is None ==> first_shader_from(nodes@, 0) is None,
{
    let mut i: usize = 0;
    while i < nodes.len()
        invariant
            i <= nodes@.len(),
            first_shader_from(nodes@, 0) == first_shader_from(nodes@, i as int),
        decreases nodes@.len() - i,
    {
        match &nodes[i] {
            SceneNode::Shader { .. } => {
                return Some(i);
            },
            _ => {},
        }
        i = i + 1;
    }
    None
}

fn all_shaders_from(nodes: &Vec<SceneNode>, from: usize) -> (r: bool)
    ensures
        r == shaders_from(nodes@, from as int),
{
    let mut i: usize = from;
    while i < nodes.len()
        invariant
            from <= i,
            forall|k: int| from <= k < i && k < nodes@.len() ==> #[trigger] nodes@[k] is Shader,
        decreases nodes@.len() - i,
    {
        match &nodes[i] {
            SceneNode::Shader { .. } => {},
            _ => {
                assert(!(nodes@[i as int] is Shader));
                return false;
            },
        }
        i = i + 1;
    }
    true
}

fn all_direct_from(nodes: &Vec<SceneNode>, within: &Vec<bool>, from: usize) -> (r: bool)
    requires
        within@.len() == nodes@.len(),
    ensures
        r == shaders_direct_from(nodes@, within@, from as int),
{
    let mut i: usize = from;
    while i < nodes.len()
        invariant
            from <= i,
            within@.len() == nodes@.len(),
            forall|k: int|
                from <= k < i && k < nodes@.len() ==> #[trigger] shader_direct_ok(
                    nodes@[k],
                    within@[k],
                ),
        decreases nodes@.len() - i,
    {
        if !shader_direct(&nodes[i], within[i]) {
            assert(!shader_direct_ok(nodes@[i as int], within@[i as int]));
            return false;
        }
        i = i + 1;
    }
    true
}

/// Decide how a frame of `width` by `height` pixels is rendered, on a GPU
/// whose textures are at most `max_dimension` pixels on a side.
/// `within_frame[i]` says whether node `i`, if it is a shader, ends inside
/// the frame.
pub fn plan_frame(
    scene: &Scene,
    within_frame: &Vec<bool>,
    width: u32,
    height: u32,
    max_dimension: u32,
) -> (plan: FramePlan)
    requires
        within_frame@.len() == scene.nodes@.len(),
    ensures
        same_route(
            plan.route,
            planned_route(scene.nodes@, within_frame@, width, height, max_dimension),
        ),
        route_reason_ok(plan.route, scene.nodes@),
        plan.try_trailing_overlap == ((plan.route is Gpu || plan.route is CpuFallback)
            && scene.nodes@.len() > 0 && trailing_overlap_layer(scene.nodes@.last())),
{
    let nodes = &scene.nodes;
    let n = nodes.len();
    if n > 0 && all_shaders_from(nodes, 0) {
        let route = if all_direct_from(nodes, within_frame, 0) {
            FrameRoute::ShaderLayersDirect
        } else {
            FrameRoute::ShaderLayers
        };
        return FramePlan { route, try_trailing_overlap: false };
    }
    let first = first_shader(nodes);
    if let Some(start) = first {
        if !all_shaders_from(nodes, start) {
            return FramePlan { route: FrameRoute::InterleavedShaders, try_trailing_overlap: false };
        }
    }
    if width > max_dimension || height > max_dimension {
        return FramePlan {
            route: FrameRoute::TextureLimitFallback {
                reason: "frame dimensions exceed the GPU texture limit",
            },
            try_trailing_overlap: false,
        };
    }
    let base_len: usize = match first {
        Some(start) => if start > 0 && all_direct_from(nodes, within_frame, start) {
            start
        } else {
            n
        },
        None => n,
    };
    let try_trailing_overlap = has_trailing_overlap_texture_layer(scene);
    let route = match compile_prefix(nodes, base_len) {
        Some(_) => FrameRoute::Gpu { base_len },
        None => FrameRoute::CpuFallback { base_len, reason: fallback_reason_upto(nodes, base_len) },
    };
    FramePlan { route, try_trailing_overlap }
}

/// A piece of an interleaved scene, rendered on its own and composited over
/// the pieces before it.
#[derive(Clone, Copy, Debug, PartialEq, Eq, Structural)]
pub enum SceneSegment {
    /// Nodes `start..end`, none of them a shader, rendered as one frame.
    Nodes { start: usize, end: usize },
    /// The shader node at `index`; `direct` says whether the single-target
    /// shader pass draws it.
    Shader { index: usize, direct: bool },
}

pub open spec fn segment_start(segment: SceneSegment) -> int {
    match segment {
        SceneSegment::Nodes { start, .. } => start as int,
        SceneSegment::Shader { index, .. } => index as int,
    }
}

pub open spec fn segment_end(segment: SceneSegment) -> int {
    match segment {
        SceneSegment::Nodes { end, .. } => end as int,
        SceneSegment::Shader { index, .. } => index + 1,
    }
}

/// The segments closed after the first `n` nodes, and where the open run of
/// non-shader nodes starts.
pub open spec fn segments_upto(nodes: Seq<SceneNode>, within: Seq<bool>, n: int) -> (
    Seq<SceneSegment>,
    int,
)
    decreases n,
{
    if n <= 0 {
        (Seq::empty(), 0)
    } else {
        let (segments, run) = segments_upto(nodes, within, n - 1);
        let i = n - 1;
        if nodes[i] is Shader {
            let flushed = if run < i {
                segments.push(SceneSegment::Nodes { start: run as usize, end: i as usize })
            } else {
                segments
            };
            (
                flushed.push(
                    SceneSegment::Shader {
                        index: i as usize,
                        direct: shader_direct_ok(nodes[i], within[i]),
                    },
                ),
                n,
            )
        } else {
            (segments, run)
        }
    }
}

/// Each shader node on its own, and each maximal run of other nodes as one
/// segment, in scene order.
pub open spec fn planned_segments(nodes: Seq<SceneNode>, within: Seq<bool>) -> Seq<SceneSegment> {
    let (segments, run) = segments_upto(nodes, within, nodes.len() as int);
    if run < nodes.len() {
        segments.push(SceneSegment::Nodes { start: run as usize, end: nodes.len() as usize })
    } else {
        segments
    }
}

/// `segments` paint nodes `0..upto` exactly once, in order: each starts
/// where the previous one ended, runs hold no shader, and a shader segment
/// is one shader node.
pub open spec fn segments_partition(
    nodes: Seq<SceneNode>,
    segments: Seq<SceneSegment>,
    upto: int,
) -> bool {
    &&& (segments.len() == 0 ==> upto == 0)
    &&& (segments.len() > 0 ==> segment_start(segments[0]) == 0 && segment_end(segments.last())
        == upto)
    &&& forall|k: int|
        0 <= k < segments.len() - 1 ==> segment_end(#[trigger] segments[k]) == segment_start(
            segments[k + 1],
        )
    &&& forall|k: int|
        0 <= k < segments.len() ==> match #[trigger] segments[k] {
            SceneSegment::Nodes { start, end } => start < end && forall|i: int|
                start <= i < end ==> !(#[trigger] nodes[i] is Shader),
            SceneSegment::Shader { index, .. } => index < nodes.len() && nodes[index as int] is Shader,
        }
}

#[verifier::spinoff_prover]
#[verifier::rlimit(30)]
proof fn lemma_segments_upto_partition(nodes: Seq<SceneNode>, within: Seq<bool>, n: int)
    requires
        0 <= n <= nodes.len(),
        nodes.len() <= usize::MAX,
    ensures
        ({
            let (segments, run) = segments_upto(nodes, within, n);
            &&& 0 <= run <= n
            &&& segments_partition(nodes, segments, run)
            &&& forall|i: int| run <= i < n ==> !(#[trigger] nodes[i] is Shader)
        }),
    decreases n,
{
    if n > 0 {
        lemma_segments_upto_partition(nodes, within, n - 1);
        let (segments, run) = segments_upto(nodes, within, n - 1);
        let i = n - 1;
        if nodes[i] is Shader {
            let flushed = if run < i {
                segments.push(SceneSegment::Nodes { start: run as usize, end: i as usize })
            } else {
                segments
            };
            assert(segments_partition(nodes, flushed, i)) by {
                if run < i {
                    assert forall|k: int| 0 <= k < flushed.len() - 1 implies segment_end(
                        #[trigger] flushed[k],
                    ) == segment_start(flushed[k + 1]) by {
                        if k < segments.len() - 1 {
                            assert(flushed[k] == segments[k]);
                            assert(flushed[k + 1] == segments[k + 1]);
                        } else {
                            assert(flushed[k] == segments.last());
                        }
                    }
                    assert forall|k: int| 0 <= k < flushed.len() implies match #[trigger] flushed[k] {
                        SceneSegment::Nodes { start, end } => start < end && forall|j: int|
                            start <= j < end ==> !(#[trigger] nodes[j] is Shader),
                        SceneSegment::Shader { index, .. } => index < nodes.len()
                            && nodes[index as int] is Shader,
                    } by {
                        if k < segments.len() {
                            assert(flushed[k] == segments[k]);
                        }
                    }
                }
            }
            let next = flushed.push(
                SceneSegment::Shader {
                    index: i as usize,
                    direct: shader_direct_ok(nodes[i], within[i]),
                },
            );
            assert forall|k: int| 0 <= k < next.len() - 1 implies segment_end(
                #[trigger] next[k],
            ) == segment_start(next[k + 1]) by {
                if k < flushed.len() - 1 {
                    assert(next[k] == flushed[k]);
                    assert(next[k + 1] == flushed[k + 1]);
                } else {
                    assert(next[k] == flushed.last());
                }
            }
            assert forall|k: int| 0 <= k < next.len() implies match #[trigger] next[k] {
                SceneSegment::Nodes { start, end } => start < end && forall|j: int|
                    start <= j < end ==> !(#[trigger] nodes[j] is Shader),
                SceneSegment::Shader { index, .. } => index < nodes.len()
                    && nodes[index as int] is Shader,
            } by {
                if k < flushed.len() {
                    assert(next[k] == flushed[k]);
                }
            }
            if flushed.len() > 0 {
                assert(next[0] == flushed[0]);
            }
        }
    }
}

/// Interleaved shaders paint every node exactly once and in scene order:
/// the planned segments partition the scene.
pub proof fn lemma_planned_segments_partition(nodes: Seq<SceneNode>, within: Seq<bool>)
    requires
        nodes.len() <= usize::MAX,
    ensures
        segments_partition(nodes, planned_segments(nodes, within), nodes.len() as int),
{
    let len = nodes.len() as int;
    lemma_segments_upto_partition(nodes, within, len);
    let (segments, run) = segments_upto(nodes, within, len);
    if run < len {
        let next = segments.push(SceneSegment::Nodes { start: run as usize, end: len as usize });
        assert forall|k: int| 0 <= k < next.len() - 1 implies segment_end(
            #[trigger] next[k],
        ) == segment_start(next[k + 1]) by {
            if k < segments.len() - 1 {
                assert(next[k] == segments[k]);
                assert(next[k + 1] == segments[k + 1]);
            } else {
                assert(next[k] == segments.last());
            }
        }
        assert forall|k: int| 0 <= k < next.len() implies match #[trigger] next[k] {
            SceneSegment::Nodes { start, end } => start < end && forall|j: int|
                start <= j < end ==> !(#[trigger] nodes[j] is Shader),
            SceneSegment::Shader { index, .. } => index < nodes.len() && nodes[index as int] is Shader,
        } by {
            if k < segments.len() {
                assert(next[k] == segments[k]);
            }
        }
        if segments.len() > 0 {
            assert(next[0] == segments[0]);
        }
    }
}

/// Split a scene whose shader nodes interleave with other nodes into the
/// pieces that are rendered one after another.
pub fn interleaved_segments(scene: &Scene, within_frame: &Vec<bool>) -> (segments: Vec<SceneSegment>)
    requires
        within_frame@.len() == scene.nodes@.len(),
    ensures
        segments@ == planned_segments(scene.nodes@, within_frame@),
{
    let nodes = &scene.nodes;
    let mut segments: Vec<SceneSegment> = Vec::new();
    let mut run: usize = 0;
    let mut i: usize = 0;
    while i < nodes.len()
        invariant
            within_frame@.len() == nodes@.len(),
            i <= nodes@.len(),
            segments_upto(nodes@, within_frame@, i as int) == (segments@, run as int),
        decreases nodes@.len() - i,
    {
        match &nodes[i] {
            SceneNode::Shader { .. } => {
                if run < i {
                    segments.push(SceneSegment::Nodes { start: run, end: i });
                }
                let direct = shader_direct(&nodes[i], within_frame[i]);
                segments.push(SceneSegment::Shader { index: i, direct });
                run = i + 1;
            },
            _ => {},
        }
        i = i + 1;
    }
    if run < nodes.len() {
        segments.push(SceneSegment::Nodes { start: run, end: nodes.len() });
    }
    segments
}

/// Why a frame cannot be rendered straight into a GPU texture for a
/// texture consumer (no CPU readback, no CPU fallback).
#[derive(Clone, Copy, Debug, PartialEq, Eq, Structural)]
pub enum NativeFrameError {
    /// The frame is larger than a GPU texture.
    DimensionsExceedLimit,
    /// The scene holds shader nodes, which the texture path does not draw.
    ShaderNodes,
    /// The draw-command compiler rejects the scene.
    RequiresCpuFallback,
    /// A streamed frame's size differs from the first frame's.
    DimensionsChanged,
}

impl NativeFrameError {
    /// The text a single texture-path frame reports for this error.
    pub open spec fn frame_text(self) -> Seq<char> {
        match self {
            NativeFrameError::DimensionsExceedLimit => "GPU-native frame dimensions exceed the device limit"@,
            NativeFrameError::ShaderNodes => "GPU-native frame sink does not yet support shader nodes"@,
            NativeFrameError::RequiresCpuFallback => "scene requires the CPU fallback and has no GPU texture handle"@,
            NativeFrameError::DimensionsChanged => "GPU-native stream cannot change dimensions mid-stream"@,
        }
    }

    /// The message a single texture-path frame reports for this error.
    pub fn frame_message(self) -> (r: &'static str)
        ensures
            r@ == self.frame_text(),
    {
        match self {
            NativeFrameError::DimensionsExceedLimit => "GPU-native frame dimensions exceed the device limit",
            NativeFrameError::ShaderNodes => "GPU-native frame sink does not yet support shader nodes",
            NativeFrameError::RequiresCpuFallback => "scene requires the CPU fallback and has no GPU texture handle",
            NativeFrameError::DimensionsChanged => "GPU-native stream cannot change dimensions mid-stream",
        }
    }
}

pub open spec fn has_shader(nodes: Seq<SceneNode>) -> bool {
    exists|i: int| 0 <= i < nodes.len() && #[trigger] nodes[i] is Shader
}

fn any_shader(nodes: &Vec<SceneNode>) -> (r: bool)
    ensures
        r == has_shader(nodes@),
{
    match first_shader(nodes) {
        Some(i) => {
            proof {
                lemma_first_shader_is_shader(nodes@, 0);
            }
            true
        },
        None => {
            proof {
                lemma_no_first_shader(nodes@, 0);
            }
            false
        },
    }
}

pub(crate) proof fn lemma_first_shader_is_shader(nodes: Seq<SceneNode>, i: int)
    requires
        first_shader_from(nodes, i) is Some,
    ensures
        ({
            let p = first_shader_from(nodes, i)->0;
            0 <= p < nodes.len() && nodes[p] is Shader
        }),
    decreases nodes.len() - i,
{
    if 0 <= i < nodes.len() && !(nodes[i] is Shader) {
        lemma_first_shader_is_shader(nodes, i + 1);
    }
}

proof fn lemma_no_first_shader(nodes: Seq<SceneNode>, i: int)
    requires
        0 <= i,
        first_shader_from(nodes, i) is None,
    ensures
        forall|k: int| i <= k < nodes.len() ==> !(#[trigger] nodes[k] is Shader),
    decreases nodes.len() - i,
{
    if i < nodes.len() {
        lemma_no_first_shader(nodes, i + 1);
    }
}

/// A frame fits the GPU texture limit.
pub fn check_native_frame_size(width: u32, height: u32, max_dimension: u32) -> (r: Result<
    (),
    NativeFrameError,
>)
    ensures
        r == if width > max_dimension || height > max_dimension {
            Err::<(), NativeFrameError>(NativeFrameError::DimensionsExceedLimit)
        } else {
            Ok(())
        },
{
    if width > max_dimension || height > max_dimension {
        Err(NativeFrameError::DimensionsExceedLimit)
    } else {
        Ok(())
    }
}

/// Whether one frame can be rendered straight into a GPU texture: it fits
/// the texture limit, holds no shader node, and compiles.
pub fn check_native_frame(scene: &Scene, width: u32, height: u32, max_dimension: u32) -> (r:
    Result<(), NativeFrameError>)
    ensures
        r == if width > max_dimension || height > max_dimension {
            Err::<(), NativeFrameError>(NativeFrameError::DimensionsExceedLimit)
        } else if has_shader(scene.nodes@) {
            Err(NativeFrameError::ShaderNodes)
        } else if nodes_compile(scene.nodes@, true) is None {
            Err(NativeFrameError::RequiresCpuFallback)
        } else {
            Ok(())
        },
{
    if width > max_dimension || height > max_dimension {
        return Err(NativeFrameError::DimensionsExceedLimit);
    }
    if any_shader(&scene.nodes) {
        return Err(NativeFrameError::ShaderNodes);
    }
    let compiled = compile_prefix(&scene.nodes, scene.nodes.len());
    assert(scene.nodes@.take(scene.nodes@.len() as int) =~= scene.nodes@);
    if compiled.is_none() {
        return Err(NativeFrameError::RequiresCpuFallback);
    }
    Ok(())
}

/// Whether a frame of a texture stream whose first frame is
/// `first_width` by `first_height` can be rendered straight into the
/// stream's GPU textures: same size as the first frame, and it compiles.
/// (The stream's size is checked against the texture limit once, with
/// `check_native_frame_size`, before the first frame.)
pub fn check_native_stream_frame(
    scene: &Scene,
    width: u32,
    height: u32,
    first_width: u32,
    first_height: u32,
) -> (r: Result<(), NativeFrameError>)
    ensures
        r == if width != first_width || height != first_height {
            Err::<(), NativeFrameError>(NativeFrameError::DimensionsChanged)
        } else if nodes_compile(scene.nodes@, true) is None {
            Err(NativeFrameError::RequiresCpuFallback)
        } else if has_shader(scene.nodes@) {
            Err(NativeFrameError::ShaderNodes)
        } else {
            Ok(())
        },
{
    if width != first_width || height != first_height {
        return Err(NativeFrameError::DimensionsChanged);
    }
    let compiled = compile_prefix(&scene.nodes, scene.nodes.len());
    assert(scene.nodes@.take(scene.nodes@.len() as int) =~= scene.nodes@);
    if compiled.is_none() {
        return Err(NativeFrameError::RequiresCpuFallback);
    }
    if any_shader(&scene.nodes) {
        return Err(NativeFrameError::ShaderNodes);
    }
    Ok(())
}

proof fn lemma_shader_free_has_no_first_shader(nodes: Seq<SceneNode>, i: int)
    requires
        0 <= i,
        forall|k: int| i <= k < nodes.len() ==> !(#[trigger] nodes[k] is Shader),
    ensures
        first_shader_from(nodes, i) is None,
    decreases nodes.len() - i,
{
    if i < nodes.len() {
        lemma_shader_free_has_no_first_shader(nodes, i + 1);
    }
}

/// A frame without shader nodes that fits the texture limit is drawn on the
/// GPU exactly when `gpu_supports_scene` accepts it, and otherwise falls
/// back to the CPU renderer.
pub proof fn lemma_route_follows_gpu_support(
    nodes: Seq<SceneNode>,
    within: Seq<bool>,
    width: u32,
    height: u32,
    max_dimension: u32,
)
    requires
        !has_shader(nodes),
        width <= max_dimension,
        height <= max_dimension,
    ensures
        planned_route(nodes, within, width, height, max_dimension) is Gpu <==> scene_gpu_supported(
            nodes,
        ),
        planned_route(nodes, within, width, height, max_dimension) is CpuFallback
            <==> !scene_gpu_supported(nodes),
{
    lemma_shader_free_has_no_first_shader(nodes, 0);
    if nodes.len() > 0 {
        assert(!(nodes[0] is Shader));
        assert(!shaders_from(nodes, 0));
        assert(!shader_node_valid(nodes[0]));
    }
    assert(nodes.take(nodes.len() as int) =~= nodes);
}

/// Why the offscreen composite of a trailing overlap layer cannot be used
/// for a frame (the frame then takes its planned route).
#[derive(Clone, Copy, Debug, PartialEq, Eq, Structural)]
pub enum OverlapError {
    /// The scene does not end in a layer the overlap path can composite.
    NoTrailingLayer,
    /// The nodes under the layer need the CPU fallback.
    BaseNeedsCpu,
    /// The layer's children need the CPU fallback.
    LayerNeedsCpu,
    /// The base or the layer would draw through the path-mask texture.
    PathMask,
}

impl OverlapError {
    /// The text an offscreen overlap composite reports for this error.
    pub open spec fn text(self) -> Seq<char> {
        match self {
            OverlapError::NoTrailingLayer => "scene has no trailing overlap layer"@,
            OverlapError::BaseNeedsCpu => "overlap base scene requires CPU fallback"@,
            OverlapError::LayerNeedsCpu => "overlap layer requires CPU fallback"@,
            OverlapError::PathMask => "overlap layer path masks are not yet supported"@,
        }
    }

    /// The message an offscreen overlap composite reports for this error.
    pub fn message(self) -> (r: &'static str)
        ensures
            r@ == self.text(),
    {
        match self {
            OverlapError::NoTrailingLayer => "scene has no trailing overlap layer",
            OverlapError::BaseNeedsCpu => "overlap base scene requires CPU fallback",
            OverlapError::LayerNeedsCpu => "overlap layer requires CPU fallback",
            OverlapError::PathMask => "overlap layer path masks are not yet supported",
        }
    }
}

/// The outcome of compiling the nodes under the trailing layer and the
/// layer's children, each as a scene of its own.
pub open spec fn overlap_plan(nodes: Seq<SceneNode>) -> Result<(), OverlapError> {
    if !(nodes.len() > 0 && trailing_overlap_layer(nodes.last())) {
        Err(OverlapError::NoTrailingLayer)
    } else {
        let base = nodes_compile(nodes.drop_last(), true);
        let layer = nodes_compile(nodes.last()->Layer_children@, true);
        if base is None {
            Err(OverlapError::BaseNeedsCpu)
        } else if layer is None {
            Err(OverlapError::LayerNeedsCpu)
        } else if base == Some(false) || layer == Some(false) {
            Err(OverlapError::PathMask)
        } else {
            Ok(())
        }
    }
}

/// Whether a scene ending in a translucent layer with overlapping textures
/// can be drawn by compositing that layer offscreen: the rest of the scene
/// and the layer's children must both compile, without a path mask.
pub fn check_trailing_overlap(scene: &Scene) -> (r: Result<(), OverlapError>)
    ensures
        r == overlap_plan(scene.nodes@),
{
    if !has_trailing_overlap_texture_layer(scene) {
        return Err(OverlapError::NoTrailingLayer);
    }
    let n = scene.nodes.len();
    let base = compile_prefix(&scene.nodes, n - 1);
    assert(scene.nodes@.take(n - 1) =~= scene.nodes@.drop_last());
    let layer = match &scene.nodes[n - 1] {
        SceneNode::Layer { children, .. } => compile_nodes(children, true),
        _ => None,
    };
    match (base, layer) {
        (None, _) => Err(OverlapError::BaseNeedsCpu),
        (Some(_), None) => Err(OverlapError::LayerNeedsCpu),
        (Some(base_free), Some(layer_free)) => if !base_free || !layer_free {
            Err(OverlapError::PathMask)
        } else {
            Ok(())
        },
    }
}

/// How a streamed render is carried out.
#[derive(Clone, Copy, Debug, PartialEq, Eq, Structural)]
pub enum StreamRoute {
    /// No frames: nothing is rendered and the sink is never called.
    Empty,
    /// The stream's frames are larger than a GPU texture: the whole stream
    /// is rendered by the CPU renderer.
    CpuFallback,
    /// Frames go through the GPU readback ring (see `FrameStreamScheduler`),
    /// each falling back to the CPU on its own when it does not compile.
    GpuRing,
}

/// Route a stream of `total` frames whose first frame is `first_width` by
/// `first_height`, on a GPU whose textures are at most `max_dimension`
/// pixels on a side.
pub fn plan_stream(total: u32, first_width: u32, first_height: u32, max_dimension: u32) -> (r:
    StreamRoute)
    ensures
        r == if total == 0 {
            StreamRoute::Empty
        } else if first_width > max_dimension || first_height > max_dimension {
            StreamRoute::CpuFallback
        } else {
            StreamRoute::GpuRing
        },
{
    if total == 0 {
        StreamRoute::Empty
    } else if first_width > max_dimension || first_height > max_dimension {
        StreamRoute::CpuFallback
    } else {
        StreamRoute::GpuRing
    }
}

/// In a shader-free scene every node goes to the compiler.
pub proof fn lemma_fallback_covers_the_scene(nodes: Seq<SceneNode>, within: Seq<bool>)
    requires
        !has_shader(nodes),
    ensures
        gpu_base_len(nodes, within) == nodes.len(),
{
    lemma_shader_free_has_no_first_shader(nodes, 0);
}


/// A frame larger than a GPU texture in either dimension is never drawn
/// into one: a GPU or compiled-fallback route only comes with both
/// dimensions within the limit, and a shader-free frame over the limit in
/// width or in height takes the texture-limit fallback.
pub proof fn lemma_oversized_frames_avoid_the_gpu(
    nodes: Seq<SceneNode>,
    within: Seq<bool>,
    width: u32,
    height: u32,
    max_dimension: u32,
)
    ensures
        planned_route(nodes, within, width, height, max_dimension) is Gpu ==> width
            <= max_dimension && height <= max_dimension,
        planned_route(nodes, within, width, height, max_dimension) is CpuFallback ==> width
            <= max_dimension && height <= max_dimension,
        !has_shader(nodes) && (width > max_dimension || height > max_dimension) ==> planned_route(
            nodes,
            within,
            width,
            height,
            max_dimension,
        ) is TextureLimitFallback,
{
    if !has_shader(nodes) {
        lemma_shader_free_has_no_first_shader(nodes, 0);
        if nodes.len() > 0 {
            assert(!(nodes[0] is Shader));
            assert(!shaders_from(nodes, 0));
        }
    }
}
} // verus!
