//! Which scenes the GPU pipeline can draw, and which need the CPU fallback.
//!
//! The compiler that turns a scene into GPU draw commands gives up (and the
//! frame is rendered on the CPU) as soon as a node cannot be represented.
//! This module decides that outcome: `gpu_supports_scene` is exactly the
//! question "does compilation succeed?", together with the predicates the
//! compiler uses to pick a layer strategy.
use vstd::prelude::*;
use crate::float_bits::{
    f32_bits_eq, f32_bits_finite, f32_bits_le, f32_bits_lt, f32_bits_within, f32_eq,
    f32_is_finite, f32_le, f32_lt, f32_within, f64_bits_finite, f64_bits_lt, f64_is_finite,
    f64_lt, F32_ONE, F32_TEN, F32_TWO, F32_ZERO, F64_ZERO,
};
use crate::mask_shapes::{gpu_mask_kinds, mask_kinds_ok};
use crate::scene::{
    BlendMode, ClipRegion, GradientStop, LayerMaskSupport, MaskMode, Scene, SceneFilter, SceneNode,
};

verus! {

/// Number of gradient stops the instance uniform can hold.
pub const MAX_GRADIENT_STOPS: usize = 16;

// ---------------------------------------------------------------------------
// Filters
// ---------------------------------------------------------------------------

/// An `Opacity` filter whose amount is a finite value in `[0, 1]`.
pub open spec fn is_valid_opacity_filter(filter: SceneFilter) -> bool {
    match filter {
        SceneFilter::Opacity { amount } => f32_bits_finite(amount) && f32_bits_within(
            amount,
            F32_ZERO,
            F32_ONE,
        ),
        _ => false,
    }
}

pub open spec fn blend_layer_filters_ok(filters: Seq<SceneFilter>) -> bool {
    forall|i: int| 0 <= i < filters.len() ==> #[trigger] is_valid_opacity_filter(filters[i])
}

/// A filter that `ColorGrading` cannot be ordered against.
pub open spec fn is_color_filter(filter: SceneFilter) -> bool {
    match filter {
        SceneFilter::Brightness { .. }
        | SceneFilter::Grayscale { .. }
        | SceneFilter::Contrast { .. }
        | SceneFilter::Saturation { .. }
        | SceneFilter::Invert { .. }
        | SceneFilter::HueRotate { .. }
        | SceneFilter::Tint { .. }
        | SceneFilter::Duotone { .. } => true,
        _ => false,
    }
}

pub open spec fn is_color_grading(filter: SceneFilter) -> bool {
    filter is ColorGrading
}

pub open spec fn unit_amount(v: u32) -> bool {
    f32_bits_finite(v) && f32_bits_within(v, F32_ZERO, F32_ONE)
}

/// Whether a single filter has parameters the packed GPU instance accepts.
pub open spec fn filter_accepted(filter: SceneFilter) -> bool {
    match filter {
        SceneFilter::Opacity { amount } => unit_amount(amount),
        SceneFilter::Brightness { amount } => f32_bits_finite(amount) && f32_bits_within(
            amount,
            F32_ZERO,
            F32_TEN,
        ),
        SceneFilter::Grayscale { amount } => unit_amount(amount),
        SceneFilter::Contrast { factor } => f32_bits_finite(factor) && f32_bits_le(
            F32_ZERO,
            factor,
        ),
        SceneFilter::Saturation { factor } => f32_bits_finite(factor) && f32_bits_le(
            F32_ZERO,
            factor,
        ),
        SceneFilter::Vignette { offset, darkness, roundness } => f32_bits_finite(offset)
            && f32_bits_finite(darkness) && f32_bits_finite(roundness) && f32_bits_within(
            offset,
            F32_ZERO,
            F32_TWO,
        ) && f32_bits_within(darkness, F32_ZERO, F32_ONE) && f32_bits_within(
            roundness,
            F32_ZERO,
            F32_ONE,
        ),
        SceneFilter::Invert { amount } => unit_amount(amount),
        SceneFilter::HueRotate { degrees } => f32_bits_finite(degrees),
        SceneFilter::Tint { amount, .. } => unit_amount(amount),
        SceneFilter::Duotone { .. } => true,
        SceneFilter::ColorGrading { contrast, saturation, gamma, .. } => f32_bits_finite(contrast)
            && f32_bits_le(F32_ZERO, contrast) && f32_bits_finite(saturation) && f32_bits_le(
            F32_ZERO,
            saturation,
        ) && f32_bits_finite(gamma) && f32_bits_lt(F32_ZERO, gamma),
        SceneFilter::Blur { .. } => false,
    }
}

/// Whether the layer's opacity and filter chain fold into per-instance GPU
/// parameters: the opacity is finite, `ColorGrading` is not mixed with
/// another color filter (their CPU order cannot be packed), and every filter
/// is accepted.
pub open spec fn layer_effects_ok(filters: Seq<SceneFilter>, layer_opacity: u32) -> bool {
    &&& f32_bits_finite(layer_opacity)
    &&& !((exists|i: int| 0 <= i < filters.len() && #[trigger] is_color_grading(filters[i]))
        && (exists|j: int| 0 <= j < filters.len() && #[trigger] is_color_filter(filters[j])))
    &&& forall|i: int| 0 <= i < filters.len() ==> #[trigger] filter_accepted(filters[i])
}

fn unit_amount_exec(v: u32) -> (r: bool)
    ensures
        r == unit_amount(v),
{
    f32_is_finite(v) && f32_within(v, F32_ZERO, F32_ONE)
}

fn filter_accepted_exec(filter: &SceneFilter) -> (r: bool)
    ensures
        r == filter_accepted(*filter),
{
    match filter {
        SceneFilter::Opacity { amount } => unit_amount_exec(*amount),
        SceneFilter::Brightness { amount } => f32_is_finite(*amount) && f32_within(
            *amount,
            F32_ZERO,
            F32_TEN,
        ),
        SceneFilter::Grayscale { amount } => unit_amount_exec(*amount),
        SceneFilter::Contrast { factor } => f32_is_finite(*factor) && f32_le(F32_ZERO, *factor),
        SceneFilter::Saturation { factor } => f32_is_finite(*factor) && f32_le(F32_ZERO, *factor),
        SceneFilter::Vignette { offset, darkness, roundness } => f32_is_finite(*offset)
            && f32_is_finite(*darkness) && f32_is_finite(*roundness) && f32_within(
            *offset,
            F32_ZERO,
            F32_TWO,
        ) && f32_within(*darkness, F32_ZERO, F32_ONE) && f32_within(
            *roundness,
            F32_ZERO,
            F32_ONE,
        ),
        SceneFilter::Invert { amount } => unit_amount_exec(*amount),
        SceneFilter::HueRotate { degrees } => f32_is_finite(*degrees),
        SceneFilter::Tint { amount, .. } => unit_amount_exec(*amount),
        SceneFilter::Duotone { .. } => true,
        SceneFilter::ColorGrading { contrast, saturation, gamma, .. } => f32_is_finite(*contrast)
            && f32_le(F32_ZERO, *contrast) && f32_is_finite(*saturation) && f32_le(
            F32_ZERO,
            *saturation,
        ) && f32_is_finite(*gamma) && f32_lt(F32_ZERO, *gamma),
        SceneFilter::Blur { .. } => false,
    }
}

/// Non-normal blend modes draw the layer's children directly instead of
/// compositing an offscreen layer. Opacity composes into each child
/// instance, so it is safe there; color-changing filters are not, because
/// they would have to filter the already-composited layer.
pub fn gpu_blend_layer_filters_supported(filters: &[SceneFilter]) -> (r: bool)
    ensures
        r == blend_layer_filters_ok(filters@),
{
    let mut i: usize = 0;
    while i < filters.len()
        invariant
            i <= filters@.len(),
            forall|k: int| 0 <= k < i ==> #[trigger] is_valid_opacity_filter(filters@[k]),
        decreases filters@.len() - i,
    {
        let ok = match &filters[i] {
            SceneFilter::Opacity { amount } => f32_is_finite(*amount) && f32_within(
                *amount,
                F32_ZERO,
                F32_ONE,
            ),
            _ => false,
        };
        if !ok {
            assert(!is_valid_opacity_filter(filters@[i as int]));
            return false;
        }
        i = i + 1;
    }
    true
}

/// Whether the per-instance effect folding of a layer succeeds (the
/// compiler's layer strategies all require it).
pub fn gpu_layer_effects_supported(filters: &[SceneFilter], layer_opacity: u32) -> (r: bool)
    ensures
        r == layer_effects_ok(filters@, layer_opacity),
{
    if !f32_is_finite(layer_opacity) {
        return false;
    }
    let mut has_grading = false;
    let mut has_color = false;
    let mut all_accepted = true;
    let mut i: usize = 0;
    while i < filters.len()
        invariant
            i <= filters@.len(),
            has_grading == exists|k: int| 0 <= k < i && #[trigger] is_color_grading(filters@[k]),
            has_color == exists|k: int| 0 <= k < i && #[trigger] is_color_filter(filters@[k]),
            all_accepted == forall|k: int| 0 <= k < i ==> #[trigger] filter_accepted(filters@[k]),
        decreases filters@.len() - i,
    {
        let filter = &filters[i];
        let grading = match filter {
            SceneFilter::ColorGrading { .. } => true,
            _ => false,
        };
        let color = match filter {
            SceneFilter::Brightness { .. }
            | SceneFilter::Grayscale { .. }
            | SceneFilter::Contrast { .. }
            | SceneFilter::Saturation { .. }
            | SceneFilter::Invert { .. }
            | SceneFilter::HueRotate { .. }
            | SceneFilter::Tint { .. }
            | SceneFilter::Duotone { .. } => true,
            _ => false,
        };
        let accepted = filter_accepted_exec(filter);
        assert(grading == is_color_grading(filters@[i as int]));
        assert(color == is_color_filter(filters@[i as int]));
        proof {
            if !accepted {
                assert(!filter_accepted(filters@[i as int]));
            }
            if grading {
                assert(is_color_grading(filters@[i as int]));
            }
            if color {
                assert(is_color_filter(filters@[i as int]));
            }
        }
        has_grading = has_grading || grading;
        has_color = has_color || color;
        all_accepted = all_accepted && accepted;
        i = i + 1;
    }
    !(has_grading && has_color) && all_accepted
}

// ---------------------------------------------------------------------------
// Gradients
// ---------------------------------------------------------------------------

/// The stop list a packed mask gradient can hold: two to four stops, the
/// first at exactly `0.0`, the last at exactly `1.0`, finite and
/// non-decreasing positions.
pub open spec fn gradient_stops_valid(stops: Seq<GradientStop>) -> bool {
    &&& 2 <= stops.len() <= 4
    &&& f32_bits_eq(stops[0].position, F32_ZERO)
    &&& f32_bits_eq(stops[stops.len() - 1].position, F32_ONE)
    &&& forall|i: int|
        0 <= i < stops.len() - 1 ==> {
            &&& f32_bits_finite(#[trigger] stops[i].position)
            &&& f32_bits_finite(stops[i + 1].position)
            &&& f32_bits_le(stops[i].position, stops[i + 1].position)
        }
}

pub fn valid_gpu_gradient_stops(stops: &[GradientStop]) -> (r: bool)
    ensures
        r == gradient_stops_valid(stops@),
{
    let n = stops.len();
    if n < 2 || n > 4 {
        return false;
    }
    if !f32_eq(stops[0].position, F32_ZERO) || !f32_eq(stops[n - 1].position, F32_ONE) {
        return false;
    }
    let mut i: usize = 0;
    while i + 1 < n
        invariant
            n == stops@.len(),
            2 <= n <= 4,
            i + 1 <= n,
            forall|k: int|
                0 <= k < i ==> {
                    &&& f32_bits_finite(#[trigger] stops@[k].position)
                    &&& f32_bits_finite(stops@[k + 1].position)
                    &&& f32_bits_le(stops@[k].position, stops@[k + 1].position)
                },
        decreases n - i,
    {
        let a = stops[i].position;
        let b = stops[i + 1].position;
        if !(f32_is_finite(a) && f32_is_finite(b) && f32_le(a, b)) {
            return false;
        }
        i = i + 1;
    }
    true
}

/// Whether every stop position is finite.
pub open spec fn stop_positions_finite(stops: Seq<GradientStop>) -> bool {
    forall|i: int| 0 <= i < stops.len() ==> f32_bits_finite(#[trigger] stops[i].position)
}

/// Whether a non-empty gradient fits the instance uniform.
pub open spec fn gradient_instance_ok(stops: Seq<GradientStop>, opacity_finite: bool) -> bool {
    stops.len() <= MAX_GRADIENT_STOPS && stop_positions_finite(stops) && opacity_finite
}

fn gradient_instance_ok_exec(stops: &Vec<GradientStop>, opacity_finite: bool) -> (r: bool)
    ensures
        r == gradient_instance_ok(stops@, opacity_finite),
{
    if stops.len() > MAX_GRADIENT_STOPS || !opacity_finite {
        return false;
    }
    let mut i: usize = 0;
    while i < stops.len()
        invariant
            i <= stops@.len(),
            forall|k: int| 0 <= k < i ==> f32_bits_finite(#[trigger] stops@[k].position),
        decreases stops@.len() - i,
    {
        if !f32_is_finite(stops[i].position) {
            assert(!f32_bits_finite(stops@[i as int].position));
            return false;
        }
        i = i + 1;
    }
    true
}


// ---------------------------------------------------------------------------
// Children that a non-normal blend can draw directly
// ---------------------------------------------------------------------------

/// Children that can be blended per draw call: analytic shapes, paths,
/// gradients and text, possibly nested in groups. Layers and every
/// texture-backed node need an offscreen pass.
pub open spec fn blend_child_ok(node: SceneNode) -> bool
    decreases node,
{
    match node {
        SceneNode::Rect { .. }
        | SceneNode::Circle { .. }
        | SceneNode::Path { .. }
        | SceneNode::LinearGradient { .. }
        | SceneNode::RadialGradient { .. }
        | SceneNode::Text { .. } => true,
        SceneNode::Group { children, .. } => blend_children_ok(children@),
        _ => false,
    }
}

pub open spec fn blend_children_ok(nodes: Seq<SceneNode>) -> bool
    decreases nodes,
{
    if nodes.len() == 0 {
        true
    } else {
        blend_children_ok(nodes.drop_last()) && blend_child_ok(nodes.last())
    }
}

proof fn lemma_blend_children_false_absorbs(nodes: Seq<SceneNode>, i: int)
    requires
        0 <= i <= nodes.len(),
        !blend_children_ok(nodes.take(i)),
    ensures
        !blend_children_ok(nodes),
    decreases nodes.len() - i,
{
    if i < nodes.len() {
        assert(nodes.take(i + 1).drop_last() =~= nodes.take(i));
        lemma_blend_children_false_absorbs(nodes, i + 1);
    } else {
        assert(nodes.take(i) =~= nodes);
    }
}

fn blend_child_supported(node: &SceneNode) -> (r: bool)
    ensures
        r == blend_child_ok(*node),
    decreases node,
{
    match node {
        SceneNode::Rect { .. }
        | SceneNode::Circle { .. }
        | SceneNode::Path { .. }
        | SceneNode::LinearGradient { .. }
        | SceneNode::RadialGradient { .. }
        | SceneNode::Text { .. } => true,
        SceneNode::Group { children, .. } => gpu_blend_children_supported(children),
        _ => false,
    }
}

pub fn gpu_blend_children_supported(nodes: &Vec<SceneNode>) -> (r: bool)
    ensures
        r == blend_children_ok(nodes@),
    decreases nodes,
{
    let mut i: usize = 0;
    while i < nodes.len()
        invariant
            i <= nodes@.len(),
            blend_children_ok(nodes@.take(i as int)),
        decreases nodes@.len() - i,
    {
        let ok = blend_child_supported(&nodes[i]);
        assert(nodes@.take(i + 1).drop_last() =~= nodes@.take(i as int));
        if !ok {
            proof {
                lemma_blend_children_false_absorbs(nodes@, i + 1);
            }
            return false;
        }
        i = i + 1;
    }
    assert(nodes@.take(i as int) =~= nodes@);
    true
}

// ---------------------------------------------------------------------------
// Texture children that can carry a translucent layer's opacity
// ---------------------------------------------------------------------------

/// A texture-backed node with finite geometry and a positive size, or a
/// group of such nodes.
pub open spec fn texture_child_ok(node: SceneNode) -> bool
    decreases node,
{
    match node {
        SceneNode::Image { x, y, w, h, .. } => texture_rect_ok(x, y, w, h),
        SceneNode::Video { x, y, w, h, .. } => texture_rect_ok(x, y, w, h),
        SceneNode::Lottie { x, y, w, h, .. } => texture_rect_ok(x, y, w, h),
        SceneNode::Group { children, .. } => texture_children_ok(children@),
        _ => false,
    }
}

pub open spec fn texture_children_ok(nodes: Seq<SceneNode>) -> bool
    decreases nodes,
{
    if nodes.len() == 0 {
        true
    } else {
        texture_children_ok(nodes.drop_last()) && texture_child_ok(nodes.last())
    }
}

pub open spec fn texture_rect_ok(x: u32, y: u32, w: u32, h: u32) -> bool {
    is_finite_all4(x, y, w, h) && f32_bits_lt(F32_ZERO, w) && f32_bits_lt(F32_ZERO, h)
}

/// Number of texture-backed nodes, groups looked through.
pub open spec fn texture_leaves(node: SceneNode) -> nat
    decreases node,
{
    match node {
        SceneNode::Image { .. } | SceneNode::Video { .. } | SceneNode::Lottie { .. } => 1,
        SceneNode::Group { children, .. } => texture_leaves_in(children@),
        _ => 0,
    }
}

pub open spec fn texture_leaves_in(nodes: Seq<SceneNode>) -> nat
    decreases nodes,
{
    if nodes.len() == 0 {
        0
    } else {
        texture_leaves_in(nodes.drop_last()) + texture_leaves(nodes.last())
    }
}

/// A translucent normal layer can fold its opacity into the instances of
/// its children when they are all textures (possibly grouped), there is at
/// least one, and their screen bounds are finite and pairwise disjoint
/// (`bounds_disjoint`), so no pixel receives the opacity twice.
pub open spec fn disjoint_textures_ok(children: Seq<SceneNode>, bounds_disjoint: bool) -> bool {
    texture_children_ok(children) && texture_leaves_in(children) > 0 && bounds_disjoint
}

proof fn lemma_texture_children_false_absorbs(nodes: Seq<SceneNode>, i: int)
    requires
        0 <= i <= nodes.len(),
        !texture_children_ok(nodes.take(i)),
    ensures
        !texture_children_ok(nodes),
    decreases nodes.len() - i,
{
    if i < nodes.len() {
        assert(nodes.take(i + 1).drop_last() =~= nodes.take(i));
        lemma_texture_children_false_absorbs(nodes, i + 1);
    } else {
        assert(nodes.take(i) =~= nodes);
    }
}

/// Whether `node` is a valid texture child, and how many texture leaves it
/// holds (meaningful when it is valid).
fn texture_child_check(node: &SceneNode) -> (r: (bool, bool))
    ensures
        r.0 == texture_child_ok(*node),
        r.0 ==> (r.1 <==> texture_leaves(*node) > 0),
    decreases node,
{
    match node {
        SceneNode::Image { x, y, w, h, .. } | SceneNode::Video { x, y, w, h, .. }
        | SceneNode::Lottie { x, y, w, h, .. } => (
            finite_all4(*x, *y, *w, *h) && f32_lt(F32_ZERO, *w) && f32_lt(F32_ZERO, *h),
            true,
        ),
        SceneNode::Group { children, .. } => texture_children_check(children),
        _ => (false, false),
    }
}

/// Whether every node is a valid texture child, and whether they hold any
/// texture leaf (meaningful when they are all valid).
fn texture_children_check(nodes: &Vec<SceneNode>) -> (r: (bool, bool))
    ensures
        r.0 == texture_children_ok(nodes@),
        r.0 ==> (r.1 <==> texture_leaves_in(nodes@) > 0),
    decreases nodes,
{
    let mut any = false;
    let mut i: usize = 0;
    while i < nodes.len()
        invariant
            i <= nodes@.len(),
            texture_children_ok(nodes@.take(i as int)),
            any <==> texture_leaves_in(nodes@.take(i as int)) > 0,
        decreases nodes@.len() - i,
    {
        let (ok, leaves) = texture_child_check(&nodes[i]);
        assert(nodes@.take(i + 1).drop_last() =~= nodes@.take(i as int));
        if !ok {
            proof {
                lemma_texture_children_false_absorbs(nodes@, i + 1);
            }
            return (false, false);
        }
        any = any || leaves;
        i = i + 1;
    }
    assert(nodes@.take(i as int) =~= nodes@);
    (true, any)
}

/// `disjoint_textures_ok` on a layer's children.
pub(crate) fn disjoint_textures(children: &Vec<SceneNode>, bounds_disjoint: bool) -> (r: bool)
    ensures
        r == disjoint_textures_ok(children@, bounds_disjoint),
{
    let (ok, any) = texture_children_check(children);
    ok && any && bounds_disjoint
}

// ---------------------------------------------------------------------------
// Scene compilation outcome
// ---------------------------------------------------------------------------

pub open spec fn is_finite_all4(a: u32, b: u32, c: u32, d: u32) -> bool {
    f32_bits_finite(a) && f32_bits_finite(b) && f32_bits_finite(c) && f32_bits_finite(d)
}

/// The blend modes the GPU pipeline has fixed-function blend states for.
pub open spec fn gpu_blend_mode(mode: BlendMode) -> bool {
    match mode {
        BlendMode::Normal
        | BlendMode::Multiply
        | BlendMode::Screen
        | BlendMode::Darken
        | BlendMode::Lighten => true,
        _ => false,
    }
}

/// A clip rectangle a mask slot can hold: finite, with a positive size and
/// a non-negative corner radius.
pub open spec fn clip_rect_shape_ok(x: u32, y: u32, w: u32, h: u32, corner_radius: u32) -> bool {
    &&& is_finite_all4(x, y, w, h)
    &&& f32_bits_finite(corner_radius)
    &&& f32_bits_lt(F32_ZERO, w)
    &&& f32_bits_lt(F32_ZERO, h)
    &&& f32_bits_le(F32_ZERO, corner_radius)
}

/// A clip that maps onto a packed analytic clip slot: a valid rectangle
/// whose screen rectangle stays exact under the layer transform
/// (`support`).
pub open spec fn clip_rect_ok(clip: Option<ClipRegion>, support: bool) -> bool {
    match clip {
        Some(ClipRegion::Rect { x, y, w, h, corner_radius }) => clip_rect_shape_ok(
            x,
            y,
            w,
            h,
            corner_radius,
        ) && support,
        _ => false,
    }
}

/// The path-clip strategy: a normal, alpha-mode layer clipped by one path,
/// drawn through the frame's single path-mask texture.
pub open spec fn layer_path_clip_applies(
    blend_mode: BlendMode,
    clip: Option<ClipRegion>,
    mask: Option<Vec<SceneNode>>,
    mask_mode: MaskMode,
    has_shadow: bool,
    effects: bool,
    support: LayerMaskSupport,
    mask_free: bool,
) -> bool {
    &&& blend_mode == BlendMode::Normal
    &&& clip matches Some(ClipRegion::Path { .. })
    &&& mask is None
    &&& mask_mode == MaskMode::Alpha
    &&& !has_shadow
    &&& mask_free
    &&& effects
    &&& support.clip_path_mask
}

/// A path node a path mask can be drawn from: a fill without a stroke (at
/// stroke width zero), or a stroke without a fill (at a positive width),
/// with a finite stroke width and a finite, non-negative opacity.
pub open spec fn path_mask_node_ok(node: SceneNode) -> bool {
    match node {
        SceneNode::Path { fill, stroke, stroke_width, opacity, .. } => {
            &&& f32_bits_finite(stroke_width)
            &&& f32_bits_finite(opacity)
            &&& !f32_bits_lt(opacity, F32_ZERO)
            &&& ((fill is Some && stroke is None && f32_bits_eq(stroke_width, F32_ZERO)) || (
            fill is None && stroke is Some && f32_bits_lt(F32_ZERO, stroke_width)))
        },
        _ => false,
    }
}

/// The path-mask strategy: an unclipped layer masked by exactly one path,
/// drawn through the path-mask texture, blended normally or by multiply.
pub open spec fn layer_path_mask_applies(
    blend_mode: BlendMode,
    clip: Option<ClipRegion>,
    mask: Option<Vec<SceneNode>>,
    has_shadow: bool,
    filters: Seq<SceneFilter>,
    children: Seq<SceneNode>,
    effects: bool,
    support: LayerMaskSupport,
    mask_free: bool,
) -> bool {
    &&& clip is None
    &&& mask matches Some(nodes) && nodes@.len() == 1 && path_mask_node_ok(nodes@[0])
    &&& !has_shadow
    &&& mask_free
    &&& (blend_mode == BlendMode::Normal || blend_mode == BlendMode::Multiply)
    &&& (blend_mode == BlendMode::Normal || blend_layer_filters_ok(filters))
    &&& blend_children_ok(children)
    &&& effects
    &&& support.mask_path
}

/// The instance strategy: the layer's children are drawn directly with the
/// layer's effects, blend state and analytic clip/mask slots folded into
/// each instance.
pub open spec fn layer_instances_apply(
    opacity: u32,
    blend_mode: BlendMode,
    clip: Option<ClipRegion>,
    mask: Option<Vec<SceneNode>>,
    mask_mode: MaskMode,
    has_shadow: bool,
    filters: Seq<SceneFilter>,
    children: Seq<SceneNode>,
    effects: bool,
    support: LayerMaskSupport,
) -> bool {
    &&& !has_shadow
    &&& effects
    &&& gpu_blend_mode(blend_mode)
    &&& (if blend_mode == BlendMode::Normal {
        f32_bits_le(F32_ONE, opacity) || disjoint_textures_ok(children, support.disjoint_textures)
            || blend_children_ok(
            children,
        )
    } else {
        blend_layer_filters_ok(filters) && blend_children_ok(children)
    })
    &&& (clip is None || clip_rect_ok(clip, support.clip_rect))
    &&& (match mask {
        None => true,
        Some(nodes) => mask_kinds_ok(nodes@, mask_mode) && support.mask_shapes,
    })
}

/// The clip-rect strategy: a normal, unmasked, alpha-mode layer with a
/// rectangular clip.
pub open spec fn layer_clip_rect_applies(
    blend_mode: BlendMode,
    clip: Option<ClipRegion>,
    mask: Option<Vec<SceneNode>>,
    mask_mode: MaskMode,
    has_shadow: bool,
    effects: bool,
    support: LayerMaskSupport,
) -> bool {
    &&& blend_mode == BlendMode::Normal
    &&& clip is Some
    &&& mask is None
    &&& mask_mode == MaskMode::Alpha
    &&& !has_shadow
    &&& effects
    &&& clip_rect_ok(clip, support.clip_rect)
}

/// Outcome of compiling one node. `mask_free` says whether the frame's single
/// path-mask texture is still unused; the result is `None` when the node
/// forces the CPU fallback and otherwise the updated `mask_free`.
pub open spec fn node_compiles(node: SceneNode, mask_free: bool) -> Option<bool>
    decreases node,
{
    match node {
        SceneNode::Rect { .. } | SceneNode::Circle { .. } | SceneNode::Audio { .. } => Some(
            mask_free,
        ),
        SceneNode::Path { tessellated, .. } => if tessellated {
            Some(mask_free)
        } else {
            None
        },
        SceneNode::LinearGradient { stops, inherited_opacity_finite, .. } => if stops@.len() == 0
            || gradient_instance_ok(stops@, inherited_opacity_finite) {
            Some(mask_free)
        } else {
            None
        },
        SceneNode::RadialGradient { stops, inherited_opacity_finite, .. } => if stops@.len() == 0
            || gradient_instance_ok(stops@, inherited_opacity_finite) {
            Some(mask_free)
        } else {
            None
        },
        SceneNode::Image { x, y, w, h, opacity, .. } => if is_finite_all4(x, y, w, h)
            && f32_bits_finite(opacity) && !f32_bits_le(w, F32_ZERO) && !f32_bits_le(h, F32_ZERO)
            && !f32_bits_lt(opacity, F32_ZERO) {
            Some(mask_free)
        } else {
            None
        },
        SceneNode::Video { x, y, w, h, opacity, time, .. } => if is_finite_all4(x, y, w, h)
            && f32_bits_finite(opacity) && !f32_bits_le(w, F32_ZERO) && !f32_bits_le(h, F32_ZERO)
            && f64_bits_finite(time) && !f64_bits_lt(time, F64_ZERO) && !f32_bits_lt(
            opacity,
            F32_ZERO,
        ) {
            Some(mask_free)
        } else {
            None
        },
        SceneNode::Lottie { x, y, w, h, playback_rate, opacity, time, frame_ready, .. } => if
        is_finite_all4(x, y, w, h) && f32_bits_finite(playback_rate) && f32_bits_finite(opacity)
            && f64_bits_finite(time) && !f32_bits_le(w, F32_ZERO) && !f32_bits_le(h, F32_ZERO)
            && !f32_bits_le(playback_rate, F32_ZERO) && !f32_bits_lt(opacity, F32_ZERO)
            && !f32_bits_lt(F32_ONE, opacity) && frame_ready {
            Some(mask_free)
        } else {
            None
        },
        SceneNode::Gif { x, y, w, h, playback_rate, opacity, time, frame_ready, .. } => if
        is_finite_all4(x, y, w, h) && f32_bits_finite(opacity) && f32_bits_finite(playback_rate)
            && !f32_bits_le(w, F32_ZERO) && !f32_bits_le(h, F32_ZERO) && f64_bits_finite(time)
            && !f64_bits_lt(time, F64_ZERO) && !f32_bits_lt(opacity, F32_ZERO) && !f32_bits_lt(
            F32_ONE,
            opacity,
        ) && !f32_bits_le(playback_rate, F32_ZERO) && frame_ready {
            Some(mask_free)
        } else {
            None
        },
        SceneNode::Text { x, y, font_size, glyphs_ready, .. } => if f32_bits_finite(x)
            && f32_bits_finite(y) && f32_bits_finite(font_size) && !f32_bits_le(
            font_size,
            F32_ZERO,
        ) && glyphs_ready {
            Some(mask_free)
        } else {
            None
        },
        SceneNode::Group { opacity, children, transform_finite } => if !transform_finite
            || !f32_bits_finite(opacity) {
            None
        } else {
            nodes_compile(children@, mask_free)
        },
        SceneNode::Layer {
            opacity,
            blend_mode,
            clip,
            mask,
            mask_mode,
            filters,
            has_shadow,
            children,
            mask_support,
        } => {
            let effects = layer_effects_ok(filters@, opacity);
            if layer_path_clip_applies(
                blend_mode,
                clip,
                mask,
                mask_mode,
                has_shadow,
                effects,
                mask_support,
                mask_free,
            ) {
                match nodes_compile(children@, mask_free) {
                    Some(_) => Some(false),
                    None => None,
                }
            } else if layer_path_mask_applies(
                blend_mode,
                clip,
                mask,
                has_shadow,
                filters@,
                children@,
                effects,
                mask_support,
                mask_free,
            ) {
                match nodes_compile(children@, mask_free) {
                    Some(_) => Some(false),
                    None => None,
                }
            } else if layer_instances_apply(
                opacity,
                blend_mode,
                clip,
                mask,
                mask_mode,
                has_shadow,
                filters@,
                children@,
                effects,
                mask_support,
            ) || layer_clip_rect_applies(
                blend_mode,
                clip,
                mask,
                mask_mode,
                has_shadow,
                effects,
                mask_support,
            ) {
                nodes_compile(children@, mask_free)
            } else {
                None
            }
        },
        SceneNode::Emoji { x, y, size, opacity, image_ready, .. } => if f32_bits_finite(x)
            && f32_bits_finite(y) && f32_bits_finite(size) && f32_bits_finite(opacity)
            && !f32_bits_le(size, F32_ZERO) && !f32_bits_lt(opacity, F32_ZERO) && !f32_bits_lt(
            F32_ONE,
            opacity,
        ) && image_ready {
            Some(mask_free)
        } else {
            None
        },
        SceneNode::AudioVisualizer { x, y, width, height, opacity, time, frame_ready, .. } => if
        is_finite_all4(x, y, width, height) && f32_bits_finite(opacity) && !f32_bits_le(
            width,
            F32_ZERO,
        ) && !f32_bits_le(height, F32_ZERO) && f64_bits_finite(time) && !f64_bits_lt(
            time,
            F64_ZERO,
        ) && !f32_bits_lt(opacity, F32_ZERO) && !f32_bits_lt(F32_ONE, opacity) && frame_ready {
            Some(mask_free)
        } else {
            None
        },
        SceneNode::Shader { .. } => None,
    }
}

/// Outcome of compiling a node list in order, threading the path-mask state.
pub open spec fn nodes_compile(nodes: Seq<SceneNode>, mask_free: bool) -> Option<bool>
    decreases nodes,
{
    if nodes.len() == 0 {
        Some(mask_free)
    } else {
        match nodes_compile(nodes.drop_last(), mask_free) {
            Some(free) => node_compiles(nodes.last(), free),
            None => None,
        }
    }
}


pub(crate) proof fn lemma_compile_none_absorbs(nodes: Seq<SceneNode>, mask_free: bool, i: int)
    requires
        0 <= i <= nodes.len(),
        nodes_compile(nodes.take(i), mask_free) is None,
    ensures
        nodes_compile(nodes, mask_free) is None,
    decreases nodes.len() - i,
{
    if i < nodes.len() {
        assert(nodes.take(i + 1).drop_last() =~= nodes.take(i));
        lemma_compile_none_absorbs(nodes, mask_free, i + 1);
    } else {
        assert(nodes.take(i) =~= nodes);
    }
}

/// The draw-command compiler never accepts a node list with a top-level
/// shader node (here node `i`): shaders are drawn only by the shader pass.
pub proof fn lemma_shader_nodes_never_compile(nodes: Seq<SceneNode>, mask_free: bool, i: int)
    requires
        0 <= i < nodes.len(),
        nodes[i] is Shader,
    ensures
        nodes_compile(nodes, mask_free) is None,
{
    assert(nodes.take(i + 1).drop_last() =~= nodes.take(i));
    assert(nodes.take(i + 1).last() == nodes[i]);
    match nodes_compile(nodes.take(i), mask_free) {
        Some(free) => {
            assert(node_compiles(nodes[i], free) is None);
        },
        None => {},
    }
    assert(nodes_compile(nodes.take(i + 1), mask_free) is None);
    lemma_compile_none_absorbs(nodes, mask_free, i + 1);
}

pub(crate) fn finite_all4(a: u32, b: u32, c: u32, d: u32) -> (r: bool)
    ensures
        r == is_finite_all4(a, b, c, d),
{
    f32_is_finite(a) && f32_is_finite(b) && f32_is_finite(c) && f32_is_finite(d)
}

pub(crate) fn is_gpu_blend_mode(mode: BlendMode) -> (r: bool)
    ensures
        r == gpu_blend_mode(mode),
{
    match mode {
        BlendMode::Normal
        | BlendMode::Multiply
        | BlendMode::Screen
        | BlendMode::Darken
        | BlendMode::Lighten => true,
        _ => false,
    }
}

pub(crate) fn rect_clip_shape_ok(clip: &Option<ClipRegion>) -> (r: bool)
    ensures
        r == clip_rect_ok(*clip, true),
{
    match clip {
        Some(ClipRegion::Rect { x, y, w, h, corner_radius }) => finite_all4(*x, *y, *w, *h)
            && f32_is_finite(*corner_radius) && f32_lt(F32_ZERO, *w) && f32_lt(F32_ZERO, *h)
            && f32_le(F32_ZERO, *corner_radius),
        _ => false,
    }
}

pub(crate) fn mask_slots_ok(mask: &Option<Vec<SceneNode>>, mask_mode: MaskMode, support: bool) -> (r: bool)
    ensures
        r == match *mask {
            None => true,
            Some(nodes) => mask_kinds_ok(nodes@, mask_mode) && support,
        },
{
    match mask {
        None => true,
        Some(nodes) => gpu_mask_kinds(nodes, mask_mode).is_some() && support,
    }
}

pub(crate) fn is_single_path_mask(mask: &Option<Vec<SceneNode>>) -> (r: bool)
    ensures
        r == (*mask matches Some(nodes) && nodes@.len() == 1 && path_mask_node_ok(nodes@[0])),
{
    match mask {
        Some(nodes) => nodes.len() == 1 && match &nodes[0] {
            SceneNode::Path { fill, stroke, stroke_width, opacity, .. } => f32_is_finite(
                *stroke_width,
            ) && f32_is_finite(*opacity) && !f32_lt(*opacity, F32_ZERO) && ((fill.is_some()
                && stroke.is_none() && f32_eq(*stroke_width, F32_ZERO)) || (fill.is_none()
                && stroke.is_some() && f32_lt(F32_ZERO, *stroke_width))),
            _ => false,
        },
        None => false,
    }
}

fn compile_layer(
    opacity: u32,
    blend_mode: BlendMode,
    clip: &Option<ClipRegion>,
    mask: &Option<Vec<SceneNode>>,
    mask_mode: MaskMode,
    filters: &Vec<SceneFilter>,
    has_shadow: bool,
    children: &Vec<SceneNode>,
    mask_support: LayerMaskSupport,
    mask_free: bool,
) -> (r: Option<bool>)
    ensures
        r == node_compiles(
            SceneNode::Layer {
                opacity,
                blend_mode,
                clip: *clip,
                mask: *mask,
                mask_mode,
                filters: *filters,
                has_shadow,
                children: *children,
                mask_support,
            },
            mask_free,
        ),
    decreases children, 1nat,
{
    let effects = gpu_layer_effects_supported(filters.as_slice(), opacity);
    let is_normal = blend_mode == BlendMode::Normal;
    let path_clip = is_normal && match clip {
        Some(ClipRegion::Path { .. }) => true,
        _ => false,
    } && mask.is_none() && mask_mode == MaskMode::Alpha && !has_shadow && mask_free && effects
        && mask_support.clip_path_mask;
    if path_clip {
        return match compile_nodes(children, mask_free) {
            Some(_) => Some(false),
            None => None,
        };
    }
    let path_mask = clip.is_none() && is_single_path_mask(mask) && !has_shadow && mask_free && (
    is_normal || blend_mode == BlendMode::Multiply) && (is_normal
        || gpu_blend_layer_filters_supported(filters.as_slice())) && gpu_blend_children_supported(
        children,
    ) && effects && mask_support.mask_path;
    if path_mask {
        return match compile_nodes(children, mask_free) {
            Some(_) => Some(false),
            None => None,
        };
    }
    let strategy_ok = if is_normal {
        f32_le(F32_ONE, opacity) || disjoint_textures(children, mask_support.disjoint_textures)
            || gpu_blend_children_supported(
            children,
        )
    } else {
        gpu_blend_layer_filters_supported(filters.as_slice()) && gpu_blend_children_supported(
            children,
        )
    };
    let instances = !has_shadow && effects && is_gpu_blend_mode(blend_mode) && strategy_ok && (
    clip.is_none() || (rect_clip_shape_ok(clip) && mask_support.clip_rect)) && mask_slots_ok(
        mask,
        mask_mode,
        mask_support.mask_shapes,
    );
    let clip_rect = is_normal && clip.is_some() && mask.is_none() && mask_mode == MaskMode::Alpha
        && !has_shadow && effects && rect_clip_shape_ok(clip) && mask_support.clip_rect;
    if instances || clip_rect {
        compile_nodes(children, mask_free)
    } else {
        None
    }
}

/// Compile-outcome of one node (see `node_compiles`).
pub(crate) fn compile_node(node: &SceneNode, mask_free: bool) -> (r: Option<bool>)
    ensures
        r == node_compiles(*node, mask_free),
    decreases node, 2nat,
{
    let ok = match node {
        SceneNode::Rect { .. } | SceneNode::Circle { .. } | SceneNode::Audio { .. } => true,
        SceneNode::Path { tessellated, .. } => *tessellated,
        SceneNode::LinearGradient { stops, inherited_opacity_finite, .. } => stops.len() == 0
            || gradient_instance_ok_exec(stops, *inherited_opacity_finite),
        SceneNode::RadialGradient { stops, inherited_opacity_finite, .. } => stops.len() == 0
            || gradient_instance_ok_exec(stops, *inherited_opacity_finite),
        SceneNode::Image { x, y, w, h, opacity, .. } => finite_all4(*x, *y, *w, *h)
            && f32_is_finite(*opacity) && !f32_le(*w, F32_ZERO) && !f32_le(*h, F32_ZERO)
            && !f32_lt(*opacity, F32_ZERO),
        SceneNode::Video { x, y, w, h, opacity, time, .. } => finite_all4(*x, *y, *w, *h)
            && f32_is_finite(*opacity) && !f32_le(*w, F32_ZERO) && !f32_le(*h, F32_ZERO)
            && f64_is_finite(*time) && !f64_lt(*time, F64_ZERO) && !f32_lt(*opacity, F32_ZERO),
        SceneNode::Lottie { x, y, w, h, playback_rate, opacity, time, frame_ready, .. } =>
            finite_all4(*x, *y, *w, *h) && f32_is_finite(*playback_rate) && f32_is_finite(*opacity)
            && f64_is_finite(*time) && !f32_le(*w, F32_ZERO) && !f32_le(*h, F32_ZERO) && !f32_le(
            *playback_rate,
            F32_ZERO,
        ) && !f32_lt(*opacity, F32_ZERO) && !f32_lt(F32_ONE, *opacity) && *frame_ready,
        SceneNode::Gif { x, y, w, h, playback_rate, opacity, time, frame_ready, .. } =>
            finite_all4(*x, *y, *w, *h) && f32_is_finite(*opacity) && f32_is_finite(*playback_rate)
            && !f32_le(*w, F32_ZERO) && !f32_le(*h, F32_ZERO) && f64_is_finite(*time) && !f64_lt(
            *time,
            F64_ZERO,
        ) && !f32_lt(*opacity, F32_ZERO) && !f32_lt(F32_ONE, *opacity) && !f32_le(
            *playback_rate,
            F32_ZERO,
        ) && *frame_ready,
        SceneNode::Text { x, y, font_size, glyphs_ready, .. } => f32_is_finite(*x) && f32_is_finite(
            *y,
        ) && f32_is_finite(*font_size) && !f32_le(*font_size, F32_ZERO) && *glyphs_ready,
        SceneNode::Group { opacity, children, transform_finite } => {
            if !*transform_finite || !f32_is_finite(*opacity) {
                return None;
            }
            return compile_nodes(children, mask_free);
        },
        SceneNode::Layer {
            opacity,
            blend_mode,
            clip,
            mask,
            mask_mode,
            filters,
            has_shadow,
            children,
            mask_support,
        } => {
            return compile_layer(
                *opacity,
                *blend_mode,
                clip,
                mask,
                *mask_mode,
                filters,
                *has_shadow,
                children,
                *mask_support,
                mask_free,
            );
        },
        SceneNode::Emoji { x, y, size, opacity, image_ready, .. } => f32_is_finite(*x)
            && f32_is_finite(*y) && f32_is_finite(*size) && f32_is_finite(*opacity) && !f32_le(
            *size,
            F32_ZERO,
        ) && !f32_lt(*opacity, F32_ZERO) && !f32_lt(F32_ONE, *opacity) && *image_ready,
        SceneNode::AudioVisualizer { x, y, width, height, opacity, time, frame_ready, .. } =>
            finite_all4(*x, *y, *width, *height) && f32_is_finite(*opacity) && !f32_le(
            *width,
            F32_ZERO,
        ) && !f32_le(*height, F32_ZERO) && f64_is_finite(*time) && !f64_lt(*time, F64_ZERO)
            && !f32_lt(*opacity, F32_ZERO) && !f32_lt(F32_ONE, *opacity) && *frame_ready,
        SceneNode::Shader { .. } => false,
    };
    if ok {
        Some(mask_free)
    } else {
        None
    }
}

/// Compile-outcome of a node list (see `nodes_compile`); stops at the first
/// node that needs the CPU fallback.
pub(crate) fn compile_nodes(nodes: &Vec<SceneNode>, mask_free: bool) -> (r: Option<bool>)
    ensures
        r == nodes_compile(nodes@, mask_free),
    decreases nodes, 0nat,
{
    let mut state: bool = mask_free;
    let mut i: usize = 0;
    while i < nodes.len()
        invariant
            i <= nodes@.len(),
            nodes_compile(nodes@.take(i as int), mask_free) == Some(state),
        decreases nodes@.len() - i,
    {
        let next = compile_node(&nodes[i], state);
        assert(nodes@.take(i + 1).drop_last() =~= nodes@.take(i as int));
        match next {
            Some(free) => {
                state = free;
            },
            None => {
                proof {
                    lemma_compile_none_absorbs(nodes@, mask_free, i + 1);
                }
                return None;
            },
        }
        i = i + 1;
    }
    assert(nodes@.take(i as int) =~= nodes@);
    Some(state)
}

/// Compile-outcome of the first `len` nodes, starting with a free path-mask
/// texture.
pub(crate) fn compile_prefix(nodes: &Vec<SceneNode>, len: usize) -> (r: Option<bool>)
    requires
        len <= nodes@.len(),
    ensures
        r == nodes_compile(nodes@.take(len as int), true),
{
    let ghost prefix = nodes@.take(len as int);
    let mut state: bool = true;
    let mut i: usize = 0;
    while i < len
        invariant
            len <= nodes@.len(),
            prefix == nodes@.take(len as int),
            i <= len,
            nodes_compile(prefix.take(i as int), true) == Some(state),
        decreases len - i,
    {
        let next = compile_node(&nodes[i], state);
        assert(prefix.take(i + 1).drop_last() =~= prefix.take(i as int));
        assert(prefix.take(i + 1).last() == nodes@[i as int]);
        match next {
            Some(free) => {
                state = free;
            },
            None => {
                proof {
                    lemma_compile_none_absorbs(prefix, true, i + 1);
                }
                return None;
            },
        }
        i = i + 1;
    }
    assert(prefix.take(i as int) =~= prefix);
    Some(state)
}

/// A shader node the direct shader pass accepts: finite geometry, positive
/// size, opacity in `[0, 1]`.
pub open spec fn shader_node_valid(node: SceneNode) -> bool {
    match node {
        SceneNode::Shader { x, y, w, h, opacity, .. } => is_finite_all4(x, y, w, h)
            && f32_bits_finite(opacity) && f32_bits_lt(F32_ZERO, w) && f32_bits_lt(F32_ZERO, h)
            && f32_bits_within(opacity, F32_ZERO, F32_ONE),
        _ => false,
    }
}

/// Whether the GPU renders `nodes` without falling back to the CPU: either a
/// non-empty scene made only of valid shader nodes, or a scene the draw
/// command compiler accepts.
pub open spec fn scene_gpu_supported(nodes: Seq<SceneNode>) -> bool {
    (nodes.len() > 0 && forall|i: int| 0 <= i < nodes.len() ==> #[trigger] shader_node_valid(
        nodes[i],
    )) || nodes_compile(nodes, true) is Some
}

fn shader_node_valid_exec(node: &SceneNode) -> (r: bool)
    ensures
        r == shader_node_valid(*node),
{
    match node {
        SceneNode::Shader { x, y, w, h, opacity, .. } => finite_all4(*x, *y, *w, *h)
            && f32_is_finite(*opacity) && f32_lt(F32_ZERO, *w) && f32_lt(F32_ZERO, *h)
            && f32_within(*opacity, F32_ZERO, F32_ONE),
        _ => false,
    }
}

pub fn gpu_supports_scene(scene: &Scene) -> (r: bool)
    ensures
        r == scene_gpu_supported(scene.nodes@),
{
    let nodes = &scene.nodes;
    if nodes.len() > 0 {
        let mut all_shaders = true;
        let mut i: usize = 0;
        while i < nodes.len()
            invariant
                i <= nodes@.len(),
                all_shaders == forall|k: int| 0 <= k < i ==> #[trigger] shader_node_valid(nodes@[k]),
            decreases nodes@.len() - i,
        {
            let ok = shader_node_valid_exec(&nodes[i]);
            proof {
                if !ok {
                    assert(!shader_node_valid(nodes@[i as int]));
                }
            }
            all_shaders = all_shaders && ok;
            i = i + 1;
        }
        if all_shaders {
            return true;
        }
    }
    compile_nodes(nodes, true).is_some()
}


/// A top-level layer blended by multiply, screen, darken or lighten.
pub open spec fn is_blend_layer(node: SceneNode) -> bool {
    match node {
        SceneNode::Layer { blend_mode, .. } => blend_mode == BlendMode::Multiply || blend_mode
            == BlendMode::Screen || blend_mode == BlendMode::Darken || blend_mode
            == BlendMode::Lighten,
        _ => false,
    }
}

/// Whether the scene has a top-level blended layer, in which case every
/// compiled command of the frame is flagged for the blend-aware composite.
pub fn scene_uses_blend_layers(scene: &Scene) -> (r: bool)
    ensures
        r == exists|i: int| 0 <= i < scene.nodes@.len() && #[trigger] is_blend_layer(scene.nodes@[i]),
{
    let nodes = &scene.nodes;
    let mut i: usize = 0;
    while i < nodes.len()
        invariant
            i <= nodes@.len(),
            nodes@ == scene.nodes@,
            forall|k: int| 0 <= k < i ==> !#[trigger] is_blend_layer(nodes@[k]),
        decreases nodes@.len() - i,
    {
        let hit = match &nodes[i] {
            SceneNode::Layer { blend_mode, .. } => *blend_mode == BlendMode::Multiply || *blend_mode
                == BlendMode::Screen || *blend_mode == BlendMode::Darken || *blend_mode
                == BlendMode::Lighten,
            _ => false,
        };
        if hit {
            assert(is_blend_layer(nodes@[i as int]));
            return true;
        }
        i = i + 1;
    }
    false
}

// ---------------------------------------------------------------------------
// Fallback attribution and the offscreen overlap path
// ---------------------------------------------------------------------------

pub open spec fn is_texture_or_group(node: SceneNode) -> bool {
    node is Image || node is Video || node is Lottie || node is Group
}

pub open spec fn has_texture_or_group(nodes: Seq<SceneNode>) -> bool {
    exists|i: int| 0 <= i < nodes.len() && #[trigger] is_texture_or_group(nodes[i])
}

/// A translucent normal layer whose texture children overlap: only an
/// offscreen layer pass could draw it.
pub open spec fn is_overlapping_texture_layer(node: SceneNode) -> bool {
    match node {
        SceneNode::Layer { opacity, blend_mode, children, mask_support, .. } => blend_mode
            == BlendMode::Normal && f32_bits_lt(opacity, F32_ONE) && !disjoint_textures_ok(
            children@,
            mask_support.disjoint_textures,
        )
            && has_texture_or_group(children@),
        _ => false,
    }
}

fn texture_or_group_present(nodes: &Vec<SceneNode>) -> (r: bool)
    ensures
        r == has_texture_or_group(nodes@),
{
    let mut i: usize = 0;
    while i < nodes.len()
        invariant
            i <= nodes@.len(),
            forall|k: int| 0 <= k < i ==> !#[trigger] is_texture_or_group(nodes@[k]),
        decreases nodes@.len() - i,
    {
        let hit = match &nodes[i] {
            SceneNode::Image { .. } | SceneNode::Video { .. } | SceneNode::Lottie { .. }
            | SceneNode::Group { .. } => true,
            _ => false,
        };
        if hit {
            assert(is_texture_or_group(nodes@[i as int]));
            return true;
        }
        i = i + 1;
    }
    false
}

fn overlapping_texture_layer(node: &SceneNode) -> (r: bool)
    ensures
        r == is_overlapping_texture_layer(*node),
{
    match node {
        SceneNode::Layer { opacity, blend_mode, children, mask_support, .. } => *blend_mode
            == BlendMode::Normal && f32_lt(*opacity, F32_ONE) && !disjoint_textures(
            children,
            mask_support.disjoint_textures,
        )
            && texture_or_group_present(children),
        _ => false,
    }
}

/// The diagnostic for a rejected node list: whether one of its nodes is a
/// translucent layer with overlapping texture children.
pub open spec fn fallback_reason_text(nodes: Seq<SceneNode>) -> Seq<char> {
    if exists|i: int| 0 <= i < nodes.len() && #[trigger] is_overlapping_texture_layer(nodes[i]) {
        "overlapping texture layer requires offscreen compositing"@
    } else {
        "scene contains GPU-unsupported nodes or effects"@
    }
}

/// `gpu_fallback_reason` on the first `len` nodes.
pub(crate) fn fallback_reason_upto(nodes: &Vec<SceneNode>, len: usize) -> (r: &'static str)
    requires
        len <= nodes@.len(),
    ensures
        r@ == fallback_reason_text(nodes@.take(len as int)),
{
    let mut i: usize = 0;
    while i < len
        invariant
            len <= nodes@.len(),
            i <= len,
            forall|k: int| 0 <= k < i ==> !#[trigger] is_overlapping_texture_layer(nodes@[k]),
        decreases len - i,
    {
        if overlapping_texture_layer(&nodes[i]) {
            assert(is_overlapping_texture_layer(nodes@.take(len as int)[i as int]));
            return "overlapping texture layer requires offscreen compositing";
        }
        i = i + 1;
    }
    assert forall|k: int|
        0 <= k < len implies !#[trigger] is_overlapping_texture_layer(
        nodes@.take(len as int)[k],
    ) by {
        assert(nodes@.take(len as int)[k] == nodes@[k]);
    }
    "scene contains GPU-unsupported nodes or effects"
}

/// Why a scene that the GPU compiler rejected is rendered on the CPU. The
/// text is for diagnostics only.
pub fn gpu_fallback_reason(scene: &Scene) -> (r: &'static str)
    ensures
        r@ == fallback_reason_text(scene.nodes@),
{
    let r = fallback_reason_upto(&scene.nodes, scene.nodes.len());
    assert(scene.nodes@.take(scene.nodes@.len() as int) =~= scene.nodes@);
    r
}

/// The last node qualifies for the single offscreen-layer composite: a
/// translucent, finite-opacity, normal layer without clip, mask or shadow,
/// with only valid opacity filters, at least two children that overlap, and
/// a texture or group among them.
pub open spec fn trailing_overlap_layer(node: SceneNode) -> bool {
    match node {
        SceneNode::Layer {
            opacity,
            blend_mode,
            clip,
            mask,
            filters,
            has_shadow,
            children,
            mask_support,
            ..
        } => {
            &&& blend_mode == BlendMode::Normal
            &&& clip is None
            &&& mask is None
            &&& !has_shadow
            &&& !f32_bits_le(F32_ONE, opacity)
            &&& f32_bits_finite(opacity)
            &&& blend_layer_filters_ok(filters@)
            &&& children@.len() >= 2
            &&& !disjoint_textures_ok(children@, mask_support.disjoint_textures)
            &&& has_texture_or_group(children@)
        },
        _ => false,
    }
}

/// Whether the scene ends in a layer that the offscreen overlap path can
/// composite over the rest of the scene.
pub fn has_trailing_overlap_texture_layer(scene: &Scene) -> (r: bool)
    ensures
        r == (scene.nodes@.len() > 0 && trailing_overlap_layer(scene.nodes@.last())),
{
    let n = scene.nodes.len();
    if n == 0 {
        return false;
    }
    match &scene.nodes[n - 1] {
        SceneNode::Layer {
            opacity,
            blend_mode,
            clip,
            mask,
            filters,
            has_shadow,
            children,
            mask_support,
            ..
        } => *blend_mode == BlendMode::Normal && clip.is_none() && mask.is_none() && !*has_shadow
            && !f32_le(F32_ONE, *opacity) && f32_is_finite(*opacity)
            && gpu_blend_layer_filters_supported(filters.as_slice()) && children.len() >= 2
            && !disjoint_textures(children, mask_support.disjoint_textures)
            && texture_or_group_present(children),
        _ => false,
    }
}


/// A blur cannot be folded into per-instance GPU parameters: a layer whose
/// filter chain holds a blur (filter `k` of node `i`) never has its effects
/// accepted, the compiler rejects it whatever strategy it would take, and a
/// scene holding it at top level falls back to the CPU.
pub proof fn lemma_blur_layers_fall_back(nodes: Seq<SceneNode>, i: int, k: int)
    requires
        0 <= i < nodes.len(),
        nodes[i] matches SceneNode::Layer { filters, .. } && 0 <= k < filters@.len()
            && filters@[k] is Blur,
    ensures
        nodes[i] matches SceneNode::Layer { filters, opacity, .. } && !layer_effects_ok(
            filters@,
            opacity,
        ),
        forall|mask_free: bool| #[trigger] node_compiles(nodes[i], mask_free) is None,
        !scene_gpu_supported(nodes),
{
    match nodes[i] {
        SceneNode::Layer { filters, opacity, .. } => {
            assert(!filter_accepted(filters@[k]));
            assert(!layer_effects_ok(filters@, opacity));
        },
        _ => {},
    }
    assert(nodes.take(i + 1).drop_last() =~= nodes.take(i));
    assert(nodes.take(i + 1).last() == nodes[i]);
    match nodes_compile(nodes.take(i), true) {
        Some(free) => {
            assert(node_compiles(nodes[i], free) is None);
        },
        None => {},
    }
    assert(nodes_compile(nodes.take(i + 1), true) is None);
    lemma_compile_none_absorbs(nodes, true, i + 1);
    assert(!shader_node_valid(nodes[i]));
}

/// The compiler only accepts a layer whose look folds into its children's
/// instances: no drop shadow, a finite opacity, and a filter chain made only
/// of accepted filters, none of them a blur.
pub proof fn lemma_compiled_layers_fold_their_effects(node: SceneNode, mask_free: bool)
    requires
        node is Layer,
        node_compiles(node, mask_free) is Some,
    ensures
        node matches SceneNode::Layer { has_shadow, opacity, filters, .. } && !has_shadow
            && f32_bits_finite(opacity) && layer_effects_ok(filters@, opacity) && forall|i: int|
            0 <= i < filters@.len() ==> !(#[trigger] filters@[i] is Blur),
{
    match node {
        SceneNode::Layer { filters, .. } => {
            assert forall|i: int| 0 <= i < filters@.len() implies !(#[trigger] filters@[i] is Blur) by {
                assert(filter_accepted(filters@[i]));
            }
        },
        _ => {},
    }
}
} // verus!
