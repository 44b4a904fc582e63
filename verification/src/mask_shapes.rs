//! Which mask nodes become analytic mask slots, and the color a path mask is
//! drawn with.
//!
//! A layer mask of up to four simple shapes is evaluated per fragment from
//! the instance's mask slots instead of an offscreen mask texture. Each
//! shape gets a slot kind; the slot geometry itself is the shape mapped
//! through the layer's transform, which must be axis-aligned (and a uniform
//! scale for round shapes) for the slot to stay exact.
use vstd::prelude::*;
use crate::float_bits::{
    f32_bits_eq, f32_bits_finite, f32_bits_le, f32_bits_lt, f32_eq, f32_is_finite, f32_le,
    f32_lt, F32_ZERO,
};
use crate::gpu_support::{gradient_stops_valid, valid_gpu_gradient_stops};
use crate::scene::{Color, MaskMode, SceneNode};

verus! {

/// Slot kind of a square-cornered rectangle.
pub const MASK_KIND_RECT: u32 = 0;

/// Slot kind of a circle.
pub const MASK_KIND_CIRCLE: u32 = 1;

/// Slot kind of a linear gradient read through its alpha.
pub const MASK_KIND_LINEAR_ALPHA: u32 = 2;

/// Slot kind of a linear gradient read through its luminance.
pub const MASK_KIND_LINEAR_LUMINANCE: u32 = 3;

/// Slot kind of a radial gradient.
pub const MASK_KIND_RADIAL: u32 = 4;

/// Slot kind of a rounded rectangle.
pub const MASK_KIND_ROUNDED_RECT: u32 = 5;

/// The slot kind of a mask node before the mask mode is applied: plain
/// filled rectangles and circles with finite geometry and a positive size,
/// and two-to-four-stop gradients with valid stops.
pub open spec fn mask_shape_base_kind(node: SceneNode) -> Option<u32> {
    match node {
        SceneNode::Rect { x, y, w, h, stroke, stroke_width, corner_radius, .. } => if stroke is None
            && f32_bits_finite(x) && f32_bits_finite(y) && f32_bits_finite(w) && f32_bits_finite(h)
            && f32_bits_finite(stroke_width) && f32_bits_finite(corner_radius) && f32_bits_lt(
            F32_ZERO,
            w,
        ) && f32_bits_lt(F32_ZERO, h) && f32_bits_eq(stroke_width, F32_ZERO) && f32_bits_le(
            F32_ZERO,
            corner_radius,
        ) {
            if f32_bits_lt(F32_ZERO, corner_radius) {
                Some(MASK_KIND_ROUNDED_RECT)
            } else {
                Some(MASK_KIND_RECT)
            }
        } else {
            None
        },
        SceneNode::Circle { cx, cy, r, stroke, stroke_width, .. } => if stroke is None
            && f32_bits_finite(cx) && f32_bits_finite(cy) && f32_bits_finite(r) && f32_bits_finite(
            stroke_width,
        ) && f32_bits_lt(F32_ZERO, r) && f32_bits_eq(stroke_width, F32_ZERO) {
            Some(MASK_KIND_CIRCLE)
        } else {
            None
        },
        SceneNode::LinearGradient { x, y, w, h, angle_deg, stops, .. } => if f32_bits_finite(x)
            && f32_bits_finite(y) && f32_bits_finite(w) && f32_bits_finite(h) && f32_bits_finite(
            angle_deg,
        ) && f32_bits_lt(F32_ZERO, w) && f32_bits_lt(F32_ZERO, h) && gradient_stops_valid(stops@) {
            Some(MASK_KIND_LINEAR_ALPHA)
        } else {
            None
        },
        SceneNode::RadialGradient { cx, cy, r, stops, .. } => if f32_bits_finite(cx)
            && f32_bits_finite(cy) && f32_bits_finite(r) && f32_bits_lt(F32_ZERO, r)
            && gradient_stops_valid(stops@) {
            Some(MASK_KIND_RADIAL)
        } else {
            None
        },
        _ => None,
    }
}

/// The color a solid mask shape is filled with (gradients use their stops).
pub open spec fn mask_shape_fill(node: SceneNode) -> Color {
    match node {
        SceneNode::Rect { fill, .. } => fill,
        SceneNode::Circle { fill, .. } => fill,
        _ => Color { r: 255, g: 255, b: 255, a: 255 },
    }
}

/// The slot kind of a mask node under `mask_mode`. A linear gradient is
/// read through its luminance in luminance mode; a solid shape can only be
/// read through its luminance when its fill is a grey, whose luminance is
/// its channel value.
pub open spec fn mask_shape_kind(node: SceneNode, mask_mode: MaskMode) -> Option<u32> {
    match mask_shape_base_kind(node) {
        None => None,
        Some(kind) => if kind == MASK_KIND_LINEAR_ALPHA {
            if mask_mode == MaskMode::Luminance {
                Some(MASK_KIND_LINEAR_LUMINANCE)
            } else {
                Some(MASK_KIND_LINEAR_ALPHA)
            }
        } else if mask_mode == MaskMode::Luminance && !(mask_shape_fill(node).r == mask_shape_fill(
            node,
        ).g && mask_shape_fill(node).g == mask_shape_fill(node).b) {
            None
        } else {
            Some(kind)
        },
    }
}

fn finite3(a: u32, b: u32, c: u32) -> (r: bool)
    ensures
        r == (f32_bits_finite(a) && f32_bits_finite(b) && f32_bits_finite(c)),
{
    f32_is_finite(a) && f32_is_finite(b) && f32_is_finite(c)
}

/// Slot kind of one mask node, or `None` when it cannot be an analytic
/// mask slot under any transform.
pub fn gpu_mask_shape_kind(node: &SceneNode, mask_mode: MaskMode) -> (r: Option<u32>)
    ensures
        r == mask_shape_kind(*node, mask_mode),
{
    let (base, fill): (Option<u32>, Color) = match node {
        SceneNode::Rect { x, y, w, h, fill, stroke, stroke_width, corner_radius } => {
            let ok = stroke.is_none() && finite3(*x, *y, *w) && finite3(
                *h,
                *stroke_width,
                *corner_radius,
            ) && f32_lt(F32_ZERO, *w) && f32_lt(F32_ZERO, *h) && f32_eq(*stroke_width, F32_ZERO)
                && f32_le(F32_ZERO, *corner_radius);
            let kind = if !ok {
                None
            } else if f32_lt(F32_ZERO, *corner_radius) {
                Some(MASK_KIND_ROUNDED_RECT)
            } else {
                Some(MASK_KIND_RECT)
            };
            (kind, *fill)
        },
        SceneNode::Circle { cx, cy, r, fill, stroke, stroke_width } => {
            let ok = stroke.is_none() && finite3(*cx, *cy, *r) && f32_is_finite(*stroke_width)
                && f32_lt(F32_ZERO, *r) && f32_eq(*stroke_width, F32_ZERO);
            (
                if ok {
                    Some(MASK_KIND_CIRCLE)
                } else {
                    None
                },
                *fill,
            )
        },
        SceneNode::LinearGradient { x, y, w, h, angle_deg, stops, .. } => {
            let ok = finite3(*x, *y, *w) && finite3(*h, *angle_deg, *angle_deg) && f32_lt(
                F32_ZERO,
                *w,
            ) && f32_lt(F32_ZERO, *h) && valid_gpu_gradient_stops(stops.as_slice());
            (
                if ok {
                    Some(MASK_KIND_LINEAR_ALPHA)
                } else {
                    None
                },
                Color::white(),
            )
        },
        SceneNode::RadialGradient { cx, cy, r, stops, .. } => {
            let ok = finite3(*cx, *cy, *r) && f32_lt(F32_ZERO, *r) && valid_gpu_gradient_stops(
                stops.as_slice(),
            );
            (
                if ok {
                    Some(MASK_KIND_RADIAL)
                } else {
                    None
                },
                Color::white(),
            )
        },
        _ => (None, Color::white()),
    };
    assert(base == mask_shape_base_kind(*node));
    assert(fill == mask_shape_fill(*node));
    match base {
        None => None,
        Some(kind) => if kind == MASK_KIND_LINEAR_ALPHA {
            if mask_mode == MaskMode::Luminance {
                Some(MASK_KIND_LINEAR_LUMINANCE)
            } else {
                Some(MASK_KIND_LINEAR_ALPHA)
            }
        } else if mask_mode == MaskMode::Luminance && !(fill.r == fill.g && fill.g == fill.b) {
            None
        } else {
            Some(kind)
        },
    }
}

/// A mask list that fits the four analytic slots: one to four nodes, each
/// with a slot kind.
pub open spec fn mask_kinds_ok(mask: Seq<SceneNode>, mask_mode: MaskMode) -> bool {
    &&& 1 <= mask.len() <= 4
    &&& forall|i: int| 0 <= i < mask.len() ==> #[trigger] mask_shape_kind(mask[i], mask_mode) is Some
}

/// The slot kinds of a layer mask, one per node in order, or `None` when
/// the mask cannot be drawn from analytic slots.
pub fn gpu_mask_kinds(mask: &Vec<SceneNode>, mask_mode: MaskMode) -> (r: Option<Vec<u32>>)
    ensures
        r is Some <==> mask_kinds_ok(mask@, mask_mode),
        r matches Some(kinds) ==> kinds@.len() == mask@.len() && forall|i: int|
            0 <= i < mask@.len() ==> mask_shape_kind(mask@[i], mask_mode) == Some(
                #[trigger] kinds@[i],
            ),
{
    if mask.len() == 0 || mask.len() > 4 {
        return None;
    }
    let mut kinds: Vec<u32> = Vec::new();
    let mut i: usize = 0;
    while i < mask.len()
        invariant
            1 <= mask@.len() <= 4,
            i <= mask@.len(),
            kinds@.len() == i,
            forall|k: int|
                0 <= k < i ==> mask_shape_kind(mask@[k], mask_mode) == Some(#[trigger] kinds@[k]),
        decreases mask@.len() - i,
    {
        match gpu_mask_shape_kind(&mask[i], mask_mode) {
            Some(kind) => {
                kinds.push(kind);
            },
            None => {
                assert(mask_shape_kind(mask@[i as int], mask_mode) is None);
                return None;
            },
        }
        i = i + 1;
    }
    assert forall|k: int| 0 <= k < mask@.len() implies #[trigger] mask_shape_kind(
        mask@[k],
        mask_mode,
    ) is Some by {
        assert(mask_shape_kind(mask@[k], mask_mode) == Some(kinds@[k]));
    }
    Some(kinds)
}

/// The color a path mask is drawn with: the mask value goes to alpha,
/// since the path-mask pass keeps only the alpha channel. In alpha mode it
/// is the color's alpha; in luminance mode it is `luminance` scaled by the
/// alpha, rounded to nearest. `luminance` is the color's Rec. 709 luma,
/// `round(0.2126 r + 0.7152 g + 0.0722 b)`, which the caller evaluates in
/// `f32`; it is read only in luminance mode.
pub fn path_mask_color(color: Color, mask_mode: MaskMode, luminance: u8) -> (r: Color)
    ensures
        r.r == 255 && r.g == 255 && r.b == 255,
        mask_mode == MaskMode::Alpha ==> r.a == color.a,
        mask_mode == MaskMode::Luminance ==> r.a == (luminance as int * color.a as int + 127) / 255,
{
    match mask_mode {
        MaskMode::Alpha => Color::rgba(255, 255, 255, color.a),
        MaskMode::Luminance => {
            assert(luminance as int * color.a as int <= 255 * 255) by (nonlinear_arith)
                requires
                    luminance <= 255,
                    color.a <= 255,
            ;
            let product: u16 = luminance as u16 * color.a as u16;
            let alpha: u16 = (product + 127) / 255;
            Color::rgba(255, 255, 255, alpha as u8)
        },
    }
}


/// In luminance mode a solid rectangle or circle becomes an analytic slot
/// exactly when it would in alpha mode and its own fill is a grey
/// (`r == g == b`); its fill never matters in alpha mode.
pub proof fn lemma_luminance_slots_need_grey_fill(node: SceneNode)
    ensures
        node matches SceneNode::Circle { fill, .. } ==> (mask_shape_kind(node, MaskMode::Luminance)
            is Some <==> (mask_shape_kind(node, MaskMode::Alpha) is Some && fill.r == fill.g
            && fill.g == fill.b)),
        node matches SceneNode::Rect { fill, .. } ==> (mask_shape_kind(node, MaskMode::Luminance)
            is Some <==> (mask_shape_kind(node, MaskMode::Alpha) is Some && fill.r == fill.g
            && fill.g == fill.b)),
        (node is Circle || node is Rect) && mask_shape_kind(node, MaskMode::Luminance) is Some
            ==> mask_shape_kind(node, MaskMode::Luminance) == mask_shape_kind(node, MaskMode::Alpha),
{
}

/// A stroked rectangle or circle never becomes an analytic slot, in either
/// mask mode; a linear gradient is a slot in luminance mode exactly when it
/// is one in alpha mode, read through its luminance instead of its alpha.
pub proof fn lemma_mask_slot_modes(node: SceneNode, mask_mode: MaskMode)
    ensures
        node matches SceneNode::Rect { stroke, .. } && stroke is Some ==> mask_shape_kind(
            node,
            mask_mode,
        ) is None,
        node matches SceneNode::Circle { stroke, .. } && stroke is Some ==> mask_shape_kind(
            node,
            mask_mode,
        ) is None,
        node is LinearGradient ==> (mask_shape_kind(node, MaskMode::Alpha) == Some(
            MASK_KIND_LINEAR_ALPHA,
        ) <==> mask_shape_kind(node, MaskMode::Luminance) == Some(MASK_KIND_LINEAR_LUMINANCE)),
        node is LinearGradient ==> (mask_shape_kind(node, MaskMode::Alpha) is None
            <==> mask_shape_kind(node, MaskMode::Luminance) is None),
{
}
} // verus!
