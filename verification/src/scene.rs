//! The scene as the GPU backend sees it.
//!
//! Geometry, opacity and filter parameters are carried as the bit patterns of
//! their `f32` values (`f64` for media timestamps); see `float_bits` for how
//! they are compared. Some GPU-readiness facts are not functions of a node's
//! own fields: whether a path tessellates, whether a media frame or glyph run
//! could be produced, whether an accumulated transform stays finite, and
//! whether a layer's clip or mask geometry maps onto the packed mask slots.
//! They are computed while the scene is prepared for the GPU (with the
//! transform and opacity that the node inherits from its ancestors) and are
//! carried on the nodes they belong to.
use vstd::prelude::*;

verus! {

/// An 8-bit sRGB color with straight alpha.
#[derive(Clone, Copy, Debug, PartialEq, Eq, Structural)]
pub struct Color {
    pub r: u8,
    pub g: u8,
    pub b: u8,
    pub a: u8,
}

impl Color {
    pub fn rgba(r: u8, g: u8, b: u8, a: u8) -> (c: Color)
        ensures
            c == (Color { r, g, b, a }),
    {
        Color { r, g, b, a }
    }

    pub fn white() -> (c: Color)
        ensures
            c == (Color { r: 255, g: 255, b: 255, a: 255 }),
    {
        Color { r: 255, g: 255, b: 255, a: 255 }
    }
}

/// One color stop of a gradient; `position` holds `f32` bits.
#[derive(Clone, Copy, Debug, PartialEq, Eq, Structural)]
pub struct GradientStop {
    pub position: u32,
    pub color: Color,
}

#[derive(Clone, Copy, Debug, PartialEq, Eq, Structural)]
pub enum ImageFit {
    Fill,
    Contain,
    Cover,
    /// Natural size, centered (CSS `none`).
    Natural,
    ScaleDown,
}

#[derive(Clone, Copy, Debug, PartialEq, Eq, Structural)]
pub enum BlendMode {
    Normal,
    Multiply,
    Screen,
    Darken,
    Lighten,
    Overlay,
    Difference,
    Exclusion,
}

#[derive(Clone, Copy, Debug, PartialEq, Eq, Structural)]
pub enum MaskMode {
    Alpha,
    Luminance,
}

/// A layer filter; every parameter holds `f32` bits.
#[derive(Clone, Copy, Debug)]
pub enum SceneFilter {
    Opacity { amount: u32 },
    Brightness { amount: u32 },
    Grayscale { amount: u32 },
    Contrast { factor: u32 },
    Saturation { factor: u32 },
    Vignette { offset: u32, darkness: u32, roundness: u32 },
    Invert { amount: u32 },
    HueRotate { degrees: u32 },
    Tint { color: [u8; 4], amount: u32 },
    Duotone { primary: [u8; 4], secondary: [u8; 4] },
    ColorGrading { contrast: u32, saturation: u32, gamma: u32, tint: Option<[u8; 4]> },
    Blur { sigma: u32 },
}

/// Clip region of a layer.
#[derive(Debug)]
pub enum ClipRegion {
    Rect { x: u32, y: u32, w: u32, h: u32, corner_radius: u32 },
    Path { d: String },
}

/// Readiness facts of a layer's clip and mask, evaluated under the transform
/// the layer inherits.
#[derive(Clone, Copy, Debug, PartialEq, Eq, Structural)]
pub struct LayerMaskSupport {
    /// A path clip tessellates into a GPU path mask.
    pub clip_path_mask: bool,
    /// The single path mask node's outline (its fill, or the outline of its
    /// stroke) tessellates into a non-empty GPU path mask under a finite
    /// transform.
    pub mask_path: bool,
    /// The screen bounds of the layer's texture children (groups looked
    /// through) are finite and pairwise disjoint.
    pub disjoint_textures: bool,
    /// A rectangular clip's screen rectangle is exact under the inherited
    /// transform: the transform is finite and axis-aligned (a uniform scale
    /// when the corners are rounded) and the rectangle does not collapse.
    pub clip_rect: bool,
    /// The mask shapes' screen rectangles are exact under the inherited
    /// transform in the same sense (a uniform scale for circles, radial
    /// gradients and rounded rectangles).
    pub mask_shapes: bool,
}

/// A node of the native scene graph.
#[derive(Debug)]
#[allow(inconsistent_fields)]
pub enum SceneNode {
    Rect {
        x: u32,
        y: u32,
        w: u32,
        h: u32,
        fill: Color,
        stroke: Option<Color>,
        stroke_width: u32,
        corner_radius: u32,
    },
    Circle { cx: u32, cy: u32, r: u32, fill: Color, stroke: Option<Color>, stroke_width: u32 },
    Path {
        d: String,
        fill: Option<Color>,
        stroke: Option<Color>,
        stroke_width: u32,
        opacity: u32,
        /// Fill and active stroke tessellate into triangle meshes.
        tessellated: bool,
    },
    LinearGradient {
        x: u32,
        y: u32,
        w: u32,
        h: u32,
        angle_deg: u32,
        stops: Vec<GradientStop>,
        /// The opacity inherited from the ancestors is finite.
        inherited_opacity_finite: bool,
    },
    RadialGradient {
        cx: u32,
        cy: u32,
        r: u32,
        stops: Vec<GradientStop>,
        inherited_opacity_finite: bool,
    },
    Image { src: String, x: u32, y: u32, w: u32, h: u32, fit: ImageFit, opacity: u32 },
    Video {
        src: String,
        time: u64,
        looped: bool,
        x: u32,
        y: u32,
        w: u32,
        h: u32,
        fit: ImageFit,
        opacity: u32,
    },
    Lottie {
        src: String,
        time: u64,
        x: u32,
        y: u32,
        w: u32,
        h: u32,
        playback_rate: u32,
        opacity: u32,
        /// The animation frame could be rendered.
        frame_ready: bool,
    },
    Gif {
        src: String,
        time: u64,
        x: u32,
        y: u32,
        w: u32,
        h: u32,
        playback_rate: u32,
        fit: ImageFit,
        opacity: u32,
        /// The GIF frame could be decoded.
        frame_ready: bool,
    },
    Text {
        x: u32,
        y: u32,
        content: String,
        font_size: u32,
        color: Color,
        font_weight: u16,
        /// The glyph run could be rasterized into the text atlas.
        glyphs_ready: bool,
    },
    Group {
        opacity: u32,
        children: Vec<SceneNode>,
        /// The transform composed with the inherited one is finite.
        transform_finite: bool,
    },
    Layer {
        opacity: u32,
        blend_mode: BlendMode,
        clip: Option<ClipRegion>,
        mask: Option<Vec<SceneNode>>,
        mask_mode: MaskMode,
        filters: Vec<SceneFilter>,
        has_shadow: bool,
        children: Vec<SceneNode>,
        mask_support: LayerMaskSupport,
    },
    Emoji {
        emoji: String,
        x: u32,
        y: u32,
        size: u32,
        opacity: u32,
        /// The emoji bitmap could be rendered.
        image_ready: bool,
    },
    Audio { src: String },
    AudioVisualizer {
        src: String,
        x: u32,
        y: u32,
        width: u32,
        height: u32,
        color: Color,
        time: u64,
        opacity: u32,
        /// The visualizer frame could be rendered.
        frame_ready: bool,
    },
    Shader {
        x: u32,
        y: u32,
        w: u32,
        h: u32,
        source: String,
        time: u32,
        params: [u32; 4],
        opacity: u32,
    },
}

/// A scene: its nodes in painter's order.
#[derive(Debug)]
pub struct Scene {
    pub nodes: Vec<SceneNode>,
}

} // verus!
