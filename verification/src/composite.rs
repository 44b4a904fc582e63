//! Compositing separately rendered scene segments into one frame.
//!
//! A scene whose shader nodes are interleaved with other nodes is rendered
//! segment by segment (see `frame_route::interleaved_segments`); each
//! rendered segment is a full-frame image, blended over the frame so far in
//! segment order, starting from a transparent frame.
use crate::readback::{frame_image_bytes, frame_image_dimensions, frame_image_from_raw, FrameImage};
use vstd::prelude::*;

verus! {

/// The bytes `image::imageops::overlay` leaves in a bottom image with the
/// given bytes and dimensions after blending a top image over it at
/// `(x, y)`.
pub uninterp spec fn overlaid(
    bottom: Seq<u8>,
    bottom_width: u32,
    bottom_height: u32,
    top: Seq<u8>,
    top_width: u32,
    top_height: u32,
    x: i64,
    y: i64,
) -> Seq<u8>;

/// `image::imageops::overlay` on RGBA8 frames: blends `top` over `bottom`
/// with `top`'s corner at `(x, y)`, clipped to `bottom`, writing pixels in
/// place. The crate keeps `bottom`'s dimensions and buffer length; the new
/// bytes depend on both images and the offset alone and are named
/// `overlaid` (the per-pixel alpha blend is left unstated).
#[verifier::external_body]
fn overlay_frame(bottom: &mut FrameImage, top: &FrameImage, x: i64, y: i64)
    ensures
        frame_image_dimensions(*final(bottom)) == frame_image_dimensions(*old(bottom)),
        frame_image_bytes(*final(bottom)).len() == frame_image_bytes(*old(bottom)).len(),
        frame_image_bytes(*final(bottom)) == overlaid(
            frame_image_bytes(*old(bottom)),
            frame_image_dimensions(*old(bottom)).0,
            frame_image_dimensions(*old(bottom)).1,
            frame_image_bytes(*top),
            frame_image_dimensions(*top).0,
            frame_image_dimensions(*top).1,
            x,
            y,
        ),
{
    image::imageops::overlay(&mut bottom.image, &top.image, x, y);
}

/// A transparent frame's bytes: `4 * width * height` zeros.
pub open spec fn blank_frame_bytes(width: u32, height: u32) -> Seq<u8> {
    Seq::new((4 * width * height) as nat, |i: int| 0u8)
}

/// The frame's bytes after blending `layers` in order over a transparent
/// `width` x `height` frame, each at the frame's corner.
pub open spec fn composited(width: u32, height: u32, layers: Seq<FrameImage>) -> Seq<u8>
    decreases layers.len(),
{
    if layers.len() == 0 {
        blank_frame_bytes(width, height)
    } else {
        let top = layers.last();
        overlaid(
            composited(width, height, layers.drop_last()),
            width,
            height,
            frame_image_bytes(top),
            frame_image_dimensions(top).0,
            frame_image_dimensions(top).1,
            0,
            0,
        )
    }
}

/// A transparent `width` x `height` frame.
pub fn blank_frame(width: u32, height: u32) -> (r: FrameImage)
    requires
        4 * width <= usize::MAX,
        4 * width * height <= usize::MAX,
    ensures
        frame_image_dimensions(r) == (width, height),
        frame_image_bytes(r) == blank_frame_bytes(width, height),
{
    let row: usize = 4 * (width as usize);
    proof {
        assert(row * height == 4 * width * height) by (nonlinear_arith)
            requires
                row == 4 * width,
        ;
    }
    let len: usize = row * (height as usize);
    let mut buf: Vec<u8> = Vec::new();
    let mut i: usize = 0;
    while i < len
        invariant
            i <= len,
            buf@ == Seq::new(i as nat, |k: int| 0u8),
        decreases len - i,
    {
        buf.push(0);
        i = i + 1;
        assert(buf@ =~= Seq::new(i as nat, |k: int| 0u8));
    }
    let image = frame_image_from_raw(width, height, buf);
    image.unwrap()
}

/// Blend rendered segments, in order, over a transparent `width` x `height`
/// frame, each at the frame's corner.
pub fn composite_segments(width: u32, height: u32, segments: &Vec<FrameImage>) -> (r: FrameImage)
    requires
        4 * width <= usize::MAX,
        4 * width * height <= usize::MAX,
    ensures
        frame_image_dimensions(r) == (width, height),
        frame_image_bytes(r) == composited(width, height, segments@),
{
    let mut output = blank_frame(width, height);
    let mut i: usize = 0;
    while i < segments.len()
        invariant
            i <= segments@.len(),
            frame_image_dimensions(output) == (width, height),
            frame_image_bytes(output) == composited(width, height, segments@.take(i as int)),
        decreases segments@.len() - i,
    {
        overlay_frame(&mut output, &segments[i], 0, 0);
        assert(segments@.take(i + 1).drop_last() =~= segments@.take(i as int));
        i = i + 1;
    }
    assert(segments@.take(i as int) =~= segments@);
    output
}

} // verus!
