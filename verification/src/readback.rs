//! Byte layout of GPU readbacks and text-atlas uploads.
//!
//! Texture-to-buffer copies pad every row to a 256-byte pitch, so a frame
//! read back from the GPU is compacted row by row before it is handed on.
//! The text atlas is an R8 image; after glyphs are added only the dirty
//! rectangle is uploaded, gathered row by row from the CPU copy.
use image::RgbaImage;
use vstd::prelude::*;

verus! {

/// An RGBA8 frame image of the `image` crate, opaque to the library: its
/// contents are read only through `frame_image_bytes` and
/// `frame_image_dimensions`. Callers outside the library build and take the
/// buffer with `image` itself.
#[verifier::external_body]
pub struct FrameImage {
    pub image: RgbaImage,
}

/// The subpixel bytes a frame image holds, row-major.
pub uninterp spec fn frame_image_bytes(image: FrameImage) -> Seq<u8>;

/// The width and height a frame image was made with.
pub uninterp spec fn frame_image_dimensions(image: FrameImage) -> (u32, u32);

/// `ImageBuffer::from_raw` for RGBA8 pixels. The `image` crate returns an
/// image exactly when `4 * width` and `4 * width * height` fit in `usize`
/// and the buffer holds at least `4 * width * height` bytes; the image then
/// owns the buffer unchanged, with the given dimensions.
#[verifier::external_body]
pub(crate) fn frame_image_from_raw(width: u32, height: u32, buf: Vec<u8>) -> (r: Option<FrameImage>)
    ensures
        r is Some <==> (4 * width as int <= usize::MAX && 4 * width as int * height as int
            <= usize::MAX && 4 * width as int * height as int <= buf@.len()),
        r matches Some(image) ==> frame_image_bytes(image) == buf@ && frame_image_dimensions(image)
            == (width, height),
{
    RgbaImage::from_raw(width, height, buf).map(|image| FrameImage { image })
}

/// Copy `rows` rows of `row_len` bytes from `src`, row `r` starting at
/// `first + r * stride`, into one tightly packed buffer.
fn copy_strided_rows(src: &[u8], first: usize, stride: usize, row_len: usize, rows: usize) -> (out:
    Vec<u8>)
    requires
        rows == 0 || first + (rows - 1) * stride + row_len <= src@.len(),
        rows * row_len <= usize::MAX,
    ensures
        out@.len() == rows * row_len,
        forall|r: int, c: int|
            0 <= r < rows && 0 <= c < row_len ==> #[trigger] out@[r * row_len + c] == src@[first + r
                * stride + c],
{
    let mut out: Vec<u8> = Vec::new();
    let src_len = src.len();
    let mut r: usize = 0;
    while r < rows
        invariant
            src_len == src@.len(),
            r <= rows,
            rows == 0 || first + (rows - 1) * stride + row_len <= src@.len(),
            rows * row_len <= usize::MAX,
            out@.len() == r * row_len,
            forall|rr: int, c: int|
                0 <= rr < r && 0 <= c < row_len ==> #[trigger] out@[rr * row_len + c] == src@[first
                    + rr * stride + c],
        decreases rows - r,
    {
        proof {
            assert(r * stride <= (rows - 1) * stride) by (nonlinear_arith)
                requires
                    r <= rows - 1,
            ;
            assert((r + 1) * row_len == r * row_len + row_len) by (nonlinear_arith);
            assert((r + 1) * row_len <= rows * row_len) by (nonlinear_arith)
                requires
                    r + 1 <= rows,
            ;
        }
        let start: usize = first + r * stride;
        let end: usize = start + row_len;
        let ghost before = out@;
        out.extend_from_slice(&src[start..end]);
        proof {
            assert forall|rr: int, c: int|
                0 <= rr < r + 1 && 0 <= c < row_len implies #[trigger] out@[rr * row_len + c]
                    == src@[first + rr * stride + c] by {
                if rr < r {
                    assert(rr * row_len + c < r * row_len) by (nonlinear_arith)
                        requires
                            rr < r,
                            c < row_len,
                    ;
                    assert(out@[rr * row_len + c] == before[rr * row_len + c]);
                } else {
                    assert(out@[rr * row_len + c] == src@[start as int + c]);
                }
            }
        }
        r = r + 1;
    }
    out
}

/// Compact a padded readback: `height` rows of `width` RGBA8 pixels, stored
/// `bytes_per_row` bytes apart, become `width * 4 * height` packed bytes.
pub fn unpad_readback_rows(mapped: &[u8], width: u32, height: u32, bytes_per_row: u32) -> (pixels:
    Vec<u8>)
    requires
        width as int * 4 <= bytes_per_row,
        bytes_per_row as int * height as int <= u32::MAX,
        bytes_per_row as int * height as int <= mapped@.len(),
    ensures
        pixels@.len() == width as int * 4 * height as int,
        forall|row: int, col: int|
            0 <= row < height && 0 <= col < width as int * 4 ==> #[trigger] pixels@[row * (width
                as int * 4) + col] == mapped@[row * bytes_per_row as int + col],
{
    let row_len: usize = width as usize * 4;
    proof {
        assert(height as int * bytes_per_row as int == bytes_per_row as int * height as int)
            by (nonlinear_arith);
        if height > 0 {
            assert((height - 1) * bytes_per_row as int + row_len <= bytes_per_row as int
                * height as int) by (nonlinear_arith)
                requires
                    row_len <= bytes_per_row,
                    height > 0,
            ;
        }
        assert(height as int * row_len <= height as int * bytes_per_row as int) by (nonlinear_arith)
            requires
                row_len <= bytes_per_row,
        ;
    }
    let out = copy_strided_rows(mapped, 0, bytes_per_row as usize, row_len, height as usize);
    proof {
        assert(height as int * row_len == width as int * 4 * height as int) by (nonlinear_arith)
            requires
                row_len == width as int * 4,
        ;
    }
    out
}

/// Assemble the frame image from a padded GPU readback: the rows are
/// compacted and handed to the `image` crate as an RGBA8 buffer of
/// `width` by `height` pixels.
pub fn readback_image(mapped: &[u8], width: u32, height: u32, bytes_per_row: u32) -> (image:
    FrameImage)
    requires
        width as int * 4 <= bytes_per_row,
        bytes_per_row as int * height as int <= u32::MAX,
        bytes_per_row as int * height as int <= mapped@.len(),
    ensures
        frame_image_dimensions(image) == (width, height),
        frame_image_bytes(image).len() == width as int * 4 * height as int,
        forall|row: int, col: int|
            0 <= row < height && 0 <= col < width as int * 4 ==> #[trigger] frame_image_bytes(
                image,
            )[row * (width as int * 4) + col] == mapped@[row * bytes_per_row as int + col],
{
    let pixels = unpad_readback_rows(mapped, width, height, bytes_per_row);
    proof {
        assert(width as int * 4 * height as int <= bytes_per_row as int * height as int)
            by (nonlinear_arith)
            requires
                width as int * 4 <= bytes_per_row,
        ;
        assert(4 * width as int * height as int == width as int * 4 * height as int)
            by (nonlinear_arith);
    }
    let image = frame_image_from_raw(width, height, pixels);
    image.unwrap()
}

/// A rectangle of the text atlas, in texels.
#[derive(Clone, Copy, Debug, PartialEq, Eq, Structural)]
pub struct AtlasRect {
    pub x: u32,
    pub y: u32,
    pub width: u32,
    pub height: u32,
}

/// Gather the texels of `rect` from an R8 atlas image `atlas_width` texels
/// wide into a packed upload buffer.
pub fn atlas_dirty_region_bytes(pixels: &[u8], atlas_width: u32, rect: AtlasRect) -> (upload:
    Vec<u8>)
    requires
        rect.x as int + rect.width as int <= atlas_width,
        (rect.y as int + rect.height as int) * atlas_width as int <= pixels@.len(),
        (rect.y as int + rect.height as int) * atlas_width as int <= u32::MAX,
    ensures
        upload@.len() == rect.width as int * rect.height as int,
        forall|row: int, col: int|
            0 <= row < rect.height && 0 <= col < rect.width ==> #[trigger] upload@[row
                * rect.width as int + col] == pixels@[(rect.y as int + row) * atlas_width as int
                + rect.x as int + col],
{
    if rect.height == 0 {
        return Vec::new();
    }
    proof {
        let w = atlas_width as int;
        let y = rect.y as int;
        let h = rect.height as int;
        assert(y * w + rect.x as int <= (y + h) * w) by (nonlinear_arith)
            requires
                rect.x as int <= w,
                h >= 1,
                y >= 0,
                w >= 0,
        ;
        if h > 0 {
            assert(y * w + rect.x as int + (h - 1) * w + rect.width as int <= (y + h) * w)
                by (nonlinear_arith)
                requires
                    rect.x as int + rect.width as int <= w,
                    h > 0,
            ;
        }
        assert(h * rect.width as int <= h * w) by (nonlinear_arith)
            requires
                rect.width as int <= w,
                h >= 0,
        ;
        assert((y + h) * w >= h * w) by (nonlinear_arith)
            requires
                y >= 0,
                w >= 0,
                h >= 0,
        ;
        assert(y * w <= (y + h) * w) by (nonlinear_arith)
            requires
                y >= 0,
                w >= 0,
                h >= 0,
        ;
    }
    let first: usize = rect.y as usize * atlas_width as usize + rect.x as usize;
    let out = copy_strided_rows(
        pixels,
        first,
        atlas_width as usize,
        rect.width as usize,
        rect.height as usize,
    );
    proof {
        assert forall|row: int, col: int|
            0 <= row < rect.height && 0 <= col < rect.width implies #[trigger] out@[row
                * rect.width as int + col] == pixels@[(rect.y as int + row) * atlas_width as int
                + rect.x as int + col] by {
            assert(first + row * atlas_width as int + col == (rect.y as int + row)
                * atlas_width as int + rect.x as int + col) by (nonlinear_arith)
                requires
                    first == rect.y as int * atlas_width as int + rect.x as int,
            ;
        }
        assert(rect.height as int * rect.width as int == rect.width as int * rect.height as int)
            by (nonlinear_arith);
    }
    out
}

} // verus!
