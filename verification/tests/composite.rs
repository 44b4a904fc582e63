use dioxuscut_rasterizer::composite::{blank_frame, composite_segments};
use dioxuscut_rasterizer::readback::FrameImage;
use image::RgbaImage;

fn frame(width: u32, height: u32, pixels: &[[u8; 4]]) -> FrameImage {
    let bytes: Vec<u8> = pixels.iter().flat_map(|p| p.iter().copied()).collect();
    FrameImage { image: RgbaImage::from_raw(width, height, bytes).unwrap() }
}

#[test]
fn blank_frames_are_transparent() {
    let blank = blank_frame(3, 2);
    assert_eq!(blank.image.dimensions(), (3, 2));
    assert_eq!(blank.image.as_raw(), &vec![0u8; 24]);
}

#[test]
fn segments_are_blended_in_order_over_a_transparent_frame() {
    let red = frame(2, 1, &[[255, 0, 0, 255], [0, 0, 0, 0]]);
    let blue = frame(2, 1, &[[0, 0, 0, 0], [0, 0, 255, 255]]);
    let green = frame(2, 1, &[[0, 255, 0, 255], [0, 0, 0, 0]]);
    let out = composite_segments(2, 1, &vec![red, blue, green]);
    assert_eq!(out.image.dimensions(), (2, 1));
    assert_eq!(out.image.as_raw(), &vec![0, 255, 0, 255, 0, 0, 255, 255]);
}

#[test]
fn no_segments_leave_the_frame_transparent() {
    let out = composite_segments(1, 1, &Vec::new());
    assert_eq!(out.image.as_raw(), &vec![0u8; 4]);
}
