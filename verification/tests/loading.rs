use std::io::Cursor;

use yolo::image::{decode_frames, Frame, Image, KittyError, KittyGraphics, KittyLoadError};
use yolo::layout::ImageDims;

fn png(width: u32, height: u32, pixels: Vec<u8>) -> Vec<u8> {
    let img = image::RgbaImage::from_raw(width, height, pixels).unwrap();
    let mut out = Cursor::new(Vec::new());
    img.write_to(&mut out, image::ImageFormat::Png).unwrap();
    out.into_inner()
}

fn gif(frames: &[([u8; 4], u32)]) -> Vec<u8> {
    let mut out = Vec::new();
    {
        let mut encoder = image::codecs::gif::GifEncoder::new(&mut out);
        for (pixel, delay) in frames {
            let buffer = image::RgbaImage::from_raw(1, 1, pixel.to_vec()).unwrap();
            let frame = image::Frame::from_parts(buffer, 0, 0, image::Delay::from_numer_denom_ms(*delay, 1));
            encoder.encode_frame(frame).unwrap();
        }
    }
    out
}

fn one_frame() -> Frame {
    Frame { width: 1, height: 1, delay_ms: 0, rgba: vec![1, 2, 3, 4] }
}

#[test]
fn png_bytes_decode_to_one_still_frame() {
    let bytes = png(2, 1, vec![255, 0, 0, 255, 0, 255, 0, 255]);
    let frames = decode_frames(&bytes, "").unwrap();
    assert_eq!(frames.len(), 1);
    assert_eq!((frames[0].width, frames[0].height, frames[0].delay_ms), (2, 1, 0));
    assert_eq!(frames[0].rgba, vec![255, 0, 0, 255, 0, 255, 0, 255]);
}

#[test]
fn gif_bytes_decode_to_every_frame() {
    let bytes = gif(&[([255, 0, 0, 255], 100), ([0, 0, 255, 255], 200)]);
    let frames = decode_frames(&bytes, "png").unwrap();
    assert_eq!(frames.len(), 2);
    assert_eq!(frames[0].delay_ms, 100);
    assert_eq!(frames[1].delay_ms, 200);
    assert_eq!(frames[1].rgba, vec![0, 0, 255, 255]);
}

#[test]
fn known_format_replaces_the_frames() {
    let mut kitty = KittyGraphics::new();
    kitty.push_frame(one_frame());
    kitty.push_frame(one_frame());
    let bytes = gif(&[([255, 0, 0, 255], 100), ([0, 0, 255, 255], 200), ([0, 255, 0, 255], 300)]);
    kitty.load_from_bytes(&bytes, "").unwrap();
    assert_eq!(kitty.frame_count(), 3);
}

#[test]
fn unknown_format_failure_keeps_the_frames() {
    let mut kitty = KittyGraphics::new();
    kitty.push_frame(one_frame());
    let r = kitty.load_from_bytes(&[1, 2, 3, 4], "");
    assert!(matches!(r, Err(KittyLoadError::Image(_))));
    assert_eq!(kitty.frame_count(), 1);
}

#[test]
fn failure_in_a_named_format_drops_the_frames() {
    let mut kitty = KittyGraphics::new();
    kitty.push_frame(one_frame());
    let r = kitty.load_from_bytes(&[1, 2, 3, 4], "png");
    assert!(matches!(r, Err(KittyLoadError::Image(_))));
    assert_eq!(kitty.frame_count(), 0);

    kitty.push_frame(one_frame());
    let r = kitty.load_from_bytes(&[1, 2, 3, 4], "tga");
    assert!(r.is_err());
    assert_eq!(kitty.frame_count(), 0);
}

#[test]
fn image_loaded_from_bytes_is_encoded() {
    let mut kitty = KittyGraphics::new();
    let mut img = Image::new(4);
    let bytes = gif(&[([255, 0, 0, 255], 100), ([0, 0, 255, 255], 200)]);
    img.load_from_bytes(&bytes, "gif", &mut kitty).unwrap();
    assert_eq!(img.dims(), ImageDims { width: 1, height: 1 });
    assert_eq!(kitty.frame_count(), 2);
}

#[test]
fn failed_load_leaves_the_image() {
    let mut kitty = KittyGraphics::new();
    let mut img = Image::new(4);
    let r = img.try_load_from_bytes(b"not an image", "", &mut kitty);
    assert!(matches!(r, Some(Err(KittyError::Load(KittyLoadError::Image(_))))));
    assert_eq!(img.dims(), ImageDims { width: 0, height: 0 });
    assert_eq!(kitty.frame_count(), 0);
}

#[test]
fn try_load_succeeds_on_a_png() {
    let mut kitty = KittyGraphics::new();
    let mut img = Image::new(9);
    let bytes = png(3, 2, vec![7u8; 24]);
    let r = img.try_load_from_bytes(&bytes, "png", &mut kitty);
    assert!(matches!(r, Some(Ok(()))));
    assert_eq!(img.dims(), ImageDims { width: 3, height: 2 });
}

#[test]
fn id_zero_still_reports_a_bad_png() {
    let mut kitty = KittyGraphics::new();
    let mut img = Image::new(0);
    let r = img.load_from_png_bytes(&[9, 9, 9], &mut kitty);
    assert!(matches!(r, Err(KittyError::Load(KittyLoadError::Image(_)))));
}

#[test]
fn a_successful_load_holds_only_the_new_frames() {
    let mut kitty = KittyGraphics::new();
    kitty.push_frame(one_frame());
    let bytes = png(1, 1, vec![5, 6, 7, 8]);
    kitty.load_from_bytes(&bytes, "").unwrap();
    assert_eq!(kitty.frame_count(), 1);
    let mut img = Image::new(2);
    kitty.encode(&mut img).unwrap();
    assert_eq!(img.dims(), ImageDims { width: 1, height: 1 });
}

#[test]
fn unknown_extension_and_content_fail() {
    let mut kitty = KittyGraphics::new();
    kitty.push_frame(one_frame());
    let r = kitty.load_from_bytes(b"plain text", "txt");
    assert!(matches!(r, Err(KittyLoadError::Image(_))));
    assert_eq!(kitty.frame_count(), 1);
}
