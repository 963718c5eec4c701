use std::io::Cursor;

use base64::Engine;
use yolo::image::{
    Frame, Image, ImageOptions, KittyCrop, KittyDeleteAll, KittyError, KittyGraphics, KittyLoadError, KittyRender,
    KittyScale, ResizeResult,
};
use yolo::layout::{ImageDims, Pos, Rect, Size};
use yolo::style::AnsiDisplay;
use yolo::term::{Framebuffer, TermSize};

fn ansi<D: AnsiDisplay>(d: D) -> String {
    let mut v: Vec<char> = Vec::new();
    d.write_ansi(&mut v);
    v.into_iter().collect()
}

fn png(width: u32, height: u32, pixels: Vec<u8>) -> Vec<u8> {
    let img = image::RgbaImage::from_raw(width, height, pixels).unwrap();
    let mut out = Cursor::new(Vec::new());
    img.write_to(&mut out, image::ImageFormat::Png).unwrap();
    out.into_inner()
}

fn expected_b64(rgba: &[u8]) -> String {
    let mut buf = vec![0u8; zlib_rs::compress_bound(rgba.len())];
    let (compressed, rc) = zlib_rs::compress_slice(&mut buf, rgba, zlib_rs::DeflateConfig::default());
    assert!(rc == zlib_rs::ReturnCode::Ok);
    base64::engine::general_purpose::STANDARD.encode(compressed)
}

fn noise(n: usize) -> Vec<u8> {
    let mut x: u32 = 12345;
    (0..n)
        .map(|_| {
            x = x.wrapping_mul(1103515245).wrapping_add(12345);
            (x >> 16) as u8
        })
        .collect()
}

fn rect(col: u16, row: u16, cols: u16, rows: u16) -> Rect {
    Rect::new(Pos::new(col, row), Size::new(cols, rows))
}

#[test]
fn render_and_delete_commands() {
    assert_eq!(ansi(KittyDeleteAll), "\x1b_Ga=d,d=a,q=2\x1b\\");
    let r = KittyRender { id: 7, scale: Some(KittyScale::Stretch(10, 4)), crop: Some(KittyCrop { x: 0, y: 5, width: 20, height: 30 }) };
    assert_eq!(ansi(r), "\x1b_Ga=p,i=7,p=7,C=1,q=2,c=10,r=4,x=0,y=5,w=20,h=30\x1b\\");
    let plain = KittyRender { id: 1, scale: Some(KittyScale::Rows(3)), crop: None };
    assert_eq!(ansi(plain), "\x1b_Ga=p,i=1,p=1,C=1,q=2,r=3\x1b\\");
}

#[test]
fn bad_png_is_a_load_error() {
    let mut kitty = KittyGraphics::new();
    let mut img = Image::new(1);
    let r = img.load_from_png_bytes(&[1, 2, 3], &mut kitty);
    assert!(matches!(r, Err(KittyError::Load(KittyLoadError::Image(_)))));
    assert_eq!(img.dims(), ImageDims { width: 0, height: 0 });
}

#[test]
fn small_png_is_sent_in_one_command() {
    let pixels = vec![255u8, 0, 0, 255];
    let bytes = png(1, 1, pixels.clone());
    let mut kitty = KittyGraphics::new();
    let mut img = Image::new(1);
    img.load_from_png_bytes(&bytes, &mut kitty).unwrap();
    assert_eq!(img.dims(), ImageDims { width: 1, height: 1 });

    let mut f = Framebuffer::new(TermSize::new(80, 24, 640, 384));
    img.render(rect(2, 3, 10, 5), &mut f, &kitty, ImageOptions::new(), None);
    let expected = format!(
        "\x1b_Ga=t,f=32,s=1,v=1,t=d,i=1,o=z,q=2;{}\x1b\\\x1b[4;3H\x1b_Ga=p,i=1,p=1,C=1,q=2\x1b\\",
        expected_b64(&pixels)
    );
    assert_eq!(f.output_string(), expected);

    let mut g = Framebuffer::new(TermSize::new(80, 24, 640, 384));
    img.render(rect(2, 3, 10, 5), &mut g, &kitty, ImageOptions::new(), None);
    assert_eq!(g.output_string(), "\x1b[4;3H\x1b_Ga=p,i=1,p=1,C=1,q=2\x1b\\");

    kitty.increase_generation();
    let mut h = Framebuffer::new(TermSize::new(80, 24, 640, 384));
    img.render(rect(2, 3, 10, 5), &mut h, &kitty, ImageOptions::new(), None);
    assert!(h.output_string().starts_with("\x1b_Ga=t,"));
}

#[test]
fn large_image_is_sent_in_chunks() {
    let pixels = noise(64 * 64 * 4);
    let bytes = png(64, 64, pixels.clone());
    let mut kitty = KittyGraphics::new();
    let mut img = Image::new(3);
    img.load_from_png_bytes(&bytes, &mut kitty).unwrap();
    let mut f = Framebuffer::new(TermSize::new(80, 24, 640, 384));
    img.render(rect(0, 0, 80, 24), &mut f, &kitty, ImageOptions::new(), None);
    let out = f.output_string();
    let b64 = expected_b64(&pixels);
    assert!(b64.len() > 4096 * 2);

    let commands: Vec<&str> = out.split("\x1b_G").filter(|c| !c.is_empty()).collect();
    let sends: Vec<&str> = commands.iter().copied().filter(|c| c.contains(';')).collect();
    assert_eq!(sends.len(), (b64.len() + 4095) / 4096);
    assert!(sends[0].starts_with("a=t,f=32,s=64,v=64,t=d,i=3,o=z,q=2,m=1;"));
    assert!(sends[1].starts_with("i=3,q=2,m=1;"));
    assert!(sends[sends.len() - 1].starts_with("i=3,q=2,m=0;"));
    let mut joined = String::new();
    for c in &sends {
        let payload = &c[c.find(';').unwrap() + 1..c.find('\x1b').unwrap()];
        assert!(payload.len() <= 4096);
        joined.push_str(payload);
    }
    assert_eq!(joined, b64);
}

#[test]
fn animation_frames_and_control() {
    let mut kitty = KittyGraphics::new();
    kitty.push_frame(Frame { width: 1, height: 1, delay_ms: 0, rgba: vec![0, 0, 0, 255] });
    kitty.push_frame(Frame { width: 1, height: 1, delay_ms: 40, rgba: vec![255, 255, 255, 255] });
    let mut img = Image::new(2);
    kitty.encode(&mut img).unwrap();
    let mut f = Framebuffer::new(TermSize::new(80, 24, 640, 384));
    img.render(rect(0, 0, 10, 10), &mut f, &kitty, ImageOptions::new(), None);
    let out = f.output_string();
    let second = format!(
        "\x1b_Ga=f,f=32,s=1,v=1,t=d,i=2,z=40,o=z,q=2;{}\x1b\\",
        expected_b64(&[255, 255, 255, 255])
    );
    assert!(out.contains(&second));
    assert!(out.contains("\x1b_Ga=a,i=2,s=3,v=1,q=2\x1b\\"));
    kitty.clear_frames();
}

#[test]
fn resized_image_is_aligned() {
    let mut kitty = KittyGraphics::new();
    kitty.push_frame(Frame { width: 1, height: 1, delay_ms: 0, rgba: vec![0, 0, 0, 255] });
    let mut img = Image::new(4);
    kitty.encode(&mut img).unwrap();
    let mut f = Framebuffer::new(TermSize::new(80, 24, 640, 384));
    let resized = ResizeResult { size: Size::new(4, 2), scale: Some(KittyScale::Columns(4)), crop: None };
    img.render(rect(0, 0, 10, 6), &mut f, &kitty, ImageOptions::fit_and_center(), Some(resized));
    assert!(f.output_string().ends_with("\x1b[3;4H\x1b_Ga=p,i=4,p=4,C=1,q=2,c=4\x1b\\"));
}
