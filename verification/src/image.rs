//! Images shown with the kitty graphics protocol: frames are compressed with
//! zlib, encoded in base64 and sent in chunks of at most 4096 characters,
//! then placed on screen with a display command.
use vstd::prelude::*;

use crate::chars::{decimal, push_decimal, push_str};
use crate::layout::{HorizontalAlignment, ImageDims, Pos, Rect, Size, VerticalAlignment, ceil_div};
use crate::style::AnsiDisplay;
use crate::term::{area_fits, move_to_code, Framebuffer, TermSize};

verus! {

/// What a zlib call reports.
#[verifier::external_type_specification]
#[verifier::external_body]
pub struct ExReturnCode(zlib_rs::ReturnCode);

/// Why an image could not be decoded.
#[verifier::external_type_specification]
#[verifier::external_body]
pub struct ExImageError(image::error::ImageError);

/// Why a file could not be read.
#[verifier::external_type_specification]
#[verifier::external_body]
pub struct ExIoError(std::io::Error);

/// A failure to format.
#[verifier::external_type_specification]
#[verifier::external_body]
pub struct ExFmtError(std::fmt::Error);

/// The size `zlib_rs::compress_bound` gives for an input of `len` bytes.
pub uninterp spec fn zlib_bound(len: usize) -> usize;

/// The bytes `zlib_rs::compress_slice`, with the default configuration,
/// writes for `input` into a buffer of `capacity` bytes when it succeeds.
pub uninterp spec fn zlib_deflated(input: Seq<u8>, capacity: usize) -> Seq<u8>;

/// The standard base64 alphabet.
pub open spec fn base64_alphabet() -> Seq<char> {
    seq!['A', 'B', 'C', 'D', 'E', 'F', 'G', 'H', 'I', 'J', 'K', 'L', 'M', 'N', 'O', 'P', 'Q', 'R', 'S', 'T', 'U', 'V', 'W', 'X', 'Y', 'Z', 'a', 'b', 'c', 'd', 'e', 'f', 'g', 'h', 'i', 'j', 'k', 'l', 'm', 'n', 'o', 'p', 'q', 'r', 's', 't', 'u', 'v', 'w', 'x', 'y', 'z', '0', '1', '2', '3', '4', '5', '6', '7', '8', '9', '+', '/']
}

/// The base64 digit of a six-bit value.
pub open spec fn b64(v: int) -> char {
    base64_alphabet()[v]
}

/// The standard base64 text, padded, of `bytes`: each group of three bytes
/// becomes four digits of six bits each, and a last group of one or two
/// bytes becomes two or three digits and `=` up to four.
pub open spec fn base64_standard(bytes: Seq<u8>) -> Seq<char>
    decreases bytes.len(),
{
    let b0 = if bytes.len() > 0 { bytes[0] as int } else { 0 };
    let b1 = if bytes.len() > 1 { bytes[1] as int } else { 0 };
    let b2 = if bytes.len() > 2 { bytes[2] as int } else { 0 };
    if bytes.len() == 0 {
        Seq::empty()
    } else if bytes.len() == 1 {
        seq![b64(b0 / 4), b64((b0 % 4) * 16), '=', '=']
    } else if bytes.len() == 2 {
        seq![b64(b0 / 4), b64((b0 % 4) * 16 + b1 / 16), b64((b1 % 16) * 4), '=']
    } else {
        seq![b64(b0 / 4), b64((b0 % 4) * 16 + b1 / 16), b64((b1 % 16) * 4 + b2 / 64), b64(b2 % 64)]
            + base64_standard(bytes.subrange(3, bytes.len() as int))
    }
}

/// A PNG image decoded to 8-bit RGBA: its width, its height and its
/// pixels, or nothing where the bytes do not decode.
pub uninterp spec fn png_rgba(bytes: Seq<u8>) -> Option<(u32, u32, Seq<u8>)>;

/// The bound zlib computes for `len` bytes when no sum wraps around: the
/// length, one byte for an empty input, one more below nine bytes, one
/// eighth for the encoding rounded up, three for the block and six for the
/// zlib wrapper.
pub open spec fn zlib_bound_formula(len: int) -> int {
    len + (if len == 0 { 1int } else { 0 }) + (if len < 9 { 1int } else { 0 }) + (len + 7) / 8 + 3 + 6
}

/// `zlib_rs::compress_bound`: a buffer of this size is enough for the
/// compressed form of `len` bytes. Below 2^28 bytes no sum in it wraps
/// around on any target, and it is the formula above.
#[verifier::external_body]
fn compress_bound(len: usize) -> (r: usize)
    ensures
        r == zlib_bound(len),
        len < 0x1000_0000 ==> r == zlib_bound_formula(len as int),
{
    zlib_rs::compress_bound(len)
}

/// `zlib_rs::compress_slice` with the default configuration: on success
/// the compressed bytes, which depend on the input and the buffer's size
/// alone; otherwise the code it reported. Its documentation says it fails
/// for want of output space only, and that `compress_bound` bytes are
/// always enough, so with that much it succeeds. Like std's own
/// allocations, a failure of the allocator it calls is left aside.
#[verifier::external_body]
fn compress_slice(output: &mut Vec<u8>, input: &[u8]) -> (r: Result<Vec<u8>, zlib_rs::ReturnCode>)
    ensures
        r matches Ok(v) ==> v@ == zlib_deflated(input@, old(output)@.len() as usize),
        old(output)@.len() >= zlib_bound(input@.len() as usize) ==> r is Ok,
        final(output)@.len() == old(output)@.len(),
{
    let (compressed, rc) = zlib_rs::compress_slice(output.as_mut_slice(), input, zlib_rs::DeflateConfig::default());
    match rc {
        zlib_rs::ReturnCode::Ok => Ok(compressed.to_vec()),
        other => Err(other),
    }
}

/// `base64::Engine::encode_string` with the standard alphabet and padding.
#[verifier::external_body]
fn base64_encode(input: &[u8]) -> (r: String)
    ensures
        r@ == base64_standard(input@),
{
    let engine = base64::engine::Simd::standard(base64::engine::general_purpose::PAD);
    let mut out = String::new();
    base64::Engine::encode_string(&engine, input, &mut out);
    out
}

/// `image::load_from_memory_with_format` for a PNG, converted to 8-bit
/// RGBA: width, height and pixels, or the decoder's error.
#[verifier::external_body]
fn decode_png(bytes: &[u8]) -> (r: Result<(u32, u32, Vec<u8>), image::error::ImageError>)
    ensures
        r is Ok <==> png_rgba(bytes@) is Some,
        r matches Ok(v) ==> png_rgba(bytes@) == Some((v.0, v.1, v.2@)),
{
    match image::load_from_memory_with_format(bytes, image::ImageFormat::Png) {
        Ok(img) => {
            let rgba = img.to_rgba8();
            let (width, height) = rgba.dimensions();
            Ok((width, height, rgba.into_raw()))
        },
        Err(e) => Err(e),
    }
}

/// The image formats the loader decodes in their own way; any other one
/// is decoded as a still image.
#[derive(Debug, Clone, Copy, PartialEq, Eq, Structural)]
pub enum ImageKind {
    Png,
    Gif,
    WebP,
    Other,
}

/// A frame as plain values: width, height, delay in milliseconds, pixels.
pub open spec fn frame_value(f: Frame) -> (u32, u32, u32, Seq<u8>) {
    (f.width, f.height, f.delay_ms, f.rgba@)
}

pub open spec fn frame_values(fs: Seq<Frame>) -> Seq<(u32, u32, u32, Seq<u8>)> {
    fs.map_values(|f: Frame| frame_value(f))
}

/// The format `image::guess_format` recognises from the first bytes of
/// `bytes`, if any.
pub uninterp spec fn guessed_kind(bytes: Seq<u8>) -> Option<ImageKind>;

/// Whether the PNG header of `bytes` announces an animation, or nothing
/// where it does not parse.
pub uninterp spec fn png_animated(bytes: Seq<u8>) -> Option<bool>;

/// The frames of the animated PNG `bytes`, or nothing where one fails.
pub uninterp spec fn apng_frames(bytes: Seq<u8>) -> Option<Seq<(u32, u32, u32, Seq<u8>)>>;

/// The frames of the GIF `bytes`, or nothing where one fails.
pub uninterp spec fn gif_frames(bytes: Seq<u8>) -> Option<Seq<(u32, u32, u32, Seq<u8>)>>;

/// The frames of the WebP `bytes`, or nothing where one fails.
pub uninterp spec fn webp_frames(bytes: Seq<u8>) -> Option<Seq<(u32, u32, u32, Seq<u8>)>>;

/// The image `bytes` decoded in the format guessed from them, as 8-bit
/// RGBA: width, height and pixels, or nothing where that fails.
pub uninterp spec fn any_rgba(bytes: Seq<u8>) -> Option<(u32, u32, Seq<u8>)>;

/// `image::guess_format`: the format the first bytes show, told apart as
/// far as the loader needs.
#[verifier::external_body]
fn guess_kind(bytes: &[u8]) -> (r: Option<ImageKind>)
    ensures
        r == guessed_kind(bytes@),
{
    match image::guess_format(bytes) {
        Ok(image::ImageFormat::Png) => Some(ImageKind::Png),
        Ok(image::ImageFormat::Gif) => Some(ImageKind::Gif),
        Ok(image::ImageFormat::WebP) => Some(ImageKind::WebP),
        Ok(_) => Some(ImageKind::Other),
        Err(_) => None,
    }
}

/// `image::codecs::png::PngDecoder::is_apng` on a decoder made over
/// `bytes`: whether the image is animated, or the error of reading its
/// header.
#[verifier::external_body]
fn png_is_apng(bytes: &[u8]) -> (r: Result<bool, image::error::ImageError>)
    ensures
        r is Ok <==> png_animated(bytes@) is Some,
        r matches Ok(b) ==> png_animated(bytes@) == Some(b),
{
    image::codecs::png::PngDecoder::new(std::io::Cursor::new(bytes))?.is_apng()
}

/// `image::Frames::collect_frames` over the frames of
/// `image::codecs::png::PngDecoder::apng`: every frame, each as its
/// buffer's size, the numerator of its delay and its pixels, or the first
/// error.
#[verifier::external_body]
fn apng_decode(bytes: &[u8]) -> (r: Result<Vec<Frame>, image::error::ImageError>)
    ensures
        r is Ok <==> apng_frames(bytes@) is Some,
        r matches Ok(v) ==> apng_frames(bytes@) == Some(frame_values(v@)),
{
    let decoder = image::codecs::png::PngDecoder::new(std::io::Cursor::new(bytes))?.apng()?;
    let frames = image::AnimationDecoder::into_frames(decoder).collect_frames()?;
    Ok(frames.into_iter().map(|f| Frame {
        delay_ms: f.delay().numer_denom_ms().0,
        width: f.buffer().width(),
        height: f.buffer().height(),
        rgba: f.into_buffer().into_raw(),
    }).collect())
}

/// `image::Frames::collect_frames` over the frames of
/// `image::codecs::gif::GifDecoder`, converted as for an animated PNG.
#[verifier::external_body]
fn gif_decode(bytes: &[u8]) -> (r: Result<Vec<Frame>, image::error::ImageError>)
    ensures
        r is Ok <==> gif_frames(bytes@) is Some,
        r matches Ok(v) ==> gif_frames(bytes@) == Some(frame_values(v@)),
{
    let decoder = image::codecs::gif::GifDecoder::new(std::io::Cursor::new(bytes))?;
    let frames = image::AnimationDecoder::into_frames(decoder).collect_frames()?;
    Ok(frames.into_iter().map(|f| Frame {
        delay_ms: f.delay().numer_denom_ms().0,
        width: f.buffer().width(),
        height: f.buffer().height(),
        rgba: f.into_buffer().into_raw(),
    }).collect())
}

/// `image::Frames::collect_frames` over the frames of
/// `image::codecs::webp::WebPDecoder`, converted as for an animated PNG.
#[verifier::external_body]
fn webp_decode(bytes: &[u8]) -> (r: Result<Vec<Frame>, image::error::ImageError>)
    ensures
        r is Ok <==> webp_frames(bytes@) is Some,
        r matches Ok(v) ==> webp_frames(bytes@) == Some(frame_values(v@)),
{
    let decoder = image::codecs::webp::WebPDecoder::new(std::io::Cursor::new(bytes))?;
    let frames = image::AnimationDecoder::into_frames(decoder).collect_frames()?;
    Ok(frames.into_iter().map(|f| Frame {
        delay_ms: f.delay().numer_denom_ms().0,
        width: f.buffer().width(),
        height: f.buffer().height(),
        rgba: f.into_buffer().into_raw(),
    }).collect())
}

/// `image::load_from_memory`, converted to 8-bit RGBA: width, height and
/// pixels, or the decoder's error. It decodes in the format guessed from
/// the bytes, so it fails where no format is recognised.
#[verifier::external_body]
fn decode_any(bytes: &[u8]) -> (r: Result<(u32, u32, Vec<u8>), image::error::ImageError>)
    ensures
        r is Ok <==> any_rgba(bytes@) is Some,
        r matches Ok(v) ==> any_rgba(bytes@) == Some((v.0, v.1, v.2@)),
        guessed_kind(bytes@) is None ==> r is Err,
{
    let rgba = image::load_from_memory(bytes)?.to_rgba8();
    let (width, height) = rgba.dimensions();
    Ok((width, height, rgba.into_raw()))
}

/// The format `image::ImageFormat::from_extension` names for a file
/// extension, if any.
pub uninterp spec fn extension_kind(extension: Seq<char>) -> Option<ImageKind>;

/// The image `bytes` decoded in the format that `extension` names, as
/// 8-bit RGBA: width, height and pixels, or nothing where that fails.
pub uninterp spec fn extension_rgba(bytes: Seq<u8>, extension: Seq<char>) -> Option<(u32, u32, Seq<u8>)>;

/// `image::ImageFormat::from_extension`, told apart as far as the loader
/// needs.
#[verifier::external_body]
fn kind_of_extension(extension: &str) -> (r: Option<ImageKind>)
    ensures
        r == extension_kind(extension@),
{
    match image::ImageFormat::from_extension(extension) {
        Some(image::ImageFormat::Png) => Some(ImageKind::Png),
        Some(image::ImageFormat::Gif) => Some(ImageKind::Gif),
        Some(image::ImageFormat::WebP) => Some(ImageKind::WebP),
        Some(_) => Some(ImageKind::Other),
        None => None,
    }
}

/// `image::load_from_memory_with_format` with the format that
/// `extension` names, converted to 8-bit RGBA: width, height and pixels,
/// or the decoder's error.
#[verifier::external_body]
fn decode_with_extension(bytes: &[u8], extension: &str) -> (r: Result<(u32, u32, Vec<u8>), image::error::ImageError>)
    requires
        extension_kind(extension@) is Some,
    ensures
        r is Ok <==> extension_rgba(bytes@, extension@) is Some,
        r matches Ok(v) ==> extension_rgba(bytes@, extension@) == Some((v.0, v.1, v.2@)),
{
    let format = image::ImageFormat::from_extension(extension).unwrap();
    let rgba = image::load_from_memory_with_format(bytes, format)?.to_rgba8();
    let (width, height) = rgba.dimensions();
    Ok((width, height, rgba.into_raw()))
}

/// The format `bytes` are decoded as: the one their first bytes show, else
/// the one the file's extension names.
pub open spec fn load_kind(bytes: Seq<u8>, extension: Seq<char>) -> Option<ImageKind> {
    match guessed_kind(bytes) {
        Some(k) => Some(k),
        None => extension_kind(extension),
    }
}

/// A still image as its one frame, shown with no delay.
pub open spec fn still_frames(decoded: Option<(u32, u32, Seq<u8>)>) -> Option<Seq<(u32, u32, u32, Seq<u8>)>> {
    match decoded {
        Some((w, h, px)) => Some(seq![(w, h, 0u32, px)]),
        None => None,
    }
}

/// The frames `bytes`, read from a file with `extension`, decode to as
/// format `kind`: every frame of an animated PNG, GIF or WebP, else the
/// one still image, in the format guessed from the bytes where there is
/// one and else in the one the extension names.
pub open spec fn frames_as(bytes: Seq<u8>, extension: Seq<char>, kind: Option<ImageKind>) -> Option<Seq<(u32, u32, u32, Seq<u8>)>> {
    match kind {
        Some(ImageKind::Png) => match png_animated(bytes) {
            Some(true) => apng_frames(bytes),
            Some(false) => still_frames(png_rgba(bytes)),
            None => None,
        },
        Some(ImageKind::Gif) => gif_frames(bytes),
        Some(ImageKind::WebP) => webp_frames(bytes),
        Some(ImageKind::Other) => if guessed_kind(bytes) is None {
            still_frames(extension_rgba(bytes, extension))
        } else {
            still_frames(any_rgba(bytes))
        },
        None => still_frames(any_rgba(bytes)),
    }
}

/// The frames the loader gets from `bytes`, read from a file with
/// `extension`.
pub open spec fn decoded_frames(bytes: Seq<u8>, extension: Seq<char>) -> Option<Seq<(u32, u32, u32, Seq<u8>)>> {
    frames_as(bytes, extension, load_kind(bytes, extension))
}

/// The frames left after a failed load: none where the format is known,
/// all of them otherwise.
pub open spec fn kept_frames(frames: Seq<Frame>, bytes: Seq<u8>, extension: Seq<char>) -> Seq<Frame> {
    if load_kind(bytes, extension) is None {
        frames
    } else {
        Seq::empty()
    }
}

/// Whether loading `bytes` gives at least one frame to encode, where it
/// succeeds.
pub open spec fn loads_a_frame(bytes: Seq<u8>, extension: Seq<char>) -> bool {
    decoded_frames(bytes, extension) matches Some(fs) ==> fs.len() > 0
}

fn decode_as(bytes: &[u8], extension: &str, kind: Option<ImageKind>) -> (r: Result<Vec<Frame>, image::error::ImageError>)
    requires
        kind == load_kind(bytes@, extension@),
    ensures
        r is Ok <==> frames_as(bytes@, extension@, kind) is Some,
        r matches Ok(v) ==> frames_as(bytes@, extension@, kind) == Some(frame_values(v@)),
        kind is None ==> r is Err,
{
    match kind {
        Some(ImageKind::Png) => {
            match png_is_apng(bytes) {
                Ok(true) => apng_decode(bytes),
                Ok(false) => still(decode_png(bytes)),
                Err(e) => Err(e),
            }
        },
        Some(ImageKind::Gif) => gif_decode(bytes),
        Some(ImageKind::WebP) => webp_decode(bytes),
        Some(ImageKind::Other) => {
            if guess_kind(bytes).is_none() {
                still(decode_with_extension(bytes, extension))
            } else {
                still(decode_any(bytes))
            }
        },
        None => still(decode_any(bytes)),
    }
}

/// A decoded still image as its one frame.
fn still(decoded: Result<(u32, u32, Vec<u8>), image::error::ImageError>) -> (r: Result<Vec<Frame>, image::error::ImageError>)
    ensures
        r is Ok <==> decoded is Ok,
        decoded matches Ok(d) ==> still_frames(Some((d.0, d.1, d.2@))) == Some(frame_values(r->Ok_0@)),
{
    match decoded {
        Ok((width, height, rgba)) => {
            let v = vec![Frame { width, height, delay_ms: 0, rgba }];
            assert(frame_values(v@) =~= seq![(width, height, 0u32, v@[0].rgba@)]);
            Ok(v)
        },
        Err(e) => Err(e),
    }
}

/// The format the loader decodes `bytes` as, read from a file with
/// `extension` (empty for none).
fn format_of(bytes: &[u8], extension: &str) -> (r: Option<ImageKind>)
    ensures
        r == load_kind(bytes@, extension@),
{
    match guess_kind(bytes) {
        Some(k) => Some(k),
        None => kind_of_extension(extension),
    }
}

/// Decodes `bytes`, read from a file with `extension` (empty for none),
/// into frames.
pub fn decode_frames(bytes: &[u8], extension: &str) -> (r: Result<Vec<Frame>, image::error::ImageError>)
    ensures
        r is Ok <==> decoded_frames(bytes@, extension@) is Some,
        r matches Ok(v) ==> decoded_frames(bytes@, extension@) == Some(frame_values(v@)),
{
    let kind = format_of(bytes, extension);
    decode_as(bytes, extension, kind)
}

/// The characters that open a kitty graphics command.
pub open spec fn kitty_start() -> Seq<char> {
    seq!['\x1b', '_', 'G']
}

/// The characters that close a kitty graphics command.
pub open spec fn kitty_end() -> Seq<char> {
    seq!['\x1b', '\\']
}

fn push_start(out: &mut Vec<char>)
    ensures
        final(out)@ == old(out)@ + kitty_start(),
{
    let ghost s = out@;
    out.push('\x1b');
    out.push('_');
    out.push('G');
    assert(out@ =~= s + kitty_start());
}

fn push_end(out: &mut Vec<char>)
    ensures
        final(out)@ == old(out)@ + kitty_end(),
{
    let ghost s = out@;
    out.push('\x1b');
    out.push('\\');
    assert(out@ =~= s + kitty_end());
}

/// `key=` followed by the decimal notation of `n`.
pub open spec fn key_value(key: char, n: nat) -> Seq<char> {
    seq![key, '='] + decimal(n)
}

fn push_key_value(out: &mut Vec<char>, key: char, n: u64)
    ensures
        final(out)@ == old(out)@ + key_value(key, n as nat),
{
    let ghost s = out@;
    out.push(key);
    out.push('=');
    push_decimal(out, n);
    assert(out@ =~= s + key_value(key, n as nat));
}

/// The decimal notation of a signed number.
pub open spec fn signed_decimal(n: int) -> Seq<char> {
    if n < 0 {
        seq!['-'] + decimal((-n) as nat)
    } else {
        decimal(n as nat)
    }
}

/// What a kitty command does.
#[derive(Debug, Clone, Copy, PartialEq, Eq, Structural)]
pub enum KittyAction {
    Transmit,
    Display,
    Delete(KittyDelete),
    AnimationTransmitFrame,
    AnimationControl,
}

/// Which placements a delete command removes.
#[derive(Debug, Clone, Copy, PartialEq, Eq, Structural)]
pub enum KittyDelete {
    AllVisible,
}

impl AnsiDisplay for KittyDelete {
    open spec fn ansi(&self) -> Seq<char> {
        seq!['d', '=', 'a']
    }

    fn write_ansi(&self, out: &mut Vec<char>) {
        let ghost s = out@;
        out.push('d');
        out.push('=');
        out.push('a');
        assert(out@ =~= s + self.ansi());
    }
}

impl AnsiDisplay for KittyAction {
    open spec fn ansi(&self) -> Seq<char> {
        match *self {
            KittyAction::Transmit => seq!['a', '=', 't'],
            KittyAction::Display => seq!['a', '=', 'p'],
            KittyAction::Delete(d) => seq!['a', '=', 'd', ','] + d.ansi(),
            KittyAction::AnimationTransmitFrame => seq!['a', '=', 'f'],
            KittyAction::AnimationControl => seq!['a', '=', 'a'],
        }
    }

    fn write_ansi(&self, out: &mut Vec<char>) {
        let ghost s = out@;
        out.push('a');
        out.push('=');
        match *self {
            KittyAction::Transmit => out.push('t'),
            KittyAction::Display => out.push('p'),
            KittyAction::Delete(d) => {
                out.push('d');
                out.push(',');
                d.write_ansi(out);
            },
            KittyAction::AnimationTransmitFrame => out.push('f'),
            KittyAction::AnimationControl => out.push('a'),
        }
        assert(out@ =~= s + self.ansi());
    }
}

/// How much a kitty command reports back.
#[derive(Debug, Clone, Copy, PartialEq, Eq, Structural)]
pub enum KittyVerbosity {
    Silent,
}

impl AnsiDisplay for KittyVerbosity {
    open spec fn ansi(&self) -> Seq<char> {
        seq!['q', '=', '2']
    }

    fn write_ansi(&self, out: &mut Vec<char>) {
        let ghost s = out@;
        out.push('q');
        out.push('=');
        out.push('2');
        assert(out@ =~= s + self.ansi());
    }
}

/// How an image is scaled into cells.
#[derive(Debug, Clone, Copy, PartialEq, Eq, Structural)]
pub enum KittyScale {
    Columns(u16),
    Rows(u16),
    Stretch(u16, u16),
}

impl AnsiDisplay for KittyScale {
    open spec fn ansi(&self) -> Seq<char> {
        match *self {
            KittyScale::Columns(c) => key_value('c', c as nat),
            KittyScale::Rows(r) => key_value('r', r as nat),
            KittyScale::Stretch(c, r) => key_value('c', c as nat) + seq![','] + key_value('r', r as nat),
        }
    }

    fn write_ansi(&self, out: &mut Vec<char>) {
        let ghost s = out@;
        match *self {
            KittyScale::Columns(c) => push_key_value(out, 'c', c as u64),
            KittyScale::Rows(r) => push_key_value(out, 'r', r as u64),
            KittyScale::Stretch(c, r) => {
                push_key_value(out, 'c', c as u64);
                out.push(',');
                push_key_value(out, 'r', r as u64);
            },
        }
        assert(out@ =~= s + self.ansi());
    }
}

/// The part of the image shown, in pixels.
#[derive(Debug, Clone, Copy, PartialEq, Eq, Structural)]
pub struct KittyCrop {
    pub x: u32,
    pub y: u32,
    pub width: u32,
    pub height: u32,
}

impl AnsiDisplay for KittyCrop {
    open spec fn ansi(&self) -> Seq<char> {
        key_value('x', self.x as nat) + seq![','] + key_value('y', self.y as nat) + seq![',']
            + key_value('w', self.width as nat) + seq![','] + key_value('h', self.height as nat)
    }

    fn write_ansi(&self, out: &mut Vec<char>) {
        let ghost s = out@;
        push_key_value(out, 'x', self.x as u64);
        out.push(',');
        push_key_value(out, 'y', self.y as u64);
        out.push(',');
        push_key_value(out, 'w', self.width as u64);
        out.push(',');
        push_key_value(out, 'h', self.height as u64);
        assert(out@ =~= s + self.ansi());
    }
}

/// Places image `id` at the cursor, scaled and cropped as given, leaving
/// the cursor where it is.
#[derive(Debug, Clone, Copy, PartialEq, Eq, Structural)]
pub struct KittyRender {
    pub id: u32,
    pub scale: Option<KittyScale>,
    pub crop: Option<KittyCrop>,
}

impl AnsiDisplay for KittyRender {
    open spec fn ansi(&self) -> Seq<char> {
        kitty_start() + KittyAction::Display.ansi() + seq![','] + key_value('i', self.id as nat) + seq![',']
            + key_value('p', self.id as nat) + seq![','] + seq!['C', '=', '1'] + seq![',']
            + KittyVerbosity::Silent.ansi() + (match self.scale {
            Some(sc) => seq![','] + sc.ansi(),
            None => Seq::empty(),
        }) + (match self.crop {
            Some(cr) => seq![','] + cr.ansi(),
            None => Seq::empty(),
        }) + kitty_end()
    }

    #[verifier::rlimit(40)]
    fn write_ansi(&self, out: &mut Vec<char>) {
        let ghost s = out@;
        push_start(out);
        KittyAction::Display.write_ansi(out);
        out.push(',');
        push_key_value(out, 'i', self.id as u64);
        out.push(',');
        push_key_value(out, 'p', self.id as u64);
        out.push(',');
        out.push('C');
        out.push('=');
        out.push('1');
        out.push(',');
        KittyVerbosity::Silent.write_ansi(out);
        match self.scale {
            Some(sc) => {
                out.push(',');
                sc.write_ansi(out);
            },
            None => {},
        }
        match self.crop {
            Some(cr) => {
                out.push(',');
                cr.write_ansi(out);
            },
            None => {},
        }
        push_end(out);
        assert(out@ =~= s + self.ansi());
    }
}

/// Deletes every visible placement.
pub struct KittyDeleteAll;

impl AnsiDisplay for KittyDeleteAll {
    open spec fn ansi(&self) -> Seq<char> {
        kitty_start() + KittyAction::Delete(KittyDelete::AllVisible).ansi() + seq![',']
            + KittyVerbosity::Silent.ansi() + kitty_end()
    }

    fn write_ansi(&self, out: &mut Vec<char>) {
        let ghost s = out@;
        push_start(out);
        KittyAction::Delete(KittyDelete::AllVisible).write_ansi(out);
        out.push(',');
        KittyVerbosity::Silent.write_ansi(out);
        push_end(out);
        assert(out@ =~= s + self.ansi());
    }
}

/// The most base64 characters one command carries.
pub const CHUNK_SIZE: usize = 4096;

/// The pieces of `b64` that the commands carry, in order, from the piece
/// that starts at `start` on: full pieces while more than a piece is left,
/// then the rest.
pub open spec fn rest_payloads(b64: Seq<char>, start: int) -> Seq<Seq<char>>
    decreases b64.len() - start,
{
    if start + 4096 < b64.len() {
        seq![b64.subrange(start, start + 4096)] + rest_payloads(b64, start + 4096)
    } else {
        seq![b64.subrange(start, b64.len() as int)]
    }
}

/// The pieces of `b64` that the commands carry: the whole when it fits in
/// one, else a first piece of 4096 characters and the rest after it.
pub open spec fn chunk_payloads(b64: Seq<char>) -> Seq<Seq<char>> {
    if b64.len() <= 4096 {
        seq![b64]
    } else {
        seq![b64.subrange(0, 4096)] + rest_payloads(b64, 4096)
    }
}

/// One command with `header` and the `m` flag (`None` for a lone command)
/// carrying `payload`.
pub open spec fn chunk_command(header: Seq<char>, more: Option<bool>, payload: Seq<char>) -> Seq<char> {
    kitty_start() + header + (match more {
        Some(true) => seq![',', 'm', '=', '1'],
        Some(false) => seq![',', 'm', '=', '0'],
        None => Seq::empty(),
    }) + seq![';'] + payload + kitty_end()
}

/// The commands for the pieces `ps` after the first, all with `header`:
/// each says more follows but the last.
pub open spec fn later_commands(header: Seq<char>, ps: Seq<Seq<char>>) -> Seq<char>
    decreases ps.len(),
{
    if ps.len() == 0 {
        Seq::empty()
    } else {
        chunk_command(header, Some(ps.len() > 1), ps[0]) + later_commands(header, ps.drop_first())
    }
}

/// The commands that send `b64`: the first piece with `root`, the others
/// with `chunk`.
pub open spec fn chunked(root: Seq<char>, chunk: Seq<char>, b64: Seq<char>) -> Seq<char> {
    let ps = chunk_payloads(b64);
    if ps.len() == 1 {
        chunk_command(root, None, ps[0])
    } else {
        chunk_command(root, Some(true), ps[0]) + later_commands(chunk, ps.drop_first())
    }
}

/// Writes the commands that send `base64`, the first with `root_header`
/// and the others with `chunk_header`.
fn write_chunks(root_header: &Vec<char>, chunk_header: &Vec<char>, base64: &[char], out: &mut Vec<char>)
    ensures
        final(out)@ == old(out)@ + chunked(root_header@, chunk_header@, base64@),
{
    let ghost b = base64@;
    let b64_len = base64.len();
    if b64_len <= CHUNK_SIZE {
        let ghost s = out@;
        push_start(out);
        crate::chars::push_chars(out, root_header.as_slice());
        out.push(';');
        crate::chars::push_chars(out, base64);
        push_end(out);
        assert(b.subrange(0, b.len() as int) =~= b);
        assert(out@ =~= s + chunked(root_header@, chunk_header@, base64@));
        return;
    }
    let ghost s = out@;
    push_start(out);
    crate::chars::push_chars(out, root_header.as_slice());
    out.push(',');
    out.push('m');
    out.push('=');
    out.push('1');
    out.push(';');
    let first = crate::chars::copy_range(base64, 0, CHUNK_SIZE);
    crate::chars::push_chars(out, first.as_slice());
    push_end(out);
    let ghost head = out@;
    assert(head =~= s + chunk_command(root_header@, Some(true), b.subrange(0, 4096)));
    let mut start: usize = CHUNK_SIZE;
    while b64_len - start > CHUNK_SIZE
        invariant
            b == base64@,
            b64_len == b.len(),
            4096 <= start <= b.len(),
            out@ + later_commands(chunk_header@, rest_payloads(b, start as int))
                == head + later_commands(chunk_header@, rest_payloads(b, 4096)),
        decreases b64_len - start,
    {
        let ghost at = out@;
        push_start(out);
        crate::chars::push_chars(out, chunk_header.as_slice());
        out.push(',');
        out.push('m');
        out.push('=');
        out.push('1');
        out.push(';');
        let piece = crate::chars::copy_range(base64, start, start + CHUNK_SIZE);
        crate::chars::push_chars(out, piece.as_slice());
        push_end(out);
        proof {
            let ps = rest_payloads(b, start as int);
            assert(ps == seq![b.subrange(start as int, start + 4096)] + rest_payloads(b, start + 4096));
            assert(ps.len() > 1) by {
                assert(rest_payloads(b, start + 4096).len() > 0);
            }
            assert(ps.drop_first() =~= rest_payloads(b, start + 4096));
            assert(out@ =~= at + chunk_command(chunk_header@, Some(true), ps[0]));
        }
        start = start + CHUNK_SIZE;
    }
    let ghost at = out@;
    push_start(out);
    crate::chars::push_chars(out, chunk_header.as_slice());
    out.push(',');
    out.push('m');
    out.push('=');
    out.push('0');
    out.push(';');
    let last = crate::chars::copy_range(base64, start, b64_len);
    crate::chars::push_chars(out, last.as_slice());
    push_end(out);
    proof {
        let ps = rest_payloads(b, start as int);
        assert(ps == seq![b.subrange(start as int, b.len() as int)]);
        assert(ps.drop_first() =~= Seq::<Seq<char>>::empty());
        assert(later_commands(chunk_header@, ps.drop_first()) == Seq::<char>::empty());
        assert(out@ =~= at + chunk_command(chunk_header@, Some(false), ps[0]));
        assert(out@ =~= at + later_commands(chunk_header@, ps));
        let all = chunk_payloads(b);
        assert(all.drop_first() =~= rest_payloads(b, 4096));
        assert(rest_payloads(b, 4096).len() > 0);
    }
}

/// The pieces the commands carry make up the base64 text, in order; each
/// has at most 4096 characters, and all but the last exactly that many.
pub proof fn lemma_chunks_cover(b64: Seq<char>)
    ensures
        crate::text::concat(chunk_payloads(b64)) == b64,
        chunk_payloads(b64).len() >= 1,
        forall|k: int| 0 <= k < chunk_payloads(b64).len() ==> #[trigger] chunk_payloads(b64)[k].len() <= 4096,
        forall|k: int| 0 <= k < chunk_payloads(b64).len() - 1 ==> #[trigger] chunk_payloads(b64)[k].len() == 4096,
{
    if b64.len() <= 4096 {
        assert(crate::text::concat(seq![b64]) == crate::text::concat(Seq::<Seq<char>>::empty()) + b64) by {
            assert(seq![b64].drop_last() =~= Seq::<Seq<char>>::empty());
        }
        assert(Seq::<char>::empty() + b64 =~= b64);
    } else {
        lemma_rest_cover(b64, 4096);
        let ps = chunk_payloads(b64);
        crate::text::lemma_concat_front(b64.subrange(0, 4096), rest_payloads(b64, 4096));
        assert(b64.subrange(0, 4096) + b64.subrange(4096, b64.len() as int) =~= b64);
        assert forall|k: int| 0 <= k < ps.len() implies #[trigger] ps[k].len() <= 4096 by {
            if k > 0 {
                assert(ps[k] == rest_payloads(b64, 4096)[k - 1]);
            }
        }
        assert forall|k: int| 0 <= k < ps.len() - 1 implies #[trigger] ps[k].len() == 4096 by {
            if k > 0 {
                assert(ps[k] == rest_payloads(b64, 4096)[k - 1]);
            }
        }
    }
}

proof fn lemma_rest_cover(b64: Seq<char>, start: int)
    requires
        0 <= start <= b64.len(),
    ensures
        crate::text::concat(rest_payloads(b64, start)) == b64.subrange(start, b64.len() as int),
        rest_payloads(b64, start).len() >= 1,
        forall|k: int| 0 <= k < rest_payloads(b64, start).len() ==> #[trigger] rest_payloads(b64, start)[k].len() <= 4096,
        forall|k: int|
            0 <= k < rest_payloads(b64, start).len() - 1 ==> #[trigger] rest_payloads(b64, start)[k].len() == 4096,
    decreases b64.len() - start,
{
    let ps = rest_payloads(b64, start);
    if start + 4096 < b64.len() {
        lemma_rest_cover(b64, start + 4096);
        let tail = rest_payloads(b64, start + 4096);
        crate::text::lemma_concat_front(b64.subrange(start, start + 4096), tail);
        assert(b64.subrange(start, start + 4096) + b64.subrange(start + 4096, b64.len() as int)
            =~= b64.subrange(start, b64.len() as int));
        assert forall|k: int| 0 <= k < ps.len() implies #[trigger] ps[k].len() <= 4096 by {
            if k > 0 {
                assert(ps[k] == tail[k - 1]);
            }
        }
        assert forall|k: int| 0 <= k < ps.len() - 1 implies #[trigger] ps[k].len() == 4096 by {
            if k > 0 {
                assert(ps[k] == tail[k - 1]);
            }
        }
    } else {
        assert(ps =~= seq![b64.subrange(start, b64.len() as int)]);
        assert(ps.drop_last() =~= Seq::<Seq<char>>::empty());
        assert(crate::text::concat(ps.drop_last()) == Seq::<char>::empty());
        assert(crate::text::concat(ps) == crate::text::concat(ps.drop_last()) + ps.last());
        assert(Seq::<char>::empty() + ps[0] =~= ps[0]);
    }
}

/// `f=32,s=W,v=H`: 32-bit RGBA pixels, so many wide and high.
pub open spec fn format_code(dims: ImageDims) -> Seq<char> {
    seq!['f', '=', '3', '2', ','] + key_value('s', dims.width as nat) + seq![','] + key_value('v', dims.height as nat)
}

fn push_format(out: &mut Vec<char>, dims: ImageDims)
    ensures
        final(out)@ == old(out)@ + format_code(dims),
{
    let ghost s = out@;
    push_str(out, "f=32,");
    proof {
        reveal_strlit("f=32,");
    }
    push_key_value(out, 's', dims.width as u64);
    out.push(',');
    push_key_value(out, 'v', dims.height as u64);
    assert(out@ =~= s + format_code(dims));
}

/// The header of the command that sends a still image.
pub open spec fn static_root(id: u32, dims: ImageDims) -> Seq<char> {
    KittyAction::Transmit.ansi() + seq![','] + format_code(dims) + seq![',', 't', '=', 'd', ','] + key_value('i', id as nat)
        + seq![',', 'o', '=', 'z', ','] + KittyVerbosity::Silent.ansi()
}

/// The header of the commands that carry the rest of a still image.
pub open spec fn static_chunk(id: u32) -> Seq<char> {
    key_value('i', id as nat) + seq![','] + KittyVerbosity::Silent.ansi()
}

/// The header of the command that sends a frame of an animation shown
/// `delay` milliseconds.
pub open spec fn animated_root(id: u32, dims: ImageDims, delay: i32) -> Seq<char> {
    KittyAction::AnimationTransmitFrame.ansi() + seq![','] + format_code(dims) + seq![',', 't', '=', 'd', ',']
        + key_value('i', id as nat) + seq![',', 'z', '='] + signed_decimal(delay as int) + seq![',', 'o', '=', 'z', ',']
        + KittyVerbosity::Silent.ansi()
}

/// The header of the commands that carry the rest of a frame.
pub open spec fn animated_chunk(id: u32) -> Seq<char> {
    KittyAction::AnimationTransmitFrame.ansi() + seq![','] + key_value('i', id as nat) + seq![',']
        + KittyVerbosity::Silent.ansi()
}

/// The command that starts an animation, looping forever.
pub open spec fn animation_control(id: u32) -> Seq<char> {
    kitty_start() + KittyAction::AnimationControl.ansi() + seq![','] + key_value('i', id as nat)
        + seq![',', 's', '=', '3', ',', 'v', '=', '1', ','] + KittyVerbosity::Silent.ansi() + kitty_end()
}

fn static_root_header(id: u32, dims: ImageDims) -> (r: Vec<char>)
    ensures
        r@ == static_root(id, dims),
{
    let mut out: Vec<char> = Vec::new();
    KittyAction::Transmit.write_ansi(&mut out);
    out.push(',');
    push_format(&mut out, dims);
    out.push(',');
    out.push('t');
    out.push('=');
    out.push('d');
    out.push(',');
    push_key_value(&mut out, 'i', id as u64);
    out.push(',');
    out.push('o');
    out.push('=');
    out.push('z');
    out.push(',');
    KittyVerbosity::Silent.write_ansi(&mut out);
    assert(out@ =~= static_root(id, dims));
    out
}

fn static_chunk_header(id: u32) -> (r: Vec<char>)
    ensures
        r@ == static_chunk(id),
{
    let mut out: Vec<char> = Vec::new();
    push_key_value(&mut out, 'i', id as u64);
    out.push(',');
    KittyVerbosity::Silent.write_ansi(&mut out);
    assert(out@ =~= static_chunk(id));
    out
}

fn push_signed(out: &mut Vec<char>, n: i32)
    ensures
        final(out)@ == old(out)@ + signed_decimal(n as int),
{
    let ghost s = out@;
    if n < 0 {
        out.push('-');
        let m: i64 = -(n as i64);
        push_decimal(out, m as u64);
    } else {
        push_decimal(out, n as u64);
    }
    assert(out@ =~= s + signed_decimal(n as int));
}

fn animated_root_header(id: u32, dims: ImageDims, delay: i32) -> (r: Vec<char>)
    ensures
        r@ == animated_root(id, dims, delay),
{
    let mut out: Vec<char> = Vec::new();
    KittyAction::AnimationTransmitFrame.write_ansi(&mut out);
    out.push(',');
    push_format(&mut out, dims);
    out.push(',');
    out.push('t');
    out.push('=');
    out.push('d');
    out.push(',');
    push_key_value(&mut out, 'i', id as u64);
    out.push(',');
    out.push('z');
    out.push('=');
    push_signed(&mut out, delay);
    out.push(',');
    out.push('o');
    out.push('=');
    out.push('z');
    out.push(',');
    KittyVerbosity::Silent.write_ansi(&mut out);
    assert(out@ =~= animated_root(id, dims, delay));
    out
}

fn animated_chunk_header(id: u32) -> (r: Vec<char>)
    ensures
        r@ == animated_chunk(id),
{
    let mut out: Vec<char> = Vec::new();
    KittyAction::AnimationTransmitFrame.write_ansi(&mut out);
    out.push(',');
    push_key_value(&mut out, 'i', id as u64);
    out.push(',');
    KittyVerbosity::Silent.write_ansi(&mut out);
    assert(out@ =~= animated_chunk(id));
    out
}

fn push_animation_control(out: &mut Vec<char>, id: u32)
    ensures
        final(out)@ == old(out)@ + animation_control(id),
{
    let ghost s = out@;
    push_start(out);
    KittyAction::AnimationControl.write_ansi(out);
    out.push(',');
    push_key_value(out, 'i', id as u64);
    out.push(',');
    out.push('s');
    out.push('=');
    out.push('3');
    out.push(',');
    out.push('v');
    out.push('=');
    out.push('1');
    out.push(',');
    KittyVerbosity::Silent.write_ansi(out);
    push_end(out);
    assert(out@ =~= s + animation_control(id));
}

/// One decoded frame: its size in pixels, how long it shows (the
/// numerator of its delay in milliseconds) and its RGBA pixels.
pub struct Frame {
    pub width: u32,
    pub height: u32,
    pub delay_ms: u32,
    pub rgba: Vec<u8>,
}

/// The pixel dimensions recorded for a frame.
pub open spec fn frame_dims(f: Frame) -> ImageDims {
    ImageDims { width: f.width as u16, height: f.height as u16 }
}

/// The base64 text of a frame's compressed pixels.
pub open spec fn frame_b64(f: Frame) -> Seq<char> {
    base64_standard(zlib_deflated(f.rgba@, zlib_bound(f.rgba@.len() as usize)))
}

/// The commands that send frames `k..` of an animation.
pub open spec fn animated_frames(id: u32, frames: Seq<Frame>, k: int) -> Seq<char>
    decreases frames.len() - k,
{
    if k < 1 || k >= frames.len() {
        Seq::empty()
    } else {
        chunked(
            animated_root(id, frame_dims(frames[k]), frames[k].delay_ms as i32),
            animated_chunk(id),
            frame_b64(frames[k]),
        ) + animated_frames(id, frames, k + 1)
    }
}

/// The commands that send image `id` made of `frames`: the first frame as a
/// still image, then the others as animation frames and the command that
/// starts the animation.
pub open spec fn encoding(id: u32, frames: Seq<Frame>) -> Seq<char> {
    chunked(static_root(id, frame_dims(frames[0])), static_chunk(id), frame_b64(frames[0]))
        + animated_frames(id, frames, 1) + (if frames.len() > 1 { animation_control(id) } else { Seq::empty() })
}

/// A failed zlib compression, with the code it reported.
#[derive(Debug)]
pub struct DeflateError(pub zlib_rs::ReturnCode);

/// Compression into a buffer kept between calls.
struct Deflate(Vec<u8>);

impl Deflate {
    fn new() -> (r: Self) {
        Deflate(Vec::new())
    }

    /// Compresses `input` into a buffer as big as zlib says is enough.
    fn compress(&mut self, input: &[u8]) -> (r: Result<Vec<u8>, DeflateError>)
        ensures
            r is Ok,
            r matches Ok(v) ==> v@ == zlib_deflated(input@, zlib_bound(input@.len() as usize)),
            final(self).0@.len() == zlib_bound(input@.len() as usize),
    {
        let zeroes = compress_bound(input.len());
        self.0.clear();
        while self.0.len() < zeroes
            invariant
                self.0@.len() <= zeroes,
            decreases zeroes - self.0@.len(),
        {
            self.0.push(0);
        }
        match compress_slice(&mut self.0, input) {
            Ok(v) => Ok(v),
            Err(rc) => Err(DeflateError(rc)),
        }
    }
}

/// Why loading an image failed.
#[derive(Debug)]
pub enum KittyLoadError {
    Io(std::io::Error),
    Image(image::error::ImageError),
}

/// Why encoding an image failed.
#[derive(Debug)]
pub enum KittyEncodeError {
    Fmt(std::fmt::Error),
    Compress(DeflateError),
}

/// Why loading and encoding an image failed.
#[derive(Debug)]
pub enum KittyError {
    Load(KittyLoadError),
    Encode(KittyEncodeError),
}

/// The frames of the image being loaded, and the generation of what the
/// terminal holds.
pub struct KittyGraphics {
    frames: Vec<Frame>,
    deflate: Deflate,
    verbosity: KittyVerbosity,
    generation: u32,
}

/// An image known to the terminal by its id, with its encoded commands.
pub struct Image {
    id: u32,
    dims: ImageDims,
    encoded: Vec<char>,
    generation: u32,
}

impl KittyGraphics {
    pub closed spec fn spec_frames(&self) -> Seq<Frame> {
        self.frames@
    }

    /// The generation images must have been sent in to be shown without
    /// sending them again.
    pub closed spec fn spec_generation(&self) -> u32 {
        self.generation
    }

    pub fn new() -> (r: Self)
        ensures
            r.spec_frames() == Seq::<Frame>::empty(),
            r.spec_generation() == 1,
    {
        KittyGraphics { frames: Vec::new(), deflate: Deflate::new(), verbosity: KittyVerbosity::Silent, generation: 1 }
    }

    /// Starts a new generation, so that images are sent again (wrapping
    /// around after the last).
    pub fn increase_generation(&mut self)
        ensures
            final(self).spec_generation() == old(self).spec_generation().wrapping_add(1),
            final(self).spec_frames() == old(self).spec_frames(),
    {
        self.generation = self.generation.wrapping_add(1);
    }

    /// How many frames are loaded.
    pub fn frame_count(&self) -> (r: usize)
        ensures
            r == self.spec_frames().len(),
    {
        self.frames.len()
    }

    /// Drops the frames loaded so far.
    pub fn clear_frames(&mut self)
        ensures
            final(self).spec_frames() == Seq::<Frame>::empty(),
            final(self).spec_generation() == old(self).spec_generation(),
    {
        self.frames.clear();
    }

    /// Adds a decoded frame.
    pub fn push_frame(&mut self, frame: Frame)
        ensures
            final(self).spec_frames() == old(self).spec_frames().push(frame),
            final(self).spec_generation() == old(self).spec_generation(),
    {
        self.frames.push(frame);
    }

    /// Decodes the image `bytes`, read from a file with `extension` (empty
    /// for none), into the frames: every frame of an animated PNG, GIF or
    /// WebP, else the one image. The frames loaded before are dropped
    /// where the format is known; where it is not, decoding fails and they
    /// are kept.
    pub fn load_from_bytes(&mut self, bytes: &[u8], extension: &str) -> (r: Result<(), KittyLoadError>)
        ensures
            r is Ok <==> decoded_frames(bytes@, extension@) is Some,
            r is Ok ==> load_kind(bytes@, extension@) is Some
                && frame_values(final(self).spec_frames()) == decoded_frames(bytes@, extension@)->0,
            r is Err ==> (r matches Err(KittyLoadError::Image(_)))
                && final(self).spec_frames() == kept_frames(old(self).spec_frames(), bytes@, extension@),
            final(self).spec_generation() == old(self).spec_generation(),
    {
        let kind = format_of(bytes, extension);
        if kind.is_some() {
            self.frames.clear();
        }
        assert(self.frames@ == kept_frames(old(self).spec_frames(), bytes@, extension@));
        match decode_as(bytes, extension, kind) {
            Ok(mut v) => {
                let ghost got = v@;
                self.frames.append(&mut v);
                assert(self.frames@ =~= got);
                Ok(())
            },
            Err(e) => Err(KittyLoadError::Image(e)),
        }
    }

    /// Decodes a PNG as the only frame; on failure the frames are kept.
    fn load_png_from_bytes(&mut self, bytes: &[u8]) -> (r: Result<(), image::error::ImageError>)
        ensures
            r is Ok <==> png_rgba(bytes@) is Some,
            r is Ok ==> ({
                let (w, h, px) = png_rgba(bytes@)->0;
                &&& final(self).spec_frames().len() == 1
                &&& final(self).spec_frames()[0].width == w
                &&& final(self).spec_frames()[0].height == h
                &&& final(self).spec_frames()[0].delay_ms == 0
                &&& final(self).spec_frames()[0].rgba@ == px
            }),
            r is Err ==> final(self).spec_frames() == old(self).spec_frames(),
            final(self).spec_generation() == old(self).spec_generation(),
    {
        match decode_png(bytes) {
            Ok((width, height, rgba)) => {
                self.frames.clear();
                self.frames.push(Frame { width, height, delay_ms: 0, rgba });
                Ok(())
            },
            Err(e) => Err(e),
        }
    }

    /// Sends image `image`'s frames to `frame` unless it was sent in this
    /// generation, then places it at `pos` as `kitty` says.
    fn render(&self, image: &mut Image, frame: &mut Framebuffer, pos: Pos, kitty: KittyRender)
        requires
            pos.col < u16::MAX,
            pos.row < u16::MAX,
        ensures
            final(frame).output() == old(frame).output() + resent(old(image).spec_generation(), self.spec_generation(), old(image).spec_encoded())
                + move_to_code(pos.col, pos.row) + kitty.ansi(),
            final(frame).pending() == old(frame).pending(),
            final(frame).spec_size() == old(frame).spec_size(),
            final(image).spec_generation() == self.spec_generation(),
            final(image).spec_id() == old(image).spec_id(),
            final(image).spec_dims() == old(image).spec_dims(),
            final(image).spec_encoded() == old(image).spec_encoded(),
    {
        if image.generation != self.generation {
            frame.print_chars(image.encoded.as_slice());
            image.generation = self.generation;
        } else {
            assert(frame.output() + Seq::<char>::empty() =~= frame.output());
        }
        frame.cursor_move(pos);
        frame.print_fmt(kitty);
    }

    /// Encodes the loaded frames as the commands that send `image`: the
    /// first frame as a still image and, for an animation, the others as
    /// its frames and the command that starts it. The image's dimensions
    /// become the first frame's, and it counts as not yet sent.
    pub fn encode(&mut self, image: &mut Image) -> (r: Result<(), KittyEncodeError>)
        requires
            old(self).spec_frames().len() > 0,
        ensures
            r is Ok,
            final(self).spec_frames() == old(self).spec_frames(),
            final(self).spec_generation() == old(self).spec_generation(),
            final(image).spec_id() == old(image).spec_id(),
            final(image).spec_generation() == 0,
            final(image).spec_encoded() == encoding(old(image).spec_id(), old(self).spec_frames()),
            final(image).spec_dims() == frame_dims(old(self).spec_frames()[0]),
    {
        let id = image.id;
        image.clear();
        let ghost frames = self.frames@;
        let ghost generation = self.generation;
        let first = &self.frames[0];
        let dims = ImageDims { width: #[verifier::truncate] (first.width as u16), height: #[verifier::truncate] (first.height as u16) };
        let compressed = match self.deflate.compress(first.rgba.as_slice()) {
            Ok(v) => v,
            Err(e) => return Err(KittyEncodeError::Compress(e)),
        };
        let b64 = base64_encode(compressed.as_slice());
        let b64_chars = crate::chars::str_chars(b64.as_str());
        let root = static_root_header(id, dims);
        let chunk = static_chunk_header(id);
        write_chunks(&root, &chunk, b64_chars.as_slice(), &mut image.encoded);
        let ghost head = image.encoded@;
        assert(frames[0] == self.frames@[0]);
        if self.frames.len() > 1 {
            let mut i: usize = 1;
            assert(animated_frames(id, frames, 1) =~= animated_frames(id, frames, 1));
            while i < self.frames.len()
                invariant
                    frames == self.frames@,
                    frames == old(self).spec_frames(),
                    generation == self.generation,
                    generation == old(self).spec_generation(),
                    1 <= i <= frames.len(),
                    image.id == id,
                    id == old(image).spec_id(),
                    image.generation == 0,
                    image.dims == (ImageDims { width: 0, height: 0 }),
                    image.encoded@ + animated_frames(id, frames, i as int) == head + animated_frames(id, frames, 1),
                decreases frames.len() - i,
            {
                let f = &self.frames[i];
                let delay = #[verifier::truncate] (f.delay_ms as i32);
                let fdims = ImageDims { width: #[verifier::truncate] (f.width as u16), height: #[verifier::truncate] (f.height as u16) };
                let compressed = match self.deflate.compress(f.rgba.as_slice()) {
                    Ok(v) => v,
                    Err(e) => return Err(KittyEncodeError::Compress(e)),
                };
                let b64 = base64_encode(compressed.as_slice());
                let b64_chars = crate::chars::str_chars(b64.as_str());
                let root = animated_root_header(id, fdims, delay);
                let chunk = animated_chunk_header(id);
                let ghost at = image.encoded@;
                write_chunks(&root, &chunk, b64_chars.as_slice(), &mut image.encoded);
                proof {
                    let piece = chunked(animated_root(id, fdims, delay), animated_chunk(id), frame_b64(frames[i as int]));
                    assert(frames[i as int] == *f);
                    assert(animated_frames(id, frames, i as int) == piece + animated_frames(id, frames, i as int + 1));
                    assert(at + (piece + animated_frames(id, frames, i as int + 1))
                        =~= image.encoded@ + animated_frames(id, frames, i as int + 1));
                }
                i = i + 1;
            }
            assert(animated_frames(id, frames, i as int) == Seq::<char>::empty());
            assert(image.encoded@ + Seq::<char>::empty() =~= image.encoded@);
            push_animation_control(&mut image.encoded, id);
        } else {
            assert(animated_frames(id, frames, 1) == Seq::<char>::empty());
            assert(image.encoded@ =~= head + animated_frames(id, frames, 1) + Seq::<char>::empty());
        }
        image.dims = dims;
        Ok(())
    }
}

/// How an image is fitted into its area.
#[derive(Debug, Clone, Copy, PartialEq, Eq, Structural)]
pub enum ResizeMode {
    Fit,
    Stretch,
    FitWidthCropHeight { rows_outside_top: u16 },
}

impl Default for ResizeMode {
    fn default() -> (r: Self)
        ensures
            r == ResizeMode::Fit,
    {
        ResizeMode::Fit
    }
}

/// The cells an image takes once fitted, and how the terminal scales and
/// crops it to get there.
#[derive(Debug, Clone, Copy, PartialEq, Eq, Structural)]
pub struct ResizeResult {
    pub size: Size,
    pub scale: Option<KittyScale>,
    pub crop: Option<KittyCrop>,
}

/// How an image is fitted and aligned in its area.
#[derive(Debug, Clone, Copy, PartialEq, Eq, Structural)]
pub struct ImageOptions {
    pub resize: Option<ResizeMode>,
    pub horizontal: Option<HorizontalAlignment>,
    pub vertical: Option<VerticalAlignment>,
}

impl ImageOptions {
    pub fn new() -> (r: Self)
        ensures
            r == (ImageOptions { resize: None, horizontal: None, vertical: None }),
    {
        ImageOptions { resize: None, horizontal: None, vertical: None }
    }

    pub fn fit_and_center() -> (r: Self)
        ensures
            r == (ImageOptions {
                resize: Some(ResizeMode::Fit),
                horizontal: Some(HorizontalAlignment::Center),
                vertical: Some(VerticalAlignment::Center),
            }),
    {
        ImageOptions {
            resize: Some(ResizeMode::Fit),
            horizontal: Some(HorizontalAlignment::Center),
            vertical: Some(VerticalAlignment::Center),
        }
    }

    pub fn with_resize(self, resize: ResizeMode) -> (r: Self)
        ensures
            r == (ImageOptions { resize: Some(resize), ..self }),
    {
        let mut o = self;
        o.resize = Some(resize);
        o
    }

    pub fn with_horizontal(self, horizontal: HorizontalAlignment) -> (r: Self)
        ensures
            r == (ImageOptions { horizontal: Some(horizontal), ..self }),
    {
        let mut o = self;
        o.horizontal = Some(horizontal);
        o
    }

    pub fn with_vertical(self, vertical: VerticalAlignment) -> (r: Self)
        ensures
            r == (ImageOptions { vertical: Some(vertical), ..self }),
    {
        let mut o = self;
        o.vertical = Some(vertical);
        o
    }
}

impl Default for ImageOptions {
    fn default() -> (r: Self)
        ensures
            r == (ImageOptions {
                resize: Some(ResizeMode::Fit),
                horizontal: Some(HorizontalAlignment::Center),
                vertical: Some(VerticalAlignment::Center),
            }),
    {
        Self::fit_and_center()
    }
}

/// Where an image of `size` cells goes in `area`, aligned as `options` say.
/// The cells an image of `dims` pixels takes: as `resized` says, else
/// those its pixels cover, unscaled.
pub open spec fn image_cells(dims: ImageDims, term: TermSize, resized: Option<ResizeResult>) -> Size {
    match resized {
        Some(r) => r.size,
        None => Size {
            cols: ceil_div(dims.width as int, (term.spec_width() / term.spec_cols()) as int) as u16,
            rows: ceil_div(dims.height as int, (term.spec_height() / term.spec_rows()) as int) as u16,
        },
    }
}

pub open spec fn image_pos(area: Rect, size: Size, options: ImageOptions) -> Pos {
    Pos {
        col: match options.horizontal {
            Some(h) => h.spec_calc(area.pos.col, area.size.cols, size.cols) as u16,
            None => area.pos.col,
        },
        row: match options.vertical {
            Some(v) => v.spec_calc(area.pos.row, area.size.rows, size.rows) as u16,
            None => area.pos.row,
        },
    }
}

impl Image {
    pub closed spec fn spec_id(&self) -> u32 {
        self.id
    }

    pub closed spec fn spec_dims(&self) -> ImageDims {
        self.dims
    }

    /// The commands that send the image.
    pub closed spec fn spec_encoded(&self) -> Seq<char> {
        self.encoded@
    }

    /// The generation the image was last sent in.
    pub closed spec fn spec_generation(&self) -> u32 {
        self.generation
    }

    pub fn new(id: u32) -> (r: Self)
        ensures
            r.spec_id() == id,
            r.spec_dims() == (ImageDims { width: 0, height: 0 }),
            r.spec_encoded() == Seq::<char>::empty(),
            r.spec_generation() == 0,
    {
        Image { id, dims: ImageDims::zero(), encoded: Vec::new(), generation: 0 }
    }

    pub fn dims(&self) -> (r: ImageDims)
        ensures
            r == self.spec_dims(),
    {
        self.dims
    }

    /// The id the terminal knows the image by.
    pub fn id(&self) -> (r: u32)
        ensures
            r == self.spec_id(),
    {
        self.id
    }

    fn clear(&mut self)
        ensures
            final(self).spec_id() == old(self).spec_id(),
            final(self).spec_dims() == (ImageDims { width: 0, height: 0 }),
            final(self).spec_encoded() == Seq::<char>::empty(),
            final(self).spec_generation() == 0,
    {
        self.dims = ImageDims::zero();
        self.encoded.clear();
        self.generation = 0;
    }

    /// Loads the image `bytes`, read from a file with `extension` (empty
    /// for none), into `kitty`'s frames and encodes them as this image.
    pub fn load_from_bytes(&mut self, bytes: &[u8], extension: &str, kitty: &mut KittyGraphics) -> (r: Result<(), KittyError>)
        requires
            loads_a_frame(bytes@, extension@),
        ensures
            image_loaded(*old(self), *final(self), old(kitty).spec_frames(), final(kitty).spec_frames(), bytes@, extension@, r),
            final(kitty).spec_generation() == old(kitty).spec_generation(),
    {
        match kitty.load_from_bytes(bytes, extension) {
            Ok(()) => {},
            Err(e) => return Err(KittyError::Load(e)),
        }
        assert(frame_values(kitty.spec_frames()).len() == kitty.spec_frames().len());
        match kitty.encode(self) {
            Ok(()) => Ok(()),
            Err(e) => Err(KittyError::Encode(e)),
        }
    }

    /// Like `load_from_bytes`, where loading would leave at least one
    /// frame; otherwise nothing is loaded and `None` comes back.
    pub fn try_load_from_bytes(&mut self, bytes: &[u8], extension: &str, kitty: &mut KittyGraphics) -> (r: Option<Result<(), KittyError>>)
        ensures
            r is None <==> !loads_a_frame(bytes@, extension@),
            r is None ==> *final(self) == *old(self) && *final(kitty) == *old(kitty),
            r matches Some(res) ==> image_loaded(*old(self), *final(self), old(kitty).spec_frames(), final(kitty).spec_frames(), bytes@, extension@, res),
            final(kitty).spec_generation() == old(kitty).spec_generation(),
    {
        match decode_frames(bytes, extension) {
            Ok(v) => {
                if v.len() == 0 {
                    return None;
                }
            },
            Err(_) => {},
        }
        Some(self.load_from_bytes(bytes, extension, kitty))
    }

    /// Loads a PNG from memory as this image's only frame and encodes it.
    pub fn load_from_png_bytes(&mut self, bytes: &[u8], kitty: &mut KittyGraphics) -> (r: Result<(), KittyError>)
        ensures
            png_rgba(bytes@) is None ==> (r matches Err(KittyError::Load(KittyLoadError::Image(_)))) && *final(self) == *old(self)
                && final(kitty).spec_frames() == old(kitty).spec_frames(),
            png_rgba(bytes@) is Some ==> {
                let (w, h, px) = png_rgba(bytes@)->0;
                let f = final(kitty).spec_frames()[0];
                &&& final(kitty).spec_frames().len() == 1
                &&& f.width == w && f.height == h && f.delay_ms == 0 && f.rgba@ == px
                &&& final(self).spec_id() == old(self).spec_id()
                &&& final(self).spec_generation() == 0
                &&& r is Ok
                &&& final(self).spec_encoded() == encoding(old(self).spec_id(), final(kitty).spec_frames())
                &&& final(self).spec_dims() == frame_dims(f)
            },
            final(kitty).spec_generation() == old(kitty).spec_generation(),
    {
        match kitty.load_png_from_bytes(bytes) {
            Ok(()) => {},
            Err(e) => return Err(KittyError::Load(KittyLoadError::Image(e))),
        }
        match kitty.encode(self) {
            Ok(()) => Ok(()),
            Err(e) => Err(KittyError::Encode(e)),
        }
    }

    /// Shows the image in `area`: `resized` says how many cells it takes
    /// and how it is scaled and cropped (else it takes the cells its pixels
    /// cover, unscaled), it is aligned in the area as `options` say, and it
    /// is sent first unless it was sent in the current generation.
    pub fn render(
        &mut self,
        area: Rect,
        frame: &mut Framebuffer,
        kitty: &KittyGraphics,
        options: ImageOptions,
        resized: Option<ResizeResult>,
    )
        requires
            area_fits(area),
            image_pos(area, image_cells(old(self).spec_dims(), old(frame).spec_size(), resized), options).col < u16::MAX,
            image_pos(area, image_cells(old(self).spec_dims(), old(frame).spec_size(), resized), options).row < u16::MAX,
            old(frame).spec_size().spec_cols() != 0,
            old(frame).spec_size().spec_rows() != 0,
            resized is None ==> old(frame).spec_size().spec_width() / old(frame).spec_size().spec_cols() != 0
                && old(frame).spec_size().spec_height() / old(frame).spec_size().spec_rows() != 0,
        ensures
            ({
                let size = image_cells(old(self).spec_dims(), old(frame).spec_size(), resized);
                let (scale, crop) = match resized {
                    Some(r) => (r.scale, r.crop),
                    None => (None, None),
                };
                let pos = image_pos(area, size, options);
                final(frame).output() == old(frame).output() + resent(old(self).spec_generation(), kitty.spec_generation(), old(self).spec_encoded())
                    + move_to_code(pos.col, pos.row) + (KittyRender { id: old(self).spec_id(), scale, crop }).ansi()
            }),
            final(frame).pending() == old(frame).pending(),
            final(frame).spec_size() == old(frame).spec_size(),
            final(self).spec_generation() == kitty.spec_generation(),
            final(self).spec_id() == old(self).spec_id(),
            final(self).spec_dims() == old(self).spec_dims(),
            final(self).spec_encoded() == old(self).spec_encoded(),
    {
        let cell_dims = frame.cell_dims();
        let (size, render) = match resized {
            Some(r) => (r.size, KittyRender { id: self.id, scale: r.scale, crop: r.crop }),
            None => (cell_dims.size(self.dims), KittyRender { id: self.id, scale: None, crop: None }),
        };
        let col = match options.horizontal {
            Some(h) => h.calc(area.pos.col, area.size.cols, size.cols),
            None => area.pos.col,
        };
        let row = match options.vertical {
            Some(v) => v.calc(area.pos.row, area.size.rows, size.rows),
            None => area.pos.row,
        };
        kitty.render(self, frame, Pos { col, row }, render);
    }
}

/// What loading `bytes` into an image does: it succeeds exactly where they
/// decode; then the frames are exactly those decoded, and the image
/// holds their encoding, counts as not yet sent and takes the first
/// frame's dimensions; on failure the image is as it was and only the
/// frames kept are left.
pub open spec fn image_loaded(
    before: Image,
    after: Image,
    frames_before: Seq<Frame>,
    frames_after: Seq<Frame>,
    bytes: Seq<u8>,
    extension: Seq<char>,
    r: Result<(), KittyError>,
) -> bool {
    &&& r is Ok <==> decoded_frames(bytes, extension) is Some
    &&& r is Err ==> (r matches Err(KittyError::Load(KittyLoadError::Image(_)))) && after == before
        && frames_after == kept_frames(frames_before, bytes, extension)
    &&& r is Ok ==> {
        &&& frame_values(frames_after) == decoded_frames(bytes, extension)->0
        &&& after.spec_id() == before.spec_id()
        &&& after.spec_generation() == 0
        &&& after.spec_encoded() == encoding(before.spec_id(), frames_after)
        &&& after.spec_dims() == frame_dims(frames_after[0])
    }
}

/// What is sent of an image before it is placed: its commands, unless it
/// was sent in the current generation.
pub open spec fn resent(image_generation: u32, generation: u32, encoded: Seq<char>) -> Seq<char> {
    if image_generation != generation {
        encoded
    } else {
        Seq::empty()
    }
}

/// An image shown once is not sent again in the same generation: after a
/// render its generation is the current one, so the next render of it only
/// places it.
pub proof fn lemma_sent_once(image: Image, kitty: KittyGraphics, encoded: Seq<char>)
    requires
        image.spec_generation() == kitty.spec_generation(),
    ensures
        resent(image.spec_generation(), kitty.spec_generation(), encoded) == Seq::<char>::empty(),
{
}

/// Over two calls of `Image::render` in one generation (no
/// `increase_generation` between them), the image's commands are sent at
/// most once: by the first call exactly where the image was last sent in
/// another generation, and never by the second, which starts from the
/// state the first leaves (the current generation, the same commands).
/// What each call sends before placing the image is `resent` of its
/// state, as `Image::render`'s contract says.
pub proof fn lemma_sent_at_most_once(first: Image, second: Image, kitty: KittyGraphics)
    requires
        second.spec_generation() == kitty.spec_generation(),
        second.spec_encoded() == first.spec_encoded(),
    ensures
        resent(first.spec_generation(), kitty.spec_generation(), first.spec_encoded())
            + resent(second.spec_generation(), kitty.spec_generation(), second.spec_encoded())
            == (if first.spec_generation() != kitty.spec_generation() {
            first.spec_encoded()
        } else {
            Seq::<char>::empty()
        }),
{
    assert(first.spec_encoded() + Seq::<char>::empty() =~= first.spec_encoded());
    assert(Seq::<char>::empty() + Seq::<char>::empty() =~= Seq::<char>::empty());
}

} // verus!
