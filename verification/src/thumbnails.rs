//! Square thumbnails cut out of downloaded pictures.
use vstd::prelude::*;

verus! {

/// The width and height of the picture that `image::load_from_memory`
/// decodes from these bytes, `None` when they do not decode.
pub uninterp spec fn decoded_size(bytes: Seq<u8>) -> Option<(u32, u32)>;

/// The bytes that `image` writes when it decodes these bytes, crops the
/// `side` by `side` square at `left`, `top` (clamped to the picture) and
/// encodes it as PNG: no bytes when decoding fails, and, should encoding
/// fail, whatever had been written by then.
pub uninterp spec fn cropped_png(bytes: Seq<u8>, left: u32, top: u32, side: u32) -> Seq<u8>;

/// `image::load_from_memory`, then `DynamicImage::width` and `height`: the
/// size of the decoded picture, `None` when the bytes do not decode.
#[verifier::external_body]
fn decode_size(b: &Vec<u8>) -> (r: Option<(u32, u32)>)
    ensures
        r == decoded_size(b@),
{
    match image::load_from_memory(b) {
        Ok(img) => Some((img.width(), img.height())),
        Err(_) => None,
    }
}

/// `image::load_from_memory`, `DynamicImage::crop_imm` and
/// `DynamicImage::write_to` in PNG: the encoded square of the decoded
/// picture (no bytes when decoding or encoding fails).
#[verifier::external_body]
fn crop_to_png(b: &Vec<u8>, l: u32, t: u32, s: u32) -> (r: Vec<u8>)
    ensures
        r@ == cropped_png(b@, l, t, s),
{
    let mut out: Vec<u8> = Vec::new();
    if let Ok(img) = image::load_from_memory(b) {
        let _ = img.crop_imm(l, t, s, s).write_to(std::io::Cursor::new(&mut out), image::ImageFormat::Png);
    }
    out
}

/// The square in the middle of a `w` by `h` picture: its left and top
/// offsets and its side, the picture's smaller dimension.
pub open spec fn square_of(w: u32, h: u32) -> (u32, u32, u32) {
    let side = if h < w {
        h
    } else {
        w
    };
    (((w - side) / 2) as u32, ((h - side) / 2) as u32, side)
}

/// The square cut out of the middle of a `w` by `h` picture: its left and
/// top offsets and its side, the picture's smaller dimension.
pub fn square_crop(w: u32, h: u32) -> (r: (u32, u32, u32))
    ensures
        r == square_of(w, h),
        r.0 + r.2 <= w,
        r.1 + r.2 <= h,
{
    let smaller = if h < w {
        h
    } else {
        w
    };
    let left = (w - smaller) / 2;
    let top = (h - smaller) / 2;
    (left, top, smaller)
}

/// The thumbnail of a downloaded picture: its middle square, as PNG
/// bytes; `None` when the bytes are not a picture.
pub fn square_thumbnail(bytes: &Vec<u8>) -> (r: Option<Vec<u8>>)
    ensures
        match decoded_size(bytes@) {
            None => r is None,
            Some((w, h)) => r matches Some(out) && out@ == cropped_png(
                bytes@,
                square_of(w, h).0,
                square_of(w, h).1,
                square_of(w, h).2,
            ),
        },
{
    match decode_size(bytes) {
        None => None,
        Some((w, h)) => {
            let (left, top, side) = square_crop(w, h);
            Some(crop_to_png(bytes, left, top, side))
        },
    }
}

} // verus!
