//! The shaded relief that lies over the land of the map.
//!
//! The relief is stored as a grey picture in which flat land is white. The map lays a tint
//! over the land through it, so that the same picture darkens slopes on one face of the
//! console and lightens them on the other: what a pixel lacks to white becomes the
//! strength of the tint.

use vstd::prelude::*;

verus! {

/// A grey picture, row by row from the top.
#[derive(Debug)]
pub struct Gray {
    pub width: u32,
    pub height: u32,
    pub pixels: Vec<u8>,
}

/// A picture with four bytes to a pixel: red, green, blue, and how strong it is.
#[derive(Debug)]
pub struct Overlay {
    pub width: u32,
    pub height: u32,
    pub rgba: Vec<u8>,
}

/// The width, the height and the grey pixels of a picture that is stored as PNG. None where
/// the bytes do not decode.
pub uninterp spec fn picture_of(bytes: Seq<u8>) -> Option<(u32, u32, Seq<u8>)>;

/// Whether the header of a PNG says that its pixels are stored in grey, with or without
/// transparency.
pub open spec fn stored_in_grey(bytes: Seq<u8>) -> bool {
    bytes.len() > 25 && (bytes[25] == 0 || bytes[25] == 4)
}

/// Calls `image::load_from_memory_with_format` for PNG, `to_luma8` on what it gives, and
/// `pixels` on that. Whether the bytes decode, and how large the picture then is, depends on
/// the bytes alone and is named by `picture_of`, and so are the pixels of a picture that is
/// stored in grey. There are as many pixels as the width and the height make. Which grey a
/// colour becomes is left unsaid: it is computed in floating point, and its last digit can
/// differ from one machine to the next.
#[verifier::external_body]
fn decode_gray(bytes: &[u8]) -> (r: Option<Gray>)
    ensures
        match picture_of(bytes@) {
            Some((width, height, pixels)) => {
                &&& r matches Some(g)
                &&& g.width == width
                &&& g.height == height
                &&& g.pixels@.len() == width * height
                &&& stored_in_grey(bytes@) ==> g.pixels@ == pixels
            },
            None => r is None,
        },
{
    match image::load_from_memory_with_format(bytes, image::ImageFormat::Png) {
        Ok(picture) => {
            let gray = picture.to_luma8();
            let (width, height) = gray.dimensions();
            Some(Gray { width, height, pixels: gray.pixels().map(|p| p.0[0]).collect() })
        },
        Err(_) => None,
    }
}

/// The overlay of a grey picture: white all over, as strong as the pixel is dark.
pub open spec fn shaded(pixels: Seq<u8>) -> Seq<u8> {
    Seq::new(
        4 * pixels.len(),
        |i: int|
            if i % 4 == 3 {
                (255 - pixels[i / 4]) as u8
            } else {
                255
            },
    )
}

/// The overlay of a grey picture.
pub fn overlay(gray: &Gray) -> (r: Overlay)
    ensures
        r.width == gray.width,
        r.height == gray.height,
        r.rgba@ == shaded(gray.pixels@),
{
    let mut rgba: Vec<u8> = Vec::new();
    let mut i: usize = 0;
    while i < gray.pixels.len()
        invariant
            i <= gray.pixels@.len(),
            rgba@ == shaded(gray.pixels@).take(4 * i as int),
        decreases gray.pixels@.len() - i,
    {
        rgba.push(255);
        rgba.push(255);
        rgba.push(255);
        rgba.push(255 - gray.pixels[i]);
        assert(rgba@ == shaded(gray.pixels@).take(4 * (i + 1)));
        i = i + 1;
    }
    assert(shaded(gray.pixels@).take(4 * gray.pixels@.len() as int) == shaded(gray.pixels@));
    Overlay { width: gray.width, height: gray.height, rgba }
}

/// The overlay of a picture that is stored as PNG: white all over, and of the picture's size.
/// None where, and only where, the picture does not decode.
pub fn make_relief(bytes: &[u8]) -> (r: Option<Overlay>)
    ensures
        match picture_of(bytes@) {
            Some((width, height, pixels)) => {
                &&& r matches Some(o)
                &&& o.width == width
                &&& o.height == height
                &&& o.rgba@.len() == 4 * (width * height)
                &&& forall|i: int|
                    0 <= i < o.rgba@.len() && i % 4 != 3 ==> #[trigger] o.rgba@[i] == 255
                &&& stored_in_grey(bytes@) ==> o.rgba@ == shaded(pixels)
            },
            None => r is None,
        },
{
    match decode_gray(bytes) {
        Some(g) => Some(overlay(&g)),
        None => None,
    }
}

/// Flat land, which is white, has no tint; and the darker a pixel the stronger the tint.
pub proof fn law_flat_land_is_clear(pixels: Seq<u8>, i: int, j: int)
    requires
        0 <= i < pixels.len(),
        0 <= j < pixels.len(),
    ensures
        pixels[i] == 255 ==> shaded(pixels)[4 * i + 3] == 0,
        pixels[i] < pixels[j] ==> shaded(pixels)[4 * i + 3] > shaded(pixels)[4 * j + 3],
{
}

/// What a pixel lacks to white is the strength of the tint, and the tint itself is white
/// everywhere: four bytes for each pixel.
pub proof fn law_tint_makes_up_for_white(pixels: Seq<u8>, i: int)
    requires
        0 <= i < pixels.len(),
    ensures
        shaded(pixels).len() == 4 * pixels.len(),
        pixels[i] + shaded(pixels)[4 * i + 3] == 255,
        shaded(pixels)[4 * i] == 255 && shaded(pixels)[4 * i + 1] == 255 && shaded(pixels)[4 * i + 2]
            == 255,
{
}

} // verus!
