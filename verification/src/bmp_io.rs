use vstd::prelude::*;

use crate::canvas::Canvas;
use crate::color::Color;

verus! {

// Bridge to the bmp crate: its Image type carries the canvas contents to
// its in-memory encoder (and, in unverified callers, to its file writer).
// The declarations below are trusted: Verus believes their contracts and
// never reads the bmp crate itself.

/// Declares the bmp crate's `Image` type so it can appear in signatures.
/// The type is opaque to Verus; the names below describe its contents.
#[verifier::external_type_specification]
#[verifier::external_body]
pub struct ExImage(bmp::Image);

/// What a bmp image holds: the color stored at each in-range coordinate.
pub uninterp spec fn image_pixels(img: bmp::Image) -> Map<(int, int), Color>;

/// The width and height a bmp image was created with.
pub uninterp spec fn image_dims(img: bmp::Image) -> (int, int);

/// Whether a bmp image is in the state this library's constructors leave
/// it in: a pixel store of exactly width times height entries and the
/// default header fields `bmp::Image::new` writes, which is what the
/// crate's encoder and pixel accessors rely on.
pub uninterp spec fn image_wf(img: bmp::Image) -> bool;

/// The bytes the bmp crate's encoder produces: for a well-formed image
/// they are a function of the dimensions and pixel contents alone.
pub uninterp spec fn bmp_encoding(w: int, h: int, pixels: Map<(int, int), Color>) -> Seq<u8>;

/// A canvas's pixel store as a map from coordinates to colors.
pub open spec fn canvas_pixel_map(c: Canvas) -> Map<(int, int), Color> {
    Map::new(
        |p: (int, int)| 0 <= p.0 < c.width && 0 <= p.1 < c.height,
        |p: (int, int)| c.spec_pixel(p.0, p.1),
    )
}

/// Relies on `bmp::Image::new`: builds a width-by-height image with every
/// pixel black. The dimension bounds keep the crate's internal
/// `width * height` arithmetic inside `u32`.
#[verifier::external_body]
fn image_new(width: u32, height: u32) -> (img: bmp::Image)
    requires
        1 <= width <= 32768,
        1 <= height <= 32768,
    ensures
        image_wf(img),
        image_dims(img) == (width as int, height as int),
        image_pixels(img) == Map::new(
            |p: (int, int)| 0 <= p.0 < width && 0 <= p.1 < height,
            |p: (int, int)| Color { r: 0, g: 0, b: 0 },
        ),
{
    bmp::Image::new(width, height)
}

/// Relies on `bmp::Image::set_pixel`: replaces exactly the addressed
/// pixel. Out-of-range coordinates would index outside the row or the
/// store, so the contract excludes them.
#[verifier::external_body]
fn image_set_pixel(img: &mut bmp::Image, x: u32, y: u32, c: Color)
    requires
        image_wf(*old(img)),
        x < image_dims(*old(img)).0,
        y < image_dims(*old(img)).1,
    ensures
        image_wf(*final(img)),
        image_dims(*final(img)) == image_dims(*old(img)),
        image_pixels(*final(img)) == image_pixels(*old(img)).insert((x as int, y as int), c),
{
    img.set_pixel(x, y, bmp::Pixel::new(c.r, c.g, c.b));
}

/// Relies on `bmp::Image::to_writer`: encodes the image into memory.
/// Writing into a byte vector cannot fail, and for a well-formed image
/// the crate derives every header field from the dimensions, so the
/// output is `bmp_encoding` of the image's dimensions and pixels.
#[verifier::external_body]
fn image_encode(img: &bmp::Image) -> (r: Vec<u8>)
    requires
        image_wf(*img),
    ensures
        r@ == bmp_encoding(image_dims(*img).0, image_dims(*img).1, image_pixels(*img)),
{
    let mut out: Vec<u8> = Vec::new();
    let _ = img.to_writer(&mut out);
    out
}

/// Builds a bmp crate image holding exactly this canvas's pixels, for
/// unverified callers that hand it to the crate's file writer.
pub fn to_bmp_image(canvas: &Canvas) -> (img: bmp::Image)
    requires
        canvas.wf(),
    ensures
        image_wf(img),
        image_dims(img) == (canvas.width as int, canvas.height as int),
        image_pixels(img) == canvas_pixel_map(*canvas),
{
    let w = canvas.width;
    let h = canvas.height;
    let mut img = image_new(w, h);
    let mut y: u32 = 0;
    while y < h
        invariant
            canvas.wf(),
            w == canvas.width,
            h == canvas.height,
            y <= h,
            image_wf(img),
            image_dims(img) == (w as int, h as int),
            image_pixels(img) == Map::new(
                |p: (int, int)| 0 <= p.0 < w && 0 <= p.1 < h,
                |p: (int, int)|
                    if p.1 < y {
                        canvas.spec_pixel(p.0, p.1)
                    } else {
                        Color { r: 0, g: 0, b: 0 }
                    },
            ),
        decreases h - y,
    {
        let mut x: u32 = 0;
        while x < w
            invariant
                canvas.wf(),
                w == canvas.width,
                h == canvas.height,
                y < h,
                x <= w,
                image_wf(img),
                image_dims(img) == (w as int, h as int),
                image_pixels(img) == Map::new(
                    |p: (int, int)| 0 <= p.0 < w && 0 <= p.1 < h,
                    |p: (int, int)|
                        if p.1 < y || (p.1 == y && p.0 < x) {
                            canvas.spec_pixel(p.0, p.1)
                        } else {
                            Color { r: 0, g: 0, b: 0 }
                        },
                ),
            decreases w - x,
        {
            let c = match canvas.get_pixel(x, y) {
                Some(c) => c,
                None => Color { r: 0, g: 0, b: 0 },
            };
            image_set_pixel(&mut img, x, y, c);
            proof {
                assert(image_pixels(img) =~= Map::new(
                    |p: (int, int)| 0 <= p.0 < w && 0 <= p.1 < h,
                    |p: (int, int)|
                        if p.1 < y || (p.1 == y && p.0 < x + 1) {
                            canvas.spec_pixel(p.0, p.1)
                        } else {
                            Color { r: 0, g: 0, b: 0 }
                        },
                ));
            }
            x = x + 1;
        }
        proof {
            assert(image_pixels(img) =~= Map::new(
                |p: (int, int)| 0 <= p.0 < w && 0 <= p.1 < h,
                |p: (int, int)|
                    if p.1 < y + 1 {
                        canvas.spec_pixel(p.0, p.1)
                    } else {
                        Color { r: 0, g: 0, b: 0 }
                    },
            ));
        }
        y = y + 1;
    }
    proof {
        assert(image_pixels(img) =~= canvas_pixel_map(*canvas));
    }
    img
}

/// Encodes a canvas through the bmp crate's in-memory encoder: the
/// result is the crate's encoding of exactly this canvas's dimensions
/// and pixel contents.
pub fn canvas_to_bmp_bytes(canvas: &Canvas) -> (r: Vec<u8>)
    requires
        canvas.wf(),
    ensures
        r@ == bmp_encoding(
            canvas.width as int,
            canvas.height as int,
            canvas_pixel_map(*canvas),
        ),
{
    let img = to_bmp_image(canvas);
    image_encode(&img)
}

} // verus!
