use vstd::prelude::*;

use crate::canvas::Canvas;
use crate::color::Color;
use vstd::arithmetic::div_mod::lemma_div_denominator;
use vstd::arithmetic::div_mod::lemma_fundamental_div_mod;
use vstd::arithmetic::div_mod::lemma_fundamental_div_mod_converse_div;
use vstd::arithmetic::div_mod::lemma_fundamental_div_mod_converse_mod;
use vstd::arithmetic::div_mod::lemma_mod_division_less_than_divisor;
use vstd::arithmetic::div_mod::lemma_small_mod;

verus! {

// The encoded form is an uncompressed 24-bit bitmap file, version 3:
// a 14-byte file header, a 40-byte info header, then the pixel array in
// bottom-up row order, each pixel as blue, green, red channel bytes and
// each row padded with zeros to a multiple of four bytes.

/// Zero padding appended to each encoded pixel row: for three bytes per
/// pixel, `width % 4` brings the row to a multiple of four bytes.
pub open spec fn row_padding(width: int) -> int {
    width % 4
}

/// Bytes per encoded pixel row, padding included.
pub open spec fn row_size(width: int) -> int {
    3 * width + row_padding(width)
}

/// Bytes in the encoded pixel array.
pub open spec fn data_size(width: int, height: int) -> int {
    height * row_size(width)
}

/// Total bytes in the encoded file: both headers plus the pixel array.
pub open spec fn file_size(width: int, height: int) -> int {
    54 + data_size(width, height)
}

/// Byte `i` of the 32-bit little-endian encoding of `v`.
pub open spec fn le32_byte(v: int, i: int) -> u8 {
    if i == 0 {
        (v % 256) as u8
    } else if i == 1 {
        ((v / 256) % 256) as u8
    } else if i == 2 {
        ((v / 65536) % 256) as u8
    } else {
        ((v / 16777216) % 256) as u8
    }
}

/// The 32-bit little-endian value stored at offset `off`.
pub open spec fn le32_at(b: Seq<u8>, off: int) -> int {
    b[off] + 256 * b[off + 1] + 65536 * b[off + 2] + 16777216 * b[off + 3]
}

/// The 16-bit little-endian value stored at offset `off`.
pub open spec fn le16_at(b: Seq<u8>, off: int) -> int {
    b[off] + 256 * b[off + 1]
}

/// Byte `i` of the 54-byte header for a `width` by `height` image.
pub open spec fn header_byte(width: int, height: int, i: int) -> u8 {
    if i == 0 {
        66u8  // 'B'
    } else if i == 1 {
        77u8  // 'M'
    } else if i < 6 {
        le32_byte(file_size(width, height), i - 2)
    } else if i < 10 {
        0u8  // two unused 16-bit creator fields
    } else if i < 14 {
        le32_byte(54, i - 10)  // pixel array offset
    } else if i < 18 {
        le32_byte(40, i - 14)  // info header size
    } else if i < 22 {
        le32_byte(width, i - 18)
    } else if i < 26 {
        le32_byte(height, i - 22)
    } else if i < 28 {
        le32_byte(1, i - 26)  // color planes
    } else if i < 30 {
        le32_byte(24, i - 28)  // bits per pixel
    } else if i < 34 {
        0u8  // no compression
    } else if i < 38 {
        le32_byte(data_size(width, height), i - 34)
    } else if i < 42 {
        le32_byte(1000, i - 38)  // horizontal pixels per meter
    } else if i < 46 {
        le32_byte(1000, i - 42)  // vertical pixels per meter
    } else {
        0u8  // palette size and important-color count
    }
}

/// Byte `j` of the encoded pixel array: rows bottom-up, three channel
/// bytes (blue, green, red) per pixel, zero padding at each row's end.
pub open spec fn pixel_array_byte(c: Canvas, j: int) -> u8 {
    let w = c.width as int;
    let h = c.height as int;
    let row = j / row_size(w);
    let k = j % row_size(w);
    if k < 3 * w {
        let x = k / 3;
        let ch = k % 3;
        let px = c.spec_pixel(x, h - 1 - row);
        if ch == 0 {
            px.b
        } else if ch == 1 {
            px.g
        } else {
            px.r
        }
    } else {
        0u8
    }
}

/// The full encoded byte sequence of a canvas.
pub open spec fn spec_encode(c: Canvas) -> Seq<u8> {
    Seq::new(
        file_size(c.width as int, c.height as int) as nat,
        |i: int|
            if i < 54 {
                header_byte(c.width as int, c.height as int, i)
            } else {
                pixel_array_byte(c, i - 54)
            },
    )
}

/// Appends the 32-bit little-endian encoding of `v`.
fn push_le32(out: &mut Vec<u8>, v: u32)
    ensures
        final(out)@.len() == old(out)@.len() + 4,
        forall|i: int| 0 <= i < old(out)@.len() ==> final(out)@[i] == old(out)@[i],
        final(out)@[old(out)@.len() as int + 0] == le32_byte(v as int, 0),
        final(out)@[old(out)@.len() as int + 1] == le32_byte(v as int, 1),
        final(out)@[old(out)@.len() as int + 2] == le32_byte(v as int, 2),
        final(out)@[old(out)@.len() as int + 3] == le32_byte(v as int, 3),
{
    out.push((v % 256) as u8);
    out.push(((v / 256) % 256) as u8);
    out.push(((v / 65536) % 256) as u8);
    out.push(((v / 16777216) % 256) as u8);
}

/// Appends the 16-bit little-endian encoding of `v`.
fn push_le16(out: &mut Vec<u8>, v: u16)
    ensures
        final(out)@.len() == old(out)@.len() + 2,
        forall|i: int| 0 <= i < old(out)@.len() ==> final(out)@[i] == old(out)@[i],
        final(out)@[old(out)@.len() as int + 0] == le32_byte(v as int, 0),
        final(out)@[old(out)@.len() as int + 1] == le32_byte(v as int, 1),
{
    out.push((v % 256) as u8);
    out.push(((v / 256) % 256) as u8);
}

/// The byte index of channel `ch` of pixel `x` within bottom-up row `r`
/// of the pixel array decomposes back into exactly `r`, `x` and `ch`.
proof fn lemma_pixel_byte_index(w: int, r: int, x: int, ch: int)
    requires
        1 <= w,
        0 <= r,
        0 <= x < w,
        0 <= ch < 3,
    ensures
        (r * row_size(w) + 3 * x + ch) / row_size(w) == r,
        (r * row_size(w) + 3 * x + ch) % row_size(w) == 3 * x + ch,
        (3 * x + ch) / 3 == x,
        (3 * x + ch) % 3 == ch,
{
    lemma_mod_division_less_than_divisor(w, 4);
    assert(0 <= 3 * x + ch < row_size(w));
    lemma_fundamental_div_mod_converse_div(r * row_size(w) + 3 * x + ch, row_size(w), r, 3 * x + ch);
    lemma_fundamental_div_mod_converse_mod(r * row_size(w) + 3 * x + ch, row_size(w), r, 3 * x + ch);
    lemma_fundamental_div_mod_converse_div(3 * x + ch, 3, x, ch);
    lemma_fundamental_div_mod_converse_mod(3 * x + ch, 3, x, ch);
}

/// The byte index of padding byte `p` within bottom-up row `r` of the
/// pixel array decomposes back into `r` and a row offset past the pixels.
proof fn lemma_pad_byte_index(w: int, r: int, p: int)
    requires
        1 <= w,
        0 <= r,
        0 <= p < row_padding(w),
    ensures
        (r * row_size(w) + 3 * w + p) / row_size(w) == r,
        (r * row_size(w) + 3 * w + p) % row_size(w) == 3 * w + p,
{
    lemma_mod_division_less_than_divisor(w, 4);
    assert(0 <= 3 * w + p < row_size(w));
    lemma_fundamental_div_mod_converse_div(r * row_size(w) + 3 * w + p, row_size(w), r, 3 * w + p);
    lemma_fundamental_div_mod_converse_mod(r * row_size(w) + 3 * w + p, row_size(w), r, 3 * w + p);
}

/// Encodes a canvas as an uncompressed 24-bit bitmap file image,
/// byte for byte as `spec_encode` lays it out.
pub fn encode_bmp(canvas: &Canvas) -> (r: Vec<u8>)
    requires
        canvas.wf(),
    ensures
        r@ == spec_encode(*canvas),
{
    let w: u32 = canvas.width;
    let h: u32 = canvas.height;
    let pad: u32 = w % 4;
    let rs: u32 = 3 * w + pad;
    proof {
        vstd::arithmetic::mul::lemma_mul_upper_bound(h as int, 32768, rs as int, 98307);
        assert((h as int) * (rs as int) <= 3221323776);
    }
    let ds: u32 = h * rs;
    let fs: u32 = 54 + ds;
    let mut out: Vec<u8> = Vec::new();
    out.push(66);
    out.push(77);
    push_le32(&mut out, fs);
    push_le16(&mut out, 0);
    push_le16(&mut out, 0);
    push_le32(&mut out, 54);
    push_le32(&mut out, 40);
    push_le32(&mut out, w);
    push_le32(&mut out, h);
    push_le16(&mut out, 1);
    push_le16(&mut out, 24);
    push_le32(&mut out, 0);
    push_le32(&mut out, ds);
    push_le32(&mut out, 1000);
    push_le32(&mut out, 1000);
    push_le32(&mut out, 0);
    push_le32(&mut out, 0);
    proof {
        assert(out@.len() == 54);
        assert(forall|i: int|
            0 <= i < 54 ==> out@[i] == header_byte(w as int, h as int, i));
    }
    let mut r_row: u32 = 0;
    while r_row < h
        invariant
            canvas.wf(),
            w == canvas.width,
            h == canvas.height,
            pad == row_padding(w as int),
            rs == row_size(w as int),
            ds == data_size(w as int, h as int),
            r_row <= h,
            out@.len() == 54 + r_row * rs,
            forall|i: int|
                0 <= i < 54 ==> out@[i] == header_byte(w as int, h as int, i),
            forall|j: int|
                0 <= j < r_row * rs ==> out@[54 + j] == pixel_array_byte(*canvas, j),
        decreases h - r_row,
    {
        proof {
            assert((r_row + 1) * (rs as int) <= (h as int) * (rs as int)) by (nonlinear_arith)
                requires
                    r_row < h,
                    rs >= 0,
            ;
            assert((r_row as int) * (rs as int) + rs == (r_row + 1) * (rs as int))
                by (nonlinear_arith);
        }
        let y: u32 = h - 1 - r_row;
        let mut x: u32 = 0;
        while x < w
            invariant
                canvas.wf(),
                w == canvas.width,
                h == canvas.height,
                pad == row_padding(w as int),
                rs == row_size(w as int),
                r_row < h,
                y == h - 1 - r_row,
                x <= w,
                out@.len() == 54 + r_row * rs + 3 * x,
                (r_row as int) * (rs as int) + rs <= (h as int) * (rs as int),
                forall|i: int|
                    0 <= i < 54 ==> out@[i] == header_byte(w as int, h as int, i),
                forall|j: int|
                    0 <= j < r_row * rs + 3 * x ==> out@[54 + j] == pixel_array_byte(*canvas, j),
            decreases w - x,
        {
            let px = match canvas.get_pixel(x, y) {
                Some(p) => p,
                None => Color { r: 0, g: 0, b: 0 },
            };
            out.push(px.b);
            out.push(px.g);
            out.push(px.r);
            proof {
                lemma_pixel_byte_index(w as int, r_row as int, x as int, 0);
                lemma_pixel_byte_index(w as int, r_row as int, x as int, 1);
                lemma_pixel_byte_index(w as int, r_row as int, x as int, 2);
            }
            x = x + 1;
        }
        let mut p: u32 = 0;
        while p < pad
            invariant
                canvas.wf(),
                w == canvas.width,
                h == canvas.height,
                pad == row_padding(w as int),
                rs == row_size(w as int),
                r_row < h,
                p <= pad,
                out@.len() == 54 + r_row * rs + 3 * w + p,
                (r_row as int) * (rs as int) + rs <= (h as int) * (rs as int),
                forall|i: int|
                    0 <= i < 54 ==> out@[i] == header_byte(w as int, h as int, i),
                forall|j: int|
                    0 <= j < r_row * rs + 3 * w + p ==> out@[54 + j] == pixel_array_byte(
                        *canvas,
                        j,
                    ),
            decreases pad - p,
        {
            out.push(0);
            proof {
                lemma_pad_byte_index(w as int, r_row as int, p as int);
            }
            p = p + 1;
        }
        r_row = r_row + 1;
    }
    proof {
        assert(out@ =~= spec_encode(*canvas));
    }
    out
}

/// The bitmap inputs the decoder accepts: the uncompressed 24-bit layout
/// this library writes, with the pixel array directly after the headers
/// and both dimensions positive and within the canvas limits.
pub open spec fn valid_bmp(b: Seq<u8>) -> bool {
    &&& b.len() >= 54
    &&& b[0] == 66
    &&& b[1] == 77
    &&& le32_at(b, 10) == 54
    &&& le32_at(b, 14) == 40
    &&& le16_at(b, 28) == 24
    &&& le32_at(b, 30) == 0
    &&& le32_at(b, 46) == 0
    &&& 1 <= le32_at(b, 18) <= crate::canvas::MAX_DIM
    &&& 1 <= le32_at(b, 22) <= crate::canvas::MAX_DIM
    &&& b.len() >= 54 + data_size(le32_at(b, 18), le32_at(b, 22))
}

/// The image width stored in an encoded bitmap.
pub open spec fn decoded_width(b: Seq<u8>) -> int {
    le32_at(b, 18)
}

/// The image height stored in an encoded bitmap.
pub open spec fn decoded_height(b: Seq<u8>) -> int {
    le32_at(b, 22)
}

/// The color of pixel `(x, y)` stored in an encoded bitmap: rows are
/// bottom-up and each pixel is blue, green, red channel bytes.
pub open spec fn decoded_pixel(b: Seq<u8>, x: int, y: int) -> Color {
    let w = decoded_width(b);
    let h = decoded_height(b);
    let base = 54 + (h - 1 - y) * row_size(w) + 3 * x;
    Color { r: b[base + 2], g: b[base + 1], b: b[base] }
}

/// The error the decoder reports: the bytes are not a bitmap image in
/// the uncompressed 24-bit layout this library reads.
#[derive(Clone, Copy, PartialEq, Eq, Structural, Debug)]
pub enum CodecError {
    InvalidFormat,
}

/// Reads the 32-bit little-endian value at offset `off`.
fn read_le32(b: &Vec<u8>, off: usize) -> (r: u32)
    requires
        off <= usize::MAX - 4,
        off + 4 <= b@.len(),
    ensures
        r == le32_at(b@, off as int),
{
    (b[off] as u32) + 256 * (b[off + 1] as u32) + 65536 * (b[off + 2] as u32) + 16777216 * (b[off
        + 3] as u32)
}

/// Reads the 16-bit little-endian value at offset `off`.
fn read_le16(b: &Vec<u8>, off: usize) -> (r: u32)
    requires
        off <= usize::MAX - 2,
        off + 2 <= b@.len(),
    ensures
        r == le16_at(b@, off as int),
{
    (b[off] as u32) + 256 * (b[off + 1] as u32)
}

/// An offset within a row of the pixel array stays inside the array.
proof fn lemma_rows_fit(rs: int, ds: int, h: int, row: int, off: int)
    by (nonlinear_arith)
    requires
        ds == h * rs,
        0 <= row < h,
        0 <= off < rs,
    ensures
        0 <= row * rs + off,
        row * rs + off + (rs - off) <= ds,
{
}

/// Decodes an uncompressed 24-bit bitmap file image back into a canvas.
/// Succeeds exactly on the inputs `valid_bmp` describes and reconstructs
/// precisely the stored dimensions and pixel colors.
pub fn decode_bmp(bytes: &Vec<u8>) -> (r: Result<Canvas, CodecError>)
    ensures
        match r {
            Ok(c) => {
                &&& valid_bmp(bytes@)
                &&& c.wf()
                &&& c.width == decoded_width(bytes@)
                &&& c.height == decoded_height(bytes@)
                &&& forall|x: int, y: int|
                    c.in_bounds(x, y) ==> c.spec_pixel(x, y) == decoded_pixel(bytes@, x, y)
            },
            Err(e) => e == CodecError::InvalidFormat && !valid_bmp(bytes@),
        },
{
    if bytes.len() < 54 {
        return Err(CodecError::InvalidFormat);
    }
    if !(bytes[0] == 66 && bytes[1] == 77) {
        return Err(CodecError::InvalidFormat);
    }
    if read_le32(bytes, 10) != 54 {
        return Err(CodecError::InvalidFormat);
    }
    if read_le32(bytes, 14) != 40 {
        return Err(CodecError::InvalidFormat);
    }
    if read_le16(bytes, 28) != 24 {
        return Err(CodecError::InvalidFormat);
    }
    if read_le32(bytes, 30) != 0 {
        return Err(CodecError::InvalidFormat);
    }
    if read_le32(bytes, 46) != 0 {
        return Err(CodecError::InvalidFormat);
    }
    let w = read_le32(bytes, 18);
    let h = read_le32(bytes, 22);
    if w < 1 || w > crate::canvas::MAX_DIM || h < 1 || h > crate::canvas::MAX_DIM {
        return Err(CodecError::InvalidFormat);
    }
    let pad: u32 = w % 4;
    let rs: u32 = 3 * w + pad;
    proof {
        vstd::arithmetic::mul::lemma_mul_upper_bound(h as int, 32768, rs as int, 98307);
        assert((h as int) * (rs as int) <= 3221323776);
    }
    let ds: u32 = h * rs;
    if bytes.len() < 54 + (ds as usize) {
        return Err(CodecError::InvalidFormat);
    }
    let mut canvas = match Canvas::new(w, h) {
        Ok(c) => c,
        Err(_) => {
            return Err(CodecError::InvalidFormat);
        },
    };
    let mut y: u32 = 0;
    while y < h
        invariant
            canvas.wf(),
            canvas.width == w,
            canvas.height == h,
            1 <= w <= 32768,
            1 <= h <= 32768,
            pad == row_padding(w as int),
            rs == row_size(w as int),
            ds == data_size(w as int, h as int),
            ds <= 3221323776,
            w == decoded_width(bytes@),
            h == decoded_height(bytes@),
            bytes@.len() >= 54 + ds,
            y <= h,
            forall|xi: int, yi: int|
                canvas.in_bounds(xi, yi) && yi < y ==> canvas.spec_pixel(xi, yi) == decoded_pixel(
                    bytes@,
                    xi,
                    yi,
                ),
        decreases h - y,
    {
        let row: u32 = h - 1 - y;
        let mut x: u32 = 0;
        while x < w
            invariant
                canvas.wf(),
                canvas.width == w,
                canvas.height == h,
                1 <= w <= 32768,
                1 <= h <= 32768,
                pad == row_padding(w as int),
                rs == row_size(w as int),
                ds == data_size(w as int, h as int),
                ds <= 3221323776,
                w == decoded_width(bytes@),
                h == decoded_height(bytes@),
                bytes@.len() >= 54 + ds,
                y < h,
                row == h - 1 - y,
                x <= w,
                forall|xi: int, yi: int|
                    canvas.in_bounds(xi, yi) && (yi < y || (yi == y && xi < x))
                        ==> canvas.spec_pixel(xi, yi) == decoded_pixel(bytes@, xi, yi),
            decreases w - x,
        {
            proof {
                lemma_rows_fit(rs as int, ds as int, h as int, row as int, 3 * (x as int));
            }
            let base: usize = 54 + (row as usize) * (rs as usize) + 3 * (x as usize);
            let color = Color { r: bytes[base + 2], g: bytes[base + 1], b: bytes[base] };
            let res = canvas.set_pixel(x, y, color);
            proof {
                assert(res is Ok);
            }
            x = x + 1;
        }
        y = y + 1;
    }
    Ok(canvas)
}

/// The value a 32-bit little-endian byte decomposition recombines to.
proof fn lemma_le32_round_trip(v: int)
    requires
        0 <= v < 0x1_0000_0000,
    ensures
        (le32_byte(v, 0) as int) + 256 * (le32_byte(v, 1) as int) + 65536 * (le32_byte(v, 2) as int)
            + 16777216 * (le32_byte(v, 3) as int) == v,
{
    lemma_mod_division_less_than_divisor(v, 256);
    lemma_fundamental_div_mod(v, 256);
    vstd::arithmetic::div_mod::lemma_div_pos_is_pos(v, 256);
    lemma_mod_division_less_than_divisor(v / 256, 256);
    lemma_fundamental_div_mod(v / 256, 256);
    lemma_div_denominator(v, 256, 256);
    vstd::arithmetic::div_mod::lemma_div_pos_is_pos(v, 65536);
    lemma_mod_division_less_than_divisor(v / 65536, 256);
    lemma_fundamental_div_mod(v / 65536, 256);
    lemma_div_denominator(v, 65536, 256);
    vstd::arithmetic::div_mod::lemma_div_pos_is_pos(v, 16777216);
    vstd::arithmetic::div_mod::lemma_div_is_ordered(v, 0xffff_ffff, 16777216);
    lemma_small_mod((v / 16777216) as nat, 256);
}

/// Round trip: encoding a canvas and decoding the bytes back yields the
/// same dimensions and exactly the same pixel colors.
pub proof fn lemma_bmp_round_trip(c: Canvas)
    requires
        c.wf(),
    ensures
        valid_bmp(spec_encode(c)),
        decoded_width(spec_encode(c)) == c.width,
        decoded_height(spec_encode(c)) == c.height,
        forall|x: int, y: int|
            c.in_bounds(x, y) ==> decoded_pixel(spec_encode(c), x, y) == c.spec_pixel(x, y),
{
    let b = spec_encode(c);
    let w = c.width as int;
    let h = c.height as int;
    let rs = row_size(w);
    let ds = data_size(w, h);
    lemma_mod_division_less_than_divisor(w, 4);
    vstd::arithmetic::mul::lemma_mul_nonnegative(h, rs);
    vstd::arithmetic::mul::lemma_mul_upper_bound(h, 32768, rs, 98307);
    assert(b.len() == 54 + ds);
    lemma_le32_round_trip(54);
    assert(le32_at(b, 10) == 54);
    lemma_le32_round_trip(40);
    assert(le32_at(b, 14) == 40);
    lemma_le32_round_trip(w);
    assert(le32_at(b, 18) == w);
    lemma_le32_round_trip(h);
    assert(le32_at(b, 22) == h);
    lemma_fundamental_div_mod_converse_div(24, 256, 0, 24);
    lemma_small_mod(24, 256);
    assert(le16_at(b, 28) == 24);
    assert(le32_at(b, 30) == 0);
    assert(le32_at(b, 46) == 0);
    assert(valid_bmp(b));
    assert forall|x: int, y: int| c.in_bounds(x, y) implies decoded_pixel(b, x, y)
        == c.spec_pixel(x, y) by {
        let row = h - 1 - y;
        let base = 54 + row * rs + 3 * x;
        lemma_rows_fit(rs, ds, h, row, 3 * x);
        lemma_rows_fit(rs, ds, h, row, 3 * x + 2);
        lemma_pixel_byte_index(w, row, x, 0);
        lemma_pixel_byte_index(w, row, x, 1);
        lemma_pixel_byte_index(w, row, x, 2);
        assert(b[base] == pixel_array_byte(c, row * rs + 3 * x));
        assert(b[base + 1] == pixel_array_byte(c, row * rs + 3 * x + 1));
        assert(b[base + 2] == pixel_array_byte(c, row * rs + 3 * x + 2));
    }
}

} // verus!
