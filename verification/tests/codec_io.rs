use test_pattern_generator::bmp_io::canvas_to_bmp_bytes;
use test_pattern_generator::bmp_io::to_bmp_image;
use test_pattern_generator::codec::decode_bmp;
use test_pattern_generator::codec::encode_bmp;
use test_pattern_generator::codec::CodecError;
use test_pattern_generator::BmpGenerator;
use test_pattern_generator::Canvas;
use test_pattern_generator::Color;

const RED: Color = Color { r: 255, g: 0, b: 0 };
const GREEN: Color = Color { r: 0, g: 255, b: 0 };
const BLUE: Color = Color { r: 0, g: 0, b: 255 };
const WHITE: Color = Color { r: 255, g: 255, b: 255 };

fn sample_canvas() -> Canvas {
    let mut canvas = BmpGenerator::generate_stripes(13, 7, 2, 5).unwrap();
    BmpGenerator::add_rect(&mut canvas, (1, 1), (5, 4), WHITE, 0);
    BmpGenerator::add_ellipse(&mut canvas, (8, 3), (3, 2), 30, BLUE).unwrap();
    canvas
}

#[test]
fn encode_header_layout() {
    let mut canvas = Canvas::new(2, 2).unwrap();
    canvas.set_pixel(0, 0, RED).unwrap();
    canvas.set_pixel(1, 0, GREEN).unwrap();
    canvas.set_pixel(0, 1, BLUE).unwrap();
    canvas.set_pixel(1, 1, WHITE).unwrap();
    let bytes = encode_bmp(&canvas);
    // Two rows of 2 pixels: 6 data bytes plus 2 padding bytes per row.
    assert_eq!(bytes.len(), 70);
    assert_eq!(&bytes[0..2], b"BM");
    assert_eq!(u32::from_le_bytes([bytes[2], bytes[3], bytes[4], bytes[5]]), 70);
    assert_eq!(u32::from_le_bytes([bytes[10], bytes[11], bytes[12], bytes[13]]), 54);
    assert_eq!(u32::from_le_bytes([bytes[14], bytes[15], bytes[16], bytes[17]]), 40);
    assert_eq!(u32::from_le_bytes([bytes[18], bytes[19], bytes[20], bytes[21]]), 2);
    assert_eq!(u32::from_le_bytes([bytes[22], bytes[23], bytes[24], bytes[25]]), 2);
    assert_eq!(u16::from_le_bytes([bytes[26], bytes[27]]), 1);
    assert_eq!(u16::from_le_bytes([bytes[28], bytes[29]]), 24);
    assert_eq!(u32::from_le_bytes([bytes[30], bytes[31], bytes[32], bytes[33]]), 0);
    assert_eq!(u32::from_le_bytes([bytes[34], bytes[35], bytes[36], bytes[37]]), 16);
    // Bottom row first, each pixel blue, green, red; then two pad bytes.
    assert_eq!(&bytes[54..62], &[255, 0, 0, 255, 255, 255, 0, 0]);
    assert_eq!(&bytes[62..70], &[0, 0, 255, 0, 255, 0, 0, 0]);
}

#[test]
fn encode_then_decode_restores_every_pixel() {
    let canvas = sample_canvas();
    let bytes = encode_bmp(&canvas);
    let decoded = decode_bmp(&bytes).unwrap();
    let (w, h) = canvas.get_dimensions();
    assert_eq!(decoded.get_dimensions(), (w, h));
    for x in 0..w {
        for y in 0..h {
            assert_eq!(decoded.get_pixel(x, y), canvas.get_pixel(x, y));
        }
    }
}

#[test]
fn decode_rejects_bad_inputs() {
    assert!(matches!(decode_bmp(&Vec::new()), Err(CodecError::InvalidFormat)));
    assert!(matches!(decode_bmp(&vec![0u8; 54]), Err(CodecError::InvalidFormat)));
    let canvas = sample_canvas();
    let mut bytes = encode_bmp(&canvas);
    bytes[0] = b'X';
    assert!(matches!(decode_bmp(&bytes), Err(CodecError::InvalidFormat)));
    let mut truncated = encode_bmp(&canvas);
    truncated.truncate(60);
    assert!(matches!(decode_bmp(&truncated), Err(CodecError::InvalidFormat)));
    let mut wrong_depth = encode_bmp(&canvas);
    wrong_depth[28] = 32;
    assert!(matches!(decode_bmp(&wrong_depth), Err(CodecError::InvalidFormat)));
}

#[test]
fn library_encoder_matches_bmp_crate_encoder() {
    let canvas = sample_canvas();
    let ours = encode_bmp(&canvas);
    let theirs = canvas_to_bmp_bytes(&canvas);
    assert_eq!(ours, theirs);
}

#[test]
fn bmp_crate_reads_back_library_encoding() {
    let canvas = sample_canvas();
    let bytes = encode_bmp(&canvas);
    let mut cursor = std::io::Cursor::new(bytes);
    let img = bmp::from_reader(&mut cursor).unwrap();
    let (w, h) = canvas.get_dimensions();
    assert_eq!((img.get_width(), img.get_height()), (w, h));
    for x in 0..w {
        for y in 0..h {
            let px = img.get_pixel(x, y);
            let c = canvas.get_pixel(x, y).unwrap();
            assert_eq!((px.r, px.g, px.b), (c.r, c.g, c.b));
        }
    }
}

#[test]
fn bridge_image_carries_canvas_pixels() {
    let canvas = sample_canvas();
    let img = to_bmp_image(&canvas);
    let (w, h) = canvas.get_dimensions();
    assert_eq!((img.get_width(), img.get_height()), (w, h));
    for x in 0..w {
        for y in 0..h {
            let px = img.get_pixel(x, y);
            let c = canvas.get_pixel(x, y).unwrap();
            assert_eq!((px.r, px.g, px.b), (c.r, c.g, c.b));
        }
    }
}

#[test]
fn library_decoder_reads_bmp_crate_encoding() {
    let canvas = sample_canvas();
    let bytes = canvas_to_bmp_bytes(&canvas);
    let decoded = decode_bmp(&bytes).unwrap();
    let (w, h) = canvas.get_dimensions();
    assert_eq!(decoded.get_dimensions(), (w, h));
    for x in 0..w {
        for y in 0..h {
            assert_eq!(decoded.get_pixel(x, y), canvas.get_pixel(x, y));
        }
    }
}
