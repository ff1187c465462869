use test_pattern_generator::geometry::point_in_ellipse;
use test_pattern_generator::Canvas;
use test_pattern_generator::geometry::rotated_ellipse_contains;
use test_pattern_generator::geometry::rotated_rect_contains;
use test_pattern_generator::BmpGenerator;
use test_pattern_generator::Color;
use test_pattern_generator::DrawError;

const BLACK: Color = Color { r: 0, g: 0, b: 0 };
const RED: Color = Color { r: 255, g: 0, b: 0 };
const GREEN: Color = Color { r: 0, g: 255, b: 0 };
const BLUE: Color = Color { r: 0, g: 0, b: 255 };
const YELLOW: Color = Color { r: 255, g: 255, b: 0 };

#[test]
fn rect_on_cleared_canvas() {
    let mut canvas = BmpGenerator::clear(10, 10).unwrap();
    BmpGenerator::add_rect(&mut canvas, (2, 2), (5, 5), RED, 0);
    for x in 2..5 {
        for y in 2..5 {
            assert_eq!(canvas.get_pixel(x, y).unwrap(), RED);
        }
    }
    assert_eq!(canvas.get_pixel(5, 5).unwrap(), BLACK);
    assert_eq!(canvas.get_pixel(1, 1).unwrap(), BLACK);
    assert_eq!(canvas.get_pixel(2, 5).unwrap(), BLACK);
    assert_eq!(canvas.get_pixel(5, 2).unwrap(), BLACK);
}

#[test]
fn rect_corners_in_either_order() {
    let mut a = BmpGenerator::clear(8, 8).unwrap();
    let mut b = BmpGenerator::clear(8, 8).unwrap();
    BmpGenerator::add_rect(&mut a, (1, 2), (4, 6), GREEN, 0);
    BmpGenerator::add_rect(&mut b, (4, 6), (1, 2), GREEN, 0);
    for x in 0..8 {
        for y in 0..8 {
            assert_eq!(a.get_pixel(x, y), b.get_pixel(x, y));
        }
    }
}

#[test]
fn rect_clipped_at_canvas_edge() {
    let mut canvas = BmpGenerator::clear(4, 4).unwrap();
    BmpGenerator::add_rect(&mut canvas, (2, 2), (10, 10), RED, 0);
    for x in 0..4 {
        for y in 0..4 {
            let expected = if x >= 2 && y >= 2 { RED } else { BLACK };
            assert_eq!(canvas.get_pixel(x, y).unwrap(), expected);
        }
    }
}

#[test]
fn rotated_rect_paints_center_not_far_corner() {
    let mut canvas = BmpGenerator::clear(4, 4).unwrap();
    BmpGenerator::add_rect(&mut canvas, (1, 1), (6, 6), RED, 45);
    assert_eq!(canvas.get_pixel(3, 3).unwrap(), RED);
    assert_eq!(canvas.get_pixel(0, 0).unwrap(), BLACK);
}

#[test]
fn rotated_rect_contains_at_zero_matches_axis_aligned() {
    // Inclusive on both corners at rotation zero.
    assert!(rotated_rect_contains((2, 2), (6, 4), 0, (2, 2)));
    assert!(rotated_rect_contains((2, 2), (6, 4), 0, (6, 4)));
    assert!(rotated_rect_contains((2, 2), (6, 4), 0, (4, 3)));
    assert!(!rotated_rect_contains((2, 2), (6, 4), 0, (7, 4)));
    assert!(!rotated_rect_contains((2, 2), (6, 4), 0, (2, 5)));
    assert!(!rotated_rect_contains((2, 2), (6, 4), 0, (1, 3)));
}

#[test]
fn rotated_rect_contains_quarter_turn() {
    // A 4-wide, 2-tall rectangle turned 90 degrees covers 2 wide, 4 tall.
    // Center of (10,10)-(14,12) is (12,11).
    assert!(rotated_rect_contains((10, 10), (14, 12), 90, (12, 13)));
    assert!(rotated_rect_contains((10, 10), (14, 12), 90, (11, 9)));
    assert!(!rotated_rect_contains((10, 10), (14, 12), 90, (14, 11)));
    assert!(!rotated_rect_contains((10, 10), (14, 12), 90, (10, 11)));
}

#[test]
fn rotated_rect_contains_is_periodic_and_takes_negative_angles() {
    let samples = [(0u32, 0u32), (3, 2), (5, 5), (6, 1), (2, 4)];
    for &p in samples.iter() {
        let base = rotated_rect_contains((1, 1), (6, 4), 37, p);
        assert_eq!(rotated_rect_contains((1, 1), (6, 4), 397, p), base);
        assert_eq!(rotated_rect_contains((1, 1), (6, 4), -323, p), base);
    }
}

#[test]
fn point_in_ellipse_axis_aligned() {
    let center = (5i64, 5i64);
    let radii = (3u32, 2u32);
    assert!(point_in_ellipse(center, radii, (5, 5)));
    assert!(point_in_ellipse(center, radii, (8, 5)));
    assert!(point_in_ellipse(center, radii, (2, 5)));
    assert!(point_in_ellipse(center, radii, (5, 7)));
    assert!(point_in_ellipse(center, radii, (5, 3)));
    assert!(!point_in_ellipse(center, radii, (8, 7)));
    assert!(!point_in_ellipse(center, radii, (1, 5)));
    assert!(!point_in_ellipse(center, radii, (7, 7)));
}

#[test]
fn rotated_ellipse_contains_at_zero_matches_axis_aligned() {
    let center = (5i64, 5i64);
    let radii = (3u32, 2u32);
    for x in 0..11 {
        for y in 0..11 {
            assert_eq!(
                rotated_ellipse_contains(center, radii, 0, (x, y)),
                point_in_ellipse(center, radii, (x, y)),
            );
        }
    }
}

#[test]
fn rotated_ellipse_contains_quarter_turn_swaps_radii() {
    let center = (5i64, 5i64);
    for x in 0..11 {
        for y in 0..11 {
            assert_eq!(
                rotated_ellipse_contains(center, (3, 1), 90, (x, y)),
                point_in_ellipse(center, (1, 3), (x, y)),
            );
        }
    }
}

#[test]
fn rotated_ellipse_contains_is_periodic() {
    let center = (5i64, 5i64);
    let radii = (4u32, 2u32);
    for x in 0..11 {
        for y in 0..11 {
            let base = rotated_ellipse_contains(center, radii, 61, (x, y));
            assert_eq!(rotated_ellipse_contains(center, radii, 421, (x, y)), base);
            assert_eq!(rotated_ellipse_contains(center, radii, -299, (x, y)), base);
        }
    }
}

#[test]
fn ellipse_on_canvas() {
    let mut canvas = BmpGenerator::clear(10, 10).unwrap();
    BmpGenerator::add_ellipse(&mut canvas, (5, 5), (3, 2), 0, BLUE).unwrap();
    assert_eq!(canvas.get_pixel(5, 5).unwrap(), BLUE);
    assert_eq!(canvas.get_pixel(8, 5).unwrap(), BLUE);
    assert_eq!(canvas.get_pixel(5, 7).unwrap(), BLUE);
    assert_eq!(canvas.get_pixel(8, 7).unwrap(), BLACK);
    assert_eq!(canvas.get_pixel(1, 5).unwrap(), BLACK);
    assert_eq!(canvas.get_pixel(0, 0).unwrap(), BLACK);
}

#[test]
fn ellipse_clipped_at_canvas_edge() {
    // Center outside the canvas: only the overlapping part is painted.
    let mut canvas = BmpGenerator::clear(6, 6).unwrap();
    BmpGenerator::add_ellipse(&mut canvas, (-1, 3), (3, 2), 0, GREEN).unwrap();
    assert_eq!(canvas.get_pixel(0, 3).unwrap(), GREEN);
    assert_eq!(canvas.get_pixel(2, 3).unwrap(), GREEN);
    assert_eq!(canvas.get_pixel(3, 3).unwrap(), BLACK);
    assert_eq!(canvas.get_pixel(5, 5).unwrap(), BLACK);
}

#[test]
fn ellipse_zero_radius_is_invalid_shape() {
    let mut canvas = BmpGenerator::clear(6, 6).unwrap();
    assert_eq!(
        BmpGenerator::add_ellipse(&mut canvas, (3, 3), (0, 2), 0, RED),
        Err(DrawError::InvalidShape),
    );
    assert_eq!(
        BmpGenerator::add_ellipse(&mut canvas, (3, 3), (2, 0), 10, RED),
        Err(DrawError::InvalidShape),
    );
    for x in 0..6 {
        for y in 0..6 {
            assert_eq!(canvas.get_pixel(x, y).unwrap(), BLACK);
        }
    }
}

#[test]
fn stripes_scenario() {
    let canvas = BmpGenerator::generate_stripes(8, 2, 2, 2).unwrap();
    for y in 0..2 {
        assert_eq!(canvas.get_pixel(0, y).unwrap(), RED);
        assert_eq!(canvas.get_pixel(1, y).unwrap(), RED);
        assert_eq!(canvas.get_pixel(2, y).unwrap(), GREEN);
        assert_eq!(canvas.get_pixel(3, y).unwrap(), GREEN);
        assert_eq!(canvas.get_pixel(4, y).unwrap(), RED);
        assert_eq!(canvas.get_pixel(5, y).unwrap(), RED);
        assert_eq!(canvas.get_pixel(6, y).unwrap(), GREEN);
        assert_eq!(canvas.get_pixel(7, y).unwrap(), GREEN);
    }
}

#[test]
fn stripes_follow_palette_formula() {
    let palette = [
        Color { r: 255, g: 0, b: 0 },
        Color { r: 0, g: 255, b: 0 },
        Color { r: 0, g: 0, b: 255 },
        Color { r: 255, g: 255, b: 0 },
        Color { r: 0, g: 255, b: 255 },
        Color { r: 255, g: 0, b: 255 },
        Color { r: 0, g: 0, b: 0 },
        Color { r: 255, g: 255, b: 255 },
    ];
    let canvas = BmpGenerator::generate_stripes(30, 3, 3, 8).unwrap();
    for x in 0..30u32 {
        for y in 0..3 {
            let expected = palette[((x / 3) % 8) as usize];
            assert_eq!(canvas.get_pixel(x, y).unwrap(), expected);
        }
    }
}

#[test]
fn stripes_single_color_fills_with_first_palette_entry() {
    let canvas = BmpGenerator::generate_stripes(6, 4, 2, 1).unwrap();
    for x in 0..6 {
        for y in 0..4 {
            assert_eq!(canvas.get_pixel(x, y).unwrap(), RED);
        }
    }
}

#[test]
fn stripes_zero_spacing_draws_nothing() {
    let canvas = BmpGenerator::generate_stripes(5, 5, 0, 4).unwrap();
    for x in 0..5 {
        for y in 0..5 {
            assert_eq!(canvas.get_pixel(x, y).unwrap(), BLACK);
        }
    }
}

#[test]
fn stripes_zero_colors_treated_as_one() {
    let canvas = BmpGenerator::generate_stripes(4, 2, 1, 0).unwrap();
    for x in 0..4 {
        assert_eq!(canvas.get_pixel(x, 0).unwrap(), RED);
    }
}

#[test]
fn stripes_color_count_clamped_to_eight() {
    let a = BmpGenerator::generate_stripes(20, 1, 1, 200).unwrap();
    let b = BmpGenerator::generate_stripes(20, 1, 1, 8).unwrap();
    for x in 0..20 {
        assert_eq!(a.get_pixel(x, 0), b.get_pixel(x, 0));
    }
}

#[test]
fn stripes_wide_spacing_clipped_at_right_edge() {
    let canvas = BmpGenerator::generate_stripes(5, 2, 4, 3).unwrap();
    for x in 0..4 {
        assert_eq!(canvas.get_pixel(x, 0).unwrap(), RED);
    }
    assert_eq!(canvas.get_pixel(4, 0).unwrap(), GREEN);
}

#[test]
fn clear_rejects_zero_dimensions() {
    assert!(matches!(BmpGenerator::clear(0, 5), Err(DrawError::InvalidDimensions)));
    assert!(matches!(BmpGenerator::clear(5, 0), Err(DrawError::InvalidDimensions)));
    assert!(matches!(
        BmpGenerator::generate_stripes(0, 5, 1, 1),
        Err(DrawError::InvalidDimensions)
    ));
}

#[test]
fn clear_rejects_absurd_dimensions() {
    assert!(matches!(BmpGenerator::clear(32769, 5), Err(DrawError::InvalidDimensions)));
    assert!(BmpGenerator::clear(32768, 1).is_ok());
}

#[test]
fn clear_with_fill_color() {
    let canvas = Canvas::clear(3, 3, Some(YELLOW)).unwrap();
    for x in 0..3 {
        for y in 0..3 {
            assert_eq!(canvas.get_pixel(x, y).unwrap(), YELLOW);
        }
    }
    let (w, h) = canvas.get_dimensions();
    assert_eq!((w, h), (3, 3));
}

#[test]
fn set_pixel_out_of_bounds_is_reported_and_skipped() {
    let mut canvas = Canvas::new(3, 3).unwrap();
    assert_eq!(canvas.set_pixel(1, 1, RED), Ok(()));
    assert_eq!(canvas.set_pixel(3, 1, RED), Err(DrawError::OutOfBounds));
    assert_eq!(canvas.set_pixel(1, 3, RED), Err(DrawError::OutOfBounds));
    assert_eq!(canvas.get_pixel(1, 1).unwrap(), RED);
    assert_eq!(canvas.get_pixel(2, 2).unwrap(), BLACK);
    assert_eq!(canvas.get_pixel(3, 1), None);
}

#[test]
fn full_turn_rotation_draws_like_no_rotation() {
    let mut a = BmpGenerator::clear(8, 8).unwrap();
    let mut b = BmpGenerator::clear(8, 8).unwrap();
    BmpGenerator::add_rect(&mut a, (1, 1), (5, 6), RED, 0);
    BmpGenerator::add_rect(&mut b, (1, 1), (5, 6), RED, 360);
    BmpGenerator::add_ellipse(&mut a, (4, 4), (3, 2), 0, BLUE).unwrap();
    BmpGenerator::add_ellipse(&mut b, (4, 4), (3, 2), 360, BLUE).unwrap();
    for x in 0..8 {
        for y in 0..8 {
            assert_eq!(a.get_pixel(x, y), b.get_pixel(x, y));
        }
    }
}

#[test]
fn rotated_ellipse_paints_every_accepted_pixel_at_the_box_edge() {
    // At 45 degrees the fixed-point containment test reaches slightly
    // beyond the larger radius; pixels there must still be painted.
    let mut canvas = BmpGenerator::clear(1250, 1250).unwrap();
    BmpGenerator::add_ellipse(&mut canvas, (610, 610), (600, 600), 45, BLUE).unwrap();
    assert!(rotated_ellipse_contains((610, 610), (600, 600), 45, (1211, 610)));
    assert_eq!(canvas.get_pixel(1211, 610).unwrap(), BLUE);
    assert_eq!(canvas.get_pixel(9, 610).unwrap(), BLUE);
    assert!(!rotated_ellipse_contains((610, 610), (600, 600), 45, (1212, 610)));
    assert_eq!(canvas.get_pixel(1212, 610).unwrap(), BLACK);
    assert_eq!(canvas.get_pixel(8, 610).unwrap(), BLACK);
}
