use vstd::prelude::*;

use crate::canvas::valid_dims;
use crate::canvas::Canvas;
use crate::canvas::DrawError;
use crate::color::palette_color;
use crate::color::spec_palette;
use crate::color::Color;
use crate::geometry::ellipse_bb;
use crate::geometry::lemma_axis_ellipse_within_radii;
use crate::geometry::lemma_rotated_ellipse_contains_zero;
use crate::geometry::lemma_rotated_ellipse_within_bb;
use crate::geometry::lemma_rotated_rect_within_scan;
use crate::geometry::rect_hi;
use crate::geometry::rect_lo;
use crate::geometry::rect_scan_d;
use crate::geometry::rotated_ellipse_contains;
use crate::geometry::rotated_ellipse_contains_spec;
use crate::geometry::rotated_rect_contains;
use crate::geometry::rotated_rect_contains_spec;
use crate::geometry::valid_center;
use crate::geometry::valid_radii;
use crate::trig::norm_deg;
use crate::trig::norm_degrees;
use vstd::arithmetic::div_mod::lemma_fundamental_div_mod;

verus! {

/// For positive `t`, an integer is at least the rounded-up half of `t`
/// exactly when its double is at least `t`.
proof fn lemma_half_ceil(t: int, xi: int)
    requires
        t > 0,
    ensures
        (xi >= (t + 1) / 2) <==> (2 * xi >= t),
{
    lemma_fundamental_div_mod(t + 1, 2);
    vstd::arithmetic::div_mod::lemma_mod_division_less_than_divisor(t + 1, 2);
}

/// For nonnegative `u`, an integer is at most the rounded-down half of
/// `u` exactly when its double is at most `u`.
proof fn lemma_half_floor(u: int, xi: int)
    requires
        u >= 0,
    ensures
        (xi <= u / 2) <==> (2 * xi <= u),
{
    lemma_fundamental_div_mod(u, 2);
    vstd::arithmetic::div_mod::lemma_mod_division_less_than_divisor(u, 2);
}

/// The raster drawing engine: rasterizes rectangles and ellipses (with
/// optional rotation) onto a canvas and generates striped test patterns.
pub struct BmpGenerator {}

/// The number of palette colors the stripe generator cycles through:
/// the requested count clamped into `[1, 8]` (0 is treated as 1).
pub open spec fn clamp_num_colors(num_colors: u32) -> int {
    if num_colors == 0 {
        1
    } else if num_colors > 8 {
        8
    } else {
        num_colors as int
    }
}

/// The color the stripe pattern assigns to column `x`: the palette color
/// at index `(x / spacing) mod n`. A spacing of zero draws nothing, so
/// every column keeps the initial black fill.
pub open spec fn stripe_pixel(spacing: u32, num_colors: u32, x: int) -> Color {
    if spacing == 0 {
        Color { r: 0, g: 0, b: 0 }
    } else {
        spec_palette((x / spacing as int) % clamp_num_colors(num_colors))
    }
}

/// Relates the rasterizer's clamped integer scan bounds on one axis to
/// the doubled-coordinate inequality that defines the scan region.
proof fn lemma_rect_scan_bounds(c2: int, d: int, xi: int)
    requires
        c2 >= 0,
        d >= 0,
    ensures
        c2 - d > 0 ==> ((xi >= (c2 - d + 1) / 2) <==> (2 * xi >= c2 - d)),
        c2 - d <= 0 && xi >= 0 ==> (2 * xi >= c2 - d),
        (xi <= (c2 + d) / 2) <==> (2 * xi <= c2 + d),
{
    if c2 - d > 0 {
        lemma_half_ceil(c2 - d, xi);
    }
    lemma_half_floor(c2 + d, xi);
}

/// The half-open pixel region `[start, end)` an unrotated rectangle
/// fills, corners normalized so they may come in either order.
pub open spec fn rect_zero_region(start: (u32, u32), end: (u32, u32), x: int, y: int) -> bool {
    &&& rect_lo(start.0, end.0) <= x < rect_hi(start.0, end.0)
    &&& rect_lo(start.1, end.1) <= y < rect_hi(start.1, end.1)
}

/// Whether a coordinate lies within the scan half-extent on one axis:
/// its doubled value stays within `d` of the doubled center `c2`.
pub open spec fn in_scan_axis(c2: int, d: int, v: int) -> bool {
    -d <= 2 * v - c2 <= d
}

/// The bounding region the rectangle rasterizer scans for a rotated
/// rectangle: all pixels whose doubled distance from the doubled center
/// stays within `rect_scan_d` on each axis. That half-extent covers the
/// rectangle's diagonal with enough slack for the trigonometric
/// approximation, so it provably contains every pixel the rotated
/// containment test accepts (`lemma_rotated_rect_within_scan`).
pub open spec fn rect_scan_region(start: (u32, u32), end: (u32, u32), x: int, y: int) -> bool {
    let d = rect_scan_d(start, end);
    &&& in_scan_axis(rect_lo(start.0, end.0) + rect_hi(start.0, end.0), d, x)
    &&& in_scan_axis(rect_lo(start.1, end.1) + rect_hi(start.1, end.1), d, y)
}

/// Whether the rectangle rasterizer paints pixel `(x, y)`. With no
/// rotation the filled region is exactly the half-open rectangle
/// `[start, end)`; with rotation, a pixel is painted exactly when the
/// rotated containment test accepts it.
pub open spec fn rect_covered(
    start: (u32, u32),
    end: (u32, u32),
    angle: int,
    x: int,
    y: int,
) -> bool {
    if norm_deg(angle) == 0 {
        rect_zero_region(start, end, x, y)
    } else {
        rotated_rect_contains_spec(start, end, angle, ((x as u32), (y as u32)))
    }
}

/// What the rotated-rectangle scan loops have painted: the pixel lies in
/// the scanned region and passes the containment test. Once the scan is
/// done this coincides with the containment test alone, since the region
/// covers everything the test accepts.
spec fn rect_scanned(start: (u32, u32), end: (u32, u32), angle: int, x: int, y: int) -> bool {
    rect_scan_region(start, end, x, y) && rotated_rect_contains_spec(
        start,
        end,
        angle,
        ((x as u32), (y as u32)),
    )
}

/// The bounding region the ellipse rasterizer scans: the tight box
/// `center ± radii` (boundary included) for an unrotated ellipse, and a
/// square box of half-extent `ellipse_bb` for a rotated one. Either box
/// provably contains every pixel the containment test accepts
/// (`lemma_axis_ellipse_within_radii`, `lemma_rotated_ellipse_within_bb`).
pub open spec fn ellipse_scan_region(
    center: (i64, i64),
    radii: (u32, u32),
    angle: int,
    x: int,
    y: int,
) -> bool {
    let cx = center.0 as int;
    let cy = center.1 as int;
    let rx = radii.0 as int;
    let ry = radii.1 as int;
    if norm_deg(angle) == 0 {
        cx - rx <= x <= cx + rx && cy - ry <= y <= cy + ry
    } else {
        let bb = ellipse_bb(radii);
        cx - bb <= x < cx + bb && cy - bb <= y < cy + bb
    }
}

/// What the ellipse scan loops have painted: the pixel lies in the
/// scanned bounding region and passes the rotated containment test.
/// Once the scan is done this coincides with the containment test alone,
/// since the region covers everything the test accepts.
spec fn ellipse_scanned(
    center: (i64, i64),
    radii: (u32, u32),
    angle: int,
    x: int,
    y: int,
) -> bool {
    &&& ellipse_scan_region(center, radii, angle, x, y)
    &&& rotated_ellipse_contains_spec(center, radii, angle, (x as u32, y as u32))
}

impl BmpGenerator {
    /// A fresh canvas cleared to black.
    /// Fails only on zero or absurd dimensions, with `InvalidDimensions`.
    pub fn clear(width: u32, height: u32) -> (r: Result<Canvas, DrawError>)
        ensures
            match r {
                Ok(c) => {
                    &&& valid_dims(width, height)
                    &&& c.wf()
                    &&& c.width == width
                    &&& c.height == height
                    &&& forall|x: int, y: int|
                        c.in_bounds(x, y) ==> c.spec_pixel(x, y) == (Color { r: 0, g: 0, b: 0 })
                },
                Err(e) => e == DrawError::InvalidDimensions && !valid_dims(width, height),
            },
    {
        Canvas::new(width, height)
    }

    /// Fills a fresh canvas with vertical stripes `spacing` pixels wide,
    /// cycling through the first `num_colors` palette colors: column `x`
    /// gets the palette color at index `(x / spacing) mod num_colors`
    /// (`num_colors` clamped into `[1, 8]`). A spacing of zero draws
    /// nothing: the canvas keeps its initial black fill.
    pub fn generate_stripes(width: u32, height: u32, spacing: u32, num_colors: u32) -> (r: Result<
        Canvas,
        DrawError,
    >)
        ensures
            match r {
                Ok(c) => {
                    &&& valid_dims(width, height)
                    &&& c.wf()
                    &&& c.width == width
                    &&& c.height == height
                    &&& forall|x: int, y: int|
                        c.in_bounds(x, y) ==> c.spec_pixel(x, y) == stripe_pixel(
                            spacing,
                            num_colors,
                            x,
                        )
                },
                Err(e) => e == DrawError::InvalidDimensions && !valid_dims(width, height),
            },
    {
        let mut canvas = match Canvas::new(width, height) {
            Ok(c) => c,
            Err(e) => {
                return Err(e);
            },
        };
        if spacing == 0 {
            return Ok(canvas);
        }
        let n: u32 = if num_colors == 0 {
            1
        } else if num_colors > 8 {
            8
        } else {
            num_colors
        };
        let mut x: u32 = 0;
        while x < width
            invariant
                x <= width,
                spacing > 0,
                n == clamp_num_colors(num_colors),
                canvas.wf(),
                canvas.width == width,
                canvas.height == height,
                forall|xi: int, yi: int|
                    canvas.in_bounds(xi, yi) ==> canvas.spec_pixel(xi, yi) == (if xi < x {
                        stripe_pixel(spacing, num_colors, xi)
                    } else {
                        Color { r: 0, g: 0, b: 0 }
                    }),
            decreases width - x,
        {
            let idx: u32 = (x / spacing) % n;
            let color = palette_color(idx);
            let mut y: u32 = 0;
            while y < height
                invariant
                    x < width,
                    y <= height,
                    spacing > 0,
                    n == clamp_num_colors(num_colors),
                    color == stripe_pixel(spacing, num_colors, x as int),
                    canvas.wf(),
                    canvas.width == width,
                    canvas.height == height,
                    forall|xi: int, yi: int|
                        canvas.in_bounds(xi, yi) ==> canvas.spec_pixel(xi, yi) == (if xi < x || (xi
                            == x && yi < y) {
                            stripe_pixel(spacing, num_colors, xi)
                        } else {
                            Color { r: 0, g: 0, b: 0 }
                        }),
                decreases height - y,
            {
                let res = canvas.set_pixel(x, y, color);
                proof {
                    assert(res is Ok);
                }
                y = y + 1;
            }
            x = x + 1;
        }
        Ok(canvas)
    }

    /// Rasterizes a rectangle with opposite corners `rect_start` and
    /// `rect_end` (in either order; the corners are normalized), rotated
    /// clockwise about its center by `rotation` whole degrees, in
    /// `rect_color`. With no rotation, exactly the half-open region
    /// `[start, end)` clipped to the canvas is filled. With rotation, an
    /// in-canvas pixel is painted exactly when the rotated containment
    /// test accepts it. Every other pixel keeps its old color, and
    /// nothing outside the canvas is touched (clipping is not an error).
    #[verifier::rlimit(30)]
    pub fn add_rect(
        canvas: &mut Canvas,
        rect_start: (u32, u32),
        rect_end: (u32, u32),
        rect_color: Color,
        rotation: i64,
    )
        requires
            old(canvas).wf(),
        ensures
            final(canvas).wf(),
            final(canvas).width == old(canvas).width,
            final(canvas).height == old(canvas).height,
            forall|x: int, y: int|
                old(canvas).in_bounds(x, y) ==> final(canvas).spec_pixel(x, y) == (if rect_covered(
                    rect_start,
                    rect_end,
                    rotation as int,
                    x,
                    y,
                ) {
                    rect_color
                } else {
                    old(canvas).spec_pixel(x, y)
                }),
    {
        let width = canvas.width;
        let height = canvas.height;
        let sx: u32 = if rect_start.0 <= rect_end.0 {
            rect_start.0
        } else {
            rect_end.0
        };
        let ex: u32 = if rect_start.0 <= rect_end.0 {
            rect_end.0
        } else {
            rect_start.0
        };
        let sy: u32 = if rect_start.1 <= rect_end.1 {
            rect_start.1
        } else {
            rect_end.1
        };
        let ey: u32 = if rect_start.1 <= rect_end.1 {
            rect_end.1
        } else {
            rect_start.1
        };
        let n = norm_degrees(rotation);
        if n == 0 {
            let x_end: u32 = if ex < width {
                ex
            } else {
                width
            };
            let y_end: u32 = if ey < height {
                ey
            } else {
                height
            };
            let mut x: u32 = sx;
            while x < x_end
                invariant
                    old(canvas).wf(),
                    canvas.wf(),
                    canvas.width == old(canvas).width,
                    canvas.height == old(canvas).height,
                    width == canvas.width,
                    height == canvas.height,
                    sx == rect_lo(rect_start.0, rect_end.0),
                    ex == rect_hi(rect_start.0, rect_end.0),
                    sy == rect_lo(rect_start.1, rect_end.1),
                    ey == rect_hi(rect_start.1, rect_end.1),
                    n == norm_deg(rotation as int),
                    n == 0,
                    x_end == (if ex < width {
                        ex as int
                    } else {
                        width as int
                    }),
                    y_end == (if ey < height {
                        ey as int
                    } else {
                        height as int
                    }),
                    sx <= x,
                    x <= x_end || x == sx,
                    forall|xi: int, yi: int|
                        old(canvas).in_bounds(xi, yi) ==> canvas.spec_pixel(xi, yi) == (
                        if rect_covered(rect_start, rect_end, rotation as int, xi, yi) && xi < x {
                            rect_color
                        } else {
                            old(canvas).spec_pixel(xi, yi)
                        }),
                decreases x_end - x,
            {
                let mut y: u32 = sy;
                while y < y_end
                    invariant
                        old(canvas).wf(),
                        canvas.wf(),
                        canvas.width == old(canvas).width,
                        canvas.height == old(canvas).height,
                        width == canvas.width,
                        height == canvas.height,
                        sx == rect_lo(rect_start.0, rect_end.0),
                        ex == rect_hi(rect_start.0, rect_end.0),
                        sy == rect_lo(rect_start.1, rect_end.1),
                        ey == rect_hi(rect_start.1, rect_end.1),
                        n == norm_deg(rotation as int),
                        n == 0,
                        x_end == (if ex < width {
                            ex as int
                        } else {
                            width as int
                        }),
                        y_end == (if ey < height {
                            ey as int
                        } else {
                            height as int
                        }),
                        sx <= x < x_end,
                        sy <= y,
                        y <= y_end || y == sy,
                        forall|xi: int, yi: int|
                            old(canvas).in_bounds(xi, yi) ==> canvas.spec_pixel(xi, yi) == (
                            if rect_covered(rect_start, rect_end, rotation as int, xi, yi) && (xi
                                < x || (xi == x && yi < y)) {
                                rect_color
                            } else {
                                old(canvas).spec_pixel(xi, yi)
                            }),
                    decreases y_end - y,
                {
                    let res = canvas.set_pixel(x, y, rect_color);
                    proof {
                        assert(res is Ok);
                    }
                    y = y + 1;
                }
                x = x + 1;
            }
        } else {
            let c2x: i64 = (sx as i64) + (ex as i64);
            let c2y: i64 = (sy as i64) + (ey as i64);
            let s_sum: u64 = ((ex - sx) as u64) + ((ey - sy) as u64);
            let d: i64 = (s_sum + s_sum / 64 + 2) as i64;
            let tx: i64 = c2x - d;
            let x_lo: i64 = if tx <= 0 {
                0
            } else {
                (((tx + 1) as u64) / 2) as i64
            };
            let ux: i64 = c2x + d;
            let x_hi: i64 = ((ux as u64) / 2) as i64;
            let x_end: i64 = if x_hi + 1 < width as i64 {
                x_hi + 1
            } else {
                width as i64
            };
            let ty: i64 = c2y - d;
            let y_lo: i64 = if ty <= 0 {
                0
            } else {
                (((ty + 1) as u64) / 2) as i64
            };
            let uy: i64 = c2y + d;
            let y_hi: i64 = ((uy as u64) / 2) as i64;
            let y_end: i64 = if y_hi + 1 < height as i64 {
                y_hi + 1
            } else {
                height as i64
            };
            let mut x: i64 = x_lo;
            while x < x_end
                invariant
                    old(canvas).wf(),
                    canvas.wf(),
                    canvas.width == old(canvas).width,
                    canvas.height == old(canvas).height,
                    width == canvas.width,
                    height == canvas.height,
                    sx == rect_lo(rect_start.0, rect_end.0),
                    ex == rect_hi(rect_start.0, rect_end.0),
                    sy == rect_lo(rect_start.1, rect_end.1),
                    ey == rect_hi(rect_start.1, rect_end.1),
                    n == norm_deg(rotation as int),
                    n != 0,
                    c2x == sx + ex,
                    c2y == sy + ey,
                    d == rect_scan_d(rect_start, rect_end),
                    x_lo == (if c2x - d <= 0 {
                        0int
                    } else {
                        (c2x - d + 1) / 2
                    }),
                    x_end == (if (c2x + d) / 2 + 1 < width as int {
                        (c2x + d) / 2 + 1
                    } else {
                        width as int
                    }),
                    y_lo == (if c2y - d <= 0 {
                        0int
                    } else {
                        (c2y - d + 1) / 2
                    }),
                    y_end == (if (c2y + d) / 2 + 1 < height as int {
                        (c2y + d) / 2 + 1
                    } else {
                        height as int
                    }),
                    x_lo <= x,
                    x <= x_end || x == x_lo,
                    forall|xi: int, yi: int|
                        old(canvas).in_bounds(xi, yi) ==> canvas.spec_pixel(xi, yi) == (
                        if rect_scanned(rect_start, rect_end, rotation as int, xi, yi) && xi < x {
                            rect_color
                        } else {
                            old(canvas).spec_pixel(xi, yi)
                        }),
                decreases x_end - x,
            {
                let mut y: i64 = y_lo;
                while y < y_end
                    invariant
                        old(canvas).wf(),
                        canvas.wf(),
                        canvas.width == old(canvas).width,
                        canvas.height == old(canvas).height,
                        width == canvas.width,
                        height == canvas.height,
                        sx == rect_lo(rect_start.0, rect_end.0),
                        ex == rect_hi(rect_start.0, rect_end.0),
                        sy == rect_lo(rect_start.1, rect_end.1),
                        ey == rect_hi(rect_start.1, rect_end.1),
                        n == norm_deg(rotation as int),
                        n != 0,
                        c2x == sx + ex,
                        c2y == sy + ey,
                        d == rect_scan_d(rect_start, rect_end),
                        x_lo == (if c2x - d <= 0 {
                            0int
                        } else {
                            (c2x - d + 1) / 2
                        }),
                        x_end == (if (c2x + d) / 2 + 1 < width as int {
                            (c2x + d) / 2 + 1
                        } else {
                            width as int
                        }),
                        y_lo == (if c2y - d <= 0 {
                            0int
                        } else {
                            (c2y - d + 1) / 2
                        }),
                        y_end == (if (c2y + d) / 2 + 1 < height as int {
                            (c2y + d) / 2 + 1
                        } else {
                            height as int
                        }),
                        x_lo <= x < x_end,
                        y_lo <= y,
                        y <= y_end || y == y_lo,
                        forall|xi: int, yi: int|
                            old(canvas).in_bounds(xi, yi) ==> canvas.spec_pixel(xi, yi) == (
                            if rect_scanned(rect_start, rect_end, rotation as int, xi, yi) && (xi
                                < x || (xi == x && yi < y)) {
                                rect_color
                            } else {
                                old(canvas).spec_pixel(xi, yi)
                            }),
                    decreases y_end - y,
                {
                    let px: u32 = x as u32;
                    let py: u32 = y as u32;
                    proof {
                        lemma_rect_scan_bounds(c2x as int, d as int, x as int);
                        lemma_rect_scan_bounds(c2y as int, d as int, y as int);
                    }
                    if rotated_rect_contains(rect_start, rect_end, rotation, (px, py)) {
                        let res = canvas.set_pixel(px, py, rect_color);
                        proof {
                            assert(res is Ok);
                        }
                    }
                    y = y + 1;
                }
                proof {
                    assert forall|yi: int|
                        0 <= yi < height && !(y_lo <= yi < y_end) implies !in_scan_axis(
                        c2y as int,
                        d as int,
                        yi,
                    ) by {
                        lemma_rect_scan_bounds(c2y as int, d as int, yi);
                    }
                }
                x = x + 1;
            }
            proof {
                assert forall|xi: int|
                    0 <= xi < width && !(x_lo <= xi < x_end) implies !in_scan_axis(
                    c2x as int,
                    d as int,
                    xi,
                ) by {
                    lemma_rect_scan_bounds(c2x as int, d as int, xi);
                }
                assert forall|xi: int, yi: int|
                    old(canvas).in_bounds(xi, yi) && rotated_rect_contains_spec(
                        rect_start,
                        rect_end,
                        rotation as int,
                        ((xi as u32), (yi as u32)),
                    ) implies rect_scan_region(rect_start, rect_end, xi, yi) by {
                    lemma_rotated_rect_within_scan(
                        rect_start,
                        rect_end,
                        rotation as int,
                        ((xi as u32), (yi as u32)),
                    );
                }
            }
        }
    }

    /// Rasterizes an ellipse centered at `center` with half-extents `size`,
    /// rotated clockwise by `rotation` whole degrees, in `ellipse_color`.
    /// An in-canvas pixel is painted exactly when the containment test
    /// accepts it; every other pixel keeps its old color, and nothing
    /// outside the canvas is touched (clipping is not an error).
    /// A zero radius is degenerate geometry: the shape is skipped with
    /// `InvalidShape` and the canvas is left unchanged.
    pub fn add_ellipse(
        canvas: &mut Canvas,
        center: (i64, i64),
        size: (u32, u32),
        rotation: i64,
        ellipse_color: Color,
    ) -> (r: Result<(), DrawError>)
        requires
            old(canvas).wf(),
            valid_center(center),
            size.0 <= 0xffff,
            size.1 <= 0xffff,
        ensures
            final(canvas).wf(),
            final(canvas).width == old(canvas).width,
            final(canvas).height == old(canvas).height,
            match r {
                Ok(()) => {
                    &&& valid_radii(size)
                    &&& forall|x: int, y: int|
                        old(canvas).in_bounds(x, y) ==> final(canvas).spec_pixel(x, y) == (
                        if rotated_ellipse_contains_spec(
                            center,
                            size,
                            rotation as int,
                            ((x as u32), (y as u32)),
                        ) {
                            ellipse_color
                        } else {
                            old(canvas).spec_pixel(x, y)
                        })
                },
                Err(e) => {
                    &&& e == DrawError::InvalidShape
                    &&& (size.0 == 0 || size.1 == 0)
                    &&& *final(canvas) == *old(canvas)
                },
            },
    {
        if size.0 == 0 || size.1 == 0 {
            return Err(DrawError::InvalidShape);
        }
        let width = canvas.width;
        let height = canvas.height;
        let cx: i64 = center.0;
        let cy: i64 = center.1;
        let rx: i64 = size.0 as i64;
        let ry: i64 = size.1 as i64;
        let n = norm_degrees(rotation);
        let (lo_x_raw, end_x_raw, lo_y_raw, end_y_raw): (i64, i64, i64, i64) = if n == 0 {
            (cx - rx, cx + rx + 1, cy - ry, cy + ry + 1)
        } else {
            let rmax: u32 = if size.0 < size.1 {
                size.1
            } else {
                size.0
            };
            let bb: i64 = (rmax + rmax / 64 + 2) as i64;
            (cx - bb, cx + bb, cy - bb, cy + bb)
        };
        let x_lo: i64 = if lo_x_raw > 0 {
            lo_x_raw
        } else {
            0
        };
        let x_end: i64 = if end_x_raw < width as i64 {
            end_x_raw
        } else {
            width as i64
        };
        let y_lo: i64 = if lo_y_raw > 0 {
            lo_y_raw
        } else {
            0
        };
        let y_end: i64 = if end_y_raw < height as i64 {
            end_y_raw
        } else {
            height as i64
        };
        let mut x: i64 = x_lo;
        while x < x_end
            invariant
                old(canvas).wf(),
                canvas.wf(),
                canvas.width == old(canvas).width,
                canvas.height == old(canvas).height,
                width == canvas.width,
                height == canvas.height,
                valid_center(center),
                valid_radii(size),
                n == norm_deg(rotation as int),
                n == 0 ==> lo_x_raw == cx - rx && end_x_raw == cx + rx + 1 && lo_y_raw == cy - ry
                    && end_y_raw == cy + ry + 1,
                n != 0 ==> lo_x_raw == cx - ellipse_bb(size) && end_x_raw == cx + ellipse_bb(
                    size,
                ) && lo_y_raw == cy - ellipse_bb(size) && end_y_raw == cy + ellipse_bb(size),
                cx == center.0 && cy == center.1 && rx == size.0 && ry == size.1,
                x_lo == (if lo_x_raw > 0 {
                    lo_x_raw as int
                } else {
                    0
                }),
                x_end == (if end_x_raw < width as int {
                    end_x_raw as int
                } else {
                    width as int
                }),
                y_lo == (if lo_y_raw > 0 {
                    lo_y_raw as int
                } else {
                    0
                }),
                y_end == (if end_y_raw < height as int {
                    end_y_raw as int
                } else {
                    height as int
                }),
                x_lo <= x,
                x <= x_end || x == x_lo,
                forall|xi: int, yi: int|
                    old(canvas).in_bounds(xi, yi) ==> canvas.spec_pixel(xi, yi) == (
                    if ellipse_scanned(center, size, rotation as int, xi, yi) && xi < x {
                        ellipse_color
                    } else {
                        old(canvas).spec_pixel(xi, yi)
                    }),
            decreases x_end - x,
        {
            let mut y: i64 = y_lo;
            while y < y_end
                invariant
                    old(canvas).wf(),
                    canvas.wf(),
                    canvas.width == old(canvas).width,
                    canvas.height == old(canvas).height,
                    width == canvas.width,
                    height == canvas.height,
                    valid_center(center),
                    valid_radii(size),
                    n == norm_deg(rotation as int),
                    n == 0 ==> lo_x_raw == cx - rx && end_x_raw == cx + rx + 1 && lo_y_raw == cy
                        - ry && end_y_raw == cy + ry + 1,
                    n != 0 ==> lo_x_raw == cx - ellipse_bb(size) && end_x_raw == cx
                        + ellipse_bb(size) && lo_y_raw == cy - ellipse_bb(size) && end_y_raw == cy
                        + ellipse_bb(size),
                    cx == center.0 && cy == center.1 && rx == size.0 && ry == size.1,
                    x_lo == (if lo_x_raw > 0 {
                        lo_x_raw as int
                    } else {
                        0
                    }),
                    x_end == (if end_x_raw < width as int {
                        end_x_raw as int
                    } else {
                        width as int
                    }),
                    y_lo == (if lo_y_raw > 0 {
                        lo_y_raw as int
                    } else {
                        0
                    }),
                    y_end == (if end_y_raw < height as int {
                        end_y_raw as int
                    } else {
                        height as int
                    }),
                    x_lo <= x < x_end,
                    y_lo <= y,
                    y <= y_end || y == y_lo,
                    forall|xi: int, yi: int|
                        old(canvas).in_bounds(xi, yi) ==> canvas.spec_pixel(xi, yi) == (
                        if ellipse_scanned(center, size, rotation as int, xi, yi) && (xi < x || (xi
                            == x && yi < y)) {
                            ellipse_color
                        } else {
                            old(canvas).spec_pixel(xi, yi)
                        }),
                decreases y_end - y,
            {
                let px: u32 = x as u32;
                let py: u32 = y as u32;
                if rotated_ellipse_contains(center, size, rotation, (px, py)) {
                    let res = canvas.set_pixel(px, py, ellipse_color);
                    proof {
                        assert(res is Ok);
                    }
                }
                y = y + 1;
            }
            x = x + 1;
        }
        proof {
            assert forall|xi: int, yi: int|
                old(canvas).in_bounds(xi, yi) && rotated_ellipse_contains_spec(
                    center,
                    size,
                    rotation as int,
                    ((xi as u32), (yi as u32)),
                ) implies ellipse_scan_region(center, size, rotation as int, xi, yi) by {
                if norm_deg(rotation as int) == 0 {
                    lemma_rotated_ellipse_contains_zero(
                        center,
                        size,
                        rotation as int,
                        ((xi as u32), (yi as u32)),
                    );
                    lemma_axis_ellipse_within_radii(center, size, ((xi as u32), (yi as u32)));
                } else {
                    lemma_rotated_ellipse_within_bb(
                        center,
                        size,
                        rotation as int,
                        ((xi as u32), (yi as u32)),
                    );
                }
            }
        }
        Ok(())
    }
}

} // verus!
