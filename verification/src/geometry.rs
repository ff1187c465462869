use vstd::prelude::*;

use crate::trig::cos_deg;
use crate::trig::cos_fp;
use crate::trig::lemma_trig_at_zero;
use crate::trig::lemma_trig_periodic;
use crate::trig::lemma_trig_unit;
use crate::trig::norm_deg;
use crate::trig::sin_deg;
use crate::trig::sin_fp;
use vstd::arithmetic::div_mod::lemma_div_pos_is_pos;
use vstd::arithmetic::div_mod::lemma_fundamental_div_mod;
use vstd::arithmetic::div_mod::lemma_mod_division_less_than_divisor;

verus! {

/// The smaller of two rectangle corner coordinates on one axis.
pub open spec fn rect_lo(a: u32, b: u32) -> int {
    if a <= b {
        a as int
    } else {
        b as int
    }
}

/// The larger of two rectangle corner coordinates on one axis.
pub open spec fn rect_hi(a: u32, b: u32) -> int {
    if a <= b {
        b as int
    } else {
        a as int
    }
}

/// Inclusive axis-aligned rectangle containment. The corners are
/// normalized first, so `start` and `end` may come in either order.
pub open spec fn axis_aligned_rect_contains(
    start: (u32, u32),
    end: (u32, u32),
    p: (u32, u32),
) -> bool {
    &&& rect_lo(start.0, end.0) <= p.0 <= rect_hi(start.0, end.0)
    &&& rect_lo(start.1, end.1) <= p.1 <= rect_hi(start.1, end.1)
}

/// Containment in a rectangle rotated (clockwise-positive, whole degrees)
/// about its center. The test point is carried into the rectangle's local
/// frame by the inverse rotation and compared against the half-extents.
///
/// To stay in integers, local coordinates are kept doubled (so the center,
/// a half-integer, needs no division) and scaled by `TRIG_SCALE`.
pub open spec fn rotated_rect_contains_spec(
    start: (u32, u32),
    end: (u32, u32),
    angle: int,
    p: (u32, u32),
) -> bool {
    let sx = rect_lo(start.0, end.0);
    let ex = rect_hi(start.0, end.0);
    let sy = rect_lo(start.1, end.1);
    let ey = rect_hi(start.1, end.1);
    let w = ex - sx;
    let h = ey - sy;
    let dx = 2 * p.0 - (sx + ex);
    let dy = 2 * p.1 - (sy + ey);
    let c = cos_deg(angle);
    let s = sin_deg(angle);
    let xr = dx * c + dy * s;
    let yr = dy * c - dx * s;
    &&& -(w * 10000) <= xr <= w * 10000
    &&& -(h * 10000) <= yr <= h * 10000
}

/// Containment in an axis-aligned ellipse, by the cross-multiplied form of
/// `((x-cx)/rx)^2 + ((y-cy)/ry)^2 <= 1`: exact in integers, no division.
pub open spec fn axis_aligned_ellipse_contains(
    center: (i64, i64),
    radii: (u32, u32),
    p: (u32, u32),
) -> bool {
    let dx = center.0 - p.0;
    let dy = center.1 - p.1;
    let rx = radii.0 as int;
    let ry = radii.1 as int;
    dx * dx * (ry * ry) + dy * dy * (rx * rx) <= (rx * rx) * (ry * ry)
}

/// Containment in an ellipse rotated (clockwise-positive, whole degrees)
/// about its center: the test point is carried into the ellipse's local
/// frame by the inverse rotation, then the axis-aligned test is applied,
/// cross-multiplied by `TRIG_SCALE^2` to absorb the scaled trigonometry.
pub open spec fn rotated_ellipse_contains_spec(
    center: (i64, i64),
    radii: (u32, u32),
    angle: int,
    p: (u32, u32),
) -> bool {
    let dx = center.0 - p.0;
    let dy = center.1 - p.1;
    let rx = radii.0 as int;
    let ry = radii.1 as int;
    let c = cos_deg(angle);
    let s = sin_deg(angle);
    let u = dx * c + dy * s;
    let v = dx * s - dy * c;
    u * u * (ry * ry) + v * v * (rx * rx) <= (rx * rx) * (ry * ry) * 100000000
}

/// Center coordinates the predicates accept: the signed 32-bit range,
/// which keeps every product inside 128-bit arithmetic.
pub open spec fn valid_center(center: (i64, i64)) -> bool {
    &&& -0x8000_0000 <= center.0 <= 0x7fff_ffff
    &&& -0x8000_0000 <= center.1 <= 0x7fff_ffff
}

/// Radii the predicates accept: positive (a zero radius is degenerate
/// geometry) and small enough for 128-bit arithmetic.
pub open spec fn valid_radii(radii: (u32, u32)) -> bool {
    &&& 1 <= radii.0 <= 0xffff
    &&& 1 <= radii.1 <= 0xffff
}

/// The product of two values is bounded by the product of their bounds.
proof fn lemma_abs_mul_bound(a: int, b: int, aa: int, bb: int)
    by (nonlinear_arith)
    requires
        -aa <= a <= aa,
        -bb <= b <= bb,
        0 <= aa,
        0 <= bb,
    ensures
        -(aa * bb) <= a * b <= aa * bb,
{
}

/// Whether a rectangle rotated about its center contains a point.
pub fn rotated_rect_contains(
    rect_start: (u32, u32),
    rect_end: (u32, u32),
    rect_angle: i64,
    point: (u32, u32),
) -> (r: bool)
    ensures
        r == rotated_rect_contains_spec(rect_start, rect_end, rect_angle as int, point),
{
    let sx: i64 = if rect_start.0 <= rect_end.0 {
        rect_start.0 as i64
    } else {
        rect_end.0 as i64
    };
    let ex: i64 = if rect_start.0 <= rect_end.0 {
        rect_end.0 as i64
    } else {
        rect_start.0 as i64
    };
    let sy: i64 = if rect_start.1 <= rect_end.1 {
        rect_start.1 as i64
    } else {
        rect_end.1 as i64
    };
    let ey: i64 = if rect_start.1 <= rect_end.1 {
        rect_end.1 as i64
    } else {
        rect_start.1 as i64
    };
    let w: i64 = ex - sx;
    let h: i64 = ey - sy;
    let dx: i64 = 2 * (point.0 as i64) - (sx + ex);
    let dy: i64 = 2 * (point.1 as i64) - (sy + ey);
    let c = cos_fp(rect_angle);
    let s = sin_fp(rect_angle);
    proof {
        lemma_abs_mul_bound(dx as int, c as int, 0x2_0000_0000, 10000);
        lemma_abs_mul_bound(dy as int, s as int, 0x2_0000_0000, 10000);
        lemma_abs_mul_bound(dx as int, s as int, 0x2_0000_0000, 10000);
        lemma_abs_mul_bound(dy as int, c as int, 0x2_0000_0000, 10000);
    }
    let xr: i64 = dx * c + dy * s;
    let yr: i64 = dy * c - dx * s;
    -(w * 10000) <= xr && xr <= w * 10000 && -(h * 10000) <= yr && yr <= h * 10000
}

/// Whether an axis-aligned ellipse contains a point: the exact integer
/// form of the normalized quadratic `p <= 1` test.
pub fn point_in_ellipse(center: (i64, i64), radii: (u32, u32), point: (u32, u32)) -> (r: bool)
    requires
        valid_center(center),
        valid_radii(radii),
    ensures
        r == axis_aligned_ellipse_contains(center, radii, point),
{
    let dx: i128 = (center.0 as i128) - (point.0 as i128);
    let dy: i128 = (center.1 as i128) - (point.1 as i128);
    let rx: i128 = radii.0 as i128;
    let ry: i128 = radii.1 as i128;
    proof {
        lemma_abs_mul_bound(dx as int, dx as int, 0x1_8000_0000, 0x1_8000_0000);
        lemma_abs_mul_bound(dy as int, dy as int, 0x1_8000_0000, 0x1_8000_0000);
        lemma_abs_mul_bound(rx as int, rx as int, 0x10000, 0x10000);
        lemma_abs_mul_bound(ry as int, ry as int, 0x10000, 0x10000);
        lemma_abs_mul_bound(
            (dx * dx) as int,
            (ry * ry) as int,
            0x2_4000_0000_0000_0000,
            0x1_0000_0000,
        );
        lemma_abs_mul_bound(
            (dy * dy) as int,
            (rx * rx) as int,
            0x2_4000_0000_0000_0000,
            0x1_0000_0000,
        );
        lemma_abs_mul_bound(
            (rx * rx) as int,
            (ry * ry) as int,
            0x1_0000_0000,
            0x1_0000_0000,
        );
    }
    dx * dx * (ry * ry) + dy * dy * (rx * rx) <= (rx * rx) * (ry * ry)
}

/// Whether an ellipse rotated about its center contains a point.
pub fn rotated_ellipse_contains(
    center: (i64, i64),
    radii: (u32, u32),
    rotation_degrees: i64,
    point: (u32, u32),
) -> (r: bool)
    requires
        valid_center(center),
        valid_radii(radii),
    ensures
        r == rotated_ellipse_contains_spec(center, radii, rotation_degrees as int, point),
{
    let dx: i128 = (center.0 as i128) - (point.0 as i128);
    let dy: i128 = (center.1 as i128) - (point.1 as i128);
    let rx: i128 = radii.0 as i128;
    let ry: i128 = radii.1 as i128;
    let c: i128 = cos_fp(rotation_degrees) as i128;
    let s: i128 = sin_fp(rotation_degrees) as i128;
    proof {
        lemma_abs_mul_bound(dx as int, c as int, 0x1_8000_0000, 10000);
        lemma_abs_mul_bound(dy as int, s as int, 0x1_8000_0000, 10000);
        lemma_abs_mul_bound(dx as int, s as int, 0x1_8000_0000, 10000);
        lemma_abs_mul_bound(dy as int, c as int, 0x1_8000_0000, 10000);
    }
    let u: i128 = dx * c + dy * s;
    let v: i128 = dx * s - dy * c;
    proof {
        lemma_abs_mul_bound(u as int, u as int, 128849018880000, 128849018880000);
        lemma_abs_mul_bound(v as int, v as int, 128849018880000, 128849018880000);
        lemma_abs_mul_bound(rx as int, rx as int, 0x10000, 0x10000);
        lemma_abs_mul_bound(ry as int, ry as int, 0x10000, 0x10000);
        lemma_abs_mul_bound(
            (u * u) as int,
            (ry * ry) as int,
            16602069666338596454400000000,
            0x1_0000_0000,
        );
        lemma_abs_mul_bound(
            (v * v) as int,
            (rx * rx) as int,
            16602069666338596454400000000,
            0x1_0000_0000,
        );
        lemma_abs_mul_bound(
            (rx * rx) as int,
            (ry * ry) as int,
            0x1_0000_0000,
            0x1_0000_0000,
        );
        lemma_abs_mul_bound(
            ((rx * rx) * (ry * ry)) as int,
            100000000,
            0x1_0000_0000_0000_0000,
            100000000,
        );
    }
    u * u * (ry * ry) + v * v * (rx * rx) <= (rx * rx) * (ry * ry) * 100000000
}

/// Half-extent of a bounding box that provably contains every point the
/// rotated ellipse test accepts: the larger radius widened by the 1/64
/// slack that absorbs the trigonometric approximation error, plus
/// rounding slack.
pub open spec fn ellipse_bb(radii: (u32, u32)) -> int {
    let rmax = if radii.0 < radii.1 {
        radii.1 as int
    } else {
        radii.0 as int
    };
    rmax + rmax / 64 + 2
}

/// Doubled half-extent of a bounding box that provably contains every
/// point the rotated rectangle test accepts: width plus height (which
/// covers the diagonal), widened by the 1/64 slack that absorbs the
/// trigonometric approximation error, plus rounding slack.
pub open spec fn rect_scan_d(start: (u32, u32), end: (u32, u32)) -> int {
    let s = (rect_hi(start.0, end.0) - rect_lo(start.0, end.0)) + (rect_hi(start.1, end.1)
        - rect_lo(start.1, end.1));
    s + s / 64 + 2
}

/// Rotating a vector by any fixed-point angle scales its squared norm
/// by exactly the squared norm of the (cosine, sine) pair.
/// Binomial squares, in the shapes the rotation identity needs.
proof fn lemma_square_sum(x: int, y: int)
    ensures
        (x + y) * (x + y) == x * x + 2 * (x * y) + y * y,
        (x - y) * (x - y) == x * x - 2 * (x * y) + y * y,
{
    assert((x + y) * (x + y) == x * x + 2 * (x * y) + y * y) by (nonlinear_arith);
    assert((x - y) * (x - y) == x * x - 2 * (x * y) + y * y) by (nonlinear_arith);
}

/// A product squares factor by factor.
proof fn lemma_mul_square(a: int, c: int)
    ensures
        (a * c) * (a * c) == (a * a) * (c * c),
{
    assert((a * c) * (a * c) == (a * a) * (c * c)) by (nonlinear_arith);
}

/// Factors of a four-way product can be regrouped.
proof fn lemma_mul_swap(a: int, b: int, c: int, s: int)
    ensures
        (a * c) * (b * s) == (a * b) * (c * s),
{
    assert((a * c) * (b * s) == (a * b) * (c * s)) by (nonlinear_arith);
}

proof fn lemma_rotation_norm(a: int, b: int, c: int, s: int)
    ensures
        (a * c + b * s) * (a * c + b * s) + (b * c - a * s) * (b * c - a * s) == (a * a + b * b) * (
        c * c + s * s),
{
    lemma_square_sum(a * c, b * s);
    lemma_square_sum(b * c, a * s);
    lemma_mul_square(a, c);
    lemma_mul_square(b, s);
    lemma_mul_square(b, c);
    lemma_mul_square(a, s);
    lemma_mul_swap(a, c, b, s);
    lemma_mul_swap(b, c, a, s);
    assert(b * a == a * b) by (nonlinear_arith);
    assert((a * a + b * b) * (c * c + s * s) == a * a * (c * c) + a * a * (s * s) + b * b * (c * c)
        + b * b * (s * s)) by (nonlinear_arith);
}

/// From `97 v^2 <= 100 s^2` it follows that `v` stays within `s` widened
/// by a 1/64 margin: `(65/64)^2 >= 100/97`.
proof fn lemma_scan_slack(v: int, s: int)
    requires
        97 * (v * v) <= 100 * (s * s),
        s >= 0,
    ensures
        -(s + s / 64 + 1) <= v <= s + s / 64 + 1,
{
    let q = s / 64;
    lemma_fundamental_div_mod(s, 64);
    lemma_mod_division_less_than_divisor(s, 64);
    lemma_div_pos_is_pos(s, 64);
    assert(-(s + q + 1) <= v <= s + q + 1) by (nonlinear_arith)
        requires
            97 * (v * v) <= 100 * (s * s),
            64 * q <= s <= 64 * q + 63,
            q >= 0,
            s >= 0,
    ;
}

/// Every point the axis-aligned ellipse test accepts lies within the
/// tight box `center +- radii`.
pub proof fn lemma_axis_ellipse_within_radii(center: (i64, i64), radii: (u32, u32), p: (u32, u32))
    requires
        valid_radii(radii),
        axis_aligned_ellipse_contains(center, radii, p),
    ensures
        -(radii.0 as int) <= center.0 - p.0 <= radii.0 as int,
        -(radii.1 as int) <= center.1 - p.1 <= radii.1 as int,
{
    let dx = center.0 - p.0;
    let dy = center.1 - p.1;
    let rx = radii.0 as int;
    let ry = radii.1 as int;
    assert(dx * dx <= rx * rx && dy * dy <= ry * ry) by (nonlinear_arith)
        requires
            dx * dx * (ry * ry) + dy * dy * (rx * rx) <= (rx * rx) * (ry * ry),
            1 <= rx,
            1 <= ry,
    ;
    assert(-rx <= dx <= rx) by (nonlinear_arith)
        requires
            dx * dx <= rx * rx,
            rx >= 0,
    ;
    assert(-ry <= dy <= ry) by (nonlinear_arith)
        requires
            dy * dy <= ry * ry,
            ry >= 0,
    ;
}

/// Every point the rotated ellipse test accepts lies within the
/// `ellipse_bb` bounding box around the center, whatever the angle.
pub proof fn lemma_rotated_ellipse_within_bb(
    center: (i64, i64),
    radii: (u32, u32),
    angle: int,
    p: (u32, u32),
)
    requires
        valid_radii(radii),
        rotated_ellipse_contains_spec(center, radii, angle, p),
    ensures
        -(ellipse_bb(radii) - 1) <= center.0 - p.0 <= ellipse_bb(radii) - 1,
        -(ellipse_bb(radii) - 1) <= center.1 - p.1 <= ellipse_bb(radii) - 1,
{
    let dx = center.0 - p.0;
    let dy = center.1 - p.1;
    let rx = radii.0 as int;
    let ry = radii.1 as int;
    let rmin = if rx < ry {
        rx
    } else {
        ry
    };
    let rmax = if rx < ry {
        ry
    } else {
        rx
    };
    let c = cos_deg(angle);
    let s = sin_deg(angle);
    let u = dx * c + dy * s;
    let v = dx * s - dy * c;
    lemma_trig_unit(angle);
    assert(u * u + v * v <= (rmax * rmax) * 100000000) by (nonlinear_arith)
        requires
            u * u * (ry * ry) + v * v * (rx * rx) <= (rx * rx) * (ry * ry) * 100000000,
            rx * ry == rmax * rmin,
            1 <= rmin <= rx,
            rmin <= ry,
            rx <= rmax,
            ry <= rmax,
    ;
    lemma_rotation_norm(dx, dy, c, s);
    assert(v * v == (dy * c - dx * s) * (dy * c - dx * s)) by (nonlinear_arith)
        requires
            v == dx * s - dy * c,
    ;
    assert(u * u + v * v == (dx * dx + dy * dy) * (c * c + s * s));
    assert(97 * (dx * dx) <= 100 * (rmax * rmax) && 97 * (dy * dy) <= 100 * (rmax * rmax))
        by (nonlinear_arith)
        requires
            (dx * dx + dy * dy) * (c * c + s * s) <= (rmax * rmax) * 100000000,
            c * c + s * s >= 97000000,
    ;
    lemma_scan_slack(dx, rmax);
    lemma_scan_slack(dy, rmax);
}

/// Every point the rotated rectangle test accepts lies, in doubled
/// coordinates, within `rect_scan_d` of the doubled center, whatever
/// the angle.
pub proof fn lemma_rotated_rect_within_scan(
    start: (u32, u32),
    end: (u32, u32),
    angle: int,
    p: (u32, u32),
)
    requires
        rotated_rect_contains_spec(start, end, angle, p),
    ensures
        -(rect_scan_d(start, end) - 1) <= 2 * p.0 - (rect_lo(start.0, end.0) + rect_hi(
            start.0,
            end.0,
        )) <= rect_scan_d(start, end) - 1,
        -(rect_scan_d(start, end) - 1) <= 2 * p.1 - (rect_lo(start.1, end.1) + rect_hi(
            start.1,
            end.1,
        )) <= rect_scan_d(start, end) - 1,
{
    let sx = rect_lo(start.0, end.0);
    let ex = rect_hi(start.0, end.0);
    let sy = rect_lo(start.1, end.1);
    let ey = rect_hi(start.1, end.1);
    let w = ex - sx;
    let h = ey - sy;
    let sum = w + h;
    let dx = 2 * p.0 - (sx + ex);
    let dy = 2 * p.1 - (sy + ey);
    let c = cos_deg(angle);
    let s = sin_deg(angle);
    let u = dx * c + dy * s;
    let yr = dy * c - dx * s;
    lemma_trig_unit(angle);
    assert(u * u + yr * yr <= (sum * sum) * 100000000) by (nonlinear_arith)
        requires
            -(w * 10000) <= u <= w * 10000,
            -(h * 10000) <= yr <= h * 10000,
            w >= 0,
            h >= 0,
            sum == w + h,
    ;
    lemma_rotation_norm(dx, dy, c, s);
    assert(u * u + yr * yr == (dx * dx + dy * dy) * (c * c + s * s));
    assert(97 * (dx * dx) <= 100 * (sum * sum) && 97 * (dy * dy) <= 100 * (sum * sum))
        by (nonlinear_arith)
        requires
            (dx * dx + dy * dy) * (c * c + s * s) <= (sum * sum) * 100000000,
            c * c + s * s >= 97000000,
    ;
    lemma_scan_slack(dx, sum);
    lemma_scan_slack(dy, sum);
}

/// Rotation invariance for rectangles: at a rotation that is a multiple of
/// 360 degrees, the rotated containment test agrees exactly with the
/// axis-aligned one, for every point.
pub proof fn lemma_rotated_rect_contains_zero(
    start: (u32, u32),
    end: (u32, u32),
    angle: int,
    p: (u32, u32),
)
    requires
        norm_deg(angle) == 0,
    ensures
        rotated_rect_contains_spec(start, end, angle, p) == axis_aligned_rect_contains(
            start,
            end,
            p,
        ),
{
    lemma_trig_at_zero(angle);
}

/// Rotation invariance for ellipses: at a rotation that is a multiple of
/// 360 degrees, the rotated containment test agrees exactly with the
/// axis-aligned one, for every point.
pub proof fn lemma_rotated_ellipse_contains_zero(
    center: (i64, i64),
    radii: (u32, u32),
    angle: int,
    p: (u32, u32),
)
    requires
        norm_deg(angle) == 0,
    ensures
        rotated_ellipse_contains_spec(center, radii, angle, p) == axis_aligned_ellipse_contains(
            center,
            radii,
            p,
        ),
{
    lemma_trig_at_zero(angle);
    let dx = center.0 - p.0;
    let dy = center.1 - p.1;
    let rx = radii.0 as int;
    let ry = radii.1 as int;
    assert((dx * 10000 + dy * 0) * (dx * 10000 + dy * 0) * (ry * ry) == 100000000 * (dx * dx * (ry
        * ry))) by (nonlinear_arith);
    assert((dx * 0 - dy * 10000) * (dx * 0 - dy * 10000) * (rx * rx) == 100000000 * (dy * dy * (rx
        * rx))) by (nonlinear_arith);
    assert((rx * rx) * (ry * ry) * 100000000 == 100000000 * ((rx * rx) * (ry * ry)))
        by (nonlinear_arith);
}

/// Periodicity: rotating by 360 more degrees never changes the rectangle
/// containment test, for every angle and point.
pub proof fn lemma_rotated_rect_periodic(
    start: (u32, u32),
    end: (u32, u32),
    angle: int,
    p: (u32, u32),
)
    ensures
        rotated_rect_contains_spec(start, end, angle + 360, p) == rotated_rect_contains_spec(
            start,
            end,
            angle,
            p,
        ),
{
    lemma_trig_periodic(angle);
}

/// Periodicity: rotating by 360 more degrees never changes the ellipse
/// containment test, for every angle and point.
pub proof fn lemma_rotated_ellipse_periodic(
    center: (i64, i64),
    radii: (u32, u32),
    angle: int,
    p: (u32, u32),
)
    ensures
        rotated_ellipse_contains_spec(center, radii, angle + 360, p)
            == rotated_ellipse_contains_spec(center, radii, angle, p),
{
    lemma_trig_periodic(angle);
}

} // verus!
