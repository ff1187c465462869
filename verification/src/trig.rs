use vstd::prelude::*;

use vstd::arithmetic::div_mod::lemma_add_mod_noop;
use vstd::arithmetic::div_mod::lemma_div_is_ordered;
use vstd::arithmetic::div_mod::lemma_div_multiples_vanish;
use vstd::arithmetic::div_mod::lemma_div_pos_is_pos;
use vstd::arithmetic::div_mod::lemma_fundamental_div_mod;
use vstd::arithmetic::div_mod::lemma_fundamental_div_mod_converse_mod;
use vstd::arithmetic::div_mod::lemma_mod_add_multiples_vanish;
use vstd::arithmetic::div_mod::lemma_small_mod;

verus! {

/// Fixed-point scale of the trigonometric values: `TRIG_SCALE` stands for
/// the real value 1.0, so a scaled sine or cosine always lies in
/// `[-TRIG_SCALE, TRIG_SCALE]`.
pub const TRIG_SCALE: i64 = 10000;

/// An angle in whole degrees, normalized into `[0, 360)`.
pub open spec fn norm_deg(a: int) -> int {
    a % 360
}

/// Bhaskara's rational approximation of sine on `[0, 180]` degrees,
/// scaled by `TRIG_SCALE`. It is exact at 0, 90 and 180 degrees and
/// within about 0.2% of the true sine elsewhere.
pub open spec fn bhaskara(x: int) -> int {
    (40000 * x * (180 - x)) / (40500 - x * (180 - x))
}

/// Scaled sine of an angle in whole degrees.
pub open spec fn sin_deg(a: int) -> int {
    let n = norm_deg(a);
    if n < 180 {
        bhaskara(n)
    } else {
        -bhaskara(n - 180)
    }
}

/// Scaled cosine of an angle in whole degrees.
pub open spec fn cos_deg(a: int) -> int {
    sin_deg(a + 90)
}

/// The Bhaskara approximation stays within the fixed-point unit range.
pub proof fn lemma_bhaskara_bounds(x: int)
    requires
        0 <= x <= 180,
    ensures
        0 <= bhaskara(x) <= 10000,
{
    assert(0 <= x * (180 - x) <= 8100) by (nonlinear_arith)
        requires
            0 <= x <= 180,
    ;
    assert(40000 * x * (180 - x) == 40000 * (x * (180 - x))) by (nonlinear_arith);
    let t = x * (180 - x);
    let num = 40000 * x * (180 - x);
    let den = 40500 - t;
    assert(den >= 32400);
    lemma_div_pos_is_pos(num, den);
    assert(num <= 10000 * den);
    lemma_div_is_ordered(num, 10000 * den, den);
    lemma_div_multiples_vanish(10000, den);
}

/// Both trigonometric values are periodic with period 360 degrees.
pub proof fn lemma_trig_periodic(a: int)
    ensures
        sin_deg(a + 360) == sin_deg(a),
        cos_deg(a + 360) == cos_deg(a),
{
    lemma_mod_add_multiples_vanish(a, 360);
    assert((360 + a) % 360 == a % 360);
    assert(a + 360 == 360 + a);
    lemma_mod_add_multiples_vanish(a + 90, 360);
    assert(a + 360 + 90 == 360 + (a + 90));
}

/// At any angle that is a multiple of 360 degrees, the scaled sine is 0
/// and the scaled cosine is exactly `TRIG_SCALE`.
pub proof fn lemma_trig_at_zero(a: int)
    requires
        norm_deg(a) == 0,
    ensures
        sin_deg(a) == 0,
        cos_deg(a) == 10000,
{
    assert(bhaskara(0) == 0);
    lemma_small_mod(90, 360);
    lemma_add_mod_noop(a, 90, 360);
    assert(norm_deg(a + 90) == 90);
    assert(40000 * 90 * (180 - 90) == 324000000);
    assert(40500 - 90 * (180 - 90) == 32400);
    assert(bhaskara(90) == 324000000int / 32400);
    assert(324000000int / 32400 == 10000);
}

/// A quarter turn apart, the two Bhaskara values behave like sine and
/// cosine: the sum of their squares stays within 3% of the exact
/// `TRIG_SCALE` squared (the true minimum is about 99.6 million, at 45
/// degrees). The lower bound is what lets a rasterizer invert the
/// rotation: it keeps the accepted set of the containment tests inside
/// a provable bounding box.
proof fn lemma_bhaskara_norm(m: int)
    requires
        0 <= m < 90,
    ensures
        bhaskara(m) * bhaskara(m) + bhaskara(m + 90) * bhaskara(m + 90) >= 97000000,
{
    let t1 = m * (180 - m);
    let a = 40500 - t1;
    let t2 = (m + 90) * (90 - m);
    let b = 40500 - t2;
    assert(t1 == m * (180 - m) && t2 == (m + 90) * (90 - m) && 0 <= t1 <= 8100 && 179 <= t2
        <= 8100) by (nonlinear_arith)
        requires
            0 <= m < 90,
            t1 == m * (180 - m),
            t2 == (m + 90) * (90 - m),
    ;
    assert(40000 * m * (180 - m) == 40000 * t1) by (nonlinear_arith)
        requires
            t1 == m * (180 - m),
    ;
    assert(40000 * (m + 90) * (180 - (m + 90)) == 40000 * t2) by (nonlinear_arith)
        requires
            t2 == (m + 90) * (90 - m),
    ;
    let q1 = bhaskara(m);
    let q2 = bhaskara(m + 90);
    lemma_fundamental_div_mod(40000 * t1, a);
    vstd::arithmetic::div_mod::lemma_mod_division_less_than_divisor(40000 * t1, a);
    lemma_div_pos_is_pos(40000 * t1, a);
    lemma_fundamental_div_mod(40000 * t2, b);
    vstd::arithmetic::div_mod::lemma_mod_division_less_than_divisor(40000 * t2, b);
    lemma_div_pos_is_pos(40000 * t2, b);
    assert(q1 * q1 + q2 * q2 >= 97000000) by (nonlinear_arith)
        requires
            0 <= m < 90,
            t1 == m * (180 - m),
            t2 == (m + 90) * (90 - m),
            a == 40500 - t1,
            b == 40500 - t2,
            q1 >= 0,
            q2 >= 0,
            a * q1 >= 40000 * t1 - a + 1,
            b * q2 >= 40000 * t2 - b + 1,
    ;
}

/// The scaled sine and cosine of any angle behave like a unit vector up
/// to the approximation error: the sum of their squares is at least
/// 97% of `TRIG_SCALE` squared.
pub proof fn lemma_trig_unit(a: int)
    ensures
        sin_deg(a) * sin_deg(a) + cos_deg(a) * cos_deg(a) >= 97000000,
{
    let n = norm_deg(a);
    vstd::arithmetic::div_mod::lemma_mod_division_less_than_divisor(a, 360);
    lemma_small_mod(90, 360);
    lemma_add_mod_noop(a, 90, 360);
    assert(norm_deg(a + 90) == (n + 90) % 360);
    if n < 270 {
        lemma_small_mod((n + 90) as nat, 360);
        assert(norm_deg(a + 90) == n + 90);
    } else {
        vstd::arithmetic::div_mod::lemma_mod_sub_multiples_vanish(n + 90, 360);
        lemma_small_mod((n - 270) as nat, 360);
        assert(norm_deg(a + 90) == n - 270);
    }
    let s = sin_deg(a);
    let c = cos_deg(a);
    if n < 90 {
        lemma_bhaskara_norm(n);
        assert(s == bhaskara(n) && c == bhaskara(n + 90));
    } else if n < 180 {
        lemma_bhaskara_norm(n - 90);
        assert(s == bhaskara(n) && c == -bhaskara(n - 90));
        assert(c * c == bhaskara(n - 90) * bhaskara(n - 90)) by (nonlinear_arith)
            requires
                c == -bhaskara(n - 90),
        ;
    } else if n < 270 {
        lemma_bhaskara_norm(n - 180);
        assert(s == -bhaskara(n - 180) && c == -bhaskara(n - 90));
        assert(s * s == bhaskara(n - 180) * bhaskara(n - 180)) by (nonlinear_arith)
            requires
                s == -bhaskara(n - 180),
        ;
        assert(c * c == bhaskara(n - 90) * bhaskara(n - 90)) by (nonlinear_arith)
            requires
                c == -bhaskara(n - 90),
        ;
    } else {
        lemma_bhaskara_norm(n - 270);
        assert(s == -bhaskara(n - 180) && c == bhaskara(n - 270));
        assert(s * s == bhaskara(n - 180) * bhaskara(n - 180)) by (nonlinear_arith)
            requires
                s == -bhaskara(n - 180),
        ;
    }
}

/// Normalizes an angle in whole degrees into `[0, 360)`.
pub fn norm_degrees(a: i64) -> (r: u32)
    ensures
        r == norm_deg(a as int),
        r < 360,
{
    if a >= 0 {
        let r = ((a as u64) % 360) as u32;
        r
    } else {
        let b: u64 = (-(a + 1)) as u64;
        let m: u64 = b + 1;
        let s: u64 = m % 360;
        proof {
            lemma_fundamental_div_mod(m as int, 360);
            let k = (m as int) / 360;
            if s == 0 {
                lemma_fundamental_div_mod_converse_mod(a as int, 360, -k, 0);
            } else {
                lemma_fundamental_div_mod_converse_mod(
                    a as int,
                    360,
                    -k - 1,
                    360 - (s as int),
                );
            }
        }
        if s == 0 {
            0
        } else {
            (360 - s) as u32
        }
    }
}

/// Scaled sine of an angle in whole degrees.
pub fn sin_fp(a: i64) -> (r: i64)
    ensures
        r == sin_deg(a as int),
        -10000 <= r <= 10000,
{
    let n = norm_degrees(a);
    let (neg, x) = if n < 180 {
        (false, n)
    } else {
        (true, n - 180)
    };
    proof {
        assert(0 <= (x as int) * (180 - (x as int)) <= 8100) by (nonlinear_arith)
            requires
                0 <= x < 180,
        ;
    }
    let t: u64 = (x as u64) * ((180 - x) as u64);
    let num: u64 = 40000 * t;
    let den: u64 = 40500 - t;
    let q: u64 = num / den;
    proof {
        assert(num == 40000 * (x as int) * (180 - (x as int))) by (nonlinear_arith)
            requires
                num == 40000 * ((x as int) * (180 - (x as int))),
        ;
        lemma_bhaskara_bounds(x as int);
    }
    let r = q as i64;
    if neg {
        -r
    } else {
        r
    }
}

/// Scaled cosine of an angle in whole degrees.
pub fn cos_fp(a: i64) -> (r: i64)
    ensures
        r == cos_deg(a as int),
        -10000 <= r <= 10000,
{
    let n = norm_degrees(a);
    let r = sin_fp((n + 90) as i64);
    proof {
        lemma_small_mod(n as nat, 360);
        lemma_add_mod_noop(a as int, 90, 360);
        lemma_add_mod_noop(n as int, 90, 360);
        lemma_small_mod(90, 360);
        assert(norm_deg(n as int + 90) == norm_deg(a as int + 90));
    }
    r
}

} // verus!
