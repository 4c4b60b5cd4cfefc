//! Integer arithmetic behind the fixed-point physics: division rounded to
//! the nearest, integer square roots, and the scaling of a coordinate to a
//! given length.
//!
//! Every rounding here is symmetric about zero, so that mirroring an input
//! mirrors the result.

use vstd::arithmetic::div_mod::lemma_fundamental_div_mod;
use vstd::arithmetic::div_mod::lemma_mod_bound;
use vstd::prelude::*;

verus! {

/// Largest magnitude that `div_nearest` accepts for a numerator or a divisor.
pub const DIV_LIMIT: i128 = 0x1000_0000_0000_0000_0000_0000_0000_0000;

/// Absolute value of an integer.
pub open spec fn magnitude(n: int) -> int {
    if n < 0 {
        -n
    } else {
        n
    }
}

/// `n / d` rounded to the nearest integer, a tie going away from zero.
pub open spec fn quotient_nearest(n: int, d: int) -> int
    recommends
        d > 0,
{
    if n >= 0 {
        (2 * n + d) / (2 * d)
    } else {
        -((2 * (-n) + d) / (2 * d))
    }
}

/// The divisor times the quotient falls short of the numerator by less than
/// one divisor.
pub proof fn lemma_quotient_bounds(n: int, d: int)
    requires
        d > 0,
    ensures
        (n / d) * d <= n < (n / d) * d + d,
{
    lemma_fundamental_div_mod(n, d);
    lemma_mod_bound(n, d);
    assert(d * (n / d) == (n / d) * d) by (nonlinear_arith);
}

/// A number caught between `q * d` and `(q + 1) * d` has quotient `q`.
pub proof fn lemma_quotient_is(n: int, d: int, q: int)
    requires
        d > 0,
        q * d <= n < q * d + d,
    ensures
        n / d == q,
{
    lemma_quotient_bounds(n, d);
    let p = n / d;
    assert(p == q) by (nonlinear_arith)
        requires
            d > 0,
            q * d <= n < q * d + d,
            p * d <= n < p * d + d,
    ;
}

/// A numerator between `low * d` and `(high + 1) * d` has its quotient
/// between `low` and `high`.
pub proof fn lemma_quotient_within(n: int, d: int, low: int, high: int)
    requires
        d > 0,
        low * d <= n < high * d + d,
    ensures
        low <= n / d <= high,
{
    lemma_quotient_bounds(n, d);
    let p = n / d;
    assert(low <= p <= high) by (nonlinear_arith)
        requires
            d > 0,
            low * d <= n < high * d + d,
            p * d <= n < p * d + d,
    ;
}

/// A quotient of a non-negative number is non-negative and no larger than the number.
pub proof fn lemma_quotient_of_nonnegative(n: int, d: int)
    requires
        n >= 0,
        d > 0,
    ensures
        0 <= n / d <= n,
{
    lemma_quotient_bounds(n, d);
    let p = n / d;
    assert(0 <= p <= n) by (nonlinear_arith)
        requires
            n >= 0,
            d > 0,
            p * d <= n < p * d + d,
    ;
}

/// Rounding to the nearest misses the exact ratio by at most a half, and
/// gives zero or the sign of the numerator.
pub proof fn lemma_rounding_bounds(n: int, d: int)
    requires
        d > 0,
    ensures
        2 * magnitude(n - quotient_nearest(n, d) * d) <= d,
        n >= 0 ==> quotient_nearest(n, d) >= 0,
        n <= 0 ==> quotient_nearest(n, d) <= 0,
{
    let m = magnitude(n);
    lemma_quotient_bounds(2 * m + d, 2 * d);
    lemma_quotient_of_nonnegative(2 * m + d, 2 * d);
    let q = (2 * m + d) / (2 * d);
    assert(q * (2 * d) == 2 * (q * d)) by (nonlinear_arith);
    assert((-q) * d == -(q * d)) by (nonlinear_arith);
    if m == 0 {
        lemma_quotient_within(d, 2 * d, 0, 0);
    }
}

/// A multiple of the divisor is divided without rounding.
pub proof fn lemma_quotient_of_multiple(k: int, d: int)
    requires
        d > 0,
    ensures
        quotient_nearest(k * d, d) == k,
{
    let m = magnitude(k);
    assert(magnitude(k * d) == m * d && (k >= 0 ==> k * d >= 0) && (k < 0 ==> k * d < 0))
        by (nonlinear_arith)
        requires
            d > 0,
            m == magnitude(k),
    ;
    assert(m * (2 * d) == 2 * (m * d)) by (nonlinear_arith);
    lemma_quotient_is(2 * (m * d) + d, 2 * d, m);
}

/// Divides and rounds to the nearest integer, a tie going away from zero.
pub fn div_nearest(n: i128, d: i128) -> (q: i128)
    requires
        -DIV_LIMIT <= n <= DIV_LIMIT,
        0 < d <= DIV_LIMIT,
    ensures
        q == quotient_nearest(n as int, d as int),
{
    if n >= 0 {
        (2 * n + d) / (2 * d)
    } else {
        let m: i128 = 2 * (-n) + d;
        proof {
            lemma_quotient_of_nonnegative(m as int, 2 * d as int);
        }
        -(m / (2 * d))
    }
}

/// Squaring keeps the order of non-negative numbers.
pub proof fn lemma_square_is_monotone(a: int, b: int)
    requires
        0 <= a <= b,
    ensures
        a * a <= b * b,
{
    assert(a * a <= b * b) by (nonlinear_arith)
        requires
            0 <= a <= b,
    ;
}

/// Of two non-negative numbers the one with the smaller square is the smaller.
pub proof fn lemma_square_order(a: int, b: int)
    requires
        0 <= a,
        0 <= b,
        a * a <= b * b,
    ensures
        a <= b,
{
    assert(a <= b) by (nonlinear_arith)
        requires
            0 <= a,
            0 <= b,
            a * a <= b * b,
    ;
}

/// A number and its magnitude have the same square.
pub proof fn lemma_square_of_magnitude(a: int)
    ensures
        magnitude(a) * magnitude(a) == a * a,
        a * a >= 0,
{
    assert(magnitude(a) * magnitude(a) == a * a && a * a >= 0) by (nonlinear_arith)
        requires
            magnitude(a) == a || magnitude(a) == -a,
    ;
}

/// Whether `s` is the integer square root of `n`: the largest integer whose
/// square does not exceed `n`.
pub open spec fn is_floor_sqrt(n: int, s: int) -> bool {
    0 <= s && s * s <= n < (s + 1) * (s + 1)
}

/// The integer square root of a non-negative `n`, rounded down.
pub open spec fn floor_sqrt(n: int) -> int
    recommends
        n >= 0,
{
    choose|s: int| is_floor_sqrt(n, s)
}

/// The integer square root of a non-negative `n`, rounded up.
pub open spec fn ceil_sqrt(n: int) -> int
    recommends
        n >= 0,
{
    if floor_sqrt(n) * floor_sqrt(n) == n {
        floor_sqrt(n)
    } else {
        floor_sqrt(n) + 1
    }
}

proof fn lemma_floor_sqrt_exists(n: int)
    requires
        n >= 0,
    ensures
        exists|s: int| is_floor_sqrt(n, s),
    decreases n,
{
    if n == 0 {
        assert(is_floor_sqrt(0, 0));
    } else {
        let m = n - 1;
        lemma_floor_sqrt_exists(m);
        let s = choose|s: int| is_floor_sqrt(m, s);
        if (s + 1) * (s + 1) <= n {
            assert((s + 2) * (s + 2) > (s + 1) * (s + 1)) by (nonlinear_arith)
                requires
                    s >= 0,
            ;
            assert(is_floor_sqrt(n, s + 1));
        } else {
            assert(is_floor_sqrt(n, s));
        }
    }
}

/// Every non-negative number has an integer square root, and `floor_sqrt` is it.
pub proof fn lemma_floor_sqrt(n: int)
    requires
        n >= 0,
    ensures
        is_floor_sqrt(n, floor_sqrt(n)),
{
    lemma_floor_sqrt_exists(n);
}

/// The integer square root is unique.
pub proof fn lemma_floor_sqrt_unique(n: int, s: int)
    requires
        is_floor_sqrt(n, s),
    ensures
        floor_sqrt(n) == s,
{
    let t = floor_sqrt(n);
    assert(is_floor_sqrt(n, t));
    assert(s == t) by (nonlinear_arith)
        requires
            0 <= s,
            0 <= t,
            s * s < (t + 1) * (t + 1),
            t * t < (s + 1) * (s + 1),
    ;
}

/// The rounded-up root is the smallest integer whose square reaches `n`.
pub proof fn lemma_ceil_sqrt(n: int)
    requires
        n >= 0,
    ensures
        0 <= ceil_sqrt(n),
        n <= ceil_sqrt(n) * ceil_sqrt(n),
        ceil_sqrt(n) > 0 ==> (ceil_sqrt(n) - 1) * (ceil_sqrt(n) - 1) < n,
        floor_sqrt(n) <= ceil_sqrt(n) <= floor_sqrt(n) + 1,
{
    lemma_floor_sqrt(n);
    let s = floor_sqrt(n);
    assert(s > 0 ==> (s - 1) * (s - 1) < s * s) by (nonlinear_arith);
}

/// The rounded-up root is the only number that `lemma_ceil_sqrt` describes.
pub proof fn lemma_ceil_sqrt_unique(n: int, s: int)
    requires
        0 <= n,
        0 <= s,
        n <= s * s,
        s > 0 ==> (s - 1) * (s - 1) < n,
    ensures
        ceil_sqrt(n) == s,
{
    lemma_floor_sqrt(n);
    let f = floor_sqrt(n);
    assert(s == ceil_sqrt(n)) by (nonlinear_arith)
        requires
            0 <= n,
            0 <= s,
            0 <= f,
            n <= s * s,
            s > 0 ==> (s - 1) * (s - 1) < n,
            f * f <= n < (f + 1) * (f + 1),
            ceil_sqrt(n) == if f * f == n {
                f
            } else {
                f + 1
            },
    ;
}

/// Largest factor that `product_le` takes on the short side of a product.
pub const SHORT_FACTOR_LIMIT: u128 = 0x7fff_ffff_ffff_ffff;

/// The product `a * x` in two words: it is `high * 2^64 + low`.
fn wide_product(a: u128, x: u128) -> (words: (u128, u128))
    requires
        a <= SHORT_FACTOR_LIMIT,
    ensures
        words.0 * 0x1_0000_0000_0000_0000 + words.1 == a * x,
        words.1 < 0x1_0000_0000_0000_0000,
{
    let x_high: u128 = x / 0x1_0000_0000_0000_0000;
    let x_low: u128 = x % 0x1_0000_0000_0000_0000;
    assert(a * x_high <= 0x7fff_ffff_ffff_ffff * 0xffff_ffff_ffff_ffff && a * x_low
        <= 0x7fff_ffff_ffff_ffff * 0xffff_ffff_ffff_ffff && a * x == (a * x_high)
        * 0x1_0000_0000_0000_0000 + a * x_low) by (nonlinear_arith)
        requires
            a <= 0x7fff_ffff_ffff_ffff,
            x_high <= 0xffff_ffff_ffff_ffff,
            x_low <= 0xffff_ffff_ffff_ffff,
            x == x_high * 0x1_0000_0000_0000_0000 + x_low,
    ;
    let upper: u128 = a * x_high;
    let lower: u128 = a * x_low;
    (upper + lower / 0x1_0000_0000_0000_0000, lower % 0x1_0000_0000_0000_0000)
}

/// Whether `a * x <= b * y`, for products too long for one machine word.
pub fn product_le(a: u128, x: u128, b: u128, y: u128) -> (le: bool)
    requires
        a <= SHORT_FACTOR_LIMIT,
        b <= SHORT_FACTOR_LIMIT,
    ensures
        le == (a * x <= b * y),
{
    let left = wide_product(a, x);
    let right = wide_product(b, y);
    left.0 < right.0 || (left.0 == right.0 && left.1 <= right.1)
}

/// `length` with the sign of `c`.
pub open spec fn with_sign_of(length: int, c: int) -> int {
    if c < 0 {
        -length
    } else {
        length
    }
}

/// The magnitude of `c * t / sqrt(q)` rounded down to a whole number, for
/// `q > 0`: the largest whole number whose square times `q` does not exceed
/// the square of `c * t`.
pub open spec fn scaled_down(c: int, t: int, q: int) -> int
    recommends
        q > 0,
{
    floor_sqrt(t * t * (c * c) / q)
}

/// The magnitude of `c * t / sqrt(q)` rounded up to a whole number, for
/// `q > 0`: the least whole number whose square times `q` reaches the
/// square of `c * t`.
pub open spec fn scaled_up(c: int, t: int, q: int) -> int
    recommends
        q > 0,
{
    ceil_sqrt((t * t * (c * c) + q - 1) / q)
}

/// `scaled_down` is the largest whole number whose square times `q` does
/// not exceed the square of `c * t`.
pub proof fn lemma_scaled_down(c: int, t: int, q: int)
    requires
        q > 0,
    ensures
        0 <= scaled_down(c, t, q),
        scaled_down(c, t, q) * scaled_down(c, t, q) * q <= t * t * (c * c) < (scaled_down(
            c,
            t,
            q,
        ) + 1) * (scaled_down(c, t, q) + 1) * q,
{
    let n = t * t * (c * c);
    assert(n >= 0) by (nonlinear_arith)
        requires
            n == t * t * (c * c),
    ;
    let m = n / q;
    lemma_quotient_bounds(n, q);
    lemma_quotient_of_nonnegative(n, q);
    lemma_floor_sqrt(m);
    let w = floor_sqrt(m);
    assert(w * w * q <= m * q && (w + 1) * (w + 1) * q >= m * q + q) by (nonlinear_arith)
        requires
            q > 0,
            w * w <= m < (w + 1) * (w + 1),
    ;
}

/// Only `scaled_down` is what `lemma_scaled_down` describes.
pub proof fn lemma_scaled_down_unique(c: int, t: int, q: int, w: int)
    requires
        q > 0,
        0 <= w,
        w * w * q <= t * t * (c * c) < (w + 1) * (w + 1) * q,
    ensures
        scaled_down(c, t, q) == w,
{
    let n = t * t * (c * c);
    let high = (w + 1) * (w + 1) - 1;
    assert(high * q + q == (w + 1) * (w + 1) * q) by (nonlinear_arith)
        requires
            high == (w + 1) * (w + 1) - 1,
    ;
    lemma_quotient_within(n, q, w * w, high);
    lemma_floor_sqrt_unique(n / q, w);
}

/// `scaled_up` is the least whole number whose square times `q` reaches the
/// square of `c * t`.
pub proof fn lemma_scaled_up(c: int, t: int, q: int)
    requires
        q > 0,
    ensures
        0 <= scaled_up(c, t, q),
        t * t * (c * c) <= scaled_up(c, t, q) * scaled_up(c, t, q) * q,
        scaled_up(c, t, q) > 0 ==> (scaled_up(c, t, q) - 1) * (scaled_up(c, t, q) - 1) * q < t * t
            * (c * c),
{
    let n = t * t * (c * c);
    assert(n >= 0) by (nonlinear_arith)
        requires
            n == t * t * (c * c),
    ;
    let m = (n + q - 1) / q;
    lemma_quotient_bounds(n + q - 1, q);
    lemma_quotient_of_nonnegative(n + q - 1, q);
    lemma_ceil_sqrt(m);
    let w = ceil_sqrt(m);
    assert(w * w * q >= m * q && (w > 0 ==> (w - 1) * (w - 1) * q <= m * q - q))
        by (nonlinear_arith)
        requires
            q > 0,
            m <= w * w,
            w > 0 ==> (w - 1) * (w - 1) < m,
    ;
}

/// Only `scaled_up` is what `lemma_scaled_up` describes.
pub proof fn lemma_scaled_up_unique(c: int, t: int, q: int, w: int)
    requires
        q > 0,
        0 <= w,
        t * t * (c * c) <= w * w * q,
        w > 0 ==> (w - 1) * (w - 1) * q < t * t * (c * c),
    ensures
        scaled_up(c, t, q) == w,
{
    let n = t * t * (c * c);
    assert(n >= 0) by (nonlinear_arith)
        requires
            n == t * t * (c * c),
    ;
    let m = (n + q - 1) / q;
    lemma_quotient_bounds(n + q - 1, q);
    lemma_quotient_of_nonnegative(n + q - 1, q);
    let ww = w * w;
    assert(0 * q <= n + q - 1 < ww * q + q);
    lemma_quotient_within(n + q - 1, q, 0, ww);
    assert(w > 0 ==> (w - 1) * (w - 1) < m) by (nonlinear_arith)
        requires
            q > 0,
            w > 0 ==> (w - 1) * (w - 1) * q < n,
            n <= m * q,
    ;
    lemma_ceil_sqrt_unique(m, w);
}

/// Largest target that `scale_down` and `scale_up` take.
pub const SCALE_TARGET_LIMIT: u128 = 3_000_000_000;

/// The square of `c` as an unsigned number.
fn square_of(c: i64) -> (c_sq: u128)
    ensures
        c_sq == c * c,
        c_sq <= 0x4000_0000_0000_0000_0000_0000_0000_0000,
{
    let wide: i128 = c as i128;
    assert(0 <= wide * wide <= 0x4000_0000_0000_0000_0000_0000_0000_0000) by (nonlinear_arith)
        requires
            -0x8000_0000_0000_0000 <= wide <= 0x8000_0000_0000_0000,
    ;
    (wide * wide) as u128
}

/// Computes the magnitude of `c * t / sqrt(q)` rounded down, by bisection.
pub fn scale_down(c: i64, t: u128, q: u128) -> (w: u128)
    requires
        0 < q,
        c * c <= q,
        t <= SCALE_TARGET_LIMIT,
    ensures
        w == scaled_down(c as int, t as int, q as int),
        w <= t,
{
    let c_sq = square_of(c);
    assert(t * t <= SHORT_FACTOR_LIMIT) by (nonlinear_arith)
        requires
            t <= 3_000_000_000,
    ;
    let t_sq: u128 = t * t;
    let mut low: u128 = 0;
    let mut high: u128 = t + 1;
    assert(0 * 0 * q <= t_sq * c_sq < high * high * q) by (nonlinear_arith)
        requires
            0 <= c_sq <= q,
            0 < q,
            t_sq == t * t,
            high == t + 1,
            0 <= t,
    ;
    while high - low > 1
        invariant
            low < high <= t + 1,
            t <= SCALE_TARGET_LIMIT,
            t_sq == t * t,
            t_sq <= SHORT_FACTOR_LIMIT,
            low * low * q <= t_sq * c_sq < high * high * q,
        decreases high - low,
    {
        let mid: u128 = low + (high - low) / 2;
        assert(mid * mid <= SHORT_FACTOR_LIMIT) by (nonlinear_arith)
            requires
                mid <= 3_000_000_001,
        ;
        if product_le(mid * mid, q, t_sq, c_sq) {
            low = mid;
        } else {
            high = mid;
        }
    }
    proof {
        lemma_scaled_down_unique(c as int, t as int, q as int, low as int);
    }
    low
}

/// Computes the magnitude of `c * t / sqrt(q)` rounded up, by bisection.
pub fn scale_up(c: i64, t: u128, q: u128) -> (w: u128)
    requires
        0 < q,
        c * c <= q,
        t <= SCALE_TARGET_LIMIT,
    ensures
        w == scaled_up(c as int, t as int, q as int),
        w <= t,
{
    let c_sq = square_of(c);
    assert(t * t <= SHORT_FACTOR_LIMIT) by (nonlinear_arith)
        requires
            t <= 3_000_000_000,
    ;
    let t_sq: u128 = t * t;
    if c == 0 || t == 0 {
        proof {
            assert(t * t * (c * c) == 0) by (nonlinear_arith)
                requires
                    c == 0 || t == 0,
            ;
            lemma_scaled_up_unique(c as int, t as int, q as int, 0);
        }
        return 0;
    }
    let mut low: u128 = 0;
    let mut high: u128 = t;
    assert(c_sq > 0) by (nonlinear_arith)
        requires
            c_sq == c * c,
            c != 0,
    ;
    assert(0 * 0 * q < t_sq * c_sq <= high * high * q) by (nonlinear_arith)
        requires
            0 < c_sq <= q,
            t_sq == t * t,
            high == t,
            0 < t,
    ;
    while high - low > 1
        invariant
            low < high <= t <= SCALE_TARGET_LIMIT,
            t_sq == t * t,
            t_sq <= SHORT_FACTOR_LIMIT,
            low * low * q < t_sq * c_sq <= high * high * q,
        decreases high - low,
    {
        let mid: u128 = low + (high - low) / 2;
        assert(mid * mid <= SHORT_FACTOR_LIMIT) by (nonlinear_arith)
            requires
                mid <= 3_000_000_001,
        ;
        if product_le(t_sq, c_sq, mid * mid, q) {
            high = mid;
        } else {
            low = mid;
        }
    }
    proof {
        lemma_scaled_up_unique(c as int, t as int, q as int, high as int);
    }
    high
}

} // verus!
