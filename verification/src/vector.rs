//! Plane vectors: the stored form in fixed-point units, and the mathematical
//! form in which contracts speak of it.

use crate::arith::{
    div_nearest, lemma_quotient_of_multiple, lemma_quotient_within, lemma_rounding_bounds,
    magnitude, quotient_nearest,
};
use crate::units::MAX_EXTENT;
use vstd::prelude::*;

verus! {

/// A point or a displacement in the plane, in length units.
#[derive(Clone, Copy, Debug, PartialEq, Eq, Structural)]
pub struct Vec2 {
    pub x: i64,
    pub y: i64,
}

/// A plane vector with unbounded integer coordinates: what a `Vec2` stands for.
pub struct Vector {
    pub x: int,
    pub y: int,
}

impl View for Vec2 {
    type V = Vector;

    open spec fn view(&self) -> Vector {
        Vector { x: self.x as int, y: self.y as int }
    }
}

impl Vector {
    pub open spec fn zero() -> Vector {
        Vector { x: 0, y: 0 }
    }

    pub open spec fn is_zero(self) -> bool {
        self.x == 0 && self.y == 0
    }

    pub open spec fn plus(self, other: Vector) -> Vector {
        Vector { x: self.x + other.x, y: self.y + other.y }
    }

    pub open spec fn minus(self, other: Vector) -> Vector {
        Vector { x: self.x - other.x, y: self.y - other.y }
    }

    pub open spec fn negated(self) -> Vector {
        Vector { x: -self.x, y: -self.y }
    }

    /// Scalar product.
    pub open spec fn dot(self, other: Vector) -> int {
        self.x * other.x + self.y * other.y
    }

    /// Squared length.
    pub open spec fn norm_sq(self) -> int {
        self.x * self.x + self.y * self.y
    }

    /// Whether both coordinates lie in `[-limit, limit]`.
    pub open spec fn within(self, limit: int) -> bool {
        -limit <= self.x <= limit && -limit <= self.y <= limit
    }

    /// Whether both coordinates lie in `[0, limit]`.
    pub open spec fn within_positive(self, limit: int) -> bool {
        0 <= self.x <= limit && 0 <= self.y <= limit
    }

    /// The exact mirror image of the vector about `normal`, times the
    /// squared length of `normal`: `(n . n) v - 2 (v . n) n`.
    pub open spec fn mirrored_times_norm_sq(self, normal: Vector) -> Vector {
        Vector {
            x: self.x * normal.norm_sq() - 2 * self.dot(normal) * normal.x,
            y: self.y * normal.norm_sq() - 2 * self.dot(normal) * normal.y,
        }
    }

    /// The vector mirrored about `normal`: `v - 2 (v . n) n / (n . n)`, each
    /// coordinate of the subtracted part rounded to the nearest unit. For a
    /// unit vector `u` along `normal` this is `v - 2 (v . u) u`.
    pub open spec fn reflected(self, normal: Vector) -> Vector
        recommends
            !normal.is_zero(),
    {
        Vector {
            x: self.x - quotient_nearest(2 * self.dot(normal) * normal.x, normal.norm_sq()),
            y: self.y - quotient_nearest(2 * self.dot(normal) * normal.y, normal.norm_sq()),
        }
    }
}

/// Only the zero vector has squared length zero; no squared length is negative.
pub proof fn lemma_norm_sq_is_positive(v: Vector)
    ensures
        v.norm_sq() >= 0,
        v.norm_sq() == 0 <==> v.is_zero(),
{
    assert(v.x * v.x + v.y * v.y >= 0 && (v.x * v.x + v.y * v.y == 0 <==> v.x == 0 && v.y == 0))
        by (nonlinear_arith);
}

/// A reflection changes each coordinate by no more than twice the sum of
/// the magnitudes of the vector's coordinates.
pub proof fn lemma_reflected_stays_near(v: Vector, normal: Vector)
    requires
        !normal.is_zero(),
    ensures
        magnitude(v.reflected(normal).x - v.x) <= 2 * (magnitude(v.x) + magnitude(v.y)),
        magnitude(v.reflected(normal).y - v.y) <= 2 * (magnitude(v.x) + magnitude(v.y)),
{
    let a = magnitude(v.x);
    let b = magnitude(v.y);
    let c = magnitude(normal.x);
    let e = magnitude(normal.y);
    let nn = normal.norm_sq();
    let dot = v.dot(normal);
    let k = 2 * (a + b);
    assert(nn == c * c + e * e && nn > 0) by (nonlinear_arith)
        requires
            nn == normal.x * normal.x + normal.y * normal.y,
            c == magnitude(normal.x),
            e == magnitude(normal.y),
            normal.x != 0 || normal.y != 0,
    ;
    assert(magnitude(dot) <= a * c + b * e) by (nonlinear_arith)
        requires
            dot == v.x * normal.x + v.y * normal.y,
            a == magnitude(v.x),
            b == magnitude(v.y),
            c == magnitude(normal.x),
            e == magnitude(normal.y),
    ;
    let h = magnitude(dot);
    assert(h * c <= (a + b) * nn && h * e <= (a + b) * nn) by (nonlinear_arith)
        requires
            0 <= h <= a * c + b * e,
            nn == c * c + e * e,
            a >= 0,
            b >= 0,
            c >= 0,
            e >= 0,
    ;
    let mx = magnitude(2 * dot * normal.x);
    let my = magnitude(2 * dot * normal.y);
    assert(mx == 2 * (h * c) && my == 2 * (h * e)) by (nonlinear_arith)
        requires
            mx == magnitude(2 * dot * normal.x),
            my == magnitude(2 * dot * normal.y),
            h == magnitude(dot),
            c == magnitude(normal.x),
            e == magnitude(normal.y),
    ;
    assert(k * (2 * nn) == 2 * (2 * ((a + b) * nn))) by (nonlinear_arith)
        requires
            k == 2 * (a + b),
    ;
    lemma_quotient_within(2 * mx + nn, 2 * nn, 0, k);
    lemma_quotient_within(2 * my + nn, 2 * nn, 0, k);
}

/// A reflection about a normal along the vertical axis reverses the vertical
/// coordinate and keeps the horizontal one; about a normal along the
/// horizontal axis it reverses the horizontal coordinate and keeps the
/// vertical one. Neither is rounded.
pub proof fn lemma_reflected_about_axis(v: Vector, normal: Vector)
    requires
        !normal.is_zero(),
    ensures
        normal.x == 0 ==> v.reflected(normal) == (Vector { x: v.x, y: -v.y }),
        normal.y == 0 ==> v.reflected(normal) == (Vector { x: -v.x, y: v.y }),
{
    let nn = normal.norm_sq();
    lemma_norm_sq_is_positive(normal);
    if normal.x == 0 {
        assert(2 * v.dot(normal) * normal.x == 0 * nn && 2 * v.dot(normal) * normal.y == (2
            * v.y) * nn) by (nonlinear_arith)
            requires
                normal.x == 0,
                nn == normal.x * normal.x + normal.y * normal.y,
                v.dot(normal) == v.x * normal.x + v.y * normal.y,
        ;
        lemma_quotient_of_multiple(0, nn);
        lemma_quotient_of_multiple(2 * v.y, nn);
    } else if normal.y == 0 {
        assert(2 * v.dot(normal) * normal.y == 0 * nn && 2 * v.dot(normal) * normal.x == (2
            * v.x) * nn) by (nonlinear_arith)
            requires
                normal.y == 0,
                nn == normal.x * normal.x + normal.y * normal.y,
                v.dot(normal) == v.x * normal.x + v.y * normal.y,
        ;
        lemma_quotient_of_multiple(0, nn);
        lemma_quotient_of_multiple(2 * v.x, nn);
    }
}

/// How far a reflection is from exact. The exact mirror image is as long
/// as the vector, and the mirrored vector is within half a unit of it in
/// each coordinate; both are stated times the squared length of `normal`,
/// which keeps them in whole numbers.
pub proof fn lemma_reflected_is_nearly_exact(v: Vector, normal: Vector)
    requires
        !normal.is_zero(),
    ensures
        v.mirrored_times_norm_sq(normal).norm_sq() == v.norm_sq() * (normal.norm_sq()
            * normal.norm_sq()),
        2 * magnitude(
            v.reflected(normal).x * normal.norm_sq() - v.mirrored_times_norm_sq(normal).x,
        ) <= normal.norm_sq(),
        2 * magnitude(
            v.reflected(normal).y * normal.norm_sq() - v.mirrored_times_norm_sq(normal).y,
        ) <= normal.norm_sq(),
{
    let nn = normal.norm_sq();
    let dot = v.dot(normal);
    let vv = v.norm_sq();
    lemma_norm_sq_is_positive(normal);
    let exact = v.mirrored_times_norm_sq(normal);
    let qx = quotient_nearest(2 * dot * normal.x, nn);
    let qy = quotient_nearest(2 * dot * normal.y, nn);
    lemma_rounding_bounds(2 * dot * normal.x, nn);
    lemma_rounding_bounds(2 * dot * normal.y, nn);
    assert((v.x - qx) * nn - exact.x == 2 * dot * normal.x - qx * nn && (v.y - qy) * nn - exact.y
        == 2 * dot * normal.y - qy * nn) by (nonlinear_arith)
        requires
            exact.x == v.x * nn - 2 * dot * normal.x,
            exact.y == v.y * nn - 2 * dot * normal.y,
    ;
    // A reflection keeps lengths.
    let dx = dot * normal.x;
    let dy = dot * normal.y;
    assert(2 * dot * normal.x == 2 * dx && 2 * dot * normal.y == 2 * dy) by (nonlinear_arith)
        requires
            dx == dot * normal.x,
            dy == dot * normal.y,
    ;
    assert(exact.x * exact.x == 4 * (dx * dx) - 4 * (dx * v.x) * nn + (v.x * v.x) * (nn * nn))
        by (nonlinear_arith)
        requires
            exact.x == v.x * nn - 2 * dx,
    ;
    assert(exact.y * exact.y == 4 * (dy * dy) - 4 * (dy * v.y) * nn + (v.y * v.y) * (nn * nn))
        by (nonlinear_arith)
        requires
            exact.y == v.y * nn - 2 * dy,
    ;
    assert(dx * dx + dy * dy == (dot * dot) * nn) by (nonlinear_arith)
        requires
            dx == dot * normal.x,
            dy == dot * normal.y,
            nn == normal.x * normal.x + normal.y * normal.y,
    ;
    assert(dx * v.x + dy * v.y == dot * dot) by (nonlinear_arith)
        requires
            dx == dot * normal.x,
            dy == dot * normal.y,
            dot == v.x * normal.x + v.y * normal.y,
    ;
    assert(exact.x * exact.x + exact.y * exact.y == vv * (nn * nn)) by (nonlinear_arith)
        requires
            exact.x * exact.x == 4 * (dx * dx) - 4 * (dx * v.x) * nn + (v.x * v.x) * (nn * nn),
            exact.y * exact.y == 4 * (dy * dy) - 4 * (dy * v.y) * nn + (v.y * v.y) * (nn * nn),
            dx * dx + dy * dy == (dot * dot) * nn,
            dx * v.x + dy * v.y == dot * dot,
            vv == v.x * v.x + v.y * v.y,
    ;
}

/// No reflection brings a moving thing to rest: only the zero vector is
/// mirrored to the zero vector.
pub proof fn lemma_reflected_keeps_motion(v: Vector, normal: Vector)
    requires
        !normal.is_zero(),
        !v.is_zero(),
    ensures
        !v.reflected(normal).is_zero(),
{
    let nn = normal.norm_sq();
    let vv = v.norm_sq();
    lemma_norm_sq_is_positive(normal);
    lemma_norm_sq_is_positive(v);
    lemma_reflected_is_nearly_exact(v, normal);
    if v.reflected(normal).is_zero() {
        // Rounded to zero, neither coordinate of the exact image exceeds
        // half a unit: the image is shorter than any vector but zero.
        let exact = v.mirrored_times_norm_sq(normal);
        assert(4 * (exact.x * exact.x) <= nn * nn && 4 * (exact.y * exact.y) <= nn * nn)
            by (nonlinear_arith)
            requires
                2 * magnitude(0 * nn - exact.x) <= nn,
                2 * magnitude(0 * nn - exact.y) <= nn,
        ;
        assert(false) by (nonlinear_arith)
            requires
                4 * (vv * (nn * nn)) <= 2 * (nn * nn),
                vv >= 1,
                nn >= 1,
        ;
    }
}

impl Vec2 {
    /// Mirrors the vector about `normal`: `v - 2 (v . n) n / (n . n)`, each
    /// coordinate of the subtracted part rounded to the nearest unit.
    pub fn reflect(&self, normal: Vec2) -> (r: Vec2)
        requires
            self@.within(2 * MAX_EXTENT),
            normal@.within(7 * MAX_EXTENT),
            !normal@.is_zero(),
        ensures
            r@ == self@.reflected(normal@),
            r@.within(10 * MAX_EXTENT),
    {
        let vx: i128 = self.x as i128;
        let vy: i128 = self.y as i128;
        let nx: i128 = normal.x as i128;
        let ny: i128 = normal.y as i128;
        proof {
            lemma_reflected_stays_near(self@, normal@);
            assert(0 <= nx * nx <= 49_000_000_000_000_000_000 && 0 <= ny * ny
                <= 49_000_000_000_000_000_000 && (nx != 0 ==> nx * nx > 0) && (ny != 0 ==> ny * ny
                > 0)) by (nonlinear_arith)
                requires
                    -7_000_000_000 <= nx <= 7_000_000_000,
                    -7_000_000_000 <= ny <= 7_000_000_000,
            ;
            assert(-14_000_000_000_000_000_000 <= vx * nx <= 14_000_000_000_000_000_000
                && -14_000_000_000_000_000_000 <= vy * ny <= 14_000_000_000_000_000_000)
                by (nonlinear_arith)
                requires
                    -7_000_000_000 <= nx <= 7_000_000_000,
                    -7_000_000_000 <= ny <= 7_000_000_000,
                    -2_000_000_000 <= vx <= 2_000_000_000,
                    -2_000_000_000 <= vy <= 2_000_000_000,
            ;
        }
        let nn: i128 = nx * nx + ny * ny;
        let twice_dot: i128 = 2 * (vx * nx + vy * ny);
        proof {
            assert(-392_000_000_000_000_000_000_000_000_000 <= twice_dot * nx
                <= 392_000_000_000_000_000_000_000_000_000
                && -392_000_000_000_000_000_000_000_000_000 <= twice_dot * ny
                <= 392_000_000_000_000_000_000_000_000_000) by (nonlinear_arith)
                requires
                    -7_000_000_000 <= nx <= 7_000_000_000,
                    -7_000_000_000 <= ny <= 7_000_000_000,
                    -56_000_000_000_000_000_000 <= twice_dot <= 56_000_000_000_000_000_000,
            ;
            assert(twice_dot * nx == 2 * self@.dot(normal@) * normal@.x && twice_dot * ny == 2
                * self@.dot(normal@) * normal@.y) by (nonlinear_arith)
                requires
                    twice_dot == 2 * (vx * nx + vy * ny),
                    self@.dot(normal@) == vx * nx + vy * ny,
                    normal@.x == nx,
                    normal@.y == ny,
            ;
        }
        let x: i128 = vx - div_nearest(twice_dot * nx, nn);
        let y: i128 = vy - div_nearest(twice_dot * ny, nn);
        Vec2 { x: x as i64, y: y as i64 }
    }

    /// Whether both coordinates lie in `[0, limit]`.
    pub fn is_within_positive(&self, limit: i64) -> (b: bool)
        ensures
            b == self@.within_positive(limit as int),
    {
        0 <= self.x && self.x <= limit && 0 <= self.y && self.y <= limit
    }
}

} // verus!
