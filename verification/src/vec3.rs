//! Three-dimensional fixed-point vectors.
//!
//! `V3` is the mathematical model: three unbounded integers, with the vector
//! operations of the simulation defined on them. `Vec3` is the machine value,
//! whose view is a `V3`; each of its operations states which `V3` it computes.
//!
//! The length of a vector is the square root of the sum of its squared
//! components, rounded up, so that a vector scaled down to a length never
//! exceeds it.

use vstd::prelude::*;
use crate::fixed::{
    abs, quot, sqrt_ceil, COORD_LIMIT, isqrt_ceil, div_toward_zero,
    lemma_sqrt_ceil, lemma_sqrt_ceil_le, lemma_sqrt_ceil_gt, lemma_sqrt_ceil_zero,
    lemma_quot_small, lemma_quot_bound, lemma_quot_neg, lemma_quot_exact,
};

verus! {

/// Largest magnitude of a component on which the vector operations work.
pub const COMPONENT_LIMIT: i64 = 4_000_000_000_000_000_000;

/// A vector of the model.
pub struct V3 {
    pub x: int,
    pub y: int,
    pub z: int,
}

impl V3 {
    /// The vector of no length.
    pub open spec fn zero() -> V3 {
        V3 { x: 0, y: 0, z: 0 }
    }

    /// The sum of two vectors.
    pub open spec fn plus(self, o: V3) -> V3 {
        V3 { x: self.x + o.x, y: self.y + o.y, z: self.z + o.z }
    }

    /// The vector that leads from `o` to `self`.
    pub open spec fn minus(self, o: V3) -> V3 {
        V3 { x: self.x - o.x, y: self.y - o.y, z: self.z - o.z }
    }

    /// The opposite vector.
    pub open spec fn neg(self) -> V3 {
        V3 { x: -self.x, y: -self.y, z: -self.z }
    }

    /// The two vectors run along one line: each is a multiple of the other,
    /// or one of them is zero.
    pub open spec fn parallel(self, o: V3) -> bool {
        &&& self.x * o.y == self.y * o.x
        &&& self.y * o.z == self.z * o.y
        &&& self.z * o.x == self.x * o.z
    }

    /// The product of two vectors: the sum of the products of their
    /// components.
    pub open spec fn dot(self, o: V3) -> int {
        self.x * o.x + self.y * o.y + self.z * o.z
    }

    /// The squared length.
    pub open spec fn norm_sq(self) -> int {
        self.dot(self)
    }

    /// The length, rounded up.
    pub open spec fn length(self) -> int {
        sqrt_ceil(self.norm_sq())
    }

    /// Every component multiplied by `num / den`, rounded toward zero.
    pub open spec fn scale(self, num: int, den: int) -> V3 {
        V3 {
            x: quot(self.x * num, den),
            y: quot(self.y * num, den),
            z: quot(self.z * num, den),
        }
    }

    /// The vector itself where it is no longer than `max`, else the vector of
    /// the same direction shortened to `max`.
    pub open spec fn clamp_length(self, max: int) -> V3 {
        if self.norm_sq() <= max * max {
            self
        } else {
            self.scale(max, self.length())
        }
    }

    /// The vector of the same direction and of length `m`, or of the opposite
    /// direction where `m` is negative; zero for the zero vector, which has no
    /// direction.
    pub open spec fn with_length(self, m: int) -> V3 {
        if self.norm_sq() == 0 {
            V3::zero()
        } else {
            self.scale(m, self.length())
        }
    }

    /// The part of `self` that lies along `n`.
    pub open spec fn project_onto(self, n: V3) -> V3 {
        n.scale(self.dot(n), n.norm_sq())
    }

    /// What is left of `self` when the part along `n` is taken away.
    pub open spec fn reject_from(self, n: V3) -> V3 {
        self.minus(self.project_onto(n))
    }

    /// Every component is at most `b` in magnitude.
    pub open spec fn fits(self, b: int) -> bool {
        &&& abs(self.x) <= b
        &&& abs(self.y) <= b
        &&& abs(self.z) <= b
    }

    /// The vector lies within `COORD_LIMIT` of the origin.
    pub open spec fn bounded(self) -> bool {
        self.norm_sq() <= COORD_LIMIT * COORD_LIMIT
    }
}

/// A fixed-point vector: each component counts thousandths of a unit.
#[derive(Clone, Copy, Debug, PartialEq, Eq, Structural)]
pub struct Vec3 {
    pub x: i64,
    pub y: i64,
    pub z: i64,
}

impl View for Vec3 {
    type V = V3;

    open spec fn view(&self) -> V3 {
        V3 { x: self.x as int, y: self.y as int, z: self.z as int }
    }
}

impl Default for Vec3 {
    fn default() -> (r: Vec3)
        ensures
            r@ == V3::zero(),
    {
        Vec3 { x: 0, y: 0, z: 0 }
    }
}

/// A product and its quotient that the machine can hold.
pub open spec fn component_fits(c: int, num: int, den: int) -> bool {
    &&& abs(c * num) <= i128::MAX
    &&& abs(quot(c * num, den)) <= i64::MAX
}

proof fn lemma_square_monotonic(a: int, b: int)
    by (nonlinear_arith)
    requires
        0 <= a <= b,
    ensures
        a * a <= b * b,
{
}

proof fn lemma_square_abs(a: int)
    by (nonlinear_arith)
    ensures
        abs(a) * abs(a) == a * a,
        a * a >= 0,
{
}

proof fn lemma_abs_mul(a: int, b: int)
    by (nonlinear_arith)
    ensures
        abs(a * b) == abs(a) * abs(b),
{
}

proof fn lemma_mul_le(a: int, b: int, c: int, d: int)
    by (nonlinear_arith)
    requires
        0 <= a <= c,
        0 <= b <= d,
    ensures
        a * b <= c * d,
{
}

/// A number whose square is at most the square of `b` is at most `b`.
proof fn lemma_le_from_squares(a: int, b: int)
    by (nonlinear_arith)
    requires
        0 <= a,
        0 <= b,
        a * a <= b * b,
    ensures
        a <= b,
{
}

/// A quotient is bounded by `b` where the dividend is bounded by `b * d`.
pub proof fn lemma_quot_le(a: int, d: int, b: int)
    requires
        d > 0,
        b >= 0,
        abs(a) <= b * d,
    ensures
        abs(quot(a, d)) <= b,
{
    lemma_quot_small(a, d);
    let m = abs(a);
    assert(m / d <= b) by (nonlinear_arith)
        requires
            d > 0,
            b >= 0,
            0 <= m <= b * d,
    ;
}

/// No component is longer than the vector.
pub proof fn lemma_component_le_length(v: V3)
    ensures
        v.fits(v.length()),
        v.norm_sq() >= 0,
        v.length() >= 0,
{
    lemma_sqrt_ceil(v.norm_sq());
    let l = v.length();
    lemma_square_abs(v.x);
    lemma_square_abs(v.y);
    lemma_square_abs(v.z);
    lemma_le_from_squares(abs(v.x), l);
    lemma_le_from_squares(abs(v.y), l);
    lemma_le_from_squares(abs(v.z), l);
}

/// A vector whose components are at most `b` is at most `2 * b` long.
pub proof fn lemma_fits_length(v: V3, b: int)
    requires
        b >= 0,
        v.fits(b),
    ensures
        0 <= v.norm_sq() <= 3 * (b * b),
        v.length() <= 2 * b,
{
    lemma_square_abs(v.x);
    lemma_square_abs(v.y);
    lemma_square_abs(v.z);
    lemma_square_monotonic(abs(v.x), b);
    lemma_square_monotonic(abs(v.y), b);
    lemma_square_monotonic(abs(v.z), b);
    assert((2 * b) * (2 * b) == 4 * (b * b)) by (nonlinear_arith);
    assert(b * b >= 0) by (nonlinear_arith);
    lemma_sqrt_ceil_le(v.norm_sq(), 2 * b);
}

/// A bounded vector has bounded components.
pub proof fn lemma_bounded_fits(v: V3)
    requires
        v.bounded(),
    ensures
        v.fits(COORD_LIMIT as int),
        v.length() <= COORD_LIMIT,
{
    lemma_component_le_length(v);
    lemma_sqrt_ceil_le(v.norm_sq(), COORD_LIMIT as int);
}

/// Only the zero vector has length zero.
pub proof fn lemma_length_zero(v: V3)
    ensures
        v.length() == 0 <==> v == V3::zero(),
        v.norm_sq() == 0 <==> v == V3::zero(),
{
    lemma_sqrt_ceil_zero(v.norm_sq());
    lemma_square_abs(v.x);
    lemma_square_abs(v.y);
    lemma_square_abs(v.z);
    assert(v.x != 0 ==> v.x * v.x > 0) by (nonlinear_arith);
    assert(v.y != 0 ==> v.y * v.y > 0) by (nonlinear_arith);
    assert(v.z != 0 ==> v.z * v.z > 0) by (nonlinear_arith);
    assert(0int * 0int == 0);
}

proof fn lemma_scaled_component(c: int, num: int, den: int)
    requires
        den > 0,
    ensures
        quot(c * num, den) * quot(c * num, den) * (den * den) <= (c * c) * (num * num),
{
    let q = quot(c * num, den);
    lemma_quot_bound(c * num, den);
    let a = abs(q) * den;
    let b = abs(c * num);
    assert(a >= 0) by (nonlinear_arith)
        requires
            a == abs(q) * den,
            den > 0,
    ;
    lemma_square_monotonic(a, b);
    lemma_square_abs(q);
    lemma_square_abs(c * num);
    assert(a * a == q * q * (den * den)) by (nonlinear_arith)
        requires
            a == abs(q) * den,
            abs(q) * abs(q) == q * q,
    ;
    assert((c * num) * (c * num) == (c * c) * (num * num)) by (nonlinear_arith);
}

/// Scaling by `num / den` a vector no longer than `den` gives a vector no
/// longer than `num`.
pub proof fn lemma_scale_norm(v: V3, num: int, den: int)
    requires
        den > 0,
        v.norm_sq() <= den * den,
    ensures
        v.scale(num, den).norm_sq() <= num * num,
        v.scale(num, den).length() <= abs(num),
{
    let s = v.scale(num, den);
    lemma_scaled_component(v.x, num, den);
    lemma_scaled_component(v.y, num, den);
    lemma_scaled_component(v.z, num, den);
    let d2 = den * den;
    let n2 = num * num;
    assert(s.norm_sq() * d2 == s.x * s.x * d2 + s.y * s.y * d2 + s.z * s.z * d2)
        by (nonlinear_arith)
        requires
            s.norm_sq() == s.x * s.x + s.y * s.y + s.z * s.z,
    ;
    assert(v.norm_sq() * n2 == (v.x * v.x) * n2 + (v.y * v.y) * n2 + (v.z * v.z) * n2)
        by (nonlinear_arith)
        requires
            v.norm_sq() == v.x * v.x + v.y * v.y + v.z * v.z,
    ;
    assert(v.norm_sq() * n2 <= d2 * n2) by (nonlinear_arith)
        requires
            v.norm_sq() <= d2,
            n2 == num * num,
    ;
    assert(s.norm_sq() <= n2) by (nonlinear_arith)
        requires
            s.norm_sq() * d2 <= d2 * n2,
            d2 == den * den,
            den > 0,
    ;
    lemma_square_abs(num);
    lemma_sqrt_ceil_le(s.norm_sq(), abs(num));
}

/// Scaling by a factor of at most one leaves no component longer.
pub proof fn lemma_scale_fits(v: V3, num: int, den: int)
    requires
        den > 0,
        abs(num) <= den,
    ensures
        abs(quot(v.x * num, den)) <= abs(v.x),
        abs(quot(v.y * num, den)) <= abs(v.y),
        abs(quot(v.z * num, den)) <= abs(v.z),
{
    lemma_abs_mul(v.x, num);
    lemma_abs_mul(v.y, num);
    lemma_abs_mul(v.z, num);
    lemma_mul_le(abs(v.x), abs(num), abs(v.x), den);
    lemma_mul_le(abs(v.y), abs(num), abs(v.y), den);
    lemma_mul_le(abs(v.z), abs(num), abs(v.z), den);
    lemma_quot_le(v.x * num, den, abs(v.x));
    lemma_quot_le(v.y * num, den, abs(v.y));
    lemma_quot_le(v.z * num, den, abs(v.z));
}

proof fn lemma_binomial(u: int, w: int)
    by (nonlinear_arith)
    ensures
        (u - w) * (u - w) == u * u - 2 * (u * w) + w * w,
{
}

proof fn lemma_swap_factors(a: int, b: int, c: int, d: int)
    by (nonlinear_arith)
    ensures
        (a * d) * (b * c) == (a * c) * (b * d),
{
}

proof fn lemma_square_of_product(a: int, b: int)
    by (nonlinear_arith)
    ensures
        (a * b) * (a * b) == (a * a) * (b * b),
{
}

proof fn lemma_distribute(a: int, d: int, e: int, f: int)
    by (nonlinear_arith)
    ensures
        a * (d + e + f) == a * d + a * e + a * f,
        (d + e + f) * a == d * a + e * a + f * a,
{
}

proof fn lemma_cross_square(a: int, b: int, c: int, d: int)
    ensures
        (a * d - b * c) * (a * d - b * c) == (a * a) * (d * d) + (b * b) * (c * c) - 2 * ((a * c)
            * (b * d)),
{
    lemma_binomial(a * d, b * c);
    lemma_square_of_product(a, d);
    lemma_square_of_product(b, c);
    lemma_swap_factors(a, b, c, d);
}

proof fn lemma_product_square(a: int, b: int, c: int)
    ensures
        (a + b + c) * (a + b + c) == a * a + b * b + c * c + 2 * (a * b) + 2 * (b * c) + 2 * (c
            * a),
{
    let s = a + b + c;
    lemma_distribute(s, a, b, c);
    lemma_distribute(a, a, b, c);
    lemma_distribute(b, a, b, c);
    lemma_distribute(c, a, b, c);
    assert(b * a == a * b) by (nonlinear_arith);
    assert(c * b == b * c) by (nonlinear_arith);
    assert(a * c == c * a) by (nonlinear_arith);
    assert(s * a == a * a + b * a + c * a);
    assert(s * b == a * b + b * b + c * b);
    assert(s * c == a * c + b * c + c * c);
}

proof fn lemma_expand_nine(a: int, b: int, c: int, d: int, e: int, f: int)
    ensures
        (a + b + c) * (d + e + f) == a * d + a * e + a * f + b * d + b * e + b * f + c * d + c * e
            + c * f,
{
    let s = d + e + f;
    lemma_distribute(s, a, b, c);
    lemma_distribute(a, d, e, f);
    lemma_distribute(b, d, e, f);
    lemma_distribute(c, d, e, f);
}

/// The product of the squared lengths less the squared product is a sum of
/// three squares.
proof fn lemma_lagrange(ax: int, ay: int, az: int, bx: int, by: int, bz: int)
    ensures
        (ax * ax + ay * ay + az * az) * (bx * bx + by * by + bz * bz) - (ax * bx + ay * by + az
            * bz) * (ax * bx + ay * by + az * bz) == (ax * by - ay * bx) * (ax * by - ay * bx) + (
        ay * bz - az * by) * (ay * bz - az * by) + (az * bx - ax * bz) * (az * bx - ax * bz),
{
    lemma_expand_nine(ax * ax, ay * ay, az * az, bx * bx, by * by, bz * bz);
    lemma_product_square(ax * bx, ay * by, az * bz);
    lemma_square_of_product(ax, bx);
    lemma_square_of_product(ay, by);
    lemma_square_of_product(az, bz);
    lemma_cross_square(ax, ay, bx, by);
    lemma_cross_square(ay, az, by, bz);
    lemma_cross_square(az, ax, bz, bx);
}

/// The squared product of two vectors is at most the product of their squared
/// lengths.
pub proof fn lemma_cauchy_schwarz(a: V3, b: V3)
    ensures
        a.dot(b) * a.dot(b) <= a.norm_sq() * b.norm_sq(),
{
    let p = a.x * b.y - a.y * b.x;
    let q = a.y * b.z - a.z * b.y;
    let r = a.z * b.x - a.x * b.z;
    lemma_lagrange(a.x, a.y, a.z, b.x, b.y, b.z);
    lemma_square_abs(p);
    lemma_square_abs(q);
    lemma_square_abs(r);
}

proof fn lemma_projected_component(c: int, d: int, nn: int, l: int, ln: int)
    requires
        nn > 0,
        l >= 0,
        ln >= 0,
        abs(c) <= ln,
        ln * ln >= nn,
        (ln == 0 || (ln - 1) * (ln - 1) < nn),
        c * c <= nn,
        d * d <= l * l * nn,
    ensures
        abs(quot(c * d, nn)) <= l,
{
    lemma_square_abs(c);
    lemma_square_abs(d);
    lemma_abs_mul(c, d);
    let m = abs(c) * abs(d);
    assert(m * m == (c * c) * (d * d)) by (nonlinear_arith)
        requires
            m == abs(c) * abs(d),
            abs(c) * abs(c) == c * c,
            abs(d) * abs(d) == d * d,
    ;
    assert(d * d >= 0);
    assert((c * c) * (d * d) <= nn * (l * l * nn)) by (nonlinear_arith)
        requires
            0 <= c * c <= nn,
            0 <= d * d <= l * l * nn,
    ;
    assert(nn * (l * l * nn) == (l * nn) * (l * nn)) by (nonlinear_arith);
    assert(l * nn >= 0) by (nonlinear_arith)
        requires
            l >= 0,
            nn > 0,
    ;
    assert(m >= 0) by (nonlinear_arith)
        requires
            m == abs(c) * abs(d),
            abs(c) >= 0,
            abs(d) >= 0,
    ;
    lemma_le_from_squares(m, l * nn);
    lemma_quot_le(c * d, nn, l);
}

/// The part of `v` along a non-zero `n` has no component longer than `v`.
pub proof fn lemma_project_fits(v: V3, n: V3)
    requires
        n != V3::zero(),
    ensures
        v.project_onto(n).fits(v.length()),
{
    let nn = n.norm_sq();
    let d = v.dot(n);
    let l = v.length();
    let ln = n.length();
    lemma_length_zero(n);
    lemma_component_le_length(n);
    lemma_component_le_length(v);
    lemma_sqrt_ceil(nn);
    lemma_sqrt_ceil(v.norm_sq());
    lemma_cauchy_schwarz(v, n);
    lemma_square_abs(n.x);
    lemma_square_abs(n.y);
    lemma_square_abs(n.z);
    assert(v.norm_sq() * nn <= l * l * nn) by (nonlinear_arith)
        requires
            v.norm_sq() <= l * l,
            nn > 0,
    ;
    lemma_projected_component(n.x, d, nn, l, ln);
    lemma_projected_component(n.y, d, nn, l, ln);
    lemma_projected_component(n.z, d, nn, l, ln);
}

proof fn lemma_parallel_component(nx: int, ny: int, nz: int, wx: int, wy: int, wz: int)
    requires
        wx * ny == wy * nx,
        wz * nx == wx * nz,
    ensures
        nx * (wx * nx + wy * ny + wz * nz) == wx * (nx * nx + ny * ny + nz * nz),
{
    lemma_distribute(nx, wx * nx, wy * ny, wz * nz);
    lemma_distribute(wx, nx * nx, ny * ny, nz * nz);
    assert(nx * (wx * nx) == wx * (nx * nx)) by (nonlinear_arith);
    assert(nx * (wy * ny) == (wy * nx) * ny) by (nonlinear_arith);
    assert((wx * ny) * ny == wx * (ny * ny)) by (nonlinear_arith);
    assert(nx * (wz * nz) == (wz * nx) * nz) by (nonlinear_arith);
    assert((wx * nz) * nz == wx * (nz * nz)) by (nonlinear_arith);
}

/// Each component of `n` times the product of `w` and `n` is the component of
/// `w` times the squared length of `n`, where `w` runs along `n`.
proof fn lemma_parallel_products(w: V3, n: V3)
    requires
        w.parallel(n),
    ensures
        n.x * w.dot(n) == w.x * n.norm_sq(),
        n.y * w.dot(n) == w.y * n.norm_sq(),
        n.z * w.dot(n) == w.z * n.norm_sq(),
{
    lemma_parallel_component(n.x, n.y, n.z, w.x, w.y, w.z);
    lemma_parallel_component(n.y, n.z, n.x, w.y, w.z, w.x);
    lemma_parallel_component(n.z, n.x, n.y, w.z, w.x, w.y);
}

/// Taking away the part along `n` from the sum of a vector along `n` and a
/// vector across `n` leaves the vector across, exactly.
pub proof fn lemma_reject_exact(n: V3, w: V3, t: V3)
    requires
        n != V3::zero(),
        w.parallel(n),
        t.dot(n) == 0,
    ensures
        w.plus(t).project_onto(n) == w,
        w.plus(t).reject_from(n) == t,
{
    let v = w.plus(t);
    let nn = n.norm_sq();
    lemma_length_zero(n);
    lemma_component_le_length(n);
    assert((w.x + t.x) * n.x == w.x * n.x + t.x * n.x) by (nonlinear_arith);
    assert((w.y + t.y) * n.y == w.y * n.y + t.y * n.y) by (nonlinear_arith);
    assert((w.z + t.z) * n.z == w.z * n.z + t.z * n.z) by (nonlinear_arith);
    assert(v.dot(n) == w.dot(n));
    lemma_parallel_products(w, n);
    lemma_quot_exact(w.x, nn);
    lemma_quot_exact(w.y, nn);
    lemma_quot_exact(w.z, nn);
}

/// Scaling the opposite vector gives the opposite of the scaled vector.
pub proof fn lemma_scale_neg(v: V3, num: int, den: int)
    requires
        den > 0,
    ensures
        v.neg().scale(num, den) == v.scale(num, den).neg(),
        v.neg().norm_sq() == v.norm_sq(),
        v.neg().length() == v.length(),
{
    assert((-v.x) * num == -(v.x * num)) by (nonlinear_arith);
    assert((-v.y) * num == -(v.y * num)) by (nonlinear_arith);
    assert((-v.z) * num == -(v.z * num)) by (nonlinear_arith);
    lemma_quot_neg(v.x * num, den);
    lemma_quot_neg(v.y * num, den);
    lemma_quot_neg(v.z * num, den);
    assert((-v.x) * (-v.x) == v.x * v.x) by (nonlinear_arith);
    assert((-v.y) * (-v.y) == v.y * v.y) by (nonlinear_arith);
    assert((-v.z) * (-v.z) == v.z * v.z) by (nonlinear_arith);
}

/// One component times `num / den`, rounded toward zero.
fn scale_component(c: i64, num: i128, den: i128) -> (q: i64)
    requires
        den > 0,
        component_fits(c as int, num as int, den as int),
    ensures
        q == quot(c * num, den as int),
{
    let p: i128 = (c as i128) * num;
    let q: i128 = div_toward_zero(p, den);
    q as i64
}

impl Vec3 {
    /// The vector with the three components.
    pub fn new(x: i64, y: i64, z: i64) -> (r: Vec3)
        ensures
            r == (Vec3 { x, y, z }),
    {
        Vec3 { x, y, z }
    }

    /// The vector of no length.
    pub fn zero() -> (r: Vec3)
        ensures
            r@ == V3::zero(),
    {
        Vec3 { x: 0, y: 0, z: 0 }
    }

    /// Whether the vector lies within `COORD_LIMIT` of the origin.
    pub fn is_bounded(&self) -> (b: bool)
        ensures
            b == self@.bounded(),
    {
        if self.x > COORD_LIMIT || self.x < -COORD_LIMIT || self.y > COORD_LIMIT || self.y
            < -COORD_LIMIT || self.z > COORD_LIMIT || self.z < -COORD_LIMIT {
            proof {
                if self@.bounded() {
                    lemma_bounded_fits(self@);
                }
            }
            false
        } else {
            proof {
                lemma_fits_length(self@, COORD_LIMIT as int);
            }
            self.length_squared() <= (COORD_LIMIT as i128) * (COORD_LIMIT as i128)
        }
    }

    /// The sum of two vectors.
    pub fn plus(self, o: Vec3) -> (r: Vec3)
        requires
            self@.fits(COMPONENT_LIMIT as int),
            o@.fits(COMPONENT_LIMIT as int),
        ensures
            r@ == self@.plus(o@),
    {
        Vec3 { x: self.x + o.x, y: self.y + o.y, z: self.z + o.z }
    }

    /// The vector that leads from `o` to `self`.
    pub fn minus(self, o: Vec3) -> (r: Vec3)
        requires
            self@.fits(COMPONENT_LIMIT as int),
            o@.fits(COMPONENT_LIMIT as int),
        ensures
            r@ == self@.minus(o@),
    {
        Vec3 { x: self.x - o.x, y: self.y - o.y, z: self.z - o.z }
    }

    /// The opposite vector.
    pub fn neg(self) -> (r: Vec3)
        requires
            self@.fits(COMPONENT_LIMIT as int),
        ensures
            r@ == self@.neg(),
    {
        Vec3 { x: -self.x, y: -self.y, z: -self.z }
    }

    /// The product of two vectors.
    pub fn dot(self, o: Vec3) -> (d: i128)
        requires
            self@.fits(COMPONENT_LIMIT as int),
            o@.fits(COMPONENT_LIMIT as int),
        ensures
            d == self@.dot(o@),
    {
        proof {
            lemma_dot_range(self@, o@, COMPONENT_LIMIT as int);
        }
        let a: i128 = (self.x as i128) * (o.x as i128);
        let b: i128 = (self.y as i128) * (o.y as i128);
        let c: i128 = (self.z as i128) * (o.z as i128);
        a + b + c
    }

    /// The squared length.
    pub fn length_squared(self) -> (n: i128)
        requires
            self@.fits(COMPONENT_LIMIT as int),
        ensures
            n == self@.norm_sq(),
            n >= 0,
    {
        proof {
            lemma_component_le_length(self@);
        }
        self.dot(self)
    }

    /// The length, rounded up.
    pub fn length(self) -> (l: i64)
        requires
            self@.fits(COMPONENT_LIMIT as int),
        ensures
            l == self@.length(),
            l >= 0,
    {
        let n: i128 = self.length_squared();
        proof {
            lemma_fits_length(self@, COMPONENT_LIMIT as int);
            lemma_component_le_length(self@);
        }
        let l: u128 = isqrt_ceil(n as u128);
        l as i64
    }

    /// Every component multiplied by `num / den`, rounded toward zero.
    pub fn scale(self, num: i128, den: i128) -> (r: Vec3)
        requires
            den > 0,
            component_fits(self.x as int, num as int, den as int),
            component_fits(self.y as int, num as int, den as int),
            component_fits(self.z as int, num as int, den as int),
        ensures
            r@ == self@.scale(num as int, den as int),
    {
        Vec3 {
            x: scale_component(self.x, num, den),
            y: scale_component(self.y, num, den),
            z: scale_component(self.z, num, den),
        }
    }

    /// The vector itself where it is no longer than `max`, else the vector of
    /// the same direction shortened to `max`.
    pub fn clamp_length_max(self, max: i64) -> (r: Vec3)
        requires
            self@.fits(COMPONENT_LIMIT as int),
            max >= 0,
        ensures
            r@ == self@.clamp_length(max as int),
            r@.norm_sq() <= max * max,
            r@.length() <= max,
            r@.fits(max as int),
    {
        let n: i128 = self.length_squared();
        proof {
            lemma_clamp_length(self@, max as int);
            lemma_mul_le(max as int, max as int, i64::MAX as int, i64::MAX as int);
        }
        let m: i128 = (max as i128) * (max as i128);
        if n <= m {
            self
        } else {
            let l: i64 = self.length();
            proof {
                lemma_sqrt_ceil_gt(self@.norm_sq(), max as int);
                lemma_scale_in_range(self@, max as int, l as int);
            }
            self.scale(max as i128, l as i128)
        }
    }

    /// The vector of the same direction and of length `m`, or of the opposite
    /// direction where `m` is negative; zero for the zero vector.
    pub fn with_length(self, m: i64) -> (r: Vec3)
        requires
            self@.fits(COMPONENT_LIMIT as int),
            m > i64::MIN,
        ensures
            r@ == self@.with_length(m as int),
            r@.norm_sq() <= m * m,
            r@.length() <= abs(m as int),
            r@.fits(abs(m as int)),
    {
        let l: i64 = self.length();
        proof {
            lemma_with_length(self@, m as int);
            lemma_length_zero(self@);
        }
        if l == 0 {
            Vec3 { x: 0, y: 0, z: 0 }
        } else {
            proof {
                lemma_stretch_in_range(self@, m as int);
            }
            self.scale(m as i128, l as i128)
        }
    }

    /// The part of `self` that lies along `n`.
    pub fn project_onto(self, n: Vec3) -> (r: Vec3)
        requires
            self@.fits(4 * COORD_LIMIT),
            n@.bounded(),
            n@ != V3::zero(),
        ensures
            r@ == self@.project_onto(n@),
            r@.fits(self@.length()),
            r@.fits(8 * COORD_LIMIT),
    {
        proof {
            lemma_fits_length(self@, 4 * COORD_LIMIT);
            lemma_bounded_fits(n@);
            lemma_length_zero(n@);
            lemma_component_le_length(n@);
            lemma_project_fits(self@, n@);
            lemma_project_in_range(self@, n@);
        }
        let d: i128 = self.dot(n);
        let nn: i128 = n.length_squared();
        n.scale(d, nn)
    }

    /// What is left of `self` when the part along `n` is taken away.
    pub fn reject_from(self, n: Vec3) -> (r: Vec3)
        requires
            self@.fits(4 * COORD_LIMIT),
            n@.bounded(),
            n@ != V3::zero(),
        ensures
            r@ == self@.reject_from(n@),
            r@.fits(12 * COORD_LIMIT),
    {
        let p: Vec3 = self.project_onto(n);
        self.minus(p)
    }
}

proof fn lemma_dot_range(a: V3, b: V3, lim: int)
    requires
        lim >= 0,
        a.fits(lim),
        b.fits(lim),
    ensures
        abs(a.x * b.x) <= lim * lim,
        abs(a.y * b.y) <= lim * lim,
        abs(a.z * b.z) <= lim * lim,
        abs(a.dot(b)) <= 3 * (lim * lim),
{
    lemma_abs_mul(a.x, b.x);
    lemma_abs_mul(a.y, b.y);
    lemma_abs_mul(a.z, b.z);
    lemma_mul_le(abs(a.x), abs(b.x), lim, lim);
    lemma_mul_le(abs(a.y), abs(b.y), lim, lim);
    lemma_mul_le(abs(a.z), abs(b.z), lim, lim);
}

/// A clamped vector is no longer than the bound.
pub proof fn lemma_clamp_length(v: V3, max: int)
    requires
        max >= 0,
    ensures
        v.clamp_length(max).norm_sq() <= max * max,
        v.clamp_length(max).length() <= max,
        v.clamp_length(max).fits(max),
{
    let r = v.clamp_length(max);
    if v.norm_sq() > max * max {
        lemma_sqrt_ceil(v.norm_sq());
        lemma_sqrt_ceil_gt(v.norm_sq(), max);
        lemma_scale_norm(v, max, v.length());
    }
    lemma_sqrt_ceil_le(r.norm_sq(), max);
    lemma_component_le_length(r);
}

/// A vector given the length `m` is no longer than the magnitude of `m`.
pub proof fn lemma_with_length(v: V3, m: int)
    ensures
        v.with_length(m).norm_sq() <= m * m,
        v.with_length(m).length() <= abs(m),
        v.with_length(m).fits(abs(m)),
{
    let r = v.with_length(m);
    lemma_length_zero(v);
    lemma_component_le_length(v);
    lemma_square_abs(m);
    if v.norm_sq() != 0 {
        lemma_sqrt_ceil(v.norm_sq());
        lemma_scale_norm(v, m, v.length());
    } else {
        assert(r.norm_sq() == 0);
    }
    lemma_sqrt_ceil_le(r.norm_sq(), abs(m));
    lemma_component_le_length(r);
}

proof fn lemma_scale_in_range(v: V3, max: int, l: int)
    requires
        v.fits(COMPONENT_LIMIT as int),
        0 <= max < l,
        max <= i64::MAX,
    ensures
        component_fits(v.x, max, l),
        component_fits(v.y, max, l),
        component_fits(v.z, max, l),
{
    lemma_scale_fits(v, max, l);
    lemma_abs_mul(v.x, max);
    lemma_abs_mul(v.y, max);
    lemma_abs_mul(v.z, max);
    lemma_mul_le(abs(v.x), abs(max), COMPONENT_LIMIT as int, i64::MAX as int);
    lemma_mul_le(abs(v.y), abs(max), COMPONENT_LIMIT as int, i64::MAX as int);
    lemma_mul_le(abs(v.z), abs(max), COMPONENT_LIMIT as int, i64::MAX as int);
}

proof fn lemma_stretch_in_range(v: V3, m: int)
    requires
        v.fits(COMPONENT_LIMIT as int),
        abs(m) <= i64::MAX,
        v.length() > 0,
    ensures
        component_fits(v.x, m, v.length()),
        component_fits(v.y, m, v.length()),
        component_fits(v.z, m, v.length()),
{
    let l = v.length();
    lemma_component_le_length(v);
    lemma_abs_mul(v.x, m);
    lemma_abs_mul(v.y, m);
    lemma_abs_mul(v.z, m);
    lemma_mul_le(abs(v.x), abs(m), COMPONENT_LIMIT as int, i64::MAX as int);
    lemma_mul_le(abs(v.y), abs(m), COMPONENT_LIMIT as int, i64::MAX as int);
    lemma_mul_le(abs(v.z), abs(m), COMPONENT_LIMIT as int, i64::MAX as int);
    let k = abs(m);
    lemma_mul_le(abs(v.x), k, l, k);
    lemma_mul_le(abs(v.y), k, l, k);
    lemma_mul_le(abs(v.z), k, l, k);
    assert(l * k == k * l) by (nonlinear_arith);
    lemma_quot_le(v.x * m, l, k);
    lemma_quot_le(v.y * m, l, k);
    lemma_quot_le(v.z * m, l, k);
}

proof fn lemma_project_in_range(v: V3, n: V3)
    requires
        v.fits(4 * COORD_LIMIT),
        n.bounded(),
        n != V3::zero(),
    ensures
        component_fits(n.x, v.dot(n), n.norm_sq()),
        component_fits(n.y, v.dot(n), n.norm_sq()),
        component_fits(n.z, v.dot(n), n.norm_sq()),
{
    let lim = 4 * COORD_LIMIT;
    lemma_fits_length(v, lim);
    lemma_bounded_fits(n);
    lemma_project_fits(v, n);
    lemma_dot_range(v, n, lim);
    let d = v.dot(n);
    lemma_abs_mul(n.x, d);
    lemma_abs_mul(n.y, d);
    lemma_abs_mul(n.z, d);
    let small = COORD_LIMIT as int;
    let big = 3 * (lim * lim);
    assert(big == 48_000_000_000_000_000_000_000_000) by (nonlinear_arith)
        requires
            big == 3 * (lim * lim),
            lim == 4_000_000_000_000,
    ;
    lemma_mul_le(abs(n.x), abs(d), small, big);
    lemma_mul_le(abs(n.y), abs(d), small, big);
    lemma_mul_le(abs(n.z), abs(d), small, big);
    assert(small * big <= i128::MAX) by (nonlinear_arith)
        requires
            small == 1_000_000_000_000,
            big == 48_000_000_000_000_000_000_000_000,
    ;
}

/// Scaling by a factor of magnitude at most `k` a vector whose components
/// are at most `b` gives components of at most `b * k`.
pub proof fn lemma_scale_bounds(v: V3, num: int, den: int, b: int, k: int)
    requires
        den > 0,
        b >= 0,
        k >= 0,
        v.fits(b),
        abs(num) <= k * den,
    ensures
        v.scale(num, den).fits(b * k),
        abs(v.x * num) <= b * (k * den),
        abs(v.y * num) <= b * (k * den),
        abs(v.z * num) <= b * (k * den),
{
    lemma_abs_mul(v.x, num);
    lemma_abs_mul(v.y, num);
    lemma_abs_mul(v.z, num);
    lemma_mul_le(abs(v.x), abs(num), b, k * den);
    lemma_mul_le(abs(v.y), abs(num), b, k * den);
    lemma_mul_le(abs(v.z), abs(num), b, k * den);
    assert(b * (k * den) == (b * k) * den) by (nonlinear_arith);
    assert(b * k >= 0) by (nonlinear_arith)
        requires
            b >= 0,
            k >= 0,
    ;
    lemma_quot_le(v.x * num, den, b * k);
    lemma_quot_le(v.y * num, den, b * k);
    lemma_quot_le(v.z * num, den, b * k);
}

/// A vector no longer than `b` lies within `b` of the origin.
pub proof fn lemma_length_bounds_norm(v: V3, b: int)
    requires
        v.length() <= b,
    ensures
        v.norm_sq() <= b * b,
{
    lemma_sqrt_ceil(v.norm_sq());
    lemma_component_le_length(v);
    lemma_square_monotonic(v.length(), b);
}

/// A vector along `n` and a vector across `n` are across each other, and the
/// squared length of their sum is the sum of their squared lengths.
pub proof fn lemma_norm_across(n: V3, w: V3, t: V3)
    requires
        n != V3::zero(),
        w.parallel(n),
        t.dot(n) == 0,
    ensures
        w.dot(t) == 0,
        w.plus(t).norm_sq() == w.norm_sq() + t.norm_sq(),
        w.plus(t).norm_sq() >= t.norm_sq(),
{
    let nn = n.norm_sq();
    let d = w.dot(n);
    let wt = w.dot(t);
    lemma_length_zero(n);
    lemma_component_le_length(n);
    lemma_component_le_length(w);
    lemma_parallel_products(w, n);
    assert((w.x * nn) * t.x == nn * (w.x * t.x)) by (nonlinear_arith);
    assert((w.y * nn) * t.y == nn * (w.y * t.y)) by (nonlinear_arith);
    assert((w.z * nn) * t.z == nn * (w.z * t.z)) by (nonlinear_arith);
    assert((n.x * d) * t.x == d * (t.x * n.x)) by (nonlinear_arith);
    assert((n.y * d) * t.y == d * (t.y * n.y)) by (nonlinear_arith);
    assert((n.z * d) * t.z == d * (t.z * n.z)) by (nonlinear_arith);
    lemma_distribute(nn, w.x * t.x, w.y * t.y, w.z * t.z);
    lemma_distribute(d, t.x * n.x, t.y * n.y, t.z * n.z);
    assert(d * (t.x * n.x + t.y * n.y + t.z * n.z) == 0) by (nonlinear_arith)
        requires
            t.x * n.x + t.y * n.y + t.z * n.z == 0,
    ;
    assert(nn * wt == 0);
    assert(wt == 0) by (nonlinear_arith)
        requires
            nn * wt == 0,
            nn > 0,
    ;
    assert((w.x + t.x) * (w.x + t.x) == w.x * w.x + 2 * (w.x * t.x) + t.x * t.x)
        by (nonlinear_arith);
    assert((w.y + t.y) * (w.y + t.y) == w.y * w.y + 2 * (w.y * t.y) + t.y * t.y)
        by (nonlinear_arith);
    assert((w.z + t.z) * (w.z + t.z) == w.z * w.z + 2 * (w.z * t.z) + t.z * t.z)
        by (nonlinear_arith);
}

/// A component scaled by a factor that is not negative keeps its sign.
pub proof fn lemma_scale_sign(c: int, num: int, den: int)
    requires
        den > 0,
        num >= 0,
    ensures
        quot(c * num, den) * c >= 0,
        abs(c) * num >= den ==> quot(c * num, den) * c >= abs(c),
{
    let q = quot(c * num, den);
    lemma_quot_small(c * num, den);
    lemma_abs_mul(c, num);
    assert(c >= 0 ==> c * num >= 0) by (nonlinear_arith)
        requires
            num >= 0,
    ;
    assert(c <= 0 ==> c * num <= 0) by (nonlinear_arith)
        requires
            num >= 0,
    ;
    assert(q * c >= 0) by (nonlinear_arith)
        requires
            (c >= 0 && q >= 0) || (c <= 0 && q <= 0),
    ;
    if abs(c) * num >= den {
        let m = abs(c * num);
        assert(m / den >= 1) by (nonlinear_arith)
            requires
                m >= den,
                den > 0,
        ;
        assert(q * c >= abs(c)) by (nonlinear_arith)
            requires
                (c >= 0 && q >= 1) || (c <= 0 && q <= -1),
        ;
    }
}

/// Twice the longest component of a vector reaches its length.
pub proof fn lemma_longest_component(v: V3, c: int)
    requires
        c >= 0,
        v.fits(c),
    ensures
        2 * c >= v.length(),
{
    let l = v.length();
    lemma_sqrt_ceil(v.norm_sq());
    lemma_fits_length(v, c);
    if 2 * c < l {
        lemma_square_monotonic(2 * c, l - 1);
        assert((2 * c) * (2 * c) == 4 * (c * c)) by (nonlinear_arith);
        assert(c * c >= 0) by (nonlinear_arith);
    }
}

} // verus!
