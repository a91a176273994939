//! Planar vectors over fixed-point components.

use vstd::prelude::*;
use crate::fixed::{
    clamp, fx_add, fx_mul, fx_sub, isqrt, isqrt_u128, lemma_isqrt_exists, lemma_product_bounds,
    lemma_square_monotone, saturate, spec_fx_add, spec_fx_mul, spec_fx_sub, trunc_div, SCALE,
};

verus! {

/// A point or a displacement in the plane, in fixed-point units.
#[derive(Clone, Copy, PartialEq, Eq, Structural, Debug)]
pub struct Vec2 {
    pub x: i64,
    pub y: i64,
}

impl Vec2 {
    /// The origin.
    pub open spec fn spec_zero() -> Vec2 {
        Vec2 { x: 0, y: 0 }
    }

    /// Componentwise saturating sum.
    pub open spec fn spec_plus(self, other: Vec2) -> Vec2 {
        Vec2 { x: spec_fx_add(self.x, other.x), y: spec_fx_add(self.y, other.y) }
    }

    /// Componentwise saturating difference.
    pub open spec fn spec_minus(self, other: Vec2) -> Vec2 {
        Vec2 { x: spec_fx_sub(self.x, other.x), y: spec_fx_sub(self.y, other.y) }
    }

    /// Both components multiplied by the fixed-point factor `k`.
    pub open spec fn spec_scaled(self, k: i64) -> Vec2 {
        Vec2 { x: spec_fx_mul(self.x, k), y: spec_fx_mul(self.y, k) }
    }

    /// Fixed-point dot product.
    pub open spec fn spec_dot(self, other: Vec2) -> i64 {
        spec_fx_add(spec_fx_mul(self.x, other.x), spec_fx_mul(self.y, other.y))
    }

    /// The exact squared length, in squared fixed-point steps.
    pub open spec fn norm_sq(self) -> int {
        self.x * self.x + self.y * self.y
    }

    /// The length, rounded down to a whole fixed-point step and saturating.
    pub open spec fn spec_length(self) -> i64 {
        clamp(isqrt(self.norm_sq()))
    }

    /// The vector divided by its length, which is first rounded down to a
    /// whole step: a vector of about unit length along `self`, or zero for
    /// the zero vector.
    pub open spec fn spec_normalize_or_zero(self) -> Vec2 {
        let len = isqrt(self.norm_sq());
        if len == 0 {
            Vec2::spec_zero()
        } else {
            Vec2 {
                x: clamp(trunc_div(self.x * SCALE, len)),
                y: clamp(trunc_div(self.y * SCALE, len)),
            }
        }
    }

    /// The vector `self`, given in a frame whose forward axis (+y) points
    /// along the unit vector `facing`, expressed in world axes.
    pub open spec fn spec_rotated_to(self, facing: Vec2) -> Vec2 {
        Vec2 {
            x: spec_fx_add(spec_fx_mul(self.x, facing.y), spec_fx_mul(self.y, facing.x)),
            y: spec_fx_sub(spec_fx_mul(self.y, facing.y), spec_fx_mul(self.x, facing.x)),
        }
    }

    #[verifier::when_used_as_spec(spec_zero)]
    pub fn zero() -> (r: Vec2)
        ensures
            r == Vec2::spec_zero(),
    {
        Vec2 { x: 0, y: 0 }
    }

    pub fn new(x: i64, y: i64) -> (r: Vec2)
        ensures
            r == (Vec2 { x, y }),
    {
        Vec2 { x, y }
    }

    #[verifier::when_used_as_spec(spec_plus)]
    pub fn plus(self, other: Vec2) -> (r: Vec2)
        ensures
            r == self.spec_plus(other),
    {
        Vec2 { x: fx_add(self.x, other.x), y: fx_add(self.y, other.y) }
    }

    #[verifier::when_used_as_spec(spec_minus)]
    pub fn minus(self, other: Vec2) -> (r: Vec2)
        ensures
            r == self.spec_minus(other),
    {
        Vec2 { x: fx_sub(self.x, other.x), y: fx_sub(self.y, other.y) }
    }

    #[verifier::when_used_as_spec(spec_scaled)]
    pub fn scaled(self, k: i64) -> (r: Vec2)
        ensures
            r == self.spec_scaled(k),
    {
        Vec2 { x: fx_mul(self.x, k), y: fx_mul(self.y, k) }
    }

    #[verifier::when_used_as_spec(spec_dot)]
    pub fn dot(self, other: Vec2) -> (r: i64)
        ensures
            r == self.spec_dot(other),
    {
        fx_add(fx_mul(self.x, other.x), fx_mul(self.y, other.y))
    }

    /// The exact squared length.
    pub fn length_squared(self) -> (r: u128)
        ensures
            r == self.norm_sq(),
    {
        proof {
            lemma_product_bounds(self.x, self.x);
            lemma_product_bounds(self.y, self.y);
            assert(self.x * self.x >= 0) by (nonlinear_arith);
            assert(self.y * self.y >= 0) by (nonlinear_arith);
        }
        let xx: i128 = (self.x as i128) * (self.x as i128);
        let yy: i128 = (self.y as i128) * (self.y as i128);
        (xx as u128) + (yy as u128)
    }

    #[verifier::when_used_as_spec(spec_length)]
    pub fn length(self) -> (r: i64)
        ensures
            r == self.spec_length(),
    {
        let root: u64 = isqrt_u128(self.length_squared());
        if root > i64::MAX as u64 {
            i64::MAX
        } else {
            root as i64
        }
    }

    #[verifier::when_used_as_spec(spec_normalize_or_zero)]
    pub fn normalize_or_zero(self) -> (r: Vec2)
        ensures
            r == self.spec_normalize_or_zero(),
    {
        let len: u64 = isqrt_u128(self.length_squared());
        if len == 0 {
            return Vec2::zero();
        }
        proof {
            lemma_product_bounds(self.x, SCALE);
            lemma_product_bounds(self.y, SCALE);
        }
        let x: i128 = (self.x as i128) * (SCALE as i128);
        let y: i128 = (self.y as i128) * (SCALE as i128);
        Vec2 { x: saturate(x / (len as i128)), y: saturate(y / (len as i128)) }
    }

    #[verifier::when_used_as_spec(spec_rotated_to)]
    pub fn rotated_to(self, facing: Vec2) -> (r: Vec2)
        ensures
            r == self.spec_rotated_to(facing),
    {
        Vec2 {
            x: fx_add(fx_mul(self.x, facing.y), fx_mul(self.y, facing.x)),
            y: fx_sub(fx_mul(self.y, facing.y), fx_mul(self.x, facing.x)),
        }
    }
}

/// No component of a vector exceeds the vector's length.
pub proof fn lemma_component_within_length(v: Vec2)
    ensures
        -isqrt(v.norm_sq()) <= v.x <= isqrt(v.norm_sq()),
        -isqrt(v.norm_sq()) <= v.y <= isqrt(v.norm_sq()),
{
    let len = isqrt(v.norm_sq());
    assert(v.x * v.x >= 0 && v.y * v.y >= 0) by (nonlinear_arith);
    lemma_isqrt_exists(v.norm_sq());
    if v.x > len {
        lemma_square_monotone(len + 1, v.x as int);
    }
    if -v.x > len {
        lemma_square_monotone(len + 1, -v.x);
        assert((-v.x) * (-v.x) == v.x * v.x) by (nonlinear_arith);
    }
    if v.y > len {
        lemma_square_monotone(len + 1, v.y as int);
    }
    if -v.y > len {
        lemma_square_monotone(len + 1, -v.y);
        assert((-v.y) * (-v.y) == v.y * v.y) by (nonlinear_arith);
    }
}

/// A normalized vector points the way the vector did, no component of it
/// is longer than a whole unit, and it is zero only for the zero vector.
pub proof fn lemma_normalized_within_unit(v: Vec2)
    ensures
        -SCALE <= v.spec_normalize_or_zero().x <= SCALE,
        -SCALE <= v.spec_normalize_or_zero().y <= SCALE,
        v.x >= 0 ==> v.spec_normalize_or_zero().x >= 0,
        v.x <= 0 ==> v.spec_normalize_or_zero().x <= 0,
        v.y >= 0 ==> v.spec_normalize_or_zero().y >= 0,
        v.y <= 0 ==> v.spec_normalize_or_zero().y <= 0,
        (v == Vec2::spec_zero()) <==> (v.spec_normalize_or_zero() == Vec2::spec_zero()),
{
    let len = isqrt(v.norm_sq());
    assert(v.x * v.x >= 0 && v.y * v.y >= 0) by (nonlinear_arith);
    lemma_component_within_length(v);
    lemma_isqrt_exists(v.norm_sq());
    if len > 0 {
        lemma_scaled_quotient(v.x as int, len);
        lemma_scaled_quotient(v.y as int, len);
        let x: int = if v.x >= 0 {
            v.x as int
        } else {
            -v.x
        };
        let y: int = if v.y >= 0 {
            v.y as int
        } else {
            -v.y
        };
        assert(x * x == v.x * v.x && y * y == v.y * v.y) by (nonlinear_arith)
            requires
                x == v.x || x == -v.x,
                y == v.y || y == -v.y,
        ;
        if x >= y {
            lemma_square_monotone(y, x);
            lemma_longer_component(x, len);
            lemma_scaled_quotient_nonzero(v.x as int, len);
        } else {
            lemma_square_monotone(x, y);
            lemma_longer_component(y, len);
            lemma_scaled_quotient_nonzero(v.y as int, len);
        }
    } else {
        assert(v.x == 0 && v.y == 0);
    }
    if v == Vec2::spec_zero() {
        assert(v.norm_sq() == 0) by (nonlinear_arith)
            requires
                v.x == 0,
                v.y == 0,
                v.norm_sq() == v.x * v.x + v.y * v.y,
        ;
        if len > 0 {
            lemma_square_monotone(1, len);
        }
    }
}

/// For `-len <= a <= len`, the quotient of `a * SCALE` by `len` lies within
/// a whole unit and has the sign of `a`.
proof fn lemma_scaled_quotient(a: int, len: int)
    requires
        len > 0,
        -len <= a <= len,
    ensures
        -SCALE <= trunc_div(a * SCALE, len) <= SCALE,
        a >= 0 ==> trunc_div(a * SCALE, len) >= 0,
        a <= 0 ==> trunc_div(a * SCALE, len) <= 0,
{
    let s = SCALE as int;
    if a >= 0 {
        assert(0 <= a * s <= len * s) by (nonlinear_arith)
            requires
                0 <= a <= len,
                s > 0,
        ;
        assert(0 <= (a * s) / len <= s) by (nonlinear_arith)
            requires
                0 <= a * s <= len * s,
                len > 0,
        ;
    } else {
        assert(0 <= -(a * s) <= len * s) by (nonlinear_arith)
            requires
                0 <= -a <= len,
                s > 0,
        ;
        assert(0 <= (-(a * s)) / len <= s) by (nonlinear_arith)
            requires
                0 <= -(a * s) <= len * s,
                len > 0,
        ;
    }
}

/// Of two components, the longer one, times [`SCALE`], is at least as long
/// as the vector.
proof fn lemma_longer_component(longer: int, len: int)
    requires
        len > 0,
        0 <= longer,
        len * len <= 2 * (longer * longer),
    ensures
        longer * SCALE >= len,
{
    if longer * SCALE < len {
        assert(2 * longer <= longer * SCALE) by (nonlinear_arith)
            requires
                longer >= 0,
                SCALE >= 2,
        ;
        lemma_square_monotone(2 * longer + 1, len);
        assert((2 * longer + 1) * (2 * longer + 1) > 2 * (longer * longer)) by (nonlinear_arith)
            requires
                longer >= 0,
        ;
    }
}

/// Where `a`, times [`SCALE`], is at least as long as `len`, the quotient
/// of `a * SCALE` by `len` is not zero.
proof fn lemma_scaled_quotient_nonzero(a: int, len: int)
    requires
        len > 0,
        a * SCALE >= len || -(a * SCALE) >= len,
    ensures
        trunc_div(a * SCALE, len) != 0,
{
    let s = SCALE as int;
    if a * s >= len {
        assert((a * s) / len >= 1) by (nonlinear_arith)
            requires
                a * s >= len,
                len > 0,
        ;
    } else {
        assert((-(a * s)) / len >= 1) by (nonlinear_arith)
            requires
                -(a * s) >= len,
                len > 0,
        ;
    }
}

/// For `0 <= a <= len`, the quotient `q` of `a * SCALE` by `len` is between
/// nothing and a whole unit, and `a * SCALE` lies between the squares of
/// `q * len` and `(q + 1) * len`.
proof fn lemma_component_quotient(a: int, len: int)
    requires
        len > 0,
        0 <= a <= len,
    ensures
        ({
            let q = (a * SCALE) / len;
            &&& 0 <= q <= SCALE
            &&& (q * q) * (len * len) <= (SCALE * SCALE) * (a * a)
            &&& ((q + 1) * (q + 1)) * (len * len) > (SCALE * SCALE) * (a * a)
        }),
{
    let s = SCALE as int;
    let w = a * s;
    let q = w / len;
    assert(0 <= w <= len * s) by (nonlinear_arith)
        requires
            0 <= a <= len,
            s > 0,
            w == a * s,
    ;
    assert(w == len * q + w % len && 0 <= w % len < len && 0 <= q <= s) by (nonlinear_arith)
        requires
            q == w / len,
            len > 0,
            0 <= w <= len * s,
    ;
    let low = q * len;
    let high = (q + 1) * len;
    assert(0 <= low <= w && w + 1 <= high) by (nonlinear_arith)
        requires
            w == len * q + w % len,
            0 <= w % len < len,
            q >= 0,
            low == q * len,
            high == (q + 1) * len,
    ;
    lemma_square_monotone(low, w);
    lemma_square_monotone(w + 1, high);
    assert(low * low == (q * q) * (len * len)) by (nonlinear_arith)
        requires
            low == q * len,
    ;
    assert(high * high == ((q + 1) * (q + 1)) * (len * len)) by (nonlinear_arith)
        requires
            high == (q + 1) * len,
    ;
    assert(w * w == (s * s) * (a * a)) by (nonlinear_arith)
        requires
            w == a * s,
    ;
    assert((w + 1) * (w + 1) > w * w) by (nonlinear_arith)
        requires
            w >= 0,
    ;
}

/// Two components whose squares add up to less than `(SCALE - 2)` squared
/// stay, each one step longer, within a unit.
proof fn lemma_short_stays_short(qx: int, qy: int)
    requires
        0 <= qx,
        0 <= qy,
        qx * qx + qy * qy < (SCALE - 2) * (SCALE - 2),
    ensures
        (qx + 1) * (qx + 1) + (qy + 1) * (qy + 1) <= SCALE * SCALE,
{
    let t = qx + qy;
    let q = qx * qx + qy * qy;
    let bound: int = 3 * (SCALE - 2);
    assert(t * t <= 2 * q) by (nonlinear_arith)
        requires
            t == qx + qy,
            q == qx * qx + qy * qy,
    ;
    assert((SCALE - 2) * (SCALE - 2) == 999_996_000_004) by (nonlinear_arith)
        requires
            SCALE == 1_000_000,
    ;
    assert(bound * bound == 8_999_964_000_036) by (nonlinear_arith)
        requires
            bound == 2_999_994,
    ;
    if 2 * t >= bound {
        lemma_square_monotone(bound, 2 * t);
        assert((2 * t) * (2 * t) == 4 * (t * t)) by (nonlinear_arith);
    }
    assert((qx + 1) * (qx + 1) + (qy + 1) * (qy + 1) == q + 2 * t + 2) by (nonlinear_arith)
        requires
            t == qx + qy,
            q == qx * qx + qy * qy,
    ;
    assert(SCALE * SCALE == 1_000_000_000_000) by (nonlinear_arith)
        requires
            SCALE == 1_000_000,
    ;
}

/// How far a normalized vector is from unit length. Its length is never
/// more than two steps short of a unit. It exceeds a unit by less than one
/// part in the length of the vector it came from, in steps: for a vector
/// of a unit or longer, its length lies between `SCALE - 2` and `SCALE`.
/// Only a vector of a few steps' length comes out much longer than a unit.
pub proof fn lemma_normalized_length(v: Vec2)
    requires
        v != Vec2::spec_zero(),
    ensures
        ({
            let len = isqrt(v.norm_sq());
            let unit = v.spec_normalize_or_zero();
            &&& len >= 1
            &&& (SCALE - 2) * (SCALE - 2) <= unit.norm_sq()
            &&& unit.norm_sq() * (len * len) <= (SCALE * SCALE) * v.norm_sq()
            &&& SCALE - 2 <= isqrt(unit.norm_sq())
            &&& isqrt(unit.norm_sq()) * len < SCALE * (len + 1)
            &&& len >= SCALE ==> isqrt(unit.norm_sq()) <= SCALE
        }),
{
    let s = SCALE as int;
    let len = isqrt(v.norm_sq());
    let unit = v.spec_normalize_or_zero();
    let n = v.norm_sq();
    assert(v.x * v.x >= 0 && v.y * v.y >= 0) by (nonlinear_arith);
    lemma_isqrt_exists(n);
    lemma_component_within_length(v);
    lemma_normalized_within_unit(v);
    assert(len >= 1) by {
        if len == 0 {
            assert(n < 1);
            assert(v.x * v.x >= 1 || v.y * v.y >= 1) by (nonlinear_arith)
                requires
                    v.x != 0 || v.y != 0,
            ;
        }
    }
    let ax: int = if v.x >= 0 {
        v.x as int
    } else {
        -v.x
    };
    let ay: int = if v.y >= 0 {
        v.y as int
    } else {
        -v.y
    };
    let qx = (ax * s) / len;
    let qy = (ay * s) / len;
    lemma_component_quotient(ax, len);
    lemma_component_quotient(ay, len);
    assert(ax * ax == v.x * v.x && ay * ay == v.y * v.y) by (nonlinear_arith)
        requires
            ax == v.x || ax == -v.x,
            ay == v.y || ay == -v.y,
    ;
    assert(unit.x == qx || unit.x == -qx) by {
        assert((-v.x) * s == -(v.x * s)) by (nonlinear_arith);
    }
    assert(unit.y == qy || unit.y == -qy) by {
        assert((-v.y) * s == -(v.y * s)) by (nonlinear_arith);
    }
    let q = unit.norm_sq();
    assert(q == qx * qx + qy * qy) by (nonlinear_arith)
        requires
            unit.x == qx || unit.x == -qx,
            unit.y == qy || unit.y == -qy,
            q == unit.x * unit.x + unit.y * unit.y,
    ;
    let ll = len * len;
    let ss = s * s;
    assert(ll >= 1) by (nonlinear_arith)
        requires
            len >= 1,
            ll == len * len,
    ;
    // The upper bound.
    assert(q * ll <= ss * n) by (nonlinear_arith)
        requires
            q == qx * qx + qy * qy,
            n == ax * ax + ay * ay,
            (qx * qx) * ll <= ss * (ax * ax),
            (qy * qy) * ll <= ss * (ay * ay),
    ;
    // The lower bound.
    let longer = (qx + 1) * (qx + 1) + (qy + 1) * (qy + 1);
    assert(longer * ll > ss * n) by (nonlinear_arith)
        requires
            longer == (qx + 1) * (qx + 1) + (qy + 1) * (qy + 1),
            n == ax * ax + ay * ay,
            ((qx + 1) * (qx + 1)) * ll > ss * (ax * ax),
            ((qy + 1) * (qy + 1)) * ll > ss * (ay * ay),
    ;
    assert(ss * n >= ss * ll) by (nonlinear_arith)
        requires
            n >= ll,
            ss >= 0,
    ;
    assert(longer > ss) by (nonlinear_arith)
        requires
            longer * ll > ss * ll,
            ll >= 1,
    ;
    if q < (s - 2) * (s - 2) {
        lemma_short_stays_short(qx, qy);
    }
    // The length itself.
    assert(q >= 0) by (nonlinear_arith)
        requires
            q == qx * qx + qy * qy,
    ;
    lemma_isqrt_exists(q);
    let root = isqrt(q);
    if root + 1 <= s - 2 {
        lemma_square_monotone(root + 1, s - 2);
    }
    let next = (len + 1) * (len + 1);
    assert(ss * n < ss * next) by (nonlinear_arith)
        requires
            n < next,
            ss > 0,
    ;
    assert((root * len) * (root * len) == (root * root) * ll) by (nonlinear_arith)
        requires
            ll == len * len,
    ;
    assert((s * (len + 1)) * (s * (len + 1)) == ss * next) by (nonlinear_arith)
        requires
            ss == s * s,
            next == (len + 1) * (len + 1),
    ;
    assert((root * root) * ll <= q * ll) by (nonlinear_arith)
        requires
            root * root <= q,
            ll >= 0,
    ;
    assert(root * len >= 0 && s * (len + 1) >= 0) by (nonlinear_arith)
        requires
            root >= 0,
            len >= 1,
            s > 0,
    ;
    if root * len >= s * (len + 1) {
        lemma_square_monotone(s * (len + 1), root * len);
    }
    if len >= s && root > s {
        assert(root * len >= (s + 1) * len) by (nonlinear_arith)
            requires
                root >= s + 1,
                len >= 1,
        ;
        assert((s + 1) * len >= s * (len + 1)) by (nonlinear_arith)
            requires
                len >= s,
        ;
    }
}

} // verus!
