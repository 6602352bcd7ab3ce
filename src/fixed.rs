//! Fixed-point scalars, vectors and rotation matrices.
//!
//! Every length, force, torque and rotation entry is an integer count of
//! thousandths: `1000` stands for `1.0`.
use vstd::prelude::*;

verus! {

/// The fixed-point representation of `1.0`.
pub const ONE: i64 = 1000;

/// Division of `a` by a positive `d`, rounding toward zero.
pub open spec fn tdiv(a: int, d: int) -> int {
    if a >= 0 {
        a / d
    } else {
        -((-a) / d)
    }
}

/// `x` lies in `[-b, b]`.
pub open spec fn within(x: int, b: int) -> bool {
    -b <= x <= b
}

/// `x` is a value of `i64` whose negation is one too.
pub open spec fn fits(x: int) -> bool {
    within(x, i64::MAX as int)
}

/// Division rounding toward zero never grows a value's magnitude.
pub proof fn lemma_tdiv_within(a: int, d: int, b: int)
    requires
        d >= 1,
        within(a, b),
    ensures
        within(tdiv(a, d), b),
        within(tdiv(a, d), b / d),
{
    if a >= 0 {
        assert(a / d <= b / d) by (nonlinear_arith)
            requires 0 <= a <= b, d >= 1;
        assert(b / d <= b) by (nonlinear_arith)
            requires 0 <= b, d >= 1;
        assert(0 <= a / d) by (nonlinear_arith)
            requires 0 <= a, d >= 1;
    } else {
        assert((-a) / d <= b / d) by (nonlinear_arith)
            requires 0 <= -a <= b, d >= 1;
        assert(b / d <= b) by (nonlinear_arith)
            requires 0 <= b, d >= 1;
        assert(0 <= (-a) / d) by (nonlinear_arith)
            requires 0 <= -a, d >= 1;
    }
}

/// Dividing an exact multiple gives the other factor back.
pub proof fn lemma_tdiv_mul(a: int, d: int)
    requires
        d >= 1,
    ensures
        tdiv(a * d, d) == a,
{
    if a >= 0 {
        assert(a * d >= 0 && (a * d) / d == a) by (nonlinear_arith)
            requires a >= 0, d >= 1;
    } else {
        assert(a * d < 0 && (-(a * d)) / d == -a) by (nonlinear_arith)
            requires a < 0, d >= 1;
    }
}

/// Executable division rounding toward zero.
pub fn div_toward_zero(a: i128, d: i128) -> (r: i128)
    requires
        d > 0,
        a > i128::MIN,
    ensures
        r == tdiv(a as int, d as int),
{
    if a >= 0 {
        a / d
    } else {
        let n: i128 = -a;
        -(n / d)
    }
}

/// `r` is the integer square root of `n`: the largest `r` with `r * r <= n`.
pub open spec fn is_isqrt(n: int, r: int) -> bool {
    0 <= r && r * r <= n < (r + 1) * (r + 1)
}

/// The integer square root of a non-negative `n`.
pub open spec fn isqrt(n: int) -> int {
    choose|r: int| is_isqrt(n, r)
}

/// A number has one integer square root at most.
pub proof fn lemma_isqrt_unique(n: int, r: int)
    requires
        is_isqrt(n, r),
    ensures
        isqrt(n) == r,
{
    assert(is_isqrt(n, isqrt(n)));
    let q = isqrt(n);
    if q < r {
        assert((q + 1) * (q + 1) <= r * r) by (nonlinear_arith)
            requires 0 <= q, q + 1 <= r;
    } else if r < q {
        assert((r + 1) * (r + 1) <= q * q) by (nonlinear_arith)
            requires 0 <= r, r + 1 <= q;
    }
}

/// The integer square root, found by bisection.
pub fn integer_sqrt(n: u64) -> (r: u64)
    ensures
        is_isqrt(n as int, r as int),
        r == isqrt(n as int),
{
    let mut lo: u64 = 0;
    let mut hi: u64 = 0x1_0000_0000;
    assert(n < hi * hi);
    while hi - lo > 1
        invariant
            lo < hi <= 0x1_0000_0000,
            lo * lo <= n,
            n < hi * hi,
        decreases hi - lo,
    {
        let mid: u64 = lo + (hi - lo) / 2;
        assert(mid * mid <= 0x1_0000_0000 * 0x1_0000_0000) by (nonlinear_arith)
            requires mid <= 0x1_0000_0000;
        let sq: u128 = mid as u128 * mid as u128;
        if sq <= n as u128 {
            lo = mid;
        } else {
            hi = mid;
        }
    }
    proof {
        lemma_isqrt_unique(n as int, lo as int);
    }
    lo
}

/// A vector of mathematical integers: the meaning of a [`Vec3`].
pub ghost struct V3 {
    pub x: int,
    pub y: int,
    pub z: int,
}

pub open spec fn v3(x: int, y: int, z: int) -> V3 {
    V3 { x, y, z }
}

pub open spec fn v3_add(a: V3, b: V3) -> V3 {
    v3(a.x + b.x, a.y + b.y, a.z + b.z)
}

pub open spec fn v3_sub(a: V3, b: V3) -> V3 {
    v3(a.x - b.x, a.y - b.y, a.z - b.z)
}

pub open spec fn v3_neg(a: V3) -> V3 {
    v3(-a.x, -a.y, -a.z)
}

/// `a` multiplied by the fixed-point factor `s`.
pub open spec fn v3_scale(a: V3, s: int) -> V3 {
    v3(tdiv(a.x * s, ONE as int), tdiv(a.y * s, ONE as int), tdiv(a.z * s, ONE as int))
}

/// The fixed-point cross product `a × b`.
pub open spec fn v3_cross(a: V3, b: V3) -> V3 {
    v3(
        tdiv(a.y * b.z - a.z * b.y, ONE as int),
        tdiv(a.z * b.x - a.x * b.z, ONE as int),
        tdiv(a.x * b.y - a.y * b.x, ONE as int),
    )
}

/// Every component of `a` lies in `[-b, b]`.
pub open spec fn v3_within(a: V3, b: int) -> bool {
    within(a.x, b) && within(a.y, b) && within(a.z, b)
}

/// The squared length of the part of `a` that is orthogonal to the vertical axis.
pub open spec fn horizontal_len2(a: V3) -> int {
    a.x * a.x + a.z * a.z
}

/// A fixed-point vector.
#[derive(Clone, Copy, Debug, PartialEq, Eq, Structural)]
pub struct Vec3 {
    pub x: i64,
    pub y: i64,
    pub z: i64,
}

impl View for Vec3 {
    type V = V3;

    open spec fn view(&self) -> V3 {
        v3(self.x as int, self.y as int, self.z as int)
    }
}

pub proof fn lemma_scale_within(a: V3, s: int, b: int)
    requires
        0 <= s <= ONE,
        b >= 0,
        v3_within(a, b),
    ensures
        v3_within(v3_scale(a, s), b),
{
    assert(within(a.x * s, b * ONE)) by (nonlinear_arith)
        requires 0 <= s <= ONE, within(a.x, b), b >= 0;
    assert(within(a.y * s, b * ONE)) by (nonlinear_arith)
        requires 0 <= s <= ONE, within(a.y, b), b >= 0;
    assert(within(a.z * s, b * ONE)) by (nonlinear_arith)
        requires 0 <= s <= ONE, within(a.z, b), b >= 0;
    assert((b * ONE) / (ONE as int) == b) by (nonlinear_arith);
    lemma_tdiv_within(a.x * s, ONE as int, b * ONE);
    lemma_tdiv_within(a.y * s, ONE as int, b * ONE);
    lemma_tdiv_within(a.z * s, ONE as int, b * ONE);
}

proof fn lemma_mul_diff_within(p: int, q: int, r: int, t: int, ba: int, bb: int)
    requires
        ba >= 0,
        bb >= 0,
        within(p, ba),
        within(q, bb),
        within(r, ba),
        within(t, bb),
    ensures
        within(p * q, ba * bb),
        within(r * t, ba * bb),
        within(p * q - r * t, 2 * ba * bb),
{
    assert(within(p * q, ba * bb)) by (nonlinear_arith)
        requires within(p, ba), within(q, bb), ba >= 0, bb >= 0;
    assert(within(r * t, ba * bb)) by (nonlinear_arith)
        requires within(r, ba), within(t, bb), ba >= 0, bb >= 0;
    assert(2 * ba * bb == ba * bb + ba * bb) by (nonlinear_arith);
}

pub proof fn lemma_cross_within(a: V3, b: V3, ba: int, bb: int)
    requires
        ba >= 0,
        bb >= 0,
        v3_within(a, ba),
        v3_within(b, bb),
    ensures
        v3_within(v3_cross(a, b), 2 * ba * bb),
{
    lemma_mul_diff_within(a.y, b.z, a.z, b.y, ba, bb);
    lemma_mul_diff_within(a.z, b.x, a.x, b.z, ba, bb);
    lemma_mul_diff_within(a.x, b.y, a.y, b.x, ba, bb);
    assert(within(a.y * b.z - a.z * b.y, 2 * ba * bb));
    assert(within(a.z * b.x - a.x * b.z, 2 * ba * bb));
    assert(within(a.x * b.y - a.y * b.x, 2 * ba * bb));
    lemma_tdiv_within(a.y * b.z - a.z * b.y, ONE as int, 2 * ba * bb);
    lemma_tdiv_within(a.z * b.x - a.x * b.z, ONE as int, 2 * ba * bb);
    lemma_tdiv_within(a.x * b.y - a.y * b.x, ONE as int, 2 * ba * bb);
}

impl Vec3 {
    pub fn new(x: i64, y: i64, z: i64) -> (r: Vec3)
        ensures
            r@ == v3(x as int, y as int, z as int),
    {
        Vec3 { x, y, z }
    }

    pub fn zero() -> (r: Vec3)
        ensures
            r@ == v3(0, 0, 0),
    {
        Vec3 { x: 0, y: 0, z: 0 }
    }

    pub open spec fn fits(&self) -> bool {
        fits(self.x as int) && fits(self.y as int) && fits(self.z as int)
    }

    pub fn add(&self, o: &Vec3) -> (r: Vec3)
        requires
            fits(self.x + o.x),
            fits(self.y + o.y),
            fits(self.z + o.z),
        ensures
            r@ == v3_add(self@, o@),
    {
        Vec3 { x: self.x + o.x, y: self.y + o.y, z: self.z + o.z }
    }

    pub fn sub(&self, o: &Vec3) -> (r: Vec3)
        requires
            fits(self.x - o.x),
            fits(self.y - o.y),
            fits(self.z - o.z),
        ensures
            r@ == v3_sub(self@, o@),
    {
        Vec3 { x: self.x - o.x, y: self.y - o.y, z: self.z - o.z }
    }

    pub fn neg(&self) -> (r: Vec3)
        requires
            self.fits(),
        ensures
            r@ == v3_neg(self@),
    {
        Vec3 { x: -self.x, y: -self.y, z: -self.z }
    }

    /// This vector multiplied by a fixed-point factor in `[0, 1]`.
    pub fn scale(&self, s: i64) -> (r: Vec3)
        requires
            0 <= s <= ONE,
            self.fits(),
        ensures
            r@ == v3_scale(self@, s as int),
    {
        proof {
            lemma_scale_within(self@, s as int, i64::MAX as int);
        }
        let k: i128 = ONE as i128;
        let x: i128 = div_toward_zero(self.x as i128 * s as i128, k);
        let y: i128 = div_toward_zero(self.y as i128 * s as i128, k);
        let z: i128 = div_toward_zero(self.z as i128 * s as i128, k);
        Vec3 { x: x as i64, y: y as i64, z: z as i64 }
    }

    /// The fixed-point cross product `self × o`.
    pub fn cross(&self, o: &Vec3) -> (r: Vec3)
        requires
            self.fits(),
            o.fits(),
            fits(v3_cross(self@, o@).x),
            fits(v3_cross(self@, o@).y),
            fits(v3_cross(self@, o@).z),
        ensures
            r@ == v3_cross(self@, o@),
    {
        let (ax, ay, az) = (self.x as i128, self.y as i128, self.z as i128);
        let (bx, by, bz) = (o.x as i128, o.y as i128, o.z as i128);
        proof {
            let m = i64::MAX as int;
            lemma_cross_within(self@, o@, m, m);
            lemma_mul_diff_within(ay as int, bz as int, az as int, by as int, m, m);
            lemma_mul_diff_within(az as int, bx as int, ax as int, bz as int, m, m);
            lemma_mul_diff_within(ax as int, by as int, ay as int, bx as int, m, m);
            assert(2 * m * m < i128::MAX);
        }
        let k: i128 = ONE as i128;
        let x: i128 = div_toward_zero(ay * bz - az * by, k);
        let y: i128 = div_toward_zero(az * bx - ax * bz, k);
        let z: i128 = div_toward_zero(ax * by - ay * bx, k);
        Vec3 { x: x as i64, y: y as i64, z: z as i64 }
    }
}

} // verus!
