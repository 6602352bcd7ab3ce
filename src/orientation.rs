//! Rotations as fixed-point matrices, and headings: rotations about the
//! vertical axis alone.
use vstd::prelude::*;
use crate::fixed::{
    div_toward_zero, integer_sqrt, is_isqrt, isqrt, lemma_tdiv_mul, lemma_tdiv_within, tdiv, v3, v3_within, within, Vec3, V3,
    ONE,
};

verus! {

/// A rotation matrix in fixed point, row by row: `xy` is the entry in row
/// `x`, column `y`.
#[derive(Clone, Copy, Debug, PartialEq, Eq, Structural)]
pub struct Rot3 {
    pub xx: i64,
    pub xy: i64,
    pub xz: i64,
    pub yx: i64,
    pub yy: i64,
    pub yz: i64,
    pub zx: i64,
    pub zy: i64,
    pub zz: i64,
}

/// One row of a matrix applied to `v`.
pub open spec fn row_apply(a: int, b: int, c: int, v: V3) -> int {
    tdiv(a * v.x + b * v.y + c * v.z, ONE as int)
}

/// The fixed-point product `m · v`.
pub open spec fn rot_apply(m: Rot3, v: V3) -> V3 {
    v3(
        row_apply(m.xx as int, m.xy as int, m.xz as int, v),
        row_apply(m.yx as int, m.yy as int, m.yz as int, v),
        row_apply(m.zx as int, m.zy as int, m.zz as int, v),
    )
}

pub open spec fn rot_identity() -> Rot3 {
    Rot3 { xx: ONE, xy: 0, xz: 0, yx: 0, yy: ONE, yz: 0, zx: 0, zy: 0, zz: ONE }
}

/// The largest value whose components a matrix may be applied to.
pub const APPLY_MAX: i64 = 1_000_000_000_000_000;

proof fn lemma_row_within(a: int, b: int, c: int, v: V3, bound: int)
    requires
        within(a, ONE as int),
        within(b, ONE as int),
        within(c, ONE as int),
        v3_within(v, bound),
        bound >= 0,
    ensures
        within(a * v.x, ONE * bound),
        within(b * v.y, ONE * bound),
        within(c * v.z, ONE * bound),
        within(a * v.x + b * v.y + c * v.z, 3 * ONE * bound),
        within(row_apply(a, b, c, v), 3 * bound),
{
    assert(within(a * v.x, ONE * bound)) by (nonlinear_arith)
        requires within(a, ONE as int), within(v.x, bound), bound >= 0;
    assert(within(b * v.y, ONE * bound)) by (nonlinear_arith)
        requires within(b, ONE as int), within(v.y, bound), bound >= 0;
    assert(within(c * v.z, ONE * bound)) by (nonlinear_arith)
        requires within(c, ONE as int), within(v.z, bound), bound >= 0;
    assert(ONE * bound == 1000 * bound);
    assert(3 * ONE * bound == 3000 * bound);
    lemma_tdiv_within(a * v.x + b * v.y + c * v.z, ONE as int, 3 * ONE * bound);
    assert((3 * ONE * bound) / (ONE as int) == 3 * bound) by (nonlinear_arith);
}

/// Applying a well-formed matrix at most triples a vector's components.
pub proof fn lemma_apply_within(m: Rot3, v: V3, bound: int)
    requires
        m.wf(),
        v3_within(v, bound),
        bound >= 0,
    ensures
        v3_within(rot_apply(m, v), 3 * bound),
{
    lemma_row_within(m.xx as int, m.xy as int, m.xz as int, v, bound);
    lemma_row_within(m.yx as int, m.yy as int, m.yz as int, v, bound);
    lemma_row_within(m.zx as int, m.zy as int, m.zz as int, v, bound);
}

/// The identity matrix leaves every vector as it is.
pub proof fn lemma_apply_identity(v: V3)
    ensures
        rot_apply(rot_identity(), v) == v,
{
    lemma_tdiv_mul(v.x, ONE as int);
    lemma_tdiv_mul(v.y, ONE as int);
    lemma_tdiv_mul(v.z, ONE as int);
    assert(ONE * v.x + 0 * v.y + 0 * v.z == v.x * ONE);
    assert(0 * v.x + ONE * v.y + 0 * v.z == v.y * ONE);
    assert(0 * v.x + 0 * v.y + ONE * v.z == v.z * ONE);
}

impl Rot3 {
    /// Every entry lies in `[-1, 1]`.
    pub open spec fn wf(&self) -> bool {
        &&& within(self.xx as int, ONE as int)
        &&& within(self.xy as int, ONE as int)
        &&& within(self.xz as int, ONE as int)
        &&& within(self.yx as int, ONE as int)
        &&& within(self.yy as int, ONE as int)
        &&& within(self.yz as int, ONE as int)
        &&& within(self.zx as int, ONE as int)
        &&& within(self.zy as int, ONE as int)
        &&& within(self.zz as int, ONE as int)
    }

    pub fn identity() -> (r: Rot3)
        ensures
            r == rot_identity(),
            r.wf(),
    {
        Rot3 { xx: ONE, xy: 0, xz: 0, yx: 0, yy: ONE, yz: 0, zx: 0, zy: 0, zz: ONE }
    }

    /// The rotated vector `self · v`.
    pub fn apply(&self, v: &Vec3) -> (r: Vec3)
        requires
            self.wf(),
            v3_within(v@, APPLY_MAX as int),
        ensures
            r@ == rot_apply(*self, v@),
    {
        proof {
            let b = APPLY_MAX as int;
            lemma_row_within(self.xx as int, self.xy as int, self.xz as int, v@, b);
            lemma_row_within(self.yx as int, self.yy as int, self.yz as int, v@, b);
            lemma_row_within(self.zx as int, self.zy as int, self.zz as int, v@, b);
        }
        let (x, y, z) = (v.x as i128, v.y as i128, v.z as i128);
        let k: i128 = ONE as i128;
        let rx: i128 = div_toward_zero(
            self.xx as i128 * x + self.xy as i128 * y + self.xz as i128 * z,
            k,
        );
        let ry: i128 = div_toward_zero(
            self.yx as i128 * x + self.yy as i128 * y + self.yz as i128 * z,
            k,
        );
        let rz: i128 = div_toward_zero(
            self.zx as i128 * x + self.zy as i128 * y + self.zz as i128 * z,
            k,
        );
        Vec3 { x: rx as i64, y: ry as i64, z: rz as i64 }
    }
}

/// A rotation about the vertical axis alone, held as the fixed-point cosine
/// and sine of its angle.
#[derive(Clone, Copy, Debug, PartialEq, Eq, Structural)]
pub struct Heading {
    pub cos: i64,
    pub sin: i64,
}

/// The matrix of a heading: a rotation about the `y` axis.
pub open spec fn heading_rot(h: Heading) -> Rot3 {
    Rot3 {
        xx: h.cos,
        xy: 0,
        xz: h.sin,
        yx: 0,
        yy: ONE,
        yz: 0,
        zx: (-h.sin) as i64,
        zy: 0,
        zz: h.cos,
    }
}

/// How far `c² + s²` may lie from one (in squared fixed-point units) for a
/// heading to count as of unit length.
pub const HEADING_TOLERANCE: i64 = 3 * ONE;

/// `(c, s)` lies on the unit circle up to the heading tolerance.
pub open spec fn near_unit(c: int, s: int) -> bool {
    within(c * c + s * s - ONE * ONE, HEADING_TOLERANCE as int)
}

/// The heading of a rotation `m`, with pitch and roll dropped: the direction of
/// `m`'s forward axis (its third column, `(xz, yz, zz)`) projected onto the
/// horizontal plane, scaled to unit length. A projection that already has unit
/// length up to the tolerance is kept as it is; one that vanishes gives the
/// heading straight ahead. Otherwise the projection is divided by its length,
/// taken in units of `1 / ONE` so that a short projection keeps its direction.
pub open spec fn heading_of(m: Rot3) -> Heading {
    let a = m.xz as int;
    let b = m.zz as int;
    if a == 0 && b == 0 {
        Heading { cos: ONE, sin: 0 }
    } else if near_unit(b, a) {
        Heading { cos: m.zz, sin: m.xz }
    } else {
        let h = isqrt((a * a + b * b) * (ONE * ONE));
        Heading {
            cos: tdiv(b * (ONE * ONE), h) as i64,
            sin: tdiv(a * (ONE * ONE), h) as i64,
        }
    }
}

/// Bounds on a normalised direction: for `a, b` in `[0, 1]`, not both zero,
/// the quotients `b / |(a, b)|` and `a / |(a, b)|`, truncated, lie in `[0, 1]`
/// and on the unit circle up to the heading tolerance.
proof fn lemma_normalized_bounds(a: int, b: int, h: int, c: int, s: int)
    requires
        0 <= a <= ONE,
        0 <= b <= ONE,
        a * a + b * b >= 1,
        is_isqrt((a * a + b * b) * (ONE * ONE), h),
        h >= 1,
        c == (b * (ONE * ONE)) / h,
        s == (a * (ONE * ONE)) / h,
    ensures
        0 <= c <= ONE,
        0 <= s <= ONE,
        near_unit(c, s),
{
    let k: int = ONE * ONE;
    let n: int = a * a + b * b;
    assert(k == 1_000_000);
    assert(n * k >= k) by (nonlinear_arith)
        requires n >= 1, k == 1_000_000;
    assert(h >= 1000) by (nonlinear_arith)
        requires (h + 1) * (h + 1) > n * k, n * k >= k, k == 1_000_000, h >= 0;
    assert(b * 1000 <= h && a * 1000 <= h) by (nonlinear_arith)
        requires
            (h + 1) * (h + 1) > n * k,
            n == a * a + b * b,
            k == 1_000_000,
            h >= 0,
            a >= 0,
            b >= 0,
    ;
    vstd::arithmetic::div_mod::lemma_fundamental_div_mod(b * k, h);
    vstd::arithmetic::div_mod::lemma_fundamental_div_mod(a * k, h);
    vstd::arithmetic::div_mod::lemma_mod_pos_bound(b * k, h);
    vstd::arithmetic::div_mod::lemma_mod_pos_bound(a * k, h);
    let rb = (b * k) % h;
    let ra = (a * k) % h;
    assert(c * h <= b * k < c * h + h);
    assert(s * h <= a * k < s * h + h);
    assert(0 <= c) by (nonlinear_arith)
        requires c * h <= b * k, b * k < c * h + h, b >= 0, k >= 0, h >= 1;
    assert(0 <= s) by (nonlinear_arith)
        requires s * h <= a * k, a * k < s * h + h, a >= 0, k >= 0, h >= 1;
    assert(c <= 1000) by (nonlinear_arith)
        requires c * h <= b * k, k == 1_000_000, b * 1000 <= h, h >= 1;
    assert(s <= 1000) by (nonlinear_arith)
        requires s * h <= a * k, k == 1_000_000, a * 1000 <= h, h >= 1;
    // upper bound
    assert((c * c + s * s) * (h * h) <= n * k * k) by (nonlinear_arith)
        requires
            0 <= c * h <= b * k,
            0 <= s * h <= a * k,
            n == a * a + b * b,
            c >= 0,
            s >= 0,
            h >= 1,
    ;
    assert(c * c + s * s <= k + 3000) by (nonlinear_arith)
        requires
            (c * c + s * s) * (h * h) <= n * k * k,
            n * k < (h + 1) * (h + 1),
            k == 1_000_000,
            h >= 1000,
    ;
    // lower bound
    assert(b * k >= 0 && a * k >= 0) by (nonlinear_arith)
        requires a >= 0, b >= 0, k >= 0;
    assert(c * h + h == (c + 1) * h && s * h + h == (s + 1) * h) by (nonlinear_arith);
    assert((b * k) * (b * k) < ((c + 1) * h) * ((c + 1) * h)) by (nonlinear_arith)
        requires 0 <= b * k < (c + 1) * h;
    assert((a * k) * (a * k) < ((s + 1) * h) * ((s + 1) * h)) by (nonlinear_arith)
        requires 0 <= a * k < (s + 1) * h;
    assert(n * k * k == (b * k) * (b * k) + (a * k) * (a * k)) by (nonlinear_arith)
        requires n == a * a + b * b;
    assert(((c + 1) * (c + 1) + (s + 1) * (s + 1)) * (h * h) == ((c + 1) * h) * ((c + 1) * h) + (
    (s + 1) * h) * ((s + 1) * h)) by (nonlinear_arith);
    assert(k < (c + 1) * (c + 1) + (s + 1) * (s + 1)) by (nonlinear_arith)
        requires
            n * k * k < ((c + 1) * (c + 1) + (s + 1) * (s + 1)) * (h * h),
            h * h <= n * k,
            k >= 1,
            h >= 1,
    ;
    assert(c + s <= 1416) by (nonlinear_arith)
        requires c * c + s * s <= 1_003_000, c >= 0, s >= 0;
    assert(c * c + s * s >= k - 3000) by (nonlinear_arith)
        requires k < (c + 1) * (c + 1) + (s + 1) * (s + 1), c + s <= 1416, c >= 0, s >= 0;
}

/// Being of unit length does not depend on the signs of cosine and sine.
proof fn lemma_near_unit_sign(c: int, s: int)
    ensures
        near_unit(c, s) == near_unit(-c, s),
        near_unit(c, s) == near_unit(c, -s),
{
    assert((-c) * (-c) == c * c) by (nonlinear_arith);
    assert((-s) * (-s) == s * s) by (nonlinear_arith);
}

impl Heading {
    /// Cosine and sine lie in `[-1, 1]`.
    pub open spec fn wf(&self) -> bool {
        within(self.cos as int, ONE as int) && within(self.sin as int, ONE as int)
    }

    /// Cosine and sine lie exactly on the unit circle.
    pub open spec fn is_unit(&self) -> bool {
        self.cos * self.cos + self.sin * self.sin == ONE * ONE
    }

    /// Cosine and sine lie on the unit circle up to the heading tolerance.
    pub open spec fn is_near_unit(&self) -> bool {
        near_unit(self.cos as int, self.sin as int)
    }

    /// The heading of angle zero.
    pub fn straight() -> (r: Heading)
        ensures
            r == (Heading { cos: ONE, sin: 0 }),
            r.wf(),
            r.is_near_unit(),
    {
        assert(near_unit(ONE as int, 0)) by (nonlinear_arith);
        Heading { cos: ONE, sin: 0 }
    }

    /// The heading turned by half a revolution about the vertical axis.
    pub fn turned_half(&self) -> (r: Heading)
        requires
            self.wf(),
        ensures
            r.cos == -self.cos,
            r.sin == -self.sin,
            r.wf(),
            self.is_near_unit() ==> r.is_near_unit(),
    {
        proof {
            lemma_near_unit_sign(self.cos as int, self.sin as int);
            lemma_near_unit_sign(-self.cos, self.sin as int);
        }
        Heading { cos: -self.cos, sin: -self.sin }
    }

    /// The rotation matrix of this heading.
    pub fn to_rot3(&self) -> (r: Rot3)
        requires
            self.wf(),
        ensures
            r == heading_rot(*self),
            r.wf(),
    {
        Rot3 {
            xx: self.cos,
            xy: 0,
            xz: self.sin,
            yx: 0,
            yy: ONE,
            yz: 0,
            zx: -self.sin,
            zy: 0,
            zz: self.cos,
        }
    }
}

impl Rot3 {
    /// The heading of this rotation, with pitch and roll dropped.
    pub fn heading(&self) -> (r: Heading)
        requires
            self.wf(),
        ensures
            r == heading_of(*self),
            r.wf(),
            r.is_near_unit(),
    {
        let a: i64 = self.xz;
        let b: i64 = self.zz;
        assert(0 <= a * a <= 1_000_000 && 0 <= b * b <= 1_000_000) by (nonlinear_arith)
            requires -1000 <= a <= 1000, -1000 <= b <= 1000;
        assert(near_unit(ONE as int, 0)) by (nonlinear_arith);
        if a == 0 && b == 0 {
            return Heading { cos: ONE, sin: 0 };
        }
        let norm2: i64 = a * a + b * b;
        let dev: i64 = norm2 - ONE * ONE;
        if -HEADING_TOLERANCE <= dev && dev <= HEADING_TOLERANCE {
            return Heading { cos: b, sin: a };
        }
        let k: i64 = ONE * ONE;
        let h: u64 = integer_sqrt(norm2 as u64 * k as u64);
        let ghost (ai, bi) = (a as int, b as int);
        let ghost (aa, ba) = (if ai >= 0 { ai } else { -ai }, if bi >= 0 { bi } else { -bi });
        proof {
            assert(aa * aa == ai * ai && ba * ba == bi * bi) by (nonlinear_arith)
                requires aa == ai || aa == -ai, ba == bi || ba == -bi;
            assert(norm2 >= 1) by (nonlinear_arith)
                requires norm2 == ai * ai + bi * bi, ai != 0 || bi != 0;
            if h == 0 {
                assert(false) by (nonlinear_arith)
                    requires (h + 1) * (h + 1) > norm2 * k, norm2 >= 1, k == 1_000_000, h == 0;
            }
            lemma_normalized_bounds(aa, ba, h as int, (ba * k) / (h as int), (aa * k) / (h as int));
        }
        let c: i128 = div_toward_zero(b as i128 * k as i128, h as i128);
        let s: i128 = div_toward_zero(a as i128 * k as i128, h as i128);
        proof {
            assert(bi * k >= 0 <==> bi >= 0) by (nonlinear_arith) requires k == 1_000_000;
            assert(ai * k >= 0 <==> ai >= 0) by (nonlinear_arith) requires k == 1_000_000;
            assert(-(bi * k) == ba * k || bi * k == ba * k) by (nonlinear_arith)
                requires ba == bi || ba == -bi;
            assert(bi < 0 ==> -(bi * k) == ba * k) by (nonlinear_arith)
                requires ba == -bi || bi >= 0;
            assert(ai < 0 ==> -(ai * k) == aa * k) by (nonlinear_arith)
                requires aa == -ai || ai >= 0;
            assert(bi >= 0 ==> bi * k == ba * k);
            assert(ai >= 0 ==> ai * k == aa * k);
            let cu = (ba * k) / (h as int);
            let su = (aa * k) / (h as int);
            assert(c == cu || c == -cu);
            assert(s == su || s == -su);
            lemma_near_unit_sign(cu, su);
            lemma_near_unit_sign(-cu, su);
        }
        Heading { cos: c as i64, sin: s as i64 }
    }
}

/// Taking the heading of a heading's own rotation gives that heading back, for
/// every heading of unit length up to the tolerance; every heading that
/// [`Rot3::heading`] returns is one.
pub proof fn lemma_heading_idempotent(h: Heading)
    requires
        h.wf(),
        h.is_near_unit(),
    ensures
        heading_of(heading_rot(h)) == h,
{
    assert(h.cos != 0 || h.sin != 0);
}

/// `v` clamped to `[-1, 1]`.
pub open spec fn clamp_unit(v: int) -> int {
    if v < -ONE {
        -ONE
    } else if v > ONE {
        ONE as int
    } else {
        v
    }
}

/// The direction of `n` as a vector of unit length, each component taken in
/// thousandths and clamped to `[-1, 1]`; `None` for the zero vector.
pub open spec fn unit_direction_of(n: V3) -> Option<V3> {
    let len = isqrt((n.x * n.x + n.y * n.y + n.z * n.z) * (ONE * ONE));
    if len == 0 {
        None
    } else {
        Some(
            v3(
                clamp_unit(tdiv(n.x * (ONE * ONE), len)),
                clamp_unit(tdiv(n.y * (ONE * ONE), len)),
                clamp_unit(tdiv(n.z * (ONE * ONE), len)),
            ),
        )
    }
}

/// The shortest rotation taking the vertical axis `(0, 1, 0)` to the unit
/// vector `u`: the rotation about `(0, 1, 0) × u`, with entries clamped to
/// `[-1, 1]`. Where `u` points straight down it is the half turn about the
/// `x` axis.
pub open spec fn arc_from_up(u: V3) -> Rot3 {
    let d = ONE + u.y;
    if d <= 0 {
        Rot3 { xx: ONE, xy: 0, xz: 0, yx: 0, yy: (-ONE) as i64, yz: 0, zx: 0, zy: 0, zz: (-ONE) as i64 }
    } else {
        Rot3 {
            xx: clamp_unit(ONE - tdiv(u.x * u.x, d)) as i64,
            xy: u.x as i64,
            xz: clamp_unit(-tdiv(u.x * u.z, d)) as i64,
            yx: (-u.x) as i64,
            yy: u.y as i64,
            yz: (-u.z) as i64,
            zx: clamp_unit(-tdiv(u.x * u.z, d)) as i64,
            zy: u.z as i64,
            zz: clamp_unit(ONE - tdiv(u.z * u.z, d)) as i64,
        }
    }
}

/// The shortest rotation taking the vertical axis to the direction of `n`,
/// or the identity where `n` is zero.
pub open spec fn arc_to_normal(n: V3) -> Rot3 {
    match unit_direction_of(n) {
        None => rot_identity(),
        Some(u) => arc_from_up(u),
    }
}

fn clamp_to_unit(v: i128) -> (r: i64)
    ensures
        r == clamp_unit(v as int),
{
    if v < -(ONE as i128) {
        -ONE
    } else if v > ONE as i128 {
        ONE
    } else {
        v as i64
    }
}

/// The shortest rotation taking the vertical axis to the direction of `n`.
pub fn arc_to(n: &Vec3) -> (r: Rot3)
    requires
        v3_within(n@, 4 * ONE),
    ensures
        r == arc_to_normal(n@),
        r.wf(),
{
    let k: i128 = (ONE * ONE) as i128;
    let (x, y, z) = (n.x as i128, n.y as i128, n.z as i128);
    assert(0 <= x * x <= 16_000_000 && 0 <= y * y <= 16_000_000 && 0 <= z * z <= 16_000_000)
        by (nonlinear_arith)
        requires -4000 <= x <= 4000, -4000 <= y <= 4000, -4000 <= z <= 4000;
    let len: u64 = integer_sqrt(((x * x + y * y + z * z) * k) as u64);
    if len == 0 {
        return Rot3::identity();
    }
    let l: i128 = len as i128;
    let ux: i64 = clamp_to_unit(div_toward_zero(x * k, l));
    let uy: i64 = clamp_to_unit(div_toward_zero(y * k, l));
    let uz: i64 = clamp_to_unit(div_toward_zero(z * k, l));
    let d: i128 = ONE as i128 + uy as i128;
    if d <= 0 {
        return Rot3 { xx: ONE, xy: 0, xz: 0, yx: 0, yy: -ONE, yz: 0, zx: 0, zy: 0, zz: -ONE };
    }
    let (ax, az) = (ux as i128, uz as i128);
    assert(-1_000_000 <= ax * az <= 1_000_000 && 0 <= ax * ax <= 1_000_000 && 0 <= az * az
        <= 1_000_000) by (nonlinear_arith)
        requires -1000 <= ax <= 1000, -1000 <= az <= 1000;
    let cross: i64 = clamp_to_unit(-div_toward_zero(ax * az, d));
    Rot3 {
        xx: clamp_to_unit(ONE as i128 - div_toward_zero(ax * ax, d)),
        xy: ux,
        xz: cross,
        yx: -ux,
        yy: uy,
        yz: -uz,
        zx: cross,
        zy: uz,
        zz: clamp_to_unit(ONE as i128 - div_toward_zero(az * az, d)),
    }
}

/// The shortest rotation from the vertical axis takes the vertical axis to the
/// unit vector it was built for, and flat ground (a vertical normal) gives the
/// identity.
pub proof fn lemma_arc_from_up(u: V3)
    requires
        v3_within(u, ONE as int),
        u.y > -ONE,
    ensures
        rot_apply(arc_from_up(u), v3(0, ONE as int, 0)) == u,
        u == v3(0, ONE as int, 0) ==> arc_from_up(u) == rot_identity(),
{
    let m = arc_from_up(u);
    assert(m.xx * 0 + m.xy * ONE + m.xz * 0 == u.x * ONE);
    assert(m.yx * 0 + m.yy * ONE + m.yz * 0 == u.y * ONE);
    assert(m.zx * 0 + m.zy * ONE + m.zz * 0 == u.z * ONE);
    lemma_tdiv_mul(u.x, ONE as int);
    lemma_tdiv_mul(u.y, ONE as int);
    lemma_tdiv_mul(u.z, ONE as int);
    if u == v3(0, ONE as int, 0) {
        assert(tdiv(0, 2 * ONE) == 0);
    }
}

} // verus!
