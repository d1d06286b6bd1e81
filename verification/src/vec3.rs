//! Three-component fixed-point vectors: the geometry the joint solver works in.

use vstd::prelude::*;
use crate::fx::{Fx, FX_SCALE, fadd, fsub, fmul, fdiv, sat64, tdiv, sqrt_floor, lemma_sqrt_floor_unique, isqrt128};

verus! {

/// A vector of three fixed-point scalars.
#[derive(Clone, Copy, PartialEq, Eq, Structural, Debug)]
pub struct Vec3 {
    pub x: Fx,
    pub y: Fx,
    pub z: Fx,
}

/// A fixed-point scalar of raw value `v`; meaningful when `v` is in range.
pub open spec fn fx(v: int) -> Fx {
    Fx { raw: v as i64 }
}

/// Componentwise sum.
pub open spec fn spec_vadd(a: Vec3, b: Vec3) -> Vec3 {
    Vec3 { x: fx(fadd(a.x@, b.x@)), y: fx(fadd(a.y@, b.y@)), z: fx(fadd(a.z@, b.z@)) }
}

/// Componentwise difference.
pub open spec fn spec_vsub(a: Vec3, b: Vec3) -> Vec3 {
    Vec3 { x: fx(fsub(a.x@, b.x@)), y: fx(fsub(a.y@, b.y@)), z: fx(fsub(a.z@, b.z@)) }
}

/// Componentwise scaling.
pub open spec fn spec_vscale(a: Vec3, s: Fx) -> Vec3 {
    Vec3 { x: fx(fmul(a.x@, s@)), y: fx(fmul(a.y@, s@)), z: fx(fmul(a.z@, s@)) }
}

/// Componentwise negation.
pub open spec fn spec_vneg(a: Vec3) -> Vec3 {
    Vec3 { x: fx(sat64(-a.x@)), y: fx(sat64(-a.y@)), z: fx(sat64(-a.z@)) }
}

/// Fixed-point dot product, folded left to right.
pub open spec fn spec_dot(a: Vec3, b: Vec3) -> int {
    fadd(fadd(fmul(a.x@, b.x@), fmul(a.y@, b.y@)), fmul(a.z@, b.z@))
}

/// Fixed-point cross product.
pub open spec fn spec_cross(a: Vec3, b: Vec3) -> Vec3 {
    Vec3 {
        x: fx(fsub(fmul(a.y@, b.z@), fmul(a.z@, b.y@))),
        y: fx(fsub(fmul(a.z@, b.x@), fmul(a.x@, b.z@))),
        z: fx(fsub(fmul(a.x@, b.y@), fmul(a.y@, b.x@))),
    }
}

/// Sum of the squared raw components: the squared length, in raw units.
pub open spec fn spec_norm2(a: Vec3) -> int {
    a.x@ * a.x@ + a.y@ * a.y@ + a.z@ * a.z@
}

/// Raw value of the vector's length: the floor square root of the squared
/// length, saturated into range.
pub open spec fn spec_norm(a: Vec3) -> int {
    sat64(sqrt_floor(spec_norm2(a)))
}

/// Componentwise quotient by a strictly positive scalar.
pub open spec fn spec_vdiv(a: Vec3, s: Fx) -> Vec3 {
    Vec3 { x: fx(fdiv(a.x@, s@)), y: fx(fdiv(a.y@, s@)), z: fx(fdiv(a.z@, s@)) }
}

proof fn lemma_i64_sq_fits(a: int)
    by (nonlinear_arith)
    requires
        i64::MIN as int <= a <= i64::MAX as int,
    ensures
        0 <= a * a <= 0x40000000000000000000000000000000,
{
}

/// The components of `a` are strictly above the saturation floor, so each one
/// has an exact fixed-point negation.
pub open spec fn negatable(a: Vec3) -> bool {
    a.x@ > i64::MIN as int && a.y@ > i64::MIN as int && a.z@ > i64::MIN as int
}

/// Swap geometry: negating both arguments leaves the dot product unchanged.
/// Exchanging the two bodies of a joint flips the separation axis and every
/// relative velocity, so each projection of the impulse law keeps its value.
pub proof fn lemma_dot_neg_invariant(a: Vec3, b: Vec3)
    requires
        negatable(a),
        negatable(b),
    ensures
        spec_dot(spec_vneg(a), spec_vneg(b)) == spec_dot(a, b),
{
    crate::fx::lemma_fmul_sign_symmetry(a.x@, b.x@);
    crate::fx::lemma_fmul_sign_symmetry(a.y@, b.y@);
    crate::fx::lemma_fmul_sign_symmetry(a.z@, b.z@);
}

/// Swap geometry: a flipped separation vector has the same length.
pub proof fn lemma_norm_neg_invariant(a: Vec3)
    requires
        negatable(a),
    ensures
        spec_norm(spec_vneg(a)) == spec_norm(a),
{
    let n = spec_vneg(a);
    assert(spec_norm2(n) == spec_norm2(a)) by (nonlinear_arith)
        requires
            n.x@ == -a.x@,
            n.y@ == -a.y@,
            n.z@ == -a.z@,
    ;
}

/// Swap geometry: subtracting in the opposite order negates the difference
/// exactly, whenever no component difference saturates.
pub proof fn lemma_vsub_antisymmetry(a: Vec3, b: Vec3)
    requires
        -(i64::MAX as int) <= a.x@ - b.x@ <= i64::MAX as int,
        -(i64::MAX as int) <= a.y@ - b.y@ <= i64::MAX as int,
        -(i64::MAX as int) <= a.z@ - b.z@ <= i64::MAX as int,
    ensures
        spec_vsub(b, a) == spec_vneg(spec_vsub(a, b)),
{
}

/// Swap geometry: normalizing a flipped separation vector flips the unit
/// axis, whenever no quotient saturates.
pub proof fn lemma_vdiv_neg(a: Vec3, s: Fx)
    requires
        s@ > 0,
        negatable(a),
        -(i64::MAX as int) <= tdiv(a.x@ * (FX_SCALE as int), s@) <= i64::MAX as int,
        -(i64::MAX as int) <= tdiv(a.y@ * (FX_SCALE as int), s@) <= i64::MAX as int,
        -(i64::MAX as int) <= tdiv(a.z@ * (FX_SCALE as int), s@) <= i64::MAX as int,
    ensures
        spec_vdiv(spec_vneg(a), s) == spec_vneg(spec_vdiv(a, s)),
{
    crate::fx::lemma_fdiv_sign_symmetry(a.x@, s@);
    crate::fx::lemma_fdiv_sign_symmetry(a.y@, s@);
    crate::fx::lemma_fdiv_sign_symmetry(a.z@, s@);
}

/// Every component of `v` has magnitude at most `q`.
pub open spec fn within(v: Vec3, q: int) -> bool {
    crate::fx::iabs(v.x@) <= q && crate::fx::iabs(v.y@) <= q && crate::fx::iabs(v.z@) <= q
}

proof fn lemma_abs_le_sqrt(c: int, n2: int, len: int)
    by (nonlinear_arith)
    requires
        c * c <= n2,
        0 <= len,
        n2 < ((len + 1) * (len + 1)),
    ensures
        crate::fx::iabs(c) <= len,
{
}

/// No component of a vector is longer than the vector: its magnitude is at
/// most the fixed-point length.
pub proof fn lemma_component_le_norm(d: Vec3)
    requires
        negatable(d),
    ensures
        within(d, spec_norm(d)),
{
    let n2 = spec_norm2(d);
    assert(d.x@ * d.x@ <= n2 && d.y@ * d.y@ <= n2 && d.z@ * d.z@ <= n2 && n2 >= 0)
        by (nonlinear_arith)
        requires
            n2 == d.x@ * d.x@ + d.y@ * d.y@ + d.z@ * d.z@,
    ;
    crate::fx::lemma_sqrt_floor_exists(n2);
    let r = sqrt_floor(n2);
    if r <= i64::MAX as int {
        lemma_abs_le_sqrt(d.x@, n2, r);
        lemma_abs_le_sqrt(d.y@, n2, r);
        lemma_abs_le_sqrt(d.z@, n2, r);
    } else {
        assert(spec_norm(d) == i64::MAX as int);
    }
}

/// A quotient by a length that bounds the dividend is a unit-scale value: it
/// fits, and its magnitude is at most one in fixed point.
pub proof fn lemma_unit_quotient_fits(c: int, len: int)
    requires
        len > 0,
        crate::fx::iabs(c) <= len,
    ensures
        -(i64::MAX as int) <= tdiv(c * (FX_SCALE as int), len) <= i64::MAX as int,
        crate::fx::iabs(fdiv(c, len)) <= FX_SCALE as int,
{
    let s = FX_SCALE as int;
    crate::fx::lemma_tdiv_range(c * s, len);
    let q = tdiv(c * s, len);
    assert(crate::fx::iabs(q) <= s) by (nonlinear_arith)
        requires
            len > 0,
            crate::fx::iabs(c) <= len,
            q == tdiv(c * s, len),
            s > 0,
            c >= 0 ==> 0 <= q && q * len <= c * s,
            c <= 0 ==> q <= 0 && c * s <= q * len,
    ;
}

/// Swap geometry: flipping the right factor of a cross product flips the
/// product, exactly, when the left factor is small enough that no term
/// saturates and the right factor is a unit-scale axis.
pub proof fn lemma_cross_neg_right(a: Vec3, b: Vec3)
    requires
        within(a, (i64::MAX as int) / 4),
        within(b, FX_SCALE as int),
        negatable(b),
    ensures
        spec_cross(a, spec_vneg(b)) == spec_vneg(spec_cross(a, b)),
{
    let s = FX_SCALE as int;
    lemma_fmul_unit_bound(a.x@, b.x@);
    lemma_fmul_unit_bound(a.x@, b.y@);
    lemma_fmul_unit_bound(a.x@, b.z@);
    lemma_fmul_unit_bound(a.y@, b.x@);
    lemma_fmul_unit_bound(a.y@, b.y@);
    lemma_fmul_unit_bound(a.y@, b.z@);
    lemma_fmul_unit_bound(a.z@, b.x@);
    lemma_fmul_unit_bound(a.z@, b.y@);
    lemma_fmul_unit_bound(a.z@, b.z@);
    crate::fx::lemma_fmul_sign_symmetry(a.x@, b.x@);
    crate::fx::lemma_fmul_sign_symmetry(a.x@, b.y@);
    crate::fx::lemma_fmul_sign_symmetry(a.x@, b.z@);
    crate::fx::lemma_fmul_sign_symmetry(a.y@, b.x@);
    crate::fx::lemma_fmul_sign_symmetry(a.y@, b.y@);
    crate::fx::lemma_fmul_sign_symmetry(a.y@, b.z@);
    crate::fx::lemma_fmul_sign_symmetry(a.z@, b.x@);
    crate::fx::lemma_fmul_sign_symmetry(a.z@, b.y@);
    crate::fx::lemma_fmul_sign_symmetry(a.z@, b.z@);
}

/// A product with a unit-scale factor keeps the magnitude of the other
/// factor: the exact quotient fits, so no saturation occurs.
pub proof fn lemma_fmul_unit_bound(a: int, b: int)
    requires
        crate::fx::iabs(a) <= (i64::MAX as int) / 4,
        crate::fx::iabs(b) <= FX_SCALE as int,
    ensures
        crate::fx::iabs(fmul(a, b)) <= crate::fx::iabs(a),
        -(i64::MAX as int) <= tdiv(a * b, FX_SCALE as int) <= i64::MAX as int,
{
    let s = FX_SCALE as int;
    crate::fx::lemma_tdiv_range(a * b, s);
    let q = tdiv(a * b, s);
    assert(crate::fx::iabs(q) <= crate::fx::iabs(a)) by (nonlinear_arith)
        requires
            crate::fx::iabs(b) <= s,
            s > 0,
            q == tdiv(a * b, s),
            a * b >= 0 ==> 0 <= q && q * s <= a * b,
            a * b <= 0 ==> q <= 0 && a * b <= q * s,
    ;
}

impl Vec3 {
    /// Builds a vector from its three components.
    pub fn new(x: Fx, y: Fx, z: Fx) -> (r: Vec3)
        ensures
            r == (Vec3 { x, y, z }),
    {
        Vec3 { x, y, z }
    }

    /// The zero vector.
    pub fn zero() -> (r: Vec3)
        ensures
            r == (Vec3 { x: fx(0), y: fx(0), z: fx(0) }),
    {
        Vec3 { x: Fx::zero(), y: Fx::zero(), z: Fx::zero() }
    }

    /// Componentwise saturating sum.
    pub fn plus(self, o: Vec3) -> (r: Vec3)
        ensures
            r == spec_vadd(self, o),
    {
        Vec3 { x: self.x.plus(o.x), y: self.y.plus(o.y), z: self.z.plus(o.z) }
    }

    /// Componentwise saturating difference.
    pub fn minus(self, o: Vec3) -> (r: Vec3)
        ensures
            r == spec_vsub(self, o),
    {
        Vec3 { x: self.x.minus(o.x), y: self.y.minus(o.y), z: self.z.minus(o.z) }
    }

    /// Componentwise saturating scaling.
    pub fn scale(self, s: Fx) -> (r: Vec3)
        ensures
            r == spec_vscale(self, s),
    {
        Vec3 { x: self.x.times(s), y: self.y.times(s), z: self.z.times(s) }
    }

    /// Componentwise saturating negation.
    pub fn neg(self) -> (r: Vec3)
        ensures
            r == spec_vneg(self),
    {
        Vec3 { x: self.x.neg(), y: self.y.neg(), z: self.z.neg() }
    }

    /// Componentwise saturating quotient by a strictly positive scalar.
    pub fn div_by(self, s: Fx) -> (r: Vec3)
        requires
            s@ > 0,
        ensures
            r == spec_vdiv(self, s),
    {
        Vec3 { x: self.x.divide(s), y: self.y.divide(s), z: self.z.divide(s) }
    }

    /// Fixed-point dot product.
    pub fn dot(self, o: Vec3) -> (r: Fx)
        ensures
            r@ == spec_dot(self, o),
    {
        self.x.times(o.x).plus(self.y.times(o.y)).plus(self.z.times(o.z))
    }

    /// Fixed-point cross product.
    pub fn cross(self, o: Vec3) -> (r: Vec3)
        ensures
            r == spec_cross(self, o),
    {
        Vec3 {
            x: self.y.times(o.z).minus(self.z.times(o.y)),
            y: self.z.times(o.x).minus(self.x.times(o.z)),
            z: self.x.times(o.y).minus(self.y.times(o.x)),
        }
    }

    /// Length of the vector. The square root of the sum of the squared raw
    /// components is already the raw representation of the true length, so no
    /// rescaling is needed.
    pub fn norm(self) -> (r: Fx)
        ensures
            r@ == spec_norm(self),
            r@ >= 0,
    {
        proof {
            lemma_i64_sq_fits(self.x@);
            lemma_i64_sq_fits(self.y@);
            lemma_i64_sq_fits(self.z@);
        }
        let xx: u128 = (self.x.raw as i128 * self.x.raw as i128) as u128;
        let yy: u128 = (self.y.raw as i128 * self.y.raw as i128) as u128;
        let zz: u128 = (self.z.raw as i128 * self.z.raw as i128) as u128;
        let sum: u128 = xx + yy + zz;
        let root = isqrt128(sum);
        proof {
            lemma_sqrt_floor_unique(sum as int, root as int);
        }
        if root > i64::MAX as u128 {
            Fx { raw: i64::MAX }
        } else {
            Fx { raw: root as i64 }
        }
    }
}

} // verus!
