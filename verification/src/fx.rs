//! Deterministic fixed-point scalars.
//!
//! A `Fx` holds the real number `raw / FX_SCALE` in a signed 64-bit word.
//! Every operation saturates at the representable range instead of wrapping,
//! so the solver never panics and never produces a non-finite value, and the
//! same inputs give bit-identical results on every machine.

use vstd::prelude::*;
use vstd::arithmetic::div_mod::{lemma_fundamental_div_mod, lemma_div_pos_is_pos};
use vstd::arithmetic::mul::{lemma_mul_is_commutative, lemma_mul_unary_negation};

verus! {

/// Scale factor of the fixed-point representation: 16 fractional bits.
pub const FX_SCALE: i64 = 65536;

/// Fixed-point scalar standing for the real number `raw / FX_SCALE`.
#[derive(Clone, Copy, PartialEq, Eq, Structural, Debug, Hash)]
pub struct Fx {
    pub raw: i64,
}

impl View for Fx {
    type V = int;

    open spec fn view(&self) -> int {
        self.raw as int
    }
}

/// Saturation of a mathematical integer into the `i64` range.
pub open spec fn sat64(x: int) -> int {
    if x > i64::MAX as int {
        i64::MAX as int
    } else if x < i64::MIN as int {
        i64::MIN as int
    } else {
        x
    }
}

/// Division truncating toward zero, as the executable code computes it.
pub open spec fn tdiv(a: int, b: int) -> int
    recommends
        b > 0,
{
    if a >= 0 {
        a / b
    } else {
        -((-a) / b)
    }
}

/// Raw value of the saturating fixed-point sum.
pub open spec fn fadd(a: int, b: int) -> int {
    sat64(a + b)
}

/// Raw value of the saturating fixed-point difference.
pub open spec fn fsub(a: int, b: int) -> int {
    sat64(a - b)
}

/// Raw value of the saturating fixed-point product.
pub open spec fn fmul(a: int, b: int) -> int {
    sat64(tdiv(a * b, FX_SCALE as int))
}

/// Raw value of the saturating fixed-point quotient.
pub open spec fn fdiv(a: int, b: int) -> int
    recommends
        b > 0,
{
    sat64(tdiv(a * (FX_SCALE as int), b))
}

/// `r` is the floor of the square root of `n`.
pub open spec fn is_sqrt_floor(n: int, r: int) -> bool {
    0 <= r && r * r <= n && n < (r + 1) * (r + 1)
}

/// Floor of the square root of a non-negative integer.
pub open spec fn sqrt_floor(n: int) -> int
    recommends
        n >= 0,
{
    choose|r: int| is_sqrt_floor(n, r)
}

/// Magnitude of a mathematical integer.
pub open spec fn iabs(x: int) -> int {
    if x >= 0 {
        x
    } else {
        -x
    }
}

proof fn lemma_sq_mono(a: int, b: int)
    by (nonlinear_arith)
    requires
        0 <= a <= b,
    ensures
        a * a <= b * b,
{
}

/// The floor square root exists for every non-negative integer, so the value
/// `sqrt_floor` denotes satisfies its characterization.
pub proof fn lemma_sqrt_floor_exists(n: int)
    requires
        n >= 0,
    ensures
        is_sqrt_floor(n, sqrt_floor(n)),
    decreases n,
{
    if n == 0 {
        assert(is_sqrt_floor(0, 0));
    } else {
        lemma_sqrt_floor_exists(n - 1);
        let r = sqrt_floor(n - 1);
        if ((r + 1) * (r + 1)) <= n {
            assert(is_sqrt_floor(n, r + 1)) by (nonlinear_arith)
                requires
                    is_sqrt_floor(n - 1, r),
                    ((r + 1) * (r + 1)) <= n,
            ;
            assert(exists|x: int| is_sqrt_floor(n, x));
        } else {
            assert(is_sqrt_floor(n, r));
            assert(exists|x: int| is_sqrt_floor(n, x));
        }
    }
}

/// The floor square root is unique: any witness of `is_sqrt_floor` is the one
/// `sqrt_floor` denotes.
pub proof fn lemma_sqrt_floor_unique(n: int, r: int)
    requires
        is_sqrt_floor(n, r),
    ensures
        sqrt_floor(n) == r,
{
    let w = choose|x: int| is_sqrt_floor(n, x);
    assert(is_sqrt_floor(n, w));
    if w < r {
        lemma_sq_mono(w + 1, r);
        assert(false);
    }
    if r < w {
        lemma_sq_mono(r + 1, w);
        assert(false);
    }
}

/// Truncated division by a positive divisor keeps the sign of the dividend and
/// never grows the magnitude past the exact quotient.
pub proof fn lemma_tdiv_range(a: int, b: int)
    requires
        b > 0,
    ensures
        a >= 0 ==> 0 <= tdiv(a, b) && tdiv(a, b) * b <= a,
        a <= 0 ==> tdiv(a, b) <= 0 && a <= tdiv(a, b) * b,
{
    if a >= 0 {
        lemma_fundamental_div_mod(a, b);
        lemma_div_pos_is_pos(a, b);
        lemma_mul_is_commutative(a / b, b);
    } else {
        lemma_fundamental_div_mod(-a, b);
        lemma_div_pos_is_pos(-a, b);
        lemma_mul_is_commutative((-a) / b, b);
        lemma_mul_unary_negation((-a) / b, b);
    }
}

/// Truncated division by a positive divisor never grows the magnitude.
pub proof fn lemma_tdiv_shrinks(a: int, b: int)
    requires
        b > 0,
    ensures
        iabs(tdiv(a, b)) <= iabs(a),
        a >= 0 ==> 0 <= tdiv(a, b) <= a,
        a <= 0 ==> a <= tdiv(a, b) <= 0,
{
    lemma_tdiv_range(a, b);
    let q = tdiv(a, b);
    if a >= 0 {
        assert(q <= q * b) by (nonlinear_arith)
            requires
                q >= 0,
                b >= 1,
        ;
    } else {
        assert(q * b <= q) by (nonlinear_arith)
            requires
                q <= 0,
                b >= 1,
        ;
    }
}

/// Sign symmetry of the fixed-point product: negating both factors changes
/// nothing, and negating one factor negates the product whenever the exact
/// quotient fits. Exchanging the two bodies of a joint (with their anchors)
/// flips the separation axis and both factors of every velocity projection,
/// so each scalar of the impulse law is unchanged: this is the arithmetic
/// heart of swap equivalence.
pub proof fn lemma_fmul_sign_symmetry(a: int, b: int)
    ensures
        fmul(-a, -b) == fmul(a, b),
        -(i64::MAX as int) <= tdiv(a * b, FX_SCALE as int) <= i64::MAX as int ==> fmul(-a, b)
            == -fmul(a, b) && fmul(a, -b) == -fmul(a, b),
{
    assert((-a) * (-b) == a * b) by (nonlinear_arith);
    assert((-a) * b == -(a * b)) by (nonlinear_arith);
    assert(a * (-b) == -(a * b)) by (nonlinear_arith);
}

/// Sign symmetry of the fixed-point quotient: negating the dividend negates
/// the quotient whenever the exact quotient fits. Under a body swap the
/// separation vector flips, so each component of the unit axis flips with it.
pub proof fn lemma_fdiv_sign_symmetry(a: int, b: int)
    requires
        b > 0,
        -(i64::MAX as int) <= tdiv(a * (FX_SCALE as int), b) <= i64::MAX as int,
    ensures
        fdiv(-a, b) == -fdiv(a, b),
{
    assert((-a) * (FX_SCALE as int) == -(a * (FX_SCALE as int))) by (nonlinear_arith);
}

proof fn lemma_i64_prod_fits(a: int, b: int)
    by (nonlinear_arith)
    requires
        i64::MIN as int <= a <= i64::MAX as int,
        i64::MIN as int <= b <= i64::MAX as int,
    ensures
        -0x40000000000000000000000000000000 <= a * b <= 0x40000000000000000000000000000000,
{
}

/// Saturates a wide intermediate into the `i64` range.
fn sat_to_i64(x: i128) -> (r: i64)
    ensures
        r as int == sat64(x as int),
{
    if x > i64::MAX as i128 {
        i64::MAX
    } else if x < i64::MIN as i128 {
        i64::MIN
    } else {
        x as i64
    }
}

/// Division of wide intermediates, truncating toward zero.
fn tdiv128(a: i128, b: i128) -> (r: i128)
    requires
        b > 0,
        a > i128::MIN,
    ensures
        r as int == tdiv(a as int, b as int),
{
    if a >= 0 {
        let q: u128 = (a as u128) / (b as u128);
        proof {
            lemma_tdiv_range(a as int, b as int);
        }
        q as i128
    } else {
        let q: u128 = ((-a) as u128) / (b as u128);
        proof {
            lemma_tdiv_range(a as int, b as int);
            lemma_tdiv_range(-(a as int), b as int);
        }
        -(q as i128)
    }
}

impl Fx {
    /// Builds a scalar directly from its raw fixed-point word.
    pub fn new(raw: i64) -> (r: Fx)
        ensures
            r@ == raw as int,
    {
        Fx { raw }
    }

    /// The number zero.
    pub fn zero() -> (r: Fx)
        ensures
            r@ == 0,
    {
        Fx { raw: 0 }
    }

    /// The number one.
    pub fn one() -> (r: Fx)
        ensures
            r@ == FX_SCALE as int,
    {
        Fx { raw: FX_SCALE }
    }

    /// The whole number `v`, represented exactly.
    pub fn from_int(v: i32) -> (r: Fx)
        ensures
            r@ == v as int * FX_SCALE as int,
    {
        proof {
            lemma_i64_prod_fits(v as int, FX_SCALE as int);
        }
        Fx { raw: (v as i64) * FX_SCALE }
    }

    /// Saturating sum.
    pub fn plus(self, o: Fx) -> (r: Fx)
        ensures
            r@ == fadd(self@, o@),
    {
        let wide: i128 = self.raw as i128 + o.raw as i128;
        Fx { raw: sat_to_i64(wide) }
    }

    /// Saturating difference.
    pub fn minus(self, o: Fx) -> (r: Fx)
        ensures
            r@ == fsub(self@, o@),
    {
        let wide: i128 = self.raw as i128 - o.raw as i128;
        Fx { raw: sat_to_i64(wide) }
    }

    /// Saturating product, truncated toward zero.
    pub fn times(self, o: Fx) -> (r: Fx)
        ensures
            r@ == fmul(self@, o@),
    {
        proof {
            lemma_i64_prod_fits(self@, o@);
        }
        let wide: i128 = self.raw as i128 * o.raw as i128;
        let q = tdiv128(wide, FX_SCALE as i128);
        Fx { raw: sat_to_i64(q) }
    }

    /// Saturating quotient by a strictly positive divisor, truncated toward
    /// zero.
    pub fn divide(self, o: Fx) -> (r: Fx)
        requires
            o@ > 0,
        ensures
            r@ == fdiv(self@, o@),
    {
        proof {
            lemma_i64_prod_fits(self@, FX_SCALE as int);
        }
        let wide: i128 = self.raw as i128 * FX_SCALE as i128;
        let q = tdiv128(wide, o.raw as i128);
        Fx { raw: sat_to_i64(q) }
    }

    /// Saturating negation.
    pub fn neg(self) -> (r: Fx)
        ensures
            r@ == sat64(-self@),
    {
        if self.raw == i64::MIN {
            Fx { raw: i64::MAX }
        } else {
            Fx { raw: -self.raw }
        }
    }

    /// Saturating magnitude.
    pub fn abs(self) -> (r: Fx)
        ensures
            r@ == sat64(iabs(self@)),
    {
        if self.raw < 0 {
            self.neg()
        } else {
            self
        }
    }

    /// The smaller of two scalars.
    pub fn min_with(self, o: Fx) -> (r: Fx)
        ensures
            r@ == if self@ <= o@ { self@ } else { o@ },
    {
        if self.raw <= o.raw {
            self
        } else {
            o
        }
    }

    /// The larger of two scalars.
    pub fn max_with(self, o: Fx) -> (r: Fx)
        ensures
            r@ == if self@ >= o@ { self@ } else { o@ },
    {
        if self.raw >= o.raw {
            self
        } else {
            o
        }
    }
}

/// Floor square root of a wide unsigned word.
pub fn isqrt128(n: u128) -> (r: u128)
    ensures
        is_sqrt_floor(n as int, r as int),
        r as int == sqrt_floor(n as int),
        r <= 0xFFFF_FFFF_FFFF_FFFFu128,
{
    let mut lo: u128 = 0;
    let mut hi: u128 = 0xFFFF_FFFF_FFFF_FFFF;
    if n < hi {
        hi = n;
        proof {
            let h1: int = hi as int + 1;
            assert((n as int) < h1 * h1) by (nonlinear_arith)
                requires
                    h1 == n as int + 1,
                    n as int >= 0,
            ;
        }
    }
    while lo < hi
        invariant
            lo <= hi,
            hi <= 0xFFFF_FFFF_FFFF_FFFF,
            lo as int * lo as int <= n as int,
            (n as int) < ((hi as int + 1) * (hi as int + 1)),
        decreases hi - lo,
    {
        let mid: u128 = lo + (hi - lo + 1) / 2;
        proof {
            assert(mid as int * mid as int <= 0xFFFFFFFFFFFFFFFE0000000000000001) by (nonlinear_arith)
                requires
                    0 <= mid as int <= 0xFFFF_FFFF_FFFF_FFFF,
            ;
        }
        if mid * mid <= n {
            lo = mid;
        } else {
            hi = mid - 1;
        }
    }
    proof {
        lemma_sqrt_floor_unique(n as int, lo as int);
    }
    lo
}

} // verus!
