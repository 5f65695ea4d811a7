use vstd::prelude::*;

verus! {

/// Scale of the fixed-point representation: every `Fx` value holds its
/// numerator `n`, and stands for the real number `n / SCALE`.
pub const SCALE: i128 = 1_000_000_000_000_000;

/// A signed fixed-point number with 15 decimal places, the scalar type of
/// this library.  The mathematical model of a value is its numerator as an
/// unbounded integer (`view`); all arithmetic contracts are stated over
/// that model.
#[derive(Clone, Copy, PartialEq, Eq, Structural, Debug)]
pub struct Fx {
    pub n: i128,
}

impl View for Fx {
    type V = int;

    open spec fn view(&self) -> int {
        self.n as int
    }
}

/// Truncating division (round toward zero), the rounding that the
/// executable operations perform; `b` is assumed positive.
pub open spec fn tdiv(a: int, b: int) -> int {
    if a >= 0 {
        a / b
    } else {
        -((-a) / b)
    }
}

/// The numerator of the product of two fixed-point numbers: the integer
/// product rescaled by `SCALE`, rounded toward zero.
pub open spec fn fxmul(a: int, b: int) -> int {
    tdiv(a * b, SCALE as int)
}

/// The numerator of the quotient of two fixed-point numbers (`b` positive).
pub open spec fn fxdiv(a: int, b: int) -> int {
    tdiv(a * (SCALE as int), b)
}

/// The integer product of the two numerators fits in the machine word, so
/// the executable product cannot overflow.  This is a machine limit, not a
/// mathematical one.
pub open spec fn mul_ok(a: int, b: int) -> bool {
    -(i128::MAX as int) <= a * b <= i128::MAX as int
}

/// The numerator, widened by `SCALE` for division, fits in the machine word.
pub open spec fn div_ok(a: int) -> bool {
    -(i128::MAX as int) <= a * (SCALE as int) <= i128::MAX as int
}

/// The integer fits in the machine word.
pub open spec fn fits(x: int) -> bool {
    i128::MIN as int <= x <= i128::MAX as int
}

/// `r` is the integer square root of `m`: the greatest integer whose square
/// does not exceed `m`.
pub open spec fn is_isqrt_of(r: int, m: int) -> bool {
    r >= 0 && r * r <= m && (r + 1) * (r + 1) > m
}

/// The numerator of the square root of a nonnegative fixed-point number:
/// the integer square root of the numerator widened by `SCALE`.
pub open spec fn fxsqrt(x: int) -> int {
    choose|r: int| #[trigger] is_isqrt_of(r, x * (SCALE as int))
}

/// Truncating division by a positive divisor shrinks magnitude.
pub proof fn lemma_tdiv_shrinks(a: int, b: int)
    requires
        b >= 1,
    ensures
        a >= 0 ==> 0 <= tdiv(a, b) <= a,
        a < 0 ==> a <= tdiv(a, b) <= 0,
{
    if a >= 0 {
        lemma_div_shrinks_nonneg(a, b);
    } else {
        lemma_div_shrinks_nonneg(-a, b);
    }
}

/// Euclidean division of a nonnegative integer by a positive divisor
/// shrinks it.
pub proof fn lemma_div_shrinks_nonneg(a: int, b: int)
    requires
        a >= 0,
        b >= 1,
    ensures
        0 <= a / b <= a,
{
    vstd::arithmetic::div_mod::lemma_fundamental_div_mod(a, b);
    assert(0 <= a / b <= a) by (nonlinear_arith)
        requires
            a >= 0,
            b >= 1,
            a == b * (a / b) + a % b,
            0 <= a % b < b,
    ;
}

/// A product of values bounded in magnitude is itself bounded, and so is
/// its rescaling: fixed-point multiplication cannot overflow when the
/// bounds' product fits in the machine word.
pub proof fn lemma_fxmul_bound(a: int, b: int, bnd_a: int, bnd_b: int)
    requires
        -bnd_a <= a <= bnd_a,
        -bnd_b <= b <= bnd_b,
        0 <= bnd_a,
        0 <= bnd_b,
        bnd_a * bnd_b <= i128::MAX as int,
    ensures
        mul_ok(a, b),
        -tdiv(bnd_a * bnd_b, SCALE as int) <= fxmul(a, b) <= tdiv(bnd_a * bnd_b, SCALE as int),
{
    assert(-(bnd_a * bnd_b) <= a * b <= bnd_a * bnd_b) by (nonlinear_arith)
        requires
            -bnd_a <= a <= bnd_a,
            -bnd_b <= b <= bnd_b,
            0 <= bnd_a,
            0 <= bnd_b,
    ;
    let p = a * b;
    let m = bnd_a * bnd_b;
    if p >= 0 {
        lemma_tdiv_mono(p, m, SCALE as int);
        lemma_tdiv_shrinks(p, SCALE as int);
    } else {
        lemma_tdiv_mono(-p, m, SCALE as int);
        lemma_tdiv_shrinks(p, SCALE as int);
    }
}

/// Truncating division by a positive divisor is monotone in magnitude.
pub proof fn lemma_tdiv_mono(x: int, y: int, b: int)
    requires
        0 <= x <= y,
        b >= 1,
    ensures
        tdiv(x, b) <= tdiv(y, b),
{
    vstd::arithmetic::div_mod::lemma_div_is_ordered(x, y, b);
}

/// The integer square root is unique.
pub proof fn lemma_isqrt_unique(r1: int, r2: int, m: int)
    requires
        is_isqrt_of(r1, m),
        is_isqrt_of(r2, m),
    ensures
        r1 == r2,
{
    assert(r1 == r2) by (nonlinear_arith)
        requires
            r1 >= 0 && r1 * r1 <= m && (r1 + 1) * (r1 + 1) > m,
            r2 >= 0 && r2 * r2 <= m && (r2 + 1) * (r2 + 1) > m,
    ;
}

impl Fx {
    /// Zero, the additive identity.
    pub fn zero() -> (r: Fx)
        ensures
            r@ == 0,
    {
        Fx { n: 0 }
    }

    /// One, represented by the scale itself.
    pub fn one() -> (r: Fx)
        ensures
            r@ == SCALE as int,
    {
        Fx { n: SCALE }
    }

    /// Builds a value from its raw numerator.
    pub fn from_raw(n: i128) -> (r: Fx)
        ensures
            r@ == n as int,
    {
        Fx { n }
    }

    /// The raw numerator.
    pub fn raw(self) -> (r: i128)
        ensures
            r as int == self@,
    {
        self.n
    }

    /// Exact negation.
    pub fn neg(self) -> (r: Fx)
        requires
            self@ > i128::MIN as int,
        ensures
            r@ == -self@,
    {
        Fx { n: -self.n }
    }

    /// Exact addition of the numerators.
    pub fn add(self, other: Fx) -> (r: Fx)
        requires
            i128::MIN as int <= self@ + other@ <= i128::MAX as int,
        ensures
            r@ == self@ + other@,
    {
        Fx { n: self.n + other.n }
    }

    /// Exact subtraction of the numerators.
    pub fn sub(self, other: Fx) -> (r: Fx)
        requires
            i128::MIN as int <= self@ - other@ <= i128::MAX as int,
        ensures
            r@ == self@ - other@,
    {
        Fx { n: self.n - other.n }
    }

    /// Fixed-point multiplication: the integer product, rescaled with
    /// rounding toward zero.
    pub fn mul(self, other: Fx) -> (r: Fx)
        requires
            mul_ok(self@, other@),
        ensures
            r@ == fxmul(self@, other@),
    {
        let p: i128 = self.n * other.n;
        Fx { n: p / SCALE }
    }

    /// Fixed-point division by a positive value: the numerator, widened by
    /// the scale, divided with rounding toward zero.
    pub fn div(self, other: Fx) -> (r: Fx)
        requires
            other@ > 0,
            div_ok(self@),
        ensures
            r@ == fxdiv(self@, other@),
    {
        let p: i128 = self.n * SCALE;
        Fx { n: p / other.n }
    }

    /// Fixed-point square root of a nonnegative value, rounded down.
    pub fn sqrt(self) -> (r: Fx)
        requires
            self@ >= 0,
            div_ok(self@),
        ensures
            r@ == fxsqrt(self@),
            is_isqrt_of(r@, self@ * (SCALE as int)),
    {
        let m: u128 = (self.n * SCALE) as u128;
        let mut lo: u128 = 0;
        let mut hi: u128 = 0x1_0000_0000_0000_0000;
        proof {
            assert((hi as int) * (hi as int) > m as int) by (nonlinear_arith)
                requires
                    hi as int == 0x1_0000_0000_0000_0000,
                    m as int <= i128::MAX as int,
            ;
        }
        while lo + 1 < hi
            invariant
                lo < hi <= 0x1_0000_0000_0000_0000,
                (lo as int) * (lo as int) <= m as int,
                (hi as int) * (hi as int) > m as int,
            decreases hi - lo,
        {
            let mid: u128 = lo + (hi - lo) / 2;
            proof {
                assert((mid as int) * (mid as int) <= u128::MAX as int) by (nonlinear_arith)
                    requires
                        0 <= mid as int <= 0xFFFF_FFFF_FFFF_FFFF,
                ;
            }
            if mid * mid <= m {
                lo = mid;
            } else {
                hi = mid;
            }
        }
        proof {
            assert(is_isqrt_of(lo as int, self@ * (SCALE as int)));
            assert(is_isqrt_of(fxsqrt(self@), self@ * (SCALE as int)));
            lemma_isqrt_unique(lo as int, fxsqrt(self@), self@ * (SCALE as int));
        }
        Fx { n: lo as i128 }
    }
}

} // verus!
