use vstd::prelude::*;
use crate::fixed::{Fx, fxmul, mul_ok, SCALE};

verus! {

/// A complex number over the fixed-point scalars.  Its model is the pair of
/// the two numerators.
#[derive(Clone, Copy, PartialEq, Eq, Structural, Debug)]
pub struct Cx {
    pub re: Fx,
    pub im: Fx,
}

impl View for Cx {
    type V = (int, int);

    open spec fn view(&self) -> (int, int) {
        (self.re@, self.im@)
    }
}

/// The complex number with a given model (meaningful when both components
/// lie within the machine word).
pub open spec fn cx_of(m: (int, int)) -> Cx {
    Cx { re: Fx { n: m.0 as i128 }, im: Fx { n: m.1 as i128 } }
}

/// Componentwise sum of two complex models.
pub open spec fn cxadd(a: (int, int), b: (int, int)) -> (int, int) {
    (a.0 + b.0, a.1 + b.1)
}

/// Componentwise difference of two complex models.
pub open spec fn cxsub(a: (int, int), b: (int, int)) -> (int, int) {
    (a.0 - b.0, a.1 - b.1)
}

/// Both componentwise differences stay within the machine word.
pub open spec fn cxsub_ok(a: (int, int), b: (int, int)) -> bool {
    &&& i128::MIN as int <= a.0 - b.0 <= i128::MAX as int
    &&& i128::MIN as int <= a.1 - b.1 <= i128::MAX as int
}

/// A complex model scaled by a real model (both components multiplied in
/// fixed point).
pub open spec fn cxscale(a: (int, int), s: int) -> (int, int) {
    (fxmul(a.0, s), fxmul(a.1, s))
}

/// Both componentwise sums stay within the machine word.
pub open spec fn cxadd_ok(a: (int, int), b: (int, int)) -> bool {
    &&& i128::MIN as int <= a.0 + b.0 <= i128::MAX as int
    &&& i128::MIN as int <= a.1 + b.1 <= i128::MAX as int
}

/// Both componentwise products stay within the machine word.
pub open spec fn cxscale_ok(a: (int, int), s: int) -> bool {
    mul_ok(a.0, s) && mul_ok(a.1, s)
}

impl Cx {
    /// Builds a complex number from its parts.
    pub fn new(re: Fx, im: Fx) -> (r: Cx)
        ensures
            r@ == (re@, im@),
    {
        Cx { re, im }
    }

    /// The complex zero.
    pub fn zero() -> (r: Cx)
        ensures
            r@ == (0int, 0int),
    {
        Cx { re: Fx::zero(), im: Fx::zero() }
    }

    /// The complex one.
    pub fn one() -> (r: Cx)
        ensures
            r@ == (SCALE as int, 0int),
    {
        Cx { re: Fx::one(), im: Fx::zero() }
    }

    /// Componentwise (exact) addition.
    pub fn add(self, other: Cx) -> (r: Cx)
        requires
            cxadd_ok(self@, other@),
        ensures
            r@ == cxadd(self@, other@),
    {
        Cx { re: self.re.add(other.re), im: self.im.add(other.im) }
    }

    /// Componentwise (exact) subtraction.
    pub fn sub(self, other: Cx) -> (r: Cx)
        requires
            cxsub_ok(self@, other@),
        ensures
            r@ == cxsub(self@, other@),
    {
        Cx { re: self.re.sub(other.re), im: self.im.sub(other.im) }
    }

    /// Scaling by a real factor, componentwise in fixed point.
    pub fn scale(self, s: Fx) -> (r: Cx)
        requires
            cxscale_ok(self@, s@),
        ensures
            r@ == cxscale(self@, s@),
    {
        Cx { re: self.re.mul(s), im: self.im.mul(s) }
    }
}

} // verus!
