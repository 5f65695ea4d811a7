use vstd::prelude::*;
use crate::complex::{cxscale, cxscale_ok, cxsub, cxsub_ok, Cx};
use crate::fixed::{Fx, fxmul, mul_ok, SCALE};

verus! {

/// A loan, or a class of `num` identical loans.  All scalar fields are
/// fixed-point numbers; `weight` holds the exposures to the systemic
/// factors.  Losses are represented as negative numbers throughout the
/// library, so the expected-loss contribution of a loan is negative.
#[derive(Clone, Debug)]
pub struct Loan {
    pub balance: Fx,
    pub pd: Fx,
    pub lgd: Fx,
    pub weight: Vec<Fx>,
    pub r: Fx,
    pub lgd_variance: Fx,
    pub num: Fx,
}

/// The expected-loss contribution of the loan toward one systemic factor
/// with exposure `w`: `-(lgd * balance * w * pd * num)`, evaluated left to
/// right in fixed point.
pub open spec fn spec_el_from_loan(loan: Loan, w: int) -> int {
    -fxmul(fxmul(fxmul(fxmul(loan.lgd@, loan.balance@), w), loan.pd@), loan.num@)
}

/// Every product in the expected-loss chain stays within the machine word.
pub open spec fn el_from_loan_ok(loan: Loan, w: int) -> bool {
    let m1 = fxmul(loan.lgd@, loan.balance@);
    let m2 = fxmul(m1, w);
    let m3 = fxmul(m2, loan.pd@);
    &&& mul_ok(loan.lgd@, loan.balance@)
    &&& mul_ok(m1, w)
    &&& mul_ok(m2, loan.pd@)
    &&& mul_ok(m3, loan.num@)
}

/// The second-moment contribution of the loan toward one systemic factor:
/// `(1 + lgd_variance) * (lgd * balance)^2 * w * pd * num` in fixed point.
/// This is `pd * E[l^2] * w`, not a variance.
pub open spec fn spec_var_from_loan(loan: Loan, w: int) -> int {
    let lb = fxmul(loan.lgd@, loan.balance@);
    let lb2 = fxmul(lb, lb);
    let a = fxmul(SCALE as int + loan.lgd_variance@, lb2);
    fxmul(fxmul(fxmul(a, w), loan.pd@), loan.num@)
}

/// Every product in the second-moment chain stays within the machine word.
pub open spec fn var_from_loan_ok(loan: Loan, w: int) -> bool {
    let lb = fxmul(loan.lgd@, loan.balance@);
    let lb2 = fxmul(lb, lb);
    let a = fxmul(SCALE as int + loan.lgd_variance@, lb2);
    let m1 = fxmul(a, w);
    let m2 = fxmul(m1, loan.pd@);
    &&& mul_ok(loan.lgd@, loan.balance@)
    &&& mul_ok(lb, lb)
    &&& i128::MIN as int <= SCALE as int + loan.lgd_variance@ <= i128::MAX as int
    &&& mul_ok(SCALE as int + loan.lgd_variance@, lb2)
    &&& mul_ok(a, w)
    &&& mul_ok(m1, loan.pd@)
    &&& mul_ok(m2, loan.num@)
}

/// The liquidity coefficient the loan adds to the portfolio:
/// `balance * r * num` in fixed point.
pub open spec fn spec_lambda_from_loan(loan: Loan) -> int {
    fxmul(fxmul(loan.balance@, loan.r@), loan.num@)
}

/// Every product in the liquidity chain stays within the machine word.
pub open spec fn lambda_from_loan_ok(loan: Loan) -> bool {
    &&& mul_ok(loan.balance@, loan.r@)
    &&& mul_ok(fxmul(loan.balance@, loan.r@), loan.num@)
}

/// The model of the composed per-loan log-characteristic-function
/// contribution `g(u, L) = (CF_LGD(T(u); lgd*balance, lgd_variance) - 1) * pd`,
/// given the already-evaluated LGD characteristic function value.
pub open spec fn spec_log_lpm_from_cf(lgd_cf: (int, int), pd: int) -> (int, int) {
    cxscale(cxsub(lgd_cf, (SCALE as int, 0int)), pd)
}

/// The arithmetic of `log_lpm_from_cf` stays within the machine word.
pub open spec fn log_lpm_from_cf_ok(lgd_cf: (int, int), pd: int) -> bool {
    &&& cxsub_ok(lgd_cf, (SCALE as int, 0int))
    &&& cxscale_ok(cxsub(lgd_cf, (SCALE as int, 0int)), pd)
}

/// One value of the composed per-loan log-CF: the LGD characteristic
/// function, already evaluated at the (liquidity-transformed) Fourier
/// argument, is shifted by one and weighted by the default probability.
/// The transcendental evaluation itself is handed in by the caller.
pub fn log_lpm_from_cf(lgd_cf: Cx, pd: Fx) -> (r: Cx)
    requires
        log_lpm_from_cf_ok(lgd_cf@, pd@),
    ensures
        r@ == spec_log_lpm_from_cf(lgd_cf@, pd@),
{
    lgd_cf.sub(Cx::one()).scale(pd)
}

/// Expected-loss contribution of `loan` with exposure `w`.
pub fn get_el_from_loan(loan: &Loan, w: Fx) -> (r: Fx)
    requires
        el_from_loan_ok(*loan, w@),
    ensures
        r@ == spec_el_from_loan(*loan, w@),
{
    loan.lgd.mul(loan.balance).mul(w).mul(loan.pd).mul(loan.num).neg()
}

/// Second-moment contribution of `loan` with exposure `w`.
pub fn get_var_from_loan(loan: &Loan, w: Fx) -> (r: Fx)
    requires
        var_from_loan_ok(*loan, w@),
    ensures
        r@ == spec_var_from_loan(*loan, w@),
{
    let lb = loan.lgd.mul(loan.balance);
    Fx::one().add(loan.lgd_variance).mul(lb.mul(lb)).mul(w).mul(loan.pd).mul(loan.num)
}

/// Liquidity coefficient of `loan`.
pub fn get_lambda_from_loan(loan: &Loan) -> (r: Fx)
    requires
        lambda_from_loan_ok(*loan),
    ensures
        r@ == spec_lambda_from_loan(*loan),
{
    loan.balance.mul(loan.r).mul(loan.num)
}

} // verus!
