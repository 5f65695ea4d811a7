use vstd::prelude::*;
use crate::complex::{cxscale, cxscale_ok, cxsub, cxsub_ok, Cx};
use crate::fixed::{fits, fxdiv, fxmul, fxsqrt, is_isqrt_of, mul_ok, Fx, SCALE};
use crate::loan::{
    el_from_loan_ok, get_el_from_loan, get_lambda_from_loan, get_var_from_loan,
    lambda_from_loan_ok, spec_el_from_loan, spec_lambda_from_loan, spec_var_from_loan,
    var_from_loan_ok, Loan,
};
use crate::attributes::{
    dot_ok, dot_sq_ok, portfolio_expectation, portfolio_variance, spec_dot, spec_dot_sq,
    spec_portfolio_expectation, spec_portfolio_variance,
};

verus! {

/// The model of the liquidity transform `T(u) = u - q * (exp(-u*lambda) - 1)`
/// on a Fourier argument `u`, given the already-evaluated complex
/// exponential `shock_exp = exp(-u*lambda)`.  Losses are negative, so
/// `-u*X` with `X < 0` gives the probability-of-shock weighting, and the
/// `-1` normalizes so that a zero shock is the identity.
pub open spec fn spec_liquidity_transform(u: (int, int), shock_exp: (int, int), q: int) -> (
    int,
    int,
) {
    cxsub(u, cxscale(cxsub(shock_exp, (SCALE as int, 0int)), q))
}

/// The arithmetic of `liquidity_transform` stays within the machine word.
pub open spec fn liquidity_transform_ok(u: (int, int), shock_exp: (int, int), q: int) -> bool {
    &&& cxsub_ok(shock_exp, (SCALE as int, 0int))
    &&& cxscale_ok(cxsub(shock_exp, (SCALE as int, 0int)), q)
    &&& cxsub_ok(u, cxscale(cxsub(shock_exp, (SCALE as int, 0int)), q))
}

/// The liquidity transform on one Fourier argument.  The transcendental
/// part — the complex exponential `exp(-u*lambda)` — is handed in by the
/// caller; this function performs the surrounding arithmetic.
pub fn liquidity_transform(u: Cx, shock_exp: Cx, q: Fx) -> (r: Cx)
    requires
        liquidity_transform_ok(u@, shock_exp@, q@),
    ensures
        r@ == spec_liquidity_transform(u@, shock_exp@, q@),
{
    u.sub(shock_exp.sub(Cx::one()).scale(q))
}

/// The expected loss after the liquidity overlay:
/// `E[L_liquid] = E[L] * (1 + q * lambda)` in fixed point.
pub open spec fn spec_expectation_liquidity(lambda: int, q: int, e: int) -> int {
    fxmul(e, SCALE as int + fxmul(q, lambda))
}

/// The arithmetic of `expectation_liquidity` stays within the machine word.
pub open spec fn expectation_liquidity_ok(lambda: int, q: int, e: int) -> bool {
    &&& mul_ok(q, lambda)
    &&& fits(SCALE as int + fxmul(q, lambda))
    &&& mul_ok(e, SCALE as int + fxmul(q, lambda))
}

/// The loss variance after the liquidity overlay:
/// `Var[L_liquid] = Var[L] * (1 + q * lambda)^2 - E[L] * q * lambda^2`
/// in fixed point.
pub open spec fn spec_variance_liquidity(lambda: int, q: int, e: int, v: int) -> int {
    let s = SCALE as int + fxmul(q, lambda);
    fxmul(v, fxmul(s, s)) - fxmul(fxmul(e, q), fxmul(lambda, lambda))
}

/// The arithmetic of `variance_liquidity` stays within the machine word.
pub open spec fn variance_liquidity_ok(lambda: int, q: int, e: int, v: int) -> bool {
    let s = SCALE as int + fxmul(q, lambda);
    &&& mul_ok(q, lambda)
    &&& fits(s)
    &&& mul_ok(s, s)
    &&& mul_ok(v, fxmul(s, s))
    &&& mul_ok(e, q)
    &&& mul_ok(lambda, lambda)
    &&& mul_ok(fxmul(e, q), fxmul(lambda, lambda))
    &&& fits(fxmul(v, fxmul(s, s)) - fxmul(fxmul(e, q), fxmul(lambda, lambda)))
}

/// Expected loss with the liquidity shock folded in.
pub fn expectation_liquidity(lambda: Fx, q: Fx, expectation: Fx) -> (r: Fx)
    requires
        expectation_liquidity_ok(lambda@, q@, expectation@),
    ensures
        r@ == spec_expectation_liquidity(lambda@, q@, expectation@),
{
    expectation.mul(Fx::one().add(q.mul(lambda)))
}

/// Loss variance with the liquidity shock folded in.
pub fn variance_liquidity(lambda: Fx, q: Fx, expectation: Fx, variance: Fx) -> (r: Fx)
    requires
        variance_liquidity_ok(lambda@, q@, expectation@, variance@),
    ensures
        r@ == spec_variance_liquidity(lambda@, q@, expectation@, variance@),
{
    let s = Fx::one().add(q.mul(lambda));
    variance.mul(s.mul(s)).sub(expectation.mul(q).mul(lambda.mul(lambda)))
}

/// The loan's marginal expected-loss contribution weighted by the systemic
/// expectations, over the first `k` factors.
pub open spec fn spec_el_inc(loan: Loan, el_sys: Seq<Fx>, k: int) -> int
    decreases k,
{
    if k <= 0 {
        0
    } else {
        spec_el_inc(loan, el_sys, k - 1) + fxmul(
            spec_el_from_loan(loan, loan.weight@[k - 1]@),
            el_sys[k - 1]@,
        )
    }
}

/// The idiosyncratic part of the loan's marginal variance contribution,
/// over the first `k` factors.
pub open spec fn spec_var_inc_own(loan: Loan, el_sys: Seq<Fx>, k: int) -> int
    decreases k,
{
    if k <= 0 {
        0
    } else {
        spec_var_inc_own(loan, el_sys, k - 1) + fxmul(
            spec_var_from_loan(loan, loan.weight@[k - 1]@),
            el_sys[k - 1]@,
        )
    }
}

/// The systemic cross term of the loan's marginal variance contribution
/// against the portfolio's existing expected-loss vector, over the first
/// `k` factors.
pub open spec fn spec_var_inc_cross(loan: Loan, el_vec: Seq<Fx>, var_sys: Seq<Fx>, k: int) -> int
    decreases k,
{
    if k <= 0 {
        0
    } else {
        spec_var_inc_cross(loan, el_vec, var_sys, k - 1) + fxmul(
            fxmul(el_vec[k - 1]@, var_sys[k - 1]@),
            spec_el_from_loan(loan, loan.weight@[k - 1]@),
        )
    }
}

/// The loan's marginal contribution to the portfolio variance, using the
/// two-level decomposition (own second moment plus cross term).
pub open spec fn spec_variance_incremental(
    loan: Loan,
    el_sys: Seq<Fx>,
    el_vec: Seq<Fx>,
    var_sys: Seq<Fx>,
) -> int {
    spec_var_inc_own(loan, el_sys, el_sys.len() as int) + spec_var_inc_cross(
        loan,
        el_vec,
        var_sys,
        el_sys.len() as int,
    )
}

/// The arithmetic of `expectation_incremental` stays within the machine word.
pub open spec fn el_inc_ok(loan: Loan, el_sys: Seq<Fx>) -> bool {
    &&& forall|j: int|
        0 <= j < el_sys.len() ==> el_from_loan_ok(loan, #[trigger] loan.weight@[j]@)
    &&& forall|j: int|
        0 <= j < el_sys.len() ==> mul_ok(
            spec_el_from_loan(loan, loan.weight@[j]@),
            #[trigger] el_sys[j]@,
        )
    &&& forall|k: int| 0 <= k <= el_sys.len() ==> fits(#[trigger] spec_el_inc(loan, el_sys, k))
}

/// The arithmetic of `variance_incremental` stays within the machine word.
pub open spec fn var_inc_ok(loan: Loan, el_sys: Seq<Fx>, el_vec: Seq<Fx>, var_sys: Seq<Fx>) -> bool {
    &&& forall|j: int|
        0 <= j < el_sys.len() ==> var_from_loan_ok(loan, #[trigger] loan.weight@[j]@)
    &&& forall|j: int|
        0 <= j < el_sys.len() ==> mul_ok(
            spec_var_from_loan(loan, loan.weight@[j]@),
            #[trigger] el_sys[j]@,
        )
    &&& forall|k: int|
        0 <= k <= el_sys.len() ==> fits(#[trigger] spec_var_inc_own(loan, el_sys, k))
    &&& forall|j: int|
        0 <= j < el_sys.len() ==> el_from_loan_ok(loan, #[trigger] loan.weight@[j]@)
    &&& forall|j: int| 0 <= j < el_sys.len() ==> mul_ok(#[trigger] el_vec[j]@, var_sys[j]@)
    &&& forall|j: int|
        0 <= j < el_sys.len() ==> mul_ok(
            fxmul(#[trigger] el_vec[j]@, var_sys[j]@),
            spec_el_from_loan(loan, loan.weight@[j]@),
        )
    &&& forall|k: int|
        0 <= k <= el_sys.len() ==> fits(#[trigger] spec_var_inc_cross(loan, el_vec, var_sys, k))
    &&& fits(
        spec_var_inc_own(loan, el_sys, el_sys.len() as int) + spec_var_inc_cross(
            loan,
            el_vec,
            var_sys,
            el_sys.len() as int,
        ),
    )
}

/// The loan's marginal expected-loss contribution, weighted by the
/// systemic expectations.
pub fn expectation_incremental(loan: &Loan, el_sys: &Vec<Fx>) -> (r: Fx)
    requires
        loan.weight@.len() == el_sys@.len(),
        el_inc_ok(*loan, el_sys@),
    ensures
        r@ == spec_el_inc(*loan, el_sys@, el_sys@.len() as int),
{
    let n = el_sys.len();
    let mut acc = Fx::zero();
    let mut j: usize = 0;
    while j < n
        invariant
            n == el_sys@.len(),
            n == loan.weight@.len(),
            el_inc_ok(*loan, el_sys@),
            j <= n,
            acc@ == spec_el_inc(*loan, el_sys@, j as int),
        decreases n - j,
    {
        proof {
            assert(fits(spec_el_inc(*loan, el_sys@, j as int + 1)));
        }
        acc = acc.add(get_el_from_loan(loan, loan.weight[j]).mul(el_sys[j]));
        j += 1;
    }
    acc
}

/// The loan's marginal variance contribution: its own weighted second
/// moment plus the cross term against the accumulated expected losses.
pub fn variance_incremental(
    loan: &Loan,
    el_sys: &Vec<Fx>,
    el_vec: &Vec<Fx>,
    var_sys: &Vec<Fx>,
) -> (r: Fx)
    requires
        loan.weight@.len() == el_sys@.len(),
        el_vec@.len() == el_sys@.len(),
        var_sys@.len() == el_sys@.len(),
        var_inc_ok(*loan, el_sys@, el_vec@, var_sys@),
    ensures
        r@ == spec_variance_incremental(*loan, el_sys@, el_vec@, var_sys@),
{
    let n = el_sys.len();
    let mut own = Fx::zero();
    let mut j: usize = 0;
    while j < n
        invariant
            n == el_sys@.len(),
            n == loan.weight@.len(),
            var_inc_ok(*loan, el_sys@, el_vec@, var_sys@),
            j <= n,
            own@ == spec_var_inc_own(*loan, el_sys@, j as int),
        decreases n - j,
    {
        proof {
            assert(fits(spec_var_inc_own(*loan, el_sys@, j as int + 1)));
        }
        own = own.add(get_var_from_loan(loan, loan.weight[j]).mul(el_sys[j]));
        j += 1;
    }
    let mut cross = Fx::zero();
    let mut t: usize = 0;
    while t < n
        invariant
            n == el_sys@.len(),
            n == loan.weight@.len(),
            n == el_vec@.len(),
            n == var_sys@.len(),
            var_inc_ok(*loan, el_sys@, el_vec@, var_sys@),
            t <= n,
            cross@ == spec_var_inc_cross(*loan, el_vec@, var_sys@, t as int),
        decreases n - t,
    {
        proof {
            assert(fits(spec_var_inc_cross(*loan, el_vec@, var_sys@, t as int + 1)));
        }
        cross = cross.add(el_vec[t].mul(var_sys[t]).mul(get_el_from_loan(loan, loan.weight[t])));
        t += 1;
    }
    own.add(cross)
}

/// The model of the risk contribution of one (existing or hypothetical)
/// loan toward `E[L_liquid] + c * sd(L_liquid)`, mirroring the executable
/// arithmetic step by step.
pub open spec fn spec_risk_contribution(
    loan: Loan,
    el_vec: Seq<Fx>,
    el_sys: Seq<Fx>,
    var_vec: Seq<Fx>,
    var_sys: Seq<Fx>,
    lambda0: int,
    lambda: int,
    q: int,
    c: int,
) -> int {
    let esi = SCALE as int + fxmul(q, lambda0);
    let est = fxmul(q, spec_lambda_from_loan(loan));
    let e_tot = spec_portfolio_expectation(el_vec, el_sys);
    let v_tot = spec_portfolio_variance(el_vec, el_sys, var_vec, var_sys);
    let sd = fxsqrt(spec_variance_liquidity(lambda + lambda0, q, e_tot, v_tot));
    let vsi = fxmul(esi, esi);
    let vst = fxmul(est, esi + esi + fxmul(q, lambda));
    let vet = fxmul(est, lambda0 + lambda0 + lambda);
    let e_inc = spec_el_inc(loan, el_sys, el_sys.len() as int);
    let v_inc = spec_variance_incremental(loan, el_sys, el_vec, var_sys);
    let bracket = fxmul(vsi, v_inc) + fxmul(vst, v_tot) - fxmul(
        fxmul(e_inc, q),
        fxmul(lambda0, lambda0),
    ) - fxmul(e_tot, vet);
    fxmul(esi, e_inc) + fxmul(est, e_tot) + fxdiv(fxmul(c, bracket), sd)
}

/// The arithmetic of `risk_contribution` stays within the machine word,
/// and the liquidity-adjusted variance is positive so that its square
/// root can be divided by.
pub open spec fn risk_contribution_ok(
    loan: Loan,
    el_vec: Seq<Fx>,
    el_sys: Seq<Fx>,
    var_vec: Seq<Fx>,
    var_sys: Seq<Fx>,
    lambda0: int,
    lambda: int,
    q: int,
    c: int,
) -> bool {
    let esi = SCALE as int + fxmul(q, lambda0);
    let est = fxmul(q, spec_lambda_from_loan(loan));
    let e_tot = spec_portfolio_expectation(el_vec, el_sys);
    let v_tot = spec_portfolio_variance(el_vec, el_sys, var_vec, var_sys);
    let vl = spec_variance_liquidity(lambda + lambda0, q, e_tot, v_tot);
    let sd = fxsqrt(vl);
    let vsi = fxmul(esi, esi);
    let vst = fxmul(est, esi + esi + fxmul(q, lambda));
    let vet = fxmul(est, lambda0 + lambda0 + lambda);
    let e_inc = spec_el_inc(loan, el_sys, el_sys.len() as int);
    let v_inc = spec_variance_incremental(loan, el_sys, el_vec, var_sys);
    let bracket = fxmul(vsi, v_inc) + fxmul(vst, v_tot) - fxmul(
        fxmul(e_inc, q),
        fxmul(lambda0, lambda0),
    ) - fxmul(e_tot, vet);
    &&& loan.weight@.len() == el_sys.len()
    &&& el_vec.len() == el_sys.len()
    &&& var_vec.len() == el_sys.len()
    &&& var_sys.len() == el_sys.len()
    &&& lambda_from_loan_ok(loan)
    &&& mul_ok(q, lambda0)
    &&& fits(esi)
    &&& mul_ok(q, spec_lambda_from_loan(loan))
    &&& dot_ok(el_vec, el_sys)
    &&& dot_ok(var_vec, el_sys)
    &&& dot_sq_ok(el_vec, var_sys)
    &&& fits(v_tot)
    &&& fits(lambda + lambda0)
    &&& variance_liquidity_ok(lambda + lambda0, q, e_tot, v_tot)
    &&& vl >= 1
    &&& vl * (SCALE as int) <= i128::MAX as int
    &&& mul_ok(esi, esi)
    &&& mul_ok(q, lambda)
    &&& fits(esi + esi)
    &&& fits(esi + esi + fxmul(q, lambda))
    &&& mul_ok(est, esi + esi + fxmul(q, lambda))
    &&& fits(lambda0 + lambda0)
    &&& fits(lambda0 + lambda0 + lambda)
    &&& mul_ok(est, lambda0 + lambda0 + lambda)
    &&& el_inc_ok(loan, el_sys)
    &&& var_inc_ok(loan, el_sys, el_vec, var_sys)
    &&& mul_ok(vsi, v_inc)
    &&& mul_ok(vst, v_tot)
    &&& mul_ok(e_inc, q)
    &&& mul_ok(lambda0, lambda0)
    &&& mul_ok(fxmul(e_inc, q), fxmul(lambda0, lambda0))
    &&& mul_ok(e_tot, vet)
    &&& fits(fxmul(vsi, v_inc) + fxmul(vst, v_tot))
    &&& fits(fxmul(vsi, v_inc) + fxmul(vst, v_tot) - fxmul(fxmul(e_inc, q), fxmul(lambda0, lambda0)))
    &&& fits(bracket)
    &&& mul_ok(c, bracket)
    &&& fxmul(c, bracket) * (SCALE as int) <= i128::MAX as int
    &&& -(i128::MAX as int) <= fxmul(c, bracket) * (SCALE as int)
    &&& mul_ok(esi, e_inc)
    &&& mul_ok(est, e_tot)
    &&& fits(fxmul(esi, e_inc) + fxmul(est, e_tot))
    &&& fits(fxmul(esi, e_inc) + fxmul(est, e_tot) + fxdiv(fxmul(c, bracket), sd))
}

/// The risk contribution of one loan toward the risk measure
/// `E[L_liquid] + c * sd(L_liquid)`, decomposed into the loan's own
/// (incremental) share scaled by the accumulated liquidity factor, and the
/// scaling share tied to the loan's own liquidity coefficient.
pub fn risk_contribution(
    loan: &Loan,
    el_vec: &Vec<Fx>,
    el_sys: &Vec<Fx>,
    var_vec: &Vec<Fx>,
    var_sys: &Vec<Fx>,
    lambda0: Fx,
    lambda: Fx,
    q: Fx,
    c: Fx,
) -> (r: Fx)
    requires
        risk_contribution_ok(
            *loan,
            el_vec@,
            el_sys@,
            var_vec@,
            var_sys@,
            lambda0@,
            lambda@,
            q@,
            c@,
        ),
    ensures
        r@ == spec_risk_contribution(
            *loan,
            el_vec@,
            el_sys@,
            var_vec@,
            var_sys@,
            lambda0@,
            lambda@,
            q@,
            c@,
        ),
{
    let el_scalar_incremental = Fx::one().add(q.mul(lambda0));
    let el_scalar_total = q.mul(get_lambda_from_loan(loan));
    let expectation_total = portfolio_expectation(el_vec, el_sys);
    let variance_total = portfolio_variance(el_vec, el_sys, var_vec, var_sys);
    let variance_liquid = variance_liquidity(
        lambda.add(lambda0),
        q,
        expectation_total,
        variance_total,
    );
    let standard_deviation = variance_liquid.sqrt();
    proof {
        let sd = standard_deviation@;
        assert(is_isqrt_of(sd, variance_liquid@ * (SCALE as int)));
        assert(sd >= 1) by (nonlinear_arith)
            requires
                sd >= 0,
                (sd + 1) * (sd + 1) > variance_liquid@ * (SCALE as int),
                variance_liquid@ >= 1,
        ;
    }
    let var_scalar_incremental = el_scalar_incremental.mul(el_scalar_incremental);
    let var_scalar_total = el_scalar_total.mul(
        el_scalar_incremental.add(el_scalar_incremental).add(q.mul(lambda)),
    );
    let var_el_total = el_scalar_total.mul(lambda0.add(lambda0).add(lambda));
    let expectation_inc = expectation_incremental(loan, el_sys);
    let variance_inc = variance_incremental(loan, el_sys, el_vec, var_sys);
    let bracket = var_scalar_incremental.mul(variance_inc).add(
        var_scalar_total.mul(variance_total),
    ).sub(expectation_inc.mul(q).mul(lambda0.mul(lambda0))).sub(
        expectation_total.mul(var_el_total),
    );
    el_scalar_incremental.mul(expectation_inc).add(el_scalar_total.mul(expectation_total)).add(
        c.mul(bracket).div(standard_deviation),
    )
}

} // verus!
