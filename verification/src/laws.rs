use vstd::prelude::*;
use crate::attributes::{cx_contrib, EconomicCapitalAttributes};
use crate::loan::Loan;
use crate::complex::cxadd;
use crate::fixed::{fxmul, tdiv, SCALE};
use crate::liquidity::{spec_expectation_liquidity, spec_variance_liquidity};

verus! {

/// Multiplying by one (the scale itself) is exact in fixed point.
pub proof fn lemma_fxmul_one(a: int)
    ensures
        fxmul(SCALE as int, a) == a,
        fxmul(a, SCALE as int) == a,
{
    if a >= 0 {
        vstd::arithmetic::div_mod::lemma_div_multiples_vanish(a, SCALE as int);
        assert((SCALE as int) * a == a * (SCALE as int)) by (nonlinear_arith);
        assert(tdiv((SCALE as int) * a, SCALE as int) == a);
    } else {
        vstd::arithmetic::div_mod::lemma_div_multiples_vanish(-a, SCALE as int);
        assert((SCALE as int) * (-a) == -((SCALE as int) * a)) by (nonlinear_arith);
        assert((SCALE as int) * (-a) == -(a * (SCALE as int))) by (nonlinear_arith);
        assert(tdiv((SCALE as int) * a, SCALE as int) == a);
    }
    assert(a * (SCALE as int) == (SCALE as int) * a) by (nonlinear_arith);
}

/// Trivial characteristic function: a per-grid-point log-CF value of
/// exactly one, processed with multiplicity one into a zero matrix entry,
/// leaves the entry equal to the systemic factor's exposure `w`.
pub proof fn lemma_trivial_cf_entry(w: int)
    ensures
        cxadd((0int, 0int), cx_contrib((SCALE as int, 0int), w, SCALE as int)) == (w, 0int),
{
    lemma_fxmul_one(w);
    assert(fxmul(0, w) == 0);
    assert(fxmul(0, SCALE as int) == 0);
}

/// Trivial characteristic function, at the level of the whole matrix:
/// processing a loan with multiplicity one and a constant exposure `w`
/// into empty attributes, with a per-grid-point log-CF that is exactly
/// one everywhere, leaves every matrix entry equal to `w`.
pub proof fn lemma_trivial_cf_matrix(
    prev: EconomicCapitalAttributes,
    next: EconomicCapitalAttributes,
    loan: Loan,
    vals: Seq<(int, int)>,
    w: int,
)
    requires
        next.cf_updated(prev, loan, vals),
        prev.num_w >= 1,
        loan.weight@.len() == prev.num_w as int,
        vals.len() * (prev.num_w as int) == prev.cf@.len(),
        forall|k: int| 0 <= k < prev.cf@.len() ==> #[trigger] prev.cf@[k]@ == (0int, 0int),
        forall|i: int| 0 <= i < vals.len() ==> #[trigger] vals[i] == (SCALE as int, 0int),
        forall|j: int| 0 <= j < loan.weight@.len() ==> #[trigger] loan.weight@[j]@ == w,
        loan.num@ == SCALE as int,
    ensures
        forall|k: int| 0 <= k < next.cf@.len() ==> #[trigger] next.cf@[k]@ == (w, 0int),
{
    assert forall|k: int| 0 <= k < next.cf@.len() implies #[trigger] next.cf@[k]@ == (w, 0int) by {
        vstd::arithmetic::mul::lemma_mul_is_commutative(prev.num_w as int, vals.len() as int);
        vstd::arithmetic::div_mod::lemma_multiply_divide_lt(k, prev.num_w as int, vals.len() as int);
        vstd::arithmetic::div_mod::lemma_mod_division_less_than_divisor(k, prev.num_w as int);
        vstd::arithmetic::div_mod::lemma_div_is_ordered(0, k, prev.num_w as int);
        vstd::arithmetic::div_mod::lemma_mod_bound(k, prev.num_w as int);
        lemma_trivial_cf_entry(w);
    };
}

/// Liquidity identity for the expectation: with `q == 0` the liquidity
/// overlay leaves the expected loss unchanged, exactly, at the level of
/// the executable fixed-point arithmetic.
pub proof fn lemma_expectation_liquidity_identity(lambda: int, e: int)
    ensures
        spec_expectation_liquidity(lambda, 0, e) == e,
{
    assert(fxmul(0, lambda) == 0);
    lemma_fxmul_one(e);
}

/// Liquidity identity for the variance: with `q == 0` the liquidity
/// overlay leaves the loss variance unchanged, exactly, at the level of
/// the executable fixed-point arithmetic.
pub proof fn lemma_variance_liquidity_identity(lambda: int, e: int, v: int)
    ensures
        spec_variance_liquidity(lambda, 0, e, v) == v,
{
    assert(fxmul(0, lambda) == 0);
    lemma_fxmul_one(SCALE as int);
    lemma_fxmul_one(v);
    assert(fxmul(e, 0) == 0);
    assert(fxmul(fxmul(e, 0), fxmul(lambda, lambda)) == 0);
}

/// The sum of a sequence of integers.
pub open spec fn sum_of(s: Seq<int>) -> int
    decreases s.len(),
{
    if s.len() == 0 {
        0
    } else {
        sum_of(s.drop_last()) + s.last()
    }
}

/// The linear (expectation) part of one loan's risk contribution, in
/// exact arithmetic: the loan's own expected share scaled by the
/// liquidity factor already in the portfolio, plus the loan's marginal
/// liquidity scaling applied to the whole portfolio expectation.
pub open spec fn exact_rc_linear(e_inc: int, lam_inc: int, e_tot: int, lambda0: int, q: int) -> int {
    (1 + q * lambda0) * e_inc + q * lam_inc * e_tot
}

/// The bracketed (variance) part of one loan's risk contribution, in
/// exact arithmetic, before division by the standard deviation.
pub open spec fn exact_rc_bracket(
    e_inc: int,
    v_inc: int,
    lam_inc: int,
    e_tot: int,
    v_tot: int,
    lambda0: int,
    lambda: int,
    q: int,
) -> int {
    (1 + q * lambda0) * (1 + q * lambda0) * v_inc + q * lam_inc * (2 * (1 + q * lambda0) + q
        * lambda) * v_tot - e_inc * q * (lambda0 * lambda0) - e_tot * (q * lam_inc * (2 * lambda0
        + lambda))
}

/// The liquidity-adjusted expectation in exact arithmetic.
pub open spec fn exact_expectation_liquidity(lambda: int, q: int, e: int) -> int {
    e * (1 + q * lambda)
}

/// The liquidity-adjusted variance in exact arithmetic.
pub open spec fn exact_variance_liquidity(lambda: int, q: int, e: int, v: int) -> int {
    v * (1 + q * lambda) * (1 + q * lambda) - e * q * (lambda * lambda)
}

/// The sum of the linear parts over a portfolio of loans.
pub open spec fn sum_rc_linear(
    e_incs: Seq<int>,
    lam_incs: Seq<int>,
    e_tot: int,
    lambda0: int,
    q: int,
) -> int
    decreases e_incs.len(),
{
    if e_incs.len() == 0 || lam_incs.len() == 0 {
        0
    } else {
        sum_rc_linear(e_incs.drop_last(), lam_incs.drop_last(), e_tot, lambda0, q)
            + exact_rc_linear(e_incs.last(), lam_incs.last(), e_tot, lambda0, q)
    }
}

/// The sum of the bracketed parts over a portfolio of loans.
pub open spec fn sum_rc_bracket(
    e_incs: Seq<int>,
    v_incs: Seq<int>,
    lam_incs: Seq<int>,
    e_tot: int,
    v_tot: int,
    lambda0: int,
    lambda: int,
    q: int,
) -> int
    decreases e_incs.len(),
{
    if e_incs.len() == 0 || v_incs.len() == 0 || lam_incs.len() == 0 {
        0
    } else {
        sum_rc_bracket(
            e_incs.drop_last(),
            v_incs.drop_last(),
            lam_incs.drop_last(),
            e_tot,
            v_tot,
            lambda0,
            lambda,
            q,
        ) + exact_rc_bracket(
            e_incs.last(),
            v_incs.last(),
            lam_incs.last(),
            e_tot,
            v_tot,
            lambda0,
            lambda,
            q,
        )
    }
}

/// Summing the linear parts is linear in the per-loan entries.
proof fn lemma_sum_rc_linear(
    e_incs: Seq<int>,
    lam_incs: Seq<int>,
    e_tot: int,
    lambda0: int,
    q: int,
)
    requires
        e_incs.len() == lam_incs.len(),
    ensures
        sum_rc_linear(e_incs, lam_incs, e_tot, lambda0, q) == (1 + q * lambda0) * sum_of(e_incs)
            + q * sum_of(lam_incs) * e_tot,
    decreases e_incs.len(),
{
    if e_incs.len() == 0 {
        assert((1 + q * lambda0) * 0 == 0) by (nonlinear_arith);
        assert(q * 0 * e_tot == 0) by (nonlinear_arith);
    } else {
        lemma_sum_rc_linear(e_incs.drop_last(), lam_incs.drop_last(), e_tot, lambda0, q);
        let se = sum_of(e_incs.drop_last());
        let sl = sum_of(lam_incs.drop_last());
        let e = e_incs.last();
        let l = lam_incs.last();
        assert((1 + q * lambda0) * (se + e) + q * (sl + l) * e_tot == ((1 + q * lambda0) * se + q
            * sl * e_tot) + ((1 + q * lambda0) * e + q * l * e_tot)) by (nonlinear_arith);
    }
}

/// One bracketed part, rewritten over its three per-loan entries with
/// the portfolio-level coefficients factored out.
proof fn lemma_bracket_coefficients(
    e_inc: int,
    v_inc: int,
    lam_inc: int,
    e_tot: int,
    v_tot: int,
    lambda0: int,
    lambda: int,
    q: int,
)
    ensures
        exact_rc_bracket(e_inc, v_inc, lam_inc, e_tot, v_tot, lambda0, lambda, q) == ((1 + q
            * lambda0) * (1 + q * lambda0)) * v_inc + (q * (2 * (1 + q * lambda0) + q * lambda)
            * v_tot - e_tot * (q * (2 * lambda0 + lambda))) * lam_inc - (q * (lambda0 * lambda0))
            * e_inc,
{
    let p2 = (1 + q * lambda0) * (1 + q * lambda0);
    let b0 = 2 * (1 + q * lambda0) + q * lambda;
    let g0 = 2 * lambda0 + lambda;
    assert(p2 * v_inc == (1 + q * lambda0) * (1 + q * lambda0) * v_inc) by (nonlinear_arith)
        requires
            p2 == (1 + q * lambda0) * (1 + q * lambda0),
    ;
    assert(q * lam_inc * b0 * v_tot == (q * b0 * v_tot) * lam_inc) by (nonlinear_arith);
    assert(e_tot * (q * lam_inc * g0) == (e_tot * (q * g0)) * lam_inc) by (nonlinear_arith);
    assert(e_inc * q * (lambda0 * lambda0) == (q * (lambda0 * lambda0)) * e_inc)
        by (nonlinear_arith);
    assert((q * b0 * v_tot - e_tot * (q * g0)) * lam_inc == (q * b0 * v_tot) * lam_inc - (e_tot * (
    q * g0)) * lam_inc) by (nonlinear_arith);
}

/// Summing the bracketed parts is linear in the per-loan entries.
proof fn lemma_sum_rc_bracket(
    e_incs: Seq<int>,
    v_incs: Seq<int>,
    lam_incs: Seq<int>,
    e_tot: int,
    v_tot: int,
    lambda0: int,
    lambda: int,
    q: int,
)
    requires
        e_incs.len() == v_incs.len(),
        e_incs.len() == lam_incs.len(),
    ensures
        sum_rc_bracket(e_incs, v_incs, lam_incs, e_tot, v_tot, lambda0, lambda, q) == ((1 + q
            * lambda0) * (1 + q * lambda0)) * sum_of(v_incs) + (q * (2 * (1 + q * lambda0) + q
            * lambda) * v_tot - e_tot * (q * (2 * lambda0 + lambda))) * sum_of(lam_incs) - (q * (
        lambda0 * lambda0)) * sum_of(e_incs),
    decreases e_incs.len(),
{
    let cv = (1 + q * lambda0) * (1 + q * lambda0);
    let cl = q * (2 * (1 + q * lambda0) + q * lambda) * v_tot - e_tot * (q * (2 * lambda0
        + lambda));
    let ce = q * (lambda0 * lambda0);
    if e_incs.len() == 0 {
        assert(cv * 0 == 0) by (nonlinear_arith);
        assert(cl * 0 == 0) by (nonlinear_arith)
            requires
                cl == q * (2 * (1 + q * lambda0) + q * lambda) * v_tot - e_tot * (q * (2 * lambda0
                    + lambda)),
        ;
        assert(ce * 0 == 0) by (nonlinear_arith);
    } else {
        lemma_sum_rc_bracket(
            e_incs.drop_last(),
            v_incs.drop_last(),
            lam_incs.drop_last(),
            e_tot,
            v_tot,
            lambda0,
            lambda,
            q,
        );
        lemma_bracket_coefficients(
            e_incs.last(),
            v_incs.last(),
            lam_incs.last(),
            e_tot,
            v_tot,
            lambda0,
            lambda,
            q,
        );
        let sv = sum_of(v_incs.drop_last());
        let se = sum_of(e_incs.drop_last());
        let sl = sum_of(lam_incs.drop_last());
        let e = e_incs.last();
        let v = v_incs.last();
        let l = lam_incs.last();
        assert(cv * (sv + v) == cv * sv + cv * v) by (nonlinear_arith);
        assert(cl * (sl + l) == cl * sl + cl * l) by (nonlinear_arith);
        assert(ce * (se + e) == ce * se + ce * e) by (nonlinear_arith);
    }
}

/// Euler risk-contribution additivity, in exact arithmetic.
///
/// For a portfolio whose loans contribute `e_incs` to the expected loss,
/// `v_incs` to the variance and `lam_incs` to the liquidity coefficient —
/// so that the portfolio totals are exactly the sums of those sequences —
/// the linear parts of the per-loan risk contributions sum to the
/// liquidity-adjusted portfolio expectation, and the bracketed variance
/// parts sum to the liquidity-adjusted portfolio variance, that is, to
/// the square of the standard deviation `sd` of liquid loss.  Since each
/// full contribution is `linear + c * bracket / sd`, the contributions
/// sum to `E[L_liquid] + c * sd(L_liquid)`: probing every loan and adding
/// the results recovers the portfolio risk measure exactly.
pub proof fn lemma_risk_contribution_additivity(
    e_incs: Seq<int>,
    v_incs: Seq<int>,
    lam_incs: Seq<int>,
    lambda0: int,
    q: int,
)
    requires
        e_incs.len() == v_incs.len(),
        e_incs.len() == lam_incs.len(),
    ensures
        sum_rc_linear(e_incs, lam_incs, sum_of(e_incs), lambda0, q)
            == exact_expectation_liquidity(lambda0 + sum_of(lam_incs), q, sum_of(e_incs)),
        sum_rc_bracket(
            e_incs,
            v_incs,
            lam_incs,
            sum_of(e_incs),
            sum_of(v_incs),
            lambda0,
            sum_of(lam_incs),
            q,
        ) == exact_variance_liquidity(
            lambda0 + sum_of(lam_incs),
            q,
            sum_of(e_incs),
            sum_of(v_incs),
        ),
{
    let e_tot = sum_of(e_incs);
    let v_tot = sum_of(v_incs);
    let lam = sum_of(lam_incs);
    lemma_sum_rc_linear(e_incs, lam_incs, e_tot, lambda0, q);
    assert((1 + q * lambda0) * e_tot + q * lam * e_tot == e_tot * (1 + q * (lambda0 + lam)))
        by (nonlinear_arith);
    lemma_sum_rc_bracket(e_incs, v_incs, lam_incs, e_tot, v_tot, lambda0, lam, q);
    let cv = (1 + q * lambda0) * (1 + q * lambda0);
    let cl = q * (2 * (1 + q * lambda0) + q * lam) * v_tot - e_tot * (q * (2 * lambda0 + lam));
    let ce = q * (lambda0 * lambda0);
    let t = q * lambda0;
    let u = q * lam;
    let growth = (1 + t) * (1 + t) + u * (2 * (1 + t) + u);
    assert(growth == (1 + t + u) * (1 + t + u)) by (nonlinear_arith)
        requires
            growth == (1 + t) * (1 + t) + u * (2 * (1 + t) + u),
    ;
    assert(1 + t + u == 1 + q * (lambda0 + lam)) by (nonlinear_arith)
        requires
            t == q * lambda0,
            u == q * lam,
    ;
    assert((q * (2 * (1 + q * lambda0) + q * lam) * v_tot) * lam == (u * (2 * (1 + t) + u))
        * v_tot) by (nonlinear_arith)
        requires
            t == q * lambda0,
            u == q * lam,
    ;
    assert(cv * v_tot + (u * (2 * (1 + t) + u)) * v_tot == growth * v_tot) by (nonlinear_arith)
        requires
            cv == (1 + t) * (1 + t),
            growth == (1 + t) * (1 + t) + u * (2 * (1 + t) + u),
    ;
    assert(growth * v_tot == v_tot * (1 + q * (lambda0 + lam)) * (1 + q * (lambda0 + lam)))
        by (nonlinear_arith)
        requires
            growth == (1 + q * (lambda0 + lam)) * (1 + q * (lambda0 + lam)),
    ;
    assert(cv == (1 + t) * (1 + t)) by (nonlinear_arith)
        requires
            t == q * lambda0,
            cv == (1 + q * lambda0) * (1 + q * lambda0),
    ;
    assert(lambda0 * lambda0 + lam * (2 * lambda0 + lam) == (lambda0 + lam) * (lambda0 + lam))
        by (nonlinear_arith);
    assert((e_tot * (q * (2 * lambda0 + lam))) * lam == (e_tot * q) * (lam * (2 * lambda0 + lam)))
        by (nonlinear_arith);
    assert(ce * e_tot == (e_tot * q) * (lambda0 * lambda0)) by (nonlinear_arith)
        requires
            ce == q * (lambda0 * lambda0),
    ;
    assert((e_tot * q) * (lambda0 * lambda0) + (e_tot * q) * (lam * (2 * lambda0 + lam)) == (e_tot
        * q) * ((lambda0 + lam) * (lambda0 + lam))) by (nonlinear_arith)
        requires
            lambda0 * lambda0 + lam * (2 * lambda0 + lam) == (lambda0 + lam) * (lambda0 + lam),
    ;
    assert((e_tot * q) * ((lambda0 + lam) * (lambda0 + lam)) == e_tot * q * ((lambda0 + lam) * (
    lambda0 + lam))) by (nonlinear_arith);
    assert(cl * lam == (q * (2 * (1 + q * lambda0) + q * lam) * v_tot) * lam - (e_tot * (q * (2
        * lambda0 + lam))) * lam) by (nonlinear_arith)
        requires
            cl == q * (2 * (1 + q * lambda0) + q * lam) * v_tot - e_tot * (q * (2 * lambda0
                + lam)),
    ;
}

/// Euler risk-contribution additivity, completed through the risk
/// measure: if `sd` is the exact standard deviation of the
/// liquidity-adjusted loss (so that `sd * sd` is the liquidity-adjusted
/// variance), then summing the complete per-loan contributions — linear
/// part plus `c` times the bracketed part divided by `sd` — recovers
/// `E[L_liquid] + c * sd(L_liquid)` exactly.
pub proof fn lemma_euler_risk_measure(
    e_incs: Seq<int>,
    v_incs: Seq<int>,
    lam_incs: Seq<int>,
    lambda0: int,
    q: int,
    c: int,
    sd: int,
)
    requires
        e_incs.len() == v_incs.len(),
        e_incs.len() == lam_incs.len(),
        sd >= 1,
        sd * sd == exact_variance_liquidity(
            lambda0 + sum_of(lam_incs),
            q,
            sum_of(e_incs),
            sum_of(v_incs),
        ),
    ensures
        sum_rc_linear(e_incs, lam_incs, sum_of(e_incs), lambda0, q) + tdiv(
            c * sum_rc_bracket(
                e_incs,
                v_incs,
                lam_incs,
                sum_of(e_incs),
                sum_of(v_incs),
                lambda0,
                sum_of(lam_incs),
                q,
            ),
            sd,
        ) == exact_expectation_liquidity(lambda0 + sum_of(lam_incs), q, sum_of(e_incs)) + c * sd,
{
    lemma_risk_contribution_additivity(e_incs, v_incs, lam_incs, lambda0, q);
    let vl = exact_variance_liquidity(
        lambda0 + sum_of(lam_incs),
        q,
        sum_of(e_incs),
        sum_of(v_incs),
    );
    assert(c * vl == sd * (c * sd)) by (nonlinear_arith)
        requires
            vl == sd * sd,
    ;
    if c * sd >= 0 {
        vstd::arithmetic::div_mod::lemma_div_multiples_vanish(c * sd, sd);
        assert(tdiv(c * vl, sd) == c * sd);
    } else {
        vstd::arithmetic::div_mod::lemma_div_multiples_vanish(-(c * sd), sd);
        assert(sd * (-(c * sd)) == -(sd * (c * sd))) by (nonlinear_arith);
        assert((-(c * vl)) / sd == -(c * sd));
        assert(tdiv(c * vl, sd) == c * sd);
    }
}

} // verus!
