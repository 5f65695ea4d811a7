use vstd::prelude::*;
use crate::complex::{Cx, cx_of, cxadd, cxadd_ok, cxscale, cxscale_ok};
use crate::fixed::{fits, Fx, fxmul, mul_ok};
use crate::loan::{
    Loan, el_from_loan_ok, get_el_from_loan, get_lambda_from_loan, get_var_from_loan,
    lambda_from_loan_ok, spec_el_from_loan, spec_lambda_from_loan, spec_var_from_loan,
    var_from_loan_ok,
};

verus! {

/// The stateful core of the library: the conditional log-characteristic
/// function of portfolio loss, kept as a row-major matrix of complex
/// values with one row per Fourier grid point and one column per systemic
/// factor, together with the analytic moment accumulators.
///
/// After processing loans `L_1 .. L_k`, entry `(i, j)` of the matrix holds
/// the sum over the loans of `g(u_i, L_n) * weight_n[j] * num_n`, where
/// `g` is the composed per-loan log-CF handed to `process_loan`;
/// `el_vec[j]` holds the (negative) expected-loss sums, `var_vec[j]` the
/// second-moment sums, and `lambda` the aggregate liquidity coefficient.
pub struct EconomicCapitalAttributes {
    pub cf: Vec<Cx>,
    pub el_vec: Vec<Fx>,
    pub var_vec: Vec<Fx>,
    pub num_w: usize,
    pub lambda: Fx,
}

/// Magnitude cap demanded of every per-grid-point log-CF value a caller's
/// closure may return (a value of one thousand at the library's scale):
/// it keeps the matrix update free of overflow whatever the closure does.
pub const CF_VALUE_BOUND: i128 = 1_000_000_000_000_000_000;

/// Magnitude cap on a systemic-factor exposure in the closure-driven
/// entry points (a value of ten).
pub const WEIGHT_BOUND: i128 = 10_000_000_000_000_000;

/// Magnitude cap on a loan multiplicity in the closure-driven entry
/// points (ten thousand).
pub const NUM_BOUND: i128 = 10_000_000_000_000_000_000;

/// Magnitude cap on an already-accumulated matrix entry in the
/// closure-driven entry points.
pub const CF_ENTRY_BOUND: i128 = 10_000_000_000_000_000_000_000_000_000_000_000_000;

/// Both components of a complex model lie within `bound`.
pub open spec fn cx_within(c: (int, int), bound: int) -> bool {
    &&& -bound <= c.0 <= bound
    &&& -bound <= c.1 <= bound
}

/// Under the magnitude caps, one matrix-entry update cannot overflow.
pub proof fn lemma_cf_update_ok(c0: (int, int), v: (int, int), w: int, num: int)
    requires
        cx_within(v, CF_VALUE_BOUND as int),
        -(WEIGHT_BOUND as int) <= w <= WEIGHT_BOUND as int,
        -(NUM_BOUND as int) <= num <= NUM_BOUND as int,
        cx_within(c0, CF_ENTRY_BOUND as int),
    ensures
        cf_update_ok(c0, v, w, num),
{
    let step = crate::fixed::tdiv((CF_VALUE_BOUND as int) * (WEIGHT_BOUND as int), crate::fixed::SCALE as int);
    crate::fixed::lemma_fxmul_bound(v.0, w, CF_VALUE_BOUND as int, WEIGHT_BOUND as int);
    crate::fixed::lemma_fxmul_bound(v.1, w, CF_VALUE_BOUND as int, WEIGHT_BOUND as int);
    crate::fixed::lemma_fxmul_bound(fxmul(v.0, w), num, step, NUM_BOUND as int);
    crate::fixed::lemma_fxmul_bound(fxmul(v.1, w), num, step, NUM_BOUND as int);
}

/// The contribution of one per-grid-point log-CF value `v` to a matrix
/// entry in the column with exposure `w`: `v * w * num`.
pub open spec fn cx_contrib(v: (int, int), w: int, num: int) -> (int, int) {
    cxscale(cxscale(v, w), num)
}

/// The products and the final sum of one matrix-entry update all stay
/// within the machine word.
pub open spec fn cf_update_ok(c0: (int, int), v: (int, int), w: int, num: int) -> bool {
    &&& cxscale_ok(v, w)
    &&& cxscale_ok(cxscale(v, w), num)
    &&& cxadd_ok(c0, cx_contrib(v, w, num))
}

impl EconomicCapitalAttributes {
    /// Shape invariant: the moment vectors have one entry per systemic
    /// factor and the matrix length is a whole number of rows.
    pub open spec fn wf(&self) -> bool {
        &&& self.el_vec@.len() == self.num_w as int
        &&& self.var_vec@.len() == self.num_w as int
        &&& self.num_w >= 1
        &&& (self.cf@.len() as int) % (self.num_w as int) == 0
    }

    /// The per-loan arithmetic of `process_loan` stays within the machine
    /// word for this loan and this accumulated state.
    pub open spec fn loan_arith_ok(&self, loan: Loan) -> bool {
        &&& forall|j: int|
            0 <= j < loan.weight@.len() ==> el_from_loan_ok(loan, #[trigger] loan.weight@[j]@)
        &&& forall|j: int|
            0 <= j < loan.weight@.len() ==> var_from_loan_ok(loan, #[trigger] loan.weight@[j]@)
        &&& lambda_from_loan_ok(loan)
        &&& forall|j: int|
            0 <= j < loan.weight@.len() ==> i128::MIN as int <= #[trigger] self.el_vec@[j]@
                + spec_el_from_loan(loan, loan.weight@[j]@) <= i128::MAX as int
        &&& forall|j: int|
            0 <= j < loan.weight@.len() ==> i128::MIN as int <= #[trigger] self.var_vec@[j]@
                + spec_var_from_loan(loan, loan.weight@[j]@) <= i128::MAX as int
        &&& i128::MIN as int <= self.lambda@ + spec_lambda_from_loan(loan) <= i128::MAX as int
    }

    /// The state after the moment accumulators absorb `loan`, entrywise.
    pub open spec fn moments_updated(&self, prev: Self, loan: Loan) -> bool {
        &&& self.el_vec@.len() == prev.el_vec@.len()
        &&& forall|j: int|
            0 <= j < self.el_vec@.len() ==> #[trigger] self.el_vec@[j]@ == prev.el_vec@[j]@
                + spec_el_from_loan(loan, loan.weight@[j]@)
        &&& self.var_vec@.len() == prev.var_vec@.len()
        &&& forall|j: int|
            0 <= j < self.var_vec@.len() ==> #[trigger] self.var_vec@[j]@ == prev.var_vec@[j]@
                + spec_var_from_loan(loan, loan.weight@[j]@)
        &&& self.lambda@ == prev.lambda@ + spec_lambda_from_loan(loan)
    }

    /// The matrix after absorbing `loan` with per-grid-point log-CF values
    /// `vals`: entry `k` (row `k / num_w`, column `k % num_w`) grows by
    /// `vals[k / num_w] * weight[k % num_w] * num`.
    pub open spec fn cf_updated(&self, prev: Self, loan: Loan, vals: Seq<(int, int)>) -> bool {
        &&& self.cf@.len() == prev.cf@.len()
        &&& forall|k: int|
            0 <= k < self.cf@.len() ==> #[trigger] self.cf@[k]@ == cxadd(
                prev.cf@[k]@,
                cx_contrib(
                    vals[k / (prev.num_w as int)],
                    loan.weight@[k % (prev.num_w as int)]@,
                    loan.num@,
                ),
            )
    }

    /// Fresh attributes for `num_u` Fourier grid points and `num_w`
    /// systemic factors: an all-zero matrix and all-zero accumulators.
    pub fn new(num_u: usize, num_w: usize) -> (r: Self)
        requires
            num_w >= 1,
            num_u * num_w <= usize::MAX,
        ensures
            r.wf(),
            r.num_w == num_w,
            r.cf@.len() == num_u * num_w,
            forall|k: int| 0 <= k < r.cf@.len() ==> #[trigger] r.cf@[k]@ == (0int, 0int),
            forall|j: int| 0 <= j < num_w ==> #[trigger] r.el_vec@[j]@ == 0,
            forall|j: int| 0 <= j < num_w ==> #[trigger] r.var_vec@[j]@ == 0,
            r.lambda@ == 0,
    {
        let total = num_u * num_w;
        let mut cf: Vec<Cx> = Vec::new();
        while cf.len() < total
            invariant
                cf@.len() <= total,
                forall|k: int| 0 <= k < cf@.len() ==> #[trigger] cf@[k]@ == (0int, 0int),
            decreases total - cf@.len(),
        {
            cf.push(Cx::zero());
        }
        let mut el_vec: Vec<Fx> = Vec::new();
        while el_vec.len() < num_w
            invariant
                el_vec@.len() <= num_w,
                forall|j: int| 0 <= j < el_vec@.len() ==> #[trigger] el_vec@[j]@ == 0,
            decreases num_w - el_vec@.len(),
        {
            el_vec.push(Fx::zero());
        }
        let mut var_vec: Vec<Fx> = Vec::new();
        while var_vec.len() < num_w
            invariant
                var_vec@.len() <= num_w,
                forall|j: int| 0 <= j < var_vec@.len() ==> #[trigger] var_vec@[j]@ == 0,
            decreases num_w - var_vec@.len(),
        {
            var_vec.push(Fx::zero());
        }
        proof {
            vstd::arithmetic::div_mod::lemma_mod_multiples_basic(num_u as int, num_w as int);
        }
        EconomicCapitalAttributes { cf, el_vec, var_vec, num_w, lambda: Fx::zero() }
    }

    /// The accumulated log-CF matrix.
    pub fn get_cf(&self) -> (r: &Vec<Cx>)
        ensures
            r@ == self.cf@,
    {
        &self.cf
    }

    /// Absorbs a loan whose per-grid-point log-CF values have already been
    /// evaluated: adds `log_cf[i] * weight[j] * num` to matrix entry
    /// `(i, j)` and the loan's analytic contributions to the moment
    /// accumulators.
    pub fn process_loan_values(&mut self, loan: &Loan, log_cf: &Vec<Cx>)
        requires
            old(self).wf(),
            loan.weight@.len() == old(self).num_w as int,
            log_cf@.len() * (old(self).num_w as int) == old(self).cf@.len(),
            old(self).loan_arith_ok(*loan),
            forall|k: int|
                0 <= k < old(self).cf@.len() ==> cf_update_ok(
                    #[trigger] old(self).cf@[k]@,
                    log_cf@[k / (old(self).num_w as int)]@,
                    loan.weight@[k % (old(self).num_w as int)]@,
                    loan.num@,
                ),
        ensures
            final(self).wf(),
            final(self).num_w == old(self).num_w,
            final(self).cf_updated(*old(self), *loan, log_cf@.map_values(|c: Cx| c@)),
            final(self).moments_updated(*old(self), *loan),
    {
        let num_w = self.num_w;
        let n = self.cf.len();
        let ghost vals = log_cf@.map_values(|c: Cx| c@);
        let mut k: usize = 0;
        while k < n
            invariant
                self.num_w == old(self).num_w,
                num_w == self.num_w,
                1 <= num_w,
                n == self.cf@.len(),
                n == old(self).cf@.len(),
                self.el_vec@ == old(self).el_vec@,
                self.var_vec@ == old(self).var_vec@,
                self.lambda == old(self).lambda,
                loan.weight@.len() == num_w as int,
                log_cf@.len() * (num_w as int) == n as int,
                vals == log_cf@.map_values(|c: Cx| c@),
                k <= n,
                forall|t: int|
                    0 <= t < k ==> #[trigger] self.cf@[t]@ == cxadd(
                        old(self).cf@[t]@,
                        cx_contrib(
                            vals[t / (num_w as int)],
                            loan.weight@[t % (num_w as int)]@,
                            loan.num@,
                        ),
                    ),
                forall|t: int| k <= t < n ==> #[trigger] self.cf@[t] == old(self).cf@[t],
                forall|t: int|
                    0 <= t < n ==> cf_update_ok(
                        #[trigger] old(self).cf@[t]@,
                        log_cf@[t / (num_w as int)]@,
                        loan.weight@[t % (num_w as int)]@,
                        loan.num@,
                    ),
            decreases n - k,
        {
            proof {
                vstd::arithmetic::div_mod::lemma_multiply_divide_lt(
                    k as int,
                    num_w as int,
                    log_cf@.len() as int,
                );
                vstd::arithmetic::mul::lemma_mul_is_commutative(
                    num_w as int,
                    log_cf@.len() as int,
                );
                vstd::arithmetic::div_mod::lemma_mod_division_less_than_divisor(
                    k as int,
                    num_w as int,
                );
            }
            let i = crate::u_index_of(k, num_w);
            let j = crate::w_index_of(k, num_w);
            proof {
                assert(cf_update_ok(
                    old(self).cf@[k as int]@,
                    log_cf@[(k as int) / (num_w as int)]@,
                    loan.weight@[(k as int) % (num_w as int)]@,
                    loan.num@,
                ));
                assert(i as int == (k as int) / (num_w as int));
                assert(j as int == (k as int) % (num_w as int));
                assert(vals[i as int] == log_cf@[i as int]@);
            }
            let increment = log_cf[i].scale(loan.weight[j]).scale(loan.num);
            let updated = self.cf[k].add(increment);
            self.cf.set(k, updated);
            k += 1;
        }
        let mut j: usize = 0;
        while j < num_w
            invariant
                self.num_w == old(self).num_w,
                num_w == self.num_w,
                1 <= num_w,
                self.cf@.len() == old(self).cf@.len(),
                forall|t: int|
                    0 <= t < self.cf@.len() ==> #[trigger] self.cf@[t]@ == cxadd(
                        old(self).cf@[t]@,
                        cx_contrib(
                            vals[t / (num_w as int)],
                            loan.weight@[t % (num_w as int)]@,
                            loan.num@,
                        ),
                    ),
                self.lambda == old(self).lambda,
                loan.weight@.len() == num_w as int,
                old(self).loan_arith_ok(*loan),
                j <= num_w,
                self.el_vec@.len() == old(self).el_vec@.len() == num_w as int,
                self.var_vec@.len() == old(self).var_vec@.len() == num_w as int,
                forall|t: int|
                    0 <= t < j ==> #[trigger] self.el_vec@[t]@ == old(self).el_vec@[t]@
                        + spec_el_from_loan(*loan, loan.weight@[t]@),
                forall|t: int| j <= t < num_w ==> #[trigger] self.el_vec@[t] == old(self).el_vec@[t],
                forall|t: int|
                    0 <= t < j ==> #[trigger] self.var_vec@[t]@ == old(self).var_vec@[t]@
                        + spec_var_from_loan(*loan, loan.weight@[t]@),
                forall|t: int|
                    j <= t < num_w ==> #[trigger] self.var_vec@[t] == old(self).var_vec@[t],
            decreases num_w - j,
        {
            let e = get_el_from_loan(loan, loan.weight[j]);
            let cur_e = self.el_vec[j];
            self.el_vec.set(j, cur_e.add(e));
            let v = get_var_from_loan(loan, loan.weight[j]);
            let cur_v = self.var_vec[j];
            self.var_vec.set(j, cur_v.add(v));
            j += 1;
        }
        let lam = get_lambda_from_loan(loan);
        self.lambda = self.lambda.add(lam);
    }

    /// The caps of the closure-driven entry points hold for this loan and
    /// this accumulated state.
    pub open spec fn within_caps(&self, loan: Loan) -> bool {
        &&& forall|j: int|
            0 <= j < loan.weight@.len() ==> -(WEIGHT_BOUND as int) <= #[trigger] loan.weight@[j]@
                <= WEIGHT_BOUND as int
        &&& -(NUM_BOUND as int) <= loan.num@ <= NUM_BOUND as int
        &&& forall|k: int|
            0 <= k < self.cf@.len() ==> cx_within(#[trigger] self.cf@[k]@, CF_ENTRY_BOUND as int)
    }

    /// A caller's per-grid-point log-CF closure is callable on the whole
    /// grid, and every value it can return respects the magnitude cap.
    pub open spec fn cf_fn_ok<F: Fn(Cx) -> Cx>(log_lpm_cf: F, u_domain: Seq<Cx>) -> bool {
        &&& forall|i: int| 0 <= i < u_domain.len() ==> call_requires(log_lpm_cf, (#[trigger] u_domain[i],))
        &&& forall|u: Cx, c: Cx|
            #[trigger] call_ensures(log_lpm_cf, (u,), c) ==> cx_within(c@, CF_VALUE_BOUND as int)
    }

    /// The matrix was updated with some sequence of per-grid-point values,
    /// each a possible return of the closure on the matching grid point.
    pub open spec fn cf_updated_by<F: Fn(Cx) -> Cx>(
        &self,
        prev: Self,
        loan: Loan,
        u_domain: Seq<Cx>,
        log_lpm_cf: F,
    ) -> bool {
        exists|vals: Seq<(int, int)>|
            {
                &&& #[trigger] self.cf_updated(prev, loan, vals)
                &&& vals.len() == u_domain.len()
                &&& forall|t: int|
                    #![trigger vals[t]]
                    0 <= t < vals.len() ==> call_ensures(log_lpm_cf, (u_domain[t],), cx_of(vals[t]))
            }
    }

    /// `moments_updated` depends on the previous state only through its
    /// model: it transfers between states whose accumulators agree.
    pub proof fn lemma_moments_updated_same_prev(self, prev1: Self, prev2: Self, loan: Loan)
        requires
            prev1.el_vec@ == prev2.el_vec@,
            prev1.var_vec@ == prev2.var_vec@,
            prev1.lambda == prev2.lambda,
            self.moments_updated(prev1, loan),
        ensures
            self.moments_updated(prev2, loan),
    {
    }

    /// `cf_updated_by` depends on the previous state only through its
    /// model: it transfers between states whose matrices agree.
    pub proof fn lemma_cf_updated_by_same_prev<F: Fn(Cx) -> Cx>(
        self,
        prev1: Self,
        prev2: Self,
        loan: Loan,
        u_domain: Seq<Cx>,
        log_lpm_cf: F,
    )
        requires
            prev1.cf@ == prev2.cf@,
            prev1.num_w == prev2.num_w,
            self.cf_updated_by(prev1, loan, u_domain, log_lpm_cf),
        ensures
            self.cf_updated_by(prev2, loan, u_domain, log_lpm_cf),
    {
        let vals = choose|vals: Seq<(int, int)>|
            {
                &&& #[trigger] self.cf_updated(prev1, loan, vals)
                &&& vals.len() == u_domain.len()
                &&& forall|t: int|
                    #![trigger vals[t]]
                    0 <= t < vals.len() ==> call_ensures(log_lpm_cf, (u_domain[t],), cx_of(vals[t]))
            };
        assert(self.cf_updated(prev2, loan, vals));
    }

    /// Evaluates the composed per-loan log-CF on every grid point and
    /// absorbs the loan: the destructive accumulation step.
    pub fn process_loan<F: Fn(Cx) -> Cx>(&mut self, loan: &Loan, u_domain: &Vec<Cx>, log_lpm_cf: F)
        requires
            old(self).wf(),
            loan.weight@.len() == old(self).num_w as int,
            u_domain@.len() * (old(self).num_w as int) == old(self).cf@.len(),
            old(self).loan_arith_ok(*loan),
            old(self).within_caps(*loan),
            Self::cf_fn_ok(log_lpm_cf, u_domain@),
        ensures
            final(self).wf(),
            final(self).num_w == old(self).num_w,
            final(self).moments_updated(*old(self), *loan),
            final(self).cf_updated_by(*old(self), *loan, u_domain@, log_lpm_cf),
    {
        let vals = evaluate_log_cf(u_domain, &log_lpm_cf);
        proof {
            assert forall|k: int| 0 <= k < self.cf@.len() implies cf_update_ok(
                #[trigger] self.cf@[k]@,
                vals@[k / (self.num_w as int)]@,
                loan.weight@[k % (self.num_w as int)]@,
                loan.num@,
            ) by {
                vstd::arithmetic::mul::lemma_mul_is_commutative(
                    self.num_w as int,
                    vals@.len() as int,
                );
                assert(k < (self.num_w as int) * (vals@.len() as int));
                vstd::arithmetic::div_mod::lemma_multiply_divide_lt(
                    k,
                    self.num_w as int,
                    vals@.len() as int,
                );
                vstd::arithmetic::div_mod::lemma_mod_division_less_than_divisor(
                    k,
                    self.num_w as int,
                );
                let i = k / (self.num_w as int);
                let j = k % (self.num_w as int);
                assert(call_ensures(log_lpm_cf, (u_domain@[i],), vals@[i]));
                lemma_cf_update_ok(self.cf@[k]@, vals@[i]@, loan.weight@[j]@, loan.num@);
            };
        }
        self.process_loan_values(loan, &vals);
        proof {
            let vs = vals@.map_values(|c: Cx| c@);
            assert(self.cf_updated(*old(self), *loan, vs));
            assert forall|t: int| #![trigger vs[t]] 0 <= t < vs.len() implies call_ensures(
                log_lpm_cf,
                (u_domain@[t],),
                cx_of(vs[t]),
            ) by {
                assert(call_ensures(log_lpm_cf, (u_domain@[t],), vals@[t]));
                assert(cx_of(vs[t]) == vals@[t]);
            };
            assert(self.cf_updated_by(*old(self), *loan, u_domain@, log_lpm_cf));
        }
    }

    /// A copy of the accumulated state, field by field.
    fn clone_state(&self) -> (r: Self)
        ensures
            r.cf@ == self.cf@,
            r.el_vec@ == self.el_vec@,
            r.var_vec@ == self.var_vec@,
            r.num_w == self.num_w,
            r.lambda == self.lambda,
    {
        let mut cf: Vec<Cx> = Vec::new();
        let mut k: usize = 0;
        while k < self.cf.len()
            invariant
                k <= self.cf@.len(),
                cf@ == self.cf@.take(k as int),
            decreases self.cf@.len() - k,
        {
            cf.push(self.cf[k]);
            proof {
                assert(cf@ =~= self.cf@.take(k as int + 1));
            }
            k += 1;
        }
        let mut el_vec: Vec<Fx> = Vec::new();
        let mut j: usize = 0;
        while j < self.el_vec.len()
            invariant
                j <= self.el_vec@.len(),
                el_vec@ == self.el_vec@.take(j as int),
            decreases self.el_vec@.len() - j,
        {
            el_vec.push(self.el_vec[j]);
            proof {
                assert(el_vec@ =~= self.el_vec@.take(j as int + 1));
            }
            j += 1;
        }
        let mut var_vec: Vec<Fx> = Vec::new();
        let mut t: usize = 0;
        while t < self.var_vec.len()
            invariant
                t <= self.var_vec@.len(),
                var_vec@ == self.var_vec@.take(t as int),
            decreases self.var_vec@.len() - t,
        {
            var_vec.push(self.var_vec[t]);
            proof {
                assert(var_vec@ =~= self.var_vec@.take(t as int + 1));
            }
            t += 1;
        }
        proof {
            assert(cf@ =~= self.cf@);
            assert(el_vec@ =~= self.el_vec@);
            assert(var_vec@ =~= self.var_vec@);
        }
        EconomicCapitalAttributes { cf, el_vec, var_vec, num_w: self.num_w, lambda: self.lambda }
    }

    /// The non-destructive probe: returns the attributes as they would be
    /// after processing the loan, leaving the receiver untouched.
    pub fn experiment_loan<F: Fn(Cx) -> Cx>(
        &self,
        loan: &Loan,
        u_domain: &Vec<Cx>,
        log_lpm_cf: F,
    ) -> (r: Self)
        requires
            self.wf(),
            loan.weight@.len() == self.num_w as int,
            u_domain@.len() * (self.num_w as int) == self.cf@.len(),
            self.loan_arith_ok(*loan),
            self.within_caps(*loan),
            Self::cf_fn_ok(log_lpm_cf, u_domain@),
        ensures
            r.wf(),
            r.num_w == self.num_w,
            r.moments_updated(*self, *loan),
            r.cf_updated_by(*self, *loan, u_domain@, log_lpm_cf),
    {
        let mut out = self.clone_state();
        let ghost before = out;
        out.process_loan(loan, u_domain, log_lpm_cf);
        proof {
            out.lemma_moments_updated_same_prev(before, *self, *loan);
            out.lemma_cf_updated_by_same_prev(before, *self, *loan, u_domain@, log_lpm_cf);
        }
        out
    }

    /// Collapses the matrix to the one-dimensional unconditional CF by
    /// applying the systemic moment-generating function to each row.
    pub fn get_full_cf<F: Fn(Vec<Cx>) -> Cx>(&self, mgf: F) -> (r: Vec<Cx>)
        requires
            self.wf(),
            forall|row: Vec<Cx>|
                row@.len() == self.num_w as int ==> #[trigger] call_requires(mgf, (row,)),
        ensures
            r@.len() == (self.cf@.len() as int) / (self.num_w as int),
            forall|i: int|
                0 <= i < r@.len() ==> row_collapsed(
                    mgf,
                    self.cf@,
                    self.num_w as int,
                    i,
                    #[trigger] r@[i],
                ),
    {
        let num_w = self.num_w;
        let n = self.cf.len();
        let rows = n / num_w;
        proof {
            vstd::arithmetic::div_mod::lemma_fundamental_div_mod(n as int, num_w as int);
        }
        let mut out: Vec<Cx> = Vec::new();
        let mut i: usize = 0;
        while i < rows
            invariant
                num_w == self.num_w,
                1 <= num_w,
                n == self.cf@.len(),
                n as int == (rows as int) * (num_w as int),
                rows as int == (self.cf@.len() as int) / (self.num_w as int),
                i <= rows,
                out@.len() == i as int,
                forall|row: Vec<Cx>|
                    row@.len() == num_w as int ==> #[trigger] call_requires(mgf, (row,)),
                forall|t: int|
                    0 <= t < i ==> row_collapsed(mgf, self.cf@, num_w as int, t, #[trigger] out@[t]),
            decreases rows - i,
        {
            proof {
                let ii = i as int;
                let ww = num_w as int;
                let rr = rows as int;
                assert(ii * ww + ww <= rr * ww) by (nonlinear_arith)
                    requires
                        0 <= ii,
                        ii < rr,
                        1 <= ww,
                ;
            }
            let base = i * num_w;
            let mut row: Vec<Cx> = Vec::new();
            let mut t: usize = 0;
            while t < num_w
                invariant
                    num_w == self.num_w,
                    n == self.cf@.len(),
                    t <= num_w,
                    base as int == (i as int) * (num_w as int),
                    base + num_w <= n,
                    row@.len() == t as int,
                    row@ == self.cf@.subrange(base as int, base as int + t as int),
                decreases num_w - t,
            {
                row.push(self.cf[base + t]);
                proof {
                    assert(row@ =~= self.cf@.subrange(base as int, base as int + t as int + 1));
                }
                t += 1;
            }
            proof {
                assert((i as int + 1) * (num_w as int) == (i as int) * (num_w as int) + (
                num_w as int)) by (nonlinear_arith);
            }
            let ghost row_snapshot = row;
            let ghost out_old = out@;
            let val = mgf(row);
            out.push(val);
            proof {
                assert(call_ensures(mgf, (row_snapshot,), val));
                assert(row_snapshot@ == self.cf@.subrange(
                    (i as int) * (num_w as int),
                    (i as int + 1) * (num_w as int),
                ));
                assert(row_collapsed(mgf, self.cf@, num_w as int, i as int, val));
                assert forall|t2: int| 0 <= t2 < i as int + 1 implies row_collapsed(
                    mgf,
                    self.cf@,
                    num_w as int,
                    t2,
                    #[trigger] out@[t2],
                ) by {
                    if t2 < i as int {
                        assert(out@[t2] == out_old[t2]);
                    } else {
                        assert(out@[t2] == val);
                    }
                };
            }
            i += 1;
        }
        out
    }

    /// Expected portfolio loss, given the systemic factors' expectations.
    pub fn get_portfolio_expectation(&self, expectation_systemic: &Vec<Fx>) -> (r: Fx)
        requires
            expectation_systemic@.len() == self.el_vec@.len(),
            dot_ok(self.el_vec@, expectation_systemic@),
        ensures
            r@ == spec_portfolio_expectation(self.el_vec@, expectation_systemic@),
    {
        portfolio_expectation(&self.el_vec, expectation_systemic)
    }

    /// Portfolio loss variance, given the systemic factors' expectations
    /// and variances.
    pub fn get_portfolio_variance(
        &self,
        expectation_systemic: &Vec<Fx>,
        variance_systemic: &Vec<Fx>,
    ) -> (r: Fx)
        requires
            expectation_systemic@.len() == self.el_vec@.len(),
            variance_systemic@.len() == self.el_vec@.len(),
            self.var_vec@.len() == self.el_vec@.len(),
            dot_ok(self.var_vec@, expectation_systemic@),
            dot_sq_ok(self.el_vec@, variance_systemic@),
            fits(
                spec_dot(self.var_vec@, expectation_systemic@, self.var_vec@.len() as int)
                    + spec_dot_sq(self.el_vec@, variance_systemic@, self.el_vec@.len() as int),
            ),
        ensures
            r@ == spec_portfolio_variance(
                self.el_vec@,
                expectation_systemic@,
                self.var_vec@,
                variance_systemic@,
            ),
    {
        portfolio_variance(&self.el_vec, expectation_systemic, &self.var_vec, variance_systemic)
    }
}

/// The systemic MGF `mgf`, applied to the row of the matrix `cf` that
/// starts at `t * num_w`, can return `outv`.
pub open spec fn row_collapsed<F: Fn(Vec<Cx>) -> Cx>(
    mgf: F,
    cf: Seq<Cx>,
    num_w: int,
    t: int,
    outv: Cx,
) -> bool {
    exists|row: Vec<Cx>|
        {
            &&& #[trigger] call_ensures(mgf, (row,), outv)
            &&& row@ == cf.subrange(t * num_w, (t + 1) * num_w)
        }
}

/// The fixed-point dot product of the first `k` entries of two vectors:
/// the sum of the rescaled pairwise products, evaluated left to right.
pub open spec fn spec_dot(a: Seq<Fx>, b: Seq<Fx>, k: int) -> int
    decreases k,
{
    if k <= 0 {
        0
    } else {
        spec_dot(a, b, k - 1) + fxmul(a[k - 1]@, b[k - 1]@)
    }
}

/// The sum over the first `k` entries of `a[i]^2 * b[i]` in fixed point.
pub open spec fn spec_dot_sq(a: Seq<Fx>, b: Seq<Fx>, k: int) -> int
    decreases k,
{
    if k <= 0 {
        0
    } else {
        spec_dot_sq(a, b, k - 1) + fxmul(fxmul(a[k - 1]@, a[k - 1]@), b[k - 1]@)
    }
}

/// Every pairwise product and every partial sum of the dot product stays
/// within the machine word.
pub open spec fn dot_ok(a: Seq<Fx>, b: Seq<Fx>) -> bool {
    &&& forall|i: int| 0 <= i < a.len() ==> mul_ok(#[trigger] a[i]@, b[i]@)
    &&& forall|k: int| 0 <= k <= a.len() ==> fits(#[trigger] spec_dot(a, b, k))
}

/// Every product and every partial sum of the squared dot product stays
/// within the machine word.
pub open spec fn dot_sq_ok(a: Seq<Fx>, b: Seq<Fx>) -> bool {
    &&& forall|i: int| 0 <= i < a.len() ==> mul_ok(#[trigger] a[i]@, a[i]@)
    &&& forall|i: int| 0 <= i < a.len() ==> mul_ok(fxmul(#[trigger] a[i]@, a[i]@), b[i]@)
    &&& forall|k: int| 0 <= k <= a.len() ==> fits(#[trigger] spec_dot_sq(a, b, k))
}

/// The model of the portfolio's expected loss: the dot product of the
/// expected-loss accumulators with the systemic expectations.
pub open spec fn spec_portfolio_expectation(el_vec: Seq<Fx>, el_sys: Seq<Fx>) -> int {
    spec_dot(el_vec, el_sys, el_vec.len() as int)
}

/// The model of the portfolio's loss variance under independent systemic
/// factors: `sum var_vec[j] * el_sys[j] + sum el_vec[j]^2 * var_sys[j]`,
/// the two-level (idiosyncratic plus systemic) decomposition.
pub open spec fn spec_portfolio_variance(
    el_vec: Seq<Fx>,
    el_sys: Seq<Fx>,
    var_vec: Seq<Fx>,
    var_sys: Seq<Fx>,
) -> int {
    spec_dot(var_vec, el_sys, var_vec.len() as int) + spec_dot_sq(
        el_vec,
        var_sys,
        el_vec.len() as int,
    )
}

/// Expected portfolio loss: the expected-loss accumulators weighted by the
/// systemic factors' expectations.  Negative, by the library's sign
/// convention for losses.
pub fn portfolio_expectation(el_vec: &Vec<Fx>, el_sys: &Vec<Fx>) -> (r: Fx)
    requires
        el_vec@.len() == el_sys@.len(),
        dot_ok(el_vec@, el_sys@),
    ensures
        r@ == spec_portfolio_expectation(el_vec@, el_sys@),
{
    let n = el_vec.len();
    let mut acc = Fx::zero();
    let mut i: usize = 0;
    while i < n
        invariant
            n == el_vec@.len(),
            n == el_sys@.len(),
            dot_ok(el_vec@, el_sys@),
            i <= n,
            acc@ == spec_dot(el_vec@, el_sys@, i as int),
        decreases n - i,
    {
        proof {
            assert(fits(spec_dot(el_vec@, el_sys@, i as int + 1)));
        }
        acc = acc.add(el_vec[i].mul(el_sys[i]));
        i += 1;
    }
    acc
}

/// Portfolio loss variance from the accumulated vectors and the systemic
/// factors' first two moments, assuming independent factors.
pub fn portfolio_variance(
    el_vec: &Vec<Fx>,
    el_sys: &Vec<Fx>,
    var_vec: &Vec<Fx>,
    var_sys: &Vec<Fx>,
) -> (r: Fx)
    requires
        el_vec@.len() == el_sys@.len(),
        var_vec@.len() == el_sys@.len(),
        var_sys@.len() == el_sys@.len(),
        dot_ok(var_vec@, el_sys@),
        dot_sq_ok(el_vec@, var_sys@),
        fits(
            spec_dot(var_vec@, el_sys@, var_vec@.len() as int) + spec_dot_sq(
                el_vec@,
                var_sys@,
                el_vec@.len() as int,
            ),
        ),
    ensures
        r@ == spec_portfolio_variance(el_vec@, el_sys@, var_vec@, var_sys@),
{
    let n = el_vec.len();
    let mut v_p = Fx::zero();
    let mut i: usize = 0;
    while i < n
        invariant
            n == var_vec@.len(),
            n == el_sys@.len(),
            dot_ok(var_vec@, el_sys@),
            i <= n,
            v_p@ == spec_dot(var_vec@, el_sys@, i as int),
        decreases n - i,
    {
        proof {
            assert(fits(spec_dot(var_vec@, el_sys@, i as int + 1)));
        }
        v_p = v_p.add(var_vec[i].mul(el_sys[i]));
        i += 1;
    }
    let mut e_p = Fx::zero();
    let mut j: usize = 0;
    while j < n
        invariant
            n == el_vec@.len(),
            n == var_sys@.len(),
            dot_sq_ok(el_vec@, var_sys@),
            j <= n,
            e_p@ == spec_dot_sq(el_vec@, var_sys@, j as int),
        decreases n - j,
    {
        proof {
            assert(fits(spec_dot_sq(el_vec@, var_sys@, j as int + 1)));
        }
        let el = el_vec[j];
        e_p = e_p.add(el.mul(el).mul(var_sys[j]));
        j += 1;
    }
    v_p.add(e_p)
}

/// Evaluates the per-loan log-CF closure on every grid point, in order.
fn evaluate_log_cf<F: Fn(Cx) -> Cx>(u_domain: &Vec<Cx>, log_lpm_cf: &F) -> (vals: Vec<Cx>)
    requires
        forall|i: int| 0 <= i < u_domain@.len() ==> call_requires(*log_lpm_cf, (#[trigger] u_domain@[i],)),
    ensures
        vals@.len() == u_domain@.len(),
        forall|i: int|
            0 <= i < vals@.len() ==> call_ensures(*log_lpm_cf, (u_domain@[i],), #[trigger] vals@[i]),
{
    let mut vals: Vec<Cx> = Vec::new();
    let n = u_domain.len();
    let mut i: usize = 0;
    while i < n
        invariant
            n == u_domain@.len(),
            i <= n,
            vals@.len() == i as int,
            forall|t: int| 0 <= t < n ==> call_requires(*log_lpm_cf, (#[trigger] u_domain@[t],)),
            forall|t: int|
                0 <= t < i ==> call_ensures(*log_lpm_cf, (u_domain@[t],), #[trigger] vals@[t]),
        decreases n - i,
    {
        let v = log_lpm_cf(u_domain[i]);
        vals.push(v);
        i += 1;
    }
    vals
}

} // verus!
