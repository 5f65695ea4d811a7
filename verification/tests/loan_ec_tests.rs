use loan_ec::attributes::{portfolio_expectation, portfolio_variance, EconomicCapitalAttributes};
use loan_ec::complex::Cx;
use loan_ec::fixed::{Fx, SCALE};
use loan_ec::liquidity::{expectation_liquidity, liquidity_transform, risk_contribution, variance_liquidity};
use loan_ec::loan::log_lpm_from_cf;
use loan_ec::loan::Loan;
use num_complex::Complex;
use rayon::iter::ParallelIterator;

fn fx(x: f64) -> Fx {
    Fx::from_raw((x * (SCALE as f64)).round() as i128)
}

fn fx_to_f64(x: Fx) -> f64 {
    (x.raw() as f64) / (SCALE as f64)
}

fn cx(c: Complex<f64>) -> Cx {
    Cx::new(fx(c.re), fx(c.im))
}

fn cx_to_complex(c: Cx) -> Complex<f64> {
    Complex::new(fx_to_f64(c.re), fx_to_f64(c.im))
}

fn fx_vec(xs: &[f64]) -> Vec<Fx> {
    xs.iter().map(|&x| fx(x)).collect()
}

fn u_domain_cx(num_u: usize, x_min: f64, x_max: f64) -> Vec<Cx> {
    let u: Vec<Complex<f64>> = fang_oost::get_u_domain(num_u, x_min, x_max).collect();
    u.into_iter().map(cx).collect()
}

fn final_cf_to_complex(final_cf: &[Cx]) -> Vec<Complex<f64>> {
    final_cf.iter().map(|&c| cx_to_complex(c)).collect()
}

fn get_liquidity_risk_fn(lambda: f64, q: f64) -> impl Fn(&Complex<f64>) -> Complex<f64> {
    move |u: &Complex<f64>| u - ((-u * lambda).exp() - 1.0) * q
}

fn gamma_mgf(variance: Vec<f64>) -> impl Fn(&[Complex<f64>]) -> Complex<f64> {
    move |u_weights: &[Complex<f64>]| -> Complex<f64> {
        u_weights
            .iter()
            .zip(&variance)
            .map(|(u, v)| -(1.0 - v * u).ln() / v)
            .sum::<Complex<f64>>()
            .exp()
    }
}

fn test_mgf(u_weights: &[Complex<f64>]) -> Complex<f64> {
    u_weights.iter().sum::<Complex<f64>>().exp()
}

fn compute_integral_expectation_long_run_one(y0: &[f64], alpha: &[f64], t: f64) -> Vec<f64> {
    y0.iter()
        .zip(alpha)
        .map(|(&y, &a)| (y - 1.0) * (1.0 - (-a * t).exp()) / a + t)
        .collect()
}

fn compute_integral_variance(alpha: &[f64], sigma: &[f64], rho: &[f64], t: f64) -> Vec<f64> {
    alpha
        .iter()
        .zip(sigma)
        .zip(rho)
        .map(|((&a, &s), &r)| {
            let e1 = (1.0 - (-a * t).exp()) / a;
            let e2 = (1.0 - (-2.0 * a * t).exp()) / (2.0 * a);
            r * s * s / (a * a) * (t - 2.0 * e1 + e2)
        })
        .collect()
}

fn get_vasicek_mgf(
    expectation: Vec<f64>,
    variance: Vec<f64>,
) -> impl Fn(&[Complex<f64>]) -> Complex<f64> {
    move |u_weights: &[Complex<f64>]| {
        u_weights
            .iter()
            .zip(&expectation)
            .zip(&variance)
            .map(|((&u, &m), &v)| u * m + 0.5 * u * u * v)
            .sum::<Complex<f64>>()
            .exp()
    }
}

#[test]
fn construct_hold_discrete_cf() {
    let discrete_cf = EconomicCapitalAttributes::new(256, 3);
    let cf = discrete_cf.get_cf();
    assert_eq!(cf.len(), 256 * 3);
    assert_eq!(cf[0], Cx::new(fx(0.0), fx(0.0))); //first three should be the same "u"
    assert_eq!(cf[1], Cx::new(fx(0.0), fx(0.0)));
    assert_eq!(cf[2], Cx::new(fx(0.0), fx(0.0)));
}

#[test]
fn test_process_loan() {
    let mut discrete_cf = EconomicCapitalAttributes::new(256, 3);
    let loan = Loan {
        pd: fx(0.05),
        lgd: fx(0.5),
        r: fx(0.0),
        balance: fx(1000.0),
        lgd_variance: fx(0.0),
        weight: fx_vec(&[0.5, 0.5, 0.5]),
        num: fx(1.0),
    };
    let log_lpm_cf = |_u: Cx| Cx::new(fx(1.0), fx(0.0));
    let u_domain = u_domain_cx(256, 0.0, 1.0);
    discrete_cf.process_loan(&loan, &u_domain, log_lpm_cf);
    let cf = discrete_cf.get_cf();
    assert_eq!(cf.len(), 256 * 3);
    cf.iter().for_each(|cf_el| {
        assert_eq!(cf_el, &Cx::new(fx(0.5), fx(0.0)));
    });
}

#[test]
fn test_process_loans_with_final() {
    let mut discrete_cf = EconomicCapitalAttributes::new(256, 3);
    let loan = Loan {
        pd: fx(0.05),
        lgd: fx(0.5),
        balance: fx(1000.0),
        lgd_variance: fx(0.0),
        r: fx(0.0),
        weight: fx_vec(&[0.5, 0.5, 0.5]),
        num: fx(1.0),
    };
    let u_domain = u_domain_cx(256, 0.0, 1.0);
    let log_lpm_cf = |_u: Cx| Cx::new(fx(1.0), fx(0.0));
    discrete_cf.process_loan(&loan, &u_domain, log_lpm_cf);
    let final_cf = discrete_cf.get_full_cf(|row: Vec<Cx>| {
        let rf: Vec<Complex<f64>> = row.iter().map(|&c| cx_to_complex(c)).collect();
        cx(test_mgf(&rf))
    });

    assert_eq!(final_cf.len(), 256);
    final_cf.iter().for_each(|cf_el| {
        assert_eq!(cf_el, &cx(Complex::new(1.5, 0.0).exp()));
    });
}

#[test]
fn test_actually_get_density() {
    let x_min = -6000.0;
    let x_max = 0.0;
    let mut discrete_cf = EconomicCapitalAttributes::new(256, 1);
    let lambda = 1000.0;
    let q = 0.0001;
    let liquid_fn = get_liquidity_risk_fn(lambda, q);

    let u_domain = u_domain_cx(256, x_min, x_max);
    let lgd_fn = |u: &Complex<f64>, l: f64, _lgd_v: f64| (-u * l).exp();

    let balance = 1.0;
    let pd = 0.05;
    let lgd = 0.5;
    let lgd_variance = 0.0;
    let log_lpm_cf = |u: Cx| {
        let uc = cx_to_complex(u);
        log_lpm_from_cf(cx(lgd_fn(&liquid_fn(&uc), lgd * balance, lgd_variance)), fx(pd))
    };

    let loan = Loan {
        pd: fx(pd),
        lgd: fx(lgd),
        lgd_variance: fx(lgd_variance),
        balance: fx(balance),
        r: fx(0.0),
        weight: fx_vec(&[1.0]),
        num: fx(10000.0),
    };
    discrete_cf.process_loan(&loan, &u_domain, log_lpm_cf);
    let y0 = vec![1.0];
    let alpha = vec![0.3];
    let sigma = vec![0.3];
    let rho = vec![1.0];
    let t = 1.0;
    let expectation = compute_integral_expectation_long_run_one(&y0, &alpha, t);
    let variance = compute_integral_variance(&alpha, &sigma, &rho, t);

    let v_mgf = get_vasicek_mgf(expectation, variance);

    let final_cf = discrete_cf.get_full_cf(|row: Vec<Cx>| {
        let rf: Vec<Complex<f64>> = row.iter().map(|&c| cx_to_complex(c)).collect();
        cx(v_mgf(&rf))
    });

    assert_eq!(final_cf.len(), 256);
    let max_iterations = 100;
    let tolerance = 0.0001;
    let final_cf_f = final_cf_to_complex(&final_cf);
    let cf_dist_utils::RiskMetric {
        expected_shortfall: es,
        value_at_risk: var,
    } = cf_dist_utils::get_expected_shortfall_and_value_at_risk_discrete_cf(
        0.01,
        x_min,
        x_max,
        max_iterations,
        tolerance,
        &final_cf_f,
    )
    .unwrap();
    assert!(es > var);
}

#[test]
fn test_compare_expected_value() {
    let balance = 1.0;
    let pd = 0.05;
    let lgd = 0.5;
    let num_loans = 10000.0;
    let lambda = 1000.0; //loss in the event of a liquidity crisis
    let q = 0.01 / (num_loans * pd * lgd * balance);
    let expectation = -pd * lgd * balance * (1.0 + lambda * q) * num_loans;
    let x_min = (expectation - lambda) * 3.0;
    let x_max = 0.0;
    let num_u: usize = 1024;
    let mut discrete_cf = EconomicCapitalAttributes::new(num_u, 1);

    let liquid_fn = get_liquidity_risk_fn(lambda, q);

    //the exponent is negative because l represents a loss
    let lgd_fn = |u: &Complex<f64>, l: f64, _lgd_v: f64| (-u * l).exp();

    let u_domain = u_domain_cx(num_u, x_min, x_max);
    let log_lpm_cf = |u: Cx| {
        let uc = cx_to_complex(u);
        log_lpm_from_cf(cx(lgd_fn(&liquid_fn(&uc), lgd * balance, 0.0)), fx(pd))
    };

    let loan = Loan {
        pd: fx(pd),
        lgd: fx(lgd),
        balance: fx(balance),
        r: fx(0.0),
        lgd_variance: fx(0.0),
        weight: fx_vec(&[1.0]),
        num: fx(num_loans), //homogenous
    };
    discrete_cf.process_loan(&loan, &u_domain, log_lpm_cf);
    let v = vec![0.3];
    let v_mgf = gamma_mgf(v);
    let final_cf = discrete_cf.get_full_cf(|row: Vec<Cx>| {
        let rf: Vec<Complex<f64>> = row.iter().map(|&c| cx_to_complex(c)).collect();
        cx(v_mgf(&rf))
    });
    assert_eq!(final_cf.len(), num_u);
    let final_cf_f = final_cf_to_complex(&final_cf);
    let expectation_approx = cf_dist_utils::get_expectation_discrete_cf(x_min, x_max, &final_cf_f);

    assert!((expectation_approx - expectation).abs() <= 0.00001);
    let port_exp = discrete_cf.get_portfolio_expectation(&fx_vec(&[1.0]));
    let liquid_exp = expectation_liquidity(fx(lambda), fx(q), port_exp);
    assert!((fx_to_f64(liquid_exp) - expectation).abs() <= 0.00001);
}

#[test]
fn test_compare_expected_value_and_variance_no_stochastic_lgd() {
    let balance = 1.0;
    let pd = 0.05;
    let lgd = 0.5;
    let num_loans = 10000.0;
    let lambda = 1000.0; //loss in the event of a liquidity crisis
    let q = 0.01 / (num_loans * pd * lgd * balance);
    let x_min = (-num_loans * pd * lgd * balance - lambda) * 3.0;

    let v1 = vec![0.4, 0.3];
    let v2 = vec![0.4, 0.3];
    let systemic_expectation = vec![1.0, 1.0];
    let v_mgf = gamma_mgf(v1);

    let weight = vec![0.4, 0.6];

    let x_max = 0.0;
    let num_u: usize = 1024;
    let mut discrete_cf = EconomicCapitalAttributes::new(num_u, v2.len());

    let liquid_fn = get_liquidity_risk_fn(lambda, q);

    //the exponent is negative because l represents a loss
    let lgd_fn = |u: &Complex<f64>, l: f64, _lgd_v: f64| (-u * l).exp();
    let u_domain = u_domain_cx(num_u, x_min, x_max);
    let log_lpm_cf = |u: Cx| {
        let uc = cx_to_complex(u);
        log_lpm_from_cf(cx(lgd_fn(&liquid_fn(&uc), lgd * balance, 0.0)), fx(pd))
    };

    let loan = Loan {
        pd: fx(pd),
        lgd: fx(lgd),
        r: fx(0.0),
        balance: fx(balance),
        weight: fx_vec(&weight),
        lgd_variance: fx(0.0),
        num: fx(num_loans), //homogenous
    };
    discrete_cf.process_loan(&loan, &u_domain, log_lpm_cf);

    let sys_exp_fx = fx_vec(&systemic_expectation);
    let v2_fx = fx_vec(&v2);
    let expectation = discrete_cf.get_portfolio_expectation(&sys_exp_fx);
    let variance = discrete_cf.get_portfolio_variance(&sys_exp_fx, &v2_fx);
    let expectation_liquid = expectation_liquidity(fx(lambda), fx(q), expectation);
    let variance_liquid = variance_liquidity(fx(lambda), fx(q), expectation, variance);

    let final_cf = discrete_cf.get_full_cf(|row: Vec<Cx>| {
        let rf: Vec<Complex<f64>> = row.iter().map(|&c| cx_to_complex(c)).collect();
        cx(v_mgf(&rf))
    });
    assert_eq!(final_cf.len(), num_u);
    let final_cf_f = final_cf_to_complex(&final_cf);
    let expectation_approx = cf_dist_utils::get_expectation_discrete_cf(x_min, x_max, &final_cf_f);
    let variance_approx = cf_dist_utils::get_variance_discrete_cf(x_min, x_max, &final_cf_f);

    assert!((expectation_approx - fx_to_f64(expectation_liquid)).abs() <= 0.00001);
    assert!((variance_approx - fx_to_f64(variance_liquid)).abs() <= 0.1);
}

#[test]
fn test_compare_expected_value_and_variance_stochastic_lgd() {
    let balance = 1.0;
    let pd = 0.05;
    let lgd = 0.5;
    let num_loans = 10000.0;
    let lambda = 1000.0; //loss in the event of a liquidity crisis
    let q = 0.01 / (num_loans * pd * lgd * balance);
    let x_min = (-num_loans * pd * lgd * balance - lambda) * 3.0;
    let v1 = vec![0.4, 0.3];
    let v2 = vec![0.4, 0.3];
    let systemic_expectation = vec![1.0, 1.0];
    let v_mgf = gamma_mgf(v1);
    let lgd_variance = 0.2;
    let weight = vec![0.4, 0.6];

    let x_max = 0.0;
    let num_u: usize = 1024;
    let mut discrete_cf = EconomicCapitalAttributes::new(num_u, v2.len());

    let liquid_fn = get_liquidity_risk_fn(lambda, q);

    //the exponent is negative because l represents a loss
    let lgd_fn = |u: &Complex<f64>, l: f64, lgd_v: f64| {
        cf_functions::gamma::gamma_cf(&(-u * l), 1.0 / lgd_v, lgd_v)
    };
    let u_domain = u_domain_cx(num_u, x_min, x_max);
    let log_lpm_cf = |u: Cx| {
        let uc = cx_to_complex(u);
        log_lpm_from_cf(cx(lgd_fn(&liquid_fn(&uc), lgd * balance, lgd_variance)), fx(pd))
    };

    let loan = Loan {
        pd: fx(pd),
        lgd: fx(lgd),
        balance: fx(balance),
        r: fx(0.0),
        lgd_variance: fx(lgd_variance),
        weight: fx_vec(&weight),
        num: fx(num_loans), //homogenous
    };
    discrete_cf.process_loan(&loan, &u_domain, log_lpm_cf);

    let sys_exp_fx = fx_vec(&systemic_expectation);
    let v2_fx = fx_vec(&v2);
    let expectation = discrete_cf.get_portfolio_expectation(&sys_exp_fx);
    let variance = discrete_cf.get_portfolio_variance(&sys_exp_fx, &v2_fx);

    let expectation_liquid = expectation_liquidity(fx(lambda), fx(q), expectation);
    let variance_liquid = variance_liquidity(fx(lambda), fx(q), expectation, variance);
    let final_cf = discrete_cf.get_full_cf(|row: Vec<Cx>| {
        let rf: Vec<Complex<f64>> = row.iter().map(|&c| cx_to_complex(c)).collect();
        cx(v_mgf(&rf))
    });
    assert_eq!(final_cf.len(), num_u);
    let final_cf_f = final_cf_to_complex(&final_cf);
    let expectation_approx = cf_dist_utils::get_expectation_discrete_cf(x_min, x_max, &final_cf_f);
    let variance_approx = cf_dist_utils::get_variance_discrete_cf(x_min, x_max, &final_cf_f);

    assert!((expectation_approx - fx_to_f64(expectation_liquid)).abs() <= 0.00001);
    assert!((variance_approx - fx_to_f64(variance_liquid)).abs() <= 0.1);
}

#[test]
fn test_compare_expected_value_and_variance_stochastic_lgd_non_homogenous() {
    let balance1 = 1.0;
    let balance2 = 1.5;
    let pd1 = 0.05;
    let pd2 = 0.03;
    let lgd1 = 0.5;
    let lgd2 = 0.6;
    let num_loans = 5000.0;
    let lambda = 1000.0; //loss in the event of a liquidity crisis
    let q = 0.01 / (num_loans * pd1 * lgd1 * balance1 * 2.0);
    let x_min = (-num_loans * pd1 * lgd1 * balance1 * 2.0 - lambda) * 3.0;
    let v1 = vec![0.4, 0.3];
    let v2 = vec![0.4, 0.3];
    let systemic_expectation = vec![1.0, 1.0];
    let v_mgf = gamma_mgf(v1);
    let lgd_variance = 0.2;
    let weight1 = vec![0.4, 0.6];
    let weight2 = vec![0.3, 0.7];

    let x_max = 0.0;
    let num_u: usize = 1024;
    let mut discrete_cf = EconomicCapitalAttributes::new(num_u, v2.len());

    let liquid_fn = get_liquidity_risk_fn(lambda, q);

    //the exponent is negative because l represents a loss
    let lgd_fn = |u: &Complex<f64>, l: f64, lgd_v: f64| {
        cf_functions::gamma::gamma_cf(&(-u * l), 1.0 / lgd_v, lgd_v)
    };
    let u_domain = u_domain_cx(num_u, x_min, x_max);

    let loan1 = Loan {
        pd: fx(pd1),
        lgd: fx(lgd1),
        balance: fx(balance1),
        r: fx(0.0),
        lgd_variance: fx(lgd_variance),
        weight: fx_vec(&weight1),
        num: fx(num_loans), //homogenous
    };
    let loan2 = Loan {
        pd: fx(pd2),
        lgd: fx(lgd2),
        balance: fx(balance2),
        r: fx(0.0),
        lgd_variance: fx(lgd_variance),
        weight: fx_vec(&weight2),
        num: fx(num_loans), //homogenous
    };
    let log_lpm_cf1 = |u: Cx| {
        let uc = cx_to_complex(u);
        log_lpm_from_cf(cx(lgd_fn(&liquid_fn(&uc), lgd1 * balance1, lgd_variance)), fx(pd1))
    };
    discrete_cf.process_loan(&loan1, &u_domain, log_lpm_cf1);
    let log_lpm_cf2 = |u: Cx| {
        let uc = cx_to_complex(u);
        log_lpm_from_cf(cx(lgd_fn(&liquid_fn(&uc), lgd2 * balance2, lgd_variance)), fx(pd2))
    };
    discrete_cf.process_loan(&loan2, &u_domain, log_lpm_cf2);

    let sys_exp_fx = fx_vec(&systemic_expectation);
    let v2_fx = fx_vec(&v2);
    let expectation = discrete_cf.get_portfolio_expectation(&sys_exp_fx);
    let variance = discrete_cf.get_portfolio_variance(&sys_exp_fx, &v2_fx);

    let expectation_liquid = expectation_liquidity(fx(lambda), fx(q), expectation);
    let variance_liquid = variance_liquidity(fx(lambda), fx(q), expectation, variance);
    let final_cf = discrete_cf.get_full_cf(|row: Vec<Cx>| {
        let rf: Vec<Complex<f64>> = row.iter().map(|&c| cx_to_complex(c)).collect();
        cx(v_mgf(&rf))
    });
    assert_eq!(final_cf.len(), num_u);
    let final_cf_f = final_cf_to_complex(&final_cf);
    let expectation_approx = cf_dist_utils::get_expectation_discrete_cf(x_min, x_max, &final_cf_f);
    let variance_approx = cf_dist_utils::get_variance_discrete_cf(x_min, x_max, &final_cf_f);

    assert!((expectation_approx - fx_to_f64(expectation_liquid)).abs() <= 0.00001);
    assert!((variance_approx - fx_to_f64(variance_liquid)).abs() <= 0.1);
}

#[test]
fn test_gamma_cf() {
    let kappa = 2.0;
    let u = Complex::new(0.5, 0.5);
    let theta = 0.5;
    let cf = gamma_mgf(vec![theta]);
    let result = cf(&vec![u]);
    let expected = (1.0 - u * theta).powf(-kappa);
    assert_eq!(result, expected);
}

#[test]
fn test_basic_risk_contribution() {
    let balance = 1.0;
    let pd = 0.05;
    let lgd = 0.5;
    let num_loans = 9999.0;
    let lambda = 0.0; //loss in the event of a liquidity crisis
    let q = 0.0 / (num_loans * pd * lgd * balance);
    let x_min = (-num_loans * pd * lgd * balance - lambda) * 3.0;
    let v1 = vec![0.4, 0.3];
    let v2 = vec![0.4, 0.3];
    let systemic_expectation = vec![1.0, 1.0];
    let v_mgf = gamma_mgf(v1);
    let lgd_variance = 0.2;
    let weight1 = vec![0.4, 0.6];
    let weight2 = vec![0.4, 0.6];

    let x_max = 0.0;
    let num_u: usize = 1024;
    let mut discrete_cf = EconomicCapitalAttributes::new(num_u, v2.len());

    let liquid_fn = get_liquidity_risk_fn(lambda, q);

    //the exponent is negative because l represents a loss
    let lgd_fn = |u: &Complex<f64>, l: f64, lgd_v: f64| {
        cf_functions::gamma::gamma_cf(&(-u * l), 1.0 / lgd_v, lgd_v)
    };
    let u_domain = u_domain_cx(num_u, x_min, x_max);
    let log_lpm_cf = |u: Cx| {
        let uc = cx_to_complex(u);
        log_lpm_from_cf(cx(lgd_fn(&liquid_fn(&uc), lgd * balance, lgd_variance)), fx(pd))
    };

    let loan = Loan {
        pd: fx(pd),
        lgd: fx(lgd),
        balance: fx(balance),
        lgd_variance: fx(lgd_variance),
        weight: fx_vec(&weight1),
        r: fx(0.0),
        num: fx(num_loans), //homogenous
    };
    discrete_cf.process_loan(&loan, &u_domain, log_lpm_cf);

    let final_cf = discrete_cf.get_full_cf(|row: Vec<Cx>| {
        let rf: Vec<Complex<f64>> = row.iter().map(|&c| cx_to_complex(c)).collect();
        cx(v_mgf(&rf))
    });
    assert_eq!(final_cf.len(), num_u);

    let new_loan = Loan {
        pd: fx(pd),
        lgd: fx(lgd),
        balance: fx(balance),
        lgd_variance: fx(lgd_variance),
        weight: fx_vec(&weight2),
        r: fx(0.0),
        num: fx(1.0),
    };

    let c = 5.0; //arbitrary
    let log_lpm_cf_probe = |u: Cx| {
        let uc = cx_to_complex(u);
        log_lpm_from_cf(cx(lgd_fn(&liquid_fn(&uc), lgd * balance, lgd_variance)), fx(pd))
    };
    let EconomicCapitalAttributes {
        el_vec, var_vec, ..
    } = discrete_cf.experiment_loan(&new_loan, &u_domain, log_lpm_cf_probe);
    let sys_exp_fx = fx_vec(&systemic_expectation);
    let v2_fx = fx_vec(&v2);
    let new_variance = portfolio_variance(&el_vec, &sys_exp_fx, &var_vec, &v2_fx);
    let new_expectation = portfolio_expectation(&el_vec, &sys_exp_fx);
    let rc = risk_contribution(
        &new_loan,
        &el_vec,
        &sys_exp_fx,
        &var_vec,
        &v2_fx,
        fx(0.0),
        fx(0.0),
        fx(q),
        fx(c),
    );
    assert!(
        (fx_to_f64(rc) * 10000.0
            - (fx_to_f64(new_expectation) + c * fx_to_f64(new_variance).sqrt()))
        .abs()
            <= 0.1
    );
}

#[test]
fn test_lambda_risk_contribution() {
    let balance = 1.0;
    let pd = 0.05;
    let lgd = 0.5;
    let num_loans = 9999.0;
    let r = 0.0;
    let lambda0 = 1000.0; //loss in the event of a liquidity crisis
    let q = 0.01 / (num_loans * pd * lgd * balance);
    let x_min = (-num_loans * pd * lgd * balance - lambda0) * 3.0;
    let v1 = vec![0.4, 0.3];
    let v2 = vec![0.4, 0.3];
    let systemic_expectation = vec![1.0, 1.0];
    let v_mgf = gamma_mgf(v1);
    let lgd_variance = 0.2;
    let weight1 = vec![0.4, 0.6];
    let weight2 = vec![0.4, 0.6];

    let x_max = 0.0;
    let num_u: usize = 1024;
    let mut discrete_cf = EconomicCapitalAttributes::new(num_u, v2.len());

    let liquid_fn = get_liquidity_risk_fn(lambda0, q);

    //the exponent is negative because l represents a loss
    let lgd_fn = |u: &Complex<f64>, l: f64, lgd_v: f64| {
        cf_functions::gamma::gamma_cf(&(-u * l), 1.0 / lgd_v, lgd_v)
    };
    let u_domain = u_domain_cx(num_u, x_min, x_max);
    let log_lpm_cf = |u: Cx| {
        let uc = cx_to_complex(u);
        log_lpm_from_cf(cx(lgd_fn(&liquid_fn(&uc), lgd * balance, lgd_variance)), fx(pd))
    };

    let loan = Loan {
        pd: fx(pd),
        lgd: fx(lgd),
        balance: fx(balance),
        lgd_variance: fx(lgd_variance),
        weight: fx_vec(&weight1),
        r: fx(r),
        num: fx(num_loans), //homogenous
    };
    discrete_cf.process_loan(&loan, &u_domain, log_lpm_cf);

    let final_cf = discrete_cf.get_full_cf(|row: Vec<Cx>| {
        let rf: Vec<Complex<f64>> = row.iter().map(|&c| cx_to_complex(c)).collect();
        cx(v_mgf(&rf))
    });
    assert_eq!(final_cf.len(), num_u);

    let new_loan = Loan {
        pd: fx(pd),
        lgd: fx(lgd),
        balance: fx(balance),
        lgd_variance: fx(lgd_variance),
        weight: fx_vec(&weight2),
        r: fx(r),
        num: fx(1.0),
    };

    let c = 5.0; //arbitrary
    let log_lpm_cf_probe = |u: Cx| {
        let uc = cx_to_complex(u);
        log_lpm_from_cf(cx(lgd_fn(&liquid_fn(&uc), lgd * balance, lgd_variance)), fx(pd))
    };
    let EconomicCapitalAttributes {
        el_vec,
        var_vec,
        lambda,
        ..
    } = discrete_cf.experiment_loan(&new_loan, &u_domain, log_lpm_cf_probe);
    let sys_exp_fx = fx_vec(&systemic_expectation);
    let v2_fx = fx_vec(&v2);
    let new_variance = portfolio_variance(&el_vec, &sys_exp_fx, &var_vec, &v2_fx);
    let new_expectation = portfolio_expectation(&el_vec, &sys_exp_fx);
    let liquid_exp = expectation_liquidity(fx(lambda0), fx(q), new_expectation);
    let liquid_var = variance_liquidity(fx(lambda0), fx(q), new_expectation, new_variance);
    assert!(fx_to_f64(lambda).abs() <= 0.00000001);
    let rc = risk_contribution(
        &new_loan,
        &el_vec,
        &sys_exp_fx,
        &var_vec,
        &v2_fx,
        fx(lambda0),
        fx(0.0),
        fx(q),
        fx(c),
    );
    assert!(
        (fx_to_f64(rc) * (num_loans + 1.0)
            - (fx_to_f64(liquid_exp) + c * fx_to_f64(liquid_var).sqrt()))
        .abs()
            <= 0.1
    );
}

#[test]
fn test_lambda_qzero_risk_contribution() {
    let balance = 1.0;
    let pd = 0.05;
    let lgd = 0.5;
    let num_loans = 9999.0;
    let r = 0.2;
    let lambda0 = 1000.0; //loss in the event of a liquidity crisis
    let q = 0.0 / (num_loans * pd * lgd * balance);
    let x_min = (-num_loans * pd * lgd * balance - lambda0) * 3.0;
    let v1 = vec![0.4, 0.3];
    let v2 = vec![0.4, 0.3];
    let systemic_expectation = vec![1.0, 1.0];
    let v_mgf = gamma_mgf(v1);
    let lgd_variance = 0.2;
    let weight1 = vec![0.4, 0.6];
    let weight2 = vec![0.4, 0.6];

    let x_max = 0.0;
    let num_u: usize = 1024;
    let mut discrete_cf = EconomicCapitalAttributes::new(num_u, v2.len());

    let liquid_fn = get_liquidity_risk_fn(lambda0, q);

    //the exponent is negative because l represents a loss
    let lgd_fn = |u: &Complex<f64>, l: f64, lgd_v: f64| {
        cf_functions::gamma::gamma_cf(&(-u * l), 1.0 / lgd_v, lgd_v)
    };
    let u_domain = u_domain_cx(num_u, x_min, x_max);
    let log_lpm_cf = |u: Cx| {
        let uc = cx_to_complex(u);
        log_lpm_from_cf(cx(lgd_fn(&liquid_fn(&uc), lgd * balance, lgd_variance)), fx(pd))
    };

    let loan = Loan {
        pd: fx(pd),
        lgd: fx(lgd),
        balance: fx(balance),
        lgd_variance: fx(lgd_variance),
        weight: fx_vec(&weight1),
        r: fx(r),
        num: fx(num_loans), //homogenous
    };
    discrete_cf.process_loan(&loan, &u_domain, log_lpm_cf);

    let final_cf = discrete_cf.get_full_cf(|row: Vec<Cx>| {
        let rf: Vec<Complex<f64>> = row.iter().map(|&c| cx_to_complex(c)).collect();
        cx(v_mgf(&rf))
    });
    assert_eq!(final_cf.len(), num_u);

    let new_loan = Loan {
        pd: fx(pd),
        lgd: fx(lgd),
        balance: fx(balance),
        lgd_variance: fx(lgd_variance),
        weight: fx_vec(&weight2),
        r: fx(r),
        num: fx(1.0),
    };

    let c = 5.0; //arbitrary
    let log_lpm_cf_probe = |u: Cx| {
        let uc = cx_to_complex(u);
        log_lpm_from_cf(cx(lgd_fn(&liquid_fn(&uc), lgd * balance, lgd_variance)), fx(pd))
    };
    let EconomicCapitalAttributes {
        el_vec, var_vec, ..
    } = discrete_cf.experiment_loan(&new_loan, &u_domain, log_lpm_cf_probe);
    let sys_exp_fx = fx_vec(&systemic_expectation);
    let v2_fx = fx_vec(&v2);
    let new_variance = portfolio_variance(&el_vec, &sys_exp_fx, &var_vec, &v2_fx);
    let new_expectation = portfolio_expectation(&el_vec, &sys_exp_fx);
    let liquid_exp = expectation_liquidity(fx(lambda0), fx(q), new_expectation);
    let liquid_var = variance_liquidity(fx(lambda0), fx(q), new_expectation, new_variance);
    let rc = risk_contribution(
        &new_loan,
        &el_vec,
        &sys_exp_fx,
        &var_vec,
        &v2_fx,
        fx(lambda0),
        fx(0.0),
        fx(q),
        fx(c),
    );
    assert!(
        (fx_to_f64(rc) * (num_loans + 1.0)
            - (fx_to_f64(liquid_exp) + c * fx_to_f64(liquid_var).sqrt()))
        .abs()
            <= 0.1
    );
}

#[test]
fn test_lambda_incremental_risk_contribution() {
    let balance = 1.0;
    let pd = 0.05;
    let lgd = 0.5;
    let num_loans = 9999.0;
    let r = 0.1;
    let lambda0 = 100.0; //loss in the event of a liquidity crisis
    let lambda = r * balance * (num_loans + 1.0);
    let q = 0.01 / (num_loans * pd * lgd * balance);
    let x_min = (-num_loans * pd * lgd * balance - lambda0 - lambda) * 3.0;
    let v1 = vec![0.4, 0.3];
    let v2 = vec![0.4, 0.3];
    let systemic_expectation = vec![1.0, 1.0];
    let v_mgf = gamma_mgf(v1);
    let lgd_variance = 0.2;
    let weight1 = vec![0.4, 0.6];
    let weight2 = vec![0.4, 0.6];

    let x_max = 0.0;
    let num_u: usize = 1024;
    let mut discrete_cf = EconomicCapitalAttributes::new(num_u, v2.len());

    let liquid_fn = get_liquidity_risk_fn(lambda0 + lambda, q);

    //the exponent is negative because l represents a loss
    let lgd_fn = |u: &Complex<f64>, l: f64, lgd_v: f64| {
        cf_functions::gamma::gamma_cf(&(-u * l), 1.0 / lgd_v, lgd_v)
    };
    let u_domain = u_domain_cx(num_u, x_min, x_max);
    let log_lpm_cf = |u: Cx| {
        let uc = cx_to_complex(u);
        log_lpm_from_cf(cx(lgd_fn(&liquid_fn(&uc), lgd * balance, lgd_variance)), fx(pd))
    };

    let loan = Loan {
        pd: fx(pd),
        lgd: fx(lgd),
        balance: fx(balance),
        lgd_variance: fx(lgd_variance),
        weight: fx_vec(&weight1),
        r: fx(r),
        num: fx(num_loans), //homogenous
    };
    discrete_cf.process_loan(&loan, &u_domain, log_lpm_cf);

    let final_cf = discrete_cf.get_full_cf(|row: Vec<Cx>| {
        let rf: Vec<Complex<f64>> = row.iter().map(|&c| cx_to_complex(c)).collect();
        cx(v_mgf(&rf))
    });
    assert_eq!(final_cf.len(), num_u);

    let new_loan = Loan {
        pd: fx(pd),
        lgd: fx(lgd),
        balance: fx(balance),
        lgd_variance: fx(lgd_variance),
        weight: fx_vec(&weight2),
        r: fx(r),
        num: fx(1.0),
    };

    let c = 5.0; //arbitrary
    let log_lpm_cf_probe = |u: Cx| {
        let uc = cx_to_complex(u);
        log_lpm_from_cf(cx(lgd_fn(&liquid_fn(&uc), lgd * balance, lgd_variance)), fx(pd))
    };
    let EconomicCapitalAttributes {
        el_vec,
        var_vec,
        lambda: lambda_new,
        ..
    } = discrete_cf.experiment_loan(&new_loan, &u_domain, log_lpm_cf_probe);
    let sys_exp_fx = fx_vec(&systemic_expectation);
    let v2_fx = fx_vec(&v2);
    let new_variance = portfolio_variance(&el_vec, &sys_exp_fx, &var_vec, &v2_fx);
    let new_expectation = portfolio_expectation(&el_vec, &sys_exp_fx);
    let liquid_exp = expectation_liquidity(fx(lambda + lambda0), fx(q), new_expectation);
    let liquid_var = variance_liquidity(fx(lambda + lambda0), fx(q), new_expectation, new_variance);

    assert!((lambda - fx_to_f64(lambda_new)).abs() <= 0.0000001);

    let rc = risk_contribution(
        &new_loan,
        &el_vec,
        &sys_exp_fx,
        &var_vec,
        &v2_fx,
        fx(lambda0),
        fx(lambda),
        fx(q),
        fx(c),
    );
    assert!(
        (fx_to_f64(rc) * (num_loans + 1.0)
            - (fx_to_f64(liquid_exp) + c * fx_to_f64(liquid_var).sqrt()))
        .abs()
            <= 0.1
    );
}

#[test]
fn test_lambda_incremental_risk_contribution_non_homogenous() {
    let balance1 = 1.0;
    let balance2 = 2.0;
    let pd1 = 0.05;
    let pd2 = 0.03;
    let lgd1 = 0.5;
    let lgd2 = 0.4;
    let num_loans1 = 6000.0;
    let num_loans2 = 4000.0;
    let r1 = 0.1;
    let r2 = 0.2;
    let lambda0 = 100.0; //loss in the event of a liquidity crisis
    let lambda = r1 * balance1 * num_loans1 + r2 * balance2 * num_loans2;
    let q = 0.01 / (num_loans1 * pd1 * lgd1 * balance1 + num_loans2 * pd2 * lgd2 * balance2);
    let x_min =
        (-num_loans1 * pd1 * lgd1 * balance1 - num_loans2 * pd2 * lgd2 * balance2 - lambda0
            - lambda)
            * 3.0;
    let v2 = vec![0.4, 0.3];
    let systemic_expectation = vec![1.0, 1.0];
    let lgd_variance = 0.2;
    let weight1_1 = vec![0.4, 0.6];
    let weight2_1 = vec![0.3, 0.7];

    let x_max = 0.0;
    let num_u: usize = 1024;
    let mut discrete_cf = EconomicCapitalAttributes::new(num_u, v2.len());

    let liquid_fn = get_liquidity_risk_fn(lambda0 + lambda, q);

    //the exponent is negative because l represents a loss
    let lgd_fn = |u: &Complex<f64>, l: f64, lgd_v: f64| {
        cf_functions::gamma::gamma_cf(&(-u * l), 1.0 / lgd_v, lgd_v)
    };
    let u_domain = u_domain_cx(num_u, x_min, x_max);

    let loan1 = Loan {
        pd: fx(pd1),
        lgd: fx(lgd1),
        balance: fx(balance1),
        lgd_variance: fx(lgd_variance),
        weight: fx_vec(&weight1_1),
        r: fx(r1),
        num: fx(num_loans1), //homogenous
    };
    let log_lpm_cf1 = |u: Cx| {
        let uc = cx_to_complex(u);
        log_lpm_from_cf(cx(lgd_fn(&liquid_fn(&uc), lgd1 * balance1, lgd_variance)), fx(pd1))
    };
    discrete_cf.process_loan(&loan1, &u_domain, log_lpm_cf1);

    let loan2 = Loan {
        pd: fx(pd2),
        lgd: fx(lgd2),
        balance: fx(balance2),
        lgd_variance: fx(lgd_variance),
        weight: fx_vec(&weight2_1),
        r: fx(r2),
        num: fx(num_loans2),
    };

    let c = 5.0; //arbitrary
    let log_lpm_cf2 = |u: Cx| {
        let uc = cx_to_complex(u);
        log_lpm_from_cf(cx(lgd_fn(&liquid_fn(&uc), lgd2 * balance2, lgd_variance)), fx(pd2))
    };
    let EconomicCapitalAttributes {
        el_vec,
        var_vec,
        lambda: lambda_new,
        ..
    } = discrete_cf.experiment_loan(&loan2, &u_domain, log_lpm_cf2);
    let sys_exp_fx = fx_vec(&systemic_expectation);
    let v2_fx = fx_vec(&v2);
    let new_variance = portfolio_variance(&el_vec, &sys_exp_fx, &var_vec, &v2_fx);
    let new_expectation = portfolio_expectation(&el_vec, &sys_exp_fx);
    let liquid_exp = expectation_liquidity(fx(lambda + lambda0), fx(q), new_expectation);
    let liquid_var = variance_liquidity(fx(lambda + lambda0), fx(q), new_expectation, new_variance);

    assert!((lambda - fx_to_f64(lambda_new)).abs() <= 0.0000001);

    let rc1 = risk_contribution(
        &loan1,
        &el_vec,
        &sys_exp_fx,
        &var_vec,
        &v2_fx,
        fx(lambda0),
        fx(lambda),
        fx(q),
        fx(c),
    );
    let rc2 = risk_contribution(
        &loan2,
        &el_vec,
        &sys_exp_fx,
        &var_vec,
        &v2_fx,
        fx(lambda0),
        fx(lambda),
        fx(q),
        fx(c),
    );
    assert!(
        (fx_to_f64(rc1) + fx_to_f64(rc2)
            - (fx_to_f64(liquid_exp) + c * fx_to_f64(liquid_var).sqrt()))
        .abs()
            <= 0.1
    );
}

#[test]
fn liquidity_identity_zero_q() {
    let e = fx(-250.5);
    let v = fx(10010.816);
    assert_eq!(expectation_liquidity(fx(123.456), fx(0.0), e), e);
    assert_eq!(variance_liquidity(fx(123.456), fx(0.0), e, v), v);
}

#[test]
fn liquidity_formulas_exact_values() {
    let lambda = fx(1000.0);
    let q = fx(0.00004);
    let e = fx(-250.0);
    let v = fx(10.0);
    assert_eq!(expectation_liquidity(lambda, q, e), fx(-260.0));
    assert_eq!(variance_liquidity(lambda, q, e, v), fx(10010.816));
}

#[test]
fn moment_accumulators_exact_values() {
    let mut attrs = EconomicCapitalAttributes::new(4, 2);
    let loan = Loan {
        balance: fx(1000.0),
        pd: fx(0.05),
        lgd: fx(0.5),
        weight: fx_vec(&[0.5, 0.25]),
        r: fx(0.2),
        lgd_variance: fx(0.2),
        num: fx(4.0),
    };
    let u_domain = vec![Cx::new(fx(0.0), fx(0.0)); 4];
    attrs.process_loan(&loan, &u_domain, |_u: Cx| Cx::new(fx(0.0), fx(0.0)));
    assert_eq!(attrs.el_vec[0], fx(-50.0));
    assert_eq!(attrs.el_vec[1], fx(-25.0));
    assert_eq!(attrs.var_vec[0], fx(30000.0));
    assert_eq!(attrs.var_vec[1], fx(15000.0));
    assert_eq!(attrs.lambda, fx(800.0));
    attrs.get_cf().iter().for_each(|entry| {
        assert_eq!(entry, &Cx::new(fx(0.0), fx(0.0)));
    });
}

#[test]
fn experiment_leaves_receiver_unchanged() {
    let mut attrs = EconomicCapitalAttributes::new(8, 1);
    let loan = Loan {
        balance: fx(100.0),
        pd: fx(0.01),
        lgd: fx(0.4),
        weight: fx_vec(&[1.0]),
        r: fx(0.1),
        lgd_variance: fx(0.0),
        num: fx(2.0),
    };
    let u_domain = vec![Cx::new(fx(0.5), fx(0.5)); 8];
    attrs.process_loan(&loan, &u_domain, |u: Cx| u);
    let cf_before: Vec<Cx> = attrs.get_cf().clone();
    let lambda_before = attrs.lambda;
    let probed = attrs.experiment_loan(&loan, &u_domain, |u: Cx| u);
    assert_eq!(attrs.get_cf(), &cf_before);
    assert_eq!(attrs.lambda, lambda_before);
    assert_eq!(probed.lambda, fx(40.0));
    assert_eq!(attrs.lambda, fx(20.0));
}

#[test]
fn fixed_point_sqrt_exact() {
    assert_eq!(Fx::from_raw(4 * SCALE).sqrt(), Fx::from_raw(2 * SCALE));
    assert_eq!(fx(2.25).sqrt(), fx(1.5));
    assert_eq!(fx(0.0).sqrt(), fx(0.0));
}

#[test]
fn liquidity_transform_exact_value() {
    let u = Cx::new(fx(0.5), fx(1.0));
    let shock_exp = Cx::new(fx(3.0), fx(2.0));
    let transformed = liquidity_transform(u, shock_exp, fx(0.5));
    assert_eq!(transformed, Cx::new(fx(-0.5), fx(0.0)));
}

#[test]
fn log_lpm_composition_exact_value() {
    let lgd_cf = Cx::new(fx(0.8), fx(0.4));
    let g = log_lpm_from_cf(lgd_cf, fx(0.05));
    assert_eq!(g, Cx::new(fx(-0.01), fx(0.02)));
}
