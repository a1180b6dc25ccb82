use fast_linear_estimator::exp_approx;
use fast_linear_estimator::exp_approx_arm;
use fast_linear_estimator::exp_approx_avx;
use fast_linear_estimator::exp_sleef_avx;

const VALS: [f32; 8] = [-10_f32, -5., -1., 0., 1., 2., 5., 10.];

fn bits_vec(v: &[f32]) -> Vec<u32> {
    v.iter().map(|x| x.to_bits()).collect()
}

fn expected() -> Vec<f32> {
    VALS.iter().map(|v| v.exp()).collect()
}

fn check_relative(expect: f32, actual: f32, max_relative: f32) {
    let largest = expect.abs().max(actual.abs());
    assert!(
        (expect - actual).abs() <= largest * max_relative,
        "expected {} got {}",
        expect,
        actual
    );
}

fn check_assert(expect: &[f32], vals: &[f32]) {
    vals.iter().zip(expect.iter()).for_each(|(act, exp)| {
        check_relative(*exp, *act, 1e-4);
    });
}

fn check_assert_accurate(expect: &[f32], vals: &[f32]) {
    vals.iter().zip(expect.iter()).for_each(|(act, exp)| {
        check_relative(*exp, *act, 1e-8);
    });
}

#[test]
fn exp_approx_f32() {
    let res: Vec<f32> = VALS
        .iter()
        .map(|&v| f32::from_bits(exp_approx::exp_approx_f32(v.to_bits())))
        .collect();
    let expect = expected();
    check_assert(&expect, &res);
}

#[test]
fn exp_approx_avxf32() {
    let input = bits_vec(&VALS);
    let res = exp_approx_avx::exp_approx_avxf32(&input);
    let res_f32: Vec<f32> = res.iter().map(|b| f32::from_bits(*b)).collect();
    check_assert(&expected(), &res_f32);
}

#[test]
fn exp_sleef_avx() {
    let input = bits_vec(&VALS);
    let res = exp_sleef_avx::exp(&input);
    let res_f32: Vec<f32> = res.iter().map(|b| f32::from_bits(*b)).collect();
    check_assert_accurate(&expected(), &res_f32);
}

#[test]
fn exp_approx_armf32() {
    let x1 = bits_vec(&[-10_f32, -5., -1., 0.]);
    let x2 = bits_vec(&[1.0_f32, 2., 5., 10.]);

    let res1: Vec<f32> = exp_approx_arm::exp_approx_armf32(&x1)
        .iter()
        .map(|b| f32::from_bits(*b))
        .collect();
    let res2: Vec<f32> = exp_approx_arm::exp_approx_armf32(&x2)
        .iter()
        .map(|b| f32::from_bits(*b))
        .collect();

    let expect = expected();
    check_assert(&expect[0..4], &res1);
    check_assert(&expect[4..8], &res2);
}

#[test]
fn exp_approx_accuracy_grid() {
    // The fast path stays within 1.25e-4 relative error across [-10, 10]
    // (its worst points, near 0.8, sit just above 1e-4).
    let mut k: i32 = -500;
    while k <= 500 {
        let x = (k as f32) * 0.02;
        let approx = f32::from_bits(exp_approx::exp_approx_f32(x.to_bits())) as f64;
        let exact = (x as f64).exp();
        assert!(
            ((approx - exact) / exact).abs() < 1.25e-4,
            "x = {}: {} vs {}",
            x,
            approx,
            exact
        );
        k += 1;
    }
}

#[test]
fn exp_approx_saturates() {
    // Far outside the clamp range the approximation saturates instead of
    // overflowing to infinity or underflowing to a negative value.
    let lo = f32::from_bits(exp_approx::exp_approx_f32((-1000f32).to_bits()));
    assert!(lo >= 0.0 && lo < 1e-35);
    let hi = f32::from_bits(exp_approx::exp_approx_f32((1000f32).to_bits()));
    assert!(hi.is_finite() && hi > 1e38);
}

#[test]
fn exp_sleef_cutoffs() {
    // The accurate path maps arguments below -104 to exactly zero and above
    // 100 to infinity.
    let lo = exp_sleef_avx::exp(&bits_vec(&[-105f32]));
    assert_eq!(f32::from_bits(lo[0]), 0.0f32);
    let near = exp_sleef_avx::exp(&bits_vec(&[-80f32]));
    assert!(f32::from_bits(near[0]) > 0.0f32);
    let hi = exp_sleef_avx::exp(&bits_vec(&[101f32]));
    assert!(f32::from_bits(hi[0]).is_infinite());
}
