use fast_linear_estimator::matrix::MatrixAvxF32;
use fast_linear_estimator::matrix_avx::MatrixF32;
use fast_linear_estimator::matrix_avx::SINGLES_PER_INTRINSIC;

fn bits_vec(v: &[f32]) -> Vec<u32> {
    v.iter().map(|x| x.to_bits()).collect()
}

fn bits_rows(r: &[Vec<f32>]) -> Vec<Vec<u32>> {
    r.iter().map(|row| bits_vec(row)).collect()
}

fn floats_vec(v: &[u32]) -> Vec<f32> {
    v.iter().map(|x| f32::from_bits(*x)).collect()
}

#[test]
fn matrix_structure_create_exact() {
    // 5 rows, 10 columns
    let rows = vec![
        vec![1f32, 2., 3., 4., 5., 6., 7., 8., 9., 10.],
        vec![1f32, 2., 3., 4., 5., 6., 7., 8., 9., 10.],
        vec![1f32, 2., 3., 4., 5., 6., 7., 8., 9., 10.],
        vec![1f32, 2., 3., 4., 5., 6., 7., 8., 9., 10.],
        vec![1f32, 2., 3., 4., 5., 6., 7., 8., 9., 10.],
    ];
    let intecepts = [1f32, 2., 3., 4., 5., 6., 7., 8., 9., 10.];

    let matrix = MatrixAvxF32::create_from_rows(&bits_rows(&rows), &bits_vec(&intecepts)).unwrap();

    assert_eq!(matrix.num_columns, 10);
    assert_eq!(matrix.num_col_instrinsics, 2); // 2*8 required to represent 10 elements
    assert_eq!(matrix.num_rows, 5);
}

#[test]
fn matrix_test_structure_create_exact() {
    // 5 rows, 10 columns
    let rows = vec![
        vec![1f32, 2., 3., 4., 5., 6., 7., 8., 9., 10.],
        vec![1f32, 2., 3., 4., 5., 6., 7., 8., 9., 10.],
        vec![1f32, 2., 3., 4., 5., 6., 7., 8., 9., 10.],
        vec![1f32, 2., 3., 4., 5., 6., 7., 8., 9., 10.],
        vec![1f32, 2., 3., 4., 5., 6., 7., 8., 9., 10.],
    ];
    let intecepts = [1f32, 2., 3., 4., 5., 6., 7., 8., 9., 10.];

    let matrix = MatrixF32::create_from_rows(&bits_rows(&rows), &bits_vec(&intecepts)).unwrap();

    let expected_col_intrinsics = 10 / SINGLES_PER_INTRINSIC
        + match 10 % SINGLES_PER_INTRINSIC {
            0 => 0,
            _ => 1,
        };

    assert_eq!(matrix.num_columns, 10);
    assert_eq!(matrix.num_col_instrinsics, expected_col_intrinsics);
    assert_eq!(matrix.num_rows, 5);
}

#[test]
fn matrix_product() {
    let rows = vec![vec![1.0f32, 2.0, 3.0], vec![4.0f32, 5.0, 6.0]];
    let intercepts = [10f32, 20f32, 30f32];
    let matrix = MatrixAvxF32::create_from_rows(&bits_rows(&rows), &bits_vec(&intercepts)).unwrap();
    let v = vec![1f32, 2.];
    let mut res = bits_vec(&[0f32; 3]);
    matrix.product(&bits_vec(&v), &mut res);
    assert_eq!(floats_vec(&res), [19f32, 32., 45.]);
}

#[test]
fn matrix_test_product() {
    let rows = vec![vec![1.0f32, 2.0, 3.0], vec![4.0f32, 5.0, 6.0]];
    let intercepts = [10f32, 20f32, 30f32];
    let matrix = MatrixF32::create_from_rows(&bits_rows(&rows), &bits_vec(&intercepts)).unwrap();
    let v = vec![1f32, 2.];
    let mut res = bits_vec(&[0f32; 3]);
    matrix.product(&bits_vec(&v), &mut res);
    assert_eq!(floats_vec(&res), [19f32, 32., 45.]);
}

#[test]
fn matrix_product_large() {
    let coeffs: Vec<f32> = (1..=(35 * 5)).map(|x| x as f32).collect();
    let rows: Vec<Vec<f32>> = coeffs[..].chunks(35).map(|c| c.to_vec()).collect();
    let intercepts = [0f32; 35]; // leave these zero; another test covers this

    let matrix = MatrixAvxF32::create_from_rows(&bits_rows(&rows), &bits_vec(&intercepts)).unwrap();
    let v: Vec<f32> = (1..=5).map(|x| x as f32).collect();

    let mut res = bits_vec(&[0f32; 35]);
    matrix.product(&bits_vec(&v), &mut res);
    let out = floats_vec(&res);
    assert_eq!(out[0], 1415_f32);
    assert_eq!(out[18], 1685_f32);
    assert_eq!(out[34], 1925_f32);
}

#[test]
fn matrix_test_product_large() {
    let coeffs: Vec<f32> = (1..=(35 * 5)).map(|x| x as f32).collect();
    let rows: Vec<Vec<f32>> = coeffs[..].chunks(35).map(|c| c.to_vec()).collect();
    let intercepts = [0f32; 35]; // leave these zero; another test covers this

    let matrix = MatrixF32::create_from_rows(&bits_rows(&rows), &bits_vec(&intercepts)).unwrap();
    let v: Vec<f32> = (1..=5).map(|x| x as f32).collect();

    let mut res = bits_vec(&[0f32; 35]);
    matrix.product(&bits_vec(&v), &mut res);
    let out = floats_vec(&res);
    assert_eq!(out[0], 1415_f32);
    assert_eq!(out[18], 1685_f32);
    assert_eq!(out[34], 1925_f32);
}

#[test]
fn product_softmax() {
    let rows = vec![vec![1.0f32, 2.0, 3.0], vec![4.0f32, 5.0, 6.0]];
    let intercepts = [0.1f32, 0.2f32, 0.3f32];
    let matrix = MatrixF32::create_from_rows(&bits_rows(&rows), &bits_vec(&intercepts)).unwrap();
    let v = bits_vec(&[0.1f32, 0.5f32]);

    // approx
    let mut res = bits_vec(&[0f32; 3]);
    matrix.product_softmax_cumulative_approx(&v, &mut res);

    // check approximately equal (with fairly large tolerance since the numbers are large)
    let ok = floats_vec(&res)
        .iter()
        .zip(&[9.025013_f32, 27.199159_f32, 63.797393_f32])
        .all(|(a, b)| (a - b).abs() <= 0.01f32);
    assert!(ok);

    // sleef
    let mut res = bits_vec(&[0f32; 3]);
    matrix.product_softmax_cumulative_sleef(&v, &mut res);

    let ok = floats_vec(&res)
        .iter()
        .zip(&[9.025013_f32, 27.199159_f32, 63.797393_f32])
        .all(|(a, b)| (a - b).abs() <= 0.01f32);
    assert!(ok);
}

#[test]
fn product_softmax_not_normalised() {
    // rows hold 0.01..=0.40 built by repeated addition, intercepts 0.01..=0.20
    let mut riter: f32 = 0.01;
    let mut all: Vec<f32> = Vec::new();
    for _ in 0..40 {
        all.push(riter);
        riter += 0.01;
    }
    let rows: Vec<Vec<f32>> = vec![all[0..20].to_vec(), all[20..40].to_vec()];
    let mut intercepts: Vec<f32> = Vec::new();
    let mut it: f32 = 0.01;
    for _ in 0..20 {
        intercepts.push(it);
        it += 0.01;
    }
    let matrix = MatrixF32::create_from_rows(&bits_rows(&rows), &bits_vec(&intercepts)).unwrap();
    let x = bits_vec(&[-0.02, 0.04]);

    let expected = vec![
        1.018367, 1.028807, 1.039355, 1.05001, 1.060775, 1.071651, 1.082637, 1.093737, 1.10495,
        1.116278, 1.127722, 1.139284, 1.150964, 1.162764, 1.174685, 1.186728, 1.198895, 1.211186,
        1.223603, 1.236148,
    ];
    let expected_sum = 22.47855;

    // approx with loose tolerance
    let tolerance: f32 = 1e-2;
    let mut res = bits_vec(&[0f32; 20]);
    let mut sum: u32 = 0f32.to_bits();
    matrix.product_softmax_not_normalised_approx(&x, &mut res, &mut sum);

    assert!((expected_sum - f32::from_bits(sum)).abs() <= tolerance);
    for (a, b) in floats_vec(&res).iter().zip(&expected) {
        assert!((a - b).abs() <= tolerance);
    }

    // sleef with tighter tolerance
    let tolerance: f32 = 1e-4;
    let mut res = bits_vec(&[0f32; 20]);
    let mut sum: u32 = 0f32.to_bits();
    matrix.product_softmax_not_normalised_sleef(&x, &mut res, &mut sum);

    assert!((expected_sum - f32::from_bits(sum)).abs() <= tolerance);
    for (a, b) in floats_vec(&res).iter().zip(&expected) {
        assert!((a - b).abs() <= tolerance);
    }
}

#[test]
fn product_matches_naive_loop() {
    // The packed, chunked kernel agrees bit for bit with a plain double loop
    // that seeds the accumulator with the intercept and folds the inputs in
    // order.
    let rows: Vec<Vec<f32>> = vec![
        (0..10).map(|k| 0.25f32 + k as f32 * 0.125).collect(),
        (0..10).map(|k| -1.5f32 + k as f32 * 0.0625).collect(),
        (0..10).map(|k| 3.0f32 - k as f32 * 0.75).collect(),
    ];
    let intercepts: Vec<f32> = (0..10).map(|k| 0.1f32 * k as f32 - 0.3).collect();
    let values = vec![0.7f32, -2.25, 0.035];

    let matrix = MatrixF32::create_from_rows(&bits_rows(&rows), &bits_vec(&intercepts)).unwrap();
    let mut res = bits_vec(&[0f32; 10]);
    assert!(matrix.product(&bits_vec(&values), &mut res).is_some());
    let out = floats_vec(&res);

    for k in 0..10 {
        let mut acc = intercepts[k];
        for i in 0..3 {
            acc += values[i] * rows[i][k];
        }
        assert_eq!(out[k].to_bits(), acc.to_bits());
    }
}

#[test]
fn create_from_columns_matches_rows() {
    // The pre-transposed ordering packs the identical matrix, so the product
    // agrees bit for bit.
    let rows = vec![vec![1.0f32, 2.0, 3.0], vec![4.0f32, 5.0, 6.0]];
    let columns = vec![vec![1.0f32, 4.0], vec![2.0f32, 5.0], vec![3.0f32, 6.0]];
    let intercepts = [10f32, 20f32, 30f32];
    let v = bits_vec(&[1f32, 2.]);

    let from_rows =
        MatrixF32::create_from_rows(&bits_rows(&rows), &bits_vec(&intercepts)).unwrap();
    let from_cols =
        MatrixF32::create_from_columns(&bits_rows(&columns), &bits_vec(&intercepts)).unwrap();

    let mut res_rows = bits_vec(&[0f32; 3]);
    let mut res_cols = bits_vec(&[7f32; 3]);
    assert!(from_rows.product(&v, &mut res_rows).is_some());
    assert!(from_cols.product(&v, &mut res_cols).is_some());
    assert_eq!(res_rows, res_cols);
    assert_eq!(floats_vec(&res_cols), [19f32, 32., 45.]);

    // the transposed ordering's own failure conditions
    let two_intercepts = bits_vec(&[1f32, 2.]);
    assert!(MatrixF32::create_from_columns(&bits_rows(&columns), &two_intercepts).is_none());
    let ragged = vec![vec![1.0f32, 4.0], vec![2.0f32], vec![3.0f32, 6.0]];
    assert!(
        MatrixF32::create_from_columns(&bits_rows(&ragged), &bits_vec(&intercepts)).is_none()
    );
    let empty: Vec<Vec<u32>> = vec![];
    let no_icpt: Vec<u32> = vec![];
    assert!(MatrixF32::create_from_columns(&empty, &no_icpt).is_none());
}

#[test]
fn create_rejects_bad_dimensions() {
    let good = vec![vec![1f32, 2., 3.], vec![4f32, 5., 6.]];
    let icpt3 = [1f32, 2., 3.];
    let icpt2 = [1f32, 2.];
    let ragged = vec![vec![1f32, 2., 3.], vec![4f32, 5.]];
    let empty: Vec<Vec<f32>> = vec![];

    assert!(MatrixF32::create_from_rows(&bits_rows(&good), &bits_vec(&icpt3)).is_some());
    assert!(MatrixF32::create_from_rows(&bits_rows(&good), &bits_vec(&icpt2)).is_none());
    assert!(MatrixF32::create_from_rows(&bits_rows(&ragged), &bits_vec(&icpt3)).is_none());
    assert!(MatrixF32::create_from_rows(&bits_rows(&empty), &bits_vec(&icpt3)).is_none());
    assert!(MatrixAvxF32::create_from_rows(&bits_rows(&ragged), &bits_vec(&icpt3)).is_none());
    assert!(MatrixAvxF32::create_from_rows(&bits_rows(&good), &bits_vec(&icpt3)).is_some());
}

#[test]
fn dimension_mismatch_leaves_destination() {
    let rows = vec![vec![1.0f32, 2.0, 3.0], vec![4.0f32, 5.0, 6.0]];
    let intercepts = [10f32, 20f32, 30f32];
    let matrix = MatrixF32::create_from_rows(&bits_rows(&rows), &bits_vec(&intercepts)).unwrap();

    let junk = bits_vec(&[7f32, 8., 9., 11.]);
    let good_values = bits_vec(&[1f32, 2.]);
    let short_values = bits_vec(&[1f32]);

    // destination of the wrong length
    let mut dest = junk.clone();
    assert!(matrix.product(&good_values, &mut dest).is_none());
    assert_eq!(dest, junk);
    assert!(matrix
        .product_softmax_cumulative_approx(&good_values, &mut dest)
        .is_none());
    assert_eq!(dest, junk);
    let mut sum: u32 = 5f32.to_bits();
    assert!(matrix
        .product_softmax_not_normalised_approx(&good_values, &mut dest, &mut sum)
        .is_none());
    assert_eq!(dest, junk);
    assert_eq!(sum, 5f32.to_bits());

    // values of the wrong length
    let mut dest3 = bits_vec(&[7f32, 8., 9.]);
    let junk3 = dest3.clone();
    assert!(matrix.product(&short_values, &mut dest3).is_none());
    assert_eq!(dest3, junk3);
    assert!(matrix
        .product_softmax_cumulative_sleef(&short_values, &mut dest3)
        .is_none());
    assert_eq!(dest3, junk3);
}

#[test]
fn softmax_full_chunk() {
    // A column count that is an exact multiple of the lane width: the last
    // chunk has no tail, and all kernels still work.
    let rows: Vec<Vec<f32>> = vec![
        (0..8).map(|k| 0.05f32 * k as f32).collect(),
        (0..8).map(|k| 0.1f32 - 0.02f32 * k as f32).collect(),
    ];
    let intercepts: Vec<f32> = (0..8).map(|k| 0.01f32 * k as f32).collect();
    let matrix = MatrixF32::create_from_rows(&bits_rows(&rows), &bits_vec(&intercepts)).unwrap();
    let values = vec![0.3f32, -0.2];

    let mut res = bits_vec(&[0f32; 8]);
    let mut sum: u32 = 0f32.to_bits();
    assert!(matrix
        .product_softmax_not_normalised_approx(&bits_vec(&values), &mut res, &mut sum)
        .is_some());

    // the returned sum matches the written elements
    let written: f64 = floats_vec(&res).iter().map(|v| *v as f64).sum();
    let s = f32::from_bits(sum) as f64;
    assert!(((written - s) / written).abs() < 1e-5);

    // and each element tracks the true exponential of the logit
    for k in 0..8 {
        let mut logit = intercepts[k];
        for i in 0..2 {
            logit += values[i] * rows[i][k];
        }
        let expect = (logit as f64).exp();
        let got = f32::from_bits(res[k]) as f64;
        assert!(((expect - got) / expect).abs() < 1e-3);
    }
}

#[test]
fn zero_outputs_accepted() {
    // One input row of zero outputs: construction succeeds, the kernels
    // accept empty destinations, and the non-normalized total is +0.0.
    let rows: Vec<Vec<u32>> = vec![vec![]];
    let intercepts: Vec<u32> = vec![];
    let matrix = MatrixF32::create_from_rows(&rows, &intercepts).unwrap();
    assert_eq!(matrix.num_col_instrinsics, 0);

    let values = bits_vec(&[2.5f32]);
    let mut dest: Vec<u32> = vec![];
    assert!(matrix.product(&values, &mut dest).is_some());
    assert!(matrix
        .product_softmax_cumulative_approx(&values, &mut dest)
        .is_some());
    let mut sum: u32 = 9f32.to_bits();
    assert!(matrix
        .product_softmax_not_normalised_approx(&values, &mut dest, &mut sum)
        .is_some());
    assert_eq!(f32::from_bits(sum), 0.0f32);
}
