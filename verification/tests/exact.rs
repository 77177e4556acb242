use matrix_kernels::{
    dot_wide, matmul_naive, multiply_accelerate, multiply_base, multiply_simd, GemmCall, Scalar,
};

fn identity(k: usize) -> Vec<Vec<i64>> {
    (0..k).map(|i| (0..k).map(|j| if i == j { 1 } else { 0 }).collect()).collect()
}

fn generated(seed: u64, rows: usize, cols: usize) -> Vec<Vec<i64>> {
    let mut state = seed;
    (0..rows)
        .map(|_| {
            (0..cols)
                .map(|_| {
                    state = state
                        .wrapping_mul(6364136223846793005)
                        .wrapping_add(1442695040888963407);
                    (state >> 3) as i64
                })
                .collect()
        })
        .collect()
}

fn wrapping_gemm(call: GemmCall<i64>) -> Vec<i64> {
    let mut out = vec![0i64; call.rows * call.cols];
    for j in 0..call.cols {
        for i in 0..call.rows {
            for t in 0..call.inner {
                out[j * call.rows + i] = out[j * call.rows + i].wrapping_add(
                    call.left[t * call.rows + i].wrapping_mul(call.right[j * call.inner + t]),
                );
            }
        }
    }
    out
}

#[test]
fn the_scalar_operations_of_integers_wrap() {
    assert_eq!(<i64 as Scalar>::zero(), 0);
    assert_eq!(2i64.plus(3), 5);
    assert_eq!(i64::MAX.plus(1), i64::MIN);
    assert_eq!((-4i64).times(6), -24);
    assert_eq!(i64::MAX.times(2), -2);
    assert_eq!(
        <i64 as Scalar>::fused_lanes([1, 2, 3, i64::MAX], [2, 3, 4, 1], [5, 6, 7, 1]),
        [11, 20, 31, i64::MIN]
    );
}

#[test]
fn integer_products_with_every_strategy() {
    let a: Vec<Vec<i64>> = vec![vec![1, 2], vec![3, 4]];
    let b: Vec<Vec<i64>> = vec![vec![5, 6], vec![7, 8]];
    let expected: Vec<Vec<i64>> = vec![vec![19, 22], vec![43, 50]];
    assert_eq!(multiply_base(a.clone(), b.clone()), Ok(expected.clone()));
    assert_eq!(multiply_simd(a.clone(), b.clone()), Ok(expected.clone()));
    assert_eq!(multiply_accelerate(a, b, Some(wrapping_gemm)), Ok(expected));
}

#[test]
fn integer_row_times_column() {
    let a: Vec<Vec<i64>> = vec![vec![1, 2, 3]];
    let b: Vec<Vec<i64>> = vec![vec![4], vec![5], vec![6]];
    assert_eq!(multiply_base(a.clone(), b.clone()), Ok(vec![vec![32]]));
    assert_eq!(multiply_simd(a, b), Ok(vec![vec![32]]));
}

#[test]
fn integer_dot_products() {
    assert_eq!(dot_wide::<i64>(&[], &[]), 0);
    assert_eq!(dot_wide(&[1i64, 2, 3, 4, 5], &[6i64, 7, 8, 9, 10]), 130);
    assert_eq!(matmul_naive(&[1i64, 2, 3, 4], &[5i64, 6, 7, 8], 2, 2, 2), vec![19, 22, 43, 50]);
}

#[test]
fn on_exact_entries_the_strategies_agree_to_the_last_bit() {
    let cases = [(1u64, 1usize, 1usize, 1usize), (2, 2, 7, 3), (3, 5, 12, 4), (4, 9, 17, 6)];
    for (seed, n, k, m) in cases {
        let a = generated(seed, n, k);
        let b = generated(seed + 50, k, m);
        let base = multiply_base(a.clone(), b.clone());
        assert!(base.is_ok());
        assert_eq!(multiply_simd(a.clone(), b.clone()), base);
        assert_eq!(multiply_accelerate(a, b, Some(wrapping_gemm)), base);
    }
}

#[test]
fn on_exact_entries_the_identity_changes_nothing() {
    let a = generated(7, 3, 5);
    assert_eq!(multiply_base(a.clone(), identity(5)), Ok(a.clone()));
    assert_eq!(multiply_simd(a.clone(), identity(5)), Ok(a.clone()));
    assert_eq!(multiply_base(identity(3), a.clone()), Ok(a.clone()));
    assert_eq!(multiply_simd(identity(3), a.clone()), Ok(a));
}
