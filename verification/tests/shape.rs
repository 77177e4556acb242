use matrix_kernels::{
    dims_match, multiply_accelerate, multiply_base, multiply_simd, GemmCall, MatrixError,
    ShapeViolation,
};

fn empty_operand<T>() -> Result<T, MatrixError> {
    Err(MatrixError::Shape(ShapeViolation::EmptyOperand))
}

fn inner_mismatch<T>() -> Result<T, MatrixError> {
    Err(MatrixError::Shape(ShapeViolation::InnerDimensionMismatch))
}

/// A routine that must not be reached: the shape check comes first.
fn unreachable_routine(_call: GemmCall<i64>) -> Vec<i64> {
    panic!("the routine was called although the operands cannot be multiplied")
}

#[test]
fn dims_match_returns_the_dimension_triple() {
    let a: Vec<Vec<i64>> = vec![vec![1, 2, 3], vec![4, 5, 6]];
    let b: Vec<Vec<i64>> = vec![vec![1, 2, 3, 4], vec![5, 6, 7, 8], vec![9, 10, 11, 12]];
    assert_eq!(dims_match(&a, &b), Ok((2, 3, 4)));
}

#[test]
fn dims_match_accepts_one_by_one() {
    let a: Vec<Vec<i64>> = vec![vec![7]];
    let b: Vec<Vec<i64>> = vec![vec![9]];
    assert_eq!(dims_match(&a, &b), Ok((1, 1, 1)));
}

#[test]
fn dims_match_works_on_any_entry_type() {
    let a: Vec<Vec<f64>> = vec![vec![1.0, 2.0]];
    let b: Vec<Vec<f64>> = vec![vec![3.0], vec![4.0]];
    assert_eq!(dims_match(&a, &b), Ok((1, 2, 1)));
}

#[test]
fn dims_match_rejects_a_left_operand_without_rows() {
    let a: Vec<Vec<i64>> = vec![];
    let b: Vec<Vec<i64>> = vec![vec![1]];
    assert_eq!(dims_match(&a, &b), empty_operand());
}

#[test]
fn dims_match_rejects_a_right_operand_without_rows() {
    let a: Vec<Vec<i64>> = vec![vec![1]];
    let b: Vec<Vec<i64>> = vec![];
    assert_eq!(dims_match(&a, &b), empty_operand());
}

#[test]
fn dims_match_rejects_a_left_operand_without_columns() {
    let a: Vec<Vec<i64>> = vec![vec![], vec![]];
    let b: Vec<Vec<i64>> = vec![vec![1]];
    assert_eq!(dims_match(&a, &b), empty_operand());
}

#[test]
fn dims_match_rejects_a_right_operand_without_columns() {
    let a: Vec<Vec<i64>> = vec![vec![1]];
    let b: Vec<Vec<i64>> = vec![vec![]];
    assert_eq!(dims_match(&a, &b), empty_operand());
}

#[test]
fn dims_match_rejects_disagreeing_inner_dimensions() {
    let a: Vec<Vec<i64>> = vec![vec![1, 2, 3]];
    let b: Vec<Vec<i64>> = vec![vec![1, 2], vec![3, 4]];
    assert_eq!(dims_match(&a, &b), inner_mismatch());
}

#[test]
fn dims_match_reports_emptiness_before_a_mismatch() {
    let a: Vec<Vec<i64>> = vec![vec![1, 2, 3]];
    let b: Vec<Vec<i64>> = vec![vec![], vec![]];
    assert_eq!(dims_match(&a, &b), empty_operand());
}

#[test]
fn every_strategy_rejects_an_empty_left_operand() {
    let b: Vec<Vec<i64>> = vec![vec![1, 2]];
    assert_eq!(multiply_base(vec![], b.clone()), empty_operand());
    assert_eq!(multiply_simd(vec![], b.clone()), empty_operand());
    assert_eq!(multiply_accelerate(vec![], b, Some(unreachable_routine)), empty_operand());
}

#[test]
fn every_strategy_rejects_an_empty_right_operand() {
    let a: Vec<Vec<i64>> = vec![vec![1, 2]];
    assert_eq!(multiply_base(a.clone(), vec![]), empty_operand());
    assert_eq!(multiply_simd(a.clone(), vec![]), empty_operand());
    assert_eq!(multiply_accelerate(a, vec![], Some(unreachable_routine)), empty_operand());
}

#[test]
fn every_strategy_rejects_operands_without_columns() {
    let a: Vec<Vec<i64>> = vec![vec![]];
    let b: Vec<Vec<i64>> = vec![vec![1]];
    assert_eq!(multiply_base(a.clone(), b.clone()), empty_operand());
    assert_eq!(multiply_simd(a.clone(), b.clone()), empty_operand());
    assert_eq!(
        multiply_accelerate(a.clone(), b.clone(), Some(unreachable_routine)),
        empty_operand()
    );
    assert_eq!(multiply_base(b.clone(), a.clone()), empty_operand());
    assert_eq!(multiply_simd(b.clone(), a.clone()), empty_operand());
    assert_eq!(multiply_accelerate(b, a, Some(unreachable_routine)), empty_operand());
}

#[test]
fn every_strategy_rejects_disagreeing_inner_dimensions() {
    let a: Vec<Vec<i64>> = vec![vec![1, 2, 3], vec![4, 5, 6]];
    let b: Vec<Vec<i64>> = vec![vec![1, 2], vec![3, 4]];
    assert_eq!(multiply_base(a.clone(), b.clone()), inner_mismatch());
    assert_eq!(multiply_simd(a.clone(), b.clone()), inner_mismatch());
    assert_eq!(multiply_accelerate(a, b, Some(unreachable_routine)), inner_mismatch());
}

#[test]
fn square_operands_of_different_size_are_rejected() {
    let a: Vec<Vec<i64>> = vec![vec![1, 2], vec![3, 4]];
    let b: Vec<Vec<i64>> = vec![vec![1, 0, 0], vec![0, 1, 0], vec![0, 0, 1]];
    assert_eq!(multiply_base(a.clone(), b.clone()), inner_mismatch());
    assert_eq!(multiply_simd(b, a), inner_mismatch());
}
