use matrix_kernels::{settle, MatrixError, ShapeViolation};

#[test]
fn a_finished_worker_hands_on_the_product() {
    let product: Result<Vec<Vec<i64>>, MatrixError> = Ok(vec![vec![19, 22], vec![43, 50]]);
    assert_eq!(settle(Ok(product)), Ok(vec![vec![19, 22], vec![43, 50]]));
}

#[test]
fn a_finished_worker_hands_on_the_kernel_error() {
    let failed: Result<Vec<Vec<i64>>, MatrixError> =
        Err(MatrixError::Shape(ShapeViolation::InnerDimensionMismatch));
    assert_eq!(settle(Ok(failed)), Err(MatrixError::Shape(ShapeViolation::InnerDimensionMismatch)));
    let unsupported: Result<Vec<Vec<i64>>, MatrixError> = Err(MatrixError::UnsupportedPlatform);
    assert_eq!(settle(Ok(unsupported)), Err(MatrixError::UnsupportedPlatform));
}

#[test]
fn a_crashed_worker_gives_a_task_failure() {
    let joined: Result<Result<Vec<Vec<i64>>, MatrixError>, String> =
        Err(String::from("task 7 panicked"));
    assert_eq!(settle(joined), Err(MatrixError::TaskFailure(String::from("task 7 panicked"))));
}

#[test]
fn a_task_failure_differs_from_the_domain_errors() {
    let joined: Result<Result<Vec<Vec<i64>>, MatrixError>, String> = Err(String::new());
    let failure = settle(joined);
    assert_ne!(failure, Err(MatrixError::UnsupportedPlatform));
    assert_ne!(failure, Err(MatrixError::Shape(ShapeViolation::EmptyOperand)));
    assert_ne!(failure, Err(MatrixError::Shape(ShapeViolation::InnerDimensionMismatch)));
}
