//! The result of a multiplication that ran on a worker.
//!
//! Running a kernel off the caller's thread is the caller's business; the
//! kernels are plain functions that share no state. What the library fixes
//! is what the caller is told: the kernel's own result where the worker
//! finished, and a failure of its own kind where it did not.

use crate::error::MatrixError;
use vstd::prelude::*;

verus! {

/// Turns what joining a worker gave into the result of the call. A worker
/// that finished hands on the kernel's result unchanged, product or error; a
/// worker that ended abnormally, of which `joined` holds the account, gives
/// `TaskFailure` with that account.
pub fn settle<M>(joined: Result<Result<M, MatrixError>, String>) -> (r: Result<M, MatrixError>)
    ensures
        r == match joined {
            Ok(outcome) => outcome,
            Err(account) => Err(MatrixError::TaskFailure(account)),
        },
{
    match joined {
        Ok(outcome) => outcome,
        Err(account) => Err(MatrixError::TaskFailure(account)),
    }
}

} // verus!
