//! Multiplication by a platform routine that works on column-major buffers.
//!
//! The routine itself is not part of this library: where the platform has
//! one, the caller hands it in. The library validates the operands, lays them
//! out column by column, fixes what the routine is called with, and reads the
//! routine's column-major output back into nested rows.

use crate::error::MatrixError;
use crate::helpers::dims_match;
use crate::matrix::{
    column_major, from_column_major, is_matrix, lemma_place, rectangular, rows_of, shape_fault,
    width,
};
use vstd::prelude::*;

verus! {

/// A scaling factor of a general matrix-multiply routine, which computes
/// `alpha * left * right + beta * output`.
#[derive(Clone, Copy, Debug, PartialEq, Eq)]
pub enum Factor {
    Zero,
    One,
}

/// One call of a general matrix-multiply routine: the product of a `rows` by
/// `inner` matrix and an `inner` by `cols` matrix, both column-major and
/// untransposed, so that each operand's leading dimension is its row count,
/// scaled by `alpha` and added to `beta` times what the output held before.
pub struct GemmCall<T> {
    pub rows: usize,
    pub cols: usize,
    pub inner: usize,
    pub alpha: Factor,
    pub left: Vec<T>,
    pub right: Vec<T>,
    pub beta: Factor,
}

impl<T> GemmCall<T> {
    /// No dimension is zero and each buffer has as many entries as its
    /// dimensions say.
    pub open spec fn well_formed(&self) -> bool {
        &&& self.rows >= 1
        &&& self.cols >= 1
        &&& self.inner >= 1
        &&& self.left@.len() == self.rows * self.inner
        &&& self.right@.len() == self.inner * self.cols
    }

    /// The call asks for the plain product of `a` and `b`: the product is
    /// taken once and nothing of a previous output is added to it.
    pub open spec fn carries(&self, a: Seq<Seq<T>>, b: Seq<Seq<T>>) -> bool {
        &&& self.alpha == Factor::One
        &&& self.beta == Factor::Zero
        &&& self.rows == a.len()
        &&& self.inner == b.len()
        &&& self.cols == width(b)
        &&& self.left@ == column_major(a, a.len(), b.len())
        &&& self.right@ == column_major(b, b.len(), width(b))
    }
}

/// The routine can be called with every well-formed call, and what it
/// returns for one has an entry for each entry of the product.
pub open spec fn serves_every_call<T, G: Fn(GemmCall<T>) -> Vec<T>>(routine: G) -> bool {
    &&& forall|call: GemmCall<T>| call.well_formed() ==> #[trigger] routine.requires((call,))
    &&& forall|call: GemmCall<T>, out: Vec<T>|
        call.well_formed() && #[trigger] routine.ensures((call,), out) ==> out@.len() == call.rows
            * call.cols
}

/// Lays a `rows` by `cols` matrix out column by column.
pub fn to_column_major<T: Copy>(a: &Vec<Vec<T>>, rows: usize, cols: usize) -> (out: Vec<T>)
    requires
        is_matrix(rows_of(a), rows as nat, cols as nat),
    ensures
        out@ == column_major(rows_of(a), rows as nat, cols as nat),
{
    let mut out: Vec<T> = Vec::new();
    let mut j: usize = 0;
    while j < cols
        invariant
            is_matrix(rows_of(a), rows as nat, cols as nat),
            j <= cols,
            out@.len() == j * rows,
            forall|at: int|
                0 <= at < out@.len() ==> #[trigger] out@[at] == rows_of(a)[at % (rows as int)][at
                    / (rows as int)],
        decreases cols - j,
    {
        let mut i: usize = 0;
        while i < rows
            invariant
                is_matrix(rows_of(a), rows as nat, cols as nat),
                j < cols,
                i <= rows,
                out@.len() == j * rows + i,
                forall|at: int|
                    0 <= at < out@.len() ==> #[trigger] out@[at] == rows_of(a)[at % (
                    rows as int)][at / (rows as int)],
            decreases rows - i,
        {
            proof {
                lemma_place(rows as nat, cols as nat, j as int, i as int);
                assert(rows_of(a)[i as int].len() == cols);
            }
            out.push(a[i][j]);
            i += 1;
        }
        assert((j + 1) * rows == j * rows + rows) by (nonlinear_arith);
        j += 1;
    }
    proof {
        assert(cols * rows == (rows as nat) * (cols as nat)) by (nonlinear_arith);
    }
    assert(out@ =~= column_major(rows_of(a), rows as nat, cols as nat));
    out
}

/// Reads a column-major buffer of a `rows` by `cols` matrix back into nested
/// rows: entry `(i, j)` of the result is the buffer's entry `j * rows + i`.
pub fn rows_from_column_major<T: Copy>(buffer: &Vec<T>, rows: usize, cols: usize) -> (out: Vec<
    Vec<T>,
>)
    requires
        buffer.len() == rows * cols,
    ensures
        rows_of(&out) == from_column_major(buffer@, rows as nat, cols as nat),
{
    let mut out: Vec<Vec<T>> = Vec::new();
    let mut i: usize = 0;
    while i < rows
        invariant
            buffer.len() == rows * cols,
            i <= rows,
            out@.len() == i,
            forall|p: int|
                0 <= p < i ==> (#[trigger] out@[p])@ == Seq::new(
                    cols as nat,
                    |j: int| buffer@[j * rows + p],
                ),
        decreases rows - i,
    {
        let mut row: Vec<T> = Vec::new();
        let mut j: usize = 0;
        while j < cols
            invariant
                buffer.len() == rows * cols,
                i < rows,
                j <= cols,
                row@.len() == j,
                forall|q: int| 0 <= q < j ==> #[trigger] row@[q] == buffer@[q * rows + i],
            decreases cols - j,
        {
            proof {
                lemma_place(rows as nat, cols as nat, j as int, i as int);
            }
            row.push(buffer[j * rows + i]);
            j += 1;
        }
        assert(row@ =~= Seq::new(cols as nat, |j: int| buffer@[j * rows + i]));
        out.push(row);
        i += 1;
    }
    assert(rows_of(&out) =~= from_column_major(buffer@, rows as nat, cols as nat));
    out
}

/// Validates the operands and builds the call that asks a routine for their
/// product.
pub fn prepare_gemm<T: Copy>(a: &Vec<Vec<T>>, b: &Vec<Vec<T>>) -> (r: Result<
    GemmCall<T>,
    MatrixError,
>)
    requires
        rectangular(rows_of(a)),
        rectangular(rows_of(b)),
    ensures
        match shape_fault(rows_of(a), rows_of(b)) {
            Some(violation) => r == Err::<GemmCall<T>, MatrixError>(MatrixError::Shape(violation)),
            None => r matches Ok(call) && call.well_formed() && call.carries(
                rows_of(a),
                rows_of(b),
            ),
        },
{
    let (m, k, n) = dims_match(a, b)?;
    let left: Vec<T> = to_column_major(a, m, k);
    let right: Vec<T> = to_column_major(b, k, n);
    proof {
        assert(m * k == (m as nat) * (k as nat)) by (nonlinear_arith);
    }
    Ok(GemmCall { rows: m, cols: n, inner: k, alpha: Factor::One, left, right, beta: Factor::Zero })
}

/// Multiplies `a` by `b` through the platform's routine.
///
/// Where the platform has no routine (`routine` is `None`) the call fails
/// with `UnsupportedPlatform` whatever the operands are, before anything is
/// looked at or allocated. Otherwise the operands are validated, handed to
/// the routine column-major, and the routine's output is read back: the
/// result is fixed by what the routine returned for that one call.
pub fn multiply_accelerate<T: Copy, G: Fn(GemmCall<T>) -> Vec<T>>(
    a: Vec<Vec<T>>,
    b: Vec<Vec<T>>,
    routine: Option<G>,
) -> (r: Result<Vec<Vec<T>>, MatrixError>)
    requires
        rectangular(rows_of(&a)),
        rectangular(rows_of(&b)),
        routine matches Some(g) ==> serves_every_call(g),
    ensures
        routine is None ==> r == Err::<Vec<Vec<T>>, MatrixError>(MatrixError::UnsupportedPlatform),
        routine matches Some(g) ==> match shape_fault(rows_of(&a), rows_of(&b)) {
            Some(violation) => r == Err::<Vec<Vec<T>>, MatrixError>(MatrixError::Shape(violation)),
            None => r matches Ok(c) && exists|call: GemmCall<T>, out: Vec<T>|
                #![trigger g.ensures((call,), out)]
                call.carries(rows_of(&a), rows_of(&b)) && g.ensures((call,), out) && rows_of(&c)
                    == from_column_major(out@, rows_of(&a).len(), width(rows_of(&b))),
        },
{
    match routine {
        None => Err(MatrixError::UnsupportedPlatform),
        Some(g) => {
            let call: GemmCall<T> = prepare_gemm(&a, &b)?;
            let rows: usize = call.rows;
            let cols: usize = call.cols;
            let ghost sent = call;
            let out: Vec<T> = g(call);
            let c: Vec<Vec<T>> = rows_from_column_major(&out, rows, cols);
            assert(g.ensures((sent,), out));
            Ok(c)
        },
    }
}

} // verus!
