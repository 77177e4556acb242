//! Shape validation and layout conversion, shared by all strategies.
//!
//! The conversions only move entries: none of them looks at what an entry
//! holds.

use crate::error::{MatrixError, ShapeViolation};
use crate::matrix::{
    flat_row, lemma_place, nested, rectangular, row_major, rows_of, shape_fault, transposed, width,
};
use vstd::prelude::*;

verus! {

/// Checks that `a` and `b` can be multiplied and returns the dimension triple
/// `(n, k, m)`: rows of `a`, the shared inner dimension, columns of `b`.
pub fn dims_match<T>(a: &Vec<Vec<T>>, b: &Vec<Vec<T>>) -> (r: Result<
    (usize, usize, usize),
    MatrixError,
>)
    ensures
        r == match shape_fault(rows_of(a), rows_of(b)) {
            Some(violation) => Err::<(usize, usize, usize), MatrixError>(
                MatrixError::Shape(violation),
            ),
            None => Ok((a.len(), a[0].len(), b[0].len())),
        },
{
    if a.len() == 0 || b.len() == 0 || a[0].len() == 0 || b[0].len() == 0 {
        return Err(MatrixError::Shape(ShapeViolation::EmptyOperand));
    }
    let n: usize = a.len();
    let k1: usize = a[0].len();
    let k2: usize = b.len();
    let m: usize = b[0].len();
    if k1 != k2 {
        return Err(MatrixError::Shape(ShapeViolation::InnerDimensionMismatch));
    }
    Ok((n, k1, m))
}

/// Tells whether all rows of `a` have the same length.
pub fn is_rectangular<T>(a: &Vec<Vec<T>>) -> (r: bool)
    ensures
        r == rectangular(rows_of(a)),
{
    let mut i: usize = 0;
    while i < a.len()
        invariant
            i <= a.len(),
            forall|p: int| 0 <= p < i ==> (#[trigger] rows_of(a)[p]).len() == width(rows_of(a)),
        decreases a.len() - i,
    {
        if a[i].len() != a[0].len() {
            assert(rows_of(a)[i as int].len() != width(rows_of(a)));
            return false;
        }
        i += 1;
    }
    true
}

/// Writes the rows of `a` one after the other into one buffer and returns it
/// with the number of rows and the length of the first row.
pub fn flatten_row_major<T: Copy>(a: &Vec<Vec<T>>) -> (r: (usize, usize, Vec<T>))
    requires
        a.len() > 0,
    ensures
        r.0 == a.len(),
        r.1 == a[0].len(),
        r.2@ == row_major(rows_of(a)),
{
    let n: usize = a.len();
    let m: usize = a[0].len();
    let mut out: Vec<T> = Vec::new();
    let mut i: usize = 0;
    while i < n
        invariant
            n == a.len(),
            i <= n,
            out@ == row_major(rows_of(a).take(i as int)),
        decreases n - i,
    {
        let row: &Vec<T> = &a[i];
        let mut j: usize = 0;
        while j < row.len()
            invariant
                i < a.len(),
                row@ == rows_of(a)[i as int],
                j <= row.len(),
                out@ == row_major(rows_of(a).take(i as int)) + row@.take(j as int),
            decreases row.len() - j,
        {
            out.push(row[j]);
            assert(row@.take(j + 1) =~= row@.take(j as int).push(row@[j as int]));
            j += 1;
        }
        proof {
            let upto = rows_of(a).take(i + 1);
            assert(row@.take(row.len() as int) =~= row@);
            assert(upto.drop_last() =~= rows_of(a).take(i as int));
            assert(upto.last() == row@);
        }
        i += 1;
    }
    assert(rows_of(a).take(n as int) =~= rows_of(a));
    (n, m, out)
}

/// Transposes the `k` by `m` matrix that the row-major buffer `b_rm` holds:
/// the result is the row-major buffer of the `m` by `k` transpose.
pub fn transpose_row_major<T: Copy>(b_rm: &[T], k: usize, m: usize) -> (bt: Vec<T>)
    requires
        b_rm@.len() == k * m,
    ensures
        bt@ == transposed(b_rm@, k as nat, m as nat),
{
    let len: usize = b_rm.len();
    let mut bt: Vec<T> = Vec::new();
    let mut j: usize = 0;
    while j < m
        invariant
            b_rm@.len() == len,
            len == k * m,
            j <= m,
            bt@.len() == j * k,
            forall|at: int|
                0 <= at < bt@.len() ==> #[trigger] bt@[at] == b_rm@[(at % (k as int)) * m + at / (
                k as int)],
        decreases m - j,
    {
        let mut i: usize = 0;
        while i < k
            invariant
                b_rm@.len() == len,
                len == k * m,
                j < m,
                i <= k,
                bt@.len() == j * k + i,
                forall|at: int|
                    0 <= at < bt@.len() ==> #[trigger] bt@[at] == b_rm@[(at % (k as int)) * m + at
                        / (k as int)],
            decreases k - i,
        {
            proof {
                lemma_place(k as nat, m as nat, j as int, i as int);
                lemma_place(m as nat, k as nat, i as int, j as int);
            }
            bt.push(b_rm[i * m + j]);
            i += 1;
        }
        assert((j + 1) * k == j * k + k) by (nonlinear_arith);
        j += 1;
    }
    proof {
        assert(m * k == (k as nat) * (m as nat)) by (nonlinear_arith);
    }
    assert(bt@ =~= transposed(b_rm@, k as nat, m as nat));
    bt
}

/// Cuts the row-major buffer of an `n` by `m` matrix into its rows.
pub fn row_major_to_vec<T: Copy>(c_rm: Vec<T>, n: usize, m: usize) -> (out: Vec<Vec<T>>)
    requires
        c_rm.len() == n * m,
    ensures
        rows_of(&out) == nested(c_rm@, n as nat, m as nat),
{
    let mut out: Vec<Vec<T>> = Vec::new();
    let mut i: usize = 0;
    while i < n
        invariant
            c_rm.len() == n * m,
            i <= n,
            out@.len() == i,
            forall|p: int| 0 <= p < i ==> (#[trigger] out@[p])@ == flat_row(c_rm@, m as nat, p),
        decreases n - i,
    {
        let mut row: Vec<T> = Vec::new();
        let mut j: usize = 0;
        while j < m
            invariant
                c_rm.len() == n * m,
                i < n,
                j <= m,
                row@.len() == j,
                forall|q: int| 0 <= q < j ==> #[trigger] row@[q] == c_rm@[i * m + q],
            decreases m - j,
        {
            proof {
                lemma_place(m as nat, n as nat, i as int, j as int);
            }
            row.push(c_rm[i * m + j]);
            j += 1;
        }
        proof {
            assert(0 <= i * m && i * m + m <= n * m) by (nonlinear_arith)
                requires
                    0 <= i < n,
                    0 <= m,
            ;
            assert(row@ =~= flat_row(c_rm@, m as nat, i as int));
        }
        out.push(row);
        i += 1;
    }
    assert(rows_of(&out) =~= nested(c_rm@, n as nat, m as nat));
    out
}

} // verus!
