//! The reference strategy: a triple loop that sums every entry strictly in
//! sequence.

use crate::error::MatrixError;
use crate::helpers::{dims_match, flatten_row_major, row_major_to_vec};
use crate::matrix::{
    flat_column, flat_row, is_matrix, lemma_place, lemma_row_major_len, rectangular, rows_of,
    shape_fault, width,
};
use crate::product::lemma_flat_product;
use crate::scalar::{Arithmetic, Scalar};
use vstd::prelude::*;

verus! {

/// The reference kernel on row-major buffers: `a_rm` holds an `n` by `k`
/// matrix, `b_rm` a `k` by `m` matrix, and the result holds their `n` by `m`
/// product. Entries are computed row by row and, within a row, column by
/// column; each entry starts from zero and takes its `k` products in
/// increasing order of the inner index.
pub fn matmul_naive<T: Scalar>(a_rm: &[T], b_rm: &[T], n: usize, k: usize, m: usize) -> (c: Vec<T>)
    requires
        a_rm@.len() == n * k,
        b_rm@.len() == k * m,
    ensures
        c@.len() == n * m,
        forall|ar: Arithmetic<T>| #[trigger]
            ar.describes_scalar() ==> c@ == ar.flat_product(
                a_rm@,
                b_rm@,
                n as nat,
                k as nat,
                m as nat,
            ),
{
    let a_len: usize = a_rm.len();
    let b_len: usize = b_rm.len();
    let mut c: Vec<T> = Vec::new();
    let mut i: usize = 0;
    while i < n
        invariant
            a_rm@.len() == a_len,
            b_rm@.len() == b_len,
            a_len == n * k,
            b_len == k * m,
            i <= n,
            c@.len() == i * m,
            forall|ar: Arithmetic<T>, at: int| #[trigger]
                ar.describes_scalar() && 0 <= at < c@.len() ==> #[trigger] c@[at]
                    == ar.dot_sequential(
                    flat_row(a_rm@, k as nat, at / (m as int)),
                    flat_column(b_rm@, k as nat, m as nat, at % (m as int)),
                ),
        decreases n - i,
    {
        let mut j: usize = 0;
        while j < m
            invariant
                a_rm@.len() == a_len,
                b_rm@.len() == b_len,
                a_len == n * k,
                b_len == k * m,
                i < n,
                j <= m,
                c@.len() == i * m + j,
                forall|ar: Arithmetic<T>, at: int| #[trigger]
                    ar.describes_scalar() && 0 <= at < c@.len() ==> #[trigger] c@[at]
                        == ar.dot_sequential(
                        flat_row(a_rm@, k as nat, at / (m as int)),
                        flat_column(b_rm@, k as nat, m as nat, at % (m as int)),
                    ),
            decreases m - j,
        {
            let ghost row = flat_row(a_rm@, k as nat, i as int);
            let ghost col = flat_column(b_rm@, k as nat, m as nat, j as int);
            proof {
                assert(0 <= i * k && i * k + k <= n * k) by (nonlinear_arith)
                    requires
                        0 <= i < n,
                        0 <= k,
                ;
            }
            let mut s: T = T::zero();
            let mut t: usize = 0;
            while t < k
                invariant
                    a_rm@.len() == a_len,
                    b_rm@.len() == b_len,
                    a_len == n * k,
                    b_len == k * m,
                    i < n,
                    j < m,
                    t <= k,
                    0 <= i * k && i * k + k <= n * k,
                    row == flat_row(a_rm@, k as nat, i as int),
                    col == flat_column(b_rm@, k as nat, m as nat, j as int),
                    forall|ar: Arithmetic<T>| #[trigger]
                        ar.describes_scalar() ==> s == ar.accumulate(
                            row,
                            col,
                            ar.zero,
                            0,
                            1,
                            t as nat,
                        ),
                decreases k - t,
            {
                proof {
                    lemma_place(k as nat, n as nat, i as int, t as int);
                    lemma_place(m as nat, k as nat, t as int, j as int);
                    assert(row[t as int] == a_rm@[i * k + t]);
                    assert(col[t as int] == b_rm@[t * m + j]);
                }
                s = s.plus(a_rm[i * k + t].times(b_rm[t * m + j]));
                t += 1;
            }
            proof {
                lemma_place(m as nat, n as nat, i as int, j as int);
            }
            c.push(s);
            j += 1;
        }
        assert((i + 1) * m == i * m + m) by (nonlinear_arith);
        i += 1;
    }
    proof {
        assert forall|ar: Arithmetic<T>| #[trigger] ar.describes_scalar() implies c@
            == ar.flat_product(a_rm@, b_rm@, n as nat, k as nat, m as nat) by {
            assert(c@ =~= ar.flat_product(a_rm@, b_rm@, n as nat, k as nat, m as nat));
        }
    }
    c
}

/// Multiplies `a` by `b` with the reference kernel.
///
/// The operands are validated first; then every entry of the product is the
/// dot product of a row of `a` and a column of `b`, summed strictly in
/// sequence from zero.
pub fn multiply_base<T: Scalar>(a: Vec<Vec<T>>, b: Vec<Vec<T>>) -> (r: Result<
    Vec<Vec<T>>,
    MatrixError,
>)
    requires
        rectangular(rows_of(&a)),
        rectangular(rows_of(&b)),
    ensures
        match shape_fault(rows_of(&a), rows_of(&b)) {
            Some(violation) => r == Err::<Vec<Vec<T>>, MatrixError>(MatrixError::Shape(violation)),
            None => r matches Ok(c) && is_matrix(
                rows_of(&c),
                rows_of(&a).len(),
                width(rows_of(&b)),
            ) && forall|ar: Arithmetic<T>| #[trigger]
                ar.describes_scalar() ==> rows_of(&c) == ar.product(rows_of(&a), rows_of(&b)),
        },
{
    let (n, k, m) = dims_match(&a, &b)?;
    proof {
        lemma_row_major_len(rows_of(&a), n as nat, k as nat);
        lemma_row_major_len(rows_of(&b), k as nat, m as nat);
    }
    let (_, _, a_rm) = flatten_row_major(&a);
    let (_, _, b_rm) = flatten_row_major(&b);
    let c: Vec<T> = matmul_naive(a_rm.as_slice(), b_rm.as_slice(), n, k, m);
    let ghost flat = c@;
    let out: Vec<Vec<T>> = row_major_to_vec(c, n, m);
    proof {
        assert forall|ar: Arithmetic<T>| #[trigger] ar.describes_scalar() implies rows_of(&out)
            == ar.product(rows_of(&a), rows_of(&b)) by {
            lemma_flat_product(ar, rows_of(&a), rows_of(&b), n as nat, k as nat, m as nat);
        }
        assert forall|i: int| 0 <= i < n implies (#[trigger] rows_of(&out)[i]).len() == m by {
            assert(0 <= i * m && i * m + m <= n * m) by (nonlinear_arith)
                requires
                    0 <= i < n,
                    0 <= m,
            ;
        }
    }
    Ok(out)
}

} // verus!
