//! Multiplication by dot products that are summed in four lanes.

use crate::error::MatrixError;
use crate::helpers::{dims_match, flatten_row_major, row_major_to_vec, transpose_row_major};
use crate::matrix::{
    flat_row, is_matrix, lemma_place, lemma_row_major_len, rectangular, rows_of, shape_fault, width,
};
use crate::product::lemma_flat_row_products;
use crate::scalar::{Arithmetic, Scalar};
use vstd::prelude::*;

verus! {

/// The dot product of two rows of equal length, summed in four lanes.
///
/// The head of the rows, of length `4 * (len / 4)`, is taken in groups of
/// four; each group adds one product to each of four lane accumulators. After
/// the last group the accumulators are added up left to right, and the
/// `len % 4` products of the tail are added to that sum one by one.
pub fn dot_wide<T: Scalar>(a: &[T], b: &[T]) -> (r: T)
    requires
        a@.len() == b@.len(),
    ensures
        forall|ar: Arithmetic<T>| #[trigger] ar.describes_scalar() ==> r == ar.dot_lanes(a@, b@),
{
    let len: usize = a.len();
    let groups: usize = len / 4;
    let head_len: usize = len - (len % 4);
    let z: T = T::zero();
    let mut acc: [T; 4] = [z, z, z, z];
    let mut g: usize = 0;
    while g < groups
        invariant
            a@.len() == len,
            b@.len() == len,
            groups == len / 4,
            g <= groups,
            forall|ar: Arithmetic<T>, lane: int| #[trigger]
                ar.describes_scalar() && 0 <= lane < 4 ==> #[trigger] acc[lane] == ar.accumulate(
                    a@,
                    b@,
                    ar.zero,
                    lane,
                    4,
                    g as nat,
                ),
        decreases groups - g,
    {
        let at: usize = 4 * g;
        let x: [T; 4] = [a[at], a[at + 1], a[at + 2], a[at + 3]];
        let y: [T; 4] = [b[at], b[at + 1], b[at + 2], b[at + 3]];
        acc = T::fused_lanes(acc, x, y);
        g += 1;
    }
    let mut sum: T = acc[0].plus(acc[1]).plus(acc[2]).plus(acc[3]);
    let mut t: usize = head_len;
    while t < len
        invariant
            a@.len() == len,
            b@.len() == len,
            head_len == 4 * (len / 4),
            head_len <= t <= len,
            forall|ar: Arithmetic<T>| #[trigger]
                ar.describes_scalar() ==> sum == ar.accumulate(
                    a@,
                    b@,
                    ar.horizontal_sum(a@, b@),
                    head_len as int,
                    1,
                    (t - head_len) as nat,
                ),
        decreases len - t,
    {
        sum = sum.plus(a[t].times(b[t]));
        t += 1;
    }
    sum
}

/// The four-lane kernel on row-major buffers: `a_rm` holds an `n` by `k`
/// matrix and `bt_rm` an `m` by `k` matrix, the transpose of the right
/// operand. Entry `(i, j)` of the `n` by `m` result is the four-lane dot
/// product of row `i` of `a_rm` and row `j` of `bt_rm`.
pub fn matmul_simd_row_row<T: Scalar>(
    a_rm: &[T],
    bt_rm: &[T],
    n: usize,
    k: usize,
    m: usize,
) -> (c: Vec<T>)
    requires
        a_rm@.len() == n * k,
        bt_rm@.len() == m * k,
    ensures
        c@.len() == n * m,
        forall|ar: Arithmetic<T>| #[trigger]
            ar.describes_scalar() ==> c@ == ar.flat_row_products(
                a_rm@,
                bt_rm@,
                n as nat,
                k as nat,
                m as nat,
            ),
{
    let a_len: usize = a_rm.len();
    let bt_len: usize = bt_rm.len();
    let mut c: Vec<T> = Vec::new();
    let mut i: usize = 0;
    while i < n
        invariant
            a_rm@.len() == a_len,
            bt_rm@.len() == bt_len,
            a_len == n * k,
            bt_len == m * k,
            i <= n,
            c@.len() == i * m,
            forall|ar: Arithmetic<T>, at: int| #[trigger]
                ar.describes_scalar() && 0 <= at < c@.len() ==> #[trigger] c@[at] == ar.dot_lanes(
                    flat_row(a_rm@, k as nat, at / (m as int)),
                    flat_row(bt_rm@, k as nat, at % (m as int)),
                ),
        decreases n - i,
    {
        proof {
            assert(0 <= i * k && i * k + k <= n * k && (i + 1) * k == i * k + k)
                by (nonlinear_arith)
                requires
                    0 <= i < n,
                    0 <= k,
            ;
        }
        let arow: &[T] = &a_rm[i * k..(i + 1) * k];
        let mut j: usize = 0;
        while j < m
            invariant
                a_rm@.len() == a_len,
                bt_rm@.len() == bt_len,
                a_len == n * k,
                bt_len == m * k,
                i < n,
                j <= m,
                arow@ == flat_row(a_rm@, k as nat, i as int),
                arow@.len() == k,
                c@.len() == i * m + j,
                forall|ar: Arithmetic<T>, at: int| #[trigger]
                    ar.describes_scalar() && 0 <= at < c@.len() ==> #[trigger] c@[at]
                        == ar.dot_lanes(
                        flat_row(a_rm@, k as nat, at / (m as int)),
                        flat_row(bt_rm@, k as nat, at % (m as int)),
                    ),
            decreases m - j,
        {
            proof {
                assert(0 <= j * k && j * k + k <= m * k && (j + 1) * k == j * k + k)
                    by (nonlinear_arith)
                    requires
                        0 <= j < m,
                        0 <= k,
                ;
                lemma_place(m as nat, n as nat, i as int, j as int);
            }
            let btrow: &[T] = &bt_rm[j * k..(j + 1) * k];
            let d: T = dot_wide(arow, btrow);
            c.push(d);
            j += 1;
        }
        assert((i + 1) * m == i * m + m) by (nonlinear_arith);
        i += 1;
    }
    proof {
        assert forall|ar: Arithmetic<T>| #[trigger] ar.describes_scalar() implies c@
            == ar.flat_row_products(a_rm@, bt_rm@, n as nat, k as nat, m as nat) by {
            assert(c@ =~= ar.flat_row_products(a_rm@, bt_rm@, n as nat, k as nat, m as nat));
        }
    }
    c
}

/// Multiplies `a` by `b` with the four-lane kernel.
///
/// The operands are validated first. The right operand is then transposed,
/// so that a column of `b` lies as contiguously as a row of `a`, and every
/// entry of the product is the four-lane dot product of a row of `a` and a
/// column of `b`.
pub fn multiply_simd<T: Scalar>(a: Vec<Vec<T>>, b: Vec<Vec<T>>) -> (r: Result<
    Vec<Vec<T>>,
    MatrixError,
>)
    requires
        rectangular(rows_of(&a)),
        rectangular(rows_of(&b)),
    ensures
        match shape_fault(rows_of(&a), rows_of(&b)) {
            Some(violation) => r == Err::<Vec<Vec<T>>, MatrixError>(MatrixError::Shape(violation)),
            None => r matches Ok(c) && is_matrix(
                rows_of(&c),
                rows_of(&a).len(),
                width(rows_of(&b)),
            ) && forall|ar: Arithmetic<T>| #[trigger]
                ar.describes_scalar() ==> rows_of(&c) == ar.product_lanes(
                    rows_of(&a),
                    rows_of(&b),
                ),
        },
{
    let (n, k, m) = dims_match(&a, &b)?;
    proof {
        lemma_row_major_len(rows_of(&a), n as nat, k as nat);
        lemma_row_major_len(rows_of(&b), k as nat, m as nat);
        assert(m * k == k * m) by (nonlinear_arith);
    }
    let (_, _, a_rm) = flatten_row_major(&a);
    let (_, _, b_rm) = flatten_row_major(&b);
    let bt_rm: Vec<T> = transpose_row_major(b_rm.as_slice(), k, m);
    let c_rm: Vec<T> = matmul_simd_row_row(a_rm.as_slice(), bt_rm.as_slice(), n, k, m);
    let out: Vec<Vec<T>> = row_major_to_vec(c_rm, n, m);
    proof {
        assert forall|ar: Arithmetic<T>| #[trigger] ar.describes_scalar() implies rows_of(&out)
            == ar.product_lanes(rows_of(&a), rows_of(&b)) by {
            lemma_flat_row_products(ar, rows_of(&a), rows_of(&b), n as nat, k as nat, m as nat);
        }
        assert forall|i: int| 0 <= i < n implies (#[trigger] rows_of(&out)[i]).len() == m by {
            assert(0 <= i * m && i * m + m <= n * m) by (nonlinear_arith)
                requires
                    0 <= i < n,
                    0 <= m,
            ;
        }
    }
    Ok(out)
}

} // verus!
