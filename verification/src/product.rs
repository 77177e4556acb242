//! The product of two matrices under a model of the entries' arithmetic, and
//! how the products of flat buffers relate to it.

use crate::matrix::{
    column, flat_column, flat_row, is_matrix, lemma_place, lemma_row_major_entry,
    lemma_row_major_len, nested, row_major, transposed, width,
};
use crate::scalar::Arithmetic;
use vstd::prelude::*;

verus! {

impl<T> Arithmetic<T> {
    /// The product of `a` and `b` with every entry summed strictly in
    /// sequence: entry `(i, j)` is the sequential dot product of row `i` of
    /// `a` and column `j` of `b`.
    pub open spec fn product(self, a: Seq<Seq<T>>, b: Seq<Seq<T>>) -> Seq<Seq<T>> {
        Seq::new(
            a.len(),
            |i: int| Seq::new(width(b), |j: int| self.dot_sequential(a[i], column(b, j))),
        )
    }

    /// The product of `a` and `b` with every entry summed in four lanes.
    pub open spec fn product_lanes(self, a: Seq<Seq<T>>, b: Seq<Seq<T>>) -> Seq<Seq<T>> {
        Seq::new(
            a.len(),
            |i: int| Seq::new(width(b), |j: int| self.dot_lanes(a[i], column(b, j))),
        )
    }

    /// The row-major buffer of the sequentially summed product of the `n` by
    /// `k` and `k` by `m` matrices that the row-major buffers `a` and `b`
    /// hold.
    pub open spec fn flat_product(self, a: Seq<T>, b: Seq<T>, n: nat, k: nat, m: nat) -> Seq<T> {
        Seq::new(
            n * m,
            |at: int|
                self.dot_sequential(
                    flat_row(a, k, at / (m as int)),
                    flat_column(b, k, m, at % (m as int)),
                ),
        )
    }

    /// The row-major buffer of the `n` by `m` matrix whose entry `(i, j)` is
    /// the four-lane dot product of row `i` of the `n` by `k` matrix in `a`
    /// and row `j` of the `m` by `k` matrix in `bt`.
    pub open spec fn flat_row_products(self, a: Seq<T>, bt: Seq<T>, n: nat, k: nat, m: nat) -> Seq<
        T,
    > {
        Seq::new(
            n * m,
            |at: int|
                self.dot_lanes(flat_row(a, k, at / (m as int)), flat_row(bt, k, at % (m as int))),
        )
    }
}

/// Row `i` of the matrix that the row-major buffer of `m` holds is row `i` of
/// `m`.
pub proof fn lemma_flat_row_of_row_major<T>(m: Seq<Seq<T>>, rows: nat, cols: nat, i: int)
    requires
        is_matrix(m, rows, cols),
        0 <= i < rows,
    ensures
        flat_row(row_major(m), cols, i) == m[i],
{
    lemma_row_major_len(m, rows, cols);
    assert(0 <= i * cols && i * cols + cols <= rows * cols) by (nonlinear_arith)
        requires
            0 <= i < rows,
    ;
    assert forall|j: int| 0 <= j < cols implies flat_row(row_major(m), cols, i)[j] == m[i][j] by {
        lemma_row_major_entry(m, rows, cols, i, j);
    }
    assert(flat_row(row_major(m), cols, i) =~= m[i]);
}

/// Column `j` of the matrix that the row-major buffer of `m` holds is column
/// `j` of `m`.
pub proof fn lemma_flat_column_of_row_major<T>(m: Seq<Seq<T>>, rows: nat, cols: nat, j: int)
    requires
        is_matrix(m, rows, cols),
        0 <= j < cols,
    ensures
        flat_column(row_major(m), rows, cols, j) == column(m, j),
{
    assert forall|t: int| 0 <= t < rows implies flat_column(row_major(m), rows, cols, j)[t]
        == column(m, j)[t] by {
        lemma_row_major_entry(m, rows, cols, t, j);
    }
    assert(flat_column(row_major(m), rows, cols, j) =~= column(m, j));
}

/// Row `j` of a transposed buffer is column `j` of the buffer it was made
/// from.
pub proof fn lemma_flat_row_of_transposed<T>(buffer: Seq<T>, rows: nat, cols: nat, j: int)
    requires
        buffer.len() == rows * cols,
        0 <= j < cols,
    ensures
        flat_row(transposed(buffer, rows, cols), rows, j) == flat_column(buffer, rows, cols, j),
{
    assert(0 <= j * rows && j * rows + rows <= rows * cols) by (nonlinear_arith)
        requires
            0 <= j < cols,
    ;
    assert forall|t: int| 0 <= t < rows implies flat_row(transposed(buffer, rows, cols), rows, j)[t]
        == flat_column(buffer, rows, cols, j)[t] by {
        lemma_place(rows, cols, j, t);
    }
    assert(flat_row(transposed(buffer, rows, cols), rows, j) =~= flat_column(
        buffer,
        rows,
        cols,
        j,
    ));
}

/// Cut into rows, the flat product of the row-major buffers of `a` and `b`
/// is the product of `a` and `b`.
pub proof fn lemma_flat_product<T>(
    ar: Arithmetic<T>,
    a: Seq<Seq<T>>,
    b: Seq<Seq<T>>,
    n: nat,
    k: nat,
    m: nat,
)
    requires
        is_matrix(a, n, k),
        is_matrix(b, k, m),
        k >= 1,
    ensures
        nested(ar.flat_product(row_major(a), row_major(b), n, k, m), n, m) == ar.product(a, b),
{
    let flat = ar.flat_product(row_major(a), row_major(b), n, k, m);
    assert forall|i: int| 0 <= i < n implies #[trigger] nested(flat, n, m)[i] =~= ar.product(
        a,
        b,
    )[i] by {
        assert(0 <= i * m && i * m + m <= n * m) by (nonlinear_arith)
            requires
                0 <= i < n,
        ;
        lemma_flat_row_of_row_major(a, n, k, i);
        assert forall|j: int| 0 <= j < m implies nested(flat, n, m)[i][j] == ar.product(
            a,
            b,
        )[i][j] by {
            lemma_place(m, n, i, j);
            lemma_flat_column_of_row_major(b, k, m, j);
        }
    }
    assert(nested(flat, n, m) =~= ar.product(a, b));
}

/// Cut into rows, the row products of the row-major buffer of `a` and of the
/// transposed row-major buffer of `b` are the four-lane product of `a` and
/// `b`.
pub proof fn lemma_flat_row_products<T>(
    ar: Arithmetic<T>,
    a: Seq<Seq<T>>,
    b: Seq<Seq<T>>,
    n: nat,
    k: nat,
    m: nat,
)
    requires
        is_matrix(a, n, k),
        is_matrix(b, k, m),
        k >= 1,
    ensures
        nested(
            ar.flat_row_products(row_major(a), transposed(row_major(b), k, m), n, k, m),
            n,
            m,
        ) == ar.product_lanes(a, b),
{
    let bt = transposed(row_major(b), k, m);
    let flat = ar.flat_row_products(row_major(a), bt, n, k, m);
    lemma_row_major_len(b, k, m);
    assert forall|i: int| 0 <= i < n implies #[trigger] nested(flat, n, m)[i] =~= ar.product_lanes(
        a,
        b,
    )[i] by {
        assert(0 <= i * m && i * m + m <= n * m) by (nonlinear_arith)
            requires
                0 <= i < n,
        ;
        lemma_flat_row_of_row_major(a, n, k, i);
        assert forall|j: int| 0 <= j < m implies nested(flat, n, m)[i][j] == ar.product_lanes(
            a,
            b,
        )[i][j] by {
            lemma_place(m, n, i, j);
            lemma_flat_row_of_transposed(row_major(b), k, m, j);
            lemma_flat_column_of_row_major(b, k, m, j);
        }
    }
    assert(nested(flat, n, m) =~= ar.product_lanes(a, b));
}

} // verus!
