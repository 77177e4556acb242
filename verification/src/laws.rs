//! Laws of the layout conversions and of the products.
//!
//! Each law is stated over the functions of the model, which are the
//! functions that the contracts of the executable code speak of.

use crate::matrix::{
    column_major, from_column_major, is_matrix, lemma_place, lemma_place_parts,
    lemma_row_major_entry, lemma_row_major_len, nested, row_major, transposed, width,
};
use crate::product::lemma_flat_row_of_row_major;
use crate::scalar::Arithmetic;
use vstd::prelude::*;

verus! {

/// Cutting the row-major buffer of a matrix into rows gives the matrix back.
pub proof fn lemma_nested_of_row_major<T>(m: Seq<Seq<T>>, rows: nat, cols: nat)
    requires
        is_matrix(m, rows, cols),
    ensures
        nested(row_major(m), rows, cols) == m,
{
    assert forall|i: int| 0 <= i < rows implies #[trigger] nested(row_major(m), rows, cols)[i]
        == m[i] by {
        lemma_flat_row_of_row_major(m, rows, cols, i);
    }
    assert(nested(row_major(m), rows, cols) =~= m);
}

/// Writing the rows that a row-major buffer was cut into one after the other
/// gives the buffer back.
pub proof fn lemma_row_major_of_nested<T>(buffer: Seq<T>, rows: nat, cols: nat)
    requires
        buffer.len() == rows * cols,
    ensures
        is_matrix(nested(buffer, rows, cols), rows, cols),
        row_major(nested(buffer, rows, cols)) == buffer,
{
    let m = nested(buffer, rows, cols);
    assert forall|i: int| 0 <= i < rows implies (#[trigger] m[i]).len() == cols by {
        assert(0 <= i * cols && i * cols + cols <= rows * cols) by (nonlinear_arith)
            requires
                0 <= i < rows,
        ;
    }
    lemma_row_major_len(m, rows, cols);
    assert forall|at: int| 0 <= at < buffer.len() implies row_major(m)[at] == buffer[at] by {
        lemma_place_parts(cols, rows, at);
        let i = at / (cols as int);
        let j = at % (cols as int);
        lemma_row_major_entry(m, rows, cols, i, j);
        assert(0 <= i * cols && i * cols + cols <= rows * cols) by (nonlinear_arith)
            requires
                0 <= i < rows,
        ;
        assert(m[i][j] == buffer[i * cols + j]);
    }
    assert(row_major(m) =~= buffer);
}

/// Transposing twice gives the buffer back.
pub proof fn lemma_transposed_twice<T>(buffer: Seq<T>, rows: nat, cols: nat)
    requires
        buffer.len() == rows * cols,
    ensures
        transposed(transposed(buffer, rows, cols), cols, rows) == buffer,
{
    let once = transposed(buffer, rows, cols);
    let twice = transposed(once, cols, rows);
    assert(cols * rows == rows * cols) by (nonlinear_arith);
    assert forall|at: int| 0 <= at < buffer.len() implies twice[at] == buffer[at] by {
        lemma_place_parts(cols, rows, at);
        let i = at / (cols as int);
        let j = at % (cols as int);
        lemma_place(rows, cols, j, i);
    }
    assert(twice =~= buffer);
}

/// Entry `j * rows + i` of a transposed buffer is entry `i * cols + j` of the
/// buffer it was made from.
pub proof fn lemma_transposed_entry<T>(buffer: Seq<T>, rows: nat, cols: nat, i: int, j: int)
    requires
        buffer.len() == rows * cols,
        0 <= i < rows,
        0 <= j < cols,
    ensures
        0 <= j * rows + i < transposed(buffer, rows, cols).len(),
        0 <= i * cols + j < buffer.len(),
        transposed(buffer, rows, cols)[j * rows + i] == buffer[i * cols + j],
{
    lemma_place(rows, cols, j, i);
    lemma_place(cols, rows, i, j);
}

/// Reading the column-major buffer of a matrix back gives the matrix.
pub proof fn lemma_from_column_major_of_column_major<T>(m: Seq<Seq<T>>, rows: nat, cols: nat)
    requires
        is_matrix(m, rows, cols),
    ensures
        from_column_major(column_major(m, rows, cols), rows, cols) == m,
{
    let back = from_column_major(column_major(m, rows, cols), rows, cols);
    assert forall|i: int| 0 <= i < rows implies #[trigger] back[i] =~= m[i] by {
        assert forall|j: int| 0 <= j < cols implies back[i][j] == m[i][j] by {
            lemma_place(rows, cols, j, i);
        }
    }
    assert(back =~= m);
}

/// Laying out column by column what a column-major buffer holds gives the
/// buffer back.
pub proof fn lemma_column_major_of_from_column_major<T>(buffer: Seq<T>, rows: nat, cols: nat)
    requires
        buffer.len() == rows * cols,
    ensures
        is_matrix(from_column_major(buffer, rows, cols), rows, cols),
        column_major(from_column_major(buffer, rows, cols), rows, cols) == buffer,
{
    let m = from_column_major(buffer, rows, cols);
    assert forall|at: int| 0 <= at < buffer.len() implies column_major(m, rows, cols)[at]
        == buffer[at] by {
        assert(cols * rows == rows * cols) by (nonlinear_arith);
        lemma_place_parts(rows, cols, at);
    }
    assert(column_major(m, rows, cols) =~= buffer);
}

/// A routine that returns the product of its operands column-major gives,
/// read back into rows, that product: the delegating strategy then returns
/// what the reference strategy returns.
pub proof fn lemma_column_major_product_read_back<T>(
    ar: Arithmetic<T>,
    a: Seq<Seq<T>>,
    b: Seq<Seq<T>>,
    out: Seq<T>,
)
    requires
        out == column_major(ar.product(a, b), a.len(), width(b)),
    ensures
        from_column_major(out, a.len(), width(b)) == ar.product(a, b),
{
    lemma_from_column_major_of_column_major(ar.product(a, b), a.len(), width(b));
}

} // verus!
