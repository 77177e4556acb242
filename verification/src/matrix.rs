//! The mathematical model of matrices and of their flat layouts.
//!
//! A matrix is a sequence of rows. A flat buffer holds the entries of a
//! `rows` by `cols` matrix in one sequence: row-major with entry `(i, j)` at
//! `i * cols + j`, or column-major with entry `(i, j)` at `j * rows + i`.

use crate::error::ShapeViolation;
use vstd::prelude::*;

verus! {

/// The rows of a nested vector, each as a sequence.
pub open spec fn rows_of<T>(m: &Vec<Vec<T>>) -> Seq<Seq<T>> {
    Seq::new(m@.len(), |i: int| m@[i]@)
}

/// The number of entries in the first row; zero where there is no row.
pub open spec fn width<T>(m: Seq<Seq<T>>) -> nat {
    if m.len() == 0 {
        0
    } else {
        m[0].len()
    }
}

/// All rows have the same number of entries.
pub open spec fn rectangular<T>(m: Seq<Seq<T>>) -> bool {
    forall|i: int| 0 <= i < m.len() ==> (#[trigger] m[i]).len() == width(m)
}

/// `m` has `rows` rows of `cols` entries each.
pub open spec fn is_matrix<T>(m: Seq<Seq<T>>, rows: nat, cols: nat) -> bool {
    &&& m.len() == rows
    &&& forall|i: int| 0 <= i < rows ==> (#[trigger] m[i]).len() == cols
}

/// What stands in the way of multiplying `a` by `b`, if anything does. Only
/// the first row of each operand is looked at; emptiness is reported before a
/// disagreement of the inner dimensions.
pub open spec fn shape_fault<T>(a: Seq<Seq<T>>, b: Seq<Seq<T>>) -> Option<ShapeViolation> {
    if a.len() == 0 || b.len() == 0 || a[0].len() == 0 || b[0].len() == 0 {
        Some(ShapeViolation::EmptyOperand)
    } else if a[0].len() != b.len() {
        Some(ShapeViolation::InnerDimensionMismatch)
    } else {
        None
    }
}

/// Column `j` of `m`, top to bottom.
pub open spec fn column<T>(m: Seq<Seq<T>>, j: int) -> Seq<T> {
    Seq::new(m.len(), |t: int| m[t][j])
}

/// The rows of `m` one after the other.
pub open spec fn row_major<T>(m: Seq<Seq<T>>) -> Seq<T>
    decreases m.len(),
{
    if m.len() == 0 {
        Seq::empty()
    } else {
        row_major(m.drop_last()) + m.last()
    }
}

/// Row `i` of the matrix with `cols` columns that a row-major buffer holds.
pub open spec fn flat_row<T>(buffer: Seq<T>, cols: nat, i: int) -> Seq<T> {
    buffer.subrange(i * cols, i * cols + cols)
}

/// Column `j` of the `rows` by `cols` matrix that a row-major buffer holds.
pub open spec fn flat_column<T>(buffer: Seq<T>, rows: nat, cols: nat, j: int) -> Seq<T> {
    Seq::new(rows, |t: int| buffer[t * cols + j])
}

/// The `rows` by `cols` matrix that a row-major buffer holds.
pub open spec fn nested<T>(buffer: Seq<T>, rows: nat, cols: nat) -> Seq<Seq<T>> {
    Seq::new(rows, |i: int| flat_row(buffer, cols, i))
}

/// The row-major buffer of the transpose of the `rows` by `cols` matrix that
/// the row-major `buffer` holds: entry `j * rows + i` of the result is entry
/// `i * cols + j` of `buffer`.
pub open spec fn transposed<T>(buffer: Seq<T>, rows: nat, cols: nat) -> Seq<T> {
    Seq::new(rows * cols, |at: int| buffer[(at % (rows as int)) * cols + at / (rows as int)])
}

/// The column-major buffer of a `rows` by `cols` matrix: entry `(i, j)`
/// stands at `j * rows + i`.
pub open spec fn column_major<T>(m: Seq<Seq<T>>, rows: nat, cols: nat) -> Seq<T> {
    Seq::new(rows * cols, |at: int| m[at % (rows as int)][at / (rows as int)])
}

/// The `rows` by `cols` matrix that a column-major buffer holds.
pub open spec fn from_column_major<T>(buffer: Seq<T>, rows: nat, cols: nat) -> Seq<Seq<T>> {
    Seq::new(rows, |i: int| Seq::new(cols, |j: int| buffer[j * rows + i]))
}

/// A buffer of `count` runs of `len` entries each holds entry `minor` of run
/// `major` at `major * len + minor`: the place is inside the buffer, and
/// division by `len` gives the two parts back.
pub proof fn lemma_place(len: nat, count: nat, major: int, minor: int)
    requires
        0 <= major < count,
        0 <= minor < len,
    ensures
        0 <= major * len + minor < count * len,
        count * len == len * count,
        (major * len + minor) % (len as int) == minor,
        (major * len + minor) / (len as int) == major,
{
    let l = len as int;
    let c = count as int;
    assert(0 <= major * l + minor < c * l && c * l == l * c) by (nonlinear_arith)
        requires
            0 <= minor < l,
            0 <= major < c,
    ;
    vstd::arithmetic::div_mod::lemma_fundamental_div_mod_converse(
        major * l + minor,
        l,
        major,
        minor,
    );
}

/// Every place in a buffer of `count` runs of `len` entries each is entry
/// `at % len` of run `at / len`.
pub proof fn lemma_place_parts(len: nat, count: nat, at: int)
    requires
        0 <= at < count * len,
    ensures
        0 <= at % (len as int) < len,
        0 <= at / (len as int) < count,
        (at / (len as int)) * len + at % (len as int) == at,
{
    let l = len as int;
    assert(l > 0) by (nonlinear_arith)
        requires
            0 <= at < (count as int) * l,
            l >= 0,
    ;
    vstd::arithmetic::div_mod::lemma_fundamental_div_mod(at, l);
    vstd::arithmetic::div_mod::lemma_mod_bound(at, l);
    let q = at / l;
    let m = at % l;
    assert(0 <= q < count && q * l == l * q) by (nonlinear_arith)
        requires
            at == l * q + m,
            0 <= m < l,
            0 <= at < (count as int) * l,
    ;
}

/// The row-major buffer of a `rows` by `cols` matrix has `rows * cols`
/// entries.
pub proof fn lemma_row_major_len<T>(m: Seq<Seq<T>>, rows: nat, cols: nat)
    requires
        is_matrix(m, rows, cols),
    ensures
        row_major(m).len() == rows * cols,
    decreases rows,
{
    if rows == 0 {
        assert(rows * cols == 0) by (nonlinear_arith)
            requires
                rows == 0,
        ;
    } else {
        let init = m.drop_last();
        assert forall|i: int| 0 <= i < rows - 1 implies (#[trigger] init[i]).len() == cols by {
            assert(init[i] == m[i]);
        }
        lemma_row_major_len(init, (rows - 1) as nat, cols);
        assert((rows - 1) * cols + cols == rows * cols) by (nonlinear_arith);
    }
}

/// Entry `(i, j)` of a `rows` by `cols` matrix stands at `i * cols + j` of
/// its row-major buffer.
pub proof fn lemma_row_major_entry<T>(m: Seq<Seq<T>>, rows: nat, cols: nat, i: int, j: int)
    requires
        is_matrix(m, rows, cols),
        0 <= i < rows,
        0 <= j < cols,
    ensures
        0 <= i * cols + j < row_major(m).len(),
        row_major(m)[i * cols + j] == m[i][j],
    decreases rows,
{
    let init = m.drop_last();
    assert forall|p: int| 0 <= p < rows - 1 implies (#[trigger] init[p]).len() == cols by {
        assert(init[p] == m[p]);
    }
    lemma_row_major_len(init, (rows - 1) as nat, cols);
    lemma_row_major_len(m, rows, cols);
    lemma_place(cols, rows, i, j);
    if i < rows - 1 {
        lemma_row_major_entry(init, (rows - 1) as nat, cols, i, j);
        assert(init[i] == m[i]);
    } else {
        assert((rows - 1) * cols + j - (rows - 1) * cols == j);
    }
}

} // verus!
