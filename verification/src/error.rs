use vstd::prelude::*;

verus! {

/// The two ways in which a pair of operands can fail the shape check.
#[derive(Clone, Copy, Debug, PartialEq, Eq)]
pub enum ShapeViolation {
    /// An operand has no rows, or its first row has no entries.
    EmptyOperand,
    /// The left operand's column count differs from the right operand's row count.
    InnerDimensionMismatch,
}

/// Why a multiplication did not deliver a product. Every error is final for
/// the call: nothing is retried and no default result stands in for a failure.
#[derive(Debug, PartialEq, Eq)]
pub enum MatrixError {
    /// The operands cannot be multiplied; raised before any numeric work.
    Shape(ShapeViolation),
    /// The platform routine was asked for where the platform has none.
    UnsupportedPlatform,
    /// The worker that ran the kernel ended abnormally; the payload is the
    /// worker's own account of it, carried through unread.
    TaskFailure(String),
}

} // verus!
