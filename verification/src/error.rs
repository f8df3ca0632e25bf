use vstd::prelude::*;

verus! {

/// Typed, recoverable failures surfaced by `matmul`.
///
/// Each variant carries the offending sizes, so a caller can reconstruct the
/// mismatch without inspecting the operands again.
#[derive(Clone, Copy, Debug, PartialEq, Eq, Structural)]
pub enum MatmulError {
    /// An operand's rank is below 2, so it has no row and column axes.
    Shape { rank: usize },
    /// The inner dimensions disagree: the left operand's column count does
    /// not equal the right operand's row count.
    DimensionMismatch { lhs_cols: usize, rhs_rows: usize },
    /// The collapsed batch sizes disagree and neither side is 1; broadcasting
    /// across more than one non-unit batch configuration is unsupported.
    UnsupportedBroadcast { lhs_batch: usize, rhs_batch: usize },
}

} // verus!
