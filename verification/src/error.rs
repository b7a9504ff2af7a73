//! Failure conditions of the voxel-grid library.
//!
//! Every operation reports failure explicitly; none of these conditions is
//! retried internally, and bulk queries abort on the first failing row.

use vstd::prelude::*;

verus! {

/// Errors raised by grid construction, spatial queries and transform
/// operators.
#[derive(Clone, Copy, Debug, PartialEq, Eq, Structural)]
pub enum Error {
    /// Integrity: the index, count or payload columns do not all have the
    /// same number of rows.
    ColumnLengthMismatch,
    /// Integrity: the count column holds a negative value.
    NegativeCount,
    /// Integrity: the grid resolution is not a positive number.
    NonPositiveResolution,
    /// Integrity: the local frame identifier is empty.
    MalformedFrameId,
    /// Bounding-box filtering: the lower corner is not strictly below the
    /// upper corner on every axis.
    LowerCornerNotBelowUpperCorner,
    /// An extreme-index query was made on a grid with zero rows.
    EmptyGrid,
    /// Count filtering was requested on a grid without a count column.
    MissingCountColumn,
    /// Aggregation was requested on a grid that already holds a list-valued
    /// payload column; collecting lists would nest them.
    NestedListUnsupported,
    /// Explosion found two list-valued columns whose lists disagree in
    /// length on the same row.
    ListLengthMismatch,
}

} // verus!
