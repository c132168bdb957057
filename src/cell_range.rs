//! Rectangular ranges of plain numeric cells.
use vstd::prelude::*;

use crate::cell_id::CellId;

verus! {

/// The cells from `start` to `end`, both included; `start` is left of and
/// above `end`, or on them.
#[derive(Debug, PartialEq, Eq, Clone, Copy, Structural)]
pub struct CellRange {
    pub start: CellId,
    pub end: CellId,
}

impl CellRange {
    /// The range from `start` to `end`.
    pub fn new(start: CellId, end: CellId) -> (r: CellRange)
        requires
            start.col <= end.col,
            start.row <= end.row,
        ensures
            r.start == start,
            r.end == end,
    {
        CellRange { start, end }
    }
}

/// A numeric range of a sheet; no sheet means the default one.
#[derive(Debug, PartialEq, Eq, Clone)]
pub struct SheetRange {
    pub sheet: Option<String>,
    pub range: CellRange,
}

} // verus!
