//! Rectangular ranges of 0-based numeric cells.
use vstd::prelude::*;

use crate::cell_id::NumCellId;
use crate::range::A1Range;

verus! {

/// The 0-based cells from `start` to `end`, both included; `start` is left
/// of and above `end`, or on them.
#[derive(Debug, PartialEq, Eq, Clone, Copy, Structural)]
pub struct NumRange {
    pub start: NumCellId,
    pub end: NumCellId,
}

impl NumRange {
    /// The range from `start` to `end`.
    pub fn new(start: NumCellId, end: NumCellId) -> (r: NumRange)
        requires
            start.col <= end.col,
            start.row <= end.row,
        ensures
            r.start == start,
            r.end == end,
    {
        NumRange { start, end }
    }

    /// The 0-based form of an A1 range: `A1:B2` gives `(0, 0)..(1, 1)`.
    pub fn from(value: A1Range) -> (r: NumRange)
        requires
            value.start@.0 <= value.end@.0,
            value.start@.1 <= value.end@.1,
        ensures
            r.start.col == value.start@.0 - 1,
            r.start.row == value.start@.1 - 1,
            r.end.col == value.end@.0 - 1,
            r.end.row == value.end@.1 - 1,
    {
        let (_, _) = (value.start.column(), value.start.row());
        let (_, _) = (value.end.column(), value.end.row());
        NumRange::new(NumCellId::from(value.start), NumCellId::from(value.end))
    }
}

/// A numeric range of a sheet; no sheet means the default one.
#[derive(Debug, PartialEq, Eq, Clone)]
pub struct SheetRange {
    pub sheet: Option<String>,
    pub range: NumRange,
}

} // verus!
