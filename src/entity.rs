//! Records bound to the position they were read from.
use vstd::prelude::*;

use crate::cell_id::SheetA1CellId;
use crate::sheet_row::SheetRowSerde;

verus! {

/// A record type that occupies a fixed number of adjacent columns.
pub trait EntityEssentials: SheetRowSerde {
    /// The number of columns a record occupies.
    spec fn width() -> u32;

    /// The number of columns a record occupies.
    fn entity_width() -> (r: u32)
        ensures
            r == Self::width(),
    ;
}

/// A record together with the sheet cell where its row starts.
#[derive(Debug, Clone, PartialEq)]
pub struct Entity<E> {
    pub position: SheetA1CellId,
    pub data: E,
}

impl<E> Entity<E> {
    /// The record.
    pub fn data(&self) -> (r: &E)
        ensures
            *r == self.data,
    {
        &self.data
    }

    /// The record, for changing it in place; the position stays.
    pub fn data_mut(&mut self) -> (r: &mut E)
        ensures
            *r == old(self).data,
            final(self).data == *final(r),
            final(self).position == old(self).position,
    {
        &mut self.data
    }

    /// Where the record's row starts.
    pub fn position(&self) -> (r: &SheetA1CellId)
        ensures
            *r == self.position,
    {
        &self.position
    }
}

} // verus!
