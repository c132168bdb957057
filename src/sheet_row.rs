//! Converting one raw row (one value per column) to and from a typed
//! record, by fixed column positions.
use vstd::prelude::*;

use crate::sheet_cell::{SheetRawCell, SheetRawCellSerde};

verus! {

/// One value of a row as the spreadsheet service returns it.
#[derive(Debug, Clone, PartialEq)]
pub enum SheetValue {
    /// A text value.
    Text(String),
    /// A value of another kind (number, boolean, list, ...), as its JSON text.
    Other(String),
}

impl SheetValue {
    /// A copy of the value.
    pub fn duplicate(&self) -> (r: SheetValue)
        ensures
            r == *self,
    {
        match self {
            SheetValue::Text(t) => SheetValue::Text(t.clone()),
            SheetValue::Other(j) => SheetValue::Other(j.clone()),
        }
    }
}

/// The values of one row, one per column, leftmost first.
pub type SheetRow = Vec<SheetValue>;

/// A copy of a row.
pub fn copy_row(row: &SheetRow) -> (r: SheetRow)
    ensures
        r@ == row@,
{
    let mut out: SheetRow = Vec::new();
    let mut i: usize = 0;
    while i < row.len()
        invariant
            0 <= i <= row@.len(),
            out@ == row@.subrange(0, i as int),
        decreases row@.len() - i,
    {
        out.push(row[i].duplicate());
        i = i + 1;
        assert(out@ =~= row@.subrange(0, i as int));
    }
    assert(row@.subrange(0, row@.len() as int) =~= row@);
    out
}

/// Why a row does not decode into a record.
#[derive(Debug, Clone, PartialEq)]
pub enum ParseError {
    /// The row has no cell at the position of a required field.
    FieldIsMissing { column_name: &'static str, row: SheetRow },
    /// The cell of a field holds no text.
    JsonValueToStringError(SheetValue),
    /// Text could not be read as a structured value.
    JsonStringDeserializationError,
    /// The text of a field's cell does not stand for a value of the field's
    /// type.
    CellDeserializationError {
        column_name: &'static str,
        target_type: &'static str,
        input: String,
        row: SheetRow,
    },
    /// The row has fewer or more cells than the record can take.
    InvalidRowLength { min: usize, max: usize, actual: usize },
}

/// Reads the field `column_name` of type `T` from the cell at 0-based
/// position `cell_id` of `row`. A row too short to hold the cell gives the
/// type's absent value (`None` for an `Option` field), or a missing-field
/// error for a type without one.
pub fn parse_cell<T: SheetRawCellSerde>(row: &SheetRow, cell_id: usize, column_name: &'static str) -> (r:
    Result<T, ParseError>)
    ensures
        cell_id >= row@.len() ==> (T::absent_value() matches Some(v) ==> r == Ok::<
            T,
            ParseError,
        >(v)),
        cell_id >= row@.len() ==> (T::absent_value() is None ==> (r matches Err(
            ParseError::FieldIsMissing { column_name: n, row: rw },
        ) && n == column_name && rw@ == row@)),
        cell_id < row@.len() ==> match row@[cell_id as int] {
            SheetValue::Other(j) => r matches Err(ParseError::JsonValueToStringError(v)) && v
                == SheetValue::Other(j),
            SheetValue::Text(t) => (T::decodable(t@) ==> (r matches Ok(v) && T::decodes(t@, v)))
                && (!T::decodable(t@) ==> (r matches Err(
                ParseError::CellDeserializationError {
                    column_name: n,
                    target_type: tt,
                    input: i,
                    row: rw,
                },
            ) && n == column_name && tt@ == T::target_name() && i@ == t@ && rw@ == row@)),
        },
{
    if cell_id >= row.len() {
        return match T::when_absent() {
            Some(v) => Ok(v),
            None => Err(ParseError::FieldIsMissing { column_name, row: copy_row(row) }),
        };
    }
    match &row[cell_id] {
        SheetValue::Other(j) => Err(ParseError::JsonValueToStringError(SheetValue::Other(j.clone()))),
        SheetValue::Text(t) => {
            match T::deserialize(SheetRawCell(t.clone())) {
                Ok(v) => Ok(v),
                Err(_) => Err(
                    ParseError::CellDeserializationError {
                        column_name,
                        target_type: T::target_type(),
                        input: t.clone(),
                        row: copy_row(row),
                    },
                ),
            }
        },
    }
}

/// Reads the optional field of type `T` from the cell at 0-based position
/// `cell_id` of `row`: `None` when the row is too short, the cell holds no
/// text, or its text does not stand for a value of `T`.
pub fn parse_optional_cell<T: SheetRawCellSerde>(row: &SheetRow, cell_id: usize) -> (r: Option<T>)
    ensures
        cell_id >= row@.len() ==> r is None,
        cell_id < row@.len() ==> match row@[cell_id as int] {
            SheetValue::Other(_) => r is None,
            SheetValue::Text(t) => <Option<T> as SheetRawCellSerde>::decodes(t@, r),
        },
{
    if cell_id >= row.len() {
        return None;
    }
    match &row[cell_id] {
        SheetValue::Other(_) => None,
        SheetValue::Text(t) => {
            match <Option<T> as SheetRawCellSerde>::deserialize(SheetRawCell(t.clone())) {
                Ok(v) => v,
                Err(_) => None,
            }
        },
    }
}

/// A record type read from and written to one row, each field at a fixed
/// column position. The spec functions state what the codec does; an
/// implementation outside `verus!` defines them by the codec itself (for
/// instance `row_decodes(row, v)` as `Self::deserialize(row) == Ok(v)`).
pub trait SheetRowSerde: Sized {
    /// `row` decodes into some record.
    spec fn row_decodable(row: SheetRow) -> bool;

    /// `row` decodes into `v`.
    spec fn row_decodes(row: SheetRow, v: Self) -> bool;

    /// `v` encodes into some row.
    spec fn row_encodable(v: Self) -> bool;

    /// `v` encodes into `row`.
    spec fn row_encodes(v: Self, row: SheetRow) -> bool;

    /// Reads a record from a row.
    fn deserialize(row: SheetRow) -> (r: Result<Self, ParseError>)
        ensures
            r is Ok <==> Self::row_decodable(row),
            r matches Ok(v) ==> Self::row_decodes(row, v),
    ;

    /// Writes a record as a row, in the column order it is read in.
    fn serialize(&self) -> (r: Result<SheetRow, ParseError>)
        ensures
            r is Ok <==> Self::row_encodable(*self),
            r matches Ok(row) ==> Self::row_encodes(*self, row),
    ;
}

/// Every row decodes.
pub open spec fn all_decodable<T: SheetRowSerde>(rows: Seq<SheetRow>) -> bool {
    forall|i: int| 0 <= i < rows.len() ==> T::row_decodable(#[trigger] rows[i])
}

/// `out` holds, in order, the records of the rows at the increasing
/// positions `idx`, and those are exactly the rows that decode.
pub open spec fn keeps_decodable<T: SheetRowSerde>(
    rows: Seq<SheetRow>,
    idx: Seq<int>,
    out: Seq<T>,
) -> bool {
    &&& idx.len() == out.len()
    &&& forall|k: int| 0 <= k < idx.len() ==> 0 <= #[trigger] idx[k] < rows.len()
    &&& forall|k: int, l: int| 0 <= k < l < idx.len() ==> idx[k] < idx[l]
    &&& forall|k: int| 0 <= k < idx.len() ==> T::row_decodes(rows[idx[k]], #[trigger] out[k])
    &&& forall|i: int|
        0 <= i < rows.len() ==> (T::row_decodable(#[trigger] rows[i]) <==> exists|k: int|
            0 <= k < idx.len() && idx[k] == i)
}

/// Decodes every row; the first row that does not decode ends the work
/// with its error.
pub fn deserialize_rows<T: SheetRowSerde>(rows: Vec<SheetRow>) -> (r: Result<Vec<T>, ParseError>)
    ensures
        r is Ok <==> all_decodable::<T>(rows@),
        r matches Ok(v) ==> v@.len() == rows@.len() && forall|i: int|
            0 <= i < v@.len() ==> T::row_decodes(rows@[i], #[trigger] v@[i]),
{
    let ghost all = rows@;
    let n = rows.len();
    let mut rest = rows;
    let mut out: Vec<T> = Vec::new();
    let mut i: usize = 0;
    while i < n
        invariant
            n == all.len(),
            all == rows@,
            0 <= i <= n,
            rest@ == all.subrange(i as int, n as int),
            out@.len() == i,
            forall|j: int| 0 <= j < i ==> T::row_decodes(all[j], #[trigger] out@[j]),
            forall|j: int| 0 <= j < i ==> T::row_decodable(#[trigger] all[j]),
        decreases n - i,
    {
        let row = rest.remove(0);
        assert(row == all[i as int]);
        match T::deserialize(row) {
            Ok(v) => out.push(v),
            Err(e) => {
                assert(!T::row_decodable(all[i as int]));
                assert(!all_decodable::<T>(all));
                return Err(e);
            },
        }
        i = i + 1;
        assert(rest@ =~= all.subrange(i as int, n as int));
    }
    Ok(out)
}

/// Decodes the rows that decode, in order, and skips the others.
pub fn deserialize_rows_ignoring_errors<T: SheetRowSerde>(rows: Vec<SheetRow>) -> (r: Vec<T>)
    ensures
        exists|idx: Seq<int>| keeps_decodable::<T>(rows@, idx, r@),
{
    let ghost all = rows@;
    let n = rows.len();
    let mut rest = rows;
    let mut out: Vec<T> = Vec::new();
    let ghost mut idx: Seq<int> = Seq::empty();
    let mut i: usize = 0;
    while i < n
        invariant
            n == all.len(),
            all == rows@,
            0 <= i <= n,
            rest@ == all.subrange(i as int, n as int),
            idx.len() == out@.len(),
            forall|k: int| 0 <= k < idx.len() ==> 0 <= #[trigger] idx[k] < i,
            forall|k: int, l: int| 0 <= k < l < idx.len() ==> idx[k] < idx[l],
            forall|k: int| 0 <= k < idx.len() ==> T::row_decodes(all[idx[k]], #[trigger] out@[k]),
            forall|j: int|
                0 <= j < i ==> (T::row_decodable(#[trigger] all[j]) <==> exists|k: int|
                    0 <= k < idx.len() && idx[k] == j),
        decreases n - i,
    {
        let row = rest.remove(0);
        assert(row == all[i as int]);
        let ghost old_idx = idx;
        match T::deserialize(row) {
            Ok(v) => {
                out.push(v);
                proof {
                    idx = idx.push(i as int);
                    assert forall|j: int| 0 <= j <= i implies (T::row_decodable(
                        #[trigger] all[j],
                    ) <==> exists|k: int| 0 <= k < idx.len() && idx[k] == j) by {
                        if j < i {
                            if T::row_decodable(all[j]) {
                                let k = choose|k: int| 0 <= k < old_idx.len() && old_idx[k] == j;
                                assert(idx[k] == j);
                            }
                        } else {
                            assert(idx[idx.len() - 1] == j);
                        }
                    }
                }
            },
            Err(_) => {
                proof {
                    assert forall|j: int| 0 <= j <= i implies (T::row_decodable(
                        #[trigger] all[j],
                    ) <==> exists|k: int| 0 <= k < idx.len() && idx[k] == j) by {
                        if j == i {
                            if exists|k: int| 0 <= k < idx.len() && idx[k] == j {
                                let k = choose|k: int| 0 <= k < idx.len() && idx[k] == j;
                                assert(idx[k] < i);
                            }
                        }
                    }
                }
            },
        }
        i = i + 1;
        assert(rest@ =~= all.subrange(i as int, n as int));
    }
    assert(keeps_decodable::<T>(all, idx, out@));
    out
}

} // verus!
