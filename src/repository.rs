//! The pure part of the positional repository: which ranges to ask the
//! spreadsheet service for, and how its answers become entities.
use vstd::prelude::*;

use crate::cell_id::{A1CellId, SheetA1CellId};
use crate::entity::{Entity, EntityEssentials};
use crate::letters::Letters;
use crate::range::{is_sheet_range_text, range_value, A1Range, SheetA1Range};
use crate::sheet_row::{all_decodable, SheetRow, SheetRowSerde};
use crate::text::{after_sole, before_sole, trim_quotes};

verus! {

/// A filter of a read request, with the A1 range it resolved to.
#[derive(Debug, Clone)]
pub struct DataFilter {
    pub a1_range: Option<String>,
}

/// The rows of a read, each a row of values.
#[derive(Debug, Clone)]
pub struct ValueRange {
    pub values: Option<Vec<SheetRow>>,
}

/// The answer to a read: the filters as resolved by the service, and the
/// rows found.
#[derive(Debug, Clone)]
pub struct MatchedValueRange {
    pub data_filters: Option<Vec<DataFilter>>,
    pub value_range: Option<ValueRange>,
}

/// What an append changed.
#[derive(Debug, Clone)]
pub struct UpdateValuesResponse {
    pub updated_range: Option<String>,
}

/// The answer to an append.
#[derive(Debug, Clone)]
pub struct AppendValuesResponse {
    pub updates: Option<UpdateValuesResponse>,
}

/// Why a repository operation failed.
#[derive(Debug, Clone)]
pub enum RepositoryError {
    /// The spreadsheet service failed.
    DriverError,
    /// An argument or an answer of the service is not usable.
    InvalidArgument(String),
    /// A row or an address did not decode, or a record did not encode.
    ParsingError,
    /// The service broke its contract: its answer lacks a part it must have.
    UnexpectedResponse { what: &'static str, input: String, response: AppendValuesResponse },
    /// The operation is not supported.
    Unsupported(&'static str),
}

/// The A1 text of the one filter of a read answer; `None` unless there is
/// exactly one filter and it has a range.
pub open spec fn sole_filter_text(m: MatchedValueRange) -> Option<Seq<char>> {
    match m.data_filters {
        Some(f) => if f@.len() == 1 {
            match f@[0].a1_range {
                Some(t) => Some(t@),
                None => None,
            }
        } else {
            None
        },
        None => None,
    }
}

/// The sheet and the first cell that a read answer is anchored at.
pub open spec fn anchor_of(t: Seq<char>) -> (Seq<char>, (nat, nat)) {
    (trim_quotes(before_sole(t, '!')), range_value(after_sole(t, '!')).0)
}

/// The rows of a read answer, when it has a value range.
pub open spec fn answer_rows(m: MatchedValueRange) -> Option<Seq<SheetRow>> {
    match m.value_range {
        Some(vr) => Some(
            match vr.values {
                Some(v) => v@,
                None => Seq::empty(),
            },
        ),
        None => None,
    }
}

/// The range of `rows` rows of a record `width` columns wide whose first row
/// starts at `start`: `users!A1` with 3 rows of width 2 gives `users!A1:B3`.
pub fn convert_into_range(start: &SheetA1CellId, rows: u32, width: u32) -> (r: Result<
    SheetA1Range,
    RepositoryError,
>)
    ensures
        r is Ok <==> fits_rows(start, rows, width),
        r matches Ok(sr) ==> sr.sheet@ == start.sheet_name@ && sr.range.start == start.cell
            && sr.range.end@ == ((start.cell@.0 + width - 1) as nat, (start.cell@.1 + rows
            - 1) as nat),
        r is Err ==> r matches Err(RepositoryError::InvalidArgument(_)),
{
    let col = start.cell.column() as u64;
    let row = start.cell.row() as u64;
    if rows == 0 || width == 0 {
        return Err(RepositoryError::InvalidArgument("rows and width must be at least 1".to_owned()));
    }
    if col + width as u64 - 1 > 0xffff_ffffu64 || row + rows as u64 - 1 > 0xffff_ffffu64 {
        return Err(RepositoryError::InvalidArgument("range lies beyond the last cell".to_owned()));
    }
    let end = A1CellId::new(Letters::from_rank((col + width as u64 - 1) as u32), (row + rows as u64 - 1) as u32);
    Ok(SheetA1Range { sheet: start.sheet_name.clone(), range: A1Range { start: start.cell, end } })
}

impl MatchedValueRange {
    /// The rows of the answer; `None` when it has no value range.
    pub fn into_rows(self) -> (r: Option<Vec<SheetRow>>)
        ensures
            r is Some <==> answer_rows(self) is Some,
            r matches Some(v) ==> v@ == answer_rows(self)->0,
    {
        match self.value_range {
            Some(vr) => match vr.values {
                Some(v) => Some(v),
                None => Some(Vec::new()),
            },
            None => None,
        }
    }

    /// The sheet range of the answer's one filter.
    pub fn extract_range_from_filters(&self) -> (r: Result<SheetA1Range, RepositoryError>)
        ensures
            r is Ok <==> (sole_filter_text(*self) matches Some(t) && is_sheet_range_text(t)),
            r matches Ok(sr) ==> sr.sheet@ == trim_quotes(
                before_sole(sole_filter_text(*self)->0, '!'),
            ) && (sr.range.start@, sr.range.end@) == range_value(
                after_sole(sole_filter_text(*self)->0, '!'),
            ),
            r is Err ==> r matches Err(RepositoryError::InvalidArgument(_)),
    {
        let filters = match &self.data_filters {
            Some(f) => f,
            None => {
                return Err(
                    RepositoryError::InvalidArgument("the answer has no data filters".to_owned()),
                );
            },
        };
        if filters.len() != 1 {
            return Err(
                RepositoryError::InvalidArgument(
                    "the answer does not have exactly one filter".to_owned(),
                ),
            );
        }
        let text = match &filters[0].a1_range {
            Some(t) => t,
            None => {
                return Err(
                    RepositoryError::InvalidArgument("the data filter has no A1 range".to_owned()),
                );
            },
        };
        match SheetA1Range::from_raw(text.as_str()) {
            Ok(sr) => Ok(sr),
            Err(_) => Err(
                RepositoryError::InvalidArgument("the data filter's range is malformed".to_owned()),
            ),
        }
    }

    /// Decodes each row of the answer into an entity positioned at the
    /// anchor's column and at the anchor's row plus the row's index.
    pub fn parse_positionally<E: SheetRowSerde>(self) -> (r: Result<
        Vec<Entity<E>>,
        RepositoryError,
    >)
        ensures
            r matches Err(RepositoryError::InvalidArgument(_)) <==> !answer_is_usable(self),
            r matches Err(RepositoryError::ParsingError) <==> (answer_is_usable(self)
                && !all_decodable::<E>(answer_rows(self)->0)),
            r is Ok <==> (answer_is_usable(self) && all_decodable::<E>(answer_rows(self)->0)),
            r matches Ok(v) ==> ({
                let t = sole_filter_text(self)->0;
                let rows = answer_rows(self)->0;
                &&& v@.len() == rows.len()
                &&& forall|i: int|
                    0 <= i < v@.len() ==> {
                        &&& (#[trigger] v@[i]).position.sheet_name@ == anchor_of(t).0
                        &&& v@[i].position.cell@ == (anchor_of(t).1.0, (anchor_of(t).1.1 + i) as nat)
                        &&& E::row_decodes(rows[i], v@[i].data)
                    }
            }),
    {
        let sr = match self.extract_range_from_filters() {
            Ok(sr) => sr,
            Err(e) => {
                return Err(e);
            },
        };
        let rows: Vec<SheetRow> = match self.value_range {
            Some(vr) => match vr.values {
                Some(v) => v,
                None => Vec::new(),
            },
            None => {
                return Err(
                    RepositoryError::InvalidArgument("the answer has no value range".to_owned()),
                );
            },
        };
        let anchor = sr.start();
        let first_row = anchor.cell.row();
        let n = rows.len();
        if n > 0 && (n - 1) as u64 > 0xffff_ffffu64 - first_row as u64 {
            return Err(
                RepositoryError::InvalidArgument("the rows reach beyond the last row".to_owned()),
            );
        }
        let ghost all = rows@;
        assert(all == answer_rows(self)->0);
        let mut rest = rows;
        let mut records: Vec<E> = Vec::new();
        let mut i: usize = 0;
        while i < n
            invariant
                n == all.len(),
                all == answer_rows(self)->0,
                answer_is_usable(self),
                0 <= i <= n,
                rest@ == all.subrange(i as int, n as int),
                records@.len() == i,
                forall|j: int| 0 <= j < i ==> E::row_decodes(all[j], #[trigger] records@[j]),
                forall|j: int| 0 <= j < i ==> E::row_decodable(#[trigger] all[j]),
            decreases n - i,
        {
            let row = rest.remove(0);
            assert(row == all[i as int]);
            match E::deserialize(row) {
                Ok(data) => {
                    records.push(data);
                },
                Err(_) => {
                    return Err(RepositoryError::ParsingError);
                },
            }
            i = i + 1;
            assert(rest@ =~= all.subrange(i as int, n as int));
        }
        let ghost recs = records@;
        let r = position_entities(&anchor, records);
        assert(r is Ok);
        r
    }
}

/// A read answer has one filter naming a sheet range, has a value range,
/// and its rows fit below the anchor.
pub open spec fn answer_is_usable(m: MatchedValueRange) -> bool {
    &&& sole_filter_text(m) matches Some(t)
    &&& is_sheet_range_text(t)
    &&& answer_rows(m) matches Some(rows)
    &&& rows.len() == 0 || anchor_of(t).1.1 + rows.len() - 1 <= u32::MAX
}

/// Binds the `i`-th record to the cell `i` rows below `anchor`.
pub fn position_entities<E>(anchor: &SheetA1CellId, records: Vec<E>) -> (r: Result<
    Vec<Entity<E>>,
    RepositoryError,
>)
    ensures
        r is Ok <==> (records@.len() == 0 || anchor.cell@.1 + records@.len() - 1 <= u32::MAX),
        r is Err ==> r matches Err(RepositoryError::InvalidArgument(_)),
        r matches Ok(v) ==> {
            &&& v@.len() == records@.len()
            &&& forall|i: int|
                0 <= i < v@.len() ==> {
                    &&& (#[trigger] v@[i]).position.sheet_name@ == anchor.sheet_name@
                    &&& v@[i].position.cell@ == (anchor.cell@.0, (anchor.cell@.1 + i) as nat)
                    &&& v@[i].data == records@[i]
                }
        },
{
    let col = anchor.cell.col();
    let first_row = anchor.cell.row();
    let n = records.len();
    if n > 0 && (n - 1) as u64 > 0xffff_ffffu64 - first_row as u64 {
        return Err(
            RepositoryError::InvalidArgument("the rows reach beyond the last row".to_owned()),
        );
    }
    let ghost all = records@;
    let mut rest = records;
    let mut out: Vec<Entity<E>> = Vec::new();
    let mut i: usize = 0;
    while i < n
        invariant
            n == all.len(),
            0 <= i <= n,
            rest@ == all.subrange(i as int, n as int),
            first_row >= 1,
            n == 0 || first_row + n - 1 <= u32::MAX,
            out@.len() == i,
            forall|j: int|
                0 <= j < i ==> {
                    &&& (#[trigger] out@[j]).position.sheet_name@ == anchor.sheet_name@
                    &&& out@[j].position.cell@ == (col@, (first_row + j) as nat)
                    &&& out@[j].data == all[j]
                },
        decreases n - i,
    {
        let data = rest.remove(0);
        let cell = A1CellId::new(col, first_row + i as u32);
        out.push(Entity { position: SheetA1CellId { sheet_name: anchor.sheet_name.clone(), cell }, data });
        i = i + 1;
        assert(rest@ =~= all.subrange(i as int, n as int));
    }
    Ok(out)
}

/// The range and the row that overwrite an entity's row in place: the
/// entity's row, from its first column across the record's width.
pub fn update_request<E: EntityEssentials>(entity: &Entity<E>) -> (r: Result<
    (SheetA1Range, SheetRow),
    RepositoryError,
>)
    ensures
        r is Ok <==> (E::width() >= 1 && entity.position.cell@.0 + E::width() - 1 <= u32::MAX
            && E::row_encodable(entity.data)),
        r matches Ok((sr, row)) ==> {
            &&& sr.sheet@ == entity.position.sheet_name@
            &&& sr.range.start == entity.position.cell
            &&& sr.range.end@ == ((entity.position.cell@.0 + E::width() - 1) as nat,
                entity.position.cell@.1)
            &&& E::row_encodes(entity.data, row)
        },
        !(E::width() >= 1 && entity.position.cell@.0 + E::width() - 1 <= u32::MAX) ==> r matches Err(
            RepositoryError::InvalidArgument(_),
        ),
        (E::width() >= 1 && entity.position.cell@.0 + E::width() - 1 <= u32::MAX
            && !E::row_encodable(entity.data)) ==> r matches Err(RepositoryError::ParsingError),
{
    let _ = entity.position.cell.row();
    let range = match convert_into_range(&entity.position, 1, E::entity_width()) {
        Ok(range) => range,
        Err(e) => {
            return Err(e);
        },
    };
    match entity.data.serialize() {
        Ok(row) => Ok((range, row)),
        Err(_) => Err(RepositoryError::ParsingError),
    }
}

/// The range to append a record in (`rows` rows of the record's width from
/// `start`), and the record's row.
pub fn insert_request<E: EntityEssentials>(start: &SheetA1CellId, rows: u32, data: &E) -> (r:
    Result<(SheetA1Range, SheetRow), RepositoryError>)
    ensures
        r is Ok <==> (fits_rows(start, rows, E::width()) && E::row_encodable(*data)),
        r matches Ok((sr, row)) ==> {
            &&& sr.sheet@ == start.sheet_name@
            &&& sr.range.start == start.cell
            &&& sr.range.end@ == ((start.cell@.0 + E::width() - 1) as nat, (start.cell@.1 + rows
                - 1) as nat)
            &&& E::row_encodes(*data, row)
        },
        !fits_rows(start, rows, E::width()) ==> r matches Err(RepositoryError::InvalidArgument(_)),
        (fits_rows(start, rows, E::width()) && !E::row_encodable(*data)) ==> r matches Err(
            RepositoryError::ParsingError,
        ),
{
    let range = match convert_into_range(start, rows, E::entity_width()) {
        Ok(range) => range,
        Err(e) => {
            return Err(e);
        },
    };
    match data.serialize() {
        Ok(row) => Ok((range, row)),
        Err(_) => Err(RepositoryError::ParsingError),
    }
}

/// `rows` rows of width `width` from `start` are at least one cell and lie
/// within the grid.
pub open spec fn fits_rows(start: &SheetA1CellId, rows: u32, width: u32) -> bool {
    rows >= 1 && width >= 1 && start.cell@.0 + width - 1 <= u32::MAX && start.cell@.1 + rows
        - 1 <= u32::MAX
}

/// The entity an append created, positioned at the first cell of the range
/// the service reports as updated.
pub fn inserted_entity<E>(request: &SheetA1Range, response: AppendValuesResponse, data: E) -> (r:
    Result<Entity<E>, RepositoryError>)
    ensures
        response.updates is None ==> r matches Err(RepositoryError::UnexpectedResponse { .. }),
        response.updates matches Some(u) ==> (u.updated_range is None ==> r matches Err(
            RepositoryError::UnexpectedResponse { .. },
        )),
        r is Ok <==> (response.updates matches Some(u) && u.updated_range matches Some(t)
            && is_sheet_range_text(t@)),
        r matches Ok(e) ==> ({
            let t = response.updates->0.updated_range->0@;
            &&& e.position.sheet_name@ == anchor_of(t).0
            &&& e.position.cell@ == anchor_of(t).1
            &&& e.data == data
        }),
        (response.updates matches Some(u) && u.updated_range matches Some(t)
            && !is_sheet_range_text(t@)) ==> r matches Err(RepositoryError::ParsingError),
        r matches Err(RepositoryError::UnexpectedResponse { response: x, .. }) ==> x == response,
{
    let text = match &response.updates {
        None => {
            return Err(
                RepositoryError::UnexpectedResponse {
                    what: "the append answer has no updates",
                    input: request.to_string(),
                    response,
                },
            );
        },
        Some(u) => match &u.updated_range {
            None => {
                return Err(
                    RepositoryError::UnexpectedResponse {
                        what: "the append updates have no updated range",
                        input: request.to_string(),
                        response,
                    },
                );
            },
            Some(t) => t.clone(),
        },
    };
    match SheetA1Range::from_raw(text.as_str()) {
        Ok(sr) => Ok(Entity { position: sr.start(), data }),
        Err(_) => Err(RepositoryError::ParsingError),
    }
}

/// Deleting an entity is not supported: rows after it would shift, and
/// the positions of entities read before would no longer hold.
pub fn delete_entity<E>(entity: &Entity<E>) -> (r: Result<(), RepositoryError>)
    ensures
        r matches Err(RepositoryError::Unsupported(_)),
{
    Err(RepositoryError::Unsupported("deleting entities"))
}

} // verus!
