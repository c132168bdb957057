//! Rectangular ranges of cells in A1 notation, inclusive at both corners.
use vstd::prelude::*;

use crate::cell_id::{cell_text, cell_value, is_cell_text, A1CellId, SheetA1CellId};
use crate::column::{is_u32_column_code, rank_of};
use crate::letters::Letters;
use crate::text::{
    after_sole, before_sole, find_sole, has_sole, lemma_sole_unique, sole_position,
    trim_quotes, trim_quotes_of,
};

verus! {

/// Why text is not a range.
#[derive(Debug, Clone, PartialEq, Eq)]
pub enum A1RangeError {
    /// The text, whose separator does not occur exactly once.
    InvalidRangeFormat(String),
    /// A corner of the range is not a cell.
    CellParsingError,
}

/// The cells from `start` to `end`, both included.
#[derive(Debug, Clone, Copy, PartialEq, Eq, Structural)]
pub struct A1Range {
    pub start: A1CellId,
    pub end: A1CellId,
}

/// A range is proper when its start is left of and above its end (or on them).
pub open spec fn is_proper(s: (nat, nat), e: (nat, nat)) -> bool {
    s.0 <= e.0 && s.1 <= e.1
}

/// The number of columns of a proper range.
pub open spec fn range_width(s: (nat, nat), e: (nat, nat)) -> int {
    e.0 - s.0 + 1
}

/// The number of rows of a proper range.
pub open spec fn range_height(s: (nat, nat), e: (nat, nat)) -> int {
    e.1 - s.1 + 1
}

/// The cells of a range in row-major order: the first row left to right,
/// then the next row; none for a range that is not proper.
pub open spec fn range_cells(s: (nat, nat), e: (nat, nat)) -> Seq<(nat, nat)> {
    if is_proper(s, e) {
        let w = range_width(s, e);
        Seq::new(
            (w * range_height(s, e)) as nat,
            |i: int| ((s.0 + i % w) as nat, (s.1 + i / w) as nat),
        )
    } else {
        Seq::empty()
    }
}

/// Where cell `c` stands in the row-major order of a range.
pub open spec fn cell_index(s: (nat, nat), e: (nat, nat), c: (nat, nat)) -> int {
    (c.1 - s.1) * range_width(s, e) + (c.0 - s.0)
}

/// Cell `c` lies in the range.
pub open spec fn in_range(s: (nat, nat), e: (nat, nat), c: (nat, nat)) -> bool {
    s.0 <= c.0 <= e.0 && s.1 <= c.1 <= e.1
}

proof fn lemma_cell_at_index(s: (nat, nat), e: (nat, nat), c: (nat, nat))
    requires
        in_range(s, e, c),
    ensures
        0 <= cell_index(s, e, c) < range_cells(s, e).len(),
        range_cells(s, e)[cell_index(s, e, c)] == c,
{
    let w = range_width(s, e);
    let h = range_height(s, e);
    let i = cell_index(s, e, c);
    let dr = c.1 - s.1;
    let dc = c.0 - s.0;
    assert(0 <= i < w * h) by (nonlinear_arith)
        requires
            i == dr * w + dc,
            0 <= dc < w,
            0 <= dr < h,
    ;
    vstd::arithmetic::div_mod::lemma_fundamental_div_mod_converse(i, w, dr, dc);
}

proof fn lemma_next_row_index(s: (nat, nat), e: (nat, nat), c: (nat, nat))
    requires
        in_range(s, e, c),
        c.0 == e.0,
    ensures
        cell_index(s, e, ((s.0) as nat, (c.1 + 1) as nat)) == cell_index(s, e, c) + 1,
{
    let w = range_width(s, e);
    let dr = c.1 - s.1;
    assert((dr + 1) * w == dr * w + w) by (nonlinear_arith);
}

proof fn lemma_last_index(s: (nat, nat), e: (nat, nat))
    requires
        is_proper(s, e),
    ensures
        cell_index(s, e, e) + 1 == range_cells(s, e).len(),
{
    let w = range_width(s, e);
    let h = range_height(s, e);
    assert((h - 1) * w + (w - 1) + 1 == w * h) by (nonlinear_arith);
}

/// Walks the cells of a range in row-major order. Its view is the cells it
/// has yet to give.
pub struct A1RangeIterator {
    range: A1Range,
    current: Option<A1CellId>,
}

impl View for A1RangeIterator {
    type V = Seq<(nat, nat)>;

    closed spec fn view(&self) -> Seq<(nat, nat)> {
        let s = self.range.start@;
        let e = self.range.end@;
        match self.current {
            Some(c) => range_cells(s, e).subrange(
                cell_index(s, e, c@),
                range_cells(s, e).len() as int,
            ),
            None => Seq::empty(),
        }
    }
}

impl A1RangeIterator {
    #[verifier::type_invariant]
    spec fn inv(self) -> bool {
        self.current matches Some(c) ==> in_range(self.range.start@, self.range.end@, c@)
    }

    /// The next cell, or `None` once every cell was given.
    pub fn next(&mut self) -> (r: Option<A1CellId>)
        ensures
            old(self)@.len() == 0 ==> r is None && final(self)@ == old(self)@,
            old(self)@.len() > 0 ==> (r matches Some(c) && c@ == old(self)@[0] && final(self)@
                == old(self)@.drop_first()),
    {
        proof {
            use_type_invariant(&*self);
        }
        match self.current {
            None => None,
            Some(c) => {
                let ghost s = self.range.start@;
                let ghost e = self.range.end@;
                proof {
                    lemma_cell_at_index(s, e, c@);
                }
                let end = self.range.end;
                let next = if c.column() == end.column() {
                    if c.row() == end.row() {
                        proof {
                            lemma_last_index(s, e);
                        }
                        None
                    } else {
                        proof {
                            lemma_next_row_index(s, e, c@);
                        }
                        Some(A1CellId::new(self.range.start.col(), c.row() + 1))
                    }
                } else {
                    Some(A1CellId::new(Letters::from_rank(c.column() + 1), c.row()))
                };
                self.current = next;
                proof {
                    let cells = range_cells(s, e);
                    let i = cell_index(s, e, c@);
                    assert(old(self)@ == cells.subrange(i, cells.len() as int));
                    assert(self@ =~= cells.subrange(i, cells.len() as int).drop_first());
                }
                Some(c)
            },
        }
    }
}

impl A1Range {
    /// The range from `from` to `to`.
    pub fn new(from: A1CellId, to: A1CellId) -> (r: A1Range)
        ensures
            r.start == from,
            r.end == to,
    {
        A1Range { start: from, end: to }
    }

    /// The cells of this range in row-major order; none when the start lies
    /// right of or below the end.
    pub fn iter(&self) -> (r: A1RangeIterator)
        ensures
            r@ == range_cells(self.start@, self.end@),
    {
        let proper = self.start.column() <= self.end.column() && self.start.row()
            <= self.end.row();
        if proper {
            proof {
                lemma_cell_at_index(self.start@, self.end@, self.start@);
                let cells = range_cells(self.start@, self.end@);
                assert(cells.subrange(0, cells.len() as int) =~= cells);
            }
            A1RangeIterator { range: *self, current: Some(self.start) }
        } else {
            A1RangeIterator { range: *self, current: None }
        }
    }

    /// The same shape moved so that it starts at `A1`: `B2:D4` gives `A1:C3`.
    pub fn into_zero_base_range(self) -> (r: A1Range)
        requires
            is_proper(self.start@, self.end@),
        ensures
            r.start@ == (1nat, 1nat),
            r.end@ == (range_width(self.start@, self.end@) as nat, range_height(
                self.start@,
                self.end@,
            ) as nat),
    {
        let cols = self.end.column() - self.start.column() + 1;
        let rows = self.end.row() - self.start.row() + 1;
        A1Range {
            start: A1CellId::new(Letters::from_rank(1), 1),
            end: A1CellId::new(Letters::from_rank(cols), rows),
        }
    }

    /// The range between two cells given as A1 text.
    pub fn from_str(from: &str, to: &str) -> (r: Result<A1Range, A1RangeError>)
        ensures
            r is Ok <==> is_cell_text(from@) && is_cell_text(to@),
            r matches Ok(rg) ==> rg.start@ == cell_value(from@) && rg.end@ == cell_value(to@),
            r is Err ==> r == Err::<A1Range, A1RangeError>(A1RangeError::CellParsingError),
    {
        let start = match A1CellId::from_raw(from) {
            Ok(c) => c,
            Err(_) => {
                return Err(A1RangeError::CellParsingError);
            },
        };
        let end = match A1CellId::from_raw(to) {
            Ok(c) => c,
            Err(_) => {
                return Err(A1RangeError::CellParsingError);
            },
        };
        Ok(A1Range { start, end })
    }

    /// The A1 text of the range, such as `"A1:C3"`.
    pub fn to_string(&self) -> (r: String)
        ensures
            r@ == range_text(self.start@, self.end@),
    {
        let mut s = self.start.to_string();
        s.push(':');
        let end = self.end.to_string();
        s.append(end.as_str());
        s
    }

    /// Parses range text `<cell>:<cell>`, such as `"A1:C3"`.
    pub fn from_raw(value: &str) -> (r: Result<A1Range, A1RangeError>)
        ensures
            r is Ok <==> is_range_text(value@),
            r matches Ok(rg) ==> (rg.start@, rg.end@) == range_value(value@),
            !has_sole(value@, ':') <==> r matches Err(A1RangeError::InvalidRangeFormat(_)),
            r matches Err(A1RangeError::InvalidRangeFormat(t)) ==> t@ == value@,
    {
        let p = match find_sole(value, ':') {
            Some(p) => p,
            None => {
                return Err(A1RangeError::InvalidRangeFormat(value.to_owned()));
            },
        };
        proof {
            lemma_sole_unique(value@, ':', p as int, sole_position(value@, ':'));
        }
        let len = value.unicode_len();
        let from = value.substring_char(0, p);
        let to = value.substring_char(p + 1, len);
        A1Range::from_str(from, to)
    }

    /// The numeric range one column and one row before each corner of `value`.
    pub fn from(value: crate::num_range::NumRange) -> (r: A1Range)
        requires
            value.start.col < u32::MAX,
            value.start.row < u32::MAX,
            value.end.col < u32::MAX,
            value.end.row < u32::MAX,
        ensures
            r.start@ == ((value.start.col + 1) as nat, (value.start.row + 1) as nat),
            r.end@ == ((value.end.col + 1) as nat, (value.end.row + 1) as nat),
    {
        A1Range { start: A1CellId::from(value.start), end: A1CellId::from(value.end) }
    }
}

/// The A1 text of a range: its corners joined by `:`.
pub open spec fn range_text(s: (nat, nat), e: (nat, nat)) -> Seq<char> {
    cell_text(s) + seq![':'] + cell_text(e)
}

/// `s` is range text: two cells joined by one `:`.
pub open spec fn is_range_text(s: Seq<char>) -> bool {
    has_sole(s, ':') && is_cell_text(before_sole(s, ':')) && is_cell_text(after_sole(s, ':'))
}

/// The corners that range text names.
pub open spec fn range_value(s: Seq<char>) -> ((nat, nat), (nat, nat)) {
    (cell_value(before_sole(s, ':')), cell_value(after_sole(s, ':')))
}

/// A range of a named sheet.
#[derive(Debug, Clone)]
pub struct SheetA1Range {
    pub sheet: String,
    pub range: A1Range,
}

/// The text of a sheet range: the sheet name in apostrophes, `!`, and the
/// range, such as `'My Sheet'!A1:C3`.
pub open spec fn sheet_range_text(sheet: Seq<char>, s: (nat, nat), e: (nat, nat)) -> Seq<char> {
    seq!['\''] + sheet + seq!['\'', '!'] + range_text(s, e)
}

/// `s` is sheet range text: a sheet name, one `!`, and range text.
pub open spec fn is_sheet_range_text(s: Seq<char>) -> bool {
    has_sole(s, '!') && is_range_text(after_sole(s, '!'))
}

impl SheetA1Range {
    /// The range `range` of sheet `page`.
    pub fn new(page: &str, range: A1Range) -> (r: SheetA1Range)
        ensures
            r.sheet@ == page@,
            r.range == range,
    {
        SheetA1Range { sheet: page.to_owned(), range }
    }

    /// The range's first cell, on the same sheet.
    pub fn start(&self) -> (r: SheetA1CellId)
        ensures
            r.sheet_name@ == self.sheet@,
            r.cell == self.range.start,
    {
        SheetA1CellId { sheet_name: self.sheet.clone(), cell: self.range.start }
    }

    /// Parses `<sheet>!<range>`; apostrophes around the sheet name are
    /// dropped: `'users'!A1:B3`.
    pub fn from_raw(value: &str) -> (r: Result<SheetA1Range, A1RangeError>)
        ensures
            r is Ok <==> is_sheet_range_text(value@),
            r matches Ok(sr) ==> sr.sheet@ == trim_quotes(before_sole(value@, '!')) && (
            sr.range.start@,
            sr.range.end@,
            ) == range_value(after_sole(value@, '!')),
            !has_sole(value@, '!') ==> (r matches Err(A1RangeError::InvalidRangeFormat(t))
                && t@ == value@),
    {
        let p = match find_sole(value, '!') {
            Some(p) => p,
            None => {
                return Err(A1RangeError::InvalidRangeFormat(value.to_owned()));
            },
        };
        proof {
            lemma_sole_unique(value@, '!', p as int, sole_position(value@, '!'));
        }
        let len = value.unicode_len();
        let page = trim_quotes_of(value.substring_char(0, p));
        let range = A1Range::from_raw(value.substring_char(p + 1, len))?;
        Ok(SheetA1Range { sheet: page, range })
    }

    /// The range `range` (range text) of sheet `page`.
    pub fn from_str(page: &str, range: &str) -> (r: Result<SheetA1Range, A1RangeError>)
        ensures
            r is Ok <==> is_range_text(range@),
            r matches Ok(sr) ==> sr.sheet@ == page@ && (sr.range.start@, sr.range.end@)
                == range_value(range@),
    {
        let range = A1Range::from_raw(range)?;
        Ok(SheetA1Range { sheet: page.to_owned(), range })
    }

    /// The text of the range with its sheet name quoted: `'My Sheet'!A1:C3`.
    pub fn to_string(&self) -> (r: String)
        ensures
            r@ == sheet_range_text(self.sheet@, self.range.start@, self.range.end@),
    {
        let mut s = String::new();
        s.push('\'');
        s.append(self.sheet.as_str());
        s.push('\'');
        s.push('!');
        let range = self.range.to_string();
        s.append(range.as_str());
        proof {
            assert(s@ =~= sheet_range_text(self.sheet@, self.range.start@, self.range.end@));
        }
        s
    }
}

impl SheetA1CellId {
    /// The range from this cell to the cell at upper-case column text
    /// `end_col` and row `end_row`, on the same sheet.
    pub fn into_range(self, end_col: &str, end_row: u32) -> (r: SheetA1Range)
        requires
            is_u32_column_code(end_col@),
            end_row >= 1,
        ensures
            r.sheet@ == self.sheet_name@,
            r.range.start == self.cell,
            r.range.end@ == (rank_of(end_col@) as nat, end_row as nat),
    {
        SheetA1Range {
            sheet: self.sheet_name,
            range: A1Range { start: self.cell, end: A1CellId::from_primitives(end_col, end_row) },
        }
    }
}

} // verus!
