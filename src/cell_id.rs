//! Cell coordinates: A1 notation (1-based, lettered columns) and numeric
//! coordinates (0-based).
use vstd::prelude::*;

use crate::column::{is_u32_column_code, letters_of, rank_of};
use crate::decimal::{
    all_digits, decimal_of, decimal_value, is_digit, parse_u32_digits, u32_to_decimal,
};
use crate::letters::{
    compare_int, is_ascii_letter, lemma_letters_with_rank, letters_with_rank, upper_seq, Letters,
};

verus! {

/// Why text is not a cell of A1 notation.
#[derive(Debug, Clone, PartialEq, Eq)]
pub enum A1CellIdError {
    /// The text, which is not `<letters><row number>`.
    InvalidCellFormat(String),
}

/// A cell in A1 notation: a column of letters and a row number from 1.
/// Its view is `(column number, row number)`, both 1-based.
#[derive(Debug, Clone, Copy, PartialEq, Eq, Hash, Structural)]
pub struct A1CellId {
    col: Letters,
    row: u32,
}

impl View for A1CellId {
    type V = (nat, nat);

    closed spec fn view(&self) -> (nat, nat) {
        (self.col@, self.row as nat)
    }
}

/// The cell at column number `col` and row number `row`.
pub closed spec fn cell_with(col: int, row: int) -> A1CellId {
    A1CellId { col: letters_with_rank(col), row: row as u32 }
}

/// `cell_with` gives the cell asked for.
pub broadcast proof fn lemma_cell_with(col: int, row: int)
    requires
        1 <= col <= u32::MAX,
        1 <= row <= u32::MAX,
    ensures
        (#[trigger] cell_with(col, row))@ == (col as nat, row as nat),
{
    lemma_letters_with_rank(col);
}

/// Both coordinates of a cell are valid 1-based numbers.
pub open spec fn fits_cell(col: int, row: int) -> bool {
    1 <= col <= u32::MAX && 1 <= row <= u32::MAX
}

/// The A1 text of a cell: its column letters, then its row number.
pub open spec fn cell_text(c: (nat, nat)) -> Seq<char> {
    letters_of(c.0) + decimal_of(c.1)
}

/// Cells are ordered by row first, and by column within a row.
pub open spec fn cell_order(a: (nat, nat), b: (nat, nat)) -> core::cmp::Ordering {
    if a.1 != b.1 {
        compare_int(a.1 as int, b.1 as int)
    } else {
        compare_int(a.0 as int, b.0 as int)
    }
}

/// `s` splits at `k` into column letters (of either case) and row digits.
pub open spec fn splits_as_cell(s: Seq<char>, k: int) -> bool {
    &&& 0 < k < s.len()
    &&& forall|i: int| 0 <= i < k ==> is_ascii_letter(#[trigger] s[i])
    &&& forall|i: int| k <= i < s.len() ==> is_digit(#[trigger] s[i])
}

/// The column and row numbers that `s` names when split at `k`.
pub open spec fn cell_of_split(s: Seq<char>, k: int) -> (int, int) {
    (rank_of(upper_seq(s.subrange(0, k))), decimal_value(s.subrange(k, s.len() as int)))
}

/// `s` is the A1 text of a cell whose numbers fit.
pub open spec fn is_cell_text(s: Seq<char>) -> bool {
    exists|k: int| splits_as_cell(s, k) && fits_cell(cell_of_split(s, k).0, cell_of_split(s, k).1)
}

/// The column and row numbers that A1 text names.
pub open spec fn cell_value(s: Seq<char>) -> (nat, nat) {
    let k = choose|k: int| splits_as_cell(s, k);
    (cell_of_split(s, k).0 as nat, cell_of_split(s, k).1 as nat)
}

impl A1CellId {
    #[verifier::type_invariant]
    spec fn inv(self) -> bool {
        self.row >= 1
    }

    /// The cell at the given column and row number.
    pub fn new(letter: Letters, number: u32) -> (r: A1CellId)
        requires
            number >= 1,
        ensures
            r@ == (letter@, number as nat),
    {
        A1CellId { col: letter, row: number }
    }

    /// The cell at upper-case column text `col` and row number `row`.
    pub fn from_primitives(col: &str, row: u32) -> (r: A1CellId)
        requires
            is_u32_column_code(col@),
            row >= 1,
        ensures
            r@ == (rank_of(col@) as nat, row as nat),
    {
        A1CellId { col: Letters::new(col.to_owned()), row }
    }

    /// The 1-based row number.
    pub fn row(&self) -> (r: u32)
        ensures
            r == self@.1,
            r >= 1,
    {
        proof {
            use_type_invariant(self);
        }
        self.row
    }

    /// The 1-based column number.
    pub fn column(&self) -> (r: u32)
        ensures
            r == self@.0,
            r >= 1,
    {
        self.col.rank()
    }

    /// The column letters.
    pub fn col(&self) -> (r: Letters)
        ensures
            r@ == self@.0,
    {
        self.col
    }

    /// The 1-based column and row numbers.
    pub fn as_indices(&self) -> (r: NumCellId)
        ensures
            r.col == self@.0,
            r.row == self@.1,
    {
        NumCellId { col: self.column(), row: self.row() }
    }

    /// The A1 text, such as `"AB12"`.
    pub fn to_string(&self) -> (r: String)
        ensures
            r@ == cell_text(self@),
    {
        let mut s = self.col.to_string();
        let digits = u32_to_decimal(self.row);
        s.append(digits.as_str());
        s
    }

    /// The cell `columns` to the right and `rows` down (left and up when
    /// negative).
    pub fn delta(&self, columns: i32, rows: i32) -> (r: A1CellId)
        requires
            fits_cell(self@.0 + columns, self@.1 + rows),
        ensures
            r@ == ((self@.0 + columns) as nat, (self@.1 + rows) as nat),
    {
        let col = self.column() as i64 + columns as i64;
        let row = self.row() as i64 + rows as i64;
        A1CellId { col: Letters::from_rank(col as u32), row: row as u32 }
    }

    /// Parses A1 text: one or more ASCII letters (either case) followed by
    /// one or more digits, such as `"AB12"` or `"c3"`.
    pub fn from_raw(value: &str) -> (r: Result<A1CellId, A1CellIdError>)
        ensures
            r is Ok <==> is_cell_text(value@),
            forall|k: int|
                #[trigger] splits_as_cell(value@, k) ==> (r matches Ok(c) ==> c@ == (
                    cell_of_split(value@, k).0 as nat,
                    cell_of_split(value@, k).1 as nat,
                )),
            r matches Ok(c) ==> c@ == cell_value(value@),
            r matches Err(A1CellIdError::InvalidCellFormat(t)) ==> t@ == value@,
    {
        let len = value.unicode_len();
        let mut k: usize = 0;
        let mut scanning = true;
        while scanning && k < len
            invariant
                len == value@.len(),
                0 <= k <= len,
                forall|i: int| 0 <= i < k ==> is_ascii_letter(#[trigger] value@[i]),
                !scanning ==> k < len && !is_ascii_letter(value@[k as int]),
            decreases len - k + (if scanning { 1int } else { 0int }),
        {
            let c = value.get_char(k);
            if ('A' <= c && c <= 'Z') || ('a' <= c && c <= 'z') {
                k = k + 1;
            } else {
                scanning = false;
            }
        }
        proof {
            // Any split point is `k`: letters stop there and digits start there.
            assert forall|j: int| #[trigger] splits_as_cell(value@, j) implies j == k by {
                if j < k {
                    assert(is_ascii_letter(value@[j]));
                    assert(is_digit(value@[j]));
                } else if j > k {
                    assert(k < len);
                    assert(is_ascii_letter(value@[k as int]));
                }
            }
        }
        if k == 0 || k == len {
            return Err(A1CellIdError::InvalidCellFormat(value.to_owned()));
        }
        let mut j: usize = k;
        while j < len
            invariant
                len == value@.len(),
                0 < k <= j <= len,
                forall|i: int| k <= i < j ==> is_digit(#[trigger] value@[i]),
                forall|i: int| 0 <= i < k ==> is_ascii_letter(#[trigger] value@[i]),
                forall|m: int| #[trigger] splits_as_cell(value@, m) ==> m == k,
            decreases len - j,
        {
            let c = value.get_char(j);
            if !('0' <= c && c <= '9') {
                proof {
                    assert(!splits_as_cell(value@, k as int));
                }
                return Err(A1CellIdError::InvalidCellFormat(value.to_owned()));
            }
            j = j + 1;
        }
        assert(splits_as_cell(value@, k as int));
        let letters = value.substring_char(0, k);
        let digits = value.substring_char(k, len);
        assert(all_digits(digits@));
        let col = match Letters::parse(letters) {
            Ok(l) => l,
            Err(_) => {
                proof {
                    assert forall|i: int| 0 <= i < letters@.len() implies is_ascii_letter(
                        #[trigger] letters@[i],
                    ) by {
                        assert(letters@[i] == value@[i]);
                    }
                    assert(rank_of(upper_seq(letters@)) > u32::MAX);
                    assert(letters@ == value@.subrange(0, k as int));
                    assert forall|j: int| #[trigger] splits_as_cell(value@, j) implies !fits_cell(
                        cell_of_split(value@, j).0,
                        cell_of_split(value@, j).1,
                    ) by {
                        assert(j == k);
                    }
                }
                return Err(A1CellIdError::InvalidCellFormat(value.to_owned()));
            },
        };
        proof {
            crate::column::lemma_rank_nonneg(upper_seq(letters@));
        }
        match parse_u32_digits(digits) {
            Some(row) => {
                if row == 0 {
                    Err(A1CellIdError::InvalidCellFormat(value.to_owned()))
                } else {
                    Ok(A1CellId { col, row })
                }
            },
            None => Err(A1CellIdError::InvalidCellFormat(value.to_owned())),
        }
    }

    /// This cell on sheet `sheet_name`.
    pub fn with_sheet_name(self, sheet_name: &str) -> (r: SheetA1CellId)
        ensures
            r.sheet_name@ == sheet_name@,
            r.cell == self,
    {
        SheetA1CellId { sheet_name: sheet_name.to_owned(), cell: self }
    }

    /// The A1 cell of 0-based numeric cell `value`: `(0, 0)` is `A1`.
    pub fn from(value: NumCellId) -> (r: A1CellId)
        requires
            value.col < u32::MAX,
            value.row < u32::MAX,
        ensures
            r@ == ((value.col + 1) as nat, (value.row + 1) as nat),
    {
        A1CellId { col: Letters::from_rank(value.col + 1), row: value.row + 1 }
    }
}

impl core::ops::Add for A1CellId {
    type Output = A1CellId;

    /// Adds column numbers and row numbers: `A1 + B2` is `C3`.
    fn add(self, other: A1CellId) -> (r: A1CellId) {
        let number = self.row() + other.row();
        let letter = self.col + other.column();
        A1CellId { col: letter, row: number }
    }
}

impl vstd::std_specs::ops::AddSpecImpl for A1CellId {
    open spec fn obeys_add_spec() -> bool {
        true
    }

    open spec fn add_req(self, other: A1CellId) -> bool {
        self@.0 + other@.0 <= u32::MAX && self@.1 + other@.1 <= u32::MAX
    }

    open spec fn add_spec(self, other: A1CellId) -> A1CellId {
        cell_with((self@.0 + other@.0) as int, (self@.1 + other@.1) as int)
    }
}

impl PartialOrd for A1CellId {
    /// Row first, then column: `A3 > B2`.
    fn partial_cmp(&self, other: &A1CellId) -> (r: Option<core::cmp::Ordering>) {
        let (r1, r2) = (self.row(), other.row());
        let (c1, c2) = (self.column(), other.column());
        if r1 < r2 {
            Some(core::cmp::Ordering::Less)
        } else if r1 > r2 {
            Some(core::cmp::Ordering::Greater)
        } else if c1 < c2 {
            Some(core::cmp::Ordering::Less)
        } else if c1 > c2 {
            Some(core::cmp::Ordering::Greater)
        } else {
            Some(core::cmp::Ordering::Equal)
        }
    }
}

impl vstd::std_specs::cmp::PartialOrdSpecImpl for A1CellId {
    open spec fn obeys_partial_cmp_spec() -> bool {
        true
    }

    open spec fn partial_cmp_spec(&self, other: &A1CellId) -> Option<core::cmp::Ordering> {
        Some(cell_order(self@, other@))
    }
}

/// A cell as 0-based column and row numbers.
#[derive(Debug, PartialEq, Eq, Clone, Copy, Structural)]
pub struct NumCellId {
    pub col: u32,
    pub row: u32,
}

impl NumCellId {
    /// The cell at 0-based column `col` and row `row`.
    pub fn from_primitives(col: u32, row: u32) -> (r: NumCellId)
        ensures
            r.col == col,
            r.row == row,
    {
        NumCellId { col, row }
    }
}

impl From<A1CellId> for NumCellId {
    /// `A1` is `(0, 0)`.
    fn from(value: A1CellId) -> (r: NumCellId) {
        NumCellId { col: value.column() - 1, row: value.row() - 1 }
    }
}

impl vstd::std_specs::convert::FromSpecImpl<A1CellId> for NumCellId {
    open spec fn obeys_from_spec() -> bool {
        true
    }

    open spec fn from_spec(value: A1CellId) -> NumCellId {
        NumCellId { col: (value@.0 - 1) as u32, row: (value@.1 - 1) as u32 }
    }
}

/// A cell as plain column and row numbers.
#[derive(Debug, PartialEq, Eq, Clone, Copy, Structural)]
pub struct CellId {
    pub col: u32,
    pub row: u32,
}

impl CellId {
    /// The cell at column `col` and row `row`.
    pub fn new(col: u32, row: u32) -> (r: CellId)
        ensures
            r.col == col,
            r.row == row,
    {
        CellId { col, row }
    }
}

/// A cell of a named sheet.
#[derive(Debug, Clone)]
pub struct SheetA1CellId {
    pub sheet_name: String,
    pub cell: A1CellId,
}

impl SheetA1CellId {
    /// The cell at upper-case column text `col` and row `row` of sheet `name`.
    pub fn from_primitives(name: &str, col: &str, row: u32) -> (r: SheetA1CellId)
        requires
            is_u32_column_code(col@),
            row >= 1,
        ensures
            r.sheet_name@ == name@,
            r.cell@ == (rank_of(col@) as nat, row as nat),
    {
        SheetA1CellId { sheet_name: name.to_owned(), cell: A1CellId::from_primitives(col, row) }
    }

    /// Cell `cell` of sheet `sheet_name`.
    pub fn new(sheet_name: &str, cell: A1CellId) -> (r: SheetA1CellId)
        ensures
            r.sheet_name@ == sheet_name@,
            r.cell == cell,
    {
        SheetA1CellId { sheet_name: sheet_name.to_owned(), cell }
    }

    /// A copy of this cell.
    pub fn duplicate(&self) -> (r: SheetA1CellId)
        ensures
            r.sheet_name@ == self.sheet_name@,
            r.cell == self.cell,
    {
        SheetA1CellId { sheet_name: self.sheet_name.clone(), cell: self.cell }
    }
}

impl PartialEq for SheetA1CellId {
    fn eq(&self, other: &SheetA1CellId) -> (r: bool) {
        self.sheet_name == other.sheet_name && self.cell == other.cell
    }
}

impl vstd::std_specs::cmp::PartialEqSpecImpl for SheetA1CellId {
    open spec fn obeys_eq_spec() -> bool {
        true
    }

    open spec fn eq_spec(&self, other: &SheetA1CellId) -> bool {
        self.sheet_name@ == other.sheet_name@ && self.cell == other.cell
    }
}

} // verus!
