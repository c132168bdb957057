use sheets_orm::cell_id::{A1CellId, CellId, NumCellId};
use sheets_orm::cell_range::CellRange;
use sheets_orm::num_range::NumRange;
use sheets_orm::range::{A1Range, A1RangeError, SheetA1Range};

#[test]
fn range_iterator__on_single_cell__ok() {
    let range = A1Range::from_str("A1", "A1").unwrap();
    let mut iter = range.iter();
    assert_eq!(iter.next(), Some(A1CellId::from_primitives("A", 1)));
    assert_eq!(iter.next(), None);
}

#[test]
fn range_iterator__on_single_row__ok() {
    let range = A1Range::from_str("A1", "C1").unwrap();
    let mut iter = range.iter();
    assert_eq!(iter.next(), Some(A1CellId::from_primitives("A", 1)));
    assert_eq!(iter.next(), Some(A1CellId::from_primitives("B", 1)));
    assert_eq!(iter.next(), Some(A1CellId::from_primitives("C", 1)));
    assert_eq!(iter.next(), None);
}

#[test]
fn range_iterator__on_single_column__ok() {
    let range = A1Range::from_str("A1", "A3").unwrap();
    let mut iter = range.iter();
    assert_eq!(iter.next(), Some(A1CellId::from_primitives("A", 1)));
    assert_eq!(iter.next(), Some(A1CellId::from_primitives("A", 2)));
    assert_eq!(iter.next(), Some(A1CellId::from_primitives("A", 3)));
    assert_eq!(iter.next(), None);
}

#[test]
fn range_iterator__on_square__ok() {
    let range = A1Range::from_str("A1", "C3").unwrap();
    let mut iter = range.iter();
    assert_eq!(iter.next(), Some(A1CellId::from_primitives("A", 1)));
    assert_eq!(iter.next(), Some(A1CellId::from_primitives("B", 1)));
    assert_eq!(iter.next(), Some(A1CellId::from_primitives("C", 1)));
    assert_eq!(iter.next(), Some(A1CellId::from_primitives("A", 2)));
    assert_eq!(iter.next(), Some(A1CellId::from_primitives("B", 2)));
    assert_eq!(iter.next(), Some(A1CellId::from_primitives("C", 2)));
    assert_eq!(iter.next(), Some(A1CellId::from_primitives("A", 3)));
    assert_eq!(iter.next(), Some(A1CellId::from_primitives("B", 3)));
    assert_eq!(iter.next(), Some(A1CellId::from_primitives("C", 3)));
    assert_eq!(iter.next(), None);
}

#[test]
fn range_iterator_on_improper_range_is_empty() {
    let mut iter = A1Range::from_str("C1", "A3").unwrap().iter();
    assert_eq!(iter.next(), None);
    let mut iter = A1Range::from_str("A3", "C1").unwrap().iter();
    assert_eq!(iter.next(), None);
    assert_eq!(iter.next(), None);
}

#[test]
fn range_iterator_wraps_to_start_column() {
    let mut iter = A1Range::from_str("Y5", "AA6").unwrap().iter();
    let mut texts = Vec::new();
    while let Some(c) = iter.next() {
        texts.push(c.to_string());
    }
    assert_eq!(texts, vec!["Y5", "Z5", "AA5", "Y6", "Z6", "AA6"]);
}

#[test]
fn parse_range__on_valid_range__ok() {
    let range = A1Range::from_str("A1", "C3").unwrap();
    assert_eq!(range.start.to_string(), "A1");
    assert_eq!(range.end.to_string(), "C3");
}

#[test]
fn parse_range__on_invalid_range__err() {
    let range = A1Range::from_str("A1", "C").unwrap_err();
    assert_eq!(range, A1RangeError::CellParsingError);
}

#[test]
fn range__to_string__ok() {
    let range = A1Range::from_str("A1", "C3").unwrap();
    assert_eq!(range.to_string(), "A1:C3");
}

#[test]
fn range__into_zero_base_range__already_zero_base__ok() {
    let range = A1Range::from_str("A1", "C3").unwrap();
    let zero_base = range.into_zero_base_range();
    assert_eq!(zero_base.start.to_string(), "A1");
    assert_eq!(zero_base.end.to_string(), "C3");
}

#[test]
fn range__into_zero_base_range__not_zero_base__ok() {
    let range = A1Range::from_str("B2", "D4").unwrap();
    let zero_base = range.into_zero_base_range();
    assert_eq!(zero_base.start.to_string(), "A1");
    assert_eq!(zero_base.end.to_string(), "C3");
}

#[test]
fn zero_base_equals_origin_range() {
    let range = A1Range::new(A1CellId::from_primitives("B", 2), A1CellId::from_primitives("D", 4));
    let expected =
        A1Range::new(A1CellId::from_primitives("A", 1), A1CellId::from_primitives("C", 3));
    assert_eq!(range.into_zero_base_range(), expected);
}

#[test]
fn range_text_parses() {
    let range = A1Range::from_raw("B2:AA10").unwrap();
    assert_eq!(range.to_string(), "B2:AA10");
    assert_eq!(
        A1Range::from_raw("A1"),
        Err(A1RangeError::InvalidRangeFormat("A1".to_string()))
    );
    assert_eq!(
        A1Range::from_raw("A1:B2:C3"),
        Err(A1RangeError::InvalidRangeFormat("A1:B2:C3".to_string()))
    );
    assert_eq!(A1Range::from_raw("A1:B"), Err(A1RangeError::CellParsingError));
}

#[test]
fn sheet_range_text_parses_and_prints() {
    let sr = SheetA1Range::from_raw("'My Sheet'!A1:C3").unwrap();
    assert_eq!(sr.sheet, "My Sheet");
    assert_eq!(sr.range.to_string(), "A1:C3");
    assert_eq!(sr.to_string(), "'My Sheet'!A1:C3");
    let plain = SheetA1Range::from_raw("users!A1:B3").unwrap();
    assert_eq!(plain.sheet, "users");
    assert_eq!(plain.start().cell, A1CellId::from_primitives("A", 1));
    assert_eq!(plain.start().sheet_name, "users");
    assert_eq!(
        SheetA1Range::from_raw("A1:C3").unwrap_err(),
        A1RangeError::InvalidRangeFormat("A1:C3".to_string())
    );
    assert_eq!(
        SheetA1Range::from_raw("users!A1").unwrap_err(),
        A1RangeError::InvalidRangeFormat("A1".to_string())
    );
    assert_eq!(
        SheetA1Range::from_raw("users!A1:3").unwrap_err(),
        A1RangeError::CellParsingError
    );
    let built = SheetA1Range::from_str("data", "B2:C4").unwrap();
    assert_eq!(built.to_string(), "'data'!B2:C4");
    let fresh = SheetA1Range::new("s", A1Range::from_raw("A1:A2").unwrap());
    assert_eq!(fresh.to_string(), "'s'!A1:A2");
}

#[test]
fn from_range__on_valid_range__ok() {
    let start = NumCellId::from_primitives(0, 0);
    let end = NumCellId::from_primitives(1, 1);
    let range = NumRange::new(start, end);
    let a1_range = A1Range::from(range);
    assert_eq!(a1_range.start.to_string(), "A1");
    assert_eq!(a1_range.end.to_string(), "B2");
}

#[test]
fn from_a1_range__on_valid_range__ok() {
    let a1_range = A1Range::from_str("A1", "B2").unwrap();
    let range = NumRange::from(a1_range);
    assert_eq!(range.start, NumCellId::from_primitives(0, 0));
    assert_eq!(range.end, NumCellId::from_primitives(1, 1));
}

#[test]
fn mod_new__on_valid_range__ok() {
    let start = CellId::new(0, 0);
    let end = CellId::new(1, 1);
    let range = CellRange::new(start, end);
    assert_eq!(range.start, start);
    assert_eq!(range.end, end);
}

#[test]
fn num_range_new__on_valid_range__ok() {
    let start = NumCellId::from_primitives(0, 0);
    let end = NumCellId::from_primitives(1, 1);
    let range = NumRange::new(start, end);
    assert_eq!(range.start, start);
    assert_eq!(range.end, end);
}
