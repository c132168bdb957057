use sheets_orm::letters::Letters;
use sheets_orm::options::{InputMode, MajorDimension, ValueRenderOption};
use sheets_orm::sheet_cell::{CellParsingError, SheetRawCell, SheetRawCellSerde};
use sheets_orm::sheet_row::{parse_cell, parse_optional_cell, ParseError, SheetRow, SheetValue};

fn cell(text: &str) -> SheetRawCell {
    SheetRawCell(text.to_string())
}

fn text(t: &str) -> SheetValue {
    SheetValue::Text(t.to_string())
}

#[test]
fn integers_read_from_cell_text() {
    assert_eq!(<i32 as SheetRawCellSerde>::deserialize(cell("42")), Ok(42));
    assert_eq!(<i32 as SheetRawCellSerde>::deserialize(cell("-42")), Ok(-42));
    assert_eq!(<i32 as SheetRawCellSerde>::deserialize(cell("+7")), Ok(7));
    assert_eq!(<i64 as SheetRawCellSerde>::deserialize(cell("-9223372036854775808")), Ok(i64::MIN));
    assert_eq!(<u64 as SheetRawCellSerde>::deserialize(cell("18446744073709551615")), Ok(u64::MAX));
    assert_eq!(<u8 as SheetRawCellSerde>::deserialize(cell("255")), Ok(255));
    assert_eq!(<i8 as SheetRawCellSerde>::deserialize(cell("-128")), Ok(-128));
    assert_eq!(<i16 as SheetRawCellSerde>::deserialize(cell("007")), Ok(7));
    assert_eq!(<u16 as SheetRawCellSerde>::deserialize(cell("65535")), Ok(65535));
    assert_eq!(<u32 as SheetRawCellSerde>::deserialize(cell("4294967295")), Ok(u32::MAX));
    assert_eq!(<isize as SheetRawCellSerde>::deserialize(cell("-5")), Ok(-5));
    assert_eq!(<usize as SheetRawCellSerde>::deserialize(cell("5")), Ok(5));
    assert_eq!(<usize as SheetRawCellSerde>::deserialize(cell("-5")), Err(CellParsingError));
}

#[test]
fn malformed_integers_are_errors() {
    for bad in ["", "+", "-", "1.5", " 1", "1 ", "12a", "0x10"] {
        assert_eq!(<i32 as SheetRawCellSerde>::deserialize(cell(bad)), Err(CellParsingError));
    }
    assert_eq!(<u8 as SheetRawCellSerde>::deserialize(cell("256")), Err(CellParsingError));
    assert_eq!(<u8 as SheetRawCellSerde>::deserialize(cell("-0")), Err(CellParsingError));
    assert_eq!(<i8 as SheetRawCellSerde>::deserialize(cell("128")), Err(CellParsingError));
    assert_eq!(
        <u64 as SheetRawCellSerde>::deserialize(cell("18446744073709551616")),
        Err(CellParsingError)
    );
    assert_eq!(
        <i64 as SheetRawCellSerde>::deserialize(cell("-9223372036854775809")),
        Err(CellParsingError)
    );
}

#[test]
fn integers_agree_with_std_parsing() {
    for t in ["0", "-0", "+0", "123", "-123", "2147483647", "-2147483648", "2147483648", "x"] {
        assert_eq!(<i32 as SheetRawCellSerde>::deserialize(cell(t)).ok(), t.parse::<i32>().ok());
        assert_eq!(<u32 as SheetRawCellSerde>::deserialize(cell(t)).ok(), t.parse::<u32>().ok());
    }
}

#[test]
fn booleans_strings_and_letters_read() {
    assert_eq!(<bool as SheetRawCellSerde>::deserialize(cell("true")), Ok(true));
    assert_eq!(<bool as SheetRawCellSerde>::deserialize(cell("false")), Ok(false));
    assert_eq!(<bool as SheetRawCellSerde>::deserialize(cell("TRUE")), Err(CellParsingError));
    assert_eq!(<String as SheetRawCellSerde>::deserialize(cell(" as is ")), Ok(" as is ".to_string()));
    let letters = <Letters as SheetRawCellSerde>::deserialize(cell("ab")).unwrap();
    assert_eq!(letters.to_string(), "AB");
    assert!(<Letters as SheetRawCellSerde>::deserialize(cell("a1")).is_err());
}

#[test]
fn optional_values_absorb_bad_text() {
    assert_eq!(<Option<i32> as SheetRawCellSerde>::deserialize(cell("5")), Ok(Some(5)));
    assert_eq!(<Option<i32> as SheetRawCellSerde>::deserialize(cell("")), Ok(None));
    assert_eq!(<Option<i32> as SheetRawCellSerde>::deserialize(cell("five")), Ok(None));
}

#[test]
fn writing_cells() {
    assert_eq!("Joe".to_string().serialize().0, "Joe");
    assert_eq!(Letters::new("AB".to_string()).serialize().0, "AB");
    assert_eq!(Some("x".to_string()).serialize().0, "x");
    assert_eq!(None::<String>.serialize().0, "");
    assert_eq!(<i32 as SheetRawCellSerde>::target_type(), "i32");
    assert_eq!(<i32 as SheetRawCellSerde>::when_absent(), None);
    assert_eq!(<Option<i32> as SheetRawCellSerde>::when_absent(), Some(None));
}

#[test]
fn required_cells_of_a_row() {
    let row: SheetRow = vec![text("7"), text("Joe"), SheetValue::Other("3.5".to_string())];
    assert_eq!(parse_cell::<i32>(&row, 0, "id"), Ok(7));
    assert_eq!(parse_cell::<String>(&row, 1, "name"), Ok("Joe".to_string()));
    assert_eq!(
        parse_cell::<i32>(&row, 1, "id"),
        Err(ParseError::CellDeserializationError {
            column_name: "id",
            target_type: "i32",
            input: "Joe".to_string(),
            row: row.clone(),
        })
    );
    assert_eq!(
        parse_cell::<String>(&row, 2, "score"),
        Err(ParseError::JsonValueToStringError(SheetValue::Other("3.5".to_string())))
    );
}

#[test]
fn short_row_misses_required_field_but_not_optional() {
    let row: SheetRow = vec![text("1")];
    assert_eq!(
        parse_cell::<String>(&row, 1, "name"),
        Err(ParseError::FieldIsMissing { column_name: "name", row: row.clone() })
    );
    assert_eq!(parse_optional_cell::<String>(&row, 1), None);
    assert_eq!(parse_cell::<Option<String>>(&row, 1, "name"), Ok(None));
    assert_eq!(parse_cell::<Option<i32>>(&row, 0, "id"), Ok(Some(1)));
    assert_eq!(parse_optional_cell::<i32>(&row, 0), Some(1));
    let messy: SheetRow = vec![text("n/a"), SheetValue::Other("null".to_string())];
    assert_eq!(parse_optional_cell::<i32>(&messy, 0), None);
    assert_eq!(parse_optional_cell::<i32>(&messy, 1), None);
}

#[test]
fn option_wire_names() {
    assert_eq!(MajorDimension::Rows.as_str(), "ROWS");
    assert_eq!(MajorDimension::Columns.as_str(), "COLUMNS");
    assert_eq!(InputMode::Raw.as_str(), "RAW");
    assert_eq!(InputMode::UserEntered.as_str(), "USER_ENTERED");
    assert_eq!(ValueRenderOption::FormattedValue.as_str(), "FORMATTED_VALUE");
    assert_eq!(ValueRenderOption::UnformattedValue.as_str(), "UNFORMATTED_VALUE");
    assert_eq!(ValueRenderOption::Formula.as_str(), "FORMULA");
}

use sheets_orm::date::{parse_serial_days, CalendarDate, SheetInstant, SpreadSheetDateTime};

#[test]
fn calendar_dates_read_from_iso_text() {
    assert_eq!(
        <CalendarDate as SheetRawCellSerde>::deserialize(cell("2015-09-18")),
        Ok(CalendarDate { year: 2015, month: 9, day: 18 })
    );
    assert_eq!(<CalendarDate as SheetRawCellSerde>::deserialize(cell("foo")), Err(CellParsingError));
    assert_eq!(
        <CalendarDate as SheetRawCellSerde>::deserialize(cell("2015-02-30")),
        Err(CellParsingError)
    );
}

#[test]
fn instants_read_from_rfc3339_text() {
    assert_eq!(
        <SheetInstant as SheetRawCellSerde>::deserialize(cell("2012-12-12T12:12:12Z")),
        Ok(SheetInstant { seconds: 1355314332, nanos: 0 })
    );
    assert_eq!(
        <SheetInstant as SheetRawCellSerde>::deserialize(cell("2012-12-12 13:12:12.5+01:00")),
        Ok(SheetInstant { seconds: 1355314332, nanos: 500_000_000 })
    );
    assert_eq!(<SheetInstant as SheetRawCellSerde>::deserialize(cell("noon")), Err(CellParsingError));
}

#[test]
fn serial_zero_is_the_spreadsheet_epoch() {
    let epoch = SpreadSheetDateTime::from_days(0).unwrap();
    assert_eq!(epoch.date(), CalendarDate { year: 1899, month: 12, day: 30 });
    assert_eq!(epoch.to_raw(), 0);
    let later = SpreadSheetDateTime::from_days(45000).unwrap();
    assert_eq!(later.date(), CalendarDate { year: 2023, month: 3, day: 15 });
    assert_eq!(SpreadSheetDateTime::from_days(1).unwrap().date().day, 31);
    assert!(SpreadSheetDateTime::from_days(i64::MAX).is_none());
    assert!(SpreadSheetDateTime::from_days(100_000_000).is_none());
}

#[test]
fn serial_numerals_round_down_to_whole_days() {
    assert_eq!(parse_serial_days("45000"), Some(45000));
    assert_eq!(parse_serial_days("45000.75"), Some(45000));
    assert_eq!(parse_serial_days("45000."), Some(45000));
    assert_eq!(parse_serial_days("-1.5"), Some(-2));
    assert_eq!(parse_serial_days("-1.0"), Some(-1));
    assert_eq!(parse_serial_days("-0.25"), Some(-1));
    assert_eq!(parse_serial_days("1e3"), None);
    assert_eq!(parse_serial_days("1.2.3"), None);
    assert_eq!(parse_serial_days(".5"), None);
    let t = <SpreadSheetDateTime as SheetRawCellSerde>::deserialize(cell("-1.5")).unwrap();
    assert_eq!(t.date(), CalendarDate { year: 1899, month: 12, day: 28 });
    assert_eq!(t.to_raw(), -2);
    assert!(<SpreadSheetDateTime as SheetRawCellSerde>::deserialize(cell("soon")).is_err());
}
