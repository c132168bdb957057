//! Dates and instants read from cells, including the spreadsheet's own
//! date serials (days since 1899-12-30).
use vstd::prelude::*;

use chrono::Datelike;

use crate::decimal::{all_digits, integer_text_value, parse_integer};
use crate::sheet_cell::{CellParsingError, SheetRawCell, SheetRawCellSerde};
use crate::text::{after_sole, before_sole, find_sole, has_sole, lemma_sole_unique, sole_position};

verus! {

/// The date that text names in chrono's `%Y-%m-%d` form, as
/// `(year, month, day)`.
pub uninterp spec fn parsed_date(s: Seq<char>) -> Option<(int, int, int)>;

/// The date numbered `n` in the proleptic Gregorian calendar, January 1 of
/// year 1 being day 1, as `(year, month, day)`.
pub uninterp spec fn ce_date(n: int) -> Option<(int, int, int)>;

/// The instant that RFC 3339 text names, as seconds since the Unix epoch
/// and nanoseconds within the second.
pub uninterp spec fn parsed_instant(s: Seq<char>) -> Option<(int, int)>;

/// A day of the proleptic Gregorian calendar.
#[derive(Debug, Clone, Copy, PartialEq, Eq, Structural)]
pub struct CalendarDate {
    pub year: i32,
    pub month: u32,
    pub day: u32,
}

/// The year, month and day of a date.
pub open spec fn ymd(d: CalendarDate) -> (int, int, int) {
    (d.year as int, d.month as int, d.day as int)
}

/// A leap year of the Gregorian calendar.
pub open spec fn is_leap_year(y: int) -> bool {
    (y % 4 == 0 && y % 100 != 0) || y % 400 == 0
}

/// The number of days of month `m` of year `y`.
pub open spec fn days_in_month(y: int, m: int) -> int {
    if m == 2 {
        if is_leap_year(y) {
            29
        } else {
            28
        }
    } else if m == 4 || m == 6 || m == 9 || m == 11 {
        30
    } else {
        31
    }
}

/// A date that exists in the calendar.
pub open spec fn is_valid_date(d: CalendarDate) -> bool {
    1 <= d.month <= 12 && 1 <= d.day <= days_in_month(d.year as int, d.month as int)
}

/// Relies on `chrono::NaiveDate`'s `FromStr`: the date that `%Y-%m-%d` text
/// names; chrono's dates always exist in the calendar.
#[verifier::external_body]
fn parse_naive_date(s: &str) -> (r: Option<CalendarDate>)
    ensures
        r is Some <==> parsed_date(s@) is Some,
        r matches Some(d) ==> parsed_date(s@) == Some(ymd(d)) && is_valid_date(d),
{
    match s.parse::<chrono::NaiveDate>() {
        Ok(d) => Some(CalendarDate { year: d.year(), month: d.month(), day: d.day() }),
        Err(_) => None,
    }
}

/// Relies on `chrono::NaiveDate::from_num_days_from_ce_opt`: the date with
/// day number `n`, if within chrono's range.
#[verifier::external_body]
fn date_from_ce_days(n: i32) -> (r: Option<CalendarDate>)
    ensures
        r is Some <==> ce_date(n as int) is Some,
        r matches Some(d) ==> ce_date(n as int) == Some(ymd(d)) && is_valid_date(d),
{
    match chrono::NaiveDate::from_num_days_from_ce_opt(n) {
        Some(d) => Some(CalendarDate { year: d.year(), month: d.month(), day: d.day() }),
        None => None,
    }
}

/// Relies on `chrono::DateTime<Utc>`'s `FromStr` (RFC 3339, converted to
/// UTC): the instant as Unix seconds and nanoseconds.
#[verifier::external_body]
fn parse_instant(s: &str) -> (r: Option<SheetInstant>)
    ensures
        r is Some <==> parsed_instant(s@) is Some,
        r matches Some(t) ==> parsed_instant(s@) == Some((t.seconds as int, t.nanos as int)),
{
    match s.parse::<chrono::DateTime<chrono::Utc>>() {
        Ok(t) => Some(SheetInstant { seconds: t.timestamp(), nanos: t.timestamp_subsec_nanos() }),
        Err(_) => None,
    }
}

impl SheetRawCellSerde for CalendarDate {
    open spec fn target_name() -> Seq<char> {
        "CalendarDate"@
    }

    fn target_type() -> (r: &'static str) {
        "CalendarDate"
    }

    open spec fn absent_value() -> Option<Self> {
        None
    }

    fn when_absent() -> (r: Option<Self>) {
        None
    }

    open spec fn decodable(text: Seq<char>) -> bool {
        parsed_date(text) is Some
    }

    open spec fn decodes(text: Seq<char>, v: CalendarDate) -> bool {
        parsed_date(text) == Some(ymd(v))
    }

    open spec fn writes_cells() -> bool {
        false
    }

    open spec fn written_text(v: CalendarDate) -> Seq<char> {
        Seq::empty()
    }

    fn serialize(&self) -> (r: SheetRawCell) {
        SheetRawCell(String::new())
    }

    fn deserialize(cell: SheetRawCell) -> (r: Result<CalendarDate, CellParsingError>) {
        match parse_naive_date(cell.0.as_str()) {
            Some(d) => Ok(d),
            None => Err(CellParsingError),
        }
    }
}

/// An instant in UTC: seconds since 1970-01-01T00:00:00Z and nanoseconds
/// within the second.
#[derive(Debug, Clone, Copy, PartialEq, Eq, Structural)]
pub struct SheetInstant {
    pub seconds: i64,
    pub nanos: u32,
}

impl SheetRawCellSerde for SheetInstant {
    open spec fn target_name() -> Seq<char> {
        "SheetInstant"@
    }

    fn target_type() -> (r: &'static str) {
        "SheetInstant"
    }

    open spec fn absent_value() -> Option<Self> {
        None
    }

    fn when_absent() -> (r: Option<Self>) {
        None
    }

    open spec fn decodable(text: Seq<char>) -> bool {
        parsed_instant(text) is Some
    }

    open spec fn decodes(text: Seq<char>, v: SheetInstant) -> bool {
        parsed_instant(text) == Some((v.seconds as int, v.nanos as int))
    }

    open spec fn writes_cells() -> bool {
        false
    }

    open spec fn written_text(v: SheetInstant) -> Seq<char> {
        Seq::empty()
    }

    fn serialize(&self) -> (r: SheetRawCell) {
        SheetRawCell(String::new())
    }

    fn deserialize(cell: SheetRawCell) -> (r: Result<SheetInstant, CellParsingError>) {
        match parse_instant(cell.0.as_str()) {
            Some(t) => Ok(t),
            None => Err(CellParsingError),
        }
    }
}

/// The day number (January 1 of year 1 being day 1) of 1899-12-30, the day
/// that date serial 0 stands for.
pub const SERIAL_EPOCH_CE_DAYS: i64 = 693594;

/// The date that date serial `days` stands for.
pub open spec fn serial_date(days: int) -> Option<(int, int, int)> {
    if i32::MIN <= days + SERIAL_EPOCH_CE_DAYS <= i32::MAX {
        ce_date(days + SERIAL_EPOCH_CE_DAYS)
    } else {
        None
    }
}

/// Some digit is not zero.
pub open spec fn has_nonzero_digit(s: Seq<char>) -> bool {
    exists|i: int| 0 <= i < s.len() && s[i] != '0'
}

/// The whole days of a serial written as a decimal numeral (an integer
/// with an optional fraction after one `.`), rounded down.
pub open spec fn serial_days_of(s: Seq<char>) -> Option<int> {
    if has_sole(s, '.') {
        let ip = before_sole(s, '.');
        let fp = after_sole(s, '.');
        if all_digits(fp) && integer_text_value(ip, true) is Some {
            let n = integer_text_value(ip, true)->0;
            if ip.len() > 0 && ip[0] == '-' && has_nonzero_digit(fp) {
                Some(n - 1)
            } else {
                Some(n)
            }
        } else {
            None
        }
    } else {
        integer_text_value(s, true)
    }
}

/// A date of the spreadsheet's own date serials: the whole days since
/// 1899-12-30. Its view is that day count.
#[derive(Debug, Clone, Copy, PartialEq, Eq)]
pub struct SpreadSheetDateTime {
    days: i64,
    date: CalendarDate,
}

impl View for SpreadSheetDateTime {
    type V = int;

    closed spec fn view(&self) -> int {
        self.days as int
    }
}

impl SpreadSheetDateTime {
    #[verifier::type_invariant]
    spec fn inv(self) -> bool {
        serial_date(self.days as int) == Some(ymd(self.date)) && is_valid_date(self.date)
    }

    /// The date `days` whole days after 1899-12-30; `None` beyond the range
    /// of dates.
    pub fn from_days(days: i64) -> (r: Option<SpreadSheetDateTime>)
        ensures
            r is Some <==> serial_date(days as int) is Some,
            r matches Some(t) ==> t@ == days,
    {
        if days < i32::MIN as i64 - SERIAL_EPOCH_CE_DAYS || days > i32::MAX as i64
            - SERIAL_EPOCH_CE_DAYS {
            return None;
        }
        match date_from_ce_days((days + SERIAL_EPOCH_CE_DAYS) as i32) {
            Some(date) => Some(SpreadSheetDateTime { days, date }),
            None => None,
        }
    }

    /// The date serial: whole days since 1899-12-30.
    pub fn to_raw(&self) -> (r: i64)
        ensures
            r == self@,
    {
        self.days
    }

    /// The calendar date.
    pub fn date(&self) -> (r: CalendarDate)
        ensures
            serial_date(self@) == Some(ymd(r)),
            is_valid_date(r),
    {
        proof {
            use_type_invariant(self);
        }
        self.date
    }
}

/// Reads the whole days of a date serial written as a decimal numeral,
/// rounding down: `"45000.75"` gives 45000 and `"-1.5"` gives -2. Only
/// plain numerals are read: an exponent (`"1e3"`), a missing integer part
/// (`".5"`), or special values such as `"inf"` give `None`.
pub fn parse_serial_days(s: &str) -> (r: Option<i64>)
    ensures
        r is Some <==> (serial_days_of(s@) matches Some(n) && i64::MIN <= n <= i64::MAX),
        r matches Some(n) ==> serial_days_of(s@) == Some(n as int),
{
    let p = match find_sole(s, '.') {
        None => {
            return match parse_integer(s, true, i64::MIN as i128, i64::MAX as i128) {
                Some(n) => Some(n as i64),
                None => None,
            };
        },
        Some(p) => p,
    };
    proof {
        lemma_sole_unique(s@, '.', p as int, sole_position(s@, '.'));
    }
    let len = s.unicode_len();
    let ip = s.substring_char(0, p);
    let fp = s.substring_char(p + 1, len);
    let flen = fp.unicode_len();
    assert(ip@ == before_sole(s@, '.'));
    assert(fp@ == after_sole(s@, '.'));
    let mut nonzero = false;
    let mut j: usize = 0;
    while j < flen
        invariant
            flen == fp@.len(),
            fp@ == after_sole(s@, '.'),
            has_sole(s@, '.'),
            0 <= j <= flen,
            forall|i: int| 0 <= i < j ==> crate::decimal::is_digit(#[trigger] fp@[i]),
            nonzero == exists|i: int| 0 <= i < j && fp@[i] != '0',
        decreases flen - j,
    {
        let c = fp.get_char(j);
        if !('0' <= c && c <= '9') {
            proof {
                assert(!all_digits(fp@));
            }
            return None;
        }
        if c != '0' {
            nonzero = true;
        }
        j = j + 1;
    }
    let negative = p > 0 && s.get_char(0) == '-';
    proof {
        if p > 0 {
            assert(ip@[0] == s@[0]);
        }
        assert(nonzero == has_nonzero_digit(fp@));
        if ip@.len() > 0 && ip@[0] == '-' && ip@.drop_first().len() > 0 && all_digits(
            ip@.drop_first(),
        ) {
            crate::decimal::lemma_decimal_nonneg(ip@.drop_first());
        }
    }
    match parse_integer(ip, true, i64::MIN as i128, i64::MAX as i128) {
        None => None,
        Some(n) => {
            if negative && nonzero {
                if n == i64::MIN as i128 {
                    None
                } else {
                    Some((n - 1) as i64)
                }
            } else {
                Some(n as i64)
            }
        },
    }
}

impl SheetRawCellSerde for SpreadSheetDateTime {
    open spec fn target_name() -> Seq<char> {
        "SpreadSheetDateTime"@
    }

    fn target_type() -> (r: &'static str) {
        "SpreadSheetDateTime"
    }

    open spec fn absent_value() -> Option<Self> {
        None
    }

    fn when_absent() -> (r: Option<Self>) {
        None
    }

    open spec fn decodable(text: Seq<char>) -> bool {
        &&& serial_days_of(text) matches Some(n)
        &&& i64::MIN <= n <= i64::MAX
        &&& serial_date(n) is Some
    }

    open spec fn decodes(text: Seq<char>, v: SpreadSheetDateTime) -> bool {
        serial_days_of(text) == Some(v@)
    }

    open spec fn writes_cells() -> bool {
        false
    }

    open spec fn written_text(v: SpreadSheetDateTime) -> Seq<char> {
        Seq::empty()
    }

    fn serialize(&self) -> (r: SheetRawCell) {
        SheetRawCell(String::new())
    }

    fn deserialize(cell: SheetRawCell) -> (r: Result<SpreadSheetDateTime, CellParsingError>) {
        match parse_serial_days(cell.0.as_str()) {
            Some(days) => match SpreadSheetDateTime::from_days(days) {
                Some(t) => Ok(t),
                None => Err(CellParsingError),
            },
            None => Err(CellParsingError),
        }
    }
}

} // verus!
