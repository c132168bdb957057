//! Converting one raw cell text to and from a typed value.
use vstd::prelude::*;

use crate::column::{letters_of, rank_of};
use crate::decimal::{integer_text_in, integer_text_value, parse_integer, text_equals};
use crate::letters::{is_ascii_letter, upper_seq, Letters};

verus! {

/// The text of one cell as the spreadsheet holds it.
#[derive(Debug, Clone)]
pub struct SheetRawCell(pub String);

/// A cell's text does not stand for a value of the wanted type.
#[derive(Debug, Clone, Copy, PartialEq, Eq, Structural)]
pub struct CellParsingError;

/// A type whose values are read from (and, where the type opts in, written
/// to) the text of one cell.
pub trait SheetRawCellSerde: Sized {
    /// Cell text `text` stands for some value of the type.
    spec fn decodable(text: Seq<char>) -> bool;

    /// Cell text `text` stands for value `v`.
    spec fn decodes(text: Seq<char>, v: Self) -> bool;

    /// The type opts in to writing cells.
    spec fn writes_cells() -> bool;

    /// The cell text that `v` is written as.
    spec fn written_text(v: Self) -> Seq<char>;

    /// The name of the type, for messages.
    spec fn target_name() -> Seq<char>;

    /// The name of the type, for messages.
    fn target_type() -> (r: &'static str)
        ensures
            r@ == Self::target_name(),
    ;

    /// The value a field of this type takes when its row has no cell for
    /// it; `None` for a type whose fields are required.
    spec fn absent_value() -> Option<Self>;

    /// The value a field of this type takes when its row has no cell for it.
    fn when_absent() -> (r: Option<Self>)
        ensures
            r == Self::absent_value(),
    ;

    /// Writes the value as cell text; only for types that opt in.
    fn serialize(&self) -> (r: SheetRawCell)
        requires
            Self::writes_cells(),
        ensures
            r.0@ == Self::written_text(*self),
    ;

    /// Reads the value that cell text stands for.
    fn deserialize(cell: SheetRawCell) -> (r: Result<Self, CellParsingError>)
        ensures
            r is Ok <==> Self::decodable(cell.0@),
            r matches Ok(v) ==> Self::decodes(cell.0@, v),
    ;
}

impl SheetRawCellSerde for String {
    open spec fn target_name() -> Seq<char> {
        "String"@
    }

    fn target_type() -> (r: &'static str) {
        "String"
    }

    open spec fn absent_value() -> Option<Self> {
        None
    }

    fn when_absent() -> (r: Option<Self>) {
        None
    }

    open spec fn decodable(text: Seq<char>) -> bool {
        true
    }

    open spec fn decodes(text: Seq<char>, v: String) -> bool {
        v@ == text
    }

    open spec fn writes_cells() -> bool {
        true
    }

    open spec fn written_text(v: String) -> Seq<char> {
        v@
    }

    fn serialize(&self) -> (r: SheetRawCell) {
        SheetRawCell(self.clone())
    }

    fn deserialize(cell: SheetRawCell) -> (r: Result<String, CellParsingError>) {
        Ok(cell.0)
    }
}

impl SheetRawCellSerde for bool {
    open spec fn target_name() -> Seq<char> {
        "bool"@
    }

    fn target_type() -> (r: &'static str) {
        "bool"
    }

    open spec fn absent_value() -> Option<Self> {
        None
    }

    fn when_absent() -> (r: Option<Self>) {
        None
    }

    open spec fn decodable(text: Seq<char>) -> bool {
        text == "true"@ || text == "false"@
    }

    open spec fn decodes(text: Seq<char>, v: bool) -> bool {
        v == (text == "true"@)
    }

    open spec fn writes_cells() -> bool {
        false
    }

    open spec fn written_text(v: bool) -> Seq<char> {
        Seq::empty()
    }

    fn serialize(&self) -> (r: SheetRawCell) {
        SheetRawCell(String::new())
    }

    fn deserialize(cell: SheetRawCell) -> (r: Result<bool, CellParsingError>) {
        if text_equals(cell.0.as_str(), "true") {
            Ok(true)
        } else if text_equals(cell.0.as_str(), "false") {
            Ok(false)
        } else {
            Err(CellParsingError)
        }
    }
}

impl SheetRawCellSerde for Letters {
    open spec fn target_name() -> Seq<char> {
        "Letters"@
    }

    fn target_type() -> (r: &'static str) {
        "Letters"
    }

    open spec fn absent_value() -> Option<Self> {
        None
    }

    fn when_absent() -> (r: Option<Self>) {
        None
    }

    open spec fn decodable(text: Seq<char>) -> bool {
        &&& text.len() > 0
        &&& forall|i: int| 0 <= i < text.len() ==> is_ascii_letter(#[trigger] text[i])
        &&& rank_of(upper_seq(text)) <= u32::MAX
    }

    open spec fn decodes(text: Seq<char>, v: Letters) -> bool {
        v@ == rank_of(upper_seq(text))
    }

    open spec fn writes_cells() -> bool {
        true
    }

    open spec fn written_text(v: Letters) -> Seq<char> {
        letters_of(v@)
    }

    fn serialize(&self) -> (r: SheetRawCell) {
        SheetRawCell(self.to_string())
    }

    fn deserialize(cell: SheetRawCell) -> (r: Result<Letters, CellParsingError>) {
        match Letters::parse(cell.0.as_str()) {
            Ok(l) => Ok(l),
            Err(_) => Err(CellParsingError),
        }
    }
}

/// An optional value never fails to read: text that does not stand for a
/// value of `T` (an empty cell among others) reads as `None`.
impl<T: SheetRawCellSerde> SheetRawCellSerde for Option<T> {
    open spec fn target_name() -> Seq<char> {
        "Option"@
    }

    fn target_type() -> (r: &'static str) {
        "Option"
    }

    open spec fn absent_value() -> Option<Self> {
        Some(None)
    }

    fn when_absent() -> (r: Option<Self>) {
        Some(None)
    }

    open spec fn decodable(text: Seq<char>) -> bool {
        true
    }

    open spec fn decodes(text: Seq<char>, v: Option<T>) -> bool {
        match v {
            Some(x) => T::decodable(text) && T::decodes(text, x),
            None => !T::decodable(text),
        }
    }

    open spec fn writes_cells() -> bool {
        T::writes_cells()
    }

    open spec fn written_text(v: Option<T>) -> Seq<char> {
        match v {
            Some(x) => T::written_text(x),
            None => Seq::empty(),
        }
    }

    fn serialize(&self) -> (r: SheetRawCell) {
        match self {
            Some(x) => x.serialize(),
            None => SheetRawCell(String::new()),
        }
    }

    fn deserialize(cell: SheetRawCell) -> (r: Result<Option<T>, CellParsingError>) {
        match T::deserialize(cell) {
            Ok(x) => Ok(Some(x)),
            Err(_) => Ok(None),
        }
    }
}

impl SheetRawCellSerde for i8 {
    open spec fn target_name() -> Seq<char> {
        "i8"@
    }

    fn target_type() -> (r: &'static str) {
        "i8"
    }

    open spec fn absent_value() -> Option<Self> {
        None
    }

    fn when_absent() -> (r: Option<Self>) {
        None
    }

    open spec fn decodable(text: Seq<char>) -> bool {
        integer_text_in(text, true, i8::MIN as int, i8::MAX as int)
    }

    open spec fn decodes(text: Seq<char>, v: i8) -> bool {
        integer_text_value(text, true) == Some(v as int)
    }

    open spec fn writes_cells() -> bool {
        false
    }

    open spec fn written_text(v: i8) -> Seq<char> {
        Seq::empty()
    }

    fn serialize(&self) -> (r: SheetRawCell) {
        SheetRawCell(String::new())
    }

    fn deserialize(cell: SheetRawCell) -> (r: Result<i8, CellParsingError>) {
        match parse_integer(cell.0.as_str(), true, i8::MIN as i128, i8::MAX as i128) {
            Some(n) => Ok(n as i8),
            None => Err(CellParsingError),
        }
    }
}

impl SheetRawCellSerde for i16 {
    open spec fn target_name() -> Seq<char> {
        "i16"@
    }

    fn target_type() -> (r: &'static str) {
        "i16"
    }

    open spec fn absent_value() -> Option<Self> {
        None
    }

    fn when_absent() -> (r: Option<Self>) {
        None
    }

    open spec fn decodable(text: Seq<char>) -> bool {
        integer_text_in(text, true, i16::MIN as int, i16::MAX as int)
    }

    open spec fn decodes(text: Seq<char>, v: i16) -> bool {
        integer_text_value(text, true) == Some(v as int)
    }

    open spec fn writes_cells() -> bool {
        false
    }

    open spec fn written_text(v: i16) -> Seq<char> {
        Seq::empty()
    }

    fn serialize(&self) -> (r: SheetRawCell) {
        SheetRawCell(String::new())
    }

    fn deserialize(cell: SheetRawCell) -> (r: Result<i16, CellParsingError>) {
        match parse_integer(cell.0.as_str(), true, i16::MIN as i128, i16::MAX as i128) {
            Some(n) => Ok(n as i16),
            None => Err(CellParsingError),
        }
    }
}

impl SheetRawCellSerde for i32 {
    open spec fn target_name() -> Seq<char> {
        "i32"@
    }

    fn target_type() -> (r: &'static str) {
        "i32"
    }

    open spec fn absent_value() -> Option<Self> {
        None
    }

    fn when_absent() -> (r: Option<Self>) {
        None
    }

    open spec fn decodable(text: Seq<char>) -> bool {
        integer_text_in(text, true, i32::MIN as int, i32::MAX as int)
    }

    open spec fn decodes(text: Seq<char>, v: i32) -> bool {
        integer_text_value(text, true) == Some(v as int)
    }

    open spec fn writes_cells() -> bool {
        false
    }

    open spec fn written_text(v: i32) -> Seq<char> {
        Seq::empty()
    }

    fn serialize(&self) -> (r: SheetRawCell) {
        SheetRawCell(String::new())
    }

    fn deserialize(cell: SheetRawCell) -> (r: Result<i32, CellParsingError>) {
        match parse_integer(cell.0.as_str(), true, i32::MIN as i128, i32::MAX as i128) {
            Some(n) => Ok(n as i32),
            None => Err(CellParsingError),
        }
    }
}

impl SheetRawCellSerde for i64 {
    open spec fn target_name() -> Seq<char> {
        "i64"@
    }

    fn target_type() -> (r: &'static str) {
        "i64"
    }

    open spec fn absent_value() -> Option<Self> {
        None
    }

    fn when_absent() -> (r: Option<Self>) {
        None
    }

    open spec fn decodable(text: Seq<char>) -> bool {
        integer_text_in(text, true, i64::MIN as int, i64::MAX as int)
    }

    open spec fn decodes(text: Seq<char>, v: i64) -> bool {
        integer_text_value(text, true) == Some(v as int)
    }

    open spec fn writes_cells() -> bool {
        false
    }

    open spec fn written_text(v: i64) -> Seq<char> {
        Seq::empty()
    }

    fn serialize(&self) -> (r: SheetRawCell) {
        SheetRawCell(String::new())
    }

    fn deserialize(cell: SheetRawCell) -> (r: Result<i64, CellParsingError>) {
        match parse_integer(cell.0.as_str(), true, i64::MIN as i128, i64::MAX as i128) {
            Some(n) => Ok(n as i64),
            None => Err(CellParsingError),
        }
    }
}

impl SheetRawCellSerde for isize {
    open spec fn target_name() -> Seq<char> {
        "isize"@
    }

    fn target_type() -> (r: &'static str) {
        "isize"
    }

    open spec fn absent_value() -> Option<Self> {
        None
    }

    fn when_absent() -> (r: Option<Self>) {
        None
    }

    open spec fn decodable(text: Seq<char>) -> bool {
        integer_text_in(text, true, isize::MIN as int, isize::MAX as int)
    }

    open spec fn decodes(text: Seq<char>, v: isize) -> bool {
        integer_text_value(text, true) == Some(v as int)
    }

    open spec fn writes_cells() -> bool {
        false
    }

    open spec fn written_text(v: isize) -> Seq<char> {
        Seq::empty()
    }

    fn serialize(&self) -> (r: SheetRawCell) {
        SheetRawCell(String::new())
    }

    fn deserialize(cell: SheetRawCell) -> (r: Result<isize, CellParsingError>) {
        match parse_integer(cell.0.as_str(), true, isize::MIN as i128, isize::MAX as i128) {
            Some(n) => Ok(n as isize),
            None => Err(CellParsingError),
        }
    }
}

impl SheetRawCellSerde for u8 {
    open spec fn target_name() -> Seq<char> {
        "u8"@
    }

    fn target_type() -> (r: &'static str) {
        "u8"
    }

    open spec fn absent_value() -> Option<Self> {
        None
    }

    fn when_absent() -> (r: Option<Self>) {
        None
    }

    open spec fn decodable(text: Seq<char>) -> bool {
        integer_text_in(text, false, u8::MIN as int, u8::MAX as int)
    }

    open spec fn decodes(text: Seq<char>, v: u8) -> bool {
        integer_text_value(text, false) == Some(v as int)
    }

    open spec fn writes_cells() -> bool {
        false
    }

    open spec fn written_text(v: u8) -> Seq<char> {
        Seq::empty()
    }

    fn serialize(&self) -> (r: SheetRawCell) {
        SheetRawCell(String::new())
    }

    fn deserialize(cell: SheetRawCell) -> (r: Result<u8, CellParsingError>) {
        match parse_integer(cell.0.as_str(), false, u8::MIN as i128, u8::MAX as i128) {
            Some(n) => Ok(n as u8),
            None => Err(CellParsingError),
        }
    }
}

impl SheetRawCellSerde for u16 {
    open spec fn target_name() -> Seq<char> {
        "u16"@
    }

    fn target_type() -> (r: &'static str) {
        "u16"
    }

    open spec fn absent_value() -> Option<Self> {
        None
    }

    fn when_absent() -> (r: Option<Self>) {
        None
    }

    open spec fn decodable(text: Seq<char>) -> bool {
        integer_text_in(text, false, u16::MIN as int, u16::MAX as int)
    }

    open spec fn decodes(text: Seq<char>, v: u16) -> bool {
        integer_text_value(text, false) == Some(v as int)
    }

    open spec fn writes_cells() -> bool {
        false
    }

    open spec fn written_text(v: u16) -> Seq<char> {
        Seq::empty()
    }

    fn serialize(&self) -> (r: SheetRawCell) {
        SheetRawCell(String::new())
    }

    fn deserialize(cell: SheetRawCell) -> (r: Result<u16, CellParsingError>) {
        match parse_integer(cell.0.as_str(), false, u16::MIN as i128, u16::MAX as i128) {
            Some(n) => Ok(n as u16),
            None => Err(CellParsingError),
        }
    }
}

impl SheetRawCellSerde for u32 {
    open spec fn target_name() -> Seq<char> {
        "u32"@
    }

    fn target_type() -> (r: &'static str) {
        "u32"
    }

    open spec fn absent_value() -> Option<Self> {
        None
    }

    fn when_absent() -> (r: Option<Self>) {
        None
    }

    open spec fn decodable(text: Seq<char>) -> bool {
        integer_text_in(text, false, u32::MIN as int, u32::MAX as int)
    }

    open spec fn decodes(text: Seq<char>, v: u32) -> bool {
        integer_text_value(text, false) == Some(v as int)
    }

    open spec fn writes_cells() -> bool {
        false
    }

    open spec fn written_text(v: u32) -> Seq<char> {
        Seq::empty()
    }

    fn serialize(&self) -> (r: SheetRawCell) {
        SheetRawCell(String::new())
    }

    fn deserialize(cell: SheetRawCell) -> (r: Result<u32, CellParsingError>) {
        match parse_integer(cell.0.as_str(), false, u32::MIN as i128, u32::MAX as i128) {
            Some(n) => Ok(n as u32),
            None => Err(CellParsingError),
        }
    }
}

impl SheetRawCellSerde for u64 {
    open spec fn target_name() -> Seq<char> {
        "u64"@
    }

    fn target_type() -> (r: &'static str) {
        "u64"
    }

    open spec fn absent_value() -> Option<Self> {
        None
    }

    fn when_absent() -> (r: Option<Self>) {
        None
    }

    open spec fn decodable(text: Seq<char>) -> bool {
        integer_text_in(text, false, u64::MIN as int, u64::MAX as int)
    }

    open spec fn decodes(text: Seq<char>, v: u64) -> bool {
        integer_text_value(text, false) == Some(v as int)
    }

    open spec fn writes_cells() -> bool {
        false
    }

    open spec fn written_text(v: u64) -> Seq<char> {
        Seq::empty()
    }

    fn serialize(&self) -> (r: SheetRawCell) {
        SheetRawCell(String::new())
    }

    fn deserialize(cell: SheetRawCell) -> (r: Result<u64, CellParsingError>) {
        match parse_integer(cell.0.as_str(), false, u64::MIN as i128, u64::MAX as i128) {
            Some(n) => Ok(n as u64),
            None => Err(CellParsingError),
        }
    }
}

impl SheetRawCellSerde for usize {
    open spec fn target_name() -> Seq<char> {
        "usize"@
    }

    fn target_type() -> (r: &'static str) {
        "usize"
    }

    open spec fn absent_value() -> Option<Self> {
        None
    }

    fn when_absent() -> (r: Option<Self>) {
        None
    }

    open spec fn decodable(text: Seq<char>) -> bool {
        integer_text_in(text, false, usize::MIN as int, usize::MAX as int)
    }

    open spec fn decodes(text: Seq<char>, v: usize) -> bool {
        integer_text_value(text, false) == Some(v as int)
    }

    open spec fn writes_cells() -> bool {
        false
    }

    open spec fn written_text(v: usize) -> Seq<char> {
        Seq::empty()
    }

    fn serialize(&self) -> (r: SheetRawCell) {
        SheetRawCell(String::new())
    }

    fn deserialize(cell: SheetRawCell) -> (r: Result<usize, CellParsingError>) {
        match parse_integer(cell.0.as_str(), false, usize::MIN as i128, usize::MAX as i128) {
            Some(n) => Ok(n as usize),
            None => Err(CellParsingError),
        }
    }
}

} // verus!
