//! Options of the spreadsheet service, with their wire names.
use vstd::prelude::*;

verus! {

/// How a grid of values is laid out.
#[derive(Debug, Clone, Copy, PartialEq, Eq, Structural)]
pub enum MajorDimension {
    /// Each inner vector is a row.
    Rows,
    /// Each inner vector is a column.
    Columns,
}

impl MajorDimension {
    /// The wire name: `ROWS` or `COLUMNS`.
    pub fn as_str(&self) -> (r: &'static str)
        ensures
            r@ == (match self {
                MajorDimension::Rows => "ROWS"@,
                MajorDimension::Columns => "COLUMNS"@,
            }),
    {
        match self {
            MajorDimension::Rows => "ROWS",
            MajorDimension::Columns => "COLUMNS",
        }
    }
}

/// How written values are interpreted.
#[derive(Debug, Clone, Copy, PartialEq, Eq, Structural)]
pub enum InputMode {
    /// Values are stored as given.
    Raw,
    /// Values are parsed as if typed into the sheet by a user.
    UserEntered,
}

impl InputMode {
    /// The wire name: `RAW` or `USER_ENTERED`.
    pub fn as_str(&self) -> (r: &'static str)
        ensures
            r@ == (match self {
                InputMode::Raw => "RAW"@,
                InputMode::UserEntered => "USER_ENTERED"@,
            }),
    {
        match self {
            InputMode::Raw => "RAW",
            InputMode::UserEntered => "USER_ENTERED",
        }
    }
}

/// How read values are rendered.
#[derive(Debug, Clone, Copy, PartialEq, Eq, Structural)]
pub enum ValueRenderOption {
    /// Values as formatted in the sheet.
    FormattedValue,
    /// Values as computed, without formatting.
    UnformattedValue,
    /// Formulas instead of their values.
    Formula,
}

impl ValueRenderOption {
    /// The wire name: `FORMATTED_VALUE`, `UNFORMATTED_VALUE` or `FORMULA`.
    pub fn as_str(&self) -> (r: &'static str)
        ensures
            r@ == (match self {
                ValueRenderOption::FormattedValue => "FORMATTED_VALUE"@,
                ValueRenderOption::UnformattedValue => "UNFORMATTED_VALUE"@,
                ValueRenderOption::Formula => "FORMULA"@,
            }),
    {
        match self {
            ValueRenderOption::FormattedValue => "FORMATTED_VALUE",
            ValueRenderOption::UnformattedValue => "UNFORMATTED_VALUE",
            ValueRenderOption::Formula => "FORMULA",
        }
    }
}

/// The identifier of a spreadsheet document.
pub type SheetId = String;

} // verus!
