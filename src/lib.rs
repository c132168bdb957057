//! Typed access to cell-addressed spreadsheet grids: A1 addressing,
//! per-cell and per-row value codecs, and positional entities.
pub mod cell_id;
pub mod cell_range;
pub mod column;
pub mod date;
pub mod decimal;
pub mod entity;
pub mod letters;
pub mod num_range;
pub mod options;
pub mod range;
pub mod repository;
pub mod sheet_cell;
pub mod sheet_row;
pub mod text;
