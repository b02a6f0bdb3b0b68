//! Converts spreadsheet workbook data into directories of pipe-table text
//! artifacts: one rendered table per sheet's values and formulas, a listing of
//! defined names, and — when the workbook embeds a macro project — one file
//! per macro module plus a table of the project's library references.
//!
//! The library holds the pure core: spreadsheet-style column lettering, table
//! rendering, output-layout planning, macro-project extraction, and the
//! conversion orchestration over plain values. Reading a workbook file and
//! touching the filesystem are left to the surrounding program.

pub mod cell;
pub mod column;
pub mod convert;
pub mod grid;
pub mod layout;
pub mod table;
pub mod text;
pub mod vba;
