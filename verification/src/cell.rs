//! Heterogeneous cell values and their display text.
//!
//! A cell is a tagged variant — empty, text, integer, floating-point number,
//! boolean, or error — with one rendering operation per variant. The library
//! keeps no floating-point arithmetic: a floating-point cell carries the
//! decimal text its producer rendered for it, and the renderer emits that
//! text verbatim.

use crate::text::{push_char, spec_decimal, u64_to_string};
use vstd::prelude::*;
use vstd::string::StringExecFns;

verus! {

/// One cell of a sheet grid.
pub enum Cell {
    /// An empty cell; displays as the empty string.
    Empty,
    /// Text; displays verbatim.
    Text(String),
    /// An integer; displays as signed decimal without grouping.
    Int(i64),
    /// A floating-point number, carried as the decimal text its producer
    /// rendered for it; displays verbatim.
    Float(String),
    /// A boolean; displays as the literal word `true` or `false`.
    Bool(bool),
    /// A spreadsheet error; displays as its error token, carried verbatim.
    Error(String),
}

/// The decimal rendering of an integer: a minus sign for negative values,
/// then the digits of the magnitude.
pub open spec fn spec_int_text(n: int) -> Seq<char> {
    if n >= 0 {
        spec_decimal(n as nat)
    } else {
        seq!['-'] + spec_decimal((-n) as nat)
    }
}

/// The display text of a cell value.
pub open spec fn spec_cell_text(c: Cell) -> Seq<char> {
    match c {
        Cell::Empty => Seq::empty(),
        Cell::Text(s) => s@,
        Cell::Int(n) => spec_int_text(n as int),
        Cell::Float(s) => s@,
        Cell::Bool(b) => if b {
            "true"@
        } else {
            "false"@
        },
        Cell::Error(s) => s@,
    }
}

/// Formats `n` as signed decimal text.
pub fn i64_to_string(n: i64) -> (r: String)
    ensures
        r@ == spec_int_text(n as int),
{
    if n >= 0 {
        u64_to_string(n as u64)
    } else {
        let mag: u64 = if n == i64::MIN {
            9223372036854775808u64
        } else {
            (-n) as u64
        };
        let mut s = String::new();
        push_char(&mut s, '-');
        let digits = u64_to_string(mag);
        s.append(digits.as_str());
        proof {
            assert(s@ =~= seq!['-'] + spec_decimal(mag as nat));
        }
        s
    }
}

impl Cell {
    /// The human-readable display text of this cell.
    pub fn display(&self) -> (r: String)
        ensures
            r@ == spec_cell_text(*self),
    {
        match self {
            Cell::Empty => String::new(),
            Cell::Text(s) => s.clone(),
            Cell::Int(n) => i64_to_string(*n),
            Cell::Float(s) => s.clone(),
            Cell::Bool(b) => if *b {
                "true".to_owned()
            } else {
                "false".to_owned()
            },
            Cell::Error(s) => s.clone(),
        }
    }
}

} // verus!
