use vstd::prelude::*;

use crate::cell::{calendar_date, is_calendar_date, valid_date, Cell, Date};
use crate::error::{outcome, Expected, Failure, QueryError};

verus! {

/// Where a data row keeps its date.
#[derive(Clone, Copy, Debug, PartialEq, Eq, Structural)]
pub enum DateColumns {
    /// One column holding a date/time value.
    Single { index: usize },
    /// Three numeric columns holding day, month and year.
    Split { day: usize, month: usize, year: usize },
}

/// The text at column `col` of a row, which must be a text cell.
pub open spec fn text_in(row: Seq<Cell>, col: usize) -> Result<Seq<char>, Failure> {
    if col >= row.len() {
        Err(Failure::MissingColumn { index: col })
    } else {
        match row[col as int] {
            Cell::Text(s) => Ok(s@),
            c => Err(Failure::TypeMismatch { expected: Expected::Text, actual: c.spec_kind(), index: col }),
        }
    }
}

/// The integer at column `col` of a row, which must be a numeric cell.
pub open spec fn number_in(row: Seq<Cell>, col: usize) -> Result<i64, Failure> {
    if col >= row.len() {
        Err(Failure::MissingColumn { index: col })
    } else {
        match row[col as int].integer() {
            Ok(i) => Ok(i),
            Err(k) => Err(Failure::TypeMismatch { expected: Expected::Number, actual: k, index: col }),
        }
    }
}

/// The date at column `col` of a row, which must be a date/time cell.
pub open spec fn date_in(row: Seq<Cell>, col: usize) -> Result<Date, Failure> {
    if col >= row.len() {
        Err(Failure::MissingColumn { index: col })
    } else {
        match row[col as int].date() {
            Ok(d) => Ok(d),
            Err(k) => Err(Failure::TypeMismatch { expected: Expected::Date, actual: k, index: col }),
        }
    }
}

/// The date of a data row under either layout. Under the split layout the
/// three numbers must name an existing day; otherwise the day column is
/// blamed.
pub open spec fn row_date(row: Seq<Cell>, cols: DateColumns) -> Result<Date, Failure> {
    match cols {
        DateColumns::Single { index } => date_in(row, index),
        DateColumns::Split { day, month, year } => match (
            number_in(row, day),
            number_in(row, month),
            number_in(row, year),
        ) {
            (Err(f), _, _) => Err(f),
            (Ok(_), Err(f), _) => Err(f),
            (Ok(_), Ok(_), Err(f)) => Err(f),
            (Ok(d), Ok(m), Ok(y)) => if is_calendar_date(y as int, m as int, d as int) {
                Ok(Date { year: y as i32, month: m as u32, day: d as u32 })
            } else {
                Err(
                    Failure::TypeMismatch {
                        expected: Expected::Date,
                        actual: row[day as int].spec_kind(),
                        index: day,
                    },
                )
            },
        },
    }
}

/// The cell at column `col`, or `MissingColumn` for a short row.
pub fn cell_at(row: &Vec<Cell>, col: usize) -> (r: Result<&Cell, QueryError>)
    ensures
        col < row@.len() <==> r is Ok,
        r matches Ok(c) ==> *c == row@[col as int],
        r matches Err(e) ==> e@ == (Failure::MissingColumn { index: col }),
{
    if col < row.len() {
        Ok(&row[col])
    } else {
        Err(QueryError::MissingColumn { index: col })
    }
}

/// The text of the text cell at column `col`.
pub fn text_at(row: &Vec<Cell>, col: usize) -> (r: Result<String, QueryError>)
    ensures
        match r {
            Ok(s) => text_in(row@, col) == Ok::<Seq<char>, Failure>(s@),
            Err(e) => text_in(row@, col) == Err::<Seq<char>, Failure>(e@),
        },
{
    let c = cell_at(row, col)?;
    match c.as_text() {
        Ok(s) => Ok(s),
        Err(k) => Err(QueryError::TypeMismatch { expected: Expected::Text, actual: k, index: col }),
    }
}

/// The integer of the numeric cell at column `col`.
pub fn number_at(row: &Vec<Cell>, col: usize) -> (r: Result<i64, QueryError>)
    ensures
        outcome(r) == number_in(row@, col),
{
    let c = cell_at(row, col)?;
    match c.as_integer() {
        Ok(i) => Ok(i),
        Err(k) => Err(QueryError::TypeMismatch { expected: Expected::Number, actual: k, index: col }),
    }
}

/// The date of the date/time cell at column `col`.
pub fn date_at(row: &Vec<Cell>, col: usize) -> (r: Result<Date, QueryError>)
    ensures
        outcome(r) == date_in(row@, col),
{
    let c = cell_at(row, col)?;
    match c.as_date() {
        Ok(d) => Ok(d),
        Err(k) => Err(QueryError::TypeMismatch { expected: Expected::Date, actual: k, index: col }),
    }
}

/// The display text of the cell at column `col`.
pub fn display_at(row: &Vec<Cell>, col: usize) -> (r: Result<String, QueryError>)
    ensures
        col < row@.len() <==> r is Ok,
        r matches Ok(s) ==> s@ == row@[col as int].display(),
        r matches Err(e) ==> e@ == (Failure::MissingColumn { index: col }),
{
    let c = cell_at(row, col)?;
    Ok(c.as_display_string())
}

/// The date of a data row under the given layout.
pub fn date_of_row(row: &Vec<Cell>, cols: DateColumns) -> (r: Result<Date, QueryError>)
    ensures
        outcome(r) == row_date(row@, cols),
        r matches Ok(d) ==> valid_date(d),
{
    match cols {
        DateColumns::Single { index } => date_at(row, index),
        DateColumns::Split { day, month, year } => {
            let d = number_at(row, day)?;
            let m = number_at(row, month)?;
            let y = number_at(row, year)?;
            match calendar_date(y, m, d) {
                Some(date) => Ok(date),
                None => Err(
                    QueryError::TypeMismatch {
                        expected: Expected::Date,
                        actual: row[day].kind(),
                        index: day,
                    },
                ),
            }
        },
    }
}

} // verus!
