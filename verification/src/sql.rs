//! The SQLite connection as the verified code sees it: the outside types,
//! the values bound to a statement, and the calls into `rusqlite`.
//!
//! What a statement does to the database, and what a query finds in it, is
//! SQLite's to decide. The functions here that hand statements over bring
//! the outcome back; of an answer they claim only that its tasks were read
//! from rows. Reading a column of a row is a matter of `rusqlite` alone,
//! and is stated.

use crate::task::{is_read_from_row, row_to_task, Task};
use rusqlite::types::{FromSql, ToSql};
use rusqlite::{Connection, Row, Statement};
use vstd::prelude::*;

verus! {

/// `rusqlite::Connection`, carried through verified code as an opaque value.
#[verifier::external_type_specification]
#[verifier::external_body]
pub struct ExConnection(rusqlite::Connection);

/// `rusqlite::Statement`, carried through verified code as an opaque value.
#[verifier::external_type_specification]
#[verifier::external_body]
pub struct ExStatement<'conn>(rusqlite::Statement<'conn>);

/// `rusqlite::Row`, carried through verified code as an opaque value.
#[verifier::external_type_specification]
#[verifier::external_body]
pub struct ExRow<'stmt>(rusqlite::Row<'stmt>);

/// `rusqlite::Error`, carried through verified code as an opaque value.
#[verifier::external_type_specification]
#[verifier::external_body]
pub struct ExError(rusqlite::Error);

/// A value bound to a placeholder of a statement.
pub enum SqlValue {
    Text(String),
    Flag(bool),
}

/// The mathematical content of a [`SqlValue`].
pub enum SqlValueView {
    Text(Seq<char>),
    Flag(bool),
}

impl View for SqlValue {
    type V = SqlValueView;

    open spec fn view(&self) -> SqlValueView {
        match *self {
            SqlValue::Text(s) => SqlValueView::Text(s@),
            SqlValue::Flag(b) => SqlValueView::Flag(b),
        }
    }
}

impl DeepView for SqlValue {
    type V = SqlValueView;

    open spec fn deep_view(&self) -> SqlValueView {
        self@
    }
}

/// A statement with the values bound to its placeholders, in their order.
pub struct Request {
    pub statement: &'static str,
    pub values: Vec<SqlValue>,
}

/// `rusqlite::Connection::execute`: prepares `sql`, binds `params` to its
/// placeholders in order, and runs it. The number that comes back on
/// success is SQLite's count of changed rows.
///
/// Nothing is claimed of the outcome: whether the statement succeeds, and
/// what it does to the database, is decided by SQLite and by what the
/// database holds.
#[verifier::external_body]
pub(crate) fn execute(conn: &Connection, sql: &str, params: &Vec<SqlValue>) -> (changed: Result<
    usize,
    rusqlite::Error,
>) {
    let mut bound: Vec<&dyn ToSql> = Vec::new();
    for p in params.iter() {
        match p {
            SqlValue::Text(s) => bound.push(s),
            SqlValue::Flag(b) => bound.push(b),
        }
    }
    conn.execute(sql, bound.as_slice())
}

/// `rusqlite::Connection::prepare`: compiles `sql` for the database behind
/// `conn`, or reports why SQLite would not take it.
///
/// Nothing is claimed of the outcome.
#[verifier::external_body]
pub(crate) fn prepare<'conn>(conn: &'conn Connection, sql: &str) -> (prepared: Result<
    Statement<'conn>,
    rusqlite::Error,
>) {
    conn.prepare(sql)
}

/// `rusqlite::Statement::query_map`: binds `params` to the placeholders of
/// `statement` in order, runs it, and hands every row of the answer to
/// [`row_to_task`], keeping each outcome in the order the rows came.
///
/// Which rows come back is decided by SQLite and by what the database
/// holds. What is claimed holds of every answer: a task in it is what
/// [`row_to_task`] made of a row, and so was read from one.
#[verifier::external_body]
pub(crate) fn query_map(statement: &mut Statement, params: &Vec<SqlValue>) -> (rows: Result<
    Vec<Result<Task, rusqlite::Error>>,
    rusqlite::Error,
>)
    ensures
        rows matches Ok(answer) ==> forall|i: int|
            0 <= i < answer@.len() && (#[trigger] answer@[i]) is Ok ==> is_read_from_row(
                answer@[i]->Ok_0@,
            ),
{
    let mut bound: Vec<&dyn ToSql> = Vec::new();
    for p in params.iter() {
        match p {
            SqlValue::Text(s) => bound.push(s),
            SqlValue::Flag(b) => bound.push(b),
        }
    }
    statement.query_map(bound.as_slice(), |row| row_to_task(row)).map(|rows| rows.collect())
}

/// What a column of a row holds, as far as the library reads it.
pub enum Cell {
    /// Text that is valid UTF-8.
    Text(Seq<char>),
    /// An integer.
    Integer(i64),
    /// Anything else: no value, a real number, bytes, text that is not
    /// valid UTF-8.
    Other,
}

/// The columns of the row that a query stands on, from the first on.
pub uninterp spec fn row_cells(row: Row) -> Seq<Cell>;

/// `rusqlite::Row::get_ref`, then the conversion of the value to a
/// `String` (`FromSql::column_result`), a read of the row that changes
/// nothing. The outside functions fail on an index that is no column of the
/// row and on a column that is not text or not valid UTF-8; on any other
/// they return the text. A failure of the conversion is turned into a
/// `rusqlite::Error` by that type's own `From`.
#[verifier::external_body]
pub(crate) fn column_text(row: &Row, index: usize) -> (text: Result<String, rusqlite::Error>)
    ensures
        match text {
            Ok(s) => index < row_cells(*row).len() && row_cells(*row)[index as int] == Cell::Text(
                s@,
            ),
            Err(_) => !(index < row_cells(*row).len() && row_cells(*row)[index as int] is Text),
        },
{
    let value = row.get_ref(index)?;
    String::column_result(value).map_err(rusqlite::Error::from)
}

/// `rusqlite::Row::get_ref`, then the conversion of the value to a `bool`
/// (`FromSql::column_result`), a read of the row that changes nothing. The
/// outside functions fail on an index that is no column of the row and on a
/// column that is no integer; on any other they return whether the integer
/// differs from zero. A failure of the conversion is turned into a
/// `rusqlite::Error` by that type's own `From`.
#[verifier::external_body]
pub(crate) fn column_flag(row: &Row, index: usize) -> (flag: Result<bool, rusqlite::Error>)
    ensures
        match flag {
            Ok(b) => index < row_cells(*row).len() && row_cells(*row)[index as int] is Integer && b
                == (row_cells(*row)[index as int]->Integer_0 != 0),
            Err(_) => !(index < row_cells(*row).len() && row_cells(*row)[index as int] is Integer),
        },
{
    let value = row.get_ref(index)?;
    bool::column_result(value).map_err(rusqlite::Error::from)
}

} // verus!
