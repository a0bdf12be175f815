//! The calls into rusqlite that the holder makes, each behind a small
//! wrapper; of their results only what rusqlite's source shows is stated.
use vstd::prelude::*;
use crate::cell::Cell;
use crate::json::json_real;
use rusqlite::types::Value;
use rusqlite::{Connection, Row, Rows, Statement};

verus! {

/// An open SQLite connection of rusqlite, carried as it is.
#[verifier::external_type_specification]
#[verifier::external_body]
pub struct ExConnection(Connection);

/// A compiled statement of rusqlite, borrowing its connection.
#[verifier::external_type_specification]
#[verifier::external_body]
pub struct ExStatement<'conn>(Statement<'conn>);

/// The rows of a running statement of rusqlite.
#[verifier::external_type_specification]
#[verifier::external_body]
pub struct ExRows<'stmt>(Rows<'stmt>);

/// One current row of a running statement of rusqlite.
#[verifier::external_type_specification]
#[verifier::external_body]
pub struct ExRow<'stmt>(Row<'stmt>);

/// A dynamically typed value of rusqlite, read from one column.
#[verifier::external_type_specification]
#[verifier::external_body]
pub struct ExValue(Value);

/// An error reported by rusqlite or by the SQLite engine.
#[verifier::external_type_specification]
#[verifier::external_body]
pub struct ExError(rusqlite::Error);

/// Relies on `rusqlite::Connection::open`: opens or creates the database file.
#[verifier::external_body]
pub(crate) fn open_connection(path: &str) -> (r: Result<Connection, rusqlite::Error>) {
    Connection::open(path)
}

/// Relies on the `Display` impl of `rusqlite::Error`: the engine's message.
#[verifier::external_body]
pub(crate) fn error_message(e: &rusqlite::Error) -> (r: String) {
    e.to_string()
}

/// Relies on `rusqlite::Connection::execute`: runs one statement with no
/// parameters and reports how many rows it changed.
#[verifier::external_body]
pub(crate) fn execute(conn: &Connection, sql: &str) -> (r: Result<usize, rusqlite::Error>) {
    conn.execute(sql, ())
}

/// Relies on `rusqlite::Connection::prepare`: compiles one statement.
#[verifier::external_body]
pub(crate) fn prepare<'a>(conn: &'a Connection, sql: &str) -> (r: Result<Statement<'a>, rusqlite::Error>) {
    conn.prepare(sql)
}

/// Relies on `rusqlite::Statement::query`: starts stepping the statement.
#[verifier::external_body]
pub(crate) fn start_query<'a>(stmt: &'a mut Statement) -> (r: Result<Rows<'a>, rusqlite::Error>) {
    stmt.query([])
}

/// Relies on `rusqlite::Rows::next`: the next row, or `None` at the end.
#[verifier::external_body]
pub(crate) fn next_row<'a, 'b>(rows: &'a mut Rows<'b>) -> (r: Result<Option<&'a Row<'b>>, rusqlite::Error>) {
    rows.next()
}

/// Relies on `rusqlite::Row::get` at type `Value`: the cell at `idx`,
/// whatever its kind.
#[verifier::external_body]
pub(crate) fn row_value(row: &Row, idx: usize) -> (r: Result<Value, rusqlite::Error>) {
    row.get(idx)
}

/// Tells the variants of `rusqlite::types::Value` apart, moving each payload
/// into the matching variant of `Cell`; a real also gets the JSON number
/// that `serde_json::to_string` writes for it (into memory, which cannot fail).
#[verifier::external_body]
pub(crate) fn to_cell(v: Value) -> (r: Cell)
    ensures
        r matches Cell::Real(bits, text) ==> text@ == json_real(bits),
{
    match v {
        Value::Null => Cell::Null,
        Value::Integer(i) => Cell::Integer(i),
        Value::Real(f) => Cell::Real(f.to_bits(), serde_json::to_string(&f).unwrap_or_default()),
        Value::Text(s) => Cell::Text(s),
        Value::Blob(b) => Cell::Blob(b),
    }
}

} // verus!
