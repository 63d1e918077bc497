//! The SQLite calls that the stores make, each behind a small trusted
//! function of its own.
//!
//! Everything a call returns depends on what the database file holds, on
//! other processes that share it and on the SQLite library, so these
//! functions promise nothing about their results: the stores above them
//! are verified for every outcome.
use vstd::prelude::*;

verus! {

#[verifier::external_type_specification]
#[verifier::external_body]
pub struct ExConnection(sql_peas::Connection);

#[verifier::external_type_specification]
#[verifier::external_body]
pub struct ExStatementHandle(sql_peas::StatementHandle);

#[verifier::external_type_specification]
#[verifier::external_body]
pub struct ExStatement(sql_peas::Statement);

/// An error that SQLite or its binding reported: the fields of
/// `sql_peas::Error`.
#[derive(Debug)]
pub struct SqliteError {
    /// The SQLite result code.
    pub code: Option<isize>,
    /// The message.
    pub message: Option<String>,
}

/// What one evaluation step of a prepared statement reported.
#[derive(Clone, Copy, Debug, PartialEq, Eq, Structural)]
pub enum Step {
    /// A row is available for reading.
    Row,
    /// The statement has been evaluated entirely.
    Done,
}

/// Calls `sql_peas::Connection::open`, which opens (creating it if needed)
/// a read-write connection to the database file at `path`.
#[verifier::external_body]
pub(crate) fn open(path: &str) -> (r: Result<sql_peas::Connection, SqliteError>) {
    sql_peas::Connection::open(path).map_err(|e| SqliteError { code: e.code, message: e.message })
}

/// Calls `sql_peas::Connection::execute`, which runs `sql` without reading
/// any rows it produces.
#[verifier::external_body]
pub(crate) fn execute(conn: &sql_peas::Connection, sql: &str) -> (r: Result<(), SqliteError>) {
    conn.execute(sql).map_err(|e| SqliteError { code: e.code, message: e.message })
}

/// Calls `sql_peas::Connection::prepare`, which compiles `sql` and keeps the
/// statement in the connection under the handle it returns.
#[verifier::external_body]
pub(crate) fn prepare(conn: &mut sql_peas::Connection, sql: &str) -> (r: Result<
    sql_peas::StatementHandle,
    SqliteError,
>) {
    conn.prepare(sql).map_err(|e| SqliteError { code: e.code, message: e.message })
}

/// Calls `sql_peas::Connection::borrow_statement`, which resets the prepared
/// statement kept under `handle` and lends it out.
#[verifier::external_body]
pub(crate) fn borrow_statement<'c>(
    conn: &'c sql_peas::Connection,
    handle: sql_peas::StatementHandle,
) -> (r: Result<&'c sql_peas::Statement, SqliteError>) {
    conn.borrow_statement(handle).map_err(|e| SqliteError { code: e.code, message: e.message })
}

/// Calls `sql_peas::Connection::drop_statement`, which finalizes the
/// statement kept under `handle`.
#[verifier::external_body]
pub(crate) fn drop_statement(conn: &mut sql_peas::Connection, handle: sql_peas::StatementHandle) -> (r:
    Result<(), SqliteError>) {
    conn.drop_statement(handle).map_err(|e| SqliteError { code: e.code, message: e.message })
}

/// Calls `sql_peas::Statement::bind` with a text value for the parameter at
/// `index` (the first parameter has index 1).
#[verifier::external_body]
pub(crate) fn bind_text(stmt: &sql_peas::Statement, index: usize, text: &str) -> (r: Result<
    (),
    SqliteError,
>) {
    stmt.bind((index, text)).map_err(|e| SqliteError { code: e.code, message: e.message })
}

/// Calls `sql_peas::Statement::bind` with an integer value for the parameter
/// at `index` (the first parameter has index 1).
#[verifier::external_body]
pub(crate) fn bind_int(stmt: &sql_peas::Statement, index: usize, value: i64) -> (r: Result<
    (),
    SqliteError,
>) {
    stmt.bind((index, value)).map_err(|e| SqliteError { code: e.code, message: e.message })
}

/// Calls `sql_peas::Statement::next`, which evaluates the statement one step,
/// and tells its two states apart.
#[verifier::external_body]
pub(crate) fn step(stmt: &sql_peas::Statement) -> (r: Result<Step, SqliteError>) {
    match stmt.next() {
        Ok(sql_peas::State::Row) => Ok(Step::Row),
        Ok(sql_peas::State::Done) => Ok(Step::Done),
        Err(e) => Err(SqliteError { code: e.code, message: e.message }),
    }
}

/// Calls `sql_peas::Statement::read` for an integer in column `index` of the
/// current row (the first column has index 0).
#[verifier::external_body]
pub(crate) fn read_int(stmt: &sql_peas::Statement, index: usize) -> (r: Result<i64, SqliteError>) {
    stmt.read::<i64, usize>(index).map_err(|e| SqliteError { code: e.code, message: e.message })
}

/// Calls `sql_peas::Statement::read` for the text in column `index` of the
/// current row (the first column has index 0).
#[verifier::external_body]
pub(crate) fn read_text(stmt: &sql_peas::Statement, index: usize) -> (r: Result<
    String,
    SqliteError,
>) {
    stmt.read::<String, usize>(index).map_err(|e| SqliteError { code: e.code, message: e.message })
}

} // verus!
