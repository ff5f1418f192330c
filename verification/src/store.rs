//! The calls into the physical stores and the machine.
//!
//! Everything here is trusted: each function makes one call to SQLite through
//! `rusqlite`, to the file system, or to the user's directories, and hands
//! back plain values. What a store holds is not known to the verifier, so nothing is
//! claimed of what these calls return; the decisions taken on their results
//! are verified elsewhere.

use vstd::prelude::*;

verus! {

/// An open connection to a store.
#[verifier::external_type_specification]
#[verifier::external_body]
pub struct ExConnection(rusqlite::Connection);

/// A failure reported by SQLite.
#[verifier::external_type_specification]
#[verifier::external_body]
pub struct ExSqlError(rusqlite::Error);

/// A prepared statement, bound to its connection.
#[verifier::external_type_specification]
#[verifier::external_body]
pub struct ExStatement<'conn>(rusqlite::Statement<'conn>);

/// One row of the permission table, as read.
#[derive(Debug)]
pub struct RawRow {
    pub service: String,
    pub client: String,
    pub auth_value: i32,
    pub modified: i64,
}

/// Trusted: `std::path::Path::exists`.
#[verifier::external_body]
pub(crate) fn path_exists(path: &str) -> (r: bool) {
    std::path::Path::new(path).exists()
}

/// Trusted: `rusqlite::Connection::open_with_flags`, read-only.
#[verifier::external_body]
pub(crate) fn open_read_only(path: &str) -> (r: Result<rusqlite::Connection, rusqlite::Error>) {
    rusqlite::Connection::open_with_flags(path, rusqlite::OpenFlags::SQLITE_OPEN_READ_ONLY)
}

/// Trusted: `rusqlite::Connection::open_with_flags`, read-write, without
/// creating the file.
#[verifier::external_body]
pub(crate) fn open_read_write(path: &str) -> (r: Result<rusqlite::Connection, rusqlite::Error>) {
    rusqlite::Connection::open_with_flags(path, rusqlite::OpenFlags::SQLITE_OPEN_READ_WRITE)
}

/// Trusted: `rusqlite::Connection::open`, which opens a store for reading and
/// writing and creates the file when it is missing.
#[verifier::external_body]
pub(crate) fn open_store(path: &str) -> (r: Result<rusqlite::Connection, rusqlite::Error>) {
    rusqlite::Connection::open(path)
}

/// Trusted: the text of a `rusqlite::Error`.
#[verifier::external_body]
pub(crate) fn failure_text(e: &rusqlite::Error) -> (r: String) {
    e.to_string()
}

/// Trusted: `rusqlite::Connection::query_row` without parameters, reading the
/// first column of the first row as text.
#[verifier::external_body]
pub(crate) fn read_text(conn: &rusqlite::Connection, sql: &str) -> (r: Result<
    String,
    rusqlite::Error,
>) {
    conn.query_row(sql, [], |row| row.get(0))
}

/// Trusted: `rusqlite::Connection::execute`. The parameters are bound in
/// order, the texts first and the numbers after them. Returns the number of
/// rows that the statement changed.
#[verifier::external_body]
pub(crate) fn execute(
    conn: &rusqlite::Connection,
    sql: &str,
    texts: &Vec<String>,
    numbers: &Vec<i64>,
) -> (r: Result<usize, rusqlite::Error>) {
    let values: Vec<rusqlite::types::Value> = texts.iter().map(
        |t| rusqlite::types::Value::Text(t.clone()),
    ).chain(numbers.iter().map(|n| rusqlite::types::Value::Integer(*n))).collect();
    conn.execute(sql, rusqlite::params_from_iter(values))
}

/// Trusted: `rusqlite::Connection::prepare`.
#[verifier::external_body]
pub(crate) fn prepare<'conn>(conn: &'conn rusqlite::Connection, sql: &str) -> (r: Result<
    rusqlite::Statement<'conn>,
    rusqlite::Error,
>) {
    conn.prepare(sql)
}

/// Trusted: `rusqlite::Statement::query_map` without parameters. Each row is
/// read as service, client, status and time, in this order; a row that cannot
/// be read so is reported in its place.
#[verifier::external_body]
pub(crate) fn read_rows(statement: &mut rusqlite::Statement<'_>) -> (r: Result<
    Vec<Result<RawRow, rusqlite::Error>>,
    rusqlite::Error,
>) {
    let rows = statement.query_map(
        [],
        |row| {
            Ok(
                RawRow {
                    service: row.get(0)?,
                    client: row.get(1)?,
                    auth_value: row.get(2)?,
                    modified: row.get(3)?,
                },
            )
        },
    )?;
    Ok(rows.collect())
}

/// Trusted: `dirs::home_dir`, as text; a home directory whose name is not
/// UTF-8 comes with replacement characters.
#[verifier::external_body]
pub(crate) fn home_dir() -> (r: Option<String>) {
    dirs::home_dir().map(|home| home.to_string_lossy().into_owned())
}

} // verus!
