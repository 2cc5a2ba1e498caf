//! The calls into the `sqlite` crate and into `std::path`. Their
//! contracts are taken on trust: each says which outside function it
//! stands for and what is claimed of it.

use vstd::prelude::*;
use crate::statements::{is_store_statement, unbound, Bound, LARGEST};
use crate::text::byte_length;

verus! {

/// `sqlite::Connection`, an open handle to one database. Nothing is known
/// of what the database holds.
#[verifier::external_type_specification]
#[verifier::external_body]
pub struct ExConnection(sqlite::Connection);

/// `sqlite::Statement`, a prepared statement of a connection.
#[verifier::external_type_specification]
#[verifier::external_body]
pub struct ExStatement<'l>(sqlite::Statement<'l>);

/// `sqlite::Error`, the failure of a database call.
#[verifier::external_type_specification]
#[verifier::external_body]
pub struct ExError(sqlite::Error);

/// Where a statement stands after a step.
#[derive(Debug, Clone, Copy, PartialEq, Eq, Structural)]
pub enum Step {
    /// A row is ready to be read.
    Row,
    /// The statement has run to its end.
    Done,
}

/// Calls `std::path::Path::join` to name a file inside a directory.
/// Nothing is claimed of the result: how a path is put together is the
/// platform's business.
#[verifier::external_body]
pub(crate) fn file_in(directory: &str, file: &str) -> (path: String) {
    std::path::Path::new(directory).join(file).to_string_lossy().into_owned()
}

/// Calls `sqlite::open`, which opens the database at a path for reading
/// and writing and creates it where it does not exist. Whether that
/// succeeds depends on the file system; nothing is claimed of the result.
#[verifier::external_body]
pub(crate) fn open(path: &str) -> (r: Result<sqlite::Connection, sqlite::Error>) {
    sqlite::open(path)
}

/// Calls `sqlite::Connection::execute`, which runs the statements of a
/// text and passes over any rows. The outcome depends on the database;
/// nothing is claimed of the result.
#[verifier::external_body]
pub(crate) fn execute(connection: &sqlite::Connection, sql: &str) -> (r: Result<
    (),
    sqlite::Error,
>) {
    connection.execute(sql)
}

/// The text that a prepared statement was compiled from.
pub uninterp spec fn compiled_from(statement: sqlite::Statement<'_>) -> Seq<char>;

/// The values that the parameters of a prepared statement hold, by
/// position counted from one. A parameter that was given no value has no
/// entry.
pub uninterp spec fn bound_in(statement: sqlite::Statement<'_>) -> Map<int, Bound>;

/// Calls `sqlite::Connection::prepare`, which compiles the first statement
/// of a text. It fails, among other reasons, where the statement names a
/// table that the database lacks, so nothing is claimed of success. A
/// statement that comes back was compiled from the text handed in and has
/// no value bound yet. The call reads the names of the result's columns as
/// UTF-8 and does not return where one is not: for a text that leaves the
/// naming to the database file, such as `select *`, that can happen. Only
/// the store's own statements are let in, which name their columns.
#[verifier::external_body]
pub(crate) fn prepare<'c>(connection: &'c sqlite::Connection, sql: &str) -> (r: Result<
    sqlite::Statement<'c>,
    sqlite::Error,
>)
    requires
        is_store_statement(sql@),
    ensures
        r matches Ok(statement) ==> compiled_from(statement) == sql@,
        r matches Ok(statement) ==> bound_in(statement) == unbound(),
{
    connection.prepare(sql)
}

/// Calls `sqlite::Statement::bind` with a parameter's position, counted
/// from one, and an integer. The call hands both to `sqlite3_bind_int64`
/// and succeeds only if that took the value: then the parameter holds the
/// integer and the others hold what they held. The statement's text is
/// never touched. Nothing is claimed of success. The position is passed on
/// as a 32-bit number, so larger positions are left out.
#[verifier::external_body]
pub(crate) fn bind_integer(statement: &mut sqlite::Statement<'_>, index: usize, value: i64) -> (r:
    Result<(), sqlite::Error>)
    requires
        index <= LARGEST,
    ensures
        compiled_from(*final(statement)) == compiled_from(*old(statement)),
        r is Ok ==> bound_in(*final(statement)) == bound_in(*old(statement)).insert(
            index as int,
            Bound::Integer(value),
        ),
{
    statement.bind((index, value))
}

/// Calls `sqlite::Statement::bind` with a parameter's position, counted
/// from one, and a text. The call hands both to `sqlite3_bind_text`, which
/// copies the text, and succeeds only if that took the value: then the
/// parameter holds the text and the others hold what they held. The
/// statement's text is never touched. Nothing is claimed of success. The
/// position and the length of the text in bytes are passed on as 32-bit
/// numbers, so larger ones are left out.
#[verifier::external_body]
pub(crate) fn bind_text(statement: &mut sqlite::Statement<'_>, index: usize, value: &str) -> (r:
    Result<(), sqlite::Error>)
    requires
        index <= LARGEST,
        byte_length(value@) <= LARGEST,
    ensures
        compiled_from(*final(statement)) == compiled_from(*old(statement)),
        r is Ok ==> bound_in(*final(statement)) == bound_in(*old(statement)).insert(
            index as int,
            Bound::Text(value@),
        ),
{
    statement.bind((index, value))
}

/// Calls `sqlite::Statement::next`, which takes one step of a statement
/// and says whether a row is ready or the statement is done. Nothing is
/// claimed of the result. A step leaves the statement's text and the
/// values of its parameters as they are.
#[verifier::external_body]
pub(crate) fn advance(statement: &mut sqlite::Statement<'_>) -> (r: Result<Step, sqlite::Error>)
    ensures
        compiled_from(*final(statement)) == compiled_from(*old(statement)),
        bound_in(*final(statement)) == bound_in(*old(statement)),
{
    match statement.next() {
        Ok(sqlite::State::Row) => Ok(Step::Row),
        Ok(sqlite::State::Done) => Ok(Step::Done),
        Err(e) => Err(e),
    }
}

/// Calls `sqlite::Statement::read` for an optional integer in a column of
/// the current row, counted from zero; a null reads as `None`. Nothing is
/// claimed of the result.
#[verifier::external_body]
pub(crate) fn read_integer(statement: &sqlite::Statement<'_>, column: usize) -> (r: Result<
    Option<i64>,
    sqlite::Error,
>) {
    statement.read::<Option<i64>, usize>(column)
}

/// Calls `sqlite::Statement::read` for a text in a column of the current
/// row, counted from zero. Nothing is claimed of the result.
#[verifier::external_body]
pub(crate) fn read_text(statement: &sqlite::Statement<'_>, column: usize) -> (r: Result<
    String,
    sqlite::Error,
>) {
    statement.read::<String, usize>(column)
}

/// Calls `to_string` on a `sqlite::Error`, which writes its message and
/// code. Nothing is claimed of the text.
#[verifier::external_body]
pub(crate) fn describe(error: &sqlite::Error) -> (text: String) {
    error.to_string()
}

} // verus!
