//! The statements that the store hands to the database, with the values
//! of their parameters in the order of the parameters.

use vstd::prelude::*;
use crate::migrations::{Migration, Script};
use crate::text::{byte_length, bytes_in};
use crate::visits::Visit;

verus! {

/// Opens a transaction.
pub const BEGIN: &'static str = "BEGIN;";

/// Makes the changes of the open transaction lasting.
pub const COMMIT: &'static str = "COMMIT;";

/// Undoes the changes of the open transaction.
pub const ROLLBACK: &'static str = "ROLLBACK;";

/// Reads the highest id of the tracking table.
pub const SELECT_WATERMARK: &'static str = "select max(id) as max_version from migration";

/// Creates the tracking table.
pub const CREATE_TRACKING_TABLE: &'static str =
    "create table migration (id integer, script_name text, timestamp integer);";

/// Records one applied script: its id, its file name and the time.
pub const INSERT_RECORD: &'static str =
    "insert into migration (id, script_name, timestamp) values (?, ?, ?);";

/// Reads when a path was last seen.
pub const SELECT_LAST_SEEN: &'static str =
    "select last_seen as last_seen from freq_path where canonical_path = ?";

/// Makes the row of a path, with a score of one.
pub const INSERT_ROW: &'static str =
    "insert into freq_path (canonical_path, last_seen, seen_count) values (?, ?, 1)";

/// Sets the time of a row and starts its score over at one.
pub const RESTART_ROW: &'static str =
    "update freq_path set last_seen = ?, seen_count = 1 where canonical_path = ?";

/// Sets the time of a row and lets its score grow by the smoothed
/// increment for the gap between the time of the visit, which is the
/// second parameter, and the time that the row held.
pub const ACCUMULATE_ROW: &'static str =
    "update freq_path set last_seen = ?, seen_count = seen_count + 1.0 - (1.0 / (1.0 + (? - last_seen) / (30.0 * 60 * 1000))) where canonical_path = ?";

/// Reads every row that has a time, highest score first. The score of a
/// row is the square root of its accumulator less the square root of its
/// distance, in units of thirty seconds, from the most recently seen row of
/// the table.
pub const SELECT_BY_SCORE: &'static str =
    "with params as (select max(last_seen) as most_recent from freq_path) select canonical_path as canonical_path, last_seen as last_seen from freq_path cross join params where last_seen is not null order by sqrt(seen_count * 1.0) - sqrt((params.most_recent - last_seen) / (30.0 * 1000)) desc";

/// The text is one of the statements that the store prepares. Each of
/// them that gives rows gives every column of its result a name of its own
/// with `as`, in plain letters, so that the names of those columns are
/// what is written here and never what a database file declares.
pub open spec fn is_store_statement(sql: Seq<char>) -> bool {
    ||| sql == SELECT_WATERMARK@
    ||| sql == INSERT_RECORD@
    ||| sql == SELECT_LAST_SEEN@
    ||| sql == INSERT_ROW@
    ||| sql == RESTART_ROW@
    ||| sql == ACCUMULATE_ROW@
    ||| sql == SELECT_BY_SCORE@
}

/// A value for one parameter of a statement.
#[derive(Debug, Clone, PartialEq, Eq)]
pub enum Binding {
    Integer(i64),
    Text(String),
}

/// A binding as contracts speak of it.
pub enum Bound {
    Integer(i64),
    Text(Seq<char>),
}

impl View for Binding {
    type V = Bound;

    open spec fn view(&self) -> Bound {
        match self {
            Binding::Integer(value) => Bound::Integer(*value),
            Binding::Text(text) => Bound::Text(text@),
        }
    }
}

/// A statement and the values of its parameters: the first value is for
/// the first parameter, and so on.
#[derive(Debug, Clone, PartialEq, Eq)]
pub struct Request {
    pub sql: &'static str,
    pub bindings: Vec<Binding>,
}

/// A request as contracts speak of it.
pub struct Asked {
    pub sql: Seq<char>,
    pub bindings: Seq<Bound>,
}

impl View for Request {
    type V = Asked;

    open spec fn view(&self) -> Asked {
        Asked { sql: self.sql@, bindings: self.bindings@.map_values(|b: Binding| b@) }
    }
}

/// The parameters of a statement to which nothing is bound yet.
pub open spec fn unbound() -> Map<int, Bound> {
    Map::empty()
}

/// The values of a request by the position of their parameters, counted
/// from one.
pub open spec fn placed(bindings: Seq<Bound>) -> Map<int, Bound> {
    Map::new(|position: int| 1 <= position <= bindings.len(), |position: int| bindings[position - 1])
}

/// The largest position of a parameter, and the largest number of bytes
/// of a text, that can be bound: the database takes both as 32-bit numbers.
pub const LARGEST: usize = 0x7fff_ffff;

/// The values of a request can be bound: there are no more of them than
/// the largest position, and no text among them is longer than the largest
/// length.
pub open spec fn fits(asked: Asked) -> bool {
    &&& asked.bindings.len() <= LARGEST
    &&& forall|i: int|
        0 <= i < asked.bindings.len() ==> (#[trigger] asked.bindings[i] matches Bound::Text(text)
            ==> byte_length(text) <= LARGEST)
}

/// The name of every script can be bound, as the record of an applied
/// script asks.
pub open spec fn names_fit(scripts: Seq<Script>) -> bool {
    forall|k: int| 0 <= k < scripts.len() ==> byte_length(#[trigger] scripts[k].name) <= LARGEST
}

/// Whether the values of a request can be bound.
pub fn request_fits(request: &Request) -> (b: bool)
    ensures
        b == fits(request@),
{
    if request.bindings.len() > LARGEST {
        return false;
    }
    let mut index: usize = 0;
    while index < request.bindings.len()
        invariant
            index <= request.bindings.len() <= LARGEST,
            forall|i: int|
                0 <= i < index ==> (#[trigger] request@.bindings[i] matches Bound::Text(text)
                    ==> byte_length(text) <= LARGEST),
        decreases request.bindings.len() - index,
    {
        match &request.bindings[index] {
            Binding::Integer(_) => {},
            Binding::Text(text) => {
                if bytes_in(text.as_str()) > LARGEST {
                    assert(request@.bindings[index as int] == Bound::Text(text@));
                    return false;
                }
            },
        }
        assert(request@.bindings[index as int] == request.bindings[index as int]@);
        index += 1;
    }
    true
}

/// The request that reads when a path was last seen.
pub open spec fn lookup_of(path: Seq<char>) -> Asked {
    Asked { sql: SELECT_LAST_SEEN@, bindings: seq![Bound::Text(path)] }
}

/// The request that writes a visit to a path at time `now`; none for a
/// visit that does nothing. A new row gets the path and its time. A row
/// whose score starts over gets its time. A row whose score grows gets its
/// time and, for the gap, the time of the visit.
pub open spec fn change_of(path: Seq<char>, now: i64, visit: Visit) -> Option<Asked> {
    match visit {
        Visit::Ignore => None,
        Visit::Create { last_seen } => Some(
            Asked { sql: INSERT_ROW@, bindings: seq![Bound::Text(path), Bound::Integer(last_seen)] },
        ),
        Visit::Restart { last_seen } => Some(
            Asked {
                sql: RESTART_ROW@,
                bindings: seq![Bound::Integer(last_seen), Bound::Text(path)],
            },
        ),
        Visit::Accumulate { last_seen } => Some(
            Asked {
                sql: ACCUMULATE_ROW@,
                bindings: seq![Bound::Integer(last_seen), Bound::Integer(now), Bound::Text(path)],
            },
        ),
    }
}

/// The request that records a script applied at time `now`: its id, its
/// file name and the time.
pub open spec fn record_of(script: Script, now: i64) -> Asked {
    Asked {
        sql: INSERT_RECORD@,
        bindings: seq![
            Bound::Integer(script.id as i64),
            Bound::Text(script.name),
            Bound::Integer(now),
        ],
    }
}

fn request(sql: &'static str, bindings: Vec<Binding>) -> (r: Request)
    ensures
        r@ == (Asked { sql: sql@, bindings: bindings@.map_values(|b: Binding| b@) }),
{
    Request { sql, bindings }
}

/// Builds the request that reads when a path was last seen.
pub fn lookup_request(path: &str) -> (r: Request)
    ensures
        r@ == lookup_of(path@),
{
    let mut bindings: Vec<Binding> = Vec::new();
    bindings.push(Binding::Text(path.to_owned()));
    let r = request(SELECT_LAST_SEEN, bindings);
    assert(r@.bindings =~= lookup_of(path@).bindings);
    r
}

/// Builds the request that writes a visit to a path at time `now`.
pub fn change_request(path: &str, now: i64, visit: Visit) -> (r: Option<Request>)
    ensures
        match change_of(path@, now, visit) {
            Some(asked) => r matches Some(request) && request@ == asked,
            None => r is None,
        },
{
    let mut bindings: Vec<Binding> = Vec::new();
    match visit {
        Visit::Ignore => None,
        Visit::Create { last_seen } => {
            bindings.push(Binding::Text(path.to_owned()));
            bindings.push(Binding::Integer(last_seen));
            let r = request(INSERT_ROW, bindings);
            assert(r@.bindings =~= change_of(path@, now, visit).unwrap().bindings);
            Some(r)
        },
        Visit::Restart { last_seen } => {
            bindings.push(Binding::Integer(last_seen));
            bindings.push(Binding::Text(path.to_owned()));
            let r = request(RESTART_ROW, bindings);
            assert(r@.bindings =~= change_of(path@, now, visit).unwrap().bindings);
            Some(r)
        },
        Visit::Accumulate { last_seen } => {
            bindings.push(Binding::Integer(last_seen));
            bindings.push(Binding::Integer(now));
            bindings.push(Binding::Text(path.to_owned()));
            let r = request(ACCUMULATE_ROW, bindings);
            assert(r@.bindings =~= change_of(path@, now, visit).unwrap().bindings);
            Some(r)
        },
    }
}

/// Builds the request that records a script applied at time `now`.
pub fn record_request(migration: &Migration, now: i64) -> (r: Request)
    ensures
        r@ == record_of(migration@, now),
{
    let mut bindings: Vec<Binding> = Vec::new();
    bindings.push(Binding::Integer(migration.id as i64));
    bindings.push(Binding::Text(migration.name.clone()));
    bindings.push(Binding::Integer(now));
    let r = request(INSERT_RECORD, bindings);
    assert(r@.bindings =~= record_of(migration@, now).bindings);
    r
}

/// One step of work for the database.
#[derive(Debug, Clone, PartialEq, Eq)]
pub enum Operation {
    /// Statements that are run as they are written, with no values bound.
    Batch(String),
    /// One statement with the values of its parameters.
    Ask(Request),
}

/// An operation as contracts speak of it.
pub enum Work {
    Batch(Seq<char>),
    Ask(Asked),
}

impl View for Operation {
    type V = Work;

    open spec fn view(&self) -> Work {
        match self {
            Operation::Batch(text) => Work::Batch(text@),
            Operation::Ask(request) => Work::Ask(request@),
        }
    }
}

/// The work of a list of operations, in order.
pub open spec fn works(operations: Seq<Operation>) -> Seq<Work> {
    operations.map_values(|operation: Operation| operation@)
}

/// The transaction that applies a script at time `now`: it is opened, the
/// statements of the script are run as they are written, the script is
/// recorded, and all of it is made lasting together.
pub open spec fn transaction_of(script: Script, now: i64) -> Seq<Work> {
    seq![
        Work::Batch(BEGIN@),
        Work::Batch(script.text),
        Work::Ask(record_of(script, now)),
        Work::Batch(COMMIT@),
    ]
}

/// Builds the transaction that applies a script at time `now`.
pub fn script_transaction(migration: &Migration, now: i64) -> (operations: Vec<Operation>)
    ensures
        works(operations@) == transaction_of(migration@, now),
{
    let mut operations: Vec<Operation> = Vec::new();
    operations.push(Operation::Batch(BEGIN.to_owned()));
    operations.push(Operation::Batch(migration.script.clone()));
    operations.push(Operation::Ask(record_request(migration, now)));
    operations.push(Operation::Batch(COMMIT.to_owned()));
    assert(works(operations@) =~= transaction_of(migration@, now));
    operations
}

} // verus!
