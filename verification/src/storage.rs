//! The store itself: sessions on a database file, the application of
//! pending scripts, and the three operations on the path table.

use vstd::prelude::*;
use crate::clock::epoch_time;
use crate::database::{
    advance, bind_integer, bind_text, bound_in, compiled_from, describe, execute, file_in, open,
    prepare, read_integer, read_text, Step,
};
use crate::error::{Purpose, StoreError};
use crate::ranking::{
    gather, optional_text, rank_paths, ranked, root_prefix, texts, Fetched, FreqPath,
};
use crate::visits::{plan_visit, visit_rule, Visit};
use crate::migrations::{
    applied_count, builtin_scripts, latest_id, pending, scripts_of, settle_tracking,
    watermark_found, Migration, Registry, Script, Tracking,
};
use crate::statements::{
    change_of, change_request, fits, is_store_statement, lookup_request, placed, record_of,
    names_fit, request_fits, script_transaction, transaction_of, works, Binding, Bound,
    Operation, Request,
    Work, CREATE_TRACKING_TABLE, LARGEST, ROLLBACK, SELECT_BY_SCORE, SELECT_WATERMARK,
};
use crate::text::{byte_length, bytes_in};

verus! {

/// The name of the database file inside the state directory.
pub const DATABASE_FILE: &'static str = "freqdirs.db";

/// Turns the outcome of a call into the database into that of the
/// store's work: a success stays what it is, a failure becomes the failure
/// that belongs to the purpose of the call.
fn serve<T>(purpose: Purpose, outcome: Result<T, sqlite::Error>) -> (r: Result<T, StoreError>)
    ensures
        match outcome {
            Ok(value) => r == Ok::<T, StoreError>(value),
            Err(_) => r matches Err(e) && purpose.names(e),
        },
{
    match outcome {
        Ok(value) => Ok(value),
        Err(error) => Err(purpose.failure(describe(&error))),
    }
}

/// Compiles the statement of a request and binds its values, the first
/// to the first parameter and so on. A request whose values cannot be
/// bound is refused before the database is asked. The statement that comes
/// back was compiled from the text of the request and holds exactly its
/// values, each at its position. A failure is of the kind of the purpose.
fn prepare_request<'c>(
    connection: &'c sqlite::Connection,
    request: &Request,
    purpose: Purpose,
) -> (r: Result<sqlite::Statement<'c>, StoreError>)
    requires
        is_store_statement(request@.sql),
    ensures
        r matches Ok(statement) ==> {
            &&& fits(request@)
            &&& compiled_from(statement) == request@.sql
            &&& bound_in(statement) == placed(request@.bindings)
        },
        r matches Err(e) ==> purpose.names(e),
{
    if !request_fits(request) {
        return Err(purpose.failure("a value is too large to be bound".to_owned()));
    }
    let mut statement = serve(purpose, prepare(connection, request.sql))?;
    let mut index: usize = 0;
    proof {
        assert(request@.bindings.take(0) =~= Seq::<Bound>::empty());
        assert(bound_in(statement) =~= placed(request@.bindings.take(0)));
    }
    while index < request.bindings.len()
        invariant
            index <= request.bindings.len(),
            fits(request@),
            compiled_from(statement) == request@.sql,
            bound_in(statement) == placed(request@.bindings.take(index as int)),
        decreases request.bindings.len() - index,
    {
        let ghost before = request@.bindings.take(index as int);
        let ghost after = request@.bindings.take(index + 1);
        assert(request@.bindings[index as int] == request.bindings[index as int]@);
        match &request.bindings[index] {
            Binding::Integer(value) => {
                serve(purpose, bind_integer(&mut statement, index + 1, *value))?;
            },
            Binding::Text(text) => {
                serve(purpose, bind_text(&mut statement, index + 1, text.as_str()))?;
            },
        }
        proof {
            assert(after =~= before.push(request.bindings[index as int]@));
            assert(bound_in(statement) =~= placed(after));
        }
        index += 1;
    }
    proof {
        assert(request@.bindings.take(request.bindings.len() as int) =~= request@.bindings);
    }
    Ok(statement)
}

/// Runs a request to its first step. It succeeds only for a request whose
/// values can be bound, and a failure is of the kind of the purpose.
fn run_request(connection: &sqlite::Connection, request: &Request, purpose: Purpose) -> (r: Result<
    (),
    StoreError,
>)
    requires
        is_store_statement(request@.sql),
    ensures
        r is Ok ==> fits(request@),
        r matches Err(e) ==> purpose.names(e),
{
    let mut statement = prepare_request(connection, request, purpose)?;
    serve(purpose, advance(&mut statement))?;
    Ok(())
}

/// Looks at the tracking table of a store. A table that cannot be named
/// in a statement is taken to be missing.
fn look_at_tracking(connection: &sqlite::Connection) -> (r: Result<Tracking, StoreError>)
    ensures
        r matches Err(e) ==> e is Migration,
{
    match prepare(connection, SELECT_WATERMARK) {
        Err(_) => Ok(Tracking::Missing),
        Ok(mut statement) => {
            match serve(Purpose::Migration, advance(&mut statement))? {
                Step::Done => Ok(Tracking::NoRow),
                Step::Row => {
                    let highest = serve(Purpose::Migration, read_integer(&statement, 0))?;
                    Ok(Tracking::Highest(highest))
                },
            }
        },
    }
}

/// Finds the watermark of a store: what the look at its tracking table
/// settles. Where the table is missing it is created, and the watermark is
/// -1. Where it exists the watermark is its highest id, or -1 if it holds
/// no record.
fn init_migrations_table(connection: &sqlite::Connection) -> (r: Result<i64, StoreError>)
    ensures
        r matches Ok(watermark) ==> exists|tracking: Tracking|
            watermark == #[trigger] watermark_found(tracking),
        r matches Err(e) ==> e is Migration,
{
    let tracking = look_at_tracking(connection)?;
    let (watermark, create) = settle_tracking(tracking);
    if create {
        serve(Purpose::Migration, execute(connection, CREATE_TRACKING_TABLE))?;
    }
    Ok(watermark)
}

/// Carries out operations in order, for bringing the schema up to date,
/// and stops at the first that fails. With no operation there is nothing
/// to fail, and a request whose values cannot be bound is never passed.
fn run_operations(connection: &sqlite::Connection, operations: &Vec<Operation>) -> (r: Result<
    (),
    StoreError,
>)
    requires
        forall|i: int|
            0 <= i < operations@.len() ==> (#[trigger] operations@[i]@ matches Work::Ask(asked)
                ==> is_store_statement(asked.sql)),
    ensures
        operations@.len() == 0 ==> r is Ok,
        r is Ok ==> forall|i: int|
            0 <= i < operations@.len() ==> (#[trigger] operations@[i]@ matches Work::Ask(asked)
                ==> fits(asked)),
        r matches Err(e) ==> e is Migration,
{
    let mut index: usize = 0;
    while index < operations.len()
        invariant
            index <= operations.len(),
            forall|i: int|
                0 <= i < operations@.len() ==> (#[trigger] operations@[i]@ matches Work::Ask(asked)
                    ==> is_store_statement(asked.sql)),
            forall|i: int|
                0 <= i < index ==> (#[trigger] operations@[i]@ matches Work::Ask(asked) ==> fits(
                    asked,
                )),
        decreases operations.len() - index,
    {
        match &operations[index] {
            Operation::Batch(text) => {
                serve(Purpose::Migration, execute(connection, text.as_str()))?;
            },
            Operation::Ask(request) => {
                assert(operations@[index as int]@ == Work::Ask(request@));
                run_request(connection, request, Purpose::Migration)?;
            },
        }
        index += 1;
    }
    Ok(())
}

/// Decides what follows a transaction: one that failed is to be rolled
/// back, and its failure is the outcome; one that succeeded stands.
pub fn settle_transaction(outcome: Result<(), StoreError>) -> (r: (bool, Result<(), StoreError>))
    ensures
        r.0 == (outcome is Err),
        r.1 == outcome,
{
    let roll_back = outcome.is_err();
    (roll_back, outcome)
}

/// Applies one script in a transaction of its own, at the time of the
/// wall clock: the script and its record are committed together, or the
/// transaction is rolled back and the failure reported. A script whose
/// name has more bytes than can be bound could not be recorded: it is
/// refused before the database is asked.
fn apply_script(connection: &sqlite::Connection, migration: &Migration) -> (r: Result<
    (),
    StoreError,
>)
    ensures
        r matches Err(e) ==> e is Migration || e is Clock,
        r is Ok ==> byte_length(migration@.name) <= LARGEST,
{
    if bytes_in(migration.name.as_str()) > LARGEST {
        return Err(
            StoreError::Migration("the name of the script is too long to be recorded".to_owned()),
        );
    }
    let now = epoch_time()?;
    let transaction = script_transaction(migration, now);
    proof {
        let planned = transaction_of(migration@, now);
        assert(works(transaction@).len() == 4);
        assert forall|i: int| 0 <= i < transaction@.len() implies (
        #[trigger] transaction@[i]@ matches Work::Ask(asked) ==> is_store_statement(asked.sql)) by {
            assert(works(transaction@)[i] == transaction@[i]@);
            assert(planned[i] == transaction@[i]@);
        }
    }
    let (roll_back, outcome) = settle_transaction(run_operations(connection, &transaction));
    if roll_back {
        let _ = execute(connection, ROLLBACK);
    }
    outcome
}

/// Applies the scripts that are pending for a store at the given
/// watermark, in ascending order of id, each in its own transaction, and
/// stops at the first that fails: no later script is tried. With nothing
/// pending the database is not touched and the call succeeds.
///
/// Returns the scripts that were applied and the outcome. The scripts
/// applied are always the first of the pending ones, in their order: all
/// of them on success, which gives back the watermark, and not all of them
/// on failure. A pending script whose name has more bytes than can be
/// bound makes the call fail.
pub(crate) fn apply_pending(
    connection: &sqlite::Connection,
    registry: &Registry,
    watermark: i64,
) -> (r: (Vec<Migration>, Result<i64, StoreError>))
    ensures
        scripts_of(r.0@).is_prefix_of(pending(registry@, watermark as int)),
        r.1 matches Ok(before) ==> {
            &&& before == watermark
            &&& scripts_of(r.0@) == pending(registry@, watermark as int)
            &&& names_fit(pending(registry@, watermark as int))
        },
        r.1 matches Err(e) ==> {
            &&& e is Migration || e is Clock
            &&& r.0@.len() < pending(registry@, watermark as int).len()
        },
        latest_id(registry@) <= watermark ==> r.1 is Ok,
{
    let count = registry.len();
    let start = registry.first_pending(watermark);
    let mut applied: Vec<Migration> = Vec::new();
    let mut index = start;
    proof {
        assert(scripts_of(applied@) =~= registry@.subrange(start as int, index as int));
        if latest_id(registry@) <= watermark && start < count {
            assert(registry@[count - 1].id > watermark);
        }
    }
    while index < count
        invariant
            start <= index <= count,
            count == registry@.len(),
            start == applied_count(registry@, watermark as int),
            start < count ==> latest_id(registry@) > watermark,
            scripts_of(applied@) == registry@.subrange(start as int, index as int),
            names_fit(scripts_of(applied@)),
        decreases count - index,
    {
        let migration = registry.entry(index).unwrap();
        match apply_script(connection, migration) {
            Ok(()) => {},
            Err(failure) => {
                proof {
                    assert(scripts_of(applied@) =~= pending(registry@, watermark as int).subrange(
                        0,
                        index - start,
                    ));
                }
                return (applied, Err(failure));
            },
        }
        let ghost before = scripts_of(applied@);
        applied.push(migration.copy());
        proof {
            assert(scripts_of(applied@) =~= before.push(migration@));
            assert(registry@.subrange(start as int, index + 1) =~= registry@.subrange(
                start as int,
                index as int,
            ).push(registry@[index as int]));
        }
        index += 1;
    }
    (applied, Ok(watermark))
}

/// Brings the schema of a store up to date. Returns the scripts that were
/// applied and the outcome: on success the watermark that the store had
/// before, with all the scripts that were pending at that watermark
/// applied, each once, in their order. Whatever the outcome, the scripts
/// applied are the first of those pending at the watermark that was found,
/// and none where no watermark was found.
pub(crate) fn apply_migrations(connection: &sqlite::Connection, registry: &Registry) -> (r: (
    Vec<Migration>,
    Result<i64, StoreError>,
))
    ensures
        exists|tracking: Tracking|
            scripts_of(r.0@).is_prefix_of(
                pending(registry@, #[trigger] watermark_found(tracking) as int),
            ),
        r.1 matches Ok(found) ==> {
            &&& exists|tracking: Tracking| found == #[trigger] watermark_found(tracking)
            &&& scripts_of(r.0@) == pending(registry@, found as int)
            &&& names_fit(pending(registry@, found as int))
        },
        r.1 matches Err(e) ==> e is Migration || e is Clock,
{
    match init_migrations_table(connection) {
        Ok(watermark) => apply_pending(connection, registry, watermark),
        Err(failure) => {
            let applied: Vec<Migration> = Vec::new();
            proof {
                assert(scripts_of(applied@) =~= Seq::<Script>::empty());
                assert(scripts_of(applied@).is_prefix_of(
                    pending(registry@, watermark_found(Tracking::Missing) as int),
                ));
            }
            (applied, Err(failure))
        },
    }
}

/// What a lookup found in the row of a path, from what the column of
/// its time held: the time, or a failure of the query where the column
/// held none.
pub fn time_found(column: Option<i64>) -> (r: Result<Option<i64>, StoreError>)
    ensures
        match column {
            Some(seen) => r == Ok::<Option<i64>, StoreError>(Some(seen)),
            None => r matches Err(e) && e is Query,
        },
{
    match column {
        Some(seen) => Ok(Some(seen)),
        None => Err(StoreError::Query("the row holds no time of a last visit".to_owned())),
    }
}

/// Takes one step of the reading of the path table and reads the row
/// that it gives.
fn fetch(statement: &mut sqlite::Statement<'_>) -> (fetched: Fetched)
    ensures
        fetched matches Fetched::Failed(e) ==> e is Query,
{
    match serve(Purpose::Query, advance(statement)) {
        Err(failure) => Fetched::Failed(failure),
        Ok(Step::Done) => Fetched::End,
        Ok(Step::Row) => match serve(Purpose::Query, read_text(statement, 0)) {
            Err(failure) => Fetched::Failed(failure),
            Ok(canonical_path) => match serve(Purpose::Query, read_integer(statement, 1)) {
                Err(failure) => Fetched::Failed(failure),
                Ok(last_seen) => Fetched::Row { canonical_path, last_seen },
            },
        },
    }
}

/// Reads the rows of the path table, highest score first. A step that
/// fails is the failure of the reading.
fn read_rows(connection: &sqlite::Connection) -> (r: Result<Vec<FreqPath>, StoreError>)
    ensures
        r matches Err(e) ==> e is Query,
{
    let mut statement = serve(Purpose::Query, prepare(connection, SELECT_BY_SCORE))?;
    let mut rows: Vec<FreqPath> = Vec::new();
    let mut room: usize = usize::MAX;
    while room > 0
        decreases room,
    {
        room -= 1;
        let fetched = fetch(&mut statement);
        let (gathered, more) = gather(rows, fetched)?;
        rows = gathered;
        if !more {
            return Ok(rows);
        }
    }
    Err(StoreError::Query("the path table holds more rows than can be read".to_owned()))
}

/// An open store: a database whose schema is up to date, with what
/// bringing it up to date found and did.
pub struct Session {
    connection: sqlite::Connection,
    found: i64,
    applied: Vec<Migration>,
}

impl Session {
    /// The watermark that the store had before it was opened.
    pub closed spec fn watermark_before(&self) -> i64 {
        self.found
    }

    /// The scripts that were applied when the store was opened.
    pub closed spec fn scripts_applied(&self) -> Seq<Script> {
        scripts_of(self.applied@)
    }

    /// Opens the store of a state directory with the built-in scripts. The
    /// database file is created where it does not exist. The session that
    /// comes back has applied all the built-in scripts that were pending at
    /// the watermark it found, each once, in their order.
    ///
    /// No lock is taken here. Where several processes may use the store,
    /// the caller holds the exclusive lock on the database file from before
    /// this call until the session is dropped.
    pub fn open(state_dir: &str) -> (r: Result<Session, StoreError>)
        ensures
            r matches Ok(session) ==> session.scripts_applied() == pending(
                builtin_scripts(),
                session.watermark_before() as int,
            ),
            r matches Err(e) ==> e is Io || e is Migration || e is Clock,
    {
        let database = file_in(state_dir, DATABASE_FILE);
        let registry = Registry::builtin();
        Session::open_at(database.as_str(), &registry)
    }

    /// Opens the store in the database file at the given path and brings
    /// its schema up to date with the given scripts. The session that comes
    /// back has applied all the scripts that were pending at the watermark
    /// it found, each once, in their order. A pending script whose name has
    /// more bytes than can be bound makes the call fail.
    ///
    /// No lock is taken here: see [`Session::open`].
    pub fn open_at(database: &str, registry: &Registry) -> (r: Result<Session, StoreError>)
        ensures
            r matches Ok(session) ==> {
                &&& session.scripts_applied() == pending(
                    registry@,
                    session.watermark_before() as int,
                )
                &&& names_fit(pending(registry@, session.watermark_before() as int))
            },
            r matches Err(e) ==> e is Io || e is Migration || e is Clock,
    {
        let connection = match open(database) {
            Ok(connection) => connection,
            Err(error) => {
                return Err(StoreError::Io(describe(&error)));
            },
        };
        match apply_migrations(&connection, registry) {
            (applied, Ok(found)) => Ok(Session { connection, found, applied }),
            (_, Err(failure)) => Err(failure),
        }
    }

    /// The watermark that the store had before it was opened: the highest
    /// id that was applied then, or -1.
    pub fn previous_watermark(&self) -> (watermark: i64)
        ensures
            watermark == self.watermark_before(),
    {
        self.found
    }

    /// The scripts that were applied when the store was opened, in the
    /// order in which they were applied.
    pub fn applied(&self) -> (scripts: &Vec<Migration>)
        ensures
            scripts_of(scripts@) == self.scripts_applied(),
    {
        &self.applied
    }

    /// When the path was last seen, or `None` if it has no row. A path of
    /// more bytes than can be bound is refused.
    pub fn last_seen(&self, path: &str) -> (r: Result<Option<i64>, StoreError>)
        ensures
            r matches Err(e) ==> e is Query,
            r is Ok ==> byte_length(path@) <= LARGEST,
    {
        let request = lookup_request(path);
        let mut statement = prepare_request(&self.connection, &request, Purpose::Query)?;
        proof {
            assert(request@.bindings.len() == 1);
            assert(request@.bindings[0] == Bound::Text(path@));
        }
        match serve(Purpose::Query, advance(&mut statement))? {
            Step::Done => Ok(None),
            Step::Row => time_found(serve(Purpose::Query, read_integer(&statement, 0))?),
        }
    }

    /// Writes what a visit does to the row of a path. A visit that does
    /// nothing succeeds without the database; any other is refused for a
    /// path of more bytes than can be bound.
    fn write_visit(&self, path: &str, now: i64, visit: Visit) -> (r: Result<(), StoreError>)
        ensures
            r matches Err(e) ==> e is Write,
            visit is Ignore ==> r is Ok,
            r is Ok ==> visit is Ignore || byte_length(path@) <= LARGEST,
    {
        match change_request(path, now, visit) {
            Some(request) => {
                assert(request@ == change_of(path@, now, visit).unwrap());
                let r = run_request(&self.connection, &request, Purpose::Write);
                proof {
                    if r is Ok {
                        let asked = change_of(path@, now, visit).unwrap();
                        let place: int = if visit is Create {
                            0
                        } else if visit is Restart {
                            1
                        } else {
                            2
                        };
                        assert(request@ == asked);
                        assert(0 <= place < asked.bindings.len());
                        assert(asked.bindings[place] == Bound::Text(path@));
                    }
                }
                r
            },
            None => Ok(()),
        }
    }

    /// Records a visit to a path at time `now` and returns what it did to
    /// the row: the rule for visits, applied to the time that the row held.
    /// Only a visit that may create makes a row for a path that has none.
    /// A path of more bytes than can be bound is refused.
    pub fn record_visit(&self, path: &str, now: i64, create_missing: bool) -> (r: Result<
        Visit,
        StoreError,
    >)
        ensures
            r matches Ok(visit) ==> exists|prior: Option<i64>|
                visit == #[trigger] visit_rule(prior, now, create_missing),
            r matches Err(e) ==> e is Query || e is Write,
            r is Ok ==> byte_length(path@) <= LARGEST,
    {
        let prior = self.last_seen(path)?;
        let visit = plan_visit(prior, now, create_missing);
        self.write_visit(path, now, visit)?;
        Ok(visit)
    }

    /// Saves a path at time `now` and returns what that did to its row by
    /// the rule for visits that may create: the row is made, or one more
    /// visit is recorded in it. A path of more bytes than can be bound is
    /// refused.
    pub fn save_at(&self, path: &str, now: i64) -> (r: Result<Visit, StoreError>)
        ensures
            r matches Ok(visit) ==> exists|prior: Option<i64>|
                visit == #[trigger] visit_rule(prior, now, true),
            r matches Err(e) ==> e is Query || e is Write,
            r is Ok ==> byte_length(path@) <= LARGEST,
    {
        self.record_visit(path, now, true)
    }

    /// Records one more visit at time `now` to a path that was saved
    /// before, and returns what that did to its row by the rule for visits
    /// that may not create: a path without a row is left without one. A
    /// path of more bytes than can be bound is refused.
    pub fn update_at(&self, path: &str, now: i64) -> (r: Result<Visit, StoreError>)
        ensures
            r matches Ok(visit) ==> exists|prior: Option<i64>|
                visit == #[trigger] visit_rule(prior, now, false),
            r matches Err(e) ==> e is Query || e is Write,
            r is Ok ==> byte_length(path@) <= LARGEST,
    {
        self.record_visit(path, now, false)
    }

    /// Answers a query at time `now`: the paths that begin with
    /// `root_path` and are still remembered, those under `work_dir` first,
    /// each group by descending score.
    pub fn query_at(&self, root_path: &Option<String>, work_dir: &Option<String>, now: i64) -> (r:
        Result<Vec<String>, StoreError>)
        ensures
            r matches Ok(paths) ==> exists|rows: Seq<FreqPath>|
                texts(paths@) == #[trigger] ranked(
                    rows,
                    root_prefix(*root_path),
                    optional_text(*work_dir),
                    now,
                ),
            r matches Err(e) ==> e is Query,
    {
        let rows = read_rows(&self.connection)?;
        Ok(rank_paths(&rows, root_path, work_dir, now))
    }

    /// Saves a path at the time of the wall clock and returns what that
    /// did to its row, by the rule for visits that may create.
    pub fn save(&self, path: &str) -> (r: Result<Visit, StoreError>)
        ensures
            r matches Ok(visit) ==> exists|prior: Option<i64>, now: i64|
                now >= 0 && visit == #[trigger] visit_rule(prior, now, true),
            r matches Err(e) ==> e is Clock || e is Query || e is Write,
            r is Ok ==> byte_length(path@) <= LARGEST,
    {
        let now = epoch_time()?;
        self.save_at(path, now)
    }

    /// Records a visit to a saved path at the time of the wall clock and
    /// returns what that did to its row, by the rule for visits that may
    /// not create.
    pub fn update(&self, path: &str) -> (r: Result<Visit, StoreError>)
        ensures
            r matches Ok(visit) ==> exists|prior: Option<i64>, now: i64|
                now >= 0 && visit == #[trigger] visit_rule(prior, now, false),
            r matches Err(e) ==> e is Clock || e is Query || e is Write,
            r is Ok ==> byte_length(path@) <= LARGEST,
    {
        let now = epoch_time()?;
        self.update_at(path, now)
    }

    /// Answers a query at the time of the wall clock.
    pub fn query(&self, root_path: &Option<String>, work_dir: &Option<String>) -> (r: Result<
        Vec<String>,
        StoreError,
    >)
        ensures
            r matches Ok(paths) ==> exists|rows: Seq<FreqPath>, now: i64|
                now >= 0 && texts(paths@) == #[trigger] ranked(
                    rows,
                    root_prefix(*root_path),
                    optional_text(*work_dir),
                    now,
                ),
            r matches Err(e) ==> e is Clock || e is Query,
    {
        let now = epoch_time()?;
        self.query_at(root_path, work_dir, now)
    }
}

/// Opens the store of a state directory and answers a query at the time
/// of the wall clock.
///
/// No lock is taken here. Where several processes may use the store, the
/// caller holds the exclusive lock on the database file for the call.
pub fn get_paths(db_dir: &str, root_path: &Option<String>, work_dir: &Option<String>) -> (r:
    Result<Vec<String>, StoreError>)
    ensures
        r matches Ok(paths) ==> exists|rows: Seq<FreqPath>, now: i64|
            now >= 0 && texts(paths@) == #[trigger] ranked(
                rows,
                root_prefix(*root_path),
                optional_text(*work_dir),
                now,
            ),
        r matches Err(e) ==> e is Io || e is Migration || e is Clock || e is Query,
{
    let session = Session::open(db_dir)?;
    session.query(root_path, work_dir)
}

/// Opens the store of a state directory and records a visit to a path
/// that was saved before, at the time of the wall clock. Returns what that
/// did to the row of the path, by the rule for visits that may not create:
/// a path that was never saved gets no row.
///
/// No lock is taken here. Where several processes may use the store, the
/// caller holds the exclusive lock on the database file for the call.
pub fn update_path(db_dir: &str, path: &str) -> (r: Result<Visit, StoreError>)
    ensures
        r matches Ok(visit) ==> exists|prior: Option<i64>, now: i64|
            now >= 0 && visit == #[trigger] visit_rule(prior, now, false),
        r matches Err(e) ==> e is Io || e is Migration || e is Clock || e is Query || e is Write,
        r is Ok ==> byte_length(path@) <= LARGEST,
{
    let session = Session::open(db_dir)?;
    session.update(path)
}

/// Opens the store of a state directory and saves a path at the time of
/// the wall clock. Returns what that did to the row of the path, by the
/// rule for visits that may create: the row is made, or one more visit is
/// recorded in it.
///
/// No lock is taken here. Where several processes may use the store, the
/// caller holds the exclusive lock on the database file for the call.
pub fn save_path(db_dir: &str, path: &str) -> (r: Result<Visit, StoreError>)
    ensures
        r matches Ok(visit) ==> exists|prior: Option<i64>, now: i64|
            now >= 0 && visit == #[trigger] visit_rule(prior, now, true),
        r matches Err(e) ==> e is Io || e is Migration || e is Clock || e is Query || e is Write,
        r is Ok ==> byte_length(path@) <= LARGEST,
{
    let session = Session::open(db_dir)?;
    session.save(path)
}

} // verus!
