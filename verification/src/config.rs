//! One invocation of the store: the state directory and a command.

use vstd::prelude::*;
use crate::error::StoreError;
use crate::ranking::{optional_text, ranked, root_prefix, texts, FreqPath};
use crate::statements::LARGEST;
use crate::storage::Session;
use crate::text::byte_length;
use crate::visits::{visit_rule, Visit};

verus! {

/// What the store is asked to do. Every path is absolute and resolved
/// already; the store compares paths as they are written.
#[derive(Debug, Clone)]
#[allow(inconsistent_fields)]
pub enum Command {
    /// List the saved paths, most relevant first.
    Query {
        /// List only the paths that begin with this one.
        path: Option<String>,
        /// The working directory: paths under it come first.
        working_dir: Option<String>,
    },
    /// Save a path.
    Save { path: String },
    /// Count one more visit to a path, but only if it was saved before.
    Update { path: String },
}

/// What a command gave.
#[derive(Debug, Clone, PartialEq, Eq)]
pub enum Answer {
    /// The paths that a query returned, in order.
    Paths(Vec<String>),
    /// What saving or updating did to the row of the path.
    Visited(Visit),
}

/// The answer is one that the command may give at some time of the wall
/// clock: a query gives the ranking of some rows, a save what the rule for
/// visits that may create gives for some row, an update what the rule for
/// visits that may not create gives. A saved or updated path has no more
/// bytes than can be bound.
pub open spec fn answers(command: Command, answer: Answer) -> bool {
    match command {
        Command::Query { path, working_dir } => answer matches Answer::Paths(paths) && exists|
            rows: Seq<FreqPath>,
            now: i64,
        |
            now >= 0 && texts(paths@) == #[trigger] ranked(
                rows,
                root_prefix(path),
                optional_text(working_dir),
                now,
            ),
        Command::Save { path } => answer matches Answer::Visited(visit) && byte_length(path@)
            <= LARGEST && exists|prior: Option<i64>, now: i64|
            now >= 0 && visit == #[trigger] visit_rule(prior, now, true),
        Command::Update { path } => answer matches Answer::Visited(visit) && byte_length(path@)
            <= LARGEST && exists|prior: Option<i64>, now: i64|
            now >= 0 && visit == #[trigger] visit_rule(prior, now, false),
    }
}

impl Command {
    /// Carries out the command in an open store, at the time of the wall
    /// clock.
    pub fn run_in(&self, session: &Session) -> (r: Result<Answer, StoreError>)
        ensures
            r matches Ok(answer) ==> answers(*self, answer),
            r matches Err(e) ==> e is Clock || e is Query || e is Write,
            r matches Err(e) ==> self is Query ==> !(e is Write),
    {
        match self {
            Command::Query { path, working_dir } => {
                let paths = session.query(path, working_dir)?;
                Ok(Answer::Paths(paths))
            },
            Command::Save { path } => {
                let visit = session.save(path.as_str())?;
                Ok(Answer::Visited(visit))
            },
            Command::Update { path } => {
                let visit = session.update(path.as_str())?;
                Ok(Answer::Visited(visit))
            },
        }
    }
}

/// One invocation: the state directory that holds the store, and what to
/// do with it.
#[derive(Debug, Clone)]
pub struct FreqDirsConfig {
    pub state_dir: String,
    pub command: Command,
}

impl FreqDirsConfig {
    /// Opens the store of the state directory and carries out the command
    /// in it, at the time of the wall clock.
    ///
    /// No lock is taken here. Where several processes may use the store,
    /// the caller holds the exclusive lock on the database file for the
    /// call.
    pub fn run(&self) -> (r: Result<Answer, StoreError>)
        ensures
            r matches Ok(answer) ==> answers(self.command, answer),
            r matches Err(e) ==> !(e is Lock),
            r matches Err(e) ==> self.command is Query ==> !(e is Write),
    {
        let session = Session::open(self.state_dir.as_str())?;
        self.command.run_in(&session)
    }
}

} // verus!
