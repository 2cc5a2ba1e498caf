//! The rule of visits: what saving or updating a path does to its row.

use vstd::prelude::*;

verus! {

/// The longest gap since the last visit, in milliseconds, that a path
/// survives: seven days. Beyond it the path is left out of every ranking and
/// its score starts over at the next visit.
pub const FORGET_THRESHOLD: i64 = 7 * 24 * 60 * 60 * 1000;

/// What recording a visit does to the row of the visited path.
#[derive(Debug, Clone, Copy, PartialEq, Eq, Structural)]
pub enum Visit {
    /// The path has no row and none is to be made: nothing is written.
    Ignore,
    /// The path has no row: one is made, with a score of one.
    Create { last_seen: i64 },
    /// The previous visit lies further back than the forget threshold: the
    /// score starts over at one.
    Restart { last_seen: i64 },
    /// The previous visit is remembered: the score grows by
    /// `1 - 1 / (1 + gap / 1_800_000)`, where `gap` is the time since that
    /// visit in milliseconds. Rapid visits add next to nothing, visits far
    /// apart close to one.
    Accumulate { last_seen: i64 },
}

impl Visit {
    /// When the row was last seen once the visit is recorded, given when it
    /// was last seen before; `None` stands for a path without a row.
    pub open spec fn last_seen_after(self, prior: Option<i64>) -> Option<i64> {
        match self {
            Visit::Ignore => prior,
            Visit::Create { last_seen } => Some(last_seen),
            Visit::Restart { last_seen } => Some(last_seen),
            Visit::Accumulate { last_seen } => Some(last_seen),
        }
    }
}

/// The later of two times.
pub open spec fn later_of(a: i64, b: i64) -> i64 {
    if a >= b {
        a
    } else {
        b
    }
}

/// The rule for recording a visit at time `now` to a path whose row was
/// last seen at `prior`, or that has no row. A missing row is made only
/// when `create_missing` is set. An existing row keeps the later of its own
/// time and `now`; its score starts over when more than the forget
/// threshold has passed, and grows otherwise.
pub open spec fn visit_rule(prior: Option<i64>, now: i64, create_missing: bool) -> Visit {
    match prior {
        None => if create_missing {
            Visit::Create { last_seen: now }
        } else {
            Visit::Ignore
        },
        Some(seen) => if now - seen > FORGET_THRESHOLD {
            Visit::Restart { last_seen: later_of(seen, now) }
        } else {
            Visit::Accumulate { last_seen: later_of(seen, now) }
        },
    }
}

/// Decides what a visit at time `now` does to a row last seen at `prior`.
pub fn plan_visit(prior: Option<i64>, now: i64, create_missing: bool) -> (visit: Visit)
    ensures
        visit == visit_rule(prior, now, create_missing),
{
    match prior {
        None => {
            if create_missing {
                Visit::Create { last_seen: now }
            } else {
                Visit::Ignore
            }
        },
        Some(seen) => {
            let last_seen: i64 = if seen >= now {
                seen
            } else {
                now
            };
            if (now as i128) - (seen as i128) > (FORGET_THRESHOLD as i128) {
                Visit::Restart { last_seen }
            } else {
                Visit::Accumulate { last_seen }
            }
        },
    }
}

/// When a path of a table was last seen; `None` for a path without a row.
/// A table is spoken of as the map from its paths to their times.
pub open spec fn time_in(table: Map<Seq<char>, i64>, path: Seq<char>) -> Option<i64> {
    if table.dom().contains(path) {
        Some(table[path])
    } else {
        None
    }
}

/// The table after a visit to a path at time `now`: the row of the path
/// holds the time that the rule gives, and a visit that does nothing leaves
/// the table as it is.
pub open spec fn table_after(
    table: Map<Seq<char>, i64>,
    path: Seq<char>,
    now: i64,
    create_missing: bool,
) -> Map<Seq<char>, i64> {
    let prior = time_in(table, path);
    match visit_rule(prior, now, create_missing).last_seen_after(prior) {
        Some(last_seen) => table.insert(path, last_seen),
        None => table,
    }
}

/// Updating a path that was never saved leaves the table unchanged:
/// nothing is written and no row appears.
pub proof fn lemma_update_never_creates(table: Map<Seq<char>, i64>, path: Seq<char>, now: i64)
    requires
        !table.dom().contains(path),
    ensures
        visit_rule(time_in(table, path), now, false) == Visit::Ignore,
        table_after(table, path, now, false) == table,
{
}

/// A visit changes no row but that of the visited path.
pub proof fn lemma_visit_touches_one_row(
    table: Map<Seq<char>, i64>,
    path: Seq<char>,
    other: Seq<char>,
    now: i64,
    create_missing: bool,
)
    requires
        other != path,
    ensures
        time_in(table_after(table, path, now, create_missing), other) == time_in(table, other),
{
}

/// Only a visit that may create makes a row, and such a visit never does
/// nothing: an update is never the making of a row, and a save is never
/// ignored.
pub proof fn lemma_only_a_save_creates(prior: Option<i64>, now: i64)
    ensures
        !(visit_rule(prior, now, false) is Create),
        !(visit_rule(prior, now, true) is Ignore),
        visit_rule(prior, now, false) is Ignore <==> prior is None,
        visit_rule(prior, now, true) is Create <==> prior is None,
        prior is Some ==> visit_rule(prior, now, true) == visit_rule(prior, now, false),
{
}

/// A visit that may create always leaves a row behind, seen no earlier
/// than the visit, and the time of a row never moves backwards.
pub proof fn lemma_visit_keeps_latest_time(prior: Option<i64>, now: i64, create_missing: bool)
    ensures
        create_missing || prior is Some ==> visit_rule(prior, now, create_missing).last_seen_after(
            prior,
        ) is Some,
        visit_rule(prior, now, create_missing).last_seen_after(prior) matches Some(after) ==> {
            &&& after >= now
            &&& prior matches Some(before) ==> after >= before
        },
{
}

/// The score starts over exactly when more than the forget threshold has
/// passed since the previous visit.
pub proof fn lemma_score_restarts_past_threshold(seen: i64, now: i64, create_missing: bool)
    ensures
        visit_rule(Some(seen), now, create_missing) is Restart <==> now - seen > FORGET_THRESHOLD,
        visit_rule(Some(seen), now, create_missing) is Accumulate <==> now - seen
            <= FORGET_THRESHOLD,
{
}

} // verus!
