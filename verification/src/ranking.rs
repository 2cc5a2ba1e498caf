//! The rule of queries: which rows are candidates, and in which order
//! their paths are returned.

use vstd::prelude::*;
use crate::error::StoreError;
use crate::text::{begins_with, characters};
use crate::visits::{table_after, time_in, FORGET_THRESHOLD};

verus! {

/// One row of the path table, as far as ranking reads it. The score
/// accumulator stays in the database; rows are handed over in descending
/// order of score, so a row's position stands for its score.
#[derive(Debug, Clone)]
pub struct FreqPath {
    /// Absolute path, the unique key of the row.
    pub canonical_path: String,
    /// Epoch milliseconds of the most recent recorded visit.
    pub last_seen: i64,
}

/// The characters of an optional filter.
pub open spec fn optional_text(filter: Option<String>) -> Option<Seq<char>> {
    match filter {
        Some(s) => Some(s@),
        None => None,
    }
}

/// The prefix that an optional root filter stands for: an absent filter
/// is the empty prefix, which every path begins with.
pub open spec fn root_prefix(root_path: Option<String>) -> Seq<char> {
    match root_path {
        Some(s) => s@,
        None => Seq::empty(),
    }
}

/// A row last seen at `last_seen` is still remembered at time `now`.
pub open spec fn is_fresh(last_seen: i64, now: i64) -> bool {
    now - last_seen < FORGET_THRESHOLD
}

/// A row takes part in a query: its path begins with the root prefix and
/// it is still remembered.
pub open spec fn is_candidate(row: FreqPath, root: Seq<char>, now: i64) -> bool {
    root.is_prefix_of(row.canonical_path@) && is_fresh(row.last_seen, now)
}

/// A row lies under the working directory. Without a working directory no
/// row does.
pub open spec fn in_work_dir(row: FreqPath, work_dir: Option<Seq<char>>) -> bool {
    match work_dir {
        Some(w) => w.is_prefix_of(row.canonical_path@),
        None => false,
    }
}

/// Selects the candidates under the working directory.
pub open spec fn leading(root: Seq<char>, work_dir: Option<Seq<char>>, now: i64) -> spec_fn(
    FreqPath,
) -> bool {
    |row: FreqPath| is_candidate(row, root, now) && in_work_dir(row, work_dir)
}

/// Selects the candidates outside the working directory.
pub open spec fn trailing(root: Seq<char>, work_dir: Option<Seq<char>>, now: i64) -> spec_fn(
    FreqPath,
) -> bool {
    |row: FreqPath| is_candidate(row, root, now) && !in_work_dir(row, work_dir)
}

/// The paths of a sequence of rows, in the same order.
pub open spec fn paths_of(rows: Seq<FreqPath>) -> Seq<Seq<char>> {
    rows.map_values(|row: FreqPath| row.canonical_path@)
}

/// The characters of each string of a sequence.
pub open spec fn texts(strings: Seq<String>) -> Seq<Seq<char>> {
    strings.map_values(|s: String| s@)
}

/// The answer to a query over rows given in descending order of score:
/// first the candidates under the working directory, then the other
/// candidates, each group in the order of the rows.
pub open spec fn ranked(
    rows: Seq<FreqPath>,
    root: Seq<char>,
    work_dir: Option<Seq<char>>,
    now: i64,
) -> Seq<Seq<char>> {
    paths_of(rows.filter(leading(root, work_dir, now))) + paths_of(
        rows.filter(trailing(root, work_dir, now)),
    )
}

/// The characters of an optional filter held as a vector.
spec fn vec_text(filter: Option<Vec<char>>) -> Option<Seq<char>> {
    match filter {
        Some(v) => Some(v@),
        None => None,
    }
}

/// No two rows hold the same path: the path is the key of the table.
pub open spec fn distinct_paths(rows: Seq<FreqPath>) -> bool {
    forall|i: int, j: int|
        0 <= i < j < rows.len() ==> rows[i].canonical_path@ != rows[j].canonical_path@
}

/// The row that a path and the column of its time make: a column that
/// held no time makes no row, since such a path is neither remembered nor
/// forgotten.
pub fn row_of(canonical_path: String, column: Option<i64>) -> (row: Option<FreqPath>)
    ensures
        row == match column {
            Some(last_seen) => Some(FreqPath { canonical_path, last_seen }),
            None => None::<FreqPath>,
        },
{
    match column {
        Some(last_seen) => Some(FreqPath { canonical_path, last_seen }),
        None => None,
    }
}

/// What one step of reading the path table gave.
#[derive(Debug)]
pub enum Fetched {
    /// There is no further row.
    End,
    /// A row: its path, and the column of its time.
    Row { canonical_path: String, last_seen: Option<i64> },
    /// The step failed.
    Failed(StoreError),
}

/// The rows after a row with the given path and column of time is taken
/// in: one more where the column held a time, the same where it held none.
pub open spec fn with_row(rows: Seq<FreqPath>, canonical_path: String, column: Option<i64>) -> Seq<
    FreqPath,
> {
    match column {
        Some(last_seen) => rows.push(FreqPath { canonical_path, last_seen }),
        None => rows,
    }
}

/// Takes one step of a reading into account: at the end the rows read so
/// far are all and reading stops, a row is taken in and reading goes on,
/// and a failed step is the failure of the whole reading, whatever was
/// read before. Returns the rows and whether to go on.
pub fn gather(rows: Vec<FreqPath>, fetched: Fetched) -> (r: Result<(Vec<FreqPath>, bool), StoreError>)
    ensures
        match fetched {
            Fetched::End => r == Ok::<(Vec<FreqPath>, bool), StoreError>((rows, false)),
            Fetched::Row { canonical_path, last_seen } => r matches Ok(next) && next.1 && next.0@
                == with_row(rows@, canonical_path, last_seen),
            Fetched::Failed(failure) => r == Err::<(Vec<FreqPath>, bool), StoreError>(failure),
        },
{
    match fetched {
        Fetched::End => Ok((rows, false)),
        Fetched::Row { canonical_path, last_seen } => {
            let mut rows = rows;
            match row_of(canonical_path, last_seen) {
                Some(row) => {
                    rows.push(row);
                },
                None => {},
            }
            Ok((rows, true))
        },
        Fetched::Failed(failure) => Err(failure),
    }
}

/// Whether a row is still remembered at time `now`.
pub fn fresh(last_seen: i64, now: i64) -> (b: bool)
    ensures
        b == is_fresh(last_seen, now),
{
    (now as i128) - (last_seen as i128) < (FORGET_THRESHOLD as i128)
}

/// Appends to `out` the paths of the candidates that lie under the working
/// directory (`under` true) or outside it (`under` false), in row order.
fn collect_group(
    rows: &Vec<FreqPath>,
    root: &Vec<char>,
    work_dir: &Option<Vec<char>>,
    now: i64,
    under: bool,
    out: &mut Vec<String>,
)
    ensures
        texts(final(out)@) == texts(old(out)@) + paths_of(
            rows@.filter(
                if under {
                    leading(root@, vec_text(*work_dir), now)
                } else {
                    trailing(root@, vec_text(*work_dir), now)
                },
            ),
        ),
{
    let ghost keep = if under {
        leading(root@, vec_text(*work_dir), now)
    } else {
        trailing(root@, vec_text(*work_dir), now)
    };
    let ghost before = texts(out@);
    let mut i: usize = 0;
    proof {
        reveal(Seq::filter);
        assert(rows@.take(0) =~= Seq::<FreqPath>::empty());
        assert(texts(out@) =~= before + paths_of(rows@.take(0).filter(keep)));
    }
    while i < rows.len()
        invariant
            i <= rows.len(),
            keep == if under {
                leading(root@, vec_text(*work_dir), now)
            } else {
                trailing(root@, vec_text(*work_dir), now)
            },
            texts(out@) == before + paths_of(rows@.take(i as int).filter(keep)),
        decreases rows.len() - i,
    {
        let row = &rows[i];
        let path = characters(row.canonical_path.as_str());
        let inside = match work_dir {
            Some(w) => begins_with(&path, w),
            None => false,
        };
        let chosen = begins_with(&path, root) && fresh(row.last_seen, now) && inside == under;
        proof {
            assert(rows@.take(i + 1) =~= rows@.take(i as int).push(rows@[i as int]));
            lemma_filter_push(rows@.take(i as int), rows@[i as int], keep);
            assert(chosen == keep(rows@[i as int]));
        }
        if chosen {
            let ghost prior = out@;
            out.push(row.canonical_path.clone());
            proof {
                assert(texts(out@) =~= texts(prior).push(row.canonical_path@));
                assert(paths_of(rows@.take(i as int).filter(keep).push(rows@[i as int]))
                    =~= paths_of(rows@.take(i as int).filter(keep)).push(row.canonical_path@));
            }
        }
        i += 1;
    }
    proof {
        assert(rows@.take(rows.len() as int) =~= rows@);
    }
}

/// Answers a query over `rows`, which are given in descending order of
/// score. A row is a candidate when its path begins with `root_path` (an
/// absent root matches every path) and it was seen less than the forget
/// threshold before `now`. Candidates under `work_dir` come first, the
/// others after them; within each group the order of `rows` is kept.
pub fn rank_paths(
    rows: &Vec<FreqPath>,
    root_path: &Option<String>,
    work_dir: &Option<String>,
    now: i64,
) -> (paths: Vec<String>)
    ensures
        texts(paths@) == ranked(rows@, root_prefix(*root_path), optional_text(*work_dir), now),
{
    let root: Vec<char> = match root_path {
        Some(p) => characters(p.as_str()),
        None => Vec::new(),
    };
    let dir: Option<Vec<char>> = match work_dir {
        Some(w) => Some(characters(w.as_str())),
        None => None,
    };
    let mut paths: Vec<String> = Vec::new();
    assert(texts(paths@) =~= Seq::<Seq<char>>::empty());
    collect_group(rows, &root, &dir, now, true, &mut paths);
    collect_group(rows, &root, &dir, now, false, &mut paths);
    paths
}

proof fn lemma_filter_push<A>(s: Seq<A>, x: A, keep: spec_fn(A) -> bool)
    ensures
        s.push(x).filter(keep) == if keep(x) {
            s.filter(keep).push(x)
        } else {
            s.filter(keep)
        },
{
    reveal(Seq::filter);
    assert(s.push(x).drop_last() =~= s);
}

proof fn lemma_filter_source<A>(s: Seq<A>, keep: spec_fn(A) -> bool, a: int) -> (i: int)
    requires
        0 <= a < s.filter(keep).len(),
    ensures
        0 <= i < s.len(),
        s[i] == s.filter(keep)[a],
        keep(s[i]),
{
    s.lemma_filter_pred(keep, a);
    assert(s.filter(keep).contains(s.filter(keep)[a]));
    s.lemma_filter_contains_rev(keep, s.filter(keep)[a]);
    choose|i: int| 0 <= i < s.len() && s[i] == s.filter(keep)[a]
}

proof fn lemma_filter_place<A>(s: Seq<A>, keep: spec_fn(A) -> bool, i: int) -> (a: int)
    requires
        0 <= i < s.len(),
        keep(s[i]),
    ensures
        0 <= a < s.filter(keep).len(),
        s.filter(keep)[a] == s[i],
{
    s.lemma_filter_contains(keep, i);
    choose|a: int| 0 <= a < s.filter(keep).len() && s.filter(keep)[a] == s[i]
}

proof fn lemma_filter_keeps_order<A>(s: Seq<A>, keep: spec_fn(A) -> bool, i: int, j: int) -> (places:
    (int, int))
    requires
        0 <= i < j < s.len(),
        keep(s[i]),
        keep(s[j]),
    ensures
        0 <= places.0 < places.1 < s.filter(keep).len(),
        s.filter(keep)[places.0] == s[i],
        s.filter(keep)[places.1] == s[j],
    decreases s.len(),
{
    let front = s.drop_last();
    let kept = front.filter(keep);
    assert(front.push(s.last()) =~= s);
    lemma_filter_push(front, s.last(), keep);
    if j == s.len() - 1 {
        let a = lemma_filter_place(front, keep, i);
        (a, kept.len() as int)
    } else {
        lemma_filter_keeps_order(front, keep, i, j)
    }
}

/// Every returned path is the path of a candidate row: one that begins
/// with the root prefix and is still remembered.
pub proof fn lemma_only_candidates_are_returned(
    rows: Seq<FreqPath>,
    root: Seq<char>,
    work_dir: Option<Seq<char>>,
    now: i64,
    k: int,
) -> (i: int)
    requires
        0 <= k < ranked(rows, root, work_dir, now).len(),
    ensures
        0 <= i < rows.len(),
        rows[i].canonical_path@ == ranked(rows, root, work_dir, now)[k],
        is_candidate(rows[i], root, now),
        in_work_dir(rows[i], work_dir) <==> k < rows.filter(leading(root, work_dir, now)).len(),
{
    let first = rows.filter(leading(root, work_dir, now));
    let second = rows.filter(trailing(root, work_dir, now));
    if k < first.len() {
        lemma_filter_source(rows, leading(root, work_dir, now), k)
    } else {
        lemma_filter_source(rows, trailing(root, work_dir, now), k - first.len())
    }
}

/// Every candidate row is returned: among the first
/// `rows.filter(leading(..)).len()` paths if it lies under the working
/// directory, after them if it does not.
pub proof fn lemma_every_candidate_is_returned(
    rows: Seq<FreqPath>,
    root: Seq<char>,
    work_dir: Option<Seq<char>>,
    now: i64,
    i: int,
) -> (k: int)
    requires
        0 <= i < rows.len(),
        is_candidate(rows[i], root, now),
    ensures
        0 <= k < ranked(rows, root, work_dir, now).len(),
        ranked(rows, root, work_dir, now)[k] == rows[i].canonical_path@,
        in_work_dir(rows[i], work_dir) <==> k < rows.filter(leading(root, work_dir, now)).len(),
{
    let first = rows.filter(leading(root, work_dir, now));
    if in_work_dir(rows[i], work_dir) {
        lemma_filter_place(rows, leading(root, work_dir, now), i)
    } else {
        first.len() + lemma_filter_place(rows, trailing(root, work_dir, now), i)
    }
}

/// A row seen a forget threshold or longer before `now` is left out of the
/// answer altogether. Rows are handed over in order of score, so this holds
/// wherever the row stands among them: no score brings it back.
pub proof fn lemma_forgotten_rows_are_left_out(
    rows: Seq<FreqPath>,
    root: Seq<char>,
    work_dir: Option<Seq<char>>,
    now: i64,
    i: int,
)
    requires
        distinct_paths(rows),
        0 <= i < rows.len(),
        now - rows[i].last_seen >= FORGET_THRESHOLD,
    ensures
        !ranked(rows, root, work_dir, now).contains(rows[i].canonical_path@),
{
    let answer = ranked(rows, root, work_dir, now);
    if answer.contains(rows[i].canonical_path@) {
        let k = choose|k: int| 0 <= k < answer.len() && answer[k] == rows[i].canonical_path@;
        let source = lemma_only_candidates_are_returned(rows, root, work_dir, now, k);
        assert(source == i);
    }
}

/// A candidate under the working directory is returned before every
/// candidate outside it, whichever of the two has the higher score, that
/// is, wherever the two stand among the rows.
pub proof fn lemma_work_dir_comes_first(
    rows: Seq<FreqPath>,
    root: Seq<char>,
    work_dir: Option<Seq<char>>,
    now: i64,
    inside: int,
    outside: int,
)
    requires
        0 <= inside < rows.len(),
        0 <= outside < rows.len(),
        is_candidate(rows[inside], root, now),
        is_candidate(rows[outside], root, now),
        in_work_dir(rows[inside], work_dir),
        !in_work_dir(rows[outside], work_dir),
    ensures
        ranked(rows, root, work_dir, now).contains(rows[inside].canonical_path@),
        ranked(rows, root, work_dir, now).contains(rows[outside].canonical_path@),
        forall|a: int, b: int|
            #![trigger ranked(rows, root, work_dir, now)[a], ranked(rows, root, work_dir, now)[b]]
            0 <= a < ranked(rows, root, work_dir, now).len() && 0 <= b < ranked(
                rows,
                root,
                work_dir,
                now,
            ).len() && ranked(rows, root, work_dir, now)[a] == rows[inside].canonical_path@
                && ranked(rows, root, work_dir, now)[b] == rows[outside].canonical_path@ ==> a
                < b,
{
    let answer = ranked(rows, root, work_dir, now);
    let ka = lemma_every_candidate_is_returned(rows, root, work_dir, now, inside);
    let kb = lemma_every_candidate_is_returned(rows, root, work_dir, now, outside);
    assert forall|a: int, b: int|
        0 <= a < answer.len() && 0 <= b < answer.len() && answer[a]
            == rows[inside].canonical_path@ && answer[b]
            == rows[outside].canonical_path@ implies a < b by {
        let ia = lemma_only_candidates_are_returned(rows, root, work_dir, now, a);
        let ib = lemma_only_candidates_are_returned(rows, root, work_dir, now, b);
        assert(in_work_dir(rows[ia], work_dir));
        assert(!in_work_dir(rows[ib], work_dir));
    }
}

/// Within one group, under the working directory or outside it, the
/// higher score comes first: two candidates of the same group are returned
/// in the order of the rows.
pub proof fn lemma_score_orders_each_group(
    rows: Seq<FreqPath>,
    root: Seq<char>,
    work_dir: Option<Seq<char>>,
    now: i64,
    higher: int,
    lower: int,
) -> (places: (int, int))
    requires
        0 <= higher < lower < rows.len(),
        is_candidate(rows[higher], root, now),
        is_candidate(rows[lower], root, now),
        in_work_dir(rows[higher], work_dir) == in_work_dir(rows[lower], work_dir),
    ensures
        0 <= places.0 < places.1 < ranked(rows, root, work_dir, now).len(),
        ranked(rows, root, work_dir, now)[places.0] == rows[higher].canonical_path@,
        ranked(rows, root, work_dir, now)[places.1] == rows[lower].canonical_path@,
{
    let first = rows.filter(leading(root, work_dir, now));
    if in_work_dir(rows[higher], work_dir) {
        lemma_filter_keeps_order(rows, leading(root, work_dir, now), higher, lower)
    } else {
        let (a, b) = lemma_filter_keeps_order(rows, trailing(root, work_dir, now), higher, lower);
        (first.len() + a, first.len() + b)
    }
}

/// The rows hold a table: one row for each of its paths, with the path's
/// time.
pub open spec fn rows_hold(rows: Seq<FreqPath>, table: Map<Seq<char>, i64>) -> bool {
    &&& distinct_paths(rows)
    &&& forall|i: int|
        0 <= i < rows.len() ==> time_in(table, #[trigger] rows[i].canonical_path@) == Some(
            rows[i].last_seen,
        )
    &&& forall|path: Seq<char>| #[trigger]
        table.dom().contains(path) ==> exists|i: int|
            0 <= i < rows.len() && rows[i].canonical_path@ == path
}

/// A path that was just saved is returned by a query whose root is a
/// prefix of it: whatever the table held before, once the path is saved at
/// time `saved_at` every query less than the forget threshold later, over
/// the rows of the table in any order of score, returns the path.
pub proof fn lemma_saved_path_is_returned(
    table: Map<Seq<char>, i64>,
    path: Seq<char>,
    saved_at: i64,
    rows: Seq<FreqPath>,
    root: Seq<char>,
    work_dir: Option<Seq<char>>,
    now: i64,
)
    requires
        rows_hold(rows, table_after(table, path, saved_at, true)),
        root.is_prefix_of(path),
        now - saved_at < FORGET_THRESHOLD,
    ensures
        ranked(rows, root, work_dir, now).contains(path),
{
    let saved = table_after(table, path, saved_at, true);
    assert(saved.dom().contains(path));
    let i = choose|i: int| 0 <= i < rows.len() && rows[i].canonical_path@ == path;
    assert(time_in(saved, rows[i].canonical_path@) == Some(rows[i].last_seen));
    let k = lemma_every_candidate_is_returned(rows, root, work_dir, now, i);
}

/// A path whose row was last seen a forget threshold or longer before a
/// query is not returned, whatever the table holds beside it.
pub proof fn lemma_forgotten_path_is_not_returned(
    table: Map<Seq<char>, i64>,
    path: Seq<char>,
    rows: Seq<FreqPath>,
    root: Seq<char>,
    work_dir: Option<Seq<char>>,
    now: i64,
)
    requires
        rows_hold(rows, table),
        time_in(table, path) matches Some(last_seen) && now - last_seen >= FORGET_THRESHOLD,
    ensures
        !ranked(rows, root, work_dir, now).contains(path),
{
    let i = choose|i: int| 0 <= i < rows.len() && rows[i].canonical_path@ == path;
    assert(time_in(table, rows[i].canonical_path@) == Some(rows[i].last_seen));
    lemma_forgotten_rows_are_left_out(rows, root, work_dir, now, i);
}

} // verus!
