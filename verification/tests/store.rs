use freqdirs::config::{Answer, Command, FreqDirsConfig};
use freqdirs::error::StoreError;
use freqdirs::visits::{Visit, FORGET_THRESHOLD};
use freqdirs::migrations::Registry;
use freqdirs::storage::{
    get_paths, save_path, settle_transaction, time_found, update_path, Session,
};

const MINUTE: i64 = 60 * 1000;
const DAY: i64 = 24 * 60 * MINUTE;
const START: i64 = 1_700_000_000_000;

fn memory() -> Session {
    Session::open_at(":memory:", &Registry::builtin()).unwrap()
}

fn some(text: &str) -> Option<String> {
    Some(text.to_string())
}

fn file(name: &str, text: &str) -> (String, String) {
    (name.to_string(), text.to_string())
}

/// An empty database file of the given name.
fn fresh_database(name: &str) -> String {
    let path = format!("/tmp/{name}");
    let connection = sqlite::open(&path).unwrap();
    connection
        .execute(
            "drop table if exists freq_path; drop table if exists migration; \
             drop table if exists first; drop table if exists second; drop table if exists third;",
        )
        .unwrap();
    path
}

fn seen_count(database: &str, path: &str) -> f64 {
    let connection = sqlite::open(database).unwrap();
    let mut statement =
        connection.prepare("select seen_count from freq_path where canonical_path = ?").unwrap();
    statement.bind((1, path)).unwrap();
    assert_eq!(statement.next().unwrap(), sqlite::State::Row);
    statement.read::<f64, _>(0).unwrap()
}

fn count(database: &str, query: &str) -> i64 {
    let connection = sqlite::open(database).unwrap();
    let mut statement = connection.prepare(query).unwrap();
    assert_eq!(statement.next().unwrap(), sqlite::State::Row);
    statement.read::<i64, _>(0).unwrap()
}

fn applied_ids(database: &str) -> Vec<i64> {
    let connection = sqlite::open(database).unwrap();
    let mut statement = connection.prepare("select id from migration order by rowid").unwrap();
    let mut ids = vec![];
    while let sqlite::State::Row = statement.next().unwrap() {
        ids.push(statement.read::<i64, _>(0).unwrap());
    }
    ids
}

#[test]
fn new_store_is_empty() {
    let session = memory();
    assert_eq!(session.query_at(&None, &None, START).unwrap(), Vec::<String>::new());
    assert_eq!(session.last_seen("/a").unwrap(), None);
}

#[test]
fn saved_path_is_returned_by_a_query_on_its_prefix() {
    let session = memory();
    session.save_at("/home/user/project", START).unwrap();
    assert_eq!(session.query_at(&some("/home"), &None, START).unwrap(), vec!["/home/user/project"]);
    assert_eq!(session.query_at(&some("/home/user/project"), &None, START).unwrap(), vec![
        "/home/user/project"
    ]);
    assert_eq!(session.query_at(&some(""), &None, START).unwrap(), vec!["/home/user/project"]);
    assert_eq!(session.query_at(&None, &None, START).unwrap(), vec!["/home/user/project"]);
    assert_eq!(session.query_at(&None, &None, START + 1).unwrap(), vec!["/home/user/project"]);
}

#[test]
fn update_of_a_path_never_saved_changes_nothing() {
    let session = memory();
    session.save_at("/kept", START).unwrap();
    assert_eq!(session.record_visit("/other", START + 5, false).unwrap(), Visit::Ignore);
    session.update_at("/other", START + 6).unwrap();
    assert_eq!(session.last_seen("/other").unwrap(), None);
    assert_eq!(session.last_seen("/kept").unwrap(), Some(START));
    assert_eq!(session.query_at(&None, &None, START + 7).unwrap(), vec!["/kept"]);
}

#[test]
fn update_of_a_saved_path_moves_its_time() {
    let session = memory();
    session.save_at("/a", START).unwrap();
    assert_eq!(
        session.record_visit("/a", START + MINUTE, false).unwrap(),
        Visit::Accumulate { last_seen: START + MINUTE }
    );
    assert_eq!(session.last_seen("/a").unwrap(), Some(START + MINUTE));
}

#[test]
fn time_of_a_row_never_moves_backwards() {
    let session = memory();
    session.save_at("/a", START).unwrap();
    session.save_at("/a", START - DAY).unwrap();
    assert_eq!(session.last_seen("/a").unwrap(), Some(START));
    session.update_at("/a", START - 1).unwrap();
    assert_eq!(session.last_seen("/a").unwrap(), Some(START));
    session.update_at("/a", START + 1).unwrap();
    assert_eq!(session.last_seen("/a").unwrap(), Some(START + 1));
}

#[test]
fn save_reports_what_it_did() {
    let session = memory();
    assert_eq!(session.record_visit("/a", START, true).unwrap(), Visit::Create { last_seen: START });
    assert_eq!(
        session.record_visit("/a", START + 40 * MINUTE, true).unwrap(),
        Visit::Accumulate { last_seen: START + 40 * MINUTE }
    );
    assert_eq!(
        session.record_visit("/a", START + 40 * MINUTE + 8 * DAY, true).unwrap(),
        Visit::Restart { last_seen: START + 40 * MINUTE + 8 * DAY }
    );
}

#[test]
fn score_grows_by_a_fraction_and_restarts_after_eight_days() {
    let database = fresh_database("freqdirs_scores.db");
    let session = Session::open_at(&database, &Registry::builtin()).unwrap();
    session.save_at("/a", START).unwrap();
    assert_eq!(seen_count(&database, "/a"), 1.0);
    session.save_at("/a", START + 40 * MINUTE).unwrap();
    let grown = seen_count(&database, "/a");
    assert!(grown > 1.0 && grown < 2.0);
    assert!((grown - (1.0 + 4.0 / 7.0)).abs() < 1e-9);
    session.save_at("/a", START + 40 * MINUTE + 8 * DAY).unwrap();
    assert_eq!(seen_count(&database, "/a"), 1.0);
}

#[test]
fn score_grows_little_on_rapid_visits_and_almost_one_on_rare_ones() {
    let database = fresh_database("freqdirs_increments.db");
    let session = Session::open_at(&database, &Registry::builtin()).unwrap();
    session.save_at("/rapid", START).unwrap();
    session.save_at("/rapid", START).unwrap();
    assert_eq!(seen_count(&database, "/rapid"), 1.0);
    session.update_at("/rapid", START + 1_000).unwrap();
    let rapid = seen_count(&database, "/rapid");
    assert!((rapid - (1.0 + 1.0 / 1801.0)).abs() < 1e-9);
    session.save_at("/rare", START).unwrap();
    session.update_at("/rare", START + FORGET_THRESHOLD).unwrap();
    let rare = seen_count(&database, "/rare");
    assert!((rare - (1.0 + 336.0 / 337.0)).abs() < 1e-9);
    session.update_at("/rare", START + FORGET_THRESHOLD + 30 * MINUTE).unwrap();
    let later = seen_count(&database, "/rare");
    assert!((later - (1.5 + 336.0 / 337.0)).abs() < 1e-9);
}

#[test]
fn query_leaves_out_a_forgotten_path_with_a_high_score() {
    let session = memory();
    let mut now = START;
    for _ in 0..20 {
        session.save_at("/often", now).unwrap();
        now += 6 * 60 * MINUTE;
    }
    let last = now - 6 * 60 * MINUTE;
    session.save_at("/once", last + FORGET_THRESHOLD - 1).unwrap();
    assert_eq!(session.query_at(&None, &None, last + FORGET_THRESHOLD - 1).unwrap(), vec![
        "/once", "/often"
    ]);
    assert_eq!(session.query_at(&None, &None, last + FORGET_THRESHOLD).unwrap(), vec!["/once"]);
    assert_eq!(
        session.query_at(&None, &None, last + 2 * FORGET_THRESHOLD).unwrap(),
        Vec::<String>::new()
    );
}

#[test]
fn query_ranks_by_score() {
    let session = memory();
    session.save_at("/once", START).unwrap();
    session.save_at("/thrice", START - 2 * DAY).unwrap();
    session.save_at("/thrice", START - DAY).unwrap();
    session.save_at("/thrice", START).unwrap();
    session.save_at("/twice", START - DAY).unwrap();
    session.save_at("/twice", START).unwrap();
    assert_eq!(session.query_at(&None, &None, START).unwrap(), vec!["/thrice", "/twice", "/once"]);
}

#[test]
fn query_ranks_stale_rows_below_fresh_ones() {
    let session = memory();
    session.save_at("/stale", START - 10 * MINUTE).unwrap();
    session.save_at("/fresh", START).unwrap();
    session.save_at("/middle", START - 5 * MINUTE).unwrap();
    assert_eq!(session.query_at(&None, &None, START).unwrap(), vec!["/fresh", "/middle", "/stale"]);
}

#[test]
fn query_weighs_score_against_staleness() {
    let session = memory();
    // Two visits a day apart give a score accumulator of about 1.98, so:
    // sqrt(1.98) - sqrt(120000 / 30000) < sqrt(1) - 0 < sqrt(1.98) - sqrt(3000 / 30000)
    session.save_at("/far", START - DAY).unwrap();
    session.save_at("/far", START - 2 * MINUTE).unwrap();
    session.save_at("/near", START - DAY).unwrap();
    session.save_at("/near", START - 3_000).unwrap();
    session.save_at("/now", START).unwrap();
    assert_eq!(session.query_at(&None, &None, START).unwrap(), vec!["/near", "/now", "/far"]);
}

#[test]
fn query_puts_the_working_directory_before_higher_scores() {
    let session = memory();
    session.save_at("/high", START - 2 * DAY).unwrap();
    session.save_at("/high", START - DAY).unwrap();
    session.save_at("/high", START).unwrap();
    session.save_at("/work/low", START - 3 * DAY).unwrap();
    assert_eq!(session.query_at(&None, &None, START).unwrap(), vec!["/high", "/work/low"]);
    assert_eq!(session.query_at(&None, &some("/work"), START).unwrap(), vec!["/work/low", "/high"]);
    assert_eq!(session.query_at(&None, &some("/else"), START).unwrap(), vec!["/high", "/work/low"]);
}

#[test]
fn query_matches_the_literal_prefix() {
    let session = memory();
    session.save_at("/a", START).unwrap();
    session.save_at("/ab", START).unwrap();
    session.save_at("/b/a", START).unwrap();
    session.save_at("/A", START).unwrap();
    let mut found = session.query_at(&some("/a"), &None, START).unwrap();
    found.sort();
    assert_eq!(found, vec!["/a", "/ab"]);
}

#[test]
fn applying_twice_is_applying_once() {
    let database = fresh_database("freqdirs_twice.db");
    let registry = Registry::builtin();
    {
        let session = Session::open_at(&database, &registry).unwrap();
        session.save_at("/a", START).unwrap();
    }
    assert_eq!(applied_ids(&database), vec![1]);
    {
        let session = Session::open_at(&database, &registry).unwrap();
        assert_eq!(session.last_seen("/a").unwrap(), Some(START));
    }
    assert_eq!(applied_ids(&database), vec![1]);
    assert_eq!(count(&database, "select count(*) from freq_path"), 1);
}

#[test]
fn only_the_scripts_above_the_watermark_are_applied_in_order() {
    let database = fresh_database("freqdirs_order.db");
    let one = Registry::from_files(&vec![file("1_first.sql", "create table first (x);")]).unwrap();
    drop(Session::open_at(&database, &one).unwrap());
    assert_eq!(applied_ids(&database), vec![1]);
    let three = Registry::from_files(&vec![
        file("3_third.sql", "create table third (x); insert into third select count(*) from second;"),
        file("1_first.sql", "create table first (x);"),
        file("2_second.sql", "create table second (x); insert into second values (7);"),
    ])
    .unwrap();
    drop(Session::open_at(&database, &three).unwrap());
    assert_eq!(applied_ids(&database), vec![1, 2, 3]);
    assert_eq!(count(&database, "select x from third"), 1);
    assert_eq!(count(&database, "select count(*) from first"), 0);
    assert_eq!(
        count(&database, "select script_name = '2_second.sql' from migration where id = 2"),
        1
    );
    assert_eq!(count(&database, "select timestamp > 1600000000000 from migration where id = 3"), 1);
}

#[test]
fn failed_script_leaves_nothing_behind() {
    let database = fresh_database("freqdirs_failed.db");
    let registry = Registry::from_files(&vec![
        file("1_first.sql", "create table first (x);"),
        file("2_second.sql", "create table second (x); insert into missing values (1);"),
        file("3_third.sql", "create table third (x);"),
    ])
    .unwrap();
    assert!(matches!(Session::open_at(&database, &registry), Err(StoreError::Migration(_))));
    assert_eq!(applied_ids(&database), vec![1]);
    assert_eq!(
        count(&database, "select count(*) from sqlite_master where name in ('second', 'third')"),
        0
    );
    assert_eq!(count(&database, "select count(*) from sqlite_master where name = 'first'"), 1);
    assert!(matches!(Session::open_at(&database, &registry), Err(StoreError::Migration(_))));
    assert_eq!(applied_ids(&database), vec![1]);
}

#[test]
fn empty_tracking_table_stands_at_minus_one() {
    let database = fresh_database("freqdirs_empty_tracking.db");
    sqlite::open(&database)
        .unwrap()
        .execute("create table migration (id integer, script_name text, timestamp integer);")
        .unwrap();
    let registry = Registry::from_files(&vec![file("0_first.sql", "create table first (x);")]).unwrap();
    drop(Session::open_at(&database, &registry).unwrap());
    assert_eq!(applied_ids(&database), vec![0]);
}

#[test]
fn store_without_scripts_has_no_path_table() {
    let session = Session::open_at(":memory:", &Registry::empty()).unwrap();
    assert!(matches!(session.query_at(&None, &None, START), Err(StoreError::Query(_))));
    assert!(matches!(session.save_at("/a", START), Err(StoreError::Query(_))));
    assert!(matches!(session.last_seen("/a"), Err(StoreError::Query(_))));
}

#[test]
fn store_in_a_missing_directory_cannot_be_opened() {
    assert!(matches!(Session::open("/tmp/freqdirs/no/such/directory"), Err(StoreError::Io(_))));
    assert!(matches!(save_path("/tmp/freqdirs/no/such/directory", "/a"), Err(StoreError::Io(_))));
    assert!(matches!(update_path("/tmp/freqdirs/no/such/directory", "/a"), Err(StoreError::Io(_))));
    assert!(matches!(
        get_paths("/tmp/freqdirs/no/such/directory", &None, &None),
        Err(StoreError::Io(_))
    ));
}

#[test]
fn sequential_sessions_on_one_state_directory_succeed() {
    drop(Session::open("/tmp").unwrap());
    drop(Session::open("/tmp").unwrap());
}

#[test]
fn paths_are_saved_updated_and_listed_in_a_state_directory() {
    let unsaved = "/freqdirs-test/never-saved";
    let saved = "/freqdirs-test/saved";
    assert_eq!(update_path("/tmp", unsaved).unwrap(), Visit::Ignore);
    assert!(!matches!(save_path("/tmp", saved).unwrap(), Visit::Ignore));
    assert!(matches!(update_path("/tmp", saved).unwrap(), Visit::Accumulate { .. }));
    let found = get_paths("/tmp", &some("/freqdirs-test/"), &None).unwrap();
    assert_eq!(
        count(
            "/tmp/freqdirs.db",
            "select count(*) from freq_path where canonical_path = '/freqdirs-test/saved'"
        ),
        1
    );
    assert!(found.contains(&saved.to_string()));
    assert!(!found.contains(&unsaved.to_string()));
    assert!(found.iter().all(|path| path.starts_with("/freqdirs-test/")));
}

#[test]
fn commands_run_against_the_state_directory() {
    let run = |command: Command| {
        FreqDirsConfig { state_dir: "/tmp".to_string(), command }.run().unwrap()
    };
    let paths = |answer: Answer| match answer {
        Answer::Paths(paths) => paths,
        Answer::Visited(_) => panic!("a query gave no paths"),
    };
    let saved = "/freqdirs-command/saved".to_string();
    let unsaved = "/freqdirs-command/unsaved".to_string();
    assert!(matches!(
        run(Command::Save { path: saved.clone() }),
        Answer::Visited(Visit::Create { .. } | Visit::Accumulate { .. } | Visit::Restart { .. })
    ));
    assert_eq!(run(Command::Update { path: unsaved.clone() }), Answer::Visited(Visit::Ignore));
    assert!(matches!(
        run(Command::Update { path: saved.clone() }),
        Answer::Visited(Visit::Accumulate { .. })
    ));
    let found = paths(run(Command::Query { path: some("/freqdirs-command/"), working_dir: None }));
    assert_eq!(found, vec![saved.clone()]);
    let found = paths(run(Command::Query { path: None, working_dir: some("/freqdirs-command/") }));
    assert_eq!(found[0], saved);
    assert!(!found.contains(&unsaved));
}

#[test]
fn commands_run_in_an_open_store() {
    let session = memory();
    let save = Command::Save { path: "/a".to_string() };
    let update = Command::Update { path: "/b".to_string() };
    let query = Command::Query { path: None, working_dir: None };
    assert!(matches!(save.run_in(&session).unwrap(), Answer::Visited(Visit::Create { .. })));
    assert!(matches!(save.run_in(&session).unwrap(), Answer::Visited(Visit::Accumulate { .. })));
    assert_eq!(update.run_in(&session).unwrap(), Answer::Visited(Visit::Ignore));
    assert_eq!(query.run_in(&session).unwrap(), Answer::Paths(vec!["/a".to_string()]));
}

#[test]
fn failed_change_is_a_write_error() {
    let registry = Registry::from_files(&vec![file(
        "1_narrow.sql",
        "create table freq_path (canonical_path text primary key, last_seen integer);",
    )])
    .unwrap();
    let session = Session::open_at(":memory:", &registry).unwrap();
    assert_eq!(session.last_seen("/a").unwrap(), None);
    assert!(matches!(session.save_at("/a", START), Err(StoreError::Write(_))));
    assert!(matches!(session.record_visit("/a", START, true), Err(StoreError::Write(_))));
    assert_eq!(session.record_visit("/a", START, false).unwrap(), Visit::Ignore);
    assert_eq!(session.last_seen("/a").unwrap(), None);
}

#[test]
fn row_without_a_time_cannot_be_visited_and_is_not_listed() {
    let database = fresh_database("freqdirs_null_time.db");
    let registry = Registry::from_files(&vec![file(
        "1_loose.sql",
        "create table freq_path (canonical_path text primary key, last_seen integer, seen_count real);",
    )])
    .unwrap();
    let session = Session::open_at(&database, &registry).unwrap();
    sqlite::open(&database)
        .unwrap()
        .execute("insert into freq_path values ('/timeless', null, 5.0);")
        .unwrap();
    session.save_at("/timed", START).unwrap();
    assert!(matches!(session.last_seen("/timeless"), Err(StoreError::Query(_))));
    assert!(matches!(session.update_at("/timeless", START), Err(StoreError::Query(_))));
    assert_eq!(session.query_at(&None, &None, START).unwrap(), vec!["/timed"]);
}

#[test]
fn tracking_table_of_another_shape_is_a_migration_error() {
    let database = fresh_database("freqdirs_bad_tracking.db");
    sqlite::open(&database)
        .unwrap()
        .execute("create table migration (id text); insert into migration values ('x');")
        .unwrap();
    let registry = Registry::builtin();
    assert!(matches!(Session::open_at(&database, &registry), Err(StoreError::Migration(_))));
}

#[test]
fn store_at_a_later_watermark_is_left_alone() {
    let database = fresh_database("freqdirs_ahead.db");
    sqlite::open(&database)
        .unwrap()
        .execute(
            "create table migration (id integer, script_name text, timestamp integer); \
             insert into migration values (5, '5_later.sql', 0);",
        )
        .unwrap();
    drop(Session::open_at(&database, &Registry::builtin()).unwrap());
    assert_eq!(applied_ids(&database), vec![5]);
    assert_eq!(count(&database, "select count(*) from sqlite_master where name = 'freq_path'"), 0);
}

#[test]
fn lookup_finds_the_time_or_faults_on_a_row_without_one() {
    assert!(matches!(time_found(Some(START)), Ok(Some(START))));
    assert!(matches!(time_found(Some(i64::MIN)), Ok(Some(i64::MIN))));
    assert!(matches!(time_found(None), Err(StoreError::Query(_))));
}

#[test]
fn values_reach_the_parameters_they_are_bound_to() {
    let database = fresh_database("freqdirs_bound.db");
    let session = Session::open_at(&database, &Registry::builtin()).unwrap();
    session.save_at("/bound/one", START + 1).unwrap();
    session.save_at("/bound/two", START + 2).unwrap();
    session.update_at("/bound/one", START + 3).unwrap();
    session.save_at("/bound/two", START + 2 + 8 * DAY).unwrap();
    assert_eq!(
        count(&database, "select last_seen from freq_path where canonical_path = '/bound/one'"),
        START + 3
    );
    assert_eq!(
        count(&database, "select last_seen from freq_path where canonical_path = '/bound/two'"),
        START + 2 + 8 * DAY
    );
    assert_eq!(count(&database, "select count(*) from freq_path"), 2);
    assert!((seen_count(&database, "/bound/one") - (1.0 + 2.0 / 1_800_002.0)).abs() < 1e-12);
    assert_eq!(seen_count(&database, "/bound/two"), 1.0);
    assert_eq!(
        count(&database, "select count(*) from migration where id = 1 and script_name = '1_create_freq_path.sql'"),
        1
    );
}

#[test]
fn save_and_update_tell_what_they_did() {
    let session = memory();
    assert_eq!(session.update_at("/a", START).unwrap(), Visit::Ignore);
    assert_eq!(session.save_at("/a", START).unwrap(), Visit::Create { last_seen: START });
    assert_eq!(
        session.update_at("/a", START + MINUTE).unwrap(),
        Visit::Accumulate { last_seen: START + MINUTE }
    );
    assert_eq!(
        session.save_at("/a", START + 2 * MINUTE).unwrap(),
        Visit::Accumulate { last_seen: START + 2 * MINUTE }
    );
    assert_eq!(
        session.update_at("/a", START + 9 * DAY).unwrap(),
        Visit::Restart { last_seen: START + 9 * DAY }
    );
    assert!(matches!(session.update("/b").unwrap(), Visit::Ignore));
    assert!(matches!(session.save("/b").unwrap(), Visit::Create { .. }));
    assert!(matches!(session.save("/b").unwrap(), Visit::Accumulate { .. }));
}

#[test]
fn session_tells_what_it_found_and_applied() {
    let database = fresh_database("freqdirs_told.db");
    let names = |session: &Session| -> Vec<String> {
        session.applied().iter().map(|script| script.name.clone()).collect()
    };
    let one = Registry::from_files(&vec![file("1_first.sql", "create table first (x);")]).unwrap();
    let session = Session::open_at(&database, &one).unwrap();
    assert_eq!(session.previous_watermark(), -1);
    assert_eq!(names(&session), vec!["1_first.sql"]);
    drop(session);
    let three = Registry::from_files(&vec![
        file("3_third.sql", "create table third (x);"),
        file("1_first.sql", "create table first (x);"),
        file("2_second.sql", "create table second (x);"),
    ])
    .unwrap();
    let session = Session::open_at(&database, &three).unwrap();
    assert_eq!(session.previous_watermark(), 1);
    assert_eq!(names(&session), vec!["2_second.sql", "3_third.sql"]);
    assert_eq!(session.applied()[0].id, 2);
    assert_eq!(session.applied()[1].script, "create table third (x);");
    drop(session);
    let session = Session::open_at(&database, &three).unwrap();
    assert_eq!(session.previous_watermark(), 3);
    assert!(session.applied().is_empty());
    drop(session);
    assert_eq!(applied_ids(&database), vec![1, 2, 3]);
}

#[test]
fn fresh_store_gets_every_script() {
    let registry = Registry::from_files(&vec![
        file("2_second.sql", "create table second (x);"),
        file("3_third.sql", "create table third (x);"),
        file("1_first.sql", "create table first (x);"),
    ])
    .unwrap();
    let session = Session::open_at(":memory:", &registry).unwrap();
    assert_eq!(session.previous_watermark(), -1);
    let ids: Vec<u32> = session.applied().iter().map(|script| script.id).collect();
    assert_eq!(ids, vec![1, 2, 3]);
    let built_in = Session::open_at(":memory:", &Registry::builtin()).unwrap();
    assert_eq!(built_in.previous_watermark(), -1);
    assert_eq!(built_in.applied().len(), 1);
    assert_eq!(built_in.applied()[0].name, "1_create_freq_path.sql");
}

#[test]
fn failed_transaction_is_rolled_back_and_reported() {
    assert!(matches!(settle_transaction(Ok(())), (false, Ok(()))));
    match settle_transaction(Err(StoreError::Migration("no".to_string()))) {
        (true, Err(StoreError::Migration(text))) => assert_eq!(text, "no"),
        _ => panic!("the failure was not kept"),
    }
    assert!(matches!(settle_transaction(Err(StoreError::Clock)), (true, Err(StoreError::Clock))));
}

#[test]
fn missing_tracking_table_is_created_empty() {
    let database = fresh_database("freqdirs_created.db");
    let session = Session::open_at(&database, &Registry::empty()).unwrap();
    assert_eq!(session.previous_watermark(), -1);
    assert!(session.applied().is_empty());
    drop(session);
    assert_eq!(count(&database, "select count(*) from sqlite_master where name = 'migration'"), 1);
    assert_eq!(count(&database, "select count(*) from migration"), 0);
    assert_eq!(count(&database, "select count(*) from sqlite_master"), 1);
    let session = Session::open_at(&database, &Registry::empty()).unwrap();
    assert_eq!(session.previous_watermark(), -1);
    drop(session);
    assert_eq!(count(&database, "select count(*) from sqlite_master"), 1);
}

#[test]
fn script_that_fails_ends_the_run_before_the_later_ones() {
    let database = fresh_database("freqdirs_ended.db");
    let registry = Registry::from_files(&vec![
        file("1_first.sql", "create table first (x);"),
        file("2_second.sql", "insert into missing values (1);"),
        file("3_third.sql", "create table third (x);"),
    ])
    .unwrap();
    assert!(matches!(Session::open_at(&database, &registry), Err(StoreError::Migration(_))));
    assert_eq!(applied_ids(&database), vec![1]);
    assert_eq!(count(&database, "select count(*) from sqlite_master where name = 'third'"), 0);
    let mended = Registry::from_files(&vec![
        file("1_first.sql", "create table first (x);"),
        file("2_second.sql", "create table second (x);"),
        file("3_third.sql", "create table third (x);"),
    ])
    .unwrap();
    let session = Session::open_at(&database, &mended).unwrap();
    assert_eq!(session.previous_watermark(), 1);
    assert_eq!(session.applied().len(), 2);
    drop(session);
    assert_eq!(applied_ids(&database), vec![1, 2, 3]);
}
