//! The registry of schema scripts: an ordered list of versioned scripts,
//! made from files or built in, and the rule for which of them a store at a
//! given watermark still needs.

use vstd::prelude::*;
use crate::script_names::{declared_id, is_script_name, parse_id, script_name};

verus! {

/// The file name of the script that creates the path table.
pub const CREATE_FREQ_PATH_NAME: &'static str = "1_create_freq_path.sql";

/// The script that creates the path table: one row per path, with the time
/// of the last visit and the score.
pub const CREATE_FREQ_PATH: &'static str =
    "create table freq_path (canonical_path text primary key, last_seen integer not null, seen_count real not null);";

/// One versioned script of the schema: its id, the name of its file and
/// the statements it holds.
#[derive(Debug, Clone)]
pub struct Migration {
    pub id: u32,
    pub name: String,
    pub script: String,
}

/// A migration as contracts speak of it: the id and the characters of the
/// name and of the statements.
pub struct Script {
    pub id: u32,
    pub name: Seq<char>,
    pub text: Seq<char>,
}

impl View for Migration {
    type V = Script;

    open spec fn view(&self) -> Script {
        Script { id: self.id, name: self.name@, text: self.script@ }
    }
}

impl Migration {
    /// A second migration with the same id, name and statements.
    pub fn copy(&self) -> (copy: Migration)
        ensures
            copy@ == self@,
    {
        Migration { id: self.id, name: self.name.clone(), script: self.script.clone() }
    }
}

/// Why a set of files does not make a registry.
#[derive(Debug)]
pub enum RegistryError {
    /// A script's file name does not begin with a version id.
    Misnamed { name: String },
    /// Two scripts declare the same version id.
    DuplicateId { id: u32 },
}

/// A registry error as contracts speak of it.
pub enum Fault {
    Misnamed { name: Seq<char> },
    DuplicateId { id: u32 },
}

impl View for RegistryError {
    type V = Fault;

    open spec fn view(&self) -> Fault {
        match self {
            RegistryError::Misnamed { name } => Fault::Misnamed { name: name@ },
            RegistryError::DuplicateId { id } => Fault::DuplicateId { id: *id },
        }
    }
}

/// The ids rise strictly from each script to the next.
pub open spec fn ascending(scripts: Seq<Script>) -> bool {
    forall|i: int, j: int| 0 <= i < j < scripts.len() ==> scripts[i].id < scripts[j].id
}

/// Some script carries the id.
pub open spec fn holds_id(scripts: Seq<Script>, id: u32) -> bool {
    exists|k: int| 0 <= k < scripts.len() && scripts[k].id == id
}

/// The number of leading scripts whose id lies below `id`. In an
/// ascending sequence this is where a script with that id belongs.
pub open spec fn place_of(scripts: Seq<Script>, id: u32) -> int
    decreases scripts.len(),
{
    if scripts.len() == 0 || scripts[0].id >= id {
        0
    } else {
        1 + place_of(scripts.drop_first(), id)
    }
}

/// The registry after one more file is looked at. A file that is no script
/// changes nothing. A script whose name declares no id, or an id that is
/// already taken, is a fault. Any other script goes where its id belongs.
pub open spec fn admitted(scripts: Seq<Script>, name: Seq<char>, text: Seq<char>) -> Result<
    Seq<Script>,
    Fault,
> {
    if !is_script_name(name) {
        Ok(scripts)
    } else {
        match declared_id(name) {
            None => Err(Fault::Misnamed { name }),
            Some(id) => if holds_id(scripts, id) {
                Err(Fault::DuplicateId { id })
            } else {
                Ok(scripts.insert(place_of(scripts, id), Script { id, name, text }))
            },
        }
    }
}

/// The registry that a list of files, each a name and its contents, makes:
/// the files are looked at in turn, and the first fault ends it.
pub open spec fn registered(files: Seq<(Seq<char>, Seq<char>)>) -> Result<Seq<Script>, Fault>
    decreases files.len(),
{
    if files.len() == 0 {
        Ok(Seq::empty())
    } else {
        match registered(files.drop_last()) {
            Err(fault) => Err(fault),
            Ok(scripts) => admitted(scripts, files.last().0, files.last().1),
        }
    }
}

/// The names and contents of a list of files, as characters.
pub open spec fn file_texts(files: Seq<(String, String)>) -> Seq<(Seq<char>, Seq<char>)> {
    files.map_values(|file: (String, String)| (file.0@, file.1@))
}

/// The scripts of a list of migrations.
pub open spec fn scripts_of(entries: Seq<Migration>) -> Seq<Script> {
    entries.map_values(|m: Migration| m@)
}

/// The id of the last script, or -1 for an empty registry.
pub open spec fn latest_id(scripts: Seq<Script>) -> int {
    if scripts.len() == 0 {
        -1
    } else {
        scripts.last().id as int
    }
}

/// The number of leading scripts whose id does not exceed the watermark.
/// In an ascending registry the scripts from there on are the pending ones.
pub open spec fn applied_count(scripts: Seq<Script>, watermark: int) -> int
    decreases scripts.len(),
{
    if scripts.len() == 0 || scripts[0].id > watermark {
        0
    } else {
        1 + applied_count(scripts.drop_first(), watermark)
    }
}

/// The scripts that are pending for a store at a watermark: all but the
/// leading ones whose id does not exceed the watermark, in their order.
pub open spec fn pending(scripts: Seq<Script>, watermark: int) -> Seq<Script> {
    scripts.subrange(applied_count(scripts, watermark), scripts.len() as int)
}

/// The scripts of the registry that is built into the library.
pub open spec fn builtin_scripts() -> Seq<Script> {
    seq![Script { id: 1, name: CREATE_FREQ_PATH_NAME@, text: CREATE_FREQ_PATH@ }]
}

proof fn lemma_place_of(scripts: Seq<Script>, id: u32)
    ensures
        0 <= place_of(scripts, id) <= scripts.len(),
        forall|k: int| 0 <= k < place_of(scripts, id) ==> scripts[k].id < id,
        place_of(scripts, id) < scripts.len() ==> scripts[place_of(scripts, id)].id >= id,
    decreases scripts.len(),
{
    if scripts.len() == 0 || scripts[0].id >= id {
    } else {
        lemma_place_of(scripts.drop_first(), id);
        assert forall|k: int| 0 <= k < place_of(scripts, id) implies scripts[k].id < id by {
            if k > 0 {
                assert(scripts.drop_first()[k - 1] == scripts[k]);
            }
        }
    }
}

proof fn lemma_place_found(scripts: Seq<Script>, id: u32, k: int)
    requires
        0 <= k <= scripts.len(),
        forall|i: int| 0 <= i < k ==> scripts[i].id < id,
        k < scripts.len() ==> scripts[k].id >= id,
    ensures
        place_of(scripts, id) == k,
{
    lemma_place_of(scripts, id);
    let p = place_of(scripts, id);
    if p < k {
        assert(scripts[p].id < id);
    } else if p > k {
        assert(scripts[k].id < id);
    }
}

proof fn lemma_applied_count(scripts: Seq<Script>, watermark: int)
    ensures
        0 <= applied_count(scripts, watermark) <= scripts.len(),
        forall|k: int| 0 <= k < applied_count(scripts, watermark) ==> scripts[k].id <= watermark,
        applied_count(scripts, watermark) < scripts.len() ==> scripts[applied_count(
            scripts,
            watermark,
        )].id > watermark,
    decreases scripts.len(),
{
    if scripts.len() == 0 || scripts[0].id > watermark {
    } else {
        lemma_applied_count(scripts.drop_first(), watermark);
        assert forall|k: int| 0 <= k < applied_count(scripts, watermark) implies scripts[k].id
            <= watermark by {
            if k > 0 {
                assert(scripts.drop_first()[k - 1] == scripts[k]);
            }
        }
    }
}

proof fn lemma_applied_found(scripts: Seq<Script>, watermark: int, k: int)
    requires
        0 <= k <= scripts.len(),
        forall|i: int| 0 <= i < k ==> scripts[i].id <= watermark,
        k < scripts.len() ==> scripts[k].id > watermark,
    ensures
        applied_count(scripts, watermark) == k,
{
    lemma_applied_count(scripts, watermark);
    let p = applied_count(scripts, watermark);
    if p < k {
        assert(scripts[p].id <= watermark);
    } else if p > k {
        assert(scripts[k].id <= watermark);
    }
}

proof fn lemma_admitted_is_ascending(scripts: Seq<Script>, name: Seq<char>, text: Seq<char>)
    requires
        ascending(scripts),
    ensures
        admitted(scripts, name, text) matches Ok(grown) ==> ascending(grown),
{
    if let Ok(grown) = admitted(scripts, name, text) {
        if is_script_name(name) {
            let id = declared_id(name).unwrap();
            let p = place_of(scripts, id);
            lemma_place_of(scripts, id);
            assert forall|i: int, j: int| 0 <= i < j < grown.len() implies grown[i].id
                < grown[j].id by {
                if j == p {
                    assert(grown[i] == scripts[i]);
                } else if i == p {
                    assert(grown[j] == scripts[j - 1]);
                    assert(scripts[p].id >= id);
                    assert(scripts[p].id != id);
                    if p < j - 1 {
                        assert(scripts[p].id < scripts[j - 1].id);
                    }
                } else {
                    let a = if i < p { i } else { i - 1 };
                    let b = if j < p { j } else { j - 1 };
                    assert(grown[i] == scripts[a]);
                    assert(grown[j] == scripts[b]);
                }
            }
        }
    }
}

/// A registry that was made has its scripts in strictly ascending order
/// of id: no id occurs twice.
pub proof fn lemma_registered_is_ascending(files: Seq<(Seq<char>, Seq<char>)>)
    ensures
        registered(files) matches Ok(scripts) ==> ascending(scripts),
    decreases files.len(),
{
    if files.len() > 0 {
        lemma_registered_is_ascending(files.drop_last());
        if let Ok(scripts) = registered(files.drop_last()) {
            lemma_admitted_is_ascending(scripts, files.last().0, files.last().1);
        }
    }
}

/// The script that a file stands for, where its name declares an id.
pub open spec fn script_of(file: (Seq<char>, Seq<char>)) -> Script {
    Script { id: declared_id(file.0).unwrap(), name: file.0, text: file.1 }
}

/// The file at a position is a script that cannot be admitted: its name
/// declares no id, or the id of an earlier script.
pub open spec fn faulty_at(files: Seq<(Seq<char>, Seq<char>)>, i: int) -> bool {
    &&& 0 <= i < files.len()
    &&& is_script_name(files[i].0)
    &&& (declared_id(files[i].0) is None || exists|j: int|
        0 <= j < i && is_script_name(files[j].0) && declared_id(files[j].0) == declared_id(
            files[i].0,
        ))
}

/// A registry that was made holds the scripts among the files and nothing
/// else: every file whose name ends in `.sql` declares an id and stands in
/// the registry under it, with its name and contents, and every entry of
/// the registry is such a file.
pub proof fn lemma_registered_holds_the_scripts(files: Seq<(Seq<char>, Seq<char>)>)
    ensures
        registered(files) matches Ok(scripts) ==> {
            &&& forall|i: int|
                0 <= i < files.len() && is_script_name(#[trigger] files[i].0) ==> declared_id(
                    files[i].0,
                ) is Some && scripts.contains(script_of(files[i]))
            &&& forall|k: int|
                0 <= k < scripts.len() ==> exists|i: int|
                    0 <= i < files.len() && is_script_name(files[i].0) && declared_id(
                        files[i].0,
                    ) is Some && #[trigger] scripts[k] == script_of(files[i])
        },
    decreases files.len(),
{
    if files.len() > 0 {
        if let Ok(scripts) = registered(files) {
            let front = files.drop_last();
            let last = files.last();
            lemma_registered_holds_the_scripts(front);
            let before = registered(front)->Ok_0;
            assert forall|i: int| 0 <= i < files.len() && is_script_name(
                #[trigger] files[i].0,
            ) implies declared_id(files[i].0) is Some && scripts.contains(script_of(files[i])) by {
                if i < front.len() {
                    assert(front[i] == files[i]);
                    assert(before.contains(script_of(files[i])));
                    let k = choose|k: int| 0 <= k < before.len() && before[k] == script_of(files[i]);
                    if is_script_name(last.0) {
                        let p = place_of(before, declared_id(last.0).unwrap());
                        lemma_place_of(before, declared_id(last.0).unwrap());
                        if k < p {
                            assert(scripts[k] == before[k]);
                        } else {
                            assert(scripts[k + 1] == before[k]);
                        }
                    }
                } else {
                    let p = place_of(before, declared_id(last.0).unwrap());
                    lemma_place_of(before, declared_id(last.0).unwrap());
                    assert(scripts[p] == script_of(last));
                }
            }
            assert forall|k: int| 0 <= k < scripts.len() implies exists|i: int|
                0 <= i < files.len() && is_script_name(files[i].0) && declared_id(files[i].0) is Some
                    && #[trigger] scripts[k] == script_of(files[i]) by {
                if is_script_name(last.0) {
                    let p = place_of(before, declared_id(last.0).unwrap());
                    lemma_place_of(before, declared_id(last.0).unwrap());
                    if k == p {
                        assert(scripts[k] == script_of(files[files.len() - 1]));
                    } else {
                        let source = if k < p {
                            k
                        } else {
                            k - 1
                        };
                        assert(scripts[k] == before[source]);
                        let i = choose|i: int|
                            0 <= i < front.len() && is_script_name(front[i].0) && declared_id(
                                front[i].0,
                            ) is Some && before[source] == script_of(front[i]);
                        assert(front[i] == files[i]);
                    }
                } else {
                    assert(scripts[k] == before[k]);
                    let i = choose|i: int|
                        0 <= i < front.len() && is_script_name(front[i].0) && declared_id(
                            front[i].0,
                        ) is Some && before[k] == script_of(front[i]);
                    assert(front[i] == files[i]);
                }
            }
        }
    }
}

/// Files make a registry unless one of them is a script whose name
/// declares no id or the id of an earlier script.
pub proof fn lemma_registered_fails_on_a_fault(files: Seq<(Seq<char>, Seq<char>)>)
    ensures
        registered(files) is Err <==> exists|i: int| faulty_at(files, i),
    decreases files.len(),
{
    if files.len() > 0 {
        let front = files.drop_last();
        let last = files.last();
        let n = files.len() - 1;
        lemma_registered_fails_on_a_fault(front);
        lemma_registered_holds_the_scripts(front);
        assert forall|i: int| 0 <= i < n implies (faulty_at(front, i) <==> faulty_at(files, i)) by {
            assert(front[i] == files[i]);
            if faulty_at(front, i) && declared_id(front[i].0) is Some {
                let j = choose|j: int|
                    0 <= j < i && is_script_name(front[j].0) && declared_id(front[j].0)
                        == declared_id(front[i].0);
                assert(front[j] == files[j]);
            }
            if faulty_at(files, i) && declared_id(files[i].0) is Some {
                let j = choose|j: int|
                    0 <= j < i && is_script_name(files[j].0) && declared_id(files[j].0)
                        == declared_id(files[i].0);
                assert(front[j] == files[j]);
            }
        }
        if registered(front) is Err {
            let i = choose|i: int| faulty_at(front, i);
            assert(faulty_at(files, i));
        } else {
            let before = registered(front)->Ok_0;
            assert(!exists|i: int| faulty_at(front, i));
            if is_script_name(last.0) && declared_id(last.0) is Some {
                let id = declared_id(last.0).unwrap();
                if holds_id(before, id) {
                    let k = choose|k: int| 0 <= k < before.len() && before[k].id == id;
                    let j = choose|j: int|
                        0 <= j < front.len() && is_script_name(front[j].0) && declared_id(
                            front[j].0,
                        ) is Some && before[k] == script_of(front[j]);
                    assert(front[j] == files[j]);
                    assert(faulty_at(files, n));
                } else {
                    if faulty_at(files, n) {
                        let j = choose|j: int|
                            0 <= j < n && is_script_name(files[j].0) && declared_id(files[j].0)
                                == declared_id(files[n].0);
                        assert(front[j] == files[j]);
                        assert(before.contains(script_of(front[j])));
                        let k = choose|k: int|
                            0 <= k < before.len() && before[k] == script_of(front[j]);
                        assert(before[k].id == id);
                    }
                }
            }
            if registered(files) is Err {
                assert(faulty_at(files, n));
            } else {
                assert forall|i: int| !faulty_at(files, i) by {
                    if 0 <= i < n {
                        assert(!faulty_at(front, i));
                    }
                }
            }
        }
    } else {
        assert forall|i: int| !faulty_at(files, i) by {}
    }
}

/// The watermark that the highest id of the tracking table stands for:
/// the id itself, or -1 where the table holds no record.
pub open spec fn watermark_for(highest: Option<i64>) -> i64 {
    match highest {
        Some(id) => id,
        None => -1i64,
    }
}

/// The watermark of a store whose tracking table has the given highest id.
pub fn watermark_of(highest: Option<i64>) -> (watermark: i64)
    ensures
        watermark == watermark_for(highest),
{
    match highest {
        Some(id) => id,
        None => -1,
    }
}

/// What a look at the tracking table of a store found.
#[derive(Debug, Clone, Copy, PartialEq, Eq, Structural)]
pub enum Tracking {
    /// The table could not be named in a statement: the store has none.
    Missing,
    /// The table is there, and asking for its highest id gave no row.
    NoRow,
    /// The table is there; its highest id, or none where it holds no record.
    Highest(Option<i64>),
}

/// The watermark of a store by what a look at its tracking table found: a
/// store without the table, or with an empty one, stands at -1, any other
/// at the highest id of the table.
pub open spec fn watermark_found(tracking: Tracking) -> i64 {
    match tracking {
        Tracking::Missing => -1i64,
        Tracking::NoRow => -1i64,
        Tracking::Highest(highest) => watermark_for(highest),
    }
}

/// Decides what follows a look at the tracking table: the watermark of the
/// store, and whether the table is to be created, which is so exactly
/// where it is missing.
pub fn settle_tracking(tracking: Tracking) -> (r: (i64, bool))
    ensures
        r.0 == watermark_found(tracking),
        r.1 == (tracking is Missing),
{
    match tracking {
        Tracking::Missing => (watermark_of(None), true),
        Tracking::NoRow => (watermark_of(None), false),
        Tracking::Highest(highest) => (watermark_of(highest), false),
    }
}

/// The watermark of a store after the scripts were applied to it at the
/// given watermark: the highest id of the registry where that is higher.
pub open spec fn watermark_after(scripts: Seq<Script>, watermark: int) -> int {
    if latest_id(scripts) > watermark {
        latest_id(scripts)
    } else {
        watermark
    }
}

/// The pending scripts of an ascending registry are exactly those with an
/// id above the watermark: none of them is passed over, none at or below
/// the watermark is applied again, and they stand in ascending order.
pub proof fn lemma_pending_are_the_higher_ids(scripts: Seq<Script>, watermark: int)
    requires
        ascending(scripts),
    ensures
        0 <= applied_count(scripts, watermark) <= scripts.len(),
        forall|k: int|
            0 <= k < scripts.len() ==> (#[trigger] scripts[k].id > watermark <==> k
                >= applied_count(scripts, watermark)),
{
    lemma_applied_count(scripts, watermark);
    let start = applied_count(scripts, watermark);
    assert forall|k: int| 0 <= k < scripts.len() implies (#[trigger] scripts[k].id > watermark
        <==> k >= start) by {
        if k > start {
            assert(scripts[start].id < scripts[k].id);
        }
    }
}

/// What is pending for an ascending registry is every script with an id
/// above the watermark and no other, each once, in ascending order of id:
/// the script at a position of the registry is pending exactly if its id
/// exceeds the watermark, and then it stands in the pending scripts as far
/// from their start as it stands from the first pending script.
pub proof fn lemma_pending_holds_the_higher_ids(scripts: Seq<Script>, watermark: int)
    requires
        ascending(scripts),
    ensures
        ascending(pending(scripts, watermark)),
        pending(scripts, watermark).len() == scripts.len() - applied_count(scripts, watermark),
        forall|k: int|
            0 <= k < pending(scripts, watermark).len() ==> #[trigger] pending(
                scripts,
                watermark,
            )[k].id > watermark,
        forall|i: int|
            0 <= i < scripts.len() && #[trigger] scripts[i].id > watermark ==> i >= applied_count(
                scripts,
                watermark,
            ) && pending(scripts, watermark)[i - applied_count(scripts, watermark)] == scripts[i],
        forall|i: int|
            0 <= i < scripts.len() && #[trigger] scripts[i].id <= watermark ==> !pending(
                scripts,
                watermark,
            ).contains(scripts[i]),
{
    lemma_pending_are_the_higher_ids(scripts, watermark);
    let start = applied_count(scripts, watermark);
    let rest = pending(scripts, watermark);
    assert forall|i: int| 0 <= i < scripts.len() && #[trigger] scripts[i].id
        <= watermark implies !rest.contains(scripts[i]) by {
        if rest.contains(scripts[i]) {
            let k = choose|k: int| 0 <= k < rest.len() && rest[k] == scripts[i];
            assert(rest[k] == scripts[start + k]);
            assert(scripts[start + k].id > watermark);
        }
    }
}

/// Applying the registry a second time applies nothing: once a store
/// stands at the watermark that an application leaves, no script is
/// pending, and a further application leaves the same watermark.
pub proof fn lemma_second_application_is_idle(scripts: Seq<Script>, watermark: int)
    requires
        ascending(scripts),
    ensures
        applied_count(scripts, watermark_after(scripts, watermark)) == scripts.len(),
        watermark_after(scripts, watermark_after(scripts, watermark)) == watermark_after(
            scripts,
            watermark,
        ),
{
    let reached = watermark_after(scripts, watermark);
    assert forall|i: int| 0 <= i < scripts.len() implies scripts[i].id <= reached by {
        if i < scripts.len() - 1 {
            assert(scripts[i].id < scripts[scripts.len() - 1].id);
        }
    }
    lemma_applied_found(scripts, reached, scripts.len() as int);
}

/// The ordered scripts of the schema. The ids rise strictly from each
/// script to the next, so the order in which they are applied is fixed.
pub struct Registry {
    entries: Vec<Migration>,
}

impl View for Registry {
    type V = Seq<Script>;

    closed spec fn view(&self) -> Seq<Script> {
        scripts_of(self.entries@)
    }
}

impl Registry {
    #[verifier::type_invariant]
    spec fn ordered(self) -> bool {
        ascending(scripts_of(self.entries@))
    }

    /// A registry without scripts.
    pub fn empty() -> (registry: Registry)
        ensures
            registry@ == Seq::<Script>::empty(),
    {
        let entries: Vec<Migration> = Vec::new();
        assert(scripts_of(entries@) =~= Seq::<Script>::empty());
        Registry { entries }
    }

    /// The registry that is built into the library: the one script that
    /// creates the path table.
    pub fn builtin() -> (registry: Registry)
        ensures
            registry@ == builtin_scripts(),
    {
        let mut entries: Vec<Migration> = Vec::new();
        let entry = Migration {
            id: 1,
            name: CREATE_FREQ_PATH_NAME.to_owned(),
            script: CREATE_FREQ_PATH.to_owned(),
        };
        entries.push(entry);
        assert(scripts_of(entries@) =~= seq![entry@]);
        Registry { entries }
    }

    /// The number of scripts. Their ids rise strictly, as in every registry.
    pub fn len(&self) -> (n: usize)
        ensures
            n == self@.len(),
            ascending(self@),
    {
        proof {
            use_type_invariant(self);
        }
        self.entries.len()
    }

    /// The script at a position, counted from zero in ascending order of id.
    pub fn entry(&self, index: usize) -> (entry: Option<&Migration>)
        ensures
            match entry {
                Some(m) => index < self@.len() && m@ == self@[index as int],
                None => index >= self@.len(),
            },
    {
        if index < self.entries.len() {
            Some(&self.entries[index])
        } else {
            None
        }
    }

    /// The highest id of the registry, or -1 where it holds no script.
    pub fn latest(&self) -> (id: i64)
        ensures
            id == latest_id(self@),
    {
        let n = self.entries.len();
        if n == 0 {
            -1
        } else {
            self.entries[n - 1].id as i64
        }
    }

    /// Where the pending scripts begin for a store at the given watermark:
    /// the scripts before that position have ids up to the watermark and are
    /// applied already, those from it on have higher ids and are pending, in
    /// this order.
    pub fn first_pending(&self, watermark: i64) -> (start: usize)
        ensures
            start == applied_count(self@, watermark as int),
            start <= self@.len(),
            forall|k: int| 0 <= k < start ==> self@[k].id <= watermark,
            forall|k: int| start <= k < self@.len() ==> self@[k].id > watermark,
    {
        proof {
            use_type_invariant(self);
        }
        let mut start: usize = 0;
        while start < self.entries.len() && (self.entries[start].id as i64) <= watermark
            invariant
                start <= self.entries.len(),
                forall|k: int| 0 <= k < start ==> scripts_of(self.entries@)[k].id <= watermark,
            decreases self.entries.len() - start,
        {
            start += 1;
        }
        proof {
            let scripts = scripts_of(self.entries@);
            lemma_applied_found(scripts, watermark as int, start as int);
            assert forall|k: int| start <= k < scripts.len() implies scripts[k].id
                > watermark by {
                if k > start {
                    assert(scripts[start as int].id < scripts[k].id);
                }
            }
        }
        start
    }

    /// Makes a registry from files, each given as its name and its
    /// contents. Files whose names do not end in `.sql` are passed over. The
    /// scripts are put in ascending order of the id that their names
    /// declare. The first script, in the order given, whose name declares no
    /// id or an id that an earlier script declared is reported.
    pub fn from_files(files: &Vec<(String, String)>) -> (r: Result<Registry, RegistryError>)
        ensures
            match registered(file_texts(files@)) {
                Ok(scripts) => r matches Ok(registry) && registry@ == scripts,
                Err(fault) => r matches Err(e) && e@ == fault,
            },
    {
        let ghost texts = file_texts(files@);
        let mut entries: Vec<Migration> = Vec::new();
        let mut i: usize = 0;
        proof {
            assert(texts.take(0) =~= Seq::<(Seq<char>, Seq<char>)>::empty());
            assert(scripts_of(entries@) =~= Seq::<Script>::empty());
        }
        while i < files.len()
            invariant
                i <= files.len(),
                texts == file_texts(files@),
                registered(texts.take(i as int)) == Ok::<Seq<Script>, Fault>(scripts_of(entries@)),
                ascending(scripts_of(entries@)),
            ensures
                i == files.len(),
            decreases files.len() - i,
        {
            let name = &files[i].0;
            let script = &files[i].1;
            let ghost seen = scripts_of(entries@);
            proof {
                assert(texts.take(i + 1).drop_last() =~= texts.take(i as int));
                assert(texts.take(i + 1).last() == (name@, script@));
                lemma_admitted_is_ascending(seen, name@, script@);
            }
            if script_name(name.as_str()) {
                match parse_id(name.as_str()) {
                    None => {
                        proof {
                            lemma_fault_stays(texts, i + 1);
                        }
                        return Err(RegistryError::Misnamed { name: name.clone() });
                    },
                    Some(id) => {
                        let mut k: usize = 0;
                        while k < entries.len() && entries[k].id < id
                            invariant
                                k <= entries.len(),
                                seen == scripts_of(entries@),
                                forall|j: int| 0 <= j < k ==> seen[j].id < id,
                            decreases entries.len() - k,
                        {
                            k += 1;
                        }
                        proof {
                            lemma_place_found(seen, id, k as int);
                        }
                        if k < entries.len() && entries[k].id == id {
                            proof {
                                assert(seen[k as int].id == id);
                                lemma_fault_stays(texts, i + 1);
                            }
                            return Err(RegistryError::DuplicateId { id });
                        }
                        proof {
                            assert(!holds_id(seen, id)) by {
                                assert forall|j: int| 0 <= j < seen.len() implies seen[j].id
                                    != id by {
                                    if j > k {
                                        assert(seen[k as int].id < seen[j].id);
                                    }
                                }
                            }
                        }
                        let entry = Migration { id, name: name.clone(), script: script.clone() };
                        entries.insert(k, entry);
                        proof {
                            assert(scripts_of(entries@) =~= seen.insert(k as int, entry@));
                        }
                    },
                }
            }
            i += 1;
        }
        proof {
            assert(texts.take(files.len() as int) =~= texts);
        }
        Ok(Registry { entries })
    }
}

proof fn lemma_fault_stays(files: Seq<(Seq<char>, Seq<char>)>, k: int)
    requires
        0 <= k <= files.len(),
        registered(files.take(k)) is Err,
    ensures
        registered(files) == registered(files.take(k)),
    decreases files.len() - k,
{
    if k < files.len() {
        assert(files.take(k + 1).drop_last() =~= files.take(k));
        lemma_fault_stays(files, k + 1);
    } else {
        assert(files.take(k) =~= files);
    }
}

} // verus!
