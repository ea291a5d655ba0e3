//! Idempotent schema migrations.
//!
//! On first launch the database file and all tables are created. The
//! `schema_version` table lets the schema evolve additively over time.

use vstd::prelude::*;

verus! {

/// Version of the schema after all migrations.
pub const TARGET_VERSION: i64 = 3;

/// Makes sure that the table of versions is there.
pub const PREPARE: &'static str = "PRAGMA foreign_keys = ON;
         CREATE TABLE IF NOT EXISTS schema_version (version INTEGER NOT NULL);";

/// Reads the version that the schema has.
pub const READ_VERSION: &'static str = "SELECT COALESCE(MAX(version), 0) FROM schema_version";

/// Records that a version has been reached.
pub const RECORD_VERSION: &'static str = "INSERT INTO schema_version (version) VALUES (?1)";

/// Initial schema.
pub const SCHEMA_1: &'static str = "
    CREATE TABLE IF NOT EXISTS tasks (
        id          TEXT PRIMARY KEY NOT NULL,
        title       TEXT NOT NULL,
        description TEXT,
        status      TEXT NOT NULL DEFAULT 'pending',
        priority    INTEGER NOT NULL DEFAULT 1,
        due_at      TEXT,
        created_at  TEXT NOT NULL,
        updated_at  TEXT NOT NULL
    );

    CREATE TABLE IF NOT EXISTS events (
        id          TEXT PRIMARY KEY NOT NULL,
        title       TEXT NOT NULL,
        notes       TEXT,
        start_at    TEXT NOT NULL,
        end_at      TEXT,
        reminded    INTEGER NOT NULL DEFAULT 0,
        created_at  TEXT NOT NULL
    );

    CREATE TABLE IF NOT EXISTS memory_nodes (
        id          TEXT PRIMARY KEY NOT NULL,
        parent_id   TEXT,
        label       TEXT NOT NULL,
        content     TEXT NOT NULL,
        tags        TEXT NOT NULL DEFAULT '[]',
        weight      REAL NOT NULL DEFAULT 1.0,
        created_at  TEXT NOT NULL,
        FOREIGN KEY (parent_id) REFERENCES memory_nodes (id) ON DELETE SET NULL
    );

    CREATE INDEX IF NOT EXISTS idx_tasks_status ON tasks (status);
    CREATE INDEX IF NOT EXISTS idx_events_start ON events (start_at);
    ";

/// Delegated tasks (agile-board tickets assigned to team members).
pub const SCHEMA_2: &'static str = "
    CREATE TABLE IF NOT EXISTS delegated_tasks (
        id          TEXT PRIMARY KEY NOT NULL,
        assignee    TEXT NOT NULL,
        description TEXT NOT NULL,
        status      TEXT NOT NULL DEFAULT 'open',
        payload     TEXT NOT NULL DEFAULT '{}',
        created_at  TEXT NOT NULL
    );

    CREATE INDEX IF NOT EXISTS idx_delegated_assignee ON delegated_tasks (assignee);
    ";

/// Permanent long-term memory via full-text search.
pub const SCHEMA_3: &'static str = "
    CREATE VIRTUAL TABLE IF NOT EXISTS knowledge_base
        USING fts5(title, content, tags);
    ";

/// One step of the schema: `script` brings it to `version`.
#[derive(Debug)]
pub struct Migration {
    pub version: i64,
    pub script: &'static str,
}

/// A step of the schema as a value.
pub struct SchemaStep {
    pub version: int,
    pub script: Seq<char>,
}

impl View for Migration {
    type V = SchemaStep;

    open spec fn view(&self) -> SchemaStep {
        SchemaStep { version: self.version as int, script: self.script@ }
    }
}

/// All steps of the schema, in order.
pub open spec fn steps() -> Seq<SchemaStep> {
    seq![
        SchemaStep { version: 1, script: SCHEMA_1@ },
        SchemaStep { version: 2, script: SCHEMA_2@ },
        SchemaStep { version: 3, script: SCHEMA_3@ },
    ]
}

/// The steps of `all` beyond the version `current`, in order.
pub open spec fn beyond(all: Seq<SchemaStep>, current: int) -> Seq<SchemaStep> {
    all.filter(|s: SchemaStep| s.version > current)
}

/// The version of the schema, given what was read of it: none counts as 0.
pub open spec fn version_read(read: Option<i64>) -> int {
    match read {
        Some(v) => v as int,
        None => 0,
    }
}

/// The version that the schema has once `done` has been carried out on a schema of
/// version `current`: the highest recorded.
pub open spec fn version_after(current: int, done: Seq<SchemaStep>) -> int
    decreases done.len(),
{
    if done.len() == 0 {
        current
    } else {
        let before = version_after(current, done.drop_last());
        if done.last().version > before {
            done.last().version
        } else {
            before
        }
    }
}

/// The migrations to carry out, in order, on a schema of the version that was
/// read. `None` stands for a version that could not be read.
pub fn pending(read: Option<i64>) -> (r: Vec<Migration>)
    ensures
        r@.map_values(|m: Migration| m@) == beyond(steps(), version_read(read)),
{
    let current: i64 = match read {
        Some(v) => v,
        None => 0,
    };
    let mut r: Vec<Migration> = Vec::new();
    proof {
        lemma_beyond(current as int);
    }
    if 1 > current {
        r.push(Migration { version: 1, script: SCHEMA_1 });
    }
    if 2 > current {
        r.push(Migration { version: 2, script: SCHEMA_2 });
    }
    if 3 > current {
        r.push(Migration { version: 3, script: SCHEMA_3 });
    }
    assert(r@.map_values(|m: Migration| m@) =~= beyond(steps(), current as int));
    r
}

/// The steps beyond a version are the last ones.
proof fn lemma_beyond(current: int)
    ensures
        beyond(steps(), current) == steps().skip(
            if current <= 0 {
                0
            } else if current >= 3 {
                3
            } else {
                current
            },
        ),
{
    let all = steps();
    reveal_with_fuel(Seq::filter, 4);
    assert(all.drop_last() =~= seq![all[0], all[1]]);
    assert(all.drop_last().drop_last() =~= seq![all[0]]);
    assert(all.drop_last().drop_last().drop_last() =~= Seq::empty());
    assert(beyond(all, current) =~= all.skip(
        if current <= 0 {
            0
        } else if current >= 3 {
            3
        } else {
            current
        },
    ));
}

/// A run that was cut short after any number of its migrations is taken up where
/// it stopped: the next run carries out the rest, and nothing twice.
pub proof fn law_run_is_resumed(current: int, k: int)
    requires
        0 <= k <= beyond(steps(), current).len(),
    ensures
        beyond(steps(), version_after(current, beyond(steps(), current).take(k))) == beyond(
            steps(),
            current,
        ).skip(k),
{
    lemma_beyond(current);
    let todo = beyond(steps(), current);
    let start = if current <= 0 {
        0
    } else if current >= 3 {
        3
    } else {
        current
    };
    lemma_version_after(current, k);
    let v = version_after(current, todo.take(k));
    lemma_beyond(v);
    assert(steps().skip(start).skip(k) =~= steps().skip(start + k));
}

/// After `k` migrations the schema has the version of the last of them.
proof fn lemma_version_after(current: int, k: int)
    requires
        0 <= k <= beyond(steps(), current).len(),
    ensures
        version_after(current, beyond(steps(), current).take(k)) == if k == 0 {
            current
        } else {
            beyond(steps(), current)[k - 1].version
        },
    decreases k,
{
    let todo = beyond(steps(), current);
    lemma_beyond(current);
    if k > 0 {
        lemma_version_after(current, k - 1);
        assert(todo.take(k).drop_last() =~= todo.take(k - 1));
    }
}

/// After a whole run the schema is at the target version, or beyond it if it was
/// before, and another run has nothing to do.
pub proof fn law_second_run_does_nothing(current: int)
    ensures
        ({
            let after = version_after(current, beyond(steps(), current));
            &&& after >= TARGET_VERSION
            &&& after >= current
            &&& beyond(steps(), after).len() == 0
        }),
{
    let todo = beyond(steps(), current);
    lemma_beyond(current);
    lemma_version_after(current, todo.len() as int);
    assert(todo.take(todo.len() as int) =~= todo);
    lemma_beyond(version_after(current, todo));
}

/// The steps lead from version to version, from the first to the target.
pub proof fn law_steps_are_consecutive()
    ensures
        TARGET_VERSION == 3,
        steps().len() == TARGET_VERSION,
        forall|i: int| 0 <= i < steps().len() ==> (#[trigger] steps()[i]).version == i + 1,
        steps()[0].script == SCHEMA_1@,
        steps()[1].script == SCHEMA_2@,
        steps()[2].script == SCHEMA_3@,
{
}

/// A run carries out every step beyond the version that was read, and no other, in
/// order; a version that could not be read counts as zero.
pub proof fn law_run_leaves_no_step_out(current: i64)
    ensures
        version_read(Some(current)) == current,
        version_read(None) == 0,
        forall|i: int|
            0 <= i < steps().len() ==> (beyond(steps(), current as int).contains(
                #[trigger] steps()[i],
            ) <==> i + 1 > current),
        forall|j: int|
            0 <= j < beyond(steps(), current as int).len() ==> (#[trigger] beyond(
                steps(),
                current as int,
            )[j]).version == j + 1 + (if current < 0 {
                0
            } else {
                current as int
            }),
{
    let todo = beyond(steps(), current as int);
    lemma_beyond(current as int);
    assert forall|i: int| 0 <= i < steps().len() implies (todo.contains(#[trigger] steps()[i])
        <==> i + 1 > current) by {
        let start = steps().len() - todo.len();
        if i >= start {
            assert(todo[i - start] == steps()[i]);
        }
        if todo.contains(steps()[i]) {
            let j = choose|j: int| 0 <= j < todo.len() && todo[j] == steps()[i];
            assert(todo[j].version == j + start + 1);
        }
    }
}

/// A migration as a value holds its version and its whole script.
pub proof fn law_step_is_the_migration(m: Migration)
    ensures
        m@.version == m.version,
        m@.script == m.script@,
{
}

} // verus!
