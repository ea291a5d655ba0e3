//! Rows of the database, and the entities they stand for.

use vstd::prelude::*;

use crate::domain::event::EventRecord;
use crate::domain::ids::{hyphenated, is_v4, parse_id, uuid_value};
use crate::domain::task::{law_priority_round_trip, law_status_round_trip, TaskRecord};
use crate::domain::time::{four_digit_year, rfc3339_instant, rfc3339_text};
use crate::domain::{EventId, ScheduleEvent, Task, TaskId, TaskPriority, TaskStatus, Timestamp};
use crate::error::{AppError, AppResult};
use crate::text::{clone_opt, opt_view};

verus! {

// ---------------------------------------------------------------------------
// Statements
// ---------------------------------------------------------------------------

/// Stores a task; the parameters are the fields of a [`TaskRow`], in order.
pub const INSERT_TASK: &'static str =
    "INSERT INTO tasks (id, title, description, status, priority, due_at, created_at, updated_at)
             VALUES (?1, ?2, ?3, ?4, ?5, ?6, ?7, ?8)";

/// All tasks, as the fields of a [`TaskRow`], highest priority first.
pub const SELECT_TASKS: &'static str =
    "SELECT id, title, description, status, priority, due_at, created_at, updated_at
             FROM tasks ORDER BY priority DESC, created_at ASC";

/// Open, not-yet-done tasks that are due by an instant (or have no due date), as
/// the fields of a [`TaskRow`].
pub const SELECT_PENDING_TASKS: &'static str =
    "SELECT id, title, description, status, priority, due_at, created_at, updated_at
             FROM tasks
             WHERE status IN ('pending', 'in_progress')
               AND (due_at IS NULL OR due_at <= ?1)
             ORDER BY priority DESC, due_at ASC";

/// The number of tasks.
pub const COUNT_TASKS: &'static str = "SELECT COUNT(*) FROM tasks";

/// Stores an event; the parameters are the fields of an [`EventRow`], in order.
pub const INSERT_EVENT: &'static str =
    "INSERT INTO events (id, title, notes, start_at, end_at, reminded, created_at)
             VALUES (?1, ?2, ?3, ?4, ?5, ?6, ?7)";

/// Agenda events starting between two instants, both included, as the fields of an
/// [`EventRow`].
pub const SELECT_EVENTS: &'static str =
    "SELECT id, title, notes, start_at, end_at, reminded, created_at
             FROM events
             WHERE start_at >= ?1 AND start_at <= ?2
             ORDER BY start_at ASC";

/// Whether the row at `k` is the first that could not be read.
pub open spec fn fails_first<R>(rows: Seq<Result<R, String>>, k: int) -> bool {
    &&& 0 <= k < rows.len()
    &&& rows[k] is Err
    &&& forall|i: int| 0 <= i < k ==> (#[trigger] rows[i]) is Ok
}

// ---------------------------------------------------------------------------
// Instants
// ---------------------------------------------------------------------------

/// Whether an instant is read back from the text it is stored as: it is one of
/// the years 0 to 9999.
pub open spec fn storable_instant(t: Timestamp) -> bool {
    t.wf() && four_digit_year(t.secs())
}

/// The text an instant is stored as.
pub open spec fn stored_instant(t: Timestamp) -> Seq<char> {
    rfc3339_text(t.secs(), t.nanos())
}

/// The text an optional instant is stored as.
pub open spec fn stored_instant_opt(t: Option<Timestamp>) -> Option<Seq<char>> {
    match t {
        Some(t) => Some(stored_instant(t)),
        None => None,
    }
}

/// Whether `t` is the instant stored as `text`. Where `text` holds none, `t` is
/// the instant at which it was read.
pub open spec fn reads_as(text: Seq<char>, t: Timestamp) -> bool {
    match rfc3339_instant(text) {
        Some(at) => t.secs() == at.0 && t.nanos() == at.1,
        None => t.secs() >= 0 && t.nanos() < 1_000_000_000,
    }
}

/// Whether `t` is what is stored as `text`.
pub open spec fn reads_as_opt(text: Option<Seq<char>>, t: Option<Timestamp>) -> bool {
    match (text, t) {
        (Some(text), Some(t)) => reads_as(text, t) && t.wf(),
        (None, None) => true,
        _ => false,
    }
}

/// The instant stored as `s`, or the present where `s` holds none.
pub fn parse_dt(s: &str) -> (r: Timestamp)
    ensures
        reads_as(s@, r),
        r.wf(),
        forall|t: Timestamp|
            storable_instant(t) && s@ == #[trigger] stored_instant(t) ==> r == t,
{
    match Timestamp::parse_rfc3339(s) {
        Some(t) => t,
        None => Timestamp::now(),
    }
}

/// The optional instant stored as `s`.
pub fn parse_dt_opt(s: &Option<String>) -> (r: Option<Timestamp>)
    ensures
        reads_as_opt(opt_view(*s), r),
        forall|t: Option<Timestamp>|
            (t matches Some(at) ==> storable_instant(at)) && opt_view(*s)
                == #[trigger] stored_instant_opt(t) ==> r == t,
{
    match s {
        Some(text) => {
            let at = parse_dt(text.as_str());
            assert forall|t: Option<Timestamp>|
                (t matches Some(at) ==> storable_instant(at)) && opt_view(*s)
                    == #[trigger] stored_instant_opt(t) implies Some(at) == t by {
                match t {
                    Some(x) => {
                        assert(text@ == stored_instant(x));
                    },
                    None => {},
                }
            }
            Some(at)
        },
        None => None,
    }
}

/// The text an optional instant is stored as.
fn instant_cell(t: &Option<Timestamp>) -> (r: Option<String>)
    ensures
        opt_view(r) == stored_instant_opt(*t),
{
    match t {
        Some(t) => Some(t.to_rfc3339()),
        None => None,
    }
}

// ---------------------------------------------------------------------------
// Tasks
// ---------------------------------------------------------------------------

/// A row of the table `tasks`.
#[derive(Debug)]
pub struct TaskRow {
    pub id: String,
    pub title: String,
    pub description: Option<String>,
    pub status: String,
    pub priority: i64,
    pub due_at: Option<String>,
    pub created_at: String,
    pub updated_at: String,
}

/// A row of the table `tasks` as a value.
pub struct TaskCells {
    pub id: Seq<char>,
    pub title: Seq<char>,
    pub description: Option<Seq<char>>,
    pub status: Seq<char>,
    pub priority: i64,
    pub due_at: Option<Seq<char>>,
    pub created_at: Seq<char>,
    pub updated_at: Seq<char>,
}

impl View for TaskRow {
    type V = TaskCells;

    open spec fn view(&self) -> TaskCells {
        TaskCells {
            id: self.id@,
            title: self.title@,
            description: opt_view(self.description),
            status: self.status@,
            priority: self.priority,
            due_at: opt_view(self.due_at),
            created_at: self.created_at@,
            updated_at: self.updated_at@,
        }
    }
}

/// The row a task is stored as.
pub open spec fn row_of_task(t: TaskRecord) -> TaskCells {
    TaskCells {
        id: hyphenated(t.id),
        title: t.title,
        description: t.description,
        status: t.status.name(),
        priority: t.priority.rank(),
        due_at: stored_instant_opt(t.due_at),
        created_at: stored_instant(t.created_at),
        updated_at: stored_instant(t.updated_at),
    }
}

/// Whether a task is read back from the row it is stored as: its instants are.
pub open spec fn storable_task(t: TaskRecord) -> bool {
    &&& t.due_at matches Some(at) ==> storable_instant(at)
    &&& storable_instant(t.created_at)
    &&& storable_instant(t.updated_at)
}

/// The row to store a task as.
pub fn task_row(task: &Task) -> (r: TaskRow)
    ensures
        r@ == row_of_task(task@),
{
    TaskRow {
        id: task.id.text(),
        title: task.title.clone(),
        description: clone_opt(&task.description),
        status: task.status.as_str().to_string(),
        priority: task.priority.as_i64(),
        due_at: instant_cell(&task.due_at),
        created_at: task.created_at.to_rfc3339(),
        updated_at: task.updated_at.to_rfc3339(),
    }
}

/// Whether `t` is the task stored as `row`. A cell that cannot be read stands for a
/// fresh id, the present, or the usual status and priority. A task whose instants
/// are of the years 0 to 9999 is read back from its row as it was.
pub open spec fn reads_task(row: TaskRow, t: Task) -> bool {
    &&& match uuid_value(row.id@) {
        Some(v) => t.id.value == v,
        None => is_v4(t.id.value),
    }
    &&& t.title == row.title
    &&& t.description == row.description
    &&& t.status == TaskStatus::named(row.status@)
    &&& t.priority == TaskPriority::ranked(row.priority)
    &&& reads_as_opt(opt_view(row.due_at), t.due_at)
    &&& reads_as(row.created_at@, t.created_at)
    &&& t.created_at.wf()
    &&& reads_as(row.updated_at@, t.updated_at)
    &&& t.updated_at.wf()
    &&& forall|x: TaskRecord| storable_task(x) && row@ == #[trigger] row_of_task(x) ==> t@ == x
}

/// The task stored as `row`.
pub fn row_to_task(row: TaskRow) -> (r: Task)
    ensures
        reads_task(row, r),
{
    let id = TaskId { value: parse_id(row.id.as_str()) };
    let status = TaskStatus::from_str_lossy(row.status.as_str());
    let priority = TaskPriority::from_i64(row.priority);
    let due_at = parse_dt_opt(&row.due_at);
    let created_at = parse_dt(row.created_at.as_str());
    let updated_at = parse_dt(row.updated_at.as_str());
    let task = Task {
        id,
        title: row.title,
        description: row.description,
        status,
        priority,
        due_at,
        created_at,
        updated_at,
    };
    assert forall|t: TaskRecord|
        storable_task(t) && row@ == #[trigger] row_of_task(t) implies task@ == t by {
        law_status_round_trip(t.status);
        law_priority_round_trip(t.priority);
        assert(row.id@ == hyphenated(t.id));
        assert(opt_view(row.due_at) == stored_instant_opt(t.due_at));
        assert(row.created_at@ == stored_instant(t.created_at));
        assert(row.updated_at@ == stored_instant(t.updated_at));
    }
    task
}

/// The tasks of a sequence, as values.
pub open spec fn task_records(v: Seq<Task>) -> Seq<TaskRecord> {
    v.map_values(|t: Task| t@)
}

/// Whether `rows` were all read, and are those that `tasks` are stored as, in
/// order.
pub open spec fn stores_tasks(
    rows: Seq<Result<TaskRow, String>>,
    tasks: Seq<TaskRecord>,
) -> bool {
    &&& rows.len() == tasks.len()
    &&& forall|i: int|
        0 <= i < rows.len() ==> (#[trigger] rows[i]) is Ok && storable_task(tasks[i]) && rows[i]->Ok_0@
            == row_of_task(tasks[i])
}

/// The tasks of a query's rows, one for each, in order. The first row that could
/// not be read fails the query. Rows that tasks are stored as give these tasks
/// back as they were, where their instants are of the years 0 to 9999.
pub fn read_tasks(rows: Vec<Result<TaskRow, String>>) -> (r: AppResult<Vec<Task>>)
    ensures
        match r {
            Ok(out) => {
                &&& out@.len() == rows@.len()
                &&& forall|i: int|
                    0 <= i < rows@.len() ==> (#[trigger] rows@[i]) is Ok && reads_task(
                        rows@[i]->Ok_0,
                        out@[i],
                    )
            },
            Err(e) => exists|k: int| #[trigger] fails_first(rows@, k) && e == AppError::Database(
                rows@[k]->Err_0,
            ),
        },
        forall|x: Seq<TaskRecord>| #[trigger]
            stores_tasks(rows@, x) ==> (r matches Ok(out) && task_records(out@) == x),
{
    let ghost all = rows@;
    let mut out: Vec<Task> = Vec::new();
    for row in it: rows
        invariant
            it.seq() == all,
            out@.len() == it.index(),
            forall|i: int|
                0 <= i < it.index() ==> (#[trigger] all[i]) is Ok && reads_task(
                    all[i]->Ok_0,
                    out@[i],
                ),
    {
        let ghost k = it.index() as int;
        assert(row == all[k]);
        match row {
            Ok(row) => out.push(row_to_task(row)),
            Err(why) => {
                assert(fails_first(all, k));
                return Err(AppError::Database(why));
            },
        }
    }
    assert forall|x: Seq<TaskRecord>| #[trigger] stores_tasks(all, x) implies task_records(out@)
        == x by {
        assert forall|i: int| 0 <= i < x.len() implies task_records(out@)[i] == x[i] by {
            assert(all[i] is Ok);
            assert(all[i]->Ok_0@ == row_of_task(x[i]));
        }
        assert(task_records(out@) =~= x);
    }
    Ok(out)
}

// ---------------------------------------------------------------------------
// Events
// ---------------------------------------------------------------------------

/// A row of the table `events`.
#[derive(Debug)]
pub struct EventRow {
    pub id: String,
    pub title: String,
    pub notes: Option<String>,
    pub start_at: String,
    pub end_at: Option<String>,
    pub reminded: i64,
    pub created_at: String,
}

/// A row of the table `events` as a value.
pub struct EventCells {
    pub id: Seq<char>,
    pub title: Seq<char>,
    pub notes: Option<Seq<char>>,
    pub start_at: Seq<char>,
    pub end_at: Option<Seq<char>>,
    pub reminded: i64,
    pub created_at: Seq<char>,
}

impl View for EventRow {
    type V = EventCells;

    open spec fn view(&self) -> EventCells {
        EventCells {
            id: self.id@,
            title: self.title@,
            notes: opt_view(self.notes),
            start_at: self.start_at@,
            end_at: opt_view(self.end_at),
            reminded: self.reminded,
            created_at: self.created_at@,
        }
    }
}

/// The row an event is stored as.
pub open spec fn row_of_event(e: EventRecord) -> EventCells {
    EventCells {
        id: hyphenated(e.id),
        title: e.title,
        notes: e.notes,
        start_at: stored_instant(e.start_at),
        end_at: stored_instant_opt(e.end_at),
        reminded: if e.reminded {
            1
        } else {
            0
        },
        created_at: stored_instant(e.created_at),
    }
}

/// Whether an event is read back from the row it is stored as: its instants are.
pub open spec fn storable_event(e: EventRecord) -> bool {
    &&& storable_instant(e.start_at)
    &&& e.end_at matches Some(at) ==> storable_instant(at)
    &&& storable_instant(e.created_at)
}

/// The row to store an event as.
pub fn event_row(ev: &ScheduleEvent) -> (r: EventRow)
    ensures
        r@ == row_of_event(ev@),
{
    EventRow {
        id: ev.id.text(),
        title: ev.title.clone(),
        notes: clone_opt(&ev.notes),
        start_at: ev.start_at.to_rfc3339(),
        end_at: instant_cell(&ev.end_at),
        reminded: if ev.reminded {
            1
        } else {
            0
        },
        created_at: ev.created_at.to_rfc3339(),
    }
}

/// Whether `e` is the event stored as `row`. A cell that cannot be read stands for a
/// fresh id or the present. An event whose instants are of the years 0 to 9999 is
/// read back from its row as it was.
pub open spec fn reads_event(row: EventRow, e: ScheduleEvent) -> bool {
    &&& match uuid_value(row.id@) {
        Some(v) => e.id.value == v,
        None => is_v4(e.id.value),
    }
    &&& e.title == row.title
    &&& e.notes == row.notes
    &&& reads_as(row.start_at@, e.start_at)
    &&& e.start_at.wf()
    &&& reads_as_opt(opt_view(row.end_at), e.end_at)
    &&& e.reminded == (row.reminded != 0)
    &&& reads_as(row.created_at@, e.created_at)
    &&& e.created_at.wf()
    &&& forall|x: EventRecord| storable_event(x) && row@ == #[trigger] row_of_event(x) ==> e@ == x
}

/// The event stored as `row`.
pub fn row_to_event(row: EventRow) -> (r: ScheduleEvent)
    ensures
        reads_event(row, r),
{
    let id = EventId { value: parse_id(row.id.as_str()) };
    let start_at = parse_dt(row.start_at.as_str());
    let end_at = parse_dt_opt(&row.end_at);
    let created_at = parse_dt(row.created_at.as_str());
    let event = ScheduleEvent {
        id,
        title: row.title,
        notes: row.notes,
        start_at,
        end_at,
        reminded: row.reminded != 0,
        created_at,
    };
    assert forall|e: EventRecord|
        storable_event(e) && row@ == #[trigger] row_of_event(e) implies event@ == e by {
        assert(row.id@ == hyphenated(e.id));
        assert(row.start_at@ == stored_instant(e.start_at));
        assert(opt_view(row.end_at) == stored_instant_opt(e.end_at));
        assert(row.created_at@ == stored_instant(e.created_at));
    }
    event
}

/// The events of a sequence, as values.
pub open spec fn event_records(v: Seq<ScheduleEvent>) -> Seq<EventRecord> {
    v.map_values(|e: ScheduleEvent| e@)
}

/// Whether `rows` were all read, and are those that `events` are stored as, in
/// order.
pub open spec fn stores_events(
    rows: Seq<Result<EventRow, String>>,
    events: Seq<EventRecord>,
) -> bool {
    &&& rows.len() == events.len()
    &&& forall|i: int|
        0 <= i < rows.len() ==> (#[trigger] rows[i]) is Ok && storable_event(events[i]) && rows[i]->Ok_0@
            == row_of_event(events[i])
}

/// The events of a query's rows, one for each, in order. The first row that could
/// not be read fails the query. Rows that events are stored as give these events
/// back as they were, where their instants are of the years 0 to 9999.
pub fn read_events(rows: Vec<Result<EventRow, String>>) -> (r: AppResult<Vec<ScheduleEvent>>)
    ensures
        match r {
            Ok(out) => {
                &&& out@.len() == rows@.len()
                &&& forall|i: int|
                    0 <= i < rows@.len() ==> (#[trigger] rows@[i]) is Ok && reads_event(
                        rows@[i]->Ok_0,
                        out@[i],
                    )
            },
            Err(e) => exists|k: int| #[trigger] fails_first(rows@, k) && e == AppError::Database(
                rows@[k]->Err_0,
            ),
        },
        forall|x: Seq<EventRecord>| #[trigger]
            stores_events(rows@, x) ==> (r matches Ok(out) && event_records(out@) == x),
{
    let ghost all = rows@;
    let mut out: Vec<ScheduleEvent> = Vec::new();
    for row in it: rows
        invariant
            it.seq() == all,
            out@.len() == it.index(),
            forall|i: int|
                0 <= i < it.index() ==> (#[trigger] all[i]) is Ok && reads_event(
                    all[i]->Ok_0,
                    out@[i],
                ),
    {
        let ghost k = it.index() as int;
        assert(row == all[k]);
        match row {
            Ok(row) => out.push(row_to_event(row)),
            Err(why) => {
                assert(fails_first(all, k));
                return Err(AppError::Database(why));
            },
        }
    }
    assert forall|x: Seq<EventRecord>| #[trigger] stores_events(all, x) implies event_records(out@)
        == x by {
        assert forall|i: int| 0 <= i < x.len() implies event_records(out@)[i] == x[i] by {
            assert(all[i] is Ok);
            assert(all[i]->Ok_0@ == row_of_event(x[i]));
        }
        assert(event_records(out@) =~= x);
    }
    Ok(out)
}

// ---------------------------------------------------------------------------
// Laws
// ---------------------------------------------------------------------------

/// Whether an instant lies in the years 0 to 9999.
pub open spec fn in_written_years(t: Timestamp) -> bool {
    t.wf() && -62167219200 <= t.secs() <= 253402300799
}

/// A stored task is read back with every field as it was, where its instants lie in
/// the years 0 to 9999.
pub proof fn law_task_is_read_back(stored: Task, row: TaskRow, read: Task)
    requires
        row@ == row_of_task(stored@),
        reads_task(row, read),
        stored.due_at matches Some(at) ==> in_written_years(at),
        in_written_years(stored.created_at),
        in_written_years(stored.updated_at),
    ensures
        read.id == stored.id,
        read.title@ == stored.title@,
        opt_view(read.description) == opt_view(stored.description),
        read.status == stored.status,
        read.priority == stored.priority,
        read.due_at == stored.due_at,
        read.created_at == stored.created_at,
        read.updated_at == stored.updated_at,
{
    assert(storable_task(stored@));
    assert(read@ == stored@);
}

/// A stored event is read back with every field as it was, where its instants lie in
/// the years 0 to 9999.
pub proof fn law_event_is_read_back(stored: ScheduleEvent, row: EventRow, read: ScheduleEvent)
    requires
        row@ == row_of_event(stored@),
        reads_event(row, read),
        in_written_years(stored.start_at),
        stored.end_at matches Some(at) ==> in_written_years(at),
        in_written_years(stored.created_at),
    ensures
        read.id == stored.id,
        read.title@ == stored.title@,
        opt_view(read.notes) == opt_view(stored.notes),
        read.start_at == stored.start_at,
        read.end_at == stored.end_at,
        read.reminded == stored.reminded,
        read.created_at == stored.created_at,
{
    assert(storable_event(stored@));
    assert(read@ == stored@);
}

/// A task is stored under the text of its id, the name of its status and the rank of
/// its priority, with its instants as RFC 3339 and its texts in full.
pub proof fn law_cells_of_a_task(t: TaskRecord)
    ensures
        ({
            let cells = row_of_task(t);
            &&& cells.id == hyphenated(t.id)
            &&& cells.title == t.title
            &&& cells.description == t.description
            &&& cells.status == t.status.name()
            &&& cells.priority == t.priority.rank()
            &&& t.due_at is None ==> cells.due_at is None
            &&& t.due_at matches Some(at) ==> cells.due_at == Some(
                rfc3339_text(at.secs(), at.nanos()),
            )
            &&& cells.created_at == rfc3339_text(t.created_at.secs(), t.created_at.nanos())
            &&& cells.updated_at == rfc3339_text(t.updated_at.secs(), t.updated_at.nanos())
        }),
{
}

/// An event is stored under the text of its id, with its instants as RFC 3339, its
/// texts in full, and one for a user who has been reminded.
pub proof fn law_cells_of_an_event(e: EventRecord)
    ensures
        ({
            let cells = row_of_event(e);
            &&& cells.id == hyphenated(e.id)
            &&& cells.title == e.title
            &&& cells.notes == e.notes
            &&& cells.start_at == rfc3339_text(e.start_at.secs(), e.start_at.nanos())
            &&& e.end_at is None ==> cells.end_at is None
            &&& e.end_at matches Some(at) ==> cells.end_at == Some(
                rfc3339_text(at.secs(), at.nanos()),
            )
            &&& cells.reminded == if e.reminded {
                1int
            } else {
                0
            }
            &&& cells.created_at == rfc3339_text(e.created_at.secs(), e.created_at.nanos())
        }),
{
}

/// Cells as values hold all that the rows hold.
pub proof fn law_cells_are_the_row(t: TaskRow, e: EventRow)
    ensures
        t@.id == t.id@,
        t@.title == t.title@,
        t@.description == opt_view(t.description),
        t@.status == t.status@,
        t@.priority == t.priority,
        t@.due_at == opt_view(t.due_at),
        t@.created_at == t.created_at@,
        t@.updated_at == t.updated_at@,
        e@.id == e.id@,
        e@.title == e.title@,
        e@.notes == opt_view(e.notes),
        e@.start_at == e.start_at@,
        e@.end_at == opt_view(e.end_at),
        e@.reminded == e.reminded,
        e@.created_at == e.created_at@,
{
}

/// What can be read in a row is what is read: the id, the instants, the status and the
/// priority that its cells stand for, and its texts in full.
pub proof fn law_row_is_read_as_it_stands(row: TaskRow, t: Task)
    requires
        reads_task(row, t),
    ensures
        uuid_value(row.id@) matches Some(v) ==> t.id.value == v,
        t.title@ == row.title@,
        opt_view(t.description) == opt_view(row.description),
        t.status == TaskStatus::named(row.status@),
        t.priority == TaskPriority::ranked(row.priority),
        row.due_at is None <==> t.due_at is None,
        row.due_at matches Some(text) ==> (rfc3339_instant(text@) matches Some(at) ==> (
        t.due_at->0).secs() == at.0 && (t.due_at->0).nanos() == at.1),
        rfc3339_instant(row.created_at@) matches Some(at) ==> t.created_at.secs() == at.0
            && t.created_at.nanos() == at.1,
        rfc3339_instant(row.updated_at@) matches Some(at) ==> t.updated_at.secs() == at.0
            && t.updated_at.nanos() == at.1,
{
}

/// What can be read in a row is what is read: the id and the instants that its cells
/// stand for, and its texts in full; the user has been reminded unless the cell is zero.
pub proof fn law_event_row_is_read_as_it_stands(row: EventRow, e: ScheduleEvent)
    requires
        reads_event(row, e),
    ensures
        uuid_value(row.id@) matches Some(v) ==> e.id.value == v,
        e.title@ == row.title@,
        opt_view(e.notes) == opt_view(row.notes),
        rfc3339_instant(row.start_at@) matches Some(at) ==> e.start_at.secs() == at.0
            && e.start_at.nanos() == at.1,
        row.end_at is None <==> e.end_at is None,
        row.end_at matches Some(text) ==> (rfc3339_instant(text@) matches Some(at) ==> (
        e.end_at->0).secs() == at.0 && (e.end_at->0).nanos() == at.1),
        e.reminded <==> row.reminded != 0,
        rfc3339_instant(row.created_at@) matches Some(at) ==> e.created_at.secs() == at.0
            && e.created_at.nanos() == at.1,
{
}

/// Rows that hold stored tasks, or stored events, are those that are read back.
pub proof fn law_stored_rows(
    rows: Seq<Result<TaskRow, String>>,
    tasks: Seq<TaskRecord>,
    event_rows: Seq<Result<EventRow, String>>,
    events: Seq<EventRecord>,
)
    requires
        rows.len() == tasks.len(),
        forall|i: int|
            0 <= i < rows.len() ==> {
                &&& (#[trigger] rows[i]) is Ok
                &&& rows[i]->Ok_0@ == row_of_task(tasks[i])
                &&& tasks[i].due_at matches Some(at) ==> in_written_years(at)
                &&& in_written_years(tasks[i].created_at)
                &&& in_written_years(tasks[i].updated_at)
            },
        event_rows.len() == events.len(),
        forall|i: int|
            0 <= i < event_rows.len() ==> {
                &&& (#[trigger] event_rows[i]) is Ok
                &&& event_rows[i]->Ok_0@ == row_of_event(events[i])
                &&& in_written_years(events[i].start_at)
                &&& events[i].end_at matches Some(at) ==> in_written_years(at)
                &&& in_written_years(events[i].created_at)
            },
    ensures
        stores_tasks(rows, tasks),
        stores_events(event_rows, events),
{
}

/// Tasks and events of a sequence keep their number and order as values; a query fails
/// with the first row that could not be read.
pub proof fn law_records_keep_order(
    tasks: Seq<Task>,
    events: Seq<ScheduleEvent>,
    rows: Seq<Result<TaskRow, String>>,
    k: int,
)
    ensures
        task_records(tasks).len() == tasks.len(),
        forall|i: int| 0 <= i < tasks.len() ==> #[trigger] task_records(tasks)[i] == tasks[i]@,
        event_records(events).len() == events.len(),
        forall|i: int| 0 <= i < events.len() ==> #[trigger] event_records(events)[i] == events[i]@,
        fails_first(rows, k) ==> 0 <= k < rows.len() && rows[k] is Err && forall|i: int|
            0 <= i < k ==> (#[trigger] rows[i]) is Ok,
{
}

/// An instant that can be read in a text is the one that is read.
pub proof fn law_instant_is_read_as_it_stands(text: Seq<char>, t: Timestamp)
    requires
        reads_as(text, t),
    ensures
        rfc3339_instant(text) matches Some(at) ==> t.secs() == at.0 && t.nanos() == at.1,
        in_written_years(t) ==> storable_instant(t),
        stored_instant(t) == rfc3339_text(t.secs(), t.nanos()),
{
}

} // verus!
