use kensho::domain::{EventId, ScheduleEvent, Task, TaskId, TaskPriority, TaskStatus, Timestamp};
use kensho::infrastructure::database::migrations::{
    pending, PREPARE, READ_VERSION, RECORD_VERSION, TARGET_VERSION,
};
use kensho::infrastructure::database::rows::{
    event_row, parse_dt, parse_dt_opt, read_events, read_tasks, row_to_event, row_to_task, task_row,
    EventRow, TaskRow, COUNT_TASKS, INSERT_EVENT, INSERT_TASK, SELECT_EVENTS, SELECT_PENDING_TASKS, SELECT_TASKS,
};
use kensho::services::tools::{ToolCall, ToolExecutor, ToolStep};
use rusqlite::Connection;

/// Bring the schema up to date; returns the versions that were carried out.
fn migrate(conn: &Connection) -> Vec<i64> {
    conn.execute_batch(PREPARE).expect("prepare");
    let read: Option<i64> = conn.query_row(READ_VERSION, [], |r| r.get(0)).ok();
    let mut done = Vec::new();
    for step in pending(read) {
        conn.execute_batch(step.script).expect("script");
        conn.execute(RECORD_VERSION, [step.version]).expect("record");
        done.push(step.version);
    }
    done
}

fn open() -> Connection {
    let conn = Connection::open_in_memory().expect("db");
    assert_eq!(migrate(&conn), vec![1, 2, 3]);
    conn
}

fn insert(conn: &Connection, row: &TaskRow) {
    conn.execute(
        INSERT_TASK,
        (
            &row.id,
            &row.title,
            &row.description,
            &row.status,
            row.priority,
            &row.due_at,
            &row.created_at,
            &row.updated_at,
        ),
    )
    .expect("insert");
}

fn all_tasks(conn: &Connection) -> Vec<Task> {
    query_tasks(conn, SELECT_TASKS, &[])
}

fn query_tasks(conn: &Connection, sql: &str, params: &[String]) -> Vec<Task> {
    let mut stmt = conn.prepare(sql).expect("prepare");
    let rows = stmt
        .query_map(rusqlite::params_from_iter(params), |r| {
            Ok(TaskRow {
                id: r.get(0)?,
                title: r.get(1)?,
                description: r.get(2)?,
                status: r.get(3)?,
                priority: r.get(4)?,
                due_at: r.get(5)?,
                created_at: r.get(6)?,
                updated_at: r.get(7)?,
            })
        })
        .expect("query");
    read_tasks(rows.map(|r| r.map_err(|e| e.to_string())).collect()).expect("rows")
}

#[test]
fn add_task_inserts_row() {
    let conn = open();
    let call = ToolCall::parse("ADD_TASK>Comprar pão|2026-06-20");
    let summary = match ToolExecutor::execute(call) {
        ToolStep::Store { task, summary, .. } => {
            insert(&conn, &task_row(&task));
            summary
        }
        ToolStep::Reply(_) => panic!("execute"),
    };
    assert!(summary.contains("Comprar pão"));
    let n: i64 = conn.query_row(COUNT_TASKS, [], |r| r.get(0)).expect("count");
    assert_eq!(n, 1);
    let stored = all_tasks(&conn);
    assert_eq!(stored[0].title, "Comprar pão");
    assert_eq!(stored[0].due_at.unwrap().to_rfc3339(), "2026-06-20T09:00:00+00:00");
}

#[test]
fn migrations_run_once() {
    let conn = open();
    assert!(migrate(&conn).is_empty());
    let tables: i64 = conn
        .query_row(
            "SELECT COUNT(*) FROM sqlite_master WHERE name IN \
             ('tasks', 'events', 'memory_nodes', 'delegated_tasks', 'knowledge_base')",
            [],
            |r| r.get(0),
        )
        .unwrap();
    assert_eq!(tables, 5);
}

#[test]
fn migrations_are_taken_up_where_they_stopped() {
    let versions = |read| pending(read).iter().map(|m| m.version).collect::<Vec<i64>>();
    assert_eq!(versions(None), vec![1, 2, 3]);
    assert_eq!(versions(Some(0)), vec![1, 2, 3]);
    assert_eq!(versions(Some(-5)), vec![1, 2, 3]);
    assert_eq!(versions(Some(1)), vec![2, 3]);
    assert_eq!(versions(Some(2)), vec![3]);
    assert!(versions(Some(TARGET_VERSION)).is_empty());
    assert!(versions(Some(i64::MAX)).is_empty());
    assert!(pending(Some(1))[0].script.contains("delegated_tasks"));
}

fn sample_task() -> Task {
    Task {
        id: TaskId { value: 0x0123456789abcdef0123456789abcdef },
        title: "Título".to_string(),
        description: Some("com nota".to_string()),
        status: TaskStatus::InProgress,
        priority: TaskPriority::Urgent,
        due_at: Timestamp::new(-1, 500_000_000),
        created_at: Timestamp::new(-62167219200, 0).unwrap(),
        updated_at: Timestamp::new(253402300799, 1_999_999_999).unwrap(),
    }
}

#[test]
fn a_task_is_read_back_from_its_row() {
    let task = sample_task();
    let row = task_row(&task);
    assert_eq!(row.id, "01234567-89ab-cdef-0123-456789abcdef");
    assert_eq!(row.status, "in_progress");
    assert_eq!(row.priority, 3);
    assert_eq!(row.due_at.as_deref(), Some("1969-12-31T23:59:59.500+00:00"));
    assert_eq!(row.created_at, "0000-01-01T00:00:00+00:00");

    let conn = open();
    insert(&conn, &row);
    let back = all_tasks(&conn).remove(0);
    assert_eq!(back.id, task.id);
    assert_eq!(back.title, task.title);
    assert_eq!(back.description, task.description);
    assert_eq!(back.status, task.status);
    assert_eq!(back.priority, task.priority);
    assert_eq!(back.due_at, task.due_at);
    assert_eq!(back.created_at, task.created_at);
    assert_eq!(back.updated_at, task.updated_at);
}

#[test]
fn an_event_is_read_back_from_its_row() {
    for reminded in [false, true] {
        let event = ScheduleEvent {
            id: EventId { value: 9 },
            title: "Reunião".to_string(),
            notes: None,
            start_at: Timestamp::new(1781946000, 0).unwrap(),
            end_at: Timestamp::new(1781949600, 1),
            reminded,
            created_at: Timestamp::new(0, 123_000_000).unwrap(),
        };
        let row = event_row(&event);
        assert_eq!(row.reminded, reminded as i64);
        assert_eq!(row.start_at, "2026-06-20T09:00:00+00:00");
        let back = row_to_event(row);
        assert_eq!(back.id, event.id);
        assert_eq!(back.title, event.title);
        assert_eq!(back.notes, event.notes);
        assert_eq!(back.start_at, event.start_at);
        assert_eq!(back.end_at, event.end_at);
        assert_eq!(back.reminded, reminded);
        assert_eq!(back.created_at, event.created_at);
    }
}

#[test]
fn cells_that_cannot_be_read_are_replaced() {
    let row = TaskRow {
        id: "?".to_string(),
        title: "t".to_string(),
        description: None,
        status: "?".to_string(),
        priority: 99,
        due_at: Some("ontem".to_string()),
        created_at: String::new(),
        updated_at: "2026-06-20".to_string(),
    };
    let task = row_to_task(row);
    assert_eq!(task.status, TaskStatus::Pending);
    assert_eq!(task.priority, TaskPriority::Normal);
    assert!(task.due_at.unwrap().timestamp() > 1_700_000_000);
    assert!(task.created_at.timestamp() > 1_700_000_000);
    assert!(task.updated_at.timestamp() > 1_700_000_000);

    let event = row_to_event(EventRow {
        id: "?".to_string(),
        title: "t".to_string(),
        notes: Some("n".to_string()),
        start_at: "?".to_string(),
        end_at: None,
        reminded: -3,
        created_at: "?".to_string(),
    });
    assert!(event.reminded);
    assert_eq!(event.end_at, None);
    assert_eq!(event.notes.as_deref(), Some("n"));
}

#[test]
fn instants_are_read_from_any_offset() {
    let at = parse_dt("2026-06-20T06:00:00-03:00");
    assert_eq!(at.timestamp(), 1781946000);
    assert_eq!(at.to_rfc3339(), "2026-06-20T09:00:00+00:00");
    assert_eq!(parse_dt_opt(&None), None);
    assert_eq!(parse_dt_opt(&Some("1970-01-01T00:00:00Z".to_string())), Timestamp::new(0, 0));
}

/// A task of the given id, with a due date, status and priority.
fn task_with(id: u128, due: Option<i64>, status: TaskStatus, priority: TaskPriority) -> Task {
    let now = Timestamp::new(1000 + id as i64, 0).unwrap();
    let mut task = Task::created(TaskId { value: id }, format!("t{id}"), now);
    task.due_at = due.map(|secs| Timestamp::new(secs, 0).unwrap());
    task.status = status;
    task.priority = priority;
    task
}

fn titles(tasks: &[Task]) -> Vec<&str> {
    tasks.iter().map(|t| t.title.as_str()).collect()
}

#[test]
fn tasks_are_listed_by_priority() {
    let conn = open();
    let pending = TaskStatus::Pending;
    for task in [
        task_with(1, None, pending, TaskPriority::Low),
        task_with(2, None, pending, TaskPriority::Urgent),
        task_with(3, None, TaskStatus::Done, TaskPriority::Normal),
        task_with(4, None, pending, TaskPriority::Urgent),
    ] {
        insert(&conn, &task_row(&task));
    }
    assert_eq!(titles(&all_tasks(&conn)), vec!["t2", "t4", "t3", "t1"]);
}

#[test]
fn pending_tasks_are_open_and_due() {
    let conn = open();
    let normal = TaskPriority::Normal;
    for task in [
        task_with(1, Some(500), TaskStatus::Pending, normal),
        task_with(2, Some(501), TaskStatus::Pending, normal),
        task_with(3, Some(499), TaskStatus::InProgress, normal),
        task_with(4, Some(1), TaskStatus::Done, normal),
        task_with(5, Some(1), TaskStatus::Cancelled, normal),
        task_with(6, None, TaskStatus::Pending, TaskPriority::Low),
    ] {
        insert(&conn, &task_row(&task));
    }
    let when = Timestamp::new(500, 0).unwrap().to_rfc3339();
    let due = query_tasks(&conn, SELECT_PENDING_TASKS, &[when]);
    assert_eq!(titles(&due), vec!["t3", "t1", "t6"]);
}

#[test]
fn events_are_listed_by_start() {
    let conn = open();
    for (id, start) in [(1, 300), (2, 100), (3, 200), (4, 301), (5, 99)] {
        let at = Timestamp::new(start, 0).unwrap();
        let row = event_row(&ScheduleEvent::created(EventId { value: id }, format!("e{id}"), at, at));
        conn.execute(
            INSERT_EVENT,
            (
                &row.id,
                &row.title,
                &row.notes,
                &row.start_at,
                &row.end_at,
                row.reminded,
                &row.created_at,
            ),
        )
        .expect("insert");
    }
    let bounds = [100, 300].map(|secs| Timestamp::new(secs, 0).unwrap().to_rfc3339());
    let mut stmt = conn.prepare(SELECT_EVENTS).expect("prepare");
    let rows = stmt
        .query_map(bounds, |r| {
            Ok(EventRow {
                id: r.get(0)?,
                title: r.get(1)?,
                notes: r.get(2)?,
                start_at: r.get(3)?,
                end_at: r.get(4)?,
                reminded: r.get(5)?,
                created_at: r.get(6)?,
            })
        })
        .expect("query");
    let events = read_events(rows.map(|r| r.map_err(|e| e.to_string())).collect()).expect("rows");
    let found: Vec<&str> = events.iter().map(|e| e.title.as_str()).collect();
    assert_eq!(found, vec!["e2", "e3", "e1"]);
}

#[test]
fn the_first_row_that_fails_fails_the_query() {
    let tasks = [sample_task(), task_with(5, None, TaskStatus::Done, TaskPriority::Low)];
    let good = || tasks.iter().map(|t| Ok(task_row(t))).collect::<Vec<_>>();
    let back = read_tasks(good()).unwrap();
    assert_eq!(titles(&back), vec!["Título", "t5"]);
    assert_eq!(back[1].status, TaskStatus::Done);

    let mut bad = good();
    bad.insert(1, Err("first".to_string()));
    bad.push(Err("second".to_string()));
    assert_eq!(read_tasks(bad).unwrap_err().message(), "database error: first");
    assert!(read_tasks(vec![]).unwrap().is_empty());
    let failed = read_events(vec![Err("x".to_string())]);
    assert_eq!(failed.unwrap_err().message(), "database error: x");
}
