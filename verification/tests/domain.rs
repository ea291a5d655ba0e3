use kensho::commands::{app_info, queued, settle};
use kensho::domain::delegation::{issue_fields, DelegatedTask, TITLE_MAX_CHARS};
use kensho::domain::event::ScheduleEvent;
use kensho::domain::ids::{id_or, parse_id};
use kensho::domain::task::{Task, TaskPriority, TaskStatus};
use kensho::domain::{
    DelegateId, EventId, KnowledgeNote, NodeId, TaskId, Timestamp, UserId, UserProfile,
};
use kensho::error::{join_err, AppError, CommandError};

// -- instants ------------------------------------------------------------------

#[test]
fn an_instant_is_of_the_calendar() {
    assert!(Timestamp::new(0, 999_999_999).is_some());
    assert!(Timestamp::new(0, 1_000_000_000).is_none());
    assert!(Timestamp::new(59, 1_000_000_000).is_some());
    assert!(Timestamp::new(-1, 1_500_000_000).is_some());
    assert!(Timestamp::new(59, 2_000_000_000).is_none());
    assert!(Timestamp::new(-8334601228800, 0).is_some());
    assert!(Timestamp::new(-8334601228801, 0).is_none());
    assert!(Timestamp::new(8210266876799, 0).is_some());
    assert!(Timestamp::new(8210266876800, 0).is_none());
}

#[test]
fn the_calendar_is_that_of_chrono() {
    for secs in [-8334601228801, -8334601228800, -1, 0, 59, 8210266876799, 8210266876800] {
        for nanos in [0, 999_999_999, 1_000_000_000, 1_999_999_999, 2_000_000_000] {
            let ours = Timestamp::new(secs, nanos);
            let theirs = chrono::DateTime::from_timestamp(secs, nanos);
            assert_eq!(ours.is_some(), theirs.is_some(), "{secs} {nanos}");
            if let (Some(a), Some(b)) = (ours, theirs) {
                assert_eq!(a.timestamp(), b.timestamp());
                assert_eq!(a.subsec_nanos(), b.timestamp_subsec_nanos());
                assert_eq!(a.to_rfc3339(), b.to_rfc3339());
            }
        }
    }
}

#[test]
fn an_instant_is_written_in_utc() {
    assert_eq!(Timestamp::new(0, 0).unwrap().to_rfc3339(), "1970-01-01T00:00:00+00:00");
    assert_eq!(
        Timestamp::new(1781946000, 5_000_000).unwrap().to_rfc3339(),
        "2026-06-20T09:00:00.005+00:00"
    );
}

#[test]
fn a_day_ends_with_its_last_second() {
    for (secs, end) in [
        (0, 86399),
        (86399, 86399),
        (86400, 172799),
        (-1, -1),
        (-86400, -1),
        (-86401, -86401),
        (-8334601228800, -8334601142401),
        (8210266876799, 8210266876799),
    ] {
        let day = Timestamp::new(secs, 7).unwrap().end_of_day();
        assert_eq!((day.timestamp(), day.subsec_nanos()), (end, 0));
    }
    let at = Timestamp::new(1781946000, 0).unwrap();
    assert_eq!(at.end_of_day().to_rfc3339(), "2026-06-20T23:59:59+00:00");
}

// -- ids -----------------------------------------------------------------------

#[test]
fn an_id_is_written_hyphenated() {
    let value: u128 = 0x0123456789abcdef0123456789abcdef;
    let text = "01234567-89ab-cdef-0123-456789abcdef";
    assert_eq!(TaskId { value }.text(), text);
    assert_eq!(EventId { value }.text(), text);
    assert_eq!(DelegateId { value }.text(), text);
    assert_eq!(id_or(text, 1), value);
    assert_eq!(id_or("01234567-89AB-CDEF-0123-456789ABCDEF", 1), value);
    assert_eq!(parse_id(text), value);
}

#[test]
fn what_is_no_id_gives_a_spare_one() {
    assert_eq!(id_or("nada", 42), 42);
    assert_ne!(parse_id("nada"), parse_id("nada"));
}

/// Whether a value is a random UUID of the usual variant.
fn is_random_uuid(value: u128) -> bool {
    (value >> 76) & 15 == 4 && (value >> 62) & 3 == 2
}

#[test]
fn fresh_ids_are_random() {
    assert!(is_random_uuid(TaskId::new().value));
    assert!(is_random_uuid(EventId::new().value));
    assert!(is_random_uuid(DelegateId::new().value));
    assert!(is_random_uuid(NodeId::new().value));
    assert!(is_random_uuid(UserId::new().value));
    assert!(is_random_uuid(parse_id("nada")));
    assert_ne!(TaskId::new(), TaskId::new());
}

// -- tasks ---------------------------------------------------------------------

#[test]
fn a_status_is_read_back() {
    let all = [
        (TaskStatus::Pending, "pending"),
        (TaskStatus::InProgress, "in_progress"),
        (TaskStatus::Done, "done"),
        (TaskStatus::Cancelled, "cancelled"),
    ];
    for (status, name) in all {
        assert_eq!(status.as_str(), name);
        assert_eq!(TaskStatus::from_str_lossy(name), status);
    }
    assert_eq!(TaskStatus::from_str_lossy("Done"), TaskStatus::Pending);
}

#[test]
fn a_priority_is_read_back() {
    let all = [
        (TaskPriority::Low, 0),
        (TaskPriority::Normal, 1),
        (TaskPriority::High, 2),
        (TaskPriority::Urgent, 3),
    ];
    for (priority, rank) in all {
        assert_eq!(priority.as_i64(), rank);
        assert_eq!(TaskPriority::from_i64(rank), priority);
    }
    assert_eq!(TaskPriority::from_i64(-1), TaskPriority::Normal);
    assert_eq!(TaskPriority::from_i64(4), TaskPriority::Normal);
}

#[test]
fn a_new_task_is_pending() {
    let task = Task::new("Ler".to_string());
    assert_eq!(task.title, "Ler");
    assert_eq!(task.status, TaskStatus::Pending);
    assert_eq!(task.priority, TaskPriority::Normal);
    assert_eq!(task.due_at, None);
    assert_eq!(task.created_at, task.updated_at);
    let copy = task.clone();
    assert_eq!(copy.id, task.id);
    assert_eq!(copy.title, "Ler");
}

// -- events --------------------------------------------------------------------

#[test]
fn an_event_is_due_from_its_start_until_reminded() {
    let start = Timestamp::new(100, 5).unwrap();
    let mut ev = ScheduleEvent::new("Reunião".to_string(), start);
    assert!(!ev.is_due(Timestamp::new(100, 4).unwrap()));
    assert!(ev.is_due(start));
    assert!(ev.is_due(Timestamp::new(100, 6).unwrap()));
    assert!(ev.is_due(Timestamp::new(101, 0).unwrap()));
    assert!(!ev.is_due(Timestamp::new(99, 9).unwrap()));
    ev.reminded = true;
    assert!(!ev.is_due(Timestamp::new(101, 0).unwrap()));
}

// -- delegation ----------------------------------------------------------------

#[test]
fn a_ticket_carries_its_issue() {
    let description = "é".repeat(61);
    let now = Timestamp::new(0, 0).unwrap();
    let id = DelegateId { value: 255 };
    let ticket = DelegatedTask::created(id, "Rafaela".to_string(), description.clone(), now);
    assert_eq!(ticket.status, "open");
    assert_eq!(ticket.assignee, "Rafaela");
    let issue: serde_json::Value = serde_json::from_str(&ticket.payload).unwrap();
    assert_eq!(issue["type"], "issue");
    assert_eq!(issue["id"], "00000000-0000-0000-0000-0000000000ff");
    assert_eq!(issue["title"], "é".repeat(TITLE_MAX_CHARS));
    assert_eq!(issue["assignee"], "Rafaela");
    assert_eq!(issue["description"], description);
    assert_eq!(issue["status"], "open");
    assert_eq!(issue["labels"][0], "delegated");
    assert_eq!(issue["labels"][1], "kensho");
    assert_eq!(issue["created_at"], "1970-01-01T00:00:00+00:00");
    assert_eq!(issue.as_object().unwrap().len(), 8);
    let fields = issue_fields(id, &"Rafaela".to_string(), &"x".to_string(), now);
    assert_eq!(fields.len(), 8);
}

#[test]
fn a_new_ticket_is_fresh() {
    let a = DelegatedTask::new("Waldston".to_string(), "Rever \"PR\"".to_string());
    let b = DelegatedTask::new("Waldston".to_string(), "Rever \"PR\"".to_string());
    assert_ne!(a.id, b.id);
    let issue: serde_json::Value = serde_json::from_str(&a.payload).unwrap();
    assert_eq!(issue["id"], a.id.text());
    assert_eq!(issue["title"], "Rever \"PR\"");
    assert_eq!(issue["created_at"], a.created_at.to_rfc3339());
}

#[test]
fn notes_and_profiles_are_kept() {
    let note = KnowledgeNote::new("t".to_string(), "c".to_string(), "a,b".to_string());
    assert_eq!((note.title.as_str(), note.content.as_str(), note.tags.as_str()), ("t", "c", "a,b"));
    let profile = UserProfile::default();
    assert_eq!(profile.display_name, "Usuário");
    assert_eq!(profile.locale, "pt-BR");
    assert_eq!(profile.persona, "Direto, gosta de respostas objetivas.");
}

// -- errors --------------------------------------------------------------------

#[test]
fn errors_say_what_they_are() {
    let x = || "x".to_string();
    let all = [
        (AppError::Database(x()), "database error: x", "database"),
        (AppError::Io(x()), "io error: x", "io"),
        (AppError::Serde(x()), "serialization error: x", "serde"),
        (AppError::Notify(x()), "notification error: x", "notify"),
        (AppError::Llm(x()), "llm error: x", "llm"),
        (AppError::WorkerUnavailable, "the LLM worker channel is closed", "worker"),
        (AppError::Config(x()), "configuration error: x", "config"),
        (AppError::Other(x()), "x", "other"),
    ];
    for (error, message, kind) in all {
        assert_eq!(error.message(), message);
        assert_eq!(error.kind(), kind);
        let shown = CommandError::from(error);
        assert_eq!(shown.message, message);
        assert_eq!(shown.kind, kind);
        assert_eq!(shown.text(), format!("{kind}: {message}"));
    }
    assert_eq!(join_err(x()).text(), "join: x");
    assert_eq!(CommandError::window(x()).text(), "window: x");
}

#[test]
fn commands_answer_what_the_work_came_to() {
    assert_eq!(settle(Ok(Ok(5))).unwrap(), 5);
    let failed = settle::<u8>(Ok(Err(AppError::Io("x".to_string())))).unwrap_err();
    assert_eq!(failed.text(), "io: io error: x");
    let lost = settle::<u8>(Err("cancelled".to_string())).unwrap_err();
    assert_eq!(lost.text(), "join: cancelled");
    assert!(queued(true).is_ok());
    assert_eq!(queued(false).unwrap_err().kind(), "worker");
    let info = app_info("0.1.0".to_string());
    assert_eq!((info.name.as_str(), info.version.as_str()), ("Kensho", "0.1.0"));
}
