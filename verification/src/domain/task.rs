//! `Task` entity and its value types.

use vstd::prelude::*;

use super::ids::{is_v4, TaskId};
use super::time::Timestamp;
use crate::text::{clone_opt, opt_view, same};

verus! {

#[derive(Debug, Clone, Copy, PartialEq, Eq, Structural)]
pub enum TaskStatus {
    Pending,
    InProgress,
    Done,
    Cancelled,
}

impl TaskStatus {
    /// The name a status is stored under.
    pub open spec fn name(self) -> Seq<char> {
        match self {
            TaskStatus::Pending => "pending"@,
            TaskStatus::InProgress => "in_progress"@,
            TaskStatus::Done => "done"@,
            TaskStatus::Cancelled => "cancelled"@,
        }
    }

    /// The status stored under a name; an unknown name counts as pending.
    pub open spec fn named(s: Seq<char>) -> TaskStatus {
        if s == "in_progress"@ {
            TaskStatus::InProgress
        } else if s == "done"@ {
            TaskStatus::Done
        } else if s == "cancelled"@ {
            TaskStatus::Cancelled
        } else {
            TaskStatus::Pending
        }
    }

    pub fn as_str(&self) -> (r: &'static str)
        ensures
            r@ == self.name(),
    {
        match self {
            TaskStatus::Pending => "pending",
            TaskStatus::InProgress => "in_progress",
            TaskStatus::Done => "done",
            TaskStatus::Cancelled => "cancelled",
        }
    }

    pub fn from_str_lossy(s: &str) -> (r: Self)
        ensures
            r == TaskStatus::named(s@),
    {
        if same(s, "in_progress") {
            TaskStatus::InProgress
        } else if same(s, "done") {
            TaskStatus::Done
        } else if same(s, "cancelled") {
            TaskStatus::Cancelled
        } else {
            TaskStatus::Pending
        }
    }
}

/// A status is read back from the name it is stored under.
pub proof fn law_status_round_trip(status: TaskStatus)
    ensures
        TaskStatus::named(status.name()) == status,
{
    reveal_strlit("pending");
    reveal_strlit("in_progress");
    reveal_strlit("done");
    reveal_strlit("cancelled");
    assert("in_progress"@.len() == 11);
    assert("done"@.len() == 4);
    assert("cancelled"@.len() == 9);
    assert("pending"@.len() == 7);
}

#[derive(Debug, Clone, Copy, PartialEq, Eq, Structural)]
pub enum TaskPriority {
    Low,
    Normal,
    High,
    Urgent,
}

impl TaskPriority {
    /// The rank a priority is stored under.
    pub open spec fn rank(self) -> i64 {
        match self {
            TaskPriority::Low => 0,
            TaskPriority::Normal => 1,
            TaskPriority::High => 2,
            TaskPriority::Urgent => 3,
        }
    }

    /// The priority stored under a rank; an unknown rank counts as normal.
    pub open spec fn ranked(v: i64) -> TaskPriority {
        if v == 0 {
            TaskPriority::Low
        } else if v == 2 {
            TaskPriority::High
        } else if v == 3 {
            TaskPriority::Urgent
        } else {
            TaskPriority::Normal
        }
    }

    pub fn as_i64(&self) -> (r: i64)
        ensures
            r == self.rank(),
    {
        match self {
            TaskPriority::Low => 0,
            TaskPriority::Normal => 1,
            TaskPriority::High => 2,
            TaskPriority::Urgent => 3,
        }
    }

    pub fn from_i64(v: i64) -> (r: Self)
        ensures
            r == TaskPriority::ranked(v),
    {
        match v {
            0 => TaskPriority::Low,
            2 => TaskPriority::High,
            3 => TaskPriority::Urgent,
            _ => TaskPriority::Normal,
        }
    }
}

/// A priority is read back from the rank it is stored under.
pub proof fn law_priority_round_trip(priority: TaskPriority)
    ensures
        TaskPriority::ranked(priority.rank()) == priority,
{
}

/// A unit of work the assistant tracks for the user.
#[derive(Debug)]
pub struct Task {
    pub id: TaskId,
    pub title: String,
    pub description: Option<String>,
    pub status: TaskStatus,
    pub priority: TaskPriority,
    pub due_at: Option<Timestamp>,
    pub created_at: Timestamp,
    pub updated_at: Timestamp,
}

/// A task as a value.
pub struct TaskRecord {
    pub id: u128,
    pub title: Seq<char>,
    pub description: Option<Seq<char>>,
    pub status: TaskStatus,
    pub priority: TaskPriority,
    pub due_at: Option<Timestamp>,
    pub created_at: Timestamp,
    pub updated_at: Timestamp,
}

impl View for Task {
    type V = TaskRecord;

    open spec fn view(&self) -> TaskRecord {
        TaskRecord {
            id: self.id.value,
            title: self.title@,
            description: opt_view(self.description),
            status: self.status,
            priority: self.priority,
            due_at: self.due_at,
            created_at: self.created_at,
            updated_at: self.updated_at,
        }
    }
}

/// A new task: pending, of normal priority, with no due date.
pub open spec fn new_task(id: u128, title: Seq<char>, now: Timestamp) -> TaskRecord {
    TaskRecord {
        id,
        title,
        description: None,
        status: TaskStatus::Pending,
        priority: TaskPriority::Normal,
        due_at: None,
        created_at: now,
        updated_at: now,
    }
}

impl Task {
    /// Create a new pending task with sane defaults.
    pub fn new(title: String) -> (r: Self)
        ensures
            r@ == new_task(r.id.value, title@, r.created_at),
            is_v4(r.id.value),
            r.created_at.wf(),
    {
        Task::created(TaskId::new(), title, Timestamp::now())
    }

    /// The new task with the given id, created at `now`.
    pub fn created(id: TaskId, title: String, now: Timestamp) -> (r: Self)
        ensures
            r@ == new_task(id.value, title@, now),
    {
        Task {
            id,
            title,
            description: None,
            status: TaskStatus::Pending,
            priority: TaskPriority::Normal,
            due_at: None,
            created_at: now,
            updated_at: now,
        }
    }
}

impl Clone for Task {
    fn clone(&self) -> (r: Self)
        ensures
            r@ == self@,
    {
        Task {
            id: self.id,
            title: self.title.clone(),
            description: clone_opt(&self.description),
            status: self.status,
            priority: self.priority,
            due_at: self.due_at,
            created_at: self.created_at,
            updated_at: self.updated_at,
        }
    }
}

/// Each status has its own name, and a name that is none of a status counts as
/// pending.
pub proof fn law_status_names(s: Seq<char>)
    ensures
        TaskStatus::Pending.name() == "pending"@,
        TaskStatus::InProgress.name() == "in_progress"@,
        TaskStatus::Done.name() == "done"@,
        TaskStatus::Cancelled.name() == "cancelled"@,
        s != "in_progress"@ && s != "done"@ && s != "cancelled"@ ==> TaskStatus::named(s)
            == TaskStatus::Pending,
{
}

/// Ranks grow with urgency, from zero by one, and a rank that is none of a priority
/// counts as normal.
pub proof fn law_priority_ranks(v: i64)
    ensures
        TaskPriority::Low.rank() == 0,
        TaskPriority::Normal.rank() == 1,
        TaskPriority::High.rank() == 2,
        TaskPriority::Urgent.rank() == 3,
        v < 0 || v > 3 ==> TaskPriority::ranked(v) == TaskPriority::Normal,
{
}

/// A new task has the id, the whole title and the instant that it was made with; it
/// is pending, of normal priority, without description and not due.
pub proof fn law_new_task(id: u128, title: Seq<char>, now: Timestamp)
    ensures
        new_task(id, title, now).id == id,
        new_task(id, title, now).title == title,
        new_task(id, title, now).description is None,
        new_task(id, title, now).status == TaskStatus::Pending,
        new_task(id, title, now).priority == TaskPriority::Normal,
        new_task(id, title, now).due_at is None,
        new_task(id, title, now).created_at == now,
        new_task(id, title, now).updated_at == now,
{
}

/// A task as a value holds all that the task holds.
pub proof fn law_record_is_the_task(t: Task)
    ensures
        t@.id == t.id.value,
        t@.title == t.title@,
        t@.description == (match t.description {
            Some(d) => Some(d@),
            None => None,
        }),
        t@.status == t.status,
        t@.priority == t.priority,
        t@.due_at == t.due_at,
        t@.created_at == t.created_at,
        t@.updated_at == t.updated_at,
{
}

} // verus!
