//! Domain layer: entities and value objects.

pub mod delegation;
pub mod event;
pub mod ids;
pub mod knowledge;
pub mod task;
pub mod time;
pub mod user;

pub use delegation::DelegatedTask;
pub use event::ScheduleEvent;
pub use ids::{DelegateId, EventId, NodeId, TaskId, UserId};
pub use knowledge::KnowledgeNote;
pub use task::{Task, TaskPriority, TaskStatus};
pub use time::Timestamp;
pub use user::UserProfile;
