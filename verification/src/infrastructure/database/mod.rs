//! What is stored: rows of the database and the entities they stand for.

pub mod migrations;
pub mod rows;

pub use rows::{
    event_row, read_events, read_tasks, row_to_event, row_to_task, task_row, EventRow, TaskRow,
};
