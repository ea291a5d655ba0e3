//! `ScheduleEvent` entity — items on the user's agenda the assistant can remind
//! the user about.

use vstd::prelude::*;

use super::ids::{is_v4, EventId};
use super::time::Timestamp;
use crate::text::opt_view;

verus! {

#[derive(Debug)]
pub struct ScheduleEvent {
    pub id: EventId,
    pub title: String,
    pub notes: Option<String>,
    pub start_at: Timestamp,
    pub end_at: Option<Timestamp>,
    /// Whether the user has already been reminded of this event.
    pub reminded: bool,
    pub created_at: Timestamp,
}

/// An event as a value.
pub struct EventRecord {
    pub id: u128,
    pub title: Seq<char>,
    pub notes: Option<Seq<char>>,
    pub start_at: Timestamp,
    pub end_at: Option<Timestamp>,
    pub reminded: bool,
    pub created_at: Timestamp,
}

impl View for ScheduleEvent {
    type V = EventRecord;

    open spec fn view(&self) -> EventRecord {
        EventRecord {
            id: self.id.value,
            title: self.title@,
            notes: opt_view(self.notes),
            start_at: self.start_at,
            end_at: self.end_at,
            reminded: self.reminded,
            created_at: self.created_at,
        }
    }
}

/// A new event: without notes or end, and not yet reminded of.
pub open spec fn new_event(
    id: u128,
    title: Seq<char>,
    start_at: Timestamp,
    now: Timestamp,
) -> EventRecord {
    EventRecord { id, title, notes: None, start_at, end_at: None, reminded: false, created_at: now }
}

impl ScheduleEvent {
    pub fn new(title: String, start_at: Timestamp) -> (r: Self)
        ensures
            r@ == new_event(r.id.value, title@, start_at, r.created_at),
            is_v4(r.id.value),
            r.created_at.wf(),
    {
        ScheduleEvent::created(EventId::new(), title, start_at, Timestamp::now())
    }

    /// The new event with the given id, created at `now`.
    pub fn created(id: EventId, title: String, start_at: Timestamp, now: Timestamp) -> (r: Self)
        ensures
            r@ == new_event(id.value, title@, start_at, now),
    {
        ScheduleEvent {
            id,
            title,
            notes: None,
            start_at,
            end_at: None,
            reminded: false,
            created_at: now,
        }
    }

    /// True when the event is due (or overdue) and not yet reminded.
    pub fn is_due(&self, now: Timestamp) -> (r: bool)
        ensures
            r == (!self.reminded && self.start_at.no_later(now)),
    {
        !self.reminded && self.start_at.is_no_later(&now)
    }
}

/// An event that is due stays due as time passes, until the user is reminded.
pub proof fn law_due_stays_due(start_at: Timestamp, now: Timestamp, later: Timestamp)
    requires
        start_at.no_later(now),
        now.no_later(later),
    ensures
        start_at.no_later(later),
{
}

/// A new event has the id, the whole title, the start and the instant that it was
/// made with; it has neither notes nor end, and the user is still to be reminded.
pub proof fn law_new_event(id: u128, title: Seq<char>, start_at: Timestamp, now: Timestamp)
    ensures
        new_event(id, title, start_at, now).id == id,
        new_event(id, title, start_at, now).title == title,
        new_event(id, title, start_at, now).notes is None,
        new_event(id, title, start_at, now).start_at == start_at,
        new_event(id, title, start_at, now).end_at is None,
        !new_event(id, title, start_at, now).reminded,
        new_event(id, title, start_at, now).created_at == now,
{
}

/// An event as a value holds all that the event holds.
pub proof fn law_record_is_the_event(e: ScheduleEvent)
    ensures
        e@.id == e.id.value,
        e@.title == e.title@,
        e@.notes == (match e.notes {
            Some(n) => Some(n@),
            None => None,
        }),
        e@.start_at == e.start_at,
        e@.end_at == e.end_at,
        e@.reminded == e.reminded,
        e@.created_at == e.created_at,
{
}

} // verus!
