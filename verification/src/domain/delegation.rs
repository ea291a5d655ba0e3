//! `DelegatedTask` — a ticket assigned to a team member, modelled like an
//! agile-board issue. Produced by the `DELEGATE` tool.

use vstd::prelude::*;

use super::ids::{hyphenated, is_v4, DelegateId};
use super::time::{rfc3339_text, Timestamp};
use crate::json::{fields_of, object_text, write_object, Field, FieldValue};
use crate::text::{clip, clipped, views};

verus! {

/// Longest title of a ticket, in characters.
pub const TITLE_MAX_CHARS: usize = 60;

#[derive(Debug)]
pub struct DelegatedTask {
    pub id: DelegateId,
    pub assignee: String,
    pub description: String,
    pub status: String,
    /// Structured agile-issue payload (JSON) — simulates a board ticket.
    pub payload: String,
    pub created_at: Timestamp,
}

/// A delegated task as a value.
pub struct Ticket {
    pub id: u128,
    pub assignee: Seq<char>,
    pub description: Seq<char>,
    pub status: Seq<char>,
    pub payload: Seq<char>,
    pub created_at: Timestamp,
}

impl View for DelegatedTask {
    type V = Ticket;

    open spec fn view(&self) -> Ticket {
        Ticket {
            id: self.id.value,
            assignee: self.assignee@,
            description: self.description@,
            status: self.status@,
            payload: self.payload@,
            created_at: self.created_at,
        }
    }
}

/// The board issue of a ticket: its title is the beginning of its description.
pub open spec fn issue(
    id: u128,
    assignee: Seq<char>,
    description: Seq<char>,
    now: Timestamp,
) -> Seq<(Seq<char>, FieldValue)> {
    seq![
        ("type"@, FieldValue::Text("issue"@)),
        ("id"@, FieldValue::Text(hyphenated(id))),
        ("title"@, FieldValue::Text(clip(description, TITLE_MAX_CHARS as nat))),
        ("assignee"@, FieldValue::Text(assignee)),
        ("description"@, FieldValue::Text(description)),
        ("status"@, FieldValue::Text("open"@)),
        ("labels"@, FieldValue::List(seq!["delegated"@, "kensho"@])),
        ("created_at"@, FieldValue::Text(rfc3339_text(now.secs(), now.nanos()))),
    ]
}

/// A new ticket: open, with its issue as payload.
pub open spec fn new_ticket(
    id: u128,
    assignee: Seq<char>,
    description: Seq<char>,
    now: Timestamp,
) -> Ticket {
    Ticket {
        id,
        assignee,
        description,
        status: "open"@,
        payload: object_text(issue(id, assignee, description, now)),
        created_at: now,
    }
}

/// The fields of the board issue of a ticket.
pub fn issue_fields(
    id: DelegateId,
    assignee: &String,
    description: &String,
    now: Timestamp,
) -> (r: Vec<(String, Field)>)
    ensures
        fields_of(r@) == issue(id.value, assignee@, description@, now),
{
    let mut labels: Vec<String> = Vec::new();
    labels.push("delegated".to_string());
    labels.push("kensho".to_string());
    assert(views(labels@) =~= seq!["delegated"@, "kensho"@]);

    let mut fields: Vec<(String, Field)> = Vec::new();
    fields.push(("type".to_string(), Field::Text("issue".to_string())));
    fields.push(("id".to_string(), Field::Text(id.text())));
    fields.push(
        ("title".to_string(), Field::Text(clipped(description.as_str(), TITLE_MAX_CHARS))),
    );
    fields.push(("assignee".to_string(), Field::Text(assignee.clone())));
    fields.push(("description".to_string(), Field::Text(description.clone())));
    fields.push(("status".to_string(), Field::Text("open".to_string())));
    fields.push(("labels".to_string(), Field::List(labels)));
    fields.push(("created_at".to_string(), Field::Text(now.to_rfc3339())));
    assert(fields_of(fields@) =~= issue(id.value, assignee@, description@, now));
    fields
}

impl DelegatedTask {
    pub fn new(assignee: String, description: String) -> (r: Self)
        ensures
            r@ == new_ticket(r.id.value, assignee@, description@, r.created_at),
            is_v4(r.id.value),
            r.created_at.wf(),
    {
        DelegatedTask::created(DelegateId::new(), assignee, description, Timestamp::now())
    }

    /// The new ticket with the given id, created at `now`.
    pub fn created(
        id: DelegateId,
        assignee: String,
        description: String,
        now: Timestamp,
    ) -> (r: Self)
        ensures
            r@ == new_ticket(id.value, assignee@, description@, now),
    {
        let fields = issue_fields(id, &assignee, &description, now);
        let payload = write_object(&fields);
        DelegatedTask {
            id,
            assignee,
            description,
            status: "open".to_string(),
            payload,
            created_at: now,
        }
    }
}

/// The issue of a ticket names its id and assignee, holds the whole description, and
/// has its first sixty characters, or all if they are fewer, as title. It is open,
/// carries both labels and tells when it was made; it holds nothing else.
pub proof fn law_issue_tells_the_ticket(
    id: u128,
    assignee: Seq<char>,
    description: Seq<char>,
    now: Timestamp,
)
    ensures
        ({
            let fields = issue(id, assignee, description, now);
            let title = if description.len() > 60 {
                description.take(60)
            } else {
                description
            };
            &&& fields.len() == 8
            &&& fields[0] == ("type"@, FieldValue::Text("issue"@))
            &&& fields[1] == ("id"@, FieldValue::Text(hyphenated(id)))
            &&& fields[2] == ("title"@, FieldValue::Text(title))
            &&& fields[3] == ("assignee"@, FieldValue::Text(assignee))
            &&& fields[4] == ("description"@, FieldValue::Text(description))
            &&& fields[5] == ("status"@, FieldValue::Text("open"@))
            &&& fields[6] == ("labels"@, FieldValue::List(seq!["delegated"@, "kensho"@]))
            &&& fields[7] == (
                "created_at"@,
                FieldValue::Text(rfc3339_text(now.secs(), now.nanos())),
            )
        }),
{
}

/// A new ticket is open, keeps assignee and description in full, and carries its issue.
pub proof fn law_new_ticket(
    id: u128,
    assignee: Seq<char>,
    description: Seq<char>,
    now: Timestamp,
)
    ensures
        ({
            let t = new_ticket(id, assignee, description, now);
            &&& t.id == id
            &&& t.assignee == assignee
            &&& t.description == description
            &&& t.status == "open"@
            &&& t.payload == object_text(issue(id, assignee, description, now))
            &&& t.created_at == now
        }),
{
}

/// A ticket as a value holds all that the delegated task holds.
pub proof fn law_ticket_is_the_task(t: DelegatedTask)
    ensures
        t@.id == t.id.value,
        t@.assignee == t.assignee@,
        t@.description == t.description@,
        t@.status == t.status@,
        t@.payload == t.payload@,
        t@.created_at == t.created_at,
{
}

} // verus!
