//! The proactive tick: which deadlines to alert the user to.

use std::collections::HashSet;

use vstd::prelude::*;

use super::generation::{CharacterState, Emission, Output};
use crate::domain::task::{Task, TaskRecord};
use crate::text::{decimal, join, push_decimal};

verus! {

broadcast use vstd::std_specs::hash::group_hash_axioms;

/// Most task titles named in one alert.
pub const ALERT_MAX_TITLES: usize = 5;

/// Title of the notification that goes with an alert.
pub const ALERT_SUMMARY: &'static str = "Kensho — Lembrete";

/// The tasks of a sequence, as values.
pub open spec fn records(v: Seq<Task>) -> Seq<TaskRecord> {
    v.map_values(|t: Task| t@)
}

/// The ids of a sequence of tasks.
pub open spec fn ids_of(v: Seq<TaskRecord>) -> Set<u128> {
    v.map_values(|t: TaskRecord| t.id).to_set()
}

/// The tasks the user has not been alerted to yet, in order.
pub open spec fn fresh_of(due: Seq<TaskRecord>, nudged: Set<u128>) -> Seq<TaskRecord> {
    due.filter(|t: TaskRecord| !nudged.contains(t.id))
}

/// The titles named in an alert: those of the first tasks.
pub open spec fn alert_titles(fresh: Seq<TaskRecord>) -> Seq<Seq<char>> {
    let titles = fresh.map_values(|t: TaskRecord| t.title);
    if titles.len() <= ALERT_MAX_TITLES {
        titles
    } else {
        titles.take(ALERT_MAX_TITLES as int)
    }
}

/// The text of an alert.
pub open spec fn alert_body(fresh: Seq<TaskRecord>) -> Seq<char> {
    decimal(fresh.len()) + " tarefa(s) vencendo hoje: "@ + join(alert_titles(fresh), "; "@)
}

/// What a tick learns about deadlines.
#[derive(Debug)]
pub enum Due {
    /// The user has paused alerts.
    Paused,
    /// The tasks could not be read.
    Failed,
    /// The open tasks that are due.
    Tasks(Vec<Task>),
}

/// What a tick does.
#[derive(Debug)]
pub enum TickStep {
    /// Nothing.
    Quiet,
    /// Notify the user with `body`, put out `look`, and remind them of `fresh`.
    Alert { fresh: Vec<Task>, body: String, look: Output },
}

/// The due tasks a tick learns of.
pub open spec fn due_records(due: Due) -> Seq<TaskRecord> {
    match due {
        Due::Tasks(tasks) => records(tasks@),
        _ => Seq::empty(),
    }
}

/// The tasks the user has been alerted to.
pub struct Nudged {
    ids: HashSet<u128>,
}

impl View for Nudged {
    type V = Set<u128>;

    closed spec fn view(&self) -> Set<u128> {
        self.ids@
    }
}

impl Nudged {
    pub fn new() -> (r: Self)
        ensures
            r@ == Set::<u128>::empty(),
    {
        Nudged { ids: HashSet::new() }
    }

    /// Proactive tick: find the due tasks the user has not been alerted to, and
    /// alert them, once for each.
    pub fn heartbeat(&mut self, due: Due) -> (r: TickStep)
        ensures
            final(self)@ == old(self)@ + ids_of(due_records(due)),
            ({
                let expected = fresh_of(due_records(due), old(self)@);
                match r {
                    TickStep::Quiet => expected.len() == 0,
                    TickStep::Alert { fresh, body, look } => {
                        &&& expected.len() > 0
                        &&& records(fresh@) == expected
                        &&& body@ == alert_body(expected)
                        &&& look@ == Emission::State(CharacterState::Alert)
                    },
                }
            }),
    {
        let ghost nudged = self@;
        let ghost p = |t: TaskRecord| !nudged.contains(t.id);
        let tasks: Vec<Task> = match due {
            Due::Tasks(tasks) => tasks,
            _ => Vec::new(),
        };
        let ghost all = records(tasks@);
        assert(all =~= due_records(due));
        let mut fresh: Vec<Task> = Vec::new();
        assert(records(fresh@) =~= Seq::<TaskRecord>::empty());
        assert(all.take(0).filter(p) =~= Seq::<TaskRecord>::empty()) by {
            reveal(Seq::filter);
        }
        let mut i: usize = 0;
        while i < tasks.len()
            invariant
                i <= tasks.len(),
                all == records(tasks@),
                p == (|t: TaskRecord| !nudged.contains(t.id)),
                self@ == nudged,
                records(fresh@) == all.take(i as int).filter(p),
            decreases tasks.len() - i,
        {
            let keep = !self.ids.contains(&tasks[i].id.value);
            proof {
                reveal(Seq::filter);
                assert(all.take(i + 1).drop_last() =~= all.take(i as int));
                assert(all.take(i + 1).last() == tasks@[i as int]@);
                assert(p(tasks@[i as int]@) == keep);
            }
            if keep {
                let task = tasks[i].clone();
                assert(records(fresh@.push(task)) =~= records(fresh@).push(task@));
                fresh.push(task);
            }
            i += 1;
        }
        assert(all.take(i as int) =~= all);

        let mut k: usize = 0;
        assert(nudged + ids_of(all.take(0)) =~= nudged);
        while k < tasks.len()
            invariant
                k <= tasks.len(),
                all == records(tasks@),
                self@ == nudged + ids_of(all.take(k as int)),
            decreases tasks.len() - k,
        {
            let id = tasks[k].id.value;
            self.ids.insert(id);
            proof {
                lemma_ids_push(all.take(k as int), tasks@[k as int]@);
                assert(all.take(k + 1) =~= all.take(k as int).push(tasks@[k as int]@));
                assert(self@ =~= nudged + ids_of(all.take(k + 1)));
            }
            k += 1;
        }
        assert(all.take(k as int) =~= all);

        if fresh.len() == 0 {
            return TickStep::Quiet;
        }
        let body = alert_text(&fresh);
        TickStep::Alert { fresh, body, look: Output::State(CharacterState::Alert) }
    }
}

proof fn lemma_ids_push(v: Seq<TaskRecord>, t: TaskRecord)
    ensures
        ids_of(v.push(t)) == ids_of(v).insert(t.id),
{
    let f = |t: TaskRecord| t.id;
    let a = v.map_values(f);
    let b = v.push(t).map_values(f);
    assert(b =~= a.push(t.id));
    assert forall|x: u128| ids_of(v.push(t)).contains(x) == ids_of(v).insert(t.id).contains(x) by {
        if b.contains(x) {
            let i = choose|i: int| 0 <= i < b.len() && b[i] == x;
            if i < a.len() {
                assert(a[i] == x);
            }
        }
        if a.contains(x) {
            let i = choose|i: int| 0 <= i < a.len() && a[i] == x;
            assert(b[i] == x);
        }
        if x == t.id {
            assert(b[a.len() as int] == x);
        }
    }
    assert(ids_of(v.push(t)) =~= ids_of(v).insert(t.id));
}

/// The text of an alert to the tasks `fresh`.
fn alert_text(fresh: &Vec<Task>) -> (r: String)
    ensures
        r@ == alert_body(records(fresh@)),
{
    let ghost all = records(fresh@);
    let ghost titles = all.map_values(|t: TaskRecord| t.title);
    let mut out = String::new();
    push_decimal(&mut out, fresh.len() as u64);
    out.append(" tarefa(s) vencendo hoje: ");
    let ghost head = out@;
    let n: usize = if fresh.len() < ALERT_MAX_TITLES {
        fresh.len()
    } else {
        ALERT_MAX_TITLES
    };
    let mut i: usize = 0;
    while i < n
        invariant
            i <= n <= fresh.len(),
            all == records(fresh@),
            titles == all.map_values(|t: TaskRecord| t.title),
            out@ == head + join(titles.take(i as int), "; "@),
        decreases n - i,
    {
        proof {
            assert(titles.take(i + 1).drop_last() =~= titles.take(i as int));
            assert(titles.take(i + 1).last() == fresh@[i as int].title@);
        }
        if i > 0 {
            out.append("; ");
        }
        out.append(fresh[i].title.as_str());
        assert(out@ =~= head + join(titles.take(i + 1), "; "@));
        i += 1;
    }
    assert(titles.take(n as int) =~= alert_titles(all));
    assert(head =~= decimal(all.len()) + " tarefa(s) vencendo hoje: "@);
    out
}

/// No task is alerted to twice: whatever a later tick learns, a task that was due
/// at an earlier one is not fresh again.
pub proof fn law_no_second_nudge(
    nudged: Set<u128>,
    earlier: Seq<TaskRecord>,
    between: Set<u128>,
    later: Seq<TaskRecord>,
    i: int,
)
    requires
        (nudged + ids_of(earlier)).subset_of(between),
        0 <= i < fresh_of(later, between).len(),
    ensures
        !ids_of(earlier).contains(fresh_of(later, between)[i].id),
{
    let p = |t: TaskRecord| !between.contains(t.id);
    let fresh = later.filter(p);
    later.lemma_filter_pred(p, i);
    assert(p(fresh[i]));
}

/// Every due task that the user has not been alerted to is in the alert, whatever
/// else is known of it; so a tick that learns of one is not quiet.
pub proof fn law_no_deadline_is_missed(due: Seq<TaskRecord>, nudged: Set<u128>, i: int)
    requires
        0 <= i < due.len(),
        !nudged.contains(due[i].id),
    ensures
        fresh_of(due, nudged).contains(due[i]),
        fresh_of(due, nudged).len() > 0,
{
    let p = |t: TaskRecord| !nudged.contains(t.id);
    due.lemma_filter_contains_rev(p, due[i]);
}

/// The tasks of an alert are the due ones that the user has not been alerted to, each
/// as often as it is due and in the order in which they are due.
pub proof fn law_alert_keeps_order(due: Seq<TaskRecord>, t: TaskRecord, nudged: Set<u128>)
    ensures
        fresh_of(Seq::empty(), nudged).len() == 0,
        fresh_of(due.push(t), nudged) == if nudged.contains(t.id) {
            fresh_of(due, nudged)
        } else {
            fresh_of(due, nudged).push(t)
        },
{
    reveal(Seq::filter);
    assert(due.push(t).drop_last() =~= due);
}

/// Exactly the tasks of a tick count as alerted to after it.
pub proof fn law_ids_are_those_of_the_tasks(tasks: Seq<TaskRecord>, id: u128)
    ensures
        ids_of(tasks).contains(id) <==> exists|i: int|
            0 <= i < tasks.len() && (#[trigger] tasks[i]).id == id,
{
    let ids = tasks.map_values(|t: TaskRecord| t.id);
    if ids_of(tasks).contains(id) {
        let i = choose|i: int| 0 <= i < ids.len() && ids[i] == id;
        assert(tasks[i].id == id);
    }
    if exists|i: int| 0 <= i < tasks.len() && (#[trigger] tasks[i]).id == id {
        let i = choose|i: int| 0 <= i < tasks.len() && (#[trigger] tasks[i]).id == id;
        assert(ids[i] == id);
    }
}

/// An alert says how many tasks are due, and names the first five of them, or all if
/// they are fewer, each by its whole title.
pub proof fn law_alert_names_the_first_five(fresh: Seq<TaskRecord>)
    ensures
        alert_titles(fresh).len() == if fresh.len() < 5 {
            fresh.len()
        } else {
            5
        },
        forall|i: int|
            0 <= i < alert_titles(fresh).len() ==> #[trigger] alert_titles(fresh)[i]
                == fresh[i].title,
        alert_body(fresh) == decimal(fresh.len()) + " tarefa(s) vencendo hoje: "@ + join(
            alert_titles(fresh),
            "; "@,
        ),
{
}

/// A tick learns of the tasks that were read, all of them and in order, and of none
/// where alerts are paused or the tasks could not be read.
pub proof fn law_due_tasks_are_those_read(tasks: Vec<Task>)
    ensures
        due_records(Due::Paused).len() == 0,
        due_records(Due::Failed).len() == 0,
        due_records(Due::Tasks(tasks)).len() == tasks@.len(),
        forall|i: int|
            0 <= i < tasks@.len() ==> #[trigger] due_records(Due::Tasks(tasks))[i] == tasks@[i]@,
        records(tasks@) == due_records(Due::Tasks(tasks)),
{
}

} // verus!
