//! Tool calling.
//!
//! Small local models struggle with strict JSON, so Kensho uses a robust tag
//! protocol the model emits inline in its stream:
//!
//!   `<CALL:ADD_TASK>Título da tarefa|2026-06-20</CALL>`
//!
//! The stream filter extracts the body between `<CALL:` and `</CALL>` and hands
//! it here. The date segment (after `|`) is optional.

use vstd::prelude::*;
use vstd::utf8::is_ascii_chars;

use crate::domain::ids::{is_v4, TaskId};
use crate::domain::task::{new_task, Task, TaskPriority, TaskRecord, TaskStatus};
use crate::domain::time::{date_days, parse_date, Timestamp};
use crate::error::{AppError, AppResult};
use crate::text::{
    chars_of, find, find_from, is_white, law_trim, lemma_find, lemma_find_is, same, starts_with,
    string_of, trim, trim_range,
};

verus! {

/// The upper-case form of a text, by the Unicode rules of the standard library.
pub uninterp spec fn uppercase(s: Seq<char>) -> Seq<char>;

/// The upper-case form of a text of ASCII characters.
pub open spec fn ascii_uppercase(s: Seq<char>) -> Seq<char> {
    s.map_values(
        |c: char|
            if 'a' <= c <= 'z' {
                (c as u32 - 32) as char
            } else {
                c
            },
    )
}

/// `str::to_uppercase`: a function of the text alone, which on ASCII text turns
/// each lower-case letter into its upper-case one.
pub assume_specification[ str::to_uppercase ](s: &str) -> (r: String)
    ensures
        r@ == uppercase(s@),
        is_ascii_chars(s@) ==> r@ == ascii_uppercase(s@),
;

/// A parsed tool invocation: a command name plus its raw argument string.
#[derive(Debug)]
pub struct ToolCall {
    pub name: String,
    pub raw_args: String,
}

/// A tool invocation as a value.
pub struct Call {
    pub name: Seq<char>,
    pub raw_args: Seq<char>,
}

impl View for ToolCall {
    type V = Call;

    open spec fn view(&self) -> Call {
        Call { name: self.name@, raw_args: self.raw_args@ }
    }
}

/// `s` cut at the first `c`: what stands before it and what stands after it.
pub open spec fn split_once(s: Seq<char>, c: char) -> (Seq<char>, Option<Seq<char>>) {
    match find(s, seq![c]) {
        Some(i) => (s.take(i), Some(s.skip(i + 1))),
        None => (s, None),
    }
}

/// The invocation that a captured body stands for.
pub open spec fn call_of(body: Seq<char>) -> Call {
    let cut = split_once(body, '>');
    Call {
        name: uppercase(trim(cut.0)),
        raw_args: match cut.1 {
            Some(args) => args,
            None => Seq::empty(),
        },
    }
}

/// Position of the first `c` in `v`, if there is one.
fn position(v: &Vec<char>, c: char) -> (r: Option<usize>)
    ensures
        match r {
            Some(i) => i < v.len() && find(v@, seq![c]) == Some(i as int),
            None => find(v@, seq![c]) is None,
        },
{
    let mut pat: Vec<char> = Vec::new();
    pat.push(c);
    assert(pat@ =~= seq![c]);
    assert(v@.skip(0) =~= v@);
    find_from(v, 0, &pat)
}

impl ToolCall {
    /// Parse the captured body, e.g. `ADD_TASK>Comprar pão|2026-06-20`.
    /// The command name is everything up to the first `>`.
    pub fn parse(body: &str) -> (r: Self)
        ensures
            r@ == call_of(body@),
            is_ascii_chars(trim(split_once(body@, '>').0)) ==> r.name@ == ascii_uppercase(
                trim(split_once(body@, '>').0),
            ),
    {
        let v = chars_of(body);
        match position(&v, '>') {
            Some(idx) => {
                assert(v@.subrange(0, idx as int) =~= body@.take(idx as int));
                assert(v@.subrange(idx + 1, v@.len() as int) =~= body@.skip(idx + 1));
                ToolCall {
                    name: trim_range(&v, 0, idx).as_str().to_uppercase(),
                    raw_args: string_of(&v, idx + 1, v.len()),
                }
            },
            None => {
                assert(v@.subrange(0, v@.len() as int) =~= body@);
                ToolCall {
                    name: trim_range(&v, 0, v.len()).as_str().to_uppercase(),
                    raw_args: String::new(),
                }
            },
        }
    }
}

/// What a tool has to say: a short summary for the user, and context for the
/// model where another cycle should follow.
#[derive(Debug)]
pub struct ToolOutcome {
    pub summary: String,
    pub follow_up: Option<String>,
}

/// What is to be done for a tool call.
#[derive(Debug)]
pub enum ToolStep {
    /// Nothing but to answer.
    Reply(String),
    /// Store `task`; if that succeeds, show a notification and answer `summary`.
    Store { task: Task, notice: String, summary: String },
}

/// A step as a value.
pub enum Step {
    Reply(Seq<char>),
    Store { task: TaskRecord, notice: Seq<char>, summary: Seq<char> },
}

impl View for ToolStep {
    type V = Step;

    open spec fn view(&self) -> Step {
        match self {
            ToolStep::Reply(s) => Step::Reply(s@),
            ToolStep::Store { task, notice, summary } => Step::Store {
                task: task@,
                notice: notice@,
                summary: summary@,
            },
        }
    }
}

/// The title in the arguments of `ADD_TASK`.
pub open spec fn task_title(args: Seq<char>) -> Seq<char> {
    trim(split_once(args, '|').0)
}

/// The date in the arguments of `ADD_TASK`, if one is given.
pub open spec fn task_date(args: Seq<char>) -> Option<Seq<char>> {
    match split_once(args, '|').1 {
        Some(rest) if trim(rest).len() > 0 => Some(trim(rest)),
        _ => None,
    }
}

/// Whether `due` is what a date stands for: nine in the morning (UTC) of the day,
/// or nothing where no date is given or it cannot be read.
pub open spec fn due_on(date: Option<Seq<char>>, due: Option<Timestamp>) -> bool {
    match date {
        Some(d) => match date_days(d, "%Y-%m-%d"@) {
            Some(days) => due matches Some(t) && t.secs() == days * 86400 + 9 * 3600 && t.nanos()
                == 0 && t.wf(),
            None => due is None,
        },
        None => due is None,
    }
}

/// Whether `step` is what `ADD_TASK` does for a task with id `id` created at
/// `now`: it stores the task and says so, unless there is no title.
pub open spec fn adds_task(step: Step, args: Seq<char>, id: u128, now: Timestamp) -> bool {
    let title = task_title(args);
    if title.len() == 0 {
        step == Step::Reply("Tarefa sem título — ignorada."@)
    } else {
        &&& step matches Step::Store { task, notice, summary }
        &&& due_on(task_date(args), task.due_at)
        &&& task == (TaskRecord { due_at: task.due_at, ..new_task(id, title, now) })
        &&& notice == "Tarefa adicionada: "@ + title
        &&& summary == "Tarefa \""@ + title + "\" adicionada."@
    }
}

/// Whether `step` is what `call` does, for a task with id `id` created at `now`.
pub open spec fn performs(step: Step, call: Call, id: u128, now: Timestamp) -> bool {
    if call.name == "ADD_TASK"@ {
        adds_task(step, call.raw_args, id, now)
    } else {
        step == Step::Reply("Comando desconhecido: "@ + call.name)
    }
}

/// Executes tool calls: decides what each call does.
pub struct ToolExecutor;

impl ToolExecutor {
    /// Decide what a parsed call does; a task it stores has a fresh id and is
    /// created now.
    pub fn execute(call: ToolCall) -> (r: ToolStep)
        ensures
            match r@ {
                Step::Store { task, .. } => performs(r@, call@, task.id, task.created_at) && is_v4(
                    task.id,
                ) && task.created_at.wf(),
                Step::Reply(_) => forall|id: u128, now: Timestamp| #[trigger]
                    performs(r@, call@, id, now),
            },
    {
        let id = TaskId::new();
        let now = Timestamp::now();
        let r = ToolExecutor::execute_at(call, id, now);
        assert(performs(r@, call@, id.value, now));
        r
    }

    /// Decide what a parsed call does, for a task with the given id created at
    /// `now`.
    pub fn execute_at(call: ToolCall, id: TaskId, now: Timestamp) -> (r: ToolStep)
        ensures
            performs(r@, call@, id.value, now),
    {
        if same(call.name.as_str(), "ADD_TASK") {
            ToolExecutor::add_task(call.raw_args.as_str(), id, now)
        } else {
            ToolStep::Reply("Comando desconhecido: ".to_string().concat(call.name.as_str()))
        }
    }

    fn add_task(args: &str, id: TaskId, now: Timestamp) -> (r: ToolStep)
        ensures
            adds_task(r@, args@, id.value, now),
    {
        let v = chars_of(args);
        let cut: usize = match position(&v, '|') {
            Some(i) => i,
            None => v.len(),
        };
        assert(v@.subrange(0, cut as int) =~= split_once(args@, '|').0);
        let title = trim_range(&v, 0, cut);
        if title.as_str().is_empty() {
            return ToolStep::Reply("Tarefa sem título — ignorada.".to_string());
        }
        let notice = "Tarefa adicionada: ".to_string().concat(title.as_str());
        let summary = "Tarefa \"".to_string().concat(title.as_str()).concat("\" adicionada.");
        let mut task = Task::created(id, title, now);
        task.due_at = due_date(args);
        ToolStep::Store { task, notice, summary }
    }
}

/// The due date in the arguments of `ADD_TASK`: nine in the morning (UTC) of the
/// day given after `|`, if it can be read.
pub fn due_date(args: &str) -> (r: Option<Timestamp>)
    ensures
        due_on(task_date(args@), r),
{
    let v = chars_of(args);
    match position(&v, '|') {
        Some(i) => {
            assert(v@.subrange(i + 1, v@.len() as int) =~= args@.skip(i + 1));
            let date = trim_range(&v, i + 1, v.len());
            if date.as_str().is_empty() {
                return None;
            }
            match parse_date(date.as_str(), "%Y-%m-%d") {
                Some(days) => Timestamp::on_day(days, 9, 0, 0),
                None => None,
            }
        },
        None => None,
    }
}

/// How storing a task went.
#[derive(Debug)]
pub enum Stored {
    /// The write was carried out, with this result.
    Written(AppResult<()>),
    /// The thread that should have written died.
    Lost(String),
}

/// The answer of a tool that stored a task: its summary, or the reason why the
/// task could not be stored.
pub fn after_store(summary: String, stored: Stored) -> (r: AppResult<ToolOutcome>)
    ensures
        match stored {
            Stored::Written(Ok(_)) => r matches Ok(o) && o.summary == summary && o.follow_up is None,
            Stored::Written(Err(e)) => r == Err::<ToolOutcome, AppError>(e),
            Stored::Lost(why) => r matches Err(e) && e is Other && e.says() == "join error: "@
                + why@,
        },
{
    match stored {
        Stored::Written(Ok(_)) => Ok(ToolOutcome { summary, follow_up: None }),
        Stored::Written(Err(e)) => Err(e),
        Stored::Lost(why) => Err(
            AppError::Other("join error: ".to_string().concat(why.as_str())),
        ),
    }
}

/// A call written as name, `>` and arguments is read back as such: the name is
/// trimmed and upper-cased, the arguments are kept as they are.
pub proof fn law_call_is_read_back(name: Seq<char>, args: Seq<char>)
    requires
        find(name, seq!['>']) is None,
    ensures
        call_of(name + seq!['>'] + args) == (Call { name: uppercase(trim(name)), raw_args: args }),
{
    let body = name + seq!['>'] + args;
    let pat = seq!['>'];
    lemma_find(name, pat);
    assert forall|j: int| 0 <= j < name.len() implies !starts_with(#[trigger] body.skip(j), pat) by {
        assert(!starts_with(name.skip(j), pat));
        assert(body.skip(j).take(1) =~= name.skip(j).take(1));
    }
    assert(body.skip(name.len() as int).take(1) =~= pat);
    lemma_find_is(body, pat, name.len() as int);
    assert(body.take(name.len() as int) =~= name);
    assert(body.skip(name.len() as int + 1) =~= args);
}

/// A call without `>` is all name, and has no arguments.
pub proof fn law_call_without_arguments(name: Seq<char>)
    requires
        forall|i: int| 0 <= i < name.len() ==> #[trigger] name[i] != '>',
    ensures
        call_of(name) == (Call { name: uppercase(trim(name)), raw_args: Seq::empty() }),
{
    lemma_char_not_found(name, '>');
}

proof fn lemma_char_not_found(s: Seq<char>, c: char)
    requires
        forall|i: int| 0 <= i < s.len() ==> #[trigger] s[i] != c,
    ensures
        find(s, seq![c]) is None,
{
    lemma_find(s, seq![c]);
    match find(s, seq![c]) {
        Some(i) => {
            assert(s.skip(i).take(1)[0] == s[i]);
        },
        None => {},
    }
}

/// A text is cut at the first `c`.
proof fn lemma_cut_at_first(s: Seq<char>, c: char, rest: Seq<char>)
    requires
        forall|i: int| 0 <= i < s.len() ==> #[trigger] s[i] != c,
    ensures
        split_once(s.push(c) + rest, c) == (s, Some(rest)),
        split_once(s, c) == (s, None::<Seq<char>>),
{
    let whole = s.push(c) + rest;
    let pat = seq![c];
    lemma_char_not_found(s, c);
    assert forall|j: int| 0 <= j < s.len() implies !starts_with(#[trigger] whole.skip(j), pat) by {
        assert(whole.skip(j).take(1)[0] == s[j]);
    }
    assert(whole.skip(s.len() as int).take(1) =~= pat);
    lemma_find_is(whole, pat, s.len() as int);
    assert(whole.take(s.len() as int) =~= s);
    assert(whole.skip(s.len() as int + 1) =~= rest);
}

/// Whether `title` is a title as it is stored: not empty, without `|`, and without
/// whitespace at either end.
pub open spec fn is_title(title: Seq<char>) -> bool {
    &&& title.len() > 0
    &&& !is_white(title[0])
    &&& !is_white(title.last())
    &&& forall|i: int| 0 <= i < title.len() ==> #[trigger] title[i] != '|'
}

/// The title that `ADD_TASK` is given is the title of the task: all of it, whatever
/// whitespace stands around it, and whether or not a date follows.
pub proof fn law_title_is_read_back(
    before: Seq<char>,
    title: Seq<char>,
    after: Seq<char>,
    date: Seq<char>,
)
    requires
        is_title(title),
        forall|i: int| 0 <= i < before.len() ==> is_white(#[trigger] before[i]),
        forall|i: int| 0 <= i < after.len() ==> is_white(#[trigger] after[i]),
    ensures
        task_title(before + title + after) == title,
        task_title((before + title + after).push('|') + date) == title,
{
    let part = before + title + after;
    lemma_no_bar(before, title, after);
    lemma_cut_at_first(part, '|', date);
    law_trim(before, title, after);
}

proof fn lemma_no_bar(before: Seq<char>, title: Seq<char>, after: Seq<char>)
    requires
        is_title(title),
        forall|i: int| 0 <= i < before.len() ==> is_white(#[trigger] before[i]),
        forall|i: int| 0 <= i < after.len() ==> is_white(#[trigger] after[i]),
    ensures
        forall|i: int|
            0 <= i < (before + title + after).len() ==> #[trigger] (before + title + after)[i]
                != '|',
{
    let part = before + title + after;
    assert forall|i: int| 0 <= i < part.len() implies #[trigger] part[i] != '|' by {
        if i < before.len() {
            assert(part[i] == before[i]);
        } else if i < before.len() + title.len() {
            assert(part[i] == title[i - before.len()]);
        } else {
            assert(part[i] == after[i - before.len() - title.len()]);
        }
    }
}

/// `ADD_TASK` stores a new task: pending, of normal priority, without description,
/// with the whole title that it was given, and says so with the whole title. Without a
/// date the task is not due.
pub proof fn law_task_is_stored_under_its_title(
    step: Step,
    title: Seq<char>,
    id: u128,
    now: Timestamp,
)
    requires
        is_title(title),
        performs(step, Call { name: "ADD_TASK"@, raw_args: title }, id, now),
    ensures
        step matches Step::Store { task, notice, summary } && {
            &&& task.title == title
            &&& task.id == id
            &&& task.description is None
            &&& task.status == TaskStatus::Pending
            &&& task.priority == TaskPriority::Normal
            &&& task.due_at is None
            &&& task.created_at == now
            &&& task.updated_at == now
            &&& notice == "Tarefa adicionada: "@ + title
            &&& summary == "Tarefa \""@ + title + "\" adicionada."@
        },
{
    let none = Seq::<char>::empty();
    law_title_is_read_back(none, title, none, none);
    lemma_cut_at_first(title, '|', none);
    assert(none + title + none =~= title);
}

/// With a date, `ADD_TASK` stores the same task, due at nine in the morning (UTC) of
/// the day that is read in the date, whatever whitespace stands around it; where no
/// day can be read, the task is stored without a due date.
pub proof fn law_task_is_due_on_its_date(
    step: Step,
    title: Seq<char>,
    before: Seq<char>,
    date: Seq<char>,
    after: Seq<char>,
    id: u128,
    now: Timestamp,
)
    requires
        is_title(title),
        date.len() > 0,
        !is_white(date[0]),
        !is_white(date.last()),
        forall|i: int| 0 <= i < before.len() ==> is_white(#[trigger] before[i]),
        forall|i: int| 0 <= i < after.len() ==> is_white(#[trigger] after[i]),
        performs(
            step,
            Call { name: "ADD_TASK"@, raw_args: title.push('|') + (before + date + after) },
            id,
            now,
        ),
    ensures
        step matches Step::Store { task, notice, summary } && {
            &&& task.title == title
            &&& task.id == id
            &&& task.description is None
            &&& task.status == TaskStatus::Pending
            &&& task.priority == TaskPriority::Normal
            &&& task.created_at == now
            &&& task.updated_at == now
            &&& notice == "Tarefa adicionada: "@ + title
            &&& summary == "Tarefa \""@ + title + "\" adicionada."@
            &&& match date_days(date, "%Y-%m-%d"@) {
                Some(days) => task.due_at matches Some(at) && at.secs() == days * 86400 + 32400
                    && at.nanos() == 0,
                None => task.due_at is None,
            }
        },
{
    let none = Seq::<char>::empty();
    let rest = before + date + after;
    law_title_is_read_back(none, title, none, rest);
    lemma_cut_at_first(title, '|', rest);
    law_trim(before, date, after);
    assert(none + title + none =~= title);
}

/// A date that is blank is no date.
pub proof fn law_blank_date_is_no_date(
    step: Step,
    title: Seq<char>,
    date: Seq<char>,
    id: u128,
    now: Timestamp,
)
    requires
        is_title(title),
        forall|i: int| 0 <= i < date.len() ==> is_white(#[trigger] date[i]),
        performs(step, Call { name: "ADD_TASK"@, raw_args: title.push('|') + date }, id, now),
    ensures
        step matches Step::Store { task, .. } && task.title == title && task.due_at is None,
{
    let none = Seq::<char>::empty();
    law_title_is_read_back(none, title, none, date);
    lemma_cut_at_first(title, '|', date);
    law_trim(date, none, none);
    assert(date + none + none =~= date);
    assert(none + title + none =~= title);
}

/// Without a title nothing is stored, whatever date follows; nor is anything for
/// another command, which is named in the answer.
pub proof fn law_nothing_else_is_stored(
    step: Step,
    other: Step,
    blank_title: Seq<char>,
    date: Seq<char>,
    call: Call,
    id: u128,
    now: Timestamp,
)
    requires
        forall|i: int| 0 <= i < blank_title.len() ==> is_white(#[trigger] blank_title[i]),
        performs(
            step,
            Call { name: "ADD_TASK"@, raw_args: blank_title.push('|') + date },
            id,
            now,
        ),
        call.name != "ADD_TASK"@,
        performs(other, call, id, now),
    ensures
        step == Step::Reply("Tarefa sem título — ignorada."@),
        other == Step::Reply("Comando desconhecido: "@ + call.name),
{
    let none = Seq::<char>::empty();
    lemma_cut_at_first(blank_title, '|', date);
    law_trim(blank_title, none, none);
    assert(blank_title + none + none =~= blank_title);
}

/// A call and a step as values hold all that they are made of.
pub proof fn law_step_is_the_content(
    call: ToolCall,
    reply: String,
    task: Task,
    notice: String,
    summary: String,
)
    ensures
        call@.name == call.name@,
        call@.raw_args == call.raw_args@,
        ToolStep::Reply(reply)@ == Step::Reply(reply@),
        (ToolStep::Store { task, notice, summary })@ == (Step::Store {
            task: task@,
            notice: notice@,
            summary: summary@,
        }),
{
}

/// A due date is nine in the morning (UTC) of the day that is read in what stands
/// behind the first `|`, without the whitespace around it; there is none without such a
/// text, or where no day can be read in it.
pub proof fn law_due_date_is_read_back(
    title: Seq<char>,
    before: Seq<char>,
    date: Seq<char>,
    after: Seq<char>,
    due: Option<Timestamp>,
)
    requires
        forall|i: int| 0 <= i < title.len() ==> #[trigger] title[i] != '|',
        date.len() > 0 ==> !is_white(date[0]) && !is_white(date.last()),
        forall|i: int| 0 <= i < before.len() ==> is_white(#[trigger] before[i]),
        forall|i: int| 0 <= i < after.len() ==> is_white(#[trigger] after[i]),
    ensures
        due_on(task_date(title), due) ==> due is None,
        due_on(task_date(title.push('|') + (before + date + after)), due) ==> {
            &&& date.len() == 0 ==> due is None
            &&& date.len() > 0 ==> match date_days(date, "%Y-%m-%d"@) {
                Some(days) => due matches Some(at) && at.secs() == days * 86400 + 32400
                    && at.nanos() == 0,
                None => due is None,
            }
        },
{
    lemma_cut_at_first(title, '|', before + date + after);
    law_trim(before, date, after);
}

} // verus!
