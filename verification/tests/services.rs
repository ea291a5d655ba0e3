use kensho::domain::{TaskId, TaskPriority, TaskStatus, Timestamp, UserProfile};
use kensho::error::AppError;
use kensho::services::approval::{request_id, AlwaysApprove, AlwaysDeny, PendingApprovals};
use kensho::services::assistant::AssistantService;
use kensho::services::clipboard::{snapshot, ClipboardContext, CLIPBOARD_MAX_CHARS};
use kensho::services::conversation::{to_chatml, ChatMessage, History, Role};
use kensho::services::tools::{
    after_store, due_date, Stored, ToolCall, ToolExecutor, ToolStep,
};

// -- conversation --------------------------------------------------------------

#[test]
fn window_trims_to_max_turns() {
    let mut h = History::new(2);
    for i in 0..5 {
        h.push_user(format!("u{i}"));
        h.push_assistant(format!("a{i}"));
    }
    assert_eq!(h.len(), 4);
    let contents: Vec<&str> = h.iter().map(|m| m.content.as_str()).collect();
    assert_eq!(contents, vec!["u3", "a3", "u4", "a4"]);
}

#[test]
fn chatml_has_strict_structure_and_open_assistant() {
    let mut h = History::new(6);
    h.push_user("Olá".to_string());
    let prompt = to_chatml("Você é Kensho.", &h);
    assert!(prompt.starts_with("<|im_start|>system\nVocê é Kensho.<|im_end|>\n"));
    assert!(prompt.contains("<|im_start|>user\nOlá<|im_end|>\n"));
    assert!(prompt.ends_with("<|im_start|>assistant\n"));
    assert!(!prompt.trim_end().ends_with("<|im_end|>"));
}

#[test]
fn a_prompt_is_its_turns_in_order() {
    let mut h = History::new(6);
    assert!(h.is_empty());
    assert_eq!(
        to_chatml("S", &h),
        "<|im_start|>system\nS<|im_end|>\n<|im_start|>assistant\n"
    );
    h.push_user("oi".to_string());
    h.push_assistant("olá".to_string());
    assert_eq!(
        to_chatml("S", &h),
        "<|im_start|>system\nS<|im_end|>\n<|im_start|>user\noi<|im_end|>\n\
         <|im_start|>assistant\nolá<|im_end|>\n<|im_start|>assistant\n"
    );
}

#[test]
fn blank_messages_leave_no_trace() {
    let mut h = History::new(1);
    h.push_user(" \n\u{3000}".to_string());
    h.push_assistant(String::new());
    assert!(h.is_empty());
    h.push_user(" x ".to_string());
    assert_eq!(h.iter().next().unwrap().content, " x ");
}

#[test]
fn a_history_of_no_turns_holds_nothing() {
    let mut h = History::new(0);
    h.push_user("x".to_string());
    assert_eq!(h.len(), 0);
}

#[test]
fn roles_have_their_tags() {
    assert_eq!(Role::System.tag(), "system");
    assert_eq!(Role::User.tag(), "user");
    assert_eq!(Role::Assistant.tag(), "assistant");
    let m = ChatMessage::new(Role::User, "x".to_string()).clone();
    assert_eq!((m.role, m.content.as_str()), (Role::User, "x"));
}

// -- tools ---------------------------------------------------------------------

#[test]
fn parses_command_and_args() {
    let c = ToolCall::parse("ADD_TASK>Comprar pão|2026-06-20");
    assert_eq!(c.name, "ADD_TASK");
    assert_eq!(c.raw_args, "Comprar pão|2026-06-20");
}

#[test]
fn a_command_is_trimmed_and_upper_cased() {
    let c = ToolCall::parse("  add_task > a > b ");
    assert_eq!(c.name, "ADD_TASK");
    assert_eq!(c.raw_args, " a > b ");
    let d = ToolCall::parse(" ação ß");
    assert_eq!(d.name, "AÇÃO SS");
    assert_eq!(d.raw_args, "");
}

/// The step for `body`, for the task of id 7 created at the epoch.
fn step(body: &str) -> ToolStep {
    let now = Timestamp::new(0, 0).unwrap();
    ToolExecutor::execute_at(ToolCall::parse(body), TaskId { value: 7 }, now)
}

#[test]
fn add_task_is_stored_with_its_date() {
    match step("ADD_TASK>Comprar pão|2026-06-20") {
        ToolStep::Store { task, notice, summary } => {
            assert_eq!(task.title, "Comprar pão");
            assert_eq!(task.id, TaskId { value: 7 });
            assert_eq!(task.status, TaskStatus::Pending);
            assert_eq!(task.priority, TaskPriority::Normal);
            assert_eq!(task.description, None);
            assert_eq!(task.due_at.unwrap().timestamp(), 1781946000);
            assert_eq!(task.due_at.unwrap().to_rfc3339(), "2026-06-20T09:00:00+00:00");
            assert_eq!(task.created_at, Timestamp::new(0, 0).unwrap());
            assert_eq!(notice, "Tarefa adicionada: Comprar pão");
            assert_eq!(summary, "Tarefa \"Comprar pão\" adicionada.");
        }
        ToolStep::Reply(_) => panic!("a task was to be stored"),
    }
}

#[test]
fn a_date_that_cannot_be_read_is_no_date() {
    assert_eq!(due_date("x|2026-06-20").unwrap().timestamp(), 1781946000);
    assert_eq!(due_date("x| 2026-06-20 "), due_date("x|2026-06-20"));
    assert_eq!(due_date("x"), None);
    assert_eq!(due_date("x|"), None);
    assert_eq!(due_date("x|  "), None);
    assert_eq!(due_date("x|amanhã"), None);
    assert_eq!(due_date("x|2026-02-30"), None);
    assert_eq!(due_date("x|2026-06-20|y"), None);
    assert_eq!(due_date("x|1970-01-01").unwrap().timestamp(), 9 * 3600);
    assert_eq!(due_date("x|1969-12-31").unwrap().timestamp(), -15 * 3600);
}

#[test]
fn a_task_needs_a_title() {
    assert!(matches!(
        step("ADD_TASK>  |2026-06-20"),
        ToolStep::Reply(s) if s == "Tarefa sem título — ignorada."
    ));
}

#[test]
fn an_unknown_command_is_said_to_be_unknown() {
    assert!(matches!(
        step("dance>tango"),
        ToolStep::Reply(s) if s == "Comando desconhecido: DANCE"
    ));
    assert!(matches!(
        ToolExecutor::execute(ToolCall::parse("dance")),
        ToolStep::Reply(s) if s == "Comando desconhecido: DANCE"
    ));
}

#[test]
fn a_fresh_task_has_its_own_id_and_time() {
    let a = ToolExecutor::execute(ToolCall::parse("ADD_TASK>Um"));
    let b = ToolExecutor::execute(ToolCall::parse("ADD_TASK>Um"));
    match (a, b) {
        (ToolStep::Store { task: a, .. }, ToolStep::Store { task: b, .. }) => {
            assert_ne!(a.id, b.id);
            assert!(a.created_at.is_no_later(&b.created_at));
            assert!(a.created_at.timestamp() > 1_700_000_000);
            assert_eq!(a.due_at, None);
        }
        _ => panic!("tasks were to be stored"),
    }
}

#[test]
fn a_tool_answers_after_the_write() {
    let ok = after_store("feito".to_string(), Stored::Written(Ok(()))).unwrap();
    assert_eq!(ok.summary, "feito");
    assert_eq!(ok.follow_up, None);
    let failed = after_store(
        "feito".to_string(),
        Stored::Written(Err(AppError::Database("disk full".to_string()))),
    );
    assert_eq!(failed.unwrap_err().message(), "database error: disk full");
    let lost = after_store("feito".to_string(), Stored::Lost("panic".to_string()));
    assert_eq!(lost.unwrap_err().message(), "join error: panic");
}

// -- approvals -----------------------------------------------------------------

#[test]
fn pending_request_suspends_then_resolves() {
    let mut pending = PendingApprovals::new();
    let (tx, rx) = std::sync::mpsc::channel::<bool>();
    pending.register("cmd-1".to_string(), tx);
    assert_eq!(pending.pending_count(), 1);

    let waiter = pending.resolve("cmd-1");
    assert!(waiter.is_some());
    waiter.unwrap().send(true).expect("join");
    assert!(rx.recv().unwrap_or(false));
    assert_eq!(pending.pending_count(), 0);
}

#[test]
fn resolve_unknown_id_is_false() {
    let mut pending: PendingApprovals<u32> = PendingApprovals::new();
    assert!(!pending.resolve("missing").is_some());
}

#[test]
fn a_request_is_answered_once_and_alone() {
    let mut pending: PendingApprovals<u32> = PendingApprovals::new();
    pending.register("a".to_string(), 1);
    pending.register("b".to_string(), 2);
    pending.register("c".to_string(), 3);
    assert_eq!(pending.resolve("b"), Some(2));
    assert_eq!(pending.resolve("b"), None);
    assert_eq!(pending.pending_count(), 2);
    pending.register("a".to_string(), 4);
    assert_eq!(pending.pending_count(), 2);
    assert_eq!(pending.resolve("a"), Some(4));
    assert_eq!(pending.resolve("c"), Some(3));
}

#[test]
fn without_an_answer_a_request_is_denied() {
    let mut pending: PendingApprovals<u32> = PendingApprovals::new();
    pending.register("a".to_string(), 1);
    assert!(!pending.conclude("a", None));
    assert_eq!(pending.pending_count(), 0);
    pending.register("b".to_string(), 2);
    assert!(pending.conclude("b", Some(true)));
    assert!(!pending.conclude("b", Some(false)));
    assert_eq!(pending.pending_count(), 1);
}

#[test]
fn requests_have_fresh_ids() {
    let (a, b) = (request_id(), request_id());
    assert_ne!(a, b);
    assert_eq!(a.len(), 36);
    assert_eq!(uuid::Uuid::parse_str(&a).unwrap().get_version_num(), 4);
}

#[test]
fn fixed_gates_answer_alike() {
    assert!(AlwaysApprove.request("rm -rf /tmp/x"));
    assert!(!AlwaysDeny.request("ls"));
}

// -- clipboard -----------------------------------------------------------------

#[test]
fn a_snapshot_is_consumed_once() {
    let mut ctx = ClipboardContext::new();
    assert_eq!(ctx.take(), None);
    ctx.set(Some("erro".to_string()));
    assert_eq!(ctx.take(), Some("erro".to_string()));
    assert_eq!(ctx.take(), None);
    ctx.set(Some("a".to_string()));
    ctx.set(None);
    assert_eq!(ctx.take(), None);
}

#[test]
fn a_clipboard_is_clamped_and_trimmed() {
    assert_eq!(CLIPBOARD_MAX_CHARS, 2000);
    assert_eq!(snapshot(None), None);
    assert_eq!(snapshot(Some(" \t\n".to_string())), None);
    assert_eq!(snapshot(Some(" x ".to_string())), Some("x".to_string()));
    assert_eq!(snapshot(Some("  erro ".to_string())), Some("erro".to_string()));
    assert_eq!(snapshot(Some("a \n b".to_string())), Some("a \n b".to_string()));
    let long = "é".repeat(2001);
    assert_eq!(snapshot(Some(long)), Some("é".repeat(2000)));
    // The whitespace in front does not count, and none is left where the cut falls.
    let spaced = format!("   {}  {}", "a".repeat(1999), "b".repeat(5));
    assert_eq!(snapshot(Some(spaced)), Some("a".repeat(1999)));
}

// -- assistant -----------------------------------------------------------------

#[test]
fn the_prompt_tells_of_the_user() {
    let assistant = AssistantService::new(UserProfile::default());
    let prompt = assistant.build_prompt(Ok(12), "que horas são?");
    assert_eq!(
        prompt,
        "Você é Kensho, um assistente local rodando no Ubuntu de Usuário. Persona: Direto, gosta \
         de respostas objetivas.. O usuário tem 12 tarefa(s) registrada(s). Responda em pt-BR, de \
         forma breve e útil.\n\nUsuário: que horas são?\nKensho:"
    );
    assert!(!assistant.should_nudge());
}

#[test]
fn the_next_prompt_consumes_the_clipboard() {
    let assistant = AssistantService::new(UserProfile::default());
    let mut clipboard = ClipboardContext::new();
    let plain = assistant.system_prompt(Ok(1));
    assert_eq!(assistant.turn_prompt(Ok(1), &mut clipboard), plain);
    clipboard.set(Some("error[E0382]".to_string()));
    assert_eq!(assistant.turn_prompt(Ok(1), &mut clipboard), format!("{plain}\n\nerror[E0382]"));
    assert_eq!(assistant.turn_prompt(Ok(1), &mut clipboard), plain);
}

#[test]
fn an_unreadable_count_is_zero() {
    let assistant = AssistantService::new(UserProfile::default());
    let failed = assistant.system_prompt(Err(AppError::Database("x".to_string())));
    assert!(failed.contains(" 0 tarefa(s)"));
    assert!(assistant.system_prompt(Ok(i64::MIN)).contains(" -9223372036854775808 tarefa(s)"));
}
