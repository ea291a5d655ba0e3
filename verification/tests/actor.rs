use kensho::actor::generation::{
    allow_another_cycle, on_wake, CharacterState, Duty, Generation, LlmCommand, Output, Reader,
    Wake, HISTORY_TURNS, MAX_TOOL_CYCLES,
};
use kensho::actor::heartbeat::{Due, Nudged, TickStep, ALERT_SUMMARY};
use kensho::domain::task::Task;
use kensho::domain::{TaskId, Timestamp};
use kensho::error::{AppError, AppResult};
use kensho::services::conversation::{History, Role};
use kensho::services::tools::{ToolCall, ToolOutcome};
use kensho::{actor::SentenceBuffer, actor::StreamFilter};

// -- stream filter -------------------------------------------------------------

#[test]
fn extracts_call_split_across_tokens() {
    let mut f = StreamFilter::new();
    let mut text = String::new();
    let mut calls = Vec::new();
    for piece in ["Vou ", "anotar. <CA", "LL:ADD_TASK>Comprar pão|2026-06-20</CA", "LL> Pronto!"] {
        let (t, c) = f.push(piece);
        text.push_str(&t);
        calls.extend(c);
    }
    text.push_str(&f.finish());
    assert_eq!(calls, vec!["ADD_TASK>Comprar pão|2026-06-20".to_string()]);
    assert_eq!(text, "Vou anotar.  Pronto!");
}

#[test]
fn passes_plain_text_through() {
    let mut f = StreamFilter::new();
    let (t, c) = f.push("olá mundo");
    let tail = f.finish();
    assert!(c.is_empty());
    assert_eq!(format!("{t}{tail}"), "olá mundo");
}

/// What a filter makes of a stream: the text it shows and the calls it finds.
fn filtered(pieces: &[&str]) -> (String, Vec<String>) {
    let mut f = StreamFilter::new();
    let mut text = String::new();
    let mut calls = Vec::new();
    for piece in pieces {
        let (t, c) = f.push(piece);
        text.push_str(&t);
        calls.extend(c);
    }
    text.push_str(&f.finish());
    assert_eq!(text, f.visible_text());
    (text, calls)
}

#[test]
fn every_way_to_cut_a_stream_gives_the_same() {
    let whole = "a <CALL:X>1</CALL> b <CALL:Y>é</CALL>< c <CAL";
    let expected = filtered(&[whole]);
    assert_eq!(expected.0, "a  b < c <CAL");
    assert_eq!(expected.1, vec!["X>1".to_string(), "Y>é".to_string()]);
    for (cut, _) in whole.char_indices() {
        assert_eq!(filtered(&[&whole[..cut], &whole[cut..]]), expected);
    }
    let chars: Vec<String> = whole.chars().map(|c| c.to_string()).collect();
    let pieces: Vec<&str> = chars.iter().map(|c| c.as_str()).collect();
    assert_eq!(filtered(&pieces), expected);
}

#[test]
fn a_beginning_tag_is_held_back_until_it_is_decided() {
    let mut f = StreamFilter::new();
    assert_eq!(f.push("oi <CALL"), ("oi ".to_string(), vec![]));
    assert_eq!(f.visible_text(), "oi ");
    assert_eq!(f.push("ED"), ("<CALLED".to_string(), vec![]));
    assert_eq!(f.finish(), "");

    let mut g = StreamFilter::new();
    assert_eq!(g.push("<<CALL:A>x"), ("<".to_string(), vec![]));
    assert_eq!(g.push("</CALL>!"), ("!".to_string(), vec!["A>x".to_string()]));
}

#[test]
fn an_unclosed_tag_stays_hidden() {
    assert_eq!(filtered(&["antes <CALL:X>nunca", " fechado"]), ("antes ".to_string(), vec![]));
}

#[test]
fn an_empty_stream_shows_nothing() {
    assert_eq!(filtered(&[]), (String::new(), vec![]));
    assert_eq!(filtered(&["", ""]), (String::new(), vec![]));
    assert_eq!(filtered(&["<CALL:</CALL>"]), (String::new(), vec![String::new()]));
}

// -- sentence buffer -----------------------------------------------------------

#[test]
fn emits_sentences_across_pushes() {
    let mut b = SentenceBuffer::new();
    assert!(b.push("Olá").is_empty());
    let s = b.push(", tudo bem? Vou ajudar.");
    assert_eq!(s, vec!["Olá, tudo bem?".to_string(), "Vou ajudar.".to_string()]);
    assert!(b.flush().is_none());
}

#[test]
fn flush_returns_unterminated_tail() {
    let mut b = SentenceBuffer::new();
    assert!(b.push("Resposta sem ponto").is_empty());
    assert_eq!(b.flush(), Some("Resposta sem ponto".to_string()));
}

#[test]
fn handles_exclamation_and_question() {
    let mut b = SentenceBuffer::new();
    let s = b.push("Pronto! E agora?");
    assert_eq!(s, vec!["Pronto!".to_string(), "E agora?".to_string()]);
}

/// Everything voiced of a text that comes in pieces.
fn voiced(pieces: &[&str]) -> Vec<String> {
    let mut b = SentenceBuffer::new();
    let mut out = Vec::new();
    for piece in pieces {
        out.extend(b.push(piece));
    }
    out.extend(b.flush());
    out
}

#[test]
fn sentences_do_not_depend_on_the_pieces() {
    let whole = " Um.  Dois ?! três\n quatro. cinco  ";
    let expected = voiced(&[whole]);
    assert_eq!(expected, vec!["Um.", "Dois ?", "!", "três\n quatro.", "cinco"]);
    for (cut, _) in whole.char_indices() {
        assert_eq!(voiced(&[&whole[..cut], &whole[cut..]]), expected);
    }
}

#[test]
fn no_word_is_lost_in_sentences() {
    let whole = "Olá... tudo bem? sim!";
    let bare = |s: &str| s.chars().filter(|c| !c.is_whitespace()).collect::<String>();
    assert_eq!(bare(&voiced(&[whole]).concat()), bare(whole));
}

#[test]
fn blank_text_is_not_voiced() {
    assert!(voiced(&["  ", "\n"]).is_empty());
    assert!(voiced(&[]).is_empty());
}

// -- answers -------------------------------------------------------------------

#[test]
fn multi_step_loop_is_hard_capped() {
    assert_eq!(MAX_TOOL_CYCLES, 3);
    assert!(allow_another_cycle(0));
    assert!(allow_another_cycle(1));
    assert!(!allow_another_cycle(2));
    assert!(!allow_another_cycle(3));
}

/// Everything an answer puts out.
#[derive(Default)]
struct Recorded {
    tokens: String,
    spoken: Vec<String>,
    done: Option<String>,
    error: Option<String>,
    tools: Vec<String>,
    states: Vec<CharacterState>,
    cycles: usize,
    asked: Vec<Vec<(Role, String)>>,
}

impl Recorded {
    fn take(&mut self, out: Output) {
        match out {
            Output::State(s) => self.states.push(s),
            Output::Token(t) => self.tokens.push_str(&t),
            Output::Speak(t) => self.spoken.push(t),
            Output::Tool(t) => self.tools.push(t),
            Output::Done(t) => self.done = Some(t),
            Output::Error(t) => self.error = Some(t),
        }
    }
}

/// Answer `input` with an engine that replays `scripts`, one per cycle, and tools
/// that report by `tool`.
fn answer(
    history: &mut History,
    scripts: &[Result<&str, &str>],
    tool: fn(&ToolCall) -> AppResult<ToolOutcome>,
    input: &str,
) -> Recorded {
    let mut rec = Recorded::default();
    let mut generation = Generation::begin(history, input.to_string());
    loop {
        let (out, messages) = Generation::open_cycle("sistema".to_string(), history);
        rec.take(out);
        rec.asked.push(messages.into_iter().map(|m| (m.role, m.content)).collect());
        let mut reader = Reader::new();
        let script = scripts.get(rec.cycles).copied().unwrap_or(Ok("Não sei mais o que fazer."));
        rec.cycles += 1;
        let mut result = Ok(());
        match script {
            Ok(text) => {
                for token in text.split_inclusive(' ') {
                    let (outs, calls) = reader.on_token(token);
                    for out in outs {
                        rec.take(out);
                    }
                    for call in calls {
                        rec.take(reader.on_tool(tool(&call)));
                    }
                }
            }
            Err(why) => result = Err(why.to_string()),
        }
        let (outs, text, follow_ups) = reader.finish();
        for out in outs {
            rec.take(out);
        }
        let (outs, again) = generation.close_cycle(history, result, text, follow_ups);
        for out in outs {
            rec.take(out);
        }
        if !again {
            return rec;
        }
    }
}

fn no_such_file(_call: &ToolCall) -> AppResult<ToolOutcome> {
    Err(AppError::Io("No such file or directory (os error 2)".to_string()))
}

fn quiet_tool(call: &ToolCall) -> AppResult<ToolOutcome> {
    Ok(ToolOutcome { summary: format!("fez {}", call.name), follow_up: None })
}

fn talkative_tool(call: &ToolCall) -> AppResult<ToolOutcome> {
    Ok(ToolOutcome { summary: "lido".to_string(), follow_up: Some(call.raw_args.clone()) })
}

#[test]
fn multi_step_recovers_from_tool_failure() {
    let mut history = History::new(HISTORY_TURNS);
    let rec = answer(
        &mut history,
        &[
            Ok("Vou verificar. <CALL:READ_FILE>/nonexistent/kensho_xyz.log</CALL>"),
            Ok("Pronto, resolvido."),
        ],
        no_such_file,
        "Leia o log e me explique.",
    );
    assert_eq!(rec.cycles, 2, "should self-correct over 2 cycles");
    assert_eq!(rec.done.as_deref(), Some("Vou verificar. Pronto, resolvido."));
    assert!(rec.states.contains(&CharacterState::Idle));

    assert_eq!(
        rec.tools,
        vec!["Falha ao executar comando: io error: No such file or directory (os error 2)"]
    );
    assert_eq!(
        rec.asked[1],
        vec![
            (Role::System, "sistema".to_string()),
            (Role::User, "Leia o log e me explique.".to_string()),
            (Role::Assistant, "Vou verificar. ".to_string()),
            (
                Role::User,
                "A última ferramenta falhou: io error: No such file or directory (os error 2). \
                 Analise o erro e tente uma abordagem alternativa, ou explique ao usuário se não \
                 for possível."
                    .to_string()
            ),
        ]
    );
}

#[test]
fn multi_step_stops_at_hard_cap() {
    let failing = Ok("<CALL:READ_FILE>/nope/missing.txt</CALL>");
    let mut history = History::new(HISTORY_TURNS);
    let rec = answer(
        &mut history,
        &[failing, failing, failing, failing, failing],
        no_such_file,
        "tente ler",
    );
    assert_eq!(rec.cycles, MAX_TOOL_CYCLES as usize, "capped at 3 cycles");
    assert!(rec.done.is_some(), "still emits a final answer");
}

#[test]
fn a_quiet_tool_needs_no_further_cycle() {
    let mut history = History::new(HISTORY_TURNS);
    let rec = answer(
        &mut history,
        &[Ok("Anotado. <CALL:add_task>Pão</CALL> Até logo")],
        quiet_tool,
        "anote",
    );
    assert_eq!(rec.cycles, 1);
    assert_eq!(rec.tools, vec!["fez ADD_TASK"]);
    assert_eq!(rec.tokens, "Anotado.  Até logo");
    assert_eq!(rec.done.as_deref(), Some("Anotado.  Até logo"));
    assert_eq!(rec.spoken, vec!["Anotado.", "Até logo"]);
    assert_eq!(
        rec.states,
        vec![CharacterState::Thinking, CharacterState::Speaking, CharacterState::Idle]
    );
    assert_eq!(history.len(), 2);
}

#[test]
fn follow_up_context_is_given_to_the_next_cycle() {
    let mut history = History::new(HISTORY_TURNS);
    let rec = answer(
        &mut history,
        &[Ok("<CALL:READ>conteúdo</CALL>"), Ok("Fim.")],
        talkative_tool,
        "leia",
    );
    assert_eq!(rec.cycles, 2);
    assert_eq!(rec.asked[1].last(), Some(&(Role::User, "conteúdo".to_string())));
    assert_eq!(rec.done.as_deref(), Some("Fim."));
    assert_eq!(rec.tokens, "Fim.");
}

#[test]
fn a_failed_engine_ends_in_an_error() {
    let mut history = History::new(HISTORY_TURNS);
    let rec = answer(&mut history, &[Err("inference failed: x")], quiet_tool, "oi");
    assert_eq!(rec.error.as_deref(), Some("inference failed: x"));
    assert_eq!(rec.done, None);
    assert_eq!(rec.states, vec![CharacterState::Thinking, CharacterState::Idle]);
    assert_eq!(history.len(), 1);
}

#[test]
fn text_held_back_is_shown_at_the_end() {
    let mut history = History::new(HISTORY_TURNS);
    let rec = answer(&mut history, &[Ok("<CAL")], quiet_tool, "oi");
    assert_eq!(rec.tokens, "<CAL");
    assert_eq!(rec.done.as_deref(), Some("<CAL"));
    assert_eq!(
        rec.states,
        vec![CharacterState::Thinking, CharacterState::Speaking, CharacterState::Idle]
    );
    assert_eq!(rec.spoken, vec!["<CAL"]);
}

#[test]
fn the_character_speaks_before_text_that_was_held_back() {
    let mut reader = Reader::new();
    let (outs, calls) = reader.on_token("<");
    assert!(outs.is_empty() && calls.is_empty());
    let (outs, text, follow_ups) = reader.finish();
    assert_eq!(outs.len(), 3);
    assert!(matches!(outs[0], Output::State(CharacterState::Speaking)));
    assert!(matches!(&outs[1], Output::Token(t) if t == "<"));
    assert!(matches!(&outs[2], Output::Speak(t) if t == "<"));
    assert_eq!(text, "<");
    assert!(follow_ups.is_empty());

    // A character that has spoken does not begin again.
    let mut reader = Reader::new();
    let (outs, _) = reader.on_token("a <");
    assert!(matches!(outs[0], Output::State(CharacterState::Speaking)));
    assert!(matches!(&outs[1], Output::Token(t) if t == "a "));
    let (outs, text, _) = reader.finish();
    assert!(matches!(&outs[0], Output::Token(t) if t == "<"));
    assert!(outs.iter().all(|o| !matches!(o, Output::State(_))));
    assert_eq!(text, "a <");
}

#[test]
fn silence_is_not_spoken() {
    let mut history = History::new(HISTORY_TURNS);
    let rec = answer(&mut history, &[Ok("<CALL:X>1</CALL>")], quiet_tool, "oi");
    assert_eq!(rec.states, vec![CharacterState::Thinking, CharacterState::Idle]);
    assert_eq!(rec.done.as_deref(), Some(""));
}

#[test]
fn the_history_of_answers_stays_bounded() {
    let mut history = History::new(HISTORY_TURNS);
    for i in 0..20 {
        let said = format!("resposta {i}");
        answer(&mut history, &[Ok(&said)], quiet_tool, "pergunta");
        assert!(history.len() <= 2 * HISTORY_TURNS);
    }
    assert_eq!(history.len(), 12);
}

#[test]
fn outputs_go_to_their_events() {
    let name = |o: Output| o.event_name();
    assert_eq!(name(Output::State(CharacterState::Idle)), Some("character://state"));
    assert_eq!(name(Output::Token(String::new())), Some("llm://token"));
    assert_eq!(name(Output::Done(String::new())), Some("llm://done"));
    assert_eq!(name(Output::Error(String::new())), Some("llm://error"));
    assert_eq!(name(Output::Tool(String::new())), Some("tool://executed"));
    assert_eq!(name(Output::Speak(String::new())), None);
}

#[test]
fn the_worker_wakes_to_its_duty() {
    let ask = Wake::Command(Some(LlmCommand::Generate { user_input: "oi".to_string() }));
    assert!(matches!(on_wake(ask), Duty::Answer(s) if s == "oi"));
    assert!(matches!(on_wake(Wake::Command(Some(LlmCommand::Shutdown))), Duty::Stop));
    assert!(matches!(on_wake(Wake::Command(None)), Duty::Stop));
    assert!(matches!(on_wake(Wake::Tick), Duty::Heartbeat));
}

// -- heartbeat -----------------------------------------------------------------

fn due_task(id: u128, title: &str) -> Task {
    Task::created(TaskId { value: id }, title.to_string(), Timestamp::new(0, 0).unwrap())
}

#[test]
fn each_deadline_is_alerted_to_once() {
    let mut nudged = Nudged::new();
    let tick = nudged.heartbeat(Due::Tasks(vec![due_task(1, "Um"), due_task(2, "Dois")]));
    match tick {
        TickStep::Alert { fresh, body, look } => {
            assert_eq!(fresh.len(), 2);
            assert_eq!(body, "2 tarefa(s) vencendo hoje: Um; Dois");
            assert!(matches!(look, Output::State(CharacterState::Alert)));
        }
        TickStep::Quiet => panic!("an alert was due"),
    }
    let again = nudged.heartbeat(Due::Tasks(vec![due_task(2, "Dois"), due_task(1, "Um")]));
    assert!(matches!(again, TickStep::Quiet));
    let more = nudged.heartbeat(Due::Tasks(vec![due_task(2, "Dois"), due_task(3, "Três")]));
    assert!(matches!(more, TickStep::Alert { body, .. } if body == "1 tarefa(s) vencendo hoje: Três"));
}

#[test]
fn an_alert_names_five_tasks_at_most() {
    let mut nudged = Nudged::new();
    let tasks: Vec<Task> = (1..=12).map(|i| due_task(i, &format!("t{i}"))).collect();
    let tick = nudged.heartbeat(Due::Tasks(tasks));
    assert!(matches!(
        tick,
        TickStep::Alert { body, .. } if body == "12 tarefa(s) vencendo hoje: t1; t2; t3; t4; t5"
    ));
    assert_eq!(ALERT_SUMMARY, "Kensho — Lembrete");
}

#[test]
fn a_paused_or_failed_tick_is_quiet() {
    let mut nudged = Nudged::new();
    assert!(matches!(nudged.heartbeat(Due::Paused), TickStep::Quiet));
    assert!(matches!(nudged.heartbeat(Due::Failed), TickStep::Quiet));
    assert!(matches!(nudged.heartbeat(Due::Tasks(vec![])), TickStep::Quiet));
    assert!(matches!(
        nudged.heartbeat(Due::Tasks(vec![due_task(1, "Um")])),
        TickStep::Alert { .. }
    ));
}
