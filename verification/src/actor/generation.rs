//! One answer to the user, as a sequence of decisions.
//!
//! The worker owns the engine and the channels; what it does with each thing it
//! hears is decided here. A request runs through one or more inference cycles.
//! In each, a [`Reader`] turns the token stream into outputs and tool calls; at
//! its end, [`Generation`] either answers, fails, or — when a tool injected
//! follow-up context — starts another silent cycle, hard-capped.

use vstd::prelude::*;

use super::sentence_buffer::{kept, last_words, sentences, SentenceBuffer};
use super::stream_filter::{scan, FilterState, StreamFilter};
use crate::error::AppResult;
use crate::services::conversation::{messages_of, ChatMessage, History, Memory, Message, Role};
use crate::services::tools::{call_of, Call, ToolCall, ToolOutcome};
use crate::text::{opt_view, views};

verus! {

// Events the frontend listens to.
pub const EVENT_STATE: &'static str = "character://state";

pub const EVENT_TOKEN: &'static str = "llm://token";

pub const EVENT_DONE: &'static str = "llm://done";

pub const EVENT_ERROR: &'static str = "llm://error";

pub const EVENT_TOOL: &'static str = "tool://executed";

/// Number of user/assistant turns retained in the rolling memory window.
pub const HISTORY_TURNS: usize = 6;

/// Hard ceiling on inference cycles per user turn (initial + tool-driven
/// follow-ups). Prevents runaway autonomous loops.
pub const MAX_TOOL_CYCLES: u8 = 3;

/// Visual state of the character, mirrored 1:1 on the frontend.
#[derive(Debug, Clone, Copy, PartialEq, Eq, Structural)]
pub enum CharacterState {
    Idle,
    Thinking,
    Speaking,
    Alert,
}

/// Something the worker puts out.
#[derive(Debug)]
pub enum Output {
    /// The character changes its look.
    State(CharacterState),
    /// Text to show.
    Token(String),
    /// A sentence to voice.
    Speak(String),
    /// What a tool has done.
    Tool(String),
    /// The answer is complete.
    Done(String),
    /// The answer failed.
    Error(String),
}

/// An output as a value.
pub enum Emission {
    State(CharacterState),
    Token(Seq<char>),
    Speak(Seq<char>),
    Tool(Seq<char>),
    Done(Seq<char>),
    Error(Seq<char>),
}

impl View for Output {
    type V = Emission;

    open spec fn view(&self) -> Emission {
        match self {
            Output::State(s) => Emission::State(*s),
            Output::Token(t) => Emission::Token(t@),
            Output::Speak(t) => Emission::Speak(t@),
            Output::Tool(t) => Emission::Tool(t@),
            Output::Done(t) => Emission::Done(t@),
            Output::Error(t) => Emission::Error(t@),
        }
    }
}

/// The outputs of a sequence, as values.
pub open spec fn emissions(v: Seq<Output>) -> Seq<Emission> {
    v.map_values(|o: Output| o@)
}

/// The tool calls of a sequence, as values.
pub open spec fn calls_of(v: Seq<ToolCall>) -> Seq<Call> {
    v.map_values(|c: ToolCall| c@)
}

impl Output {
    /// The event the frontend hears this output on; speech goes elsewhere.
    pub open spec fn channel(self) -> Option<Seq<char>> {
        match self {
            Output::State(_) => Some(EVENT_STATE@),
            Output::Token(_) => Some(EVENT_TOKEN@),
            Output::Tool(_) => Some(EVENT_TOOL@),
            Output::Done(_) => Some(EVENT_DONE@),
            Output::Error(_) => Some(EVENT_ERROR@),
            Output::Speak(_) => None,
        }
    }

    /// The event the frontend hears this output on; speech goes elsewhere.
    pub fn event_name(&self) -> (r: Option<&'static str>)
        ensures
            match r {
                Some(name) => self.channel() == Some(name@),
                None => self.channel() is None,
            },
    {
        match self {
            Output::State(_) => Some(EVENT_STATE),
            Output::Token(_) => Some(EVENT_TOKEN),
            Output::Tool(_) => Some(EVENT_TOOL),
            Output::Done(_) => Some(EVENT_DONE),
            Output::Error(_) => Some(EVENT_ERROR),
            Output::Speak(_) => None,
        }
    }
}

/// Messages accepted by the worker.
#[derive(Debug)]
pub enum LlmCommand {
    /// Raw user input; the worker wraps it in history + chat template.
    Generate { user_input: String },
    Shutdown,
}

/// What wakes the worker: a message (none when every sender is gone), or the
/// heartbeat.
#[derive(Debug)]
pub enum Wake {
    Command(Option<LlmCommand>),
    Tick,
}

/// What the worker does next.
#[derive(Debug)]
pub enum Duty {
    Answer(String),
    Heartbeat,
    Stop,
}

/// What the worker does when it is woken.
pub fn on_wake(wake: Wake) -> (r: Duty)
    ensures
        match wake {
            Wake::Command(Some(LlmCommand::Generate { user_input })) => r == Duty::Answer(
                user_input,
            ),
            Wake::Command(Some(LlmCommand::Shutdown)) => r is Stop,
            Wake::Command(None) => r is Stop,
            Wake::Tick => r is Heartbeat,
        },
{
    match wake {
        Wake::Command(Some(LlmCommand::Generate { user_input })) => Duty::Answer(user_input),
        Wake::Command(Some(LlmCommand::Shutdown)) => Duty::Stop,
        Wake::Command(None) => Duty::Stop,
        Wake::Tick => Duty::Heartbeat,
    }
}

// ---------------------------------------------------------------------------
// One cycle
// ---------------------------------------------------------------------------

/// Where the reading of a cycle stands.
pub struct Reading {
    pub filter: FilterState,
    /// Text not yet spoken.
    pub unspoken: Seq<char>,
    /// Whether the character has begun to speak.
    pub spoke: bool,
    /// Context for a further cycle.
    pub follow_ups: Seq<Seq<char>>,
}

/// A cycle of which nothing has been read.
pub open spec fn unread() -> Reading {
    Reading {
        filter: FilterState { capturing: false, pending: Seq::empty(), visible: Seq::empty() },
        unspoken: Seq::empty(),
        spoke: false,
        follow_ups: Seq::empty(),
    }
}

/// Sentences to voice.
pub open spec fn speeches(s: Seq<Seq<char>>) -> Seq<Emission> {
    s.map_values(|t: Seq<char>| Emission::Speak(t))
}

/// What shows `text` and voices `said`: the character begins to speak with the
/// first text that is shown.
pub open spec fn showing(spoke: bool, text: Seq<char>, said: Seq<Seq<char>>) -> Seq<Emission> {
    let begin = if spoke {
        Seq::empty()
    } else {
        seq![Emission::State(CharacterState::Speaking)]
    };
    begin + seq![Emission::Token(text)] + speeches(said)
}

/// What follows from a token.
pub struct TokenRead {
    pub next: Reading,
    pub out: Seq<Emission>,
    pub calls: Seq<Call>,
}

/// What follows from `token`: its visible text is shown, the character begins to
/// speak with the first of it, the sentences it completes are voiced, and the
/// calls it completes are to be carried out.
pub open spec fn read_token(st: Reading, token: Seq<char>) -> TokenRead {
    let got = scan(st.filter.capturing, st.filter.pending + token);
    let filter = FilterState {
        capturing: got.capturing,
        pending: got.pending,
        visible: st.filter.visible + got.visible,
    };
    let calls = got.calls.map_values(|body: Seq<char>| call_of(body));
    if got.visible.len() == 0 {
        TokenRead { next: Reading { filter, ..st }, out: Seq::empty(), calls }
    } else {
        let heard = st.unspoken + got.visible;
        TokenRead {
            next: Reading { filter, unspoken: kept(heard), spoke: true, ..st },
            out: showing(st.spoke, got.visible, sentences(heard)),
            calls,
        }
    }
}

/// What a tool reported: its summary and follow-up context, or why it failed.
pub enum Report {
    Success { summary: Seq<char>, follow_up: Option<Seq<char>> },
    Failure(Seq<char>),
}

/// A tool's result as a report.
pub open spec fn report_of(r: AppResult<ToolOutcome>) -> Report {
    match r {
        Ok(o) => Report::Success { summary: o.summary@, follow_up: opt_view(o.follow_up) },
        Err(e) => Report::Failure(e.says()),
    }
}

/// What the user is told of a tool's report.
pub open spec fn tool_note(report: Report) -> Seq<char> {
    match report {
        Report::Success { summary, .. } => summary,
        Report::Failure(why) => "Falha ao executar comando: "@ + why,
    }
}

/// What the model is told of a tool's report in a further cycle: the context the
/// tool left, or its failure, so that the model can correct itself.
pub open spec fn tool_context(report: Report) -> Option<Seq<char>> {
    match report {
        Report::Success { follow_up, .. } => follow_up,
        Report::Failure(why) => Some(
            "A última ferramenta falhou: "@ + why
                + ". Analise o erro e tente uma abordagem alternativa, ou explique ao usuário se não for possível."@,
        ),
    }
}

/// The reading after a tool has reported.
pub open spec fn read_report(st: Reading, report: Report) -> Reading {
    Reading {
        follow_ups: match tool_context(report) {
            Some(context) => st.follow_ups.push(context),
            None => st.follow_ups,
        },
        ..st
    }
}

/// What the end of the stream yields: text held back is shown after all, the
/// character beginning to speak with it if it has not yet spoken, and what is
/// unspoken is voiced.
pub open spec fn read_end(st: Reading) -> Seq<Emission> {
    let tail = end_tail(st);
    let heard = st.unspoken + tail;
    let (shown, rest) = if tail.len() == 0 {
        (Seq::empty(), st.unspoken)
    } else {
        (showing(st.spoke, tail, sentences(heard)), kept(heard))
    };
    match last_words(rest) {
        Some(words) => shown + seq![Emission::Speak(words)],
        None => shown,
    }
}

/// Text held back that turned out not to begin a tag.
pub open spec fn end_tail(st: Reading) -> Seq<char> {
    if st.filter.capturing {
        Seq::empty()
    } else {
        st.filter.pending
    }
}

/// The full visible text of a cycle.
pub open spec fn full_text(st: Reading) -> Seq<char> {
    st.filter.visible + end_tail(st)
}

/// Reads the token stream of one cycle: filters tool calls out of the visible
/// text, voices sentences, and collects follow-up context.
pub struct Reader {
    filter: StreamFilter,
    sentences: SentenceBuffer,
    spoke: bool,
    follow_ups: Vec<String>,
}

impl View for Reader {
    type V = Reading;

    closed spec fn view(&self) -> Reading {
        Reading {
            filter: self.filter@,
            unspoken: self.sentences@,
            spoke: self.spoke,
            follow_ups: views(self.follow_ups@),
        }
    }
}

/// Appends to `out` what shows `text` and voices `sentences`.
fn push_showing(out: &mut Vec<Output>, spoke: bool, text: String, sentences: Vec<String>)
    ensures
        emissions(final(out)@) == emissions(old(out)@) + showing(
            spoke,
            text@,
            views(sentences@),
        ),
{
    let ghost before = emissions(out@);
    let ghost begin: Seq<Emission> = if spoke {
        Seq::empty()
    } else {
        seq![Emission::State(CharacterState::Speaking)]
    };
    if !spoke {
        out.push(Output::State(CharacterState::Speaking));
    }
    out.push(Output::Token(text));
    assert(emissions(out@) =~= before + (begin + seq![Emission::Token(text@)]));
    push_speeches(out, sentences);
    assert(emissions(out@) =~= before + showing(spoke, text@, views(sentences@)));
}

/// Appends the sentences to voice to `out`.
fn push_speeches(out: &mut Vec<Output>, sentences: Vec<String>)
    ensures
        emissions(final(out)@) == emissions(old(out)@) + speeches(views(sentences@)),
{
    let mut i: usize = 0;
    assert(speeches(views(sentences@.take(0))) =~= Seq::<Emission>::empty());
    while i < sentences.len()
        invariant
            i <= sentences.len(),
            emissions(out@) == emissions(old(out)@) + speeches(views(sentences@.take(i as int))),
        decreases sentences.len() - i,
    {
        let sentence = sentences[i].clone();
        proof {
            assert(emissions(out@.push(Output::Speak(sentence))) =~= emissions(out@).push(
                Emission::Speak(sentence@),
            ));
            assert(speeches(views(sentences@.take(i + 1))) =~= speeches(
                views(sentences@.take(i as int)),
            ).push(Emission::Speak(sentence@)));
        }
        out.push(Output::Speak(sentence));
        i += 1;
    }
    assert(sentences@.take(i as int) =~= sentences@);
}

impl Reader {
    pub fn new() -> (r: Self)
        ensures
            r@ == unread(),
    {
        let r = Reader {
            filter: StreamFilter::new(),
            sentences: SentenceBuffer::new(),
            spoke: false,
            follow_ups: Vec::new(),
        };
        assert(views(r.follow_ups@) =~= Seq::<Seq<char>>::empty());
        r
    }

    /// Hear one token. Returns what to put out, in order, and then the tool calls
    /// to carry out, in order.
    pub fn on_token(&mut self, token: &str) -> (r: (Vec<Output>, Vec<ToolCall>))
        ensures
            final(self)@ == read_token(old(self)@, token@).next,
            emissions(r.0@) == read_token(old(self)@, token@).out,
            calls_of(r.1@) == read_token(old(self)@, token@).calls,
    {
        let (text, bodies) = self.filter.push(token);
        let mut out: Vec<Output> = Vec::new();
        assert(emissions(out@) =~= Seq::<Emission>::empty());
        if !text.as_str().is_empty() {
            let done = self.sentences.push(text.as_str());
            push_showing(&mut out, self.spoke, text, done);
            self.spoke = true;
        }
        assert(emissions(out@) =~= read_token(old(self)@, token@).out);

        let mut calls: Vec<ToolCall> = Vec::new();
        let mut i: usize = 0;
        while i < bodies.len()
            invariant
                i <= bodies.len(),
                calls@.len() == i,
                forall|j: int| 0 <= j < i ==> (#[trigger] calls@[j])@ == call_of(bodies@[j]@),
            decreases bodies.len() - i,
        {
            calls.push(ToolCall::parse(bodies[i].as_str()));
            i += 1;
        }
        assert(calls_of(calls@) =~= views(bodies@).map_values(|body: Seq<char>| call_of(body)));
        (out, calls)
    }

    /// Hear what a tool did. Returns what to put out.
    pub fn on_tool(&mut self, result: AppResult<ToolOutcome>) -> (r: Output)
        ensures
            final(self)@ == read_report(old(self)@, report_of(result)),
            r@ == Emission::Tool(tool_note(report_of(result))),
    {
        let ghost before = self.follow_ups@;
        match result {
            Ok(outcome) => {
                match outcome.follow_up {
                    Some(context) => {
                        assert(views(before.push(context)) =~= views(before).push(context@));
                        self.follow_ups.push(context);
                    },
                    None => {},
                }
                Output::Tool(outcome.summary)
            },
            Err(e) => {
                let why = e.message();
                let context = "A última ferramenta falhou: ".to_string().concat(
                    why.as_str(),
                ).concat(
                    ". Analise o erro e tente uma abordagem alternativa, ou explique ao usuário se não for possível.",
                );
                assert(views(before.push(context)) =~= views(before).push(context@));
                self.follow_ups.push(context);
                Output::Tool("Falha ao executar comando: ".to_string().concat(why.as_str()))
            },
        }
    }

    /// Hear the end of the stream. Returns what to put out, the full visible text
    /// and the follow-up context.
    pub fn finish(self) -> (r: (Vec<Output>, String, Vec<String>))
        ensures
            emissions(r.0@) == read_end(self@),
            r.1@ == full_text(self@),
            views(r.2@) == self@.follow_ups,
    {
        let mut this = self;
        let mut out: Vec<Output> = Vec::new();
        let tail = this.filter.finish();
        assert(emissions(out@) =~= Seq::<Emission>::empty());
        if !tail.as_str().is_empty() {
            let done = this.sentences.push(tail.as_str());
            push_showing(&mut out, this.spoke, tail, done);
            assert(emissions(out@) =~= showing(self@.spoke, tail@, views(done@)));
        }
        let ghost shown = out@;
        match this.sentences.flush() {
            Some(rest) => {
                assert(emissions(shown.push(Output::Speak(rest))) =~= emissions(shown)
                    + seq![Emission::Speak(rest@)]);
                out.push(Output::Speak(rest));
            },
            None => {},
        }
        let text = this.filter.visible_text().to_owned();
        (out, text, this.follow_ups)
    }
}

// ---------------------------------------------------------------------------
// One answer
// ---------------------------------------------------------------------------

/// Whether another tool-driven cycle is allowed given the current pass index.
pub fn allow_another_cycle(pass: u8) -> (r: bool)
    requires
        pass < u8::MAX,
    ensures
        r == (pass + 1 < MAX_TOOL_CYCLES),
{
    pass + 1 < MAX_TOOL_CYCLES
}

/// The history after each of `contexts` has been pushed as a user message.
pub open spec fn with_contexts(h: Memory, contexts: Seq<Seq<char>>) -> Memory
    decreases contexts.len(),
{
    if contexts.len() == 0 {
        h
    } else {
        with_contexts(h, contexts.drop_last()).pushed(
            Message { role: Role::User, content: contexts.last() },
        )
    }
}

/// What the engine is given: the system prompt, then the history.
pub open spec fn conversation(system: Seq<char>, history: Seq<Message>) -> Seq<Message> {
    seq![Message { role: Role::System, content: system }] + history
}

/// Where an answer stands between two cycles.
pub struct Progress {
    /// Visible text of the cycles so far.
    pub transcript: Seq<char>,
    /// Index of the current cycle.
    pub pass: int,
}

/// What follows from the end of a cycle.
pub struct CycleEnd {
    pub next: Progress,
    pub history: Memory,
    pub out: Seq<Emission>,
    /// Whether another cycle follows.
    pub again: bool,
}

/// What follows from the end of a cycle: a failed engine ends the answer with an
/// error. Otherwise the text joins the history and the transcript, and the answer
/// is complete, unless tools left context and another cycle is allowed.
pub open spec fn end_cycle(
    st: Progress,
    history: Memory,
    result: Result<(), Seq<char>>,
    text: Seq<char>,
    follow_ups: Seq<Seq<char>>,
) -> CycleEnd {
    match result {
        Err(why) => CycleEnd {
            next: st,
            history,
            out: seq![Emission::Error(why), Emission::State(CharacterState::Idle)],
            again: false,
        },
        Ok(_) => {
            let said = history.pushed(Message { role: Role::Assistant, content: text });
            let transcript = st.transcript + text;
            if follow_ups.len() > 0 && st.pass + 1 < MAX_TOOL_CYCLES {
                CycleEnd {
                    next: Progress { transcript, pass: st.pass + 1 },
                    history: with_contexts(said, follow_ups),
                    out: Seq::empty(),
                    again: true,
                }
            } else {
                CycleEnd {
                    next: Progress { transcript, pass: st.pass },
                    history: said,
                    out: seq![Emission::Done(transcript), Emission::State(CharacterState::Idle)],
                    again: false,
                }
            }
        },
    }
}

/// An engine's result as a value.
pub open spec fn result_of(r: Result<(), String>) -> Result<(), Seq<char>> {
    match r {
        Ok(_) => Ok(()),
        Err(e) => Err(e@),
    }
}

/// One answer to the user: cycles of inference until it is complete.
pub struct Generation {
    transcript: String,
    pass: u8,
}

impl View for Generation {
    type V = Progress;

    closed spec fn view(&self) -> Progress {
        Progress { transcript: self.transcript@, pass: self.pass as int }
    }
}

impl Generation {
    #[verifier::type_invariant]
    spec fn capped(self) -> bool {
        self.pass < MAX_TOOL_CYCLES
    }

    /// Begin to answer `user_input`, which enters the history.
    pub fn begin(history: &mut History, user_input: String) -> (r: Self)
        ensures
            r@ == (Progress { transcript: Seq::empty(), pass: 0 }),
            final(history)@ == old(history)@.pushed(
                Message { role: Role::User, content: user_input@ },
            ),
    {
        history.push_user(user_input);
        Generation { transcript: String::new(), pass: 0 }
    }

    /// Begin a cycle. Returns what to put out and what to give the engine.
    pub fn open_cycle(system: String, history: &History) -> (r: (Output, Vec<ChatMessage>))
        ensures
            r.0@ == Emission::State(CharacterState::Thinking),
            messages_of(r.1@) == conversation(system@, history@.messages),
    {
        let mut messages: Vec<ChatMessage> = Vec::new();
        messages.push(ChatMessage::new(Role::System, system));
        let ghost first = messages@;
        let ghost ms = history@.messages;
        assert(messages_of(first) =~= conversation(system@, ms.take(0)));
        for m in it: history.iter()
            invariant
                messages_of(it.seq().unref()) == ms,
                messages_of(messages@) == conversation(system@, ms.take(it.index())),
        {
            proof {
                let i = it.index();
                assert(messages_of(it.seq().unref())[i] == m@);
                assert(messages_of(messages@.push(*m)) =~= messages_of(messages@).push(m@));
                assert(conversation(system@, ms.take(i + 1)) =~= conversation(
                    system@,
                    ms.take(i),
                ).push(m@));
            }
            messages.push(m.clone());
        }
        assert(ms.take(ms.len() as int) =~= ms);
        (Output::State(CharacterState::Thinking), messages)
    }

    /// End a cycle with the engine's result, the full visible text and the
    /// follow-up context. Returns what to put out, and whether to begin another
    /// cycle.
    pub fn close_cycle(
        &mut self,
        history: &mut History,
        result: Result<(), String>,
        text: String,
        follow_ups: Vec<String>,
    ) -> (r: (Vec<Output>, bool))
        ensures
            ({
                let end = end_cycle(
                    old(self)@,
                    old(history)@,
                    result_of(result),
                    text@,
                    views(follow_ups@),
                );
                &&& final(self)@ == end.next
                &&& final(history)@ == end.history
                &&& emissions(r.0@) == end.out
                &&& r.1 == end.again
            }),
    {
        proof {
            use_type_invariant(&*self);
        }
        let mut out: Vec<Output> = Vec::new();
        match result {
            Err(why) => {
                out.push(Output::Error(why));
                out.push(Output::State(CharacterState::Idle));
                assert(emissions(out@) =~= seq![
                    Emission::Error(why@),
                    Emission::State(CharacterState::Idle),
                ]);
                return (out, false);
            },
            Ok(_) => {},
        }
        let mut transcript = self.transcript.clone();
        transcript.append(text.as_str());
        self.transcript = transcript;
        history.push_assistant(text);
        if follow_ups.len() > 0 && allow_another_cycle(self.pass) {
            self.pass = self.pass + 1;
            push_contexts(history, &follow_ups);
            assert(emissions(out@) =~= Seq::<Emission>::empty());
            (out, true)
        } else {
            out.push(Output::Done(self.transcript.clone()));
            out.push(Output::State(CharacterState::Idle));
            assert(emissions(out@) =~= seq![
                Emission::Done(self.transcript@),
                Emission::State(CharacterState::Idle),
            ]);
            (out, false)
        }
    }
}

/// Pushes each of `contexts` as a user message.
fn push_contexts(history: &mut History, contexts: &Vec<String>)
    ensures
        final(history)@ == with_contexts(old(history)@, views(contexts@)),
{
    let ghost all = views(contexts@);
    let mut i: usize = 0;
    while i < contexts.len()
        invariant
            i <= contexts.len(),
            all == views(contexts@),
            history@ == with_contexts(old(history)@, all.take(i as int)),
        decreases contexts.len() - i,
    {
        history.push_user(contexts[i].clone());
        assert(all.take(i + 1).drop_last() =~= all.take(i as int));
        i += 1;
    }
    assert(all.take(i as int) =~= all);
}

} // verus!
