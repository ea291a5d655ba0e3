//! What holds of an answer as a whole, whatever the engine says and the tools do.

use vstd::prelude::*;

use super::generation::{
    calls_of, conversation, emissions, end_cycle, end_tail, full_text, read_end, read_report,
    read_token, report_of, result_of, showing, speeches, tool_note, unread, with_contexts, CharacterState,
    Emission, Output, Progress, Reading, Report, MAX_TOOL_CYCLES,
};
use super::sentence_buffer;
use super::sentence_buffer::{kept, last_words, sentences};
use super::stream_filter;
use super::stream_filter::scan;
use crate::error::AppError;
use crate::services::conversation::{Memory, Message, Role};
use crate::services::tools::{call_of, Call, ToolCall, ToolOutcome};
use crate::text::{blank, concat, trim_start};

verus! {

/// What the worker hears in a cycle: a token of the stream, or a tool's report.
pub enum Heard {
    Token(Seq<char>),
    Report(Report),
}

/// Where a cycle stands, what it has put out, and which calls it has asked for.
pub struct Course {
    pub state: Reading,
    pub log: Seq<Emission>,
    pub calls: Seq<Call>,
}

/// A cycle after it has heard `heard`, one after the other.
pub open spec fn course(heard: Seq<Heard>) -> Course
    decreases heard.len(),
{
    if heard.len() == 0 {
        Course { state: unread(), log: Seq::empty(), calls: Seq::empty() }
    } else {
        let before = course(heard.drop_last());
        match heard.last() {
            Heard::Token(token) => {
                let step = read_token(before.state, token);
                Course {
                    state: step.next,
                    log: before.log + step.out,
                    calls: before.calls + step.calls,
                }
            },
            Heard::Report(report) => Course {
                state: read_report(before.state, report),
                log: before.log.push(Emission::Tool(tool_note(report))),
                calls: before.calls,
            },
        }
    }
}

/// All that a cycle puts out before it is decided how to go on.
pub open spec fn cycle_log(heard: Seq<Heard>) -> Seq<Emission> {
    seq![Emission::State(CharacterState::Thinking)] + course(heard).log + read_end(
        course(heard).state,
    )
}

/// The tokens among what was heard, in order.
pub open spec fn tokens(heard: Seq<Heard>) -> Seq<Seq<char>>
    decreases heard.len(),
{
    if heard.len() == 0 {
        Seq::empty()
    } else {
        match heard.last() {
            Heard::Token(token) => tokens(heard.drop_last()).push(token),
            Heard::Report(_) => tokens(heard.drop_last()),
        }
    }
}

/// The text shown by a log: its tokens put together.
pub open spec fn shown(log: Seq<Emission>) -> Seq<char>
    decreases log.len(),
{
    if log.len() == 0 {
        Seq::empty()
    } else {
        match log.last() {
            Emission::Token(t) => shown(log.drop_last()) + t,
            _ => shown(log.drop_last()),
        }
    }
}

/// The sentences voiced by a log, in order.
pub open spec fn voiced(log: Seq<Emission>) -> Seq<Seq<char>>
    decreases log.len(),
{
    if log.len() == 0 {
        Seq::empty()
    } else {
        match log.last() {
            Emission::Speak(t) => voiced(log.drop_last()).push(t),
            _ => voiced(log.drop_last()),
        }
    }
}

/// A stream's text without its tags.
pub open spec fn visible_part(s: Seq<char>) -> Seq<char> {
    let r = scan(false, s);
    if r.capturing {
        r.visible
    } else {
        r.visible + r.pending
    }
}

/// All that is said of a text: its sentences, then its last words.
pub open spec fn speech(s: Seq<char>) -> Seq<Seq<char>> {
    match last_words(kept(s)) {
        Some(words) => sentences(s).push(words),
        None => sentences(s),
    }
}

// ---------------------------------------------------------------------------
// One cycle
// ---------------------------------------------------------------------------

proof fn lemma_shown_append(a: Seq<Emission>, b: Seq<Emission>)
    ensures
        shown(a + b) == shown(a) + shown(b),
        voiced(a + b) == voiced(a) + voiced(b),
    decreases b.len(),
{
    if b.len() == 0 {
        assert(a + b =~= a);
        assert(shown(a) + shown(b) =~= shown(a));
        assert(voiced(a) + voiced(b) =~= voiced(a));
    } else {
        assert((a + b).drop_last() =~= a + b.drop_last());
        lemma_shown_append(a, b.drop_last());
        assert(shown(a + b) =~= shown(a) + shown(b));
        assert(voiced(a + b) =~= voiced(a) + voiced(b));
    }
}

proof fn lemma_shown_one(e: Emission)
    ensures
        shown(seq![e]) == match e {
            Emission::Token(t) => t,
            _ => Seq::empty(),
        },
        voiced(seq![e]) == match e {
            Emission::Speak(t) => seq![t],
            _ => Seq::empty(),
        },
{
    assert(seq![e].drop_last() =~= Seq::<Emission>::empty());
    assert(shown(Seq::<Emission>::empty()) =~= Seq::<char>::empty());
    assert(voiced(Seq::<Emission>::empty()) =~= Seq::<Seq<char>>::empty());
    match e {
        Emission::Token(t) => {
            assert(Seq::<char>::empty() + t =~= t);
        },
        Emission::Speak(t) => {
            assert(Seq::<Seq<char>>::empty().push(t) =~= seq![t]);
        },
        _ => {},
    }
}

proof fn lemma_shown_speeches(s: Seq<Seq<char>>)
    ensures
        shown(speeches(s)) == Seq::<char>::empty(),
        voiced(speeches(s)) == s,
    decreases s.len(),
{
    if s.len() == 0 {
        assert(voiced(speeches(s)) =~= s);
    } else {
        assert(speeches(s).drop_last() =~= speeches(s.drop_last()));
        lemma_shown_speeches(s.drop_last());
        assert(voiced(speeches(s)) =~= s);
    }
}

/// What is shown and voiced where a text is shown and sentences are voiced.
proof fn lemma_showing_out(spoke: bool, text: Seq<char>, said: Seq<Seq<char>>)
    ensures
        shown(showing(spoke, text, said)) == text,
        voiced(showing(spoke, text, said)) == said,
{
    let begin: Seq<Emission> = if spoke {
        Seq::empty()
    } else {
        seq![Emission::State(CharacterState::Speaking)]
    };
    lemma_shown_one(Emission::State(CharacterState::Speaking));
    lemma_shown_one(Emission::Token(text));
    lemma_shown_speeches(said);
    lemma_shown_append(begin, seq![Emission::Token(text)]);
    lemma_shown_append(begin + seq![Emission::Token(text)], speeches(said));
    assert(shown(showing(spoke, text, said)) =~= text);
    assert(voiced(showing(spoke, text, said)) =~= said);
}

/// What a token adds to the text shown and voiced.
proof fn lemma_token_out(st: Reading, token: Seq<char>)
    ensures
        ({
            let got = scan(st.filter.capturing, st.filter.pending + token);
            let step = read_token(st, token);
            &&& shown(step.out) == got.visible
            &&& voiced(step.out) == if got.visible.len() == 0 {
                Seq::empty()
            } else {
                sentences(st.unspoken + got.visible)
            }
        }),
{
    let got = scan(st.filter.capturing, st.filter.pending + token);
    if got.visible.len() == 0 {
        assert(got.visible =~= Seq::<char>::empty());
    } else {
        lemma_showing_out(st.spoke, got.visible, sentences(st.unspoken + got.visible));
    }
}

/// What the end of a stream adds to the text shown and voiced.
proof fn lemma_end_out(st: Reading)
    ensures
        shown(read_end(st)) == end_tail(st),
        voiced(read_end(st)) == ({
            let tail = end_tail(st);
            let heard = st.unspoken + tail;
            let said = if tail.len() == 0 {
                Seq::empty()
            } else {
                sentences(heard)
            };
            let rest = if tail.len() == 0 {
                st.unspoken
            } else {
                kept(heard)
            };
            match last_words(rest) {
                Some(words) => said.push(words),
                None => said,
            }
        }),
{
    let tail = end_tail(st);
    let heard = st.unspoken + tail;
    let front: Seq<Emission> = if tail.len() == 0 {
        Seq::empty()
    } else {
        showing(st.spoke, tail, sentences(heard))
    };
    let rest = if tail.len() == 0 {
        st.unspoken
    } else {
        kept(heard)
    };
    if tail.len() == 0 {
        assert(tail =~= Seq::<char>::empty());
    } else {
        lemma_showing_out(st.spoke, tail, sentences(heard));
    }
    match last_words(rest) {
        Some(words) => {
            lemma_shown_one(Emission::Speak(words));
            lemma_shown_append(front, seq![Emission::Speak(words)]);
            assert(shown(read_end(st)) =~= tail);
            assert(voiced(read_end(st)) =~= voiced(front).push(words));
        },
        None => {},
    }
}

/// What has been shown is the visible text so far.
proof fn lemma_shown_so_far(heard: Seq<Heard>)
    ensures
        shown(course(heard).log) == course(heard).state.filter.visible,
    decreases heard.len(),
{
    if heard.len() > 0 {
        let before = course(heard.drop_last());
        lemma_shown_so_far(heard.drop_last());
        match heard.last() {
            Heard::Token(token) => {
                let step = read_token(before.state, token);
                lemma_token_out(before.state, token);
                lemma_shown_append(before.log, step.out);
            },
            Heard::Report(report) => {
                let e = Emission::Tool(tool_note(report));
                assert(before.log.push(e).drop_last() =~= before.log);
            },
        }
    }
}

/// In each cycle, the tokens put out make up its full visible text: what the
/// user has been shown is what enters the history and the transcript.
pub proof fn law_shown_is_the_full_text(heard: Seq<Heard>)
    ensures
        shown(cycle_log(heard)) == full_text(course(heard).state),
{
    let c = course(heard);
    let first = seq![Emission::State(CharacterState::Thinking)];
    lemma_shown_so_far(heard);
    lemma_end_out(c.state);
    lemma_shown_one(Emission::State(CharacterState::Thinking));
    lemma_shown_append(first, c.log);
    lemma_shown_append(first + c.log, read_end(c.state));
    assert(shown(cycle_log(heard)) =~= full_text(c.state));
}

proof fn lemma_concat_push(parts: Seq<Seq<char>>, t: Seq<char>)
    ensures
        concat(parts.push(t)) == concat(parts) + t,
    decreases parts.len(),
{
    if parts.len() == 0 {
        assert(parts.push(t).skip(1) =~= Seq::<Seq<char>>::empty());
        reveal_with_fuel(concat, 2);
        assert(concat(parts.push(t)) =~= concat(parts) + t);
    } else {
        assert(parts.push(t).skip(1) =~= parts.skip(1).push(t));
        lemma_concat_push(parts.skip(1), t);
        assert(concat(parts.push(t)) =~= concat(parts) + t);
    }
}

/// A cycle is in the state that its text, read whole, leads to.
proof fn lemma_course_is_scan(heard: Seq<Heard>)
    ensures
        ({
            let c = course(heard);
            let whole = scan(false, concat(tokens(heard)));
            &&& c.state.filter.visible == whole.visible
            &&& c.state.filter.capturing == whole.capturing
            &&& c.state.filter.pending == whole.pending
            &&& c.calls == whole.calls.map_values(|body: Seq<char>| call_of(body))
        }),
    decreases heard.len(),
{
    if heard.len() == 0 {
        stream_filter::law_stream_is_its_text(Seq::empty());
        let whole = scan(false, concat(tokens(heard)));
        assert(whole == stream_filter::unread());
        assert(course(heard).calls =~= whole.calls.map_values(|body: Seq<char>| call_of(body)));
    } else {
        lemma_course_is_scan(heard.drop_last());
        match heard.last() {
            Heard::Token(token) => {
                let text = concat(tokens(heard.drop_last()));
                lemma_concat_push(tokens(heard.drop_last()), token);
                stream_filter::law_pieces_do_not_matter(false, text, token);
                let whole = scan(false, concat(tokens(heard)));
                assert(course(heard).calls =~= whole.calls.map_values(
                    |body: Seq<char>| call_of(body),
                ));
            },
            Heard::Report(_) => {},
        }
    }
}

/// The text a cycle shows and the calls it makes, in order, depend on the text of
/// its stream alone: not on how the stream was split into tokens, nor on when the
/// tools reported.
pub proof fn law_cycle_is_its_text(heard: Seq<Heard>)
    ensures
        shown(cycle_log(heard)) == visible_part(concat(tokens(heard))),
        course(heard).calls == scan(false, concat(tokens(heard))).calls.map_values(
            |body: Seq<char>| call_of(body),
        ),
{
    law_shown_is_the_full_text(heard);
    lemma_course_is_scan(heard);
    let whole = scan(false, concat(tokens(heard)));
    if whole.capturing {
        assert(whole.visible + Seq::<char>::empty() =~= whole.visible);
    }
}

/// Pushing `v` after `s` has been heard, when the buffer holds what is kept of `s`
/// up to leading whitespace.
proof fn lemma_voice_step(s: Seq<char>, buf: Seq<char>, v: Seq<char>)
    requires
        trim_start(buf) == trim_start(kept(s)),
    ensures
        sentences(s + v) == sentences(s) + sentences(buf + v),
        trim_start(kept(buf + v)) == trim_start(kept(s + v)),
{
    sentence_buffer::law_pieces_do_not_matter(s, v);
    sentence_buffer::lemma_trimmed_front(buf, v);
    sentence_buffer::lemma_trimmed_front(kept(s), v);
    sentence_buffer::lemma_kept_trimmed(buf + v);
    sentence_buffer::lemma_kept_trimmed(kept(s) + v);
}

/// What has been voiced so far, and what is still to be voiced.
proof fn lemma_voiced_so_far(heard: Seq<Heard>)
    ensures
        ({
            let c = course(heard);
            let visible = c.state.filter.visible;
            &&& voiced(c.log) == sentences(visible)
            &&& trim_start(c.state.unspoken) == trim_start(kept(visible))
        }),
    decreases heard.len(),
{
    if heard.len() == 0 {
        sentence_buffer::lemma_sentence_end(Seq::empty());
        assert(voiced(course(heard).log) =~= sentences(Seq::empty()));
    } else {
        let before = course(heard.drop_last());
        let visible = before.state.filter.visible;
        lemma_voiced_so_far(heard.drop_last());
        match heard.last() {
            Heard::Token(token) => {
                let got = scan(
                    before.state.filter.capturing,
                    before.state.filter.pending + token,
                );
                let step = read_token(before.state, token);
                lemma_token_out(before.state, token);
                lemma_shown_append(before.log, step.out);
                if got.visible.len() == 0 {
                    assert(visible + got.visible =~= visible);
                    assert(voiced(before.log) + voiced(step.out) =~= voiced(before.log));
                } else {
                    lemma_voice_step(visible, before.state.unspoken, got.visible);
                }
            },
            Heard::Report(report) => {
                let e = Emission::Tool(tool_note(report));
                assert(before.log.push(e).drop_last() =~= before.log);
            },
        }
    }
}

/// What a cycle voices is its visible text, sentence by sentence, and then its
/// last words.
pub proof fn law_voice_is_the_text(heard: Seq<Heard>)
    ensures
        voiced(cycle_log(heard)) == speech(full_text(course(heard).state)),
{
    let c = course(heard);
    let st = c.state;
    let visible = st.filter.visible;
    let tail = end_tail(st);
    let first = seq![Emission::State(CharacterState::Thinking)];
    lemma_voiced_so_far(heard);
    lemma_end_out(st);
    lemma_shown_one(Emission::State(CharacterState::Thinking));
    lemma_shown_append(first, c.log);
    lemma_shown_append(first + c.log, read_end(st));
    if tail.len() == 0 {
        assert(visible + tail =~= visible);
        assert(last_words(st.unspoken) == last_words(kept(visible)));
    } else {
        lemma_voice_step(visible, st.unspoken, tail);
        assert(last_words(kept(st.unspoken + tail)) == last_words(kept(visible + tail)));
    }
    assert(voiced(cycle_log(heard)) =~= speech(full_text(st)));
}

/// Whether the character turns to speaking at `i`.
pub open spec fn speaks_at(log: Seq<Emission>, i: int) -> bool {
    0 <= i < log.len() && log[i] == Emission::State(CharacterState::Speaking)
}

/// Whether text is shown at `i`.
pub open spec fn shows_at(log: Seq<Emission>, i: int) -> bool {
    0 <= i < log.len() && log[i] is Token
}

/// Whether the character turns to speaking only just before the first text is
/// shown, and so once at most.
pub open spec fn speaks_in_time(log: Seq<Emission>) -> bool {
    forall|i: int| #[trigger]
        speaks_at(log, i) ==> {
            &&& i + 1 < log.len()
            &&& log[i + 1] is Token
            &&& shows_nothing(log, i)
        }
}

/// Whether the first `n` of a log show no text.
pub open spec fn shows_nothing(log: Seq<Emission>, n: int) -> bool {
    forall|j: int| 0 <= j < n ==> !(#[trigger] log[j] is Token)
}

/// Whether the character turns to speaking among the first `n` of a log.
pub open spec fn spoken_before(log: Seq<Emission>, n: int) -> bool {
    exists|j: int| j < n && #[trigger] speaks_at(log, j)
}

/// Whether no text is shown before the character speaks.
pub open spec fn speaks_first(log: Seq<Emission>) -> bool {
    forall|i: int| #[trigger] shows_at(log, i) ==> spoken_before(log, i)
}

/// Whether a log changes the character's look only to speaking, and neither
/// completes nor fails the answer.
pub open spec fn minds_its_business(log: Seq<Emission>) -> bool {
    forall|i: int|
        0 <= i < log.len() ==> {
            &&& !(#[trigger] log[i] is Done)
            &&& !(log[i] is Error)
            &&& log[i] is State ==> log[i] == Emission::State(CharacterState::Speaking)
        }
}

/// Whether a log is that of a cycle in which the character has spoken or not.
#[verifier::opaque]
spec fn in_shape(log: Seq<Emission>, spoke: bool) -> bool {
    &&& speaks_in_time(log)
    &&& speaks_first(log)
    &&& log.len() > 0
    &&& log[0] == Emission::State(CharacterState::Thinking)
    &&& minds_its_business(log.skip(1))
    &&& if spoke {
        spoken_before(log, log.len() as int)
    } else {
        shows_nothing(log, log.len() as int)
    }
}

/// What is neither text nor a look keeps a log in shape.
proof fn lemma_shape_aside(log: Seq<Emission>, spoke: bool, e: Emission)
    requires
        in_shape(log, spoke),
        e is Speak || e is Tool,
    ensures
        in_shape(log.push(e), spoke),
{
    reveal(in_shape);
    let next = log.push(e);
    let n = log.len() as int;
    assert(next.skip(1) =~= log.skip(1).push(e));
    assert forall|i: int| #[trigger] speaks_at(next, i) implies {
        &&& i + 1 < next.len()
        &&& next[i + 1] is Token
        &&& shows_nothing(next, i)
    } by {
        assert(speaks_at(log, i));
    }
    assert forall|i: int| #[trigger] shows_at(next, i) implies spoken_before(next, i) by {
        assert(shows_at(log, i));
        let j = choose|j: int| j < i && #[trigger] speaks_at(log, j);
        assert(speaks_at(next, j));
    }
    if spoke {
        let j = choose|j: int| j < n && #[trigger] speaks_at(log, j);
        assert(speaks_at(next, j));
    }
}

/// Where nothing has been shown, the character speaks and then shows text in shape.
proof fn lemma_shape_first_text(log: Seq<Emission>, text: Seq<char>)
    requires
        in_shape(log, false),
    ensures
        in_shape(
            log + seq![Emission::State(CharacterState::Speaking), Emission::Token(text)],
            true,
        ),
{
    reveal(in_shape);
    let more = seq![Emission::State(CharacterState::Speaking), Emission::Token(text)];
    let next = log + more;
    let n = log.len() as int;
    assert(next.skip(1) =~= log.skip(1) + more);
    assert(speaks_at(next, n));
    assert forall|i: int| #[trigger] speaks_at(next, i) implies {
        &&& i + 1 < next.len()
        &&& next[i + 1] is Token
        &&& shows_nothing(next, i)
    } by {
        if i < n {
            assert(speaks_at(log, i));
        }
    }
    assert forall|i: int| #[trigger] shows_at(next, i) implies spoken_before(next, i) by {
        if i < n {
            assert(shows_at(log, i));
        }
    }
}

/// Where the character has spoken, more text is shown in shape.
proof fn lemma_shape_more_text(log: Seq<Emission>, text: Seq<char>)
    requires
        in_shape(log, true),
    ensures
        in_shape(log.push(Emission::Token(text)), true),
{
    reveal(in_shape);
    let next = log.push(Emission::Token(text));
    let n = log.len() as int;
    assert(next.skip(1) =~= log.skip(1).push(Emission::Token(text)));
    assert forall|i: int| #[trigger] speaks_at(next, i) implies {
        &&& i + 1 < next.len()
        &&& next[i + 1] is Token
        &&& shows_nothing(next, i)
    } by {
        assert(speaks_at(log, i));
    }
    let k = choose|k: int| k < n && #[trigger] speaks_at(log, k);
    assert(speaks_at(next, k));
    assert forall|i: int| #[trigger] shows_at(next, i) implies spoken_before(next, i) by {
        if i < n {
            assert(shows_at(log, i));
            let j = choose|j: int| j < i && #[trigger] speaks_at(log, j);
            assert(speaks_at(next, j));
        }
    }
}

/// Sentences are voiced in shape.
proof fn lemma_shape_speeches(log: Seq<Emission>, spoke: bool, said: Seq<Seq<char>>)
    requires
        in_shape(log, spoke),
    ensures
        in_shape(log + speeches(said), spoke),
    decreases said.len(),
{
    if said.len() == 0 {
        assert(log + speeches(said) =~= log);
    } else {
        let before = log + speeches(said.drop_last());
        lemma_shape_speeches(log, spoke, said.drop_last());
        lemma_shape_aside(before, spoke, Emission::Speak(said.last()));
        assert(log + speeches(said) =~= before.push(Emission::Speak(said.last())));
    }
}

/// Text is shown, and sentences are voiced, in shape.
proof fn lemma_shape_showing(
    log: Seq<Emission>,
    spoke: bool,
    text: Seq<char>,
    said: Seq<Seq<char>>,
)
    requires
        in_shape(log, spoke),
    ensures
        in_shape(log + showing(spoke, text, said), true),
{
    let before = if spoke {
        log.push(Emission::Token(text))
    } else {
        log + seq![Emission::State(CharacterState::Speaking), Emission::Token(text)]
    };
    if spoke {
        lemma_shape_more_text(log, text);
    } else {
        lemma_shape_first_text(log, text);
    }
    lemma_shape_speeches(before, true, said);
    assert(before + speeches(said) =~= log + showing(spoke, text, said));
}

/// All that a running cycle has put out.
spec fn running_log(heard: Seq<Heard>) -> Seq<Emission> {
    seq![Emission::State(CharacterState::Thinking)] + course(heard).log
}

/// A running cycle is in shape.
proof fn lemma_running_shape(heard: Seq<Heard>)
    ensures
        in_shape(running_log(heard), course(heard).state.spoke),
    decreases heard.len(),
{
    if heard.len() == 0 {
        reveal(in_shape);
        assert(running_log(heard).skip(1) =~= Seq::empty());
    } else {
        let before = course(heard.drop_last());
        let log = running_log(heard.drop_last());
        lemma_running_shape(heard.drop_last());
        match heard.last() {
            Heard::Token(token) => {
                let got = scan(
                    before.state.filter.capturing,
                    before.state.filter.pending + token,
                );
                let step = read_token(before.state, token);
                if got.visible.len() > 0 {
                    lemma_shape_showing(
                        log,
                        before.state.spoke,
                        got.visible,
                        sentences(before.state.unspoken + got.visible),
                    );
                }
                assert(running_log(heard) =~= log + step.out);
                assert(log + Seq::<Emission>::empty() =~= log);
            },
            Heard::Report(report) => {
                let e = Emission::Tool(tool_note(report));
                lemma_shape_aside(log, before.state.spoke, e);
                assert(running_log(heard) =~= log.push(e));
            },
        }
    }
}

/// A whole cycle is in shape, whether or not the character has spoken in it.
proof fn lemma_cycle_shape(heard: Seq<Heard>)
    ensures
        in_shape(cycle_log(heard), true) || in_shape(cycle_log(heard), false),
{
    let st = course(heard).state;
    let log = running_log(heard);
    let tail = end_tail(st);
    let text = st.unspoken + tail;
    lemma_running_shape(heard);
    let (front, rest) = if tail.len() == 0 {
        (Seq::empty(), st.unspoken)
    } else {
        (showing(st.spoke, tail, sentences(text)), kept(text))
    };
    let spoke = st.spoke || tail.len() > 0;
    if tail.len() == 0 {
        assert(log + front =~= log);
    } else {
        lemma_shape_showing(log, st.spoke, tail, sentences(text));
    }
    match last_words(rest) {
        Some(words) => {
            lemma_shape_aside(log + front, spoke, Emission::Speak(words));
            assert(cycle_log(heard) =~= (log + front).push(Emission::Speak(words)));
        },
        None => {
            assert(cycle_log(heard) =~= log + front);
        },
    }
}

/// In every cycle the character first thinks, and speaks before any text is
/// shown: it turns to speaking just before the first text and at no other time.
/// Nothing else changes its look before it is decided how to go on, and till then
/// the answer is neither completed nor failed.
pub proof fn law_speaking_begins_with_the_text(heard: Seq<Heard>)
    ensures
        cycle_log(heard)[0] == Emission::State(CharacterState::Thinking),
        speaks_in_time(cycle_log(heard)),
        speaks_first(cycle_log(heard)),
        minds_its_business(cycle_log(heard).skip(1)),
{
    lemma_cycle_shape(heard);
    reveal(in_shape);
}

// ---------------------------------------------------------------------------
// The whole answer
// ---------------------------------------------------------------------------

/// One cycle of an answer: what is heard, and how the engine ends.
pub struct Cycle {
    pub heard: Seq<Heard>,
    pub result: Result<(), Seq<char>>,
}

/// What becomes of an answer.
pub struct Answer {
    pub log: Seq<Emission>,
    pub history: Memory,
    /// Number of cycles run.
    pub used: nat,
    /// Whether the answer has been completed or has failed.
    pub finished: bool,
}

/// The answer from a point between cycles on, if the engine would go through
/// `cycles`.
pub open spec fn answer(st: Progress, history: Memory, cycles: Seq<Cycle>) -> Answer
    decreases cycles.len(),
{
    if cycles.len() == 0 {
        Answer { log: Seq::empty(), history, used: 0, finished: false }
    } else {
        let heard = cycles[0].heard;
        let state = course(heard).state;
        let end = end_cycle(st, history, cycles[0].result, full_text(state), state.follow_ups);
        let log = cycle_log(heard) + end.out;
        if end.again {
            let rest = answer(end.next, end.history, cycles.skip(1));
            Answer {
                log: log + rest.log,
                history: rest.history,
                used: rest.used + 1,
                finished: rest.finished,
            }
        } else {
            Answer { log, history: end.history, used: 1, finished: true }
        }
    }
}

/// However often tools ask for more, an answer takes at most the allowed number
/// of cycles; and once the engine has gone through that many, it is finished.
pub proof fn law_cycles_are_capped(st: Progress, history: Memory, cycles: Seq<Cycle>)
    requires
        0 <= st.pass < MAX_TOOL_CYCLES,
    ensures
        answer(st, history, cycles).used <= MAX_TOOL_CYCLES - st.pass,
        cycles.len() >= MAX_TOOL_CYCLES - st.pass ==> answer(st, history, cycles).finished,
    decreases cycles.len(),
{
    if cycles.len() > 0 {
        let state = course(cycles[0].heard).state;
        let end = end_cycle(st, history, cycles[0].result, full_text(state), state.follow_ups);
        if end.again {
            law_cycles_are_capped(end.next, end.history, cycles.skip(1));
        }
    }
}

/// A cycle in which no tool left context is the last.
pub proof fn law_no_context_no_further_cycle(st: Progress, history: Memory, cycles: Seq<Cycle>)
    requires
        cycles.len() > 0,
        course(cycles[0].heard).state.follow_ups.len() == 0,
    ensures
        answer(st, history, cycles).used == 1,
        answer(st, history, cycles).finished,
{
}

/// Whether `e` ends an answer.
pub open spec fn is_verdict(e: Emission) -> bool {
    e is Done || e is Error
}

/// Whether a log is that of a finished answer: the character first thinks and
/// at last is idle; just before, the answer is completed or fails, and neither
/// happens earlier, nor is the character idle or alert earlier.
pub open spec fn well_told(log: Seq<Emission>) -> bool {
    let n = log.len();
    &&& n >= 3
    &&& log[0] == Emission::State(CharacterState::Thinking)
    &&& log[n - 1] == Emission::State(CharacterState::Idle)
    &&& is_verdict(log[n - 2])
    &&& forall|i: int| 0 <= i < n - 2 ==> quiet(#[trigger] log[i])
}

/// Whether `e` leaves an answer unfinished: it is no verdict, and the character
/// is neither idle nor alert after it.
pub open spec fn quiet(e: Emission) -> bool {
    &&& !is_verdict(e)
    &&& e != Emission::State(CharacterState::Idle)
    &&& e != Emission::State(CharacterState::Alert)
}

proof fn lemma_cycle_is_quiet(heard: Seq<Heard>)
    ensures
        cycle_log(heard).len() >= 1,
        cycle_log(heard)[0] == Emission::State(CharacterState::Thinking),
        forall|i: int| 0 <= i < cycle_log(heard).len() ==> quiet(#[trigger] cycle_log(heard)[i]),
{
    let log = cycle_log(heard);
    law_speaking_begins_with_the_text(heard);
    assert forall|i: int| 0 <= i < log.len() implies quiet(#[trigger] log[i]) by {
        if i > 0 {
            assert(log[i] == log.skip(1)[i - 1]);
        }
    }
}

/// Every finished answer is told well: the character thinks first and is idle at
/// last, and there is exactly one verdict, just before the character turns idle.
pub proof fn law_answer_ends_idle(st: Progress, history: Memory, cycles: Seq<Cycle>)
    requires
        answer(st, history, cycles).finished,
    ensures
        well_told(answer(st, history, cycles).log),
    decreases cycles.len(),
{
    let a = answer(st, history, cycles);
    let heard = cycles[0].heard;
    let state = course(heard).state;
    let end = end_cycle(st, history, cycles[0].result, full_text(state), state.follow_ups);
    let own = cycle_log(heard);
    lemma_cycle_is_quiet(heard);
    let n = own.len() as int;
    if end.again {
        let rest = answer(end.next, end.history, cycles.skip(1));
        law_answer_ends_idle(end.next, end.history, cycles.skip(1));
        assert(own + end.out =~= own);
        assert(a.log == own + rest.log);
        let m = a.log.len();
        assert(a.log[m - 1] == rest.log[rest.log.len() - 1]);
        assert(a.log[m - 2] == rest.log[rest.log.len() - 2]);
        assert forall|i: int| 0 <= i < m - 2 implies quiet(#[trigger] a.log[i]) by {
            if i < n {
                assert(a.log[i] == own[i]);
            } else {
                assert(a.log[i] == rest.log[i - n]);
            }
        }
    } else {
        let m = a.log.len();
        assert(a.log[m - 1] == end.out[1]);
        assert(a.log[m - 2] == end.out[0]);
        assert forall|i: int| 0 <= i < m - 2 implies quiet(#[trigger] a.log[i]) by {
            assert(a.log[i] == own[i]);
        }
    }
}

/// A completed answer reports exactly the text that was shown on the way, over all
/// its cycles.
pub proof fn law_done_is_what_was_shown(st: Progress, history: Memory, cycles: Seq<Cycle>)
    requires
        answer(st, history, cycles).finished,
    ensures
        ({
            let log = answer(st, history, cycles).log;
            log[log.len() - 2] matches Emission::Done(text) ==> text == st.transcript + shown(log)
        }),
    decreases cycles.len(),
{
    let a = answer(st, history, cycles);
    let heard = cycles[0].heard;
    let state = course(heard).state;
    let end = end_cycle(st, history, cycles[0].result, full_text(state), state.follow_ups);
    let own = cycle_log(heard);
    law_shown_is_the_full_text(heard);
    law_answer_ends_idle(st, history, cycles);
    if end.again {
        let rest = answer(end.next, end.history, cycles.skip(1));
        law_answer_ends_idle(end.next, end.history, cycles.skip(1));
        law_done_is_what_was_shown(end.next, end.history, cycles.skip(1));
        assert(own + end.out =~= own);
        lemma_shown_append(own, rest.log);
        assert(a.log[a.log.len() - 2] == rest.log[rest.log.len() - 2]);
        assert(st.transcript + full_text(state) + shown(rest.log) =~= st.transcript + shown(a.log));
    } else {
        lemma_shown_append(own, end.out);
        lemma_shown_append(seq![end.out[0]], seq![end.out[1]]);
        assert(end.out =~= seq![end.out[0]] + seq![end.out[1]]);
        lemma_shown_one(end.out[0]);
        lemma_shown_one(end.out[1]);
        assert(shown(a.log) =~= full_text(state));
        assert(a.log[a.log.len() - 2] == end.out[0]);
    }
}

/// A history within its bound stays within it, whatever the answer pushes.
pub proof fn law_history_stays_bounded(st: Progress, history: Memory, cycles: Seq<Cycle>)
    requires
        history.wf(),
    ensures
        answer(st, history, cycles).history.wf(),
        answer(st, history, cycles).history.max == history.max,
    decreases cycles.len(),
{
    if cycles.len() > 0 {
        let state = course(cycles[0].heard).state;
        let end = end_cycle(st, history, cycles[0].result, full_text(state), state.follow_ups);
        lemma_end_keeps_bound(st, history, cycles[0].result, full_text(state), state.follow_ups);
        if end.again {
            law_history_stays_bounded(end.next, end.history, cycles.skip(1));
        }
    }
}

proof fn lemma_end_keeps_bound(
    st: Progress,
    history: Memory,
    result: Result<(), Seq<char>>,
    text: Seq<char>,
    follow_ups: Seq<Seq<char>>,
)
    requires
        history.wf(),
    ensures
        end_cycle(st, history, result, text, follow_ups).history.wf(),
        end_cycle(st, history, result, text, follow_ups).history.max == history.max,
{
    match result {
        Ok(_) => {
            let said = history.pushed(
                Message { role: Role::Assistant, content: text },
            );
            lemma_contexts_keep_bound(said, follow_ups);
        },
        Err(_) => {},
    }
}

proof fn lemma_contexts_keep_bound(history: Memory, contexts: Seq<Seq<char>>)
    requires
        history.wf(),
    ensures
        with_contexts(history, contexts).wf(),
        with_contexts(history, contexts).max == history.max,
    decreases contexts.len(),
{
    if contexts.len() > 0 {
        lemma_contexts_keep_bound(history, contexts.drop_last());
    }
}

// ---------------------------------------------------------------------------
// What the model is given
// ---------------------------------------------------------------------------

/// The engine is given the system prompt first and then the whole history, message by
/// message, and nothing else.
pub proof fn law_engine_is_given_the_whole_history(system: Seq<char>, history: Seq<Message>)
    ensures
        ({
            let given = conversation(system, history);
            &&& given.len() == history.len() + 1
            &&& given[0].role == Role::System
            &&& given[0].content == system
            &&& forall|i: int| 0 <= i < history.len() ==> #[trigger] given[i + 1] == history[i]
        }),
{
}

/// When tools have left context and a further cycle is allowed, there is one; and
/// where the window has room, the history it goes on with is the history before, the
/// assistant's text, and one user message for each context, all in order.
pub proof fn law_every_context_is_given_to_the_next_cycle(
    st: Progress,
    history: Memory,
    text: Seq<char>,
    contexts: Seq<Seq<char>>,
)
    requires
        contexts.len() > 0,
        st.pass + 1 < 3,
        !blank(text),
        forall|i: int| 0 <= i < contexts.len() ==> !blank(#[trigger] contexts[i]),
        history.messages.len() + 1 + contexts.len() <= history.max,
    ensures
        ({
            let end = end_cycle(st, history, Ok(()), text, contexts);
            let n = history.messages.len();
            let after = end.history.messages;
            &&& end.again
            &&& after.len() == n + 1 + contexts.len()
            &&& forall|i: int| 0 <= i < n ==> #[trigger] after[i] == history.messages[i]
            &&& after[n as int].role == Role::Assistant
            &&& after[n as int].content == text
            &&& forall|i: int|
                0 <= i < contexts.len() ==> (#[trigger] after[n + 1 + i]).role == Role::User
                    && after[n + 1 + i].content == contexts[i]
        }),
{
    law_history_after_a_cycle(st, history, text, contexts);
    let p = |c: Seq<char>| !blank(c);
    lemma_filter_all(contexts, p);
    let users = contexts.map_values(|c: Seq<char>| Message { role: Role::User, content: c });
    let said = history.messages.push(Message { role: Role::Assistant, content: text });
    let after = end_cycle(st, history, Ok(()), text, contexts).history.messages;
    assert((said + users).skip(0) =~= said + users);
    assert(after =~= said + users);
    let n = history.messages.len();
    assert forall|i: int| 0 <= i < contexts.len() implies (#[trigger] after[n + 1 + i]).role
        == Role::User && after[n + 1 + i].content == contexts[i] by {
        assert(after[n + 1 + i] == users[i]);
    }
}

proof fn lemma_filter_all(s: Seq<Seq<char>>, p: spec_fn(Seq<char>) -> bool)
    requires
        forall|i: int| 0 <= i < s.len() ==> p(#[trigger] s[i]),
    ensures
        s.filter(p) == s,
    decreases s.len(),
{
    reveal(Seq::filter);
    if s.len() > 0 {
        assert(p(s[s.len() - 1]));
        assert forall|i: int| 0 <= i < s.drop_last().len() implies p(
            #[trigger] s.drop_last()[i],
        ) by {
            assert(s.drop_last()[i] == s[i]);
        }
        lemma_filter_all(s.drop_last(), p);
        assert(s.drop_last().push(s.last()) =~= s);
    }
    assert(s.filter(p) =~= s);
}

/// After a cycle the history has gained the assistant's text and, where another cycle
/// follows, every context as a user message, in order, blank ones aside; it holds the
/// most recent of all these.
pub proof fn law_history_after_a_cycle(
    st: Progress,
    history: Memory,
    text: Seq<char>,
    contexts: Seq<Seq<char>>,
)
    requires
        history.messages.len() <= history.max,
    ensures
        ({
            let end = end_cycle(st, history, Ok(()), text, contexts);
            let said = if blank(text) {
                history.messages
            } else {
                history.messages.push(Message { role: Role::Assistant, content: text })
            };
            let users = contexts.filter(|c: Seq<char>| !blank(c)).map_values(
                |c: Seq<char>| Message { role: Role::User, content: c },
            );
            let all = if end.again {
                said + users
            } else {
                said
            };
            &&& end.again == (contexts.len() > 0 && st.pass + 1 < 3)
            &&& end.history.max == history.max
            &&& end.history.messages == if all.len() > history.max {
                all.skip(all.len() - history.max)
            } else {
                all
            }
        }),
{
    let said = history.pushed(Message { role: Role::Assistant, content: text });
    let all = if blank(text) {
        history.messages
    } else {
        history.messages.push(Message { role: Role::Assistant, content: text })
    };
    lemma_contexts_pushed(said, all, contexts);
}

proof fn lemma_contexts_pushed(h: Memory, all: Seq<Message>, contexts: Seq<Seq<char>>)
    requires
        h.messages == if all.len() > h.max {
            all.skip(all.len() - h.max)
        } else {
            all
        },
    ensures
        ({
            let users = contexts.filter(|c: Seq<char>| !blank(c)).map_values(
                |c: Seq<char>| Message { role: Role::User, content: c },
            );
            let whole = all + users;
            &&& with_contexts(h, contexts).max == h.max
            &&& with_contexts(h, contexts).messages == if whole.len() > h.max {
                whole.skip(whole.len() - h.max)
            } else {
                whole
            }
        }),
    decreases contexts.len(),
{
    reveal(Seq::filter);
    let p = |c: Seq<char>| !blank(c);
    let f = |c: Seq<char>| Message { role: Role::User, content: c };
    let users = contexts.filter(p).map_values(f);
    if contexts.len() == 0 {
        assert(all + users =~= all);
    } else {
        let front = contexts.drop_last();
        let c = contexts.last();
        let before = front.filter(p).map_values(f);
        lemma_contexts_pushed(h, all, front);
        if blank(c) {
            assert(users =~= before);
        } else {
            assert(users =~= before.push(f(c)));
            let whole = all + before;
            assert(all + users =~= whole.push(f(c)));
            let held = with_contexts(h, front).messages;
            let next = held.push(f(c));
            let expected = if whole.len() + 1 > h.max {
                whole.push(f(c)).skip(whole.len() + 1 - h.max)
            } else {
                whole.push(f(c))
            };
            if next.len() > h.max {
                assert(next.skip(next.len() - h.max) =~= expected);
            } else {
                assert(next =~= expected);
            }
        }
    }
}

/// A cycle that succeeded adds its text to the transcript. If another follows, nothing
/// is put out between them and the next has the next index; else the whole transcript
/// is reported, and the character turns idle. A failed cycle reports why, changes
/// neither history nor transcript, and is the last.
pub proof fn law_end_of_a_cycle(
    st: Progress,
    history: Memory,
    why: Seq<char>,
    text: Seq<char>,
    contexts: Seq<Seq<char>>,
)
    ensures
        ({
            let end = end_cycle(st, history, Ok(()), text, contexts);
            &&& end.next.transcript == st.transcript + text
            &&& end.again ==> end.out.len() == 0 && end.next.pass == st.pass + 1
            &&& !end.again ==> end.next.pass == st.pass && end.out.len() == 2 && end.out[0]
                == Emission::Done(st.transcript + text) && end.out[1] == Emission::State(
                CharacterState::Idle,
            )
        }),
        ({
            let end = end_cycle(st, history, Err(why), text, contexts);
            &&& !end.again
            &&& end.next == st
            &&& end.history == history
            &&& end.out.len() == 2
            &&& end.out[0] == Emission::Error(why)
            &&& end.out[1] == Emission::State(CharacterState::Idle)
        }),
{
}

/// What a tool reports reaches the user and the model: its summary is shown as it is,
/// and its context is kept for the next cycle after all earlier ones. A tool that
/// failed is reported with its error in full, to both. A token leaves the contexts as
/// they are.
pub proof fn law_reports_reach_user_and_model(
    heard: Seq<Heard>,
    summary: Seq<char>,
    context: Seq<char>,
    why: Seq<char>,
    token: Seq<char>,
)
    ensures
        ({
            let c = course(heard);
            let with_context = course(
                heard.push(
                    Heard::Report(Report::Success { summary, follow_up: Some(context) }),
                ),
            );
            let without = course(
                heard.push(Heard::Report(Report::Success { summary, follow_up: None })),
            );
            let failed = course(heard.push(Heard::Report(Report::Failure(why))));
            let read = course(heard.push(Heard::Token(token)));
            &&& with_context.log == c.log.push(Emission::Tool(summary))
            &&& with_context.state.follow_ups == c.state.follow_ups.push(context)
            &&& without.log == c.log.push(Emission::Tool(summary))
            &&& without.state.follow_ups == c.state.follow_ups
            &&& failed.log == c.log.push(Emission::Tool("Falha ao executar comando: "@ + why))
            &&& failed.state.follow_ups == c.state.follow_ups.push(
                "A última ferramenta falhou: "@ + why
                    + ". Analise o erro e tente uma abordagem alternativa, ou explique ao usuário se não for possível."@,
            )
            &&& read.state.follow_ups == c.state.follow_ups
        }),
{
    assert(heard.push(
        Heard::Report(Report::Success { summary, follow_up: Some(context) }),
    ).drop_last() =~= heard);
    assert(heard.push(
        Heard::Report(Report::Success { summary, follow_up: None }),
    ).drop_last() =~= heard);
    assert(heard.push(Heard::Report(Report::Failure(why))).drop_last() =~= heard);
    assert(heard.push(Heard::Token(token)).drop_last() =~= heard);
}

/// A tool's result is reported as it is: the whole summary and context, or the whole
/// message of its error.
pub proof fn law_report_is_the_result(outcome: ToolOutcome, e: AppError)
    ensures
        report_of(Ok(outcome)) == (Report::Success {
            summary: outcome.summary@,
            follow_up: match outcome.follow_up {
                Some(context) => Some(context@),
                None => None,
            },
        }),
        report_of(Err(e)) == Report::Failure(e.says()),
{
}

/// An output as a value is of the same kind and holds all of its text; outputs and
/// calls keep their number and order.
pub proof fn law_output_is_the_content(
    text: String,
    state: CharacterState,
    outs: Seq<Output>,
    calls: Seq<ToolCall>,
)
    ensures
        Output::State(state)@ == Emission::State(state),
        Output::Token(text)@ == Emission::Token(text@),
        Output::Speak(text)@ == Emission::Speak(text@),
        Output::Tool(text)@ == Emission::Tool(text@),
        Output::Done(text)@ == Emission::Done(text@),
        Output::Error(text)@ == Emission::Error(text@),
        emissions(outs).len() == outs.len(),
        forall|i: int| 0 <= i < outs.len() ==> #[trigger] emissions(outs)[i] == outs[i]@,
        calls_of(calls).len() == calls.len(),
        forall|i: int| 0 <= i < calls.len() ==> #[trigger] calls_of(calls)[i] == calls[i]@,
{
}

/// The frontend hears each kind of output on its own event; speech goes elsewhere.
pub proof fn law_outputs_go_to_their_events(text: String, state: CharacterState)
    ensures
        Output::State(state).channel() == Some("character://state"@),
        Output::Token(text).channel() == Some("llm://token"@),
        Output::Tool(text).channel() == Some("tool://executed"@),
        Output::Done(text).channel() == Some("llm://done"@),
        Output::Error(text).channel() == Some("llm://error"@),
        Output::Speak(text).channel() is None,
{
}

/// What a token lets through is shown at once and in one piece, behind the turn to
/// speaking where the character has not spoken; the sentences it completes are voiced
/// after it, in order. A token that lets nothing through puts nothing out.
pub proof fn law_text_is_shown_and_then_voiced(st: Reading, token: Seq<char>)
    ensures
        ({
            let text = scan(st.filter.capturing, st.filter.pending + token).visible;
            let out = read_token(st, token).out;
            let said = sentences(st.unspoken + text);
            let k = if st.spoke {
                0int
            } else {
                1
            };
            &&& text.len() == 0 ==> out.len() == 0
            &&& text.len() > 0 ==> {
                &&& out.len() == k + 1 + said.len()
                &&& !st.spoke ==> out[0] == Emission::State(CharacterState::Speaking)
                &&& out[k] == Emission::Token(text)
                &&& forall|i: int|
                    0 <= i < said.len() ==> #[trigger] out[k + 1 + i] == Emission::Speak(said[i])
                &&& read_token(st, token).next.spoke
            }
        }),
{
}

/// At the end of the stream the text that was held back is shown at once and in one
/// piece, likewise behind the turn to speaking; after it come the sentences that it
/// completes, in order, and then the last words.
pub proof fn law_held_back_text_is_shown_and_then_voiced(st: Reading)
    ensures
        ({
            let tail = if st.filter.capturing {
                Seq::empty()
            } else {
                st.filter.pending
            };
            let out = read_end(st);
            let said = if tail.len() == 0 {
                Seq::empty()
            } else {
                sentences(st.unspoken + tail)
            };
            let rest = if tail.len() == 0 {
                st.unspoken
            } else {
                kept(st.unspoken + tail)
            };
            let k = if tail.len() == 0 {
                0int
            } else if st.spoke {
                1
            } else {
                2
            };
            &&& tail.len() > 0 ==> out[k - 1] == Emission::Token(tail)
            &&& tail.len() > 0 && !st.spoke ==> out[0] == Emission::State(CharacterState::Speaking)
            &&& forall|i: int|
                0 <= i < said.len() ==> #[trigger] out[k + i] == Emission::Speak(said[i])
            &&& match last_words(rest) {
                Some(words) => out.len() == k + said.len() + 1 && out.last() == Emission::Speak(
                    words,
                ),
                None => out.len() == k + said.len(),
            }
        }),
{
}

/// An engine's failure is reported with its whole message.
pub proof fn law_result_is_the_content(why: String)
    ensures
        result_of(Ok(())) is Ok,
        result_of(Err(why)) == Err::<(), Seq<char>>(why@),
{
}

} // verus!
