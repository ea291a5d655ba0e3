//! Short-term conversational memory + ChatML formatting (Qwen2.5-Instruct).
//!
//! A bounded rolling window of recent turns is kept in memory for the current
//! session. The window is rendered into Qwen's strict ChatML layout so the
//! model stays coherent (raw prompts cause hallucination loops).

use std::collections::VecDeque;

use vstd::prelude::*;
use vstd::std_specs::iter::IteratorSpec;

use crate::text::{blank, is_blank, is_white, lemma_trim_end, trim_end};

verus! {

#[derive(Debug, Clone, Copy, PartialEq, Eq, Structural)]
pub enum Role {
    System,
    User,
    Assistant,
}

impl Role {
    /// The name of the role in ChatML.
    pub open spec fn tag_text(self) -> Seq<char> {
        match self {
            Role::System => "system"@,
            Role::User => "user"@,
            Role::Assistant => "assistant"@,
        }
    }

    pub fn tag(self) -> (r: &'static str)
        ensures
            r@ == self.tag_text(),
    {
        match self {
            Role::System => "system",
            Role::User => "user",
            Role::Assistant => "assistant",
        }
    }
}

#[derive(Debug)]
pub struct ChatMessage {
    pub role: Role,
    pub content: String,
}

/// A message as a value.
pub struct Message {
    pub role: Role,
    pub content: Seq<char>,
}

impl View for ChatMessage {
    type V = Message;

    open spec fn view(&self) -> Message {
        Message { role: self.role, content: self.content@ }
    }
}

impl ChatMessage {
    pub fn new(role: Role, content: String) -> (r: Self)
        ensures
            r.role == role,
            r.content == content,
    {
        ChatMessage { role, content }
    }
}

impl Clone for ChatMessage {
    fn clone(&self) -> (r: Self)
        ensures
            r == *self,
    {
        ChatMessage { role: self.role, content: self.content.clone() }
    }
}

/// The messages of a sequence, as values.
pub open spec fn messages_of(s: Seq<ChatMessage>) -> Seq<Message> {
    s.map_values(|m: ChatMessage| m@)
}

/// The last `max` items of `s`, or all of them if there are fewer.
pub open spec fn window<T>(s: Seq<T>, max: nat) -> Seq<T> {
    if s.len() > max {
        s.skip(s.len() - max)
    } else {
        s
    }
}

/// What a history holds and how much it may hold.
pub struct Memory {
    pub messages: Seq<Message>,
    pub max: nat,
}

impl Memory {
    /// The window is never overfull.
    pub open spec fn wf(self) -> bool {
        self.messages.len() <= self.max
    }

    /// The history after `m` is pushed: blank messages leave no trace, others
    /// enter at the end and push the oldest out of a full window.
    pub open spec fn pushed(self, m: Message) -> Memory {
        if blank(m.content) {
            self
        } else {
            Memory { messages: window(self.messages.push(m), self.max), max: self.max }
        }
    }
}

/// Bounded rolling window of recent user/assistant messages.
#[derive(Debug)]
pub struct History {
    messages: VecDeque<ChatMessage>,
    /// Max stored messages (two per turn).
    max_messages: usize,
}

impl View for History {
    type V = Memory;

    closed spec fn view(&self) -> Memory {
        Memory { messages: messages_of(self.messages@), max: self.max_messages as nat }
    }
}

impl History {
    /// `max_turns` user/assistant pairs are retained.
    pub fn new(max_turns: usize) -> (r: Self)
        requires
            max_turns * 2 <= usize::MAX,
        ensures
            r@.messages == Seq::<Message>::empty(),
            r@.max == max_turns * 2,
            r@.wf(),
    {
        let r = History { messages: VecDeque::new(), max_messages: max_turns * 2 };
        assert(messages_of(r.messages@) =~= Seq::<Message>::empty());
        r
    }

    pub fn push_user(&mut self, content: String)
        ensures
            final(self)@ == old(self)@.pushed(Message { role: Role::User, content: content@ }),
            old(self)@.wf() ==> final(self)@.wf(),
    {
        self.push(Role::User, content);
    }

    pub fn push_assistant(&mut self, content: String)
        ensures
            final(self)@ == old(self)@.pushed(
                Message { role: Role::Assistant, content: content@ },
            ),
            old(self)@.wf() ==> final(self)@.wf(),
    {
        self.push(Role::Assistant, content);
    }

    fn push(&mut self, role: Role, content: String)
        ensures
            final(self)@ == old(self)@.pushed(Message { role, content: content@ }),
            old(self)@.wf() ==> final(self)@.wf(),
    {
        if is_blank(content.as_str()) {
            return;
        }
        let ghost before = self@;
        let ghost m = Message { role, content: content@ };
        self.messages.push_back(ChatMessage { role, content });
        let ghost full = self.messages@;
        assert(messages_of(full) =~= before.messages.push(m));
        let ghost mut dropped: int = 0;
        assert(full.skip(0) =~= full);
        while self.messages.len() > self.max_messages
            invariant
                0 <= dropped <= full.len(),
                self.messages@ == full.skip(dropped),
                dropped > 0 ==> full.len() - dropped >= self.max_messages,
                self.max_messages == before.max,
            decreases self.messages.len(),
        {
            let _ = self.messages.pop_front();
            proof {
                assert(full.skip(dropped).skip(1) =~= full.skip(dropped + 1));
                assert(full.skip(dropped).subrange(1, full.len() - dropped) =~= full.skip(
                    dropped + 1,
                ));
                dropped = dropped + 1;
            }
        }
        assert(messages_of(self.messages@) =~= window(messages_of(full), before.max));
    }

    pub fn len(&self) -> (r: usize)
        ensures
            r == self@.messages.len(),
    {
        self.messages.len()
    }

    pub fn is_empty(&self) -> (r: bool)
        ensures
            r == (self@.messages.len() == 0),
    {
        self.messages.len() == 0
    }

    /// The messages, oldest first.
    pub fn iter(&self) -> (r: std::collections::vec_deque::Iter<'_, ChatMessage>)
        ensures
            messages_of(IteratorSpec::remaining(&r).unref()) == self@.messages,
            IteratorSpec::decrease(&r) is Some,
            IteratorSpec::initial_value_relation(&r, &r),
    {
        self.messages.iter()
    }
}

/// One closed turn in ChatML.
pub open spec fn turn(m: Message) -> Seq<char> {
    "<|im_start|>"@ + m.role.tag_text() + "\n"@ + m.content + "<|im_end|>\n"@
}

/// Closed turns in ChatML, oldest first.
pub open spec fn turns(s: Seq<Message>) -> Seq<char>
    decreases s.len(),
{
    if s.len() == 0 {
        Seq::empty()
    } else {
        turns(s.drop_last()) + turn(s.last())
    }
}

/// The whole prompt: system turn, history, and the assistant's turn left open.
pub open spec fn chatml(system: Seq<char>, s: Seq<Message>) -> Seq<char> {
    "<|im_start|>system\n"@ + system + "<|im_end|>\n"@ + turns(s) + "<|im_start|>assistant\n"@
}

/// Render the system prompt + rolling history into a ChatML prompt, ending with
/// an open assistant turn (no trailing `<|im_end|>`), so the model generates
/// from `<|im_start|>assistant\n`.
pub fn to_chatml(system: &str, history: &History) -> (r: String)
    ensures
        r@ == chatml(system@, history@.messages),
{
    let mut out = String::new();
    out.append("<|im_start|>system\n");
    out.append(system);
    out.append("<|im_end|>\n");
    let ghost head = out@;
    let ghost ms = history@.messages;

    let mut i: usize = 0;
    while i < history.messages.len()
        invariant
            i <= history.messages.len(),
            ms == messages_of(history.messages@),
            out@ == head + turns(ms.take(i as int)),
        decreases history.messages.len() - i,
    {
        let msg = &history.messages[i];
        out.append("<|im_start|>");
        out.append(msg.role.tag());
        out.append("\n");
        out.append(msg.content.as_str());
        out.append("<|im_end|>\n");
        proof {
            assert(ms.take(i + 1).drop_last() =~= ms.take(i as int));
            assert(ms.take(i + 1).last() == msg@);
            assert(out@ =~= head + (turns(ms.take(i as int)) + turn(msg@)));
        }
        i += 1;
    }
    assert(ms.take(i as int) =~= ms);

    out.append("<|im_start|>assistant\n");
    out
}

// ---------------------------------------------------------------------------
// Laws
// ---------------------------------------------------------------------------

/// The history after pushing the messages of `ms`, oldest first.
pub open spec fn pushed_all(h: Memory, ms: Seq<Message>) -> Memory
    decreases ms.len(),
{
    if ms.len() == 0 {
        h
    } else {
        pushed_all(h, ms.drop_last()).pushed(ms.last())
    }
}

/// The messages of `ms` that are not blank, in order.
pub open spec fn not_blank(ms: Seq<Message>) -> Seq<Message>
    decreases ms.len(),
{
    if ms.len() == 0 {
        Seq::empty()
    } else if blank(ms.last().content) {
        not_blank(ms.drop_last())
    } else {
        not_blank(ms.drop_last()).push(ms.last())
    }
}

/// Whatever was pushed, an initially empty history holds the most recent
/// messages that are not blank, in the order in which they were pushed, and
/// never more than its bound.
pub proof fn law_history_is_recent_window(max: nat, ms: Seq<Message>)
    ensures
        ({
            let h = pushed_all(Memory { messages: Seq::empty(), max }, ms);
            &&& h.max == max
            &&& h.messages == window(not_blank(ms), max)
            &&& h.wf()
        }),
    decreases ms.len(),
{
    if ms.len() > 0 {
        law_history_is_recent_window(max, ms.drop_last());
        let all = not_blank(ms.drop_last());
        let m = ms.last();
        assert(window(window(all, max).push(m), max) =~= window(all.push(m), max));
    }
}

/// A message that enters the history is the next turn of the prompt: it stands
/// between the turns before it and the open assistant turn.
pub proof fn law_prompt_grows_by_one_turn(system: Seq<char>, s: Seq<Message>, m: Message)
    ensures
        ({
            let closed = "<|im_start|>system\n"@ + system + "<|im_end|>\n"@ + turns(s);
            &&& chatml(system, s) == closed + "<|im_start|>assistant\n"@
            &&& chatml(system, s.push(m)) == closed + turn(m) + "<|im_start|>assistant\n"@
        }),
{
    assert(s.push(m).drop_last() =~= s);
    let head = "<|im_start|>system\n"@ + system + "<|im_end|>\n"@;
    assert(head + (turns(s) + turn(m)) =~= head + turns(s) + turn(m));
}

/// Whether `s` ends with `t`.
pub open spec fn ends_with(s: Seq<char>, t: Seq<char>) -> bool {
    t.len() <= s.len() && s.skip(s.len() - t.len()) == t
}

/// The final assistant turn is open: the prompt ends with its header, and, even
/// without trailing whitespace, not with the end-of-turn mark.
pub proof fn law_prompt_leaves_assistant_open(system: Seq<char>, s: Seq<Message>)
    ensures
        ends_with(chatml(system, s), "<|im_start|>assistant\n"@),
        !ends_with(trim_end(chatml(system, s)), "<|im_end|>"@),
{
    reveal_strlit("<|im_start|>assistant\n");
    reveal_strlit("<|im_end|>");
    let p = chatml(system, s);
    let open = "<|im_start|>assistant\n"@;
    let end = "<|im_end|>"@;
    assert(p.skip(p.len() - open.len()) =~= open);
    let t = trim_end(p);
    lemma_trim_end(p);
    // The last character that is no whitespace is the `t` of the header.
    assert(p[p.len() - 2] == open[open.len() - 2]);
    assert(!is_white(p[p.len() - 2]));
    assert(p.last() == open.last());
    assert(is_white(p.last()));
    assert(t.len() == p.len() - 1);
    assert(t.last() == 't');
    if ends_with(t, end) {
        assert(t.skip(t.len() - end.len()).last() == t.last());
    }
}

/// What enters the history enters last and as it is, and pushes out only the oldest,
/// and only from a full window; a blank message changes nothing.
pub proof fn law_message_enters_last(h: Memory, m: Message)
    requires
        h.messages.len() <= h.max,
    ensures
        ({
            let after = h.pushed(m);
            &&& after.max == h.max
            &&& blank(m.content) ==> after.messages == h.messages
            &&& !blank(m.content) && h.messages.len() < h.max ==> after.messages
                == h.messages.push(m)
            &&& !blank(m.content) && h.messages.len() == h.max && h.max > 0 ==> after.messages
                == h.messages.skip(1).push(m)
            &&& h.max == 0 ==> after.messages.len() == 0
        }),
{
    if h.messages.len() > 0 {
        assert(h.messages.push(m).skip(1) =~= h.messages.skip(1).push(m));
    }
}

/// Of everything pushed, an initially empty history holds, counted from the end, each
/// message that is not blank, up to its bound.
pub proof fn law_history_counts_from_the_end(max: nat, ms: Seq<Message>)
    ensures
        ({
            let h = pushed_all(Memory { messages: Seq::empty(), max }, ms).messages;
            let all = ms.filter(|m: Message| !blank(m.content));
            &&& h.len() == if all.len() < max {
                all.len()
            } else {
                max
            }
            &&& forall|i: int|
                0 <= i < h.len() ==> #[trigger] h[h.len() - 1 - i] == all[all.len() - 1 - i]
        }),
{
    law_history_is_recent_window(max, ms);
    lemma_not_blank_is_filter(ms);
}

proof fn lemma_not_blank_is_filter(ms: Seq<Message>)
    ensures
        not_blank(ms) == ms.filter(|m: Message| !blank(m.content)),
    decreases ms.len(),
{
    reveal(Seq::filter);
    if ms.len() > 0 {
        lemma_not_blank_is_filter(ms.drop_last());
    }
}

/// A turn of the prompt names the role of its message and holds all of its content,
/// between the marks of a turn.
pub proof fn law_turn_holds_the_message(content: Seq<char>)
    ensures
        turn(Message { role: Role::System, content }) == "<|im_start|>"@ + "system"@ + "\n"@
            + content + "<|im_end|>\n"@,
        turn(Message { role: Role::User, content }) == "<|im_start|>"@ + "user"@ + "\n"@ + content
            + "<|im_end|>\n"@,
        turn(Message { role: Role::Assistant, content }) == "<|im_start|>"@ + "assistant"@ + "\n"@
            + content + "<|im_end|>\n"@,
{
}

/// Without history a prompt is the system prompt, closed, and the open turn of the
/// assistant.
pub proof fn law_prompt_begins_with_the_system(system: Seq<char>)
    ensures
        chatml(system, Seq::empty()) == "<|im_start|>system\n"@ + system + "<|im_end|>\n"@
            + "<|im_start|>assistant\n"@,
{
    let head = "<|im_start|>system\n"@ + system + "<|im_end|>\n"@;
    assert(turns(Seq::empty()) =~= Seq::<char>::empty());
    assert(head + Seq::<char>::empty() =~= head);
}

/// A message as a value has its role and all of its content; messages keep their
/// number and order.
pub proof fn law_message_is_the_content(m: ChatMessage, s: Seq<ChatMessage>)
    ensures
        m@.role == m.role,
        m@.content == m.content@,
        messages_of(s).len() == s.len(),
        forall|i: int| 0 <= i < s.len() ==> #[trigger] messages_of(s)[i] == s[i]@,
{
}

/// Each role has its own name.
pub proof fn law_names_of_roles()
    ensures
        Role::System.tag_text() == "system"@,
        Role::User.tag_text() == "user"@,
        Role::Assistant.tag_text() == "assistant"@,
{
}

} // verus!
