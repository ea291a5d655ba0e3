//! Local inference subsystem: the engines, and the choice among them.

use vstd::prelude::*;

use crate::config::SystemConfig;
use crate::services::conversation::{ChatMessage, Message, Role};
use crate::text::{
    chars_of, concat, decimal, find, find_from, lemma_find, push_decimal, starts_with, string_of,
    trim, trimmed, views,
};

verus! {

/// Errors a backend can raise during loading or inference.
#[derive(Debug)]
pub enum LlmError {
    NotLoaded(String),
    Inference(String),
}

impl LlmError {
    /// What the error says.
    pub open spec fn says(self) -> Seq<char> {
        match self {
            LlmError::NotLoaded(s) => "model not loaded: "@ + s@,
            LlmError::Inference(s) => "inference failed: "@ + s@,
        }
    }

    /// What the error says, for people.
    pub fn message(&self) -> (r: String)
        ensures
            r@ == self.says(),
    {
        match self {
            LlmError::NotLoaded(s) => "model not loaded: ".to_string().concat(s.as_str()),
            LlmError::Inference(s) => "inference failed: ".to_string().concat(s.as_str()),
        }
    }
}

// ---------------------------------------------------------------------------
// The simulated engine
// ---------------------------------------------------------------------------

/// Default zero-dependency engine: it fakes token-by-token streaming, so that the
/// whole pipeline can be exercised without a model.
#[derive(Debug)]
pub struct MockEngine {
    id: String,
    token_delay_ms: u64,
}

/// The content of the last user turn; empty if there is none.
pub open spec fn last_user(messages: Seq<Message>) -> Seq<char>
    decreases messages.len(),
{
    if messages.len() == 0 {
        Seq::empty()
    } else if messages.last().role is User {
        messages.last().content
    } else {
        last_user(messages.drop_last())
    }
}

/// What the simulated engine answers to a request.
pub open spec fn mock_reply(request: Seq<char>) -> Seq<char> {
    "Entendi seu pedido: \""@ + trim(request)
        + "\". Este é o motor simulado do Kensho — compile com --features llama e aponte KENSHO_MODEL_PATH para um arquivo .gguf do Qwen para respostas reais."@
}

/// `s` cut after each space.
pub open spec fn words(s: Seq<char>) -> Seq<Seq<char>>
    decreases s.len(),
{
    match find(s, seq![' ']) {
        Some(i) => {
            if 0 <= i < s.len() {
                seq![s.take(i + 1)] + words(s.skip(i + 1))
            } else {
                Seq::empty()
            }
        },
        None => if s.len() == 0 {
            Seq::empty()
        } else {
            seq![s]
        },
    }
}

/// The pieces of `s`, cut after each space.
fn split_words(s: &str) -> (r: Vec<String>)
    ensures
        views(r@) == words(s@),
{
    let v = chars_of(s);
    let mut space: Vec<char> = Vec::new();
    space.push(' ');
    assert(space@ =~= seq![' ']);
    let mut out: Vec<String> = Vec::new();
    let mut start: usize = 0;
    assert(v@.skip(0) =~= v@);
    assert(views(out@) + words(v@.skip(0)) =~= words(v@));
    while start < v.len()
        invariant
            start <= v.len(),
            space@ == seq![' '],
            v@ == s@,
            views(out@) + words(v@.skip(start as int)) == words(v@),
        decreases v.len() - start,
    {
        let ghost rest = v@.skip(start as int);
        let ghost before = views(out@);
        let end: usize = match find_from(&v, start, &space) {
            Some(i) => i + 1,
            None => v.len(),
        };
        let piece = string_of(&v, start, end);
        assert(piece@ =~= rest.take(end - start));
        assert(rest.skip(end - start) =~= v@.skip(end as int));
        proof {
            if find(rest, seq![' ']) is None {
                assert(piece@ =~= rest);
                assert(v@.skip(end as int).len() == 0);
                lemma_find(v@.skip(end as int), seq![' ']);
                assert(words(v@.skip(end as int)) =~= Seq::empty());
            }
            assert(words(rest) =~= seq![piece@] + words(v@.skip(end as int)));
        }
        out.push(piece);
        assert(views(out@) =~= before.push(piece@));
        assert(views(out@) + words(v@.skip(end as int)) =~= before + words(rest));
        start = end;
    }
    proof {
        lemma_find(v@.skip(start as int), seq![' ']);
        assert(views(out@) =~= words(s@));
    }
    out
}

impl MockEngine {
    /// Pause after each token, in milliseconds.
    pub closed spec fn delay(self) -> u64 {
        self.token_delay_ms
    }

    /// The engine's name.
    pub closed spec fn name(self) -> Seq<char> {
        self.id@
    }

    pub fn new() -> (r: Self)
        ensures
            r.name() == "mock-qwen"@,
            r.delay() == 35,
    {
        MockEngine { id: "mock-qwen".to_string(), token_delay_ms: 35 }
    }

    /// Identifier of the loaded model.
    pub fn model_id(&self) -> (r: &str)
        ensures
            r@ == self.name(),
    {
        self.id.as_str()
    }

    /// Pause after each token, in milliseconds.
    pub fn token_delay_ms(&self) -> (r: u64)
        ensures
            r == self.delay(),
    {
        self.token_delay_ms
    }

    /// The tokens of the answer: an echo of the latest user turn, so that the
    /// pipeline is observable. A token keeps its trailing space.
    pub fn generate(&self, messages: &[ChatMessage]) -> (r: Vec<String>)
        ensures
            views(r@) == words(
                mock_reply(last_user(messages@.map_values(|m: ChatMessage| m@))),
            ),
    {
        let ghost all = messages@.map_values(|m: ChatMessage| m@);
        let mut request = String::new();
        let mut i: usize = messages.len();
        assert(all.take(all.len() as int) =~= all);
        while i > 0
            invariant_except_break
                request@.len() == 0,
                last_user(all) == last_user(all.take(i as int)),
            invariant
                i <= messages.len(),
                all == messages@.map_values(|m: ChatMessage| m@),
            ensures
                request@ == last_user(all),
            decreases i,
        {
            i -= 1;
            assert(all.take(i + 1).last() == messages@[i as int]@);
            assert(all.take(i + 1).drop_last() =~= all.take(i as int));
            if messages[i].role == Role::User {
                request = messages[i].content.clone();
                break;
            }
        }
        let reply = "Entendi seu pedido: \"".to_string().concat(
            trimmed(request.as_str()).as_str(),
        ).concat(
            "\". Este é o motor simulado do Kensho — compile com --features llama e aponte KENSHO_MODEL_PATH para um arquivo .gguf do Qwen para respostas reais.",
        );
        split_words(reply.as_str())
    }
}

impl Default for MockEngine {
    fn default() -> (r: Self)
        ensures
            r.name() == "mock-qwen"@,
            r.delay() == 35,
    {
        MockEngine::new()
    }
}

/// The pieces of a text, put together, are the text.
pub proof fn law_tokens_are_the_text(s: Seq<char>)
    ensures
        concat(words(s)) == s,
    decreases s.len(),
{
    lemma_find(s, seq![' ']);
    match find(s, seq![' ']) {
        Some(i) => {
            let rest = words(s.skip(i + 1));
            law_tokens_are_the_text(s.skip(i + 1));
            assert(words(s).skip(1) =~= rest);
            assert(s.take(i + 1) + s.skip(i + 1) =~= s);
        },
        None => {
            if s.len() > 0 {
                reveal_with_fuel(concat, 2);
                assert(words(s).skip(1) =~= Seq::empty());
                assert(s + Seq::<char>::empty() =~= s);
            } else {
                assert(s =~= Seq::empty());
            }
        },
    }
}

/// A piece of a text is not empty, and a space stands in it only at its end.
pub proof fn law_token_shape(s: Seq<char>, k: int)
    requires
        0 <= k < words(s).len(),
    ensures
        words(s)[k].len() > 0,
        forall|j: int| 0 <= j < words(s)[k].len() - 1 ==> #[trigger] words(s)[k][j] != ' ',
        k < words(s).len() - 1 ==> words(s)[k].last() == ' ',
    decreases s.len(),
{
    let space = seq![' '];
    lemma_find(s, space);
    match find(s, space) {
        Some(i) => {
            let rest = words(s.skip(i + 1));
            if k == 0 {
                let first = s.take(i + 1);
                assert(words(s)[0] == first);
                assert forall|j: int| 0 <= j < i implies #[trigger] first[j] != ' ' by {
                    assert(!starts_with(s.skip(j), space));
                    if s[j] == ' ' {
                        assert(s.skip(j).take(1) =~= space);
                    }
                }
                assert(s.skip(i).take(1)[0] == ' ');
            } else {
                law_token_shape(s.skip(i + 1), k - 1);
                assert(words(s)[k] == rest[k - 1]);
            }
        },
        None => {
            assert forall|j: int| 0 <= j < s.len() implies #[trigger] s[j] != ' ' by {
                assert(!starts_with(s.skip(j), space));
                if s[j] == ' ' {
                    assert(s.skip(j).take(1) =~= space);
                }
            }
        },
    }
}

// ---------------------------------------------------------------------------
// The GGUF engine
// ---------------------------------------------------------------------------

/// Real local GGUF backend.
#[derive(Debug)]
pub struct LlamaEngine {
    model_path: String,
    max_tokens: usize,
}

/// A string as `{:?}` writes it: quoted, with escapes.
pub uninterp spec fn quoted_text(s: Seq<char>) -> Seq<char>;

/// The `Debug` format of `str`, a function of the string alone.
#[verifier::external_body]
fn quoted(s: &str) -> (r: String)
    ensures
        r@ == quoted_text(s@),
{
    format!("{:?}", s)
}

/// What the engine says of itself; `quoted` is the prompt, quoted.
pub open spec fn ready_notice(model: Seq<char>, max_tokens: nat, quoted: Seq<char>) -> Seq<char> {
    "[llama backend ready] model="@ + model + " max_tokens="@ + decimal(max_tokens) + " prompt="@
        + quoted
        + " — wire the llama-cpp-2 decode loop in infrastructure/llm/llama.rs"@
}

/// What a GGUF engine says of itself; `quoted` is the prompt, quoted.
pub fn notice(model: &str, max_tokens: usize, quoted: &str) -> (r: String)
    ensures
        r@ == ready_notice(model@, max_tokens as nat, quoted@),
{
    let mut r = "[llama backend ready] model=".to_string().concat(model).concat(" max_tokens=");
    push_decimal(&mut r, max_tokens as u64);
    r.concat(" prompt=").concat(quoted).concat(
        " — wire the llama-cpp-2 decode loop in infrastructure/llm/llama.rs",
    )
}

impl LlamaEngine {
    /// The path of the model file.
    pub closed spec fn path(self) -> Seq<char> {
        self.model_path@
    }

    /// Longest answer, in tokens.
    pub closed spec fn limit(self) -> usize {
        self.max_tokens
    }

    /// Validate the model file, which is there or not, and prepare the engine.
    pub fn load(config: &SystemConfig, exists: bool) -> (r: Result<Self, LlmError>)
        ensures
            match r {
                Ok(engine) => exists && engine.path() == config.model_path@ && engine.limit()
                    == config.max_tokens,
                Err(e) => !exists && e.says() == "model not loaded: "@ + ("gguf model not found at "@
                    + config.model_path@),
            },
    {
        if !exists {
            return Err(
                LlmError::NotLoaded(
                    "gguf model not found at ".to_string().concat(config.model_path.as_str()),
                ),
            );
        }
        Ok(LlamaEngine { model_path: config.model_path.clone(), max_tokens: config.max_tokens })
    }

    /// Identifier of the loaded model: the path of its file.
    pub fn model_id(&self) -> (r: &str)
        ensures
            r@ == self.path(),
    {
        self.model_path.as_str()
    }

    /// The one token that the engine answers with.
    pub fn generate(&self, prompt: &str) -> (r: String)
        ensures
            r@ == ready_notice(self.path(), self.limit() as nat, quoted_text(prompt@)),
    {
        notice(self.model_path.as_str(), self.max_tokens, quoted(prompt).as_str())
    }
}

/// The engine of this build and configuration.
#[derive(Debug)]
pub enum Engine {
    Mock(MockEngine),
    Llama(LlamaEngine),
}

/// Construct the best inference engine available for this build & config.
///
/// With the GGUF backend built in and the model file there, it is the real
/// backend; otherwise the always-available `MockEngine`.
pub fn build_engine(config: &SystemConfig, with_llama: bool, model_exists: bool) -> (r: Engine)
    ensures
        match r {
            Engine::Llama(engine) => with_llama && model_exists && engine.path()
                == config.model_path@ && engine.limit() == config.max_tokens,
            Engine::Mock(engine) => !(with_llama && model_exists) && engine.name()
                == "mock-qwen"@ && engine.delay() == 35,
        },
{
    if with_llama {
        if let Ok(engine) = LlamaEngine::load(config, model_exists) {
            return Engine::Llama(engine);
        }
    }
    Engine::Mock(MockEngine::new())
}

// ---------------------------------------------------------------------------
// Laws
// ---------------------------------------------------------------------------

/// The request that is echoed is the last message of the user, in full, whatever
/// follows it; without one it is empty.
pub proof fn law_last_request_is_echoed(before: Seq<Message>, m: Message, after: Seq<Message>)
    requires
        forall|i: int| 0 <= i < after.len() ==> (#[trigger] after[i]).role != Role::User,
    ensures
        m.role == Role::User ==> last_user(before.push(m) + after) == m.content,
        last_user(after) == Seq::<char>::empty(),
    decreases after.len(),
{
    let s = before.push(m) + after;
    if after.len() == 0 {
        assert(s =~= before.push(m));
    } else {
        let front = after.drop_last();
        assert forall|i: int| 0 <= i < front.len() implies (#[trigger] front[i]).role
            != Role::User by {
            assert(front[i] == after[i]);
        }
        law_last_request_is_echoed(before, m, front);
        assert(s.drop_last() =~= before.push(m) + front);
        assert(s.last() == after[after.len() - 1]);
    }
}

/// The simulated answer repeats the request, without the whitespace around it.
pub proof fn law_simulated_answer(request: Seq<char>)
    ensures
        mock_reply(request) == "Entendi seu pedido: \""@ + trim(request)
            + "\". Este é o motor simulado do Kensho — compile com --features llama e aponte KENSHO_MODEL_PATH para um arquivo .gguf do Qwen para respostas reais."@,
{
}

/// A GGUF engine tells its model, its limit and the prompt, each in full.
pub proof fn law_notice_tells_the_engine(model: Seq<char>, max_tokens: nat, quoted: Seq<char>)
    ensures
        ready_notice(model, max_tokens, quoted) == "[llama backend ready] model="@ + model
            + " max_tokens="@ + decimal(max_tokens) + " prompt="@ + quoted
            + " — wire the llama-cpp-2 decode loop in infrastructure/llm/llama.rs"@,
{
}

/// An error of a backend says what failed, and its cause in full.
pub proof fn law_backend_error_keeps_its_cause(why: String)
    ensures
        LlmError::NotLoaded(why).says() == "model not loaded: "@ + why@,
        LlmError::Inference(why).says() == "inference failed: "@ + why@,
{
}

} // verus!
