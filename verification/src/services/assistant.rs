//! Assistant orchestration: builds the prompts from user context. This is where
//! "when to nudge the user" and "how to chain context" logic lives.

use vstd::prelude::*;

use super::clipboard::ClipboardContext;
use crate::domain::user::UserProfile;
use crate::error::{AppError, AppResult};
use crate::text::{decimal_int, push_decimal_int};

verus! {

/// The system prompt for a user with `pending` tasks.
pub open spec fn system_text(
    name: Seq<char>,
    persona: Seq<char>,
    locale: Seq<char>,
    pending: int,
) -> Seq<char> {
    "Você é Kensho, um assistente local rodando no Ubuntu de "@ + name + ". Persona: "@ + persona
        + ". O usuário tem "@ + decimal_int(pending) + " tarefa(s) registrada(s). Responda em "@
        + locale + ", de forma breve e útil."@
}

/// The number of tasks, or zero where it could not be read.
pub open spec fn pending_or_zero(pending: AppResult<i64>) -> int {
    match pending {
        Ok(n) => n as int,
        Err(_) => 0,
    }
}

/// A system prompt with a clipboard snapshot, where there is one.
pub open spec fn with_snapshot(system: Seq<char>, snapshot: Option<Seq<char>>) -> Seq<char> {
    match snapshot {
        Some(text) => system + "\n\n"@ + text,
        None => system,
    }
}

pub struct AssistantService {
    pub profile: UserProfile,
}

impl AssistantService {
    pub fn new(profile: UserProfile) -> (r: Self)
        ensures
            r.profile == profile,
    {
        AssistantService { profile }
    }

    /// Compose the system prompt from the user profile and the number of tasks
    /// on record.
    pub fn system_prompt(&self, pending: AppResult<i64>) -> (r: String)
        ensures
            r@ == system_text(
                self.profile.display_name@,
                self.profile.persona@,
                self.profile.locale@,
                pending_or_zero(pending),
            ),
    {
        let n: i64 = match pending {
            Ok(n) => n,
            Err(_) => 0,
        };
        let mut out = String::new();
        out.append("Você é Kensho, um assistente local rodando no Ubuntu de ");
        out.append(self.profile.display_name.as_str());
        out.append(". Persona: ");
        out.append(self.profile.persona.as_str());
        out.append(". O usuário tem ");
        push_decimal_int(&mut out, n);
        out.append(" tarefa(s) registrada(s). Responda em ");
        out.append(self.profile.locale.as_str());
        out.append(", de forma breve e útil.");
        assert(out@ =~= system_text(
            self.profile.display_name@,
            self.profile.persona@,
            self.profile.locale@,
            n as int,
        ));
        out
    }

    /// Compose the system prompt of a turn, which consumes the pending clipboard
    /// snapshot: the next prompt carries it, and no later one.
    pub fn turn_prompt(&self, pending: AppResult<i64>, clipboard: &mut ClipboardContext) -> (r:
        String)
        ensures
            r@ == with_snapshot(
                system_text(
                    self.profile.display_name@,
                    self.profile.persona@,
                    self.profile.locale@,
                    pending_or_zero(pending),
                ),
                old(clipboard)@,
            ),
            final(clipboard)@ is None,
    {
        let mut out = self.system_prompt(pending);
        if let Some(text) = clipboard.take() {
            out.append("\n\n");
            out.append(text.as_str());
        }
        out
    }

    /// Compose a context-aware prompt: the system prompt, then the user's input,
    /// and then the assistant's turn to answer.
    pub fn build_prompt(&self, pending: AppResult<i64>, user_input: &str) -> (r: String)
        ensures
            r@ == system_text(
                self.profile.display_name@,
                self.profile.persona@,
                self.profile.locale@,
                pending_or_zero(pending),
            ) + "\n\nUsuário: "@ + user_input@ + "\nKensho:"@,
    {
        let mut out = self.system_prompt(pending);
        out.append("\n\nUsuário: ");
        out.append(user_input);
        out.append("\nKensho:");
        out
    }

    /// Whether to nudge the user unasked: not from here.
    pub fn should_nudge(&self) -> (r: bool)
        ensures
            !r,
    {
        false
    }
}

/// The system prompt names the user, gives persona and language in full, and tells how
/// many tasks are on record.
pub proof fn law_prompt_tells_of_the_user(
    name: Seq<char>,
    persona: Seq<char>,
    locale: Seq<char>,
    pending: int,
)
    ensures
        system_text(name, persona, locale, pending)
            == "Você é Kensho, um assistente local rodando no Ubuntu de "@ + name + ". Persona: "@
            + persona + ". O usuário tem "@ + decimal_int(pending)
            + " tarefa(s) registrada(s). Responda em "@ + locale + ", de forma breve e útil."@,
{
}

/// A snapshot stands in the prompt in full, behind the system prompt; without one the
/// prompt is the system prompt.
pub proof fn law_prompt_carries_the_snapshot(system: Seq<char>, text: Seq<char>)
    ensures
        with_snapshot(system, None) == system,
        with_snapshot(system, Some(text)) == system + "\n\n"@ + text,
{
}

/// The number of tasks is told as it was read, and as zero where it could not be read.
pub proof fn law_count_is_told_as_read(n: i64, e: AppError)
    ensures
        pending_or_zero(Ok(n)) == n,
        pending_or_zero(Err(e)) == 0,
{
}

} // verus!
