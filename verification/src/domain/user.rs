//! `UserProfile` — who the assistant is serving. Drives prompt personalization.

use vstd::prelude::*;

use super::ids::{is_v4, UserId};

verus! {

#[derive(Debug)]
pub struct UserProfile {
    pub id: UserId,
    pub display_name: String,
    /// IETF language tag, e.g. "pt-BR".
    pub locale: String,
    /// Short free-text persona/preferences fed into the system prompt.
    pub persona: String,
}

impl Default for UserProfile {
    fn default() -> (r: Self)
        ensures
            is_v4(r.id.value),
            r.display_name@ == "Usuário"@,
            r.locale@ == "pt-BR"@,
            r.persona@ == "Direto, gosta de respostas objetivas."@,
    {
        UserProfile {
            id: UserId::new(),
            display_name: "Usuário".to_string(),
            locale: "pt-BR".to_string(),
            persona: "Direto, gosta de respostas objetivas.".to_string(),
        }
    }
}

} // verus!
