use vstd::prelude::*;
use vstd::string::StringExecFns;

verus! {

/// The prompt handed to the model when no stored system prompt is available.
pub open spec fn default_prompt_text() -> Seq<char> {
    "You are a helpful assistant."@
}

/// The exact chat text handed to the model for a system/user pair: a closed
/// system turn, a closed user turn, and an opened assistant turn, in order.
pub open spec fn chat_prompt(system: Seq<char>, user: Seq<char>) -> Seq<char> {
    "<|im_start|>system\n"@ + system + "<|im_end|>\n<|im_start|>user\n"@ + user
        + "<|im_end|>\n<|im_start|>assistant\n"@
}

/// Returns the constant fallback system prompt.
pub fn default_system_prompt() -> (r: String)
    ensures
        r@ == default_prompt_text(),
{
    "You are a helpful assistant.".to_owned()
}

/// Picks the stored system prompt when the prompt store produced one, and
/// the constant default otherwise. Never fails.
pub fn resolve_system_prompt(stored: Option<String>) -> (r: String)
    ensures
        stored is Some ==> r@ == stored->Some_0@,
        stored is None ==> r@ == default_prompt_text(),
{
    match stored {
        Some(s) => s,
        None => default_system_prompt(),
    }
}

/// Builds the role-tagged prompt: system turn, then user turn, both closed,
/// then an opened assistant turn that signals the model to continue.
pub fn build_chat_prompt(system: &str, user: &str) -> (r: String)
    ensures
        r@ == chat_prompt(system@, user@),
{
    let mut p = String::new();
    p.append("<|im_start|>system\n");
    p.append(system);
    p.append("<|im_end|>\n<|im_start|>user\n");
    p.append(user);
    p.append("<|im_end|>\n<|im_start|>assistant\n");
    proof {
        assert(p@ =~= chat_prompt(system@, user@));
    }
    p
}

} // verus!
