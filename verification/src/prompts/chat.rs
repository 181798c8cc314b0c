//! The system prompt of the chat agent.

use crate::pipeline::gate::slice_view;
use crate::pipeline::record::text_view;
use crate::text::{cat2, cat3, cat4, ends, ends_with};
use vstd::prelude::*;

verus! {

/// The user, as configured.
#[derive(Debug, PartialEq)]
pub struct UserConfig {
    pub name: Option<String>,
    pub context: Option<String>,
    pub timezone: Option<String>,
}

impl Default for UserConfig {
    fn default() -> (r: UserConfig)
        ensures
            r.name is None && r.context is None && r.timezone is None,
    {
        UserConfig { name: None, context: None, timezone: None }
    }
}

/// Built-in base prompt; a configured one replaces it.
pub const DEFAULT_CHAT_PROMPT: &'static str = "You are graph, a command-line assistant for engineering workflows. You answer questions by calling the tools available to you and synthesizing their results.\n\nGuidelines:\n- Prefer tools over recall for anything about the user's repositories, issues, projects, or team activity. Call as many tools as needed before answering.\n- When a tool fails or returns nothing, say so plainly and continue with what you have; do not fabricate results.\n- Answers render in a terminal: lead with the answer, keep formatting simple, use short lists over tables.\n- When the user's request is ambiguous in a way that changes which tools to call, ask a brief clarifying question instead of guessing.\n";

/// The base prompt, ended by a line break.
pub open spec fn base_prompt(base_override: Option<Seq<char>>) -> Seq<char> {
    let base = match base_override {
        Some(text) => text,
        None => DEFAULT_CHAT_PROMPT@,
    };
    if ends(base, "\n"@) {
        base
    } else {
        base + "\n"@
    }
}

/// The chat agent's system prompt.
pub open spec fn chat_prompt(
    name: Option<Seq<char>>,
    context: Option<Seq<char>>,
    now: Seq<char>,
    base_override: Option<Seq<char>>,
) -> Seq<char> {
    base_prompt(base_override) + ("\nCurrent date and time: "@ + now + "\n"@) + (match name {
        Some(name) => "\nThe user's name is "@ + name + ".\n"@,
        None => Seq::empty(),
    }) + (match context {
        Some(context) => "\nAbout the user and their environment:\n"@ + context + "\n"@,
        None => Seq::empty(),
    })
}

fn nothing() -> (r: String)
    ensures
        r@ == Seq::<char>::empty(),
{
    let none = String::new();
    assert(none@ =~= Seq::<char>::empty());
    none
}

/// Builds the chat agent's system prompt. `base_override` replaces the built-in
/// base text; the date and the user's name and context are appended either way.
pub fn chat_system_prompt(user: &UserConfig, now: &str, base_override: Option<&str>) -> (r: String)
    ensures
        r@ == chat_prompt(
            text_view(user.name),
            text_view(user.context),
            now@,
            slice_view(base_override),
        ),
{
    let text = match base_override {
        Some(text) => text,
        None => DEFAULT_CHAT_PROMPT,
    };
    let base = if ends_with(text, "\n") {
        text.to_owned()
    } else {
        cat2(text, "\n")
    };
    let date = cat3("\nCurrent date and time: ", now, "\n");
    let name = match &user.name {
        Some(name) => cat3("\nThe user's name is ", name.as_str(), ".\n"),
        None => nothing(),
    };
    let context = match &user.context {
        Some(context) => cat3(
            "\nAbout the user and their environment:\n",
            context.as_str(),
            "\n",
        ),
        None => nothing(),
    };
    cat4(base.as_str(), date.as_str(), name.as_str(), context.as_str())
}

} // verus!
