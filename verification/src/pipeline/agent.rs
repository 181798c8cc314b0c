//! The `agent` control step: a bounded tool-calling loop that produces
//! structured output. Never dispatched to a tool registry.
//!
//! The agent is a functional component: it takes a prompt, calls tools, reasons
//! over results, and produces structured output conforming to a declared
//! schema, or reports `final: false` when its round budget ran out first. It
//! never invents a conforming result.

use crate::pipeline::ask::{push_step_problem, step_problem};
use crate::pipeline::filter::{check_opt_text, check_text_templates, opt_text_problems};
use crate::pipeline::record::{
    check_record, get_opt_text, get_opt_texts, get_size, get_text, get_value, int_at,
    lemma_field_fits, opt_text_at, opt_texts_at, record_problem, rule_for, rules_of, text_at,
    text_view, texts_view, value_at, Record,
};
use crate::pipeline::references::{names, template_problems};
use crate::pipeline::schema::{schema_fault, schema_problem};
use crate::text::{cat4, push_text, same_text, shorten, shortened, texts, trim_text, trimmed};
use crate::value::{member, Data, Entries, Fields, Json};
use vstd::prelude::*;

verus! {

/// The agent step's input, parsed from the raw (unrendered) step input:
/// `prompt` and `systemPrompt` render against the step's scope when the loop
/// starts, not at parse time. camelCase is the canonical prompt surface; the
/// snake_case spellings match how humans author plan YAML.
#[derive(Debug)]
pub struct AgentSpec {
    pub prompt: String,
    pub model: Option<String>,
    pub system_prompt: Option<String>,
    pub max_iterations: u32,
    pub tools: Option<Vec<String>>,
    pub output_schema: Data,
}

/// The model of an [`AgentSpec`].
pub struct AgentSpecView {
    pub prompt: Seq<char>,
    pub model: Option<Seq<char>>,
    pub system_prompt: Option<Seq<char>>,
    pub max_iterations: int,
    pub tools: Option<Seq<Seq<char>>>,
    pub output_schema: Json,
}

impl AgentSpec {
    pub open spec fn view(&self) -> AgentSpecView {
        AgentSpecView {
            prompt: self.prompt@,
            model: text_view(self.model),
            system_prompt: text_view(self.system_prompt),
            max_iterations: self.max_iterations as int,
            tools: texts_view(self.tools),
            output_schema: self.output_schema@,
        }
    }
}

/// The agent that an input is read as, or why it is none.
pub open spec fn agent_of(input: Entries) -> Result<AgentSpecView, Seq<char>> {
    match record_problem(input, Record::Agent) {
        Some(problem) => Err(problem),
        None => Ok(
            AgentSpecView {
                prompt: text_at(input, "prompt"@, "prompt"@),
                model: opt_text_at(input, "model"@, "model"@),
                system_prompt: opt_text_at(input, "systemPrompt"@, "system_prompt"@),
                max_iterations: int_at(input, "maxIterations"@, "max_iterations"@, 8),
                tools: opt_texts_at(input, "tools"@),
                output_schema: value_at(input, "outputSchema"@, "output_schema"@),
            },
        ),
    }
}

/// Where the budget stands among an agent's fields, in either spelling.
proof fn lemma_rounds_rule()
    ensures
        rule_for(rules_of(Record::Agent), "maxIterations"@, 0) == Some(3int),
        rule_for(rules_of(Record::Agent), "max_iterations"@, 0) == Some(3int),
{
    reveal_strlit("prompt");
    reveal_strlit("model");
    reveal_strlit("systemPrompt");
    reveal_strlit("system_prompt");
    reveal_strlit("maxIterations");
    reveal_strlit("max_iterations");
    let rules = rules_of(Record::Agent);
    let camel = "maxIterations"@;
    let snake = "max_iterations"@;
    assert(rules[0].name.len() == 6 && rules[1].name.len() == 5);
    assert(rules[2].name[0] == 's' && rules[2].alias->0[0] == 's');
    assert(camel[0] == 'm' && camel.len() == 13);
    assert(snake[0] == 'm' && snake.len() == 14);
    reveal_with_fuel(rule_for, 5);
}

impl AgentSpec {
    /// Reads an agent step's input.
    pub fn from_input(input: &Fields) -> (r: Result<AgentSpec, String>)
        ensures
            match r {
                Ok(spec) => agent_of(input@) == Ok::<AgentSpecView, Seq<char>>(spec@),
                Err(e) => agent_of(input@) == Err::<AgentSpecView, Seq<char>>(e@),
            },
    {
        match check_record(input, Record::Agent) {
            Some(problem) => Err(problem),
            None => {
                proof {
                    lemma_rounds_rule();
                    lemma_field_fits(input@, Record::Agent, "maxIterations"@);
                    lemma_field_fits(input@, Record::Agent, "max_iterations"@);
                }
                let max_iterations = get_size(input, "maxIterations", "max_iterations", 8) as u32;
                Ok(
                    AgentSpec {
                        prompt: get_text(input, "prompt", "prompt"),
                        model: get_opt_text(input, "model", "model"),
                        system_prompt: get_opt_text(input, "systemPrompt", "system_prompt"),
                        max_iterations,
                        tools: get_opt_texts(input, "tools"),
                        output_schema: get_value(input, "outputSchema", "output_schema"),
                    },
                )
            },
        }
    }
}

// ── Static validation ────────────────────────────────────────────────────

/// The problem with a budget of no rounds.
pub open spec fn rounds_problem(spec: AgentSpecView) -> Option<Seq<char>> {
    if spec.max_iterations < 1 {
        Some("`maxIterations` must be at least 1"@)
    } else {
        None
    }
}

/// What is said of an explicitly empty list of tools.
pub open spec fn empty_tools_text() -> Seq<char> {
    "`tools` is empty — omit it to expose the whole catalogue, or name at least one tool or pattern"@
}

/// The problem with an explicitly empty list of tools. It reads as "no tools"
/// but would grant the whole catalogue.
pub open spec fn no_tools_problem(spec: AgentSpecView) -> Option<Seq<char>> {
    match spec.tools {
        Some(tools) => if tools.len() == 0 {
            Some(empty_tools_text())
        } else {
            None
        },
        None => None,
    }
}

/// The problem with a schema that is no JSON Schema.
pub open spec fn invalid_schema_problem(fault: Option<Seq<char>>) -> Option<Seq<char>> {
    if fault is Some {
        Some("`outputSchema` is not valid JSON Schema"@)
    } else {
        None
    }
}

/// The problem with a schema that is not for objects. Without a type,
/// properties imply one.
pub open spec fn not_object_problem(schema: Json) -> Option<Seq<char>> {
    match member(schema, "type"@) {
        Some(Json::Text(t)) => if t != "object"@ {
            Some("`outputSchema` must have type \"object\""@)
        } else {
            None
        },
        _ => if member(schema, "properties"@) is None {
            Some("`outputSchema` must have type \"object\" or declare properties"@)
        } else {
            None
        },
    }
}

/// Everything wrong with an agent, given why its schema is no JSON Schema.
pub open spec fn agent_findings(
    spec: AgentSpecView,
    fault: Option<Seq<char>>,
    seen: Seq<Seq<char>>,
    step: Seq<char>,
) -> Seq<Seq<char>> {
    step_problem(rounds_problem(spec), step) + step_problem(no_tools_problem(spec), step)
        + step_problem(invalid_schema_problem(fault), step) + step_problem(
        not_object_problem(spec.output_schema),
        step,
    ) + template_problems(Json::Text(spec.prompt), seen, step) + opt_text_problems(
        spec.system_prompt,
        seen,
        step,
    )
}

/// Everything wrong with an agent step's input, as far as it shows without
/// running.
pub open spec fn agent_problems(input: Entries, seen: Seq<Seq<char>>, step: Seq<char>) -> Seq<
    Seq<char>,
> {
    match agent_of(input) {
        Err(e) => seq!["step "@ + step + ": invalid agent input: "@ + e],
        Ok(spec) => agent_findings(spec, schema_fault(spec.output_schema), seen, step),
    }
}

fn find_not_object_problem(schema: &Data) -> (r: Option<String>)
    ensures
        text_view(r) == not_object_problem(schema@),
{
    match schema.get("type") {
        Some(Data::Text(t)) => if !same_text(t.as_str(), "object") {
            Some("`outputSchema` must have type \"object\"".to_owned())
        } else {
            None
        },
        _ => if schema.get("properties").is_none() {
            Some("`outputSchema` must have type \"object\" or declare properties".to_owned())
        } else {
            None
        },
    }
}

/// Whether a list of tools is given and empty.
fn tools_are_empty(spec: &AgentSpec) -> (r: bool)
    ensures
        r == (no_tools_problem(spec@) is Some),
{
    match &spec.tools {
        Some(tools) => tools.len() == 0,
        None => false,
    }
}

/// Reports everything wrong with an agent, given why its schema is no JSON
/// Schema.
pub fn report_agent_problems(
    spec: &AgentSpec,
    fault: &Option<String>,
    seen: &[&str],
    step_id: &str,
    problems: &mut Vec<String>,
)
    ensures
        texts(final(problems)@) == texts(old(problems)@) + agent_findings(
            spec@,
            text_view(*fault),
            names(seen@),
            step_id@,
        ),
{
    broadcast use crate::seqs::append_append;

    let rounds = if spec.max_iterations < 1 {
        Some("`maxIterations` must be at least 1".to_owned())
    } else {
        None
    };
    push_step_problem(rounds, step_id, problems);
    let no_tools = if tools_are_empty(spec) {
        Some(
            "`tools` is empty — omit it to expose the whole catalogue, or name at least one tool or pattern".to_owned(),
        )
    } else {
        None
    };
    push_step_problem(no_tools, step_id, problems);
    let invalid = if fault.is_some() {
        Some("`outputSchema` is not valid JSON Schema".to_owned())
    } else {
        None
    };
    push_step_problem(invalid, step_id, problems);
    push_step_problem(find_not_object_problem(&spec.output_schema), step_id, problems);
    check_text_templates(spec.prompt.as_str(), seen, step_id, problems);
    check_opt_text(&spec.system_prompt, seen, step_id, problems);
}

/// Validates an agent step's raw input at plan load time.
pub fn validate_agent_input(
    input: &Fields,
    seen: &[&str],
    step_id: &str,
    problems: &mut Vec<String>,
)
    ensures
        texts(final(problems)@) == texts(old(problems)@) + agent_problems(
            input@,
            names(seen@),
            step_id@,
        ),
{
    let spec = match AgentSpec::from_input(input) {
        Ok(spec) => spec,
        Err(e) => {
            push_text(problems, cat4("step ", step_id, ": invalid agent input: ", e.as_str()));
            return;
        },
    };
    let fault = schema_problem(&spec.output_schema);
    report_agent_problems(&spec, &fault, seen, step_id, problems);
}

// ── Structured output ────────────────────────────────────────────────────

/// How much of a model's answer an error message carries.
pub const MAX_QUOTED_CHARS: usize = 200;

/// Model output is unbounded; this keeps it out of error messages at full
/// length.
pub fn truncate_for_error(text: &str) -> (r: String)
    ensures
        r@ == shortened(trimmed(text@), MAX_QUOTED_CHARS as int),
{
    shorten(trim_text(text).as_str(), MAX_QUOTED_CHARS)
}

} // verus!
