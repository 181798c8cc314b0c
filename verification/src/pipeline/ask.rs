//! The `ask` control step: put a question to a human and bind the answer to a
//! step id. Never dispatched to a tool registry.
//!
//! `ask` is the in-band half of interactivity (the execution gate is the
//! out-of-band half): the plan itself declares that it needs a value only a
//! person can supply. The answer is an ordinary step result, so templates,
//! `exit` gates, and `decide` branches compose over it exactly as they do over
//! a tool's output.
//!
//! The load-bearing field is `whenUnanswered`. A plan that only runs with a
//! human at a keyboard is not portable, so the headless behaviour is declared
//! in the plan, statically visible, and never inferred from the environment.

use crate::pipeline::engine::{run_view, with_note, ExecutionEnd, ExecutionEndView};
use crate::pipeline::filter::{check_opt_templates, check_text_templates, opt_template_problems};
use crate::pipeline::gate::StepPath;
use crate::pipeline::interlocutor::{AskOutcome, AskOutcomeView, AskRequest, AskRequestView};
use crate::pipeline::record::{
    check_record, choice_at, data_view, get_choice, get_opt_value, get_text, get_value,
    opt_value_at, record_problem, text_at, text_view, value_at, Record,
};
use crate::pipeline::references::{has_templates, names, template_problems, templated};
use crate::pipeline::run_body::{
    classify, end_of_fail, fail_end, render_fail, StepFail, StepFailView,
};
use crate::pipeline::schema::{mismatch, schema_fault, schema_mismatch, schema_problem};
use crate::pipeline::state::{BusKind, RunState, RunStateView};
use crate::template::render::{rendered_input, rendered_text};
use crate::template::{render_input, render_str, RenderErrorView, Roots};
use crate::text::{
    cat2, cat3, cat4, cat5, copy_texts, push_text, same_text, shorten, shortened, texts, trim_text,
    trimmed,
};
use crate::value::{member, obj2, obj3, object, Data, Entries, Fields, Json};
use vstd::prelude::*;

verus! {

/// What the step does when no answer comes back.
#[derive(Debug, Clone, Copy, PartialEq, Eq, Structural)]
pub enum WhenUnanswered {
    /// The step fails, and with it the run. The safe default: a plan that
    /// needs a human and cannot reach one has not done its job.
    Fail,
    /// Fall back to the declared `default` value and carry on. The answer
    /// envelope records `answered: false`, so a later `decide` can still branch
    /// on whether a human was involved.
    Default,
}

impl Default for WhenUnanswered {
    fn default() -> (r: WhenUnanswered)
        ensures
            r == WhenUnanswered::Fail,
    {
        WhenUnanswered::Fail
    }
}

/// The ask step's input, parsed from the raw (unrendered) step input: `prompt`
/// and `default` render against the step's scope when the step runs, not at
/// parse time.
#[derive(Debug)]
pub struct AskSpec {
    pub prompt: String,
    pub output_schema: Data,
    pub when_unanswered: WhenUnanswered,
    pub default: Option<Data>,
}

/// The model of an [`AskSpec`].
pub struct AskSpecView {
    pub prompt: Seq<char>,
    pub output_schema: Json,
    pub when_unanswered: WhenUnanswered,
    pub default: Option<Json>,
}

impl AskSpec {
    pub open spec fn view(&self) -> AskSpecView {
        AskSpecView {
            prompt: self.prompt@,
            output_schema: self.output_schema@,
            when_unanswered: self.when_unanswered,
            default: data_view(self.default),
        }
    }
}

/// What an input says of the case that nobody answers.
pub open spec fn unanswered_at(input: Entries) -> WhenUnanswered {
    if choice_at(input, "whenUnanswered"@, "when_unanswered"@) == "default"@ {
        WhenUnanswered::Default
    } else {
        WhenUnanswered::Fail
    }
}

/// The question that an input is read as, or why it is none.
pub open spec fn ask_of(input: Entries) -> Result<AskSpecView, Seq<char>> {
    match record_problem(input, Record::Ask) {
        Some(problem) => Err(problem),
        None => Ok(
            AskSpecView {
                prompt: text_at(input, "prompt"@, "prompt"@),
                output_schema: value_at(input, "outputSchema"@, "output_schema"@),
                when_unanswered: unanswered_at(input),
                default: opt_value_at(input, "default"@),
            },
        ),
    }
}

impl AskSpec {
    /// Reads an ask step's input.
    pub fn from_input(input: &Fields) -> (r: Result<AskSpec, String>)
        ensures
            match r {
                Ok(spec) => ask_of(input@) == Ok::<AskSpecView, Seq<char>>(spec@),
                Err(e) => ask_of(input@) == Err::<AskSpecView, Seq<char>>(e@),
            },
    {
        match check_record(input, Record::Ask) {
            Some(problem) => Err(problem),
            None => {
                let named = get_choice(input, "whenUnanswered", "when_unanswered");
                let when_unanswered = if same_text(named.as_str(), "default") {
                    WhenUnanswered::Default
                } else {
                    WhenUnanswered::Fail
                };
                Ok(
                    AskSpec {
                        prompt: get_text(input, "prompt", "prompt"),
                        output_schema: get_value(input, "outputSchema", "output_schema"),
                        when_unanswered,
                        default: get_opt_value(input, "default"),
                    },
                )
            },
        }
    }
}

// ── Static validation ────────────────────────────────────────────────────

/// Whether a type is one that a person can fill in as one form field.
pub open spec fn is_primitive(t: Seq<char>) -> bool {
    t == "string"@ || t == "number"@ || t == "integer"@ || t == "boolean"@
}

/// Why a property cannot be a form field, if it cannot.
pub open spec fn property_problem(name: Seq<char>, property: Json) -> Option<Seq<char>> {
    if member(property, "enum"@) is Some {
        None
    } else {
        match member(property, "type"@) {
            Some(Json::Text(t)) => if is_primitive(t) {
                None
            } else {
                Some(
                    "`outputSchema` property `"@ + name + "` has type `"@ + t
                        + "` — an answer's fields must be primitives (string, number, integer, boolean) or enums, because a human fills them in one form field at a time"@,
                )
            },
            _ => Some(
                "`outputSchema` property `"@ + name
                    + "` declares no `type` — an answer's fields must each be a primitive type or an enum"@,
            ),
        }
    }
}

/// The problem with the first of the properties from `i` on that has one.
pub open spec fn properties_problem(properties: Entries, i: int) -> Option<Seq<char>>
    decreases properties.len() - i,
{
    if i < 0 || i >= properties.len() {
        None
    } else {
        match property_problem(properties[i].0, properties[i].1) {
            Some(p) => Some(p),
            None => properties_problem(properties, i + 1),
        }
    }
}

/// Why a schema cannot be put to a human as a form, if it cannot.
pub open spec fn form_problem(schema: Json) -> Option<Seq<char>> {
    match member(schema, "properties"@) {
        Some(Json::Object(properties)) => if properties.len() == 0 {
            Some("`outputSchema` must declare at least one property"@)
        } else {
            properties_problem(properties, 0)
        },
        _ => Some("`outputSchema` must declare `properties`"@),
    }
}

/// Checks one property of an answer's schema.
fn check_property(name: &str, property: &Data) -> (r: Option<String>)
    ensures
        text_view(r) == property_problem(name@, property@),
{
    if property.get("enum").is_some() {
        return None;
    }
    match property.get("type") {
        Some(Data::Text(t)) => {
            let t = t.as_str();
            if same_text(t, "string") || same_text(t, "number") || same_text(t, "integer")
                || same_text(t, "boolean") {
                None
            } else {
                Some(
                    cat5(
                        "`outputSchema` property `",
                        name,
                        "` has type `",
                        t,
                        "` — an answer's fields must be primitives (string, number, integer, boolean) or enums, because a human fills them in one form field at a time",
                    ),
                )
            }
        },
        _ => Some(
            cat3(
                "`outputSchema` property `",
                name,
                "` declares no `type` — an answer's fields must each be a primitive type or an enum",
            ),
        ),
    }
}

/// Why `schema` cannot be put to a human as a form, or `None` when it can.
///
/// The constraint comes from MCP's `elicitation/create`, whose
/// `requestedSchema` is a flat object of primitives. It is enforced for every
/// host, not just MCP: a schema that only a raw-JSON prompt can satisfy would
/// make the plan silently unusable from an MCP client. Nested data belongs in a
/// tool result, not in an answer typed by a human.
pub fn elicitation_schema_problem(schema: &Data) -> (r: Option<String>)
    ensures
        text_view(r) == form_problem(schema@),
{
    match schema.get("properties") {
        Some(Data::Object(properties)) => {
            if properties.len() == 0 {
                return Some("`outputSchema` must declare at least one property".to_owned());
            }
            let mut i: usize = 0;
            while i < properties.len()
                invariant
                    i <= properties@.len(),
                    properties@.len() > 0,
                    member(schema@, "properties"@) == Some(Json::Object(properties@)),
                    form_problem(schema@) == properties_problem(properties@, i as int),
                decreases properties@.len() - i,
            {
                if let Some(p) = check_property(
                    properties.key_at(i).as_str(),
                    properties.value_at(i),
                ) {
                    return Some(p);
                }
                i += 1;
            }
            None
        },
        _ => Some("`outputSchema` must declare `properties`".to_owned()),
    }
}

/// Whether a schema names a type, and one other than an object.
pub open spec fn names_other_type(schema: Json) -> bool {
    match member(schema, "type"@) {
        Some(Json::Text(t)) => t != "object"@,
        _ => false,
    }
}

/// Whether a schema names a type, and one other than an object.
pub fn other_type(schema: &Data) -> (r: bool)
    ensures
        r == names_other_type(schema@),
{
    match schema.get("type") {
        Some(Data::Text(t)) => !same_text(t.as_str(), "object"),
        _ => false,
    }
}

/// The problem with an answer's schema, given why it is no JSON Schema, if it
/// is none.
pub open spec fn answer_schema_problem(schema: Json, fault: Option<Seq<char>>) -> Option<
    Seq<char>,
> {
    match fault {
        Some(e) => Some("`outputSchema` is not valid JSON Schema: "@ + e),
        None => if names_other_type(schema) {
            Some("`outputSchema` must have type \"object\""@)
        } else {
            form_problem(schema)
        },
    }
}

/// A problem of a step, as a list.
pub open spec fn step_problem(problem: Option<Seq<char>>, step: Seq<char>) -> Seq<Seq<char>> {
    match problem {
        Some(p) => seq!["step "@ + step + ": "@ + p],
        None => Seq::empty(),
    }
}

/// The problem with a fallback that is missing or can never be used.
pub open spec fn fallback_problem(spec: AskSpecView) -> Option<Seq<char>> {
    match (spec.when_unanswered, spec.default) {
        (WhenUnanswered::Default, None) => Some(
            "`whenUnanswered` is \"default\" but no `default` value is declared"@,
        ),
        (WhenUnanswered::Fail, Some(_)) => Some(
            "a `default` is declared but `whenUnanswered` is \"fail\", so it can never be used — set `whenUnanswered` to \"default\" or drop the `default`"@,
        ),
        _ => None,
    }
}

/// The problem with a fallback that does not conform to the schema, given its
/// mismatch. One with templates is checked after rendering, at the point where
/// its real types exist.
pub open spec fn default_problem(
    spec: AskSpecView,
    fault: Option<Seq<char>>,
    mismatch: Option<Seq<char>>,
) -> Option<Seq<char>> {
    match (spec.default, mismatch) {
        (Some(default), Some(problem)) => if answer_schema_problem(
            spec.output_schema,
            fault,
        ) is None && !templated(default) {
            Some("`default` does not conform to `outputSchema`: "@ + problem)
        } else {
            None
        },
        _ => None,
    }
}

/// Everything wrong with a question, given what JSON Schema says of its schema
/// and its default.
pub open spec fn ask_findings(
    spec: AskSpecView,
    fault: Option<Seq<char>>,
    mismatch: Option<Seq<char>>,
    seen: Seq<Seq<char>>,
    step: Seq<char>,
) -> Seq<Seq<char>> {
    step_problem(answer_schema_problem(spec.output_schema, fault), step) + step_problem(
        fallback_problem(spec),
        step,
    ) + step_problem(default_problem(spec, fault, mismatch), step) + opt_template_problems(
        spec.default,
        seen,
        step,
    ) + template_problems(Json::Text(spec.prompt), seen, step)
}

/// Everything wrong with an ask step's input, as far as it shows without
/// running.
pub open spec fn ask_problems(input: Entries, seen: Seq<Seq<char>>, step: Seq<char>) -> Seq<
    Seq<char>,
> {
    match ask_of(input) {
        Err(e) => seq!["step "@ + step + ": invalid ask input: "@ + e],
        Ok(spec) => ask_findings(
            spec,
            schema_fault(spec.output_schema),
            match spec.default {
                Some(default) => mismatch(default, spec.output_schema),
                None => None,
            },
            seen,
            step,
        ),
    }
}

/// Adds a step's problem to a list, if there is one.
pub fn push_step_problem(problem: Option<String>, step_id: &str, problems: &mut Vec<String>)
    ensures
        texts(final(problems)@) == texts(old(problems)@) + step_problem(
            text_view(problem),
            step_id@,
        ),
{
    match problem {
        Some(p) => push_text(problems, cat4("step ", step_id, ": ", p.as_str())),
        None => {
            proof {
                crate::seqs::append_nothing(texts(problems@));
            }
        },
    }
}

fn find_answer_schema_problem(schema: &Data, fault: &Option<String>) -> (r: Option<String>)
    ensures
        text_view(r) == answer_schema_problem(schema@, text_view(*fault)),
{
    match fault {
        Some(e) => Some(cat2("`outputSchema` is not valid JSON Schema: ", e.as_str())),
        None => if other_type(schema) {
            Some("`outputSchema` must have type \"object\"".to_owned())
        } else {
            elicitation_schema_problem(schema)
        },
    }
}

fn find_fallback_problem(spec: &AskSpec) -> (r: Option<String>)
    ensures
        text_view(r) == fallback_problem(spec@),
{
    match (spec.when_unanswered, &spec.default) {
        (WhenUnanswered::Default, None) => Some(
            "`whenUnanswered` is \"default\" but no `default` value is declared".to_owned(),
        ),
        (WhenUnanswered::Fail, Some(_)) => Some(
            "a `default` is declared but `whenUnanswered` is \"fail\", so it can never be used — set `whenUnanswered` to \"default\" or drop the `default`".to_owned(),
        ),
        _ => None,
    }
}

/// Reports everything wrong with a question, given what JSON Schema says of its
/// schema and its default.
pub fn report_ask_problems(
    spec: &AskSpec,
    fault: &Option<String>,
    default_mismatch: &Option<String>,
    seen: &[&str],
    step_id: &str,
    problems: &mut Vec<String>,
)
    ensures
        texts(final(problems)@) == texts(old(problems)@) + ask_findings(
            spec@,
            text_view(*fault),
            text_view(*default_mismatch),
            names(seen@),
            step_id@,
        ),
{
    broadcast use crate::seqs::append_append;

    let schema_issue = find_answer_schema_problem(&spec.output_schema, fault);
    let schema_ok = schema_issue.is_none();
    push_step_problem(schema_issue, step_id, problems);
    push_step_problem(find_fallback_problem(spec), step_id, problems);
    let default_issue = match (&spec.default, default_mismatch) {
        (Some(default), Some(problem)) => if schema_ok && !has_templates(default) {
            Some(cat2("`default` does not conform to `outputSchema`: ", problem.as_str()))
        } else {
            None
        },
        _ => None,
    };
    push_step_problem(default_issue, step_id, problems);
    check_opt_templates(&spec.default, seen, step_id, problems);
    check_text_templates(spec.prompt.as_str(), seen, step_id, problems);
}

/// Validates an ask step's raw input at plan load time.
pub fn validate_ask_input(
    input: &Fields,
    seen: &[&str],
    step_id: &str,
    problems: &mut Vec<String>,
)
    ensures
        texts(final(problems)@) == texts(old(problems)@) + ask_problems(
            input@,
            names(seen@),
            step_id@,
        ),
{
    let spec = match AskSpec::from_input(input) {
        Ok(spec) => spec,
        Err(e) => {
            push_text(problems, cat4("step ", step_id, ": invalid ask input: ", e.as_str()));
            return;
        },
    };
    let fault = schema_problem(&spec.output_schema);
    let default_mismatch = match &spec.default {
        Some(default) => schema_mismatch(default, &spec.output_schema),
        None => None,
    };
    report_ask_problems(&spec, &fault, &default_mismatch, seen, step_id, problems);
}

// ── Running ──────────────────────────────────────────────────────────────

/// The ask step's result.
#[derive(Debug)]
pub struct AskResult {
    /// The schema-conforming answer, or the rendered `default`.
    pub answer: Data,
    /// Did a human actually answer?
    pub answered: bool,
    /// Why not, when `answered` is false: "declined" or "unavailable".
    pub reason: Option<String>,
}

/// The model of an [`AskResult`].
pub struct AskResultView {
    pub answer: Json,
    pub answered: bool,
    pub reason: Option<Seq<char>>,
}

/// A result as a value. A reason that is not there is left out.
pub open spec fn ask_json(r: AskResultView) -> Json {
    match r.reason {
        None => Json::Object(
            object(seq![("answer"@, r.answer), ("answered"@, Json::Bool(r.answered))]),
        ),
        Some(reason) => Json::Object(
            object(
                seq![
                    ("answer"@, r.answer),
                    ("answered"@, Json::Bool(r.answered)),
                    ("reason"@, Json::Text(reason)),
                ],
            ),
        ),
    }
}

impl AskResult {
    pub open spec fn view(&self) -> AskResultView {
        AskResultView {
            answer: self.answer@,
            answered: self.answered,
            reason: text_view(self.reason),
        }
    }

    /// The result as a value.
    pub fn to_value(self) -> (r: Data)
        ensures
            r@ == ask_json(self@),
    {
        match self.reason {
            None => obj2("answer", self.answer, "answered", Data::Bool(self.answered)),
            Some(reason) => obj3(
                "answer",
                self.answer,
                "answered",
                Data::Bool(self.answered),
                "reason",
                Data::Text(reason),
            ),
        }
    }
}

/// A question that was rendered.
#[derive(Debug)]
pub struct AskWork {
    pub spec: AskSpec,
    pub prompt: String,
}

/// The model of an [`AskWork`].
pub struct AskWorkView {
    pub spec: AskSpecView,
    pub prompt: Seq<char>,
}

impl AskWork {
    pub open spec fn view(&self) -> AskWorkView {
        AskWorkView { spec: self.spec@, prompt: self.prompt@ }
    }

    /// The question as it is put to a human.
    pub fn request(&self, path: &StepPath, call_stack: &Vec<String>) -> (r: AskRequest)
        ensures
            r@ == (AskRequestView {
                path: path@,
                call_stack: texts(call_stack@),
                prompt: self@.prompt,
                schema: self@.spec.output_schema,
            }),
    {
        AskRequest {
            path: path.copy(),
            call_stack: copy_texts(call_stack),
            prompt: self.prompt.clone(),
            schema: self.spec.output_schema.copy(),
        }
    }
}

pub open spec fn ask_work_view(r: Result<AskWork, StepFail>) -> Result<AskWorkView, StepFailView> {
    match r {
        Ok(w) => Ok(w@),
        Err(e) => Err(e@),
    }
}

/// How a question begins in a scope. A schema a human cannot fill in is refused
/// rather than handed to a host that cannot render it.
pub open spec fn ask_begun(input: Entries, scope: Entries) -> Result<AskWorkView, StepFailView> {
    match ask_of(input) {
        Err(e) => Err(StepFailView::Failed("invalid ask input: "@ + e)),
        Ok(spec) => match rendered_text(scope, spec.prompt) {
            Err(e) => Err(render_fail(e)),
            Ok(prompt) => match form_problem(spec.output_schema) {
                Some(problem) => Err(StepFailView::Failed(problem)),
                None => Ok(AskWorkView { spec, prompt }),
            },
        },
    }
}

/// Begins an ask step in a scope, so it works identically at the top level and
/// inside a body.
pub fn begin_ask(input: &Fields, scope: &Fields) -> (r: Result<AskWork, StepFail>)
    ensures
        ask_work_view(r) == ask_begun(input@, scope@),
{
    let spec = match AskSpec::from_input(input) {
        Ok(spec) => spec,
        Err(e) => {
            return Err(StepFail::Failed(cat2("invalid ask input: ", e.as_str())));
        },
    };
    let prompt = match render_str(spec.prompt.as_str(), &Roots::new(scope)) {
        Ok(prompt) => prompt,
        Err(e) => {
            return Err(classify(e));
        },
    };
    if let Some(problem) = elicitation_schema_problem(&spec.output_schema) {
        return Err(StepFail::Failed(problem));
    }
    Ok(AskWork { spec, prompt })
}

/// How many characters of a question a message carries.
pub const MAX_PROMPT_CHARS: usize = 80;

/// A question as a message quotes it.
pub open spec fn quoted_prompt(prompt: Seq<char>) -> Seq<char> {
    shortened(trimmed(prompt), MAX_PROMPT_CHARS as int)
}

fn quote_prompt(prompt: &str) -> (r: String)
    ensures
        r@ == quoted_prompt(prompt@),
{
    shorten(trim_text(prompt).as_str(), MAX_PROMPT_CHARS)
}

/// What an answer comes to, given what is wrong with it under the schema.
pub open spec fn answer_concluded(
    prompt: Seq<char>,
    answer: Json,
    problem: Option<Seq<char>>,
) -> Result<
    AskResultView,
    StepFailView,
> {
    match problem {
        Some(p) => Err(
            StepFailView::Failed(
                "the answer to \""@ + quoted_prompt(prompt)
                    + "\" does not conform to `outputSchema`: "@ + p,
            ),
        ),
        None => Ok(AskResultView { answer, answered: true, reason: None }),
    }
}

/// What a fallback comes to, given what is wrong with it under the schema.
pub open spec fn default_concluded(
    answer: Json,
    reason: Seq<char>,
    problem: Option<Seq<char>>,
) -> Result<
    AskResultView,
    StepFailView,
> {
    match problem {
        Some(p) => Err(
            StepFailView::Failed(
                "the rendered `default` does not conform to `outputSchema`: "@ + p,
            ),
        ),
        None => Ok(AskResultView { answer, answered: false, reason: Some(reason) }),
    }
}

/// What is said of a question that nobody answered.
pub open spec fn unanswered_text(prompt: Seq<char>, reason: Seq<char>) -> Seq<char> {
    "no answer to \""@ + quoted_prompt(prompt) + "\" ("@ + reason
        + "), and `whenUnanswered` is \"fail\" — declare a `default` with whenUnanswered: default to make this plan runnable without a human"@
}

/// The fallback of a question, rendered.
pub open spec fn default_rendered(
    spec: AskSpecView,
    scope: Entries,
) -> Result<Json, RenderErrorView> {
    rendered_input(
        scope,
        match spec.default {
            Some(v) => v,
            None => Json::Null,
        },
    )
}

/// What a question comes to that nobody answered.
pub open spec fn unanswered(w: AskWorkView, scope: Entries, reason: Seq<char>) -> Result<
    AskResultView,
    StepFailView,
> {
    match w.spec.when_unanswered {
        WhenUnanswered::Fail => Err(StepFailView::Failed(unanswered_text(w.prompt, reason))),
        WhenUnanswered::Default => match default_rendered(w.spec, scope) {
            Err(e) => Err(render_fail(e)),
            Ok(value) => default_concluded(
                value,
                reason,
                mismatch(value, w.spec.output_schema),
            ),
        },
    }
}

/// What a question comes to.
pub open spec fn ask_settled(w: AskWorkView, scope: Entries, outcome: AskOutcomeView) -> Result<
    AskResultView,
    StepFailView,
> {
    match outcome {
        AskOutcomeView::Answered(answer) => answer_concluded(
            w.prompt,
            answer,
            mismatch(answer, w.spec.output_schema),
        ),
        AskOutcomeView::Declined => unanswered(w, scope, "declined"@),
        AskOutcomeView::Unavailable(_) => unanswered(w, scope, "unavailable"@),
    }
}

pub open spec fn ask_result_view(r: Result<AskResult, StepFail>) -> Result<
    AskResultView,
    StepFailView,
> {
    match r {
        Ok(a) => Ok(a@),
        Err(e) => Err(e@),
    }
}

/// Concludes an answer, given what is wrong with it under the schema. The host
/// is not trusted to have validated: a client may return a partial form, a
/// terminal answer is hand-typed.
pub fn conclude_answer(prompt: &str, answer: Data, problem: Option<String>) -> (r: Result<
    AskResult,
    StepFail,
>)
    ensures
        ask_result_view(r) == answer_concluded(prompt@, answer@, text_view(problem)),
{
    match problem {
        Some(p) => Err(
            StepFail::Failed(
                cat4(
                    "the answer to \"",
                    quote_prompt(prompt).as_str(),
                    "\" does not conform to `outputSchema`: ",
                    p.as_str(),
                ),
            ),
        ),
        None => Ok(AskResult { answer, answered: true, reason: None }),
    }
}

/// Concludes a fallback, given what is wrong with it under the schema.
pub fn conclude_default(answer: Data, reason: &str, problem: Option<String>) -> (r: Result<
    AskResult,
    StepFail,
>)
    ensures
        ask_result_view(r) == default_concluded(answer@, reason@, text_view(problem)),
{
    match problem {
        Some(p) => Err(
            StepFail::Failed(
                cat2("the rendered `default` does not conform to `outputSchema`: ", p.as_str()),
            ),
        ),
        None => Ok(AskResult { answer, answered: false, reason: Some(reason.to_owned()) }),
    }
}

fn conclude_unanswered(w: AskWork, scope: &Fields, reason: &str) -> (r: Result<AskResult, StepFail>)
    ensures
        ask_result_view(r) == unanswered(w@, scope@, reason@),
{
    match w.spec.when_unanswered {
        WhenUnanswered::Fail => Err(
            StepFail::Failed(
                cat5(
                    "no answer to \"",
                    quote_prompt(w.prompt.as_str()).as_str(),
                    "\" (",
                    reason,
                    "), and `whenUnanswered` is \"fail\" — declare a `default` with whenUnanswered: default to make this plan runnable without a human",
                ),
            ),
        ),
        WhenUnanswered::Default => {
            let raw = match &w.spec.default {
                Some(v) => v.copy(),
                None => Data::Null,
            };
            let value = match render_input(&raw, &Roots::new(scope)) {
                Ok(value) => value,
                Err(e) => {
                    return Err(classify(e));
                },
            };
            let problem = schema_mismatch(&value, &w.spec.output_schema);
            conclude_default(value, reason, problem)
        },
    }
}

/// Ends an ask step by what came of the question.
pub fn settle_ask(
    w: AskWork,
    scope: &Fields,
    outcome: AskOutcome,
) -> (r: Result<AskResult, StepFail>)
    ensures
        ask_result_view(r) == ask_settled(w@, scope@, outcome@),
{
    match outcome {
        AskOutcome::Answered(answer) => {
            let problem = schema_mismatch(&answer, &w.spec.output_schema);
            conclude_answer(w.prompt.as_str(), answer, problem)
        },
        AskOutcome::Declined => conclude_unanswered(w, scope, "declined"),
        AskOutcome::Unavailable(_) => conclude_unanswered(w, scope, "unavailable"),
    }
}

/// What is noted of an answered or unanswered question.
pub open spec fn ask_note(r: AskResultView) -> Seq<char> {
    if r.answered {
        "ask: answered"@
    } else {
        match r.reason {
            Some(reason) => "ask: unanswered ("@ + reason + ") — used default"@,
            None => "ask: unanswered — used default"@,
        }
    }
}

/// What a top-level ask step does to the run.
pub open spec fn ask_recorded(
    s: RunStateView,
    step: Seq<char>,
    run: Result<AskResultView, StepFailView>,
) -> (RunStateView, Result<Json, ExecutionEndView>) {
    match run {
        Ok(r) => (with_note(s, step, BusKind::Info, ask_note(r)), Ok(ask_json(r))),
        Err(fail) => (s, Err(fail_end(fail, step, "ask"@))),
    }
}

/// Ends a top-level ask step.
pub fn record_ask(state: &mut RunState, step: &str, run: Result<AskResult, StepFail>) -> (r: Result<
    Data,
    ExecutionEnd,
>)
    ensures
        (final(state)@, run_view(r)) == ask_recorded(
            old(state)@,
            step@,
            ask_result_view(run),
        ),
{
    match run {
        Ok(result) => {
            let note = if result.answered {
                "ask: answered".to_owned()
            } else {
                match &result.reason {
                    Some(reason) => cat3("ask: unanswered (", reason.as_str(), ") — used default"),
                    None => "ask: unanswered — used default".to_owned(),
                }
            };
            state.push_bus(step, BusKind::Info, note.as_str());
            Ok(result.to_value())
        },
        Err(fail) => Err(end_of_fail(fail, step, "ask")),
    }
}

/// What happens when nobody answers is declared in the plan: a question with a
/// `fail` always fails, whatever the reason nobody answered.
pub proof fn an_unanswered_question_fails_unless_the_plan_says_otherwise(
    w: AskWorkView,
    scope: Entries,
    outcome: AskOutcomeView,
)
    requires
        w.spec.when_unanswered == WhenUnanswered::Fail,
    ensures
        ask_settled(w, scope, outcome) is Ok ==> outcome is Answered,
        ask_settled(w, scope, outcome) matches Ok(r) ==> r.answered,
{
}

} // verus!
