//! The agent step's loop: one model call per round, until an answer conforms to
//! the output schema or the rounds run out.
//!
//! A loop in progress says what is to be done next (ask the model, make tool
//! calls, repair an answer); a driver does it and hands back what came of it.

use crate::chat::{
    calls_view, copy_calls, copy_messages, copy_specs, extend_messages, messages_view, offer,
    push_message, spec_of, specs_of, specs_view, ChatMessage, ChatMessageView, ChatRequest,
    ChatRequestView, ChatResponse, ChatResponseView, StopReason, ToolCall, ToolCallView, ToolSpec,
    ToolSpecView,
};
use crate::json::{json_reading, parse_json, pretty, pretty_text};
use crate::pipeline::agent::{
    agent_of, empty_tools_text, truncate_for_error, AgentSpec, AgentSpecView, MAX_QUOTED_CHARS,
};
use crate::pipeline::engine::{
    call_view, error_data, error_json, run_view, with_note, DispatchError, DispatchErrorView,
    ExecutionEnd, ExecutionEndView,
};
use crate::pipeline::gate::{nested_path, StepPath, StepPathView};
use crate::pipeline::record::data_view;
use crate::pipeline::run_body::{
    classify, end_of_fail, fail_end, render_fail, StepFail, StepFailView,
};
use crate::pipeline::schema::{schema_errors, schema_fault, schema_problem, value_problems};
use crate::pipeline::state::{BusKind, RunState, RunStateView};
use crate::template::{render::rendered_text, render_str, Roots};
use crate::text::{
    begins, cat2, cat3, cat6, chars_of, decimal, decimal_usize, ends, find_chars, find_from, join,
    joined, numeral, same_text, shortened, slice_text, starts_with, texts, trim_text, trimmed,
};
use crate::tools::{tools_view, ToolDef, ToolDefView};
use crate::value::{obj2, obj4, object, values_view, Data, Entries, Fields, Json, Num};
use vstd::prelude::*;

verus! {

// ── The result ───────────────────────────────────────────────────────────

/// One tool call inside the agent loop, for the call log.
#[derive(Debug, PartialEq)]
pub struct ToolCallEntry {
    pub tool: String,
    pub round: u32,
}

/// The model of a [`ToolCallEntry`].
pub struct ToolCallEntryView {
    pub tool: Seq<char>,
    pub round: int,
}

impl ToolCallEntry {
    pub open spec fn view(&self) -> ToolCallEntryView {
        ToolCallEntryView { tool: self.tool@, round: self.round as int }
    }

    /// The entry as a value.
    pub fn to_value(&self) -> (r: Data)
        ensures
            r@ == entry_json(self@),
    {
        obj2(
            "tool",
            Data::Text(self.tool.clone()),
            "round",
            Data::count(self.round as usize),
        )
    }
}

/// A call log's entry as a value.
pub open spec fn entry_json(e: ToolCallEntryView) -> Json {
    Json::Object(
        object(seq![("tool"@, Json::Text(e.tool)), ("round"@, Json::Num(Num::Int(e.round)))]),
    )
}

pub open spec fn log_view(s: Seq<ToolCallEntry>) -> Seq<ToolCallEntryView> {
    Seq::new(s.len(), |i: int| s[i]@)
}

/// A call log as a value.
pub open spec fn log_json(log: Seq<ToolCallEntryView>) -> Json {
    Json::List(Seq::new(log.len(), |i: int| entry_json(log[i])))
}

/// The agent's structured result.
#[derive(Debug)]
pub struct AgentResult {
    pub output: Data,
    pub iterations: u32,
    pub tools_called: Vec<ToolCallEntry>,
    /// Whether the output is an answer; false where the rounds ran out.
    pub final_: bool,
}

/// The model of an [`AgentResult`].
pub struct AgentResultView {
    pub output: Json,
    pub iterations: int,
    pub tools_called: Seq<ToolCallEntryView>,
    pub final_: bool,
}

/// A result as a value.
pub open spec fn agent_json(r: AgentResultView) -> Json {
    Json::Object(
        object(
            seq![
                ("output"@, r.output),
                ("iterations"@, Json::Num(Num::Int(r.iterations))),
                ("tools_called"@, log_json(r.tools_called)),
                ("final"@, Json::Bool(r.final_)),
            ],
        ),
    )
}

fn log_data(log: &Vec<ToolCallEntry>) -> (r: Data)
    ensures
        r@ == log_json(log_view(log@)),
{
    let mut out: Vec<Data> = Vec::new();
    let mut i: usize = 0;
    while i < log.len()
        invariant
            i <= log@.len(),
            out@.len() == i,
            forall|k: int| 0 <= k < i ==> (#[trigger] out@[k])@ == entry_json(log@[k]@),
        decreases log.len() - i,
    {
        out.push(log[i].to_value());
        i += 1;
    }
    assert(values_view(out@) =~= log_json(log_view(log@))->List_0);
    Data::List(out)
}

impl AgentResult {
    pub open spec fn view(&self) -> AgentResultView {
        AgentResultView {
            output: self.output@,
            iterations: self.iterations as int,
            tools_called: log_view(self.tools_called@),
            final_: self.final_,
        }
    }

    /// The result as a value.
    pub fn to_value(&self) -> (r: Data)
        ensures
            r@ == agent_json(self@),
    {
        obj4(
            "output",
            self.output.copy(),
            "iterations",
            Data::count(self.iterations as usize),
            "tools_called",
            log_data(&self.tools_called),
            "final",
            Data::Bool(self.final_),
        )
    }
}

// ── Beginning ────────────────────────────────────────────────────────────

/// What every agent is told: its final answer is JSON in the output schema.
pub open spec fn builtin_system() -> Seq<char> {
    "You are an AI agent operating inside a plan pipeline. Your job is to complete the task described in the prompt by calling tools and reasoning over their results.\n\nCRITICAL: Your final response MUST be valid JSON conforming to the output schema provided. After using tools to gather information, produce your answer as a single JSON object matching the schema exactly. Do not include any text outside the JSON object. Do not include markdown code fences.\n\nIf you cannot complete the task after the available tool calls, produce a best-effort result that still conforms to the output schema (use empty arrays, null values, etc.)."@
}

/// What an agent is told: the built-in text, its output schema, and what the
/// step adds. It never names how many rounds there are: a number reads as an
/// allowance to spend.
pub open spec fn agent_system(schema: Json, extra: Option<Seq<char>>) -> Seq<char> {
    let base = builtin_system() + "\n\nOutput schema:\n"@ + pretty_text(schema);
    match extra {
        Some(text) => base + "\n\n"@ + text,
        None => base,
    }
}

/// An agent whose prompts were rendered.
#[derive(Debug)]
pub struct AgentStart {
    pub prompt: String,
    pub system: String,
    pub model: String,
    /// Which tools it is offered; all of them without a pattern.
    pub patterns: Vec<String>,
    pub max_iterations: u32,
    pub output_schema: Data,
}

/// The model of an [`AgentStart`].
pub struct AgentStartView {
    pub prompt: Seq<char>,
    pub system: Seq<char>,
    pub model: Seq<char>,
    pub patterns: Seq<Seq<char>>,
    pub max_iterations: int,
    pub output_schema: Json,
}

impl AgentStart {
    pub open spec fn view(&self) -> AgentStartView {
        AgentStartView {
            prompt: self.prompt@,
            system: self.system@,
            model: self.model@,
            patterns: texts(self.patterns@),
            max_iterations: self.max_iterations as int,
            output_schema: self.output_schema@,
        }
    }
}

pub open spec fn agent_start_view(r: Result<AgentStart, StepFail>) -> Result<
    AgentStartView,
    StepFailView,
> {
    match r {
        Ok(s) => Ok(s@),
        Err(e) => Err(e@),
    }
}

/// What an agent starts with, once its prompts are rendered.
pub open spec fn agent_started(
    spec: AgentSpecView,
    prompt: Seq<char>,
    extra: Option<Seq<char>>,
) -> Result<AgentStartView, StepFailView> {
    if spec.tools matches Some(tools) && tools.len() == 0 {
        Err(StepFailView::Failed(empty_tools_text()))
    } else {
        Ok(
            AgentStartView {
                prompt,
                system: agent_system(spec.output_schema, extra),
                model: match spec.model {
                    Some(m) => m,
                    None => "chat"@,
                },
                patterns: match spec.tools {
                    Some(tools) => tools,
                    None => Seq::empty(),
                },
                max_iterations: spec.max_iterations,
                output_schema: spec.output_schema,
            },
        )
    }
}

/// How an agent begins in a scope.
pub open spec fn agent_begun(
    input: Entries,
    scope: Entries,
) -> Result<AgentStartView, StepFailView> {
    match agent_of(input) {
        Err(e) => Err(StepFailView::Failed("invalid agent input: "@ + e)),
        Ok(spec) => match rendered_text(scope, spec.prompt) {
            Err(e) => Err(render_fail(e)),
            Ok(prompt) => match spec.system_prompt {
                None => agent_started(spec, prompt, None),
                Some(template) => match rendered_text(scope, template) {
                    Err(e) => Err(render_fail(e)),
                    Ok(extra) => agent_started(spec, prompt, Some(extra)),
                },
            },
        },
    }
}

/// Begins an agent step in a scope, so it works identically at the top level and
/// inside a body.
pub fn begin_agent(input: &Fields, scope: &Fields) -> (r: Result<AgentStart, StepFail>)
    ensures
        agent_start_view(r) == agent_begun(input@, scope@),
{
    let spec = match AgentSpec::from_input(input) {
        Ok(spec) => spec,
        Err(e) => {
            return Err(StepFail::Failed(cat2("invalid agent input: ", e.as_str())));
        },
    };
    let prompt = match render_str(spec.prompt.as_str(), &Roots::new(scope)) {
        Ok(prompt) => prompt,
        Err(e) => {
            return Err(classify(e));
        },
    };
    let schema = pretty(&spec.output_schema);
    let base = cat3(
        "You are an AI agent operating inside a plan pipeline. Your job is to complete the task described in the prompt by calling tools and reasoning over their results.\n\nCRITICAL: Your final response MUST be valid JSON conforming to the output schema provided. After using tools to gather information, produce your answer as a single JSON object matching the schema exactly. Do not include any text outside the JSON object. Do not include markdown code fences.\n\nIf you cannot complete the task after the available tool calls, produce a best-effort result that still conforms to the output schema (use empty arrays, null values, etc.).",
        "\n\nOutput schema:\n",
        schema.as_str(),
    );
    let system = match &spec.system_prompt {
        None => base,
        Some(template) => match render_str(template.as_str(), &Roots::new(scope)) {
            Ok(extra) => cat3(base.as_str(), "\n\n", extra.as_str()),
            Err(e) => {
                return Err(classify(e));
            },
        },
    };
    // Validation rejects an empty `tools` list, but a plan can reach the executor
    // unvalidated, and "all tools" is the wrong guess to make here.
    let patterns = match spec.tools {
        Some(patterns) => {
            if patterns.len() == 0 {
                return Err(
                    StepFail::Failed(
                        "`tools` is empty — omit it to expose the whole catalogue, or name at least one tool or pattern".to_owned(),
                    ),
                );
            }
            patterns
        },
        None => {
            let none: Vec<String> = Vec::new();
            assert(texts(none@) =~= Seq::<Seq<char>>::empty());
            none
        },
    };
    let model = match spec.model {
        Some(model) => model,
        None => "chat".to_owned(),
    };
    Ok(
        AgentStart {
            prompt,
            system,
            model,
            patterns,
            max_iterations: spec.max_iterations,
            output_schema: spec.output_schema,
        },
    )
}

// ── Rounds ───────────────────────────────────────────────────────────────

/// An agent between two model calls.
#[derive(Debug)]
pub struct AgentWork {
    pub system: String,
    pub model: String,
    pub tools: Vec<ToolSpec>,
    pub output_schema: Data,
    pub max_iterations: u32,
    pub messages: Vec<ChatMessage>,
    pub tools_called: Vec<ToolCallEntry>,
    /// How many rounds there were.
    pub round: u32,
}

/// The model of an [`AgentWork`].
pub struct AgentWorkView {
    pub system: Seq<char>,
    pub model: Seq<char>,
    pub tools: Seq<ToolSpecView>,
    pub output_schema: Json,
    pub max_iterations: int,
    pub messages: Seq<ChatMessageView>,
    pub tools_called: Seq<ToolCallEntryView>,
    pub round: int,
}

impl AgentWork {
    pub open spec fn view(&self) -> AgentWorkView {
        AgentWorkView {
            system: self.system@,
            model: self.model@,
            tools: specs_view(self.tools@),
            output_schema: self.output_schema@,
            max_iterations: self.max_iterations as int,
            messages: messages_view(self.messages@),
            tools_called: log_view(self.tools_called@),
            round: self.round as int,
        }
    }
}

/// Tools without the free-form planner: nested planning loops have no coherent
/// cost boundary.
pub open spec fn without_planner(tools: Seq<ToolDefView>) -> Seq<ToolDefView> {
    tools.filter(|t: ToolDefView| t.name != "plan_and_execute"@)
}

/// An agent before its first round.
pub open spec fn agent_entered(s: AgentStartView, tools: Seq<ToolDefView>) -> AgentWorkView {
    AgentWorkView {
        system: s.system,
        model: s.model,
        tools: specs_of(without_planner(tools)),
        output_schema: s.output_schema,
        max_iterations: s.max_iterations,
        messages: seq![ChatMessageView::User(s.prompt)],
        tools_called: Seq::empty(),
        round: 0,
    }
}

fn drop_planner(tools: Vec<ToolDef>) -> (r: Vec<ToolDef>)
    ensures
        tools_view(r@) == without_planner(tools_view(tools@)),
{
    let ghost all = tools_view(tools@);
    let ghost keep = |t: ToolDefView| t.name != "plan_and_execute"@;
    let mut out: Vec<ToolDef> = Vec::new();
    proof {
        reveal(Seq::filter);
        assert(tools_view(out@) =~= all.take(0).filter(keep));
    }
    for tool in it: tools
        invariant
            it.seq() == tools@,
            all == tools_view(tools@),
            keep == (|t: ToolDefView| t.name != "plan_and_execute"@),
            tools_view(out@) == all.take(it.index() as int).filter(keep),
    {
        let ghost i = it.index() as int;
        proof {
            reveal(Seq::filter);
            assert(all.take(i + 1).drop_last() =~= all.take(i));
            assert(all.take(i + 1).last() == tool@);
        }
        if !same_text(tool.name.as_str(), "plan_and_execute") {
            let ghost before = tools_view(out@);
            out.push(tool);
            assert(tools_view(out@) =~= before.push(tool@));
        }
    }
    assert(all.take(all.len() as int) =~= all);
    out
}

/// Starts an agent's loop with the tools that its patterns select.
pub fn enter_agent(start: AgentStart, tools: Vec<ToolDef>) -> (r: AgentWork)
    ensures
        r@ == agent_entered(start@, tools_view(tools@)),
{
    let messages = vec![ChatMessage::User { content: start.prompt }];
    assert(messages_view(messages@) =~= seq![ChatMessageView::User(start.prompt@)]);
    let tools_called: Vec<ToolCallEntry> = Vec::new();
    assert(log_view(tools_called@) =~= Seq::<ToolCallEntryView>::empty());
    AgentWork {
        system: start.system,
        model: start.model,
        tools: offer(drop_planner(tools)),
        output_schema: start.output_schema,
        max_iterations: start.max_iterations,
        messages,
        tools_called,
        round: 0,
    }
}

/// A completed agent run: the result plus the number of real tool dispatches it
/// performed, for the accounting.
#[derive(Debug)]
pub struct AgentRun {
    pub result: AgentResult,
    pub tool_calls: usize,
}

/// The model of an [`AgentRun`].
pub struct AgentRunView {
    pub result: AgentResultView,
    pub tool_calls: int,
}

impl AgentRun {
    pub open spec fn view(&self) -> AgentRunView {
        AgentRunView { result: self.result@, tool_calls: self.tool_calls as int }
    }
}

/// A run that ends with an answer, or with the rounds spent.
pub open spec fn agent_over(
    w: AgentWorkView,
    output: Json,
    iterations: int,
    final_: bool,
) -> AgentRunView {
    AgentRunView {
        result: AgentResultView { output, iterations, tools_called: w.tools_called, final_ },
        tool_calls: w.tools_called.len() as int,
    }
}

fn finish_run(w: AgentWork, output: Data, iterations: u32, final_: bool) -> (r: AgentRun)
    ensures
        r@ == agent_over(w@, output@, iterations as int, final_),
{
    let tool_calls: usize = w.tools_called.len();
    AgentRun {
        result: AgentResult { output, iterations, tools_called: w.tools_called, final_ },
        tool_calls,
    }
}

/// What the model is told in its last round.
pub open spec fn final_turn_text() -> Seq<char> {
    "This is your final turn: no more tools are available. Answer now with a single JSON object matching the output schema, using what you have."@
}

/// How an agent goes on: with a model call, or not.
#[derive(Debug)]
pub enum AgentTurn {
    Ask { work: AgentWork, request: ChatRequest },
    Over(AgentRun),
}

/// The model of an [`AgentTurn`].
pub enum AgentTurnView {
    Ask(AgentWorkView, ChatRequestView),
    Over(AgentRunView),
}

impl AgentTurn {
    pub open spec fn view(&self) -> AgentTurnView {
        match self {
            AgentTurn::Ask { work, request } => AgentTurnView::Ask(work@, request@),
            AgentTurn::Over(run) => AgentTurnView::Over(run@),
        }
    }
}

/// How an agent goes on. Its last round withdraws the tools and forces the
/// output schema. Where the rounds are spent without a conforming answer, that
/// is reported rather than a result invented.
pub open spec fn agent_turn(w: AgentWorkView) -> AgentTurnView {
    if w.round >= w.max_iterations {
        AgentTurnView::Over(agent_over(w, Json::Object(Entries::empty()), w.max_iterations, false))
    } else {
        let last = w.round + 1 >= w.max_iterations;
        let messages = if last {
            w.messages.push(ChatMessageView::User(final_turn_text()))
        } else {
            w.messages
        };
        AgentTurnView::Ask(
            AgentWorkView { round: w.round + 1, messages, ..w },
            ChatRequestView {
                model: w.model,
                system: w.system,
                messages,
                tools: if last {
                    Seq::empty()
                } else {
                    w.tools
                },
                response_schema: if last {
                    Some(w.output_schema)
                } else {
                    None
                },
            },
        )
    }
}

/// Decides how an agent goes on.
pub fn next_turn(work: AgentWork) -> (r: AgentTurn)
    ensures
        r@ == agent_turn(work@),
{
    let mut w = work;
    if w.round >= w.max_iterations {
        let spent: u32 = w.max_iterations;
        return AgentTurn::Over(finish_run(w, Data::Object(Fields::new()), spent, false));
    }
    let last = w.round + 1 >= w.max_iterations;
    w.round = w.round + 1;
    let (tools, response_schema) = if last {
        push_message(
            &mut w.messages,
            ChatMessage::User {
                content: "This is your final turn: no more tools are available. Answer now with a single JSON object matching the output schema, using what you have.".to_owned(),
            },
        );
        let none: Vec<ToolSpec> = Vec::new();
        assert(specs_view(none@) =~= Seq::<ToolSpecView>::empty());
        (none, Some(w.output_schema.copy()))
    } else {
        (copy_specs(&w.tools), None)
    };
    let request = ChatRequest {
        model: w.model.clone(),
        system: w.system.clone(),
        messages: copy_messages(&w.messages),
        tools,
        response_schema,
    };
    AgentTurn::Ask { work: w, request }
}

/// What an agent does with a model's response.
#[derive(Debug)]
pub enum AgentNext {
    /// The step fails.
    Fail(StepFail),
    /// Another round.
    On(AgentWork),
    /// The step has its result.
    Done(AgentRun),
    /// A text is to be checked as the answer.
    Answer { work: AgentWork, text: String },
    /// Tool calls are to be made.
    Calls { work: AgentWork, calls: Vec<ToolCall> },
    /// An answer misses the schema, and is to be repaired once.
    Repair { work: AgentWork, value: Data, problem: String },
}

/// The model of an [`AgentNext`].
pub enum AgentNextView {
    Fail(StepFailView),
    On(AgentWorkView),
    Done(AgentRunView),
    Answer(AgentWorkView, Seq<char>),
    Calls(AgentWorkView, Seq<ToolCallView>),
    Repair(AgentWorkView, Json, Seq<char>),
}

impl AgentNext {
    pub open spec fn view(&self) -> AgentNextView {
        match self {
            AgentNext::Fail(e) => AgentNextView::Fail(e@),
            AgentNext::On(w) => AgentNextView::On(w@),
            AgentNext::Done(run) => AgentNextView::Done(run@),
            AgentNext::Answer { work, text } => AgentNextView::Answer(work@, text@),
            AgentNext::Calls { work, calls } => AgentNextView::Calls(work@, calls_view(calls@)),
            AgentNext::Repair { work, value, problem } => AgentNextView::Repair(
                work@,
                value@,
                problem@,
            ),
        }
    }
}

/// An agent with one more message.
pub open spec fn with_message(w: AgentWorkView, m: ChatMessageView) -> AgentWorkView {
    AgentWorkView { messages: w.messages.push(m), ..w }
}

/// What a model is told that answered nothing.
pub open spec fn nudge_text() -> Seq<char> {
    "Provide your answer as JSON matching the output schema, or call tools to gather what you still need."@
}

/// The entries that a round's calls add to the log.
pub open spec fn logged(calls: Seq<ToolCallView>, round: int) -> Seq<ToolCallEntryView> {
    Seq::new(calls.len(), |i: int| ToolCallEntryView { tool: calls[i].name, round })
}

/// What an agent does with a model's response.
pub open spec fn agent_responded(
    w: AgentWorkView,
    response: Result<ChatResponseView, Seq<char>>,
) -> AgentNextView {
    match response {
        Err(e) => AgentNextView::Fail(StepFailView::Failed("LLM call failed: "@ + e)),
        Ok(r) => {
            let heard = with_message(w, ChatMessageView::Assistant(r.content, r.tool_calls));
            if r.tool_calls.len() > 0 {
                AgentNextView::Calls(
                    AgentWorkView {
                        tools_called: heard.tools_called + logged(r.tool_calls, heard.round),
                        ..heard
                    },
                    r.tool_calls,
                )
            } else {
                match r.structured {
                    Some(v) => AgentNextView::Done(agent_over(heard, v, heard.round, true)),
                    None => {
                        let text = match r.content {
                            Some(t) => t,
                            None => Seq::empty(),
                        };
                        if trimmed(text).len() > 0 {
                            AgentNextView::Answer(heard, text)
                        } else if r.stop_reason == StopReason::MaxTokens {
                            AgentNextView::Fail(
                                StepFailView::Failed(
                                    "model hit output-token limit without producing text or tool calls"@,
                                ),
                            )
                        } else {
                            AgentNextView::On(
                                with_message(heard, ChatMessageView::User(nudge_text())),
                            )
                        }
                    },
                }
            }
        },
    }
}

pub open spec fn response_view(r: Result<ChatResponse, String>) -> Result<
    ChatResponseView,
    Seq<char>,
> {
    match r {
        Ok(r) => Ok(r@),
        Err(e) => Err(e@),
    }
}

fn log_calls(log: &mut Vec<ToolCallEntry>, calls: &Vec<ToolCall>, round: u32)
    ensures
        log_view(final(log)@) == log_view(old(log)@) + logged(calls_view(calls@), round as int),
{
    let ghost before = log_view(log@);
    let ghost entries = logged(calls_view(calls@), round as int);
    let mut i: usize = 0;
    assert(before + entries.take(0) =~= before);
    while i < calls.len()
        invariant
            i <= calls@.len(),
            entries == logged(calls_view(calls@), round as int),
            log_view(log@) == before + entries.take(i as int),
        decreases calls.len() - i,
    {
        let ghost so_far = log_view(log@);
        log.push(ToolCallEntry { tool: calls[i].name.clone(), round });
        assert(log_view(log@) =~= so_far.push(entries[i as int]));
        i += 1;
        assert(before + entries.take(i as int) =~= (before + entries.take(i - 1)).push(
            entries[i - 1],
        ));
    }
    assert(entries.take(i as int) =~= entries);
}

/// Goes on from a model's response.
pub fn after_response(work: AgentWork, response: Result<ChatResponse, String>) -> (r: AgentNext)
    ensures
        r@ == agent_responded(work@, response_view(response)),
{
    let mut w = work;
    let response = match response {
        Ok(response) => response,
        Err(e) => {
            return AgentNext::Fail(StepFail::Failed(cat2("LLM call failed: ", e.as_str())));
        },
    };
    push_message(
        &mut w.messages,
        ChatMessage::Assistant {
            content: crate::pipeline::plan::copy_option(&response.content),
            tool_calls: copy_calls(&response.tool_calls),
        },
    );
    if response.tool_calls.len() > 0 {
        let round: u32 = w.round;
        log_calls(&mut w.tools_called, &response.tool_calls, round);
        return AgentNext::Calls { work: w, calls: response.tool_calls };
    }
    if let Some(v) = response.structured {
        let round: u32 = w.round;
        return AgentNext::Done(finish_run(w, v, round, true));
    }
    let text = match response.content {
        Some(text) => text,
        None => {
            let empty = String::new();
            assert(empty@ =~= Seq::<char>::empty());
            empty
        },
    };
    let visible = chars_of(trim_text(text.as_str()).as_str());
    if visible.len() > 0 {
        AgentNext::Answer { work: w, text }
    } else if response.stop_reason == StopReason::MaxTokens {
        AgentNext::Fail(
            StepFail::Failed(
                "model hit output-token limit without producing text or tool calls".to_owned(),
            ),
        )
    } else {
        push_message(
            &mut w.messages,
            ChatMessage::User {
                content: "Provide your answer as JSON matching the output schema, or call tools to gather what you still need.".to_owned(),
            },
        );
        AgentNext::On(w)
    }
}

// ── Answers ──────────────────────────────────────────────────────────────

/// A text after the first line of it, or all of it where it is one line.
pub open spec fn after_first_line(s: Seq<char>) -> Seq<char> {
    match find_from(s, seq!['\n'], 0) {
        Some(k) => s.skip(k + 1),
        None => s,
    }
}

/// A text without a fence at its end.
pub open spec fn unfenced_end(s: Seq<char>) -> Seq<char> {
    if ends(s, "```"@) {
        s.take(s.len() - 3)
    } else {
        s
    }
}

/// What stands in the fence that a text begins with, with or without a language
/// tag.
pub open spec fn fenced(s: Seq<char>) -> Seq<char> {
    trimmed(unfenced_end(after_first_line(s.skip(3))))
}

/// The last place of a character, looking back from `n`.
pub open spec fn last_place(s: Seq<char>, c: char, n: int) -> Option<int>
    decreases n,
{
    if n <= 0 || n > s.len() {
        None
    } else if s[n - 1] == c {
        Some(n - 1)
    } else {
        last_place(s, c, n - 1)
    }
}

/// What stands between the outermost braces of a text, with them.
pub open spec fn braced(s: Seq<char>) -> Option<Seq<char>> {
    match (find_from(s, seq!['{'], 0), last_place(s, '}', s.len() as int)) {
        (Some(start), Some(end)) => if end > start {
            Some(s.subrange(start, end + 1))
        } else {
            None
        },
        _ => None,
    }
}

/// The texts that an answer's JSON is looked for in, in order: the whole answer,
/// a fenced block, and what the outermost braces hold. Real models routinely
/// wrap an answer in a fence or precede it with a sentence.
pub open spec fn answer_candidates(text: Seq<char>) -> Seq<Seq<char>> {
    let t = trimmed(text);
    seq![t] + (if begins(t, "```"@) {
        seq![fenced(t)]
    } else {
        Seq::empty()
    }) + (match braced(t) {
        Some(inner) => seq![inner],
        None => Seq::empty(),
    })
}

/// The first of some texts, from `i` on, that is JSON.
pub open spec fn first_json(candidates: Seq<Seq<char>>, i: int) -> Option<Json>
    decreases candidates.len() - i,
{
    if i < 0 || i >= candidates.len() {
        None
    } else {
        match json_reading(candidates[i]) {
            Ok(v) => Some(v),
            Err(_) => first_json(candidates, i + 1),
        }
    }
}

fn find_last(s: &Vec<char>, c: char) -> (r: Option<usize>)
    ensures
        match r {
            Some(i) => last_place(s@, c, s@.len() as int) == Some(i as int) && i < s@.len(),
            None => last_place(s@, c, s@.len() as int) is None,
        },
{
    let mut n: usize = s.len();
    while n > 0
        invariant
            n <= s@.len(),
            last_place(s@, c, s@.len() as int) == last_place(s@, c, n as int),
        decreases n,
    {
        if s[n - 1] == c {
            return Some(n - 1);
        }
        n -= 1;
    }
    None
}

fn fenced_text(chars: &Vec<char>) -> (r: String)
    requires
        chars@.len() >= 3,
    ensures
        r@ == fenced(chars@),
{
    let total: usize = chars.len();
    let rest = crate::text::slice_chars(chars, 3, total);
    assert(rest@ =~= chars@.skip(3));
    let newline: Vec<char> = vec!['\n'];
    assert(newline@ =~= seq!['\n']);
    let length: usize = rest.len();
    let body = match find_chars(&rest, &newline, 0) {
        Some(k) => {
            let body = crate::text::slice_chars(&rest, k + 1, length);
            assert(body@ =~= rest@.skip(k + 1));
            body
        },
        None => rest,
    };
    let text = crate::text::text_of(&body);
    proof {
        reveal_strlit("```");
    }
    let inner = if crate::text::ends_with(text.as_str(), "```") {
        let kept = slice_text(&body, 0, body.len() - 3);
        assert(kept@ =~= text@.take(text@.len() - 3));
        kept
    } else {
        text
    };
    trim_text(inner.as_str())
}

/// The texts that an answer's JSON is looked for in, in order.
pub fn candidate_texts(text: &str) -> (r: Vec<String>)
    ensures
        texts(r@) == answer_candidates(text@),
{
    let t = trim_text(text);
    let chars = chars_of(t.as_str());
    let total: usize = chars.len();
    let mut out: Vec<String> = Vec::new();
    out.push(t.clone());
    assert(texts(out@) =~= seq![t@]);
    broadcast use crate::seqs::append_nothing;

    if starts_with(t.as_str(), "```") {
        proof {
            reveal_strlit("```");
        }
        crate::text::push_text(&mut out, fenced_text(&chars));
    }
    let open: Vec<char> = vec!['{'];
    assert(open@ =~= seq!['{']);
    if let Some(start) = find_chars(&chars, &open, 0) {
        if let Some(end) = find_last(&chars, '}') {
            assert(end < total);
            if end > start {
                crate::text::push_text(&mut out, slice_text(&chars, start, end + 1));
            }
        }
    }
    out
}

/// Pulls a JSON value out of a model's text answer.
pub fn extract_json(text: &str) -> (r: Option<Data>)
    ensures
        data_view(r) == first_json(answer_candidates(text@), 0),
{
    let candidates = candidate_texts(text);
    let ghost all = answer_candidates(text@);
    let mut i: usize = 0;
    while i < candidates.len()
        invariant
            i <= candidates@.len(),
            all == texts(candidates@),
            all == answer_candidates(text@),
            first_json(all, 0) == first_json(all, i as int),
        decreases candidates.len() - i,
    {
        assert(all[i as int] == candidates@[i as int]@);
        match parse_json(candidates[i].as_str()) {
            Ok(v) => {
                return Some(v);
            },
            Err(_) => {},
        }
        i += 1;
    }
    None
}

/// What a text is as an answer in a schema.
#[derive(Debug)]
pub enum AnswerCheck {
    NotJson,
    /// The schema itself is none.
    BadSchema(String),
    Fits(Data),
    Misses { value: Data, errors: Vec<String> },
}

/// The model of an [`AnswerCheck`].
pub enum AnswerCheckView {
    NotJson,
    BadSchema(Seq<char>),
    Fits(Json),
    Misses(Json, Seq<Seq<char>>),
}

impl AnswerCheck {
    pub open spec fn view(&self) -> AnswerCheckView {
        match self {
            AnswerCheck::NotJson => AnswerCheckView::NotJson,
            AnswerCheck::BadSchema(e) => AnswerCheckView::BadSchema(e@),
            AnswerCheck::Fits(v) => AnswerCheckView::Fits(v@),
            AnswerCheck::Misses { value, errors } => AnswerCheckView::Misses(
                value@,
                texts(errors@),
            ),
        }
    }
}

/// What a text is as an answer in a schema.
pub open spec fn answer_checked(text: Seq<char>, schema: Json) -> AnswerCheckView {
    match first_json(answer_candidates(text), 0) {
        None => AnswerCheckView::NotJson,
        Some(v) => match schema_fault(schema) {
            Some(e) => AnswerCheckView::BadSchema(e),
            None => if schema_errors(schema, v).len() == 0 {
                AnswerCheckView::Fits(v)
            } else {
                AnswerCheckView::Misses(v, schema_errors(schema, v))
            },
        },
    }
}

/// Checks a text as an answer in a schema.
pub fn check_answer(text: &str, schema: &Data) -> (r: AnswerCheck)
    ensures
        r@ == answer_checked(text@, schema@),
{
    let value = match extract_json(text) {
        Some(value) => value,
        None => {
            return AnswerCheck::NotJson;
        },
    };
    if let Some(e) = schema_problem(schema) {
        return AnswerCheck::BadSchema(e);
    }
    match value_problems(schema, &value) {
        Some(errors) => if errors.len() == 0 {
            AnswerCheck::Fits(value)
        } else {
            AnswerCheck::Misses { value, errors }
        },
        None => AnswerCheck::NotJson,
    }
}

/// What a model is told whose answer does not do.
pub open spec fn correction_text(problem: Seq<char>) -> Seq<char> {
    "Your output did not match the required schema: "@ + problem
        + "\n\nReply with corrected JSON only."@
}

/// An agent whose answer did not do.
pub open spec fn corrected(w: AgentWorkView, problem: Seq<char>) -> AgentNextView {
    AgentNextView::On(with_message(w, ChatMessageView::User(correction_text(problem))))
}

/// What an agent does with a checked answer.
pub open spec fn agent_answered(
    w: AgentWorkView,
    text: Seq<char>,
    check: AnswerCheckView,
) -> AgentNextView {
    match check {
        AnswerCheckView::NotJson => corrected(
            w,
            "output is not valid JSON: "@ + shortened(trimmed(text), MAX_QUOTED_CHARS as int),
        ),
        AnswerCheckView::BadSchema(e) => corrected(w, "invalid output schema: "@ + e),
        AnswerCheckView::Fits(v) => AgentNextView::Done(agent_over(w, v, w.round, true)),
        AnswerCheckView::Misses(v, errors) => AgentNextView::Repair(w, v, joined(errors, "; "@)),
    }
}

fn correct(work: AgentWork, problem: &str) -> (r: AgentNext)
    ensures
        r@ == corrected(work@, problem@),
{
    let mut w = work;
    push_message(
        &mut w.messages,
        ChatMessage::User {
            content: cat3(
                "Your output did not match the required schema: ",
                problem,
                "\n\nReply with corrected JSON only.",
            ),
        },
    );
    AgentNext::On(w)
}

/// Goes on from a checked answer. One that misses the schema gets one repair,
/// which is not a round.
pub fn after_answer(work: AgentWork, text: &str, check: AnswerCheck) -> (r: AgentNext)
    ensures
        r@ == agent_answered(work@, text@, check@),
{
    match check {
        AnswerCheck::NotJson => {
            let quoted = truncate_for_error(text);
            correct(work, cat2("output is not valid JSON: ", quoted.as_str()).as_str())
        },
        AnswerCheck::BadSchema(e) => correct(
            work,
            cat2("invalid output schema: ", e.as_str()).as_str(),
        ),
        AnswerCheck::Fits(v) => {
            let round: u32 = work.round;
            AgentNext::Done(finish_run(work, v, round, true))
        },
        AnswerCheck::Misses { value, errors } => {
            let problem = join(&errors, "; ");
            AgentNext::Repair { work, value, problem }
        },
    }
}

/// What an agent does with a repaired answer, given what is still wrong with
/// it.
pub open spec fn agent_repaired(
    w: AgentWorkView,
    repaired: Result<Json, Seq<char>>,
    remaining: Seq<Seq<char>>,
) -> AgentNextView {
    match repaired {
        Err(e) => corrected(w, "output repair failed: "@ + e),
        Ok(v) => if remaining.len() == 0 {
            AgentNextView::Done(agent_over(w, v, w.round, true))
        } else {
            corrected(
                w,
                "output still does not match schema after repair: "@ + joined(remaining, "; "@),
            )
        },
    }
}

pub open spec fn repair_view(r: Result<Data, String>) -> Result<Json, Seq<char>> {
    match r {
        Ok(v) => Ok(v@),
        Err(e) => Err(e@),
    }
}

/// Goes on from a repaired answer, given what is still wrong with it.
pub fn conclude_repair(work: AgentWork, repaired: Result<Data, String>, remaining: &Vec<String>) -> (r:
    AgentNext)
    ensures
        r@ == agent_repaired(work@, repair_view(repaired), texts(remaining@)),
{
    match repaired {
        Err(e) => correct(work, cat2("output repair failed: ", e.as_str()).as_str()),
        Ok(v) => if remaining.len() == 0 {
            let round: u32 = work.round;
            AgentNext::Done(finish_run(work, v, round, true))
        } else {
            let problem = join(remaining, "; ");
            correct(
                work,
                cat2(
                    "output still does not match schema after repair: ",
                    problem.as_str(),
                ).as_str(),
            )
        },
    }
}

/// What an agent does with a repaired answer, which is checked again.
pub open spec fn agent_rechecked(
    w: AgentWorkView,
    repaired: Result<Json, Seq<char>>,
) -> AgentNextView {
    match (repaired, schema_fault(w.output_schema)) {
        (Ok(_), Some(e)) => corrected(w, "invalid output schema: "@ + e),
        (Ok(v), None) => agent_repaired(w, repaired, schema_errors(w.output_schema, v)),
        (Err(_), _) => agent_repaired(w, repaired, Seq::empty()),
    }
}

/// Goes on from a repaired answer, which is checked again.
pub fn after_repair(work: AgentWork, repaired: Result<Data, String>) -> (r: AgentNext)
    ensures
        r@ == agent_rechecked(work@, repair_view(repaired)),
{
    let none: Vec<String> = Vec::new();
    assert(texts(none@) =~= Seq::<Seq<char>>::empty());
    let remaining = match &repaired {
        Ok(v) => {
            if let Some(e) = schema_problem(&work.output_schema) {
                return correct(work, cat2("invalid output schema: ", e.as_str()).as_str());
            }
            match value_problems(&work.output_schema, v) {
                Some(errors) => errors,
                None => none,
            }
        },
        Err(_) => none,
    };
    conclude_repair(work, repaired, &remaining)
}

// ── Tool calls ───────────────────────────────────────────────────────────

/// Where a tool call of an agent's round sits in the plan.
pub open spec fn agent_call_path(path: StepPathView, round: int, tool: Seq<char>) -> StepPathView {
    nested_path(path, "agent."@ + numeral(round as nat), Some(tool))
}

/// Where a tool call of an agent's round sits in the plan.
pub fn path_of_call(path: &StepPath, round: u32, tool: &str) -> (r: StepPath)
    ensures
        r@ == agent_call_path(path@, round as int, tool@),
{
    path.nested(cat2("agent.", decimal(round as u64).as_str()).as_str(), Some(tool))
}

/// The refusal of the free-form planner inside an agent.
pub open spec fn refused_call(tool: Seq<char>) -> Option<DispatchErrorView> {
    if tool == "plan_and_execute"@ {
        Some(
            DispatchErrorView::Failed(
                "plan_and_execute is not available inside an agent step; call a plan (plan__*) instead"@,
            ),
        )
    } else {
        None
    }
}

/// Refuses the free-form planner inside an agent: it is not offered, but a model
/// that asks for it anyway would get nested planning.
pub fn refuse_call(tool: &str) -> (r: Option<DispatchError>)
    ensures
        (match r {
            Some(e) => Some(e@),
            None => None,
        }) == refused_call(tool@),
{
    if same_text(tool, "plan_and_execute") {
        Some(
            DispatchError::Failed(
                "plan_and_execute is not available inside an agent step; call a plan (plan__*) instead".to_owned(),
            ),
        )
    } else {
        None
    }
}

pub open spec fn outcomes_of_calls(s: Seq<Result<Data, DispatchError>>) -> Seq<
    Result<Json, DispatchErrorView>,
> {
    Seq::new(s.len(), |i: int| call_view(s[i]))
}

/// What a model is told of a tool call. A tool *error* is not a step failure: it
/// returns into the loop so the agent can explain or work around it.
pub open spec fn call_told(
    id: Seq<char>,
    outcome: Result<Json, DispatchErrorView>,
) -> Seq<ChatMessageView> {
    match outcome {
        Ok(v) => seq![
            ChatMessageView::ToolResult { tool_call_id: id, content: v, is_error: false },
        ],
        Err(DispatchErrorView::Failed(m)) => seq![
            ChatMessageView::ToolResult { tool_call_id: id, content: error_json(m), is_error: true },
        ],
        Err(DispatchErrorView::Aborted(_)) => Seq::empty(),
    }
}

/// What a model is told of the first `n` calls.
pub open spec fn calls_told(
    calls: Seq<ToolCallView>,
    outcomes: Seq<Result<Json, DispatchErrorView>>,
    n: int,
) -> Seq<ChatMessageView>
    decreases n,
{
    if n <= 0 || n > calls.len() || n > outcomes.len() {
        Seq::empty()
    } else {
        calls_told(calls, outcomes, n - 1) + call_told(calls[n - 1].id, outcomes[n - 1])
    }
}

/// The first abort among the first `n` outcomes.
pub open spec fn first_abort(outcomes: Seq<Result<Json, DispatchErrorView>>, n: int) -> Option<
    Option<Json>,
>
    decreases n,
{
    if n <= 0 || n > outcomes.len() {
        None
    } else {
        match first_abort(outcomes, n - 1) {
            Some(e) => Some(e),
            None => match outcomes[n - 1] {
                Err(DispatchErrorView::Aborted(error)) => Some(error),
                _ => None,
            },
        }
    }
}

/// What an agent does once a round's calls are done. A gate's *abort* is a hard
/// stop, honoured once every call in flight is done.
pub open spec fn agent_called(
    w: AgentWorkView,
    calls: Seq<ToolCallView>,
    outcomes: Seq<Result<Json, DispatchErrorView>>,
) -> AgentNextView {
    match first_abort(outcomes, calls.len() as int) {
        Some(error) => AgentNextView::Fail(StepFailView::Aborted(error)),
        None => AgentNextView::On(
            AgentWorkView {
                messages: w.messages + calls_told(calls, outcomes, calls.len() as int),
                ..w
            },
        ),
    }
}

pub open spec fn abort_view(o: Option<Option<Data>>) -> Option<Option<Json>> {
    match o {
        Some(e) => Some(data_view(e)),
        None => None,
    }
}

/// Goes on from a round's tool calls, whose outcomes stand in the order of the
/// calls.
pub fn after_calls(
    work: AgentWork,
    calls: &Vec<ToolCall>,
    outcomes: Vec<Result<Data, DispatchError>>,
) -> (r: AgentNext)
    requires
        calls@.len() == outcomes@.len(),
    ensures
        r@ == agent_called(work@, calls_view(calls@), outcomes_of_calls(outcomes@)),
{
    let ghost asked = calls_view(calls@);
    let ghost done = outcomes_of_calls(outcomes@);
    let mut told: Vec<ChatMessage> = Vec::new();
    let mut abort: Option<Option<Data>> = None;
    let mut i: usize = 0;
    assert(messages_view(told@) =~= calls_told(asked, done, 0));
    for outcome in it: outcomes
        invariant
            it.seq() == outcomes@,
            i == it.index(),
            calls@.len() == outcomes@.len(),
            asked == calls_view(calls@),
            done == outcomes_of_calls(outcomes@),
            messages_view(told@) == calls_told(asked, done, i as int),
            abort_view(abort) == first_abort(done, i as int),
    {
        assert(done[i as int] == call_view(outcome));
        assert(asked[i as int] == calls@[i as int]@);
        let ghost before = messages_view(told@);
        match outcome {
            Ok(result) => {
                push_message(
                    &mut told,
                    ChatMessage::ToolResult {
                        tool_call_id: calls[i].id.clone(),
                        content: result,
                        is_error: false,
                    },
                );
                assert(messages_view(told@) =~= before + call_told(
                    asked[i as int].id,
                    done[i as int],
                ));
            },
            Err(DispatchError::Failed(message)) => {
                push_message(
                    &mut told,
                    ChatMessage::ToolResult {
                        tool_call_id: calls[i].id.clone(),
                        content: error_data(message.as_str()),
                        is_error: true,
                    },
                );
                assert(messages_view(told@) =~= before + call_told(
                    asked[i as int].id,
                    done[i as int],
                ));
            },
            Err(DispatchError::Aborted { error }) => {
                if abort.is_none() {
                    abort = Some(error);
                }
                assert(before + call_told(asked[i as int].id, done[i as int]) =~= before);
            },
        }
        assert(i < calls.len());
        i = i + 1;
    }
    match abort {
        Some(error) => AgentNext::Fail(StepFail::Aborted(error)),
        None => {
            let mut w = work;
            extend_messages(&mut w.messages, told);
            AgentNext::On(w)
        },
    }
}

// ── The run's record ─────────────────────────────────────────────────────

pub open spec fn agent_run_view(r: Result<AgentRun, StepFail>) -> Result<
    AgentRunView,
    StepFailView,
> {
    match r {
        Ok(run) => Ok(run@),
        Err(e) => Err(e@),
    }
}

/// What is noted of an agent.
pub open spec fn agent_note(run: AgentRunView) -> Seq<char> {
    "agent: "@ + numeral(run.result.iterations as nat) + " round(s), "@ + numeral(
        run.tool_calls as nat,
    ) + " tool call(s)"@ + (if run.result.final_ {
        ""@
    } else {
        " — budget exhausted"@
    })
}

/// What a top-level agent step does to the run. Its tool calls are real
/// dispatches at depth, counted the way body calls are.
pub open spec fn agent_recorded(
    s: RunStateView,
    step: Seq<char>,
    run: Result<AgentRunView, StepFailView>,
) -> (RunStateView, Result<Json, ExecutionEndView>) {
    match run {
        Ok(run) => (
            with_note(
                RunStateView {
                    branch_steps_executed: s.branch_steps_executed + run.tool_calls,
                    ..s
                },
                step,
                BusKind::Info,
                agent_note(run),
            ),
            Ok(agent_json(run.result)),
        ),
        Err(fail) => (s, Err(fail_end(fail, step, "agent"@))),
    }
}

/// Ends a top-level agent step.
pub fn record_agent(state: &mut RunState, step: &str, run: Result<AgentRun, StepFail>) -> (r: Result<
    Data,
    ExecutionEnd,
>)
    requires
        run matches Ok(done) ==> old(state).branch_steps_executed + done.tool_calls <= usize::MAX,
    ensures
        (final(state)@, run_view(r)) == agent_recorded(
            old(state)@,
            step@,
            agent_run_view(run),
        ),
{
    match run {
        Ok(run) => {
            state.branch_steps_executed = state.branch_steps_executed + run.tool_calls;
            let rounds = decimal(run.result.iterations as u64);
            let calls = decimal_usize(run.tool_calls);
            let suffix = if run.result.final_ {
                ""
            } else {
                " — budget exhausted"
            };
            let note = cat6(
                "agent: ",
                rounds.as_str(),
                " round(s), ",
                calls.as_str(),
                " tool call(s)",
                suffix,
            );
            state.push_bus(step, BusKind::Info, note.as_str());
            Ok(run.result.to_value())
        },
        Err(fail) => Err(end_of_fail(fail, step, "agent")),
    }
}

// ── Laws ─────────────────────────────────────────────────────────────────

/// Every model call is a round, and there are no more rounds than the step
/// allows.
pub proof fn an_agent_keeps_its_budget(w: AgentWorkView)
    requires
        0 <= w.round <= w.max_iterations,
    ensures
        match agent_turn(w) {
            AgentTurnView::Ask(next, _) => next.round == w.round + 1 && next.round
                <= w.max_iterations && next.max_iterations == w.max_iterations,
            AgentTurnView::Over(run) => w.round == w.max_iterations && !run.result.final_,
        },
{
}

/// In its last round an agent has no tools and is held to the output schema; in
/// every other round it has its tools and is not.
pub proof fn the_last_round_withdraws_the_tools(w: AgentWorkView)
    requires
        0 <= w.round < w.max_iterations,
    ensures
        agent_turn(w) matches AgentTurnView::Ask(next, request) && (if next.round
            == w.max_iterations {
            request.tools.len() == 0 && request.response_schema == Some(w.output_schema)
        } else {
            request.tools == w.tools && request.response_schema is None
        }),
{
}

/// The free-form planner is never offered inside an agent.
pub proof fn an_agent_never_offers_the_planner(s: AgentStartView, tools: Seq<ToolDefView>, i: int)
    requires
        0 <= i < agent_entered(s, tools).tools.len(),
    ensures
        agent_entered(s, tools).tools[i].name != "plan_and_execute"@,
{
    let keep = |t: ToolDefView| t.name != "plan_and_execute"@;
    tools.lemma_filter_pred(keep, i);
    assert(agent_entered(s, tools).tools[i] == spec_of(without_planner(tools)[i]));
}

/// What a model answers ends an agent as final only where it fits the schema, and
/// so does what a repair makes of an answer.
pub proof fn only_a_conforming_answer_is_final(
    w: AgentWorkView,
    text: Seq<char>,
    repaired: Result<Json, Seq<char>>,
)
    ensures
        agent_answered(w, text, answer_checked(text, w.output_schema)) matches AgentNextView::Done(
            run,
        ) ==> run.result.final_ && schema_fault(w.output_schema) is None && schema_errors(
            w.output_schema,
            run.result.output,
        ).len() == 0,
        agent_rechecked(w, repaired) matches AgentNextView::Done(run) ==> run.result.final_
            && schema_fault(w.output_schema) is None && schema_errors(
            w.output_schema,
            run.result.output,
        ).len() == 0,
{
}

} // verus!
