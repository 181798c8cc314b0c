//! Turns of a conversation, the tools offered in it, and the shapes of what tools
//! give.

use crate::agent::{
    agent_error_text, all_told, heard, new_turn, names_of, round_request, turn_next,
    AgentErrorView, TurnNextView, TurnView,
};
use crate::chat::{
    specs_of, ChatMessageView, ChatResponseView, StopReason, ToolCallView, ToolSpecView,
};
use crate::laws::agents::holds_text;
use crate::laws::objects::{lemma_holds_one, lemma_holds_three, lemma_holds_two};
use crate::laws::running::an_error_is_told_under_its_name;
use crate::pipeline::doc::{input_schema_of, plan_input_problems, PlanDocView};
use crate::pipeline::gate::{path_text, StepPathView};
use crate::pipeline::run::{pipeline_error_text, PipelineErrorView, PipelineOutcomeView};
use crate::prompts::chat::{base_prompt, chat_prompt};
use crate::seqs::lemma_adding_new_contains;
use crate::shapes::{inferred, inferred_entries, truncated, truncated_entries, truncated_items};
use crate::text::{begins, ends, numeral};
use crate::toolbox::{
    plan_told, plan_tool_start, planner_told, planner_tool, toolbox, toolbox_route,
    ToolboxRouteView,
};
use crate::tools::{tool_error_text, ToolDefView, ToolErrorView, ToolOutcomeView};
use crate::value::{a_set_key_reads_back, lookup, member, object, text_list, Json, Num};
use vstd::prelude::*;

verus! {

/// A text stands in whatever is written around it.
pub proof fn lemma_stands_between(a: Seq<char>, part: Seq<char>, b: Seq<char>)
    ensures
        holds_text(a + part + b, part),
        holds_text(a + (part + b), part),
{
    let s = a + part + b;
    let at = a.len() as int;
    assert(s.subrange(at, at + part.len()) =~= part);
    assert(a + (part + b) =~= s);
}

// ── Turns ────────────────────────────────────────────────────────────────

/// A round asks the given model, under the given system prompt, with the whole
/// history and the tools offered; a new turn has done nothing yet.
pub proof fn a_round_of_a_turn_asks_with_the_whole_history(
    t: TurnView,
    model: Seq<char>,
    system: Seq<char>,
    tools: Seq<ToolSpecView>,
    messages: Seq<ChatMessageView>,
    max: int,
)
    ensures
        ({
            let request = round_request(t, model, system, tools);
            &&& request.model == model
            &&& request.system == system
            &&& request.messages == t.messages
            &&& request.tools == tools
            &&& request.response_schema is None
        }),
        ({
            let fresh = new_turn(messages, max);
            &&& fresh.messages == messages
            &&& fresh.max_iterations == max
            &&& fresh.iteration == 0
            &&& fresh.tool_calls_made == 0
            &&& fresh.tools_used.len() == 0
            &&& fresh.input_tokens == 0 && fresh.output_tokens == 0
        }),
{
}

/// What the model said is the last message; what it cost and the tools it called
/// are counted, and nothing else changes.
pub proof fn a_reply_is_recorded(t: TurnView, response: ChatResponseView, name: Seq<char>)
    ensures
        ({
            let after = heard(t, response);
            &&& after.messages.len() == t.messages.len() + 1
            &&& after.messages.take(t.messages.len() as int) == t.messages
            &&& after.messages.last() == ChatMessageView::Assistant(
                response.content,
                response.tool_calls,
            )
            &&& after.input_tokens - t.input_tokens == response.usage.input_tokens
            &&& after.output_tokens - t.output_tokens == response.usage.output_tokens
            &&& after.tool_calls_made - t.tool_calls_made == response.tool_calls.len()
            &&& after.iteration == t.iteration && after.max_iterations == t.max_iterations
            &&& after.tools_used.contains(name) <==> t.tools_used.contains(name) || exists|i: int|
                0 <= i < response.tool_calls.len() && (#[trigger] response.tool_calls[i]).name
                    == name
        }),
{
    let after = heard(t, response);
    let names = names_of(response.tool_calls);
    lemma_adding_new_contains(t.tools_used, names, name);
    assert(after.messages.take(t.messages.len() as int) =~= t.messages);
    if names.contains(name) {
        let i = choose|i: int| 0 <= i < names.len() && names[i] == name;
        assert(response.tool_calls[i].name == name);
    }
    if exists|i: int|
        0 <= i < response.tool_calls.len() && (#[trigger] response.tool_calls[i]).name == name {
        let i = choose|i: int|
            0 <= i < response.tool_calls.len() && (#[trigger] response.tool_calls[i]).name == name;
        assert(names[i] == name);
    }
}

/// A turn goes on exactly where tools are called; it ends with what was said and
/// what it cost, and fails only where the model was cut off without a word.
pub proof fn a_reply_ends_the_turn_unless_it_calls(t: TurnView, response: ChatResponseView)
    ensures
        ({
            let text = match response.content {
                Some(text) => text,
                None => ""@,
            };
            match turn_next(t, response) {
                TurnNextView::Call(calls) => calls == response.tool_calls && calls.len() > 0,
                TurnNextView::Fail(e) => response.tool_calls.len() == 0 && text.len() == 0
                    && response.stop_reason == StopReason::MaxTokens && e
                    == AgentErrorView::MaxTokensNoOutput,
                TurnNextView::Done { text: answer, input_tokens, output_tokens, calls, tools } => {
                    &&& response.tool_calls.len() == 0
                    &&& answer == text
                    &&& text.len() > 0 || response.stop_reason != StopReason::MaxTokens
                    &&& input_tokens == t.input_tokens + response.usage.input_tokens
                    &&& output_tokens == t.output_tokens + response.usage.output_tokens
                    &&& calls == t.tool_calls_made
                    &&& tools == t.tools_used
                },
            }
        }),
{
    reveal_strlit("");
    assert(""@ =~= Seq::<char>::empty());
    let names = names_of(response.tool_calls);
    if response.tool_calls.len() == 0 {
        assert(names =~= Seq::empty());
    }
}

/// Every call of a turn is answered once, in order, under its own id: with what the
/// tool gave, or with the error that it could not be reached by.
pub proof fn every_call_of_a_turn_is_answered(
    calls: Seq<ToolCallView>,
    answers: Seq<Result<ToolOutcomeView, ToolErrorView>>,
    k: int,
)
    requires
        calls.len() == answers.len(),
        0 <= k < calls.len(),
    ensures
        all_told(calls, answers).len() == calls.len(),
        all_told(calls, answers)[k] matches ChatMessageView::ToolResult {
            tool_call_id,
            content,
            is_error,
        } && tool_call_id == calls[k].id && (match answers[k] {
            Ok(o) => content == o.result && is_error == o.is_error,
            Err(e) => is_error && member(content, "error"@) == Some(
                Json::Text(tool_error_text(e)),
            ),
        }),
{
    if let Err(e) = answers[k] {
        an_error_is_told_under_its_name(tool_error_text(e));
    }
}

/// What is told of an error names what it is about.
pub proof fn an_error_names_its_cause(name: Seq<char>, n: nat)
    ensures
        ends(tool_error_text(ToolErrorView::Unknown(name)), name),
        begins(tool_error_text(ToolErrorView::Unknown(name)), "unknown tool"@),
        ends(tool_error_text(ToolErrorView::Transport(name)), name),
        begins(tool_error_text(ToolErrorView::Transport(name)), "tool transport failed"@),
        agent_error_text(AgentErrorView::Llm(name)) == name,
        holds_text(agent_error_text(AgentErrorView::MaxIterations(n as int)), numeral(n)),
{
    let a = "unknown tool: "@;
    let b = "tool transport failed: "@;
    assert((a + name).subrange(a.len() as int, (a + name).len() as int) =~= name);
    assert((b + name).subrange(b.len() as int, (b + name).len() as int) =~= name);
    reveal_strlit("unknown tool: ");
    reveal_strlit("unknown tool");
    reveal_strlit("tool transport failed: ");
    reveal_strlit("tool transport failed");
    assert((a + name).subrange(0, "unknown tool"@.len() as int) =~= "unknown tool"@);
    assert((b + name).subrange(0, "tool transport failed"@.len() as int)
        =~= "tool transport failed"@);
    lemma_stands_between(
        "agent exceeded "@,
        numeral(n),
        " tool iterations without reaching an answer"@,
    );
}

/// Each tool is offered as it is defined, in order.
pub proof fn a_tool_is_offered_as_it_is_defined(defs: Seq<ToolDefView>, i: int)
    requires
        0 <= i < defs.len(),
    ensures
        specs_of(defs).len() == defs.len(),
        specs_of(defs)[i].name == defs[i].name,
        specs_of(defs)[i].description == defs[i].description,
        specs_of(defs)[i].input_schema == defs[i].input_schema,
{
}

/// A chat is opened by its base prompt, the default one where no other is given,
/// and told the date and what is known of the user.
#[verifier::spinoff_prover]
#[verifier::rlimit(40)]
pub proof fn a_chat_is_told_the_date_and_the_user(
    name: Option<Seq<char>>,
    context: Option<Seq<char>>,
    now: Seq<char>,
    base: Option<Seq<char>>,
)
    ensures
        ({
            let prompt = chat_prompt(name, context, now, base);
            &&& begins(
                prompt,
                match base {
                    Some(text) => text,
                    None => crate::prompts::chat::DEFAULT_CHAT_PROMPT@,
                },
            )
            &&& holds_text(prompt, "\nCurrent date and time: "@ + now)
            &&& name matches Some(n) ==> holds_text(prompt, "\nThe user's name is "@ + n)
            &&& context matches Some(c) ==> holds_text(
                prompt,
                "\nAbout the user and their environment:\n"@ + c,
            )
        }),
{
    let prompt = chat_prompt(name, context, now, base);
    let b = base_prompt(base);
    let given = match base {
        Some(text) => text,
        None => crate::prompts::chat::DEFAULT_CHAT_PROMPT@,
    };
    let date = "\nCurrent date and time: "@ + now;
    let named = match name {
        Some(n) => "\nThe user's name is "@ + n + ".\n"@,
        None => Seq::empty(),
    };
    let about = match context {
        Some(c) => "\nAbout the user and their environment:\n"@ + c + "\n"@,
        None => Seq::empty(),
    };
    assert(prompt == b + (date + "\n"@) + named + about);
    assert(prompt.subrange(0, given.len() as int) =~= given);
    lemma_stands_between(b, date, "\n"@ + named + about);
    assert(prompt =~= b + date + ("\n"@ + named + about));
    if let Some(n) = name {
        let part = "\nThe user's name is "@ + n;
        lemma_stands_between(b + (date + "\n"@), part, ".\n"@ + about);
        assert(prompt =~= b + (date + "\n"@) + part + (".\n"@ + about));
    }
    if let Some(c) = context {
        let part = "\nAbout the user and their environment:\n"@ + c;
        lemma_stands_between(b + (date + "\n"@) + named, part, "\n"@);
        assert(prompt =~= b + (date + "\n"@) + named + part + "\n"@);
    }
}

// ── The toolbox ──────────────────────────────────────────────────────────

/// A toolbox holds the base tools as they are, each plan under its own name, and
/// the planner, which takes a query.
#[verifier::spinoff_prover]
#[verifier::rlimit(40)]
pub proof fn a_toolbox_holds_tools_plans_and_the_planner(
    base: Seq<ToolDefView>,
    plans: Seq<PlanDocView>,
    i: int,
)
    ensures
        ({
            let tools = toolbox(base, plans);
            &&& tools.len() == base.len() + plans.len() + 1
            &&& 0 <= i < base.len() ==> tools[i] == base[i]
            &&& 0 <= i < plans.len() ==> {
                let tool = tools[base.len() + i];
                &&& tool.name == "plan__"@ + plans[i].identifier
                &&& tool.input_schema == input_schema_of(plans[i])
                &&& tool.output_schema is None && tool.output_example is None
            }
            &&& tools.last() == planner_tool()
            &&& planner_tool().name == "plan_and_execute"@
            &&& member(planner_tool().input_schema, "type"@) == Some(Json::Text("object"@))
            &&& member(planner_tool().input_schema, "required"@) matches Some(Json::List(names))
                && names.len() == 1 && names[0] == Json::Text("query"@)
            &&& member(planner_tool().input_schema, "properties"@) matches Some(
                Json::Object(fields),
            ) && (lookup(fields, "query"@) matches Some(query) && member(query, "type"@) == Some(
                Json::Text("string"@),
            ))
        }),
{
    reveal_strlit("type");
    reveal_strlit("required");
    reveal_strlit("properties");
    reveal_strlit("query");
    reveal_strlit("description");
    assert("type"@.len() != "required"@.len());
    assert("type"@.len() != "properties"@.len());
    assert("type"@.len() != "query"@.len());
    assert("type"@.len() != "description"@.len());
    assert("required"@.len() != "properties"@.len());
    assert("required"@.len() != "query"@.len());
    assert("required"@.len() != "description"@.len());
    assert("properties"@.len() != "query"@.len());
    assert("properties"@.len() != "description"@.len());
    assert("query"@.len() != "description"@.len());
    let object_type = Json::Text("object"@);
    let required = Json::List(seq![Json::Text("query"@)]);
    let (k1, k2, k3) = ("type"@, "required"@, "properties"@);
    let schema = planner_tool().input_schema;
    let properties = schema->Object_0;
    let text_type = Json::Text("string"@);
    let about = Json::Text(
        "The complete task, self-contained: include every name, id, timeframe, and constraint the planner needs (it cannot see the conversation)."@,
    );
    let query = Json::Object(object(seq![("type"@, text_type), ("description"@, about)]));
    let fields = Json::Object(object(seq![("query"@, query)]));
    lemma_holds_three(k1, object_type, k2, required, k3, fields, k1);
    lemma_holds_three(k1, object_type, k2, required, k3, fields, k2);
    lemma_holds_three(k1, object_type, k2, required, k3, fields, k3);
    lemma_holds_one("query"@, query, "query"@);
    lemma_holds_two("type"@, text_type, "description"@, about, "type"@);
}

/// A call of the toolbox goes to the planner under its name, to a plan under the
/// plan's name, and to the base tools otherwise.
pub proof fn a_call_of_the_toolbox_goes_by_its_name(name: Seq<char>, plans: Seq<PlanDocView>)
    ensures
        match toolbox_route(name, plans) {
            ToolboxRouteView::Planner => name == "plan_and_execute"@,
            ToolboxRouteView::Plan(i) => 0 <= i < plans.len() && name == "plan__"@
                + plans[i].identifier,
            ToolboxRouteView::Base => name != "plan_and_execute"@ && forall|i: int|
                0 <= i < plans.len() ==> name != "plan__"@ + (#[trigger] plans[i]).identifier,
        },
{
    let prefix = "plan__"@;
    let rest = name.skip(prefix.len() as int);
    crate::laws::documents::a_document_is_found_by_its_identifier(plans, rest, 0);
    if begins(name, prefix) {
        assert(name =~= prefix + rest);
    }
    assert forall|i: int| 0 <= i < plans.len() && name == prefix + (#[trigger] plans[i]).identifier
        implies begins(name, prefix) && rest == plans[i].identifier by {
        assert(name.subrange(0, prefix.len() as int) =~= prefix);
        assert(rest =~= plans[i].identifier);
    }
}

/// The planner, called as a tool, gives its answer, whether it is a mere
/// explanation, and how many results there are, or the error it failed by.
pub proof fn the_planner_tells_its_answer(o: PipelineOutcomeView, e: PipelineErrorView)
    ensures
        ({
            let told = planner_told(Ok(o));
            &&& !told.is_error
            &&& member(told.result, "answer"@) == Some(Json::Text(o.answer))
            &&& member(told.result, "degraded"@) == Some(Json::Bool(o.degraded))
            &&& member(told.result, "steps_executed"@) == Some(
                Json::Num(Num::Int(o.state.results.len() as int)),
            )
        }),
        planner_told(Err(e)).is_error,
        member(planner_told(Err(e)).result, "error"@) == Some(Json::Text(pipeline_error_text(e))),
{
    reveal_strlit("answer");
    reveal_strlit("degraded");
    reveal_strlit("steps_executed");
    assert("answer"@.len() != "degraded"@.len());
    assert("answer"@.len() != "steps_executed"@.len());
    assert("degraded"@.len() != "steps_executed"@.len());
    let a = Json::Text(o.answer);
    let d = Json::Bool(o.degraded);
    let n = Json::Num(Num::Int(o.state.results.len() as int));
    let (k1, k2, k3) = ("answer"@, "degraded"@, "steps_executed"@);
    lemma_holds_three(k1, a, k2, d, k3, n, k1);
    lemma_holds_three(k1, a, k2, d, k3, n, k2);
    lemma_holds_three(k1, a, k2, d, k3, n, k3);
    an_error_is_told_under_its_name(pipeline_error_text(e));
}

/// A plan, called as a tool, begins exactly where its input conforms, gives its
/// answer, and names itself and the failed step where a step failed.
#[verifier::spinoff_prover]
#[verifier::rlimit(40)]
pub proof fn a_plan_tells_its_answer(
    doc: PlanDocView,
    input: Json,
    identifier: Seq<char>,
    o: PipelineOutcomeView,
    e: PipelineErrorView,
)
    ensures
        plan_tool_start(doc, input) is Ok <==> plan_input_problems(doc, input).len() == 0,
        plan_tool_start(doc, input) matches Ok(query) ==> holds_text(query, doc.name),
        plan_tool_start(doc, input) matches Err(told) ==> told.is_error && member(
            told.result,
            "problems"@,
        ) == Some(text_list(plan_input_problems(doc, input))),
        !plan_told(identifier, Ok(o)).is_error,
        member(plan_told(identifier, Ok(o)).result, "answer"@) == Some(Json::Text(o.answer)),
        plan_told(identifier, Err(e)).is_error,
        match e {
            PipelineErrorView::StepFailed { step, tool, message } => member(
                plan_told(identifier, Err(e)).result,
                "error"@,
            ) matches Some(Json::Text(told)) && holds_text(told, identifier) && holds_text(
                told,
                step,
            ) && holds_text(told, tool) && ends(told, message),
            _ => member(plan_told(identifier, Err(e)).result, "error"@) == Some(
                Json::Text(pipeline_error_text(e)),
            ),
        },
{
    reveal_strlit("error");
    reveal_strlit("problems");
    reveal_strlit("inputSchema");
    assert("error"@.len() != "problems"@.len());
    assert("error"@.len() != "inputSchema"@.len());
    assert("problems"@.len() != "inputSchema"@.len());
    lemma_stands_between("Run the '"@, doc.name, "' plan"@);
    lemma_holds_one("answer"@, Json::Text(o.answer), "answer"@);
    let why = Json::Text("invalid or missing plan inputs"@);
    let problems = text_list(plan_input_problems(doc, input));
    let (k1, k2, k3) = ("error"@, "problems"@, "inputSchema"@);
    lemma_holds_three(k1, why, k2, problems, k3, input_schema_of(doc), k2);
    match e {
        PipelineErrorView::StepFailed { step, tool, message } => {
            let told = "plan '"@ + identifier + "' failed at step "@ + step + " ("@ + tool
                + "): "@ + message;
            an_error_is_told_under_its_name(told);
            lemma_stands_between(
                "plan '"@,
                identifier,
                "' failed at step "@ + step + " ("@ + tool + "): "@ + message,
            );
            assert(told =~= "plan '"@ + identifier + ("' failed at step "@ + step + " ("@ + tool
                + "): "@ + message));
            let before = "plan '"@ + identifier + "' failed at step "@;
            lemma_stands_between(before, step, " ("@ + tool + "): "@ + message);
            assert(told =~= before + step + (" ("@ + tool + "): "@ + message));
            lemma_stands_between(before + step + " ("@, tool, "): "@ + message);
            assert(told =~= before + step + " ("@ + tool + ("): "@ + message));
            assert(told.subrange(told.len() - message.len(), told.len() as int) =~= message);
        },
        _ => {
            an_error_is_told_under_its_name(pipeline_error_text(e));
        },
    }
}

// ── Shapes ───────────────────────────────────────────────────────────────

/// The schema that is inferred from a value names the value's kind; of a list it
/// describes the first item, of an object every key. Eight levels down it says
/// nothing.
#[verifier::spinoff_prover]
#[verifier::rlimit(40)]
pub proof fn a_value_is_described_by_its_kind(v: Json, depth: int, i: int)
    requires
        0 <= depth,
    ensures
        depth >= 8 ==> inferred(v, depth) == Json::Object(Seq::empty()),
        depth < 8 ==> member(inferred(v, depth), "type"@) == Some(
            Json::Text(
                match v {
                    Json::Null => "null"@,
                    Json::Bool(_) => "boolean"@,
                    Json::Num(Num::Int(_)) => "integer"@,
                    Json::Num(Num::Float(_)) => "number"@,
                    Json::Text(_) => "string"@,
                    Json::List(_) => "array"@,
                    Json::Object(_) => "object"@,
                },
            ),
        ),
        depth < 8 ==> (match v {
            Json::List(items) => member(inferred(v, depth), "items"@) == (if items.len() > 0 {
                Some(inferred(items[0], depth + 1))
            } else {
                None
            }),
            Json::Object(e) => member(inferred(v, depth), "properties"@) matches Some(
                Json::Object(out),
            ) && out.len() == e.len() && (0 <= i < e.len() ==> out[i].0 == e[i].0 && out[i].1
                == inferred(e[i].1, depth + 1)),
            _ => true,
        }),
{
    reveal_strlit("type");
    reveal_strlit("items");
    reveal_strlit("properties");
    assert("type"@.len() != "items"@.len());
    assert("type"@.len() != "properties"@.len());
    assert("items"@.len() != "properties"@.len());
    if depth < 8 {
        assert forall|name: Seq<char>, k: Seq<char>| #[trigger]
            lookup(crate::shapes::type_schema(name), k) == (if k == "type"@ {
                Some(Json::Text(name))
            } else {
                None
            }) by {
            a_set_key_reads_back(Seq::empty(), "type"@, Json::Text(name), k);
        }
        match v {
            Json::List(items) => {
                if items.len() > 0 {
                    let inner = inferred(items[0], depth + 1);
                    a_set_key_reads_back(
                        crate::shapes::type_schema("array"@),
                        "items"@,
                        inner,
                        "type"@,
                    );
                    a_set_key_reads_back(
                        crate::shapes::type_schema("array"@),
                        "items"@,
                        inner,
                        "items"@,
                    );
                }
            },
            Json::Object(e) => {
                let out = inferred_entries(e, depth + 1);
                let inner = Json::Object(out);
                a_set_key_reads_back(
                    crate::shapes::type_schema("object"@),
                    "properties"@,
                    inner,
                    "type"@,
                );
                a_set_key_reads_back(
                    crate::shapes::type_schema("object"@),
                    "properties"@,
                    inner,
                    "properties"@,
                );
                assert(out.len() == e.len());
            },
            _ => {},
        }
    }
}

/// An example keeps a text of up to a hundred and twenty characters, the first two
/// items of a list, and every key of an object.
pub proof fn an_example_keeps_what_is_short(v: Json, depth: int, i: int)
    requires
        0 <= depth,
    ensures
        depth >= 8 ==> truncated(v, depth) == Json::Text("…"@),
        depth < 8 ==> (match v {
            Json::Text(s) => truncated(v, depth) == Json::Text(
                if s.len() <= 120 {
                    s
                } else {
                    s.take(120) + "…"@
                },
            ),
            Json::List(items) => truncated(v, depth) matches Json::List(out) && out.len() == (
            if items.len() <= 2 {
                items.len()
            } else {
                2
            }) && (0 <= i < out.len() ==> out[i] == truncated(items[i], depth + 1)),
            Json::Object(e) => truncated(v, depth) matches Json::Object(out) && out.len() == e.len()
                && (0 <= i < e.len() ==> out[i].0 == e[i].0 && out[i].1 == truncated(
                e[i].1,
                depth + 1,
            )),
            _ => truncated(v, depth) == v,
        }),
{
    if depth < 8 {
        match v {
            Json::List(items) => {
                let out = truncated_items(items, depth + 1);
                assert(truncated(v, depth) == Json::List(out));
                assert(out.len() <= 2);
            },
            Json::Object(e) => {
                let out = truncated_entries(e, depth + 1);
                assert(truncated(v, depth) == Json::Object(out));
                assert(out.len() == e.len());
            },
            _ => {},
        }
    }
}

/// A path is written from its step down, its parts divided by slashes.
pub proof fn a_path_is_written_from_its_step_down(p: StepPathView)
    ensures
        begins(path_text(p), p.step),
        p.body is None && p.body_step is None ==> path_text(p) == p.step,
        p.body matches Some(b) ==> (p.body_step is None ==> path_text(p) == p.step + "/"@ + b),
        p.body matches Some(b) ==> (p.body_step matches Some(leaf) ==> path_text(p) == p.step
            + "/"@ + b + "/"@ + leaf),
{
    assert(path_text(p).subrange(0, p.step.len() as int) =~= p.step);
}

} // verus!
