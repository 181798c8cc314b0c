//! Agent steps and questions to people.

use crate::chat::{ChatMessageView, ChatResponseView, StopReason, ToolCallView};
use crate::json::{json_reading, pretty_text};
use crate::laws::objects::{lemma_holds_four, lemma_holds_one, lemma_holds_three, lemma_holds_two};
use crate::pipeline::agent::{agent_of, agent_problems};
use crate::pipeline::agent_loop::{
    agent_answered, agent_begun, agent_call_path, agent_called, agent_entered, agent_recorded,
    agent_rechecked, agent_responded, agent_turn, answer_candidates, answer_checked, calls_told,
    correction_text, first_abort, first_json, log_json, refused_call, AgentNextView, AgentRunView,
    AgentStartView, AgentTurnView, AgentWorkView, AnswerCheckView,
};
use crate::pipeline::ask::{
    ask_begun, ask_of, ask_recorded, ask_settled, form_problem, AskResultView, AskSpecView,
    AskWorkView, WhenUnanswered,
};
use crate::laws::gating::names_choice;
use crate::pipeline::engine::{DispatchErrorView, ExecutionEndView};
use crate::pipeline::gate::StepPathView;
use crate::pipeline::interlocutor::AskOutcomeView;
use crate::pipeline::references::template_problems;
use crate::pipeline::run_body::StepFailView;
use crate::pipeline::schema::{mismatch, schema_errors, schema_fault};
use crate::pipeline::state::RunStateView;
use crate::template::render::{rendered_input, rendered_text};
use crate::template::RenderErrorView;
use crate::text::{ends, numeral, trimmed};
use crate::value::{lookup, member, Entries, Json, Num};
use vstd::prelude::*;

verus! {

/// What the model is told of a call: under the call's own id the value that it gave,
/// or, marked as an error, what went wrong.
pub open spec fn answers_call(
    m: ChatMessageView,
    call: ToolCallView,
    outcome: Result<Json, DispatchErrorView>,
) -> bool {
    match outcome {
        Ok(v) => m == (ChatMessageView::ToolResult {
            tool_call_id: call.id,
            content: v,
            is_error: false,
        }),
        Err(DispatchErrorView::Failed(why)) => m matches ChatMessageView::ToolResult {
            tool_call_id,
            content,
            is_error,
        } && tool_call_id == call.id && is_error && member(content, "error"@) == Some(
            Json::Text(why),
        ),
        Err(DispatchErrorView::Aborted(_)) => false,
    }
}

proof fn lemma_told(
    calls: Seq<ToolCallView>,
    outcomes: Seq<Result<Json, DispatchErrorView>>,
    n: int,
)
    requires
        calls.len() == outcomes.len(),
        0 <= n <= calls.len(),
        forall|k: int|
            0 <= k < outcomes.len() ==> !(#[trigger] outcomes[k] matches Err(
                DispatchErrorView::Aborted(_),
            )),
    ensures
        calls_told(calls, outcomes, n).len() == n,
        first_abort(outcomes, n) is None,
        forall|k: int|
            0 <= k < n ==> answers_call(
                #[trigger] calls_told(calls, outcomes, n)[k],
                calls[k],
                outcomes[k],
            ),
    decreases n,
{
    if n > 0 {
        lemma_told(calls, outcomes, n - 1);
        assert(!(outcomes[n - 1] matches Err(DispatchErrorView::Aborted(_))));
        if let Err(DispatchErrorView::Failed(why)) = outcomes[n - 1] {
            lemma_holds_one("error"@, Json::Text(why), "error"@);
        }
        let before = calls_told(calls, outcomes, n - 1);
        let now = calls_told(calls, outcomes, n);
        assert(now.len() == before.len() + 1);
        assert forall|k: int| 0 <= k < n implies answers_call(
            #[trigger] now[k],
            calls[k],
            outcomes[k],
        ) by {
            if k < n - 1 {
                assert(now[k] == before[k]);
            }
        }
    }
}

/// After a round without an abort the model is told one result for each call, in the
/// order of the calls and each under its call's id; nothing else of the work changes.
pub proof fn every_call_is_answered_under_its_own_id(
    w: AgentWorkView,
    calls: Seq<ToolCallView>,
    outcomes: Seq<Result<Json, DispatchErrorView>>,
)
    requires
        calls.len() == outcomes.len(),
        forall|k: int|
            0 <= k < outcomes.len() ==> !(#[trigger] outcomes[k] matches Err(
                DispatchErrorView::Aborted(_),
            )),
    ensures
        agent_called(w, calls, outcomes) matches AgentNextView::On(next) && {
            let told = w.messages.len();
            &&& next.messages.len() == told + calls.len()
            &&& next.messages.take(told as int) == w.messages
            &&& forall|k: int|
                0 <= k < calls.len() ==> answers_call(
                    #[trigger] next.messages.skip(told as int)[k],
                    calls[k],
                    outcomes[k],
                )
            &&& next == (AgentWorkView { messages: next.messages, ..w })
        },
{
    lemma_told(calls, outcomes, calls.len() as int);
    let told = calls_told(calls, outcomes, calls.len() as int);
    let all = w.messages + told;
    assert(all.take(w.messages.len() as int) =~= w.messages);
    assert(all.skip(w.messages.len() as int) =~= told);
}

/// A round with an abort ends the step with the first of them.
pub proof fn an_aborted_call_ends_the_step(
    w: AgentWorkView,
    calls: Seq<ToolCallView>,
    outcomes: Seq<Result<Json, DispatchErrorView>>,
    k: int,
    error: Option<Json>,
)
    requires
        calls.len() == outcomes.len(),
        0 <= k < outcomes.len(),
        outcomes[k] == Err::<Json, DispatchErrorView>(DispatchErrorView::Aborted(error)),
        forall|j: int|
            0 <= j < k ==> !(#[trigger] outcomes[j] matches Err(DispatchErrorView::Aborted(_))),
    ensures
        agent_called(w, calls, outcomes) == AgentNextView::Fail(StepFailView::Aborted(error)),
{
    lemma_first_abort(outcomes, k, error, outcomes.len() as int);
}

proof fn lemma_first_abort(
    outcomes: Seq<Result<Json, DispatchErrorView>>,
    k: int,
    error: Option<Json>,
    n: int,
)
    requires
        0 <= k < outcomes.len(),
        0 <= n <= outcomes.len(),
        outcomes[k] == Err::<Json, DispatchErrorView>(DispatchErrorView::Aborted(error)),
        forall|j: int|
            0 <= j < k ==> !(#[trigger] outcomes[j] matches Err(DispatchErrorView::Aborted(_))),
    ensures
        first_abort(outcomes, n) == (if n <= k {
            None
        } else {
            Some(error)
        }),
    decreases n,
{
    if n > 0 {
        lemma_first_abort(outcomes, k, error, n - 1);
        if n - 1 < k {
            assert(!(outcomes[n - 1] matches Err(DispatchErrorView::Aborted(_))));
        }
    }
}

/// An agent step is read as it is written; without a number of rounds it has eight.
pub proof fn an_agent_step_is_what_is_written(e: Entries)
    requires
        agent_of(e) is Ok,
    ensures
        ({
            let spec = agent_of(e)->Ok_0;
            &&& lookup(e, "prompt"@) matches Some(Json::Text(t)) ==> spec.prompt == t
            &&& spec.model == match lookup(e, "model"@) {
                Some(Json::Text(t)) => Some(t),
                _ => None,
            }
            &&& lookup(e, "systemPrompt"@) matches Some(Json::Text(t)) ==> spec.system_prompt
                == Some(t)
            &&& lookup(e, "systemPrompt"@) is None ==> spec.system_prompt == match lookup(
                e,
                "system_prompt"@,
            ) {
                Some(Json::Text(t)) => Some(t),
                _ => None,
            }
            &&& lookup(e, "maxIterations"@) matches Some(Json::Num(Num::Int(n)))
                ==> spec.max_iterations == n
            &&& lookup(e, "maxIterations"@) is None ==> (match lookup(e, "max_iterations"@) {
                Some(Json::Num(Num::Int(n))) => spec.max_iterations == n,
                None => spec.max_iterations == 8,
                _ => true,
            })
            &&& lookup(e, "outputSchema"@) matches Some(v) ==> spec.output_schema == v
            &&& lookup(e, "outputSchema"@) is None ==> (lookup(e, "output_schema"@) matches Some(v)
                ==> spec.output_schema == v)
            &&& (lookup(e, "tools"@) is None || lookup(e, "tools"@) == Some(Json::Null))
                ==> spec.tools is None
        }),
{
}

/// An agent begins with its prompt and its own instructions rendered in its scope,
/// and with the schema of its answer in what the model is told.
pub proof fn an_agent_begins_with_its_rendered_prompt(e: Entries, scope: Entries)
    requires
        agent_begun(e, scope) is Ok,
    ensures
        ({
            let spec = agent_of(e)->Ok_0;
            let start = agent_begun(e, scope)->Ok_0;
            &&& agent_of(e) is Ok
            &&& rendered_text(scope, spec.prompt) == Ok::<Seq<char>, RenderErrorView>(start.prompt)
            &&& start.max_iterations == spec.max_iterations
            &&& start.output_schema == spec.output_schema
            &&& spec.model matches Some(m) ==> start.model == m
            &&& spec.model is None ==> start.model == "chat"@
            &&& spec.tools matches Some(patterns) ==> start.patterns == patterns && patterns.len()
                > 0
            &&& spec.tools is None ==> start.patterns.len() == 0
            &&& spec.system_prompt is None ==> ends(
                start.system,
                pretty_text(spec.output_schema),
            )
            &&& spec.system_prompt matches Some(t) ==> (rendered_text(scope, t) matches Ok(extra)
                && ends(start.system, pretty_text(spec.output_schema) + "\n\n"@ + extra))
        }),
{
    let spec = agent_of(e)->Ok_0;
    let start = agent_begun(e, scope)->Ok_0;
    let schema = pretty_text(spec.output_schema);
    let system = start.system;
    match spec.system_prompt {
        None => {
            assert(system.subrange(system.len() - schema.len(), system.len() as int) =~= schema);
        },
        Some(t) => {
            let extra = rendered_text(scope, t)->Ok_0;
            let tail = schema + "\n\n"@ + extra;
            assert(system.subrange(system.len() - tail.len(), system.len() as int) =~= tail);
        },
    }
}

/// An agent enters its first round with its prompt as the only message and no call
/// made, and with each tool it was given but the planner.
pub proof fn an_agent_enters_with_its_prompt(
    s: AgentStartView,
    tools: Seq<crate::tools::ToolDefView>,
)
    ensures
        ({
            let w = agent_entered(s, tools);
            &&& w.messages == seq![ChatMessageView::User(s.prompt)]
            &&& w.tools_called.len() == 0
            &&& w.round == 0
            &&& w.system == s.system
            &&& w.model == s.model
            &&& w.max_iterations == s.max_iterations
            &&& w.output_schema == s.output_schema
            &&& w.tools.len() <= tools.len()
        }),
{
    tools.lemma_filter_len(|t: crate::tools::ToolDefView| t.name != "plan_and_execute"@);
}

/// Each round asks the agent's model, with the agent's instructions and all that was
/// said before.
pub proof fn a_round_asks_with_the_whole_conversation(w: AgentWorkView)
    requires
        0 <= w.round < w.max_iterations,
    ensures
        agent_turn(w) matches AgentTurnView::Ask(next, request) && {
            &&& request.model == w.model
            &&& request.system == w.system
            &&& request.messages == next.messages
            &&& next.messages.take(w.messages.len() as int) == w.messages
            &&& next.round == w.round + 1
            &&& next == (AgentWorkView { round: next.round, messages: next.messages, ..w })
        },
{
    let pushed = w.messages.push(
        ChatMessageView::User(crate::pipeline::agent_loop::final_turn_text()),
    );
    assert(pushed.take(w.messages.len() as int) =~= w.messages);
    assert(w.messages.take(w.messages.len() as int) =~= w.messages);
}

/// An agent whose rounds are spent ends without an answer.
pub proof fn a_spent_agent_has_no_answer(w: AgentWorkView)
    requires
        w.round >= w.max_iterations,
    ensures
        agent_turn(w) matches AgentTurnView::Over(run) && !run.result.final_
            && run.result.iterations == w.max_iterations && run.result.output == Json::Object(
            Seq::empty(),
        ) && run.result.tools_called == w.tools_called && run.tool_calls == w.tools_called.len(),
{
}

/// What a model says is heard: calls are made and logged, one entry for each with
/// its tool and the round; a structured answer ends the step; a text is checked.
pub proof fn a_response_is_heard(w: AgentWorkView, r: ChatResponseView, why: Seq<char>)
    ensures
        ({
            let said = ChatMessageView::Assistant(r.content, r.tool_calls);
            match agent_responded(w, Ok(r)) {
                AgentNextView::Calls(next, calls) => {
                    &&& r.tool_calls.len() > 0
                    &&& calls == r.tool_calls
                    &&& next.messages == w.messages.push(said)
                    &&& next.round == w.round
                    &&& next.tools_called.len() == w.tools_called.len() + calls.len()
                    &&& next.tools_called.take(w.tools_called.len() as int) == w.tools_called
                    &&& forall|i: int|
                        0 <= i < calls.len() ==> (#[trigger] next.tools_called.skip(
                            w.tools_called.len() as int,
                        )[i]).tool == calls[i].name && next.tools_called.skip(
                            w.tools_called.len() as int,
                        )[i].round == w.round
                },
                AgentNextView::Done(run) => {
                    &&& r.tool_calls.len() == 0
                    &&& r.structured == Some(run.result.output)
                    &&& run.result.final_
                    &&& run.result.iterations == w.round
                    &&& run.result.tools_called == w.tools_called
                },
                AgentNextView::Answer(next, text) => {
                    &&& r.tool_calls.len() == 0 && r.structured is None
                    &&& r.content == Some(text)
                    &&& trimmed(text).len() > 0
                    &&& next.messages == w.messages.push(said)
                    &&& next.round == w.round
                },
                AgentNextView::On(next) => {
                    &&& r.tool_calls.len() == 0 && r.structured is None
                    &&& r.content matches Some(text) ==> trimmed(text).len() == 0
                    &&& r.stop_reason != StopReason::MaxTokens
                    &&& next.messages.len() == w.messages.len() + 2
                    &&& next.messages.take(w.messages.len() as int + 1) == w.messages.push(said)
                    &&& next.messages.last() is User
                },
                AgentNextView::Fail(fail) => {
                    &&& r.tool_calls.len() == 0 && r.structured is None
                    &&& r.stop_reason == StopReason::MaxTokens
                    &&& fail is Failed
                },
                AgentNextView::Repair(_, _, _) => false,
            }
        }),
        agent_responded(w, Err(why)) matches AgentNextView::Fail(StepFailView::Failed(m)) && ends(
            m,
            why,
        ),
{
    let said = ChatMessageView::Assistant(r.content, r.tool_calls);
    let logged = crate::pipeline::agent_loop::logged(r.tool_calls, w.round);
    let all = w.tools_called + logged;
    assert(all.take(w.tools_called.len() as int) =~= w.tools_called);
    assert(all.skip(w.tools_called.len() as int) =~= logged);
    let heard = w.messages.push(said);
    let more = heard.push(ChatMessageView::User(crate::pipeline::agent_loop::nudge_text()));
    assert(more.take(w.messages.len() as int + 1) =~= heard);
    let told = "LLM call failed: "@ + why;
    assert(told.subrange(told.len() - why.len(), told.len() as int) =~= why);
    reveal_strlit("");
    assert(trimmed(Seq::<char>::empty()).len() == 0);
}

/// A text that is JSON is the answer, and white space round it does not matter.
pub proof fn a_json_text_is_its_own_answer(text: Seq<char>, v: Json)
    ensures
        json_reading(trimmed(text)) == Ok::<Json, Seq<char>>(v) ==> first_json(
            answer_candidates(text),
            0,
        ) == Some(v),
{
    assert(answer_candidates(text)[0] == trimmed(text));
}

/// An answer is checked against the schema: it fits where the schema finds no error,
/// misses where it finds some, and a text without JSON is no answer.
pub proof fn an_answer_is_held_against_its_schema(text: Seq<char>, schema: Json)
    ensures
        match answer_checked(text, schema) {
            AnswerCheckView::NotJson => first_json(answer_candidates(text), 0) is None,
            AnswerCheckView::BadSchema(e) => schema_fault(schema) == Some(e),
            AnswerCheckView::Fits(v) => first_json(answer_candidates(text), 0) == Some(v)
                && schema_fault(schema) is None && schema_errors(schema, v).len() == 0,
            AnswerCheckView::Misses(v, errors) => first_json(answer_candidates(text), 0) == Some(
                v,
            ) && schema_fault(schema) is None && errors == schema_errors(schema, v)
                && errors.len() > 0,
        },
{
}

/// An answer that fits ends the step with that answer; one that misses is repaired;
/// anything else is sent back with what is wrong with it.
pub proof fn a_checked_answer_is_acted_on(w: AgentWorkView, text: Seq<char>, check: AnswerCheckView)
    ensures
        match check {
            AnswerCheckView::Fits(v) => agent_answered(w, text, check) matches AgentNextView::Done(
                run,
            ) && run.result.output == v && run.result.final_ && run.result.iterations == w.round,
            AnswerCheckView::Misses(v, errors) => agent_answered(w, text, check)
                matches AgentNextView::Repair(next, value, problem) && next == w && value == v,
            AnswerCheckView::BadSchema(e) => agent_answered(w, text, check)
                matches AgentNextView::On(next) && next.messages.drop_last() == w.messages && (
            next.messages.last() matches ChatMessageView::User(told) && holds_text(told, e)),
            AnswerCheckView::NotJson => agent_answered(w, text, check) matches AgentNextView::On(
                next,
            ) && next.messages.drop_last() == w.messages && next.messages.last() is User,
        },
{
    if let AnswerCheckView::BadSchema(e) = check {
        let before = "Your output did not match the required schema: "@
            + "invalid output schema: "@;
        let told = correction_text("invalid output schema: "@ + e);
        assert(told.subrange(before.len() as int, before.len() as int + e.len()) =~= e);
        let at = before.len() as int;
        assert(told.subrange(at, at + e.len()) == e);
    }
    if let AgentNextView::On(next) = agent_answered(w, text, check) {
        assert(next.messages.drop_last() =~= w.messages);
    }
}

/// Whether a text stands somewhere in another.
pub open spec fn holds_text(s: Seq<char>, part: Seq<char>) -> bool {
    exists|i: int| 0 <= i && i + part.len() <= s.len() && #[trigger] s.subrange(i, i + part.len())
        == part
}

/// A repaired answer ends the step exactly where it conforms; otherwise the model is
/// told what is wrong.
pub proof fn a_repaired_answer_is_acted_on(w: AgentWorkView, repaired: Result<Json, Seq<char>>)
    ensures
        match agent_rechecked(w, repaired) {
            AgentNextView::Done(run) => repaired == Ok::<Json, Seq<char>>(run.result.output)
                && run.result.iterations == w.round && run.result.tools_called == w.tools_called
                && schema_fault(w.output_schema) is None && schema_errors(
                w.output_schema,
                run.result.output,
            ).len() == 0,
            AgentNextView::On(next) => next.messages.drop_last() == w.messages
                && next.messages.last() is User && (repaired is Err || schema_fault(
                w.output_schema,
            ) is Some || schema_errors(w.output_schema, repaired->Ok_0).len() > 0),
            _ => false,
        },
{
    if let AgentNextView::On(next) = agent_rechecked(w, repaired) {
        assert(next.messages.drop_last() =~= w.messages);
    }
}

/// A call of an agent stands in its step's path by the round and by the tool.
pub proof fn a_call_of_an_agent_is_named_by_its_round(
    p: StepPathView,
    round: int,
    tool: Seq<char>,
)
    requires
        round >= 0,
    ensures
        agent_call_path(p, round, tool).step == p.step,
        agent_call_path(p, round, tool).body_step == Some(tool),
        agent_call_path(p, round, tool).body matches Some(b) && ends(
            b,
            "agent."@ + numeral(round as nat),
        ),
        refused_call(tool) is Some <==> tool == "plan_and_execute"@,
        refused_call(tool) matches Some(e) ==> e is Failed,
{
    let b = agent_call_path(p, round, tool).body->Some_0;
    let tail = "agent."@ + numeral(round as nat);
    assert(b.subrange(b.len() - tail.len(), b.len() as int) =~= tail);
}

/// The result of an agent holds its output, its rounds, its calls in order and
/// whether it is final; the run counts its calls.
pub proof fn an_agent_reports_its_result(
    s: RunStateView,
    step: Seq<char>,
    run: AgentRunView,
    fail: StepFailView,
    i: int,
)
    ensures
        agent_recorded(s, step, Ok(run)).1 matches Ok(v) && {
            &&& member(v, "output"@) == Some(run.result.output)
            &&& member(v, "iterations"@) == Some(Json::Num(Num::Int(run.result.iterations)))
            &&& member(v, "final"@) == Some(Json::Bool(run.result.final_))
            &&& member(v, "tools_called"@) matches Some(Json::List(log)) && log.len()
                == run.result.tools_called.len() && (0 <= i < log.len() ==> member(
                log[i],
                "tool"@,
            ) == Some(Json::Text(run.result.tools_called[i].tool)) && member(log[i], "round"@)
                == Some(Json::Num(Num::Int(run.result.tools_called[i].round))))
        },
        agent_recorded(s, step, Ok(run)).0.branch_steps_executed == s.branch_steps_executed
            + run.tool_calls,
        agent_recorded(s, step, Ok(run)).0.results == s.results,
        agent_recorded(s, step, Ok(run)).0.bus.drop_last() == s.bus,
        agent_recorded(s, step, Ok(run)).0.bus.last().source == step,
        agent_recorded(s, step, Err(fail)).0 == s,
        agent_recorded(s, step, Err(fail)).1 matches Err(end) && (match fail {
            StepFailView::Failed(m) => end == (ExecutionEndView::Failed {
                step,
                tool: "agent"@,
                message: m,
            }),
            StepFailView::Aborted(error) => end == (ExecutionEndView::Aborted { step, error }),
            StepFailView::Empty(_) => end matches ExecutionEndView::Empty { step: at, .. } && at
                == step,
        }),
{
    reveal_strlit("output");
    reveal_strlit("iterations");
    reveal_strlit("tools_called");
    reveal_strlit("final");
    reveal_strlit("tool");
    reveal_strlit("round");
    assert("output"@.len() != "iterations"@.len());
    assert("output"@.len() != "tools_called"@.len());
    assert("output"@.len() != "final"@.len());
    assert("output"@.len() != "tool"@.len());
    assert("output"@.len() != "round"@.len());
    assert("iterations"@.len() != "tools_called"@.len());
    assert("iterations"@.len() != "final"@.len());
    assert("iterations"@.len() != "tool"@.len());
    assert("iterations"@.len() != "round"@.len());
    assert("tools_called"@.len() != "final"@.len());
    assert("tools_called"@.len() != "tool"@.len());
    assert("tools_called"@.len() != "round"@.len());
    assert("final"@.len() != "tool"@.len());
    assert("final"@[0] != "round"@[0]);
    assert("tool"@.len() != "round"@.len());
    let a = run.result.output;
    let b = Json::Num(Num::Int(run.result.iterations));
    let c = log_json(run.result.tools_called);
    let d = Json::Bool(run.result.final_);
    let (k1, k2, k3, k4) = ("output"@, "iterations"@, "tools_called"@, "final"@);
    lemma_holds_four(k1, a, k2, b, k3, c, k4, d, k1);
    lemma_holds_four(k1, a, k2, b, k3, c, k4, d, k2);
    lemma_holds_four(k1, a, k2, b, k3, c, k4, d, k3);
    lemma_holds_four(k1, a, k2, b, k3, c, k4, d, k4);
    if 0 <= i < run.result.tools_called.len() {
        let e = run.result.tools_called[i];
        let t = Json::Text(e.tool);
        let r = Json::Num(Num::Int(e.round));
        lemma_holds_two("tool"@, t, "round"@, r, "tool"@);
        lemma_holds_two("tool"@, t, "round"@, r, "round"@);
    }
    assert(agent_recorded(s, step, Ok(run)).0.bus.drop_last() =~= s.bus);
}

/// An agent step has no problems exactly where it has a round, names a tool if it
/// names tools, asks for an object by a sound schema, and its texts refer to nothing
/// that is not there.
pub proof fn an_agent_step_is_checked_whole(e: Entries, seen: Seq<Seq<char>>, step: Seq<char>)
    ensures
        agent_problems(e, seen, step).len() == 0 <==> (agent_of(e) matches Ok(spec) && {
            &&& spec.max_iterations >= 1
            &&& spec.tools matches Some(tools) ==> tools.len() > 0
            &&& schema_fault(spec.output_schema) is None
            &&& match member(spec.output_schema, "type"@) {
                Some(Json::Text(t)) => t == "object"@,
                _ => member(spec.output_schema, "properties"@) is Some,
            }
            &&& template_problems(Json::Text(spec.prompt), seen, step).len() == 0
            &&& spec.system_prompt matches Some(t) ==> template_problems(
                Json::Text(t),
                seen,
                step,
            ).len() == 0
        }),
{
}

// ── Questions to people ──────────────────────────────────────────────────

/// A question is read as it is written; without a word on it, an unanswered one
/// fails.
pub proof fn a_question_is_what_is_written(e: Entries)
    requires
        ask_of(e) is Ok,
    ensures
        ({
            let spec = ask_of(e)->Ok_0;
            &&& lookup(e, "prompt"@) matches Some(Json::Text(t)) ==> spec.prompt == t
            &&& lookup(e, "outputSchema"@) matches Some(v) ==> spec.output_schema == v
            &&& lookup(e, "outputSchema"@) is None ==> (lookup(e, "output_schema"@) matches Some(v)
                ==> spec.output_schema == v)
            &&& names_choice(lookup(e, "whenUnanswered"@), "default"@) ==> spec.when_unanswered
                == WhenUnanswered::Default
            &&& names_choice(lookup(e, "whenUnanswered"@), "fail"@) ==> spec.when_unanswered
                == WhenUnanswered::Fail
            &&& lookup(e, "whenUnanswered"@) is None ==> {
                &&& names_choice(lookup(e, "when_unanswered"@), "default"@) ==> spec.when_unanswered
                    == WhenUnanswered::Default
                &&& names_choice(lookup(e, "when_unanswered"@), "fail"@) ==> spec.when_unanswered
                    == WhenUnanswered::Fail
                &&& lookup(e, "when_unanswered"@) is None ==> spec.when_unanswered
                    == WhenUnanswered::Fail
            }
            &&& spec.default == match lookup(e, "default"@) {
                Some(Json::Null) => None,
                other => other,
            }
        }),
{
    reveal_strlit("default");
    reveal_strlit("fail");
    assert("default"@.len() != "fail"@.len());
}

/// A question is put with its prompt rendered, and only where its answer can be
/// filled in as a form.
pub proof fn a_question_is_put_as_it_renders(e: Entries, scope: Entries)
    ensures
        match ask_begun(e, scope) {
            Ok(w) => {
                &&& ask_of(e) == Ok::<AskSpecView, Seq<char>>(w.spec)
                &&& rendered_text(scope, w.spec.prompt) == Ok::<Seq<char>, RenderErrorView>(
                    w.prompt,
                )
                &&& form_problem(w.spec.output_schema) is None
            },
            Err(_) => ask_of(e) is Err || (ask_of(e) matches Ok(spec) && (rendered_text(
                scope,
                spec.prompt,
            ) is Err || form_problem(spec.output_schema) is Some)),
        },
{
}

/// A form has at least one field, and each is a choice or a string, a number, an
/// integer or a boolean.
pub proof fn a_form_is_made_of_plain_fields(schema: Json, properties: Entries, i: int)
    requires
        form_problem(schema) is None,
        member(schema, "properties"@) == Some(Json::Object(properties)),
        0 <= i < properties.len(),
    ensures
        member(properties[i].1, "enum"@) is Some || (member(properties[i].1, "type"@) matches Some(
            Json::Text(t),
        ) && (t == "string"@ || t == "number"@ || t == "integer"@ || t == "boolean"@)),
{
    lemma_plain_fields(properties, 0, i);
}

proof fn lemma_plain_fields(properties: Entries, from: int, i: int)
    requires
        0 <= from <= i < properties.len(),
        crate::pipeline::ask::properties_problem(properties, from) is None,
    ensures
        crate::pipeline::ask::property_problem(properties[i].0, properties[i].1) is None,
    decreases i - from,
{
    if from < i {
        lemma_plain_fields(properties, from + 1, i);
    }
}

/// An answer that conforms is the result, and one that does not fails. Where nobody
/// answers, the rendered default stands in if the plan says so and it conforms, and
/// the result says why.
pub proof fn a_question_ends_with_an_answer_or_its_default(
    w: AskWorkView,
    scope: Entries,
    answer: Json,
    why: Seq<char>,
)
    ensures
        match ask_settled(w, scope, AskOutcomeView::Answered(answer)) {
            Ok(r) => mismatch(answer, w.spec.output_schema) is None && r.answer == answer
                && r.answered && r.reason is None,
            Err(fail) => mismatch(answer, w.spec.output_schema) is Some && fail is Failed,
        },
        match ask_settled(w, scope, AskOutcomeView::Declined) {
            Ok(r) => {
                &&& w.spec.when_unanswered == WhenUnanswered::Default
                &&& !r.answered
                &&& r.reason == Some("declined"@)
                &&& mismatch(r.answer, w.spec.output_schema) is None
                &&& w.spec.default matches Some(d) ==> rendered_input(scope, d) == Ok::<
                    Json,
                    RenderErrorView,
                >(r.answer)
            },
            Err(_) => w.spec.when_unanswered == WhenUnanswered::Fail || (
            w.spec.default matches Some(d) ==> match rendered_input(scope, d) {
                Ok(v) => mismatch(v, w.spec.output_schema) is Some,
                Err(_) => true,
            }),
        },
        match ask_settled(w, scope, AskOutcomeView::Unavailable(why)) {
            Ok(r) => {
                &&& w.spec.when_unanswered == WhenUnanswered::Default
                &&& !r.answered
                &&& r.reason == Some("unavailable"@)
                &&& w.spec.default matches Some(d) ==> rendered_input(scope, d) == Ok::<
                    Json,
                    RenderErrorView,
                >(r.answer)
            },
            Err(_) => ask_settled(w, scope, AskOutcomeView::Declined) is Err,
        },
{
}

/// The result of a question holds the answer, whether somebody gave it, and why not.
pub proof fn a_question_reports_its_answer(
    s: RunStateView,
    step: Seq<char>,
    r: AskResultView,
    fail: StepFailView,
)
    ensures
        ask_recorded(s, step, Ok(r)).1 matches Ok(v) && {
            &&& member(v, "answer"@) == Some(r.answer)
            &&& member(v, "answered"@) == Some(Json::Bool(r.answered))
            &&& member(v, "reason"@) == match r.reason {
                Some(why) => Some(Json::Text(why)),
                None => None,
            }
        },
        ask_recorded(s, step, Ok(r)).0 == (RunStateView {
            bus: ask_recorded(s, step, Ok(r)).0.bus,
            ..s
        }),
        ask_recorded(s, step, Ok(r)).0.bus.drop_last() == s.bus,
        ask_recorded(s, step, Ok(r)).0.bus.last().source == step,
        ask_recorded(s, step, Err(fail)).0 == s,
        ask_recorded(s, step, Err(fail)).1 matches Err(end) && (match fail {
            StepFailView::Failed(m) => end == (ExecutionEndView::Failed {
                step,
                tool: "ask"@,
                message: m,
            }),
            StepFailView::Aborted(error) => end == (ExecutionEndView::Aborted { step, error }),
            StepFailView::Empty(_) => end matches ExecutionEndView::Empty { step: at, .. } && at
                == step,
        }),
{
    reveal_strlit("answer");
    reveal_strlit("answered");
    reveal_strlit("reason");
    assert("answer"@.len() != "answered"@.len());
    assert("answer"@[0] != "reason"@[0]);
    assert("answered"@.len() != "reason"@.len());
    let yes = Json::Bool(r.answered);
    let (k1, k2, k3) = ("answer"@, "answered"@, "reason"@);
    lemma_holds_two(k1, r.answer, k2, yes, k1);
    lemma_holds_two(k1, r.answer, k2, yes, k2);
    lemma_holds_two(k1, r.answer, k2, yes, k3);
    if let Some(why) = r.reason {
        lemma_holds_three(k1, r.answer, k2, yes, k3, Json::Text(why), k1);
        lemma_holds_three(k1, r.answer, k2, yes, k3, Json::Text(why), k2);
        lemma_holds_three(k1, r.answer, k2, yes, k3, Json::Text(why), k3);
    }
    assert(ask_recorded(s, step, Ok(r)).0.bus.drop_last() =~= s.bus);
}

} // verus!
