//! Running a plan: which step is next, what becomes of it, and how a run ends.

use crate::laws::objects::{lemma_holds_one, lemma_holds_two};
use crate::pipeline::engine::{
    call_recorded, control_recorded, control_report, dispatch_begin, dispatch_called,
    dispatch_gated, dispatch_resolved, error_json, exit_recorded, exit_report, next_move,
    registry_outcome, route_of, CallOutcomeView, DispatchErrorView, DispatchMoveView,
    ExecutionEndView, MoveView, ReportView, RouteView,
};
use crate::pipeline::exit::{exit_json, ExitEvalView, PlanExitView};
use crate::pipeline::doc::FinishView;
use crate::pipeline::gate::{ErrorDecisionView, GateDecisionView};
use crate::pipeline::plan::{number_in_id, PlannerOutputView, SolverDataView, StepView};
use crate::pipeline::run::{
    adopted, checked, exited, explicit_concluded, explicit_state, has_id, not_among,
    planned_concluded, rendered_output, ConclusionView, PipelineErrorView,
};
use crate::pipeline::authoring::steps_problems;
use crate::pipeline::state::{
    count_executed, executed, fresh_state, has_run, last_error_before, next_number, pending_from,
    BusEntryView, BusKind, RunStateView,
};
use crate::template::render::{rendered_input, spliced};
use crate::template::{render_message, RenderErrorView};
use crate::text::{begins, ends, joined};
use crate::tools::{ToolErrorView, ToolOutcomeView};
use crate::value::{a_set_key_reads_back, lookup, member, put, Entries, Json};
use vstd::prelude::*;

verus! {

proof fn lemma_pending(plan: Seq<StepView>, results: Entries, from: int)
    requires
        0 <= from,
    ensures
        match pending_from(plan, results, from) {
            Some(i) => from <= i < plan.len() && lookup(results, plan[i].id) is None && forall|
                j: int,
            |
                from <= j < i ==> lookup(results, (#[trigger] plan[j]).id) is Some,
            None => forall|j: int|
                from <= j < plan.len() ==> lookup(results, (#[trigger] plan[j]).id) is Some,
        },
    decreases plan.len() - from,
{
    if from < plan.len() {
        lemma_pending(plan, results, from + 1);
    }
}

/// The next move is the first step without a result: a control step on its raw
/// input, an exit and any other call on its input rendered over the results so far.
/// Without such a step the run is complete.
pub proof fn the_first_step_without_a_result_is_next(s: RunStateView)
    ensures
        ({
            let first = |i: int|
                {
                    &&& 0 <= i < s.plan.len()
                    &&& lookup(s.results, s.plan[i].id) is None
                    &&& forall|j: int|
                        0 <= j < i ==> lookup(s.results, (#[trigger] s.plan[j]).id) is Some
                };
            match next_move(s) {
                MoveView::Completed => forall|j: int|
                    0 <= j < s.plan.len() ==> lookup(s.results, (#[trigger] s.plan[j]).id) is Some,
                MoveView::Control(i) => {
                    let tool = s.plan[i].tool_name;
                    first(i) && (tool == "agent"@ || tool == "ask"@ || tool == "decide"@ || tool
                        == "filter"@ || tool == "map"@ || tool == "reduce"@)
                },
                MoveView::Exit(i, v) => first(i) && s.plan[i].tool_name == "exit"@
                    && rendered_input(s.results, Json::Object(s.plan[i].input)) == Ok::<
                    Json,
                    RenderErrorView,
                >(v),
                MoveView::Call(i, v) => first(i) && s.plan[i].tool_name != "exit"@
                    && rendered_input(s.results, Json::Object(s.plan[i].input)) == Ok::<
                    Json,
                    RenderErrorView,
                >(v),
                MoveView::End(end) => exists|i: int| #[trigger]
                    first(i) && (match rendered_input(s.results, Json::Object(s.plan[i].input)) {
                        Ok(_) => false,
                        Err(e) => match e {
                            RenderErrorView::EmptyData { .. } => end == (ExecutionEndView::Empty {
                                step: s.plan[i].id,
                                message: render_message(e),
                            }),
                            _ => end == (ExecutionEndView::Failed {
                                step: s.plan[i].id,
                                tool: s.plan[i].tool_name,
                                message: render_message(e),
                            }),
                        },
                    }),
            }
        }),
{
    lemma_pending(s.plan, s.results, 0);
    let first = |i: int|
        {
            &&& 0 <= i < s.plan.len()
            &&& lookup(s.results, s.plan[i].id) is None
            &&& forall|j: int| 0 <= j < i ==> lookup(s.results, (#[trigger] s.plan[j]).id) is Some
        };
    if let Some(i) = pending_from(s.plan, s.results, 0) {
        assert(first(i));
    }
}

/// A step's value is its result from then on, and no other result changes.
pub proof fn a_result_is_kept_under_its_step(
    s: RunStateView,
    id: Seq<char>,
    tool: Seq<char>,
    value: Json,
    key: Seq<char>,
)
    ensures
        ({
            let expected = if key == id {
                Some(value)
            } else {
                lookup(s.results, key)
            };
            let called = call_recorded(s, id, tool, Ok(value));
            let passed = exit_recorded(s, id, Ok(ExitEvalView::Passed(value)));
            let controlled = control_recorded(s, id, Ok(value));
            &&& called.1 is None && passed.1 is None && controlled.1 is None
            &&& lookup(called.0.results, key) == expected
            &&& lookup(passed.0.results, key) == expected
            &&& lookup(controlled.0.results, key) == expected
            &&& called.0.plan == s.plan && passed.0.plan == s.plan && controlled.0.plan == s.plan
            &&& called.0.bus.drop_last() == s.bus && called.0.bus.last().source == id
            &&& called.0.bus.last().kind == BusKind::Info
            &&& passed.0.bus.drop_last() == s.bus && passed.0.bus.last().source == id
            &&& controlled.0.bus == s.bus
        }),
{
    a_set_key_reads_back(s.results, id, value, key);
    assert(call_recorded(s, id, tool, Ok(value)).0.bus.drop_last() =~= s.bus);
    assert(exit_recorded(s, id, Ok(ExitEvalView::Passed(value))).0.bus.drop_last() =~= s.bus);
}

/// A step that fails, aborts or exits ends the run as it did, and leaves no result.
pub proof fn a_step_that_fails_ends_the_run(
    s: RunStateView,
    id: Seq<char>,
    tool: Seq<char>,
    message: Seq<char>,
    error: Option<Json>,
    exit: PlanExitView,
    end: ExecutionEndView,
)
    ensures
        call_recorded(s, id, tool, Err(DispatchErrorView::Failed(message))) == (
            s,
            Some(ExecutionEndView::Failed { step: id, tool, message }),
        ),
        call_recorded(s, id, tool, Err(DispatchErrorView::Aborted(error))) == (
            s,
            Some(ExecutionEndView::Aborted { step: id, error }),
        ),
        exit_recorded(s, id, Ok(ExitEvalView::Exited(exit))) == (
            s,
            Some(ExecutionEndView::Exited(exit)),
        ),
        exit_recorded(s, id, Err(message)) == (
            s,
            Some(ExecutionEndView::Failed { step: id, tool: "exit"@, message }),
        ),
        control_recorded(s, id, Err(end)) == (s, Some(end)),
{
}

/// What an error is told as.
pub proof fn an_error_is_told_under_its_name(message: Seq<char>)
    ensures
        member(error_json(message), "error"@) == Some(Json::Text(message)),
{
    lemma_holds_one("error"@, Json::Text(message), "error"@);
}

/// What is reported of a control step and of an exit: its value, or its error.
pub proof fn a_control_step_is_reported_as_it_ended(
    value: Json,
    step: Seq<char>,
    tool: Seq<char>,
    message: Seq<char>,
    exit: PlanExitView,
)
    ensures
        control_report(Ok(value)) == Some((value, false)),
        control_report(Err(ExecutionEndView::Failed { step, tool, message })) matches Some((v, bad))
            && bad && member(v, "error"@) == Some(Json::Text(message)),
        control_report(Err(ExecutionEndView::Empty { step, message })) matches Some((v, bad)) && bad
            && member(v, "error"@) == Some(Json::Text(message)) && member(v, "emptyData"@) == Some(
            Json::Bool(true),
        ),
        exit_report(Ok(ExitEvalView::Passed(value))) == (value, false),
        exit_report(Ok(ExitEvalView::Exited(exit))) == (exit_json(exit), false),
        exit_report(Err(message)).1 && member(exit_report(Err(message)).0, "error"@) == Some(
            Json::Text(message),
        ),
{
    an_error_is_told_under_its_name(message);
    reveal_strlit("error");
    reveal_strlit("emptyData");
    assert("error"@.len() != "emptyData"@.len());
    let (m, yes) = (Json::Text(message), Json::Bool(true));
    lemma_holds_two("error"@, m, "emptyData"@, yes, "error"@);
    lemma_holds_two("error"@, m, "emptyData"@, yes, "emptyData"@);
}

/// A tool's name says where a call goes: to the plan of that name behind `plan__`,
/// to the planner, or to the registry.
pub proof fn a_call_goes_where_its_name_says(name: Seq<char>, tool: Seq<char>)
    ensures
        route_of("plan__"@ + name) == RouteView::Plan(name),
        route_of("plan_and_execute"@) == RouteView::Planner,
        !begins(tool, "plan__"@) && tool != "plan_and_execute"@ ==> route_of(tool)
            == RouteView::Registry,
{
    let whole = "plan__"@ + name;
    assert(whole.subrange(0, "plan__"@.len() as int) =~= "plan__"@);
    assert(whole.skip("plan__"@.len() as int) =~= name);
    reveal_strlit("plan__");
    reveal_strlit("plan_and_execute");
    assert(!begins("plan_and_execute"@, "plan__"@)) by {
        if begins("plan_and_execute"@, "plan__"@) {
            assert("plan_and_execute"@.subrange(0, 6)[5] == "plan_and_execute"@[5]);
        }
    }
}

/// A call is made at once where nothing gates it; a gate lets it be made, gives its
/// value in its stead, or ends the run.
pub proof fn a_gate_decides_what_becomes_of_a_call(
    tool: Seq<char>,
    rendered: Json,
    instead: Json,
)
    ensures
        dispatch_begin(false, tool, rendered).next == DispatchMoveView::Invoke(route_of(tool)),
        dispatch_begin(true, tool, rendered).next == DispatchMoveView::ConsultGate,
        dispatch_begin(true, tool, rendered).reports.len() == 0,
        dispatch_gated(GateDecisionView::Proceed, tool, rendered) == dispatch_begin(
            false,
            tool,
            rendered,
        ),
        dispatch_begin(false, tool, rendered).reports == seq![
            ReportView::StepStarted(rendered),
            ReportView::ToolStarted(rendered),
        ],
        dispatch_gated(GateDecisionView::Skip(instead), tool, rendered).next
            == DispatchMoveView::Done(Ok(instead)),
        dispatch_gated(GateDecisionView::Skip(instead), tool, rendered).reports == seq![
            ReportView::StepFinished(instead, false),
        ],
        dispatch_gated(GateDecisionView::Abort, tool, rendered).next == DispatchMoveView::Done(
            Err(DispatchErrorView::Aborted(None)),
        ),
{
}

/// A call that succeeds gives its result. One that fails is put to whoever watches the
/// calls, where anyone does: they let it fail, put another result in its place, or end
/// the run.
pub proof fn a_calls_outcome_is_acted_on(gated: bool, result: Json, instead: Json)
    ensures
        dispatch_called(
            gated,
            CallOutcomeView { result, is_error: false, aborted: false },
        ).next == DispatchMoveView::Done(Ok(result)),
        dispatch_called(
            gated,
            CallOutcomeView { result, is_error: false, aborted: false },
        ).reports == seq![
            ReportView::ToolFinished(false),
            ReportView::StepFinished(result, false),
        ],
        dispatch_called(
            true,
            CallOutcomeView { result, is_error: true, aborted: false },
        ).next == DispatchMoveView::ConsultErrorGate(result),
        dispatch_called(
            false,
            CallOutcomeView { result, is_error: true, aborted: false },
        ).next matches DispatchMoveView::Done(Err(DispatchErrorView::Failed(_))),
        dispatch_called(
            false,
            CallOutcomeView { result, is_error: true, aborted: false },
        ).next == dispatch_resolved(ErrorDecisionView::Fail, result).next,
        dispatch_resolved(ErrorDecisionView::Replace(instead), result).next
            == DispatchMoveView::Done(Ok(instead)),
        dispatch_resolved(ErrorDecisionView::Abort, result).next == DispatchMoveView::Done(
            Err(DispatchErrorView::Aborted(Some(result))),
        ),
        dispatch_resolved(ErrorDecisionView::Fail, result).reports == seq![
            ReportView::StepFinished(result, true),
        ],
        dispatch_resolved(ErrorDecisionView::Replace(instead), result).reports == seq![
            ReportView::StepFinished(instead, false),
        ],
{
}

/// A failed call is told by the JSON of its error: as it is where it is short, and
/// cut off where it is long.
pub proof fn a_failure_is_told_by_its_error(result: Json)
    ensures
        dispatch_resolved(ErrorDecisionView::Fail, result).next matches DispatchMoveView::Done(
            Err(DispatchErrorView::Failed(m)),
        ) && {
            let whole = crate::json::compact_text(result);
            let max = 2000int;
            &&& whole.len() <= max ==> m == whole
            &&& whole.len() > max ==> m == whole.take(max) + "…"@
        },
{
    let whole = crate::json::compact_text(result);
    let max = 2000int;
    if whole.len() > max {
        assert(whole.subrange(0, max) =~= whole.take(max));
    }
}

/// What a registry answers is passed on: its result and whether it is an error; a
/// call that could not be made is an error too.
pub proof fn a_registrys_answer_is_passed_on(o: ToolOutcomeView, e: ToolErrorView)
    ensures
        registry_outcome(Ok(o)).result == o.result,
        registry_outcome(Ok(o)).is_error == o.is_error,
        !registry_outcome(Ok(o)).aborted,
        registry_outcome(Err(e)).is_error && !registry_outcome(Err(e)).aborted,
        member(registry_outcome(Err(e)).result, "error"@) is Some,
{
    an_error_is_told_under_its_name(crate::tools::tool_error_text(e));
}

/// A run that was given a plan begins with that plan, with its input among the
/// results and nothing else, and with the solver's data of its finish.
pub proof fn an_explicit_run_begins_with_its_input(
    query: Seq<char>,
    plan: Seq<StepView>,
    finish: FinishView,
    input: Option<Json>,
    key: Seq<char>,
)
    ensures
        ({
            let s = explicit_state(query, plan, finish, input);
            &&& s.query == query
            &&& s.plan == plan
            &&& s.bus.len() == 0
            &&& s.plan_attempts == 0
            &&& s.branch_steps_executed == 0
            &&& lookup(s.results, key) == (if key == "input"@ {
                input
            } else {
                None
            })
            &&& finish matches FinishView::Solve(data) ==> s.solver_data == data
            &&& count_executed(s) == 0
        }),
{
    let none = Entries::empty();
    if let Some(v) = input {
        a_set_key_reads_back(none, "input"@, v, key);
        a_set_key_reads_back(none, "input"@, v, "input"@);
        assert(put(none, "input"@, v).len() == 1);
    }
}

/// A run that completes ends as its plan says: a model is asked to answer, or the
/// output is rendered over the results, or nothing is said.
pub proof fn a_completed_run_ends_as_its_plan_says(
    s: RunStateView,
    data: SolverDataView,
    output: Entries,
    max_attempts: int,
)
    ensures
        explicit_concluded(s, FinishView::Solve(data), ExecutionEndView::Completed)
            == ConclusionView::Solve(s),
        explicit_concluded(s, FinishView::Silent, ExecutionEndView::Completed)
            matches ConclusionView::Done(o) && o.answer == ""@ && o.structured is None && o.state
            == s && !o.degraded && o.exit is None,
        match explicit_concluded(s, FinishView::Render(output), ExecutionEndView::Completed) {
            ConclusionView::Done(o) => {
                &&& rendered_output(s.results, output, output.len() as int) matches Ok(e)
                &&& o.structured == Some(Json::Object(e))
                &&& o.answer == ""@
                &&& o.state == s
                &&& !o.degraded
                &&& o.exit is None
            },
            ConclusionView::Fail(PipelineErrorView::OutputRender(_)) => rendered_output(
                s.results,
                output,
                output.len() as int,
            ) is Err,
            _ => false,
        },
        planned_concluded(s, ExecutionEndView::Completed, max_attempts) == ConclusionView::Solve(s),
{
    reveal_strlit("");
    assert(""@ =~= Seq::<char>::empty());
}

/// An output holds under each of its keys what the template there gives, and any
/// value that is no text as it is.
pub proof fn an_output_is_rendered_key_by_key(
    results: Entries,
    output: Entries,
    n: int,
    k: int,
)
    requires
        crate::value::ascending(output),
        0 <= k < n <= output.len(),
        rendered_output(results, output, n) is Ok,
    ensures
        match output[k].1 {
            Json::Text(t) => spliced(results, t) matches Ok(v) && lookup(
                rendered_output(results, output, n)->Ok_0,
                output[k].0,
            ) == Some(v),
            other => lookup(rendered_output(results, output, n)->Ok_0, output[k].0) == Some(other),
        },
    decreases n,
{
    let before = rendered_output(results, output, n - 1)->Ok_0;
    let (key, value) = output[n - 1];
    let v = match value {
        Json::Text(t) => spliced(results, t)->Ok_0,
        other => other,
    };
    a_set_key_reads_back(before, key, v, output[k].0);
    if k < n - 1 {
        an_output_is_rendered_key_by_key(results, output, n - 1, k);
        assert(crate::text::text_less(output[k].0, output[n - 1].0));
        crate::value::text_less_irreflexive(output[k].0);
    }
}

/// A run whose data ran out is answered by the solver where there is one, with a note
/// of it; without a solver it fails. A failed step and an abort are passed on whole.
pub proof fn an_unfinished_run_says_what_stopped_it(
    s: RunStateView,
    finish: FinishView,
    step: Seq<char>,
    tool: Seq<char>,
    message: Seq<char>,
    error: Option<Json>,
)
    ensures
        match explicit_concluded(s, finish, ExecutionEndView::Empty { step, message }) {
            ConclusionView::Solve(after) => finish is Solve && after == (RunStateView {
                bus: s.bus.push(
                    BusEntryView { source: step, kind: BusKind::EmptyData, content: message },
                ),
                ..s
            }),
            ConclusionView::Fail(e) => !(finish is Solve) && e == (PipelineErrorView::EmptyData {
                step,
                message,
            }),
            _ => false,
        },
        explicit_concluded(s, finish, ExecutionEndView::Failed { step, tool, message })
            == ConclusionView::Fail(PipelineErrorView::StepFailed { step, tool, message }),
        explicit_concluded(s, finish, ExecutionEndView::Aborted { step, error })
            == ConclusionView::Fail(PipelineErrorView::Aborted { step, error, state: s }),
{
}

/// A planned run whose step failed is planned again while there are attempts left,
/// with a note of the step, the tool and the failure; after that the failure is
/// explained. Data that ran out goes to the solver.
pub proof fn a_failed_plan_is_planned_again(
    s: RunStateView,
    step: Seq<char>,
    tool: Seq<char>,
    message: Seq<char>,
    error: Option<Json>,
    max_attempts: int,
)
    ensures
        ({
            let end = ExecutionEndView::Failed { step, tool, message };
            let next = match planned_concluded(s, end, max_attempts) {
                ConclusionView::Replan(after) => Some(after),
                ConclusionView::Summarize(after) => Some(after),
                _ => None,
            };
            &&& planned_concluded(s, end, max_attempts) is Replan <==> s.plan_attempts
                < max_attempts
            &&& planned_concluded(s, end, max_attempts) is Summarize <==> s.plan_attempts
                >= max_attempts
            &&& next matches Some(after) && {
                &&& after == (RunStateView { bus: after.bus, ..s })
                &&& after.bus.drop_last() == s.bus
                &&& after.bus.last().source == step
                &&& after.bus.last().kind == BusKind::Error
                &&& ends(after.bus.last().content, message)
            }
        }),
        planned_concluded(s, ExecutionEndView::Empty { step, message }, max_attempts)
            == ConclusionView::Solve(
            RunStateView {
                bus: s.bus.push(
                    BusEntryView { source: step, kind: BusKind::EmptyData, content: message },
                ),
                ..s
            },
        ),
        planned_concluded(s, ExecutionEndView::Aborted { step, error }, max_attempts)
            == ConclusionView::Fail(PipelineErrorView::Aborted { step, error, state: s }),
{
    let told = "step "@ + step + " ("@ + tool + ") failed: "@ + message;
    assert(told.subrange(told.len() - message.len(), told.len() as int) =~= message);
    let after = s.bus.push(BusEntryView { source: step, kind: BusKind::Error, content: told });
    assert(after.drop_last() =~= s.bus);
}

/// A plan with problems is not run: it is planned again, or explained once the
/// attempts are used up.
pub proof fn a_defective_plan_is_not_run(s: RunStateView, max_attempts: int)
    ensures
        checked(s, max_attempts) is None <==> steps_problems(s.plan).len() == 0,
        match checked(s, max_attempts) {
            None => true,
            Some(ConclusionView::Replan(after)) => s.plan_attempts < max_attempts && after.results
                == s.results && after.bus.drop_last() == s.bus && after.bus.last().kind
                == BusKind::Error,
            Some(ConclusionView::Summarize(after)) => s.plan_attempts >= max_attempts
                && after.bus.drop_last() == s.bus && after.bus.last().kind == BusKind::Error,
            Some(_) => false,
        },
{
    let note = BusEntryView {
        source: "validation"@,
        kind: BusKind::Error,
        content: joined(steps_problems(s.plan), "; "@),
    };
    assert(s.bus.push(note).drop_last() =~= s.bus);
}

/// A run that a plan's exit ended is answered by the exit's message and output.
pub proof fn an_exited_run_is_answered_by_its_exit(s: RunStateView, exit: PlanExitView)
    ensures
        ({
            let o = exited(s, exit);
            &&& o.answer == exit.message
            &&& o.structured == match exit.output {
                Some(e) => Some(Json::Object(e)),
                None => None,
            }
            &&& o.exit == Some(exit)
            &&& !o.degraded
            &&& o.state.results == s.results
            &&& o.state.bus.drop_last() == s.bus
            &&& o.state.bus.last().source == exit.step
        }),
{
    assert(exited(s, exit).state.bus.drop_last() =~= s.bus);
}

/// A new plan comes behind the steps that have run, without those that they replace;
/// where it names no data for the solver, every step's result is its data.
pub proof fn a_new_plan_follows_what_has_run(s: RunStateView, output: PlannerOutputView, i: int)
    ensures
        ({
            let after = adopted(s, output);
            &&& after.query == s.query && after.results == s.results && after.bus == s.bus
            &&& after.plan_attempts == s.plan_attempts
            &&& after.solver_data.query_to_answer == output.solver_data.query_to_answer
            &&& after.solver_data.system_prompt == output.solver_data.system_prompt
            &&& output.solver_data.data.len() > 0 ==> after.solver_data.data
                == output.solver_data.data
            &&& 0 <= i < output.plan.len() && !has_id(
                executed(s.plan, s.results),
                output.plan[i].id,
            ) ==> after.plan.contains(output.plan[i])
            &&& 0 <= i < s.plan.len() && lookup(s.results, s.plan[i].id) is Some
                ==> after.plan.contains(s.plan[i])
        }),
{
    let done = executed(s.plan, s.results);
    let fresh = not_among(output.plan, done);
    let after = adopted(s, output);
    assert(after.plan == done + fresh);
    if 0 <= i < output.plan.len() && !has_id(done, output.plan[i].id) {
        let keep = |step: StepView| !has_id(done, step.id);
        crate::laws::editing::lemma_filtered(output.plan, keep, output.plan[i]);
        let k = choose|k: int| 0 <= k < fresh.len() && fresh[k] == output.plan[i];
        assert(after.plan[done.len() + k] == output.plan[i]);
    }
    if 0 <= i < s.plan.len() && lookup(s.results, s.plan[i].id) is Some {
        let keep = |step: StepView| has_run(step, s.results);
        crate::laws::editing::lemma_filtered(s.plan, keep, s.plan[i]);
        let k = choose|k: int| 0 <= k < done.len() && done[k] == s.plan[i];
        assert(after.plan[k] == s.plan[i]);
    }
}

/// The number of the next step is above those of all steps that have run.
pub proof fn the_next_number_is_new(plan: Seq<StepView>, results: Entries, i: int)
    requires
        0 <= i < plan.len(),
        lookup(results, plan[i].id) is Some,
    ensures
        number_in_id(plan[i].id) matches Some(n) ==> next_number(plan, results) > n,
    decreases plan.len(),
{
    let front = plan.drop_last();
    if i < front.len() {
        assert(front[i] == plan[i]);
        the_next_number_is_new(front, results, i);
    }
}

/// The last error is the latest entry that is one.
pub proof fn the_last_error_is_the_latest(bus: Seq<BusEntryView>, n: int)
    requires
        0 <= n <= bus.len(),
    ensures
        match last_error_before(bus, n) {
            Some(k) => 0 <= k < n && bus[k].kind == BusKind::Error && forall|j: int|
                k < j < n ==> (#[trigger] bus[j]).kind != BusKind::Error,
            None => forall|j: int| 0 <= j < n ==> (#[trigger] bus[j]).kind != BusKind::Error,
        },
    decreases n,
{
    if n > 0 {
        the_last_error_is_the_latest(bus, n - 1);
    }
}

/// What was executed is every result but the input, and what bodies executed.
pub proof fn the_input_is_no_step(s: RunStateView, id: Seq<char>, tool: Seq<char>, value: Json)
    requires
        lookup(s.results, id) is None,
        id != "input"@,
    ensures
        count_executed(call_recorded(s, id, tool, Ok(value)).0) == count_executed(s) + 1,
        count_executed(
            RunStateView { branch_steps_executed: s.branch_steps_executed + 1, ..s },
        ) == count_executed(s) + 1,
        count_executed(fresh_state(tool)) == 0,
{
    a_set_key_reads_back(s.results, id, value, "input"@);
    lemma_put_grows(s.results, id, value);
}

proof fn lemma_put_grows(e: Entries, key: Seq<char>, value: Json)
    requires
        lookup(e, key) is None,
    ensures
        put(e, key, value).len() == e.len() + 1,
    decreases e.len(),
{
    if e.len() > 0 && e[0].0 != key && !crate::text::text_less(key, e[0].0) {
        lemma_put_grows(e.skip(1), key, value);
    }
}

} // verus!
