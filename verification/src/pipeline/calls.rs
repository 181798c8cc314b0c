//! Plans as callables: the shared engine behind plan tools in the agent's
//! catalog and `plan__*` steps in plans, and the free-form planner behind
//! `plan_and_execute`.
//!
//! Plans call plans. A plan never enters a call chain that it is already part
//! of, and no chain is deeper than [`MAX_PLAN_DEPTH`].

use crate::pipeline::doc::{
    apply_schema_defaults, doc_at, docs_view, find_doc, input_schema_of, plan_input_problems,
    validate_input, with_defaults, PlanDoc, PlanDocView,
};
use crate::pipeline::engine::{error_data, error_json, CallOutcome, CallOutcomeView};
use crate::pipeline::exit::{ExitStatus, PlanExit, PlanExitView};
use crate::pipeline::run::{
    outcome_view, pipeline_error_text, PipelineError, PipelineErrorView, PipelineOutcome,
    PipelineOutcomeView,
};
use crate::pipeline::state::count_executed;
use crate::text::{cat2, cat3, cat4, cat6, join, joined, lists, push_text, same_text, texts};
use crate::value::{
    member, obj1, obj2, obj3, object, put, text_array, text_list, Data, Fields, Json, Num,
};
use vstd::prelude::*;

verus! {

/// What came of invoking a plan (or the planner) as a callable.
pub type PlanCall = CallOutcome;

/// Maximum plan-call nesting (cycles are caught by the call stack; this bounds
/// legitimate but deep chains).
pub const MAX_PLAN_DEPTH: usize = 8;

/// A call that failed with a message.
pub open spec fn failed_call(message: Seq<char>) -> CallOutcomeView {
    CallOutcomeView { result: error_json(message), is_error: true, aborted: false }
}

/// A call that failed with a message.
pub fn fail_call(message: &str) -> (r: PlanCall)
    ensures
        r@ == failed_call(message@),
{
    CallOutcome { result: error_data(message), is_error: true, aborted: false }
}

/// Why a plan may not be entered from a call chain. The planner may be entered
/// again: it is only bounded by the depth.
pub open spec fn entry_problem(stack: Seq<Seq<char>>, entering: Seq<char>) -> Option<Seq<char>> {
    if entering != "plan_and_execute"@ && stack.contains(entering) {
        Some("recursive plan cycle: "@ + joined(stack, " → "@) + " → "@ + entering)
    } else if stack.len() >= MAX_PLAN_DEPTH {
        Some("plan call depth exceeded (8): "@ + joined(stack, " → "@))
    } else {
        None
    }
}

/// Guards a call chain: the failed call where the plan may not be entered.
pub fn depth_guard(stack: &Vec<String>, entering: &str) -> (r: Option<PlanCall>)
    ensures
        match (r, entry_problem(texts(stack@), entering@)) {
            (Some(call), Some(problem)) => call@ == failed_call(problem),
            (None, None) => true,
            _ => false,
        },
{
    if !same_text(entering, "plan_and_execute") && lists(stack, entering) {
        let chain = join(stack, " → ");
        return Some(
            fail_call(
                cat4("recursive plan cycle: ", chain.as_str(), " → ", entering).as_str(),
            ),
        );
    }
    if stack.len() >= MAX_PLAN_DEPTH {
        let chain = join(stack, " → ");
        return Some(
            fail_call(cat2("plan call depth exceeded (8): ", chain.as_str()).as_str()),
        );
    }
    None
}

/// The call chain inside a plan, one level deeper.
pub fn enter(stack: &Vec<String>, entering: &str) -> (r: Vec<String>)
    ensures
        texts(r@) == texts(stack@).push(entering@),
{
    let mut inside = crate::text::copy_texts(stack);
    push_text(&mut inside, entering.to_owned());
    inside
}

// ── Calling a plan ───────────────────────────────────────────────────────

/// How the call of a plan begins.
#[derive(Debug)]
pub enum PlanStart {
    /// The call fails before the plan runs.
    Refused(PlanCall),
    /// The plan at this position runs, with this query and input.
    Run { index: usize, query: String, input: Data },
}

/// The model of a [`PlanStart`].
pub enum PlanStartView {
    Refused(CallOutcomeView),
    Run { index: int, query: Seq<char>, input: Json },
}

impl PlanStart {
    pub open spec fn view(&self) -> PlanStartView {
        match self {
            PlanStart::Refused(call) => PlanStartView::Refused(call@),
            PlanStart::Run { index, query, input } => PlanStartView::Run {
                index: *index as int,
                query: query@,
                input: input@,
            },
        }
    }
}

/// The answer to a plan's caller whose input does not fit.
pub open spec fn input_refusal(doc: PlanDocView, problems: Seq<Seq<char>>) -> Json {
    Json::Object(
        object(
            seq![
                ("error"@, Json::Text("invalid or missing plan inputs"@)),
                ("problems"@, text_list(problems)),
                ("inputSchema"@, input_schema_of(doc)),
            ],
        ),
    )
}

/// The answer to a plan's caller whose input does not fit.
pub fn refuse_input(doc: &PlanDoc, problems: &Vec<String>) -> (r: Data)
    ensures
        r@ == input_refusal(doc@, texts(problems@)),
{
    obj3(
        "error",
        Data::text("invalid or missing plan inputs"),
        "problems",
        text_array(problems),
        "inputSchema",
        doc.tool_input_schema(),
    )
}

/// What a plan is asked when it is called.
pub open spec fn plan_query(doc: PlanDocView) -> Seq<char> {
    "Run the '"@ + doc.name + "' plan"@
}

/// The input that a plan gets: what the caller gave, with the defaults of the
/// plan's schema.
pub open spec fn plan_input(doc: PlanDocView, input: Json) -> Json {
    match doc.input_schema {
        Some(schema) => with_defaults(schema, input),
        None => input,
    }
}

/// How the call of a plan begins.
pub open spec fn plan_start(
    plans: Seq<PlanDocView>,
    stack: Seq<Seq<char>>,
    identifier: Seq<char>,
    input: Json,
) -> PlanStartView {
    match entry_problem(stack, identifier) {
        Some(problem) => PlanStartView::Refused(failed_call(problem)),
        None => match doc_at(plans, identifier, 0) {
            None => PlanStartView::Refused(
                failed_call("no plan named '"@ + identifier + "'"@),
            ),
            Some(index) => {
                let doc = plans[index];
                let input = plan_input(doc, input);
                let problems = plan_input_problems(doc, input);
                if problems.len() > 0 {
                    PlanStartView::Refused(
                        CallOutcomeView {
                            result: input_refusal(doc, problems),
                            is_error: true,
                            aborted: false,
                        },
                    )
                } else {
                    PlanStartView::Run { index, query: plan_query(doc), input }
                }
            },
        },
    }
}

/// Begins the call of a plan document by identifier. What runs is to be entered
/// with [`enter`] on the call chain.
pub fn begin_plan_call(
    plans: &Vec<PlanDoc>,
    stack: &Vec<String>,
    identifier: &str,
    input: Data,
) -> (r: PlanStart)
    ensures
        r@ == plan_start(docs_view(plans@), texts(stack@), identifier@, input@),
        r matches PlanStart::Run { index, .. } ==> index < plans@.len(),
{
    if let Some(refused) = depth_guard(stack, identifier) {
        return PlanStart::Refused(refused);
    }
    let index = match find_doc(plans, identifier) {
        Some(index) => index,
        None => {
            return PlanStart::Refused(
                fail_call(cat3("no plan named '", identifier, "'").as_str()),
            );
        },
    };
    let doc = &plans[index];
    assert(docs_view(plans@)[index as int] == doc@);
    let mut input = input;
    if let Some(schema) = &doc.input_schema {
        apply_schema_defaults(schema, &mut input);
    }
    if let Err(problems) = validate_input(doc, &input) {
        return PlanStart::Refused(
            CallOutcome { result: refuse_input(doc, &problems), is_error: true, aborted: false },
        );
    }
    PlanStart::Run { index, query: cat3("Run the '", doc.name.as_str(), "' plan"), input }
}

/// What a plan's caller gets of an exit: an error where the exit is one.
pub open spec fn exit_call(exit: PlanExitView) -> CallOutcomeView {
    let is_error = exit.status == ExitStatus::Error;
    let base = object(
        seq![
            ("exited"@, Json::Bool(true)),
            (
                "status"@,
                Json::Text(
                    if is_error {
                        "error"@
                    } else {
                        "success"@
                    },
                ),
            ),
            ("message"@, Json::Text(exit.message)),
        ],
    );
    let shown = match exit.output {
        Some(output) => put(base, "output"@, Json::Object(output)),
        None => base,
    };
    let full = if is_error {
        put(shown, "error"@, Json::Text(exit.message))
    } else {
        shown
    };
    CallOutcomeView { result: Json::Object(full), is_error, aborted: false }
}

fn call_of_exit(exit: &PlanExit) -> (r: PlanCall)
    ensures
        r@ == exit_call(exit@),
{
    let is_error = exit.status == ExitStatus::Error;
    let status = if is_error {
        "error"
    } else {
        "success"
    };
    let mut fields = match obj3(
        "exited",
        Data::Bool(true),
        "status",
        Data::text(status),
        "message",
        Data::Text(exit.message.clone()),
    ) {
        Data::Object(fields) => fields,
        _ => Fields::new(),
    };
    if let Some(output) = &exit.output {
        fields.insert("output".to_owned(), Data::Object(output.copy()));
    }
    if is_error {
        fields.insert("error".to_owned(), Data::Text(exit.message.clone()));
    }
    CallOutcome { result: Data::Object(fields), is_error, aborted: false }
}

/// What a plan's caller gets of a finished run: the structured output where
/// there is one, else the answer; of a plan that makes neither, how much ran.
pub open spec fn outcome_json(o: PipelineOutcomeView) -> Json {
    match o.structured {
        Some(structured) => structured,
        None => if o.answer.len() == 0 {
            Json::Object(
                object(
                    seq![
                        ("ok"@, Json::Bool(true)),
                        ("steps_executed"@, Json::Num(Num::Int(count_executed(o.state)))),
                    ],
                ),
            )
        } else {
            Json::Object(object(seq![("answer"@, Json::Text(o.answer))]))
        },
    }
}

/// What a plan's caller gets.
pub open spec fn plan_call_result(
    identifier: Seq<char>,
    run: Result<PipelineOutcomeView, PipelineErrorView>,
) -> CallOutcomeView {
    match run {
        Ok(outcome) => match outcome.exit {
            Some(exit) => exit_call(exit),
            None => CallOutcomeView {
                result: outcome_json(outcome),
                is_error: false,
                aborted: false,
            },
        },
        Err(PipelineErrorView::EmptyData { step, message }) => CallOutcomeView {
            result: Json::Object(
                object(
                    seq![
                        (
                            "error"@,
                            Json::Text(
                                "plan '"@ + identifier + "' had no data at step "@ + step + ": "@
                                    + message,
                            ),
                        ),
                        ("empty_data"@, Json::Bool(true)),
                    ],
                ),
            ),
            is_error: true,
            aborted: false,
        },
        Err(PipelineErrorView::Aborted { step, .. }) => CallOutcomeView {
            result: error_json("plan '"@ + identifier + "' aborted at step "@ + step),
            is_error: true,
            aborted: true,
        },
        Err(e) => failed_call("plan '"@ + identifier + "' failed: "@ + pipeline_error_text(e)),
    }
}

/// Ends the call of a plan with what its run made. An abort stays hard instead
/// of degrading into a tool error that could be replanned.
pub fn end_plan_call(identifier: &str, run: Result<PipelineOutcome, PipelineError>) -> (r: PlanCall)
    requires
        run matches Ok(outcome) ==> count_executed(outcome.state@) <= usize::MAX,
    ensures
        r@ == plan_call_result(identifier@, outcome_view(run)),
{
    match run {
        Ok(outcome) => {
            if let Some(exit) = &outcome.exit {
                return call_of_exit(exit);
            }
            let steps: usize = outcome.state.steps_executed();
            let result = match outcome.structured {
                Some(structured) => structured,
                None => if outcome.answer.as_str().is_empty() {
                    obj2("ok", Data::Bool(true), "steps_executed", Data::count(steps))
                } else {
                    obj1("answer", Data::Text(outcome.answer))
                },
            };
            CallOutcome { result, is_error: false, aborted: false }
        },
        Err(PipelineError::EmptyData { step, message }) => {
            let text = cat6(
                "plan '",
                identifier,
                "' had no data at step ",
                step.as_str(),
                ": ",
                message.as_str(),
            );
            CallOutcome {
                result: obj2("error", Data::Text(text), "empty_data", Data::Bool(true)),
                is_error: true,
                aborted: false,
            }
        },
        Err(PipelineError::Aborted { step, .. }) => {
            let text = cat4("plan '", identifier, "' aborted at step ", step.as_str());
            CallOutcome { result: error_data(text.as_str()), is_error: true, aborted: true }
        },
        Err(e) => fail_call(
            cat4("plan '", identifier, "' failed: ", e.message().as_str()).as_str(),
        ),
    }
}

// ── Calling the planner ──────────────────────────────────────────────────

/// The query that a planner's caller gives.
pub open spec fn query_in(input: Json) -> Option<Seq<char>> {
    match member(input, "query"@) {
        Some(Json::Text(query)) => Some(query),
        _ => None,
    }
}

/// The query that a planner's caller gives.
pub fn find_query(input: &Data) -> (r: Option<String>)
    ensures
        match r {
            Some(query) => query_in(input@) == Some(query@),
            None => query_in(input@) is None,
        },
{
    match input.get("query") {
        Some(Data::Text(query)) => Some(query.clone()),
        _ => None,
    }
}

/// Begins the call of the planner: the query to plan for, or the failed call.
pub fn begin_planner_call(stack: &Vec<String>, input: &Data) -> (r: Result<String, PlanCall>)
    ensures
        match (query_in(input@), entry_problem(texts(stack@), "plan_and_execute"@), r) {
            (None, _, Err(call)) => call@ == failed_call(
                "plan_and_execute requires a 'query' string"@,
            ),
            (Some(_), Some(problem), Err(call)) => call@ == failed_call(problem),
            (Some(query), None, Ok(text)) => text@ == query,
            _ => false,
        },
{
    let query = match find_query(input) {
        Some(query) => query,
        None => {
            return Err(fail_call("plan_and_execute requires a 'query' string"));
        },
    };
    match depth_guard(stack, "plan_and_execute") {
        Some(refused) => Err(refused),
        None => Ok(query),
    }
}

/// What the planner's caller gets.
pub open spec fn planner_call_result(
    run: Result<PipelineOutcomeView, PipelineErrorView>,
) -> CallOutcomeView {
    match run {
        Ok(outcome) => CallOutcomeView {
            result: Json::Object(
                object(
                    seq![
                        ("answer"@, Json::Text(outcome.answer)),
                        ("degraded"@, Json::Bool(outcome.degraded)),
                        ("steps_executed"@, Json::Num(Num::Int(count_executed(outcome.state)))),
                    ],
                ),
            ),
            is_error: false,
            aborted: false,
        },
        Err(PipelineErrorView::Aborted { step, .. }) => CallOutcomeView {
            result: error_json("planned run aborted at step "@ + step),
            is_error: true,
            aborted: true,
        },
        Err(e) => failed_call(pipeline_error_text(e)),
    }
}

/// Ends the call of the planner with what its run made.
pub fn end_planner_call(run: Result<PipelineOutcome, PipelineError>) -> (r: PlanCall)
    requires
        run matches Ok(outcome) ==> count_executed(outcome.state@) <= usize::MAX,
    ensures
        r@ == planner_call_result(outcome_view(run)),
{
    match run {
        Ok(outcome) => {
            let steps: usize = outcome.state.steps_executed();
            CallOutcome {
                result: obj3(
                    "answer",
                    Data::Text(outcome.answer),
                    "degraded",
                    Data::Bool(outcome.degraded),
                    "steps_executed",
                    Data::count(steps),
                ),
                is_error: false,
                aborted: false,
            }
        },
        Err(PipelineError::Aborted { step, .. }) => CallOutcome {
            result: error_data(cat2("planned run aborted at step ", step.as_str()).as_str()),
            is_error: true,
            aborted: true,
        },
        Err(e) => fail_call(e.message().as_str()),
    }
}

// ── Laws ─────────────────────────────────────────────────────────────────

/// A call chain in which no plan (the planner aside) occurs twice.
pub open spec fn acyclic(stack: Seq<Seq<char>>) -> bool {
    forall|i: int, j: int|
        0 <= i < j < stack.len() && #[trigger] stack[i] == #[trigger] stack[j] ==> stack[i]
            == "plan_and_execute"@
}

/// Whatever is entered past the guard, no plan is ever part of its own call
/// chain and no chain is deeper than the limit.
pub proof fn call_chains_are_acyclic_and_bounded(stack: Seq<Seq<char>>, entering: Seq<char>)
    requires
        acyclic(stack),
        entry_problem(stack, entering) is None,
    ensures
        acyclic(stack.push(entering)),
        stack.push(entering).len() <= MAX_PLAN_DEPTH,
{
    let inside = stack.push(entering);
    assert forall|i: int, j: int|
        0 <= i < j < inside.len() && #[trigger] inside[i] == #[trigger] inside[j] implies inside[i]
        == "plan_and_execute"@ by {
        if j < stack.len() {
            assert(stack[i] == stack[j]);
        } else {
            assert(stack.contains(stack[i]));
        }
    }
}

/// A plan never runs on an input that does not conform to its schema.
pub proof fn a_called_plan_gets_a_conforming_input(
    plans: Seq<PlanDocView>,
    stack: Seq<Seq<char>>,
    identifier: Seq<char>,
    input: Json,
)
    ensures
        plan_start(plans, stack, identifier, input) matches PlanStartView::Run { index, input, .. }
            ==> plan_input_problems(plans[index], input).len() == 0,
{
}

/// A nested abort reaches the caller as an abort, and nothing else does.
pub proof fn only_an_abort_is_passed_on_as_one(
    identifier: Seq<char>,
    run: Result<PipelineOutcomeView, PipelineErrorView>,
)
    ensures
        plan_call_result(identifier, run).aborted == (run matches Err(
            PipelineErrorView::Aborted { .. },
        )),
        planner_call_result(run).aborted == (run matches Err(PipelineErrorView::Aborted { .. })),
{
}

} // verus!
