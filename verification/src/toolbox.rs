//! The agent's complete tool catalog: the base tools, one tool per plan
//! document, and `plan_and_execute`.
//!
//! Plan tools are explicit runs (never replanned); `plan_and_execute` is a
//! planned run (replanned on defects).

use crate::pipeline::calls::{find_query, input_refusal, plan_query, query_in, refuse_input};
use crate::pipeline::doc::{
    doc_at, docs_view, find_doc, plan_input_problems, validate_input, PlanDoc, PlanDocView,
};
use crate::pipeline::engine::{error_data, error_json};
use crate::pipeline::resolve::{add_plans, with_plans};
use crate::pipeline::run::{
    outcome_view, pipeline_error_text, PipelineError, PipelineErrorView, PipelineOutcome,
    PipelineOutcomeView,
};
use crate::text::{begins, cat2, cat3, cat7, chars_of, same_text, slice_text, starts_with};
use crate::tools::{
    tools_view, ToolDef, ToolDefView, ToolError, ToolErrorView, ToolOutcome, ToolOutcomeView,
};
use crate::value::{list1, obj1, obj2, obj3, object, Data, Json, Num};
use vstd::prelude::*;

verus! {

/// What the names of plan tools begin with.
pub const PLAN_TOOL_PREFIX: &'static str = "plan__";

/// The planner's tool.
pub const PLAN_AND_EXECUTE: &'static str = "plan_and_execute";

/// The planner's tool, as it is offered to the agent.
pub open spec fn planner_tool() -> ToolDefView {
    ToolDefView {
        name: PLAN_AND_EXECUTE@,
        description: "Plan and execute a multi-step data-gathering task: a planner composes a validated sequence of tool calls with data flowing between steps, executes it (replanning on failures), and synthesizes an answer. Use for complex queries needing several dependent tool calls — prefer calling tools directly for simple lookups."@,
        input_schema: Json::Object(
            object(
                seq![
                    ("type"@, Json::Text("object"@)),
                    ("required"@, Json::List(seq![Json::Text("query"@)])),
                    (
                        "properties"@,
                        Json::Object(
                            object(
                                seq![
                                    (
                                        "query"@,
                                        Json::Object(
                                            object(
                                                seq![
                                                    ("type"@, Json::Text("string"@)),
                                                    (
                                                        "description"@,
                                                        Json::Text(
                                                            "The complete task, self-contained: include every name, id, timeframe, and constraint the planner needs (it cannot see the conversation)."@,
                                                        ),
                                                    ),
                                                ],
                                            ),
                                        ),
                                    ),
                                ],
                            ),
                        ),
                    ),
                ],
            ),
        ),
        output_schema: None,
        output_example: None,
        read_only: None,
    }
}

/// The planner's tool, as it is offered to the agent.
pub fn plan_and_execute_def() -> (r: ToolDef)
    ensures
        r@ == planner_tool(),
{
    ToolDef {
        name: PLAN_AND_EXECUTE.to_owned(),
        description: "Plan and execute a multi-step data-gathering task: a planner composes a validated sequence of tool calls with data flowing between steps, executes it (replanning on failures), and synthesizes an answer. Use for complex queries needing several dependent tool calls — prefer calling tools directly for simple lookups.".to_owned(),
        input_schema: obj3(
            "type",
            Data::text("object"),
            "required",
            list1(Data::text("query")),
            "properties",
            obj1(
                "query",
                obj2(
                    "type",
                    Data::text("string"),
                    "description",
                    Data::text(
                        "The complete task, self-contained: include every name, id, timeframe, and constraint the planner needs (it cannot see the conversation).",
                    ),
                ),
            ),
        ),
        output_schema: None,
        output_example: None,
        read_only: None,
    }
}

/// The agent's catalog: the base tools, the plans, the planner.
pub open spec fn toolbox(base: Seq<ToolDefView>, plans: Seq<PlanDocView>) -> Seq<ToolDefView> {
    with_plans(base, plans).push(planner_tool())
}

/// The agent's catalog.
pub fn toolbox_tools(base: Vec<ToolDef>, plans: &Vec<PlanDoc>) -> (r: Vec<ToolDef>)
    ensures
        tools_view(r@) == toolbox(tools_view(base@), docs_view(plans@)),
{
    let mut all = add_plans(base, plans);
    let ghost before = tools_view(all@);
    let planner = plan_and_execute_def();
    all.push(planner);
    assert(tools_view(all@) =~= before.push(planner@));
    all
}

/// Where a call of the agent goes.
#[derive(Debug, PartialEq)]
pub enum ToolboxRoute {
    Planner,
    /// To the plan at this position.
    Plan(usize),
    /// To the base tools.
    Base,
}

/// The model of a [`ToolboxRoute`].
pub enum ToolboxRouteView {
    Planner,
    Plan(int),
    Base,
}

impl ToolboxRoute {
    pub open spec fn view(&self) -> ToolboxRouteView {
        match self {
            ToolboxRoute::Planner => ToolboxRouteView::Planner,
            ToolboxRoute::Plan(i) => ToolboxRouteView::Plan(*i as int),
            ToolboxRoute::Base => ToolboxRouteView::Base,
        }
    }
}

/// Where a call goes: a plan's name that no plan has is left to the base tools.
pub open spec fn toolbox_route(name: Seq<char>, plans: Seq<PlanDocView>) -> ToolboxRouteView {
    if name == PLAN_AND_EXECUTE@ {
        ToolboxRouteView::Planner
    } else if begins(name, PLAN_TOOL_PREFIX@) {
        match doc_at(plans, name.skip(PLAN_TOOL_PREFIX@.len() as int), 0) {
            Some(i) => ToolboxRouteView::Plan(i),
            None => ToolboxRouteView::Base,
        }
    } else {
        ToolboxRouteView::Base
    }
}

/// Where a call goes.
pub fn route_call(name: &str, plans: &Vec<PlanDoc>) -> (r: ToolboxRoute)
    ensures
        r@ == toolbox_route(name@, docs_view(plans@)),
        r matches ToolboxRoute::Plan(i) ==> i < plans@.len(),
{
    if same_text(name, PLAN_AND_EXECUTE) {
        return ToolboxRoute::Planner;
    }
    if starts_with(name, PLAN_TOOL_PREFIX) {
        let chars = chars_of(name);
        proof {
            reveal_strlit("plan__");
        }
        let identifier = slice_text(&chars, 6, chars.len());
        assert(identifier@ =~= name@.skip(6));
        if let Some(i) = find_doc(plans, identifier.as_str()) {
            return ToolboxRoute::Plan(i);
        }
    }
    ToolboxRoute::Base
}

// ── The planner as a tool ────────────────────────────────────────────────

/// Begins a call of the planner: the query to plan for. A call without one
/// cannot be made at all.
pub fn begin_planner_tool(input: &Data) -> (r: Result<String, ToolError>)
    ensures
        match (query_in(input@), r) {
            (Some(query), Ok(text)) => text@ == query,
            (None, Err(e)) => e@ == ToolErrorView::Transport(
                "plan_and_execute requires a 'query' string"@,
            ),
            _ => false,
        },
{
    match find_query(input) {
        Some(query) => Ok(query),
        None => Err(ToolError::Transport("plan_and_execute requires a 'query' string".to_owned())),
    }
}

/// What the agent is told of a planned run.
pub open spec fn planner_told(
    run: Result<PipelineOutcomeView, PipelineErrorView>,
) -> ToolOutcomeView {
    match run {
        Ok(outcome) => ToolOutcomeView {
            result: Json::Object(
                object(
                    seq![
                        ("answer"@, Json::Text(outcome.answer)),
                        ("degraded"@, Json::Bool(outcome.degraded)),
                        (
                            "steps_executed"@,
                            Json::Num(Num::Int(outcome.state.results.len() as int)),
                        ),
                    ],
                ),
            ),
            is_error: false,
        },
        Err(e) => ToolOutcomeView { result: error_json(pipeline_error_text(e)), is_error: true },
    }
}

/// Ends a call of the planner with what its run made.
pub fn end_planner_tool(run: Result<PipelineOutcome, PipelineError>) -> (r: ToolOutcome)
    ensures
        r@ == planner_told(outcome_view(run)),
{
    match run {
        Ok(outcome) => {
            let steps: usize = outcome.state.results.len();
            ToolOutcome {
                result: obj3(
                    "answer",
                    Data::Text(outcome.answer),
                    "degraded",
                    Data::Bool(outcome.degraded),
                    "steps_executed",
                    Data::count(steps),
                ),
                is_error: false,
            }
        },
        Err(e) => ToolOutcome { result: error_data(e.message().as_str()), is_error: true },
    }
}

// ── A plan as a tool ─────────────────────────────────────────────────────

/// How a call of a plan begins: with the query of its run, or the refusal of an
/// input that does not conform to the plan's schema, which the agent can act on
/// (ask the user, call again with complete arguments).
pub open spec fn plan_tool_start(doc: PlanDocView, input: Json) -> Result<
    Seq<char>,
    ToolOutcomeView,
> {
    let problems = plan_input_problems(doc, input);
    if problems.len() > 0 {
        Err(ToolOutcomeView { result: input_refusal(doc, problems), is_error: true })
    } else {
        Ok(plan_query(doc))
    }
}

/// Begins a call of a plan.
pub fn begin_plan_tool(doc: &PlanDoc, input: &Data) -> (r: Result<String, ToolOutcome>)
    ensures
        match (r, plan_tool_start(doc@, input@)) {
            (Ok(query), Ok(expected)) => query@ == expected,
            (Err(outcome), Err(expected)) => outcome@ == expected,
            _ => false,
        },
{
    if let Err(problems) = validate_input(doc, input) {
        return Err(ToolOutcome { result: refuse_input(doc, &problems), is_error: true });
    }
    Ok(cat3("Run the '", doc.name.as_str(), "' plan"))
}

/// What the agent is told of a plan's run.
pub open spec fn plan_told(
    identifier: Seq<char>,
    run: Result<PipelineOutcomeView, PipelineErrorView>,
) -> ToolOutcomeView {
    match run {
        Ok(outcome) => ToolOutcomeView {
            result: Json::Object(object(seq![("answer"@, Json::Text(outcome.answer))])),
            is_error: false,
        },
        Err(PipelineErrorView::StepFailed { step, tool, message }) => ToolOutcomeView {
            result: error_json(
                "plan '"@ + identifier + "' failed at step "@ + step + " ("@ + tool + "): "@
                    + message,
            ),
            is_error: true,
        },
        Err(e) => ToolOutcomeView { result: error_json(pipeline_error_text(e)), is_error: true },
    }
}

/// Ends a call of a plan with what its run made.
pub fn end_plan_tool(identifier: &str, run: Result<PipelineOutcome, PipelineError>) -> (r:
    ToolOutcome)
    ensures
        r@ == plan_told(identifier@, outcome_view(run)),
{
    match run {
        Ok(outcome) => ToolOutcome {
            result: obj1("answer", Data::Text(outcome.answer)),
            is_error: false,
        },
        Err(PipelineError::StepFailed { step, tool, message }) => {
            let head = cat7(
                "plan '",
                identifier,
                "' failed at step ",
                step.as_str(),
                " (",
                tool.as_str(),
                "): ",
            );
            ToolOutcome {
                result: error_data(cat2(head.as_str(), message.as_str()).as_str()),
                is_error: true,
            }
        },
        Err(e) => ToolOutcome { result: error_data(e.message().as_str()), is_error: true },
    }
}

} // verus!
