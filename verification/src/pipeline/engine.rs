//! The execution engine's decisions: which step is next, how a tool call is
//! routed, gated and reported, and what each outcome does to the run.
//!
//! Nothing here performs a call. A driver performs what these functions ask
//! for (consult a gate, invoke a tool, run a control step) and hands back
//! what came of it.

use crate::json::{compact, compact_text};
use crate::pipeline::exit::{eval_view, exit_json, ExitEval, ExitEvalView, PlanExit, PlanExitView};
use crate::pipeline::gate::{ErrorDecision, ErrorDecisionView, GateDecision, GateDecisionView};
use crate::pipeline::plan::StepView;
use crate::pipeline::record::data_view;
use crate::pipeline::state::{
    has_run, pending_from, BusEntryView, BusKind, RunState, RunStateView,
};
use crate::template::{
    render::rendered_input, render_input, render_message, RenderError, RenderErrorView, Roots,
};
use crate::text::{begins, chars_of, same_text, shorten, shortened, slice_text, starts_with};
use crate::tools::{tool_error_text, ToolError, ToolErrorView, ToolOutcome, ToolOutcomeView};
use crate::value::{obj1, obj2, object, put, Data, Entries, Json};
use vstd::prelude::*;

verus! {

// ── How a run ends ───────────────────────────────────────────────────────

/// How the execution of a plan ends.
#[derive(Debug)]
pub enum ExecutionEnd {
    Completed,
    /// An `exit` step ended the plan.
    Exited(PlanExit),
    /// Plan defect or tool failure (replan-eligible in planned mode).
    Failed { step: String, tool: String, message: String },
    /// Data legitimately ran out: solve with what we have.
    Empty { step: String, message: String },
    /// An execution gate ended the run: hard stop, never replans. Carries the
    /// failing tool's error when the abort came from a failed call.
    Aborted { step: String, error: Option<Data> },
}

/// The model of an [`ExecutionEnd`].
pub enum ExecutionEndView {
    Completed,
    Exited(PlanExitView),
    Failed { step: Seq<char>, tool: Seq<char>, message: Seq<char> },
    Empty { step: Seq<char>, message: Seq<char> },
    Aborted { step: Seq<char>, error: Option<Json> },
}

impl ExecutionEnd {
    pub open spec fn view(&self) -> ExecutionEndView {
        match self {
            ExecutionEnd::Completed => ExecutionEndView::Completed,
            ExecutionEnd::Exited(e) => ExecutionEndView::Exited(e@),
            ExecutionEnd::Failed { step, tool, message } => ExecutionEndView::Failed {
                step: step@,
                tool: tool@,
                message: message@,
            },
            ExecutionEnd::Empty { step, message } => ExecutionEndView::Empty {
                step: step@,
                message: message@,
            },
            ExecutionEnd::Aborted { step, error } => ExecutionEndView::Aborted {
                step: step@,
                error: data_view(*error),
            },
        }
    }
}

pub open spec fn end_view(o: Option<ExecutionEnd>) -> Option<ExecutionEndView> {
    match o {
        Some(e) => Some(e@),
        None => None,
    }
}

/// What a control step makes: a value, or the run's end.
pub open spec fn run_view(r: Result<Data, ExecutionEnd>) -> Result<Json, ExecutionEndView> {
    match r {
        Ok(v) => Ok(v@),
        Err(e) => Err(e@),
    }
}

/// How a step ends whose templates do not render: data that ran out degrades,
/// anything else is a defect.
pub open spec fn render_end(
    e: RenderErrorView,
    step: Seq<char>,
    tool: Seq<char>,
) -> ExecutionEndView {
    match e {
        RenderErrorView::EmptyData { .. } => ExecutionEndView::Empty {
            step,
            message: render_message(e),
        },
        _ => ExecutionEndView::Failed { step, tool, message: render_message(e) },
    }
}

/// How a step ends whose templates do not render.
pub fn end_of_render(e: &RenderError, step: &str, tool: &str) -> (r: ExecutionEnd)
    ensures
        r@ == render_end(e@, step@, tool@),
{
    match e {
        RenderError::EmptyData { .. } => ExecutionEnd::Empty {
            step: step.to_owned(),
            message: e.message(),
        },
        _ => ExecutionEnd::Failed {
            step: step.to_owned(),
            tool: tool.to_owned(),
            message: e.message(),
        },
    }
}

/// A step's failure.
pub fn failed(step: &str, tool: &str, message: String) -> (r: ExecutionEnd)
    ensures
        r@ == (ExecutionEndView::Failed { step: step@, tool: tool@, message: message@ }),
{
    ExecutionEnd::Failed { step: step.to_owned(), tool: tool.to_owned(), message }
}

// ── Dispatching a tool call ──────────────────────────────────────────────

/// How a dispatched tool call failed.
#[derive(Debug)]
pub enum DispatchError {
    /// Tool failure: the (truncated) failure message.
    Failed(String),
    /// A gate aborted the run, with the failing tool's error where one
    /// caused it.
    Aborted { error: Option<Data> },
}

/// The model of a [`DispatchError`].
pub enum DispatchErrorView {
    Failed(Seq<char>),
    Aborted(Option<Json>),
}

impl DispatchError {
    pub open spec fn view(&self) -> DispatchErrorView {
        match self {
            DispatchError::Failed(m) => DispatchErrorView::Failed(m@),
            DispatchError::Aborted { error } => DispatchErrorView::Aborted(data_view(*error)),
        }
    }
}

/// What a dispatched call makes: a value, or a failure.
pub open spec fn call_view(r: Result<Data, DispatchError>) -> Result<Json, DispatchErrorView> {
    match r {
        Ok(v) => Ok(v@),
        Err(e) => Err(e@),
    }
}

/// Where a tool call goes.
#[derive(Debug, PartialEq)]
pub enum Route {
    /// To the plan of this identifier.
    Plan(String),
    /// To the free-form planner.
    Planner,
    /// To the tool registry.
    Registry,
}

/// The model of a [`Route`].
pub enum RouteView {
    Plan(Seq<char>),
    Planner,
    Registry,
}

impl Route {
    pub open spec fn view(&self) -> RouteView {
        match self {
            Route::Plan(id) => RouteView::Plan(id@),
            Route::Planner => RouteView::Planner,
            Route::Registry => RouteView::Registry,
        }
    }
}

/// Where a call of a tool goes.
pub open spec fn route_of(tool: Seq<char>) -> RouteView {
    if begins(tool, "plan__"@) {
        RouteView::Plan(tool.skip("plan__"@.len() as int))
    } else if tool == "plan_and_execute"@ {
        RouteView::Planner
    } else {
        RouteView::Registry
    }
}

/// Where a call of a tool goes.
pub fn route(tool: &str) -> (r: Route)
    ensures
        r@ == route_of(tool@),
{
    if starts_with(tool, "plan__") {
        let chars = chars_of(tool);
        proof {
            reveal_strlit("plan__");
        }
        let id = slice_text(&chars, 6, chars.len());
        assert(id@ =~= tool@.skip(6));
        Route::Plan(id)
    } else if same_text(tool, "plan_and_execute") {
        Route::Planner
    } else {
        Route::Registry
    }
}

/// Something that happened, for those who follow a run.
#[derive(Debug)]
pub enum Report {
    StepStarted { input: Data },
    ToolStarted { input: Data },
    ToolFinished { is_error: bool },
    StepFinished { result: Data, is_error: bool },
}

/// The model of a [`Report`].
pub enum ReportView {
    StepStarted(Json),
    ToolStarted(Json),
    ToolFinished(bool),
    StepFinished(Json, bool),
}

impl Report {
    pub open spec fn view(&self) -> ReportView {
        match self {
            Report::StepStarted { input } => ReportView::StepStarted(input@),
            Report::ToolStarted { input } => ReportView::ToolStarted(input@),
            Report::ToolFinished { is_error } => ReportView::ToolFinished(*is_error),
            Report::StepFinished { result, is_error } => ReportView::StepFinished(
                result@,
                *is_error,
            ),
        }
    }
}

pub open spec fn reports_view(s: Seq<Report>) -> Seq<ReportView> {
    Seq::new(s.len(), |i: int| s[i]@)
}

/// What a dispatch does next.
#[derive(Debug)]
pub enum DispatchMove {
    /// Ask a gate before the call.
    ConsultGate,
    /// Make the call.
    Invoke(Route),
    /// Ask a gate about a failed call.
    ConsultErrorGate { error: Data },
    /// The dispatch is over.
    Done(Result<Data, DispatchError>),
}

/// One stage of a dispatch: what to report, then what to do.
#[derive(Debug)]
pub struct DispatchStep {
    pub reports: Vec<Report>,
    pub next: DispatchMove,
}

/// The model of a [`DispatchMove`].
pub enum DispatchMoveView {
    ConsultGate,
    Invoke(RouteView),
    ConsultErrorGate(Json),
    Done(Result<Json, DispatchErrorView>),
}

/// The model of a [`DispatchStep`].
pub struct DispatchStepView {
    pub reports: Seq<ReportView>,
    pub next: DispatchMoveView,
}

impl DispatchMove {
    pub open spec fn view(&self) -> DispatchMoveView {
        match self {
            DispatchMove::ConsultGate => DispatchMoveView::ConsultGate,
            DispatchMove::Invoke(route) => DispatchMoveView::Invoke(route@),
            DispatchMove::ConsultErrorGate { error } => DispatchMoveView::ConsultErrorGate(error@),
            DispatchMove::Done(r) => DispatchMoveView::Done(call_view(*r)),
        }
    }
}

impl DispatchStep {
    pub open spec fn view(&self) -> DispatchStepView {
        DispatchStepView { reports: reports_view(self.reports@), next: self.next@ }
    }
}

/// What came back from a call: a tool's result, or the word that a nested run
/// was aborted.
#[derive(Debug)]
pub struct CallOutcome {
    pub result: Data,
    pub is_error: bool,
    pub aborted: bool,
}

/// The model of a [`CallOutcome`].
pub struct CallOutcomeView {
    pub result: Json,
    pub is_error: bool,
    pub aborted: bool,
}

impl CallOutcome {
    pub open spec fn view(&self) -> CallOutcomeView {
        CallOutcomeView { result: self.result@, is_error: self.is_error, aborted: self.aborted }
    }
}

/// An error as a value.
pub open spec fn error_json(message: Seq<char>) -> Json {
    Json::Object(object(seq![("error"@, Json::Text(message))]))
}

/// An error as a value.
pub fn error_data(message: &str) -> (r: Data)
    ensures
        r@ == error_json(message@),
{
    obj1("error", Data::text(message))
}

/// What a registry's answer is as the outcome of a call.
pub open spec fn registry_outcome(
    answer: Result<ToolOutcomeView, ToolErrorView>,
) -> CallOutcomeView {
    match answer {
        Ok(o) => CallOutcomeView { result: o.result, is_error: o.is_error, aborted: false },
        Err(e) => CallOutcomeView {
            result: error_json(tool_error_text(e)),
            is_error: true,
            aborted: false,
        },
    }
}

pub open spec fn answer_view(r: Result<ToolOutcome, ToolError>) -> Result<
    ToolOutcomeView,
    ToolErrorView,
> {
    match r {
        Ok(o) => Ok(o@),
        Err(e) => Err(e@),
    }
}

/// What a registry's answer is as the outcome of a call: a tool that cannot be
/// invoked is a failed call.
pub fn outcome_of_registry(answer: Result<ToolOutcome, ToolError>) -> (r: CallOutcome)
    ensures
        r@ == registry_outcome(answer_view(answer)),
{
    match answer {
        Ok(o) => CallOutcome { result: o.result, is_error: o.is_error, aborted: false },
        Err(e) => CallOutcome {
            result: error_data(e.message().as_str()),
            is_error: true,
            aborted: false,
        },
    }
}

/// How much of a failed call's result its message carries.
pub const MAX_FAILURE_CHARS: usize = 2000;

/// The message of a failed call.
pub open spec fn failure_text(result: Json) -> Seq<char> {
    shortened(compact_text(result), MAX_FAILURE_CHARS as int)
}

/// The stage that makes the call.
pub open spec fn invoking(tool: Seq<char>, rendered: Json) -> DispatchStepView {
    DispatchStepView {
        reports: seq![ReportView::StepStarted(rendered), ReportView::ToolStarted(rendered)],
        next: DispatchMoveView::Invoke(route_of(tool)),
    }
}

/// How a dispatch begins: a gate is asked first.
pub open spec fn dispatch_begin(gated: bool, tool: Seq<char>, rendered: Json) -> DispatchStepView {
    if gated {
        DispatchStepView { reports: Seq::empty(), next: DispatchMoveView::ConsultGate }
    } else {
        invoking(tool, rendered)
    }
}

/// How a dispatch goes on from a gate's decision. A skipped call makes no
/// tool call and so no tool reports, but the step has a value.
pub open spec fn dispatch_gated(
    decision: GateDecisionView,
    tool: Seq<char>,
    rendered: Json,
) -> DispatchStepView {
    match decision {
        GateDecisionView::Proceed => invoking(tool, rendered),
        GateDecisionView::Skip(result) => DispatchStepView {
            reports: seq![ReportView::StepFinished(result, false)],
            next: DispatchMoveView::Done(Ok(result)),
        },
        GateDecisionView::Abort => DispatchStepView {
            reports: Seq::empty(),
            next: DispatchMoveView::Done(Err(DispatchErrorView::Aborted(None))),
        },
    }
}

/// How a dispatch goes on from what the call returned. A nested abort is
/// already a gate's decision and is never asked about again.
pub open spec fn dispatch_called(gated: bool, outcome: CallOutcomeView) -> DispatchStepView {
    if outcome.aborted {
        DispatchStepView {
            reports: Seq::empty(),
            next: DispatchMoveView::Done(Err(DispatchErrorView::Aborted(None))),
        }
    } else if !outcome.is_error {
        DispatchStepView {
            reports: seq![
                ReportView::ToolFinished(false),
                ReportView::StepFinished(outcome.result, false),
            ],
            next: DispatchMoveView::Done(Ok(outcome.result)),
        }
    } else if gated {
        DispatchStepView {
            reports: seq![ReportView::ToolFinished(true)],
            next: DispatchMoveView::ConsultErrorGate(outcome.result),
        }
    } else {
        DispatchStepView {
            reports: seq![
                ReportView::ToolFinished(true),
                ReportView::StepFinished(outcome.result, true),
            ],
            next: DispatchMoveView::Done(
                Err(DispatchErrorView::Failed(failure_text(outcome.result))),
            ),
        }
    }
}

/// How a dispatch ends once a gate resolved a failed call.
pub open spec fn dispatch_resolved(decision: ErrorDecisionView, error: Json) -> DispatchStepView {
    match decision {
        ErrorDecisionView::Fail => DispatchStepView {
            reports: seq![ReportView::StepFinished(error, true)],
            next: DispatchMoveView::Done(Err(DispatchErrorView::Failed(failure_text(error)))),
        },
        ErrorDecisionView::Replace(result) => DispatchStepView {
            reports: seq![ReportView::StepFinished(result, false)],
            next: DispatchMoveView::Done(Ok(result)),
        },
        ErrorDecisionView::Abort => DispatchStepView {
            reports: seq![ReportView::StepFinished(error, true)],
            next: DispatchMoveView::Done(Err(DispatchErrorView::Aborted(Some(error)))),
        },
    }
}

fn invoke_step(tool: &str, rendered: &Data) -> (r: DispatchStep)
    ensures
        r@ == invoking(tool@, rendered@),
{
    let reports = vec![
        Report::StepStarted { input: rendered.copy() },
        Report::ToolStarted { input: rendered.copy() },
    ];
    assert(reports_view(reports@) =~= invoking(tool@, rendered@).reports);
    DispatchStep { reports, next: DispatchMove::Invoke(route(tool)) }
}

fn over(reports: Vec<Report>, result: Result<Data, DispatchError>) -> (r: DispatchStep)
    ensures
        r@ == (DispatchStepView {
            reports: reports_view(reports@),
            next: DispatchMoveView::Done(call_view(result)),
        }),
{
    DispatchStep { reports, next: DispatchMove::Done(result) }
}

/// Begins the dispatch of one rendered tool call: a `plan__*` step,
/// `plan_and_execute`, or a registry tool. Every real tool call at any depth
/// goes this way.
pub fn begin_dispatch(gated: bool, tool: &str, rendered: &Data) -> (r: DispatchStep)
    ensures
        r@ == dispatch_begin(gated, tool@, rendered@),
{
    if gated {
        let reports: Vec<Report> = Vec::new();
        assert(reports_view(reports@) =~= Seq::<ReportView>::empty());
        DispatchStep { reports, next: DispatchMove::ConsultGate }
    } else {
        invoke_step(tool, rendered)
    }
}

/// Goes on from a gate's decision.
pub fn after_gate(decision: GateDecision, tool: &str, rendered: &Data) -> (r: DispatchStep)
    ensures
        r@ == dispatch_gated(decision@, tool@, rendered@),
{
    match decision {
        GateDecision::Proceed => invoke_step(tool, rendered),
        GateDecision::Skip { result } => {
            let reports = vec![Report::StepFinished { result: result.copy(), is_error: false }];
            assert(reports_view(reports@) =~= seq![ReportView::StepFinished(result@, false)]);
            over(reports, Ok(result))
        },
        GateDecision::Abort => {
            let reports: Vec<Report> = Vec::new();
            assert(reports_view(reports@) =~= Seq::<ReportView>::empty());
            over(reports, Err(DispatchError::Aborted { error: None }))
        },
    }
}

/// Goes on from what the call returned.
pub fn after_call(gated: bool, outcome: CallOutcome) -> (r: DispatchStep)
    ensures
        r@ == dispatch_called(gated, outcome@),
{
    if outcome.aborted {
        let reports: Vec<Report> = Vec::new();
        assert(reports_view(reports@) =~= Seq::<ReportView>::empty());
        return over(reports, Err(DispatchError::Aborted { error: None }));
    }
    if !outcome.is_error {
        let reports = vec![
            Report::ToolFinished { is_error: false },
            Report::StepFinished { result: outcome.result.copy(), is_error: false },
        ];
        assert(reports_view(reports@) =~= dispatch_called(gated, outcome@).reports);
        return over(reports, Ok(outcome.result));
    }
    if gated {
        let reports = vec![Report::ToolFinished { is_error: true }];
        assert(reports_view(reports@) =~= dispatch_called(gated, outcome@).reports);
        return DispatchStep {
            reports,
            next: DispatchMove::ConsultErrorGate { error: outcome.result },
        };
    }
    let message = shorten(compact(&outcome.result).as_str(), MAX_FAILURE_CHARS);
    let reports = vec![
        Report::ToolFinished { is_error: true },
        Report::StepFinished { result: outcome.result.copy(), is_error: true },
    ];
    assert(reports_view(reports@) =~= dispatch_called(gated, outcome@).reports);
    over(reports, Err(DispatchError::Failed(message)))
}

/// Ends a dispatch once a gate resolved a failed call.
pub fn after_error_gate(decision: ErrorDecision, error: Data) -> (r: DispatchStep)
    ensures
        r@ == dispatch_resolved(decision@, error@),
{
    match decision {
        ErrorDecision::Fail => {
            let message = shorten(compact(&error).as_str(), MAX_FAILURE_CHARS);
            let reports = vec![Report::StepFinished { result: error.copy(), is_error: true }];
            assert(reports_view(reports@) =~= seq![ReportView::StepFinished(error@, true)]);
            over(reports, Err(DispatchError::Failed(message)))
        },
        ErrorDecision::Replace { result } => {
            let reports = vec![Report::StepFinished { result: result.copy(), is_error: false }];
            assert(reports_view(reports@) =~= seq![ReportView::StepFinished(result@, false)]);
            over(reports, Ok(result))
        },
        ErrorDecision::Abort => {
            let reports = vec![Report::StepFinished { result: error.copy(), is_error: true }];
            assert(reports_view(reports@) =~= seq![ReportView::StepFinished(error@, true)]);
            over(reports, Err(DispatchError::Aborted { error: Some(error) }))
        },
    }
}

// ── Executing a plan ─────────────────────────────────────────────────────

/// Whether a tool is a control step that renders its own input: only its gate
/// or list renders up front, and bodies render lazily.
pub open spec fn renders_itself(tool: Seq<char>) -> bool {
    tool == "agent"@ || tool == "ask"@ || tool == "decide"@ || tool == "filter"@ || tool == "map"@
        || tool == "reduce"@
}

/// Whether a name is that of a control step: one the executor intercepts and
/// never dispatches.
pub open spec fn is_control(tool: Seq<char>) -> bool {
    tool == "exit"@ || renders_itself(tool)
}

/// Whether a tool is a control step that renders its own input.
pub fn is_self_rendering(tool: &str) -> (r: bool)
    ensures
        r == renders_itself(tool@),
{
    same_text(tool, "agent") || same_text(tool, "ask") || same_text(tool, "decide") || same_text(
        tool,
        "filter",
    ) || same_text(tool, "map") || same_text(tool, "reduce")
}

/// Whether a name is that of a control step.
pub fn is_control_step(tool: &str) -> (r: bool)
    ensures
        r == is_control(tool@),
{
    same_text(tool, "exit") || is_self_rendering(tool)
}

/// What the execution of a plan does next, with the position of the step.
#[derive(Debug)]
pub enum Move {
    /// Nothing is pending.
    Completed,
    /// Run the control step on its raw input.
    Control { index: usize },
    /// Evaluate the exit step on its rendered input.
    Exit { index: usize, rendered: Data },
    /// Dispatch the tool call with its rendered input.
    Call { index: usize, rendered: Data },
    /// The run ends.
    End(ExecutionEnd),
}

/// The model of a [`Move`].
pub enum MoveView {
    Completed,
    Control(int),
    Exit(int, Json),
    Call(int, Json),
    End(ExecutionEndView),
}

impl Move {
    pub open spec fn view(&self) -> MoveView {
        match self {
            Move::Completed => MoveView::Completed,
            Move::Control { index } => MoveView::Control(*index as int),
            Move::Exit { index, rendered } => MoveView::Exit(*index as int, rendered@),
            Move::Call { index, rendered } => MoveView::Call(*index as int, rendered@),
            Move::End(end) => MoveView::End(end@),
        }
    }
}

/// What to do about a pending step.
pub open spec fn step_move(step: StepView, i: int, results: Entries) -> MoveView {
    if renders_itself(step.tool_name) {
        MoveView::Control(i)
    } else {
        match rendered_input(results, Json::Object(step.input)) {
            Err(e) => MoveView::End(render_end(e, step.id, step.tool_name)),
            Ok(rendered) => if step.tool_name == "exit"@ {
                MoveView::Exit(i, rendered)
            } else {
                MoveView::Call(i, rendered)
            },
        }
    }
}

/// What the execution of a plan does next: the first step without a result is
/// run.
pub open spec fn next_move(s: RunStateView) -> MoveView {
    match pending_from(s.plan, s.results, 0) {
        None => MoveView::Completed,
        Some(i) => step_move(s.plan[i], i, s.results),
    }
}

/// Decides what the execution of a plan does next.
pub fn choose_move(state: &RunState) -> (r: Move)
    ensures
        r@ == next_move(state@),
        match r {
            Move::Control { index } => index < state.plan@.len(),
            Move::Exit { index, .. } => index < state.plan@.len(),
            Move::Call { index, .. } => index < state.plan@.len(),
            _ => true,
        },
{
    let index = match state.next_pending() {
        Some(index) => index,
        None => {
            return Move::Completed;
        },
    };
    let step = &state.plan[index];
    assert(state@.plan[index as int] == step@);
    if is_self_rendering(step.tool_name.as_str()) {
        return Move::Control { index };
    }
    let input = Data::Object(step.input.copy());
    match render_input(&input, &Roots::new(&state.results)) {
        Err(e) => Move::End(end_of_render(&e, step.id.as_str(), step.tool_name.as_str())),
        Ok(rendered) => if same_text(step.tool_name.as_str(), "exit") {
            Move::Exit { index, rendered }
        } else {
            Move::Call { index, rendered }
        },
    }
}

/// A run with a step's result.
pub open spec fn with_result(s: RunStateView, id: Seq<char>, value: Json) -> RunStateView {
    RunStateView { results: put(s.results, id, value), ..s }
}

/// A run with a note on its bus.
pub open spec fn with_note(
    s: RunStateView,
    source: Seq<char>,
    kind: BusKind,
    content: Seq<char>,
) -> RunStateView {
    RunStateView { bus: s.bus.push(BusEntryView { source, kind, content }), ..s }
}

/// What a control step's outcome does to the run: a value is the step's
/// result, anything else is the end.
pub open spec fn control_recorded(s: RunStateView, id: Seq<char>, run: Result<
    Json,
    ExecutionEndView,
>) -> (RunStateView, Option<ExecutionEndView>) {
    match run {
        Ok(result) => (with_result(s, id, result), None),
        Err(end) => (s, Some(end)),
    }
}

/// What an exit step's outcome does to the run.
pub open spec fn exit_recorded(s: RunStateView, id: Seq<char>, eval: Result<
    ExitEvalView,
    Seq<char>,
>) -> (RunStateView, Option<ExecutionEndView>) {
    match eval {
        Ok(ExitEvalView::Passed(result)) => (
            with_note(with_result(s, id, result), id, BusKind::Info, "gate passed"@),
            None,
        ),
        Ok(ExitEvalView::Exited(exit)) => (s, Some(ExecutionEndView::Exited(exit))),
        Err(message) => (
            s,
            Some(ExecutionEndView::Failed { step: id, tool: "exit"@, message }),
        ),
    }
}

/// What a tool call's outcome does to the run.
pub open spec fn call_recorded(
    s: RunStateView,
    id: Seq<char>,
    tool: Seq<char>,
    outcome: Result<Json, DispatchErrorView>,
) -> (RunStateView, Option<ExecutionEndView>) {
    match outcome {
        Ok(result) => (with_note(with_result(s, id, result), id, BusKind::Info, "ok"@), None),
        Err(DispatchErrorView::Aborted(error)) => (
            s,
            Some(ExecutionEndView::Aborted { step: id, error }),
        ),
        Err(DispatchErrorView::Failed(message)) => (
            s,
            Some(ExecutionEndView::Failed { step: id, tool, message }),
        ),
    }
}

/// Records a control step's outcome; what comes back ends the run.
pub fn record_control(state: &mut RunState, index: usize, run: Result<Data, ExecutionEnd>) -> (r:
    Option<ExecutionEnd>)
    requires
        index < old(state).plan@.len(),
    ensures
        (final(state)@, end_view(r)) == control_recorded(
            old(state)@,
            old(state)@.plan[index as int].id,
            run_view(run),
        ),
{
    match run {
        Ok(result) => {
            let id = state.plan[index].id.clone();
            state.results.insert(id, result);
            None
        },
        Err(end) => Some(end),
    }
}

/// Records an exit step's outcome; what comes back ends the run.
pub fn record_exit(state: &mut RunState, index: usize, eval: Result<ExitEval, String>) -> (r:
    Option<ExecutionEnd>)
    requires
        index < old(state).plan@.len(),
    ensures
        (final(state)@, end_view(r)) == exit_recorded(
            old(state)@,
            old(state)@.plan[index as int].id,
            eval_view(eval),
        ),
{
    let id = state.plan[index].id.clone();
    match eval {
        Ok(ExitEval::Passed(result)) => {
            state.results.insert(id.clone(), result);
            state.push_bus(id.as_str(), BusKind::Info, "gate passed");
            None
        },
        Ok(ExitEval::Exited(exit)) => Some(ExecutionEnd::Exited(exit)),
        Err(message) => Some(failed(id.as_str(), "exit", message)),
    }
}

/// Records a tool call's outcome; what comes back ends the run.
pub fn record_call(
    state: &mut RunState,
    index: usize,
    outcome: Result<Data, DispatchError>,
) -> (r: Option<ExecutionEnd>)
    requires
        index < old(state).plan@.len(),
    ensures
        (final(state)@, end_view(r)) == call_recorded(
            old(state)@,
            old(state)@.plan[index as int].id,
            old(state)@.plan[index as int].tool_name,
            call_view(outcome),
        ),
{
    let id = state.plan[index].id.clone();
    match outcome {
        Ok(result) => {
            state.results.insert(id.clone(), result);
            state.push_bus(id.as_str(), BusKind::Info, "ok");
            None
        },
        Err(DispatchError::Aborted { error }) => Some(ExecutionEnd::Aborted { step: id, error }),
        Err(DispatchError::Failed(message)) => Some(
            failed(id.as_str(), state.plan[index].tool_name.as_str(), message),
        ),
    }
}

/// What is reported of a finished control step, and whether it is an error.
/// Nothing is reported of a run that exits or is aborted inside it.
pub open spec fn control_report(run: Result<Json, ExecutionEndView>) -> Option<(Json, bool)> {
    match run {
        Ok(result) => Some((result, false)),
        Err(ExecutionEndView::Failed { message, .. }) => Some((error_json(message), true)),
        Err(ExecutionEndView::Empty { message, .. }) => Some(
            (
                Json::Object(
                    object(
                        seq![("error"@, Json::Text(message)), ("emptyData"@, Json::Bool(true))],
                    ),
                ),
                true,
            ),
        ),
        Err(_) => None,
    }
}

pub open spec fn report_view(o: Option<(Data, bool)>) -> Option<(Json, bool)> {
    match o {
        Some((v, b)) => Some((v@, b)),
        None => None,
    }
}

/// What is reported of a finished control step.
pub fn report_control(run: &Result<Data, ExecutionEnd>) -> (r: Option<(Data, bool)>)
    ensures
        report_view(r) == control_report(run_view(*run)),
{
    match run {
        Ok(result) => Some((result.copy(), false)),
        Err(ExecutionEnd::Failed { message, .. }) => Some((error_data(message.as_str()), true)),
        Err(ExecutionEnd::Empty { message, .. }) => Some(
            (
                obj2("error", Data::Text(message.clone()), "emptyData", Data::Bool(true)),
                true,
            ),
        ),
        Err(_) => None,
    }
}

/// What is reported of an evaluated exit step, and whether it is an error.
pub open spec fn exit_report(eval: Result<ExitEvalView, Seq<char>>) -> (Json, bool) {
    match eval {
        Ok(ExitEvalView::Passed(value)) => (value, false),
        Ok(ExitEvalView::Exited(exit)) => (exit_json(exit), false),
        Err(message) => (error_json(message), true),
    }
}

/// What is reported of an evaluated exit step.
pub fn report_exit(eval: &Result<ExitEval, String>) -> (r: (Data, bool))
    ensures
        (r.0@, r.1) == exit_report(eval_view(*eval)),
{
    match eval {
        Ok(ExitEval::Passed(value)) => (value.copy(), false),
        Ok(ExitEval::Exited(exit)) => (exit.to_value(), false),
        Err(message) => (error_data(message.as_str()), true),
    }
}

// ── Laws ─────────────────────────────────────────────────────────────────

/// How many of the steps have no result.
pub open spec fn pending_count(plan: Seq<StepView>, results: Entries) -> nat
    decreases plan.len(),
{
    if plan.len() == 0 {
        0
    } else {
        pending_count(plan.drop_last(), results) + (if has_run(plan.last(), results) {
            0nat
        } else {
            1nat
        })
    }
}

proof fn lemma_result_shrinks_pending(plan: Seq<StepView>, results: Entries, id: Seq<char>, v: Json)
    ensures
        pending_count(plan, put(results, id, v)) <= pending_count(plan, results),
        (exists|i: int| 0 <= i < plan.len() && #[trigger] plan[i].id == id && !has_run(
            plan[i],
            results,
        )) ==> pending_count(plan, put(results, id, v)) < pending_count(plan, results),
    decreases plan.len(),
{
    if plan.len() > 0 {
        crate::value::a_set_key_reads_back(results, id, v, plan.last().id);
        lemma_result_shrinks_pending(plan.drop_last(), results, id, v);
        if exists|i: int| 0 <= i < plan.len() && #[trigger] plan[i].id == id && !has_run(
            plan[i],
            results,
        ) {
            let i = choose|i: int|
                0 <= i < plan.len() && #[trigger] plan[i].id == id && !has_run(plan[i], results);
            if i < plan.len() - 1 {
                assert(plan.drop_last()[i] == plan[i]);
            }
        }
    }
}

proof fn lemma_pending_is_pending(plan: Seq<StepView>, results: Entries, i: int)
    requires
        0 <= i,
        pending_from(plan, results, i) is Some,
    ensures
        i <= pending_from(plan, results, i)->0 < plan.len(),
        !has_run(plan[pending_from(plan, results, i)->0], results),
    decreases plan.len() - i,
{
    if has_run(plan[i], results) {
        lemma_pending_is_pending(plan, results, i + 1);
    }
}

/// Recording the result of the step that was to run leaves fewer steps pending,
/// so a plan is over after at most as many results as it has steps.
pub proof fn every_result_leaves_less_to_do(s: RunStateView, value: Json)
    requires
        pending_from(s.plan, s.results, 0) is Some,
    ensures
        ({
            let id = s.plan[pending_from(s.plan, s.results, 0)->0].id;
            pending_count(s.plan, with_result(s, id, value).results) < pending_count(
                s.plan,
                s.results,
            )
        }),
{
    lemma_pending_is_pending(s.plan, s.results, 0);
    let i = pending_from(s.plan, s.results, 0)->0;
    assert(s.plan[i].id == s.plan[i].id);
    lemma_result_shrinks_pending(s.plan, s.results, s.plan[i].id, value);
}

/// A step with a result is never run again.
pub proof fn a_finished_step_is_never_run_again(s: RunStateView)
    ensures
        match next_move(s) {
            MoveView::Control(i) => !has_run(s.plan[i], s.results),
            MoveView::Exit(i, _) => !has_run(s.plan[i], s.results),
            MoveView::Call(i, _) => !has_run(s.plan[i], s.results),
            _ => true,
        },
{
    if pending_from(s.plan, s.results, 0) is Some {
        lemma_pending_is_pending(s.plan, s.results, 0);
    }
}

/// A control step is never dispatched as a tool call.
pub proof fn a_control_step_is_never_dispatched(s: RunStateView)
    ensures
        match next_move(s) {
            MoveView::Call(i, _) => !is_control(s.plan[i].tool_name),
            _ => true,
        },
{
}

/// Whatever a gate says, a call it skips or aborts is not made.
pub proof fn a_gated_call_is_made_only_when_the_gate_says_so(
    decision: GateDecisionView,
    tool: Seq<char>,
    rendered: Json,
)
    ensures
        dispatch_begin(true, tool, rendered).next is ConsultGate,
        dispatch_gated(decision, tool, rendered).next is Invoke <==> decision is Proceed,
{
}

/// An abort inside a nested run stays an abort: a gate is not asked again,
/// and it never becomes a failure that could be replanned.
pub proof fn a_nested_abort_stays_an_abort(gated: bool, outcome: CallOutcomeView)
    requires
        outcome.aborted,
    ensures
        dispatch_called(gated, outcome).next == DispatchMoveView::Done(
            Err(DispatchErrorView::Aborted(None)),
        ),
{
}

} // verus!
