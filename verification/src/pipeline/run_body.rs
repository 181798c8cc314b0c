//! Running a control step's body: one call, or a list of steps in a scope
//! layered over the plan's results.
//!
//! A body in progress says what is to be done next; a driver does it and hands
//! back what came of it. The plan's results are never touched: a body yields
//! what is to be added to the run's bus and counts, so that bodies can run
//! concurrently against one scope.

use crate::pipeline::body::{nests, Branch, BranchView};
use crate::pipeline::engine::{
    call_view, end_of_render, failed, render_end, DispatchError, DispatchErrorView, ExecutionEnd,
    ExecutionEndView,
};
use crate::pipeline::exit::{eval_view, ExitEval, ExitEvalView, PlanExit, PlanExitView};
use crate::pipeline::gate::{StepPath, StepPathView};
use crate::pipeline::plan::plan_view;
use crate::pipeline::record::data_view;
use crate::pipeline::state::{bus_view, BusEntry, BusEntryView, BusKind, RunState, RunStateView};
use crate::template::{
    render::rendered_input, render_input, render_message, RenderError, RenderErrorView, Roots,
};
use crate::text::{cat3, cat5, cat7, same_text};
use crate::value::{put, Data, Entries, Fields, Json};
use vstd::prelude::*;

verus! {

/// How a control step that runs in a scope ended badly.
#[derive(Debug)]
pub enum StepFail {
    Failed(String),
    /// Data ran out while rendering: degrades, never replans. Keeps the render
    /// error, so that a body can classify it.
    Empty(RenderError),
    /// A gate aborted an inner tool call. Carries the failing tool's error when
    /// the abort came from a failed call.
    Aborted(Option<Data>),
}

/// The model of a [`StepFail`].
pub enum StepFailView {
    Failed(Seq<char>),
    Empty(RenderErrorView),
    Aborted(Option<Json>),
}

impl StepFail {
    pub open spec fn view(&self) -> StepFailView {
        match self {
            StepFail::Failed(m) => StepFailView::Failed(m@),
            StepFail::Empty(e) => StepFailView::Empty(e@),
            StepFail::Aborted(error) => StepFailView::Aborted(data_view(*error)),
        }
    }
}

/// What a rendering failure is in a control step: data that ran out degrades,
/// anything else fails.
pub open spec fn render_fail(e: RenderErrorView) -> StepFailView {
    match e {
        RenderErrorView::EmptyData { .. } => StepFailView::Empty(e),
        _ => StepFailView::Failed(render_message(e)),
    }
}

/// What a rendering failure is in a control step.
pub fn classify(e: RenderError) -> (r: StepFail)
    ensures
        r@ == render_fail(e@),
{
    match e {
        RenderError::EmptyData { .. } => StepFail::Empty(e),
        _ => StepFail::Failed(e.message()),
    }
}

/// How a run ends by the failure of a top-level control step.
pub open spec fn fail_end(
    fail: StepFailView,
    step: Seq<char>,
    tool: Seq<char>,
) -> ExecutionEndView {
    match fail {
        StepFailView::Failed(message) => ExecutionEndView::Failed { step, tool, message },
        StepFailView::Empty(e) => ExecutionEndView::Empty { step, message: render_message(e) },
        StepFailView::Aborted(error) => ExecutionEndView::Aborted { step, error },
    }
}

/// How a run ends by the failure of a top-level control step.
pub fn end_of_fail(fail: StepFail, step: &str, tool: &str) -> (r: ExecutionEnd)
    ensures
        r@ == fail_end(fail@, step@, tool@),
{
    match fail {
        StepFail::Failed(message) => failed(step, tool, message),
        StepFail::Empty(e) => ExecutionEnd::Empty { step: step.to_owned(), message: e.message() },
        StepFail::Aborted(error) => ExecutionEnd::Aborted { step: step.to_owned(), error },
    }
}

// ── What a body comes to ─────────────────────────────────────────────────

/// A completed body run.
#[derive(Debug)]
pub struct BodyRun {
    /// The single call's result, or the last step's value for step lists.
    pub result: Data,
    /// Body steps executed, to be added to the run's.
    pub steps_executed: usize,
    /// Bus entries recorded during the run, to be added to the run's.
    pub bus: Vec<BusEntry>,
}

/// A failed body run, carrying the work done before the failure so callers can
/// keep the accounting honest.
#[derive(Debug)]
pub struct BodyError {
    pub fail: BodyFail,
    pub steps_executed: usize,
    pub bus: Vec<BusEntry>,
}

#[derive(Debug)]
pub enum BodyFail {
    /// Classified by the caller: data that ran out degrades, the rest fail.
    Render(RenderError),
    /// A message naming the body, inner step, and tool.
    Tool(String),
    /// A gate aborted the run: hard stop, never replans.
    Aborted(Option<Data>),
    /// An `exit` step in the body fired. Not a failure: it rides the error
    /// channel so the accounting travels with it.
    Exited(PlanExit),
}

/// The model of a [`BodyRun`].
pub struct BodyRunView {
    pub result: Json,
    pub steps_executed: int,
    pub bus: Seq<BusEntryView>,
}

/// The model of a [`BodyFail`].
pub enum BodyFailView {
    Render(RenderErrorView),
    Tool(Seq<char>),
    Aborted(Option<Json>),
    Exited(PlanExitView),
}

/// The model of a [`BodyError`].
pub struct BodyErrorView {
    pub fail: BodyFailView,
    pub steps_executed: int,
    pub bus: Seq<BusEntryView>,
}

impl BodyRun {
    pub open spec fn view(&self) -> BodyRunView {
        BodyRunView {
            result: self.result@,
            steps_executed: self.steps_executed as int,
            bus: bus_view(self.bus@),
        }
    }
}

impl BodyFail {
    pub open spec fn view(&self) -> BodyFailView {
        match self {
            BodyFail::Render(e) => BodyFailView::Render(e@),
            BodyFail::Tool(m) => BodyFailView::Tool(m@),
            BodyFail::Aborted(error) => BodyFailView::Aborted(data_view(*error)),
            BodyFail::Exited(exit) => BodyFailView::Exited(exit@),
        }
    }
}

impl BodyError {
    pub open spec fn view(&self) -> BodyErrorView {
        BodyErrorView {
            fail: self.fail@,
            steps_executed: self.steps_executed as int,
            bus: bus_view(self.bus@),
        }
    }
}

pub open spec fn body_result(r: Result<BodyRun, BodyError>) -> Result<BodyRunView, BodyErrorView> {
    match r {
        Ok(run) => Ok(run@),
        Err(e) => Err(e@),
    }
}

/// How the failure of a body ends the run, where an exit in it ends the plan.
pub open spec fn branch_end(
    fail: BodyFailView,
    step: Seq<char>,
    tool: Seq<char>,
) -> ExecutionEndView {
    match fail {
        BodyFailView::Render(e) => render_end(e, step, tool),
        BodyFailView::Tool(message) => ExecutionEndView::Failed { step, tool, message },
        BodyFailView::Aborted(error) => ExecutionEndView::Aborted { step, error },
        BodyFailView::Exited(exit) => ExecutionEndView::Exited(exit),
    }
}

/// How the failure of a body ends the run, where an exit in it means nothing.
pub open spec fn loop_end(
    fail: BodyFailView,
    step: Seq<char>,
    tool: Seq<char>,
) -> ExecutionEndView {
    match fail {
        BodyFailView::Exited(_) => ExecutionEndView::Failed {
            step,
            tool,
            message: "`exit` fired inside a "@ + tool + " body — not supported"@,
        },
        other => branch_end(other, step, tool),
    }
}

/// How the failure of a decision's branch ends the run.
pub fn end_of_branch(fail: BodyFail, step: &str, tool: &str) -> (r: ExecutionEnd)
    ensures
        r@ == branch_end(fail@, step@, tool@),
{
    match fail {
        BodyFail::Render(e) => end_of_render(&e, step, tool),
        BodyFail::Tool(message) => failed(step, tool, message),
        BodyFail::Aborted(error) => ExecutionEnd::Aborted { step: step.to_owned(), error },
        BodyFail::Exited(exit) => ExecutionEnd::Exited(exit),
    }
}

/// How the failure of an iteration's body ends the run.
pub fn end_of_loop(fail: BodyFail, step: &str, tool: &str) -> (r: ExecutionEnd)
    ensures
        r@ == loop_end(fail@, step@, tool@),
{
    match fail {
        BodyFail::Exited(_) => failed(
            step,
            tool,
            cat3("`exit` fired inside a ", tool, " body — not supported"),
        ),
        other => end_of_branch(other, step, tool),
    }
}

/// A run with what a body did added to it.
pub open spec fn with_body(s: RunStateView, steps: int, bus: Seq<BusEntryView>) -> RunStateView {
    RunStateView {
        branch_steps_executed: s.branch_steps_executed + steps,
        bus: s.bus + bus,
        ..s
    }
}

/// Adds what a body did to the run.
pub fn add_body(state: &mut RunState, steps: usize, bus: Vec<BusEntry>)
    requires
        old(state).branch_steps_executed + steps <= usize::MAX,
    ensures
        final(state)@ == with_body(old(state)@, steps as int, bus_view(bus@)),
{
    let ghost before = state.bus@;
    let mut added = bus;
    state.branch_steps_executed = state.branch_steps_executed + steps;
    state.bus.append(&mut added);
    assert(bus_view(state.bus@) =~= bus_view(before) + bus_view(bus@));
}

// ── A body in progress ───────────────────────────────────────────────────

/// A body in progress.
#[derive(Debug)]
pub struct BodyWork {
    /// The control step that it belongs to.
    pub step: String,
    /// Where it stands in that step: "then", "do.3".
    pub path: String,
    /// What it is called in messages: "`then` branch", "`do` item 3".
    pub label: String,
    pub branch: Branch,
    /// The plan's results, the pseudo-roots, and the results of the body's
    /// steps so far.
    pub scope: Fields,
    /// How many of the body's calls are done.
    pub at: usize,
    pub steps_executed: usize,
    pub bus: Vec<BusEntry>,
    pub last: Data,
}

/// The model of a [`BodyWork`].
pub struct BodyWorkView {
    pub step: Seq<char>,
    pub path: Seq<char>,
    pub label: Seq<char>,
    pub branch: BranchView,
    pub scope: Entries,
    pub at: int,
    pub steps_executed: int,
    pub bus: Seq<BusEntryView>,
    pub last: Json,
}

impl BodyWork {
    pub open spec fn view(&self) -> BodyWorkView {
        BodyWorkView {
            step: self.step@,
            path: self.path@,
            label: self.label@,
            branch: self.branch@,
            scope: self.scope@,
            at: self.at as int,
            steps_executed: self.steps_executed as int,
            bus: bus_view(self.bus@),
            last: self.last@,
        }
    }
}

/// A scope with pseudo-roots layered over it.
pub open spec fn layered(base: Entries, extras: Entries) -> Entries
    decreases extras.len(),
{
    if extras.len() == 0 {
        base
    } else {
        put(layered(base, extras.drop_last()), extras.last().0, extras.last().1)
    }
}

pub open spec fn extras_view(s: Seq<(String, Data)>) -> Entries {
    Seq::new(s.len(), |i: int| (s[i].0@, s[i].1@))
}

/// A scope with pseudo-roots layered over it.
pub fn layer(base: &Fields, extras: Vec<(String, Data)>) -> (r: Fields)
    ensures
        r@ == layered(base@, extras_view(extras@)),
{
    let mut scope = base.copy();
    let ghost all = extras_view(extras@);
    assert(all.take(0) =~= Entries::empty());
    for extra in it: extras
        invariant
            it.seq() == extras@,
            all == extras_view(extras@),
            scope@ == layered(base@, all.take(it.index() as int)),
    {
        let ghost i = it.index() as int;
        let (name, value) = extra;
        assert(all.take(i + 1).drop_last() =~= all.take(i));
        assert(all.take(i + 1).last() == (name@, value@));
        scope.insert(name, value);
    }
    assert(all.take(all.len() as int) =~= all);
    scope
}

/// A body before its first call.
pub open spec fn body_begun(
    step: Seq<char>,
    path: Seq<char>,
    label: Seq<char>,
    branch: BranchView,
    scope: Entries,
) -> BodyWorkView {
    BodyWorkView {
        step,
        path,
        label,
        branch,
        scope,
        at: 0,
        steps_executed: 0,
        bus: Seq::empty(),
        last: Json::Null,
    }
}

/// Begins a body in a scope: the plan's results with the pseudo-roots over them
/// (`item`/`index` for map, `accumulator` too for reduce, none for decide).
pub fn begin_body(
    step: &str,
    path: &str,
    label: &str,
    branch: Branch,
    scope: Fields,
) -> (r: BodyWork)
    ensures
        r@ == body_begun(step@, path@, label@, branch@, scope@),
{
    let bus: Vec<BusEntry> = Vec::new();
    assert(bus_view(bus@) =~= Seq::<BusEntryView>::empty());
    BodyWork {
        step: step.to_owned(),
        path: path.to_owned(),
        label: label.to_owned(),
        branch,
        scope,
        at: 0,
        steps_executed: 0,
        bus,
        last: Data::Null,
    }
}

/// How many calls a body has.
pub open spec fn body_len(branch: BranchView) -> int {
    match branch {
        BranchView::Call(_) => 1,
        BranchView::Steps(steps) => steps.len() as int,
    }
}

/// The tool of a body's call.
pub open spec fn body_tool(branch: BranchView, i: int) -> Seq<char> {
    match branch {
        BranchView::Call(call) => call.tool_name,
        BranchView::Steps(steps) => steps[i].tool_name,
    }
}

/// The input of a body's call.
pub open spec fn body_input(branch: BranchView, i: int) -> Entries {
    match branch {
        BranchView::Call(call) => call.input,
        BranchView::Steps(steps) => steps[i].input,
    }
}

/// Where a body's call sits in the plan.
pub open spec fn body_path(w: BodyWorkView) -> StepPathView {
    StepPathView {
        step: w.step,
        body: Some(w.path),
        body_step: match w.branch {
            BranchView::Call(_) => None,
            BranchView::Steps(steps) => Some(steps[w.at].id),
        },
    }
}

/// What a body does next.
#[derive(Debug)]
pub enum BodyMove {
    /// Every call is done.
    Done,
    /// The next call's input does not render.
    Fail(RenderError),
    /// Run a control step (`agent`, `ask` or `filter`) on its raw input, in the
    /// body's scope.
    Control { path: StepPath, tool: String, input: Fields },
    /// Evaluate an exit step on its rendered input.
    Exit { path: StepPath, rendered: Data },
    /// Dispatch a tool call.
    Call { path: StepPath, tool: String, rendered: Data },
}

/// The model of a [`BodyMove`].
pub enum BodyMoveView {
    Done,
    Fail(RenderErrorView),
    Control(StepPathView, Seq<char>, Entries),
    Exit(StepPathView, Json),
    Call(StepPathView, Seq<char>, Json),
}

impl BodyMove {
    pub open spec fn view(&self) -> BodyMoveView {
        match self {
            BodyMove::Done => BodyMoveView::Done,
            BodyMove::Fail(e) => BodyMoveView::Fail(e@),
            BodyMove::Control { path, tool, input } => BodyMoveView::Control(path@, tool@, input@),
            BodyMove::Exit { path, rendered } => BodyMoveView::Exit(path@, rendered@),
            BodyMove::Call { path, tool, rendered } => BodyMoveView::Call(
                path@,
                tool@,
                rendered@,
            ),
        }
    }
}

/// What a body does next. Control steps render their own input.
pub open spec fn body_move(w: BodyWorkView) -> BodyMoveView {
    if w.at >= body_len(w.branch) {
        BodyMoveView::Done
    } else {
        let tool = body_tool(w.branch, w.at);
        let input = body_input(w.branch, w.at);
        if nests(tool) {
            BodyMoveView::Control(body_path(w), tool, input)
        } else {
            match rendered_input(w.scope, Json::Object(input)) {
                Err(e) => BodyMoveView::Fail(e),
                Ok(rendered) => if tool == "exit"@ {
                    BodyMoveView::Exit(body_path(w), rendered)
                } else {
                    BodyMoveView::Call(body_path(w), tool, rendered)
                },
            }
        }
    }
}

/// Decides what a body does next.
pub fn next_in_body(w: &BodyWork) -> (r: BodyMove)
    ensures
        r@ == body_move(w@),
{
    let (tool, input, path) = match &w.branch {
        Branch::Call(call) => {
            if w.at >= 1 {
                return BodyMove::Done;
            }
            (
                &call.tool_name,
                &call.input,
                StepPath::in_body(w.step.as_str(), w.path.as_str(), None),
            )
        },
        Branch::Steps(steps) => {
            if w.at >= steps.len() {
                return BodyMove::Done;
            }
            let step = &steps[w.at];
            assert(plan_view(steps@)[w.at as int] == step@);
            (
                &step.tool_name,
                &step.input,
                StepPath::in_body(w.step.as_str(), w.path.as_str(), Some(step.id.as_str())),
            )
        },
    };
    if same_text(tool.as_str(), "agent") || same_text(tool.as_str(), "ask") || same_text(
        tool.as_str(),
        "filter",
    ) {
        return BodyMove::Control { path, tool: tool.clone(), input: input.copy() };
    }
    match render_input(&Data::Object(input.copy()), &Roots::new(&w.scope)) {
        Err(e) => BodyMove::Fail(e),
        Ok(rendered) => if same_text(tool.as_str(), "exit") {
            BodyMove::Exit { path, rendered }
        } else {
            BodyMove::Call { path, tool: tool.clone(), rendered }
        },
    }
}

/// A body with the value of its next call. A step of a list is noted on the
/// bus and visible to the steps after it; a single call is neither. `inner`
/// is how many tool calls the step made within itself.
pub open spec fn body_advanced(w: BodyWorkView, value: Json, inner: int) -> BodyWorkView {
    match w.branch {
        BranchView::Call(_) => BodyWorkView {
            at: w.at + 1,
            steps_executed: w.steps_executed + 1 + inner,
            last: value,
            ..w
        },
        BranchView::Steps(steps) => BodyWorkView {
            at: w.at + 1,
            steps_executed: w.steps_executed + 1 + inner,
            bus: w.bus.push(
                BusEntryView {
                    source: w.step + "/"@ + w.path + "/"@ + steps[w.at].id,
                    kind: BusKind::Info,
                    content: "ok"@,
                },
            ),
            scope: put(w.scope, steps[w.at].id, value),
            last: value,
            ..w
        },
    }
}

/// A body that failed before its next call was done.
pub open spec fn body_failed(w: BodyWorkView, fail: BodyFailView) -> BodyErrorView {
    BodyErrorView { fail, steps_executed: w.steps_executed, bus: w.bus }
}

/// What a failure of the next call is called in messages.
pub open spec fn body_failure(w: BodyWorkView, message: Seq<char>) -> Seq<char> {
    match w.branch {
        BranchView::Call(call) => w.label + " ("@ + call.tool_name + "): "@ + message,
        BranchView::Steps(steps) => w.label + " step "@ + steps[w.at].id + " ("@
            + steps[w.at].tool_name + "): "@ + message,
    }
}

/// Where a body goes from what its next call came to: further, or to its end.
pub enum BodyStepView {
    On(BodyWorkView),
    Over(BodyErrorView),
}

/// Where a body goes.
#[derive(Debug)]
pub enum BodyStep {
    On(BodyWork),
    Over(BodyError),
}

impl BodyStep {
    pub open spec fn view(&self) -> BodyStepView {
        match self {
            BodyStep::On(w) => BodyStepView::On(w@),
            BodyStep::Over(e) => BodyStepView::Over(e@),
        }
    }
}

/// Where a body goes from a tool call.
pub open spec fn body_called(
    w: BodyWorkView,
    outcome: Result<Json, DispatchErrorView>,
) -> BodyStepView {
    match outcome {
        Ok(value) => BodyStepView::On(body_advanced(w, value, 0)),
        Err(DispatchErrorView::Aborted(error)) => BodyStepView::Over(
            body_failed(w, BodyFailView::Aborted(error)),
        ),
        Err(DispatchErrorView::Failed(message)) => BodyStepView::Over(
            body_failed(w, BodyFailView::Tool(body_failure(w, message))),
        ),
    }
}

/// Where a body goes from an exit step. One that fires counts as executed.
pub open spec fn body_exited(
    w: BodyWorkView,
    eval: Result<ExitEvalView, Seq<char>>,
) -> BodyStepView {
    match eval {
        Ok(ExitEvalView::Passed(value)) => BodyStepView::On(body_advanced(w, value, 0)),
        Ok(ExitEvalView::Exited(exit)) => BodyStepView::Over(
            BodyErrorView {
                fail: BodyFailView::Exited(exit),
                steps_executed: w.steps_executed + 1,
                bus: w.bus,
            },
        ),
        Err(message) => BodyStepView::Over(
            body_failed(w, BodyFailView::Tool(w.label + " (exit): "@ + message)),
        ),
    }
}

/// Where a body goes from a control step in it.
pub open spec fn body_controlled(
    w: BodyWorkView,
    run: Result<(Json, int), StepFailView>,
) -> BodyStepView {
    match run {
        Ok((value, inner)) => BodyStepView::On(body_advanced(w, value, inner)),
        Err(StepFailView::Empty(e)) => BodyStepView::Over(
            body_failed(w, BodyFailView::Render(e)),
        ),
        Err(StepFailView::Aborted(error)) => BodyStepView::Over(
            body_failed(w, BodyFailView::Aborted(error)),
        ),
        Err(StepFailView::Failed(message)) => BodyStepView::Over(
            body_failed(w, BodyFailView::Tool(body_failure(w, message))),
        ),
    }
}

pub open spec fn control_view(r: Result<(Data, usize), StepFail>) -> Result<
    (Json, int),
    StepFailView,
> {
    match r {
        Ok(p) => Ok((p.0@, p.1 as int)),
        Err(e) => Err(e@),
    }
}

fn advance_body(work: BodyWork, value: Data, inner: usize) -> (r: BodyWork)
    requires
        work.at < body_len(work.branch@),
        work.steps_executed + 1 + inner <= usize::MAX,
    ensures
        r@ == body_advanced(work@, value@, inner as int),
{
    let mut w = work;
    let step_id = match &w.branch {
        Branch::Call(_) => None,
        Branch::Steps(steps) => {
            assert(plan_view(steps@)[w.at as int] == steps@[w.at as int]@);
            assert(w.at < steps.len());
            Some(steps[w.at].id.clone())
        },
    };
    if let Some(id) = step_id {
        let ghost before = w.bus@;
        let source = cat5(w.step.as_str(), "/", w.path.as_str(), "/", id.as_str());
        w.bus.push(BusEntry { source, kind: BusKind::Info, content: "ok".to_owned() });
        assert(bus_view(w.bus@) =~= bus_view(before).push(
            BusEntryView { source: source@, kind: BusKind::Info, content: "ok"@ },
        ));
        w.scope.insert(id, value.copy());
    }
    w.last = value;
    w.steps_executed = w.steps_executed + 1 + inner;
    w.at = w.at + 1;
    w
}

fn fail_body(w: BodyWork, fail: BodyFail) -> (r: BodyStep)
    ensures
        r@ == BodyStepView::Over(body_failed(w@, fail@)),
{
    BodyStep::Over(BodyError { fail, steps_executed: w.steps_executed, bus: w.bus })
}

fn describe_failure(w: &BodyWork, message: &str) -> (r: String)
    requires
        w.at < body_len(w.branch@),
    ensures
        r@ == body_failure(w@, message@),
{
    match &w.branch {
        Branch::Call(call) => cat5(
            w.label.as_str(),
            " (",
            call.tool_name.as_str(),
            "): ",
            message,
        ),
        Branch::Steps(steps) => {
            let step = &steps[w.at];
            assert(plan_view(steps@)[w.at as int] == step@);
            cat7(
                w.label.as_str(),
                " step ",
                step.id.as_str(),
                " (",
                step.tool_name.as_str(),
                "): ",
                message,
            )
        },
    }
}

/// Goes on from a tool call.
pub fn after_body_call(w: BodyWork, outcome: Result<Data, DispatchError>) -> (r: BodyStep)
    requires
        w.at < body_len(w.branch@),
        w.steps_executed < usize::MAX,
    ensures
        r@ == body_called(w@, call_view(outcome)),
{
    match outcome {
        Ok(value) => BodyStep::On(advance_body(w, value, 0)),
        Err(DispatchError::Aborted { error }) => fail_body(w, BodyFail::Aborted(error)),
        Err(DispatchError::Failed(message)) => {
            let text = describe_failure(&w, message.as_str());
            fail_body(w, BodyFail::Tool(text))
        },
    }
}

/// Goes on from an exit step.
pub fn after_body_exit(w: BodyWork, eval: Result<ExitEval, String>) -> (r: BodyStep)
    requires
        w.at < body_len(w.branch@),
        w.steps_executed < usize::MAX,
    ensures
        r@ == body_exited(w@, eval_view(eval)),
{
    match eval {
        Ok(ExitEval::Passed(value)) => BodyStep::On(advance_body(w, value, 0)),
        Ok(ExitEval::Exited(exit)) => BodyStep::Over(
            BodyError {
                fail: BodyFail::Exited(exit),
                steps_executed: w.steps_executed + 1,
                bus: w.bus,
            },
        ),
        Err(message) => {
            let text = cat3(w.label.as_str(), " (exit): ", message.as_str());
            fail_body(w, BodyFail::Tool(text))
        },
    }
}

/// Goes on from a control step, given its value and how many tool calls it made
/// within itself.
pub fn after_body_control(w: BodyWork, run: Result<(Data, usize), StepFail>) -> (r: BodyStep)
    requires
        w.at < body_len(w.branch@),
        match run {
            Ok(p) => w.steps_executed + 1 + p.1 <= usize::MAX,
            Err(_) => true,
        },
    ensures
        r@ == body_controlled(w@, control_view(run)),
{
    match run {
        Ok((value, inner)) => BodyStep::On(advance_body(w, value, inner)),
        Err(StepFail::Empty(e)) => fail_body(w, BodyFail::Render(e)),
        Err(StepFail::Aborted(error)) => fail_body(w, BodyFail::Aborted(error)),
        Err(StepFail::Failed(message)) => {
            let text = describe_failure(&w, message.as_str());
            fail_body(w, BodyFail::Tool(text))
        },
    }
}

/// What a body comes to once nothing is left to do in it.
pub open spec fn body_over(w: BodyWorkView) -> Result<BodyRunView, BodyErrorView> {
    match body_move(w) {
        BodyMoveView::Fail(e) => Err(body_failed(w, BodyFailView::Render(e))),
        _ => Ok(BodyRunView { result: w.last, steps_executed: w.steps_executed, bus: w.bus }),
    }
}

/// Ends a body that has nothing left to do, or whose next call's input does not
/// render.
pub fn end_body(w: BodyWork, unrendered: Option<RenderError>) -> (r: Result<BodyRun, BodyError>)
    requires
        match unrendered {
            Some(e) => body_move(w@) == BodyMoveView::Fail(e@),
            None => body_move(w@) is Done,
        },
    ensures
        body_result(r) == body_over(w@),
{
    match unrendered {
        Some(e) => Err(
            BodyError { fail: BodyFail::Render(e), steps_executed: w.steps_executed, bus: w.bus },
        ),
        None => Ok(
            BodyRun { result: w.last, steps_executed: w.steps_executed, bus: w.bus },
        ),
    }
}

// ── Laws ─────────────────────────────────────────────────────────────────

/// Every call that is done leaves one less to do, so a body ends after as many
/// calls as it has.
pub proof fn a_body_gets_shorter(w: BodyWorkView, value: Json, inner: int)
    ensures
        body_len(body_advanced(w, value, inner).branch) - body_advanced(w, value, inner).at
            == body_len(w.branch) - w.at - 1,
{
}

/// What a body did changes neither the plan nor its results.
pub proof fn a_body_never_enters_the_results(s: RunStateView, steps: int, bus: Seq<BusEntryView>)
    ensures
        with_body(s, steps, bus).results == s.results,
        with_body(s, steps, bus).plan == s.plan,
{
}

/// A body's step sees the value of every step before it in the body.
pub proof fn a_body_step_is_visible_to_the_next(w: BodyWorkView, value: Json, inner: int)
    requires
        w.branch is Steps,
        0 <= w.at < body_len(w.branch),
    ensures
        crate::value::lookup(
            body_advanced(w, value, inner).scope,
            w.branch->Steps_0[w.at].id,
        ) == Some(value),
{
    crate::value::a_set_key_reads_back(
        w.scope,
        w.branch->Steps_0[w.at].id,
        value,
        w.branch->Steps_0[w.at].id,
    );
}

} // verus!
