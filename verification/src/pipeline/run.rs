//! Running a plan: how a run begins, how it ends, and how plans call plans.
//!
//! A run has one of two error policies. A planned run, whose plan the planner
//! authors, replans on plan defects and tool failures up to a number of
//! attempts and then degrades to an honest error summary. An explicit run,
//! whose plan a human authored, never replans: defects are hard failures. In
//! both, data that ran out (the plan fine, the data gone) goes straight to the
//! solver.
//!
//! As in [`crate::pipeline::engine`], a driver makes the calls; what is decided
//! here is what to call and what becomes of the answer.

use crate::pipeline::authoring::{catalog_view, steps_problems, validate_plan};
use crate::pipeline::catalog::{plan_findings, resolve_step_tools, ToolCatalog, ToolCatalogView};
use crate::pipeline::doc::{Finish, FinishView};
use crate::pipeline::engine::{with_note, ExecutionEnd, ExecutionEndView};
use crate::pipeline::exit::{PlanExit, PlanExitView};
use crate::pipeline::plan::{
    default_solver_data, empty_solver_data, plan_view, whole_plan_data, Plan, PlannerOutput,
    PlannerOutputView, SolverDataView, StepView,
};
use crate::pipeline::record::data_view;
use crate::pipeline::state::{executed, fresh_state, BusKind, RunState, RunStateView};
use crate::template::{
    render::spliced, render_message, render_value, RenderErrorView, Roots,
};
use crate::text::{cat2, cat4, cat6, decimal, join, joined, lists, numeral, texts};
use crate::value::{put, Data, Entries, Fields, Json};
use vstd::prelude::*;

verus! {

// ── What a run makes ─────────────────────────────────────────────────────

/// Why a run has no outcome.
#[derive(Debug)]
pub enum PipelineError {
    /// A model call failed.
    Llm(String),
    StepFailed { step: String, tool: String, message: String },
    InvalidPlan(String),
    EmptyData { step: String, message: String },
    OutputRender(String),
    /// An execution gate ended the run. Carries the partial run state, the
    /// results collected before the abort, so that interactive callers can
    /// render what happened, and the failing tool's error where the abort came
    /// from a failed call. Never replans, never degrades.
    Aborted { step: String, error: Option<Data>, state: Box<RunState> },
    /// Drafting gave up on a step. Carries the valid part of the plan.
    DraftStepExhausted {
        step_id: String,
        attempts: u32,
        problems: Vec<String>,
        partial: Box<PlannerOutput>,
    },
}

/// The model of a [`PipelineError`].
pub enum PipelineErrorView {
    Llm(Seq<char>),
    StepFailed { step: Seq<char>, tool: Seq<char>, message: Seq<char> },
    InvalidPlan(Seq<char>),
    EmptyData { step: Seq<char>, message: Seq<char> },
    OutputRender(Seq<char>),
    Aborted { step: Seq<char>, error: Option<Json>, state: RunStateView },
    DraftStepExhausted {
        step_id: Seq<char>,
        attempts: int,
        problems: Seq<Seq<char>>,
        partial: PlannerOutputView,
    },
}

impl PipelineError {
    pub open spec fn view(&self) -> PipelineErrorView {
        match self {
            PipelineError::Llm(m) => PipelineErrorView::Llm(m@),
            PipelineError::StepFailed { step, tool, message } => PipelineErrorView::StepFailed {
                step: step@,
                tool: tool@,
                message: message@,
            },
            PipelineError::InvalidPlan(m) => PipelineErrorView::InvalidPlan(m@),
            PipelineError::EmptyData { step, message } => PipelineErrorView::EmptyData {
                step: step@,
                message: message@,
            },
            PipelineError::OutputRender(m) => PipelineErrorView::OutputRender(m@),
            PipelineError::Aborted { step, error, state } => PipelineErrorView::Aborted {
                step: step@,
                error: data_view(*error),
                state: state@,
            },
            PipelineError::DraftStepExhausted { step_id, attempts, problems, partial } =>
                PipelineErrorView::DraftStepExhausted {
                step_id: step_id@,
                attempts: *attempts as int,
                problems: texts(problems@),
                partial: partial@,
            },
        }
    }

    /// The error in words.
    pub fn message(&self) -> (r: String)
        ensures
            r@ == pipeline_error_text(self@),
    {
        match self {
            PipelineError::Llm(m) => m.clone(),
            PipelineError::StepFailed { step, tool, message } => cat6(
                "plan failed at step ",
                step.as_str(),
                " (",
                tool.as_str(),
                "): ",
                message.as_str(),
            ),
            PipelineError::InvalidPlan(m) => cat2("invalid plan: ", m.as_str()),
            PipelineError::EmptyData { step, message } => cat4(
                "plan data ran out at step ",
                step.as_str(),
                ": ",
                message.as_str(),
            ),
            PipelineError::OutputRender(m) => cat2("failed to render plan output: ", m.as_str()),
            PipelineError::Aborted { step, .. } => cat2("run aborted at step ", step.as_str()),
            PipelineError::DraftStepExhausted { step_id, attempts, problems, .. } => cat6(
                "drafting gave up on step ",
                step_id.as_str(),
                " after ",
                decimal(*attempts as u64).as_str(),
                " attempts: ",
                join(problems, "; ").as_str(),
            ),
        }
    }
}

/// An error in words.
pub open spec fn pipeline_error_text(e: PipelineErrorView) -> Seq<char> {
    match e {
        PipelineErrorView::Llm(m) => m,
        PipelineErrorView::StepFailed { step, tool, message } => "plan failed at step "@ + step
            + " ("@ + tool + "): "@ + message,
        PipelineErrorView::InvalidPlan(m) => "invalid plan: "@ + m,
        PipelineErrorView::EmptyData { step, message } => "plan data ran out at step "@ + step
            + ": "@ + message,
        PipelineErrorView::OutputRender(m) => "failed to render plan output: "@ + m,
        PipelineErrorView::Aborted { step, .. } => "run aborted at step "@ + step,
        PipelineErrorView::DraftStepExhausted { step_id, attempts, problems, .. } =>
        "drafting gave up on step "@ + step_id + " after "@ + numeral(attempts as nat)
            + " attempts: "@ + joined(problems, "; "@),
    }
}

/// What a run makes.
#[derive(Debug)]
pub struct PipelineOutcome {
    pub answer: String,
    /// Structured output (of a plan that renders its output, or of an exit step).
    pub structured: Option<Data>,
    pub state: RunState,
    /// True when the answer is an error summary rather than a solution.
    pub degraded: bool,
    /// Set when an `exit` step ended the plan early.
    pub exit: Option<PlanExit>,
}

/// The model of a [`PipelineOutcome`].
pub struct PipelineOutcomeView {
    pub answer: Seq<char>,
    pub structured: Option<Json>,
    pub state: RunStateView,
    pub degraded: bool,
    pub exit: Option<PlanExitView>,
}

impl PipelineOutcome {
    pub open spec fn view(&self) -> PipelineOutcomeView {
        PipelineOutcomeView {
            answer: self.answer@,
            structured: data_view(self.structured),
            state: self.state@,
            degraded: self.degraded,
            exit: exit_option(self.exit),
        }
    }
}

pub open spec fn exit_option(o: Option<PlanExit>) -> Option<PlanExitView> {
    match o {
        Some(e) => Some(e@),
        None => None,
    }
}

pub open spec fn outcome_view(r: Result<PipelineOutcome, PipelineError>) -> Result<
    PipelineOutcomeView,
    PipelineErrorView,
> {
    match r {
        Ok(o) => Ok(o@),
        Err(e) => Err(e@),
    }
}

/// What follows the execution of a plan.
#[derive(Debug)]
pub enum Conclusion {
    /// A model synthesizes the results into an answer.
    Solve(RunState),
    /// The run is over.
    Done(PipelineOutcome),
    /// The run failed.
    Fail(PipelineError),
    /// The plan was defective: the planner is asked again.
    Replan(RunState),
    /// The attempts are used up: a model explains the failure.
    Summarize(RunState),
}

/// The model of a [`Conclusion`].
pub enum ConclusionView {
    Solve(RunStateView),
    Done(PipelineOutcomeView),
    Fail(PipelineErrorView),
    Replan(RunStateView),
    Summarize(RunStateView),
}

impl Conclusion {
    pub open spec fn view(&self) -> ConclusionView {
        match self {
            Conclusion::Solve(s) => ConclusionView::Solve(s@),
            Conclusion::Done(o) => ConclusionView::Done(o@),
            Conclusion::Fail(e) => ConclusionView::Fail(e@),
            Conclusion::Replan(s) => ConclusionView::Replan(s@),
            Conclusion::Summarize(s) => ConclusionView::Summarize(s@),
        }
    }
}

/// What an exit step makes of a run: its message is the answer, its output (as
/// it was rendered) the structured output, and the solver never runs.
pub open spec fn exited(s: RunStateView, exit: PlanExitView) -> PipelineOutcomeView {
    PipelineOutcomeView {
        answer: exit.message,
        structured: match exit.output {
            Some(output) => Some(Json::Object(output)),
            None => None,
        },
        state: with_note(s, exit.step, BusKind::Info, "exited: "@ + exit.message),
        degraded: false,
        exit: Some(exit),
    }
}

/// Packages a triggered exit.
pub fn exit_outcome(state: RunState, exit: PlanExit) -> (r: PipelineOutcome)
    ensures
        r@ == exited(state@, exit@),
{
    let mut state = state;
    state.push_bus(
        exit.step.as_str(),
        BusKind::Info,
        cat2("exited: ", exit.message.as_str()).as_str(),
    );
    PipelineOutcome {
        answer: exit.message.clone(),
        structured: match &exit.output {
            Some(output) => Some(Data::Object(output.copy())),
            None => None,
        },
        state,
        degraded: false,
        exit: Some(exit),
    }
}

/// An output map with the first `n` entries rendered: text is a template, any
/// other value stands as it is.
pub open spec fn rendered_output(results: Entries, output: Entries, n: int) -> Result<
    Entries,
    RenderErrorView,
>
    decreases n,
{
    if n <= 0 || n > output.len() {
        Ok(Entries::empty())
    } else {
        match rendered_output(results, output, n - 1) {
            Err(e) => Err(e),
            Ok(before) => match output[n - 1].1 {
                Json::Text(template) => match spliced(results, template) {
                    Ok(value) => Ok(put(before, output[n - 1].0, value)),
                    Err(e) => Err(e),
                },
                other => Ok(put(before, output[n - 1].0, other)),
            },
        }
    }
}

/// An outcome without an answer.
pub open spec fn unanswered(s: RunStateView, structured: Option<Json>) -> PipelineOutcomeView {
    PipelineOutcomeView {
        answer: Seq::empty(),
        structured,
        state: s,
        degraded: false,
        exit: None,
    }
}

/// How a completed run finishes.
pub open spec fn finished(s: RunStateView, finish: FinishView) -> ConclusionView {
    match finish {
        FinishView::Solve(_) => ConclusionView::Solve(s),
        FinishView::Render(output) => match rendered_output(
            s.results,
            output,
            output.len() as int,
        ) {
            Ok(rendered) => ConclusionView::Done(unanswered(s, Some(Json::Object(rendered)))),
            Err(e) => ConclusionView::Fail(PipelineErrorView::OutputRender(render_message(e))),
        },
        FinishView::Silent => ConclusionView::Done(unanswered(s, None)),
    }
}

fn unanswered_outcome(state: RunState, structured: Option<Data>) -> (r: PipelineOutcome)
    ensures
        r@ == unanswered(state@, data_view(structured)),
{
    let answer = String::new();
    assert(answer@ =~= Seq::<char>::empty());
    PipelineOutcome { answer, structured, state, degraded: false, exit: None }
}

/// Completes an explicit run as its plan says.
pub fn finish_run(state: RunState, finish: &Finish) -> (r: Conclusion)
    ensures
        r@ == finished(state@, finish@),
{
    match finish {
        Finish::Solve(_) => Conclusion::Solve(state),
        Finish::Render(output) => {
            let mut rendered = Fields::new();
            let mut i: usize = 0;
            while i < output.len()
                invariant
                    i <= output@.len(),
                    finish@ == FinishView::Render(output@),
                    rendered_output(state@.results, output@, i as int) == Ok::<
                        Entries,
                        RenderErrorView,
                    >(rendered@),
                decreases output@.len() - i,
            {
                let key = output.key_at(i).clone();
                let item = match output.value_at(i) {
                    Data::Text(template) => match render_value(
                        template.as_str(),
                        &Roots::new(&state.results),
                    ) {
                        Ok(value) => value,
                        Err(e) => {
                            proof {
                                lemma_output_error(
                                    state@.results,
                                    output@,
                                    i + 1,
                                    output@.len() as int,
                                );
                            }
                            return Conclusion::Fail(PipelineError::OutputRender(e.message()));
                        },
                    },
                    other => other.copy(),
                };
                rendered.insert(key, item);
                i += 1;
            }
            Conclusion::Done(unanswered_outcome(state, Some(Data::Object(rendered))))
        },
        Finish::Silent => Conclusion::Done(unanswered_outcome(state, None)),
    }
}

proof fn lemma_output_error(results: Entries, output: Entries, i: int, n: int)
    requires
        0 <= i <= n <= output.len(),
        rendered_output(results, output, i) is Err,
    ensures
        rendered_output(results, output, n) == rendered_output(results, output, i),
    decreases n,
{
    if i < n {
        lemma_output_error(results, output, i, n - 1);
    }
}

// ── Explicit runs ────────────────────────────────────────────────────────

/// The state that an explicit run starts from.
pub open spec fn explicit_state(
    query: Seq<char>,
    plan: Seq<StepView>,
    finish: FinishView,
    input: Option<Json>,
) -> RunStateView {
    RunStateView {
        plan,
        solver_data: match finish {
            FinishView::Solve(data) => data,
            _ => empty_solver_data(),
        },
        results: match input {
            Some(input) => put(Entries::empty(), "input"@, input),
            None => Entries::empty(),
        },
        ..fresh_state(query)
    }
}

/// What keeps an explicit plan from running at all: what is wrong with the plan
/// itself, or else the tools that the catalog shows cannot resolve.
pub open spec fn explicit_problems(
    plan: Seq<StepView>,
    catalog: Option<ToolCatalogView>,
) -> Seq<Seq<char>> {
    if steps_problems(plan).len() > 0 {
        steps_problems(plan)
    } else {
        match catalog {
            Some(catalog) => plan_findings(plan, Seq::empty(), catalog).errors,
            None => Seq::empty(),
        }
    }
}

pub open spec fn start_view(r: Result<RunState, PipelineError>) -> Result<
    RunStateView,
    PipelineErrorView,
> {
    match r {
        Ok(s) => Ok(s@),
        Err(e) => Err(e@),
    }
}

/// Begins an explicit run: exactly the given plan, with nothing executed before
/// the whole of it was checked. A tool that cannot resolve fails the run before
/// its first step, not between two of them.
pub fn begin_explicit(
    query: &str,
    plan: Plan,
    finish: &Finish,
    input: Option<Data>,
    catalog: Option<&ToolCatalog>,
) -> (r: Result<RunState, PipelineError>)
    ensures
        ({
            let problems = explicit_problems(plan_view(plan@), catalog_view(catalog));
            start_view(r) == if problems.len() == 0 {
                Ok::<RunStateView, PipelineErrorView>(
                    explicit_state(query@, plan_view(plan@), finish@, data_view(input)),
                )
            } else {
                Err(PipelineErrorView::InvalidPlan(joined(problems, "; "@)))
            }
        }),
{
    if let Err(problems) = validate_plan(&plan) {
        return Err(PipelineError::InvalidPlan(join(&problems, "; ")));
    }
    if let Some(catalog) = catalog {
        let errors = resolve_step_tools(&plan, catalog);
        if errors.len() > 0 {
            return Err(PipelineError::InvalidPlan(join(&errors, "; ")));
        }
    }
    let mut state = RunState::default();
    state.query = query.to_owned();
    state.plan = plan;
    if let Finish::Solve(data) = finish {
        state.solver_data = data.copy();
    }
    if let Some(input) = input {
        state.results.insert("input".to_owned(), input);
    }
    Ok(state)
}

/// What follows the execution of an explicit plan. Data that ran out degrades
/// to the solver where there is one; a plan that renders its output or has none
/// fails hard on it, since automation must see that the data ran out.
pub open spec fn explicit_concluded(
    s: RunStateView,
    finish: FinishView,
    end: ExecutionEndView,
) -> ConclusionView {
    match end {
        ExecutionEndView::Completed => finished(s, finish),
        ExecutionEndView::Exited(exit) => ConclusionView::Done(exited(s, exit)),
        ExecutionEndView::Empty { step, message } => match finish {
            FinishView::Solve(_) => ConclusionView::Solve(
                with_note(s, step, BusKind::EmptyData, message),
            ),
            _ => ConclusionView::Fail(PipelineErrorView::EmptyData { step, message }),
        },
        ExecutionEndView::Aborted { step, error } => ConclusionView::Fail(
            PipelineErrorView::Aborted { step, error, state: s },
        ),
        ExecutionEndView::Failed { step, tool, message } => ConclusionView::Fail(
            PipelineErrorView::StepFailed { step, tool, message },
        ),
    }
}

/// Concludes the execution of an explicit plan.
pub fn conclude_explicit(state: RunState, finish: &Finish, end: ExecutionEnd) -> (r: Conclusion)
    ensures
        r@ == explicit_concluded(state@, finish@, end@),
{
    match end {
        ExecutionEnd::Completed => finish_run(state, finish),
        ExecutionEnd::Exited(exit) => Conclusion::Done(exit_outcome(state, exit)),
        ExecutionEnd::Empty { step, message } => match finish {
            Finish::Solve(_) => {
                let mut state = state;
                state.push_bus(step.as_str(), BusKind::EmptyData, message.as_str());
                Conclusion::Solve(state)
            },
            _ => Conclusion::Fail(PipelineError::EmptyData { step, message }),
        },
        ExecutionEnd::Aborted { step, error } => Conclusion::Fail(
            PipelineError::Aborted { step, error, state: Box::new(state) },
        ),
        ExecutionEnd::Failed { step, tool, message } => Conclusion::Fail(
            PipelineError::StepFailed { step, tool, message },
        ),
    }
}

// ── Planned runs ─────────────────────────────────────────────────────────

/// A planned run whose planner is asked once more.
pub open spec fn attempted(s: RunStateView) -> RunStateView {
    RunStateView { plan_attempts: s.plan_attempts + 1, ..s }
}

/// Begins the next attempt of a planned run; says whether it is a replanning.
pub fn begin_attempt(state: &mut RunState) -> (r: bool)
    requires
        old(state).plan_attempts < u32::MAX,
    ensures
        final(state)@ == attempted(old(state)@),
        r == (final(state).plan_attempts > 1),
{
    state.plan_attempts = state.plan_attempts + 1;
    state.plan_attempts > 1
}

/// The steps of a plan with none of the given ids.
pub open spec fn not_among(plan: Seq<StepView>, taken: Seq<StepView>) -> Seq<StepView> {
    plan.filter(|step: StepView| !has_id(taken, step.id))
}

/// Whether a plan has a step of an id.
pub open spec fn has_id(plan: Seq<StepView>, id: Seq<char>) -> bool {
    exists|i: int| 0 <= i < plan.len() && #[trigger] plan[i].id == id
}

/// The plan of a run once the planner answered: executed steps are immutable,
/// and the planner's steps replace the pending tail.
pub open spec fn replanned(s: RunStateView, plan: Seq<StepView>) -> Seq<StepView> {
    executed(s.plan, s.results) + not_among(plan, executed(s.plan, s.results))
}

/// Solver data that names results: that of every step where it names none.
pub open spec fn solver_data_for(plan: Seq<StepView>, data: SolverDataView) -> SolverDataView {
    SolverDataView {
        data: if data.data.len() == 0 {
            whole_plan_data(plan)
        } else {
            data.data
        },
        ..data
    }
}

/// A planned run with the planner's answer.
pub open spec fn adopted(s: RunStateView, output: PlannerOutputView) -> RunStateView {
    let plan = replanned(s, output.plan);
    RunStateView { plan, solver_data: solver_data_for(plan, output.solver_data), ..s }
}

/// Takes the planner's answer into a run.
pub fn adopt_plan(state: &mut RunState, output: PlannerOutput)
    ensures
        final(state)@ == adopted(old(state)@, output@),
{
    let mut merged = state.executed_steps();
    let ghost kept = plan_view(merged@);
    let ghost fresh = plan_view(output.plan@);
    let ghost keep = |step: StepView| !has_id(kept, step.id);
    let mut ids: Vec<String> = Vec::new();
    let mut k: usize = 0;
    while k < merged.len()
        invariant
            k <= merged@.len(),
            ids@.len() == k,
            kept == plan_view(merged@),
            forall|j: int| 0 <= j < k ==> (#[trigger] ids@[j])@ == kept[j].id,
        decreases merged.len() - k,
    {
        ids.push(merged[k].id.clone());
        k += 1;
    }
    let mut i: usize = 0;
    proof {
        reveal(Seq::filter);
        assert(fresh.take(0) =~= Seq::<StepView>::empty());
        assert(plan_view(merged@) =~= kept + fresh.take(0).filter(keep));
    }
    while i < output.plan.len()
        invariant
            i <= output.plan@.len(),
            fresh == plan_view(output.plan@),
            keep == (|step: StepView| !has_id(kept, step.id)),
            ids@.len() == kept.len(),
            forall|j: int| 0 <= j < ids@.len() ==> (#[trigger] ids@[j])@ == kept[j].id,
            plan_view(merged@) == kept + fresh.take(i as int).filter(keep),
        decreases output.plan.len() - i,
    {
        let step = &output.plan[i];
        let ghost before = plan_view(merged@);
        proof {
            reveal(Seq::filter);
            assert(fresh.take(i + 1).drop_last() =~= fresh.take(i as int));
            assert(fresh.take(i + 1).last() == step@);
            lemma_ids(ids@, kept, step.id@);
        }
        if !lists(&ids, step.id.as_str()) {
            merged.push(step.copy());
            assert(plan_view(merged@) =~= before.push(step@));
        }
        assert(plan_view(merged@) =~= kept + fresh.take(i + 1).filter(keep));
        i += 1;
    }
    assert(fresh.take(i as int) =~= fresh);
    let mut solver_data = output.solver_data;
    default_solver_data(&merged, &mut solver_data.data);
    state.plan = merged;
    state.solver_data = solver_data;
}

proof fn lemma_ids(ids: Seq<String>, plan: Seq<StepView>, id: Seq<char>)
    requires
        ids.len() == plan.len(),
        forall|j: int| 0 <= j < ids.len() ==> (#[trigger] ids[j])@ == plan[j].id,
    ensures
        texts(ids).contains(id) == has_id(plan, id),
{
    if texts(ids).contains(id) {
        let j = choose|j: int| 0 <= j < texts(ids).len() && texts(ids)[j] == id;
        assert(ids[j]@ == plan[j].id);
    }
    if has_id(plan, id) {
        let j = choose|j: int| 0 <= j < plan.len() && #[trigger] plan[j].id == id;
        assert(ids[j]@ == plan[j].id);
        assert(texts(ids)[j] == id);
    }
}

/// Whether a planned run may ask its planner again.
pub open spec fn retried(s: RunStateView, max_attempts: int) -> ConclusionView {
    if s.plan_attempts >= max_attempts {
        ConclusionView::Summarize(s)
    } else {
        ConclusionView::Replan(s)
    }
}

fn retry(state: RunState, max_attempts: u32) -> (r: Conclusion)
    ensures
        r@ == retried(state@, max_attempts as int),
{
    if state.plan_attempts >= max_attempts {
        Conclusion::Summarize(state)
    } else {
        Conclusion::Replan(state)
    }
}

/// What becomes of a planned run whose plan was checked; nothing where the plan
/// can be executed.
pub open spec fn checked(s: RunStateView, max_attempts: int) -> Option<ConclusionView> {
    if steps_problems(s.plan).len() == 0 {
        None
    } else {
        Some(
            retried(
                with_note(
                    s,
                    "validation"@,
                    BusKind::Error,
                    joined(steps_problems(s.plan), "; "@),
                ),
                max_attempts,
            ),
        )
    }
}

/// Checks the plan of a planned run: either it can be executed, or its problems
/// go to the planner.
pub fn check_attempt(state: RunState, max_attempts: u32) -> (r: Result<RunState, Conclusion>)
    ensures
        match (r, checked(state@, max_attempts as int)) {
            (Ok(s), None) => s@ == state@,
            (Err(c), Some(expected)) => c@ == expected,
            _ => false,
        },
{
    match validate_plan(&state.plan) {
        Ok(()) => Ok(state),
        Err(problems) => {
            let mut state = state;
            state.push_bus("validation", BusKind::Error, join(&problems, "; ").as_str());
            Err(retry(state, max_attempts))
        },
    }
}

/// What follows the execution of a planned plan.
pub open spec fn planned_concluded(
    s: RunStateView,
    end: ExecutionEndView,
    max_attempts: int,
) -> ConclusionView {
    match end {
        ExecutionEndView::Completed => ConclusionView::Solve(s),
        ExecutionEndView::Exited(exit) => ConclusionView::Done(exited(s, exit)),
        ExecutionEndView::Empty { step, message } => ConclusionView::Solve(
            with_note(s, step, BusKind::EmptyData, message),
        ),
        ExecutionEndView::Aborted { step, error } => ConclusionView::Fail(
            PipelineErrorView::Aborted { step, error, state: s },
        ),
        ExecutionEndView::Failed { step, tool, message } => retried(
            with_note(
                s,
                step,
                BusKind::Error,
                "step "@ + step + " ("@ + tool + ") failed: "@ + message,
            ),
            max_attempts,
        ),
    }
}

/// Concludes the execution of a planned plan.
pub fn conclude_planned(state: RunState, end: ExecutionEnd, max_attempts: u32) -> (r: Conclusion)
    ensures
        r@ == planned_concluded(state@, end@, max_attempts as int),
{
    match end {
        ExecutionEnd::Completed => Conclusion::Solve(state),
        ExecutionEnd::Exited(exit) => Conclusion::Done(exit_outcome(state, exit)),
        ExecutionEnd::Empty { step, message } => {
            let mut state = state;
            state.push_bus(step.as_str(), BusKind::EmptyData, message.as_str());
            Conclusion::Solve(state)
        },
        ExecutionEnd::Aborted { step, error } => Conclusion::Fail(
            PipelineError::Aborted { step, error, state: Box::new(state) },
        ),
        ExecutionEnd::Failed { step, tool, message } => {
            let mut state = state;
            let note = cat6(
                "step ",
                step.as_str(),
                " (",
                tool.as_str(),
                ") failed: ",
                message.as_str(),
            );
            state.push_bus(step.as_str(), BusKind::Error, note.as_str());
            retry(state, max_attempts)
        },
    }
}

// ── Laws ─────────────────────────────────────────────────────────────────

/// An abort is final and data that ran out is never the plan's fault: neither
/// ever replans or degrades to an error summary.
pub proof fn aborts_and_empty_data_never_replan(
    s: RunStateView,
    end: ExecutionEndView,
    max_attempts: int,
)
    requires
        end is Aborted || end is Empty,
    ensures
        end is Aborted ==> planned_concluded(s, end, max_attempts) is Fail,
        end is Empty ==> planned_concluded(s, end, max_attempts) is Solve,
{
}

/// An explicit run never replans and never degrades to an error summary.
pub proof fn an_explicit_run_never_replans(
    s: RunStateView,
    finish: FinishView,
    end: ExecutionEndView,
)
    ensures
        !(explicit_concluded(s, finish, end) is Replan),
        !(explicit_concluded(s, finish, end) is Summarize),
{
}

/// An exit ends a run, planned or explicit, with its own message for an answer:
/// no solver is asked.
pub proof fn an_exit_answers_the_run(
    s: RunStateView,
    finish: FinishView,
    exit: PlanExitView,
    max_attempts: int,
)
    ensures
        explicit_concluded(s, finish, ExecutionEndView::Exited(exit)) == ConclusionView::Done(
            exited(s, exit),
        ),
        planned_concluded(s, ExecutionEndView::Exited(exit), max_attempts) == ConclusionView::Done(
            exited(s, exit),
        ),
        exited(s, exit).answer == exit.message,
        !exited(s, exit).degraded,
{
}

/// An explicit plan without a solver asks none, however its execution ended.
pub proof fn a_plan_without_a_solver_asks_none(
    s: RunStateView,
    finish: FinishView,
    end: ExecutionEndView,
)
    requires
        !(finish is Solve),
    ensures
        !(explicit_concluded(s, finish, end) is Solve),
        !(explicit_concluded(s, finish, end) is Summarize),
{
}

/// The planner is asked again only while attempts are left, so that a planned
/// run makes at most `max_attempts` of them (one where that is zero).
pub proof fn a_planned_run_keeps_its_attempts(
    s: RunStateView,
    end: ExecutionEndView,
    max_attempts: int,
)
    requires
        s.plan_attempts >= max_attempts,
    ensures
        !(planned_concluded(s, end, max_attempts) is Replan),
        !(checked(s, max_attempts) matches Some(ConclusionView::Replan(_))),
{
}

/// What was executed survives a replan: the executed steps stand first, as they
/// were and in their order, with their results untouched; after them come only
/// steps that have not run under their id.
pub proof fn executed_steps_survive_a_replan(s: RunStateView, output: PlannerOutputView)
    ensures
        ({
            let done = executed(s.plan, s.results);
            let next = adopted(s, output);
            &&& next.results == s.results
            &&& next.bus == s.bus
            &&& next.plan.len() >= done.len()
            &&& next.plan.take(done.len() as int) == done
            &&& forall|i: int|
                done.len() <= i < next.plan.len() ==> !has_id(done, (#[trigger] next.plan[i]).id)
        }),
{
    let done = executed(s.plan, s.results);
    let next = adopted(s, output);
    assert(next.plan.take(done.len() as int) =~= done);
    let keep = |step: StepView| !has_id(done, step.id);
    assert forall|i: int| done.len() <= i < next.plan.len() implies !has_id(
        done,
        (#[trigger] next.plan[i]).id,
    ) by {
        output.plan.lemma_filter_pred(keep, i - done.len());
    }
}

} // verus!
