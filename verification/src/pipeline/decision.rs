//! The `decide` fork: a step that routes execution into one of two branches
//! (`then`/`else`), gated like an `exit` step by a logical condition (`if`) or
//! an inferred verdict (`infer`). Never dispatched to a tool registry. Only the
//! chosen branch is rendered and run: the other side's templates are never
//! evaluated, so each branch may safely reference data that only exists when
//! that branch is the right one to take.

use crate::pipeline::body::{
    body_problems, branch_of, parse_branch, validate_body, Branch, BranchView,
};
use crate::pipeline::condition::{
    condition_of, evaluate_gate, gate_step, gate_view, Condition, ConditionView, GateResult,
    GateResultView, GateStep, GateStepView,
};
use crate::pipeline::engine::{
    end_of_render, failed, render_end, run_view, with_note, ExecutionEnd, ExecutionEndView,
};
use crate::pipeline::filter::{
    check_opt_templates, check_opt_text, opt_template_problems, opt_text_problems,
};
use crate::pipeline::plan::{text_or_null, text_or_null_data};
use crate::pipeline::record::{
    check_record, data_view, get_opt_text, get_opt_value, get_value, opt_text_at, opt_value_at,
    record_problem, text_view, value_at, Record,
};
use crate::pipeline::references::names;
use crate::pipeline::run_body::{
    add_body, body_result, branch_end, end_of_branch, with_body, BodyError, BodyErrorView, BodyRun,
    BodyRunView,
};
use crate::pipeline::state::{BusKind, RunState, RunStateView};
use crate::template::render::{rendered_input, rendered_text};
use crate::template::{render_input, render_str, Roots};
use crate::text::{cat2, cat3, cat4, push_text, texts};
use crate::value::{obj4, object, put, Data, Entries, Fields, Json};
use vstd::prelude::*;

verus! {

/// The decide step's input, parsed from the raw (unrendered) step input: the
/// condition and branches stay as plain values so rendering can be deferred
/// until a gate has picked a side.
#[derive(Debug)]
pub struct DecideSpec {
    /// Logical gate. Exactly one of `if`/`infer` is required.
    pub if_: Option<Data>,
    /// Inferred gate: a yes/no question answered by the `judge` model role.
    pub infer: Option<String>,
    /// Model for an `infer` verdict; the `judge` role without one.
    pub model: Option<String>,
    /// Branch taken when a gate holds.
    pub then_: Data,
    /// Branch taken otherwise; absent means the plan just continues.
    pub else_: Option<Data>,
}

/// The model of a [`DecideSpec`].
pub struct DecideSpecView {
    pub if_: Option<Json>,
    pub infer: Option<Seq<char>>,
    pub model: Option<Seq<char>>,
    pub then_: Json,
    pub else_: Option<Json>,
}

impl DecideSpec {
    pub open spec fn view(&self) -> DecideSpecView {
        DecideSpecView {
            if_: data_view(self.if_),
            infer: text_view(self.infer),
            model: text_view(self.model),
            then_: self.then_@,
            else_: data_view(self.else_),
        }
    }
}

/// The fork that an input is read as, or why it is none.
pub open spec fn decide_of(input: Entries) -> Result<DecideSpecView, Seq<char>> {
    match record_problem(input, Record::Decide) {
        Some(problem) => Err(problem),
        None => Ok(
            DecideSpecView {
                if_: opt_value_at(input, "if"@),
                infer: opt_text_at(input, "infer"@, "infer"@),
                model: opt_text_at(input, "model"@, "model"@),
                then_: value_at(input, "then"@, "then"@),
                else_: opt_value_at(input, "else"@),
            },
        ),
    }
}

impl DecideSpec {
    /// Reads a decide step's input.
    pub fn from_input(input: &Fields) -> (r: Result<DecideSpec, String>)
        ensures
            match r {
                Ok(spec) => decide_of(input@) == Ok::<DecideSpecView, Seq<char>>(spec@),
                Err(e) => decide_of(input@) == Err::<DecideSpecView, Seq<char>>(e@),
            },
    {
        match check_record(input, Record::Decide) {
            Some(problem) => Err(problem),
            None => Ok(
                DecideSpec {
                    if_: get_opt_value(input, "if"),
                    infer: get_opt_text(input, "infer", "infer"),
                    model: get_opt_text(input, "model", "model"),
                    then_: get_value(input, "then", "then"),
                    else_: get_opt_value(input, "else"),
                },
            ),
        }
    }
}

/// The problem with a fork that has both gates or none.
pub open spec fn decide_arity_problems(spec: DecideSpecView, step: Seq<char>) -> Seq<Seq<char>> {
    if spec.if_ is Some && spec.infer is Some {
        seq!["step "@ + step + ": `if` and `infer` are mutually exclusive"@]
    } else if spec.if_ is None && spec.infer is None {
        seq![
            "step "@ + step
                + ": decide needs `if` or `infer` — an unconditional decide is just steps"@,
        ]
    } else {
        Seq::empty()
    }
}

/// The problems of a fork's `else`, where it has one.
pub open spec fn else_problems(
    else_: Option<Json>,
    seen: Seq<Seq<char>>,
    plan_ids: Seq<Seq<char>>,
    step: Seq<char>,
) -> Seq<Seq<char>> {
    match else_ {
        Some(raw) => body_problems("else"@, raw, seen, Seq::empty(), plan_ids, step, true),
        None => Seq::empty(),
    }
}

/// Everything wrong with a decide step's input, as far as it shows without
/// running.
pub open spec fn decide_problems(
    input: Entries,
    seen: Seq<Seq<char>>,
    plan_ids: Seq<Seq<char>>,
    step: Seq<char>,
) -> Seq<Seq<char>> {
    match decide_of(input) {
        Err(e) => seq!["step "@ + step + ": invalid decide input: "@ + e],
        Ok(spec) => decide_arity_problems(spec, step) + opt_template_problems(
            spec.if_,
            seen,
            step,
        ) + opt_text_problems(spec.infer, seen, step) + opt_text_problems(spec.model, seen, step)
            + body_problems("then"@, spec.then_, seen, Seq::empty(), plan_ids, step, true)
            + else_problems(spec.else_, seen, plan_ids, step),
    }
}

fn check_decide_arity(spec: &DecideSpec, step_id: &str, problems: &mut Vec<String>)
    ensures
        texts(final(problems)@) == texts(old(problems)@) + decide_arity_problems(
            spec@,
            step_id@,
        ),
{
    match (&spec.if_, &spec.infer) {
        (Some(_), Some(_)) => push_text(
            problems,
            cat3("step ", step_id, ": `if` and `infer` are mutually exclusive"),
        ),
        (None, None) => push_text(
            problems,
            cat3(
                "step ",
                step_id,
                ": decide needs `if` or `infer` — an unconditional decide is just steps",
            ),
        ),
        _ => {
            proof {
                crate::seqs::append_nothing(texts(problems@));
            }
        },
    }
}

fn check_side(
    name: &str,
    raw: &Data,
    seen: &[&str],
    all_plan_ids: &[&str],
    step_id: &str,
    problems: &mut Vec<String>,
)
    ensures
        texts(final(problems)@) == texts(old(problems)@) + body_problems(
            name@,
            raw@,
            names(seen@),
            Seq::empty(),
            names(all_plan_ids@),
            step_id@,
            true,
        ),
{
    let none: Vec<&str> = Vec::new();
    assert(names(none@) =~= Seq::<Seq<char>>::empty());
    validate_body(name, raw, seen, none.as_slice(), all_plan_ids, step_id, true, problems);
}

/// Static validation of a decide step's raw input: gate arity, branch shape,
/// branch tool names, branch-step ids, and template reference ordering. `seen`
/// is the ids available before this step (including `input`); `all_plan_ids` is
/// every top-level id, for collision checks.
pub fn validate_decide_input(
    input: &Fields,
    seen: &[&str],
    all_plan_ids: &[&str],
    step_id: &str,
    problems: &mut Vec<String>,
)
    ensures
        texts(final(problems)@) == texts(old(problems)@) + decide_problems(
            input@,
            names(seen@),
            names(all_plan_ids@),
            step_id@,
        ),
{
    broadcast use crate::seqs::append_append;

    let spec = match DecideSpec::from_input(input) {
        Ok(spec) => spec,
        Err(e) => {
            push_text(problems, cat4("step ", step_id, ": invalid decide input: ", e.as_str()));
            return;
        },
    };
    check_decide_arity(&spec, step_id, problems);
    check_opt_templates(&spec.if_, seen, step_id, problems);
    check_opt_text(&spec.infer, seen, step_id, problems);
    check_opt_text(&spec.model, seen, step_id, problems);
    check_side("then", &spec.then_, seen, all_plan_ids, step_id, problems);
    match &spec.else_ {
        Some(raw) => check_side("else", raw, seen, all_plan_ids, step_id, problems),
        None => {
            proof {
                crate::seqs::append_nothing(texts(problems@));
            }
        },
    }
}

// ── Running ──────────────────────────────────────────────────────────────

/// A fork whose gate was rendered.
#[derive(Debug)]
pub struct DecideGate {
    pub gate: GateStep,
    /// The model for an inferred verdict.
    pub model: Option<String>,
    /// What is reported of a gate: its rendered condition or question.
    pub payload: Fields,
    pub then_: Data,
    pub else_: Option<Data>,
}

/// The model of a [`DecideGate`].
pub struct DecideGateView {
    pub gate: GateStepView,
    pub model: Option<Seq<char>>,
    pub payload: Entries,
    pub then_: Json,
    pub else_: Option<Json>,
}

impl DecideGate {
    pub open spec fn view(&self) -> DecideGateView {
        DecideGateView {
            gate: self.gate@,
            model: text_view(self.model),
            payload: self.payload@,
            then_: self.then_@,
            else_: data_view(self.else_),
        }
    }
}

pub open spec fn decide_gate_view(r: Result<DecideGate, ExecutionEnd>) -> Result<
    DecideGateView,
    ExecutionEndView,
> {
    match r {
        Ok(g) => Ok(g@),
        Err(e) => Err(e@),
    }
}

/// How a fork fails.
pub open spec fn decide_failed(step: Seq<char>, message: Seq<char>) -> ExecutionEndView {
    ExecutionEndView::Failed { step, tool: "decide"@, message }
}

/// The rendered condition of a fork, with its payload, or how the run ends.
pub open spec fn decide_condition(
    spec: DecideSpecView,
    results: Entries,
    step: Seq<char>,
) -> Result<
    (Option<ConditionView>, Entries),
    ExecutionEndView,
> {
    match spec.if_ {
        None => Ok((None, Entries::empty())),
        Some(raw) => match rendered_input(results, raw) {
            Err(e) => Err(render_end(e, step, "decide"@)),
            Ok(rendered) => match condition_of(rendered) {
                Err(e) => Err(decide_failed(step, "invalid decide condition: "@ + e)),
                Ok(c) => Ok((Some(c), put(Entries::empty(), "if"@, rendered))),
            },
        },
    }
}

/// The rendered text of an optional template, or how the run ends.
pub open spec fn decide_text(
    template: Option<Seq<char>>,
    results: Entries,
    step: Seq<char>,
) -> Result<Option<Seq<char>>, ExecutionEndView> {
    match template {
        None => Ok(None),
        Some(t) => match rendered_text(results, t) {
            Err(e) => Err(render_end(e, step, "decide"@)),
            Ok(s) => Ok(Some(s)),
        },
    }
}

/// How a fork begins: only its gate is rendered; the branches wait until the
/// gate has picked a side.
pub open spec fn decide_begun(step: Seq<char>, input: Entries, results: Entries) -> Result<
    DecideGateView,
    ExecutionEndView,
> {
    match decide_of(input) {
        Err(e) => Err(decide_failed(step, "invalid decide step input: "@ + e)),
        Ok(spec) => match decide_condition(spec, results, step) {
            Err(end) => Err(end),
            Ok((condition, base)) => match decide_text(spec.infer, results, step) {
                Err(end) => Err(end),
                Ok(infer) => match decide_text(spec.model, results, step) {
                    Err(end) => Err(end),
                    Ok(model) => Ok(
                        DecideGateView {
                            gate: gate_step(condition, infer),
                            model,
                            payload: match infer {
                                Some(question) => put(base, "infer"@, Json::Text(question)),
                                None => base,
                            },
                            then_: spec.then_,
                            else_: spec.else_,
                        },
                    ),
                },
            },
        },
    }
}

fn render_option(template: &Option<String>, results: &Fields, step: &str) -> (r: Result<
    Option<String>,
    ExecutionEnd,
>)
    ensures
        match r {
            Ok(s) => decide_text(text_view(*template), results@, step@) == Ok::<
                Option<Seq<char>>,
                ExecutionEndView,
            >(text_view(s)),
            Err(e) => decide_text(text_view(*template), results@, step@) == Err::<
                Option<Seq<char>>,
                ExecutionEndView,
            >(e@),
        },
{
    match template {
        None => Ok(None),
        Some(t) => match render_str(t.as_str(), &Roots::new(results)) {
            Err(e) => Err(end_of_render(&e, step, "decide")),
            Ok(s) => Ok(Some(s)),
        },
    }
}

/// Begins a decide step: renders only its gate, and evaluates it as far as it
/// goes without a judge.
pub fn begin_decide(step: &str, input: &Fields, results: &Fields) -> (r: Result<
    DecideGate,
    ExecutionEnd,
>)
    ensures
        decide_gate_view(r) == decide_begun(step@, input@, results@),
{
    let spec = match DecideSpec::from_input(input) {
        Ok(spec) => spec,
        Err(e) => {
            return Err(
                failed(step, "decide", cat2("invalid decide step input: ", e.as_str())),
            );
        },
    };
    let mut payload = Fields::new();
    let condition = match &spec.if_ {
        None => None,
        Some(raw) => match render_input(raw, &Roots::new(results)) {
            Err(e) => {
                return Err(end_of_render(&e, step, "decide"));
            },
            Ok(rendered) => match Condition::from_value(&rendered) {
                Err(e) => {
                    return Err(
                        failed(step, "decide", cat2("invalid decide condition: ", e.as_str())),
                    );
                },
                Ok(c) => {
                    payload.insert("if".to_owned(), rendered);
                    Some(c)
                },
            },
        },
    };
    let infer = match render_option(&spec.infer, results, step) {
        Ok(infer) => infer,
        Err(end) => {
            return Err(end);
        },
    };
    let model = match render_option(&spec.model, results, step) {
        Ok(model) => model,
        Err(end) => {
            return Err(end);
        },
    };
    if let Some(question) = &infer {
        payload.insert("infer".to_owned(), Data::Text(question.clone()));
    }
    let gate = evaluate_gate(&condition, &infer);
    Ok(DecideGate { gate, model, payload, then_: spec.then_, else_: spec.else_ })
}

/// What a fork does once its gate is decided.
#[derive(Debug)]
pub enum DecideNext {
    /// The run ends.
    End(ExecutionEnd),
    /// A gate did not hold, and there is no other branch: the plan continues.
    Through { reason: Option<String> },
    /// A branch is run.
    Run { name: String, branch: Branch, verdict: bool, reason: Option<String> },
}

/// The model of a [`DecideNext`].
pub enum DecideNextView {
    End(ExecutionEndView),
    Through(Option<Seq<char>>),
    Run { name: Seq<char>, branch: BranchView, verdict: bool, reason: Option<Seq<char>> },
}

impl DecideNext {
    pub open spec fn view(&self) -> DecideNextView {
        match self {
            DecideNext::End(end) => DecideNextView::End(end@),
            DecideNext::Through { reason } => DecideNextView::Through(text_view(*reason)),
            DecideNext::Run { name, branch, verdict, reason } => DecideNextView::Run {
                name: name@,
                branch: branch@,
                verdict: *verdict,
                reason: text_view(*reason),
            },
        }
    }
}

/// The body of a chosen branch.
pub open spec fn branch_chosen(
    step: Seq<char>,
    name: Seq<char>,
    raw: Json,
    verdict: bool,
    reason: Option<Seq<char>>,
) -> DecideNextView {
    match branch_of(name, raw) {
        Err(message) => DecideNextView::End(decide_failed(step, message)),
        Ok(branch) => DecideNextView::Run { name, branch, verdict, reason },
    }
}

/// What a fork does once its gate is decided: `then` where it holds, `else`
/// where it does not.
pub open spec fn decide_chosen(
    step: Seq<char>,
    then_: Json,
    else_: Option<Json>,
    gate: GateResultView,
) -> DecideNextView {
    match gate {
        Err(e) => DecideNextView::End(decide_failed(step, "decide step: "@ + e)),
        Ok((true, reason)) => branch_chosen(step, "then"@, then_, true, reason),
        Ok((false, reason)) => match else_ {
            Some(raw) => branch_chosen(step, "else"@, raw, false, reason),
            None => DecideNextView::Through(reason),
        },
    }
}

/// Picks a fork's branch once its gate is decided.
pub fn choose_branch(step: &str, then_: &Data, else_: &Option<Data>, gate: GateResult) -> (r:
    DecideNext)
    ensures
        r@ == decide_chosen(step@, then_@, data_view(*else_), gate_view(gate)),
{
    let (verdict, reason) = match gate {
        Ok(pair) => pair,
        Err(e) => {
            return DecideNext::End(failed(step, "decide", cat2("decide step: ", e.as_str())));
        },
    };
    let (name, raw) = if verdict {
        ("then", then_)
    } else {
        match else_ {
            Some(raw) => ("else", raw),
            None => {
                return DecideNext::Through { reason };
            },
        }
    };
    match parse_branch(name, raw) {
        Err(message) => DecideNext::End(failed(step, "decide", message)),
        Ok(branch) => DecideNext::Run { name: name.to_owned(), branch, verdict, reason },
    }
}

/// What a branch's body is called in messages.
pub open spec fn branch_label(name: Seq<char>) -> Seq<char> {
    "`"@ + name + "` branch"@
}

/// What a branch's body is called in messages.
pub fn label_of_branch(name: &str) -> (r: String)
    ensures
        r@ == branch_label(name@),
{
    cat3("`", name, "` branch")
}

/// The result of a fork.
pub open spec fn decide_json(
    branch: Json,
    verdict: bool,
    reason: Option<Seq<char>>,
    result: Json,
) -> Json {
    Json::Object(
        object(
            seq![
                ("branch"@, branch),
                ("verdict"@, Json::Bool(verdict)),
                ("reason"@, text_or_null(reason)),
                ("result"@, result),
            ],
        ),
    )
}

/// What a fork that took no branch does to the run.
pub open spec fn decide_through(s: RunStateView, step: Seq<char>, reason: Option<Seq<char>>) -> (
    RunStateView,
    Json,
) {
    (
        with_note(s, step, BusKind::Info, "gate not met, no else — continuing"@),
        decide_json(Json::Null, false, reason, Json::Null),
    )
}

/// Ends a fork that took no branch.
pub fn pass_decide(state: &mut RunState, step: &str, reason: Option<String>) -> (r: Data)
    ensures
        (final(state)@, r@) == decide_through(old(state)@, step@, text_view(reason)),
{
    state.push_bus(step, BusKind::Info, "gate not met, no else — continuing");
    obj4(
        "branch",
        Data::Null,
        "verdict",
        Data::Bool(false),
        "reason",
        text_or_null_data(&reason),
        "result",
        Data::Null,
    )
}

/// What a fork that ran a branch does to the run.
pub open spec fn decide_settled(
    s: RunStateView,
    step: Seq<char>,
    name: Seq<char>,
    verdict: bool,
    reason: Option<Seq<char>>,
    body: Result<BodyRunView, BodyErrorView>,
) -> (RunStateView, Result<Json, ExecutionEndView>) {
    match body {
        Ok(run) => (
            with_note(
                with_body(s, run.steps_executed, run.bus),
                step,
                BusKind::Info,
                "decide → "@ + name,
            ),
            Ok(decide_json(Json::Text(name), verdict, reason, run.result)),
        ),
        Err(e) => (
            with_body(s, e.steps_executed, e.bus),
            Err(branch_end(e.fail, step, "decide"@)),
        ),
    }
}

/// How many steps a body executed, whatever it came to.
pub open spec fn executed_in_body(body: Result<BodyRun, BodyError>) -> int {
    match body {
        Ok(run) => run.steps_executed as int,
        Err(e) => e.steps_executed as int,
    }
}

/// Ends a fork whose branch has run. What the branch did before it failed still
/// counts.
pub fn settle_decide(
    state: &mut RunState,
    step: &str,
    name: &str,
    verdict: bool,
    reason: Option<String>,
    body: Result<BodyRun, BodyError>,
) -> (r: Result<Data, ExecutionEnd>)
    requires
        old(state).branch_steps_executed + executed_in_body(body) <= usize::MAX,
    ensures
        (final(state)@, run_view(r)) == decide_settled(
            old(state)@,
            step@,
            name@,
            verdict,
            text_view(reason),
            body_result(body),
        ),
{
    match body {
        Ok(run) => {
            add_body(state, run.steps_executed, run.bus);
            state.push_bus(step, BusKind::Info, cat2("decide → ", name).as_str());
            Ok(
                obj4(
                    "branch",
                    Data::text(name),
                    "verdict",
                    Data::Bool(verdict),
                    "reason",
                    text_or_null_data(&reason),
                    "result",
                    run.result,
                ),
            )
        },
        Err(e) => {
            add_body(state, e.steps_executed, e.bus);
            Err(end_of_branch(e.fail, step, "decide"))
        },
    }
}

/// Only the chosen branch matters: what a fork does is the same whatever the
/// other branch holds.
pub proof fn the_other_branch_is_never_looked_at(
    step: Seq<char>,
    then_: Json,
    other_then: Json,
    else_: Option<Json>,
    other_else: Option<Json>,
    reason: Option<Seq<char>>,
)
    ensures
        decide_chosen(step, then_, else_, Ok((true, reason))) == decide_chosen(
            step,
            then_,
            other_else,
            Ok((true, reason)),
        ),
        decide_chosen(step, then_, else_, Ok((false, reason))) == decide_chosen(
            step,
            other_then,
            else_,
            Ok((false, reason)),
        ),
{
}

} // verus!
