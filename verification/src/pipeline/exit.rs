//! The `exit` escape hatch: a step that ends the plan early with a success or
//! error state, gated by a logical condition (`when`) or an inferred verdict
//! (`infer`). Never dispatched to a tool registry, and skips the solver
//! entirely: an escape hatch is a zero-inference exit, except the verdict call
//! itself.

use crate::pipeline::condition::{
    condition_of, condition_view, evaluate_gate, gate_step, gate_view, judged, settle_gate,
    verdict_view, Condition, ConditionView, GateResult, GateResultView, GateStep, GateStepView,
    Verdict,
};
use crate::pipeline::plan::{copy_option, text_or_null, text_or_null_data};
use crate::pipeline::record::{
    check_value_as, choice_at, fields_view, get_choice, lemma_listed_fits, listed, read_entries,
    read_fields, get_opt_object, get_opt_text, lemma_field_fits, opt_object_at, opt_text_at,
    record_value_problem, rule_for, text_view, Record,
};
use crate::text::{cat2, cat4, same_text};
use crate::value::{
    an_object_holds_its_pairs, an_object_holds_no_other_key, distinct, lookup, obj3, obj5, object,
    Data, Entries, Fields, Json,
};
use vstd::prelude::*;

verus! {

#[derive(Debug, Clone, Copy, PartialEq, Eq, Structural)]
pub enum ExitStatus {
    Success,
    Error,
}

/// A triggered exit, carried through the pipeline outcome.
#[derive(Debug)]
pub struct PlanExit {
    pub status: ExitStatus,
    pub message: String,
    /// The model's reasoning, for inferred exits.
    pub reason: Option<String>,
    /// Rendered output map, when the step declared one.
    pub output: Option<Fields>,
    /// The step id that exited.
    pub step: String,
}

/// The exit step's input, parsed after template rendering.
#[derive(Debug)]
pub struct ExitSpec {
    /// Logical gate. Mutually exclusive with `infer`; omit both for an
    /// unconditional exit.
    pub when: Option<Condition>,
    /// Inferred gate: a yes/no question answered by the `judge` model role with
    /// a structured verdict.
    pub infer: Option<String>,
    /// Model for an `infer` verdict; the `judge` role without one.
    pub model: Option<String>,
    pub status: ExitStatus,
    pub message: Option<String>,
    /// Emitted as the plan's structured output when the exit triggers.
    pub output: Option<Fields>,
}

/// How an evaluated exit step resolved.
#[derive(Debug)]
pub enum ExitEval {
    /// Gate did not fire; the plan continues. The value becomes the step's
    /// result (so later steps can reference e.g. `{{Ex.reason}}`).
    Passed(Data),
    /// Gate fired; the plan ends.
    Exited(PlanExit),
}

/// How the evaluation of an exit step goes on.
#[derive(Debug)]
pub enum ExitStep {
    /// It resolved, or failed.
    Settled(Result<ExitEval, String>),
    /// It waits for the judge's answer to a question, asked of a model.
    Judge { spec: ExitSpec, question: String },
}

/// The model of a [`PlanExit`].
pub struct PlanExitView {
    pub status: ExitStatus,
    pub message: Seq<char>,
    pub reason: Option<Seq<char>>,
    pub output: Option<Entries>,
    pub step: Seq<char>,
}

/// The model of an [`ExitSpec`].
pub struct ExitSpecView {
    pub when: Option<ConditionView>,
    pub infer: Option<Seq<char>>,
    pub model: Option<Seq<char>>,
    pub status: ExitStatus,
    pub message: Option<Seq<char>>,
    pub output: Option<Entries>,
}

/// The model of an [`ExitEval`].
pub enum ExitEvalView {
    Passed(Json),
    Exited(PlanExitView),
}

/// The model of an [`ExitStep`].
pub enum ExitStepView {
    Settled(Result<ExitEvalView, Seq<char>>),
    Judge(ExitSpecView, Seq<char>),
}

impl PlanExit {
    pub open spec fn view(&self) -> PlanExitView {
        PlanExitView {
            status: self.status,
            message: self.message@,
            reason: text_view(self.reason),
            output: fields_view(self.output),
            step: self.step@,
        }
    }
}

impl ExitSpec {
    pub open spec fn view(&self) -> ExitSpecView {
        ExitSpecView {
            when: condition_view(self.when),
            infer: text_view(self.infer),
            model: text_view(self.model),
            status: self.status,
            message: text_view(self.message),
            output: fields_view(self.output),
        }
    }
}

impl ExitEval {
    pub open spec fn view(&self) -> ExitEvalView {
        match self {
            ExitEval::Passed(v) => ExitEvalView::Passed(v@),
            ExitEval::Exited(e) => ExitEvalView::Exited(e@),
        }
    }
}

pub open spec fn eval_view(r: Result<ExitEval, String>) -> Result<ExitEvalView, Seq<char>> {
    match r {
        Ok(e) => Ok(e@),
        Err(e) => Err(e@),
    }
}

impl ExitStep {
    pub open spec fn view(&self) -> ExitStepView {
        match self {
            ExitStep::Settled(r) => ExitStepView::Settled(eval_view(*r)),
            ExitStep::Judge { spec, question } => ExitStepView::Judge(spec@, question@),
        }
    }
}

/// What a status is called.
pub open spec fn status_text(s: ExitStatus) -> Seq<char> {
    match s {
        ExitStatus::Success => "success"@,
        ExitStatus::Error => "error"@,
    }
}

/// An exit as a value.
pub open spec fn exit_json(e: PlanExitView) -> Json {
    Json::Object(
        object(
            seq![
                ("status"@, Json::Text(status_text(e.status))),
                ("message"@, Json::Text(e.message)),
                ("reason"@, text_or_null(e.reason)),
                ("output"@, entries_or_null(e.output)),
                ("step"@, Json::Text(e.step)),
            ],
        ),
    )
}

pub open spec fn entries_or_null(o: Option<Entries>) -> Json {
    match o {
        Some(e) => Json::Object(e),
        None => Json::Null,
    }
}

/// A copy of an optional object.
pub fn copy_fields_option(o: &Option<Fields>) -> (r: Option<Fields>)
    ensures
        fields_view(r) == fields_view(*o),
{
    match o {
        Some(f) => Some(f.copy()),
        None => None,
    }
}

fn entries_or_null_data(o: &Option<Fields>) -> (r: Data)
    ensures
        r@ == entries_or_null(fields_view(*o)),
{
    match o {
        Some(f) => Data::Object(f.copy()),
        None => Data::Null,
    }
}

/// What a status is called.
pub fn status_name(s: ExitStatus) -> (r: &'static str)
    ensures
        r@ == status_text(s),
{
    match s {
        ExitStatus::Success => "success",
        ExitStatus::Error => "error",
    }
}

impl PlanExit {
    /// The exit as a value.
    pub fn to_value(&self) -> (r: Data)
        ensures
            r@ == exit_json(self@),
    {
        obj5(
            "status",
            Data::text(status_name(self.status)),
            "message",
            Data::Text(self.message.clone()),
            "reason",
            text_or_null_data(&self.reason),
            "output",
            entries_or_null_data(&self.output),
            "step",
            Data::Text(self.step.clone()),
        )
    }

    /// A copy of the exit.
    pub fn copy(&self) -> (r: PlanExit)
        ensures
            r@ == self@,
    {
        PlanExit {
            status: self.status,
            message: self.message.clone(),
            reason: copy_option(&self.reason),
            output: copy_fields_option(&self.output),
            step: self.step.clone(),
        }
    }
}

/// The condition in an exit's `when`.
pub open spec fn when_of(e: Entries) -> Option<ConditionView> {
    match lookup(e, "when"@) {
        Some(Json::Null) => None,
        Some(v) => match condition_of(v) {
            Ok(c) => Some(c),
            Err(_) => None,
        },
        None => None,
    }
}

/// The exit that a value is read as, or why it is none.
pub open spec fn exit_of(v: Json) -> Result<ExitSpecView, Seq<char>> {
    match record_value_problem(v, Record::Exit, "struct ExitSpec"@) {
        Some(problem) => Err(problem),
        None => Ok(
            ExitSpecView {
                when: when_of(read_entries(v, Record::Exit)),
                infer: opt_text_at(read_entries(v, Record::Exit), "infer"@, "infer"@),
                model: opt_text_at(read_entries(v, Record::Exit), "model"@, "model"@),
                status: if choice_at(read_entries(v, Record::Exit), "status"@, "status"@) == "error"@ {
                    ExitStatus::Error
                } else {
                    ExitStatus::Success
                },
                message: opt_text_at(read_entries(v, Record::Exit), "message"@, "message"@),
                output: opt_object_at(read_entries(v, Record::Exit), "output"@),
            },
        ),
    }
}

fn read_when(fields: &Fields) -> (r: Option<Condition>)
    ensures
        condition_view(r) == when_of(fields@),
{
    match fields.get("when") {
        Some(Data::Null) => None,
        Some(v) => match Condition::from_value(v) {
            Ok(c) => Some(c),
            Err(_) => None,
        },
        None => None,
    }
}

/// In an exit that can be read, a `when` other than null is a condition that
/// can be read.
pub proof fn an_exits_condition_is_readable(v: Json)
    requires
        exit_of(v) is Ok,
    ensures
        match lookup(read_entries(v, Record::Exit), "when"@) {
            Some(Json::Null) => true,
            Some(when) => condition_of(when) is Ok,
            None => true,
        },
{
    reveal_with_fuel(rule_for, 2);
    match v {
        Json::List(items) => {
            let pairs = listed(items, Record::Exit);
            lemma_exit_names(items);
            if items.len() > 0 {
                an_object_holds_its_pairs(pairs, 0);
                lemma_listed_fits(items, Record::Exit, "struct ExitSpec"@, 0, 0);
            } else {
                an_object_holds_no_other_key(pairs, "when"@);
            }
        },
        _ => {
            lemma_field_fits(read_entries(v, Record::Exit), Record::Exit, "when"@);
        },
    }
}

/// The fields of an exit have different names.
proof fn lemma_exit_names(items: Seq<Json>)
    ensures
        distinct(listed(items, Record::Exit)),
{
    reveal_strlit("when");
    reveal_strlit("infer");
    reveal_strlit("status");
    reveal_strlit("message");
    reveal_strlit("output");
    reveal_strlit("model");
    let pairs = listed(items, Record::Exit);
    let names = seq!["when"@, "infer"@, "status"@, "message"@, "output"@, "model"@];
    assert("infer"@[0] != "model"@[0]);
    assert("status"@[0] != "output"@[0]);
    assert forall|i: int, j: int| 0 <= i < j < pairs.len() implies pairs[i].0 != pairs[j].0 by {
        assert(pairs[i].0 == names[i]);
        assert(pairs[j].0 == names[j]);
        assert(names[i] != names[j]);
    }
}

impl ExitSpec {
    /// Reads an exit step's rendered input.
    pub fn from_value(v: &Data) -> (r: Result<ExitSpec, String>)
        ensures
            match r {
                Ok(spec) => exit_of(v@) == Ok::<ExitSpecView, Seq<char>>(spec@),
                Err(e) => exit_of(v@) == Err::<ExitSpecView, Seq<char>>(e@),
            },
    {
        match check_value_as(v, Record::Exit, "struct ExitSpec") {
            Some(problem) => Err(problem),
            None => {
                let fields = &read_fields(v, Record::Exit);
                let status = if same_text(get_choice(fields, "status", "status").as_str(), "error") {
                    ExitStatus::Error
                } else {
                    ExitStatus::Success
                };
                Ok(
                    ExitSpec {
                        when: read_when(fields),
                        infer: get_opt_text(fields, "infer", "infer"),
                        model: get_opt_text(fields, "model", "model"),
                        status,
                        message: get_opt_text(fields, "message", "message"),
                        output: get_opt_object(fields, "output"),
                    },
                )
            },
        }
    }
}

/// What an exit says: its message, or what its status says without one, and the
/// judge's reasoning.
pub open spec fn exit_message(spec: ExitSpecView, reason: Option<Seq<char>>) -> Seq<char> {
    let base = match spec.message {
        Some(m) => m,
        None => match spec.status {
            ExitStatus::Success => "plan exited early"@,
            ExitStatus::Error => "plan asserted failure"@,
        },
    };
    match reason {
        Some(reason) => base + " ("@ + reason + ")"@,
        None => base,
    }
}

/// The result of an exit step whose gate did not fire.
pub open spec fn passed_json(reason: Option<Seq<char>>) -> Json {
    Json::Object(
        object(
            seq![
                ("passed"@, Json::Bool(true)),
                ("verdict"@, Json::Bool(false)),
                ("reason"@, text_or_null(reason)),
            ],
        ),
    )
}

/// How an exit step resolves once its gate is decided.
pub open spec fn exit_resolution(
    step: Seq<char>,
    spec: ExitSpecView,
    triggered: bool,
    reason: Option<Seq<char>>,
) -> ExitEvalView {
    if triggered {
        ExitEvalView::Exited(
            PlanExitView {
                status: spec.status,
                message: exit_message(spec, reason),
                reason,
                output: spec.output,
                step,
            },
        )
    } else {
        ExitEvalView::Passed(passed_json(reason))
    }
}

/// How an exit step resolves from what its gate decided.
pub open spec fn exit_settled(step: Seq<char>, spec: ExitSpecView, gate: GateResultView) -> Result<
    ExitEvalView,
    Seq<char>,
> {
    match gate {
        Ok((triggered, reason)) => Ok(exit_resolution(step, spec, triggered, reason)),
        Err(e) => Err("exit step: "@ + e),
    }
}

/// How an exit step's evaluation goes on from its rendered input. Without a
/// gate it always fires.
pub open spec fn exit_step(step: Seq<char>, rendered: Json) -> ExitStepView {
    match exit_of(rendered) {
        Err(e) => ExitStepView::Settled(Err("invalid exit step input: "@ + e)),
        Ok(spec) => if spec.when is None && spec.infer is None {
            ExitStepView::Settled(Ok(exit_resolution(step, spec, true, None)))
        } else {
            match gate_step(spec.when, spec.infer) {
                GateStepView::Decided(gate) => ExitStepView::Settled(
                    exit_settled(step, spec, gate),
                ),
                GateStepView::Judge(question) => ExitStepView::Judge(spec, question),
            }
        },
    }
}

fn resolve(step_id: &str, spec: ExitSpec, triggered: bool, reason: Option<String>) -> (r: ExitEval)
    ensures
        r@ == exit_resolution(step_id@, spec@, triggered, text_view(reason)),
{
    if !triggered {
        return ExitEval::Passed(
            obj3(
                "passed",
                Data::Bool(true),
                "verdict",
                Data::Bool(false),
                "reason",
                text_or_null_data(&reason),
            ),
        );
    }
    let base = match &spec.message {
        Some(m) => m.clone(),
        None => match spec.status {
            ExitStatus::Success => "plan exited early".to_owned(),
            ExitStatus::Error => "plan asserted failure".to_owned(),
        },
    };
    let message = match &reason {
        Some(reason) => cat4(base.as_str(), " (", reason.as_str(), ")"),
        None => base,
    };
    ExitEval::Exited(
        PlanExit {
            status: spec.status,
            message,
            reason,
            output: spec.output,
            step: step_id.to_owned(),
        },
    )
}

fn resolve_gate(step_id: &str, spec: ExitSpec, gate: GateResult) -> (r: Result<ExitEval, String>)
    ensures
        eval_view(r) == exit_settled(step_id@, spec@, gate_view(gate)),
{
    match gate {
        Ok((triggered, reason)) => Ok(resolve(step_id, spec, triggered, reason)),
        Err(e) => Err(cat2("exit step: ", e.as_str())),
    }
}

/// Evaluates an exit step as far as it goes without a judge.
pub fn evaluate(step_id: &str, rendered_input: &Data) -> (r: ExitStep)
    ensures
        r@ == exit_step(step_id@, rendered_input@),
{
    let spec = match ExitSpec::from_value(rendered_input) {
        Ok(spec) => spec,
        Err(e) => {
            return ExitStep::Settled(Err(cat2("invalid exit step input: ", e.as_str())));
        },
    };
    if spec.when.is_none() && spec.infer.is_none() {
        return ExitStep::Settled(Ok(resolve(step_id, spec, true, None)));
    }
    match evaluate_gate(&spec.when, &spec.infer) {
        GateStep::Decided(gate) => ExitStep::Settled(resolve_gate(step_id, spec, gate)),
        GateStep::Judge { question } => ExitStep::Judge { spec, question },
    }
}

/// Resolves an exit step by the judge's answer.
pub fn settle_exit(step_id: &str, spec: ExitSpec, answer: Result<Verdict, String>) -> (r: Result<
    ExitEval,
    String,
>)
    ensures
        eval_view(r) == exit_settled(step_id@, spec@, judged(verdict_view(answer))),
{
    resolve_gate(step_id, spec, settle_gate(answer))
}

} // verus!
