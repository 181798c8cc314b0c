//! Plan drafting: an outline call, then one structured model call per step,
//! each statically validated before acceptance.
//!
//! The conversation is a transient scratchpad: the system prompt is built once
//! and reused byte-identically across every call (so that the provider's prompt
//! cache stays warm), and only accepted work persists as assistant turns; failed
//! attempts live in a retry tail that is discarded on acceptance.

use crate::chat::{
    copy_messages, extend_messages, messages_view, push_message, said, specs_view, ChatMessage,
    ChatMessageView, ChatRequest, ChatRequestView, ToolSpec, ToolSpecView,
};
use crate::pipeline::authoring::{steps_problems, validate_plan};
use crate::pipeline::plan::{
    a_step_reads_back, copy_option, copy_plan, default_solver_data, number_in_id, plan_view,
    read_step_fields, step_fields, step_json, step_number, text_or_null, text_or_null_data, Plan,
    PlannerOutput, PlannerOutputView, SolverData, SolverDataView, Step, StepView,
};
use crate::pipeline::planner::Surroundings;
use crate::pipeline::prompts::{
    closing_request_text, closing_step_request, drafting_prompt, drafting_text, outline_request,
    outline_request_text, step_request, step_request_text, DraftingPromptArgs, DraftingPromptView,
};
use crate::pipeline::record::{
    check_value_as, fits, flag_at, read_entries, read_fields, get_flag, get_opt_text, get_text,
    items_at, lemma_record_fits, lemma_records_fit, missing_from, opt_text_at, record_value_problem,
    rule_for, text_at, text_view, Record,
};
use crate::pipeline::run::{solver_data_for, PipelineError, PipelineErrorView};
use crate::pipeline::solver::{make_plain_request, plain_request};
use crate::pipeline::written::{outline_line, planner_page, step_draft_line};
use crate::text::{cat2, cat5, copy_texts, decimal, join, joined, numeral, texts};
use crate::value::{
    an_object_holds_its_pairs, distinct, lookup, obj2, obj3, object, values_view, Data, Entries,
    Fields, Json,
};
use vstd::prelude::*;

verus! {

// ── What the planner produces ────────────────────────────────────────────

/// The rough shape of the plan, produced before any real step.
#[derive(Debug, PartialEq)]
pub struct PlanOutline {
    /// The plan's stages, in order: one-sentence summaries. A control step is
    /// one stage: its body nests inside that step.
    pub items: Vec<OutlineItem>,
    /// The question the solver must answer; always includes the user's original
    /// task.
    pub query_to_answer: String,
    /// Extra system-prompt guidance for the solver (optional).
    pub system_prompt: Option<String>,
}

/// One outline stage.
#[derive(Debug, PartialEq)]
pub struct OutlineItem {
    /// One sentence: what this stage accomplishes.
    pub summary: String,
    /// The exact catalog tool name expected to accomplish it, when known.
    pub expected_tool: Option<String>,
}

/// One step-drafting response.
#[derive(Debug, PartialEq)]
pub struct StepDraft {
    /// The next step of the plan, using the requested id. None with
    /// `plan_complete` when the accepted steps already complete the plan.
    pub step: Option<Step>,
    /// True when the plan is complete: after this step, or already.
    pub plan_complete: bool,
}

/// The model of a [`PlanOutline`].
pub struct PlanOutlineView {
    pub items: Seq<OutlineItemView>,
    pub query_to_answer: Seq<char>,
    pub system_prompt: Option<Seq<char>>,
}

/// The model of an [`OutlineItem`].
pub struct OutlineItemView {
    pub summary: Seq<char>,
    pub expected_tool: Option<Seq<char>>,
}

/// The model of a [`StepDraft`].
pub struct StepDraftView {
    pub step: Option<StepView>,
    pub plan_complete: bool,
}

impl OutlineItem {
    pub open spec fn view(&self) -> OutlineItemView {
        OutlineItemView { summary: self.summary@, expected_tool: text_view(self.expected_tool) }
    }
}

pub open spec fn stages_view(s: Seq<OutlineItem>) -> Seq<OutlineItemView> {
    Seq::new(s.len(), |i: int| s[i]@)
}

impl PlanOutline {
    pub open spec fn view(&self) -> PlanOutlineView {
        PlanOutlineView {
            items: stages_view(self.items@),
            query_to_answer: self.query_to_answer@,
            system_prompt: text_view(self.system_prompt),
        }
    }
}

pub open spec fn step_option(o: Option<Step>) -> Option<StepView> {
    match o {
        Some(s) => Some(s@),
        None => None,
    }
}

impl StepDraft {
    pub open spec fn view(&self) -> StepDraftView {
        StepDraftView { step: step_option(self.step), plan_complete: self.plan_complete }
    }
}

// ── Reading and writing it ───────────────────────────────────────────────

/// The stage that an object is read as.
pub open spec fn stage_fields(e: Entries) -> OutlineItemView {
    OutlineItemView {
        summary: text_at(e, "summary"@, "summary"@),
        expected_tool: opt_text_at(e, "expectedTool"@, "expectedTool"@),
    }
}

/// The stages in an array of objects.
pub open spec fn stages_in(items: Seq<Json>) -> Seq<OutlineItemView> {
    Seq::new(items.len(), |i: int| stage_fields(read_entries(items[i], Record::Stage)))
}

/// The outline that a value is read as, or why it is none.
pub open spec fn outline_of(v: Json) -> Result<PlanOutlineView, Seq<char>> {
    match record_value_problem(v, Record::Outline, "struct PlanOutline"@) {
        Some(problem) => Err(problem),
        None => {
            let e = read_entries(v, Record::Outline);
            Ok(
                PlanOutlineView {
                    items: stages_in(items_at(e, "items"@)),
                    query_to_answer: text_at(e, "queryToAnswer"@, "queryToAnswer"@),
                    system_prompt: opt_text_at(e, "systemPrompt"@, "systemPrompt"@),
                },
            )
        },
    }
}

/// The step draft that a value is read as, or why it is none.
pub open spec fn step_draft_of(v: Json) -> Result<StepDraftView, Seq<char>> {
    match record_value_problem(v, Record::StepDraft, "struct StepDraft"@) {
        Some(problem) => Err(problem),
        None => {
            let e = read_entries(v, Record::StepDraft);
            Ok(
                StepDraftView {
                    step: match lookup(e, "step"@) {
                        Some(Json::Null) => None,
                        Some(step) => Some(step_fields(read_entries(step, Record::Step))),
                        None => None,
                    },
                    plan_complete: flag_at(e, "planComplete"@),
                },
            )
        },
    }
}

fn read_stages(items: &Vec<Data>) -> (r: Vec<OutlineItem>)
    ensures
        stages_view(r@) == stages_in(values_view(items@)),
{
    let mut out: Vec<OutlineItem> = Vec::new();
    let mut i: usize = 0;
    while i < items.len()
        invariant
            i <= items@.len(),
            out@.len() == i,
            forall|k: int|
                0 <= k < i ==> (#[trigger] out@[k])@ == stage_fields(read_entries(items@[k]@, Record::Stage)),
        decreases items.len() - i,
    {
        let fields = &read_fields(&items[i], Record::Stage);
        out.push(
            OutlineItem {
                summary: get_text(fields, "summary", "summary"),
                expected_tool: get_opt_text(fields, "expectedTool", "expectedTool"),
            },
        );
        i += 1;
    }
    assert(stages_view(out@) =~= stages_in(values_view(items@)));
    out
}

impl PlanOutline {
    /// Reads an outline.
    pub fn from_value(v: &Data) -> (r: Result<PlanOutline, String>)
        ensures
            match r {
                Ok(o) => outline_of(v@) == Ok::<PlanOutlineView, Seq<char>>(o@),
                Err(e) => outline_of(v@) == Err::<PlanOutlineView, Seq<char>>(e@),
            },
    {
        match check_value_as(v, Record::Outline, "struct PlanOutline") {
            Some(problem) => Err(problem),
            None => {
                let fields = &read_fields(v, Record::Outline);
                let items = match fields.get("items") {
                    Some(Data::List(items)) => read_stages(items),
                    _ => {
                        let out: Vec<OutlineItem> = Vec::new();
                        assert(stages_view(out@) =~= stages_in(items_at(fields@, "items"@)));
                        out
                    },
                };
                Ok(
                    PlanOutline {
                        items,
                        query_to_answer: get_text(fields, "queryToAnswer", "queryToAnswer"),
                        system_prompt: get_opt_text(fields, "systemPrompt", "systemPrompt"),
                    },
                )
            },
        }
    }
}

impl StepDraft {
    /// Reads a step draft.
    pub fn from_value(v: &Data) -> (r: Result<StepDraft, String>)
        ensures
            match r {
                Ok(d) => step_draft_of(v@) == Ok::<StepDraftView, Seq<char>>(d@),
                Err(e) => step_draft_of(v@) == Err::<StepDraftView, Seq<char>>(e@),
            },
    {
        match check_value_as(v, Record::StepDraft, "struct StepDraft") {
            Some(problem) => Err(problem),
            None => {
                let fields = &read_fields(v, Record::StepDraft);
                let step = match fields.get("step") {
                    Some(Data::Null) => None,
                    Some(step) => Some(read_step_fields(&read_fields(step, Record::Step))),
                    None => None,
                };
                Ok(StepDraft { step, plan_complete: get_flag(fields, "planComplete") })
            },
        }
    }
}

/// A stage as the planner writes it.
pub open spec fn stage_json(s: OutlineItemView) -> Json {
    Json::Object(
        object(
            seq![
                ("summary"@, Json::Text(s.summary)),
                ("expectedTool"@, text_or_null(s.expected_tool)),
            ],
        ),
    )
}

/// Stages as the planner writes them.
pub open spec fn stages_json(items: Seq<OutlineItemView>) -> Json {
    Json::List(Seq::new(items.len(), |i: int| stage_json(items[i])))
}

/// An outline as the planner writes it.
pub open spec fn outline_json(o: PlanOutlineView) -> Json {
    Json::Object(
        object(
            seq![
                ("items"@, stages_json(o.items)),
                ("queryToAnswer"@, Json::Text(o.query_to_answer)),
                ("systemPrompt"@, text_or_null(o.system_prompt)),
            ],
        ),
    )
}

/// A drafted step as the planner writes it: null where there is none.
pub open spec fn drafted_step_json(step: Option<StepView>) -> Json {
    match step {
        Some(step) => step_json(step),
        None => Json::Null,
    }
}

/// A step draft as the planner writes it.
pub open spec fn step_draft_json(d: StepDraftView) -> Json {
    Json::Object(
        object(
            seq![
                ("step"@, drafted_step_json(d.step)),
                ("planComplete"@, Json::Bool(d.plan_complete)),
            ],
        ),
    )
}

impl PlanOutline {
    /// The stages as the planner writes them.
    pub fn items_value(&self) -> (r: Data)
        ensures
            r@ == stages_json(self@.items),
    {
        let mut out: Vec<Data> = Vec::new();
        let mut i: usize = 0;
        while i < self.items.len()
            invariant
                i <= self.items@.len(),
                out@.len() == i,
                forall|k: int| 0 <= k < i ==> (#[trigger] out@[k])@ == stage_json(self.items@[k]@),
            decreases self.items.len() - i,
        {
            let item = &self.items[i];
            out.push(
                obj2(
                    "summary",
                    Data::Text(item.summary.clone()),
                    "expectedTool",
                    text_or_null_data(&item.expected_tool),
                ),
            );
            i += 1;
        }
        assert(values_view(out@) =~= stages_json(self@.items)->List_0);
        Data::List(out)
    }

    /// The outline as the planner writes it.
    pub fn to_value(&self) -> (r: Data)
        ensures
            r@ == outline_json(self@),
    {
        obj3(
            "items",
            self.items_value(),
            "queryToAnswer",
            Data::Text(self.query_to_answer.clone()),
            "systemPrompt",
            text_or_null_data(&self.system_prompt),
        )
    }
}

impl StepDraft {
    /// The step draft as the planner writes it.
    pub fn to_value(&self) -> (r: Data)
        ensures
            r@ == step_draft_json(self@),
    {
        let step = match &self.step {
            Some(step) => step.to_value(),
            None => Data::Null,
        };
        obj2("step", step, "planComplete", Data::Bool(self.plan_complete))
    }
}

// ── A drafting session ───────────────────────────────────────────────────

/// Per-step retry budget: attempts at producing a step that passes static
/// validation before drafting gives up with the valid partial.
pub const MAX_STEP_ATTEMPTS: u32 = 3;

/// How many steps may follow once every outline stage has one: the outline is
/// advisory and stages may split, but a planner that never signals completion
/// must still come to an end.
pub const MAX_OVERFLOW_STEPS: usize = 2;

/// Where a drafting session stands.
#[derive(Debug)]
pub struct Draft {
    /// Built once; every call of the session reuses it as it is.
    pub system: String,
    /// The outline exchange and the accepted steps.
    pub messages: Vec<ChatMessage>,
    pub outline: PlanOutline,
    /// The accepted steps.
    pub plan: Plan,
    /// The failed attempts at the current step.
    pub tail: Vec<ChatMessage>,
    /// How many they are.
    pub attempts: u32,
}

/// The model of a [`Draft`].
pub struct DraftView {
    pub system: Seq<char>,
    pub messages: Seq<ChatMessageView>,
    pub outline: PlanOutlineView,
    pub plan: Seq<StepView>,
    pub tail: Seq<ChatMessageView>,
    pub attempts: int,
}

impl Draft {
    pub open spec fn view(&self) -> DraftView {
        DraftView {
            system: self.system@,
            messages: messages_view(self.messages@),
            outline: self.outline@,
            plan: plan_view(self.plan@),
            tail: messages_view(self.tail@),
            attempts: self.attempts as int,
        }
    }
}

/// What a session is asked first.
pub open spec fn draft_request(
    around: Surroundings,
    query: Seq<char>,
    existing: Option<PlannerOutputView>,
) -> ChatRequestView {
    plain_request(
        drafting_text(
            DraftingPromptView {
                current_date: around.current_date@,
                tools: around.catalog(),
                user_context: around.user_context@,
                step_schema: around.step_schema@,
                draft: match existing {
                    Some(output) => Some(planner_page(output)),
                    None => None,
                },
            },
        ),
        outline_request_text(query),
    )
}

pub open spec fn existing_view(o: Option<&PlannerOutput>) -> Option<PlannerOutputView> {
    match o {
        Some(output) => Some(output@),
        None => None,
    }
}

/// Begins a drafting session: asks for the outline. `existing` is a plan under
/// revision, to be replaced as a whole.
pub fn begin_draft(around: &Surroundings, query: &str, existing: Option<&PlannerOutput>) -> (r:
    ChatRequest)
    ensures
        r@ == draft_request(*around, query@, existing_view(existing)),
{
    let tools = around.describe_catalog();
    let draft = match existing {
        Some(output) => Some(output.to_page()),
        None => None,
    };
    let system = drafting_prompt(
        &DraftingPromptArgs {
            current_date: around.current_date.as_str(),
            tools: tools.as_str(),
            user_context: around.user_context.as_str(),
            step_schema: around.step_schema.as_str(),
            draft: match &draft {
                Some(text) => Some(text.as_str()),
                None => None,
            },
        },
    );
    make_plain_request(system, outline_request(query))
}

/// A session whose outline was answered.
pub open spec fn opened(request: ChatRequestView, outline: PlanOutlineView) -> Result<
    DraftView,
    PipelineErrorView,
> {
    if outline.items.len() == 0 {
        Err(PipelineErrorView::InvalidPlan("outline has no items"@))
    } else {
        Ok(
            DraftView {
                system: request.system,
                messages: request.messages.push(said(outline_line(outline))),
                outline,
                plan: Seq::empty(),
                tail: Seq::empty(),
                attempts: 0,
            },
        )
    }
}

pub open spec fn draft_result(r: Result<Draft, PipelineError>) -> Result<
    DraftView,
    PipelineErrorView,
> {
    match r {
        Ok(d) => Ok(d@),
        Err(e) => Err(e@),
    }
}

/// Goes on from the outline. One without stages is no plan.
pub fn open_draft(request: ChatRequest, outline: PlanOutline) -> (r: Result<Draft, PipelineError>)
    ensures
        draft_result(r) == opened(request@, outline@),
{
    if outline.items.len() == 0 {
        return Err(PipelineError::InvalidPlan("outline has no items".to_owned()));
    }
    let text = outline.to_line();
    let mut messages = request.messages;
    push_message(&mut messages, ChatMessage::said(text));
    let plan: Plan = Vec::new();
    let tail: Vec<ChatMessage> = Vec::new();
    assert(plan_view(plan@) =~= Seq::<StepView>::empty());
    assert(messages_view(tail@) =~= Seq::<ChatMessageView>::empty());
    Ok(Draft { system: request.system, messages, outline, plan, tail, attempts: 0 })
}

/// One more than the greatest number among the ids of a plan; zero where none
/// has one.
pub open spec fn next_in_sequence(plan: Seq<StepView>) -> int
    decreases plan.len(),
{
    if plan.len() == 0 {
        0
    } else {
        let before = next_in_sequence(plan.drop_last());
        match number_in_id(plan.last().id) {
            Some(n) => if n + 1 > before {
                n + 1
            } else {
                before
            },
            None => before,
        }
    }
}

/// The next id in the planner's E sequence over the accepted steps.
pub open spec fn next_id(plan: Seq<StepView>) -> Seq<char> {
    "E"@ + numeral(next_in_sequence(plan) as nat)
}

/// The next id in the planner's E sequence over the accepted steps (first step:
/// E0).
pub fn next_step_id(plan: &Plan) -> (r: String)
    ensures
        r@ == next_id(plan_view(plan@)),
{
    let ghost steps = plan_view(plan@);
    let mut next: u64 = 0;
    let mut i: usize = 0;
    while i < plan.len()
        invariant
            i <= plan@.len(),
            steps == plan_view(plan@),
            next <= u32::MAX + 1,
            next == next_in_sequence(steps.take(i as int)),
        decreases plan.len() - i,
    {
        proof {
            assert(steps.take(i + 1).drop_last() =~= steps.take(i as int));
            assert(steps.take(i + 1).last() == plan@[i as int]@);
        }
        if let Some(n) = step_number(plan[i].id.as_str()) {
            if n as u64 + 1 > next {
                next = n as u64 + 1;
            }
        }
        i += 1;
    }
    assert(steps.take(i as int) =~= steps);
    cat2("E", decimal(next).as_str())
}

/// The summary of the stage that is being drafted: past the outline's end the
/// last stage's carries.
pub open spec fn current_summary(d: DraftView) -> Seq<char> {
    let last = d.outline.items.len() - 1;
    d.outline.items[if d.plan.len() < last {
        d.plan.len() as int
    } else {
        last
    }].summary
}

/// What the planner is asked for the current step: the stage's step, or, once
/// every stage has one, to finish.
pub open spec fn current_request(d: DraftView) -> Seq<char> {
    if d.plan.len() < d.outline.items.len() {
        step_request_text(next_id(d.plan), d.plan.len() as int + 1, current_summary(d))
    } else {
        closing_request_text(next_id(d.plan))
    }
}

/// The call for the current step: the accepted history, the request, and the
/// failed attempts at it.
pub open spec fn current_call(d: DraftView) -> ChatRequestView {
    ChatRequestView {
        model: Seq::empty(),
        system: d.system,
        messages: d.messages.push(ChatMessageView::User(current_request(d))) + d.tail,
        tools: Seq::empty(),
        response_schema: None,
    }
}

/// Whether a session has an outline to follow, and attempts left.
pub open spec fn under_way(d: DraftView) -> bool {
    &&& d.outline.items.len() > 0
    &&& d.plan.len() < d.outline.items.len() + MAX_OVERFLOW_STEPS
    &&& 0 <= d.attempts < MAX_STEP_ATTEMPTS
}

impl Draft {
    /// The summary of the stage that is being drafted.
    pub fn summary(&self) -> (r: String)
        requires
            under_way(self@),
        ensures
            r@ == current_summary(self@),
    {
        let last: usize = self.outline.items.len() - 1;
        let index: usize = if self.plan.len() < last {
            self.plan.len()
        } else {
            last
        };
        self.outline.items[index].summary.clone()
    }

    fn request_text(&self) -> (r: String)
        requires
            under_way(self@),
        ensures
            r@ == current_request(self@),
    {
        let id = next_step_id(&self.plan);
        if self.plan.len() < self.outline.items.len() {
            let summary = self.summary();
            step_request(id.as_str(), self.plan.len() + 1, summary.as_str())
        } else {
            closing_step_request(id.as_str())
        }
    }

    /// The call for the current step.
    pub fn request(&self) -> (r: ChatRequest)
        requires
            under_way(self@),
        ensures
            r@ == current_call(self@),
    {
        let model = String::new();
        let tools: Vec<ToolSpec> = Vec::new();
        assert(model@ =~= Seq::<char>::empty());
        assert(specs_view(tools@) =~= Seq::<ToolSpecView>::empty());
        let mut messages = copy_messages(&self.messages);
        push_message(&mut messages, ChatMessage::User { content: self.request_text() });
        extend_messages(&mut messages, copy_messages(&self.tail));
        ChatRequest {
            model,
            system: self.system.clone(),
            messages,
            tools,
            response_schema: None,
        }
    }
}

/// What a session makes: solver data comes from the outline (no extra model
/// call), and names every step's result.
pub open spec fn assembled(outline: PlanOutlineView, plan: Seq<StepView>) -> PlannerOutputView {
    PlannerOutputView {
        plan,
        solver_data: solver_data_for(
            plan,
            SolverDataView {
                query_to_answer: outline.query_to_answer,
                system_prompt: outline.system_prompt,
                data: Entries::empty(),
            },
        ),
    }
}

fn assemble_output(outline: &PlanOutline, plan: Plan) -> (r: PlannerOutput)
    ensures
        r@ == assembled(outline@, plan_view(plan@)),
{
    let mut data = Fields::new();
    default_solver_data(&plan, &mut data);
    PlannerOutput {
        plan,
        solver_data: SolverData {
            query_to_answer: outline.query_to_answer.clone(),
            system_prompt: copy_option(&outline.system_prompt),
            data,
        },
    }
}

/// What follows a drafted step.
#[derive(Debug)]
pub enum DraftNext {
    /// The next call is [`Draft::request`] of this session.
    Continue(Draft),
    /// The plan is complete.
    Complete(PlannerOutput),
    /// The step cannot be had.
    Exhausted(PipelineError),
}

/// The model of a [`DraftNext`].
pub enum DraftNextView {
    Continue(DraftView),
    Complete(PlannerOutputView),
    Exhausted(PipelineErrorView),
}

impl DraftNext {
    pub open spec fn view(&self) -> DraftNextView {
        match self {
            DraftNext::Continue(d) => DraftNextView::Continue(d@),
            DraftNext::Complete(o) => DraftNextView::Complete(o@),
            DraftNext::Exhausted(e) => DraftNextView::Exhausted(e@),
        }
    }
}

/// What is reported of a drafted step: the step, what is wrong with it, and
/// which attempt it was.
#[derive(Debug)]
pub struct DraftReport {
    pub step: Data,
    pub problems: Vec<String>,
    pub attempt: u32,
}

/// The model of a [`DraftReport`].
pub struct DraftReportView {
    pub step: Json,
    pub problems: Seq<Seq<char>>,
    pub attempt: int,
}

impl DraftReport {
    pub open spec fn view(&self) -> DraftReportView {
        DraftReportView {
            step: self.step@,
            problems: texts(self.problems@),
            attempt: self.attempt as int,
        }
    }
}

pub open spec fn draft_report_view(o: Option<DraftReport>) -> Option<DraftReportView> {
    match o {
        Some(r) => Some(r@),
        None => None,
    }
}

/// The turn that asks for a correction.
pub open spec fn correction(problems: Seq<Seq<char>>, id: Seq<char>) -> Seq<char> {
    "The step is invalid:\n- "@ + joined(problems, "\n- "@) + "\nProduce a corrected step (id "@
        + id + ") for the same stage; do not re-emit accepted steps."@
}

/// What is wrong with a drafted step.
pub open spec fn draft_problems(d: DraftView, s: StepDraftView) -> Seq<Seq<char>> {
    match s.step {
        None => if s.plan_complete && d.plan.len() > 0 {
            Seq::empty()
        } else {
            seq!["produced no step for an incomplete plan"@]
        },
        Some(step) => steps_problems(d.plan.push(step)),
    }
}

/// What follows a drafted step. A valid step is accepted and its failed attempts
/// are forgotten; an invalid one is asked for again, with what is wrong with
/// it, until the attempts are used up. The planner says when the plan is
/// complete; past the overflow it is complete all the same.
pub open spec fn drafted(d: DraftView, s: StepDraftView) -> DraftNextView {
    let problems = draft_problems(d, s);
    if problems.len() > 0 {
        if d.attempts + 1 >= MAX_STEP_ATTEMPTS {
            DraftNextView::Exhausted(
                PipelineErrorView::DraftStepExhausted {
                    step_id: next_id(d.plan),
                    attempts: MAX_STEP_ATTEMPTS as int,
                    problems,
                    partial: assembled(d.outline, d.plan),
                },
            )
        } else {
            DraftNextView::Continue(
                DraftView {
                    tail: d.tail.push(said(step_draft_line(s))).push(
                        ChatMessageView::User(correction(problems, next_id(d.plan))),
                    ),
                    attempts: d.attempts + 1,
                    ..d
                },
            )
        }
    } else {
        match s.step {
            None => DraftNextView::Complete(assembled(d.outline, d.plan)),
            Some(step) => {
                let plan = d.plan.push(step);
                if s.plan_complete || plan.len() >= d.outline.items.len() + MAX_OVERFLOW_STEPS {
                    DraftNextView::Complete(assembled(d.outline, plan))
                } else {
                    DraftNextView::Continue(
                        DraftView {
                            messages: d.messages.push(
                                ChatMessageView::User(current_request(d)),
                            ).push(said(step_draft_line(s))),
                            plan,
                            tail: Seq::empty(),
                            attempts: 0,
                            ..d
                        },
                    )
                }
            },
        }
    }
}

/// What is reported of a drafted step; nothing of the word that the plan was
/// complete already.
pub open spec fn draft_reported(d: DraftView, s: StepDraftView) -> Option<DraftReportView> {
    let problems = draft_problems(d, s);
    match s.step {
        Some(step) => Some(
            DraftReportView { step: step_json(step), problems, attempt: d.attempts + 1 },
        ),
        None => if problems.len() > 0 {
            Some(DraftReportView { step: Json::Null, problems, attempt: d.attempts + 1 })
        } else {
            None
        },
    }
}

impl Draft {
    fn reject(self, drafted_step: &StepDraft, problems: Vec<String>) -> (r: DraftNext)
        requires
            under_way(self@),
            texts(problems@) == draft_problems(self@, drafted_step@),
            problems@.len() > 0,
        ensures
            r@ == drafted(self@, drafted_step@),
    {
        let id = next_step_id(&self.plan);
        if self.attempts + 1 >= MAX_STEP_ATTEMPTS {
            return DraftNext::Exhausted(
                PipelineError::DraftStepExhausted {
                    step_id: id,
                    attempts: MAX_STEP_ATTEMPTS,
                    problems,
                    partial: Box::new(assemble_output(&self.outline, self.plan)),
                },
            );
        }
        let mut tail = self.tail;
        push_message(&mut tail, ChatMessage::said(drafted_step.to_line()));
        let text = cat5(
            "The step is invalid:\n- ",
            join(&problems, "\n- ").as_str(),
            "\nProduce a corrected step (id ",
            id.as_str(),
            ") for the same stage; do not re-emit accepted steps.",
        );
        push_message(&mut tail, ChatMessage::User { content: text });
        DraftNext::Continue(
            Draft {
                system: self.system,
                messages: self.messages,
                outline: self.outline,
                plan: self.plan,
                tail,
                attempts: self.attempts + 1,
            },
        )
    }

    /// Takes a drafted step: what to report of it, and how the session goes on.
    pub fn take_step(self, drafted_step: StepDraft) -> (r: (Option<DraftReport>, DraftNext))
        requires
            under_way(self@),
        ensures
            draft_report_view(r.0) == draft_reported(self@, drafted_step@),
            r.1@ == drafted(self@, drafted_step@),
    {
        let attempt: u32 = self.attempts + 1;
        let step = match &drafted_step.step {
            None => {
                if drafted_step.plan_complete && self.plan.len() > 0 {
                    return (None, DraftNext::Complete(assemble_output(&self.outline, self.plan)));
                }
                let problems = vec!["produced no step for an incomplete plan".to_owned()];
                assert(texts(problems@) =~= draft_problems(self@, drafted_step@));
                let report = DraftReport {
                    step: Data::Null,
                    problems: copy_texts(&problems),
                    attempt,
                };
                return (Some(report), self.reject(&drafted_step, problems));
            },
            Some(step) => step,
        };
        let mut candidate = copy_plan(&self.plan);
        candidate.push(step.copy());
        assert(plan_view(candidate@) =~= self@.plan.push(step@));
        if let Err(problems) = validate_plan(&candidate) {
            let report = DraftReport {
                step: step.to_value(),
                problems: copy_texts(&problems),
                attempt,
            };
            return (Some(report), self.reject(&drafted_step, problems));
        }
        let none: Vec<String> = Vec::new();
        assert(texts(none@) =~= Seq::<Seq<char>>::empty());
        let report = DraftReport { step: step.to_value(), problems: none, attempt };
        assert(draft_problems(self@, drafted_step@) =~= Seq::<Seq<char>>::empty());
        let covered = candidate.len() >= self.outline.items.len() && candidate.len()
            - self.outline.items.len() >= MAX_OVERFLOW_STEPS;
        if drafted_step.plan_complete || covered {
            return (Some(report), DraftNext::Complete(assemble_output(&self.outline, candidate)));
        }
        let asked = self.request_text();
        let mut messages = self.messages;
        push_message(&mut messages, ChatMessage::User { content: asked });
        push_message(&mut messages, ChatMessage::said(drafted_step.to_line()));
        let tail: Vec<ChatMessage> = Vec::new();
        assert(messages_view(tail@) =~= Seq::<ChatMessageView>::empty());
        let next = Draft {
            system: self.system,
            messages,
            outline: self.outline,
            plan: candidate,
            tail,
            attempts: 0,
        };
        (Some(report), DraftNext::Continue(next))
    }
}

// ── Laws ─────────────────────────────────────────────────────────────────

/// Whether what a session has accepted passes static validation.
pub open spec fn accepts_only_valid(d: DraftView) -> bool {
    d.plan.len() > 0 ==> steps_problems(d.plan).len() == 0
}

/// Every plan that drafting completes passes static validation, and so does
/// whatever it has accepted at any point.
pub proof fn drafting_accepts_only_valid_steps(d: DraftView, s: StepDraftView)
    requires
        accepts_only_valid(d),
    ensures
        match drafted(d, s) {
            DraftNextView::Complete(output) => steps_problems(output.plan).len() == 0
                && output.plan.len() > 0,
            DraftNextView::Continue(next) => accepts_only_valid(next),
            DraftNextView::Exhausted(_) => true,
        },
{
}

/// One system prompt serves the whole session, and what was said and accepted
/// is never rewritten: the conversation only grows at its end.
pub proof fn a_session_only_grows(d: DraftView, s: StepDraftView)
    ensures
        drafted(d, s) matches DraftNextView::Continue(next) ==> {
            &&& next.system == d.system
            &&& next.outline == d.outline
            &&& d.messages.is_prefix_of(next.messages)
            &&& d.plan.is_prefix_of(next.plan)
        },
{
}

/// Nothing of a failed attempt outlives the step that was accepted in its place.
pub proof fn failed_attempts_are_forgotten_on_acceptance(d: DraftView, s: StepDraftView)
    ensures
        drafted(d, s) matches DraftNextView::Continue(next) ==> {
            ||| next.tail.len() == 0 && next.plan.len() == d.plan.len() + 1
            ||| next.messages == d.messages && next.plan == d.plan
        },
{
}

/// A session comes to an end: every answer either uses up an attempt or adds a
/// step, and there is a limit to both.
pub proof fn drafting_comes_to_an_end(d: DraftView, s: StepDraftView)
    requires
        under_way(d),
    ensures
        drafted(d, s) matches DraftNextView::Continue(next) ==> under_way(next) && (next.plan.len()
            > d.plan.len() || next.attempts > d.attempts),
{
}

/// An outline reads back as it was written.
pub proof fn an_outline_reads_back(o: PlanOutlineView)
    ensures
        outline_of(outline_json(o)) == Ok::<PlanOutlineView, Seq<char>>(o),
{
    let items = stages_json(o.items)->List_0;
    assert forall|i: int| 0 <= i < items.len() implies record_value_problem(
        #[trigger] items[i],
        Record::Stage,
        "struct OutlineItem"@,
    ) is None && stage_fields(read_entries(items[i], Record::Stage)) == o.items[i] by {
        lemma_stage_reads_back(o.items[i]);
    }
    lemma_records_fit(items, Record::Stage, "struct OutlineItem"@, items.len() as int);
    assert(stages_in(items) =~= o.items);
    let pairs: Entries = seq![
        ("items"@, stages_json(o.items)),
        ("queryToAnswer"@, Json::Text(o.query_to_answer)),
        ("systemPrompt"@, text_or_null(o.system_prompt)),
    ];
    reveal_strlit("items");
    reveal_strlit("queryToAnswer");
    reveal_strlit("systemPrompt");
    assert(pairs[0].0 == "items"@ && pairs[1].0 == "queryToAnswer"@ && pairs[2].0
        == "systemPrompt"@);
    assert(distinct(pairs));
    an_object_holds_its_pairs(pairs, 0);
    an_object_holds_its_pairs(pairs, 1);
    an_object_holds_its_pairs(pairs, 2);
    reveal_with_fuel(rule_for, 4);
    reveal_with_fuel(missing_from, 4);
    assert(fits(pairs, Record::Outline, 0));
    assert(fits(pairs, Record::Outline, 1));
    assert(fits(pairs, Record::Outline, 2));
    lemma_record_fits(pairs, Record::Outline);
}

proof fn lemma_stage_reads_back(s: OutlineItemView)
    ensures
        record_value_problem(stage_json(s), Record::Stage, "struct OutlineItem"@) is None,
        stage_fields(read_entries(stage_json(s), Record::Stage)) == s,
{
    let pairs: Entries = seq![
        ("summary"@, Json::Text(s.summary)),
        ("expectedTool"@, text_or_null(s.expected_tool)),
    ];
    reveal_strlit("summary");
    reveal_strlit("expectedTool");
    assert(pairs[0].0 == "summary"@ && pairs[1].0 == "expectedTool"@);
    assert(distinct(pairs));
    an_object_holds_its_pairs(pairs, 0);
    an_object_holds_its_pairs(pairs, 1);
    reveal_with_fuel(rule_for, 3);
    reveal_with_fuel(missing_from, 3);
    assert(fits(pairs, Record::Stage, 0));
    assert(fits(pairs, Record::Stage, 1));
    lemma_record_fits(pairs, Record::Stage);
}

/// A step draft reads back as it was written.
pub proof fn a_step_draft_reads_back(d: StepDraftView)
    ensures
        step_draft_of(step_draft_json(d)) == Ok::<StepDraftView, Seq<char>>(d),
{
    let pairs: Entries = seq![
        ("step"@, drafted_step_json(d.step)),
        ("planComplete"@, Json::Bool(d.plan_complete)),
    ];
    reveal_strlit("step");
    reveal_strlit("planComplete");
    assert(pairs[0].0 == "step"@ && pairs[1].0 == "planComplete"@);
    assert(distinct(pairs));
    an_object_holds_its_pairs(pairs, 0);
    an_object_holds_its_pairs(pairs, 1);
    if let Some(step) = d.step {
        a_step_reads_back(step);
    }
    reveal_with_fuel(rule_for, 3);
    reveal_with_fuel(missing_from, 3);
    assert(fits(pairs, Record::StepDraft, 0));
    assert(fits(pairs, Record::StepDraft, 1));
    lemma_record_fits(pairs, Record::StepDraft);
}

} // verus!
