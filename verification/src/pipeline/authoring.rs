//! Plan authoring: the shared domain rules for creating and editing plan
//! documents, independent of any surface that drives them.
//!
//! The pieces, in the order an edit flows through them:
//!
//! 1. [`static_problems`]: validation that needs nothing but the document.
//! 2. [`apply_edit`]: the safety choke point. An edit is rejected only when it
//!    introduces a *new* problem; pre-existing problems never block one, or
//!    fixing a broken plan would be chicken-and-egg.
//! 3. The `patch_*` mutators: the actual field writes, each returning a summary
//!    for the caller to report.
//! 4. [`target_path`]: where the document lands, and the guards against
//!    clobbering someone else's plan.

use crate::pipeline::agent::{agent_problems, validate_agent_input};
use crate::pipeline::ask::{ask_problems, validate_ask_input};
use crate::pipeline::body::ids_of;
use crate::pipeline::catalog::{
    deep_plan_findings, resolve_plan_tools_deep, ToolCatalog, ToolCatalogView,
};
use crate::pipeline::decision::{decide_problems, validate_decide_input};
use crate::pipeline::doc::{
    before_step, doc_problem, docs_view, plan_ids, problems_of, validate_doc, PlanDoc, PlanDocView,
};
use crate::pipeline::engine::{error_data, error_json};
use crate::pipeline::file::{
    file_shape, node_json, node_to_data, node_to_yaml, node_yaml, to_file_shape,
};
use crate::pipeline::filter::{filter_problems, validate_filter_input};
use crate::pipeline::iterate::{
    map_problems, reduce_problems, validate_map_input, validate_reduce_input,
};
use crate::pipeline::naming::{display_name, identifier_of, name_in};
use crate::pipeline::plan::{
    check_step_id, entries_of, id_problem, number_in_id, plan_view, solver_in, step_of,
    workbench_problem, workbench_tool_problem, Plan, PlannerOutput, PlannerOutputView, SolverData,
    SolverDataView, Step, StepView,
};
use crate::pipeline::record::{
    check_value_as, data_view, record_value_problem, text_view, wrong_type, Record,
};
use crate::pipeline::references::{
    bare_within, check_input, checked_templates_miss_no_numbered_step, input_problems, named, names,
};
use crate::template::render::rendered_input;
use crate::template::{renamed, rewrite_root, RenderErrorView};
use crate::text::{
    cat2, cat3, cat4, cat6, contains_text, lists, occurs, push_text, same_text, texts,
};
use crate::value::{
    ascending, list_shrinks, lookup, member, obj2, obj3, obj4, object, object_shrinks, text_array,
    text_list, values_view, Data, Entries, Fields, Json, Num,
};
use crate::yaml::{
    member_in, print_yaml, read_yaml, text_in, yaml_document, yaml_member, yaml_printing,
    yaml_reading, yaml_text, YamlView,
};
use vstd::prelude::*;

pub use crate::pipeline::naming::{identifier_from, name_from, stated_name};

verus! {

// ── Validation ───────────────────────────────────────────────────────────

/// Everything wrong with a step's input, as far as it shows without running.
/// Control steps are body-aware: body-internal references (same-body ids,
/// per-item pseudo-roots) are legal.
pub open spec fn step_input_problems(
    step: StepView,
    seen: Seq<Seq<char>>,
    all_ids: Seq<Seq<char>>,
) -> Seq<Seq<char>> {
    if step.tool_name == "agent"@ {
        agent_problems(step.input, seen, step.id)
    } else if step.tool_name == "ask"@ {
        ask_problems(step.input, seen, step.id)
    } else if step.tool_name == "filter"@ {
        filter_problems(step.input, seen, step.id)
    } else if step.tool_name == "decide"@ {
        decide_problems(step.input, seen, all_ids, step.id)
    } else if step.tool_name == "map"@ {
        map_problems(step.input, seen, all_ids, step.id)
    } else if step.tool_name == "reduce"@ {
        reduce_problems(step.input, seen, all_ids, step.id)
    } else {
        input_problems(step.input, seen, step.id)
    }
}

/// Checks a step's input.
pub fn check_step_input(step: &Step, seen: &[&str], all_ids: &[&str], problems: &mut Vec<String>)
    ensures
        texts(final(problems)@) == texts(old(problems)@) + step_input_problems(
            step@,
            names(seen@),
            names(all_ids@),
        ),
{
    let tool = step.tool_name.as_str();
    let id = step.id.as_str();
    let input = &step.input;
    if same_text(tool, "agent") {
        validate_agent_input(input, seen, id, problems);
    } else if same_text(tool, "ask") {
        validate_ask_input(input, seen, id, problems);
    } else if same_text(tool, "filter") {
        validate_filter_input(input, seen, id, problems);
    } else if same_text(tool, "decide") {
        validate_decide_input(input, seen, all_ids, id, problems);
    } else if same_text(tool, "map") {
        validate_map_input(input, seen, all_ids, id, problems);
    } else if same_text(tool, "reduce") {
        validate_reduce_input(input, seen, all_ids, id, problems);
    } else {
        check_input(input, seen, id, problems);
    }
}

/// The problem with a step's id, as a list.
pub open spec fn malformed_id_problems(id: Seq<char>) -> Seq<Seq<char>> {
    match id_problem(id) {
        Some(problem) => seq![problem],
        None => Seq::empty(),
    }
}

/// The problem with an id that is taken, as a list.
pub open spec fn repeated_id_problems(id: Seq<char>, seen: Seq<Seq<char>>) -> Seq<Seq<char>> {
    if seen.contains(id) {
        seq!["duplicate step id '"@ + id + "'"@]
    } else {
        Seq::empty()
    }
}

/// The problem with a tool that no plan can call, as a list.
pub open spec fn workbench_problems(step: StepView) -> Seq<Seq<char>> {
    match workbench_problem(step.tool_name) {
        Some(problem) => seq!["step "@ + step.id + ": "@ + problem],
        None => Seq::empty(),
    }
}

/// What is wrong with the first `n` steps of a plan.
pub open spec fn steps_problems_before(plan: Seq<StepView>, n: int) -> Seq<Seq<char>>
    decreases n,
{
    if n <= 0 || n > plan.len() {
        Seq::empty()
    } else {
        steps_problems_before(plan, n - 1) + malformed_id_problems(plan[n - 1].id)
            + repeated_id_problems(plan[n - 1].id, before_step(plan, n - 1)) + workbench_problems(
            plan[n - 1],
        ) + step_input_problems(plan[n - 1], before_step(plan, n - 1), ids_of(plan))
    }
}

/// Everything wrong with a plan's steps, as far as it shows without running.
pub open spec fn steps_problems(plan: Seq<StepView>) -> Seq<Seq<char>> {
    if plan.len() == 0 {
        seq!["plan has no steps"@]
    } else {
        steps_problems_before(plan, plan.len() as int)
    }
}

/// Whether a step's tool is called with its input as it stands, no body inside.
pub open spec fn is_plain_call(step: StepView) -> bool {
    step.tool_name != "agent"@ && step.tool_name != "ask"@ && step.tool_name != "filter"@
        && step.tool_name != "decide"@ && step.tool_name != "map"@ && step.tool_name != "reduce"@
}

/// A plan without problems never misses a numbered step when it runs: whatever
/// a call's templates refer to is an earlier step, so it has a result by the
/// time the input is rendered. Only a bare name inside a section, which reads
/// the item first, can still be missing.
pub proof fn a_valid_plan_misses_no_numbered_step(plan: Seq<StepView>, i: int, roots: Entries)
    requires
        steps_problems(plan).len() == 0,
        0 <= i < plan.len(),
        is_plain_call(plan[i]),
        forall|name: Seq<char>| #[trigger]
            before_step(plan, i).contains(name) ==> lookup(roots, name) is Some,
    ensures
        rendered_input(roots, Json::Object(plan[i].input)) matches Err(
            RenderErrorView::MissingStep { step, .. },
        ) ==> { number_in_id(step) is None || bare_within(Json::Object(plan[i].input), step) },
{
    lemma_no_step_problem(plan, i, plan.len() as int);
    checked_templates_miss_no_numbered_step(
        Json::Object(plan[i].input),
        before_step(plan, i),
        plan[i].id,
        roots,
    );
}

/// A plan without problems has no two steps of one id, and every id is one that
/// templates can name.
pub proof fn a_valid_plan_has_distinct_ids(plan: Seq<StepView>, i: int, j: int)
    requires
        steps_problems(plan).len() == 0,
        0 <= i < j < plan.len(),
    ensures
        plan[i].id != plan[j].id,
        id_problem(plan[i].id) is None,
        id_problem(plan[j].id) is None,
{
    lemma_no_step_problem(plan, i, plan.len() as int);
    lemma_no_step_problem(plan, j, plan.len() as int);
    assert(ids_of(plan.take(j))[i] == plan[i].id);
    assert(before_step(plan, j)[i + 1] == plan[i].id);
}

proof fn lemma_no_step_problem(plan: Seq<StepView>, i: int, n: int)
    requires
        0 <= i < n <= plan.len(),
        steps_problems_before(plan, n).len() == 0,
    ensures
        malformed_id_problems(plan[i].id).len() == 0,
        repeated_id_problems(plan[i].id, before_step(plan, i)).len() == 0,
        step_input_problems(plan[i], before_step(plan, i), ids_of(plan)).len() == 0,
    decreases n,
{
    if i < n - 1 {
        lemma_no_step_problem(plan, i, n - 1);
    }
}

/// Static validation of a plan's steps: template parse, reference ordering,
/// control-step gates and bodies. No LLM, no registry: tool existence is
/// checked at execution. Returns every problem found, not just the first.
pub fn validate_steps(plan: &Plan) -> (r: Vec<String>)
    ensures
        texts(r@) == steps_problems(plan_view(plan@)),
{
    broadcast use {crate::seqs::append_append, crate::seqs::append_nothing};

    let mut problems: Vec<String> = Vec::new();
    let ghost steps = plan_view(plan@);
    assert(texts(problems@) =~= steps_problems_before(steps, 0));
    if plan.len() == 0 {
        push_text(&mut problems, "plan has no steps".to_owned());
        assert(texts(problems@) =~= steps_problems(steps));
        return problems;
    }
    let all_ids = plan_ids(plan);
    let mut seen: Vec<&str> = vec!["input"];
    assert(names(seen@) =~= before_step(steps, 0));
    let mut i: usize = 0;
    while i < plan.len()
        invariant
            i <= plan@.len(),
            steps == plan_view(plan@),
            names(all_ids@) == ids_of(steps),
            names(seen@) == before_step(steps, i as int),
            texts(problems@) == steps_problems_before(steps, i as int),
        decreases plan.len() - i,
    {
        broadcast use {crate::seqs::append_append, crate::seqs::append_nothing};

        let step = &plan[i];
        assert(steps[i as int] == step@);
        if let Err(problem) = check_step_id(step.id.as_str()) {
            push_text(&mut problems, problem);
        }
        if named(seen.as_slice(), step.id.as_str()) {
            push_text(&mut problems, cat3("duplicate step id '", step.id.as_str(), "'"));
        }
        if let Some(problem) = workbench_tool_problem(step.tool_name.as_str()) {
            push_text(
                &mut problems,
                cat4("step ", step.id.as_str(), ": ", problem.as_str()),
            );
        }
        check_step_input(step, seen.as_slice(), all_ids.as_slice(), &mut problems);
        let ghost before = seen@;
        seen.push(step.id.as_str());
        proof {
            assert(names(seen@) =~= names(before).push(step.id@));
            assert(steps.take(i + 1) =~= steps.take(i as int).push(step@));
            assert(names(seen@) =~= before_step(steps, i + 1));
        }
        i += 1;
    }
    problems
}

/// Static validation of a plan; an error carries every problem.
pub fn validate_plan(plan: &Plan) -> (r: Result<(), Vec<String>>)
    ensures
        problems_of(r) == steps_problems(plan_view(plan@)),
        r is Ok == (steps_problems(plan_view(plan@)).len() == 0),
{
    let problems = validate_steps(plan);
    if problems.len() == 0 {
        assert(texts(problems@) =~= Seq::<Seq<char>>::empty());
        Ok(())
    } else {
        Err(problems)
    }
}

/// Everything wrong with a document that can be known from the document alone:
/// step-level validation plus document-level validation (identifier shape, bare
/// tool names, solver/output exclusion, finish templates).
pub open spec fn doc_problems(doc: PlanDocView) -> Seq<Seq<char>> {
    let problems = steps_problems(doc.steps);
    match doc_problem(doc) {
        Some(problem) => if problems.contains(problem) {
            problems
        } else {
            problems.push(problem)
        },
        None => problems,
    }
}

/// Everything wrong with a document that can be known from the document alone.
/// This is the basis of the [`apply_edit`] guard; the tools that happen to be
/// loadable here are deliberately left out of it.
pub fn static_problems(doc: &PlanDoc) -> (r: Vec<String>)
    ensures
        texts(r@) == doc_problems(doc@),
{
    let mut problems = validate_steps(&doc.steps);
    if let Err(problem) = validate_doc(doc) {
        if !lists(&problems, problem.as_str()) {
            let ghost before = texts(problems@);
            problems.push(problem);
            assert(texts(problems@) =~= before.push(problem@));
        }
    }
    problems
}

/// The full verdict on a document: what shows in it alone, then what its tools
/// are here, where a catalog is known. What is only noted says so.
pub open spec fn full_problems(
    doc: PlanDocView,
    plans: Seq<PlanDocView>,
    catalog: Option<ToolCatalogView>,
) -> Seq<Seq<char>> {
    match catalog {
        None => doc_problems(doc),
        Some(catalog) => {
            let check = deep_plan_findings(doc, plans, catalog);
            crate::seqs::adding_new(doc_problems(doc), check.errors) + noted(check.notes)
        },
    }
}

/// Notes, marked as such.
pub open spec fn noted(notes: Seq<Seq<char>>) -> Seq<Seq<char>> {
    Seq::new(notes.len(), |i: int| "note: "@ + notes[i])
}

pub open spec fn catalog_view(o: Option<&ToolCatalog>) -> Option<ToolCatalogView> {
    match o {
        Some(c) => Some(c@),
        None => None,
    }
}

/// The full validation verdict for a document: [`static_problems`] plus
/// catalog-aware tool resolution when a catalog is available.
///
/// Catalog *notes* (a `requires_servers` entry that is declared but not
/// configured here) are reported with a `note: ` prefix: the file is portable,
/// but it cannot run on this machine.
pub fn plan_problems(doc: &PlanDoc, plans: &Vec<PlanDoc>, catalog: Option<&ToolCatalog>) -> (r: Vec<
    String,
>)
    ensures
        texts(r@) == full_problems(doc@, docs_view(plans@), catalog_view(catalog)),
{
    let mut problems = static_problems(doc);
    if let Some(catalog) = catalog {
        let check = resolve_plan_tools_deep(doc, plans, catalog);
        let ghost base = texts(problems@);
        let ghost errors = texts(check.errors@);
        let mut i: usize = 0;
        assert(errors.take(0) =~= Seq::<Seq<char>>::empty());
        while i < check.errors.len()
            invariant
                i <= check.errors@.len(),
                errors == texts(check.errors@),
                texts(problems@) == crate::seqs::adding_new(base, errors.take(i as int)),
            decreases check.errors.len() - i,
        {
            let error = &check.errors[i];
            proof {
                assert(errors.take(i + 1).drop_last() =~= errors.take(i as int));
                assert(errors.take(i + 1).last() == error@);
            }
            if !lists(&problems, error.as_str()) {
                let ghost before = texts(problems@);
                problems.push(error.clone());
                assert(texts(problems@) =~= before.push(error@));
            }
            i += 1;
        }
        assert(errors.take(i as int) =~= errors);
        let ghost with_errors = texts(problems@);
        let ghost notes = noted(texts(check.notes@));
        let mut k: usize = 0;
        assert(with_errors + notes.take(0) =~= with_errors);
        while k < check.notes.len()
            invariant
                k <= check.notes@.len(),
                notes == noted(texts(check.notes@)),
                texts(problems@) == with_errors + notes.take(k as int),
            decreases check.notes.len() - k,
        {
            push_text(&mut problems, cat2("note: ", check.notes[k].as_str()));
            k += 1;
            assert(with_errors + notes.take(k as int) =~= with_errors + notes.take(k - 1)
                + seq![notes[k - 1]]);
        }
        assert(notes.take(k as int) =~= notes);
    }
    problems
}

// ── The edit guard ───────────────────────────────────────────────────────

/// An accepted edit: the new document, the mutator's summary, and any problems
/// that were already there before the edit (so a caller can report "applied,
/// but the plan is still invalid for reasons you didn't cause").
#[derive(Debug)]
pub struct EditAccepted {
    pub doc: PlanDoc,
    pub summary: Data,
    pub pre_existing: Vec<String>,
}

/// A rejected edit. `body` is a complete result object ready to report: either
/// the mutator's own structured error, or the guard's "would introduce new
/// problems" verdict.
#[derive(Debug)]
pub struct EditRejected {
    pub body: Data,
    pub introduced: Vec<String>,
    pub pre_existing: Vec<String>,
}

/// The model of an [`EditAccepted`].
pub struct EditAcceptedView {
    pub doc: PlanDocView,
    pub summary: Json,
    pub pre_existing: Seq<Seq<char>>,
}

/// The model of an [`EditRejected`].
pub struct EditRejectedView {
    pub body: Json,
    pub introduced: Seq<Seq<char>>,
    pub pre_existing: Seq<Seq<char>>,
}

impl EditAccepted {
    pub open spec fn view(&self) -> EditAcceptedView {
        EditAcceptedView {
            doc: self.doc@,
            summary: self.summary@,
            pre_existing: texts(self.pre_existing@),
        }
    }
}

impl EditRejected {
    pub open spec fn view(&self) -> EditRejectedView {
        EditRejectedView {
            body: self.body@,
            introduced: texts(self.introduced@),
            pre_existing: texts(self.pre_existing@),
        }
    }
}

pub open spec fn verdict_on_edit(r: Result<EditAccepted, EditRejected>) -> Result<
    EditAcceptedView,
    EditRejectedView,
> {
    match r {
        Ok(a) => Ok(a@),
        Err(e) => Err(e@),
    }
}

/// The problems that are not among others.
pub open spec fn new_problems(after: Seq<Seq<char>>, before: Seq<Seq<char>>) -> Seq<Seq<char>> {
    after.filter(|p: Seq<char>| !before.contains(p))
}

/// The problems that are among others.
pub open spec fn known_problems(after: Seq<Seq<char>>, before: Seq<Seq<char>>) -> Seq<Seq<char>> {
    after.filter(|p: Seq<char>| before.contains(p))
}

/// What is reported of an edit that brings new problems.
pub open spec fn rejection(introduced: Seq<Seq<char>>, pre_existing: Seq<Seq<char>>) -> Json {
    let base = seq![
        (
            "error"@,
            Json::Text(
                "edit rejected — it would introduce new validation problems (the draft is unchanged)"@,
            ),
        ),
        ("problemsIntroduced"@, text_list(introduced)),
    ];
    if pre_existing.len() > 0 {
        Json::Object(
            object(
                seq![base[0], base[1], ("preExistingProblems"@, text_list(pre_existing))],
            ),
        )
    } else {
        Json::Object(object(base))
    }
}

/// The verdict on an edit: what the document was, what the mutator made of it,
/// and what the mutator said.
pub open spec fn judged_edit(
    doc: PlanDocView,
    edited: PlanDocView,
    outcome: Result<Json, Json>,
) -> Result<EditAcceptedView, EditRejectedView> {
    let before = doc_problems(doc);
    let after = doc_problems(edited);
    match outcome {
        Err(body) => Err(
            EditRejectedView { body, introduced: Seq::empty(), pre_existing: before },
        ),
        Ok(summary) => {
            let introduced = new_problems(after, before);
            if introduced.len() > 0 {
                Err(
                    EditRejectedView {
                        body: rejection(introduced, known_problems(after, before)),
                        introduced,
                        pre_existing: known_problems(after, before),
                    },
                )
            } else {
                Ok(EditAcceptedView { doc: edited, summary, pre_existing: after })
            }
        },
    }
}

fn select_problems(after: &Vec<String>, before: &Vec<String>, known: bool) -> (r: Vec<String>)
    ensures
        known ==> texts(r@) == known_problems(texts(after@), texts(before@)),
        !known ==> texts(r@) == new_problems(texts(after@), texts(before@)),
{
    let ghost all = texts(after@);
    let ghost old_ones = texts(before@);
    let ghost keep = if known {
        |p: Seq<char>| old_ones.contains(p)
    } else {
        |p: Seq<char>| !old_ones.contains(p)
    };
    let mut out: Vec<String> = Vec::new();
    proof {
        reveal(Seq::filter);
        assert(texts(out@) =~= all.take(0).filter(keep));
    }
    let mut i: usize = 0;
    while i < after.len()
        invariant
            i <= after@.len(),
            all == texts(after@),
            old_ones == texts(before@),
            forall|p: Seq<char>| #[trigger] keep(p) == (old_ones.contains(p) == known),
            texts(out@) == all.take(i as int).filter(keep),
        decreases after.len() - i,
    {
        proof {
            reveal(Seq::filter);
            assert(all.take(i + 1).drop_last() =~= all.take(i as int));
            assert(all.take(i + 1).last() == after@[i as int]@);
        }
        if lists(before, after[i].as_str()) == known {
            let ghost so_far = texts(out@);
            out.push(after[i].clone());
            assert(texts(out@) =~= so_far.push(after@[i as int]@));
        }
        i += 1;
    }
    assert(all.take(i as int) =~= all);
    out
}

/// The verdict on an edit that made `edited` of `doc`. It is accepted only if it
/// introduces no NEW validation problems (absent before, present after).
pub fn judge_edit(doc: &PlanDoc, edited: PlanDoc, outcome: Result<Data, Data>) -> (r: Result<
    EditAccepted,
    EditRejected,
>)
    ensures
        verdict_on_edit(r) == judged_edit(doc@, edited@, outcome_view(outcome)),
{
    let before = static_problems(doc);
    let summary = match outcome {
        Ok(summary) => summary,
        Err(body) => {
            let introduced: Vec<String> = Vec::new();
            assert(texts(introduced@) =~= Seq::<Seq<char>>::empty());
            return Err(EditRejected { body, introduced, pre_existing: before });
        },
    };
    let after = static_problems(&edited);
    let introduced = select_problems(&after, &before, false);
    if introduced.len() > 0 {
        let pre_existing = select_problems(&after, &before, true);
        let error = Data::text(
            "edit rejected — it would introduce new validation problems (the draft is unchanged)",
        );
        let body = if pre_existing.len() > 0 {
            obj3(
                "error",
                error,
                "problemsIntroduced",
                text_array(&introduced),
                "preExistingProblems",
                text_array(&pre_existing),
            )
        } else {
            obj2("error", error, "problemsIntroduced", text_array(&introduced))
        };
        return Err(EditRejected { body, introduced, pre_existing });
    }
    Ok(EditAccepted { doc: edited, summary, pre_existing: after })
}

/// Applies `mutate` to a copy of `doc` and accepts the result only if it
/// introduces no NEW validation problems (absent before, present after). On
/// rejection the original document is untouched: the caller still holds it.
///
/// Pre-existing problems never block an edit: an already-invalid document (say,
/// straight from the planner) must stay editable, or repairing it becomes
/// impossible. Accepted edits on a still-invalid plan report the remaining
/// pre-existing problems.
///
/// `mutate` errors are full result bodies rather than strings so they can carry
/// structured fields (`availableSteps`, and so on).
pub fn apply_edit(
    doc: &PlanDoc,
    mutate: impl FnOnce(PlanDoc) -> (PlanDoc, Result<Data, Data>),
) -> (r: Result<EditAccepted, EditRejected>)
    requires
        forall|d: PlanDoc| d@ == doc@ ==> #[trigger] mutate.requires((d,)),
    ensures
        exists|d: PlanDoc, e: PlanDoc, o: Result<Data, Data>|
            d@ == doc@ && #[trigger] mutate.ensures((d,), (e, o)) && verdict_on_edit(r)
                == judged_edit(doc@, e@, outcome_view(o)),
{
    let copy = doc.copy();
    let (edited, outcome) = mutate(copy);
    judge_edit(doc, edited, outcome)
}

/// What is reported of an accepted edit.
pub open spec fn edit_summary(accepted: EditAcceptedView) -> Json {
    if accepted.pre_existing.len() > 0 {
        Json::Object(
            crate::value::put(
                crate::value::put(
                    entries_of(accepted.summary),
                    "preExistingProblems"@,
                    text_list(accepted.pre_existing),
                ),
                "note"@,
                Json::Text(
                    "edit applied; the plan is still invalid, but only from pre-existing problems (not caused by this edit) — fix them next"@,
                ),
            ),
        )
    } else {
        accepted.summary
    }
}

/// Folds an accepted edit's `pre_existing` problems into its summary.
pub fn summarize_edit(accepted: &EditAccepted) -> (r: Data)
    requires
        accepted.pre_existing@.len() > 0 ==> accepted.summary is Object || accepted.summary is Null,
    ensures
        r@ == edit_summary(accepted@),
{
    if accepted.pre_existing.len() > 0 {
        let mut fields = match &accepted.summary {
            Data::Object(fields) => fields.copy(),
            _ => Fields::new(),
        };
        fields.insert("preExistingProblems".to_string(), text_array(&accepted.pre_existing));
        fields.insert(
            "note".to_string(),
            Data::text(
                "edit applied; the plan is still invalid, but only from pre-existing problems (not caused by this edit) — fix them next",
            ),
        );
        Data::Object(fields)
    } else {
        accepted.summary.copy()
    }
}

/// An edit is accepted exactly when its mutator succeeded and every problem of
/// the new document was a problem of the old one. So a problem that was there
/// before never blocks an edit.
pub proof fn an_edit_is_blocked_only_by_problems_it_brings(
    doc: PlanDocView,
    edited: PlanDocView,
    outcome: Result<Json, Json>,
)
    ensures
        judged_edit(doc, edited, outcome) is Ok == (outcome is Ok && forall|p: Seq<char>|
            doc_problems(edited).contains(p) ==> doc_problems(doc).contains(p)),
        judged_edit(doc, edited, outcome) matches Ok(a) ==> a.doc == edited && a.pre_existing
            == doc_problems(edited),
{
    let before = doc_problems(doc);
    let after = doc_problems(edited);
    let keep = |p: Seq<char>| !before.contains(p);
    broadcast use vstd::seq_lib::group_filter_ensures;

    if new_problems(after, before).len() > 0 {
        let p = new_problems(after, before)[0];
        assert(new_problems(after, before).contains(p));
        assert(after.filter(keep).contains(p));
        after.lemma_filter_contains_rev(keep, p);
        after.lemma_filter_pred(keep, 0);
        assert(keep(p));
    } else {
        assert forall|p: Seq<char>| after.contains(p) implies before.contains(p) by {
            if !before.contains(p) {
                assert(keep(p));
                let i = choose|i: int| 0 <= i < after.len() && after[i] == p;
                assert(after.filter(keep).contains(after[i]));
            }
        }
    }
}

/// The edit that changes nothing is always accepted, however broken the document.
pub proof fn a_document_can_always_be_kept_as_it_is(doc: PlanDocView, summary: Json)
    ensures
        judged_edit(doc, doc, Ok(summary)) is Ok,
{
    an_edit_is_blocked_only_by_problems_it_brings(doc, doc, Ok(summary));
}

// ── Mutators ─────────────────────────────────────────────────────────────

/// The text in a field of a patch, if there is one.
pub open spec fn patch_text(patch: Json, key: Seq<char>) -> Option<Seq<char>> {
    match member(patch, key) {
        Some(Json::Text(s)) => Some(s),
        _ => None,
    }
}

fn get_patch_text(patch: &Data, key: &str) -> (r: Option<String>)
    ensures
        text_view(r) == patch_text(patch@, key@),
{
    match patch.get(key) {
        Some(Data::Text(s)) => Some(s.clone()),
        _ => None,
    }
}

/// The strings among the first `n` values.
pub open spec fn only_texts(items: Seq<Json>, n: int) -> Seq<Seq<char>>
    decreases n,
{
    if n <= 0 || n > items.len() {
        Seq::empty()
    } else {
        match items[n - 1] {
            Json::Text(s) => only_texts(items, n - 1).push(s),
            _ => only_texts(items, n - 1),
        }
    }
}

fn keep_texts(items: &Vec<Data>) -> (r: Vec<String>)
    ensures
        texts(r@) == only_texts(values_view(items@), items@.len() as int),
{
    let ghost all = values_view(items@);
    let mut out: Vec<String> = Vec::new();
    assert(texts(out@) =~= only_texts(all, 0));
    let mut i: usize = 0;
    while i < items.len()
        invariant
            i <= items@.len(),
            all == values_view(items@),
            texts(out@) == only_texts(all, i as int),
        decreases items.len() - i,
    {
        if let Data::Text(s) = &items[i] {
            let ghost before = texts(out@);
            out.push(s.clone());
            assert(texts(out@) =~= before.push(s@));
        }
        i += 1;
    }
    out
}

/// A document with the identifier, name, description and exemplars of a patch.
/// A new identifier is a different plan: the on-disk identity is kept only
/// while the identifier is unchanged.
pub open spec fn with_labels(doc: PlanDocView, patch: Json) -> PlanDocView {
    PlanDocView {
        identifier: match patch_text(patch, "identifier"@) {
            Some(s) => s,
            None => doc.identifier,
        },
        path: match patch_text(patch, "identifier"@) {
            Some(s) => if s != doc.identifier {
                None
            } else {
                doc.path
            },
            None => doc.path,
        },
        name: match patch_text(patch, "name"@) {
            Some(s) => s,
            None => doc.name,
        },
        description: match patch_text(patch, "description"@) {
            Some(s) => s,
            None => doc.description,
        },
        exemplars: match member(patch, "exemplars"@) {
            Some(Json::List(items)) => only_texts(items, items.len() as int),
            _ => doc.exemplars,
        },
        ..doc
    }
}

/// A document with the servers of a patch, or why it cannot have them.
pub open spec fn with_servers(doc: PlanDocView, patch: Json) -> (PlanDocView, Option<Json>) {
    match member(patch, "requires_servers"@) {
        None => (doc, None),
        Some(Json::List(items)) => (
            PlanDocView { requires_servers: only_texts(items, items.len() as int), ..doc },
            None,
        ),
        Some(_) => (
            doc,
            Some(error_json("requires_servers must be an array of server-name strings"@)),
        ),
    }
}

/// A document with the input schema of a patch, or why it cannot have it.
pub open spec fn with_schema(doc: PlanDocView, patch: Json) -> (PlanDocView, Option<Json>) {
    match member(patch, "input_schema"@) {
        None => (doc, None),
        Some(Json::Null) => (PlanDocView { input_schema: None, ..doc }, None),
        Some(Json::Object(e)) => (
            PlanDocView { input_schema: Some(Json::Object(e)), ..doc },
            None,
        ),
        Some(_) => (
            doc,
            Some(error_json("input_schema must be a JSON Schema object (or null to clear)"@)),
        ),
    }
}

/// Whether a finish clears both ways of finishing.
pub open spec fn clears_finish(finish: Json) -> bool {
    match finish {
        Json::Null => true,
        Json::Object(e) => e.len() == 0,
        _ => false,
    }
}

/// A document with another finish, or why it cannot have it. The two ways of
/// finishing exclude each other.
pub open spec fn with_finish(doc: PlanDocView, finish: Json) -> (PlanDocView, Option<Json>) {
    match (member(finish, "solver"@), member(finish, "output"@)) {
        (Some(_), Some(_)) => (
            doc,
            Some(error_json("finish: pass 'solver' OR 'output', not both"@)),
        ),
        (None, None) => if clears_finish(finish) {
            (PlanDocView { solver: None, output: None, ..doc }, None)
        } else {
            (
                doc,
                Some(
                    error_json(
                        "finish requires 'solver' {queryToAnswer, systemPrompt?} or 'output' {<template map>}, or {} / null to clear to a silent plan"@,
                    ),
                ),
            )
        },
        (Some(solver), None) => match record_value_problem(
            solver,
            Record::Solver,
            "struct SolverData"@,
        ) {
            Some(problem) => (doc, Some(error_json("invalid solver: "@ + problem))),
            None => (
                PlanDocView {
                    solver: Some(solver_in(solver)),
                    output: None,
                    ..doc
                },
                None,
            ),
        },
        (None, Some(output)) => match output {
            Json::Object(e) => (PlanDocView { solver: None, output: Some(e), ..doc }, None),
            other => (
                doc,
                Some(
                    error_json(
                        "invalid output: expected a template map — "@ + wrong_type(
                            other,
                            "a map"@,
                        ),
                    ),
                ),
            ),
        },
    }
}

/// Whether a patch of a document's metadata changes anything.
pub open spec fn changes_metadata(patch: Json) -> bool {
    patch_text(patch, "identifier"@) is Some || patch_text(patch, "name"@) is Some || patch_text(
        patch,
        "description"@,
    ) is Some || (member(patch, "exemplars"@) matches Some(v) && v is List) || member(
        patch,
        "requires_servers"@,
    ) is Some || member(patch, "input_schema"@) is Some || member(patch, "finish"@) is Some
}

/// What is reported of a change of metadata.
pub open spec fn metadata_summary(doc: PlanDocView) -> Json {
    Json::Object(
        object(
            seq![
                ("ok"@, Json::Bool(true)),
                ("identifier"@, Json::Text(doc.identifier)),
                ("name"@, Json::Text(doc.name)),
            ],
        ),
    )
}

/// What a patch of the metadata makes of a document, and what is reported of
/// it. A patch that fails leaves what it changed before it failed.
pub open spec fn metadata_patched(doc: PlanDocView, patch: Json) -> (PlanDocView, Result<
    Json,
    Json,
>) {
    let labelled = with_labels(doc, patch);
    let served = with_servers(labelled, patch);
    if served.1 is Some {
        (served.0, Err(served.1->0))
    } else {
        let schemed = with_schema(served.0, patch);
        if schemed.1 is Some {
            (schemed.0, Err(schemed.1->0))
        } else {
            let finished = match member(patch, "finish"@) {
                Some(finish) => with_finish(schemed.0, finish),
                None => (schemed.0, None),
            };
            if finished.1 is Some {
                (finished.0, Err(finished.1->0))
            } else if !changes_metadata(patch) {
                (
                    finished.0,
                    Err(
                        error_json(
                            "update_metadata needs at least one of identifier, name, description, exemplars, requires_servers, input_schema, finish"@,
                        ),
                    ),
                )
            } else {
                (finished.0, Ok(metadata_summary(finished.0)))
            }
        }
    }
}

pub open spec fn outcome_view(r: Result<Data, Data>) -> Result<Json, Json> {
    match r {
        Ok(v) => Ok(v@),
        Err(e) => Err(e@),
    }
}

fn set_labels(doc: &mut PlanDoc, patch: &Data)
    ensures
        final(doc)@ == with_labels(old(doc)@, patch@),
{
    if let Some(identifier) = get_patch_text(patch, "identifier") {
        if !same_text(identifier.as_str(), doc.identifier.as_str()) {
            doc.path = None;
        }
        doc.identifier = identifier;
    }
    if let Some(name) = get_patch_text(patch, "name") {
        doc.name = name;
    }
    if let Some(description) = get_patch_text(patch, "description") {
        doc.description = description;
    }
    if let Some(Data::List(items)) = patch.get("exemplars") {
        doc.exemplars = keep_texts(items);
    }
}

fn set_servers(doc: &mut PlanDoc, patch: &Data) -> (r: Option<Data>)
    ensures
        (final(doc)@, data_view(r)) == with_servers(old(doc)@, patch@),
{
    match patch.get("requires_servers") {
        None => None,
        Some(Data::List(items)) => {
            doc.requires_servers = keep_texts(items);
            None
        },
        Some(_) => Some(
            error_data("requires_servers must be an array of server-name strings"),
        ),
    }
}

fn set_schema(doc: &mut PlanDoc, patch: &Data) -> (r: Option<Data>)
    ensures
        (final(doc)@, data_view(r)) == with_schema(old(doc)@, patch@),
{
    match patch.get("input_schema") {
        None => None,
        Some(Data::Null) => {
            doc.input_schema = None;
            None
        },
        Some(Data::Object(e)) => {
            doc.input_schema = Some(Data::Object(e.copy()));
            None
        },
        Some(_) => Some(
            error_data("input_schema must be a JSON Schema object (or null to clear)"),
        ),
    }
}

fn set_finish(doc: &mut PlanDoc, finish: &Data) -> (r: Option<Data>)
    ensures
        (final(doc)@, data_view(r)) == with_finish(old(doc)@, finish@),
{
    match (finish.get("solver"), finish.get("output")) {
        (Some(_), Some(_)) => Some(error_data("finish: pass 'solver' OR 'output', not both")),
        (None, None) => {
            let clear = match finish {
                Data::Null => true,
                Data::Object(e) => e.len() == 0,
                _ => false,
            };
            if clear {
                doc.solver = None;
                doc.output = None;
                None
            } else {
                Some(
                    error_data(
                        "finish requires 'solver' {queryToAnswer, systemPrompt?} or 'output' {<template map>}, or {} / null to clear to a silent plan",
                    ),
                )
            }
        },
        (Some(solver), None) => match check_value_as(
            solver,
            Record::Solver,
            "struct SolverData",
        ) {
            Some(problem) => Some(error_data(cat2("invalid solver: ", problem.as_str()).as_str())),
            None => {
                doc.solver = Some(SolverData::from_value(solver));
                doc.output = None;
                None
            },
        },
        (None, Some(output)) => match output {
            Data::Object(e) => {
                doc.output = Some(e.copy());
                doc.solver = None;
                None
            },
            other => Some(
                error_data(
                    cat2(
                        "invalid output: expected a template map — ",
                        crate::pipeline::record::mistyped(other, "a map").as_str(),
                    ).as_str(),
                ),
            ),
        },
    }
}

fn metadata_changes(patch: &Data) -> (r: bool)
    ensures
        r == changes_metadata(patch@),
{
    get_patch_text(patch, "identifier").is_some() || get_patch_text(patch, "name").is_some()
        || get_patch_text(patch, "description").is_some() || (match patch.get("exemplars") {
        Some(Data::List(_)) => true,
        _ => false,
    }) || patch.get("requires_servers").is_some() || patch.get("input_schema").is_some()
        || patch.get("finish").is_some()
}

/// Patches the document's plan-level fields: identifier, name, description,
/// exemplars, requires_servers, input_schema, and/or the finish type (solver ⇄
/// output).
pub fn patch_metadata(doc: &mut PlanDoc, patch: &Data) -> (r: Result<Data, Data>)
    ensures
        (final(doc)@, outcome_view(r)) == metadata_patched(old(doc)@, patch@),
{
    set_labels(doc, patch);
    if let Some(error) = set_servers(doc, patch) {
        return Err(error);
    }
    if let Some(error) = set_schema(doc, patch) {
        return Err(error);
    }
    if let Some(finish) = patch.get("finish") {
        if let Some(error) = set_finish(doc, finish) {
            return Err(error);
        }
    }
    if !metadata_changes(patch) {
        return Err(
            error_data(
                "update_metadata needs at least one of identifier, name, description, exemplars, requires_servers, input_schema, finish",
            ),
        );
    }
    Ok(
        obj3(
            "ok",
            Data::Bool(true),
            "identifier",
            Data::Text(doc.identifier.clone()),
            "name",
            Data::Text(doc.name.clone()),
        ),
    )
}

/// Where the first step of an id stands, from `i` on.
pub open spec fn step_at(steps: Seq<StepView>, id: Seq<char>, i: int) -> Option<int>
    decreases steps.len() - i,
{
    if i < 0 || i >= steps.len() {
        None
    } else if steps[i].id == id {
        Some(i)
    } else {
        step_at(steps, id, i + 1)
    }
}

/// The answer to an id that no step has: what exists.
pub open spec fn no_such_step(steps: Seq<StepView>, id: Seq<char>) -> Json {
    Json::Object(
        object(
            seq![
                ("error"@, Json::Text("no step with id '"@ + id + "'"@)),
                ("availableSteps"@, text_list(ids_of(steps))),
            ],
        ),
    )
}

fn id_list(steps: &Vec<Step>) -> (r: Vec<String>)
    ensures
        texts(r@) == ids_of(plan_view(steps@)),
{
    let mut out: Vec<String> = Vec::new();
    let mut i: usize = 0;
    while i < steps.len()
        invariant
            i <= steps@.len(),
            out@.len() == i,
            forall|k: int| 0 <= k < i ==> (#[trigger] out@[k])@ == steps@[k].id@,
        decreases steps.len() - i,
    {
        out.push(steps[i].id.clone());
        i += 1;
    }
    assert(texts(out@) =~= ids_of(plan_view(steps@)));
    out
}

/// Index of a top-level step by id, or a structured error listing what exists.
pub fn position_of(id: &str, steps: &Vec<Step>) -> (r: Result<usize, Data>)
    ensures
        match r {
            Ok(i) => i < steps@.len() && step_at(plan_view(steps@), id@, 0) == Some(i as int),
            Err(e) => step_at(plan_view(steps@), id@, 0) is None && e@ == no_such_step(
                plan_view(steps@),
                id@,
            ),
        },
{
    let ghost model = plan_view(steps@);
    let mut i: usize = 0;
    while i < steps.len()
        invariant
            i <= steps@.len(),
            model == plan_view(steps@),
            step_at(model, id@, 0) == step_at(model, id@, i as int),
        decreases steps.len() - i,
    {
        if same_text(steps[i].id.as_str(), id) {
            return Ok(i);
        }
        i += 1;
    }
    Err(
        obj2(
            "error",
            Data::Text(cat3("no step with id '", id, "'")),
            "availableSteps",
            text_array(&id_list(steps)),
        ),
    )
}

/// Where a patch puts a step: appended, or before or after an existing one.
pub open spec fn insertion(steps: Seq<StepView>, patch: Json) -> Result<int, Json> {
    match (patch_text(patch, "before"@), patch_text(patch, "after"@)) {
        (Some(_), Some(_)) => Err(error_json("pass 'before' or 'after', not both"@)),
        (Some(anchor), None) => match step_at(steps, anchor, 0) {
            Some(i) => Ok(i),
            None => Err(no_such_step(steps, anchor)),
        },
        (None, Some(anchor)) => match step_at(steps, anchor, 0) {
            Some(i) => Ok(i + 1),
            None => Err(no_such_step(steps, anchor)),
        },
        (None, None) => Ok(steps.len() as int),
    }
}

/// What is reported of an added step.
pub open spec fn added_summary(id: Seq<char>, index: int, steps: int) -> Json {
    Json::Object(
        object(
            seq![
                ("ok"@, Json::Bool(true)),
                ("id"@, Json::Text(id)),
                ("index"@, Json::Num(Num::Int(index))),
                ("steps"@, Json::Num(Num::Int(steps))),
            ],
        ),
    )
}

/// What adding a step makes of a document, and what is reported of it.
pub open spec fn step_added(doc: PlanDocView, patch: Json) -> (PlanDocView, Result<Json, Json>) {
    match member(patch, "step"@) {
        None => (
            doc,
            Err(
                error_json(
                    "add_step requires a 'step' object: {id, toolName, input, reasoning?}"@,
                ),
            ),
        ),
        Some(raw) => match step_of(raw) {
            Err(e) => (doc, Err(error_json("invalid step: "@ + e))),
            Ok(step) => match insertion(doc.steps, patch) {
                Err(e) => (doc, Err(e)),
                Ok(index) => (
                    PlanDocView { steps: doc.steps.insert(index, step), ..doc },
                    Ok(added_summary(step.id, index, doc.steps.len() as int + 1)),
                ),
            },
        },
    }
}

fn find_insertion(steps: &Vec<Step>, patch: &Data) -> (r: Result<usize, Data>)
    ensures
        match r {
            Ok(i) => i <= steps@.len() && insertion(plan_view(steps@), patch@) == Ok::<int, Json>(
                i as int,
            ),
            Err(e) => insertion(plan_view(steps@), patch@) == Err::<int, Json>(e@),
        },
{
    match (get_patch_text(patch, "before"), get_patch_text(patch, "after")) {
        (Some(_), Some(_)) => Err(error_data("pass 'before' or 'after', not both")),
        (Some(anchor), None) => position_of(anchor.as_str(), steps),
        (None, Some(anchor)) => match position_of(anchor.as_str(), steps) {
            Ok(i) => {
                let total: usize = steps.len();
                Ok(i + 1)
            },
            Err(e) => Err(e),
        },
        (None, None) => Ok(steps.len()),
    }
}

/// Inserts a step: appended, or anchored before/after an existing id.
pub fn patch_add_step(doc: &mut PlanDoc, patch: &Data) -> (r: Result<Data, Data>)
    ensures
        (final(doc)@, outcome_view(r)) == step_added(old(doc)@, patch@),
{
    let raw = match patch.get("step") {
        Some(raw) => raw,
        None => {
            return Err(
                error_data(
                    "add_step requires a 'step' object: {id, toolName, input, reasoning?}",
                ),
            );
        },
    };
    let step = match Step::from_value(raw) {
        Ok(step) => step,
        Err(e) => {
            return Err(error_data(cat2("invalid step: ", e.as_str()).as_str()));
        },
    };
    let index = match find_insertion(&doc.steps, patch) {
        Ok(index) => index,
        Err(e) => {
            return Err(e);
        },
    };
    let id = step.id.clone();
    let ghost before = doc.steps@;
    doc.steps.insert(index, step);
    assert(plan_view(doc.steps@) =~= plan_view(before).insert(index as int, step@));
    Ok(
        obj4(
            "ok",
            Data::Bool(true),
            "id",
            Data::Text(id),
            "index",
            Data::count(index),
            "steps",
            Data::count(doc.steps.len()),
        ),
    )
}

/// What is reported of a removed step.
pub open spec fn deleted_summary(id: Seq<char>, steps: int) -> Json {
    Json::Object(
        object(
            seq![
                ("ok"@, Json::Bool(true)),
                ("id"@, Json::Text(id)),
                ("steps"@, Json::Num(Num::Int(steps))),
            ],
        ),
    )
}

/// What removing a step makes of a document, and what is reported of it.
pub open spec fn step_deleted(doc: PlanDocView, patch: Json) -> (PlanDocView, Result<Json, Json>) {
    match patch_text(patch, "id"@) {
        None => (doc, Err(error_json("delete_step requires an 'id' string"@))),
        Some(id) => match step_at(doc.steps, id, 0) {
            None => (doc, Err(no_such_step(doc.steps, id))),
            Some(index) => (
                PlanDocView { steps: doc.steps.remove(index), ..doc },
                Ok(deleted_summary(id, doc.steps.len() - 1)),
            ),
        },
    }
}

/// Removes a step. The edit guard rejects the edit if later steps still
/// reference it: the problems say which templates dangle.
pub fn patch_delete_step(doc: &mut PlanDoc, patch: &Data) -> (r: Result<Data, Data>)
    ensures
        (final(doc)@, outcome_view(r)) == step_deleted(old(doc)@, patch@),
{
    let id = match get_patch_text(patch, "id") {
        Some(id) => id,
        None => {
            return Err(error_data("delete_step requires an 'id' string"));
        },
    };
    let index = match position_of(id.as_str(), &doc.steps) {
        Ok(index) => index,
        Err(e) => {
            return Err(e);
        },
    };
    let ghost before = doc.steps@;
    let _ = doc.steps.remove(index);
    assert(plan_view(doc.steps@) =~= plan_view(before).remove(index as int));
    Ok(
        obj3(
            "ok",
            Data::Bool(true),
            "id",
            Data::Text(id),
            "steps",
            Data::count(doc.steps.len()),
        ),
    )
}

// ── Renaming references ──────────────────────────────────────────────────

/// A value with every reference to a root renamed.
pub open spec fn rewritten(v: Json, old_root: Seq<char>, new_root: Seq<char>) -> Json
    decreases v,
{
    match v {
        Json::Text(s) => if occurs(s, "{{"@) {
            Json::Text(renamed(s, old_root, new_root))
        } else {
            v
        },
        Json::List(items) => Json::List(
            Seq::new(
                items.len(),
                |i: int|
                    if 0 <= i < items.len() {
                        rewritten(items[i], old_root, new_root)
                    } else {
                        Json::Null
                    },
            ),
        ),
        Json::Object(entries) => Json::Object(
            Seq::new(
                entries.len(),
                |i: int|
                    if 0 <= i < entries.len() {
                        (entries[i].0, rewritten(entries[i].1, old_root, new_root))
                    } else {
                        (Seq::empty(), Json::Null)
                    },
            ),
        ),
        other => other,
    }
}

/// The entries of an object with every reference to a root renamed.
pub open spec fn rewritten_entries(
    e: Entries,
    old_root: Seq<char>,
    new_root: Seq<char>,
) -> Entries {
    entries_of(rewritten(Json::Object(e), old_root, new_root))
}

/// A value with every reference to a root renamed.
pub fn rewrite_value_roots(v: &Data, old_root: &str, new_root: &str) -> (r: Data)
    ensures
        r@ == rewritten(v@, old_root@, new_root@),
    decreases v@,
{
    match v {
        Data::Text(s) => if contains_text(s.as_str(), "{{") {
            Data::Text(rewrite_root(s.as_str(), old_root, new_root))
        } else {
            v.copy()
        },
        Data::List(items) => {
            let ghost all = values_view(items@);
            let mut out: Vec<Data> = Vec::new();
            let mut i: usize = 0;
            while i < items.len()
                invariant
                    i <= items@.len(),
                    all == values_view(items@),
                    v@ == Json::List(all),
                    out@.len() == i,
                    forall|k: int|
                        0 <= k < i ==> (#[trigger] out@[k])@ == rewritten(
                            all[k],
                            old_root@,
                            new_root@,
                        ),
                decreases items.len() - i,
            {
                proof {
                    list_shrinks(v@, i as int);
                }
                out.push(rewrite_value_roots(&items[i], old_root, new_root));
                i += 1;
            }
            let r = Data::List(out);
            assert(r@->List_0 =~= rewritten(v@, old_root@, new_root@)->List_0);
            r
        },
        Data::Object(fields) => {
            let mut out = Fields::new();
            let mut i: usize = 0;
            proof {
                use_type_invariant(fields);
            }
            while i < fields.len()
                invariant
                    i <= fields@.len(),
                    ascending(fields@),
                    v@ == Json::Object(fields@),
                    out@.len() == i,
                    forall|k: int|
                        0 <= k < i ==> (#[trigger] out@[k]) == (
                            fields@[k].0,
                            rewritten(fields@[k].1, old_root@, new_root@),
                        ),
                decreases fields@.len() - i,
            {
                proof {
                    object_shrinks(v@, i as int);
                }
                out.append(
                    fields.key_at(i).clone(),
                    rewrite_value_roots(fields.value_at(i), old_root, new_root),
                );
                i += 1;
            }
            let r = Data::Object(out);
            assert(r@->Object_0 =~= rewritten(v@, old_root@, new_root@)->Object_0);
            r
        },
        _ => v.copy(),
    }
}

fn rewrite_fields(fields: &Fields, old_root: &str, new_root: &str) -> (r: Fields)
    ensures
        r@ == rewritten_entries(fields@, old_root@, new_root@),
{
    match rewrite_value_roots(&Data::Object(fields.copy()), old_root, new_root) {
        Data::Object(out) => out,
        _ => Fields::new(),
    }
}

/// The steps with references renamed in those after a position.
pub open spec fn steps_rewritten(
    steps: Seq<StepView>,
    index: int,
    old_root: Seq<char>,
    new_root: Seq<char>,
) -> Seq<StepView> {
    Seq::new(
        steps.len(),
        |i: int|
            if i > index {
                StepView {
                    input: rewritten_entries(steps[i].input, old_root, new_root),
                    ..steps[i]
                }
            } else {
                steps[i]
            },
    )
}

/// Solver data with references renamed.
pub open spec fn solver_rewritten(
    s: SolverDataView,
    old_root: Seq<char>,
    new_root: Seq<char>,
) -> SolverDataView {
    SolverDataView {
        query_to_answer: renamed(s.query_to_answer, old_root, new_root),
        system_prompt: match s.system_prompt {
            Some(p) => Some(renamed(p, old_root, new_root)),
            None => None,
        },
        data: rewritten_entries(s.data, old_root, new_root),
    }
}

/// A document with references renamed everywhere that can see a step's result:
/// later steps' inputs (which contain any control bodies), the output map, and
/// the solver templates.
pub open spec fn references_renamed(
    doc: PlanDocView,
    index: int,
    old_root: Seq<char>,
    new_root: Seq<char>,
) -> PlanDocView {
    PlanDocView {
        steps: steps_rewritten(doc.steps, index, old_root, new_root),
        output: match doc.output {
            Some(e) => Some(rewritten_entries(e, old_root, new_root)),
            None => None,
        },
        solver: match doc.solver {
            Some(s) => Some(solver_rewritten(s, old_root, new_root)),
            None => None,
        },
        ..doc
    }
}

/// After renaming a step id, rewrites `{{old.*}}` roots everywhere that can see
/// the step's result.
pub fn rename_references(doc: &mut PlanDoc, index: usize, old_root: &str, new_root: &str)
    ensures
        final(doc)@ == references_renamed(old(doc)@, index as int, old_root@, new_root@),
{
    let ghost before = doc@;
    let mut steps: Vec<Step> = Vec::new();
    let mut i: usize = 0;
    while i < doc.steps.len()
        invariant
            i <= doc.steps@.len(),
            doc@ == before,
            steps@.len() == i,
            forall|k: int|
                0 <= k < i ==> (#[trigger] steps@[k])@ == steps_rewritten(
                    before.steps,
                    index as int,
                    old_root@,
                    new_root@,
                )[k],
        decreases doc.steps.len() - i,
    {
        let mut step = doc.steps[i].copy();
        if i > index {
            step.input = rewrite_fields(&step.input, old_root, new_root);
        }
        steps.push(step);
        i += 1;
    }
    assert(plan_view(steps@) =~= steps_rewritten(
        before.steps,
        index as int,
        old_root@,
        new_root@,
    ));
    doc.steps = steps;
    let output = match &doc.output {
        Some(output) => Some(rewrite_fields(output, old_root, new_root)),
        None => None,
    };
    doc.output = output;
    let solver = match &doc.solver {
        Some(solver) => Some(
            SolverData {
                query_to_answer: rewrite_root(
                    solver.query_to_answer.as_str(),
                    old_root,
                    new_root,
                ),
                system_prompt: match &solver.system_prompt {
                    Some(p) => Some(rewrite_root(p.as_str(), old_root, new_root)),
                    None => None,
                },
                data: rewrite_fields(&solver.data, old_root, new_root),
            },
        ),
        None => None,
    };
    doc.solver = solver;
}

/// A step with the tool of a patch.
pub open spec fn retooled(step: StepView, patch: Json) -> StepView {
    match patch_text(patch, "toolName"@) {
        Some(tool) => StepView { tool_name: tool, ..step },
        None => step,
    }
}

/// A step with the input of a patch, where that is an object.
pub open spec fn reinput(step: StepView, patch: Json) -> StepView {
    match member(patch, "input"@) {
        Some(Json::Object(e)) => StepView { input: e, ..step },
        _ => step,
    }
}

/// A step with the reasoning of a patch; an empty one clears it.
pub open spec fn rereasoned(step: StepView, patch: Json) -> StepView {
    match patch_text(patch, "reasoning"@) {
        Some(reason) => StepView {
            reasoning: if reason.len() > 0 {
                Some(reason)
            } else {
                None
            },
            ..step
        },
        None => step,
    }
}

/// Whether a patch of a step changes anything.
pub open spec fn changes_step(patch: Json) -> bool {
    patch_text(patch, "toolName"@) is Some || member(patch, "input"@) is Some || patch_text(
        patch,
        "reasoning"@,
    ) is Some || patch_text(patch, "newId"@) is Some
}

/// A document with the step at a position replaced.
pub open spec fn with_step(doc: PlanDocView, index: int, step: StepView) -> PlanDocView {
    PlanDocView { steps: doc.steps.update(index, step), ..doc }
}

/// What is reported of a changed step.
pub open spec fn updated_summary(id: Seq<char>) -> Json {
    Json::Object(object(seq![("ok"@, Json::Bool(true)), ("id"@, Json::Text(id))]))
}

/// What patching a step makes of a document, and what is reported of it. A new
/// id renames the step and rewrites the references to it.
pub open spec fn step_updated(doc: PlanDocView, patch: Json) -> (PlanDocView, Result<Json, Json>) {
    match patch_text(patch, "id"@) {
        None => (doc, Err(error_json("update_step requires an 'id' string"@))),
        Some(id) => match step_at(doc.steps, id, 0) {
            None => (doc, Err(no_such_step(doc.steps, id))),
            Some(index) => {
                let tooled = retooled(doc.steps[index], patch);
                match member(patch, "input"@) {
                    Some(input) if !(input is Object) => (
                        with_step(doc, index, tooled),
                        Err(
                            error_json(
                                "'input' must be a JSON object — it replaces the step's whole input"@,
                            ),
                        ),
                    ),
                    _ => {
                        let step = rereasoned(reinput(tooled, patch), patch);
                        if !changes_step(patch) {
                            (
                                with_step(doc, index, step),
                                Err(
                                    error_json(
                                        "update_step needs at least one of newId, toolName, input, reasoning"@,
                                    ),
                                ),
                            )
                        } else {
                            match patch_text(patch, "newId"@) {
                                Some(new_id) if new_id != id => (
                                    references_renamed(
                                        with_step(
                                            doc,
                                            index,
                                            StepView { id: new_id, ..step },
                                        ),
                                        index,
                                        id,
                                        new_id,
                                    ),
                                    Ok(updated_summary(new_id)),
                                ),
                                _ => (with_step(doc, index, step), Ok(updated_summary(id))),
                            }
                        }
                    },
                }
            },
        },
    }
}

fn set_step(doc: &mut PlanDoc, index: usize, step: Step)
    requires
        index < old(doc).steps@.len(),
    ensures
        final(doc)@ == with_step(old(doc)@, index as int, step@),
        final(doc).steps@.len() == old(doc).steps@.len(),
{
    let ghost before = doc.steps@;
    doc.steps.set(index, step);
    assert(plan_view(doc.steps@) =~= plan_view(before).update(index as int, step@));
}

/// Patches one step's fields; `newId` renames it and rewrites downstream
/// `{{id.*}}` references so templates keep working.
pub fn patch_update_step(doc: &mut PlanDoc, patch: &Data) -> (r: Result<Data, Data>)
    ensures
        (final(doc)@, outcome_view(r)) == step_updated(old(doc)@, patch@),
{
    let id = match get_patch_text(patch, "id") {
        Some(id) => id,
        None => {
            return Err(error_data("update_step requires an 'id' string"));
        },
    };
    let index = match position_of(id.as_str(), &doc.steps) {
        Ok(index) => index,
        Err(e) => {
            return Err(e);
        },
    };
    let mut step = doc.steps[index].copy();
    assert(step@ == doc@.steps[index as int]);
    let mut changed = false;
    if let Some(tool_name) = get_patch_text(patch, "toolName") {
        step.tool_name = tool_name;
        changed = true;
    }
    match patch.get("input") {
        Some(Data::Object(map)) => {
            step.input = map.copy();
            changed = true;
        },
        Some(_) => {
            set_step(doc, index, step);
            return Err(
                error_data("'input' must be a JSON object — it replaces the step's whole input"),
            );
        },
        None => {},
    }
    if let Some(reasoning) = get_patch_text(patch, "reasoning") {
        step.reasoning = if reasoning.as_str().is_empty() {
            None
        } else {
            Some(reasoning)
        };
        changed = true;
    }
    let new_id = get_patch_text(patch, "newId");
    if !changed && new_id.is_none() {
        set_step(doc, index, step);
        return Err(
            error_data("update_step needs at least one of newId, toolName, input, reasoning"),
        );
    }
    match new_id {
        Some(new_id) => {
            if !same_text(new_id.as_str(), id.as_str()) {
                step.id = new_id.clone();
                set_step(doc, index, step);
                rename_references(doc, index, id.as_str(), new_id.as_str());
                Ok(obj2("ok", Data::Bool(true), "id", Data::Text(new_id)))
            } else {
                set_step(doc, index, step);
                Ok(obj2("ok", Data::Bool(true), "id", Data::Text(id)))
            }
        },
        None => {
            set_step(doc, index, step);
            Ok(obj2("ok", Data::Bool(true), "id", Data::Text(id)))
        },
    }
}

// ── Drafting ─────────────────────────────────────────────────────────────

/// The document that a planner's output becomes: a revision keeps the existing
/// document's identity and metadata and replaces its steps; a fresh draft
/// derives them from the goal.
pub open spec fn merged(
    existing: Option<PlanDocView>,
    goal: Seq<char>,
    output: PlannerOutputView,
) -> PlanDocView {
    match existing {
        Some(doc) => PlanDocView {
            steps: output.plan,
            solver: if doc.output is None {
                Some(output.solver_data)
            } else {
                doc.solver
            },
            ..doc
        },
        None => PlanDocView {
            identifier: match name_in(goal) {
                Some(name) => identifier_of(name),
                None => identifier_of(goal),
            },
            name: match name_in(goal) {
                Some(name) => name,
                None => display_name(goal),
            },
            description: goal,
            exemplars: Seq::empty(),
            requires_servers: Seq::empty(),
            input_schema: None,
            steps: output.plan,
            solver: Some(output.solver_data),
            output: None,
            path: None,
        },
    }
}

pub open spec fn doc_view(o: Option<PlanDoc>) -> Option<PlanDocView> {
    match o {
        Some(d) => Some(d@),
        None => None,
    }
}

/// Folds the planner's output into a document: a revision keeps the existing
/// document's identity and metadata (identifier, name, description, exemplars,
/// requires_servers) and replaces its steps; a fresh draft derives them from the
/// goal.
pub fn merge_planner_output(existing: Option<PlanDoc>, goal: &str, output: PlannerOutput) -> (r:
    PlanDoc)
    ensures
        r@ == merged(doc_view(existing), goal@, output@),
{
    match existing {
        Some(existing) => {
            let mut doc = existing;
            doc.steps = output.plan;
            // Preserve an `output` finish; otherwise refresh the solver.
            if doc.output.is_none() {
                doc.solver = Some(output.solver_data);
            }
            doc
        },
        None => {
            // A name the goal states explicitly ('named "the_goat"') is the
            // plan's identity; raw goal prose is only the fallback.
            let stated = stated_name(goal);
            let identifier = match &stated {
                Some(name) => identifier_from(name.as_str()),
                None => identifier_from(goal),
            };
            let name = match stated {
                Some(name) => name,
                None => name_from(goal),
            };
            let exemplars: Vec<String> = Vec::new();
            let requires_servers: Vec<String> = Vec::new();
            assert(texts(exemplars@) =~= Seq::<Seq<char>>::empty());
            assert(texts(requires_servers@) =~= Seq::<Seq<char>>::empty());
            PlanDoc {
                identifier,
                name,
                description: goal.to_string(),
                exemplars,
                requires_servers,
                input_schema: None,
                steps: output.plan,
                solver: Some(output.solver_data),
                output: None,
                path: None,
            }
        },
    }
}

// ── Writing ──────────────────────────────────────────────────────────────

/// Why a document was not written.
#[derive(Debug, PartialEq)]
pub enum WriteError {
    /// The destination holds a *different* plan. Overwriting would silently
    /// destroy it, so this is refused unless the caller forces it.
    IdentityMismatch { path: String, existing: String, identifier: String },
    /// A new document never lands on a file that is there.
    Exists { path: String },
    /// There is no directory to write a new document to.
    NoPlansDir,
    /// The file system refused.
    Io(String),
    /// The document does not print.
    Serialize(String),
}

/// The model of a [`WriteError`].
pub enum WriteErrorView {
    IdentityMismatch { path: Seq<char>, existing: Seq<char>, identifier: Seq<char> },
    Exists { path: Seq<char> },
    NoPlansDir,
    Io(Seq<char>),
    Serialize(Seq<char>),
}

impl WriteError {
    pub open spec fn view(&self) -> WriteErrorView {
        match self {
            WriteError::IdentityMismatch { path, existing, identifier } =>
                WriteErrorView::IdentityMismatch {
                path: path@,
                existing: existing@,
                identifier: identifier@,
            },
            WriteError::Exists { path } => WriteErrorView::Exists { path: path@ },
            WriteError::NoPlansDir => WriteErrorView::NoPlansDir,
            WriteError::Io(m) => WriteErrorView::Io(m@),
            WriteError::Serialize(m) => WriteErrorView::Serialize(m@),
        }
    }

    /// The error in words.
    pub fn message(&self) -> (r: String)
        ensures
            r@ == write_message(self@),
    {
        match self {
            WriteError::IdentityMismatch { path, existing, identifier } => cat6(
                path.as_str(),
                " holds plan '",
                existing.as_str(),
                "', not '",
                identifier.as_str(),
                "' — refusing to overwrite it",
            ),
            WriteError::Exists { path } => cat2(
                path.as_str(),
                " already exists — change the identifier or remove the file",
            ),
            WriteError::NoPlansDir => "no plans directory configured ([plans].paths)".to_owned(),
            WriteError::Io(m) => m.clone(),
            WriteError::Serialize(m) => m.clone(),
        }
    }
}

/// A write error in words.
pub open spec fn write_message(e: WriteErrorView) -> Seq<char> {
    match e {
        WriteErrorView::IdentityMismatch { path, existing, identifier } => path + " holds plan '"@
            + existing + "', not '"@ + identifier + "' — refusing to overwrite it"@,
        WriteErrorView::Exists { path } => path
            + " already exists — change the identifier or remove the file"@,
        WriteErrorView::NoPlansDir => "no plans directory configured ([plans].paths)"@,
        WriteErrorView::Io(m) => m,
        WriteErrorView::Serialize(m) => m,
    }
}

/// The name of the file that a new document is written to.
pub open spec fn new_file_name(doc: PlanDocView) -> Seq<char> {
    doc.identifier + ".yaml"@
}

/// The name of the file that a new document is written to.
pub fn file_name(doc: &PlanDoc) -> (r: String)
    ensures
        r@ == new_file_name(doc@),
{
    cat2(doc.identifier.as_str(), ".yaml")
}

/// Where a document is written. `candidate` is the file of that name in the
/// plans directory, and whether it is there already.
pub open spec fn destination(doc: PlanDocView, candidate: Option<(Seq<char>, bool)>) -> Result<
    Seq<char>,
    WriteErrorView,
> {
    match doc.path {
        Some(path) => Ok(path),
        None => match candidate {
            None => Err(WriteErrorView::NoPlansDir),
            Some((path, exists)) => if exists {
                Err(WriteErrorView::Exists { path })
            } else {
                Ok(path)
            },
        },
    }
}

pub open spec fn candidate_view(c: Option<(String, bool)>) -> Option<(Seq<char>, bool)> {
    match c {
        Some(p) => Some((p.0@, p.1)),
        None => None,
    }
}

pub open spec fn text_result(r: Result<String, WriteError>) -> Result<Seq<char>, WriteErrorView> {
    match r {
        Ok(s) => Ok(s@),
        Err(e) => Err(e@),
    }
}

/// Where a document should be written: back to the file it came from, or to
/// `<plans_dir>/<identifier>.yaml` for one that has no on-disk identity yet.
///
/// A new document never lands on an existing file: that path is reserved for
/// the plan already there, and [`patch_metadata`] clears `path` on an identifier
/// change precisely so a rename cannot overwrite the original.
pub fn target_path(doc: &PlanDoc, candidate: Option<(String, bool)>) -> (r: Result<
    String,
    WriteError,
>)
    ensures
        text_result(r) == destination(doc@, candidate_view(candidate)),
{
    match &doc.path {
        Some(path) => Ok(path.clone()),
        None => match candidate {
            None => Err(WriteError::NoPlansDir),
            Some((path, exists)) => if exists {
                Err(WriteError::Exists { path })
            } else {
                Ok(path)
            },
        },
    }
}

/// A document as the text of a plan file.
pub open spec fn yaml_text_of(doc: PlanDocView) -> Result<Seq<char>, WriteErrorView> {
    match yaml_printing(node_yaml(file_shape(doc))) {
        Ok(s) => Ok(s),
        Err(e) => Err(WriteErrorView::Serialize(e)),
    }
}

/// Serializes a document as the YAML a human would have written.
///
/// camelCase stays accepted on the way in, so this round-trips and normalizes
/// an older file in passing.
pub fn to_yaml(doc: &PlanDoc) -> (r: Result<String, WriteError>)
    ensures
        text_result(r) == yaml_text_of(doc@),
{
    match print_yaml(&node_to_yaml(&to_file_shape(doc))) {
        Ok(s) => Ok(s),
        Err(e) => Err(WriteError::Serialize(e)),
    }
}

/// The document as JSON, in the plan *file*'s shape. A caller that reads this
/// and a human who opens the file see one spelling.
pub fn to_json(doc: &PlanDoc) -> (r: Result<Data, WriteError>)
    ensures
        r matches Ok(v) && v@ == node_json(file_shape(doc@)),
{
    Ok(node_to_data(&to_file_shape(doc)))
}

/// The identifier that a YAML document gives, if it gives one.
pub open spec fn identifier_given(doc: YamlView) -> Option<Seq<char>> {
    match yaml_member(doc, "identifier"@) {
        Some(v) => yaml_text(v),
        None => None,
    }
}

/// The identifier that a YAML document gives, if it gives one.
pub fn identifier_in(doc: &serde_yaml::Value) -> (r: Option<String>)
    ensures
        text_view(r) == identifier_given(yaml_document(*doc)),
{
    match member_in(doc, "identifier") {
        Some(v) => match text_in(v) {
            Some(s) => Some(s.to_owned()),
            None => None,
        },
        None => None,
    }
}

/// The identifier of the plan in a file's text, if it can be parsed at all.
pub open spec fn identifier_on_disk(raw: Seq<char>) -> Option<Seq<char>> {
    match yaml_reading(raw) {
        Ok(doc) => identifier_given(doc),
        Err(_) => None,
    }
}

/// The `identifier` of the plan in a file's text, if it can be parsed at all:
/// garbled files give none and the write proceeds (it can't lose a plan that
/// isn't there).
pub fn on_disk_identifier(raw: &str) -> (r: Option<String>)
    ensures
        text_view(r) == identifier_on_disk(raw@),
{
    match read_yaml(raw) {
        Ok(doc) => identifier_in(&doc),
        Err(_) => None,
    }
}

/// Why a document may not be written over the plan that a file holds.
pub open spec fn overwrite_problem(
    doc: PlanDocView,
    path: Seq<char>,
    existing: Option<Seq<char>>,
    force: bool,
) -> Option<WriteErrorView> {
    match existing {
        Some(id) if !force && id != doc.identifier => Some(
            WriteErrorView::IdentityMismatch { path, existing: id, identifier: doc.identifier },
        ),
        _ => None,
    }
}

/// Refuses when the file already there holds a different `identifier`, unless
/// `force`.
pub fn check_overwrite(doc: &PlanDoc, path: &str, existing: Option<String>, force: bool) -> (r:
    Result<(), WriteError>)
    ensures
        match r {
            Ok(_) => overwrite_problem(doc@, path@, text_view(existing), force) is None,
            Err(e) => overwrite_problem(doc@, path@, text_view(existing), force) == Some(e@),
        },
{
    if !force {
        if let Some(existing) = existing {
            if !same_text(existing.as_str(), doc.identifier.as_str()) {
                return Err(
                    WriteError::IdentityMismatch {
                        path: path.to_owned(),
                        existing,
                        identifier: doc.identifier.clone(),
                    },
                );
            }
        }
    }
    Ok(())
}

pub open spec fn raw_view(o: Option<&str>) -> Option<Seq<char>> {
    match o {
        Some(s) => Some(s@),
        None => None,
    }
}

/// The text that a document is written as, given the text of the file at its
/// destination, where that could be read.
pub open spec fn written_text(
    doc: PlanDocView,
    path: Seq<char>,
    there: Option<Seq<char>>,
    force: bool,
) -> Result<Seq<char>, WriteErrorView> {
    let existing = match there {
        Some(raw) => identifier_on_disk(raw),
        None => None,
    };
    match overwrite_problem(doc, path, existing, force) {
        Some(e) => Err(e),
        None => yaml_text_of(doc),
    }
}

/// The text to write a document as. Refuses when the file already there holds a
/// different `identifier`, unless `force`. An unreadable or garbled destination
/// is not a mismatch: the write cannot lose a plan that isn't parseable.
pub fn prepare_write(doc: &PlanDoc, path: &str, there: Option<&str>, force: bool) -> (r: Result<
    String,
    WriteError,
>)
    ensures
        text_result(r) == written_text(doc@, path@, raw_view(there), force),
{
    let existing = match there {
        Some(raw) => on_disk_identifier(raw),
        None => None,
    };
    match check_overwrite(doc, path, existing, force) {
        Err(e) => Err(e),
        Ok(_) => to_yaml(doc),
    }
}

/// A document whose identifier changed has no file of its own any more, so it is
/// never written over the file that it came from.
pub proof fn a_renamed_plan_gets_a_new_file(doc: PlanDocView, patch: Json, there: (Seq<char>, bool))
    requires
        patch_text(patch, "identifier"@) is Some,
        patch_text(patch, "identifier"@) != Some(doc.identifier),
        metadata_patched(doc, patch).1 is Ok,
    ensures
        metadata_patched(doc, patch).0.path is None,
        destination(metadata_patched(doc, patch).0, Some(there)) == if there.1 {
            Err::<Seq<char>, WriteErrorView>(WriteErrorView::Exists { path: there.0 })
        } else {
            Ok::<Seq<char>, WriteErrorView>(there.0)
        },
{
}

} // verus!
