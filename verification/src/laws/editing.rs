//! Editing a plan document.

use crate::laws::objects::{
    lemma_holds_four, lemma_holds_one, lemma_holds_three, lemma_holds_two,
};
use crate::pipeline::authoring::{
    destination, doc_problems, insertion, judged_edit, merged, metadata_patched, new_file_name,
    only_texts, overwrite_problem, rewritten, rewritten_entries, step_added, step_at,
    step_deleted, step_updated, WriteErrorView,
};
use crate::pipeline::doc::PlanDocView;
use crate::pipeline::engine::error_json;
use crate::pipeline::body::ids_of;
use crate::pipeline::plan::{step_of, PlannerOutputView, StepView};
use crate::template::renamed;
use crate::text::{begins, ends, occurs};
use crate::value::{lookup, member, text_list, Entries, Json, Num};
use vstd::prelude::*;

verus! {

/// Whether `i` is the place of the first step with an id.
pub open spec fn stands_first(steps: Seq<StepView>, id: Seq<char>, i: int) -> bool {
    &&& 0 <= i < steps.len()
    &&& steps[i].id == id
    &&& forall|j: int| 0 <= j < i ==> (#[trigger] steps[j]).id != id
}

proof fn lemma_step_at(steps: Seq<StepView>, id: Seq<char>, from: int, i: int)
    requires
        0 <= from <= i,
        stands_first(steps, id, i),
    ensures
        step_at(steps, id, from) == Some(i),
    decreases i - from,
{
    if from < i {
        assert(steps[from].id != id);
        lemma_step_at(steps, id, from + 1, i);
    }
}

proof fn lemma_step_nowhere(steps: Seq<StepView>, id: Seq<char>, from: int)
    requires
        0 <= from,
        forall|j: int| 0 <= j < steps.len() ==> (#[trigger] steps[j]).id != id,
    ensures
        step_at(steps, id, from) is None,
    decreases steps.len() - from,
{
    if from < steps.len() {
        lemma_step_nowhere(steps, id, from + 1);
    }
}

proof fn lemma_step_found(steps: Seq<StepView>, id: Seq<char>, from: int)
    requires
        0 <= from,
    ensures
        step_at(steps, id, from) matches Some(i) ==> from <= i < steps.len() && steps[i].id == id,
    decreases steps.len() - from,
{
    if from < steps.len() {
        lemma_step_found(steps, id, from + 1);
    }
}

proof fn lemma_step_missing(steps: Seq<StepView>, id: Seq<char>, from: int)
    requires
        0 <= from,
        step_at(steps, id, from) is None,
    ensures
        forall|j: int| from <= j < steps.len() ==> (#[trigger] steps[j]).id != id,
    decreases steps.len() - from,
{
    if from < steps.len() {
        lemma_step_missing(steps, id, from + 1);
    }
}

/// An accepted update gives the step that it addresses the tool, the input, the
/// reasoning and the id that the patch holds, and leaves the others of them as they
/// were; no other step changes its id, its tool or its reasoning, and no earlier
/// step changes at all.
pub proof fn an_update_sets_what_the_patch_gives(
    doc: PlanDocView,
    patch: Json,
    id: Seq<char>,
    i: int,
)
    requires
        member(patch, "id"@) == Some(Json::Text(id)),
        stands_first(doc.steps, id, i),
        step_updated(doc, patch).1 is Ok,
    ensures
        ({
            let old_step = doc.steps[i];
            let after = step_updated(doc, patch).0;
            let new_step = after.steps[i];
            &&& after.steps.len() == doc.steps.len()
            &&& new_step.tool_name == match member(patch, "toolName"@) {
                Some(Json::Text(tool)) => tool,
                _ => old_step.tool_name,
            }
            &&& new_step.input == match member(patch, "input"@) {
                Some(Json::Object(e)) => e,
                _ => old_step.input,
            }
            &&& new_step.reasoning == match member(patch, "reasoning"@) {
                Some(Json::Text(why)) => if why == ""@ {
                    None
                } else {
                    Some(why)
                },
                _ => old_step.reasoning,
            }
            &&& new_step.id == match member(patch, "newId"@) {
                Some(Json::Text(new_id)) => new_id,
                _ => id,
            }
            &&& forall|j: int| 0 <= j < i ==> #[trigger] after.steps[j] == doc.steps[j]
            &&& forall|j: int|
                0 <= j < doc.steps.len() && j != i ==> (#[trigger] after.steps[j]).id
                    == doc.steps[j].id && after.steps[j].tool_name == doc.steps[j].tool_name
                    && after.steps[j].reasoning == doc.steps[j].reasoning
        }),
{
    lemma_step_at(doc.steps, id, 0, i);
    reveal_strlit("");
    if let Some(Json::Text(why)) = member(patch, "reasoning"@) {
        assert(why.len() == 0 ==> why =~= ""@);
    }
}

/// An update that keeps the id changes nothing but the step that it addresses.
pub proof fn an_update_without_a_new_id_changes_one_step(
    doc: PlanDocView,
    patch: Json,
    id: Seq<char>,
    i: int,
)
    requires
        member(patch, "id"@) == Some(Json::Text(id)),
        stands_first(doc.steps, id, i),
        step_updated(doc, patch).1 is Ok,
        member(patch, "newId"@) matches Some(Json::Text(new_id)) ==> new_id == id,
    ensures
        ({
            let after = step_updated(doc, patch).0;
            after == (PlanDocView { steps: doc.steps.update(i, after.steps[i]), ..doc })
        }),
{
    lemma_step_at(doc.steps, id, 0, i);
}

/// A text of an input after a renaming is the text with its root renamed.
proof fn lemma_renamed_text(e: Entries, key: Seq<char>, old_root: Seq<char>, new_root: Seq<char>)
    ensures
        match lookup(e, key) {
            Some(Json::Text(s)) => lookup(rewritten_entries(e, old_root, new_root), key) == Some(
                Json::Text(
                    if occurs(s, "{{"@) {
                        renamed(s, old_root, new_root)
                    } else {
                        s
                    },
                ),
            ),
            Some(Json::Null) | Some(Json::Bool(_)) | Some(Json::Num(_)) => lookup(
                rewritten_entries(e, old_root, new_root),
                key,
            ) == lookup(e, key),
            Some(_) => lookup(rewritten_entries(e, old_root, new_root), key) is Some,
            None => lookup(rewritten_entries(e, old_root, new_root), key) is None,
        },
    decreases e.len(),
{
    let after = rewritten_entries(e, old_root, new_root);
    if e.len() > 0 {
        assert(after[0] == (e[0].0, rewritten(e[0].1, old_root, new_root)));
        if e[0].0 != key {
            lemma_renamed_text(e.skip(1), key, old_root, new_root);
            assert(after.skip(1) =~= rewritten_entries(e.skip(1), old_root, new_root));
        }
    }
}

/// Where an update gives a step a new id, the texts of the later steps' inputs, of
/// the output and of the solver's data name it by the new one.
pub proof fn an_update_with_a_new_id_carries_the_references_over(
    doc: PlanDocView,
    patch: Json,
    id: Seq<char>,
    new_id: Seq<char>,
    i: int,
    key: Seq<char>,
    s: Seq<char>,
)
    requires
        member(patch, "id"@) == Some(Json::Text(id)),
        member(patch, "newId"@) == Some(Json::Text(new_id)),
        new_id != id,
        stands_first(doc.steps, id, i),
        step_updated(doc, patch).1 is Ok,
        occurs(s, "{{"@),
    ensures
        ({
            let after = step_updated(doc, patch).0;
            &&& forall|j: int|
                i < j < doc.steps.len() && lookup(doc.steps[j].input, key) == Some(Json::Text(s))
                    ==> lookup((#[trigger] after.steps[j]).input, key) == Some(
                    Json::Text(renamed(s, id, new_id)),
                )
            &&& doc.output matches Some(e) ==> after.output matches Some(f) && (lookup(e, key)
                == Some(Json::Text(s)) ==> lookup(f, key) == Some(
                Json::Text(renamed(s, id, new_id)),
            ))
            &&& doc.solver matches Some(before) ==> after.solver matches Some(solver) && (lookup(
                before.data,
                key,
            ) == Some(Json::Text(s)) ==> lookup(solver.data, key) == Some(
                Json::Text(renamed(s, id, new_id)),
            )) && solver.query_to_answer == renamed(before.query_to_answer, id, new_id)
            &&& doc.output is None ==> after.output is None
            &&& doc.solver is None ==> after.solver is None
            &&& after.identifier == doc.identifier
            &&& after.name == doc.name
            &&& after.description == doc.description
        }),
{
    lemma_step_at(doc.steps, id, 0, i);
    let after = step_updated(doc, patch).0;
    assert forall|j: int|
        i < j < doc.steps.len() && lookup(doc.steps[j].input, key) == Some(
            Json::Text(s),
        ) implies lookup((#[trigger] after.steps[j]).input, key) == Some(
        Json::Text(renamed(s, id, new_id)),
    ) by {
        lemma_renamed_text(doc.steps[j].input, key, id, new_id);
    }
    if let Some(e) = doc.output {
        lemma_renamed_text(e, key, id, new_id);
    }
    if let Some(before) = doc.solver {
        lemma_renamed_text(before.data, key, id, new_id);
    }
}

/// An update is refused where it names no step, gives an input that is no object, or
/// changes nothing; otherwise it says which step it made.
pub proof fn an_update_is_refused_only_for_a_reason(doc: PlanDocView, patch: Json)
    ensures
        match step_updated(doc, patch).1 {
            Ok(said) => {
                &&& member(patch, "id"@) matches Some(Json::Text(id)) && exists|i: int|
                    0 <= i < doc.steps.len() && (#[trigger] doc.steps[i]).id == id
                &&& member(said, "ok"@) == Some(Json::Bool(true))
                &&& member(said, "id"@) == match member(patch, "newId"@) {
                    Some(Json::Text(new_id)) => Some(Json::Text(new_id)),
                    _ => member(patch, "id"@),
                }
            },
            Err(said) => {
                &&& member(said, "error"@) is Some
                &&& {
                    ||| !(member(patch, "id"@) matches Some(Json::Text(_)))
                    ||| (member(patch, "id"@) matches Some(Json::Text(id)) && forall|i: int|
                        0 <= i < doc.steps.len() ==> (#[trigger] doc.steps[i]).id != id)
                    ||| (member(patch, "input"@) matches Some(v) && !(v is Object))
                    ||| {
                        &&& !(member(patch, "toolName"@) matches Some(Json::Text(_)))
                        &&& !(member(patch, "reasoning"@) matches Some(Json::Text(_)))
                        &&& !(member(patch, "newId"@) matches Some(Json::Text(_)))
                        &&& member(patch, "input"@) is None
                    }
                }
            },
        },
{
    reveal_strlit("ok");
    reveal_strlit("id");
    reveal_strlit("error");
    reveal_strlit("availableSteps");
    assert("ok"@[0] != "id"@[0]);
    assert("ok"@.len() != "error"@.len());
    assert("ok"@.len() != "availableSteps"@.len());
    assert("id"@.len() != "error"@.len());
    assert("id"@.len() != "availableSteps"@.len());
    assert("error"@.len() != "availableSteps"@.len());
    assert forall|m: Seq<char>| member(#[trigger] error_json(m), "error"@) == Some(
        Json::Text(m),
    ) by {
        lemma_holds_one("error"@, Json::Text(m), "error"@);
    }
    if let Some(Json::Text(id)) = member(patch, "id"@) {
        if let Some(i) = step_at(doc.steps, id, 0) {
            lemma_step_found(doc.steps, id, 0);
            let new_id = match member(patch, "newId"@) {
                Some(Json::Text(t)) => t,
                _ => id,
            };
            let ok = Json::Bool(true);
            lemma_holds_two("ok"@, ok, "id"@, Json::Text(new_id), "ok"@);
            lemma_holds_two("ok"@, ok, "id"@, Json::Text(new_id), "id"@);
        } else {
            lemma_step_missing(doc.steps, id, 0);
            lemma_holds_two(
                "error"@,
                Json::Text("no step with id '"@ + id + "'"@),
                "availableSteps"@,
                text_list(ids_of(doc.steps)),
                "error"@,
            );
        }
    }
}

/// An accepted addition puts the step that the patch holds right before or right
/// after the step it names, or last, and changes nothing else.
pub proof fn an_addition_puts_the_step_where_the_patch_says(
    doc: PlanDocView,
    patch: Json,
    raw: Json,
    step: StepView,
)
    requires
        member(patch, "step"@) == Some(raw),
        step_of(raw) == Ok::<StepView, Seq<char>>(step),
        step_added(doc, patch).1 is Ok,
    ensures
        ({
            let after = step_added(doc, patch).0;
            let said = step_added(doc, patch).1->Ok_0;
            &&& after.steps.len() == doc.steps.len() + 1
            &&& after == (PlanDocView { steps: after.steps, ..doc })
            &&& member(said, "ok"@) == Some(Json::Bool(true))
            &&& member(said, "id"@) == Some(Json::Text(step.id))
            &&& member(said, "steps"@) == Some(Json::Num(Num::Int(after.steps.len() as int)))
            &&& member(said, "index"@) matches Some(Json::Num(Num::Int(at))) && 0 <= at
                < after.steps.len() && after.steps[at] == step && after.steps.remove(at)
                == doc.steps && (match (member(patch, "before"@), member(patch, "after"@)) {
                (Some(Json::Text(anchor)), _) => at + 1 < after.steps.len() && after.steps[at
                    + 1].id == anchor,
                (_, Some(Json::Text(anchor))) => at > 0 && after.steps[at - 1].id == anchor,
                _ => at + 1 == after.steps.len(),
            })
        }),
{
    reveal_strlit("ok");
    reveal_strlit("id");
    reveal_strlit("index");
    reveal_strlit("steps");
    assert("ok"@[0] != "id"@[0]);
    assert("ok"@.len() != "index"@.len());
    assert("ok"@.len() != "steps"@.len());
    assert("id"@.len() != "index"@.len());
    assert("id"@.len() != "steps"@.len());
    assert("index"@[0] != "steps"@[0]);
    let after = step_added(doc, patch).0;
    let at = insertion(doc.steps, patch)->Ok_0;
    if let Some(Json::Text(anchor)) = member(patch, "before"@) {
        lemma_step_found(doc.steps, anchor, 0);
    }
    if let Some(Json::Text(anchor)) = member(patch, "after"@) {
        lemma_step_found(doc.steps, anchor, 0);
    }
    assert(after.steps.remove(at) =~= doc.steps);
    let ok = Json::Bool(true);
    let id = Json::Text(step.id);
    let index = Json::Num(Num::Int(at));
    let count = Json::Num(Num::Int(doc.steps.len() as int + 1));
    lemma_holds_four("ok"@, ok, "id"@, id, "index"@, index, "steps"@, count, "ok"@);
    lemma_holds_four("ok"@, ok, "id"@, id, "index"@, index, "steps"@, count, "id"@);
    lemma_holds_four("ok"@, ok, "id"@, id, "index"@, index, "steps"@, count, "index"@);
    lemma_holds_four("ok"@, ok, "id"@, id, "index"@, index, "steps"@, count, "steps"@);
}

/// An accepted deletion takes out the step with the id that the patch names, and
/// nothing else.
pub proof fn a_deletion_takes_out_the_named_step(
    doc: PlanDocView,
    patch: Json,
    id: Seq<char>,
    i: int,
)
    requires
        member(patch, "id"@) == Some(Json::Text(id)),
        stands_first(doc.steps, id, i),
    ensures
        step_deleted(doc, patch).1 matches Ok(said) && member(said, "ok"@) == Some(
            Json::Bool(true),
        ) && member(said, "id"@) == Some(Json::Text(id)) && member(said, "steps"@) == Some(
            Json::Num(Num::Int(doc.steps.len() - 1)),
        ),
        step_deleted(doc, patch).0 == (PlanDocView {
            steps: doc.steps.take(i) + doc.steps.skip(i + 1),
            ..doc
        }),
{
    reveal_strlit("ok");
    reveal_strlit("id");
    reveal_strlit("steps");
    assert("ok"@[0] != "id"@[0]);
    assert("ok"@.len() != "steps"@.len());
    assert("id"@.len() != "steps"@.len());
    lemma_step_at(doc.steps, id, 0, i);
    let ok = Json::Bool(true);
    let count = Json::Num(Num::Int(doc.steps.len() - 1));
    lemma_holds_three("ok"@, ok, "id"@, Json::Text(id), "steps"@, count, "ok"@);
    lemma_holds_three("ok"@, ok, "id"@, Json::Text(id), "steps"@, count, "id"@);
    lemma_holds_three("ok"@, ok, "id"@, Json::Text(id), "steps"@, count, "steps"@);
    assert(doc.steps.remove(i) =~= doc.steps.take(i) + doc.steps.skip(i + 1));
}

/// Deleting the step that was just added gives the document back.
pub proof fn deleting_what_was_added_undoes_it(
    doc: PlanDocView,
    patch: Json,
    raw: Json,
    step: StepView,
    undo: Json,
)
    requires
        member(patch, "step"@) == Some(raw),
        step_of(raw) == Ok::<StepView, Seq<char>>(step),
        step_added(doc, patch).1 is Ok,
        forall|j: int| 0 <= j < doc.steps.len() ==> (#[trigger] doc.steps[j]).id != step.id,
        member(undo, "id"@) == Some(Json::Text(step.id)),
    ensures
        step_deleted(step_added(doc, patch).0, undo).0 == doc,
        step_deleted(step_added(doc, patch).0, undo).1 is Ok,
{
    an_addition_puts_the_step_where_the_patch_says(doc, patch, raw, step);
    let after = step_added(doc, patch).0;
    let at = insertion(doc.steps, patch)->Ok_0;
    if let Some(Json::Text(anchor)) = member(patch, "before"@) {
        lemma_step_found(doc.steps, anchor, 0);
    }
    if let Some(Json::Text(anchor)) = member(patch, "after"@) {
        lemma_step_found(doc.steps, anchor, 0);
    }
    assert(after.steps == doc.steps.insert(at, step));
    assert forall|j: int| 0 <= j < at implies (#[trigger] after.steps[j]).id != step.id by {
        assert(after.steps[j] == doc.steps[j]);
    }
    a_deletion_takes_out_the_named_step(after, undo, step.id, at);
    assert(after.steps.take(at) + after.steps.skip(at + 1) =~= doc.steps);
}

/// The texts among some values, in order.
pub open spec fn holds_texts_of(found: Seq<Seq<char>>, items: Seq<Json>) -> bool {
    (forall|i: int| 0 <= i < items.len() ==> (#[trigger] items[i]) is Text) ==> found.len()
        == items.len() && forall|i: int| 0 <= i < items.len() ==> items[i] == Json::Text(
        #[trigger] found[i],
    )
}

proof fn lemma_only_texts(items: Seq<Json>, n: int)
    requires
        0 <= n <= items.len(),
        forall|i: int| 0 <= i < items.len() ==> (#[trigger] items[i]) is Text,
    ensures
        only_texts(items, n).len() == n,
        forall|i: int| 0 <= i < n ==> items[i] == Json::Text(#[trigger] only_texts(items, n)[i]),
    decreases n,
{
    if n > 0 {
        assert(items[n - 1] is Text);
        lemma_only_texts(items, n - 1);
    }
}

/// An accepted change of the metadata sets each of the fields that the patch holds,
/// leaves the others as they were, and touches no step.
pub proof fn a_metadata_edit_sets_what_the_patch_gives(doc: PlanDocView, patch: Json)
    requires
        metadata_patched(doc, patch).1 is Ok,
    ensures
        ({
            let after = metadata_patched(doc, patch).0;
            let said = metadata_patched(doc, patch).1->Ok_0;
            &&& after.steps == doc.steps
            &&& after.identifier == match member(patch, "identifier"@) {
                Some(Json::Text(t)) => t,
                _ => doc.identifier,
            }
            &&& after.name == match member(patch, "name"@) {
                Some(Json::Text(t)) => t,
                _ => doc.name,
            }
            &&& after.description == match member(patch, "description"@) {
                Some(Json::Text(t)) => t,
                _ => doc.description,
            }
            &&& match member(patch, "exemplars"@) {
                Some(Json::List(items)) => holds_texts_of(after.exemplars, items),
                _ => after.exemplars == doc.exemplars,
            }
            &&& match member(patch, "requires_servers"@) {
                Some(Json::List(items)) => holds_texts_of(after.requires_servers, items),
                None => after.requires_servers == doc.requires_servers,
                _ => false,
            }
            &&& after.input_schema == match member(patch, "input_schema"@) {
                Some(Json::Object(e)) => Some(Json::Object(e)),
                Some(_) => None,
                None => doc.input_schema,
            }
            &&& (after.path == doc.path || (after.path is None && after.identifier
                != doc.identifier))
            &&& after.identifier == doc.identifier ==> after.path == doc.path
            &&& member(said, "ok"@) == Some(Json::Bool(true))
            &&& member(said, "identifier"@) == Some(Json::Text(after.identifier))
            &&& member(said, "name"@) == Some(Json::Text(after.name))
        }),
{
    reveal_strlit("ok");
    reveal_strlit("identifier");
    reveal_strlit("name");
    assert("ok"@.len() != "identifier"@.len());
    assert("ok"@.len() != "name"@.len());
    assert("identifier"@.len() != "name"@.len());
    let after = metadata_patched(doc, patch).0;
    if let Some(Json::List(items)) = member(patch, "exemplars"@) {
        if forall|i: int| 0 <= i < items.len() ==> (#[trigger] items[i]) is Text {
            lemma_only_texts(items, items.len() as int);
        }
    }
    if let Some(Json::List(items)) = member(patch, "requires_servers"@) {
        if forall|i: int| 0 <= i < items.len() ==> (#[trigger] items[i]) is Text {
            lemma_only_texts(items, items.len() as int);
        }
    }
    let ok = Json::Bool(true);
    let id = Json::Text(after.identifier);
    let name = Json::Text(after.name);
    lemma_holds_three("ok"@, ok, "identifier"@, id, "name"@, name, "ok"@);
    lemma_holds_three("ok"@, ok, "identifier"@, id, "name"@, name, "identifier"@);
    lemma_holds_three("ok"@, ok, "identifier"@, id, "name"@, name, "name"@);
}

/// A plan ends with what `finish` gives it: a solver, an output, or neither; and
/// as it did where the patch does not say.
pub proof fn a_finish_is_a_solver_or_an_output(doc: PlanDocView, patch: Json)
    requires
        metadata_patched(doc, patch).1 is Ok,
    ensures
        ({
            let after = metadata_patched(doc, patch).0;
            match member(patch, "finish"@) {
                None => after.solver == doc.solver && after.output == doc.output,
                Some(finish) => match (member(finish, "solver"@), member(finish, "output"@)) {
                    (Some(_), Some(_)) => false,
                    (Some(solver), None) => {
                        &&& after.output is None
                        &&& after.solver matches Some(s)
                        &&& member(solver, "queryToAnswer"@) matches Some(Json::Text(q))
                            ==> s.query_to_answer == q
                    },
                    (None, Some(output)) => {
                        &&& after.solver is None
                        &&& after.output matches Some(e)
                        &&& output == Json::Object(e)
                    },
                    (None, None) => after.solver is None && after.output is None && (finish
                        is Null || finish == Json::Object(Seq::empty())),
                },
            }
        }),
{
    if let Some(finish) = member(patch, "finish"@) {
        if let Json::Object(e) = finish {
            if e.len() == 0 {
                assert(e =~= Seq::empty());
            }
        }
    }
}

/// A problem that an edit brings is reported as such, and so is one that was there.
pub proof fn a_rejected_edit_says_what_it_would_bring(
    doc: PlanDocView,
    edited: PlanDocView,
    summary: Json,
    p: Seq<char>,
)
    requires
        judged_edit(doc, edited, Ok(summary)) is Err,
    ensures
        ({
            let e = judged_edit(doc, edited, Ok(summary))->Err_0;
            &&& e.introduced.contains(p) == (doc_problems(edited).contains(p) && !doc_problems(
                doc,
            ).contains(p))
            &&& e.pre_existing.contains(p) == (doc_problems(edited).contains(p) && doc_problems(
                doc,
            ).contains(p))
            &&& member(e.body, "error"@) is Some
            &&& member(e.body, "problemsIntroduced"@) == Some(text_list(e.introduced))
            &&& member(e.body, "preExistingProblems"@) == (if e.pre_existing.len() > 0 {
                Some(text_list(e.pre_existing))
            } else {
                None
            })
        }),
{
    reveal_strlit("error");
    reveal_strlit("problemsIntroduced");
    reveal_strlit("preExistingProblems");
    assert("error"@.len() != "problemsIntroduced"@.len());
    assert("error"@.len() != "preExistingProblems"@.len());
    assert("problemsIntroduced"@.len() != "preExistingProblems"@.len());
    let before = doc_problems(doc);
    let after = doc_problems(edited);
    let fresh = |q: Seq<char>| !before.contains(q);
    let known = |q: Seq<char>| before.contains(q);
    lemma_filtered(after, fresh, p);
    lemma_filtered(after, known, p);
    let e = judged_edit(doc, edited, Ok(summary))->Err_0;
    let told = Json::Text(
        "edit rejected — it would introduce new validation problems (the draft is unchanged)"@,
    );
    let a = text_list(e.introduced);
    let b = text_list(e.pre_existing);
    let k1 = "error"@;
    let k2 = "problemsIntroduced"@;
    let k3 = "preExistingProblems"@;
    lemma_holds_two(k1, told, k2, a, k1);
    lemma_holds_two(k1, told, k2, a, k2);
    lemma_holds_two(k1, told, k2, a, k3);
    lemma_holds_three(k1, told, k2, a, k3, b, k1);
    lemma_holds_three(k1, told, k2, a, k3, b, k2);
    lemma_holds_three(k1, told, k2, a, k3, b, k3);
}

/// A filter keeps exactly what its test accepts.
pub proof fn lemma_filtered<A>(s: Seq<A>, keep: spec_fn(A) -> bool, x: A)
    ensures
        s.filter(keep).contains(x) == (s.contains(x) && keep(x)),
{
    if s.filter(keep).contains(x) {
        let i = choose|i: int| 0 <= i < s.filter(keep).len() && s.filter(keep)[i] == x;
        s.lemma_filter_pred(keep, i);
        s.lemma_filter_contains_rev(keep, x);
    }
    if s.contains(x) && keep(x) {
        let i = choose|i: int| 0 <= i < s.len() && s[i] == x;
        s.lemma_filter_contains(keep, i);
    }
}

/// A plan that a planner drafted for a document replaces its steps; the solver is
/// replaced too unless the document ends with an output. What is new is described by
/// its goal.
pub proof fn a_drafted_plan_becomes_the_documents_plan(
    existing: Option<PlanDocView>,
    goal: Seq<char>,
    output: PlannerOutputView,
)
    ensures
        ({
            let doc = merged(existing, goal, output);
            &&& doc.steps == output.plan
            &&& existing matches Some(was) ==> {
                &&& doc.solver == if was.output is Some {
                    was.solver
                } else {
                    Some(output.solver_data)
                }
                &&& doc == (PlanDocView { steps: doc.steps, solver: doc.solver, ..was })
            }
            &&& existing is None ==> {
                &&& doc.description == goal
                &&& doc.solver == Some(output.solver_data)
                &&& doc.output is None
                &&& doc.path is None
                &&& doc.input_schema is None
                &&& doc.exemplars.len() == 0
                &&& doc.requires_servers.len() == 0
            }
        }),
{
}

/// A document is written to the file it came from; a new one to a file that is not
/// there yet, named after the plan. A file that holds another plan is left alone
/// unless the caller insists.
pub proof fn a_document_is_written_to_its_own_file(
    doc: PlanDocView,
    candidate: Option<(Seq<char>, bool)>,
    path: Seq<char>,
    existing: Option<Seq<char>>,
    force: bool,
)
    ensures
        doc.path matches Some(own) ==> destination(doc, candidate) == Ok::<
            Seq<char>,
            WriteErrorView,
        >(own),
        doc.path is None ==> match candidate {
            Some((free, false)) => destination(doc, candidate) == Ok::<Seq<char>, WriteErrorView>(
                free,
            ),
            _ => destination(doc, candidate) is Err,
        },
        ends(new_file_name(doc), ".yaml"@),
        begins(new_file_name(doc), doc.identifier),
        overwrite_problem(doc, path, existing, force) is Some <==> !force && existing is Some
            && existing != Some(doc.identifier),
{
    let name = new_file_name(doc);
    assert(name.subrange(name.len() - ".yaml"@.len(), name.len() as int) =~= ".yaml"@);
    assert(name.subrange(0, doc.identifier.len() as int) =~= doc.identifier);
}

} // verus!
