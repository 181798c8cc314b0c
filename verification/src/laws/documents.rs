//! Plans and plan documents: what is read, and what is sound.

use crate::laws::agents::holds_text;
use crate::laws::objects::lemma_holds_two;
use crate::pipeline::agent::agent_problems;
use crate::pipeline::ask::ask_problems;
use crate::pipeline::authoring::{
    doc_problems, step_input_problems, steps_problems, steps_problems_before,
};
use crate::pipeline::body::{ids_of, is_namespaced};
use crate::pipeline::decision::decide_problems;
use crate::pipeline::doc::{
    before_step, defaulted, description_of, doc_at, doc_of, doc_problem, doc_step_problem,
    doc_steps_problem, finish_of, input_schema_of, is_plan_file_name, is_tool_safe, loaded,
    plan_input_problems, templates_fault, with_defaults, DocErrorView, FinishView, PlanDocView,
};
use crate::pipeline::filter::filter_problems;
use crate::pipeline::iterate::{map_problems, reduce_problems};
use crate::pipeline::plan::{
    id_problem, number_in_id, planner_output_of, reference, solver_in, step_of, whole_plan_data,
    workbench_problem, StepView,
};
use crate::pipeline::record::{list_problem, record_value_problem, value_problem, Shape};
use crate::pipeline::references::root_problem;
use crate::pipeline::schema::{schema_errors, schema_fault};
use crate::template::paths::lemma_numeral;
use crate::template::roots_of;
use crate::text::{begins, ends, numeral};
use crate::value::{a_set_key_reads_back, lookup, member, Entries, Json};
use vstd::prelude::*;

verus! {

/// A step is read as it is written.
pub proof fn a_step_is_what_is_written(e: Entries)
    requires
        step_of(Json::Object(e)) is Ok,
    ensures
        ({
            let s = step_of(Json::Object(e))->Ok_0;
            &&& lookup(e, "id"@) == Some(Json::Text(s.id))
            &&& lookup(e, "toolName"@) == Some(Json::Text(s.tool_name)) || (lookup(e, "toolName"@)
                is None && lookup(e, "tool_name"@) == Some(Json::Text(s.tool_name)))
            &&& lookup(e, "input"@) == Some(Json::Object(s.input))
            &&& s.reasoning == match lookup(e, "reasoning"@) {
                Some(Json::Text(t)) => Some(t),
                _ => None,
            }
        }),
{
    crate::laws::reading::a_step_is_read_only_whole(e);
}

/// A list gives a step its fields in order.
pub proof fn a_listed_step_has_its_fields_in_order(
    id: Seq<char>,
    tool: Seq<char>,
    input: Entries,
    reason: Seq<char>,
)
    ensures
        step_of(
            Json::List(
                seq![
                    Json::Text(id),
                    Json::Text(tool),
                    Json::Object(input),
                    Json::Text(reason),
                ],
            ),
        ) == Ok::<StepView, Seq<char>>(
            StepView { id, tool_name: tool, input, reasoning: Some(reason) },
        ),
{
    reveal_strlit("id");
    reveal_strlit("toolName");
    reveal_strlit("tool_name");
    reveal_strlit("input");
    reveal_strlit("reasoning");
    assert("id"@.len() != "toolName"@.len());
    assert("id"@.len() != "tool_name"@.len());
    assert("id"@.len() != "input"@.len());
    assert("id"@.len() != "reasoning"@.len());
    assert("toolName"@.len() != "tool_name"@.len());
    assert("toolName"@.len() != "input"@.len());
    assert("toolName"@.len() != "reasoning"@.len());
    assert("tool_name"@.len() != "input"@.len());
    assert("tool_name"@[0] != "reasoning"@[0]);
    assert("input"@.len() != "reasoning"@.len());
    let items = seq![Json::Text(id), Json::Text(tool), Json::Object(input), Json::Text(reason)];
    let record = crate::pipeline::record::Record::Step;
    let name = "struct Step"@;
    assert(value_problem(items[0], Shape::Text) is None);
    assert(value_problem(items[1], Shape::Text) is None);
    assert(value_problem(items[2], Shape::Object) is None);
    assert(value_problem(items[3], Shape::OptText) is None);
    assert(list_problem(items, record, name, 4) is None);
    assert(list_problem(items, record, name, 3) is None);
    assert(list_problem(items, record, name, 2) is None);
    assert(list_problem(items, record, name, 1) is None);
    assert(list_problem(items, record, name, 0) is None);
    assert(record_value_problem(Json::List(items), record, name) is None);
    let pairs = seq![
        ("id"@, items[0]),
        ("toolName"@, items[1]),
        ("input"@, items[2]),
        ("reasoning"@, items[3]),
    ];
    assert(crate::pipeline::record::listed(items, record) =~= pairs);
    assert forall|key: Seq<char>| #[trigger] lookup(crate::value::object(pairs), key) == (if key
        == "id"@ {
        Some(items[0])
    } else if key == "toolName"@ {
        Some(items[1])
    } else if key == "input"@ {
        Some(items[2])
    } else if key == "reasoning"@ {
        Some(items[3])
    } else {
        None
    }) by {
        crate::laws::objects::lemma_holds_four(
            "id"@,
            items[0],
            "toolName"@,
            items[1],
            "input"@,
            items[2],
            "reasoning"@,
            items[3],
            key,
        );
    }
}

/// The solver's data is read as it is written; what is not there is empty.
pub proof fn solver_data_is_what_is_written(e: Entries)
    ensures
        ({
            let s = solver_in(Json::Object(e));
            &&& lookup(e, "queryToAnswer"@) matches Some(Json::Text(t)) ==> s.query_to_answer == t
            &&& lookup(e, "queryToAnswer"@) is None ==> (lookup(e, "query_to_answer"@) matches Some(
                Json::Text(t),
            ) ==> s.query_to_answer == t)
            &&& lookup(e, "queryToAnswer"@) is None && lookup(e, "query_to_answer"@) is None
                ==> s.query_to_answer.len() == 0
            &&& lookup(e, "systemPrompt"@) matches Some(Json::Text(t)) ==> s.system_prompt == Some(
                t,
            )
            &&& lookup(e, "systemPrompt"@) is None ==> s.system_prompt == match lookup(
                e,
                "system_prompt"@,
            ) {
                Some(Json::Text(t)) => Some(t),
                _ => None,
            }
            &&& lookup(e, "data"@) matches Some(Json::Object(d)) ==> s.data == d
            &&& lookup(e, "data"@) is None ==> s.data.len() == 0
        }),
{
}

/// A planner's output is read as it is written: its steps in order, and the solver's
/// data.
pub proof fn a_planners_output_is_what_is_written(e: Entries, items: Seq<Json>, i: int)
    requires
        planner_output_of(Json::Object(e)) is Ok,
        lookup(e, "plan"@) == Some(Json::List(items)),
    ensures
        ({
            let o = planner_output_of(Json::Object(e))->Ok_0;
            &&& o.plan.len() == items.len()
            &&& 0 <= i < items.len() ==> step_of(items[i]) == Ok::<StepView, Seq<char>>(o.plan[i])
            &&& lookup(e, "solverData"@) matches Some(v) ==> o.solver_data == solver_in(v)
        }),
{
    crate::laws::reading::a_planners_output_is_read_only_whole(e);
    if 0 <= i < items.len() {
        assert(step_of(items[i]) is Ok);
    }
}

/// A document is read as it is written.
pub proof fn a_document_is_what_is_written(e: Entries, i: int)
    requires
        doc_of(Json::Object(e)) is Ok,
    ensures
        ({
            let d = doc_of(Json::Object(e))->Ok_0;
            &&& lookup(e, "identifier"@) == Some(Json::Text(d.identifier))
            &&& lookup(e, "name"@) == Some(Json::Text(d.name))
            &&& lookup(e, "description"@) == Some(Json::Text(d.description))
            &&& lookup(e, "steps"@) matches Some(Json::List(items)) && d.steps.len() == items.len()
                && (0 <= i < items.len() ==> step_of(items[i]) == Ok::<StepView, Seq<char>>(
                d.steps[i],
            ))
            &&& d.input_schema == match lookup(e, "input_schema"@) {
                Some(Json::Null) => None,
                other => other,
            }
            &&& d.output == match lookup(e, "output"@) {
                Some(Json::Object(o)) => Some(o),
                _ => None,
            }
            &&& match lookup(e, "solver"@) {
                Some(v) => if v is Null {
                    d.solver is None
                } else {
                    d.solver == Some(solver_in(v))
                },
                None => d.solver is None,
            }
            &&& lookup(e, "exemplars"@) matches Some(Json::List(items)) ==> d.exemplars.len()
                == items.len() && (0 <= i < items.len() ==> (items[i] matches Json::Text(t)
                ==> d.exemplars[i] == t))
            &&& lookup(e, "exemplars"@) is None ==> d.exemplars.len() == 0
            &&& lookup(e, "requires_servers"@) matches Some(Json::List(items))
                ==> d.requires_servers.len() == items.len() && (0 <= i < items.len() ==> (items[i]
                matches Json::Text(t) ==> d.requires_servers[i] == t))
            &&& lookup(e, "requires_servers"@) is None ==> d.requires_servers.len() == 0
            &&& d.path is None
        }),
{
    crate::laws::reading::a_document_is_read_only_whole(e);
    if let Some(Json::List(items)) = lookup(e, "steps"@) {
        if 0 <= i < items.len() {
            assert(step_of(items[i]) is Ok);
        }
    }
}

/// A step id is a letter or an underscore and then letters, digits and underscores,
/// and is none of the names that templates keep for themselves.
pub proof fn a_step_id_is_a_name_of_its_own(id: Seq<char>, i: int)
    requires
        id_problem(id) is None,
    ensures
        id.len() > 0,
        ('a' <= id[0] <= 'z') || ('A' <= id[0] <= 'Z') || id[0] == '_',
        0 <= i < id.len() ==> (('a' <= id[i] <= 'z') || ('A' <= id[i] <= 'Z') || ('0' <= id[i]
            <= '9') || id[i] == '_'),
        id != "input"@ && id != "item"@ && id != "index"@ && id != "accumulator"@ && id
            != "length"@,
{
    let names = crate::pipeline::plan::reserved_root_names();
    assert(names[0] == "input"@ && names[1] == "item"@ && names[2] == "index"@ && names[3]
        == "accumulator"@ && names[4] == "length"@);
}

/// Such a name is an id.
pub proof fn a_free_name_is_a_step_id(id: Seq<char>)
    requires
        id.len() > 0,
        ('a' <= id[0] <= 'z') || ('A' <= id[0] <= 'Z') || id[0] == '_',
        forall|i: int|
            0 <= i < id.len() ==> (('a' <= #[trigger] id[i] <= 'z') || ('A' <= id[i] <= 'Z') || (
            '0' <= id[i] <= '9') || id[i] == '_'),
        id != "input"@ && id != "item"@ && id != "index"@ && id != "accumulator"@ && id
            != "length"@,
    ensures
        id_problem(id) is None,
{
    assert forall|i: int| 0 <= i < id.len() implies crate::pipeline::plan::is_word(
        #[trigger] id[i],
    ) by {}
}

/// `E` and a number is a numbered step, by that number.
pub proof fn a_numbered_step_has_its_number(n: nat, id: Seq<char>)
    ensures
        n <= u32::MAX ==> number_in_id("E"@ + numeral(n)) == Some(n as int),
        number_in_id(id) is Some ==> id.len() > 1 && id[0] == 'E',
{
    lemma_numeral(n);
    reveal_strlit("E");
    let whole = "E"@ + numeral(n);
    assert(whole.skip(1) =~= numeral(n));
    assert(crate::text::is_digit(numeral(n)[0]));
}

proof fn lemma_no_problem(plan: Seq<StepView>, n: int, i: int)
    requires
        0 <= i < n <= plan.len(),
        steps_problems_before(plan, n).len() == 0,
    ensures
        id_problem(plan[i].id) is None,
        !before_step(plan, i).contains(plan[i].id),
        workbench_problem(plan[i].tool_name) is None,
        step_input_problems(plan[i], before_step(plan, i), ids_of(plan)).len() == 0,
    decreases n,
{
    if i < n - 1 {
        lemma_no_problem(plan, n - 1, i);
    }
}

/// In a sound plan each step passes the check of its kind, with what comes before it
/// in view, and none uses a tool of the workbench.
pub proof fn a_sound_plan_has_sound_steps(plan: Seq<StepView>, i: int)
    requires
        steps_problems(plan).len() == 0,
        0 <= i < plan.len(),
    ensures
        ({
            let step = plan[i];
            let seen = before_step(plan, i);
            &&& !begins(step.tool_name, "workbench__"@)
            &&& id_problem(step.id) is None
            &&& step.id != "input"@
            &&& forall|j: int| 0 <= j < i ==> (#[trigger] plan[j]).id != step.id
            &&& step.tool_name == "agent"@ ==> agent_problems(step.input, seen, step.id).len() == 0
            &&& step.tool_name == "ask"@ ==> ask_problems(step.input, seen, step.id).len() == 0
            &&& step.tool_name == "filter"@ ==> filter_problems(step.input, seen, step.id).len()
                == 0
            &&& step.tool_name == "decide"@ ==> decide_problems(
                step.input,
                seen,
                ids_of(plan),
                step.id,
            ).len() == 0
            &&& step.tool_name == "map"@ ==> map_problems(
                step.input,
                seen,
                ids_of(plan),
                step.id,
            ).len() == 0
            &&& step.tool_name == "reduce"@ ==> reduce_problems(
                step.input,
                seen,
                ids_of(plan),
                step.id,
            ).len() == 0
        }),
        plan.len() > 0,
{
    reveal_strlit("agent");
    reveal_strlit("ask");
    reveal_strlit("filter");
    reveal_strlit("decide");
    reveal_strlit("map");
    reveal_strlit("reduce");
    assert("agent"@.len() != "ask"@.len());
    assert("agent"@.len() != "filter"@.len());
    assert("agent"@.len() != "decide"@.len());
    assert("agent"@.len() != "map"@.len());
    assert("agent"@.len() != "reduce"@.len());
    assert("ask"@.len() != "filter"@.len());
    assert("ask"@.len() != "decide"@.len());
    assert("ask"@[0] != "map"@[0]);
    assert("ask"@.len() != "reduce"@.len());
    assert("filter"@[0] != "decide"@[0]);
    assert("filter"@.len() != "map"@.len());
    assert("filter"@[0] != "reduce"@[0]);
    assert("decide"@.len() != "map"@.len());
    assert("decide"@[0] != "reduce"@[0]);
    assert("map"@.len() != "reduce"@.len());
    lemma_no_problem(plan, plan.len() as int, i);
    let seen = before_step(plan, i);
    assert(seen[0] == "input"@);
    assert forall|j: int| 0 <= j < i implies (#[trigger] plan[j]).id != plan[i].id by {
        assert(plan.take(i)[j] == plan[j]);
        assert(seen[j + 1] == plan[j].id);
    }
}

/// What a step may refer to is the input and the steps before it.
pub proof fn a_step_sees_the_input_and_what_came_before(
    plan: Seq<StepView>,
    i: int,
    name: Seq<char>,
)
    requires
        0 <= i <= plan.len(),
    ensures
        before_step(plan, i).contains(name) <==> name == "input"@ || exists|j: int|
            0 <= j < i && (#[trigger] plan[j]).id == name,
{
    let seen = before_step(plan, i);
    if seen.contains(name) {
        let k = choose|k: int| 0 <= k < seen.len() && seen[k] == name;
        if k > 0 {
            assert(plan.take(i)[k - 1] == plan[k - 1]);
            assert(plan[k - 1].id == name);
        }
    }
    if name == "input"@ {
        assert(seen[0] == name);
    }
    if exists|j: int| 0 <= j < i && (#[trigger] plan[j]).id == name {
        let j = choose|j: int| 0 <= j < i && (#[trigger] plan[j]).id == name;
        assert(plan.take(i)[j] == plan[j]);
        assert(seen[j + 1] == name);
    }
}

/// A reference to a numbered step that did not come before is a problem, and no
/// other reference is.
pub proof fn a_reference_ahead_is_a_problem(
    root: Seq<char>,
    available: Seq<Seq<char>>,
    step: Seq<char>,
)
    ensures
        root_problem(root, available, step).len() > 0 <==> number_in_id(root) is Some
            && !available.contains(root),
{
}

proof fn lemma_steps_problem(steps: Seq<StepView>, from: int)
    requires
        0 <= from,
    ensures
        doc_steps_problem(steps, from) is None <==> forall|i: int|
            from <= i < steps.len() ==> #[trigger] doc_step_problem(steps, i) is None,
    decreases steps.len() - from,
{
    if from < steps.len() {
        lemma_steps_problem(steps, from + 1);
    }
}

proof fn lemma_templates_fault(e: Entries, from: int)
    requires
        0 <= from,
    ensures
        templates_fault(e, from) is None <==> forall|i: int|
            from <= i < e.len() ==> ((#[trigger] e[i]).1 matches Json::Text(s) ==> roots_of(s)
                is Ok),
    decreases e.len() - from,
{
    if from < e.len() {
        lemma_templates_fault(e, from + 1);
    }
}

/// A document is sound exactly where its identifier is fit for a tool's name, it has
/// steps and each is sound, it does not end both ways, and the templates it ends with
/// can be read.
pub proof fn a_document_is_checked_whole(doc: PlanDocView)
    ensures
        doc_problem(doc) is None <==> {
            &&& is_tool_safe(doc.identifier)
            &&& doc.steps.len() > 0
            &&& forall|i: int|
                0 <= i < doc.steps.len() ==> {
                    &&& id_problem((#[trigger] doc.steps[i]).id) is None
                    &&& is_namespaced(doc.steps[i].tool_name)
                        || crate::pipeline::engine::is_control(doc.steps[i].tool_name)
                    &&& step_input_problems(
                        doc.steps[i],
                        before_step(doc.steps, i),
                        ids_of(doc.steps),
                    ).len() == 0
                }
            &&& doc.solver is None || doc.output is None
            &&& doc.solver matches Some(s) ==> {
                &&& roots_of(s.query_to_answer) is Ok
                &&& forall|i: int|
                    0 <= i < s.data.len() ==> ((#[trigger] s.data[i]).1 matches Json::Text(t)
                        ==> roots_of(t) is Ok)
            }
            &&& doc.output matches Some(e) ==> forall|i: int|
                0 <= i < e.len() ==> ((#[trigger] e[i]).1 matches Json::Text(t) ==> roots_of(t)
                    is Ok)
        },
{
    lemma_steps_problem(doc.steps, 0);
    if let Some(s) = doc.solver {
        lemma_templates_fault(s.data, 0);
    }
    if let Some(e) = doc.output {
        lemma_templates_fault(e, 0);
    }
    assert forall|i: int| 0 <= i < doc.steps.len() implies (#[trigger] doc_step_problem(
        doc.steps,
        i,
    ) is None <==> {
        &&& id_problem(doc.steps[i].id) is None
        &&& is_namespaced(doc.steps[i].tool_name) || crate::pipeline::engine::is_control(
            doc.steps[i].tool_name,
        )
        &&& step_input_problems(
            doc.steps[i],
            before_step(doc.steps, i),
            ids_of(doc.steps),
        ).len() == 0
    }) by {}
    if doc_steps_problem(doc.steps, 0) is None {
        assert forall|i: int| 0 <= i < doc.steps.len() implies {
            &&& id_problem((#[trigger] doc.steps[i]).id) is None
            &&& is_namespaced(doc.steps[i].tool_name) || crate::pipeline::engine::is_control(
                doc.steps[i].tool_name,
            )
            &&& step_input_problems(
                doc.steps[i],
                before_step(doc.steps, i),
                ids_of(doc.steps),
            ).len() == 0
        } by {
            assert(doc_step_problem(doc.steps, i) is None);
        }
    }
    if forall|i: int|
        0 <= i < doc.steps.len() ==> {
            &&& id_problem((#[trigger] doc.steps[i]).id) is None
            &&& is_namespaced(doc.steps[i].tool_name) || crate::pipeline::engine::is_control(
                doc.steps[i].tool_name,
            )
            &&& step_input_problems(
                doc.steps[i],
                before_step(doc.steps, i),
                ids_of(doc.steps),
            ).len() == 0
        } {
        assert forall|i: int| 0 <= i < doc.steps.len() implies #[trigger] doc_step_problem(
            doc.steps,
            i,
        ) is None by {
            assert(id_problem(doc.steps[i].id) is None);
        }
    }
}

/// An identifier fit for a tool's name is made of letters, digits, underscores and
/// hyphens; a tool's name holds two underscores or is the planner's.
pub proof fn a_name_is_made_of_its_letters(s: Seq<char>, i: int)
    ensures
        is_tool_safe(s) ==> s.len() > 0,
        is_tool_safe(s) && 0 <= i < s.len() ==> (('a' <= s[i] <= 'z') || ('A' <= s[i] <= 'Z') || (
        '0' <= s[i] <= '9') || s[i] == '_' || s[i] == '-'),
        is_namespaced(s) <==> holds_text(s, "__"@) || s == "plan_and_execute"@,
{
    crate::laws::gating::lemma_occurs(s, "__"@);
}

/// The problems of a document are those of its steps and that of the whole.
pub proof fn a_documents_problems_are_all_told(doc: PlanDocView, p: Seq<char>)
    ensures
        doc_problems(doc).contains(p) <==> steps_problems(doc.steps).contains(p) || doc_problem(doc)
            == Some(p),
{
    let problems = steps_problems(doc.steps);
    if let Some(q) = doc_problem(doc) {
        let all = problems.push(q);
        assert(all[problems.len() as int] == q);
        assert(forall|k: int| 0 <= k < problems.len() ==> all[k] == problems[k]);
        if problems.contains(p) {
            let k = choose|k: int| 0 <= k < problems.len() && problems[k] == p;
            assert(all[k] == p);
        }
    }
}

/// A plan file is named by its ending.
pub proof fn a_plan_file_is_named_by_its_ending(stem: Seq<char>, name: Seq<char>)
    ensures
        stem.len() > 0 ==> is_plan_file_name(stem + ".yaml"@) && is_plan_file_name(stem + ".yml"@),
        is_plan_file_name(name) ==> ends(name, ".yaml"@) || ends(name, ".yml"@),
        !is_plan_file_name(".yaml"@) && !is_plan_file_name(".yml"@),
{
    reveal_strlit(".yaml");
    reveal_strlit(".yml");
    let a = stem + ".yaml"@;
    let b = stem + ".yml"@;
    assert(a.subrange(a.len() - ".yaml"@.len(), a.len() as int) =~= ".yaml"@);
    assert(b.subrange(b.len() - ".yml"@.len(), b.len() as int) =~= ".yml"@);
    assert(!ends(".yaml"@, ".yml"@)) by {
        assert(".yaml"@.subrange(1, 5)[0] == 'y');
    }
}

/// A document that is loaded knows its file and is sound; one that is not is refused
/// under the file's name.
pub proof fn a_loaded_document_is_sound(path: Seq<char>, doc: PlanDocView, why: Seq<char>)
    ensures
        match loaded(path, Ok(doc)) {
            Ok(d) => d == (PlanDocView { path: Some(path), ..doc }) && doc_problem(d) is None,
            Err(DocErrorView::Invalid { path: p, message }) => p == path && doc_problem(
                PlanDocView { path: Some(path), ..doc },
            ) == Some(message),
            Err(_) => false,
        },
        loaded(path, Err(why)) == Err::<PlanDocView, DocErrorView>(
            DocErrorView::Invalid { path, message: why },
        ),
{
}

/// A document is found by its identifier, the first of that name.
pub proof fn a_document_is_found_by_its_identifier(
    docs: Seq<PlanDocView>,
    identifier: Seq<char>,
    from: int,
)
    requires
        0 <= from,
    ensures
        match doc_at(docs, identifier, from) {
            Some(i) => from <= i < docs.len() && docs[i].identifier == identifier && forall|j: int|
                from <= j < i ==> (#[trigger] docs[j]).identifier != identifier,
            None => forall|j: int|
                from <= j < docs.len() ==> (#[trigger] docs[j]).identifier != identifier,
        },
    decreases docs.len() - from,
{
    if from < docs.len() {
        a_document_is_found_by_its_identifier(docs, identifier, from + 1);
    }
}

proof fn lemma_defaulted(input: Entries, properties: Entries, n: int, key: Seq<char>)
    requires
        0 <= n <= properties.len(),
    ensures
        lookup(input, key) is Some ==> lookup(defaulted(input, properties, n), key) == lookup(
            input,
            key,
        ),
        lookup(input, key) is None && lookup(defaulted(input, properties, n), key) is Some
            ==> exists|i: int|
            0 <= i < n && (#[trigger] properties[i]).0 == key && member(
                properties[i].1,
                "default"@,
            ) == lookup(defaulted(input, properties, n), key),
        forall|i: int|
            0 <= i < n && (#[trigger] properties[i]).0 == key && member(
                properties[i].1,
                "default"@,
            ) is Some ==> lookup(defaulted(input, properties, n), key) is Some,
    decreases n,
{
    if n > 0 {
        lemma_defaulted(input, properties, n - 1, key);
        let before = defaulted(input, properties, n - 1);
        if let Some(d) = member(properties[n - 1].1, "default"@) {
            a_set_key_reads_back(before, properties[n - 1].0, d, key);
            if lookup(input, key) is None && lookup(before, key) is None && properties[n - 1].0
                == key {
                assert(properties[n - 1].0 == key);
            }
        }
    }
}

/// A default fills in what an input leaves out: what is given stays, what is not is
/// the schema's default where it has one, and nothing else is added.
pub proof fn a_default_fills_in_what_is_left_out(
    schema: Json,
    properties: Entries,
    input: Entries,
    key: Seq<char>,
)
    requires
        member(schema, "properties"@) == Some(Json::Object(properties)),
    ensures
        with_defaults(schema, Json::Object(input)) matches Json::Object(e) && {
            &&& lookup(input, key) is Some ==> lookup(e, key) == lookup(input, key)
            &&& lookup(input, key) is None && lookup(e, key) is Some ==> exists|i: int|
                0 <= i < properties.len() && (#[trigger] properties[i]).0 == key && member(
                    properties[i].1,
                    "default"@,
                ) == lookup(e, key)
            &&& forall|i: int|
                0 <= i < properties.len() && (#[trigger] properties[i]).0 == key && member(
                    properties[i].1,
                    "default"@,
                ) is Some ==> lookup(e, key) is Some
        },
{
    lemma_defaulted(input, properties, properties.len() as int, key);
}

/// An input is held against the document's schema, and against nothing where it has
/// none.
pub proof fn an_input_is_held_against_its_schema(doc: PlanDocView, input: Json)
    ensures
        match doc.input_schema {
            None => plan_input_problems(doc, input).len() == 0,
            Some(schema) => plan_input_problems(doc, input).len() == 0 <==> schema_fault(schema)
                is None && schema_errors(schema, input).len() == 0,
        },
        doc.input_schema matches Some(schema) ==> (schema_fault(schema) is None
            ==> plan_input_problems(doc, input) == schema_errors(schema, input)),
{
}

/// A document ends with its solver where it has one, with its output where it has
/// that, and otherwise says nothing.
pub proof fn a_document_ends_as_it_says(doc: PlanDocView)
    ensures
        match finish_of(doc) {
            FinishView::Solve(s) => doc.solver == Some(s),
            FinishView::Render(e) => doc.solver is None && doc.output == Some(e),
            FinishView::Silent => doc.solver is None && doc.output is None,
        },
{
}

/// A plan is offered as a tool by its name, its description and its examples, with
/// the schema of its input.
pub proof fn a_plan_is_described_by_its_document(doc: PlanDocView)
    ensures
        begins(description_of(doc), doc.name),
        doc.exemplars.len() == 0 ==> ends(description_of(doc), doc.description),
        holds_text(description_of(doc), doc.description),
        doc.exemplars.len() > 0 ==> ends(
            description_of(doc),
            crate::text::joined(doc.exemplars, "; "@),
        ),
        doc.input_schema matches Some(schema) ==> input_schema_of(doc) == schema,
        doc.input_schema is None ==> member(input_schema_of(doc), "type"@) == Some(
            Json::Text("object"@),
        ) && member(input_schema_of(doc), "properties"@) == Some(Json::Object(Seq::empty())),
{
    let told = description_of(doc);
    let base = doc.name + " — "@ + doc.description;
    assert(told.subrange(0, doc.name.len() as int) =~= doc.name);
    let at = doc.name.len() as int + " — "@.len();
    assert(told.subrange(at, at + doc.description.len()) =~= doc.description);
    let examples = crate::text::joined(doc.exemplars, "; "@);
    if doc.exemplars.len() > 0 {
        assert(told.subrange(told.len() - examples.len(), told.len() as int) =~= examples);
    } else {
        assert(told.subrange(told.len() - doc.description.len(), told.len() as int)
            =~= doc.description);
    }
    reveal_strlit("type");
    reveal_strlit("properties");
    assert("type"@.len() != "properties"@.len());
    let t = Json::Text("object"@);
    let p = Json::Object(Entries::empty());
    lemma_holds_two("type"@, t, "properties"@, p, "type"@);
    lemma_holds_two("type"@, t, "properties"@, p, "properties"@);
}

/// Where a plan names no data for the solver, its data is each step's result, by
/// the step's id.
pub proof fn every_step_is_the_solvers_data(plan: Seq<StepView>, i: int)
    requires
        0 <= i < plan.len(),
        forall|j: int, k: int|
            0 <= j < k < plan.len() ==> crate::pipeline::plan::solver_label(#[trigger] plan[j])
                != crate::pipeline::plan::solver_label(#[trigger] plan[k]),
    ensures
        lookup(
            whole_plan_data(plan),
            match plan[i].reasoning {
                Some(why) => plan[i].id + " "@ + why,
                None => plan[i].id,
            },
        ) == Some(Json::Text("{{"@ + plan[i].id + "}}"@)),
    decreases plan.len(),
{
    let front = plan.drop_last();
    let label = crate::pipeline::plan::solver_label(plan[i]);
    a_set_key_reads_back(
        whole_plan_data(front),
        crate::pipeline::plan::solver_label(plan.last()),
        Json::Text(reference(plan.last().id)),
        label,
    );
    if i < front.len() {
        assert(front[i] == plan[i]);
        assert forall|j: int, k: int|
            0 <= j < k < front.len() implies crate::pipeline::plan::solver_label(
            #[trigger] front[j],
        ) != crate::pipeline::plan::solver_label(#[trigger] front[k]) by {
            assert(front[j] == plan[j] && front[k] == plan[k]);
        }
        every_step_is_the_solvers_data(front, i);
        assert(crate::pipeline::plan::solver_label(plan[i]) != crate::pipeline::plan::solver_label(
            plan[plan.len() - 1],
        ));
    }
}

} // verus!
