//! What is told of edits, of agents and of writing.

use crate::json::{json_reading, pretty_text};
use crate::laws::agents::holds_text;
use crate::laws::conversing::lemma_stands_between;
use crate::laws::editing::lemma_filtered;
use crate::laws::objects::{lemma_holds_four, lemma_holds_three, lemma_holds_two};
use crate::pipeline::agent_loop::{
    agent_entered, agent_note, agent_started, agent_system, answer_candidates, braced, fenced,
    first_json, last_place, AgentRunView, AgentStartView,
};
use crate::pipeline::agent::AgentSpecView;
use crate::pipeline::authoring::{
    added_summary, deleted_summary, doc_problems, edit_summary, full_problems, judged_edit,
    metadata_summary, no_such_step, rewritten, updated_summary, write_message, EditAcceptedView,
    WriteErrorView,
};
use crate::pipeline::body::ids_of;
use crate::pipeline::catalog::{deep_plan_findings, ToolCatalogView};
use crate::pipeline::doc::PlanDocView;
use crate::text::{begins, ends, find_from, numeral, occurs, trimmed};
use crate::tools::ToolDefView;
use crate::value::{a_set_key_reads_back, member, put, text_list, Json, Num};
use vstd::prelude::*;

verus! {

// ── What is told ─────────────────────────────────────────────────────────

/// An edit is accepted exactly where it brings no new problem; the edited document
/// and its summary are passed on, with the problems that are left.
pub proof fn an_accepted_edit_is_passed_on(
    doc: PlanDocView,
    edited: PlanDocView,
    outcome: Result<Json, Json>,
)
    ensures
        match judged_edit(doc, edited, outcome) {
            Ok(a) => {
                &&& outcome == Ok::<Json, Json>(a.summary)
                &&& a.doc == edited
                &&& a.pre_existing == doc_problems(edited)
                &&& forall|i: int|
                    0 <= i < doc_problems(edited).len() ==> doc_problems(doc).contains(
                        #[trigger] doc_problems(edited)[i],
                    )
            },
            Err(e) => match outcome {
                Err(body) => e.body == body && e.introduced.len() == 0 && e.pre_existing
                    == doc_problems(doc),
                Ok(_) => e.introduced.len() > 0,
            },
        },
{
    let before = doc_problems(doc);
    let after = doc_problems(edited);
    let fresh = |q: Seq<char>| !before.contains(q);
    if let Ok(_) = judged_edit(doc, edited, outcome) {
        assert forall|i: int| 0 <= i < after.len() implies before.contains(#[trigger] after[i]) by {
            lemma_filtered(after, fresh, after[i]);
            assert(after.contains(after[i]));
            if !before.contains(after[i]) {
                assert(after.filter(fresh).contains(after[i]));
            }
        }
    }
}

/// An accepted edit is told by its summary, with the problems that are left where
/// there are any.
pub proof fn an_accepted_edit_is_told_by_its_summary(a: EditAcceptedView, key: Seq<char>)
    requires
        a.summary is Object,
    ensures
        a.pre_existing.len() == 0 ==> edit_summary(a) == a.summary,
        a.pre_existing.len() > 0 ==> {
            &&& member(edit_summary(a), "preExistingProblems"@) == Some(
                text_list(a.pre_existing),
            )
            &&& member(edit_summary(a), "note"@) matches Some(note) && note is Text
            &&& key != "preExistingProblems"@ && key != "note"@ ==> member(edit_summary(a), key)
                == member(a.summary, key)
        },
{
    reveal_strlit("preExistingProblems");
    reveal_strlit("note");
    assert("preExistingProblems"@.len() != "note"@.len());
    let e = a.summary->Object_0;
    let left = text_list(a.pre_existing);
    let note = Json::Text(
        "edit applied; the plan is still invalid, but only from pre-existing problems (not caused by this edit) — fix them next"@,
    );
    let one = put(e, "preExistingProblems"@, left);
    a_set_key_reads_back(e, "preExistingProblems"@, left, key);
    a_set_key_reads_back(e, "preExistingProblems"@, left, "preExistingProblems"@);
    a_set_key_reads_back(one, "note"@, note, key);
    a_set_key_reads_back(one, "note"@, note, "note"@);
    a_set_key_reads_back(one, "note"@, note, "preExistingProblems"@);
}

/// Each edit is told under its names: what was added and where, what was taken out and
/// how many are left, what is there where a step is missing.
#[verifier::spinoff_prover]
#[verifier::rlimit(40)]
pub proof fn each_edit_is_told_under_its_names(
    id: Seq<char>,
    index: int,
    steps: int,
    doc: PlanDocView,
)
    ensures
        member(added_summary(id, index, steps), "ok"@) == Some(Json::Bool(true)),
        member(added_summary(id, index, steps), "id"@) == Some(Json::Text(id)),
        member(added_summary(id, index, steps), "index"@) == Some(Json::Num(Num::Int(index))),
        member(added_summary(id, index, steps), "steps"@) == Some(Json::Num(Num::Int(steps))),
        member(deleted_summary(id, steps), "ok"@) == Some(Json::Bool(true)),
        member(deleted_summary(id, steps), "id"@) == Some(Json::Text(id)),
        member(deleted_summary(id, steps), "steps"@) == Some(Json::Num(Num::Int(steps))),
        member(updated_summary(id), "ok"@) == Some(Json::Bool(true)),
        member(updated_summary(id), "id"@) == Some(Json::Text(id)),
        member(metadata_summary(doc), "ok"@) == Some(Json::Bool(true)),
        member(metadata_summary(doc), "identifier"@) == Some(Json::Text(doc.identifier)),
        member(metadata_summary(doc), "name"@) == Some(Json::Text(doc.name)),
        member(no_such_step(doc.steps, id), "error"@) matches Some(Json::Text(told)) && holds_text(
            told,
            id,
        ),
        member(no_such_step(doc.steps, id), "availableSteps"@) == Some(
            text_list(Seq::new(doc.steps.len(), |i: int| doc.steps[i].id)),
        ),
{
    reveal_strlit("ok");
    reveal_strlit("id");
    reveal_strlit("index");
    reveal_strlit("steps");
    reveal_strlit("identifier");
    reveal_strlit("name");
    reveal_strlit("error");
    reveal_strlit("availableSteps");
    assert("ok"@[0] != "id"@[0]);
    assert("ok"@.len() != "index"@.len());
    assert("ok"@.len() != "steps"@.len());
    assert("ok"@.len() != "identifier"@.len());
    assert("ok"@.len() != "name"@.len());
    assert("ok"@.len() != "error"@.len());
    assert("ok"@.len() != "availableSteps"@.len());
    assert("id"@.len() != "index"@.len());
    assert("id"@.len() != "steps"@.len());
    assert("id"@.len() != "identifier"@.len());
    assert("id"@.len() != "name"@.len());
    assert("id"@.len() != "error"@.len());
    assert("id"@.len() != "availableSteps"@.len());
    assert("index"@[0] != "steps"@[0]);
    assert("index"@.len() != "identifier"@.len());
    assert("index"@.len() != "name"@.len());
    assert("index"@[0] != "error"@[0]);
    assert("index"@.len() != "availableSteps"@.len());
    assert("steps"@.len() != "identifier"@.len());
    assert("steps"@.len() != "name"@.len());
    assert("steps"@[0] != "error"@[0]);
    assert("steps"@.len() != "availableSteps"@.len());
    assert("identifier"@.len() != "name"@.len());
    assert("identifier"@.len() != "error"@.len());
    assert("identifier"@.len() != "availableSteps"@.len());
    assert("name"@.len() != "error"@.len());
    assert("name"@.len() != "availableSteps"@.len());
    assert("error"@.len() != "availableSteps"@.len());
    let yes = Json::Bool(true);
    let name = Json::Text(id);
    let at = Json::Num(Num::Int(index));
    let n = Json::Num(Num::Int(steps));
    let (k1, k2, k3, k4) = ("ok"@, "id"@, "index"@, "steps"@);
    lemma_holds_four(k1, yes, k2, name, k3, at, k4, n, k1);
    lemma_holds_four(k1, yes, k2, name, k3, at, k4, n, k2);
    lemma_holds_four(k1, yes, k2, name, k3, at, k4, n, k3);
    lemma_holds_four(k1, yes, k2, name, k3, at, k4, n, k4);
    lemma_holds_three(k1, yes, k2, name, k4, n, k1);
    lemma_holds_three(k1, yes, k2, name, k4, n, k2);
    lemma_holds_three(k1, yes, k2, name, k4, n, k4);
    lemma_holds_two(k1, yes, k2, name, k1);
    lemma_holds_two(k1, yes, k2, name, k2);
    let (d, m) = (Json::Text(doc.identifier), Json::Text(doc.name));
    let (k5, k6) = ("identifier"@, "name"@);
    lemma_holds_three(k1, yes, k5, d, k6, m, k1);
    lemma_holds_three(k1, yes, k5, d, k6, m, k5);
    lemma_holds_three(k1, yes, k5, d, k6, m, k6);
    let told = "no step with id '"@ + id + "'"@;
    let ids = text_list(ids_of(doc.steps));
    let (k7, k8) = ("error"@, "availableSteps"@);
    lemma_holds_two(k7, Json::Text(told), k8, ids, k7);
    lemma_holds_two(k7, Json::Text(told), k8, ids, k8);
    lemma_stands_between("no step with id '"@, id, "'"@);
}

/// A document's problems are its own and, where a catalogue is at hand, those of the
/// names in it and in the plans it leads to; what is merely noted is marked.
#[verifier::spinoff_prover]
#[verifier::rlimit(40)]
pub proof fn a_document_is_held_against_the_catalogue(
    doc: PlanDocView,
    plans: Seq<PlanDocView>,
    catalog: ToolCatalogView,
    p: Seq<char>,
    i: int,
)
    ensures
        full_problems(doc, plans, None) == doc_problems(doc),
        doc_problems(doc).contains(p) || deep_plan_findings(doc, plans, catalog).errors.contains(p)
            ==> full_problems(doc, plans, Some(catalog)).contains(p),
        0 <= i < deep_plan_findings(doc, plans, catalog).notes.len() ==> full_problems(
            doc,
            plans,
            Some(catalog),
        ).contains("note: "@ + deep_plan_findings(doc, plans, catalog).notes[i]),
        full_problems(doc, plans, Some(catalog)).len() == 0 ==> doc_problems(doc).len() == 0
            && deep_plan_findings(doc, plans, catalog).errors.len() == 0 && deep_plan_findings(
            doc,
            plans,
            catalog,
        ).notes.len() == 0,
{
    let own = doc_problems(doc);
    let check = deep_plan_findings(doc, plans, catalog);
    let errors = crate::seqs::adding_new(own, check.errors);
    let notes = crate::pipeline::authoring::noted(check.notes);
    let all = full_problems(doc, plans, Some(catalog));
    assert(all == errors + notes);
    crate::seqs::lemma_adding_new_contains(own, check.errors, p);
    if errors.contains(p) {
        let k = choose|k: int| 0 <= k < errors.len() && errors[k] == p;
        assert(all[k] == p);
    }
    if 0 <= i < check.notes.len() {
        assert(all[errors.len() + i] == "note: "@ + check.notes[i]);
    }
    if all.len() == 0 {
        assert(errors.len() == 0 && notes.len() == 0);
        if own.len() > 0 {
            crate::seqs::lemma_adding_new_contains(own, check.errors, own[0]);
            assert(own.contains(own[0]));
            assert(errors.contains(own[0]));
        }
        if check.errors.len() > 0 {
            crate::seqs::lemma_adding_new_contains(own, check.errors, check.errors[0]);
            assert(check.errors.contains(check.errors[0]));
            assert(errors.contains(check.errors[0]));
        }
        assert(notes.len() == check.notes.len());
    }
}

/// Carrying a new name over rewrites every text in a value that has a tag, in its
/// place, and leaves everything else.
pub proof fn a_new_name_is_carried_over_in_every_text(
    v: Json,
    old_root: Seq<char>,
    new_root: Seq<char>,
    i: int,
)
    ensures
        match v {
            Json::Text(s) => rewritten(v, old_root, new_root) == Json::Text(
                if occurs(s, "{{"@) {
                    crate::template::renamed(s, old_root, new_root)
                } else {
                    s
                },
            ),
            Json::List(items) => rewritten(v, old_root, new_root) matches Json::List(out)
                && out.len() == items.len() && (0 <= i < items.len() ==> out[i] == rewritten(
                items[i],
                old_root,
                new_root,
            )),
            Json::Object(e) => rewritten(v, old_root, new_root) matches Json::Object(out)
                && out.len() == e.len() && (0 <= i < e.len() ==> out[i].0 == e[i].0 && out[i].1
                == rewritten(e[i].1, old_root, new_root)),
            _ => rewritten(v, old_root, new_root) == v,
        },
{
}

/// What stops a document from being written is told with the file and the plans.
pub proof fn what_stops_a_write_is_told(path: Seq<char>, there: Seq<char>, here: Seq<char>)
    ensures
        ({
            let told = write_message(
                WriteErrorView::IdentityMismatch { path, existing: there, identifier: here },
            );
            begins(told, path + " holds plan '"@ + there + "'"@) && holds_text(told, here)
        }),
        begins(write_message(WriteErrorView::Exists { path }), path + " already exists"@),
        write_message(WriteErrorView::Io(path)) == path,
        write_message(WriteErrorView::Serialize(path)) == path,
{
    let told = write_message(
        WriteErrorView::IdentityMismatch { path, existing: there, identifier: here },
    );
    reveal_strlit("', not '");
    reveal_strlit("'");
    let head = path + " holds plan '"@ + there + "'"@;
    assert(told.subrange(0, head.len() as int) =~= head);
    let end = "' — refusing to overwrite it"@;
    lemma_stands_between(path + " holds plan '"@ + there + "', not '"@, here, end);
    reveal_strlit(" already exists — change the identifier or remove the file");
    reveal_strlit(" already exists");
    let gone = write_message(WriteErrorView::Exists { path });
    let start = path + " already exists"@;
    assert(gone.subrange(0, start.len() as int) =~= start);
}

// ── Agents ───────────────────────────────────────────────────────────────

/// An agent is told the schema of its answer and what the step adds, and asks the
/// model that the step names, or the chat model.
pub proof fn an_agent_is_told_its_schema(
    spec: AgentSpecView,
    prompt: Seq<char>,
    extra: Option<Seq<char>>,
)
    ensures
        match agent_started(spec, prompt, extra) {
            Ok(s) => {
                &&& s.prompt == prompt
                &&& s.model == match spec.model {
                    Some(m) => m,
                    None => "chat"@,
                }
                &&& s.patterns == match spec.tools {
                    Some(tools) => tools,
                    None => Seq::empty(),
                }
                &&& s.max_iterations == spec.max_iterations
                &&& s.output_schema == spec.output_schema
                &&& holds_text(s.system, pretty_text(spec.output_schema))
                &&& extra matches Some(text) ==> ends(s.system, text)
                &&& !(spec.tools matches Some(tools) && tools.len() == 0)
            },
            Err(_) => spec.tools matches Some(tools) && tools.len() == 0,
        },
{
    let lead = crate::pipeline::agent_loop::builtin_system() + "\n\nOutput schema:\n"@;
    let schema = pretty_text(spec.output_schema);
    let system = agent_system(spec.output_schema, extra);
    match extra {
        Some(text) => {
            lemma_stands_between(lead, schema, "\n\n"@ + text);
            assert(system =~= lead + schema + ("\n\n"@ + text));
            assert(system.subrange(system.len() - text.len(), system.len() as int) =~= text);
        },
        None => {
            lemma_stands_between(lead, schema, Seq::empty());
            assert(system =~= lead + schema + Seq::empty());
        },
    }
}

/// An agent is offered every tool but the planner, as it is defined.
pub proof fn an_agent_is_offered_all_but_the_planner(
    s: AgentStartView,
    tools: Seq<ToolDefView>,
    t: ToolDefView,
)
    ensures
        tools.contains(t) && t.name != "plan_and_execute"@ ==> exists|i: int|
            0 <= i < agent_entered(s, tools).tools.len() && (#[trigger] agent_entered(
                s,
                tools,
            ).tools[i]).name == t.name && agent_entered(s, tools).tools[i].description
                == t.description && agent_entered(s, tools).tools[i].input_schema
                == t.input_schema,
        forall|i: int|
            0 <= i < agent_entered(s, tools).tools.len() ==> (#[trigger] agent_entered(
                s,
                tools,
            ).tools[i]).name != "plan_and_execute"@,
{
    let keep = |d: ToolDefView| d.name != "plan_and_execute"@;
    let kept = tools.filter(keep);
    let offered = agent_entered(s, tools).tools;
    lemma_filtered(tools, keep, t);
    if tools.contains(t) && t.name != "plan_and_execute"@ {
        let i = choose|i: int| 0 <= i < kept.len() && kept[i] == t;
        assert(offered[i].name == t.name);
    }
    assert forall|i: int| 0 <= i < offered.len() implies (#[trigger] offered[i]).name
        != "plan_and_execute"@ by {
        lemma_filtered(tools, keep, kept[i]);
        assert(kept.contains(kept[i]));
    }
}

/// An agent's run is noted with its rounds and its calls, and where its budget ran
/// out.
pub proof fn an_agents_run_is_noted(run: AgentRunView)
    ensures
        ({
            let note = agent_note(run);
            &&& begins(note, "agent: "@ + numeral(run.result.iterations as nat) + " round(s), "@)
            &&& holds_text(note, numeral(run.tool_calls as nat) + " tool call(s)"@)
            &&& !run.result.final_ ==> ends(note, "budget exhausted"@)
            &&& run.result.final_ ==> ends(note, " tool call(s)"@)
        }),
{
    let note = agent_note(run);
    let head = "agent: "@ + numeral(run.result.iterations as nat) + " round(s), "@;
    let calls = numeral(run.tool_calls as nat) + " tool call(s)"@;
    let tail = if run.result.final_ {
        ""@
    } else {
        " — budget exhausted"@
    };
    assert(note =~= head + calls + tail);
    assert(note.subrange(0, head.len() as int) =~= head);
    lemma_stands_between(head, calls, tail);
    reveal_strlit("");
    reveal_strlit(" — budget exhausted");
    reveal_strlit("budget exhausted");
    let end = if run.result.final_ {
        " tool call(s)"@
    } else {
        "budget exhausted"@
    };
    assert(note.subrange(note.len() - end.len(), note.len() as int) =~= end);
}

proof fn lemma_first_break(line: Seq<char>, rest: Seq<char>, from: int)
    requires
        !line.contains('\n'),
        0 <= from <= line.len(),
    ensures
        find_from(line + seq!['\n'] + rest, seq!['\n'], from) == Some(line.len() as int),
    decreases line.len() - from,
{
    let s = line + seq!['\n'] + rest;
    if from < line.len() {
        assert(s.subrange(from, from + 1)[0] == line[from]);
        assert(line.contains(line[from]));
        assert(s.subrange(from, from + 1) != seq!['\n']);
        lemma_first_break(line, rest, from + 1);
    } else {
        assert(s.subrange(from, from + 1) =~= seq!['\n']);
    }
}

/// An answer between fences is what stands between them, whatever the opening fence
/// is labelled.
pub proof fn a_fenced_answer_stands_between_its_fences(label: Seq<char>, answer: Seq<char>)
    requires
        !label.contains('\n'),
    ensures
        fenced("```"@ + label + seq!['\n'] + answer + "```"@) == trimmed(answer),
{
    let s = "```"@ + label + seq!['\n'] + answer + "```"@;
    reveal_strlit("```");
    let rest = answer + "```"@;
    assert(s.skip(3) =~= label + seq!['\n'] + rest);
    lemma_first_break(label, rest, 0);
    assert((label + seq!['\n'] + rest).skip(label.len() as int + 1) =~= rest);
    assert(rest.subrange(rest.len() - 3, rest.len() as int) =~= "```"@);
    assert(rest.take(rest.len() - 3) =~= answer);
}

proof fn lemma_last_place(s: Seq<char>, c: char, at: int, n: int)
    requires
        0 <= at < n <= s.len(),
        s[at] == c,
        forall|k: int| at < k < n ==> #[trigger] s[k] != c,
    ensures
        last_place(s, c, n) == Some(at),
    decreases n,
{
    if n - 1 > at {
        assert(s[n - 1] != c);
        lemma_last_place(s, c, at, n - 1);
    }
}

proof fn lemma_first_brace(s: Seq<char>, at: int, from: int)
    requires
        0 <= from <= at < s.len(),
        s[at] == '{',
        forall|k: int| 0 <= k < at ==> #[trigger] s[k] != '{',
    ensures
        find_from(s, seq!['{'], from) == Some(at),
    decreases at - from,
{
    if from < at {
        assert(s.subrange(from, from + 1)[0] == s[from]);
        assert(s[from] != '{');
        assert(s.subrange(from, from + 1) != seq!['{']);
        lemma_first_brace(s, at, from + 1);
    } else {
        assert(s.subrange(from, from + 1) =~= seq!['{']);
    }
}

/// An answer among other words is what stands from the first opening brace to the last
/// closing one.
pub proof fn a_braced_answer_stands_between_its_braces(
    before: Seq<char>,
    inner: Seq<char>,
    after: Seq<char>,
)
    requires
        !before.contains('{'),
        !after.contains('}'),
    ensures
        braced(before + (seq!['{'] + inner + seq!['}']) + after) == Some(
            seq!['{'] + inner + seq!['}'],
        ),
{
    let part = seq!['{'] + inner + seq!['}'];
    let s = before + part + after;
    let start = before.len() as int;
    let end = start + part.len() - 1;
    assert forall|k: int| 0 <= k < start implies #[trigger] s[k] != '{' by {
        assert(s[k] == before[k]);
        assert(before.contains(before[k]));
    }
    assert(s[start] == '{');
    assert(s[end] == '}');
    lemma_first_brace(s, start, 0);
    assert forall|k: int| end < k < s.len() implies #[trigger] s[k] != '}' by {
        assert(s[k] == after[k - end - 1]);
        assert(after.contains(after[k - end - 1]));
    }
    lemma_last_place(s, '}', end, s.len() as int);
    assert(s.subrange(start, end + 1) =~= part);
}

/// An answer is looked for in the whole text first, then between fences, then between
/// braces.
pub proof fn an_answer_is_looked_for_in_order(text: Seq<char>)
    ensures
        ({
            let t = trimmed(text);
            let found = first_json(answer_candidates(text), 0);
            let whole = json_reading(t);
            let shut = json_reading(fenced(t));
            &&& whole matches Ok(v) ==> found == Some(v)
            &&& whole is Err && begins(t, "```"@) ==> (shut matches Ok(v) ==> found == Some(v))
            &&& whole is Err && (!begins(t, "```"@) || shut is Err) ==> (braced(t) matches Some(
                inner,
            ) ==> (json_reading(inner) matches Ok(v) ==> found == Some(v)))
        }),
{
    let t = trimmed(text);
    let c = answer_candidates(text);
    reveal_with_fuel(first_json, 4);
    assert(c[0] == t);
    if begins(t, "```"@) {
        assert(c[1] == fenced(t));
        if let Some(inner) = braced(t) {
            assert(c[2] == inner);
        }
    } else {
        if let Some(inner) = braced(t) {
            assert(c[1] == inner);
        }
    }
}

} // verus!
