//! Plans that call plans, and answering from what a run collected.

use crate::chat::ChatMessageView;
use crate::json::{compact_text, pretty_text};
use crate::laws::agents::holds_text;
use crate::laws::objects::{lemma_holds_one, lemma_holds_three, lemma_holds_two};
use crate::laws::running::an_error_is_told_under_its_name;
use crate::pipeline::calls::{
    entry_problem, exit_call, plan_call_result, plan_start, planner_call_result, query_in,
    PlanStartView,
};
use crate::pipeline::doc::{doc_at, plan_input_problems, with_defaults, PlanDocView};
use crate::pipeline::exit::{ExitStatus, PlanExitView};
use crate::pipeline::run::{PipelineErrorView, PipelineOutcomeView};
use crate::pipeline::solver::{
    budgeted, empty_note, error_lines, payload, payload_before, shrunk, shrunk_entries,
    solve_request, solved, solver_query, solver_system, summarized, summary_request,
};
use crate::pipeline::state::{count_executed, BusEntryView, BusKind, RunStateView};
use crate::template::render::{rendered_text, spliced};
use crate::text::{begins, ends, joined};
use crate::value::{
    a_set_key_reads_back, ascending, lookup, member, object, put, text_list, Entries, Json, Num,
};
use vstd::prelude::*;
use vstd::utf8::encode_utf8;

verus! {

/// A plan may be called unless it is running already or eight calls deep; the
/// planner may be called again from itself.
pub proof fn a_plan_is_entered_unless_it_runs_or_is_too_deep(
    stack: Seq<Seq<char>>,
    entering: Seq<char>,
)
    ensures
        entry_problem(stack, entering) is None <==> stack.len() < 8 && (entering
            == "plan_and_execute"@ || !stack.contains(entering)),
{
}

/// A called plan is the one of the name, runs on its input with the defaults filled
/// in, and is refused where it is not there, may not be entered, or its input does
/// not conform.
#[verifier::spinoff_prover]
#[verifier::rlimit(40)]
pub proof fn a_called_plan_is_the_one_named(
    plans: Seq<PlanDocView>,
    stack: Seq<Seq<char>>,
    identifier: Seq<char>,
    input: Json,
)
    ensures
        match plan_start(plans, stack, identifier, input) {
            PlanStartView::Run { index, query, input: given } => {
                &&& entry_problem(stack, identifier) is None
                &&& 0 <= index < plans.len()
                &&& plans[index].identifier == identifier
                &&& holds_text(query, plans[index].name)
                &&& plans[index].input_schema matches Some(schema) ==> given == with_defaults(
                    schema,
                    input,
                )
                &&& plans[index].input_schema is None ==> given == input
            },
            PlanStartView::Refused(call) => {
                &&& call.is_error
                &&& !call.aborted
                &&& member(call.result, "error"@) is Some
                &&& {
                    ||| entry_problem(stack, identifier) is Some
                    ||| doc_at(plans, identifier, 0) is None
                    ||| (doc_at(plans, identifier, 0) matches Some(i) && {
                        let given = match plans[i].input_schema {
                            Some(schema) => with_defaults(schema, input),
                            None => input,
                        };
                        &&& plan_input_problems(plans[i], given).len() > 0
                        &&& member(call.result, "problems"@) == Some(
                            text_list(plan_input_problems(plans[i], given)),
                        )
                    })
                }
            },
        },
{
    reveal_strlit("error");
    reveal_strlit("problems");
    reveal_strlit("inputSchema");
    assert("error"@.len() != "problems"@.len());
    assert("error"@.len() != "inputSchema"@.len());
    assert("problems"@.len() != "inputSchema"@.len());
    crate::laws::documents::a_document_is_found_by_its_identifier(plans, identifier, 0);
    assert forall|m: Seq<char>| member(
        #[trigger] crate::pipeline::engine::error_json(m),
        "error"@,
    ) == Some(Json::Text(m)) by {
        an_error_is_told_under_its_name(m);
    }
    if let Some(i) = doc_at(plans, identifier, 0) {
        let doc = plans[i];
        let given = match doc.input_schema {
            Some(schema) => with_defaults(schema, input),
            None => input,
        };
        let why = Json::Text("invalid or missing plan inputs"@);
        let problems = text_list(plan_input_problems(doc, given));
        let schema = crate::pipeline::doc::input_schema_of(doc);
        let (k1, k2, k3) = ("error"@, "problems"@, "inputSchema"@);
        lemma_holds_three(k1, why, k2, problems, k3, schema, k1);
        lemma_holds_three(k1, why, k2, problems, k3, schema, k2);
        let query = "Run the '"@ + doc.name + "' plan"@;
        let at = "Run the '"@.len() as int;
        assert(query.subrange(at, at + doc.name.len()) =~= doc.name);
    }
}

/// A called plan that exits answers with its exit: an error exit is an error, and
/// the message, the status and the output are passed on.
#[verifier::spinoff_prover]
#[verifier::rlimit(40)]
pub proof fn a_called_plan_answers_with_its_exit(exit: PlanExitView)
    ensures
        ({
            let call = exit_call(exit);
            &&& call.is_error == (exit.status == ExitStatus::Error)
            &&& !call.aborted
            &&& member(call.result, "exited"@) == Some(Json::Bool(true))
            &&& member(call.result, "status"@) == Some(
                Json::Text(
                    if exit.status == ExitStatus::Error {
                        "error"@
                    } else {
                        "success"@
                    },
                ),
            )
            &&& member(call.result, "message"@) == Some(Json::Text(exit.message))
            &&& member(call.result, "output"@) == match exit.output {
                Some(e) => Some(Json::Object(e)),
                None => None,
            }
            &&& member(call.result, "error"@) == (if exit.status == ExitStatus::Error {
                Some(Json::Text(exit.message))
            } else {
                None
            })
        }),
{
    reveal_strlit("exited");
    reveal_strlit("status");
    reveal_strlit("message");
    reveal_strlit("output");
    reveal_strlit("error");
    assert("exited"@[0] != "status"@[0]);
    assert("exited"@.len() != "message"@.len());
    assert("exited"@[0] != "output"@[0]);
    assert("exited"@.len() != "error"@.len());
    assert("status"@.len() != "message"@.len());
    assert("status"@[0] != "output"@[0]);
    assert("status"@.len() != "error"@.len());
    assert("message"@.len() != "output"@.len());
    assert("message"@.len() != "error"@.len());
    assert("output"@.len() != "error"@.len());
    let bad = exit.status == ExitStatus::Error;
    let status = Json::Text(
        if bad {
            "error"@
        } else {
            "success"@
        },
    );
    let yes = Json::Bool(true);
    let message = Json::Text(exit.message);
    let base = object(seq![("exited"@, yes), ("status"@, status), ("message"@, message)]);
    let shown = match exit.output {
        Some(output) => put(base, "output"@, Json::Object(output)),
        None => base,
    };
    assert forall|key: Seq<char>| #[trigger] member(exit_call(exit).result, key) == (if bad && key
        == "error"@ {
        Some(message)
    } else if exit.output is Some && key == "output"@ {
        Some(Json::Object(exit.output->Some_0))
    } else if key == "exited"@ {
        Some(yes)
    } else if key == "status"@ {
        Some(status)
    } else if key == "message"@ {
        Some(message)
    } else {
        None
    }) by {
        lemma_holds_three("exited"@, yes, "status"@, status, "message"@, message, key);
        if let Some(output) = exit.output {
            a_set_key_reads_back(base, "output"@, Json::Object(output), key);
        }
        a_set_key_reads_back(shown, "error"@, message, key);
    }
}

/// A called plan that completes answers with its output, or else with its answer, or
/// else with how much it did.
pub proof fn a_called_plan_answers_with_what_it_gave(
    identifier: Seq<char>,
    o: PipelineOutcomeView,
)
    requires
        o.exit is None,
    ensures
        ({
            let call = plan_call_result(identifier, Ok(o));
            &&& !call.is_error
            &&& !call.aborted
            &&& o.structured matches Some(v) ==> call.result == v
            &&& o.structured is None && o.answer.len() > 0 ==> member(call.result, "answer"@)
                == Some(Json::Text(o.answer))
            &&& o.structured is None && o.answer.len() == 0 ==> member(call.result, "ok"@) == Some(
                Json::Bool(true),
            ) && member(call.result, "steps_executed"@) == Some(
                Json::Num(Num::Int(count_executed(o.state))),
            )
        }),
{
    reveal_strlit("ok");
    reveal_strlit("steps_executed");
    assert("ok"@.len() != "steps_executed"@.len());
    lemma_holds_one("answer"@, Json::Text(o.answer), "answer"@);
    let n = Json::Num(Num::Int(count_executed(o.state)));
    lemma_holds_two("ok"@, Json::Bool(true), "steps_executed"@, n, "ok"@);
    lemma_holds_two("ok"@, Json::Bool(true), "steps_executed"@, n, "steps_executed"@);
}

/// A called plan that fails answers with an error that names it; missing data is
/// marked as such.
#[verifier::spinoff_prover]
#[verifier::rlimit(40)]
pub proof fn a_called_plan_that_fails_is_an_error(
    identifier: Seq<char>,
    e: PipelineErrorView,
    exit: PlanExitView,
    o: PipelineOutcomeView,
)
    ensures
        ({
            let call = plan_call_result(identifier, Err(e));
            &&& call.is_error
            &&& member(call.result, "error"@) matches Some(Json::Text(told)) && begins(
                told,
                "plan '"@ + identifier + "'"@,
            )
            &&& member(call.result, "empty_data"@) == (if e is EmptyData {
                Some(Json::Bool(true))
            } else {
                None
            })
        }),
        o.exit == Some(exit) ==> plan_call_result(identifier, Ok(o)) == exit_call(exit),
        planner_call_result(Err(e)).is_error && member(
            planner_call_result(Err(e)).result,
            "error"@,
        ) is Some,
{
    reveal_strlit("error");
    reveal_strlit("empty_data");
    assert("error"@.len() != "empty_data"@.len());
    let head = "plan '"@ + identifier + "'"@;
    assert forall|m: Seq<char>|
        member(#[trigger] crate::pipeline::engine::error_json(m), "error"@) == Some(Json::Text(m))
            && member(crate::pipeline::engine::error_json(m), "empty_data"@) is None by {
        lemma_holds_one("error"@, Json::Text(m), "error"@);
        lemma_holds_one("error"@, Json::Text(m), "empty_data"@);
    }
    reveal_strlit("plan '");
    reveal_strlit("'");
    reveal_strlit("' had no data at step ");
    reveal_strlit("' aborted at step ");
    reveal_strlit("' failed: ");
    match e {
        PipelineErrorView::EmptyData { step, message } => {
            let told = "plan '"@ + identifier + "' had no data at step "@ + step + ": "@ + message;
            assert(told.subrange(0, head.len() as int) =~= head);
            let t = Json::Text(told);
            let yes = Json::Bool(true);
            lemma_holds_two("error"@, t, "empty_data"@, yes, "error"@);
            lemma_holds_two("error"@, t, "empty_data"@, yes, "empty_data"@);
        },
        PipelineErrorView::Aborted { step, .. } => {
            let told = "plan '"@ + identifier + "' aborted at step "@ + step;
            assert(told.subrange(0, head.len() as int) =~= head);
        },
        _ => {
            let told = "plan '"@ + identifier + "' failed: "@
                + crate::pipeline::run::pipeline_error_text(e);
            assert(told.subrange(0, head.len() as int) =~= head);
        },
    }
}

/// A planned run that was called answers with its answer, whether it is a mere
/// explanation, and how much was done.
pub proof fn a_planned_run_answers_with_its_answer(o: PipelineOutcomeView, input: Json)
    ensures
        ({
            let call = planner_call_result(Ok(o));
            &&& !call.is_error
            &&& !call.aborted
            &&& member(call.result, "answer"@) == Some(Json::Text(o.answer))
            &&& member(call.result, "degraded"@) == Some(Json::Bool(o.degraded))
            &&& member(call.result, "steps_executed"@) == Some(
                Json::Num(Num::Int(count_executed(o.state))),
            )
        }),
        query_in(input) == match member(input, "query"@) {
            Some(Json::Text(q)) => Some(q),
            _ => None,
        },
{
    reveal_strlit("answer");
    reveal_strlit("degraded");
    reveal_strlit("steps_executed");
    assert("answer"@.len() != "degraded"@.len());
    assert("answer"@.len() != "steps_executed"@.len());
    assert("degraded"@.len() != "steps_executed"@.len());
    let a = Json::Text(o.answer);
    let d = Json::Bool(o.degraded);
    let n = Json::Num(Num::Int(count_executed(o.state)));
    let (k1, k2, k3) = ("answer"@, "degraded"@, "steps_executed"@);
    lemma_holds_three(k1, a, k2, d, k3, n, k1);
    lemma_holds_three(k1, a, k2, d, k3, n, k2);
    lemma_holds_three(k1, a, k2, d, k3, n, k3);
}

// ── Answering ────────────────────────────────────────────────────────────

proof fn lemma_payload(results: Entries, data: Entries, n: int, k: int)
    requires
        ascending(data),
        0 <= k < n <= data.len(),
    ensures
        lookup(payload_before(results, data, n), data[k].0) == Some(
            match data[k].1 {
                Json::Text(t) => match spliced(results, t) {
                    Ok(v) => v,
                    Err(_) => crate::pipeline::solver::payload_value(results, data[k].1),
                },
                other => other,
            },
        ),
    decreases n,
{
    let before = payload_before(results, data, n - 1);
    a_set_key_reads_back(
        before,
        data[n - 1].0,
        crate::pipeline::solver::payload_value(results, data[n - 1].1),
        data[k].0,
    );
    if k < n - 1 {
        lemma_payload(results, data, n - 1, k);
        assert(crate::text::text_less(data[k].0, data[n - 1].0));
        crate::value::text_less_irreflexive(data[k].0);
    }
}

/// The solver is given what its data names, each under its key, as it renders over
/// the results; without named data it is given the results themselves.
pub proof fn the_solver_is_given_what_its_data_names(s: RunStateView, k: int)
    requires
        ascending(s.solver_data.data),
    ensures
        ({
            let data = s.solver_data.data;
            &&& data.len() == 0 ==> payload(s) == s.results
            &&& 0 <= k < data.len() ==> match data[k].1 {
                Json::Text(t) => spliced(s.results, t) matches Ok(v) ==> lookup(
                    payload(s),
                    data[k].0,
                ) == Some(v),
                other => lookup(payload(s), data[k].0) == Some(other),
            }
        }),
{
    let data = s.solver_data.data;
    let named = payload_before(s.results, data, data.len() as int);
    if 0 <= k < data.len() {
        lemma_payload(s.results, data, data.len() as int, k);
        assert(named.len() > 0) by {
            if named.len() == 0 {
                assert(lookup(named, data[k].0) is None);
            }
        }
    }
}

/// What is small enough is given whole; what is not is cut down.
pub proof fn a_small_payload_is_given_whole(p: Entries)
    ensures
        encode_utf8(compact_text(Json::Object(p))).len() <= 400_000 ==> budgeted(p) == p,
        encode_utf8(compact_text(Json::Object(p))).len() > 400_000 ==> Json::Object(budgeted(p))
            == shrunk(Json::Object(p), 500, 25),
{
}

/// Cutting down keeps what is short: a text of at most so many characters, a list of
/// at most so many items, each in its place, and every key; a long text keeps its
/// beginning.
pub proof fn a_cut_keeps_what_is_short(v: Json, max_text: int, max_items: int, i: int)
    requires
        max_text >= 0,
        max_items >= 0,
    ensures
        match v {
            Json::Text(s) => shrunk(v, max_text, max_items) matches Json::Text(t) && (s.len()
                <= max_text ==> t == s) && (s.len() > max_text ==> t == s.take(max_text) + "…"@),
            Json::List(items) => shrunk(v, max_text, max_items) matches Json::List(out)
                && out.len() == (if items.len() <= max_items {
                items.len() as int
            } else {
                max_items
            }) && (0 <= i < out.len() ==> out[i] == shrunk(items[i], max_text, max_items)),
            Json::Object(e) => shrunk(v, max_text, max_items) matches Json::Object(out)
                && out.len() == e.len() && (0 <= i < e.len() ==> out[i].0 == e[i].0 && out[i].1
                == shrunk(e[i].1, max_text, max_items)),
            _ => shrunk(v, max_text, max_items) == v,
        },
{
    match v {
        Json::Text(s) => {
            if s.len() > max_text {
                assert(s.subrange(0, max_text) == s.take(max_text));
            }
        },
        Json::Object(e) => {
            let out = shrunk_entries(e, max_text, max_items);
            assert(shrunk(v, max_text, max_items) == Json::Object(out));
            assert(out.len() == e.len());
        },
        _ => {},
    }
}

/// The solver is asked the plan's question as it renders, or the run's where the
/// plan has none, with the collected data as JSON; it is told the date, what the
/// plan adds, and what ran out.
#[verifier::spinoff_prover]
#[verifier::rlimit(40)]
pub proof fn the_solver_is_asked_the_plans_question(s: RunStateView, date: Seq<char>)
    ensures
        ({
            let request = solve_request(s, date);
            let asked = s.solver_data.query_to_answer;
            &&& request.messages.len() == 1
            &&& request.tools.len() == 0
            &&& request.response_schema is None
            &&& request.messages[0] matches ChatMessageView::User(told) && holds_text(
                told,
                solver_query(s),
            ) && holds_text(told, pretty_text(Json::Object(budgeted(payload(s)))))
            &&& asked.len() == 0 ==> solver_query(s) == s.query
            &&& asked.len() > 0 ==> (rendered_text(s.results, asked) matches Ok(q) ==> solver_query(
                s,
            ) == q)
            &&& ends(request.system, date)
            &&& s.solver_data.system_prompt matches Some(extra) ==> begins(request.system, extra)
            &&& empty_note(s.bus, 0) matches Some(note) ==> holds_text(request.system, note)
        }),
{
    let query = solver_query(s);
    let data = pretty_text(Json::Object(budgeted(payload(s))));
    let told = "# Task\n"@ + query + "\n\n# Collected Data\n```json\n"@ + data + "\n```"@;
    let at = "# Task\n"@.len() as int;
    assert(told.subrange(at, at + query.len()) =~= query);
    let at2 = at + query.len() + "\n\n# Collected Data\n```json\n"@.len();
    assert(told.subrange(at2, at2 + data.len()) =~= data);
    let system = solver_system(s, date);
    assert(system.subrange(system.len() - date.len(), system.len() as int) =~= date);
    let head = match s.solver_data.system_prompt {
        Some(extra) => extra + "\n\n"@,
        None => Seq::empty(),
    };
    if let Some(extra) = s.solver_data.system_prompt {
        assert(system.subrange(0, extra.len() as int) =~= extra);
    }
    if let Some(note) = empty_note(s.bus, 0) {
        let lead = "\n\nNote: a step's data ran out — "@;
        let at3 = head.len() as int + crate::pipeline::prompts::SOLVER_SYSTEM_PROMPT@.len()
            + lead.len();
        assert(system.subrange(at3, at3 + note.len()) =~= note);
    }
}

/// What ran out is the first note of missing data.
pub proof fn the_first_note_of_missing_data_is_told(bus: Seq<BusEntryView>, from: int)
    requires
        0 <= from,
    ensures
        match empty_note(bus, from) {
            Some(note) => exists|i: int|
                from <= i < bus.len() && (#[trigger] bus[i]).kind == BusKind::EmptyData
                    && bus[i].content == note && forall|j: int|
                    from <= j < i ==> (#[trigger] bus[j]).kind != BusKind::EmptyData,
            None => forall|j: int|
                from <= j < bus.len() ==> (#[trigger] bus[j]).kind != BusKind::EmptyData,
        },
    decreases bus.len() - from,
{
    if from < bus.len() {
        the_first_note_of_missing_data_is_told(bus, from + 1);
        if bus[from].kind == BusKind::EmptyData {
            assert(bus[from].content == empty_note(bus, from)->Some_0);
        } else if let Some(note) = empty_note(bus, from + 1) {
            let i = choose|i: int|
                from + 1 <= i < bus.len() && (#[trigger] bus[i]).kind == BusKind::EmptyData
                    && bus[i].content == note && forall|j: int|
                    from + 1 <= j < i ==> (#[trigger] bus[j]).kind != BusKind::EmptyData;
            assert(bus[i].content == note);
        }
    }
}

/// A model's answer is the run's answer; an explanation of a failure is marked as no
/// solution.
pub proof fn a_models_answer_is_the_runs_answer(s: RunStateView, content: Option<Seq<char>>)
    ensures
        ({
            let said = match content {
                Some(t) => t,
                None => ""@,
            };
            &&& solved(s, content).answer == said
            &&& !solved(s, content).degraded
            &&& solved(s, content).structured is None && solved(s, content).exit is None
            &&& solved(s, content).state.results == s.results
            &&& summarized(s, content).answer == said
            &&& summarized(s, content).degraded
            &&& summarized(s, content).structured is None && summarized(s, content).exit is None
            &&& summarized(s, content).state == s
        }),
{
    reveal_strlit("");
    assert(""@ =~= Seq::<char>::empty());
}

proof fn lemma_error_lines(bus: Seq<BusEntryView>, n: int, k: int)
    requires
        0 <= k < n <= bus.len(),
        bus[k].kind == BusKind::Error,
    ensures
        error_lines(bus, n).contains("- "@ + bus[k].source + ": "@ + bus[k].content),
    decreases n,
{
    let line = "- "@ + bus[k].source + ": "@ + bus[k].content;
    let now = error_lines(bus, n);
    if k == n - 1 {
        assert(now.last() == line);
        assert(now[now.len() - 1] == line);
    } else {
        lemma_error_lines(bus, n - 1, k);
        let before = error_lines(bus, n - 1);
        let j = choose|j: int| 0 <= j < before.len() && before[j] == line;
        assert(now[j] == line);
    }
}

/// A failure is explained from the task, the plan and every error.
#[verifier::spinoff_prover]
#[verifier::rlimit(40)]
pub proof fn a_failure_is_explained_from_its_errors(s: RunStateView, k: int)
    ensures
        ({
            let lines = error_lines(s.bus, s.bus.len() as int);
            let request = summary_request(s);
            &&& request.messages.len() == 1
            &&& request.messages[0] matches ChatMessageView::User(told) && holds_text(told, s.query)
                && ends(told, joined(lines, "\n"@))
            &&& 0 <= k < s.bus.len() && s.bus[k].kind == BusKind::Error ==> lines.contains(
                "- "@ + s.bus[k].source + ": "@ + s.bus[k].content,
            )
        }),
{
    let lines = error_lines(s.bus, s.bus.len() as int);
    let tail = joined(lines, "\n"@);
    let told = "# Original task\n"@ + s.query + "\n\n# Plan attempted\n"@
        + crate::pipeline::written::plan_page(s.plan) + "\n\n# Errors\n"@ + tail;
    let at = "# Original task\n"@.len() as int;
    assert(told.subrange(at, at + s.query.len()) =~= s.query);
    assert(told.subrange(told.len() - tail.len(), told.len() as int) =~= tail);
    if 0 <= k < s.bus.len() && s.bus[k].kind == BusKind::Error {
        lemma_error_lines(s.bus, s.bus.len() as int, k);
    }
}

} // verus!
