//! Messages and the small texts that they are made of.

use crate::laws::agents::holds_text;
use crate::laws::conversing::lemma_stands_between;
use crate::pipeline::ask::{quoted_prompt, unanswered_text};
use crate::pipeline::body::BranchView;
use crate::pipeline::doc::{doc_error_text, input_findings, DocErrorView, PlanDocView};
use crate::pipeline::iterate::{notes_of_items, steps_of_items, ItemOutcomeView};
use crate::pipeline::run_body::{body_failure, body_path, BodyWorkView};
use crate::pipeline::calls::entry_problem;
use crate::pipeline::run::{pipeline_error_text, PipelineErrorView};
use crate::pipeline::schema::{refusal_text, RefusalView};
use crate::pipeline::state::BusEntryView;
use crate::template::render::{key_digest, kind_text};
use crate::template::{render_message, RenderErrorView};
use crate::text::{begins, ends, joined, numeral, shortened, trimmed};
use crate::value::{keys_of, number_text, same_number, Entries, Json, Num};
use vstd::prelude::*;

verus! {

/// A whole number is written with its digits, a negative one with a minus before them,
/// and a fraction as it was given.
pub proof fn a_number_is_written_with_its_sign(n: nat, t: Seq<char>)
    ensures
        number_text(Num::Int(n as int)) == numeral(n),
        n > 0 ==> number_text(Num::Int(-(n as int))) == "-"@ + numeral(n),
        number_text(Num::Float(t)) == t,
{
    if n > 0 {
        assert((-(-(n as int))) as nat == n);
    }
}

/// Two whole numbers are the same exactly where they are equal; a whole number is never
/// the same as a fraction.
pub proof fn the_same_number_is_an_equal_one(x: int, y: int, s: Seq<char>, t: Seq<char>)
    ensures
        same_number(Num::Int(x), Num::Int(y)) <==> x == y,
        !same_number(Num::Int(x), Num::Float(s)) && !same_number(Num::Float(s), Num::Int(x)),
        same_number(Num::Float(s), Num::Float(t)) <==> s == t || ((s == "0.0"@ || s == "-0.0"@) && (
        t == "0.0"@ || t == "-0.0"@)),
{
}

/// A text is cut to its first characters and marked where it was longer.
pub proof fn a_long_text_is_cut_and_marked(s: Seq<char>, max: int)
    requires
        0 <= max,
    ensures
        s.len() <= max ==> shortened(s, max) == s,
        s.len() > max ==> shortened(s, max) == s.take(max) + "…"@,
        crate::pipeline::agent::MAX_QUOTED_CHARS == 200,
{
    if s.len() > max {
        assert(s.subrange(0, max) =~= s.take(max));
    }
}

/// What went wrong in a template is told with the step or the path it is about.
#[verifier::spinoff_prover]
#[verifier::rlimit(40)]
pub proof fn a_template_error_names_its_place(
    name: Seq<char>,
    reason: Seq<char>,
    available: Seq<Seq<char>>,
)
    ensures
        begins(
            render_message(RenderErrorView::MissingStep { step: name, available }),
            "template references step '"@ + name + "'"@,
        ),
        holds_text(
            render_message(RenderErrorView::MissingStep { step: name, available }),
            joined(available, ", "@),
        ),
        begins(
            render_message(RenderErrorView::BadPath { path: name, reason }),
            "bad path '"@ + name + "'"@,
        ),
        ends(render_message(RenderErrorView::BadPath { path: name, reason }), reason),
        begins(
            render_message(RenderErrorView::EmptyData { path: name, reason }),
            "empty data at '"@ + name + "'"@,
        ),
        ends(render_message(RenderErrorView::EmptyData { path: name, reason }), reason),
        ends(render_message(RenderErrorView::Parse(reason)), reason),
{
    reveal_strlit("'");
    reveal_strlit("' which has no result (available: ");
    reveal_strlit("': ");
    let missing = render_message(RenderErrorView::MissingStep { step: name, available });
    let head = "template references step '"@ + name + "'"@;
    assert(missing.subrange(0, head.len() as int) =~= head);
    let list = joined(available, ", "@);
    lemma_stands_between(
        "template references step '"@ + name + "' which has no result (available: "@,
        list,
        ")"@,
    );
    let bad = render_message(RenderErrorView::BadPath { path: name, reason });
    let h2 = "bad path '"@ + name + "'"@;
    assert(bad.subrange(0, h2.len() as int) =~= h2);
    assert(bad.subrange(bad.len() - reason.len(), bad.len() as int) =~= reason);
    let empty = render_message(RenderErrorView::EmptyData { path: name, reason });
    let h3 = "empty data at '"@ + name + "'"@;
    assert(empty.subrange(0, h3.len() as int) =~= h3);
    assert(empty.subrange(empty.len() - reason.len(), empty.len() as int) =~= reason);
    let parse = render_message(RenderErrorView::Parse(reason));
    assert(parse.subrange(parse.len() - reason.len(), parse.len() as int) =~= reason);
}

/// A value is named by its kind, and an object by its keys, a dozen at most.
pub proof fn a_value_is_named_by_its_kind(v: Json, e: Entries)
    ensures
        kind_text(v) == match v {
            Json::Null => "null"@,
            Json::Bool(_) => "a boolean"@,
            Json::Num(_) => "a number"@,
            Json::Text(_) => "a string"@,
            Json::List(_) => "an array"@,
            Json::Object(_) => "an object"@,
        },
        keys_of(e).len() <= 12 ==> key_digest(e) == joined(keys_of(e), ", "@),
        keys_of(e).len() > 12 ==> key_digest(e) == joined(keys_of(e).take(12), ", "@),
{
}

/// A document that cannot be loaded is told with its file, or with the identifier that
/// stands twice.
pub proof fn a_document_error_names_its_file(path: Seq<char>, message: Seq<char>)
    ensures
        doc_error_text(DocErrorView::Invalid { path, message }) == path + ": "@ + message,
        holds_text(doc_error_text(DocErrorView::Duplicate(path)), path),
        holds_text(doc_error_text(DocErrorView::Io { path, message }), path),
        ends(doc_error_text(DocErrorView::Io { path, message }), message),
{
    lemma_stands_between("duplicate plan identifier '"@, path, "'"@);
    let io = doc_error_text(DocErrorView::Io { path, message });
    lemma_stands_between("io error reading "@, path, ": "@ + message);
    assert(io =~= "io error reading "@ + path + (": "@ + message));
    assert(io.subrange(io.len() - message.len(), io.len() as int) =~= message);
}

/// A plan's input is held against its schema, where it has one that is valid.
pub proof fn an_input_is_found_as_its_schema_says(
    doc: PlanDocView,
    fault: bool,
    errors: Seq<Seq<char>>,
)
    ensures
        doc.input_schema is None ==> input_findings(doc, fault, errors).len() == 0,
        doc.input_schema is Some && !fault ==> input_findings(doc, fault, errors) == errors,
        doc.input_schema is Some && fault ==> input_findings(doc, fault, errors).len() == 1
            && holds_text(input_findings(doc, fault, errors)[0], doc.identifier),
{
    lemma_stands_between("plan '"@, doc.identifier, "' has an invalid input_schema"@);
}

/// What a schema is refused for is told as it was given.
pub proof fn a_refusal_is_told_as_it_was_given(message: Seq<char>)
    ensures
        refusal_text(RefusalView::Invalid(message)) == message,
        refusal_text(RefusalView::Unretrievable)
            == "it refers to a document that is not part of it"@,
        refusal_text(RefusalView::Uncompilable) == "it cannot be compiled"@,
{
}

/// A question that nobody answered is told by its first eighty characters, with the
/// reason.
pub proof fn an_unanswered_question_is_told(prompt: Seq<char>, reason: Seq<char>)
    ensures
        trimmed(prompt).len() <= 80 ==> quoted_prompt(prompt) == trimmed(prompt),
        trimmed(prompt).len() > 80 ==> quoted_prompt(prompt) == trimmed(prompt).take(80) + "…"@,
        holds_text(unanswered_text(prompt, reason), quoted_prompt(prompt)),
        holds_text(unanswered_text(prompt, reason), reason),
{
    a_long_text_is_cut_and_marked(trimmed(prompt), 80);
    let told = unanswered_text(prompt, reason);
    let q = quoted_prompt(prompt);
    let end = "), and `whenUnanswered` is \"fail\" — declare a `default` with whenUnanswered: default to make this plan runnable without a human"@;
    lemma_stands_between("no answer to \""@, q, "\" ("@ + reason + end);
    assert(told =~= "no answer to \""@ + q + ("\" ("@ + reason + end));
    lemma_stands_between("no answer to \""@ + q + "\" ("@, reason, end);
    assert(told =~= "no answer to \""@ + q + "\" ("@ + reason + end);
}

/// A failure in a body is told with the call it happened in, and the call is found
/// under the body's step.
#[verifier::spinoff_prover]
#[verifier::rlimit(40)]
pub proof fn a_failure_in_a_body_names_its_call(w: BodyWorkView, message: Seq<char>)
    ensures
        begins(body_failure(w, message), w.label),
        ends(body_failure(w, message), message),
        match w.branch {
            BranchView::Call(call) => holds_text(body_failure(w, message), call.tool_name),
            BranchView::Steps(steps) => holds_text(body_failure(w, message), steps[w.at].id)
                && holds_text(body_failure(w, message), steps[w.at].tool_name),
        },
        body_path(w).step == w.step,
        body_path(w).body == Some(w.path),
        body_path(w).body_step == match w.branch {
            BranchView::Call(_) => None,
            BranchView::Steps(steps) => Some(steps[w.at].id),
        },
{
    let told = body_failure(w, message);
    assert(told.subrange(0, w.label.len() as int) =~= w.label);
    assert(told.subrange(told.len() - message.len(), told.len() as int) =~= message);
    match w.branch {
        BranchView::Call(call) => {
            lemma_stands_between(w.label + " ("@, call.tool_name, "): "@ + message);
            assert(told =~= w.label + " ("@ + call.tool_name + ("): "@ + message));
        },
        BranchView::Steps(steps) => {
            let id = steps[w.at].id;
            let tool = steps[w.at].tool_name;
            lemma_stands_between(w.label + " step "@, id, " ("@ + tool + "): "@ + message);
            assert(told =~= w.label + " step "@ + id + (" ("@ + tool + "): "@ + message));
            lemma_stands_between(w.label + " step "@ + id + " ("@, tool, "): "@ + message);
            assert(told =~= w.label + " step "@ + id + " ("@ + tool + ("): "@ + message));
        },
    }
}

/// The steps that an iteration ran are counted over all its items, and their notes
/// follow each other in the items' order.
pub proof fn an_iterations_items_are_counted_in_order(
    outcomes: Seq<ItemOutcomeView>,
    o: ItemOutcomeView,
)
    ensures
        ({
            let n = outcomes.len() as int;
            let (ran, notes) = match o {
                None => (0int, Seq::<BusEntryView>::empty()),
                Some(Ok(run)) => (run.steps_executed, run.bus),
                Some(Err(e)) => (e.steps_executed, e.bus),
            };
            &&& steps_of_items(outcomes.push(o), n + 1) == steps_of_items(outcomes, n) + ran
            &&& notes_of_items(outcomes.push(o), n + 1) == notes_of_items(outcomes, n) + notes
            &&& steps_of_items(Seq::empty(), 0) == 0
            &&& notes_of_items(Seq::empty(), 0).len() == 0
        }),
{
    lemma_same_front(outcomes, o, outcomes.len() as int);
}

proof fn lemma_same_front(outcomes: Seq<ItemOutcomeView>, o: ItemOutcomeView, n: int)
    requires
        0 <= n <= outcomes.len(),
    ensures
        steps_of_items(outcomes.push(o), n) == steps_of_items(outcomes, n),
        notes_of_items(outcomes.push(o), n) == notes_of_items(outcomes, n),
    decreases n,
{
    if n > 0 {
        lemma_same_front(outcomes, o, n - 1);
        assert(outcomes.push(o)[n - 1] == outcomes[n - 1]);
    }
}

/// What stopped a run is told with the step, the tool and the reason.
#[verifier::spinoff_prover]
#[verifier::rlimit(40)]
pub proof fn what_stopped_a_run_is_told(
    step: Seq<char>,
    tool: Seq<char>,
    message: Seq<char>,
    stack: Seq<Seq<char>>,
    name: Seq<char>,
)
    ensures
        ({
            let failed = PipelineErrorView::StepFailed { step, tool, message };
            let told = pipeline_error_text(failed);
            begins(told, "plan failed at step "@ + step) && holds_text(told, tool) && ends(
                told,
                message,
            )
        }),
        pipeline_error_text(PipelineErrorView::Llm(message)) == message,
        ends(pipeline_error_text(PipelineErrorView::InvalidPlan(message)), message),
        ends(pipeline_error_text(PipelineErrorView::OutputRender(message)), message),
        ({
            let empty = PipelineErrorView::EmptyData { step, message };
            begins(pipeline_error_text(empty), "plan data ran out at step "@ + step) && ends(
                pipeline_error_text(empty),
                message,
            )
        }),
        entry_problem(stack, name) matches Some(why) ==> holds_text(why, joined(stack, " → "@)),
        name != "plan_and_execute"@ && stack.contains(name) ==> (entry_problem(stack, name)
            matches Some(why) && ends(why, name)),
{
    let told = pipeline_error_text(PipelineErrorView::StepFailed { step, tool, message });
    let head = "plan failed at step "@ + step;
    assert(told.subrange(0, head.len() as int) =~= head);
    assert(told.subrange(told.len() - message.len(), told.len() as int) =~= message);
    lemma_stands_between(head + " ("@, tool, "): "@ + message);
    assert(told =~= head + " ("@ + tool + ("): "@ + message));
    let t2 = pipeline_error_text(PipelineErrorView::InvalidPlan(message));
    assert(t2.subrange(t2.len() - message.len(), t2.len() as int) =~= message);
    let t3 = pipeline_error_text(PipelineErrorView::OutputRender(message));
    assert(t3.subrange(t3.len() - message.len(), t3.len() as int) =~= message);
    let t4 = pipeline_error_text(PipelineErrorView::EmptyData { step, message });
    let h4 = "plan data ran out at step "@ + step;
    assert(t4.subrange(0, h4.len() as int) =~= h4);
    assert(t4.subrange(t4.len() - message.len(), t4.len() as int) =~= message);
    let chain = joined(stack, " → "@);
    let cycle = "recursive plan cycle: "@ + chain + " → "@ + name;
    lemma_stands_between("recursive plan cycle: "@, chain, " → "@ + name);
    assert(cycle =~= "recursive plan cycle: "@ + chain + (" → "@ + name));
    assert(cycle.subrange(cycle.len() - name.len(), cycle.len() as int) =~= name);
    let deep = "plan call depth exceeded (8): "@ + chain;
    lemma_stands_between("plan call depth exceeded (8): "@, chain, Seq::empty());
    assert(deep =~= "plan call depth exceeded (8): "@ + chain + Seq::empty());
}

} // verus!
