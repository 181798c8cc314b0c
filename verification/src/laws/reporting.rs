//! What is reported of steps as they begin, what keeps a run from beginning, and what
//! the tags of a template may be.

use crate::laws::objects::{lemma_holds_three, lemma_holds_two};
use crate::pipeline::authoring::{identifier_given, steps_problems};
use crate::pipeline::catalog::{plan_findings, ToolCatalogView};
use crate::pipeline::condition::verdict_of;
use crate::pipeline::decision::{decide_begun, decide_condition, decide_of};
use crate::pipeline::engine::{call_recorded, exit_recorded, with_note, ExecutionEndView};
use crate::pipeline::exit::{ExitEvalView, PlanExitView};
use crate::pipeline::filter::{
    filter_payload, item_render_fail, item_verdict, FilterWorkView, ItemGateView,
    VerdictStepView,
};
use crate::pipeline::iterate::map_payload;
use crate::pipeline::plan::StepView;
use crate::pipeline::run::{attempted, exited, explicit_problems};
use crate::pipeline::run_body::StepFailView;
use crate::pipeline::solver::solved;
use crate::pipeline::state::{BusKind, RunStateView};
use crate::template::parser::{path_of, seg_of, with_tag, FrameView, NodeView, PathView, SegView};
use crate::template::render::{rendered_input, rendered_text};
use crate::template::{render_message, RenderErrorView};
use crate::text::{all_digits, begins, ends, number_of, numeral, trimmed};
use crate::value::{a_set_key_reads_back, lookup, member, Entries, Json, Num};
use crate::yaml::{yaml_member, YamlView};
use vstd::prelude::*;

verus! {

/// A filter that begins is reported with how many items it has, what its gate is and
/// how many may be in flight; a map with how many items and how many in flight.
pub proof fn an_iteration_is_reported_as_it_begins(w: FilterWorkView, items: int, flight: int)
    ensures
        member(filter_payload(w), "over"@) == Some(Json::Num(Num::Int(w.items.len() as int))),
        w.gate is Where ==> member(filter_payload(w), "mode"@) == Some(Json::Text("where"@)),
        w.gate is Infer ==> member(filter_payload(w), "mode"@) == Some(Json::Text("infer"@)),
        member(filter_payload(w), "concurrency"@) == Some(Json::Num(Num::Int(w.concurrency))),
        member(map_payload(items, flight), "over"@) == Some(Json::Num(Num::Int(items))),
        member(map_payload(items, flight), "concurrency"@) == Some(Json::Num(Num::Int(flight))),
{
    reveal_strlit("over");
    reveal_strlit("mode");
    reveal_strlit("concurrency");
    assert("over"@[0] != "mode"@[0]);
    assert("over"@.len() != "concurrency"@.len());
    assert("mode"@.len() != "concurrency"@.len());
    let over = Json::Num(Num::Int(w.items.len() as int));
    let mode = Json::Text(
        match w.gate {
            ItemGateView::Where(_) => "where"@,
            ItemGateView::Infer(_) => "infer"@,
        },
    );
    let many = Json::Num(Num::Int(w.concurrency));
    let (k1, k2, k3) = ("over"@, "mode"@, "concurrency"@);
    lemma_holds_three(k1, over, k2, mode, k3, many, k1);
    lemma_holds_three(k1, over, k2, mode, k3, many, k2);
    lemma_holds_three(k1, over, k2, mode, k3, many, k3);
    let (a, b) = (Json::Num(Num::Int(items)), Json::Num(Num::Int(flight)));
    lemma_holds_two(k1, a, k3, b, k1);
    lemma_holds_two(k1, a, k3, b, k3);
}

/// An explicit run begins exactly where its plan is sound and, where a catalogue is at
/// hand, every name in it resolves; what is wrong with the plan is told first.
pub proof fn a_run_begins_only_on_a_sound_plan(
    plan: Seq<StepView>,
    catalog: Option<ToolCatalogView>,
)
    ensures
        explicit_problems(plan, catalog).len() == 0 <==> steps_problems(plan).len() == 0 && (catalog
            matches Some(c) ==> plan_findings(plan, Seq::empty(), c).errors.len() == 0),
        steps_problems(plan).len() > 0 ==> explicit_problems(plan, catalog) == steps_problems(plan),
{
}

/// A file's identifier is the text under its key.
pub proof fn a_files_identifier_is_the_text_under_its_key(doc: YamlView, id: Seq<char>)
    ensures
        yaml_member(doc, "identifier"@) == Some(YamlView::Text(id)) ==> identifier_given(doc)
            == Some(id),
        yaml_member(doc, "identifier"@) is None ==> identifier_given(doc) is None,
{
}

/// A decision shows its rendered condition and its rendered question, each under its
/// name; where it cannot be begun it ends under its own step and name.
pub proof fn a_decide_step_shows_what_it_rendered(step: Seq<char>, e: Entries, results: Entries)
    ensures
        match decide_begun(step, e, results) {
            Ok(begun) => decide_of(e) matches Ok(spec) && {
                &&& spec.if_ matches Some(raw) ==> (rendered_input(results, raw) matches Ok(v)
                    && lookup(begun.payload, "if"@) == Some(v))
                &&& spec.if_ is None ==> lookup(begun.payload, "if"@) is None
                &&& spec.infer matches Some(t) ==> (rendered_text(results, t) matches Ok(q)
                    && lookup(begun.payload, "infer"@) == Some(Json::Text(q)))
                &&& spec.infer is None ==> lookup(begun.payload, "infer"@) is None
            },
            Err(ExecutionEndView::Failed { step: at, tool, message }) => at == step && tool
                == "decide"@,
            Err(ExecutionEndView::Empty { step: at, message }) => at == step,
            Err(_) => false,
        },
{
    reveal_strlit("if");
    reveal_strlit("infer");
    assert("if"@.len() != "infer"@.len());
    if let Ok(begun) = decide_begun(step, e, results) {
        let spec = decide_of(e)->Ok_0;
        let (condition, base) = decide_condition(spec, results, step)->Ok_0;
        if let Some(raw) = spec.if_ {
            let v = rendered_input(results, raw)->Ok_0;
            a_set_key_reads_back(Entries::empty(), "if"@, v, "if"@);
            a_set_key_reads_back(Entries::empty(), "if"@, v, "infer"@);
        }
        assert(lookup(Entries::empty(), "if"@) is None);
        assert(lookup(Entries::empty(), "infer"@) is None);
        if let Some(t) = spec.infer {
            let q = Json::Text(rendered_text(results, t)->Ok_0);
            a_set_key_reads_back(base, "infer"@, q, "if"@);
            a_set_key_reads_back(base, "infer"@, q, "infer"@);
        }
    }
}

/// A judge's answer is read from its own fields.
pub proof fn a_verdict_is_what_is_written(e: Entries)
    ensures
        verdict_of(Json::Object(e)) matches Ok(v) ==> lookup(e, "verdict"@) == Some(
            Json::Bool(v.verdict),
        ) && lookup(e, "reason"@) == Some(Json::Text(v.reason)),
{
    if verdict_of(Json::Object(e)) is Ok {
        crate::laws::reading::a_verdict_is_read_only_whole(e);
    }
}

/// An item whose gate does not render fails with the field and the item's place, or
/// as running out of data.
pub proof fn an_item_whose_gate_does_not_render_is_named(
    raw: Json,
    question: Seq<char>,
    scope: Entries,
    index: nat,
)
    ensures
        rendered_text(scope, question) matches Err(e) ==> (item_verdict(
            ItemGateView::Infer(question),
            scope,
            index as int,
        ) matches VerdictStepView::Decided(Err(fail)) && fails_at(fail, e, "infer"@, index)),
        rendered_input(scope, raw) matches Err(e) ==> (item_verdict(
            ItemGateView::Where(raw),
            scope,
            index as int,
        ) matches VerdictStepView::Decided(Err(fail)) && fails_at(fail, e, "where"@, index)),
{
    if let Err(e) = rendered_text(scope, question) {
        lemma_fails_at(e, "infer"@, index);
    }
    if let Err(e) = rendered_input(scope, raw) {
        lemma_fails_at(e, "where"@, index);
    }
}

/// Whether a failure is that of an item's field which does not render.
pub open spec fn fails_at(
    fail: StepFailView,
    e: RenderErrorView,
    field: Seq<char>,
    index: nat,
) -> bool {
    match fail {
        StepFailView::Empty(same) => same == e && e is EmptyData,
        StepFailView::Failed(told) => !(e is EmptyData) && begins(
            told,
            "`"@ + field + "` item "@ + numeral(index),
        ) && ends(told, render_message(e)),
        StepFailView::Aborted(_) => false,
    }
}

proof fn lemma_fails_at(e: RenderErrorView, field: Seq<char>, index: nat)
    ensures
        fails_at(item_render_fail(e, field, index as int), e, field, index),
{
    if let StepFailView::Failed(told) = item_render_fail(e, field, index as int) {
        let head = "`"@ + field + "` item "@ + numeral(index);
        let why = render_message(e);
        assert(told.subrange(0, head.len() as int) =~= head);
        assert(told.subrange(told.len() - why.len(), told.len() as int) =~= why);
    }
}

// ── Tags ─────────────────────────────────────────────────────────────────

/// A tag outside the dialect is refused: an empty one, a partial, a block, a parent, a
/// comment, and one that closes what is not open.
pub proof fn a_tag_outside_the_dialect_is_refused(stack: Seq<FrameView>, tag: Seq<char>)
    ensures
        tag.len() == 0 ==> with_tag(stack, tag) is Err,
        tag.len() > 0 && (tag[0] == '>' || tag[0] == '<' || tag[0] == '$' || tag[0] == '!')
            ==> with_tag(stack, tag) is Err,
        tag.len() > 0 && tag[0] == '/' ==> (with_tag(stack, tag) is Ok <==> (stack.last().header
            matches Some(h) && h.2 == trimmed(tag.skip(1)))),
{
}

/// A tag with a number sign opens a section and one with a caret its inverse; closing it
/// puts the section, with what was read in it, behind what stood before.
pub proof fn a_section_is_opened_and_closed(
    stack: Seq<FrameView>,
    name: Seq<char>,
    path: PathView,
    sigil: char,
    inside: FrameView,
)
    requires
        stack.len() > 0,
        path_of(trimmed(name)) == Ok::<PathView, RenderErrorView>(path),
        sigil == '#' || sigil == '^',
    ensures
        with_tag(stack, seq![sigil] + name) matches Ok(open) && open.len() == stack.len() + 1
            && open.last().header == Some((path, sigil == '^', trimmed(name)))
            && open.last().nodes.len() == 0,
        inside.header == Some((path, sigil == '^', trimmed(name))) ==> (with_tag(
            stack.push(inside),
            seq!['/'] + name,
        ) matches Ok(shut) && shut.len() == stack.len() && shut.last().nodes
            == stack.last().nodes.push(
            NodeView::Section { path, inverted: sigil == '^', body: inside.nodes },
        ) && shut.last().header == stack.last().header),
{
    assert((seq![sigil] + name).skip(1) =~= name);
    assert((seq!['/'] + name).skip(1) =~= name);
    assert(stack.push(inside).drop_last() =~= stack);
}

/// A part of a path is a length, an index or a key; it is never empty, never a loop
/// variable, and never an index beyond what can be counted.
pub proof fn a_part_of_a_path_is_a_length_an_index_or_a_key(raw: Seq<char>, part: Seq<char>)
    ensures
        match seg_of(raw, part) {
            Ok(SegView::Length) => part == "length"@,
            Ok(SegView::Index(n)) => part.len() > 0 && all_digits(part) && n == number_of(part)
                && n <= usize::MAX,
            Ok(SegView::Key(k)) => k == part && part.len() > 0 && part[0] != '@' && part
                != "length"@ && !all_digits(part),
            Err(_) => part.len() == 0 || part[0] == '@' || (all_digits(part) && number_of(part)
                > usize::MAX),
        },
{
}

// ── The run's log ────────────────────────────────────────────────────────

/// A note is the last entry of the log, as it was given; an attempt is counted once;
/// nothing else of the run changes.
pub proof fn a_note_is_logged_as_it_was_given(
    s: RunStateView,
    source: Seq<char>,
    kind: BusKind,
    content: Seq<char>,
)
    ensures
        ({
            let after = with_note(s, source, kind, content);
            &&& after.bus.len() == s.bus.len() + 1
            &&& after.bus.drop_last() == s.bus
            &&& after.bus.last().source == source
            &&& after.bus.last().kind == kind
            &&& after.bus.last().content == content
            &&& after == (RunStateView { bus: after.bus, ..s })
        }),
        attempted(s).plan_attempts == s.plan_attempts + 1,
        attempted(s) == (RunStateView { plan_attempts: s.plan_attempts + 1, ..s }),
{
    assert(with_note(s, source, kind, content).bus.drop_last() =~= s.bus);
}

/// What ends or carries on a run is noted in the log: a call that went well, a gate
/// that let the plan go on, an exit with its message, the solver's answer.
pub proof fn each_end_is_noted(
    s: RunStateView,
    id: Seq<char>,
    tool: Seq<char>,
    value: Json,
    exit: PlanExitView,
    content: Option<Seq<char>>,
)
    ensures
        call_recorded(s, id, tool, Ok(value)).0.bus.last().content == "ok"@,
        exit_recorded(s, id, Ok(ExitEvalView::Passed(value))).0.bus.last().content
            == "gate passed"@,
        exited(s, exit).state.bus.last().content == "exited: "@ + exit.message,
        exited(s, exit).state.bus.last().kind == BusKind::Info,
        solved(s, content).state.bus.last().source == "solver"@,
        solved(s, content).state.bus.last().kind == BusKind::Info,
        solved(s, content).state.bus.last().content == "answered"@,
        solved(s, content).state.bus.drop_last() == s.bus,
{
    assert(solved(s, content).state.bus.drop_last() =~= s.bus);
}

} // verus!
