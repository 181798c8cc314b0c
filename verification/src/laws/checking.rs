//! What a sound step is: its references, its body and its own rules.

use crate::pipeline::agent::agent_problems;
use crate::pipeline::ask::{ask_of, ask_problems, WhenUnanswered};
use crate::pipeline::body::{
    body_id_problems, body_input_problems, body_problems, body_steps_problems, body_tool_problems,
    branch_of, ids_of, is_namespaced, BranchView,
};
use crate::pipeline::decision::{decide_of, decide_problems};
use crate::pipeline::filter::{filter_of, filter_problems, gate_names};
use crate::pipeline::iterate::{
    eager_problems, kind_of, map_of, map_problems, not_a_list, reduce_of, reduce_problems,
    rendered_over,
};
use crate::pipeline::engine::ExecutionEndView;
use crate::pipeline::plan::{id_problem, number_in_id, StepView};
use crate::pipeline::references::{
    fields_problems, fields_roots, input_problems, items_problems, items_roots, roots_problems,
    template_problems, templated, value_roots,
};
use crate::pipeline::schema::{mismatch, mismatch_text, schema_errors, schema_fault};
use crate::template::render::rendered_input;
use crate::template::roots_of;
use crate::text::{begins, ends, joined, occurs};
use crate::value::{member, Entries, Json};
use vstd::prelude::*;

verus! {

// ── References ───────────────────────────────────────────────────────────

/// Whether a text refers to nothing but known steps: it has no tag, or its tags can
/// be read and every numbered step in them is known.
pub open spec fn refers_soundly(s: Seq<char>, known: Seq<Seq<char>>) -> bool {
    occurs(s, "{{"@) ==> (roots_of(s) matches Ok(roots) && forall|i: int|
        0 <= i < roots.len() && number_in_id(#[trigger] roots[i]) is Some ==> known.contains(
            roots[i],
        ))
}

/// Whether every text in a value refers to nothing but known steps.
pub open spec fn sound(v: Json, known: Seq<Seq<char>>) -> bool
    decreases v,
{
    match v {
        Json::Text(s) => refers_soundly(s, known),
        Json::List(items) => forall|i: int|
            0 <= i < items.len() ==> sound(#[trigger] items[i], known),
        Json::Object(e) => forall|i: int| 0 <= i < e.len() ==> sound((#[trigger] e[i]).1, known),
        _ => true,
    }
}

proof fn lemma_roots(roots: Seq<Seq<char>>, known: Seq<Seq<char>>, step: Seq<char>, n: int)
    requires
        0 <= n <= roots.len(),
    ensures
        roots_problems(roots, known, step, n).len() == 0 <==> forall|i: int|
            0 <= i < n && number_in_id(#[trigger] roots[i]) is Some ==> known.contains(roots[i]),
    decreases n,
{
    if n > 0 {
        lemma_roots(roots, known, step, n - 1);
        let last = roots[n - 1];
    }
}

proof fn lemma_items(items: Seq<Json>, known: Seq<Seq<char>>, step: Seq<char>, n: int)
    requires
        0 <= n <= items.len(),
        forall|i: int|
            0 <= i < items.len() ==> (template_problems(#[trigger] items[i], known, step).len() == 0
                <==> sound(items[i], known)),
    ensures
        items_problems(items, known, step, n).len() == 0 <==> forall|i: int|
            0 <= i < n ==> sound(#[trigger] items[i], known),
    decreases n,
{
    if n > 0 {
        lemma_items(items, known, step, n - 1);
        let last = items[n - 1];
    }
}

proof fn lemma_fields(e: Entries, known: Seq<Seq<char>>, step: Seq<char>, n: int)
    requires
        0 <= n <= e.len(),
        forall|i: int|
            0 <= i < e.len() ==> (template_problems((#[trigger] e[i]).1, known, step).len() == 0
                <==> sound(e[i].1, known)),
    ensures
        fields_problems(e, known, step, n).len() == 0 <==> forall|i: int|
            0 <= i < n ==> sound((#[trigger] e[i]).1, known),
    decreases n,
{
    if n > 0 {
        lemma_fields(e, known, step, n - 1);
        let last = e[n - 1];
    }
}

/// A value has no problem exactly where every text in it, however deep, refers to
/// nothing but known steps.
pub proof fn a_value_is_sound_where_all_its_texts_are(
    v: Json,
    known: Seq<Seq<char>>,
    step: Seq<char>,
)
    ensures
        template_problems(v, known, step).len() == 0 <==> sound(v, known),
    decreases v,
{
    match v {
        Json::Text(s) => {
            if occurs(s, "{{"@) {
                if let Ok(roots) = roots_of(s) {
                    lemma_roots(roots, known, step, roots.len() as int);
                }
            }
        },
        Json::List(items) => {
            assert forall|i: int| 0 <= i < items.len() implies (template_problems(
                #[trigger] items[i],
                known,
                step,
            ).len() == 0 <==> sound(items[i], known)) by {
                crate::value::list_shrinks(v, i);
                a_value_is_sound_where_all_its_texts_are(items[i], known, step);
            }
            lemma_items(items, known, step, items.len() as int);
        },
        Json::Object(e) => {
            assert forall|i: int| 0 <= i < e.len() implies (template_problems(
                (#[trigger] e[i]).1,
                known,
                step,
            ).len() == 0 <==> sound(e[i].1, known)) by {
                crate::value::object_shrinks(v, i);
                a_value_is_sound_where_all_its_texts_are(e[i].1, known, step);
            }
            lemma_fields(e, known, step, e.len() as int);
        },
        _ => {},
    }
}

/// An input has no problem exactly where it is sound as a value.
pub proof fn an_input_is_sound_as_a_value(
    input: Entries,
    known: Seq<Seq<char>>,
    step: Seq<char>,
)
    ensures
        input_problems(input, known, step).len() == 0 <==> sound(Json::Object(input), known),
{
    a_value_is_sound_where_all_its_texts_are(Json::Object(input), known, step);
}

/// Whether a text in a value, however deep, begins one of its tags with a name.
pub open spec fn speaks_of(v: Json, name: Seq<char>) -> bool
    decreases v,
{
    match v {
        Json::Text(s) => occurs(s, "{{"@) && (roots_of(s) matches Ok(roots) && roots.contains(
            name,
        )),
        Json::List(items) => exists|i: int|
            0 <= i < items.len() && speaks_of(#[trigger] items[i], name),
        Json::Object(e) => exists|i: int| 0 <= i < e.len() && speaks_of((#[trigger] e[i]).1, name),
        _ => false,
    }
}

proof fn lemma_concat_contains(a: Seq<Seq<char>>, b: Seq<Seq<char>>, x: Seq<char>)
    ensures
        (a + b).contains(x) <==> a.contains(x) || b.contains(x),
{
    if a.contains(x) {
        let i = choose|i: int| 0 <= i < a.len() && a[i] == x;
        assert((a + b)[i] == x);
    }
    if b.contains(x) {
        let i = choose|i: int| 0 <= i < b.len() && b[i] == x;
        assert((a + b)[a.len() + i] == x);
    }
}

proof fn lemma_items_roots(items: Seq<Json>, name: Seq<char>, n: int)
    requires
        0 <= n <= items.len(),
        forall|i: int|
            0 <= i < items.len()
                ==> (value_roots(#[trigger] items[i]).contains(name) <==> speaks_of(
                items[i],
                name,
            )),
    ensures
        items_roots(items, n).contains(name) <==> exists|i: int|
            0 <= i < n && speaks_of(#[trigger] items[i], name),
    decreases n,
{
    if n > 0 {
        lemma_items_roots(items, name, n - 1);
        lemma_concat_contains(items_roots(items, n - 1), value_roots(items[n - 1]), name);
        if items_roots(items, n - 1).contains(name) {
            let i = choose|i: int| 0 <= i < n - 1 && speaks_of(#[trigger] items[i], name);
            assert(speaks_of(items[i], name));
        }
    } else {
        assert(!items_roots(items, n).contains(name));
    }
}

proof fn lemma_fields_roots(e: Entries, name: Seq<char>, n: int)
    requires
        0 <= n <= e.len(),
        forall|i: int|
            0 <= i < e.len() ==> (value_roots((#[trigger] e[i]).1).contains(name) <==> speaks_of(
                e[i].1,
                name,
            )),
    ensures
        fields_roots(e, n).contains(name) <==> exists|i: int|
            0 <= i < n && speaks_of((#[trigger] e[i]).1, name),
    decreases n,
{
    if n > 0 {
        lemma_fields_roots(e, name, n - 1);
        lemma_concat_contains(fields_roots(e, n - 1), value_roots(e[n - 1].1), name);
        if fields_roots(e, n - 1).contains(name) {
            let i = choose|i: int| 0 <= i < n - 1 && speaks_of((#[trigger] e[i]).1, name);
            assert(speaks_of(e[i].1, name));
        }
    } else {
        assert(!fields_roots(e, n).contains(name));
    }
}

/// The roots of a value are the names that its tags begin with, in whatever text.
pub proof fn the_roots_of_a_value_are_those_of_its_texts(v: Json, name: Seq<char>)
    ensures
        value_roots(v).contains(name) <==> speaks_of(v, name),
    decreases v,
{
    match v {
        Json::Text(s) => {},
        Json::List(items) => {
            assert forall|i: int| 0 <= i < items.len() implies (value_roots(
                #[trigger] items[i],
            ).contains(name) <==> speaks_of(items[i], name)) by {
                crate::value::list_shrinks(v, i);
                the_roots_of_a_value_are_those_of_its_texts(items[i], name);
            }
            lemma_items_roots(items, name, items.len() as int);
        },
        Json::Object(e) => {
            assert forall|i: int| 0 <= i < e.len() implies (value_roots(
                (#[trigger] e[i]).1,
            ).contains(name) <==> speaks_of(e[i].1, name)) by {
                crate::value::object_shrinks(v, i);
                the_roots_of_a_value_are_those_of_its_texts(e[i].1, name);
            }
            lemma_fields_roots(e, name, e.len() as int);
        },
        _ => {},
    }
}

/// A value has templates exactly where a text in it opens a tag.
pub proof fn a_value_is_templated_where_a_text_opens_a_tag(v: Json, i: int)
    ensures
        match v {
            Json::Text(s) => templated(v) <==> occurs(s, "{{"@),
            Json::List(items) => {
                &&& 0 <= i < items.len() && templated(items[i]) ==> templated(v)
                &&& templated(v) ==> exists|k: int|
                    0 <= k < items.len() && templated(#[trigger] items[k])
            },
            Json::Object(e) => {
                &&& 0 <= i < e.len() && templated(e[i].1) ==> templated(v)
                &&& templated(v) ==> exists|k: int|
                    0 <= k < e.len() && templated((#[trigger] e[k]).1)
            },
            _ => !templated(v),
        },
{
}

// ── Bodies ───────────────────────────────────────────────────────────────

/// Whether a tool may be used in a body: an exit where exits are allowed, an agent, a
/// question, a filter, or a tool with a namespace that is not the workbench's.
pub open spec fn fits_a_body(tool: Seq<char>, allow_exit: bool) -> bool {
    if tool == "exit"@ {
        allow_exit
    } else if tool == "decide"@ || tool == "map"@ || tool == "reduce"@ {
        false
    } else {
        tool == "agent"@ || tool == "ask"@ || tool == "filter"@ || (!begins(tool, "workbench__"@)
            && is_namespaced(tool))
    }
}

/// A body's tool has no problem exactly where it may be used there.
pub proof fn a_bodys_tool_is_one_that_fits(
    name: Seq<char>,
    tool: Seq<char>,
    step: Seq<char>,
    allow_exit: bool,
)
    ensures
        body_tool_problems(name, tool, step, allow_exit).len() == 0 <==> fits_a_body(
            tool,
            allow_exit,
        ),
{
    reveal_strlit("workbench__");
    reveal_strlit("agent");
    reveal_strlit("ask");
    reveal_strlit("filter");
}

/// A body's step is checked by the rules of its own kind.
pub proof fn a_bodys_input_is_checked_by_its_kind(
    input: Entries,
    known: Seq<Seq<char>>,
    step: Seq<char>,
    tool: Seq<char>,
)
    ensures
        body_input_problems("agent"@, input, known, step) == agent_problems(input, known, step),
        body_input_problems("ask"@, input, known, step) == ask_problems(input, known, step),
        body_input_problems("filter"@, input, known, step) == filter_problems(input, known, step),
        tool != "agent"@ && tool != "ask"@ && tool != "filter"@ ==> (body_input_problems(
            tool,
            input,
            known,
            step,
        ).len() == 0 <==> sound(Json::Object(input), known)),
{
    reveal_strlit("agent");
    reveal_strlit("ask");
    reveal_strlit("filter");
    assert("agent"@.len() != "ask"@.len());
    assert("agent"@.len() != "filter"@.len());
    assert("ask"@.len() != "filter"@.len());
    an_input_is_sound_as_a_value(input, known, step);
}

/// Whether the step at a place of a body is sound: an id of its own, a tool that fits,
/// and an input that refers to what is known there and to the steps before it.
pub open spec fn sound_in_a_body(
    steps: Seq<StepView>,
    i: int,
    known: Seq<Seq<char>>,
    plan_ids: Seq<Seq<char>>,
    allow_exit: bool,
) -> bool {
    let s = steps[i];
    &&& id_problem(s.id) is None
    &&& !plan_ids.contains(s.id)
    &&& forall|j: int| 0 <= j < i ==> (#[trigger] steps[j]).id != s.id
    &&& fits_a_body(s.tool_name, allow_exit)
    &&& body_input_problems(s.tool_name, s.input, known + ids_of(steps.take(i)), s.id).len() == 0
}

#[verifier::spinoff_prover]
#[verifier::rlimit(40)]
proof fn lemma_body_steps(
    name: Seq<char>,
    steps: Seq<StepView>,
    known: Seq<Seq<char>>,
    plan_ids: Seq<Seq<char>>,
    step: Seq<char>,
    allow_exit: bool,
    n: int,
)
    requires
        0 <= n <= steps.len(),
    ensures
        body_steps_problems(name, steps, known, plan_ids, step, allow_exit, n).len() == 0
            <==> forall|i: int|
            0 <= i < n ==> #[trigger] sound_in_a_body(steps, i, known, plan_ids, allow_exit),
    decreases n,
{
    if n > 0 {
        lemma_body_steps(name, steps, known, plan_ids, step, allow_exit, n - 1);
        let i = n - 1;
        a_bodys_tool_is_one_that_fits(name, steps[i].tool_name, step, allow_exit);
        let before = ids_of(steps.take(i));
        assert(before.contains(steps[i].id) <==> exists|j: int|
            0 <= j < i && (#[trigger] steps[j]).id == steps[i].id) by {
            if before.contains(steps[i].id) {
                let j = choose|j: int| 0 <= j < before.len() && before[j] == steps[i].id;
                assert(steps[j].id == steps[i].id);
            }
            if exists|j: int| 0 <= j < i && (#[trigger] steps[j]).id == steps[i].id {
                let j = choose|j: int| 0 <= j < i && (#[trigger] steps[j]).id == steps[i].id;
                assert(before[j] == steps[i].id);
            }
        }
        assert(body_id_problems(name, steps, i, plan_ids, step).len() == 0 <==> id_problem(
            steps[i].id,
        ) is None && !plan_ids.contains(steps[i].id) && !before.contains(steps[i].id));
        assert(sound_in_a_body(steps, i, known, plan_ids, allow_exit) <==> body_id_problems(
            name,
            steps,
            i,
            plan_ids,
            step,
        ).len() == 0 && body_tool_problems(name, steps[i].tool_name, step, allow_exit).len() == 0
            && body_input_problems(
            steps[i].tool_name,
            steps[i].input,
            known + before,
            steps[i].id,
        ).len() == 0);
    }
}

/// A body is sound exactly where it can be read and its call, or each of its steps,
/// is sound.
pub proof fn a_body_is_checked_whole(
    name: Seq<char>,
    raw: Json,
    seen: Seq<Seq<char>>,
    pseudo: Seq<Seq<char>>,
    plan_ids: Seq<Seq<char>>,
    step: Seq<char>,
    allow_exit: bool,
)
    ensures
        body_problems(name, raw, seen, pseudo, plan_ids, step, allow_exit).len() == 0 <==> (
        match branch_of(name, raw) {
            Err(_) => false,
            Ok(BranchView::Call(call)) => fits_a_body(call.tool_name, allow_exit)
                && body_input_problems(call.tool_name, call.input, seen + pseudo, step).len() == 0,
            Ok(BranchView::Steps(steps)) => forall|i: int|
                0 <= i < steps.len() ==> #[trigger] sound_in_a_body(
                    steps,
                    i,
                    seen + pseudo,
                    plan_ids,
                    allow_exit,
                ),
        }),
{
    match branch_of(name, raw) {
        Err(_) => {},
        Ok(BranchView::Call(call)) => {
            a_bodys_tool_is_one_that_fits(name, call.tool_name, step, allow_exit);
        },
        Ok(BranchView::Steps(steps)) => {
            lemma_body_steps(
                name,
                steps,
                seen + pseudo,
                plan_ids,
                step,
                allow_exit,
                steps.len() as int,
            );
        },
    }
}

// ── Each kind of step ────────────────────────────────────────────────────

/// Whether what may be there is sound where it is.
pub open spec fn sound_text(t: Option<Seq<char>>, known: Seq<Seq<char>>) -> bool {
    t matches Some(s) ==> refers_soundly(s, known)
}

pub open spec fn sound_value(v: Option<Json>, known: Seq<Seq<char>>) -> bool {
    v matches Some(x) ==> sound(x, known)
}

proof fn lemma_optional(
    t: Option<Seq<char>>,
    v: Option<Json>,
    known: Seq<Seq<char>>,
    step: Seq<char>,
)
    ensures
        crate::pipeline::filter::opt_text_problems(t, known, step).len() == 0 <==> sound_text(
            t,
            known,
        ),
        crate::pipeline::filter::opt_template_problems(v, known, step).len() == 0 <==> sound_value(
            v,
            known,
        ),
{
    if let Some(s) = t {
        a_value_is_sound_where_all_its_texts_are(Json::Text(s), known, step);
    }
    if let Some(x) = v {
        a_value_is_sound_where_all_its_texts_are(x, known, step);
    }
}

/// A decision is sound exactly where it has one condition or one question, these and
/// its model refer to known steps, and both branches are sound; an exit may stand in
/// either.
#[verifier::spinoff_prover]
#[verifier::rlimit(40)]
pub proof fn a_decide_step_is_checked_whole(
    input: Entries,
    seen: Seq<Seq<char>>,
    plan_ids: Seq<Seq<char>>,
    step: Seq<char>,
)
    ensures
        decide_problems(input, seen, plan_ids, step).len() == 0 <==> (decide_of(input) matches Ok(
            spec,
        ) && {
            &&& spec.if_ is Some <==> spec.infer is None
            &&& sound_value(spec.if_, seen)
            &&& sound_text(spec.infer, seen)
            &&& sound_text(spec.model, seen)
            &&& body_problems(
                "then"@,
                spec.then_,
                seen,
                Seq::empty(),
                plan_ids,
                step,
                true,
            ).len() == 0
            &&& spec.else_ matches Some(raw) ==> body_problems(
                "else"@,
                raw,
                seen,
                Seq::empty(),
                plan_ids,
                step,
                true,
            ).len() == 0
        }),
{
    if let Ok(spec) = decide_of(input) {
        lemma_optional(spec.infer, spec.if_, seen, step);
        lemma_optional(spec.model, None, seen, step);
    }
}

/// What an iteration renders before its body is sound where it refers to known steps
/// and to no name of the body's.
pub proof fn what_comes_before_a_body_speaks_of_no_item(
    v: Json,
    seen: Seq<Seq<char>>,
    step: Seq<char>,
)
    ensures
        eager_problems(v, seen, step).len() == 0 <==> sound(
            v,
            seen + seq!["item"@, "index"@, "accumulator"@],
        ) && !speaks_of(v, "item"@) && !speaks_of(v, "index"@) && !speaks_of(v, "accumulator"@),
{
    let known = seen + crate::pipeline::iterate::item_roots();
    a_value_is_sound_where_all_its_texts_are(v, known, step);
    the_roots_of_a_value_are_those_of_its_texts(v, "item"@);
    the_roots_of_a_value_are_those_of_its_texts(v, "index"@);
    the_roots_of_a_value_are_those_of_its_texts(v, "accumulator"@);
}

/// A map is sound exactly where at least one item may be in flight, its list is sound
/// before the body, its body is sound with the names of an item, and no accumulator
/// is spoken of; an exit has no place in it.
pub proof fn a_map_step_is_checked_whole(
    input: Entries,
    seen: Seq<Seq<char>>,
    plan_ids: Seq<Seq<char>>,
    step: Seq<char>,
)
    ensures
        map_problems(input, seen, plan_ids, step).len() == 0 <==> (map_of(input) matches Ok(spec)
            && {
            &&& spec.concurrency != 0
            &&& eager_problems(spec.over, seen, step).len() == 0
            &&& body_problems(
                "do"@,
                spec.do_,
                seen,
                seq!["item"@, "index"@, "accumulator"@],
                plan_ids,
                step,
                false,
            ).len() == 0
            &&& !speaks_of(spec.do_, "accumulator"@)
        }),
{
    if let Ok(spec) = map_of(input) {
        the_roots_of_a_value_are_those_of_its_texts(spec.do_, "accumulator"@);
    }
}

/// A fold is sound exactly where its list and its first value are sound before the
/// body and its body is sound with the names of an item.
pub proof fn a_reduce_step_is_checked_whole(
    input: Entries,
    seen: Seq<Seq<char>>,
    plan_ids: Seq<Seq<char>>,
    step: Seq<char>,
)
    ensures
        reduce_problems(input, seen, plan_ids, step).len() == 0 <==> (reduce_of(input) matches Ok(
            spec,
        ) && {
            &&& eager_problems(spec.over, seen, step).len() == 0
            &&& eager_problems(spec.initial, seen, step).len() == 0
            &&& body_problems(
                "do"@,
                spec.do_,
                seen,
                seq!["item"@, "index"@, "accumulator"@],
                plan_ids,
                step,
                false,
            ).len() == 0
        }),
{
}

proof fn lemma_gate_names(seen: Seq<Seq<char>>, name: Seq<char>)
    ensures
        gate_names(seen).contains(name) <==> seen.contains(name) || name == "item"@ || name
            == "index"@,
{
    let one = crate::pipeline::filter::with_name(seen, "item"@);
    let two = gate_names(seen);
    lemma_pushed(seen, "item"@, name);
    lemma_pushed(one, "index"@, name);
}

proof fn lemma_pushed(s: Seq<Seq<char>>, x: Seq<char>, name: Seq<char>)
    ensures
        s.push(x).contains(name) <==> s.contains(name) || name == x,
{
    if s.contains(name) {
        let i = choose|i: int| 0 <= i < s.len() && s[i] == name;
        assert(s.push(x)[i] == name);
    }
    assert(s.push(x)[s.len() as int] == x);
    if s.push(x).contains(name) && name != x {
        let i = choose|i: int| 0 <= i < s.push(x).len() && s.push(x)[i] == name;
        assert(s[i] == name);
    }
}

/// A filter is sound exactly where it has one gate, at least one item may be in
/// flight, its gate is sound with the names of an item, and its list speaks of an
/// item only where one is known around it.
#[verifier::spinoff_prover]
#[verifier::rlimit(40)]
pub proof fn a_filter_step_is_checked_whole(
    input: Entries,
    seen: Seq<Seq<char>>,
    step: Seq<char>,
    name: Seq<char>,
)
    ensures
        gate_names(seen).contains(name) <==> seen.contains(name) || name == "item"@ || name
            == "index"@,
        filter_problems(input, seen, step).len() == 0 <==> (filter_of(input) matches Ok(spec) && {
            &&& spec.where_ is Some <==> spec.infer is None
            &&& spec.concurrency != 0
            &&& sound_value(spec.where_, gate_names(seen))
            &&& sound_text(spec.infer, gate_names(seen))
            &&& sound_text(spec.model, seen)
            &&& sound(spec.over, gate_names(seen))
            &&& speaks_of(spec.over, "item"@) ==> seen.contains("item"@)
            &&& speaks_of(spec.over, "index"@) ==> seen.contains("index"@)
        }),
{
    lemma_gate_names(seen, name);
    if let Ok(spec) = filter_of(input) {
        lemma_optional(spec.infer, spec.where_, gate_names(seen), step);
        lemma_optional(spec.model, None, seen, step);
        a_value_is_sound_where_all_its_texts_are(spec.over, gate_names(seen), step);
        the_roots_of_a_value_are_those_of_its_texts(spec.over, "item"@);
        the_roots_of_a_value_are_those_of_its_texts(spec.over, "index"@);
    }
}

/// A question is sound exactly where its answer has a form, it has a default where it
/// falls back on one and none where it does not, a default without templates
/// conforms, and everything refers to known steps.
#[verifier::spinoff_prover]
#[verifier::rlimit(40)]
pub proof fn a_question_is_checked_whole(input: Entries, seen: Seq<Seq<char>>, step: Seq<char>)
    ensures
        ask_problems(input, seen, step).len() == 0 <==> (ask_of(input) matches Ok(spec) && {
            &&& schema_fault(spec.output_schema) is None
            &&& (match member(spec.output_schema, "type"@) {
                Some(Json::Text(t)) => t == "object"@,
                _ => true,
            })
            &&& crate::pipeline::ask::form_problem(spec.output_schema) is None
            &&& spec.default is Some <==> spec.when_unanswered == WhenUnanswered::Default
            &&& spec.default matches Some(d) ==> templated(d) || schema_errors(
                spec.output_schema,
                d,
            ).len() == 0
            &&& sound_value(spec.default, seen)
            &&& refers_soundly(spec.prompt, seen)
        }),
{
    if let Ok(spec) = ask_of(input) {
        lemma_optional(None, spec.default, seen, step);
        a_value_is_sound_where_all_its_texts_are(Json::Text(spec.prompt), seen, step);
    }
}

/// A value that does not conform is told with every error, joined; one that does, or
/// a schema that is none, is not told of.
pub proof fn a_mismatch_tells_every_error(value: Json, schema: Json, errors: Seq<Seq<char>>)
    ensures
        mismatch_text(errors) is None <==> errors.len() == 0,
        mismatch_text(errors) matches Some(told) ==> told == joined(errors, "; "@),
        schema_fault(schema) is Some ==> mismatch(value, schema) is None,
        schema_fault(schema) is None ==> (mismatch(value, schema) is None <==> schema_errors(
            schema,
            value,
        ).len() == 0),
{
}

/// What is iterated over must render to a list; anything else ends the step and is
/// named by its kind.
pub proof fn only_a_list_is_iterated_over(
    over: Json,
    results: Entries,
    step: Seq<char>,
    tool: Seq<char>,
    v: Json,
)
    ensures
        rendered_input(results, over) matches Ok(Json::List(items)) ==> rendered_over(
            over,
            results,
            step,
            tool,
        ) == Ok::<Seq<Json>, ExecutionEndView>(items),
        rendered_over(over, results, step, tool) matches Ok(items) ==> rendered_input(
            results,
            over,
        ) == Ok::<Json, crate::template::RenderErrorView>(Json::List(items)),
        ends(
            not_a_list(v),
            match v {
                Json::Null => "null"@,
                Json::Bool(_) => "a boolean"@,
                Json::Num(_) => "a number"@,
                Json::Text(_) => "a string"@,
                Json::List(_) => "an array"@,
                Json::Object(_) => "an object"@,
            },
        ),
{
    let told = not_a_list(v);
    let kind = kind_of(v);
    assert(told.subrange(told.len() - kind.len(), told.len() as int) =~= kind);
}

} // verus!
