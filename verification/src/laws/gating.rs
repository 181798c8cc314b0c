//! Gating a plan: conditions, verdicts, `exit` and `decide`.

use crate::laws::objects::{lemma_holds_five, lemma_holds_four, lemma_holds_three};
use crate::pipeline::body::{branch_of, BranchView};
use crate::pipeline::condition::{
    condition_of, condition_result, exact_as_float, float_comparison, gate_step,
    integer_order_holds, judged, verdict_of, ConditionView, GateResultView, GateStepView,
    VerdictView,
};
use crate::pipeline::decision::{
    decide_begun, decide_chosen, decide_of, decide_settled, decide_through, DecideNextView,
};
use crate::pipeline::engine::ExecutionEndView;
use crate::pipeline::exit::{
    exit_json, exit_of, exit_resolution, exit_settled, exit_step, ExitEvalView, ExitSpecView,
    ExitStatus, ExitStepView, PlanExitView,
};
use crate::pipeline::run_body::{BodyErrorView, BodyFailView, BodyRunView};
use crate::pipeline::state::RunStateView;
use crate::template::RenderErrorView;
use crate::template::render::{rendered_input, rendered_text};
use crate::text::{begins, ends, occurs};
use crate::value::{lookup, member, same_json, Entries, Json, Num};
use vstd::prelude::*;

verus! {

/// Whether a field of a record names one of its choices: by the name itself, or by
/// an object with nothing but null under it.
pub open spec fn names_choice(v: Option<Json>, name: Seq<char>) -> bool {
    v == Some(Json::Text(name)) || v == Some(Json::Object(seq![(name, Json::Null)]))
}

proof fn lemma_op_names()
    ensures
        "eq"@ != "ne"@,
        "eq"@ != "gt"@,
        "eq"@ != "lt"@,
        "ne"@ != "gt"@,
        "ne"@ != "lt"@,
        "gt"@ != "lt"@,
        "gte"@ != "lte"@,
        "eq"@.len() == 2,
        "ne"@.len() == 2,
        "gt"@.len() == 2,
        "lt"@.len() == 2,
        "gte"@.len() == 3,
        "lte"@.len() == 3,
        "empty"@.len() == 5,
        "not_empty"@.len() == 9,
        "contains"@.len() == 8,
{
    reveal_strlit("eq");
    reveal_strlit("ne");
    reveal_strlit("gt");
    reveal_strlit("lt");
    reveal_strlit("gte");
    reveal_strlit("lte");
    reveal_strlit("empty");
    reveal_strlit("not_empty");
    reveal_strlit("contains");
    assert("eq"@[0] != "ne"@[0]);
    assert("eq"@[0] != "gt"@[0]);
    assert("eq"@[0] != "lt"@[0]);
    assert("ne"@[0] != "gt"@[0]);
    assert("ne"@[0] != "lt"@[0]);
    assert("gt"@[0] != "lt"@[0]);
    assert("gte"@[0] != "lte"@[0]);
}

/// An ordering of two integers that floats hold exactly is decided as it is
/// written: `gt` is greater, `lt` less, `gte` greater or equal, `lte` less or equal.
pub proof fn an_ordering_means_what_its_name_says(e: Entries, x: int, y: int)
    requires
        condition_of(Json::Object(e)) is Ok,
        lookup(e, "value"@) == Some(Json::Num(Num::Int(x))),
        lookup(e, "to"@) == Some(Json::Num(Num::Int(y))),
        exact_as_float(x) && exact_as_float(y),
    ensures
        ({
            let c = condition_of(Json::Object(e))->Ok_0;
            let op = lookup(e, "op"@);
            let compared = float_comparison(c.value, c.to) == (x < y, x > y);
            let decided = condition_result(c);
            &&& names_choice(op, "gt"@) ==> (forall|b: bool| #[trigger]
                integer_order_holds(c, b) ==> b == (x > y)) && (compared ==> decided == Ok::<
                bool,
                Seq<char>,
            >(x > y))
            &&& names_choice(op, "lt"@) ==> (forall|b: bool| #[trigger]
                integer_order_holds(c, b) ==> b == (x < y)) && (compared ==> decided == Ok::<
                bool,
                Seq<char>,
            >(x < y))
            &&& names_choice(op, "gte"@) ==> (forall|b: bool| #[trigger]
                integer_order_holds(c, b) ==> b == (x >= y)) && (compared ==> decided == Ok::<
                bool,
                Seq<char>,
            >(x >= y))
            &&& names_choice(op, "lte"@) ==> (forall|b: bool| #[trigger]
                integer_order_holds(c, b) ==> b == (x <= y)) && (compared ==> decided == Ok::<
                bool,
                Seq<char>,
            >(x <= y))
        }),
{
    lemma_op_names();
}

/// Equality and its opposite, emptiness and its opposite, and containment, each by
/// its written name.
pub proof fn a_condition_means_what_its_name_says(e: Entries, value: Json, to: Json)
    requires
        condition_of(Json::Object(e)) is Ok,
        lookup(e, "value"@) == Some(value),
        lookup(e, "to"@) == Some(to),
    ensures
        ({
            let decided = condition_result(condition_of(Json::Object(e))->Ok_0);
            let op = lookup(e, "op"@);
            let bare = value is Null || value == Json::Text(""@) || value == Json::List(
                Seq::empty(),
            ) || value == Json::Object(Seq::empty());
            &&& names_choice(op, "eq"@) ==> decided == Ok::<bool, Seq<char>>(same_json(value, to))
            &&& names_choice(op, "ne"@) ==> decided == Ok::<bool, Seq<char>>(!same_json(value, to))
            &&& names_choice(op, "empty"@) ==> decided == Ok::<bool, Seq<char>>(bare)
            &&& names_choice(op, "not_empty"@) ==> decided == Ok::<bool, Seq<char>>(!bare)
            &&& names_choice(op, "contains"@) ==> (match (value, to) {
                (Json::Text(s), Json::Text(t)) => decided matches Ok(b) && (b <==> exists|i: int|
                    0 <= i && i + t.len() <= s.len() && #[trigger] s.subrange(i, i + t.len())
                        == t),
                (Json::List(items), t) => decided matches Ok(b) && (b <==> exists|i: int|
                    0 <= i < items.len() && same_json(#[trigger] items[i], t)),
                _ => decided is Err,
            })
            &&& (names_choice(op, "gt"@) || names_choice(op, "lt"@) || names_choice(op, "gte"@)
                || names_choice(op, "lte"@)) ==> (decided is Ok <==> value is Num && to is Num)
        }),
{
    lemma_op_names();
    reveal_strlit("");
    match value {
        Json::Text(s) => {
            assert(s.len() == 0 ==> s =~= ""@);
            if let Json::Text(t) = to {
                lemma_occurs(s, t);
            }
        },
        Json::List(items) => {
            assert(items.len() == 0 ==> items =~= Seq::empty());
        },
        Json::Object(entries) => {
            assert(entries.len() == 0 ==> entries =~= Seq::empty());
        },
        _ => {},
    }
}

/// A text occurs in another exactly where it stands somewhere in it.
pub proof fn lemma_occurs(s: Seq<char>, t: Seq<char>)
    ensures
        occurs(s, t) <==> exists|i: int|
            0 <= i && i + t.len() <= s.len() && #[trigger] s.subrange(i, i + t.len()) == t,
{
    if occurs(s, t) {
        crate::template::parser::lemma_find_bounds(s, t, 0);
    } else {
        assert forall|i: int| 0 <= i && i + t.len() <= s.len() implies #[trigger] s.subrange(
            i,
            i + t.len(),
        ) != t by {
            crate::template::renaming::lemma_nothing_at_all(s, t, 0, i);
        }
    }
}

/// Two values without fractional numbers are the same exactly where they are equal.
pub proof fn same_values_are_equal_values(a: Json, b: Json)
    requires
        no_fractions(a),
        no_fractions(b),
    ensures
        same_json(a, b) <==> a == b,
    decreases a,
{
    match (a, b) {
        (Json::List(x), Json::List(y)) => {
            if same_json(a, b) {
                assert forall|i: int| 0 <= i < x.len() implies x[i] == y[i] by {
                    assert(no_fractions(x[i]) && no_fractions(y[i]));
                    crate::value::list_shrinks(a, i);
                    same_values_are_equal_values(x[i], y[i]);
                }
                assert(x =~= y);
            }
            if a == b {
                assert forall|i: int| 0 <= i < x.len() implies same_json(#[trigger] x[i], y[i]) by {
                    crate::value::list_shrinks(a, i);
                    same_values_are_equal_values(x[i], y[i]);
                }
            }
        },
        (Json::Object(x), Json::Object(y)) => {
            if same_json(a, b) {
                assert forall|i: int| 0 <= i < x.len() implies x[i] == y[i] by {
                    assert(no_fractions(x[i].1) && no_fractions(y[i].1));
                    crate::value::object_shrinks(a, i);
                    same_values_are_equal_values(x[i].1, y[i].1);
                }
                assert(x =~= y);
            }
            if a == b {
                assert forall|i: int| 0 <= i < x.len() implies (#[trigger] x[i]).0 == y[i].0
                    && same_json(x[i].1, y[i].1) by {
                    crate::value::object_shrinks(a, i);
                    same_values_are_equal_values(x[i].1, y[i].1);
                }
            }
        },
        _ => {},
    }
}

/// Whether every number in a value is an integer.
pub open spec fn no_fractions(v: Json) -> bool
    decreases v,
{
    match v {
        Json::Num(n) => n is Int,
        Json::List(items) => forall|i: int|
            0 <= i < items.len() ==> no_fractions(#[trigger] items[i]),
        Json::Object(entries) => forall|i: int|
            0 <= i < entries.len() ==> no_fractions((#[trigger] entries[i]).1),
        _ => true,
    }
}

/// A judge's answer is read as it is written, and decides its gate.
pub proof fn a_verdict_decides_its_gate(e: Entries, yes: bool, reason: Seq<char>)
    requires
        verdict_of(Json::Object(e)) is Ok,
        lookup(e, "verdict"@) == Some(Json::Bool(yes)),
        lookup(e, "reason"@) == Some(Json::Text(reason)),
    ensures
        judged(verdict_of(Json::Object(e))) == Ok::<(bool, Option<Seq<char>>), Seq<char>>(
            (yes, Some(reason)),
        ),
{
}

/// A gate is decided by its condition where it has one, and put to the judge where
/// it has a question; with both or neither it cannot be decided.
pub proof fn a_gate_has_a_condition_or_a_question(
    when: Option<ConditionView>,
    infer: Option<Seq<char>>,
)
    ensures
        match gate_step(when, infer) {
            GateStepView::Judge(question) => when is None && infer == Some(question),
            GateStepView::Decided(Ok((yes, reason))) => {
                &&& infer is None
                &&& when matches Some(c)
                &&& condition_result(c) == Ok::<bool, Seq<char>>(yes)
                &&& reason is None
            },
            GateStepView::Decided(Err(_)) => {
                ||| when is Some && infer is Some
                ||| when is None && infer is None
                ||| (when matches Some(c) && condition_result(c) is Err)
            },
        },
{
}

/// An exit step is read as it is written.
pub proof fn an_exit_step_is_what_is_written(e: Entries)
    requires
        exit_of(Json::Object(e)) is Ok,
    ensures
        ({
            let spec = exit_of(Json::Object(e))->Ok_0;
            &&& names_choice(lookup(e, "status"@), "error"@) ==> spec.status == ExitStatus::Error
            &&& names_choice(lookup(e, "status"@), "success"@) ==> spec.status
                == ExitStatus::Success
            &&& spec.infer == match lookup(e, "infer"@) {
                Some(Json::Text(t)) => Some(t),
                _ => None,
            }
            &&& spec.model == match lookup(e, "model"@) {
                Some(Json::Text(t)) => Some(t),
                _ => None,
            }
            &&& spec.message == match lookup(e, "message"@) {
                Some(Json::Text(t)) => Some(t),
                _ => None,
            }
            &&& spec.output == match lookup(e, "output"@) {
                Some(Json::Object(o)) => Some(o),
                _ => None,
            }
            &&& (match lookup(e, "when"@) {
                Some(v) => v is Null && spec.when is None || (condition_of(v) matches Ok(c)
                    && spec.when == Some(c)),
                None => spec.when is None,
            })
        }),
{
    reveal_strlit("error");
    reveal_strlit("success");
    assert("error"@.len() != "success"@.len());
    crate::pipeline::exit::an_exits_condition_is_readable(Json::Object(e));
}

/// An exit step without a gate ends the plan. With a condition it ends the plan
/// exactly where the condition holds; with a question exactly where the judge says
/// yes.
pub proof fn an_exit_ends_the_plan_exactly_when_its_gate_holds(
    step: Seq<char>,
    rendered: Json,
    answer: Result<VerdictView, Seq<char>>,
)
    requires
        exit_of(rendered) is Ok,
    ensures
        ({
            let spec = exit_of(rendered)->Ok_0;
            &&& spec.when is None && spec.infer is None ==> exit_step(step, rendered)
                == ExitStepView::Settled(Ok(exit_resolution(step, spec, true, None)))
            &&& spec.infer is None ==> (spec.when matches Some(c) ==> (match condition_result(c) {
                Ok(yes) => exit_step(step, rendered) == ExitStepView::Settled(
                    Ok(exit_resolution(step, spec, yes, None)),
                ),
                Err(_) => exit_step(step, rendered) matches ExitStepView::Settled(Err(_)),
            }))
            &&& spec.when is None ==> (spec.infer matches Some(question) ==> exit_step(
                step,
                rendered,
            ) == ExitStepView::Judge(spec, question))
            &&& (match answer {
                Ok(v) => exit_settled(step, spec, judged(answer)) == Ok::<ExitEvalView, Seq<char>>(
                    exit_resolution(step, spec, v.verdict, Some(v.reason)),
                ),
                Err(_) => exit_settled(step, spec, judged(answer)) is Err,
            })
        }),
{
}

/// A plan that exits does so with the step's status, message and output; a plan
/// that does not goes on with a result that says so.
pub proof fn an_exit_is_what_its_step_says(
    step: Seq<char>,
    spec: ExitSpecView,
    reason: Option<Seq<char>>,
)
    ensures
        exit_resolution(step, spec, true, reason) matches ExitEvalView::Exited(exit) && {
            &&& exit.status == spec.status
            &&& exit.output == spec.output
            &&& exit.step == step
            &&& exit.reason == reason
            &&& spec.message matches Some(m) ==> begins(exit.message, m)
            &&& spec.message is None && spec.status == ExitStatus::Success ==> begins(
                exit.message,
                "plan exited early"@,
            )
            &&& spec.message is None && spec.status == ExitStatus::Error ==> begins(
                exit.message,
                "plan asserted failure"@,
            )
            &&& reason matches Some(r) ==> ends(exit.message, " ("@ + r + ")"@)
            &&& reason is None ==> (spec.message matches Some(m) ==> exit.message == m)
        },
        exit_resolution(step, spec, false, reason) matches ExitEvalView::Passed(said) && {
            &&& member(said, "passed"@) == Some(Json::Bool(true))
            &&& member(said, "verdict"@) == Some(Json::Bool(false))
            &&& member(said, "reason"@) == match reason {
                Some(r) => Some(Json::Text(r)),
                None => Some(Json::Null),
            }
        },
{
    let base = match spec.message {
        Some(m) => m,
        None => match spec.status {
            ExitStatus::Success => "plan exited early"@,
            ExitStatus::Error => "plan asserted failure"@,
        },
    };
    assert(base.subrange(0, base.len() as int) =~= base);
    if let Some(r) = reason {
        let tail = " ("@ + r + ")"@;
        let whole = base + " ("@ + r + ")"@;
        assert(whole =~= base + tail);
        assert(whole.subrange(0, base.len() as int) =~= base);
        assert(whole.subrange(whole.len() - tail.len(), whole.len() as int) =~= tail);
    }
    reveal_strlit("passed");
    reveal_strlit("verdict");
    reveal_strlit("reason");
    assert("passed"@.len() != "verdict"@.len());
    assert("passed"@[0] != "reason"@[0]);
    assert("verdict"@.len() != "reason"@.len());
    let why = match reason {
        Some(r) => Json::Text(r),
        None => Json::Null,
    };
    let (k1, v1, k2, v2) = ("passed"@, Json::Bool(true), "verdict"@, Json::Bool(false));
    lemma_holds_three(k1, v1, k2, v2, "reason"@, why, k1);
    lemma_holds_three(k1, v1, k2, v2, "reason"@, why, k2);
    lemma_holds_three(k1, v1, k2, v2, "reason"@, why, "reason"@);
}

/// An exit as a value holds its status by name, its message, its reason, its output
/// and the step that exited.
pub proof fn an_exit_is_reported_whole(exit: PlanExitView)
    ensures
        ({
            let v = exit_json(exit);
            &&& member(v, "status"@) == Some(
                Json::Text(
                    if exit.status == ExitStatus::Success {
                        "success"@
                    } else {
                        "error"@
                    },
                ),
            )
            &&& member(v, "message"@) == Some(Json::Text(exit.message))
            &&& member(v, "reason"@) == match exit.reason {
                Some(r) => Some(Json::Text(r)),
                None => Some(Json::Null),
            }
            &&& member(v, "output"@) == match exit.output {
                Some(o) => Some(Json::Object(o)),
                None => Some(Json::Null),
            }
            &&& member(v, "step"@) == Some(Json::Text(exit.step))
        }),
{
    reveal_strlit("status");
    reveal_strlit("message");
    reveal_strlit("reason");
    reveal_strlit("output");
    reveal_strlit("step");
    assert("status"@.len() != "message"@.len());
    assert("status"@[0] != "reason"@[0]);
    assert("status"@[0] != "output"@[0]);
    assert("status"@.len() != "step"@.len());
    assert("message"@.len() != "reason"@.len());
    assert("message"@.len() != "output"@.len());
    assert("message"@.len() != "step"@.len());
    assert("reason"@[0] != "output"@[0]);
    assert("reason"@.len() != "step"@.len());
    assert("output"@.len() != "step"@.len());
    let status = Json::Text(
        if exit.status == ExitStatus::Success {
            "success"@
        } else {
            "error"@
        },
    );
    let why = match exit.reason {
        Some(r) => Json::Text(r),
        None => Json::Null,
    };
    let out = match exit.output {
        Some(o) => Json::Object(o),
        None => Json::Null,
    };
    let message = Json::Text(exit.message);
    let step = Json::Text(exit.step);
    assert forall|key: Seq<char>| #[trigger] member(exit_json(exit), key) == (if key == "status"@ {
        Some(status)
    } else if key == "message"@ {
        Some(message)
    } else if key == "reason"@ {
        Some(why)
    } else if key == "output"@ {
        Some(out)
    } else if key == "step"@ {
        Some(step)
    } else {
        None
    }) by {
        lemma_holds_five(
            "status"@,
            status,
            "message"@,
            message,
            "reason"@,
            why,
            "output"@,
            out,
            "step"@,
            step,
            key,
        );
    }
}

/// A decide step is read as it is written.
pub proof fn a_decide_step_is_what_is_written(e: Entries)
    requires
        decide_of(e) is Ok,
    ensures
        ({
            let spec = decide_of(e)->Ok_0;
            &&& spec.if_ == match lookup(e, "if"@) {
                Some(Json::Null) => None,
                other => other,
            }
            &&& spec.infer == match lookup(e, "infer"@) {
                Some(Json::Text(t)) => Some(t),
                _ => None,
            }
            &&& spec.model == match lookup(e, "model"@) {
                Some(Json::Text(t)) => Some(t),
                _ => None,
            }
            &&& lookup(e, "then"@) matches Some(v) ==> spec.then_ == v
            &&& spec.else_ == match lookup(e, "else"@) {
                Some(Json::Null) => None,
                other => other,
            }
        }),
{
}

/// A decide step runs `then` where its gate holds and `else` where it does not, and
/// goes on without a branch where there is no `else`; a gate that cannot be decided
/// ends the run.
pub proof fn a_decide_step_takes_the_branch_its_gate_says(
    step: Seq<char>,
    then_: Json,
    else_: Option<Json>,
    gate: GateResultView,
)
    ensures
        match decide_chosen(step, then_, else_, gate) {
            DecideNextView::Run { name, branch, verdict, reason } => {
                &&& gate == Ok::<(bool, Option<Seq<char>>), Seq<char>>((verdict, reason))
                &&& verdict ==> name == "then"@ && branch_of("then"@, then_)
                    == Ok::<BranchView, Seq<char>>(
                    branch,
                )
                &&& !verdict ==> name == "else"@
                &&& !verdict ==> (
                    else_ matches Some(raw) && branch_of("else"@, raw)
                        == Ok::<BranchView, Seq<char>>(branch)
                )
            },
            DecideNextView::Through(reason) => else_ is None && gate == Ok::<
                (bool, Option<Seq<char>>),
                Seq<char>,
            >((false, reason)),
            DecideNextView::End(end) => {
                &&& end matches ExecutionEndView::Failed { step: s, tool, .. }
                &&& s == step
                &&& tool == "decide"@
                &&& {
                    ||| gate is Err
                    ||| (gate matches Ok((true, _)) && branch_of("then"@, then_) is Err)
                    ||| (gate matches Ok((false, _)) && else_ matches Some(raw) && branch_of(
                        "else"@,
                        raw,
                    ) is Err)
                }
            },
        },
{
}

/// A decide step begins by rendering its condition, its question and its model over
/// the plan's results; the branches stay as they are written.
pub proof fn a_decide_step_renders_its_gate(step: Seq<char>, e: Entries, results: Entries)
    requires
        decide_begun(step, e, results) is Ok,
    ensures
        ({
            let spec = decide_of(e)->Ok_0;
            let begun = decide_begun(step, e, results)->Ok_0;
            &&& decide_of(e) is Ok
            &&& begun.then_ == spec.then_
            &&& begun.else_ == spec.else_
            &&& spec.model matches Some(m) ==> (begun.model matches Some(model) && rendered_text(
                results,
                m,
            ) == Ok::<Seq<char>, RenderErrorView>(model))
            &&& spec.model is None ==> begun.model is None
            &&& spec.if_ is None ==> (spec.infer matches Some(q) ==> (begun.gate
                matches GateStepView::Judge(question) && rendered_text(results, q)
                    == Ok::<Seq<char>, RenderErrorView>(question)))
            &&& spec.infer is None ==> (spec.if_ matches Some(raw) ==> (rendered_input(
                results,
                raw,
            ) matches Ok(v) && condition_of(v) matches Ok(c) && begun.gate
                == GateStepView::Decided(
                match condition_result(c) {
                    Ok(yes) => Ok((yes, None)),
                    Err(why) => Err(why),
                },
            )))
        }),
{
}

/// The result of a decide step names the branch taken, the verdict, the reason and
/// the branch's result, and the run counts what the branch executed.
pub proof fn a_decide_step_reports_its_branch(
    s: RunStateView,
    step: Seq<char>,
    name: Seq<char>,
    verdict: bool,
    reason: Option<Seq<char>>,
    run: BodyRunView,
)
    ensures
        ({
            let after = decide_settled(s, step, name, verdict, reason, Ok(run));
            let why = match reason {
                Some(r) => Some(Json::Text(r)),
                None => Some(Json::Null),
            };
            &&& after.1 matches Ok(v) && {
                &&& member(v, "branch"@) == Some(Json::Text(name))
                &&& member(v, "verdict"@) == Some(Json::Bool(verdict))
                &&& member(v, "reason"@) == why
                &&& member(v, "result"@) == Some(run.result)
            }
            &&& after.0.results == s.results
            &&& after.0.plan == s.plan
            &&& after.0.branch_steps_executed == s.branch_steps_executed + run.steps_executed
            &&& after.0.bus.len() == s.bus.len() + run.bus.len() + 1
            &&& after.0.bus.last().source == step
            &&& ends(after.0.bus.last().content, name)
            &&& {
                let through = decide_through(s, step, reason);
                &&& member(through.1, "branch"@) == Some(Json::Null)
                &&& member(through.1, "verdict"@) == Some(Json::Bool(false))
                &&& member(through.1, "reason"@) == why
                &&& member(through.1, "result"@) == Some(Json::Null)
                &&& through.0.results == s.results
                &&& through.0.branch_steps_executed == s.branch_steps_executed
            }
        }),
{
    reveal_strlit("branch");
    reveal_strlit("verdict");
    reveal_strlit("reason");
    reveal_strlit("result");
    assert("branch"@.len() != "verdict"@.len());
    assert("branch"@[0] != "reason"@[0]);
    assert("branch"@[0] != "result"@[0]);
    assert("verdict"@.len() != "reason"@.len());
    assert("verdict"@.len() != "result"@.len());
    assert("reason"@[2] != "result"@[2]);
    let why = match reason {
        Some(r) => Json::Text(r),
        None => Json::Null,
    };
    lemma_decided(Json::Text(name), verdict, why, run.result);
    lemma_decided(Json::Null, false, why, Json::Null);
    let told = "decide → "@ + name;
    assert(told.subrange(told.len() - name.len(), told.len() as int) =~= name);
}

proof fn lemma_decided(branch: Json, verdict: bool, why: Json, result: Json)
    ensures
        ({
            let v = Json::Object(
                crate::value::object(
                    seq![
                        ("branch"@, branch),
                        ("verdict"@, Json::Bool(verdict)),
                        ("reason"@, why),
                        ("result"@, result),
                    ],
                ),
            );
            &&& member(v, "branch"@) == Some(branch)
            &&& member(v, "verdict"@) == Some(Json::Bool(verdict))
            &&& member(v, "reason"@) == Some(why)
            &&& member(v, "result"@) == Some(result)
        }),
{
    reveal_strlit("branch");
    reveal_strlit("verdict");
    reveal_strlit("reason");
    reveal_strlit("result");
    assert("branch"@.len() != "verdict"@.len());
    assert("branch"@[0] != "reason"@[0]);
    assert("branch"@[0] != "result"@[0]);
    assert("verdict"@.len() != "reason"@.len());
    assert("verdict"@.len() != "result"@.len());
    assert("reason"@[2] != "result"@[2]);
    let b = Json::Bool(verdict);
    let (k1, k2, k3, k4) = ("branch"@, "verdict"@, "reason"@, "result"@);
    lemma_holds_four(k1, branch, k2, b, k3, why, k4, result, k1);
    lemma_holds_four(k1, branch, k2, b, k3, why, k4, result, k2);
    lemma_holds_four(k1, branch, k2, b, k3, why, k4, result, k3);
    lemma_holds_four(k1, branch, k2, b, k3, why, k4, result, k4);
}

/// A branch that fails ends the run as it failed: for want of data as empty, by a
/// gate as aborted, by an exit as exited, and otherwise as failed.
pub proof fn a_failed_branch_ends_the_run_as_it_failed(
    s: RunStateView,
    step: Seq<char>,
    name: Seq<char>,
    verdict: bool,
    reason: Option<Seq<char>>,
    e: BodyErrorView,
)
    ensures
        ({
            let after = decide_settled(s, step, name, verdict, reason, Err(e));
            &&& after.0.results == s.results
            &&& after.0.branch_steps_executed == s.branch_steps_executed + e.steps_executed
            &&& after.1 matches Err(end) && (match e.fail {
                BodyFailView::Tool(m) => end == ExecutionEndView::Failed {
                    step,
                    tool: "decide"@,
                    message: m,
                },
                BodyFailView::Aborted(error) => end == ExecutionEndView::Aborted { step, error },
                BodyFailView::Exited(exit) => end == ExecutionEndView::Exited(exit),
                BodyFailView::Render(why) => match why {
                    RenderErrorView::EmptyData { .. } => end
                        matches ExecutionEndView::Empty { step: at, .. } && at == step,
                    _ => end matches ExecutionEndView::Failed { step: at, tool, .. } && at == step
                        && tool == "decide"@,
                },
            })
        }),
{
}

} // verus!
