//! Iterating and selecting: map, reduce and filter, and the bodies that run in them.

use crate::laws::objects::{lemma_holds_four, lemma_holds_two};
use crate::pipeline::body::{branch_of, BranchView};
use crate::pipeline::condition::{condition_of, condition_result, VerdictView};
use crate::pipeline::engine::{DispatchErrorView, ExecutionEndView};
use crate::pipeline::exit::ExitEvalView;
use crate::pipeline::filter::{
    filter_begun, filter_of, filter_recorded, filter_settled, first_failure, item_judged,
    item_verdict, partition, ItemGateView, PartitionView, VerdictStepView,
};
use crate::pipeline::iterate::{
    fold_next, folded, item_label, item_path, map_begun, map_json, map_merged, map_of, map_payload,
    reduce_begun, reduce_of, reduce_settled, FoldNextView, ItemOutcomeView, ReduceWorkView,
};
use crate::pipeline::run_body::{
    body_advanced, body_begun, body_called, body_controlled, body_exited, body_len, body_move,
    body_over, layered, loop_end, BodyFailView, BodyMoveView, BodyRunView, BodyStepView,
    BodyWorkView, StepFailView,
};
use crate::pipeline::state::RunStateView;
use crate::template::render::{rendered_input, rendered_text};
use crate::template::RenderErrorView;
use crate::text::{begins, ends, numeral};
use crate::value::{a_set_key_reads_back, lookup, member, put, Entries, Json, Num};
use vstd::prelude::*;

verus! {

/// In the scope of a fold's item at a position, `index` is the position, `item` the
/// item there, `accumulator` the value so far, and any other name what the plan's
/// results hold under it.
pub proof fn an_item_of_a_fold_sees_its_place(w: ReduceWorkView, base: Entries, key: Seq<char>)
    requires
        0 <= w.at < w.items.len(),
        branch_of("do"@, w.do_) is Ok,
    ensures
        fold_next(w, base) matches FoldNextView::Item(branch, scope) && {
            &&& branch_of("do"@, w.do_) == Ok::<BranchView, Seq<char>>(branch)
            &&& lookup(scope, "index"@) == Some(Json::Num(Num::Int(w.at)))
            &&& lookup(scope, "item"@) == Some(w.items[w.at])
            &&& lookup(scope, "accumulator"@) == Some(w.accumulator)
            &&& key != "index"@ && key != "item"@ && key != "accumulator"@ ==> lookup(scope, key)
                == lookup(base, key)
        },
{
    reveal_strlit("index");
    reveal_strlit("item");
    reveal_strlit("accumulator");
    assert("index"@.len() != "item"@.len());
    assert("index"@.len() != "accumulator"@.len());
    assert("item"@.len() != "accumulator"@.len());
    let item = w.items[w.at];
    let index = Json::Num(Num::Int(w.at));
    let extras = seq![("accumulator"@, w.accumulator), ("item"@, item), ("index"@, index)];
    let two = seq![("accumulator"@, w.accumulator), ("item"@, item)];
    let one = seq![("accumulator"@, w.accumulator)];
    reveal_with_fuel(layered, 4);
    assert(extras.drop_last() =~= two);
    assert(two.drop_last() =~= one);
    assert(one.drop_last() =~= Seq::empty());
    let a = put(base, "accumulator"@, w.accumulator);
    let b = put(a, "item"@, item);
    assert forall|k: Seq<char>| #[trigger] lookup(layered(base, extras), k) == (if k == "index"@ {
        Some(index)
    } else if k == "item"@ {
        Some(item)
    } else if k == "accumulator"@ {
        Some(w.accumulator)
    } else {
        lookup(base, k)
    }) by {
        a_set_key_reads_back(base, "accumulator"@, w.accumulator, k);
        a_set_key_reads_back(a, "item"@, item, k);
        a_set_key_reads_back(b, "index"@, index, k);
    }
}

/// A fold ends once every item is folded in, and not before.
pub proof fn a_fold_visits_every_item(w: ReduceWorkView, base: Entries)
    requires
        0 <= w.at <= w.items.len(),
    ensures
        fold_next(w, base) is Done <==> w.at == w.items.len(),
        fold_next(w, base) is Bad ==> branch_of("do"@, w.do_) is Err,
{
}

/// A fold begins with its initial value and no item folded in; each body's result is
/// the accumulator from then on, and the last one is the fold's result.
pub proof fn a_fold_ends_with_its_last_result(
    s: RunStateView,
    step: Seq<char>,
    input: Entries,
    results: Entries,
    w: ReduceWorkView,
    run: BodyRunView,
)
    ensures
        reduce_begun(step, input, results) matches Ok(begun) ==> {
            &&& reduce_of(input) matches Ok(spec)
            &&& begun.at == 0
            &&& begun.do_ == spec.do_
            &&& rendered_input(results, spec.initial) == Ok::<Json, RenderErrorView>(
                begun.accumulator,
            )
            &&& rendered_input(results, spec.over) == Ok::<Json, RenderErrorView>(
                Json::List(begun.items),
            )
        },
        folded(s, step, w, Ok(run)).1 matches Ok(next) && next.accumulator == run.result && next.at
            == w.at + 1 && next.items == w.items && next.do_ == w.do_,
        folded(s, step, w, Ok(run)).0.results == s.results,
        folded(s, step, w, Ok(run)).0.branch_steps_executed == s.branch_steps_executed
            + run.steps_executed,
        member(reduce_settled(s, step, w).1, "result"@) == Some(w.accumulator),
        member(reduce_settled(s, step, w).1, "count"@) == Some(
            Json::Num(Num::Int(w.items.len() as int)),
        ),
        reduce_settled(s, step, w).0.results == s.results,
        reduce_settled(s, step, w).0.branch_steps_executed == s.branch_steps_executed,
{
    reveal_strlit("count");
    reveal_strlit("result");
    assert("count"@.len() != "result"@.len());
    let n = Json::Num(Num::Int(w.items.len() as int));
    lemma_holds_two("count"@, n, "result"@, w.accumulator, "count"@);
    lemma_holds_two("count"@, n, "result"@, w.accumulator, "result"@);
}

/// A map, a fold and a filter are read as they are written.
pub proof fn an_iteration_is_what_is_written(e: Entries)
    ensures
        map_of(e) matches Ok(spec) ==> {
            &&& lookup(e, "over"@) matches Some(v) ==> spec.over == v
            &&& lookup(e, "do"@) matches Some(v) ==> spec.do_ == v
            &&& match lookup(e, "concurrency"@) {
                Some(Json::Num(Num::Int(n))) => spec.concurrency == n,
                None => spec.concurrency == 1,
                _ => true,
            }
        },
        reduce_of(e) matches Ok(spec) ==> {
            &&& lookup(e, "over"@) matches Some(v) ==> spec.over == v
            &&& lookup(e, "do"@) matches Some(v) ==> spec.do_ == v
            &&& lookup(e, "initial"@) matches Some(v) ==> spec.initial == v
            &&& lookup(e, "initial"@) is None ==> spec.initial is Null
        },
        filter_of(e) matches Ok(spec) ==> {
            &&& lookup(e, "over"@) matches Some(v) ==> spec.over == v
            &&& spec.where_ == match lookup(e, "where"@) {
                Some(Json::Null) => None,
                other => other,
            }
            &&& spec.infer == match lookup(e, "infer"@) {
                Some(Json::Text(t)) => Some(t),
                _ => None,
            }
            &&& spec.model == match lookup(e, "model"@) {
                Some(Json::Text(t)) => Some(t),
                _ => None,
            }
            &&& match lookup(e, "concurrency"@) {
                Some(Json::Num(Num::Int(n))) => spec.concurrency == n,
                None => spec.concurrency == 1,
                _ => true,
            }
        },
{
}

/// A map runs its body for what `over` renders to, which must be a list, with at
/// least one item in flight.
pub proof fn a_map_runs_over_what_over_gives(step: Seq<char>, e: Entries, results: Entries)
    ensures
        match map_begun(step, e, results) {
            Ok(w) => {
                &&& map_of(e) matches Ok(spec)
                &&& rendered_input(results, spec.over) == Ok::<Json, RenderErrorView>(
                    Json::List(w.items),
                )
                &&& branch_of("do"@, spec.do_) == Ok::<BranchView, Seq<char>>(w.branch)
                &&& w.concurrency >= 1
                &&& spec.concurrency >= 1 ==> w.concurrency == spec.concurrency
            },
            Err(end) => match end {
                ExecutionEndView::Failed { step: at, tool, .. } => at == step && tool == "map"@,
                ExecutionEndView::Empty { step: at, .. } => at == step,
                _ => false,
            },
        },
        map_of(e) matches Ok(spec) ==> (rendered_input(results, spec.over) matches Ok(
            Json::List(_),
        )) && branch_of("do"@, spec.do_) is Ok ==> map_begun(step, e, results) is Ok,
{
}

/// The result of a map holds its results and how many they are; what is reported
/// when it begins is how many items there are and how many may be in flight.
pub proof fn a_map_reports_its_results(results: Seq<Json>, items: int, concurrency: int)
    ensures
        member(map_json(results), "results"@) == Some(Json::List(results)),
        member(map_json(results), "count"@) == Some(Json::Num(Num::Int(results.len() as int))),
        member(map_payload(items, concurrency), "over"@) == Some(Json::Num(Num::Int(items))),
        member(map_payload(items, concurrency), "concurrency"@) == Some(
            Json::Num(Num::Int(concurrency)),
        ),
{
    reveal_strlit("count");
    reveal_strlit("results");
    reveal_strlit("over");
    reveal_strlit("concurrency");
    assert("count"@.len() != "results"@.len());
    assert("count"@.len() != "over"@.len());
    assert("count"@.len() != "concurrency"@.len());
    assert("results"@.len() != "over"@.len());
    assert("results"@.len() != "concurrency"@.len());
    assert("over"@.len() != "concurrency"@.len());
    let n = Json::Num(Num::Int(results.len() as int));
    let list = Json::List(results);
    lemma_holds_two("count"@, n, "results"@, list, "count"@);
    lemma_holds_two("count"@, n, "results"@, list, "results"@);
    let over = Json::Num(Num::Int(items));
    let flight = Json::Num(Num::Int(concurrency));
    lemma_holds_two("over"@, over, "concurrency"@, flight, "over"@);
    lemma_holds_two("over"@, over, "concurrency"@, flight, "concurrency"@);
}

/// One item more, at the end of a map, adds its result, or its failure where nothing
/// failed before it.
pub proof fn a_map_takes_its_items_one_by_one(
    s: RunStateView,
    outcomes: Seq<ItemOutcomeView>,
    last: ItemOutcomeView,
)
    ensures
        ({
            let n = outcomes.len() as int;
            let before = map_merged(s, outcomes, n);
            let after = map_merged(s, outcomes.push(last), n + 1);
            match last {
                None => after == before,
                Some(Ok(run)) => after.1 == before.1.push(run.result) && after.2 == before.2
                    && after.0.branch_steps_executed == before.0.branch_steps_executed
                    + run.steps_executed,
                Some(Err(e)) => after.1 == before.1 && after.2 == (if before.2 is Some {
                    before.2
                } else {
                    Some(e.fail)
                }) && after.0.branch_steps_executed == before.0.branch_steps_executed
                    + e.steps_executed,
            }
        }),
        map_merged(s, Seq::empty(), 0) == (s, Seq::<Json>::empty(), None::<BodyFailView>),
{
    lemma_merged_prefix(s, outcomes, last, outcomes.len() as int);
}

proof fn lemma_merged_prefix(
    s: RunStateView,
    outcomes: Seq<ItemOutcomeView>,
    last: ItemOutcomeView,
    n: int,
)
    requires
        0 <= n <= outcomes.len(),
    ensures
        map_merged(s, outcomes.push(last), n) == map_merged(s, outcomes, n),
    decreases n,
{
    if n > 0 {
        lemma_merged_prefix(s, outcomes, last, n - 1);
        assert(outcomes.push(last)[n - 1] == outcomes[n - 1]);
    }
}

/// An item that is judged worth keeping is kept, one that is not is dropped, each at
/// the end of those before it.
pub proof fn a_filter_sorts_its_items_one_by_one(
    items: Seq<Json>,
    verdicts: Seq<Option<Result<bool, StepFailView>>>,
    item: Json,
    keep: bool,
)
    requires
        items.len() == verdicts.len(),
        filter_settled(items, verdicts) is Ok,
    ensures
        ({
            let before = filter_settled(items, verdicts)->Ok_0;
            let after = filter_settled(
                items.push(item),
                verdicts.push(Some(Ok::<bool, StepFailView>(keep))),
            );
            after == Ok::<PartitionView, StepFailView>(
                if keep {
                    PartitionView { kept: before.kept.push(item), dropped: before.dropped }
                } else {
                    PartitionView { kept: before.kept, dropped: before.dropped.push(item) }
                },
            )
        }),
        filter_settled(Seq::empty(), Seq::empty()) == Ok::<PartitionView, StepFailView>(
            PartitionView { kept: Seq::empty(), dropped: Seq::empty() },
        ),
{
    let n = items.len() as int;
    let last = Some(Ok::<bool, StepFailView>(keep));
    lemma_partition_prefix(items, verdicts, item, last, true, n);
    lemma_partition_prefix(items, verdicts, item, last, false, n);
    lemma_failure_prefix(verdicts, last, n);
}

proof fn lemma_partition_prefix(
    items: Seq<Json>,
    verdicts: Seq<Option<Result<bool, StepFailView>>>,
    item: Json,
    last: Option<Result<bool, StepFailView>>,
    keep: bool,
    n: int,
)
    requires
        0 <= n <= items.len(),
        items.len() == verdicts.len(),
    ensures
        partition(items.push(item), verdicts.push(last), keep, n) == partition(
            items,
            verdicts,
            keep,
            n,
        ),
    decreases n,
{
    if n > 0 {
        lemma_partition_prefix(items, verdicts, item, last, keep, n - 1);
        assert(items.push(item)[n - 1] == items[n - 1]);
        assert(verdicts.push(last)[n - 1] == verdicts[n - 1]);
    }
}

proof fn lemma_failure_prefix(
    verdicts: Seq<Option<Result<bool, StepFailView>>>,
    last: Option<Result<bool, StepFailView>>,
    n: int,
)
    requires
        0 <= n <= verdicts.len(),
    ensures
        first_failure(verdicts.push(last), n) == first_failure(verdicts, n),
    decreases n,
{
    if n > 0 {
        lemma_failure_prefix(verdicts, last, n - 1);
        assert(verdicts.push(last)[n - 1] == verdicts[n - 1]);
    }
}

/// A filter fails with the failure of its lowest item.
pub proof fn a_filter_reports_the_lowest_failure(
    items: Seq<Json>,
    verdicts: Seq<Option<Result<bool, StepFailView>>>,
    k: int,
    fail: StepFailView,
)
    requires
        items.len() == verdicts.len(),
        0 <= k < verdicts.len(),
        verdicts[k] == Some(Err::<bool, StepFailView>(fail)),
        forall|i: int| 0 <= i < k ==> !(#[trigger] verdicts[i] matches Some(Err(_))),
    ensures
        filter_settled(items, verdicts) == Err::<PartitionView, StepFailView>(fail),
{
    lemma_first_failure(verdicts, k, fail, verdicts.len() as int);
}

proof fn lemma_first_failure(
    verdicts: Seq<Option<Result<bool, StepFailView>>>,
    k: int,
    fail: StepFailView,
    n: int,
)
    requires
        0 <= k < verdicts.len(),
        0 <= n <= verdicts.len(),
        verdicts[k] == Some(Err::<bool, StepFailView>(fail)),
        forall|i: int| 0 <= i < k ==> !(#[trigger] verdicts[i] matches Some(Err(_))),
    ensures
        first_failure(verdicts, n) == (if n <= k {
            None
        } else {
            Some(fail)
        }),
    decreases n,
{
    if n > 0 {
        lemma_first_failure(verdicts, k, fail, n - 1);
        if n - 1 < k {
            assert(!(verdicts[n - 1] matches Some(Err(_))));
        }
    }
}

/// A filter selects from what `over` renders to by its condition or its question,
/// one of them and not both.
pub proof fn a_filter_runs_over_what_over_gives(e: Entries, scope: Entries)
    ensures
        filter_begun(e, scope) matches Ok(w) ==> {
            &&& filter_of(e) matches Ok(spec)
            &&& rendered_input(scope, spec.over) == Ok::<Json, RenderErrorView>(
                Json::List(w.items),
            )
            &&& spec.where_ is Some != spec.infer is Some
            &&& spec.where_ matches Some(raw) ==> w.gate == ItemGateView::Where(raw)
            &&& spec.infer matches Some(q) ==> w.gate == ItemGateView::Infer(q)
            &&& w.concurrency >= 1
            &&& spec.concurrency >= 1 ==> w.concurrency == spec.concurrency
            &&& spec.model is None ==> w.model is None
            &&& spec.model matches Some(m) ==> (w.model matches Some(model) && rendered_text(
                scope,
                m,
            ) == Ok::<Seq<char>, RenderErrorView>(model))
        },
{
}

/// An item is kept exactly where its condition, rendered in the item's scope, holds;
/// or where the judge says yes to the question rendered there.
pub proof fn an_item_is_kept_when_its_gate_holds(
    raw: Json,
    question: Seq<char>,
    scope: Entries,
    index: int,
    answer: VerdictView,
)
    ensures
        item_verdict(ItemGateView::Where(raw), scope, index) matches VerdictStepView::Decided(Ok(b))
            ==> (rendered_input(scope, raw) matches Ok(v) && condition_of(v) matches Ok(c)
            && condition_result(c) == Ok::<bool, Seq<char>>(b)),
        rendered_input(scope, raw) matches Ok(v) ==> (condition_of(v) matches Ok(c) ==> (
        condition_result(c) matches Ok(b) ==> item_verdict(ItemGateView::Where(raw), scope, index)
            == VerdictStepView::Decided(Ok(b)))),
        rendered_text(scope, question) matches Ok(q) ==> item_verdict(
            ItemGateView::Infer(question),
            scope,
            index,
        ) == VerdictStepView::Judge(q),
        item_judged(index, Ok(answer)) == Ok::<bool, StepFailView>(answer.verdict),
{
}

/// The result of a filter holds the kept items, the dropped items, and how many of
/// each there are.
pub proof fn a_filter_reports_what_it_kept_and_dropped(
    s: RunStateView,
    step: Seq<char>,
    p: PartitionView,
    fail: StepFailView,
)
    ensures
        filter_recorded(s, step, Ok(p)).1 matches Ok(v) && {
            &&& member(v, "items"@) == Some(Json::List(p.kept))
            &&& member(v, "count"@) == Some(Json::Num(Num::Int(p.kept.len() as int)))
            &&& member(v, "dropped"@) == Some(Json::List(p.dropped))
            &&& member(v, "dropped_count"@) == Some(Json::Num(Num::Int(p.dropped.len() as int)))
        },
        filter_recorded(s, step, Ok(p)).0 == (RunStateView {
            bus: filter_recorded(s, step, Ok(p)).0.bus,
            ..s
        }),
        filter_recorded(s, step, Err(fail)).0 == s,
        filter_recorded(s, step, Err(fail)).1 matches Err(end) && (match fail {
            StepFailView::Failed(m) => end == ExecutionEndView::Failed {
                step,
                tool: "filter"@,
                message: m,
            },
            StepFailView::Aborted(error) => end == ExecutionEndView::Aborted { step, error },
            StepFailView::Empty(_) => end matches ExecutionEndView::Empty { step: at, .. } && at
                == step,
        }),
{
    reveal_strlit("items");
    reveal_strlit("count");
    reveal_strlit("dropped");
    reveal_strlit("dropped_count");
    assert("items"@[0] != "count"@[0]);
    assert("items"@.len() != "dropped"@.len());
    assert("items"@.len() != "dropped_count"@.len());
    assert("count"@.len() != "dropped"@.len());
    assert("count"@.len() != "dropped_count"@.len());
    assert("dropped"@.len() != "dropped_count"@.len());
    let a = Json::List(p.kept);
    let b = Json::Num(Num::Int(p.kept.len() as int));
    let c = Json::List(p.dropped);
    let d = Json::Num(Num::Int(p.dropped.len() as int));
    let (k1, k2, k3, k4) = ("items"@, "count"@, "dropped"@, "dropped_count"@);
    lemma_holds_four(k1, a, k2, b, k3, c, k4, d, k1);
    lemma_holds_four(k1, a, k2, b, k3, c, k4, d, k2);
    lemma_holds_four(k1, a, k2, b, k3, c, k4, d, k3);
    lemma_holds_four(k1, a, k2, b, k3, c, k4, d, k4);
}

// ── Bodies ───────────────────────────────────────────────────────────────

/// A branch is read as it is written: an object is one call, a list is its steps in
/// order, and nothing else is a branch.
pub proof fn a_branch_is_what_is_written(name: Seq<char>, raw: Json)
    requires
        branch_of(name, raw) is Ok,
    ensures
        match (raw, branch_of(name, raw)->Ok_0) {
            (Json::Object(e), BranchView::Call(call)) => {
                &&& lookup(e, "toolName"@) matches Some(Json::Text(t)) ==> call.tool_name == t
                &&& lookup(e, "toolName"@) is None ==> (lookup(e, "tool_name"@) matches Some(
                    Json::Text(t),
                ) ==> call.tool_name == t)
                &&& lookup(e, "input"@) matches Some(Json::Object(i)) ==> call.input == i
                &&& call.reasoning == match lookup(e, "reasoning"@) {
                    Some(Json::Text(t)) => Some(t),
                    _ => None,
                }
            },
            (Json::List(items), BranchView::Steps(steps)) => steps.len() == items.len()
                && items.len() > 0,
            _ => false,
        },
{
}

/// A body runs its calls in order: the next one is the one that stands where it is,
/// with that call's tool and that call's input. A control step keeps its raw input,
/// any other input is rendered in the body's scope.
pub proof fn a_body_runs_the_call_where_it_stands(w: BodyWorkView)
    requires
        0 <= w.at < body_len(w.branch),
    ensures
        ({
            let tool = match w.branch {
                BranchView::Call(call) => call.tool_name,
                BranchView::Steps(steps) => steps[w.at].tool_name,
            };
            let input = match w.branch {
                BranchView::Call(call) => call.input,
                BranchView::Steps(steps) => steps[w.at].input,
            };
            let rendered = rendered_input(w.scope, Json::Object(input));
            match body_move(w) {
                BodyMoveView::Done => false,
                BodyMoveView::Fail(e) => rendered == Err::<Json, RenderErrorView>(e),
                BodyMoveView::Control(path, t, raw) => t == tool && raw == input && (tool
                    == "agent"@ || tool == "ask"@ || tool == "filter"@) && path.step == w.step
                    && path.body == Some(w.path),
                BodyMoveView::Exit(path, v) => tool == "exit"@ && rendered == Ok::<
                    Json,
                    RenderErrorView,
                >(v) && path.step == w.step && path.body == Some(w.path),
                BodyMoveView::Call(path, t, v) => t == tool && rendered == Ok::<
                    Json,
                    RenderErrorView,
                >(v) && tool != "exit"@ && tool != "agent"@ && tool != "ask"@ && tool
                    != "filter"@ && path.step == w.step && path.body == Some(w.path)
                    && path.body_step == match w.branch {
                    BranchView::Call(_) => None,
                    BranchView::Steps(steps) => Some(steps[w.at].id),
                },
            }
        }),
{
}

/// A body begins at its first call with nothing done, and is done after its last
/// one, with that call's value as its result.
pub proof fn a_body_ends_with_its_last_value(
    step: Seq<char>,
    path: Seq<char>,
    label: Seq<char>,
    branch: BranchView,
    scope: Entries,
    w: BodyWorkView,
    value: Json,
)
    requires
        0 <= w.at < body_len(w.branch),
    ensures
        ({
            let begun = body_begun(step, path, label, branch, scope);
            &&& begun.step == step && begun.path == path && begun.label == label
            &&& begun.branch == branch && begun.scope == scope
            &&& begun.at == 0 && begun.steps_executed == 0 && begun.bus.len() == 0
            &&& begun.last is Null
        }),
        body_called(w, Ok(value)) matches BodyStepView::On(next) && {
            &&& next.at == w.at + 1
            &&& next.steps_executed == w.steps_executed + 1
            &&& next.last == value
            &&& next.branch == w.branch && next.step == w.step && next.path == w.path
            &&& next.at == body_len(w.branch) ==> (body_move(next) is Done && (body_over(next)
                matches Ok(run) && run.result == value && run.steps_executed
                == w.steps_executed + 1))
        },
        w.branch is Call ==> body_len(w.branch) == 1,
        w.branch matches BranchView::Steps(steps) ==> body_len(w.branch) == steps.len(),
{
}

/// What a call of a body gives is seen by the later calls under its step's id, and
/// under no other name.
pub proof fn a_body_step_adds_its_own_name(
    w: BodyWorkView,
    value: Json,
    inner: int,
    key: Seq<char>,
)
    requires
        0 <= w.at < body_len(w.branch),
    ensures
        lookup(body_advanced(w, value, inner).scope, key) == (match w.branch {
            BranchView::Steps(steps) => if key == steps[w.at].id {
                Some(value)
            } else {
                lookup(w.scope, key)
            },
            BranchView::Call(_) => lookup(w.scope, key),
        }),
        body_advanced(w, value, inner).steps_executed == w.steps_executed + 1 + inner,
{
    if let BranchView::Steps(steps) = w.branch {
        a_set_key_reads_back(w.scope, steps[w.at].id, value, key);
    }
}

/// A body that fails keeps count of what it did, and fails as its call did: a failed
/// call with a message that ends with the call's, an abort as an abort, an exit as
/// that exit, missing data as missing data.
pub proof fn a_body_fails_as_its_call_did(w: BodyWorkView, message: Seq<char>, error: Option<Json>)
    requires
        0 <= w.at < body_len(w.branch),
    ensures
        body_called(w, Err(DispatchErrorView::Failed(message))) matches BodyStepView::Over(e) && (
        e.fail matches BodyFailView::Tool(told) && ends(told, message) && begins(told, w.label))
            && e.steps_executed == w.steps_executed && e.bus == w.bus,
        body_called(w, Err(DispatchErrorView::Aborted(error))) matches BodyStepView::Over(e)
            && e.fail == BodyFailView::Aborted(error) && e.steps_executed == w.steps_executed,
        body_controlled(w, Err(StepFailView::Aborted(error))) matches BodyStepView::Over(e)
            && e.fail == BodyFailView::Aborted(error) && e.steps_executed == w.steps_executed,
        body_controlled(w, Err(StepFailView::Failed(message))) matches BodyStepView::Over(e) && (
        e.fail matches BodyFailView::Tool(told) && ends(told, message) && begins(told, w.label)),
{
    let told = match w.branch {
        BranchView::Call(call) => w.label + " ("@ + call.tool_name + "): "@ + message,
        BranchView::Steps(steps) => w.label + " step "@ + steps[w.at].id + " ("@
            + steps[w.at].tool_name + "): "@ + message,
    };
    assert(told.subrange(told.len() - message.len(), told.len() as int) =~= message);
    assert(told.subrange(0, w.label.len() as int) =~= w.label);
}

/// An exit that fires in a body ends it with that exit, and counts as a step; one
/// that does not fire gives the step its value.
pub proof fn an_exit_in_a_body_ends_it(
    w: BodyWorkView,
    eval: ExitEvalView,
    value: Json,
    inner: int,
    e: RenderErrorView,
)
    requires
        0 <= w.at < body_len(w.branch),
    ensures
        match eval {
            ExitEvalView::Exited(exit) => body_exited(w, Ok(eval)) matches BodyStepView::Over(over)
                && over.fail == BodyFailView::Exited(exit) && over.steps_executed
                == w.steps_executed + 1,
            ExitEvalView::Passed(v) => body_exited(w, Ok(eval)) matches BodyStepView::On(next)
                && next.last == v && next.at == w.at + 1,
        },
        body_controlled(w, Ok((value, inner))) matches BodyStepView::On(next) && next.last == value
            && next.steps_executed == w.steps_executed + 1 + inner && next.at == w.at + 1,
        body_controlled(w, Err(StepFailView::Empty(e))) matches BodyStepView::Over(over)
            && over.fail == BodyFailView::Render(e),
{
}

/// A loop whose body fails ends the run as the body failed, under the step's name;
/// an exit has no meaning in a loop, so there it is a failure.
pub proof fn a_loop_fails_as_its_body_did(fail: BodyFailView, step: Seq<char>, tool: Seq<char>)
    ensures
        match fail {
            BodyFailView::Tool(m) => loop_end(fail, step, tool) == (ExecutionEndView::Failed {
                step,
                tool,
                message: m,
            }),
            BodyFailView::Aborted(error) => loop_end(fail, step, tool)
                == (ExecutionEndView::Aborted { step, error }),
            BodyFailView::Exited(_) => loop_end(fail, step, tool)
                matches ExecutionEndView::Failed { step: at, tool: t, .. } && at == step && t
                == tool,
            BodyFailView::Render(RenderErrorView::EmptyData { .. }) => loop_end(fail, step, tool)
                matches ExecutionEndView::Empty { step: at, .. } && at == step,
            BodyFailView::Render(_) => loop_end(fail, step, tool)
                matches ExecutionEndView::Failed { step: at, tool: t, .. } && at == step && t
                == tool,
        },
{
}

/// A body of an item is named by its place: its path and its label end with the
/// index, and no two items share them.
pub proof fn an_item_is_named_by_its_place(i: int)
    requires
        0 <= i,
    ensures
        item_path(i) == "do."@ + numeral(i as nat),
        ends(item_label(i), numeral(i as nat)),
        begins(item_label(i), "`do` item "@),
{
    let digits = numeral(i as nat);
    let label = item_label(i);
    assert(label.subrange(label.len() - digits.len(), label.len() as int) =~= digits);
    assert(label.subrange(0, "`do` item "@.len() as int) =~= "`do` item "@);
}

} // verus!
