//! The `map` and `reduce` iteration steps: run a body once per item of a list.
//! Never dispatched to a tool registry. Only `over` (and reduce's `initial`)
//! renders up front; the body renders lazily per item, in a scope layered over
//! the plan's results plus per-item pseudo-roots (`item`, `index`, and for
//! reduce the running `accumulator`). `map` collects per-item results in input
//! order and may run items concurrently; `reduce` is a strict left fold, so it
//! is always sequential.

use crate::pipeline::body::{
    body_problems, branch_of, parse_branch, validate_body, Branch, BranchView,
};
use crate::pipeline::decision::executed_in_body;
use crate::pipeline::engine::{
    end_of_render, failed, render_end, run_view, with_note, ExecutionEnd, ExecutionEndView,
};
use crate::pipeline::filter::{check_concurrency, concurrency_problems};
use crate::pipeline::record::{
    check_record, get_size, get_value, int_at, lemma_field_fits, record_problem, rule_for,
    rules_of, value_at, Record,
};
use crate::pipeline::references::{
    check_templates, joined_names, names, template_problems, template_roots, value_roots,
};
use crate::pipeline::run_body::{
    add_body, body_result, end_of_loop, extras_view, layer, layered, loop_end, with_body,
    BodyError, BodyErrorView, BodyFail, BodyFailView, BodyRun, BodyRunView,
};
use crate::pipeline::state::{BusEntryView, BusKind, RunState, RunStateView};
use crate::template::{render::rendered_input, render_input, Roots};
use crate::text::{
    cat2, cat3, cat4, cat5, decimal_usize, lists, numeral, push_text, texts,
};
use crate::value::{
    a_set_key_reads_back, lookup, obj1, obj2, object, put, values_view, Data, Entries, Fields, Json,
    Num,
};
use vstd::prelude::*;

verus! {

/// The map step's input, parsed from the raw (unrendered) step input: the body
/// stays a plain value so rendering can be deferred until each item's scope
/// exists.
#[derive(Debug)]
pub struct MapSpec {
    /// The list to iterate: usually a template (typed splice keeps it an
    /// array), sometimes a literal array.
    pub over: Data,
    /// Body run once per item: a single tool call or an inline step list.
    pub do_: Data,
    /// Maximum items in flight; 1 (the default) runs items sequentially.
    pub concurrency: usize,
}

/// The reduce step's input. No `concurrency`: a fold's every iteration reads
/// the previous accumulator.
#[derive(Debug)]
pub struct ReduceSpec {
    pub over: Data,
    pub do_: Data,
    /// Starting accumulator; rendered up front, defaults to null.
    pub initial: Data,
}

/// The model of a [`MapSpec`].
pub struct MapSpecView {
    pub over: Json,
    pub do_: Json,
    pub concurrency: int,
}

/// The model of a [`ReduceSpec`].
pub struct ReduceSpecView {
    pub over: Json,
    pub do_: Json,
    pub initial: Json,
}

impl MapSpec {
    pub open spec fn view(&self) -> MapSpecView {
        MapSpecView { over: self.over@, do_: self.do_@, concurrency: self.concurrency as int }
    }
}

impl ReduceSpec {
    pub open spec fn view(&self) -> ReduceSpecView {
        ReduceSpecView { over: self.over@, do_: self.do_@, initial: self.initial@ }
    }
}

/// The map that an input is read as, or why it is none.
pub open spec fn map_of(input: Entries) -> Result<MapSpecView, Seq<char>> {
    match record_problem(input, Record::Iterate) {
        Some(problem) => Err(problem),
        None => Ok(
            MapSpecView {
                over: value_at(input, "over"@, "over"@),
                do_: value_at(input, "do"@, "do"@),
                concurrency: int_at(input, "concurrency"@, "concurrency"@, 1),
            },
        ),
    }
}

/// The fold that an input is read as, or why it is none.
pub open spec fn reduce_of(input: Entries) -> Result<ReduceSpecView, Seq<char>> {
    match record_problem(input, Record::Fold) {
        Some(problem) => Err(problem),
        None => Ok(
            ReduceSpecView {
                over: value_at(input, "over"@, "over"@),
                do_: value_at(input, "do"@, "do"@),
                initial: value_at(input, "initial"@, "initial"@),
            },
        ),
    }
}

/// Where the concurrency stands among a map's fields.
proof fn lemma_concurrency_rule()
    ensures
        rule_for(rules_of(Record::Iterate), "concurrency"@, 0) == Some(2int),
{
    reveal_strlit("over");
    reveal_strlit("do");
    reveal_strlit("concurrency");
    let rules = rules_of(Record::Iterate);
    let key = "concurrency"@;
    assert(rules[0].name.len() != key.len());
    assert(rules[1].name.len() != key.len());
    reveal_with_fuel(rule_for, 4);
}

impl MapSpec {
    /// Reads a map step's input.
    pub fn from_input(input: &Fields) -> (r: Result<MapSpec, String>)
        ensures
            match r {
                Ok(spec) => map_of(input@) == Ok::<MapSpecView, Seq<char>>(spec@),
                Err(e) => map_of(input@) == Err::<MapSpecView, Seq<char>>(e@),
            },
    {
        match check_record(input, Record::Iterate) {
            Some(problem) => Err(problem),
            None => {
                proof {
                    lemma_concurrency_rule();
                    lemma_field_fits(input@, Record::Iterate, "concurrency"@);
                }
                Ok(
                    MapSpec {
                        over: get_value(input, "over", "over"),
                        do_: get_value(input, "do", "do"),
                        concurrency: get_size(input, "concurrency", "concurrency", 1),
                    },
                )
            },
        }
    }
}

impl ReduceSpec {
    /// Reads a reduce step's input.
    pub fn from_input(input: &Fields) -> (r: Result<ReduceSpec, String>)
        ensures
            match r {
                Ok(spec) => reduce_of(input@) == Ok::<ReduceSpecView, Seq<char>>(spec@),
                Err(e) => reduce_of(input@) == Err::<ReduceSpecView, Seq<char>>(e@),
            },
    {
        match check_record(input, Record::Fold) {
            Some(problem) => Err(problem),
            None => Ok(
                ReduceSpec {
                    over: get_value(input, "over", "over"),
                    do_: get_value(input, "do", "do"),
                    initial: get_value(input, "initial", "initial"),
                },
            ),
        }
    }
}

// ── Static validation ────────────────────────────────────────────────────

/// The roots that exist per item only.
pub open spec fn item_roots() -> Seq<Seq<char>> {
    seq!["item"@, "index"@, "accumulator"@]
}

fn pseudo_roots() -> (r: Vec<&'static str>)
    ensures
        names(r@) == item_roots(),
{
    let r: Vec<&'static str> = vec!["item", "index", "accumulator"];
    assert(names(r@) =~= item_roots());
    r
}

/// The problem with a per-item root in a field that renders before any item
/// exists.
pub open spec fn misplaced_root_problems(value: Json, pseudo: Seq<char>, step: Seq<char>) -> Seq<
    Seq<char>,
> {
    if value_roots(value).contains(pseudo) {
        seq!["step "@ + step + ": `{{"@ + pseudo + "}}` is only available inside `do`"@]
    } else {
        Seq::empty()
    }
}

/// What is wrong with a field that renders before any item exists.
pub open spec fn eager_problems(value: Json, seen: Seq<Seq<char>>, step: Seq<char>) -> Seq<
    Seq<char>,
> {
    template_problems(value, seen + item_roots(), step) + misplaced_root_problems(
        value,
        "item"@,
        step,
    ) + misplaced_root_problems(value, "index"@, step) + misplaced_root_problems(
        value,
        "accumulator"@,
        step,
    )
}

/// The problem with an accumulator where nothing accumulates.
pub open spec fn accumulator_problems(body: Json, step: Seq<char>) -> Seq<Seq<char>> {
    if value_roots(body).contains("accumulator"@) {
        seq!["step "@ + step + ": `{{accumulator}}` is only available inside a reduce body"@]
    } else {
        Seq::empty()
    }
}

/// Everything wrong with a map step's input, as far as it shows without
/// running.
pub open spec fn map_problems(
    input: Entries,
    seen: Seq<Seq<char>>,
    plan_ids: Seq<Seq<char>>,
    step: Seq<char>,
) -> Seq<Seq<char>> {
    match map_of(input) {
        Err(e) => seq!["step "@ + step + ": invalid map input: "@ + e],
        Ok(spec) => concurrency_problems(spec.concurrency, step) + eager_problems(
            spec.over,
            seen,
            step,
        ) + body_problems("do"@, spec.do_, seen, item_roots(), plan_ids, step, false)
            + accumulator_problems(spec.do_, step),
    }
}

/// Everything wrong with a reduce step's input, as far as it shows without
/// running.
pub open spec fn reduce_problems(
    input: Entries,
    seen: Seq<Seq<char>>,
    plan_ids: Seq<Seq<char>>,
    step: Seq<char>,
) -> Seq<Seq<char>> {
    match reduce_of(input) {
        Err(e) => seq!["step "@ + step + ": invalid reduce input: "@ + e],
        Ok(spec) => eager_problems(spec.over, seen, step) + eager_problems(
            spec.initial,
            seen,
            step,
        ) + body_problems("do"@, spec.do_, seen, item_roots(), plan_ids, step, false),
    }
}

fn check_misplaced_root(value: &Data, pseudo: &str, step_id: &str, problems: &mut Vec<String>)
    ensures
        texts(final(problems)@) == texts(old(problems)@) + misplaced_root_problems(
            value@,
            pseudo@,
            step_id@,
        ),
{
    if lists(&template_roots(value), pseudo) {
        push_text(
            problems,
            cat5("step ", step_id, ": `{{", pseudo, "}}` is only available inside `do`"),
        );
    } else {
        proof {
            crate::seqs::append_nothing(texts(problems@));
        }
    }
}

/// `over` and `initial` render before any item exists, so pseudo-roots in them
/// can never resolve: that is caught statically. The generic walk runs with the
/// pseudo-roots marked available so the pointed message is the only one
/// reported for them.
pub fn check_eager_field(value: &Data, seen: &[&str], step_id: &str, problems: &mut Vec<String>)
    ensures
        texts(final(problems)@) == texts(old(problems)@) + eager_problems(
            value@,
            names(seen@),
            step_id@,
        ),
{
    broadcast use crate::seqs::append_append;

    let pseudo = pseudo_roots();
    let available = joined_names(seen, pseudo.as_slice());
    check_templates(value, available.as_slice(), step_id, problems);
    check_misplaced_root(value, "item", step_id, problems);
    check_misplaced_root(value, "index", step_id, problems);
    check_misplaced_root(value, "accumulator", step_id, problems);
}

/// Static validation of a map step's raw input: spec shape, body shape and tool
/// names, template reference ordering, and pseudo-root placement.
pub fn validate_map_input(
    input: &Fields,
    seen: &[&str],
    all_plan_ids: &[&str],
    step_id: &str,
    problems: &mut Vec<String>,
)
    ensures
        texts(final(problems)@) == texts(old(problems)@) + map_problems(
            input@,
            names(seen@),
            names(all_plan_ids@),
            step_id@,
        ),
{
    broadcast use crate::seqs::append_append;

    let spec = match MapSpec::from_input(input) {
        Ok(spec) => spec,
        Err(e) => {
            push_text(problems, cat4("step ", step_id, ": invalid map input: ", e.as_str()));
            return;
        },
    };
    check_concurrency(spec.concurrency, step_id, problems);
    check_eager_field(&spec.over, seen, step_id, problems);
    let pseudo = pseudo_roots();
    validate_body(
        "do",
        &spec.do_,
        seen,
        pseudo.as_slice(),
        all_plan_ids,
        step_id,
        false,
        problems,
    );
    if lists(&template_roots(&spec.do_), "accumulator") {
        push_text(
            problems,
            cat3(
                "step ",
                step_id,
                ": `{{accumulator}}` is only available inside a reduce body",
            ),
        );
    } else {
        proof {
            crate::seqs::append_nothing(texts(problems@));
        }
    }
}

/// Static validation of a reduce step's raw input.
pub fn validate_reduce_input(
    input: &Fields,
    seen: &[&str],
    all_plan_ids: &[&str],
    step_id: &str,
    problems: &mut Vec<String>,
)
    ensures
        texts(final(problems)@) == texts(old(problems)@) + reduce_problems(
            input@,
            names(seen@),
            names(all_plan_ids@),
            step_id@,
        ),
{
    broadcast use crate::seqs::append_append;

    let spec = match ReduceSpec::from_input(input) {
        Ok(spec) => spec,
        Err(e) => {
            push_text(problems, cat4("step ", step_id, ": invalid reduce input: ", e.as_str()));
            return;
        },
    };
    check_eager_field(&spec.over, seen, step_id, problems);
    check_eager_field(&spec.initial, seen, step_id, problems);
    let pseudo = pseudo_roots();
    validate_body(
        "do",
        &spec.do_,
        seen,
        pseudo.as_slice(),
        all_plan_ids,
        step_id,
        false,
        problems,
    );
}

/// What a value is called in a message.
pub open spec fn kind_of(v: Json) -> Seq<char> {
    match v {
        Json::Null => "null"@,
        Json::Bool(_) => "a boolean"@,
        Json::Num(_) => "a number"@,
        Json::Text(_) => "a string"@,
        Json::List(_) => "an array"@,
        Json::Object(_) => "an object"@,
    }
}

/// What a value is called in a message.
pub fn kind_name(value: &Data) -> (r: &'static str)
    ensures
        r@ == kind_of(value@),
{
    match value {
        Data::Null => "null",
        Data::Bool(_) => "a boolean",
        Data::Num(_) => "a number",
        Data::Text(_) => "a string",
        Data::List(_) => "an array",
        Data::Object(_) => "an object",
    }
}

// ── Running ──────────────────────────────────────────────────────────────

/// What is said of an `over` that is no list.
pub open spec fn not_a_list(v: Json) -> Seq<char> {
    "`over` must produce an array, got "@ + kind_of(v)
}

/// The items that `over` renders to, or how the run ends.
pub open spec fn rendered_over(
    over: Json,
    results: Entries,
    step: Seq<char>,
    tool: Seq<char>,
) -> Result<
    Seq<Json>,
    ExecutionEndView,
> {
    match rendered_input(results, over) {
        Err(e) => Err(render_end(e, step, tool)),
        Ok(Json::List(items)) => Ok(items),
        Ok(other) => Err(ExecutionEndView::Failed { step, tool, message: not_a_list(other) }),
    }
}

/// A map whose list was rendered.
#[derive(Debug)]
pub struct MapWork {
    pub items: Vec<Data>,
    pub branch: Branch,
    /// How many items may be in flight; at least one.
    pub concurrency: usize,
}

/// The model of a [`MapWork`].
pub struct MapWorkView {
    pub items: Seq<Json>,
    pub branch: BranchView,
    pub concurrency: int,
}

impl MapWork {
    pub open spec fn view(&self) -> MapWorkView {
        MapWorkView {
            items: values_view(self.items@),
            branch: self.branch@,
            concurrency: self.concurrency as int,
        }
    }
}

pub open spec fn map_work_view(r: Result<MapWork, ExecutionEnd>) -> Result<
    MapWorkView,
    ExecutionEndView,
> {
    match r {
        Ok(w) => Ok(w@),
        Err(e) => Err(e@),
    }
}

/// How a map begins: only `over` is rendered; the body renders per item.
pub open spec fn map_begun(step: Seq<char>, input: Entries, results: Entries) -> Result<
    MapWorkView,
    ExecutionEndView,
> {
    match map_of(input) {
        Err(e) => Err(
            ExecutionEndView::Failed {
                step,
                tool: "map"@,
                message: "invalid map step input: "@ + e,
            },
        ),
        Ok(spec) => match rendered_over(spec.over, results, step, "map"@) {
            Err(end) => Err(end),
            Ok(items) => match branch_of("do"@, spec.do_) {
                Err(message) => Err(
                    ExecutionEndView::Failed { step, tool: "map"@, message },
                ),
                Ok(branch) => Ok(
                    MapWorkView {
                        items,
                        branch,
                        concurrency: if spec.concurrency >= 1 {
                            spec.concurrency
                        } else {
                            1
                        },
                    },
                ),
            },
        },
    }
}

fn render_over(over: &Data, results: &Fields, step: &str, tool: &str) -> (r: Result<
    Vec<Data>,
    ExecutionEnd,
>)
    ensures
        match r {
            Ok(items) => rendered_over(over@, results@, step@, tool@) == Ok::<
                Seq<Json>,
                ExecutionEndView,
            >(values_view(items@)),
            Err(e) => rendered_over(over@, results@, step@, tool@) == Err::<
                Seq<Json>,
                ExecutionEndView,
            >(e@),
        },
{
    match render_input(over, &Roots::new(results)) {
        Err(e) => Err(end_of_render(&e, step, tool)),
        Ok(Data::List(items)) => Ok(items),
        Ok(other) => Err(
            failed(step, tool, cat2("`over` must produce an array, got ", kind_name(&other))),
        ),
    }
}

/// Begins a map step: renders `over` and reads the body.
pub fn begin_map(step: &str, input: &Fields, results: &Fields) -> (r: Result<MapWork, ExecutionEnd>)
    ensures
        map_work_view(r) == map_begun(step@, input@, results@),
{
    let spec = match MapSpec::from_input(input) {
        Ok(spec) => spec,
        Err(e) => {
            return Err(failed(step, "map", cat2("invalid map step input: ", e.as_str())));
        },
    };
    let items = match render_over(&spec.over, results, step, "map") {
        Ok(items) => items,
        Err(end) => {
            return Err(end);
        },
    };
    let branch = match parse_branch("do", &spec.do_) {
        Ok(branch) => branch,
        Err(message) => {
            return Err(failed(step, "map", message));
        },
    };
    let concurrency: usize = if spec.concurrency >= 1 {
        spec.concurrency
    } else {
        1
    };
    Ok(MapWork { items, branch, concurrency })
}

/// The scope of one item of a map: the plan's results with the item and its
/// index over them. Items never see each other.
pub open spec fn map_scope(base: Entries, item: Json, index: int) -> Entries {
    layered(base, seq![("item"@, item), ("index"@, Json::Num(Num::Int(index)))])
}

/// Where an item's body stands in its step.
pub open spec fn item_path(index: int) -> Seq<char> {
    "do."@ + numeral(index as nat)
}

/// What an item's body is called in messages.
pub open spec fn item_label(index: int) -> Seq<char> {
    "`do` item "@ + numeral(index as nat)
}

/// The scope of one item of a map.
pub fn scope_of_item(base: &Fields, item: &Data, index: usize) -> (r: Fields)
    ensures
        r@ == map_scope(base@, item@, index as int),
{
    let extras = vec![
        ("item".to_owned(), item.copy()),
        ("index".to_owned(), Data::count(index)),
    ];
    assert(extras_view(extras@) =~= seq![
        ("item"@, item@),
        ("index"@, Json::Num(Num::Int(index as int))),
    ]);
    layer(base, extras)
}

/// Where an item's body stands in its step.
pub fn path_of_item(index: usize) -> (r: String)
    ensures
        r@ == item_path(index as int),
{
    cat2("do.", decimal_usize(index).as_str())
}

/// What an item's body is called in messages.
pub fn label_of_item(index: usize) -> (r: String)
    ensures
        r@ == item_label(index as int),
{
    cat2("`do` item ", decimal_usize(index).as_str())
}

/// What became of an item: nothing where it was not started after a failure.
pub type ItemOutcome = Option<Result<BodyRun, BodyError>>;

/// The model of an [`ItemOutcome`].
pub type ItemOutcomeView = Option<Result<BodyRunView, BodyErrorView>>;

pub open spec fn outcomes_view(s: Seq<ItemOutcome>) -> Seq<ItemOutcomeView> {
    Seq::new(
        s.len(),
        |i: int|
            match s[i] {
                Some(body) => Some(body_result(body)),
                None => None,
            },
    )
}

/// What the first `n` outcomes of a map come to: the run with what their bodies
/// did, their results in input order, and the first failure.
pub open spec fn map_merged(s: RunStateView, outcomes: Seq<ItemOutcomeView>, n: int) -> (
    RunStateView,
    Seq<Json>,
    Option<BodyFailView>,
)
    decreases n,
{
    if n <= 0 || n > outcomes.len() {
        (s, Seq::empty(), None)
    } else {
        let before = map_merged(s, outcomes, n - 1);
        match outcomes[n - 1] {
            None => before,
            Some(Ok(run)) => (
                with_body(before.0, run.steps_executed, run.bus),
                before.1.push(run.result),
                before.2,
            ),
            Some(Err(e)) => (
                with_body(before.0, e.steps_executed, e.bus),
                before.1,
                if before.2 is Some {
                    before.2
                } else {
                    Some(e.fail)
                },
            ),
        }
    }
}

/// The result of a map.
pub open spec fn map_json(results: Seq<Json>) -> Json {
    Json::Object(
        object(
            seq![
                ("count"@, Json::Num(Num::Int(results.len() as int))),
                ("results"@, Json::List(results)),
            ],
        ),
    )
}

/// What a map does to the run once its items are done.
pub open spec fn map_settled(s: RunStateView, step: Seq<char>, outcomes: Seq<ItemOutcomeView>) -> (
    RunStateView,
    Result<Json, ExecutionEndView>,
) {
    let merged = map_merged(s, outcomes, outcomes.len() as int);
    match merged.2 {
        Some(fail) => (merged.0, Err(loop_end(fail, step, "map"@))),
        None => (
            with_note(
                merged.0,
                step,
                BusKind::Info,
                "map: "@ + numeral(merged.1.len()) + " items"@,
            ),
            Ok(map_json(merged.1)),
        ),
    }
}

/// How many steps the first `n` outcomes executed.
pub open spec fn executed_in_items(outcomes: Seq<ItemOutcome>, n: int) -> int
    decreases n,
{
    if n <= 0 || n > outcomes.len() {
        0
    } else {
        executed_in_items(outcomes, n - 1) + match outcomes[n - 1] {
            Some(body) => executed_in_body(body),
            None => 0,
        }
    }
}

proof fn lemma_executed_grows(outcomes: Seq<ItemOutcome>, n: int)
    requires
        0 <= n <= outcomes.len(),
    ensures
        executed_in_items(outcomes, n) <= executed_in_items(outcomes, outcomes.len() as int),
    decreases outcomes.len() - n,
{
    if n < outcomes.len() {
        lemma_executed_grows(outcomes, n + 1);
    }
}

/// Ends a map whose items are done, in input order. Items already in flight when
/// one failed have run to completion, and what they did counts.
pub fn settle_map(state: &mut RunState, step: &str, outcomes: Vec<ItemOutcome>) -> (r: Result<
    Data,
    ExecutionEnd,
>)
    requires
        old(state).branch_steps_executed + executed_in_items(
            outcomes@,
            outcomes@.len() as int,
        ) <= usize::MAX,
    ensures
        (final(state)@, run_view(r)) == map_settled(
            old(state)@,
            step@,
            outcomes_view(outcomes@),
        ),
{
    let ghost all = outcomes_view(outcomes@);
    let ghost start = state@;
    let mut results: Vec<Data> = Vec::new();
    let mut failure: Option<BodyFail> = None;
    assert(values_view(results@) =~= Seq::<Json>::empty());
    for outcome in it: outcomes
        invariant
            it.seq() == outcomes@,
            all == outcomes_view(outcomes@),
            (state@, values_view(results@), fail_view(failure)) == map_merged(
                start,
                all,
                it.index() as int,
            ),
            state.branch_steps_executed == start.branch_steps_executed + executed_in_items(
                outcomes@,
                it.index() as int,
            ),
            start.branch_steps_executed + executed_in_items(outcomes@, outcomes@.len() as int)
                <= usize::MAX,
    {
        let ghost i = it.index() as int;
        proof {
            lemma_executed_grows(outcomes@, i + 1);
            assert(all[i] == (match outcome {
                Some(body) => Some(body_result(body)),
                None => None,
            }));
        }
        match outcome {
            Some(Ok(run)) => {
                add_body(state, run.steps_executed, run.bus);
                let ghost before = values_view(results@);
                results.push(run.result);
                assert(values_view(results@) =~= before.push(run.result@));
            },
            Some(Err(e)) => {
                add_body(state, e.steps_executed, e.bus);
                if failure.is_none() {
                    failure = Some(e.fail);
                }
            },
            None => {},
        }
    }
    match failure {
        Some(fail) => Err(end_of_loop(fail, step, "map")),
        None => {
            state.push_bus(
                step,
                BusKind::Info,
                cat3("map: ", decimal_usize(results.len()).as_str(), " items").as_str(),
            );
            let count = Data::count(results.len());
            Ok(obj2("count", count, "results", Data::List(results)))
        },
    }
}

pub open spec fn fail_view(o: Option<BodyFail>) -> Option<BodyFailView> {
    match o {
        Some(f) => Some(f@),
        None => None,
    }
}

/// A fold in progress.
#[derive(Debug)]
pub struct ReduceWork {
    pub items: Vec<Data>,
    /// The body of each item, as it is written.
    pub do_: Data,
    pub accumulator: Data,
    /// How many items are folded in.
    pub at: usize,
}

/// The model of a [`ReduceWork`].
pub struct ReduceWorkView {
    pub items: Seq<Json>,
    pub do_: Json,
    pub accumulator: Json,
    pub at: int,
}

impl ReduceWork {
    pub open spec fn view(&self) -> ReduceWorkView {
        ReduceWorkView {
            items: values_view(self.items@),
            do_: self.do_@,
            accumulator: self.accumulator@,
            at: self.at as int,
        }
    }
}

pub open spec fn reduce_work_view(r: Result<ReduceWork, ExecutionEnd>) -> Result<
    ReduceWorkView,
    ExecutionEndView,
> {
    match r {
        Ok(w) => Ok(w@),
        Err(e) => Err(e@),
    }
}

/// How a fold begins: `over` and `initial` are rendered; the body renders per
/// item.
pub open spec fn reduce_begun(step: Seq<char>, input: Entries, results: Entries) -> Result<
    ReduceWorkView,
    ExecutionEndView,
> {
    match reduce_of(input) {
        Err(e) => Err(
            ExecutionEndView::Failed {
                step,
                tool: "reduce"@,
                message: "invalid reduce step input: "@ + e,
            },
        ),
        Ok(spec) => match rendered_over(spec.over, results, step, "reduce"@) {
            Err(end) => Err(end),
            Ok(items) => match rendered_input(results, spec.initial) {
                Err(e) => Err(render_end(e, step, "reduce"@)),
                Ok(accumulator) => match branch_of("do"@, spec.do_) {
                    Err(message) => Err(
                        ExecutionEndView::Failed { step, tool: "reduce"@, message },
                    ),
                    Ok(_) => Ok(
                        ReduceWorkView { items, do_: spec.do_, accumulator, at: 0 },
                    ),
                },
            },
        },
    }
}

/// Begins a reduce step: renders `over` and `initial`.
pub fn begin_reduce(step: &str, input: &Fields, results: &Fields) -> (r: Result<
    ReduceWork,
    ExecutionEnd,
>)
    ensures
        reduce_work_view(r) == reduce_begun(step@, input@, results@),
        r matches Ok(w) ==> branch_of("do"@, w@.do_) is Ok,
{
    let spec = match ReduceSpec::from_input(input) {
        Ok(spec) => spec,
        Err(e) => {
            return Err(failed(step, "reduce", cat2("invalid reduce step input: ", e.as_str())));
        },
    };
    let items = match render_over(&spec.over, results, step, "reduce") {
        Ok(items) => items,
        Err(end) => {
            return Err(end);
        },
    };
    let accumulator = match render_input(&spec.initial, &Roots::new(results)) {
        Ok(accumulator) => accumulator,
        Err(e) => {
            return Err(end_of_render(&e, step, "reduce"));
        },
    };
    match parse_branch("do", &spec.do_) {
        Ok(_) => Ok(ReduceWork { items, do_: spec.do_, accumulator, at: 0 }),
        Err(message) => Err(failed(step, "reduce", message)),
    }
}

/// The scope of one item of a fold.
pub open spec fn fold_scope(base: Entries, accumulator: Json, item: Json, index: int) -> Entries {
    layered(
        base,
        seq![
            ("accumulator"@, accumulator),
            ("item"@, item),
            ("index"@, Json::Num(Num::Int(index))),
        ],
    )
}

/// What a fold does next: fold in an item, or end.
#[derive(Debug)]
pub enum FoldNext {
    /// Run the body in a scope that carries the accumulator, the item and its
    /// index.
    Item { branch: Branch, scope: Fields },
    /// Every item is folded in.
    Done,
    /// The body does not read.
    Bad(String),
}

/// The model of a [`FoldNext`].
pub enum FoldNextView {
    Item(BranchView, Entries),
    Done,
    Bad(Seq<char>),
}

impl FoldNext {
    pub open spec fn view(&self) -> FoldNextView {
        match self {
            FoldNext::Item { branch, scope } => FoldNextView::Item(branch@, scope@),
            FoldNext::Done => FoldNextView::Done,
            FoldNext::Bad(m) => FoldNextView::Bad(m@),
        }
    }
}

/// What a fold does next.
pub open spec fn fold_next(w: ReduceWorkView, base: Entries) -> FoldNextView {
    if w.at >= w.items.len() {
        FoldNextView::Done
    } else {
        match branch_of("do"@, w.do_) {
            Err(m) => FoldNextView::Bad(m),
            Ok(branch) => FoldNextView::Item(
                branch,
                fold_scope(base, w.accumulator, w.items[w.at], w.at),
            ),
        }
    }
}

/// Decides what a fold does next.
pub fn next_in_fold(w: &ReduceWork, base: &Fields) -> (r: FoldNext)
    ensures
        r@ == fold_next(w@, base@),
{
    if w.at >= w.items.len() {
        return FoldNext::Done;
    }
    match parse_branch("do", &w.do_) {
        Err(m) => FoldNext::Bad(m),
        Ok(branch) => {
            let item = &w.items[w.at];
            assert(w@.items[w.at as int] == item@);
            let extras = vec![
                ("accumulator".to_owned(), w.accumulator.copy()),
                ("item".to_owned(), item.copy()),
                ("index".to_owned(), Data::count(w.at)),
            ];
            assert(extras_view(extras@) =~= seq![
                ("accumulator"@, w.accumulator@),
                ("item"@, item@),
                ("index"@, Json::Num(Num::Int(w.at as int))),
            ]);
            FoldNext::Item { branch, scope: layer(base, extras) }
        },
    }
}

/// What an item's body does to a fold and to the run.
pub open spec fn folded(
    s: RunStateView,
    step: Seq<char>,
    w: ReduceWorkView,
    body: Result<BodyRunView, BodyErrorView>,
) -> (RunStateView, Result<ReduceWorkView, ExecutionEndView>) {
    match body {
        Ok(run) => (
            with_body(s, run.steps_executed, run.bus),
            Ok(ReduceWorkView { accumulator: run.result, at: w.at + 1, ..w }),
        ),
        Err(e) => (
            with_body(s, e.steps_executed, e.bus),
            Err(loop_end(e.fail, step, "reduce"@)),
        ),
    }
}

/// Folds in an item: its body's result is the next accumulator.
pub fn fold_item(
    state: &mut RunState,
    step: &str,
    work: ReduceWork,
    body: Result<BodyRun, BodyError>,
) -> (r: Result<ReduceWork, ExecutionEnd>)
    requires
        work.at < work.items@.len(),
        old(state).branch_steps_executed + executed_in_body(body) <= usize::MAX,
    ensures
        (final(state)@, reduce_work_view(r)) == folded(
            old(state)@,
            step@,
            work@,
            body_result(body),
        ),
{
    match body {
        Ok(run) => {
            add_body(state, run.steps_executed, run.bus);
            let total: usize = work.items.len();
            Ok(
                ReduceWork {
                    items: work.items,
                    do_: work.do_,
                    accumulator: run.result,
                    at: work.at + 1,
                },
            )
        },
        Err(e) => {
            add_body(state, e.steps_executed, e.bus);
            Err(end_of_loop(e.fail, step, "reduce"))
        },
    }
}

/// The result of a fold.
pub open spec fn reduce_json(count: int, accumulator: Json) -> Json {
    Json::Object(
        object(seq![("count"@, Json::Num(Num::Int(count))), ("result"@, accumulator)]),
    )
}

/// What a fold does to the run once every item is folded in.
pub open spec fn reduce_settled(s: RunStateView, step: Seq<char>, w: ReduceWorkView) -> (
    RunStateView,
    Json,
) {
    (
        with_note(
            s,
            step,
            BusKind::Info,
            "reduce: "@ + numeral(w.items.len()) + " items"@,
        ),
        reduce_json(w.items.len() as int, w.accumulator),
    )
}

/// Ends a fold.
pub fn settle_reduce(state: &mut RunState, step: &str, work: ReduceWork) -> (r: Data)
    ensures
        (final(state)@, r@) == reduce_settled(old(state)@, step@, work@),
{
    state.push_bus(
        step,
        BusKind::Info,
        cat3("reduce: ", decimal_usize(work.items.len()).as_str(), " items").as_str(),
    );
    obj2("count", Data::count(work.items.len()), "result", work.accumulator)
}

/// What is reported of a map that begins.
pub open spec fn map_payload(items: int, concurrency: int) -> Json {
    Json::Object(
        object(
            seq![
                ("over"@, Json::Num(Num::Int(items))),
                ("concurrency"@, Json::Num(Num::Int(concurrency))),
            ],
        ),
    )
}

/// What is reported of a map that begins.
pub fn report_map(work: &MapWork) -> (r: Data)
    ensures
        r@ == map_payload(work@.items.len() as int, work@.concurrency),
{
    obj2("over", Data::count(work.items.len()), "concurrency", Data::count(work.concurrency))
}

/// What is reported of a fold that begins.
pub fn report_reduce(work: &ReduceWork) -> (r: Data)
    ensures
        r@ == Json::Object(
            object(seq![("over"@, Json::Num(Num::Int(work@.items.len() as int)))]),
        ),
{
    obj1("over", Data::count(work.items.len()))
}

// ── Laws ─────────────────────────────────────────────────────────────────

/// Whether an outcome is a failure.
pub open spec fn item_failed(o: ItemOutcomeView) -> bool {
    match o {
        Some(Err(_)) => true,
        _ => false,
    }
}

proof fn lemma_no_failure(s: RunStateView, outcomes: Seq<ItemOutcomeView>, n: int)
    requires
        0 <= n <= outcomes.len(),
        forall|i: int| 0 <= i < n ==> !item_failed(#[trigger] outcomes[i]),
    ensures
        map_merged(s, outcomes, n).2 is None,
    decreases n,
{
    if n > 0 {
        assert(!item_failed(outcomes[n - 1]));
        lemma_no_failure(s, outcomes, n - 1);
    }
}

proof fn lemma_failure_stays(s: RunStateView, outcomes: Seq<ItemOutcomeView>, k: int, n: int)
    requires
        0 <= k < n <= outcomes.len(),
        item_failed(outcomes[k]),
        forall|i: int| 0 <= i < k ==> !item_failed(#[trigger] outcomes[i]),
    ensures
        map_merged(s, outcomes, n).2 == Some(outcomes[k]->0->Err_0.fail),
    decreases n,
{
    if n == k + 1 {
        lemma_no_failure(s, outcomes, k);
    } else {
        lemma_failure_stays(s, outcomes, k, n - 1);
    }
}

/// A map fails with the failure of its lowest item, whichever item failed
/// first in time.
pub proof fn a_map_reports_the_lowest_failure(
    s: RunStateView,
    step: Seq<char>,
    outcomes: Seq<ItemOutcomeView>,
    k: int,
)
    requires
        0 <= k < outcomes.len(),
        item_failed(outcomes[k]),
        forall|i: int| 0 <= i < k ==> !item_failed(#[trigger] outcomes[i]),
    ensures
        map_settled(s, step, outcomes).1 == Err::<Json, ExecutionEndView>(
            loop_end(outcomes[k]->0->Err_0.fail, step, "map"@),
        ),
{
    lemma_failure_stays(s, outcomes, k, outcomes.len() as int);
}

proof fn lemma_results_in_order(s: RunStateView, outcomes: Seq<ItemOutcomeView>, n: int)
    requires
        0 <= n <= outcomes.len(),
        forall|i: int| 0 <= i < n ==> (#[trigger] outcomes[i] matches Some(Ok(_))),
    ensures
        map_merged(s, outcomes, n).1 == Seq::new(n as nat, |i: int| outcomes[i]->0->Ok_0.result),
        map_merged(s, outcomes, n).2 is None,
    decreases n,
{
    if n > 0 {
        assert(outcomes[n - 1] matches Some(Ok(_)));
        lemma_results_in_order(s, outcomes, n - 1);
        assert(map_merged(s, outcomes, n).1 =~= Seq::new(
            n as nat,
            |i: int| outcomes[i]->0->Ok_0.result,
        ));
    } else {
        assert(map_merged(s, outcomes, n).1 =~= Seq::new(
            n as nat,
            |i: int| outcomes[i]->0->Ok_0.result,
        ));
    }
}

/// A map whose items all succeed gives their results in input order, one for each
/// item.
pub proof fn a_map_keeps_the_order_of_its_items(
    s: RunStateView,
    step: Seq<char>,
    outcomes: Seq<ItemOutcomeView>,
)
    requires
        forall|i: int| 0 <= i < outcomes.len() ==> (#[trigger] outcomes[i] matches Some(Ok(_))),
    ensures
        map_settled(s, step, outcomes).1 == Ok::<Json, ExecutionEndView>(
            map_json(Seq::new(outcomes.len(), |i: int| outcomes[i]->0->Ok_0.result)),
        ),
{
    lemma_results_in_order(s, outcomes, outcomes.len() as int);
}

/// How many steps the first `n` outcomes executed.
pub open spec fn steps_of_items(outcomes: Seq<ItemOutcomeView>, n: int) -> int
    decreases n,
{
    if n <= 0 || n > outcomes.len() {
        0
    } else {
        steps_of_items(outcomes, n - 1) + match outcomes[n - 1] {
            None => 0,
            Some(Ok(run)) => run.steps_executed,
            Some(Err(e)) => e.steps_executed,
        }
    }
}

/// What the bodies of the first `n` items noted, in input order.
pub open spec fn notes_of_items(outcomes: Seq<ItemOutcomeView>, n: int) -> Seq<BusEntryView>
    decreases n,
{
    if n <= 0 || n > outcomes.len() {
        Seq::empty()
    } else {
        notes_of_items(outcomes, n - 1) + match outcomes[n - 1] {
            None => Seq::empty(),
            Some(Ok(run)) => run.bus,
            Some(Err(e)) => e.bus,
        }
    }
}

proof fn lemma_merged(s: RunStateView, outcomes: Seq<ItemOutcomeView>, n: int)
    requires
        0 <= n <= outcomes.len(),
    ensures
        map_merged(s, outcomes, n).0 == (RunStateView {
            branch_steps_executed: s.branch_steps_executed + steps_of_items(outcomes, n),
            bus: s.bus + notes_of_items(outcomes, n),
            ..s
        }),
    decreases n,
{
    if n > 0 {
        lemma_merged(s, outcomes, n - 1);
        let noted = match outcomes[n - 1] {
            None => Seq::empty(),
            Some(Ok(run)) => run.bus,
            Some(Err(e)) => e.bus,
        };
        assert(s.bus + notes_of_items(outcomes, n) =~= s.bus + notes_of_items(outcomes, n - 1)
            + noted);
    }
    assert(map_merged(s, outcomes, n).0.bus =~= s.bus + notes_of_items(outcomes, n));
}

/// A map adds to a run what its bodies executed and noted, in input order, and
/// nothing else: no result of a body's step reaches the plan's results.
pub proof fn a_map_leaves_the_results_alone(
    s: RunStateView,
    step: Seq<char>,
    outcomes: Seq<ItemOutcomeView>,
)
    ensures
        ({
            let n = outcomes.len() as int;
            let after = map_settled(s, step, outcomes);
            let noted = s.bus + notes_of_items(outcomes, n);
            after.0 == (RunStateView {
                branch_steps_executed: s.branch_steps_executed + steps_of_items(outcomes, n),
                bus: match after.1 {
                    Ok(_) => noted.push(
                        BusEntryView {
                            source: step,
                            kind: BusKind::Info,
                            content: "map: "@ + numeral(map_merged(s, outcomes, n).1.len())
                                + " items"@,
                        },
                    ),
                    Err(_) => noted,
                },
                ..s
            })
        }),
{
    lemma_merged(s, outcomes, outcomes.len() as int);
}

/// How many items of a map may be in flight decides neither which items there are
/// nor what is run for them, nor how the map fails to begin.
pub proof fn a_map_is_the_same_at_every_concurrency(
    step: Seq<char>,
    one: Entries,
    other: Entries,
    results: Entries,
)
    requires
        map_of(one) matches Ok(a) && map_of(other) matches Ok(b) && a.over == b.over && a.do_
            == b.do_,
    ensures
        match (map_begun(step, one, results), map_begun(step, other, results)) {
            (Ok(a), Ok(b)) => a.items == b.items && a.branch == b.branch,
            (Err(a), Err(b)) => a == b,
            _ => false,
        },
{
}

/// The items of a map do not see each other: what an item's body can read is its
/// item, its index and what the plan's results hold under any other name.
pub proof fn an_item_sees_only_itself(base: Entries, item: Json, index: int, key: Seq<char>)
    ensures
        lookup(map_scope(base, item, index), key) == (if key == "index"@ {
            Some(Json::Num(Num::Int(index)))
        } else if key == "item"@ {
            Some(item)
        } else {
            lookup(base, key)
        }),
{
    let extras = seq![("item"@, item), ("index"@, Json::Num(Num::Int(index)))];
    let one = extras.drop_last();
    reveal_with_fuel(layered, 3);
    assert(one.drop_last() =~= Seq::empty());
    assert(one.last() == ("item"@, item));
    a_set_key_reads_back(base, "item"@, item, key);
    a_set_key_reads_back(put(base, "item"@, item), "index"@, Json::Num(Num::Int(index)), key);
}

/// A fold is a left fold: each item's body sees the result of the body before
/// it as the accumulator.
pub proof fn a_fold_threads_its_accumulator(
    s: RunStateView,
    step: Seq<char>,
    w: ReduceWorkView,
    run: BodyRunView,
    base: Entries,
)
    requires
        0 <= w.at,
        w.at + 1 < w.items.len(),
        branch_of("do"@, w.do_) is Ok,
    ensures
        folded(s, step, w, Ok(run)).1 matches Ok(next) && fold_next(next, base)
            == FoldNextView::Item(
            branch_of("do"@, w.do_)->Ok_0,
            fold_scope(base, run.result, w.items[w.at + 1], w.at + 1),
        ),
{
}

} // verus!
