//! The `filter` selection step: partition a list with a per-item gate, a
//! logical condition (`where`) or an inferred verdict (`infer`), the same gate
//! grammar `exit` and `decide` use, evaluated once per item with
//! `item`/`index` pseudo-roots in scope. Never dispatched to a tool registry,
//! and never consulted with the execution gate: selection makes no tool call.
//! That is also why, unlike its siblings, `filter` may nest inside
//! `decide`/`map`/`reduce` bodies; inside a body its `where`/`infer` see their
//! own `item`/`index`, shadowing the enclosing body's. Both halves of the
//! partition are returned (`items` and `dropped`): selection narrows what runs
//! next, never what is known.

use crate::pipeline::condition::{
    condition_of, condition_result, eval_condition, judged, settle_gate, verdict_view, Condition,
    Verdict, VerdictView,
};
use crate::pipeline::engine::{run_view, with_note, ExecutionEnd, ExecutionEndView};
use crate::pipeline::iterate::{kind_name, map_scope, not_a_list, scope_of_item};
use crate::pipeline::record::{
    check_record, data_view, get_opt_text, get_opt_value, get_size, get_value, int_at,
    lemma_field_fits, opt_text_at, opt_value_at, record_problem, rule_for, rules_of, text_view,
    value_at, Record,
};
use crate::pipeline::references::{
    check_templates, joined_names, named, names, template_problems, template_roots, value_roots,
};
use crate::pipeline::run_body::{
    classify, end_of_fail, fail_end, render_fail, StepFail, StepFailView,
};
use crate::pipeline::state::{BusKind, RunState, RunStateView};
use crate::template::render::{rendered_input, rendered_text};
use crate::template::{
    render_input, render_message, render_str, RenderError, RenderErrorView, Roots,
};
use crate::text::{
    cat2, cat3, cat4, cat5, decimal_usize, lists, numeral, push_text, texts,
};
use crate::value::{
    obj3, obj4, object, values_view, Data, Entries, Fields, Json, Num,
};
use vstd::prelude::*;

verus! {

/// The filter step's input, parsed from the raw (unrendered) step input: the
/// gate stays a plain value so it can render per item, against a scope that
/// carries that item.
#[derive(Debug)]
pub struct FilterSpec {
    /// The list to partition: usually a template (typed splice keeps it an
    /// array), sometimes a literal array.
    pub over: Data,
    /// Logical per-item gate. Exactly one of `where`/`infer` is required.
    pub where_: Option<Data>,
    /// Inferred per-item gate: a yes/no question about `{{item}}`, answered by
    /// the `judge` model role, one verdict per item.
    pub infer: Option<String>,
    /// Model for `infer` verdicts: a role name, `default`, or a named model.
    /// Defaults to the `judge` role. Ignored without `infer`.
    pub model: Option<String>,
    /// Maximum `infer` verdicts in flight; 1 (the default) evaluates
    /// sequentially. Irrelevant for `where`, which is pure computation.
    pub concurrency: usize,
}

/// The model of a [`FilterSpec`].
pub struct FilterSpecView {
    pub over: Json,
    pub where_: Option<Json>,
    pub infer: Option<Seq<char>>,
    pub model: Option<Seq<char>>,
    pub concurrency: int,
}

impl FilterSpec {
    pub open spec fn view(&self) -> FilterSpecView {
        FilterSpecView {
            over: self.over@,
            where_: data_view(self.where_),
            infer: text_view(self.infer),
            model: text_view(self.model),
            concurrency: self.concurrency as int,
        }
    }
}

/// The filter that an input is read as, or why it is none.
pub open spec fn filter_of(input: Entries) -> Result<FilterSpecView, Seq<char>> {
    match record_problem(input, Record::Filter) {
        Some(problem) => Err(problem),
        None => Ok(
            FilterSpecView {
                over: value_at(input, "over"@, "over"@),
                where_: opt_value_at(input, "where"@),
                infer: opt_text_at(input, "infer"@, "infer"@),
                model: opt_text_at(input, "model"@, "model"@),
                concurrency: int_at(input, "concurrency"@, "concurrency"@, 1),
            },
        ),
    }
}

/// Where the concurrency stands among a filter's fields.
proof fn lemma_concurrency_rule()
    ensures
        rule_for(rules_of(Record::Filter), "concurrency"@, 0) == Some(4int),
{
    reveal_strlit("over");
    reveal_strlit("where");
    reveal_strlit("infer");
    reveal_strlit("model");
    reveal_strlit("concurrency");
    let rules = rules_of(Record::Filter);
    let key = "concurrency"@;
    assert(rules[0].name.len() != key.len());
    assert(rules[1].name.len() != key.len());
    assert(rules[2].name.len() != key.len());
    assert(rules[3].name.len() != key.len());
    reveal_with_fuel(rule_for, 6);
}

impl FilterSpec {
    /// Reads a filter step's input.
    pub fn from_input(input: &Fields) -> (r: Result<FilterSpec, String>)
        ensures
            match r {
                Ok(spec) => filter_of(input@) == Ok::<FilterSpecView, Seq<char>>(spec@),
                Err(e) => filter_of(input@) == Err::<FilterSpecView, Seq<char>>(e@),
            },
    {
        match check_record(input, Record::Filter) {
            Some(problem) => Err(problem),
            None => {
                proof {
                    lemma_concurrency_rule();
                    lemma_field_fits(input@, Record::Filter, "concurrency"@);
                }
                Ok(
                    FilterSpec {
                        over: get_value(input, "over", "over"),
                        where_: get_opt_value(input, "where"),
                        infer: get_opt_text(input, "infer", "infer"),
                        model: get_opt_text(input, "model", "model"),
                        concurrency: get_size(input, "concurrency", "concurrency", 1),
                    },
                )
            },
        }
    }
}

/// Names with one more, unless it is among them.
pub open spec fn with_name(seen: Seq<Seq<char>>, name: Seq<char>) -> Seq<Seq<char>> {
    if seen.contains(name) {
        seen
    } else {
        seen.push(name)
    }
}

/// What a filter's gate may refer to.
pub open spec fn gate_names(seen: Seq<Seq<char>>) -> Seq<Seq<char>> {
    with_name(with_name(seen, "item"@), "index"@)
}

/// The problem with a filter that has both gates or none.
pub open spec fn filter_arity_problems(spec: FilterSpecView, step: Seq<char>) -> Seq<Seq<char>> {
    if spec.where_ is Some && spec.infer is Some {
        seq!["step "@ + step + ": `where` and `infer` are mutually exclusive"@]
    } else if spec.where_ is None && spec.infer is None {
        seq![
            "step "@ + step
                + ": filter needs `where` or `infer` — an ungated filter keeps everything"@,
        ]
    } else {
        Seq::empty()
    }
}

/// The problem with a concurrency of zero.
pub open spec fn concurrency_problems(concurrency: int, step: Seq<char>) -> Seq<Seq<char>> {
    if concurrency == 0 {
        seq!["step "@ + step + ": `concurrency` must be at least 1"@]
    } else {
        Seq::empty()
    }
}

/// The template problems of a value that may be absent.
pub open spec fn opt_template_problems(
    v: Option<Json>,
    available: Seq<Seq<char>>,
    step: Seq<char>,
) -> Seq<Seq<char>> {
    match v {
        Some(v) => template_problems(v, available, step),
        None => Seq::empty(),
    }
}

/// The template problems of a text that may be absent.
pub open spec fn opt_text_problems(
    v: Option<Seq<char>>,
    available: Seq<Seq<char>>,
    step: Seq<char>,
) -> Seq<Seq<char>> {
    match v {
        Some(s) => template_problems(Json::Text(s), available, step),
        None => Seq::empty(),
    }
}

/// The problem with a per-item root in the list that makes the items.
pub open spec fn early_root_problems(
    over: Json,
    pseudo: Seq<char>,
    seen: Seq<Seq<char>>,
    step: Seq<char>,
) -> Seq<Seq<char>> {
    if !seen.contains(pseudo) && value_roots(over).contains(pseudo) {
        seq![
            "step "@ + step + ": `{{"@ + pseudo + "}}` is only available inside `where`/`infer`"@,
        ]
    } else {
        Seq::empty()
    }
}

/// Everything wrong with a filter step's input, as far as it shows without
/// running.
pub open spec fn filter_problems(
    input: Entries,
    seen: Seq<Seq<char>>,
    step: Seq<char>,
) -> Seq<Seq<char>> {
    match filter_of(input) {
        Err(e) => seq!["step "@ + step + ": invalid filter input: "@ + e],
        Ok(spec) => filter_arity_problems(spec, step) + concurrency_problems(
            spec.concurrency,
            step,
        ) + opt_template_problems(spec.where_, gate_names(seen), step) + opt_text_problems(
            spec.infer,
            gate_names(seen),
            step,
        ) + opt_text_problems(spec.model, seen, step) + template_problems(
            spec.over,
            gate_names(seen),
            step,
        ) + early_root_problems(spec.over, "item"@, seen, step) + early_root_problems(
            spec.over,
            "index"@,
            seen,
            step,
        ),
    }
}

/// Checks the templates of a value that may be absent.
pub fn check_opt_templates(
    v: &Option<Data>,
    available: &[&str],
    step_id: &str,
    problems: &mut Vec<String>,
)
    ensures
        texts(final(problems)@) == texts(old(problems)@) + opt_template_problems(
            data_view(*v),
            names(available@),
            step_id@,
        ),
{
    match v {
        Some(v) => check_templates(v, available, step_id, problems),
        None => {
            proof {
                crate::seqs::append_nothing(texts(problems@));
            }
        },
    }
}

/// Checks the templates of a text.
pub fn check_text_templates(
    s: &str,
    available: &[&str],
    step_id: &str,
    problems: &mut Vec<String>,
)
    ensures
        texts(final(problems)@) == texts(old(problems)@) + template_problems(
            Json::Text(s@),
            names(available@),
            step_id@,
        ),
{
    check_templates(&Data::text(s), available, step_id, problems)
}

/// Checks the templates of a text that may be absent.
pub fn check_opt_text(
    v: &Option<String>,
    available: &[&str],
    step_id: &str,
    problems: &mut Vec<String>,
)
    ensures
        texts(final(problems)@) == texts(old(problems)@) + opt_text_problems(
            text_view(*v),
            names(available@),
            step_id@,
        ),
{
    match v {
        Some(s) => check_text_templates(s.as_str(), available, step_id, problems),
        None => {
            proof {
                crate::seqs::append_nothing(texts(problems@));
            }
        },
    }
}

/// Checks that a concurrency is not zero.
pub fn check_concurrency(concurrency: usize, step_id: &str, problems: &mut Vec<String>)
    ensures
        texts(final(problems)@) == texts(old(problems)@) + concurrency_problems(
            concurrency as int,
            step_id@,
        ),
{
    if concurrency == 0 {
        push_text(problems, cat3("step ", step_id, ": `concurrency` must be at least 1"));
    } else {
        proof {
            crate::seqs::append_nothing(texts(problems@));
        }
    }
}

fn check_early_root(
    over: &Data,
    pseudo: &str,
    seen: &[&str],
    step_id: &str,
    problems: &mut Vec<String>,
)
    ensures
        texts(final(problems)@) == texts(old(problems)@) + early_root_problems(
            over@,
            pseudo@,
            names(seen@),
            step_id@,
        ),
{
    if !named(seen, pseudo) && lists(&template_roots(over), pseudo) {
        push_text(
            problems,
            cat5(
                "step ",
                step_id,
                ": `{{",
                pseudo,
                "}}` is only available inside `where`/`infer`",
            ),
        );
    } else {
        proof {
            crate::seqs::append_nothing(texts(problems@));
        }
    }
}

fn check_filter_arity(spec: &FilterSpec, step_id: &str, problems: &mut Vec<String>)
    ensures
        texts(final(problems)@) == texts(old(problems)@) + filter_arity_problems(
            spec@,
            step_id@,
        ),
{
    match (&spec.where_, &spec.infer) {
        (Some(_), Some(_)) => push_text(
            problems,
            cat3("step ", step_id, ": `where` and `infer` are mutually exclusive"),
        ),
        (None, None) => push_text(
            problems,
            cat3(
                "step ",
                step_id,
                ": filter needs `where` or `infer` — an ungated filter keeps everything",
            ),
        ),
        _ => {
            proof {
                crate::seqs::append_nothing(texts(problems@));
            }
        },
    }
}

/// Adds a name to a list, unless it is in it.
fn add_name<'a>(list: &mut Vec<&'a str>, name: &'a str)
    ensures
        names(final(list)@) == with_name(names(old(list)@), name@),
{
    let ghost before = list@;
    if !named(list.as_slice(), name) {
        list.push(name);
        assert(names(list@) =~= names(before).push(name@));
    }
}

/// Static validation of a filter step's raw input: spec shape, gate arity,
/// template reference ordering, and pseudo-root placement. `seen` is the ids
/// available where the step sits; for a filter nested in a `map`/`reduce` body
/// that already includes the body's own pseudo-roots, which is what
/// legitimizes `over: {{item.children}}` there.
pub fn validate_filter_input(
    input: &Fields,
    seen: &[&str],
    step_id: &str,
    problems: &mut Vec<String>,
)
    ensures
        texts(final(problems)@) == texts(old(problems)@) + filter_problems(
            input@,
            names(seen@),
            step_id@,
        ),
{
    broadcast use crate::seqs::append_append;

    let spec = match FilterSpec::from_input(input) {
        Ok(spec) => spec,
        Err(e) => {
            push_text(problems, cat4("step ", step_id, ": invalid filter input: ", e.as_str()));
            return;
        },
    };
    check_filter_arity(&spec, step_id, problems);
    check_concurrency(spec.concurrency, step_id, problems);

    // A gate sees this step's own `item`/`index` on top of the ambient scope
    // (shadowing an enclosing body's, when nested).
    let mut gate_avail = joined_names(seen, &[]);
    assert(names(gate_avail@) =~= names(seen@));
    add_name(&mut gate_avail, "item");
    add_name(&mut gate_avail, "index");
    check_opt_templates(&spec.where_, gate_avail.as_slice(), step_id, problems);
    check_opt_text(&spec.infer, gate_avail.as_slice(), step_id, problems);
    check_opt_text(&spec.model, seen, step_id, problems);

    // `over` renders before any item exists. It is walked with a gate's
    // names so the pointed message is the only one about this step's own
    // pseudo-roots, and only where the ambient scope does not provide them.
    check_templates(&spec.over, gate_avail.as_slice(), step_id, problems);
    check_early_root(&spec.over, "item", seen, step_id, problems);
    check_early_root(&spec.over, "index", seen, step_id, problems);
}

// ── Running ──────────────────────────────────────────────────────────────

/// A filter's gate, before it is rendered for an item.
#[derive(Debug)]
pub enum ItemGate {
    Where(Data),
    Infer(String),
}

/// The model of an [`ItemGate`].
pub enum ItemGateView {
    Where(Json),
    Infer(Seq<char>),
}

impl ItemGate {
    pub open spec fn view(&self) -> ItemGateView {
        match self {
            ItemGate::Where(v) => ItemGateView::Where(v@),
            ItemGate::Infer(s) => ItemGateView::Infer(s@),
        }
    }
}

/// A filter whose list was rendered.
#[derive(Debug)]
pub struct FilterWork {
    pub items: Vec<Data>,
    pub gate: ItemGate,
    pub model: Option<String>,
    /// How many verdicts may be in flight; at least one.
    pub concurrency: usize,
}

/// The model of a [`FilterWork`].
pub struct FilterWorkView {
    pub items: Seq<Json>,
    pub gate: ItemGateView,
    pub model: Option<Seq<char>>,
    pub concurrency: int,
}

impl FilterWork {
    pub open spec fn view(&self) -> FilterWorkView {
        FilterWorkView {
            items: values_view(self.items@),
            gate: self.gate@,
            model: text_view(self.model),
            concurrency: self.concurrency as int,
        }
    }
}

pub open spec fn filter_work_view(r: Result<FilterWork, StepFail>) -> Result<
    FilterWorkView,
    StepFailView,
> {
    match r {
        Ok(w) => Ok(w@),
        Err(e) => Err(e@),
    }
}

/// A gate of a filter; exactly one is needed.
pub open spec fn gate_of(spec: FilterSpecView) -> Result<ItemGateView, Seq<char>> {
    match (spec.where_, spec.infer) {
        (Some(_), Some(_)) => Err("`where` and `infer` are mutually exclusive"@),
        (None, None) => Err("filter needs `where` or `infer`"@),
        (Some(raw), None) => Ok(ItemGateView::Where(raw)),
        (None, Some(question)) => Ok(ItemGateView::Infer(question)),
    }
}

/// How a filter begins in a scope: only `over` and `model` are rendered; the
/// gate renders per item.
pub open spec fn filter_begun(
    input: Entries,
    scope: Entries,
) -> Result<FilterWorkView, StepFailView> {
    match filter_of(input) {
        Err(e) => Err(StepFailView::Failed("invalid filter input: "@ + e)),
        Ok(spec) => match gate_of(spec) {
            Err(m) => Err(StepFailView::Failed(m)),
            Ok(gate) => match rendered_input(scope, spec.over) {
                Err(e) => Err(render_fail(e)),
                Ok(Json::List(items)) => match spec.model {
                    None => Ok(
                        FilterWorkView {
                            items,
                            gate,
                            model: None,
                            concurrency: at_least_one(spec.concurrency),
                        },
                    ),
                    Some(m) => match rendered_text(scope, m) {
                        Err(e) => Err(render_fail(e)),
                        Ok(model) => Ok(
                            FilterWorkView {
                                items,
                                gate,
                                model: Some(model),
                                concurrency: at_least_one(spec.concurrency),
                            },
                        ),
                    },
                },
                Ok(other) => Err(StepFailView::Failed(not_a_list(other))),
            },
        },
    }
}

pub open spec fn at_least_one(n: int) -> int {
    if n >= 1 {
        n
    } else {
        1
    }
}

/// Begins a filter in a scope, so it works identically at the top level and
/// inside a body.
pub fn begin_filter(input: &Fields, scope: &Fields) -> (r: Result<FilterWork, StepFail>)
    ensures
        filter_work_view(r) == filter_begun(input@, scope@),
{
    let spec = match FilterSpec::from_input(input) {
        Ok(spec) => spec,
        Err(e) => {
            return Err(StepFail::Failed(cat2("invalid filter input: ", e.as_str())));
        },
    };
    // Validation catches these, but an unvalidated plan can reach the executor.
    let gate = match (spec.where_, spec.infer) {
        (Some(_), Some(_)) => {
            return Err(
                StepFail::Failed("`where` and `infer` are mutually exclusive".to_owned()),
            );
        },
        (None, None) => {
            return Err(StepFail::Failed("filter needs `where` or `infer`".to_owned()));
        },
        (Some(raw), None) => ItemGate::Where(raw),
        (None, Some(question)) => ItemGate::Infer(question),
    };
    let items = match render_input(&spec.over, &Roots::new(scope)) {
        Err(e) => {
            return Err(classify(e));
        },
        Ok(Data::List(items)) => items,
        Ok(other) => {
            return Err(
                StepFail::Failed(
                    cat2("`over` must produce an array, got ", kind_name(&other)),
                ),
            );
        },
    };
    let model = match &spec.model {
        None => None,
        Some(m) => match render_str(m.as_str(), &Roots::new(scope)) {
            Err(e) => {
                return Err(classify(e));
            },
            Ok(model) => Some(model),
        },
    };
    let concurrency: usize = if spec.concurrency >= 1 {
        spec.concurrency
    } else {
        1
    };
    Ok(FilterWork { items, gate, model, concurrency })
}

/// What is reported of a filter that begins.
pub open spec fn filter_payload(w: FilterWorkView) -> Json {
    Json::Object(
        object(
            seq![
                ("over"@, Json::Num(Num::Int(w.items.len() as int))),
                (
                    "mode"@,
                    Json::Text(
                        match w.gate {
                            ItemGateView::Where(_) => "where"@,
                            ItemGateView::Infer(_) => "infer"@,
                        },
                    ),
                ),
                ("concurrency"@, Json::Num(Num::Int(w.concurrency))),
            ],
        ),
    )
}

/// What is reported of a filter that begins.
pub fn report_filter(work: &FilterWork) -> (r: Data)
    ensures
        r@ == filter_payload(work@),
{
    let mode = match &work.gate {
        ItemGate::Where(_) => "where",
        ItemGate::Infer(_) => "infer",
    };
    obj3(
        "over",
        Data::count(work.items.len()),
        "mode",
        Data::text(mode),
        "concurrency",
        Data::count(work.concurrency),
    )
}

/// How an item's verdict goes on: decided, or with a question to the judge.
#[derive(Debug)]
pub enum VerdictStep {
    Decided(Result<bool, StepFail>),
    Judge { question: String },
}

/// The model of a [`VerdictStep`].
pub enum VerdictStepView {
    Decided(Result<bool, StepFailView>),
    Judge(Seq<char>),
}

pub open spec fn keep_view(r: Result<bool, StepFail>) -> Result<bool, StepFailView> {
    match r {
        Ok(b) => Ok(b),
        Err(e) => Err(e@),
    }
}

impl VerdictStep {
    pub open spec fn view(&self) -> VerdictStepView {
        match self {
            VerdictStep::Decided(r) => VerdictStepView::Decided(keep_view(*r)),
            VerdictStep::Judge { question } => VerdictStepView::Judge(question@),
        }
    }
}

/// The failure of an item whose gate does not render.
pub open spec fn item_render_fail(
    e: RenderErrorView,
    field: Seq<char>,
    index: int,
) -> StepFailView {
    match e {
        RenderErrorView::EmptyData { .. } => StepFailView::Empty(e),
        _ => StepFailView::Failed(
            "`"@ + field + "` item "@ + numeral(index as nat) + ": "@ + render_message(e),
        ),
    }
}

/// How an item's verdict goes on in the item's scope: locally for `where`, by
/// the judge for `infer`.
pub open spec fn item_verdict(gate: ItemGateView, scope: Entries, index: int) -> VerdictStepView {
    match gate {
        ItemGateView::Where(raw) => VerdictStepView::Decided(
            match rendered_input(scope, raw) {
                Err(e) => Err(item_render_fail(e, "where"@, index)),
                Ok(rendered) => match condition_of(rendered) {
                    Err(e) => Err(
                        StepFailView::Failed(
                            "item "@ + numeral(index as nat) + ": invalid filter condition: "@ + e,
                        ),
                    ),
                    Ok(condition) => match condition_result(condition) {
                        Ok(holds) => Ok(holds),
                        Err(e) => Err(
                            StepFailView::Failed("item "@ + numeral(index as nat) + ": "@ + e),
                        ),
                    },
                },
            },
        ),
        ItemGateView::Infer(question) => match rendered_text(scope, question) {
            Err(e) => VerdictStepView::Decided(Err(item_render_fail(e, "infer"@, index))),
            Ok(rendered) => VerdictStepView::Judge(rendered),
        },
    }
}

fn classify_item(e: RenderError, field: &str, index: usize) -> (r: StepFail)
    ensures
        r@ == item_render_fail(e@, field@, index as int),
{
    match e {
        RenderError::EmptyData { .. } => StepFail::Empty(e),
        _ => StepFail::Failed(
            crate::text::cat6(
                "`",
                field,
                "` item ",
                decimal_usize(index).as_str(),
                ": ",
                e.message().as_str(),
            ),
        ),
    }
}

/// Evaluates an item's gate in a filter's scope, as far as it goes without a
/// judge. The item and its index are layered over the scope, shadowing an
/// enclosing body's.
pub fn judge_item(gate: &ItemGate, scope: &Fields, item: &Data, index: usize) -> (r: VerdictStep)
    ensures
        r@ == item_verdict(gate@, map_scope(scope@, item@, index as int), index as int),
{
    let layered = scope_of_item(scope, item, index);
    match gate {
        ItemGate::Where(raw) => {
            let rendered = match render_input(raw, &Roots::new(&layered)) {
                Ok(rendered) => rendered,
                Err(e) => {
                    return VerdictStep::Decided(Err(classify_item(e, "where", index)));
                },
            };
            let condition = match Condition::from_value(&rendered) {
                Ok(condition) => condition,
                Err(e) => {
                    return VerdictStep::Decided(
                        Err(
                            StepFail::Failed(
                                cat4(
                                    "item ",
                                    decimal_usize(index).as_str(),
                                    ": invalid filter condition: ",
                                    e.as_str(),
                                ),
                            ),
                        ),
                    );
                },
            };
            match eval_condition(&condition) {
                Ok(holds) => VerdictStep::Decided(Ok(holds)),
                Err(e) => VerdictStep::Decided(
                    Err(
                        StepFail::Failed(
                            cat4("item ", decimal_usize(index).as_str(), ": ", e.as_str()),
                        ),
                    ),
                ),
            }
        },
        ItemGate::Infer(question) => match render_str(question.as_str(), &Roots::new(&layered)) {
            Err(e) => VerdictStep::Decided(Err(classify_item(e, "infer", index))),
            Ok(question) => VerdictStep::Judge { question },
        },
    }
}

/// An item's verdict by the judge's answer.
pub open spec fn item_judged(index: int, answer: Result<VerdictView, Seq<char>>) -> Result<
    bool,
    StepFailView,
> {
    match judged(answer) {
        Ok((holds, _)) => Ok(holds),
        Err(e) => Err(StepFailView::Failed("item "@ + numeral(index as nat) + ": "@ + e)),
    }
}

/// Decides an item by the judge's answer.
pub fn settle_item(index: usize, answer: Result<Verdict, String>) -> (r: Result<bool, StepFail>)
    ensures
        keep_view(r) == item_judged(index as int, verdict_view(answer)),
{
    match settle_gate(answer) {
        Ok((holds, _)) => Ok(holds),
        Err(e) => Err(
            StepFail::Failed(cat4("item ", decimal_usize(index).as_str(), ": ", e.as_str())),
        ),
    }
}

/// What became of an item: nothing where it was not judged after a failure.
pub type Kept = Option<Result<bool, StepFail>>;

pub open spec fn kept_view(s: Seq<Kept>) -> Seq<Option<Result<bool, StepFailView>>> {
    Seq::new(
        s.len(),
        |i: int|
            match s[i] {
                Some(r) => Some(keep_view(r)),
                None => None,
            },
    )
}

/// The first `n` items that a filter keeps, or those it drops, in input order.
pub open spec fn partition(
    items: Seq<Json>,
    verdicts: Seq<Option<Result<bool, StepFailView>>>,
    keep: bool,
    n: int,
) -> Seq<Json>
    decreases n,
{
    if n <= 0 || n > items.len() || n > verdicts.len() {
        Seq::empty()
    } else {
        let before = partition(items, verdicts, keep, n - 1);
        if verdicts[n - 1] == Some(Ok::<bool, StepFailView>(keep)) {
            before.push(items[n - 1])
        } else {
            before
        }
    }
}

/// The failure of the lowest item among the first `n`.
pub open spec fn first_failure(verdicts: Seq<Option<Result<bool, StepFailView>>>, n: int) -> Option<
    StepFailView,
>
    decreases n,
{
    if n <= 0 || n > verdicts.len() {
        None
    } else {
        match first_failure(verdicts, n - 1) {
            Some(e) => Some(e),
            None => match verdicts[n - 1] {
                Some(Err(e)) => Some(e),
                _ => None,
            },
        }
    }
}

/// The result of a filter: both halves of the partition.
pub open spec fn filter_json(kept: Seq<Json>, dropped: Seq<Json>) -> Json {
    Json::Object(
        object(
            seq![
                ("items"@, Json::List(kept)),
                ("count"@, Json::Num(Num::Int(kept.len() as int))),
                ("dropped"@, Json::List(dropped)),
                ("dropped_count"@, Json::Num(Num::Int(dropped.len() as int))),
            ],
        ),
    )
}

/// A finished filter: what it keeps and what it drops.
#[derive(Debug)]
pub struct Partition {
    pub kept: Vec<Data>,
    pub dropped: Vec<Data>,
}

/// The model of a [`Partition`].
pub struct PartitionView {
    pub kept: Seq<Json>,
    pub dropped: Seq<Json>,
}

impl Partition {
    pub open spec fn view(&self) -> PartitionView {
        PartitionView { kept: values_view(self.kept@), dropped: values_view(self.dropped@) }
    }

    /// The result of the filter.
    pub fn to_value(self) -> (r: Data)
        ensures
            r@ == filter_json(self@.kept, self@.dropped),
    {
        let count = Data::count(self.kept.len());
        let dropped_count = Data::count(self.dropped.len());
        obj4(
            "items",
            Data::List(self.kept),
            "count",
            count,
            "dropped",
            Data::List(self.dropped),
            "dropped_count",
            dropped_count,
        )
    }
}

pub open spec fn partition_view(r: Result<Partition, StepFail>) -> Result<
    PartitionView,
    StepFailView,
> {
    match r {
        Ok(p) => Ok(p@),
        Err(e) => Err(e@),
    }
}

/// What a filter comes to once its items are judged.
pub open spec fn filter_settled(
    items: Seq<Json>,
    verdicts: Seq<Option<Result<bool, StepFailView>>>,
) -> Result<PartitionView, StepFailView> {
    match first_failure(verdicts, items.len() as int) {
        Some(e) => Err(e),
        None => Ok(
            PartitionView {
                kept: partition(items, verdicts, true, items.len() as int),
                dropped: partition(items, verdicts, false, items.len() as int),
            },
        ),
    }
}

pub open spec fn first_fail_view(o: Option<StepFail>) -> Option<StepFailView> {
    match o {
        Some(f) => Some(f@),
        None => None,
    }
}

/// Partitions the items by their verdicts, which stand in input order.
pub fn settle_filter(items: Vec<Data>, verdicts: Vec<Kept>) -> (r: Result<Partition, StepFail>)
    requires
        items@.len() == verdicts@.len(),
    ensures
        partition_view(r) == filter_settled(values_view(items@), kept_view(verdicts@)),
{
    let ghost all = values_view(items@);
    let ghost decided = kept_view(verdicts@);
    let mut kept: Vec<Data> = Vec::new();
    let mut dropped: Vec<Data> = Vec::new();
    let mut failure: Option<StepFail> = None;
    let mut i: usize = 0;
    assert(values_view(kept@) =~= partition(all, decided, true, 0));
    assert(values_view(dropped@) =~= partition(all, decided, false, 0));
    for verdict in it: verdicts
        invariant
            it.seq() == verdicts@,
            i == it.index(),
            items@.len() == verdicts@.len(),
            all == values_view(items@),
            decided == kept_view(verdicts@),
            values_view(kept@) == partition(all, decided, true, i as int),
            values_view(dropped@) == partition(all, decided, false, i as int),
            first_fail_view(failure) == first_failure(decided, i as int),
    {
        assert(decided[i as int] == (match verdict {
            Some(r) => Some(keep_view(r)),
            None => None,
        }));
        assert(all[i as int] == items@[i as int]@);
        match verdict {
            Some(Ok(keep)) => {
                let ghost before_kept = values_view(kept@);
                let ghost before_dropped = values_view(dropped@);
                if keep {
                    kept.push(items[i].copy());
                    assert(values_view(kept@) =~= before_kept.push(all[i as int]));
                } else {
                    dropped.push(items[i].copy());
                    assert(values_view(dropped@) =~= before_dropped.push(all[i as int]));
                }
            },
            Some(Err(e)) => {
                if failure.is_none() {
                    failure = Some(e);
                }
            },
            None => {},
        }
        assert(i < items.len());
        i = i + 1;
    }
    match failure {
        Some(e) => Err(e),
        None => Ok(Partition { kept, dropped }),
    }
}

/// What a top-level filter does to the run.
pub open spec fn filter_recorded(
    s: RunStateView,
    step: Seq<char>,
    run: Result<PartitionView, StepFailView>,
) -> (RunStateView, Result<Json, ExecutionEndView>) {
    match run {
        Ok(p) => (
            with_note(
                s,
                step,
                BusKind::Info,
                "filter: kept "@ + numeral(p.kept.len()) + " of "@ + numeral(
                    p.kept.len() + p.dropped.len(),
                ),
            ),
            Ok(filter_json(p.kept, p.dropped)),
        ),
        Err(fail) => (s, Err(fail_end(fail, step, "filter"@))),
    }
}

/// Ends a top-level filter.
pub fn record_filter(state: &mut RunState, step: &str, run: Result<Partition, StepFail>) -> (r:
    Result<Data, ExecutionEnd>)
    requires
        run matches Ok(p) ==> p.kept@.len() + p.dropped@.len() <= usize::MAX,
    ensures
        (final(state)@, run_view(r)) == filter_recorded(
            old(state)@,
            step@,
            partition_view(run),
        ),
{
    match run {
        Ok(p) => {
            let kept: usize = p.kept.len();
            let total: usize = kept + p.dropped.len();
            state.push_bus(
                step,
                BusKind::Info,
                cat4(
                    "filter: kept ",
                    decimal_usize(kept).as_str(),
                    " of ",
                    decimal_usize(total).as_str(),
                ).as_str(),
            );
            Ok(p.to_value())
        },
        Err(fail) => Err(end_of_fail(fail, step, "filter")),
    }
}

// ── Laws ─────────────────────────────────────────────────────────────────

proof fn lemma_partition_counts(
    items: Seq<Json>,
    verdicts: Seq<Option<Result<bool, StepFailView>>>,
    n: int,
)
    requires
        0 <= n <= items.len(),
        items.len() == verdicts.len(),
        forall|i: int| 0 <= i < n ==> (#[trigger] verdicts[i] matches Some(Ok(_))),
    ensures
        partition(items, verdicts, true, n).len() + partition(items, verdicts, false, n).len()
            == n,
        partition(items, verdicts, true, n).to_multiset().add(
            partition(items, verdicts, false, n).to_multiset(),
        ) == items.take(n).to_multiset(),
    decreases n,
{
    broadcast use vstd::seq_lib::group_to_multiset_ensures;

    if n > 0 {
        lemma_partition_counts(items, verdicts, n - 1);
        assert(verdicts[n - 1] matches Some(Ok(_)));
        assert(items.take(n) =~= items.take(n - 1).push(items[n - 1]));
        let kept = partition(items, verdicts, true, n - 1);
        let dropped = partition(items, verdicts, false, n - 1);
        kept.to_multiset_ensures();
        dropped.to_multiset_ensures();
        items.take(n - 1).to_multiset_ensures();
        let item = items[n - 1];
        let so_far = items.take(n - 1).to_multiset();
        assert(items.take(n).to_multiset() =~= so_far.insert(item));
        if verdicts[n - 1] == Some(Ok::<bool, StepFailView>(true)) {
            assert(partition(items, verdicts, true, n) == kept.push(item));
            assert(partition(items, verdicts, false, n) == dropped);
            assert(kept.to_multiset().insert(item).add(dropped.to_multiset()) =~= so_far.insert(
                item,
            ));
        } else {
            assert(verdicts[n - 1] is Some);
            assert(verdicts[n - 1]->0 is Ok);
            assert(verdicts[n - 1]->0->Ok_0 == false);
            assert(verdicts[n - 1] == Some(Ok::<bool, StepFailView>(false)));
            assert(partition(items, verdicts, true, n) == kept);
            assert(partition(items, verdicts, false, n) == dropped.push(item));
            assert(kept.to_multiset().add(dropped.to_multiset().insert(item)) =~= so_far.insert(
                item,
            ));
        }
    } else {
        let none = Seq::<Json>::empty();
        assert(items.take(0) =~= none);
        none.to_multiset_ensures();
        assert forall|v: Json| none.to_multiset().count(v) == 0 by {
            assert(!none.contains(v));
        }
        assert(partition(items, verdicts, true, n).to_multiset().add(
            partition(items, verdicts, false, n).to_multiset(),
        ) =~= items.take(n).to_multiset());
    }
}

/// A filter loses nothing: where every item is judged, what it keeps and what it
/// drops together are its items.
pub proof fn a_filter_loses_no_item(
    items: Seq<Json>,
    verdicts: Seq<Option<Result<bool, StepFailView>>>,
)
    requires
        items.len() == verdicts.len(),
        forall|i: int|
            0 <= i < verdicts.len() ==> (#[trigger] verdicts[i] matches Some(Ok(_))),
    ensures
        filter_settled(items, verdicts) matches Ok(p) && p.kept.len() + p.dropped.len()
            == items.len() && p.kept.to_multiset().add(p.dropped.to_multiset())
            == items.to_multiset(),
{
    lemma_partition_counts(items, verdicts, items.len() as int);
    lemma_no_failure(verdicts, items.len() as int);
    assert(items.take(items.len() as int) =~= items);
}

proof fn lemma_no_failure(verdicts: Seq<Option<Result<bool, StepFailView>>>, n: int)
    requires
        0 <= n <= verdicts.len(),
        forall|i: int| 0 <= i < n ==> (#[trigger] verdicts[i] matches Some(Ok(_))),
    ensures
        first_failure(verdicts, n) is None,
    decreases n,
{
    if n > 0 {
        assert(verdicts[n - 1] matches Some(Ok(_)));
        lemma_no_failure(verdicts, n - 1);
    }
}

/// What a filter keeps stands in input order: the kept items are those of a
/// growing sequence of positions whose verdict is yes.
pub proof fn a_filter_keeps_the_order_of_its_items(
    items: Seq<Json>,
    verdicts: Seq<Option<Result<bool, StepFailView>>>,
    keep: bool,
    n: int,
) -> (at: Seq<int>)
    requires
        items.len() == verdicts.len(),
        0 <= n <= items.len(),
    ensures
        at.len() == partition(items, verdicts, keep, n).len(),
        forall|i: int|
            0 <= i < at.len() ==> 0 <= #[trigger] at[i] < n && verdicts[at[i]] == Some(
                Ok::<bool, StepFailView>(keep),
            ) && partition(items, verdicts, keep, n)[i] == items[at[i]],
        forall|i: int, j: int| 0 <= i < j < at.len() ==> #[trigger] at[i] < #[trigger] at[j],
    decreases n,
{
    if n <= 0 {
        Seq::empty()
    } else {
        let before = a_filter_keeps_the_order_of_its_items(items, verdicts, keep, n - 1);
        if verdicts[n - 1] == Some(Ok::<bool, StepFailView>(keep)) {
            before.push(n - 1)
        } else {
            before
        }
    }
}

} // verus!
