//! Shared gate machinery for control steps (`exit`, `decide`): a logical
//! condition (`when`) or an inferred verdict (`infer`) answered by the
//! `judge` model role.

use crate::json::{compact, compact_text, document, to_serde};
use crate::pipeline::record::{
    check_value_as, choice_at, flag_at, get_choice, get_flag, get_text, get_value, read_entries,
    read_fields, record_value_problem, text_at, text_view, value_at, Record,
};
use crate::text::{cat2, cat4, contains_text, occurs, same_text};
use crate::value::{same_json, values_view, Data, Json, Num};
use vstd::prelude::*;

verus! {

/// A comparison between two values.
#[derive(Debug)]
pub struct Condition {
    pub value: Data,
    pub op: Op,
    pub to: Data,
}

#[derive(Debug, Clone, Copy, PartialEq, Eq, Structural)]
pub enum Op {
    Eq,
    Ne,
    Gt,
    Lt,
    Gte,
    Lte,
    Empty,
    NotEmpty,
    Contains,
}

/// A judge's answer to a yes/no question.
#[derive(Debug)]
pub struct Verdict {
    /// True when the answer to the question is yes.
    pub verdict: bool,
    /// One or two sentences explaining the verdict.
    pub reason: String,
}

/// The model of a [`Condition`].
pub struct ConditionView {
    pub value: Json,
    pub op: Op,
    pub to: Json,
}

impl Condition {
    pub open spec fn view(&self) -> ConditionView {
        ConditionView { value: self.value@, op: self.op, to: self.to@ }
    }
}

/// How two numbers compare once each is read as a 64-bit float: whether the
/// first is less, and whether it is greater.
pub uninterp spec fn float_comparison(a: Json, b: Json) -> (bool, bool);

/// Whether an integer is represented exactly by a 64-bit float because it
/// needs no more than 53 bits.
pub open spec fn exact_as_float(n: int) -> bool {
    -0x20_0000_0000_0000 <= n <= 0x20_0000_0000_0000
}

/// Whether a comparison of two integers that floats represent exactly is the
/// comparison of the integers.
pub open spec fn agrees_on_integers(a: Json, b: Json, c: (bool, bool)) -> bool {
    match (a, b) {
        (Json::Num(Num::Int(x)), Json::Num(Num::Int(y))) => exact_as_float(x) && exact_as_float(y)
            ==> c.0 == (x < y) && c.1 == (x > y),
        _ => true,
    }
}

/// `serde_json::Value::as_f64` on both values, and how the floats compare.
/// There is a float exactly for numbers; integers of at most 53 bits are
/// converted without rounding.
#[verifier::external_body]
fn compare_floats(a: &serde_json::Value, b: &serde_json::Value) -> (r: Option<(bool, bool)>)
    ensures
        r is Some == (document(*a) is Num && document(*b) is Num),
        match r {
            Some(c) => c == float_comparison(document(*a), document(*b)) && agrees_on_integers(
                document(*a),
                document(*b),
                c,
            ),
            None => true,
        },
{
    match (a.as_f64(), b.as_f64()) {
        (Some(x), Some(y)) => Some((x < y, x > y)),
        _ => None,
    }
}

/// Whether a value counts as empty: null, or without items, characters or
/// entries.
pub open spec fn is_empty_value(v: Json) -> bool {
    match v {
        Json::Null => true,
        Json::List(items) => items.len() == 0,
        Json::Text(s) => s.len() == 0,
        Json::Object(entries) => entries.len() == 0,
        _ => false,
    }
}

/// Whether an array holds a value.
pub open spec fn holds(items: Seq<Json>, needle: Json) -> bool {
    exists|i: int| 0 <= i < items.len() && same_json(#[trigger] items[i], needle)
}

/// What an ordering operator says of a comparison.
pub open spec fn ordered(op: Op, comparison: (bool, bool)) -> bool {
    match op {
        Op::Gt => comparison.1,
        Op::Lt => comparison.0,
        Op::Gte => !comparison.0,
        _ => !comparison.1,
    }
}

/// Whether the verdict on an ordering of two integers that floats represent
/// exactly is the order of the integers.
pub open spec fn integer_order_holds(c: ConditionView, verdict: bool) -> bool {
    match (c.value, c.to) {
        (Json::Num(Num::Int(x)), Json::Num(Num::Int(y))) => exact_as_float(x) && exact_as_float(y)
            ==> verdict == ordered(c.op, (x < y, x > y)),
        _ => true,
    }
}

/// Whether a condition holds, or why it cannot be decided.
pub open spec fn condition_result(c: ConditionView) -> Result<bool, Seq<char>> {
    match c.op {
        Op::Eq => Ok(same_json(c.value, c.to)),
        Op::Ne => Ok(!same_json(c.value, c.to)),
        Op::Gt | Op::Lt | Op::Gte | Op::Lte => if c.value is Num && c.to is Num {
            Ok(ordered(c.op, float_comparison(c.value, c.to)))
        } else {
            Err(
                "condition: ordering ops need numbers, got "@ + compact_text(c.value) + " vs "@
                    + compact_text(c.to),
            )
        },
        Op::Empty => Ok(is_empty_value(c.value)),
        Op::NotEmpty => Ok(!is_empty_value(c.value)),
        Op::Contains => match (c.value, c.to) {
            (Json::Text(haystack), Json::Text(needle)) => Ok(occurs(haystack, needle)),
            (Json::List(items), needle) => Ok(holds(items, needle)),
            _ => Err(
                "condition: contains needs string/string or array/value, got "@ + compact_text(
                    c.value,
                ) + " vs "@ + compact_text(c.to),
            ),
        },
    }
}

pub open spec fn bool_result(r: Result<bool, String>) -> Result<bool, Seq<char>> {
    match r {
        Ok(b) => Ok(b),
        Err(e) => Err(e@),
    }
}

/// Whether an ordering operator holds of two floats that compare so.
pub fn order_holds(op: Op, less: bool, greater: bool) -> (r: bool)
    ensures
        r == ordered(op, (less, greater)),
{
    match op {
        Op::Gt => greater,
        Op::Lt => less,
        Op::Gte => !less,
        _ => !greater,
    }
}

/// Decides a condition.
pub fn eval_condition(condition: &Condition) -> (r: Result<bool, String>)
    ensures
        bool_result(r) == condition_result(condition@),
        match r {
            Ok(holds) => (condition.op is Gt || condition.op is Lt || condition.op is Gte
                || condition.op is Lte) ==> integer_order_holds(condition@, holds),
            Err(_) => true,
        },
{
    let value = &condition.value;
    let to = &condition.to;
    match condition.op {
        Op::Eq => Ok(value.same(to)),
        Op::Ne => Ok(!value.same(to)),
        Op::Gt | Op::Lt | Op::Gte | Op::Lte => match compare_floats(
            &to_serde(value),
            &to_serde(to),
        ) {
            Some((less, greater)) => Ok(order_holds(condition.op, less, greater)),
            None => Err(
                cat4(
                    "condition: ordering ops need numbers, got ",
                    compact(value).as_str(),
                    " vs ",
                    compact(to).as_str(),
                ),
            ),
        },
        Op::Empty | Op::NotEmpty => {
            let empty = match value {
                Data::Null => true,
                Data::List(items) => items.len() == 0,
                Data::Text(s) => s.as_str().is_empty(),
                Data::Object(fields) => fields.len() == 0,
                _ => false,
            };
            Ok((condition.op == Op::Empty) == empty)
        },
        Op::Contains => match (value, to) {
            (Data::Text(haystack), Data::Text(needle)) => Ok(
                contains_text(haystack.as_str(), needle.as_str()),
            ),
            (Data::List(items), needle) => {
                let mut i: usize = 0;
                while i < items.len()
                    invariant
                        i <= items@.len(),
                        forall|k: int|
                            0 <= k < i ==> !same_json(
                                #[trigger] values_view(items@)[k],
                                needle@,
                            ),
                        condition_result(condition@) == Ok::<bool, Seq<char>>(
                            holds(values_view(items@), needle@),
                        ),
                        condition.op == Op::Contains,
                    decreases items.len() - i,
                {
                    if items[i].same(needle) {
                        assert(same_json(values_view(items@)[i as int], needle@));
                        return Ok(true);
                    }
                    i += 1;
                }
                Ok(false)
            },
            _ => Err(
                cat4(
                    "condition: contains needs string/string or array/value, got ",
                    compact(value).as_str(),
                    " vs ",
                    compact(to).as_str(),
                ),
            ),
        },
    }
}

// ── Reading conditions and verdicts ──────────────────────────────────────

/// The comparison that a name stands for.
pub open spec fn op_of(name: Seq<char>) -> Op {
    if name == "eq"@ {
        Op::Eq
    } else if name == "ne"@ {
        Op::Ne
    } else if name == "gt"@ {
        Op::Gt
    } else if name == "lt"@ {
        Op::Lt
    } else if name == "gte"@ {
        Op::Gte
    } else if name == "lte"@ {
        Op::Lte
    } else if name == "empty"@ {
        Op::Empty
    } else if name == "not_empty"@ {
        Op::NotEmpty
    } else {
        Op::Contains
    }
}

/// The condition that a value is read as, or why it is none.
pub open spec fn condition_of(v: Json) -> Result<ConditionView, Seq<char>> {
    match record_value_problem(v, Record::Condition, "struct Condition"@) {
        Some(problem) => Err(problem),
        None => Ok(
            ConditionView {
                value: value_at(read_entries(v, Record::Condition), "value"@, "value"@),
                op: op_of(choice_at(read_entries(v, Record::Condition), "op"@, "op"@)),
                to: value_at(read_entries(v, Record::Condition), "to"@, "to"@),
            },
        ),
    }
}

fn read_op(name: &str) -> (r: Op)
    ensures
        r == op_of(name@),
{
    if same_text(name, "eq") {
        Op::Eq
    } else if same_text(name, "ne") {
        Op::Ne
    } else if same_text(name, "gt") {
        Op::Gt
    } else if same_text(name, "lt") {
        Op::Lt
    } else if same_text(name, "gte") {
        Op::Gte
    } else if same_text(name, "lte") {
        Op::Lte
    } else if same_text(name, "empty") {
        Op::Empty
    } else if same_text(name, "not_empty") {
        Op::NotEmpty
    } else {
        Op::Contains
    }
}

impl Condition {
    /// Reads a condition.
    pub fn from_value(v: &Data) -> (r: Result<Condition, String>)
        ensures
            match r {
                Ok(c) => condition_of(v@) == Ok::<ConditionView, Seq<char>>(c@),
                Err(e) => condition_of(v@) == Err::<ConditionView, Seq<char>>(e@),
            },
    {
        match check_value_as(v, Record::Condition, "struct Condition") {
            Some(problem) => Err(problem),
            None => {
                let fields = &read_fields(v, Record::Condition);
                Ok(
                    Condition {
                        value: get_value(fields, "value", "value"),
                        op: read_op(get_choice(fields, "op", "op").as_str()),
                        to: get_value(fields, "to", "to"),
                    },
                )
            },
        }
    }
}

/// The model of a [`Verdict`].
pub struct VerdictView {
    pub verdict: bool,
    pub reason: Seq<char>,
}

impl Verdict {
    pub open spec fn view(&self) -> VerdictView {
        VerdictView { verdict: self.verdict, reason: self.reason@ }
    }
}

/// The verdict that a value is read as, or why it is none.
pub open spec fn verdict_of(v: Json) -> Result<VerdictView, Seq<char>> {
    match record_value_problem(v, Record::Verdict, "struct Verdict"@) {
        Some(problem) => Err(problem),
        None => Ok(
            VerdictView {
                verdict: flag_at(read_entries(v, Record::Verdict), "verdict"@),
                reason: text_at(read_entries(v, Record::Verdict), "reason"@, "reason"@),
            },
        ),
    }
}

impl Verdict {
    /// Reads a judge's answer.
    pub fn from_value(v: &Data) -> (r: Result<Verdict, String>)
        ensures
            match r {
                Ok(answer) => verdict_of(v@) == Ok::<VerdictView, Seq<char>>(answer@),
                Err(e) => verdict_of(v@) == Err::<VerdictView, Seq<char>>(e@),
            },
    {
        match check_value_as(v, Record::Verdict, "struct Verdict") {
            Some(problem) => Err(problem),
            None => {
                let fields = &read_fields(v, Record::Verdict);
                Ok(
                    Verdict {
                        verdict: get_flag(fields, "verdict"),
                        reason: get_text(fields, "reason", "reason"),
                    },
                )
            },
        }
    }
}

// ── Gates ────────────────────────────────────────────────────────────────

/// What a gate decided: whether it holds, and the judge's reasoning for an
/// inferred one; or why it could not be decided.
pub type GateResult = Result<(bool, Option<String>), String>;

/// The model of a [`GateResult`].
pub type GateResultView = Result<(bool, Option<Seq<char>>), Seq<char>>;

pub open spec fn gate_view(r: GateResult) -> GateResultView {
    match r {
        Ok((holds, reason)) => Ok((holds, text_view(reason))),
        Err(e) => Err(e@),
    }
}

/// How a gate goes on: decided, or with a question to the judge.
#[derive(Debug)]
pub enum GateStep {
    Decided(GateResult),
    Judge { question: String },
}

/// The model of a [`GateStep`].
pub enum GateStepView {
    Decided(GateResultView),
    Judge(Seq<char>),
}

impl GateStep {
    pub open spec fn view(&self) -> GateStepView {
        match self {
            GateStep::Decided(r) => GateStepView::Decided(gate_view(*r)),
            GateStep::Judge { question } => GateStepView::Judge(question@),
        }
    }
}

/// What the judge is told.
pub open spec fn judge_instructions() -> Seq<char> {
    "You answer a single yes/no question about the provided data, honestly and conservatively. Answer yes only when the data clearly supports it."@
}

/// What the judge is told.
pub fn judge_system() -> (r: &'static str)
    ensures
        r@ == judge_instructions(),
{
    "You answer a single yes/no question about the provided data, honestly and conservatively. Answer yes only when the data clearly supports it."
}

/// How a gate goes on from its condition or its question.
pub open spec fn gate_step(when: Option<ConditionView>, infer: Option<Seq<char>>) -> GateStepView {
    match (when, infer) {
        (Some(condition), None) => GateStepView::Decided(
            match condition_result(condition) {
                Ok(holds) => Ok((holds, None)),
                Err(e) => Err(e),
            },
        ),
        (None, Some(question)) => GateStepView::Judge(question),
        (Some(_), Some(_)) => GateStepView::Decided(
            Err("`when` and `infer` are mutually exclusive"@),
        ),
        (None, None) => GateStepView::Decided(Err("a gate needs `when` or `infer`"@)),
    }
}

pub open spec fn condition_view(o: Option<Condition>) -> Option<ConditionView> {
    match o {
        Some(c) => Some(c@),
        None => None,
    }
}

/// Evaluates a gate as far as it goes without a judge. Callers enforce their
/// own arity rules on top: `exit` treats neither gate as unconditional,
/// `decide` requires exactly one.
pub fn evaluate_gate(when: &Option<Condition>, infer: &Option<String>) -> (r: GateStep)
    ensures
        r@ == gate_step(condition_view(*when), text_view(*infer)),
{
    match (when, infer) {
        (Some(condition), None) => GateStep::Decided(
            match eval_condition(condition) {
                Ok(holds) => Ok((holds, None)),
                Err(e) => Err(e),
            },
        ),
        (None, Some(question)) => GateStep::Judge { question: question.clone() },
        (Some(_), Some(_)) => GateStep::Decided(
            Err("`when` and `infer` are mutually exclusive".to_owned()),
        ),
        (None, None) => GateStep::Decided(Err("a gate needs `when` or `infer`".to_owned())),
    }
}

/// What a judge's answer makes of a gate.
pub open spec fn judged(answer: Result<VerdictView, Seq<char>>) -> GateResultView {
    match answer {
        Ok(v) => Ok((v.verdict, Some(v.reason))),
        Err(e) => Err("verdict failed: "@ + e),
    }
}

pub open spec fn verdict_view(r: Result<Verdict, String>) -> Result<VerdictView, Seq<char>> {
    match r {
        Ok(v) => Ok(v@),
        Err(e) => Err(e@),
    }
}

/// Decides a gate by a judge's answer.
pub fn settle_gate(answer: Result<Verdict, String>) -> (r: GateResult)
    ensures
        gate_view(r) == judged(verdict_view(answer)),
{
    match answer {
        Ok(v) => Ok((v.verdict, Some(v.reason))),
        Err(e) => Err(cat2("verdict failed: ", e.as_str())),
    }
}

} // verus!
