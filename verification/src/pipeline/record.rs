//! Reading records out of JSON objects: which fields a record has, what each
//! may hold, and the message for an object that does not fit. Every step
//! input, plan step and plan document is read through these rules.

use crate::text::{
    cat2, cat3, cat4, decimal_usize, join, joined, numeral, push_text, same_text, text_less, texts,
};
use crate::value::{
    ascending, fractional, lemma_object_entries, list_shrinks, lookup, number_text, object,
    printed_number, text_less_irreflexive, text_list, values_view, Data, Entries, Fields, Json, Num,
    Quantity,
};
use vstd::prelude::*;

verus! {

/// What a field may hold.
#[derive(Debug, Clone, Copy, PartialEq, Eq, Structural)]
pub enum Shape {
    /// Any value.
    Any,
    /// A string.
    Text,
    /// A string or null.
    OptText,
    /// An object.
    Object,
    /// An object or null.
    OptObject,
    /// An array of strings.
    Texts,
    /// An array of strings, or null.
    OptTexts,
    /// A boolean.
    Flag,
    /// A non-negative integer.
    Size,
    /// A non-negative integer of 32 bits.
    Small,
    /// The name of a comparison.
    Op,
    /// `success` or `error`.
    Status,
    /// `fail` or `default`.
    Unanswered,
    /// A condition or null.
    OptCondition,
    /// A plan step or null.
    OptStep,
    /// An array of plan steps.
    Steps,
    /// Solver data.
    Solver,
    /// Solver data or null.
    OptSolver,
    /// An array of outline stages.
    Stages,
}

/// The records that are read.
#[derive(Debug, Clone, Copy, PartialEq, Eq, Structural)]
pub enum Record {
    Condition,
    Step,
    Solver,
    PlannerOutput,
    Call,
    Exit,
    Decide,
    Iterate,
    Fold,
    Filter,
    Ask,
    Agent,
    Document,
    Outline,
    Stage,
    StepDraft,
    Verdict,
}

/// One field of a record: its name, another spelling of it if there is one,
/// what it may hold, whether it must be present in an object, and whether it has
/// a default that stands for it where a list of the fields ends before it.
pub struct Rule {
    pub name: &'static str,
    pub alias: Option<&'static str>,
    pub shape: Shape,
    pub required: bool,
    pub defaulted: bool,
}

/// The model of a [`Rule`].
pub struct RuleView {
    pub name: Seq<char>,
    pub alias: Option<Seq<char>>,
    pub shape: Shape,
    pub required: bool,
    pub defaulted: bool,
}

impl Rule {
    pub open spec fn view(&self) -> RuleView {
        RuleView {
            name: self.name@,
            alias: match self.alias {
                Some(a) => Some(a@),
                None => None,
            },
            shape: self.shape,
            required: self.required,
            defaulted: self.defaulted,
        }
    }
}

pub open spec fn rules_view(s: Seq<Rule>) -> Seq<RuleView> {
    Seq::new(s.len(), |i: int| s[i]@)
}

pub open spec fn need(name: Seq<char>, shape: Shape) -> RuleView {
    RuleView { name, alias: None, shape, required: true, defaulted: false }
}

pub open spec fn may(name: Seq<char>, shape: Shape) -> RuleView {
    RuleView { name, alias: None, shape, required: false, defaulted: true }
}

pub open spec fn might(name: Seq<char>, shape: Shape) -> RuleView {
    RuleView { name, alias: None, shape, required: false, defaulted: false }
}

pub open spec fn need_as(name: Seq<char>, alias: Seq<char>, shape: Shape) -> RuleView {
    RuleView { name, alias: Some(alias), shape, required: true, defaulted: false }
}

pub open spec fn may_as(name: Seq<char>, alias: Seq<char>, shape: Shape) -> RuleView {
    RuleView { name, alias: Some(alias), shape, required: false, defaulted: true }
}

/// The fields of each record, in the order in which missing ones are reported and
/// in which a list gives them.
pub open spec fn rules_of(record: Record) -> Seq<RuleView> {
    match record {
        Record::Condition => seq![
            need("value"@, Shape::Any),
            need("op"@, Shape::Op),
            may("to"@, Shape::Any),
        ],
        Record::Step => seq![
            need("id"@, Shape::Text),
            need_as("toolName"@, "tool_name"@, Shape::Text),
            need("input"@, Shape::Object),
            may("reasoning"@, Shape::OptText),
        ],
        Record::Solver => seq![
            may_as("queryToAnswer"@, "query_to_answer"@, Shape::Text),
            may_as("systemPrompt"@, "system_prompt"@, Shape::OptText),
            may("data"@, Shape::Object),
        ],
        Record::PlannerOutput => seq![
            need("plan"@, Shape::Steps),
            need("solverData"@, Shape::Solver),
        ],
        Record::Call => seq![
            need_as("toolName"@, "tool_name"@, Shape::Text),
            need("input"@, Shape::Object),
            may("reasoning"@, Shape::OptText),
        ],
        Record::Exit => seq![
            might("when"@, Shape::OptCondition),
            might("infer"@, Shape::OptText),
            need("status"@, Shape::Status),
            may("message"@, Shape::OptText),
            may("output"@, Shape::OptObject),
            may("model"@, Shape::OptText),
        ],
        Record::Decide => seq![
            may("if"@, Shape::Any),
            may("infer"@, Shape::OptText),
            may("model"@, Shape::OptText),
            need("then"@, Shape::Any),
            may("else"@, Shape::Any),
        ],
        Record::Iterate => seq![
            need("over"@, Shape::Any),
            need("do"@, Shape::Any),
            may("concurrency"@, Shape::Size),
        ],
        Record::Fold => seq![
            need("over"@, Shape::Any),
            need("do"@, Shape::Any),
            may("initial"@, Shape::Any),
        ],
        Record::Filter => seq![
            need("over"@, Shape::Any),
            may("where"@, Shape::Any),
            may("infer"@, Shape::OptText),
            may("model"@, Shape::OptText),
            may("concurrency"@, Shape::Size),
        ],
        Record::Ask => seq![
            need("prompt"@, Shape::Text),
            need_as("outputSchema"@, "output_schema"@, Shape::Any),
            may_as("whenUnanswered"@, "when_unanswered"@, Shape::Unanswered),
            may("default"@, Shape::Any),
        ],
        Record::Agent => seq![
            need("prompt"@, Shape::Text),
            may("model"@, Shape::OptText),
            may_as("systemPrompt"@, "system_prompt"@, Shape::OptText),
            may_as("maxIterations"@, "max_iterations"@, Shape::Small),
            may("tools"@, Shape::OptTexts),
            need_as("outputSchema"@, "output_schema"@, Shape::Any),
        ],
        Record::Document => seq![
            need("identifier"@, Shape::Text),
            need("name"@, Shape::Text),
            need("description"@, Shape::Text),
            may("exemplars"@, Shape::Texts),
            may("requires_servers"@, Shape::Texts),
            may("input_schema"@, Shape::Any),
            need("steps"@, Shape::Steps),
            may("solver"@, Shape::OptSolver),
            may("output"@, Shape::OptObject),
        ],
        Record::Outline => seq![
            need("items"@, Shape::Stages),
            may("queryToAnswer"@, Shape::Text),
            may("systemPrompt"@, Shape::OptText),
        ],
        Record::Stage => seq![
            need("summary"@, Shape::Text),
            may("expectedTool"@, Shape::OptText),
        ],
        Record::StepDraft => seq![
            may("step"@, Shape::OptStep),
            may("planComplete"@, Shape::Flag),
        ],
        Record::Verdict => seq![
            need("verdict"@, Shape::Flag),
            need("reason"@, Shape::Text),
        ],
    }
}

/// Whether a record refuses fields it does not know.
pub open spec fn is_strict(record: Record) -> bool {
    record is Condition || record is Call || record is Exit || record is Decide || record is Iterate
        || record is Fold || record is Filter || record is Ask || record is Agent
        || record is Document
}

/// What `serde::de::Unexpected::Str` prints as for a text.
pub uninterp spec fn unexpected_text(s: Seq<char>) -> Seq<char>;

/// What `serde::de::Unexpected::Float` prints as for the number that a numeral
/// with a fraction or an exponent stands for.
pub uninterp spec fn unexpected_number(numeral: Seq<char>) -> Seq<char>;

/// `<serde::de::Unexpected as Display>::fmt` on a text: the word `string` and
/// the text as Rust's `Debug` shows it.
#[verifier::external_body]
fn call_text(s: &str) -> (r: String)
    ensures
        r@ == unexpected_text(s@),
{
    serde::de::Unexpected::Str(s).to_string()
}

/// `<serde::de::Unexpected as Display>::fmt` on what `Number::as_f64` gives. A
/// number that is no integer has a float, and its numeral tells it from others.
#[verifier::external_body]
fn call_number(n: &serde_json::Number) -> (r: String)
    requires
        fractional(printed_number(*n)),
    ensures
        r@ == unexpected_number(printed_number(*n)),
{
    n.as_f64().map(|f| serde::de::Unexpected::Float(f).to_string()).unwrap_or_default()
}

/// What a value is called in a message about a misplaced one.
pub open spec fn called(v: Json) -> Seq<char> {
    match v {
        Json::Null => "null"@,
        Json::Bool(b) => if b { "boolean `true`"@ } else { "boolean `false`"@ },
        Json::Num(Num::Int(n)) => "integer `"@ + number_text(Num::Int(n)) + "`"@,
        Json::Num(Num::Float(t)) => unexpected_number(t),
        Json::Text(s) => unexpected_text(s),
        Json::List(_) => "sequence"@,
        Json::Object(_) => "map"@,
    }
}

pub open spec fn wrong_type(v: Json, expected: Seq<char>) -> Seq<char> {
    "invalid type: "@ + called(v) + ", expected "@ + expected
}

pub open spec fn op_names() -> Seq<Seq<char>> {
    seq![
        "eq"@,
        "ne"@,
        "gt"@,
        "lt"@,
        "gte"@,
        "lte"@,
        "empty"@,
        "not_empty"@,
        "contains"@,
    ]
}

pub open spec fn status_names() -> Seq<Seq<char>> {
    seq!["success"@, "error"@]
}

pub open spec fn unanswered_names() -> Seq<Seq<char>> {
    seq!["fail"@, "default"@]
}

/// Names in backticks.
pub open spec fn quoted(names: Seq<Seq<char>>) -> Seq<Seq<char>> {
    Seq::new(names.len(), |i: int| "`"@ + names[i] + "`"@)
}

/// How the names that are expected are listed.
pub open spec fn expectation(names: Seq<Seq<char>>) -> Seq<char> {
    if names.len() == 1 {
        quoted(names)[0]
    } else if names.len() == 2 {
        quoted(names)[0] + " or "@ + quoted(names)[1]
    } else {
        "one of "@ + joined(quoted(names), ", "@)
    }
}

/// The problem with a name that must be one of some names.
pub open spec fn name_problem(s: Seq<char>, names: Seq<Seq<char>>) -> Option<Seq<char>> {
    if names.contains(s) {
        None
    } else {
        Some("unknown variant `"@ + s + "`, expected "@ + expectation(names))
    }
}

/// The problem with a value that must be one of some names: the name, or an object
/// with null under the name and nothing else.
pub open spec fn choice_problem(v: Json, names: Seq<Seq<char>>) -> Option<Seq<char>> {
    match v {
        Json::Text(s) => name_problem(s, names),
        Json::Object(e) => if e.len() != 1 {
            Some("invalid value: map, expected map with a single key"@)
        } else {
            match name_problem(e[0].0, names) {
                Some(p) => Some(p),
                None => if e[0].1 is Null {
                    None
                } else {
                    Some(wrong_type(e[0].1, "unit"@))
                },
            }
        },
        other => Some(wrong_type(other, "string or map"@)),
    }
}

/// The name that a value chooses.
pub open spec fn chosen(v: Json) -> Seq<char> {
    match v {
        Json::Text(s) => s,
        Json::Object(e) => if e.len() == 1 {
            e[0].0
        } else {
            Seq::empty()
        },
        _ => Seq::empty(),
    }
}

/// The problem with a value that must be an integer from zero to `max`.
pub open spec fn integer_problem(v: Json, max: int, name: Seq<char>) -> Option<Seq<char>> {
    match v {
        Json::Num(Num::Int(n)) => if 0 <= n <= max {
            None
        } else {
            Some("invalid value: integer `"@ + number_text(Num::Int(n)) + "`, expected "@ + name)
        },
        other => Some(wrong_type(other, name)),
    }
}

/// The first problem in an array of strings.
pub open spec fn texts_problem(items: Seq<Json>, n: int) -> Option<Seq<char>>
    decreases n,
{
    if n <= 0 {
        None
    } else {
        match texts_problem(items, n - 1) {
            Some(p) => Some(p),
            None => if items[n - 1] is Text {
                None
            } else {
                Some(wrong_type(items[n - 1], "a string"@))
            },
        }
    }
}

/// The problem with a value that must be a record: an object, or a list of the
/// fields in order.
pub open spec fn record_value_problem(v: Json, record: Record, name: Seq<char>) -> Option<Seq<char>>
    decreases v, 2int,
{
    match v {
        Json::Object(entries) => record_problem(entries, record),
        Json::List(items) => list_problem(items, record, name, 0),
        other => Some(wrong_type(other, name)),
    }
}

/// How many elements a list has.
pub open spec fn elements(n: nat) -> Seq<char> {
    if n == 1 {
        "1 element"@
    } else {
        numeral(n) + " elements"@
    }
}

/// The first problem with a list of a record's fields, from the field `i` on: a
/// value that does not fit its field, a field without a default that the list ends
/// before, or a value that no field is left for.
pub open spec fn list_problem(
    items: Seq<Json>,
    record: Record,
    name: Seq<char>,
    i: int,
) -> Option<Seq<char>>
    decreases items, rules_of(record).len() - i,
{
    let rules = rules_of(record);
    if i < 0 || i >= rules.len() {
        if items.len() > rules.len() {
            Some(
                "invalid length "@ + numeral(items.len())
                    + ", expected fewer elements in array"@,
            )
        } else {
            None
        }
    } else if i < items.len() {
        match value_problem(items[i], rules[i].shape) {
            Some(p) => Some(p),
            None => list_problem(items, record, name, i + 1),
        }
    } else if rules[i].defaulted {
        list_problem(items, record, name, i + 1)
    } else {
        Some(
            "invalid length "@ + numeral(i as nat) + ", expected "@ + name + " with "@ + elements(
                rules.len(),
            ),
        )
    }
}

/// The fields that a list gives.
pub open spec fn listed(items: Seq<Json>, record: Record) -> Entries {
    let n = if items.len() < rules_of(record).len() {
        items.len()
    } else {
        rules_of(record).len()
    };
    Seq::new(n, |i: int| (rules_of(record)[i].name, items[i]))
}

/// The entries that a value is read by as a record.
pub open spec fn read_entries(v: Json, record: Record) -> Entries {
    match v {
        Json::Object(e) => e,
        Json::List(items) => object(listed(items, record)),
        _ => Entries::empty(),
    }
}

/// The first problem among the first `n` values of an array of records.
pub open spec fn records_problem(
    items: Seq<Json>,
    record: Record,
    name: Seq<char>,
    n: int,
) -> Option<
    Seq<char>,
>
    decreases items, n,
{
    if n <= 0 || n > items.len() {
        None
    } else {
        match records_problem(items, record, name, n - 1) {
            Some(p) => Some(p),
            None => record_value_problem(items[n - 1], record, name),
        }
    }
}

/// The problem with a value in a field of some shape.
pub open spec fn value_problem(v: Json, shape: Shape) -> Option<Seq<char>>
    decreases v, 3int,
{
    match shape {
        Shape::Any => None,
        Shape::Text => if v is Text {
            None
        } else {
            Some(wrong_type(v, "a string"@))
        },
        Shape::OptText => if v is Text || v is Null {
            None
        } else {
            Some(wrong_type(v, "a string"@))
        },
        Shape::Object => if v is Object {
            None
        } else {
            Some(wrong_type(v, "a map"@))
        },
        Shape::OptObject => if v is Object || v is Null {
            None
        } else {
            Some(wrong_type(v, "a map"@))
        },
        Shape::Texts => match v {
            Json::List(items) => texts_problem(items, items.len() as int),
            other => Some(wrong_type(other, "a sequence"@)),
        },
        Shape::OptTexts => match v {
            Json::Null => None,
            Json::List(items) => texts_problem(items, items.len() as int),
            other => Some(wrong_type(other, "a sequence"@)),
        },
        Shape::Flag => if v is Bool {
            None
        } else {
            Some(wrong_type(v, "a boolean"@))
        },
        Shape::Size => integer_problem(v, usize::MAX as int, "usize"@),
        Shape::Small => integer_problem(v, u32::MAX as int, "u32"@),
        Shape::Op => choice_problem(v, op_names()),
        Shape::Status => choice_problem(v, status_names()),
        Shape::Unanswered => choice_problem(v, unanswered_names()),
        Shape::OptCondition => if v is Null {
            None
        } else {
            record_value_problem(v, Record::Condition, "struct Condition"@)
        },
        Shape::OptStep => if v is Null {
            None
        } else {
            record_value_problem(v, Record::Step, "struct Step"@)
        },
        Shape::Solver => record_value_problem(v, Record::Solver, "struct SolverData"@),
        Shape::OptSolver => if v is Null {
            None
        } else {
            record_value_problem(v, Record::Solver, "struct SolverData"@)
        },
        Shape::Steps => match v {
            Json::List(items) => records_problem(
                items,
                Record::Step,
                "struct Step"@,
                items.len() as int,
            ),
            other => Some(wrong_type(other, "a sequence"@)),
        },
        Shape::Stages => match v {
            Json::List(items) => records_problem(
                items,
                Record::Stage,
                "struct OutlineItem"@,
                items.len() as int,
            ),
            other => Some(wrong_type(other, "a sequence"@)),
        },
    }
}

/// Whether a key is one of the two spellings of a field.
pub open spec fn spells(rule: RuleView, key: Seq<char>) -> bool {
    key == rule.name || rule.alias == Some(key)
}

/// The position of the first of the rules from `i` on that a key spells.
pub open spec fn rule_for(rules: Seq<RuleView>, key: Seq<char>, i: int) -> Option<int>
    decreases rules.len() - i,
{
    if i < 0 || i >= rules.len() {
        None
    } else if spells(rules[i], key) {
        Some(i)
    } else {
        rule_for(rules, key, i + 1)
    }
}

/// Whether both spellings of a field are present.
pub open spec fn twice(entries: Entries, rule: RuleView) -> bool {
    match rule.alias {
        Some(alias) => lookup(entries, rule.name) is Some && lookup(entries, alias) is Some,
        None => false,
    }
}

/// Whether a field is spelled by one of the first `n` entries.
pub open spec fn spelled_before(entries: Entries, rule: RuleView, n: int) -> bool {
    exists|k: int| 0 <= k < n && spells(rule, (#[trigger] entries[k]).0)
}

/// Every spelling of a field.
pub open spec fn spellings(rule: RuleView) -> Seq<Seq<char>> {
    match rule.alias {
        Some(alias) => seq![rule.name, alias],
        None => seq![rule.name],
    }
}

/// Every spelling of the first `n` fields.
pub open spec fn rule_names(rules: Seq<RuleView>, n: int) -> Seq<Seq<char>>
    decreases n,
{
    if n <= 0 || n > rules.len() {
        Seq::empty()
    } else {
        rule_names(rules, n - 1) + spellings(rules[n - 1])
    }
}

/// The message for a field that a record does not know.
pub open spec fn unknown_field(key: Seq<char>, record: Record) -> Seq<char> {
    "unknown field `"@ + key + "`, expected "@ + expectation(
        rule_names(rules_of(record), rules_of(record).len() as int),
    )
}

/// The first problem among the first `n` entries of an object read as a record.
pub open spec fn entries_problem(entries: Entries, record: Record, n: int) -> Option<Seq<char>>
    decreases entries, n,
{
    if n <= 0 || n > entries.len() {
        None
    } else {
        match entries_problem(entries, record, n - 1) {
            Some(p) => Some(p),
            None => match rule_for(rules_of(record), entries[n - 1].0, 0) {
                None => if is_strict(record) {
                    Some(unknown_field(entries[n - 1].0, record))
                } else {
                    None
                },
                Some(i) => if spelled_before(entries, rules_of(record)[i], n - 1) {
                    Some("duplicate field `"@ + rules_of(record)[i].name + "`"@)
                } else {
                    value_problem(entries[n - 1].1, rules_of(record)[i].shape)
                },
            },
        }
    }
}

/// The value of a field, under either spelling.
pub open spec fn field(entries: Entries, rule: RuleView) -> Option<Json> {
    match lookup(entries, rule.name) {
        Some(v) => Some(v),
        None => match rule.alias {
            Some(alias) => lookup(entries, alias),
            None => None,
        },
    }
}

/// The first required field from `i` on that is absent.
pub open spec fn missing_from(entries: Entries, rules: Seq<RuleView>, i: int) -> Option<Seq<char>>
    decreases rules.len() - i,
{
    if i < 0 || i >= rules.len() {
        None
    } else if rules[i].required && field(entries, rules[i]) is None {
        Some("missing field `"@ + rules[i].name + "`"@)
    } else {
        missing_from(entries, rules, i + 1)
    }
}

/// Why an object cannot be read as a record, if it cannot.
pub open spec fn record_problem(entries: Entries, record: Record) -> Option<Seq<char>>
    decreases entries, entries.len() + 1,
{
    match entries_problem(entries, record, entries.len() as int) {
        Some(p) => Some(p),
        None => missing_from(entries, rules_of(record), 0),
    }
}

/// The value under either spelling of a field.
pub open spec fn at(entries: Entries, name: Seq<char>, alias: Seq<char>) -> Option<Json> {
    match lookup(entries, name) {
        Some(v) => Some(v),
        None => lookup(entries, alias),
    }
}

/// The text in a field; empty without one.
pub open spec fn text_at(entries: Entries, name: Seq<char>, alias: Seq<char>) -> Seq<char> {
    match at(entries, name, alias) {
        Some(Json::Text(s)) => s,
        _ => Seq::empty(),
    }
}

/// The name that a field chooses; empty without one.
pub open spec fn choice_at(entries: Entries, name: Seq<char>, alias: Seq<char>) -> Seq<char> {
    match at(entries, name, alias) {
        Some(v) => chosen(v),
        None => Seq::empty(),
    }
}

/// The text in a field, if there is one.
pub open spec fn opt_text_at(entries: Entries, name: Seq<char>, alias: Seq<char>) -> Option<
    Seq<char>,
> {
    match at(entries, name, alias) {
        Some(Json::Text(s)) => Some(s),
        _ => None,
    }
}

/// The object in a field; empty without one.
pub open spec fn object_at(entries: Entries, name: Seq<char>) -> Entries {
    match lookup(entries, name) {
        Some(Json::Object(e)) => e,
        _ => Entries::empty(),
    }
}

/// The object in a field, if there is one.
pub open spec fn opt_object_at(entries: Entries, name: Seq<char>) -> Option<Entries> {
    match lookup(entries, name) {
        Some(Json::Object(e)) => Some(e),
        _ => None,
    }
}

/// The value in a field; null without one.
pub open spec fn value_at(entries: Entries, name: Seq<char>, alias: Seq<char>) -> Json {
    match at(entries, name, alias) {
        Some(v) => v,
        None => Json::Null,
    }
}

/// The value in a field, if there is one other than null.
pub open spec fn opt_value_at(entries: Entries, name: Seq<char>) -> Option<Json> {
    match lookup(entries, name) {
        Some(Json::Null) => None,
        other => other,
    }
}

/// The values in a field that holds an array; none without one.
pub open spec fn items_at(entries: Entries, name: Seq<char>) -> Seq<Json> {
    match lookup(entries, name) {
        Some(Json::List(items)) => items,
        _ => Seq::empty(),
    }
}

/// The texts among some values, each as its text, others as empty texts.
pub open spec fn as_texts(items: Seq<Json>) -> Seq<Seq<char>> {
    Seq::new(
        items.len(),
        |i: int|
            match items[i] {
                Json::Text(s) => s,
                _ => Seq::empty(),
            },
    )
}

/// The number in a field, or another where there is none.
pub open spec fn int_at(
    entries: Entries,
    name: Seq<char>,
    alias: Seq<char>,
    otherwise: int,
) -> int {
    match at(entries, name, alias) {
        Some(Json::Num(Num::Int(n))) => n,
        _ => otherwise,
    }
}

/// Whether a field holds `true`.
pub open spec fn flag_at(entries: Entries, name: Seq<char>) -> bool {
    lookup(entries, name) == Some(Json::Bool(true))
}

// ── Executable counterparts ──────────────────────────────────────────────

pub open spec fn text_view(o: Option<String>) -> Option<Seq<char>> {
    match o {
        Some(s) => Some(s@),
        None => None,
    }
}

fn need_rule(name: &'static str, shape: Shape) -> (r: Rule)
    ensures
        r@ == need(name@, shape),
{
    Rule { name, alias: None, shape, required: true, defaulted: false }
}

fn may_rule(name: &'static str, shape: Shape) -> (r: Rule)
    ensures
        r@ == may(name@, shape),
{
    Rule { name, alias: None, shape, required: false, defaulted: true }
}

fn might_rule(name: &'static str, shape: Shape) -> (r: Rule)
    ensures
        r@ == might(name@, shape),
{
    Rule { name, alias: None, shape, required: false, defaulted: false }
}

fn need_rule_as(name: &'static str, alias: &'static str, shape: Shape) -> (r: Rule)
    ensures
        r@ == need_as(name@, alias@, shape),
{
    Rule { name, alias: Some(alias), shape, required: true, defaulted: false }
}

fn may_rule_as(name: &'static str, alias: &'static str, shape: Shape) -> (r: Rule)
    ensures
        r@ == may_as(name@, alias@, shape),
{
    Rule { name, alias: Some(alias), shape, required: false, defaulted: true }
}

/// The fields of a record.
pub fn rules(record: Record) -> (r: Vec<Rule>)
    ensures
        rules_view(r@) == rules_of(record),
{
    let r: Vec<Rule> = match record {
        Record::Condition => vec![
            need_rule("value", Shape::Any),
            need_rule("op", Shape::Op),
            may_rule("to", Shape::Any),
        ],
        Record::Step => vec![
            need_rule("id", Shape::Text),
            need_rule_as("toolName", "tool_name", Shape::Text),
            need_rule("input", Shape::Object),
            may_rule("reasoning", Shape::OptText),
        ],
        Record::Solver => vec![
            may_rule_as("queryToAnswer", "query_to_answer", Shape::Text),
            may_rule_as("systemPrompt", "system_prompt", Shape::OptText),
            may_rule("data", Shape::Object),
        ],
        Record::PlannerOutput => vec![
            need_rule("plan", Shape::Steps),
            need_rule("solverData", Shape::Solver),
        ],
        Record::Call => vec![
            need_rule_as("toolName", "tool_name", Shape::Text),
            need_rule("input", Shape::Object),
            may_rule("reasoning", Shape::OptText),
        ],
        Record::Exit => vec![
            might_rule("when", Shape::OptCondition),
            might_rule("infer", Shape::OptText),
            need_rule("status", Shape::Status),
            may_rule("message", Shape::OptText),
            may_rule("output", Shape::OptObject),
            may_rule("model", Shape::OptText),
        ],
        Record::Decide => vec![
            may_rule("if", Shape::Any),
            may_rule("infer", Shape::OptText),
            may_rule("model", Shape::OptText),
            need_rule("then", Shape::Any),
            may_rule("else", Shape::Any),
        ],
        Record::Iterate => vec![
            need_rule("over", Shape::Any),
            need_rule("do", Shape::Any),
            may_rule("concurrency", Shape::Size),
        ],
        Record::Fold => vec![
            need_rule("over", Shape::Any),
            need_rule("do", Shape::Any),
            may_rule("initial", Shape::Any),
        ],
        Record::Filter => vec![
            need_rule("over", Shape::Any),
            may_rule("where", Shape::Any),
            may_rule("infer", Shape::OptText),
            may_rule("model", Shape::OptText),
            may_rule("concurrency", Shape::Size),
        ],
        Record::Ask => vec![
            need_rule("prompt", Shape::Text),
            need_rule_as("outputSchema", "output_schema", Shape::Any),
            may_rule_as("whenUnanswered", "when_unanswered", Shape::Unanswered),
            may_rule("default", Shape::Any),
        ],
        Record::Agent => vec![
            need_rule("prompt", Shape::Text),
            may_rule("model", Shape::OptText),
            may_rule_as("systemPrompt", "system_prompt", Shape::OptText),
            may_rule_as("maxIterations", "max_iterations", Shape::Small),
            may_rule("tools", Shape::OptTexts),
            need_rule_as("outputSchema", "output_schema", Shape::Any),
        ],
        Record::Document => vec![
            need_rule("identifier", Shape::Text),
            need_rule("name", Shape::Text),
            need_rule("description", Shape::Text),
            may_rule("exemplars", Shape::Texts),
            may_rule("requires_servers", Shape::Texts),
            may_rule("input_schema", Shape::Any),
            need_rule("steps", Shape::Steps),
            may_rule("solver", Shape::OptSolver),
            may_rule("output", Shape::OptObject),
        ],
        Record::Outline => vec![
            need_rule("items", Shape::Stages),
            may_rule("queryToAnswer", Shape::Text),
            may_rule("systemPrompt", Shape::OptText),
        ],
        Record::Stage => vec![
            need_rule("summary", Shape::Text),
            may_rule("expectedTool", Shape::OptText),
        ],
        Record::StepDraft => vec![
            may_rule("step", Shape::OptStep),
            may_rule("planComplete", Shape::Flag),
        ],
        Record::Verdict => vec![
            need_rule("verdict", Shape::Flag),
            need_rule("reason", Shape::Text),
        ],
    };
    assert(rules_view(r@) =~= rules_of(record));
    r
}

/// Whether a record refuses fields it does not know.
fn strict(record: Record) -> (r: bool)
    ensures
        r == is_strict(record),
{
    match record {
        Record::Condition | Record::Call | Record::Exit | Record::Decide | Record::Iterate
        | Record::Fold | Record::Filter | Record::Ask | Record::Agent | Record::Document => true,
        _ => false,
    }
}

/// What a value is called in a message.
fn describe(v: &Data) -> (r: String)
    ensures
        r@ == called(v@),
{
    match v {
        Data::Null => "null".to_owned(),
        Data::Bool(b) => if *b { "boolean `true`".to_owned() } else { "boolean `false`".to_owned() },
        Data::Num(n) => match n {
            Quantity::Float(f) => call_number(f.number()),
            _ => cat3("integer `", n.text().as_str(), "`"),
        },
        Data::Text(s) => call_text(s.as_str()),
        Data::List(_) => "sequence".to_owned(),
        Data::Object(_) => "map".to_owned(),
    }
}

/// The message for a value of the wrong type.
pub fn mistyped(v: &Data, expected: &str) -> (r: String)
    ensures
        r@ == wrong_type(v@, expected@),
{
    cat4("invalid type: ", describe(v).as_str(), ", expected ", expected)
}

fn quote_all(names: &Vec<String>) -> (r: Vec<String>)
    ensures
        texts(r@) == quoted(texts(names@)),
{
    let mut out: Vec<String> = Vec::new();
    let mut i: usize = 0;
    while i < names.len()
        invariant
            i <= names@.len(),
            out@.len() == i,
            forall|k: int| 0 <= k < i ==> (#[trigger] out@[k])@ == "`"@ + names@[k]@ + "`"@,
        decreases names.len() - i,
    {
        out.push(cat3("`", names[i].as_str(), "`"));
        i += 1;
    }
    assert(texts(out@) =~= quoted(texts(names@)));
    out
}

fn expect_names(names: &Vec<String>) -> (r: String)
    ensures
        r@ == expectation(texts(names@)),
{
    let all = quote_all(names);
    assert(texts(all@) == quoted(texts(names@)));
    if all.len() == 1 {
        assert(texts(all@)[0] == all@[0]@);
        all[0].clone()
    } else if all.len() == 2 {
        assert(texts(all@)[0] == all@[0]@ && texts(all@)[1] == all@[1]@);
        cat3(all[0].as_str(), " or ", all[1].as_str())
    } else {
        cat2("one of ", join(&all, ", ").as_str())
    }
}

fn check_name(s: &str, names: &Vec<String>) -> (r: Option<String>)
    ensures
        text_view(r) == name_problem(s@, texts(names@)),
{
    if crate::text::lists(names, s) {
        None
    } else {
        Some(cat4("unknown variant `", s, "`, expected ", expect_names(names).as_str()))
    }
}

fn check_choice(v: &Data, names: &Vec<String>) -> (r: Option<String>)
    ensures
        text_view(r) == choice_problem(v@, texts(names@)),
{
    match v {
        Data::Text(s) => check_name(s.as_str(), names),
        Data::Object(fields) => {
            if fields.len() != 1 {
                return Some("invalid value: map, expected map with a single key".to_owned());
            }
            match check_name(fields.key_at(0).as_str(), names) {
                Some(p) => Some(p),
                None => match fields.value_at(0) {
                    Data::Null => None,
                    other => Some(mistyped(other, "unit")),
                },
            }
        },
        _ => Some(mistyped(v, "string or map")),
    }
}

fn name_list(names: Vec<&'static str>) -> (r: Vec<String>)
    ensures
        r@.len() == names@.len(),
        forall|k: int| 0 <= k < names@.len() ==> (#[trigger] r@[k])@ == names@[k]@,
{
    let mut out: Vec<String> = Vec::new();
    let mut i: usize = 0;
    while i < names.len()
        invariant
            i <= names@.len(),
            out@.len() == i,
            forall|k: int| 0 <= k < i ==> (#[trigger] out@[k])@ == names@[k]@,
        decreases names.len() - i,
    {
        out.push(names[i].to_owned());
        i += 1;
    }
    out
}

fn ops() -> (r: Vec<String>)
    ensures
        texts(r@) == op_names(),
{
    let r = name_list(
        vec!["eq", "ne", "gt", "lt", "gte", "lte", "empty", "not_empty", "contains"],
    );
    assert(texts(r@) =~= op_names());
    r
}

fn statuses() -> (r: Vec<String>)
    ensures
        texts(r@) == status_names(),
{
    let r = name_list(vec!["success", "error"]);
    assert(texts(r@) =~= status_names());
    r
}

fn unanswered() -> (r: Vec<String>)
    ensures
        texts(r@) == unanswered_names(),
{
    let r = name_list(vec!["fail", "default"]);
    assert(texts(r@) =~= unanswered_names());
    r
}

fn check_integer(v: &Data, max: u64, name: &str) -> (r: Option<String>)
    ensures
        text_view(r) == integer_problem(v@, max as int, name@),
{
    match v {
        Data::Num(n) => match n {
            Quantity::Unsigned(u) => {
                if *u <= max {
                    None
                } else {
                    Some(cat4("invalid value: integer `", n.text().as_str(), "`, expected ", name))
                }
            },
            Quantity::Negative(i) => {
                if *i >= 0 && *i as u64 <= max {
                    None
                } else {
                    Some(cat4("invalid value: integer `", n.text().as_str(), "`, expected ", name))
                }
            },
            Quantity::Float(_) => Some(mistyped(v, name)),
        },
        _ => Some(mistyped(v, name)),
    }
}

fn check_texts(items: &Vec<Data>) -> (r: Option<String>)
    ensures
        text_view(r) == texts_problem(values_view(items@), items@.len() as int),
{
    let mut i: usize = 0;
    while i < items.len()
        invariant
            i <= items@.len(),
            texts_problem(values_view(items@), i as int) is None,
        decreases items.len() - i,
    {
        match &items[i] {
            Data::Text(_) => {},
            other => {
                let p = mistyped(other, "a string");
                proof {
                    lemma_texts_problem_stays(values_view(items@), i + 1);
                }
                return Some(p);
            },
        }
        i += 1;
    }
    None
}

proof fn lemma_texts_problem_stays(items: Seq<Json>, i: int)
    requires
        0 <= i <= items.len(),
        texts_problem(items, i) is Some,
    ensures
        texts_problem(items, items.len() as int) == texts_problem(items, i),
    decreases items.len() - i,
{
    if i < items.len() {
        lemma_texts_problem_stays(items, i + 1);
    }
}

proof fn lemma_records_problem_stays(items: Seq<Json>, record: Record, name: Seq<char>, i: int)
    requires
        0 <= i <= items.len(),
        records_problem(items, record, name, i) is Some,
    ensures
        records_problem(items, record, name, items.len() as int) == records_problem(
            items,
            record,
            name,
            i,
        ),
    decreases items.len() - i,
{
    if i < items.len() {
        lemma_records_problem_stays(items, record, name, i + 1);
    }
}

proof fn lemma_entries_problem_stays(entries: Entries, record: Record, i: int)
    requires
        0 <= i <= entries.len(),
        entries_problem(entries, record, i) is Some,
    ensures
        entries_problem(entries, record, entries.len() as int) == entries_problem(
            entries,
            record,
            i,
        ),
    decreases entries.len() - i,
{
    if i < entries.len() {
        lemma_entries_problem_stays(entries, record, i + 1);
    }
}

/// In a record without problems every known entry holds what its field may.
pub proof fn lemma_entry_fits(entries: Entries, record: Record, n: int, k: int)
    requires
        0 <= k < n <= entries.len(),
        entries_problem(entries, record, n) is None,
        rule_for(rules_of(record), entries[k].0, 0) is Some,
    ensures
        value_problem(
            entries[k].1,
            rules_of(record)[rule_for(rules_of(record), entries[k].0, 0)->0].shape,
        ) is None,
    decreases n,
{
    if k < n - 1 {
        lemma_entry_fits(entries, record, n - 1, k);
    }
}

/// In a record without problems a field holds what it may.
pub proof fn lemma_field_fits(entries: Entries, record: Record, key: Seq<char>)
    requires
        record_problem(entries, record) is None,
        rule_for(rules_of(record), key, 0) is Some,
    ensures
        match lookup(entries, key) {
            Some(v) => value_problem(
                v,
                rules_of(record)[rule_for(rules_of(record), key, 0)->0].shape,
            ) is None,
            None => true,
        },
{
    if lookup(entries, key) is Some {
        let k = crate::value::lookup_finds(entries, key);
        lemma_entry_fits(entries, record, entries.len() as int, k);
    }
}

/// In a list of a record's fields without problems each value is what its field may
/// hold.
pub proof fn lemma_listed_fits(
    items: Seq<Json>,
    record: Record,
    name: Seq<char>,
    from: int,
    i: int,
)
    requires
        0 <= from <= i < items.len(),
        i < rules_of(record).len(),
        list_problem(items, record, name, from) is None,
    ensures
        value_problem(items[i], rules_of(record)[i].shape) is None,
    decreases i - from,
{
    if from < i {
        lemma_listed_fits(items, record, name, from + 1, i);
    }
}

fn check_record_value(v: &Data, record: Record, name: &str) -> (r: Option<String>)
    ensures
        text_view(r) == record_value_problem(v@, record, name@),
    decreases v@, 2int,
{
    match v {
        Data::Object(fields) => {
            assert(decreases_to!(v@ => fields@));
            check_record(fields, record)
        },
        Data::List(items) => check_list(v, items, record, name),
        _ => Some(mistyped(v, name)),
    }
}

fn check_list(v: &Data, items: &Vec<Data>, record: Record, name: &str) -> (r: Option<String>)
    requires
        v@ == Json::List(values_view(items@)),
    ensures
        text_view(r) == list_problem(values_view(items@), record, name@, 0),
    decreases v@, 1int,
{
    let rules = rules(record);
    let ghost all = values_view(items@);
    let mut i: usize = 0;
    while i < rules.len()
        invariant
            i <= rules@.len(),
            v@ == Json::List(values_view(items@)),
            all == values_view(items@),
            rules_view(rules@) == rules_of(record),
            list_problem(all, record, name@, 0) == list_problem(all, record, name@, i as int),
        decreases rules.len() - i,
    {
        let rule = &rules[i];
        assert(rules_of(record)[i as int] == rule@);
        if i < items.len() {
            proof {
                list_shrinks(v@, i as int);
            }
            if let Some(p) = check_value(&items[i], rule.shape) {
                return Some(p);
            }
        } else if !rule.defaulted {
            let count = if rules.len() == 1 {
                "1 element".to_owned()
            } else {
                cat2(decimal_usize(rules.len()).as_str(), " elements")
            };
            let at = decimal_usize(i);
            let head = cat4("invalid length ", at.as_str(), ", expected ", name);
            return Some(cat3(head.as_str(), " with ", count.as_str()));
        }
        i += 1;
    }
    if items.len() > rules.len() {
        Some(
            cat3(
                "invalid length ",
                decimal_usize(items.len()).as_str(),
                ", expected fewer elements in array",
            ),
        )
    } else {
        None
    }
}

/// The entries that a value is read by as a record.
pub fn read_fields(v: &Data, record: Record) -> (r: Fields)
    ensures
        r@ == read_entries(v@, record),
{
    match v {
        Data::Object(fields) => fields.copy(),
        Data::List(items) => {
            let rules = rules(record);
            let ghost pairs = listed(values_view(items@), record);
            let mut out = Fields::new();
            let mut i: usize = 0;
            assert(pairs.take(0) =~= Entries::empty());
            while i < items.len() && i < rules.len()
                invariant
                    i <= items@.len(),
                    i <= rules@.len(),
                    rules_view(rules@) == rules_of(record),
                    pairs == listed(values_view(items@), record),
                    out@ == object(pairs.take(i as int)),
                decreases items.len() - i,
            {
                assert(rules_of(record)[i as int] == rules@[i as int]@);
                assert(pairs.take(i + 1).drop_last() =~= pairs.take(i as int));
                assert(pairs.take(i + 1).last() == (rules@[i as int].name@, items@[i as int]@));
                out.insert(rules[i].name.to_owned(), items[i].copy());
                i += 1;
            }
            assert(pairs.take(i as int) =~= pairs);
            out
        },
        _ => Fields::new(),
    }
}

fn check_records(v: &Data, items: &Vec<Data>, record: Record, name: &str) -> (r: Option<String>)
    requires
        v@ == Json::List(values_view(items@)),
    ensures
        text_view(r) == records_problem(
            values_view(items@),
            record,
            name@,
            items@.len() as int,
        ),
    decreases v@, 2int,
{
    let mut i: usize = 0;
    while i < items.len()
        invariant
            i <= items@.len(),
            v@ == Json::List(values_view(items@)),
            records_problem(values_view(items@), record, name@, i as int) is None,
        decreases items.len() - i,
    {
        proof {
            list_shrinks(v@, i as int);
        }
        match check_record_value(&items[i], record, name) {
            Some(p) => {
                proof {
                    lemma_records_problem_stays(values_view(items@), record, name@, i + 1);
                }
                return Some(p);
            },
            None => {},
        }
        i += 1;
    }
    None
}

/// The problem with a value in a field of some shape.
pub fn check_value(v: &Data, shape: Shape) -> (r: Option<String>)
    ensures
        text_view(r) == value_problem(v@, shape),
    decreases v@, 3int,
{
    match shape {
        Shape::Any => None,
        Shape::Text => match v {
            Data::Text(_) => None,
            _ => Some(mistyped(v, "a string")),
        },
        Shape::OptText => match v {
            Data::Text(_) | Data::Null => None,
            _ => Some(mistyped(v, "a string")),
        },
        Shape::Object => match v {
            Data::Object(_) => None,
            _ => Some(mistyped(v, "a map")),
        },
        Shape::OptObject => match v {
            Data::Object(_) | Data::Null => None,
            _ => Some(mistyped(v, "a map")),
        },
        Shape::Texts => match v {
            Data::List(items) => check_texts(items),
            _ => Some(mistyped(v, "a sequence")),
        },
        Shape::OptTexts => match v {
            Data::Null => None,
            Data::List(items) => check_texts(items),
            _ => Some(mistyped(v, "a sequence")),
        },
        Shape::Flag => match v {
            Data::Bool(_) => None,
            _ => Some(mistyped(v, "a boolean")),
        },
        Shape::Size => check_integer(v, usize::MAX as u64, "usize"),
        Shape::Small => check_integer(v, u32::MAX as u64, "u32"),
        Shape::Op => check_choice(v, &ops()),
        Shape::Status => check_choice(v, &statuses()),
        Shape::Unanswered => check_choice(v, &unanswered()),
        Shape::OptCondition => match v {
            Data::Null => None,
            _ => check_record_value(v, Record::Condition, "struct Condition"),
        },
        Shape::OptStep => match v {
            Data::Null => None,
            _ => check_record_value(v, Record::Step, "struct Step"),
        },
        Shape::Solver => check_record_value(v, Record::Solver, "struct SolverData"),
        Shape::OptSolver => match v {
            Data::Null => None,
            _ => check_record_value(v, Record::Solver, "struct SolverData"),
        },
        Shape::Steps => match v {
            Data::List(items) => check_records(v, items, Record::Step, "struct Step"),
            _ => Some(mistyped(v, "a sequence")),
        },
        Shape::Stages => match v {
            Data::List(items) => check_records(v, items, Record::Stage, "struct OutlineItem"),
            _ => Some(mistyped(v, "a sequence")),
        },
    }
}

/// Finds the field that a key spells.
pub fn find_rule(rules: &Vec<Rule>, key: &str) -> (r: Option<usize>)
    ensures
        match r {
            Some(i) => i < rules@.len() && rule_for(rules_view(rules@), key@, 0) == Some(i as int),
            None => rule_for(rules_view(rules@), key@, 0) is None,
        },
{
    let mut i: usize = 0;
    while i < rules.len()
        invariant
            i <= rules@.len(),
            rule_for(rules_view(rules@), key@, 0) == rule_for(
                rules_view(rules@),
                key@,
                i as int,
            ),
        decreases rules.len() - i,
    {
        let rule = &rules[i];
        assert(rules_view(rules@)[i as int] == rule@);
        let other = match rule.alias {
            Some(alias) => same_text(alias, key),
            None => false,
        };
        if same_text(rule.name, key) || other {
            return Some(i);
        }
        i += 1;
    }
    None
}

fn names_of(rules: &Vec<Rule>) -> (r: Vec<String>)
    ensures
        texts(r@) == rule_names(rules_view(rules@), rules@.len() as int),
{
    let mut out: Vec<String> = Vec::new();
    let mut i: usize = 0;
    assert(texts(out@) =~= Seq::<Seq<char>>::empty());
    while i < rules.len()
        invariant
            i <= rules@.len(),
            texts(out@) == rule_names(rules_view(rules@), i as int),
        decreases rules.len() - i,
    {
        let rule = &rules[i];
        let ghost before = texts(out@);
        assert(rules_view(rules@)[i as int] == rule@);
        push_text(&mut out, rule.name.to_owned());
        if let Some(alias) = rule.alias {
            push_text(&mut out, alias.to_owned());
        }
        assert(texts(out@) =~= before + spellings(rule@));
        i += 1;
    }
    out
}

/// Whether a field is spelled by one of the first `n` entries.
fn is_spelled_before(fields: &Fields, rule: &Rule, n: usize) -> (r: bool)
    requires
        n <= fields@.len(),
    ensures
        r == spelled_before(fields@, rule@, n as int),
{
    let mut k: usize = 0;
    while k < n
        invariant
            k <= n <= fields@.len(),
            !spelled_before(fields@, rule@, k as int),
        decreases n - k,
    {
        let key = fields.key_at(k);
        let other = match rule.alias {
            Some(alias) => same_text(alias, key.as_str()),
            None => false,
        };
        if same_text(rule.name, key.as_str()) || other {
            assert(spells(rule@, fields@[k as int].0));
            return true;
        }
        k += 1;
    }
    false
}

/// Why an object cannot be read as a record, if it cannot.
pub fn check_record(fields: &Fields, record: Record) -> (r: Option<String>)
    ensures
        text_view(r) == record_problem(fields@, record),
    decreases fields@, fields@.len() + 1,
{
    let rules = rules(record);
    let mut i: usize = 0;
    while i < fields.len()
        invariant
            i <= fields@.len(),
            rules_view(rules@) == rules_of(record),
            entries_problem(fields@, record, i as int) is None,
        decreases fields@.len() - i,
    {
        let key = fields.key_at(i);
        let value = fields.value_at(i);
        let ghost last = fields@[i as int];
        assert(entries_problem(fields@, record, i + 1) == (match rule_for(
            rules_of(record),
            last.0,
            0,
        ) {
            None => if is_strict(record) {
                Some(unknown_field(last.0, record))
            } else {
                None
            },
            Some(k) => if spelled_before(fields@, rules_of(record)[k], i as int) {
                Some("duplicate field `"@ + rules_of(record)[k].name + "`"@)
            } else {
                value_problem(last.1, rules_of(record)[k].shape)
            },
        }));
        let problem = match find_rule(&rules, key.as_str()) {
            None => {
                if strict(record) {
                    Some(
                        cat4(
                            "unknown field `",
                            key.as_str(),
                            "`, expected ",
                            expect_names(&names_of(&rules)).as_str(),
                        ),
                    )
                } else {
                    None
                }
            },
            Some(k) => {
                let rule = &rules[k];
                assert(rules_of(record)[k as int] == rule@);
                if is_spelled_before(fields, rule, i) {
                    Some(cat3("duplicate field `", rule.name, "`"))
                } else {
                    proof {
                        assert(decreases_to!(fields@ => fields@[i as int]));
                        assert(decreases_to!(fields@[i as int] => fields@[i as int].1));
                    }
                    check_value(value, rule.shape)
                }
            },
        };
        match problem {
            Some(p) => {
                proof {
                    lemma_entries_problem_stays(fields@, record, i + 1);
                }
                return Some(p);
            },
            None => {},
        }
        i += 1;
    }
    let mut k: usize = 0;
    while k < rules.len()
        invariant
            k <= rules@.len(),
            rules_view(rules@) == rules_of(record),
            record_problem(fields@, record) == missing_from(
                fields@,
                rules_of(record),
                k as int,
            ),
        decreases rules.len() - k,
    {
        let rule = &rules[k];
        assert(rules_of(record)[k as int] == rule@);
        if rule.required {
            let present = fields.contains_key(rule.name) || match rule.alias {
                Some(alias) => fields.contains_key(alias),
                None => false,
            };
            if !present {
                return Some(cat3("missing field `", rule.name, "`"));
            }
        }
        k += 1;
    }
    None
}

/// Why a value cannot be read as a record, if it cannot.
pub fn check_value_as(v: &Data, record: Record, name: &str) -> (r: Option<String>)
    ensures
        text_view(r) == record_value_problem(v@, record, name@),
{
    check_record_value(v, record, name)
}

/// The value under either spelling of a field.
pub fn get_at<'a>(fields: &'a Fields, name: &str, alias: &str) -> (r: Option<&'a Data>)
    ensures
        match r {
            Some(v) => at(fields@, name@, alias@) == Some(v@),
            None => at(fields@, name@, alias@) is None,
        },
{
    match fields.get(name) {
        Some(v) => Some(v),
        None => fields.get(alias),
    }
}

/// The text in a field; empty without one.
pub fn get_text(fields: &Fields, name: &str, alias: &str) -> (r: String)
    ensures
        r@ == text_at(fields@, name@, alias@),
{
    match get_at(fields, name, alias) {
        Some(Data::Text(s)) => s.clone(),
        _ => {
            let empty = String::new();
            assert(empty@ =~= Seq::<char>::empty());
            empty
        },
    }
}

/// The name that a field chooses; empty without one.
pub fn get_choice(fields: &Fields, name: &str, alias: &str) -> (r: String)
    ensures
        r@ == choice_at(fields@, name@, alias@),
{
    let empty = String::new();
    assert(empty@ =~= Seq::<char>::empty());
    match get_at(fields, name, alias) {
        Some(Data::Text(s)) => s.clone(),
        Some(Data::Object(e)) => {
            if e.len() == 1 {
                e.key_at(0).clone()
            } else {
                empty
            }
        },
        _ => empty,
    }
}

/// The text in a field, if there is one.
pub fn get_opt_text(fields: &Fields, name: &str, alias: &str) -> (r: Option<String>)
    ensures
        text_view(r) == opt_text_at(fields@, name@, alias@),
{
    match get_at(fields, name, alias) {
        Some(Data::Text(s)) => Some(s.clone()),
        _ => None,
    }
}

/// The object in a field; empty without one.
pub fn get_object(fields: &Fields, name: &str) -> (r: Fields)
    ensures
        r@ == object_at(fields@, name@),
{
    match fields.get(name) {
        Some(Data::Object(e)) => e.copy(),
        _ => Fields::new(),
    }
}

pub open spec fn fields_view(o: Option<Fields>) -> Option<Entries> {
    match o {
        Some(f) => Some(f@),
        None => None,
    }
}

/// The object in a field, if there is one.
pub fn get_opt_object(fields: &Fields, name: &str) -> (r: Option<Fields>)
    ensures
        fields_view(r) == opt_object_at(fields@, name@),
{
    match fields.get(name) {
        Some(Data::Object(e)) => Some(e.copy()),
        _ => None,
    }
}

/// The value in a field; null without one.
pub fn get_value(fields: &Fields, name: &str, alias: &str) -> (r: Data)
    ensures
        r@ == value_at(fields@, name@, alias@),
{
    match get_at(fields, name, alias) {
        Some(v) => v.copy(),
        None => Data::Null,
    }
}

pub open spec fn data_view(o: Option<Data>) -> Option<Json> {
    match o {
        Some(v) => Some(v@),
        None => None,
    }
}

/// The value in a field, if there is one other than null.
pub fn get_opt_value(fields: &Fields, name: &str) -> (r: Option<Data>)
    ensures
        data_view(r) == opt_value_at(fields@, name@),
{
    match fields.get(name) {
        Some(Data::Null) => None,
        Some(v) => Some(v.copy()),
        None => None,
    }
}

/// The strings in an array, in order.
pub fn get_texts(fields: &Fields, name: &str) -> (r: Vec<String>)
    ensures
        texts(r@) == as_texts(items_at(fields@, name@)),
{
    let mut out: Vec<String> = Vec::new();
    if let Some(Data::List(items)) = fields.get(name) {
        let mut i: usize = 0;
        while i < items.len()
            invariant
                i <= items@.len(),
                out@.len() == i,
                forall|k: int|
                    0 <= k < i ==> (#[trigger] out@[k])@ == as_texts(values_view(items@))[k],
            decreases items.len() - i,
        {
            match &items[i] {
                Data::Text(s) => {
                    out.push(s.clone());
                },
                _ => {
                    let empty = String::new();
                    assert(empty@ =~= Seq::<char>::empty());
                    out.push(empty);
                },
            }
            i += 1;
        }
        assert(texts(out@) =~= as_texts(values_view(items@)));
    } else {
        assert(texts(out@) =~= as_texts(items_at(fields@, name@)));
    }
    out
}

/// The number in a field, or another where there is none.
pub fn get_size(fields: &Fields, name: &str, alias: &str, otherwise: usize) -> (r: usize)
    requires
        0 <= int_at(fields@, name@, alias@, otherwise as int) <= usize::MAX,
    ensures
        r == int_at(fields@, name@, alias@, otherwise as int),
{
    match get_at(fields, name, alias) {
        Some(Data::Num(Quantity::Unsigned(n))) => *n as usize,
        Some(Data::Num(Quantity::Negative(n))) => *n as usize,
        _ => otherwise,
    }
}

/// Whether a field holds `true`.
pub fn get_flag(fields: &Fields, name: &str) -> (r: bool)
    ensures
        r == flag_at(fields@, name@),
{
    match fields.get(name) {
        Some(Data::Bool(b)) => *b,
        _ => false,
    }
}

pub open spec fn texts_view(o: Option<Vec<String>>) -> Option<Seq<Seq<char>>> {
    match o {
        Some(v) => Some(texts(v@)),
        None => None,
    }
}

/// The strings in a field that holds an array, if there is one.
pub open spec fn opt_texts_at(entries: Entries, name: Seq<char>) -> Option<Seq<Seq<char>>> {
    match lookup(entries, name) {
        Some(Json::List(items)) => Some(as_texts(items)),
        _ => None,
    }
}

/// The strings in a field that holds an array, if there is one.
pub fn get_opt_texts(fields: &Fields, name: &str) -> (r: Option<Vec<String>>)
    ensures
        texts_view(r) == opt_texts_at(fields@, name@),
{
    match fields.get(name) {
        Some(Data::List(_)) => Some(get_texts(fields, name)),
        _ => None,
    }
}

/// The rule that a key spells is one of the rules.
pub proof fn lemma_rule_for(rules: Seq<RuleView>, key: Seq<char>, i: int)
    ensures
        rule_for(rules, key, i) matches Some(r) ==> i <= r < rules.len() && spells(rules[r], key),
    decreases rules.len() - i,
{
    if 0 <= i < rules.len() && !spells(rules[i], key) {
        lemma_rule_for(rules, key, i + 1);
    }
}

// ── What is written reads back ───────────────────────────────────────────

/// Whether a pair can stand in an object made of some pairs that is read as a
/// record.
pub open spec fn fits(pairs: Entries, record: Record, i: int) -> bool {
    match rule_for(rules_of(record), pairs[i].0, 0) {
        None => !is_strict(record),
        Some(r) => value_problem(pairs[i].1, rules_of(record)[r].shape) is None && !twice(
            object(pairs),
            rules_of(record)[r],
        ),
    }
}

/// Where keys ascend, a field that is spelled twice is there under both
/// spellings.
proof fn lemma_spelled_twice(e: Entries, rule: RuleView, n: int)
    requires
        ascending(e),
        0 <= n < e.len(),
        spells(rule, e[n].0),
        spelled_before(e, rule, n),
    ensures
        twice(e, rule),
{
    let k = choose|k: int| 0 <= k < n && spells(rule, (#[trigger] e[k]).0);
    assert(text_less(e[k].0, e[n].0));
    text_less_irreflexive(e[k].0);
    lemma_lookup_some(e, k);
    lemma_lookup_some(e, n);
}

proof fn lemma_lookup_some(e: Entries, k: int)
    requires
        0 <= k < e.len(),
    ensures
        lookup(e, e[k].0) is Some,
    decreases k,
{
    if e[0].0 != e[k].0 {
        assert(e.skip(1)[k - 1] == e[k]);
        lemma_lookup_some(e.skip(1), k - 1);
    }
}

/// An object made of pairs that fit, with every required field among them, is
/// read as the record.
pub proof fn lemma_record_fits(pairs: Entries, record: Record)
    requires
        forall|i: int| 0 <= i < pairs.len() ==> #[trigger] fits(pairs, record, i),
        missing_from(object(pairs), rules_of(record), 0) is None,
    ensures
        record_problem(object(pairs), record) is None,
{
    lemma_object_entries(pairs);
    lemma_entries_fit(pairs, record, object(pairs).len() as int);
}

proof fn lemma_entries_fit(pairs: Entries, record: Record, n: int)
    requires
        forall|i: int| 0 <= i < pairs.len() ==> #[trigger] fits(pairs, record, i),
        forall|k: int|
            0 <= k < object(pairs).len() ==> exists|i: int|
                0 <= i < pairs.len() && #[trigger] object(pairs)[k] == pairs[i],
        ascending(object(pairs)),
        n <= object(pairs).len(),
    ensures
        entries_problem(object(pairs), record, n) is None,
    decreases n,
{
    if n > 0 {
        lemma_entries_fit(pairs, record, n - 1);
        let i = choose|i: int| 0 <= i < pairs.len() && object(pairs)[n - 1] == pairs[i];
        assert(fits(pairs, record, i));
        if let Some(r) = rule_for(rules_of(record), pairs[i].0, 0) {
            lemma_rule_for(rules_of(record), pairs[i].0, 0);
            if spelled_before(object(pairs), rules_of(record)[r], n - 1) {
                lemma_spelled_twice(object(pairs), rules_of(record)[r], n - 1);
            }
        }
    }
}

/// An array of readable records has no problem.
pub proof fn lemma_records_fit(items: Seq<Json>, record: Record, name: Seq<char>, n: int)
    requires
        forall|i: int|
            0 <= i < items.len() ==> record_value_problem(
                #[trigger] items[i],
                record,
                name,
            ) is None,
    ensures
        records_problem(items, record, name, n) is None,
    decreases n,
{
    if 0 < n <= items.len() {
        lemma_records_fit(items, record, name, n - 1);
    }
}

/// An array of strings has no problem.
pub proof fn lemma_texts_fit(texts: Seq<Seq<char>>, n: int)
    requires
        n <= texts.len(),
    ensures
        texts_problem(text_list(texts)->List_0, n) is None,
    decreases n,
{
    if n > 0 {
        lemma_texts_fit(texts, n - 1);
    }
}

} // verus!
