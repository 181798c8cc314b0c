//! Plan data structures: the planner's output format. Field names are
//! camelCase because they are prompt surface: the planner is taught this
//! schema and examples of it.

use crate::pipeline::record::{
    check_value_as, fits, get_value, read_entries, read_fields, value_at, get_object, get_opt_text,
    get_text, items_at, lemma_record_fits, lemma_records_fit, missing_from, object_at, opt_text_at,
    record_value_problem, records_problem, rule_for, text_at, text_view, Record,
};
use crate::text::{
    all_digits, begins, cat3, cat5, chars_of, digits_only, joined, lists, number_of, parse_digits,
    slice_chars, starts_with, texts,
};
use crate::value::{
    an_object_holds_its_pairs, an_object_holds_no_other_key, distinct, obj2, obj3, obj4, object,
    put, values_view, Data, Entries, Fields, Json,
};
use vstd::prelude::*;

verus! {

/// One step of a plan.
#[derive(Debug, PartialEq)]
pub struct Step {
    /// Unique identifier templates reference the step by: "E0", "E1", ... or a
    /// descriptive name like "fetch_pr_meta". See [`check_step_id`].
    pub id: String,
    /// Exact tool name from the tool list, e.g. "linear__search_issues".
    pub tool_name: String,
    /// Tool input. String values may reference earlier steps with templates
    /// like {{E0.values.0.id}}.
    pub input: Fields,
    /// Why this step exists and what it should produce.
    pub reasoning: Option<String>,
}

pub type Plan = Vec<Step>;

/// What the solver is asked, and the data it answers from.
#[derive(Debug, PartialEq)]
pub struct SolverData {
    /// The question the solver must answer; always includes the user's
    /// original task.
    pub query_to_answer: String,
    /// Extra system-prompt guidance for the solver.
    pub system_prompt: Option<String>,
    /// Data collected from steps, as templates: {"issues": "{{E1}}"}.
    pub data: Fields,
}

/// What the planner produces per attempt.
#[derive(Debug, PartialEq)]
pub struct PlannerOutput {
    pub plan: Plan,
    pub solver_data: SolverData,
}

/// The model of a [`Step`].
pub struct StepView {
    pub id: Seq<char>,
    pub tool_name: Seq<char>,
    pub input: Entries,
    pub reasoning: Option<Seq<char>>,
}

/// The model of [`SolverData`].
pub struct SolverDataView {
    pub query_to_answer: Seq<char>,
    pub system_prompt: Option<Seq<char>>,
    pub data: Entries,
}

/// The model of a [`PlannerOutput`].
pub struct PlannerOutputView {
    pub plan: Seq<StepView>,
    pub solver_data: SolverDataView,
}

impl Step {
    pub open spec fn view(&self) -> StepView {
        StepView {
            id: self.id@,
            tool_name: self.tool_name@,
            input: self.input@,
            reasoning: text_view(self.reasoning),
        }
    }

    /// A copy of the step.
    pub fn copy(&self) -> (r: Step)
        ensures
            r@ == self@,
    {
        Step {
            id: self.id.clone(),
            tool_name: self.tool_name.clone(),
            input: self.input.copy(),
            reasoning: copy_option(&self.reasoning),
        }
    }
}

impl Clone for Step {
    fn clone(&self) -> (r: Step)
        ensures
            r@ == self@,
    {
        self.copy()
    }
}

impl SolverData {
    pub open spec fn view(&self) -> SolverDataView {
        SolverDataView {
            query_to_answer: self.query_to_answer@,
            system_prompt: text_view(self.system_prompt),
            data: self.data@,
        }
    }

    /// A copy of the solver data.
    pub fn copy(&self) -> (r: SolverData)
        ensures
            r@ == self@,
    {
        SolverData {
            query_to_answer: self.query_to_answer.clone(),
            system_prompt: copy_option(&self.system_prompt),
            data: self.data.copy(),
        }
    }
}

impl Clone for SolverData {
    fn clone(&self) -> (r: SolverData)
        ensures
            r@ == self@,
    {
        self.copy()
    }
}

/// Solver data without a question, guidance or data.
pub open spec fn empty_solver_data() -> SolverDataView {
    SolverDataView {
        query_to_answer: Seq::empty(),
        system_prompt: None,
        data: Entries::empty(),
    }
}

impl Default for SolverData {
    fn default() -> (r: SolverData)
        ensures
            r@ == empty_solver_data(),
    {
        let query_to_answer = String::new();
        assert(query_to_answer@ =~= Seq::<char>::empty());
        SolverData { query_to_answer, system_prompt: None, data: Fields::new() }
    }
}

impl PlannerOutput {
    pub open spec fn view(&self) -> PlannerOutputView {
        PlannerOutputView { plan: plan_view(self.plan@), solver_data: self.solver_data@ }
    }
}

pub open spec fn plan_view(s: Seq<Step>) -> Seq<StepView> {
    Seq::new(s.len(), |i: int| s[i]@)
}

/// A copy of an optional text.
pub fn copy_option(o: &Option<String>) -> (r: Option<String>)
    ensures
        text_view(r) == text_view(*o),
{
    match o {
        Some(s) => Some(s.clone()),
        None => None,
    }
}

/// A copy of a plan.
pub fn copy_plan(plan: &Plan) -> (r: Plan)
    ensures
        plan_view(r@) == plan_view(plan@),
{
    let mut out: Plan = Vec::new();
    let mut i: usize = 0;
    while i < plan.len()
        invariant
            i <= plan@.len(),
            out@.len() == i,
            forall|k: int| 0 <= k < i ==> (#[trigger] out@[k])@ == plan@[k]@,
        decreases plan.len() - i,
    {
        out.push(plan[i].copy());
        i += 1;
    }
    assert(plan_view(out@) =~= plan_view(plan@));
    out
}

// ── Reading and writing plans ────────────────────────────────────────────

/// The step that an object with all its fields in order is read as.
pub open spec fn step_fields(e: Entries) -> StepView {
    StepView {
        id: text_at(e, "id"@, "id"@),
        tool_name: text_at(e, "toolName"@, "tool_name"@),
        input: object_at(e, "input"@),
        reasoning: opt_text_at(e, "reasoning"@, "reasoning"@),
    }
}

/// The step that a value is read as, or why it is none.
pub open spec fn step_of(v: Json) -> Result<StepView, Seq<char>> {
    match record_value_problem(v, Record::Step, "struct Step"@) {
        Some(problem) => Err(problem),
        None => Ok(step_fields(read_entries(v, Record::Step))),
    }
}

/// The entries of an object; none for any other value.
pub open spec fn entries_of(v: Json) -> Entries {
    match v {
        Json::Object(e) => e,
        _ => Entries::empty(),
    }
}

/// The steps in an array of objects.
pub open spec fn steps_in(items: Seq<Json>) -> Seq<StepView> {
    Seq::new(items.len(), |i: int| step_fields(read_entries(items[i], Record::Step)))
}

/// The solver data that an object is read as.
pub open spec fn solver_fields(e: Entries) -> SolverDataView {
    SolverDataView {
        query_to_answer: text_at(e, "queryToAnswer"@, "query_to_answer"@),
        system_prompt: opt_text_at(e, "systemPrompt"@, "system_prompt"@),
        data: object_at(e, "data"@),
    }
}

/// The solver data in a value.
pub open spec fn solver_in(v: Json) -> SolverDataView {
    solver_fields(read_entries(v, Record::Solver))
}

/// The planner output that a value is read as, or why it is none.
pub open spec fn planner_output_of(v: Json) -> Result<PlannerOutputView, Seq<char>> {
    match record_value_problem(v, Record::PlannerOutput, "struct PlannerOutput"@) {
        Some(problem) => Err(problem),
        None => Ok(
            PlannerOutputView {
                plan: steps_in(items_at(read_entries(v, Record::PlannerOutput), "plan"@)),
                solver_data: solver_in(
                    value_at(
                        read_entries(v, Record::PlannerOutput),
                        "solverData"@,
                        "solverData"@,
                    ),
                ),
            },
        ),
    }
}

/// A step as the planner writes it.
pub open spec fn step_json(s: StepView) -> Json {
    Json::Object(
        object(
            seq![
                ("id"@, Json::Text(s.id)),
                ("toolName"@, Json::Text(s.tool_name)),
                ("input"@, Json::Object(s.input)),
                ("reasoning"@, text_or_null(s.reasoning)),
            ],
        ),
    )
}

pub open spec fn text_or_null(o: Option<Seq<char>>) -> Json {
    match o {
        Some(s) => Json::Text(s),
        None => Json::Null,
    }
}

/// A plan as the planner writes it.
pub open spec fn plan_json(plan: Seq<StepView>) -> Json {
    Json::List(Seq::new(plan.len(), |i: int| step_json(plan[i])))
}

/// Solver data as the planner writes it.
pub open spec fn solver_json(s: SolverDataView) -> Json {
    Json::Object(
        object(
            seq![
                ("queryToAnswer"@, Json::Text(s.query_to_answer)),
                ("systemPrompt"@, text_or_null(s.system_prompt)),
                ("data"@, Json::Object(s.data)),
            ],
        ),
    )
}

/// Planner output as the planner writes it.
pub open spec fn planner_json(o: PlannerOutputView) -> Json {
    Json::Object(
        object(seq![("plan"@, plan_json(o.plan)), ("solverData"@, solver_json(o.solver_data))]),
    )
}

/// The step that an object with all its fields in order is read as.
pub fn read_step_fields(fields: &Fields) -> (r: Step)
    ensures
        r@ == step_fields(fields@),
{
    Step {
        id: get_text(fields, "id", "id"),
        tool_name: get_text(fields, "toolName", "tool_name"),
        input: get_object(fields, "input"),
        reasoning: get_opt_text(fields, "reasoning", "reasoning"),
    }
}

/// An optional text as a value.
pub fn text_or_null_data(o: &Option<String>) -> (r: Data)
    ensures
        r@ == text_or_null(text_view(*o)),
{
    match o {
        Some(s) => Data::Text(s.clone()),
        None => Data::Null,
    }
}

impl Step {
    /// Reads a step.
    pub fn from_value(v: &Data) -> (r: Result<Step, String>)
        ensures
            match r {
                Ok(s) => step_of(v@) == Ok::<StepView, Seq<char>>(s@),
                Err(e) => step_of(v@) == Err::<StepView, Seq<char>>(e@),
            },
    {
        match check_value_as(v, Record::Step, "struct Step") {
            Some(problem) => Err(problem),
            None => Ok(read_step_fields(&read_fields(v, Record::Step))),
        }
    }

    /// The step as the planner writes it.
    pub fn to_value(&self) -> (r: Data)
        ensures
            r@ == step_json(self@),
    {
        obj4(
            "id",
            Data::Text(self.id.clone()),
            "toolName",
            Data::Text(self.tool_name.clone()),
            "input",
            Data::Object(self.input.copy()),
            "reasoning",
            text_or_null_data(&self.reasoning),
        )
    }
}

/// The steps in an array of objects.
pub fn read_steps(items: &Vec<Data>) -> (r: Plan)
    ensures
        plan_view(r@) == steps_in(values_view(items@)),
{
    let mut out: Plan = Vec::new();
    let mut i: usize = 0;
    while i < items.len()
        invariant
            i <= items@.len(),
            out@.len() == i,
            forall|k: int|
                0 <= k < i ==> (#[trigger] out@[k])@ == step_fields(read_entries(items@[k]@, Record::Step)),
        decreases items.len() - i,
    {
        out.push(read_step_fields(&read_fields(&items[i], Record::Step)));
        i += 1;
    }
    assert(plan_view(out@) =~= steps_in(values_view(items@)));
    out
}

/// The steps in a field that holds an array.
pub fn read_steps_at(fields: &Fields, name: &str) -> (r: Plan)
    ensures
        plan_view(r@) == steps_in(items_at(fields@, name@)),
{
    match fields.get(name) {
        Some(Data::List(items)) => read_steps(items),
        _ => {
            let out: Plan = Vec::new();
            assert(plan_view(out@) =~= steps_in(items_at(fields@, name@)));
            out
        },
    }
}

/// A plan as the planner writes it.
pub fn plan_to_value(plan: &Plan) -> (r: Data)
    ensures
        r@ == plan_json(plan_view(plan@)),
{
    let mut out: Vec<Data> = Vec::new();
    let mut i: usize = 0;
    while i < plan.len()
        invariant
            i <= plan@.len(),
            out@.len() == i,
            forall|k: int| 0 <= k < i ==> (#[trigger] out@[k])@ == step_json(plan@[k]@),
        decreases plan.len() - i,
    {
        out.push(plan[i].to_value());
        i += 1;
    }
    assert(values_view(out@) =~= Seq::new(
        plan_view(plan@).len(),
        |i: int| step_json(plan_view(plan@)[i]),
    ));
    Data::List(out)
}

impl SolverData {
    /// The solver data in an object.
    pub fn from_fields(fields: &Fields) -> (r: SolverData)
        ensures
            r@ == solver_fields(fields@),
    {
        SolverData {
            query_to_answer: get_text(fields, "queryToAnswer", "query_to_answer"),
            system_prompt: get_opt_text(fields, "systemPrompt", "system_prompt"),
            data: get_object(fields, "data"),
        }
    }

    /// The solver data in a value.
    pub fn from_value(v: &Data) -> (r: SolverData)
        ensures
            r@ == solver_in(v@),
    {
        SolverData::from_fields(&read_fields(v, Record::Solver))
    }

    /// The solver data as the planner writes it.
    pub fn to_value(&self) -> (r: Data)
        ensures
            r@ == solver_json(self@),
    {
        obj3(
            "queryToAnswer",
            Data::Text(self.query_to_answer.clone()),
            "systemPrompt",
            text_or_null_data(&self.system_prompt),
            "data",
            Data::Object(self.data.copy()),
        )
    }
}

impl PlannerOutput {
    /// Reads what a planner produced.
    pub fn from_value(v: &Data) -> (r: Result<PlannerOutput, String>)
        ensures
            match r {
                Ok(o) => planner_output_of(v@) == Ok::<PlannerOutputView, Seq<char>>(o@),
                Err(e) => planner_output_of(v@) == Err::<PlannerOutputView, Seq<char>>(e@),
            },
    {
        match check_value_as(v, Record::PlannerOutput, "struct PlannerOutput") {
            Some(problem) => Err(problem),
            None => {
                let fields = &read_fields(v, Record::PlannerOutput);
                Ok(
                    PlannerOutput {
                        plan: read_steps_at(fields, "plan"),
                        solver_data: SolverData::from_value(&get_value(fields, "solverData", "solverData")),
                    },
                )
            },
        }
    }
}

impl PlannerOutput {
    /// The output as the planner writes it.
    pub fn to_value(&self) -> (r: Data)
        ensures
            r@ == planner_json(self@),
    {
        obj2("plan", plan_to_value(&self.plan), "solverData", self.solver_data.to_value())
    }
}

// ── Step ids and tool names ──────────────────────────────────────────────

/// The digits of a text after an optional plus sign.
pub open spec fn unsigned_digits(s: Seq<char>) -> Seq<char> {
    if s.len() > 0 && s[0] == '+' {
        s.skip(1)
    } else {
        s
    }
}

/// The number in an id of the E sequence.
pub open spec fn number_in_id(id: Seq<char>) -> Option<int> {
    if id.len() > 0 && id[0] == 'E' {
        let digits = unsigned_digits(id.skip(1));
        if digits.len() > 0 && all_digits(digits) && number_of(digits) <= u32::MAX {
            Some(number_of(digits) as int)
        } else {
            None
        }
    } else {
        None
    }
}

/// The numeric part of an E-sequence step id ("E2" → 2). The E sequence is the
/// planner's convention, not a requirement, see [`check_step_id`]; this exists
/// so replans can mint fresh E ids past the executed ones.
pub fn step_number(id: &str) -> (r: Option<u32>)
    ensures
        match r {
            Some(n) => number_in_id(id@) == Some(n as int),
            None => number_in_id(id@) is None,
        },
{
    let chars = chars_of(id);
    if chars.len() == 0 || chars[0] != 'E' {
        return None;
    }
    let start: usize = if chars.len() > 1 && chars[1] == '+' { 2 } else { 1 };
    let digits = slice_chars(&chars, start, chars.len());
    assert(digits@ =~= unsigned_digits(id@.skip(1)));
    if digits.len() == 0 || !digits_only(&digits) {
        return None;
    }
    match parse_digits(&digits) {
        Some(n) => if n <= u32::MAX as usize {
            Some(n as u32)
        } else {
            None
        },
        None => None,
    }
}

/// Roots with fixed meanings in templates (`input`, the map/reduce
/// pseudo-roots) plus `length`, which the path grammar claims as an operator.
/// Step ids may not shadow them.
pub open spec fn reserved_root_names() -> Seq<Seq<char>> {
    seq!["input"@, "item"@, "index"@, "accumulator"@, "length"@]
}

/// The reserved template roots.
pub fn reserved_roots() -> (r: Vec<String>)
    ensures
        texts(r@) == reserved_root_names(),
{
    let r = vec![
        "input".to_owned(),
        "item".to_owned(),
        "index".to_owned(),
        "accumulator".to_owned(),
        "length".to_owned(),
    ];
    assert(texts(r@) =~= reserved_root_names());
    r
}

pub open spec fn is_letter(c: char) -> bool {
    'a' <= c <= 'z' || 'A' <= c <= 'Z'
}

/// A letter, a digit or an underscore.
pub open spec fn is_word(c: char) -> bool {
    is_letter(c) || '0' <= c <= '9' || c == '_'
}

/// Whether a text is an identifier: letters, digits and underscores, at least
/// one, not a digit first.
pub open spec fn is_identifier(id: Seq<char>) -> bool {
    &&& id.len() > 0
    &&& is_letter(id[0]) || id[0] == '_'
    &&& forall|i: int| 0 <= i < id.len() ==> is_word(#[trigger] id[i])
}

/// Why a text cannot be a step id, if it cannot.
pub open spec fn id_problem(id: Seq<char>) -> Option<Seq<char>> {
    if !is_identifier(id) {
        Some(
            "step id '"@ + id
                + "' must be an identifier — letters, digits, or _, not starting with a digit"@,
        )
    } else if reserved_root_names().contains(id) {
        Some(
            "step id '"@ + id + "' shadows a reserved template root ("@ + joined(
                reserved_root_names(),
                ", "@,
            ) + ")"@,
        )
    } else {
        None
    }
}

/// A result without a value on success, as its error.
pub open spec fn problem_of(r: Result<(), String>) -> Option<Seq<char>> {
    match r {
        Ok(_) => None,
        Err(e) => Some(e@),
    }
}

/// Whether a character is a letter.
pub fn letter(c: char) -> (r: bool)
    ensures
        r == is_letter(c),
{
    ('a' <= c && c <= 'z') || ('A' <= c && c <= 'Z')
}

/// Whether a character is a letter, a digit or an underscore.
pub fn word(c: char) -> (r: bool)
    ensures
        r == is_word(c),
{
    letter(c) || ('0' <= c && c <= '9') || c == '_'
}

/// Whether a text is an identifier.
pub fn identifier(id: &str) -> (r: bool)
    ensures
        r == is_identifier(id@),
{
    let chars = chars_of(id);
    if chars.len() == 0 || !(letter(chars[0]) || chars[0] == '_') {
        return false;
    }
    let mut i: usize = 0;
    while i < chars.len()
        invariant
            i <= chars@.len(),
            chars@ == id@,
            forall|k: int| 0 <= k < i ==> is_word(#[trigger] chars@[k]),
        decreases chars.len() - i,
    {
        if !word(chars[i]) {
            assert(!is_word(id@[i as int]));
            return false;
        }
        i += 1;
    }
    true
}

/// A legal step id: any identifier templates can reference as a root, letters,
/// digits, and `_`, not starting with a digit, that doesn't shadow a reserved
/// root. `E0`-style ids and descriptive names (`fetch_pr_meta`) are equally
/// valid; uniqueness is checked per plan.
pub fn check_step_id(id: &str) -> (r: Result<(), String>)
    ensures
        problem_of(r) == id_problem(id@),
{
    if !identifier(id) {
        return Err(
            cat3(
                "step id '",
                id,
                "' must be an identifier — letters, digits, or _, not starting with a digit",
            ),
        );
    }
    let reserved = reserved_roots();
    if lists(&reserved, id) {
        return Err(
            cat5(
                "step id '",
                id,
                "' shadows a reserved template root (",
                crate::text::join(&reserved, ", ").as_str(),
                ")",
            ),
        );
    }
    Ok(())
}

/// Why a step's tool name can never resolve in the plan runtime: the tools of
/// the workbench exist only inside the workbench's own chat agent.
pub open spec fn workbench_problem(tool: Seq<char>) -> Option<Seq<char>> {
    if begins(tool, "workbench__"@) {
        Some(
            "tool '"@ + tool
                + "': workbench__* tools belong to the workbench TUI agent and are not available in the plan runtime — plans cannot call them"@,
        )
    } else {
        None
    }
}

/// Why a step's tool name can never resolve in the plan runtime, if so; callers
/// prepend their own step or body context. This is the static, context-free
/// tier of tool-name checking; resolution against what is actually loadable
/// lives in [`super::catalog`].
pub fn workbench_tool_problem(tool: &str) -> (r: Option<String>)
    ensures
        text_view(r) == workbench_problem(tool@),
{
    if starts_with(tool, "workbench__") {
        Some(
            cat3(
                "tool '",
                tool,
                "': workbench__* tools belong to the workbench TUI agent and are not available in the plan runtime — plans cannot call them",
            ),
        )
    } else {
        None
    }
}

// ── Default solver data ──────────────────────────────────────────────────

/// What a step's result is called in the solver's data.
pub open spec fn solver_label(step: StepView) -> Seq<char> {
    match step.reasoning {
        Some(reason) => step.id + " "@ + reason,
        None => step.id,
    }
}

/// A template for a root.
pub open spec fn reference(root: Seq<char>) -> Seq<char> {
    "{{"@ + root + "}}"@
}

/// Solver data that maps every step's result in.
pub open spec fn whole_plan_data(plan: Seq<StepView>) -> Entries
    decreases plan.len(),
{
    if plan.len() == 0 {
        Entries::empty()
    } else {
        put(
            whole_plan_data(plan.drop_last()),
            solver_label(plan.last()),
            Json::Text(reference(plan.last().id)),
        )
    }
}

/// Default solver data mapping every step result in, used when the planner
/// leaves `data` empty.
pub fn default_solver_data(plan: &Plan, data: &mut Fields)
    ensures
        final(data)@ == (if old(data)@.len() > 0 {
            old(data)@
        } else {
            whole_plan_data(plan_view(plan@))
        }),
{
    if data.len() > 0 {
        return;
    }
    assert(data@ =~= Entries::empty());
    let ghost steps = plan_view(plan@);
    let mut i: usize = 0;
    while i < plan.len()
        invariant
            i <= plan@.len(),
            steps == plan_view(plan@),
            data@ == whole_plan_data(steps.take(i as int)),
        decreases plan.len() - i,
    {
        let step = &plan[i];
        let label = match &step.reasoning {
            Some(reason) => cat3(step.id.as_str(), " ", reason.as_str()),
            None => step.id.clone(),
        };
        proof {
            assert(steps.take(i + 1).drop_last() =~= steps.take(i as int));
            assert(steps.take(i + 1).last() == step@);
        }
        data.insert(label, Data::Text(cat3("{{", step.id.as_str(), "}}")));
        i += 1;
    }
    assert(steps.take(i as int) =~= steps);
}

// ── What is written reads back ───────────────────────────────────────────

/// A step reads back as it was written.
pub proof fn a_step_reads_back(s: StepView)
    ensures
        step_of(step_json(s)) == Ok::<StepView, Seq<char>>(s),
{
    let pairs: Entries = seq![
        ("id"@, Json::Text(s.id)),
        ("toolName"@, Json::Text(s.tool_name)),
        ("input"@, Json::Object(s.input)),
        ("reasoning"@, text_or_null(s.reasoning)),
    ];
    let e = object(pairs);
    reveal_strlit("id");
    reveal_strlit("toolName");
    reveal_strlit("tool_name");
    reveal_strlit("input");
    reveal_strlit("reasoning");
    assert("tool_name"@[0] != "reasoning"@[0]);
    assert(pairs[0].0 == "id"@ && pairs[1].0 == "toolName"@ && pairs[2].0 == "input"@ && pairs[3].0
        == "reasoning"@);
    assert(distinct(pairs));
    an_object_holds_its_pairs(pairs, 0);
    an_object_holds_its_pairs(pairs, 1);
    an_object_holds_its_pairs(pairs, 2);
    an_object_holds_its_pairs(pairs, 3);
    an_object_holds_no_other_key(pairs, "tool_name"@);
    reveal_with_fuel(rule_for, 5);
    reveal_with_fuel(missing_from, 5);
    assert(fits(pairs, Record::Step, 0));
    assert(fits(pairs, Record::Step, 1));
    assert(fits(pairs, Record::Step, 2));
    assert(fits(pairs, Record::Step, 3));
    lemma_record_fits(pairs, Record::Step);
}

/// Solver data reads back as it was written.
pub proof fn solver_data_reads_back(s: SolverDataView)
    ensures
        record_value_problem(solver_json(s), Record::Solver, "struct SolverData"@) is None,
        solver_in(solver_json(s)) == s,
{
    let pairs: Entries = seq![
        ("queryToAnswer"@, Json::Text(s.query_to_answer)),
        ("systemPrompt"@, text_or_null(s.system_prompt)),
        ("data"@, Json::Object(s.data)),
    ];
    reveal_strlit("queryToAnswer");
    reveal_strlit("query_to_answer");
    reveal_strlit("systemPrompt");
    reveal_strlit("system_prompt");
    reveal_strlit("data");
    assert("queryToAnswer"@[0] != "system_prompt"@[0]);
    assert(pairs[0].0 == "queryToAnswer"@ && pairs[1].0 == "systemPrompt"@ && pairs[2].0
        == "data"@);
    assert(distinct(pairs));
    an_object_holds_its_pairs(pairs, 0);
    an_object_holds_its_pairs(pairs, 1);
    an_object_holds_its_pairs(pairs, 2);
    an_object_holds_no_other_key(pairs, "query_to_answer"@);
    an_object_holds_no_other_key(pairs, "system_prompt"@);
    reveal_with_fuel(rule_for, 4);
    reveal_with_fuel(missing_from, 4);
    assert(fits(pairs, Record::Solver, 0));
    assert(fits(pairs, Record::Solver, 1));
    assert(fits(pairs, Record::Solver, 2));
    lemma_record_fits(pairs, Record::Solver);
}

/// A plan reads back as it was written.
pub proof fn a_plan_reads_back(plan: Seq<StepView>)
    ensures
        records_problem(
            plan_json(plan)->List_0,
            Record::Step,
            "struct Step"@,
            plan.len() as int,
        ) is None,
        steps_in(plan_json(plan)->List_0) == plan,
{
    let items = plan_json(plan)->List_0;
    assert forall|i: int| 0 <= i < items.len() implies record_value_problem(
        #[trigger] items[i],
        Record::Step,
        "struct Step"@,
    ) is None && step_fields(read_entries(items[i], Record::Step)) == plan[i] by {
        a_step_reads_back(plan[i]);
    }
    lemma_records_fit(items, Record::Step, "struct Step"@, plan.len() as int);
    assert(steps_in(items) =~= plan);
}

/// A planner's output reads back as it was written.
pub proof fn planner_output_reads_back(o: PlannerOutputView)
    ensures
        planner_output_of(planner_json(o)) == Ok::<PlannerOutputView, Seq<char>>(o),
{
    let pairs: Entries = seq![
        ("plan"@, plan_json(o.plan)),
        ("solverData"@, solver_json(o.solver_data)),
    ];
    reveal_strlit("plan");
    reveal_strlit("solverData");
    assert(pairs[0].0 == "plan"@ && pairs[1].0 == "solverData"@);
    assert(distinct(pairs));
    an_object_holds_its_pairs(pairs, 0);
    an_object_holds_its_pairs(pairs, 1);
    a_plan_reads_back(o.plan);
    solver_data_reads_back(o.solver_data);
    reveal_with_fuel(rule_for, 3);
    reveal_with_fuel(missing_from, 3);
    assert(fits(pairs, Record::PlannerOutput, 0));
    assert(fits(pairs, Record::PlannerOutput, 1));
    lemma_record_fits(pairs, Record::PlannerOutput);
}

} // verus!
