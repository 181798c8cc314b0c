//! Plan documents: user-authored YAML plans, exposed to the agent as tools and
//! runnable directly.

use crate::pipeline::authoring::{check_step_input, step_input_problems};
use crate::pipeline::body::{ids_of, is_namespaced};
use crate::pipeline::engine::{is_control, is_control_step};
use crate::pipeline::exit::copy_fields_option;
use crate::pipeline::plan::{
    check_step_id, copy_option, copy_plan, id_problem, is_word, plan_view, problem_of,
    read_steps_at, solver_in, steps_in, word, Plan, SolverData, SolverDataView, StepView,
};
use crate::pipeline::record::{
    as_texts, check_value_as, read_entries, read_fields, data_view, fields_view, get_opt_object,
    get_opt_value, get_text, get_texts, items_at, opt_object_at, opt_value_at, record_value_problem,
    text_at, text_view, Record,
};
use crate::pipeline::references::names;
use crate::pipeline::schema::{schema_errors, schema_fault, value_problems};
use crate::template::{referenced_roots, render_message, roots_of};
use crate::text::{
    cat3, cat4, cat5, chars_of, contains_text, copy_texts, ends, join, joined, same_text, texts,
};
use crate::tools::copy_data_option;
use crate::value::{lookup, member, obj2, object, put, Data, Entries, Fields, Json};
use vstd::prelude::*;

verus! {

/// A plan as its file holds it.
#[derive(Debug, PartialEq)]
pub struct PlanDoc {
    /// Tool-name-safe identifier, e.g. `sprint_analysis`.
    pub identifier: String,
    pub name: String,
    pub description: String,
    /// Example queries this plan handles (folded into the tool description).
    pub exemplars: Vec<String>,
    /// MCP server names whose tools the steps use; the plan tool is hidden when
    /// any is missing from the config.
    pub requires_servers: Vec<String>,
    /// JSON Schema for the plan's inputs (referenced as `{{input.x}}`).
    pub input_schema: Option<Data>,
    pub steps: Plan,
    /// LLM synthesis of the results into prose. Optional, see `output`.
    pub solver: Option<SolverData>,
    /// Structured output: a template map rendered against results and emitted
    /// as JSON, with no LLM involved. Mutually exclusive with `solver`; when
    /// both are absent the plan is a silent side-effect plan.
    pub output: Option<Fields>,
    /// Source file, set by the loader.
    pub path: Option<String>,
}

/// Why a document could not be loaded.
#[derive(Debug, PartialEq)]
pub enum DocError {
    Invalid { path: String, message: String },
    Duplicate(String),
    Io { path: String, message: String },
}

/// How an explicit plan finishes.
#[derive(Debug)]
pub enum Finish {
    /// LLM synthesis of the results into prose.
    Solve(SolverData),
    /// Render a template map against the results into structured JSON.
    Render(Fields),
    /// Side-effect plan: run the steps, produce no output.
    Silent,
}

/// The model of a [`PlanDoc`].
pub struct PlanDocView {
    pub identifier: Seq<char>,
    pub name: Seq<char>,
    pub description: Seq<char>,
    pub exemplars: Seq<Seq<char>>,
    pub requires_servers: Seq<Seq<char>>,
    pub input_schema: Option<Json>,
    pub steps: Seq<StepView>,
    pub solver: Option<SolverDataView>,
    pub output: Option<Entries>,
    pub path: Option<Seq<char>>,
}

/// The model of a [`DocError`].
pub enum DocErrorView {
    Invalid { path: Seq<char>, message: Seq<char> },
    Duplicate(Seq<char>),
    Io { path: Seq<char>, message: Seq<char> },
}

/// The model of a [`Finish`].
pub enum FinishView {
    Solve(SolverDataView),
    Render(Entries),
    Silent,
}

pub open spec fn solver_view(o: Option<SolverData>) -> Option<SolverDataView> {
    match o {
        Some(s) => Some(s@),
        None => None,
    }
}

impl PlanDoc {
    pub open spec fn view(&self) -> PlanDocView {
        PlanDocView {
            identifier: self.identifier@,
            name: self.name@,
            description: self.description@,
            exemplars: texts(self.exemplars@),
            requires_servers: texts(self.requires_servers@),
            input_schema: data_view(self.input_schema),
            steps: plan_view(self.steps@),
            solver: solver_view(self.solver),
            output: fields_view(self.output),
            path: text_view(self.path),
        }
    }

    /// A copy of the document.
    pub fn copy(&self) -> (r: PlanDoc)
        ensures
            r@ == self@,
    {
        PlanDoc {
            identifier: self.identifier.clone(),
            name: self.name.clone(),
            description: self.description.clone(),
            exemplars: copy_texts(&self.exemplars),
            requires_servers: copy_texts(&self.requires_servers),
            input_schema: copy_data_option(&self.input_schema),
            steps: copy_plan(&self.steps),
            solver: match &self.solver {
                Some(s) => Some(s.copy()),
                None => None,
            },
            output: copy_fields_option(&self.output),
            path: copy_option(&self.path),
        }
    }
}

impl Clone for PlanDoc {
    fn clone(&self) -> (r: PlanDoc)
        ensures
            r@ == self@,
    {
        self.copy()
    }
}

impl DocError {
    pub open spec fn view(&self) -> DocErrorView {
        match self {
            DocError::Invalid { path, message } => DocErrorView::Invalid {
                path: path@,
                message: message@,
            },
            DocError::Duplicate(id) => DocErrorView::Duplicate(id@),
            DocError::Io { path, message } => DocErrorView::Io { path: path@, message: message@ },
        }
    }
}

impl Finish {
    pub open spec fn view(&self) -> FinishView {
        match self {
            Finish::Solve(s) => FinishView::Solve(s@),
            Finish::Render(f) => FinishView::Render(f@),
            Finish::Silent => FinishView::Silent,
        }
    }
}

pub open spec fn docs_view(s: Seq<PlanDoc>) -> Seq<PlanDocView> {
    Seq::new(s.len(), |i: int| s[i]@)
}

/// What an error of a document says.
pub open spec fn doc_error_text(e: DocErrorView) -> Seq<char> {
    match e {
        DocErrorView::Invalid { path, message } => path + ": "@ + message,
        DocErrorView::Duplicate(id) => "duplicate plan identifier '"@ + id + "'"@,
        DocErrorView::Io { path, message } => "io error reading "@ + path + ": "@ + message,
    }
}

impl DocError {
    /// What the error says.
    pub fn message(&self) -> (r: String)
        ensures
            r@ == doc_error_text(self@),
    {
        match self {
            DocError::Invalid { path, message } => cat3(path.as_str(), ": ", message.as_str()),
            DocError::Duplicate(id) => cat3("duplicate plan identifier '", id.as_str(), "'"),
            DocError::Io { path, message } => cat4(
                "io error reading ",
                path.as_str(),
                ": ",
                message.as_str(),
            ),
        }
    }
}

// ── Reading ──────────────────────────────────────────────────────────────

/// The document that an object is read as.
pub open spec fn doc_fields(e: Entries) -> PlanDocView {
    PlanDocView {
        identifier: text_at(e, "identifier"@, "identifier"@),
        name: text_at(e, "name"@, "name"@),
        description: text_at(e, "description"@, "description"@),
        exemplars: as_texts(items_at(e, "exemplars"@)),
        requires_servers: as_texts(items_at(e, "requires_servers"@)),
        input_schema: opt_value_at(e, "input_schema"@),
        steps: steps_in(items_at(e, "steps"@)),
        solver: match lookup(e, "solver"@) {
            Some(Json::Null) => None,
            Some(s) => Some(solver_in(s)),
            None => None,
        },
        output: opt_object_at(e, "output"@),
        path: None,
    }
}

/// The document that a value is read as, or why it is none.
pub open spec fn doc_of(v: Json) -> Result<PlanDocView, Seq<char>> {
    match record_value_problem(v, Record::Document, "struct PlanDoc"@) {
        Some(problem) => Err(problem),
        None => Ok(doc_fields(read_entries(v, Record::Document))),
    }
}

impl PlanDoc {
    /// Reads a document.
    pub fn from_value(v: &Data) -> (r: Result<PlanDoc, String>)
        ensures
            match r {
                Ok(doc) => doc_of(v@) == Ok::<PlanDocView, Seq<char>>(doc@),
                Err(e) => doc_of(v@) == Err::<PlanDocView, Seq<char>>(e@),
            },
    {
        match check_value_as(v, Record::Document, "struct PlanDoc") {
            Some(problem) => Err(problem),
            None => {
                let fields = &read_fields(v, Record::Document);
                Ok(
                    PlanDoc {
                        identifier: get_text(fields, "identifier", "identifier"),
                        name: get_text(fields, "name", "name"),
                        description: get_text(fields, "description", "description"),
                        exemplars: get_texts(fields, "exemplars"),
                        requires_servers: get_texts(fields, "requires_servers"),
                        input_schema: get_opt_value(fields, "input_schema"),
                        steps: read_steps_at(fields, "steps"),
                        solver: match fields.get("solver") {
                            Some(Data::Null) => None,
                            Some(s) => Some(SolverData::from_value(s)),
                            None => None,
                        },
                        output: get_opt_object(fields, "output"),
                        path: None,
                    },
                )
            },
        }
    }
}

// ── Validation ───────────────────────────────────────────────────────────

/// A letter, a digit, an underscore or a hyphen.
pub open spec fn is_name_char(c: char) -> bool {
    is_word(c) || c == '-'
}

/// Whether a text is safe as part of a tool's name.
pub open spec fn is_tool_safe(s: Seq<char>) -> bool {
    s.len() > 0 && forall|i: int| 0 <= i < s.len() ==> is_name_char(#[trigger] s[i])
}

/// Whether a text is safe as part of a tool's name.
pub fn tool_safe(s: &str) -> (r: bool)
    ensures
        r == is_tool_safe(s@),
{
    let chars = chars_of(s);
    if chars.len() == 0 {
        return false;
    }
    let mut i: usize = 0;
    while i < chars.len()
        invariant
            i <= chars@.len(),
            chars@ == s@,
            forall|k: int| 0 <= k < i ==> is_name_char(#[trigger] chars@[k]),
        decreases chars.len() - i,
    {
        if !(word(chars[i]) || chars[i] == '-') {
            assert(!is_name_char(s@[i as int]));
            return false;
        }
        i += 1;
    }
    true
}

/// The first of some problems.
pub open spec fn first_of(problems: Seq<Seq<char>>) -> Option<Seq<char>> {
    if problems.len() > 0 {
        Some(problems[0])
    } else {
        None
    }
}

/// What is available to a step: the input and the steps before it.
pub open spec fn before_step(steps: Seq<StepView>, i: int) -> Seq<Seq<char>> {
    seq!["input"@] + ids_of(steps.take(i))
}

/// The first problem of a document's step.
pub open spec fn doc_step_problem(steps: Seq<StepView>, i: int) -> Option<Seq<char>> {
    let step = steps[i];
    match id_problem(step.id) {
        Some(p) => Some(p),
        None => if !is_namespaced(step.tool_name) && !is_control(step.tool_name) {
            Some(
                "step "@ + step.id + " tool '"@ + step.tool_name
                    + "' is not a namespaced tool name"@,
            )
        } else {
            first_of(step_input_problems(step, before_step(steps, i), ids_of(steps)))
        },
    }
}

/// The first problem among the steps from `i` on.
pub open spec fn doc_steps_problem(steps: Seq<StepView>, i: int) -> Option<Seq<char>>
    decreases steps.len() - i,
{
    if i < 0 || i >= steps.len() {
        None
    } else {
        match doc_step_problem(steps, i) {
            Some(p) => Some(p),
            None => doc_steps_problem(steps, i + 1),
        }
    }
}

/// Why a text is no template, if it is none.
pub open spec fn template_fault(s: Seq<char>) -> Option<Seq<char>> {
    match roots_of(s) {
        Ok(_) => None,
        Err(e) => Some(render_message(e)),
    }
}

/// The first text among the entries from `i` on that is no template.
pub open spec fn templates_fault(e: Entries, i: int) -> Option<Seq<char>>
    decreases e.len() - i,
{
    if i < 0 || i >= e.len() {
        None
    } else {
        match e[i].1 {
            Json::Text(s) => match template_fault(s) {
                Some(p) => Some(p),
                None => templates_fault(e, i + 1),
            },
            _ => templates_fault(e, i + 1),
        }
    }
}

/// The first problem of how a document finishes.
pub open spec fn finish_problem(doc: PlanDocView) -> Option<Seq<char>> {
    if doc.solver is Some && doc.output is Some {
        Some("`solver` and `output` are mutually exclusive — pick one"@)
    } else {
        match (doc.solver, doc.output) {
            (Some(solver), _) => match templates_fault(solver.data, 0) {
                Some(p) => Some(p),
                None => template_fault(solver.query_to_answer),
            },
            (None, Some(output)) => templates_fault(output, 0),
            (None, None) => None,
        }
    }
}

/// The first problem of a document, as far as it shows without running.
pub open spec fn doc_problem(doc: PlanDocView) -> Option<Seq<char>> {
    if !is_tool_safe(doc.identifier) {
        Some(
            "identifier '"@ + doc.identifier
                + "' must be non-empty and use only [a-zA-Z0-9_-]"@,
        )
    } else if doc.steps.len() == 0 {
        Some("plan has no steps"@)
    } else {
        match doc_steps_problem(doc.steps, 0) {
            Some(p) => Some(p),
            None => finish_problem(doc),
        }
    }
}

/// The ids of a plan's steps.
pub fn plan_ids(plan: &Plan) -> (r: Vec<&str>)
    ensures
        names(r@) == ids_of(plan_view(plan@)),
{
    let mut out: Vec<&str> = Vec::new();
    let mut i: usize = 0;
    while i < plan.len()
        invariant
            i <= plan@.len(),
            out@.len() == i,
            forall|k: int| 0 <= k < i ==> (#[trigger] out@[k])@ == plan@[k].id@,
        decreases plan.len() - i,
    {
        out.push(plan[i].id.as_str());
        i += 1;
    }
    assert(names(out@) =~= ids_of(plan_view(plan@)));
    out
}

fn check_doc_step(plan: &Plan, i: usize, seen: &[&str], all: &[&str]) -> (r: Option<String>)
    requires
        i < plan@.len(),
        names(seen@) == before_step(plan_view(plan@), i as int),
        names(all@) == ids_of(plan_view(plan@)),
    ensures
        text_view(r) == doc_step_problem(plan_view(plan@), i as int),
{
    let step = &plan[i];
    if let Err(problem) = check_step_id(step.id.as_str()) {
        return Some(problem);
    }
    let tool = step.tool_name.as_str();
    if !contains_text(tool, "__") && !same_text(tool, "plan_and_execute") && !is_control_step(
        tool,
    ) {
        return Some(
            cat5("step ", step.id.as_str(), " tool '", tool, "' is not a namespaced tool name"),
        );
    }
    let mut problems: Vec<String> = Vec::new();
    assert(texts(problems@) =~= Seq::<Seq<char>>::empty());
    check_step_input(step, seen, all, &mut problems);
    proof {
        let found = step_input_problems(step@, names(seen@), names(all@));
        assert(texts(problems@) =~= found);
    }
    if problems.len() > 0 {
        assert(texts(problems@)[0] == problems@[0]@);
        Some(problems[0].clone())
    } else {
        None
    }
}

fn check_doc_steps(plan: &Plan) -> (r: Option<String>)
    ensures
        text_view(r) == doc_steps_problem(plan_view(plan@), 0),
{
    let all = plan_ids(plan);
    let mut seen: Vec<&str> = vec!["input"];
    let ghost steps = plan_view(plan@);
    let mut i: usize = 0;
    assert(names(seen@) =~= before_step(steps, 0));
    while i < plan.len()
        invariant
            i <= plan@.len(),
            steps == plan_view(plan@),
            names(all@) == ids_of(steps),
            names(seen@) == before_step(steps, i as int),
            doc_steps_problem(steps, 0) == doc_steps_problem(steps, i as int),
        decreases plan.len() - i,
    {
        if let Some(p) = check_doc_step(plan, i, seen.as_slice(), all.as_slice()) {
            return Some(p);
        }
        let ghost before = seen@;
        seen.push(plan[i].id.as_str());
        proof {
            assert(names(seen@) =~= names(before).push(steps[i as int].id));
            assert(steps.take(i + 1) =~= steps.take(i as int).push(steps[i as int]));
            assert(names(seen@) =~= before_step(steps, i + 1));
        }
        i += 1;
    }
    None
}

fn check_template(s: &str) -> (r: Option<String>)
    ensures
        text_view(r) == template_fault(s@),
{
    match referenced_roots(s) {
        Ok(_) => None,
        Err(e) => Some(e.message()),
    }
}

fn check_template_map(fields: &Fields) -> (r: Option<String>)
    ensures
        text_view(r) == templates_fault(fields@, 0),
{
    let mut i: usize = 0;
    while i < fields.len()
        invariant
            i <= fields@.len(),
            templates_fault(fields@, 0) == templates_fault(fields@, i as int),
        decreases fields@.len() - i,
    {
        if let Data::Text(s) = fields.value_at(i) {
            if let Some(p) = check_template(s.as_str()) {
                return Some(p);
            }
        }
        i += 1;
    }
    None
}

/// Structural validation: identifier shape, step ids, tool names, template
/// syntax, reference ordering, control-step inputs, and how the plan finishes.
pub fn validate_doc(doc: &PlanDoc) -> (r: Result<(), String>)
    ensures
        problem_of(r) == doc_problem(doc@),
{
    if !tool_safe(doc.identifier.as_str()) {
        return Err(
            cat3(
                "identifier '",
                doc.identifier.as_str(),
                "' must be non-empty and use only [a-zA-Z0-9_-]",
            ),
        );
    }
    if doc.steps.len() == 0 {
        return Err("plan has no steps".to_owned());
    }
    if let Some(p) = check_doc_steps(&doc.steps) {
        return Err(p);
    }
    if doc.solver.is_some() && doc.output.is_some() {
        return Err("`solver` and `output` are mutually exclusive — pick one".to_owned());
    }
    if let Some(solver) = &doc.solver {
        if let Some(p) = check_template_map(&solver.data) {
            return Err(p);
        }
        if let Some(p) = check_template(solver.query_to_answer.as_str()) {
            return Err(p);
        }
    }
    if let Some(output) = &doc.output {
        if let Some(p) = check_template_map(output) {
            return Err(p);
        }
    }
    Ok(())
}

// ── Loading ──────────────────────────────────────────────────────────────

/// Whether a file's name has the extension of a plan document, after at least
/// one other character.
pub open spec fn is_plan_file_name(name: Seq<char>) -> bool {
    (ends(name, ".yaml"@) && name.len() > ".yaml"@.len()) || (ends(name, ".yml"@) && name.len()
        > ".yml"@.len())
}

/// Whether a file's name is that of a plan document.
pub fn is_plan_file(name: &str) -> (r: bool)
    ensures
        r == is_plan_file_name(name@),
{
    crate::text::ends_with(name, ".yaml") && chars_of(name).len() > chars_of(".yaml").len()
        || crate::text::ends_with(name, ".yml") && chars_of(name).len() > chars_of(".yml").len()
}

/// How loading a file ends, given the document that its YAML reads as, or why it
/// reads as none.
pub open spec fn loaded(path: Seq<char>, read: Result<PlanDocView, Seq<char>>) -> Result<
    PlanDocView,
    DocErrorView,
> {
    match read {
        Err(message) => Err(DocErrorView::Invalid { path, message }),
        Ok(doc) => {
            let placed = PlanDocView { path: Some(path), ..doc };
            match doc_problem(placed) {
                Some(message) => Err(DocErrorView::Invalid { path, message }),
                None => Ok(placed),
            }
        },
    }
}

pub open spec fn doc_result(r: Result<PlanDoc, DocError>) -> Result<PlanDocView, DocErrorView> {
    match r {
        Ok(doc) => Ok(doc@),
        Err(e) => Err(e@),
    }
}

pub open spec fn read_view(r: Result<PlanDoc, String>) -> Result<PlanDocView, Seq<char>> {
    match r {
        Ok(doc) => Ok(doc@),
        Err(e) => Err(e@),
    }
}

/// Takes in the document that was read from a file.
pub fn load_doc(path: &str, read: Result<PlanDoc, String>) -> (r: Result<PlanDoc, DocError>)
    ensures
        doc_result(r) == loaded(path@, read_view(read)),
{
    let mut doc = match read {
        Ok(doc) => doc,
        Err(message) => {
            return Err(DocError::Invalid { path: path.to_owned(), message });
        },
    };
    doc.path = Some(path.to_owned());
    match validate_doc(&doc) {
        Ok(_) => Ok(doc),
        Err(message) => Err(DocError::Invalid { path: path.to_owned(), message }),
    }
}

/// Whether a document's identifier is taken.
pub open spec fn taken(docs: Seq<PlanDocView>, identifier: Seq<char>) -> bool {
    exists|i: int| 0 <= i < docs.len() && (#[trigger] docs[i]).identifier == identifier
}

/// Adds a document to those loaded before it; no two share an identifier.
pub fn add_doc(docs: &mut Vec<PlanDoc>, doc: PlanDoc) -> (r: Result<(), DocError>)
    ensures
        match r {
            Ok(_) => !taken(docs_view(old(docs)@), doc@.identifier) && docs_view(final(docs)@)
                == docs_view(old(docs)@).push(doc@),
            Err(e) => taken(docs_view(old(docs)@), doc@.identifier) && e@
                == DocErrorView::Duplicate(doc@.identifier) && final(docs)@ == old(docs)@,
        },
{
    match find_doc(docs, doc.identifier.as_str()) {
        Some(_) => Err(DocError::Duplicate(doc.identifier)),
        None => {
            let ghost before = docs@;
            docs.push(doc);
            assert(docs_view(docs@) =~= docs_view(before).push(doc@));
            Ok(())
        },
    }
}

/// Where the first document of an identifier stands, from `i` on.
pub open spec fn doc_at(docs: Seq<PlanDocView>, identifier: Seq<char>, i: int) -> Option<int>
    decreases docs.len() - i,
{
    if i < 0 || i >= docs.len() {
        None
    } else if docs[i].identifier == identifier {
        Some(i)
    } else {
        doc_at(docs, identifier, i + 1)
    }
}

/// Finds the first document of an identifier.
pub fn find_doc(docs: &Vec<PlanDoc>, identifier: &str) -> (r: Option<usize>)
    ensures
        match r {
            Some(i) => i < docs@.len() && doc_at(docs_view(docs@), identifier@, 0) == Some(
                i as int,
            ) && docs@[i as int].identifier@ == identifier@,
            None => doc_at(docs_view(docs@), identifier@, 0) is None,
        },
        r is Some == taken(docs_view(docs@), identifier@),
{
    let mut i: usize = 0;
    while i < docs.len()
        invariant
            i <= docs@.len(),
            doc_at(docs_view(docs@), identifier@, 0) == doc_at(
                docs_view(docs@),
                identifier@,
                i as int,
            ),
            forall|k: int| 0 <= k < i ==> (#[trigger] docs_view(docs@)[k]).identifier != identifier@,
        decreases docs.len() - i,
    {
        if same_text(docs[i].identifier.as_str(), identifier) {
            assert(docs_view(docs@)[i as int].identifier == identifier@);
            return Some(i);
        }
        i += 1;
    }
    None
}

// ── Inputs ───────────────────────────────────────────────────────────────

/// An object with the defaults of the first `n` properties of a schema where it
/// lacks them.
pub open spec fn defaulted(input: Entries, properties: Entries, n: int) -> Entries
    decreases n,
{
    if n <= 0 || n > properties.len() {
        input
    } else {
        let before = defaulted(input, properties, n - 1);
        match member(properties[n - 1].1, "default"@) {
            Some(default) => if lookup(before, properties[n - 1].0) is None {
                put(before, properties[n - 1].0, default)
            } else {
                before
            },
            None => before,
        }
    }
}

/// An input with the defaults of a schema's properties.
pub open spec fn with_defaults(schema: Json, input: Json) -> Json {
    match (member(schema, "properties"@), input) {
        (Some(Json::Object(properties)), Json::Object(entries)) => Json::Object(
            defaulted(entries, properties, properties.len() as int),
        ),
        _ => input,
    }
}

fn filled(schema: &Data, input: Data) -> (r: Data)
    ensures
        r@ == with_defaults(schema@, input@),
{
    match (schema.get("properties"), input) {
        (Some(Data::Object(properties)), Data::Object(fields)) => {
            let ghost entries = fields@;
            let mut fields = fields;
            let mut i: usize = 0;
            while i < properties.len()
                invariant
                    i <= properties@.len(),
                    fields@ == defaulted(entries, properties@, i as int),
                decreases properties@.len() - i,
            {
                let key = properties.key_at(i);
                if let Some(default) = properties.value_at(i).get("default") {
                    if !fields.contains_key(key.as_str()) {
                        fields.insert(key.clone(), default.copy());
                    }
                }
                i += 1;
            }
            Data::Object(fields)
        },
        (_, input) => input,
    }
}

/// Fills in top-level `default` values from a JSON Schema's properties for any
/// keys absent from the input object.
pub fn apply_schema_defaults(schema: &Data, input: &mut Data)
    ensures
        final(input)@ == with_defaults(schema@, old(input)@),
{
    let mut taken = Data::Null;
    std::mem::swap(&mut taken, input);
    *input = filled(schema, taken);
}

/// What is wrong with a plan's input, given what JSON Schema says of it:
/// nothing where the document declares no schema.
pub open spec fn input_findings(
    doc: PlanDocView,
    fault: bool,
    errors: Seq<Seq<char>>,
) -> Seq<Seq<char>> {
    if doc.input_schema is None {
        Seq::empty()
    } else if fault {
        seq!["plan '"@ + doc.identifier + "' has an invalid input_schema"@]
    } else {
        errors
    }
}

/// What is wrong with a plan's input: one message per problem.
pub open spec fn plan_input_problems(doc: PlanDocView, input: Json) -> Seq<Seq<char>> {
    match doc.input_schema {
        None => Seq::empty(),
        Some(schema) => input_findings(
            doc,
            schema_fault(schema) is Some,
            schema_errors(schema, input),
        ),
    }
}

pub open spec fn problems_of(r: Result<(), Vec<String>>) -> Seq<Seq<char>> {
    match r {
        Ok(_) => Seq::empty(),
        Err(problems) => texts(problems@),
    }
}

/// Reports what is wrong with a plan's input, given the errors that JSON Schema
/// finds, or that the schema is none.
pub fn report_input(doc: &PlanDoc, errors: Option<Vec<String>>) -> (r: Result<(), Vec<String>>)
    requires
        doc.input_schema is Some,
    ensures
        problems_of(r) == input_findings(
            doc@,
            errors is None,
            match errors {
                Some(e) => texts(e@),
                None => Seq::empty(),
            },
        ),
        r is Ok == (errors is Some && errors->0@.len() == 0),
{
    match errors {
        Some(errors) => if errors.len() == 0 {
            assert(texts(errors@) =~= Seq::<Seq<char>>::empty());
            Ok(())
        } else {
            Err(errors)
        },
        None => {
            let problems = vec![
                cat3("plan '", doc.identifier.as_str(), "' has an invalid input_schema"),
            ];
            assert(texts(problems@) =~= seq![
                "plan '"@ + doc@.identifier + "' has an invalid input_schema"@,
            ]);
            Err(problems)
        },
    }
}

/// Validates plan inputs against the doc's schema; an error carries one message
/// per problem (missing required field, wrong type, ...).
pub fn validate_input(doc: &PlanDoc, input: &Data) -> (r: Result<(), Vec<String>>)
    ensures
        problems_of(r) == plan_input_problems(doc@, input@),
        r is Ok == (plan_input_problems(doc@, input@).len() == 0),
{
    match &doc.input_schema {
        None => Ok(()),
        Some(schema) => report_input(doc, value_problems(schema, input)),
    }
}

// ── As a tool ────────────────────────────────────────────────────────────

/// How a plan finishes: solve, render structured output, or silence.
pub open spec fn finish_of(doc: PlanDocView) -> FinishView {
    match (doc.solver, doc.output) {
        (Some(solver), _) => FinishView::Solve(solver),
        (None, Some(output)) => FinishView::Render(output),
        (None, None) => FinishView::Silent,
    }
}

/// A plan's description as a tool.
pub open spec fn description_of(doc: PlanDocView) -> Seq<char> {
    let base = doc.name + " — "@ + doc.description;
    if doc.exemplars.len() == 0 {
        base
    } else {
        base + "\nExample queries this handles: "@ + joined(doc.exemplars, "; "@)
    }
}

/// A plan's input schema as a tool.
pub open spec fn input_schema_of(doc: PlanDocView) -> Json {
    match doc.input_schema {
        Some(schema) => schema,
        None => Json::Object(
            object(
                seq![
                    ("type"@, Json::Text("object"@)),
                    ("properties"@, Json::Object(Entries::empty())),
                ],
            ),
        ),
    }
}

impl PlanDoc {
    /// How the plan finishes: solve, render structured output, or silence.
    pub fn finish(&self) -> (r: Finish)
        ensures
            r@ == finish_of(self@),
    {
        match (&self.solver, &self.output) {
            (Some(solver), _) => Finish::Solve(solver.copy()),
            (None, Some(output)) => Finish::Render(output.copy()),
            (None, None) => Finish::Silent,
        }
    }

    /// The tool description shown to the agent and planner.
    pub fn tool_description(&self) -> (r: String)
        ensures
            r@ == description_of(self@),
    {
        let base = cat3(self.name.as_str(), " — ", self.description.as_str());
        if self.exemplars.len() == 0 {
            base
        } else {
            cat3(
                base.as_str(),
                "\nExample queries this handles: ",
                join(&self.exemplars, "; ").as_str(),
            )
        }
    }

    /// The input schema exposed on the plan tool.
    pub fn tool_input_schema(&self) -> (r: Data)
        ensures
            r@ == input_schema_of(self@),
    {
        match &self.input_schema {
            Some(schema) => schema.copy(),
            None => obj2(
                "type",
                Data::text("object"),
                "properties",
                Data::Object(Fields::new()),
            ),
        }
    }
}

} // verus!
