//! Planner and solver prompts.

use crate::json::{compact, compact_text};
use crate::pipeline::gate::slice_view;
use crate::store::{shapes_view, ToolShape, ToolShapeView};
use crate::text::{cat2, cat3, cat4, cat5, cat6, cat7, decimal_usize, numeral, same_text};
use crate::tools::{tools_view, ToolDef, ToolDefView};
use crate::value::{object, put, Data, Entries, Fields, Json};
use vstd::prelude::*;

verus! {

/// The template dialect, as it is taught to planners.
pub const TEMPLATING_RULES: &'static str = "- A template is written {{path}} and is replaced by the value at that path before the step runs.\n- The first part of a path is a root: the id of an earlier step, or `input` for the plan's inputs. Later parts are object keys or array positions: {{E0.values.0.id}}.\n- A string that is exactly one template keeps the value's type: \"{{E0.values}}\" stays an array. A template inside other text is inserted as text.\n- {{path.length}} is the number of items of an array or characters of a string.\n- {{#path}}...{{/path}} repeats its body for every item of an array; inside it, bare keys refer to the item, and {{@index}}, {{@first}} and {{@last}} to its place. {{^path}}...{{/path}} renders where there is nothing.\n- A path that does not exist is an error: reference only fields that a tool's output shape shows.\n- Only steps that come earlier in the plan can be referenced.";

/// Control-step usage rules, shared verbatim by everything that teaches plan
/// authoring so that the texts cannot drift.
pub const CONTROL_STEP_RULES: &'static str = "- `exit` ends the plan early with a success or error state. When the task is a check or assertion, end each failing condition in an `exit` gated by `when` or `infer` instead of leaving the verdict to prose.\n- `decide` runs one of two branches. Gate it with `if` for a condition that can be computed, and with `infer` only for a question that needs judgment.\n- `filter` narrows a list to the items that pass a per-item gate and keeps what it dropped.\n- `map` runs a body once per item of a list. When every item of a list needs inference, prefer `map` with one per-item inference call over a single call that is handed the whole list.\n- `reduce` folds a list into one value, left to right, through `{{accumulator}}`.\n- `agent` runs a bounded tool-calling loop: use it when which tool to call next depends on what an earlier call returned.\n- `ask` puts a question to a human; declare `whenUnanswered` so that the plan also runs without one.\n- Bodies of `decide`, `map` and `reduce` hold a single call or a list of steps. `agent`, `ask` and `filter` may stand in a body; `decide`, `map` and `reduce` may not.";

/// Planning rules shared verbatim by the planner and drafting prompts, which
/// differ only in how they are called.
pub const PLANNING_RULES: &'static str = "- Use only tools from the tool list, by their exact names, with inputs that conform to their schemas.\n- Every step does one thing and says in `reasoning` why it exists and what it should produce.\n- Pass data between steps with templates; never invent ids or values that a step can look up.\n- Prefer the fewest steps that complete the task.\n- `solverData.queryToAnswer` always includes the user's original task.";

/// What the solver is told.
pub const SOLVER_SYSTEM_PROMPT: &'static str = "You answer the task from the collected data and from nothing else. Lead with the answer. Say plainly what the data does not show; never invent a result. Keep the formatting simple: the answer is read in a terminal.";

/// What the model is told that explains a failed run.
pub const ERROR_SUMMARY_PROMPT: &'static str = "A plan could not be completed. Explain honestly and briefly what was attempted, what went wrong, and what the user could try next. Do not invent results.";

/// What a planner's system prompt is made of.
pub struct PlannerPromptArgs<'a> {
    pub current_date: &'a str,
    pub last_error: Option<&'a str>,
    pub next_step_id: &'a str,
    pub tools: &'a str,
    pub user_context: &'a str,
    pub existing_plan: &'a str,
    pub step_schema: &'a str,
}

/// The model of [`PlannerPromptArgs`].
pub struct PlannerPromptView {
    pub current_date: Seq<char>,
    pub last_error: Option<Seq<char>>,
    pub next_step_id: Seq<char>,
    pub tools: Seq<char>,
    pub user_context: Seq<char>,
    pub existing_plan: Seq<char>,
    pub step_schema: Seq<char>,
}

impl<'a> PlannerPromptArgs<'a> {
    pub open spec fn view(&self) -> PlannerPromptView {
        PlannerPromptView {
            current_date: self.current_date@,
            last_error: slice_view(self.last_error),
            next_step_id: self.next_step_id@,
            tools: self.tools@,
            user_context: self.user_context@,
            existing_plan: self.existing_plan@,
            step_schema: self.step_schema@,
        }
    }
}

/// A titled section.
pub open spec fn section(title: Seq<char>, body: Seq<char>) -> Seq<char> {
    "\n\n### "@ + title + "\n"@ + body
}

fn write_section(title: &str, body: &str) -> (r: String)
    ensures
        r@ == section(title@, body@),
{
    cat4("\n\n### ", title, "\n", body)
}

/// The sections that every planning prompt shares.
pub open spec fn shared_sections(
    tools: Seq<char>,
    user_context: Seq<char>,
    step_schema: Seq<char>,
) -> Seq<char> {
    section("Tools"@, tools) + section("Templates"@, TEMPLATING_RULES@) + section(
        "Planning Rules"@,
        PLANNING_RULES@,
    ) + section("Control Steps"@, CONTROL_STEP_RULES@) + section("User Context"@, user_context)
        + section("Step Schema"@, step_schema)
}

fn write_shared(tools: &str, user_context: &str, step_schema: &str) -> (r: String)
    ensures
        r@ == shared_sections(tools@, user_context@, step_schema@),
{
    let a = write_section("Tools", tools);
    let b = write_section("Templates", TEMPLATING_RULES);
    let c = write_section("Planning Rules", PLANNING_RULES);
    let d = write_section("Control Steps", CONTROL_STEP_RULES);
    let e = write_section("User Context", user_context);
    let f = write_section("Step Schema", step_schema);
    cat6(a.as_str(), b.as_str(), c.as_str(), d.as_str(), e.as_str(), f.as_str())
}

/// The planner's system prompt.
pub open spec fn planner_text(args: PlannerPromptView) -> Seq<char> {
    "You are a planner. Compose a sequence of tool calls that completes the user's task, with data flowing between steps. Output the plan and the solver data as JSON."@
        + section("Current Date"@, args.current_date) + section(
        "Last Error"@,
        match args.last_error {
            Some(e) => e,
            None => "none"@,
        },
    ) + section(
        "Existing Plan"@,
        "These steps have executed and cannot change; continue after them.\n"@
            + args.existing_plan,
    ) + section("Next Step Id"@, args.next_step_id) + shared_sections(
        args.tools,
        args.user_context,
        args.step_schema,
    )
}

/// The planner's system prompt.
pub fn planner_prompt(args: &PlannerPromptArgs) -> (r: String)
    ensures
        r@ == planner_text(args@),
{
    let last_error = match args.last_error {
        Some(e) => e,
        None => "none",
    };
    let date = write_section("Current Date", args.current_date);
    let error = write_section("Last Error", last_error);
    let existing = write_section(
        "Existing Plan",
        cat2(
            "These steps have executed and cannot change; continue after them.\n",
            args.existing_plan,
        ).as_str(),
    );
    let next = write_section("Next Step Id", args.next_step_id);
    let shared = write_shared(args.tools, args.user_context, args.step_schema);
    cat6(
        "You are a planner. Compose a sequence of tool calls that completes the user's task, with data flowing between steps. Output the plan and the solver data as JSON.",
        date.as_str(),
        error.as_str(),
        existing.as_str(),
        next.as_str(),
        shared.as_str(),
    )
}

/// What the system prompt of a drafting session is made of.
pub struct DraftingPromptArgs<'a> {
    pub current_date: &'a str,
    pub tools: &'a str,
    pub user_context: &'a str,
    pub step_schema: &'a str,
    /// A draft plan under revision. Nothing in it has executed: every step is
    /// mutable, and the revision regenerates the plan in full, outline first,
    /// then steps.
    pub draft: Option<&'a str>,
}

/// The model of [`DraftingPromptArgs`].
pub struct DraftingPromptView {
    pub current_date: Seq<char>,
    pub tools: Seq<char>,
    pub user_context: Seq<char>,
    pub step_schema: Seq<char>,
    pub draft: Option<Seq<char>>,
}

impl<'a> DraftingPromptArgs<'a> {
    pub open spec fn view(&self) -> DraftingPromptView {
        DraftingPromptView {
            current_date: self.current_date@,
            tools: self.tools@,
            user_context: self.user_context@,
            step_schema: self.step_schema@,
            draft: slice_view(self.draft),
        }
    }
}

/// The section about a draft under revision.
pub open spec fn draft_section(draft: Option<Seq<char>>) -> Seq<char> {
    match draft {
        Some(draft) =>
        "\n\n### Draft Under Revision\nThe following draft plan has NOT been executed. Revise it according to the user's request — you may modify, reorder, remove, or replace any step. Output the COMPLETE revised plan, not a diff: a fresh outline, then every step.\n<draft_plan>\n"@
            + draft + "\n</draft_plan>"@,
        None => Seq::empty(),
    }
}

/// The protocol of a drafting session.
pub const DRAFTING_PROTOCOL: &'static str = "You draft a plan in a conversation: first an outline, then one step per request.\n- The outline lists the plan's stages in order. A control step with everything in its body is ONE stage.\n- Each request names the id that the step must use. Emit exactly one step, or `step: null` with `planComplete: true` when the accepted steps already complete the plan.\n- Set `planComplete: true` on the last step.\n- A rejected step comes back with its problems: produce a corrected step for the same stage. Never re-emit accepted steps.";

/// The system prompt of a drafting session.
pub open spec fn drafting_text(args: DraftingPromptView) -> Seq<char> {
    "You are a planner. Compose a sequence of tool calls that completes the user's task, with data flowing between steps."@
        + section("Drafting Protocol"@, DRAFTING_PROTOCOL@) + section(
        "Current Date"@,
        args.current_date,
    ) + draft_section(args.draft) + shared_sections(
        args.tools,
        args.user_context,
        args.step_schema,
    )
}

/// The system prompt for plan drafting. Built once per drafting session and
/// reused byte-identically for the outline call and every step call, so the
/// provider's prompt-cache prefix stays stable.
pub fn drafting_prompt(args: &DraftingPromptArgs) -> (r: String)
    ensures
        r@ == drafting_text(args@),
{
    let protocol = write_section("Drafting Protocol", DRAFTING_PROTOCOL);
    let date = write_section("Current Date", args.current_date);
    let draft = match args.draft {
        Some(draft) => cat3(
            "\n\n### Draft Under Revision\nThe following draft plan has NOT been executed. Revise it according to the user's request — you may modify, reorder, remove, or replace any step. Output the COMPLETE revised plan, not a diff: a fresh outline, then every step.\n<draft_plan>\n",
            draft,
            "\n</draft_plan>",
        ),
        None => {
            let empty = String::new();
            assert(empty@ =~= Seq::<char>::empty());
            empty
        },
    };
    let shared = write_shared(args.tools, args.user_context, args.step_schema);
    cat5(
        "You are a planner. Compose a sequence of tool calls that completes the user's task, with data flowing between steps.",
        protocol.as_str(),
        date.as_str(),
        draft.as_str(),
        shared.as_str(),
    )
}

/// The first user turn of a drafting session.
pub open spec fn outline_request_text(query: Seq<char>) -> Seq<char> {
    "Produce the plan outline for this"@ + " task.\n\n# Task\n"@ + query
}

/// The first user turn of a drafting session: ask for the outline.
pub fn outline_request(query: &str) -> (r: String)
    ensures
        r@ == outline_request_text(query@),
{
    cat3("Produce the plan outline for this", " task.\n\n# Task\n", query)
}

/// One step request.
pub open spec fn step_request_text(id: Seq<char>, stage: int, summary: Seq<char>) -> Seq<char> {
    "Produce step "@ + id + " (stage "@ + numeral(stage as nat) + ": "@ + summary
        + "). Emit exactly one step — or step: null with planComplete: true if the accepted steps already complete the plan."@
}

/// One step request: names the id the step must use and the outline stage it
/// (advisorily) corresponds to.
pub fn step_request(next_step_id: &str, stage_number: usize, summary: &str) -> (r: String)
    ensures
        r@ == step_request_text(next_step_id@, stage_number as int, summary@),
{
    cat7(
        "Produce step ",
        next_step_id,
        " (stage ",
        decimal_usize(stage_number).as_str(),
        ": ",
        summary,
        "). Emit exactly one step — or step: null with planComplete: true if the accepted steps already complete the plan.",
    )
}

/// A closing step request.
pub open spec fn closing_request_text(id: Seq<char>) -> Seq<char> {
    "Every outline stage now has a step. If the plan is complete, return step: null with planComplete: true. Only if one concrete additional step is genuinely required to finish the plan, emit exactly that step as "@
        + id + " and set planComplete: true on it."@
}

/// A closing step request used once every outline stage already has a step: push
/// the planner to finish rather than re-draft the last stage.
pub fn closing_step_request(next_step_id: &str) -> (r: String)
    ensures
        r@ == closing_request_text(next_step_id@),
{
    cat3(
        "Every outline stage now has a step. If the plan is complete, return step: null with planComplete: true. Only if one concrete additional step is genuinely required to finish the plan, emit exactly that step as ",
        next_step_id,
        " and set planComplete: true on it.",
    )
}

/// The shape that was recorded of a tool's output; of two the later counts.
pub open spec fn shape_of(
    shapes: Seq<ToolShapeView>,
    tool: Seq<char>,
    n: int,
) -> Option<ToolShapeView>
    decreases n,
{
    if n <= 0 || n > shapes.len() {
        None
    } else if shapes[n - 1].tool == tool {
        Some(shapes[n - 1])
    } else {
        shape_of(shapes, tool, n - 1)
    }
}

/// What a tool is described by: the name, description and input, and the best
/// available output shape (declared before observed).
pub open spec fn tool_entry(tool: ToolDefView, shapes: Seq<ToolShapeView>) -> Entries {
    let base = object(
        seq![
            ("name"@, Json::Text(tool.name)),
            ("description"@, Json::Text(tool.description)),
            ("inputSchema"@, tool.input_schema),
        ],
    );
    let declared = match tool.output_schema {
        Some(schema) => put(base, "outputSchema"@, schema),
        None => base,
    };
    let shown = match tool.output_example {
        Some(example) => put(declared, "outputExample"@, example),
        None => declared,
    };
    if tool.output_schema is None && tool.output_example is None {
        match shape_of(shapes, tool.name, shapes.len() as int) {
            Some(shape) => put(
                put(shown, "observedOutputShape"@, shape.schema),
                "observedOutputExample"@,
                shape.example,
            ),
            None => shown,
        }
    } else {
        shown
    }
}

/// The descriptions of the first `n` tools, one per line.
pub open spec fn tool_lines(
    tools: Seq<ToolDefView>,
    shapes: Seq<ToolShapeView>,
    n: int,
) -> Seq<char>
    decreases n,
{
    if n <= 0 || n > tools.len() {
        Seq::empty()
    } else {
        tool_lines(tools, shapes, n - 1) + compact_text(
            Json::Object(tool_entry(tools[n - 1], shapes)),
        ) + "\n"@
    }
}

/// The tools as they are described to the planner.
pub open spec fn tools_text(tools: Seq<ToolDefView>, shapes: Seq<ToolShapeView>) -> Seq<char> {
    if tools.len() == 0 {
        "(no tools available)"@
    } else {
        tool_lines(tools, shapes, tools.len() as int)
    }
}

fn find_shape<'a>(shapes: &'a Vec<ToolShape>, tool: &str) -> (r: Option<&'a ToolShape>)
    ensures
        match r {
            Some(s) => shape_of(shapes_view(shapes@), tool@, shapes@.len() as int) == Some(s@),
            None => shape_of(shapes_view(shapes@), tool@, shapes@.len() as int) is None,
        },
{
    let ghost all = shapes_view(shapes@);
    let mut n: usize = shapes.len();
    while n > 0
        invariant
            n <= shapes@.len(),
            all == shapes_view(shapes@),
            shape_of(all, tool@, shapes@.len() as int) == shape_of(all, tool@, n as int),
        decreases n,
    {
        assert(all[n - 1] == shapes@[n - 1]@);
        if same_text(shapes[n - 1].tool.as_str(), tool) {
            return Some(&shapes[n - 1]);
        }
        n -= 1;
    }
    None
}

fn describe_tool(tool: &ToolDef, shapes: &Vec<ToolShape>) -> (r: Fields)
    ensures
        r@ == tool_entry(tool@, shapes_view(shapes@)),
{
    let mut fields = match crate::value::obj3(
        "name",
        Data::Text(tool.name.clone()),
        "description",
        Data::Text(tool.description.clone()),
        "inputSchema",
        tool.input_schema.copy(),
    ) {
        Data::Object(fields) => fields,
        _ => Fields::new(),
    };
    if let Some(schema) = &tool.output_schema {
        fields.insert("outputSchema".to_owned(), schema.copy());
    }
    if let Some(example) = &tool.output_example {
        fields.insert("outputExample".to_owned(), example.copy());
    }
    if tool.output_schema.is_none() && tool.output_example.is_none() {
        if let Some(shape) = find_shape(shapes, tool.name.as_str()) {
            fields.insert("observedOutputShape".to_owned(), shape.schema.copy());
            fields.insert("observedOutputExample".to_owned(), shape.example.copy());
        }
    }
    fields
}

/// Describes tools for the planner: name, description, input schema, and the
/// best available output shape (declared schema before observed), one tool per
/// line.
pub fn describe_tools(tools: &Vec<ToolDef>, shapes: &Vec<ToolShape>) -> (r: String)
    ensures
        r@ == tools_text(tools_view(tools@), shapes_view(shapes@)),
{
    if tools.len() == 0 {
        return "(no tools available)".to_owned();
    }
    let ghost all = tools_view(tools@);
    let ghost seen = shapes_view(shapes@);
    let mut out = String::new();
    assert(out@ =~= tool_lines(all, seen, 0));
    let mut i: usize = 0;
    while i < tools.len()
        invariant
            i <= tools@.len(),
            all == tools_view(tools@),
            seen == shapes_view(shapes@),
            out@ == tool_lines(all, seen, i as int),
        decreases tools.len() - i,
    {
        assert(all[i as int] == tools@[i as int]@);
        let entry = Data::Object(describe_tool(&tools[i], shapes));
        out = cat3(out.as_str(), compact(&entry).as_str(), "\n");
        i += 1;
    }
    out
}

} // verus!
