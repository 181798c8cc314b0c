//! Plans as JSON text: what a model reads of steps, outlines and drafts. The
//! keys stand in the order in which the planner's schema lists them. A line is
//! the text without white space, a page the text with two spaces of
//! indentation per level.

use crate::json::{compact, compact_text, pretty, pretty_text};
use crate::pipeline::outline::{
    OutlineItem, OutlineItemView, PlanOutline, PlanOutlineView, StepDraft, StepDraftView,
};
use crate::pipeline::plan::{
    plan_view, text_or_null, text_or_null_data, PlannerOutput, PlannerOutputView, SolverData,
    SolverDataView, Step, StepView,
};
use crate::text::{cat3, cat5, cat7, chars_of, join, joined, push_text, texts};
use crate::value::{Data, Fields, Json};
use vstd::prelude::*;

verus! {

// ── Lines ────────────────────────────────────────────────────────────────

/// A step on one line.
pub open spec fn step_line(s: StepView) -> Seq<char> {
    "{\"id\":"@ + compact_text(Json::Text(s.id)) + ",\"toolName\":"@ + compact_text(
        Json::Text(s.tool_name),
    ) + ",\"input\":"@ + compact_text(Json::Object(s.input)) + ",\"reasoning\":"@ + compact_text(
        text_or_null(s.reasoning),
    ) + "}"@
}

/// A drafted step on one line.
pub open spec fn step_draft_line(d: StepDraftView) -> Seq<char> {
    "{\"step\":"@ + (match d.step {
        Some(step) => step_line(step),
        None => "null"@,
    }) + ",\"planComplete\":"@ + (if d.plan_complete {
        "true"@
    } else {
        "false"@
    }) + "}"@
}

/// An outline stage on one line.
pub open spec fn stage_line(i: OutlineItemView) -> Seq<char> {
    "{\"summary\":"@ + compact_text(Json::Text(i.summary)) + ",\"expectedTool\":"@ + compact_text(
        text_or_null(i.expected_tool),
    ) + "}"@
}

/// An outline on one line.
pub open spec fn outline_line(o: PlanOutlineView) -> Seq<char> {
    "{\"items\":["@ + joined(Seq::new(o.items.len(), |i: int| stage_line(o.items[i])), ","@)
        + "],\"queryToAnswer\":"@ + compact_text(Json::Text(o.query_to_answer))
        + ",\"systemPrompt\":"@ + compact_text(text_or_null(o.system_prompt)) + "}"@
}

/// A text as a JSON string.
fn quoted(s: &String) -> (r: String)
    ensures
        r@ == compact_text(Json::Text(s@)),
{
    compact(&Data::Text(s.clone()))
}

/// A text as a JSON string, or `null` in its absence.
fn quoted_or_null(s: &Option<String>) -> (r: String)
    ensures
        r@ == compact_text(
            text_or_null(
                match s {
                    Some(t) => Some(t@),
                    None => None,
                },
            ),
        ),
{
    compact(&text_or_null_data(s))
}

impl Step {
    /// The step on one line.
    pub fn to_line(&self) -> (r: String)
        ensures
            r@ == step_line(self@),
    {
        let head = cat7(
            "{\"id\":",
            quoted(&self.id).as_str(),
            ",\"toolName\":",
            quoted(&self.tool_name).as_str(),
            ",\"input\":",
            compact(&Data::Object(self.input.copy())).as_str(),
            ",\"reasoning\":",
        );
        cat3(head.as_str(), quoted_or_null(&self.reasoning).as_str(), "}")
    }
}

impl StepDraft {
    /// The drafted step on one line.
    pub fn to_line(&self) -> (r: String)
        ensures
            r@ == step_draft_line(self@),
    {
        let step = match &self.step {
            Some(step) => step.to_line(),
            None => "null".to_owned(),
        };
        let complete = if self.plan_complete {
            "true"
        } else {
            "false"
        };
        cat5("{\"step\":", step.as_str(), ",\"planComplete\":", complete, "}")
    }
}

impl OutlineItem {
    /// The stage on one line.
    pub fn to_line(&self) -> (r: String)
        ensures
            r@ == stage_line(self@),
    {
        cat5(
            "{\"summary\":",
            quoted(&self.summary).as_str(),
            ",\"expectedTool\":",
            quoted_or_null(&self.expected_tool).as_str(),
            "}",
        )
    }
}

impl PlanOutline {
    /// The outline on one line.
    pub fn to_line(&self) -> (r: String)
        ensures
            r@ == outline_line(self@),
    {
        let mut lines: Vec<String> = Vec::new();
        let mut i: usize = 0;
        while i < self.items.len()
            invariant
                i <= self.items@.len(),
                texts(lines@) =~= Seq::new(i as nat, |k: int| stage_line(self@.items[k])),
            decreases self.items.len() - i,
        {
            push_text(&mut lines, self.items[i].to_line());
            i += 1;
        }
        assert(texts(lines@) =~= Seq::new(
            self@.items.len(),
            |k: int| stage_line(self@.items[k]),
        ));
        cat7(
            "{\"items\":[",
            join(&lines, ",").as_str(),
            "],\"queryToAnswer\":",
            quoted(&self.query_to_answer).as_str(),
            ",\"systemPrompt\":",
            quoted_or_null(&self.system_prompt).as_str(),
            "}",
        )
    }
}

// ── Pages ────────────────────────────────────────────────────────────────

/// A text one level further in: two spaces behind every line break.
pub open spec fn indented(s: Seq<char>) -> Seq<char>
    decreases s.len(),
{
    if s.len() == 0 {
        Seq::empty()
    } else if s.last() == '\n' {
        indented(s.drop_last()) + "\n  "@
    } else {
        indented(s.drop_last()).push(s.last())
    }
}

/// A step on a page.
pub open spec fn step_page(s: StepView) -> Seq<char> {
    "{\n  \"id\": "@ + compact_text(Json::Text(s.id)) + ",\n  \"toolName\": "@ + compact_text(
        Json::Text(s.tool_name),
    ) + ",\n  \"input\": "@ + indented(pretty_text(Json::Object(s.input)))
        + ",\n  \"reasoning\": "@ + compact_text(text_or_null(s.reasoning)) + "\n}"@
}

/// A plan on a page.
pub open spec fn plan_page(plan: Seq<StepView>) -> Seq<char> {
    if plan.len() == 0 {
        "[]"@
    } else {
        "[\n  "@ + joined(
            Seq::new(plan.len(), |i: int| indented(step_page(plan[i]))),
            ",\n  "@,
        ) + "\n]"@
    }
}

/// Solver data on a page.
pub open spec fn solver_page(s: SolverDataView) -> Seq<char> {
    "{\n  \"queryToAnswer\": "@ + compact_text(Json::Text(s.query_to_answer))
        + ",\n  \"systemPrompt\": "@ + compact_text(text_or_null(s.system_prompt))
        + ",\n  \"data\": "@ + indented(pretty_text(Json::Object(s.data))) + "\n}"@
}

/// Planner output on a page.
pub open spec fn planner_page(o: PlannerOutputView) -> Seq<char> {
    "{\n  \"plan\": "@ + indented(plan_page(o.plan)) + ",\n  \"solverData\": "@ + indented(
        solver_page(o.solver_data),
    ) + "\n}"@
}

/// Moves a text one level in.
fn indent(s: &str) -> (r: String)
    ensures
        r@ == indented(s@),
{
    let chars = chars_of(s);
    let mut out = String::new();
    let mut i: usize = 0;
    assert(s@.take(0) =~= Seq::<char>::empty());
    while i < chars.len()
        invariant
            i <= chars@.len(),
            chars@ == s@,
            out@ == indented(s@.take(i as int)),
        decreases chars.len() - i,
    {
        assert(s@.take(i + 1).drop_last() =~= s@.take(i as int));
        if chars[i] == '\n' {
            out.append("\n  ");
        } else {
            out.push(chars[i]);
        }
        i += 1;
    }
    assert(s@.take(i as int) =~= s@);
    out
}

/// An object as indented JSON text, one level in.
fn nested(fields: &Fields) -> (r: String)
    ensures
        r@ == indented(pretty_text(Json::Object(fields@))),
{
    indent(pretty(&Data::Object(fields.copy())).as_str())
}

impl Step {
    /// The step on a page.
    pub fn to_page(&self) -> (r: String)
        ensures
            r@ == step_page(self@),
    {
        let head = cat7(
            "{\n  \"id\": ",
            quoted(&self.id).as_str(),
            ",\n  \"toolName\": ",
            quoted(&self.tool_name).as_str(),
            ",\n  \"input\": ",
            nested(&self.input).as_str(),
            ",\n  \"reasoning\": ",
        );
        cat3(head.as_str(), quoted_or_null(&self.reasoning).as_str(), "\n}")
    }
}

/// A plan on a page.
pub fn plan_to_page(plan: &Vec<Step>) -> (r: String)
    ensures
        r@ == plan_page(plan_view(plan@)),
{
    if plan.len() == 0 {
        return "[]".to_owned();
    }
    let ghost view = plan_view(plan@);
    let mut pages: Vec<String> = Vec::new();
    let mut i: usize = 0;
    while i < plan.len()
        invariant
            i <= plan@.len(),
            view == plan_view(plan@),
            texts(pages@) =~= Seq::new(i as nat, |k: int| indented(step_page(view[k]))),
        decreases plan.len() - i,
    {
        push_text(&mut pages, indent(plan[i].to_page().as_str()));
        i += 1;
    }
    assert(texts(pages@) =~= Seq::new(view.len(), |k: int| indented(step_page(view[k]))));
    cat3("[\n  ", join(&pages, ",\n  ").as_str(), "\n]")
}

impl SolverData {
    /// The solver data on a page.
    pub fn to_page(&self) -> (r: String)
        ensures
            r@ == solver_page(self@),
    {
        cat7(
            "{\n  \"queryToAnswer\": ",
            quoted(&self.query_to_answer).as_str(),
            ",\n  \"systemPrompt\": ",
            quoted_or_null(&self.system_prompt).as_str(),
            ",\n  \"data\": ",
            nested(&self.data).as_str(),
            "\n}",
        )
    }
}

impl PlannerOutput {
    /// The output on a page.
    pub fn to_page(&self) -> (r: String)
        ensures
            r@ == planner_page(self@),
    {
        cat5(
            "{\n  \"plan\": ",
            indent(plan_to_page(&self.plan).as_str()).as_str(),
            ",\n  \"solverData\": ",
            indent(self.solver_data.to_page().as_str()).as_str(),
            "\n}",
        )
    }
}

} // verus!
