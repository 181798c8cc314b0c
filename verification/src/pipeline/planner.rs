//! The planner's requests: the catalog it is offered and the system prompt that
//! teaches it.

use crate::chat::{ChatRequest, ChatRequestView};
use crate::pipeline::control::{control_step_defs, control_tools};
use crate::pipeline::doc::{docs_view, PlanDoc, PlanDocView};
use crate::pipeline::prompts::{
    describe_tools, planner_prompt, planner_text, tools_text, PlannerPromptArgs, PlannerPromptView,
};
use crate::pipeline::resolve::{plan_tool, plan_tool_def};
use crate::pipeline::solver::{make_plain_request, plain_request};
use crate::pipeline::state::{executed, last_error_before, next_number, RunState, RunStateView};
use crate::pipeline::written::{plan_page, plan_to_page};
use crate::store::{shapes_view, ToolShape};
use crate::text::{lists, numeral, texts};
use crate::tools::{tools_view, ToolDef, ToolDefView};
use vstd::prelude::*;

verus! {

/// What stands around a planner: the tools, the plans it may call, what is
/// known of tool outputs, and who asks.
#[derive(Debug)]
pub struct Surroundings {
    /// The tools of the registry.
    pub tools: Vec<ToolDef>,
    /// The plan documents that can be called.
    pub plans: Vec<PlanDoc>,
    /// The plans that are being executed in this call chain.
    pub call_stack: Vec<String>,
    /// The observed output shapes, read afresh at each attempt.
    pub shapes: Vec<ToolShape>,
    pub user_context: String,
    pub current_date: String,
    /// The JSON schema of a step.
    pub step_schema: String,
}

/// The plans as tools, without those on the call stack: the first `n` of them.
pub open spec fn callable_plans(plans: Seq<PlanDocView>, stack: Seq<Seq<char>>, n: int) -> Seq<
    ToolDefView,
>
    decreases n,
{
    if n <= 0 || n > plans.len() {
        Seq::empty()
    } else {
        let before = callable_plans(plans, stack, n - 1);
        if stack.contains(plans[n - 1].identifier) {
            before
        } else {
            before.push(plan_tool(plans[n - 1]))
        }
    }
}

/// The catalog that a planner is offered: the registry's tools, the control
/// steps, and the plans that are not on the call stack.
pub open spec fn planner_tools(
    tools: Seq<ToolDefView>,
    plans: Seq<PlanDocView>,
    stack: Seq<Seq<char>>,
) -> Seq<ToolDefView> {
    tools + control_tools() + callable_plans(plans, stack, plans.len() as int)
}

impl Surroundings {
    /// The catalog that the planner is offered.
    pub open spec fn offered(&self) -> Seq<ToolDefView> {
        planner_tools(tools_view(self.tools@), docs_view(self.plans@), texts(self.call_stack@))
    }

    /// The catalog that the planner is offered, in words.
    pub open spec fn catalog(&self) -> Seq<char> {
        tools_text(self.offered(), shapes_view(self.shapes@))
    }

    /// The catalog that the planner is offered.
    pub fn planner_catalog(&self) -> (r: Vec<ToolDef>)
        ensures
            tools_view(r@) == self.offered(),
    {
        let ghost base = tools_view(self.tools@);
        let ghost docs = docs_view(self.plans@);
        let ghost stack = texts(self.call_stack@);
        let mut all: Vec<ToolDef> = Vec::new();
        let mut i: usize = 0;
        while i < self.tools.len()
            invariant
                i <= self.tools@.len(),
                all@.len() == i,
                base == tools_view(self.tools@),
                forall|k: int| 0 <= k < i ==> (#[trigger] all@[k])@ == base[k],
            decreases self.tools.len() - i,
        {
            all.push(self.tools[i].copy());
            i += 1;
        }
        assert(tools_view(all@) =~= base);
        let mut control = control_step_defs();
        let ghost steps = tools_view(control@);
        let ghost front = all@;
        let ghost middle = control@;
        all.append(&mut control);
        assert(tools_view(all@) =~= base + steps) by {
            assert(tools_view(front + middle) =~= tools_view(front) + tools_view(middle));
        }
        let mut n: usize = 0;
        assert(tools_view(all@) =~= base + steps + callable_plans(docs, stack, 0));
        while n < self.plans.len()
            invariant
                n <= self.plans@.len(),
                docs == docs_view(self.plans@),
                stack == texts(self.call_stack@),
                tools_view(all@) == base + steps + callable_plans(docs, stack, n as int),
            decreases self.plans.len() - n,
        {
            let doc = &self.plans[n];
            assert(docs[n as int] == doc@);
            let ghost before = all@;
            if !lists(&self.call_stack, doc.identifier.as_str()) {
                let def = plan_tool_def(doc);
                all.push(def);
                assert(tools_view(all@) =~= tools_view(before).push(def@));
                assert(tools_view(all@) =~= base + steps + callable_plans(docs, stack, n + 1));
            }
            n += 1;
        }
        all
    }

    /// The catalog that the planner is offered, in words.
    pub fn describe_catalog(&self) -> (r: String)
        ensures
            r@ == self.catalog(),
    {
        describe_tools(&self.planner_catalog(), &self.shapes)
    }
}

// ── Planning a run ───────────────────────────────────────────────────────

/// The planner's system prompt for a run: what has executed cannot change, and
/// the last error is what to mend.
pub open spec fn planner_system(around: Surroundings, s: RunStateView) -> Seq<char> {
    let done = executed(s.plan, s.results);
    let error = last_error_before(s.bus, s.bus.len() as int);
    planner_text(
        PlannerPromptView {
            current_date: around.current_date@,
            last_error: match error {
                Some(i) => Some(s.bus[i].content),
                None => None,
            },
            next_step_id: "E"@ + numeral(next_number(s.plan, s.results) as nat),
            tools: around.catalog(),
            user_context: around.user_context@,
            existing_plan: if done.len() == 0 {
                "(none)"@
            } else {
                plan_page(done)
            },
            step_schema: around.step_schema@,
        },
    )
}

/// The planner's request for a run.
pub open spec fn plan_request(around: Surroundings, s: RunStateView) -> ChatRequestView {
    plain_request(planner_system(around, s), s.query)
}

/// Asks the planner for the plan of a run: catalog, prompt, and the task.
pub fn begin_planning(around: &Surroundings, state: &RunState) -> (r: ChatRequest)
    ensures
        r@ == plan_request(*around, state@),
{
    let done = state.executed_steps();
    let existing = if done.len() == 0 {
        "(none)".to_owned()
    } else {
        plan_to_page(&done)
    };
    let next = state.next_step_id();
    let tools = around.describe_catalog();
    let last_error = match state.last_error() {
        Some(entry) => Some(entry.content.as_str()),
        None => None,
    };
    let system = planner_prompt(
        &PlannerPromptArgs {
            current_date: around.current_date.as_str(),
            last_error,
            next_step_id: next.as_str(),
            tools: tools.as_str(),
            user_context: around.user_context.as_str(),
            existing_plan: existing.as_str(),
            step_schema: around.step_schema.as_str(),
        },
    );
    make_plain_request(system, state.query.clone())
}

} // verus!
