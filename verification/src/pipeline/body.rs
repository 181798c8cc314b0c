//! The shared body grammar for control steps: `decide` branches and
//! `map`/`reduce` bodies are each either a single tool call or an inline step
//! list, parsed lazily from raw values so rendering can be deferred until the
//! executor knows the body will actually run (and against which scope). Bodies
//! run in a scope layered over the plan's results: their step ids never enter
//! the run's results, but their work counts in `steps_executed`.

use crate::pipeline::agent::{agent_problems, validate_agent_input};
use crate::pipeline::ask::{ask_problems, validate_ask_input};
use crate::pipeline::filter::{filter_problems, validate_filter_input};
use crate::pipeline::plan::{
    check_step_id, copy_option, id_problem, plan_view, read_steps, steps_in, workbench_problem,
    workbench_tool_problem, Step, StepView,
};
use crate::pipeline::record::{
    check_record, check_value, get_object, get_opt_text, get_text, object_at, opt_text_at,
    record_problem, records_problem, text_at, text_view, Record, Shape,
};
use crate::pipeline::references::{check_input, input_problems, joined_names, named, names};
use crate::text::{cat3, cat4, cat5, cat6, cat7, contains_text, occurs, push_text, same_text, texts};
use crate::value::{Data, Entries, Fields, Json};
use vstd::prelude::*;

verus! {

/// A control step's body: one side of a `decide` fork, or the `do` of a
/// `map`/`reduce`.
#[derive(Debug)]
pub enum Branch {
    /// A single tool call: a `Step` without an id.
    Call(BranchCall),
    /// An inline list of steps, run in authored order within a scope layered
    /// over the plan's results.
    Steps(Vec<Step>),
}

#[derive(Debug)]
pub struct BranchCall {
    pub tool_name: String,
    pub input: Fields,
    pub reasoning: Option<String>,
}

/// The model of a [`BranchCall`].
pub struct BranchCallView {
    pub tool_name: Seq<char>,
    pub input: Entries,
    pub reasoning: Option<Seq<char>>,
}

/// The model of a [`Branch`].
pub enum BranchView {
    Call(BranchCallView),
    Steps(Seq<StepView>),
}

impl BranchCall {
    pub open spec fn view(&self) -> BranchCallView {
        BranchCallView {
            tool_name: self.tool_name@,
            input: self.input@,
            reasoning: text_view(self.reasoning),
        }
    }
}

impl Branch {
    pub open spec fn view(&self) -> BranchView {
        match self {
            Branch::Call(call) => BranchView::Call(call@),
            Branch::Steps(steps) => BranchView::Steps(plan_view(steps@)),
        }
    }
}

impl Branch {
    /// A copy of the body.
    pub fn copy(&self) -> (r: Branch)
        ensures
            r@ == self@,
    {
        match self {
            Branch::Call(call) => Branch::Call(
                BranchCall {
                    tool_name: call.tool_name.clone(),
                    input: call.input.copy(),
                    reasoning: copy_option(&call.reasoning),
                },
            ),
            Branch::Steps(steps) => Branch::Steps(crate::pipeline::plan::copy_plan(steps)),
        }
    }
}

/// The body that a value is read as, or why it is none.
pub open spec fn branch_of(name: Seq<char>, raw: Json) -> Result<BranchView, Seq<char>> {
    match raw {
        Json::List(items) => match records_problem(
            items,
            Record::Step,
            "struct Step"@,
            items.len() as int,
        ) {
            Some(problem) => Err("`"@ + name + "` steps: "@ + problem),
            None => if items.len() == 0 {
                Err("`"@ + name + "` has no steps"@)
            } else {
                Ok(BranchView::Steps(steps_in(items)))
            },
        },
        Json::Object(e) => match record_problem(e, Record::Call) {
            Some(problem) => Err("`"@ + name + "` call: "@ + problem),
            None => Ok(
                BranchView::Call(
                    BranchCallView {
                        tool_name: text_at(e, "toolName"@, "tool_name"@),
                        input: object_at(e, "input"@),
                        reasoning: opt_text_at(e, "reasoning"@, "reasoning"@),
                    },
                ),
            ),
        },
        _ => Err("`"@ + name + "` must be a tool call object or a list of steps"@),
    }
}

/// Parses a body value: an array is an inline step list, an object is a single
/// call.
pub fn parse_branch(name: &str, raw: &Data) -> (r: Result<Branch, String>)
    ensures
        match r {
            Ok(b) => branch_of(name@, raw@) == Ok::<BranchView, Seq<char>>(b@),
            Err(e) => branch_of(name@, raw@) == Err::<BranchView, Seq<char>>(e@),
        },
{
    match raw {
        Data::List(items) => {
            if let Some(problem) = check_value(raw, Shape::Steps) {
                return Err(cat4("`", name, "` steps: ", problem.as_str()));
            }
            if items.len() == 0 {
                return Err(cat3("`", name, "` has no steps"));
            }
            Ok(Branch::Steps(read_steps(items)))
        },
        Data::Object(fields) => match check_record(fields, Record::Call) {
            Some(problem) => Err(cat4("`", name, "` call: ", problem.as_str())),
            None => Ok(
                Branch::Call(
                    BranchCall {
                        tool_name: get_text(fields, "toolName", "tool_name"),
                        input: get_object(fields, "input"),
                        reasoning: get_opt_text(fields, "reasoning", "reasoning"),
                    },
                ),
            ),
        },
        _ => Err(cat3("`", name, "` must be a tool call object or a list of steps")),
    }
}

// ── Static validation ────────────────────────────────────────────────────

/// Whether a name is that of a control step that may stand in a body: it makes
/// no fork and no loop of steps of its own.
pub open spec fn nests(tool: Seq<char>) -> bool {
    tool == "agent"@ || tool == "ask"@ || tool == "filter"@
}

/// Whether a name is that of a control step with bodies of its own.
pub open spec fn has_body(tool: Seq<char>) -> bool {
    tool == "decide"@ || tool == "map"@ || tool == "reduce"@
}

/// Whether a name is a tool's that can be dispatched: `server__tool`, or the
/// planner.
pub open spec fn is_namespaced(tool: Seq<char>) -> bool {
    occurs(tool, "__"@) || tool == "plan_and_execute"@
}

/// The problem with a tool in a body, as a list.
pub open spec fn body_tool_problems(
    name: Seq<char>,
    tool: Seq<char>,
    step: Seq<char>,
    allow_exit: bool,
) -> Seq<Seq<char>> {
    if tool == "exit"@ {
        if allow_exit {
            Seq::empty()
        } else {
            seq![
                "step "@ + step + ": `"@ + name
                    + "` uses 'exit' — an exit inside an iteration body has no single-plan meaning; it is only allowed in decide branches"@,
            ]
        }
    } else if has_body(tool) {
        seq![
            "step "@ + step + ": `"@ + name + "` uses '"@ + tool
                + "' — control steps cannot nest inside a body; call a plan (plan__*) instead"@,
        ]
    } else if nests(tool) {
        Seq::empty()
    } else {
        match workbench_problem(tool) {
            Some(problem) => seq!["step "@ + step + ": `"@ + name + "` "@ + problem],
            None => if is_namespaced(tool) {
                Seq::empty()
            } else {
                seq![
                    "step "@ + step + ": `"@ + name + "` tool '"@ + tool
                        + "' is not a namespaced tool name like server__tool"@,
                ]
            },
        }
    }
}

/// What is wrong with the input of a call in a body.
pub open spec fn body_input_problems(
    tool: Seq<char>,
    input: Entries,
    available: Seq<Seq<char>>,
    step: Seq<char>,
) -> Seq<Seq<char>> {
    if tool == "agent"@ {
        agent_problems(input, available, step)
    } else if tool == "ask"@ {
        ask_problems(input, available, step)
    } else if tool == "filter"@ {
        filter_problems(input, available, step)
    } else {
        input_problems(input, available, step)
    }
}

/// The ids of some steps.
pub open spec fn ids_of(steps: Seq<StepView>) -> Seq<Seq<char>> {
    Seq::new(steps.len(), |i: int| steps[i].id)
}

/// The problem with the id of a step in a body, as a list.
pub open spec fn body_id_problems(
    name: Seq<char>,
    steps: Seq<StepView>,
    i: int,
    plan_ids: Seq<Seq<char>>,
    step: Seq<char>,
) -> Seq<Seq<char>> {
    let id = steps[i].id;
    let malformed = match id_problem(id) {
        Some(problem) => seq!["step "@ + step + ": `"@ + name + "` "@ + problem],
        None => Seq::empty(),
    };
    let colliding = if plan_ids.contains(id) {
        seq![
            "step "@ + step + ": `"@ + name + "` step id "@ + id
                + " collides with a plan step id"@,
        ]
    } else {
        Seq::empty()
    };
    let repeated = if ids_of(steps.take(i)).contains(id) {
        seq!["step "@ + step + ": `"@ + name + "` has duplicate step id "@ + id]
    } else {
        Seq::empty()
    };
    malformed + colliding + repeated
}

/// What is wrong with the first `n` steps of a body. Body steps may reference
/// what was available before the owning step and earlier steps of the same
/// body, never a sibling body or anything later.
pub open spec fn body_steps_problems(
    name: Seq<char>,
    steps: Seq<StepView>,
    available: Seq<Seq<char>>,
    plan_ids: Seq<Seq<char>>,
    step: Seq<char>,
    allow_exit: bool,
    n: int,
) -> Seq<Seq<char>>
    decreases n,
{
    if n <= 0 || n > steps.len() {
        Seq::empty()
    } else {
        body_steps_problems(name, steps, available, plan_ids, step, allow_exit, n - 1)
            + body_id_problems(name, steps, n - 1, plan_ids, step) + body_tool_problems(
            name,
            steps[n - 1].tool_name,
            step,
            allow_exit,
        ) + body_input_problems(
            steps[n - 1].tool_name,
            steps[n - 1].input,
            available + ids_of(steps.take(n - 1)),
            steps[n - 1].id,
        )
    }
}

/// Everything wrong with a body, as far as it shows without running.
pub open spec fn body_problems(
    name: Seq<char>,
    raw: Json,
    seen: Seq<Seq<char>>,
    pseudo: Seq<Seq<char>>,
    plan_ids: Seq<Seq<char>>,
    step: Seq<char>,
    allow_exit: bool,
) -> Seq<Seq<char>> {
    match branch_of(name, raw) {
        Err(message) => seq!["step "@ + step + ": "@ + message],
        Ok(BranchView::Call(call)) => body_tool_problems(name, call.tool_name, step, allow_exit)
            + body_input_problems(call.tool_name, call.input, seen + pseudo, step),
        Ok(BranchView::Steps(steps)) => body_steps_problems(
            name,
            steps,
            seen + pseudo,
            plan_ids,
            step,
            allow_exit,
            steps.len() as int,
        ),
    }
}

/// Checks that a tool may stand in a body.
pub fn check_body_tool(
    name: &str,
    tool: &str,
    step_id: &str,
    allow_exit: bool,
    problems: &mut Vec<String>,
)
    ensures
        texts(final(problems)@) == texts(old(problems)@) + body_tool_problems(
            name@,
            tool@,
            step_id@,
            allow_exit,
        ),
{
    proof {
        crate::seqs::append_nothing(texts(problems@));
    }
    if same_text(tool, "exit") {
        if !allow_exit {
            push_text(
                problems,
                cat5(
                    "step ",
                    step_id,
                    ": `",
                    name,
                    "` uses 'exit' — an exit inside an iteration body has no single-plan meaning; it is only allowed in decide branches",
                ),
            );
        }
        return;
    }
    if same_text(tool, "decide") || same_text(tool, "map") || same_text(tool, "reduce") {
        push_text(
            problems,
            cat7(
                "step ",
                step_id,
                ": `",
                name,
                "` uses '",
                tool,
                "' — control steps cannot nest inside a body; call a plan (plan__*) instead",
            ),
        );
        return;
    }
    if same_text(tool, "agent") || same_text(tool, "ask") || same_text(tool, "filter") {
        return;
    }
    if let Some(problem) = workbench_tool_problem(tool) {
        push_text(problems, cat6("step ", step_id, ": `", name, "` ", problem.as_str()));
        return;
    }
    if !contains_text(tool, "__") && !same_text(tool, "plan_and_execute") {
        push_text(
            problems,
            cat7(
                "step ",
                step_id,
                ": `",
                name,
                "` tool '",
                tool,
                "' is not a namespaced tool name like server__tool",
            ),
        );
    }
}

fn check_body_input(
    tool: &str,
    input: &Fields,
    available: &[&str],
    step_id: &str,
    problems: &mut Vec<String>,
)
    ensures
        texts(final(problems)@) == texts(old(problems)@) + body_input_problems(
            tool@,
            input@,
            names(available@),
            step_id@,
        ),
{
    if same_text(tool, "agent") {
        validate_agent_input(input, available, step_id, problems);
    } else if same_text(tool, "ask") {
        validate_ask_input(input, available, step_id, problems);
    } else if same_text(tool, "filter") {
        validate_filter_input(input, available, step_id, problems);
    } else {
        check_input(input, available, step_id, problems);
    }
}

fn check_body_id(
    name: &str,
    steps: &Vec<Step>,
    i: usize,
    plan_ids: &[&str],
    step_id: &str,
    problems: &mut Vec<String>,
)
    requires
        i < steps@.len(),
    ensures
        texts(final(problems)@) == texts(old(problems)@) + body_id_problems(
            name@,
            plan_view(steps@),
            i as int,
            names(plan_ids@),
            step_id@,
        ),
{
    broadcast use {crate::seqs::append_append, crate::seqs::append_nothing};

    let id = steps[i].id.as_str();
    if let Err(problem) = check_step_id(id) {
        push_text(problems, cat6("step ", step_id, ": `", name, "` ", problem.as_str()));
    }
    if named(plan_ids, id) {
        push_text(
            problems,
            cat7(
                "step ",
                step_id,
                ": `",
                name,
                "` step id ",
                id,
                " collides with a plan step id",
            ),
        );
    }
    let mut repeated = false;
    let mut k: usize = 0;
    let ghost earlier = ids_of(plan_view(steps@).take(i as int));
    while k < i
        invariant
            k <= i,
            i < steps@.len(),
            id@ == steps@[i as int].id@,
            earlier == ids_of(plan_view(steps@).take(i as int)),
            repeated == (exists|j: int| 0 <= j < k && earlier[j] == id@),
        decreases i - k,
    {
        if same_text(steps[k].id.as_str(), id) {
            assert(earlier[k as int] == id@);
            repeated = true;
        }
        k += 1;
    }
    assert(repeated == earlier.contains(id@));
    if repeated {
        push_text(problems, cat6("step ", step_id, ": `", name, "` has duplicate step id ", id));
    }
}

fn check_body_steps(
    name: &str,
    steps: &Vec<Step>,
    available: &[&str],
    plan_ids: &[&str],
    step_id: &str,
    allow_exit: bool,
    problems: &mut Vec<String>,
)
    ensures
        texts(final(problems)@) == texts(old(problems)@) + body_steps_problems(
            name@,
            plan_view(steps@),
            names(available@),
            names(plan_ids@),
            step_id@,
            allow_exit,
            steps@.len() as int,
        ),
{
    broadcast use crate::seqs::append_append;

    let ghost before = texts(problems@);
    let ghost model = plan_view(steps@);
    let ghost avail = names(available@);
    let mut body_seen = joined_names(available, &[]);
    let mut i: usize = 0;
    proof {
        crate::seqs::append_nothing(before);
        assert(names(body_seen@) =~= avail + ids_of(model.take(0)));
    }
    while i < steps.len()
        invariant
            i <= steps@.len(),
            model == plan_view(steps@),
            avail == names(available@),
            names(body_seen@) == avail + ids_of(model.take(i as int)),
            texts(problems@) == before + body_steps_problems(
                name@,
                model,
                avail,
                names(plan_ids@),
                step_id@,
                allow_exit,
                i as int,
            ),
        decreases steps.len() - i,
    {
        broadcast use crate::seqs::append_append;

        let step = &steps[i];
        check_body_id(name, steps, i, plan_ids, step_id, problems);
        check_body_tool(name, step.tool_name.as_str(), step_id, allow_exit, problems);
        check_body_input(
            step.tool_name.as_str(),
            &step.input,
            body_seen.as_slice(),
            step.id.as_str(),
            problems,
        );
        let ghost seen_before = body_seen@;
        body_seen.push(step.id.as_str());
        proof {
            assert(model.take(i + 1) =~= model.take(i as int).push(step@));
            assert(names(body_seen@) =~= names(seen_before).push(step.id@));
            assert(names(body_seen@) =~= avail + ids_of(model.take(i + 1)));
        }
        i += 1;
    }
}

/// Static validation of a body: shape, tool names, step ids, and template
/// reference ordering. `seen` is the ids available before the owning step
/// (including `input`); `pseudo` is the pseudo-roots this body's scope adds
/// (`item`/`index` for map, plus `accumulator` for reduce, none for decide);
/// `all_plan_ids` is every top-level id, for collision checks. `allow_exit` is
/// true for decide branches, where an `exit` ends the whole plan, and false for
/// map/reduce bodies, where a per-item exit has no coherent meaning.
pub fn validate_body(
    name: &str,
    raw: &Data,
    seen: &[&str],
    pseudo: &[&str],
    all_plan_ids: &[&str],
    step_id: &str,
    allow_exit: bool,
    problems: &mut Vec<String>,
)
    ensures
        texts(final(problems)@) == texts(old(problems)@) + body_problems(
            name@,
            raw@,
            names(seen@),
            names(pseudo@),
            names(all_plan_ids@),
            step_id@,
            allow_exit,
        ),
{
    broadcast use crate::seqs::append_append;

    let branch = match parse_branch(name, raw) {
        Ok(branch) => branch,
        Err(message) => {
            push_text(problems, cat4("step ", step_id, ": ", message.as_str()));
            return;
        },
    };
    let body_seen = joined_names(seen, pseudo);
    match &branch {
        Branch::Call(call) => {
            check_body_tool(name, call.tool_name.as_str(), step_id, allow_exit, problems);
            check_body_input(
                call.tool_name.as_str(),
                &call.input,
                body_seen.as_slice(),
                step_id,
                problems,
            );
        },
        Branch::Steps(steps) => {
            check_body_steps(
                name,
                steps,
                body_seen.as_slice(),
                all_plan_ids,
                step_id,
                allow_exit,
                problems,
            );
        },
    }
}

} // verus!
