//! What a planner is asked, and how a plan is drafted step by step.

use crate::chat::ChatMessageView;
use crate::json::{compact_text, pretty_text};
use crate::laws::agents::holds_text;
use crate::laws::conversing::lemma_stands_between;
use crate::laws::objects::lemma_holds_three;
use crate::pipeline::agent::{
    invalid_schema_problem, no_tools_problem, not_object_problem, rounds_problem, AgentSpecView,
};
use crate::pipeline::authoring::steps_problems;
use crate::pipeline::doc::PlanDocView;
use crate::pipeline::outline::{
    current_call, current_request, current_summary, draft_problems, draft_reported, draft_request,
    drafted, next_id, next_in_sequence, opened, outline_of, step_draft_of, under_way, DraftNextView,
    DraftView, OutlineItemView, PlanOutlineView, StepDraftView,
};
use crate::pipeline::plan::{number_in_id, step_json, step_of, PlannerOutputView, StepView};
use crate::pipeline::planner::{
    callable_plans, plan_request, planner_system, planner_tools, Surroundings,
};
use crate::pipeline::prompts::{
    closing_request_text, draft_section, drafting_text, planner_text, section, shape_of,
    shared_sections, step_request_text, tool_entry, tool_lines, tools_text, DraftingPromptView,
    PlannerPromptView,
};
use crate::pipeline::run::PipelineErrorView;
use crate::pipeline::state::RunStateView;
use crate::pipeline::written::{
    indented, outline_line, plan_page, planner_page, solver_page, stage_line, step_draft_line,
    step_line, step_page,
};
use crate::store::ToolShapeView;
use crate::text::{begins, ends, joined, numeral};
use crate::tools::ToolDefView;
use crate::value::{a_set_key_reads_back, lookup, member, object, put, Entries, Json};
use vstd::prelude::*;

verus! {

// ── Outlines ─────────────────────────────────────────────────────────────

/// An outline is read as it is written.
pub proof fn an_outline_is_what_is_written(e: Entries, k: int, f: Entries)
    requires
        outline_of(Json::Object(e)) is Ok,
    ensures
        ({
            let o = outline_of(Json::Object(e))->Ok_0;
            &&& o.query_to_answer == match lookup(e, "queryToAnswer"@) {
                Some(Json::Text(t)) => t,
                _ => ""@,
            }
            &&& o.system_prompt == match lookup(e, "systemPrompt"@) {
                Some(Json::Text(t)) => Some(t),
                _ => None,
            }
            &&& lookup(e, "items"@) matches Some(Json::List(items)) && items.len() == o.items.len()
                && (0 <= k < items.len() && items[k] == Json::Object(f) ==> {
                &&& o.items[k].summary == match lookup(f, "summary"@) {
                    Some(Json::Text(t)) => t,
                    _ => ""@,
                }
                &&& o.items[k].expected_tool == match lookup(f, "expectedTool"@) {
                    Some(Json::Text(t)) => Some(t),
                    _ => None,
                }
            })
        }),
{
    crate::laws::reading::an_outline_is_read_only_whole(e);
    reveal_strlit("");
    assert(""@ =~= Seq::<char>::empty());
}

/// A drafted step is read as it is written.
pub proof fn a_step_draft_is_what_is_written(e: Entries, step: Entries)
    requires
        step_draft_of(Json::Object(e)) is Ok,
    ensures
        ({
            let d = step_draft_of(Json::Object(e))->Ok_0;
            &&& d.plan_complete <==> lookup(e, "planComplete"@) == Some(Json::Bool(true))
            &&& (lookup(e, "step"@) is None || lookup(e, "step"@) == Some(Json::Null)) ==> d.step
                is None
            &&& lookup(e, "step"@) == Some(Json::Object(step)) ==> step_of(Json::Object(step))
                == Ok::<StepView, Seq<char>>(d.step->Some_0) && d.step is Some
        }),
{
    crate::laws::reading::a_step_draft_is_read_only_whole(e);
    if lookup(e, "step"@) == Some(Json::Object(step)) {
        assert(step_of(Json::Object(step)) is Ok);
    }
}

/// A drafting session opens on an outline that has stages, with the outline as the
/// model's answer.
pub proof fn a_session_opens_on_an_outline(
    around: Surroundings,
    query: Seq<char>,
    existing: Option<PlannerOutputView>,
    outline: PlanOutlineView,
)
    ensures
        ({
            let request = draft_request(around, query, existing);
            &&& request.messages.len() == 1
            &&& request.messages[0] matches ChatMessageView::User(told) && ends(told, query)
            &&& request.tools.len() == 0
            &&& outline.items.len() == 0 ==> opened(request, outline) is Err
            &&& outline.items.len() > 0 ==> (opened(request, outline) matches Ok(d) && {
                &&& d.system == request.system
                &&& d.outline == outline
                &&& d.plan.len() == 0
                &&& d.tail.len() == 0
                &&& d.attempts == 0
                &&& d.messages.len() == 2
                &&& d.messages[0] == request.messages[0]
                &&& d.messages[1] == ChatMessageView::Assistant(
                    Some(outline_line(outline)),
                    Seq::empty(),
                )
            })
        }),
{
    let lead = "Produce the plan outline for this"@ + " task.\n\n# Task\n"@;
    let told = lead + query;
    assert(told.subrange(lead.len() as int, told.len() as int) =~= query);
}

/// The next id is numbered one past the highest number in use, from nought on.
pub proof fn the_next_id_is_one_past_the_highest(plan: Seq<StepView>, i: int)
    ensures
        begins(next_id(plan), "E"@),
        next_id(plan) == "E"@ + numeral(next_in_sequence(plan) as nat),
        0 <= next_in_sequence(plan),
        0 <= i < plan.len() ==> (number_in_id(plan[i].id) matches Some(n) ==> n
            < next_in_sequence(plan)),
        next_in_sequence(plan) > 0 ==> exists|j: int|
            0 <= j < plan.len() && number_in_id((#[trigger] plan[j]).id) == Some(
                next_in_sequence(plan) - 1,
            ),
    decreases plan.len(),
{
    assert(next_id(plan).subrange(0, "E"@.len() as int) =~= "E"@);
    if plan.len() > 0 {
        let front = plan.drop_last();
        the_next_id_is_one_past_the_highest(front, i);
        if next_in_sequence(plan) > 0 {
            let top = next_in_sequence(plan) - 1;
            if number_in_id(plan.last().id) == Some(top) {
                assert(number_in_id(plan[plan.len() - 1].id) == Some(top));
            } else {
                let j = choose|j: int|
                    0 <= j < front.len() && number_in_id((#[trigger] front[j]).id) == Some(top);
                assert(plan[j] == front[j]);
            }
        }
    }
}

/// The model is asked for the stage that has no step yet, by number and by what it
/// should do; where every stage has one it is asked to close the plan.
#[verifier::spinoff_prover]
#[verifier::rlimit(40)]
pub proof fn the_next_stage_is_asked_for(d: DraftView)
    requires
        under_way(d),
    ensures
        ({
            let call = current_call(d);
            let n = d.plan.len();
            &&& call.system == d.system
            &&& call.messages.len() == d.messages.len() + 1 + d.tail.len()
            &&& call.messages.take(d.messages.len() as int) == d.messages
            &&& call.messages.skip(d.messages.len() as int + 1) == d.tail
            &&& call.messages[d.messages.len() as int] matches ChatMessageView::User(told)
                && holds_text(told, next_id(d.plan)) && (n < d.outline.items.len() ==> {
                &&& holds_text(told, d.outline.items[n as int].summary)
                &&& holds_text(told, "stage "@ + numeral(n + 1))
                &&& current_summary(d) == d.outline.items[n as int].summary
            })
            &&& call.tools.len() == 0 && call.response_schema is None
        }),
{
    let call = current_call(d);
    let n = d.plan.len();
    let id = next_id(d.plan);
    assert(call.messages.take(d.messages.len() as int) =~= d.messages);
    assert(call.messages.skip(d.messages.len() as int + 1) =~= d.tail);
    if n < d.outline.items.len() {
        let summary = d.outline.items[n as int].summary;
        let number = numeral(n + 1);
        let told = step_request_text(id, n as int + 1, summary);
        let end = "). Emit exactly one step — or step: null with planComplete: true if the accepted steps already complete the plan."@;
        assert((n as int + 1) as nat == n + 1);
        lemma_stands_between(
            "Produce step "@,
            id,
            " (stage "@ + number + ": "@ + summary + end,
        );
        assert(told =~= "Produce step "@ + id + (" (stage "@ + number + ": "@ + summary + end));
        let before = "Produce step "@ + id + " (stage "@ + number + ": "@;
        lemma_stands_between(before, summary, end);
        assert(told =~= before + summary + end);
        reveal_strlit(" (stage ");
        reveal_strlit("stage ");
        reveal_strlit(" (");
        assert(" (stage "@ =~= " ("@ + "stage "@);
        let head = "Produce step "@ + id + " ("@;
        let part = "stage "@ + number;
        lemma_stands_between(head, part, ": "@ + summary + end);
        assert(told =~= head + part + (": "@ + summary + end));
    } else {
        let told = closing_request_text(id);
        let a = "Every outline stage now has a step. If the plan is complete, return step: null with planComplete: true. Only if one concrete additional step is genuinely required to finish the plan, emit exactly that step as "@;
        lemma_stands_between(a, id, " and set planComplete: true on it."@);
        assert(told =~= a + id + " and set planComplete: true on it."@);
    }
}

/// A drafted step is sound exactly where the plan is sound with it; none may be left
/// out before the plan is complete.
pub proof fn a_drafted_step_is_checked_with_the_plan(d: DraftView, s: StepDraftView)
    ensures
        s.step matches Some(step) ==> draft_problems(d, s) == steps_problems(d.plan.push(step)),
        s.step is None ==> (draft_problems(d, s).len() == 0 <==> s.plan_complete && d.plan.len()
            > 0),
        match draft_reported(d, s) {
            Some(report) => {
                &&& report.problems == draft_problems(d, s)
                &&& report.attempt == d.attempts + 1
                &&& report.step == match s.step {
                    Some(step) => step_json(step),
                    None => Json::Null,
                }
            },
            None => s.step is None && s.plan_complete && d.plan.len() > 0,
        },
{
}

/// A sound step is taken into the plan at its end, and the plan is complete where the
/// model says so or two steps past the last stage; a defective one is asked for again
/// with its problems, three times at most.
#[verifier::spinoff_prover]
#[verifier::rlimit(40)]
pub proof fn a_drafted_step_is_taken_or_asked_for_again(d: DraftView, s: StepDraftView)
    requires
        under_way(d),
    ensures
        ({
            let problems = draft_problems(d, s);
            let plan = match s.step {
                Some(step) => d.plan.push(step),
                None => d.plan,
            };
            match drafted(d, s) {
                DraftNextView::Complete(output) => {
                    &&& problems.len() == 0
                    &&& output.plan == plan
                    &&& s.plan_complete || plan.len() >= d.outline.items.len() + 2
                    &&& output.solver_data.query_to_answer == d.outline.query_to_answer
                    &&& output.solver_data.system_prompt == d.outline.system_prompt
                },
                DraftNextView::Exhausted(
                    PipelineErrorView::DraftStepExhausted { step_id, attempts, problems: told, partial },
                ) => {
                    &&& problems.len() > 0
                    &&& d.attempts == 2
                    &&& attempts == 3
                    &&& told == problems
                    &&& step_id == next_id(d.plan)
                    &&& partial.plan == d.plan
                    &&& partial.solver_data.query_to_answer == d.outline.query_to_answer
                },
                DraftNextView::Exhausted(_) => false,
                DraftNextView::Continue(next) => if problems.len() > 0 {
                    &&& d.attempts < 2
                    &&& next.attempts == d.attempts + 1
                    &&& next.plan == d.plan && next.messages == d.messages
                    &&& next.tail.len() == d.tail.len() + 2
                    &&& next.tail[d.tail.len() as int] == ChatMessageView::Assistant(
                        Some(step_draft_line(s)),
                        Seq::empty(),
                    )
                    &&& next.tail.last() matches ChatMessageView::User(told) && holds_text(
                        told,
                        joined(problems, "\n- "@),
                    ) && holds_text(told, next_id(d.plan))
                } else {
                    &&& !s.plan_complete
                    &&& plan.len() < d.outline.items.len() + 2
                    &&& next.plan == plan
                    &&& next.attempts == 0 && next.tail.len() == 0
                    &&& next.messages.len() == d.messages.len() + 2
                    &&& next.messages[d.messages.len() as int] == ChatMessageView::User(
                        current_request(d),
                    )
                    &&& next.messages.last() == ChatMessageView::Assistant(
                        Some(step_draft_line(s)),
                        Seq::empty(),
                    )
                },
            }
        }),
{
    let problems = draft_problems(d, s);
    let id = next_id(d.plan);
    let listed = joined(problems, "\n- "@);
    let a = "The step is invalid:\n- "@;
    let b = "\nProduce a corrected step (id "@;
    let c = ") for the same stage; do not re-emit accepted steps."@;
    lemma_stands_between(a, listed, b + id + c);
    assert(a + listed + b + id + c =~= a + listed + (b + id + c));
    lemma_stands_between(a + listed + b, id, c);
}

// ── The planner's request ────────────────────────────────────────────────

/// The planner may use every tool, every kind of control step and every plan that is
/// not running already.
pub proof fn a_running_plan_is_not_offered(
    plans: Seq<PlanDocView>,
    stack: Seq<Seq<char>>,
    n: int,
    i: int,
)
    requires
        0 <= n <= plans.len(),
    ensures
        callable_plans(plans, stack, n).len() <= n,
        0 <= i < n && !stack.contains(plans[i].identifier) ==> exists|j: int|
            0 <= j < callable_plans(plans, stack, n).len() && (#[trigger] callable_plans(
                plans,
                stack,
                n,
            )[j]).name == "plan__"@ + plans[i].identifier,
        0 <= i < callable_plans(plans, stack, n).len() ==> exists|j: int|
            0 <= j < n && !stack.contains((#[trigger] plans[j]).identifier) && callable_plans(
                plans,
                stack,
                n,
            )[i].name == "plan__"@ + plans[j].identifier,
    decreases n,
{
    if n > 0 {
        let before = callable_plans(plans, stack, n - 1);
        let now = callable_plans(plans, stack, n);
        a_running_plan_is_not_offered(plans, stack, n - 1, i);
        if 0 <= i < n && !stack.contains(plans[i].identifier) {
            if i == n - 1 {
                assert(now[now.len() - 1].name == "plan__"@ + plans[i].identifier);
            } else {
                let j = choose|j: int|
                    0 <= j < before.len() && (#[trigger] before[j]).name == "plan__"@
                        + plans[i].identifier;
                assert(now[j] == before[j]);
            }
        }
        if 0 <= i < now.len() {
            if i < before.len() {
                let j = choose|j: int|
                    0 <= j < n - 1 && !stack.contains((#[trigger] plans[j]).identifier)
                        && before[i].name == "plan__"@ + plans[j].identifier;
                assert(!stack.contains(plans[j].identifier));
            } else {
                assert(!stack.contains(plans[n - 1].identifier));
            }
        }
    }
}

/// The planner's tools are the given ones, then the control steps, then the plans.
pub proof fn the_planner_is_offered_tools_controls_and_plans(
    tools: Seq<ToolDefView>,
    plans: Seq<PlanDocView>,
    stack: Seq<Seq<char>>,
    i: int,
)
    ensures
        ({
            let all = planner_tools(tools, plans, stack);
            let controls = crate::pipeline::control::control_tools();
            let called = callable_plans(plans, stack, plans.len() as int);
            &&& all.len() == tools.len() + controls.len() + called.len()
            &&& 0 <= i < tools.len() ==> all[i] == tools[i]
            &&& 0 <= i < controls.len() ==> all[tools.len() + i] == controls[i]
            &&& 0 <= i < called.len() ==> all[tools.len() + controls.len() + i] == called[i]
        }),
{
}

/// A section stands under its title wherever it is written.
proof fn lemma_section(a: Seq<char>, title: Seq<char>, body: Seq<char>, b: Seq<char>)
    ensures
        holds_text(a + section(title, body) + b, "### "@ + title + "\n"@ + body),
{
    reveal_strlit("\n\n### ");
    reveal_strlit("\n\n");
    reveal_strlit("### ");
    assert("\n\n### "@ =~= "\n\n"@ + "### "@);
    let part = "### "@ + title + "\n"@ + body;
    lemma_stands_between(a + "\n\n"@, part, b);
    assert(a + section(title, body) + b =~= a + "\n\n"@ + part + b);
}

/// A planner is told the date, the last error, what has run, the next id, the tools,
/// the user's context and the schema of a step, each under its title.
#[verifier::spinoff_prover]
#[verifier::rlimit(40)]
pub proof fn a_planner_is_told_each_thing_under_its_title(args: PlannerPromptView)
    ensures
        ({
            let text = planner_text(args);
            &&& holds_text(text, "### Current Date\n"@ + args.current_date)
            &&& args.last_error matches Some(e) ==> holds_text(text, "### Last Error\n"@ + e)
            &&& args.last_error is None ==> holds_text(text, "### Last Error\nnone"@)
            &&& holds_text(text, "### Existing Plan\n"@)
            &&& holds_text(text, args.existing_plan)
            &&& holds_text(text, "### Next Step Id\n"@ + args.next_step_id)
            &&& holds_text(text, "### Tools\n"@ + args.tools)
            &&& holds_text(text, "### User Context\n"@ + args.user_context)
            &&& holds_text(text, "### Step Schema\n"@ + args.step_schema)
        }),
{
    let text = planner_text(args);
    let intro = "You are a planner. Compose a sequence of tool calls that completes the user's task, with data flowing between steps. Output the plan and the solver data as JSON."@;
    let error = match args.last_error {
        Some(e) => e,
        None => "none"@,
    };
    let note = "These steps have executed and cannot change; continue after them.\n"@;
    let date = section("Current Date"@, args.current_date);
    let failed = section("Last Error"@, error);
    let existing = section("Existing Plan"@, note + args.existing_plan);
    let next = section("Next Step Id"@, args.next_step_id);
    let shared = shared_sections(args.tools, args.user_context, args.step_schema);
    assert(text == intro + date + failed + existing + next + shared);
    lemma_regrouped(intro, date, failed, existing, next, shared);
    lemma_titles();
    lemma_section(intro, "Current Date"@, args.current_date, failed + existing + next + shared);
    lemma_section(intro + date, "Last Error"@, error, existing + next + shared);
    lemma_section(
        intro + date + failed,
        "Existing Plan"@,
        note + args.existing_plan,
        next + shared,
    );
    lemma_section(intro + date + failed + existing, "Next Step Id"@, args.next_step_id, shared);
    lemma_shared(
        intro + date + failed + existing + next,
        args.tools,
        args.user_context,
        args.step_schema,
    );
    let title = "### Existing Plan\n"@;
    let whole = title + (note + args.existing_plan);
    lemma_stands_between(Seq::empty(), title, note + args.existing_plan);
    assert(Seq::<char>::empty() + title + (note + args.existing_plan) =~= whole);
    lemma_part_of_a_part(text, whole, title);
    lemma_stands_between(title + note, args.existing_plan, Seq::empty());
    assert(title + note + args.existing_plan + Seq::empty() =~= whole);
    lemma_part_of_a_part(text, whole, args.existing_plan);
}

/// Six texts in a row, however they are grouped.
proof fn lemma_regrouped(
    a: Seq<char>,
    b: Seq<char>,
    c: Seq<char>,
    d: Seq<char>,
    e: Seq<char>,
    f: Seq<char>,
)
    ensures
        a + b + c + d + e + f == a + b + (c + d + e + f),
        a + b + c + d + e + f == a + b + c + (d + e + f),
        a + b + c + d + e + f == a + b + c + d + (e + f),
{
    assert(a + b + c + d + e + f =~= a + b + (c + d + e + f));
    assert(a + b + c + d + e + f =~= a + b + c + (d + e + f));
    assert(a + b + c + d + e + f =~= a + b + c + d + (e + f));
}

/// What stands in a part of a text stands in the text.
proof fn lemma_part_of_a_part(s: Seq<char>, whole: Seq<char>, part: Seq<char>)
    requires
        holds_text(s, whole),
        holds_text(whole, part),
    ensures
        holds_text(s, part),
{
    let i = choose|i: int|
        0 <= i && i + whole.len() <= s.len() && #[trigger] s.subrange(i, i + whole.len()) == whole;
    let j = choose|j: int|
        0 <= j && j + part.len() <= whole.len() && #[trigger] whole.subrange(j, j + part.len())
            == part;
    let at = i + j;
    assert(s.subrange(at, at + part.len()) =~= whole.subrange(j, j + part.len()));
}

/// How the titles of a prompt are written.
#[verifier::spinoff_prover]
#[verifier::rlimit(40)]
proof fn lemma_titles()
    ensures
        "\n\n### "@ == "\n\n"@ + "### "@,
        "### "@ + "Current Date"@ + "\n"@ == "### Current Date\n"@,
        "### "@ + "Last Error"@ + "\n"@ == "### Last Error\n"@,
        "### Last Error\n"@ + "none"@ == "### Last Error\nnone"@,
        "### "@ + "Existing Plan"@ + "\n"@ == "### Existing Plan\n"@,
        "### "@ + "Next Step Id"@ + "\n"@ == "### Next Step Id\n"@,
        "### "@ + "Tools"@ + "\n"@ == "### Tools\n"@,
        "### "@ + "User Context"@ + "\n"@ == "### User Context\n"@,
        "### "@ + "Step Schema"@ + "\n"@ == "### Step Schema\n"@,
{
    reveal_strlit("\n\n### ");
    reveal_strlit("\n\n");
    reveal_strlit("### ");
    reveal_strlit("\n");
    reveal_strlit("none");
    reveal_strlit("### Last Error\nnone");
    assert("\n\n### "@ =~= "\n\n"@ + "### "@);
    reveal_strlit("Current Date");
    reveal_strlit("### Current Date\n");
    assert("### "@ + "Current Date"@ + "\n"@ =~= "### Current Date\n"@);
    reveal_strlit("Last Error");
    reveal_strlit("### Last Error\n");
    assert("### "@ + "Last Error"@ + "\n"@ =~= "### Last Error\n"@);
    assert("### Last Error\n"@ + "none"@ =~= "### Last Error\nnone"@);
    reveal_strlit("Existing Plan");
    reveal_strlit("### Existing Plan\n");
    assert("### "@ + "Existing Plan"@ + "\n"@ =~= "### Existing Plan\n"@);
    reveal_strlit("Next Step Id");
    reveal_strlit("### Next Step Id\n");
    assert("### "@ + "Next Step Id"@ + "\n"@ =~= "### Next Step Id\n"@);
    reveal_strlit("Tools");
    reveal_strlit("### Tools\n");
    assert("### "@ + "Tools"@ + "\n"@ =~= "### Tools\n"@);
    reveal_strlit("User Context");
    reveal_strlit("### User Context\n");
    assert("### "@ + "User Context"@ + "\n"@ =~= "### User Context\n"@);
    reveal_strlit("Step Schema");
    reveal_strlit("### Step Schema\n");
    assert("### "@ + "Step Schema"@ + "\n"@ =~= "### Step Schema\n"@);
}

/// The sections that every planner is given, behind whatever comes before them.
#[verifier::spinoff_prover]
#[verifier::rlimit(40)]
proof fn lemma_shared(a: Seq<char>, tools: Seq<char>, user: Seq<char>, schema: Seq<char>)
    ensures
        holds_text(a + shared_sections(tools, user, schema), "### Tools\n"@ + tools),
        holds_text(a + shared_sections(tools, user, schema), "### User Context\n"@ + user),
        holds_text(a + shared_sections(tools, user, schema), "### Step Schema\n"@ + schema),
{
    let shared = shared_sections(tools, user, schema);
    let s1 = section("Tools"@, tools);
    let s2 = section("Templates"@, crate::pipeline::prompts::TEMPLATING_RULES@);
    let s3 = section("Planning Rules"@, crate::pipeline::prompts::PLANNING_RULES@);
    let s4 = section("Control Steps"@, crate::pipeline::prompts::CONTROL_STEP_RULES@);
    let s5 = section("User Context"@, user);
    let s6 = section("Step Schema"@, schema);
    assert(shared == s1 + s2 + s3 + s4 + s5 + s6);
    lemma_titles();
    lemma_section(a, "Tools"@, tools, s2 + s3 + s4 + s5 + s6);
    assert(a + shared =~= a + s1 + (s2 + s3 + s4 + s5 + s6));
    let b = a + (s1 + s2 + s3 + s4);
    lemma_section(b, "User Context"@, user, s6);
    assert(a + shared =~= b + s5 + s6);
    lemma_section(b + s5, "Step Schema"@, schema, Seq::empty());
    assert(a + shared =~= b + s5 + s6 + Seq::empty());
}

/// A drafting session is told the date, the tools, the user's context, the schema of
/// a step, and the draft under revision where there is one.
#[verifier::spinoff_prover]
#[verifier::rlimit(40)]
pub proof fn a_drafting_session_is_told_each_thing_under_its_title(args: DraftingPromptView)
    ensures
        ({
            let text = drafting_text(args);
            &&& holds_text(text, "### Current Date\n"@ + args.current_date)
            &&& args.draft matches Some(draft) ==> holds_text(
                text,
                "<draft_plan>\n"@ + draft + "\n</draft_plan>"@,
            )
            &&& holds_text(text, "### Tools\n"@ + args.tools)
            &&& holds_text(text, "### User Context\n"@ + args.user_context)
            &&& holds_text(text, "### Step Schema\n"@ + args.step_schema)
        }),
{
    let text = drafting_text(args);
    let intro = "You are a planner. Compose a sequence of tool calls that completes the user's task, with data flowing between steps."@;
    let protocol = section(
        "Drafting Protocol"@,
        crate::pipeline::prompts::DRAFTING_PROTOCOL@,
    );
    let date = section("Current Date"@, args.current_date);
    let draft = draft_section(args.draft);
    let shared = shared_sections(args.tools, args.user_context, args.step_schema);
    assert(text == intro + protocol + date + draft + shared);
    lemma_titles();
    lemma_section(intro + protocol, "Current Date"@, args.current_date, draft + shared);
    assert(text =~= intro + protocol + date + (draft + shared));
    lemma_shared(
        intro + protocol + date + draft,
        args.tools,
        args.user_context,
        args.step_schema,
    );
    if let Some(d) = args.draft {
        let lead = "\n\n### Draft Under Revision\nThe following draft plan has NOT been executed. Revise it according to the user's request — you may modify, reorder, remove, or replace any step. Output the COMPLETE revised plan, not a diff: a fresh outline, then every step.\n<draft_plan>\n"@;
        let mark = "<draft_plan>\n"@;
        reveal_strlit(
            "\n\n### Draft Under Revision\nThe following draft plan has NOT been executed. Revise it according to the user's request — you may modify, reorder, remove, or replace any step. Output the COMPLETE revised plan, not a diff: a fresh outline, then every step.\n<draft_plan>\n",
        );
        reveal_strlit("<draft_plan>\n");
        let start = lead.len() - mark.len();
        assert(lead.subrange(start, lead.len() as int) =~= mark);
        let part = mark + d + "\n</draft_plan>"@;
        let before = intro + protocol + date + lead.subrange(0, start);
        lemma_stands_between(before, part, shared);
        assert(lead =~= lead.subrange(0, start) + mark);
        assert(text =~= before + part + shared);
    }
}

/// A planned run is planned from its query, with what has run, the latest error and
/// the next free id.
#[verifier::spinoff_prover]
#[verifier::rlimit(40)]
pub proof fn a_run_is_planned_from_its_query(around: Surroundings, s: RunStateView)
    ensures
        ({
            let request = plan_request(around, s);
            let done = crate::pipeline::state::executed(s.plan, s.results);
            &&& request.messages.len() == 1
            &&& request.messages[0] == ChatMessageView::User(s.query)
            &&& request.tools.len() == 0
            &&& holds_text(request.system, "### Current Date\n"@ + around.current_date@)
            &&& holds_text(request.system, "### User Context\n"@ + around.user_context@)
            &&& holds_text(request.system, "### Tools\n"@ + around.catalog())
            &&& holds_text(
                request.system,
                "### Next Step Id\nE"@ + numeral(
                    crate::pipeline::state::next_number(s.plan, s.results) as nat,
                ),
            )
            &&& done.len() > 0 ==> holds_text(request.system, plan_page(done))
            &&& crate::pipeline::state::last_error_before(s.bus, s.bus.len() as int) matches Some(i)
                ==> holds_text(request.system, "### Last Error\n"@ + s.bus[i].content)
        }),
{
    let done = crate::pipeline::state::executed(s.plan, s.results);
    let error = crate::pipeline::state::last_error_before(s.bus, s.bus.len() as int);
    let number = numeral(crate::pipeline::state::next_number(s.plan, s.results) as nat);
    let args = PlannerPromptView {
        current_date: around.current_date@,
        last_error: match error {
            Some(i) => Some(s.bus[i].content),
            None => None,
        },
        next_step_id: "E"@ + number,
        tools: around.catalog(),
        user_context: around.user_context@,
        existing_plan: if done.len() == 0 {
            "(none)"@
        } else {
            plan_page(done)
        },
        step_schema: around.step_schema@,
    };
    assert(planner_system(around, s) == planner_text(args));
    a_planner_is_told_each_thing_under_its_title(args);
    reveal_strlit("### Next Step Id\n");
    reveal_strlit("E");
    reveal_strlit("### Next Step Id\nE");
    assert("### Next Step Id\n"@ + ("E"@ + number) =~= "### Next Step Id\nE"@ + number);
}

// ── The catalogue ────────────────────────────────────────────────────────

/// The shape of a tool is the one noted last under its name.
pub proof fn the_latest_shape_counts(shapes: Seq<ToolShapeView>, tool: Seq<char>, n: int)
    requires
        0 <= n <= shapes.len(),
    ensures
        match shape_of(shapes, tool, n) {
            Some(shape) => exists|i: int|
                0 <= i < n && (#[trigger] shapes[i]).tool == tool && shapes[i] == shape && forall|
                    j: int,
                |
                    i < j < n ==> (#[trigger] shapes[j]).tool != tool,
            None => forall|j: int| 0 <= j < n ==> (#[trigger] shapes[j]).tool != tool,
        },
    decreases n,
{
    if n > 0 && shapes[n - 1].tool != tool {
        the_latest_shape_counts(shapes, tool, n - 1);
        if let Some(shape) = shape_of(shapes, tool, n - 1) {
            let i = choose|i: int|
                0 <= i < n - 1 && (#[trigger] shapes[i]).tool == tool && shapes[i] == shape
                    && forall|j: int| i < j < n - 1 ==> (#[trigger] shapes[j]).tool != tool;
            assert(shapes[i] == shape);
        }
    } else if n > 0 {
        assert(shapes[n - 1].tool == tool);
    }
}

/// A tool is described by its name, what it does and what it takes, and by what it
/// gives: as declared, or else as observed.
#[verifier::spinoff_prover]
#[verifier::rlimit(40)]
pub proof fn a_tool_is_described_as_declared_or_observed(
    tool: ToolDefView,
    shapes: Seq<ToolShapeView>,
)
    ensures
        ({
            let e = tool_entry(tool, shapes);
            let silent = tool.output_schema is None && tool.output_example is None;
            let seen = if silent {
                shape_of(shapes, tool.name, shapes.len() as int)
            } else {
                None
            };
            &&& lookup(e, "name"@) == Some(Json::Text(tool.name))
            &&& lookup(e, "description"@) == Some(Json::Text(tool.description))
            &&& lookup(e, "inputSchema"@) == Some(tool.input_schema)
            &&& lookup(e, "outputSchema"@) == tool.output_schema
            &&& lookup(e, "outputExample"@) == tool.output_example
            &&& lookup(e, "observedOutputShape"@) == match seen {
                Some(shape) => Some(shape.schema),
                None => None,
            }
            &&& lookup(e, "observedOutputExample"@) == match seen {
                Some(shape) => Some(shape.example),
                None => None,
            }
        }),
{
    reveal_strlit("name");
    reveal_strlit("description");
    reveal_strlit("inputSchema");
    reveal_strlit("outputSchema");
    reveal_strlit("outputExample");
    reveal_strlit("observedOutputShape");
    reveal_strlit("observedOutputExample");
    assert("name"@.len() != "description"@.len());
    assert("name"@.len() != "inputSchema"@.len());
    assert("name"@.len() != "outputSchema"@.len());
    assert("name"@.len() != "outputExample"@.len());
    assert("name"@.len() != "observedOutputShape"@.len());
    assert("name"@.len() != "observedOutputExample"@.len());
    assert("description"@[0] != "inputSchema"@[0]);
    assert("description"@.len() != "outputSchema"@.len());
    assert("description"@.len() != "outputExample"@.len());
    assert("description"@.len() != "observedOutputShape"@.len());
    assert("description"@.len() != "observedOutputExample"@.len());
    assert("inputSchema"@.len() != "outputSchema"@.len());
    assert("inputSchema"@.len() != "outputExample"@.len());
    assert("inputSchema"@.len() != "observedOutputShape"@.len());
    assert("inputSchema"@.len() != "observedOutputExample"@.len());
    assert("outputSchema"@.len() != "outputExample"@.len());
    assert("outputSchema"@.len() != "observedOutputShape"@.len());
    assert("outputSchema"@.len() != "observedOutputExample"@.len());
    assert("outputExample"@.len() != "observedOutputShape"@.len());
    assert("outputExample"@.len() != "observedOutputExample"@.len());
    assert("observedOutputShape"@.len() != "observedOutputExample"@.len());
    let (k1, k2, k3) = ("name"@, "description"@, "inputSchema"@);
    let (v1, v2, v3) = (
        Json::Text(tool.name),
        Json::Text(tool.description),
        tool.input_schema,
    );
    let base = object(seq![(k1, v1), (k2, v2), (k3, v3)]);
    let declared = match tool.output_schema {
        Some(schema) => put(base, "outputSchema"@, schema),
        None => base,
    };
    let shown = match tool.output_example {
        Some(example) => put(declared, "outputExample"@, example),
        None => declared,
    };
    assert forall|key: Seq<char>| #[trigger] lookup(shown, key) == (if key == "outputExample"@ {
        tool.output_example
    } else if key == "outputSchema"@ {
        tool.output_schema
    } else if key == k1 {
        Some(v1)
    } else if key == k2 {
        Some(v2)
    } else if key == k3 {
        Some(v3)
    } else {
        None
    }) by {
        lemma_holds_three(k1, v1, k2, v2, k3, v3, key);
        if let Some(schema) = tool.output_schema {
            a_set_key_reads_back(base, "outputSchema"@, schema, key);
        }
        if let Some(example) = tool.output_example {
            a_set_key_reads_back(declared, "outputExample"@, example, key);
        }
    }
    if tool.output_schema is None && tool.output_example is None {
        if let Some(shape) = shape_of(shapes, tool.name, shapes.len() as int) {
            let with_shape = put(shown, "observedOutputShape"@, shape.schema);
            assert forall|key: Seq<char>| #[trigger]
                lookup(tool_entry(tool, shapes), key) == (if key == "observedOutputExample"@ {
                    Some(shape.example)
                } else if key == "observedOutputShape"@ {
                    Some(shape.schema)
                } else {
                    lookup(shown, key)
                }) by {
                a_set_key_reads_back(shown, "observedOutputShape"@, shape.schema, key);
                a_set_key_reads_back(with_shape, "observedOutputExample"@, shape.example, key);
            }
        }
    }
}

proof fn lemma_still_stands(s: Seq<char>, part: Seq<char>, more: Seq<char>)
    requires
        holds_text(s, part),
    ensures
        holds_text(s + more, part),
{
    let at = choose|at: int|
        0 <= at && at + part.len() <= s.len() && #[trigger] s.subrange(at, at + part.len()) == part;
    assert((s + more).subrange(at, at + part.len()) =~= part);
}

proof fn lemma_stands_last(s: Seq<char>, part: Seq<char>)
    ensures
        holds_text(s + part, part),
{
    lemma_stands_between(s, part, Seq::empty());
    assert(s + part + Seq::empty() =~= s + part);
}

#[verifier::spinoff_prover]
proof fn lemma_lines(tools: Seq<ToolDefView>, shapes: Seq<ToolShapeView>, n: int, i: int)
    requires
        0 <= i < n <= tools.len(),
    ensures
        holds_text(
            tool_lines(tools, shapes, n),
            compact_text(Json::Object(tool_entry(tools[i], shapes))) + "\n"@,
        ),
    decreases n,
{
    let before = tool_lines(tools, shapes, n - 1);
    let text = compact_text(Json::Object(tool_entry(tools[n - 1], shapes)));
    let last = text + "\n"@;
    assert(tool_lines(tools, shapes, n) == before + text + "\n"@);
    assert(before + text + "\n"@ =~= before + last);
    if i == n - 1 {
        lemma_stands_last(before, last);
    } else {
        lemma_lines(tools, shapes, n - 1, i);
        lemma_still_stands(
            before,
            compact_text(Json::Object(tool_entry(tools[i], shapes))) + "\n"@,
            last,
        );
    }
}

/// Every tool has a line of its own in the catalogue.
pub proof fn every_tool_has_its_line(tools: Seq<ToolDefView>, shapes: Seq<ToolShapeView>, i: int)
    requires
        0 <= i < tools.len(),
    ensures
        holds_text(
            tools_text(tools, shapes),
            compact_text(Json::Object(tool_entry(tools[i], shapes))) + "\n"@,
        ),
{
    lemma_lines(tools, shapes, tools.len() as int, i);
}

// ── What is written down ─────────────────────────────────────────────────

/// A step's line names each field before its value.
#[verifier::spinoff_prover]
#[verifier::rlimit(40)]
pub proof fn a_steps_line_names_its_fields(s: StepView, d: StepDraftView, i: OutlineItemView)
    ensures
        ({
            let line = step_line(s);
            &&& begins(line, "{\"id\":"@ + compact_text(Json::Text(s.id)))
            &&& holds_text(line, ",\"toolName\":"@ + compact_text(Json::Text(s.tool_name)))
            &&& holds_text(line, ",\"input\":"@ + compact_text(Json::Object(s.input)))
            &&& s.reasoning matches Some(why) ==> ends(
                line,
                ",\"reasoning\":"@ + compact_text(Json::Text(why)) + "}"@,
            )
            &&& s.reasoning is None ==> ends(
                line,
                ",\"reasoning\":"@ + compact_text(Json::Null) + "}"@,
            )
        }),
        d.plan_complete ==> ends(step_draft_line(d), ",\"planComplete\":"@ + "true"@ + "}"@),
        !d.plan_complete ==> ends(step_draft_line(d), ",\"planComplete\":"@ + "false"@ + "}"@),
        d.step matches Some(step) ==> begins(step_draft_line(d), "{\"step\":"@ + step_line(step)),
        d.step is None ==> begins(step_draft_line(d), "{\"step\":"@ + "null"@),
        begins(stage_line(i), "{\"summary\":"@ + compact_text(Json::Text(i.summary))),
        i.expected_tool matches Some(tool) ==> ends(
            stage_line(i),
            ",\"expectedTool\":"@ + compact_text(Json::Text(tool)) + "}"@,
        ),
{
    let line = step_line(s);
    let p1 = "{\"id\":"@ + compact_text(Json::Text(s.id));
    let p2 = ",\"toolName\":"@ + compact_text(Json::Text(s.tool_name));
    let p3 = ",\"input\":"@ + compact_text(Json::Object(s.input));
    let p4 = ",\"reasoning\":"@ + compact_text(crate::pipeline::plan::text_or_null(s.reasoning))
        + "}"@;
    assert(line =~= p1 + p2 + p3 + p4);
    assert(line.subrange(0, p1.len() as int) =~= p1);
    lemma_stands_between(p1, p2, p3 + p4);
    assert(line =~= p1 + p2 + (p3 + p4));
    lemma_stands_between(p1 + p2, p3, p4);
    assert(line.subrange(line.len() - p4.len(), line.len() as int) =~= p4);
    let whole = step_draft_line(d);
    let head = "{\"step\":"@ + (match d.step {
        Some(step) => step_line(step),
        None => "null"@,
    });
    let tail = ",\"planComplete\":"@ + (if d.plan_complete {
        "true"@
    } else {
        "false"@
    }) + "}"@;
    assert(whole =~= head + tail);
    assert(whole.subrange(0, head.len() as int) =~= head);
    assert(whole.subrange(whole.len() - tail.len(), whole.len() as int) =~= tail);
    let stage = stage_line(i);
    let q1 = "{\"summary\":"@ + compact_text(Json::Text(i.summary));
    let q2 = ",\"expectedTool\":"@ + compact_text(
        crate::pipeline::plan::text_or_null(i.expected_tool),
    ) + "}"@;
    assert(stage =~= q1 + q2);
    assert(stage.subrange(0, q1.len() as int) =~= q1);
    assert(stage.subrange(stage.len() - q2.len(), stage.len() as int) =~= q2);
}

/// An outline's line holds its stages in order, its question and its prompt.
#[verifier::spinoff_prover]
#[verifier::rlimit(40)]
pub proof fn an_outlines_line_names_its_fields(o: PlanOutlineView)
    ensures
        ({
            let line = outline_line(o);
            let stages = Seq::new(o.items.len(), |i: int| stage_line(o.items[i]));
            &&& begins(line, "{\"items\":["@ + joined(stages, ","@) + "]"@)
            &&& holds_text(
                line,
                ",\"queryToAnswer\":"@ + compact_text(Json::Text(o.query_to_answer)),
            )
            &&& o.system_prompt matches Some(p) ==> ends(
                line,
                ",\"systemPrompt\":"@ + compact_text(Json::Text(p)) + "}"@,
            )
        }),
{
    let line = outline_line(o);
    let stages = Seq::new(o.items.len(), |i: int| stage_line(o.items[i]));
    reveal_strlit("],\"queryToAnswer\":");
    reveal_strlit("]");
    reveal_strlit(",\"queryToAnswer\":");
    assert("],\"queryToAnswer\":"@ =~= "]"@ + ",\"queryToAnswer\":"@);
    let p1 = "{\"items\":["@ + joined(stages, ","@) + "]"@;
    let p2 = ",\"queryToAnswer\":"@ + compact_text(Json::Text(o.query_to_answer));
    let p3 = ",\"systemPrompt\":"@ + compact_text(
        crate::pipeline::plan::text_or_null(o.system_prompt),
    ) + "}"@;
    assert(line =~= p1 + p2 + p3);
    assert(line.subrange(0, p1.len() as int) =~= p1);
    lemma_stands_between(p1, p2, p3);
    assert(line.subrange(line.len() - p3.len(), line.len() as int) =~= p3);
}

/// A page shows each field under its name, and a plan's page its steps in order.
#[verifier::spinoff_prover]
#[verifier::rlimit(40)]
pub proof fn a_page_names_its_fields(s: StepView, plan: Seq<StepView>, o: PlannerOutputView)
    ensures
        ({
            let page = step_page(s);
            &&& begins(page, "{\n  \"id\": "@ + compact_text(Json::Text(s.id)))
            &&& holds_text(page, ",\n  \"toolName\": "@ + compact_text(Json::Text(s.tool_name)))
            &&& holds_text(
                page,
                ",\n  \"input\": "@ + indented(pretty_text(Json::Object(s.input))),
            )
            &&& s.reasoning matches Some(why) ==> ends(
                page,
                ",\n  \"reasoning\": "@ + compact_text(Json::Text(why)) + "\n}"@,
            )
        }),
        plan.len() == 0 ==> plan_page(plan) == "[]"@,
        plan.len() > 0 ==> plan_page(plan) == "[\n  "@ + joined(
            Seq::new(plan.len(), |i: int| indented(step_page(plan[i]))),
            ",\n  "@,
        ) + "\n]"@,
        begins(planner_page(o), "{\n  \"plan\": "@ + indented(plan_page(o.plan))),
        ends(
            planner_page(o),
            ",\n  \"solverData\": "@ + indented(solver_page(o.solver_data)) + "\n}"@,
        ),
        begins(
            solver_page(o.solver_data),
            "{\n  \"queryToAnswer\": "@ + compact_text(Json::Text(o.solver_data.query_to_answer)),
        ),
        ends(
            solver_page(o.solver_data),
            ",\n  \"data\": "@ + indented(pretty_text(Json::Object(o.solver_data.data))) + "\n}"@,
        ),
{
    let page = step_page(s);
    let p1 = "{\n  \"id\": "@ + compact_text(Json::Text(s.id));
    let p2 = ",\n  \"toolName\": "@ + compact_text(Json::Text(s.tool_name));
    let p3 = ",\n  \"input\": "@ + indented(pretty_text(Json::Object(s.input)));
    let p4 = ",\n  \"reasoning\": "@ + compact_text(
        crate::pipeline::plan::text_or_null(s.reasoning),
    ) + "\n}"@;
    assert(page =~= p1 + p2 + p3 + p4);
    assert(page.subrange(0, p1.len() as int) =~= p1);
    lemma_stands_between(p1, p2, p3 + p4);
    assert(page =~= p1 + p2 + (p3 + p4));
    lemma_stands_between(p1 + p2, p3, p4);
    assert(page.subrange(page.len() - p4.len(), page.len() as int) =~= p4);
    let whole = planner_page(o);
    let q1 = "{\n  \"plan\": "@ + indented(plan_page(o.plan));
    let q2 = ",\n  \"solverData\": "@ + indented(solver_page(o.solver_data)) + "\n}"@;
    assert(whole =~= q1 + q2);
    assert(whole.subrange(0, q1.len() as int) =~= q1);
    assert(whole.subrange(whole.len() - q2.len(), whole.len() as int) =~= q2);
    let d = o.solver_data;
    let solver = solver_page(d);
    let r1 = "{\n  \"queryToAnswer\": "@ + compact_text(Json::Text(d.query_to_answer));
    let r3 = ",\n  \"data\": "@ + indented(pretty_text(Json::Object(d.data))) + "\n}"@;
    assert(solver.subrange(0, r1.len() as int) =~= r1);
    assert(solver.subrange(solver.len() - r3.len(), solver.len() as int) =~= r3);
}

/// Indenting a text keeps everything but sets each line two further in.
pub proof fn indenting_sets_each_line_in(a: Seq<char>, line: Seq<char>)
    requires
        !line.contains('\n'),
    ensures
        indented(line) == line,
        indented(a + seq!['\n'] + line) == indented(a) + "\n  "@ + line,
    decreases line.len(),
{
    if line.len() == 0 {
        assert(a + seq!['\n'] + line =~= a.push('\n'));
        assert(a.push('\n').drop_last() =~= a);
        assert(indented(a) + "\n  "@ + line =~= indented(a) + "\n  "@);
        assert(indented(line) =~= line);
    } else {
        let front = line.drop_last();
        assert(!front.contains('\n')) by {
            if front.contains('\n') {
                let i = choose|i: int| 0 <= i < front.len() && front[i] == '\n';
                assert(line[i] == '\n');
            }
        }
        assert(line[line.len() - 1] != '\n');
        indenting_sets_each_line_in(a, front);
        let whole = a + seq!['\n'] + line;
        assert(whole.drop_last() =~= a + seq!['\n'] + front);
        assert(whole.last() == line.last());
        assert(indented(whole) =~= indented(a) + "\n  "@ + line);
        assert(indented(line) =~= line);
    }
}

// ── Checks of an agent step ──────────────────────────────────────────────

/// An agent step needs a round, a tool where tools are listed, and an answer that is
/// an object.
pub proof fn an_agent_needs_a_round_and_an_object(spec: AgentSpecView, fault: Option<Seq<char>>)
    ensures
        rounds_problem(spec) is None <==> spec.max_iterations >= 1,
        no_tools_problem(spec) is Some <==> (spec.tools matches Some(tools) && tools.len() == 0),
        invalid_schema_problem(fault) is Some <==> fault is Some,
        not_object_problem(spec.output_schema) is None <==> (match member(
            spec.output_schema,
            "type"@,
        ) {
            Some(Json::Text(t)) => t == "object"@,
            _ => member(spec.output_schema, "properties"@) is Some,
        }),
{
}

} // verus!
