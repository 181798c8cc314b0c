//! Names of tools: how patterns match them, and where they resolve.

use crate::pipeline::body::{branch_of, BranchView};
use crate::pipeline::catalog::{
    bodies_tools, body_keys, body_tools, call_patterns, call_ref, distinct_refs, glob, glob_from,
    listed_patterns, namespace_of, pattern_findings, patterns_findings, plan_findings, plan_name,
    plan_patterns, plan_ref, plan_tools, prefixed, refs_of_plan, tool_findings, tools_findings,
    CatalogCheckView, ToolCatalogView, ToolRef,
};
use crate::pipeline::doc::PlanDocView;
use crate::pipeline::plan::StepView;
use crate::pipeline::resolve::{
    hits, plan_tool, resolution, selected, selection, unmatched, with_def, with_plans,
};
use crate::seqs::lemma_adding_new_contains;
use crate::template::parser::lemma_find_bounds;
use crate::text::{begins, ends, find_from, joined};
use crate::tools::{tool_error_text, ToolDefView, ToolErrorView};
use crate::value::{lookup, Entries, Json};
use vstd::prelude::*;

verus! {

// ── Patterns ─────────────────────────────────────────────────────────────

proof fn lemma_glob_shift(p: Seq<char>, i: int, d: int, name: Seq<char>, j: int, e: int)
    requires
        0 <= d <= i,
        0 <= e <= j <= name.len(),
        d <= p.len(),
    ensures
        glob_from(p, i, name, j) == glob_from(p.skip(d), i - d, name.skip(e), j - e),
    decreases p.len() - i, name.len() - j,
{
    if i < p.len() {
        assert(p.skip(d)[i - d] == p[i]);
        if p[i] == '*' {
            lemma_glob_shift(p, i + 1, d, name, j, e);
            if j < name.len() {
                lemma_glob_shift(p, i, d, name, j + 1, e);
            }
        } else if j < name.len() {
            assert(name.skip(e)[j - e] == name[j]);
            lemma_glob_shift(p, i + 1, d, name, j + 1, e);
        }
    }
}

proof fn lemma_glob_star(p: Seq<char>, name: Seq<char>, j: int)
    requires
        p.len() > 0,
        p[0] == '*',
        0 <= j <= name.len(),
    ensures
        glob_from(p, 0, name, j) <==> exists|k: int|
            j <= k <= name.len() && #[trigger] glob_from(p, 1, name, k),
    decreases name.len() - j,
{
    assert(glob_from(p, 0, name, j) == (glob_from(p, 1, name, j) || (j < name.len() && glob_from(
        p,
        0,
        name,
        j + 1,
    ))));
    if j < name.len() {
        lemma_glob_star(p, name, j + 1);
        if glob_from(p, 0, name, j + 1) {
            let k = choose|k: int| j + 1 <= k <= name.len() && #[trigger] glob_from(p, 1, name, k);
            assert(j <= k && glob_from(p, 1, name, k));
        }
        if exists|k: int| j <= k <= name.len() && #[trigger] glob_from(p, 1, name, k) {
            let k = choose|k: int| j <= k <= name.len() && #[trigger] glob_from(p, 1, name, k);
            if k > j {
                assert(j + 1 <= k && glob_from(p, 1, name, k));
            }
        }
    }
}

/// A pattern is matched from its front: a star stands for any number of characters,
/// every other character for itself, and nothing is left over.
pub proof fn a_pattern_is_matched_from_its_front(c: char, p: Seq<char>, name: Seq<char>)
    ensures
        glob(Seq::empty(), name) <==> name.len() == 0,
        c != '*' ==> (glob(seq![c] + p, name) <==> name.len() > 0 && name[0] == c && glob(
            p,
            name.skip(1),
        )),
        c == '*' ==> (glob(seq![c] + p, name) <==> exists|k: int|
            0 <= k <= name.len() && #[trigger] glob(p, name.skip(k))),
{
    let whole = seq![c] + p;
    assert(whole.skip(1) =~= p);
    if c == '*' {
        lemma_glob_star(whole, name, 0);
        assert forall|k: int| 0 <= k <= name.len() implies #[trigger] glob(p, name.skip(k))
            == glob_from(whole, 1, name, k) by {
            lemma_glob_shift(whole, 1, 1, name, k, k);
        }
        if glob(whole, name) {
            let k = choose|k: int| 0 <= k <= name.len() && #[trigger] glob_from(whole, 1, name, k);
            assert(glob(p, name.skip(k)));
        }
        if exists|k: int| 0 <= k <= name.len() && #[trigger] glob(p, name.skip(k)) {
            let k = choose|k: int| 0 <= k <= name.len() && #[trigger] glob(p, name.skip(k));
            assert(glob_from(whole, 1, name, k));
        }
    } else if name.len() > 0 {
        lemma_glob_shift(whole, 1, 1, name, 1, 1);
    }
}

// ── Selections ───────────────────────────────────────────────────────────

/// Without patterns every tool is selected; a pattern that hits nothing is refused
/// and named.
pub proof fn a_selection_without_patterns_is_everything(
    patterns: Seq<Seq<char>>,
    tools: Seq<ToolDefView>,
    i: int,
)
    ensures
        patterns.len() == 0 ==> selection(patterns, tools) == Ok::<Seq<ToolDefView>, Seq<char>>(
            tools,
        ),
        0 <= i < patterns.len() && !hits(patterns[i], tools) ==> (selection(patterns, tools)
            matches Err(why) && unmatched(patterns, tools).contains(patterns[i]) && ends(
            why,
            joined(unmatched(patterns, tools), ", "@),
        )),
        selection(patterns, tools) matches Err(_) ==> exists|j: int|
            0 <= j < patterns.len() && !hits(#[trigger] patterns[j], tools),
{
    let missed = |p: Seq<char>| !hits(p, tools);
    let left = unmatched(patterns, tools);
    if 0 <= i < patterns.len() && !hits(patterns[i], tools) {
        crate::laws::editing::lemma_filtered(patterns, missed, patterns[i]);
        assert(patterns.contains(patterns[i]));
        assert(left.contains(patterns[i]));
    }
    let lead = "`tools` pattern(s) matched no tool in the catalogue: "@;
    let list = joined(left, ", "@);
    let why = lead + list;
    assert(why.subrange(why.len() - list.len(), why.len() as int) =~= list);
    if left.len() > 0 {
        crate::laws::editing::lemma_filtered(patterns, missed, left[0]);
        assert(left.contains(left[0]));
        assert(patterns.contains(left[0]) && missed(left[0]));
        let j = choose|j: int| 0 <= j < patterns.len() && patterns[j] == left[0];
        assert(!hits(patterns[j], tools));
    }
}

proof fn lemma_with_def(s: Seq<ToolDefView>, def: ToolDefView, d: ToolDefView)
    ensures
        with_def(s, def).contains(def),
        with_def(s, def).contains(d) ==> d == def || s.contains(d),
    decreases s.len(),
{
    let out = with_def(s, def);
    if s.len() == 0 {
        assert(out[0] == def);
    } else if s[0].name == def.name {
        assert(out[0] == def);
        if out.contains(d) && d != def {
            let i = choose|i: int| 0 <= i < out.len() && out[i] == d;
            assert(s[i] == d);
        }
    } else if crate::text::text_less(def.name, s[0].name) {
        assert(out[0] == def);
        if out.contains(d) && d != def {
            let i = choose|i: int| 0 <= i < out.len() && out[i] == d;
            assert(s[i - 1] == d);
        }
    } else {
        let rest = s.skip(1);
        let inner = with_def(rest, def);
        lemma_with_def(rest, def, d);
        let i = choose|i: int| 0 <= i < inner.len() && inner[i] == def;
        assert(out[i + 1] == def);
        if out.contains(d) && d != def {
            let i = choose|i: int| 0 <= i < out.len() && out[i] == d;
            if i == 0 {
                assert(s[0] == d);
            } else {
                assert(inner[i - 1] == d);
                let k = choose|k: int| 0 <= k < rest.len() && rest[k] == d;
                assert(s[k + 1] == d);
            }
        }
    }
}

proof fn lemma_selected(tools: Seq<ToolDefView>, patterns: Seq<Seq<char>>, n: int, d: ToolDefView)
    requires
        0 <= n <= tools.len(),
    ensures
        selected(tools, patterns, n).contains(d) ==> tools.contains(d),
    decreases n,
{
    if n > 0 {
        lemma_selected(tools, patterns, n - 1, d);
        lemma_with_def(selected(tools, patterns, n - 1), tools[n - 1], d);
        assert(tools.contains(tools[n - 1]));
    } else {
        assert(!selected(tools, patterns, n).contains(d));
    }
}

/// What is selected is one of the tools, as it is defined.
pub proof fn a_selected_tool_is_as_it_is_defined(
    patterns: Seq<Seq<char>>,
    tools: Seq<ToolDefView>,
    i: int,
)
    requires
        selection(patterns, tools) is Ok,
        0 <= i < selection(patterns, tools)->Ok_0.len(),
    ensures
        tools.contains(selection(patterns, tools)->Ok_0[i]),
{
    let out = selection(patterns, tools)->Ok_0;
    assert(out.contains(out[i]));
    if patterns.len() > 0 {
        lemma_selected(tools, patterns, tools.len() as int, out[i]);
    }
}

/// An agent selects among the discovered tools and the plans; where discovery fails
/// there is nothing to select from.
pub proof fn an_agent_selects_among_tools_and_plans(
    patterns: Seq<Seq<char>>,
    tools: Seq<ToolDefView>,
    e: ToolErrorView,
    plans: Seq<PlanDocView>,
    i: int,
)
    ensures
        resolution(patterns, Err(e), plans) matches Err(why) && ends(why, tool_error_text(e)),
        resolution(patterns, Ok(tools), plans) == selection(patterns, with_plans(tools, plans)),
        with_plans(tools, plans).len() == tools.len() + plans.len(),
        0 <= i < tools.len() ==> with_plans(tools, plans)[i] == tools[i],
        0 <= i < plans.len() ==> with_plans(tools, plans)[tools.len() + i].name == "plan__"@
            + plans[i].identifier,
{
    let lead = "agent tool discovery failed: "@;
    let why = lead + tool_error_text(e);
    assert(why.subrange(lead.len() as int, why.len() as int) =~= tool_error_text(e));
}

/// A plan is a tool under its own name, that takes the plan's input.
pub proof fn a_plan_is_a_tool_under_its_name(doc: PlanDocView)
    ensures
        plan_tool(doc).name == "plan__"@ + doc.identifier,
        plan_tool(doc).description == crate::pipeline::doc::description_of(doc),
        plan_tool(doc).input_schema == crate::pipeline::doc::input_schema_of(doc),
        plan_tool(doc).output_schema is None,
        plan_tool(doc).output_example is None,
        plan_tool(doc).read_only is None,
{
}

// ── Resolving names ──────────────────────────────────────────────────────

/// Whether a name is one that the executor handles itself.
pub open spec fn handled_here(tool: Seq<char>) -> bool {
    tool == "exit"@ || tool == "agent"@ || tool == "ask"@ || tool == "decide"@ || tool
        == "filter"@ || tool == "map"@ || tool == "reduce"@ || tool == "plan_and_execute"@
}

/// The namespace of a name is what stands before its first double underscore.
pub proof fn a_namespace_stands_before_the_underscores(tool: Seq<char>)
    ensures
        match namespace_of(tool) {
            Some(server) => begins(tool, server + "__"@),
            None => forall|i: int| 0 <= i <= tool.len() - 2 ==> #[trigger] tool.subrange(i, i + 2)
                != "__"@,
        },
{
    reveal_strlit("__");
    lemma_find_bounds(tool, "__"@, 0);
    match find_from(tool, "__"@, 0) {
        Some(i) => {
            let server = tool.take(i);
            assert(tool.subrange(i, i + 2) == "__"@);
            assert forall|k: int| 0 <= k < i + 2 implies tool[k] == (server + "__"@)[k] by {
                if k >= i {
                    assert(tool.subrange(i, i + 2)[k - i] == "__"@[k - i]);
                }
            }
            assert(tool.subrange(0, i + 2) =~= server + "__"@);
        },
        None => {
            lemma_not_found(tool, 0);
        },
    }
}

proof fn lemma_not_found(tool: Seq<char>, from: int)
    requires
        0 <= from,
        find_from(tool, "__"@, from) is None,
    ensures
        forall|i: int| from <= i <= tool.len() - 2 ==> #[trigger] tool.subrange(i, i + 2) != "__"@,
    decreases tool.len() + 1 - from,
{
    reveal_strlit("__");
    if from + 2 <= tool.len() {
        lemma_not_found(tool, from + 1);
    }
}

/// A tool resolves where the catalogue provides it: a control step and the planner
/// always, the workbench's tools never, a plan, a builtin or a user tool where it is
/// listed, a server's tool where the server is configured; a server that is declared
/// but not configured is only noted.
#[verifier::spinoff_prover]
#[verifier::rlimit(40)]
pub proof fn a_tool_resolves_where_it_is_provided(
    step: Seq<char>,
    tool: Seq<char>,
    servers: Seq<Seq<char>>,
    catalog: ToolCatalogView,
)
    ensures
        ({
            let f = tool_findings(step, tool, servers, catalog);
            let plan = tool.skip(6);
            &&& f.errors.len() + f.notes.len() <= 1
            &&& f.errors.len() == 1 ==> begins(f.errors[0], "step "@ + step + ": "@)
            &&& f.notes.len() == 1 ==> begins(f.notes[0], "step "@ + step + ": "@)
            &&& if handled_here(tool) {
                f.errors.len() == 0 && f.notes.len() == 0
            } else if begins(tool, "workbench__"@) {
                f.errors.len() == 1
            } else if begins(tool, "plan__"@) {
                f.notes.len() == 0 && (f.errors.len() == 0 <==> catalog.plans.contains(plan))
            } else if begins(tool, "builtin__"@) {
                f.notes.len() == 0 && (f.errors.len() == 0 <==> catalog.builtin_tools.contains(
                    tool,
                ))
            } else if begins(tool, "user__"@) {
                f.notes.len() == 0 && (f.errors.len() == 0 <==> catalog.user_tools.contains(tool))
            } else {
                match namespace_of(tool) {
                    None => f.errors.len() == 0 && f.notes.len() == 0,
                    Some(server) => {
                        &&& f.errors.len() == 1 <==> !catalog.mcp_servers.contains(server)
                            && !servers.contains(server)
                        &&& f.notes.len() == 1 <==> !catalog.mcp_servers.contains(server)
                            && servers.contains(server)
                    },
                }
            }
        }),
{
    reveal_strlit("plan__");
    let f = tool_findings(step, tool, servers, catalog);
    let lead = "step "@ + step + ": "@;
    reveal_strlit(": ");
    lemma_colons();
    if f.errors.len() == 1 {
        assert(f.errors[0].subrange(0, lead.len() as int) =~= lead);
    }
    if f.notes.len() == 1 {
        assert(f.notes[0].subrange(0, lead.len() as int) =~= lead);
    }
}

/// Messages about a step go on after its colon.
proof fn lemma_colons()
    ensures
        begins(": unknown plan '"@, ": "@),
        begins(": unknown builtin tool '"@, ": "@),
        begins(": unknown user tool '"@, ": "@),
        begins(": tool '"@, ": "@),
        begins(": `tools` pattern '"@, ": "@),
        begins(": `tools` contains an empty pattern"@, ": "@),
        ": "@.len() == 2,
{
    reveal_strlit(": ");
    reveal_strlit(": unknown plan '");
    reveal_strlit(": unknown builtin tool '");
    reveal_strlit(": unknown user tool '");
    reveal_strlit(": tool '");
    reveal_strlit(": `tools` pattern '");
    reveal_strlit(": `tools` contains an empty pattern");
    assert(": unknown plan '"@.subrange(0, 2) =~= ": "@);
    assert(": unknown builtin tool '"@.subrange(0, 2) =~= ": "@);
    assert(": unknown user tool '"@.subrange(0, 2) =~= ": "@);
    assert(": tool '"@.subrange(0, 2) =~= ": "@);
    assert(": `tools` pattern '"@.subrange(0, 2) =~= ": "@);
    assert(": `tools` contains an empty pattern"@.subrange(0, 2) =~= ": "@);
}

/// Whether a pattern hits one of some names.
pub open spec fn hits_one(pattern: Seq<char>, names: Seq<Seq<char>>) -> bool {
    exists|i: int| 0 <= i < names.len() && glob(pattern, #[trigger] names[i])
}

/// An agent's pattern resolves where something can match it: stars alone always, a
/// pattern of builtin tools, user tools or plans where it hits one, a server's
/// pattern where the server is configured.
#[verifier::spinoff_prover]
#[verifier::rlimit(40)]
pub proof fn a_pattern_resolves_where_something_matches(
    step: Seq<char>,
    pattern: Seq<char>,
    servers: Seq<Seq<char>>,
    catalog: ToolCatalogView,
)
    ensures
        ({
            let f = pattern_findings(step, pattern, servers, catalog);
            &&& f.errors.len() + f.notes.len() <= 1
            &&& if pattern.len() == 0 {
                f.errors.len() == 1
            } else if forall|i: int| 0 <= i < pattern.len() ==> #[trigger] pattern[i] == '*' {
                f.errors.len() == 0 && f.notes.len() == 0
            } else {
                match namespace_of(pattern) {
                    None => f.errors.len() == 1,
                    Some(space) => if space.contains('*') {
                        f.errors.len() == 0 && f.notes.len() == 0
                    } else if space == "builtin"@ {
                        f.notes.len() == 0 && (f.errors.len() == 0 <==> hits_one(
                            pattern,
                            catalog.builtin_tools,
                        ))
                    } else if space == "user"@ {
                        f.notes.len() == 0 && (f.errors.len() == 0 <==> hits_one(
                            pattern,
                            catalog.user_tools,
                        ))
                    } else if space == "plan"@ {
                        f.notes.len() == 0 && (f.errors.len() == 0 <==> hits_one(
                            pattern.skip(6),
                            catalog.plans,
                        ))
                    } else {
                        &&& f.errors.len() == 1 <==> !catalog.mcp_servers.contains(space)
                            && !servers.contains(space)
                        &&& f.notes.len() == 1 <==> !catalog.mcp_servers.contains(space)
                            && servers.contains(space)
                    },
                }
            }
        }),
{
    reveal_strlit("plan__");
    reveal_strlit("builtin");
    reveal_strlit("user");
    reveal_strlit("plan");
}

/// A decision has its branches under their names, a map and a fold their body.
pub proof fn a_body_stands_under_its_name(tool: Seq<char>)
    ensures
        tool == "decide"@ ==> body_keys(tool) == seq!["then"@, "else"@],
        tool == "map"@ || tool == "reduce"@ ==> body_keys(tool) == seq!["do"@],
        tool != "decide"@ && tool != "map"@ && tool != "reduce"@ ==> body_keys(tool).len() == 0,
{
    reveal_strlit("decide");
    reveal_strlit("map");
    reveal_strlit("reduce");
    assert("decide"@[0] != "reduce"@[0]);
    assert("decide"@.len() != "map"@.len());
}

proof fn lemma_append_contains(a: Seq<ToolRef>, b: Seq<ToolRef>, r: ToolRef)
    ensures
        (a + b).contains(r) <==> a.contains(r) || b.contains(r),
{
    if a.contains(r) {
        let i = choose|i: int| 0 <= i < a.len() && a[i] == r;
        assert((a + b)[i] == r);
    }
    if b.contains(r) {
        let i = choose|i: int| 0 <= i < b.len() && b[i] == r;
        assert((a + b)[a.len() + i] == r);
    }
}

proof fn lemma_bodies_tools(step: StepView, keys: Seq<Seq<char>>, n: int, k: int, r: ToolRef)
    requires
        0 <= n <= keys.len(),
        0 <= k < n,
        body_tools(step.id, keys[k], lookup(step.input, keys[k])).contains(r),
    ensures
        bodies_tools(step, keys, n).contains(r),
    decreases n,
{
    let before = bodies_tools(step, keys, n - 1);
    let own = body_tools(step.id, keys[n - 1], lookup(step.input, keys[n - 1]));
    lemma_append_contains(before, own, r);
    if k < n - 1 {
        lemma_bodies_tools(step, keys, n - 1, k, r);
    }
}

proof fn lemma_plan_tools(plan: Seq<StepView>, n: int, i: int, r: ToolRef)
    requires
        0 <= i < n <= plan.len(),
        r == (plan[i].id, plan[i].tool_name) || bodies_tools(
            plan[i],
            body_keys(plan[i].tool_name),
            body_keys(plan[i].tool_name).len() as int,
        ).contains(r),
    ensures
        plan_tools(plan, n).contains(r),
    decreases n,
{
    let before = plan_tools(plan, n - 1);
    let own = seq![(plan[n - 1].id, plan[n - 1].tool_name)];
    let bodies = bodies_tools(
        plan[n - 1],
        body_keys(plan[n - 1].tool_name),
        body_keys(plan[n - 1].tool_name).len() as int,
    );
    lemma_append_contains(before + own, bodies, r);
    lemma_append_contains(before, own, r);
    assert(own[0] == (plan[n - 1].id, plan[n - 1].tool_name));
    assert(own.contains(own[0]));
    if i < n - 1 {
        lemma_plan_tools(plan, n - 1, i, r);
    }
}

/// Every tool of a plan is looked at: each step's under its id, and those of a body
/// under the step's id or, in a list, under both ids.
#[verifier::spinoff_prover]
#[verifier::rlimit(40)]
pub proof fn every_tool_of_a_plan_is_looked_at(plan: Seq<StepView>, i: int, key: Seq<char>, j: int)
    requires
        0 <= i < plan.len(),
    ensures
        ({
            let all = plan_tools(plan, plan.len() as int);
            let s = plan[i];
            let held = (s.tool_name == "decide"@ && (key == "then"@ || key == "else"@)) || ((
            s.tool_name == "map"@ || s.tool_name == "reduce"@) && key == "do"@);
            &&& all.contains((s.id, s.tool_name))
            &&& held ==> (lookup(s.input, key) matches Some(raw) ==> (match branch_of(key, raw) {
                Ok(BranchView::Call(call)) => all.contains((s.id, call.tool_name)),
                Ok(BranchView::Steps(steps)) => 0 <= j < steps.len() ==> all.contains(
                    (s.id + "/"@ + steps[j].id, steps[j].tool_name),
                ),
                Err(_) => true,
            }))
        }),
{
    let n = plan.len() as int;
    let s = plan[i];
    lemma_plan_tools(plan, n, i, (s.id, s.tool_name));
    a_body_stands_under_its_name(s.tool_name);
    let keys = body_keys(s.tool_name);
    let held = (s.tool_name == "decide"@ && (key == "then"@ || key == "else"@)) || ((s.tool_name
        == "map"@ || s.tool_name == "reduce"@) && key == "do"@);
    reveal_strlit("decide");
    reveal_strlit("map");
    reveal_strlit("reduce");
    assert("decide"@[0] != "reduce"@[0]);
    assert("decide"@.len() != "map"@.len());
    if held {
        let k: int = if key == keys[0] { 0 } else { 1 };
        assert(keys[k] == key);
        if let Some(raw) = lookup(s.input, key) {
            let own = body_tools(s.id, key, Some(raw));
            match branch_of(key, raw) {
                Ok(BranchView::Call(call)) => {
                    let r = (s.id, call.tool_name);
                    assert(own[0] == r);
                    lemma_bodies_tools(s, keys, keys.len() as int, k, r);
                    lemma_plan_tools(plan, n, i, r);
                },
                Ok(BranchView::Steps(steps)) => {
                    if 0 <= j < steps.len() {
                        let r = (s.id + "/"@ + steps[j].id, steps[j].tool_name);
                        assert(own[j] == r);
                        lemma_bodies_tools(s, keys, keys.len() as int, k, r);
                        lemma_plan_tools(plan, n, i, r);
                    }
                },
                Err(_) => {},
            }
        }
    }
}

proof fn lemma_listed(step: Seq<char>, items: Seq<Json>, n: int, i: int, r: ToolRef)
    requires
        0 <= n <= items.len(),
    ensures
        0 <= i < n ==> (items[i] matches Json::Text(t) ==> listed_patterns(step, items, n).contains(
            (step, t),
        )),
        listed_patterns(step, items, n).contains(r) ==> r.0 == step,
    decreases n,
{
    let now = listed_patterns(step, items, n);
    if n > 0 {
        let before = listed_patterns(step, items, n - 1);
        lemma_listed(step, items, n - 1, i, r);
        if 0 <= i < n {
            if let Json::Text(t) = items[i] {
                if i == n - 1 {
                    assert(now[now.len() - 1] == (step, t));
                } else {
                    let k = choose|k: int| 0 <= k < before.len() && before[k] == (step, t);
                    assert(now[k] == (step, t));
                }
            }
        }
        if now.contains(r) && r.0 != step {
            let k = choose|k: int| 0 <= k < now.len() && now[k] == r;
            assert(before[k] == r);
            assert(before.contains(r));
        }
    } else {
        assert(!now.contains(r));
    }
}

/// The patterns of a call are the texts in its tools, and only an agent has any.
pub proof fn an_agents_patterns_are_its_tools(
    step: Seq<char>,
    tool: Seq<char>,
    input: Entries,
    i: int,
)
    ensures
        tool != "agent"@ ==> call_patterns(step, tool, input).len() == 0,
        tool == "agent"@ ==> (lookup(input, "tools"@) matches Some(Json::List(items)) ==> (0 <= i
            < items.len() ==> (items[i] matches Json::Text(t) ==> call_patterns(
            step,
            tool,
            input,
        ).contains((step, t))))),
{
    if let Some(Json::List(items)) = lookup(input, "tools"@) {
        lemma_listed(step, items, items.len() as int, i, (step, step));
    }
}

proof fn lemma_plan_patterns(plan: Seq<StepView>, n: int, i: int, r: ToolRef)
    requires
        0 <= i < n <= plan.len(),
        call_patterns(plan[i].id, plan[i].tool_name, plan[i].input).contains(r),
    ensures
        plan_patterns(plan, n).contains(r),
    decreases n,
{
    let before = plan_patterns(plan, n - 1);
    let own = call_patterns(plan[n - 1].id, plan[n - 1].tool_name, plan[n - 1].input);
    let bodies = crate::pipeline::catalog::bodies_patterns(
        plan[n - 1],
        body_keys(plan[n - 1].tool_name),
        body_keys(plan[n - 1].tool_name).len() as int,
    );
    lemma_append_contains(before + own, bodies, r);
    lemma_append_contains(before, own, r);
    if i < n - 1 {
        lemma_plan_patterns(plan, n - 1, i, r);
    }
}

/// Every pattern of an agent step in a plan is looked at.
pub proof fn every_pattern_of_a_plan_is_looked_at(plan: Seq<StepView>, i: int, k: int)
    requires
        0 <= i < plan.len(),
        plan[i].tool_name == "agent"@,
    ensures
        lookup(plan[i].input, "tools"@) matches Some(Json::List(items)) ==> (0 <= k < items.len()
            ==> (items[k] matches Json::Text(t) ==> plan_patterns(plan, plan.len() as int).contains(
            (plan[i].id, t),
        ))),
{
    let s = plan[i];
    an_agents_patterns_are_its_tools(s.id, s.tool_name, s.input, k);
    if let Some(Json::List(items)) = lookup(s.input, "tools"@) {
        if 0 <= k < items.len() {
            if let Json::Text(t) = items[k] {
                lemma_plan_patterns(plan, plan.len() as int, i, (s.id, t));
            }
        }
    }
}

proof fn lemma_tools_findings(
    refs: Seq<ToolRef>,
    servers: Seq<Seq<char>>,
    catalog: ToolCatalogView,
    n: int,
)
    requires
        0 <= n <= refs.len(),
    ensures
        tools_findings(refs, servers, catalog, n).errors.len() == 0 <==> forall|i: int|
            0 <= i < n ==> tool_findings(
                (#[trigger] refs[i]).0,
                refs[i].1,
                servers,
                catalog,
            ).errors.len() == 0,
        tools_findings(refs, servers, catalog, n).notes.len() == 0 <==> forall|i: int|
            0 <= i < n ==> tool_findings(
                (#[trigger] refs[i]).0,
                refs[i].1,
                servers,
                catalog,
            ).notes.len() == 0,
    decreases n,
{
    if n > 0 {
        lemma_tools_findings(refs, servers, catalog, n - 1);
        let last = refs[n - 1];
    }
}

proof fn lemma_patterns_findings(
    found: CatalogCheckView,
    refs: Seq<ToolRef>,
    servers: Seq<Seq<char>>,
    catalog: ToolCatalogView,
    n: int,
)
    requires
        0 <= n <= refs.len(),
    ensures
        patterns_findings(
            found,
            refs,
            servers,
            catalog,
            n,
        ).errors.len() == 0 <==> found.errors.len()
            == 0 && forall|i: int|
            0 <= i < n ==> pattern_findings(
                (#[trigger] refs[i]).0,
                refs[i].1,
                servers,
                catalog,
            ).errors.len() == 0,
    decreases n,
{
    if n > 0 {
        lemma_patterns_findings(found, refs, servers, catalog, n - 1);
        let last = refs[n - 1];
    }
}

/// A plan resolves exactly where every tool and every pattern of it does.
pub proof fn a_plan_resolves_where_all_its_names_do(
    plan: Seq<StepView>,
    servers: Seq<Seq<char>>,
    catalog: ToolCatalogView,
)
    ensures
        ({
            let tools = plan_tools(plan, plan.len() as int);
            let patterns = plan_patterns(plan, plan.len() as int);
            plan_findings(plan, servers, catalog).errors.len() == 0 <==> (forall|i: int|
                0 <= i < tools.len() ==> tool_findings(
                    (#[trigger] tools[i]).0,
                    tools[i].1,
                    servers,
                    catalog,
                ).errors.len() == 0) && (forall|i: int|
                0 <= i < patterns.len() ==> pattern_findings(
                    (#[trigger] patterns[i]).0,
                    patterns[i].1,
                    servers,
                    catalog,
                ).errors.len() == 0)
        }),
{
    let tools = plan_tools(plan, plan.len() as int);
    let patterns = plan_patterns(plan, plan.len() as int);
    let n = tools.len() as int;
    lemma_tools_findings(tools, servers, catalog, n);
    lemma_patterns_findings(
        tools_findings(tools, servers, catalog, n),
        patterns,
        servers,
        catalog,
        patterns.len() as int,
    );
}

/// A called plan's findings are told under its name, in order.
pub proof fn findings_are_told_under_the_plans_name(
    identifier: Seq<char>,
    messages: Seq<Seq<char>>,
    i: int,
)
    requires
        0 <= i < messages.len(),
    ensures
        prefixed(identifier, messages).len() == messages.len(),
        prefixed(identifier, messages)[i] == "plan '"@ + identifier + "': "@ + messages[i],
{
}

// ── Plans that a plan calls ──────────────────────────────────────────────

/// A name refers to a plan exactly where it begins as a plan's name does.
pub proof fn a_plan_is_referred_to_by_its_name(tool: Seq<char>, id: Seq<char>)
    ensures
        plan_ref(tool).contains(id) <==> tool == "plan__"@ + id,
        plan_ref("plan__"@ + id) == seq![id],
{
    let prefix = "plan__"@;
    let named = prefix + id;
    assert(named.subrange(0, prefix.len() as int) =~= prefix);
    assert(named.skip(prefix.len() as int) =~= id);
    let own = plan_ref(tool);
    if begins(tool, prefix) {
        assert(own[0] == plan_name(tool));
        assert(tool =~= prefix + plan_name(tool));
        assert(own.contains(own[0]));
    }
}

proof fn lemma_append_refs(a: Seq<Seq<char>>, b: Seq<Seq<char>>, r: Seq<char>)
    ensures
        (a + b).contains(r) <==> a.contains(r) || b.contains(r),
{
    if a.contains(r) {
        let i = choose|i: int| 0 <= i < a.len() && a[i] == r;
        assert((a + b)[i] == r);
    }
    if b.contains(r) {
        let i = choose|i: int| 0 <= i < b.len() && b[i] == r;
        assert((a + b)[a.len() + i] == r);
    }
}

proof fn lemma_refs_of_bodies(step: StepView, keys: Seq<Seq<char>>, n: int, k: int, id: Seq<char>)
    requires
        0 <= k < n <= keys.len(),
        crate::pipeline::catalog::body_refs(lookup(step.input, keys[k])).contains(id),
    ensures
        crate::pipeline::catalog::bodies_refs(step, keys, n).contains(id),
    decreases n,
{
    let before = crate::pipeline::catalog::bodies_refs(step, keys, n - 1);
    let own = crate::pipeline::catalog::body_refs(lookup(step.input, keys[n - 1]));
    lemma_append_refs(before, own, id);
    if k < n - 1 {
        lemma_refs_of_bodies(step, keys, n - 1, k, id);
    }
}

proof fn lemma_refs_of_plan(plan: Seq<StepView>, n: int, i: int, id: Seq<char>)
    requires
        0 <= i < n <= plan.len(),
        plan_ref(plan[i].tool_name).contains(id) || crate::pipeline::catalog::bodies_refs(
            plan[i],
            body_keys(plan[i].tool_name),
            body_keys(plan[i].tool_name).len() as int,
        ).contains(id),
    ensures
        refs_of_plan(plan, n).contains(id),
    decreases n,
{
    let before = refs_of_plan(plan, n - 1);
    let own = plan_ref(plan[n - 1].tool_name);
    let bodies = crate::pipeline::catalog::bodies_refs(
        plan[n - 1],
        body_keys(plan[n - 1].tool_name),
        body_keys(plan[n - 1].tool_name).len() as int,
    );
    lemma_append_refs(before + own, bodies, id);
    lemma_append_refs(before, own, id);
    if i < n - 1 {
        lemma_refs_of_plan(plan, n - 1, i, id);
    }
}

proof fn lemma_refs_of_calls(items: Seq<Json>, n: int, k: int, id: Seq<char>)
    requires
        0 <= k < n <= items.len(),
        call_ref(items[k]).contains(id),
    ensures
        crate::pipeline::catalog::calls_refs(items, n).contains(id),
    decreases n,
{
    let before = crate::pipeline::catalog::calls_refs(items, n - 1);
    lemma_append_refs(before, call_ref(items[n - 1]), id);
    if k < n - 1 {
        lemma_refs_of_calls(items, n - 1, k, id);
    }
}

/// A plan that a step calls, or a call in a branch or a body does, is one of the
/// plans that the plan refers to; none is named twice.
#[verifier::spinoff_prover]
#[verifier::rlimit(40)]
pub proof fn every_plan_called_is_referred_to(
    plan: Seq<StepView>,
    i: int,
    key: Seq<char>,
    k: int,
    call: Entries,
    id: Seq<char>,
)
    requires
        0 <= i < plan.len(),
    ensures
        ({
            let s = plan[i];
            let refs = distinct_refs(plan);
            let held = (s.tool_name == "decide"@ && (key == "then"@ || key == "else"@)) || ((
            s.tool_name == "map"@ || s.tool_name == "reduce"@) && key == "do"@);
            let calls = lookup(call, "toolName"@) == Some(Json::Text("plan__"@ + id));
            &&& s.tool_name == "plan__"@ + id ==> refs.contains(id)
            &&& held && calls && lookup(s.input, key) == Some(Json::Object(call)) ==> refs.contains(
                id,
            )
            &&& held && calls ==> (lookup(s.input, key) matches Some(Json::List(items)) ==> (0 <= k
                < items.len() && items[k] == Json::Object(call) ==> refs.contains(id)))
        }),
{
    let n = plan.len() as int;
    let s = plan[i];
    let all = refs_of_plan(plan, n);
    lemma_adding_new_contains(Seq::empty(), all, id);
    a_plan_is_referred_to_by_its_name(s.tool_name, id);
    a_plan_is_referred_to_by_its_name("plan__"@ + id, id);
    a_body_stands_under_its_name(s.tool_name);
    let keys = body_keys(s.tool_name);
    reveal_strlit("decide");
    reveal_strlit("map");
    reveal_strlit("reduce");
    assert("decide"@[0] != "reduce"@[0]);
    assert("decide"@.len() != "map"@.len());
    if s.tool_name == "plan__"@ + id {
        lemma_refs_of_plan(plan, n, i, id);
    }
    let held = (s.tool_name == "decide"@ && (key == "then"@ || key == "else"@)) || ((s.tool_name
        == "map"@ || s.tool_name == "reduce"@) && key == "do"@);
    let calls = lookup(call, "toolName"@) == Some(Json::Text("plan__"@ + id));
    if held && calls {
        let at: int = if key == keys[0] { 0 } else { 1 };
        assert(keys[at] == key);
        assert(call_ref(Json::Object(call)).contains(id));
        match lookup(s.input, key) {
            Some(Json::Object(e)) => {
                if e == call {
                    lemma_refs_of_bodies(s, keys, keys.len() as int, at, id);
                    lemma_refs_of_plan(plan, n, i, id);
                }
            },
            Some(Json::List(items)) => {
                if 0 <= k < items.len() && items[k] == Json::Object(call) {
                    lemma_refs_of_calls(items, items.len() as int, k, id);
                    lemma_refs_of_bodies(s, keys, keys.len() as int, at, id);
                    lemma_refs_of_plan(plan, n, i, id);
                }
            },
            _ => {},
        }
    }
}

} // verus!
