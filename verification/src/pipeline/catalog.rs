//! Catalog-aware plan validation: the second validation layer.
//!
//! Static validation is deliberately context-free: it runs everywhere a plan is
//! parsed. This layer takes the catalog of what is actually loadable as input
//! and resolves every step tool name against it, so a plan that references a
//! nonexistent tool fails at load time instead of mid-run, after earlier steps
//! have already spent tool calls and LLM money.
//!
//! What can and cannot be resolved without side effects:
//! - `builtin__*`, `user__*`, and `plan__*` names resolve exactly: those
//!   catalogs load locally.
//! - MCP `server__tool` names resolve at the *server* level only: listing a
//!   server's tools requires connecting, which validation must never do. An
//!   unconfigured server is a hard error; the individual tool is still checked
//!   at dispatch.
//! - `workbench__*` is rejected statically.

use crate::pipeline::body::{branch_of, parse_branch, Branch, BranchView};
use crate::pipeline::doc::{doc_at, docs_view, find_doc, PlanDoc, PlanDocView};
use crate::pipeline::engine::{is_control, is_control_step};
use crate::pipeline::plan::{
    entries_of, plan_view, workbench_problem, workbench_tool_problem, Plan, Step, StepView,
};
use crate::pipeline::record::{at, get_at, text_view};
use crate::seqs::{distinct, lemma_adding_new_concat};
use crate::template::add_new;
use crate::text::{
    begins, cat2, cat3, cat4, cat5, cat6, cat7, chars_of, find_chars, find_from, lists, push_text,
    same_text, slice_text, starts_with, texts,
};
use crate::value::{lookup, values_view, Data, Entries, Fields, Json};
use vstd::prelude::*;

verus! {

// ── Patterns ─────────────────────────────────────────────────────────────

/// Whether the pattern from `i` on matches the name from `j` on. `*` stands for
/// any run of characters, and every other character for itself.
pub open spec fn glob_from(pattern: Seq<char>, i: int, name: Seq<char>, j: int) -> bool
    decreases pattern.len() - i, name.len() - j,
{
    if i < 0 || j < 0 || j > name.len() {
        false
    } else if i >= pattern.len() {
        j == name.len()
    } else if pattern[i] == '*' {
        glob_from(pattern, i + 1, name, j) || (j < name.len() && glob_from(
            pattern,
            i,
            name,
            j + 1,
        ))
    } else {
        j < name.len() && name[j] == pattern[i] && glob_from(pattern, i + 1, name, j + 1)
    }
}

/// Whether a pattern matches a name.
pub open spec fn glob(pattern: Seq<char>, name: Seq<char>) -> bool {
    glob_from(pattern, 0, name, 0)
}

/// Glob matching over tool names, with `*` as "any run of characters",
/// supported anywhere in the pattern and any number of times (`linear__*`,
/// `*__search`, `linear__*_issues`, `*`). Shared by this layer and the runtime
/// resolution an `agent` step's `tools:` does.
pub fn glob_matches(pattern: &str, name: &str) -> (r: bool)
    ensures
        r == glob(pattern@, name@),
{
    let p = chars_of(pattern);
    let n = chars_of(name);
    let last: usize = n.len();
    // row[j]: whether the rest of the pattern matches the name from `j` on.
    let mut row: Vec<bool> = Vec::new();
    let mut j: usize = 0;
    while j < last
        invariant
            j <= last,
            last == n@.len(),
            row@.len() == j,
            forall|k: int| 0 <= k < j ==> !#[trigger] row@[k],
        decreases last - j,
    {
        row.push(false);
        j += 1;
    }
    row.push(true);
    let mut i: usize = p.len();
    while i > 0
        invariant
            i <= p@.len(),
            last == n@.len(),
            row@.len() == last + 1,
            forall|k: int| 0 <= k <= last ==> #[trigger] row@[k] == glob_from(p@, i as int, n@, k),
        decreases i,
    {
        i -= 1;
        let star = p[i] == '*';
        // From the end of the name, so that what stands after a place is done.
        let width: usize = row.len();
        let mut done: usize = 0;
        let mut next: Vec<bool> = Vec::new();
        while done < width
            invariant
                i < p@.len(),
                last == n@.len(),
                width == last + 1,
                star == (p@[i as int] == '*'),
                done <= width,
                row@.len() == width,
                next@.len() == done,
                forall|k: int|
                    0 <= k <= last ==> #[trigger] row@[k] == glob_from(p@, i + 1, n@, k),
                forall|k: int|
                    0 <= k < done ==> #[trigger] next@[k] == glob_from(p@, i as int, n@, last - k),
            decreases width - done,
        {
            let at: usize = last - done;
            let hit = if star {
                row[at] || (done > 0 && next[done - 1])
            } else {
                at < last && n[at] == p[i] && row[at + 1]
            };
            next.push(hit);
            done += 1;
        }
        let mut turned: Vec<bool> = Vec::new();
        let mut k: usize = 0;
        while k < last
            invariant
                k <= last,
                last == n@.len(),
                next@.len() == last + 1,
                turned@.len() == k,
                forall|m: int|
                    0 <= m <= last ==> #[trigger] next@[m] == glob_from(
                        p@,
                        i as int,
                        n@,
                        last - m,
                    ),
                forall|m: int|
                    0 <= m < k ==> #[trigger] turned@[m] == glob_from(p@, i as int, n@, m),
            decreases last - k,
        {
            turned.push(next[last - k]);
            k += 1;
        }
        turned.push(next[0]);
        row = turned;
    }
    row[0]
}

/// A lone `*` matches every name.
pub proof fn a_star_matches_everything(name: Seq<char>)
    ensures
        glob(seq!['*'], name),
{
    lemma_star_from(name, 0);
}

proof fn lemma_star_from(name: Seq<char>, j: int)
    requires
        0 <= j <= name.len(),
    ensures
        glob_from(seq!['*'], 0, name, j),
    decreases name.len() - j,
{
    reveal_with_fuel(glob_from, 3);
    if j < name.len() {
        lemma_star_from(name, j + 1);
    }
}

/// A pattern without `*` matches exactly the name it spells.
pub proof fn a_literal_matches_itself_only(pattern: Seq<char>, name: Seq<char>)
    requires
        !pattern.contains('*'),
    ensures
        glob(pattern, name) <==> pattern == name,
{
    lemma_literal_from(pattern, name, 0);
    assert(pattern.skip(0) =~= pattern);
    assert(name.skip(0) =~= name);
}

proof fn lemma_literal_from(pattern: Seq<char>, name: Seq<char>, i: int)
    requires
        !pattern.contains('*'),
        0 <= i <= pattern.len(),
        i <= name.len(),
    ensures
        glob_from(pattern, i, name, i) <==> pattern.skip(i) == name.skip(i),
    decreases pattern.len() - i,
{
    if i < pattern.len() {
        assert(pattern[i] != '*') by {
            assert(pattern.contains(pattern[i]));
        }
        if i < name.len() {
            lemma_literal_from(pattern, name, i + 1);
            assert(pattern.skip(i).drop_first() =~= pattern.skip(i + 1));
            assert(name.skip(i).drop_first() =~= name.skip(i + 1));
            if pattern[i] == name[i] && pattern.skip(i + 1) == name.skip(i + 1) {
                assert(pattern.skip(i) =~= name.skip(i)) by {
                    assert forall|k: int| 0 <= k < pattern.skip(i).len() implies pattern.skip(i)[k]
                        == name.skip(i)[k] by {
                        if k > 0 {
                            assert(pattern.skip(i)[k] == pattern.skip(i + 1)[k - 1]);
                            assert(name.skip(i)[k] == name.skip(i + 1)[k - 1]);
                        }
                    }
                    assert(pattern.skip(i).len() == name.skip(i).len());
                }
            }
            if pattern.skip(i) == name.skip(i) {
                assert(pattern.skip(i)[0] == name.skip(i)[0]);
            }
        } else {
            assert(pattern.skip(i).len() != name.skip(i).len());
        }
    } else {
        assert(pattern.skip(i).len() == 0);
        if name.len() == i {
            assert(pattern.skip(i) =~= name.skip(i));
        }
    }
}

// ── The catalog ──────────────────────────────────────────────────────────

/// Everything loadable a plan step can call, resolvable without connecting to
/// anything.
#[derive(Debug)]
pub struct ToolCatalog {
    /// Full namespaced names of the enabled pack tools (`builtin__x`).
    pub builtin_tools: Vec<String>,
    /// Full namespaced names of the loadable user tools (`user__x`).
    pub user_tools: Vec<String>,
    /// Identifiers of loadable plan documents (callable as `plan__<id>`).
    pub plans: Vec<String>,
    /// MCP server names configured under `[mcp.*]`.
    pub mcp_servers: Vec<String>,
}

/// The outcome of resolving a plan's tool names against a catalog.
#[derive(Debug)]
pub struct CatalogCheck {
    /// Names that cannot resolve here: running the plan would fail.
    pub errors: Vec<String>,
    /// Steps using an MCP server that is declared in `requires_servers` but not
    /// configured. The plan *file* is fine, the declaration is how portable
    /// plans name their dependencies, but in this environment the plan is
    /// hidden from the catalog and cannot run.
    pub notes: Vec<String>,
}

/// The model of a [`ToolCatalog`].
pub struct ToolCatalogView {
    pub builtin_tools: Seq<Seq<char>>,
    pub user_tools: Seq<Seq<char>>,
    pub plans: Seq<Seq<char>>,
    pub mcp_servers: Seq<Seq<char>>,
}

/// The model of a [`CatalogCheck`].
#[verifier::ext_equal]
pub struct CatalogCheckView {
    pub errors: Seq<Seq<char>>,
    pub notes: Seq<Seq<char>>,
}

impl ToolCatalog {
    pub open spec fn view(&self) -> ToolCatalogView {
        ToolCatalogView {
            builtin_tools: texts(self.builtin_tools@),
            user_tools: texts(self.user_tools@),
            plans: texts(self.plans@),
            mcp_servers: texts(self.mcp_servers@),
        }
    }
}

/// A check that found nothing.
pub open spec fn nothing_found() -> CatalogCheckView {
    CatalogCheckView { errors: Seq::empty(), notes: Seq::empty() }
}

/// A check that found one error.
pub open spec fn one_error(e: Seq<char>) -> CatalogCheckView {
    CatalogCheckView { errors: seq![e], notes: Seq::empty() }
}

/// A check that found one thing to note.
pub open spec fn one_note(n: Seq<char>) -> CatalogCheckView {
    CatalogCheckView { errors: Seq::empty(), notes: seq![n] }
}

/// What two checks found.
pub open spec fn both(a: CatalogCheckView, b: CatalogCheckView) -> CatalogCheckView {
    CatalogCheckView { errors: a.errors + b.errors, notes: a.notes + b.notes }
}

impl CatalogCheck {
    pub open spec fn view(&self) -> CatalogCheckView {
        CatalogCheckView { errors: texts(self.errors@), notes: texts(self.notes@) }
    }

    /// A check that found nothing.
    pub fn new() -> (r: CatalogCheck)
        ensures
            r@ == nothing_found(),
    {
        let errors: Vec<String> = Vec::new();
        let notes: Vec<String> = Vec::new();
        assert(texts(errors@) =~= Seq::<Seq<char>>::empty());
        assert(texts(notes@) =~= Seq::<Seq<char>>::empty());
        CatalogCheck { errors, notes }
    }

    /// Whether the plan can run here, as far as names go.
    pub fn is_ok(&self) -> (r: bool)
        ensures
            r == (self@.errors.len() == 0),
    {
        self.errors.len() == 0
    }

    fn add_error(&mut self, e: String)
        ensures
            final(self)@ == both(old(self)@, one_error(e@)),
    {
        push_text(&mut self.errors, e);
        proof {
            crate::seqs::append_nothing(texts(self.notes@));
        }
    }

    fn add_note(&mut self, n: String)
        ensures
            final(self)@ == both(old(self)@, one_note(n@)),
    {
        push_text(&mut self.notes, n);
        proof {
            crate::seqs::append_nothing(texts(self.errors@));
        }
    }
}

/// What finding nothing adds: nothing.
proof fn lemma_found_nothing(a: CatalogCheckView)
    ensures
        both(a, nothing_found()) == a,
{
    crate::seqs::append_nothing(a.errors);
    crate::seqs::append_nothing(a.notes);
}

/// The namespace of a tool's name: what stands before the first `__`.
pub open spec fn namespace_of(tool: Seq<char>) -> Option<Seq<char>> {
    match find_from(tool, "__"@, 0) {
        Some(i) => Some(tool.take(i)),
        None => None,
    }
}

fn namespace(tool: &str) -> (r: Option<String>)
    ensures
        text_view(r) == namespace_of(tool@),
{
    let chars = chars_of(tool);
    match find_chars(&chars, &chars_of("__"), 0) {
        Some(i) => {
            let out = slice_text(&chars, 0, i);
            assert(out@ =~= tool@.take(i as int));
            Some(out)
        },
        None => None,
    }
}

/// What follows `plan__` in a name that begins with it.
pub open spec fn plan_name(tool: Seq<char>) -> Seq<char> {
    tool.skip("plan__"@.len() as int)
}

fn read_plan_name(tool: &str) -> (r: String)
    requires
        begins(tool@, "plan__"@),
    ensures
        r@ == plan_name(tool@),
{
    proof {
        reveal_strlit("plan__");
    }
    let chars = chars_of(tool);
    let out = slice_text(&chars, 6, chars.len());
    assert(out@ =~= tool@.skip(6));
    out
}

/// What is found of a name whose server is not known here, given the message:
/// a note where the plan declares the server, an error otherwise.
pub open spec fn missing_server(
    server: Seq<char>,
    message: Seq<char>,
    requires_servers: Seq<Seq<char>>,
) -> CatalogCheckView {
    if requires_servers.contains(server) {
        one_note(message + " (declared in requires_servers)"@)
    } else {
        one_error(message)
    }
}

/// What is found of one step's tool.
pub open spec fn tool_findings(
    step: Seq<char>,
    tool: Seq<char>,
    requires_servers: Seq<Seq<char>>,
    catalog: ToolCatalogView,
) -> CatalogCheckView {
    if is_control(tool) || tool == "plan_and_execute"@ {
        nothing_found()
    } else if workbench_problem(tool) is Some {
        one_error("step "@ + step + ": "@ + workbench_problem(tool)->0)
    } else if begins(tool, "plan__"@) {
        if catalog.plans.contains(plan_name(tool)) {
            nothing_found()
        } else {
            one_error(
                "step "@ + step + ": unknown plan '"@ + plan_name(tool) + "' ("@ + tool
                    + ") — not in the plan catalog (missing, failed to load, or hidden by an unconfigured requires_servers entry)"@,
            )
        }
    } else if begins(tool, "builtin__"@) {
        if catalog.builtin_tools.contains(tool) {
            nothing_found()
        } else {
            one_error(
                "step "@ + step + ": unknown builtin tool '"@ + tool
                    + "' — not provided by the enabled tool packs ([tools].packs)"@,
            )
        }
    } else if begins(tool, "user__"@) {
        if catalog.user_tools.contains(tool) {
            nothing_found()
        } else {
            one_error(
                "step "@ + step + ": unknown user tool '"@ + tool
                    + "' — no such tool loads from [tools].paths"@,
            )
        }
    } else {
        match namespace_of(tool) {
            None => nothing_found(),
            Some(server) => if catalog.mcp_servers.contains(server) {
                nothing_found()
            } else {
                missing_server(
                    server,
                    "step "@ + step + ": tool '"@ + tool + "' needs MCP server '"@ + server
                        + "', "@ + ("which is not configured under [mcp."@ + server + "]"@),
                    requires_servers,
                )
            },
        }
    }
}

fn report_missing_server(
    server: &str,
    message: String,
    requires_servers: &Vec<String>,
    check: &mut CatalogCheck,
)
    ensures
        final(check)@ == both(
            old(check)@,
            missing_server(server@, message@, texts(requires_servers@)),
        ),
{
    if lists(requires_servers, server) {
        check.add_note(cat2(message.as_str(), " (declared in requires_servers)"));
    } else {
        check.add_error(message);
    }
}

/// Resolves one step's tool.
pub fn check_tool(
    step_id: &str,
    tool: &str,
    requires_servers: &Vec<String>,
    catalog: &ToolCatalog,
    check: &mut CatalogCheck,
)
    ensures
        final(check)@ == both(
            old(check)@,
            tool_findings(step_id@, tool@, texts(requires_servers@), catalog@),
        ),
{
    proof {
        lemma_found_nothing(check@);
    }
    if is_control_step(tool) || same_text(tool, "plan_and_execute") {
        return;
    }
    if let Some(problem) = workbench_tool_problem(tool) {
        check.add_error(cat4("step ", step_id, ": ", problem.as_str()));
    } else if starts_with(tool, "plan__") {
        let identifier = read_plan_name(tool);
        if !lists(&catalog.plans, identifier.as_str()) {
            check.add_error(
                cat7(
                    "step ",
                    step_id,
                    ": unknown plan '",
                    identifier.as_str(),
                    "' (",
                    tool,
                    ") — not in the plan catalog (missing, failed to load, or hidden by an unconfigured requires_servers entry)",
                ),
            );
        }
    } else if starts_with(tool, "builtin__") {
        if !lists(&catalog.builtin_tools, tool) {
            check.add_error(
                cat5(
                    "step ",
                    step_id,
                    ": unknown builtin tool '",
                    tool,
                    "' — not provided by the enabled tool packs ([tools].packs)",
                ),
            );
        }
    } else if starts_with(tool, "user__") {
        if !lists(&catalog.user_tools, tool) {
            check.add_error(
                cat5(
                    "step ",
                    step_id,
                    ": unknown user tool '",
                    tool,
                    "' — no such tool loads from [tools].paths",
                ),
            );
        }
    } else if let Some(server) = namespace(tool) {
        let server = server.as_str();
        if !lists(&catalog.mcp_servers, server) {
            let where_ = cat3("which is not configured under [mcp.", server, "]");
            let lead = cat7(
                "step ",
                step_id,
                ": tool '",
                tool,
                "' needs MCP server '",
                server,
                "', ",
            );
            report_missing_server(
                server,
                cat2(lead.as_str(), where_.as_str()),
                requires_servers,
                check,
            );
        }
    }
}

/// Whether a pattern is made of `*` alone.
pub open spec fn all_stars(pattern: Seq<char>) -> bool {
    forall|i: int| 0 <= i < pattern.len() ==> #[trigger] pattern[i] == '*'
}

/// Whether a pattern matches some of the names.
pub open spec fn matches_some(pattern: Seq<char>, candidates: Seq<Seq<char>>) -> bool {
    exists|i: int| 0 <= i < candidates.len() && glob(pattern, #[trigger] candidates[i])
}

/// What is found of a pattern for local tools.
pub open spec fn local_findings(
    step: Seq<char>,
    pattern: Seq<char>,
    candidates: Seq<Seq<char>>,
    label: Seq<char>,
) -> CatalogCheckView {
    if matches_some(pattern, candidates) {
        nothing_found()
    } else {
        one_error("step "@ + step + ": `tools` pattern '"@ + pattern + "' matches no "@ + label)
    }
}

/// What is found of one pattern in an agent's `tools:`. A wildcard inside the
/// namespace itself cannot be resolved to a server without listing everything:
/// that is left to the run.
pub open spec fn pattern_findings(
    step: Seq<char>,
    pattern: Seq<char>,
    requires_servers: Seq<Seq<char>>,
    catalog: ToolCatalogView,
) -> CatalogCheckView {
    if pattern.len() == 0 {
        one_error("step "@ + step + ": `tools` contains an empty pattern"@)
    } else if all_stars(pattern) {
        nothing_found()
    } else {
        match namespace_of(pattern) {
            None => one_error(
                "step "@ + step + ": `tools` pattern '"@ + pattern
                    + "' is not a namespaced tool name or pattern (like linear__* or user__git_log)"@,
            ),
            Some(namespace) => if namespace.contains('*') {
                nothing_found()
            } else if namespace == "builtin"@ {
                local_findings(step, pattern, catalog.builtin_tools, "builtin tool"@)
            } else if namespace == "user"@ {
                local_findings(step, pattern, catalog.user_tools, "user tool"@)
            } else if namespace == "plan"@ {
                if matches_some(plan_name(pattern), catalog.plans) {
                    nothing_found()
                } else {
                    one_error(
                        "step "@ + step + ": `tools` pattern '"@ + pattern
                            + "' matches no plan in the plan catalog"@,
                    )
                }
            } else if catalog.mcp_servers.contains(namespace) {
                nothing_found()
            } else {
                missing_server(
                    namespace,
                    "step "@ + step + ": `tools` pattern '"@ + pattern + "' needs MCP server '"@
                        + namespace + "', "@ + ("which is not configured under [mcp."@ + namespace
                        + "]"@),
                    requires_servers,
                )
            },
        }
    }
}

fn any_matches(pattern: &str, candidates: &Vec<String>) -> (r: bool)
    ensures
        r == matches_some(pattern@, texts(candidates@)),
{
    let mut i: usize = 0;
    while i < candidates.len()
        invariant
            i <= candidates@.len(),
            forall|k: int| 0 <= k < i ==> !glob(pattern@, #[trigger] texts(candidates@)[k]),
        decreases candidates.len() - i,
    {
        if glob_matches(pattern, candidates[i].as_str()) {
            assert(glob(pattern@, texts(candidates@)[i as int]));
            return true;
        }
        i += 1;
    }
    false
}

fn only_stars(pattern: &Vec<char>) -> (r: bool)
    ensures
        r == all_stars(pattern@),
{
    let mut i: usize = 0;
    while i < pattern.len()
        invariant
            i <= pattern@.len(),
            forall|k: int| 0 <= k < i ==> #[trigger] pattern@[k] == '*',
        decreases pattern.len() - i,
    {
        if pattern[i] != '*' {
            return false;
        }
        i += 1;
    }
    true
}

fn has_star(s: &str) -> (r: bool)
    ensures
        r == s@.contains('*'),
{
    let chars = chars_of(s);
    let mut i: usize = 0;
    while i < chars.len()
        invariant
            i <= chars@.len(),
            chars@ == s@,
            forall|k: int| 0 <= k < i ==> #[trigger] chars@[k] != '*',
        decreases chars.len() - i,
    {
        if chars[i] == '*' {
            assert(s@[i as int] == '*');
            return true;
        }
        i += 1;
    }
    false
}

/// A name whose namespace is `plan` begins with `plan__`.
proof fn lemma_plan_namespace(tool: Seq<char>)
    requires
        namespace_of(tool) == Some("plan"@),
    ensures
        begins(tool, "plan__"@),
{
    reveal_strlit("plan");
    reveal_strlit("__");
    reveal_strlit("plan__");
    crate::template::parser::lemma_find_bounds(tool, "__"@, 0);
    let i = find_from(tool, "__"@, 0)->0;
    assert(tool.take(i).len() == 4);
    assert(tool.subrange(i, i + 2) == "__"@);
    assert(tool.subrange(0, 6) =~= "plan__"@) by {
        assert forall|k: int| 0 <= k < 6 implies tool.subrange(0, 6)[k] == "plan__"@[k] by {
            if k < 4 {
                assert(tool.take(i)[k] == "plan"@[k]);
            } else {
                assert(tool.subrange(i, i + 2)[k - 4] == "__"@[k - 4]);
            }
        }
    }
}

/// Resolves one `tools:` pattern. The namespace rules are those of
/// [`check_tool`], with the same MCP constraint: servers resolve, individual
/// tools do not.
pub fn check_pattern(
    step_id: &str,
    pattern: &str,
    requires_servers: &Vec<String>,
    catalog: &ToolCatalog,
    check: &mut CatalogCheck,
)
    ensures
        final(check)@ == both(
            old(check)@,
            pattern_findings(step_id@, pattern@, texts(requires_servers@), catalog@),
        ),
{
    proof {
        lemma_found_nothing(check@);
    }
    let chars = chars_of(pattern);
    if chars.len() == 0 {
        check.add_error(cat3("step ", step_id, ": `tools` contains an empty pattern"));
        return;
    }
    if only_stars(&chars) {
        return;
    }
    let space = match namespace(pattern) {
        Some(space) => space,
        None => {
            check.add_error(
                cat5(
                    "step ",
                    step_id,
                    ": `tools` pattern '",
                    pattern,
                    "' is not a namespaced tool name or pattern (like linear__* or user__git_log)",
                ),
            );
            return;
        },
    };
    let space = space.as_str();
    if has_star(space) {
        return;
    }
    if same_text(space, "builtin") {
        if !any_matches(pattern, &catalog.builtin_tools) {
            check.add_error(
                cat6(
                    "step ",
                    step_id,
                    ": `tools` pattern '",
                    pattern,
                    "' matches no ",
                    "builtin tool",
                ),
            );
        }
    } else if same_text(space, "user") {
        if !any_matches(pattern, &catalog.user_tools) {
            check.add_error(
                cat6(
                    "step ",
                    step_id,
                    ": `tools` pattern '",
                    pattern,
                    "' matches no ",
                    "user tool",
                ),
            );
        }
    } else if same_text(space, "plan") {
        proof {
            lemma_plan_namespace(pattern@);
        }
        if !any_matches(read_plan_name(pattern).as_str(), &catalog.plans) {
            check.add_error(
                cat5(
                    "step ",
                    step_id,
                    ": `tools` pattern '",
                    pattern,
                    "' matches no plan in the plan catalog",
                ),
            );
        }
    } else if !lists(&catalog.mcp_servers, space) {
        let where_ = cat3("which is not configured under [mcp.", space, "]");
        let lead = cat7(
            "step ",
            step_id,
            ": `tools` pattern '",
            pattern,
            "' needs MCP server '",
            space,
            "', ",
        );
        report_missing_server(
            space,
            cat2(lead.as_str(), where_.as_str()),
            requires_servers,
            check,
        );
    }
}

// ── The tools a plan names ───────────────────────────────────────────────

/// The fields of a control step's input that hold bodies.
pub open spec fn body_keys(tool: Seq<char>) -> Seq<Seq<char>> {
    if tool == "decide"@ {
        seq!["then"@, "else"@]
    } else if tool == "map"@ || tool == "reduce"@ {
        seq!["do"@]
    } else {
        Seq::empty()
    }
}

fn body_key_list(tool: &str) -> (r: Vec<&'static str>)
    ensures
        crate::pipeline::references::names(r@) == body_keys(tool@),
{
    let r: Vec<&'static str> = if same_text(tool, "decide") {
        vec!["then", "else"]
    } else if same_text(tool, "map") || same_text(tool, "reduce") {
        vec!["do"]
    } else {
        Vec::new()
    };
    assert(crate::pipeline::references::names(r@) =~= body_keys(tool@));
    r
}

/// A name that a plan uses, with the step that uses it.
pub type ToolRef = (Seq<char>, Seq<char>);

pub open spec fn refs_view(s: Seq<(String, String)>) -> Seq<ToolRef> {
    Seq::new(s.len(), |i: int| (s[i].0@, s[i].1@))
}

/// Where a body step stands.
pub open spec fn inner_id(step: Seq<char>, inner: Seq<char>) -> Seq<char> {
    step + "/"@ + inner
}

/// The tools that some body steps call.
pub open spec fn inner_tools(step: Seq<char>, steps: Seq<StepView>) -> Seq<ToolRef> {
    Seq::new(steps.len(), |i: int| (inner_id(step, steps[i].id), steps[i].tool_name))
}

/// The tools that a body calls; none where it is no body.
pub open spec fn body_tools(step: Seq<char>, key: Seq<char>, raw: Option<Json>) -> Seq<ToolRef> {
    match raw {
        None => Seq::empty(),
        Some(raw) => match branch_of(key, raw) {
            Ok(BranchView::Call(call)) => seq![(step, call.tool_name)],
            Ok(BranchView::Steps(steps)) => inner_tools(step, steps),
            Err(_) => Seq::empty(),
        },
    }
}

/// The tools that the first `n` bodies of a step call.
pub open spec fn bodies_tools(step: StepView, keys: Seq<Seq<char>>, n: int) -> Seq<ToolRef>
    decreases n,
{
    if n <= 0 || n > keys.len() {
        Seq::empty()
    } else {
        bodies_tools(step, keys, n - 1) + body_tools(
            step.id,
            keys[n - 1],
            lookup(step.input, keys[n - 1]),
        )
    }
}

/// The tools that the first `n` steps of a plan call, bodies included.
pub open spec fn plan_tools(plan: Seq<StepView>, n: int) -> Seq<ToolRef>
    decreases n,
{
    if n <= 0 || n > plan.len() {
        Seq::empty()
    } else {
        plan_tools(plan, n - 1) + seq![(plan[n - 1].id, plan[n - 1].tool_name)] + bodies_tools(
            plan[n - 1],
            body_keys(plan[n - 1].tool_name),
            body_keys(plan[n - 1].tool_name).len() as int,
        )
    }
}

fn push_ref(refs: &mut Vec<(String, String)>, id: String, tool: String)
    ensures
        refs_view(final(refs)@) == refs_view(old(refs)@) + seq![(id@, tool@)],
{
    let ghost before = refs@;
    refs.push((id, tool));
    assert(refs_view(refs@) =~= refs_view(before) + seq![(id@, tool@)]);
}

fn add_inner_tools(refs: &mut Vec<(String, String)>, step: &str, steps: &Vec<Step>)
    ensures
        refs_view(final(refs)@) == refs_view(old(refs)@) + inner_tools(
            step@,
            plan_view(steps@),
        ),
{
    let ghost before = refs_view(refs@);
    let ghost all = inner_tools(step@, plan_view(steps@));
    let mut i: usize = 0;
    assert(before + all.take(0) =~= before);
    while i < steps.len()
        invariant
            i <= steps@.len(),
            all == inner_tools(step@, plan_view(steps@)),
            refs_view(refs@) == before + all.take(i as int),
        decreases steps.len() - i,
    {
        push_ref(
            refs,
            cat3(step, "/", steps[i].id.as_str()),
            steps[i].tool_name.clone(),
        );
        i += 1;
        assert(before + all.take(i as int) =~= before + all.take(i - 1) + seq![all[i - 1]]);
    }
    assert(all.take(i as int) =~= all);
}

fn add_body_tools(refs: &mut Vec<(String, String)>, step: &str, key: &str, raw: Option<&Data>)
    ensures
        refs_view(final(refs)@) == refs_view(old(refs)@) + body_tools(
            step@,
            key@,
            match raw {
                Some(v) => Some(v@),
                None => None,
            },
        ),
{
    proof {
        crate::seqs::append_nothing(refs_view(refs@));
    }
    if let Some(raw) = raw {
        match parse_branch(key, raw) {
            Ok(Branch::Call(call)) => push_ref(refs, step.to_owned(), call.tool_name),
            Ok(Branch::Steps(steps)) => add_inner_tools(refs, step, &steps),
            Err(_) => {},
        }
    }
}

/// Every `(step id, tool name)` pair in a plan, control-step bodies included.
/// Bodies that fail to parse are skipped: static validation reports those.
pub fn step_tools(plan: &Plan) -> (r: Vec<(String, String)>)
    ensures
        refs_view(r@) == plan_tools(plan_view(plan@), plan@.len() as int),
{
    let ghost steps = plan_view(plan@);
    let mut refs: Vec<(String, String)> = Vec::new();
    assert(refs_view(refs@) =~= plan_tools(steps, 0));
    let mut i: usize = 0;
    while i < plan.len()
        invariant
            i <= plan@.len(),
            steps == plan_view(plan@),
            refs_view(refs@) == plan_tools(steps, i as int),
        decreases plan.len() - i,
    {
        let step = &plan[i];
        let ghost so_far = refs_view(refs@);
        push_ref(&mut refs, step.id.clone(), step.tool_name.clone());
        let ghost base = refs_view(refs@);
        let keys = body_key_list(step.tool_name.as_str());
        let ghost keyed = body_keys(step@.tool_name);
        let mut k: usize = 0;
        proof {
            crate::seqs::append_nothing(base);
        }
        while k < keys.len()
            invariant
                k <= keys@.len(),
                keyed == crate::pipeline::references::names(keys@),
                refs_view(refs@) == base + bodies_tools(step@, keyed, k as int),
            decreases keys.len() - k,
        {
            broadcast use crate::seqs::append_append;

            assert(keyed[k as int] == keys@[k as int]@);
            add_body_tools(&mut refs, step.id.as_str(), keys[k], step.input.get(keys[k]));
            k += 1;
        }
        assert(steps[i as int] == step@);
        i += 1;
    }
    refs
}

/// The patterns in an agent's `tools:`: its strings.
pub open spec fn listed_patterns(step: Seq<char>, items: Seq<Json>, n: int) -> Seq<ToolRef>
    decreases n,
{
    if n <= 0 || n > items.len() {
        Seq::empty()
    } else {
        match items[n - 1] {
            Json::Text(s) => listed_patterns(step, items, n - 1).push((step, s)),
            _ => listed_patterns(step, items, n - 1),
        }
    }
}

/// The patterns in the input of a call, where it calls an agent.
pub open spec fn call_patterns(step: Seq<char>, tool: Seq<char>, input: Entries) -> Seq<ToolRef> {
    if tool == "agent"@ {
        match lookup(input, "tools"@) {
            Some(Json::List(items)) => listed_patterns(step, items, items.len() as int),
            _ => Seq::empty(),
        }
    } else {
        Seq::empty()
    }
}

/// The patterns in the first `n` body steps.
pub open spec fn inner_patterns(step: Seq<char>, steps: Seq<StepView>, n: int) -> Seq<ToolRef>
    decreases n,
{
    if n <= 0 || n > steps.len() {
        Seq::empty()
    } else {
        inner_patterns(step, steps, n - 1) + call_patterns(
            inner_id(step, steps[n - 1].id),
            steps[n - 1].tool_name,
            steps[n - 1].input,
        )
    }
}

/// The patterns in a body.
pub open spec fn body_patterns(step: Seq<char>, key: Seq<char>, raw: Option<Json>) -> Seq<ToolRef> {
    match raw {
        None => Seq::empty(),
        Some(raw) => match branch_of(key, raw) {
            Ok(BranchView::Call(call)) => call_patterns(step, call.tool_name, call.input),
            Ok(BranchView::Steps(steps)) => inner_patterns(step, steps, steps.len() as int),
            Err(_) => Seq::empty(),
        },
    }
}

/// The patterns in the first `n` bodies of a step.
pub open spec fn bodies_patterns(step: StepView, keys: Seq<Seq<char>>, n: int) -> Seq<ToolRef>
    decreases n,
{
    if n <= 0 || n > keys.len() {
        Seq::empty()
    } else {
        bodies_patterns(step, keys, n - 1) + body_patterns(
            step.id,
            keys[n - 1],
            lookup(step.input, keys[n - 1]),
        )
    }
}

/// The patterns in the first `n` steps of a plan, bodies included.
pub open spec fn plan_patterns(plan: Seq<StepView>, n: int) -> Seq<ToolRef>
    decreases n,
{
    if n <= 0 || n > plan.len() {
        Seq::empty()
    } else {
        plan_patterns(plan, n - 1) + call_patterns(
            plan[n - 1].id,
            plan[n - 1].tool_name,
            plan[n - 1].input,
        ) + bodies_patterns(
            plan[n - 1],
            body_keys(plan[n - 1].tool_name),
            body_keys(plan[n - 1].tool_name).len() as int,
        )
    }
}

fn add_call_patterns(refs: &mut Vec<(String, String)>, step: &str, tool: &str, input: &Fields)
    ensures
        refs_view(final(refs)@) == refs_view(old(refs)@) + call_patterns(step@, tool@, input@),
{
    let ghost before = refs_view(refs@);
    proof {
        crate::seqs::append_nothing(before);
    }
    if !same_text(tool, "agent") {
        return;
    }
    if let Some(Data::List(items)) = input.get("tools") {
        let ghost all = values_view(items@);
        let mut i: usize = 0;
        while i < items.len()
            invariant
                i <= items@.len(),
                all == values_view(items@),
                refs_view(refs@) == before + listed_patterns(step@, all, i as int),
            decreases items.len() - i,
        {
            if let Data::Text(s) = &items[i] {
                push_ref(refs, step.to_owned(), s.clone());
                assert(refs_view(refs@) =~= before + listed_patterns(step@, all, i as int).push(
                    (step@, s@),
                ));
            }
            i += 1;
        }
    }
}

fn add_inner_patterns(refs: &mut Vec<(String, String)>, step: &str, steps: &Vec<Step>)
    ensures
        refs_view(final(refs)@) == refs_view(old(refs)@) + inner_patterns(
            step@,
            plan_view(steps@),
            steps@.len() as int,
        ),
{
    let ghost before = refs_view(refs@);
    let ghost model = plan_view(steps@);
    proof {
        crate::seqs::append_nothing(before);
    }
    let mut i: usize = 0;
    while i < steps.len()
        invariant
            i <= steps@.len(),
            model == plan_view(steps@),
            refs_view(refs@) == before + inner_patterns(step@, model, i as int),
        decreases steps.len() - i,
    {
        broadcast use crate::seqs::append_append;

        let inner = &steps[i];
        assert(model[i as int] == inner@);
        add_call_patterns(
            refs,
            cat3(step, "/", inner.id.as_str()).as_str(),
            inner.tool_name.as_str(),
            &inner.input,
        );
        i += 1;
    }
}

fn add_body_patterns(refs: &mut Vec<(String, String)>, step: &str, key: &str, raw: Option<&Data>)
    ensures
        refs_view(final(refs)@) == refs_view(old(refs)@) + body_patterns(
            step@,
            key@,
            match raw {
                Some(v) => Some(v@),
                None => None,
            },
        ),
{
    proof {
        crate::seqs::append_nothing(refs_view(refs@));
    }
    if let Some(raw) = raw {
        match parse_branch(key, raw) {
            Ok(Branch::Call(call)) => add_call_patterns(
                refs,
                step,
                call.tool_name.as_str(),
                &call.input,
            ),
            Ok(Branch::Steps(steps)) => add_inner_patterns(refs, step, &steps),
            Err(_) => {},
        }
    }
}

/// Every `(step id, pattern)` pair from `agent` steps' `tools:` lists,
/// control-step bodies included. These are tool *references* even though they
/// live in input data, so they get resolved like any step tool name.
pub fn agent_tool_patterns(plan: &Plan) -> (r: Vec<(String, String)>)
    ensures
        refs_view(r@) == plan_patterns(plan_view(plan@), plan@.len() as int),
{
    let ghost steps = plan_view(plan@);
    let mut refs: Vec<(String, String)> = Vec::new();
    assert(refs_view(refs@) =~= plan_patterns(steps, 0));
    let mut i: usize = 0;
    while i < plan.len()
        invariant
            i <= plan@.len(),
            steps == plan_view(plan@),
            refs_view(refs@) == plan_patterns(steps, i as int),
        decreases plan.len() - i,
    {
        let step = &plan[i];
        assert(steps[i as int] == step@);
        add_call_patterns(&mut refs, step.id.as_str(), step.tool_name.as_str(), &step.input);
        let ghost base = refs_view(refs@);
        let keys = body_key_list(step.tool_name.as_str());
        let ghost keyed = body_keys(step@.tool_name);
        let mut k: usize = 0;
        proof {
            crate::seqs::append_nothing(base);
        }
        while k < keys.len()
            invariant
                k <= keys@.len(),
                keyed == crate::pipeline::references::names(keys@),
                refs_view(refs@) == base + bodies_patterns(step@, keyed, k as int),
            decreases keys.len() - k,
        {
            broadcast use crate::seqs::append_append;

            assert(keyed[k as int] == keys@[k as int]@);
            add_body_patterns(&mut refs, step.id.as_str(), keys[k], step.input.get(keys[k]));
            k += 1;
        }
        i += 1;
    }
    refs
}

// ── Resolution ───────────────────────────────────────────────────────────

/// What is found of the first `n` tools.
pub open spec fn tools_findings(
    refs: Seq<ToolRef>,
    requires_servers: Seq<Seq<char>>,
    catalog: ToolCatalogView,
    n: int,
) -> CatalogCheckView
    decreases n,
{
    if n <= 0 || n > refs.len() {
        nothing_found()
    } else {
        both(
            tools_findings(refs, requires_servers, catalog, n - 1),
            tool_findings(refs[n - 1].0, refs[n - 1].1, requires_servers, catalog),
        )
    }
}

/// What is found of the first `n` patterns, added to what was found before.
pub open spec fn patterns_findings(
    found: CatalogCheckView,
    refs: Seq<ToolRef>,
    requires_servers: Seq<Seq<char>>,
    catalog: ToolCatalogView,
    n: int,
) -> CatalogCheckView
    decreases n,
{
    if n <= 0 || n > refs.len() {
        found
    } else {
        both(
            patterns_findings(found, refs, requires_servers, catalog, n - 1),
            pattern_findings(refs[n - 1].0, refs[n - 1].1, requires_servers, catalog),
        )
    }
}

/// What is found of a plan's names: its tools, then its agents' patterns.
pub open spec fn plan_findings(
    plan: Seq<StepView>,
    requires_servers: Seq<Seq<char>>,
    catalog: ToolCatalogView,
) -> CatalogCheckView {
    let tools = plan_tools(plan, plan.len() as int);
    let patterns = plan_patterns(plan, plan.len() as int);
    patterns_findings(
        tools_findings(tools, requires_servers, catalog, tools.len() as int),
        patterns,
        requires_servers,
        catalog,
        patterns.len() as int,
    )
}

fn resolve_names(plan: &Plan, requires_servers: &Vec<String>, catalog: &ToolCatalog) -> (r:
    CatalogCheck)
    ensures
        r@ == plan_findings(plan_view(plan@), texts(requires_servers@), catalog@),
{
    let mut check = CatalogCheck::new();
    let tools = step_tools(plan);
    let ghost tool_refs = refs_view(tools@);
    let ghost servers = texts(requires_servers@);
    let mut i: usize = 0;
    while i < tools.len()
        invariant
            i <= tools@.len(),
            tool_refs == refs_view(tools@),
            servers == texts(requires_servers@),
            check@ == tools_findings(tool_refs, servers, catalog@, i as int),
        decreases tools.len() - i,
    {
        check_tool(
            tools[i].0.as_str(),
            tools[i].1.as_str(),
            requires_servers,
            catalog,
            &mut check,
        );
        i += 1;
    }
    let ghost found = check@;
    let patterns = agent_tool_patterns(plan);
    let ghost pattern_refs = refs_view(patterns@);
    let mut k: usize = 0;
    while k < patterns.len()
        invariant
            k <= patterns@.len(),
            pattern_refs == refs_view(patterns@),
            servers == texts(requires_servers@),
            check@ == patterns_findings(found, pattern_refs, servers, catalog@, k as int),
        decreases patterns.len() - k,
    {
        check_pattern(
            patterns[k].0.as_str(),
            patterns[k].1.as_str(),
            requires_servers,
            catalog,
            &mut check,
        );
        k += 1;
    }
    check
}

/// Resolves one document's step tools (control bodies included) against the
/// catalog. `requires_servers` downgrades declared-but-unconfigured MCP servers
/// from errors to notes, see [`CatalogCheck::notes`].
pub fn resolve_plan_tools(doc: &PlanDoc, catalog: &ToolCatalog) -> (r: CatalogCheck)
    ensures
        r@ == plan_findings(doc@.steps, doc@.requires_servers, catalog@),
{
    resolve_names(&doc.steps, &doc.requires_servers, catalog)
}

/// Resolves bare steps (no document context). No `requires_servers` leniency:
/// these steps are about to run, so every unconfigured server is an error.
pub fn resolve_step_tools(plan: &Plan, catalog: &ToolCatalog) -> (r: Vec<String>)
    ensures
        texts(r@) == plan_findings(plan_view(plan@), Seq::empty(), catalog@).errors,
{
    let none: Vec<String> = Vec::new();
    assert(texts(none@) =~= Seq::<Seq<char>>::empty());
    resolve_names(plan, &none, catalog).errors
}

// ── Following plan references ────────────────────────────────────────────

/// The plan that a tool's name refers to.
pub open spec fn plan_ref(tool: Seq<char>) -> Seq<Seq<char>> {
    if begins(tool, "plan__"@) {
        seq![plan_name(tool)]
    } else {
        Seq::empty()
    }
}

/// The plan that a call in a body refers to.
pub open spec fn call_ref(v: Json) -> Seq<Seq<char>> {
    match at(entries_of(v), "toolName"@, "tool_name"@) {
        Some(Json::Text(tool)) => plan_ref(tool),
        _ => Seq::empty(),
    }
}

/// The plans that the first `n` calls of a body refer to.
pub open spec fn calls_refs(items: Seq<Json>, n: int) -> Seq<Seq<char>>
    decreases n,
{
    if n <= 0 || n > items.len() {
        Seq::empty()
    } else {
        calls_refs(items, n - 1) + call_ref(items[n - 1])
    }
}

/// The plans that a body refers to.
pub open spec fn body_refs(raw: Option<Json>) -> Seq<Seq<char>> {
    match raw {
        Some(Json::Object(e)) => call_ref(Json::Object(e)),
        Some(Json::List(items)) => calls_refs(items, items.len() as int),
        _ => Seq::empty(),
    }
}

/// The plans that the first `n` bodies of a step refer to.
pub open spec fn bodies_refs(step: StepView, keys: Seq<Seq<char>>, n: int) -> Seq<Seq<char>>
    decreases n,
{
    if n <= 0 || n > keys.len() {
        Seq::empty()
    } else {
        bodies_refs(step, keys, n - 1) + body_refs(lookup(step.input, keys[n - 1]))
    }
}

/// The plans that the first `n` steps of a plan refer to, bodies included, in
/// order, with repetitions.
pub open spec fn refs_of_plan(plan: Seq<StepView>, n: int) -> Seq<Seq<char>>
    decreases n,
{
    if n <= 0 || n > plan.len() {
        Seq::empty()
    } else {
        refs_of_plan(plan, n - 1) + plan_ref(plan[n - 1].tool_name) + bodies_refs(
            plan[n - 1],
            body_keys(plan[n - 1].tool_name),
            body_keys(plan[n - 1].tool_name).len() as int,
        )
    }
}

/// The plans that a plan refers to, bodies included, each once, in order of
/// first use.
pub open spec fn distinct_refs(plan: Seq<StepView>) -> Seq<Seq<char>> {
    distinct(refs_of_plan(plan, plan.len() as int))
}

fn add_plan_ref(refs: &mut Vec<String>, tool: &str)
    ensures
        texts(final(refs)@) == texts(old(refs)@) + plan_ref(tool@),
{
    proof {
        crate::seqs::append_nothing(texts(refs@));
    }
    if starts_with(tool, "plan__") {
        push_text(refs, read_plan_name(tool));
    }
}

fn add_call_ref(refs: &mut Vec<String>, v: &Data)
    ensures
        texts(final(refs)@) == texts(old(refs)@) + call_ref(v@),
{
    proof {
        crate::seqs::append_nothing(texts(refs@));
    }
    if let Data::Object(fields) = v {
        if let Some(Data::Text(tool)) = get_at(fields, "toolName", "tool_name") {
            add_plan_ref(refs, tool.as_str());
        }
    }
}

fn add_body_refs(refs: &mut Vec<String>, raw: Option<&Data>)
    ensures
        texts(final(refs)@) == texts(old(refs)@) + body_refs(
            match raw {
                Some(v) => Some(v@),
                None => None,
            },
        ),
{
    let ghost before = texts(refs@);
    proof {
        crate::seqs::append_nothing(before);
    }
    match raw {
        Some(Data::Object(_)) => add_call_ref(refs, raw.unwrap()),
        Some(Data::List(items)) => {
            let ghost all = values_view(items@);
            let mut i: usize = 0;
            while i < items.len()
                invariant
                    i <= items@.len(),
                    all == values_view(items@),
                    texts(refs@) == before + calls_refs(all, i as int),
                decreases items.len() - i,
            {
                broadcast use crate::seqs::append_append;

                assert(all[i as int] == items@[i as int]@);
                add_call_ref(refs, &items[i]);
                i += 1;
            }
        },
        _ => {},
    }
}

/// Every reference of a plan's steps (bodies included) to a plan.
fn collect_plan_refs(plan: &Plan) -> (r: Vec<String>)
    ensures
        texts(r@) == refs_of_plan(plan_view(plan@), plan@.len() as int),
{
    let ghost steps = plan_view(plan@);
    let mut refs: Vec<String> = Vec::new();
    assert(texts(refs@) =~= refs_of_plan(steps, 0));
    let mut i: usize = 0;
    while i < plan.len()
        invariant
            i <= plan@.len(),
            steps == plan_view(plan@),
            texts(refs@) == refs_of_plan(steps, i as int),
        decreases plan.len() - i,
    {
        let step = &plan[i];
        assert(steps[i as int] == step@);
        add_plan_ref(&mut refs, step.tool_name.as_str());
        let ghost base = texts(refs@);
        let keys = body_key_list(step.tool_name.as_str());
        let ghost keyed = body_keys(step@.tool_name);
        let mut k: usize = 0;
        proof {
            crate::seqs::append_nothing(base);
        }
        while k < keys.len()
            invariant
                k <= keys@.len(),
                keyed == crate::pipeline::references::names(keys@),
                texts(refs@) == base + bodies_refs(step@, keyed, k as int),
            decreases keys.len() - k,
        {
            broadcast use crate::seqs::append_append;

            assert(keyed[k as int] == keys@[k as int]@);
            add_body_refs(&mut refs, step.input.get(keys[k]));
            k += 1;
        }
        i += 1;
    }
    refs
}

/// The distinct `plan__*` identifiers that a plan's steps (bodies included)
/// reference.
pub fn plan_refs(plan: &Plan) -> (r: Vec<String>)
    ensures
        texts(r@) == distinct_refs(plan_view(plan@)),
{
    let all = collect_plan_refs(plan);
    let ghost refs = texts(all@);
    let mut out: Vec<String> = Vec::new();
    let mut i: usize = 0;
    assert(refs.take(0) =~= Seq::<Seq<char>>::empty());
    assert(texts(out@) =~= Seq::<Seq<char>>::empty());
    while i < all.len()
        invariant
            i <= all@.len(),
            refs == texts(all@),
            texts(out@) == distinct(refs.take(i as int)),
        decreases all.len() - i,
    {
        proof {
            assert(refs.take(i + 1) =~= refs.take(i as int) + seq![refs[i as int]]);
            lemma_adding_new_concat(Seq::empty(), refs.take(i as int), seq![refs[i as int]]);
        }
        add_new(&mut out, all[i].clone());
        i += 1;
    }
    assert(refs.take(i as int) =~= refs);
    out
}

/// Messages with the plan they belong to.
pub open spec fn prefixed(identifier: Seq<char>, messages: Seq<Seq<char>>) -> Seq<Seq<char>> {
    Seq::new(messages.len(), |i: int| "plan '"@ + identifier + "': "@ + messages[i])
}

/// How many documents have identifiers that were not visited.
pub open spec fn unvisited(docs: Seq<PlanDocView>, visited: Seq<Seq<char>>) -> nat
    decreases docs.len(),
{
    if docs.len() == 0 {
        0
    } else {
        unvisited(docs.drop_last(), visited) + (if visited.contains(docs.last().identifier) {
            0nat
        } else {
            1nat
        })
    }
}

/// What is found by following the references in a queue, last first, each plan
/// once, added to what was found before. A plan that is not among the documents
/// is passed over: the reference to it was reported where it stands.
pub open spec fn deep_findings(
    queue: Seq<Seq<char>>,
    visited: Seq<Seq<char>>,
    docs: Seq<PlanDocView>,
    catalog: ToolCatalogView,
    found: CatalogCheckView,
) -> CatalogCheckView
    decreases unvisited(docs, visited), queue.len(),
{
    if queue.len() == 0 {
        found
    } else {
        let identifier = queue.last();
        let rest = queue.drop_last();
        if visited.contains(identifier) {
            deep_findings(rest, visited, docs, catalog, found)
        } else {
            let seen = visited.push(identifier);
            proof {
                lemma_visiting(docs, visited, identifier);
            }
            match doc_at(docs, identifier, 0) {
                None => deep_findings(rest, seen, docs, catalog, found),
                Some(i) => {
                    let sub = plan_findings(
                        docs[i].steps,
                        docs[i].requires_servers,
                        catalog,
                    );
                    deep_findings(
                        rest + distinct_refs(docs[i].steps),
                        seen,
                        docs,
                        catalog,
                        both(
                            found,
                            CatalogCheckView {
                                errors: prefixed(identifier, sub.errors),
                                notes: prefixed(identifier, sub.notes),
                            },
                        ),
                    )
                },
            }
        }
    }
}

/// Visiting a plan leaves no more to visit, and less where it is a document
/// that was not visited.
pub proof fn lemma_visiting(
    docs: Seq<PlanDocView>,
    visited: Seq<Seq<char>>,
    identifier: Seq<char>,
)
    ensures
        unvisited(docs, visited.push(identifier)) <= unvisited(docs, visited),
        !visited.contains(identifier) && doc_at(docs, identifier, 0) is Some ==> unvisited(
            docs,
            visited.push(identifier),
        ) < unvisited(docs, visited),
    decreases docs.len(),
{
    if docs.len() > 0 {
        let seen = visited.push(identifier);
        lemma_visiting(docs.drop_last(), visited, identifier);
        let last = docs.last().identifier;
        assert(seen.contains(last) == (visited.contains(last) || last == identifier)) by {
            if visited.contains(last) {
                let k = choose|k: int| 0 <= k < visited.len() && visited[k] == last;
                assert(seen[k] == last);
            }
            if last == identifier {
                assert(seen[visited.len() as int] == last);
            }
        }
        if doc_at(docs, identifier, 0) is Some && doc_at(docs.drop_last(), identifier, 0) is None {
            lemma_doc_at_last(docs, identifier, 0);
        }
    }
}

proof fn lemma_doc_at_last(docs: Seq<PlanDocView>, identifier: Seq<char>, i: int)
    requires
        docs.len() > 0,
        0 <= i,
        doc_at(docs, identifier, i) is Some,
        doc_at(docs.drop_last(), identifier, i) is None,
    ensures
        docs.last().identifier == identifier,
    decreases docs.len() - i,
{
    if i < docs.len() - 1 {
        assert(docs.drop_last()[i] == docs[i]);
        lemma_doc_at_last(docs, identifier, i + 1);
    } else {
        assert(doc_at(docs, identifier, i + 1) is None);
    }
}

/// What is found of a document's names and of those of every plan it leads to.
pub open spec fn deep_plan_findings(
    doc: PlanDocView,
    docs: Seq<PlanDocView>,
    catalog: ToolCatalogView,
) -> CatalogCheckView {
    deep_findings(
        distinct_refs(doc.steps),
        seq![doc.identifier],
        docs,
        catalog,
        plan_findings(doc.steps, doc.requires_servers, catalog),
    )
}

fn add_prefixed(out: &mut Vec<String>, identifier: &str, messages: &Vec<String>)
    ensures
        texts(final(out)@) == texts(old(out)@) + prefixed(identifier@, texts(messages@)),
{
    let ghost before = texts(out@);
    let ghost all = prefixed(identifier@, texts(messages@));
    let mut i: usize = 0;
    assert(before + all.take(0) =~= before);
    while i < messages.len()
        invariant
            i <= messages@.len(),
            all == prefixed(identifier@, texts(messages@)),
            texts(out@) == before + all.take(i as int),
        decreases messages.len() - i,
    {
        push_text(out, cat4("plan '", identifier, "': ", messages[i].as_str()));
        i += 1;
        assert(before + all.take(i as int) =~= before + all.take(i - 1) + seq![all[i - 1]]);
    }
    assert(all.take(i as int) =~= all);
}

fn append_all(out: &mut Vec<String>, more: &Vec<String>)
    ensures
        texts(final(out)@) == texts(old(out)@) + texts(more@),
{
    let ghost before = texts(out@);
    let ghost all = texts(more@);
    let mut i: usize = 0;
    assert(before + all.take(0) =~= before);
    while i < more.len()
        invariant
            i <= more@.len(),
            all == texts(more@),
            texts(out@) == before + all.take(i as int),
        decreases more.len() - i,
    {
        push_text(out, more[i].clone());
        i += 1;
        assert(before + all.take(i as int) =~= before + all.take(i - 1) + seq![all[i - 1]]);
    }
    assert(all.take(i as int) =~= all);
}

/// [`resolve_plan_tools`], following `plan__*` references into the loaded
/// catalog documents (transitively, each once) so a composed plan fails before
/// its first step rather than at the sub-plan call. Sub-plan problems are
/// prefixed with the plan they belong to.
pub fn resolve_plan_tools_deep(
    doc: &PlanDoc,
    all_docs: &Vec<PlanDoc>,
    catalog: &ToolCatalog,
) -> (r: CatalogCheck)
    ensures
        r@ == deep_plan_findings(doc@, docs_view(all_docs@), catalog@),
{
    let ghost docs = docs_view(all_docs@);
    let ghost goal = deep_plan_findings(doc@, docs, catalog@);
    let mut check = resolve_plan_tools(doc, catalog);
    let mut visited: Vec<String> = vec![doc.identifier.clone()];
    let mut queue = plan_refs(&doc.steps);
    assert(texts(visited@) =~= seq![doc@.identifier]);
    while queue.len() > 0
        invariant
            docs == docs_view(all_docs@),
            goal == deep_findings(texts(queue@), texts(visited@), docs, catalog@, check@),
        decreases unvisited(docs, texts(visited@)), queue.len(),
    {
        let ghost before = texts(queue@);
        let ghost old_queue = queue@;
        let ghost old_visited = texts(visited@);
        let identifier = queue.pop().unwrap();
        assert(before.last() == identifier@);
        assert(texts(queue@) =~= before.drop_last());
        if lists(&visited, identifier.as_str()) {
            continue;
        }
        proof {
            lemma_visiting(docs, old_visited, identifier@);
        }
        let ghost plain = visited@;
        visited.push(identifier.clone());
        assert(texts(visited@) =~= texts(plain).push(identifier@));
        if let Some(i) = find_doc(all_docs, identifier.as_str()) {
            let sub = resolve_plan_tools(&all_docs[i], catalog);
            assert(docs[i as int] == all_docs@[i as int]@);
            add_prefixed(&mut check.errors, identifier.as_str(), &sub.errors);
            add_prefixed(&mut check.notes, identifier.as_str(), &sub.notes);
            let more = plan_refs(&all_docs[i].steps);
            append_all(&mut queue, &more);
        }
    }
    check
}

} // verus!
