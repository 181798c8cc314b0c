//! Resolving an agent step's tool patterns against the catalogue.

use crate::pipeline::catalog::{glob, glob_matches};
use crate::pipeline::doc::{
    description_of, docs_view, input_schema_of, PlanDoc, PlanDocView,
};
use crate::text::{cat2, join, joined, same_text, text_before, text_less, texts};
use crate::tools::{
    tool_error_text, tools_view, ToolDef, ToolDefView, ToolError, ToolErrorView,
};
use crate::value::{text_less_total, text_less_transitive};
use vstd::prelude::*;

verus! {

/// What a plan is as a tool.
pub open spec fn plan_tool(doc: PlanDocView) -> ToolDefView {
    ToolDefView {
        name: "plan__"@ + doc.identifier,
        description: description_of(doc),
        input_schema: input_schema_of(doc),
        output_schema: None,
        output_example: None,
        read_only: None,
    }
}

/// What a plan is as a tool.
pub fn plan_tool_def(doc: &PlanDoc) -> (r: ToolDef)
    ensures
        r@ == plan_tool(doc@),
{
    ToolDef {
        name: cat2("plan__", doc.identifier.as_str()),
        description: doc.tool_description(),
        input_schema: doc.tool_input_schema(),
        output_schema: None,
        output_example: None,
        read_only: None,
    }
}

/// Tools, and the plans as tools after them.
pub open spec fn with_plans(tools: Seq<ToolDefView>, plans: Seq<PlanDocView>) -> Seq<ToolDefView> {
    tools + Seq::new(plans.len(), |i: int| plan_tool(plans[i]))
}

/// Adds the plans as tools.
pub fn add_plans(tools: Vec<ToolDef>, plans: &Vec<PlanDoc>) -> (r: Vec<ToolDef>)
    ensures
        tools_view(r@) == with_plans(tools_view(tools@), docs_view(plans@)),
{
    let ghost base = tools_view(tools@);
    let mut all = tools;
    let mut i: usize = 0;
    while i < plans.len()
        invariant
            i <= plans@.len(),
            all@.len() == base.len() + i,
            forall|k: int| 0 <= k < base.len() ==> (#[trigger] all@[k])@ == base[k],
            forall|k: int|
                base.len() <= k < all@.len() ==> (#[trigger] all@[k])@ == plan_tool(
                    plans@[k - base.len()]@,
                ),
        decreases plans.len() - i,
    {
        all.push(plan_tool_def(&plans[i]));
        i += 1;
    }
    assert(tools_view(all@) =~= with_plans(base, docs_view(plans@)));
    all
}

/// Whether some pattern matches a name.
pub open spec fn matched(patterns: Seq<Seq<char>>, name: Seq<char>) -> bool {
    exists|i: int| 0 <= i < patterns.len() && glob(#[trigger] patterns[i], name)
}

/// Whether a pattern matches some tool.
pub open spec fn hits(pattern: Seq<char>, tools: Seq<ToolDefView>) -> bool {
    exists|i: int| 0 <= i < tools.len() && glob(pattern, (#[trigger] tools[i]).name)
}

/// Tools in order of their names with one more; it takes the place of one of
/// the same name.
pub open spec fn with_def(s: Seq<ToolDefView>, def: ToolDefView) -> Seq<ToolDefView>
    decreases s.len(),
{
    if s.len() == 0 {
        seq![def]
    } else if s[0].name == def.name {
        s.update(0, def)
    } else if text_less(def.name, s[0].name) {
        seq![def] + s
    } else {
        seq![s[0]] + with_def(s.skip(1), def)
    }
}

/// The matched ones of the first `n` tools, in order of their names. Of two of
/// one name the later counts.
pub open spec fn selected(
    tools: Seq<ToolDefView>,
    patterns: Seq<Seq<char>>,
    n: int,
) -> Seq<ToolDefView>
    decreases n,
{
    if n <= 0 || n > tools.len() {
        Seq::empty()
    } else if matched(patterns, tools[n - 1].name) {
        with_def(selected(tools, patterns, n - 1), tools[n - 1])
    } else {
        selected(tools, patterns, n - 1)
    }
}

/// The patterns that match no tool.
pub open spec fn unmatched(patterns: Seq<Seq<char>>, tools: Seq<ToolDefView>) -> Seq<Seq<char>> {
    patterns.filter(|p: Seq<char>| !hits(p, tools))
}

/// The tools that patterns select from a catalogue: all of them without a
/// pattern. A pattern that matches nothing is an error naming that pattern:
/// silently dropping it would let a typo quietly shrink the catalogue.
pub open spec fn selection(patterns: Seq<Seq<char>>, tools: Seq<ToolDefView>) -> Result<
    Seq<ToolDefView>,
    Seq<char>,
> {
    if patterns.len() == 0 {
        Ok(tools)
    } else if unmatched(patterns, tools).len() > 0 {
        Err(
            "`tools` pattern(s) matched no tool in the catalogue: "@ + joined(
                unmatched(patterns, tools),
                ", "@,
            ),
        )
    } else {
        Ok(selected(tools, patterns, tools.len() as int))
    }
}

/// The tools that patterns select, given what discovery came to.
pub open spec fn resolution(
    patterns: Seq<Seq<char>>,
    discovered: Result<Seq<ToolDefView>, ToolErrorView>,
    plans: Seq<PlanDocView>,
) -> Result<Seq<ToolDefView>, Seq<char>> {
    match discovered {
        Err(e) => Err("agent tool discovery failed: "@ + tool_error_text(e)),
        Ok(tools) => selection(patterns, with_plans(tools, plans)),
    }
}

pub open spec fn discovery_view(r: Result<Vec<ToolDef>, ToolError>) -> Result<
    Seq<ToolDefView>,
    ToolErrorView,
> {
    match r {
        Ok(tools) => Ok(tools_view(tools@)),
        Err(e) => Err(e@),
    }
}

pub open spec fn selection_view(r: Result<Vec<ToolDef>, String>) -> Result<
    Seq<ToolDefView>,
    Seq<char>,
> {
    match r {
        Ok(tools) => Ok(tools_view(tools@)),
        Err(e) => Err(e@),
    }
}

fn is_matched(patterns: &Vec<String>, name: &str) -> (r: bool)
    ensures
        r == matched(texts(patterns@), name@),
{
    let ghost all = texts(patterns@);
    let mut i: usize = 0;
    while i < patterns.len()
        invariant
            i <= patterns@.len(),
            all == texts(patterns@),
            forall|k: int| 0 <= k < i ==> !glob(#[trigger] all[k], name@),
        decreases patterns.len() - i,
    {
        assert(all[i as int] == patterns@[i as int]@);
        if glob_matches(patterns[i].as_str(), name) {
            return true;
        }
        i += 1;
    }
    false
}

fn does_hit(pattern: &str, tools: &Vec<ToolDef>) -> (r: bool)
    ensures
        r == hits(pattern@, tools_view(tools@)),
{
    let ghost all = tools_view(tools@);
    let mut i: usize = 0;
    while i < tools.len()
        invariant
            i <= tools@.len(),
            all == tools_view(tools@),
            forall|k: int| 0 <= k < i ==> !glob(pattern@, (#[trigger] all[k]).name),
        decreases tools.len() - i,
    {
        assert(all[i as int] == tools@[i as int]@);
        if glob_matches(pattern, tools[i].name.as_str()) {
            return true;
        }
        i += 1;
    }
    false
}

fn find_unmatched(patterns: &Vec<String>, tools: &Vec<ToolDef>) -> (r: Vec<String>)
    ensures
        texts(r@) == unmatched(texts(patterns@), tools_view(tools@)),
{
    let ghost all = texts(patterns@);
    let ghost catalogue = tools_view(tools@);
    let ghost missing = |p: Seq<char>| !hits(p, catalogue);
    let mut out: Vec<String> = Vec::new();
    proof {
        reveal(Seq::filter);
        assert(texts(out@) =~= all.take(0).filter(missing));
    }
    let mut i: usize = 0;
    while i < patterns.len()
        invariant
            i <= patterns@.len(),
            all == texts(patterns@),
            catalogue == tools_view(tools@),
            missing == (|p: Seq<char>| !hits(p, catalogue)),
            texts(out@) == all.take(i as int).filter(missing),
        decreases patterns.len() - i,
    {
        proof {
            reveal(Seq::filter);
            assert(all.take(i + 1).drop_last() =~= all.take(i as int));
            assert(all.take(i + 1).last() == patterns@[i as int]@);
        }
        if !does_hit(patterns[i].as_str(), tools) {
            let ghost before = texts(out@);
            out.push(patterns[i].clone());
            assert(texts(out@) =~= before.push(patterns@[i as int]@));
        }
        i += 1;
    }
    assert(all.take(i as int) =~= all);
    out
}

proof fn lemma_with_def_step(s: Seq<ToolDefView>, def: ToolDefView, i: int)
    requires
        0 <= i < s.len(),
        s[i].name != def.name,
        !text_less(def.name, s[i].name),
    ensures
        s.take(i) + with_def(s.skip(i), def) == s.take(i + 1) + with_def(s.skip(i + 1), def),
{
    assert(s.skip(i)[0] == s[i]);
    assert(s.skip(i).skip(1) =~= s.skip(i + 1));
    assert(s.take(i) + (seq![s[i]] + with_def(s.skip(i + 1), def)) =~= s.take(i + 1) + with_def(
        s.skip(i + 1),
        def,
    ));
}

fn put_def(sorted: &mut Vec<ToolDef>, def: ToolDef)
    ensures
        tools_view(final(sorted)@) == with_def(tools_view(old(sorted)@), def@),
{
    let ghost s = tools_view(sorted@);
    let mut i: usize = 0;
    assert(s.take(0) + with_def(s.skip(0), def@) =~= with_def(s, def@)) by {
        assert(s.skip(0) =~= s);
    }
    while i < sorted.len()
        invariant
            i <= sorted@.len(),
            s == tools_view(sorted@),
            s == tools_view(old(sorted)@),
            with_def(s, def@) == s.take(i as int) + with_def(s.skip(i as int), def@),
        decreases sorted.len() - i,
    {
        assert(s[i as int] == sorted@[i as int]@);
        assert(s.skip(i as int)[0] == s[i as int]);
        if same_text(sorted[i].name.as_str(), def.name.as_str()) {
            sorted.set(i, def);
            assert(tools_view(sorted@) =~= s.take(i as int) + s.skip(i as int).update(0, def@));
            return;
        }
        if text_before(def.name.as_str(), sorted[i].name.as_str()) {
            sorted.insert(i, def);
            assert(tools_view(sorted@) =~= s.take(i as int) + (seq![def@] + s.skip(i as int)));
            return;
        }
        proof {
            lemma_with_def_step(s, def@, i as int);
        }
        i += 1;
    }
    sorted.push(def);
    assert(tools_view(sorted@) =~= s.take(i as int) + seq![def@]);
}

/// Selects tools from a catalogue by name patterns: `linear__*` is every tool
/// starting with `linear__`, `linear__get_issue` is one tool, and no pattern at
/// all is the whole catalogue. The result is keyed and ordered by name:
/// overlapping patterns dedupe, and the catalogue the model sees is
/// byte-identical run to run.
pub fn select_tools(
    patterns: &Vec<String>,
    tools: Vec<ToolDef>,
) -> (r: Result<Vec<ToolDef>, String>)
    ensures
        selection_view(r) == selection(texts(patterns@), tools_view(tools@)),
{
    if patterns.len() == 0 {
        return Ok(tools);
    }
    let missing = find_unmatched(patterns, &tools);
    if missing.len() > 0 {
        return Err(
            cat2(
                "`tools` pattern(s) matched no tool in the catalogue: ",
                join(&missing, ", ").as_str(),
            ),
        );
    }
    let ghost all = tools_view(tools@);
    let ghost wanted = texts(patterns@);
    let mut out: Vec<ToolDef> = Vec::new();
    assert(tools_view(out@) =~= selected(all, wanted, 0));
    for tool in it: tools
        invariant
            it.seq() == tools@,
            all == tools_view(tools@),
            wanted == texts(patterns@),
            tools_view(out@) == selected(all, wanted, it.index() as int),
    {
        assert(all[it.index() as int] == tool@);
        if is_matched(patterns, tool.name.as_str()) {
            put_def(&mut out, tool);
        }
    }
    Ok(out)
}

/// Resolves tool patterns against what a registry discovered, with the plans as
/// tools after it: agents compose with plans instead of `plan_and_execute`.
pub fn resolve_tools(
    patterns: &Vec<String>,
    discovered: Result<Vec<ToolDef>, ToolError>,
    plans: &Vec<PlanDoc>,
) -> (r: Result<Vec<ToolDef>, String>)
    ensures
        selection_view(r) == resolution(
            texts(patterns@),
            discovery_view(discovered),
            docs_view(plans@),
        ),
{
    match discovered {
        Err(e) => Err(cat2("agent tool discovery failed: ", e.message().as_str())),
        Ok(tools) => select_tools(patterns, add_plans(tools, plans)),
    }
}

// ── Laws ─────────────────────────────────────────────────────────────────

/// Whether the names ascend strictly, so that no name occurs twice.
pub open spec fn names_ascend(s: Seq<ToolDefView>) -> bool {
    forall|i: int, j: int|
        0 <= i < j < s.len() ==> text_less((#[trigger] s[i]).name, (#[trigger] s[j]).name)
}

/// Whether a tool of a name is there.
pub open spec fn has_tool(s: Seq<ToolDefView>, name: Seq<char>) -> bool {
    exists|i: int| 0 <= i < s.len() && (#[trigger] s[i]).name == name
}

proof fn lemma_with_def_names(s: Seq<ToolDefView>, def: ToolDefView, name: Seq<char>)
    ensures
        has_tool(with_def(s, def), name) == (has_tool(s, name) || name == def.name),
    decreases s.len(),
{
    let out = with_def(s, def);
    if s.len() == 0 {
        assert(out[0] == def);
    } else if s[0].name == def.name {
        assert(out[0] == def);
        assert forall|i: int| 0 < i < s.len() implies out[i] == s[i] by {}
        if has_tool(s, name) {
            let i = choose|i: int| 0 <= i < s.len() && (#[trigger] s[i]).name == name;
            assert(out[i].name == name);
        }
        if has_tool(out, name) {
            let i = choose|i: int| 0 <= i < out.len() && (#[trigger] out[i]).name == name;
            assert(s[i].name == name);
        }
    } else if text_less(def.name, s[0].name) {
        assert(out[0] == def);
        if has_tool(s, name) {
            let i = choose|i: int| 0 <= i < s.len() && (#[trigger] s[i]).name == name;
            assert(out[i + 1] == s[i]);
        }
        if has_tool(out, name) {
            let i = choose|i: int| 0 <= i < out.len() && (#[trigger] out[i]).name == name;
            if i > 0 {
                assert(s[i - 1] == out[i]);
            }
        }
    } else {
        let rest = with_def(s.skip(1), def);
        lemma_with_def_names(s.skip(1), def, name);
        if has_tool(s, name) {
            let i = choose|i: int| 0 <= i < s.len() && (#[trigger] s[i]).name == name;
            if i > 0 {
                assert(s.skip(1)[i - 1] == s[i]);
                assert(has_tool(s.skip(1), name));
            } else {
                assert(out[0] == s[0]);
            }
        }
        if has_tool(rest, name) {
            let i = choose|i: int| 0 <= i < rest.len() && (#[trigger] rest[i]).name == name;
            assert(out[i + 1] == rest[i]);
        }
        if has_tool(out, name) {
            let i = choose|i: int| 0 <= i < out.len() && (#[trigger] out[i]).name == name;
            if i > 0 {
                assert(rest[i - 1] == out[i]);
                assert(has_tool(rest, name));
                if has_tool(s.skip(1), name) {
                    let j = choose|j: int|
                        0 <= j < s.skip(1).len() && (#[trigger] s.skip(1)[j]).name == name;
                    assert(s[j + 1] == s.skip(1)[j]);
                }
            } else {
                assert(s[0] == out[0]);
            }
        }
    }
}

proof fn lemma_with_def_ascends(s: Seq<ToolDefView>, def: ToolDefView)
    requires
        names_ascend(s),
    ensures
        names_ascend(with_def(s, def)),
    decreases s.len(),
{
    let out = with_def(s, def);
    if s.len() == 0 {
    } else if s[0].name == def.name {
        assert forall|i: int, j: int| 0 <= i < j < out.len() implies text_less(
            (#[trigger] out[i]).name,
            (#[trigger] out[j]).name,
        ) by {
            assert(text_less(s[i].name, s[j].name));
        }
    } else if text_less(def.name, s[0].name) {
        assert forall|i: int, j: int| 0 <= i < j < out.len() implies text_less(
            (#[trigger] out[i]).name,
            (#[trigger] out[j]).name,
        ) by {
            assert(out[j] == s[j - 1]);
            if i == 0 {
                if j > 1 {
                    assert(text_less(s[0].name, s[j - 1].name));
                    text_less_transitive(def.name, s[0].name, s[j - 1].name);
                }
            } else {
                assert(out[i] == s[i - 1]);
            }
        }
    } else {
        text_less_total(s[0].name, def.name);
        let rest = with_def(s.skip(1), def);
        assert(names_ascend(s.skip(1))) by {
            assert forall|i: int, j: int| 0 <= i < j < s.skip(1).len() implies text_less(
                (#[trigger] s.skip(1)[i]).name,
                (#[trigger] s.skip(1)[j]).name,
            ) by {
                assert(s.skip(1)[i] == s[i + 1]);
                assert(s.skip(1)[j] == s[j + 1]);
            }
        }
        lemma_with_def_ascends(s.skip(1), def);
        assert forall|i: int, j: int| 0 <= i < j < out.len() implies text_less(
            (#[trigger] out[i]).name,
            (#[trigger] out[j]).name,
        ) by {
            assert(out[j] == rest[j - 1]);
            if i == 0 {
                lemma_with_def_names(s.skip(1), def, rest[j - 1].name);
                assert(has_tool(rest, rest[j - 1].name));
                if rest[j - 1].name != def.name {
                    let k = choose|k: int|
                        0 <= k < s.skip(1).len() && (#[trigger] s.skip(1)[k]).name == rest[j
                            - 1].name;
                    assert(s.skip(1)[k] == s[k + 1]);
                    assert(text_less(s[0].name, s[k + 1].name));
                }
            } else {
                assert(out[i] == rest[i - 1]);
            }
        }
    }
}

proof fn lemma_selected(tools: Seq<ToolDefView>, patterns: Seq<Seq<char>>, n: int, name: Seq<char>)
    requires
        0 <= n <= tools.len(),
    ensures
        names_ascend(selected(tools, patterns, n)),
        has_tool(selected(tools, patterns, n), name) == (has_tool(tools.take(n), name) && matched(
            patterns,
            name,
        )),
    decreases n,
{
    if n > 0 {
        lemma_selected(tools, patterns, n - 1, name);
        let before = selected(tools, patterns, n - 1);
        let t = tools[n - 1];
        assert(has_tool(tools.take(n), name) == (has_tool(tools.take(n - 1), name) || t.name
            == name)) by {
            if has_tool(tools.take(n), name) {
                let i = choose|i: int|
                    0 <= i < tools.take(n).len() && (#[trigger] tools.take(n)[i]).name == name;
                if i < n - 1 {
                    assert(tools.take(n - 1)[i] == tools.take(n)[i]);
                }
            }
            if has_tool(tools.take(n - 1), name) {
                let i = choose|i: int|
                    0 <= i < tools.take(n - 1).len() && (#[trigger] tools.take(n - 1)[i]).name
                        == name;
                assert(tools.take(n)[i] == tools.take(n - 1)[i]);
            }
            assert(tools.take(n)[n - 1] == t);
        }
        if matched(patterns, t.name) {
            lemma_with_def_ascends(before, t);
            lemma_with_def_names(before, t, name);
        }
    }
}

/// The tools that patterns select come in strictly ascending order of names, and
/// they are exactly the tools of the catalogue that some pattern matches.
pub proof fn a_selection_is_ordered_and_complete(
    patterns: Seq<Seq<char>>,
    tools: Seq<ToolDefView>,
    name: Seq<char>,
)
    requires
        patterns.len() > 0,
        selection(patterns, tools) is Ok,
    ensures
        names_ascend(selection(patterns, tools)->Ok_0),
        has_tool(selection(patterns, tools)->Ok_0, name) == (has_tool(tools, name) && matched(
            patterns,
            name,
        )),
{
    lemma_selected(tools, patterns, tools.len() as int, name);
    assert(tools.take(tools.len() as int) =~= tools);
}

/// No pattern is dropped in silence: a selection succeeds only where every
/// pattern matches some tool.
pub proof fn every_pattern_selects_something(
    patterns: Seq<Seq<char>>,
    tools: Seq<ToolDefView>,
    i: int,
)
    requires
        0 <= i < patterns.len(),
        selection(patterns, tools) is Ok,
    ensures
        hits(patterns[i], tools),
{
    let missing = |p: Seq<char>| !hits(p, tools);
    if missing(patterns[i]) {
        patterns.lemma_filter_contains(missing, i);
        assert(patterns.filter(missing).contains(patterns[i]));
        assert(unmatched(patterns, tools).len() > 0);
    }
}

} // verus!
