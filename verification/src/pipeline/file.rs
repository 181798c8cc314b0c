//! The shape of a plan file.
//!
//! A step and a solver *serialize* camelCase, because that is prompt surface:
//! the planner's schema says `toolName` and `queryToAnswer`. The plan *file* is
//! snake_case at every depth. The two spellings are reconciled here. Field
//! order matters in a file, so the document stands as a tree whose mappings keep
//! the order of their entries.

use crate::pipeline::doc::{doc_fields, doc_of, PlanDoc, PlanDocView};
use crate::pipeline::plan::{
    entries_of, plan_view, solver_in, step_fields, steps_in, text_or_null, text_or_null_data,
    SolverData, SolverDataView, Step, StepView,
};
use crate::pipeline::record::{
    as_texts, fits, lemma_record_fits, lemma_records_fit, lemma_texts_fit, missing_from,
    lemma_rule_for, read_entries, record_value_problem, rule_for, rules_of, value_problem, Record,
    Shape,
};
use crate::text::{same_text, texts};
use crate::value::{
    a_set_key_reads_back, an_object_holds_its_pairs, an_object_holds_no_other_key,
    an_object_is_made_of_its_entries, distinct, list_shrinks, lookup, object, object_shrinks, put,
    text_array, text_list, values_view, well_formed, Data, Entries, Fields, Json, Num, Quantity,
};
use crate::yaml::{
    insert_entry, make_yaml, make_yaml_number, mapping_entries, new_mapping, with_entry,
    yaml_document, yaml_documents, yaml_number, YamlEntries, YamlParts, YamlView,
};
use vstd::prelude::*;

verus! {

/// A value whose mappings keep the order of their entries. A leaf is neither an
/// array nor an object.
pub enum Node {
    Leaf(Data),
    List(Vec<Node>),
    Entries(Vec<(String, Node)>),
}

/// The model of a [`Node`].
pub enum NodeView {
    Leaf(Json),
    List(Seq<NodeView>),
    Entries(Seq<(Seq<char>, NodeView)>),
}

/// The entries of a mapping, in order.
pub type NodeEntries = Seq<(Seq<char>, NodeView)>;

pub open spec fn nodes_view(s: Seq<Node>) -> Seq<NodeView>
    decreases s,
{
    Seq::new(
        s.len(),
        |i: int|
            if 0 <= i < s.len() {
                s[i].view()
            } else {
                NodeView::Leaf(Json::Null)
            },
    )
}

pub open spec fn node_entries(s: Seq<(String, Node)>) -> NodeEntries
    decreases s,
{
    Seq::new(
        s.len(),
        |i: int|
            if 0 <= i < s.len() {
                (s[i].0@, s[i].1.view())
            } else {
                (Seq::empty(), NodeView::Leaf(Json::Null))
            },
    )
}

impl Node {
    pub open spec fn view(&self) -> NodeView
        decreases self,
    {
        match self {
            Node::Leaf(v) => NodeView::Leaf(v@),
            Node::List(items) => NodeView::List(nodes_view(items@)),
            Node::Entries(e) => NodeView::Entries(node_entries(e@)),
        }
    }
}

/// A JSON value as a tree.
pub open spec fn node_of(v: Json) -> NodeView
    decreases v,
{
    match v {
        Json::List(items) => NodeView::List(
            Seq::new(
                items.len(),
                |i: int|
                    if 0 <= i < items.len() {
                        node_of(items[i])
                    } else {
                        NodeView::Leaf(Json::Null)
                    },
            ),
        ),
        Json::Object(e) => NodeView::Entries(
            Seq::new(
                e.len(),
                |i: int|
                    if 0 <= i < e.len() {
                        (e[i].0, node_of(e[i].1))
                    } else {
                        (Seq::empty(), NodeView::Leaf(Json::Null))
                    },
            ),
        ),
        other => NodeView::Leaf(other),
    }
}

/// A JSON value as a tree.
pub fn to_node(v: &Data) -> (r: Node)
    ensures
        r@ == node_of(v@),
    decreases v@,
{
    match v {
        Data::List(items) => {
            let ghost all = values_view(items@);
            let mut out: Vec<Node> = Vec::new();
            let mut i: usize = 0;
            while i < items.len()
                invariant
                    i <= items@.len(),
                    all == values_view(items@),
                    v@ == Json::List(all),
                    out@.len() == i,
                    forall|k: int| 0 <= k < i ==> (#[trigger] out@[k])@ == node_of(all[k]),
                decreases items.len() - i,
            {
                proof {
                    list_shrinks(v@, i as int);
                }
                out.push(to_node(&items[i]));
                i += 1;
            }
            let r = Node::List(out);
            assert(r@->List_0 =~= node_of(v@)->List_0);
            r
        },
        Data::Object(fields) => {
            let mut out: Vec<(String, Node)> = Vec::new();
            let mut i: usize = 0;
            while i < fields.len()
                invariant
                    i <= fields@.len(),
                    v@ == Json::Object(fields@),
                    out@.len() == i,
                    forall|k: int|
                        0 <= k < i ==> (#[trigger] out@[k]).0@ == fields@[k].0 && out@[k].1@
                            == node_of(fields@[k].1),
                decreases fields@.len() - i,
            {
                proof {
                    object_shrinks(v@, i as int);
                }
                out.push((fields.key_at(i).clone(), to_node(fields.value_at(i))));
                i += 1;
            }
            let r = Node::Entries(out);
            assert(r@->Entries_0 =~= node_of(v@)->Entries_0);
            r
        },
        _ => Node::Leaf(v.copy()),
    }
}

// ── Entries ──────────────────────────────────────────────────────────────

/// Where the entry with a key stands, from `i` on.
pub open spec fn entry_at(e: NodeEntries, key: Seq<char>, i: int) -> Option<int>
    decreases e.len() - i,
{
    if i < 0 || i >= e.len() {
        None
    } else if e[i].0 == key {
        Some(i)
    } else {
        entry_at(e, key, i + 1)
    }
}

/// The value under a key.
pub open spec fn entry(e: NodeEntries, key: Seq<char>) -> Option<NodeView> {
    match entry_at(e, key, 0) {
        Some(i) => Some(e[i].1),
        None => None,
    }
}

/// The entries with one set: in its place where the key is there, at the end
/// where it is not.
pub open spec fn with_value(e: NodeEntries, key: Seq<char>, v: NodeView) -> NodeEntries {
    match entry_at(e, key, 0) {
        Some(i) => e.update(i, (key, v)),
        None => e.push((key, v)),
    }
}

/// The first `n` entries with a key renamed. Where the new name is taken, the
/// later value counts.
pub open spec fn refiled(e: NodeEntries, from: Seq<char>, to: Seq<char>, n: int) -> NodeEntries
    decreases n,
{
    if n <= 0 || n > e.len() {
        Seq::empty()
    } else {
        with_value(
            refiled(e, from, to, n - 1),
            if e[n - 1].0 == from {
                to
            } else {
                e[n - 1].0
            },
            e[n - 1].1,
        )
    }
}

/// The entries with a key renamed, in their order.
pub open spec fn key_renamed(e: NodeEntries, from: Seq<char>, to: Seq<char>) -> NodeEntries {
    if entry_at(e, from, 0) is Some {
        refiled(e, from, to, e.len() as int)
    } else {
        e
    }
}

/// The entries without the one under a key where that is null; the last entry
/// takes its place.
pub open spec fn null_dropped(e: NodeEntries, key: Seq<char>) -> NodeEntries {
    match entry_at(e, key, 0) {
        Some(i) => if e[i].1 == NodeView::Leaf(Json::Null) {
            e.update(i, e.last()).drop_last()
        } else {
            e
        },
        None => e,
    }
}

pub proof fn lemma_entry_at(e: NodeEntries, key: Seq<char>, from: int)
    requires
        0 <= from,
    ensures
        entry_at(e, key, from) matches Some(i) ==> from <= i < e.len() && e[i].0 == key,
    decreases e.len() - from,
{
    if from < e.len() && e[from].0 != key {
        lemma_entry_at(e, key, from + 1);
    }
}

fn find_entry(e: &Vec<(String, Node)>, key: &str) -> (r: Option<usize>)
    ensures
        match r {
            Some(i) => i < e@.len() && entry_at(node_entries(e@), key@, 0) == Some(i as int),
            None => entry_at(node_entries(e@), key@, 0) is None,
        },
{
    let ghost all = node_entries(e@);
    let mut i: usize = 0;
    while i < e.len()
        invariant
            i <= e@.len(),
            all == node_entries(e@),
            entry_at(all, key@, 0) == entry_at(all, key@, i as int),
        decreases e.len() - i,
    {
        assert(all[i as int].0 == e@[i as int].0@);
        if same_text(e[i].0.as_str(), key) {
            return Some(i);
        }
        i += 1;
    }
    None
}

fn set_entry(e: &mut Vec<(String, Node)>, key: String, v: Node)
    ensures
        node_entries(final(e)@) == with_value(node_entries(old(e)@), key@, v@),
{
    let ghost before = e@;
    match find_entry(e, key.as_str()) {
        Some(i) => {
            e.set(i, (key, v));
            assert(node_entries(e@) =~= node_entries(before).update(i as int, (key@, v@)));
        },
        None => {
            e.push((key, v));
            assert(node_entries(e@) =~= node_entries(before).push((key@, v@)));
        },
    }
}

/// Renames one key of a mapping, keeping the order of its entries.
fn rename_key(e: Vec<(String, Node)>, from: &str, to: &str) -> (r: Vec<(String, Node)>)
    ensures
        node_entries(r@) == key_renamed(node_entries(e@), from@, to@),
{
    if find_entry(&e, from).is_none() {
        return e;
    }
    let ghost all = node_entries(e@);
    let mut out: Vec<(String, Node)> = Vec::new();
    assert(node_entries(out@) =~= refiled(all, from@, to@, 0));
    for pair in it: e
        invariant
            it.seq() == e@,
            all == node_entries(e@),
            node_entries(out@) == refiled(all, from@, to@, it.index() as int),
    {
        let ghost i = it.index() as int;
        let (key, value) = pair;
        assert(all[i] == (key@, value@));
        let key = if same_text(key.as_str(), from) {
            to.to_owned()
        } else {
            key
        };
        set_entry(&mut out, key, value);
    }
    out
}

/// Drops a key from a mapping when its value is null, so a field nobody set
/// doesn't appear as `key: null` in a hand-readable file.
fn remove_null(e: &mut Vec<(String, Node)>, key: &str)
    ensures
        node_entries(final(e)@) == null_dropped(node_entries(old(e)@), key@),
{
    if let Some(i) = find_entry(e, key) {
        let ghost before = node_entries(e@);
        assert(before[i as int].1 == e@[i as int].1@);
        let null = match &e[i].1 {
            Node::Leaf(Data::Null) => true,
            _ => false,
        };
        if null {
            let _ = e.swap_remove(i);
            assert(node_entries(e@) =~= before.update(i as int, before.last()).drop_last());
        }
    }
}

// ── Steps ────────────────────────────────────────────────────────────────

/// A step's entries in the file's spelling, before its input is looked at.
pub open spec fn step_head(e: NodeEntries) -> NodeEntries {
    null_dropped(key_renamed(e, "toolName"@, "tool_name"@), "reasoning"@)
}

/// The text under a key.
pub open spec fn entry_text(e: NodeEntries, key: Seq<char>) -> Option<Seq<char>> {
    match entry(e, key) {
        Some(NodeView::Leaf(Json::Text(s))) => Some(s),
        _ => None,
    }
}

/// An agent step's own input keys in the file's spelling. Their *values* are
/// free-form (an output schema is a whole JSON Schema, whose property names are
/// the tool author's business) and are never descended into.
pub open spec fn agent_input(input: NodeView) -> NodeView {
    match input {
        NodeView::Entries(e) => NodeView::Entries(
            key_renamed(
                key_renamed(
                    key_renamed(e, "systemPrompt"@, "system_prompt"@),
                    "maxIterations"@,
                    "max_iterations"@,
                ),
                "outputSchema"@,
                "output_schema"@,
            ),
        ),
        other => other,
    }
}

/// An ask step's own input keys in the file's spelling, their values as they are.
pub open spec fn ask_input(input: NodeView) -> NodeView {
    match input {
        NodeView::Entries(e) => NodeView::Entries(
            key_renamed(
                key_renamed(e, "outputSchema"@, "output_schema"@),
                "whenUnanswered"@,
                "when_unanswered"@,
            ),
        ),
        other => other,
    }
}

/// An input with the body under a key in the file's spelling.
pub open spec fn body_refiled(input: NodeView, key: Seq<char>) -> NodeView
    decreases input, 0int,
{
    match input {
        NodeView::Entries(e) => match entry(e, key) {
            Some(body) => {
                proof {
                    lemma_entry_shrinks(input, key);
                }
                NodeView::Entries(with_value(e, key, snake_body(body)))
            },
            None => input,
        },
        other => other,
    }
}

/// An input with the bodies under two keys in the file's spelling.
pub open spec fn bodies_refiled(input: NodeView, a: Seq<char>, b: Seq<char>) -> NodeView
    decreases input, 0int,
{
    match input {
        NodeView::Entries(e) => {
            let first = match entry(e, a) {
                Some(body) => {
                    proof {
                        lemma_entry_shrinks(input, a);
                    }
                    with_value(e, a, snake_body(body))
                },
                None => e,
            };
            match entry(e, b) {
                Some(body) => {
                    proof {
                        lemma_entry_shrinks(input, b);
                    }
                    NodeView::Entries(with_value(first, b, snake_body(body)))
                },
                None => NodeView::Entries(first),
            }
        },
        other => other,
    }
}

/// A step's input in the file's spelling. Only the bodies of the known control
/// steps are entered: an ordinary tool's input may hold keys of the same name.
pub open spec fn input_refiled(tool: Option<Seq<char>>, input: NodeView) -> NodeView
    decreases input, 1int,
{
    if tool == Some("agent"@) {
        agent_input(input)
    } else if tool == Some("ask"@) {
        ask_input(input)
    } else if tool == Some("decide"@) {
        bodies_refiled(input, "then"@, "else"@)
    } else if tool == Some("map"@) || tool == Some("reduce"@) {
        body_refiled(input, "do"@)
    } else {
        input
    }
}

/// A step in the file's spelling.
pub open spec fn snake_step(step: NodeView) -> NodeView
    decreases step, 2int,
{
    match step {
        NodeView::Entries(e) => {
            let head = step_head(e);
            match entry(head, "input"@) {
                Some(input) => {
                    proof {
                        lemma_input_shrinks(step);
                    }
                    NodeView::Entries(
                        with_value(
                            head,
                            "input"@,
                            input_refiled(entry_text(head, "tool_name"@), input),
                        ),
                    )
                },
                None => NodeView::Entries(head),
            }
        },
        other => other,
    }
}

/// A body in the file's spelling: a list of steps, or a single call, which is a
/// step without an id.
pub open spec fn snake_body(body: NodeView) -> NodeView
    decreases body, 3int,
{
    match body {
        NodeView::List(items) => NodeView::List(
            Seq::new(
                items.len(),
                |i: int|
                    if 0 <= i < items.len() {
                        snake_step(items[i])
                    } else {
                        NodeView::Leaf(Json::Null)
                    },
            ),
        ),
        NodeView::Entries(_) => snake_step(body),
        other => other,
    }
}

/// The value under a key is smaller than what holds it.
pub proof fn lemma_entry_shrinks(node: NodeView, key: Seq<char>)
    requires
        node is Entries,
        entry(node->Entries_0, key) is Some,
    ensures
        decreases_to!(node => entry(node->Entries_0, key)->0),
{
    let e = node->Entries_0;
    lemma_entry_at(e, key, 0);
    lemma_value_shrinks(node, entry_at(e, key, 0)->0);
}

/// A value in a mapping is smaller than the mapping.
pub proof fn lemma_value_shrinks(node: NodeView, i: int)
    requires
        node is Entries,
        0 <= i < node->Entries_0.len(),
    ensures
        decreases_to!(node => node->Entries_0[i].1),
{
    assert(decreases_to!(node => node->Entries_0));
    assert(decreases_to!(node->Entries_0 => node->Entries_0[i]));
    assert(decreases_to!(node->Entries_0[i] => node->Entries_0[i].1));
}

/// Renaming keys brings in no new value.
proof fn lemma_refiled_values(e: NodeEntries, from: Seq<char>, to: Seq<char>, n: int, i: int)
    requires
        0 <= n <= e.len(),
        0 <= i < refiled(e, from, to, n).len(),
    ensures
        exists|j: int| 0 <= j < n && refiled(e, from, to, n)[i].1 == (#[trigger] e[j]).1,
    decreases n,
{
    let before = refiled(e, from, to, n - 1);
    let key = if e[n - 1].0 == from {
        to
    } else {
        e[n - 1].0
    };
    lemma_entry_at(before, key, 0);
    if refiled(e, from, to, n)[i].1 == e[n - 1].1 {
        assert(refiled(e, from, to, n)[i].1 == e[n - 1].1);
    } else {
        assert(refiled(e, from, to, n)[i] == before[i]);
        lemma_refiled_values(e, from, to, n - 1, i);
        let j = choose|j: int| 0 <= j < n - 1 && before[i].1 == (#[trigger] e[j]).1;
        assert(refiled(e, from, to, n)[i].1 == e[j].1);
    }
}

proof fn lemma_renamed_values(e: NodeEntries, from: Seq<char>, to: Seq<char>, i: int)
    requires
        0 <= i < key_renamed(e, from, to).len(),
    ensures
        exists|j: int| 0 <= j < e.len() && key_renamed(e, from, to)[i].1 == (#[trigger] e[j]).1,
{
    if entry_at(e, from, 0) is Some {
        lemma_refiled_values(e, from, to, e.len() as int, i);
    } else {
        assert(key_renamed(e, from, to)[i].1 == e[i].1);
    }
}

/// A step's input, once its keys are in the file's spelling, is smaller than the
/// step.
pub proof fn lemma_input_shrinks(step: NodeView)
    requires
        step is Entries,
        entry(step_head(step->Entries_0), "input"@) is Some,
    ensures
        decreases_to!(step => entry(step_head(step->Entries_0), "input"@)->0),
{
    let e = step->Entries_0;
    let renamed = key_renamed(e, "toolName"@, "tool_name"@);
    let head = step_head(e);
    lemma_entry_at(head, "input"@, 0);
    lemma_entry_at(renamed, "reasoning"@, 0);
    let i = entry_at(head, "input"@, 0)->0;
    let k = if head[i] == renamed[i] {
        i
    } else {
        renamed.len() - 1
    };
    assert(head[i] == renamed[k]);
    lemma_renamed_values(e, "toolName"@, "tool_name"@, k);
    let j = choose|j: int| 0 <= j < e.len() && renamed[k].1 == (#[trigger] e[j]).1;
    lemma_value_shrinks(step, j);
}

/// Puts the body under a key of an input in the file's spelling.
fn refile_body(input: Node, key: &str) -> (r: Node)
    ensures
        r@ == body_refiled(input@, key@),
    decreases input@, 0int,
{
    match input {
        Node::Entries(entries) => {
            let mut e = entries;
            let ghost all = node_entries(e@);
            match find_entry(&e, key) {
                Some(i) => {
                    proof {
                        lemma_entry_shrinks(input@, key@);
                        lemma_entry_at(all, key@, 0);
                    }
                    let (name, body) = e.remove(i);
                    let body = snake_case_body(body);
                    e.insert(i, (name, body));
                    assert(node_entries(e@) =~= all.update(i as int, (key@, body@)));
                    Node::Entries(e)
                },
                None => Node::Entries(e),
            }
        },
        other => other,
    }
}

/// Puts the bodies of a decision's input in the file's spelling.
fn refile_branches(input: Node) -> (r: Node)
    ensures
        r@ == bodies_refiled(input@, "then"@, "else"@),
    decreases input@, 0int,
{
    match input {
        Node::Entries(entries) => {
            let mut e = entries;
            let ghost all = node_entries(e@);
            if let Some(i) = find_entry(&e, "then") {
                proof {
                    lemma_entry_shrinks(input@, "then"@);
                    lemma_entry_at(all, "then"@, 0);
                }
                let (name, body) = e.remove(i);
                let body = snake_case_body(body);
                e.insert(i, (name, body));
                assert(node_entries(e@) =~= all.update(i as int, ("then"@, body@)));
            }
            let ghost first = node_entries(e@);
            proof {
                reveal_strlit("then");
                reveal_strlit("else");
                assert("then"@[0] != "else"@[0]);
                lemma_other_entry(all, first, "then"@, "else"@, 0);
                lemma_entry_at(all, "else"@, 0);
            }
            if let Some(i) = find_entry(&e, "else") {
                proof {
                    lemma_entry_shrinks(input@, "else"@);
                }
                let (name, body) = e.remove(i);
                let body = snake_case_body(body);
                e.insert(i, (name, body));
                assert(node_entries(e@) =~= first.update(i as int, ("else"@, body@)));
            }
            Node::Entries(e)
        },
        other => other,
    }
}

/// Setting a key that is there moves no other entry.
proof fn lemma_other_entry(
    e: NodeEntries,
    f: NodeEntries,
    key: Seq<char>,
    other: Seq<char>,
    from: int,
)
    requires
        0 <= from,
        key != other,
        e.len() == f.len(),
        forall|i: int|
            0 <= i < e.len() ==> (#[trigger] f[i]).0 == e[i].0 && (e[i].0 != key ==> f[i] == e[i]),
    ensures
        entry_at(f, other, from) == entry_at(e, other, from),
        entry_at(e, other, from) matches Some(i) ==> 0 <= i < e.len() && f[i] == e[i],
    decreases e.len() - from,
{
    if from < e.len() {
        assert(f[from].0 == e[from].0);
        lemma_other_entry(e, f, key, other, from + 1);
    }
}

fn snake_case_input(tool: Option<String>, input: Node) -> (r: Node)
    ensures
        r@ == input_refiled(crate::pipeline::record::text_view(tool), input@),
    decreases input@, 1int,
{
    let tool = match tool {
        Some(tool) => tool,
        None => {
            return input;
        },
    };
    if same_text(tool.as_str(), "agent") {
        match input {
            Node::Entries(e) => {
                let e = rename_key(e, "systemPrompt", "system_prompt");
                let e = rename_key(e, "maxIterations", "max_iterations");
                Node::Entries(rename_key(e, "outputSchema", "output_schema"))
            },
            other => other,
        }
    } else if same_text(tool.as_str(), "ask") {
        match input {
            Node::Entries(e) => {
                let e = rename_key(e, "outputSchema", "output_schema");
                Node::Entries(rename_key(e, "whenUnanswered", "when_unanswered"))
            },
            other => other,
        }
    } else if same_text(tool.as_str(), "decide") {
        refile_branches(input)
    } else if same_text(tool.as_str(), "map") || same_text(tool.as_str(), "reduce") {
        refile_body(input, "do")
    } else {
        input
    }
}

/// Rewrites one step into the file's spelling, descending into the bodies a
/// control step carries in its `input`.
pub fn snake_case_step(step: Node) -> (r: Node)
    ensures
        r@ == snake_step(step@),
    decreases step@, 2int,
{
    match step {
        Node::Entries(e) => {
            let mut e = rename_key(e, "toolName", "tool_name");
            remove_null(&mut e, "reasoning");
            let ghost head = node_entries(e@);
            let tool = match find_entry(&e, "tool_name") {
                Some(i) => {
                    assert(head[i as int].1 == e@[i as int].1@);
                    match &e[i].1 {
                        Node::Leaf(Data::Text(s)) => Some(s.clone()),
                        _ => None,
                    }
                },
                None => None,
            };
            if let Some(i) = find_entry(&e, "input") {
                proof {
                    lemma_input_shrinks(step@);
                    lemma_entry_at(head, "input"@, 0);
                }
                let (name, input) = e.remove(i);
                let input = snake_case_input(tool, input);
                e.insert(i, (name, input));
                assert(node_entries(e@) =~= head.update(i as int, ("input"@, input@)));
            }
            Node::Entries(e)
        },
        other => other,
    }
}

/// Rewrites a control step's body, in either of its two shapes: a list of steps,
/// or a single call.
fn snake_case_body(body: Node) -> (r: Node)
    ensures
        r@ == snake_body(body@),
    decreases body@, 3int,
{
    match body {
        Node::List(items) => {
            let ghost all = nodes_view(items@);
            let mut out: Vec<Node> = Vec::new();
            for item in it: items
                invariant
                    it.seq() == items@,
                    all == nodes_view(items@),
                    body@ == NodeView::List(all),
                    out@.len() == it.index(),
                    forall|k: int|
                        0 <= k < it.index() ==> (#[trigger] out@[k])@ == snake_step(all[k]),
            {
                let ghost i = it.index() as int;
                proof {
                    assert(decreases_to!(body@ => body@->List_0));
                    assert(decreases_to!(body@->List_0 => body@->List_0[i]));
                    assert(all[i] == item@);
                }
                out.push(snake_case_step(item));
            }
            let r = Node::List(out);
            assert(r@->List_0 =~= snake_body(body@)->List_0);
            r
        },
        Node::Entries(_) => snake_case_step(body),
        other => other,
    }
}

// ── The document ─────────────────────────────────────────────────────────

/// A step's entries as the planner spells them.
pub open spec fn step_node(s: StepView) -> NodeView {
    NodeView::Entries(
        seq![
            ("id"@, NodeView::Leaf(Json::Text(s.id))),
            ("toolName"@, NodeView::Leaf(Json::Text(s.tool_name))),
            ("input"@, node_of(Json::Object(s.input))),
            ("reasoning"@, NodeView::Leaf(text_or_null(s.reasoning))),
        ],
    )
}

/// A solver in the file's spelling.
pub open spec fn solver_node(s: SolverDataView) -> NodeView {
    NodeView::Entries(
        seq![
            ("query_to_answer"@, NodeView::Leaf(Json::Text(s.query_to_answer))),
            ("system_prompt"@, NodeView::Leaf(text_or_null(s.system_prompt))),
            ("data"@, node_of(Json::Object(s.data))),
        ],
    )
}

/// An entry that is there only where it holds something.
pub open spec fn held(key: Seq<char>, holds: bool, v: NodeView) -> NodeEntries {
    if holds {
        seq![(key, v)]
    } else {
        Seq::empty()
    }
}

/// The steps in the file's spelling.
pub open spec fn steps_node(steps: Seq<StepView>) -> NodeView {
    NodeView::List(Seq::new(steps.len(), |i: int| snake_step(step_node(steps[i]))))
}

/// A document in the file's spelling. What nobody set is left out.
pub open spec fn file_shape(doc: PlanDocView) -> NodeView {
    NodeView::Entries(
        seq![
            ("identifier"@, NodeView::Leaf(Json::Text(doc.identifier))),
            ("name"@, NodeView::Leaf(Json::Text(doc.name))),
            ("description"@, NodeView::Leaf(Json::Text(doc.description))),
        ] + held("exemplars"@, doc.exemplars.len() > 0, node_of(text_list(doc.exemplars))) + held(
            "requires_servers"@,
            doc.requires_servers.len() > 0,
            node_of(text_list(doc.requires_servers)),
        ) + held("input_schema"@, doc.input_schema is Some, node_of(doc.input_schema->0))
            + seq![("steps"@, steps_node(doc.steps))] + held(
            "solver"@,
            doc.solver is Some,
            solver_node(doc.solver->0),
        ) + held("output"@, doc.output is Some, node_of(Json::Object(doc.output->0))),
    )
}

fn step_tree(s: &Step) -> (r: Node)
    ensures
        r@ == step_node(s@),
{
    let mut e: Vec<(String, Node)> = Vec::new();
    e.push(("id".to_owned(), Node::Leaf(Data::Text(s.id.clone()))));
    e.push(("toolName".to_owned(), Node::Leaf(Data::Text(s.tool_name.clone()))));
    e.push(("input".to_owned(), to_node(&Data::Object(s.input.copy()))));
    e.push(("reasoning".to_owned(), Node::Leaf(text_or_null_data(&s.reasoning))));
    assert(node_entries(e@) =~= step_node(s@)->Entries_0);
    Node::Entries(e)
}

fn solver_tree(s: &SolverData) -> (r: Node)
    ensures
        r@ == solver_node(s@),
{
    let mut e: Vec<(String, Node)> = Vec::new();
    e.push(("query_to_answer".to_owned(), Node::Leaf(Data::Text(s.query_to_answer.clone()))));
    e.push(("system_prompt".to_owned(), Node::Leaf(text_or_null_data(&s.system_prompt))));
    e.push(("data".to_owned(), to_node(&Data::Object(s.data.copy()))));
    assert(node_entries(e@) =~= solver_node(s@)->Entries_0);
    Node::Entries(e)
}

fn steps_tree(steps: &Vec<Step>) -> (r: Node)
    ensures
        r@ == steps_node(plan_view(steps@)),
{
    let ghost all = plan_view(steps@);
    let mut out: Vec<Node> = Vec::new();
    let mut i: usize = 0;
    while i < steps.len()
        invariant
            i <= steps@.len(),
            all == plan_view(steps@),
            out@.len() == i,
            forall|k: int|
                0 <= k < i ==> (#[trigger] out@[k])@ == snake_step(step_node(all[k])),
        decreases steps.len() - i,
    {
        assert(all[i as int] == steps@[i as int]@);
        out.push(snake_case_step(step_tree(&steps[i])));
        i += 1;
    }
    let r = Node::List(out);
    assert(r@->List_0 =~= steps_node(all)->List_0);
    r
}

fn push_node(e: &mut Vec<(String, Node)>, key: &str, v: Node)
    ensures
        node_entries(final(e)@) == node_entries(old(e)@) + seq![(key@, v@)],
{
    let ghost before = node_entries(e@);
    e.push((key.to_owned(), v));
    assert(node_entries(e@) =~= before + seq![(key@, v@)]);
}

/// The document normalized into the file format's spelling, still as a tree.
pub fn to_file_shape(doc: &PlanDoc) -> (r: Node)
    ensures
        r@ == file_shape(doc@),
{
    let mut e: Vec<(String, Node)> = Vec::new();
    e.push(("identifier".to_owned(), Node::Leaf(Data::Text(doc.identifier.clone()))));
    e.push(("name".to_owned(), Node::Leaf(Data::Text(doc.name.clone()))));
    e.push(("description".to_owned(), Node::Leaf(Data::Text(doc.description.clone()))));
    assert(node_entries(e@) =~= seq![
        ("identifier"@, NodeView::Leaf(Json::Text(doc@.identifier))),
        ("name"@, NodeView::Leaf(Json::Text(doc@.name))),
        ("description"@, NodeView::Leaf(Json::Text(doc@.description))),
    ]);
    broadcast use crate::seqs::append_nothing;

    if doc.exemplars.len() > 0 {
        push_node(&mut e, "exemplars", to_node(&text_array(&doc.exemplars)));
    }
    if doc.requires_servers.len() > 0 {
        push_node(&mut e, "requires_servers", to_node(&text_array(&doc.requires_servers)));
    }
    if let Some(schema) = &doc.input_schema {
        push_node(&mut e, "input_schema", to_node(schema));
    }
    push_node(&mut e, "steps", steps_tree(&doc.steps));
    if let Some(solver) = &doc.solver {
        push_node(&mut e, "solver", solver_tree(solver));
    }
    if let Some(output) = &doc.output {
        push_node(&mut e, "output", to_node(&Data::Object(output.copy())));
    }
    Node::Entries(e)
}

// ── Out of the tree ──────────────────────────────────────────────────────

/// A tree as a JSON value, whose keys have an order of their own.
pub open spec fn node_json(v: NodeView) -> Json
    decreases v, 1int, 0int,
{
    match v {
        NodeView::Leaf(j) => j,
        NodeView::List(items) => Json::List(
            Seq::new(
                items.len(),
                |i: int|
                    if 0 <= i < items.len() {
                        node_json(items[i])
                    } else {
                        Json::Null
                    },
            ),
        ),
        NodeView::Entries(e) => Json::Object(node_object(v, e.len() as int)),
    }
}

/// The first `n` entries of a tree as an object.
pub open spec fn node_object(v: NodeView, n: int) -> Entries
    decreases v, 0int, n,
{
    match v {
        NodeView::Entries(e) => if n <= 0 || n > e.len() {
            Entries::empty()
        } else {
            proof {
                lemma_value_shrinks(v, n - 1);
            }
            put(node_object(v, n - 1), e[n - 1].0, node_json(e[n - 1].1))
        },
        _ => Entries::empty(),
    }
}

/// A tree as a JSON value.
pub fn node_to_data(v: &Node) -> (r: Data)
    ensures
        r@ == node_json(v@),
    decreases v@,
{
    match v {
        Node::Leaf(data) => data.copy(),
        Node::List(items) => {
            let ghost all = nodes_view(items@);
            let mut out: Vec<Data> = Vec::new();
            let mut i: usize = 0;
            while i < items.len()
                invariant
                    i <= items@.len(),
                    all == nodes_view(items@),
                    v@ == NodeView::List(all),
                    out@.len() == i,
                    forall|k: int| 0 <= k < i ==> (#[trigger] out@[k])@ == node_json(all[k]),
                decreases items.len() - i,
            {
                proof {
                    assert(decreases_to!(v@ => v@->List_0));
                    assert(decreases_to!(v@->List_0 => v@->List_0[i as int]));
                    assert(all[i as int] == items@[i as int]@);
                }
                out.push(node_to_data(&items[i]));
                i += 1;
            }
            let r = Data::List(out);
            assert(r@->List_0 =~= node_json(v@)->List_0);
            r
        },
        Node::Entries(e) => {
            let ghost all = node_entries(e@);
            let mut out = Fields::new();
            let mut i: usize = 0;
            while i < e.len()
                invariant
                    i <= e@.len(),
                    all == node_entries(e@),
                    v@ == NodeView::Entries(all),
                    out@ == node_object(v@, i as int),
                decreases e.len() - i,
            {
                proof {
                    lemma_value_shrinks(v@, i as int);
                    assert(all[i as int] == (e@[i as int].0@, e@[i as int].1@));
                }
                out.insert(e[i].0.clone(), node_to_data(&e[i].1));
                i += 1;
            }
            Data::Object(out)
        },
    }
}

/// A scalar as YAML. An array or an object is none.
pub open spec fn leaf_yaml(j: Json) -> YamlView {
    match j {
        Json::Null => YamlView::Null,
        Json::Bool(b) => YamlView::Bool(b),
        Json::Num(Num::Int(i)) => YamlView::Num(Num::Int(i)),
        Json::Num(Num::Float(text)) => yaml_number(text),
        Json::Text(s) => YamlView::Text(s),
        _ => YamlView::Null,
    }
}

/// A tree as YAML.
pub open spec fn node_yaml(v: NodeView) -> YamlView
    decreases v, 1int, 0int,
{
    match v {
        NodeView::Leaf(j) => leaf_yaml(j),
        NodeView::List(items) => YamlView::List(
            Seq::new(
                items.len(),
                |i: int|
                    if 0 <= i < items.len() {
                        node_yaml(items[i])
                    } else {
                        YamlView::Null
                    },
            ),
        ),
        NodeView::Entries(e) => YamlView::Mapping(node_mapping(v, e.len() as int)),
    }
}

/// The first `n` entries of a tree as a YAML mapping.
pub open spec fn node_mapping(v: NodeView, n: int) -> YamlEntries
    decreases v, 0int, n,
{
    match v {
        NodeView::Entries(e) => if n <= 0 || n > e.len() {
            YamlEntries::empty()
        } else {
            proof {
                lemma_value_shrinks(v, n - 1);
            }
            with_entry(node_mapping(v, n - 1), e[n - 1].0, node_yaml(e[n - 1].1))
        },
        _ => YamlEntries::empty(),
    }
}

fn leaf_to_yaml(data: &Data) -> (r: serde_yaml::Value)
    ensures
        yaml_document(r) == leaf_yaml(data@),
{
    match data {
        Data::Bool(b) => make_yaml(YamlParts::Bool(*b)),
        Data::Num(Quantity::Unsigned(n)) => make_yaml(YamlParts::Unsigned(*n)),
        Data::Num(Quantity::Negative(n)) => make_yaml(YamlParts::Negative(*n)),
        Data::Num(Quantity::Float(f)) => make_yaml_number(f.number()),
        Data::Text(s) => make_yaml(YamlParts::Text(s.clone())),
        _ => make_yaml(YamlParts::Null),
    }
}

/// A tree as a YAML value, its entries in their order.
pub fn node_to_yaml(v: &Node) -> (r: serde_yaml::Value)
    ensures
        yaml_document(r) == node_yaml(v@),
    decreases v@,
{
    match v {
        Node::Leaf(data) => leaf_to_yaml(data),
        Node::List(items) => {
            let ghost all = nodes_view(items@);
            let mut out: Vec<serde_yaml::Value> = Vec::new();
            let mut i: usize = 0;
            while i < items.len()
                invariant
                    i <= items@.len(),
                    all == nodes_view(items@),
                    v@ == NodeView::List(all),
                    out@.len() == i,
                    forall|k: int|
                        0 <= k < i ==> yaml_document(#[trigger] out@[k]) == node_yaml(all[k]),
                decreases items.len() - i,
            {
                proof {
                    assert(decreases_to!(v@ => v@->List_0));
                    assert(decreases_to!(v@->List_0 => v@->List_0[i as int]));
                    assert(all[i as int] == items@[i as int]@);
                }
                out.push(node_to_yaml(&items[i]));
                i += 1;
            }
            assert(yaml_documents(out@) =~= node_yaml(v@)->List_0);
            make_yaml(YamlParts::List(out))
        },
        Node::Entries(e) => {
            let ghost all = node_entries(e@);
            let mut out = new_mapping();
            let mut i: usize = 0;
            while i < e.len()
                invariant
                    i <= e@.len(),
                    all == node_entries(e@),
                    v@ == NodeView::Entries(all),
                    mapping_entries(out) == node_mapping(v@, i as int),
                decreases e.len() - i,
            {
                proof {
                    lemma_value_shrinks(v@, i as int);
                    assert(all[i as int] == (e@[i as int].0@, e@[i as int].1@));
                }
                let child = node_to_yaml(&e[i].1);
                insert_entry(&mut out, e[i].0.as_str(), child);
                i += 1;
            }
            make_yaml(YamlParts::Mapping(out))
        },
    }
}

// ── What is written reads back ───────────────────────────────────────────

/// The entries of a tree as pairs of keys and JSON values.
pub open spec fn json_pairs(e: NodeEntries) -> Entries {
    Seq::new(e.len(), |i: int| (e[i].0, node_json(e[i].1)))
}

/// A step's input as the file holds it: the control steps' own keys in the
/// file's spelling, everything else as it is.
pub open spec fn filed_input(tool: Seq<char>, input: Entries) -> Entries {
    entries_of(node_json(input_refiled(Some(tool), node_of(Json::Object(input)))))
}

/// A step as the file holds it.
pub open spec fn filed_step(s: StepView) -> StepView {
    StepView { input: filed_input(s.tool_name, s.input), ..s }
}

/// A document as the file holds it. Where it stands is not part of it.
pub open spec fn filed(doc: PlanDocView) -> PlanDocView {
    PlanDocView {
        steps: Seq::new(doc.steps.len(), |i: int| filed_step(doc.steps[i])),
        path: None,
        ..doc
    }
}

/// Whether the values of a document are JSON values, and its schema, if there
/// is one, is something.
pub open spec fn holds_values(doc: PlanDocView) -> bool {
    &&& forall|i: int|
        0 <= i < doc.steps.len() ==> well_formed(Json::Object((#[trigger] doc.steps[i]).input))
    &&& doc.input_schema matches Some(schema) ==> well_formed(schema) && schema !is Null
    &&& doc.solver matches Some(solver) ==> well_formed(Json::Object(solver.data))
    &&& doc.output matches Some(output) ==> well_formed(Json::Object(output))
}

/// A mapping as a JSON object is the object made of its pairs.
proof fn lemma_node_object(v: NodeView, n: int)
    requires
        v is Entries,
        0 <= n <= v->Entries_0.len(),
    ensures
        node_object(v, n) == object(json_pairs(v->Entries_0).take(n)),
    decreases n,
{
    let pairs = json_pairs(v->Entries_0);
    if n > 0 {
        lemma_node_object(v, n - 1);
        assert(pairs.take(n).drop_last() =~= pairs.take(n - 1));
    }
}

/// A mapping as a JSON value.
pub proof fn lemma_mapping_json(e: NodeEntries)
    ensures
        node_json(NodeView::Entries(e)) == Json::Object(object(json_pairs(e))),
{
    lemma_node_object(NodeView::Entries(e), e.len() as int);
    assert(json_pairs(e).take(e.len() as int) =~= json_pairs(e));
}

/// A value comes out of the tree as it went in.
pub proof fn a_value_survives_the_tree(v: Json)
    requires
        well_formed(v),
    ensures
        node_json(node_of(v)) == v,
    decreases v,
{
    match v {
        Json::List(items) => {
            assert forall|i: int| 0 <= i < items.len() implies node_json(
                node_of(#[trigger] items[i]),
            ) == items[i] by {
                list_shrinks(v, i);
                a_value_survives_the_tree(items[i]);
            }
            assert(node_json(node_of(v))->List_0 =~= items);
        },
        Json::Object(entries) => {
            let e = node_of(v)->Entries_0;
            assert forall|i: int| 0 <= i < entries.len() implies node_json(
                node_of((#[trigger] entries[i]).1),
            ) == entries[i].1 by {
                object_shrinks(v, i);
                a_value_survives_the_tree(entries[i].1);
            }
            assert(json_pairs(e) =~= entries);
            lemma_mapping_json(e);
            an_object_is_made_of_its_entries(entries);
        },
        _ => {},
    }
}

/// The entries of a step in the file.
pub open spec fn step_entries(s: StepView) -> NodeEntries {
    seq![
        ("id"@, NodeView::Leaf(Json::Text(s.id))),
        ("tool_name"@, NodeView::Leaf(Json::Text(s.tool_name))),
        ("input"@, input_refiled(Some(s.tool_name), node_of(Json::Object(s.input)))),
    ] + held("reasoning"@, s.reasoning is Some, NodeView::Leaf(text_or_null(s.reasoning)))
}

proof fn lemma_step_entries(s: StepView)
    ensures
        snake_step(step_node(s)) == NodeView::Entries(step_entries(s)),
{
    reveal_strlit("id");
    reveal_strlit("toolName");
    reveal_strlit("tool_name");
    reveal_strlit("input");
    reveal_strlit("reasoning");
    assert("tool_name"@[0] != "reasoning"@[0]);
    reveal_with_fuel(entry_at, 6);
    reveal_with_fuel(refiled, 6);
    let e = step_node(s)->Entries_0;
    let id = ("id"@, NodeView::Leaf(Json::Text(s.id)));
    let tool = ("tool_name"@, NodeView::Leaf(Json::Text(s.tool_name)));
    let input = ("input"@, node_of(Json::Object(s.input)));
    let reasoning = ("reasoning"@, NodeView::Leaf(text_or_null(s.reasoning)));
    assert("id"@.len() == 2 && "toolName"@.len() == 8 && "tool_name"@.len() == 9 && "input"@.len()
        == 5 && "reasoning"@.len() == 9);
    assert("id"@ != "toolName"@ && "input"@ != "toolName"@ && "reasoning"@ != "toolName"@);
    assert("id"@ != "tool_name"@ && "id"@ != "input"@ && "id"@ != "reasoning"@);
    assert("tool_name"@ != "input"@ && "input"@ != "reasoning"@);
    assert(refiled(e, "toolName"@, "tool_name"@, 0) =~= seq![]);
    assert(e[0] == id && e[2] == input && e[3] == reasoning);
    assert(refiled(e, "toolName"@, "tool_name"@, 1) =~= seq![id]);
    assert(refiled(e, "toolName"@, "tool_name"@, 2) =~= seq![id, tool]);
    assert(refiled(e, "toolName"@, "tool_name"@, 3) =~= seq![id, tool, input]);
    assert(refiled(e, "toolName"@, "tool_name"@, 4) =~= seq![id, tool, input, reasoning]);
    let renamed = key_renamed(e, "toolName"@, "tool_name"@);
    assert(renamed == seq![id, tool, input, reasoning]);
    let head = step_head(e);
    if s.reasoning is None {
        assert(head =~= seq![id, tool, input]);
    } else {
        assert(head =~= seq![id, tool, input, reasoning]);
    }
    assert(entry_at(head, "input"@, 0) == Some(2int));
    assert(entry_at(head, "tool_name"@, 0) == Some(1int));
    assert(snake_step(step_node(s))->Entries_0 =~= step_entries(s));
}

/// A step in the file reads back as the file holds it.
proof fn lemma_filed_step(s: StepView)
    requires
        well_formed(Json::Object(s.input)),
    ensures
        record_value_problem(
            node_json(snake_step(step_node(s))),
            Record::Step,
            "struct Step"@,
        ) is None,
        step_fields(read_entries(node_json(snake_step(step_node(s))), Record::Step)) == filed_step(s),
{
    lemma_step_entries(s);
    lemma_mapping_json(step_entries(s));
    let pairs = json_pairs(step_entries(s));
    let input = node_json(input_refiled(Some(s.tool_name), node_of(Json::Object(s.input))));
    assert(input == Json::Object(filed_input(s.tool_name, s.input)));
    reveal_strlit("id");
    reveal_strlit("toolName");
    reveal_strlit("tool_name");
    reveal_strlit("input");
    reveal_strlit("reasoning");
    assert("id"@.len() == 2 && "toolName"@.len() == 8 && "tool_name"@.len() == 9 && "input"@.len()
        == 5 && "reasoning"@.len() == 9);
    assert("tool_name"@[0] != "reasoning"@[0]);
    assert(pairs[0] == ("id"@, Json::Text(s.id)));
    assert(pairs[1] == ("tool_name"@, Json::Text(s.tool_name)));
    assert(pairs[2] == ("input"@, input));
    reveal_with_fuel(rule_for, 5);
    reveal_with_fuel(missing_from, 5);
    if s.reasoning is Some {
        assert(pairs[3] == ("reasoning"@, Json::Text(s.reasoning->0)));
        assert(pairs.len() == 4);
        assert(distinct(pairs));
        an_object_holds_its_pairs(pairs, 3);
    } else {
        assert(pairs.len() == 3);
        assert(distinct(pairs));
        an_object_holds_no_other_key(pairs, "reasoning"@);
    }
    an_object_holds_its_pairs(pairs, 0);
    an_object_holds_its_pairs(pairs, 1);
    an_object_holds_its_pairs(pairs, 2);
    an_object_holds_no_other_key(pairs, "toolName"@);
    assert forall|i: int| 0 <= i < pairs.len() implies #[trigger] fits(pairs, Record::Step, i) by {
        if i == 0 {
            assert(fits(pairs, Record::Step, 0));
        } else if i == 1 {
            assert(fits(pairs, Record::Step, 1));
        } else if i == 2 {
            assert(fits(pairs, Record::Step, 2));
        } else {
            assert(fits(pairs, Record::Step, 3));
        }
    }
    lemma_record_fits(pairs, Record::Step);
}

/// A solver in the file reads back as it was.
proof fn lemma_filed_solver(s: SolverDataView)
    requires
        well_formed(Json::Object(s.data)),
    ensures
        record_value_problem(
            node_json(solver_node(s)),
            Record::Solver,
            "struct SolverData"@,
        ) is None,
        solver_in(node_json(solver_node(s))) == s,
{
    let e = solver_node(s)->Entries_0;
    lemma_mapping_json(e);
    a_value_survives_the_tree(Json::Object(s.data));
    let pairs = json_pairs(e);
    reveal_strlit("queryToAnswer");
    reveal_strlit("query_to_answer");
    reveal_strlit("systemPrompt");
    reveal_strlit("system_prompt");
    reveal_strlit("data");
    assert("queryToAnswer"@.len() == 13 && "query_to_answer"@.len() == 15 && "systemPrompt"@.len()
        == 12 && "system_prompt"@.len() == 13 && "data"@.len() == 4);
    assert("queryToAnswer"@[0] != "system_prompt"@[0]);
    assert(pairs.len() == 3);
    assert(pairs[0] == ("query_to_answer"@, Json::Text(s.query_to_answer)));
    assert(pairs[1] == ("system_prompt"@, text_or_null(s.system_prompt)));
    assert(pairs[2] == ("data"@, Json::Object(s.data)));
    assert(distinct(pairs));
    an_object_holds_its_pairs(pairs, 0);
    an_object_holds_its_pairs(pairs, 1);
    an_object_holds_its_pairs(pairs, 2);
    an_object_holds_no_other_key(pairs, "queryToAnswer"@);
    an_object_holds_no_other_key(pairs, "systemPrompt"@);
    reveal_with_fuel(rule_for, 4);
    reveal_with_fuel(missing_from, 4);
    assert(fits(pairs, Record::Solver, 0));
    assert(fits(pairs, Record::Solver, 1));
    assert(fits(pairs, Record::Solver, 2));
    lemma_record_fits(pairs, Record::Solver);
}

/// A pair that is there only where it holds something.
spec fn held_pair(key: Seq<char>, holds: bool, v: Json) -> Entries {
    if holds {
        seq![(key, v)]
    } else {
        Seq::empty()
    }
}

/// Whether a pair is a readable field of a document.
spec fn is_doc_field(p: (Seq<char>, Json)) -> bool {
    match rule_for(rules_of(Record::Document), p.0, 0) {
        Some(r) => value_problem(p.1, rules_of(Record::Document)[r].shape) is None,
        None => false,
    }
}

spec fn are_doc_fields(pairs: Entries) -> bool {
    forall|i: int| 0 <= i < pairs.len() ==> is_doc_field(#[trigger] pairs[i])
}

/// What one more pair adds to a document's object.
proof fn lemma_held_pair(a: Entries, key: Seq<char>, holds: bool, v: Json)
    requires
        are_doc_fields(a),
        holds ==> is_doc_field((key, v)),
    ensures
        are_doc_fields(a + held_pair(key, holds, v)),
        forall|k: Seq<char>| #[trigger]
            lookup(object(a + held_pair(key, holds, v)), k) == (if holds && k == key {
                Some(v)
            } else {
                lookup(object(a), k)
            }),
{
    let b = a + held_pair(key, holds, v);
    if holds {
        assert(b.drop_last() =~= a);
        assert(b.last() == (key, v));
        assert forall|k: Seq<char>| #[trigger] lookup(object(b), k) == (if k == key {
            Some(v)
        } else {
            lookup(object(a), k)
        }) by {
            a_set_key_reads_back(object(a), key, v, k);
        }
    } else {
        assert(b =~= a);
    }
}

proof fn lemma_pairs_of_both(a: NodeEntries, b: NodeEntries)
    ensures
        json_pairs(a + b) == json_pairs(a) + json_pairs(b),
{
    assert(json_pairs(a + b) =~= json_pairs(a) + json_pairs(b));
}

/// The steps in the file read back as the file holds them.
proof fn lemma_filed_steps(steps: Seq<StepView>)
    requires
        forall|i: int|
            0 <= i < steps.len() ==> well_formed(Json::Object((#[trigger] steps[i]).input)),
    ensures
        value_problem(node_json(steps_node(steps)), Shape::Steps) is None,
        node_json(steps_node(steps)) is List,
        steps_in(node_json(steps_node(steps))->List_0) == Seq::new(
            steps.len(),
            |i: int| filed_step(steps[i]),
        ),
{
    let nodes = steps_node(steps)->List_0;
    let items = node_json(steps_node(steps))->List_0;
    assert forall|i: int| 0 <= i < items.len() implies record_value_problem(
        #[trigger] items[i],
        Record::Step,
        "struct Step"@,
    ) is None && step_fields(read_entries(items[i], Record::Step)) == filed_step(steps[i]) by {
        assert(items[i] == node_json(nodes[i]));
        lemma_filed_step(steps[i]);
    }
    lemma_records_fit(items, Record::Step, "struct Step"@, items.len() as int);
    assert(steps_in(items) =~= Seq::new(steps.len(), |i: int| filed_step(steps[i])));
}

proof fn lemma_text_list_reads_back(texts: Seq<Seq<char>>)
    ensures
        node_json(node_of(text_list(texts))) == text_list(texts),
        value_problem(text_list(texts), Shape::Texts) is None,
        as_texts(text_list(texts)->List_0) == texts,
{
    reveal_with_fuel(well_formed, 2);
    a_value_survives_the_tree(text_list(texts));
    lemma_texts_fit(texts, texts.len() as int);
    assert(as_texts(text_list(texts)->List_0) =~= texts);
}

/// Which rule each key of a document goes by.
proof fn lemma_doc_rules()
    ensures
        rule_for(rules_of(Record::Document), "identifier"@, 0) == Some(0int),
        rule_for(rules_of(Record::Document), "name"@, 0) == Some(1int),
        rule_for(rules_of(Record::Document), "description"@, 0) == Some(2int),
        rule_for(rules_of(Record::Document), "exemplars"@, 0) == Some(3int),
        rule_for(rules_of(Record::Document), "requires_servers"@, 0) == Some(4int),
        rule_for(rules_of(Record::Document), "input_schema"@, 0) == Some(5int),
        rule_for(rules_of(Record::Document), "steps"@, 0) == Some(6int),
        rule_for(rules_of(Record::Document), "solver"@, 0) == Some(7int),
        rule_for(rules_of(Record::Document), "output"@, 0) == Some(8int),
{
    lemma_doc_keys();
    reveal_with_fuel(rule_for, 10);
}

/// The lengths of a document's keys, which tell all but two of them apart.
proof fn lemma_doc_keys()
    ensures
        "identifier"@.len() == 10,
        "name"@.len() == 4,
        "description"@.len() == 11,
        "exemplars"@.len() == 9,
        "requires_servers"@.len() == 16,
        "input_schema"@.len() == 12,
        "steps"@.len() == 5,
        "solver"@.len() == 6,
        "output"@.len() == 6,
        "solver"@ != "output"@,
{
    reveal_strlit("identifier");
    reveal_strlit("name");
    reveal_strlit("description");
    reveal_strlit("exemplars");
    reveal_strlit("requires_servers");
    reveal_strlit("input_schema");
    reveal_strlit("steps");
    reveal_strlit("solver");
    reveal_strlit("output");
    assert("solver"@[0] != "output"@[0]);
}

/// The pairs of a document's object.
spec fn doc_pairs(doc: PlanDocView) -> Entries {
    doc_pairs_before_steps(doc) + held_pair("steps"@, true, node_json(steps_node(doc.steps)))
        + held_pair("solver"@, doc.solver is Some, node_json(solver_node(doc.solver->0)))
        + held_pair("output"@, doc.output is Some, Json::Object(doc.output->0))
}

spec fn doc_pairs_before_steps(doc: PlanDocView) -> Entries {
    doc_head(doc) + held_pair("exemplars"@, doc.exemplars.len() > 0, text_list(doc.exemplars))
        + held_pair(
        "requires_servers"@,
        doc.requires_servers.len() > 0,
        text_list(doc.requires_servers),
    ) + held_pair("input_schema"@, doc.input_schema is Some, doc.input_schema->0)
}

spec fn doc_head(doc: PlanDocView) -> Entries {
    seq![
        ("identifier"@, Json::Text(doc.identifier)),
        ("name"@, Json::Text(doc.name)),
        ("description"@, Json::Text(doc.description)),
    ]
}

/// A document's file holds these pairs.
proof fn lemma_doc_pairs(doc: PlanDocView)
    requires
        holds_values(doc),
    ensures
        node_json(file_shape(doc)) == Json::Object(object(doc_pairs(doc))),
{
    let e0: NodeEntries = seq![
        ("identifier"@, NodeView::Leaf(Json::Text(doc.identifier))),
        ("name"@, NodeView::Leaf(Json::Text(doc.name))),
        ("description"@, NodeView::Leaf(Json::Text(doc.description))),
    ];
    assert(json_pairs(e0) =~= doc_head(doc));
    lemma_text_list_reads_back(doc.exemplars);
    lemma_text_list_reads_back(doc.requires_servers);
    let h1 = held("exemplars"@, doc.exemplars.len() > 0, node_of(text_list(doc.exemplars)));
    let h2 = held(
        "requires_servers"@,
        doc.requires_servers.len() > 0,
        node_of(text_list(doc.requires_servers)),
    );
    let h3 = held("input_schema"@, doc.input_schema is Some, node_of(doc.input_schema->0));
    let h4: NodeEntries = seq![("steps"@, steps_node(doc.steps))];
    let h5 = held("solver"@, doc.solver is Some, solver_node(doc.solver->0));
    let h6 = held("output"@, doc.output is Some, node_of(Json::Object(doc.output->0)));
    if doc.input_schema is Some {
        a_value_survives_the_tree(doc.input_schema->0);
    }
    if doc.output is Some {
        a_value_survives_the_tree(Json::Object(doc.output->0));
    }
    assert(json_pairs(h1) =~= held_pair(
        "exemplars"@,
        doc.exemplars.len() > 0,
        text_list(doc.exemplars),
    ));
    assert(json_pairs(h2) =~= held_pair(
        "requires_servers"@,
        doc.requires_servers.len() > 0,
        text_list(doc.requires_servers),
    ));
    assert(json_pairs(h3) =~= held_pair(
        "input_schema"@,
        doc.input_schema is Some,
        doc.input_schema->0,
    ));
    assert(json_pairs(h4) =~= held_pair("steps"@, true, node_json(steps_node(doc.steps))));
    assert(json_pairs(h5) =~= held_pair(
        "solver"@,
        doc.solver is Some,
        node_json(solver_node(doc.solver->0)),
    ));
    assert(json_pairs(h6) =~= held_pair(
        "output"@,
        doc.output is Some,
        Json::Object(doc.output->0),
    ));
    lemma_pairs_of_both(e0, h1);
    lemma_pairs_of_both(e0 + h1, h2);
    lemma_pairs_of_both(e0 + h1 + h2, h3);
    lemma_pairs_of_both(e0 + h1 + h2 + h3, h4);
    lemma_pairs_of_both(e0 + h1 + h2 + h3 + h4, h5);
    lemma_pairs_of_both(e0 + h1 + h2 + h3 + h4 + h5, h6);
    lemma_mapping_json(e0 + h1 + h2 + h3 + h4 + h5 + h6);
}

/// What the object of a document's first pairs holds.
proof fn lemma_doc_head(doc: PlanDocView)
    ensures
        are_doc_fields(doc_head(doc)),
        lookup(object(doc_head(doc)), "identifier"@) == Some(Json::Text(doc.identifier)),
        lookup(object(doc_head(doc)), "name"@) == Some(Json::Text(doc.name)),
        lookup(object(doc_head(doc)), "description"@) == Some(Json::Text(doc.description)),
        lookup(object(doc_head(doc)), "exemplars"@) is None,
        lookup(object(doc_head(doc)), "requires_servers"@) is None,
        lookup(object(doc_head(doc)), "input_schema"@) is None,
        lookup(object(doc_head(doc)), "solver"@) is None,
        lookup(object(doc_head(doc)), "output"@) is None,
{
    lemma_doc_keys();
    lemma_doc_rules();
    let p = doc_head(doc);
    assert(p[0].0 == "identifier"@ && p[1].0 == "name"@ && p[2].0 == "description"@);
    assert(distinct(p));
    an_object_holds_its_pairs(p, 0);
    an_object_holds_its_pairs(p, 1);
    an_object_holds_its_pairs(p, 2);
    assert(is_doc_field(p[0]) && is_doc_field(p[1]) && is_doc_field(p[2]));
    an_object_holds_no_other_key(p, "exemplars"@);
    an_object_holds_no_other_key(p, "requires_servers"@);
    an_object_holds_no_other_key(p, "input_schema"@);
    an_object_holds_no_other_key(p, "solver"@);
    an_object_holds_no_other_key(p, "output"@);
}

/// What a document's object holds.
proof fn lemma_doc_holds(doc: PlanDocView, e: Entries)
    requires
        holds_values(doc),
        e == object(doc_pairs(doc)),
    ensures
        are_doc_fields(doc_pairs(doc)),
        lookup(e, "identifier"@) == Some(Json::Text(doc.identifier)),
        lookup(e, "name"@) == Some(Json::Text(doc.name)),
        lookup(e, "description"@) == Some(Json::Text(doc.description)),
        lookup(e, "exemplars"@) == (if doc.exemplars.len() > 0 {
            Some(text_list(doc.exemplars))
        } else {
            None
        }),
        lookup(e, "requires_servers"@) == (if doc.requires_servers.len() > 0 {
            Some(text_list(doc.requires_servers))
        } else {
            None
        }),
        lookup(e, "input_schema"@) == doc.input_schema,
        lookup(e, "steps"@) == Some(node_json(steps_node(doc.steps))),
        lookup(e, "solver"@) == (match doc.solver {
            Some(solver) => Some(node_json(solver_node(solver))),
            None => None,
        }),
        lookup(e, "output"@) == (match doc.output {
            Some(output) => Some(Json::Object(output)),
            None => None,
        }),
{
    lemma_doc_head(doc);
    lemma_doc_keys();
    lemma_doc_rules();
    let p0 = doc_head(doc);
    let exemplars = doc.exemplars.len() > 0;
    lemma_text_list_reads_back(doc.exemplars);
    assert(is_doc_field(("exemplars"@, text_list(doc.exemplars))));
    lemma_held_pair(p0, "exemplars"@, exemplars, text_list(doc.exemplars));
    let p1 = p0 + held_pair("exemplars"@, exemplars, text_list(doc.exemplars));
    let servers = doc.requires_servers.len() > 0;
    lemma_text_list_reads_back(doc.requires_servers);
    assert(is_doc_field(("requires_servers"@, text_list(doc.requires_servers))));
    lemma_held_pair(p1, "requires_servers"@, servers, text_list(doc.requires_servers));
    let p2 = p1 + held_pair("requires_servers"@, servers, text_list(doc.requires_servers));
    let schema = doc.input_schema->0;
    assert(is_doc_field(("input_schema"@, schema)));
    lemma_held_pair(p2, "input_schema"@, doc.input_schema is Some, schema);
    let p3 = p2 + held_pair("input_schema"@, doc.input_schema is Some, schema);
    let steps = node_json(steps_node(doc.steps));
    lemma_filed_steps(doc.steps);
    assert(is_doc_field(("steps"@, steps)));
    lemma_held_pair(p3, "steps"@, true, steps);
    let p4 = p3 + held_pair("steps"@, true, steps);
    let solver = node_json(solver_node(doc.solver->0));
    if doc.solver is Some {
        lemma_filed_solver(doc.solver->0);
        assert(is_doc_field(("solver"@, solver)));
    }
    lemma_held_pair(p4, "solver"@, doc.solver is Some, solver);
    let p5 = p4 + held_pair("solver"@, doc.solver is Some, solver);
    let output = Json::Object(doc.output->0);
    assert(is_doc_field(("output"@, output)));
    lemma_held_pair(p5, "output"@, doc.output is Some, output);
    assert(doc_pairs(doc) == p5 + held_pair("output"@, doc.output is Some, output));
}

/// What is written to a plan file reads back as the document that was written:
/// only where it stands is not part of the file, and the control steps' own
/// keys come back in the file's spelling.
pub proof fn a_written_document_reads_back(doc: PlanDocView)
    requires
        holds_values(doc),
    ensures
        doc_of(node_json(file_shape(doc))) == Ok::<PlanDocView, Seq<char>>(filed(doc)),
{
    let p = doc_pairs(doc);
    let e = object(p);
    lemma_doc_pairs(doc);
    lemma_doc_holds(doc, e);
    assert forall|i: int| 0 <= i < p.len() implies #[trigger] fits(p, Record::Document, i) by {
        assert(is_doc_field(p[i]));
        lemma_rule_for(rules_of(Record::Document), p[i].0, 0);
    }
    assert(missing_from(e, rules_of(Record::Document), 0) is None) by {
        reveal_with_fuel(missing_from, 10);
    }
    lemma_record_fits(p, Record::Document);
    lemma_text_list_reads_back(doc.exemplars);
    lemma_text_list_reads_back(doc.requires_servers);
    lemma_filed_steps(doc.steps);
    if doc.solver is Some {
        lemma_filed_solver(doc.solver->0);
    }
    assert(as_texts(Seq::<Json>::empty()) =~= Seq::<Seq<char>>::empty());
    assert(doc.exemplars.len() == 0 ==> doc.exemplars =~= Seq::<Seq<char>>::empty());
    assert(doc.requires_servers.len() == 0 ==> doc.requires_servers =~= Seq::<Seq<char>>::empty());
    assert(doc_fields(e) == filed(doc));
}

/// An ordinary step's input comes back from the file unchanged: only the
/// control steps with keys of their own are respelled.
pub proof fn an_ordinary_input_is_filed_as_it_is(tool: Seq<char>, input: Entries)
    requires
        well_formed(Json::Object(input)),
        tool != "agent"@,
        tool != "ask"@,
        tool != "decide"@,
        tool != "map"@,
        tool != "reduce"@,
    ensures
        filed_input(tool, input) == input,
{
    a_value_survives_the_tree(Json::Object(input));
}

} // verus!
