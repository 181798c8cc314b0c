//! A plan file says what its document says, however often it is read and written
//! again: the file's spelling, once taken on, stays.

use crate::pipeline::doc::PlanDocView;
use crate::pipeline::file::{
    a_value_survives_the_tree, agent_input, ask_input, bodies_refiled, body_refiled, entry,
    entry_at, entry_text, filed, filed_input, filed_step, holds_values, input_refiled, json_pairs,
    key_renamed, lemma_entry_at, lemma_mapping_json, node_json, node_of, null_dropped, refiled,
    snake_body, snake_step, step_head, with_value, NodeEntries, NodeView,
};
use crate::value::{
    an_object_holds_its_pairs, an_object_holds_no_other_key, ascending, distinct,
    lemma_object_entries, list_shrinks, lookup, lookup_finds, object, object_shrinks,
    text_less_irreflexive, text_less_transitive, well_formed, Entries, Json,
};
use crate::text::text_less;
use vstd::prelude::*;

verus! {

// ── Objects ──────────────────────────────────────────────────────────────

/// A key of an ascending object reads as the entry that has it.
proof fn lemma_lookup_at(e: Entries, i: int)
    requires
        ascending(e),
        0 <= i < e.len(),
    ensures
        lookup(e, e[i].0) == Some(e[i].1),
    decreases e.len(),
{
    if i > 0 {
        let tail = e.skip(1);
        assert(text_less(e[0].0, e[i].0));
        text_less_irreflexive(e[i].0);
        lemma_tail_ascends(e);
        assert(tail[i - 1] == e[i]);
        lemma_lookup_at(tail, i - 1);
    }
}

proof fn lemma_tail_ascends(e: Entries)
    requires
        ascending(e),
        e.len() > 0,
    ensures
        ascending(e.skip(1)),
{
    let tail = e.skip(1);
    assert forall|i: int, j: int| 0 <= i < j < tail.len() implies text_less(
        #[trigger] tail[i].0,
        #[trigger] tail[j].0,
    ) by {
        assert(tail[i] == e[i + 1] && tail[j] == e[j + 1]);
    }
}

/// Two objects that read alike are the same.
proof fn lemma_read_alike(a: Entries, b: Entries)
    requires
        ascending(a),
        ascending(b),
        forall|key: Seq<char>| #[trigger] lookup(a, key) == lookup(b, key),
    ensures
        a == b,
    decreases a.len(),
{
    if a.len() == 0 {
        if b.len() > 0 {
            lemma_lookup_at(b, 0);
            assert(lookup(a, b[0].0) is None);
        }
        assert(a =~= b);
    } else {
        lemma_lookup_at(a, 0);
        assert(lookup(b, a[0].0) is Some);
        let k = lookup_finds(b, a[0].0);
        lemma_lookup_at(b, 0);
        assert(lookup(a, b[0].0) is Some);
        let j = lookup_finds(a, b[0].0);
        if k > 0 {
            assert(text_less(b[0].0, b[k].0));
            if j > 0 {
                assert(text_less(a[0].0, a[j].0));
                text_less_transitive(a[0].0, b[0].0, a[0].0);
            }
            text_less_irreflexive(a[0].0);
        }
        assert(a[0] == b[0]);
        let ra = a.skip(1);
        let rb = b.skip(1);
        lemma_tail_ascends(a);
        lemma_tail_ascends(b);
        assert forall|key: Seq<char>| #[trigger] lookup(ra, key) == lookup(rb, key) by {
            assert(lookup(a, key) == lookup(b, key));
            if key == a[0].0 {
                lemma_first_is_alone(a);
                lemma_first_is_alone(b);
            }
        }
        lemma_read_alike(ra, rb);
        assert(a =~= seq![a[0]] + ra);
        assert(b =~= seq![b[0]] + rb);
    }
}

/// The first key of an ascending object does not come again.
proof fn lemma_first_is_alone(e: Entries)
    requires
        ascending(e),
        e.len() > 0,
    ensures
        lookup(e.skip(1), e[0].0) is None,
{
    if lookup(e.skip(1), e[0].0) is Some {
        let k = lookup_finds(e.skip(1), e[0].0);
        assert(e.skip(1)[k] == e[k + 1]);
        assert(text_less(e[0].0, e[k + 1].0));
        text_less_irreflexive(e[0].0);
    }
}

/// What an object holds under a key is well-formed where the object is.
proof fn lemma_held_well_formed(e: Entries, key: Seq<char>)
    requires
        well_formed(Json::Object(e)),
    ensures
        lookup(e, key) matches Some(v) ==> well_formed(v),
{
    if lookup(e, key) is Some {
        let k = lookup_finds(e, key);
        assert(well_formed(e[k].1));
    }
}

// ── Mappings ─────────────────────────────────────────────────────────────

/// Whether no two entries have the same key.
spec fn unique(e: NodeEntries) -> bool {
    forall|i: int, j: int| 0 <= i < j < e.len() ==> (#[trigger] e[i]).0 != (#[trigger] e[j]).0
}

/// The object of a mapping.
spec fn mapping_object(e: NodeEntries) -> Entries {
    object(json_pairs(e))
}

proof fn lemma_entry_found(e: NodeEntries, key: Seq<char>, from: int, k: int)
    requires
        0 <= from <= k < e.len(),
        e[k].0 == key,
        forall|i: int| from <= i < k ==> (#[trigger] e[i]).0 != key,
    ensures
        entry_at(e, key, from) == Some(k),
    decreases k - from,
{
    if from < k {
        lemma_entry_found(e, key, from + 1, k);
    }
}

proof fn lemma_entry_absent(e: NodeEntries, key: Seq<char>, from: int)
    requires
        0 <= from,
    ensures
        entry_at(e, key, from) is None <==> forall|i: int|
            from <= i < e.len() ==> (#[trigger] e[i]).0 != key,
    decreases e.len() - from,
{
    if from < e.len() && e[from].0 != key {
        lemma_entry_absent(e, key, from + 1);
    }
}

/// A mapping's object holds the values of its entries.
proof fn lemma_mapping_reads(e: NodeEntries)
    requires
        unique(e),
    ensures
        ascending(mapping_object(e)),
        forall|key: Seq<char>| #[trigger]
            lookup(mapping_object(e), key) == (match entry(e, key) {
                Some(node) => Some(node_json(node)),
                None => None,
            }),
{
    let pairs = json_pairs(e);
    lemma_object_entries(pairs);
    assert(distinct(pairs)) by {
        assert forall|i: int, j: int| 0 <= i < j < pairs.len() implies (#[trigger] pairs[i]).0 != (
        #[trigger] pairs[j]).0 by {
            assert(e[i].0 != e[j].0);
        }
    }
    assert forall|key: Seq<char>| #[trigger]
        lookup(mapping_object(e), key) == (match entry(e, key) {
            Some(node) => Some(node_json(node)),
            None => None,
        }) by {
        lemma_entry_at(e, key, 0);
        match entry_at(e, key, 0) {
            Some(i) => {
                an_object_holds_its_pairs(pairs, i);
            },
            None => {
                lemma_entry_absent(e, key, 0);
                assert forall|i: int| 0 <= i < pairs.len() implies (#[trigger] pairs[i]).0
                    != key by {
                    assert(e[i].0 != key);
                }
                an_object_holds_no_other_key(pairs, key);
            },
        }
    }
}

/// What a mapping with one value set holds.
proof fn lemma_with_value(e: NodeEntries, key: Seq<char>, v: NodeView)
    requires
        unique(e),
    ensures
        unique(with_value(e, key, v)),
        forall|k: Seq<char>| #[trigger]
            entry(with_value(e, key, v), k) == (if k == key {
                Some(v)
            } else {
                entry(e, k)
            }),
{
    let out = with_value(e, key, v);
    lemma_entry_at(e, key, 0);
    lemma_entry_absent(e, key, 0);
    assert forall|i: int, j: int| 0 <= i < j < out.len() implies (#[trigger] out[i]).0 != (
    #[trigger] out[j]).0 by {
        match entry_at(e, key, 0) {
            Some(at) => {
                assert(out[i].0 == e[i].0 && out[j].0 == e[j].0);
            },
            None => {
                assert(out[i] == e[i]);
                if j < e.len() {
                    assert(out[j] == e[j]);
                }
            },
        }
    }
    assert forall|k: Seq<char>| #[trigger]
        entry(out, k) == (if k == key {
            Some(v)
        } else {
            entry(e, k)
        }) by {
        match entry_at(e, key, 0) {
            Some(at) => {
                lemma_same_keys_found(e, out, k, 0);
                lemma_entry_at(e, k, 0);
                lemma_entry_at(out, k, 0);
            },
            None => {
                lemma_entry_absent(e, k, 0);
                lemma_entry_at(e, k, 0);
                if k == key {
                    assert forall|i: int| 0 <= i < e.len() implies (#[trigger] out[i]).0 != key by {
                        assert(out[i] == e[i]);
                    }
                    lemma_entry_found(out, key, 0, e.len() as int);
                } else if entry_at(e, k, 0) is None {
                    assert forall|i: int| 0 <= i < out.len() implies (#[trigger] out[i]).0 != k by {
                        if i < e.len() {
                            assert(out[i] == e[i]);
                        }
                    }
                    lemma_entry_absent(out, k, 0);
                } else {
                    let i = entry_at(e, k, 0)->0;
                    assert(out[i] == e[i]);
                    assert forall|j: int| 0 <= j < i implies (#[trigger] out[j]).0 != k by {
                        assert(out[j] == e[j]);
                        assert(e[j].0 != e[i].0);
                    }
                    lemma_entry_found(out, k, 0, i);
                }
            },
        }
    }
}

/// Entries with the same keys are found at the same places.
proof fn lemma_same_keys_found(a: NodeEntries, b: NodeEntries, key: Seq<char>, from: int)
    requires
        a.len() == b.len(),
        forall|i: int| 0 <= i < a.len() ==> (#[trigger] a[i]).0 == b[i].0,
        0 <= from,
    ensures
        entry_at(a, key, from) == entry_at(b, key, from),
    decreases a.len() - from,
{
    if from < a.len() {
        assert(a[from].0 == b[from].0);
        lemma_same_keys_found(a, b, key, from + 1);
    }
}

/// The mapping of an object reads as the object.
proof fn lemma_mapping_of(e: Entries)
    requires
        ascending(e),
    ensures
        unique(node_of(Json::Object(e))->Entries_0),
        forall|key: Seq<char>| #[trigger]
            entry(node_of(Json::Object(e))->Entries_0, key) == (match lookup(e, key) {
                Some(v) => Some(node_of(v)),
                None => None,
            }),
{
    let n = node_of(Json::Object(e))->Entries_0;
    assert forall|i: int, j: int| 0 <= i < j < n.len() implies (#[trigger] n[i]).0 != (
    #[trigger] n[j]).0 by {
        assert(text_less(e[i].0, e[j].0));
        text_less_irreflexive(e[i].0);
    }
    assert forall|key: Seq<char>| #[trigger]
        entry(n, key) == (match lookup(e, key) {
            Some(v) => Some(node_of(v)),
            None => None,
        }) by {
        lemma_entry_at(n, key, 0);
        lemma_entry_absent(n, key, 0);
        match lookup(e, key) {
            Some(v) => {
                let k = lookup_finds(e, key);
                assert(n[k].0 == key);
                let i = entry_at(n, key, 0)->0;
                assert(n[i].0 == n[k].0);
                assert(i == k);
            },
            None => {
                if entry_at(n, key, 0) is Some {
                    let i = entry_at(n, key, 0)->0;
                    lemma_lookup_at(e, i);
                }
            },
        }
    }
}

/// Whether a tree is the tree of a value.
spec fn plain(node: NodeView) -> bool {
    well_formed(node_json(node)) && node_of(node_json(node)) == node
}

spec fn all_plain(e: NodeEntries) -> bool {
    forall|i: int| 0 <= i < e.len() ==> plain((#[trigger] e[i]).1)
}

proof fn lemma_plain(v: Json)
    requires
        well_formed(v),
    ensures
        plain(node_of(v)),
{
    a_value_survives_the_tree(v);
}

proof fn lemma_all_plain(e: Entries)
    requires
        well_formed(Json::Object(e)),
    ensures
        all_plain(node_of(Json::Object(e))->Entries_0),
{
    let n = node_of(Json::Object(e))->Entries_0;
    assert forall|i: int| 0 <= i < n.len() implies plain((#[trigger] n[i]).1) by {
        lemma_plain(e[i].1);
    }
}

/// An object whose values are well-formed is well-formed.
proof fn lemma_well_formed(e: Entries)
    requires
        ascending(e),
        forall|key: Seq<char>| #[trigger] lookup(e, key) matches Some(v) ==> well_formed(v),
    ensures
        well_formed(Json::Object(e)),
{
    assert forall|i: int| 0 <= i < e.len() implies well_formed((#[trigger] e[i]).1) by {
        lemma_lookup_at(e, i);
    }
}

/// A mapping of values reads back from its object as it was.
proof fn lemma_plain_mapping(e: NodeEntries)
    requires
        unique(e),
        all_plain(e),
    ensures
        well_formed(Json::Object(mapping_object(e))),
        forall|key: Seq<char>| #[trigger]
            entry(node_of(Json::Object(mapping_object(e)))->Entries_0, key) == entry(e, key),
{
    let r = mapping_object(e);
    lemma_mapping_reads(e);
    assert forall|key: Seq<char>| (#[trigger] lookup(r, key)) is Some implies well_formed(
        lookup(r, key)->0,
    ) by {
        lemma_entry_at(e, key, 0);
    }
    lemma_well_formed(r);
    lemma_mapping_of(r);
    assert forall|key: Seq<char>| #[trigger]
        entry(node_of(Json::Object(r))->Entries_0, key) == entry(e, key) by {
        lemma_entry_at(e, key, 0);
        assert(lookup(r, key) == (match entry(e, key) {
            Some(node) => Some(node_json(node)),
            None => None,
        }));
    }
}

/// What a mapping with a key renamed holds.
proof fn lemma_refiled(e: NodeEntries, from: Seq<char>, to: Seq<char>, n: int)
    requires
        unique(e),
        from != to,
        0 <= n <= e.len(),
    ensures
        unique(refiled(e, from, to, n)),
        entry(refiled(e, from, to, n), from) is None,
        forall|k: Seq<char>|
            k != from && k != to ==> #[trigger] entry(refiled(e, from, to, n), k) == entry(
                e.take(n),
                k,
            ),
        all_plain(e) ==> all_plain(refiled(e, from, to, n)),
    decreases n,
{
    if n > 0 {
        lemma_refiled(e, from, to, n - 1);
        let before = refiled(e, from, to, n - 1);
        let key = if e[n - 1].0 == from {
            to
        } else {
            e[n - 1].0
        };
        lemma_with_value(before, key, e[n - 1].1);
        let out = with_value(before, key, e[n - 1].1);
        let part = e.take(n - 1);
        let whole = e.take(n);
        assert forall|k: Seq<char>| k != from && k != to implies #[trigger] entry(out, k) == entry(
            whole,
            k,
        ) by {
            assert(entry(before, k) == entry(part, k));
            lemma_entry_of_longer(e, k, n);
        }
        if all_plain(e) {
            lemma_entry_at(before, key, 0);
            assert forall|i: int| 0 <= i < out.len() implies plain((#[trigger] out[i]).1) by {
                match entry_at(before, key, 0) {
                    Some(at) => {
                        if i != at {
                            assert(out[i] == before[i]);
                        }
                    },
                    None => {
                        if i < before.len() {
                            assert(out[i] == before[i]);
                        }
                    },
                }
            }
        }
    } else {
        assert forall|k: Seq<char>| k != from && k != to implies #[trigger] entry(
            refiled(e, from, to, n),
            k,
        ) == entry(e.take(n), k) by {
            assert(e.take(n).len() == 0);
        }
    }
}

/// One more entry is what its key reads, and changes nothing else.
proof fn lemma_entry_of_longer(e: NodeEntries, k: Seq<char>, n: int)
    requires
        unique(e),
        0 < n <= e.len(),
    ensures
        entry(e.take(n), k) == (if e[n - 1].0 == k {
            Some(e[n - 1].1)
        } else {
            entry(e.take(n - 1), k)
        }),
{
    let part = e.take(n - 1);
    let whole = e.take(n);
    lemma_entry_at(part, k, 0);
    lemma_entry_absent(part, k, 0);
    if e[n - 1].0 == k {
        assert forall|i: int| 0 <= i < n - 1 implies (#[trigger] whole[i]).0 != k by {
            assert(whole[i] == e[i]);
            assert(e[i].0 != e[n - 1].0);
        }
        lemma_entry_found(whole, k, 0, n - 1);
    } else if entry_at(part, k, 0) is Some {
        let i = entry_at(part, k, 0)->0;
        assert(whole[i] == part[i]);
        assert forall|j: int| 0 <= j < i implies (#[trigger] whole[j]).0 != k by {
            assert(whole[j] == e[j]);
            assert(e[j].0 != e[i].0);
        }
        lemma_entry_found(whole, k, 0, i);
    } else {
        assert forall|i: int| 0 <= i < whole.len() implies (#[trigger] whole[i]).0 != k by {
            if i < n - 1 {
                assert(whole[i] == part[i]);
            }
        }
        lemma_entry_absent(whole, k, 0);
    }
}

/// What a mapping with a key renamed holds.
proof fn lemma_key_renamed(e: NodeEntries, from: Seq<char>, to: Seq<char>)
    requires
        unique(e),
        from != to,
    ensures
        unique(key_renamed(e, from, to)),
        entry(key_renamed(e, from, to), from) is None,
        forall|k: Seq<char>|
            k != from && k != to ==> #[trigger] entry(key_renamed(e, from, to), k) == entry(e, k),
        all_plain(e) ==> all_plain(key_renamed(e, from, to)),
{
    lemma_refiled(e, from, to, e.len() as int);
    assert(e.take(e.len() as int) =~= e);
}

/// What a mapping without a null holds.
proof fn lemma_null_dropped(e: NodeEntries, key: Seq<char>)
    requires
        unique(e),
    ensures
        unique(null_dropped(e, key)),
        entry(null_dropped(e, key), key) != Some(NodeView::Leaf(Json::Null)),
        forall|k: Seq<char>|
            k != key ==> #[trigger] entry(null_dropped(e, key), k) == entry(e, k),
        all_plain(e) ==> all_plain(null_dropped(e, key)),
{
    let out = null_dropped(e, key);
    lemma_entry_at(e, key, 0);
    if entry_at(e, key, 0) is Some && entry(e, key) == Some(NodeView::Leaf(Json::Null)) {
        let at = entry_at(e, key, 0)->0;
        let last = e.len() - 1;
        assert forall|i: int| 0 <= i < out.len() implies #[trigger] out[i] == (if i == at {
            e[last]
        } else {
            e[i]
        }) by {}
        assert forall|i: int, j: int| 0 <= i < j < out.len() implies (#[trigger] out[i]).0 != (
        #[trigger] out[j]).0 by {
            let a = if i == at { last } else { i };
            let b = if j == at { last } else { j };
            if a < b {
                assert(e[a].0 != e[b].0);
            } else {
                assert(e[b].0 != e[a].0);
            }
        }
        assert forall|i: int| 0 <= i < out.len() implies (#[trigger] out[i]).0 != key by {
            let a = if i == at { last } else { i };
            if a < at {
                assert(e[a].0 != e[at].0);
            } else {
                assert(e[at].0 != e[a].0);
            }
        }
        lemma_entry_absent(out, key, 0);
        assert forall|k: Seq<char>| k != key implies #[trigger] entry(out, k) == entry(e, k) by {
            lemma_entry_at(e, k, 0);
            lemma_entry_absent(e, k, 0);
            match entry_at(e, k, 0) {
                None => {
                    assert forall|i: int| 0 <= i < out.len() implies (#[trigger] out[i]).0 != k by {
                        let a = if i == at { last } else { i };
                        assert(e[a].0 != k);
                    }
                    lemma_entry_absent(out, k, 0);
                },
                Some(p) => {
                    let q = if p == last { at } else { p };
                    assert(out[q] == e[p]);
                    assert forall|j: int| 0 <= j < q implies (#[trigger] out[j]).0 != k by {
                        assert(out[j].0 != out[q].0);
                    }
                    lemma_entry_found(out, k, 0, q);
                },
            }
        }
    }
}

// ── The file's spelling stays ────────────────────────────────────────────

/// An input in the file's spelling, as a value.
pub open spec fn refiled_input(tool: Option<Seq<char>>, v: Json) -> Json {
    node_json(input_refiled(tool, node_of(v)))
}

/// A step in the file's spelling, as a value.
pub open spec fn refiled_step(v: Json) -> Json {
    node_json(snake_step(node_of(v)))
}

/// A body in the file's spelling, as a value.
pub open spec fn refiled_body(v: Json) -> Json {
    node_json(snake_body(node_of(v)))
}

/// An agent step's keys, once renamed, stay.
proof fn lemma_agent_settles(e: Entries)
    requires
        well_formed(Json::Object(e)),
    ensures
        ({
            let r = node_json(agent_input(node_of(Json::Object(e))));
            &&& r is Object
            &&& well_formed(r)
            &&& node_json(agent_input(node_of(r))) == r
        }),
{
    reveal_strlit("systemPrompt");
    reveal_strlit("system_prompt");
    reveal_strlit("maxIterations");
    reveal_strlit("max_iterations");
    reveal_strlit("outputSchema");
    reveal_strlit("output_schema");
    assert("systemPrompt"@.len() == 12 && "system_prompt"@.len() == 13 && "maxIterations"@.len()
        == 13 && "max_iterations"@.len() == 14 && "outputSchema"@.len() == 12
        && "output_schema"@.len() == 13);
    assert("systemPrompt"@[0] != "outputSchema"@[0]);
    assert("system_prompt"@[0] != "maxIterations"@[0]);
    assert("output_schema"@[0] != "maxIterations"@[0]);
    let n = node_of(Json::Object(e))->Entries_0;
    lemma_mapping_of(e);
    lemma_all_plain(e);
    let e1 = key_renamed(n, "systemPrompt"@, "system_prompt"@);
    let e2 = key_renamed(e1, "maxIterations"@, "max_iterations"@);
    let e3 = key_renamed(e2, "outputSchema"@, "output_schema"@);
    lemma_key_renamed(n, "systemPrompt"@, "system_prompt"@);
    lemma_key_renamed(e1, "maxIterations"@, "max_iterations"@);
    lemma_key_renamed(e2, "outputSchema"@, "output_schema"@);
    assert(entry(e3, "systemPrompt"@) == entry(e2, "systemPrompt"@));
    assert(entry(e2, "systemPrompt"@) == entry(e1, "systemPrompt"@));
    assert(entry(e3, "maxIterations"@) == entry(e2, "maxIterations"@));
    lemma_mapping_json(e3);
    lemma_plain_mapping(e3);
    let r = Json::Object(mapping_object(e3));
    let n2 = node_of(r)->Entries_0;
    assert(entry(n2, "systemPrompt"@) is None);
    assert(entry(n2, "maxIterations"@) is None);
    assert(entry(n2, "outputSchema"@) is None);
    a_value_survives_the_tree(r);
}

/// An ask step's keys, once renamed, stay.
proof fn lemma_ask_settles(e: Entries)
    requires
        well_formed(Json::Object(e)),
    ensures
        ({
            let r = node_json(ask_input(node_of(Json::Object(e))));
            &&& r is Object
            &&& well_formed(r)
            &&& node_json(ask_input(node_of(r))) == r
        }),
{
    reveal_strlit("outputSchema");
    reveal_strlit("output_schema");
    reveal_strlit("whenUnanswered");
    reveal_strlit("when_unanswered");
    assert("outputSchema"@.len() == 12 && "output_schema"@.len() == 13 && "whenUnanswered"@.len()
        == 14 && "when_unanswered"@.len() == 15);
    let n = node_of(Json::Object(e))->Entries_0;
    lemma_mapping_of(e);
    lemma_all_plain(e);
    let e1 = key_renamed(n, "outputSchema"@, "output_schema"@);
    let e2 = key_renamed(e1, "whenUnanswered"@, "when_unanswered"@);
    lemma_key_renamed(n, "outputSchema"@, "output_schema"@);
    lemma_key_renamed(e1, "whenUnanswered"@, "when_unanswered"@);
    assert(entry(e2, "outputSchema"@) == entry(e1, "outputSchema"@));
    lemma_mapping_json(e2);
    lemma_plain_mapping(e2);
    let r = Json::Object(mapping_object(e2));
    let n2 = node_of(r)->Entries_0;
    assert(entry(n2, "outputSchema"@) is None);
    assert(entry(n2, "whenUnanswered"@) is None);
    a_value_survives_the_tree(r);
}

/// The bodies of a fork, once in the file's spelling, stay.
proof fn lemma_bodies_settle(e: Entries, a: Seq<char>, b: Seq<char>)
    requires
        well_formed(Json::Object(e)),
        a != b,
        forall|key: Seq<char>| #[trigger]
            lookup(e, key) matches Some(v) ==> (key == a || key == b) ==> {
                &&& well_formed(refiled_body(v))
                &&& refiled_body(refiled_body(v)) == refiled_body(v)
            },
    ensures
        ({
            let r = node_json(bodies_refiled(node_of(Json::Object(e)), a, b));
            &&& r is Object
            &&& well_formed(r)
            &&& node_json(bodies_refiled(node_of(r), a, b)) == r
        }),
{
    let m = lemma_bodies_read(e, a, b);
    let r = mapping_object(m);
    assert forall|key: Seq<char>| (#[trigger] lookup(r, key)) is Some implies well_formed(
        lookup(r, key)->0,
    ) by {
        lemma_held_well_formed(e, key);
    }
    lemma_well_formed(r);
    let m2 = lemma_bodies_read(r, a, b);
    let r2 = mapping_object(m2);
    assert forall|key: Seq<char>| #[trigger] lookup(r2, key) == lookup(r, key) by {
        assert(lookup(e, key) is Some <==> lookup(r, key) is Some);
    }
    lemma_read_alike(r2, r);
}

/// What a fork with its bodies in the file's spelling holds.
proof fn lemma_bodies_read(e: Entries, a: Seq<char>, b: Seq<char>) -> (m: NodeEntries)
    requires
        well_formed(Json::Object(e)),
        a != b,
    ensures
        bodies_refiled(node_of(Json::Object(e)), a, b) == NodeView::Entries(m),
        node_json(NodeView::Entries(m)) == Json::Object(mapping_object(m)),
        ascending(mapping_object(m)),
        forall|key: Seq<char>| #[trigger]
            lookup(mapping_object(m), key) == (match lookup(e, key) {
                Some(v) => Some(
                    if key == a || key == b {
                        refiled_body(v)
                    } else {
                        v
                    },
                ),
                None => None,
            }),
{
    let n = node_of(Json::Object(e))->Entries_0;
    lemma_mapping_of(e);
    let first = match entry(n, a) {
        Some(body) => with_value(n, a, snake_body(body)),
        None => n,
    };
    let m = match entry(n, b) {
        Some(body) => with_value(first, b, snake_body(body)),
        None => first,
    };
    if entry(n, a) is Some {
        lemma_with_value(n, a, snake_body(entry(n, a)->0));
    }
    if entry(n, b) is Some {
        lemma_with_value(first, b, snake_body(entry(n, b)->0));
    }
    lemma_mapping_json(m);
    lemma_mapping_reads(m);
    assert forall|key: Seq<char>| #[trigger]
        lookup(mapping_object(m), key) == (match lookup(e, key) {
            Some(v) => Some(
                if key == a || key == b {
                    refiled_body(v)
                } else {
                    v
                },
            ),
            None => None,
        }) by {
        lemma_held_well_formed(e, key);
        assert(entry(first, key) == (if key == a && entry(n, a) is Some {
            Some(snake_body(entry(n, a)->0))
        } else {
            entry(n, key)
        }));
        if let Some(v) = lookup(e, key) {
            a_value_survives_the_tree(v);
        }
    }
    m
}

/// What an input with its body in the file's spelling holds.
proof fn lemma_body_reads(e: Entries, a: Seq<char>) -> (m: NodeEntries)
    requires
        well_formed(Json::Object(e)),
    ensures
        body_refiled(node_of(Json::Object(e)), a) == NodeView::Entries(m),
        node_json(NodeView::Entries(m)) == Json::Object(mapping_object(m)),
        ascending(mapping_object(m)),
        forall|key: Seq<char>| #[trigger]
            lookup(mapping_object(m), key) == (match lookup(e, key) {
                Some(v) => Some(
                    if key == a {
                        refiled_body(v)
                    } else {
                        v
                    },
                ),
                None => None,
            }),
{
    let n = node_of(Json::Object(e))->Entries_0;
    lemma_mapping_of(e);
    let m = match entry(n, a) {
        Some(body) => with_value(n, a, snake_body(body)),
        None => n,
    };
    if entry(n, a) is Some {
        lemma_with_value(n, a, snake_body(entry(n, a)->0));
    }
    lemma_mapping_json(m);
    lemma_mapping_reads(m);
    assert forall|key: Seq<char>| #[trigger]
        lookup(mapping_object(m), key) == (match lookup(e, key) {
            Some(v) => Some(
                if key == a {
                    refiled_body(v)
                } else {
                    v
                },
            ),
            None => None,
        }) by {
        lemma_held_well_formed(e, key);
        if let Some(v) = lookup(e, key) {
            a_value_survives_the_tree(v);
        }
    }
    m
}

/// The body of an iteration, once in the file's spelling, stays.
proof fn lemma_one_body_settles(e: Entries, a: Seq<char>)
    requires
        well_formed(Json::Object(e)),
        lookup(e, a) matches Some(v) ==> well_formed(refiled_body(v)) && refiled_body(
            refiled_body(v),
        ) == refiled_body(v),
    ensures
        ({
            let r = node_json(body_refiled(node_of(Json::Object(e)), a));
            &&& r is Object
            &&& well_formed(r)
            &&& node_json(body_refiled(node_of(r), a)) == r
        }),
{
    let m = lemma_body_reads(e, a);
    let r = mapping_object(m);
    assert forall|key: Seq<char>| (#[trigger] lookup(r, key)) is Some implies well_formed(
        lookup(r, key)->0,
    ) by {
        lemma_held_well_formed(e, key);
    }
    lemma_well_formed(r);
    let m2 = lemma_body_reads(r, a);
    let r2 = mapping_object(m2);
    assert forall|key: Seq<char>| #[trigger] lookup(r2, key) == lookup(r, key) by {
        assert(lookup(e, key) is Some <==> lookup(r, key) is Some);
    }
    lemma_read_alike(r2, r);
}

/// An input, once in the file's spelling, stays.
proof fn lemma_input_settles(tool: Option<Seq<char>>, v: Json)
    requires
        well_formed(v),
    ensures
        well_formed(refiled_input(tool, v)),
        refiled_input(tool, refiled_input(tool, v)) == refiled_input(tool, v),
        v is Object ==> refiled_input(tool, v) is Object,
    decreases v, 1int,
{
    a_value_survives_the_tree(v);
    if let Json::Object(e) = v {
        if tool == Some("agent"@) {
            lemma_agent_settles(e);
        } else if tool == Some("ask"@) {
            lemma_ask_settles(e);
        } else if tool == Some("decide"@) {
            reveal_strlit("then");
            reveal_strlit("else");
            assert("then"@[0] != "else"@[0]);
            assert forall|key: Seq<char>| (#[trigger] lookup(e, key)) is Some && (key == "then"@
                || key == "else"@) implies {
                &&& well_formed(refiled_body(lookup(e, key)->0))
                &&& refiled_body(refiled_body(lookup(e, key)->0)) == refiled_body(
                    lookup(e, key)->0,
                )
            } by {
                let k = lookup_finds(e, key);
                object_shrinks(v, k);
                lemma_body_settles(e[k].1);
            }
            lemma_bodies_settle(e, "then"@, "else"@);
        } else if tool == Some("map"@) || tool == Some("reduce"@) {
            if lookup(e, "do"@) is Some {
                let k = lookup_finds(e, "do"@);
                object_shrinks(v, k);
                lemma_body_settles(e[k].1);
            }
            lemma_one_body_settles(e, "do"@);
        }
    }
}

/// What a step's entries are before its input is looked at.
proof fn lemma_head(n: NodeEntries)
    requires
        unique(n),
        all_plain(n),
    ensures
        unique(step_head(n)),
        all_plain(step_head(n)),
        entry(step_head(n), "toolName"@) is None,
        entry(step_head(n), "reasoning"@) != Some(NodeView::Leaf(Json::Null)),
        entry(step_head(n), "input"@) == entry(n, "input"@),
{
    reveal_strlit("toolName");
    reveal_strlit("tool_name");
    reveal_strlit("reasoning");
    reveal_strlit("input");
    assert("toolName"@.len() == 8 && "tool_name"@.len() == 9 && "reasoning"@.len() == 9
        && "input"@.len() == 5);
    let renamed = key_renamed(n, "toolName"@, "tool_name"@);
    lemma_key_renamed(n, "toolName"@, "tool_name"@);
    lemma_null_dropped(renamed, "reasoning"@);
    assert(entry(step_head(n), "input"@) == entry(renamed, "input"@));
    assert(entry(step_head(n), "toolName"@) == entry(renamed, "toolName"@));
}

/// A step, once in the file's spelling, stays.
proof fn lemma_step_settles(v: Json)
    requires
        well_formed(v),
    ensures
        well_formed(refiled_step(v)),
        refiled_step(refiled_step(v)) == refiled_step(v),
        v is Object ==> refiled_step(v) is Object,
        !(v is Object) ==> refiled_step(v) == v,
    decreases v, 2int,
{
    a_value_survives_the_tree(v);
    if let Json::Object(e) = v {
        let n = node_of(v)->Entries_0;
        lemma_mapping_of(e);
        lemma_all_plain(e);
        lemma_head(n);
        let head = step_head(n);
        let tool = entry_text(head, "tool_name"@);
        match lookup(e, "input"@) {
            None => {
                lemma_mapping_json(head);
                lemma_plain_mapping(head);
                let r = Json::Object(mapping_object(head));
                let n2 = node_of(r)->Entries_0;
                lemma_head_again(n2);
                a_value_survives_the_tree(r);
            },
            Some(iv) => {
                let k = lookup_finds(e, "input"@);
                object_shrinks(v, k);
                lemma_input_settles(tool, iv);
                let m = with_value(head, "input"@, input_refiled(tool, node_of(iv)));
                lemma_with_value(head, "input"@, input_refiled(tool, node_of(iv)));
                lemma_mapping_json(m);
                lemma_mapping_reads(m);
                let r = mapping_object(m);
                assert forall|key: Seq<char>| (#[trigger] lookup(r, key)) is Some implies
                    well_formed(lookup(r, key)->0) && (key != "input"@ ==> node_of(
                    lookup(r, key)->0,
                ) == entry(head, key)->0) by {
                    lemma_entry_at(head, key, 0);
                    assert(lookup(r, key) == (match entry(m, key) {
                        Some(node) => Some(node_json(node)),
                        None => None,
                    }));
                }
                lemma_well_formed(r);
                lemma_step_again(r, head, tool, iv);
            },
        }
    }
}

/// Entries that are in the file's spelling already stay as they are.
proof fn lemma_head_again(n: NodeEntries)
    requires
        entry(n, "toolName"@) is None,
        entry(n, "reasoning"@) != Some(NodeView::Leaf(Json::Null)),
    ensures
        step_head(n) == n,
{
}

/// A step that is in the file's spelling already stays as it is.
proof fn lemma_step_again(r: Entries, head: NodeEntries, tool: Option<Seq<char>>, iv: Json)
    requires
        well_formed(Json::Object(r)),
        lookup(r, "input"@) == Some(refiled_input(tool, iv)),
        refiled_input(tool, refiled_input(tool, iv)) == refiled_input(tool, iv),
        tool == entry_text(head, "tool_name"@),
        entry(head, "toolName"@) is None,
        entry(head, "reasoning"@) != Some(NodeView::Leaf(Json::Null)),
        forall|key: Seq<char>|
            key != "input"@ ==> match #[trigger] lookup(r, key) {
                Some(v) => entry(head, key) == Some(node_of(v)),
                None => entry(head, key) is None,
            },
    ensures
        refiled_step(Json::Object(r)) == Json::Object(r),
{
    reveal_strlit("toolName");
    reveal_strlit("tool_name");
    reveal_strlit("reasoning");
    reveal_strlit("input");
    assert("toolName"@.len() == 8 && "tool_name"@.len() == 9 && "reasoning"@.len() == 9
        && "input"@.len() == 5);
    let n2 = node_of(Json::Object(r))->Entries_0;
    lemma_mapping_of(r);
    assert(lookup(r, "toolName"@) is None);
    assert(entry(n2, "reasoning"@) == entry(head, "reasoning"@)) by {
        assert(match lookup(r, "reasoning"@) {
            Some(v) => entry(head, "reasoning"@) == Some(node_of(v)),
            None => entry(head, "reasoning"@) is None,
        });
    }
    assert(entry(n2, "tool_name"@) == entry(head, "tool_name"@)) by {
        assert(match lookup(r, "tool_name"@) {
            Some(v) => entry(head, "tool_name"@) == Some(node_of(v)),
            None => entry(head, "tool_name"@) is None,
        });
    }
    lemma_head_again(n2);
    let x = input_refiled(tool, node_of(refiled_input(tool, iv)));
    let m2 = with_value(n2, "input"@, x);
    lemma_with_value(n2, "input"@, x);
    lemma_mapping_json(m2);
    lemma_mapping_reads(m2);
    let r2 = mapping_object(m2);
    assert forall|key: Seq<char>| #[trigger] lookup(r2, key) == lookup(r, key) by {
        lemma_held_well_formed(r, key);
        if let Some(v) = lookup(r, key) {
            a_value_survives_the_tree(v);
        }
    }
    lemma_read_alike(r2, r);
}

/// A body, once in the file's spelling, stays.
proof fn lemma_body_settles(v: Json)
    requires
        well_formed(v),
    ensures
        well_formed(refiled_body(v)),
        refiled_body(refiled_body(v)) == refiled_body(v),
    decreases v, 3int,
{
    a_value_survives_the_tree(v);
    match v {
        Json::List(items) => {
            let out = refiled_body(v)->List_0;
            assert forall|i: int| 0 <= i < items.len() implies well_formed(#[trigger] out[i])
                && refiled_step(out[i]) == out[i] by {
                list_shrinks(v, i);
                lemma_step_settles(items[i]);
                assert(out[i] == refiled_step(items[i]));
            }
            assert(refiled_body(refiled_body(v))->List_0 =~= out);
        },
        Json::Object(e) => {
            lemma_step_settles(v);
        },
        _ => {},
    }
}

/// Writing what was read writes what was written: a document in the file's
/// spelling keeps it.
pub proof fn filing_twice_is_filing_once(doc: PlanDocView)
    requires
        holds_values(doc),
    ensures
        holds_values(filed(doc)),
        filed(filed(doc)) == filed(doc),
{
    let once = filed(doc);
    assert forall|i: int| 0 <= i < doc.steps.len() implies well_formed(
        Json::Object((#[trigger] once.steps[i]).input),
    ) && filed_step(once.steps[i]) == once.steps[i] by {
        let s = doc.steps[i];
        let input = Json::Object(s.input);
        lemma_input_settles(Some(s.tool_name), input);
        assert(once.steps[i] == filed_step(s));
        assert(Json::Object(filed_input(s.tool_name, s.input)) == refiled_input(
            Some(s.tool_name),
            input,
        ));
    }
    assert(filed(once).steps =~= once.steps);
}

} // verus!
