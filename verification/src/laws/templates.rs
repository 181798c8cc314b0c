//! Rendering templates.

use crate::json::pretty_text;
use crate::seqs::{adding_new, distinct};
use crate::template::parser::{parsed, NodeView, PathView, SegView};
use crate::template::paths::{a_written_path_reads_back, is_readable_path, lemma_numeral};
use crate::template::render::{
    in_contexts, iterated, node_text, rendered, rendered_entries, rendered_input, rendered_items,
    rendered_text, resolved, section_value, truthy, value_text, var_value, walked, ScopeView,
};
use crate::template::renaming::{lemma_collected_all, lemma_collected_each};
use crate::template::rewriting::{
    is_readable, is_readable_node, is_sigil, no_opening_pair, written, written_node,
    written_nodes_are_read_back,
};
use crate::template::{
    anchored_text, dotted, path_refs, paths_of, root_refs, roots_of, RenderErrorView,
};
use crate::text::{all_digits, is_digit, number_of, numeral};
use crate::value::{keys_of, lookup, Entries, Json, Num};
use vstd::prelude::*;

verus! {

/// An interpolated value reads as itself: a boolean as `true` or `false`, an integer
/// as digits that denote it, a text as it is, null as nothing, and a list or an
/// object as the JSON that it prints as.
pub proof fn an_interpolated_value_reads_as_itself(v: Json)
    ensures
        match v {
            Json::Null => value_text(v) == ""@,
            Json::Bool(b) => value_text(v) == (if b {
                "true"@
            } else {
                "false"@
            }),
            Json::Text(s) => value_text(v) == s,
            Json::Num(Num::Int(n)) => if n >= 0 {
                all_digits(value_text(v)) && value_text(v).len() > 0 && number_of(value_text(v))
                    == n
            } else {
                value_text(v).len() > 1 && value_text(v)[0] == '-' && all_digits(
                    value_text(v).skip(1),
                ) && number_of(value_text(v).skip(1)) == -n
            },
            Json::Num(Num::Float(t)) => value_text(v) == t,
            Json::List(_) | Json::Object(_) => value_text(v) == pretty_text(v),
        },
        value_text(Json::Bool(true)) != value_text(Json::Bool(false)),
{
    reveal_strlit("");
    reveal_strlit("true");
    reveal_strlit("false");
    assert("true"@.len() != "false"@.len());
    assert(""@ =~= Seq::<char>::empty());
    if let Json::Num(Num::Int(n)) = v {
        if n >= 0 {
            lemma_numeral(n as nat);
        } else {
            reveal_strlit("-");
            lemma_numeral((-n) as nat);
            assert(value_text(v).skip(1) =~= numeral((-n) as nat));
        }
    }
}

/// Two different scalars of a kind are told apart by their texts.
pub proof fn different_scalars_have_different_texts(a: Json, b: Json)
    requires
        match (a, b) {
            (Json::Bool(x), Json::Bool(y)) => x != y,
            (Json::Text(x), Json::Text(y)) => x != y,
            (Json::Num(Num::Int(x)), Json::Num(Num::Int(y))) => x != y,
            _ => false,
        },
    ensures
        value_text(a) != value_text(b),
{
    an_interpolated_value_reads_as_itself(a);
    an_interpolated_value_reads_as_itself(b);
    if let (Json::Num(Num::Int(x)), Json::Num(Num::Int(y))) = (a, b) {
        if x >= 0 && y < 0 {
            assert(is_digit(value_text(a)[0]));
        }
        if y >= 0 && x < 0 {
            assert(is_digit(value_text(b)[0]));
        }
    }
}

/// One step along a path: a key reads a member, an index reads an item, `length`
/// counts items or characters. What is null or out of range is empty data; what is
/// of another kind, or a key that is not there, is a bad path.
pub proof fn a_path_reads_step_by_step(
    v: Json,
    key: Seq<char>,
    i: nat,
    rest: Seq<SegView>,
    at: Seq<char>,
)
    ensures
        walked(v, Seq::empty(), at) == Ok::<Json, RenderErrorView>(v),
        match v {
            Json::Object(e) => match lookup(e, key) {
                Some(child) => walked(v, seq![SegView::Key(key)], at) == Ok::<
                    Json,
                    RenderErrorView,
                >(child),
                None => walked(v, seq![SegView::Key(key)] + rest, at) matches Err(
                    RenderErrorView::BadPath { .. },
                ),
            },
            Json::Null => walked(v, seq![SegView::Key(key)] + rest, at) matches Err(
                RenderErrorView::EmptyData { .. },
            ),
            _ => walked(v, seq![SegView::Key(key)] + rest, at) matches Err(
                RenderErrorView::BadPath { .. },
            ),
        },
        match v {
            Json::List(items) => if i < items.len() {
                walked(v, seq![SegView::Index(i)], at) == Ok::<Json, RenderErrorView>(
                    items[i as int],
                )
            } else {
                walked(v, seq![SegView::Index(i)] + rest, at) matches Err(
                    RenderErrorView::EmptyData { .. },
                )
            },
            Json::Null => walked(v, seq![SegView::Index(i)] + rest, at) matches Err(
                RenderErrorView::EmptyData { .. },
            ),
            _ => walked(v, seq![SegView::Index(i)] + rest, at) matches Err(
                RenderErrorView::BadPath { .. },
            ),
        },
        match v {
            Json::List(items) => walked(v, seq![SegView::Length], at) == Ok::<
                Json,
                RenderErrorView,
            >(Json::Num(Num::Int(items.len() as int))),
            Json::Text(s) => walked(v, seq![SegView::Length], at) == Ok::<Json, RenderErrorView>(
                Json::Num(Num::Int(s.len() as int)),
            ),
            _ => walked(v, seq![SegView::Length], at) matches Err(RenderErrorView::BadPath { .. }),
        },
{
    let none = Seq::<SegView>::empty();
    assert((seq![SegView::Key(key)] + rest)[0] == SegView::Key(key));
    assert(seq![SegView::Key(key)].skip(1) =~= none);
    assert((seq![SegView::Index(i)] + rest)[0] == SegView::Index(i));
    assert(seq![SegView::Index(i)].skip(1) =~= none);
    assert(seq![SegView::Length][0] is Length);
    if let Json::Object(e) = v {
        if let Some(child) = lookup(e, key) {
            assert(walked(child, none, at + "."@ + key) == Ok::<Json, RenderErrorView>(child));
        }
    }
    if let Json::List(items) = v {
        if i < items.len() {
            let item = items[i as int];
            assert(walked(item, none, at + "."@ + numeral(i)) == Ok::<Json, RenderErrorView>(
                item,
            ));
        }
    }
}

/// Reading along a path is reading along its first part and from there along the
/// rest.
pub proof fn a_path_can_be_read_in_two_parts(
    v: Json,
    first: Seq<SegView>,
    rest: Seq<SegView>,
    at: Seq<char>,
    there: Seq<char>,
)
    requires
        walked(v, first, at) is Ok,
        forall|i: int| 0 <= i < first.len() ==> !((#[trigger] first[i]) is Length),
    ensures
        walked(v, first + rest, at) is Ok == walked(walked(v, first, at)->Ok_0, rest, there) is Ok,
        walked(v, first + rest, at) is Ok ==> walked(v, first + rest, at) == walked(
            walked(v, first, at)->Ok_0,
            rest,
            there,
        ),
    decreases first.len(),
{
    if first.len() == 0 {
        assert(first + rest =~= rest);
        lemma_place_is_no_matter(v, rest, at, there);
    } else {
        let whole = first + rest;
        assert(whole[0] == first[0]);
        assert(!(first[0] is Length));
        assert(whole.skip(1) =~= first.skip(1) + rest);
        assert forall|i: int| 0 <= i < first.skip(1).len() implies !((#[trigger] first.skip(
            1,
        )[i]) is Length) by {
            assert(first.skip(1)[i] == first[i + 1]);
        }
        match first[0] {
            SegView::Key(k) => {
                if let Json::Object(e) = v {
                    a_path_can_be_read_in_two_parts(
                        lookup(e, k)->Some_0,
                        first.skip(1),
                        rest,
                        at + "."@ + k,
                        there,
                    );
                }
            },
            SegView::Index(i) => {
                if let Json::List(items) = v {
                    a_path_can_be_read_in_two_parts(
                        items[i as int],
                        first.skip(1),
                        rest,
                        at + "."@ + numeral(i),
                        there,
                    );
                }
            },
            _ => {},
        }
    }
}

proof fn lemma_place_is_no_matter(v: Json, segs: Seq<SegView>, at: Seq<char>, there: Seq<char>)
    ensures
        walked(v, segs, at) is Ok == walked(v, segs, there) is Ok,
        walked(v, segs, at) is Ok ==> walked(v, segs, at) == walked(v, segs, there),
    decreases segs.len(),
{
    if segs.len() > 0 {
        match segs[0] {
            SegView::Key(k) => {
                if let Json::Object(e) = v {
                    if let Some(child) = lookup(e, k) {
                        lemma_place_is_no_matter(
                            child,
                            segs.skip(1),
                            at + "."@ + k,
                            there + "."@ + k,
                        );
                    }
                }
            },
            SegView::Index(i) => {
                if let Json::List(items) = v {
                    if i < items.len() {
                        lemma_place_is_no_matter(
                            items[i as int],
                            segs.skip(1),
                            at + "."@ + numeral(i),
                            there + "."@ + numeral(i),
                        );
                    }
                }
            },
            _ => {},
        }
    }
}

/// A path begins at the result that its first name stands for; where there is none,
/// that step is missing.
pub proof fn a_path_begins_at_its_root(roots: Entries, root: Seq<char>, rest: Seq<SegView>)
    ensures
        match lookup(roots, root) {
            Some(start) => resolved(roots, seq![SegView::Key(root)] + rest) == walked(
                start,
                rest,
                root,
            ),
            None => resolved(roots, seq![SegView::Key(root)] + rest) == Err::<
                Json,
                RenderErrorView,
            >(RenderErrorView::MissingStep { step: root, available: keys_of(roots) }),
        },
{
    let segs = seq![SegView::Key(root)] + rest;
    assert(segs[0] == SegView::Key(root));
    assert(segs.skip(1) =~= rest);
}

/// A template that is a text, a tag and a text.
pub open spec fn one_tag(before: Seq<char>, segs: Seq<SegView>, after: Seq<char>) -> Seq<char> {
    before + "{{ "@ + dotted(segs) + " }}"@ + after
}

/// Whether a path can stand in a tag.
pub open spec fn fits_a_tag(segs: Seq<SegView>) -> bool {
    is_readable_path(PathView::Data(segs)) && !is_sigil(dotted(segs)[0])
}

/// Whether a text holds no tag and does not run into one.
pub open spec fn is_plain(s: Seq<char>) -> bool {
    no_opening_pair(s) && (s.len() > 0 ==> s.last() != '{')
}

spec fn text_nodes(s: Seq<char>) -> Seq<NodeView> {
    if s.len() == 0 {
        Seq::empty()
    } else {
        seq![NodeView::Text(s)]
    }
}

proof fn lemma_one_tag(before: Seq<char>, segs: Seq<SegView>, after: Seq<char>)
    requires
        fits_a_tag(segs),
        is_plain(before),
        is_plain(after),
    ensures
        parsed(one_tag(before, segs, after)) == Ok::<Seq<NodeView>, RenderErrorView>(
            text_nodes(before) + seq![NodeView::Var(PathView::Data(segs))] + text_nodes(after),
        ),
{
    let var = NodeView::Var(PathView::Data(segs));
    let a = text_nodes(before);
    let b = text_nodes(after);
    let nodes = a + seq![var] + b;
    assert(is_readable_node(var));
    assert forall|i: int| 0 <= i < nodes.len() implies is_readable_node(#[trigger] nodes[i]) by {
        if i < a.len() {
            assert(nodes[i] == NodeView::Text(before));
        } else if i > a.len() {
            assert(nodes[i] == NodeView::Text(after));
        }
    }
    assert(is_readable(nodes, false));
    written_nodes_are_read_back(nodes);
    reveal_with_fuel(written, 4);
    reveal_strlit("{{");
    reveal_strlit("{{ ");
    reveal_strlit(" ");
    let none = Seq::<char>::empty();
    assert(written(b) =~= after) by {
        if after.len() > 0 {
            assert(b.skip(1) =~= Seq::<NodeView>::empty());
            assert(written(b) == written_node(b[0]) + written(b.skip(1)));
            assert(written(b.skip(1)) =~= none);
        }
    }
    let mid = seq![var] + b;
    assert(mid.skip(1) =~= b);
    assert(written(mid) == written_node(var) + written(b));
    assert(written_node(var) =~= "{{ "@ + dotted(segs) + " }}"@);
    assert(nodes =~= a + mid);
    assert(written(nodes) =~= before + written(mid)) by {
        if before.len() > 0 {
            assert(nodes[0] == NodeView::Text(before));
            assert(nodes.skip(1) =~= mid);
        } else {
            assert(nodes =~= mid);
        }
    }
    assert(one_tag(before, segs, after) =~= written(nodes));
}

/// Rendering nodes is rendering them one after the other.
pub proof fn nodes_are_rendered_in_order(
    roots: Entries,
    scope: ScopeView,
    nodes: Seq<NodeView>,
    last: NodeView,
)
    ensures
        rendered(roots, scope, nodes.push(last)) == (match (
            rendered(roots, scope, nodes),
            node_text(roots, scope, last),
        ) {
            (Ok(a), Ok(b)) => Ok(a + b),
            (Err(e), _) => Err(e),
            (Ok(_), Err(e)) => Err(e),
        }),
        rendered(roots, scope, Seq::empty()) == Ok::<Seq<char>, RenderErrorView>(Seq::empty()),
{
    assert(nodes.push(last).drop_last() =~= nodes);
}

/// A tag in a text gives way to the text of what its path reads, and the text round
/// it stays as it is.
pub proof fn a_tag_gives_way_to_its_value(
    roots: Entries,
    before: Seq<char>,
    segs: Seq<SegView>,
    after: Seq<char>,
)
    requires
        fits_a_tag(segs),
        is_plain(before),
        is_plain(after),
    ensures
        match resolved(roots, segs) {
            Err(e) => rendered_text(roots, one_tag(before, segs, after)) == Err::<
                Seq<char>,
                RenderErrorView,
            >(e),
            Ok(v) => {
                &&& rendered_text(roots, one_tag(before, segs, after)) == Ok::<
                    Seq<char>,
                    RenderErrorView,
                >(before + value_text(v) + after)
                &&& v == Json::Bool(true) ==> rendered_text(roots, one_tag(before, segs, after))
                    == Ok::<Seq<char>, RenderErrorView>(before + "true"@ + after)
                &&& v == Json::Bool(false) ==> rendered_text(roots, one_tag(before, segs, after))
                    == Ok::<Seq<char>, RenderErrorView>(before + "false"@ + after)
                &&& v matches Json::Text(s) ==> rendered_text(roots, one_tag(before, segs, after))
                    == Ok::<Seq<char>, RenderErrorView>(before + s + after)
                &&& v is Null ==> rendered_text(roots, one_tag(before, segs, after)) == Ok::<
                    Seq<char>,
                    RenderErrorView,
                >(before + after)
            },
        },
{
    lemma_one_tag(before, segs, after);
    let scope = ScopeView { contexts: Seq::empty(), loops: Seq::empty() };
    let var = NodeView::Var(PathView::Data(segs));
    let a = text_nodes(before);
    let b = text_nodes(after);
    let none = Seq::<NodeView>::empty();
    assert(rendered(roots, scope, none) == Ok::<Seq<char>, RenderErrorView>(Seq::empty()));
    assert(rendered(roots, scope, a) == Ok::<Seq<char>, RenderErrorView>(before)) by {
        if before.len() > 0 {
            nodes_are_rendered_in_order(roots, scope, none, NodeView::Text(before));
            assert(a =~= none.push(NodeView::Text(before)));
            assert(Seq::<char>::empty() + before =~= before);
        } else {
            assert(before =~= Seq::<char>::empty());
        }
    }
    let front = a + seq![var];
    assert(front =~= a.push(var));
    nodes_are_rendered_in_order(roots, scope, a, var);
    let all = front + b;
    if after.len() > 0 {
        assert(all =~= front.push(NodeView::Text(after)));
        nodes_are_rendered_in_order(roots, scope, front, NodeView::Text(after));
    } else {
        assert(all =~= front);
    }
    if let Ok(v) = resolved(roots, segs) {
        an_interpolated_value_reads_as_itself(v);
        if after.len() == 0 {
            assert(before + value_text(v) + after =~= before + value_text(v));
        }
        if v is Null {
            reveal_strlit("");
            assert(before + value_text(v) + after =~= before + after);
        }
    }
}

/// An input that is nothing but a tag is the value that the tag reads, whatever its
/// kind.
pub proof fn a_lone_tag_keeps_the_kind_of_its_value(roots: Entries, segs: Seq<SegView>)
    requires
        fits_a_tag(segs),
    ensures
        rendered_input(roots, Json::Text("{{ "@ + dotted(segs) + " }}"@)) == resolved(roots, segs),
{
    let none = Seq::<char>::empty();
    lemma_one_tag(none, segs, none);
    assert(one_tag(none, segs, none) =~= "{{ "@ + dotted(segs) + " }}"@);
    let var = NodeView::Var(PathView::Data(segs));
    assert(text_nodes(none) + seq![var] + text_nodes(none) =~= seq![var]);
}

/// Rendering an input keeps its shape: a list item by item, an object key by key,
/// and anything that is no text as it is.
pub proof fn an_input_keeps_its_shape(roots: Entries, input: Json, i: int)
    ensures
        match input {
            Json::List(items) => rendered_input(roots, input) matches Ok(done) ==> (done
                matches Json::List(out) && out.len() == items.len() && (0 <= i < items.len()
                ==> rendered_input(roots, items[i]) == Ok::<Json, RenderErrorView>(out[i]))),
            Json::Object(e) => rendered_input(roots, input) matches Ok(done) ==> (done
                matches Json::Object(out) && out.len() == e.len() && (0 <= i < e.len()
                ==> out[i].0 == e[i].0 && rendered_input(roots, e[i].1) == Ok::<
                Json,
                RenderErrorView,
            >(out[i].1))),
            Json::Text(_) => true,
            _ => rendered_input(roots, input) == Ok::<Json, RenderErrorView>(input),
        },
        match input {
            Json::List(items) => (forall|k: int|
                0 <= k < items.len() ==> rendered_input(roots, #[trigger] items[k]) is Ok)
                ==> rendered_input(roots, input) is Ok,
            Json::Object(e) => (forall|k: int|
                0 <= k < e.len() ==> rendered_input(roots, (#[trigger] e[k]).1) is Ok)
                ==> rendered_input(roots, input) is Ok,
            _ => true,
        },
{
    match input {
        Json::List(items) => {
            let results = rendered_items(roots, items);
            lemma_collected_each(results);
            if 0 <= i < items.len() {
                assert(results[i] == rendered_input(roots, items[i]));
            }
            if forall|k: int|
                0 <= k < items.len() ==> rendered_input(roots, #[trigger] items[k]) is Ok {
                let out = Seq::new(items.len(), |k: int| rendered_input(roots, items[k])->Ok_0);
                assert forall|k: int| 0 <= k < results.len() implies #[trigger] results[k] == Ok::<
                    Json,
                    RenderErrorView,
                >(out[k]) by {
                    assert(rendered_input(roots, items[k]) is Ok);
                }
                lemma_collected_all(results, out);
            }
        },
        Json::Object(e) => {
            let results = rendered_entries(roots, e);
            lemma_collected_each(results);
            if 0 <= i < e.len() {
                assert(results[i] == (match rendered_input(roots, e[i].1) {
                    Ok(v) => Ok((e[i].0, v)),
                    Err(why) => Err(why),
                }));
            }
            if forall|k: int|
                0 <= k < e.len() ==> rendered_input(roots, (#[trigger] e[k]).1) is Ok {
                let out = Seq::new(
                    e.len(),
                    |k: int| (e[k].0, rendered_input(roots, e[k].1)->Ok_0),
                );
                assert forall|k: int| 0 <= k < results.len() implies #[trigger] results[k] == Ok::<
                    (Seq<char>, Json),
                    RenderErrorView,
                >(out[k]) by {
                    assert(rendered_input(roots, e[k].1) is Ok);
                }
                lemma_collected_all(results, out);
            }
        },
        _ => {},
    }
}

/// What counts as nothing: a value that is not there, null, false, an empty list and
/// an empty text; everything else counts.
pub proof fn a_section_tells_something_from_nothing(v: Json)
    ensures
        !truthy(None),
        truthy(Some(v)) <==> !(v is Null || v == Json::Bool(false) || v == Json::List(Seq::empty())
            || v == Json::Text(""@)),
{
    reveal_strlit("");
    match v {
        Json::List(items) => assert(items.len() == 0 ==> items =~= Seq::empty()),
        Json::Text(s) => assert(s.len() == 0 ==> s =~= ""@),
        _ => {},
    }
}

/// A section is rendered where its value counts, and its inverse exactly where it
/// does not.
pub proof fn a_section_and_its_inverse_take_turns(
    roots: Entries,
    scope: ScopeView,
    path: PathView,
    body: Seq<NodeView>,
    v: Option<Json>,
)
    requires
        section_value(roots, scope, path) == Ok::<Option<Json>, RenderErrorView>(v),
    ensures
        ({
            let plain = node_text(roots, scope, NodeView::Section { path, inverted: false, body });
            let other = node_text(roots, scope, NodeView::Section { path, inverted: true, body });
            let nothing = Ok::<Seq<char>, RenderErrorView>(Seq::empty());
            &&& truthy(v) ==> other == nothing
            &&& !truthy(v) ==> plain == nothing && other == rendered(roots, scope, body)
            &&& truthy(v) ==> (match v {
                Some(Json::Object(e)) => plain == rendered(
                    roots,
                    ScopeView { contexts: scope.contexts.push(Json::Object(e)), ..scope },
                    body,
                ),
                Some(Json::List(_)) => true,
                _ => plain == rendered(roots, scope, body),
            })
        }),
{
}

/// A section over a list is rendered once for each item, in order, in that item's
/// scope.
pub proof fn a_section_is_rendered_for_each_item(
    roots: Entries,
    scope: ScopeView,
    path: PathView,
    body: Seq<NodeView>,
    items: Seq<Json>,
) -> (parts: Seq<Seq<char>>)
    requires
        section_value(roots, scope, path) == Ok::<Option<Json>, RenderErrorView>(
            Some(Json::List(items)),
        ),
        node_text(roots, scope, NodeView::Section { path, inverted: false, body }) is Ok,
    ensures
        parts.len() == items.len(),
        forall|i: int|
            0 <= i < items.len() ==> rendered(
                roots,
                ScopeView {
                    contexts: scope.contexts.push(items[i]),
                    loops: scope.loops.push((i, items.len() as int)),
                },
                body,
            ) == Ok::<Seq<char>, RenderErrorView>(#[trigger] parts[i]),
        node_text(roots, scope, NodeView::Section { path, inverted: false, body }) == Ok::<
            Seq<char>,
            RenderErrorView,
        >(parts.flatten_alt()),
{
    if items.len() == 0 {
        assert(Seq::<Seq<char>>::empty().flatten_alt() =~= Seq::<char>::empty());
        Seq::empty()
    } else {
        lemma_iterated(roots, scope, body, items, items.len() as int)
    }
}

proof fn lemma_iterated(
    roots: Entries,
    scope: ScopeView,
    body: Seq<NodeView>,
    items: Seq<Json>,
    n: int,
) -> (parts: Seq<Seq<char>>)
    requires
        0 <= n <= items.len(),
        iterated(roots, scope, body, items, n) is Ok,
    ensures
        parts.len() == n,
        forall|i: int|
            0 <= i < n ==> rendered(
                roots,
                ScopeView {
                    contexts: scope.contexts.push(items[i]),
                    loops: scope.loops.push((i, items.len() as int)),
                },
                body,
            ) == Ok::<Seq<char>, RenderErrorView>(#[trigger] parts[i]),
        iterated(roots, scope, body, items, n) == Ok::<Seq<char>, RenderErrorView>(
            parts.flatten_alt(),
        ),
    decreases n,
{
    if n == 0 {
        assert(Seq::<Seq<char>>::empty().flatten_alt() =~= Seq::<char>::empty());
        Seq::empty()
    } else {
        let before = lemma_iterated(roots, scope, body, items, n - 1);
        let last = rendered(
            roots,
            ScopeView {
                contexts: scope.contexts.push(items[n - 1]),
                loops: scope.loops.push((n - 1, items.len() as int)),
            },
            body,
        )->Ok_0;
        let parts = before.push(last);
        assert(parts.drop_last() =~= before);
        assert(parts.flatten_alt() == before.flatten_alt() + last);
        parts
    }
}

/// In the scope of an item, `@index` is its place, `@first` and `@last` say whether
/// it stands at an end, and a bare name reads the item's member of that name.
pub proof fn an_item_knows_its_place(
    roots: Entries,
    scope: ScopeView,
    items: Seq<Json>,
    i: int,
    key: Seq<char>,
)
    requires
        0 <= i < items.len(),
    ensures
        ({
            let here = ScopeView {
                contexts: scope.contexts.push(items[i]),
                loops: scope.loops.push((i, items.len() as int)),
            };
            &&& var_value(roots, here, PathView::AtIndex) == Ok::<Option<Json>, RenderErrorView>(
                Some(Json::Num(Num::Int(i))),
            )
            &&& var_value(roots, here, PathView::AtFirst) == Ok::<Option<Json>, RenderErrorView>(
                Some(Json::Bool(i == 0)),
            )
            &&& var_value(roots, here, PathView::AtLast) == Ok::<Option<Json>, RenderErrorView>(
                Some(Json::Bool(i == items.len() - 1)),
            )
            &&& items[i] matches Json::Object(e) ==> (lookup(e, key) matches Some(v) ==> var_value(
                roots,
                here,
                PathView::Data(seq![SegView::Key(key)]),
            ) == Ok::<Option<Json>, RenderErrorView>(Some(v)))
        }),
        scope.loops.len() == 0 ==> var_value(roots, scope, PathView::AtIndex) is Err && var_value(
            roots,
            scope,
            PathView::AtFirst,
        ) is Err && var_value(roots, scope, PathView::AtLast) is Err,
{
    if let Json::Object(e) = items[i] {
        if let Some(v) = lookup(e, key) {
            let segs = seq![SegView::Key(key)];
            a_path_reads_step_by_step(items[i], key, 0, Seq::empty(), "<item>"@);
            assert(segs[0] == SegView::Key(key));
            assert(walked(items[i], segs, "<item>"@) == Ok::<Json, RenderErrorView>(v));
            let contexts = scope.contexts.push(items[i]);
            assert(in_contexts(contexts, segs, contexts.len() as int) == Some(v));
        }
    }
}

/// A template with one tag refers to the root of its path, and to that path.
pub proof fn a_tag_refers_to_its_path(
    before: Seq<char>,
    root: Seq<char>,
    rest: Seq<SegView>,
    after: Seq<char>,
)
    requires
        fits_a_tag(seq![SegView::Key(root)] + rest),
        is_plain(before),
        is_plain(after),
    ensures
        ({
            let segs = seq![SegView::Key(root)] + rest;
            &&& roots_of(one_tag(before, segs, after)) == Ok::<Seq<Seq<char>>, RenderErrorView>(
                seq![root],
            )
            &&& paths_of(one_tag(before, segs, after)) == Ok::<Seq<Seq<char>>, RenderErrorView>(
                seq![dotted(segs)],
            )
        }),
{
    let segs = seq![SegView::Key(root)] + rest;
    assert(segs[0] == SegView::Key(root));
    lemma_one_tag(before, segs, after);
    a_written_path_reads_back(PathView::Data(segs));
    let var = NodeView::Var(PathView::Data(segs));
    let a = text_nodes(before);
    let b = text_nodes(after);
    let nodes = a + seq![var] + b;
    let none = Seq::<Seq<char>>::empty();
    let nil = Seq::<NodeView>::empty();
    let front = a.push(var);
    assert(root_refs(a, false) =~= none && path_refs(a, Seq::empty()) =~= none) by {
        if before.len() > 0 {
            assert(a.drop_last() =~= nil);
            assert(root_refs(nil, false) =~= none);
            assert(path_refs(nil, Seq::empty()) =~= none);
        }
    }
    assert(front.drop_last() =~= a);
    assert(root_refs(front, false) =~= seq![root]);
    let text = dotted(segs);
    assert(text[0] != '@') by {
        assert(is_readable_path(PathView::Data(segs)));
        assert(crate::template::paths::is_readable_seg(segs[0]));
    }
    assert(anchored_text(segs, Seq::empty()) == text);
    assert(path_refs(front, Seq::empty()) =~= seq![text]);
    assert(root_refs(nodes, false) =~= seq![root] && path_refs(nodes, Seq::empty()) =~= seq![text])
        by {
        if after.len() > 0 {
            assert(nodes =~= front.push(NodeView::Text(after)));
            assert(nodes.drop_last() =~= front);
        } else {
            assert(nodes =~= front);
        }
    }
    lemma_distinct_one(root);
    lemma_distinct_one(text);
}

proof fn lemma_distinct_one(x: Seq<char>)
    ensures
        distinct(seq![x]) == seq![x],
{
    reveal_with_fuel(adding_new, 3);
    let s = seq![x];
    assert(s.drop_last() =~= Seq::<Seq<char>>::empty());
    assert(distinct(s) =~= s);
}

} // verus!
