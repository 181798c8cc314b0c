//! What holds of every template.

use crate::seqs::lemma_adding_new_contains;
use crate::template::parser::{exact_path, parsed, FrameView, NodeView, PathView, SegView};
use crate::template::render::{
    item_scope, iterated, node_text, rendered, rendered_text, resolved, section_value, spliced,
    truthy, var_value, walked, ScopeView,
};
use crate::template::{
    as_seq, path_refs, paths_of, renamed, root_ref, root_refs, roots_of, RenderErrorView,
};
use crate::text::{begins, find_from, is_space, split_from, trim_end, trim_start, trimmed};
use crate::value::{lookup, Entries, Json};
use vstd::prelude::*;

verus! {

// ── Text without tags ────────────────────────────────────────────────────

/// Text without a tag is what it says: it renders to itself, refers to
/// nothing, and no renaming touches it.
pub proof fn plain_text_stays_as_it_is(
    t: Seq<char>,
    roots: Entries,
    old_root: Seq<char>,
    new_root: Seq<char>,
)
    requires
        find_from(t, "{{"@, 0) is None,
    ensures
        rendered_text(roots, t) == Ok::<Seq<char>, RenderErrorView>(t),
        spliced(roots, t) == Ok::<Json, RenderErrorView>(Json::Text(t)),
        roots_of(t) == Ok::<Seq<Seq<char>>, RenderErrorView>(Seq::empty()),
        paths_of(t) == Ok::<Seq<Seq<char>>, RenderErrorView>(Seq::empty()),
        renamed(t, old_root, new_root) == t,
{
    reveal_strlit("{{");
    let bottom = seq![FrameView { header: None, nodes: Seq::empty() }];
    assert(t.subrange(0, t.len() as int) =~= t);
    assert(!begins(t, "{{"@));
    let nodes = parsed(t)->Ok_0;
    if t.len() == 0 {
        assert(nodes =~= Seq::<NodeView>::empty());
        assert(t =~= Seq::<char>::empty());
    } else {
        assert(nodes =~= seq![NodeView::Text(t)]);
        assert(nodes.drop_last() =~= Seq::<NodeView>::empty());
        let scope = ScopeView { contexts: Seq::empty(), loops: Seq::empty() };
        reveal_with_fuel(rendered, 2);
        reveal_with_fuel(root_refs, 2);
        reveal_with_fuel(path_refs, 2);
        assert(rendered(roots, scope, nodes)->Ok_0 =~= t);
    }
    assert(root_refs(nodes, false) =~= Seq::<Seq<char>>::empty());
    assert(path_refs(nodes, Seq::empty()) =~= Seq::<Seq<char>>::empty());
}

// ── Missing steps ────────────────────────────────────────────────────────

/// Whether a path is nothing but a name.
pub open spec fn is_bare(path: PathView, name: Seq<char>) -> bool {
    path matches PathView::Data(segs) && segs.len() == 1 && segs[0] == SegView::Key(name)
}

/// Whether a name stands alone in some tag inside a section, where it reads the
/// item first.
pub open spec fn bare_in_section(nodes: Seq<NodeView>, in_section: bool, name: Seq<char>) -> bool
    decreases nodes,
{
    nodes.len() > 0 && (bare_in_section(nodes.drop_last(), in_section, name) || match nodes.last() {
        NodeView::Text(_) => false,
        NodeView::Var(path) => in_section && is_bare(path, name),
        NodeView::Section { path, body, .. } => (in_section && is_bare(path, name))
            || bare_in_section(body, true, name),
    })
}

/// Whether nodes account for a failure: a missing step is one that they refer
/// to, or a bare name in a section, and there is no such root.
pub open spec fn accounts_for(
    roots: Entries,
    nodes: Seq<NodeView>,
    in_section: bool,
    e: RenderErrorView,
) -> bool {
    e matches RenderErrorView::MissingStep { step, .. } ==> {
        &&& lookup(roots, step) is None
        &&& root_refs(nodes, in_section).contains(step) || bare_in_section(nodes, in_section, step)
    }
}

proof fn lemma_walk_misses_no_step(current: Json, segs: Seq<SegView>, at: Seq<char>)
    ensures
        walked(current, segs, at) matches Err(e) ==> e !is MissingStep,
    decreases segs.len(),
{
    if segs.len() > 0 {
        match segs[0] {
            SegView::Index(index) => {
                if let Json::List(items) = current {
                    if index < items.len() {
                        lemma_walk_misses_no_step(
                            items[index as int],
                            segs.skip(1),
                            at + "."@ + crate::text::numeral(index),
                        );
                    }
                }
            },
            SegView::Key(key) => {
                if let Json::Object(entries) = current {
                    if let Some(child) = lookup(entries, key) {
                        lemma_walk_misses_no_step(child, segs.skip(1), at + "."@ + key);
                    }
                }
            },
            _ => {},
        }
    }
}

/// A value that cannot be had is one that its path accounts for.
proof fn lemma_value_accounts(roots: Entries, scope: ScopeView, path: PathView, in_section: bool)
    ensures
        var_value(roots, scope, path) matches Err(RenderErrorView::MissingStep { step, .. }) ==> {
            &&& lookup(roots, step) is None
            &&& root_ref(path, in_section) == Some(step) || (in_section && is_bare(path, step))
        },
        section_value(roots, scope, path) matches Err(
            RenderErrorView::MissingStep { step, .. },
        ) ==> {
            &&& lookup(roots, step) is None
            &&& root_ref(path, in_section) == Some(step) || (in_section && is_bare(path, step))
        },
{
    if let PathView::Data(segs) = path {
        if segs.len() > 0 && segs[0] is Key {
            if let Some(start) = lookup(roots, segs[0]->Key_0) {
                lemma_walk_misses_no_step(start, segs.skip(1), segs[0]->Key_0);
            }
        }
    }
}

proof fn lemma_nodes_account(
    roots: Entries,
    scope: ScopeView,
    nodes: Seq<NodeView>,
    in_section: bool,
)
    ensures
        rendered(roots, scope, nodes) matches Err(e) ==> accounts_for(roots, nodes, in_section, e),
    decreases nodes, 0int,
{
    if nodes.len() > 0 {
        let front = nodes.drop_last();
        let here = match nodes.last() {
            NodeView::Text(_) => Seq::<Seq<char>>::empty(),
            NodeView::Var(path) => as_seq(root_ref(path, in_section)),
            NodeView::Section { path, body, .. } => as_seq(root_ref(path, in_section)) + root_refs(
                body,
                true,
            ),
        };
        assert(root_refs(nodes, in_section) == root_refs(front, in_section) + here);
        lemma_nodes_account(roots, scope, front, in_section);
        if let Err(RenderErrorView::MissingStep { step, .. }) = rendered(roots, scope, front) {
            lemma_in_either(root_refs(front, in_section), here, step);
        } else if let Err(RenderErrorView::MissingStep { step, .. }) = node_text(
            roots,
            scope,
            nodes.last(),
        ) {
            lemma_in_either(root_refs(front, in_section), here, step);
            match nodes.last() {
                NodeView::Text(_) => {},
                NodeView::Var(path) => {
                    lemma_value_accounts(roots, scope, path, in_section);
                    if root_ref(path, in_section) == Some(step) {
                        assert(here[0] == step);
                    }
                },
                NodeView::Section { path, inverted, body } => {
                    assert(decreases_to!(nodes => nodes.last()));
                    lemma_value_accounts(roots, scope, path, in_section);
                    lemma_in_either(
                        as_seq(root_ref(path, in_section)),
                        root_refs(body, true),
                        step,
                    );
                    match section_value(roots, scope, path) {
                        Err(e) => {
                            if root_ref(path, in_section) == Some(step) {
                                assert(as_seq(root_ref(path, in_section))[0] == step);
                            }
                        },
                        Ok(value) => {
                            lemma_nodes_account(roots, scope, body, true);
                            if !inverted && truthy(value) {
                                match value {
                                    Some(Json::List(items)) => {
                                        lemma_items_account(
                                            roots,
                                            scope,
                                            body,
                                            items,
                                            items.len() as int,
                                        );
                                    },
                                    Some(Json::Object(entries)) => {
                                        lemma_nodes_account(
                                            roots,
                                            ScopeView {
                                                contexts: scope.contexts.push(
                                                    Json::Object(entries),
                                                ),
                                                loops: scope.loops,
                                            },
                                            body,
                                            true,
                                        );
                                    },
                                    _ => {},
                                }
                            }
                        },
                    }
                },
            }
        }
    }
}

proof fn lemma_items_account(
    roots: Entries,
    scope: ScopeView,
    body: Seq<NodeView>,
    items: Seq<Json>,
    n: int,
)
    ensures
        iterated(roots, scope, body, items, n) matches Err(e) ==> accounts_for(
            roots,
            body,
            true,
            e,
        ),
    decreases body, n + 1,
{
    if n > 0 {
        lemma_items_account(roots, scope, body, items, n - 1);
        lemma_nodes_account(roots, item_scope(scope, items, n - 1), body, true);
    }
}

/// What one part of a sequence holds, the whole holds.
pub proof fn lemma_in_either<A>(a: Seq<A>, b: Seq<A>, x: A)
    ensures
        a.contains(x) ==> (a + b).contains(x),
        b.contains(x) ==> (a + b).contains(x),
{
    if a.contains(x) {
        let i = choose|i: int| 0 <= i < a.len() && a[i] == x;
        assert((a + b)[i] == x);
    }
    if b.contains(x) {
        let i = choose|i: int| 0 <= i < b.len() && b[i] == x;
        assert((a + b)[a.len() + i] == x);
    }
}

/// A missing step is never a surprise: rendering fails on one only if it is
/// among the roots that the template is known to refer to, or stands bare in a
/// section whose value is no item to read it from.
pub proof fn a_missing_step_was_referred_to(roots: Entries, t: Seq<char>)
    requires
        parsed(t) is Ok,
    ensures
        rendered_text(roots, t) matches Err(RenderErrorView::MissingStep { step, .. }) ==> {
            &&& lookup(roots, step) is None
            &&& roots_of(t)->Ok_0.contains(step) || bare_in_section(
                parsed(t)->Ok_0,
                false,
                step,
            )
        },
{
    if let Err(RenderErrorView::MissingStep { step, .. }) = rendered_text(roots, t) {
        lemma_adding_new_contains(Seq::empty(), root_refs(parsed(t)->Ok_0, false), step);
    }
    lemma_nodes_account(
        roots,
        ScopeView { contexts: Seq::empty(), loops: Seq::empty() },
        parsed(t)->Ok_0,
        false,
    );
}

/// A missing step is never a surprise in a step's input either, where a lone
/// tag stands for the value it names.
pub proof fn a_missing_step_was_referred_to_in_an_input(roots: Entries, t: Seq<char>)
    requires
        parsed(t) is Ok,
    ensures
        spliced(roots, t) matches Err(RenderErrorView::MissingStep { step, .. }) ==> {
            &&& lookup(roots, step) is None
            &&& roots_of(t)->Ok_0.contains(step) || bare_in_section(
                parsed(t)->Ok_0,
                false,
                step,
            )
        },
{
    if let Some(PathView::Data(segs)) = exact_path(t) {
        if let Err(RenderErrorView::MissingStep { step, .. }) = resolved(roots, segs) {
            if segs.len() > 0 && segs[0] is Key {
                if let Some(start) = lookup(roots, segs[0]->Key_0) {
                    lemma_walk_misses_no_step(start, segs.skip(1), segs[0]->Key_0);
                }
            }
            let nodes = parsed(t)->Ok_0;
            let here = as_seq(root_ref(nodes[0]->Var_0, false));
            assert(here[0] == step);
            assert(root_refs(nodes, false) == root_refs(nodes.drop_last(), false) + here);
            lemma_in_either(root_refs(nodes.drop_last(), false), here, step);
            lemma_adding_new_contains(Seq::empty(), root_refs(nodes, false), step);
        }
    } else {
        a_missing_step_was_referred_to(roots, t);
    }
}

// ── Running out of data ──────────────────────────────────────────────────

/// A path that can be followed to a null, or to an array that is too short,
/// has run out of data there: that is no defect of the path.
pub proof fn running_out_of_data_is_no_defect(
    current: Json,
    segs: Seq<SegView>,
    more: Seq<SegView>,
    at: Seq<char>,
)
    requires
        walked(current, segs, at) matches Ok(reached) && more.len() > 0 && match more[0] {
            SegView::Index(n) => reached is Null || (reached is List && n
                >= reached->List_0.len()),
            SegView::Key(_) => reached is Null,
            SegView::Length => false,
        },
    ensures
        walked(current, segs + more, at) matches Err(e) && e is EmptyData,
    decreases segs.len(),
{
    let all = segs + more;
    if segs.len() == 0 {
        assert(all =~= more);
    } else {
        assert(all[0] == segs[0]);
        assert(all.skip(1) =~= segs.skip(1) + more);
        match segs[0] {
            SegView::Index(n) => {
                running_out_of_data_is_no_defect(
                    current->List_0[n as int],
                    segs.skip(1),
                    more,
                    at + "."@ + crate::text::numeral(n),
                );
            },
            SegView::Key(key) => {
                running_out_of_data_is_no_defect(
                    lookup(current->Object_0, key)->0,
                    segs.skip(1),
                    more,
                    at + "."@ + key,
                );
            },
            SegView::Length => {},
        }
    }
}

// ── Where text stands ────────────────────────────────────────────────────

/// Where leading white space ends.
proof fn lemma_trim_start(s: Seq<char>) -> (l: int)
    ensures
        0 <= l <= s.len(),
        trim_start(s) == s.subrange(l, s.len() as int),
        forall|i: int| 0 <= i < l ==> is_space(#[trigger] s[i]),
        l < s.len() ==> !is_space(s[l]),
    decreases s.len(),
{
    if s.len() > 0 && is_space(s[0]) {
        let rest = s.subrange(1, s.len() as int);
        let l = lemma_trim_start(rest);
        assert forall|i: int| 0 <= i < l + 1 implies is_space(#[trigger] s[i]) by {
            if i > 0 {
                assert(s[i] == rest[i - 1]);
            }
        }
        assert(rest.subrange(l, rest.len() as int) =~= s.subrange(l + 1, s.len() as int));
        l + 1
    } else {
        assert(s.subrange(0, s.len() as int) =~= s);
        0
    }
}

/// Where trailing white space begins.
proof fn lemma_trim_end(s: Seq<char>) -> (r: int)
    ensures
        0 <= r <= s.len(),
        trim_end(s) == s.subrange(0, r),
        forall|i: int| r <= i < s.len() ==> is_space(#[trigger] s[i]),
        r > 0 ==> !is_space(s[r - 1]),
    decreases s.len(),
{
    if s.len() > 0 && is_space(s.last()) {
        let rest = s.drop_last();
        let r = lemma_trim_end(rest);
        assert forall|i: int| r <= i < s.len() implies is_space(#[trigger] s[i]) by {
            if i < rest.len() {
                assert(s[i] == rest[i]);
            }
        }
        assert(rest.subrange(0, r) =~= s.subrange(0, r));
        r
    } else {
        assert(s.subrange(0, s.len() as int) =~= s);
        s.len() as int
    }
}

/// Where the part of a text without the white space around it stands.
pub proof fn lemma_trimmed(s: Seq<char>) -> (at: (int, int))
    ensures
        0 <= at.0 <= at.1 <= s.len(),
        trimmed(s) == s.subrange(at.0, at.1),
        forall|i: int| 0 <= i < at.0 ==> is_space(#[trigger] s[i]),
        forall|i: int| at.1 <= i < s.len() ==> is_space(#[trigger] s[i]),
        at.0 < at.1 ==> !is_space(s[at.0]) && !is_space(s[at.1 - 1]),
{
    let l = lemma_trim_start(s);
    let rest = s.subrange(l, s.len() as int);
    let r = lemma_trim_end(rest);
    assert(rest.subrange(0, r) =~= s.subrange(l, l + r));
    assert forall|i: int| l + r <= i < s.len() implies is_space(#[trigger] s[i]) by {
        assert(s[i] == rest[i - l]);
    }
    if r > 0 {
        assert(rest[r - 1] == s[l + r - 1]);
    }
    (l, l + r)
}

/// The first piece of a text reaches to the first separator.
pub proof fn lemma_split_first(s: Seq<char>, sep: char, start: int, from: int)
    requires
        0 <= start <= from <= s.len(),
        forall|i: int| start <= i < from ==> s[i] != sep,
    ensures
        split_from(s, sep, start, from).len() > 0,
        ({
            let piece = split_from(s, sep, start, from)[0];
            &&& start + piece.len() <= s.len()
            &&& piece == s.subrange(start, start + piece.len())
            &&& forall|i: int| 0 <= i < piece.len() ==> #[trigger] piece[i] != sep
            &&& start + piece.len() < s.len() ==> s[start + piece.len()] == sep
        }),
    decreases s.len() - from,
{
    if from < s.len() && s[from] != sep {
        lemma_split_first(s, sep, start, from + 1);
    } else {
        let piece = s.subrange(start, from);
        assert(s.subrange(start, s.len() as int).len() == s.len() - start);
        assert(split_from(s, sep, start, from)[0] == piece);
    }
}

} // verus!
