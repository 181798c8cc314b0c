//! A template in which a root is renamed renders as it did, once the root's value
//! goes by the new name.

use crate::template::laws::{bare_in_section, is_bare, lemma_in_either};
use crate::template::parser::{parsed, NodeView, PathView, SegView};
use crate::template::renaming::{
    ends_apart, is_root_name, renamed_node, renamed_nodes, renamed_path,
    renaming_keeps_every_reference,
};
use crate::template::render::{
    item_scope, iterated, node_text, rendered, rendered_text, resolved, section_value, truthy,
    var_value, walked, ScopeView,
};
use crate::template::{as_seq, renamed, root_ref, root_refs};
use crate::value::{lookup, Entries, Json};
use vstd::prelude::*;

verus! {

/// Whether roots are others in which one goes by a new name.
pub open spec fn roots_renamed(
    roots: Entries,
    others: Entries,
    old_root: Seq<char>,
    new_root: Seq<char>,
) -> bool {
    &&& lookup(roots, old_root) is Some
    &&& lookup(others, new_root) == lookup(roots, old_root)
    &&& forall|name: Seq<char>|
        name != old_root && name != new_root ==> #[trigger] lookup(others, name) == lookup(
            roots,
            name,
        )
}

/// Whether a path has nothing to do with the new name, and does not name the old
/// root where a bare name reads the item.
spec fn path_clear(
    path: PathView,
    in_section: bool,
    old_root: Seq<char>,
    new_root: Seq<char>,
) -> bool {
    &&& root_ref(path, in_section) != Some(new_root)
    &&& in_section ==> !is_bare(path, old_root) && !is_bare(path, new_root)
}

/// Whether nodes have nothing to do with the new name, and do not name the old root
/// where a bare name reads the item.
pub open spec fn stays_clear(
    nodes: Seq<NodeView>,
    in_section: bool,
    old_root: Seq<char>,
    new_root: Seq<char>,
) -> bool {
    &&& !root_refs(nodes, in_section).contains(new_root)
    &&& !bare_in_section(nodes, in_section, old_root)
    &&& !bare_in_section(nodes, in_section, new_root)
}

/// What is found does not depend on what the way there is called.
proof fn lemma_walk_by_another_name(
    current: Json,
    segs: Seq<SegView>,
    a: Seq<char>,
    b: Seq<char>,
)
    ensures
        walked(current, segs, a) is Ok <==> walked(current, segs, b) is Ok,
        walked(current, segs, a) is Ok ==> walked(current, segs, a) == walked(current, segs, b),
    decreases segs.len(),
{
    if segs.len() > 0 {
        match segs[0] {
            SegView::Index(index) => {
                if let Json::List(items) = current {
                    if index < items.len() {
                        let n = crate::text::numeral(index);
                        lemma_walk_by_another_name(
                            items[index as int],
                            segs.skip(1),
                            a + "."@ + n,
                            b + "."@ + n,
                        );
                    }
                }
            },
            SegView::Key(key) => {
                if let Json::Object(entries) = current {
                    if let Some(child) = lookup(entries, key) {
                        lemma_walk_by_another_name(
                            child,
                            segs.skip(1),
                            a + "."@ + key,
                            b + "."@ + key,
                        );
                    }
                }
            },
            _ => {},
        }
    }
}

/// The value of a renamed path is that of the path.
proof fn lemma_renamed_value(
    roots: Entries,
    others: Entries,
    scope: ScopeView,
    path: PathView,
    in_section: bool,
    old_root: Seq<char>,
    new_root: Seq<char>,
)
    requires
        roots_renamed(roots, others, old_root, new_root),
        path_clear(path, in_section, old_root, new_root),
        !in_section ==> scope.contexts.len() == 0,
    ensures
        ({
            let p = renamed_path(path, old_root, new_root, in_section);
            &&& var_value(roots, scope, path) is Ok ==> var_value(others, scope, p) == var_value(
                roots,
                scope,
                path,
            )
            &&& section_value(roots, scope, path) is Ok ==> section_value(others, scope, p)
                == section_value(roots, scope, path)
        }),
{
    if let PathView::Data(segs) = path {
        if root_ref(path, in_section) == Some(old_root) {
            let after = segs.update(0, SegView::Key(new_root));
            assert(segs.skip(1) =~= after.skip(1));
            lemma_walk_by_another_name(
                lookup(roots, old_root)->0,
                segs.skip(1),
                old_root,
                new_root,
            );
            assert(resolved(roots, segs) is Ok <==> resolved(others, after) is Ok);
        } else if segs.len() > 0 && segs[0] is Key {
            let name = segs[0]->Key_0;
            assert(name != old_root && name != new_root);
            assert(lookup(others, name) == lookup(roots, name));
        }
    }
}

proof fn lemma_renamed_renders(
    roots: Entries,
    others: Entries,
    scope: ScopeView,
    nodes: Seq<NodeView>,
    in_section: bool,
    old_root: Seq<char>,
    new_root: Seq<char>,
)
    requires
        roots_renamed(roots, others, old_root, new_root),
        stays_clear(nodes, in_section, old_root, new_root),
        !in_section ==> scope.contexts.len() == 0,
        rendered(roots, scope, nodes) is Ok,
    ensures
        rendered(others, scope, renamed_nodes(nodes, old_root, new_root, in_section)) == rendered(
            roots,
            scope,
            nodes,
        ),
    decreases nodes, 0int,
{
    let after = renamed_nodes(nodes, old_root, new_root, in_section);
    if nodes.len() > 0 {
        let front = nodes.drop_last();
        let last = nodes.last();
        assert(decreases_to!(nodes => last));
        assert(after.drop_last() =~= renamed_nodes(front, old_root, new_root, in_section));
        assert(after.last() == renamed_node(last, old_root, new_root, in_section));
        lemma_parts_clear(nodes, in_section, old_root, new_root);
        lemma_renamed_renders(roots, others, scope, front, in_section, old_root, new_root);
        match last {
            NodeView::Text(_) => {},
            NodeView::Var(path) => {
                lemma_renamed_value(roots, others, scope, path, in_section, old_root, new_root);
            },
            NodeView::Section { path, inverted, body } => {
                lemma_renamed_value(roots, others, scope, path, in_section, old_root, new_root);
                let new_body = renamed_nodes(body, old_root, new_root, true);
                assert(after.last()->body =~= new_body);
                let value = section_value(roots, scope, path)->Ok_0;
                if truthy(value) == inverted {
                } else if inverted {
                    lemma_renamed_renders(roots, others, scope, body, true, old_root, new_root);
                } else {
                    match value {
                        Some(Json::List(items)) => {
                            lemma_renamed_items(
                                roots,
                                others,
                                scope,
                                body,
                                items,
                                items.len() as int,
                                old_root,
                                new_root,
                            );
                        },
                        Some(Json::Object(entries)) => {
                            let inner = ScopeView {
                                contexts: scope.contexts.push(Json::Object(entries)),
                                loops: scope.loops,
                            };
                            lemma_renamed_renders(
                                roots,
                                others,
                                inner,
                                body,
                                true,
                                old_root,
                                new_root,
                            );
                        },
                        _ => {
                            lemma_renamed_renders(
                                roots,
                                others,
                                scope,
                                body,
                                true,
                                old_root,
                                new_root,
                            );
                        },
                    }
                }
            },
        }
        assert(node_text(others, scope, after.last()) == node_text(roots, scope, last));
    } else {
        assert(after =~= nodes);
    }
}

proof fn lemma_renamed_items(
    roots: Entries,
    others: Entries,
    scope: ScopeView,
    body: Seq<NodeView>,
    items: Seq<Json>,
    n: int,
    old_root: Seq<char>,
    new_root: Seq<char>,
)
    requires
        roots_renamed(roots, others, old_root, new_root),
        stays_clear(body, true, old_root, new_root),
        iterated(roots, scope, body, items, n) is Ok,
    ensures
        iterated(
            others,
            scope,
            renamed_nodes(body, old_root, new_root, true),
            items,
            n,
        ) == iterated(roots, scope, body, items, n),
    decreases body, n + 1,
{
    if n > 0 {
        lemma_renamed_items(roots, others, scope, body, items, n - 1, old_root, new_root);
        lemma_renamed_renders(
            roots,
            others,
            item_scope(scope, items, n - 1),
            body,
            true,
            old_root,
            new_root,
        );
    }
}

/// Where nodes stay clear, each part of them does.
proof fn lemma_parts_clear(
    nodes: Seq<NodeView>,
    in_section: bool,
    old_root: Seq<char>,
    new_root: Seq<char>,
)
    requires
        nodes.len() > 0,
        stays_clear(nodes, in_section, old_root, new_root),
    ensures
        stays_clear(nodes.drop_last(), in_section, old_root, new_root),
        match nodes.last() {
            NodeView::Text(_) => true,
            NodeView::Var(path) => path_clear(path, in_section, old_root, new_root),
            NodeView::Section { path, body, .. } => path_clear(
                path,
                in_section,
                old_root,
                new_root,
            ) && stays_clear(body, true, old_root, new_root),
        },
{
    let front = root_refs(nodes.drop_last(), in_section);
    match nodes.last() {
        NodeView::Text(_) => {
            assert(root_refs(nodes, in_section) =~= front);
        },
        NodeView::Var(path) => {
            let here = as_seq(root_ref(path, in_section));
            lemma_in_either(front, here, new_root);
            if root_ref(path, in_section) == Some(new_root) {
                assert(here[0] == new_root);
            }
        },
        NodeView::Section { path, body, .. } => {
            let own = as_seq(root_ref(path, in_section));
            let inner = root_refs(body, true);
            lemma_in_either(front, own + inner, new_root);
            lemma_in_either(own, inner, new_root);
            if root_ref(path, in_section) == Some(new_root) {
                assert(own[0] == new_root);
            }
        },
    }
}

/// A template in which a root is renamed renders as it did, once the root's value
/// goes by the new name. The new name is one that the template does not use yet,
/// and the old one stands nowhere alone in a section, where it reads the item and
/// stays; tags that end in a brace are left out as in
/// [`renaming_keeps_every_reference`].
pub proof fn a_renamed_template_renders_as_it_did(
    t: Seq<char>,
    roots: Entries,
    others: Entries,
    old_root: Seq<char>,
    new_root: Seq<char>,
)
    requires
        is_root_name(old_root),
        is_root_name(new_root),
        roots_renamed(roots, others, old_root, new_root),
        parsed(t) is Ok,
        stays_clear(parsed(t)->Ok_0, false, old_root, new_root),
        ends_apart(t, 0, 0, old_root, new_root),
        rendered_text(roots, t) is Ok,
    ensures
        rendered_text(others, renamed(t, old_root, new_root)) == rendered_text(roots, t),
{
    renaming_keeps_every_reference(t, old_root, new_root);
    let scope = ScopeView { contexts: Seq::empty(), loops: Seq::empty() };
    lemma_renamed_renders(roots, others, scope, parsed(t)->Ok_0, false, old_root, new_root);
}

} // verus!
