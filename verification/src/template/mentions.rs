//! What the lists of a template's roots and paths have to do with each other.

use crate::seqs::{adding_new, lemma_adding_new_contains};
use crate::template::parser::{parsed, NodeView, PathView, SegView};
use crate::template::paths::{a_written_path_reads_back, is_readable_path, path_text};
use crate::template::rewriting::{is_readable_node, parsing_gives_readable_nodes};
use crate::template::{
    anchored_text, as_seq, path_refs, paths_of, reported, root_ref, root_refs, roots_of, seg_texts,
};
use crate::text::split;
use vstd::prelude::*;

verus! {

/// Adding only what is new repeats nothing.
proof fn lemma_adding_new_repeats_nothing<A>(acc: Seq<A>, s: Seq<A>)
    requires
        acc.no_duplicates(),
    ensures
        adding_new(acc, s).no_duplicates(),
    decreases s.len(),
{
    if s.len() > 0 {
        lemma_adding_new_repeats_nothing(acc, s.drop_last());
        let before = adding_new(acc, s.drop_last());
        if !before.contains(s.last()) {
            assert forall|i: int, j: int| 0 <= i < j <= before.len() implies before.push(
                s.last(),
            )[i] != before.push(s.last())[j] by {
                if j == before.len() {
                    assert(before.contains(before[i]));
                }
            }
        }
    }
}

/// Whether every path of some is worth reporting.
spec fn all_worth_reporting(paths: Seq<Seq<char>>) -> bool {
    forall|i: int| 0 <= i < paths.len() ==> (#[trigger] paths[i]).len() > 0 && paths[i][0] != '@'
}

proof fn lemma_both_worth_reporting(a: Seq<Seq<char>>, b: Seq<Seq<char>>)
    requires
        all_worth_reporting(a),
        all_worth_reporting(b),
    ensures
        all_worth_reporting(a + b),
{
    assert forall|i: int| 0 <= i < (a + b).len() implies (#[trigger] (a + b)[i]).len() > 0 && (a
        + b)[i][0] != '@' by {
        if i < a.len() {
            assert((a + b)[i] == a[i]);
        } else {
            assert((a + b)[i] == b[i - a.len()]);
        }
    }
}

/// Every path that is reported is one worth reporting.
proof fn lemma_worth_reporting(nodes: Seq<NodeView>, prefix: Seq<char>)
    ensures
        all_worth_reporting(path_refs(nodes, prefix)),
    decreases nodes,
{
    if nodes.len() > 0 {
        let before = path_refs(nodes.drop_last(), prefix);
        lemma_worth_reporting(nodes.drop_last(), prefix);
        assert(decreases_to!(nodes => nodes.last()));
        match nodes.last() {
            NodeView::Var(PathView::Data(segs)) => {
                lemma_both_worth_reporting(before, reported(anchored_text(segs, prefix)));
            },
            NodeView::Section { path: PathView::Data(segs), body, .. } => {
                let text = anchored_text(segs, prefix);
                lemma_worth_reporting(body, text);
                lemma_both_worth_reporting(reported(text), path_refs(body, text));
                lemma_both_worth_reporting(before, reported(text) + path_refs(body, text));
            },
            NodeView::Section { body, .. } => {
                lemma_worth_reporting(body, prefix);
                lemma_both_worth_reporting(before, path_refs(body, prefix));
            },
            _ => {
                lemma_both_worth_reporting(before, Seq::empty());
            },
        }
    }
}

/// A path that refers to a root is reported, and begins with it.
proof fn lemma_reported(segs: Seq<SegView>, in_section: bool, prefix: Seq<char>, root: Seq<char>)
    requires
        is_readable_path(PathView::Data(segs)),
        !in_section ==> prefix.len() == 0,
        root_ref(PathView::Data(segs), in_section) == Some(root),
    ensures
        reported(anchored_text(segs, prefix)) == seq![anchored_text(segs, prefix)],
        split(anchored_text(segs, prefix), '.')[0] == root,
{
    let path = PathView::Data(segs);
    a_written_path_reads_back(path);
    assert(path_text(path) == anchored_text(segs, prefix));
    assert(seg_texts(segs)[0] == root);
}

/// A path that begins with a root that nodes refer to.
proof fn lemma_root_has_path(
    nodes: Seq<NodeView>,
    in_section: bool,
    prefix: Seq<char>,
    root: Seq<char>,
) -> (p: Seq<char>)
    requires
        forall|i: int| 0 <= i < nodes.len() ==> is_readable_node(#[trigger] nodes[i]),
        !in_section ==> prefix.len() == 0,
        root_refs(nodes, in_section).contains(root),
    ensures
        path_refs(nodes, prefix).contains(p),
        split(p, '.')[0] == root,
    decreases nodes,
{
    let front = nodes.drop_last();
    let refs = root_refs(front, in_section);
    let paths = path_refs(front, prefix);
    let all = path_refs(nodes, prefix);
    let k = choose|k: int|
        0 <= k < root_refs(nodes, in_section).len() && root_refs(nodes, in_section)[k] == root;
    assert(nodes[nodes.len() - 1] == nodes.last());
    assert(is_readable_node(nodes.last()));
    if k < refs.len() {
        assert(refs[k] == root);
        assert forall|i: int| 0 <= i < front.len() implies is_readable_node(
            #[trigger] front[i],
        ) by {
            assert(front[i] == nodes[i]);
        }
        let p = lemma_root_has_path(front, in_section, prefix, root);
        let m = choose|m: int| 0 <= m < paths.len() && paths[m] == p;
        assert(all[m] == p);
        p
    } else {
        assert(decreases_to!(nodes => nodes.last()));
        match nodes.last() {
            NodeView::Var(PathView::Data(segs)) => {
                lemma_reported(segs, in_section, prefix, root);
                let p = anchored_text(segs, prefix);
                assert(all[paths.len() as int] == p);
                p
            },
            NodeView::Section { path, body, .. } => {
                let own = as_seq(root_ref(path, in_section));
                if k < refs.len() + own.len() {
                    let segs = path->Data_0;
                    assert(own[0] == root);
                    lemma_reported(segs, in_section, prefix, root);
                    let p = anchored_text(segs, prefix);
                    assert(all[paths.len() as int] == p);
                    p
                } else {
                    assert(root_refs(body, true)[k - refs.len() - own.len()] == root);
                    let inner = match path {
                        PathView::Data(segs) => anchored_text(segs, prefix),
                        _ => prefix,
                    };
                    let before = match path {
                        PathView::Data(segs) => reported(inner),
                        _ => Seq::<Seq<char>>::empty(),
                    };
                    let p = lemma_root_has_path(body, true, inner, root);
                    let found = path_refs(body, inner);
                    let m = choose|m: int| 0 <= m < found.len() && found[m] == p;
                    assert(all[paths.len() + before.len() + m] == p);
                    p
                }
            },
            _ => {
                assert(false);
                root
            },
        }
    }
}

/// The roots and the paths of a template are listed together or not at all. No
/// path is listed twice, none is empty or a loop variable, and every root begins
/// one of the paths.
pub proof fn every_root_begins_a_path(t: Seq<char>)
    ensures
        paths_of(t) is Ok <==> parsed(t) is Ok,
        roots_of(t) is Ok <==> parsed(t) is Ok,
        parsed(t) is Ok ==> {
            let paths = paths_of(t)->Ok_0;
            let roots = roots_of(t)->Ok_0;
            &&& paths.no_duplicates()
            &&& roots.no_duplicates()
            &&& forall|p: Seq<char>| #[trigger] paths.contains(p) ==> p.len() > 0 && p[0] != '@'
            &&& forall|r: Seq<char>| #[trigger]
                roots.contains(r) ==> exists|p: Seq<char>| #[trigger]
                    paths.contains(p) && split(p, '.')[0] == r
        },
{
    if let Ok(nodes) = parsed(t) {
        let none = Seq::<char>::empty();
        let refs = root_refs(nodes, false);
        let mentioned = path_refs(nodes, none);
        let paths = paths_of(t)->Ok_0;
        let roots = roots_of(t)->Ok_0;
        lemma_adding_new_repeats_nothing(Seq::empty(), refs);
        lemma_adding_new_repeats_nothing(Seq::empty(), mentioned);
        lemma_worth_reporting(nodes, none);
        assert forall|p: Seq<char>| #[trigger] paths.contains(p) implies p.len() > 0 && p[0]
            != '@' by {
            lemma_adding_new_contains(Seq::empty(), mentioned, p);
            let m = choose|m: int| 0 <= m < mentioned.len() && mentioned[m] == p;
            assert(mentioned[m].len() > 0);
        }
        parsing_gives_readable_nodes(t);
        assert forall|r: Seq<char>| #[trigger] roots.contains(r) implies exists|p: Seq<char>|
            #[trigger] paths.contains(p) && split(p, '.')[0] == r by {
            lemma_adding_new_contains(Seq::empty(), refs, r);
            let p = lemma_root_has_path(nodes, false, none, r);
            lemma_adding_new_contains(Seq::empty(), mentioned, p);
            assert(paths.contains(p) && split(p, '.')[0] == r);
        }
    }
}

} // verus!
