//! Renaming a root where tags end in a brace. A tag such as `{{old.a} }}` is
//! written anew as `{{new.a}}}`, whose last brace falls to the text behind it.

use crate::pipeline::plan::is_word;
use crate::seqs::{distinct, lemma_adding_new_contains};
use crate::template::laws::{lemma_split_first, lemma_trimmed};
use crate::template::parser::{
    lemma_find_bounds, lemma_tag_bounds, parse_from, parsed, path_of, rooted, seg_of, seg_readings,
    with_node, with_tag, with_text, FrameView, NodeView,
};
use crate::template::renaming::{
    is_root_name, lemma_collected_each, lemma_find_at, lemma_find_shift, lemma_first_dot,
    lemma_no_double_brace, lemma_opens_at, lemma_parse_shift, lemma_renamed_path, lemma_renamed_tag,
    lemma_root_name, lemma_split_at, lemma_tag_path, renamed_name, renamed_root,
};
use crate::template::{
    as_seq, closes, opens, renamed, renamed_from, renamed_tag, root_ref, root_refs, roots_of,
    tag_path, tag_sigil, RenderErrorView,
};
use crate::text::{find_from, is_space, split, trimmed};
use vstd::prelude::*;

verus! {

/// Whether the text of a path refers to a root.
pub open spec fn refers_to(name: Seq<char>, root: Seq<char>, at_root: bool) -> bool {
    match find_from(name, "."@, 0) {
        Some(dot) => name.take(dot) == root,
        None => name == root && at_root,
    }
}

/// A text without the brace that ends it, and without the white space that this
/// leaves at its ends.
pub open spec fn without_brace(name: Seq<char>) -> Seq<char> {
    trimmed(name.drop_last())
}

/// What the text of a path reads as once its root is renamed.
pub open spec fn reread_name(
    name: Seq<char>,
    old_root: Seq<char>,
    new_root: Seq<char>,
    at_root: bool,
) -> Seq<char> {
    if refers_to(name, old_root, at_root) && name.last() == '}' {
        without_brace(renamed_name(name, old_root, new_root, at_root))
    } else {
        renamed_name(name, old_root, new_root, at_root)
    }
}

/// A dotted path refers to its first part everywhere.
proof fn lemma_dotted_root(p: Seq<char>, root: Seq<char>, in_section: bool)
    requires
        is_root_name(root),
        find_from(p, "."@, 0) matches Some(d) && p.take(d) == root,
        path_of(p) is Ok,
    ensures
        root_ref(path_of(p)->Ok_0, in_section) == Some(root),
{
    reveal_strlit("@index");
    reveal_strlit("@first");
    reveal_strlit("@last");
    let d = find_from(p, "."@, 0)->0;
    lemma_first_dot(p);
    lemma_root_name(root, p);
    assert(p[0] == root[0]);
    let parts = split(p, '.');
    lemma_split_at(p, '.', d, 0);
    lemma_split_first(p.skip(d + 1), '.', 0, 0);
    assert(parts[0] == p.take(d));
    let readings = seg_readings(p, parts);
    lemma_collected_each(readings);
    assert(readings[0] == seg_of(p, root));
}

/// White space that ends two texts alike is trimmed from both alike.
proof fn lemma_trimmed_tails(a: Seq<char>, b: Seq<char>, tail: Seq<char>) -> (n: int)
    requires
        a.len() > 0,
        b.len() > 0,
        !is_space(a[0]),
        !is_space(b[0]),
        tail.len() > 0,
        !is_space(tail[0]),
    ensures
        0 < n <= tail.len(),
        trimmed(a + tail) == a + tail.take(n),
        trimmed(b + tail) == b + tail.take(n),
{
    let s = a + tail;
    let u = b + tail;
    let (l, r) = lemma_trimmed(s);
    let (m, q) = lemma_trimmed(u);
    assert(s[0] == a[0] && u[0] == b[0]);
    assert(l == 0 && m == 0);
    assert(s[a.len() as int] == tail[0] && u[b.len() as int] == tail[0]);
    assert(r > a.len()) by {
        if r <= a.len() {
            assert(is_space(s[a.len() as int]));
        }
    }
    assert(q > b.len()) by {
        if q <= b.len() {
            assert(is_space(u[b.len() as int]));
        }
    }
    let n = r - a.len();
    let k = q - b.len();
    assert(s[r - 1] == tail[n - 1]);
    assert(u[q - 1] == tail[k - 1]);
    assert(n == k) by {
        if n < k {
            assert(s[a.len() + k - 1] == tail[k - 1]);
            assert(is_space(s[a.len() + k - 1]));
        }
        if k < n {
            assert(u[b.len() + n - 1] == tail[n - 1]);
            assert(is_space(u[b.len() + n - 1]));
        }
    }
    assert(s.subrange(0, r) =~= a + tail.take(n));
    assert(u.subrange(0, q) =~= b + tail.take(n));
    n
}

/// The text of a path that refers to a root and ends in a brace.
proof fn lemma_without_brace(
    name: Seq<char>,
    old_root: Seq<char>,
    new_root: Seq<char>,
    at_root: bool,
)
    requires
        is_root_name(old_root),
        is_root_name(new_root),
        refers_to(name, old_root, at_root),
        name.last() == '}',
        name.len() > 0,
    ensures
        find_from(name, "."@, 0) is Some,
        find_from(without_brace(name), "."@, 0) matches Some(d) && without_brace(name).take(d)
            == old_root,
        reread_name(name, old_root, new_root, at_root) == renamed_name(
            without_brace(name),
            old_root,
            new_root,
            at_root,
        ),
        find_from(
            reread_name(name, old_root, new_root, at_root),
            "."@,
            0,
        ) matches Some(d) && reread_name(name, old_root, new_root, at_root).take(d) == new_root,
{
    lemma_first_dot(name);
    lemma_root_name(old_root, name);
    lemma_root_name(new_root, name);
    assert(is_word(old_root[0]) && is_word(new_root[0]));
    if find_from(name, "."@, 0) is None {
        assert(name[name.len() - 1] == old_root[name.len() - 1]);
        assert(false);
    }
    let d = find_from(name, "."@, 0)->0;
    let tail = name.skip(d).drop_last();
    assert(name.skip(d)[0] == '.');
    assert(tail[0] == '.');
    assert(name.drop_last() =~= old_root + tail);
    assert((new_root + name.skip(d)).drop_last() =~= new_root + tail);
    let n = lemma_trimmed_tails(old_root, new_root, tail);
    let c = without_brace(name);
    let e = reread_name(name, old_root, new_root, at_root);
    assert(c == old_root + tail.take(n));
    assert(e == new_root + tail.take(n));
    lemma_first_dot(c);
    lemma_first_dot(e);
    assert(c[d] == '.');
    assert forall|i: int| 0 <= i < d implies c[i] != '.' by {
        assert(c[i] == old_root[i]);
    }
    assert(find_from(c, "."@, 0) == Some(d));
    assert(c.take(d) =~= old_root);
    assert(c.skip(d) =~= tail.take(n));
    let k = new_root.len() as int;
    assert(e[k] == '.');
    assert forall|i: int| 0 <= i < k implies e[i] != '.' by {
        assert(e[i] == new_root[i]);
    }
    assert(find_from(e, "."@, 0) == Some(k));
    assert(e.take(k) =~= new_root);
}

/// Names with the old root taken for the new one.
pub open spec fn renamed_roots(
    names: Seq<Seq<char>>,
    old_root: Seq<char>,
    new_root: Seq<char>,
) -> Seq<Seq<char>> {
    Seq::new(names.len(), |i: int| renamed_root(names[i], old_root, new_root))
}

proof fn lemma_renamed_roots(
    a: Seq<Seq<char>>,
    b: Seq<Seq<char>>,
    old_root: Seq<char>,
    new_root: Seq<char>,
)
    ensures
        renamed_roots(a + b, old_root, new_root) == renamed_roots(a, old_root, new_root)
            + renamed_roots(b, old_root, new_root),
{
    assert(renamed_roots(a + b, old_root, new_root) =~= renamed_roots(a, old_root, new_root)
        + renamed_roots(b, old_root, new_root));
}

/// What a renamed path reads as refers to the new root where the path referred to
/// the old one.
proof fn lemma_reread_path(
    name: Seq<char>,
    old_root: Seq<char>,
    new_root: Seq<char>,
    at_root: bool,
)
    requires
        is_root_name(old_root),
        is_root_name(new_root),
        path_of(name) is Ok,
        refers_to(name, old_root, at_root) && name.last() == '}' ==> path_of(
            without_brace(name),
        ) is Ok,
    ensures
        path_of(reread_name(name, old_root, new_root, at_root)) is Ok,
        as_seq(
            root_ref(path_of(reread_name(name, old_root, new_root, at_root))->Ok_0, !at_root),
        ) == renamed_roots(
            as_seq(root_ref(path_of(name)->Ok_0, !at_root)),
            old_root,
            new_root,
        ),
{
    let again = reread_name(name, old_root, new_root, at_root);
    let before = as_seq(root_ref(path_of(name)->Ok_0, !at_root));
    reveal_strlit("@index");
    reveal_strlit("@first");
    reveal_strlit("@last");
    if refers_to(name, old_root, at_root) && name.last() == '}' {
        lemma_without_brace(name, old_root, new_root, at_root);
        lemma_renamed_path(without_brace(name), old_root, new_root, at_root);
        lemma_dotted_root(name, old_root, !at_root);
        lemma_dotted_root(again, new_root, !at_root);
        assert(seq![new_root] =~= renamed_roots(before, old_root, new_root));
    } else {
        lemma_renamed_path(name, old_root, new_root, at_root);
        let after = as_seq(root_ref(path_of(again)->Ok_0, !at_root));
        assert(after =~= renamed_roots(before, old_root, new_root));
    }
}

/// A tag's text without the brace that ends it: what stands before the braces that
/// close the tag.
pub open spec fn closed_part(t: Seq<char>) -> Seq<char> {
    if t.len() > 0 && t.last() == '}' {
        t.drop_last()
    } else {
        t
    }
}

/// What a tag reads as once a root is renamed.
pub open spec fn reread_tag(
    raw: Seq<char>,
    old_root: Seq<char>,
    new_root: Seq<char>,
    at_root: bool,
) -> Seq<char> {
    match renamed_tag(raw, old_root, new_root, at_root) {
        Some(t) => trimmed(closed_part(t)),
        None => trimmed(raw),
    }
}

/// A sigil stays in front of what is trimmed.
proof fn lemma_trimmed_sigil(sigil: Seq<char>, root: Seq<char>, tail: Seq<char>)
    requires
        sigil.len() == 1,
        !is_space(sigil[0]),
        root.len() > 0,
        !is_space(root[0]),
        tail.len() > 0,
        !is_space(tail[0]),
    ensures
        trimmed(sigil + (root + tail)) == sigil + trimmed(root + tail),
{
    let n = lemma_trimmed_tails(sigil + root, root, tail);
    assert(sigil + (root + tail) =~= (sigil + root) + tail);
    assert((sigil + root) + tail.take(n) =~= sigil + (root + tail.take(n)));
}

/// A renamed tag reads as its sigil and its path renamed.
proof fn lemma_reread_tag(
    raw: Seq<char>,
    old_root: Seq<char>,
    new_root: Seq<char>,
    at_root: bool,
)
    requires
        is_root_name(old_root),
        is_root_name(new_root),
        trimmed(raw).len() > 0,
    ensures
        ({
            let tag = trimmed(raw);
            let new_tag = reread_tag(raw, old_root, new_root, at_root);
            let name = reread_name(tag_path(tag), old_root, new_root, at_root);
            &&& new_tag.len() > 0
            &&& opens(new_tag) == opens(tag)
            &&& closes(new_tag) == closes(tag)
            &&& (opens(tag) || closes(tag)) ==> new_tag[0] == tag[0] && trimmed(new_tag.skip(1))
                == name
            &&& !(opens(tag) || closes(tag)) ==> new_tag == name && (new_tag == tag || is_word(
                new_tag[0],
            ))
        }),
{
    let tag = trimmed(raw);
    let path = tag_path(tag);
    let sigil = tag_sigil(tag);
    lemma_tag_path(raw);
    lemma_renamed_tag(raw, old_root, new_root, at_root);
    lemma_first_dot(path);
    lemma_root_name(old_root, path);
    lemma_root_name(new_root, path);
    if let Some(t) = renamed_tag(raw, old_root, new_root, at_root) {
        let name = renamed_name(path, old_root, new_root, at_root);
        assert(refers_to(path, old_root, at_root));
        assert(path.len() > 0);
        assert(t.last() == name.last());
        match find_from(path, "."@, 0) {
            None => {
                assert(path.last() == old_root[path.len() - 1]);
                assert(name.last() == new_root[name.len() - 1]);
            },
            Some(d) => {
                assert(name.last() == path.last());
                if path.last() == '}' {
                    let tail = path.skip(d).drop_last();
                    assert(path.skip(d)[0] == '.');
                    assert(tail[0] == '.');
                    assert(name.drop_last() =~= new_root + tail);
                    assert(is_word(new_root[0]));
                    let short = trimmed(name.drop_last());
                    lemma_tag_path(name.drop_last());
                    let n = lemma_trimmed_tails(new_root, new_root, tail);
                    assert(short[0] == new_root[0]);
                    if opens(tag) || closes(tag) {
                        lemma_trimmed_sigil(sigil, new_root, tail);
                        assert(t.drop_last() =~= sigil + (new_root + tail));
                        assert((sigil + short).skip(1) =~= short);
                    } else {
                        assert(t.drop_last() =~= name.drop_last());
                    }
                }
            },
        }
    }
}

/// Whether an open section, the one at position `k` of the stack, reads as another
/// with a root renamed: its name is the renamed one, and what it refers to is.
pub open spec fn reads_as(
    frame: FrameView,
    other: FrameView,
    k: int,
    old_root: Seq<char>,
    new_root: Seq<char>,
) -> bool {
    &&& root_refs(other.nodes, k > 0) == renamed_roots(
        root_refs(frame.nodes, k > 0),
        old_root,
        new_root,
    )
    &&& match (frame.header, other.header) {
        (None, None) => true,
        (Some((path, _, name)), Some((new_path, _, new_name))) => {
            &&& new_name == reread_name(name, old_root, new_root, k <= 1)
            &&& as_seq(root_ref(new_path, k > 1)) == renamed_roots(
                as_seq(root_ref(path, k > 1)),
                old_root,
                new_root,
            )
        },
        _ => false,
    }
}

/// Whether all open sections read as others with a root renamed.
pub open spec fn read_as(
    stack: Seq<FrameView>,
    others: Seq<FrameView>,
    old_root: Seq<char>,
    new_root: Seq<char>,
) -> bool {
    &&& others.len() == stack.len()
    &&& forall|k: int|
        0 <= k < stack.len() ==> reads_as(#[trigger] stack[k], others[k], k, old_root, new_root)
}

/// What one more node refers to comes after what the others refer to.
proof fn lemma_refs_of_one_more(nodes: Seq<NodeView>, node: NodeView, in_section: bool)
    ensures
        root_refs(nodes.push(node), in_section) == root_refs(nodes, in_section) + root_refs(
            seq![node],
            in_section,
        ),
{
    assert(nodes.push(node).drop_last() =~= nodes);
    assert(seq![node].drop_last() =~= Seq::empty());
    assert(root_refs(seq![node].drop_last(), in_section) =~= Seq::empty());
    assert(root_refs(seq![node], in_section) =~= match node {
        NodeView::Text(_) => Seq::empty(),
        NodeView::Var(path) => as_seq(root_ref(path, in_section)),
        NodeView::Section { path, body, .. } => as_seq(root_ref(path, in_section)) + root_refs(
            body,
            true,
        ),
    });
}

proof fn lemma_read_with_node(
    stack: Seq<FrameView>,
    others: Seq<FrameView>,
    node: NodeView,
    other: NodeView,
    old_root: Seq<char>,
    new_root: Seq<char>,
)
    requires
        stack.len() > 0,
        read_as(stack, others, old_root, new_root),
        root_refs(seq![other], stack.len() > 1) == renamed_roots(
            root_refs(seq![node], stack.len() > 1),
            old_root,
            new_root,
        ),
    ensures
        read_as(with_node(stack, node), with_node(others, other), old_root, new_root),
{
    let k = stack.len() - 1;
    let top = stack[k];
    let new_top = others[k];
    assert(reads_as(top, new_top, k, old_root, new_root));
    lemma_refs_of_one_more(top.nodes, node, k > 0);
    lemma_refs_of_one_more(new_top.nodes, other, k > 0);
    lemma_renamed_roots(
        root_refs(top.nodes, k > 0),
        root_refs(seq![node], k > 0),
        old_root,
        new_root,
    );
    let a = with_node(stack, node);
    let b = with_node(others, other);
    assert forall|j: int| 0 <= j < a.len() implies reads_as(
        #[trigger] a[j],
        b[j],
        j,
        old_root,
        new_root,
    ) by {
        if j < k {
            assert(a[j] == stack[j] && b[j] == others[j]);
        }
    }
}

/// Text refers to nothing, so any will do.
proof fn lemma_read_with_text(
    stack: Seq<FrameView>,
    others: Seq<FrameView>,
    text: Seq<char>,
    other: Seq<char>,
    old_root: Seq<char>,
    new_root: Seq<char>,
)
    requires
        stack.len() > 0,
        read_as(stack, others, old_root, new_root),
    ensures
        read_as(with_text(stack, text), with_text(others, other), old_root, new_root),
        with_text(stack, text).len() == stack.len(),
        rooted(stack) ==> rooted(with_text(stack, text)),
{
    let k = stack.len() - 1;
    let a = with_text(stack, text);
    let b = with_text(others, other);
    assert(reads_as(stack[k], others[k], k, old_root, new_root));
    lemma_text_refers_to_nothing(stack[k].nodes, text, k > 0);
    lemma_text_refers_to_nothing(others[k].nodes, other, k > 0);
    assert forall|j: int| 0 <= j < a.len() implies reads_as(
        #[trigger] a[j],
        b[j],
        j,
        old_root,
        new_root,
    ) by {
        if j < k {
            assert(a[j] == stack[j] && b[j] == others[j]);
        }
    }
}

proof fn lemma_text_refers_to_nothing(nodes: Seq<NodeView>, text: Seq<char>, in_section: bool)
    ensures
        root_refs(nodes.push(NodeView::Text(text)), in_section) == root_refs(nodes, in_section),
{
    let more = nodes.push(NodeView::Text(text));
    assert(more.drop_last() =~= nodes);
    assert(root_refs(more, in_section) =~= root_refs(nodes, in_section));
}

/// A renamed tag does to the sections that are read what the tag does to those
/// that were written.
proof fn lemma_read_with_tag(
    stack: Seq<FrameView>,
    others: Seq<FrameView>,
    raw: Seq<char>,
    old_root: Seq<char>,
    new_root: Seq<char>,
    here: nat,
)
    requires
        rooted(stack),
        read_as(stack, others, old_root, new_root),
        is_root_name(old_root),
        is_root_name(new_root),
        with_tag(stack, trimmed(raw)) is Ok,
        here == (if closes(trimmed(raw)) {
            stack.len() - 2
        } else {
            stack.len() - 1
        }),
        ({
            let name = tag_path(trimmed(raw));
            refers_to(name, old_root, here == 0) && name.last() == '}' ==> path_of(
                without_brace(name),
            ) is Ok
        }),
    ensures
        ({
            let next = with_tag(stack, trimmed(raw))->Ok_0;
            let read = with_tag(others, reread_tag(raw, old_root, new_root, here == 0));
            &&& rooted(next)
            &&& next.len() == here + 1 + (if opens(trimmed(raw)) {
                1int
            } else {
                0
            })
            &&& read is Ok
            &&& read_as(next, read->Ok_0, old_root, new_root)
        }),
{
    let tag = trimmed(raw);
    let at_root = here == 0;
    let name = tag_path(tag);
    let new_name = reread_name(name, old_root, new_root, at_root);
    let new_tag = reread_tag(raw, old_root, new_root, at_root);
    let next = with_tag(stack, tag)->Ok_0;
    lemma_tag_path(raw);
    lemma_reread_tag(raw, old_root, new_root, at_root);
    if opens(tag) {
        assert(trimmed(tag.skip(1)) == name);
        lemma_reread_path(name, old_root, new_root, at_root);
        let read = with_tag(others, new_tag)->Ok_0;
        let k = stack.len() as int;
        assert(renamed_roots(root_refs(next[k].nodes, true), old_root, new_root)
            =~= root_refs(read[k].nodes, true));
        assert forall|j: int| 0 <= j < next.len() implies reads_as(
            #[trigger] next[j],
            read[j],
            j,
            old_root,
            new_root,
        ) by {
            if j < k {
                assert(next[j] == stack[j] && read[j] == others[j]);
            }
        }
    } else if closes(tag) {
        assert(trimmed(tag.skip(1)) == name);
        let k = stack.len() - 1;
        assert(stack[k].header is Some);
        assert(reads_as(stack[k], others[k], k, old_root, new_root));
        let (path, inverted, open_name) = stack[k].header->0;
        let (new_path, new_inverted, new_open) = others[k].header->0;
        let node = NodeView::Section { path, inverted, body: stack[k].nodes };
        let other = NodeView::Section {
            path: new_path,
            inverted: new_inverted,
            body: others[k].nodes,
        };
        let in_section = k > 1;
        lemma_section_refs(node, in_section);
        lemma_section_refs(other, in_section);
        lemma_renamed_roots(
            as_seq(root_ref(path, in_section)),
            root_refs(stack[k].nodes, true),
            old_root,
            new_root,
        );
        assert forall|j: int| 0 <= j < k implies reads_as(
            #[trigger] stack.drop_last()[j],
            others.drop_last()[j],
            j,
            old_root,
            new_root,
        ) by {
            assert(reads_as(stack[j], others[j], j, old_root, new_root));
        }
        lemma_read_with_node(
            stack.drop_last(),
            others.drop_last(),
            node,
            other,
            old_root,
            new_root,
        );
    } else {
        lemma_reread_path(name, old_root, new_root, at_root);
        let node = NodeView::Var(path_of(tag)->Ok_0);
        let other = NodeView::Var(path_of(new_tag)->Ok_0);
        lemma_var_refs(node, !at_root);
        lemma_var_refs(other, !at_root);
        lemma_read_with_node(stack, others, node, other, old_root, new_root);
    }
}

proof fn lemma_section_refs(node: NodeView, in_section: bool)
    requires
        node is Section,
    ensures
        root_refs(seq![node], in_section) == as_seq(root_ref(node->path, in_section)) + root_refs(
            node->body,
            true,
        ),
{
    assert(seq![node].drop_last() =~= Seq::empty());
    assert(root_refs(seq![node].drop_last(), in_section) =~= Seq::empty());
    assert(root_refs(seq![node], in_section) =~= as_seq(root_ref(node->path, in_section))
        + root_refs(node->body, true));
}

proof fn lemma_var_refs(node: NodeView, in_section: bool)
    requires
        node is Var,
    ensures
        root_refs(seq![node], in_section) == as_seq(root_ref(node->Var_0, in_section)),
{
    assert(seq![node].drop_last() =~= Seq::empty());
    assert(root_refs(seq![node].drop_last(), in_section) =~= Seq::empty());
    assert(root_refs(seq![node], in_section) =~= as_seq(root_ref(node->Var_0, in_section)));
}

/// Whether every tag that is renamed and ends in a brace carries a path without
/// that brace, too. A tag whose last part is a lone brace, such as `{{old.} }}`,
/// does not.
pub open spec fn stays_readable(
    s: Seq<char>,
    i: int,
    depth: nat,
    old_root: Seq<char>,
    new_root: Seq<char>,
) -> bool
    decreases s.len() - i,
{
    proof {
        lemma_tag_bounds(s, i);
    }
    match find_from(s, "{{"@, i) {
        None => true,
        Some(open) => match find_from(s, "}}"@, open + 2) {
            None => true,
            Some(close) => {
                let tag = trimmed(s.subrange(open + 2, close));
                let name = tag_path(tag);
                let here: nat = if closes(tag) && depth > 0 { (depth - 1) as nat } else { depth };
                let after: nat = if opens(tag) { here + 1 } else { here };
                (refers_to(name, old_root, here == 0) && name.last() == '}' ==> path_of(
                    without_brace(name),
                ) is Ok) && stays_readable(s, close + 2, after, old_root, new_root)
            },
        },
    }
}

/// A brace in front of a text opens no tag.
proof fn lemma_find_behind_brace(front: Seq<char>, u: Seq<char>)
    requires
        front == Seq::<char>::empty() || front == seq!['}'],
    ensures
        find_from(front + u, "{{"@, 0) == (match find_from(u, "{{"@, 0) {
            Some(k) => Some(front.len() + k),
            None => None::<int>,
        }),
{
    reveal_strlit("{{");
    let w = front + u;
    lemma_find_shift(front, u, "{{"@, 0);
    if front.len() > 0 {
        if w.len() >= 2 {
            assert(w.subrange(0, 2)[0] == '}');
            assert("{{"@[0] == '{');
        } else {
            assert(u =~= Seq::empty());
        }
    }
}

/// The part of a renamed tag that stands before the braces that close it.
pub open spec fn written_part(
    raw: Seq<char>,
    old_root: Seq<char>,
    new_root: Seq<char>,
    at_root: bool,
) -> Seq<char> {
    match renamed_tag(raw, old_root, new_root, at_root) {
        Some(t) => closed_part(t),
        None => raw,
    }
}

/// What a renamed tag leaves to the text behind it.
pub open spec fn left_over(
    raw: Seq<char>,
    old_root: Seq<char>,
    new_root: Seq<char>,
    at_root: bool,
) -> Seq<char> {
    match renamed_tag(raw, old_root, new_root, at_root) {
        Some(t) => if t.len() > 0 && t.last() == '}' {
            seq!['}']
        } else {
            Seq::empty()
        },
        None => Seq::empty(),
    }
}

/// A renamed tag closes where its written part ends.
proof fn lemma_closes_behind(
    s: Seq<char>,
    open: int,
    close: int,
    w: Seq<char>,
    o: int,
    old_root: Seq<char>,
    new_root: Seq<char>,
    at_root: bool,
)
    requires
        0 <= open,
        0 <= o,
        find_from(s, "}}"@, open + 2) == Some(close),
        is_root_name(old_root),
        is_root_name(new_root),
        ({
            let part = written_part(s.subrange(open + 2, close), old_root, new_root, at_root);
            &&& w.len() >= o + 4 + part.len()
            &&& w.subrange(o + 2, o + 4 + part.len()) == part + "}}"@
        }),
    ensures
        find_from(w, "}}"@, o + 2) == Some(
            o + 2 + written_part(s.subrange(open + 2, close), old_root, new_root, at_root).len(),
        ),
{
    reveal_strlit("}}");
    lemma_find_bounds(s, "}}"@, open + 2);
    let raw = s.subrange(open + 2, close);
    let whole = match renamed_tag(raw, old_root, new_root, at_root) {
        Some(t) => t,
        None => raw,
    };
    let part = written_part(raw, old_root, new_root, at_root);
    let n = part.len() as int;
    let here = w.subrange(o + 2, o + 4 + n);
    assert forall|j: int| o + 2 <= j < o + 2 + n implies #[trigger] w.subrange(j, j + 2)
        != "}}"@ by {
        let k = j - o - 2;
        assert(w[j] == here[k] && w[j + 1] == here[k + 1]);
        assert(here[k] == part[k] && part[k] == whole[k]);
        if w.subrange(j, j + 2) == "}}"@ {
            assert(w.subrange(j, j + 2)[0] == '}' && w.subrange(j, j + 2)[1] == '}');
            lemma_no_double_brace(s, open, close, raw, old_root, new_root, at_root, whole, k);
            if k + 1 < n {
                assert(here[k + 1] == part[k + 1] && part[k + 1] == whole[k + 1]);
            } else if k + 1 < whole.len() {
                assert(whole[k + 1] == '}');
            } else {
                assert(whole.last() == '}');
            }
        }
    }
    assert(w.subrange(o + 2 + n, o + 4 + n) =~= "}}"@) by {
        assert(here[n] == '}' && here[n + 1] == '}');
        assert(w[o + 2 + n] == here[n] && w[o + 3 + n] == here[n + 1]);
    }
    lemma_find_at(w, "}}"@, o + 2, o + 2 + n);
}

/// A renamed tag is written as its part between braces, and what is left over.
proof fn lemma_written_as(
    s: Seq<char>,
    open: int,
    close: int,
    old_root: Seq<char>,
    new_root: Seq<char>,
    at_root: bool,
)
    requires
        0 <= open,
        open + 2 <= close,
        close + 2 <= s.len(),
        s.subrange(open, open + 2) == "{{"@,
        s.subrange(close, close + 2) == "}}"@,
    ensures
        ({
            let raw = s.subrange(open + 2, close);
            let part = written_part(raw, old_root, new_root, at_root);
            let over = left_over(raw, old_root, new_root, at_root);
            "{{"@ + part + "}}"@ + over == (match renamed_tag(raw, old_root, new_root, at_root) {
                Some(t) => "{{"@ + t + "}}"@,
                None => s.subrange(open, close + 2),
            })
        }),
{
    reveal_strlit("{{");
    reveal_strlit("}}");
    let raw = s.subrange(open + 2, close);
    let part = written_part(raw, old_root, new_root, at_root);
    let over = left_over(raw, old_root, new_root, at_root);
    match renamed_tag(raw, old_root, new_root, at_root) {
        Some(t) => {
            assert("{{"@ + t + "}}"@ =~= "{{"@ + part + "}}"@ + over);
        },
        None => {
            assert(s.subrange(open, close + 2) =~= s.subrange(open, open + 2) + raw + s.subrange(
                close,
                close + 2,
            ));
            assert("{{"@ + part + "}}"@ + over =~= "{{"@ + part + "}}"@);
        },
    }
}

/// How a text with a tag in it is laid out.
proof fn lemma_layout(
    front: Seq<char>,
    text: Seq<char>,
    a: Seq<char>,
    part: Seq<char>,
    c: Seq<char>,
    over: Seq<char>,
    rest: Seq<char>,
)
    requires
        a.len() == 2,
        c.len() == 2,
    ensures
        ({
            let u = text + (a + part + c + over) + rest;
            let w = front + u;
            let f = (front.len() + text.len()) as int;
            let n = part.len() as int;
            &&& w == (front + text + a + part + c) + (over + rest)
            &&& u.take(text.len() as int + 2) == text + a
            &&& w.subrange(f + 2, f + 4 + n) == part + c
            &&& w.subrange(f + 2, f + 2 + n) == part
        }),
{
    let u = text + (a + part + c + over) + rest;
    let w = front + u;
    let f = (front.len() + text.len()) as int;
    let n = part.len() as int;
    assert(w =~= (front + text + a + part + c) + (over + rest));
    assert(u.take(text.len() as int + 2) =~= text + a);
    assert(w.subrange(f + 2, f + 4 + n) =~= part + c);
    assert(w.subrange(f + 2, f + 2 + n) =~= part);
}

/// Reading on behind the first tag of a text.
proof fn lemma_reads_on(
    w: Seq<char>,
    stack: Seq<FrameView>,
    o: int,
    c: int,
    head: Seq<char>,
    tail: Seq<char>,
)
    requires
        find_from(w, "{{"@, 0) == Some(o),
        find_from(w, "}}"@, o + 2) == Some(c),
        w == head + tail,
        head.len() == c + 2,
        with_tag(
            with_text(stack, w.subrange(0, o)),
            trimmed(w.subrange(o + 2, c)),
        ) is Ok,
    ensures
        parse_from(w, 0, stack) == parse_from(
            tail,
            0,
            with_tag(
                with_text(stack, w.subrange(0, o)),
                trimmed(w.subrange(o + 2, c)),
            )->Ok_0,
        ),
{
    let next = with_tag(
        with_text(stack, w.subrange(0, o)),
        trimmed(w.subrange(o + 2, c)),
    )->Ok_0;
    lemma_tag_bounds(w, 0);
    lemma_parse_shift(head, tail, 0, next);
}

/// A text without tags refers to nothing, renamed or not.
proof fn lemma_rest_reads(
    s: Seq<char>,
    i: int,
    stack: Seq<FrameView>,
    others: Seq<FrameView>,
    old_root: Seq<char>,
    new_root: Seq<char>,
    front: Seq<char>,
)
    requires
        0 <= i <= s.len(),
        rooted(stack),
        read_as(stack, others, old_root, new_root),
        front == Seq::<char>::empty() || front == seq!['}'],
        parse_from(s, i, stack) is Ok,
        find_from(s, "{{"@, i) is None,
    ensures
        ({
            let w = front + s.subrange(i, s.len() as int);
            let read = parse_from(w, 0, others);
            &&& read is Ok
            &&& root_refs(read->Ok_0, false) == renamed_roots(
                root_refs(parse_from(s, i, stack)->Ok_0, false),
                old_root,
                new_root,
            )
        }),
{
    let text = s.subrange(i, s.len() as int);
    let w = front + text;
    lemma_find_shift(s.take(i), text, "{{"@, 0);
    assert(s.take(i) + text =~= s);
    lemma_find_behind_brace(front, text);
    let new_text = w.subrange(0, w.len() as int);
    lemma_read_with_text(stack, others, text, new_text, old_root, new_root);
    let done = with_text(stack, text);
    let read = with_text(others, new_text);
    assert(done.last().header is None);
    assert(done.len() == 1);
    assert(reads_as(done[0], read[0], 0, old_root, new_root));
}

/// The first tag of a renamed text, and what comes after it.
proof fn lemma_first_reread_tag(
    s: Seq<char>,
    i: int,
    depth: nat,
    old_root: Seq<char>,
    new_root: Seq<char>,
    front: Seq<char>,
    open: int,
    close: int,
    here: nat,
    after: nat,
) -> (head: Seq<char>)
    requires
        0 <= i <= s.len(),
        is_root_name(old_root),
        is_root_name(new_root),
        front == Seq::<char>::empty() || front == seq!['}'],
        find_from(s, "{{"@, i) == Some(open),
        find_from(s, "}}"@, open + 2) == Some(close),
        ({
            let tag = trimmed(s.subrange(open + 2, close));
            &&& here == (if closes(tag) && depth > 0 {
                (depth - 1) as nat
            } else {
                depth
            })
            &&& after == (if opens(tag) {
                here + 1
            } else {
                here
            })
        }),
    ensures
        ({
            let raw = s.subrange(open + 2, close);
            let part = written_part(raw, old_root, new_root, here == 0);
            let w = front + renamed_from(s, i, depth, old_root, new_root);
            let o = front.len() + open - i;
            let c = o + 2 + part.len();
            &&& w == head + (left_over(raw, old_root, new_root, here == 0) + renamed_from(
                s,
                close + 2,
                after,
                old_root,
                new_root,
            ))
            &&& head.len() == c + 2
            &&& find_from(w, "{{"@, 0) == Some(o)
            &&& find_from(w, "}}"@, o + 2) == Some(c)
            &&& w.subrange(o + 2, c) == part
        }),
{
    reveal_strlit("{{");
    reveal_strlit("}}");
    lemma_tag_bounds(s, i);
    lemma_find_bounds(s, "{{"@, i);
    lemma_find_bounds(s, "}}"@, open + 2);
    let at_root = here == 0;
    let u = renamed_from(s, i, depth, old_root, new_root);
    let w = front + u;
    let raw = s.subrange(open + 2, close);
    let text = s.subrange(i, open);
    let part = written_part(raw, old_root, new_root, at_root);
    let over = left_over(raw, old_root, new_root, at_root);
    let rest = renamed_from(s, close + 2, after, old_root, new_root);
    let head = front + text + "{{"@ + part + "}}"@;
    assert(s.subrange(open, open + 2) == "{{"@);
    assert(s.subrange(close, close + 2) == "}}"@);
    lemma_written_as(s, open, close, old_root, new_root, at_root);
    assert(u == text + ("{{"@ + part + "}}"@ + over) + rest);
    lemma_layout(front, text, "{{"@, part, "}}"@, over, rest);
    lemma_opens_at(s, i, open, u);
    lemma_find_behind_brace(front, u);
    let o = front.len() + open - i;
    lemma_closes_behind(s, open, close, w, o, old_root, new_root, at_root);
    head
}

proof fn lemma_renamed_reads(
    s: Seq<char>,
    i: int,
    stack: Seq<FrameView>,
    others: Seq<FrameView>,
    old_root: Seq<char>,
    new_root: Seq<char>,
    front: Seq<char>,
)
    requires
        0 <= i <= s.len(),
        rooted(stack),
        read_as(stack, others, old_root, new_root),
        is_root_name(old_root),
        is_root_name(new_root),
        front == Seq::<char>::empty() || front == seq!['}'],
        parse_from(s, i, stack) is Ok,
        stays_readable(s, i, (stack.len() - 1) as nat, old_root, new_root),
    ensures
        ({
            let w = front + renamed_from(s, i, (stack.len() - 1) as nat, old_root, new_root);
            let read = parse_from(w, 0, others);
            &&& read is Ok
            &&& root_refs(read->Ok_0, false) == renamed_roots(
                root_refs(parse_from(s, i, stack)->Ok_0, false),
                old_root,
                new_root,
            )
        }),
    decreases s.len() - i,
{
    let depth = (stack.len() - 1) as nat;
    let w = front + renamed_from(s, i, depth, old_root, new_root);
    lemma_tag_bounds(s, i);
    match find_from(s, "{{"@, i) {
        None => {
            lemma_rest_reads(s, i, stack, others, old_root, new_root, front);
        },
        Some(open) => {
            let close = find_from(s, "}}"@, open + 2)->0;
            let raw = s.subrange(open + 2, close);
            let tag = trimmed(raw);
            let text = s.subrange(i, open);
            let before = with_text(stack, text);
            let here: nat = if closes(tag) && depth > 0 { (depth - 1) as nat } else { depth };
            let after: nat = if opens(tag) { here + 1 } else { here };
            let head = lemma_first_reread_tag(
                s,
                i,
                depth,
                old_root,
                new_root,
                front,
                open,
                close,
                here,
                after,
            );
            let o = front.len() + open - i;
            let new_text = w.subrange(0, o);
            let new_before = with_text(others, new_text);
            lemma_read_with_text(stack, others, text, new_text, old_root, new_root);
            let next = with_tag(before, tag)->Ok_0;
            assert(closes(tag) ==> depth > 0) by {
                if closes(tag) && depth == 0 {
                    assert(before.last().header is None);
                }
            }
            lemma_read_with_tag(before, new_before, raw, old_root, new_root, here);
            let read = with_tag(
                new_before,
                reread_tag(raw, old_root, new_root, here == 0),
            )->Ok_0;
            let over = left_over(raw, old_root, new_root, here == 0);
            let rest = renamed_from(s, close + 2, after, old_root, new_root);
            let c = o + 2 + written_part(raw, old_root, new_root, here == 0).len();
            lemma_reads_on(w, others, o, c, head, over + rest);
            lemma_renamed_reads(s, close + 2, next, read, old_root, new_root, over);
        },
    }
}

/// Names that are renamed and listed once each are the names listed once each,
/// renamed, without the repetitions that this leaves.
proof fn lemma_distinct_renamed(
    names: Seq<Seq<char>>,
    old_root: Seq<char>,
    new_root: Seq<char>,
)
    ensures
        distinct(renamed_roots(names, old_root, new_root)) == distinct(
            renamed_roots(distinct(names), old_root, new_root),
        ),
    decreases names.len(),
{
    let none = Seq::<Seq<char>>::empty();
    let all = renamed_roots(names, old_root, new_root);
    let once = distinct(names);
    if names.len() == 0 {
        assert(all =~= none);
        assert(renamed_roots(once, old_root, new_root) =~= none);
    } else {
        let name = names.last();
        let front = names.drop_last();
        let before = distinct(front);
        let added = renamed_root(name, old_root, new_root);
        lemma_distinct_renamed(front, old_root, new_root);
        assert(all.drop_last() =~= renamed_roots(front, old_root, new_root));
        let kept = renamed_roots(before, old_root, new_root);
        if before.contains(name) {
            let k = choose|k: int| 0 <= k < before.len() && before[k] == name;
            assert(kept[k] == added);
            lemma_adding_new_contains(none, kept, added);
        } else {
            assert(renamed_roots(before.push(name), old_root, new_root) =~= kept.push(added));
            assert(kept.push(added).drop_last() =~= kept);
        }
    }
}

/// A template in which a root is renamed reads, and refers to the roots that it
/// referred to, the new one in the place of the old. Left out are tags that read
/// as nothing without the brace that ends them, such as `{{old.} }}`, which is
/// written anew as `{{new.}}}`.
pub proof fn renaming_renames_the_roots(t: Seq<char>, old_root: Seq<char>, new_root: Seq<char>)
    requires
        is_root_name(old_root),
        is_root_name(new_root),
        parsed(t) is Ok,
        stays_readable(t, 0, 0, old_root, new_root),
    ensures
        parsed(renamed(t, old_root, new_root)) is Ok,
        root_refs(parsed(renamed(t, old_root, new_root))->Ok_0, false) == renamed_roots(
            root_refs(parsed(t)->Ok_0, false),
            old_root,
            new_root,
        ),
        roots_of(renamed(t, old_root, new_root)) == Ok::<Seq<Seq<char>>, RenderErrorView>(
            distinct(renamed_roots(roots_of(t)->Ok_0, old_root, new_root)),
        ),
{
    let bottom = seq![FrameView { header: None, nodes: Seq::empty() }];
    let none = Seq::<char>::empty();
    assert(renamed_roots(root_refs(bottom[0].nodes, false), old_root, new_root) =~= root_refs(
        bottom[0].nodes,
        false,
    ));
    lemma_renamed_reads(t, 0, bottom, bottom, old_root, new_root, none);
    assert(none + renamed(t, old_root, new_root) =~= renamed(t, old_root, new_root));
    lemma_distinct_renamed(root_refs(parsed(t)->Ok_0, false), old_root, new_root);
}

} // verus!
