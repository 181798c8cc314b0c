//! Renaming a root keeps a template's references: what referred to the old root
//! refers to the new one, and nothing else changes.

use crate::pipeline::plan::{is_identifier, is_word};
use crate::seqs::collected;
use crate::template::laws::{lemma_split_first, lemma_trimmed};
use crate::template::parser::{
    lemma_find_bounds, lemma_tag_bounds, parse_from, parsed, path_of, rooted, seg_of, seg_readings,
    with_node, with_tag, with_text, FrameView, NodeView, PathView, SegView,
};
use crate::template::{
    closes, opens, renamed, renamed_from, renamed_tag, root_ref, root_refs, tag_path, tag_sigil,
    RenderErrorView,
};
use crate::text::{find_from, is_digit, is_space, split, split_from, trim_start, trimmed};
use vstd::prelude::*;

verus! {

// ── What renaming means ──────────────────────────────────────────────────

/// Whether a name can be a step's: an identifier that is no segment of its own.
pub open spec fn is_root_name(name: Seq<char>) -> bool {
    is_identifier(name) && name != "length"@
}

/// A path with its root renamed. Inside a section a bare name reads the item
/// first, so it stays.
pub open spec fn renamed_path(
    path: PathView,
    old_root: Seq<char>,
    new_root: Seq<char>,
    in_section: bool,
) -> PathView {
    if root_ref(path, in_section) == Some(old_root) {
        PathView::Data(path->Data_0.update(0, SegView::Key(new_root)))
    } else {
        path
    }
}

/// A node with a root renamed everywhere in it.
pub open spec fn renamed_node(
    node: NodeView,
    old_root: Seq<char>,
    new_root: Seq<char>,
    in_section: bool,
) -> NodeView
    decreases node,
{
    match node {
        NodeView::Text(t) => NodeView::Text(t),
        NodeView::Var(path) => NodeView::Var(renamed_path(path, old_root, new_root, in_section)),
        NodeView::Section { path, inverted, body } => NodeView::Section {
            path: renamed_path(path, old_root, new_root, in_section),
            inverted,
            body: Seq::new(
                body.len(),
                |i: int|
                    if 0 <= i < body.len() {
                        renamed_node(body[i], old_root, new_root, true)
                    } else {
                        NodeView::Text(Seq::empty())
                    },
            ),
        },
    }
}

/// Nodes with a root renamed everywhere in them.
pub open spec fn renamed_nodes(
    nodes: Seq<NodeView>,
    old_root: Seq<char>,
    new_root: Seq<char>,
    in_section: bool,
) -> Seq<NodeView> {
    Seq::new(nodes.len(), |i: int| renamed_node(nodes[i], old_root, new_root, in_section))
}

/// A name with the old root taken for the new one.
pub open spec fn renamed_root(
    name: Seq<char>,
    old_root: Seq<char>,
    new_root: Seq<char>,
) -> Seq<char> {
    if name == old_root {
        new_root
    } else {
        name
    }
}

/// Whether no tag that is to be renamed ends in a brace, which would run into
/// the ones that close it.
pub open spec fn ends_apart(
    s: Seq<char>,
    i: int,
    depth: nat,
    old_root: Seq<char>,
    new_root: Seq<char>,
) -> bool
    decreases s.len() - i,
{
    proof {
        lemma_tag_bounds(s, i);
    }
    match find_from(s, "{{"@, i) {
        None => true,
        Some(open) => match find_from(s, "}}"@, open + 2) {
            None => true,
            Some(close) => {
                let raw = s.subrange(open + 2, close);
                let tag = trimmed(raw);
                let here: nat = if closes(tag) && depth > 0 { (depth - 1) as nat } else { depth };
                let after: nat = if opens(tag) { here + 1 } else { here };
                (renamed_tag(raw, old_root, new_root, here == 0) is Some ==> tag.last() != '}')
                    && ends_apart(s, close + 2, after, old_root, new_root)
            },
        },
    }
}

// ── Finding ──────────────────────────────────────────────────────────────

/// What is found depends only on the text up to there.
pub proof fn lemma_find_prefix(s: Seq<char>, u: Seq<char>, pat: Seq<char>, i: int, k: int)
    requires
        find_from(s, pat, i) == Some(k),
        k + pat.len() <= u.len(),
        u.take(k + pat.len()) == s.take(k + pat.len()),
    ensures
        find_from(u, pat, i) == Some(k),
    decreases k - i,
{
    lemma_find_bounds(s, pat, i);
    assert(s.subrange(i, i + pat.len()) =~= s.take(k + pat.len()).subrange(i, i + pat.len()));
    assert(u.subrange(i, i + pat.len()) =~= u.take(k + pat.len()).subrange(i, i + pat.len()));
    if s.subrange(i, i + pat.len()) != pat {
        lemma_find_prefix(s, u, pat, i + 1, k);
    }
}

/// A pattern stands first where it stands and nowhere before.
pub proof fn lemma_find_at(s: Seq<char>, pat: Seq<char>, i: int, k: int)
    requires
        0 <= i <= k,
        k + pat.len() <= s.len(),
        s.subrange(k, k + pat.len()) == pat,
        forall|j: int| i <= j < k ==> #[trigger] s.subrange(j, j + pat.len()) != pat,
    ensures
        find_from(s, pat, i) == Some(k),
    decreases k - i,
{
    if i < k {
        assert(s.subrange(i, i + pat.len()) != pat);
        lemma_find_at(s, pat, i + 1, k);
    }
}

/// Nowhere before the place found does a pattern stand.
pub proof fn lemma_nothing_before(s: Seq<char>, pat: Seq<char>, i: int, k: int, j: int)
    requires
        find_from(s, pat, i) == Some(k),
        i <= j < k,
    ensures
        s.subrange(j, j + pat.len()) != pat,
    decreases j - i,
{
    if i < j {
        lemma_nothing_before(s, pat, i + 1, k, j);
    }
}

/// Where nothing is found, the pattern stands nowhere.
pub proof fn lemma_nothing_at_all(s: Seq<char>, pat: Seq<char>, i: int, j: int)
    requires
        find_from(s, pat, i) is None,
        0 <= i <= j,
        j + pat.len() <= s.len(),
    ensures
        s.subrange(j, j + pat.len()) != pat,
    decreases j - i,
{
    if i < j {
        lemma_nothing_at_all(s, pat, i + 1, j);
    }
}

/// Finding does not depend on the text before the start.
pub proof fn lemma_find_shift(pre: Seq<char>, w: Seq<char>, pat: Seq<char>, i: int)
    requires
        0 <= i,
    ensures
        find_from(pre + w, pat, pre.len() + i) == (match find_from(w, pat, i) {
            Some(k) => Some(pre.len() + k),
            None => None,
        }),
    decreases w.len() + 1 - i,
{
    if i + pat.len() <= w.len() {
        assert((pre + w).subrange(pre.len() + i, pre.len() + i + pat.len()) =~= w.subrange(
            i,
            i + pat.len(),
        ));
        lemma_find_shift(pre, w, pat, i + 1);
    }
}

/// Parsing does not depend on the text before the start.
pub proof fn lemma_parse_shift(pre: Seq<char>, w: Seq<char>, i: int, stack: Seq<FrameView>)
    requires
        0 <= i <= w.len(),
    ensures
        parse_from(pre + w, pre.len() + i, stack) == parse_from(w, i, stack),
    decreases w.len() - i,
{
    let s = pre + w;
    let n = pre.len() as int;
    reveal_strlit("{{");
    reveal_strlit("}}");
    lemma_tag_bounds(w, i);
    lemma_tag_bounds(s, n + i);
    lemma_find_shift(pre, w, "{{"@, i);
    match find_from(w, "{{"@, i) {
        None => {
            assert(s.subrange(n + i, s.len() as int) =~= w.subrange(i, w.len() as int));
        },
        Some(open) => {
            lemma_find_shift(pre, w, "}}"@, open + 2);
            assert(s.subrange(n + i, n + open) =~= w.subrange(i, open));
            if let Some(close) = find_from(w, "}}"@, open + 2) {
                assert(s.subrange(n + open + 2, n + close) =~= w.subrange(open + 2, close));
                if let Ok(next) = with_tag(
                    with_text(stack, w.subrange(i, open)),
                    trimmed(w.subrange(open + 2, close)),
                ) {
                    lemma_parse_shift(pre, w, close + 2, next);
                }
            }
        },
    }
}

// ── Paths ────────────────────────────────────────────────────────────────

/// Pieces do not depend on the text before them.
proof fn lemma_split_shift(s: Seq<char>, sep: char, k: int, start: int, from: int)
    requires
        0 <= k <= start <= from <= s.len(),
    ensures
        split_from(s, sep, start, from) == split_from(s.skip(k), sep, start - k, from - k),
    decreases s.len() - from,
{
    let t = s.skip(k);
    assert(s.subrange(start, s.len() as int) =~= t.subrange(start - k, t.len() as int));
    if from < s.len() {
        assert(t[from - k] == s[from]);
        assert(s.subrange(start, from) =~= t.subrange(start - k, from - k));
        if s[from] == sep {
            lemma_split_shift(s, sep, k, from + 1, from + 1);
        } else {
            lemma_split_shift(s, sep, k, start, from + 1);
        }
    }
}

/// The pieces of a text are what stands before the first separator and the
/// pieces of what stands behind it.
pub proof fn lemma_split_at(s: Seq<char>, sep: char, d: int, from: int)
    requires
        0 <= from <= d < s.len(),
        s[d] == sep,
        forall|i: int| 0 <= i < d ==> s[i] != sep,
    ensures
        split_from(s, sep, 0, from) == seq![s.take(d)] + split(s.skip(d + 1), sep),
    decreases d - from,
{
    if from < d {
        lemma_split_at(s, sep, d, from + 1);
    } else {
        lemma_split_shift(s, sep, d + 1, d + 1, d + 1);
        assert(s.subrange(0, d) =~= s.take(d));
    }
}

/// A text without the separator is one piece.
pub proof fn lemma_split_whole(s: Seq<char>, sep: char, from: int)
    requires
        0 <= from <= s.len(),
        forall|i: int| 0 <= i < s.len() ==> s[i] != sep,
    ensures
        split_from(s, sep, 0, from) == seq![s],
    decreases s.len() - from,
{
    if from < s.len() {
        lemma_split_whole(s, sep, from + 1);
    } else {
        assert(s.subrange(0, s.len() as int) =~= s);
    }
}

/// Where all results are collected, each is one of them.
pub proof fn lemma_collected_each<A, E>(s: Seq<Result<A, E>>)
    ensures
        collected(s) matches Ok(v) ==> v.len() == s.len() && forall|i: int|
            0 <= i < s.len() ==> #[trigger] s[i] == Ok::<A, E>(v[i]),
    decreases s.len(),
{
    if s.len() > 0 {
        let front = s.drop_last();
        lemma_collected_each(front);
        if let Ok(v) = collected(s) {
            assert forall|i: int| 0 <= i < s.len() implies #[trigger] s[i] == Ok::<A, E>(v[i]) by {
                if i < front.len() {
                    assert(front[i] == s[i]);
                }
            }
        }
    }
}

/// Results that are all good are collected.
pub proof fn lemma_collected_all<A, E>(s: Seq<Result<A, E>>, v: Seq<A>)
    requires
        v.len() == s.len(),
        forall|i: int| 0 <= i < s.len() ==> #[trigger] s[i] == Ok::<A, E>(v[i]),
    ensures
        collected(s) == Ok::<Seq<A>, E>(v),
    decreases s.len(),
{
    if s.len() > 0 {
        let front = s.drop_last();
        assert forall|i: int| 0 <= i < front.len() implies #[trigger] front[i] == Ok::<A, E>(
            v.drop_last()[i],
        ) by {
            assert(front[i] == s[i]);
        }
        lemma_collected_all(front, v.drop_last());
        assert(s[s.len() - 1] == Ok::<A, E>(v[s.len() - 1]));
        assert(v.drop_last().push(v.last()) =~= v);
    } else {
        assert(v =~= Seq::empty());
    }
}

/// The text of a path with its root renamed.
pub open spec fn renamed_name(
    name: Seq<char>,
    old_root: Seq<char>,
    new_root: Seq<char>,
    at_root: bool,
) -> Seq<char> {
    match find_from(name, "."@, 0) {
        Some(dot) => if name.take(dot) == old_root {
            new_root + name.skip(dot)
        } else {
            name
        },
        None => if name == old_root && at_root {
            new_root
        } else {
            name
        },
    }
}

/// A root's name is one key.
pub proof fn lemma_root_name(name: Seq<char>, raw: Seq<char>)
    requires
        is_root_name(name),
    ensures
        seg_of(raw, name) == Ok::<SegView, RenderErrorView>(SegView::Key(name)),
        name[0] != '@',
        forall|i: int| 0 <= i < name.len() ==> #[trigger] name[i] != '.' && name[i] != '}'
            && !is_space(name[i]),
{
    assert(is_word(name[0]));
    assert(!is_digit(name[0]));
    assert forall|i: int| 0 <= i < name.len() implies #[trigger] name[i] != '.' && name[i] != '}'
        && !is_space(name[i]) by {
        assert(is_word(name[i]));
    }
}

/// Where a text has no dot, nothing is found; otherwise the first one is.
pub proof fn lemma_first_dot(p: Seq<char>)
    ensures
        match find_from(p, "."@, 0) {
            Some(d) => 0 <= d < p.len() && p[d] == '.' && forall|i: int|
                0 <= i < d ==> p[i] != '.',
            None => forall|i: int| 0 <= i < p.len() ==> p[i] != '.',
        },
{
    reveal_strlit(".");
    lemma_find_bounds(p, "."@, 0);
    match find_from(p, "."@, 0) {
        Some(d) => {
            assert(p.subrange(d, d + 1)[0] == p[d]);
            assert forall|i: int| 0 <= i < d implies p[i] != '.' by {
                lemma_nothing_before(p, "."@, 0, d, i);
                if p[i] == '.' {
                    assert(p.subrange(i, i + 1) =~= "."@);
                }
            }
        },
        None => {
            assert forall|i: int| 0 <= i < p.len() implies p[i] != '.' by {
                lemma_nothing_at_all(p, "."@, 0, i);
                if p[i] == '.' {
                    assert(p.subrange(i, i + 1) =~= "."@);
                }
            }
        },
    }
}

/// The path of a renamed text is the renamed path.
pub proof fn lemma_renamed_path(
    p: Seq<char>,
    old_root: Seq<char>,
    new_root: Seq<char>,
    at_root: bool,
)
    requires
        is_root_name(old_root),
        is_root_name(new_root),
        path_of(p) is Ok,
    ensures
        path_of(renamed_name(p, old_root, new_root, at_root)) == Ok::<PathView, RenderErrorView>(
            renamed_path(path_of(p)->Ok_0, old_root, new_root, !at_root),
        ),
{
    reveal_strlit("@index");
    reveal_strlit("@first");
    reveal_strlit("@last");
    lemma_first_dot(p);
    lemma_root_name(old_root, p);
    lemma_root_name(new_root, new_root);
    if p[0] == '@' && (p == "@index"@ || p == "@first"@ || p == "@last"@) {
        assert(renamed_name(p, old_root, new_root, at_root) == p) by {
            if let Some(d) = find_from(p, "."@, 0) {
                assert(p[d] == '.');
            }
        }
    } else {
        let parts = split(p, '.');
        let readings = seg_readings(p, parts);
        lemma_collected_each(readings);
        let segs = collected(readings)->Ok_0;
        assert(path_of(p)->Ok_0 == PathView::Data(segs));
        match find_from(p, "."@, 0) {
            None => {
                lemma_split_whole(p, '.', 0);
                assert(readings[0] == seg_of(p, p));
                if p == old_root && at_root {
                    lemma_split_whole(new_root, '.', 0);
                    let after = seg_readings(new_root, split(new_root, '.'));
                    assert(after[0] == seg_of(new_root, new_root));
                    lemma_collected_all(after, seq![SegView::Key(new_root)]);
                    assert(segs.update(0, SegView::Key(new_root)) =~= seq![SegView::Key(new_root)]);
                }
            },
            Some(d) => {
                lemma_split_at(p, '.', d, 0);
                let tail = split(p.skip(d + 1), '.');
                lemma_split_first(p.skip(d + 1), '.', 0, 0);
                assert(parts[0] == p.take(d));
                assert(readings[0] == seg_of(p, p.take(d)));
                assert(segs.len() >= 2);
                if p.take(d) == old_root {
                    let q = new_root + p.skip(d);
                    let e = new_root.len() as int;
                    assert(q[e] == p[d]);
                    assert forall|i: int| 0 <= i < e implies q[i] != '.' by {
                        assert(q[i] == new_root[i]);
                    }
                    lemma_split_at(q, '.', e, 0);
                    assert(q.take(e) =~= new_root);
                    assert(q.skip(e + 1) =~= p.skip(d + 1));
                    lemma_root_name(new_root, q);
                    let after = seg_readings(q, split(q, '.'));
                    let new_segs = segs.update(0, SegView::Key(new_root));
                    assert forall|i: int| 0 <= i < after.len() implies #[trigger] after[i] == Ok::<
                        SegView,
                        RenderErrorView,
                    >(new_segs[i]) by {
                        if i > 0 {
                            assert(split(q, '.')[i] == parts[i]);
                            assert(readings[i] == Ok::<SegView, RenderErrorView>(segs[i]));
                        }
                    }
                    lemma_collected_all(after, new_segs);
                    assert(q[0] == new_root[0]);
                }
            },
        }
    }
}

// ── Tags ─────────────────────────────────────────────────────────────────

/// A text with no white space at its ends is trimmed.
pub proof fn lemma_trimmed_already(s: Seq<char>)
    requires
        s.len() > 0 ==> !is_space(s[0]) && !is_space(s.last()),
    ensures
        trimmed(s) == s,
        trim_start(s) == s,
{
}

/// What a trimmed tag carries behind its sigil is trimmed.
pub proof fn lemma_tag_path(raw: Seq<char>)
    ensures
        trimmed(trimmed(raw)) == trimmed(raw),
        opens(trimmed(raw)) || closes(trimmed(raw)) ==> trimmed(trimmed(raw).skip(1)) == tag_path(
            trimmed(raw),
        ),
        tag_path(trimmed(raw)).len() > 0 ==> !is_space(tag_path(trimmed(raw))[0])
            && tag_path(trimmed(raw)).last() == trimmed(raw).last() && !is_space(
            trimmed(raw).last(),
        ),
{
    let tag = trimmed(raw);
    let (l, r) = lemma_trimmed(raw);
    if tag.len() > 0 {
        assert(tag[0] == raw[l]);
        assert(tag.last() == raw[r - 1]);
    }
    lemma_trimmed_already(tag);
    if opens(tag) || closes(tag) {
        let rest = tag.skip(1);
        let (a, b) = lemma_trimmed(rest);
        let started = trim_start(rest);
        if rest.len() > 0 {
            assert(rest.last() == tag.last());
            assert(b == rest.len()) by {
                if b < rest.len() {
                    assert(is_space(rest[rest.len() - 1]));
                }
            }
        }
        lemma_trim_start_of(rest, a);
        assert(started =~= rest.subrange(a, b));
        if started.len() > 0 {
            assert(started[0] == rest[a]);
            assert(started.last() == rest[b - 1]);
        }
    }
}

/// Leading white space ends where the first other character stands.
pub proof fn lemma_trim_start_of(s: Seq<char>, l: int)
    requires
        0 <= l <= s.len(),
        forall|i: int| 0 <= i < l ==> is_space(#[trigger] s[i]),
        l < s.len() ==> !is_space(s[l]),
    ensures
        trim_start(s) == s.subrange(l, s.len() as int),
    decreases l,
{
    if l > 0 {
        let rest = s.subrange(1, s.len() as int);
        assert(is_space(s[0]));
        assert forall|i: int| 0 <= i < l - 1 implies is_space(#[trigger] rest[i]) by {
            assert(rest[i] == s[i + 1]);
        }
        lemma_trim_start_of(rest, l - 1);
        assert(rest.subrange(l - 1, rest.len() as int) =~= s.subrange(l, s.len() as int));
    } else {
        assert(s.subrange(0, s.len() as int) =~= s);
    }
}

/// What a renamed tag says: the sigil it had, and its path renamed.
pub proof fn lemma_renamed_tag(
    raw: Seq<char>,
    old_root: Seq<char>,
    new_root: Seq<char>,
    at_root: bool,
)
    requires
        is_root_name(old_root),
        is_root_name(new_root),
    ensures
        ({
            let tag = trimmed(raw);
            let name = renamed_name(tag_path(tag), old_root, new_root, at_root);
            match renamed_tag(raw, old_root, new_root, at_root) {
                Some(t) => {
                    &&& t == tag_sigil(tag) + name
                    &&& trimmed(t) == t
                    &&& t.len() > 0
                    &&& opens(t) == opens(tag)
                    &&& closes(t) == closes(tag)
                    &&& (opens(tag) || closes(tag)) ==> t[0] == tag[0] && trimmed(t.skip(1)) == name
                    &&& !(opens(tag) || closes(tag)) ==> t == name && is_word(t[0])
                },
                None => name == tag_path(tag),
            }
        }),
{
    let tag = trimmed(raw);
    let path = tag_path(tag);
    let name = renamed_name(path, old_root, new_root, at_root);
    lemma_tag_path(raw);
    lemma_first_dot(path);
    lemma_root_name(old_root, path);
    lemma_root_name(new_root, path);
    if let Some(t) = renamed_tag(raw, old_root, new_root, at_root) {
        assert(t =~= tag_sigil(tag) + name);
        assert(name.len() > 0 && name[0] == new_root[0]);
        assert(is_word(new_root[0]));
        assert(!is_space(name.last())) by {
            if let Some(d) = find_from(path, "."@, 0) {
                assert(name.last() == path.last());
            }
        }
        lemma_trimmed_already(name);
        if opens(tag) || closes(tag) {
            assert(t[0] == tag[0]);
            assert(t.skip(1) =~= name);
            assert(t.last() == name.last());
            assert(!is_space(t[0]));
        } else {
            assert(t =~= name);
        }
        lemma_trimmed_already(t);
    }
}

// ── Open sections ────────────────────────────────────────────────────────

/// An open section with a root renamed in it: the one at position `k` of the
/// stack stands in `k - 1` others.
pub open spec fn renamed_frame(
    frame: FrameView,
    k: int,
    old_root: Seq<char>,
    new_root: Seq<char>,
) -> FrameView {
    FrameView {
        header: match frame.header {
            None => None,
            Some((path, inverted, name)) => Some(
                (
                    renamed_path(path, old_root, new_root, k > 1),
                    inverted,
                    renamed_name(name, old_root, new_root, k <= 1),
                ),
            ),
        },
        nodes: renamed_nodes(frame.nodes, old_root, new_root, k > 0),
    }
}

/// All open sections with a root renamed in them.
pub open spec fn renamed_stack(
    stack: Seq<FrameView>,
    old_root: Seq<char>,
    new_root: Seq<char>,
) -> Seq<FrameView> {
    Seq::new(stack.len(), |k: int| renamed_frame(stack[k], k, old_root, new_root))
}

proof fn lemma_renamed_with_node(
    stack: Seq<FrameView>,
    node: NodeView,
    old_root: Seq<char>,
    new_root: Seq<char>,
)
    requires
        stack.len() > 0,
    ensures
        renamed_stack(with_node(stack, node), old_root, new_root) == with_node(
            renamed_stack(stack, old_root, new_root),
            renamed_node(node, old_root, new_root, stack.len() > 1),
        ),
{
    let a = renamed_stack(with_node(stack, node), old_root, new_root);
    let b = with_node(
        renamed_stack(stack, old_root, new_root),
        renamed_node(node, old_root, new_root, stack.len() > 1),
    );
    let top = stack.last();
    assert(renamed_nodes(top.nodes.push(node), old_root, new_root, stack.len() > 1)
        =~= renamed_nodes(top.nodes, old_root, new_root, stack.len() > 1).push(
        renamed_node(node, old_root, new_root, stack.len() > 1),
    ));
    assert(a =~= b);
}

proof fn lemma_renamed_with_text(
    stack: Seq<FrameView>,
    text: Seq<char>,
    old_root: Seq<char>,
    new_root: Seq<char>,
)
    requires
        stack.len() > 0,
    ensures
        renamed_stack(with_text(stack, text), old_root, new_root) == with_text(
            renamed_stack(stack, old_root, new_root),
            text,
        ),
        with_text(stack, text).len() == stack.len(),
        rooted(stack) ==> rooted(with_text(stack, text)),
{
    lemma_renamed_with_node(stack, NodeView::Text(text), old_root, new_root);
}

/// A renamed tag does to the renamed stack what the tag does to the stack.
proof fn lemma_renamed_with_tag(
    stack: Seq<FrameView>,
    raw: Seq<char>,
    old_root: Seq<char>,
    new_root: Seq<char>,
    here: nat,
)
    requires
        rooted(stack),
        is_root_name(old_root),
        is_root_name(new_root),
        with_tag(stack, trimmed(raw)) is Ok,
        here == (if closes(trimmed(raw)) {
            stack.len() - 2
        } else {
            stack.len() - 1
        }),
    ensures
        ({
            let next = with_tag(stack, trimmed(raw))->Ok_0;
            let written = match renamed_tag(raw, old_root, new_root, here == 0) {
                Some(t) => t,
                None => raw,
            };
            &&& rooted(next)
            &&& next.len() == here + 1 + (if opens(trimmed(raw)) {
                1int
            } else {
                0
            })
            &&& with_tag(renamed_stack(stack, old_root, new_root), trimmed(written)) == Ok::<
                Seq<FrameView>,
                RenderErrorView,
            >(renamed_stack(next, old_root, new_root))
        }),
{
    let tag = trimmed(raw);
    let at_root = here == 0;
    let name = tag_path(tag);
    let new_name = renamed_name(name, old_root, new_root, at_root);
    let next = with_tag(stack, tag)->Ok_0;
    let rstack = renamed_stack(stack, old_root, new_root);
    lemma_tag_path(raw);
    lemma_renamed_tag(raw, old_root, new_root, at_root);
    let written = match renamed_tag(raw, old_root, new_root, at_root) {
        Some(t) => t,
        None => raw,
    };
    let new_tag = trimmed(written);
    if opens(tag) {
        assert(trimmed(tag.skip(1)) == name);
        lemma_renamed_path(name, old_root, new_root, at_root);
        assert(trimmed(new_tag.skip(1)) == new_name);
        assert(renamed_nodes(Seq::empty(), old_root, new_root, true) =~= Seq::<NodeView>::empty());
        assert(with_tag(rstack, new_tag)->Ok_0 =~= renamed_stack(next, old_root, new_root));
    } else if closes(tag) {
        assert(trimmed(tag.skip(1)) == name);
        assert(trimmed(new_tag.skip(1)) == new_name);
        let top = stack.last();
        let rtop = rstack.last();
        assert(rtop == renamed_frame(top, stack.len() - 1, old_root, new_root));
        let (path, inverted, open_name) = top.header->0;
        let node = NodeView::Section { path, inverted, body: top.nodes };
        lemma_renamed_with_node(stack.drop_last(), node, old_root, new_root);
        assert(renamed_stack(stack.drop_last(), old_root, new_root) =~= rstack.drop_last());
        assert(renamed_node(node, old_root, new_root, stack.len() > 2)->body =~= rtop.nodes);
    } else {
        lemma_renamed_path(tag, old_root, new_root, at_root);
        let path = path_of(tag)->Ok_0;
        lemma_renamed_with_node(stack, NodeView::Var(path), old_root, new_root);
    }
}

// ── Templates ────────────────────────────────────────────────────────────

proof fn lemma_renamed_parses(
    s: Seq<char>,
    i: int,
    stack: Seq<FrameView>,
    old_root: Seq<char>,
    new_root: Seq<char>,
)
    requires
        0 <= i <= s.len(),
        rooted(stack),
        is_root_name(old_root),
        is_root_name(new_root),
        parse_from(s, i, stack) is Ok,
        ends_apart(s, i, (stack.len() - 1) as nat, old_root, new_root),
    ensures
        parse_from(
            renamed_from(s, i, (stack.len() - 1) as nat, old_root, new_root),
            0,
            renamed_stack(stack, old_root, new_root),
        ) == Ok::<Seq<NodeView>, RenderErrorView>(
            renamed_nodes(parse_from(s, i, stack)->Ok_0, old_root, new_root, false),
        ),
    decreases s.len() - i,
{
    let depth = (stack.len() - 1) as nat;
    let u = renamed_from(s, i, depth, old_root, new_root);
    let rstack = renamed_stack(stack, old_root, new_root);
    reveal_strlit("{{");
    reveal_strlit("}}");
    lemma_tag_bounds(s, i);
    match find_from(s, "{{"@, i) {
        None => {
            let text = s.subrange(i, s.len() as int);
            lemma_find_shift(s.take(i), text, "{{"@, 0);
            assert(s.take(i) + text =~= s);
            assert(u.subrange(0, u.len() as int) =~= u);
            lemma_renamed_with_text(stack, text, old_root, new_root);
            let done = with_text(stack, text);
            assert(done.last().header is None);
            assert(done.len() == 1);
            assert(renamed_stack(done, old_root, new_root).last() == renamed_frame(
                done.last(),
                0,
                old_root,
                new_root,
            ));
        },
        Some(open) => {
            let close = find_from(s, "}}"@, open + 2)->0;
            lemma_find_bounds(s, "}}"@, open + 2);
            lemma_find_bounds(s, "{{"@, i);
            let raw = s.subrange(open + 2, close);
            let tag = trimmed(raw);
            let text = s.subrange(i, open);
            let before = with_text(stack, text);
            lemma_renamed_with_text(stack, text, old_root, new_root);
            let next = with_tag(before, tag)->Ok_0;
            let here: nat = if closes(tag) && depth > 0 { (depth - 1) as nat } else { depth };
            let after: nat = if opens(tag) { here + 1 } else { here };
            assert(closes(tag) ==> depth > 0) by {
                if closes(tag) && depth == 0 {
                    assert(before.last().header is None);
                }
            }
            lemma_renamed_with_tag(before, raw, old_root, new_root, here);
            let rest = renamed_from(s, close + 2, after, old_root, new_root);
            let (pre, new_raw) = lemma_first_tag(
                s,
                i,
                depth,
                old_root,
                new_root,
                open,
                close,
                here,
                after,
            );
            lemma_parse_shift(pre, rest, 0, renamed_stack(next, old_root, new_root));
            lemma_renamed_parses(s, close + 2, next, old_root, new_root);
        },
    }
}

/// The first tag of a renamed text, and what comes before and after it.
pub proof fn lemma_first_tag(
    s: Seq<char>,
    i: int,
    depth: nat,
    old_root: Seq<char>,
    new_root: Seq<char>,
    open: int,
    close: int,
    here: nat,
    after: nat,
) -> (parts: (Seq<char>, Seq<char>))
    requires
        0 <= i <= s.len(),
        is_root_name(old_root),
        is_root_name(new_root),
        find_from(s, "{{"@, i) == Some(open),
        find_from(s, "}}"@, open + 2) == Some(close),
        ({
            let tag = trimmed(s.subrange(open + 2, close));
            &&& here == (if closes(tag) && depth > 0 {
                (depth - 1) as nat
            } else {
                depth
            })
            &&& after == (if opens(tag) {
                here + 1
            } else {
                here
            })
        }),
        ends_apart(s, i, depth, old_root, new_root),
    ensures
        ({
            let raw = s.subrange(open + 2, close);
            let u = renamed_from(s, i, depth, old_root, new_root);
            let (pre, new_raw) = parts;
            let o = open - i;
            let c = o + 2 + new_raw.len();
            &&& new_raw == (match renamed_tag(raw, old_root, new_root, here == 0) {
                Some(t) => t,
                None => raw,
            })
            &&& u == pre + renamed_from(s, close + 2, after, old_root, new_root)
            &&& pre.len() == c + 2
            &&& find_from(u, "{{"@, 0) == Some(o)
            &&& find_from(u, "}}"@, o + 2) == Some(c)
            &&& u.subrange(0, o) == s.subrange(i, open)
            &&& u.subrange(o + 2, c) == new_raw
        }),
{
    reveal_strlit("{{");
    reveal_strlit("}}");
    lemma_tag_bounds(s, i);
    lemma_find_bounds(s, "{{"@, i);
    lemma_find_bounds(s, "}}"@, open + 2);
    let u = renamed_from(s, i, depth, old_root, new_root);
    let raw = s.subrange(open + 2, close);
    let text = s.subrange(i, open);
    let new_raw = match renamed_tag(raw, old_root, new_root, here == 0) {
        Some(t) => t,
        None => raw,
    };
    let written = "{{"@ + new_raw + "}}"@;
    let rest = renamed_from(s, close + 2, after, old_root, new_root);
    assert("{{"@ + raw + "}}"@ =~= s.subrange(open, close + 2)) by {
        assert(s.subrange(open, open + 2) == "{{"@);
        assert(s.subrange(close, close + 2) == "}}"@);
        assert(s.subrange(open, close + 2) =~= s.subrange(open, open + 2) + raw + s.subrange(
            close,
            close + 2,
        ));
    }
    assert(u == text + written + rest);
    let o = text.len() as int;
    let c = o + 2 + new_raw.len() as int;
    assert(u.take(o + 2) =~= text + "{{"@);
    assert(u.subrange(o + 2, o + 4 + new_raw.len()) =~= new_raw + "}}"@);
    lemma_opens_at(s, i, open, u);
    lemma_closes_at(s, open, close, u, o, raw, new_raw, old_root, new_root, here == 0);
    assert(u.subrange(0, o) =~= text);
    assert(u.subrange(o + 2, c) =~= new_raw);
    (text + written, new_raw)
}

/// A text that goes on as another does up to its first tag opens it there.
pub proof fn lemma_opens_at(s: Seq<char>, i: int, open: int, u: Seq<char>)
    requires
        0 <= i,
        find_from(s, "{{"@, i) == Some(open),
        u.len() >= open - i + 2,
        u.take(open - i + 2) == s.subrange(i, open) + "{{"@,
    ensures
        find_from(u, "{{"@, 0) == Some(open - i),
{
    reveal_strlit("{{");
    lemma_find_bounds(s, "{{"@, i);
    let w = s.skip(i);
    assert(s.take(i) + w =~= s);
    lemma_find_shift(s.take(i), w, "{{"@, 0);
    assert(find_from(w, "{{"@, 0) == Some(open - i));
    assert(s.subrange(open, open + 2) == "{{"@);
    assert(w.take(open - i + 2) =~= s.subrange(i, open) + s.subrange(open, open + 2));
    lemma_find_prefix(w, u, "{{"@, 0, open - i);
}

/// A tag that was renamed, or stands as it did, closes where it ends.
proof fn lemma_closes_at(
    s: Seq<char>,
    open: int,
    close: int,
    u: Seq<char>,
    o: int,
    raw: Seq<char>,
    new_raw: Seq<char>,
    old_root: Seq<char>,
    new_root: Seq<char>,
    at_root: bool,
)
    requires
        0 <= open,
        0 <= o,
        find_from(s, "}}"@, open + 2) == Some(close),
        raw == s.subrange(open + 2, close),
        new_raw == (match renamed_tag(raw, old_root, new_root, at_root) {
            Some(t) => t,
            None => raw,
        }),
        is_root_name(old_root),
        is_root_name(new_root),
        renamed_tag(raw, old_root, new_root, at_root) is Some ==> trimmed(raw).last() != '}',
        u.len() >= o + 4 + new_raw.len(),
        u.subrange(o + 2, o + 4 + new_raw.len()) == new_raw + "}}"@,
    ensures
        find_from(u, "}}"@, o + 2) == Some(o + 2 + new_raw.len()),
{
    reveal_strlit("}}");
    lemma_find_bounds(s, "}}"@, open + 2);
    let n = new_raw.len() as int;
    let here = u.subrange(o + 2, o + 4 + n);
    assert forall|j: int| o + 2 <= j < o + 2 + n implies #[trigger] u.subrange(j, j + 2)
        != "}}"@ by {
        let k = j - o - 2;
        assert(u[j] == here[k] && u[j + 1] == here[k + 1]);
        assert(here[k] == new_raw[k]);
        if u.subrange(j, j + 2) == "}}"@ {
            assert(u.subrange(j, j + 2)[0] == '}' && u.subrange(j, j + 2)[1] == '}');
            lemma_no_double_brace(s, open, close, raw, old_root, new_root, at_root, new_raw, k);
        }
    }
    assert(u.subrange(o + 2 + n, o + 4 + n) =~= "}}"@) by {
        assert(here[n] == '}' && here[n + 1] == '}');
        assert(u[o + 2 + n] == here[n] && u[o + 3 + n] == here[n + 1]);
    }
    lemma_find_at(u, "}}"@, o + 2, o + 2 + n);
}

/// Inside a tag no brace stands before another one, and at its end only where its
/// path ends in one.
pub proof fn lemma_no_double_brace(
    s: Seq<char>,
    open: int,
    close: int,
    raw: Seq<char>,
    old_root: Seq<char>,
    new_root: Seq<char>,
    at_root: bool,
    new_raw: Seq<char>,
    k: int,
)
    requires
        0 <= open,
        find_from(s, "}}"@, open + 2) == Some(close),
        raw == s.subrange(open + 2, close),
        new_raw == (match renamed_tag(raw, old_root, new_root, at_root) {
            Some(t) => t,
            None => raw,
        }),
        is_root_name(old_root),
        is_root_name(new_root),
        0 <= k < new_raw.len(),
        new_raw[k] == '}',
    ensures
        k + 1 < new_raw.len() ==> new_raw[k + 1] != '}',
        k + 1 == new_raw.len() ==> renamed_tag(raw, old_root, new_root, at_root) is Some
            && trimmed(raw).last() == '}',
{
    reveal_strlit("}}");
    lemma_find_bounds(s, "}}"@, open + 2);
    assert(s.subrange(close, close + 2)[0] == '}');
    let tag = trimmed(raw);
    match renamed_tag(raw, old_root, new_root, at_root) {
        None => {
            if raw[k] == '}' && (k + 1 == raw.len() || raw[k + 1] == '}') {
                let j = open + 2 + k;
                assert(s[j] == '}' && s[j + 1] == '}');
                assert(s.subrange(j, j + 2) =~= "}}"@);
                lemma_nothing_before(s, "}}"@, open + 2, close, j);
            }
        },
        Some(t) => {
            let path = tag_path(tag);
            lemma_tag_path(raw);
            lemma_renamed_tag(raw, old_root, new_root, at_root);
            lemma_first_dot(path);
            lemma_root_name(new_root, path);
            let sigil = tag_sigil(tag);
            if t[k] == '}' && (k + 1 == t.len() || t[k + 1] == '}') {
                match find_from(path, "."@, 0) {
                    None => {
                        if k >= sigil.len() {
                            assert(t[k] == new_root[k - sigil.len()]);
                        }
                    },
                    Some(d) => {
                        let e = sigil.len() + new_root.len();
                        if k < sigil.len() {
                        } else if k < e {
                            assert(t[k] == new_root[k - sigil.len()]);
                        } else {
                            let p = d + (k - e);
                            assert(t[k] == path[p]);
                            if k + 1 == t.len() {
                                assert(path.last() == '}');
                            } else {
                                assert(t[k + 1] == path[p + 1]);
                                let at = lemma_tag_path_stands(raw);
                                assert(path[p] == raw[at + p] && path[p + 1] == raw[at + p + 1]);
                                let j = open + 2 + at + p;
                                assert(s[j] == '}' && s[j + 1] == '}');
                                assert(s.subrange(j, j + 2) =~= "}}"@);
                                lemma_nothing_before(s, "}}"@, open + 2, close, j);
                            }
                        }
                    },
                }
            }
        },
    }
}

/// Where a tag's path stands in it.
pub proof fn lemma_tag_path_stands(raw: Seq<char>) -> (at: int)
    ensures
        0 <= at,
        at + tag_path(trimmed(raw)).len() <= raw.len(),
        tag_path(trimmed(raw)) == raw.subrange(at, at + tag_path(trimmed(raw)).len()),
{
    let tag = trimmed(raw);
    let (l, r) = lemma_trimmed(raw);
    if opens(tag) || closes(tag) {
        let rest = tag.skip(1);
        let (a, b) = lemma_trimmed(rest);
        lemma_tag_path(raw);
        assert(tag_path(tag) =~= raw.subrange(l + 1 + a, l + 1 + b));
        l + 1 + a
    } else {
        l
    }
}

/// A template in which a root is renamed reads as it did, with every reference
/// to the old root now one to the new. Left out are tags whose path ends in a
/// brace, such as `{{old.a} }}`: written anew without the white space, the
/// brace runs into those that close the tag and falls to the text behind it.
/// What such a template refers to is stated in
/// [`renaming_renames_the_roots`](crate::template::braces::renaming_renames_the_roots).
pub proof fn renaming_keeps_every_reference(
    t: Seq<char>,
    old_root: Seq<char>,
    new_root: Seq<char>,
)
    requires
        is_root_name(old_root),
        is_root_name(new_root),
        parsed(t) is Ok,
        ends_apart(t, 0, 0, old_root, new_root),
    ensures
        parsed(renamed(t, old_root, new_root)) == Ok::<Seq<NodeView>, RenderErrorView>(
            renamed_nodes(parsed(t)->Ok_0, old_root, new_root, false),
        ),
        root_refs(renamed_nodes(parsed(t)->Ok_0, old_root, new_root, false), false) == Seq::new(
            root_refs(parsed(t)->Ok_0, false).len(),
            |i: int| renamed_root(root_refs(parsed(t)->Ok_0, false)[i], old_root, new_root),
        ),
{
    let bottom = seq![FrameView { header: None, nodes: Seq::empty() }];
    lemma_renamed_parses(t, 0, bottom, old_root, new_root);
    assert(renamed_stack(bottom, old_root, new_root) =~= bottom) by {
        assert(renamed_nodes(Seq::empty(), old_root, new_root, false) =~= Seq::<NodeView>::empty());
    }
    lemma_renamed_refs(parsed(t)->Ok_0, old_root, new_root, false);
}

proof fn lemma_renamed_refs(
    nodes: Seq<NodeView>,
    old_root: Seq<char>,
    new_root: Seq<char>,
    in_section: bool,
)
    ensures
        root_refs(renamed_nodes(nodes, old_root, new_root, in_section), in_section) == Seq::new(
            root_refs(nodes, in_section).len(),
            |i: int| renamed_root(root_refs(nodes, in_section)[i], old_root, new_root),
        ),
    decreases nodes,
{
    let after = renamed_nodes(nodes, old_root, new_root, in_section);
    let refs = root_refs(nodes, in_section);
    let expected = Seq::new(
        refs.len(),
        |i: int| renamed_root(refs[i], old_root, new_root),
    );
    if nodes.len() > 0 {
        let front = nodes.drop_last();
        lemma_renamed_refs(front, old_root, new_root, in_section);
        assert(after.drop_last() =~= renamed_nodes(front, old_root, new_root, in_section));
        assert(after.last() == renamed_node(nodes.last(), old_root, new_root, in_section));
        if let NodeView::Section { path, inverted, body } = nodes.last() {
            assert(decreases_to!(nodes => nodes.last()));
            lemma_renamed_refs(body, old_root, new_root, true);
            assert(after.last()->body =~= renamed_nodes(body, old_root, new_root, true));
        }
        assert(root_refs(after, in_section) =~= expected);
    } else {
        assert(after =~= Seq::<NodeView>::empty());
        assert(root_refs(after, in_section) =~= expected);
    }
}

} // verus!
