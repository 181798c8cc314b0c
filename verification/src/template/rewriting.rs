//! A parsed template written back reads as the same template.

use crate::template::parser::{
    lemma_find_bounds, lemma_tag_bounds, parse_from, parsed, path_of, rooted, with_node, with_tag,
    with_text, FrameView, NodeView, PathView,
};
use crate::template::laws::lemma_trimmed;
use crate::template::paths::{
    a_written_path_reads_back, is_readable_path, lemma_read_path, no_closing_pair, path_text,
};
use crate::template::renaming::{
    lemma_find_at, lemma_find_shift, lemma_nothing_at_all, lemma_nothing_before, lemma_parse_shift,
};
use crate::template::RenderErrorView;
use crate::text::{begins, find_from, is_space, trimmed};
use vstd::prelude::*;

verus! {

// ── Writing ──────────────────────────────────────────────────────────────

/// A tag as it is written: a path with white space around it, behind a sigil or
/// none.
pub open spec fn written_tag(sigil: Seq<char>, path: PathView) -> Seq<char> {
    "{{"@ + sigil + " "@ + path_text(path) + " }}"@
}

/// A node as it is written.
pub open spec fn written_node(node: NodeView) -> Seq<char>
    decreases node, 0int,
{
    match node {
        NodeView::Text(t) => t,
        NodeView::Var(path) => written_tag(Seq::empty(), path),
        NodeView::Section { path, inverted, body } => written_tag(
            seq![if inverted { '^' } else { '#' }],
            path,
        ) + written(body) + written_tag(seq!['/'], path),
    }
}

/// Nodes as they are written.
pub open spec fn written(nodes: Seq<NodeView>) -> Seq<char>
    decreases nodes, 1int,
{
    if nodes.len() == 0 {
        Seq::empty()
    } else {
        written_node(nodes[0]) + written(nodes.skip(1))
    }
}

// ── What parsing gives ───────────────────────────────────────────────────

/// Whether no two opening braces stand side by side.
pub open spec fn no_opening_pair(s: Seq<char>) -> bool {
    forall|i: int| 0 <= i < s.len() - 1 ==> !(#[trigger] s[i] == '{' && s[i + 1] == '{')
}

/// The characters that make a tag something other than a variable.
pub open spec fn is_sigil(c: char) -> bool {
    c == '#' || c == '^' || c == '/' || c == '>' || c == '<' || c == '$' || c == '!'
}

/// Whether a node is one that can be read.
pub open spec fn is_readable_node(node: NodeView) -> bool
    decreases node, 0int,
{
    match node {
        NodeView::Text(t) => t.len() > 0 && no_opening_pair(t),
        NodeView::Var(path) => is_readable_path(path) && !is_sigil(path_text(path)[0]),
        NodeView::Section { path, body, .. } => is_readable_path(path) && is_readable(body, true),
    }
}

/// Whether nodes can be read one after the other: no text stands next to a text,
/// and none that a tag follows ends in an opening brace.
pub open spec fn is_readable(nodes: Seq<NodeView>, closed: bool) -> bool
    decreases nodes, 1int,
{
    &&& forall|i: int| 0 <= i < nodes.len() ==> is_readable_node(#[trigger] nodes[i])
    &&& forall|i: int|
        0 < i < nodes.len() && (#[trigger] nodes[i]) is Text ==> !(nodes[i - 1] is Text)
    &&& forall|i: int|
        0 <= i < nodes.len() && (#[trigger] nodes[i]) is Text && (i + 1 < nodes.len() || closed)
            ==> nodes[i]->Text_0.last() != '{'
}

proof fn lemma_push_readable(nodes: Seq<NodeView>, node: NodeView, closed: bool)
    requires
        is_readable(nodes, true),
        is_readable_node(node),
        node is Text ==> (nodes.len() == 0 || !(nodes.last() is Text)) && (closed
            ==> node->Text_0.last() != '{'),
    ensures
        is_readable(nodes.push(node), closed),
{
    let more = nodes.push(node);
    assert forall|i: int| 0 <= i < more.len() implies is_readable_node(#[trigger] more[i]) by {
        if i < nodes.len() {
            assert(more[i] == nodes[i]);
        }
    }
    assert forall|i: int| 0 < i < more.len() && (#[trigger] more[i]) is Text implies !(more[i - 1]
        is Text) by {
        if i < nodes.len() {
            assert(more[i] == nodes[i] && more[i - 1] == nodes[i - 1]);
        } else {
            assert(more[i - 1] == nodes.last());
        }
    }
    assert forall|i: int|
        0 <= i < more.len() && (#[trigger] more[i]) is Text && (i + 1 < more.len()
            || closed) implies more[i]->Text_0.last() != '{' by {
        if i < nodes.len() {
            assert(more[i] == nodes[i]);
        }
    }
}

/// Whether the sections that are open hold what can be read.
spec fn is_readable_stack(stack: Seq<FrameView>) -> bool {
    forall|k: int|
        0 <= k < stack.len() ==> is_readable((#[trigger] stack[k]).nodes, true) && (
        stack[k].header matches Some(h) ==> is_readable_path(h.0))
}

/// Whether the innermost open section does not end in a text.
spec fn ends_in_no_text(stack: Seq<FrameView>) -> bool {
    stack.last().nodes.len() > 0 ==> !(stack.last().nodes.last() is Text)
}

/// Text up to the next tag holds no pair of opening braces and ends in none.
proof fn lemma_text_before(s: Seq<char>, i: int, open: int)
    requires
        0 <= i,
        find_from(s, "{{"@, i) == Some(open),
    ensures
        i <= open <= s.len(),
        no_opening_pair(s.subrange(i, open)),
        open > i ==> s.subrange(i, open).last() != '{',
{
    reveal_strlit("{{");
    lemma_find_bounds(s, "{{"@, i);
    let text = s.subrange(i, open);
    assert(s.subrange(open, open + 2)[0] == s[open]);
    assert forall|k: int| 0 <= k < text.len() - 1 implies !(#[trigger] text[k] == '{' && text[k + 1]
        == '{') by {
        lemma_nothing_before(s, "{{"@, i, open, i + k);
        if text[k] == '{' && text[k + 1] == '{' {
            assert(s.subrange(i + k, i + k + 2) =~= "{{"@);
        }
    }
    if open > i && text.last() == '{' {
        lemma_nothing_before(s, "{{"@, i, open, open - 1);
        assert(s.subrange(open - 1, open + 1) =~= "{{"@);
    }
}

/// The inside of a tag holds no pair of closing braces.
proof fn lemma_inside(s: Seq<char>, open: int, close: int)
    requires
        0 <= open,
        find_from(s, "}}"@, open + 2) == Some(close),
    ensures
        no_closing_pair(s.subrange(open + 2, close)),
{
    reveal_strlit("}}");
    lemma_find_bounds(s, "}}"@, open + 2);
    let raw = s.subrange(open + 2, close);
    assert forall|k: int| 0 <= k < raw.len() - 1 implies !(#[trigger] raw[k] == '}' && raw[k + 1]
        == '}') by {
        let j = open + 2 + k;
        lemma_nothing_before(s, "}}"@, open + 2, close, j);
        if raw[k] == '}' && raw[k + 1] == '}' {
            assert(s.subrange(j, j + 2) =~= "}}"@);
        }
    }
}

/// What is left of a text without the white space around it has none at its
/// ends, and no pair of braces that the text has not.
proof fn lemma_trimmed_inside(s: Seq<char>)
    requires
        no_closing_pair(s),
    ensures
        no_closing_pair(trimmed(s)),
        trimmed(s).len() > 0 ==> !is_space(trimmed(s)[0]) && !is_space(trimmed(s).last()),
{
    let (l, r) = lemma_trimmed(s);
    let t = trimmed(s);
    assert forall|k: int| 0 <= k < t.len() - 1 implies !(#[trigger] t[k] == '}' && t[k + 1]
        == '}') by {
        assert(t[k] == s[l + k] && t[k + 1] == s[l + k + 1]);
    }
    if t.len() > 0 {
        assert(t[0] == s[l] && t.last() == s[r - 1]);
    }
}

/// A tag that can be read leaves open sections that can be read.
proof fn lemma_tag_readable(stack: Seq<FrameView>, tag: Seq<char>)
    requires
        rooted(stack),
        is_readable_stack(stack),
        with_tag(stack, tag) is Ok,
        no_closing_pair(tag),
        tag.len() > 0 ==> !is_space(tag[0]) && !is_space(tag.last()),
    ensures
        rooted(with_tag(stack, tag)->Ok_0),
        is_readable_stack(with_tag(stack, tag)->Ok_0),
        ends_in_no_text(with_tag(stack, tag)->Ok_0),
{
    let next = with_tag(stack, tag)->Ok_0;
    if tag[0] == '#' || tag[0] == '^' {
        let rest = tag.skip(1);
        assert(no_closing_pair(rest)) by {
            assert forall|k: int| 0 <= k < rest.len() - 1 implies !(#[trigger] rest[k] == '}'
                && rest[k + 1] == '}') by {
                assert(rest[k] == tag[k + 1] && rest[k + 1] == tag[k + 2]);
            }
        }
        lemma_trimmed_inside(rest);
        assert(trimmed(rest).len() > 0) by {
            reveal_strlit("@index");
            reveal_strlit("@first");
            reveal_strlit("@last");
        }
        lemma_read_path(trimmed(rest));
        assert(next.last().nodes =~= Seq::<NodeView>::empty());
    } else if tag[0] == '/' {
        let top = stack.last();
        let (path, inverted, name) = top.header->0;
        let node = NodeView::Section { path, inverted, body: top.nodes };
        let below = stack.drop_last();
        assert(stack[stack.len() - 1] == top);
        assert(below.last() == stack[stack.len() - 2]);
        assert(is_readable_node(node));
        lemma_push_readable(below.last().nodes, node, true);
        assert(next.last().nodes.last() == node);
    } else {
        lemma_read_path(tag);
        let path = path_of(tag)->Ok_0;
        let node = NodeView::Var(path);
        assert(is_readable_node(node));
        assert(stack[stack.len() - 1] == stack.last());
        lemma_push_readable(stack.last().nodes, node, true);
        assert(next.last().nodes.last() == node);
    }
}

proof fn lemma_parsed_readable(s: Seq<char>, i: int, stack: Seq<FrameView>)
    requires
        0 <= i <= s.len(),
        rooted(stack),
        is_readable_stack(stack),
        ends_in_no_text(stack),
    ensures
        parse_from(s, i, stack) matches Ok(nodes) ==> is_readable(nodes, false),
    decreases s.len() - i,
{
    reveal_strlit("{{");
    reveal_strlit("}}");
    lemma_tag_bounds(s, i);
    assert(stack[stack.len() - 1] == stack.last());
    match find_from(s, "{{"@, i) {
        None => {
            let text = s.subrange(i, s.len() as int);
            assert(no_opening_pair(text)) by {
                assert forall|k: int| 0 <= k < text.len() - 1 implies !(#[trigger] text[k] == '{'
                    && text[k + 1] == '{') by {
                    lemma_nothing_at_all(s, "{{"@, i, i + k);
                    if text[k] == '{' && text[k + 1] == '{' {
                        assert(s.subrange(i + k, i + k + 2) =~= "{{"@);
                    }
                }
            }
            if text.len() > 0 {
                lemma_push_readable(stack.last().nodes, NodeView::Text(text), false);
            }
        },
        Some(open) => {
            if let Some(close) = find_from(s, "}}"@, open + 2) {
                let text = s.subrange(i, open);
                let raw = s.subrange(open + 2, close);
                let tag = trimmed(raw);
                lemma_text_before(s, i, open);
                lemma_inside(s, open, close);
                lemma_trimmed_inside(raw);
                let before = with_text(stack, text);
                if text.len() > 0 {
                    lemma_push_readable(stack.last().nodes, NodeView::Text(text), true);
                }
                assert(rooted(before));
                assert(is_readable_stack(before));
                if let Ok(next) = with_tag(before, tag) {
                    lemma_tag_readable(before, tag);
                    lemma_parsed_readable(s, close + 2, next);
                }
            }
        },
    }
}

/// Parsing gives nodes that can be read again.
pub proof fn parsing_gives_readable_nodes(t: Seq<char>)
    requires
        parsed(t) is Ok,
    ensures
        is_readable(parsed(t)->Ok_0, false),
{
    let bottom = seq![FrameView { header: None, nodes: Seq::empty() }];
    assert(is_readable(bottom[0].nodes, true));
    lemma_parsed_readable(t, 0, bottom);
}

// ── Reading what was written ─────────────────────────────────────────────

/// The stack with more nodes in the innermost open section.
spec fn with_nodes(stack: Seq<FrameView>, nodes: Seq<NodeView>) -> Seq<FrameView> {
    let top = stack.last();
    stack.drop_last().push(FrameView { header: top.header, nodes: top.nodes + nodes })
}

/// A written tag is the first to be read, and reads as its sigil and path.
proof fn lemma_written_tag(sigil: Seq<char>, path: PathView, rest: Seq<char>, stack: Seq<FrameView>)
    requires
        is_readable_path(path),
        sigil.len() <= 1,
        sigil.len() == 1 ==> !is_space(sigil[0]) && sigil[0] != '}',
        stack.len() > 0,
    ensures
        begins(written_tag(sigil, path) + rest, "{{"@),
        ({
            let tag = if sigil.len() == 0 {
                path_text(path)
            } else {
                sigil + " "@ + path_text(path)
            };
            parse_from(written_tag(sigil, path) + rest, 0, stack) == (match with_tag(stack, tag) {
                Err(e) => Err(e),
                Ok(next) => parse_from(rest, 0, next),
            })
        }),
        sigil.len() == 1 ==> trimmed((sigil + " "@ + path_text(path)).skip(1)) == path_text(path),
{
    reveal_strlit("{{");
    reveal_strlit("}}");
    reveal_strlit(" ");
    reveal_strlit(" }}");
    a_written_path_reads_back(path);
    let p = path_text(path);
    let w = written_tag(sigil, path);
    let s = w + rest;
    let n = sigil.len() as int;
    let raw = sigil + " "@ + p + " "@;
    let close = 2 + raw.len() as int;
    assert(w =~= "{{"@ + raw + "}}"@);
    assert(s.subrange(0, 2) =~= "{{"@);
    assert(find_from(s, "{{"@, 0) == Some(0int));
    assert forall|j: int| 2 <= j < close implies #[trigger] s.subrange(j, j + 2) != "}}"@ by {
        let k = j - 2;
        assert(s[j] == raw[k]);
        if s.subrange(j, j + 2) == "}}"@ {
            assert(s.subrange(j, j + 2)[0] == '}' && s.subrange(j, j + 2)[1] == '}');
            assert(s[j + 1] == '}');
            if n + 1 <= k < n + 1 + p.len() {
                assert(raw[k] == p[k - n - 1]);
                assert(s[j + 1] == raw[k + 1]);
                if k + 1 < n + 1 + p.len() {
                    assert(raw[k + 1] == p[k - n]);
                }
            }
        }
    }
    assert(s.subrange(close, close + 2) =~= "}}"@);
    lemma_find_at(s, "}}"@, 2, close);
    assert(s.subrange(2, close) =~= raw);
    let tag = if n == 0 {
        p
    } else {
        sigil + " "@ + p
    };
    assert(trimmed(raw) == tag) by {
        let (l, r) = lemma_trimmed(raw);
        assert(raw[raw.len() - 1] == ' ');
        assert(is_space(' '));
        assert(raw[n + p.len()] == p[p.len() - 1]);
        assert(r == raw.len() - 1) by {
            if r < raw.len() - 1 {
                assert(is_space(raw[n + p.len()]));
            }
            if r == raw.len() {
                assert(!is_space(raw[r - 1]));
            }
        }
        if n == 0 {
            assert(raw[0] == ' ');
            assert(raw[1] == p[0]);
            assert(l == 1) by {
                if l == 0 {
                    assert(!is_space(raw[0]));
                }
                if l > 1 {
                    assert(is_space(raw[1]));
                }
            }
        } else {
            assert(raw[0] == sigil[0]);
            assert(l == 0) by {
                if l > 0 {
                    assert(is_space(raw[0]));
                }
            }
        }
        assert(raw.subrange(l, r) =~= tag);
    }
    assert(s.subrange(0, 0).len() == 0);
    if n == 1 {
        let after = tag.skip(1);
        assert(after =~= " "@ + p);
        let (l, r) = lemma_trimmed(after);
        assert(is_space(after[0]));
        assert(after[1] == p[0]);
        assert(after[p.len() as int] == p[p.len() - 1]);
        assert(l == 1) by {
            if l > 1 {
                assert(is_space(after[1]));
            }
        }
        assert(r == after.len()) by {
            if r < after.len() {
                assert(is_space(after[after.len() - 1]));
            }
        }
        assert(after.subrange(l, r) =~= p);
    }
    if let Ok(next) = with_tag(stack, tag) {
        lemma_parse_shift(w, rest, 0, next);
        assert(w.len() == close + 2);
    }
}

/// A text that a tag or nothing follows is read as a text.
proof fn lemma_written_text(t: Seq<char>, rest: Seq<char>, stack: Seq<FrameView>)
    requires
        stack.len() > 0,
        t.len() > 0,
        no_opening_pair(t),
        rest.len() > 0 ==> begins(rest, "{{"@) && t.last() != '{',
    ensures
        parse_from(t + rest, 0, stack) == parse_from(rest, 0, with_node(stack, NodeView::Text(t))),
{
    reveal_strlit("{{");
    reveal_strlit("}}");
    let s = t + rest;
    let next = with_node(stack, NodeView::Text(t));
    let n = t.len() as int;
    assert forall|j: int| 0 <= j && j + 2 <= s.len() && j < n implies #[trigger] s.subrange(
        j,
        j + 2,
    ) != "{{"@ by {
        if s.subrange(j, j + 2) == "{{"@ {
            assert(s.subrange(j, j + 2)[0] == s[j] && s.subrange(j, j + 2)[1] == s[j + 1]);
            assert(s[j] == t[j]);
            if j + 1 < n {
                assert(s[j + 1] == t[j + 1]);
            }
        }
    }
    if rest.len() == 0 {
        assert(s =~= t);
        lemma_not_found(s, 0);
        assert(s.subrange(0, s.len() as int) =~= t);
        lemma_not_found(rest, 0);
        assert(rest.subrange(0, 0).len() == 0);
    } else {
        assert(rest.subrange(0, 2) == "{{"@);
        assert(s.subrange(n, n + 2) =~= rest.subrange(0, 2));
        lemma_find_at(s, "{{"@, 0, n);
        assert(find_from(rest, "{{"@, 0) == Some(0int));
        lemma_find_shift(t, rest, "}}"@, 2);
        assert(s.subrange(0, n) =~= t);
        assert(rest.subrange(0, 0).len() == 0);
        if let Some(close) = find_from(rest, "}}"@, 2) {
            lemma_find_bounds(rest, "}}"@, 2);
            assert(s.subrange(n + 2, n + close) =~= rest.subrange(2, close));
            if let Ok(after) = with_tag(next, trimmed(rest.subrange(2, close))) {
                lemma_parse_shift(t, rest, close + 2, after);
            }
        }
    }
}

proof fn lemma_not_found(s: Seq<char>, i: int)
    requires
        0 <= i,
        forall|j: int| i <= j && j + 2 <= s.len() ==> #[trigger] s.subrange(j, j + 2) != "{{"@,
    ensures
        find_from(s, "{{"@, i) is None,
    decreases s.len() + 1 - i,
{
    reveal_strlit("{{");
    if i + 2 <= s.len() {
        assert(s.subrange(i, i + 2) != "{{"@);
        lemma_not_found(s, i + 1);
    }
}

/// What is written begins with a tag, where the first node is no text.
proof fn lemma_written_begins(nodes: Seq<NodeView>, rest: Seq<char>)
    requires
        nodes.len() > 0,
        !(nodes[0] is Text),
    ensures
        begins(written(nodes) + rest, "{{"@),
        written(nodes).len() > 0,
{
    reveal_strlit("{{");
    let s = written(nodes) + rest;
    let w = written_node(nodes[0]);
    assert(written(nodes) == w + written(nodes.skip(1)));
    match nodes[0] {
        NodeView::Var(path) => {
            assert(w == written_tag(Seq::empty(), path));
            assert(w[0] == '{' && w[1] == '{');
        },
        NodeView::Section { path, inverted, body } => {
            let tag = written_tag(seq![if inverted { '^' } else { '#' }], path);
            assert(w == tag + written(body) + written_tag(seq!['/'], path));
            assert(tag[0] == '{' && tag[1] == '{');
            assert(w[0] == tag[0] && w[1] == tag[1]);
        },
        NodeView::Text(_) => {},
    }
    assert(s[0] == w[0] && s[1] == w[1]);
    assert(s.subrange(0, 2) =~= "{{"@);
}

/// A written section is read as a section, where its body is read as its body.
proof fn lemma_written_section(
    path: PathView,
    inverted: bool,
    body: Seq<NodeView>,
    more: Seq<char>,
    stack: Seq<FrameView>,
)
    requires
        stack.len() > 0,
        is_readable_path(path),
        ({
            let closing = written_tag(seq!['/'], path);
            let inner = stack.push(
                FrameView {
                    header: Some((path, inverted, path_text(path))),
                    nodes: Seq::empty(),
                },
            );
            parse_from(written(body) + (closing + more), 0, inner) == parse_from(
                closing + more,
                0,
                with_nodes(inner, body),
            )
        }),
    ensures
        parse_from(
            written_node(NodeView::Section { path, inverted, body }) + more,
            0,
            stack,
        ) == parse_from(
            more,
            0,
            with_node(stack, NodeView::Section { path, inverted, body }),
        ),
{
    reveal_strlit(" ");
    let node = NodeView::Section { path, inverted, body };
    let p = path_text(path);
    let sigil = seq![if inverted { '^' } else { '#' }];
    let slash = seq!['/'];
    let closing = written_tag(slash, path);
    a_written_path_reads_back(path);
    assert(written_node(node) == written_tag(sigil, path) + written(body) + closing);
    assert(written_node(node) + more =~= written_tag(sigil, path) + (written(body) + (closing
        + more)));
    lemma_written_tag(sigil, path, written(body) + (closing + more), stack);
    let inner = stack.push(
        FrameView { header: Some((path, inverted, p)), nodes: Seq::empty() },
    );
    let open_tag = sigil + " "@ + p;
    assert(open_tag[0] == sigil[0]);
    assert(with_tag(stack, open_tag) == Ok::<Seq<FrameView>, RenderErrorView>(inner));
    let full = with_nodes(inner, body);
    lemma_written_tag(slash, path, more, full);
    let close_tag = slash + " "@ + p;
    assert(close_tag[0] == '/');
    assert(full.last().nodes =~= body);
    assert(full.drop_last() =~= stack);
    assert(with_tag(full, close_tag) == Ok::<Seq<FrameView>, RenderErrorView>(
        with_node(stack, node),
    ));
}

/// Written nodes are read as those nodes.
proof fn lemma_written_parses(nodes: Seq<NodeView>, rest: Seq<char>, stack: Seq<FrameView>)
    requires
        stack.len() > 0,
        is_readable(nodes, rest.len() > 0),
        rest.len() > 0 ==> begins(rest, "{{"@),
    ensures
        parse_from(written(nodes) + rest, 0, stack) == parse_from(
            rest,
            0,
            with_nodes(stack, nodes),
        ),
    decreases nodes,
{
    if nodes.len() == 0 {
        assert(written(nodes) + rest =~= rest);
        assert(with_nodes(stack, nodes) =~= stack) by {
            assert(stack.last().nodes + nodes =~= stack.last().nodes);
            assert(stack.drop_last().push(stack.last()) =~= stack);
        }
    } else {
        let node = nodes[0];
        let tail = nodes.skip(1);
        let more = written(tail) + rest;
        let next = with_node(stack, node);
        assert(is_readable_node(node));
        lemma_tail_readable(nodes, rest.len() > 0);
        assert(written(nodes) + rest =~= written_node(node) + more);
        if tail.len() > 0 && !(tail[0] is Text) {
            lemma_written_begins(tail, rest);
        }
        assert(decreases_to!(nodes => tail));
        match node {
            NodeView::Text(t) => {
                if tail.len() > 0 {
                    assert(tail[0] == nodes[1]);
                } else {
                    assert(more =~= rest);
                }
                lemma_written_text(t, more, stack);
            },
            NodeView::Var(path) => {
                a_written_path_reads_back(path);
                lemma_written_tag(Seq::empty(), path, more, stack);
            },
            NodeView::Section { path, inverted, body } => {
                assert(decreases_to!(nodes => node));
                assert(decreases_to!(node => node->body));
                let closing = written_tag(seq!['/'], path);
                let inner = stack.push(
                    FrameView {
                        header: Some((path, inverted, path_text(path))),
                        nodes: Seq::empty(),
                    },
                );
                lemma_written_tag(seq!['/'], path, more, inner);
                lemma_written_parses(body, closing + more, inner);
                lemma_written_section(path, inverted, body, more, stack);
            },
        }
        assert(parse_from(written(nodes) + rest, 0, stack) == parse_from(more, 0, next));
        lemma_written_parses(tail, rest, next);
        assert(with_nodes(next, tail) =~= with_nodes(stack, nodes)) by {
            assert(stack.last().nodes.push(node) + tail =~= stack.last().nodes + nodes);
            assert(next.drop_last() =~= stack.drop_last());
        }
    }
}

proof fn lemma_tail_readable(nodes: Seq<NodeView>, closed: bool)
    requires
        nodes.len() > 0,
        is_readable(nodes, closed),
    ensures
        is_readable(nodes.skip(1), closed),
{
    let tail = nodes.skip(1);
    assert forall|i: int| 0 <= i < tail.len() implies is_readable_node(#[trigger] tail[i]) by {
        assert(tail[i] == nodes[i + 1]);
    }
    assert forall|i: int| 0 < i < tail.len() && (#[trigger] tail[i]) is Text implies !(tail[i - 1]
        is Text) by {
        assert(tail[i] == nodes[i + 1] && tail[i - 1] == nodes[i]);
    }
    assert forall|i: int|
        0 <= i < tail.len() && (#[trigger] tail[i]) is Text && (i + 1 < tail.len()
            || closed) implies tail[i]->Text_0.last() != '{' by {
        assert(tail[i] == nodes[i + 1]);
    }
}

/// Nodes that can be written are read back from what is written of them.
pub proof fn written_nodes_are_read_back(nodes: Seq<NodeView>)
    requires
        is_readable(nodes, false),
    ensures
        parsed(written(nodes)) == Ok::<Seq<NodeView>, RenderErrorView>(nodes),
{
    let bottom = seq![FrameView { header: None, nodes: Seq::empty() }];
    let none = Seq::<char>::empty();
    lemma_written_parses(nodes, none, bottom);
    assert(written(nodes) + none =~= written(nodes));
    let done = with_nodes(bottom, nodes);
    assert(done.last().nodes =~= nodes);
    reveal_strlit("{{");
    assert(find_from(none, "{{"@, 0) is None);
    assert(with_text(done, none.subrange(0, 0)) == done);
}

/// Parsing what a parsed template is written back as gives the same nodes.
pub proof fn a_written_template_reads_back(t: Seq<char>)
    requires
        parsed(t) is Ok,
    ensures
        parsed(written(parsed(t)->Ok_0)) == parsed(t),
{
    parsing_gives_readable_nodes(t);
    written_nodes_are_read_back(parsed(t)->Ok_0);
}

} // verus!
