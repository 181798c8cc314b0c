//! The `{{Ex.path}}` template dialect: a strict, typed, logic-less engine
//! for step inputs and solver templates.
//!
//! ## Contract
//! - Variables: `{{E0.values.0.id}}`: dotted keys, numeric indices,
//!   `.length` (arrays/strings) as the final segment.
//! - Roots: step ids (`E0`, `E1`, …) and `input`. Root-anchored paths are
//!   strict: failures carry a typed reason (see `RenderError`).
//! - Typed splice: a step-input string that is exactly one variable tag
//!   resolves to the raw JSON value (numbers stay numbers, arrays stay
//!   arrays). Mixed text interpolates; objects/arrays serialize as JSON.
//! - Sections: `{{#arr}}…{{/arr}}` iterates with a context stack;
//!   `{{@index}}`/`{{@first}}`/`{{@last}}` are available inside. `{{^x}}`
//!   renders when falsy/empty. Missing keys *under an existing root* are
//!   falsy in section position; bare keys missing on a list item render
//!   empty (items may omit optional fields).
//! - Not supported: partials, blocks, parents, comments, HTML escaping.

pub mod braces;
pub mod keeping;
pub mod laws;
pub mod mentions;
pub mod parser;
pub mod paths;
pub mod renaming;
pub mod render;
pub mod rewriting;
pub mod undoing;

use crate::seqs::{adding_new, distinct, lemma_adding_new_concat};
use crate::template::parser::{
    lemma_tag_bounds, nodes_view, parse, parsed, segs_view, Node, NodeView, Path, PathView, Seg,
    SegView,
};
use crate::text::{
    cat2, cat3, cat4, chars_of, decimal_usize, find_chars, find_from, join, joined, lists, numeral,
    same_text, slice_chars, slice_text, text_of, texts, trim_chars, trim_start, trim_start_chars,
    trimmed,
};
use vstd::prelude::*;

pub use render::{render_input, render_str, render_value, Roots};

verus! {

/// Why a template failed to render. The caller decides policy:
/// `MissingStep`/`BadPath` are plan defects (replan in `plan_and_execute`,
/// hard failure for explicit plans); `EmptyData` means the plan was fine
/// but the data ran out (degrade to the solver, never replan).
#[derive(Debug)]
pub enum RenderError {
    MissingStep { step: String, available: Vec<String> },
    BadPath { path: String, reason: String },
    EmptyData { path: String, reason: String },
    Parse(String),
}

/// The model of a [`RenderError`].
pub enum RenderErrorView {
    MissingStep { step: Seq<char>, available: Seq<Seq<char>> },
    BadPath { path: Seq<char>, reason: Seq<char> },
    EmptyData { path: Seq<char>, reason: Seq<char> },
    Parse(Seq<char>),
}

/// The message of a rendering failure.
pub open spec fn render_message(e: RenderErrorView) -> Seq<char> {
    match e {
        RenderErrorView::MissingStep { step, available } => "template references step '"@ + step
            + "' which has no result (available: "@ + joined(available, ", "@) + ")"@,
        RenderErrorView::BadPath { path, reason } => "bad path '"@ + path + "': "@ + reason,
        RenderErrorView::EmptyData { path, reason } => "empty data at '"@ + path + "': "@ + reason,
        RenderErrorView::Parse(message) => "template parse error: "@ + message,
    }
}

impl RenderError {
    pub open spec fn view(&self) -> RenderErrorView {
        match self {
            RenderError::MissingStep { step, available } => RenderErrorView::MissingStep {
                step: step@,
                available: texts(available@),
            },
            RenderError::BadPath { path, reason } => RenderErrorView::BadPath {
                path: path@,
                reason: reason@,
            },
            RenderError::EmptyData { path, reason } => RenderErrorView::EmptyData {
                path: path@,
                reason: reason@,
            },
            RenderError::Parse(message) => RenderErrorView::Parse(message@),
        }
    }

    /// The message shown to people and planners.
    pub fn message(&self) -> (r: String)
        ensures
            r@ == render_message(self@),
    {
        match self {
            RenderError::MissingStep { step, available } => crate::text::cat5(
                "template references step '",
                step.as_str(),
                "' which has no result (available: ",
                join(available, ", ").as_str(),
                ")",
            ),
            RenderError::BadPath { path, reason } => cat4(
                "bad path '",
                path.as_str(),
                "': ",
                reason.as_str(),
            ),
            RenderError::EmptyData { path, reason } => cat4(
                "empty data at '",
                path.as_str(),
                "': ",
                reason.as_str(),
            ),
            RenderError::Parse(message) => cat2("template parse error: ", message.as_str()),
        }
    }
}

// ── References ───────────────────────────────────────────────────────────

/// The root that a path in a given position refers to: the first key of a
/// data path, except that inside a section a bare key reads the item.
pub open spec fn root_ref(path: PathView, in_section: bool) -> Option<Seq<char>> {
    match path {
        PathView::Data(segs) => if segs.len() == 0 || (in_section && segs.len() == 1) {
            None
        } else {
            match segs[0] {
                SegView::Key(root) => Some(root),
                _ => None,
            }
        },
        _ => None,
    }
}

pub open spec fn as_seq<A>(o: Option<A>) -> Seq<A> {
    match o {
        Some(a) => seq![a],
        None => Seq::empty(),
    }
}

/// Every root that nodes refer to, in order, with repetitions.
pub open spec fn root_refs(nodes: Seq<NodeView>, in_section: bool) -> Seq<Seq<char>>
    decreases nodes,
{
    if nodes.len() == 0 {
        Seq::empty()
    } else {
        root_refs(nodes.drop_last(), in_section) + match nodes.last() {
            NodeView::Text(_) => Seq::empty(),
            NodeView::Var(path) => as_seq(root_ref(path, in_section)),
            NodeView::Section { path, body, .. } => as_seq(root_ref(path, in_section)) + root_refs(
                body,
                true,
            ),
        }
    }
}

/// The root names a template refers to, each once, in order of first use.
pub open spec fn roots_of(template: Seq<char>) -> Result<Seq<Seq<char>>, RenderErrorView> {
    match parsed(template) {
        Ok(nodes) => Ok(distinct(root_refs(nodes, false))),
        Err(e) => Err(e),
    }
}

pub open spec fn texts_result(r: Result<Vec<String>, RenderError>) -> Result<
    Seq<Seq<char>>,
    RenderErrorView,
> {
    match r {
        Ok(v) => Ok(texts(v@)),
        Err(e) => Err(e@),
    }
}

/// Adds a name unless it is already listed.
pub fn add_new(names: &mut Vec<String>, name: String)
    ensures
        texts(final(names)@) == adding_new(texts(old(names)@), seq![name@]),
{
    let ghost before = names@;
    let ghost added = seq![name@];
    assert(added.drop_last() =~= Seq::empty());
    assert(adding_new(texts(before), added.drop_last()) == texts(before));
    if !lists(names, name.as_str()) {
        names.push(name);
        assert(texts(names@) =~= texts(before).push(name@));
    }
}

/// Adds the root that a path refers to.
fn collect_root(path: &Path, in_section: bool, roots: &mut Vec<String>)
    ensures
        texts(final(roots)@) == adding_new(texts(old(roots)@), as_seq(root_ref(path@, in_section))),
{
    if let Path::Data(segs) = path {
        if segs.len() > 0 && !(in_section && segs.len() == 1) {
            if let Seg::Key(root) = &segs[0] {
                add_new(roots, root.clone());
            }
        }
    }
}

/// Adds the roots that nodes refer to.
fn collect_roots(nodes: &Vec<Node>, in_section: bool, roots: &mut Vec<String>)
    ensures
        texts(final(roots)@) == adding_new(
            texts(old(roots)@),
            root_refs(nodes_view(nodes@), in_section),
        ),
    decreases nodes,
{
    let ghost start = texts(roots@);
    let ghost all = nodes_view(nodes@);
    let mut i: usize = 0;
    assert(all.take(0) =~= Seq::empty());
    while i < nodes.len()
        invariant
            i <= nodes@.len(),
            all == nodes_view(nodes@),
            texts(roots@) == adding_new(start, root_refs(all.take(i as int), in_section)),
        decreases nodes.len() - i,
    {
        let node = &nodes[i];
        let ghost before = texts(roots@);
        let ghost prefix = root_refs(all.take(i as int), in_section);
        proof {
            assert(all.take(i + 1).drop_last() =~= all.take(i as int));
            assert(all.take(i + 1).last() == node@);
        }
        match node {
            Node::Text(_) => {
                assert(prefix + Seq::<Seq<char>>::empty() =~= prefix);
            },
            Node::Var(path) => {
                collect_root(path, in_section, roots);
                proof {
                    lemma_adding_new_concat(start, prefix, as_seq(root_ref(path@, in_section)));
                }
            },
            Node::Section { path, inverted: _, body } => {
                collect_root(path, in_section, roots);
                collect_roots(body, true, roots);
                proof {
                    let own = as_seq(root_ref(path@, in_section));
                    let inner = root_refs(nodes_view(body@), true);
                    lemma_adding_new_concat(start, prefix, own + inner);
                    lemma_adding_new_concat(adding_new(start, prefix), own, inner);
                }
            },
        }
        i += 1;
    }
    assert(all.take(i as int) =~= all);
}

/// Parses a template and returns the root names it references (`E0`,
/// `input`, …), used by static plan validation to check reference ordering.
/// Bare keys inside a section body read the current item, not a root, so
/// they are not reported (same scoping rule as `rewrite_root` and
/// `referenced_paths`); dotted paths are root-anchored everywhere.
pub fn referenced_roots(template: &str) -> (r: Result<Vec<String>, RenderError>)
    ensures
        texts_result(r) == roots_of(template@),
{
    let nodes = parse(template)?;
    let mut roots: Vec<String> = Vec::new();
    assert(texts(roots@) =~= Seq::empty());
    collect_roots(&nodes, false, &mut roots);
    Ok(roots)
}

/// A segment as it is written.
pub open spec fn seg_text(seg: SegView) -> Seq<char> {
    match seg {
        SegView::Key(key) => key,
        SegView::Index(i) => numeral(i),
        SegView::Length => "length"@,
    }
}

pub open spec fn seg_texts(segs: Seq<SegView>) -> Seq<Seq<char>> {
    Seq::new(segs.len(), |i: int| seg_text(segs[i]))
}

/// A dotted path as it is written.
pub open spec fn dotted(segs: Seq<SegView>) -> Seq<char> {
    joined(seg_texts(segs), "."@)
}

/// A data path in full: as written when it is anchored at a root, otherwise
/// relative to the items of the enclosing section `prefix`.
pub open spec fn anchored_text(segs: Seq<SegView>, prefix: Seq<char>) -> Seq<char> {
    if segs.len() > 1 || prefix.len() == 0 {
        dotted(segs)
    } else {
        prefix + ".*."@ + dotted(segs)
    }
}

/// A path worth reporting: not empty, not a loop variable.
pub open spec fn reported(path: Seq<char>) -> Seq<Seq<char>> {
    if path.len() == 0 || path[0] == '@' {
        Seq::empty()
    } else {
        seq![path]
    }
}

/// Every data path that nodes refer to, in order, with repetitions.
pub open spec fn path_refs(nodes: Seq<NodeView>, prefix: Seq<char>) -> Seq<Seq<char>>
    decreases nodes,
{
    if nodes.len() == 0 {
        Seq::empty()
    } else {
        path_refs(nodes.drop_last(), prefix) + match nodes.last() {
            NodeView::Var(PathView::Data(segs)) => reported(anchored_text(segs, prefix)),
            NodeView::Section { path: PathView::Data(segs), body, .. } => reported(
                anchored_text(segs, prefix),
            ) + path_refs(body, anchored_text(segs, prefix)),
            NodeView::Section { body, .. } => path_refs(body, prefix),
            _ => Seq::empty(),
        }
    }
}

/// The data paths a template refers to, each once, in order of first use.
pub open spec fn paths_of(template: Seq<char>) -> Result<Seq<Seq<char>>, RenderErrorView> {
    match parsed(template) {
        Ok(nodes) => Ok(distinct(path_refs(nodes, Seq::empty()))),
        Err(e) => Err(e),
    }
}

/// A segment as it is written.
pub fn write_seg(seg: &Seg) -> (r: String)
    ensures
        r@ == seg_text(seg@),
{
    match seg {
        Seg::Key(key) => key.clone(),
        Seg::Index(i) => decimal_usize(*i),
        Seg::Length => "length".to_owned(),
    }
}

/// A data path in full.
fn write_path(segs: &Vec<Seg>, prefix: &str) -> (r: String)
    ensures
        r@ == anchored_text(segs_view(segs@), prefix@),
{
    let mut parts: Vec<String> = Vec::new();
    let mut i: usize = 0;
    while i < segs.len()
        invariant
            i <= segs@.len(),
            parts@.len() == i,
            forall|k: int| 0 <= k < i ==> (#[trigger] parts@[k])@ == seg_text(segs@[k]@),
        decreases segs.len() - i,
    {
        parts.push(write_seg(&segs[i]));
        i += 1;
    }
    assert(texts(parts@) =~= seg_texts(segs_view(segs@)));
    let text = join(&parts, ".");
    if segs.len() > 1 || prefix.is_empty() {
        text
    } else {
        cat3(prefix, ".*.", text.as_str())
    }
}

/// Adds a path worth reporting.
fn report_path(paths: &mut Vec<String>, path: &str)
    ensures
        texts(final(paths)@) == adding_new(texts(old(paths)@), reported(path@)),
{
    let chars = chars_of(path);
    if chars.len() > 0 && chars[0] != '@' {
        add_new(paths, path.to_owned());
    }
}

/// Adds the data paths that nodes refer to.
fn collect_paths(nodes: &Vec<Node>, prefix: &str, paths: &mut Vec<String>)
    ensures
        texts(final(paths)@) == adding_new(
            texts(old(paths)@),
            path_refs(nodes_view(nodes@), prefix@),
        ),
    decreases nodes,
{
    let ghost start = texts(paths@);
    let ghost all = nodes_view(nodes@);
    let mut i: usize = 0;
    assert(all.take(0) =~= Seq::empty());
    while i < nodes.len()
        invariant
            i <= nodes@.len(),
            all == nodes_view(nodes@),
            texts(paths@) == adding_new(start, path_refs(all.take(i as int), prefix@)),
        decreases nodes.len() - i,
    {
        let node = &nodes[i];
        let ghost seen = path_refs(all.take(i as int), prefix@);
        proof {
            assert(all.take(i + 1).drop_last() =~= all.take(i as int));
            assert(all.take(i + 1).last() == node@);
        }
        match node {
            Node::Var(Path::Data(segs)) => {
                let text = write_path(segs, prefix);
                report_path(paths, text.as_str());
                proof {
                    lemma_adding_new_concat(start, seen, reported(text@));
                }
            },
            Node::Section { path: Path::Data(segs), inverted: _, body } => {
                let text = write_path(segs, prefix);
                report_path(paths, text.as_str());
                collect_paths(body, text.as_str(), paths);
                proof {
                    let inner = path_refs(nodes_view(body@), text@);
                    lemma_adding_new_concat(start, seen, reported(text@) + inner);
                    lemma_adding_new_concat(adding_new(start, seen), reported(text@), inner);
                }
            },
            Node::Section { path: _, inverted: _, body } => {
                collect_paths(body, prefix, paths);
                proof {
                    lemma_adding_new_concat(start, seen, path_refs(nodes_view(body@), prefix@));
                }
            },
            _ => {
                assert(seen + Seq::<Seq<char>>::empty() =~= seen);
            },
        }
        i += 1;
    }
    assert(all.take(i as int) =~= all);
}

/// Parses a template and returns every full data path it references, dotted
/// (`E0.values.0.id`, `input.team`). Section paths are included; paths
/// referenced *inside* a section body relative to its items are emitted
/// with a `*` item marker (`{{#E1.values}}{{id}}{{/}}` → `E1.values.*.id`)
/// so callers can tell users which fields a value must contain. Loop
/// pseudo-vars (`@index` …) are omitted.
pub fn referenced_paths(template: &str) -> (r: Result<Vec<String>, RenderError>)
    ensures
        texts_result(r) == paths_of(template@),
{
    let nodes = parse(template)?;
    let mut paths: Vec<String> = Vec::new();
    assert(texts(paths@) =~= Seq::empty());
    assert(""@ =~= Seq::empty()) by {
        reveal_strlit("");
    }
    collect_paths(&nodes, "", &mut paths);
    Ok(paths)
}

// ── Renaming a root ──────────────────────────────────────────────────────

/// The first character of a text, if it has one.
pub open spec fn first_char(s: Seq<char>) -> Option<char> {
    if s.len() == 0 { None } else { Some(s[0]) }
}

/// Whether a tag opens a section.
pub open spec fn opens(tag: Seq<char>) -> bool {
    first_char(tag) == Some('#') || first_char(tag) == Some('^')
}

/// Whether a tag closes a section.
pub open spec fn closes(tag: Seq<char>) -> bool {
    first_char(tag) == Some('/')
}

/// The sigil that a trimmed tag carries in front of its path.
pub open spec fn tag_sigil(tag: Seq<char>) -> Seq<char> {
    if opens(tag) || closes(tag) { tag.take(1) } else { Seq::empty() }
}

/// The path that a trimmed tag carries behind its sigil.
pub open spec fn tag_path(tag: Seq<char>) -> Seq<char> {
    if opens(tag) || closes(tag) { trim_start(tag.skip(1)) } else { tag }
}

/// What a tag becomes when the root `old` is renamed to `new`, or nothing
/// when it does not refer to that root. A bare name is a root only at the top
/// level.
pub open spec fn renamed_tag(
    raw: Seq<char>,
    old_root: Seq<char>,
    new_root: Seq<char>,
    at_root: bool,
) -> Option<Seq<char>> {
    let tag = trimmed(raw);
    let path = tag_path(tag);
    match find_from(path, "."@, 0) {
        Some(dot) => if path.take(dot) == old_root {
            Some(tag_sigil(tag) + new_root + path.skip(dot))
        } else {
            None
        },
        None => if path == old_root && at_root {
            Some(tag_sigil(tag) + new_root)
        } else {
            None
        },
    }
}

/// The text of `s` from position `i` on, at section depth `depth`, with the
/// root renamed.
pub open spec fn renamed_from(
    s: Seq<char>,
    i: int,
    depth: nat,
    old_root: Seq<char>,
    new_root: Seq<char>,
) -> Seq<char>
    decreases s.len() - i,
{
    proof {
        lemma_tag_bounds(s, i);
    }
    match find_from(s, "{{"@, i) {
        None => s.subrange(i, s.len() as int),
        Some(open) => match find_from(s, "}}"@, open + 2) {
            None => s.subrange(i, s.len() as int),
            Some(close) => {
                let raw = s.subrange(open + 2, close);
                let tag = trimmed(raw);
                let here: nat = if closes(tag) && depth > 0 { (depth - 1) as nat } else { depth };
                let after: nat = if opens(tag) { here + 1 } else { here };
                let written = match renamed_tag(raw, old_root, new_root, here == 0) {
                    Some(t) => "{{"@ + t + "}}"@,
                    None => s.subrange(open, close + 2),
                };
                s.subrange(i, open) + written + renamed_from(
                    s,
                    close + 2,
                    after,
                    old_root,
                    new_root,
                )
            },
        },
    }
}

/// A template with the root `old` renamed to `new`.
pub open spec fn renamed(
    template: Seq<char>,
    old_root: Seq<char>,
    new_root: Seq<char>,
) -> Seq<char> {
    renamed_from(template, 0, 0, old_root, new_root)
}

/// Rewrites one tag, given whether bare keys are root-anchored here.
fn rewrite_tag(raw: &Vec<char>, old_root: &str, new_root: &str, at_root: bool) -> (r: Option<
    String,
>)
    ensures
        (match r {
            Some(t) => Some(t@),
            None => None::<Seq<char>>,
        }) == renamed_tag(raw@, old_root@, new_root@, at_root),
{
    proof {
        reveal_strlit(".");
    }
    let tag = trim_chars(raw);
    let mut out = String::new();
    let mut path = slice_chars(&tag, 0, tag.len());
    assert(path@ =~= tag@);
    if tag.len() > 0 && (tag[0] == '#' || tag[0] == '^' || tag[0] == '/') {
        out = slice_text(&tag, 0, 1);
        assert(out@ =~= tag@.take(1));
        path = trim_start_chars(&slice_chars(&tag, 1, tag.len()));
        assert(tag@.subrange(1, tag@.len() as int) =~= tag@.skip(1));
    }
    assert(out@ =~= tag_sigil(tag@) && path@ == tag_path(tag@));
    match find_chars(&path, &chars_of("."), 0) {
        Some(dot) => {
            let root = slice_text(&path, 0, dot);
            assert(root@ =~= path@.take(dot as int));
            if same_text(root.as_str(), old_root) {
                let tail = slice_text(&path, dot, path.len());
                assert(tail@ =~= path@.skip(dot as int));
                Some(cat3(out.as_str(), new_root, tail.as_str()))
            } else {
                None
            }
        },
        None => {
            if at_root && same_text(text_of(&path).as_str(), old_root) {
                Some(cat2(out.as_str(), new_root))
            } else {
                None
            }
        },
    }
}

/// Rewrites every reference whose root is `old` to `new`: `{{old.x}}` →
/// `{{new.x}}`, including section (`{{#old.x}}`), inverted (`{{^old.x}}`),
/// and closing (`{{/old.x}}`) tags. Used when a step id is renamed so
/// downstream templates keep working. A lexical pass that tracks section
/// depth: bare keys inside a section body are item-relative, never roots,
/// so they are left alone even when they equal `old`. Matching tags are
/// re-emitted with inner whitespace normalized (the parser trims anyway);
/// everything else (text, non-matching tags, malformed tags) passes
/// through unchanged.
pub fn rewrite_root(template: &str, old_root: &str, new_root: &str) -> (r: String)
    ensures
        r@ == renamed(template@, old_root@, new_root@),
{
    proof {
        reveal_strlit("{{");
        reveal_strlit("}}");
    }
    let s = chars_of(template);
    let opener = chars_of("{{");
    let closer = chars_of("}}");
    let mut out = String::new();
    let mut depth: usize = 0;
    let mut i: usize = 0;
    assert(renamed(template@, old_root@, new_root@) =~= out@ + renamed_from(
        s@,
        0,
        0,
        old_root@,
        new_root@,
    ));
    loop
        invariant
            s@ == template@,
            opener@ == "{{"@,
            closer@ == "}}"@,
            opener@.len() == 2,
            closer@.len() == 2,
            depth <= i <= s@.len(),
            renamed(template@, old_root@, new_root@) == out@ + renamed_from(
                s@,
                i as int,
                depth as nat,
                old_root@,
                new_root@,
            ),
        decreases s.len() - i,
    {
        match find_chars(&s, &opener, i) {
            None => {
                out.append(slice_text(&s, i, s.len()).as_str());
                return out;
            },
            Some(open) => match find_chars(&s, &closer, open + 2) {
                None => {
                    out.append(slice_text(&s, i, s.len()).as_str());
                    return out;
                },
                Some(close) => {
                    let raw = slice_chars(&s, open + 2, close);
                    let tag = trim_chars(&raw);
                    if tag.len() > 0 && tag[0] == '/' && depth > 0 {
                        depth -= 1;
                    }
                    out.append(slice_text(&s, i, open).as_str());
                    let written = match rewrite_tag(&raw, old_root, new_root, depth == 0) {
                        Some(t) => cat3("{{", t.as_str(), "}}"),
                        None => slice_text(&s, open, close + 2),
                    };
                    out.append(written.as_str());
                    if tag.len() > 0 && (tag[0] == '#' || tag[0] == '^') {
                        depth += 1;
                    }
                    i = close + 2;
                },
            },
        }
    }
}

} // verus!
