//! Template parsing: `{{path}}`, `{{#section}}…{{/section}}`,
//! `{{^inverted}}…{{/inverted}}`, with dotted paths, numeric indices,
//! `.length`, and `@index`/`@first`/`@last` loop variables.

use crate::seqs::{collected, lemma_collected_error, lemma_collected_step};
use crate::template::{RenderError, RenderErrorView};
use crate::text::{
    all_digits, cat3, cat5, chars_of, digits_only, find_chars, find_from, number_of, parse_digits,
    same_text, slice_chars, slice_text, split, split_chars, text_of, trim_chars, trimmed,
};
use vstd::prelude::*;

verus! {

/// One segment of a dotted path.
#[derive(Debug, PartialEq)]
pub enum Seg {
    Key(String),
    Index(usize),
    /// `.length` on arrays and strings.
    Length,
}

#[derive(Debug, PartialEq)]
pub enum Path {
    /// Dotted data path, e.g. `E0.values.0.id`.
    Data(Vec<Seg>),
    /// Loop variables, only meaningful inside a section.
    AtIndex,
    AtFirst,
    AtLast,
}

#[derive(Debug, PartialEq)]
pub enum Node {
    Text(String),
    Var(Path),
    Section { path: Path, inverted: bool, body: Vec<Node> },
}

pub enum SegView {
    Key(Seq<char>),
    Index(nat),
    Length,
}

pub enum PathView {
    Data(Seq<SegView>),
    AtIndex,
    AtFirst,
    AtLast,
}

pub enum NodeView {
    Text(Seq<char>),
    Var(PathView),
    Section { path: PathView, inverted: bool, body: Seq<NodeView> },
}

impl Seg {
    pub open spec fn view(&self) -> SegView {
        match self {
            Seg::Key(k) => SegView::Key(k@),
            Seg::Index(i) => SegView::Index(*i as nat),
            Seg::Length => SegView::Length,
        }
    }
}

pub open spec fn segs_view(s: Seq<Seg>) -> Seq<SegView> {
    Seq::new(s.len(), |i: int| s[i]@)
}

impl Path {
    pub open spec fn view(&self) -> PathView {
        match self {
            Path::Data(segs) => PathView::Data(segs_view(segs@)),
            Path::AtIndex => PathView::AtIndex,
            Path::AtFirst => PathView::AtFirst,
            Path::AtLast => PathView::AtLast,
        }
    }
}

pub open spec fn nodes_view(s: Seq<Node>) -> Seq<NodeView>
    decreases s,
{
    Seq::new(
        s.len(),
        |i: int| if 0 <= i < s.len() { s[i].view() } else { NodeView::Text(Seq::empty()) },
    )
}

impl Node {
    pub open spec fn view(&self) -> NodeView
        decreases self,
    {
        match self {
            Node::Text(t) => NodeView::Text(t@),
            Node::Var(path) => NodeView::Var(path@),
            Node::Section { path, inverted, body } => NodeView::Section {
                path: path@,
                inverted: *inverted,
                body: nodes_view(body@),
            },
        }
    }
}

// ── Paths ────────────────────────────────────────────────────────────────

/// What one dot-separated part of the path `raw` reads as.
pub open spec fn seg_of(raw: Seq<char>, part: Seq<char>) -> Result<SegView, RenderErrorView> {
    if part.len() == 0 {
        Err(RenderErrorView::Parse("empty segment in path '"@ + raw + "'"@))
    } else if part == "length"@ {
        Ok(SegView::Length)
    } else if all_digits(part) {
        if number_of(part) <= usize::MAX {
            Ok(SegView::Index(number_of(part)))
        } else {
            Err(RenderErrorView::Parse("index too large in path '"@ + raw + "'"@))
        }
    } else if part[0] == '@' {
        Err(
            RenderErrorView::Parse(
                "loop variable "@ + part + " cannot appear inside a path"@,
            ),
        )
    } else {
        Ok(SegView::Key(part))
    }
}

/// What each part of the path `raw` reads as.
pub open spec fn seg_readings(raw: Seq<char>, parts: Seq<Seq<char>>) -> Seq<
    Result<SegView, RenderErrorView>,
> {
    Seq::new(parts.len(), |i: int| seg_of(raw, parts[i]))
}

/// What the text inside a tag reads as: a loop variable, or a dotted path
/// whose every part reads as a segment; otherwise the first part's error.
pub open spec fn path_of(raw: Seq<char>) -> Result<PathView, RenderErrorView> {
    if raw == "@index"@ {
        Ok(PathView::AtIndex)
    } else if raw == "@first"@ {
        Ok(PathView::AtFirst)
    } else if raw == "@last"@ {
        Ok(PathView::AtLast)
    } else if raw.len() == 0 {
        Err(RenderErrorView::Parse("empty path"@))
    } else {
        match collected(seg_readings(raw, split(raw, '.'))) {
            Ok(segs) => Ok(PathView::Data(segs)),
            Err(e) => Err(e),
        }
    }
}

pub open spec fn path_result(r: Result<Path, RenderError>) -> Result<PathView, RenderErrorView> {
    match r {
        Ok(p) => Ok(p@),
        Err(e) => Err(e@),
    }
}

/// Reads one part of a path.
fn parse_seg(raw: &str, part: &Vec<char>) -> (r: Result<Seg, RenderError>)
    ensures
        (match r {
            Ok(seg) => Ok::<SegView, RenderErrorView>(seg@),
            Err(e) => Err(e@),
        }) == seg_of(raw@, part@),
{
    if part.len() == 0 {
        return Err(RenderError::Parse(cat3("empty segment in path '", raw, "'")));
    }
    let text = text_of(part);
    if same_text(text.as_str(), "length") {
        Ok(Seg::Length)
    } else if digits_only(part) {
        match parse_digits(part) {
            Some(n) => Ok(Seg::Index(n)),
            None => Err(RenderError::Parse(cat3("index too large in path '", raw, "'"))),
        }
    } else if part[0] == '@' {
        Err(
            RenderError::Parse(
                cat3("loop variable ", text.as_str(), " cannot appear inside a path"),
            ),
        )
    } else {
        Ok(Seg::Key(text))
    }
}

/// Reads the path inside a tag.
pub fn parse_path(raw: &str) -> (r: Result<Path, RenderError>)
    ensures
        path_result(r) == path_of(raw@),
{
    if same_text(raw, "@index") {
        return Ok(Path::AtIndex);
    }
    if same_text(raw, "@first") {
        return Ok(Path::AtFirst);
    }
    if same_text(raw, "@last") {
        return Ok(Path::AtLast);
    }
    if raw.is_empty() {
        return Err(RenderError::Parse("empty path".to_owned()));
    }
    let parts = split_chars(&chars_of(raw), '.');
    let ghost readings = seg_readings(raw@, split(raw@, '.'));
    let mut segs: Vec<Seg> = Vec::new();
    let mut i: usize = 0;
    assert(readings.take(0) =~= Seq::empty());
    assert(segs_view(segs@) =~= Seq::empty());
    while i < parts.len()
        invariant
            i <= parts@.len(),
            parts@.len() == readings.len(),
            readings == seg_readings(raw@, split(raw@, '.')),
            forall|k: int| 0 <= k < parts@.len() ==> (#[trigger] parts@[k])@ == split(
                raw@,
                '.',
            )[k],
            collected(readings.take(i as int)) == Ok::<Seq<SegView>, RenderErrorView>(
                segs_view(segs@),
            ),
            path_of(raw@) == (match collected(readings) {
                Ok(segs) => Ok::<PathView, RenderErrorView>(PathView::Data(segs)),
                Err(e) => Err(e),
            }),
        decreases parts.len() - i,
    {
        proof {
            lemma_collected_step(readings, i as int);
            assert(readings[i as int] == seg_of(raw@, parts@[i as int]@));
        }
        match parse_seg(raw, &parts[i]) {
            Ok(seg) => {
                let ghost before = segs@;
                segs.push(seg);
                assert(segs_view(segs@) =~= segs_view(before).push(seg@));
            },
            Err(e) => {
                proof {
                    lemma_collected_error(readings, i + 1);
                }
                return Err(e);
            },
        }
        i += 1;
    }
    assert(readings.take(i as int) =~= readings);
    Ok(Path::Data(segs))
}

// ── Templates ────────────────────────────────────────────────────────────

/// A section that is still open, or the whole template at the bottom.
pub struct Frame {
    pub header: Option<(Path, bool, String)>,
    pub nodes: Vec<Node>,
}

/// The model of a [`Frame`].
pub struct FrameView {
    pub header: Option<(PathView, bool, Seq<char>)>,
    pub nodes: Seq<NodeView>,
}

impl Frame {
    pub open spec fn view(&self) -> FrameView {
        FrameView {
            header: match self.header {
                Some(h) => Some((h.0@, h.1, h.2@)),
                None => None,
            },
            nodes: nodes_view(self.nodes@),
        }
    }
}

pub open spec fn frames_view(s: Seq<Frame>) -> Seq<FrameView> {
    Seq::new(s.len(), |i: int| s[i]@)
}

/// The stack with one more node in the innermost open section.
pub open spec fn with_node(stack: Seq<FrameView>, node: NodeView) -> Seq<FrameView> {
    let top = stack.last();
    stack.drop_last().push(FrameView { header: top.header, nodes: top.nodes.push(node) })
}

/// The stack after some literal text.
pub open spec fn with_text(stack: Seq<FrameView>, text: Seq<char>) -> Seq<FrameView> {
    if text.len() == 0 { stack } else { with_node(stack, NodeView::Text(text)) }
}

/// The stack after one tag, whose trimmed inside is `tag`.
pub open spec fn with_tag(stack: Seq<FrameView>, tag: Seq<char>) -> Result<
    Seq<FrameView>,
    RenderErrorView,
> {
    if tag.len() == 0 {
        Err(RenderErrorView::Parse("empty {{}} tag"@))
    } else if tag[0] == '#' || tag[0] == '^' {
        let name = trimmed(tag.skip(1));
        match path_of(name) {
            Err(e) => Err(e),
            Ok(path) => Ok(
                stack.push(
                    FrameView {
                        header: Some((path, tag[0] == '^', name)),
                        nodes: Seq::empty(),
                    },
                ),
            ),
        }
    } else if tag[0] == '/' {
        let name = trimmed(tag.skip(1));
        match stack.last().header {
            None => Err(
                RenderErrorView::Parse("closing tag {{/"@ + name + "}} without an open section"@),
            ),
            Some((path, inverted, open_name)) => if open_name != name {
                Err(
                    RenderErrorView::Parse(
                        "section mismatch: opened {{#"@ + open_name + "}} but closed {{/"@ + name
                            + "}}"@,
                    ),
                )
            } else {
                Ok(
                    with_node(
                        stack.drop_last(),
                        NodeView::Section { path, inverted, body: stack.last().nodes },
                    ),
                )
            },
        }
    } else if tag[0] == '>' || tag[0] == '<' || tag[0] == '$' || tag[0] == '!' {
        Err(
            RenderErrorView::Parse(
                "unsupported tag {{"@ + tag
                    + "}} — partials, blocks, parents, and comments are not part of this dialect"@,
            ),
        )
    } else {
        match path_of(tag) {
            Err(e) => Err(e),
            Ok(path) => Ok(with_node(stack, NodeView::Var(path))),
        }
    }
}

/// What the text of `s` from position `i` on reads as, with `stack` open.
pub open spec fn parse_from(s: Seq<char>, i: int, stack: Seq<FrameView>) -> Result<
    Seq<NodeView>,
    RenderErrorView,
>
    decreases s.len() - i,
{
    proof {
        lemma_tag_bounds(s, i);
    }
    match find_from(s, "{{"@, i) {
        None => {
            let done = with_text(stack, s.subrange(i, s.len() as int));
            match done.last().header {
                Some((_, _, name)) => Err(
                    RenderErrorView::Parse("unclosed section {{#"@ + name + "}}"@),
                ),
                None => Ok(done.last().nodes),
            }
        },
        Some(open) => match find_from(s, "}}"@, open + 2) {
            None => Err(RenderErrorView::Parse("unclosed {{ tag"@)),
            Some(close) => match with_tag(
                with_text(stack, s.subrange(i, open)),
                trimmed(s.subrange(open + 2, close)),
            ) {
                Err(e) => Err(e),
                Ok(next) => parse_from(s, close + 2, next),
            },
        },
    }
}

/// What a whole template reads as.
pub open spec fn parsed(template: Seq<char>) -> Result<Seq<NodeView>, RenderErrorView> {
    parse_from(template, 0, seq![FrameView { header: None, nodes: Seq::empty() }])
}

/// Where a found pattern stands.
pub proof fn lemma_find_bounds(s: Seq<char>, pat: Seq<char>, i: int)
    ensures
        match find_from(s, pat, i) {
            Some(k) => 0 <= i <= k && k + pat.len() <= s.len() && s.subrange(k, k + pat.len())
                == pat,
            None => true,
        },
    decreases s.len() + 1 - i,
{
    if !(i < 0 || i + pat.len() > s.len()) && s.subrange(i, i + pat.len()) != pat {
        lemma_find_bounds(s, pat, i + 1);
    }
}

/// Where the next tag stands.
pub proof fn lemma_tag_bounds(s: Seq<char>, i: int)
    ensures
        match find_from(s, "{{"@, i) {
            Some(open) => 0 <= i <= open && open + 2 <= s.len() && match find_from(
                s,
                "}}"@,
                open + 2,
            ) {
                Some(close) => open + 2 <= close && close + 2 <= s.len(),
                None => true,
            },
            None => true,
        },
{
    reveal_strlit("{{");
    reveal_strlit("}}");
    lemma_find_bounds(s, "{{"@, i);
    if let Some(open) = find_from(s, "{{"@, i) {
        lemma_find_bounds(s, "}}"@, open + 2);
    }
}

pub open spec fn nodes_result(r: Result<Vec<Node>, RenderError>) -> Result<
    Seq<NodeView>,
    RenderErrorView,
> {
    match r {
        Ok(nodes) => Ok(nodes_view(nodes@)),
        Err(e) => Err(e@),
    }
}

/// Adds a node to the innermost open section.
fn push_node(stack: &mut Vec<Frame>, node: Node)
    requires
        old(stack)@.len() > 0,
    ensures
        frames_view(final(stack)@) == with_node(frames_view(old(stack)@), node@),
        final(stack)@.len() == old(stack)@.len(),
{
    let ghost before = stack@;
    if let Some(frame) = stack.pop() {
        let mut frame = frame;
        let ghost nodes = frame.nodes@;
        frame.nodes.push(node);
        assert(nodes_view(frame.nodes@) =~= nodes_view(nodes).push(node@));
        stack.push(frame);
        assert(frames_view(stack@) =~= with_node(frames_view(before), node@));
    }
}

/// Only the bottom frame is not a section.
pub open spec fn rooted(stack: Seq<FrameView>) -> bool {
    &&& stack.len() > 0
    &&& stack[0].header is None
    &&& forall|i: int| 0 < i < stack.len() ==> (#[trigger] stack[i]).header is Some
}

/// Handles one tag.
fn apply_tag(stack: &mut Vec<Frame>, tag: &Vec<char>) -> (r: Result<(), RenderError>)
    requires
        rooted(frames_view(old(stack)@)),
    ensures
        match r {
            Ok(_) => with_tag(frames_view(old(stack)@), tag@) == Ok::<
                Seq<FrameView>,
                RenderErrorView,
            >(frames_view(final(stack)@)) && rooted(frames_view(final(stack)@)),
            Err(e) => with_tag(frames_view(old(stack)@), tag@) == Err::<
                Seq<FrameView>,
                RenderErrorView,
            >(e@),
        },
{
    if tag.len() == 0 {
        return Err(RenderError::Parse("empty {{}} tag".to_owned()));
    }
    let c = tag[0];
    let ghost before = stack@;
    if c == '#' || c == '^' {
        let name = text_of(&trim_chars(&slice_chars(tag, 1, tag.len())));
        assert(tag@.subrange(1, tag@.len() as int) =~= tag@.skip(1));
        let path = parse_path(name.as_str())?;
        let nodes: Vec<Node> = Vec::new();
        assert(nodes_view(nodes@) =~= Seq::empty());
        let frame = Frame { header: Some((path, c == '^', name)), nodes };
        stack.push(frame);
        assert(frames_view(stack@) =~= frames_view(before).push(frame@));
        Ok(())
    } else if c == '/' {
        let name = text_of(&trim_chars(&slice_chars(tag, 1, tag.len())));
        assert(tag@.subrange(1, tag@.len() as int) =~= tag@.skip(1));
        let popped = stack.pop();
        assert(frames_view(stack@) =~= frames_view(before).drop_last());
        match popped {
            None => Ok(()),
            Some(frame) => {
                assert(frame@ == frames_view(before).last());
                match frame.header {
                    None => Err(
                        RenderError::Parse(
                            cat3("closing tag {{/", name.as_str(), "}} without an open section"),
                        ),
                    ),
                    Some((path, inverted, open_name)) => {
                        if !same_text(open_name.as_str(), name.as_str()) {
                            return Err(
                                RenderError::Parse(
                                    cat5(
                                        "section mismatch: opened {{#",
                                        open_name.as_str(),
                                        "}} but closed {{/",
                                        name.as_str(),
                                        "}}",
                                    ),
                                ),
                            );
                        }
                        push_node(stack, Node::Section { path, inverted, body: frame.nodes });
                        Ok(())
                    },
                }
            },
        }
    } else if c == '>' || c == '<' || c == '$' || c == '!' {
        Err(
            RenderError::Parse(
                cat3(
                    "unsupported tag {{",
                    text_of(tag).as_str(),
                    "}} — partials, blocks, parents, and comments are not part of this dialect",
                ),
            ),
        )
    } else {
        let path = parse_path(text_of(tag).as_str())?;
        push_node(stack, Node::Var(path));
        Ok(())
    }
}

/// Parses a template.
pub fn parse(template: &str) -> (r: Result<Vec<Node>, RenderError>)
    ensures
        nodes_result(r) == parsed(template@),
{
    proof {
        reveal_strlit("{{");
        reveal_strlit("}}");
    }
    let s = chars_of(template);
    let opener = chars_of("{{");
    let closer = chars_of("}}");
    let root: Vec<Node> = Vec::new();
    let mut stack: Vec<Frame> = Vec::new();
    stack.push(Frame { header: None, nodes: root });
    assert(nodes_view(root@) =~= Seq::empty());
    assert(frames_view(stack@) =~= seq![FrameView { header: None, nodes: Seq::empty() }]);
    let mut i: usize = 0;
    loop
        invariant
            s@ == template@,
            opener@ == "{{"@,
            closer@ == "}}"@,
            opener@.len() == 2,
            closer@.len() == 2,
            i <= s@.len(),
            rooted(frames_view(stack@)),
            parsed(template@) == parse_from(s@, i as int, frames_view(stack@)),
        decreases s.len() - i,
    {
        match find_chars(&s, &opener, i) {
            None => {
                if i < s.len() {
                    push_node(&mut stack, Node::Text(slice_text(&s, i, s.len())));
                }
                match stack.pop() {
                    None => {
                        return Err(RenderError::Parse("unclosed {{ tag".to_owned()));
                    },
                    Some(frame) => match frame.header {
                        Some((_, _, name)) => {
                            return Err(
                                RenderError::Parse(
                                    cat3("unclosed section {{#", name.as_str(), "}}"),
                                ),
                            );
                        },
                        None => {
                            return Ok(frame.nodes);
                        },
                    },
                }
            },
            Some(open) => match find_chars(&s, &closer, open + 2) {
                None => {
                    return Err(RenderError::Parse("unclosed {{ tag".to_owned()));
                },
                Some(close) => {
                    if i < open {
                        push_node(&mut stack, Node::Text(slice_text(&s, i, open)));
                    }
                    let tag = trim_chars(&slice_chars(&s, open + 2, close));
                    match apply_tag(&mut stack, &tag) {
                        Ok(_) => {},
                        Err(e) => {
                            return Err(e);
                        },
                    }
                    i = close + 2;
                },
            },
        }
    }
}

// ── A lone tag ───────────────────────────────────────────────────────────

/// The path of a template that is exactly one variable tag.
pub open spec fn exact_path(t: Seq<char>) -> Option<PathView> {
    match parsed(t) {
        Ok(nodes) => if nodes.len() == 1 && nodes[0] is Var {
            Some(nodes[0]->Var_0)
        } else {
            None
        },
        Err(_) => None,
    }
}

/// If `template` consists of exactly one variable tag (allowing surrounding
/// whitespace inside the braces only), returns its path: the typed-splice
/// case where the raw JSON value replaces the string wholesale.
pub fn exact_var(template: &str) -> (r: Option<Path>)
    ensures
        (match r {
            Some(p) => Some(p@),
            None => None::<PathView>,
        }) == exact_path(template@),
{
    let mut nodes = match parse(template) {
        Ok(nodes) => nodes,
        Err(_) => {
            return None;
        },
    };
    if nodes.len() != 1 {
        return None;
    }
    let ghost all = nodes@;
    assert(nodes_view(all)[0] == all[0]@);
    match nodes.pop() {
        Some(Node::Var(path)) => Some(path),
        _ => None,
    }
}

/// A template is spliced exactly where it parses as one variable tag.
pub proof fn a_lone_tag_is_all_there_is(t: Seq<char>, path: PathView)
    ensures
        exact_path(t) == Some(path) <==> parsed(t) == Ok::<Seq<NodeView>, RenderErrorView>(
            seq![NodeView::Var(path)],
        ),
{
    if let Some(p) = exact_path(t) {
        assert(parsed(t)->Ok_0 =~= seq![NodeView::Var(p)]);
    }
}

} // verus!
