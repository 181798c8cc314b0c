//! Evaluation: strict root resolution with a typed error taxonomy, context
//! stack for sections, loop variables, and typed splice.

use crate::json::{pretty, pretty_text};
use crate::seqs::{collected, lemma_collected_error, lemma_collected_step};
use crate::template::parser::{
    exact_path, exact_var, nodes_view, parse, parsed, segs_view, Node, NodeView, Path, PathView,
    Seg, SegView,
};
use crate::template::{seg_text, seg_texts, write_seg, RenderError, RenderErrorView};
use crate::text::{cat2, cat3, cat4, cat7, chars_of, decimal_usize, join, joined, numeral, texts};
use crate::value::{
    ascending, keys_of, list_shrinks, lookup, number_text, object_shrinks, values_view, Data,
    Entries, Fields, Json, Num,
};
use vstd::prelude::*;

verus! {

/// Root values available to templates: step results under `E0`, `E1`, …
/// and plan inputs under `input`.
pub struct Roots<'a> {
    pub map: &'a Fields,
}

impl<'a> Roots<'a> {
    pub open spec fn view(&self) -> Entries {
        self.map@
    }

    /// The roots held in an object.
    pub fn new(map: &'a Fields) -> (r: Roots<'a>)
        ensures
            r@ == map@,
    {
        Roots { map }
    }
}

pub open spec fn data_result(r: Result<Data, RenderError>) -> Result<Json, RenderErrorView> {
    match r {
        Ok(v) => Ok(v@),
        Err(e) => Err(e@),
    }
}

// ── Walking a path ───────────────────────────────────────────────────────

/// What kind of value something is, for messages.
pub open spec fn kind_text(v: Json) -> Seq<char> {
    match v {
        Json::Null => "null"@,
        Json::Bool(_) => "a boolean"@,
        Json::Num(_) => "a number"@,
        Json::Text(_) => "a string"@,
        Json::List(_) => "an array"@,
        Json::Object(_) => "an object"@,
    }
}

/// The path from `at` through the remaining segments.
pub open spec fn path_through(at: Seq<char>, segs: Seq<SegView>) -> Seq<char> {
    joined(seq![at] + seg_texts(segs), "."@)
}

/// The first keys of an object, listed for a message.
pub open spec fn key_digest(entries: Entries) -> Seq<char> {
    let keys = keys_of(entries);
    joined(if keys.len() > 12 { keys.take(12) } else { keys }, ", "@)
}

/// The value found from `current`, which stands at the path `at`, by
/// following `segs`. `EmptyData` where the data ran out: a null, or an array
/// too short for an index. `BadPath` where the path does not fit the data.
pub open spec fn walked(current: Json, segs: Seq<SegView>, at: Seq<char>) -> Result<
    Json,
    RenderErrorView,
>
    decreases segs.len(),
{
    if segs.len() == 0 {
        Ok(current)
    } else {
        match segs[0] {
            SegView::Length => match current {
                Json::List(items) => if segs.len() == 1 {
                    Ok(Json::Num(Num::Int(items.len() as int)))
                } else {
                    Err(
                        RenderErrorView::BadPath {
                            path: at,
                            reason: ".length must be the final segment"@,
                        },
                    )
                },
                Json::Text(s) => if segs.len() == 1 {
                    Ok(Json::Num(Num::Int(s.len() as int)))
                } else {
                    Err(
                        RenderErrorView::BadPath {
                            path: at,
                            reason: ".length must be the final segment"@,
                        },
                    )
                },
                other => Err(
                    RenderErrorView::BadPath {
                        path: at + ".length"@,
                        reason: ".length applies to arrays and strings, found "@ + kind_text(
                            other,
                        ),
                    },
                ),
            },
            SegView::Index(index) => match current {
                Json::List(items) => if index < items.len() {
                    walked(items[index as int], segs.skip(1), at + "."@ + numeral(index))
                } else {
                    Err(
                        RenderErrorView::EmptyData {
                            path: path_through(at, segs),
                            reason: if items.len() == 0 {
                                at + " is an empty array"@
                            } else {
                                at + " has "@ + numeral(items.len()) + " items; index "@ + numeral(
                                    index,
                                ) + " is out of range"@
                            },
                        },
                    )
                },
                Json::Null => Err(
                    RenderErrorView::EmptyData {
                        path: path_through(at, segs),
                        reason: at + " is null"@,
                    },
                ),
                other => Err(
                    RenderErrorView::BadPath {
                        path: path_through(at, segs),
                        reason: "cannot index into "@ + kind_text(other) + " at "@ + at,
                    },
                ),
            },
            SegView::Key(key) => match current {
                Json::Object(entries) => match lookup(entries, key) {
                    Some(child) => walked(child, segs.skip(1), at + "."@ + key),
                    None => Err(
                        RenderErrorView::BadPath {
                            path: path_through(at, segs),
                            reason: "no key '"@ + key + "' at "@ + at + " (available: "@
                                + key_digest(entries) + ")"@,
                        },
                    ),
                },
                Json::Null => Err(
                    RenderErrorView::EmptyData {
                        path: path_through(at, segs),
                        reason: at + " is null"@,
                    },
                ),
                other => Err(
                    RenderErrorView::BadPath {
                        path: path_through(at, segs),
                        reason: "cannot read key '"@ + key + "' from "@ + kind_text(other)
                            + " at "@ + at,
                    },
                ),
            },
        }
    }
}

/// What kind of value something is, for messages.
fn kind(value: &Data) -> (r: &'static str)
    ensures
        r@ == kind_text(value@),
{
    match value {
        Data::Null => "null",
        Data::Bool(_) => "a boolean",
        Data::Num(_) => "a number",
        Data::Text(_) => "a string",
        Data::List(_) => "an array",
        Data::Object(_) => "an object",
    }
}

/// The path from `at` through the segments from `from` on.
fn full_path(at: &str, segs: &Vec<Seg>, from: usize) -> (r: String)
    requires
        from <= segs@.len(),
    ensures
        r@ == path_through(at@, segs_view(segs@).skip(from as int)),
{
    let mut parts: Vec<String> = Vec::new();
    parts.push(at.to_owned());
    let mut i: usize = from;
    while i < segs.len()
        invariant
            from <= i <= segs@.len(),
            parts@.len() == 1 + (i - from),
            parts@[0]@ == at@,
            forall|k: int| from <= k < i ==> parts@[1 + k - from]@ == seg_text(#[trigger] segs@[k]@),
        decreases segs.len() - i,
    {
        parts.push(write_seg(&segs[i]));
        i += 1;
    }
    proof {
        let whole = seq![at@] + seg_texts(segs_view(segs@).skip(from as int));
        assert(texts(parts@).len() == whole.len());
        assert forall|k: int| 0 <= k < whole.len() implies texts(parts@)[k] == whole[k] by {
            if k > 0 {
                assert(parts@[1 + (k - 1 + from) - from]@ == seg_text(segs@[k - 1 + from]@));
            }
        }
        assert(texts(parts@) =~= whole);
    }
    join(&parts, ".")
}

/// The first keys of an object, listed for a message.
fn digest(fields: &Fields) -> (r: String)
    ensures
        r@ == key_digest(fields@),
{
    let mut keys = fields.keys();
    let ghost all = keys@;
    if keys.len() > 12 {
        keys.truncate(12);
        assert(texts(keys@) =~= texts(all).take(12));
    }
    join(&keys, ", ")
}

/// Walks from a value along the segments from `from` on, classifying
/// failures.
fn walk(start: &Data, segs: &Vec<Seg>, from: usize, root: &str) -> (r: Result<Data, RenderError>)
    requires
        from <= segs@.len(),
    ensures
        data_result(r) == walked(start@, segs_view(segs@).skip(from as int), root@),
{
    let ghost all = segs_view(segs@);
    let ghost goal = walked(start@, all.skip(from as int), root@);
    let mut current: &Data = start;
    let mut at: String = root.to_owned();
    let mut i: usize = from;
    while i < segs.len()
        invariant
            i <= segs@.len(),
            from <= segs@.len(),
            all == segs_view(segs@),
            goal == walked(start@, all.skip(from as int), root@),
            goal == walked(current@, all.skip(i as int), at@),
        decreases segs.len() - i,
    {
        let seg = &segs[i];
        proof {
            assert(all.skip(i as int)[0] == seg@);
            assert(all.skip(i as int).skip(1) =~= all.skip(i + 1));
        }
        match seg {
            Seg::Length => {
                let n: usize = match current {
                    Data::List(items) => items.len(),
                    Data::Text(s) => chars_of(s.as_str()).len(),
                    other => {
                        return Err(
                            RenderError::BadPath {
                                path: cat2(at.as_str(), ".length"),
                                reason: cat2(
                                    ".length applies to arrays and strings, found ",
                                    kind(other),
                                ),
                            },
                        );
                    },
                };
                if i != segs.len() - 1 {
                    return Err(
                        RenderError::BadPath {
                            path: at,
                            reason: ".length must be the final segment".to_owned(),
                        },
                    );
                }
                return Ok(Data::count(n));
            },
            Seg::Index(index) => match current {
                Data::List(items) => {
                    if *index < items.len() {
                        current = &items[*index];
                        at = cat3(at.as_str(), ".", decimal_usize(*index).as_str());
                    } else {
                        return Err(
                            RenderError::EmptyData {
                                path: full_path(at.as_str(), segs, i),
                                reason: if items.len() == 0 {
                                    cat2(at.as_str(), " is an empty array")
                                } else {
                                    crate::text::cat6(
                                        at.as_str(),
                                        " has ",
                                        decimal_usize(items.len()).as_str(),
                                        " items; index ",
                                        decimal_usize(*index).as_str(),
                                        " is out of range",
                                    )
                                },
                            },
                        );
                    }
                },
                Data::Null => {
                    return Err(
                        RenderError::EmptyData {
                            path: full_path(at.as_str(), segs, i),
                            reason: cat2(at.as_str(), " is null"),
                        },
                    );
                },
                other => {
                    return Err(
                        RenderError::BadPath {
                            path: full_path(at.as_str(), segs, i),
                            reason: cat4("cannot index into ", kind(other), " at ", at.as_str()),
                        },
                    );
                },
            },
            Seg::Key(key) => match current {
                Data::Object(fields) => match fields.get(key.as_str()) {
                    Some(child) => {
                        current = child;
                        at = cat3(at.as_str(), ".", key.as_str());
                    },
                    None => {
                        return Err(
                            RenderError::BadPath {
                                path: full_path(at.as_str(), segs, i),
                                reason: cat7(
                                    "no key '",
                                    key.as_str(),
                                    "' at ",
                                    at.as_str(),
                                    " (available: ",
                                    digest(fields).as_str(),
                                    ")",
                                ),
                            },
                        );
                    },
                },
                Data::Null => {
                    return Err(
                        RenderError::EmptyData {
                            path: full_path(at.as_str(), segs, i),
                            reason: cat2(at.as_str(), " is null"),
                        },
                    );
                },
                other => {
                    return Err(
                        RenderError::BadPath {
                            path: full_path(at.as_str(), segs, i),
                            reason: crate::text::cat6(
                                "cannot read key '",
                                key.as_str(),
                                "' from ",
                                kind(other),
                                " at ",
                                at.as_str(),
                            ),
                        },
                    );
                },
            },
        }
        i += 1;
    }
    Ok(current.copy())
}

/// The value that a root-anchored path names.
pub open spec fn resolved(roots: Entries, segs: Seq<SegView>) -> Result<Json, RenderErrorView> {
    if segs.len() > 0 && segs[0] is Key {
        let root = segs[0]->Key_0;
        match lookup(roots, root) {
            Some(start) => walked(start, segs.skip(1), root),
            None => Err(
                RenderErrorView::MissingStep { step: root, available: keys_of(roots) },
            ),
        }
    } else {
        Err(RenderErrorView::Parse("path must start with a root name"@))
    }
}

/// Walks a root-anchored path strictly, classifying failures.
fn resolve_root(roots: &Roots, segs: &Vec<Seg>) -> (r: Result<Data, RenderError>)
    ensures
        data_result(r) == resolved(roots@, segs_view(segs@)),
{
    if segs.len() == 0 {
        return Err(RenderError::Parse("path must start with a root name".to_owned()));
    }
    match &segs[0] {
        Seg::Key(root) => match roots.map.get(root.as_str()) {
            Some(start) => walk(start, segs, 1, root.as_str()),
            None => Err(
                RenderError::MissingStep { step: root.clone(), available: roots.map.keys() },
            ),
        },
        _ => Err(RenderError::Parse("path must start with a root name".to_owned())),
    }
}

// ── Rendering text ───────────────────────────────────────────────────────

/// How a value is written into text: objects and arrays as JSON, scalars
/// bare, null as nothing.
pub open spec fn value_text(v: Json) -> Seq<char> {
    match v {
        Json::Null => Seq::empty(),
        Json::Text(s) => s,
        Json::Bool(b) => if b { "true"@ } else { "false"@ },
        Json::Num(n) => number_text(n),
        other => pretty_text(other),
    }
}

/// Scalar interpolation: objects and arrays serialize to JSON, scalars
/// print bare, null prints nothing.
pub fn to_text(value: &Data) -> (r: String)
    ensures
        r@ == value_text(value@),
{
    match value {
        Data::Null => String::new(),
        Data::Text(s) => s.clone(),
        Data::Bool(b) => if *b { "true".to_owned() } else { "false".to_owned() },
        Data::Num(n) => n.text(),
        _ => pretty(value),
    }
}

/// Where in nested sections a tag stands: the section contexts, innermost
/// last, and the position in each array being iterated.
pub struct ScopeView {
    pub contexts: Seq<Json>,
    pub loops: Seq<(int, int)>,
}

/// Whether a path starts with the name of a root.
pub open spec fn root_anchored(roots: Entries, segs: Seq<SegView>) -> bool {
    segs.len() > 0 && segs[0] is Key && lookup(roots, segs[0]->Key_0) is Some
}

/// Whether a path reads a root. Inside a section a bare key reads the item, even
/// where a root has its name.
pub open spec fn reads_root(roots: Entries, scope: ScopeView, segs: Seq<SegView>) -> bool {
    root_anchored(roots, segs) && (segs.len() > 1 || scope.contexts.len() == 0)
}

/// The innermost of the first `n` contexts in which the path can be followed.
pub open spec fn in_contexts(contexts: Seq<Json>, segs: Seq<SegView>, n: int) -> Option<Json>
    decreases n,
{
    if n <= 0 {
        None
    } else {
        match walked(contexts[n - 1], segs, "<item>"@) {
            Ok(v) => Some(v),
            Err(_) => in_contexts(contexts, segs, n - 1),
        }
    }
}

pub open spec fn no_loop(name: Seq<char>) -> RenderErrorView {
    RenderErrorView::Parse(name + " used outside of a section over an array"@)
}

/// The value of a variable tag. Root-anchored paths are strict; inside
/// sections bare keys and paths of other names read the innermost context that
/// has them. Where none has, a bare key is nothing (items may omit optional
/// fields), and a dotted path is a reference to a root that is not there.
pub open spec fn var_value(roots: Entries, scope: ScopeView, path: PathView) -> Result<
    Option<Json>,
    RenderErrorView,
> {
    match path {
        PathView::AtIndex => if scope.loops.len() == 0 {
            Err(no_loop("@index"@))
        } else {
            Ok(Some(Json::Num(Num::Int(scope.loops.last().0))))
        },
        PathView::AtFirst => if scope.loops.len() == 0 {
            Err(no_loop("@first"@))
        } else {
            Ok(Some(Json::Bool(scope.loops.last().0 == 0)))
        },
        PathView::AtLast => if scope.loops.len() == 0 {
            Err(no_loop("@last"@))
        } else {
            Ok(Some(Json::Bool(scope.loops.last().0 + 1 == scope.loops.last().1)))
        },
        PathView::Data(segs) => if reads_root(roots, scope, segs) || scope.contexts.len() == 0 {
            match resolved(roots, segs) {
                Ok(v) => Ok(Some(v)),
                Err(e) => Err(e),
            }
        } else {
            match in_contexts(scope.contexts, segs, scope.contexts.len() as int) {
                Some(v) => Ok(Some(v)),
                None => if segs.len() > 1 {
                    match resolved(roots, segs) {
                        Ok(v) => Ok(Some(v)),
                        Err(e) => Err(e),
                    }
                } else {
                    Ok(None)
                },
            }
        },
    }
}

/// The value that a section tests. Only a missing root is an error; a
/// path that cannot be followed under an existing root is nothing.
pub open spec fn section_value(roots: Entries, scope: ScopeView, path: PathView) -> Result<
    Option<Json>,
    RenderErrorView,
> {
    match path {
        PathView::Data(segs) => if reads_root(roots, scope, segs) {
            match resolved(roots, segs) {
                Ok(v) => Ok(Some(v)),
                Err(_) => Ok(None),
            }
        } else {
            var_value(roots, scope, path)
        },
        _ => var_value(roots, scope, path),
    }
}

/// Whether a section over this value renders.
pub open spec fn truthy(v: Option<Json>) -> bool {
    match v {
        None => false,
        Some(Json::Null) => false,
        Some(Json::Bool(b)) => b,
        Some(Json::List(items)) => items.len() > 0,
        Some(Json::Text(s)) => s.len() > 0,
        Some(_) => true,
    }
}

/// One text after another, unless either failed.
pub open spec fn followed(
    a: Result<Seq<char>, RenderErrorView>,
    b: Result<Seq<char>, RenderErrorView>,
) -> Result<Seq<char>, RenderErrorView> {
    match a {
        Err(e) => Err(e),
        Ok(x) => match b {
            Err(e) => Err(e),
            Ok(y) => Ok(x + y),
        },
    }
}

/// What nodes render to.
pub open spec fn rendered(roots: Entries, scope: ScopeView, nodes: Seq<NodeView>) -> Result<
    Seq<char>,
    RenderErrorView,
>
    decreases nodes, 0int,
{
    if nodes.len() == 0 {
        Ok(Seq::empty())
    } else {
        followed(
            rendered(roots, scope, nodes.drop_last()),
            node_text(roots, scope, nodes.last()),
        )
    }
}

/// What one node renders to.
pub open spec fn node_text(roots: Entries, scope: ScopeView, node: NodeView) -> Result<
    Seq<char>,
    RenderErrorView,
>
    decreases node, 0int,
{
    match node {
        NodeView::Text(text) => Ok(text),
        NodeView::Var(path) => match var_value(roots, scope, path) {
            Err(e) => Err(e),
            Ok(None) => Ok(Seq::empty()),
            Ok(Some(v)) => Ok(value_text(v)),
        },
        NodeView::Section { path, inverted, body } => match section_value(roots, scope, path) {
            Err(e) => Err(e),
            Ok(value) => if inverted {
                if truthy(value) {
                    Ok(Seq::empty())
                } else {
                    rendered(roots, scope, body)
                }
            } else if !truthy(value) {
                Ok(Seq::empty())
            } else {
                match value {
                    Some(Json::List(items)) => iterated(
                        roots,
                        scope,
                        body,
                        items,
                        items.len() as int,
                    ),
                    Some(Json::Object(entries)) => rendered(
                        roots,
                        ScopeView {
                            contexts: scope.contexts.push(Json::Object(entries)),
                            loops: scope.loops,
                        },
                        body,
                    ),
                    _ => rendered(roots, scope, body),
                }
            },
        },
    }
}

/// The scope of a section body for one item of the array it iterates.
pub open spec fn item_scope(scope: ScopeView, items: Seq<Json>, i: int) -> ScopeView {
    ScopeView {
        contexts: scope.contexts.push(items[i]),
        loops: scope.loops.push((i, items.len() as int)),
    }
}

/// What a section body renders to over the first `n` items.
pub open spec fn iterated(
    roots: Entries,
    scope: ScopeView,
    body: Seq<NodeView>,
    items: Seq<Json>,
    n: int,
) -> Result<Seq<char>, RenderErrorView>
    decreases body, n + 1,
{
    if n <= 0 {
        Ok(Seq::empty())
    } else {
        followed(
            iterated(roots, scope, body, items, n - 1),
            rendered(roots, item_scope(scope, items, n - 1), body),
        )
    }
}

/// What a whole template renders to.
pub open spec fn rendered_text(roots: Entries, template: Seq<char>) -> Result<
    Seq<char>,
    RenderErrorView,
> {
    match parsed(template) {
        Err(e) => Err(e),
        Ok(nodes) => rendered(
            roots,
            ScopeView { contexts: Seq::empty(), loops: Seq::empty() },
            nodes,
        ),
    }
}

/// The position in an array that a section iterates.
struct LoopMeta {
    index: usize,
    len: usize,
}

spec fn loops_view(s: Seq<LoopMeta>) -> Seq<(int, int)> {
    Seq::new(s.len(), |i: int| (s[i].index as int, s[i].len as int))
}

struct Renderer<'a> {
    roots: &'a Roots<'a>,
    /// Innermost-last stack of section contexts.
    contexts: Vec<Data>,
    loops: Vec<LoopMeta>,
}

pub open spec fn text_result(r: Result<String, RenderError>) -> Result<
    Seq<char>,
    RenderErrorView,
> {
    match r {
        Ok(t) => Ok(t@),
        Err(e) => Err(e@),
    }
}

pub open spec fn option_result(r: Result<Option<Data>, RenderError>) -> Result<
    Option<Json>,
    RenderErrorView,
> {
    match r {
        Ok(Some(v)) => Ok(Some(v@)),
        Ok(None) => Ok(None),
        Err(e) => Err(e@),
    }
}

impl<'a> Renderer<'a> {
    spec fn view(&self) -> ScopeView {
        ScopeView { contexts: values_view(self.contexts@), loops: loops_view(self.loops@) }
    }

    /// Whether a path reads a root: it starts with the name of one, and is no bare
    /// key that an item may have.
    fn is_root_anchored(&self, segs: &Vec<Seg>) -> (r: bool)
        ensures
            r == reads_root(self.roots@, self@, segs_view(segs@)),
    {
        if segs.len() == 0 || (segs.len() == 1 && self.contexts.len() > 0) {
            return false;
        }
        match &segs[0] {
            Seg::Key(root) => self.roots.map.contains_key(root.as_str()),
            _ => false,
        }
    }

    /// The innermost array position, or the error of using `name` without one.
    fn current_loop(&self, name: &str) -> (r: Result<&LoopMeta, RenderError>)
        ensures
            match r {
                Ok(meta) => self.loops@.len() > 0 && *meta == self.loops@.last(),
                Err(e) => self.loops@.len() == 0 && e@ == no_loop(name@),
            },
    {
        if self.loops.len() == 0 {
            Err(RenderError::Parse(cat2(name, " used outside of a section over an array")))
        } else {
            Ok(&self.loops[self.loops.len() - 1])
        }
    }

    /// Resolves a variable tag. Root-anchored paths are strict; bare keys and
    /// paths of other names search the context stack inside sections. A bare key
    /// renders empty when it is genuinely absent (list items may omit optional
    /// fields); a dotted path is root-anchored everywhere, so its root is missing.
    fn lookup_var(&self, path: &Path) -> (r: Result<Option<Data>, RenderError>)
        ensures
            option_result(r) == var_value(self.roots@, self@, path@),
    {
        match path {
            Path::AtIndex => {
                let meta = self.current_loop("@index")?;
                Ok(Some(Data::count(meta.index)))
            },
            Path::AtFirst => {
                let meta = self.current_loop("@first")?;
                Ok(Some(Data::Bool(meta.index == 0)))
            },
            Path::AtLast => {
                let meta = self.current_loop("@last")?;
                Ok(Some(Data::Bool(meta.len > 0 && meta.index == meta.len - 1)))
            },
            Path::Data(segs) => {
                if self.is_root_anchored(segs) || self.contexts.len() == 0 {
                    return match resolve_root(self.roots, segs) {
                        Ok(v) => Ok(Some(v)),
                        Err(e) => Err(e),
                    };
                }
                let ghost all = segs_view(segs@);
                let ghost contexts = values_view(self.contexts@);
                assert(all.skip(0) =~= all);
                let mut n: usize = self.contexts.len();
                while n > 0
                    invariant
                        n <= self.contexts@.len(),
                        contexts == values_view(self.contexts@),
                        all == segs_view(segs@),
                        all.skip(0) == all,
                        in_contexts(contexts, all, contexts.len() as int) == in_contexts(
                            contexts,
                            all,
                            n as int,
                        ),
                        var_value(self.roots@, self@, path@) == (match in_contexts(
                            contexts,
                            all,
                            contexts.len() as int,
                        ) {
                            Some(v) => Ok::<Option<Json>, RenderErrorView>(Some(v)),
                            None => if all.len() > 1 {
                                match resolved(self.roots@, all) {
                                    Ok(v) => Ok(Some(v)),
                                    Err(e) => Err(e),
                                }
                            } else {
                                Ok(None)
                            },
                        }),
                    decreases n,
                {
                    if let Ok(v) = walk(&self.contexts[n - 1], segs, 0, "<item>") {
                        return Ok(Some(v));
                    }
                    n -= 1;
                }
                if segs.len() > 1 {
                    return match resolve_root(self.roots, segs) {
                        Ok(v) => Ok(Some(v)),
                        Err(e) => Err(e),
                    };
                }
                Ok(None)
            },
        }
    }

    /// Sections are conditionals: only a missing root errors; a missing key
    /// under an existing root resolves to falsy, so that
    /// `{{^E0.optional}}fallback{{/E0.optional}}` works.
    fn lookup_section(&self, path: &Path) -> (r: Result<Option<Data>, RenderError>)
        ensures
            option_result(r) == section_value(self.roots@, self@, path@),
    {
        if let Path::Data(segs) = path {
            if self.is_root_anchored(segs) {
                return match resolve_root(self.roots, segs) {
                    Ok(v) => Ok(Some(v)),
                    Err(_) => Ok(None),
                };
            }
        }
        self.lookup_var(path)
    }

    /// Renders nodes to text.
    fn render_nodes(&mut self, nodes: &Vec<Node>) -> (r: Result<String, RenderError>)
        ensures
            final(self)@ == old(self)@,
            final(self).roots == old(self).roots,
            text_result(r) == rendered(old(self).roots@, old(self)@, nodes_view(nodes@)),
        decreases nodes, 0int,
    {
        let ghost roots = self.roots@;
        let ghost scope = self@;
        let ghost all = nodes_view(nodes@);
        let mut out = String::new();
        let mut i: usize = 0;
        assert(all.take(0) =~= Seq::empty());
        while i < nodes.len()
            invariant
                i <= nodes@.len(),
                self@ == scope,
                self.roots == old(self).roots,
                roots == old(self).roots@,
                scope == old(self)@,
                all == nodes_view(nodes@),
                rendered(roots, scope, all.take(i as int)) == Ok::<Seq<char>, RenderErrorView>(
                    out@,
                ),
            decreases nodes.len() - i,
        {
            let node = &nodes[i];
            proof {
                assert(all.take(i + 1).drop_last() =~= all.take(i as int));
                assert(all.take(i + 1).last() == node@);
            }
            match self.render_node(node) {
                Ok(text) => {
                    out.append(text.as_str());
                },
                Err(e) => {
                    proof {
                        lemma_render_error(roots, scope, all, i + 1);
                    }
                    return Err(e);
                },
            }
            i += 1;
        }
        assert(all.take(i as int) =~= all);
        Ok(out)
    }

    /// Renders one node to text.
    fn render_node(&mut self, node: &Node) -> (r: Result<String, RenderError>)
        ensures
            final(self)@ == old(self)@,
            final(self).roots == old(self).roots,
            text_result(r) == node_text(old(self).roots@, old(self)@, node@),
        decreases node, 0int,
    {
        match node {
            Node::Text(text) => Ok(text.clone()),
            Node::Var(path) => match self.lookup_var(path) {
                Ok(Some(value)) => Ok(to_text(&value)),
                Ok(None) => Ok(String::new()),
                Err(e) => Err(e),
            },
            Node::Section { path, inverted, body } => {
                let value = match self.lookup_section(path) {
                    Ok(value) => value,
                    Err(e) => {
                        return Err(e);
                    },
                };
                let shows = match &value {
                    None => false,
                    Some(Data::Null) => false,
                    Some(Data::Bool(b)) => *b,
                    Some(Data::List(items)) => items.len() > 0,
                    Some(Data::Text(s)) => !s.as_str().is_empty(),
                    Some(_) => true,
                };
                if *inverted {
                    return if shows { Ok(String::new()) } else { self.render_nodes(body) };
                }
                if !shows {
                    return Ok(String::new());
                }
                match value {
                    Some(Data::List(items)) => self.render_items(items, body),
                    Some(Data::Object(fields)) => {
                        let ghost before = self.contexts@;
                        let ghost scope = self@;
                        self.contexts.push(Data::Object(fields));
                        assert(self@.contexts =~= scope.contexts.push(Json::Object(fields@)));
                        let result = self.render_nodes(body);
                        let ghost after = self.contexts@;
                        let _ = self.contexts.pop();
                        assert(self@.contexts =~= values_view(after).drop_last());
                        assert(self@.contexts =~= scope.contexts);
                        result
                    },
                    _ => self.render_nodes(body),
                }
            },
        }
    }

    /// Renders a section body once per item.
    fn render_items(&mut self, items: Vec<Data>, body: &Vec<Node>) -> (r: Result<
        String,
        RenderError,
    >)
        ensures
            final(self)@ == old(self)@,
            final(self).roots == old(self).roots,
            text_result(r) == iterated(
                old(self).roots@,
                old(self)@,
                nodes_view(body@),
                values_view(items@),
                items@.len() as int,
            ),
        decreases body, 1int,
    {
        let ghost roots = self.roots@;
        let ghost scope = self@;
        let ghost all = values_view(items@);
        let len: usize = items.len();
        let mut out = String::new();
        let mut i: usize = 0;
        while i < items.len()
            invariant
                i <= items@.len(),
                len == items@.len(),
                self@ == scope,
                self.roots == old(self).roots,
                roots == old(self).roots@,
                scope == old(self)@,
                all == values_view(items@),
                iterated(roots, scope, nodes_view(body@), all, i as int) == Ok::<
                    Seq<char>,
                    RenderErrorView,
                >(out@),
            decreases items.len() - i,
        {
            self.loops.push(LoopMeta { index: i, len });
            self.contexts.push(items[i].copy());
            assert(self@.contexts =~= item_scope(scope, all, i as int).contexts);
            assert(self@.loops =~= item_scope(scope, all, i as int).loops);
            let result = self.render_nodes(body);
            let ghost after = self@;
            let _ = self.contexts.pop();
            let _ = self.loops.pop();
            assert(self@.contexts =~= after.contexts.drop_last());
            assert(self@.loops =~= after.loops.drop_last());
            assert(self@.contexts =~= scope.contexts);
            assert(self@.loops =~= scope.loops);
            match result {
                Ok(text) => {
                    out.append(text.as_str());
                },
                Err(e) => {
                    proof {
                        lemma_iterate_error(roots, scope, nodes_view(body@), all, i + 1);
                    }
                    return Err(e);
                },
            }
            i += 1;
        }
        Ok(out)
    }
}

/// An error among the first nodes is the error of them all.
proof fn lemma_render_error(roots: Entries, scope: ScopeView, nodes: Seq<NodeView>, i: int)
    requires
        0 <= i <= nodes.len(),
        rendered(roots, scope, nodes.take(i)) is Err,
    ensures
        rendered(roots, scope, nodes) == rendered(roots, scope, nodes.take(i)),
    decreases nodes.len() - i,
{
    if i < nodes.len() {
        assert(nodes.take(i + 1).drop_last() =~= nodes.take(i));
        lemma_render_error(roots, scope, nodes, i + 1);
    } else {
        assert(nodes.take(i) =~= nodes);
    }
}

/// An error among the first items is the error of them all.
proof fn lemma_iterate_error(
    roots: Entries,
    scope: ScopeView,
    body: Seq<NodeView>,
    items: Seq<Json>,
    i: int,
)
    requires
        0 <= i <= items.len(),
        iterated(roots, scope, body, items, i) is Err,
    ensures
        iterated(roots, scope, body, items, items.len() as int) == iterated(
            roots,
            scope,
            body,
            items,
            i,
        ),
    decreases items.len() - i,
{
    if i < items.len() {
        lemma_iterate_error(roots, scope, body, items, i + 1);
    }
}

/// Renders a template string against the roots.
pub fn render_str(template: &str, roots: &Roots) -> (r: Result<String, RenderError>)
    ensures
        text_result(r) == rendered_text(roots@, template@),
{
    let nodes = parse(template)?;
    let mut renderer = Renderer { roots, contexts: Vec::new(), loops: Vec::new() };
    assert(renderer@.contexts =~= Seq::empty());
    assert(renderer@.loops =~= Seq::empty());
    renderer.render_nodes(&nodes)
}

// ── Rendering values ─────────────────────────────────────────────────────

/// What a string in a step-input position renders to: a string that is
/// exactly one variable tag becomes the value it names, anything else text.
pub open spec fn spliced(roots: Entries, template: Seq<char>) -> Result<Json, RenderErrorView> {
    match exact_path(template) {
        Some(PathView::Data(segs)) => resolved(roots, segs),
        _ => match rendered_text(roots, template) {
            Ok(t) => Ok(Json::Text(t)),
            Err(e) => Err(e),
        },
    }
}

/// Renders one string in a step-input position: a string that is exactly one
/// variable tag splices the raw JSON value (typed); anything else renders
/// to a string.
pub fn render_value(template: &str, roots: &Roots) -> (r: Result<Data, RenderError>)
    ensures
        data_result(r) == spliced(roots@, template@),
{
    if let Some(Path::Data(segs)) = exact_var(template) {
        return resolve_root(roots, &segs);
    }
    Ok(Data::Text(render_str(template, roots)?))
}

/// The items of an array, each rendered.
pub open spec fn rendered_items(roots: Entries, items: Seq<Json>) -> Seq<
    Result<Json, RenderErrorView>,
>
    decreases items,
{
    Seq::new(
        items.len(),
        |i: int|
            if 0 <= i < items.len() {
                rendered_input(roots, items[i])
            } else {
                Ok(Json::Null)
            },
    )
}

/// The entries of an object, each value rendered.
pub open spec fn rendered_entries(roots: Entries, entries: Entries) -> Seq<
    Result<(Seq<char>, Json), RenderErrorView>,
>
    decreases entries,
{
    Seq::new(
        entries.len(),
        |i: int|
            if 0 <= i < entries.len() {
                match rendered_input(roots, entries[i].1) {
                    Ok(v) => Ok((entries[i].0, v)),
                    Err(e) => Err(e),
                }
            } else {
                Ok((Seq::empty(), Json::Null))
            },
    )
}

/// A value with every string in it rendered, or the first failure.
pub open spec fn rendered_input(roots: Entries, input: Json) -> Result<Json, RenderErrorView>
    decreases input,
{
    match input {
        Json::Text(s) => spliced(roots, s),
        Json::List(items) => match collected(rendered_items(roots, items)) {
            Ok(done) => Ok(Json::List(done)),
            Err(e) => Err(e),
        },
        Json::Object(entries) => match collected(rendered_entries(roots, entries)) {
            Ok(done) => Ok(Json::Object(done)),
            Err(e) => Err(e),
        },
        other => Ok(other),
    }
}

/// Recursively renders every string in a JSON tree (step inputs).
pub fn render_input(input: &Data, roots: &Roots) -> (r: Result<Data, RenderError>)
    ensures
        data_result(r) == rendered_input(roots@, input@),
    decreases input@,
{
    match input {
        Data::Text(s) => render_value(s.as_str(), roots),
        Data::List(items) => {
            let ghost readings = rendered_items(roots@, values_view(items@));
            let mut out: Vec<Data> = Vec::new();
            let mut i: usize = 0;
            assert(readings.take(0) =~= Seq::empty());
            assert(values_view(out@) =~= Seq::empty());
            while i < items.len()
                invariant
                    i <= items@.len(),
                    input@ == Json::List(values_view(items@)),
                    readings == rendered_items(roots@, values_view(items@)),
                    collected(readings.take(i as int)) == Ok::<Seq<Json>, RenderErrorView>(
                        values_view(out@),
                    ),
                decreases items.len() - i,
            {
                proof {
                    list_shrinks(input@, i as int);
                    lemma_collected_step(readings, i as int);
                    assert(readings[i as int] == rendered_input(roots@, items@[i as int]@));
                }
                match render_input(&items[i], roots) {
                    Ok(v) => {
                        let ghost before = out@;
                        out.push(v);
                        assert(values_view(out@) =~= values_view(before).push(v@));
                    },
                    Err(e) => {
                        proof {
                            lemma_collected_error(readings, i + 1);
                        }
                        return Err(e);
                    },
                }
                i += 1;
            }
            assert(readings.take(i as int) =~= readings);
            Ok(Data::List(out))
        },
        Data::Object(fields) => {
            let ghost readings = rendered_entries(roots@, fields@);
            let mut out = Fields::new();
            let mut i: usize = 0;
            assert(readings.take(0) =~= Seq::empty());
            proof {
                use_type_invariant(fields);
            }
            while i < fields.len()
                invariant
                    i <= fields@.len(),
                    ascending(fields@),
                    input@ == Json::Object(fields@),
                    readings == rendered_entries(roots@, fields@),
                    out@.len() == i,
                    forall|k: int| 0 <= k < i ==> (#[trigger] out@[k]).0 == fields@[k].0,
                    collected(readings.take(i as int)) == Ok::<Entries, RenderErrorView>(out@),
                decreases fields@.len() - i,
            {
                proof {
                    object_shrinks(input@, i as int);
                    lemma_collected_step(readings, i as int);
                }
                match render_input(fields.value_at(i), roots) {
                    Ok(v) => {
                        out.append(fields.key_at(i).clone(), v);
                    },
                    Err(e) => {
                        proof {
                            lemma_collected_error(readings, i + 1);
                        }
                        return Err(e);
                    },
                }
                i += 1;
            }
            assert(readings.take(i as int) =~= readings);
            Ok(Data::Object(out))
        },
        _ => Ok(input.copy()),
    }
}

} // verus!
