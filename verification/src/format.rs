//! Versions of the plan and tool file formats: what a file declares, bringing an
//! older file up to the current format, and stamping a file with it.

use crate::text::{
    begins, cat2, cat3, cat4, chars_of, decimal, decimal_usize, find_chars, is_space, numeral,
    same_text, slice_chars, slice_text, split, split_chars, texts, trim_chars, trim_start,
    trim_start_chars, trimmed,
};
use crate::value::{number_text, Num};
use crate::yaml::{
    borrowed_documents, drop_entries_named, extend_mapping, insert_entry, item_shrinks, look,
    make_yaml, mapping_entries, mapping_in, member_in, member_shrinks, new_mapping, print_yaml,
    printed_first, read_yaml, remove_entry, retagged, text_entry, text_in, untagged, yaml_document,
    yaml_documents, yaml_member, yaml_printing, yaml_reading, yaml_text, Look, YamlEntries,
    YamlParts, YamlView,
};
use vstd::prelude::*;

verus! {

/// The current plan format.
pub const PLAN_FORMAT: u32 = 1;

/// The oldest plan format that is still read.
pub const PLAN_FORMAT_OLDEST: u32 = 1;

/// The current tool format.
pub const TOOL_FORMAT: u32 = 1;

/// The oldest tool format that is still read.
pub const TOOL_FORMAT_OLDEST: u32 = 1;

/// The key under which a file declares its format.
pub const FORMAT_KEY: &'static str = "version";

/// Where the formats are described.
pub const FORMATS_DOC: &'static str = "docs/reference/formats.mdx";

/// How many migrations lead from the oldest plan format to the current one.
pub const PLAN_MIGRATIONS: u32 = 0;

/// How many migrations lead from the oldest tool format to the current one.
pub const TOOL_MIGRATIONS: u32 = 0;

/// What a file is.
#[derive(Debug, Clone, Copy, PartialEq, Eq, Structural)]
pub enum Kind {
    Plan,
    Tool,
}

/// What files of a kind are called.
pub open spec fn kind_label(kind: Kind) -> Seq<char> {
    match kind {
        Kind::Plan => "plan"@,
        Kind::Tool => "tool"@,
    }
}

/// The current format of a kind.
pub open spec fn current_format(kind: Kind) -> u32 {
    match kind {
        Kind::Plan => PLAN_FORMAT,
        Kind::Tool => TOOL_FORMAT,
    }
}

/// The oldest format of a kind that is still read.
pub open spec fn oldest_format(kind: Kind) -> u32 {
    match kind {
        Kind::Plan => PLAN_FORMAT_OLDEST,
        Kind::Tool => TOOL_FORMAT_OLDEST,
    }
}

impl Kind {
    pub fn label(self) -> (r: &'static str)
        ensures
            r@ == kind_label(self),
    {
        match self {
            Kind::Plan => "plan",
            Kind::Tool => "tool",
        }
    }

    pub fn current(self) -> (r: u32)
        ensures
            r == current_format(self),
    {
        match self {
            Kind::Plan => PLAN_FORMAT,
            Kind::Tool => TOOL_FORMAT,
        }
    }

    pub fn oldest(self) -> (r: u32)
        ensures
            r == oldest_format(self),
    {
        match self {
            Kind::Plan => PLAN_FORMAT_OLDEST,
            Kind::Tool => TOOL_FORMAT_OLDEST,
        }
    }
}

/// Each chain of migrations leads from the oldest format to the current one.
pub proof fn chains_reach_the_current_format()
    ensures
        PLAN_MIGRATIONS == PLAN_FORMAT - PLAN_FORMAT_OLDEST,
        TOOL_MIGRATIONS == TOOL_FORMAT - TOOL_FORMAT_OLDEST,
{
}

/// The version of this library.
pub fn graph_version() -> (r: &'static str)
    ensures
        r@ == "0.1.0"@,
{
    "0.1.0"
}

/// Why a file's format is refused.
#[derive(Debug, PartialEq, Eq)]
pub enum FormatError {
    /// The declared format is outside what this version reads.
    Unsupported { kind: Kind, found: u32, oldest: u32, max: u32 },
    /// The declaration itself is malformed.
    Invalid(String),
}

/// The model of a [`FormatError`].
pub enum FormatErrorView {
    Unsupported { kind: Kind, found: u32, oldest: u32, max: u32 },
    Invalid(Seq<char>),
}

impl FormatError {
    pub open spec fn view(&self) -> FormatErrorView {
        match self {
            FormatError::Unsupported { kind, found, oldest, max } => FormatErrorView::Unsupported {
                kind: *kind,
                found: *found,
                oldest: *oldest,
                max: *max,
            },
            FormatError::Invalid(m) => FormatErrorView::Invalid(m@),
        }
    }

    /// The error in words.
    pub fn message(&self) -> (r: String)
        ensures
            r@ == format_message(self@),
    {
        match self {
            FormatError::Unsupported { kind, found, oldest, max } => window_message(
                *kind,
                "this file",
                *found,
                *oldest,
                *max,
            ),
            FormatError::Invalid(message) => message.clone(),
        }
    }
}

/// A format error in words.
pub open spec fn format_message(e: FormatErrorView) -> Seq<char> {
    match e {
        FormatErrorView::Unsupported { kind, found, oldest, max } => window_text(
            kind,
            "this file"@,
            found,
            oldest,
            max,
        ),
        FormatErrorView::Invalid(m) => m,
    }
}

/// The formats that are read, in words.
pub open spec fn window_range(oldest: u32, max: u32) -> Seq<char> {
    if oldest == max {
        numeral(max as nat)
    } else {
        numeral(oldest as nat) + " to "@ + numeral(max as nat)
    }
}

/// Why a format is outside the window of those that are read; nothing where it
/// is inside.
pub open spec fn window_text(
    kind: Kind,
    what: Seq<char>,
    found: u32,
    oldest: u32,
    max: u32,
) -> Seq<char> {
    if oldest <= found <= max {
        Seq::empty()
    } else {
        what + (" is "@ + kind_label(kind) + " version "@ + numeral(found as nat)) + (
        ", but this graph reads "@ + kind_label(kind) + " version "@ + window_range(
            oldest,
            max,
        )) + (" — see "@ + FORMATS_DOC@)
    }
}

/// Why a format is outside the window of those that are read.
pub fn window_message(kind: Kind, what: &str, found: u32, oldest: u32, max: u32) -> (r: String)
    ensures
        r@ == window_text(kind, what@, found, oldest, max),
{
    if oldest <= found && found <= max {
        let none = String::new();
        assert(none@ =~= Seq::<char>::empty());
        return none;
    }
    let range = if oldest == max {
        decimal(max as u64)
    } else {
        cat3(decimal(oldest as u64).as_str(), " to ", decimal(max as u64).as_str())
    };
    let is = cat4(" is ", kind.label(), " version ", decimal(found as u64).as_str());
    let reads = cat4(", but this graph reads ", kind.label(), " version ", range.as_str());
    let see = cat2(" — see ", FORMATS_DOC);
    cat4(what, is.as_str(), reads.as_str(), see.as_str())
}

/// What bringing a file up to the current format came to.
#[derive(Debug, PartialEq, Eq)]
pub struct Upgrade {
    /// The format the file declares, if it declares one.
    pub declared: Option<u32>,
    /// The format the file was in.
    pub from: u32,
    /// The format it is in now.
    pub to: u32,
    /// What the migrations had to say.
    pub notes: Vec<String>,
}

/// The model of an [`Upgrade`].
pub struct UpgradeView {
    pub declared: Option<u32>,
    pub from: u32,
    pub to: u32,
    pub notes: Seq<Seq<char>>,
}

impl Upgrade {
    pub open spec fn view(&self) -> UpgradeView {
        UpgradeView {
            declared: self.declared,
            from: self.from,
            to: self.to,
            notes: texts(self.notes@),
        }
    }

    /// Whether the file was in another format.
    pub fn migrated(&self) -> (r: bool)
        ensures
            r == (self@.from != self@.to),
    {
        self.from != self.to
    }
}

/// What a value of the wrong type is called.
pub open spec fn described(v: YamlView) -> Seq<char> {
    match v {
        YamlView::Null => "null"@,
        YamlView::Bool(_) => "a boolean"@,
        YamlView::Num(_) => "a number"@,
        YamlView::Text(_) => "a string"@,
        YamlView::List(_) => "a list"@,
        YamlView::Mapping(_) => "a mapping"@,
        YamlView::Tagged(_, _) => "a tagged value"@,
    }
}

/// The version that a value under the format key declares.
pub open spec fn version_in(v: YamlView) -> Result<u32, Seq<char>> {
    match v {
        YamlView::Num(n) => match n {
            Num::Int(i) if 1 <= i <= u32::MAX => Ok(i as u32),
            _ => Err("version must be a positive integer, got "@ + number_text(n)),
        },
        other => Err("version must be a positive integer, got "@ + described(other)),
    }
}

/// The version that a document declares, if it declares one.
pub open spec fn declared_in(doc: YamlView) -> Result<Option<u32>, Seq<char>> {
    match yaml_member(doc, FORMAT_KEY@) {
        None => Ok(None),
        Some(v) => match version_in(v) {
            Ok(n) => Ok(Some(n)),
            Err(e) => Err(e),
        },
    }
}

/// The version that a document declares, if it declares one.
pub fn declared_version(value: &serde_yaml::Value) -> (r: Result<Option<u32>, String>)
    ensures
        match r {
            Ok(n) => declared_in(yaml_document(*value)) == Ok::<Option<u32>, Seq<char>>(n),
            Err(e) => declared_in(yaml_document(*value)) == Err::<Option<u32>, Seq<char>>(e@),
        },
{
    let found = match member_in(value, FORMAT_KEY) {
        None => {
            return Ok(None);
        },
        Some(found) => found,
    };
    let got: String = match look(found) {
        Look::Unsigned(n) => {
            if n >= 1 && n <= u32::MAX as u64 {
                return Ok(Some(n as u32));
            }
            decimal(n)
        },
        Look::Negative(n) => crate::value::Quantity::Negative(n).text(),
        Look::Float(s) => s,
        Look::Null => "null".to_owned(),
        Look::Bool(_) => "a boolean".to_owned(),
        Look::Text(_) => "a string".to_owned(),
        Look::List(_) => "a list".to_owned(),
        Look::Mapping(_) => "a mapping".to_owned(),
        Look::Tagged(_, _) => "a tagged value".to_owned(),
    };
    Err(cat2("version must be a positive integer, got ", got.as_str()))
}

/// A document without its declaration.
pub open spec fn undeclared(doc: YamlView) -> YamlView {
    match untagged(doc) {
        YamlView::Mapping(e) => retagged(
            doc,
            YamlView::Mapping(
                e.filter(|x: (YamlView, YamlView)| x.0 != YamlView::Text(FORMAT_KEY@)),
            ),
        ),
        _ => doc,
    }
}

/// What bringing a document up to the current format comes to.
pub open spec fn upgraded(kind: Kind, doc: YamlView) -> Result<UpgradeView, FormatErrorView> {
    match declared_in(doc) {
        Err(e) => Err(FormatErrorView::Invalid(e)),
        Ok(declared) => {
            let from = match declared {
                Some(n) => n,
                None => 1u32,
            };
            if oldest_format(kind) <= from <= current_format(kind) {
                Ok(
                    UpgradeView {
                        declared,
                        from,
                        to: current_format(kind),
                        notes: Seq::empty(),
                    },
                )
            } else {
                Err(
                    FormatErrorView::Unsupported {
                        kind,
                        found: from,
                        oldest: oldest_format(kind),
                        max: current_format(kind),
                    },
                )
            }
        },
    }
}

pub open spec fn upgrade_view(r: Result<Upgrade, FormatError>) -> Result<
    UpgradeView,
    FormatErrorView,
> {
    match r {
        Ok(u) => Ok(u@),
        Err(e) => Err(e@),
    }
}

/// Brings a document up to the current format, and takes its declaration out. A
/// document that declares nothing is in the first format. A document that is
/// refused stays as it is.
pub fn upgrade(kind: Kind, value: &mut serde_yaml::Value) -> (r: Result<Upgrade, FormatError>)
    ensures
        upgrade_view(r) == upgraded(kind, yaml_document(*old(value))),
        r is Ok ==> yaml_document(*final(value)) == undeclared(yaml_document(*old(value))),
        r is Err ==> *final(value) == *old(value),
{
    let declared = match declared_version(value) {
        Ok(declared) => declared,
        Err(message) => {
            return Err(FormatError::Invalid(message));
        },
    };
    let from: u32 = match declared {
        Some(n) => n,
        None => 1,
    };
    let max: u32 = kind.current();
    if from < kind.oldest() || from > max {
        return Err(FormatError::Unsupported { kind, found: from, oldest: kind.oldest(), max });
    }
    if let Some(mapping) = mapping_in(value) {
        remove_entry(mapping, FORMAT_KEY);
    }
    let notes: Vec<String> = Vec::new();
    assert(texts(notes@) =~= Seq::<Seq<char>>::empty());
    Ok(Upgrade { declared, from, to: max, notes })
}

/// A document with its declaration first.
pub open spec fn stamped(kind: Kind, doc: YamlView) -> YamlView {
    match untagged(doc) {
        YamlView::Mapping(e) => retagged(
            doc,
            YamlView::Mapping(
                seq![
                    (
                        YamlView::Text(FORMAT_KEY@),
                        YamlView::Num(Num::Int(current_format(kind) as int)),
                    ),
                ] + e.filter(|x: (YamlView, YamlView)| yaml_text(x.0) != Some(FORMAT_KEY@)),
            ),
        ),
        _ => doc,
    }
}

proof fn lemma_unnamed(e: YamlEntries, key: Seq<char>, i: int)
    requires
        0 <= i,
        forall|k: int| 0 <= k < e.len() ==> yaml_text((#[trigger] e[k]).0) != Some(key),
    ensures
        text_entry(e, key, i) is None,
    decreases e.len() - i,
{
    if i < e.len() {
        assert(yaml_text(e[i].0) != Some(key));
        lemma_unnamed(e, key, i + 1);
    }
}

/// Declares a document to be in the current format. The declaration stands
/// first.
pub fn stamp(kind: Kind, value: &mut serde_yaml::Value)
    ensures
        yaml_document(*final(value)) == stamped(kind, yaml_document(*old(value))),
{
    let ghost doc = yaml_document(*value);
    if let Some(mapping) = mapping_in(value) {
        let ghost entries = mapping_entries(*mapping);
        drop_entries_named(mapping, FORMAT_KEY);
        let ghost rest = mapping_entries(*mapping);
        let mut first = new_mapping();
        insert_entry(
            &mut first,
            FORMAT_KEY,
            make_yaml(YamlParts::Unsigned(kind.current() as u64)),
        );
        std::mem::swap(mapping, &mut first);
        proof {
            assert forall|k: int| 0 <= k < rest.len() implies yaml_text((#[trigger] rest[k]).0)
                != Some(FORMAT_KEY@) by {
                broadcast use vstd::seq_lib::group_filter_ensures;

                entries.lemma_filter_pred(
                    |e: (YamlView, YamlView)| yaml_text(e.0) != Some(FORMAT_KEY@),
                    k,
                );
            }
            lemma_unnamed(rest, FORMAT_KEY@, 0);
        }
        extend_mapping(mapping, first);
    }
}

// ── Steps ────────────────────────────────────────────────────────────────

/// The tool that a step names, in either spelling.
pub open spec fn step_tool(step: YamlView) -> Option<Seq<char>> {
    let named = match yaml_member(step, "tool_name"@) {
        Some(v) => Some(v),
        None => yaml_member(step, "toolName"@),
    };
    match named {
        Some(v) => yaml_text(v),
        None => None,
    }
}

/// The steps of a body, each before those within it.
pub open spec fn body_steps(body: YamlView) -> Seq<YamlView>
    decreases body, 2int, 0int,
{
    match body {
        YamlView::List(items) => listed_steps(body, items.len() as int),
        YamlView::Mapping(_) => steps_from(body),
        _ => Seq::empty(),
    }
}

/// The steps of the first `n` items of a body.
pub open spec fn listed_steps(body: YamlView, n: int) -> Seq<YamlView>
    decreases body, 0int, n,
{
    match body {
        YamlView::List(items) => if n <= 0 || n > items.len() {
            Seq::empty()
        } else {
            proof {
                item_shrinks(body, n - 1);
            }
            listed_steps(body, n - 1) + steps_from(items[n - 1])
        },
        _ => Seq::empty(),
    }
}

/// The steps of the body under a key of a step's input.
pub open spec fn steps_under(step: YamlView, key: Seq<char>) -> Seq<YamlView>
    decreases step, 0int, 0int,
{
    match yaml_member(step, "input"@) {
        None => Seq::empty(),
        Some(input) => match yaml_member(input, key) {
            None => Seq::empty(),
            Some(body) => {
                proof {
                    member_shrinks(step, "input"@);
                    member_shrinks(input, key);
                }
                body_steps(body)
            },
        },
    }
}

/// A step, and the steps in the bodies that it carries.
pub open spec fn steps_from(step: YamlView) -> Seq<YamlView>
    decreases step, 1int, 0int,
{
    let tool = step_tool(step);
    seq![step] + (if tool == Some("decide"@) {
        steps_under(step, "then"@) + steps_under(step, "else"@)
    } else if tool == Some("map"@) || tool == Some("reduce"@) {
        steps_under(step, "do"@)
    } else {
        Seq::empty()
    })
}

/// Every step of a document, in the order in which they are visited.
pub open spec fn all_steps(doc: YamlView) -> Seq<YamlView> {
    match yaml_member(doc, "steps"@) {
        Some(steps) => body_steps(steps),
        None => Seq::empty(),
    }
}

fn visit_listed<'a>(
    body: &'a serde_yaml::Value,
    items: &'a Vec<serde_yaml::Value>,
    out: &mut Vec<&'a serde_yaml::Value>,
)
    requires
        yaml_document(*body) == YamlView::List(yaml_documents(items@)),
    ensures
        borrowed_documents(final(out)@) == borrowed_documents(old(out)@) + listed_steps(
            yaml_document(*body),
            items@.len() as int,
        ),
    decreases yaml_document(*body), 0int, 0int,
{
    let ghost before = borrowed_documents(out@);
    let mut i: usize = 0;
    assert(before + listed_steps(yaml_document(*body), 0) =~= before);
    while i < items.len()
        invariant
            i <= items@.len(),
            yaml_document(*body) == YamlView::List(yaml_documents(items@)),
            borrowed_documents(out@) == before + listed_steps(yaml_document(*body), i as int),
        decreases items.len() - i,
    {
        broadcast use crate::seqs::append_append;

        proof {
            item_shrinks(yaml_document(*body), i as int);
        }
        visit_step(&items[i], out);
        i += 1;
    }
}

fn visit_body<'a>(body: &'a serde_yaml::Value, out: &mut Vec<&'a serde_yaml::Value>)
    ensures
        borrowed_documents(final(out)@) == borrowed_documents(old(out)@) + body_steps(
            yaml_document(*body),
        ),
    decreases yaml_document(*body), 2int, 0int,
{
    match look(body) {
        Look::List(items) => visit_listed(body, items, out),
        Look::Mapping(_) => visit_step(body, out),
        _ => {
            proof {
                crate::seqs::append_nothing(borrowed_documents(out@));
            }
        },
    }
}

fn visit_under<'a>(
    step: &'a serde_yaml::Value,
    key: &str,
    out: &mut Vec<&'a serde_yaml::Value>,
)
    ensures
        borrowed_documents(final(out)@) == borrowed_documents(old(out)@) + steps_under(
            yaml_document(*step),
            key@,
        ),
    decreases yaml_document(*step), 0int, 0int,
{
    proof {
        crate::seqs::append_nothing(borrowed_documents(out@));
    }
    if let Some(input) = member_in(step, "input") {
        if let Some(body) = member_in(input, key) {
            proof {
                member_shrinks(yaml_document(*step), "input"@);
                member_shrinks(yaml_document(*input), key@);
            }
            visit_body(body, out);
        }
    }
}

fn visit_step<'a>(step: &'a serde_yaml::Value, out: &mut Vec<&'a serde_yaml::Value>)
    ensures
        borrowed_documents(final(out)@) == borrowed_documents(old(out)@) + steps_from(
            yaml_document(*step),
        ),
    decreases yaml_document(*step), 1int, 0int,
{
    broadcast use crate::seqs::append_append;

    let ghost before = borrowed_documents(out@);
    out.push(step);
    assert(borrowed_documents(out@) =~= before + seq![yaml_document(*step)]);
    proof {
        crate::seqs::append_nothing(borrowed_documents(out@));
    }
    let named = match member_in(step, "tool_name") {
        Some(named) => Some(named),
        None => member_in(step, "toolName"),
    };
    let tool = match named {
        Some(named) => text_in(named),
        None => None,
    };
    if let Some(tool) = tool {
        if same_text(tool, "decide") {
            visit_under(step, "then", out);
            visit_under(step, "else", out);
        } else if same_text(tool, "map") || same_text(tool, "reduce") {
            visit_under(step, "do", out);
        }
    }
}

/// Every step of a document, at every depth: a step comes before those in the
/// bodies that it carries, and those before the step that follows it. Only
/// the bodies of control steps are entered: an ordinary tool's input may hold
/// keys of the same name.
pub fn for_each_step<'a>(doc: &'a serde_yaml::Value) -> (r: Vec<&'a serde_yaml::Value>)
    ensures
        borrowed_documents(r@) == all_steps(yaml_document(*doc)),
{
    let mut out: Vec<&'a serde_yaml::Value> = Vec::new();
    assert(borrowed_documents(out@) =~= Seq::<YamlView>::empty());
    if let Some(steps) = member_in(doc, "steps") {
        visit_body(steps, &mut out);
        assert(borrowed_documents(out@) =~= body_steps(yaml_document(*steps)));
    }
    out
}

// ── Files ────────────────────────────────────────────────────────────────

/// Where the line that starts at a place ends, its line break with it.
pub open spec fn line_end(s: Seq<char>, from: int) -> int {
    match crate::text::find_from(s, seq!['\n'], from) {
        Some(k) => k + 1,
        None => s.len() as int,
    }
}

/// Whether a line is blank or a comment.
pub open spec fn is_header_line(line: Seq<char>) -> bool {
    trimmed(line).len() == 0 || trimmed(line)[0] == '#'
}

/// Where the leading lines end that are blank or comments, from a place on.
pub open spec fn header_end(s: Seq<char>, from: int) -> int
    decreases s.len() - from,
{
    if from < 0 || from >= s.len() {
        from
    } else {
        let end = line_end(s, from);
        if from < end <= s.len() && is_header_line(s.subrange(from, end)) {
            header_end(s, end)
        } else {
            from
        }
    }
}

/// What is found stands within the text.
pub proof fn lemma_found_within(s: Seq<char>, pat: Seq<char>, i: int)
    requires
        0 <= i,
        pat.len() > 0,
    ensures
        crate::text::find_from(s, pat, i) matches Some(k) ==> i <= k && k + pat.len() <= s.len(),
    decreases s.len() - i,
{
    if i + pat.len() <= s.len() {
        lemma_found_within(s, pat, i + 1);
    }
}

/// Where the comment block that leads a text ends: the lines up to there are
/// blank or comments.
pub fn split_header(raw: &str) -> (r: (String, String))
    ensures
        r.0@ == raw@.take(header_end(raw@, 0)),
        r.1@ == raw@.skip(header_end(raw@, 0)),
        0 <= header_end(raw@, 0) <= raw@.len(),
{
    let chars = chars_of(raw);
    let mut at: usize = 0;
    let mut done = false;
    let newline: Vec<char> = vec!['\n'];
    while !done && at < chars.len()
        invariant
            at <= chars@.len(),
            chars@ == raw@,
            newline@ == seq!['\n'],
            header_end(raw@, 0) == header_end(raw@, at as int),
            done ==> header_end(raw@, at as int) == at,
        decreases chars@.len() - at, !done as int,
    {
        proof {
            lemma_found_within(raw@, seq!['\n'], at as int);
        }
        let total: usize = chars.len();
        let end: usize = match find_chars(&chars, &newline, at) {
            Some(k) => k + 1,
            None => total,
        };
        let line = trim_chars(&slice_chars(&chars, at, end));
        if line.len() == 0 || line[0] == '#' {
            at = end;
        } else {
            done = true;
        }
    }
    let header = slice_text(&chars, 0, at);
    let body = slice_text(&chars, at, chars.len());
    assert(raw@.take(at as int) =~= raw@.subrange(0, at as int));
    assert(raw@.skip(at as int) =~= raw@.subrange(at as int, raw@.len() as int));
    (header, body)
}

/// Whether a line is a comment.
pub open spec fn is_comment(line: Seq<char>) -> bool {
    trim_start(line).len() > 0 && trim_start(line)[0] == '#'
}

/// How many of the first `n` lines are comments.
pub open spec fn comments(lines: Seq<Seq<char>>, n: int) -> nat
    decreases n,
{
    if n <= 0 || n > lines.len() {
        0
    } else {
        comments(lines, n - 1) + if is_comment(lines[n - 1]) {
            1nat
        } else {
            0nat
        }
    }
}

/// How many lines of a text are comments.
pub open spec fn comment_lines(text: Seq<char>) -> nat {
    comments(split(text, '\n'), split(text, '\n').len() as int)
}

fn count_comments(text: &str) -> (r: usize)
    ensures
        r == comment_lines(text@),
{
    let lines = split_chars(&chars_of(text), '\n');
    let ghost all = split(text@, '\n');
    let mut count: usize = 0;
    let mut i: usize = 0;
    while i < lines.len()
        invariant
            i <= lines@.len(),
            all.len() == lines@.len(),
            forall|k: int| 0 <= k < lines@.len() ==> (#[trigger] lines@[k])@ == all[k],
            count <= i,
            count == comments(all, i as int),
        decreases lines.len() - i,
    {
        assert(lines@[i as int]@ == all[i as int]);
        let line = trim_start_chars(&lines[i]);
        if line.len() > 0 && line[0] == '#' {
            count += 1;
        }
        i += 1;
    }
    count
}

/// What bringing a file up to the current format came to.
#[derive(Debug, PartialEq, Eq)]
pub struct Migrated {
    pub path: String,
    pub from: u32,
    pub to: u32,
    pub changed: bool,
    pub notes: Vec<String>,
}

/// The model of a [`Migrated`].
pub struct MigratedView {
    pub path: Seq<char>,
    pub from: u32,
    pub to: u32,
    pub changed: bool,
    pub notes: Seq<Seq<char>>,
}

impl Migrated {
    pub open spec fn view(&self) -> MigratedView {
        MigratedView {
            path: self.path@,
            from: self.from,
            to: self.to,
            changed: self.changed,
            notes: texts(self.notes@),
        }
    }
}

/// What a file's document becomes in the current format, or why it does not.
pub open spec fn migration(
    kind: Kind,
    path: Seq<char>,
    read: Result<YamlView, Seq<char>>,
) -> Result<(YamlView, UpgradeView), Seq<char>> {
    match read {
        Err(e) => Err(path + ": "@ + e),
        Ok(doc) => if !(untagged(doc) is Mapping) {
            Err(path + ": not a YAML mapping"@)
        } else {
            match upgraded(kind, doc) {
                Err(FormatErrorView::Unsupported { kind, found, oldest, max }) => Err(
                    window_text(kind, path, found, oldest, max),
                ),
                Err(FormatErrorView::Invalid(m)) => Err(path + ": "@ + m),
                Ok(u) => Ok((stamped(kind, undeclared(doc)), u)),
            }
        },
    }
}

pub open spec fn read_result(r: Result<serde_yaml::Value, String>) -> Result<YamlView, Seq<char>> {
    match r {
        Ok(v) => Ok(yaml_document(v)),
        Err(e) => Err(e@),
    }
}

pub open spec fn migration_result(r: Result<(serde_yaml::Value, Upgrade), String>) -> Result<
    (YamlView, UpgradeView),
    Seq<char>,
> {
    match r {
        Ok(p) => Ok((yaml_document(p.0), p.1@)),
        Err(e) => Err(e@),
    }
}

/// Brings what was read from a file up to the current format, and stamps it.
pub fn migrate_value(kind: Kind, path: &str, read: Result<serde_yaml::Value, String>) -> (r: Result<
    (serde_yaml::Value, Upgrade),
    String,
>)
    ensures
        migration_result(r) == migration(kind, path@, read_result(read)),
{
    let mut value = match read {
        Ok(value) => value,
        Err(e) => {
            return Err(cat3(path, ": ", e.as_str()));
        },
    };
    if !is_mapping(&value) {
        return Err(cat2(path, ": not a YAML mapping"));
    }
    match upgrade(kind, &mut value) {
        Err(FormatError::Unsupported { kind, found, oldest, max }) => Err(
            window_message(kind, path, found, oldest, max),
        ),
        Err(FormatError::Invalid(m)) => Err(cat3(path, ": ", m.as_str())),
        Ok(upgrade) => {
            stamp(kind, &mut value);
            Ok((value, upgrade))
        },
    }
}

fn is_mapping(v: &serde_yaml::Value) -> (r: bool)
    ensures
        r == (untagged(yaml_document(*v)) is Mapping),
    decreases yaml_document(*v),
{
    match look(v) {
        Look::Mapping(_) => true,
        Look::Tagged(_, inner) => is_mapping(inner),
        _ => false,
    }
}

/// Reads a file's text, brings the document up to the current format, and
/// stamps it.
pub fn migrate_text(kind: Kind, path: &str, raw: &str) -> (r: Result<
    (serde_yaml::Value, Upgrade),
    String,
>)
    ensures
        migration_result(r) == migration(kind, path@, yaml_reading(raw@)),
{
    migrate_value(kind, path, read_yaml(raw))
}

/// The text of a migrated file: the comment block that led the old text, then
/// the document.
pub open spec fn migrated_text(raw: Seq<char>, body: Seq<char>) -> Seq<char> {
    raw.take(header_end(raw, 0)) + body
}

/// What a migration says of the comments that it could not keep.
pub open spec fn dropped_comments(raw: Seq<char>, changed: bool) -> Seq<Seq<char>> {
    let dropped = comment_lines(raw.skip(header_end(raw, 0)));
    if changed && dropped > 0 {
        seq![
            numeral(dropped)
                + " comment line(s) below the leading comment block were not preserved"@,
        ]
    } else {
        Seq::empty()
    }
}

/// How a migration ends, once the new document was checked and printed.
pub open spec fn settled_migration(
    path: Seq<char>,
    raw: Seq<char>,
    upgrade: UpgradeView,
    checked: Result<(), Seq<char>>,
    printed: Result<Seq<char>, Seq<char>>,
) -> Result<(Seq<char>, MigratedView), Seq<char>> {
    match checked {
        Err(e) => Err(path + ": after migration: "@ + e),
        Ok(_) => match printed {
            Err(e) => Err(path + ": "@ + e),
            Ok(body) => {
                let rendered = migrated_text(raw, body);
                let changed = rendered != raw;
                Ok(
                    (
                        rendered,
                        MigratedView {
                            path,
                            from: upgrade.from,
                            to: upgrade.to,
                            changed,
                            notes: upgrade.notes + dropped_comments(raw, changed),
                        },
                    ),
                )
            },
        },
    }
}

pub open spec fn settlement_result(r: Result<(String, Migrated), String>) -> Result<
    (Seq<char>, MigratedView),
    Seq<char>,
> {
    match r {
        Ok(p) => Ok((p.0@, p.1@)),
        Err(e) => Err(e@),
    }
}

pub open spec fn check_result(r: Result<(), String>) -> Result<(), Seq<char>> {
    match r {
        Ok(_) => Ok(()),
        Err(e) => Err(e@),
    }
}

pub open spec fn print_result(r: Result<String, String>) -> Result<Seq<char>, Seq<char>> {
    match r {
        Ok(s) => Ok(s@),
        Err(e) => Err(e@),
    }
}

/// Ends a migration, given what the check and the printing of the new document
/// came to: the file's new text, and what is reported. A result that the
/// check rejects is not written.
pub fn settle_migration(
    path: &str,
    raw: &str,
    upgrade: Upgrade,
    checked: Result<(), String>,
    printed: Result<String, String>,
) -> (r: Result<(String, Migrated), String>)
    ensures
        settlement_result(r) == settled_migration(
            path@,
            raw@,
            upgrade@,
            check_result(checked),
            print_result(printed),
        ),
{
    if let Err(e) = checked {
        return Err(cat3(path, ": after migration: ", e.as_str()));
    }
    let body = match printed {
        Ok(body) => body,
        Err(e) => {
            return Err(cat3(path, ": ", e.as_str()));
        },
    };
    let (header, rest) = split_header(raw);
    let rendered = cat2(header.as_str(), body.as_str());
    let changed = !same_text(rendered.as_str(), raw);
    let mut notes = upgrade.notes;
    let dropped: usize = count_comments(rest.as_str());
    proof {
        crate::seqs::append_nothing(texts(notes@));
    }
    if changed && dropped > 0 {
        crate::text::push_text(
            &mut notes,
            cat2(
                decimal_usize(dropped).as_str(),
                " comment line(s) below the leading comment block were not preserved",
            ),
        );
    }
    let migrated = Migrated {
        path: path.to_owned(),
        from: upgrade.from,
        to: upgrade.to,
        changed,
        notes,
    };
    Ok((rendered, migrated))
}

/// Whether a text begins with something else than white space or a comment.
pub open spec fn opens_plainly(s: Seq<char>) -> bool {
    s.len() > 0 && !is_space(s[0]) && s[0] != '#'
}

/// Whether the comment block that leads a text ends with its line.
pub open spec fn header_is_whole(raw: Seq<char>) -> bool {
    header_end(raw, 0) == 0 || raw[header_end(raw, 0) - 1] == '\n'
}

/// Prints a migrated document and ends the migration, given what the check of
/// the document came to. The file's new text is the comment block of the old one
/// and the document, which a mapping begins with the line of its first entry;
/// written there once more, the document leaves the text as it is.
pub fn finish_migration(
    path: &str,
    raw: &str,
    value: &serde_yaml::Value,
    upgrade: Upgrade,
    checked: Result<(), String>,
) -> (r: Result<(String, Migrated), String>)
    ensures
        settlement_result(r) == settled_migration(
            path@,
            raw@,
            upgrade@,
            check_result(checked),
            yaml_printing(yaml_document(*value)),
        ),
        r is Ok ==> (printed_first(yaml_document(*value)) matches Some(first) ==> ({
            let text = r->Ok_0.0@;
            let body = yaml_printing(yaml_document(*value))->Ok_0;
            &&& opens_plainly(body)
            &&& begins(text, raw@.take(header_end(raw@, 0)) + first)
            &&& header_is_whole(raw@) ==> migrated_text(text, body) == text
        })),
{
    let printed = print_yaml(value);
    proof {
        let doc = yaml_document(*value);
        if printed is Ok && printed_first(doc) is Some {
            let body = printed->Ok_0@;
            let first = printed_first(doc)->Some_0;
            lemma_printed_first(doc, body);
            crate::migrating::lemma_header_end(raw@, 0);
            let head = raw@.take(header_end(raw@, 0));
            assert((head + body).subrange(0, (head + first).len() as int) =~= head + first);
            if header_is_whole(raw@) {
                crate::migrating::lemma_text_again(raw@, body);
            }
        }
    }
    settle_migration(path, raw, upgrade, checked, printed)
}

/// What a printed document begins with is neither white space nor a comment.
proof fn lemma_printed_first(doc: YamlView, body: Seq<char>)
    requires
        printed_first(doc) matches Some(first) && begins(body, first),
    ensures
        opens_plainly(body),
{
    reveal_strlit("!");
    reveal_strlit("version: ");
    let first = printed_first(doc)->Some_0;
    assert(first[0] == '!' || first[0] == 'v');
    assert(body.subrange(0, first.len() as int)[0] == body[0]);
}

// ── Laws ─────────────────────────────────────────────────────────────────

/// What stands under the tags of a value that was put there.
pub proof fn lemma_retagged(v: YamlView, new: YamlView)
    requires
        new is Mapping,
    ensures
        untagged(retagged(v, new)) == new,
    decreases v,
{
    match v {
        YamlView::Tagged(_, inner) => lemma_retagged(*inner, new),
        _ => {},
    }
}

/// What was put under the tags of a value gives way to what is put there next.
pub proof fn lemma_retagged_twice(v: YamlView, a: YamlView, b: YamlView)
    requires
        a is Mapping,
    ensures
        retagged(retagged(v, a), b) == retagged(v, b),
    decreases v,
{
    match v {
        YamlView::Tagged(_, inner) => lemma_retagged_twice(*inner, a, b),
        _ => {},
    }
}

/// Stamping puts the declaration first, and nothing else declares a format.
pub proof fn a_stamp_stands_first(kind: Kind, doc: YamlView)
    requires
        untagged(doc) is Mapping,
    ensures
        untagged(stamped(kind, doc)) matches YamlView::Mapping(e) && e.len() > 0 && e[0] == (
            YamlView::Text(FORMAT_KEY@),
            YamlView::Num(Num::Int(current_format(kind) as int)),
        ) && forall|i: int| 0 < i < e.len() ==> yaml_text((#[trigger] e[i]).0) != Some(FORMAT_KEY@),
        declared_in(stamped(kind, doc)) == Ok::<Option<u32>, Seq<char>>(
            Some(current_format(kind)),
        ),
{
    let keep = |x: (YamlView, YamlView)| yaml_text(x.0) != Some(FORMAT_KEY@);
    let old_entries = untagged(doc)->Mapping_0;
    let rest = old_entries.filter(keep);
    let first = (
        YamlView::Text(FORMAT_KEY@),
        YamlView::Num(Num::Int(current_format(kind) as int)),
    );
    let entries = seq![first] + rest;
    lemma_retagged(doc, YamlView::Mapping(entries));
    assert(untagged(stamped(kind, doc)) == YamlView::Mapping(entries));
    assert forall|i: int| 0 < i < entries.len() implies yaml_text((#[trigger] entries[i]).0)
        != Some(FORMAT_KEY@) by {
        assert(entries[i] == rest[i - 1]);
        old_entries.lemma_filter_pred(keep, i - 1);
    }
    assert(entries[0] == first);
    assert(text_entry(entries, FORMAT_KEY@, 0) == Some(first.1));
}

/// Stamping a document twice is stamping it once.
pub proof fn stamping_is_idempotent(kind: Kind, doc: YamlView)
    ensures
        stamped(kind, stamped(kind, doc)) == stamped(kind, doc),
{
    if untagged(doc) is Mapping {
        let keep = |x: (YamlView, YamlView)| yaml_text(x.0) != Some(FORMAT_KEY@);
        let old_entries = untagged(doc)->Mapping_0;
        let rest = old_entries.filter(keep);
        let first = (
            YamlView::Text(FORMAT_KEY@),
            YamlView::Num(Num::Int(current_format(kind) as int)),
        );
        let entries = seq![first] + rest;
        lemma_retagged(doc, YamlView::Mapping(entries));
        a_stamp_stands_first(kind, doc);
        assert(entries[0] == first);
        assert forall|i: int| 0 <= i < rest.len() implies keep(#[trigger] rest[i]) by {
            assert(entries[i + 1] == rest[i]);
        }
        lemma_filter_keeps(rest, keep);
        rest.lemma_filter_prepend(first, keep);
        assert(entries.filter(keep) =~= rest);
        lemma_retagged_twice(doc, YamlView::Mapping(entries), YamlView::Mapping(entries));
    }
}

/// A filter that every item passes keeps them all.
pub proof fn lemma_filter_keeps<A>(s: Seq<A>, keep: spec_fn(A) -> bool)
    requires
        forall|i: int| 0 <= i < s.len() ==> keep(#[trigger] s[i]),
    ensures
        s.filter(keep) == s,
    decreases s.len(),
{
    reveal(Seq::filter);
    if s.len() > 0 {
        lemma_filter_keeps(s.drop_last(), keep);
        assert(keep(s[s.len() - 1]));
        assert(s.drop_last().push(s.last()) =~= s);
    }
}

/// A document that was upgraded declares no format any more.
pub proof fn an_upgrade_takes_the_declaration_out(doc: YamlView)
    ensures
        declared_in(undeclared(doc)) == Ok::<Option<u32>, Seq<char>>(None),
{
    if untagged(doc) is Mapping {
        let keep = |x: (YamlView, YamlView)| x.0 != YamlView::Text(FORMAT_KEY@);
        let old_entries = untagged(doc)->Mapping_0;
        let rest = old_entries.filter(keep);
        lemma_retagged(doc, YamlView::Mapping(rest));
        assert forall|i: int| 0 <= i < rest.len() implies (#[trigger] rest[i]).0
            != YamlView::Text(FORMAT_KEY@) by {
            old_entries.lemma_filter_pred(keep, i);
        }
        lemma_absent(rest, FORMAT_KEY@, 0);
    }
}

proof fn lemma_absent(e: YamlEntries, key: Seq<char>, i: int)
    requires
        0 <= i,
        forall|k: int| 0 <= k < e.len() ==> (#[trigger] e[k]).0 != YamlView::Text(key),
    ensures
        text_entry(e, key, i) is None,
    decreases e.len() - i,
{
    if i < e.len() {
        assert(e[i].0 != YamlView::Text(key));
        lemma_absent(e, key, i + 1);
    }
}

/// What was stamped is accepted again, as a document in the current format.
pub proof fn a_stamped_document_is_accepted(kind: Kind, doc: YamlView)
    requires
        untagged(doc) is Mapping,
    ensures
        upgraded(kind, stamped(kind, doc)) == Ok::<UpgradeView, FormatErrorView>(
            UpgradeView {
                declared: Some(current_format(kind)),
                from: current_format(kind),
                to: current_format(kind),
                notes: Seq::empty(),
            },
        ),
{
    a_stamp_stands_first(kind, doc);
}

} // verus!
