//! Files: their versions, their headers, how a plan is written into one, and how the
//! control steps are described.

use crate::format::{
    all_steps, body_steps, comments, current_format, declared_in, header_end, kind_label, line_end,
    listed_steps, migration, oldest_format, settled_migration, step_tool, steps_from, undeclared,
    upgraded, version_in, window_text, FormatErrorView, Kind, UpgradeView,
};
use crate::laws::agents::holds_text;
use crate::laws::conversing::lemma_stands_between;
use crate::laws::objects::{lemma_holds_three, lemma_holds_two};
use crate::migrating::lemma_header_end;
use crate::pipeline::control::{condition_schema, control_tools, noted_field};
use crate::pipeline::doc::PlanDocView;
use crate::pipeline::file::{
    entry_at, file_shape, held, input_refiled, key_renamed, leaf_yaml, node_of, refiled,
    solver_node, step_entries, steps_node, NodeEntries, NodeView,
};
use crate::pipeline::plan::{SolverDataView, StepView};
use crate::text::{begins, ends, numeral, trim_start, trimmed};
use crate::value::{lookup, member, object, text_list, Entries, Json, Num};
use crate::yaml::{untagged, yaml_member, YamlView};
use vstd::prelude::*;

verus! {

// ── Versions ─────────────────────────────────────────────────────────────

/// Plans and tools are told apart by their labels, and each is in its first format.
pub proof fn a_kind_has_its_label_and_format(kind: Kind)
    ensures
        kind == Kind::Plan ==> kind_label(kind) == "plan"@,
        kind == Kind::Tool ==> kind_label(kind) == "tool"@,
        current_format(kind) == 1,
        oldest_format(kind) == 1,
{
}

/// A version is a positive whole number, and nothing else is one.
pub proof fn a_version_is_a_positive_whole_number(v: YamlView, n: int)
    ensures
        1 <= n <= u32::MAX ==> version_in(YamlView::Num(Num::Int(n))) == Ok::<u32, Seq<char>>(
            n as u32,
        ),
        n < 1 || n > u32::MAX ==> version_in(YamlView::Num(Num::Int(n))) is Err,
        version_in(v) matches Ok(k) ==> v == YamlView::Num(Num::Int(k as int)) && k >= 1,
        version_in(v) matches Err(why) ==> begins(why, "version must be a positive integer"@),
{
    let lead = "version must be a positive integer, got "@;
    reveal_strlit("version must be a positive integer, got ");
    reveal_strlit("version must be a positive integer");
    let short = "version must be a positive integer"@;
    if let Err(why) = version_in(v) {
        assert(begins(why, lead)) by {
            assert(why.subrange(0, lead.len() as int) =~= lead);
        }
        assert forall|i: int| 0 <= i < short.len() implies why[i] == short[i] by {
            assert(why[i] == why.subrange(0, lead.len() as int)[i]);
        }
        assert(why.subrange(0, short.len() as int) =~= short);
    }
}

/// A document declares the version under its key; one that declares none is in the
/// first format. It is read exactly where that format is one that can be.
pub proof fn a_document_is_read_in_its_declared_format(kind: Kind, doc: YamlView)
    ensures
        yaml_member(doc, "version"@) is None ==> declared_in(doc) == Ok::<Option<u32>, Seq<char>>(
            None,
        ),
        yaml_member(doc, "version"@) matches Some(v) ==> (match (declared_in(doc), version_in(v)) {
            (Ok(Some(a)), Ok(b)) => a == b,
            (Err(a), Err(b)) => a == b,
            _ => false,
        }),
        match upgraded(kind, doc) {
            Ok(u) => {
                let from = match u.declared {
                    Some(n) => n,
                    None => 1u32,
                };
                &&& declared_in(doc) == Ok::<Option<u32>, Seq<char>>(u.declared)
                &&& u.from == from && u.from == 1
                &&& u.to == 1
                &&& u.notes.len() == 0
            },
            Err(FormatErrorView::Invalid(why)) => declared_in(doc) == Err::<
                Option<u32>,
                Seq<char>,
            >(why),
            Err(FormatErrorView::Unsupported { kind: k, found, oldest, max }) => {
                &&& declared_in(doc) == Ok::<Option<u32>, Seq<char>>(Some(found))
                &&& found > 1
                &&& k == kind && oldest == 1 && max == 1
            },
        },
{
    if let Some(v) = yaml_member(doc, "version"@) {
        a_version_is_a_positive_whole_number(v, 0);
    }
}

/// A version outside the window is told with what it was found in and what can be
/// read; one inside is not told of.
#[verifier::spinoff_prover]
#[verifier::rlimit(40)]
pub proof fn a_version_outside_the_window_is_told(
    kind: Kind,
    what: Seq<char>,
    found: u32,
    oldest: u32,
    max: u32,
)
    ensures
        oldest <= found <= max ==> window_text(kind, what, found, oldest, max).len() == 0,
        found < oldest || found > max ==> {
            let told = window_text(kind, what, found, oldest, max);
            &&& begins(
                told,
                what + " is "@ + kind_label(kind) + " version "@ + numeral(found as nat),
            )
            &&& holds_text(told, numeral(max as nat))
            &&& holds_text(told, numeral(oldest as nat))
        },
{
    if found < oldest || found > max {
        let told = window_text(kind, what, found, oldest, max);
        let head = what + (" is "@ + kind_label(kind) + " version "@ + numeral(found as nat));
        assert(head =~= what + " is "@ + kind_label(kind) + " version "@ + numeral(found as nat));
        assert(told.subrange(0, head.len() as int) =~= head);
        let middle = ", but this graph reads "@ + kind_label(kind) + " version "@;
        let tail = " — see "@ + crate::format::FORMATS_DOC@;
        let top = numeral(max as nat);
        if oldest == max {
            lemma_stands_between(head + middle, top, tail);
            assert(told =~= head + middle + top + tail);
        } else {
            let low = numeral(oldest as nat);
            lemma_stands_between(head + middle, low, " to "@ + top + tail);
            assert(told =~= head + middle + low + (" to "@ + top + tail));
            lemma_stands_between(head + middle + low + " to "@, top, tail);
            assert(told =~= head + middle + low + " to "@ + top + tail);
        }
    }
}

/// Taking a declaration out leaves every other entry.
pub proof fn only_the_declaration_is_taken_out(doc: YamlView, x: (YamlView, YamlView))
    requires
        untagged(doc) is Mapping,
    ensures
        untagged(undeclared(doc)) matches YamlView::Mapping(out) && (out.contains(x) <==> untagged(
            doc,
        )->Mapping_0.contains(x) && x.0 != YamlView::Text("version"@)),
{
    let e = untagged(doc)->Mapping_0;
    let keep = |x: (YamlView, YamlView)| x.0 != YamlView::Text(crate::format::FORMAT_KEY@);
    crate::laws::editing::lemma_filtered(e, keep, x);
    crate::format::lemma_retagged(doc, YamlView::Mapping(e.filter(keep)));
}

// ── Steps of a file ──────────────────────────────────────────────────────

proof fn lemma_listed_steps(body: YamlView, n: int, i: int, x: YamlView)
    requires
        body is List,
        0 <= i < n <= body->List_0.len(),
        steps_from(body->List_0[i]).contains(x),
    ensures
        listed_steps(body, n).contains(x),
    decreases n,
{
    let before = listed_steps(body, n - 1);
    let own = steps_from(body->List_0[n - 1]);
    assert(listed_steps(body, n) == before + own);
    if i == n - 1 {
        let k = choose|k: int| 0 <= k < own.len() && own[k] == x;
        assert((before + own)[before.len() + k] == x);
    } else {
        lemma_listed_steps(body, n - 1, i, x);
        let k = choose|k: int| 0 <= k < before.len() && before[k] == x;
        assert((before + own)[k] == x);
    }
}

/// Every step of a file is visited: those in its list, and within them those in the
/// branches of a decision and in the body of a map or a fold.
#[verifier::spinoff_prover]
#[verifier::rlimit(40)]
pub proof fn every_step_of_a_file_is_visited(
    doc: YamlView,
    steps: YamlView,
    i: int,
    key: Seq<char>,
    x: YamlView,
)
    requires
        yaml_member(doc, "steps"@) == Some(steps),
        steps is List,
        0 <= i < steps->List_0.len(),
    ensures
        ({
            let step = steps->List_0[i];
            let tool = step_tool(step);
            let held = (tool == Some("decide"@) && (key == "then"@ || key == "else"@)) || ((tool
                == Some("map"@) || tool == Some("reduce"@)) && key == "do"@);
            &&& all_steps(doc).contains(step)
            &&& held ==> (yaml_member(step, "input"@) matches Some(input) ==> (yaml_member(
                input,
                key,
            ) matches Some(body) ==> (body_steps(body).contains(x) ==> all_steps(doc).contains(x))))
        }),
{
    let items = steps->List_0;
    let step = items[i];
    let own = steps_from(step);
    let n = items.len() as int;
    assert(own[0] == step);
    lemma_listed_steps(steps, n, i, step);
    let tool = step_tool(step);
    let held = (tool == Some("decide"@) && (key == "then"@ || key == "else"@)) || ((tool == Some(
        "map"@,
    ) || tool == Some("reduce"@)) && key == "do"@);
    reveal_strlit("decide");
    reveal_strlit("map");
    reveal_strlit("reduce");
    assert("decide"@[0] != "reduce"@[0]);
    assert("decide"@.len() != "map"@.len());
    if held {
        if let Some(input) = yaml_member(step, "input"@) {
            if let Some(body) = yaml_member(input, key) {
                let inner = body_steps(body);
                if inner.contains(x) {
                    let k = choose|k: int| 0 <= k < inner.len() && inner[k] == x;
                    let under = crate::format::steps_under(step, key);
                    assert(under == inner);
                    if tool == Some("decide"@) {
                        let first = crate::format::steps_under(step, "then"@);
                        let second = crate::format::steps_under(step, "else"@);
                        assert(own == seq![step] + (first + second));
                        if key == "then"@ {
                            assert(own[1 + k] == x);
                        } else {
                            assert(own[1 + first.len() + k] == x);
                        }
                    } else {
                        assert(own == seq![step] + under);
                        assert(own[1 + k] == x);
                    }
                    lemma_listed_steps(steps, n, i, x);
                }
            }
        }
    }
}

/// A step's tool is named in either style of writing.
pub proof fn a_steps_tool_is_named_in_either_style(step: YamlView, name: Seq<char>)
    ensures
        yaml_member(step, "tool_name"@) == Some(YamlView::Text(name)) ==> step_tool(step) == Some(
            name,
        ),
        yaml_member(step, "tool_name"@) is None && yaml_member(step, "toolName"@) == Some(
            YamlView::Text(name),
        ) ==> step_tool(step) == Some(name),
        yaml_member(step, "tool_name"@) is None && yaml_member(step, "toolName"@) is None
            ==> step_tool(step) is None,
{
}

// ── Headers ──────────────────────────────────────────────────────────────

proof fn lemma_line_end(line: Seq<char>, rest: Seq<char>, from: int)
    requires
        !line.contains('\n'),
        0 <= from <= line.len(),
    ensures
        line_end(line + seq!['\n'] + rest, from) == line.len() + 1,
    decreases line.len() - from,
{
    let s = line + seq!['\n'] + rest;
    if from < line.len() {
        assert(s.subrange(from, from + 1)[0] == line[from]);
        assert(line.contains(line[from]));
        assert(s.subrange(from, from + 1) != seq!['\n']);
        lemma_line_end(line, rest, from + 1);
    } else {
        assert(s.subrange(from, from + 1) =~= seq!['\n']);
    }
}

/// The leading lines that are blank or comments make up the header; the first other
/// line ends it.
pub proof fn a_header_is_made_of_blank_and_comment_lines(line: Seq<char>, rest: Seq<char>)
    requires
        !line.contains('\n'),
    ensures
        ({
            let whole = line + seq!['\n'];
            let raw = whole + rest;
            let quiet = trimmed(whole).len() == 0 || trimmed(whole)[0] == '#';
            &&& quiet ==> header_end(raw, 0) >= line.len() + 1
            &&& !quiet ==> header_end(raw, 0) == 0
        }),
{
    let whole = line + seq!['\n'];
    let raw = whole + rest;
    lemma_line_end(line, rest, 0);
    assert(raw =~= line + seq!['\n'] + rest);
    assert(raw.subrange(0, line.len() as int + 1) =~= whole);
    lemma_header_end(raw, line.len() as int + 1);
}

/// Comment lines are counted one by one.
pub proof fn a_comment_line_counts_once(lines: Seq<Seq<char>>, line: Seq<char>, n: int)
    requires
        n == lines.len(),
    ensures
        trim_start(line).len() > 0 && trim_start(line)[0] == '#' ==> comments(
            lines.push(line),
            n + 1,
        ) == comments(lines, n) + 1,
        trim_start(line).len() == 0 || trim_start(line)[0] != '#' ==> comments(
            lines.push(line),
            n + 1,
        ) == comments(lines, n),
        comments(Seq::empty(), 0) == 0,
{
    lemma_comments_prefix(lines, line, n);
}

proof fn lemma_comments_prefix(lines: Seq<Seq<char>>, line: Seq<char>, n: int)
    requires
        0 <= n <= lines.len(),
    ensures
        comments(lines.push(line), n) == comments(lines, n),
    decreases n,
{
    if n > 0 {
        lemma_comments_prefix(lines, line, n - 1);
        assert(lines.push(line)[n - 1] == lines[n - 1]);
    }
}

/// A file is migrated where it can be read, is a mapping and is in a format that can
/// be; each refusal names the file.
#[verifier::spinoff_prover]
#[verifier::rlimit(40)]
pub proof fn a_file_is_migrated_where_it_can_be_read(
    kind: Kind,
    path: Seq<char>,
    read: Result<YamlView, Seq<char>>,
)
    ensures
        match migration(kind, path, read) {
            Ok((doc, u)) => {
                &&& read matches Ok(given) && untagged(given) is Mapping && upgraded(kind, given)
                    == Ok::<UpgradeView, FormatErrorView>(u)
                &&& yaml_member(doc, "version"@) == Some(YamlView::Num(Num::Int(1)))
            },
            Err(why) => {
                &&& begins(why, path)
                &&& (match read {
                    Err(e) => ends(why, e),
                    Ok(given) => !(untagged(given) is Mapping) || upgraded(kind, given) is Err,
                })
            },
        },
{
    match migration(kind, path, read) {
        Ok((doc, u)) => {
            let given = read->Ok_0;
            only_the_declaration_is_taken_out(given, (YamlView::Null, YamlView::Null));
            crate::format::a_stamp_stands_first(kind, undeclared(given));
        },
        Err(why) => {
            a_document_is_read_in_its_declared_format(kind, read->Ok_0);
            assert(why.subrange(0, path.len() as int) =~= path);
            if let Err(e) = read {
                assert(why.subrange(why.len() - e.len(), why.len() as int) =~= e);
            }
        },
    }
}

/// A migrated file keeps its header before the new body; it is changed exactly where
/// the text is another, and lost comments are told of.
pub proof fn a_migrated_file_keeps_its_header(
    path: Seq<char>,
    raw: Seq<char>,
    u: UpgradeView,
    checked: Result<(), Seq<char>>,
    printed: Result<Seq<char>, Seq<char>>,
)
    ensures
        match settled_migration(path, raw, u, checked, printed) {
            Ok((text, m)) => {
                &&& checked is Ok && printed is Ok
                &&& text == raw.take(header_end(raw, 0)) + printed->Ok_0
                &&& m.path == path && m.from == u.from && m.to == u.to
                &&& m.changed <==> text != raw
                &&& u.notes.is_prefix_of(m.notes)
                &&& m.notes.len() > u.notes.len() <==> text != raw
                    && crate::format::comment_lines(raw.skip(header_end(raw, 0))) > 0
            },
            Err(why) => begins(why, path) && (match (checked, printed) {
                (Err(e), _) => ends(why, e),
                (Ok(_), Err(e)) => ends(why, e),
                _ => false,
            }),
        },
{
    match settled_migration(path, raw, u, checked, printed) {
        Ok((text, m)) => {
            assert(m.notes.subrange(0, u.notes.len() as int) =~= u.notes);
        },
        Err(why) => {
            assert(why.subrange(0, path.len() as int) =~= path);
            let e = match checked {
                Err(e) => e,
                Ok(_) => printed->Err_0,
            };
            assert(why.subrange(why.len() - e.len(), why.len() as int) =~= e);
        },
    }
}

// ── Writing a plan into a file ───────────────────────────────────────────

/// Whether no key stands twice among some entries.
pub open spec fn keys_differ(e: NodeEntries) -> bool {
    forall|i: int, j: int| 0 <= i < j < e.len() ==> (#[trigger] e[i]).0 != (#[trigger] e[j]).0
}

proof fn lemma_entry_none(e: NodeEntries, key: Seq<char>, from: int)
    requires
        0 <= from,
        forall|i: int| from <= i < e.len() ==> (#[trigger] e[i]).0 != key,
    ensures
        entry_at(e, key, from) is None,
    decreases e.len() - from,
{
    if from < e.len() {
        assert(e[from].0 != key);
        lemma_entry_none(e, key, from + 1);
    }
}

proof fn lemma_entry_some(e: NodeEntries, key: Seq<char>, from: int, at: int)
    requires
        0 <= from <= at < e.len(),
        e[at].0 == key,
        forall|i: int| from <= i < at ==> (#[trigger] e[i]).0 != key,
    ensures
        entry_at(e, key, from) == Some(at),
    decreases at - from,
{
    if from < at {
        assert(e[from].0 != key);
        lemma_entry_some(e, key, from + 1, at);
    }
}

proof fn lemma_refiled(e: NodeEntries, from: Seq<char>, to: Seq<char>, n: int)
    requires
        keys_differ(e),
        forall|i: int| 0 <= i < e.len() ==> (#[trigger] e[i]).0 != to,
        0 <= n <= e.len(),
    ensures
        refiled(e, from, to, n).len() == n,
        forall|i: int|
            0 <= i < n ==> #[trigger] refiled(e, from, to, n)[i] == (
                if e[i].0 == from {
                    to
                } else {
                    e[i].0
                },
                e[i].1,
            ),
    decreases n,
{
    if n > 0 {
        lemma_refiled(e, from, to, n - 1);
        let before = refiled(e, from, to, n - 1);
        let key = if e[n - 1].0 == from {
            to
        } else {
            e[n - 1].0
        };
        assert forall|i: int| 0 <= i < before.len() implies (#[trigger] before[i]).0 != key by {
            assert(e[i].0 != e[n - 1].0);
            assert(e[n - 1].0 != to);
            assert(e[i].0 != to);
        }
        lemma_entry_none(before, key, 0);
    }
}

/// Renaming a key moves its value under the new name, in its place, and leaves the
/// others.
pub proof fn a_renamed_key_keeps_its_value_and_place(
    e: NodeEntries,
    from: Seq<char>,
    to: Seq<char>,
    i: int,
)
    requires
        keys_differ(e),
        forall|k: int| 0 <= k < e.len() ==> (#[trigger] e[k]).0 != to,
        from != to,
        0 <= i < e.len(),
    ensures
        ({
            let out = key_renamed(e, from, to);
            &&& out.len() == e.len()
            &&& out[i].1 == e[i].1
            &&& e[i].0 == from ==> out[i].0 == to
            &&& e[i].0 != from ==> out[i].0 == e[i].0
        }),
{
    if entry_at(e, from, 0) is Some {
        lemma_refiled(e, from, to, e.len() as int);
    } else {
        if e[i].0 == from {
            assert forall|k: int| 0 <= k < i implies (#[trigger] e[k]).0 != from by {
                assert(e[k].0 != e[i].0);
            }
            lemma_entry_some(e, from, 0, i);
        }
    }
}

/// Whether a name is one of those that the file writes in its own style.
pub open spec fn written_style(tool: Seq<char>, key: Seq<char>) -> Seq<char> {
    if tool == "agent"@ && key == "systemPrompt"@ {
        "system_prompt"@
    } else if tool == "agent"@ && key == "maxIterations"@ {
        "max_iterations"@
    } else if (tool == "agent"@ || tool == "ask"@) && key == "outputSchema"@ {
        "output_schema"@
    } else if tool == "ask"@ && key == "whenUnanswered"@ {
        "when_unanswered"@
    } else {
        key
    }
}

/// An agent's and a question's fields are written in the file's style, in their
/// places, with their values.
#[verifier::spinoff_prover]
#[verifier::rlimit(40)]
pub proof fn a_steps_fields_are_written_in_the_files_style(
    tool: Seq<char>,
    e: NodeEntries,
    i: int,
)
    requires
        tool == "agent"@ || tool == "ask"@,
        keys_differ(e),
        forall|k: int|
            0 <= k < e.len() ==> (#[trigger] e[k]).0 != "system_prompt"@ && e[k].0
                != "max_iterations"@ && e[k].0 != "output_schema"@ && e[k].0 != "when_unanswered"@,
        0 <= i < e.len(),
    ensures
        input_refiled(Some(tool), NodeView::Entries(e)) matches NodeView::Entries(out) && out.len()
            == e.len() && out[i].0 == written_style(tool, e[i].0) && out[i].1 == e[i].1,
{
    reveal_strlit("systemPrompt");
    reveal_strlit("maxIterations");
    reveal_strlit("outputSchema");
    reveal_strlit("whenUnanswered");
    reveal_strlit("system_prompt");
    reveal_strlit("max_iterations");
    reveal_strlit("output_schema");
    reveal_strlit("when_unanswered");
    reveal_strlit("agent");
    reveal_strlit("ask");
    assert("systemPrompt"@.len() != "maxIterations"@.len());
    assert("systemPrompt"@[0] != "outputSchema"@[0]);
    assert("systemPrompt"@.len() != "whenUnanswered"@.len());
    assert("systemPrompt"@.len() != "system_prompt"@.len());
    assert("systemPrompt"@.len() != "max_iterations"@.len());
    assert("systemPrompt"@.len() != "output_schema"@.len());
    assert("systemPrompt"@.len() != "when_unanswered"@.len());
    assert("systemPrompt"@.len() != "agent"@.len());
    assert("systemPrompt"@.len() != "ask"@.len());
    assert("maxIterations"@.len() != "outputSchema"@.len());
    assert("maxIterations"@.len() != "whenUnanswered"@.len());
    assert("maxIterations"@[0] != "system_prompt"@[0]);
    assert("maxIterations"@.len() != "max_iterations"@.len());
    assert("maxIterations"@[0] != "output_schema"@[0]);
    assert("maxIterations"@.len() != "when_unanswered"@.len());
    assert("maxIterations"@.len() != "agent"@.len());
    assert("maxIterations"@.len() != "ask"@.len());
    assert("outputSchema"@.len() != "whenUnanswered"@.len());
    assert("outputSchema"@.len() != "system_prompt"@.len());
    assert("outputSchema"@.len() != "max_iterations"@.len());
    assert("outputSchema"@.len() != "output_schema"@.len());
    assert("outputSchema"@.len() != "when_unanswered"@.len());
    assert("outputSchema"@.len() != "agent"@.len());
    assert("outputSchema"@.len() != "ask"@.len());
    assert("whenUnanswered"@.len() != "system_prompt"@.len());
    assert("whenUnanswered"@[0] != "max_iterations"@[0]);
    assert("whenUnanswered"@.len() != "output_schema"@.len());
    assert("whenUnanswered"@.len() != "when_unanswered"@.len());
    assert("whenUnanswered"@.len() != "agent"@.len());
    assert("whenUnanswered"@.len() != "ask"@.len());
    assert("system_prompt"@.len() != "max_iterations"@.len());
    assert("system_prompt"@[0] != "output_schema"@[0]);
    assert("system_prompt"@.len() != "when_unanswered"@.len());
    assert("system_prompt"@.len() != "agent"@.len());
    assert("system_prompt"@.len() != "ask"@.len());
    assert("max_iterations"@.len() != "output_schema"@.len());
    assert("max_iterations"@.len() != "when_unanswered"@.len());
    assert("max_iterations"@.len() != "agent"@.len());
    assert("max_iterations"@.len() != "ask"@.len());
    assert("output_schema"@.len() != "when_unanswered"@.len());
    assert("output_schema"@.len() != "agent"@.len());
    assert("output_schema"@.len() != "ask"@.len());
    assert("when_unanswered"@.len() != "agent"@.len());
    assert("when_unanswered"@.len() != "ask"@.len());
    assert("agent"@.len() != "ask"@.len());
    if tool == "agent"@ {
        let a = key_renamed(e, "systemPrompt"@, "system_prompt"@);
        lemma_style(e, "systemPrompt"@, "system_prompt"@);
        assert forall|k: int| 0 <= k < a.len() implies (#[trigger] a[k]).0 != "max_iterations"@
            && a[k].0 != "output_schema"@ by {
            a_renamed_key_keeps_its_value_and_place(e, "systemPrompt"@, "system_prompt"@, k);
            assert(e[k].0 != "max_iterations"@);
        }
        let b = key_renamed(a, "maxIterations"@, "max_iterations"@);
        lemma_style(a, "maxIterations"@, "max_iterations"@);
        assert forall|k: int| 0 <= k < b.len() implies (#[trigger] b[k]).0 != "output_schema"@ by {
            a_renamed_key_keeps_its_value_and_place(a, "maxIterations"@, "max_iterations"@, k);
            assert(a[k].0 != "output_schema"@);
        }
        a_renamed_key_keeps_its_value_and_place(e, "systemPrompt"@, "system_prompt"@, i);
        a_renamed_key_keeps_its_value_and_place(a, "maxIterations"@, "max_iterations"@, i);
        a_renamed_key_keeps_its_value_and_place(b, "outputSchema"@, "output_schema"@, i);
    } else {
        let a = key_renamed(e, "outputSchema"@, "output_schema"@);
        lemma_style(e, "outputSchema"@, "output_schema"@);
        assert forall|k: int| 0 <= k < a.len() implies (#[trigger] a[k]).0
            != "when_unanswered"@ by {
            a_renamed_key_keeps_its_value_and_place(e, "outputSchema"@, "output_schema"@, k);
            assert(e[k].0 != "when_unanswered"@);
        }
        a_renamed_key_keeps_its_value_and_place(e, "outputSchema"@, "output_schema"@, i);
        a_renamed_key_keeps_its_value_and_place(a, "whenUnanswered"@, "when_unanswered"@, i);
    }
}

proof fn lemma_style(e: NodeEntries, from: Seq<char>, to: Seq<char>)
    requires
        keys_differ(e),
        forall|k: int| 0 <= k < e.len() ==> (#[trigger] e[k]).0 != to,
        from != to,
    ensures
        keys_differ(key_renamed(e, from, to)),
        key_renamed(e, from, to).len() == e.len(),
{
    let out = key_renamed(e, from, to);
    if e.len() > 0 {
        a_renamed_key_keeps_its_value_and_place(e, from, to, 0);
    } else {
        lemma_entry_none(e, from, 0);
    }
    assert forall|i: int, j: int| 0 <= i < j < out.len() implies (#[trigger] out[i]).0 != (
    #[trigger] out[j]).0 by {
        a_renamed_key_keeps_its_value_and_place(e, from, to, i);
        a_renamed_key_keeps_its_value_and_place(e, from, to, j);
        assert(e[i].0 != e[j].0);
        assert(e[i].0 != to && e[j].0 != to);
    }
}

/// A document's file begins with its identifier, its name and its description; it
/// holds its steps, and each further field exactly where the document has it.
#[verifier::spinoff_prover]
#[verifier::rlimit(40)]
pub proof fn a_file_holds_what_its_document_has(doc: PlanDocView)
    ensures
        file_shape(doc) matches NodeView::Entries(e) && {
            &&& e.len() >= 4
            &&& e[0] == ("identifier"@, NodeView::Leaf(Json::Text(doc.identifier)))
            &&& e[1] == ("name"@, NodeView::Leaf(Json::Text(doc.name)))
            &&& e[2] == ("description"@, NodeView::Leaf(Json::Text(doc.description)))
            &&& e.contains(("steps"@, steps_node(doc.steps)))
            &&& doc.exemplars.len() > 0 ==> e.contains(
                ("exemplars"@, node_of(text_list(doc.exemplars))),
            )
            &&& doc.requires_servers.len() > 0 ==> e.contains(
                ("requires_servers"@, node_of(text_list(doc.requires_servers))),
            )
            &&& doc.input_schema matches Some(schema) ==> e.contains(
                ("input_schema"@, node_of(schema)),
            )
            &&& doc.solver matches Some(solver) ==> e.contains(("solver"@, solver_node(solver)))
            &&& doc.output matches Some(output) ==> e.contains(
                ("output"@, node_of(Json::Object(output))),
            )
            &&& e.len() == 4 + (if doc.exemplars.len() > 0 {
                1int
            } else {
                0
            }) + (if doc.requires_servers.len() > 0 {
                1int
            } else {
                0
            }) + (if doc.input_schema is Some {
                1int
            } else {
                0
            }) + (if doc.solver is Some {
                1int
            } else {
                0
            }) + (if doc.output is Some {
                1int
            } else {
                0
            })
        },
{
    let e = file_shape(doc)->Entries_0;
    let h0 = seq![
        ("identifier"@, NodeView::Leaf(Json::Text(doc.identifier))),
        ("name"@, NodeView::Leaf(Json::Text(doc.name))),
        ("description"@, NodeView::Leaf(Json::Text(doc.description))),
    ];
    let h1 = held("exemplars"@, doc.exemplars.len() > 0, node_of(text_list(doc.exemplars)));
    let h2 = held(
        "requires_servers"@,
        doc.requires_servers.len() > 0,
        node_of(text_list(doc.requires_servers)),
    );
    let h3 = held("input_schema"@, doc.input_schema is Some, node_of(doc.input_schema->0));
    let h4 = seq![("steps"@, steps_node(doc.steps))];
    let h5 = held("solver"@, doc.solver is Some, solver_node(doc.solver->0));
    let h6 = held("output"@, doc.output is Some, node_of(Json::Object(doc.output->0)));
    assert(e == h0 + h1 + h2 + h3 + h4 + h5 + h6);
    let n0 = h0.len() as int;
    let n1 = n0 + h1.len();
    let n2 = n1 + h2.len();
    let n3 = n2 + h3.len();
    let n4 = n3 + h4.len();
    let n5 = n4 + h5.len();
    assert(e[n3] == h4[0]);
    if doc.exemplars.len() > 0 {
        assert(e[n0] == h1[0]);
    }
    if doc.requires_servers.len() > 0 {
        assert(e[n1] == h2[0]);
    }
    if doc.input_schema is Some {
        assert(e[n2] == h3[0]);
    }
    if doc.solver is Some {
        assert(e[n4] == h5[0]);
    }
    if doc.output is Some {
        assert(e[n5] == h6[0]);
    }
}

/// A solver's fields and a step's are written under the file's names.
pub proof fn a_solver_is_written_under_the_files_names(s: SolverDataView, step: StepView)
    ensures
        solver_node(s) matches NodeView::Entries(e) && e.len() == 3 && e[0] == (
            "query_to_answer"@,
            NodeView::Leaf(Json::Text(s.query_to_answer)),
        ) && e[1].0 == "system_prompt"@ && e[1].1 == NodeView::Leaf(
            match s.system_prompt {
                Some(p) => Json::Text(p),
                None => Json::Null,
            },
        ) && e[2] == ("data"@, node_of(Json::Object(s.data))),
        step_entries(step).len() == (if step.reasoning is Some {
            4
        } else {
            3nat
        }),
        step_entries(step)[0] == ("id"@, NodeView::Leaf(Json::Text(step.id))),
        step_entries(step)[1] == ("tool_name"@, NodeView::Leaf(Json::Text(step.tool_name))),
        step_entries(step)[2].0 == "input"@,
        step.reasoning matches Some(why) ==> step_entries(step)[3] == (
            "reasoning"@,
            NodeView::Leaf(Json::Text(why)),
        ),
{
}

/// A plain value is written as it is.
pub proof fn a_plain_value_is_written_as_it_is(b: bool, n: int, s: Seq<char>)
    ensures
        leaf_yaml(Json::Null) == YamlView::Null,
        leaf_yaml(Json::Bool(b)) == YamlView::Bool(b),
        leaf_yaml(Json::Num(Num::Int(n))) == YamlView::Num(Num::Int(n)),
        leaf_yaml(Json::Text(s)) == YamlView::Text(s),
{
}

// ── The control steps ────────────────────────────────────────────────────

/// The fields that a tool's input must have, as its schema lists them.
pub open spec fn demands(schema: Json, names: Seq<Json>) -> bool {
    member(schema, "type"@) == Some(Json::Text("object"@)) && member(schema, "required"@) == Some(
        Json::List(names),
    )
}

/// The control steps are described under their names, in order, each with the fields
/// that it cannot do without.
#[verifier::spinoff_prover]
#[verifier::rlimit(40)]
pub proof fn every_control_step_names_what_it_needs()
    ensures
        ({
            let t = control_tools();
            &&& t.len() == 7
            &&& t[0].name == "agent"@ && demands(
                t[0].input_schema,
                seq![Json::Text("prompt"@), Json::Text("outputSchema"@)],
            )
            &&& t[1].name == "ask"@ && demands(
                t[1].input_schema,
                seq![Json::Text("prompt"@), Json::Text("outputSchema"@)],
            )
            &&& t[2].name == "exit"@ && demands(t[2].input_schema, seq![Json::Text("status"@)])
            &&& t[3].name == "decide"@ && demands(t[3].input_schema, seq![Json::Text("then"@)])
            &&& t[4].name == "filter"@ && demands(t[4].input_schema, seq![Json::Text("over"@)])
            &&& t[5].name == "map"@ && demands(
                t[5].input_schema,
                seq![Json::Text("over"@), Json::Text("do"@)],
            )
            &&& t[6].name == "reduce"@ && demands(
                t[6].input_schema,
                seq![Json::Text("over"@), Json::Text("do"@)],
            )
            &&& t[2].read_only == Some(true) && t[4].read_only == Some(true)
            &&& t[0].read_only is None && t[1].read_only is None && t[3].read_only is None
                && t[5].read_only is None && t[6].read_only is None
        }),
{
    reveal_strlit("type");
    reveal_strlit("required");
    reveal_strlit("properties");
    assert("type"@.len() != "required"@.len());
    assert("type"@.len() != "properties"@.len());
    assert("required"@.len() != "properties"@.len());
    let kind = Json::Text("object"@);
    assert forall|pairs: Entries|
        pairs.len() == 3 && pairs[0] == ("type"@, kind) && pairs[1].0 == "required"@ && pairs[2].0
            == "properties"@ implies lookup(#[trigger] object(pairs), "type"@) == Some(kind)
        && lookup(object(pairs), "required"@) == Some(pairs[1].1) by {
        let (k1, k2, k3) = ("type"@, "required"@, "properties"@);
        let (needs, fields) = (pairs[1].1, pairs[2].1);
        assert(pairs =~= seq![(k1, kind), (k2, needs), (k3, fields)]);
        lemma_holds_three(k1, kind, k2, needs, k3, fields, k1);
        lemma_holds_three(k1, kind, k2, needs, k3, fields, k2);
    }
}

/// A condition names its value and its operator, and the operators are those that can
/// be read.
pub proof fn a_condition_is_described_by_its_operators(value: Seq<char>)
    ensures
        ({
            let schema = condition_schema(value);
            let names = seq![
                Json::Text("eq"@),
                Json::Text("ne"@),
                Json::Text("gt"@),
                Json::Text("lt"@),
                Json::Text("gte"@),
                Json::Text("lte"@),
                Json::Text("empty"@),
                Json::Text("not_empty"@),
                Json::Text("contains"@),
            ];
            &&& demands(schema, seq![Json::Text("value"@), Json::Text("op"@)])
            &&& member(schema, "properties"@) matches Some(fields) && (member(fields, "op"@)
                matches Some(op) && member(op, "type"@) == Some(Json::Text("string"@)) && member(
                op,
                "enum"@,
            ) == Some(Json::List(names))) && member(fields, "value"@) is Some && member(
                fields,
                "to"@,
            ) is Some
        }),
{
    reveal_strlit("type");
    reveal_strlit("required");
    reveal_strlit("properties");
    reveal_strlit("value");
    reveal_strlit("op");
    reveal_strlit("to");
    reveal_strlit("enum");
    assert("type"@.len() != "required"@.len());
    assert("type"@.len() != "properties"@.len());
    assert("type"@.len() != "value"@.len());
    assert("type"@.len() != "op"@.len());
    assert("type"@.len() != "to"@.len());
    assert("type"@[0] != "enum"@[0]);
    assert("required"@.len() != "properties"@.len());
    assert("required"@.len() != "value"@.len());
    assert("required"@.len() != "op"@.len());
    assert("required"@.len() != "to"@.len());
    assert("required"@.len() != "enum"@.len());
    assert("properties"@.len() != "value"@.len());
    assert("properties"@.len() != "op"@.len());
    assert("properties"@.len() != "to"@.len());
    assert("properties"@.len() != "enum"@.len());
    assert("value"@.len() != "op"@.len());
    assert("value"@.len() != "to"@.len());
    assert("value"@.len() != "enum"@.len());
    assert("op"@[0] != "to"@[0]);
    assert("op"@.len() != "enum"@.len());
    assert("to"@.len() != "enum"@.len());
    let names = seq![
        Json::Text("eq"@),
        Json::Text("ne"@),
        Json::Text("gt"@),
        Json::Text("lt"@),
        Json::Text("gte"@),
        Json::Text("lte"@),
        Json::Text("empty"@),
        Json::Text("not_empty"@),
        Json::Text("contains"@),
    ];
    let text_type = Json::Text("string"@);
    let op = Json::Object(object(seq![("type"@, text_type), ("enum"@, Json::List(names))]));
    let to = noted_field("Comparison operand (omit for empty/not_empty)"@);
    let v = noted_field(value);
    let fields = Json::Object(object(seq![("value"@, v), ("op"@, op), ("to"@, to)]));
    let kind = Json::Text("object"@);
    let needs = Json::List(seq![Json::Text("value"@), Json::Text("op"@)]);
    let (k1, k2, k3) = ("type"@, "required"@, "properties"@);
    lemma_holds_three(k1, kind, k2, needs, k3, fields, k1);
    lemma_holds_three(k1, kind, k2, needs, k3, fields, k2);
    lemma_holds_three(k1, kind, k2, needs, k3, fields, k3);
    lemma_holds_three("value"@, v, "op"@, op, "to"@, to, "value"@);
    lemma_holds_three("value"@, v, "op"@, op, "to"@, to, "op"@);
    lemma_holds_three("value"@, v, "op"@, op, "to"@, to, "to"@);
    lemma_holds_two("type"@, text_type, "enum"@, Json::List(names), "type"@);
    lemma_holds_two("type"@, text_type, "enum"@, Json::List(names), "enum"@);
}

} // verus!
