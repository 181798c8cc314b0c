//! The solver: what it is given of a run's results, and what its answer makes
//! of the run.

use crate::chat::{
    messages_view, specs_view, ChatMessage, ChatMessageView, ChatRequest, ChatRequestView,
    ToolSpec, ToolSpecView,
};
use crate::json::{compact, compact_text, pretty, pretty_text};
use crate::pipeline::engine::with_note;
use crate::pipeline::prompts::{ERROR_SUMMARY_PROMPT, SOLVER_SYSTEM_PROMPT};
use crate::pipeline::record::text_view;
use crate::pipeline::run::{PipelineOutcome, PipelineOutcomeView};
use crate::pipeline::state::{BusEntryView, BusKind, RunState, RunStateView};
use crate::pipeline::written::{plan_page, plan_to_page};
use crate::template::render::{rendered_text, spliced};
use crate::template::{render_message, render_str, render_value, Roots};
use crate::text::{cat2, cat3, cat4, cat5, cat6, join, joined, shorten, shortened, texts};
use crate::value::{
    ascending, list_shrinks, object_shrinks, put, values_view, Data, Entries, Fields, Json,
};
use vstd::prelude::*;
use vstd::utf8::encode_utf8;

verus! {

// ── The payload ──────────────────────────────────────────────────────────

/// What a payload entry is made of: text is a template, and one that does not
/// render says so instead of sinking the run.
pub open spec fn payload_value(results: Entries, value: Json) -> Json {
    match value {
        Json::Text(template) => match spliced(results, template) {
            Ok(v) => v,
            Err(e) => Json::Text("(unavailable: "@ + render_message(e) + ")"@),
        },
        other => other,
    }
}

/// The first `n` entries of a payload.
pub open spec fn payload_before(results: Entries, data: Entries, n: int) -> Entries
    decreases n,
{
    if n <= 0 || n > data.len() {
        Entries::empty()
    } else {
        put(
            payload_before(results, data, n - 1),
            data[n - 1].0,
            payload_value(results, data[n - 1].1),
        )
    }
}

/// What the solver is given: what the plan says, or all results where it says
/// nothing.
pub open spec fn payload(s: RunStateView) -> Entries {
    let data = s.solver_data.data;
    let named = payload_before(s.results, data, data.len() as int);
    if named.len() == 0 {
        s.results
    } else {
        named
    }
}

fn gather_payload(state: &RunState) -> (r: Fields)
    ensures
        r@ == payload(state@),
{
    let data = &state.solver_data.data;
    let mut out = Fields::new();
    let mut i: usize = 0;
    while i < data.len()
        invariant
            i <= data@.len(),
            out@ == payload_before(state@.results, data@, i as int),
        decreases data@.len() - i,
    {
        let key = data.key_at(i).clone();
        let value = match data.value_at(i) {
            Data::Text(template) => match render_value(
                template.as_str(),
                &Roots::new(&state.results),
            ) {
                Ok(value) => value,
                Err(e) => Data::Text(cat3("(unavailable: ", e.message().as_str(), ")")),
            },
            other => other.copy(),
        };
        out.insert(key, value);
        i += 1;
    }
    if out.len() == 0 {
        return state.results.copy();
    }
    out
}

/// How many bytes of JSON the solver is given as they are.
pub const MAX_PAYLOAD_BYTES: usize = 400_000;

/// How long a text may be in a payload over budget.
pub const MAX_PAYLOAD_TEXT: usize = 500;

/// How long an array may be in a payload over budget.
pub const MAX_PAYLOAD_ITEMS: usize = 25;

/// A value cut down: long texts shortened, long arrays sampled, at every depth.
pub open spec fn shrunk(v: Json, max_text: int, max_items: int) -> Json
    decreases v,
{
    match v {
        Json::Text(s) => Json::Text(shortened(s, max_text)),
        Json::List(items) => Json::List(
            Seq::new(
                if items.len() > max_items {
                    max_items as nat
                } else {
                    items.len()
                },
                |i: int|
                    if 0 <= i < items.len() {
                        shrunk(items[i], max_text, max_items)
                    } else {
                        Json::Null
                    },
            ),
        ),
        Json::Object(entries) => Json::Object(shrunk_entries(entries, max_text, max_items)),
        other => other,
    }
}

/// The values of an object cut down.
pub open spec fn shrunk_entries(entries: Entries, max_text: int, max_items: int) -> Entries
    decreases entries,
{
    Seq::new(
        entries.len(),
        |i: int|
            if 0 <= i < entries.len() {
                (entries[i].0, shrunk(entries[i].1, max_text, max_items))
            } else {
                (Seq::empty(), Json::Null)
            },
    )
}

/// Cuts a value down.
pub fn shrink(value: &Data, max_text: usize, max_items: usize) -> (r: Data)
    ensures
        r@ == shrunk(value@, max_text as int, max_items as int),
    decreases value@, 1int,
{
    match value {
        Data::Text(s) => Data::Text(shorten(s.as_str(), max_text)),
        Data::List(items) => {
            let total: usize = if items.len() > max_items {
                max_items
            } else {
                items.len()
            };
            let mut out: Vec<Data> = Vec::new();
            let mut i: usize = 0;
            while i < total
                invariant
                    i <= total <= items@.len(),
                    value@ == Json::List(values_view(items@)),
                    out@.len() == i,
                    forall|k: int|
                        0 <= k < i ==> (#[trigger] out@[k])@ == shrunk(
                            items@[k]@,
                            max_text as int,
                            max_items as int,
                        ),
                decreases total - i,
            {
                proof {
                    list_shrinks(value@, i as int);
                }
                out.push(shrink(&items[i], max_text, max_items));
                i += 1;
            }
            assert(Json::List(values_view(out@)) == shrunk(
                value@,
                max_text as int,
                max_items as int,
            )) by {
                assert(values_view(out@) =~= shrunk(
                    value@,
                    max_text as int,
                    max_items as int,
                )->List_0);
            }
            Data::List(out)
        },
        Data::Object(fields) => {
            assert(decreases_to!(value@ => fields@));
            Data::Object(shrink_fields(fields, max_text, max_items))
        },
        other => other.copy(),
    }
}

fn shrink_fields(fields: &Fields, max_text: usize, max_items: usize) -> (r: Fields)
    ensures
        r@ == shrunk_entries(fields@, max_text as int, max_items as int),
    decreases fields@, 0int,
{
    proof {
        use_type_invariant(fields);
    }
    let ghost all = shrunk_entries(fields@, max_text as int, max_items as int);
    let mut out = Fields::new();
    let mut i: usize = 0;
    assert(out@ =~= all.take(0));
    while i < fields.len()
        invariant
            i <= fields@.len(),
            ascending(fields@),
            all == shrunk_entries(fields@, max_text as int, max_items as int),
            out@ == all.take(i as int),
        decreases fields@.len() - i,
    {
        assert(decreases_to!(fields@ => fields@[i as int]));
        assert(decreases_to!(fields@[i as int] => fields@[i as int].1));
        let value = shrink(fields.value_at(i), max_text, max_items);
        let key = fields.key_at(i).clone();
        proof {
            assert(out@.push((key@, value@)) =~= all.take(i + 1));
            assert forall|a: int, b: int| 0 <= a < b < i + 1 implies crate::text::text_less(
                #[trigger] all.take(i + 1)[a].0,
                #[trigger] all.take(i + 1)[b].0,
            ) by {
                assert(crate::text::text_less(fields@[a].0, fields@[b].0));
            }
        }
        out.append(key, value);
        i += 1;
    }
    assert(all.take(i as int) =~= all);
    out
}

/// A payload within budget: as it is where it is small enough, else with every
/// value cut down.
pub open spec fn budgeted(p: Entries) -> Entries {
    if encode_utf8(compact_text(Json::Object(p))).len() <= MAX_PAYLOAD_BYTES {
        p
    } else {
        shrunk_entries(p, MAX_PAYLOAD_TEXT as int, MAX_PAYLOAD_ITEMS as int)
    }
}

/// Keeps the solver payload within budget: truncates long texts, samples long
/// arrays. Tool results carry no verbosity annotations, so degradation is
/// generic.
pub fn budget_payload(payload: Fields) -> (r: Fields)
    ensures
        r@ == budgeted(payload@),
{
    let whole = Data::Object(payload);
    let text = compact(&whole);
    let size: usize = text.as_str().as_bytes().len();
    match whole {
        Data::Object(fields) => if size <= MAX_PAYLOAD_BYTES {
            fields
        } else {
            shrink_fields(&fields, MAX_PAYLOAD_TEXT, MAX_PAYLOAD_ITEMS)
        },
        _ => Fields::new(),
    }
}

// ── The request ──────────────────────────────────────────────────────────

/// A request of one system prompt and one message, without tools.
pub open spec fn plain_request(system: Seq<char>, message: Seq<char>) -> ChatRequestView {
    ChatRequestView {
        model: Seq::empty(),
        system,
        messages: seq![ChatMessageView::User(message)],
        tools: Seq::empty(),
        response_schema: None,
    }
}

/// A request of one system prompt and one message, without tools. The model is
/// left to the role that is asked.
pub fn make_plain_request(system: String, message: String) -> (r: ChatRequest)
    ensures
        r@ == plain_request(system@, message@),
{
    let model = String::new();
    let messages = vec![ChatMessage::User { content: message }];
    let tools: Vec<ToolSpec> = Vec::new();
    assert(model@ =~= Seq::<char>::empty());
    assert(messages_view(messages@) =~= seq![ChatMessageView::User(message@)]);
    assert(specs_view(tools@) =~= Seq::<ToolSpecView>::empty());
    ChatRequest { model, system, messages, tools, response_schema: None }
}

/// What the solver is to answer: the plan's question (with its templates
/// rendered where they render), or the query where the plan asks nothing.
pub open spec fn solver_query(s: RunStateView) -> Seq<char> {
    let asked = s.solver_data.query_to_answer;
    if asked.len() == 0 {
        s.query
    } else {
        match rendered_text(s.results, asked) {
            Ok(text) => text,
            Err(_) => asked,
        }
    }
}

/// The first note that data ran out, from `i` on.
pub open spec fn empty_note(bus: Seq<BusEntryView>, i: int) -> Option<Seq<char>>
    decreases bus.len() - i,
{
    if i < 0 || i >= bus.len() {
        None
    } else if bus[i].kind == BusKind::EmptyData {
        Some(bus[i].content)
    } else {
        empty_note(bus, i + 1)
    }
}

/// The solver's system prompt: the plan's own guidance first, and a word on
/// data that ran out.
pub open spec fn solver_system(s: RunStateView, date: Seq<char>) -> Seq<char> {
    (match s.solver_data.system_prompt {
        Some(extra) => extra + "\n\n"@,
        None => Seq::empty(),
    }) + SOLVER_SYSTEM_PROMPT@ + (match empty_note(s.bus, 0) {
        Some(note) => "\n\nNote: a step's data ran out — "@ + note
            + " — answer with what is available and say what was not found."@,
        None => Seq::empty(),
    }) + "\n\nCurrent date: "@ + date
}

/// What the solver is asked.
pub open spec fn solve_request(s: RunStateView, date: Seq<char>) -> ChatRequestView {
    plain_request(
        solver_system(s, date),
        "# Task\n"@ + solver_query(s) + "\n\n# Collected Data\n```json\n"@ + pretty_text(
            Json::Object(budgeted(payload(s))),
        ) + "\n```"@,
    )
}

fn find_empty_note(state: &RunState) -> (r: Option<String>)
    ensures
        text_view(r) == empty_note(state@.bus, 0),
{
    let mut i: usize = 0;
    while i < state.bus.len()
        invariant
            i <= state.bus@.len(),
            empty_note(state@.bus, 0) == empty_note(state@.bus, i as int),
        decreases state.bus.len() - i,
    {
        if state.bus[i].kind == BusKind::EmptyData {
            return Some(state.bus[i].content.clone());
        }
        i += 1;
    }
    None
}

fn write_solver_system(state: &RunState, current_date: &str) -> (r: String)
    ensures
        r@ == solver_system(state@, current_date@),
{
    let extra = match &state.solver_data.system_prompt {
        Some(extra) => cat2(extra.as_str(), "\n\n"),
        None => {
            let none = String::new();
            assert(none@ =~= Seq::<char>::empty());
            none
        },
    };
    let note = match find_empty_note(state) {
        Some(note) => cat3(
            "\n\nNote: a step's data ran out — ",
            note.as_str(),
            " — answer with what is available and say what was not found.",
        ),
        None => {
            let none = String::new();
            assert(none@ =~= Seq::<char>::empty());
            none
        },
    };
    cat5(extra.as_str(), SOLVER_SYSTEM_PROMPT, note.as_str(), "\n\nCurrent date: ", current_date)
}

/// Asks the solver: the results that the plan names, within budget, and the
/// question to answer from them.
pub fn begin_solve(state: &RunState, current_date: &str) -> (r: ChatRequest)
    ensures
        r@ == solve_request(state@, current_date@),
{
    let asked = state.solver_data.query_to_answer.as_str();
    let query = if asked.is_empty() {
        state.query.clone()
    } else {
        match render_str(asked, &Roots::new(&state.results)) {
            Ok(text) => text,
            Err(_) => state.solver_data.query_to_answer.clone(),
        }
    };
    let data = Data::Object(budget_payload(gather_payload(state)));
    let message = cat5(
        "# Task\n",
        query.as_str(),
        "\n\n# Collected Data\n```json\n",
        pretty(&data).as_str(),
        "\n```",
    );
    make_plain_request(write_solver_system(state, current_date), message)
}

/// The text of a model's answer; none is empty.
pub open spec fn answer_text(content: Option<Seq<char>>) -> Seq<char> {
    match content {
        Some(text) => text,
        None => Seq::empty(),
    }
}

fn text_of_answer(content: Option<String>) -> (r: String)
    ensures
        r@ == answer_text(text_view(content)),
{
    match content {
        Some(text) => text,
        None => {
            let none = String::new();
            assert(none@ =~= Seq::<char>::empty());
            none
        },
    }
}

/// What the solver's answer makes of a run.
pub open spec fn solved(s: RunStateView, content: Option<Seq<char>>) -> PipelineOutcomeView {
    PipelineOutcomeView {
        answer: answer_text(content),
        structured: None,
        state: with_note(s, "solver"@, BusKind::Info, "answered"@),
        degraded: false,
        exit: None,
    }
}

/// Ends a run with the solver's answer.
pub fn end_solve(state: RunState, content: Option<String>) -> (r: PipelineOutcome)
    ensures
        r@ == solved(state@, text_view(content)),
{
    let mut state = state;
    state.push_bus("solver", BusKind::Info, "answered");
    PipelineOutcome {
        answer: text_of_answer(content),
        structured: None,
        state,
        degraded: false,
        exit: None,
    }
}

// ── The error summary ────────────────────────────────────────────────────

/// The errors among the first `n` entries of the bus, one line each.
pub open spec fn error_lines(bus: Seq<BusEntryView>, n: int) -> Seq<Seq<char>>
    decreases n,
{
    if n <= 0 || n > bus.len() {
        Seq::empty()
    } else {
        let before = error_lines(bus, n - 1);
        if bus[n - 1].kind == BusKind::Error {
            before.push("- "@ + bus[n - 1].source + ": "@ + bus[n - 1].content)
        } else {
            before
        }
    }
}

/// What the model is asked that explains a failed run.
pub open spec fn summary_request(s: RunStateView) -> ChatRequestView {
    plain_request(
        ERROR_SUMMARY_PROMPT@,
        "# Original task\n"@ + s.query + "\n\n# Plan attempted\n"@ + plan_page(s.plan)
            + "\n\n# Errors\n"@ + joined(error_lines(s.bus, s.bus.len() as int), "\n"@),
    )
}

/// Asks for an honest failure explanation once the attempts are used up.
pub fn begin_error_summary(state: &RunState) -> (r: ChatRequest)
    ensures
        r@ == summary_request(state@),
{
    let mut errors: Vec<String> = Vec::new();
    let mut i: usize = 0;
    assert(texts(errors@) =~= error_lines(state@.bus, 0));
    while i < state.bus.len()
        invariant
            i <= state.bus@.len(),
            texts(errors@) == error_lines(state@.bus, i as int),
        decreases state.bus.len() - i,
    {
        let entry = &state.bus[i];
        assert(state@.bus[i as int] == entry@);
        if entry.kind == BusKind::Error {
            let line = cat4("- ", entry.source.as_str(), ": ", entry.content.as_str());
            crate::text::push_text(&mut errors, line);
        }
        i += 1;
    }
    let message = cat6(
        "# Original task\n",
        state.query.as_str(),
        "\n\n# Plan attempted\n",
        plan_to_page(&state.plan).as_str(),
        "\n\n# Errors\n",
        join(&errors, "\n").as_str(),
    );
    make_plain_request(ERROR_SUMMARY_PROMPT.to_owned(), message)
}

/// What the explanation makes of a run: an answer that is no solution.
pub open spec fn summarized(s: RunStateView, content: Option<Seq<char>>) -> PipelineOutcomeView {
    PipelineOutcomeView {
        answer: answer_text(content),
        structured: None,
        state: s,
        degraded: true,
        exit: None,
    }
}

/// Ends a run with the explanation of its failure.
pub fn end_error_summary(state: RunState, content: Option<String>) -> (r: PipelineOutcome)
    ensures
        r@ == summarized(state@, text_view(content)),
{
    PipelineOutcome {
        answer: text_of_answer(content),
        structured: None,
        state,
        degraded: true,
        exit: None,
    }
}

// ── Laws ─────────────────────────────────────────────────────────────────

/// Cutting a payload down keeps every key.
pub proof fn budgeting_keeps_every_key(p: Entries)
    ensures
        crate::value::keys_of(budgeted(p)) == crate::value::keys_of(p),
{
    assert(crate::value::keys_of(budgeted(p)) =~= crate::value::keys_of(p));
}

/// Whether no text and no array in a value, at any depth, is over its limit (a
/// shortened text carries one mark more).
pub open spec fn within(v: Json, max_text: int, max_items: int) -> bool
    decreases v,
{
    match v {
        Json::Text(s) => s.len() <= max_text + 1,
        Json::List(items) => items.len() <= max_items && forall|i: int|
            0 <= i < items.len() ==> within(#[trigger] items[i], max_text, max_items),
        Json::Object(entries) => forall|i: int|
            0 <= i < entries.len() ==> within(#[trigger] entries[i].1, max_text, max_items),
        _ => true,
    }
}

/// A value that was cut down holds nothing over the limits, at any depth.
pub proof fn nothing_long_survives_a_cut(v: Json, max_text: int, max_items: int)
    requires
        max_text >= 0,
        max_items >= 0,
    ensures
        within(shrunk(v, max_text, max_items), max_text, max_items),
    decreases v,
{
    let cut = shrunk(v, max_text, max_items);
    match v {
        Json::Text(s) => {
            reveal_strlit("…");
        },
        Json::List(items) => {
            assert forall|i: int| 0 <= i < cut->List_0.len() implies within(
                #[trigger] cut->List_0[i],
                max_text,
                max_items,
            ) by {
                list_shrinks(v, i);
                nothing_long_survives_a_cut(items[i], max_text, max_items);
            }
        },
        Json::Object(entries) => {
            reveal_with_fuel(shrunk, 2);
            reveal_with_fuel(shrunk_entries, 2);
            assert forall|i: int| 0 <= i < cut->Object_0.len() implies within(
                #[trigger] cut->Object_0[i].1,
                max_text,
                max_items,
            ) by {
                object_shrinks(v, i);
                nothing_long_survives_a_cut(entries[i].1, max_text, max_items);
            }
        },
        _ => {},
    }
}

} // verus!
