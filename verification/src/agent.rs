//! The agent loop: model and tools in turn until a final text answer.
//!
//! A driver calls the model and the tools; what is decided here is what the
//! model is sent, what a response leads to, and when the turn is over.

use crate::chat::{
    calls_view, copy_calls, copy_messages, copy_specs, messages_view, push_message, specs_view,
    ChatMessage, ChatMessageView, ChatRequest, ChatRequestView, ChatResponse, ChatResponseView,
    StopReason, ToolCall, ToolCallView, ToolSpec, ToolSpecView, Usage,
};
use crate::pipeline::engine::{answer_view, outcome_of_registry, registry_outcome};
use crate::pipeline::plan::copy_option;
use crate::seqs::adding_new;
use crate::text::{cat3, decimal, lists, numeral, push_text, texts};
use crate::tools::{ToolError, ToolErrorView, ToolOutcome, ToolOutcomeView};
use vstd::prelude::*;

verus! {

/// Failures of the agent loop. The plan pipeline never runs the agent loop, so
/// these stand outside its own errors: they surface directly to the user as a
/// failed turn and never trigger replanning.
#[derive(Debug, PartialEq)]
pub enum AgentError {
    /// A model call failed.
    Llm(String),
    MaxIterations(u32),
    MaxTokensNoOutput,
    IncompleteStream,
}

/// The model of an [`AgentError`].
pub enum AgentErrorView {
    Llm(Seq<char>),
    MaxIterations(int),
    MaxTokensNoOutput,
    IncompleteStream,
}

impl AgentError {
    pub open spec fn view(&self) -> AgentErrorView {
        match self {
            AgentError::Llm(m) => AgentErrorView::Llm(m@),
            AgentError::MaxIterations(n) => AgentErrorView::MaxIterations(*n as int),
            AgentError::MaxTokensNoOutput => AgentErrorView::MaxTokensNoOutput,
            AgentError::IncompleteStream => AgentErrorView::IncompleteStream,
        }
    }

    /// The error in words.
    pub fn message(&self) -> (r: String)
        ensures
            r@ == agent_error_text(self@),
    {
        match self {
            AgentError::Llm(m) => m.clone(),
            AgentError::MaxIterations(n) => cat3(
                "agent exceeded ",
                decimal(*n as u64).as_str(),
                " tool iterations without reaching an answer",
            ),
            AgentError::MaxTokensNoOutput =>
            "the model hit its output-token limit before producing any visible text (the whole budget went to internal reasoning) — raise max_tokens or simplify the request".to_owned(),
            AgentError::IncompleteStream =>
            "model stream ended without completing a response".to_owned(),
        }
    }
}

/// An error in words.
pub open spec fn agent_error_text(e: AgentErrorView) -> Seq<char> {
    match e {
        AgentErrorView::Llm(m) => m,
        AgentErrorView::MaxIterations(n) => "agent exceeded "@ + numeral(n as nat)
            + " tool iterations without reaching an answer"@,
        AgentErrorView::MaxTokensNoOutput =>
        "the model hit its output-token limit before producing any visible text (the whole budget went to internal reasoning) — raise max_tokens or simplify the request"@,
        AgentErrorView::IncompleteStream => "model stream ended without completing a response"@,
    }
}

/// What a turn makes.
#[derive(Debug, PartialEq)]
pub struct TurnOutcome {
    pub text: String,
    pub usage: Usage,
    pub tool_calls_made: u32,
    /// Names of tools invoked this turn, in first-use order, deduplicated.
    pub tools_used: Vec<String>,
}

/// The model of a [`TurnOutcome`].
pub struct TurnOutcomeView {
    pub text: Seq<char>,
    pub usage: Usage,
    pub tool_calls_made: int,
    pub tools_used: Seq<Seq<char>>,
}

impl TurnOutcome {
    pub open spec fn view(&self) -> TurnOutcomeView {
        TurnOutcomeView {
            text: self.text@,
            usage: self.usage,
            tool_calls_made: self.tool_calls_made as int,
            tools_used: texts(self.tools_used@),
        }
    }
}

/// Where a turn stands.
#[derive(Debug)]
pub struct Turn {
    /// The full history, with every message of this turn.
    pub messages: Vec<ChatMessage>,
    pub usage: Usage,
    pub tool_calls_made: u32,
    pub tools_used: Vec<String>,
    /// How many rounds were begun.
    pub iteration: u32,
    pub max_iterations: u32,
}

/// The model of a [`Turn`].
pub struct TurnView {
    pub messages: Seq<ChatMessageView>,
    pub input_tokens: int,
    pub output_tokens: int,
    pub tool_calls_made: int,
    pub tools_used: Seq<Seq<char>>,
    pub iteration: int,
    pub max_iterations: int,
}

impl Turn {
    pub open spec fn view(&self) -> TurnView {
        TurnView {
            messages: messages_view(self.messages@),
            input_tokens: self.usage.input_tokens as int,
            output_tokens: self.usage.output_tokens as int,
            tool_calls_made: self.tool_calls_made as int,
            tools_used: texts(self.tools_used@),
            iteration: self.iteration as int,
            max_iterations: self.max_iterations as int,
        }
    }
}

/// A turn before its first round.
pub open spec fn new_turn(messages: Seq<ChatMessageView>, max_iterations: int) -> TurnView {
    TurnView {
        messages,
        input_tokens: 0,
        output_tokens: 0,
        tool_calls_made: 0,
        tools_used: Seq::empty(),
        iteration: 0,
        max_iterations,
    }
}

/// Begins a turn on a history.
pub fn begin_turn(messages: Vec<ChatMessage>, max_iterations: u32) -> (r: Turn)
    ensures
        r@ == new_turn(messages_view(messages@), max_iterations as int),
{
    let tools_used: Vec<String> = Vec::new();
    assert(texts(tools_used@) =~= Seq::<Seq<char>>::empty());
    Turn {
        messages,
        usage: Usage { input_tokens: 0, output_tokens: 0 },
        tool_calls_made: 0,
        tools_used,
        iteration: 0,
        max_iterations,
    }
}

/// What the model is sent in a round.
pub open spec fn round_request(
    t: TurnView,
    model: Seq<char>,
    system: Seq<char>,
    tools: Seq<ToolSpecView>,
) -> ChatRequestView {
    ChatRequestView { model, system, messages: t.messages, tools, response_schema: None }
}

/// Begins the next round: what the model is sent, or the word that the rounds
/// are used up.
pub fn begin_round(
    turn: &mut Turn,
    model: &str,
    system: &str,
    tools: &Vec<ToolSpec>,
) -> (r: Result<ChatRequest, AgentError>)
    ensures
        ({
            let before = old(turn)@;
            if before.iteration >= before.max_iterations {
                r matches Err(e) && e@ == AgentErrorView::MaxIterations(before.max_iterations)
                    && final(turn)@ == before
            } else {
                r matches Ok(request) && request@ == round_request(
                    before,
                    model@,
                    system@,
                    specs_view(tools@),
                ) && final(turn)@ == (TurnView { iteration: before.iteration + 1, ..before })
            }
        }),
{
    if turn.iteration >= turn.max_iterations {
        return Err(AgentError::MaxIterations(turn.max_iterations));
    }
    turn.iteration = turn.iteration + 1;
    Ok(
        ChatRequest {
            model: model.to_owned(),
            system: system.to_owned(),
            messages: copy_messages(&turn.messages),
            tools: copy_specs(tools),
            response_schema: None,
        },
    )
}

/// What a response leads to.
#[derive(Debug)]
pub enum TurnNext {
    /// These tools are called, and the turn goes on.
    Call(Vec<ToolCall>),
    /// The turn is over.
    Done(TurnOutcome),
    /// The turn failed.
    Fail(AgentError),
}

/// The model of a [`TurnNext`].
pub enum TurnNextView {
    Call(Seq<ToolCallView>),
    Done { text: Seq<char>, input_tokens: int, output_tokens: int, calls: int, tools: Seq<Seq<char>> },
    Fail(AgentErrorView),
}

impl TurnNext {
    pub open spec fn view(&self) -> TurnNextView {
        match self {
            TurnNext::Call(calls) => TurnNextView::Call(calls_view(calls@)),
            TurnNext::Done(o) => TurnNextView::Done {
                text: o.text@,
                input_tokens: o.usage.input_tokens as int,
                output_tokens: o.usage.output_tokens as int,
                calls: o.tool_calls_made as int,
                tools: texts(o.tools_used@),
            },
            TurnNext::Fail(e) => TurnNextView::Fail(e@),
        }
    }
}

/// The names of the tools that are called, in order.
pub open spec fn names_of(calls: Seq<ToolCallView>) -> Seq<Seq<char>> {
    Seq::new(calls.len(), |i: int| calls[i].name)
}

/// A turn that heard a response: its usage adds up, and what the model said is
/// part of the history.
pub open spec fn heard(t: TurnView, response: ChatResponseView) -> TurnView {
    TurnView {
        input_tokens: t.input_tokens + response.usage.input_tokens,
        output_tokens: t.output_tokens + response.usage.output_tokens,
        messages: t.messages.push(
            ChatMessageView::Assistant(response.content, response.tool_calls),
        ),
        tool_calls_made: t.tool_calls_made + response.tool_calls.len(),
        tools_used: adding_new(t.tools_used, names_of(response.tool_calls)),
        ..t
    }
}

/// What a response leads to: its tool calls, or else its text as the answer. A
/// response without either that hit the token limit is a failure: the whole
/// output budget went to invisible thinking, and silence would read as "nothing
/// happened".
pub open spec fn turn_next(t: TurnView, response: ChatResponseView) -> TurnNextView {
    if response.tool_calls.len() > 0 {
        TurnNextView::Call(response.tool_calls)
    } else {
        let text = match response.content {
            Some(text) => text,
            None => Seq::empty(),
        };
        if text.len() == 0 && response.stop_reason == StopReason::MaxTokens {
            TurnNextView::Fail(AgentErrorView::MaxTokensNoOutput)
        } else {
            let after = heard(t, response);
            TurnNextView::Done {
                text,
                input_tokens: after.input_tokens,
                output_tokens: after.output_tokens,
                calls: after.tool_calls_made,
                tools: after.tools_used,
            }
        }
    }
}

/// Whether the counts of a turn can take a response.
pub open spec fn countable(t: TurnView, response: ChatResponseView) -> bool {
    &&& t.input_tokens + response.usage.input_tokens <= u64::MAX
    &&& t.output_tokens + response.usage.output_tokens <= u64::MAX
    &&& t.tool_calls_made + response.tool_calls.len() <= u32::MAX
}

fn note_tools(used: Vec<String>, calls: &Vec<ToolCall>) -> (r: Vec<String>)
    ensures
        texts(r@) == adding_new(texts(used@), names_of(calls_view(calls@))),
{
    let ghost names = names_of(calls_view(calls@));
    let ghost base = texts(used@);
    let mut out = used;
    let mut i: usize = 0;
    assert(names.take(0) =~= Seq::<Seq<char>>::empty());
    while i < calls.len()
        invariant
            i <= calls@.len(),
            names == names_of(calls_view(calls@)),
            texts(out@) == adding_new(base, names.take(i as int)),
        decreases calls.len() - i,
    {
        proof {
            assert(names.take(i + 1).drop_last() =~= names.take(i as int));
            assert(names.take(i + 1).last() == calls@[i as int].name@);
        }
        if !lists(&out, calls[i].name.as_str()) {
            push_text(&mut out, calls[i].name.clone());
        }
        i += 1;
    }
    assert(names.take(i as int) =~= names);
    out
}

/// Takes a response into a turn.
pub fn after_response(turn: &mut Turn, response: ChatResponse) -> (r: TurnNext)
    requires
        countable(old(turn)@, response@),
    ensures
        final(turn)@ == heard(old(turn)@, response@),
        r@ == turn_next(old(turn)@, response@),
{
    turn.usage = Usage {
        input_tokens: turn.usage.input_tokens + response.usage.input_tokens,
        output_tokens: turn.usage.output_tokens + response.usage.output_tokens,
    };
    push_message(
        &mut turn.messages,
        ChatMessage::Assistant {
            content: copy_option(&response.content),
            tool_calls: copy_calls(&response.tool_calls),
        },
    );
    let made: usize = response.tool_calls.len();
    turn.tool_calls_made = turn.tool_calls_made + made as u32;
    let mut used: Vec<String> = Vec::new();
    std::mem::swap(&mut used, &mut turn.tools_used);
    turn.tools_used = note_tools(used, &response.tool_calls);
    if response.tool_calls.len() > 0 {
        return TurnNext::Call(response.tool_calls);
    }
    let text = match response.content {
        Some(text) => text,
        None => {
            let none = String::new();
            assert(none@ =~= Seq::<char>::empty());
            none
        },
    };
    if text.as_str().is_empty() && response.stop_reason == StopReason::MaxTokens {
        return TurnNext::Fail(AgentError::MaxTokensNoOutput);
    }
    TurnNext::Done(
        TurnOutcome {
            text,
            usage: turn.usage,
            tool_calls_made: turn.tool_calls_made,
            tools_used: crate::text::copy_texts(&turn.tools_used),
        },
    )
}

pub open spec fn answers_view(s: Seq<Result<ToolOutcome, ToolError>>) -> Seq<
    Result<ToolOutcomeView, ToolErrorView>,
> {
    Seq::new(s.len(), |i: int| answer_view(s[i]))
}

/// What the model is told of a call: a tool that cannot be invoked is a failed
/// call, told as one.
pub open spec fn told(
    call: ToolCallView,
    answer: Result<ToolOutcomeView, ToolErrorView>,
) -> ChatMessageView {
    let outcome = registry_outcome(answer);
    ChatMessageView::ToolResult {
        tool_call_id: call.id,
        content: outcome.result,
        is_error: outcome.is_error,
    }
}

/// What the model is told of a round's calls, in their order.
pub open spec fn all_told(
    calls: Seq<ToolCallView>,
    answers: Seq<Result<ToolOutcomeView, ToolErrorView>>,
) -> Seq<ChatMessageView> {
    Seq::new(calls.len(), |i: int| told(calls[i], answers[i]))
}

/// Takes what a round's calls returned, which stand in the order of the calls.
pub fn after_calls(
    turn: &mut Turn,
    calls: &Vec<ToolCall>,
    answers: Vec<Result<ToolOutcome, ToolError>>,
)
    requires
        calls@.len() == answers@.len(),
    ensures
        final(turn)@ == (TurnView {
            messages: old(turn)@.messages + all_told(calls_view(calls@), answers_view(answers@)),
            ..old(turn)@
        }),
{
    let ghost start = turn@;
    let ghost asked = calls_view(calls@);
    let ghost given = answers_view(answers@);
    let mut i: usize = 0;
    assert(turn@.messages =~= start.messages + all_told(asked, given).take(0));
    for answer in it: answers
        invariant
            it.seq() == answers@,
            i == it.index(),
            calls@.len() == answers@.len(),
            asked == calls_view(calls@),
            given == answers_view(answers@),
            turn@ == (TurnView {
                messages: start.messages + all_told(asked, given).take(i as int),
                ..start
            }),
    {
        assert(i < calls.len());
        assert(given[i as int] == answer_view(answer));
        let outcome = outcome_of_registry(answer);
        push_message(
            &mut turn.messages,
            ChatMessage::ToolResult {
                tool_call_id: calls[i].id.clone(),
                content: outcome.result,
                is_error: outcome.is_error,
            },
        );
        proof {
            assert(all_told(asked, given).take(i + 1) =~= all_told(asked, given).take(
                i as int,
            ).push(told(asked[i as int], given[i as int])));
            assert(turn@.messages =~= start.messages + all_told(asked, given).take(i + 1));
        }
        i = i + 1;
    }
    assert(all_told(asked, given).take(i as int) =~= all_told(asked, given));
}

/// The call that a message tells the result of.
pub open spec fn told_of(message: ChatMessageView) -> Option<Seq<char>> {
    match message {
        ChatMessageView::ToolResult { tool_call_id, .. } => Some(tool_call_id),
        _ => None,
    }
}

// ── Laws ─────────────────────────────────────────────────────────────────

/// The caller owns the full history: a response adds one message and its calls
/// one each, and nothing that was said is ever changed.
pub proof fn the_history_only_grows(
    t: TurnView,
    response: ChatResponseView,
    answers: Seq<Result<ToolOutcomeView, ToolErrorView>>,
)
    ensures
        t.messages.is_prefix_of(heard(t, response).messages),
        all_told(response.tool_calls, answers).len() == response.tool_calls.len(),
        forall|i: int|
            0 <= i < response.tool_calls.len() ==> told_of(
                #[trigger] all_told(response.tool_calls, answers)[i],
            ) == Some(response.tool_calls[i].id),
{
}

/// No tool is named twice among those used.
pub proof fn tools_are_named_once(t: TurnView, response: ChatResponseView)
    requires
        t.tools_used.no_duplicates(),
    ensures
        heard(t, response).tools_used.no_duplicates(),
{
    lemma_adding_keeps_distinct(t.tools_used, names_of(response.tool_calls));
}

proof fn lemma_adding_keeps_distinct(acc: Seq<Seq<char>>, s: Seq<Seq<char>>)
    requires
        acc.no_duplicates(),
    ensures
        adding_new(acc, s).no_duplicates(),
    decreases s.len(),
{
    if s.len() > 0 {
        lemma_adding_keeps_distinct(acc, s.drop_last());
        let before = adding_new(acc, s.drop_last());
        if !before.contains(s.last()) {
            let more = before.push(s.last());
            assert forall|i: int, j: int|
                0 <= i < more.len() && 0 <= j < more.len() && i != j implies more[i] != more[j] by {
                if i == before.len() {
                    assert(before.contains(before[j]));
                } else if j == before.len() {
                    assert(before.contains(before[i]));
                }
            }
        }
    }
}

} // verus!
