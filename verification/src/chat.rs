//! A conversation with a model: its messages, requests and responses.

use crate::pipeline::plan::copy_option;
use crate::pipeline::record::{data_view, text_view};
use crate::tools::{tools_view, ToolDef, ToolDefView};
use crate::value::{Data, Json};
use vstd::prelude::*;

verus! {

/// A tool call that a model asks for.
#[derive(Debug, PartialEq)]
pub struct ToolCall {
    pub id: String,
    pub name: String,
    pub arguments: Data,
}

/// One message of a conversation.
#[derive(Debug, PartialEq)]
pub enum ChatMessage {
    User { content: String },
    Assistant { content: Option<String>, tool_calls: Vec<ToolCall> },
    ToolResult { tool_call_id: String, content: Data, is_error: bool },
}

/// A tool as it is offered to a model.
#[derive(Debug, PartialEq)]
pub struct ToolSpec {
    pub name: String,
    pub description: String,
    pub input_schema: Data,
}

/// What a model is asked.
#[derive(Debug)]
pub struct ChatRequest {
    pub model: String,
    pub system: String,
    pub messages: Vec<ChatMessage>,
    pub tools: Vec<ToolSpec>,
    /// The schema that the provider forces the answer into.
    pub response_schema: Option<Data>,
}

/// Why a model stopped.
#[derive(Debug, Clone, Copy, PartialEq, Eq, Structural)]
pub enum StopReason {
    EndTurn,
    ToolUse,
    MaxTokens,
    Other,
}

/// What a call cost.
#[derive(Debug, Clone, Copy, PartialEq, Eq, Structural)]
pub struct Usage {
    pub input_tokens: u64,
    pub output_tokens: u64,
}

/// What a model answers.
#[derive(Debug)]
pub struct ChatResponse {
    pub content: Option<String>,
    pub tool_calls: Vec<ToolCall>,
    /// The answer in a forced schema.
    pub structured: Option<Data>,
    pub stop_reason: StopReason,
    pub usage: Usage,
}

/// The model of a [`ToolCall`].
pub struct ToolCallView {
    pub id: Seq<char>,
    pub name: Seq<char>,
    pub arguments: Json,
}

/// The model of a [`ChatMessage`].
pub enum ChatMessageView {
    User(Seq<char>),
    Assistant(Option<Seq<char>>, Seq<ToolCallView>),
    ToolResult { tool_call_id: Seq<char>, content: Json, is_error: bool },
}

/// The model of a [`ToolSpec`].
pub struct ToolSpecView {
    pub name: Seq<char>,
    pub description: Seq<char>,
    pub input_schema: Json,
}

/// The model of a [`ChatRequest`].
pub struct ChatRequestView {
    pub model: Seq<char>,
    pub system: Seq<char>,
    pub messages: Seq<ChatMessageView>,
    pub tools: Seq<ToolSpecView>,
    pub response_schema: Option<Json>,
}

/// The model of a [`ChatResponse`].
pub struct ChatResponseView {
    pub content: Option<Seq<char>>,
    pub tool_calls: Seq<ToolCallView>,
    pub structured: Option<Json>,
    pub stop_reason: StopReason,
    pub usage: Usage,
}

impl ToolCall {
    pub open spec fn view(&self) -> ToolCallView {
        ToolCallView { id: self.id@, name: self.name@, arguments: self.arguments@ }
    }

    /// A copy of the call.
    pub fn copy(&self) -> (r: ToolCall)
        ensures
            r@ == self@,
    {
        ToolCall {
            id: self.id.clone(),
            name: self.name.clone(),
            arguments: self.arguments.copy(),
        }
    }
}

pub open spec fn calls_view(s: Seq<ToolCall>) -> Seq<ToolCallView> {
    Seq::new(s.len(), |i: int| s[i]@)
}

/// A copy of some calls.
pub fn copy_calls(calls: &Vec<ToolCall>) -> (r: Vec<ToolCall>)
    ensures
        calls_view(r@) == calls_view(calls@),
{
    let mut out: Vec<ToolCall> = Vec::new();
    let mut i: usize = 0;
    while i < calls.len()
        invariant
            i <= calls@.len(),
            out@.len() == i,
            forall|k: int| 0 <= k < i ==> (#[trigger] out@[k])@ == calls@[k]@,
        decreases calls.len() - i,
    {
        out.push(calls[i].copy());
        i += 1;
    }
    assert(calls_view(out@) =~= calls_view(calls@));
    out
}

impl ChatMessage {
    pub open spec fn view(&self) -> ChatMessageView {
        match self {
            ChatMessage::User { content } => ChatMessageView::User(content@),
            ChatMessage::Assistant { content, tool_calls } => ChatMessageView::Assistant(
                text_view(*content),
                calls_view(tool_calls@),
            ),
            ChatMessage::ToolResult { tool_call_id, content, is_error } =>
                ChatMessageView::ToolResult {
                tool_call_id: tool_call_id@,
                content: content@,
                is_error: *is_error,
            },
        }
    }

    /// A copy of the message.
    pub fn copy(&self) -> (r: ChatMessage)
        ensures
            r@ == self@,
    {
        match self {
            ChatMessage::User { content } => ChatMessage::User { content: content.clone() },
            ChatMessage::Assistant { content, tool_calls } => ChatMessage::Assistant {
                content: copy_option(content),
                tool_calls: copy_calls(tool_calls),
            },
            ChatMessage::ToolResult { tool_call_id, content, is_error } => ChatMessage::ToolResult {
                tool_call_id: tool_call_id.clone(),
                content: content.copy(),
                is_error: *is_error,
            },
        }
    }

    /// What the model said, without tool calls.
    pub fn said(text: String) -> (r: ChatMessage)
        ensures
            r@ == said(text@),
    {
        let tool_calls: Vec<ToolCall> = Vec::new();
        assert(calls_view(tool_calls@) =~= Seq::<ToolCallView>::empty());
        ChatMessage::Assistant { content: Some(text), tool_calls }
    }
}

/// What the model said, without tool calls.
pub open spec fn said(text: Seq<char>) -> ChatMessageView {
    ChatMessageView::Assistant(Some(text), Seq::empty())
}

pub open spec fn messages_view(s: Seq<ChatMessage>) -> Seq<ChatMessageView> {
    Seq::new(s.len(), |i: int| s[i]@)
}

/// A copy of a conversation.
pub fn copy_messages(messages: &Vec<ChatMessage>) -> (r: Vec<ChatMessage>)
    ensures
        messages_view(r@) == messages_view(messages@),
{
    let mut out: Vec<ChatMessage> = Vec::new();
    let mut i: usize = 0;
    while i < messages.len()
        invariant
            i <= messages@.len(),
            out@.len() == i,
            forall|k: int| 0 <= k < i ==> (#[trigger] out@[k])@ == messages@[k]@,
        decreases messages.len() - i,
    {
        out.push(messages[i].copy());
        i += 1;
    }
    assert(messages_view(out@) =~= messages_view(messages@));
    out
}

/// Adds a message to a conversation.
pub fn push_message(messages: &mut Vec<ChatMessage>, message: ChatMessage)
    ensures
        messages_view(final(messages)@) == messages_view(old(messages)@).push(message@),
{
    let ghost before = messages_view(messages@);
    messages.push(message);
    assert(messages_view(messages@) =~= before.push(message@));
}

/// Adds messages to a conversation.
pub fn extend_messages(messages: &mut Vec<ChatMessage>, more: Vec<ChatMessage>)
    ensures
        messages_view(final(messages)@) == messages_view(old(messages)@) + messages_view(more@),
{
    let ghost before = messages_view(messages@);
    let mut added = more;
    messages.append(&mut added);
    assert(messages_view(messages@) =~= before + messages_view(more@));
}

impl ToolSpec {
    pub open spec fn view(&self) -> ToolSpecView {
        ToolSpecView {
            name: self.name@,
            description: self.description@,
            input_schema: self.input_schema@,
        }
    }

    /// A copy of the tool.
    pub fn copy(&self) -> (r: ToolSpec)
        ensures
            r@ == self@,
    {
        ToolSpec {
            name: self.name.clone(),
            description: self.description.clone(),
            input_schema: self.input_schema.copy(),
        }
    }
}

pub open spec fn specs_view(s: Seq<ToolSpec>) -> Seq<ToolSpecView> {
    Seq::new(s.len(), |i: int| s[i]@)
}

/// A copy of some tools.
pub fn copy_specs(specs: &Vec<ToolSpec>) -> (r: Vec<ToolSpec>)
    ensures
        specs_view(r@) == specs_view(specs@),
{
    let mut out: Vec<ToolSpec> = Vec::new();
    let mut i: usize = 0;
    while i < specs.len()
        invariant
            i <= specs@.len(),
            out@.len() == i,
            forall|k: int| 0 <= k < i ==> (#[trigger] out@[k])@ == specs@[k]@,
        decreases specs.len() - i,
    {
        out.push(specs[i].copy());
        i += 1;
    }
    assert(specs_view(out@) =~= specs_view(specs@));
    out
}

/// A tool as it is offered to a model.
pub open spec fn spec_of(def: ToolDefView) -> ToolSpecView {
    ToolSpecView {
        name: def.name,
        description: def.description,
        input_schema: def.input_schema,
    }
}

/// Tools as they are offered to a model.
pub open spec fn specs_of(defs: Seq<ToolDefView>) -> Seq<ToolSpecView> {
    Seq::new(defs.len(), |i: int| spec_of(defs[i]))
}

/// Tools as they are offered to a model.
pub fn offer(defs: Vec<ToolDef>) -> (r: Vec<ToolSpec>)
    ensures
        specs_view(r@) == specs_of(tools_view(defs@)),
{
    let ghost all = tools_view(defs@);
    let mut out: Vec<ToolSpec> = Vec::new();
    for def in it: defs
        invariant
            it.seq() == defs@,
            all == tools_view(defs@),
            out@.len() == it.index(),
            forall|k: int| 0 <= k < it.index() ==> (#[trigger] out@[k])@ == spec_of(all[k]),
    {
        assert(all[it.index() as int] == def@);
        out.push(
            ToolSpec {
                name: def.name,
                description: def.description,
                input_schema: def.input_schema,
            },
        );
    }
    assert(specs_view(out@) =~= specs_of(all));
    out
}

impl ChatRequest {
    pub open spec fn view(&self) -> ChatRequestView {
        ChatRequestView {
            model: self.model@,
            system: self.system@,
            messages: messages_view(self.messages@),
            tools: specs_view(self.tools@),
            response_schema: data_view(self.response_schema),
        }
    }
}

impl ChatResponse {
    pub open spec fn view(&self) -> ChatResponseView {
        ChatResponseView {
            content: text_view(self.content),
            tool_calls: calls_view(self.tool_calls@),
            structured: data_view(self.structured),
            stop_reason: self.stop_reason,
            usage: self.usage,
        }
    }
}

} // verus!
