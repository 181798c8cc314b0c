use graph_core::agent::{
    after_calls, after_response, begin_round, begin_turn, AgentError, TurnNext, TurnOutcome,
};
use graph_core::chat::{ChatMessage, ChatResponse, StopReason, ToolCall, ToolSpec, Usage};
use graph_core::json::{from_serde, to_serde};
use graph_core::tools::{ToolError, ToolOutcome};
use graph_core::value::Data;
use serde_json::Value;
use std::sync::{Arc, Mutex};

fn json(text: &str) -> Value {
    serde_json::from_str(text).unwrap()
}

fn value<T: serde::Serialize>(v: &T) -> Value {
    serde_json::to_value(v).unwrap()
}

/// A JSON text with `"@@n"` standing for the nth value.
fn fill(text: &str, values: &[Value]) -> Value {
    fn put(v: Value, values: &[Value]) -> Value {
        match v {
            Value::String(s) => match s.strip_prefix("@@") {
                Some(n) => values[n.parse::<usize>().unwrap()].clone(),
                None => Value::String(s),
            },
            Value::Array(items) => {
                Value::Array(items.into_iter().map(|item| put(item, values)).collect())
            }
            Value::Object(map) => {
                Value::Object(map.into_iter().map(|(k, v)| (k, put(v, values))).collect())
            }
            other => other,
        }
    }
    put(json(text), values)
}

fn data(v: &Value) -> Data {
    from_serde(v.clone())
}

fn plain(d: &Data) -> Value {
    to_serde(d)
}

/// Echoes what it is given, as an error where it is told to.
struct EchoRegistry {
    invocations: Mutex<Vec<(String, Value)>>,
    error_mode: bool,
}

impl EchoRegistry {
    fn invoke(&self, name: &str, input: &Data) -> Result<ToolOutcome, ToolError> {
        let input = plain(input);
        self.invocations.lock().unwrap().push((name.to_string(), input.clone()));
        Ok(ToolOutcome {
            result: data(&fill(r#"{"echoed": "@@0"}"#, &[input])),
            is_error: self.error_mode,
        })
    }
}

struct Agent {
    responses: Mutex<Vec<ChatResponse>>,
    registry: Arc<EchoRegistry>,
}

fn agent(responses: Vec<ChatResponse>, error_mode: bool) -> (Agent, Arc<EchoRegistry>) {
    let registry = Arc::new(EchoRegistry { invocations: Mutex::new(Vec::new()), error_mode });
    (Agent { responses: Mutex::new(responses), registry: registry.clone() }, registry)
}

impl Agent {
    fn run_turn(&self, messages: &mut Vec<ChatMessage>) -> Result<TurnOutcome, AgentError> {
        let tools = vec![ToolSpec {
            name: "test__echo".to_string(),
            description: "echo".to_string(),
            input_schema: data(&json(r#"{"type": "object"}"#)),
        }];
        let mut turn = begin_turn(std::mem::take(messages), 3);
        let result = loop {
            if let Err(e) = begin_round(&mut turn, "test-model", "test", &tools) {
                break Err(e);
            }
            let response = self.responses.lock().unwrap().remove(0);
            match after_response(&mut turn, response) {
                TurnNext::Done(outcome) => break Ok(outcome),
                TurnNext::Fail(e) => break Err(e),
                TurnNext::Call(calls) => {
                    let answers = calls
                        .iter()
                        .map(|call| self.registry.invoke(&call.name, &call.arguments))
                        .collect();
                    after_calls(&mut turn, &calls, answers);
                }
            }
        };
        *messages = turn.messages;
        result
    }
}

fn text_response(text: &str) -> ChatResponse {
    ChatResponse {
        content: Some(text.to_string()),
        tool_calls: vec![],
        structured: None,
        stop_reason: StopReason::EndTurn,
        usage: Usage {
            input_tokens: 10,
            output_tokens: 5,
        },
    }
}

fn tool_response(calls: Vec<(&str, Value)>) -> ChatResponse {
    ChatResponse {
        content: None,
        tool_calls: calls
            .into_iter()
            .enumerate()
            .map(|(i, (name, arguments))| ToolCall {
                id: format!("call-{i}"),
                name: name.to_string(),
                arguments: data(&arguments),
            })
            .collect(),
        structured: None,
        stop_reason: StopReason::ToolUse,
        usage: Usage {
            input_tokens: 10,
            output_tokens: 5,
        },
    }
}

#[test]
fn answers_directly_without_tools() {
    let (agent, registry) = agent(vec![text_response("hi there")], false);
    let mut messages = vec![ChatMessage::User {
        content: "hello".into(),
    }];
    let outcome = agent.run_turn(&mut messages).unwrap();
    assert_eq!(outcome.text, "hi there");
    assert_eq!(outcome.tool_calls_made, 0);
    assert_eq!(messages.len(), 2);
    assert!(registry.invocations.lock().unwrap().is_empty());
}

#[test]
fn max_tokens_with_no_text_is_a_diagnosable_error() {
    // The whole output budget went to invisible thinking: no tool
    // calls, no text, stop_reason max_tokens.
    let empty = ChatResponse {
        content: None,
        tool_calls: vec![],
        structured: None,
        stop_reason: StopReason::MaxTokens,
        usage: Usage {
            input_tokens: 10,
            output_tokens: 8192,
        },
    };
    let (subject, _registry) = agent(vec![empty], false);
    let mut messages = vec![ChatMessage::User {
        content: "hello".into(),
    }];
    let err = subject.run_turn(&mut messages).unwrap_err();
    assert!(matches!(err, AgentError::MaxTokensNoOutput));
    assert!(err.message().contains("max_tokens"));

    // A truncated-but-nonempty answer still returns normally.
    let mut truncated = text_response("partial answ");
    truncated.stop_reason = StopReason::MaxTokens;
    let (subject, _registry) = agent(vec![truncated], false);
    let mut messages = vec![ChatMessage::User {
        content: "hello".into(),
    }];
    let outcome = subject.run_turn(&mut messages).unwrap();
    assert_eq!(outcome.text, "partial answ");
}

#[test]
fn executes_tool_round_then_answers() {
    let (agent, registry) = agent(
        vec![
            tool_response(vec![("test__echo", json(r##"{"q": "x"}"##))]),
            text_response("done"),
        ],
        false,
    );
    let mut messages = vec![ChatMessage::User {
        content: "go".into(),
    }];
    let outcome = agent.run_turn(&mut messages).unwrap();
    assert_eq!(outcome.text, "done");
    assert_eq!(outcome.tool_calls_made, 1);
    assert_eq!(
        outcome.usage.input_tokens, 20,
        "usage accumulates across rounds"
    );
    // History: user, assistant(tool_calls), tool result, assistant(text).
    assert_eq!(messages.len(), 4);
    let invocations = registry.invocations.lock().unwrap();
    assert_eq!(
        invocations[0],
        ("test__echo".to_string(), json(r##"{"q": "x"}"##))
    );
    assert!(matches!(
        &messages[2],
        ChatMessage::ToolResult {
            is_error: false,
            ..
        }
    ));
}

#[test]
fn parallel_calls_produce_ordered_results() {
    let (agent, _) = agent(
        vec![
            tool_response(vec![
                ("test__echo", json(r##"{"n": 1}"##)),
                ("test__echo", json(r##"{"n": 2}"##)),
            ]),
            text_response("both"),
        ],
        false,
    );
    let mut messages = vec![ChatMessage::User {
        content: "go".into(),
    }];
    agent.run_turn(&mut messages).unwrap();
    let ids: Vec<_> = messages
        .iter()
        .filter_map(|m| match m {
            ChatMessage::ToolResult { tool_call_id, .. } => Some(tool_call_id.clone()),
            _ => None,
        })
        .collect();
    assert_eq!(ids, vec!["call-0", "call-1"]);
}

#[test]
fn tool_errors_flow_back_as_error_results() {
    let (agent, _) = agent(
        vec![
            tool_response(vec![("test__echo", json(r##"{}"##))]),
            text_response("recovered"),
        ],
        true,
    );
    let mut messages = vec![ChatMessage::User {
        content: "go".into(),
    }];
    let outcome = agent.run_turn(&mut messages).unwrap();
    assert_eq!(outcome.text, "recovered");
    assert!(matches!(
        &messages[2],
        ChatMessage::ToolResult { is_error: true, .. }
    ));
}

#[test]
fn max_iterations_stops_runaway_loops() {
    let responses = (0..3)
        .map(|_| tool_response(vec![("test__echo", json(r##"{}"##))]))
        .collect();
    let (agent, _) = agent(responses, false);
    let mut messages = vec![ChatMessage::User {
        content: "go".into(),
    }];
    let err = agent.run_turn(&mut messages).unwrap_err();
    assert!(matches!(err, AgentError::MaxIterations(3)));
}
