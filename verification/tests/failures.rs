//! Every way to fail, with what it says.

use graph_core::agent::{after_response, begin_round, begin_turn, AgentError, TurnNext};
use graph_core::chat::{ChatMessage, ChatResponse, StopReason, Usage};
use graph_core::format::{window_message, FormatError, Kind};
use graph_core::json::{compact, from_serde, parse_json};
use graph_core::pipeline::agent_loop::begin_agent;
use graph_core::pipeline::ask::begin_ask;
use graph_core::pipeline::authoring::{check_overwrite, target_path, WriteError};
use graph_core::pipeline::doc::{add_doc, load_doc, DocError, Finish, PlanDoc};
use graph_core::pipeline::engine::{choose_move, record_call, DispatchError, ExecutionEnd, Move};
use graph_core::pipeline::filter::begin_filter;
use graph_core::pipeline::plan::{PlannerOutput, SolverData, Step};
use graph_core::pipeline::record::{check_record, check_value, Record, Shape};
use graph_core::pipeline::run::{
    begin_explicit, conclude_explicit, finish_run, Conclusion, PipelineError,
};
use graph_core::pipeline::run_body::{
    after_body_control, after_body_exit, begin_body, BodyFail, BodyStep, StepFail,
};
use graph_core::pipeline::body::parse_branch;
use graph_core::pipeline::exit::{ExitEval, ExitStatus, PlanExit};
use graph_core::pipeline::state::RunState;
use graph_core::template::{render_str, RenderError, Roots};
use graph_core::tools::ToolError;
use graph_core::value::{Data, Fields};

/// What YAML text holds, as JSON.
fn parse_yaml(text: &str) -> Result<Data, String> {
    serde_yaml::from_str::<serde_json::Value>(text).map(from_serde).map_err(|e| e.to_string())
}

/// Takes in a plan file, read as JSON.
fn read_doc(path: &str, raw: &str) -> Result<PlanDoc, DocError> {
    load_doc(path, parse_yaml(raw).and_then(|v| PlanDoc::from_value(&v)))
}

fn data(text: &str) -> Data {
    parse_json(text).unwrap()
}

fn fields(text: &str) -> Fields {
    match data(text) {
        Data::Object(fields) => fields,
        _ => panic!("not an object"),
    }
}

fn step(id: &str, tool: &str, input: &str) -> Step {
    Step {
        id: id.to_string(),
        tool_name: tool.to_string(),
        input: fields(input),
        reasoning: None,
    }
}

fn run_of(plan: Vec<Step>) -> RunState {
    let mut state = RunState::default();
    state.plan = plan;
    state
}

// ── Templates ────────────────────────────────────────────────────────────

#[test]
fn each_rendering_failure_says_what_it_is() {
    let map = fields(r#"{"E0": {"a": 1, "rows": [], "gone": null}, "input": {}}"#);
    let roots = Roots::new(&map);
    let fails = |template: &str| render_str(template, &roots).unwrap_err().message();
    assert_eq!(
        fails("{{E1.x}}"),
        "template references step 'E1' which has no result (available: E0, input)"
    );
    assert_eq!(
        fails("{{E0.b.c}}"),
        "bad path 'E0.b.c': no key 'b' at E0 (available: a, gone, rows)"
    );
    assert_eq!(fails("{{E0.a.b}}"), "bad path 'E0.a.b': cannot read key 'b' from a number at E0.a");
    assert_eq!(fails("{{E0.a.0}}"), "bad path 'E0.a.0': cannot index into a number at E0.a");
    assert_eq!(fails("{{E0.rows.0}}"), "empty data at 'E0.rows.0': E0.rows is an empty array");
    assert_eq!(fails("{{E0.gone.x}}"), "empty data at 'E0.gone.x': E0.gone is null");
    assert_eq!(fails("{{E0.rows.length.x}}"), "bad path 'E0.rows': .length must be the final segment");
    assert_eq!(fails("{{"), "template parse error: unclosed {{ tag");
    assert_eq!(fails("{{}}"), "template parse error: empty {{}} tag");
    assert_eq!(fails("{{E0..a}}"), "template parse error: empty segment in path 'E0..a'");
    assert_eq!(fails("{{#E0}}"), "template parse error: unclosed section {{#E0}}");
    assert_eq!(fails("{{/E0}}"), "template parse error: closing tag {{/E0}} without an open section");
    assert_eq!(
        fails("{{@index}}"),
        "template parse error: @index used outside of a section over an array"
    );
    assert_eq!(
        fails("{{E0.99999999999999999999}}"),
        "template parse error: index too large in path 'E0.99999999999999999999'"
    );
}

// ── Runs ─────────────────────────────────────────────────────────────────

#[test]
fn a_plan_with_problems_does_not_start() {
    let plan = vec![step("E0", "t__a", r#"{"x": "{{E1}}"}"#)];
    match begin_explicit("q", plan, &Finish::Silent, None, None) {
        Err(PipelineError::InvalidPlan(message)) => {
            assert_eq!(message, "step E0 references E1, which is not an earlier step");
            assert_eq!(
                PipelineError::InvalidPlan(message).message(),
                "invalid plan: step E0 references E1, which is not an earlier step"
            );
        }
        other => panic!("{other:?}"),
    }
    assert!(matches!(
        begin_explicit("q", vec![], &Finish::Silent, None, None),
        Err(PipelineError::InvalidPlan(_))
    ));
}

#[test]
fn a_failed_step_names_its_tool() {
    let mut run = run_of(vec![step("E0", "t__a", "{}")]);
    let end = record_call(&mut run, 0, Err(DispatchError::Failed("boom".to_string()))).unwrap();
    match conclude_explicit(run, &Finish::Silent, end) {
        Conclusion::Fail(error) => {
            assert!(matches!(error, PipelineError::StepFailed { .. }));
            assert_eq!(error.message(), "plan failed at step E0 (t__a): boom");
        }
        other => panic!("{other:?}"),
    }
}

#[test]
fn data_that_ran_out_fails_a_plan_that_cannot_solve() {
    let mut run = run_of(vec![step("E0", "t__a", r#"{"x": "{{input.rows.0}}"}"#)]);
    run.results.insert("input".to_string(), data(r#"{"rows": []}"#));
    let end = match choose_move(&run) {
        Move::End(end) => end,
        other => panic!("{other:?}"),
    };
    match conclude_explicit(run, &Finish::Silent, end) {
        Conclusion::Fail(error) => {
            assert!(matches!(error, PipelineError::EmptyData { .. }));
            assert_eq!(
                error.message(),
                "plan data ran out at step E0: empty data at 'input.rows.0': input.rows is an empty array"
            );
        }
        other => panic!("{other:?}"),
    }
}

#[test]
fn an_output_that_does_not_render_fails_the_run() {
    let finish = Finish::Render(fields(r#"{"a": "{{E9}}", "b": 1}"#));
    match finish_run(run_of(vec![]), &finish) {
        Conclusion::Fail(PipelineError::OutputRender(message)) => {
            assert!(message.contains("E9"), "{message}");
            assert!(PipelineError::OutputRender(message).message().starts_with("failed to render plan output: "));
        }
        other => panic!("{other:?}"),
    }
    let finish = Finish::Render(fields(r#"{"a": "{{E0.x}}", "b": 1}"#));
    let mut run = run_of(vec![]);
    run.results.insert("E0".to_string(), data(r#"{"x": [2]}"#));
    match finish_run(run, &finish) {
        Conclusion::Done(outcome) => {
            assert_eq!(compact(&outcome.structured.unwrap()), r#"{"a":[2],"b":1}"#)
        }
        other => panic!("{other:?}"),
    }
}

#[test]
fn an_abort_keeps_what_there_was() {
    let mut run = run_of(vec![step("E0", "t__a", "{}"), step("E1", "t__b", "{}")]);
    record_call(&mut run, 0, Ok(data("1")));
    let end =
        record_call(&mut run, 1, Err(DispatchError::Aborted { error: Some(data("2")) })).unwrap();
    match conclude_explicit(run, &Finish::Silent, end) {
        Conclusion::Fail(PipelineError::Aborted { step, error, state }) => {
            assert_eq!(step, "E1");
            assert_eq!(compact(&error.unwrap()), "2");
            assert_eq!(compact(state.results.get("E0").unwrap()), "1");
        }
        other => panic!("{other:?}"),
    }
    let said = PipelineError::Aborted {
        step: "E1".to_string(),
        error: None,
        state: Box::new(run_of(vec![])),
    };
    assert_eq!(said.message(), "run aborted at step E1");
}

#[test]
fn the_other_run_errors_say_what_they_are() {
    assert_eq!(PipelineError::Llm("no answer".to_string()).message(), "no answer");
    let gave_up = PipelineError::DraftStepExhausted {
        step_id: "E2".to_string(),
        attempts: 3,
        problems: vec!["a".to_string(), "b".to_string()],
        partial: Box::new(PlannerOutput { plan: vec![], solver_data: SolverData::default() }),
    };
    assert_eq!(gave_up.message(), "drafting gave up on step E2 after 3 attempts: a; b");
}

// ── Bodies ───────────────────────────────────────────────────────────────

fn in_a_body() -> graph_core::pipeline::run_body::BodyWork {
    let branch = parse_branch("do", &data(r#"[{"id": "a", "toolName": "ask", "input": {}}]"#)).unwrap();
    begin_body("E0", "do", "body", branch, Fields::new())
}

fn over(step: BodyStep) -> BodyFail {
    match step {
        BodyStep::Over(error) => error.fail,
        other => panic!("{other:?}"),
    }
}

#[test]
fn a_body_ends_as_its_control_step_did() {
    assert!(matches!(
        over(after_body_control(in_a_body(), Err(StepFail::Failed("no".to_string())))),
        BodyFail::Tool(message) if message.contains("no")
    ));
    let empty = RenderError::EmptyData { path: "E0.x".to_string(), reason: "null".to_string() };
    assert!(matches!(
        over(after_body_control(in_a_body(), Err(StepFail::Empty(empty)))),
        BodyFail::Render(RenderError::EmptyData { .. })
    ));
    assert!(matches!(
        over(after_body_control(in_a_body(), Err(StepFail::Aborted(Some(data("1")))))),
        BodyFail::Aborted(Some(_))
    ));
    let exit = PlanExit {
        status: ExitStatus::Error,
        message: "stop".to_string(),
        reason: None,
        output: None,
        step: "a".to_string(),
    };
    assert!(matches!(
        over(after_body_exit(in_a_body(), Ok(ExitEval::Exited(exit)))),
        BodyFail::Exited(exit) if exit.message == "stop"
    ));
    assert!(matches!(
        over(after_body_exit(in_a_body(), Err("unreadable".to_string()))),
        BodyFail::Tool(message) if message.contains("unreadable")
    ));
}

#[test]
fn control_steps_fail_on_inputs_they_cannot_read() {
    let scope = fields(r#"{"E0": {"rows": null}}"#);
    assert!(matches!(begin_filter(&fields("{}"), &scope), Err(StepFail::Failed(_))));
    assert!(matches!(
        begin_filter(&fields(r#"{"over": "{{E0.rows.0}}", "where": {"value": 1, "op": "eq", "to": 1}}"#), &scope),
        Err(StepFail::Empty(_))
    ));
    assert!(matches!(begin_ask(&fields(r#"{"prompt": 1}"#), &scope), Err(StepFail::Failed(_))));
    assert!(matches!(begin_agent(&fields(r#"{"prompt": "go"}"#), &scope), Err(StepFail::Failed(_))));
}

// ── Documents ────────────────────────────────────────────────────────────

const DOC: &str = "identifier: a\nname: A\ndescription: d\nsteps:\n- id: E0\n  tool_name: t__x\n  input: {}\n";

#[test]
fn each_document_error_says_what_it_is() {
    match read_doc("p.yaml", "identifier: a\n") {
        Err(error @ DocError::Invalid { .. }) => {
            assert!(error.message().starts_with("p.yaml: "), "{}", error.message());
        }
        other => panic!("{other:?}"),
    }
    assert!(matches!(read_doc("p.yaml", "a: ["), Err(DocError::Invalid { .. })));
    let mut docs: Vec<PlanDoc> = vec![];
    add_doc(&mut docs, read_doc("a.yaml", DOC).unwrap()).unwrap();
    let again = add_doc(&mut docs, read_doc("b.yaml", DOC).unwrap()).unwrap_err();
    assert_eq!(again.message(), "duplicate plan identifier 'a'");
    assert_eq!(docs.len(), 1);
    let io = DocError::Io { path: "x".to_string(), message: "gone".to_string() };
    assert_eq!(io.message(), "io error reading x: gone");
}

#[test]
fn each_write_error_says_what_it_is() {
    let mut doc = read_doc("a.yaml", DOC).unwrap();
    doc.path = None;
    assert_eq!(target_path(&doc, None), Err(WriteError::NoPlansDir));
    assert_eq!(
        WriteError::NoPlansDir.message(),
        "no plans directory configured ([plans].paths)"
    );
    let exists = target_path(&doc, Some(("plans/a.yaml".to_string(), true))).unwrap_err();
    assert_eq!(
        exists.message(),
        "plans/a.yaml already exists — change the identifier or remove the file"
    );
    assert_eq!(
        target_path(&doc, Some(("plans/a.yaml".to_string(), false))),
        Ok("plans/a.yaml".to_string())
    );
    let other = check_overwrite(&doc, "p.yaml", Some("b".to_string()), false).unwrap_err();
    assert_eq!(other.message(), "p.yaml holds plan 'b', not 'a' — refusing to overwrite it");
    assert_eq!(check_overwrite(&doc, "p.yaml", Some("b".to_string()), true), Ok(()));
    assert_eq!(check_overwrite(&doc, "p.yaml", Some("a".to_string()), false), Ok(()));
    assert_eq!(WriteError::Io("disk full".to_string()).message(), "disk full");
    assert_eq!(WriteError::Serialize("bad".to_string()).message(), "bad");
}

#[test]
fn each_format_error_says_what_it_is() {
    let newer = FormatError::Unsupported { kind: Kind::Plan, found: 9, oldest: 1, max: 1 };
    assert_eq!(
        newer.message(),
        "this file is plan version 9, but this graph reads plan version 1 — see docs/reference/formats.mdx"
    );
    assert_eq!(FormatError::Invalid("bad".to_string()).message(), "bad");
    assert_eq!(
        window_message(Kind::Tool, "it", 5, 2, 4),
        "it is tool version 5, but this graph reads tool version 2 to 4 — see docs/reference/formats.mdx"
    );
    assert_eq!(window_message(Kind::Tool, "it", 3, 2, 4), "");
}

#[test]
fn records_say_which_field_is_wrong() {
    let problem = |text: &str| check_record(&fields(text), Record::Step);
    assert_eq!(problem(r#"{"id": "a", "toolName": "b", "input": {}}"#), None);
    assert_eq!(problem(r#"{"id": "a", "toolName": "b"}"#), Some("missing field `input`".to_string()));
    assert_eq!(
        problem(r#"{"id": "a", "toolName": "b", "tool_name": "b", "input": {}}"#),
        Some("duplicate field `toolName`".to_string())
    );
    assert_eq!(
        problem(r#"{"id": 1, "toolName": "b", "input": {}}"#),
        Some("invalid type: integer `1`, expected a string".to_string())
    );
    assert_eq!(
        check_record(&fields(r#"{"value": 1, "op": "eq", "extra": 2}"#), Record::Condition),
        Some("unknown field `extra`, expected one of `value`, `op`, `to`".to_string())
    );
    assert_eq!(
        check_value(&data("-1"), Shape::Size),
        Some("invalid value: integer `-1`, expected usize".to_string())
    );
    assert_eq!(check_value(&data("4294967296"), Shape::Small).is_some(), true);
    assert_eq!(check_value(&data("[1]"), Shape::OptTexts).is_some(), true);
    assert_eq!(check_value(&data("null"), Shape::OptTexts), None);
}

// ── Tools and turns ──────────────────────────────────────────────────────

#[test]
fn each_tool_error_says_what_it_is() {
    assert_eq!(ToolError::Unknown("x".to_string()).message(), "unknown tool: x");
    assert_eq!(ToolError::Transport("why".to_string()).message(), "tool transport failed: why");
}

fn reply(content: Option<&str>, stop_reason: StopReason) -> ChatResponse {
    ChatResponse {
        content: content.map(|c| c.to_string()),
        tool_calls: vec![],
        structured: None,
        stop_reason,
        usage: Usage { input_tokens: 0, output_tokens: 0 },
    }
}

#[test]
fn each_turn_error_says_what_it_is() {
    let hello = || vec![ChatMessage::User { content: "hi".to_string() }];
    let mut turn = begin_turn(hello(), 1);
    begin_round(&mut turn, "m", "s", &vec![]).unwrap();
    match begin_round(&mut turn, "m", "s", &vec![]) {
        Err(error @ AgentError::MaxIterations(1)) => assert_eq!(
            error.message(),
            "agent exceeded 1 tool iterations without reaching an answer"
        ),
        other => panic!("{other:?}"),
    }
    let mut turn = begin_turn(hello(), 2);
    begin_round(&mut turn, "m", "s", &vec![]).unwrap();
    assert!(matches!(
        after_response(&mut turn, reply(None, StopReason::MaxTokens)),
        TurnNext::Fail(AgentError::MaxTokensNoOutput)
    ));
    assert_eq!(AgentError::Llm("down".to_string()).message(), "down");
    assert_eq!(
        AgentError::IncompleteStream.message(),
        "model stream ended without completing a response"
    );
    assert!(AgentError::MaxTokensNoOutput.message().starts_with("the model hit its output-token limit"));
}

#[test]
fn an_execution_that_ends_empty_can_still_solve() {
    let end = ExecutionEnd::Empty { step: "E0".to_string(), message: "none".to_string() };
    let solve = Finish::Solve(SolverData::default());
    match conclude_explicit(run_of(vec![]), &solve, end) {
        Conclusion::Solve(state) => assert_eq!(state.bus.len(), 1),
        other => panic!("{other:?}"),
    }
}
