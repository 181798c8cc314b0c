//! Plans as the text that a model reads.

use graph_core::chat::ChatMessage;
use graph_core::format::graph_version;
use graph_core::json::parse_json;
use graph_core::pipeline::authoring::plan_problems;
use graph_core::pipeline::doc::PlanDoc;
use graph_core::pipeline::outline::{OutlineItem, PlanOutline, StepDraft};
use graph_core::pipeline::plan::{PlannerOutput, SolverData, Step};
use graph_core::pipeline::solver::begin_error_summary;
use graph_core::pipeline::state::RunState;
use graph_core::pipeline::written::plan_to_page;
use graph_core::value::{Data, Fields};

fn fields(text: &str) -> Fields {
    match parse_json(text).unwrap() {
        Data::Object(fields) => fields,
        _ => panic!("not an object"),
    }
}

fn search() -> Step {
    Step {
        id: "E0".to_string(),
        tool_name: "web__search".to_string(),
        input: fields(r#"{"q": "a \"quoted\"\nword", "in": ["x", {}]}"#),
        reasoning: Some("look\nit up".to_string()),
    }
}

fn bare() -> Step {
    Step {
        id: "E1".to_string(),
        tool_name: "t__x".to_string(),
        input: fields("{}"),
        reasoning: None,
    }
}

fn plan(text: &str) -> PlanDoc {
    PlanDoc::from_value(&parse_json(text).unwrap()).unwrap()
}

#[test]
fn a_step_is_written_in_the_order_of_its_schema() {
    assert_eq!(
        search().to_line(),
        r#"{"id":"E0","toolName":"web__search","input":{"in":["x",{}],"q":"a \"quoted\"\nword"},"reasoning":"look\nit up"}"#,
    );
    assert_eq!(bare().to_line(), r#"{"id":"E1","toolName":"t__x","input":{},"reasoning":null}"#);
    assert_eq!(
        search().to_page(),
        r#"{
  "id": "E0",
  "toolName": "web__search",
  "input": {
    "in": [
      "x",
      {}
    ],
    "q": "a \"quoted\"\nword"
  },
  "reasoning": "look\nit up"
}"#,
    );
}

#[test]
fn a_plan_is_written_one_level_in() {
    assert_eq!(plan_to_page(&vec![]), "[]");
    assert_eq!(
        plan_to_page(&vec![bare(), bare()]),
        r#"[
  {
    "id": "E1",
    "toolName": "t__x",
    "input": {},
    "reasoning": null
  },
  {
    "id": "E1",
    "toolName": "t__x",
    "input": {},
    "reasoning": null
  }
]"#,
    );
}

#[test]
fn a_planner_output_is_written_with_its_solver_data_last() {
    let output = PlannerOutput {
        plan: vec![bare()],
        solver_data: SolverData {
            query_to_answer: "What?".to_string(),
            system_prompt: None,
            data: fields(r#"{"b": 1, "a": "{{E1}}"}"#),
        },
    };
    assert_eq!(
        output.to_page(),
        r#"{
  "plan": [
    {
      "id": "E1",
      "toolName": "t__x",
      "input": {},
      "reasoning": null
    }
  ],
  "solverData": {
    "queryToAnswer": "What?",
    "systemPrompt": null,
    "data": {
      "a": "{{E1}}",
      "b": 1
    }
  }
}"#,
    );
    let empty = PlannerOutput { plan: vec![], solver_data: SolverData::default() };
    assert_eq!(
        empty.to_page(),
        "{\n  \"plan\": [],\n  \"solverData\": {\n    \"queryToAnswer\": \"\",\n    \"systemPrompt\": null,\n    \"data\": {}\n  }\n}",
    );
}

#[test]
fn an_outline_and_a_draft_are_written_on_one_line() {
    let outline = PlanOutline {
        items: vec![
            OutlineItem { summary: "Find it.".to_string(), expected_tool: None },
            OutlineItem {
                summary: "Use it.".to_string(),
                expected_tool: Some("t__x".to_string()),
            },
        ],
        query_to_answer: "What?".to_string(),
        system_prompt: Some("Be brief.".to_string()),
    };
    assert_eq!(
        outline.to_line(),
        r#"{"items":[{"summary":"Find it.","expectedTool":null},{"summary":"Use it.","expectedTool":"t__x"}],"queryToAnswer":"What?","systemPrompt":"Be brief."}"#,
    );
    let draft = StepDraft { step: Some(bare()), plan_complete: true };
    assert_eq!(
        draft.to_line(),
        r#"{"step":{"id":"E1","toolName":"t__x","input":{},"reasoning":null},"planComplete":true}"#,
    );
    let done = StepDraft { step: None, plan_complete: false };
    assert_eq!(done.to_line(), r#"{"step":null,"planComplete":false}"#);
}

#[test]
fn what_is_written_is_read_back_as_it_was() {
    let step = Step::from_value(&parse_json(&search().to_page()).unwrap()).unwrap();
    assert_eq!(step.to_line(), search().to_line());
    let draft = StepDraft { step: Some(search()), plan_complete: true };
    let again = StepDraft::from_value(&parse_json(&draft.to_line()).unwrap()).unwrap();
    assert_eq!(again.to_line(), draft.to_line());
}

#[test]
fn an_error_summary_shows_the_plan_that_was_tried() {
    let mut state = RunState::default();
    state.query = "Do it".to_string();
    state.plan = vec![bare()];
    let request = begin_error_summary(&state);
    let ChatMessage::User { content } = &request.messages[0] else { panic!("not the user's") };
    assert!(content.starts_with("# Original task\nDo it\n\n# Plan attempted\n[\n  {\n    \"id\": \"E1\",\n    \"toolName\": \"t__x\","), "{content}");
    assert!(content.contains("\n]\n\n# Errors\n"), "{content}");
}

#[test]
fn the_next_pending_step_is_the_first_without_a_result() {
    let mut state = RunState::default();
    assert!(state.next_pending_step().is_none());
    state.plan = vec![search(), bare()];
    assert_eq!(state.next_pending_step().unwrap().id, "E0");
    state.results.insert("E0".to_string(), Data::Null);
    assert_eq!(state.next_pending_step().unwrap().id, "E1");
    state.results.insert("E1".to_string(), Data::Null);
    assert!(state.next_pending_step().is_none());
}

#[test]
fn a_plan_has_problems_of_its_own_without_a_catalog() {
    let good = plan(r#"{"identifier": "p", "name": "P", "description": "d", "steps": [{"id": "a", "tool_name": "t__x", "input": {}}], "output": {"r": "{{a}}"}}"#);
    assert!(plan_problems(&good, &vec![], None).is_empty());
    let bad = plan(r#"{"identifier": "p", "name": "P", "description": "d", "steps": [{"id": "a", "tool_name": "t__x", "input": {"v": "{{E5.x}}"}}], "output": {"r": "{{a}}"}}"#);
    let problems = plan_problems(&bad, &vec![], None);
    assert_eq!(problems.len(), 1);
    assert!(problems[0].contains("E5"), "{problems:?}");
}

#[test]
fn the_version_is_that_of_the_package() {
    assert_eq!(graph_version(), "0.1.0");
}
