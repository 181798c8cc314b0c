use graph_core::json::{from_serde, to_serde};
use graph_core::pipeline::doc::PlanDoc;
use graph_core::pipeline::engine::{
    after_call, begin_dispatch, choose_move, outcome_of_registry, record_call, DispatchMove, Move,
};
use graph_core::pipeline::run::{
    begin_explicit, conclude_explicit, Conclusion, PipelineError, PipelineOutcome,
};
use graph_core::pipeline::engine::ExecutionEnd;
use graph_core::pipeline::solver::{begin_solve, end_solve};
use graph_core::pipeline::state::RunState;
use graph_core::toolbox::{
    begin_plan_tool, begin_planner_tool, end_plan_tool, end_planner_tool, plan_and_execute_def,
    route_call, toolbox_tools, ToolboxRoute, PLAN_AND_EXECUTE, PLAN_TOOL_PREFIX,
};
use graph_core::tools::{falls_through, Exclusion, ToolDef, ToolError, ToolOutcome};
use graph_core::value::{Data, Fields};
use serde_json::Value;

/// What YAML text holds, as JSON.
fn parse_yaml(text: &str) -> Result<Data, String> {
    serde_yaml::from_str::<serde_json::Value>(text).map(from_serde).map_err(|e| e.to_string())
}

fn json(text: &str) -> Value {
    serde_json::from_str(text).unwrap()
}

fn data(text: &str) -> Data {
    from_serde(json(text))
}

fn def(name: &str) -> ToolDef {
    ToolDef {
        name: name.to_string(),
        description: String::new(),
        input_schema: Data::Object(Fields::new()),
        output_schema: None,
        output_example: None,
        read_only: None,
    }
}

fn doc() -> PlanDoc {
    let yaml = r#"
identifier: demo
name: Demo
description: Echo the team name
input_schema:
  type: object
  required: [team]
  properties:
    team: { type: string }
steps:
  - id: E0
    tool_name: t__echo
    input: { q: "{{input.team}}" }
solver:
  query_to_answer: "What did the echo return?"
  data:
    result: "{{E0}}"
"#;
    PlanDoc::from_value(&parse_yaml(yaml).unwrap()).unwrap()
}

/// Runs a plan whose every tool echoes its input, with a solver that always says
/// "solved".
fn run(query: &str, doc: &PlanDoc, input: Data, invocations: &mut Vec<Value>) -> Result<PipelineOutcome, PipelineError> {
    let finish = doc.finish();
    let mut state = begin_explicit(query, doc.copy().steps, &finish, Some(input), None)?;
    let end = loop {
        match choose_move(&state) {
            Move::Call { index, rendered } => {
                let tool = state.plan[index].tool_name.clone();
                assert!(matches!(
                    begin_dispatch(false, &tool, &rendered).next,
                    DispatchMove::Invoke(_)
                ));
                invocations.push(to_serde(&rendered));
                let outcome = outcome_of_registry(Ok(ToolOutcome { result: rendered, is_error: false }));
                match after_call(false, outcome).next {
                    DispatchMove::Done(result) => assert!(record_call(&mut state, index, result).is_none()),
                    other => panic!("{other:?}"),
                }
            }
            Move::Completed => break ExecutionEnd::Completed,
            other => panic!("{other:?}"),
        }
    };
    match conclude_explicit(state, &finish, end) {
        Conclusion::Solve(state) => {
            let request = begin_solve(&state, "2026-07-09");
            assert!(request.system.contains("2026-07-09"));
            Ok(end_solve(state, Some("solved".to_string())))
        }
        other => panic!("{other:?}"),
    }
}

fn invoke(name: &str, input: &str, invocations: &mut Vec<Value>) -> ToolOutcome {
    let plans = vec![doc()];
    match route_call(name, &plans) {
        ToolboxRoute::Plan(index) => match begin_plan_tool(&plans[index], &data(input)) {
            Err(refused) => refused,
            Ok(query) => {
                assert_eq!(query, "Run the 'Demo' plan");
                let outcome = run(&query, &plans[index], data(input), invocations);
                end_plan_tool(&plans[index].identifier, outcome)
            }
        },
        other => panic!("{other:?}"),
    }
}

#[test]
fn exposes_plan_tools_and_plan_and_execute() {
    let defs = toolbox_tools(vec![def("t__echo")], &vec![doc()]);
    let names: Vec<&str> = defs.iter().map(|d| d.name.as_str()).collect();
    assert!(names.contains(&"t__echo"));
    assert!(names.contains(&"plan__demo"));
    assert!(names.contains(&"plan_and_execute"));
    assert_eq!(names, ["t__echo", "plan__demo", "plan_and_execute"]);
}

#[test]
fn plan_tool_runs_the_pipeline_with_inputs() {
    let mut invocations = Vec::new();
    let outcome = invoke("plan__demo", r#"{"team": "Platform"}"#, &mut invocations);
    assert!(!outcome.is_error);
    assert_eq!(to_serde(&outcome.result)["answer"], "solved");
    assert_eq!(invocations[0], json(r#"{"q": "Platform"}"#), "input root rendered");
}

#[test]
fn missing_required_inputs_error_with_schema() {
    let mut invocations = Vec::new();
    let outcome = invoke("plan__demo", "{}", &mut invocations);
    assert!(outcome.is_error);
    let result = to_serde(&outcome.result);
    assert!(result["problems"][0].as_str().unwrap().contains("team"));
    assert_eq!(result["error"], "invalid or missing plan inputs");
    assert_eq!(result["inputSchema"]["required"], json(r#"["team"]"#));
    assert!(invocations.is_empty(), "no steps ran");
}

#[test]
fn calls_go_to_the_planner_a_plan_or_the_base_tools() {
    let plans = vec![doc()];
    assert_eq!(route_call(PLAN_AND_EXECUTE, &plans), ToolboxRoute::Planner);
    assert_eq!(route_call(&format!("{PLAN_TOOL_PREFIX}demo"), &plans), ToolboxRoute::Plan(0));
    assert_eq!(route_call("plan__nobody", &plans), ToolboxRoute::Base);
    assert_eq!(route_call("t__echo", &plans), ToolboxRoute::Base);
}

#[test]
fn the_planner_needs_a_query() {
    assert_eq!(begin_planner_tool(&data(r#"{"query": "do it"}"#)).unwrap(), "do it");
    for input in ["{}", r#"{"query": 3}"#, "[]"] {
        match begin_planner_tool(&data(input)) {
            Err(ToolError::Transport(message)) => {
                assert_eq!(message, "plan_and_execute requires a 'query' string")
            }
            other => panic!("{other:?}"),
        }
    }
    let schema = to_serde(&plan_and_execute_def().input_schema);
    assert_eq!(schema["required"], json(r#"["query"]"#));
}

#[test]
fn what_the_agent_is_told_of_a_planned_run() {
    let mut state = RunState::default();
    state.results.insert("E0".to_string(), Data::Null);
    let told = end_planner_tool(Ok(PipelineOutcome {
        answer: "done".to_string(),
        structured: None,
        state,
        degraded: true,
        exit: None,
    }));
    assert!(!told.is_error);
    assert_eq!(
        to_serde(&told.result),
        json(r#"{"answer": "done", "degraded": true, "steps_executed": 1}"#)
    );
    let told = end_planner_tool(Err(PipelineError::InvalidPlan("x".to_string())));
    assert!(told.is_error);
    assert_eq!(to_serde(&told.result), json(r#"{"error": "invalid plan: x"}"#));
}

#[test]
fn what_the_agent_is_told_of_a_failed_plan() {
    let told = end_plan_tool(
        "demo",
        Err(PipelineError::StepFailed {
            step: "E0".to_string(),
            tool: "t__echo".to_string(),
            message: "boom".to_string(),
        }),
    );
    assert!(told.is_error);
    assert_eq!(
        to_serde(&told.result)["error"],
        "plan 'demo' failed at step E0 (t__echo): boom"
    );
}

#[test]
fn excluding_registry_hides_and_refuses() {
    let defs = vec![def("a"), def("plan_and_execute")];
    let hiding = Exclusion::new(vec!["plan_and_execute".to_string()]);

    let names: Vec<String> = hiding.visible(&defs).into_iter().map(|d| d.name).collect();
    assert_eq!(names, vec!["a".to_string()]);

    let err = hiding.refusal("plan_and_execute").unwrap();
    assert!(matches!(err, ToolError::Unknown(name) if name == "plan_and_execute"));

    assert!(hiding.refusal("a").is_none());
}

#[test]
fn only_an_unknown_tool_falls_through_to_the_next_registry() {
    assert!(falls_through(&Err(ToolError::Unknown("x".to_string()))));
    assert!(!falls_through(&Err(ToolError::Transport("down".to_string()))));
    assert!(!falls_through(&Ok(ToolOutcome { result: Data::Null, is_error: true })));
}
