//! One instance of each law, on values that can be read off.

use graph_core::agent::{after_calls, after_response, begin_round, begin_turn, TurnNext};
use graph_core::chat::{ChatMessage, ChatResponse, StopReason, ToolCall, Usage};
use graph_core::json::{compact, from_serde, parse_json};
use graph_core::pipeline::authoring::{to_json, validate_plan};
use graph_core::pipeline::body::parse_branch;
use graph_core::pipeline::calls::{begin_plan_call, depth_guard, end_plan_call, enter, PlanStart};
use graph_core::pipeline::decision::{choose_branch, DecideNext};
use graph_core::pipeline::doc::{load_doc, tool_safe, DocError, Finish, PlanDoc};
use graph_core::pipeline::engine::{
    after_gate, begin_dispatch, choose_move, record_call, record_control, CallOutcome,
    DispatchError, DispatchMove, ExecutionEnd, Move,
};
use graph_core::pipeline::exit::{evaluate, ExitEval, ExitStatus, ExitStep, PlanExit};
use graph_core::pipeline::filter::settle_filter;
use graph_core::pipeline::gate::GateDecision;
use graph_core::pipeline::iterate::{
    begin_map, begin_reduce, fold_item, next_in_fold, scope_of_item, settle_map, FoldNext,
};
use graph_core::pipeline::naming::identifier_from;
use graph_core::pipeline::outline::{OutlineItem, PlanOutline, StepDraft};
use graph_core::pipeline::plan::{PlannerOutput, SolverData, Step};
use graph_core::pipeline::run::{
    adopt_plan, begin_attempt, begin_explicit, conclude_explicit, conclude_planned, Conclusion,
    PipelineError,
};
use graph_core::pipeline::run_body::{begin_body, next_in_body, after_body_call, end_body, BodyError, BodyFail, BodyMove, BodyRun, BodyStep, StepFail};
use graph_core::pipeline::solver::{budget_payload, shrink};
use graph_core::pipeline::state::RunState;
use graph_core::shapes::truncate_example;
use graph_core::template::{
    referenced_paths, referenced_roots, render_input, render_str, render_value, rewrite_root,
    RenderError, Roots,
};
use graph_core::tools::ToolOutcome;
use graph_core::value::{obj2, Data, Fields};

/// What YAML text holds, as JSON.
fn parse_yaml(text: &str) -> Result<Data, String> {
    serde_yaml::from_str::<serde_json::Value>(text).map(from_serde).map_err(|e| e.to_string())
}

/// Takes in a plan file, read as JSON.
fn read_doc(path: &str, raw: &str) -> Result<PlanDoc, DocError> {
    load_doc(path, parse_yaml(raw).and_then(|v| PlanDoc::from_value(&v)))
}

fn data(text: &str) -> Data {
    parse_json(text).unwrap()
}

fn fields(text: &str) -> Fields {
    match data(text) {
        Data::Object(fields) => fields,
        _ => panic!("not an object"),
    }
}

fn step(id: &str, tool: &str, input: &str) -> Step {
    Step {
        id: id.to_string(),
        tool_name: tool.to_string(),
        input: fields(input),
        reasoning: None,
    }
}

fn state(plan: Vec<Step>) -> RunState {
    let mut state = RunState::default();
    state.plan = plan;
    state
}

fn body(result: &str) -> BodyRun {
    BodyRun { result: data(result), steps_executed: 1, bus: vec![] }
}

fn body_error(message: &str) -> BodyError {
    BodyError { fail: BodyFail::Tool(message.to_string()), steps_executed: 1, bus: vec![] }
}

// ── Values ───────────────────────────────────────────────────────────────

#[test]
fn a_key_that_was_set_reads_back_and_one_that_was_removed_is_gone() {
    let mut map = fields(r#"{"b": 1, "d": 2}"#);
    map.insert("c".to_string(), data("3"));
    map.insert("b".to_string(), data("4"));
    assert_eq!(compact(&Data::Object(map.copy())), r#"{"b":4,"c":3,"d":2}"#);
    map.remove("c");
    map.remove("nope");
    assert!(map.get("c").is_none());
    assert_eq!(compact(&Data::Object(map)), r#"{"b":4,"d":2}"#);
}

#[test]
fn an_object_holds_the_pairs_it_is_made_of() {
    let made = obj2("z", data("1"), "a", data("2"));
    assert_eq!(compact(&made), r#"{"a":2,"z":1}"#);
    assert_eq!(compact(made.get("z").unwrap()), "1");
    assert!(made.get("b").is_none());
}

// ── Templates ────────────────────────────────────────────────────────────

#[test]
fn text_without_tags_stays_as_it_is() {
    let none = Fields::new();
    let roots = Roots::new(&none);
    for text in ["", "plain", "a } b { c }}", "{ {E0}}"] {
        assert_eq!(render_str(text, &roots).unwrap(), text);
        assert_eq!(render_value(text, &roots).unwrap(), Data::text(text));
        assert!(referenced_roots(text).unwrap().is_empty());
        assert!(referenced_paths(text).unwrap().is_empty());
        assert_eq!(rewrite_root(text, "E0", "E1"), text);
    }
}

#[test]
fn a_step_that_is_missing_was_referred_to() {
    let none = Fields::new();
    let roots = Roots::new(&none);
    match render_str("{{E0.a}} {{E1}}", &roots) {
        Err(RenderError::MissingStep { step, .. }) => {
            assert_eq!(step, "E0");
            assert!(referenced_roots("{{E0.a}} {{E1}}").unwrap().contains(&step));
        }
        other => panic!("{other:?}"),
    }
    match render_value("{{ E7.x.y }}", &roots) {
        Err(RenderError::MissingStep { step, .. }) => assert_eq!(step, "E7"),
        other => panic!("{other:?}"),
    }
    // Bare names inside a section read the item, unless there is none.
    let flag = fields(r#"{"E0": {"on": true}}"#);
    match render_str("{{#E0.on}}{{name}}{{/E0.on}}", &Roots::new(&flag)) {
        Err(RenderError::MissingStep { step, .. }) => assert_eq!(step, "name"),
        other => panic!("{other:?}"),
    }
}

#[test]
fn data_that_runs_out_is_no_bad_path() {
    let map = fields(r#"{"E0": {"rows": [[]], "gone": null}}"#);
    let roots = Roots::new(&map);
    for path in ["{{E0.rows.0.0}}", "{{E0.rows.3.name}}", "{{E0.gone.name}}", "{{E0.gone.1}}"] {
        assert!(matches!(render_str(path, &roots), Err(RenderError::EmptyData { .. })), "{path}");
    }
    for path in ["{{E0.rows.name}}", "{{E0.gone.length}}", "{{E0.nope}}"] {
        assert!(matches!(render_str(path, &roots), Err(RenderError::BadPath { .. })), "{path}");
    }
}

#[test]
fn renaming_a_root_keeps_every_reference() {
    let before = "{{E0.a}} {{# E0.rows }}{{E0}}{{x}}{{E0.b}}{{/E0.rows}}{{^E0}}no{{/E0}} {{E1}}";
    let after = rewrite_root(before, "E0", "issues");
    assert_eq!(
        after,
        "{{issues.a}} {{#issues.rows}}{{E0}}{{x}}{{issues.b}}{{/issues.rows}}{{^issues}}no{{/issues}} {{E1}}"
    );
    assert_eq!(referenced_roots(before).unwrap(), ["E0", "E1"]);
    assert_eq!(referenced_roots(&after).unwrap(), ["issues", "E1"]);
    let new = fields(r#"{"issues": {"a": 1, "rows": [{"x": 2, "E0": 3}], "b": 4}, "E1": 5}"#);
    assert_eq!(render_str(&after, &Roots::new(&new)).unwrap(), "1 324 5");
}

// ── Plans ────────────────────────────────────────────────────────────────

#[test]
fn a_valid_plan_finds_its_numbered_steps() {
    let plan = vec![
        step("E0", "t__a", "{}"),
        step("E1", "t__b", r#"{"x": ["{{E0.v}}", {"y": "{{input.q}}"}]}"#),
    ];
    validate_plan(&plan).unwrap();
    let map = fields(r#"{"input": {"q": 1}, "E0": {"v": 2}}"#);
    let rendered = render_input(&Data::Object(plan[1].input.copy()), &Roots::new(&map)).unwrap();
    assert_eq!(compact(&rendered), r#"{"x":[2,{"y":1}]}"#);
    let early = vec![step("E0", "t__a", r#"{"x": "{{E1}}"}"#), step("E1", "t__b", "{}")];
    assert_eq!(
        validate_plan(&early).unwrap_err(),
        ["step E0 references E1, which is not an earlier step"]
    );
}

#[test]
fn a_valid_plan_has_no_id_twice() {
    let twice = vec![step("E0", "t__a", "{}"), step("E0", "t__b", "{}")];
    assert_eq!(validate_plan(&twice).unwrap_err(), ["duplicate step id 'E0'"]);
    let reserved = vec![step("input", "t__a", "{}")];
    assert_eq!(validate_plan(&reserved).unwrap_err().len(), 2);
}

#[test]
fn what_the_planner_writes_reads_back() {
    let mut first = step("E0", "t__a", r#"{"q": ["{{input.x}}", 2.5]}"#);
    first.reasoning = Some("because".to_string());
    let output = PlannerOutput {
        plan: vec![first, step("E1", "t__b", "{}")],
        solver_data: SolverData {
            query_to_answer: "why".to_string(),
            system_prompt: None,
            data: fields(r#"{"a": "{{E1}}"}"#),
        },
    };
    let value = output.to_value();
    assert!(PlannerOutput::from_value(&value).unwrap() == output);
    assert!(Step::from_value(&output.plan[0].to_value()).unwrap() == output.plan[0]);

    let outline = PlanOutline {
        items: vec![
            OutlineItem { summary: "look".to_string(), expected_tool: Some("t__a".to_string()) },
            OutlineItem { summary: "tell".to_string(), expected_tool: None },
        ],
        query_to_answer: "why".to_string(),
        system_prompt: Some("be brief".to_string()),
    };
    assert!(PlanOutline::from_value(&outline.to_value()).unwrap() == outline);

    let draft = StepDraft { step: Some(step("E0", "t__a", "{}")), plan_complete: true };
    assert!(StepDraft::from_value(&draft.to_value()).unwrap() == draft);
    let done = StepDraft { step: None, plan_complete: true };
    assert!(StepDraft::from_value(&done.to_value()).unwrap() == done);
}

fn full_doc() -> PlanDoc {
    PlanDoc {
        identifier: "report".to_string(),
        name: "Report".to_string(),
        description: "a report".to_string(),
        exemplars: vec!["report on x".to_string()],
        requires_servers: vec!["linear".to_string()],
        input_schema: Some(data(r#"{"type": "object"}"#)),
        steps: vec![
            step("E0", "t__a", r#"{"camelKey": {"toolName": 1}}"#),
            step("E1", "agent", r#"{"prompt": "go", "outputSchema": {"camelKey": 1}, "maxIterations": 2}"#),
            step("E2", "map", r#"{"over": "{{E0}}", "do": {"toolName": "t__b", "input": {"aB": 1}, "reasoning": null}}"#),
        ],
        solver: Some(SolverData {
            query_to_answer: "what".to_string(),
            system_prompt: Some("brief".to_string()),
            data: fields(r#"{"x": "{{E1}}"}"#),
        }),
        output: None,
        path: Some("plans/report.yaml".to_string()),
    }
}

#[test]
fn a_written_document_reads_back_in_the_files_spelling() {
    let doc = full_doc();
    let again = PlanDoc::from_value(&to_json(&doc).unwrap()).unwrap();
    let mut expected = full_doc();
    expected.path = None;
    expected.steps[1].input =
        fields(r#"{"prompt": "go", "output_schema": {"camelKey": 1}, "max_iterations": 2}"#);
    expected.steps[2].input =
        fields(r#"{"over": "{{E0}}", "do": {"tool_name": "t__b", "input": {"aB": 1}}}"#);
    assert!(again == expected, "{again:?}");
    // What was read is written as it was.
    assert_eq!(compact(&to_json(&again).unwrap()), compact(&to_json(&doc).unwrap()));
}

#[test]
fn a_null_schema_is_no_schema_once_written() {
    let mut doc = full_doc();
    doc.input_schema = Some(Data::Null);
    let again = PlanDoc::from_value(&to_json(&doc).unwrap()).unwrap();
    assert!(again.input_schema.is_none());
}

#[test]
fn every_goal_names_a_tool() {
    for goal in ["", "Ünïcode — ¿qué?", "!!!", "Find the 10 oldest issues and close them all at once please now"] {
        assert!(tool_safe(&identifier_from(goal)), "{goal}");
    }
}

// ── Running ──────────────────────────────────────────────────────────────

#[test]
fn a_finished_step_is_not_run_again_and_work_gets_less() {
    let mut run = state(vec![step("E0", "t__a", "{}"), step("E1", "map", r#"{"over": [], "do": {"toolName": "t__b", "input": {}}}"#)]);
    match choose_move(&run) {
        Move::Call { index, .. } => assert_eq!(index, 0),
        other => panic!("{other:?}"),
    }
    assert!(record_call(&mut run, 0, Ok(data("1"))).is_none());
    match choose_move(&run) {
        Move::Control { index } => assert_eq!(index, 1),
        other => panic!("{other:?}"),
    }
    assert!(record_control(&mut run, 1, Ok(data("[]"))).is_none());
    assert!(matches!(choose_move(&run), Move::Completed));
    assert_eq!(run.steps_executed(), 2);
}

#[test]
fn a_gated_call_waits_for_its_gate() {
    assert!(matches!(begin_dispatch(true, "t__a", &data("{}")).next, DispatchMove::ConsultGate));
    assert!(matches!(begin_dispatch(false, "t__a", &data("{}")).next, DispatchMove::Invoke(_)));
    let skipped = after_gate(GateDecision::Skip { result: data("7") }, "t__a", &data("{}"));
    match skipped.next {
        DispatchMove::Done(Ok(result)) => assert_eq!(compact(&result), "7"),
        other => panic!("{other:?}"),
    }
    let aborted = after_gate(GateDecision::Abort, "t__a", &data("{}"));
    assert!(matches!(aborted.next, DispatchMove::Done(Err(DispatchError::Aborted { .. }))));
}

#[test]
fn an_exits_condition_is_readable_or_the_step_fails() {
    match evaluate("E0", &data(r#"{"status": "success", "when": {"value": 1, "op": "eq", "to": 1}, "message": "done"}"#)) {
        ExitStep::Settled(Ok(ExitEval::Exited(exit))) => assert_eq!(exit.message, "done"),
        other => panic!("{other:?}"),
    }
    match evaluate("E0", &data(r#"{"status": "success", "when": {"value": 1, "op": "near", "to": 1}}"#)) {
        ExitStep::Settled(Err(message)) => assert!(message.contains("unknown variant `near`"), "{message}"),
        other => panic!("{other:?}"),
    }
}

#[test]
fn the_branch_that_is_not_taken_is_not_looked_at() {
    let good = data(r#"{"toolName": "t__a", "input": {}}"#);
    let broken = data("5");
    match choose_branch("E0", &good, &Some(broken.copy()), Ok((true, None))) {
        DecideNext::Run { name, verdict, .. } => {
            assert_eq!(name, "then");
            assert!(verdict);
        }
        other => panic!("{other:?}"),
    }
    assert!(matches!(
        choose_branch("E0", &good, &Some(broken), Ok((false, None))),
        DecideNext::End(ExecutionEnd::Failed { .. })
    ));
    assert!(matches!(
        choose_branch("E0", &good, &None, Ok((false, None))),
        DecideNext::Through { .. }
    ));
}

#[test]
fn a_filter_loses_nothing_and_keeps_the_order() {
    let items = vec![data("1"), data("2"), data("3"), data("4")];
    let verdicts = vec![Some(Ok(true)), Some(Ok(false)), Some(Ok(true)), Some(Ok(false))];
    let parted = settle_filter(items, verdicts).unwrap();
    assert_eq!(compact(&Data::List(parted.kept)), "[1,3]");
    assert_eq!(compact(&Data::List(parted.dropped)), "[2,4]");
    let failed = settle_filter(
        vec![data("1"), data("2"), data("3")],
        vec![Some(Ok(true)), Some(Err(StepFail::Failed("second".to_string()))), Some(Err(StepFail::Failed("third".to_string())))],
    );
    match failed {
        Err(StepFail::Failed(message)) => assert_eq!(message, "second"),
        other => panic!("{other:?}"),
    }
}

#[test]
fn a_map_keeps_its_order_and_reports_its_first_failure() {
    let mut run = state(vec![]);
    let done = settle_map(&mut run, "E0", vec![Some(Ok(body("1"))), Some(Ok(body("2")))]).unwrap();
    assert_eq!(compact(&done), r#"{"count":2,"results":[1,2]}"#);
    assert_eq!(run.branch_steps_executed, 2);
    let mut run = state(vec![]);
    let failed = settle_map(
        &mut run,
        "E0",
        vec![Some(Ok(body("1"))), Some(Err(body_error("low"))), None, Some(Err(body_error("high")))],
    );
    match failed {
        Err(ExecutionEnd::Failed { step, tool, message }) => {
            assert_eq!((step.as_str(), tool.as_str()), ("E0", "map"));
            assert!(message.contains("low"), "{message}");
        }
        other => panic!("{other:?}"),
    }
}

#[test]
fn a_map_adds_only_what_its_bodies_did() {
    let mut run = state(vec![]);
    run.results = fields(r#"{"E0": [1]}"#);
    run.branch_steps_executed = 3;
    let before = run.results.copy();
    settle_map(&mut run, "E1", vec![Some(Ok(body("1"))), None, Some(Ok(body("2")))]).unwrap();
    assert_eq!(run.results, before);
    assert_eq!(run.branch_steps_executed, 5);
    assert_eq!(run.bus.len(), 1);
    assert_eq!(run.bus[0].content, "map: 2 items");
}

#[test]
fn the_concurrency_of_a_map_decides_neither_its_items_nor_their_body() {
    let begin = |n: usize| {
        let input = format!(
            r#"{{"over": "{{{{E0}}}}", "do": {{"toolName": "t__a", "input": {{}}}}, "concurrency": {n}}}"#
        );
        begin_map("E1", &fields(&input), &fields(r#"{"E0": [7, 8]}"#)).unwrap()
    };
    let (one, many) = (begin(0), begin(4));
    assert_eq!((one.concurrency, many.concurrency), (1, 4));
    assert!(one.items == many.items && one.items == [data("7"), data("8")]);
    assert_eq!(format!("{:?}", one.branch), format!("{:?}", many.branch));
}

#[test]
fn an_item_of_a_map_sees_only_itself() {
    let base = fields(r#"{"E0": [7, 8], "item": "outer"}"#);
    let scope = scope_of_item(&base, &data("8"), 1);
    assert_eq!(compact(&Data::Object(scope)), r#"{"E0":[7,8],"index":1,"item":8}"#);
}

#[test]
fn a_fold_threads_its_accumulator() {
    let mut run = state(vec![]);
    let input = fields(r#"{"over": [1, 2], "initial": 10, "do": {"toolName": "t__a", "input": {"acc": "{{accumulator}}", "item": "{{item}}"}}}"#);
    let mut work = begin_reduce("E0", &input, &run.results).unwrap();
    let mut seen = vec![];
    loop {
        match next_in_fold(&work, &run.results) {
            FoldNext::Item { scope, .. } => {
                seen.push(format!("{}/{}", compact(scope.get("accumulator").unwrap()), compact(scope.get("item").unwrap())));
                let next = format!("{}", 100 + seen.len());
                work = fold_item(&mut run, "E0", work, Ok(body(&next))).unwrap();
            }
            FoldNext::Done => break,
            other => panic!("{other:?}"),
        }
    }
    assert_eq!(seen, ["10/1", "101/2"]);
    assert_eq!(compact(&work.accumulator), "102");
}

#[test]
fn a_bodys_steps_see_each_other_and_nobody_else_does() {
    let branch = parse_branch("do", &data(r#"[{"id": "a", "toolName": "t__a", "input": {}}, {"id": "b", "toolName": "t__b", "input": {"x": "{{a.v}}"}}]"#)).unwrap();
    let outer = fields(r#"{"E0": 1}"#);
    let mut work = begin_body("E1", "do", "body", branch, outer.copy());
    assert!(matches!(next_in_body(&work), BodyMove::Call { .. }));
    work = match after_body_call(work, Ok(data(r#"{"v": 5}"#))) {
        BodyStep::On(next) => next,
        BodyStep::Over(error) => panic!("{error:?}"),
    };
    match next_in_body(&work) {
        BodyMove::Call { tool, rendered, .. } => {
            assert_eq!(tool, "t__b");
            assert_eq!(compact(&rendered), r#"{"x":5}"#);
        }
        other => panic!("{other:?}"),
    }
    work = match after_body_call(work, Ok(data("6"))) {
        BodyStep::On(next) => next,
        BodyStep::Over(error) => panic!("{error:?}"),
    };
    assert!(matches!(next_in_body(&work), BodyMove::Done));
    let run = end_body(work, None).unwrap();
    assert_eq!(compact(&run.result), "6");
    assert_eq!(run.steps_executed, 2);
    assert_eq!(compact(&Data::Object(outer)), r#"{"E0":1}"#);
}

#[test]
fn an_exit_answers_the_run_and_a_silent_plan_asks_nobody() {
    let exit = || PlanExit {
        step: "E0".to_string(),
        status: ExitStatus::Success,
        message: "enough".to_string(),
        reason: None,
        output: None,
    };
    match conclude_planned(state(vec![]), ExecutionEnd::Exited(exit()), 3) {
        Conclusion::Done(outcome) => {
            assert_eq!(outcome.answer, "enough");
            assert!(!outcome.degraded);
        }
        other => panic!("{other:?}"),
    }
    let solve = Finish::Solve(SolverData::default());
    assert!(matches!(
        conclude_explicit(state(vec![]), &solve, ExecutionEnd::Exited(exit())),
        Conclusion::Done(_)
    ));
    match conclude_explicit(state(vec![]), &Finish::Silent, ExecutionEnd::Completed) {
        Conclusion::Done(outcome) => assert_eq!(outcome.answer, ""),
        other => panic!("{other:?}"),
    }
}

#[test]
fn attempts_run_out_and_aborts_do_not_replan() {
    let failed = || ExecutionEnd::Failed {
        step: "E0".to_string(),
        tool: "t__a".to_string(),
        message: "boom".to_string(),
    };
    let mut run = state(vec![]);
    assert!(!begin_attempt(&mut run));
    match conclude_planned(run, failed(), 2) {
        Conclusion::Replan(mut next) => {
            begin_attempt(&mut next);
            assert_eq!(next.plan_attempts, 2);
            assert!(matches!(conclude_planned(next, failed(), 2), Conclusion::Summarize(_)));
        }
        other => panic!("{other:?}"),
    }
    let aborted = ExecutionEnd::Aborted { step: "E0".to_string(), error: None };
    assert!(matches!(
        conclude_planned(state(vec![]), aborted, 9),
        Conclusion::Fail(PipelineError::Aborted { .. })
    ));
    let empty = ExecutionEnd::Empty { step: "E0".to_string(), message: "none".to_string() };
    assert!(matches!(conclude_planned(state(vec![]), empty, 9), Conclusion::Solve(_)));
    assert!(matches!(
        conclude_explicit(state(vec![]), &Finish::Silent, failed()),
        Conclusion::Fail(PipelineError::StepFailed { .. })
    ));
}

#[test]
fn what_ran_survives_a_new_plan() {
    let mut run = state(vec![step("E0", "t__a", "{}"), step("E1", "t__b", "{}")]);
    record_call(&mut run, 0, Ok(data("1")));
    adopt_plan(
        &mut run,
        PlannerOutput {
            plan: vec![step("E0", "t__other", "{}"), step("E2", "t__c", "{}")],
            solver_data: SolverData::default(),
        },
    );
    let ids: Vec<&str> = run.plan.iter().map(|s| s.id.as_str()).collect();
    assert_eq!(ids, ["E0", "E2"]);
    assert_eq!(run.plan[0].tool_name, "t__a");
    assert_eq!(compact(run.results.get("E0").unwrap()), "1");
}

// ── Calls ────────────────────────────────────────────────────────────────

#[test]
fn chains_of_calls_are_bounded_and_acyclic() {
    let mut stack: Vec<String> = vec![];
    for depth in 0..8 {
        assert!(depth_guard(&stack, &format!("p{depth}")).is_none());
        stack = enter(&stack, &format!("p{depth}"));
    }
    let refused = depth_guard(&stack, "p8").unwrap();
    assert!(refused.is_error);
    assert!(compact(&refused.result).contains("depth"), "{refused:?}");
    let cycle = depth_guard(&stack[..2].to_vec(), "p1").unwrap();
    assert!(compact(&cycle.result).contains("p1"), "{cycle:?}");
}

#[test]
fn a_called_plan_gets_what_its_schema_asks_for() {
    let doc = read_doc(
        "p.yaml",
        "identifier: p\nname: P\ndescription: d\ninput_schema:\n  type: object\n  required: [team]\n  properties:\n    team: {type: string}\n    limit: {type: integer, default: 5}\nsteps:\n- id: E0\n  tool_name: t__x\n  input: {}\n",
    )
    .unwrap();
    let plans = vec![doc];
    match begin_plan_call(&plans, &vec![], "p", data(r#"{"team": "a"}"#)) {
        PlanStart::Run { index, input, .. } => {
            assert_eq!(index, 0);
            assert_eq!(compact(&input), r#"{"limit":5,"team":"a"}"#);
        }
        other => panic!("{other:?}"),
    }
    match begin_plan_call(&plans, &vec![], "p", data(r#"{"team": 1}"#)) {
        PlanStart::Refused(CallOutcome { is_error: true, aborted: false, .. }) => {}
        other => panic!("{other:?}"),
    }
    match begin_plan_call(&plans, &vec![], "q", data("{}")) {
        PlanStart::Refused(call) => assert!(compact(&call.result).contains("q"), "{call:?}"),
        other => panic!("{other:?}"),
    }
}

#[test]
fn only_an_abort_is_passed_on_as_one() {
    let aborted = end_plan_call(
        "p",
        Err(PipelineError::Aborted {
            step: "E0".to_string(),
            error: Some(data("1")),
            state: Box::new(state(vec![])),
        }),
    );
    assert!(aborted.aborted);
    let failed = end_plan_call("p", Err(PipelineError::InvalidPlan("no".to_string())));
    assert!(failed.is_error && !failed.aborted);
    let plan = vec![step("E0", "t__a", "{}")];
    let mut run = begin_explicit("q", plan, &Finish::Silent, None, None).unwrap();
    record_call(&mut run, 0, Ok(data("1")));
    let done = match conclude_explicit(run, &Finish::Silent, ExecutionEnd::Completed) {
        Conclusion::Done(outcome) => end_plan_call("p", Ok(outcome)),
        other => panic!("{other:?}"),
    };
    assert!(!done.is_error && !done.aborted);
}

// ── Sizes ────────────────────────────────────────────────────────────────

#[test]
fn a_payload_is_cut_only_when_it_is_too_big() {
    let small = fields(r#"{"a": "x", "b": [1, 2]}"#);
    assert!(budget_payload(small.copy()) == small);
    let mut big = Fields::new();
    big.insert("text".to_string(), Data::text(&"y".repeat(400_001)));
    let items: Vec<Data> = (0..30).map(|_| data("1")).collect();
    big.insert("list".to_string(), Data::List(items));
    let cut = budget_payload(big);
    assert_eq!(cut.keys(), ["list", "text"]);
    match (cut.get("text"), cut.get("list")) {
        (Some(Data::Text(text)), Some(Data::List(items))) => {
            assert_eq!(text.chars().count(), 501);
            assert!(text.ends_with('…'));
            assert!(items.len() <= 26, "{}", items.len());
        }
        other => panic!("{other:?}"),
    }
}

#[test]
fn what_was_cut_is_short() {
    let cut = shrink(&data(r#"{"a": ["abcdef", [1, 2, 3]]}"#), 3, 2);
    let text = compact(&cut);
    assert!(text.contains("abc…"), "{text}");
    assert!(!text.contains("abcd"), "{text}");
}

#[test]
fn an_example_is_small_and_stays_as_it_is() {
    let long = format!(r#"{{"s": "{}", "l": [1, 2, 3, 4], "d": {{"x": {{"y": 1}}}}}}"#, "z".repeat(300));
    let once = truncate_example(&data(&long));
    let twice = truncate_example(&once);
    assert_eq!(compact(&once), compact(&twice));
    match once.get("s") {
        Some(Data::Text(s)) => assert!(s.chars().count() <= 121),
        other => panic!("{other:?}"),
    }
}

// ── Turns ────────────────────────────────────────────────────────────────

#[test]
fn a_turn_only_adds_to_the_history_and_names_each_tool_once() {
    let call = |id: &str| ToolCall {
        id: id.to_string(),
        name: "t__a".to_string(),
        arguments: data("{}"),
    };
    let mut turn = begin_turn(vec![ChatMessage::User { content: "hi".to_string() }], 3);
    begin_round(&mut turn, "m", "s", &vec![]).unwrap();
    let response = ChatResponse {
        content: None,
        tool_calls: vec![call("1"), call("2")],
        structured: None,
        stop_reason: StopReason::ToolUse,
        usage: Usage { input_tokens: 1, output_tokens: 2 },
    };
    let calls = match after_response(&mut turn, response) {
        TurnNext::Call(calls) => calls,
        other => panic!("{other:?}"),
    };
    let answer = || Ok(ToolOutcome { result: data("1"), is_error: false });
    after_calls(&mut turn, &calls, vec![answer(), answer()]);
    assert_eq!(turn.messages.len(), 4);
    assert!(turn.messages[0] == ChatMessage::User { content: "hi".to_string() });
    assert_eq!(turn.tools_used, ["t__a"]);
    assert_eq!(turn.tool_calls_made, 2);
}
