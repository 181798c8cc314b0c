use graph_core::json::from_serde;
use graph_core::pipeline::body::{check_body_tool, parse_branch};
use graph_core::pipeline::condition::{eval_condition, Condition, Op};
use graph_core::pipeline::decision::{validate_decide_input, DecideSpec};
use graph_core::pipeline::filter::validate_filter_input;
use graph_core::pipeline::iterate::{validate_map_input, validate_reduce_input};
use graph_core::value::{Data, Fields};
use serde_json::Value;

fn json(text: &str) -> Value {
    serde_json::from_str(text).unwrap()
}

fn data(v: &Value) -> Data {
    from_serde(v.clone())
}

fn fields(v: Value) -> Fields {
    match from_serde(v) {
        Data::Object(fields) => fields,
        _ => Fields::new(),
    }
}

fn cond(value: Value, op: Op, to: Value) -> Condition {
    Condition { value: data(&value), op, to: data(&to) }
}

#[test]
fn conditions_evaluate() {
    assert!(eval_condition(&cond(json(r##"0"##), Op::Eq, json(r##"0"##))).unwrap());
    assert!(eval_condition(&cond(json(r##"3"##), Op::Gt, json(r##"2"##))).unwrap());
    assert!(!eval_condition(&cond(json(r##"1"##), Op::Gte, json(r##"2"##))).unwrap());
    assert!(eval_condition(&cond(json(r##"[]"##), Op::Empty, Value::Null)).unwrap());
    assert!(eval_condition(&cond(json(r##"["a"]"##), Op::NotEmpty, Value::Null)).unwrap());
    assert!(eval_condition(&cond(json(r##""hello world""##), Op::Contains, json(r##""world""##))).unwrap());
    assert!(eval_condition(&cond(json(r##"[1, 2]"##), Op::Contains, json(r##"2"##))).unwrap());
    assert!(eval_condition(&cond(json(r##""a""##), Op::Gt, json(r##""b""##))).is_err());
    // typed splice means numbers arrive as numbers; strings compare as strings
    assert!(eval_condition(&cond(json(r##""open""##), Op::Eq, json(r##""open""##))).unwrap());
}

#[test]
fn spec_rejects_unknown_fields() {
    let err = DecideSpec::from_input(&fields(json(r##"{"then": {"toolName": "t__x", "input": {}}, "otherwise": {"toolName": "t__y", "input": {}}}"##))).unwrap_err();
    assert!(err.contains("otherwise"), "{err}");
}

#[test]
fn validation_catches_gate_arity_and_nested_control() {
    let input = fields(json(r##"{"then": {"toolName": "map", "input": {}}}"##));
    let mut problems = Vec::new();
    validate_decide_input(&input, &["input"], &["E0"], "E0", &mut problems);
    assert!(problems.iter().any(|p| p.contains("`if` or `infer`")));
    assert!(problems.iter().any(|p| p.contains("cannot nest")));
}

#[test]
fn branches_may_contain_exit() {
    let input = fields(json(r##"{"if": {"value": "{{input.n}}", "op": "gt", "to": 0}, "then": {"toolName": "exit", "input": {"status": "success", "message": "done"}}, "else": [{"id": "bail", "toolName": "exit", "input": {"status": "error", "message": "no"}}]}"##));
    let mut problems = Vec::new();
    validate_decide_input(&input, &["input"], &["E0"], "E0", &mut problems);
    assert!(problems.is_empty(), "{problems:?}");
}

fn problems_for_map(input: Value) -> Vec<String> {
    let input = fields(input);
    let mut problems = Vec::new();
    validate_map_input(&input, &["input", "E0"], &["E0", "E1"], "E1", &mut problems);
    problems
}

#[test]
fn map_spec_rejects_unknown_fields_and_zero_concurrency() {
    let problems = problems_for_map(json(r##"{"over": "{{E0.values}}", "do": {"toolName": "t__x", "input": {}}, "parallel": 4}"##));
    assert!(problems[0].contains("parallel"), "{problems:?}");

    let problems = problems_for_map(json(r##"{"over": "{{E0.values}}", "do": {"toolName": "t__x", "input": {}}, "concurrency": 0}"##));
    assert!(
        problems.iter().any(|p| p.contains("at least 1")),
        "{problems:?}"
    );
}

#[test]
fn pseudo_roots_are_scoped_to_the_body() {
    let problems = problems_for_map(json(r##"{"over": "{{item.children}}", "do": {"toolName": "t__x", "input": {"q": "{{item.id}}"}}}"##));
    assert!(
        problems
            .iter()
            .any(|p| p.contains("only available inside `do`")),
        "{problems:?}"
    );

    let problems = problems_for_map(json(r##"{"over": "{{E0.values}}", "do": {"toolName": "t__x", "input": {"q": "{{accumulator}}"}}}"##));
    assert!(
        problems.iter().any(|p| p.contains("reduce body")),
        "{problems:?}"
    );

    // The legitimate pseudo-roots pass.
    let problems = problems_for_map(json(r##"{"over": "{{E0.values}}", "do": {"toolName": "t__x", "input": {"q": "{{item.id}}", "n": "{{index}}"}}}"##));
    assert!(problems.is_empty(), "{problems:?}");
}

#[test]
fn reduce_validation_allows_accumulator_in_body_only() {
    let input = fields(json(r##"{"over": "{{E0.values}}", "initial": "{{accumulator}}", "do": {"toolName": "t__x", "input": {"a": "{{accumulator}}", "b": "{{item}}"}}}"##));
    let mut problems = Vec::new();
    validate_reduce_input(&input, &["input", "E0"], &["E0", "E1"], "E1", &mut problems);
    assert_eq!(problems.len(), 1, "{problems:?}");
    assert!(
        problems[0].contains("only available inside `do`"),
        "{problems:?}"
    );
}

fn problems_for_filter(input: Value) -> Vec<String> {
    let input = fields(input);
    let mut problems = Vec::new();
    validate_filter_input(&input, &["input", "E0"], "E1", &mut problems);
    problems
}

#[test]
fn spec_rejects_unknown_fields_and_bad_arity() {
    let problems = problems_for_filter(json(r##"{"over": "{{E0.values}}", "when": {"value": "{{item}}", "op": "eq", "to": 1}}"##));
    assert!(problems[0].contains("when"), "{problems:?}");

    let problems = problems_for_filter(json(r##"{"over": "{{E0.values}}"}"##));
    assert!(
        problems.iter().any(|p| p.contains("`where` or `infer`")),
        "{problems:?}"
    );

    let problems = problems_for_filter(json(r##"{"over": "{{E0.values}}", "where": {"value": "{{item}}", "op": "not_empty"}, "infer": "is {{item}} relevant?"}"##));
    assert!(
        problems.iter().any(|p| p.contains("mutually exclusive")),
        "{problems:?}"
    );

    let problems = problems_for_filter(json(r##"{"over": "{{E0.values}}", "infer": "keep {{item}}?", "concurrency": 0}"##));
    assert!(
        problems.iter().any(|p| p.contains("at least 1")),
        "{problems:?}"
    );
}

#[test]
fn pseudo_roots_are_scoped_to_the_gate() {
    // {{item}} in `over` at the top level is pointed at, once.
    let problems = problems_for_filter(json(r##"{"over": "{{item.children}}", "where": {"value": "{{item.status}}", "op": "ne", "to": "deleted"}}"##));
    assert_eq!(problems.len(), 1, "{problems:?}");
    assert!(
        problems[0].contains("only available inside `where`/`infer`"),
        "{problems:?}"
    );

    // The legitimate shape passes.
    let problems = problems_for_filter(json(r##"{"over": "{{E0.changes}}", "where": {"value": "{{item.status}}", "op": "ne", "to": "deleted"}}"##));
    assert!(problems.is_empty(), "{problems:?}");
}

/// Nested in a map body, the ambient scope provides `item`/`index` —
/// `over: {{item.children}}` is then legitimate, not an error.
#[test]
fn nested_filter_may_read_the_enclosing_body_scope() {
    let input = fields(json(r##"{"over": "{{item.children}}", "where": {"value": "{{item.size}}", "op": "gt", "to": 0}}"##));
    let mut problems = Vec::new();
    validate_filter_input(
        &input,
        &["input", "E0", "item", "index"],
        "inner",
        &mut problems,
    );
    assert!(problems.is_empty(), "{problems:?}");
}

#[test]
fn forward_references_are_still_caught() {
    let problems = problems_for_filter(json(r##"{"over": "{{E9.values}}", "where": {"value": "{{item}}", "op": "not_empty"}}"##));
    assert!(problems.iter().any(|p| p.contains("E9")), "{problems:?}");
}

#[test]
fn body_parse_errors_are_pointed() {
    let err = parse_branch("then", &data(&json(r##""t__search""##))).unwrap_err();
    assert!(err.contains("tool call object or a list of steps"), "{err}");
    let err = parse_branch("else", &data(&json(r##"[]"##))).unwrap_err();
    assert!(err.contains("no steps"), "{err}");
    let err = parse_branch("then", &data(&json(r##"{"input": {}}"##))).unwrap_err();
    assert!(
        err.contains("toolName") || err.contains("tool_name"),
        "{err}"
    );
}

#[test]
fn nested_control_tools_are_rejected() {
    for tool in ["decide", "map", "reduce"] {
        for allow_exit in [false, true] {
            let mut problems = Vec::new();
            check_body_tool("do", tool, "E1", allow_exit, &mut problems);
            assert!(
                problems.iter().any(|p| p.contains("cannot nest")),
                "{tool}: {problems:?}"
            );
        }
    }
    let mut problems = Vec::new();
    check_body_tool("do", "plan__inner", "E1", false, &mut problems);
    check_body_tool("do", "plan_and_execute", "E1", false, &mut problems);
    check_body_tool("do", "t__search", "E1", false, &mut problems);
    assert!(problems.is_empty(), "{problems:?}");
}

#[test]
fn exit_is_allowed_only_where_the_body_says_so() {
    // Decide branches allow it…
    let mut problems = Vec::new();
    check_body_tool("then", "exit", "E1", true, &mut problems);
    assert!(problems.is_empty(), "{problems:?}");

    // …iteration bodies don't.
    let mut problems = Vec::new();
    check_body_tool("do", "exit", "E1", false, &mut problems);
    assert!(
        problems
            .iter()
            .any(|p| p.contains("only") && p.contains("decide branches")),
        "{problems:?}"
    );
}
