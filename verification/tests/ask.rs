use graph_core::json::{from_serde, to_serde};
use graph_core::pipeline::ask::{validate_ask_input, AskSpec, WhenUnanswered};
use graph_core::pipeline::control::ask_tool_def;
use graph_core::value::{Data, Fields};
use serde_json::Value;

fn json(text: &str) -> Value {
    serde_json::from_str(text).unwrap()
}

fn value<T: serde::Serialize>(v: &T) -> Value {
    serde_json::to_value(v).unwrap()
}

/// A JSON text with `"@@n"` standing for the nth value.
fn fill(text: &str, values: &[Value]) -> Value {
    fn put(v: Value, values: &[Value]) -> Value {
        match v {
            Value::String(s) => match s.strip_prefix("@@") {
                Some(n) => values[n.parse::<usize>().unwrap()].clone(),
                None => Value::String(s),
            },
            Value::Array(items) => {
                Value::Array(items.into_iter().map(|item| put(item, values)).collect())
            }
            Value::Object(map) => {
                Value::Object(map.into_iter().map(|(k, v)| (k, put(v, values))).collect())
            }
            other => other,
        }
    }
    put(json(text), values)
}

fn fields(v: Value) -> Fields {
    match from_serde(v) {
        Data::Object(fields) => fields,
        _ => Fields::new(),
    }
}

fn plain(d: &Data) -> Value {
    to_serde(d)
}

fn input(value: Value) -> Fields {
    fields(value)
}

fn schema() -> Value {
    json(r##"{"type": "object", "required": ["repo"], "properties": {"repo": {"type": "string", "description": "Target repo"}}}"##)
}

#[test]
fn a_flat_primitive_schema_is_accepted() {
    let mut problems = Vec::new();
    validate_ask_input(
        &input(fill(r##"{"prompt": "Which repo?", "outputSchema": "@@0"}"##, &[value(&(schema()))])),
        &["input"],
        "E1",
        &mut problems,
    );
    assert!(problems.is_empty(), "{problems:?}");
}

#[test]
fn a_nested_object_property_is_rejected_for_every_host() {
    // MCP elicitation cannot render it; allowing it on the TTY would
    // make the plan silently host-specific.
    let mut problems = Vec::new();
    validate_ask_input(
        &input(json(r##"{"prompt": "Which repo?", "outputSchema": {"type": "object", "properties": {"repo": {"type": "object", "properties": {}}}}}"##)),
        &["input"],
        "E1",
        &mut problems,
    );
    assert!(
        problems.iter().any(|p| p.contains("must be primitives")),
        "{problems:?}"
    );
}

#[test]
fn an_array_property_is_rejected() {
    let mut problems = Vec::new();
    validate_ask_input(
        &input(json(r##"{"prompt": "Which?", "outputSchema": {"type": "object", "properties": {"tags": {"type": "array", "items": {"type": "string"}}}}}"##)),
        &["input"],
        "E1",
        &mut problems,
    );
    assert!(
        problems.iter().any(|p| p.contains("type `array`")),
        "{problems:?}"
    );
}

#[test]
fn a_string_enum_property_is_accepted() {
    let mut problems = Vec::new();
    validate_ask_input(
        &input(json(r##"{"prompt": "Ship it?", "outputSchema": {"type": "object", "properties": {"verdict": {"enum": ["ship", "hold"]}}}}"##)),
        &["input"],
        "E1",
        &mut problems,
    );
    assert!(problems.is_empty(), "{problems:?}");
}

#[test]
fn default_without_when_unanswered_default_is_dead_config() {
    let mut problems = Vec::new();
    validate_ask_input(
        &input(fill(r##"{"prompt": "Which repo?", "outputSchema": "@@0", "default": {"repo": "x"}}"##, &[value(&(schema()))])),
        &["input"],
        "E1",
        &mut problems,
    );
    assert!(
        problems.iter().any(|p| p.contains("can never be used")),
        "{problems:?}"
    );
}

#[test]
fn when_unanswered_default_without_a_default_is_rejected() {
    let mut problems = Vec::new();
    validate_ask_input(
        &input(fill(r##"{"prompt": "Which repo?", "outputSchema": "@@0", "whenUnanswered": "default"}"##, &[value(&(schema()))])),
        &["input"],
        "E1",
        &mut problems,
    );
    assert!(
        problems.iter().any(|p| p.contains("no `default` value")),
        "{problems:?}"
    );
}

#[test]
fn a_template_free_default_is_schema_checked_statically() {
    let mut problems = Vec::new();
    validate_ask_input(
        &input(fill(r##"{"prompt": "Which repo?", "outputSchema": "@@0", "whenUnanswered": "default", "default": {"repo": 12}}"##, &[value(&(schema()))])),
        &["input"],
        "E1",
        &mut problems,
    );
    assert!(
        problems.iter().any(|p| p.contains("does not conform")),
        "{problems:?}"
    );
}

#[test]
fn a_templated_default_defers_its_schema_check_to_the_run() {
    // "{{input.repo}}" is a string here but may render to any type;
    // flagging it statically would ban the useful case.
    let mut problems = Vec::new();
    validate_ask_input(
        &input(fill(r##"{"prompt": "Which repo?", "outputSchema": "@@0", "whenUnanswered": "default", "default": {"repo": "{{input.repo}}"}}"##, &[value(&(schema()))])),
        &["input"],
        "E1",
        &mut problems,
    );
    assert!(problems.is_empty(), "{problems:?}");
}

#[test]
fn forward_references_are_caught_in_the_prompt_and_the_default() {
    let mut problems = Vec::new();
    validate_ask_input(
        &input(fill(r##"{"prompt": "{{E7.x}}", "outputSchema": "@@0"}"##, &[value(&(schema()))])),
        &["input", "E0"],
        "E1",
        &mut problems,
    );
    assert!(problems.iter().any(|p| p.contains("E7")), "{problems:?}");

    let mut problems = Vec::new();
    validate_ask_input(
        &input(fill(r##"{"prompt": "fine", "outputSchema": "@@0", "whenUnanswered": "default", "default": {"repo": "{{E9.name}}"}}"##, &[value(&(schema()))])),
        &["input", "E0"],
        "E1",
        &mut problems,
    );
    assert!(problems.iter().any(|p| p.contains("E9")), "{problems:?}");
}

#[test]
fn unknown_fields_are_rejected() {
    let mut problems = Vec::new();
    validate_ask_input(
        &input(fill(r##"{"prompt": "x", "outputSchema": "@@0", "maxIterations": 3}"##, &[value(&(schema()))])),
        &["input"],
        "E1",
        &mut problems,
    );
    assert!(
        problems.iter().any(|p| p.contains("invalid ask input")),
        "{problems:?}"
    );
}

#[test]
fn ask_snake_case_aliases_are_accepted_for_yaml_authors() {
    let spec = AskSpec::from_input(&fields(fill(r##"{"prompt": "x", "output_schema": "@@0", "when_unanswered": "default", "default": {"repo": "y"}}"##, &[value(&(schema()))]))).expect("snake_case aliases must parse");
    assert_eq!(spec.when_unanswered, WhenUnanswered::Default);
}

/// The planner writes plans by copying the tool def's schema. If the
/// schema and the serde contract disagree, every plan the planner
/// writes is unparseable.
#[test]
fn ask_planner_schema_and_serde_contract_cannot_drift() {
    let def = ask_tool_def();
    let input_schema = plain(&def.input_schema);
    let mut doc = serde_json::Map::new();
    doc.insert("prompt".into(), json(r##""q""##));
    doc.insert("outputSchema".into(), schema());
    AskSpec::from_input(&fields(Value::Object(doc.clone())))
        .expect("required fields must deserialize");

    for name in input_schema["properties"]
        .as_object()
        .expect("properties")
        .keys()
    {
        let mut doc = doc.clone();
        let value = match name.as_str() {
            "prompt" => json(r##""q""##),
            "outputSchema" => schema(),
            "whenUnanswered" => json(r##""default""##),
            "default" => json(r##"{"repo": "x"}"##),
            other => panic!("undocumented property `{other}`"),
        };
        doc.insert(name.clone(), value);
        AskSpec::from_input(&fields(Value::Object(doc)))
            .unwrap_or_else(|e| panic!("advertised property `{name}` rejected by serde: {e}"));
    }
}

#[test]
fn the_prompt_surface_stays_camel_case() {
    let def = ask_tool_def();
    let input_schema = plain(&def.input_schema);
    assert_eq!(def.name, "ask");
    let props = input_schema["properties"].as_object().unwrap();
    assert!(props.contains_key("outputSchema"));
    assert!(props.contains_key("whenUnanswered"));
    for leaked in ["output_schema", "when_unanswered"] {
        assert!(!props.contains_key(leaked), "snake_case `{leaked}` leaked");
    }
}
