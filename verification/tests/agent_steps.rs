use graph_core::chat::ChatMessage;
use graph_core::json::{from_serde, to_serde};
use graph_core::pipeline::agent::{validate_agent_input, AgentSpec};
use graph_core::pipeline::agent_loop::{after_repair, extract_json, AgentNext, AgentWork};
use graph_core::pipeline::control::agent_tool_def;
use graph_core::pipeline::resolve::resolve_tools;
use graph_core::tools::ToolDef;
use graph_core::value::{Data, Fields};
use serde_json::Value;

fn json(text: &str) -> Value {
    serde_json::from_str(text).unwrap()
}

fn fields(v: Value) -> Fields {
    match from_serde(v) {
        Data::Object(fields) => fields,
        _ => Fields::new(),
    }
}

fn plain(d: &Data) -> Value {
    to_serde(d)
}

fn tool(name: &str, description: &str) -> ToolDef {
    ToolDef {
        name: name.to_string(),
        description: description.to_string(),
        input_schema: Data::Object(Fields::new()),
        output_schema: None,
        output_example: None,
        read_only: None,
    }
}

fn extracted(text: &str) -> Option<Value> {
    extract_json(text).as_ref().map(plain)
}

// ── Wildcard resolution tests ──────────────────────────────────────

#[test]
fn wildcard_matches_all_tools_with_prefix() {
    let registry = vec![
        tool("linear__list_issues", "list issues"),
        tool("linear__get_issue", "get issue"),
        tool("user__git_log", "git log"),
    ];

    let tools = resolve_tools(&vec!["linear__*".to_string()], Ok(registry), &vec![])
        .unwrap();
    assert_eq!(tools.len(), 2);
    let names: Vec<&str> = tools.iter().map(|t| t.name.as_str()).collect();
    assert!(names.contains(&"linear__list_issues"));
    assert!(names.contains(&"linear__get_issue"));
    assert!(!names.contains(&"user__git_log"));
}

#[test]
fn wildcard_matches_partial_suffix() {
    let registry = vec![
        tool("linear__list_issues", "list issues"),
        tool("linear__list_teams", "list teams"),
        tool("linear__get_issue", "get issue"),
    ];

    let tools = resolve_tools(&vec!["linear__list_*".to_string()], Ok(registry), &vec![])
        .unwrap();
    assert_eq!(tools.len(), 2);
    let names: Vec<&str> = tools.iter().map(|t| t.name.as_str()).collect();
    assert!(names.contains(&"linear__list_issues"));
    assert!(names.contains(&"linear__list_teams"));
    assert!(!names.contains(&"linear__get_issue"));
}

#[test]
fn exact_match_selects_single_tool() {
    let registry = vec![
        tool("linear__list_issues", "list issues"),
        tool("linear__list_teams", "list teams"),
    ];

    let tools = resolve_tools(&vec!["linear__list_teams".to_string()], Ok(registry), &vec![])
        .unwrap();
    assert_eq!(tools.len(), 1);
    assert_eq!(tools[0].name, "linear__list_teams");
}

#[test]
fn omit_tools_returns_all() {
    let registry = vec![
        tool("linear__list_issues", "list issues"),
        tool("user__git_log", "git log"),
    ];

    let tools = resolve_tools(&vec![], Ok(registry), &vec![]).unwrap();
    assert_eq!(tools.len(), 2);
}

#[test]
fn an_unknown_pattern_is_reported_not_dropped() {
    let registry = vec![tool("linear__list_issues", "list issues")];

    let err = resolve_tools(&vec!["nonexistent__*".to_string()], Ok(registry), &vec![])
        .unwrap_err();
    assert!(err.contains("nonexistent__*"), "{err}");
}

#[test]
fn empty_tool_list_is_valid_when_omitted() {
    // When tools is None/omitted, an empty result is fine — all tools are used.
    let registry = vec![];
    let tools = resolve_tools(&vec![], Ok(registry), &vec![]).unwrap();
    assert!(tools.is_empty());
}

#[test]
fn deduplicates_across_patterns() {
    let registry = vec![tool("linear__list_issues", "list issues")];

    // Both patterns match the same tool
    let tools = resolve_tools(&vec!["linear__*".to_string(), "linear__list_issues".to_string()], Ok(registry), &vec![])
    .unwrap();
    assert_eq!(tools.len(), 1, "should deduplicate");
}

#[test]
fn resolved_tools_come_back_in_a_stable_order() {
    // The catalogue the model sees must not reorder between runs.
    let registry = vec![
        tool("linear__list_teams", "d"),
        tool("linear__get_issue", "d"),
        tool("linear__add_comment", "d"),
    ];

    let names: Vec<String> = resolve_tools(&vec!["linear__*".to_string()], Ok(registry), &vec![])
        .unwrap()
        .into_iter()
        .map(|t| t.name)
        .collect();
    assert_eq!(
        names,
        [
            "linear__add_comment",
            "linear__get_issue",
            "linear__list_teams"
        ]
    );
}

#[test]
fn excludes_plan_and_execute_from_tools() {
    let registry = vec![
        tool("linear__list_issues", "list issues"),
        tool("plan_and_execute", "plan and execute"),
    ];

    let tools = resolve_tools(&vec![], Ok(registry), &vec![]).unwrap();
    // All tools are returned; plan_and_execute is excluded later
    // when building tool_specs for the LLM
    assert_eq!(tools.len(), 2);
}

// ── Validation tests ───────────────────────────────────────────────

#[test]
fn validate_rejects_zero_max_iterations() {
    let input = fields(json(r##"{"prompt": "test", "maxIterations": 0, "outputSchema": {"type": "object"}}"##));
    let mut problems = Vec::new();
    validate_agent_input(&input, &["input", "E0"], "E1", &mut problems);
    assert!(
        problems.iter().any(|p| p.contains("at least 1")),
        "{problems:?}"
    );
}

#[test]
fn validate_rejects_non_object_output_schema() {
    let input = fields(json(r##"{"prompt": "test", "outputSchema": {"type": "string"}}"##));
    let mut problems = Vec::new();
    validate_agent_input(&input, &["input", "E0"], "E1", &mut problems);
    assert!(problems.iter().any(|p| p.contains("type")), "{problems:?}");
}

#[test]
fn validate_accepts_object_output_schema_with_properties() {
    let input = fields(json(r##"{"prompt": "test", "outputSchema": {"type": "object", "properties": {"name": {"type": "string"}}}}"##));
    let mut problems = Vec::new();
    validate_agent_input(&input, &["input", "E0"], "E1", &mut problems);
    assert!(problems.is_empty(), "{problems:?}");
}

#[test]
fn validate_rejects_forward_template_references() {
    let input = fields(json(r##"{"prompt": "{{E5.values}}", "outputSchema": {"type": "object"}}"##));
    let mut problems = Vec::new();
    validate_agent_input(&input, &["input", "E0"], "E1", &mut problems);
    assert!(problems.iter().any(|p| p.contains("E5")), "{problems:?}");
}

#[test]
fn validate_accepts_backward_template_references() {
    let input = fields(json(r##"{"prompt": "{{E0.results}}", "outputSchema": {"type": "object"}}"##));
    let mut problems = Vec::new();
    validate_agent_input(&input, &["input", "E0"], "E1", &mut problems);
    assert!(problems.is_empty(), "{problems:?}");
}

#[test]
fn validate_rejects_an_explicitly_empty_tool_list() {
    // `tools: []` reads as "no tools" but resolves to the whole
    // catalogue, so it must not be a silent success either way.
    let input = fields(json(r##"{"prompt": "test", "outputSchema": {"type": "object"}, "tools": []}"##));
    let mut problems = Vec::new();
    validate_agent_input(&input, &["input", "E0"], "E1", &mut problems);
    assert!(
        problems.iter().any(|p| p.contains("`tools` is empty")),
        "{problems:?}"
    );
}

#[test]
fn validate_rejects_a_non_string_prompt_at_parse_time() {
    let input = fields(json(r##"{"prompt": 12345, "outputSchema": {"type": "object"}}"##));
    let mut problems = Vec::new();
    validate_agent_input(&input, &["input", "E0"], "E1", &mut problems);
    assert!(
        problems.iter().any(|p| p.contains("invalid agent input")),
        "{problems:?}"
    );
}

#[test]
fn validate_checks_system_prompt_references_too() {
    let input = fields(json(r##"{"prompt": "fine", "systemPrompt": "context: {{E9.values}}", "outputSchema": {"type": "object"}}"##));
    let mut problems = Vec::new();
    validate_agent_input(&input, &["input", "E0"], "E1", &mut problems);
    assert!(problems.iter().any(|p| p.contains("E9")), "{problems:?}");
}

#[test]
fn validate_rejects_unknown_fields() {
    let input = fields(json(r##"{"prompt": "test", "outputSchema": {"type": "object"}, "unknownField": "bad"}"##));
    let result = AgentSpec::from_input(&input);
    assert!(result.is_err(), "should reject unknown fields");
}

// ── Tool definition test ───────────────────────────────────────────

/// The planner writes plans by copying the tool def's schema. If the
/// schema and the serde contract disagree, every plan the planner
/// writes is unparseable — so build a document from the def's OWN
/// required names and prove serde accepts it.
#[test]
fn agent_planner_schema_and_serde_contract_cannot_drift() {
    let def = agent_tool_def();
    let input_schema = plain(&def.input_schema);
    let required: Vec<&str> = input_schema["required"]
        .as_array()
        .expect("required")
        .iter()
        .map(|v| v.as_str().expect("string"))
        .collect();

    let mut doc = serde_json::Map::new();
    for name in &required {
        let value = match *name {
            "prompt" => json(r##""do the thing""##),
            _ => json(r##"{"type": "object", "properties": {}}"##),
        };
        doc.insert((*name).to_string(), value);
    }
    AgentSpec::from_input(&fields(Value::Object(doc)))
        .expect("tool def's required fields must deserialize into AgentSpec");

    // Every advertised optional property must be accepted too.
    for name in input_schema["properties"]
        .as_object()
        .expect("properties")
        .keys()
    {
        let mut doc = serde_json::Map::new();
        doc.insert("prompt".into(), json(r##""x""##));
        doc.insert(
            "outputSchema".into(),
            json(r##"{"type": "object", "properties": {}}"##),
        );
        let value = match name.as_str() {
            "prompt" => json(r##""x""##),
            "outputSchema" => json(r##"{"type": "object", "properties": {}}"##),
            "maxIterations" => json(r##"3"##),
            "tools" => json(r##"["user__x"]"##),
            _ => json(r##""x""##),
        };
        doc.insert(name.clone(), value);
        AgentSpec::from_input(&fields(Value::Object(doc)))
            .unwrap_or_else(|e| panic!("advertised property `{name}` rejected by serde: {e}"));
    }
}

#[test]
fn agent_snake_case_aliases_are_accepted_for_yaml_authors() {
    let spec = AgentSpec::from_input(&fields(json(r##"{"prompt": "x", "output_schema": {"type": "object", "properties": {}}, "max_iterations": 2, "system_prompt": "extra"}"##))).expect("snake_case aliases must parse");
    assert_eq!(spec.max_iterations, 2);
    assert_eq!(spec.system_prompt.as_deref(), Some("extra"));
}

#[test]
fn a_pattern_matching_nothing_is_named_in_the_error() {
    let registry = vec![tool("user__git_log", "d")];
    // One good pattern, one typo: must still fail, naming the typo.
    let err = resolve_tools(&vec!["user__*".to_string(), "linear__*".to_string()], Ok(registry), &vec![])
    .unwrap_err();
    assert!(err.contains("linear__*"), "{err}");
    assert!(!err.contains("user__*"), "{err}");
}

#[test]
fn agent_tool_def_advertises_camel_case_prompt_surface() {
    let def = agent_tool_def();
    let input_schema = plain(&def.input_schema);
    assert_eq!(def.name, "agent");
    assert!(def.description.contains("structured output"));
    let required: Vec<&str> = input_schema["required"]
        .as_array()
        .unwrap()
        .iter()
        .map(|v| v.as_str().unwrap())
        .collect();
    assert_eq!(required, ["prompt", "outputSchema"]);
    let props = input_schema["properties"].as_object().unwrap();
    for name in ["outputSchema", "maxIterations", "systemPrompt"] {
        assert!(props.contains_key(name), "missing camelCase `{name}`");
    }
    for name in ["output_schema", "max_iterations", "system_prompt"] {
        assert!(
            !props.contains_key(name),
            "snake_case `{name}` leaked into the prompt surface"
        );
    }
}

#[test]
fn extract_json_tolerates_what_real_models_actually_emit() {
    let want = json(r##"{"found": 1}"##);

    // Bare object.
    assert_eq!(extracted(r#"{"found": 1}"#), Some(want.clone()));
    // Fenced with a language tag (the common Anthropic shape).
    assert_eq!(
        extracted("```json\n{\"found\": 1}\n```"),
        Some(want.clone())
    );
    // Fenced without a tag.
    assert_eq!(extracted("```\n{\"found\": 1}\n```"), Some(want.clone()));
    // Conversational preamble.
    assert_eq!(
        extracted("Here is the result:\n\n{\"found\": 1}"),
        Some(want.clone())
    );
    // Preamble AND a fence AND a trailing remark.
    assert_eq!(
        extracted("Sure!\n```json\n{\"found\": 1}\n```\nLet me know."),
        Some(want)
    );
    // Genuinely not JSON stays a failure.
    assert_eq!(extracted("I could not complete the task."), None);
    assert_eq!(extracted(""), None);
}

// ── Repaired answers ──────────────────────────────────────────────

fn work(schema: &str) -> AgentWork {
    AgentWork {
        system: String::new(),
        model: String::new(),
        tools: vec![],
        output_schema: from_serde(json(schema)),
        max_iterations: 3,
        messages: vec![],
        tools_called: vec![],
        round: 1,
    }
}

fn correction(next: AgentNext) -> String {
    match next {
        AgentNext::On(work) => match work.messages.last() {
            Some(ChatMessage::User { content }) => content.clone(),
            other => panic!("{other:?}"),
        },
        other => panic!("{other:?}"),
    }
}

#[test]
fn a_repaired_answer_is_final_only_where_it_conforms() {
    let schema = r#"{"type": "object", "required": ["n"]}"#;
    match after_repair(work(schema), Ok(from_serde(json(r#"{"n": 1}"#)))) {
        AgentNext::Done(run) => {
            assert!(run.result.final_);
            assert!(run.result.output == from_serde(json(r#"{"n": 1}"#)));
        }
        other => panic!("{other:?}"),
    }
    let missing = correction(after_repair(work(schema), Ok(from_serde(json("{}")))));
    assert!(missing.contains("\"n\" is a required property"), "{missing}");
}

#[test]
fn a_repair_under_a_faulty_schema_is_answered_with_the_fault() {
    let text = correction(after_repair(work(r#"{"type": 1}"#), Ok(from_serde(json("{}")))));
    assert!(text.contains("invalid output schema: "), "{text}");
}
