use graph_core::json::from_serde;
use graph_core::pipeline::catalog::{
    resolve_plan_tools, resolve_plan_tools_deep, resolve_step_tools, ToolCatalog,
};
use graph_core::pipeline::doc::PlanDoc;
use graph_core::value::Data;

/// What YAML text holds, as JSON.
fn parse_yaml(text: &str) -> Result<Data, String> {
    serde_yaml::from_str::<serde_json::Value>(text).map(from_serde).map_err(|e| e.to_string())
}

fn catalog() -> ToolCatalog {
    ToolCatalog {
        builtin_tools: vec!["builtin__infer".to_string()],
        user_tools: vec!["user__git_log".to_string()],
        plans: vec!["urgent_issues".to_string()],
        mcp_servers: vec!["linear".to_string()],
    }
}

fn doc(yaml: &str) -> PlanDoc {
    PlanDoc::from_value(&parse_yaml(yaml).unwrap()).unwrap()
}

const OK_DOC: &str = r#"
identifier: demo
name: Demo
description: demo
requires_servers: [linear]
steps:
  - id: E0
    tool_name: linear__list_issues
    input: {}
  - id: E1
    tool_name: builtin__infer
    input: { instruction: x, data: "{{E0}}" }
  - id: E2
    tool_name: user__git_log
    input: {}
  - id: E3
    tool_name: plan__urgent_issues
    input: {}
  - id: E4
    tool_name: exit
    input: { status: success, message: done }
"#;

#[test]
fn resolvable_names_in_every_namespace_pass() {
    let check = resolve_plan_tools(&doc(OK_DOC), &catalog());
    assert!(check.is_ok(), "{:?}", check.errors);
    assert!(check.notes.is_empty(), "{:?}", check.notes);
}

#[test]
fn unknown_names_error_per_namespace() {
    let bad = OK_DOC
        .replace("builtin__infer", "builtin__nope")
        .replace("user__git_log", "user__nope")
        .replace("plan__urgent_issues", "plan__nope");
    let check = resolve_plan_tools(&doc(&bad), &catalog());
    assert_eq!(check.errors.len(), 3, "{:?}", check.errors);
    assert!(check.errors[0].contains("unknown builtin tool 'builtin__nope'"));
    assert!(check.errors[0].contains("[tools].packs"));
    assert!(check.errors[1].contains("unknown user tool 'user__nope'"));
    assert!(check.errors[2].contains("unknown plan 'nope'"));
}

#[test]
fn unconfigured_undeclared_server_is_an_error() {
    let bad = OK_DOC.replace("linear__list_issues", "github__search_issues");
    let check = resolve_plan_tools(&doc(&bad), &catalog());
    assert_eq!(check.errors.len(), 1, "{:?}", check.errors);
    assert!(
        check.errors[0].contains("MCP server 'github'"),
        "{}",
        check.errors[0]
    );
    assert!(check.errors[0].contains("[mcp.github]"));
}

#[test]
fn declared_but_unconfigured_server_is_a_note_not_an_error() {
    let declared = OK_DOC
        .replace("requires_servers: [linear]", "requires_servers: [github]")
        .replace("linear__list_issues", "github__search_issues");
    let check = resolve_plan_tools(&doc(&declared), &catalog());
    assert!(check.is_ok(), "{:?}", check.errors);
    assert_eq!(check.notes.len(), 1, "{:?}", check.notes);
    assert!(check.notes[0].contains("declared in requires_servers"));
}

#[test]
fn workbench_tools_are_rejected() {
    let bad = OK_DOC.replace("linear__list_issues", "workbench__read_file");
    let check = resolve_plan_tools(&doc(&bad), &catalog());
    assert_eq!(check.errors.len(), 1, "{:?}", check.errors);
    assert!(
        check.errors[0].contains("workbench__"),
        "{:?}",
        check.errors
    );
    assert!(check.errors[0].contains("not available in the plan runtime"));
}

#[test]
fn control_step_bodies_are_resolved_too() {
    let body_doc = doc(r#"
identifier: bodies
name: Bodies
description: control bodies
steps:
  - id: E0
    tool_name: linear__list_issues
    input: {}
  - id: E1
    tool_name: decide
    input:
      if: { value: "{{E0.count}}", op: gt, to: 0 }
      then: { toolName: ghost__triage, input: {} }
      else:
        - id: B0
          toolName: user__nope
          input: {}
  - id: E2
    tool_name: map
    input:
      over: "{{E0.issues}}"
      do: { toolName: builtin__nope, input: {} }
"#);
    let check = resolve_plan_tools(&body_doc, &catalog());
    assert_eq!(check.errors.len(), 3, "{:?}", check.errors);
    assert!(check.errors[0].contains("ghost"), "{}", check.errors[0]);
    assert!(check.errors[1].contains("E1/B0"), "{}", check.errors[1]);
    assert!(
        check.errors[2].contains("builtin__nope"),
        "{}",
        check.errors[2]
    );
}

#[test]
fn agent_tool_patterns_resolve_against_the_catalog() {
    // The exact case that shipped a "valid" plan that could not run:
    // linear__* with no [mcp.linear] configured.
    let d = doc(r#"
identifier: demo
name: Demo
description: d
steps:
  - id: E0
    tool_name: agent
    input:
      prompt: hi
      outputSchema: { type: object, properties: {} }
      tools: ["linear__*"]
"#);
    let mut empty = catalog();
    empty.mcp_servers = vec![];
    let check = resolve_plan_tools(&d, &empty);
    assert_eq!(check.errors.len(), 1, "{:?}", check.errors);
    assert!(check.errors[0].contains("linear__*"), "{}", check.errors[0]);
    assert!(
        check.errors[0].contains("[mcp.linear]"),
        "{}",
        check.errors[0]
    );

    // Configured server -> fine.
    assert!(resolve_plan_tools(&d, &catalog()).is_ok());
}

#[test]
fn agent_tool_patterns_resolve_local_namespaces_exactly() {
    let d = doc(r#"
identifier: demo
name: Demo
description: d
steps:
  - id: E0
    tool_name: agent
    input:
      prompt: hi
      outputSchema: { type: object, properties: {} }
      tools: ["user__nope", "builtin__*", "plan__ghost", "notnamespaced", "user__git_log"]
"#);
    let check = resolve_plan_tools(&d, &catalog());
    let joined = check.errors.join(" | ");
    assert!(joined.contains("user__nope"), "{joined}");
    assert!(joined.contains("plan__ghost"), "{joined}");
    assert!(joined.contains("notnamespaced"), "{joined}");
    // builtin__* matches builtin__infer and user__git_log is real, so
    // neither may be flagged. Match on the quoted pattern form so the
    // "(like linear__* or user__git_log)" hint text can't false-match.
    assert!(!joined.contains("'builtin__*'"), "{joined}");
    assert!(!joined.contains("'user__git_log'"), "{joined}");
    assert_eq!(check.errors.len(), 3, "{:?}", check.errors);
}

#[test]
fn agent_patterns_inside_control_bodies_are_resolved() {
    let d = doc(r#"
identifier: demo
name: Demo
description: d
steps:
  - id: E0
    tool_name: user__git_log
    input: {}
  - id: E1
    tool_name: map
    input:
      over: "{{E0.commits}}"
      do:
        toolName: agent
        input:
          prompt: "{{item}}"
          outputSchema: { type: object, properties: {} }
          tools: ["ghost__thing"]
  - id: E2
    tool_name: decide
    input:
      if: { value: "{{E0.count}}", op: gt, to: 0 }
      then:
        - id: B0
          toolName: agent
          input:
            prompt: x
            outputSchema: { type: object, properties: {} }
            tools: ["user__missing"]
"#);
    let check = resolve_plan_tools(&d, &catalog());
    let joined = check.errors.join(" | ");
    assert!(joined.contains("ghost"), "{joined}");
    assert!(joined.contains("user__missing"), "{joined}");
    assert!(joined.contains("E2/B0"), "{joined}");
}

#[test]
fn declared_but_unconfigured_server_in_agent_patterns_is_a_note() {
    let d = doc(r#"
identifier: demo
name: Demo
description: d
requires_servers: [github]
steps:
  - id: E0
    tool_name: agent
    input:
      prompt: hi
      outputSchema: { type: object, properties: {} }
      tools: ["github__*"]
"#);
    let check = resolve_plan_tools(&d, &catalog());
    assert!(check.is_ok(), "{:?}", check.errors);
    assert_eq!(check.notes.len(), 1, "{:?}", check.notes);
}

#[test]
fn deep_resolution_follows_plan_references() {
    let sub = doc(r#"
identifier: urgent_issues
name: Urgent
description: sub-plan with a defect
steps:
  - id: E0
    tool_name: ghost__list
    input: {}
"#);
    let check = resolve_plan_tools_deep(&doc(OK_DOC), &vec![sub], &catalog());
    assert_eq!(check.errors.len(), 1, "{:?}", check.errors);
    assert!(
        check.errors[0].starts_with("plan 'urgent_issues':"),
        "{}",
        check.errors[0]
    );
    assert!(check.errors[0].contains("ghost"));
}

#[test]
fn deep_resolution_survives_plan_cycles() {
    let a = doc(r#"
identifier: a
name: A
description: calls b
steps:
  - id: E0
    tool_name: plan__b
    input: {}
"#);
    let b = doc(r#"
identifier: b
name: B
description: calls a
steps:
  - id: E0
    tool_name: plan__a
    input: {}
"#);
    let mut catalog = catalog();
    catalog.plans.extend(["a".to_string(), "b".to_string()]);
    let check = resolve_plan_tools_deep(&a, &vec![a.copy(), b], &catalog);
    assert!(check.is_ok(), "{:?}", check.errors);
}

#[test]
fn step_tool_resolution_has_no_requires_servers_leniency() {
    let declared = OK_DOC
        .replace("requires_servers: [linear]", "requires_servers: [github]")
        .replace("linear__list_issues", "github__search_issues");
    let problems = resolve_step_tools(&doc(&declared).steps, &catalog());
    assert_eq!(problems.len(), 1, "{problems:?}");
    assert!(problems[0].contains("MCP server 'github'"));
}
