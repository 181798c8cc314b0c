use graph_core::json::from_serde;
use graph_core::pipeline::doc::{add_doc, load_doc, validate_doc, DocError, PlanDoc};
use graph_core::value::Data;

/// What YAML text holds, as JSON.
fn parse_yaml(text: &str) -> Result<Data, String> {
    serde_yaml::from_str::<serde_json::Value>(text).map(from_serde).map_err(|e| e.to_string())
}

/// Takes in a plan file, read as JSON.
fn read_doc(path: &str, raw: &str) -> Result<PlanDoc, DocError> {
    load_doc(path, parse_yaml(raw).and_then(|v| PlanDoc::from_value(&v)))
}

const DOC: &str = r#"
identifier: sprint_analysis
name: Sprint Analysis
description: Analyze the current sprint for a team
exemplars:
  - how is my sprint going
requires_servers: [linear]
input_schema:
  type: object
  required: [team]
  properties:
    team: { type: string }
steps:
  - id: E0
    tool_name: linear__search_teams
    input: { query: "{{input.team}}" }
  - id: E1
    tool_name: linear__list_issues
    input: { teamId: "{{E0.values.0.id}}" }
solver:
  query_to_answer: |
    Summarize the sprint for {{input.team}}.
  data:
    issues: "{{E1}}"
"#;

fn load(files: &[(&str, String)]) -> Result<Vec<PlanDoc>, DocError> {
    let mut docs = Vec::new();
    for (path, raw) in files {
        add_doc(&mut docs, read_doc(path, raw)?)?;
    }
    Ok(docs)
}

#[test]
fn parses_and_validates_a_doc() {
    let docs = load(&[("sprint.yaml", DOC.to_string())]).unwrap();
    assert_eq!(docs.len(), 1);
    let doc = &docs[0];
    assert_eq!(doc.identifier, "sprint_analysis");
    assert_eq!(doc.steps[1].tool_name, "linear__list_issues");
    assert!(doc.tool_description().contains("how is my sprint going"));
}

#[test]
fn rejects_forward_references_and_bad_ids() {
    let bad = DOC.replace("{{E0.values.0.id}}", "{{E5.values.0.id}}");
    let err = read_doc("bad.yaml", &bad).unwrap_err();
    assert!(err.message().contains("E5"));
}

#[test]
fn duplicate_identifiers_error() {
    let err = load(&[("a.yaml", DOC.to_string()), ("b.yaml", DOC.to_string())]).unwrap_err();
    assert!(matches!(err, DocError::Duplicate(_)));
}

fn parsed(yaml: &str) -> PlanDoc {
    PlanDoc::from_value(&parse_yaml(yaml).unwrap()).unwrap()
}

#[test]
fn decide_doc_accepts_exit_in_branch_but_not_nested_control() {
    // Exit in a branch is a supported pattern (it ends the whole plan)…
    let doc = parsed(
        r#"
identifier: ok
name: Ok
description: exit in a branch
steps:
  - id: E0
    tool_name: decide
    input:
      if: { value: 1, op: eq, to: 1 }
      then:
        tool_name: exit
        input: { status: success }
"#,
    );
    validate_doc(&doc).unwrap();

    // …nested decide/map/reduce still are not.
    let doc = parsed(
        r#"
identifier: bad
name: Bad
description: map nested in branch
steps:
  - id: E0
    tool_name: decide
    input:
      if: { value: 1, op: eq, to: 1 }
      then:
        tool_name: map
        input: {}
"#,
    );
    let err = validate_doc(&doc).unwrap_err();
    assert!(err.contains("cannot nest"), "{err}");
}
