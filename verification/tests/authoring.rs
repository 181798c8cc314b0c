use graph_core::json::{compact, from_serde, to_serde};
use graph_core::pipeline::authoring::{
    apply_edit, file_name, merge_planner_output, on_disk_identifier, patch_add_step,
    patch_delete_step, patch_metadata, patch_update_step, prepare_write, static_problems,
    summarize_edit, target_path, to_json, to_yaml, EditAccepted, EditRejected, WriteError,
};
use graph_core::pipeline::doc::{load_doc, DocError, PlanDoc};
use graph_core::pipeline::plan::{PlannerOutput, SolverData, Step};
use graph_core::value::{Data, Fields};
use serde_json::Value;

/// What YAML text holds, as JSON.
fn parse_yaml(text: &str) -> Result<Data, String> {
    serde_yaml::from_str::<serde_json::Value>(text).map(from_serde).map_err(|e| e.to_string())
}

/// Takes in a plan file, read as JSON.
fn read_doc(path: &str, raw: &str) -> Result<PlanDoc, DocError> {
    load_doc(path, parse_yaml(raw).and_then(|v| PlanDoc::from_value(&v)))
}

fn json(text: &str) -> Value {
    serde_json::from_str(text).unwrap()
}

fn value<T: serde::Serialize>(v: &T) -> Value {
    serde_json::to_value(v).unwrap()
}

/// A JSON text with `"@@n"` standing for the nth value.
fn fill(text: &str, values: &[Value]) -> Value {
    fn put(v: Value, values: &[Value]) -> Value {
        match v {
            Value::String(s) => match s.strip_prefix("@@") {
                Some(n) => values[n.parse::<usize>().unwrap()].clone(),
                None => Value::String(s),
            },
            Value::Array(items) => {
                Value::Array(items.into_iter().map(|item| put(item, values)).collect())
            }
            Value::Object(map) => {
                Value::Object(map.into_iter().map(|(k, v)| (k, put(v, values))).collect())
            }
            other => other,
        }
    }
    put(json(text), values)
}

fn plain(d: &Data) -> Value {
    to_serde(d)
}

fn from_json(v: Value) -> Data {
    from_serde(v)
}

fn plain_fields(fields: &Fields) -> serde_json::Map<String, Value> {
    match plain(&Data::Object(fields.copy())) {
        Value::Object(map) => map,
        _ => serde_json::Map::new(),
    }
}

fn edit(
    doc: &PlanDoc,
    change: impl FnOnce(&mut PlanDoc) -> Result<Data, Data>,
) -> Result<EditAccepted, EditRejected> {
    apply_edit(doc, |edited| {
        let mut edited = edited;
        let outcome = change(&mut edited);
        (edited, outcome)
    })
}

fn write_doc(doc: &PlanDoc, file: &mut Option<String>, force: bool) -> Result<(), WriteError> {
    let text = prepare_write(doc, "demo.yaml", file.as_deref(), force)?;
    *file = Some(text);
    Ok(())
}

fn doc(yaml: &str) -> PlanDoc {
    PlanDoc::from_value(&parse_yaml(yaml).unwrap()).unwrap()
}

/// A two-step plan where E2 templates off E1 — the fixture for the
/// rename and dangling-reference cases.
fn linked() -> PlanDoc {
    doc(r#"
identifier: demo
name: Demo
description: demo plan
steps:
  - id: E1
    tool_name: t__search
    input: { query: "{{input.q}}" }
  - id: E2
    tool_name: t__summarize
    input: { text: "{{E1.body}}" }
output:
  summary: "{{E2.text}}"
"#)
}

// ── the guard ────────────────────────────────────────────────────

#[test]
fn accepts_an_edit_that_keeps_the_plan_valid() {
    let before = linked();
    let accepted = edit(&before, |d| patch_metadata(d, &from_json(json(r##"{"name": "Renamed"}"##))))
        .expect("edit should be accepted");
    assert_eq!(accepted.doc.name, "Renamed");
    assert!(accepted.pre_existing.is_empty());
    // The caller's copy is untouched — apply_edit works on a clone.
    assert_eq!(before.name, "Demo");
}

#[test]
fn rejects_an_edit_that_introduces_a_problem_and_leaves_the_doc_alone() {
    let before = linked();
    // Deleting E1 dangles E2's {{E1.body}}.
    let rejected = edit(&before, |d| patch_delete_step(d, &from_json(json(r##"{"id": "E1"}"##))))
        .expect_err("edit should be rejected");
    assert_eq!(before.steps.len(), 2, "the original must be untouched");
    assert!(
        rejected.introduced.iter().any(|p| p.contains("E1")),
        "the dangling reference should be named: {:?}",
        rejected.introduced
    );
    assert_eq!(
        plain(&rejected.body)["error"],
        json(r##""edit rejected — it would introduce new validation problems (the draft is unchanged)""##)
    );
}

#[test]
fn pre_existing_problems_never_block_an_edit() {
    // An unknown bare tool name is a pre-existing document problem.
    let mut broken = linked();
    broken.steps[0].tool_name = "not_namespaced".to_string();
    assert!(
        !static_problems(&broken).is_empty(),
        "fixture must be invalid"
    );

    let accepted = edit(&broken, |d| {
        patch_metadata(d, &from_json(json(r##"{"description": "still broken, still editable"}"##)))
    })
    .expect("a pre-existing problem must not block an unrelated edit");
    assert_eq!(accepted.doc.description, "still broken, still editable");
    assert!(
        !accepted.pre_existing.is_empty(),
        "the surviving problem should be reported back"
    );
    // And it is surfaced to the caller rather than hidden.
    let summary = plain(&summarize_edit(&accepted));
    assert!(summary["preExistingProblems"].is_array());
    assert!(summary["note"].as_str().unwrap().contains("pre-existing"));
}

#[test]
fn a_mutator_error_is_reported_verbatim_with_no_introduced_problems() {
    let rejected = edit(&linked(), |d| {
        patch_update_step(d, &from_json(json(r##"{"id": "nope", "toolName": "t__x"}"##)))
    })
    .expect_err("unknown step id should be rejected");
    assert!(rejected.introduced.is_empty());
    assert_eq!(plain(&rejected.body)["error"], json(r##""no step with id 'nope'""##));
    assert_eq!(plain(&rejected.body)["availableSteps"], json(r##"["E1", "E2"]"##));
}

// ── renames ──────────────────────────────────────────────────────

#[test]
fn renaming_a_step_rewrites_downstream_inputs_and_the_output_map() {
    let accepted = edit(&linked(), |d| {
        patch_update_step(d, &from_json(json(r##"{"id": "E1", "newId": "fetch"}"##)))
    })
    .expect("a rename with reference rewriting stays valid");
    let d = accepted.doc;
    assert_eq!(d.steps[0].id, "fetch");
    assert_eq!(plain_fields(&d.steps[1].input)["text"], json(r##""{{fetch.body}}""##));
    // E2 was not renamed, so the output map still points at it.
    assert_eq!(plain_fields(&d.output.unwrap())["summary"], json(r##""{{E2.text}}""##));
}

#[test]
fn renaming_rewrites_solver_templates() {
    let base = doc(r#"
identifier: demo
name: Demo
description: demo plan
steps:
  - id: E1
    tool_name: t__search
    input: { query: x }
solver:
  query_to_answer: "what does {{E1.body}} say?"
  system_prompt: "context: {{E1.title}}"
  data:
    body: "{{E1.body}}"
    nested: ["{{E1.a}}", { deep: "{{E1.b}}" }]
"#);
    let accepted = edit(&base, |d| {
        patch_update_step(d, &from_json(json(r##"{"id": "E1", "newId": "fetch"}"##)))
    })
    .expect("rename should be accepted");
    let solver = accepted.doc.solver.unwrap();
    assert_eq!(solver.query_to_answer, "what does {{fetch.body}} say?");
    assert_eq!(solver.system_prompt.unwrap(), "context: {{fetch.title}}");
    assert_eq!(plain_fields(&solver.data)["body"], json(r##""{{fetch.body}}""##));
    assert_eq!(
        plain_fields(&solver.data)["nested"],
        json(r##"["{{fetch.a}}", {"deep": "{{fetch.b}}"}]"##),
        "rewriting must recurse through arrays and objects"
    );
}

#[test]
fn renaming_leaves_earlier_steps_alone() {
    // A rename only rewrites what can *see* the step's result. An
    // earlier step mentioning the same word is coincidence, not a
    // reference, and must not be touched.
    let base = doc(r#"
identifier: demo
name: Demo
description: demo plan
steps:
  - id: E1
    tool_name: t__search
    input: { query: "E2 is not a reference here" }
  - id: E2
    tool_name: t__summarize
    input: { text: "{{E1.body}}" }
"#);
    let accepted = edit(&base, |d| {
        patch_update_step(d, &from_json(json(r##"{"id": "E2", "newId": "summarize"}"##)))
    })
    .unwrap();
    assert_eq!(
        plain_fields(&accepted.doc.steps[0].input)["query"],
        json(r##""E2 is not a reference here""##)
    );
}

// ── metadata ─────────────────────────────────────────────────────

#[test]
fn changing_the_identifier_drops_the_on_disk_identity() {
    let mut base = linked();
    base.path = Some("/plans/demo.yaml".to_string());
    let accepted = edit(&base, |d| {
        patch_metadata(d, &from_json(json(r##"{"identifier": "renamed"}"##)))
    })
    .unwrap();
    assert_eq!(accepted.doc.identifier, "renamed");
    assert!(
        accepted.doc.path.is_none(),
        "a new identifier must not keep the old file's identity"
    );
}

#[test]
fn setting_one_finish_mode_clears_the_other() {
    // output → solver
    let accepted = edit(&linked(), |d| {
        patch_metadata(d, &from_json(json(r##"{"finish": {"solver": {"query_to_answer": "q?", "data": {}}}}"##)),
        )
    })
    .unwrap();
    assert!(accepted.doc.solver.is_some());
    assert!(
        accepted.doc.output.is_none(),
        "solver and output are mutually exclusive"
    );

    // and back, then cleared to a silent plan
    let back = edit(&accepted.doc, |d| {
        patch_metadata(d, &from_json(json(r##"{"finish": {"output": {"x": "{{E2.text}}"}}}"##)))
    })
    .unwrap();
    assert!(back.doc.solver.is_none());
    let silent = edit(&back.doc, |d| patch_metadata(d, &from_json(json(r##"{"finish": {}}"##)))).unwrap();
    assert!(silent.doc.solver.is_none() && silent.doc.output.is_none());
}

#[test]
fn an_empty_metadata_patch_is_an_error() {
    let rejected = edit(&linked(), |d| patch_metadata(d, &from_json(json(r##"{}"##))))
        .err()
        .unwrap();
    assert!(plain(&rejected.body)["error"]
        .as_str()
        .unwrap()
        .contains("at least one of"));
}

// ── steps ────────────────────────────────────────────────────────

#[test]
fn add_step_anchors_before_and_after() {
    let step = |id: &str| fill(r##"{"step": {"id": "@@0", "toolName": "t__x", "input": {}}}"##, &[value(&(id))]);
    let appended = edit(&linked(), |d| patch_add_step(d, &from_json(step("E9")))).unwrap();
    assert_eq!(ids(&appended.doc), vec!["E1", "E2", "E9"]);

    let mut before = step("E0");
    before["before"] = json(r##""E1""##);
    let inserted = edit(&linked(), |d| patch_add_step(d, &from_json(before))).unwrap();
    assert_eq!(ids(&inserted.doc), vec!["E0", "E1", "E2"]);

    let mut after = step("E15");
    after["after"] = json(r##""E1""##);
    let middle = edit(&linked(), |d| patch_add_step(d, &from_json(after))).unwrap();
    assert_eq!(ids(&middle.doc), vec!["E1", "E15", "E2"]);
}

#[test]
fn a_step_added_out_of_order_is_rejected_for_referencing_a_later_step() {
    // Inserting before E1 a step that reads {{E1.body}} inverts the
    // dependency — the guard must catch it.
    let patch = json(r##"{"step": {"id": "E0", "toolName": "t__x", "input": {"v": "{{E1.body}}"}}, "before": "E1"}"##);
    let rejected = edit(&linked(), |d| patch_add_step(d, &from_json(patch)))
        .err()
        .unwrap();
    assert!(
        rejected.introduced.iter().any(|p| p.contains("E0")),
        "{:?}",
        rejected.introduced
    );
}

#[test]
fn deleting_an_unreferenced_step_is_fine() {
    let base = doc(r#"
identifier: demo
name: Demo
description: demo plan
steps:
  - id: E1
    tool_name: t__search
    input: { query: x }
  - id: E2
    tool_name: t__log
    input: { msg: hello }
"#);
    let accepted = edit(&base, |d| patch_delete_step(d, &from_json(json(r##"{"id": "E2"}"##)))).unwrap();
    assert_eq!(ids(&accepted.doc), vec!["E1"]);
}

#[test]
fn update_step_replaces_the_whole_input_and_clears_reasoning_on_empty() {
    let accepted = edit(&linked(), |d| {
        patch_update_step(d, &from_json(json(r##"{"id": "E2", "input": {"text": "literal"}, "reasoning": "why"}"##)),
        )
    })
    .unwrap();
    assert_eq!(
        Value::Object(plain_fields(&accepted.doc.steps[1].input)),
        json(r##"{"text": "literal"}"##)
    );
    assert_eq!(accepted.doc.steps[1].reasoning.as_deref(), Some("why"));

    let cleared = edit(&accepted.doc, |d| {
        patch_update_step(d, &from_json(json(r##"{"id": "E2", "reasoning": ""}"##)))
    })
    .unwrap();
    assert_eq!(cleared.doc.steps[1].reasoning, None);
}

#[test]
fn update_step_rejects_a_non_object_input() {
    let rejected = edit(&linked(), |d| {
        patch_update_step(d, &from_json(json(r##"{"id": "E2", "input": "not an object"}"##)))
    })
    .err()
    .unwrap();
    assert!(plain(&rejected.body)["error"]
        .as_str()
        .unwrap()
        .contains("must be a JSON object"));
}

#[test]
fn a_workbench_tool_step_is_rejected() {
    let patch = json(r##"{"step": {"id": "E9", "toolName": "workbench__run_plan", "input": {}}}"##);
    let rejected = edit(&linked(), |d| patch_add_step(d, &from_json(patch)))
        .err()
        .unwrap();
    assert!(
        !rejected.introduced.is_empty(),
        "workbench__ steps must never enter a plan"
    );
}

fn ids(doc: &PlanDoc) -> Vec<&str> {
    doc.steps.iter().map(|s| s.id.as_str()).collect()
}

// ── writing ──────────────────────────────────────────────────────

#[test]
fn write_doc_round_trips_and_is_readable_as_a_plan() {
    let mut file = None;
    write_doc(&linked(), &mut file, false).unwrap();
    let reloaded = read_doc("demo.yaml", &file.unwrap()).unwrap();
    assert_eq!(reloaded.identifier, "demo");
    assert_eq!(reloaded.steps.len(), 2);
}

#[test]
fn written_yaml_uses_the_documented_snake_case_spelling() {
    // `Step` serializes camelCase for the planner's schema; the plan file
    // format is snake_case. A file an agent writes must look like one a
    // human wrote, or `graph plan show` and the docs disagree.
    let yaml = to_yaml(&linked()).unwrap();
    assert!(yaml.contains("tool_name: t__search"), "{yaml}");
    assert!(!yaml.contains("toolName"), "{yaml}");
}

#[test]
fn written_yaml_omits_empty_defaults() {
    // Every one of these would otherwise appear as `exemplars: []` /
    // `reasoning: null` noise in a plan nobody set them on.
    let yaml = to_yaml(&linked()).unwrap();
    for absent in ["exemplars", "requires_servers", "input_schema", "reasoning"] {
        assert!(
            !yaml.contains(absent),
            "{absent} should be omitted:\n{yaml}"
        );
    }
}

#[test]
fn written_yaml_snake_cases_solver_keys() {
    let base = doc(r#"
identifier: demo
name: Demo
description: demo plan
steps:
  - id: E1
    tool_name: t__search
    input: { query: x }
solver:
  query_to_answer: "what does {{E1.body}} say?"
  system_prompt: "be terse"
  data: { body: "{{E1.body}}" }
"#);
    let yaml = to_yaml(&base).unwrap();
    assert!(yaml.contains("query_to_answer:"), "{yaml}");
    assert!(yaml.contains("system_prompt:"), "{yaml}");
    assert!(!yaml.contains("queryToAnswer"), "{yaml}");
    assert!(!yaml.contains("systemPrompt"), "{yaml}");
}

#[test]
fn written_yaml_snake_cases_an_agent_steps_input_keys() {
    // The `agent` spec's own keys are part of the plan file format, so they
    // are written in the file's spelling like every other field.
    let base = doc(r#"
identifier: demo
name: Demo
description: demo plan
steps:
  - id: E1
    tool_name: agent
    input:
      prompt: do the thing
      maxIterations: 3
      systemPrompt: be terse
      outputSchema: { type: object, properties: { ok: { type: boolean } } }
"#);
    let yaml = to_yaml(&base).unwrap();
    assert!(yaml.contains("max_iterations: 3"), "{yaml}");
    assert!(yaml.contains("system_prompt: be terse"), "{yaml}");
    assert!(yaml.contains("output_schema:"), "{yaml}");
    assert!(yaml.contains("tool_name: agent"), "{yaml}");
    assert!(!yaml.contains("maxIterations"), "{yaml}");
    assert!(!yaml.contains("systemPrompt"), "{yaml}");
    assert!(!yaml.contains("outputSchema"), "{yaml}");
}

#[test]
fn an_output_schemas_own_property_names_are_left_alone() {
    // The key is the plan's; the *value* is a JSON Schema whose property
    // names belong to whoever consumes the agent's output. Descending into
    // it would silently rewrite the contract the agent is held to.
    let base = doc(r#"
identifier: demo
name: Demo
description: demo plan
steps:
  - id: E1
    tool_name: agent
    input:
      prompt: do the thing
      outputSchema:
        type: object
        properties:
          reviewStatus: { type: string }
          maxIterations: { type: integer }
"#);
    let yaml = to_yaml(&base).unwrap();
    assert!(yaml.contains("output_schema:"), "{yaml}");
    assert!(yaml.contains("reviewStatus:"), "{yaml}");
    // The nested property merely *named* like a spec key stays untouched.
    assert!(yaml.contains("maxIterations:"), "{yaml}");
}

#[test]
fn an_ordinary_tools_input_keeps_its_own_camel_case_keys() {
    // `input` is free-form for every non-control tool: a real MCP argument
    // may be spelled camelCase, or named like a control-step body key.
    let base = doc(r#"
identifier: demo
name: Demo
description: demo plan
steps:
  - id: E1
    tool_name: t__search
    input:
      teamId: ENG
      outputSchema: passthrough
      do: something
      then: later
"#);
    let yaml = to_yaml(&base).unwrap();
    for untouched in ["teamId:", "outputSchema: passthrough", "do:", "then:"] {
        assert!(yaml.contains(untouched), "{untouched} rewritten:\n{yaml}");
    }
}

#[test]
fn written_yaml_snake_cases_inside_control_step_bodies() {
    // A body is a step list or a single call, and either can hold an
    // `agent`. Renaming only top-level steps would leak the planner's
    // spelling into every branch.
    let base = doc(r#"
identifier: demo
name: Demo
description: demo plan
steps:
  - id: E1
    tool_name: decide
    input:
      if: { value: "{{E0.count}}", op: gt, to: 0 }
      then:
        toolName: t__search
        input: { query: x }
      else:
        - id: B1
          toolName: agent
          input:
            prompt: summarize
            maxIterations: 2
            outputSchema: { type: object }
  - id: E2
    tool_name: map
    input:
      over: "{{E1.results}}"
      do:
        toolName: agent
        input:
          prompt: "check {{item}}"
          outputSchema: { type: object }
"#);
    let yaml = to_yaml(&base).unwrap();
    assert!(!yaml.contains("toolName"), "{yaml}");
    assert!(!yaml.contains("maxIterations"), "{yaml}");
    assert!(!yaml.contains("outputSchema"), "{yaml}");
    assert_eq!(yaml.matches("tool_name: agent").count(), 2, "{yaml}");
    assert!(yaml.contains("tool_name: t__search"), "{yaml}");
    assert!(yaml.contains("max_iterations: 2"), "{yaml}");
}

#[test]
fn the_json_shape_spells_fields_like_the_file_does() {
    // `plan show --json` describes a file on disk; a caller parsing the
    // envelope and a human reading the file must not see two spellings.
    let base = doc(r#"
identifier: demo
name: Demo
description: demo plan
steps:
  - id: E1
    tool_name: agent
    input:
      prompt: do the thing
      maxIterations: 3
      outputSchema: { type: object }
solver:
  query_to_answer: what happened?
  data: {}
"#);
    let json = compact(&to_json(&base).unwrap());
    assert!(json.contains("\"tool_name\""), "{json}");
    assert!(json.contains("\"max_iterations\""), "{json}");
    assert!(json.contains("\"output_schema\""), "{json}");
    assert!(json.contains("\"query_to_answer\""), "{json}");
    assert!(!json.contains("toolName"), "{json}");
    assert!(!json.contains("maxIterations"), "{json}");
    assert!(!json.contains("queryToAnswer"), "{json}");
}

#[test]
fn a_camel_case_plan_file_still_loads() {
    // The planner's spelling stays accepted on the way in, so a plan
    // authored before the file format settled keeps working.
    let loaded = read_doc(
        "legacy.yaml",
        r#"
identifier: legacy
name: Legacy
description: authored in the planner's spelling
steps:
  - id: E1
    toolName: agent
    input:
      prompt: do the thing
      maxIterations: 3
      outputSchema: { type: object }
solver:
  queryToAnswer: what happened?
  systemPrompt: be terse
  data: {}
"#,
    )
    .unwrap();
    assert_eq!(loaded.steps[0].tool_name, "agent");
    assert_eq!(
        loaded.solver.as_ref().unwrap().query_to_answer,
        "what happened?"
    );
    // …and rewriting it normalizes the file to the documented spelling.
    let yaml = to_yaml(&loaded).unwrap();
    assert!(!yaml.contains("toolName"), "{yaml}");
    assert!(!yaml.contains("queryToAnswer"), "{yaml}");
    assert!(!yaml.contains("maxIterations"), "{yaml}");
}

#[test]
fn a_canonical_file_round_trips_byte_for_byte() {
    // Editing one field must not churn the rest of a hand-authored file.
    let original = "identifier: demo\nname: Demo\ndescription: demo plan\nsteps:\n\
                    - id: E1\n  tool_name: t__search\n  input:\n    query: x\n";
    let parsed = doc(original);
    assert_eq!(
        to_yaml(&parsed).unwrap(),
        original,
        "a canonical plan file should survive a parse/serialize cycle unchanged"
    );
}

#[test]
fn write_doc_refuses_to_overwrite_a_different_plan() {
    let mut file = None;
    let mut other = linked();
    other.identifier = "someone_else".to_string();
    write_doc(&other, &mut file, false).unwrap();

    let error = write_doc(&linked(), &mut file, false).unwrap_err();
    assert!(
        matches!(&error, WriteError::IdentityMismatch { existing, .. } if existing == "someone_else"),
        "got {error:?}"
    );
    assert_eq!(
        on_disk_identifier(file.as_ref().unwrap()).unwrap(),
        "someone_else",
        "the refused write must not have touched the file"
    );
    // …and force overrides it.
    write_doc(&linked(), &mut file, true).unwrap();
    assert_eq!(on_disk_identifier(&file.unwrap()).unwrap(), "demo");
}

#[test]
fn write_doc_overwrites_an_unparseable_file() {
    // Garbage on disk is not a plan, so the write can't lose one.
    let mut file = Some("\t: not: valid: yaml: [".to_string());
    write_doc(&linked(), &mut file, false).unwrap();
    assert_eq!(on_disk_identifier(&file.unwrap()).unwrap(), "demo");
}

#[test]
fn target_path_prefers_the_source_file() {
    let mut d = linked();
    d.path = Some("/elsewhere/custom-name.yaml".to_string());
    assert_eq!(
        target_path(&d, Some(("/plans/demo.yaml".to_string(), false))).unwrap(),
        "/elsewhere/custom-name.yaml",
        "a loaded plan is written back where it came from, not renamed"
    );
}

#[test]
fn target_path_derives_from_the_identifier_and_will_not_clobber() {
    let d = linked();
    assert_eq!(file_name(&d), "demo.yaml");
    let expected = format!("/plans/{}", file_name(&d));
    assert_eq!(target_path(&d, Some((expected.clone(), false))).unwrap(), expected);

    assert!(matches!(
        target_path(&d, Some((expected, true))),
        Err(WriteError::Exists { .. })
    ));
    assert!(matches!(target_path(&d, None), Err(WriteError::NoPlansDir)));
}

// ── planner merge ────────────────────────────────────────────────

#[test]
fn merging_into_an_existing_doc_keeps_its_identity() {
    let mut existing = linked();
    existing.exemplars = vec!["an example".to_string()];
    let output = PlannerOutput {
        plan: vec![Step {
            id: "E1".to_string(),
            tool_name: "t__new".to_string(),
            input: Fields::new(),
            reasoning: None,
        }],
        solver_data: SolverData::default(),
    };
    let merged = merge_planner_output(Some(existing), "a totally different goal", output);
    assert_eq!(merged.identifier, "demo", "identity survives a revision");
    assert_eq!(merged.exemplars, vec!["an example".to_string()]);
    assert_eq!(merged.steps.len(), 1);
    assert!(
        merged.solver.is_none() && merged.output.is_some(),
        "an existing `output` finish is preserved, not replaced by a solver"
    );
}

#[test]
fn a_fresh_draft_takes_a_stated_name_over_the_goal_prose() {
    let output = PlannerOutput {
        plan: Vec::new(),
        solver_data: SolverData::default(),
    };
    let fresh = merge_planner_output(
        None,
        "summarize the sprint, named \"sprint_digest\"",
        output,
    );
    assert_eq!(fresh.identifier, "sprint_digest");
    assert_eq!(fresh.name, "sprint_digest");
    assert_eq!(
        fresh.description, "summarize the sprint, named \"sprint_digest\"",
        "the goal is kept verbatim as the description — it is the routing signal"
    );
}

#[test]
fn a_fresh_draft_falls_back_to_a_slug_of_the_goal() {
    let output = PlannerOutput {
        plan: Vec::new(),
        solver_data: SolverData::default(),
    };
    let fresh = merge_planner_output(None, "Summarize the sprint!", output);
    assert_eq!(fresh.identifier, "summarize_the_sprint");
    assert_eq!(fresh.name, "Summarize the sprint!");
}

#[test]
fn stated_names_in_goals_set_the_draft_identity() {
    let output = || PlannerOutput {
        plan: Vec::new(),
        solver_data: SolverData::default(),
    };

    // The incident goal: the name is stated, quoted, after filler.
    let goal = r#"Build a Linear-workbench plan named something like "the_goat" that pulls sprint data"#;
    let fresh = merge_planner_output(None, goal, output());
    assert_eq!(fresh.identifier, "the_goat");
    assert_eq!(fresh.name, "the_goat");

    // Unquoted single-token names work too.
    let fresh = merge_planner_output(
        None,
        "make a plan called sprint_report, for the team",
        output(),
    );
    assert_eq!(fresh.identifier, "sprint_report");
    assert_eq!(fresh.name, "sprint_report");

    // "renamed" is not a naming marker: prose fallback.
    let fresh = merge_planner_output(None, "List files renamed last week", output());
    assert_eq!(fresh.identifier, "list_files_renamed_last_week");
}
