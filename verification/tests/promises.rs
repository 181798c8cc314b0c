//! What the documentation promises where a simpler reading would go wrong.

use graph_core::json::{from_serde, parse_json};
use graph_core::pipeline::ask::AskSpec;
use graph_core::pipeline::authoring::to_yaml;
use graph_core::pipeline::catalog::{plan_refs, resolve_plan_tools_deep, ToolCatalog};
use graph_core::pipeline::condition::{Condition, Op};
use graph_core::pipeline::doc::{load_doc, DocError, PlanDoc};
use graph_core::pipeline::exit::{ExitSpec, ExitStatus};
use graph_core::pipeline::naming::{identifier_from, stated_name};
use graph_core::pipeline::plan::{PlannerOutput, Step};
use graph_core::template::parser::{exact_var, parse, Node, Path, Seg};
use graph_core::template::{
    referenced_paths, referenced_roots, render_str, render_value, rewrite_root, RenderError, Roots,
};
use graph_core::value::{Data, Fields};

/// What YAML text holds, as JSON.
fn parse_yaml(text: &str) -> Result<Data, String> {
    serde_yaml::from_str::<serde_json::Value>(text).map(from_serde).map_err(|e| e.to_string())
}

/// Takes in a plan file, read as JSON.
fn read_doc(path: &str, raw: &str) -> Result<PlanDoc, DocError> {
    load_doc(path, parse_yaml(raw).and_then(|v| PlanDoc::from_value(&v)))
}

fn data(text: &str) -> Data {
    parse_json(text).unwrap()
}

fn fields(text: &str) -> Fields {
    match data(text) {
        Data::Object(fields) => fields,
        _ => panic!("not an object"),
    }
}

fn step(id: &str, tool: &str) -> Step {
    Step {
        id: id.to_string(),
        tool_name: tool.to_string(),
        input: Fields::new(),
        reasoning: None,
    }
}

// ── Templates ────────────────────────────────────────────────────────────

#[test]
fn a_lone_tag_is_the_whole_template() {
    let path = Path::Data(vec![Seg::Key("a".to_string())]);
    assert_eq!(exact_var("{{a}}"), Some(Path::Data(vec![Seg::Key("a".to_string())])));
    assert_eq!(exact_var("{{ a }}"), Some(path));
    for template in ["{{a}}}", "{{a}} and }}", "{{a}}{{a}}", " {{a}}", "{{#a}}{{/a}}", "{{}}", "a", ""] {
        assert_eq!(exact_var(template), None, "{template}");
    }
    assert_eq!(
        parse("{{a}}}").unwrap(),
        [
            Node::Var(Path::Data(vec![Seg::Key("a".to_string())])),
            Node::Text("}".to_string()),
        ]
    );
    let map = fields(r#"{"a": 7}"#);
    let roots = Roots::new(&map);
    assert_eq!(render_value("{{a}}", &roots).unwrap(), data("7"));
    assert_eq!(render_value("{{a}}}", &roots).unwrap(), data("\"7}\""));
    assert_eq!(render_value("{{a}} and }}", &roots).unwrap(), data("\"7 and }}\""));
}

#[test]
fn a_dotted_path_is_strict_in_a_section_too() {
    let map = fields(r#"{"E0": {"items": [{"a": {"b": 1}}]}}"#);
    let roots = Roots::new(&map);
    match render_str("{{#E0.items}}{{E9.x}}{{/E0.items}}", &roots) {
        Err(RenderError::MissingStep { step, available }) => {
            assert_eq!(step, "E9");
            assert_eq!(available, ["E0"]);
        }
        other => panic!("{other:?}"),
    }
    // What the item has is found on it, and a bare name that it lacks is empty.
    assert_eq!(render_str("{{#E0.items}}{{a.b}}{{/E0.items}}", &roots).unwrap(), "1");
    assert_eq!(render_str("{{#E0.items}}<{{x}}>{{/E0.items}}", &roots).unwrap(), "<>");
}

#[test]
fn a_bare_key_in_a_section_reads_the_item() {
    let map = fields(
        r#"{"E0": {"items": [{"summary": "own", "tags": ["a"]}, {}]}, "summary": "root", "tags": ["b"]}"#,
    );
    let roots = Roots::new(&map);
    assert_eq!(
        render_str(
            "{{#E0.items}}<{{summary}}{{#tags}}!{{/tags}}>{{/E0.items}} {{summary}}",
            &roots
        )
        .unwrap(),
        "<own!><> root"
    );
    // Without an item there is only the root.
    assert_eq!(render_str("{{#summary}}{{summary}}{{/summary}}", &roots).unwrap(), "root");
}

#[test]
fn renaming_back_gives_the_text() {
    let before = "{{E0.a}} {{#E0.rows}}{{x}}{{E0.b}}{{/E0.rows}}{{^E0}}no{{/E0}} {{E1.E0}}";
    let after = rewrite_root(before, "E0", "issues");
    assert_ne!(after, before);
    assert_eq!(rewrite_root(&after, "issues", "E0"), before);
    // White space inside a tag that is renamed is not kept.
    assert_eq!(rewrite_root(&rewrite_root("{{ E0 }}", "E0", "x"), "x", "E0"), "{{E0}}");
}

#[test]
fn a_renamed_template_renders_the_same() {
    let before = "{{E0.n}}: {{#E0.rows}}{{name}}/{{E0.n}} {{/E0.rows}}{{^E0.none}}-{{/E0.none}}{{E1}}";
    let after = rewrite_root(before, "E0", "issues");
    let old = fields(r#"{"E0": {"n": 2, "rows": [{"name": "a"}, {"name": "b"}]}, "E1": true}"#);
    let new = fields(r#"{"issues": {"n": 2, "rows": [{"name": "a"}, {"name": "b"}]}, "E1": true}"#);
    let text = render_str(before, &Roots::new(&old)).unwrap();
    assert_eq!(text, "2: a/2 b/2 -true");
    assert_eq!(render_str(&after, &Roots::new(&new)).unwrap(), text);
}

#[test]
fn a_brace_at_the_end_of_a_tag_falls_to_the_text() {
    let before = "{{#E0.a} }}{{E0.b}}{{/E0.a} }} {{E1}} {{x}}";
    let after = rewrite_root(before, "E0", "x");
    assert_eq!(after, "{{#x.a}}}{{x.b}}{{/x.a}}} {{E1}} {{x}}");
    assert_eq!(referenced_roots(before).unwrap(), ["E0", "E1", "x"]);
    assert_eq!(referenced_roots(&after).unwrap(), ["x", "E1"]);
    // Nothing is left of a part that is a lone brace.
    let lone = rewrite_root("{{E0.} }}", "E0", "x");
    assert!(referenced_roots("{{E0.} }}").is_ok());
    assert_eq!(lone, "{{x.}}}");
    assert!(referenced_roots(&lone).is_err());
}

#[test]
fn every_root_is_the_beginning_of_a_path() {
    let template = "{{E0.a.0}}{{#E1.rows}}{{x.y}}{{@index}}{{name}}{{E0.a.0}}{{/E1.rows}}{{E2}}";
    let roots = referenced_roots(template).unwrap();
    let paths = referenced_paths(template).unwrap();
    assert_eq!(roots, ["E0", "E1", "x", "E2"]);
    for root in &roots {
        assert!(paths.iter().any(|p| p.split('.').next() == Some(root.as_str())), "{root}");
    }
    for (i, path) in paths.iter().enumerate() {
        assert!(!path.is_empty() && !path.starts_with('@'), "{path}");
        assert!(!paths[..i].contains(path), "{path}");
    }
    for broken in ["{{a", "{{#a}}", "{{}}", "{{a..b}}"] {
        assert!(referenced_roots(broken).is_err(), "{broken}");
        assert!(referenced_paths(broken).is_err(), "{broken}");
    }
}

#[test]
fn a_template_written_anew_reads_as_it_did() {
    let loose = "x {{E0.a.0}} {{#E1.rows}}{{@index}}:{{name.length}}{{/E1.rows}}{{^ E2 }}}{{/E2}}";
    let written =
        "x {{ E0.a.0 }} {{# E1.rows }}{{ @index }}:{{ name.length }}{{/ E1.rows }}{{^ E2 }}}{{/ E2 }}";
    assert_eq!(parse(written).unwrap(), parse(loose).unwrap());
}

// ── Plans that call plans ────────────────────────────────────────────────

#[test]
fn a_plan_that_is_called_twice_is_one_reference() {
    let plan = vec![
        step("E0", "plan__a"),
        step("E1", "plan__b"),
        step("E2", "plan__a"),
        step("E3", "user__git_log"),
    ];
    assert_eq!(plan_refs(&plan), ["a", "b"]);
    assert_eq!(plan_refs(&vec![step("E0", "plan__a"), step("E1", "plan__a")]), ["a"]);
}

fn calling(identifier: &str, tools: &[&str]) -> PlanDoc {
    let mut text = format!("identifier: {identifier}\nname: N\ndescription: d\nsteps:\n");
    for (i, tool) in tools.iter().enumerate() {
        text.push_str(&format!("  - id: E{i}\n    tool_name: {tool}\n    input: {{}}\n"));
    }
    PlanDoc::from_value(&parse_yaml(&text).unwrap()).unwrap()
}

#[test]
fn every_plan_that_is_reached_is_reported_once() {
    let catalog = ToolCatalog {
        builtin_tools: vec![],
        user_tools: vec![],
        plans: vec!["a".to_string(), "b".to_string(), "c".to_string()],
        mcp_servers: vec![],
    };
    let a = calling("a", &["plan__b", "plan__c", "plan__b"]);
    let b = calling("b", &["plan__c", "plan__a", "user__gone"]);
    let c = calling("c", &["plan__b", "user__lost"]);
    let other = calling("other", &["user__never"]);
    let docs = vec![a.copy(), b, c, other];
    let check = resolve_plan_tools_deep(&a, &docs, &catalog);
    assert_eq!(check.errors.len(), 2, "{:?}", check.errors);
    assert!(check.errors[0].starts_with("plan 'c': "), "{}", check.errors[0]);
    assert!(check.errors[0].contains("user__lost"));
    assert!(check.errors[1].starts_with("plan 'b': "), "{}", check.errors[1]);
    assert!(check.errors[1].contains("user__gone"));
}

#[test]
fn a_question_is_filed_in_the_files_spelling() {
    let text = "identifier: p\nname: N\ndescription: d\nsteps:\n  - id: E0\n    toolName: ask\n    input:\n      prompt: p\n      outputSchema: { type: object, properties: { outputSchema: { type: string } } }\n      whenUnanswered: default\n      default: { outputSchema: x }\n";
    let doc = PlanDoc::from_value(&parse_yaml(text).unwrap()).unwrap();
    let yaml = to_yaml(&doc).unwrap();
    assert!(yaml.contains("    when_unanswered: default\n"), "{yaml}");
    assert!(yaml.contains("    output_schema:\n"), "{yaml}");
    assert!(!yaml.contains("whenUnanswered"), "{yaml}");
    // The fields of an answer are the author's.
    assert!(yaml.contains("        outputSchema:\n"), "{yaml}");
    assert!(yaml.contains("      outputSchema: x\n"), "{yaml}");
    let again = read_doc("p.yaml", &yaml).unwrap();
    assert_eq!(to_yaml(&again).unwrap(), yaml);
}

// ── Names ────────────────────────────────────────────────────────────────

#[test]
fn a_quoted_name_wins_over_the_next_word() {
    let named = |goal: &str| stated_name(goal);
    assert_eq!(named("a plan named digest for \"acme\""), Some("acme".to_string()));
    assert_eq!(named("a plan named digest for acme"), Some("digest".to_string()));
    assert_eq!(named("\"acme\" needs a report"), None);
}

#[test]
fn an_identifier_is_made_of_letters_digits_and_single_underscores() {
    for goal in ["  Hello, World  ", "Ünïcode — ¿qué?", "a__b", "9 lives", "x"] {
        let id = identifier_from(goal);
        assert!(!id.is_empty() && id.len() <= 40, "{id}");
        assert!(
            id.chars().all(|c| c.is_ascii_lowercase() || c.is_ascii_digit() || c == '_'),
            "{id}"
        );
        assert!(!id.starts_with('_') && !id.contains("__"), "{id}");
        assert_eq!(identifier_from(&id), id);
    }
    assert_eq!(identifier_from("¿¡!"), "draft_plan");
}

// ── Records ──────────────────────────────────────────────────────────────

#[test]
fn a_misplaced_text_is_shown_in_quotes() {
    let err = Step::from_value(&data(r#"{"id": "E0", "toolName": "t", "input": "a \"b\"\n"}"#));
    assert_eq!(
        err.unwrap_err(),
        r#"invalid type: string "a \"b\"\n", expected a map"#
    );
}

#[test]
fn a_misplaced_fraction_is_shown_with_its_point() {
    let err = Step::from_value(&data(r#"{"id": 2.0, "toolName": "t", "input": {}}"#));
    assert_eq!(err.unwrap_err(), "invalid type: floating point `2.0`, expected a string");
}

#[test]
fn two_names_are_told_apart_by_or() {
    let err = ExitSpec::from_value(&data(r#"{"status": "done"}"#)).unwrap_err();
    assert_eq!(err, "unknown variant `done`, expected `success` or `error`");
}

#[test]
fn an_unknown_field_is_shown_every_spelling() {
    let err = AskSpec::from_input(&fields(r#"{"prompt": "p", "outputSchema": {}, "zz": 1}"#))
        .unwrap_err();
    assert!(
        err.contains(
            "unknown field `zz`, expected one of `prompt`, `outputSchema`, `output_schema`, \
             `whenUnanswered`, `when_unanswered`, `default`"
        ),
        "{err}"
    );
}

#[test]
fn the_first_spelling_is_read_before_the_second_is_refused() {
    let ill = Step::from_value(&data(
        r#"{"id": "E0", "input": {}, "toolName": 1, "tool_name": "t"}"#,
    ));
    assert_eq!(ill.unwrap_err(), "invalid type: integer `1`, expected a string");
    let both = Step::from_value(&data(
        r#"{"id": "E0", "input": {}, "toolName": "t", "tool_name": "t"}"#,
    ));
    assert_eq!(both.unwrap_err(), "duplicate field `toolName`");
}

#[test]
fn a_record_may_be_written_as_a_list() {
    let step = Step::from_value(&data(r#"["E0", "user__a", {"n": 1}]"#)).unwrap();
    assert_eq!(step.id, "E0");
    assert_eq!(step.tool_name, "user__a");
    assert!(Data::Object(step.input.copy()) == data(r#"{"n": 1}"#));
    assert_eq!(step.reasoning, None);
    let whole = Step::from_value(&data(r#"["E0", "user__a", {}, "why"]"#)).unwrap();
    assert_eq!(whole.reasoning, Some("why".to_string()));
    let condition = Condition::from_value(&data(r#"[1, "gt", 0]"#)).unwrap();
    assert!(condition.value == data("1") && condition.to == data("0"));
    assert_eq!(condition.op, Op::Gt);
    let exit = ExitSpec::from_value(&data(r#"[["a", "eq", "a"], null, "success", "m"]"#)).unwrap();
    assert_eq!(exit.when.unwrap().op, Op::Eq);
    assert_eq!(exit.message, Some("m".to_string()));
    let planned = PlannerOutput::from_value(&data(r#"[[["E0", "t", {}]], ["q"]]"#)).unwrap();
    assert_eq!(planned.plan.len(), 1);
    assert_eq!(planned.solver_data.query_to_answer, "q");
}

#[test]
fn a_list_must_give_the_fields_of_its_record() {
    let short = Step::from_value(&data(r#"["E0", "user__a"]"#));
    assert_eq!(short.unwrap_err(), "invalid length 2, expected struct Step with 4 elements");
    let long = Step::from_value(&data(r#"["E0", "user__a", {}, null, 1]"#));
    assert_eq!(long.unwrap_err(), "invalid length 5, expected fewer elements in array");
    let ill = Step::from_value(&data(r#"["E0", 1, {}]"#));
    assert_eq!(ill.unwrap_err(), "invalid type: integer `1`, expected a string");
    let neither = Step::from_value(&data("1"));
    assert_eq!(neither.unwrap_err(), "invalid type: integer `1`, expected struct Step");
    let gate = ExitSpec::from_value(&data("[null]"));
    assert_eq!(gate.unwrap_err(), "invalid length 1, expected struct ExitSpec with 6 elements");
}

#[test]
fn a_choice_may_be_written_as_a_key() {
    let condition = Condition::from_value(&data(r#"{"value": 1, "op": {"lt": null}, "to": 2}"#));
    assert_eq!(condition.unwrap().op, Op::Lt);
    let exit = ExitSpec::from_value(&data(r#"{"when": [1, "eq", 1], "status": {"error": null}}"#));
    assert_eq!(exit.unwrap().status, ExitStatus::Error);
    let op = |text: &str| {
        Condition::from_value(&data(&format!(r#"{{"value": 1, "op": {text}}}"#))).unwrap_err()
    };
    assert_eq!(op("{}"), "invalid value: map, expected map with a single key");
    assert_eq!(
        op(r#"{"lt": null, "gt": null}"#),
        "invalid value: map, expected map with a single key"
    );
    assert_eq!(op(r#"{"lt": 1}"#), "invalid type: integer `1`, expected unit");
    assert!(op(r#"{"near": null}"#).starts_with("unknown variant `near`, expected one of `eq`"));
}
