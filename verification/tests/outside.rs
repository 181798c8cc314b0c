//! What the outside crates do behind the library: numbers, JSON, YAML, schemas.

use graph_core::format::{declared_version, stamp, upgrade, FormatError, Kind};
use graph_core::json::{compact, from_serde, parse_json, pretty, to_serde};
use graph_core::pipeline::authoring::{on_disk_identifier, to_yaml};
use graph_core::pipeline::condition::{eval_condition, Condition, Op};
use graph_core::pipeline::doc::{load_doc, DocError, PlanDoc};
use graph_core::pipeline::schema::{
    describe_refusal, schema_mismatch, schema_problem, value_problems, Refusal,
};
use graph_core::template::{render_str, render_value, Roots};
use graph_core::text::{first_chars, shorten};
use graph_core::value::{Data, Fields, Quantity};
use serde_yaml::Value as Yaml;

/// What YAML text holds, as JSON.
fn parse_yaml(text: &str) -> Result<Data, String> {
    serde_yaml::from_str::<serde_json::Value>(text).map(from_serde).map_err(|e| e.to_string())
}

/// Takes in a plan file, read as JSON.
fn read_doc(path: &str, raw: &str) -> Result<PlanDoc, DocError> {
    load_doc(path, parse_yaml(raw).and_then(|v| PlanDoc::from_value(&v)))
}

fn data(text: &str) -> Data {
    parse_json(text).unwrap()
}

fn fields(text: &str) -> Fields {
    match data(text) {
        Data::Object(fields) => fields,
        _ => panic!("not an object"),
    }
}

fn condition(value: &str, op: Op, to: &str) -> Result<bool, String> {
    eval_condition(&Condition { value: data(value), op, to: data(to) })
}

// ── Numbers ──────────────────────────────────────────────────────────────

#[test]
fn fractions_print_as_json_prints_them() {
    let roots = fields(r#"{"input": {"x": 1.50, "big": 1e21, "small": -0.0}}"#);
    let roots = Roots::new(&roots);
    assert_eq!(render_str("{{input.x}}|{{input.big}}|{{input.small}}", &roots).unwrap(), "1.5|1e+21|-0.0");
    assert_eq!(compact(&data("[1.50, 2]")), "[1.5,2]");
}

#[test]
fn a_copied_fraction_is_the_same_fraction() {
    let value = data("2.25");
    assert!(value.copy().same(&value));
    assert_eq!(compact(&value.copy()), "2.25");
    match value {
        Data::Num(Quantity::Float(f)) => assert_eq!(compact(&Data::Num(Quantity::Float(f.copy()))), "2.25"),
        other => panic!("{other:?}"),
    }
}

#[test]
fn integers_keep_their_whole_range() {
    let text = format!("[{},{},0,-1]", u64::MAX, i64::MIN);
    let value = data(&text);
    assert_eq!(compact(&value), text);
    let Data::List(items) = &value else { panic!("not a list") };
    assert!(matches!(items[0], Data::Num(Quantity::Unsigned(u64::MAX))));
    assert!(matches!(items[1], Data::Num(Quantity::Negative(i64::MIN))));
}

#[test]
fn numbers_compare_across_kinds() {
    assert_eq!(condition("2.5", Op::Gt, "2"), Ok(true));
    assert_eq!(condition("2", Op::Gt, "2.5"), Ok(false));
    assert_eq!(condition("2.5", Op::Lt, "2.5"), Ok(false));
    assert_eq!(condition("2.5", Op::Lte, "2.5"), Ok(true));
    assert_eq!(condition("-1.5", Op::Gte, "-2"), Ok(true));
    assert_eq!(condition("0.0", Op::Eq, "-0.0"), Ok(true));
    assert_eq!(condition("1", Op::Eq, "1.0"), Ok(false));
    assert_eq!(condition("18446744073709551615", Op::Gt, "-9223372036854775808"), Ok(true));
}

// ── JSON ─────────────────────────────────────────────────────────────────

#[test]
fn json_is_read_and_printed() {
    let value = data(" {\"b\": [1, null, \"x\\n\"], \"a\": {\"c\": true}} ");
    assert_eq!(compact(&value), r#"{"a":{"c":true},"b":[1,null,"x\n"]}"#);
    assert_eq!(pretty(&data(r#"{"a": [1]}"#)), "{\n  \"a\": [\n    1\n  ]\n}");
    assert_eq!(compact(&data(r#"{"k": 1, "k": 2}"#)), r#"{"k":2}"#);
}

#[test]
fn what_is_not_json_is_refused() {
    for text in ["", "{", "[1,]", "nul", "{\"a\" 1}"] {
        assert!(parse_json(text).is_err(), "{text}");
    }
}

#[test]
fn values_cross_to_serde_and_back() {
    let text = r#"{"a":[1,-2,2.5,"s",null,true],"b":{}}"#;
    let value: serde_json::Value = serde_json::from_str(text).unwrap();
    let inside = from_serde(value.clone());
    assert_eq!(compact(&inside), text);
    assert_eq!(to_serde(&inside), value);
}

// ── Schemas ──────────────────────────────────────────────────────────────

#[test]
fn a_schema_must_compile() {
    assert_eq!(schema_problem(&data(r#"{"type": "object"}"#)), None);
    assert!(schema_problem(&data(r#"{"type": 5}"#)).is_some());
}

#[test]
fn a_refused_schema_is_refused_for_a_reason() {
    let unknown = r##"{"$ref": "#/$defs/none"}"##;
    assert_eq!(
        schema_problem(&data(unknown)).unwrap(),
        "Pointer '/$defs/none' does not exist",
    );
    let outside = r#"{"anyOf": [{"$ref": "https://a.test/x"}, {"$ref": "https://b.test/y"}]}"#;
    assert_eq!(
        schema_problem(&data(outside)).unwrap(),
        "it refers to a document that is not part of it",
    );
    assert_eq!(describe_refusal(Refusal::Uncompilable), "it cannot be compiled");
    assert_eq!(describe_refusal(Refusal::Invalid("why".to_string())), "why");
}

#[test]
fn values_are_held_against_a_schema() {
    let schema = data(r#"{"type": "object", "required": ["a"], "properties": {"a": {"type": "integer"}}}"#);
    assert_eq!(value_problems(&schema, &data(r#"{"a": 1}"#)), Some(vec![]));
    let problems = value_problems(&schema, &data(r#"{"a": "x"}"#)).unwrap();
    assert_eq!(problems.len(), 1);
    assert!(problems[0].contains("is not of type \"integer\""), "{problems:?}");
    let problems = value_problems(&schema, &data("{}")).unwrap();
    assert!(problems[0].contains("\"a\" is a required property"), "{problems:?}");
    assert_eq!(value_problems(&data(r#"{"type": 5}"#), &data("1")), None);
}

#[test]
fn a_mismatch_says_what_is_wrong() {
    let schema = data(r#"{"type": "string"}"#);
    assert_eq!(schema_mismatch(&data("\"x\""), &schema), None);
    let problem = schema_mismatch(&data("1"), &schema).unwrap();
    assert!(problem.contains("is not of type \"string\""), "{problem}");
}

// ── YAML ─────────────────────────────────────────────────────────────────

const DOC: &str = "identifier: a\nname: A\ndescription: d\nsteps:\n- id: E0\n  tool_name: t__x\n  input: {n: 1.5, deep: [1, {k: true}], nothing: null}\n";

fn doc() -> PlanDoc {
    read_doc("a.yaml", DOC).unwrap()
}

#[test]
fn a_document_is_printed_with_all_its_values() {
    let yaml = to_yaml(&doc()).unwrap();
    assert_eq!(
        yaml,
        "identifier: a\nname: A\ndescription: d\nsteps:\n- id: E0\n  tool_name: t__x\n  input:\n    deep:\n    - 1\n    - k: true\n    n: 1.5\n    nothing: null\n"
    );
    let again = read_doc("a.yaml", &yaml).unwrap();
    assert!(again == PlanDoc { path: again.path.clone(), ..doc() });
}

#[test]
fn a_file_is_identified_by_what_it_holds() {
    assert_eq!(on_disk_identifier("identifier: here\n"), Some("here".to_string()));
    assert_eq!(on_disk_identifier("identifier: 5\n"), None);
    assert_eq!(on_disk_identifier("name: x\n"), None);
    assert_eq!(on_disk_identifier("- a\n"), None);
    assert_eq!(on_disk_identifier(": [\n"), None);
    assert_eq!(on_disk_identifier("!plan {identifier: tagged}\n"), Some("tagged".to_string()));
}

#[test]
fn a_version_is_read_and_taken_out() {
    let read = |text: &str| serde_yaml::from_str::<Yaml>(text).unwrap();
    assert_eq!(declared_version(&read("version: 1\na: 2\n")), Ok(Some(1)));
    assert_eq!(declared_version(&read("a: 2\n")), Ok(None));
    assert_eq!(declared_version(&read("!plan {version: 3}\n")), Ok(Some(3)));
    for text in ["version: one\n", "version: -1\n", "version: 1.5\n", "version: 4294967296\n"] {
        assert!(declared_version(&read(text)).is_err(), "{text}");
    }
    let mut value = read("a: 2\nversion: 1\nb: 3\n");
    assert!(upgrade(Kind::Plan, &mut value).is_ok());
    assert_eq!(serde_yaml::to_string(&value).unwrap(), "a: 2\nb: 3\n");
}

#[test]
fn a_stamp_stands_before_everything_else() {
    let mut value: Yaml = serde_yaml::from_str("b: 1\na: 2\nversion: 7\n").unwrap();
    stamp(Kind::Plan, &mut value);
    assert_eq!(serde_yaml::to_string(&value).unwrap(), "version: 1\nb: 1\na: 2\n");
    let before = value.clone();
    stamp(Kind::Plan, &mut value);
    assert_eq!(value, before);
    let mut list: Yaml = serde_yaml::from_str("- 1\n").unwrap();
    stamp(Kind::Tool, &mut list);
    assert_eq!(serde_yaml::to_string(&list).unwrap(), "- 1\n");
}

#[test]
fn formats_outside_the_window_are_refused() {
    let mut value: Yaml = serde_yaml::from_str("version: 2\n").unwrap();
    match upgrade(Kind::Tool, &mut value) {
        Err(FormatError::Unsupported { kind: Kind::Tool, found: 2, oldest: 1, max: 1 }) => {}
        other => panic!("{other:?}"),
    }
    let mut value: Yaml = serde_yaml::from_str("version: no\n").unwrap();
    match upgrade(Kind::Plan, &mut value) {
        Err(FormatError::Invalid(message)) => assert!(message.contains("version"), "{message}"),
        other => panic!("{other:?}"),
    }
}

// ── Text ─────────────────────────────────────────────────────────────────

#[test]
fn text_is_cut_by_characters() {
    assert_eq!(first_chars("äöüß", 2), "äö");
    assert_eq!(first_chars("ab", 5), "ab");
    assert_eq!(shorten("äöüß", 4), "äöüß");
    assert_eq!(shorten("äöüßx", 4), "äöüß…");
}

#[test]
fn a_lone_tag_keeps_the_kind_of_its_value() {
    let roots = fields(r#"{"E0": {"n": 2.5, "l": [1], "s": "x"}}"#);
    let roots = Roots::new(&roots);
    assert_eq!(compact(&render_value("{{E0.n}}", &roots).unwrap()), "2.5");
    assert_eq!(compact(&render_value("{{ E0.l }}", &roots).unwrap()), "[1]");
    assert_eq!(compact(&render_value("{{E0.n}}!", &roots).unwrap()), "\"2.5!\"");
}
