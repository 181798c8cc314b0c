use graph_core::json::parse_json;
use graph_core::template::{
    referenced_paths, referenced_roots, render_input, render_str, render_value, rewrite_root,
    RenderError, Roots,
};
use graph_core::value::{Data, Fields};

fn data(text: &str) -> Data {
    parse_json(text).unwrap()
}

fn roots(pairs: &[(&str, Data)]) -> Fields {
    let mut map = Fields::new();
    for (key, value) in pairs {
        map.insert(key.to_string(), value.copy());
    }
    map
}


#[test]
fn renders_a_simple_string() {
    let map = roots(&[("E0", data(r#"{"name": "World"}"#))]);
    let out = render_str("Hello, {{E0.name}}!", &Roots::new(&map)).unwrap();
    assert_eq!(out, "Hello, World!");
}

#[test]
fn handles_array_with_single_element() {
    let map = roots(&[("E0", data(r#"{"teams": [{"name": "Red Team"}]}"#))]);
    let out = render_str("The team is {{E0.teams.0.name}}", &Roots::new(&map)).unwrap();
    assert_eq!(out, "The team is Red Team");
}

#[test]
fn handles_multiple_replacements() {
    let map = roots(&[
        ("E0", data(r#"{"teams": [{"name": "Red Team"}]}"#)),
        ("E1", data(r#"{"score": [{"value": 10}]}"#)),
    ]);
    let out = render_str(
        "Team {{E0.teams.0.name}} scored {{E1.score.0.value}} points",
        &Roots::new(&map),
    )
    .unwrap();
    assert_eq!(out, "Team Red Team scored 10 points");
}

#[test]
fn plain_field_access_works() {
    let map = roots(&[("E0", data(r#"{"color": "Red"}"#))]);
    let out = render_str("The {{E0.color}} team", &Roots::new(&map)).unwrap();
    assert_eq!(out, "The Red team");
}

// ── typed splice ───────────────────────────────────────

#[test]
fn exact_tag_splices_raw_json_value() {
    let map = roots(&[("E0", data(r#"{"count": 42, "ids": [1, 2, 3]}"#))]);
    let r = Roots::new(&map);
    assert_eq!(render_value("{{E0.count}}", &r).unwrap(), data(r#"42"#));
    assert_eq!(render_value("{{ E0.ids }}", &r).unwrap(), data(r#"[1, 2, 3]"#));
    // Mixed text stays a string.
    assert_eq!(
        render_value("count: {{E0.count}}", &r).unwrap(),
        data(r#""count: 42""#)
    );
}

#[test]
fn render_input_walks_the_json_tree() {
    let map = roots(&[
        ("E0", data(r#"{"values": [{"id": "team-1"}]}"#)),
        ("input", data(r#"{"max": 50}"#)),
    ]);
    let input = data(r#"{ "teamId": "{{E0.values.0.id}}", "limit": "{{input.max}}", "nested": {"q": "team {{E0.values.0.id}}"}, "list": ["{{E0.values}}"] }"#);
    let rendered = render_input(&input, &Roots::new(&map)).unwrap();
    assert_eq!(
        rendered,
        data(r#"{ "teamId": "team-1", "limit": 50, "nested": {"q": "team team-1"}, "list": [[{"id": "team-1"}]] }"#)
    );
}

// ── error taxonomy ─────────────────────────────────────

#[test]
fn missing_step_is_typed() {
    let map = roots(&[("E0", data(r#"{}"#))]);
    let err = render_str("{{E7.values}}", &Roots::new(&map)).unwrap_err();
    assert!(matches!(err, RenderError::MissingStep { ref step, .. } if step == "E7"));
}

#[test]
fn bad_path_reports_available_keys() {
    let map = roots(&[("E0", data(r#"{"values": [{"id": "x", "name": "y"}]}"#))]);
    let err = render_str("{{E0.values.0.idd}}", &Roots::new(&map)).unwrap_err();
    let RenderError::BadPath { reason, .. } = &err else {
        panic!("expected BadPath, got {err:?}");
    };
    assert!(reason.contains("no key 'idd'"));
    assert!(reason.contains("id, name"));
}

#[test]
fn empty_array_and_null_are_empty_data_not_bad_path() {
    let map = roots(&[("E0", data(r#"{"values": [], "assignee": null}"#))]);
    let r = Roots::new(&map);
    let err = render_str("{{E0.values.0.id}}", &r).unwrap_err();
    assert!(
        matches!(err, RenderError::EmptyData { .. }),
        "empty array: {err:?}"
    );
    let err = render_str("{{E0.assignee.name}}", &r).unwrap_err();
    assert!(
        matches!(err, RenderError::EmptyData { .. }),
        "null walk: {err:?}"
    );
}

#[test]
fn index_out_of_range_is_empty_data() {
    let map = roots(&[("E0", data(r#"{"values": [{"id": 1}]}"#))]);
    let err = render_str("{{E0.values.3.id}}", &Roots::new(&map)).unwrap_err();
    assert!(matches!(err, RenderError::EmptyData { .. }));
}

// ── Sections, loop vars, length ──────────────────────────────────────

#[test]
fn sections_iterate_with_context_stack_and_loop_vars() {
    let map = roots(&[(
        "E1",
        data(r#"{"values": [ {"title": "Fix login", "state": "done"}, {"title": "Add SSO", "state": "open"} ]}"#),
    )]);
    let template = "{{#E1.values}}{{title}} ({{state}}){{^@last}}, {{/@last}}{{/E1.values}}";
    let out = render_str(template, &Roots::new(&map)).unwrap();
    assert_eq!(out, "Fix login (done), Add SSO (open)");
}

#[test]
fn at_index_and_at_first() {
    let map = roots(&[("E0", data(r#"{"items": ["a", "b"]}"#))]);
    let template = "{{#E0.items}}{{@index}}:{{#@first}}first {{/@first}}{{/E0.items}}";
    let out = render_str(template, &Roots::new(&map)).unwrap();
    assert_eq!(out, "0:first 1:");
}

#[test]
fn length_pseudo_key() {
    let map = roots(&[("E1", data(r#"{"values": [1, 2, 3]}"#))]);
    let out = render_str("Total: {{E1.values.length}}", &Roots::new(&map)).unwrap();
    assert_eq!(out, "Total: 3");
}

#[test]
fn inverted_section_on_empty_results() {
    let map = roots(&[("E0", data(r#"{"values": []}"#))]);
    let template = "{{#E0.values}}{{id}}{{/E0.values}}{{^E0.values}}no results{{/E0.values}}";
    let out = render_str(template, &Roots::new(&map)).unwrap();
    assert_eq!(out, "no results");
}

#[test]
fn missing_key_on_list_item_renders_empty() {
    let map = roots(&[(
        "E0",
        data(r#"{"values": [{"name": "a", "desc": "has one"}, {"name": "b"}]}"#),
    )]);
    let template = "{{#E0.values}}{{name}}:{{desc}};{{/E0.values}}";
    let out = render_str(template, &Roots::new(&map)).unwrap();
    assert_eq!(out, "a:has one;b:;");
}

#[test]
fn objects_interpolate_as_json_in_text() {
    let map = roots(&[("E0", data(r#"{"values": [{"id": 1}]}"#))]);
    let out = render_str("data: {{E0.values}}", &Roots::new(&map)).unwrap();
    assert!(out.starts_with("data: ["));
    assert!(out.contains("\"id\": 1"));
}

#[test]
fn nested_sections_reach_outer_and_root_scopes() {
    let map = roots(&[(
        "E0",
        data(r#"{"teams": [{"name": "Core", "members": [{"who": "amy"}]}]}"#),
    )]);
    let template =
        "{{#E0.teams}}{{#members}}{{who}}@{{name}} of {{E0.teams.length}}{{/members}}{{/E0.teams}}";
    let out = render_str(template, &Roots::new(&map)).unwrap();
    assert_eq!(out, "amy@Core of 1");
}

// ── Dropped features fail loudly ─────────────────────────────────────

#[test]
fn dropped_mustache_features_are_parse_errors() {
    let map = roots(&[]);
    let r = Roots::new(&map);
    for template in [
        "{{> partial}}",
        "{{$block}}x{{/block}}",
        "{{!c}}",
        "{{<parent}}x{{/parent}}",
    ] {
        let err = render_str(template, &r).unwrap_err();
        assert!(
            matches!(err, RenderError::Parse(_)),
            "{template} should be rejected"
        );
    }
}

#[test]
fn referenced_roots_skips_section_scoped_bare_keys() {
    // Bare keys inside a section body ({{severity}}, {{#url}}) read the
    // current item; dotted paths ({{E3.summary}}) stay root-anchored.
    let roots = referenced_roots(
        "{{#E5.comments}}{{severity}} {{E3.summary}} \
         {{#url}}[{{file}}]({{url}}){{/url}}{{/E5.comments}}\
         {{^E5.comments}}none for {{input.pr}}{{/E5.comments}}",
    )
    .unwrap();
    assert_eq!(roots, vec!["E5", "E3", "input"]);

    // At the top level a bare tag is a root reference.
    let roots = referenced_roots("{{E0}} {{#items}}{{name}}{{/items}}").unwrap();
    assert_eq!(roots, vec!["E0", "items"]);
}

#[test]
fn referenced_paths_collects_full_dotted_paths() {
    let paths = referenced_paths("{{E0.values.0.id}} and {{input.team}}").unwrap();
    assert_eq!(paths, vec!["E0.values.0.id", "input.team"]);

    // Sections emit the section path plus item-relative paths with a
    // `*` marker; loop pseudo-vars are omitted.
    let paths = referenced_paths(
        "{{#E1.values}}{{id}}: {{state}} {{@index}}{{/E1.values}} total {{E1.values.length}}",
    )
    .unwrap();
    assert_eq!(
        paths,
        vec![
            "E1.values",
            "E1.values.*.id",
            "E1.values.*.state",
            "E1.values.length",
        ]
    );

    // Duplicates collapse; parse errors propagate.
    let paths = referenced_paths("{{E0.id}} {{E0.id}}").unwrap();
    assert_eq!(paths, vec!["E0.id"]);
    assert!(referenced_paths("{{> partial}}").is_err());
}

#[test]
fn rewrite_root_renames_matching_references() {
    // Plain var, dotted path, exact tag.
    assert_eq!(rewrite_root("{{E0}}", "E0", "fetch"), "{{fetch}}");
    assert_eq!(
        rewrite_root("id: {{E0.values.0.id}}", "E0", "fetch"),
        "id: {{fetch.values.0.id}}"
    );
    // Section, inverted, and closing tags all carry the root.
    assert_eq!(
        rewrite_root(
            "{{#E0.values}}{{id}}{{/E0.values}}{{^E0.values}}none{{/E0.values}}",
            "E0",
            "fetch"
        ),
        "{{#fetch.values}}{{id}}{{/fetch.values}}{{^fetch.values}}none{{/fetch.values}}"
    );
    // Whitespace inside braces still matches (normalized on rewrite).
    assert_eq!(rewrite_root("{{ E0.id }}", "E0", "fetch"), "{{fetch.id}}");
}

#[test]
fn rewrite_root_leaves_everything_else_alone() {
    // Other roots, including prefixes: E1 must not rewrite E10.
    assert_eq!(
        rewrite_root("{{E10.id}} {{input.x}}", "E1", "fetch"),
        "{{E10.id}} {{input.x}}"
    );
    // Non-matching tags keep their exact bytes (whitespace included).
    assert_eq!(rewrite_root("{{ E2.id }}", "E0", "fetch"), "{{ E2.id }}");
    // Bare keys inside a section body are item-relative, not roots —
    // even one that happens to equal the renamed id stays put.
    assert_eq!(
        rewrite_root("{{#E0.values}}{{title}}{{/E0.values}}", "title", "t"),
        "{{#E0.values}}{{title}}{{/E0.values}}"
    );
    // …but a dotted path anywhere is root-anchored and does rewrite,
    // and a bare tag at the top level is a root reference.
    assert_eq!(
        rewrite_root(
            "{{#items.rows}}{{E0.id}}{{/items.rows}} {{E0}}",
            "E0",
            "fetch"
        ),
        "{{#items.rows}}{{fetch.id}}{{/items.rows}} {{fetch}}"
    );
    // Plain text and malformed tags pass through untouched.
    assert_eq!(rewrite_root("no tags here", "E0", "fetch"), "no tags here");
    assert_eq!(rewrite_root("{{E0.id", "E0", "fetch"), "{{E0.id");
    assert_eq!(
        rewrite_root("{{E0.a}} then {{E0.b", "E0", "fetch"),
        "{{fetch.a}} then {{E0.b"
    );
}

#[test]
fn mismatched_sections_are_parse_errors() {
    let map = roots(&[("E0", data(r#"{"a": [1]}"#))]);
    let err = render_str("{{#E0.a}}x{{/E0.b}}", &Roots::new(&map)).unwrap_err();
    assert!(matches!(err, RenderError::Parse(_)));
}
