use graph_core::format::{
    finish_migration, for_each_step, migrate_text, stamp, upgrade, FormatError, Kind, Migrated,
    FORMATS_DOC, FORMAT_KEY, PLAN_FORMAT, PLAN_FORMAT_OLDEST, PLAN_MIGRATIONS, TOOL_FORMAT,
    TOOL_FORMAT_OLDEST, TOOL_MIGRATIONS,
};
use serde_yaml::Value;

fn yaml(text: &str) -> Value {
    serde_yaml::from_str(text).unwrap()
}

#[test]
fn chains_match_their_current_formats() {
    assert_eq!(
        PLAN_MIGRATIONS,
        PLAN_FORMAT - PLAN_FORMAT_OLDEST
    );
    assert_eq!(
        TOOL_MIGRATIONS,
        TOOL_FORMAT - TOOL_FORMAT_OLDEST
    );
}

#[test]
fn missing_key_means_the_oldest_format_and_is_stripped_after_upgrade() {
    let mut value = yaml("identifier: p\nsteps: []\n");
    let first = upgrade(Kind::Plan, &mut value).unwrap();
    assert_eq!(first.declared, None);
    assert_eq!(first.from, PLAN_FORMAT_OLDEST);
    assert_eq!(first.to, PLAN_FORMAT);
    let mut value = yaml(&format!("version: {PLAN_FORMAT}\nidentifier: p\n"));
    let second = upgrade(Kind::Plan, &mut value).unwrap();
    assert_eq!(second.declared, Some(PLAN_FORMAT));
    assert!(value.get(FORMAT_KEY).is_none());
}

#[test]
fn a_newer_format_is_refused_with_both_numbers() {
    let mut value = yaml(&format!("version: {}\nname: t\n", TOOL_FORMAT + 1));
    let err = upgrade(Kind::Tool, &mut value).unwrap_err();
    assert_eq!(
        err,
        FormatError::Unsupported {
            kind: Kind::Tool,
            found: TOOL_FORMAT + 1,
            oldest: TOOL_FORMAT_OLDEST,
            max: TOOL_FORMAT
        }
    );
    let text = err.message();
    assert!(text.contains("is tool version"), "{text}");
    assert!(
        text.contains(&format!("reads tool version {TOOL_FORMAT}")),
        "{text}"
    );
    assert!(text.contains(FORMATS_DOC), "{text}");
}

#[test]
fn a_malformed_key_is_invalid() {
    let mut value = yaml("version: two\n");
    let err = upgrade(Kind::Plan, &mut value).unwrap_err();
    assert!(matches!(err, FormatError::Invalid(_)), "{err:?}");
    let mut value = yaml("version: 0\n");
    assert!(matches!(
        upgrade(Kind::Plan, &mut value),
        Err(FormatError::Invalid(_))
    ));
}

#[test]
fn stamp_puts_the_key_first_and_is_idempotent() {
    let mut value = yaml("identifier: p\nname: P\n");
    stamp(Kind::Plan, &mut value);
    stamp(Kind::Plan, &mut value);
    let keys: Vec<&str> = value
        .as_mapping()
        .unwrap()
        .keys()
        .map(|k| k.as_str().unwrap())
        .collect();
    assert_eq!(keys, vec![FORMAT_KEY, "identifier", "name"]);
    assert_eq!(value[FORMAT_KEY].as_u64(), Some(u64::from(PLAN_FORMAT)));
}

#[test]
fn for_each_step_reaches_every_nested_body() {
    let value = yaml(
        r#"
steps:
  - id: E0
    tool_name: decide
    input:
      if: { value: "x", op: eq, to: "x" }
      then:
        - id: E1
          tool_name: map
          input:
            over: "{{input.items}}"
            do:
              tool_name: user__one
              input: {}
      else:
        tool_name: reduce
        input:
          over: "{{input.items}}"
          do:
            - id: E2
              tool_name: user__two
              input: {}
  - id: E3
    tool_name: user__three
    input:
      do: { not: a body }
"#,
    );
    let seen: Vec<&str> = for_each_step(&value)
        .into_iter()
        .map(|step| step.get("tool_name").and_then(Value::as_str).unwrap())
        .collect();
    assert_eq!(
        seen,
        vec![
            "decide",
            "map",
            "user__one",
            "reduce",
            "user__two",
            "user__three"
        ]
    );
}

/// Migrates a text in place, as a file is.
fn migrate(
    kind: Kind,
    file: &mut String,
    check: impl Fn(&Value) -> Result<(), String>,
) -> Result<Migrated, String> {
    let (value, upgrade) = migrate_text(kind, "file.yaml", file)?;
    let checked = check(&value);
    let (text, migrated) = finish_migration("file.yaml", file, &value, upgrade, checked)?;
    if migrated.changed {
        *file = text;
    }
    Ok(migrated)
}

#[test]
fn migrate_file_keeps_the_header_and_notes_dropped_comments() {
    let mut file =
        "# header line\n# second\n\nname: t\ndescription: d # trailing\nkind: reshape\nshape: {}\n"
            .to_string();
    let first = migrate(Kind::Tool, &mut file, |_| Ok(())).unwrap();
    assert!(first.changed);
    assert_eq!((first.from, first.to), (TOOL_FORMAT_OLDEST, TOOL_FORMAT));
    let text = file.clone();
    assert!(
        text.starts_with(&format!(
            "# header line\n# second\n\nversion: {TOOL_FORMAT}\nname: t\n"
        )),
        "{text}"
    );
    assert!(first.notes.is_empty(), "{:?}", first.notes);
    let second = migrate(Kind::Tool, &mut file, |_| Ok(())).unwrap();
    assert_eq!(file, text);
    assert!(!second.changed);
}

#[test]
fn migrate_file_reports_comments_it_could_not_keep() {
    let mut file = "identifier: p\n# inside\nname: P\n".to_string();
    let migrated = migrate(Kind::Plan, &mut file, |_| Ok(())).unwrap();
    assert!(migrated.changed);
    assert_eq!(migrated.notes.len(), 1, "{:?}", migrated.notes);
    assert!(migrated.notes[0].starts_with("1 comment line"));
}

#[test]
fn migrate_file_refuses_a_result_the_check_rejects() {
    let original = "identifier: p\n";
    let mut file = original.to_string();
    let err = migrate(Kind::Plan, &mut file, |_| Err("no steps".into())).unwrap_err();
    assert!(err.contains("after migration: no steps"), "{err}");
    assert_eq!(file, original);
}

#[test]
fn a_migrated_file_begins_with_its_comments_and_its_version() {
    for header in ["", "\n", "# one\n\n  # two\n"] {
        for body in ["name: t\n", "version: 1\n", "name: t\nversion: 1\n", "a: {version: 2}\n"] {
            let mut file = format!("{header}{body}");
            migrate(Kind::Tool, &mut file, |_| Ok(())).unwrap();
            assert!(file.starts_with(&format!("{header}version: {TOOL_FORMAT}\n")), "{file}");
            let text = file.clone();
            assert!(!migrate(Kind::Tool, &mut file, |_| Ok(())).unwrap().changed);
            assert_eq!(file, text);
        }
    }
}

#[test]
fn a_migrated_file_keeps_its_tag_before_its_version() {
    let mut file = "# note\n!plan\nname: t\n".to_string();
    migrate(Kind::Plan, &mut file, |_| Ok(())).unwrap();
    assert_eq!(file, format!("# note\n!plan\nversion: {PLAN_FORMAT}\nname: t\n"));
    assert!(!migrate(Kind::Plan, &mut file, |_| Ok(())).unwrap().changed);
}
