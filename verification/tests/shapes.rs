use graph_core::json::{from_serde, to_serde};
use graph_core::shapes::{infer_schema, truncate_example, MAX_ARRAY_EXAMPLES, MAX_STRING_LEN};
use graph_core::value::Data;
use serde_json::Value;

fn json(text: &str) -> Value {
    serde_json::from_str(text).unwrap()
}

fn value<T: serde::Serialize>(v: &T) -> Value {
    serde_json::to_value(v).unwrap()
}

/// A JSON text with `"@@n"` standing for the nth value.
fn fill(text: &str, values: &[Value]) -> Value {
    fn put(v: Value, values: &[Value]) -> Value {
        match v {
            Value::String(s) => match s.strip_prefix("@@") {
                Some(n) => values[n.parse::<usize>().unwrap()].clone(),
                None => Value::String(s),
            },
            Value::Array(items) => {
                Value::Array(items.into_iter().map(|item| put(item, values)).collect())
            }
            Value::Object(map) => {
                Value::Object(map.into_iter().map(|(k, v)| (k, put(v, values))).collect())
            }
            other => other,
        }
    }
    put(json(text), values)
}

fn data(v: &Value) -> Data {
    from_serde(v.clone())
}

fn plain(d: &Data) -> Value {
    to_serde(d)
}

#[test]
fn infers_nested_schema_from_result() {
    let value = json(r##"{"values": [{"id": "abc", "count": 3, "merged": true, "score": 1.5}], "total": 1}"##);
    let schema = plain(&infer_schema(&data(&value)));
    assert_eq!(schema["properties"]["values"]["type"], "array");
    assert_eq!(
        schema["properties"]["values"]["items"]["properties"]["id"]["type"],
        "string"
    );
    assert_eq!(
        schema["properties"]["values"]["items"]["properties"]["score"]["type"],
        "number"
    );
    assert_eq!(schema["properties"]["total"]["type"], "integer");
}

#[test]
fn truncates_long_strings_and_samples_arrays() {
    let long = "x".repeat(500);
    let value = fill(r##"{"body": "@@0", "items": [1, 2, 3, 4, 5]}"##, &[value(&(long))]);
    let example = plain(&truncate_example(&data(&value)));
    assert!(example["body"].as_str().unwrap().chars().count() <= MAX_STRING_LEN + 1);
    assert_eq!(
        example["items"].as_array().unwrap().len(),
        MAX_ARRAY_EXAMPLES
    );
}
