//! JSON shape inference for the observed-shape cache: turn an actual tool
//! result into a compact JSON Schema plus a truncated example the planner
//! can reason over.

use crate::text::{cat2, chars_of, slice_text};
use crate::value::{
    ascending, list_shrinks, object_shrinks, put, values_view, Data, Entries, Fields, Json, Num,
    Quantity,
};
use vstd::prelude::*;

verus! {

pub const MAX_STRING_LEN: usize = 120;

pub const MAX_ARRAY_EXAMPLES: usize = 2;

pub const MAX_DEPTH: usize = 8;

/// The schema of one type, without further detail.
pub open spec fn type_schema(name: Seq<char>) -> Entries {
    put(Seq::empty(), "type"@, Json::Text(name))
}

/// The entries of an object, each value replaced by its schema.
pub open spec fn inferred_entries(entries: Entries, depth: int) -> Entries
    decreases entries,
{
    Seq::new(
        entries.len(),
        |i: int|
            if 0 <= i < entries.len() {
                (entries[i].0, inferred(entries[i].1, depth))
            } else {
                (Seq::empty(), Json::Null)
            },
    )
}

/// The schema of a value that stands `depth` levels down. Arrays are
/// described by their first element; nothing is said beyond `MAX_DEPTH`.
pub open spec fn inferred(value: Json, depth: int) -> Json
    decreases value,
{
    if depth >= MAX_DEPTH {
        Json::Object(Seq::empty())
    } else {
        Json::Object(
            match value {
                Json::Null => type_schema("null"@),
                Json::Bool(_) => type_schema("boolean"@),
                Json::Num(Num::Int(_)) => type_schema("integer"@),
                Json::Num(Num::Float(_)) => type_schema("number"@),
                Json::Text(_) => type_schema("string"@),
                Json::List(items) => if items.len() == 0 {
                    type_schema("array"@)
                } else {
                    put(type_schema("array"@), "items"@, inferred(items[0], depth + 1))
                },
                Json::Object(entries) => put(
                    type_schema("object"@),
                    "properties"@,
                    Json::Object(inferred_entries(entries, depth + 1)),
                ),
            },
        )
    }
}

fn typed(name: &str) -> (r: Fields)
    ensures
        r@ == type_schema(name@),
{
    let mut fields = Fields::new();
    fields.insert("type".to_owned(), Data::text(name));
    fields
}

/// Infers a JSON Schema from an observed value. Arrays are described by
/// their first element; unions beyond that are out of scope for a cache
/// whose job is "good enough for the planner to write `{{Ex.path}}` refs".
pub fn infer_schema(value: &Data) -> (r: Data)
    ensures
        r@ == inferred(value@, 0),
{
    infer_at(value, 0)
}

fn infer_at(value: &Data, depth: usize) -> (r: Data)
    requires
        depth <= MAX_DEPTH,
    ensures
        r@ == inferred(value@, depth as int),
    decreases value@,
{
    if depth >= MAX_DEPTH {
        return Data::Object(Fields::new());
    }
    Data::Object(
        match value {
            Data::Null => typed("null"),
            Data::Bool(_) => typed("boolean"),
            Data::Num(Quantity::Float(_)) => typed("number"),
            Data::Num(_) => typed("integer"),
            Data::Text(_) => typed("string"),
            Data::List(items) => {
                let mut fields = typed("array");
                if items.len() > 0 {
                    proof {
                        list_shrinks(value@, 0);
                    }
                    fields.insert("items".to_owned(), infer_at(&items[0], depth + 1));
                }
                fields
            },
            Data::Object(entries) => {
                let mut properties = Fields::new();
                proof {
                    use_type_invariant(entries);
                }
                let mut i: usize = 0;
                while i < entries.len()
                    invariant
                        i <= entries@.len(),
                        depth < MAX_DEPTH,
                        value@ == Json::Object(entries@),
                        ascending(entries@),
                        properties@ == inferred_entries(entries@, depth + 1).take(i as int),
                    decreases entries@.len() - i,
                {
                    proof {
                        object_shrinks(value@, i as int);
                    }
                    let child = infer_at(entries.value_at(i), depth + 1);
                    assert(properties@.push((entries@[i as int].0, child@)) =~= inferred_entries(
                        entries@,
                        depth + 1,
                    ).take(i + 1));
                    properties.append(entries.key_at(i).clone(), child);
                    i += 1;
                }
                assert(properties@ =~= inferred_entries(entries@, depth + 1));
                let mut fields = typed("object");
                fields.insert("properties".to_owned(), Data::Object(properties));
                fields
            },
        },
    )
}

/// The first items of an array, each cut down.
pub open spec fn truncated_items(items: Seq<Json>, depth: int) -> Seq<Json>
    decreases items,
{
    let n: int = if items.len() < MAX_ARRAY_EXAMPLES {
        items.len() as int
    } else {
        MAX_ARRAY_EXAMPLES as int
    };
    Seq::new(
        n as nat,
        |i: int|
            if 0 <= i < items.len() {
                truncated(items[i], depth)
            } else {
                Json::Null
            },
    )
}

/// The entries of an object, each value cut down.
pub open spec fn truncated_entries(entries: Entries, depth: int) -> Entries
    decreases entries,
{
    Seq::new(
        entries.len(),
        |i: int|
            if 0 <= i < entries.len() {
                (entries[i].0, truncated(entries[i].1, depth))
            } else {
                (Seq::empty(), Json::Null)
            },
    )
}

/// A text of at most `MAX_STRING_LEN` characters, or its first ones with an
/// ellipsis.
pub open spec fn truncated_text(s: Seq<char>) -> Seq<char> {
    if s.len() > MAX_STRING_LEN {
        s.take(MAX_STRING_LEN as int) + "…"@
    } else {
        s
    }
}

/// A value that stands `depth` levels down, cut down to an example.
pub open spec fn truncated(value: Json, depth: int) -> Json
    decreases value,
{
    if depth >= MAX_DEPTH {
        Json::Text("…"@)
    } else {
        match value {
            Json::Text(s) => Json::Text(truncated_text(s)),
            Json::List(items) => Json::List(truncated_items(items, depth + 1)),
            Json::Object(entries) => Json::Object(truncated_entries(entries, depth + 1)),
            other => other,
        }
    }
}

/// Shrinks a value into an example small enough to embed in a prompt:
/// long strings truncated, arrays sampled to their first elements.
pub fn truncate_example(value: &Data) -> (r: Data)
    ensures
        r@ == truncated(value@, 0),
{
    truncate_at(value, 0)
}

fn truncate_at(value: &Data, depth: usize) -> (r: Data)
    requires
        depth <= MAX_DEPTH,
    ensures
        r@ == truncated(value@, depth as int),
    decreases value@,
{
    if depth >= MAX_DEPTH {
        return Data::text("…");
    }
    match value {
        Data::Text(s) => {
            let chars = chars_of(s.as_str());
            if chars.len() > MAX_STRING_LEN {
                let head = slice_text(&chars, 0, MAX_STRING_LEN);
                assert(head@ =~= s@.take(MAX_STRING_LEN as int));
                Data::Text(cat2(head.as_str(), "…"))
            } else {
                Data::Text(s.clone())
            }
        },
        Data::List(items) => {
            let mut out: Vec<Data> = Vec::new();
            let mut i: usize = 0;
            while i < items.len() && i < MAX_ARRAY_EXAMPLES
                invariant
                    i <= items@.len(),
                    i <= MAX_ARRAY_EXAMPLES,
                    depth < MAX_DEPTH,
                    value@ == Json::List(values_view(items@)),
                    values_view(out@) == truncated_items(values_view(items@), depth + 1).take(
                        i as int,
                    ),
                decreases items.len() - i,
            {
                proof {
                    list_shrinks(value@, i as int);
                }
                let ghost before = out@;
                let item = truncate_at(&items[i], depth + 1);
                out.push(item);
                assert(values_view(out@) =~= values_view(before).push(item@));
                assert(truncated_items(values_view(items@), depth + 1)[i as int] == item@);
                i += 1;
            }
            assert(values_view(out@) =~= truncated_items(values_view(items@), depth + 1));
            Data::List(out)
        },
        Data::Object(entries) => {
            let mut out = Fields::new();
            proof {
                use_type_invariant(entries);
            }
            let mut i: usize = 0;
            while i < entries.len()
                invariant
                    i <= entries@.len(),
                    depth < MAX_DEPTH,
                    value@ == Json::Object(entries@),
                    ascending(entries@),
                    out@ == truncated_entries(entries@, depth + 1).take(i as int),
                decreases entries@.len() - i,
            {
                proof {
                    object_shrinks(value@, i as int);
                }
                let child = truncate_at(entries.value_at(i), depth + 1);
                assert(out@.push((entries@[i as int].0, child@)) =~= truncated_entries(
                    entries@,
                    depth + 1,
                ).take(i + 1));
                out.append(entries.key_at(i).clone(), child);
                i += 1;
            }
            assert(out@ =~= truncated_entries(entries@, depth + 1));
            Data::Object(out)
        },
        _ => value.copy(),
    }
}

// ── Laws ─────────────────────────────────────────────────────────────────

/// Whether a value is small enough for a prompt: short strings, short arrays,
/// and no nesting below `levels` further levels.
pub open spec fn is_small(value: Json, levels: int) -> bool
    decreases value,
{
    match value {
        Json::Text(s) => s.len() <= MAX_STRING_LEN + 1,
        Json::List(items) => levels > 0 && items.len() <= MAX_ARRAY_EXAMPLES && forall|i: int|
            0 <= i < items.len() ==> is_small(#[trigger] items[i], levels - 1),
        Json::Object(entries) => levels > 0 && forall|i: int|
            0 <= i < entries.len() ==> is_small((#[trigger] entries[i]).1, levels - 1),
        _ => true,
    }
}

/// An example never holds a string longer than `MAX_STRING_LEN` characters
/// and an ellipsis, an array longer than `MAX_ARRAY_EXAMPLES`, or nesting
/// deeper than `MAX_DEPTH`.
pub proof fn example_is_small(value: Json, depth: int)
    requires
        0 <= depth <= MAX_DEPTH,
    ensures
        is_small(truncated(value, depth), MAX_DEPTH - depth),
    decreases value,
{
    reveal_strlit("…");
    if depth < MAX_DEPTH {
        match value {
            Json::List(items) => {
                let out = truncated_items(items, depth + 1);
                assert forall|i: int| 0 <= i < out.len() implies is_small(
                    #[trigger] out[i],
                    MAX_DEPTH - depth - 1,
                ) by {
                    list_shrinks(value, i);
                    example_is_small(items[i], depth + 1);
                }
            },
            Json::Object(entries) => {
                let out = truncated_entries(entries, depth + 1);
                assert forall|i: int| 0 <= i < out.len() implies is_small(
                    (#[trigger] out[i]).1,
                    MAX_DEPTH - depth - 1,
                ) by {
                    object_shrinks(value, i);
                    example_is_small(entries[i].1, depth + 1);
                }
            },
            _ => {},
        }
    }
}

/// Cutting an example down again changes nothing.
pub proof fn truncating_twice_is_truncating_once(value: Json, depth: int)
    requires
        0 <= depth,
    ensures
        truncated(truncated(value, depth), depth) == truncated(value, depth),
    decreases value,
{
    reveal_strlit("…");
    if depth < MAX_DEPTH {
        match value {
            Json::Text(s) => {
                if s.len() > MAX_STRING_LEN {
                    let once = truncated_text(s);
                    assert(once.take(MAX_STRING_LEN as int) =~= s.take(MAX_STRING_LEN as int));
                }
            },
            Json::List(items) => {
                let once = truncated_items(items, depth + 1);
                let twice = truncated_items(once, depth + 1);
                assert forall|i: int| 0 <= i < once.len() implies twice[i] == once[i] by {
                    list_shrinks(value, i);
                    truncating_twice_is_truncating_once(items[i], depth + 1);
                }
                assert(twice =~= once);
            },
            Json::Object(entries) => {
                let once = truncated_entries(entries, depth + 1);
                let twice = truncated_entries(once, depth + 1);
                assert forall|i: int| 0 <= i < once.len() implies twice[i] == once[i] by {
                    object_shrinks(value, i);
                    truncating_twice_is_truncating_once(entries[i].1, depth + 1);
                }
                assert(twice =~= once);
            },
            _ => {},
        }
    }
}

} // verus!
