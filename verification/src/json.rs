//! The bridge to serde_json: values of this crate to and from its values, and
//! JSON text.

use crate::value::{
    ascending, fractional, list_shrinks, object_shrinks, printed_number, values_view, Data, Entries,
    Fields, Float, Json, Num, Quantity,
};
use vstd::prelude::*;

verus! {

/// serde_json's value type.
#[verifier::external_type_specification]
#[verifier::external_body]
pub struct ExValue(serde_json::Value);

/// The JSON document that a serde_json value holds.
pub uninterp spec fn document(v: serde_json::Value) -> Json;

/// The documents that a sequence of serde_json values holds.
pub open spec fn documents(s: Seq<serde_json::Value>) -> Seq<Json> {
    Seq::new(s.len(), |i: int| document(s[i]))
}

/// The entries that a sequence of keyed serde_json values holds.
pub open spec fn keyed_documents(s: Seq<(String, serde_json::Value)>) -> Entries {
    Seq::new(s.len(), |i: int| (s[i].0@, document(s[i].1)))
}

/// One level of a serde_json value.
pub enum Parts {
    Null,
    Bool(bool),
    Unsigned(u64),
    Negative(i64),
    Float(serde_json::Number),
    Text(String),
    List(Vec<serde_json::Value>),
    Object(Vec<(String, serde_json::Value)>),
}

impl Parts {
    pub open spec fn view(&self) -> Json {
        match self {
            Parts::Null => Json::Null,
            Parts::Bool(b) => Json::Bool(*b),
            Parts::Unsigned(n) => Json::Num(Num::Int(*n as int)),
            Parts::Negative(n) => Json::Num(Num::Int(*n as int)),
            Parts::Float(n) => Json::Num(Num::Float(printed_number(*n))),
            Parts::Text(s) => Json::Text(s@),
            Parts::List(items) => Json::List(documents(items@)),
            Parts::Object(entries) => Json::Object(keyed_documents(entries@)),
        }
    }
}

/// Takes a `serde_json::Value` apart by one level, in the order in which its
/// map iterates. `Number::as_u64` and `Number::as_i64` tell integers from other
/// numbers, which print with a fraction or an exponent.
#[verifier::external_body]
fn take_apart(v: serde_json::Value) -> (r: Parts)
    ensures
        r@ == document(v),
        r matches Parts::Float(n) ==> fractional(printed_number(n)),
        r matches Parts::Object(entries) ==> ascending(keyed_documents(entries@)),
{
    match v {
        serde_json::Value::Null => Parts::Null,
        serde_json::Value::Bool(b) => Parts::Bool(b),
        serde_json::Value::Number(n) => match (n.as_u64(), n.as_i64()) {
            (Some(u), _) => Parts::Unsigned(u),
            (None, Some(i)) => Parts::Negative(i),
            (None, None) => Parts::Float(n),
        },
        serde_json::Value::String(s) => Parts::Text(s),
        serde_json::Value::Array(items) => Parts::List(items),
        serde_json::Value::Object(map) => Parts::Object(map.into_iter().collect()),
    }
}

/// Puts a `serde_json::Value` together from one level of parts.
#[verifier::external_body]
fn put_together(parts: Parts) -> (r: serde_json::Value)
    requires
        parts matches Parts::Float(n) ==> fractional(printed_number(n)),
        parts matches Parts::Object(entries) ==> ascending(keyed_documents(entries@)),
    ensures
        document(r) == parts@,
{
    match parts {
        Parts::Null => serde_json::Value::Null,
        Parts::Bool(b) => serde_json::Value::Bool(b),
        Parts::Unsigned(n) => serde_json::Value::from(n),
        Parts::Negative(n) => serde_json::Value::from(n),
        Parts::Float(n) => serde_json::Value::Number(n),
        Parts::Text(s) => serde_json::Value::String(s),
        Parts::List(items) => serde_json::Value::Array(items),
        Parts::Object(entries) => serde_json::Value::Object(entries.into_iter().collect()),
    }
}

/// A value of this crate from a serde_json value.
pub fn from_serde(v: serde_json::Value) -> (r: Data)
    ensures
        r@ == document(v),
    decreases document(v),
{
    match take_apart(v) {
        Parts::Null => Data::Null,
        Parts::Bool(b) => Data::Bool(b),
        Parts::Unsigned(n) => Data::Num(Quantity::Unsigned(n)),
        Parts::Negative(n) => Data::Num(Quantity::Negative(n)),
        Parts::Float(n) => Data::Num(Quantity::Float(Float::wrap(n))),
        Parts::Text(s) => Data::Text(s),
        Parts::List(items) => {
            let ghost docs = documents(items@);
            let mut out: Vec<Data> = Vec::new();
            for item in it: items
                invariant
                    it.seq() == items@,
                    docs == documents(items@),
                    document(v) == Json::List(docs),
                    values_view(out@) == docs.take(it.index() as int),
            {
                let ghost i = it.index() as int;
                proof {
                    list_shrinks(document(v), i);
                }
                let data = from_serde(item);
                let ghost before = out@;
                out.push(data);
                assert(values_view(out@) =~= values_view(before).push(data@));
            }
            assert(docs.take(docs.len() as int) =~= docs);
            Data::List(out)
        },
        Parts::Object(entries) => {
            let ghost docs = keyed_documents(entries@);
            let mut out = Fields::new();
            for entry in it: entries
                invariant
                    it.seq() == entries@,
                    docs == keyed_documents(entries@),
                    document(v) == Json::Object(docs),
                    ascending(docs),
                    out@ == docs.take(it.index() as int),
            {
                let ghost i = it.index() as int;
                let (key, child) = entry;
                proof {
                    object_shrinks(document(v), i);
                }
                let data = from_serde(child);
                assert(docs.take(i + 1) =~= out@.push((key@, data@)));
                out.append(key, data);
            }
            assert(docs.take(docs.len() as int) =~= docs);
            Data::Object(out)
        },
    }
}

/// A serde_json value from a value of this crate.
pub fn to_serde(v: &Data) -> (r: serde_json::Value)
    ensures
        document(r) == v@,
    decreases v@,
{
    match v {
        Data::Null => put_together(Parts::Null),
        Data::Bool(b) => put_together(Parts::Bool(*b)),
        Data::Num(Quantity::Unsigned(n)) => put_together(Parts::Unsigned(*n)),
        Data::Num(Quantity::Negative(n)) => put_together(Parts::Negative(*n)),
        Data::Num(Quantity::Float(f)) => put_together(Parts::Float(f.release())),
        Data::Text(s) => put_together(Parts::Text(s.clone())),
        Data::List(items) => {
            let mut out: Vec<serde_json::Value> = Vec::new();
            let mut i: usize = 0;
            while i < items.len()
                invariant
                    i <= items@.len(),
                    v@ == Json::List(values_view(items@)),
                    documents(out@) == values_view(items@).take(i as int),
                decreases items.len() - i,
            {
                proof {
                    list_shrinks(v@, i as int);
                }
                let child = to_serde(&items[i]);
                let ghost before = out@;
                out.push(child);
                assert(documents(out@) =~= documents(before).push(document(child)));
                i += 1;
            }
            assert(documents(out@) =~= values_view(items@));
            put_together(Parts::List(out))
        },
        Data::Object(fields) => {
            let mut out: Vec<(String, serde_json::Value)> = Vec::new();
            let mut i: usize = 0;
            while i < fields.len()
                invariant
                    i <= fields@.len(),
                    v@ == Json::Object(fields@),
                    keyed_documents(out@) == fields@.take(i as int),
                decreases fields@.len() - i,
            {
                proof {
                    object_shrinks(v@, i as int);
                }
                let child = to_serde(fields.value_at(i));
                let key = fields.key_at(i).clone();
                let ghost before = out@;
                out.push((key, child));
                assert(keyed_documents(out@) =~= keyed_documents(before).push(
                    (key@, document(child)),
                ));
                i += 1;
            }
            assert(keyed_documents(out@) =~= fields@);
            proof {
                use_type_invariant(fields);
            }
            put_together(Parts::Object(out))
        },
    }
}

/// The text that `serde_json::to_string` prints for a document.
pub uninterp spec fn compact_text(j: Json) -> Seq<char>;

/// The text that `serde_json::to_string_pretty` prints for a document.
pub uninterp spec fn pretty_text(j: Json) -> Seq<char>;

/// What `serde_json::from_str` reads a text as: a document, or an error with
/// its message.
pub uninterp spec fn json_reading(text: Seq<char>) -> Result<Json, Seq<char>>;

/// `serde_json::to_string`, which does not fail on a `serde_json::Value`.
#[verifier::external_body]
fn print_compact(v: &serde_json::Value) -> (r: String)
    ensures
        r@ == compact_text(document(*v)),
{
    serde_json::to_string(v).unwrap_or_default()
}

/// `serde_json::to_string_pretty`, which does not fail on a
/// `serde_json::Value`.
#[verifier::external_body]
fn print_pretty(v: &serde_json::Value) -> (r: String)
    ensures
        r@ == pretty_text(document(*v)),
{
    serde_json::to_string_pretty(v).unwrap_or_default()
}

/// `serde_json::from_str` into a `serde_json::Value`, its error as text.
#[verifier::external_body]
fn read_json(text: &str) -> (r: Result<serde_json::Value, String>)
    ensures
        match r {
            Ok(v) => json_reading(text@) == Ok::<Json, Seq<char>>(document(v)),
            Err(e) => json_reading(text@) == Err::<Json, Seq<char>>(e@),
        },
{
    serde_json::from_str(text).map_err(|e| e.to_string())
}

/// A value as JSON text on one line.
pub fn compact(v: &Data) -> (r: String)
    ensures
        r@ == compact_text(v@),
{
    print_compact(&to_serde(v))
}

/// A value as indented JSON text.
pub fn pretty(v: &Data) -> (r: String)
    ensures
        r@ == pretty_text(v@),
{
    print_pretty(&to_serde(v))
}

/// The value that a JSON text holds.
pub fn parse_json(text: &str) -> (r: Result<Data, String>)
    ensures
        match r {
            Ok(v) => json_reading(text@) == Ok::<Json, Seq<char>>(v@),
            Err(e) => json_reading(text@) == Err::<Json, Seq<char>>(e@),
        },
{
    match read_json(text) {
        Ok(v) => Ok(from_serde(v)),
        Err(e) => Err(e),
    }
}

} // verus!
