//! The bridge to serde_yaml: what its values and mappings hold, and YAML text.

use crate::text::{begins, same_text};
use crate::value::{number_text, Num};
use vstd::prelude::*;

verus! {

/// serde_yaml's value type.
#[verifier::external_type_specification]
#[verifier::external_body]
pub struct ExYaml(serde_yaml::Value);

/// serde_yaml's mapping type.
#[verifier::external_type_specification]
#[verifier::external_body]
pub struct ExMapping(serde_yaml::Mapping);

/// What a YAML value holds. A mapping holds its entries in order; a number with
/// a fraction or an exponent is known by its text.
pub enum YamlView {
    Null,
    Bool(bool),
    Num(Num),
    Text(Seq<char>),
    List(Seq<YamlView>),
    Mapping(Seq<(YamlView, YamlView)>),
    Tagged(Seq<char>, Box<YamlView>),
}

/// The entries of a YAML mapping, in order.
pub type YamlEntries = Seq<(YamlView, YamlView)>;

/// The document that a `serde_yaml::Value` holds.
pub uninterp spec fn yaml_document(v: serde_yaml::Value) -> YamlView;

/// The entries that a `serde_yaml::Mapping` holds, in order.
pub uninterp spec fn mapping_entries(m: serde_yaml::Mapping) -> Seq<(YamlView, YamlView)>;

/// The documents that a sequence of YAML values holds.
pub open spec fn yaml_documents(s: Seq<serde_yaml::Value>) -> Seq<YamlView> {
    Seq::new(s.len(), |i: int| yaml_document(s[i]))
}

/// The documents that a sequence of borrowed YAML values holds.
pub open spec fn borrowed_documents(s: Seq<&serde_yaml::Value>) -> Seq<YamlView> {
    Seq::new(s.len(), |i: int| yaml_document(*s[i]))
}

/// A value without the tags around it.
pub open spec fn untagged(v: YamlView) -> YamlView
    decreases v,
{
    match v {
        YamlView::Tagged(_, inner) => untagged(*inner),
        other => other,
    }
}

/// A value in the place of another, within the same tags.
pub open spec fn retagged(v: YamlView, new: YamlView) -> YamlView
    decreases v,
{
    match v {
        YamlView::Tagged(tag, inner) => YamlView::Tagged(tag, Box::new(retagged(*inner, new))),
        _ => new,
    }
}

/// The value of the entry with a text as its key, from `i` on.
pub open spec fn text_entry(e: YamlEntries, key: Seq<char>, i: int) -> Option<YamlView>
    decreases e.len() - i,
{
    if i < 0 || i >= e.len() {
        None
    } else if e[i].0 == YamlView::Text(key) {
        Some(e[i].1)
    } else {
        text_entry(e, key, i + 1)
    }
}

/// The text of a value, looking through tags.
pub open spec fn yaml_text(v: YamlView) -> Option<Seq<char>> {
    match untagged(v) {
        YamlView::Text(s) => Some(s),
        _ => None,
    }
}

/// The value under a key of a mapping, looking through tags.
pub open spec fn yaml_member(v: YamlView, key: Seq<char>) -> Option<YamlView> {
    match untagged(v) {
        YamlView::Mapping(e) => text_entry(e, key, 0),
        _ => None,
    }
}

/// A mapping's entries with one set under a text: in its place where the key is
/// there, at the end where it is not.
pub open spec fn with_entry(e: YamlEntries, key: Seq<char>, value: YamlView) -> YamlEntries
    decreases e.len(),
{
    if e.len() == 0 {
        seq![(YamlView::Text(key), value)]
    } else if e[0].0 == YamlView::Text(key) {
        e.update(0, (e[0].0, value))
    } else {
        seq![e[0]] + with_entry(e.skip(1), key, value)
    }
}

/// One level of a borrowed YAML value.
pub enum Look<'a> {
    Null,
    Bool(bool),
    Unsigned(u64),
    Negative(i64),
    Float(String),
    Text(&'a str),
    List(&'a Vec<serde_yaml::Value>),
    Mapping(&'a serde_yaml::Mapping),
    Tagged(String, &'a serde_yaml::Value),
}

impl<'a> Look<'a> {
    pub open spec fn view(&self) -> YamlView {
        match self {
            Look::Null => YamlView::Null,
            Look::Bool(b) => YamlView::Bool(*b),
            Look::Unsigned(n) => YamlView::Num(Num::Int(*n as int)),
            Look::Negative(n) => YamlView::Num(Num::Int(*n as int)),
            Look::Float(s) => YamlView::Num(Num::Float(s@)),
            Look::Text(s) => YamlView::Text(s@),
            Look::List(items) => YamlView::List(yaml_documents(items@)),
            Look::Mapping(m) => YamlView::Mapping(mapping_entries(**m)),
            Look::Tagged(tag, inner) => YamlView::Tagged(
                tag@,
                Box::new(yaml_document(**inner)),
            ),
        }
    }
}

/// Tells the variants of a `serde_yaml::Value` apart. `Number::as_u64` and
/// `Number::as_i64` tell integers from other numbers, which are known by what
/// they print as; a tag is known by what it prints as.
#[verifier::external_body]
pub(crate) fn look<'a>(v: &'a serde_yaml::Value) -> (r: Look<'a>)
    ensures
        r@ == yaml_document(*v),
        r matches Look::Negative(n) ==> n < 0,
{
    match v {
        serde_yaml::Value::Null => Look::Null,
        serde_yaml::Value::Bool(b) => Look::Bool(*b),
        serde_yaml::Value::Number(n) => match (n.as_u64(), n.as_i64()) {
            (Some(u), _) => Look::Unsigned(u),
            (None, Some(i)) => Look::Negative(i),
            (None, None) => Look::Float(n.to_string()),
        },
        serde_yaml::Value::String(s) => Look::Text(s.as_str()),
        serde_yaml::Value::Sequence(items) => Look::List(items),
        serde_yaml::Value::Mapping(m) => Look::Mapping(m),
        serde_yaml::Value::Tagged(t) => Look::Tagged(t.tag.to_string(), &t.value),
    }
}

/// `Mapping::get` with a text: the value of the entry whose key is that text.
#[verifier::external_body]
pub(crate) fn entry_of<'a>(m: &'a serde_yaml::Mapping, key: &str) -> (r: Option<
    &'a serde_yaml::Value,
>)
    ensures
        match r {
            Some(v) => text_entry(mapping_entries(*m), key@, 0) == Some(yaml_document(*v)),
            None => text_entry(mapping_entries(*m), key@, 0) is None,
        },
{
    m.get(key)
}

/// `Value::as_mapping_mut`: the mapping in a value, looking through tags. What
/// the mapping becomes, the value holds within the same tags.
#[verifier::external_body]
pub(crate) fn mapping_in(v: &mut serde_yaml::Value) -> (r: Option<&mut serde_yaml::Mapping>)
    ensures
        match r {
            Some(m) => untagged(yaml_document(*old(v))) == YamlView::Mapping(mapping_entries(*m))
                && yaml_document(*final(v)) == retagged(
                yaml_document(*old(v)),
                YamlView::Mapping(mapping_entries(*final(m))),
            ),
            None => !(untagged(yaml_document(*old(v))) is Mapping) && *final(v) == *old(v),
        },
{
    v.as_mapping_mut()
}

/// `Mapping::new`: no entries.
#[verifier::external_body]
pub(crate) fn new_mapping() -> (r: serde_yaml::Mapping)
    ensures
        mapping_entries(r) == Seq::<(YamlView, YamlView)>::empty(),
{
    serde_yaml::Mapping::new()
}

/// `Mapping::insert` under a text: replaces the value where the key is there,
/// and appends an entry where it is not.
#[verifier::external_body]
pub(crate) fn insert_entry(m: &mut serde_yaml::Mapping, key: &str, value: serde_yaml::Value)
    ensures
        mapping_entries(*final(m)) == with_entry(
            mapping_entries(*old(m)),
            key@,
            yaml_document(value),
        ),
{
    m.insert(serde_yaml::Value::from(key), value);
}

/// `Mapping::shift_remove` with a text: removes the entry whose key is that
/// text, and keeps the order of the others.
#[verifier::external_body]
pub(crate) fn remove_entry(m: &mut serde_yaml::Mapping, key: &str)
    ensures
        mapping_entries(*final(m)) == mapping_entries(*old(m)).filter(
            |e: (YamlView, YamlView)| e.0 != YamlView::Text(key@),
        ),
{
    m.shift_remove(key);
}

/// `Mapping::retain`, with the entries whose key is not a text: those stay, in
/// order. A key is read through its tags.
#[verifier::external_body]
pub(crate) fn drop_entries_named(m: &mut serde_yaml::Mapping, key: &str)
    ensures
        mapping_entries(*final(m)) == mapping_entries(*old(m)).filter(
            |e: (YamlView, YamlView)| yaml_text(e.0) != Some(key@),
        ),
{
    m.retain(|k, _| !is_named(k, key));
}

/// `Mapping::extend` with the entries of another mapping: they follow in their
/// order, where none of their keys is there already. The keys that are there
/// are texts, and equal to no key but the same text.
#[verifier::external_body]
pub(crate) fn extend_mapping(m: &mut serde_yaml::Mapping, rest: serde_yaml::Mapping)
    requires
        forall|i: int|
            0 <= i < mapping_entries(*old(m)).len() ==> (#[trigger] mapping_entries(
                *old(m),
            )[i]).0 is Text && text_entry(
                mapping_entries(rest),
                mapping_entries(*old(m))[i].0->Text_0,
                0,
            ) is None,
    ensures
        mapping_entries(*final(m)) == mapping_entries(*old(m)) + mapping_entries(rest),
{
    m.extend(rest);
}

/// One level of a YAML value to be made.
pub enum YamlParts {
    Null,
    Bool(bool),
    Unsigned(u64),
    Negative(i64),
    Text(String),
    List(Vec<serde_yaml::Value>),
    Mapping(serde_yaml::Mapping),
}

impl YamlParts {
    pub open spec fn view(&self) -> YamlView {
        match self {
            YamlParts::Null => YamlView::Null,
            YamlParts::Bool(b) => YamlView::Bool(*b),
            YamlParts::Unsigned(n) => YamlView::Num(Num::Int(*n as int)),
            YamlParts::Negative(n) => YamlView::Num(Num::Int(*n as int)),
            YamlParts::Text(s) => YamlView::Text(s@),
            YamlParts::List(items) => YamlView::List(yaml_documents(items@)),
            YamlParts::Mapping(m) => YamlView::Mapping(mapping_entries(*m)),
        }
    }
}

/// Puts a `serde_yaml::Value` together from one level of parts.
#[verifier::external_body]
pub(crate) fn make_yaml(parts: YamlParts) -> (r: serde_yaml::Value)
    ensures
        yaml_document(r) == parts@,
{
    match parts {
        YamlParts::Null => serde_yaml::Value::Null,
        YamlParts::Bool(b) => serde_yaml::Value::Bool(b),
        YamlParts::Unsigned(n) => serde_yaml::Value::from(n),
        YamlParts::Negative(n) => serde_yaml::Value::from(n),
        YamlParts::Text(s) => serde_yaml::Value::String(s),
        YamlParts::List(items) => serde_yaml::Value::Sequence(items),
        YamlParts::Mapping(m) => serde_yaml::Value::Mapping(m),
    }
}

/// What `serde_yaml::to_value` makes of a JSON number that prints as a text with
/// a fraction or an exponent.
pub uninterp spec fn yaml_number(text: Seq<char>) -> YamlView;

/// `serde_yaml::to_value` on a `serde_json::Number` that is no integer. The
/// serialization of a number does not fail.
#[verifier::external_body]
pub(crate) fn make_yaml_number(n: &serde_json::Number) -> (r: serde_yaml::Value)
    requires
        crate::value::fractional(crate::value::printed_number(*n)),
    ensures
        yaml_document(r) == yaml_number(crate::value::printed_number(*n)),
{
    serde_yaml::to_value(n).unwrap_or(serde_yaml::Value::Null)
}

/// What `serde_yaml::from_str` reads a text as: a document, or an error with
/// its message.
pub uninterp spec fn yaml_reading(text: Seq<char>) -> Result<YamlView, Seq<char>>;

/// The text that `serde_yaml::to_string` prints for a document, or an error
/// with its message.
pub uninterp spec fn yaml_printing(v: YamlView) -> Result<Seq<char>, Seq<char>>;

/// `serde_yaml::from_str` into a `serde_yaml::Value`, its error as text.
#[verifier::external_body]
pub(crate) fn read_yaml(text: &str) -> (r: Result<serde_yaml::Value, String>)
    ensures
        match r {
            Ok(v) => yaml_reading(text@) == Ok::<YamlView, Seq<char>>(yaml_document(v)),
            Err(e) => yaml_reading(text@) == Err::<YamlView, Seq<char>>(e@),
        },
{
    serde_yaml::from_str(text).map_err(|e| e.to_string())
}

/// What the text that is printed for a document begins with, where it is clear: a
/// tag begins with its mark, and a mapping with the line of its first entry.
pub open spec fn printed_first(v: YamlView) -> Option<Seq<char>> {
    match v {
        YamlView::Tagged(_, _) => Some("!"@),
        YamlView::Mapping(e) => if e.len() > 0 && e[0].0 == YamlView::Text("version"@) {
            match e[0].1 {
                YamlView::Num(Num::Int(n)) => Some(
                    "version: "@ + number_text(Num::Int(n)) + "\n"@,
                ),
                _ => None,
            }
        } else {
            None
        },
        _ => None,
    }
}

/// `serde_yaml::to_string` on a `serde_yaml::Value`, its error as text. Nothing is
/// printed before the document, and a mapping is printed one entry to a line, the
/// word `version` and an integer as they are.
#[verifier::external_body]
pub(crate) fn print_yaml(v: &serde_yaml::Value) -> (r: Result<String, String>)
    ensures
        match r {
            Ok(s) => yaml_printing(yaml_document(*v)) == Ok::<Seq<char>, Seq<char>>(s@) && (
            printed_first(yaml_document(*v)) matches Some(first) ==> begins(s@, first)),
            Err(e) => yaml_printing(yaml_document(*v)) == Err::<Seq<char>, Seq<char>>(e@),
        },
{
    serde_yaml::to_string(v).map_err(|e| e.to_string())
}

/// A value within a mapping is smaller than the value that holds the mapping.
pub proof fn member_shrinks(v: YamlView, key: Seq<char>)
    requires
        yaml_member(v, key) is Some,
    ensures
        decreases_to!(v => yaml_member(v, key)->0),
    decreases v,
{
    match v {
        YamlView::Tagged(_, inner) => {
            member_shrinks(*inner, key);
            assert(decreases_to!(v => v->Tagged_1));
            assert(decreases_to!(v => *inner));
        },
        YamlView::Mapping(e) => {
            let i = entry_index(e, key, 0);
            assert(decreases_to!(v => v->Mapping_0));
            assert(decreases_to!(v->Mapping_0 => v->Mapping_0[i]));
            assert(decreases_to!(v->Mapping_0[i] => v->Mapping_0[i].1));
        },
        _ => {},
    }
}

proof fn entry_index(e: YamlEntries, key: Seq<char>, from: int) -> (i: int)
    requires
        text_entry(e, key, from) is Some,
    ensures
        from <= i < e.len(),
        i >= 0,
        text_entry(e, key, from) == Some(e[i].1),
    decreases e.len() - from,
{
    if e[from].0 == YamlView::Text(key) {
        from
    } else {
        entry_index(e, key, from + 1)
    }
}

/// An item of a list is smaller than the list.
pub proof fn item_shrinks(v: YamlView, i: int)
    requires
        v is List,
        0 <= i < v->List_0.len(),
    ensures
        decreases_to!(v => v->List_0[i]),
{
    assert(decreases_to!(v => v->List_0));
    assert(decreases_to!(v->List_0 => v->List_0[i]));
}

/// The text of a value, looking through tags.
pub fn text_in<'a>(v: &'a serde_yaml::Value) -> (r: Option<&'a str>)
    ensures
        match r {
            Some(s) => yaml_text(yaml_document(*v)) == Some(s@),
            None => yaml_text(yaml_document(*v)) is None,
        },
    decreases yaml_document(*v),
{
    match look(v) {
        Look::Text(s) => Some(s),
        Look::Tagged(_, inner) => text_in(inner),
        _ => None,
    }
}

/// The value under a key of a mapping, looking through tags.
pub fn member_in<'a>(v: &'a serde_yaml::Value, key: &str) -> (r: Option<&'a serde_yaml::Value>)
    ensures
        match r {
            Some(m) => yaml_member(yaml_document(*v), key@) == Some(yaml_document(*m)),
            None => yaml_member(yaml_document(*v), key@) is None,
        },
    decreases yaml_document(*v),
{
    match look(v) {
        Look::Mapping(m) => entry_of(m, key),
        Look::Tagged(_, inner) => member_in(inner, key),
        _ => None,
    }
}

/// Whether a key is a text, read through its tags.
fn is_named(k: &serde_yaml::Value, key: &str) -> (r: bool)
    ensures
        r == (yaml_text(yaml_document(*k)) == Some(key@)),
{
    match text_in(k) {
        Some(s) => same_text(s, key),
        None => false,
    }
}

} // verus!
