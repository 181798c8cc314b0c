//! JSON-shaped data: the values that flow between plan steps, their
//! mathematical model, and the operations on objects.

use crate::text::{cat2, decimal, numeral, same_text, text_before, text_less, texts};
use vstd::prelude::*;

verus! {

/// serde_json's number type, used to carry numbers with a fraction or an
/// exponent; integers are held as integers.
#[verifier::external_type_specification]
#[verifier::external_body]
pub struct ExNumber(serde_json::Number);

/// The text that serde_json prints for a number.
pub uninterp spec fn printed_number(n: serde_json::Number) -> Seq<char>;

/// Whether a numeral has a fraction or an exponent.
pub open spec fn fractional(s: Seq<char>) -> bool {
    s.contains('.') || s.contains('e')
}

/// A number that is not an integer of 64 bits.
#[derive(Debug, PartialEq)]
pub struct Float {
    number: serde_json::Number,
}

impl Float {
    /// The text it prints as, which identifies it up to the sign of zero.
    pub closed spec fn view(&self) -> Seq<char> {
        printed_number(self.number)
    }

    #[verifier::type_invariant]
    pub(crate) closed spec fn prints_fractional(&self) -> bool {
        fractional(printed_number(self.number))
    }

    /// The number that serde_json holds.
    pub(crate) fn number(&self) -> (r: &serde_json::Number)
        ensures
            printed_number(*r) == self@,
            fractional(self@),
    {
        proof {
            use_type_invariant(self);
        }
        &self.number
    }

    /// A copy of the number that serde_json holds.
    pub(crate) fn release(&self) -> (r: serde_json::Number)
        ensures
            printed_number(r) == self@,
            fractional(self@),
    {
        proof {
            use_type_invariant(self);
        }
        self.number.clone()
    }

    /// A copy of the number.
    pub fn copy(&self) -> (r: Float)
        ensures
            r@ == self@,
    {
        proof {
            use_type_invariant(self);
        }
        Float { number: self.number.clone() }
    }

    /// Wraps a number that prints with a fraction or an exponent.
    pub(crate) fn wrap(number: serde_json::Number) -> (r: Float)
        requires
            fractional(printed_number(number)),
        ensures
            r@ == printed_number(number),
    {
        Float { number }
    }
}

/// `<serde_json::Number as Clone>::clone`: the copy prints as the original.
pub assume_specification[ <serde_json::Number as std::clone::Clone>::clone ](
    n: &serde_json::Number,
) -> (r: serde_json::Number)
    ensures
        printed_number(r) == printed_number(*n),
;

/// `<serde_json::Number as Display>::fmt`, through `to_string`.
#[verifier::external_body]
fn print_number(n: &serde_json::Number) -> (r: String)
    ensures
        r@ == printed_number(*n),
{
    n.to_string()
}

/// A JSON number.
#[derive(Debug, PartialEq)]
pub enum Quantity {
    /// A non-negative integer.
    Unsigned(u64),
    /// A negative integer.
    Negative(i64),
    /// Any other number.
    Float(Float),
}

/// A JSON object: its entries in ascending order of keys, each key once.
#[derive(Debug, PartialEq)]
pub struct Fields {
    entries: Vec<(String, Data)>,
}

/// A JSON value.
#[derive(Debug, PartialEq)]
pub enum Data {
    Null,
    Bool(bool),
    Num(Quantity),
    Text(String),
    List(Vec<Data>),
    Object(Fields),
}

/// The model of a number.
pub enum Num {
    Int(int),
    /// The text it prints as.
    Float(Seq<char>),
}

/// The model of a value.
pub enum Json {
    Null,
    Bool(bool),
    Num(Num),
    Text(Seq<char>),
    List(Seq<Json>),
    Object(Seq<(Seq<char>, Json)>),
}

/// The model of an object: its entries.
pub type Entries = Seq<(Seq<char>, Json)>;

pub open spec fn values_view(s: Seq<Data>) -> Seq<Json>
    decreases s,
{
    Seq::new(s.len(), |i: int| if 0 <= i < s.len() { s[i].view() } else { Json::Null })
}

pub open spec fn entries_view(s: Seq<(String, Data)>) -> Entries
    decreases s,
{
    Seq::new(
        s.len(),
        |i: int|
            if 0 <= i < s.len() {
                (s[i].0@, s[i].1.view())
            } else {
                (Seq::empty(), Json::Null)
            },
    )
}

impl Quantity {
    pub open spec fn view(&self) -> Num {
        match self {
            Quantity::Unsigned(n) => Num::Int(*n as int),
            Quantity::Negative(n) => Num::Int(*n as int),
            Quantity::Float(f) => Num::Float(f@),
        }
    }

    /// A copy of the number.
    pub fn copy(&self) -> (r: Quantity)
        ensures
            r@ == self@,
    {
        match self {
            Quantity::Unsigned(n) => Quantity::Unsigned(*n),
            Quantity::Negative(n) => Quantity::Negative(*n),
            Quantity::Float(f) => Quantity::Float(f.copy()),
        }
    }

    /// The number as JSON text.
    pub fn text(&self) -> (r: String)
        ensures
            r@ == number_text(self@),
    {
        match self {
            Quantity::Unsigned(n) => decimal(*n),
            Quantity::Negative(n) => {
                if *n < 0 {
                    let magnitude: u64 = (-(*n + 1)) as u64 + 1;
                    cat2("-", decimal(magnitude).as_str())
                } else {
                    decimal(*n as u64)
                }
            },
            Quantity::Float(f) => print_number(f.number()),
        }
    }
}

impl Fields {
    /// The entries, in order.
    pub closed spec fn view(&self) -> Entries
        decreases self,
    {
        entries_view(self.entries@)
    }

    #[verifier::type_invariant]
    pub open spec fn keys_are_ascending(&self) -> bool {
        ascending(self.view())
    }
}

impl Data {
    pub open spec fn view(&self) -> Json
        decreases self,
    {
        match self {
            Data::Null => Json::Null,
            Data::Bool(b) => Json::Bool(*b),
            Data::Num(n) => Json::Num(n@),
            Data::Text(s) => Json::Text(s@),
            Data::List(items) => Json::List(values_view(items@)),
            Data::Object(fields) => Json::Object(fields.view()),
        }
    }
}

// ── The model's operations ───────────────────────────────────────────────

/// The decimal text of an integer.
pub open spec fn int_text(n: int) -> Seq<char> {
    if n < 0 { "-"@ + numeral((-n) as nat) } else { numeral(n as nat) }
}

/// The JSON text of a number.
pub open spec fn number_text(n: Num) -> Seq<char> {
    match n {
        Num::Int(i) => int_text(i),
        Num::Float(t) => t,
    }
}

/// The value stored under a key, if there is one.
pub open spec fn lookup(s: Entries, key: Seq<char>) -> Option<Json>
    decreases s.len(),
{
    if s.len() == 0 {
        None
    } else if s[0].0 == key {
        Some(s[0].1)
    } else {
        lookup(s.skip(1), key)
    }
}

/// The entries with `key` set to `value`: replaced where it stands, or
/// inserted before the first greater key.
pub open spec fn put(s: Entries, key: Seq<char>, value: Json) -> Entries
    decreases s.len(),
{
    if s.len() == 0 {
        seq![(key, value)]
    } else if s[0].0 == key {
        seq![(key, value)] + s.skip(1)
    } else if text_less(key, s[0].0) {
        seq![(key, value)] + s
    } else {
        seq![s[0]] + put(s.skip(1), key, value)
    }
}

/// The entries without the first one under `key`.
pub open spec fn without(s: Entries, key: Seq<char>) -> Entries
    decreases s.len(),
{
    if s.len() == 0 {
        s
    } else if s[0].0 == key {
        s.skip(1)
    } else {
        seq![s[0]] + without(s.skip(1), key)
    }
}

/// The object with these entries; of two under one key the later counts.
pub open spec fn object(pairs: Entries) -> Entries
    decreases pairs.len(),
{
    if pairs.len() == 0 {
        Entries::empty()
    } else {
        put(object(pairs.drop_last()), pairs.last().0, pairs.last().1)
    }
}

/// The keys, in order.
pub open spec fn keys_of(s: Entries) -> Seq<Seq<char>> {
    Seq::new(s.len(), |i: int| s[i].0)
}

/// Whether the keys ascend strictly, so that no key occurs twice.
pub open spec fn ascending(s: Entries) -> bool {
    forall|i: int, j: int| 0 <= i < j < s.len() ==> text_less(#[trigger] s[i].0, #[trigger] s[j].0)
}

/// Whether every object inside a value has ascending keys.
pub open spec fn well_formed(v: Json) -> bool
    decreases v,
{
    match v {
        Json::List(items) => forall|i: int|
            0 <= i < items.len() ==> well_formed(#[trigger] items[i]),
        Json::Object(entries) => ascending(entries) && forall|i: int|
            0 <= i < entries.len() ==> well_formed((#[trigger] entries[i]).1),
        _ => true,
    }
}

/// The value under a key of an object; nothing for any other value.
pub open spec fn member(v: Json, key: Seq<char>) -> Option<Json> {
    match v {
        Json::Object(entries) => lookup(entries, key),
        _ => None,
    }
}

/// Quantity equality: integers by value, others by what they print, the two
/// zeros alike; an integer never equals another kind.
pub open spec fn same_number(a: Num, b: Num) -> bool {
    match (a, b) {
        (Num::Int(x), Num::Int(y)) => x == y,
        (Num::Float(x), Num::Float(y)) => x == y || (is_zero(x) && is_zero(y)),
        _ => false,
    }
}

pub open spec fn is_zero(s: Seq<char>) -> bool {
    s == "0.0"@ || s == "-0.0"@
}

/// Data equality.
pub open spec fn same_json(a: Json, b: Json) -> bool
    decreases a,
{
    match (a, b) {
        (Json::Null, Json::Null) => true,
        (Json::Bool(x), Json::Bool(y)) => x == y,
        (Json::Num(x), Json::Num(y)) => same_number(x, y),
        (Json::Text(x), Json::Text(y)) => x == y,
        (Json::List(x), Json::List(y)) => x.len() == y.len() && forall|i: int|
            0 <= i < x.len() ==> same_json(#[trigger] x[i], y[i]),
        (Json::Object(x), Json::Object(y)) => x.len() == y.len() && forall|i: int|
            0 <= i < x.len() ==> (#[trigger] x[i]).0 == y[i].0 && same_json(x[i].1, y[i].1),
        _ => false,
    }
}

/// An item of an array is smaller than the array.
pub proof fn list_shrinks(j: Json, i: int)
    requires
        j is List,
        0 <= i < j->List_0.len(),
    ensures
        decreases_to!(j => j->List_0[i]),
{
    assert(decreases_to!(j => j->List_0));
    assert(decreases_to!(j->List_0 => j->List_0[i]));
}

/// A value in an object is smaller than the object.
pub proof fn object_shrinks(j: Json, i: int)
    requires
        j is Object,
        0 <= i < j->Object_0.len(),
    ensures
        decreases_to!(j => j->Object_0[i].1),
{
    assert(decreases_to!(j => j->Object_0));
    assert(decreases_to!(j->Object_0 => j->Object_0[i]));
    assert(decreases_to!(j->Object_0[i] => j->Object_0[i].1));
}

// ── Executable operations ────────────────────────────────────────────────

/// Whether two numbers are equal.
fn numbers_equal(a: &Quantity, b: &Quantity) -> (r: bool)
    ensures
        r == same_number(a@, b@),
{
    match (a, b) {
        (Quantity::Float(x), Quantity::Float(y)) => {
            let s = print_number(x.number());
            let t = print_number(y.number());
            let zero = |u: &String| -> (z: bool)
                ensures
                    z == is_zero(u@),
            { same_text(u.as_str(), "0.0") || same_text(u.as_str(), "-0.0") };
            s == t || (zero(&s) && zero(&t))
        },
        (Quantity::Unsigned(x), Quantity::Unsigned(y)) => *x == *y,
        (Quantity::Negative(x), Quantity::Negative(y)) => *x == *y,
        (Quantity::Unsigned(x), Quantity::Negative(y)) => *y >= 0 && *x == *y as u64,
        (Quantity::Negative(x), Quantity::Unsigned(y)) => *x >= 0 && *x as u64 == *y,
        _ => false,
    }
}

impl Data {
    /// A copy of the value.
    pub fn copy(&self) -> (r: Data)
        ensures
            r@ == self@,
        decreases self,
    {
        match self {
            Data::Null => Data::Null,
            Data::Bool(b) => Data::Bool(*b),
            Data::Num(n) => Data::Num(n.copy()),
            Data::Text(s) => Data::Text(s.clone()),
            Data::List(items) => {
                let mut out: Vec<Data> = Vec::new();
                let mut i: usize = 0;
                while i < items.len()
                    invariant
                        i <= items@.len(),
                        out@.len() == i,
                        forall|j: int| 0 <= j < i ==> (#[trigger] out@[j])@ == items@[j]@,
                        decreases_to!(self => items),
                    decreases items.len() - i,
                {
                    out.push(items[i].copy());
                    i += 1;
                }
                assert(values_view(out@) =~= values_view(items@));
                Data::List(out)
            },
            Data::Object(fields) => {
                Data::Object(fields.copy())
            },
        }
    }

    /// Whether two values are equal.
    #[verifier::loop_isolation(false)]
    pub fn same(&self, other: &Data) -> (r: bool)
        ensures
            r == same_json(self@, other@),
        decreases self,
    {
        match (self, other) {
            (Data::Null, Data::Null) => true,
            (Data::Bool(x), Data::Bool(y)) => *x == *y,
            (Data::Num(x), Data::Num(y)) => numbers_equal(x, y),
            (Data::Text(x), Data::Text(y)) => *x == *y,
            (Data::List(x), Data::List(y)) => {
                if x.len() != y.len() {
                    return false;
                }
                let mut i: usize = 0;
                while i < x.len()
                    invariant
                        i <= x@.len(),
                        x@.len() == y@.len(),
                        forall|j: int| 0 <= j < i ==> same_json((#[trigger] x@[j])@, y@[j]@),
                        decreases_to!(self => x),
                    decreases x.len() - i,
                {
                    if !x[i].same(&y[i]) {
                        assert(!same_json(values_view(x@)[i as int], values_view(y@)[i as int]));
                        assert(self@ is List && other@ is List);
                        return false;
                    }
                    i += 1;
                }
                assert forall|j: int| 0 <= j < x@.len() implies same_json(
                    #[trigger] values_view(x@)[j],
                    values_view(y@)[j],
                ) by {
                    assert(same_json(x@[j]@, y@[j]@));
                }
                true
            },
            (Data::Object(f), Data::Object(g)) => {
                let x = &f.entries;
                let y = &g.entries;
                assert(f@ == entries_view(x@) && g@ == entries_view(y@));
                if x.len() != y.len() {
                    return false;
                }
                let mut i: usize = 0;
                while i < x.len()
                    invariant
                        i <= x@.len(),
                        x@.len() == y@.len(),
                        forall|j: int|
                            0 <= j < i ==> (#[trigger] x@[j]).0@ == y@[j].0@ && same_json(
                                x@[j].1@,
                                y@[j].1@,
                            ),
                        decreases_to!(self => x@),
                    decreases x.len() - i,
                {
                    let a = &x[i];
                    let b = &y[i];
                    if !same_text(a.0.as_str(), b.0.as_str()) || !a.1.same(&b.1) {
                        assert(entries_view(x@)[i as int].0 == a.0@);
                        assert(entries_view(x@)[i as int].1 == a.1@);
                        assert(self@ is Object && other@ is Object);
                        return false;
                    }
                    i += 1;
                }
                assert forall|j: int| 0 <= j < x@.len() implies (#[trigger] entries_view(x@)[j]).0
                    == entries_view(y@)[j].0 && same_json(
                    entries_view(x@)[j].1,
                    entries_view(y@)[j].1,
                ) by {
                    assert(x@[j].0@ == y@[j].0@);
                }
                true
            },
            _ => false,
        }
    }

    /// The value under a key of an object.
    pub fn get(&self, key: &str) -> (r: Option<&Data>)
        ensures
            match r {
                Some(v) => member(self@, key@) == Some(v@),
                None => member(self@, key@) is None,
            },
    {
        match self {
            Data::Object(fields) => fields.get(key),
            _ => None,
        }
    }

    /// A string value.
    pub fn text(s: &str) -> (r: Data)
        ensures
            r@ == Json::Text(s@),
    {
        Data::Text(s.to_owned())
    }

    /// A length, count or index as a value.
    pub fn count(n: usize) -> (r: Data)
        ensures
            r@ == Json::Num(Num::Int(n as int)),
    {
        Data::Num(Quantity::Unsigned(n as u64))
    }
}

/// Strings as an array.
pub open spec fn text_list(s: Seq<Seq<char>>) -> Json {
    Json::List(Seq::new(s.len(), |i: int| Json::Text(s[i])))
}

/// Strings as an array.
pub fn text_array(s: &Vec<String>) -> (r: Data)
    ensures
        r@ == text_list(crate::text::texts(s@)),
{
    let mut out: Vec<Data> = Vec::new();
    let mut i: usize = 0;
    while i < s.len()
        invariant
            i <= s@.len(),
            out@.len() == i,
            forall|k: int| 0 <= k < i ==> (#[trigger] out@[k])@ == Json::Text(s@[k]@),
        decreases s.len() - i,
    {
        out.push(Data::Text(s[i].clone()));
        i += 1;
    }
    assert(values_view(out@) =~= Seq::new(
        crate::text::texts(s@).len(),
        |i: int| Json::Text(crate::text::texts(s@)[i]),
    ));
    Data::List(out)
}

/// An array with one item.
pub fn list1(v1: Data) -> (r: Data)
    ensures
        r@ == Json::List(seq![v1@]),
{
    let items = vec![v1];
    assert(values_view(items@) =~= seq![v1@]);
    Data::List(items)
}

/// An array with two items.
pub fn list2(v1: Data, v2: Data) -> (r: Data)
    ensures
        r@ == Json::List(seq![v1@, v2@]),
{
    let items = vec![v1, v2];
    assert(values_view(items@) =~= seq![v1@, v2@]);
    Data::List(items)
}

/// An array with three items.
pub fn list3(v1: Data, v2: Data, v3: Data) -> (r: Data)
    ensures
        r@ == Json::List(seq![v1@, v2@, v3@]),
{
    let items = vec![v1, v2, v3];
    assert(values_view(items@) =~= seq![v1@, v2@, v3@]);
    Data::List(items)
}

/// An array with nine items.
pub fn list9(
    v1: Data,
    v2: Data,
    v3: Data,
    v4: Data,
    v5: Data,
    v6: Data,
    v7: Data,
    v8: Data,
    v9: Data,
) -> (r: Data)
    ensures
        r@ == Json::List(seq![v1@, v2@, v3@, v4@, v5@, v6@, v7@, v8@, v9@]),
{
    let items = vec![v1, v2, v3, v4, v5, v6, v7, v8, v9];
    assert(values_view(items@) =~= seq![v1@, v2@, v3@, v4@, v5@, v6@, v7@, v8@, v9@]);
    Data::List(items)
}

/// An object with one entry.
pub fn obj1(k1: &str, v1: Data) -> (r: Data)
    ensures
        r@ == Json::Object(object(seq![(k1@, v1@)])),
{
    let ghost pairs = seq![(k1@, v1@)];
    let mut fields = Fields::new();
    fields.insert(k1.to_owned(), v1);
    proof {
        assert(pairs.drop_last() =~= Entries::empty());
        reveal_with_fuel(object, 2);
    }
    Data::Object(fields)
}

/// An object with two entries.
pub fn obj2(k1: &str, v1: Data, k2: &str, v2: Data) -> (r: Data)
    ensures
        r@ == Json::Object(object(seq![(k1@, v1@), (k2@, v2@)])),
{
    let ghost pairs = seq![(k1@, v1@), (k2@, v2@)];
    proof {
        assert(pairs.drop_last() =~= seq![(k1@, v1@)]);
    }
    let mut fields = match obj1(k1, v1) {
        Data::Object(fields) => fields,
        _ => Fields::new(),
    };
    fields.insert(k2.to_owned(), v2);
    Data::Object(fields)
}

/// An object with three entries.
pub fn obj3(k1: &str, v1: Data, k2: &str, v2: Data, k3: &str, v3: Data) -> (r: Data)
    ensures
        r@ == Json::Object(object(seq![(k1@, v1@), (k2@, v2@), (k3@, v3@)])),
{
    let ghost pairs = seq![(k1@, v1@), (k2@, v2@), (k3@, v3@)];
    proof {
        assert(pairs.drop_last() =~= seq![(k1@, v1@), (k2@, v2@)]);
    }
    let mut fields = match obj2(k1, v1, k2, v2) {
        Data::Object(fields) => fields,
        _ => Fields::new(),
    };
    fields.insert(k3.to_owned(), v3);
    Data::Object(fields)
}

/// An object with four entries.
pub fn obj4(
    k1: &str,
    v1: Data,
    k2: &str,
    v2: Data,
    k3: &str,
    v3: Data,
    k4: &str,
    v4: Data,
) -> (r: Data)
    ensures
        r@ == Json::Object(object(seq![(k1@, v1@), (k2@, v2@), (k3@, v3@), (k4@, v4@)])),
{
    let ghost pairs = seq![(k1@, v1@), (k2@, v2@), (k3@, v3@), (k4@, v4@)];
    proof {
        assert(pairs.drop_last() =~= seq![(k1@, v1@), (k2@, v2@), (k3@, v3@)]);
    }
    let mut fields = match obj3(k1, v1, k2, v2, k3, v3) {
        Data::Object(fields) => fields,
        _ => Fields::new(),
    };
    fields.insert(k4.to_owned(), v4);
    Data::Object(fields)
}

/// An object with five entries.
pub fn obj5(
    k1: &str,
    v1: Data,
    k2: &str,
    v2: Data,
    k3: &str,
    v3: Data,
    k4: &str,
    v4: Data,
    k5: &str,
    v5: Data,
) -> (r: Data)
    ensures
        r@ == Json::Object(
            object(seq![(k1@, v1@), (k2@, v2@), (k3@, v3@), (k4@, v4@), (k5@, v5@)]),
        ),
{
    let ghost pairs = seq![(k1@, v1@), (k2@, v2@), (k3@, v3@), (k4@, v4@), (k5@, v5@)];
    proof {
        assert(pairs.drop_last() =~= seq![(k1@, v1@), (k2@, v2@), (k3@, v3@), (k4@, v4@)]);
    }
    let mut fields = match obj4(k1, v1, k2, v2, k3, v3, k4, v4) {
        Data::Object(fields) => fields,
        _ => Fields::new(),
    };
    fields.insert(k5.to_owned(), v5);
    Data::Object(fields)
}

/// An object with six entries.
pub fn obj6(
    k1: &str,
    v1: Data,
    k2: &str,
    v2: Data,
    k3: &str,
    v3: Data,
    k4: &str,
    v4: Data,
    k5: &str,
    v5: Data,
    k6: &str,
    v6: Data,
) -> (r: Data)
    ensures
        r@ == Json::Object(
            object(seq![(k1@, v1@), (k2@, v2@), (k3@, v3@), (k4@, v4@), (k5@, v5@), (k6@, v6@)]),
        ),
{
    let ghost pairs = seq![(k1@, v1@), (k2@, v2@), (k3@, v3@), (k4@, v4@), (k5@, v5@), (k6@, v6@)];
    proof {
        assert(
            pairs.drop_last() =~= seq![(k1@, v1@), (k2@, v2@), (k3@, v3@), (k4@, v4@), (k5@, v5@)]
        );
    }
    let mut fields = match obj5(k1, v1, k2, v2, k3, v3, k4, v4, k5, v5) {
        Data::Object(fields) => fields,
        _ => Fields::new(),
    };
    fields.insert(k6.to_owned(), v6);
    Data::Object(fields)
}

impl Fields {
    /// An object without entries.
    pub fn new() -> (r: Fields)
        ensures
            r@ == Entries::empty(),
    {
        let entries: Vec<(String, Data)> = Vec::new();
        assert(entries_view(entries@) =~= Entries::empty());
        Fields { entries }
    }

    /// How many entries there are.
    pub fn len(&self) -> (r: usize)
        ensures
            r == self@.len(),
    {
        self.entries.len()
    }

    /// The key at a position.
    pub fn key_at(&self, i: usize) -> (r: &String)
        requires
            i < self@.len(),
        ensures
            r@ == self@[i as int].0,
    {
        &self.entries[i].0
    }

    /// The value at a position.
    pub fn value_at(&self, i: usize) -> (r: &Data)
        requires
            i < self@.len(),
        ensures
            r@ == self@[i as int].1,
    {
        &self.entries[i].1
    }

    /// A copy of the object.
    pub fn copy(&self) -> (r: Fields)
        ensures
            r@ == self@,
        decreases self,
    {
        proof {
            use_type_invariant(self);
        }
        let entries = &self.entries;
        let mut out: Vec<(String, Data)> = Vec::new();
        let mut i: usize = 0;
        while i < entries.len()
            invariant
                i <= entries@.len(),
                out@.len() == i,
                forall|j: int|
                    0 <= j < i ==> (#[trigger] out@[j]).0@ == entries@[j].0@ && out@[j].1@
                        == entries@[j].1@,
                decreases_to!(self => entries@),
            decreases entries.len() - i,
        {
            let e = &entries[i];
            out.push((e.0.clone(), e.1.copy()));
            i += 1;
        }
        assert(entries_view(out@) =~= entries_view(entries@));
        Fields { entries: out }
    }

    /// The value stored under a key.
    pub fn get(&self, key: &str) -> (r: Option<&Data>)
        ensures
            match r {
                Some(v) => lookup(self@, key@) == Some(v@),
                None => lookup(self@, key@) is None,
            },
    {
        let mut i: usize = 0;
        assert(self@.skip(0) =~= self@);
        while i < self.entries.len()
            invariant
                i <= self@.len(),
                self@.len() == self.entries@.len(),
                lookup(self@, key@) == lookup(self@.skip(i as int), key@),
            decreases self.entries.len() - i,
        {
            let e = &self.entries[i];
            proof {
                let rest = self@.skip(i as int);
                assert(rest[0] == (e.0@, e.1@));
                assert(rest.skip(1) =~= self@.skip(i + 1));
            }
            if same_text(e.0.as_str(), key) {
                return Some(&e.1);
            }
            i += 1;
        }
        None
    }

    /// Whether a key is present.
    pub fn contains_key(&self, key: &str) -> (r: bool)
        ensures
            r == (lookup(self@, key@) is Some),
    {
        match self.get(key) {
            Some(_) => true,
            None => false,
        }
    }

    /// Adds an entry whose key comes after all others.
    pub fn append(&mut self, key: String, value: Data)
        requires
            ascending(old(self)@.push((key@, value@))),
        ensures
            final(self)@ == old(self)@.push((key@, value@)),
    {
        let mut entries: Vec<(String, Data)> = Vec::new();
        assert(entries_view(entries@) =~= Entries::empty());
        std::mem::swap(&mut entries, &mut self.entries);
        let ghost raw = entries@;
        let ghost added = (key@, value@);
        entries.push((key, value));
        assert(entries_view(entries@) =~= entries_view(raw).push(added));
        self.entries = entries;
    }

    /// Sets a key, keeping the keys ascending.
    pub fn insert(&mut self, key: String, value: Data)
        ensures
            final(self)@ == put(old(self)@, key@, value@),
    {
        proof {
            use_type_invariant(&*self);
            lemma_put_ascending(self@, key@, value@);
        }
        let ghost before = self@;
        let ghost target = (key@, value@);
        let mut entries: Vec<(String, Data)> = Vec::new();
        assert(entries_view(entries@) =~= Entries::empty());
        std::mem::swap(&mut entries, &mut self.entries);
        assert(entries_view(entries@) == before);
        let ghost raw = entries@;
        let mut i: usize = 0;
        let mut replace = false;
        assert(before.skip(0) =~= before);
        assert(before.take(0) + put(before.skip(0), key@, value@) =~= put(before, key@, value@));
        while i < entries.len()
            invariant_except_break
                put(before, key@, value@) == before.take(i as int) + put(
                    before.skip(i as int),
                    key@,
                    value@,
                ),
                !replace,
            invariant
                entries@ == raw,
                entries_view(raw) == before,
                i <= before.len(),
                before.len() == raw.len(),
                target == (key@, value@),
            ensures
                replace ==> i < before.len() && put(before, key@, value@) == before.update(
                    i as int,
                    target,
                ),
                !replace ==> put(before, key@, value@) == before.take(i as int) + (seq![target]
                    + before.skip(i as int)),
            decreases entries.len() - i,
        {
            let e = &entries[i];
            proof {
                let rest = before.skip(i as int);
                assert(rest[0] == (e.0@, e.1@));
                assert(rest.skip(1) =~= before.skip(i + 1));
                assert(before.take(i + 1) =~= before.take(i as int) + seq![rest[0]]);
            }
            if same_text(e.0.as_str(), key.as_str()) {
                replace = true;
                assert(before.take(i as int) + (seq![target] + before.skip(i + 1))
                    =~= before.update(i as int, target));
                break;
            }
            if text_before(key.as_str(), e.0.as_str()) {
                break;
            }
            proof {
                let rest = before.skip(i as int);
                assert(put(rest, key@, value@) == seq![rest[0]] + put(rest.skip(1), key@, value@));
                assert(before.take(i as int) + (seq![rest[0]] + put(rest.skip(1), key@, value@))
                    =~= before.take(i + 1) + put(before.skip(i + 1), key@, value@));
            }
            i += 1;
            assert(before.skip(before.len() as int) =~= Entries::empty());
            assert(seq![target] + Entries::empty() =~= seq![target]);
        }
        if replace {
            entries.set(i, (key, value));
            assert(entries_view(entries@) =~= before.update(i as int, target));
        } else {
            entries.insert(i, (key, value));
            assert(entries_view(entries@) =~= before.take(i as int) + (seq![target] + before.skip(
                i as int,
            )));
        }
        self.entries = entries;
    }

    /// Removes a key, keeping the order of the rest.
    pub fn remove(&mut self, key: &str)
        ensures
            final(self)@ == without(old(self)@, key@),
    {
        proof {
            use_type_invariant(&*self);
            lemma_without_ascending(self@, key@);
        }
        let ghost before = self@;
        let mut entries: Vec<(String, Data)> = Vec::new();
        assert(entries_view(entries@) =~= Entries::empty());
        std::mem::swap(&mut entries, &mut self.entries);
        let ghost raw = entries@;
        let mut i: usize = 0;
        let mut found = false;
        assert(before.skip(0) =~= before);
        assert(before.take(0) + without(before.skip(0), key@) =~= without(before, key@));
        while i < entries.len()
            invariant_except_break
                without(before, key@) == before.take(i as int) + without(
                    before.skip(i as int),
                    key@,
                ),
                !found,
            invariant
                entries@ == raw,
                entries_view(raw) == before,
                i <= before.len(),
                before.len() == raw.len(),
            ensures
                found ==> i < before.len() && without(before, key@) == before.remove(i as int),
                !found ==> without(before, key@) == before,
            decreases entries.len() - i,
        {
            let e = &entries[i];
            proof {
                let rest = before.skip(i as int);
                assert(rest[0] == (e.0@, e.1@));
                assert(rest.skip(1) =~= before.skip(i + 1));
                assert(before.take(i + 1) =~= before.take(i as int) + seq![rest[0]]);
            }
            if same_text(e.0.as_str(), key) {
                found = true;
                assert(before.take(i as int) + before.skip(i + 1) =~= before.remove(i as int));
                break;
            }
            proof {
                let rest = before.skip(i as int);
                assert(without(rest, key@) == seq![rest[0]] + without(rest.skip(1), key@));
                assert(before.take(i as int) + (seq![rest[0]] + without(rest.skip(1), key@))
                    =~= before.take(i + 1) + without(before.skip(i + 1), key@));
            }
            i += 1;
            assert(before.skip(before.len() as int) =~= Entries::empty());
            assert(before.take(before.len() as int) + Entries::empty() =~= before);
        }
        if found {
            entries.remove(i);
            assert(entries_view(entries@) =~= before.remove(i as int));
        }
        self.entries = entries;
    }

    /// The keys, in order.
    pub fn keys(&self) -> (r: Vec<String>)
        ensures
            texts(r@) == keys_of(self@),
    {
        let mut out: Vec<String> = Vec::new();
        let mut i: usize = 0;
        while i < self.entries.len()
            invariant
                i <= self@.len(),
                self@.len() == self.entries@.len(),
                out@.len() == i,
                forall|j: int| 0 <= j < i ==> (#[trigger] out@[j])@ == self@[j].0,
            decreases self.entries.len() - i,
        {
            out.push(self.entries[i].0.clone());
            i += 1;
        }
        assert(texts(out@) =~= keys_of(self@));
        out
    }
}

impl Clone for Float {
    fn clone(&self) -> (r: Float)
        ensures
            r@ == self@,
    {
        self.copy()
    }
}

impl Clone for Quantity {
    fn clone(&self) -> (r: Quantity)
        ensures
            r@ == self@,
    {
        self.copy()
    }
}

impl Clone for Fields {
    fn clone(&self) -> (r: Fields)
        ensures
            r@ == self@,
    {
        self.copy()
    }
}

impl Clone for Data {
    fn clone(&self) -> (r: Data)
        ensures
            r@ == self@,
    {
        self.copy()
    }
}

// ── Order of keys ────────────────────────────────────────────────────────

/// Reading after setting gives back what was set, and every other key as it
/// was.
pub proof fn a_set_key_reads_back(s: Entries, key: Seq<char>, value: Json, other: Seq<char>)
    ensures
        lookup(put(s, key, value), other) == (if other == key {
            Some(value)
        } else {
            lookup(s, other)
        }),
    decreases s.len(),
{
    let after = put(s, key, value);
    if s.len() == 0 {
        assert(after.skip(1) =~= Entries::empty());
        assert(lookup(after.skip(1), other) is None);
    } else if s[0].0 == key {
        assert(after.skip(1) =~= s.skip(1));
    } else if text_less(key, s[0].0) {
        assert(after.skip(1) =~= s);
    } else {
        assert(after.skip(1) =~= put(s.skip(1), key, value));
        a_set_key_reads_back(s.skip(1), key, value, other);
    }
}

/// A removed key is gone, and every other key reads as before.
pub proof fn a_removed_key_is_gone(s: Entries, key: Seq<char>, other: Seq<char>)
    requires
        ascending(s),
    ensures
        lookup(without(s, key), other) == (if other == key {
            None
        } else {
            lookup(s, other)
        }),
    decreases s.len(),
{
    if s.len() > 0 {
        let rest = s.skip(1);
        assert(ascending(rest)) by {
            assert forall|i: int, j: int| 0 <= i < j < rest.len() implies text_less(
                #[trigger] rest[i].0,
                #[trigger] rest[j].0,
            ) by {
                assert(rest[i] == s[i + 1]);
                assert(rest[j] == s[j + 1]);
            }
        }
        if s[0].0 == key {
            if lookup(rest, key) is Some {
                let k = lookup_finds(rest, key);
                assert(rest[k] == s[k + 1]);
                assert(text_less(s[0].0, s[k + 1].0));
                text_less_irreflexive(key);
            }
        } else {
            a_removed_key_is_gone(rest, key, other);
            assert(without(s, key).skip(1) =~= without(rest, key));
        }
    }
}

/// Where a key is found, an entry has it.
pub proof fn lookup_finds(s: Entries, key: Seq<char>) -> (k: int)
    requires
        lookup(s, key) is Some,
    ensures
        0 <= k < s.len(),
        s[k].0 == key,
        lookup(s, key) == Some(s[k].1),
    decreases s.len(),
{
    if s[0].0 == key {
        0
    } else {
        1 + lookup_finds(s.skip(1), key)
    }
}

/// Dictionary order is strict.
pub proof fn text_less_irreflexive(a: Seq<char>)
    ensures
        !text_less(a, a),
    decreases a.len(),
{
    if a.len() > 0 {
        text_less_irreflexive(a.drop_first());
    }
}

/// Dictionary order is transitive.
pub proof fn text_less_transitive(a: Seq<char>, b: Seq<char>, c: Seq<char>)
    requires
        text_less(a, b),
        text_less(b, c),
    ensures
        text_less(a, c),
    decreases a.len(),
{
    if a.len() > 0 && a[0] == b[0] && b[0] == c[0] {
        text_less_transitive(a.drop_first(), b.drop_first(), c.drop_first());
    }
}

/// Of two different texts one comes before the other.
pub proof fn text_less_total(a: Seq<char>, b: Seq<char>)
    ensures
        a == b || text_less(a, b) || text_less(b, a),
    decreases a.len(),
{
    if a.len() > 0 && b.len() > 0 {
        if a[0] == b[0] {
            text_less_total(a.drop_first(), b.drop_first());
            if a.drop_first() == b.drop_first() {
                assert(a =~= seq![a[0]] + a.drop_first());
                assert(b =~= seq![b[0]] + b.drop_first());
            }
        }
    } else {
        assert(a.len() == 0 && b.len() == 0 ==> a =~= b);
    }
}

/// A key below the first key of an ascending object is below all of them.
proof fn lemma_below_first(s: Entries, key: Seq<char>)
    requires
        ascending(s),
        s.len() > 0,
        text_less(key, s[0].0),
    ensures
        forall|i: int| 0 <= i < s.len() ==> text_less(key, (#[trigger] s[i]).0),
{
    assert forall|i: int| 0 <= i < s.len() implies text_less(key, (#[trigger] s[i]).0) by {
        if i > 0 {
            text_less_transitive(key, s[0].0, s[i].0);
        }
    }
}

/// Every key after setting one is an old key or the one that was set.
pub proof fn lemma_put_keys(s: Entries, key: Seq<char>, value: Json, i: int)
    requires
        0 <= i < put(s, key, value).len(),
    ensures
        put(s, key, value)[i].0 == key || exists|j: int|
            0 <= j < s.len() && (#[trigger] s[j]).0 == put(s, key, value)[i].0,
    decreases s.len(),
{
    let out = put(s, key, value);
    if s.len() > 0 {
        if s[0].0 == key {
            if i > 0 {
                assert(s.skip(1)[i - 1] == s[i]);
            }
        } else if text_less(key, s[0].0) {
            if i > 0 {
                assert(out[i] == s[i - 1]);
            }
        } else if i > 0 {
            let rest = put(s.skip(1), key, value);
            assert(out[i] == rest[i - 1]);
            lemma_put_keys(s.skip(1), key, value, i - 1);
            if rest[i - 1].0 != key {
                let j = choose|j: int|
                    0 <= j < s.skip(1).len() && (#[trigger] s.skip(1)[j]).0 == rest[i - 1].0;
                assert(s[j + 1].0 == out[i].0);
            }
        } else {
            assert(out[0] == s[0]);
        }
    }
}

/// Every entry after setting a key is an old one or the one that was set.
pub proof fn lemma_put_entries(s: Entries, key: Seq<char>, value: Json, i: int)
    requires
        0 <= i < put(s, key, value).len(),
    ensures
        put(s, key, value)[i] == (key, value) || exists|j: int|
            0 <= j < s.len() && #[trigger] s[j] == put(s, key, value)[i],
    decreases s.len(),
{
    let out = put(s, key, value);
    if s.len() > 0 {
        if s[0].0 == key {
            if i > 0 {
                assert(s[i] == out[i]);
            }
        } else if text_less(key, s[0].0) {
            if i > 0 {
                assert(s[i - 1] == out[i]);
            }
        } else if i > 0 {
            let tail = s.skip(1);
            let rest = put(tail, key, value);
            assert(out[i] == rest[i - 1]);
            lemma_put_entries(tail, key, value, i - 1);
            if rest[i - 1] != (key, value) {
                let j = choose|j: int| 0 <= j < tail.len() && #[trigger] tail[j] == rest[i - 1];
                assert(s[j + 1] == out[i]);
            }
        } else {
            assert(s[0] == out[0]);
        }
    }
}

/// Setting a key keeps the keys ascending.
pub proof fn lemma_put_ascending(s: Entries, key: Seq<char>, value: Json)
    requires
        ascending(s),
    ensures
        ascending(put(s, key, value)),
    decreases s.len(),
{
    let out = put(s, key, value);
    if s.len() > 0 {
        if s[0].0 == key {
            assert(forall|i: int| 0 < i < out.len() ==> out[i] == s[i]);
            assert(forall|i: int| 0 <= i < out.len() ==> (#[trigger] out[i]).0 == s[i].0);
        } else if text_less(key, s[0].0) {
            lemma_below_first(s, key);
            assert(forall|i: int| 0 < i < out.len() ==> #[trigger] out[i] == s[i - 1]);
        } else {
            let tail = s.skip(1);
            assert(forall|i: int| 0 <= i < tail.len() ==> #[trigger] tail[i] == s[i + 1]);
            lemma_put_ascending(tail, key, value);
            let rest = put(tail, key, value);
            text_less_total(key, s[0].0);
            assert forall|i: int, j: int| 0 <= i < j < out.len() implies text_less(
                #[trigger] out[i].0,
                #[trigger] out[j].0,
            ) by {
                assert(out[j] == rest[j - 1]);
                if i > 0 {
                    assert(out[i] == rest[i - 1]);
                } else {
                    lemma_put_keys(tail, key, value, j - 1);
                    if rest[j - 1].0 != key {
                        let k = choose|k: int|
                            0 <= k < tail.len() && (#[trigger] tail[k]).0 == rest[j - 1].0;
                        assert(tail[k] == s[k + 1]);
                    }
                }
            }
        }
    }
}

/// Removing a key keeps the keys ascending.
pub proof fn lemma_without_ascending(s: Entries, key: Seq<char>)
    requires
        ascending(s),
    ensures
        ascending(without(s, key)),
        forall|i: int|
            0 <= i < without(s, key).len() ==> exists|j: int|
                0 <= j < s.len() && #[trigger] without(s, key)[i] == s[j],
    decreases s.len(),
{
    let out = without(s, key);
    if s.len() > 0 {
        let tail = s.skip(1);
        assert(forall|i: int| 0 <= i < tail.len() ==> #[trigger] tail[i] == s[i + 1]);
        if s[0].0 != key {
            lemma_without_ascending(tail, key);
            let rest = without(tail, key);
            assert forall|i: int, j: int| 0 <= i < j < out.len() implies text_less(
                #[trigger] out[i].0,
                #[trigger] out[j].0,
            ) by {
                assert(out[j] == rest[j - 1]);
                if i > 0 {
                    assert(out[i] == rest[i - 1]);
                } else {
                    let k = choose|k: int| 0 <= k < tail.len() && rest[j - 1] == tail[k];
                    assert(tail[k] == s[k + 1]);
                }
            }
            assert forall|i: int| 0 <= i < out.len() implies exists|j: int|
                0 <= j < s.len() && #[trigger] out[i] == s[j] by {
                if i == 0 {
                    assert(out[0] == s[0]);
                } else {
                    let k = choose|k: int| 0 <= k < tail.len() && rest[i - 1] == tail[k];
                    assert(out[i] == s[k + 1]);
                }
            }
        }
    }
}

// ── Objects from pairs ───────────────────────────────────────────────────

/// Whether no two pairs have the same key.
pub open spec fn distinct(pairs: Entries) -> bool {
    forall|i: int, j: int| 0 <= i < j < pairs.len() ==> (#[trigger] pairs[i]).0 != (
    #[trigger] pairs[j]).0
}

/// An object reads back the pairs that it was made of.
pub proof fn an_object_holds_its_pairs(pairs: Entries, i: int)
    requires
        distinct(pairs),
        0 <= i < pairs.len(),
    ensures
        lookup(object(pairs), pairs[i].0) == Some(pairs[i].1),
    decreases pairs.len(),
{
    let front = pairs.drop_last();
    a_set_key_reads_back(object(front), pairs.last().0, pairs.last().1, pairs[i].0);
    if i < pairs.len() - 1 {
        assert(front[i] == pairs[i]);
        an_object_holds_its_pairs(front, i);
    }
}

/// An object holds no key but those of the pairs that it was made of.
pub proof fn an_object_holds_no_other_key(pairs: Entries, key: Seq<char>)
    requires
        forall|i: int| 0 <= i < pairs.len() ==> (#[trigger] pairs[i]).0 != key,
    ensures
        lookup(object(pairs), key) is None,
    decreases pairs.len(),
{
    if pairs.len() > 0 {
        let front = pairs.drop_last();
        assert forall|i: int| 0 <= i < front.len() implies (#[trigger] front[i]).0 != key by {
            assert(front[i] == pairs[i]);
        }
        a_set_key_reads_back(object(front), pairs.last().0, pairs.last().1, key);
        an_object_holds_no_other_key(front, key);
    }
}

/// An object's entries ascend, and each is one of the pairs.
pub proof fn lemma_object_entries(pairs: Entries)
    ensures
        ascending(object(pairs)),
        forall|k: int|
            0 <= k < object(pairs).len() ==> exists|i: int|
                0 <= i < pairs.len() && #[trigger] object(pairs)[k] == pairs[i],
    decreases pairs.len(),
{
    if pairs.len() > 0 {
        let front = pairs.drop_last();
        let before = object(front);
        let after = object(pairs);
        lemma_object_entries(front);
        lemma_put_ascending(before, pairs.last().0, pairs.last().1);
        assert forall|k: int| 0 <= k < after.len() implies exists|i: int|
            0 <= i < pairs.len() && #[trigger] after[k] == pairs[i] by {
            lemma_put_entries(before, pairs.last().0, pairs.last().1, k);
            if after[k] == (pairs.last().0, pairs.last().1) {
                assert(after[k] == pairs[pairs.len() - 1]);
            } else {
                let j = choose|j: int| 0 <= j < before.len() && #[trigger] before[j] == after[k];
                let i = choose|i: int| 0 <= i < front.len() && before[j] == front[i];
                assert(after[k] == pairs[i]);
            }
        }
    }
}

/// Ascending entries are the object made of them.
pub proof fn an_object_is_made_of_its_entries(e: Entries)
    requires
        ascending(e),
    ensures
        object(e) == e,
    decreases e.len(),
{
    if e.len() > 0 {
        let front = e.drop_last();
        assert forall|i: int, j: int| 0 <= i < j < front.len() implies text_less(
            #[trigger] front[i].0,
            #[trigger] front[j].0,
        ) by {
            assert(front[i] == e[i] && front[j] == e[j]);
        }
        an_object_is_made_of_its_entries(front);
        assert forall|i: int| 0 <= i < front.len() implies text_less(
            (#[trigger] front[i]).0,
            e.last().0,
        ) by {
            assert(front[i] == e[i]);
        }
        lemma_put_last(front, e.last().0, e.last().1);
        assert(front.push(e.last()) =~= e);
    }
}

/// A key above all others is set at the end.
proof fn lemma_put_last(s: Entries, key: Seq<char>, value: Json)
    requires
        forall|i: int| 0 <= i < s.len() ==> text_less((#[trigger] s[i]).0, key),
    ensures
        put(s, key, value) == s.push((key, value)),
    decreases s.len(),
{
    if s.len() > 0 {
        let tail = s.skip(1);
        assert forall|i: int| 0 <= i < tail.len() implies text_less((#[trigger] tail[i]).0, key) by {
            assert(tail[i] == s[i + 1]);
        }
        lemma_put_last(tail, key, value);
        if text_less(key, s[0].0) {
            text_less_transitive(key, s[0].0, key);
        }
        text_less_irreflexive(key);
        assert(put(s, key, value) =~= s.push((key, value)));
    } else {
        assert(put(s, key, value) =~= s.push((key, value)));
    }
}

} // verus!
