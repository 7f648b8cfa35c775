//! JSON text, read and written by `serde_json`.
use crate::json::{
    ascending, entries_view, entry_view, items_view, lemma_array_view, lemma_entry_wf,
    lemma_item_wf, lemma_object_view, number_contents, Json, JsonNumber, JsonView,
};
use vstd::prelude::*;

verus! {

/// A document as `serde_json` holds it.
#[verifier::external_type_specification]
#[verifier::external_body]
pub struct ExValue(serde_json::Value);

/// What `serde_json` reports of text that is no JSON document.
#[verifier::external_type_specification]
#[verifier::external_body]
pub struct ExError(serde_json::Error);

/// What a `serde_json::Value` holds.
pub uninterp spec fn value_contents(value: serde_json::Value) -> JsonView;

/// The document that `serde_json::from_slice` reads from bytes, where it reads one.
pub uninterp spec fn parsed_json(content: Seq<u8>) -> Option<JsonView>;

/// The bytes that `serde_json::to_vec_pretty` writes for a document.
pub uninterp spec fn pretty_json(document: JsonView) -> Seq<u8>;

/// How deep arrays and objects may nest in text that `serde_json` reads.
pub const MAX_DEPTH: u8 = 127;

/// The outermost layer of a `serde_json::Value`.
pub enum ValueLayer<'a> {
    Null,
    Bool(bool),
    Number(&'a serde_json::Number),
    Text(&'a String),
    Array(&'a Vec<serde_json::Value>),
    Object(Vec<(&'a String, &'a serde_json::Value)>),
}

impl<'a> ValueLayer<'a> {
    pub open spec fn contents(self) -> JsonView {
        match self {
            ValueLayer::Null => JsonView::Null,
            ValueLayer::Bool(b) => JsonView::Bool(b),
            ValueLayer::Number(n) => JsonView::Number(number_contents(*n)),
            ValueLayer::Text(s) => JsonView::Text(s@),
            ValueLayer::Array(items) => JsonView::Array(
                Seq::new(items@.len(), |i: int| value_contents(items@[i])),
            ),
            ValueLayer::Object(entries) => JsonView::Object(
                Seq::new(
                    entries@.len(),
                    |i: int| (entries@[i].0@, value_contents(*entries@[i].1)),
                ),
            ),
        }
    }
}

/// Reads a document with `serde_json::from_slice`. Whether the bytes hold one, and
/// what it holds, is a function of the bytes. Text that nests deeper than the
/// recursion limit of the reader is refused.
#[verifier::external_body]
fn read_value(content: &[u8]) -> (r: Result<serde_json::Value, serde_json::Error>)
    ensures
        match r {
            Ok(value) => parsed_json(content@) == Some(value_contents(value)) && value_contents(
                value,
            ).depth_within(MAX_DEPTH as nat),
            Err(_) => parsed_json(content@) is None,
        },
{
    serde_json::from_slice(content)
}

/// The outermost layer of a value: its variant, with the entries of a
/// `serde_json::Map` in the order of its iterator. The map is a `BTreeMap`, so its
/// keys are distinct and ascend.
#[verifier::external_body]
fn layer_of<'a>(value: &'a serde_json::Value) -> (layer: ValueLayer<'a>)
    ensures
        layer.contents() == value_contents(*value),
        layer.contents() matches JsonView::Object(entries) ==> ascending(entries),
{
    match value {
        serde_json::Value::Null => ValueLayer::Null,
        serde_json::Value::Bool(b) => ValueLayer::Bool(*b),
        serde_json::Value::Number(n) => ValueLayer::Number(n),
        serde_json::Value::String(s) => ValueLayer::Text(s),
        serde_json::Value::Array(items) => ValueLayer::Array(items),
        serde_json::Value::Object(map) => ValueLayer::Object(map.iter().collect()),
    }
}

/// A number by what `serde_json::Number::as_u64` and then `as_i64` read off it. A
/// number has an unsigned reading, or a negative one, or stays as it is.
#[verifier::external_body]
fn number_of(number: &serde_json::Number) -> (r: JsonNumber)
    ensures
        r == number_contents(*number),
        r.wf(),
{
    match (number.as_u64(), number.as_i64()) {
        (Some(n), _) => JsonNumber::Unsigned(n),
        (None, Some(n)) => JsonNumber::Negative(n),
        (None, None) => JsonNumber::Float(number.clone()),
    }
}

/// The document that a value holds.
fn document_of(value: &serde_json::Value) -> (r: Json)
    ensures
        r@ == value_contents(*value),
        r@.wf(),
    decreases value_contents(*value),
{
    broadcast use {lemma_array_view, lemma_object_view};

    let ghost whole = value_contents(*value);
    match layer_of(value) {
        ValueLayer::Null => Json::Null,
        ValueLayer::Bool(b) => Json::Bool(b),
        ValueLayer::Number(n) => Json::Number(number_of(n)),
        ValueLayer::Text(s) => Json::Text(s.clone()),
        ValueLayer::Array(values) => {
            let mut items: Vec<Json> = Vec::new();
            let mut i: usize = 0;
            while i < values.len()
                invariant
                    i <= values.len(),
                    whole == value_contents(*value),
                    whole == JsonView::Array(
                        Seq::new(values@.len(), |k: int| value_contents(values@[k])),
                    ),
                    items@.len() == i,
                    forall|k: int|
                        0 <= k < i ==> (#[trigger] items@[k])@ == value_contents(values@[k])
                            && items@[k]@.wf(),
                decreases values.len() - i,
            {
                proof {
                    assert(whole->Array_0[i as int] == value_contents(values@[i as int]));
                    assert(decreases_to!(whole => whole->Array_0[i as int]));
                }
                items.push(document_of(&values[i]));
                i += 1;
            }
            assert(items_view(items@) == whole->Array_0);
            Json::Array(items)
        },
        ValueLayer::Object(values) => {
            let mut entries: Vec<(String, Json)> = Vec::new();
            let mut i: usize = 0;
            while i < values.len()
                invariant
                    i <= values.len(),
                    whole == value_contents(*value),
                    whole == JsonView::Object(
                        Seq::new(
                            values@.len(),
                            |k: int| (values@[k].0@, value_contents(*values@[k].1)),
                        ),
                    ),
                    entries@.len() == i,
                    forall|k: int|
                        0 <= k < i ==> entry_view(#[trigger] entries@[k]) == (
                            values@[k].0@,
                            value_contents(*values@[k].1),
                        ) && entries@[k].1@.wf(),
                decreases values.len() - i,
            {
                proof {
                    assert(whole->Object_0[i as int] == (
                        values@[i as int].0@,
                        value_contents(*values@[i as int].1),
                    ));
                    assert(decreases_to!(whole => whole->Object_0[i as int].1));
                }
                entries.push((values[i].0.clone(), document_of(values[i].1)));
                i += 1;
            }
            assert(entries_view(entries@) == whole->Object_0);
            Json::Object(entries)
        },
    }
}

/// What a `serde_json::Value` is built from.
pub enum ValueParts {
    Null,
    Bool(bool),
    Number(serde_json::Number),
    Text(String),
    Array(Vec<serde_json::Value>),
    Object(Vec<(String, serde_json::Value)>),
}

impl ValueParts {
    pub open spec fn contents(self) -> JsonView {
        match self {
            ValueParts::Null => JsonView::Null,
            ValueParts::Bool(b) => JsonView::Bool(b),
            ValueParts::Number(n) => JsonView::Number(number_contents(n)),
            ValueParts::Text(s) => JsonView::Text(s@),
            ValueParts::Array(items) => JsonView::Array(
                Seq::new(items@.len(), |i: int| value_contents(items@[i])),
            ),
            ValueParts::Object(entries) => JsonView::Object(
                Seq::new(
                    entries@.len(),
                    |i: int| (entries@[i].0@, value_contents(entries@[i].1)),
                ),
            ),
        }
    }
}

/// Builds a value from its outermost layer. The entries of an object go into a
/// `serde_json::Map`, which keeps them as they are where their keys ascend.
#[verifier::external_body]
fn value_from(parts: ValueParts) -> (value: serde_json::Value)
    ensures
        (parts.contents() matches JsonView::Object(entries) ==> ascending(entries))
            ==> value_contents(value) == parts.contents(),
{
    match parts {
        ValueParts::Null => serde_json::Value::Null,
        ValueParts::Bool(b) => serde_json::Value::Bool(b),
        ValueParts::Number(n) => serde_json::Value::Number(n),
        ValueParts::Text(s) => serde_json::Value::String(s),
        ValueParts::Array(items) => serde_json::Value::Array(items),
        ValueParts::Object(entries) => serde_json::Value::Object(entries.into_iter().collect()),
    }
}

/// A number as `serde_json` holds it, by the `From<u64>` and `From<i64>` of
/// `serde_json::Number`. A number that stands in its variant reads back as it was.
#[verifier::external_body]
fn number_from(number: &JsonNumber) -> (r: serde_json::Number)
    ensures
        number.wf() ==> number_contents(r) == *number,
{
    match number {
        JsonNumber::Unsigned(n) => serde_json::Number::from(*n),
        JsonNumber::Negative(n) => serde_json::Number::from(*n),
        JsonNumber::Float(n) => n.clone(),
    }
}

/// Reading `data` gives back `document`, but for numbers that are no integers, which may
/// come back as other such numbers.
pub open spec fn reads_back(data: Seq<u8>, document: JsonView) -> bool {
    parsed_json(data) matches Some(seen) && document.alike(seen)
}

/// Writes a value with `serde_json::to_vec_pretty`. A value is always written, as its
/// keys are strings, and to which bytes is a function of what it holds. Where it does
/// not nest too deep for the reader, reading the bytes, or the bytes and a line feed,
/// gives back what was written. Of a number that is no integer this says only that it
/// comes back as such a number: it is written in the fewest digits that tell it, with a
/// point or an exponent, and the reader rounds the product of the digits and a power of
/// ten, which stays finite up to the largest number.
#[verifier::external_body]
fn write_value(value: &serde_json::Value) -> (r: Result<Vec<u8>, serde_json::Error>)
    ensures
        match r {
            Ok(bytes) => {
                &&& bytes@ == pretty_json(value_contents(*value))
                &&& value_contents(*value).depth_within(MAX_DEPTH as nat) ==> reads_back(
                    bytes@,
                    value_contents(*value),
                ) && reads_back(bytes@.push(10), value_contents(*value))
            },
            Err(_) => false,
        },
{
    serde_json::to_vec_pretty(value)
}

/// The value that holds a document.
fn value_of(document: &Json) -> (value: serde_json::Value)
    ensures
        document@.wf() ==> value_contents(value) == document@,
    decreases document,
{
    broadcast use {lemma_array_view, lemma_object_view};

    match document {
        Json::Null => value_from(ValueParts::Null),
        Json::Bool(b) => value_from(ValueParts::Bool(*b)),
        Json::Number(n) => value_from(ValueParts::Number(number_from(n))),
        Json::Text(s) => value_from(ValueParts::Text(s.clone())),
        Json::Array(items) => {
            let ghost seen = items_view(items@);
            let mut values: Vec<serde_json::Value> = Vec::new();
            let mut i: usize = 0;
            while i < items.len()
                invariant
                    i <= items.len(),
                    document == Json::Array(*items),
                    seen == items_view(items@),
                    document@ == JsonView::Array(seen),
                    values@.len() == i,
                    document@.wf() ==> forall|k: int|
                        0 <= k < i ==> value_contents(#[trigger] values@[k]) == seen[k],
                decreases items.len() - i,
            {
                proof {
                    if document@.wf() {
                        lemma_item_wf(seen, i as int);
                    }
                }
                assert(decreases_to!(document => items@[i as int]));
                values.push(value_of(&items[i]));
                i += 1;
            }
            let parts: ValueParts = ValueParts::Array(values);
            assert(document@.wf() ==> parts.contents()->Array_0 == seen);
            value_from(parts)
        },
        Json::Object(entries) => {
            let ghost seen = entries_view(entries@);
            let mut values: Vec<(String, serde_json::Value)> = Vec::new();
            let mut i: usize = 0;
            while i < entries.len()
                invariant
                    i <= entries.len(),
                    document == Json::Object(*entries),
                    seen == entries_view(entries@),
                    document@ == JsonView::Object(seen),
                    values@.len() == i,
                    document@.wf() ==> forall|k: int|
                        0 <= k < i ==> (
                            (#[trigger] values@[k]).0@,
                            value_contents(values@[k].1),
                        ) == seen[k],
                decreases entries.len() - i,
            {
                proof {
                    if document@.wf() {
                        lemma_entry_wf(seen, i as int);
                    }
                }
                assert(decreases_to!(document => entries@[i as int].1));
                let value: serde_json::Value = value_of(&entries[i].1);
                values.push((entries[i].0.clone(), value));
                i += 1;
            }
            let parts: ValueParts = ValueParts::Object(values);
            assert(document@.wf() ==> parts.contents()->Object_0 == seen);
            value_from(parts)
        },
    }
}

/// Reads a JSON document.
pub fn read_json(content: &[u8]) -> (r: Option<Json>)
    ensures
        match r {
            Some(document) => {
                &&& parsed_json(content@) == Some(document@)
                &&& document@.wf()
                &&& document@.depth_within(MAX_DEPTH as nat)
            },
            None => parsed_json(content@) is None,
        },
{
    match read_value(content) {
        Ok(value) => Some(document_of(&value)),
        Err(_) => None,
    }
}

/// Writes a JSON document, indented. What is written reads back, also with a line feed
/// behind it, where the document does not nest too deep.
pub fn write_json(document: &Json) -> (r: Vec<u8>)
    ensures
        document@.wf() ==> r@ == pretty_json(document@) && (document@.depth_within(
            MAX_DEPTH as nat,
        ) ==> reads_back(r@, document@) && reads_back(r@.push(10), document@)),
{
    let value: serde_json::Value = value_of(document);
    match write_value(&value) {
        Ok(bytes) => bytes,
        Err(_) => Vec::new(),
    }
}

} // verus!
