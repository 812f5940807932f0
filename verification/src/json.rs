//! A flat model of a JSON object: its top-level members, each with a scalar value.

use serde_json::Value;
use vstd::prelude::*;

verus! {

/// What a member of a JSON object holds, as far as a flat schema can tell.
///
/// A number keeps its value only when it is a non-negative integer that fits
/// `u64`; arrays and nested objects keep nothing.
#[derive(Clone, Debug, PartialEq, Eq)]
pub enum JsonValue {
    Null,
    Bool(bool),
    Number(Option<u64>),
    Text(String),
    Array,
    Object,
}

/// The mathematical value of a [`JsonValue`].
pub enum JsonValueView {
    Null,
    Bool(bool),
    Number(Option<u64>),
    Text(Seq<char>),
    Array,
    Object,
}

impl View for JsonValue {
    type V = JsonValueView;

    open spec fn view(&self) -> JsonValueView {
        match *self {
            JsonValue::Null => JsonValueView::Null,
            JsonValue::Bool(flag) => JsonValueView::Bool(flag),
            JsonValue::Number(number) => JsonValueView::Number(number),
            JsonValue::Text(text) => JsonValueView::Text(text@),
            JsonValue::Array => JsonValueView::Array,
            JsonValue::Object => JsonValueView::Object,
        }
    }
}

/// One member of a JSON object.
#[derive(Clone, Debug, PartialEq, Eq)]
pub struct JsonField {
    pub name: String,
    pub value: JsonValue,
}

/// The mathematical value of a [`JsonField`].
pub struct JsonFieldView {
    pub name: Seq<char>,
    pub value: JsonValueView,
}

impl View for JsonField {
    type V = JsonFieldView;

    open spec fn view(&self) -> JsonFieldView {
        JsonFieldView { name: self.name@, value: self.value@ }
    }
}

/// The members of a document, each taken by its view.
pub open spec fn document_view(fields: Seq<JsonField>) -> Seq<JsonFieldView> {
    fields.map_values(|field: JsonField| field@)
}

/// The value of the first member called `name`, if the document has one.
pub open spec fn member(doc: Seq<JsonFieldView>, name: Seq<char>) -> Option<JsonValueView>
    decreases doc.len(),
{
    if doc.len() == 0 {
        None
    } else if doc[0].name == name {
        Some(doc[0].value)
    } else {
        member(doc.drop_first(), name)
    }
}

/// The view of an optional borrowed value.
pub open spec fn value_view(value: Option<&JsonValue>) -> Option<JsonValueView> {
    match value {
        Some(v) => Some(v@),
        None => None,
    }
}

/// Finds the first member called `name`.
pub fn find_member<'a>(doc: &'a Vec<JsonField>, name: &String) -> (found: Option<&'a JsonValue>)
    ensures
        value_view(found) == member(document_view(doc@), name@),
{
    let ghost whole = document_view(doc@);
    let mut i: usize = 0;
    assert(whole.skip(0) =~= whole);
    while i < doc.len()
        invariant
            i <= doc.len(),
            whole == document_view(doc@),
            member(whole, name@) == member(whole.skip(i as int), name@),
        decreases doc.len() - i,
    {
        proof {
            let rest = whole.skip(i as int);
            assert(rest[0] == doc@[i as int]@);
            assert(rest.drop_first() =~= whole.skip(i as int + 1));
        }
        if doc[i].name == *name {
            return Some(&doc[i].value);
        }
        i += 1;
    }
    proof {
        assert(whole.skip(i as int).len() == 0);
    }
    None
}

/// The members of the JSON object that `text` spells, in the order in which the
/// decoder hands them out, or `None` where `text` is not one JSON object.
pub uninterp spec fn json_object(text: Seq<u8>) -> Option<Seq<JsonFieldView>>;

/// The members of a decoded document, or `None`.
pub open spec fn decoded_view(decoded: Option<Vec<JsonField>>) -> Option<Seq<JsonFieldView>> {
    match decoded {
        Some(fields) => Some(document_view(fields@)),
        None => None,
    }
}

/// Decodes `text` with `serde_json::from_slice` into a `serde_json::Value` and
/// hands out the members of the object it holds.
///
/// The contract only names the outcome: the same bytes always decode to the
/// same members, and anything but a single JSON object decodes to `None`.
/// Each member's value is moved over variant by variant; a number is kept as
/// what `serde_json::Number::as_u64` returns for it.
#[verifier::external_body]
pub(crate) fn decode_object(text: &[u8]) -> (decoded: Option<Vec<JsonField>>)
    ensures
        decoded_view(decoded) == json_object(text@),
{
    match serde_json::from_slice::<Value>(text) {
        Ok(Value::Object(members)) => Some(members.into_iter().map(|(name, value)| JsonField {
            name,
            value: match value {
                Value::Null => JsonValue::Null,
                Value::Bool(flag) => JsonValue::Bool(flag),
                Value::Number(number) => JsonValue::Number(number.as_u64()),
                Value::String(text) => JsonValue::Text(text),
                Value::Array(_) => JsonValue::Array,
                Value::Object(_) => JsonValue::Object,
            },
        }).collect()),
        _ => None,
    }
}

} // verus!
