//! JSON documents: text and `serde_json` values read into [`Json`].

use vstd::prelude::*;
use vstd::string::*;

use crate::json::{lemma_json_view, items_view, members_view, Json, JsonNumber, JsonView};

verus! {

/// A value of `serde_json`, opaque here.
#[verifier::external_type_specification]
#[verifier::external_body]
pub struct ExValue(serde_json::Value);

/// A number of `serde_json`, opaque here.
#[verifier::external_type_specification]
#[verifier::external_body]
pub struct ExNumber(serde_json::Number);

/// The content of a `serde_json` value.
pub uninterp spec fn value_content(v: serde_json::Value) -> JsonView;

/// The content of a `serde_json` number.
pub uninterp spec fn number_content(n: serde_json::Number) -> JsonNumber;

/// What `serde_json::from_str` makes of a text: the content of the document, or nothing where
/// the text is no JSON document.
pub uninterp spec fn parsed_text(text: Seq<char>) -> Option<JsonView>;

/// One layer of a `serde_json` value.
pub enum Layer<'a> {
    Null,
    Bool(bool),
    Number(&'a serde_json::Number),
    Text(&'a str),
    Array(&'a Vec<serde_json::Value>),
    Object(Vec<(&'a String, &'a serde_json::Value)>),
}

/// The content of the value that has the given outer layer.
pub open spec fn layer_content(layer: Layer) -> JsonView {
    match layer {
        Layer::Null => JsonView::Null,
        Layer::Bool(b) => JsonView::Bool(b),
        Layer::Number(n) => JsonView::Number(number_content(*n)),
        Layer::Text(t) => JsonView::Text(t@),
        Layer::Array(items) => JsonView::Array(
            items@.map_values(|v: serde_json::Value| value_content(v)),
        ),
        Layer::Object(members) => JsonView::Object(
            members@.map_values(|m: (&String, &serde_json::Value)| (m.0@, value_content(*m.1))),
        ),
    }
}

/// `serde_json::from_str` on a text. Whether the text is a document, and what the document
/// holds, depends on the text alone; an error is reported as `None`.
#[verifier::external_body]
fn read_value(text: &str) -> (r: Option<serde_json::Value>)
    ensures
        match r {
            Some(v) => parsed_text(text@) == Some(value_content(v)),
            None => parsed_text(text@) is None,
        },
{
    serde_json::from_str(text).ok()
}

/// The variants of `serde_json::Value` and what they hold. The members of an object come in the
/// order in which `serde_json::Map::iter` walks them.
#[verifier::external_body]
fn outer_layer<'a>(value: &'a serde_json::Value) -> (r: Layer<'a>)
    ensures
        layer_content(r) == value_content(*value),
{
    match value {
        serde_json::Value::Null => Layer::Null,
        serde_json::Value::Bool(b) => Layer::Bool(*b),
        serde_json::Value::Number(n) => Layer::Number(n),
        serde_json::Value::String(t) => Layer::Text(t),
        serde_json::Value::Array(items) => Layer::Array(items),
        serde_json::Value::Object(members) => Layer::Object(members.iter().collect()),
    }
}

/// `serde_json::Number::as_u64` gives an integer that is not negative, and of no other number
/// anything.
pub assume_specification[ serde_json::Number::as_u64 ](n: &serde_json::Number) -> (r: Option<u64>)
    ensures
        r == match number_content(*n) {
            JsonNumber::Unsigned(u) => Some(u),
            _ => None,
        },
;

/// `serde_json::Number::as_i64` gives an integer that fits, and of no other number anything.
pub assume_specification[ serde_json::Number::as_i64 ](n: &serde_json::Number) -> (r: Option<i64>)
    ensures
        r == match number_content(*n) {
            JsonNumber::Unsigned(u) => if u <= i64::MAX {
                Some(u as i64)
            } else {
                None
            },
            JsonNumber::Negative(i) => Some(i),
            JsonNumber::Double(_) => None,
        },
;

/// `serde_json::Number::as_f64`, by the bits of the double: for a number that is held as a
/// double it gives that double.
#[verifier::external_body]
fn double_bits(n: &serde_json::Number) -> (r: Option<u64>)
    requires
        number_content(*n) is Double,
    ensures
        r == Some(number_content(*n)->Double_0),
{
    n.as_f64().map(|d| d.to_bits())
}

/// The number that a `serde_json` number is.
fn number_of(n: &serde_json::Number) -> (r: JsonNumber)
    ensures
        r == number_content(*n),
{
    match n.as_u64() {
        Some(u) => JsonNumber::Unsigned(u),
        None => match n.as_i64() {
            Some(i) => JsonNumber::Negative(i),
            None => JsonNumber::Double(double_bits(n).unwrap()),
        },
    }
}

impl Json {
    /// The value with the content of a `serde_json` value.
    pub fn from_value(value: &serde_json::Value) -> (r: Json)
        ensures
            r@ == value_content(*value),
        decreases value_content(*value),
    {
        broadcast use lemma_json_view;

        let ghost content = value_content(*value);
        match outer_layer(value) {
            Layer::Null => Json::Null,
            Layer::Bool(b) => Json::Bool(b),
            Layer::Number(n) => Json::Number(number_of(n)),
            Layer::Text(t) => Json::Text(t.to_owned()),
            Layer::Array(items) => {
                let mut out: Vec<Json> = Vec::new();
                let mut i: usize = 0;
                while i < items.len()
                    invariant
                        i <= items.len(),
                        content == value_content(*value),
                        content == layer_content(Layer::Array(items)),
                        out@.len() == i,
                        forall|k: int| 0 <= k < i ==> (#[trigger] out@[k])@ == content->Array_0[k],
                    decreases items.len() - i,
                {
                    assert(content->Array_0[i as int] == value_content(items@[i as int]));
                    assert(decreases_to!(content => content->Array_0[i as int]));
                    let item = Json::from_value(&items[i]);
                    out.push(item);
                    i += 1;
                }
                assert(items_view(out@) =~= content->Array_0);
                Json::Array(out)
            },
            Layer::Object(members) => {
                let mut out: Vec<(String, Json)> = Vec::new();
                let mut i: usize = 0;
                while i < members.len()
                    invariant
                        i <= members.len(),
                        content == value_content(*value),
                        content == layer_content(Layer::Object(members)),
                        out@.len() == i,
                        forall|k: int|
                            0 <= k < i ==> ((#[trigger] out@[k]).0@, out@[k].1@)
                                == content->Object_0[k],
                    decreases members.len() - i,
                {
                    let m = members[i];
                    assert(content->Object_0[i as int] == (m.0@, value_content(*m.1)));
                    assert(decreases_to!(content => content->Object_0[i as int].1));
                    let item = Json::from_value(m.1);
                    out.push((m.0.clone(), item));
                    i += 1;
                }
                assert(members_view(out@) =~= content->Object_0);
                Json::Object(out)
            },
        }
    }

    /// The document in a text, or `None` where the text is no JSON document.
    pub fn parse(text: &str) -> (r: Option<Json>)
        ensures
            match r {
                Some(j) => parsed_text(text@) == Some(j@),
                None => parsed_text(text@) is None,
            },
    {
        match read_value(text) {
            Some(value) => Some(Json::from_value(&value)),
            None => None,
        }
    }
}

} // verus!
