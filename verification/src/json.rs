//! The JSON text operations that the library hands to `serde_json`.
use vstd::prelude::*;
use crate::validation::json_error;
use crate::json_value::{JsonValue, JsonView, json_view, json_views, field_views, lemma_json_views_index, lemma_field_views_index};

verus! {

/// `serde_json::Value`, carried through without being read.
#[verifier::external_type_specification]
#[verifier::external_body]
pub struct ExJsonValue(serde_json::Value);

/// What `serde_json::from_str::<serde_json::Value>` reads from a text that
/// parses: the value's content.
pub uninterp spec fn json_parse(text: Seq<char>) -> JsonView;

/// `serde_json::from_str::<serde_json::Value>`: the parsed value, or the `Display`
/// text of the parser's error. Whether a text parses, what it holds, and the
/// error's text are named, not stated.
#[verifier::external_body]
pub(crate) fn parse_json_value(text: &str) -> (r: Result<serde_json::Value, String>)
    ensures
        (r is Ok) == (json_error(text@) is None),
        r matches Err(e) ==> json_error(text@) == Some(e@),
        r matches Ok(v) ==> serde_content(v) == json_parse(text@),
{
    serde_json::from_str::<serde_json::Value>(text).map_err(|e| e.to_string())
}

/// What a `serde_json::Value` holds, read as a JSON value: `Value` is a tree of
/// nulls, booleans, numbers, strings, arrays and objects, whose constructors in
/// this library state what each holds.
pub uninterp spec fn serde_content(v: serde_json::Value) -> JsonView;

/// The text `serde_json::to_string_pretty` writes for a value with this content.
pub uninterp spec fn pretty_json(c: JsonView) -> Seq<char>;

/// The text `serde_json::to_string` writes for a value with this content.
pub uninterp spec fn compact_json(c: JsonView) -> Seq<char>;

/// `serde_json::to_string_pretty` of a value, or the error's text. The crate
/// documents that serializing fails only when a `Serialize` impl fails or a map
/// has keys that are not strings; its impl for `Value` never fails and an
/// object's keys are strings, and writing into memory does not fail, so the call
/// succeeds. The text is named, not spelled out: it depends only on what the
/// value holds.
#[verifier::external_body]
pub(crate) fn json_to_string_pretty(v: &serde_json::Value) -> (r: Result<String, String>)
    ensures
        r is Ok,
        r matches Ok(s) ==> s@ == pretty_json(serde_content(*v)),
{
    serde_json::to_string_pretty(v).map_err(|e| e.to_string())
}

/// `serde_json::to_string` of a value, or the error's text; it succeeds for the
/// same reasons as `json_to_string_pretty`. The text is named, not spelled out:
/// it depends only on what the value holds.
#[verifier::external_body]
pub(crate) fn json_to_string(v: &serde_json::Value) -> (r: Result<String, String>)
    ensures
        r is Ok,
        r matches Ok(s) ==> s@ == compact_json(serde_content(*v)),
{
    serde_json::to_string(v).map_err(|e| e.to_string())
}

/// One level of a `serde_json::Value`: which variant it is, with what it holds;
/// a number by the text serde_json writes for it, the items and fields of an
/// array or object by reference.
pub enum SerdeNode<'a> {
    Null,
    Bool(bool),
    Number(String),
    Str(String),
    Array(Vec<&'a serde_json::Value>),
    Object(Vec<(String, &'a serde_json::Value)>),
}

/// Tells the variants of a `serde_json::Value` apart, one arm each: a number
/// becomes its `Display` text, which is the text serde_json writes for it, and an
/// object's fields come in the order its map iterates them. What the value holds
/// is then what the node holds.
#[verifier::external_body]
fn serde_node(v: &serde_json::Value) -> (r: SerdeNode<'_>)
    ensures
        match r {
            SerdeNode::Null => serde_content(*v) == JsonView::Null,
            SerdeNode::Bool(b) => serde_content(*v) == JsonView::Bool(b),
            SerdeNode::Number(t) => serde_content(*v) == JsonView::Number(t@),
            SerdeNode::Str(t) => serde_content(*v) == JsonView::Str(t@),
            SerdeNode::Array(items) => serde_content(*v) == JsonView::Array(
                items@.map_values(|x: &serde_json::Value| serde_content(*x)),
            ),
            SerdeNode::Object(fields) => serde_content(*v) == JsonView::Object(
                fields@.map_values(|p: (String, &serde_json::Value)| (p.0@, serde_content(*p.1))),
            ),
        },
{
    match v {
        serde_json::Value::Null => SerdeNode::Null,
        serde_json::Value::Bool(b) => SerdeNode::Bool(*b),
        serde_json::Value::Number(n) => SerdeNode::Number(n.to_string()),
        serde_json::Value::String(t) => SerdeNode::Str(t.clone()),
        serde_json::Value::Array(items) => SerdeNode::Array(items.iter().collect()),
        serde_json::Value::Object(fields) => SerdeNode::Object(fields.iter().map(|(k, x)| (k.clone(), x)).collect()),
    }
}

/// The library's JSON value holding what a `serde_json::Value` holds.
pub fn json_value_from_serde(v: &serde_json::Value) -> (r: JsonValue)
    ensures
        json_view(r) == serde_content(*v),
    decreases serde_content(*v),
{
    match serde_node(v) {
        SerdeNode::Null => JsonValue::Null,
        SerdeNode::Bool(b) => JsonValue::Bool(b),
        SerdeNode::Number(t) => JsonValue::Number(t),
        SerdeNode::Str(t) => JsonValue::Str(t),
        SerdeNode::Array(items) => {
            let ghost whole = serde_content(*v);
            let ghost sv = items@.map_values(|x: &serde_json::Value| serde_content(*x));
            let mut out: Vec<JsonValue> = Vec::new();
            let mut i: usize = 0;
            while i < items.len()
                invariant
                    i <= items@.len(),
                    whole == serde_content(*v),
                    sv == items@.map_values(|x: &serde_json::Value| serde_content(*x)),
                    whole == JsonView::Array(sv),
                    out@.len() == i,
                    forall|k: int| 0 <= k < i ==> json_view(#[trigger] out@[k]) == sv[k],
                decreases items@.len() - i,
            {
                proof {
                    assert(sv[i as int] == serde_content(*items@[i as int]));
                    assert(whole->Array_0 == sv);
                    assert(decreases_to!(whole => whole->Array_0));
                    assert(decreases_to!(sv => sv[i as int]));
                }
                let x = json_value_from_serde(items[i]);
                out.push(x);
                i = i + 1;
            }
            proof {
                lemma_json_views_index(out@);
                assert(json_views(out@) =~= sv);
            }
            JsonValue::Array(out)
        },
        SerdeNode::Object(fields) => {
            let ghost whole = serde_content(*v);
            let ghost sv = fields@.map_values(|p: (String, &serde_json::Value)| (p.0@, serde_content(*p.1)));
            let mut out: Vec<(String, JsonValue)> = Vec::new();
            let mut i: usize = 0;
            while i < fields.len()
                invariant
                    i <= fields@.len(),
                    whole == serde_content(*v),
                    sv == fields@.map_values(|p: (String, &serde_json::Value)| (p.0@, serde_content(*p.1))),
                    whole == JsonView::Object(sv),
                    out@.len() == i,
                    forall|k: int| 0 <= k < i ==> (#[trigger] out@[k]).0@ == sv[k].0 && json_view(out@[k].1) == sv[k].1,
                decreases fields@.len() - i,
            {
                proof {
                    assert(sv[i as int] == (fields@[i as int].0@, serde_content(*fields@[i as int].1)));
                    assert(whole->Object_0 == sv);
                    assert(decreases_to!(whole => whole->Object_0));
                    assert(decreases_to!(sv => sv[i as int]));
                    assert(decreases_to!(sv[i as int] => sv[i as int].1));
                }
                let key = fields[i].0.clone();
                let x = json_value_from_serde(fields[i].1);
                out.push((key, x));
                i = i + 1;
            }
            proof {
                lemma_field_views_index(out@);
                assert(field_views(out@) =~= sv);
            }
            JsonValue::Object(out)
        },
    }
}

/// Parses a JSON text into the library's JSON value, or gives the parser's error
/// text.
pub fn parse_json_text(text: &str) -> (r: Result<JsonValue, String>)
    ensures
        (r is Ok) == (json_error(text@) is None),
        r matches Err(e) ==> json_error(text@) == Some(e@),
        r matches Ok(v) ==> json_view(v) == json_parse(text@),
{
    match parse_json_value(text) {
        Ok(v) => Ok(json_value_from_serde(&v)),
        Err(e) => Err(e),
    }
}

} // verus!
