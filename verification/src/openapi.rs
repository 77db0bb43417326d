//! Import of OpenAPI 3.x and Swagger 2.x specifications.
use vstd::prelude::*;
use crate::collection::{Collection, CollectionView, ItemView};
use crate::ids::{new_id, now, id_text};
use crate::json::{json_to_string_pretty, json_to_string, serde_content, pretty_json, compact_json};
use crate::json::{parse_json_text, json_parse};
use crate::validation::json_error;
use crate::import_export::{ImportError, ImportErrorKind, ImportErrorView, collection_problem, lemma_request_refs_valid};
use crate::json_value::{JsonValue, JsonView, json_view, json_views, field_views, lemma_json_views_index, lemma_field_views_index, json_get, opt_get, str_of, bool_of, array_of, text_or};
use crate::models::{HttpMethod, KeyValuePair, PairView, pairs_view, BodyType, BodyView, RawContentType, RequestDefinition, RequestView};
use crate::postman::{method_named, import_err, requests_by_id, parse_http_method, text_field, text_or_default, lemma_requests_by_id_holds};
use crate::text::{blank, to_owned_string, push_str, str_equal, starts_with, has_prefix, uppercase, to_uppercase, eq_ignore_ascii_case, equals_ignore_ascii_case, chars_of, string_of_chars, views, split_at_char, split_parts};

verus! {

/// What a number value holds that `serde_json::Number`'s `FromStr` reads from a
/// text: a number as serde_json writes it, or null for text it refuses.
pub uninterp spec fn number_content(text: Seq<char>) -> JsonView;

/// What an object value holds that `serde_json::Map` collects from fields in
/// order (a later field replaces an earlier one with the same key).
pub uninterp spec fn object_content(fields: Seq<(Seq<char>, JsonView)>) -> JsonView;

/// `serde_json::Value::Null`, which holds null.
#[verifier::external_body]
fn serde_null() -> (r: serde_json::Value)
    ensures
        serde_content(r) == JsonView::Null,
{
    serde_json::Value::Null
}

/// `serde_json::Value::Bool`, which holds the boolean.
#[verifier::external_body]
fn serde_bool(b: bool) -> (r: serde_json::Value)
    ensures
        serde_content(r) == JsonView::Bool(b),
{
    serde_json::Value::Bool(b)
}

/// `serde_json::Value::String`, which holds the text.
#[verifier::external_body]
fn serde_string(s: String) -> (r: serde_json::Value)
    ensures
        serde_content(r) == JsonView::Str(s@),
{
    serde_json::Value::String(s)
}

/// A number from its JSON text, as `serde_json::Number`'s `FromStr` reads it
/// (null for text that is not a number); what it holds is named.
#[verifier::external_body]
fn serde_number(text: &str) -> (r: serde_json::Value)
    ensures
        serde_content(r) == number_content(text@),
{
    match text.parse::<serde_json::Number>() {
        Ok(n) => serde_json::Value::Number(n),
        Err(_) => serde_json::Value::Null,
    }
}

/// `serde_json::Value::Array`, which holds the items in order.
#[verifier::external_body]
fn serde_array(items: Vec<serde_json::Value>) -> (r: serde_json::Value)
    ensures
        serde_content(r) == JsonView::Array(items@.map_values(|x: serde_json::Value| serde_content(x))),
{
    serde_json::Value::Array(items)
}

/// `serde_json::Value::Object` with the fields inserted in order (`Map::insert`:
/// a later field replaces an earlier one with the same key); what it holds is
/// named.
#[verifier::external_body]
fn serde_object(fields: Vec<(String, serde_json::Value)>) -> (r: serde_json::Value)
    ensures
        serde_content(r) == object_content(
            fields@.map_values(|p: (String, serde_json::Value)| (p.0@, serde_content(p.1))),
        ),
{
    serde_json::Value::Object(fields.into_iter().collect())
}

/// The indented JSON text of a value, or the fallback if printing failed (it
/// does not fail).
fn pretty_or(v: &serde_json::Value, fallback: &str) -> (r: String)
    ensures
        r@ == pretty_json(serde_content(*v)),
{
    match json_to_string_pretty(v) {
        Ok(s) => s,
        Err(_) => to_owned_string(fallback),
    }
}

/// The compact JSON text of a value, or the empty text if printing failed (it
/// does not fail).
fn compact_or_empty(v: &serde_json::Value) -> (r: String)
    ensures
        r@ == compact_json(serde_content(*v)),
{
    match json_to_string(v) {
        Ok(s) => s,
        Err(_) => String::new(),
    }
}

/// What a JSON value holds once handed to serde_json: the same tree, with each
/// number as serde_json reads it and each object as its map collects it.
pub open spec fn serde_image(v: JsonView) -> JsonView
    decreases v, 0nat,
{
    match v {
        JsonView::Null => JsonView::Null,
        JsonView::Bool(b) => JsonView::Bool(b),
        JsonView::Number(t) => number_content(t),
        JsonView::Str(s) => JsonView::Str(s),
        JsonView::Array(items) => JsonView::Array(serde_images(items)),
        JsonView::Object(fields) => object_content(serde_field_images(fields)),
    }
}

/// `serde_image` of each value of a list.
pub open spec fn serde_images(s: Seq<JsonView>) -> Seq<JsonView>
    decreases s, s.len(),
{
    if s.len() == 0 {
        Seq::empty()
    } else {
        seq![serde_image(s[0])] + serde_images(s.drop_first())
    }
}

/// `serde_image` of the value of each field of a list.
pub open spec fn serde_field_images(s: Seq<(Seq<char>, JsonView)>) -> Seq<(Seq<char>, JsonView)>
    decreases s, s.len(),
{
    if s.len() == 0 {
        Seq::empty()
    } else {
        proof {
            assert(decreases_to!(s => s[0]));
        }
        seq![(s[0].0, serde_image(s[0].1))] + serde_field_images(s.drop_first())
    }
}

proof fn lemma_serde_images_index(s: Seq<JsonView>)
    ensures
        serde_images(s).len() == s.len(),
        forall|k: int| 0 <= k < s.len() ==> #[trigger] serde_images(s)[k] == serde_image(s[k]),
    decreases s.len(),
{
    if s.len() > 0 {
        lemma_serde_images_index(s.drop_first());
        assert forall|k: int| 0 <= k < s.len() implies #[trigger] serde_images(s)[k] == serde_image(s[k]) by {
            if k > 0 {
                assert(s.drop_first()[k - 1] == s[k]);
            }
        }
    }
}

proof fn lemma_serde_field_images_index(s: Seq<(Seq<char>, JsonView)>)
    ensures
        serde_field_images(s).len() == s.len(),
        forall|k: int| 0 <= k < s.len() ==> #[trigger] serde_field_images(s)[k] == (s[k].0, serde_image(s[k].1)),
    decreases s.len(),
{
    if s.len() > 0 {
        lemma_serde_field_images_index(s.drop_first());
        assert forall|k: int| 0 <= k < s.len() implies #[trigger] serde_field_images(s)[k] == (
            s[k].0,
            serde_image(s[k].1),
        ) by {
            if k > 0 {
                assert(s.drop_first()[k - 1] == s[k]);
            }
        }
    }
}

/// The same value, as a `serde_json::Value` to print: it holds the same tree.
fn to_serde(v: &JsonValue) -> (r: serde_json::Value)
    ensures
        serde_content(r) == serde_image(json_view(*v)),
    decreases *v,
{
    match v {
        JsonValue::Null => serde_null(),
        JsonValue::Bool(b) => serde_bool(*b),
        JsonValue::Number(n) => serde_number(n.as_str()),
        JsonValue::Str(s) => serde_string(s.clone()),
        JsonValue::Array(items) => {
            let mut out: Vec<serde_json::Value> = Vec::new();
            let mut i: usize = 0;
            proof {
                lemma_json_views_index(items@);
                lemma_serde_images_index(json_views(items@));
            }
            while i < items.len()
                invariant
                    0 <= i <= items@.len(),
                    decreases_to!(*v => items@),
                    out@.len() == i,
                    json_views(items@).len() == items@.len(),
                    serde_images(json_views(items@)).len() == items@.len(),
                    forall|k: int| 0 <= k < items@.len() ==> #[trigger] json_views(items@)[k] == json_view(items@[k]),
                    forall|k: int|
                        0 <= k < items@.len() ==> #[trigger] serde_images(json_views(items@))[k] == serde_image(
                            json_views(items@)[k],
                        ),
                    forall|k: int| 0 <= k < i ==> #[trigger] serde_content(out@[k]) == serde_image(json_view(items@[k])),
                decreases items@.len() - i,
            {
                proof {
                    assert(decreases_to!(items@ => items@[i as int]));
                }
                let x = to_serde(&items[i]);
                out.push(x);
                i = i + 1;
            }
            let ghost contents = out@.map_values(|x: serde_json::Value| serde_content(x));
            assert(contents =~= serde_images(json_views(items@)));
            serde_array(out)
        },
        JsonValue::Object(fields) => {
            let mut out: Vec<(String, serde_json::Value)> = Vec::new();
            let mut i: usize = 0;
            proof {
                lemma_field_views_index(fields@);
                lemma_serde_field_images_index(field_views(fields@));
            }
            while i < fields.len()
                invariant
                    0 <= i <= fields@.len(),
                    decreases_to!(*v => fields@),
                    out@.len() == i,
                    field_views(fields@).len() == fields@.len(),
                    serde_field_images(field_views(fields@)).len() == fields@.len(),
                    forall|k: int|
                        0 <= k < fields@.len() ==> #[trigger] field_views(fields@)[k] == (
                            fields@[k].0@,
                            json_view(fields@[k].1),
                        ),
                    forall|k: int|
                        0 <= k < fields@.len() ==> #[trigger] serde_field_images(field_views(fields@))[k] == (
                            field_views(fields@)[k].0,
                            serde_image(field_views(fields@)[k].1),
                        ),
                    forall|k: int|
                        0 <= k < i ==> (#[trigger] out@[k]).0@ == fields@[k].0@ && serde_content(out@[k].1)
                            == serde_image(json_view(fields@[k].1)),
                decreases fields@.len() - i,
            {
                proof {
                    assert(decreases_to!(fields@ => fields@[i as int]));
                    assert(decreases_to!(fields@[i as int] => fields@[i as int].1));
                }
                let x = to_serde(&fields[i].1);
                out.push((fields[i].0.clone(), x));
                i = i + 1;
            }
            let ghost contents = out@.map_values(|p: (String, serde_json::Value)| (p.0@, serde_content(p.1)));
            assert(contents =~= serde_field_images(field_views(fields@)));
            serde_object(out)
        },
    }
}

/// A copy of a JSON value.
pub fn copy_json(v: &JsonValue) -> (r: JsonValue)
    ensures
        json_view(r) == json_view(*v),
    decreases *v,
{
    match v {
        JsonValue::Null => JsonValue::Null,
        JsonValue::Bool(b) => JsonValue::Bool(*b),
        JsonValue::Number(n) => JsonValue::Number(n.clone()),
        JsonValue::Str(s) => JsonValue::Str(s.clone()),
        JsonValue::Array(items) => {
            let mut out: Vec<JsonValue> = Vec::new();
            let mut i: usize = 0;
            proof {
                lemma_json_views_index(items@);
            }
            while i < items.len()
                invariant
                    0 <= i <= items@.len(),
                    decreases_to!(*v => items@),
                    out@.len() == i,
                    json_views(items@).len() == items@.len(),
                    forall|k: int| 0 <= k < items@.len() ==> #[trigger] json_views(items@)[k] == json_view(items@[k]),
                    forall|k: int| 0 <= k < i ==> #[trigger] json_view(out@[k]) == json_view(items@[k]),
                decreases items@.len() - i,
            {
                proof {
                    assert(decreases_to!(items@ => items@[i as int]));
                }
                let c = copy_json(&items[i]);
                out.push(c);
                i = i + 1;
            }
            proof {
                lemma_json_views_index(out@);
                assert(json_views(out@) =~= json_views(items@));
            }
            JsonValue::Array(out)
        },
        JsonValue::Object(fields) => {
            let mut out: Vec<(String, JsonValue)> = Vec::new();
            let mut i: usize = 0;
            proof {
                lemma_field_views_index(fields@);
            }
            while i < fields.len()
                invariant
                    0 <= i <= fields@.len(),
                    decreases_to!(*v => fields@),
                    out@.len() == i,
                    field_views(fields@).len() == fields@.len(),
                    forall|k: int| 0 <= k < fields@.len() ==> #[trigger] field_views(fields@)[k] == (fields@[k].0@, json_view(fields@[k].1)),
                    forall|k: int| 0 <= k < i ==> (#[trigger] out@[k]).0@ == fields@[k].0@ && json_view(out@[k].1) == json_view(fields@[k].1),
                decreases fields@.len() - i,
            {
                proof {
                    assert(decreases_to!(fields@ => fields@[i as int]));
                    assert(decreases_to!(fields@[i as int] => fields@[i as int].1));
                }
                let c = (fields[i].0.clone(), copy_json(&fields[i].1));
                out.push(c);
                i = i + 1;
            }
            proof {
                lemma_field_views_index(out@);
                assert(field_views(out@) =~= field_views(fields@));
            }
            JsonValue::Object(out)
        },
    }
}

/// The value a `$ref` path such as `#/components/schemas/User` points at: the
/// document followed through each `/`-separated part; nothing for a path that
/// does not start with `#/` or a part that is missing.
pub open spec fn follow(v: JsonValue, parts: Seq<Seq<char>>) -> Option<JsonValue>
    decreases parts.len(),
{
    if parts.len() == 0 {
        Some(v)
    } else {
        match json_get(v, parts[0]) {
            Some(w) => follow(w, parts.drop_first()),
            None => None,
        }
    }
}

/// What a `$ref` path points at in the document.
pub open spec fn resolved_ref(path: Seq<char>, doc: JsonValue) -> Option<JsonValue> {
    if starts_with(path, "#/"@) {
        follow(doc, split_at_char(path.skip(2), '/'))
    } else {
        None
    }
}

/// Follows a `$ref` path through the document.
fn resolve_ref<'a>(ref_path: &str, openapi: &'a JsonValue) -> (r: Option<&'a JsonValue>)
    ensures
        match resolved_ref(ref_path@, *openapi) {
            Some(v) => r matches Some(x) && *x == v,
            None => r is None,
        },
{
    if !has_prefix(ref_path, "#/") {
        return None;
    }
    let chars = chars_of(ref_path);
    proof {
        reveal_strlit("#/");
    }
    let rest = string_of_chars(&slice_from(&chars, 2));
    let parts = split_parts(rest.as_str(), '/');
    let mut current: &'a JsonValue = openapi;
    let mut i: usize = 0;
    let ghost ps = views(parts@);
    assert(ps.skip(0) =~= ps);
    assert(resolved_ref(ref_path@, *openapi) == follow(*openapi, ps));
    while i < parts.len()
        invariant
            0 <= i <= parts@.len(),
            resolved_ref(ref_path@, *openapi) == follow(*openapi, ps),
            ps == views(parts@),
            follow(*openapi, ps) == follow(*current, ps.skip(i as int)),
        decreases parts@.len() - i,
    {
        proof {
            assert(ps.skip(i as int)[0] == parts@[i as int]@);
            assert(ps.skip(i as int).drop_first() =~= ps.skip(i + 1));
        }
        match current.get(parts[i].as_str()) {
            Some(next) => {
                current = next;
            },
            None => {
                return None;
            },
        }
        i = i + 1;
    }
    assert(ps.skip(i as int) =~= Seq::<Seq<char>>::empty());
    Some(current)
}

/// The characters of a vector from a position on.
fn slice_from(v: &Vec<char>, start: usize) -> (r: Vec<char>)
    requires
        start <= v@.len(),
    ensures
        r@ == v@.skip(start as int),
{
    let mut r: Vec<char> = Vec::new();
    let mut i: usize = start;
    while i < v.len()
        invariant
            start <= i <= v@.len(),
            r@ == v@.subrange(start as int, i as int),
        decreases v@.len() - i,
    {
        r.push(v[i]);
        assert(r@ =~= v@.subrange(start as int, i + 1));
        i = i + 1;
    }
    assert(r@ =~= v@.skip(start as int));
    r
}

/// Whether `r` is an example for a schema: its `example`, else its `default`, else
/// a value made from its `type` (and a string's `format`); nothing for a type
/// that makes none. A `uuid` string is some string.
pub open spec fn is_example_for(schema: JsonValue, r: Option<JsonValue>) -> bool {
    match json_get(schema, "example"@) {
        Some(e) => r matches Some(x) && json_view(x) == json_view(e),
        None => match json_get(schema, "default"@) {
            Some(d) => r matches Some(x) && json_view(x) == json_view(d),
            None => {
                let t = str_of(json_get(schema, "type"@));
                if t == Some("string"@) {
                    let f = str_of(json_get(schema, "format"@));
                    if f == Some("email"@) {
                        r matches Some(JsonValue::Str(s)) && s@ == "user@example.com"@
                    } else if f == Some("date-time"@) {
                        r matches Some(JsonValue::Str(s)) && s@ == "2024-01-01T00:00:00Z"@
                    } else if f == Some("date"@) {
                        r matches Some(JsonValue::Str(s)) && s@ == "2024-01-01"@
                    } else if f == Some("uuid"@) {
                        r matches Some(JsonValue::Str(_))
                    } else {
                        r matches Some(JsonValue::Str(s)) && s@ == "string"@
                    }
                } else if t == Some("number"@) || t == Some("integer"@) {
                    r matches Some(JsonValue::Number(n)) && n@ == "0"@
                } else if t == Some("boolean"@) {
                    r == Some(JsonValue::Bool(true))
                } else if t == Some("array"@) {
                    r matches Some(JsonValue::Array(a)) && a@.len() == 0
                } else if t == Some("object"@) {
                    r matches Some(JsonValue::Object(f)) && f@.len() == 0
                } else if t == Some("null"@) {
                    r == Some(JsonValue::Null)
                } else {
                    r is None
                }
            },
        },
    }
}

/// An example value for a schema.
fn generate_example_value(schema: &JsonValue) -> (r: Option<JsonValue>)
    ensures
        is_example_for(*schema, r),
{
    if let Some(example) = schema.get("example") {
        return Some(copy_json(example));
    }
    if let Some(default) = schema.get("default") {
        return Some(copy_json(default));
    }
    let t = match schema.get("type") {
        Some(x) => x.as_str(),
        None => None,
    };
    proof {
        reveal_strlit("string");
        reveal_strlit("number");
        reveal_strlit("integer");
        reveal_strlit("boolean");
        reveal_strlit("array");
        reveal_strlit("object");
        reveal_strlit("null");
        reveal_strlit("email");
        reveal_strlit("date-time");
        reveal_strlit("date");
        reveal_strlit("uuid");
    }
    match t {
        Some(ty) => {
            if str_equal(ty, "string") {
                let f = match schema.get("format") {
                    Some(x) => x.as_str(),
                    None => None,
                };
                match f {
                    Some(fm) => if str_equal(fm, "email") {
                        Some(JsonValue::Str(to_owned_string("user@example.com")))
                    } else if str_equal(fm, "date-time") {
                        Some(JsonValue::Str(to_owned_string("2024-01-01T00:00:00Z")))
                    } else if str_equal(fm, "date") {
                        Some(JsonValue::Str(to_owned_string("2024-01-01")))
                    } else if str_equal(fm, "uuid") {
                        Some(JsonValue::Str(id_text(new_id())))
                    } else {
                        Some(JsonValue::Str(to_owned_string("string")))
                    },
                    None => Some(JsonValue::Str(to_owned_string("string"))),
                }
            } else if str_equal(ty, "number") || str_equal(ty, "integer") {
                Some(JsonValue::Number(to_owned_string("0")))
            } else if str_equal(ty, "boolean") {
                Some(JsonValue::Bool(true))
            } else if str_equal(ty, "array") {
                Some(JsonValue::Array(Vec::new()))
            } else if str_equal(ty, "object") {
                Some(JsonValue::Object(Vec::new()))
            } else if str_equal(ty, "null") {
                Some(JsonValue::Null)
            } else {
                None
            }
        },
        None => None,
    }
}

/// The schema an example is made from: the one a `$ref` points at (none when it
/// points nowhere), or the schema itself.
pub open spec fn example_source(schema: JsonValue, openapi: JsonValue) -> Option<JsonValue> {
    match json_get(schema, "$ref"@) {
        Some(rv) => resolved_ref(text_or(str_of(Some(rv)), ""@), openapi),
        None => Some(schema),
    }
}

/// Whether `r` is the example of a schema, or null when the schema makes none.
pub open spec fn example_or_null_for(source: Option<JsonValue>, r: JsonValue) -> bool {
    match source {
        Some(s) => is_example_for(s, Some(r)) || (is_example_for(s, None) && r == JsonValue::Null),
        None => r == JsonValue::Null,
    }
}

/// The example for a property or item schema, following a `$ref` first; null when
/// there is none.
fn example_or_null(schema: &JsonValue, openapi: &JsonValue) -> (r: JsonValue)
    ensures
        example_or_null_for(example_source(*schema, *openapi), r),
{
    let found = match schema.get("$ref") {
        Some(r) => {
            let path = match r.as_str() {
                Some(p) => p,
                None => "",
            };
            match resolve_ref(path, openapi) {
                Some(target) => generate_example_value(target),
                None => None,
            }
        },
        None => generate_example_value(schema),
    };
    match found {
        Some(v) => v,
        None => JsonValue::Null,
    }
}

/// The properties of an object schema (none when it has no `properties` object).
pub open spec fn schema_props(schema: JsonValue) -> Seq<(String, JsonValue)> {
    match json_get(schema, "properties"@) {
        Some(JsonValue::Object(f)) => f@,
        _ => Seq::empty(),
    }
}

/// Whether `vals` holds an example (or null) for each property, in order.
pub open spec fn examples_of_props(props: Seq<(String, JsonValue)>, doc: JsonValue, vals: Seq<JsonValue>) -> bool {
    &&& vals.len() == props.len()
    &&& forall|k: int|
        0 <= k < props.len() ==> example_or_null_for(example_source(props[k].1, doc), #[trigger] vals[k])
}

/// The object of the properties' names with their examples.
pub open spec fn property_examples(props: Seq<(String, JsonValue)>, vals: Seq<JsonValue>) -> Seq<(Seq<char>, JsonView)> {
    Seq::new(props.len(), |k: int| (props[k].0@, json_view(vals[k])))
}

/// Whether `item` is the example (or null) of an array schema's `items`; null
/// when it has none.
pub open spec fn item_example_ok(schema: JsonValue, doc: JsonValue, item: JsonValue) -> bool {
    match json_get(schema, "items"@) {
        Some(i) => example_or_null_for(example_source(i, doc), item),
        None => item == JsonValue::Null,
    }
}

/// Whether `text` is the example text of a schema: for an object, the indented
/// JSON of the object of its properties' examples; for an array, `[`, the compact
/// JSON of its items' example, and `]`; `{}` otherwise.
pub open spec fn schema_text_ok(schema: JsonValue, doc: JsonValue, text: Seq<char>) -> bool {
    let t = str_of(json_get(schema, "type"@));
    if t == Some("object"@) {
        exists|vals: Seq<JsonValue>|
            #![trigger examples_of_props(schema_props(schema), doc, vals)]
            examples_of_props(schema_props(schema), doc, vals) && text == pretty_json(
                serde_image(JsonView::Object(property_examples(schema_props(schema), vals))),
            )
    } else if t == Some("array"@) {
        exists|item: JsonValue|
            #![trigger item_example_ok(schema, doc, item)]
            item_example_ok(schema, doc, item) && text == "["@ + compact_json(serde_image(json_view(item))) + "]"@
    } else {
        text == "{}"@
    }
}

/// The example text a schema gives: for an object, an object of its properties'
/// examples, indented; for an array, a one-element array of its items' example;
/// `{}` otherwise.
fn generate_example_from_schema(schema: &JsonValue, openapi: &JsonValue) -> (r: String)
    ensures
        schema_text_ok(*schema, *openapi, r@),
{
    proof {
        reveal_strlit("object");
        reveal_strlit("array");
        assert("object"@.len() != "array"@.len());
    }
    let t = match schema.get("type") {
        Some(x) => x.as_str(),
        None => None,
    };
    match t {
        Some(ty) => {
            if str_equal(ty, "object") {
                let mut fields: Vec<(String, JsonValue)> = Vec::new();
                let ghost ps = schema_props(*schema);
                match schema.get("properties") {
                    Some(JsonValue::Object(props)) => {
                        assert(props@ == ps);
                        let mut i: usize = 0;
                        while i < props.len()
                            invariant
                                0 <= i <= props@.len(),
                                fields@.len() == i,
                                forall|k: int|
                                    0 <= k < i ==> (#[trigger] fields@[k]).0@ == props@[k].0@ && example_or_null_for(
                                        example_source(props@[k].1, *openapi),
                                        fields@[k].1,
                                    ),
                            decreases props@.len() - i,
                        {
                            let value = example_or_null(&props[i].1, openapi);
                            fields.push((props[i].0.clone(), value));
                            i = i + 1;
                        }
                    },
                    _ => {},
                }
                let ghost vals = fields@.map_values(|p: (String, JsonValue)| p.1);
                proof {
                    assert(examples_of_props(ps, *openapi, vals));
                    lemma_field_views_index(fields@);
                    assert(field_views(fields@) =~= property_examples(ps, vals));
                }
                let obj = JsonValue::Object(fields);
                let r = pretty_or(&to_serde(&obj), "{}");
                proof {
                    assert(json_view(obj) == JsonView::Object(property_examples(ps, vals)));
                }
                r
            } else if str_equal(ty, "array") {
                let item = match schema.get("items") {
                    Some(i) => example_or_null(i, openapi),
                    None => JsonValue::Null,
                };
                let mut s = to_owned_string("[");
                let inner = compact_or_empty(&to_serde(&item));
                push_str(&mut s, inner.as_str());
                push_str(&mut s, "]");
                proof {
                    reveal_strlit("[");
                    reveal_strlit("]");
                    assert(item_example_ok(*schema, *openapi, item));
                }
                s
            } else {
                proof {
                    reveal_strlit("{}");
                }
                to_owned_string("{}")
            }
        },
        None => {
            proof {
                reveal_strlit("{}");
            }
            to_owned_string("{}")
        },
    }
}

/// Whether a body is what an operation's `body` object gives: for an
/// `application/json` example, its indented JSON; for an `application/json`
/// schema, raw JSON holding the schema's example text; else a `text/plain` string
/// example as text; else `{}` as JSON.
pub open spec fn openapi_body_ok(b: JsonValue, doc: JsonValue, r: BodyView) -> bool {
    let json = opt_get(json_get(b, "content"@), "application/json"@);
    if json is Some && json_get(json.unwrap(), "example"@) is Some {
        r == BodyView::Raw {
            content: pretty_json(serde_image(json_view(json_get(json.unwrap(), "example"@).unwrap()))),
            content_type: RawContentType::Json,
        }
    } else if json is Some && json_get(json.unwrap(), "schema"@) is Some {
        r matches BodyView::Raw { content, content_type: RawContentType::Json } && schema_text_ok(
            json_get(json.unwrap(), "schema"@).unwrap(),
            doc,
            content,
        )
    } else {
        match str_of(opt_get(opt_get(json_get(b, "content"@), "text/plain"@), "example"@)) {
            Some(t) => r == BodyView::Raw { content: t, content_type: RawContentType::Text },
            None => r == BodyView::Raw { content: "{}"@, content_type: RawContentType::Json },
        }
    }
}

/// The body of an operation's `body` object.
fn parse_openapi_body(body_obj: &JsonValue, openapi: &JsonValue) -> (r: BodyType)
    ensures
        openapi_body_ok(*body_obj, *openapi, r@),
{
    proof {
        reveal_strlit("{}");
    }
    if let Some(content) = body_obj.get("content") {
        if let Some(json_content) = content.get("application/json") {
            if let Some(example) = json_content.get("example") {
                return BodyType::Raw {
                    content: pretty_or(&to_serde(example), "{}"),
                    content_type: RawContentType::Json,
                };
            }
            if let Some(schema) = json_content.get("schema") {
                let example = generate_example_from_schema(schema, openapi);
                return BodyType::Raw { content: example, content_type: RawContentType::Json };
            }
        }
        if let Some(text_content) = content.get("text/plain") {
            if let Some(example) = text_content.get("example") {
                if let Some(text) = example.as_str() {
                    return BodyType::Raw { content: to_owned_string(text), content_type: RawContentType::Text };
                }
            }
        }
    }
    BodyType::Raw { content: to_owned_string("{}"), content_type: RawContentType::Json }
}

/// The base URL of a document: the first server's `url`; else, for Swagger 2.x,
/// the first scheme (`https` when there is none), `://`, the `host` and the
/// `basePath`; else the empty text.
pub open spec fn base_url_of(p: JsonValue) -> Seq<char> {
    let first_url = match array_of(json_get(p, "servers"@)) {
        Some(a) => if a.len() > 0 {
            str_of(json_get(a[0], "url"@))
        } else {
            None
        },
        None => None,
    };
    match first_url {
        Some(u) => u,
        None => match str_of(json_get(p, "host"@)) {
            Some(h) => {
                let scheme = match array_of(json_get(p, "schemes"@)) {
                    Some(a) => if a.len() > 0 {
                        str_of(Some(a[0]))
                    } else {
                        None
                    },
                    None => None,
                };
                text_or(scheme, "https"@) + "://"@ + h + text_or(str_of(json_get(p, "basePath"@)), ""@)
            },
            None => ""@,
        },
    }
}

/// The first element of an array value, if it has one.
fn first_of(v: Option<&JsonValue>) -> (r: Option<&JsonValue>)
    ensures
        match array_of(
            match v {
                Some(x) => Some(*x),
                None => None,
            },
        ) {
            Some(a) => if a.len() > 0 {
                r matches Some(x) && *x == a[0]
            } else {
                r is None
            },
            None => r is None,
        },
{
    match v {
        Some(x) => match x.as_array() {
            Some(a) => if a.len() > 0 {
                Some(&a[0])
            } else {
                None
            },
            None => None,
        },
        None => None,
    }
}

/// The base URL of a document.
fn extract_base_url(openapi: &JsonValue) -> (r: String)
    ensures
        r@ == base_url_of(*openapi),
{
    if let Some(first_server) = first_of(openapi.get("servers")) {
        if let Some(url) = text_field(first_server, "url") {
            return to_owned_string(url);
        }
    }
    if let Some(host) = text_field(openapi, "host") {
        let scheme = match first_of(openapi.get("schemes")) {
            Some(s) => s.as_str(),
            None => None,
        };
        let mut r = text_or_default(scheme, "https");
        push_str(&mut r, "://");
        push_str(&mut r, host);
        let base_path = text_or_default(text_field(openapi, "basePath"), "");
        push_str(&mut r, base_path.as_str());
        return r;
    }
    proof {
        reveal_strlit("");
    }
    String::new()
}

/// The last segment of a path that is neither empty nor a `{parameter}`.
pub open spec fn last_plain_segment(parts: Seq<Seq<char>>) -> Option<Seq<char>>
    decreases parts.len(),
{
    if parts.len() == 0 {
        None
    } else if parts.last().len() > 0 && parts.last()[0] != '{' {
        Some(parts.last())
    } else {
        last_plain_segment(parts.drop_last())
    }
}

/// The part of a path that names an operation without a summary.
pub open spec fn path_name_part(path: Seq<char>) -> Seq<char> {
    text_or(last_plain_segment(split_at_char(path, '/')), "endpoint"@)
}

/// The part of a path that names an operation without a summary.
fn path_part(path: &str) -> (r: String)
    ensures
        r@ == path_name_part(path@),
{
    let parts = split_parts(path, '/');
    let mut i: usize = parts.len();
    let ghost ps = views(parts@);
    assert(ps.take(ps.len() as int) =~= ps);
    while i > 0
        invariant
            i <= parts@.len(),
            ps == views(parts@),
            ps == split_at_char(path@, '/'),
            last_plain_segment(ps) == last_plain_segment(ps.take(i as int)),
        decreases i,
    {
        let ghost pre = ps.take(i as int);
        proof {
            assert(pre.last() == parts@[i - 1]@);
            assert(pre.drop_last() =~= ps.take(i - 1));
        }
        let seg = chars_of(parts[i - 1].as_str());
        if seg.len() > 0 && seg[0] != '{' {
            return to_owned_string(parts[i - 1].as_str());
        }
        i = i - 1;
    }
    proof {
        reveal_strlit("endpoint");
    }
    to_owned_string("endpoint")
}

/// The pair a header or query parameter becomes: its `name` (empty when there is
/// none) with an empty value and its `description`.
pub open spec fn param_pair(p: JsonValue, enabled: bool) -> PairView {
    PairView {
        key: text_or(str_of(json_get(p, "name"@)), ""@),
        value: ""@,
        enabled,
        description: str_of(json_get(p, "description"@)),
    }
}

/// Whether a parameter object sits in the given place (`in`).
pub open spec fn param_in(p: JsonValue, place: Seq<char>) -> bool {
    p is Object && str_of(json_get(p, "in"@)) == Some(place)
}

/// The headers the parameters declare, in order, each enabled.
pub open spec fn header_params(ps: Seq<JsonValue>) -> Seq<PairView>
    decreases ps.len(),
{
    if ps.len() == 0 {
        Seq::empty()
    } else if param_in(ps.last(), "header"@) {
        header_params(ps.drop_last()).push(param_pair(ps.last(), true))
    } else {
        header_params(ps.drop_last())
    }
}

/// The query parameters the parameters declare, in order, enabled when required.
pub open spec fn query_params_in(ps: Seq<JsonValue>) -> Seq<PairView>
    decreases ps.len(),
{
    if ps.len() == 0 {
        Seq::empty()
    } else if param_in(ps.last(), "query"@) {
        query_params_in(ps.drop_last()).push(
            param_pair(
                ps.last(),
                match bool_of(json_get(ps.last(), "required"@)) {
                    Some(b) => b,
                    None => false,
                },
            ),
        )
    } else {
        query_params_in(ps.drop_last())
    }
}

/// The pair of one parameter object.
fn param_pair_of(p: &JsonValue, enabled: bool) -> (r: KeyValuePair)
    ensures
        r@ == param_pair(*p, enabled),
{
    let key = text_or_default(text_field(p, "name"), "");
    let description = match text_field(p, "description") {
        Some(d) => Some(to_owned_string(d)),
        None => None,
    };
    let value = String::new();
    proof {
        reveal_strlit("");
        assert(value@ =~= ""@);
    }
    let r = KeyValuePair { key, value, enabled, description };
    assert(r@.description == str_of(json_get(*p, "description"@)));
    r
}

/// The header and query parameters of an operation's parameter list.
fn split_params(params: &Vec<JsonValue>) -> (r: (Vec<KeyValuePair>, Vec<KeyValuePair>))
    ensures
        pairs_view(r.0@) == header_params(params@),
        pairs_view(r.1@) == query_params_in(params@),
{
    let mut headers: Vec<KeyValuePair> = Vec::new();
    let mut query: Vec<KeyValuePair> = Vec::new();
    let mut i: usize = 0;
    proof {
        reveal_strlit("header");
        reveal_strlit("query");
        assert(params@.take(0) =~= Seq::<JsonValue>::empty());
    }
    while i < params.len()
        invariant
            0 <= i <= params@.len(),
            pairs_view(headers@) == header_params(params@.take(i as int)),
            pairs_view(query@) == query_params_in(params@.take(i as int)),
        decreases params@.len() - i,
    {
        let p = &params[i];
        proof {
            reveal_strlit("header");
            reveal_strlit("query");
            assert(params@.take(i + 1).drop_last() =~= params@.take(i as int));
            assert(params@.take(i + 1).last() == params@[i as int]);
        }
        let ghost hb = headers@;
        let ghost qb = query@;
        let place = match p {
            JsonValue::Object(_) => text_field(p, "in"),
            _ => None,
        };
        match place {
            Some(pl) => {
                if str_equal(pl, "header") {
                    headers.push(param_pair_of(p, true));
                    assert(pairs_view(headers@) =~= pairs_view(hb).push(headers@.last()@));
                    assert("header"@.len() != "query"@.len());
                } else if str_equal(pl, "query") {
                    let required = match p.get("required") {
                        Some(b) => match b.as_bool() {
                            Some(x) => x,
                            None => false,
                        },
                        None => false,
                    };
                    query.push(param_pair_of(p, required));
                    assert(pairs_view(query@) =~= pairs_view(qb).push(query@.last()@));
                }
            },
            None => {},
        }
        i = i + 1;
    }
    assert(params@.take(params@.len() as int) =~= params@);
    (headers, query)
}

/// Whether a header list already names a content type, in any ASCII case.
pub open spec fn names_content_type(hs: Seq<PairView>) -> bool {
    exists|k: int| 0 <= k < hs.len() && eq_ignore_ascii_case(#[trigger] hs[k].key, "content-type"@)
}

/// Whether a header list already names a content type.
fn has_content_type(headers: &Vec<KeyValuePair>) -> (r: bool)
    ensures
        r == names_content_type(pairs_view(headers@)),
{
    let mut i: usize = 0;
    while i < headers.len()
        invariant
            0 <= i <= headers@.len(),
            forall|k: int| 0 <= k < i ==> !eq_ignore_ascii_case(#[trigger] pairs_view(headers@)[k].key, "content-type"@),
        decreases headers@.len() - i,
    {
        if equals_ignore_ascii_case(headers[i].key.as_str(), "content-type") {
            assert(pairs_view(headers@)[i as int].key == headers@[i as int].key@);
            return true;
        }
        assert(pairs_view(headers@)[i as int].key == headers@[i as int].key@);
        i = i + 1;
    }
    false
}

/// What a request imported from an operation holds, apart from its id and times.
/// Its `body` is the operation's `body` object with the document it is read in, or
/// `None` when the operation has no body.
pub struct OperationShape {
    pub name: Seq<char>,
    pub method: HttpMethod,
    pub url: Seq<char>,
    pub headers: Seq<PairView>,
    pub query_params: Seq<PairView>,
    pub body: Option<(JsonValue, JsonValue)>,
}

/// Whether a body is what an operation's shape says: none without a `body`
/// object, else what `openapi_body_ok` describes.
pub open spec fn op_body_ok(r: BodyView, b: Option<(JsonValue, JsonValue)>) -> bool {
    match b {
        None => r == BodyView::NoBody,
        Some((body, doc)) => openapi_body_ok(body, doc, r),
    }
}

/// Whether a request holds what the operation shape says.
pub open spec fn has_op_shape(r: RequestView, s: OperationShape) -> bool {
    &&& r.name == s.name
    &&& r.method == s.method
    &&& r.url == s.url
    &&& r.headers == s.headers
    &&& r.query_params == s.query_params
    &&& op_body_ok(r.body, s.body)
}

/// The name of an operation: its `summary`, else its `operationId` (whichever is
/// present first, when it is a string); else the upper-case method, a space and
/// the path's last plain segment.
pub open spec fn op_name(method: Seq<char>, path: Seq<char>, op: JsonValue) -> Seq<char> {
    let named = match json_get(op, "summary"@) {
        Some(x) => Some(x),
        None => json_get(op, "operationId"@),
    };
    match str_of(named) {
        Some(s) => s,
        None => uppercase(method) + " "@ + path_name_part(path),
    }
}

/// The header added to an operation with a body that names no content type.
pub open spec fn json_content_type_pair() -> PairView {
    PairView {
        key: "Content-Type"@,
        value: "application/json"@,
        enabled: true,
        description: Some("Content-Type header"@),
    }
}

/// The parameter list of an operation (empty when there is none).
pub open spec fn op_params(op: JsonValue) -> Seq<JsonValue> {
    match array_of(json_get(op, "parameters"@)) {
        Some(a) => a,
        None => Seq::empty(),
    }
}

/// The headers of an operation: its header parameters, and a JSON content type
/// when it has a `body` and none of them names a content type.
pub open spec fn op_headers(op: JsonValue) -> Seq<PairView> {
    let hs = header_params(op_params(op));
    if json_get(op, "body"@) is Some && !names_content_type(hs) {
        hs.push(json_content_type_pair())
    } else {
        hs
    }
}

/// What an operation under a path gives: its shape, or the error for a method
/// that is not one of the supported ones.
pub open spec fn operation_outcome(method: Seq<char>, path: Seq<char>, op: JsonValue, doc: JsonValue) -> Result<
    OperationShape,
    ImportErrorView,
> {
    match method_named(uppercase(method)) {
        None => Err(import_err(ImportErrorKind::Validation, "Unknown HTTP method: "@ + method)),
        Some(m) => Ok(
            OperationShape {
                name: op_name(method, path, op),
                method: m,
                url: base_url_of(doc) + path,
                headers: op_headers(op),
                query_params: query_params_in(op_params(op)),
                body: match json_get(op, "body"@) {
                    Some(b) => Some((b, doc)),
                    None => None,
                },
            },
        ),
    }
}

/// Whether `servers` is what the document's `servers` array holds.
pub open spec fn servers_of(openapi: JsonValue, servers: Option<&Vec<JsonValue>>) -> bool {
    match servers {
        Some(s) => array_of(json_get(openapi, "servers"@)) == Some(s@),
        None => array_of(json_get(openapi, "servers"@)) is None,
    }
}

/// A request from an operation, with a fresh id, created now.
fn parse_openapi_operation(
    method_str: &str,
    path: &str,
    operation: &JsonValue,
    base_url: &str,
    servers: Option<&Vec<JsonValue>>,
    openapi: &JsonValue,
) -> (r: Result<RequestDefinition, ImportError>)
    requires
        base_url@ == base_url_of(*openapi),
        servers_of(*openapi, servers),
    ensures
        match operation_outcome(method_str@, path@, *operation, *openapi) {
            Ok(s) => r matches Ok(req) && has_op_shape(req@, s),
            Err(e) => r matches Err(x) && x@ == e,
        },
{
    let method = parse_http_method(method_str)?;
    let named = match operation.get("summary") {
        Some(x) => Some(x),
        None => operation.get("operationId"),
    };
    let name = match named {
        Some(x) => match x.as_str() {
            Some(s) => to_owned_string(s),
            None => {
                let mut n = to_uppercase(method_str);
                push_str(&mut n, " ");
                let part = path_part(path);
                push_str(&mut n, part.as_str());
                n
            },
        },
        None => {
            let mut n = to_uppercase(method_str);
            push_str(&mut n, " ");
            let part = path_part(path);
            push_str(&mut n, part.as_str());
            n
        },
    };
    let url = if !base_url.is_empty() {
        let mut u = to_owned_string(base_url);
        push_str(&mut u, path);
        u
    } else {
        let first_server = match servers {
            Some(s) => if s.len() > 0 {
                Some(&s[0])
            } else {
                None
            },
            None => None,
        };
        match first_server {
            Some(server) => {
                let mut u = text_or_default(text_field(server, "url"), "");
                push_str(&mut u, path);
                u
            },
            None => to_owned_string(path),
        }
    };
    proof {
        reveal_strlit("");
    }
    let (mut headers, query_params) = match operation.get("parameters") {
        Some(ps) => match ps.as_array() {
            Some(a) => split_params(a),
            None => (Vec::new(), Vec::new()),
        },
        None => (Vec::new(), Vec::new()),
    };
    proof {
        if array_of(json_get(*operation, "parameters"@)) is None {
            assert(pairs_view(headers@) =~= header_params(op_params(*operation)));
            assert(pairs_view(query_params@) =~= query_params_in(op_params(*operation)));
        }
    }
    let body = match operation.get("body") {
        Some(body_obj) => parse_openapi_body(body_obj, openapi),
        None => BodyType::NoBody,
    };
    let has_body = match body {
        BodyType::NoBody => false,
        _ => true,
    };
    if has_body && !has_content_type(&headers) {
        let ghost before = headers@;
        headers.push(
            KeyValuePair {
                key: to_owned_string("Content-Type"),
                value: to_owned_string("application/json"),
                enabled: true,
                description: Some(to_owned_string("Content-Type header")),
            },
        );
        assert(pairs_view(headers@) =~= pairs_view(before).push(json_content_type_pair()));
    }
    Ok(
        RequestDefinition {
            id: new_id(),
            name,
            method,
            url,
            headers,
            query_params,
            body,
            created_at: now(),
            updated_at: now(),
        },
    )
}

/// The methods an OpenAPI path item is read for, in order.
pub open spec fn openapi_methods() -> Seq<Seq<char>> {
    seq!["get"@, "put"@, "post"@, "delete"@, "options"@, "head"@, "patch"@, "trace"@]
}

/// Two outcomes one after the other: the first error, or both lists joined.
pub open spec fn then_ops(
    a: Result<Seq<OperationShape>, ImportErrorView>,
    b: Result<Seq<OperationShape>, ImportErrorView>,
) -> Result<Seq<OperationShape>, ImportErrorView> {
    match a {
        Err(e) => Err(e),
        Ok(x) => match b {
            Err(e) => Err(e),
            Ok(y) => Ok(x + y),
        },
    }
}

/// What one method of a path item gives: nothing when the item has no object
/// under that method.
pub open spec fn method_ops(path: Seq<char>, item: JsonValue, doc: JsonValue, m: Seq<char>) -> Result<
    Seq<OperationShape>,
    ImportErrorView,
> {
    match json_get(item, m) {
        Some(op) => if op is Object {
            match operation_outcome(m, path, op, doc) {
                Ok(s) => Ok(seq![s]),
                Err(e) => Err(e),
            }
        } else {
            Ok(Seq::empty())
        },
        None => Ok(Seq::empty()),
    }
}

/// What a list of methods of a path item gives, in order.
pub open spec fn methods_ops(path: Seq<char>, item: JsonValue, doc: JsonValue, ms: Seq<Seq<char>>) -> Result<
    Seq<OperationShape>,
    ImportErrorView,
>
    decreases ms.len(),
{
    if ms.len() == 0 {
        Ok(Seq::empty())
    } else {
        then_ops(methods_ops(path, item, doc, ms.drop_last()), method_ops(path, item, doc, ms.last()))
    }
}

/// Once a prefix of the methods fails, the whole list fails the same way.
proof fn lemma_methods_err_prefix(path: Seq<char>, item: JsonValue, doc: JsonValue, ms: Seq<Seq<char>>, i: int)
    requires
        0 <= i <= ms.len(),
        methods_ops(path, item, doc, ms.take(i)) is Err,
    ensures
        methods_ops(path, item, doc, ms) == methods_ops(path, item, doc, ms.take(i)),
    decreases ms.len() - i,
{
    if i < ms.len() {
        assert(ms.take(i + 1).drop_last() =~= ms.take(i));
        lemma_methods_err_prefix(path, item, doc, ms, i + 1);
    } else {
        assert(ms.take(i) =~= ms);
    }
}

/// The tree references of a list of requests, in order.
pub open spec fn request_refs(rs: Seq<RequestView>) -> Seq<ItemView> {
    rs.map_values(|r: RequestView| ItemView::Request(r.id))
}

/// Whether the requests hold the operation shapes, one for one.
pub open spec fn shapes_held(rs: Seq<RequestView>, ops: Seq<OperationShape>) -> bool {
    &&& rs.len() == ops.len()
    &&& forall|k: int| 0 <= k < rs.len() ==> has_op_shape(#[trigger] rs[k], ops[k])
}

/// Whether a collection holds exactly these requests, all at the top level.
pub open spec fn holds_requests(c: CollectionView, rs: Seq<RequestView>) -> bool {
    &&& c.requests == requests_by_id(rs)
    &&& c.tree == request_refs(rs)
}

/// Adds a request at the top level of a collection that holds `rs`.
proof fn lemma_add_top(c: CollectionView, d: CollectionView, rs: Seq<RequestView>, r: RequestView)
    requires
        holds_requests(c, rs),
        d.requests == c.requests.insert(r.id, r),
        d.tree == c.tree.push(ItemView::Request(r.id)),
    ensures
        holds_requests(d, rs.push(r)),
{
    assert(rs.push(r).drop_last() =~= rs);
    assert(request_refs(rs.push(r)) =~= request_refs(rs).push(ItemView::Request(r.id)));
}

/// Adds to the collection a request for each of the supported methods under a
/// path that holds an operation object, in order; the first operation that
/// fails stops the import.
fn process_openapi_path(
    collection: &mut Collection,
    path: &str,
    path_obj: &JsonValue,
    base_url: &str,
    servers: Option<&Vec<JsonValue>>,
    openapi: &JsonValue,
    Ghost(done): Ghost<Seq<RequestView>>,
) -> (r: Result<(), ImportError>)
    requires
        holds_requests(old(collection)@, done),
        base_url@ == base_url_of(*openapi),
        servers_of(*openapi, servers),
    ensures
        final(collection)@.name == old(collection)@.name,
        match methods_ops(path@, *path_obj, *openapi, openapi_methods()) {
            Ok(ops) => r is Ok && exists|more: Seq<RequestView>|
                shapes_held(more, ops) && holds_requests(final(collection)@, done + more),
            Err(e) => r matches Err(x) && x@ == e,
        },
{
    let methods: Vec<&str> = vec!["get", "put", "post", "delete", "options", "head", "patch", "trace"];
    let ghost ms = openapi_methods();
    assert(methods@.len() == ms.len());
    assert(forall|k: int| 0 <= k < ms.len() ==> (#[trigger] methods@[k])@ == ms[k]);
    let ghost name0 = collection@.name;
    let ghost mut more: Seq<RequestView> = Seq::empty();
    let mut i: usize = 0;
    assert(ms.take(0) =~= Seq::<Seq<char>>::empty());
    assert(done + more =~= done);
    while i < methods.len()
        invariant
            0 <= i <= methods@.len(),
            methods@.len() == ms.len(),
            ms == openapi_methods(),
            forall|k: int| 0 <= k < ms.len() ==> (#[trigger] methods@[k])@ == ms[k],
            methods_ops(path@, *path_obj, *openapi, ms.take(i as int)) is Ok,
            shapes_held(more, methods_ops(path@, *path_obj, *openapi, ms.take(i as int))->Ok_0),
            holds_requests(collection@, done + more),
            collection@.name == name0,
            name0 == old(collection)@.name,
            base_url@ == base_url_of(*openapi),
            servers_of(*openapi, servers),
        decreases methods@.len() - i,
    {
        let m = methods[i];
        let ghost pre = methods_ops(path@, *path_obj, *openapi, ms.take(i as int))->Ok_0;
        proof {
            assert(ms.take(i + 1).drop_last() =~= ms.take(i as int));
            assert(ms.take(i + 1).last() == m@);
        }
        match path_obj.get(m) {
            Some(operation) => {
                match operation {
                    JsonValue::Object(_) => {
                        match parse_openapi_operation(m, path, operation, base_url, servers, openapi) {
                            Ok(request) => {
                                let ghost rv = request@;
                                let ghost before = collection@;
                                collection.add_request(request, None);
                                proof {
                                    lemma_add_top(before, collection@, done + more, rv);
                                    assert((done + more).push(rv) =~= done + more.push(rv));
                                    let all = methods_ops(path@, *path_obj, *openapi, ms.take(i + 1))->Ok_0;
                                    assert(all == pre + seq![operation_outcome(m@, path@, *operation, *openapi)->Ok_0]);
                                    assert forall|k: int| 0 <= k < more.len() + 1 implies has_op_shape(
                                        #[trigger] more.push(rv)[k],
                                        all[k],
                                    ) by {
                                        if k < more.len() {
                                            assert(more.push(rv)[k] == more[k]);
                                            assert(all[k] == pre[k]);
                                        }
                                    }
                                    more = more.push(rv);
                                }
                            },
                            Err(e) => {
                                proof {
                                    lemma_methods_err_prefix(path@, *path_obj, *openapi, ms, i + 1);
                                }
                                return Err(e);
                            },
                        }
                    },
                    _ => {
                        assert(pre + Seq::<OperationShape>::empty() =~= pre);
                    },
                }
            },
            None => {
                assert(pre + Seq::<OperationShape>::empty() =~= pre);
            },
        }
        i = i + 1;
    }
    assert(ms.take(ms.len() as int) =~= ms);
    Ok(())
}

/// What one entry of `paths` gives: nothing unless the path item is an object.
pub open spec fn path_ops(path: Seq<char>, item: JsonValue, doc: JsonValue) -> Result<
    Seq<OperationShape>,
    ImportErrorView,
> {
    if item is Object {
        methods_ops(path, item, doc, openapi_methods())
    } else {
        Ok(Seq::empty())
    }
}

/// What the entries of `paths` give, in order.
pub open spec fn paths_ops(fields: Seq<(String, JsonValue)>, doc: JsonValue) -> Result<
    Seq<OperationShape>,
    ImportErrorView,
>
    decreases fields.len(),
{
    if fields.len() == 0 {
        Ok(Seq::empty())
    } else {
        then_ops(paths_ops(fields.drop_last(), doc), path_ops(fields.last().0@, fields.last().1, doc))
    }
}

/// Once a prefix of the paths fails, the whole list fails the same way.
proof fn lemma_paths_err_prefix(fields: Seq<(String, JsonValue)>, doc: JsonValue, i: int)
    requires
        0 <= i <= fields.len(),
        paths_ops(fields.take(i), doc) is Err,
    ensures
        paths_ops(fields, doc) == paths_ops(fields.take(i), doc),
    decreases fields.len() - i,
{
    if i < fields.len() {
        assert(fields.take(i + 1).drop_last() =~= fields.take(i));
        lemma_paths_err_prefix(fields, doc, i + 1);
    } else {
        assert(fields.take(i) =~= fields);
    }
}

/// The version text of a document: its `openapi` field, or else its `swagger`
/// field, when that is a string.
pub open spec fn version_text(p: JsonValue) -> Option<Seq<char>> {
    str_of(
        match json_get(p, "openapi"@) {
            Some(x) => Some(x),
            None => json_get(p, "swagger"@),
        },
    )
}

/// Whether a document declares a 2.x or 3.x version.
pub open spec fn version_supported(p: JsonValue) -> bool {
    match version_text(p) {
        Some(v) => starts_with(v, "3."@) || starts_with(v, "2."@),
        None => false,
    }
}

/// What an OpenAPI document gives: the collection's name (`info.title`, or
/// `OpenAPI Collection`) and the operations of its paths, or the first problem.
pub open spec fn openapi_outcome(p: JsonValue) -> Result<(Seq<char>, Seq<OperationShape>), ImportErrorView> {
    if !version_supported(p) {
        Err(
            import_err(
                ImportErrorKind::OpenApiFormat,
                "Unsupported OpenAPI version. Only 2.x and 3.x are supported."@,
            ),
        )
    } else {
        match json_get(p, "info"@) {
            None => Err(import_err(ImportErrorKind::OpenApiFormat, "Missing 'info' field in OpenAPI spec"@)),
            Some(info) => match json_get(p, "paths"@) {
                Some(JsonValue::Object(fields)) => match paths_ops(fields@, p) {
                    Ok(ops) => Ok((text_or(str_of(json_get(info, "title"@)), "OpenAPI Collection"@), ops)),
                    Err(e) => Err(e),
                },
                _ => Err(import_err(ImportErrorKind::OpenApiFormat, "Missing 'paths' field in OpenAPI spec"@)),
            },
        }
    }
}

/// Whether a collection is what an OpenAPI document describes: the name, and one
/// request (with a fresh id) per operation, in order, each at the top level.
pub open spec fn imported_ops(c: CollectionView, name: Seq<char>, ops: Seq<OperationShape>) -> bool {
    &&& c.name == name
    &&& exists|rs: Seq<RequestView>| shapes_held(rs, ops) && holds_requests(c, rs)
}

/// A collection from an OpenAPI 3.x or Swagger 2.x document: named by
/// `info.title`, with one top-level request per operation of each path, in the
/// order of `paths` and of the methods get, put, post, delete, options, head,
/// patch and trace. The document's first problem is reported instead.
pub fn parse_openapi_spec(openapi: &JsonValue) -> (r: Result<Collection, ImportError>)
    ensures
        match openapi_outcome(*openapi) {
            Ok((name, ops)) => r matches Ok(c) && imported_ops(c@, name, ops),
            Err(e) => r matches Err(x) && x@ == e,
        },
{
    let version = match openapi.get("openapi") {
        Some(v) => Some(v),
        None => openapi.get("swagger"),
    };
    let supported = match version {
        Some(v) => match v.as_str() {
            Some(t) => has_prefix(t, "3.") || has_prefix(t, "2."),
            None => false,
        },
        None => false,
    };
    if !supported {
        return Err(
            ImportError::new(
                ImportErrorKind::OpenApiFormat,
                "Unsupported OpenAPI version. Only 2.x and 3.x are supported.",
            ),
        );
    }
    let info = match openapi.get("info") {
        Some(i) => i,
        None => {
            return Err(ImportError::new(ImportErrorKind::OpenApiFormat, "Missing 'info' field in OpenAPI spec"));
        },
    };
    let title = text_or_default(text_field(info, "title"), "OpenAPI Collection");
    let mut collection = Collection::new(title.as_str());
    let base_url = extract_base_url(openapi);
    let servers = match openapi.get("servers") {
        Some(v) => v.as_array(),
        None => None,
    };
    let paths = match openapi.get("paths") {
        Some(JsonValue::Object(fields)) => fields,
        _ => {
            return Err(ImportError::new(ImportErrorKind::OpenApiFormat, "Missing 'paths' field in OpenAPI spec"));
        },
    };
    let ghost mut rs: Seq<RequestView> = Seq::empty();
    let ghost name0 = collection@.name;
    assert(openapi_outcome(*openapi) == match paths_ops(paths@, *openapi) {
        Ok(ops) => Ok((name0, ops)),
        Err(e) => Err(e),
    });
    let mut i: usize = 0;
    proof {
        assert(paths@.take(0) =~= Seq::<(String, JsonValue)>::empty());
        assert(collection@.tree =~= request_refs(rs));
        assert(collection@.requests == requests_by_id(rs));
    }
    while i < paths.len()
        invariant
            0 <= i <= paths@.len(),
            openapi_outcome(*openapi) == match paths_ops(paths@, *openapi) {
                Ok(ops) => Ok((name0, ops)),
                Err(e) => Err(e),
            },
            paths_ops(paths@.take(i as int), *openapi) is Ok,
            shapes_held(rs, paths_ops(paths@.take(i as int), *openapi)->Ok_0),
            holds_requests(collection@, rs),
            collection@.name == name0,
            base_url@ == base_url_of(*openapi),
            servers_of(*openapi, servers),
        decreases paths@.len() - i,
    {
        let ghost pre = paths_ops(paths@.take(i as int), *openapi)->Ok_0;
        proof {
            assert(paths@.take(i + 1).drop_last() =~= paths@.take(i as int));
            assert(paths@.take(i + 1).last() == paths@[i as int]);
        }
        let path = paths[i].0.as_str();
        let path_item = &paths[i].1;
        match path_item {
            JsonValue::Object(_) => {
                let ghost before = collection@;
                match process_openapi_path(&mut collection, path, path_item, base_url.as_str(), servers, openapi, Ghost(rs)) {
                    Ok(()) => {
                        proof {
                            let ops = methods_ops(path@, *path_item, *openapi, openapi_methods())->Ok_0;
                            let more = choose|more: Seq<RequestView>|
                                shapes_held(more, ops) && holds_requests(collection@, rs + more);
                            let all = paths_ops(paths@.take(i + 1), *openapi)->Ok_0;
                            assert(all == pre + ops);
                            assert forall|k: int| 0 <= k < rs.len() + more.len() implies has_op_shape(
                                #[trigger] (rs + more)[k],
                                all[k],
                            ) by {
                                if k < rs.len() {
                                    assert(all[k] == pre[k]);
                                } else {
                                    assert(all[k] == ops[k - rs.len()]);
                                }
                            }
                            rs = rs + more;
                        }
                    },
                    Err(e) => {
                        proof {
                            lemma_paths_err_prefix(paths@, *openapi, i + 1);
                        }
                        return Err(e);
                    },
                }
            },
            _ => {
                assert(pre + Seq::<OperationShape>::empty() =~= pre);
            },
        }
        i = i + 1;
    }
    assert(paths@.take(paths@.len() as int) =~= paths@);
    Ok(collection)
}

/// A collection imported from an OpenAPI document passes validation, unless its
/// title is blank: every reference in its tree points at a request it holds.
pub proof fn law_openapi_import_is_valid(c: CollectionView, name: Seq<char>, ops: Seq<OperationShape>)
    requires
        imported_ops(c, name, ops),
        !blank(name),
    ensures
        collection_problem(c.name, c.tree, c.requests.dom()) is None,
{
    let rs = choose|rs: Seq<RequestView>| shapes_held(rs, ops) && holds_requests(c, rs);
    lemma_requests_by_id_holds(rs);
    assert forall|k: int| 0 <= k < c.tree.len() implies ((#[trigger] c.tree[k]) matches ItemView::Request(id) && c.requests.dom().contains(
        id,
    )) by {
        assert(c.tree[k] == ItemView::Request(rs[k].id));
    }
    lemma_request_refs_valid(c.tree, c.requests.dom());
}

/// Imports an OpenAPI 3.x or Swagger 2.x specification from its JSON text: a
/// `Deserialization` error with the parser's message when the text is not JSON,
/// otherwise what `parse_openapi_spec` gives for the parsed document.
pub fn import_openapi_text(text: &str) -> (r: Result<Collection, ImportError>)
    ensures
        match json_error(text@) {
            Some(m) => r matches Err(x) && x@ == import_err(
                ImportErrorKind::Deserialization,
                "Failed to parse OpenAPI JSON: "@ + m,
            ),
            None => exists|v: JsonValue|
                #[trigger] json_view(v) == json_parse(text@) && match openapi_outcome(v) {
                    Ok((name, ops)) => r matches Ok(c) && imported_ops(c@, name, ops),
                    Err(e) => r matches Err(x) && x@ == e,
                },
        },
{
    match parse_json_text(text) {
        Ok(v) => parse_openapi_spec(&v),
        Err(m) => {
            let mut msg = to_owned_string("Failed to parse OpenAPI JSON: ");
            push_str(&mut msg, m.as_str());
            Err(ImportError::new(ImportErrorKind::Deserialization, msg.as_str()))
        },
    }
}

} // verus!
