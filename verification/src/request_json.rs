//! Requests read from a JSON request file, as the command line takes them.
use vstd::prelude::*;
use crate::ids::{new_id, now, is_v4_uuid, uuid_parse, parse_id};
use crate::json_value::{JsonValue, json_get, str_of, bool_of, array_of, text_or};
use crate::models::{HttpMethod, KeyValuePair, PairView, pairs_view, BodyType, BodyView, RawContentType, RequestDefinition, RequestView};
use crate::text::{to_owned_string, push_str, str_equal};
use crate::json::{parse_json_text, json_parse};
use crate::json_value::json_view;
use crate::validation::json_error;

verus! {

/// The pair an element of a `headers`, `query_params` or `fields` list stands
/// for: its `key` and `value` (empty when missing), `enabled` (true when
/// missing) and `description`.
pub open spec fn listed_pair(v: JsonValue) -> PairView {
    PairView {
        key: text_or(str_of(json_get(v, "key"@)), ""@),
        value: text_or(str_of(json_get(v, "value"@)), ""@),
        enabled: match bool_of(json_get(v, "enabled"@)) {
            Some(b) => b,
            None => true,
        },
        description: str_of(json_get(v, "description"@)),
    }
}

/// The pairs of a value that should be an array (none otherwise), one per element.
pub open spec fn listed_pairs(v: Option<JsonValue>) -> Seq<PairView> {
    match array_of(v) {
        Some(items) => items.map_values(|x: JsonValue| listed_pair(x)),
        None => Seq::empty(),
    }
}

/// The method with an exact (upper-case) name.
pub open spec fn method_of_name(s: Seq<char>) -> Option<HttpMethod> {
    if s == "GET"@ {
        Some(HttpMethod::GET)
    } else if s == "POST"@ {
        Some(HttpMethod::POST)
    } else if s == "PUT"@ {
        Some(HttpMethod::PUT)
    } else if s == "PATCH"@ {
        Some(HttpMethod::PATCH)
    } else if s == "DELETE"@ {
        Some(HttpMethod::DELETE)
    } else if s == "HEAD"@ {
        Some(HttpMethod::HEAD)
    } else if s == "OPTIONS"@ {
        Some(HttpMethod::OPTIONS)
    } else {
        None
    }
}

/// The raw content type with a name; text for any other name.
pub open spec fn content_type_named(s: Seq<char>) -> RawContentType {
    if s == "Json"@ {
        RawContentType::Json
    } else if s == "Xml"@ {
        RawContentType::Xml
    } else if s == "Html"@ {
        RawContentType::Html
    } else {
        RawContentType::Text
    }
}

/// What a `body` value gives: none when missing or `"None"`; another string is
/// raw text; an object is read by its `type` (`None`, `Raw` with `content` and
/// `content_type`, or `FormUrlEncoded` with `fields`); anything else is no body.
pub open spec fn body_outcome(b: Option<JsonValue>) -> Result<BodyView, Seq<char>> {
    match b {
        None => Ok(BodyView::NoBody),
        Some(JsonValue::Str(s)) => if s@ == "None"@ {
            Ok(BodyView::NoBody)
        } else {
            Ok(BodyView::Raw { content: s@, content_type: RawContentType::Text })
        },
        Some(JsonValue::Object(f)) => {
            let v = JsonValue::Object(f);
            match str_of(json_get(v, "type"@)) {
                None => Err("Body object missing 'type' field"@),
                Some(t) => if t == "None"@ {
                    Ok(BodyView::NoBody)
                } else if t == "Raw"@ {
                    Ok(
                        BodyView::Raw {
                            content: text_or(str_of(json_get(v, "content"@)), ""@),
                            content_type: content_type_named(text_or(str_of(json_get(v, "content_type"@)), "Text"@)),
                        },
                    )
                } else if t == "FormUrlEncoded"@ {
                    Ok(BodyView::Form(listed_pairs(json_get(v, "fields"@))))
                } else {
                    Err("Unknown body type: "@ + t)
                },
            }
        },
        Some(_) => Ok(BodyView::NoBody),
    }
}

/// What a request file gives: the request's parts, or the first problem.
pub open spec fn request_file_outcome(j: JsonValue) -> Result<
    (Seq<char>, HttpMethod, Seq<char>, Seq<PairView>, Seq<PairView>, BodyView),
    Seq<char>,
> {
    match str_of(json_get(j, "name"@)) {
        None => Err("Missing 'name' field"@),
        Some(name) => match str_of(json_get(j, "method"@)) {
            None => Err("Missing 'method' field"@),
            Some(m) => match method_of_name(m) {
                None => Err("Unknown HTTP method: "@ + m),
                Some(method) => match str_of(json_get(j, "url"@)) {
                    None => Err("Missing 'url' field"@),
                    Some(url) => match body_outcome(json_get(j, "body"@)) {
                        Err(e) => Err(e),
                        Ok(body) => Ok(
                            (
                                name,
                                method,
                                url,
                                listed_pairs(json_get(j, "headers"@)),
                                listed_pairs(json_get(j, "query_params"@)),
                                body,
                            ),
                        ),
                    },
                },
            },
        },
    }
}

/// The id a request file names, when it names a valid one.
pub open spec fn named_id(j: JsonValue) -> Option<u128> {
    match str_of(json_get(j, "id"@)) {
        Some(s) => uuid_parse(s),
        None => None,
    }
}

fn text_of<'a>(v: &'a JsonValue, key: &str) -> (r: Option<&'a str>)
    ensures
        match r {
            Some(s) => str_of(json_get(*v, key@)) == Some(s@),
            None => str_of(json_get(*v, key@)) is None,
        },
{
    match v.get(key) {
        Some(x) => x.as_str(),
        None => None,
    }
}

fn text_or_else(o: Option<&str>, d: &str) -> (r: String)
    ensures
        r@ == text_or(
            match o {
                Some(s) => Some(s@),
                None => None,
            },
            d@,
        ),
{
    match o {
        Some(s) => to_owned_string(s),
        None => to_owned_string(d),
    }
}

/// One listed pair.
fn listed_pair_of(v: &JsonValue) -> (r: KeyValuePair)
    ensures
        r@ == listed_pair(*v),
{
    let enabled = match v.get("enabled") {
        Some(e) => match e.as_bool() {
            Some(b) => b,
            None => true,
        },
        None => true,
    };
    KeyValuePair {
        key: text_or_else(text_of(v, "key"), ""),
        value: text_or_else(text_of(v, "value"), ""),
        enabled,
        description: match text_of(v, "description") {
            Some(d) => Some(to_owned_string(d)),
            None => None,
        },
    }
}

/// The pairs of a list.
fn listed_pairs_of(v: Option<&JsonValue>) -> (r: Vec<KeyValuePair>)
    ensures
        pairs_view(r@) == listed_pairs(
            match v {
                Some(x) => Some(*x),
                None => None,
            },
        ),
{
    let mut r: Vec<KeyValuePair> = Vec::new();
    let items = match v {
        Some(x) => match x.as_array() {
            Some(a) => a,
            None => {
                assert(pairs_view(r@) =~= Seq::<PairView>::empty());
                return r;
            },
        },
        None => {
            assert(pairs_view(r@) =~= Seq::<PairView>::empty());
            return r;
        },
    };
    let mut i: usize = 0;
    while i < items.len()
        invariant
            0 <= i <= items@.len(),
            pairs_view(r@) == items@.take(i as int).map_values(|x: JsonValue| listed_pair(x)),
        decreases items@.len() - i,
    {
        let p = listed_pair_of(&items[i]);
        let ghost prev = r@;
        let ghost pv = p@;
        r.push(p);
        proof {
            assert(pairs_view(r@) =~= pairs_view(prev).push(pv));
            assert(items@.take(i + 1).map_values(|x: JsonValue| listed_pair(x)) =~= items@.take(i as int).map_values(
                |x: JsonValue| listed_pair(x),
            ).push(listed_pair(items@[i as int])));
        }
        i = i + 1;
    }
    assert(items@.take(items@.len() as int) =~= items@);
    r
}

/// The body of a request file.
pub fn parse_body_type(body_value: Option<&JsonValue>) -> (r: Result<BodyType, String>)
    ensures
        match body_outcome(
            match body_value {
                Some(x) => Some(*x),
                None => None,
            },
        ) {
            Ok(b) => r matches Ok(body) && body@ == b,
            Err(e) => r matches Err(m) && m@ == e,
        },
{
    proof {
        reveal_strlit("None");
        reveal_strlit("Raw");
        reveal_strlit("FormUrlEncoded");
        reveal_strlit("Json");
        reveal_strlit("Xml");
        reveal_strlit("Html");
        reveal_strlit("Text");
        reveal_strlit("");
    }
    match body_value {
        None => Ok(BodyType::NoBody),
        Some(JsonValue::Str(s)) => {
            if str_equal(s.as_str(), "None") {
                Ok(BodyType::NoBody)
            } else {
                Ok(BodyType::Raw { content: s.clone(), content_type: RawContentType::Text })
            }
        },
        Some(JsonValue::Object(_)) => {
            let v = body_value.unwrap();
            match text_of(v, "type") {
                None => Err(to_owned_string("Body object missing 'type' field")),
                Some(t) => {
                    if str_equal(t, "None") {
                        Ok(BodyType::NoBody)
                    } else if str_equal(t, "Raw") {
                        let content = text_or_else(text_of(v, "content"), "");
                        let ct = text_or_else(text_of(v, "content_type"), "Text");
                        let content_type = if str_equal(ct.as_str(), "Json") {
                            RawContentType::Json
                        } else if str_equal(ct.as_str(), "Xml") {
                            RawContentType::Xml
                        } else if str_equal(ct.as_str(), "Html") {
                            RawContentType::Html
                        } else {
                            RawContentType::Text
                        };
                        Ok(BodyType::Raw { content, content_type })
                    } else if str_equal(t, "FormUrlEncoded") {
                        Ok(BodyType::FormUrlEncoded(listed_pairs_of(v.get("fields"))))
                    } else {
                        let mut m = to_owned_string("Unknown body type: ");
                        push_str(&mut m, t);
                        Err(m)
                    }
                },
            }
        },
        Some(_) => Ok(BodyType::NoBody),
    }
}

/// A request from a request file: the `id` it names (a fresh one when it names
/// none or an invalid one), its `name`, `method` (an exact upper-case name),
/// `url`, `headers`, `query_params` and `body`, created and updated now. The first
/// problem is reported instead.
pub fn parse_request_definition(json: &JsonValue) -> (r: Result<RequestDefinition, String>)
    ensures
        match request_file_outcome(*json) {
            Ok((name, method, url, headers, query_params, body)) => r matches Ok(req) && req@ == (RequestView {
                id: req@.id,
                name,
                method,
                url,
                headers,
                query_params,
                body,
                created_at: req@.created_at,
                updated_at: req@.created_at,
            }) && (match named_id(*json) {
                Some(id) => req@.id == id,
                None => is_v4_uuid(req@.id),
            }),
            Err(e) => r matches Err(m) && m@ == e,
        },
{
    proof {
        reveal_strlit("GET");
        reveal_strlit("POST");
        reveal_strlit("PUT");
        reveal_strlit("PATCH");
        reveal_strlit("DELETE");
        reveal_strlit("HEAD");
        reveal_strlit("OPTIONS");
    }
    let id = match text_of(json, "id") {
        Some(s) => match parse_id(s) {
            Some(u) => u,
            None => new_id(),
        },
        None => new_id(),
    };
    let name = match text_of(json, "name") {
        Some(n) => to_owned_string(n),
        None => {
            return Err(to_owned_string("Missing 'name' field"));
        },
    };
    let method_str = match text_of(json, "method") {
        Some(m) => m,
        None => {
            return Err(to_owned_string("Missing 'method' field"));
        },
    };
    let method = if str_equal(method_str, "GET") {
        HttpMethod::GET
    } else if str_equal(method_str, "POST") {
        HttpMethod::POST
    } else if str_equal(method_str, "PUT") {
        HttpMethod::PUT
    } else if str_equal(method_str, "PATCH") {
        HttpMethod::PATCH
    } else if str_equal(method_str, "DELETE") {
        HttpMethod::DELETE
    } else if str_equal(method_str, "HEAD") {
        HttpMethod::HEAD
    } else if str_equal(method_str, "OPTIONS") {
        HttpMethod::OPTIONS
    } else {
        let mut m = to_owned_string("Unknown HTTP method: ");
        push_str(&mut m, method_str);
        return Err(m);
    };
    let url = match text_of(json, "url") {
        Some(u) => to_owned_string(u),
        None => {
            return Err(to_owned_string("Missing 'url' field"));
        },
    };
    let headers = listed_pairs_of(json.get("headers"));
    let query_params = listed_pairs_of(json.get("query_params"));
    let body = parse_body_type(json.get("body"))?;
    let t = now();
    Ok(RequestDefinition { id, name, method, url, headers, query_params, body, created_at: t, updated_at: t })
}

/// Reads a request file's JSON text: `Failed to parse JSON: ` and the parser's
/// message when the text is not JSON, otherwise what `parse_request_definition`
/// gives for the parsed document.
pub fn parse_request_text(text: &str) -> (r: Result<RequestDefinition, String>)
    ensures
        match json_error(text@) {
            Some(m) => r matches Err(e) && e@ == "Failed to parse JSON: "@ + m,
            None => exists|v: JsonValue|
                #[trigger] json_view(v) == json_parse(text@) && match request_file_outcome(v) {
                    Ok((name, method, url, headers, query_params, body)) => r matches Ok(req) && req@ == (RequestView {
                        id: req@.id,
                        name,
                        method,
                        url,
                        headers,
                        query_params,
                        body,
                        created_at: req@.created_at,
                        updated_at: req@.created_at,
                    }) && (match named_id(v) {
                        Some(id) => req@.id == id,
                        None => is_v4_uuid(req@.id),
                    }),
                    Err(e) => r matches Err(m) && m@ == e,
                },
        },
{
    match parse_json_text(text) {
        Ok(v) => parse_request_definition(&v),
        Err(m) => {
            let mut msg = to_owned_string("Failed to parse JSON: ");
            push_str(&mut msg, m.as_str());
            Err(msg)
        },
    }
}

} // verus!
