//! Import of Postman v2.1 collections.
use vstd::prelude::*;
use crate::collection::{Collection, CollectionView, ItemView, insert_into_item, insert_into_seq, tree_after_add};
use crate::import_export::{ImportError, ImportErrorKind, ImportErrorView, collection_problem, lemma_request_refs_valid};
use crate::json_value::{
    JsonValue, json_get, opt_get, str_of, bool_of, array_of, text_or, lemma_get_decreases,
};
use crate::models::{HttpMethod, KeyValuePair, PairView, pairs_view, BodyType, BodyView, RawContentType, RequestDefinition, RequestView};
use crate::text::{blank, to_owned_string, push_str, str_equal, seq_join, views, join, uppercase, to_uppercase};
use crate::ids::new_id;
use crate::json::{parse_json_text, json_parse};
use crate::json_value::json_view;
use crate::validation::json_error;

verus! {

/// What an imported request holds, apart from its id and times.
pub struct RequestShape {
    pub name: Seq<char>,
    pub method: HttpMethod,
    pub url: Seq<char>,
    pub headers: Seq<PairView>,
    pub query_params: Seq<PairView>,
    pub body: BodyView,
}

/// Whether a request holds what the shape says.
pub open spec fn has_shape(r: RequestView, s: RequestShape) -> bool {
    &&& r.name == s.name
    &&& r.method == s.method
    &&& r.url == s.url
    &&& r.headers == s.headers
    &&& r.query_params == s.query_params
    &&& r.body == s.body
}

/// An import error of the kind with the message.
pub open spec fn import_err(kind: ImportErrorKind, message: Seq<char>) -> ImportErrorView {
    ImportErrorView { kind, message }
}

/// The method with an upper-case name.
pub open spec fn method_named(u: Seq<char>) -> Option<HttpMethod> {
    if u == "GET"@ {
        Some(HttpMethod::GET)
    } else if u == "POST"@ {
        Some(HttpMethod::POST)
    } else if u == "PUT"@ {
        Some(HttpMethod::PUT)
    } else if u == "PATCH"@ {
        Some(HttpMethod::PATCH)
    } else if u == "DELETE"@ {
        Some(HttpMethod::DELETE)
    } else if u == "HEAD"@ {
        Some(HttpMethod::HEAD)
    } else if u == "OPTIONS"@ {
        Some(HttpMethod::OPTIONS)
    } else {
        None
    }
}

/// The pair a Postman key–value object stands for: an object with a non-empty
/// `key` (and, for form data, no `type` of `"file"`); its `value` (empty when
/// missing), enabled unless `disabled` is true, and its `description`.
pub open spec fn entry_pair(v: JsonValue, skip_files: bool) -> Option<PairView> {
    if v is Object {
        let key = text_or(str_of(json_get(v, "key"@)), ""@);
        let value = text_or(str_of(json_get(v, "value"@)), ""@);
        let enabled = match bool_of(json_get(v, "disabled"@)) {
            Some(d) => !d,
            None => true,
        };
        let description = str_of(json_get(v, "description"@));
        if key.len() > 0 && !(skip_files && str_of(json_get(v, "type"@)) == Some("file"@)) {
            Some(PairView { key, value, enabled, description })
        } else {
            None
        }
    } else {
        None
    }
}

/// The pairs of a list of Postman key–value objects, in order.
pub open spec fn entry_pairs(items: Seq<JsonValue>, skip_files: bool) -> Seq<PairView>
    decreases items.len(),
{
    if items.len() == 0 {
        Seq::empty()
    } else {
        let rest = entry_pairs(items.drop_last(), skip_files);
        match entry_pair(items.last(), skip_files) {
            Some(p) => rest.push(p),
            None => rest,
        }
    }
}

/// The pairs of a value that should be an array of key–value objects (none
/// otherwise).
pub open spec fn pairs_from(v: Option<JsonValue>, skip_files: bool) -> Seq<PairView> {
    match array_of(v) {
        Some(items) => entry_pairs(items, skip_files),
        None => Seq::empty(),
    }
}

/// The content type of a raw body, from `options.raw.language`.
pub open spec fn raw_language(body: JsonValue) -> RawContentType {
    match str_of(opt_get(opt_get(json_get(body, "options"@), "raw"@), "language"@)) {
        Some(l) => if l == "json"@ {
            RawContentType::Json
        } else if l == "xml"@ {
            RawContentType::Xml
        } else if l == "html"@ {
            RawContentType::Html
        } else {
            RawContentType::Text
        },
        None => RawContentType::Text,
    }
}

/// The body a Postman body object stands for, by its mode.
pub open spec fn postman_body(body: JsonValue, mode: Option<Seq<char>>) -> BodyView {
    if mode == Some("raw"@) {
        BodyView::Raw { content: text_or(str_of(json_get(body, "raw"@)), ""@), content_type: raw_language(body) }
    } else if mode == Some("urlencoded"@) {
        BodyView::Form(pairs_from(json_get(body, "urlencoded"@), false))
    } else if mode == Some("formdata"@) {
        BodyView::Form(pairs_from(json_get(body, "formdata"@), true))
    } else {
        BodyView::NoBody
    }
}

/// The strings among a list of values, in order.
pub open spec fn strings_in(a: Seq<JsonValue>) -> Seq<Seq<char>>
    decreases a.len(),
{
    if a.len() == 0 {
        Seq::empty()
    } else {
        let rest = strings_in(a.drop_last());
        match str_of(Some(a.last())) {
            Some(s) => rest.push(s),
            None => rest,
        }
    }
}

/// The URL of a Postman URL value: a string as it is; for an object its `raw`
/// text, or else `protocol://host/path` built from its parts (`https`,
/// `localhost` and no path when they are missing); empty otherwise.
pub open spec fn postman_url(u: Option<JsonValue>) -> Seq<char> {
    match u {
        None => ""@,
        Some(JsonValue::Str(s)) => s@,
        Some(JsonValue::Object(f)) => {
            let v = JsonValue::Object(f);
            match str_of(json_get(v, "raw"@)) {
                Some(raw) => raw,
                None => {
                    let protocol = text_or(str_of(json_get(v, "protocol"@)), "https"@);
                    let host = match array_of(json_get(v, "host"@)) {
                        Some(a) => seq_join(strings_in(a), "."@),
                        None => "localhost"@,
                    };
                    let path = match array_of(json_get(v, "path"@)) {
                        Some(a) => if strings_in(a).len() == 0 {
                            ""@
                        } else {
                            "/"@ + seq_join(strings_in(a), "/"@)
                        },
                        None => ""@,
                    };
                    protocol + "://"@ + host + path
                },
            }
        },
        Some(_) => ""@,
    }
}

/// What a Postman request item gives: its shape, or the error for a missing
/// `request` or an unknown method.
pub open spec fn request_outcome(item: JsonValue) -> Result<RequestShape, ImportErrorView> {
    let name = text_or(str_of(json_get(item, "name"@)), "Unnamed Request"@);
    match json_get(item, "request"@) {
        None => Err(import_err(ImportErrorKind::PostmanFormat, "Missing 'request' field in Postman item"@)),
        Some(rq) => if rq is Str {
            Ok(
                RequestShape {
                    name,
                    method: HttpMethod::GET,
                    url: ""@,
                    headers: Seq::empty(),
                    query_params: Seq::empty(),
                    body: BodyView::NoBody,
                },
            )
        } else {
            let m = text_or(str_of(json_get(rq, "method"@)), "GET"@);
            match method_named(uppercase(m)) {
                None => Err(import_err(ImportErrorKind::Validation, "Unknown HTTP method: "@ + m)),
                Some(method) => Ok(
                    RequestShape {
                        name,
                        method,
                        url: postman_url(json_get(rq, "url"@)),
                        headers: pairs_from(json_get(rq, "header"@), false),
                        query_params: pairs_from(opt_get(json_get(rq, "url"@), "query"@), false),
                        body: match json_get(rq, "body"@) {
                            Some(b) => postman_body(b, str_of(json_get(b, "mode"@))),
                            None => BodyView::NoBody,
                        },
                    },
                ),
            }
        },
    }
}

/// Two outcomes one after the other: the first error, or both lists joined.
pub open spec fn then_outcome(
    a: Result<Seq<(RequestShape, bool)>, ImportErrorView>,
    b: Result<Seq<(RequestShape, bool)>, ImportErrorView>,
) -> Result<Seq<(RequestShape, bool)>, ImportErrorView> {
    match a {
        Err(e) => Err(e),
        Ok(x) => match b {
            Err(e) => Err(e),
            Ok(y) => Ok(x + y),
        },
    }
}

/// What a Postman item gives, depth-first: the requests it holds, each flagged
/// with whether it sits at the top level, or the first error. An item with a
/// `request` is a request; one with an `item` is a folder, whose `item` must be an
/// array; anything else gives nothing.
pub open spec fn item_outcome(item: JsonValue, top: bool) -> Result<Seq<(RequestShape, bool)>, ImportErrorView>
    decreases item, 0nat,
{
    if json_get(item, "request"@) is Some {
        match request_outcome(item) {
            Ok(s) => Ok(seq![(s, top)]),
            Err(e) => Err(e),
        }
    } else if json_get(item, "item"@) is Some {
        match json_get(item, "item"@) {
            Some(JsonValue::Array(children)) => {
                proof {
                    lemma_get_decreases(item, "item"@);
                    assert(decreases_to!(JsonValue::Array(children) => children));
                    assert(decreases_to!(children => children@));
                }
                items_outcome(children@, false)
            },
            _ => Err(import_err(ImportErrorKind::PostmanFormat, "Invalid 'item' field in Postman folder"@)),
        }
    } else {
        Ok(Seq::empty())
    }
}

/// What a list of Postman items gives, in order.
pub open spec fn items_outcome(items: Seq<JsonValue>, top: bool) -> Result<Seq<(RequestShape, bool)>, ImportErrorView>
    decreases items, items.len(),
{
    if items.len() == 0 {
        Ok(Seq::empty())
    } else {
        then_outcome(item_outcome(items[0], top), items_outcome(items.drop_first(), top))
    }
}

/// What a Postman document gives: the collection's name and its requests, or the
/// first error.
pub open spec fn postman_outcome(p: JsonValue) -> Result<(Seq<char>, Seq<(RequestShape, bool)>), ImportErrorView> {
    match json_get(p, "info"@) {
        None => Err(import_err(ImportErrorKind::PostmanFormat, "Missing 'info' field in Postman collection"@)),
        Some(info) => match str_of(json_get(info, "name"@)) {
            None => Err(import_err(ImportErrorKind::PostmanFormat, "Missing 'name' field in Postman collection info"@)),
            Some(name) => match array_of(json_get(p, "item"@)) {
                None => Err(import_err(ImportErrorKind::PostmanFormat, "Missing 'item' field in Postman collection"@)),
                Some(items) => match items_outcome(items, true) {
                    Err(e) => Err(e),
                    Ok(shapes) => Ok((name, shapes)),
                },
            },
        },
    }
}

/// The requests of a list, keyed by id; a later one wins.
pub open spec fn requests_by_id(rs: Seq<RequestView>) -> Map<u128, RequestView>
    decreases rs.len(),
{
    if rs.len() == 0 {
        Map::empty()
    } else {
        requests_by_id(rs.drop_last()).insert(rs.last().id, rs.last())
    }
}

/// The tree references of the top-level requests, in order.
pub open spec fn top_level_refs(rs: Seq<RequestView>, top: Seq<bool>) -> Seq<ItemView>
    decreases rs.len(),
{
    if rs.len() == 0 || rs.len() != top.len() {
        Seq::empty()
    } else {
        let rest = top_level_refs(rs.drop_last(), top.drop_last());
        if top.last() {
            rest.push(ItemView::Request(rs.last().id))
        } else {
            rest
        }
    }
}

/// The top-level flags of a list of shapes.
pub open spec fn top_flags(shapes: Seq<(RequestShape, bool)>) -> Seq<bool> {
    shapes.map_values(|s: (RequestShape, bool)| s.1)
}

/// Whether a collection is what a Postman document describes: the name, the
/// requests (with fresh ids) keyed by id, and references to the top-level ones in
/// the tree. Requests inside folders are stored but not placed in the tree.
pub open spec fn imported_as(c: CollectionView, name: Seq<char>, shapes: Seq<(RequestShape, bool)>) -> bool {
    exists|rs: Seq<RequestView>|
        {
            &&& rs.len() == shapes.len()
            &&& forall|k: int| 0 <= k < rs.len() ==> has_shape(#[trigger] rs[k], shapes[k].0)
            &&& c.name == name
            &&& c.requests == requests_by_id(rs)
            &&& c.tree == top_level_refs(rs, top_flags(shapes))
        }
}

proof fn lemma_items_outcome_push(s: Seq<JsonValue>, x: JsonValue, top: bool)
    ensures
        items_outcome(s.push(x), top) == then_outcome(items_outcome(s, top), item_outcome(x, top)),
    decreases s.len(),
{
    if s.len() == 0 {
        assert(s.push(x).drop_first() =~= Seq::<JsonValue>::empty());
        assert(items_outcome(Seq::<JsonValue>::empty(), top) == Ok::<Seq<(RequestShape, bool)>, ImportErrorView>(Seq::empty()));
        match item_outcome(x, top) {
            Ok(b) => {
                assert(Seq::<(RequestShape, bool)>::empty() + b =~= b);
                assert(b + Seq::<(RequestShape, bool)>::empty() =~= b);
            },
            Err(_) => {},
        }
    } else {
        assert(s.push(x).drop_first() =~= s.drop_first().push(x));
        assert(s.push(x)[0] == s[0]);
        lemma_items_outcome_push(s.drop_first(), x, top);
        match item_outcome(s[0], top) {
            Ok(a) => match items_outcome(s.drop_first(), top) {
                Ok(b) => match item_outcome(x, top) {
                    Ok(c) => {
                        assert(a + (b + c) =~= (a + b) + c);
                    },
                    Err(_) => {},
                },
                Err(_) => {},
            },
            Err(_) => {},
        }
    }
}

proof fn lemma_items_outcome_err_prefix(s: Seq<JsonValue>, k: int, top: bool)
    requires
        0 <= k <= s.len(),
        items_outcome(s.take(k), top) is Err,
    ensures
        items_outcome(s, top) == items_outcome(s.take(k), top),
    decreases s.len() - k,
{
    if k < s.len() {
        assert(s.take(k + 1) =~= s.take(k).push(s[k]));
        lemma_items_outcome_push(s.take(k), s[k], top);
        lemma_items_outcome_err_prefix(s, k + 1, top);
    } else {
        assert(s.take(k) =~= s);
    }
}

/// `str_of(json_get(v, key))` as a borrowed text.
pub(crate) fn text_field<'a>(v: &'a JsonValue, key: &str) -> (r: Option<&'a str>)
    ensures
        match r {
            Some(s) => str_of(json_get(*v, key@)) == Some(s@),
            None => str_of(json_get(*v, key@)) is None,
        },
{
    match v.get(key) {
        Some(x) => x.as_str(),
        None => None,
    }
}

/// A text, or a default.
pub(crate) fn text_or_default(o: Option<&str>, d: &str) -> (r: String)
    ensures
        r@ == text_or(
            match o {
                Some(s) => Some(s@),
                None => None,
            },
            d@,
        ),
{
    match o {
        Some(s) => to_owned_string(s),
        None => to_owned_string(d),
    }
}

/// The pair of one Postman key–value object.
fn entry_pair_of(v: &JsonValue, skip_files: bool) -> (r: Option<KeyValuePair>)
    ensures
        match entry_pair(*v, skip_files) {
            Some(p) => r matches Some(kv) && kv@ == p,
            None => r is None,
        },
{
    match v {
        JsonValue::Object(_) => {
            let key = text_or_default(text_field(v, "key"), "");
            let value = text_or_default(text_field(v, "value"), "");
            let enabled = match v.get("disabled") {
                Some(d) => match d.as_bool() {
                    Some(b) => !b,
                    None => true,
                },
                None => true,
            };
            let description = match text_field(v, "description") {
                Some(s) => Some(to_owned_string(s)),
                None => None,
            };
            let is_file = match text_field(v, "type") {
                Some(t) => str_equal(t, "file"),
                None => false,
            };
            proof {
                reveal_strlit("");
            }
            if !key.as_str().is_empty() && !(skip_files && is_file) {
                Some(KeyValuePair { key, value, enabled, description })
            } else {
                None
            }
        },
        _ => None,
    }
}

/// The pairs of a value that should be an array of key–value objects.
fn pairs_of(v: Option<&JsonValue>, skip_files: bool) -> (r: Vec<KeyValuePair>)
    ensures
        pairs_view(r@) == pairs_from(
            match v {
                Some(x) => Some(*x),
                None => None,
            },
            skip_files,
        ),
{
    let mut r: Vec<KeyValuePair> = Vec::new();
    let items = match v {
        Some(x) => match x.as_array() {
            Some(a) => a,
            None => {
                return r;
            },
        },
        None => {
            return r;
        },
    };
    let mut i: usize = 0;
    while i < items.len()
        invariant
            0 <= i <= items@.len(),
            pairs_view(r@) == entry_pairs(items@.take(i as int), skip_files),
        decreases items@.len() - i,
    {
        proof {
            assert(items@.take(i + 1).drop_last() =~= items@.take(i as int));
            assert(items@.take(i + 1).last() == items@[i as int]);
        }
        match entry_pair_of(&items[i], skip_files) {
            Some(p) => {
                let ghost prev = r@;
                let ghost pv = p@;
                r.push(p);
                assert(pairs_view(r@) =~= pairs_view(prev).push(pv));
            },
            None => {},
        }
        i = i + 1;
    }
    assert(items@.take(items@.len() as int) =~= items@);
    assert(pairs_view(r@) == entry_pairs(items@, skip_files));
    r
}

/// The body of a Postman body object, by its mode.
fn body_of(body: &JsonValue, mode: Option<&str>) -> (r: BodyType)
    ensures
        r@ == postman_body(
            *body,
            match mode {
                Some(m) => Some(m@),
                None => None,
            },
        ),
{
    proof {
        reveal_strlit("raw");
        reveal_strlit("urlencoded");
        reveal_strlit("formdata");
    }
    let m = match mode {
        Some(m) => m,
        None => {
            return BodyType::NoBody;
        },
    };
    if str_equal(m, "raw") {
        let content = text_or_default(text_field(body, "raw"), "");
        let lang = match body.get("options") {
            Some(o) => match o.get("raw") {
                Some(r) => text_field(r, "language"),
                None => None,
            },
            None => None,
        };
        let content_type = match lang {
            Some(l) => if str_equal(l, "json") {
                RawContentType::Json
            } else if str_equal(l, "xml") {
                RawContentType::Xml
            } else if str_equal(l, "html") {
                RawContentType::Html
            } else {
                RawContentType::Text
            },
            None => RawContentType::Text,
        };
        BodyType::Raw { content, content_type }
    } else if str_equal(m, "urlencoded") {
        BodyType::FormUrlEncoded(pairs_of(body.get("urlencoded"), false))
    } else if str_equal(m, "formdata") {
        BodyType::FormUrlEncoded(pairs_of(body.get("formdata"), true))
    } else {
        BodyType::NoBody
    }
}

/// The strings among a list of values, copied.
fn strings_of(a: &Vec<JsonValue>) -> (r: Vec<String>)
    ensures
        views(r@) == strings_in(a@),
{
    let mut r: Vec<String> = Vec::new();
    let mut i: usize = 0;
    while i < a.len()
        invariant
            0 <= i <= a@.len(),
            views(r@) == strings_in(a@.take(i as int)),
        decreases a@.len() - i,
    {
        proof {
            assert(a@.take(i + 1).drop_last() =~= a@.take(i as int));
            assert(a@.take(i + 1).last() == a@[i as int]);
        }
        match a[i].as_str() {
            Some(s) => {
                let ghost prev = r@;
                r.push(to_owned_string(s));
                assert(views(r@) =~= views(prev).push(s@));
            },
            None => {},
        }
        i = i + 1;
    }
    assert(a@.take(a@.len() as int) =~= a@);
    r
}

/// The URL of a Postman URL value (which is never refused).
fn parse_postman_url(url_value: Option<&JsonValue>) -> (r: Result<String, ImportError>)
    ensures
        r matches Ok(s) && s@ == postman_url(
            match url_value {
                Some(x) => Some(*x),
                None => None,
            },
        ),
{
    proof {
        reveal_strlit("");
    }
    match url_value {
        None => Ok(String::new()),
        Some(JsonValue::Str(s)) => Ok(s.clone()),
        Some(JsonValue::Object(_)) => {
            let v = url_value.unwrap();
            if let Some(raw) = text_field(v, "raw") {
                return Ok(to_owned_string(raw));
            }
            let mut url = text_or_default(text_field(v, "protocol"), "https");
            push_str(&mut url, "://");
            match v.get("host") {
                Some(h) => match h.as_array() {
                    Some(a) => {
                        let parts = strings_of(a);
                        let joined = join(&parts, ".");
                        push_str(&mut url, joined.as_str());
                    },
                    None => push_str(&mut url, "localhost"),
                },
                None => push_str(&mut url, "localhost"),
            }
            match v.get("path") {
                Some(p) => match p.as_array() {
                    Some(a) => {
                        let parts = strings_of(a);
                        if parts.len() > 0 {
                            push_str(&mut url, "/");
                            let joined = join(&parts, "/");
                            push_str(&mut url, joined.as_str());
                        }
                    },
                    None => {},
                },
                None => {},
            }
            Ok(url)
        },
        Some(_) => Ok(String::new()),
    }
}

/// The method named by a text, in any case; an unknown method is a validation
/// error.
pub(crate) fn parse_http_method(method: &str) -> (r: Result<HttpMethod, ImportError>)
    ensures
        match method_named(uppercase(method@)) {
            Some(m) => r == Ok::<HttpMethod, ImportError>(m),
            None => r matches Err(e) && e@ == import_err(ImportErrorKind::Validation, "Unknown HTTP method: "@ + method@),
        },
{
    let u = to_uppercase(method);
    let s = u.as_str();
    if str_equal(s, "GET") {
        Ok(HttpMethod::GET)
    } else if str_equal(s, "POST") {
        Ok(HttpMethod::POST)
    } else if str_equal(s, "PUT") {
        Ok(HttpMethod::PUT)
    } else if str_equal(s, "PATCH") {
        Ok(HttpMethod::PATCH)
    } else if str_equal(s, "DELETE") {
        Ok(HttpMethod::DELETE)
    } else if str_equal(s, "HEAD") {
        Ok(HttpMethod::HEAD)
    } else if str_equal(s, "OPTIONS") {
        Ok(HttpMethod::OPTIONS)
    } else {
        let mut m = to_owned_string("Unknown HTTP method: ");
        push_str(&mut m, method);
        Err(ImportError::new(ImportErrorKind::Validation, m.as_str()))
    }
}

/// A request from a Postman request item, with a fresh id, created now.
fn parse_postman_request(item: &JsonValue) -> (r: Result<RequestDefinition, ImportError>)
    ensures
        match request_outcome(*item) {
            Ok(s) => r matches Ok(req) && has_shape(req@, s),
            Err(e) => r matches Err(x) && x@ == e,
        },
{
    let name = text_or_default(text_field(item, "name"), "Unnamed Request");
    let request_value = match item.get("request") {
        Some(rv) => rv,
        None => {
            return Err(ImportError::new(ImportErrorKind::PostmanFormat, "Missing 'request' field in Postman item"));
        },
    };
    if request_value.is_string() {
        let r = RequestDefinition::new(name.as_str(), HttpMethod::GET, "");
        proof {
            reveal_strlit("");
            assert(r@.headers =~= Seq::<PairView>::empty());
            assert(r@.query_params =~= Seq::<PairView>::empty());
        }
        return Ok(r);
    }
    let method_str = text_or_default(text_field(request_value, "method"), "GET");
    let method = parse_http_method(method_str.as_str())?;
    let url = parse_postman_url(request_value.get("url"))?;
    let headers = pairs_of(request_value.get("header"), false);
    let query_params = match request_value.get("url") {
        Some(u) => pairs_of(u.get("query"), false),
        None => Vec::new(),
    };
    proof {
        if json_get(*request_value, "url"@) is None {
            assert(pairs_view(query_params@) =~= Seq::<PairView>::empty());
        }
    }
    let body = match request_value.get("body") {
        Some(b) => body_of(b, text_field(b, "mode")),
        None => BodyType::NoBody,
    };
    Ok(RequestDefinition {
        id: new_id(),
        name,
        method,
        url,
        headers,
        query_params,
        body,
        created_at: crate::ids::now(),
        updated_at: crate::ids::now(),
    })
}

/// The requests collected so far, from position `start`, match the shapes.
pub open spec fn collected_as(
    collected: Seq<(RequestDefinition, Option<u128>)>,
    start: int,
    shapes: Seq<(RequestShape, bool)>,
) -> bool {
    &&& collected.len() == start + shapes.len()
    &&& forall|k: int|
        0 <= k < shapes.len() ==> has_shape((#[trigger] collected[start + k]).0@, shapes[k].0) && (
        collected[start + k].1 is None <==> shapes[k].1)
}

/// Collects the requests of a Postman item, depth-first, each with the folder it
/// sits in (none at the top level; a fresh id for each folder). Returns the
/// folder's id for a folder.
fn process_postman_item(
    item: &JsonValue,
    requests: &mut Vec<(RequestDefinition, Option<u128>)>,
    parent_folder_id: Option<u128>,
) -> (r: Result<Option<u128>, ImportError>)
    ensures
        match item_outcome(*item, parent_folder_id is None) {
            Ok(shapes) => r is Ok && final(requests)@.take(old(requests)@.len() as int) == old(requests)@
                && collected_as(final(requests)@, old(requests)@.len() as int, shapes),
            Err(e) => r matches Err(x) && x@ == e,
        },
    decreases *item,
{
    let ghost top = parent_folder_id is None;
    let ghost start = requests@;
    if item.get("request").is_some() {
        let request = parse_postman_request(item)?;
        requests.push((request, parent_folder_id));
        proof {
            let shapes = item_outcome(*item, top)->Ok_0;
            assert(requests@.take(start.len() as int) =~= start);
            assert(requests@[start.len() as int + 0] == requests@[start.len() as int]);
        }
        Ok(None)
    } else if item.get("item").is_some() {
        let folder_id = Some(new_id());
        let children = match item.get("item") {
            Some(c) => match c.as_array() {
                Some(a) => a,
                None => {
                    return Err(ImportError::new(ImportErrorKind::PostmanFormat, "Invalid 'item' field in Postman folder"));
                },
            },
            None => {
                return Err(ImportError::new(ImportErrorKind::PostmanFormat, "Invalid 'item' field in Postman folder"));
            },
        };
        proof {
            lemma_get_decreases(*item, "item"@);
            assert(decreases_to!(JsonValue::Array(*children) => *children));
            assert(decreases_to!(*children => children@));
        }
        let mut i: usize = 0;
        assert(children@.take(0) =~= Seq::<JsonValue>::empty());
        assert(requests@.take(start.len() as int) =~= start);
        assert(item_outcome(*item, top) == items_outcome(children@, false));
        while i < children.len()
            invariant
                0 <= i <= children@.len(),
                item_outcome(*item, top) == items_outcome(children@, false),
                decreases_to!(*item => children@),
                folder_id is Some,
                requests@.take(start.len() as int) == start,
                items_outcome(children@.take(i as int), false) is Ok,
                collected_as(requests@, start.len() as int, items_outcome(children@.take(i as int), false)->Ok_0),
            decreases children@.len() - i,
        {
            proof {
                assert(decreases_to!(children@ => children@[i as int]));
                assert(children@.take(i + 1) =~= children@.take(i as int).push(children@[i as int]));
                lemma_items_outcome_push(children@.take(i as int), children@[i as int], false);
            }
            let ghost before = requests@;
            let ghost done = items_outcome(children@.take(i as int), false)->Ok_0;
            let step = process_postman_item(&children[i], requests, folder_id);
            if step.is_err() {
                proof {
                    lemma_items_outcome_err_prefix(children@, i + 1, false);
                }
                return match step {
                    Err(e) => Err(e),
                    Ok(_) => Ok(None),
                };
            }
            proof {
                let more = item_outcome(children@[i as int], false)->Ok_0;
                let all = items_outcome(children@.take(i + 1), false)->Ok_0;
                assert(all == done + more);
                assert(requests@.take(before.len() as int) == before);
                assert(requests@.take(start.len() as int) =~= before.take(start.len() as int));
                assert forall|k: int| 0 <= k < all.len() implies has_shape(
                    (#[trigger] requests@[start.len() + k]).0@,
                    all[k].0,
                ) && (requests@[start.len() + k].1 is None <==> all[k].1) by {
                    if k < done.len() {
                        assert(requests@[start.len() + k] == before[start.len() + k]);
                        assert(all[k] == done[k]);
                    } else {
                        let k2 = k - done.len();
                        assert(all[k] == more[k2]);
                        assert(start.len() + k == before.len() + k2);
                    }
                }
            }
            i = i + 1;
        }
        assert(children@.take(children@.len() as int) =~= children@);
        Ok(folder_id)
    } else {
        assert(requests@.take(start.len() as int) =~= start);
        Ok(None)
    }
}

proof fn lemma_tree_without_folders(items: Seq<ItemView>, fid: u128, new: ItemView)
    requires
        forall|k: int| 0 <= k < items.len() ==> (#[trigger] items[k]) is Request,
    ensures
        insert_into_seq(items, fid, new) == (items, false),
    decreases items.len(),
{
    if items.len() > 0 {
        let t = items.drop_first();
        assert forall|k: int| 0 <= k < t.len() implies (#[trigger] t[k]) is Request by {
            assert(t[k] == items[k + 1]);
        }
        lemma_tree_without_folders(t, fid, new);
        assert(items[0] is Request);
        assert(insert_into_item(items[0], fid, new) == (items[0], false));
        assert(insert_into_seq(t, fid, new) == (t, false));
    }
}

/// A collection from a Postman v2.1 document: named by `info.name`, holding every
/// request of `item` depth-first with fresh ids, with the top-level requests
/// referenced in its tree. The document's first problem is reported instead.
pub fn parse_postman_collection(postman: &JsonValue) -> (r: Result<Collection, ImportError>)
    ensures
        match postman_outcome(*postman) {
            Ok((name, shapes)) => r matches Ok(c) && imported_as(c@, name, shapes),
            Err(e) => r matches Err(x) && x@ == e,
        },
{
    let info = match postman.get("info") {
        Some(i) => i,
        None => {
            return Err(ImportError::new(ImportErrorKind::PostmanFormat, "Missing 'info' field in Postman collection"));
        },
    };
    let name = match text_field(info, "name") {
        Some(n) => n,
        None => {
            return Err(
                ImportError::new(ImportErrorKind::PostmanFormat, "Missing 'name' field in Postman collection info"),
            );
        },
    };
    let mut collection = Collection::new(name);
    let items = match postman.get("item") {
        Some(v) => match v.as_array() {
            Some(a) => a,
            None => {
                return Err(ImportError::new(ImportErrorKind::PostmanFormat, "Missing 'item' field in Postman collection"));
            },
        },
        None => {
            return Err(ImportError::new(ImportErrorKind::PostmanFormat, "Missing 'item' field in Postman collection"));
        },
    };
    let mut requests: Vec<(RequestDefinition, Option<u128>)> = Vec::new();
    let mut i: usize = 0;
    assert(items@.take(0) =~= Seq::<JsonValue>::empty());
    let ghost name_text = name@;
    assert(postman_outcome(*postman) == match items_outcome(items@, true) {
        Err(e) => Err(e),
        Ok(shapes) => Ok((name_text, shapes)),
    });
    while i < items.len()
        invariant
            0 <= i <= items@.len(),
            postman_outcome(*postman) == match items_outcome(items@, true) {
                Err(e) => Err(e),
                Ok(shapes) => Ok((name_text, shapes)),
            },
            items_outcome(items@.take(i as int), true) is Ok,
            collected_as(requests@, 0, items_outcome(items@.take(i as int), true)->Ok_0),
        decreases items@.len() - i,
    {
        proof {
            assert(items@.take(i + 1) =~= items@.take(i as int).push(items@[i as int]));
            lemma_items_outcome_push(items@.take(i as int), items@[i as int], true);
        }
        let ghost before = requests@;
        let ghost done = items_outcome(items@.take(i as int), true)->Ok_0;
        let step = process_postman_item(&items[i], &mut requests, None);
        if step.is_err() {
            proof {
                lemma_items_outcome_err_prefix(items@, i + 1, true);
            }
            return match step {
                Err(e) => Err(e),
                Ok(_) => Err(ImportError::new(ImportErrorKind::PostmanFormat, "")),
            };
        }
        proof {
            let more = item_outcome(items@[i as int], true)->Ok_0;
            let all = items_outcome(items@.take(i + 1), true)->Ok_0;
            assert(all == done + more);
            assert forall|k: int| 0 <= k < all.len() implies has_shape(
                (#[trigger] requests@[0 + k]).0@,
                all[k].0,
            ) && (requests@[0 + k].1 is None <==> all[k].1) by {
                if k < done.len() {
                    assert(requests@.take(before.len() as int)[k] == before[k]);
                    assert(all[k] == done[k]);
                } else {
                    let k2 = k - done.len();
                    assert(all[k] == more[k2]);
                    assert(k == before.len() + k2);
                }
            }
        }
        i = i + 1;
    }
    assert(items@.take(items@.len() as int) =~= items@);
    let ghost shapes = items_outcome(items@, true)->Ok_0;
    let ghost name_v = name@;
    // Add every request, in order, to the collection.
    let ghost mut rs: Seq<RequestView> = Seq::empty();
    let mut j: usize = 0;
    let n = requests.len();
    let mut rest = requests;
    let mut pending: Vec<(RequestDefinition, Option<u128>)> = Vec::new();
    // Reverse so that popping yields the requests in order.
    let ghost all_reqs = rest@;
    while rest.len() > 0
        invariant
            pending@ == all_reqs.skip(rest@.len() as int).reverse(),
            rest@ == all_reqs.take(rest@.len() as int),
            rest@.len() <= all_reqs.len(),
        decreases rest@.len(),
    {
        let ghost prev = rest@;
        let p = rest.pop().unwrap();
        proof {
            assert(rest@ =~= all_reqs.take(rest@.len() as int));
            assert(p == all_reqs[rest@.len() as int]);
        }
        pending.push(p);
        assert(pending@ =~= all_reqs.skip(rest@.len() as int).reverse());
    }
    assert(all_reqs.skip(0) =~= all_reqs);
    while pending.len() > 0
        invariant
            j + pending@.len() == n,
            n == all_reqs.len(),
            n == shapes.len(),
            collected_as(all_reqs, 0, shapes),
            pending@ == all_reqs.skip(j as int).reverse(),
            rs.len() == j,
            forall|k: int| 0 <= k < j ==> #[trigger] rs[k] == all_reqs[k].0@,
            collection@.name == name_v,
            collection@.requests == requests_by_id(rs),
            collection@.tree == top_level_refs(rs, top_flags(shapes).take(j as int)),
            forall|k: int| 0 <= k < collection@.tree.len() ==> (#[trigger] collection@.tree[k]) is Request,
        decreases pending@.len(),
    {
        let (req, parent) = pending.pop().unwrap();
        proof {
            assert(pending@ =~= all_reqs.skip(j + 1).reverse());
            assert((req, parent) == all_reqs[j as int]);
        }
        let ghost rv = req@;
        let ghost old_tree = collection@.tree;
        collection.add_request(req, parent);
        proof {
            let rs2 = rs.push(rv);
            assert(rs2.drop_last() =~= rs);
            let flags2 = top_flags(shapes).take(j + 1);
            assert(flags2.drop_last() =~= top_flags(shapes).take(j as int));
            assert(flags2.last() == shapes[j as int].1);
            assert(all_reqs[0 + j].1 is None <==> shapes[j as int].1);
            match parent {
                Some(fid) => {
                    lemma_tree_without_folders(old_tree, fid, ItemView::Request(rv.id));
                },
                None => {},
            }
            assert(collection@.tree == top_level_refs(rs2, flags2));
            assert forall|k: int| 0 <= k < collection@.tree.len() implies (#[trigger] collection@.tree[k]) is Request by {
                if k < old_tree.len() {
                    assert(collection@.tree[k] == old_tree[k]);
                }
            }
            rs = rs2;
        }
        j = j + 1;
    }
    proof {
        assert(top_flags(shapes).take(n as int) =~= top_flags(shapes));
        assert forall|k: int| 0 <= k < rs.len() implies has_shape(#[trigger] rs[k], shapes[k].0) by {
            assert(rs[k] == all_reqs[0 + k].0@);
        }
        assert(postman_outcome(*postman) == Ok::<(Seq<char>, Seq<(RequestShape, bool)>), ImportErrorView>((name_v, shapes)));
    }
    Ok(collection)
}

/// Every request of the list is stored under its id.
pub(crate) proof fn lemma_requests_by_id_holds(rs: Seq<RequestView>)
    ensures
        forall|k: int| 0 <= k < rs.len() ==> requests_by_id(rs).dom().contains(#[trigger] rs[k].id),
    decreases rs.len(),
{
    if rs.len() > 0 {
        lemma_requests_by_id_holds(rs.drop_last());
        assert forall|k: int| 0 <= k < rs.len() implies requests_by_id(rs).dom().contains(#[trigger] rs[k].id) by {
            if k < rs.len() - 1 {
                assert(rs.drop_last()[k] == rs[k]);
            }
        }
    }
}

proof fn lemma_top_refs_of_requests(rs: Seq<RequestView>, top: Seq<bool>)
    ensures
        forall|k: int|
            0 <= k < top_level_refs(rs, top).len() ==> exists|j: int|
                0 <= j < rs.len() && #[trigger] top_level_refs(rs, top)[k] == ItemView::Request(rs[j].id),
    decreases rs.len(),
{
    if rs.len() > 0 && rs.len() == top.len() {
        lemma_top_refs_of_requests(rs.drop_last(), top.drop_last());
        let rest = top_level_refs(rs.drop_last(), top.drop_last());
        assert forall|k: int| 0 <= k < top_level_refs(rs, top).len() implies exists|j: int|
            0 <= j < rs.len() && #[trigger] top_level_refs(rs, top)[k] == ItemView::Request(rs[j].id) by {
            if k < rest.len() {
                let j = choose|j: int| 0 <= j < rs.drop_last().len() && rest[k] == ItemView::Request(rs.drop_last()[j].id);
                assert(rs[j] == rs.drop_last()[j]);
                assert(top_level_refs(rs, top)[k] == rest[k]);
            } else {
                assert(top_level_refs(rs, top)[k] == ItemView::Request(rs[rs.len() - 1].id));
            }
        }
    }
}

/// A collection imported from a Postman document passes validation, unless its
/// name is blank: every reference in its tree points at a request it holds.
pub proof fn law_postman_import_is_valid(c: CollectionView, name: Seq<char>, shapes: Seq<(RequestShape, bool)>)
    requires
        imported_as(c, name, shapes),
        !blank(name),
    ensures
        collection_problem(c.name, c.tree, c.requests.dom()) is None,
{
    let rs = choose|rs: Seq<RequestView>|
        {
            &&& rs.len() == shapes.len()
            &&& forall|k: int| 0 <= k < rs.len() ==> has_shape(#[trigger] rs[k], shapes[k].0)
            &&& c.name == name
            &&& c.requests == requests_by_id(rs)
            &&& c.tree == top_level_refs(rs, top_flags(shapes))
        };
    lemma_requests_by_id_holds(rs);
    lemma_top_refs_of_requests(rs, top_flags(shapes));
    assert forall|k: int| 0 <= k < c.tree.len() implies ((#[trigger] c.tree[k]) matches ItemView::Request(id)
        && c.requests.dom().contains(id)) by {
        let j = choose|j: int| 0 <= j < rs.len() && c.tree[k] == ItemView::Request(rs[j].id);
    }
    lemma_request_refs_valid(c.tree, c.requests.dom());
}

/// Imports a Postman v2.1 collection from its JSON text: a `Deserialization`
/// error with the parser's message when the text is not JSON, otherwise what
/// `parse_postman_collection` gives for the parsed document.
pub fn import_postman_text(text: &str) -> (r: Result<Collection, ImportError>)
    ensures
        match json_error(text@) {
            Some(m) => r matches Err(x) && x@ == import_err(
                ImportErrorKind::Deserialization,
                "Failed to parse Postman JSON: "@ + m,
            ),
            None => exists|v: JsonValue|
                #[trigger] json_view(v) == json_parse(text@) && match postman_outcome(v) {
                    Ok((name, shapes)) => r matches Ok(c) && imported_as(c@, name, shapes),
                    Err(e) => r matches Err(x) && x@ == e,
                },
        },
{
    match parse_json_text(text) {
        Ok(v) => parse_postman_collection(&v),
        Err(m) => {
            let mut msg = to_owned_string("Failed to parse Postman JSON: ");
            push_str(&mut msg, m.as_str());
            Err(ImportError::new(ImportErrorKind::Deserialization, msg.as_str()))
        },
    }
}

/// A raw Postman body is imported with the content type its
/// `options.raw.language` names: `json` gives JSON, `xml` XML, `html` HTML, any
/// other language plain text, and so does a body without a language; its content
/// is the `raw` text (empty when missing).
pub proof fn law_postman_raw_language(body: JsonValue)
    ensures
        postman_body(body, Some("raw"@)) matches BodyView::Raw { content, content_type } && content == text_or(
            str_of(json_get(body, "raw"@)),
            ""@,
        ) && match str_of(opt_get(opt_get(json_get(body, "options"@), "raw"@), "language"@)) {
            Some(l) => (l == "json"@ ==> content_type == RawContentType::Json) && (l == "xml"@ ==> content_type
                == RawContentType::Xml) && (l == "html"@ ==> content_type == RawContentType::Html) && (l != "json"@
                && l != "xml"@ && l != "html"@ ==> content_type == RawContentType::Text),
            None => content_type == RawContentType::Text,
        },
{
    reveal_strlit("json");
    reveal_strlit("xml");
    reveal_strlit("html");
    reveal_strlit("raw");
    assert("json"@[0] != "html"@[0]);
    assert("json"@ != "xml"@ && "xml"@ != "html"@ && "json"@ != "html"@);
}

} // verus!
