//! The data model: requests, environments, collections, history entries, templates.
use vstd::prelude::*;
use crate::ids::{Timestamp, new_id, now, is_v4_uuid};
use crate::text::to_owned_string;

verus! {

/// An HTTP request method.
#[derive(Clone, Copy, Debug, PartialEq, Eq, Structural)]
pub enum HttpMethod {
    GET,
    POST,
    PUT,
    PATCH,
    DELETE,
    HEAD,
    OPTIONS,
}

/// The text of a method, as its `Display` writes it.
pub open spec fn method_text(m: HttpMethod) -> Seq<char> {
    match m {
        HttpMethod::GET => "GET"@,
        HttpMethod::POST => "POST"@,
        HttpMethod::PUT => "PUT"@,
        HttpMethod::PATCH => "PATCH"@,
        HttpMethod::DELETE => "DELETE"@,
        HttpMethod::HEAD => "HEAD"@,
        HttpMethod::OPTIONS => "OPTIONS"@,
    }
}

impl HttpMethod {
    /// The method's name in upper case, e.g. `"GET"`.
    pub fn to_string(&self) -> (r: String)
        ensures
            r@ == method_text(*self),
    {
        match self {
            HttpMethod::GET => to_owned_string("GET"),
            HttpMethod::POST => to_owned_string("POST"),
            HttpMethod::PUT => to_owned_string("PUT"),
            HttpMethod::PATCH => to_owned_string("PATCH"),
            HttpMethod::DELETE => to_owned_string("DELETE"),
            HttpMethod::HEAD => to_owned_string("HEAD"),
            HttpMethod::OPTIONS => to_owned_string("OPTIONS"),
        }
    }
}

/// A key/value pair used for headers, query parameters and form fields.
#[derive(Clone, Debug)]
pub struct KeyValuePair {
    pub key: String,
    pub value: String,
    pub enabled: bool,
    pub description: Option<String>,
}

/// The media type of a raw body.
#[derive(Clone, Copy, Debug, PartialEq, Eq, Structural)]
pub enum RawContentType {
    Json,
    Xml,
    Text,
    Html,
}

/// A request body.
#[derive(Clone, Debug)]
pub enum BodyType {
    NoBody,
    Raw { content: String, content_type: RawContentType },
    FormUrlEncoded(Vec<KeyValuePair>),
}

/// A persistable request; its string fields may hold `{{variable}}` placeholders.
#[derive(Clone, Debug)]
pub struct RequestDefinition {
    pub id: u128,
    pub name: String,
    pub method: HttpMethod,
    pub url: String,
    pub headers: Vec<KeyValuePair>,
    pub query_params: Vec<KeyValuePair>,
    pub body: BodyType,
    pub created_at: Timestamp,
    pub updated_at: Timestamp,
}

/// An optional string, read through its view.
pub open spec fn opt_view(o: Option<String>) -> Option<Seq<char>> {
    match o {
        Some(s) => Some(s@),
        None => None,
    }
}

/// A copy of an optional string.
pub fn copy_opt_string(o: &Option<String>) -> (r: Option<String>)
    ensures
        opt_view(r) == opt_view(*o),
{
    match o {
        Some(s) => Some(s.clone()),
        None => None,
    }
}

/// The mathematical value of a key/value pair.
pub struct PairView {
    pub key: Seq<char>,
    pub value: Seq<char>,
    pub enabled: bool,
    pub description: Option<Seq<char>>,
}

impl View for KeyValuePair {
    type V = PairView;

    open spec fn view(&self) -> PairView {
        PairView {
            key: self.key@,
            value: self.value@,
            enabled: self.enabled,
            description: opt_view(self.description),
        }
    }
}

/// The values of a list of pairs.
pub open spec fn pairs_view(v: Seq<KeyValuePair>) -> Seq<PairView> {
    v.map_values(|p: KeyValuePair| p@)
}

/// The mathematical value of a body.
pub enum BodyView {
    NoBody,
    Raw { content: Seq<char>, content_type: RawContentType },
    Form(Seq<PairView>),
}

impl View for BodyType {
    type V = BodyView;

    open spec fn view(&self) -> BodyView {
        match self {
            BodyType::NoBody => BodyView::NoBody,
            BodyType::Raw { content, content_type } => BodyView::Raw {
                content: content@,
                content_type: *content_type,
            },
            BodyType::FormUrlEncoded(p) => BodyView::Form(pairs_view(p@)),
        }
    }
}

/// The mathematical value of a request.
pub struct RequestView {
    pub id: u128,
    pub name: Seq<char>,
    pub method: HttpMethod,
    pub url: Seq<char>,
    pub headers: Seq<PairView>,
    pub query_params: Seq<PairView>,
    pub body: BodyView,
    pub created_at: Timestamp,
    pub updated_at: Timestamp,
}

impl View for RequestDefinition {
    type V = RequestView;

    open spec fn view(&self) -> RequestView {
        RequestView {
            id: self.id,
            name: self.name@,
            method: self.method,
            url: self.url@,
            headers: pairs_view(self.headers@),
            query_params: pairs_view(self.query_params@),
            body: self.body@,
            created_at: self.created_at,
            updated_at: self.updated_at,
        }
    }
}

impl KeyValuePair {
    /// A copy of this pair.
    pub fn duplicate(&self) -> (r: KeyValuePair)
        ensures
            r@ == self@,
    {
        KeyValuePair {
            key: self.key.clone(),
            value: self.value.clone(),
            enabled: self.enabled,
            description: copy_opt_string(&self.description),
        }
    }
}

/// A copy of a list of pairs.
pub fn copy_pairs(v: &Vec<KeyValuePair>) -> (r: Vec<KeyValuePair>)
    ensures
        pairs_view(r@) == pairs_view(v@),
{
    let mut r: Vec<KeyValuePair> = Vec::new();
    let mut i: usize = 0;
    while i < v.len()
        invariant
            0 <= i <= v@.len(),
            pairs_view(r@) == pairs_view(v@.take(i as int)),
        decreases v@.len() - i,
    {
        r.push(v[i].duplicate());
        assert(pairs_view(v@.take((i + 1) as int)) == pairs_view(v@.take(i as int)).push(
            v@[i as int]@,
        ));
        i = i + 1;
    }
    assert(v@.take(v@.len() as int) == v@);
    r
}

impl BodyType {
    /// A copy of this body.
    pub fn duplicate(&self) -> (r: BodyType)
        ensures
            r@ == self@,
    {
        match self {
            BodyType::NoBody => BodyType::NoBody,
            BodyType::Raw { content, content_type } => BodyType::Raw {
                content: content.clone(),
                content_type: *content_type,
            },
            BodyType::FormUrlEncoded(p) => BodyType::FormUrlEncoded(copy_pairs(p)),
        }
    }
}

impl RequestDefinition {
    /// A new request with a fresh id, no headers, parameters or body, created now.
    pub fn new(name: &str, method: HttpMethod, url: &str) -> (r: RequestDefinition)
        ensures
            r@.name == name@,
            r@.method == method,
            r@.url == url@,
            r@.headers.len() == 0,
            r@.query_params.len() == 0,
            r@.body == BodyView::NoBody,
            r@.created_at == r@.updated_at,
            is_v4_uuid(r@.id),
    {
        let t = now();
        RequestDefinition {
            id: new_id(),
            name: to_owned_string(name),
            method,
            url: to_owned_string(url),
            headers: Vec::new(),
            query_params: Vec::new(),
            body: BodyType::NoBody,
            created_at: t,
            updated_at: t,
        }
    }

    /// A copy of this request.
    pub fn duplicate(&self) -> (r: RequestDefinition)
        ensures
            r@ == self@,
    {
        RequestDefinition {
            id: self.id,
            name: self.name.clone(),
            method: self.method,
            url: self.url.clone(),
            headers: copy_pairs(&self.headers),
            query_params: copy_pairs(&self.query_params),
            body: self.body.duplicate(),
            created_at: self.created_at,
            updated_at: self.updated_at,
        }
    }
}

} // verus!
