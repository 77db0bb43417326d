//! Validation of requests before they are sent: URL, headers and body.
use vstd::prelude::*;
use crate::models::{opt_view, method_text, HttpMethod, KeyValuePair, BodyType, RawContentType, BodyView, PairView, pairs_view, RequestDefinition, RequestView};
use crate::text::{blank, is_blank, to_owned_string, push_str, join, seq_join, views, first_line, first_non_ws_is, last_non_ws_is, trimmed_starts_with, trimmed_ends_with, lowercase, to_lowercase, push_char};

verus! {

/// Why a request is not valid.
#[derive(Clone, Debug)]
pub enum ValidationError {
    InvalidUrl { message: String },
    InvalidHeader { message: String },
    InvalidBody { message: String },
    InvalidMethod { message: String },
    MultipleErrors(String),
}

/// The mathematical value of a validation error.
pub enum ErrorView {
    InvalidUrl(Seq<char>),
    InvalidHeader(Seq<char>),
    InvalidBody(Seq<char>),
    InvalidMethod(Seq<char>),
    MultipleErrors(Seq<char>),
}

impl View for ValidationError {
    type V = ErrorView;

    open spec fn view(&self) -> ErrorView {
        match self {
            ValidationError::InvalidUrl { message } => ErrorView::InvalidUrl(message@),
            ValidationError::InvalidHeader { message } => ErrorView::InvalidHeader(message@),
            ValidationError::InvalidBody { message } => ErrorView::InvalidBody(message@),
            ValidationError::InvalidMethod { message } => ErrorView::InvalidMethod(message@),
            ValidationError::MultipleErrors(s) => ErrorView::MultipleErrors(s@),
        }
    }
}

/// The separator between the items of a list of errors.
pub open spec fn list_sep() -> Seq<char> {
    "\n  - "@
}

/// The text of an error, as its `Display` writes it.
pub open spec fn error_text(e: ErrorView) -> Seq<char> {
    match e {
        ErrorView::InvalidUrl(m) => "URL validation error: "@ + m,
        ErrorView::InvalidHeader(m) => "Header validation error: "@ + m,
        ErrorView::InvalidBody(m) => "Body validation error: "@ + m,
        ErrorView::InvalidMethod(m) => "Method validation error: "@ + m,
        ErrorView::MultipleErrors(m) => "Request validation failed:\n  - "@ + m,
    }
}

/// Concatenation of two string slices.
fn concat2(a: &str, b: &str) -> (r: String)
    ensures
        r@ == a@ + b@,
{
    let mut r = to_owned_string(a);
    push_str(&mut r, b);
    r
}

impl ValidationError {
    /// A URL error with the given message.
    pub fn invalid_url(message: &str) -> (r: ValidationError)
        ensures
            r@ == ErrorView::InvalidUrl(message@),
    {
        ValidationError::InvalidUrl { message: to_owned_string(message) }
    }

    /// A header error with the given message.
    pub fn invalid_header(message: &str) -> (r: ValidationError)
        ensures
            r@ == ErrorView::InvalidHeader(message@),
    {
        ValidationError::InvalidHeader { message: to_owned_string(message) }
    }

    /// A body error with the given message.
    pub fn invalid_body(message: &str) -> (r: ValidationError)
        ensures
            r@ == ErrorView::InvalidBody(message@),
    {
        ValidationError::InvalidBody { message: to_owned_string(message) }
    }

    /// A method error with the given message.
    pub fn invalid_method(message: &str) -> (r: ValidationError)
        ensures
            r@ == ErrorView::InvalidMethod(message@),
    {
        ValidationError::InvalidMethod { message: to_owned_string(message) }
    }

    /// One error that lists several messages.
    pub fn multiple_errors(errors: Vec<String>) -> (r: ValidationError)
        ensures
            r@ == ErrorView::MultipleErrors(seq_join(views(errors@), list_sep())),
    {
        ValidationError::MultipleErrors(join(&errors, "\n  - "))
    }

    /// The error's text, as its `Display` writes it.
    pub fn to_string(&self) -> (r: String)
        ensures
            r@ == error_text(self@),
    {
        match self {
            ValidationError::InvalidUrl { message } => concat2(
                "URL validation error: ",
                message.as_str(),
            ),
            ValidationError::InvalidHeader { message } => concat2(
                "Header validation error: ",
                message.as_str(),
            ),
            ValidationError::InvalidBody { message } => concat2(
                "Body validation error: ",
                message.as_str(),
            ),
            ValidationError::InvalidMethod { message } => concat2(
                "Method validation error: ",
                message.as_str(),
            ),
            ValidationError::MultipleErrors(m) => concat2(
                "Request validation failed:\n  - ",
                m.as_str(),
            ),
        }
    }
}

/// The outcome that an optional error message stands for.
pub open spec fn outcome_matches(
    r: Result<(), ValidationError>,
    err: Option<ErrorView>,
) -> bool {
    match r {
        Ok(()) => err is None,
        Err(e) => err == Some(e@),
    }
}

// ---------------------------------------------------------------------------
// URL
// ---------------------------------------------------------------------------

/// What `url::Url::parse` gives for a text: the scheme, whether there is a host,
/// and the host text; or the error's `Display` text.
pub uninterp spec fn url_parse(s: Seq<char>) -> Result<(Seq<char>, bool, Option<Seq<char>>), Seq<char>>;

/// The value of a parsed URL's parts.
pub open spec fn url_parts_view(r: Result<(String, bool, Option<String>), String>) -> Result<
    (Seq<char>, bool, Option<Seq<char>>),
    Seq<char>,
> {
    match r {
        Ok((s, b, h)) => Ok((s@, b, opt_view(h))),
        Err(e) => Err(e@),
    }
}

/// `url::Url::parse`, read through `scheme`, `host().is_some()` and `host_str`.
/// The crate's source shows that a URL has a host string exactly when it has a host.
/// What the parser accepts is named, not stated.
#[verifier::external_body]
pub(crate) fn parse_url_parts(url: &str) -> (r: Result<(String, bool, Option<String>), String>)
    ensures
        url_parts_view(r) == url_parse(url@),
        r matches Ok((_s, b, h)) ==> (b <==> h is Some),
{
    match url::Url::parse(url) {
        Ok(u) => Ok((u.scheme().to_string(), u.host().is_some(), u.host_str().map(|h| h.to_string()))),
        Err(e) => Err(e.to_string()),
    }
}

/// The error message for a URL, given what the parser made of it.
pub open spec fn url_error(
    url: Seq<char>,
    parsed: Result<(Seq<char>, bool, Option<Seq<char>>), Seq<char>>,
) -> Option<Seq<char>> {
    if blank(url) {
        Some("URL cannot be empty"@)
    } else {
        match parsed {
            Err(e) => Some("Failed to parse URL: "@ + e),
            Ok((scheme, has_host, host)) => if scheme != "http"@ && scheme != "https"@ {
                Some(
                    "Invalid scheme '"@ + scheme
                        + "'. Only 'http' and 'https' are supported"@,
                )
            } else if !has_host {
                Some("URL must have a valid host"@)
            } else if host is None || host->0.len() == 0 {
                Some("URL host cannot be empty"@)
            } else {
                None
            },
        }
    }
}

/// A URL error as a validation error.
pub open spec fn as_url_error(m: Option<Seq<char>>) -> Option<ErrorView> {
    match m {
        Some(m) => Some(ErrorView::InvalidUrl(m)),
        None => None,
    }
}

/// Decides a URL's validity from what the parser made of it.
pub fn url_validation_outcome(
    url: &str,
    parsed: Result<(String, bool, Option<String>), String>,
) -> (r: Result<(), ValidationError>)
    ensures
        outcome_matches(r, as_url_error(url_error(url@, url_parts_view(parsed)))),
{
    if is_blank(url) {
        return Err(ValidationError::invalid_url("URL cannot be empty"));
    }
    match parsed {
        Err(e) => Err(ValidationError::InvalidUrl { message: concat2("Failed to parse URL: ", e.as_str()) }),
        Ok((scheme, has_host, host)) => {
            let http = to_owned_string("http");
            let https = to_owned_string("https");
            if scheme != http && scheme != https {
                let mut m = concat2("Invalid scheme '", scheme.as_str());
                push_str(&mut m, "'. Only 'http' and 'https' are supported");
                return Err(ValidationError::InvalidUrl { message: m });
            }
            if !has_host {
                return Err(ValidationError::invalid_url("URL must have a valid host"));
            }
            match host {
                None => Err(ValidationError::invalid_url("URL host cannot be empty")),
                Some(h) => {
                    if h.as_str().is_empty() {
                        Err(ValidationError::invalid_url("URL host cannot be empty"))
                    } else {
                        Ok(())
                    }
                },
            }
        },
    }
}

/// Checks that a URL is non-empty, parses, uses `http` or `https`, and has a
/// non-empty host.
pub fn validate_url(url: &str) -> (r: Result<(), ValidationError>)
    ensures
        outcome_matches(r, as_url_error(url_error(url@, url_parse(url@)))),
{
    if is_blank(url) {
        return Err(ValidationError::invalid_url("URL cannot be empty"));
    }
    let parsed = parse_url_parts(url);
    url_validation_outcome(url, parsed)
}

// ---------------------------------------------------------------------------
// Headers
// ---------------------------------------------------------------------------

/// A delimiter that RFC 7230 forbids in a header name.
pub open spec fn is_header_delimiter(c: char) -> bool {
    c == '(' || c == ')' || c == '<' || c == '>' || c == '@' || c == ',' || c == ';' || c == ':'
        || c == '\\' || c == '"' || c == '/' || c == '[' || c == ']' || c == '?' || c == '='
        || c == '{' || c == '}' || c == ' ' || c == '\t'
}

/// A character allowed in a header name: ASCII and not a delimiter.
pub open spec fn header_name_char_ok(c: char) -> bool {
    (c as u32) < 128 && !is_header_delimiter(c)
}

/// An ASCII control character (`char::is_ascii_control`).
pub open spec fn is_ascii_control(c: char) -> bool {
    (c as u32) < 0x20 || (c as u32) == 0x7F
}

/// Whether `i` is the first position of `s` that breaks the header-name rule.
pub open spec fn first_bad_name_char(s: Seq<char>, i: int) -> bool {
    0 <= i < s.len() && !header_name_char_ok(s[i]) && forall|k: int|
        0 <= k < i ==> header_name_char_ok(#[trigger] s[k])
}

/// The error message for one header, if it is invalid.
pub open spec fn header_pair_error(key: Seq<char>, value: Seq<char>) -> Option<Seq<char>> {
    if blank(key) {
        Some("Header name cannot be empty"@)
    } else if exists|i: int| 0 <= i < key.len() && !header_name_char_ok(#[trigger] key[i]) {
        let i = choose|i: int| first_bad_name_char(key, i);
        Some("Header name contains invalid character '"@ + seq![key[i]] + "': "@ + key)
    } else if exists|i: int| 0 <= i < value.len() && is_ascii_control(#[trigger] value[i]) {
        Some("Header value contains control character in header '"@ + key + "'"@)
    } else {
        None
    }
}

/// A header error as a validation error.
pub open spec fn as_header_error(m: Option<Seq<char>>) -> Option<ErrorView> {
    match m {
        Some(m) => Some(ErrorView::InvalidHeader(m)),
        None => None,
    }
}

fn is_header_delimiter_exec(c: char) -> (r: bool)
    ensures
        r == is_header_delimiter(c),
{
    c == '(' || c == ')' || c == '<' || c == '>' || c == '@' || c == ',' || c == ';' || c == ':'
        || c == '\\' || c == '"' || c == '/' || c == '[' || c == ']' || c == '?' || c == '='
        || c == '{' || c == '}' || c == ' ' || c == '\t'
}

/// Checks a header: a non-blank name of ASCII non-delimiter characters, and a value
/// without ASCII control characters.
pub fn validate_header_pair(key: &str, value: &str) -> (r: Result<(), ValidationError>)
    ensures
        outcome_matches(r, as_header_error(header_pair_error(key@, value@))),
{
    if is_blank(key) {
        return Err(ValidationError::invalid_header("Header name cannot be empty"));
    }
    let kc = chars_of_str(key);
    let mut i: usize = 0;
    while i < kc.len()
        invariant
            0 <= i <= kc@.len(),
            kc@ == key@,
            !blank(key@),
            forall|k: int| 0 <= k < i ==> header_name_char_ok(#[trigger] kc@[k]),
        decreases kc@.len() - i,
    {
        let ch = kc[i];
        if !((ch as u32) < 128 && !is_header_delimiter_exec(ch)) {
            proof {
                assert(!header_name_char_ok(key@[i as int]));
                assert(first_bad_name_char(key@, i as int));
                let j = choose|j: int| first_bad_name_char(key@, j);
                if j < i {
                    assert(header_name_char_ok(kc@[j]));
                } else if j > i {
                    assert(header_name_char_ok(key@[i as int]));
                }
                assert(j == i);
            }
            let mut m = to_owned_string("Header name contains invalid character '");
            push_char(&mut m, ch);
            push_str(&mut m, "': ");
            push_str(&mut m, key);
            assert(m@ == "Header name contains invalid character '"@ + seq![key@[i as int]] + "': "@ + key@);
            return Err(ValidationError::InvalidHeader { message: m });
        }
        i = i + 1;
    }
    let vc = chars_of_str(value);
    let mut j: usize = 0;
    while j < vc.len()
        invariant
            0 <= j <= vc@.len(),
            vc@ == value@,
            kc@ == key@,
            !blank(key@),
            forall|k: int| 0 <= k < kc@.len() ==> header_name_char_ok(#[trigger] kc@[k]),
            forall|k: int| 0 <= k < j ==> !is_ascii_control(#[trigger] vc@[k]),
        decreases vc@.len() - j,
    {
        let u = vc[j] as u32;
        if u < 0x20 || u == 0x7F {
            let mut m = to_owned_string("Header value contains control character in header '");
            push_str(&mut m, key);
            push_str(&mut m, "'");
            return Err(ValidationError::InvalidHeader { message: m });
        }
        j = j + 1;
    }
    Ok(())
}

fn chars_of_str(s: &str) -> (v: Vec<char>)
    ensures
        v@ == s@,
{
    crate::text::chars_of(s)
}

/// Scans the enabled headers in order: the error texts so far, and the lower-case
/// names of the valid headers seen so far.
pub open spec fn header_scan(hs: Seq<PairView>) -> (Seq<Seq<char>>, Seq<Seq<char>>)
    decreases hs.len(),
{
    if hs.len() == 0 {
        (Seq::empty(), Seq::empty())
    } else {
        let (errs, seen) = header_scan(hs.drop_last());
        let h = hs.last();
        if !h.enabled {
            (errs, seen)
        } else {
            match header_pair_error(h.key, h.value) {
                Some(m) => (errs.push(error_text(ErrorView::InvalidHeader(m))), seen),
                None => {
                    let lk = lowercase(h.key);
                    if seen.contains(lk) {
                        (errs.push("Duplicate header detected: '"@ + h.key + "'"@), seen)
                    } else {
                        (errs, seen.push(lk))
                    }
                },
            }
        }
    }
}

/// The error for a list of headers, if any header is invalid or an enabled name
/// repeats (ignoring case).
pub open spec fn headers_error(hs: Seq<PairView>) -> Option<Seq<char>> {
    let errs = header_scan(hs).0;
    if errs.len() == 0 {
        None
    } else {
        Some("Multiple header validation errors:\n  - "@ + seq_join(errs, list_sep()))
    }
}

fn vec_contains_string(v: &Vec<String>, s: &String) -> (r: bool)
    ensures
        r == views(v@).contains(s@),
{
    let mut i: usize = 0;
    while i < v.len()
        invariant
            0 <= i <= v@.len(),
            forall|k: int| 0 <= k < i ==> v@[k]@ != s@,
        decreases v@.len() - i,
    {
        if v[i] == *s {
            assert(views(v@)[i as int] == s@);
            return true;
        }
        i = i + 1;
    }
    proof {
        if views(v@).contains(s@) {
            let k = choose|k: int| 0 <= k < views(v@).len() && views(v@)[k] == s@;
            assert(v@[k]@ == s@);
        }
    }
    false
}

/// Checks every enabled header, and that no enabled header name repeats (ignoring
/// case); all problems are reported together.
pub fn validate_headers(headers: &[KeyValuePair]) -> (r: Result<(), ValidationError>)
    ensures
        outcome_matches(r, as_header_error(headers_error(pairs_view(headers@)))),
{
    let mut errors: Vec<String> = Vec::new();
    let mut seen: Vec<String> = Vec::new();
    let mut i: usize = 0;
    while i < headers.len()
        invariant
            0 <= i <= headers@.len(),
            (views(errors@), views(seen@)) == header_scan(pairs_view(headers@.take(i as int))),
        decreases headers@.len() - i,
    {
        let h = &headers[i];
        assert(pairs_view(headers@.take((i + 1) as int)).drop_last() == pairs_view(
            headers@.take(i as int),
        ));
        assert(pairs_view(headers@.take((i + 1) as int)).last() == h@);
        if h.enabled {
            match validate_header_pair(h.key.as_str(), h.value.as_str()) {
                Err(e) => {
                    errors.push(e.to_string());
                    assert(views(errors@) == views(errors@.drop_last()).push(error_text(e@)));
                },
                Ok(()) => {
                    let lk = to_lowercase(h.key.as_str());
                    if vec_contains_string(&seen, &lk) {
                        let mut m = to_owned_string("Duplicate header detected: '");
                        push_str(&mut m, h.key.as_str());
                        push_str(&mut m, "'");
                        errors.push(m);
                        assert(views(errors@) == views(errors@.drop_last()).push(m@));
                    } else {
                        seen.push(lk);
                        assert(views(seen@) == views(seen@.drop_last()).push(lk@));
                    }
                },
            }
        }
        i = i + 1;
    }
    assert(headers@.take(headers@.len() as int) == headers@);
    if errors.len() > 0 {
        let mut m = to_owned_string("Multiple header validation errors:\n  - ");
        let joined = join(&errors, "\n  - ");
        push_str(&mut m, joined.as_str());
        return Err(ValidationError::InvalidHeader { message: m });
    }
    Ok(())
}

// ---------------------------------------------------------------------------
// Body
// ---------------------------------------------------------------------------

/// Whether a method carries a request body: `POST`, `PUT` and `PATCH`.
pub open spec fn supports_body(m: HttpMethod) -> bool {
    m == HttpMethod::POST || m == HttpMethod::PUT || m == HttpMethod::PATCH
}

/// Whether the HTTP method supports a request body.
pub fn method_supports_body(method: &HttpMethod) -> (r: bool)
    ensures
        r == supports_body(*method),
{
    match method {
        HttpMethod::POST | HttpMethod::PUT | HttpMethod::PATCH => true,
        _ => false,
    }
}

/// The `Display` text of the error that `serde_json` reports when it parses `s` as a
/// JSON value, or `None` when `s` is valid JSON.
pub uninterp spec fn json_error(s: Seq<char>) -> Option<Seq<char>>;

/// The error text that `serde_json` gives for a text that is not valid JSON.
pub fn json_parse_error(s: &str) -> (r: Option<String>)
    ensures
        opt_view(r) == json_error(s@),
{
    match crate::json::parse_json_value(s) {
        Ok(_) => None,
        Err(e) => Some(e),
    }
}

/// The outcome of the JSON check that applies to a body: the parser's error for a
/// raw JSON body, and `None` for any other body.
pub open spec fn body_json_error(b: BodyView) -> Option<Seq<char>> {
    match b {
        BodyView::Raw { content, content_type: RawContentType::Json } => json_error(content),
        _ => None,
    }
}

/// The message for a method that takes no body.
pub open spec fn no_body_message(m: HttpMethod) -> Seq<char> {
    "HTTP method "@ + method_text(m) + " does not support a request body"@
}

/// The error message for a body, given the JSON parser's verdict on it.
pub open spec fn body_error(m: HttpMethod, b: BodyView, json: Option<Seq<char>>) -> Option<
    Seq<char>,
> {
    match b {
        BodyView::NoBody => None,
        BodyView::Raw { content, content_type } => if !supports_body(m) {
            Some(no_body_message(m))
        } else if blank(content) {
            Some("Request body content is empty"@)
        } else {
            match content_type {
                RawContentType::Json => match json {
                    Some(e) => Some("Invalid JSON body: "@ + first_line(e)),
                    None => None,
                },
                RawContentType::Xml => if !first_non_ws_is(content, '<') || !last_non_ws_is(
                    content,
                    '>',
                ) {
                    Some(
                        "XML body must be well-formed (should start with '<' and end with '>')"@,
                    )
                } else {
                    None
                },
                _ => None,
            }
        },
        BodyView::Form(pairs) => if !supports_body(m) {
            Some(no_body_message(m))
        } else if pairs.len() == 0 {
            Some("Form-encoded body must contain at least one field"@)
        } else if exists|i: int|
            0 <= i < pairs.len() && (#[trigger] pairs[i]).enabled && blank(pairs[i].key) {
            Some("Form field name cannot be empty"@)
        } else {
            None
        },
    }
}

/// A body error as a validation error.
pub open spec fn as_body_error(m: Option<Seq<char>>) -> Option<ErrorView> {
    match m {
        Some(m) => Some(ErrorView::InvalidBody(m)),
        None => None,
    }
}

fn no_body_error(method: &HttpMethod) -> (r: ValidationError)
    ensures
        r@ == ErrorView::InvalidBody(no_body_message(*method)),
{
    let mut m = to_owned_string("HTTP method ");
    let t = method.to_string();
    push_str(&mut m, t.as_str());
    push_str(&mut m, " does not support a request body");
    ValidationError::InvalidBody { message: m }
}

/// The first line of a text, as `str::lines().next()` gives it, or the whole text
/// when it has no line.
pub fn first_line_of(s: &str) -> (r: String)
    ensures
        r@ == first_line(s@),
{
    let v = crate::text::chars_of(s);
    let mut end: usize = 0;
    while end < v.len() && v[end] != '\n'
        invariant
            0 <= end <= v@.len(),
            v@ == s@,
            forall|k: int| 0 <= k < end ==> v@[k] != '\n',
        decreases v@.len() - end,
    {
        end = end + 1;
    }
    proof {
        if end < v@.len() {
            assert(s@[end as int] == '\n');
            let c = choose|i: int|
                0 <= i < s@.len() && s@[i] == '\n' && forall|k: int| 0 <= k < i ==> s@[k] != '\n';
            if c < end {
                assert(v@[c] != '\n');
            } else if c > end {
                assert(s@[end as int] != '\n');
            }
        } else {
            assert(!(exists|i: int| 0 <= i < s@.len() && s@[i] == '\n'));
        }
    }
    let mut stop = end;
    if end > 0 && v[end - 1] == '\r' {
        stop = end - 1;
    }
    let mut r = String::new();
    let mut i: usize = 0;
    while i < stop
        invariant
            0 <= i <= stop <= end <= v@.len(),
            v@ == s@,
            r@ == v@.subrange(0, i as int),
        decreases stop - i,
    {
        push_char(&mut r, v[i]);
        assert(v@.subrange(0, (i + 1) as int) == v@.subrange(0, i as int).push(v@[i as int]));
        i = i + 1;
    }
    if end > 0 {
        assert(v@.subrange(0, end as int).drop_last() == v@.subrange(0, end as int - 1));
    }
    r
}

/// Decides a body's validity for a method, given the JSON parser's verdict on it
/// (which matters only for raw JSON bodies).
pub fn body_validation_outcome(
    method: &HttpMethod,
    body: &BodyType,
    json: Option<String>,
) -> (r: Result<(), ValidationError>)
    ensures
        outcome_matches(r, as_body_error(body_error(*method, body@, opt_view(json)))),
{
    match body {
        BodyType::NoBody => Ok(()),
        BodyType::Raw { content, content_type } => {
            if !method_supports_body(method) {
                return Err(no_body_error(method));
            }
            if is_blank(content.as_str()) {
                return Err(ValidationError::invalid_body("Request body content is empty"));
            }
            match content_type {
                RawContentType::Json => match json {
                    Some(e) => {
                        let mut m = to_owned_string("Invalid JSON body: ");
                        let line = first_line_of(e.as_str());
                        push_str(&mut m, line.as_str());
                        Err(ValidationError::InvalidBody { message: m })
                    },
                    None => Ok(()),
                },
                RawContentType::Xml => {
                    if !trimmed_starts_with(content.as_str(), '<') || !trimmed_ends_with(
                        content.as_str(),
                        '>',
                    ) {
                        Err(
                            ValidationError::invalid_body(
                                "XML body must be well-formed (should start with '<' and end with '>')",
                            ),
                        )
                    } else {
                        Ok(())
                    }
                },
                _ => Ok(()),
            }
        },
        BodyType::FormUrlEncoded(pairs) => {
            if !method_supports_body(method) {
                return Err(no_body_error(method));
            }
            if pairs.len() == 0 {
                return Err(
                    ValidationError::invalid_body("Form-encoded body must contain at least one field"),
                );
            }
            let mut i: usize = 0;
            while i < pairs.len()
                invariant
                    0 <= i <= pairs@.len(),
                    body@ == BodyView::Form(pairs_view(pairs@)),
                    supports_body(*method),
                    pairs@.len() > 0,
                    forall|k: int|
                        0 <= k < i ==> !((#[trigger] pairs@[k]).enabled && blank(pairs@[k].key@)),
                decreases pairs@.len() - i,
            {
                if pairs[i].enabled && is_blank(pairs[i].key.as_str()) {
                    assert(pairs_view(pairs@)[i as int].enabled && blank(
                        pairs_view(pairs@)[i as int].key,
                    ));
                    assert(body@ == BodyView::Form(pairs_view(pairs@)));
                    assert(pairs_view(pairs@).len() > 0);
                    assert(exists|j: int|
                        0 <= j < pairs_view(pairs@).len() && (#[trigger] pairs_view(pairs@)[j]).enabled
                            && blank(pairs_view(pairs@)[j].key));
                    return Err(ValidationError::invalid_body("Form field name cannot be empty"));
                }
                i = i + 1;
            }
            proof {
                assert forall|k: int| 0 <= k < pairs_view(pairs@).len() implies !((
                #[trigger] pairs_view(pairs@)[k]).enabled && blank(pairs_view(pairs@)[k].key)) by {
                    assert(!(pairs@[k].enabled && blank(pairs@[k].key@)));
                }
            }
            Ok(())
        },
    }
}

/// Checks that a body suits the method (only `POST`, `PUT`, `PATCH` carry one), is
/// not blank, and matches its content type: valid JSON, or text that starts with
/// `<` and ends with `>` for XML; a form needs a field and no blank enabled name.
pub fn validate_body(method: &HttpMethod, body: &BodyType) -> (r: Result<(), ValidationError>)
    ensures
        outcome_matches(r, as_body_error(body_error(*method, body@, body_json_error(body@)))),
{
    let json = match body {
        BodyType::Raw { content, content_type: RawContentType::Json } => json_parse_error(
            content.as_str(),
        ),
        _ => None,
    };
    body_validation_outcome(method, body, json)
}

// ---------------------------------------------------------------------------
// Whole request
// ---------------------------------------------------------------------------

/// The texts of a request's URL, header and body errors, in that order.
pub open spec fn request_errors(r: RequestView) -> Seq<Seq<char>> {
    let e1: Seq<Seq<char>> = match url_error(r.url, url_parse(r.url)) {
        Some(m) => seq![error_text(ErrorView::InvalidUrl(m))],
        None => Seq::empty(),
    };
    let e2: Seq<Seq<char>> = match headers_error(r.headers) {
        Some(m) => seq![error_text(ErrorView::InvalidHeader(m))],
        None => Seq::empty(),
    };
    let e3: Seq<Seq<char>> = match body_error(r.method, r.body, body_json_error(r.body)) {
        Some(m) => seq![error_text(ErrorView::InvalidBody(m))],
        None => Seq::empty(),
    };
    e1 + e2 + e3
}

/// The error for a whole request: every problem found, listed in one error.
pub open spec fn request_error(r: RequestView) -> Option<ErrorView> {
    let errs = request_errors(r);
    if errs.len() == 0 {
        None
    } else {
        Some(ErrorView::MultipleErrors(seq_join(errs, list_sep())))
    }
}

/// Checks a request's URL, headers and body together, and reports all problems
/// found in one error.
pub fn validate_request(req: &RequestDefinition) -> (r: Result<(), ValidationError>)
    ensures
        outcome_matches(r, request_error(req@)),
{
    let mut errors: Vec<String> = Vec::new();
    let ghost e1: Seq<Seq<char>> = match url_error(req@.url, url_parse(req@.url)) {
        Some(m) => seq![error_text(ErrorView::InvalidUrl(m))],
        None => Seq::empty(),
    };
    let ghost e2: Seq<Seq<char>> = match headers_error(req@.headers) {
        Some(m) => seq![error_text(ErrorView::InvalidHeader(m))],
        None => Seq::empty(),
    };
    let ghost e3: Seq<Seq<char>> = match body_error(
        req@.method,
        req@.body,
        body_json_error(req@.body),
    ) {
        Some(m) => seq![error_text(ErrorView::InvalidBody(m))],
        None => Seq::empty(),
    };
    if let Err(e) = validate_url(req.url.as_str()) {
        errors.push(e.to_string());
    }
    assert(views(errors@) == e1);
    if let Err(e) = validate_headers(req.headers.as_slice()) {
        errors.push(e.to_string());
    }
    assert(views(errors@) == e1 + e2);
    if let Err(e) = validate_body(&req.method, &req.body) {
        errors.push(e.to_string());
    }
    assert(views(errors@) == e1 + e2 + e3);
    if errors.len() > 0 {
        return Err(ValidationError::multiple_errors(errors));
    }
    Ok(())
}

impl RequestDefinition {
    /// Validates this request (see `validate_request`).
    pub fn validate(&self) -> (r: Result<(), ValidationError>)
        ensures
            outcome_matches(r, request_error(self@)),
    {
        validate_request(self)
    }
}

/// Whether every enabled header is valid on its own.
pub open spec fn enabled_headers_valid(hs: Seq<PairView>) -> bool {
    forall|i: int| 0 <= i < hs.len() && (#[trigger] hs[i]).enabled ==> header_pair_error(hs[i].key, hs[i].value) is None
}

/// Whether no two enabled headers have the same name, ignoring case.
pub open spec fn enabled_names_distinct(hs: Seq<PairView>) -> bool {
    forall|i: int, j: int|
        0 <= i < j < hs.len() && (#[trigger] hs[i]).enabled && (#[trigger] hs[j]).enabled ==> lowercase(hs[i].key)
            != lowercase(hs[j].key)
}

proof fn lemma_header_scan(hs: Seq<PairView>)
    ensures
        header_scan(hs).0.len() == 0 <==> enabled_headers_valid(hs) && enabled_names_distinct(hs),
        header_scan(hs).0.len() == 0 ==> forall|lk: Seq<char>|
            #[trigger] header_scan(hs).1.contains(lk) <==> exists|i: int|
                0 <= i < hs.len() && (#[trigger] hs[i]).enabled && lowercase(hs[i].key) == lk,
    decreases hs.len(),
{
    if hs.len() == 0 {
        return;
    }
    let p = hs.drop_last();
    let h = hs.last();
    let n = hs.len() - 1;
    lemma_header_scan(p);
    let (errs, seen) = header_scan(p);
    assert forall|i: int| 0 <= i < p.len() implies p[i] == hs[i] by {}
    assert(hs[n] == h);
    // What holds of the whole list holds of its prefix.
    if enabled_headers_valid(hs) && enabled_names_distinct(hs) {
        assert forall|i: int| 0 <= i < p.len() && (#[trigger] p[i]).enabled implies header_pair_error(
            p[i].key,
            p[i].value,
        ) is None by {
            assert(hs[i] == p[i]);
        }
        assert forall|i: int, j: int|
            0 <= i < j < p.len() && (#[trigger] p[i]).enabled && (#[trigger] p[j]).enabled implies lowercase(p[i].key)
                != lowercase(p[j].key) by {
            assert(hs[i] == p[i] && hs[j] == p[j]);
        }
    }
    if !h.enabled {
        if enabled_headers_valid(p) && enabled_names_distinct(p) {
            assert forall|i: int| 0 <= i < hs.len() && (#[trigger] hs[i]).enabled implies header_pair_error(
                hs[i].key,
                hs[i].value,
            ) is None by {
                assert(p[i] == hs[i]);
            }
            assert forall|i: int, j: int|
                0 <= i < j < hs.len() && (#[trigger] hs[i]).enabled && (#[trigger] hs[j]).enabled implies lowercase(
                hs[i].key,
            ) != lowercase(hs[j].key) by {
                assert(p[i] == hs[i] && p[j] == hs[j]);
            }
            assert forall|lk: Seq<char>| #[trigger] seen.contains(lk) <==> exists|i: int|
                0 <= i < hs.len() && (#[trigger] hs[i]).enabled && lowercase(hs[i].key) == lk by {
                if exists|i: int| 0 <= i < hs.len() && (#[trigger] hs[i]).enabled && lowercase(hs[i].key) == lk {
                    let i = choose|i: int| 0 <= i < hs.len() && (#[trigger] hs[i]).enabled && lowercase(hs[i].key) == lk;
                    assert(p[i] == hs[i]);
                }
                if seen.contains(lk) {
                    let i = choose|i: int| 0 <= i < p.len() && (#[trigger] p[i]).enabled && lowercase(p[i].key) == lk;
                    assert(p[i] == hs[i]);
                }
            }
        }
    } else {
        match header_pair_error(h.key, h.value) {
            Some(m) => {
                assert(!enabled_headers_valid(hs));
            },
            None => {
                let lk = lowercase(h.key);
                if seen.contains(lk) {
                    if errs.len() == 0 {
                        let i = choose|i: int| 0 <= i < p.len() && (#[trigger] p[i]).enabled && lowercase(p[i].key) == lk;
                        assert(hs[i] == p[i]);
                        assert(!enabled_names_distinct(hs));
                    }
                } else if errs.len() == 0 {
                    assert forall|i: int| 0 <= i < hs.len() && (#[trigger] hs[i]).enabled implies header_pair_error(
                        hs[i].key,
                        hs[i].value,
                    ) is None by {
                        if i < n {
                            assert(p[i] == hs[i]);
                        }
                    }
                    assert forall|i: int, j: int|
                        0 <= i < j < hs.len() && (#[trigger] hs[i]).enabled && (#[trigger] hs[j]).enabled implies lowercase(
                        hs[i].key,
                    ) != lowercase(hs[j].key) by {
                        assert(p[i] == hs[i]);
                        if j < n {
                            assert(p[j] == hs[j]);
                        } else {
                            if lowercase(hs[i].key) == lk {
                                assert(seen.contains(lk));
                            }
                        }
                    }
                    let seen2 = seen.push(lk);
                    assert forall|l: Seq<char>| #[trigger] seen2.contains(l) <==> exists|i: int|
                        0 <= i < hs.len() && (#[trigger] hs[i]).enabled && lowercase(hs[i].key) == l by {
                        if seen2.contains(l) {
                            if l == lk {
                                assert(hs[n].enabled && lowercase(hs[n].key) == l);
                            } else {
                                assert(seen.contains(l)) by {
                                    let k = choose|k: int| 0 <= k < seen2.len() && seen2[k] == l;
                                    assert(k < seen.len());
                                    assert(seen[k] == l);
                                }
                                let i = choose|i: int| 0 <= i < p.len() && (#[trigger] p[i]).enabled && lowercase(p[i].key) == l;
                                assert(p[i] == hs[i]);
                            }
                        }
                        if exists|i: int| 0 <= i < hs.len() && (#[trigger] hs[i]).enabled && lowercase(hs[i].key) == l {
                            let i = choose|i: int| 0 <= i < hs.len() && (#[trigger] hs[i]).enabled && lowercase(hs[i].key) == l;
                            if i < n {
                                assert(p[i] == hs[i]);
                                assert(seen.contains(l));
                                let k = choose|k: int| 0 <= k < seen.len() && seen[k] == l;
                                assert(seen2[k] == l);
                            } else {
                                assert(seen2[seen.len() as int] == lk);
                            }
                        }
                    }
                }
            },
        }
    }
}

/// A list of headers passes validation exactly when every enabled header is valid
/// on its own and no two enabled headers have the same name, ignoring case;
/// disabled headers play no part.
pub proof fn law_headers_valid_exactly(hs: Seq<PairView>)
    ensures
        headers_error(hs) is None <==> enabled_headers_valid(hs) && enabled_names_distinct(hs),
{
    lemma_header_scan(hs);
}

/// What a prefix of the headers has reported or seen stays reported or seen in the
/// whole list.
proof fn lemma_scan_grows(hs: Seq<PairView>, k: int)
    requires
        0 <= k <= hs.len(),
    ensures
        forall|x: Seq<char>| #[trigger] header_scan(hs.take(k)).0.contains(x) ==> header_scan(hs).0.contains(x),
        forall|x: Seq<char>| #[trigger] header_scan(hs.take(k)).1.contains(x) ==> header_scan(hs).1.contains(x),
    decreases hs.len(),
{
    if k == hs.len() {
        assert(hs.take(k) =~= hs);
    } else {
        let p = hs.drop_last();
        lemma_scan_grows(p, k);
        assert(p.take(k) =~= hs.take(k));
        let (errs, seen) = header_scan(p);
        assert forall|x: Seq<char>| errs.contains(x) implies header_scan(hs).0.contains(x) by {
            let i = choose|i: int| 0 <= i < errs.len() && errs[i] == x;
            assert(header_scan(hs).0[i] == x);
        }
        assert forall|x: Seq<char>| seen.contains(x) implies header_scan(hs).1.contains(x) by {
            let i = choose|i: int| 0 <= i < seen.len() && seen[i] == x;
            assert(header_scan(hs).1[i] == x);
        }
    }
}

/// Once an enabled, valid header has been scanned, its lower-case name is seen.
proof fn lemma_valid_header_seen(hs: Seq<PairView>, i: int)
    requires
        0 <= i < hs.len(),
        hs[i].enabled,
        header_pair_error(hs[i].key, hs[i].value) is None,
    ensures
        header_scan(hs.take(i + 1)).1.contains(lowercase(hs[i].key)),
{
    let q = hs.take(i + 1);
    assert(q.drop_last() =~= hs.take(i));
    assert(q.last() == hs[i]);
    let seen = header_scan(hs.take(i)).1;
    let lk = lowercase(hs[i].key);
    if !seen.contains(lk) {
        assert(seen.push(lk)[seen.len() as int] == lk);
    }
}

/// Every failure is listed in the report, not only the first: the error of each
/// enabled header that is invalid on its own, and a duplicate error for each
/// enabled, valid header whose name (ignoring case) an earlier enabled, valid header
/// already has.
pub proof fn law_headers_every_failure_listed(hs: Seq<PairView>)
    ensures
        forall|j: int|
            0 <= j < hs.len() && (#[trigger] hs[j]).enabled ==> (header_pair_error(hs[j].key, hs[j].value) matches Some(m)
                ==> header_scan(hs).0.contains(error_text(ErrorView::InvalidHeader(m)))),
        forall|i: int, j: int|
            0 <= i < j < hs.len() && (#[trigger] hs[i]).enabled && (#[trigger] hs[j]).enabled && header_pair_error(
                hs[i].key,
                hs[i].value,
            ) is None && header_pair_error(hs[j].key, hs[j].value) is None && lowercase(hs[i].key) == lowercase(
                hs[j].key,
            ) ==> header_scan(hs).0.contains("Duplicate header detected: '"@ + hs[j].key + "'"@),
{
    assert forall|j: int|
        0 <= j < hs.len() && (#[trigger] hs[j]).enabled implies (header_pair_error(hs[j].key, hs[j].value) matches Some(m)
            ==> header_scan(hs).0.contains(error_text(ErrorView::InvalidHeader(m)))) by {
        if let Some(m) = header_pair_error(hs[j].key, hs[j].value) {
            let q = hs.take(j + 1);
            assert(q.drop_last() =~= hs.take(j));
            assert(q.last() == hs[j]);
            let errs = header_scan(hs.take(j)).0;
            let e = error_text(ErrorView::InvalidHeader(m));
            assert(header_scan(q).0 == errs.push(e));
            assert(header_scan(q).0[errs.len() as int] == e);
            assert(header_scan(q).0.contains(e));
            lemma_scan_grows(hs, j + 1);
        }
    }
    assert forall|i: int, j: int|
        0 <= i < j < hs.len() && (#[trigger] hs[i]).enabled && (#[trigger] hs[j]).enabled && header_pair_error(
            hs[i].key,
            hs[i].value,
        ) is None && header_pair_error(hs[j].key, hs[j].value) is None && lowercase(hs[i].key) == lowercase(
            hs[j].key,
        ) implies header_scan(hs).0.contains("Duplicate header detected: '"@ + hs[j].key + "'"@) by {
        let lk = lowercase(hs[j].key);
        lemma_valid_header_seen(hs, i);
        let pj = hs.take(j);
        assert(pj.take(i + 1) =~= hs.take(i + 1));
        lemma_scan_grows(pj, i + 1);
        assert(header_scan(pj).1.contains(lk));
        let q = hs.take(j + 1);
        assert(q.drop_last() =~= pj);
        assert(q.last() == hs[j]);
        let errs = header_scan(pj).0;
        let e = "Duplicate header detected: '"@ + hs[j].key + "'"@;
        assert(header_scan(q).0 == errs.push(e));
        assert(header_scan(q).0[errs.len() as int] == e);
        assert(header_scan(q).0.contains(e));
        lemma_scan_grows(hs, j + 1);
    }
}

} // verus!
