use reqforge::models::{BodyType, HttpMethod, KeyValuePair, RawContentType, RequestDefinition};
use reqforge::validation::{
    method_supports_body, validate_body, validate_header_pair, validate_headers, validate_request, validate_url,
    ValidationError,
};

fn kv(key: &str, value: &str, enabled: bool) -> KeyValuePair {
    KeyValuePair { key: key.to_string(), value: value.to_string(), enabled, description: None }
}

#[test]
fn test_validate_url_valid_https() {
    assert!(validate_url("https://example.com").is_ok());
    assert!(validate_url("https://api.example.com/v1/users").is_ok());
    assert!(validate_url("https://example.com:8080/path").is_ok());
}

#[test]
fn test_validate_url_valid_http() {
    assert!(validate_url("http://example.com").is_ok());
    assert!(validate_url("http://localhost:3000").is_ok());
}

#[test]
fn test_validate_url_empty() {
    let result = validate_url("");
    assert!(result.is_err());
    assert!(result.unwrap_err().to_string().contains("cannot be empty"));
}

#[test]
fn test_validate_url_invalid_scheme() {
    let result = validate_url("ftp://example.com");
    assert!(result.is_err());
    assert!(result.unwrap_err().to_string().contains("scheme"));
}

#[test]
fn test_validate_url_no_scheme() {
    let result = validate_url("example.com");
    assert!(result.is_err());
    assert!(result.unwrap_err().to_string().contains("Failed to parse"));
}

#[test]
fn test_validate_url_no_host() {
    let result = validate_url("https://");
    assert!(result.is_err());
    assert!(result.unwrap_err().to_string().contains("host"));
}

#[test]
fn test_validate_header_pair_valid() {
    assert!(validate_header_pair("Content-Type", "application/json").is_ok());
    assert!(validate_header_pair("Authorization", "Bearer token123").is_ok());
    assert!(validate_header_pair("X-Custom-Header", "custom value").is_ok());
}

#[test]
fn test_validate_header_pair_empty_key() {
    let result = validate_header_pair("", "value");
    assert!(result.is_err());
    assert!(result.unwrap_err().to_string().contains("cannot be empty"));
}

#[test]
fn test_validate_header_pair_invalid_characters() {
    let result = validate_header_pair("Invalid:Header", "value");
    assert!(result.is_err());
    assert!(result.unwrap_err().to_string().contains("invalid character"));
}

#[test]
fn test_validate_header_pair_control_characters() {
    let result = validate_header_pair("Content-Type", "value\nwith\nnewlines");
    assert!(result.is_err());
    assert!(result.unwrap_err().to_string().contains("control character"));
}

#[test]
fn test_validate_headers_valid() {
    let headers = vec![kv("Content-Type", "application/json", true), kv("Authorization", "Bearer token", true)];
    assert!(validate_headers(&headers).is_ok());
}

#[test]
fn test_validate_headers_empty() {
    let headers: Vec<KeyValuePair> = vec![];
    assert!(validate_headers(&headers).is_ok());
}

#[test]
fn test_validate_headers_duplicate() {
    let headers = vec![kv("Content-Type", "application/json", true), kv("content-type", "text/plain", true)];
    let result = validate_headers(&headers);
    assert!(result.is_err());
    assert!(result.unwrap_err().to_string().contains("Duplicate"));
}

#[test]
fn test_validate_headers_disabled_not_checked() {
    let headers = vec![kv("Content-Type", "application/json", true), kv("", "value", false)];
    assert!(validate_headers(&headers).is_ok());
}

#[test]
fn test_validate_body_none() {
    assert!(validate_body(&HttpMethod::GET, &BodyType::NoBody).is_ok());
    assert!(validate_body(&HttpMethod::POST, &BodyType::NoBody).is_ok());
}

#[test]
fn test_validate_body_json_valid() {
    let body = BodyType::Raw { content: "{\"key\":\"value\"}".into(), content_type: RawContentType::Json };
    assert!(validate_body(&HttpMethod::POST, &body).is_ok());
}

#[test]
fn test_validate_body_json_invalid() {
    let body = BodyType::Raw { content: "{invalid json}".into(), content_type: RawContentType::Json };
    let result = validate_body(&HttpMethod::POST, &body);
    assert!(result.is_err());
    assert!(result.unwrap_err().to_string().contains("Invalid JSON"));
}

#[test]
fn test_validate_body_xml_valid() {
    let body = BodyType::Raw {
        content: "<root><element>value</element></root>".into(),
        content_type: RawContentType::Xml,
    };
    assert!(validate_body(&HttpMethod::POST, &body).is_ok());
}

#[test]
fn test_validate_body_xml_invalid() {
    let body = BodyType::Raw { content: "not xml".into(), content_type: RawContentType::Xml };
    let result = validate_body(&HttpMethod::POST, &body);
    assert!(result.is_err());
    assert!(result.unwrap_err().to_string().contains("well-formed"));
}

#[test]
fn test_validate_body_empty_content() {
    let body = BodyType::Raw { content: "".into(), content_type: RawContentType::Text };
    let result = validate_body(&HttpMethod::POST, &body);
    assert!(result.is_err());
    assert!(result.unwrap_err().to_string().contains("empty"));
}

#[test]
fn test_validate_body_get_with_body() {
    let body = BodyType::Raw { content: "data".into(), content_type: RawContentType::Text };
    let result = validate_body(&HttpMethod::GET, &body);
    assert!(result.is_err());
    assert!(result.unwrap_err().to_string().contains("does not support"));
}

#[test]
fn test_validate_body_form_valid() {
    let pairs = vec![kv("field1", "value1", true), kv("field2", "value2", true)];
    let body = BodyType::FormUrlEncoded(pairs);
    assert!(validate_body(&HttpMethod::POST, &body).is_ok());
}

#[test]
fn test_validate_body_form_empty_key() {
    let pairs = vec![kv("", "value", true)];
    let body = BodyType::FormUrlEncoded(pairs);
    let result = validate_body(&HttpMethod::POST, &body);
    assert!(result.is_err());
    assert!(result.unwrap_err().to_string().contains("cannot be empty"));
}

#[test]
fn test_validate_body_form_no_pairs() {
    let pairs = vec![];
    let body = BodyType::FormUrlEncoded(pairs);
    let result = validate_body(&HttpMethod::POST, &body);
    assert!(result.is_err());
    assert!(result.unwrap_err().to_string().contains("at least one"));
}

#[test]
fn test_validate_request_valid_get() {
    let req = RequestDefinition::new("Test", HttpMethod::GET, "https://api.example.com");
    assert!(validate_request(&req).is_ok());
}

#[test]
fn test_validate_request_valid_post() {
    let mut req = RequestDefinition::new("Test", HttpMethod::POST, "https://api.example.com");
    req.body = BodyType::Raw { content: "{\"key\":\"value\"}".into(), content_type: RawContentType::Json };
    assert!(validate_request(&req).is_ok());
}

#[test]
fn test_validate_request_invalid_url() {
    let req = RequestDefinition::new("Test", HttpMethod::GET, "not a url");
    let result = validate_request(&req);
    assert!(result.is_err());
}

#[test]
fn test_validate_request_invalid_header() {
    let mut req = RequestDefinition::new("Test", HttpMethod::GET, "https://api.example.com");
    req.headers.push(kv("Bad:Header", "value", true));
    let result = validate_request(&req);
    assert!(result.is_err());
}

#[test]
fn test_validate_request_invalid_json_body() {
    let mut req = RequestDefinition::new("Test", HttpMethod::POST, "https://api.example.com");
    req.body = BodyType::Raw { content: "{bad json}".into(), content_type: RawContentType::Json };
    let result = validate_request(&req);
    assert!(result.is_err());
}

#[test]
fn test_validate_request_multiple_errors() {
    let mut req = RequestDefinition::new("Test", HttpMethod::POST, "not a url");
    req.body = BodyType::Raw { content: "{bad json}".into(), content_type: RawContentType::Json };
    let result = validate_request(&req);
    assert!(result.is_err());
    if let ValidationError::MultipleErrors(errors) = result.unwrap_err() {
        assert!(errors.len() >= 2);
    } else {
        panic!("Expected MultipleErrors variant");
    }
}

#[test]
fn test_method_supports_body() {
    assert!(method_supports_body(&HttpMethod::POST));
    assert!(method_supports_body(&HttpMethod::PUT));
    assert!(method_supports_body(&HttpMethod::PATCH));
    assert!(!method_supports_body(&HttpMethod::GET));
    assert!(!method_supports_body(&HttpMethod::DELETE));
    assert!(!method_supports_body(&HttpMethod::HEAD));
    assert!(!method_supports_body(&HttpMethod::OPTIONS));
}

#[test]
fn test_validation_error_helpers() {
    let err = ValidationError::invalid_url("test message");
    assert!(err.to_string().contains("test message"));
    let err = ValidationError::invalid_header("test header");
    assert!(err.to_string().contains("test header"));
    let err = ValidationError::invalid_body("test body");
    assert!(err.to_string().contains("test body"));
    let err = ValidationError::invalid_method("test method");
    assert!(err.to_string().contains("test method"));
}

// Exact texts of the error messages.

#[test]
fn validation_error_texts_are_exact() {
    assert_eq!(ValidationError::invalid_url("m").to_string(), "URL validation error: m");
    assert_eq!(ValidationError::invalid_header("m").to_string(), "Header validation error: m");
    assert_eq!(ValidationError::invalid_body("m").to_string(), "Body validation error: m");
    assert_eq!(ValidationError::invalid_method("m").to_string(), "Method validation error: m");
    let e = ValidationError::multiple_errors(vec!["a".to_string(), "b".to_string()]);
    assert_eq!(e.to_string(), "Request validation failed:\n  - a\n  - b");
}

#[test]
fn header_name_with_space_is_refused() {
    assert!(validate_header_pair("Bad Header", "v").is_err());
    assert!(validate_header_pair("Good-Header", "tab\tis a control character").is_err());
    assert!(validate_header_pair("Good-Header", "héllo wörld").is_ok());
}

#[test]
fn disabled_duplicate_header_is_ignored() {
    let headers = vec![kv("Accept", "a", true), kv("accept", "b", false)];
    assert!(validate_headers(&headers).is_ok());
}

#[test]
fn blank_text_body_is_refused_for_post() {
    let body = BodyType::Raw { content: "   ".into(), content_type: RawContentType::Text };
    assert!(validate_body(&HttpMethod::POST, &body).is_err());
}

#[test]
fn headers_pass_exactly_when_enabled_ones_are_valid_and_distinct() {
    assert!(validate_headers(&[kv("Accept", "a", true), kv("accept", "b", false), kv("Bad Name", "x", false)]).is_ok());
    assert!(validate_headers(&[kv("Accept", "a", true), kv("ACCEPT", "b", true)]).is_err());
    assert!(validate_headers(&[kv("Accept", "a", true), kv("Bad Name", "x", true)]).is_err());
    assert!(validate_headers(&[]).is_ok());
}

#[test]
fn every_header_failure_is_listed() {
    let headers = vec![
        kv("", "a", true),
        kv("Accept", "a", true),
        kv("Bad Name", "x", true),
        kv("ACCEPT", "b", true),
        kv("", "ignored", false),
    ];
    let text = validate_headers(&headers).unwrap_err().to_string();
    assert!(text.contains("Multiple header validation errors:"));
    assert!(text.contains("Header validation error: Header name cannot be empty"));
    assert!(text.contains("Header validation error: Header name contains invalid character ' ': Bad Name"));
    assert!(text.contains("Duplicate header detected: 'ACCEPT'"));
    assert!(!text.contains("ignored"));
}
