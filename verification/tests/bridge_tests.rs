use reqforge::app_state::KeyValueRow;
use reqforge::bridge::{
    body_string_to_body_type, body_type_to_string, build_request_from_components, key_value_pair_to_row,
    key_value_pairs_to_rows, key_value_row_to_pair, key_value_rows_to_pairs,
};
use reqforge::models::{BodyType, HttpMethod, KeyValuePair, RawContentType};

fn new_id() -> u128 {
    uuid::Uuid::new_v4().as_u128()
}

#[test]
fn test_key_value_row_to_pair() {
    let row = KeyValueRow {
        id: new_id(),
        enabled: true,
        key: "Content-Type".to_string(),
        value: "application/json".to_string(),
    };
    let pair = key_value_row_to_pair(&row);
    assert_eq!(pair.key, "Content-Type");
    assert_eq!(pair.value, "application/json");
    assert!(pair.enabled);
    assert!(pair.description.is_none());
}

#[test]
fn test_key_value_pair_to_row() {
    let pair = KeyValuePair {
        key: "Authorization".to_string(),
        value: "Bearer token".to_string(),
        enabled: true,
        description: Some("Auth header".to_string()),
    };
    let row = key_value_pair_to_row(&pair);
    assert_eq!(row.key, "Authorization");
    assert_eq!(row.value, "Bearer token");
    assert!(row.enabled);
}

#[test]
fn test_key_value_rows_to_pairs_filters_disabled() {
    let rows = vec![
        KeyValueRow { id: new_id(), enabled: true, key: "Accept".to_string(), value: "application/json".to_string() },
        KeyValueRow {
            id: new_id(),
            enabled: false,
            key: "X-Disabled".to_string(),
            value: "should-not-appear".to_string(),
        },
    ];
    let pairs = key_value_rows_to_pairs(&rows);
    assert_eq!(pairs.len(), 1);
    assert_eq!(pairs[0].key, "Accept");
}

#[test]
fn test_key_value_pairs_to_rows() {
    let pairs = vec![
        KeyValuePair { key: "Accept".to_string(), value: "application/json".to_string(), enabled: true, description: None },
        KeyValuePair { key: "Content-Type".to_string(), value: "text/plain".to_string(), enabled: true, description: None },
    ];
    let rows = key_value_pairs_to_rows(&pairs);
    assert_eq!(rows.len(), 2);
    assert_eq!(rows[0].key, "Accept");
    assert_eq!(rows[1].key, "Content-Type");
}

#[test]
fn test_body_string_to_body_type_empty() {
    let body = body_string_to_body_type("".to_string(), RawContentType::Json);
    assert!(matches!(body, BodyType::NoBody));
}

#[test]
fn test_body_string_to_body_type_with_content() {
    let body = body_string_to_body_type("{\"key\":\"value\"}".to_string(), RawContentType::Json);
    assert!(matches!(body, BodyType::Raw { .. }));
    if let BodyType::Raw { content, content_type } = body {
        assert_eq!(content, "{\"key\":\"value\"}");
        assert!(matches!(content_type, RawContentType::Json));
    }
}

#[test]
fn bridge_test_body_string_to_body_type_empty() {
    let body = body_string_to_body_type("".to_string(), RawContentType::Json);
    assert!(matches!(body, BodyType::NoBody));
}

#[test]
fn bridge_test_body_string_to_body_type_with_content() {
    let body = body_string_to_body_type("{\"key\":\"value\"}".to_string(), RawContentType::Json);
    assert!(matches!(body, BodyType::Raw { .. }));
    if let BodyType::Raw { content, content_type } = body {
        assert_eq!(content, "{\"key\":\"value\"}");
        assert!(matches!(content_type, RawContentType::Json));
    }
}

#[test]
fn bridge_test_body_type_to_string_none() {
    let result = body_type_to_string(&BodyType::NoBody);
    assert!(result.is_none());
}

#[test]
fn bridge_test_body_type_to_string_raw() {
    let body = BodyType::Raw { content: "test content".to_string(), content_type: RawContentType::Text };
    let result = body_type_to_string(&body);
    assert_eq!(result, Some("test content".to_string()));
}

#[test]
fn bridge_test_body_type_to_string_form() {
    let pairs = vec![
        KeyValuePair { key: "name".to_string(), value: "John Doe".to_string(), enabled: true, description: None },
        KeyValuePair { key: "age".to_string(), value: "30".to_string(), enabled: true, description: None },
    ];
    let body = BodyType::FormUrlEncoded(pairs);
    let result = body_type_to_string(&body);
    assert!(result.is_some());
    let result_str = result.unwrap();
    assert!(result_str.contains("name="));
    assert!(result_str.contains("age="));
}

#[test]
fn bridge_test_build_request_from_components() {
    let request_id = new_id();
    let headers = vec![KeyValuePair {
        key: "Accept".to_string(),
        value: "application/json".to_string(),
        enabled: true,
        description: None,
    }];
    let params = vec![KeyValuePair { key: "page".to_string(), value: "1".to_string(), enabled: true, description: None }];
    let request = build_request_from_components(
        request_id,
        "Test Request".to_string(),
        HttpMethod::GET,
        "https://api.example.com".to_string(),
        headers,
        params,
        BodyType::NoBody,
    );
    assert_eq!(request.id, request_id);
    assert_eq!(request.name, "Test Request");
    assert_eq!(request.method, HttpMethod::GET);
    assert_eq!(request.url, "https://api.example.com");
    assert_eq!(request.headers.len(), 1);
    assert_eq!(request.query_params.len(), 1);
}

// The exact URL encoding of a form, disabled fields left out.
#[test]
fn form_body_is_percent_encoded_exactly() {
    let pairs = vec![
        KeyValuePair { key: "name".to_string(), value: "John Doe".to_string(), enabled: true, description: None },
        KeyValuePair { key: "skip".to_string(), value: "x".to_string(), enabled: false, description: None },
        KeyValuePair { key: "q&a".to_string(), value: "é~-._".to_string(), enabled: true, description: None },
    ];
    let result = body_type_to_string(&BodyType::FormUrlEncoded(pairs)).unwrap();
    assert_eq!(result, "name=John%20Doe&q%26a=%C3%A9~-._");
}

#[test]
fn form_without_enabled_fields_gives_no_text() {
    let pairs = vec![KeyValuePair { key: "a".to_string(), value: "b".to_string(), enabled: false, description: None }];
    assert!(body_type_to_string(&BodyType::FormUrlEncoded(pairs)).is_none());
}

#[test]
fn rows_with_nothing_in_them_are_dropped() {
    let rows = vec![
        KeyValueRow { id: 1, enabled: true, key: String::new(), value: String::new() },
        KeyValueRow { id: 2, enabled: true, key: String::new(), value: "v".to_string() },
    ];
    let pairs = key_value_rows_to_pairs(&rows);
    assert_eq!(pairs.len(), 1);
    assert_eq!(pairs[0].value, "v");
}

#[test]
fn pair_to_row_and_back_drops_only_the_description() {
    let pair = KeyValuePair {
        key: "X-Api".to_string(),
        value: "secret".to_string(),
        enabled: false,
        description: Some("note".to_string()),
    };
    let back = key_value_row_to_pair(&key_value_pair_to_row(&pair));
    assert_eq!(back.key, "X-Api");
    assert_eq!(back.value, "secret");
    assert!(!back.enabled);
    assert_eq!(back.description, None);
}

#[test]
fn raw_body_text_round_trip() {
    let body = BodyType::Raw { content: "{\"a\":1}".to_string(), content_type: RawContentType::Xml };
    let text = body_type_to_string(&body).unwrap();
    match body_string_to_body_type(text, RawContentType::Xml) {
        BodyType::Raw { content, content_type } => {
            assert_eq!(content, "{\"a\":1}");
            assert_eq!(content_type, RawContentType::Xml);
        },
        _ => panic!("expected a raw body"),
    }
    assert!(matches!(body_string_to_body_type(String::new(), RawContentType::Json), BodyType::NoBody));
}
