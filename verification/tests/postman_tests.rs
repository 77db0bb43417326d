use reqforge::import_export::ImportErrorKind;
use reqforge::json_value::JsonValue;
use reqforge::models::{BodyType, HttpMethod, RawContentType};
use reqforge::postman::parse_postman_collection;

fn s(x: &str) -> JsonValue {
    JsonValue::Str(x.to_string())
}

fn obj(fields: Vec<(&str, JsonValue)>) -> JsonValue {
    JsonValue::Object(fields.into_iter().map(|(k, v)| (k.to_string(), v)).collect())
}

fn arr(items: Vec<JsonValue>) -> JsonValue {
    JsonValue::Array(items)
}

fn info(name: &str) -> JsonValue {
    obj(vec![
        ("name", s(name)),
        ("schema", s("https://schema.getpostman.com/json/collection/v2.1.0/collection.json")),
    ])
}

#[test]
fn test_parse_simple_postman_collection() {
    let postman_json = obj(vec![
        ("info", info("Test Collection")),
        (
            "item",
            arr(vec![obj(vec![
                ("name", s("Get Users")),
                (
                    "request",
                    obj(vec![
                        ("method", s("GET")),
                        (
                            "url",
                            obj(vec![
                                ("raw", s("https://api.example.com/users")),
                                ("protocol", s("https")),
                                ("host", arr(vec![s("api"), s("example"), s("com")])),
                                ("path", arr(vec![s("users")])),
                            ]),
                        ),
                        ("header", arr(vec![])),
                    ]),
                ),
            ])]),
        ),
    ]);
    let result = parse_postman_collection(&postman_json);
    assert!(result.is_ok());
    let collection = result.unwrap();
    assert_eq!(collection.name, "Test Collection");
    assert_eq!(collection.requests.len(), 1);
}

#[test]
fn test_parse_postman_request_with_body() {
    let postman_json = obj(vec![
        ("info", info("Test Collection")),
        (
            "item",
            arr(vec![obj(vec![
                ("name", s("Create User")),
                (
                    "request",
                    obj(vec![
                        ("method", s("POST")),
                        ("url", s("https://api.example.com/users")),
                        ("header", arr(vec![obj(vec![("key", s("Content-Type")), ("value", s("application/json"))])])),
                        ("body", obj(vec![("mode", s("raw")), ("raw", s("{\"name\":\"John Doe\"}"))])),
                    ]),
                ),
            ])]),
        ),
    ]);
    let result = parse_postman_collection(&postman_json);
    assert!(result.is_ok());
    let collection = result.unwrap();
    assert_eq!(collection.requests.len(), 1);
    let request = collection.requests.values().next().unwrap();
    assert_eq!(request.name, "Create User");
    assert_eq!(request.method, HttpMethod::POST);
    assert_eq!(request.headers.len(), 1);
    assert!(matches!(request.body, BodyType::Raw { .. }));
}

// Further cases of the importer.

#[test]
fn url_is_built_from_parts_without_raw() {
    let doc = obj(vec![
        ("info", info("C")),
        (
            "item",
            arr(vec![obj(vec![(
                "request",
                obj(vec![(
                    "url",
                    obj(vec![
                        ("host", arr(vec![s("api"), s("x"), JsonValue::Null, s("io")])),
                        ("path", arr(vec![s("v1"), s("items")])),
                        ("query", arr(vec![obj(vec![("key", s("page")), ("value", s("2")), ("disabled", JsonValue::Bool(true))])])),
                    ]),
                )]),
            )])]),
        ),
    ]);
    let c = parse_postman_collection(&doc).unwrap();
    let r = c.requests.values().next().unwrap();
    assert_eq!(r.url, "https://api.x.io/v1/items");
    assert_eq!(r.name, "Unnamed Request");
    assert_eq!(r.method, HttpMethod::GET);
    assert_eq!(r.query_params.len(), 1);
    assert!(!r.query_params[0].enabled);
}

#[test]
fn folders_are_walked_and_only_top_requests_enter_the_tree() {
    let req = |name: &str| obj(vec![("name", s(name)), ("request", obj(vec![("method", s("delete")), ("url", s("u"))]))]);
    let doc = obj(vec![
        ("info", info("C")),
        ("item", arr(vec![req("a"), obj(vec![("name", s("F")), ("item", arr(vec![req("b"), req("c")]))]), obj(vec![("name", s("skip"))])])),
    ]);
    let c = parse_postman_collection(&doc).unwrap();
    assert_eq!(c.requests.len(), 3);
    assert_eq!(c.tree.len(), 1);
    assert!(c.requests.values().all(|r| r.method == HttpMethod::DELETE));
}

#[test]
fn form_data_skips_files_and_languages_pick_types() {
    let body = obj(vec![
        ("mode", s("formdata")),
        (
            "formdata",
            arr(vec![
                obj(vec![("key", s("a")), ("value", s("1"))]),
                obj(vec![("key", s("f")), ("type", s("file"))]),
                obj(vec![("key", s("")), ("value", s("x"))]),
            ]),
        ),
    ]);
    let doc = obj(vec![
        ("info", info("C")),
        ("item", arr(vec![obj(vec![("request", obj(vec![("method", s("POST")), ("body", body)]))])])),
    ]);
    let c = parse_postman_collection(&doc).unwrap();
    match &c.requests.values().next().unwrap().body {
        BodyType::FormUrlEncoded(p) => {
            assert_eq!(p.len(), 1);
            assert_eq!(p[0].key, "a");
        }
        _ => panic!("expected a form body"),
    }
    let raw = obj(vec![
        ("mode", s("raw")),
        ("raw", s("<a/>")),
        ("options", obj(vec![("raw", obj(vec![("language", s("xml"))]))])),
    ]);
    let doc2 = obj(vec![
        ("info", info("C")),
        ("item", arr(vec![obj(vec![("request", obj(vec![("method", s("PUT")), ("body", raw)]))])])),
    ]);
    let c2 = parse_postman_collection(&doc2).unwrap();
    assert!(matches!(
        &c2.requests.values().next().unwrap().body,
        BodyType::Raw { content_type: RawContentType::Xml, .. }
    ));
}

#[test]
fn postman_errors_are_reported() {
    let e = parse_postman_collection(&obj(vec![])).unwrap_err();
    assert_eq!(*e.kind(), ImportErrorKind::PostmanFormat);
    assert_eq!(e.message(), "Missing 'info' field in Postman collection");
    let e = parse_postman_collection(&obj(vec![("info", obj(vec![]))])).unwrap_err();
    assert_eq!(e.message(), "Missing 'name' field in Postman collection info");
    let e = parse_postman_collection(&obj(vec![("info", info("C"))])).unwrap_err();
    assert_eq!(e.message(), "Missing 'item' field in Postman collection");
    let bad_method = obj(vec![
        ("info", info("C")),
        ("item", arr(vec![obj(vec![("request", obj(vec![("method", s("FETCH"))]))])])),
    ]);
    let e = parse_postman_collection(&bad_method).unwrap_err();
    assert_eq!(*e.kind(), ImportErrorKind::Validation);
    assert_eq!(e.message(), "Unknown HTTP method: FETCH");
    let bad_folder = obj(vec![("info", info("C")), ("item", arr(vec![obj(vec![("item", s("x"))])]))]);
    let e = parse_postman_collection(&bad_folder).unwrap_err();
    assert_eq!(e.message(), "Invalid 'item' field in Postman folder");
    assert_eq!(e.to_string(), "PostmanFormat: Invalid 'item' field in Postman folder");
}

#[test]
fn postman_text_is_parsed_then_imported() {
    let text = r#"{"info": {"name": "From Text"}, "item": [{"name": "Ping", "request": {"method": "GET", "url": "https://e.com/ping"}}]}"#;
    let c = reqforge::postman::import_postman_text(text).unwrap();
    assert_eq!(c.name, "From Text");
    assert_eq!(c.requests.len(), 1);
    let e = reqforge::postman::import_postman_text("{not json").unwrap_err();
    assert_eq!(*e.kind(), ImportErrorKind::Deserialization);
    assert!(e.message().starts_with("Failed to parse Postman JSON: "));
    let e = reqforge::postman::import_postman_text("{}").unwrap_err();
    assert_eq!(e.message(), "Missing 'info' field in Postman collection");
}
