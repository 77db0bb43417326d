use reqforge::collection::CollectionItem;
use reqforge::import_export::ImportErrorKind;
use reqforge::json_value::JsonValue;
use reqforge::models::{BodyType, HttpMethod, RawContentType, RequestDefinition};
use reqforge::openapi::parse_openapi_spec;

fn s(x: &str) -> JsonValue {
    JsonValue::Str(x.to_string())
}

fn obj(fields: Vec<(&str, JsonValue)>) -> JsonValue {
    JsonValue::Object(fields.into_iter().map(|(k, v)| (k.to_string(), v)).collect())
}

fn arr(items: Vec<JsonValue>) -> JsonValue {
    JsonValue::Array(items)
}

fn info(title: &str) -> JsonValue {
    obj(vec![("title", s(title)), ("version", s("1.0.0"))])
}

fn ok_response(code: &str, text: &str) -> JsonValue {
    obj(vec![(code, obj(vec![("description", s(text))]))])
}

fn only_request(doc: &JsonValue) -> RequestDefinition {
    let c = parse_openapi_spec(doc).unwrap();
    assert_eq!(c.requests.len(), 1);
    c.requests.values().next().unwrap().clone()
}

fn simple_doc(path: &str, method: &str, operation: JsonValue) -> JsonValue {
    obj(vec![
        ("openapi", s("3.0.0")),
        ("info", info("API")),
        ("paths", obj(vec![(path, obj(vec![(method, operation)]))])),
    ])
}

#[test]
fn test_parse_simple_openapi_spec() {
    let openapi_json = obj(vec![
        ("openapi", s("3.0.0")),
        ("info", info("Sample API")),
        ("servers", arr(vec![obj(vec![("url", s("https://api.example.com/v1"))])])),
        (
            "paths",
            obj(vec![(
                "/users",
                obj(vec![
                    (
                        "get",
                        obj(vec![
                            ("summary", s("List all users")),
                            ("responses", ok_response("200", "Successful response")),
                        ]),
                    ),
                    (
                        "post",
                        obj(vec![
                            ("summary", s("Create user")),
                            (
                                "requestBody",
                                obj(vec![(
                                    "content",
                                    obj(vec![(
                                        "application/json",
                                        obj(vec![(
                                            "schema",
                                            obj(vec![
                                                ("type", s("object")),
                                                ("properties", obj(vec![("name", obj(vec![("type", s("string"))]))])),
                                            ]),
                                        )]),
                                    )]),
                                )]),
                            ),
                            ("responses", ok_response("201", "Created")),
                        ]),
                    ),
                ]),
            )]),
        ),
    ]);

    let result = parse_openapi_spec(&openapi_json);
    assert!(result.is_ok());

    let collection = result.unwrap();
    assert_eq!(collection.name, "Sample API");
    assert!(collection.requests.len() >= 2);

    let get_request = collection
        .requests
        .values()
        .find(|r| r.method == HttpMethod::GET && r.url.contains("/users"));
    assert!(get_request.is_some());

    let post_request = collection
        .requests
        .values()
        .find(|r| r.method == HttpMethod::POST && r.url.contains("/users"));
    assert!(post_request.is_some());

    if let Some(post) = post_request {
        assert_eq!(post.method, HttpMethod::POST);
    }
}

#[test]
fn test_parse_openapi_with_parameters() {
    let openapi_json = obj(vec![
        ("openapi", s("3.0.0")),
        ("info", info("Sample API")),
        (
            "paths",
            obj(vec![(
                "/users/{id}",
                obj(vec![(
                    "get",
                    obj(vec![
                        ("summary", s("Get user by ID")),
                        (
                            "parameters",
                            arr(vec![
                                obj(vec![
                                    ("name", s("id")),
                                    ("in", s("path")),
                                    ("required", JsonValue::Bool(true)),
                                    ("schema", obj(vec![("type", s("string"))])),
                                ]),
                                obj(vec![
                                    ("name", s("Authorization")),
                                    ("in", s("header")),
                                    ("required", JsonValue::Bool(true)),
                                    ("schema", obj(vec![("type", s("string"))])),
                                ]),
                            ]),
                        ),
                        ("responses", ok_response("200", "Successful response")),
                    ]),
                )]),
            )]),
        ),
    ]);

    let result = parse_openapi_spec(&openapi_json);
    assert!(result.is_ok());

    let collection = result.unwrap();
    let request = collection.requests.values().next().unwrap();

    assert!(!request.headers.is_empty());
    assert!(request.headers.iter().any(|h| h.key == "Authorization"));
}

#[test]
fn openapi_requests_are_named_urls_joined_and_all_top_level() {
    let doc = obj(vec![
        ("openapi", s("3.1.0")),
        ("info", info("Shop")),
        ("servers", arr(vec![obj(vec![("url", s("https://shop.example"))])])),
        (
            "paths",
            obj(vec![
                ("/items/{id}", obj(vec![("get", obj(vec![])), ("delete", obj(vec![("operationId", s("removeItem"))]))])),
                ("/orders", obj(vec![("put", obj(vec![]))])),
                ("/notes", s("not an object")),
            ]),
        ),
    ]);
    let c = parse_openapi_spec(&doc).unwrap();
    assert_eq!(c.name, "Shop");
    assert_eq!(c.requests.len(), 3);
    assert_eq!(c.tree.len(), 3);
    let mut names: Vec<(String, String, HttpMethod)> = Vec::new();
    for item in &c.tree {
        match item {
            CollectionItem::Request(id) => {
                let r = &c.requests[id];
                names.push((r.name.clone(), r.url.clone(), r.method.clone()));
            },
            CollectionItem::Folder(_) => panic!("no folders are made"),
        }
    }
    assert_eq!(
        names,
        vec![
            ("GET items".to_string(), "https://shop.example/items/{id}".to_string(), HttpMethod::GET),
            ("removeItem".to_string(), "https://shop.example/items/{id}".to_string(), HttpMethod::DELETE),
            ("PUT orders".to_string(), "https://shop.example/orders".to_string(), HttpMethod::PUT),
        ]
    );
}

#[test]
fn openapi_name_of_a_path_of_parameters_only_is_endpoint() {
    let r = only_request(&simple_doc("/{a}/{b}", "post", obj(vec![])));
    assert_eq!(r.name, "POST endpoint");
    assert_eq!(r.url, "/{a}/{b}");
    assert!(matches!(r.body, BodyType::NoBody));
    assert!(r.headers.is_empty());
}

#[test]
fn swagger_host_scheme_and_base_path_make_the_base_url() {
    let doc = obj(vec![
        ("swagger", s("2.0")),
        ("info", obj(vec![])),
        ("host", s("petstore.example")),
        ("basePath", s("/v2")),
        ("schemes", arr(vec![s("http")])),
        ("paths", obj(vec![("/pets", obj(vec![("get", obj(vec![("summary", s("List pets"))]))]))])),
    ]);
    let c = parse_openapi_spec(&doc).unwrap();
    assert_eq!(c.name, "OpenAPI Collection");
    let r = c.requests.values().next().unwrap();
    assert_eq!(r.url, "http://petstore.example/v2/pets");
    assert_eq!(r.name, "List pets");

    let doc2 = obj(vec![
        ("swagger", s("2.0")),
        ("info", obj(vec![])),
        ("host", s("petstore.example")),
        ("paths", obj(vec![("/pets", obj(vec![("get", obj(vec![]))]))])),
    ]);
    let r2 = only_request(&doc2);
    assert_eq!(r2.url, "https://petstore.example/pets");
}

#[test]
fn openapi_parameters_become_headers_and_query_params() {
    let op = obj(vec![(
        "parameters",
        arr(vec![
            obj(vec![("name", s("page")), ("in", s("query")), ("description", s("Page number"))]),
            obj(vec![("name", s("limit")), ("in", s("query")), ("required", JsonValue::Bool(true))]),
            obj(vec![("name", s("X-Trace")), ("in", s("header"))]),
            obj(vec![("name", s("session")), ("in", s("cookie"))]),
            s("not an object"),
        ]),
    )]);
    let r = only_request(&simple_doc("/search", "get", op));
    assert_eq!(r.query_params.len(), 2);
    assert_eq!(r.query_params[0].key, "page");
    assert_eq!(r.query_params[0].value, "");
    assert!(!r.query_params[0].enabled);
    assert_eq!(r.query_params[0].description, Some("Page number".to_string()));
    assert_eq!(r.query_params[1].key, "limit");
    assert!(r.query_params[1].enabled);
    assert_eq!(r.headers.len(), 1);
    assert_eq!(r.headers[0].key, "X-Trace");
    assert!(r.headers[0].enabled);
    assert_eq!(r.headers[0].description, None);
}

#[test]
fn openapi_body_adds_a_json_content_type_unless_one_is_declared() {
    let body = obj(vec![(
        "content",
        obj(vec![("text/plain", obj(vec![("example", s("hello"))]))]),
    )]);
    let r = only_request(&simple_doc("/echo", "post", obj(vec![("body", body)])));
    match &r.body {
        BodyType::Raw { content, content_type } => {
            assert_eq!(content, "hello");
            assert_eq!(*content_type, RawContentType::Text);
        },
        _ => panic!("expected a raw body"),
    }
    assert_eq!(r.headers.len(), 1);
    assert_eq!(r.headers[0].key, "Content-Type");
    assert_eq!(r.headers[0].value, "application/json");
    assert_eq!(r.headers[0].description, Some("Content-Type header".to_string()));

    let op = obj(vec![
        ("parameters", arr(vec![obj(vec![("name", s("content-TYPE")), ("in", s("header"))])])),
        ("body", obj(vec![])),
    ]);
    let r2 = only_request(&simple_doc("/echo", "post", op));
    assert_eq!(r2.headers.len(), 1);
    assert_eq!(r2.headers[0].key, "content-TYPE");
    match &r2.body {
        BodyType::Raw { content, content_type } => {
            assert_eq!(content, "{}");
            assert_eq!(*content_type, RawContentType::Json);
        },
        _ => panic!("expected a raw body"),
    }
}

#[test]
fn openapi_json_body_examples_come_from_schemas_and_refs() {
    let doc = obj(vec![
        ("openapi", s("3.0.3")),
        ("info", info("Users")),
        (
            "components",
            obj(vec![("schemas", obj(vec![("Tag", obj(vec![("type", s("string")), ("example", s("blue"))]))]))]),
        ),
        (
            "paths",
            obj(vec![(
                "/users",
                obj(vec![(
                    "post",
                    obj(vec![(
                        "body",
                        obj(vec![(
                            "content",
                            obj(vec![(
                                "application/json",
                                obj(vec![(
                                    "schema",
                                    obj(vec![
                                        ("type", s("object")),
                                        (
                                            "properties",
                                            obj(vec![
                                                ("email", obj(vec![("type", s("string")), ("format", s("email"))])),
                                                ("tag", obj(vec![("$ref", s("#/components/schemas/Tag"))])),
                                                ("age", obj(vec![("type", s("integer"))])),
                                            ]),
                                        ),
                                    ]),
                                )]),
                            )]),
                        )]),
                    )]),
                )]),
            )]),
        ),
    ]);
    let r = only_request(&doc);
    match &r.body {
        BodyType::Raw { content, content_type } => {
            assert_eq!(*content_type, RawContentType::Json);
            assert_eq!(content, "{\n  \"age\": 0,\n  \"email\": \"user@example.com\",\n  \"tag\": \"blue\"\n}");
        },
        _ => panic!("expected a raw body"),
    }

    let array_body = obj(vec![(
        "content",
        obj(vec![(
            "application/json",
            obj(vec![("schema", obj(vec![("type", s("array")), ("items", obj(vec![("type", s("boolean"))]))]))]),
        )]),
    )]);
    let r2 = only_request(&simple_doc("/flags", "put", obj(vec![("body", array_body)])));
    match &r2.body {
        BodyType::Raw { content, .. } => assert_eq!(content, "[true]"),
        _ => panic!("expected a raw body"),
    }
}

#[test]
fn openapi_problems_are_reported() {
    let no_version = obj(vec![("info", info("A")), ("paths", obj(vec![]))]);
    let e = parse_openapi_spec(&no_version).unwrap_err();
    assert_eq!(*e.kind(), ImportErrorKind::OpenApiFormat);
    assert_eq!(e.message(), "Unsupported OpenAPI version. Only 2.x and 3.x are supported.");

    let old_version = obj(vec![("openapi", s("1.2")), ("info", info("A")), ("paths", obj(vec![]))]);
    assert_eq!(
        parse_openapi_spec(&old_version).unwrap_err().message(),
        "Unsupported OpenAPI version. Only 2.x and 3.x are supported."
    );

    let no_info = obj(vec![("openapi", s("3.0.0")), ("paths", obj(vec![]))]);
    assert_eq!(parse_openapi_spec(&no_info).unwrap_err().message(), "Missing 'info' field in OpenAPI spec");

    let no_paths = obj(vec![("openapi", s("3.0.0")), ("info", info("A"))]);
    let e2 = parse_openapi_spec(&no_paths).unwrap_err();
    assert_eq!(*e2.kind(), ImportErrorKind::OpenApiFormat);
    assert_eq!(e2.message(), "Missing 'paths' field in OpenAPI spec");

    let traced = simple_doc("/debug", "trace", obj(vec![]));
    let e3 = parse_openapi_spec(&traced).unwrap_err();
    assert_eq!(*e3.kind(), ImportErrorKind::Validation);
    assert_eq!(e3.message(), "Unknown HTTP method: trace");

    let empty = obj(vec![("openapi", s("3.0.0")), ("info", info("Empty")), ("paths", obj(vec![]))]);
    let c = parse_openapi_spec(&empty).unwrap();
    assert_eq!(c.name, "Empty");
    assert!(c.requests.is_empty());
}

#[test]
fn openapi_text_is_parsed_then_imported() {
    let text = r#"{"openapi": "3.0.0", "info": {"title": "Pets"}, "servers": [{"url": "https://api.e.com"}], "paths": {"/pets": {"get": {"summary": "List", "responses": {"200": {"description": "ok"}}}}}}"#;
    let c = reqforge::openapi::import_openapi_text(text).unwrap();
    assert_eq!(c.name, "Pets");
    assert_eq!(c.requests.len(), 1);
    let r = c.requests.values().next().unwrap();
    assert_eq!(r.url, "https://api.e.com/pets");
    let e = reqforge::openapi::import_openapi_text("[1,").unwrap_err();
    assert_eq!(*e.kind(), ImportErrorKind::Deserialization);
    assert!(e.message().starts_with("Failed to parse OpenAPI JSON: "));
}
