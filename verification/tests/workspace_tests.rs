use reqforge::commands::{add_imported_environment, find_collection, import_format, merge_environments, ImportFormat};
use reqforge::collection::Collection;
use reqforge::env::{Environment, Variable};
use reqforge::history::RequestHistory;
use reqforge::json_value::JsonValue;
use reqforge::models::{BodyType, HttpMethod, KeyValuePair, RawContentType, RequestDefinition};
use reqforge::request_json::{parse_body_type, parse_request_definition};
use reqforge::response::HttpResponse;
use reqforge::workspace::{plan_request, JsonStore, OutgoingBody, ReqForgeCore};

fn s(x: &str) -> JsonValue {
    JsonValue::Str(x.to_string())
}

fn obj(fields: Vec<(&str, JsonValue)>) -> JsonValue {
    JsonValue::Object(fields.into_iter().map(|(k, v)| (k.to_string(), v)).collect())
}

fn env_with(name: &str, key: &str, value: &str) -> Environment {
    let mut e = Environment::new(name);
    e.variables.push(Variable { key: key.into(), value: value.into(), secret: false, enabled: true });
    e
}

#[test]
fn active_environment_drives_variables_and_history() {
    let dev = env_with("Dev", "base", "https://dev");
    let dev_id = dev.id;
    let mut core = ReqForgeCore::from_parts(JsonStore::new("/w"), vec![dev], Vec::new(), RequestHistory::new("/w"));
    let req = RequestDefinition::new("R", HttpMethod::GET, "{{base}}/x");
    assert_eq!(core.prepare_request(&req).url, "{{base}}/x");
    assert!(core.active_environment_name().is_none());
    core.active_environment_id = Some(dev_id);
    assert_eq!(core.prepare_request(&req).url, "https://dev/x");
    assert_eq!(core.active_environment_name().as_deref(), Some("Dev"));
    core.record_exchange(&req, None);
    let resp = HttpResponse {
        status: 404,
        status_text: "Not Found".into(),
        headers: vec![],
        body: vec![],
        size_bytes: 0,
        elapsed_secs: 1,
        elapsed_subsec_nanos: 250_000_000,
    };
    core.record_exchange(&req, Some(&resp));
    let all = core.get_all_history();
    assert_eq!(all.len(), 2);
    assert_eq!(all[0].response.status, 404);
    assert_eq!(all[0].response.elapsed_millis, 1250);
    assert!(!all[0].response.success);
    assert_eq!(all[1].response.status_text, "Error");
    assert_eq!(all[1].environment_name.as_deref(), Some("Dev"));
    let replayed = core.replay_request(all[1].id).unwrap();
    assert_eq!(replayed.url, "https://dev/x");
    core.clear_history();
    assert!(core.history_is_empty());
}

#[test]
fn store_paths() {
    let store = JsonStore::new("/ws");
    assert_eq!(store.environments_path(), "/ws/environments.json");
    assert_eq!(store.collections_path(), "/ws/collections");
    assert_eq!(
        store.collection_path(0x0123_4567_89ab_cdef_0123_4567_89ab_cdef),
        "/ws/collections/01234567-89ab-cdef-0123-456789abcdef.json"
    );
}

#[test]
fn outgoing_request_plan() {
    let mut req = RequestDefinition::new("R", HttpMethod::POST, "https://api.example.com");
    req.headers.push(KeyValuePair { key: "A".into(), value: "1".into(), enabled: true, description: None });
    req.headers.push(KeyValuePair { key: "B".into(), value: "2".into(), enabled: false, description: None });
    req.query_params.push(KeyValuePair { key: "q".into(), value: "1".into(), enabled: true, description: None });
    req.query_params.push(KeyValuePair { key: "q".into(), value: "2".into(), enabled: true, description: None });
    req.body = BodyType::Raw { content: "<a/>".into(), content_type: RawContentType::Xml };
    let plan = plan_request(&req).unwrap();
    assert_eq!(plan.headers, vec![("A".to_string(), "1".to_string())]);
    assert_eq!(plan.query.get("q").map(|v| v.as_str()), Some("2"));
    match plan.body {
        OutgoingBody::Raw { mime, content } => {
            assert_eq!(mime, "application/xml");
            assert_eq!(content, "<a/>");
        }
        _ => panic!("expected a raw body"),
    }
    let bad = RequestDefinition::new("R", HttpMethod::GET, "nope");
    assert!(plan_request(&bad).is_err());
}

#[test]
fn request_files_are_read() {
    let id = "01234567-89ab-cdef-0123-456789abcdef";
    let j = obj(vec![
        ("id", s(id)),
        ("name", s("N")),
        ("method", s("PATCH")),
        ("url", s("https://e.com")),
        ("headers", JsonValue::Array(vec![obj(vec![("key", s("H")), ("enabled", JsonValue::Bool(false))])])),
        ("body", obj(vec![("type", s("Raw")), ("content", s("{}")), ("content_type", s("Json"))])),
    ]);
    let r = parse_request_definition(&j).unwrap();
    assert_eq!(r.id, 0x0123_4567_89ab_cdef_0123_4567_89ab_cdef);
    assert_eq!(r.method, HttpMethod::PATCH);
    assert_eq!(r.headers[0].key, "H");
    assert_eq!(r.headers[0].value, "");
    assert!(!r.headers[0].enabled);
    assert!(matches!(r.body, BodyType::Raw { content_type: RawContentType::Json, .. }));
    assert_eq!(r.created_at, r.updated_at);
    let missing = obj(vec![("name", s("N")), ("method", s("get"))]);
    assert_eq!(parse_request_definition(&missing).unwrap_err(), "Unknown HTTP method: get");
    let no_url = obj(vec![("name", s("N")), ("method", s("GET"))]);
    assert_eq!(parse_request_definition(&no_url).unwrap_err(), "Missing 'url' field");
}

#[test]
fn body_values_are_read() {
    assert!(matches!(parse_body_type(None).unwrap(), BodyType::NoBody));
    assert!(matches!(parse_body_type(Some(&s("None"))).unwrap(), BodyType::NoBody));
    assert!(matches!(
        parse_body_type(Some(&s("hi"))).unwrap(),
        BodyType::Raw { content_type: RawContentType::Text, .. }
    ));
    assert_eq!(parse_body_type(Some(&obj(vec![]))).unwrap_err(), "Body object missing 'type' field");
    assert_eq!(parse_body_type(Some(&obj(vec![("type", s("Xml"))]))).unwrap_err(), "Unknown body type: Xml");
    match parse_body_type(Some(&obj(vec![("type", s("FormUrlEncoded")), ("fields", JsonValue::Array(vec![JsonValue::Null]))])))
        .unwrap()
    {
        BodyType::FormUrlEncoded(f) => {
            assert_eq!(f.len(), 1);
            assert!(f[0].enabled);
        }
        _ => panic!("expected a form"),
    }
    assert!(matches!(parse_body_type(Some(&JsonValue::Bool(true))).unwrap(), BodyType::NoBody));
}

#[test]
fn command_decisions() {
    assert_eq!(import_format("JSON").unwrap(), ImportFormat::Json);
    assert_eq!(import_format("Swagger").unwrap(), ImportFormat::OpenApi);
    assert_eq!(import_format("yaml").unwrap_err(), "Unsupported format: yaml. Supported: json, postman, openapi");
    let a = Environment::new("A");
    let a_id = a.id;
    let mut envs = vec![a];
    let dup = Environment { id: a_id, name: "A2".into(), variables: vec![] };
    assert!(add_imported_environment(&mut envs, dup).unwrap_err().ends_with(" already exists"));
    let b = Environment::new("B");
    let b_id = b.id;
    let b2 = Environment { id: b_id, name: "B2".into(), variables: vec![] };
    let merged = merge_environments(envs, vec![b, b2, Environment { id: a_id, name: "A3".into(), variables: vec![] }]);
    assert_eq!(merged.len(), 2);
    assert_eq!(merged[1].name, "B");
    let cs = vec![Collection::new("X")];
    let id = cs[0].id;
    assert_eq!(find_collection(&cs, id).unwrap().name, "X");
    assert!(find_collection(&cs, id.wrapping_add(1)).is_none());
}
