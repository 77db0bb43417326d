use reqforge::env::{Environment, Interpolator, VarMap, Variable};
use reqforge::models::{BodyType, HttpMethod, KeyValuePair, RawContentType, RequestDefinition};

fn vars(pairs: &[(&str, &str)]) -> VarMap {
    let mut m = VarMap::new();
    for (k, v) in pairs {
        m.insert(k.to_string(), v.to_string());
    }
    m
}

#[test]
fn test_basic_interpolation() {
    let vars = vars(&[("base_url", "https://api.example.com"), ("token", "abc123")]);
    let result = Interpolator::replace("{{base_url}}/users?t={{token}}", &vars);
    assert_eq!(result, "https://api.example.com/users?t=abc123");
}

#[test]
fn test_missing_var_preserved() {
    let vars = VarMap::new();
    let result = Interpolator::replace("{{missing}}", &vars);
    assert_eq!(result, "{{missing}}");
}

#[test]
fn test_nested_variable_interpolation() {
    let vars = vars(&[("base_url", "https://api.example.com"), ("path", "v1/users"), ("endpoint", "profile")]);
    let result = Interpolator::replace("{{base_url}}/{{path}}/{{endpoint}}", &vars);
    assert_eq!(result, "https://api.example.com/v1/users/profile");
}

#[test]
fn test_empty_string_variables() {
    let vars = vars(&[("empty_var", ""), ("normal_var", "value")]);
    let result = Interpolator::replace("start {{empty_var}} middle {{normal_var}} end", &vars);
    assert_eq!(result, "start  middle value end");
}

#[test]
fn test_special_characters_in_variable_values() {
    let vars = vars(&[
        ("url", "https://example.com/path?query=value&other=123"),
        ("json", r#"{"key": "value", "special": "!@#$%^&*()"}"#),
        ("unicode", "Hello 世界 🌍"),
    ]);
    let result = Interpolator::replace("{{url}}/{{json}}/{{unicode}}", &vars);
    assert_eq!(
        result,
        "https://example.com/path?query=value&other=123/{\"key\": \"value\", \"special\": \"!@#$%^&*()\"}/Hello 世界 🌍"
    );
}

#[test]
fn test_multiple_occurrences_of_same_variable() {
    let vars = vars(&[("api_key", "secret123")]);
    let result = Interpolator::replace(
        "Authorization: Bearer {{api_key}}, api_key={{api_key}}, second={{api_key}}",
        &vars,
    );
    assert_eq!(result, "Authorization: Bearer secret123, api_key=secret123, second=secret123");
}

#[test]
fn test_variables_with_underscores_and_numbers() {
    let vars = vars(&[
        ("api_v2_endpoint", "https://api.v2.example.com"),
        ("user_id_123", "user456"),
        ("v1_token", "token_abc_123"),
        ("test_123_var", "value"),
    ]);
    let result = Interpolator::replace(
        "{{api_v2_endpoint}}/users/{{user_id_123}}/token?v={{v1_token}}&test={{test_123_var}}",
        &vars,
    );
    assert_eq!(result, "https://api.v2.example.com/users/user456/token?v=token_abc_123&test=value");
}

#[test]
fn test_mixed_edge_cases() {
    let vars = vars(&[("base", "https://test.com"), ("empty", ""), ("special", "a/b?c=d&e=f"), ("multiple", "value")]);
    let result = Interpolator::replace("{{base}}/{{empty}}/{{special}}/{{multiple}}/{{multiple}}", &vars);
    assert_eq!(result, "https://test.com//a/b?c=d&e=f/value/value");
}

#[test]
fn test_no_variables() {
    let vars = VarMap::new();
    let input = "This is a plain string with no variables";
    let result = Interpolator::replace(input, &vars);
    assert_eq!(result, input);
}

#[test]
fn test_partial_variables() {
    let vars = vars(&[("existing", "value")]);
    let result = Interpolator::replace("This has {{existing}} and {{missing}} variables", &vars);
    assert_eq!(result, "This has value and {{missing}} variables");
}

#[test]
fn test_variables_in_different_positions() {
    let vars = vars(&[("var1", "value1"), ("var2", "value2")]);
    let result = Interpolator::replace("{{var1}} start {{var2}} middle {{var1}} end {{var2}}", &vars);
    assert_eq!(result, "value1 start value2 middle value1 end value2");
}

// A placeholder whose name is not made of word characters stays as it is.
#[test]
fn non_word_placeholder_is_kept() {
    let vars = vars(&[("a-b", "x")]);
    assert_eq!(Interpolator::replace("{{a-b}}", &vars), "{{a-b}}");
}

// With no variables, resolving a request gives an equal request.
#[test]
fn resolve_without_variables_is_identity() {
    let mut req = RequestDefinition::new("R", HttpMethod::POST, "{{base}}/x");
    req.headers.push(KeyValuePair { key: "{{h}}".into(), value: "{{v}}".into(), enabled: true, description: None });
    req.body = BodyType::Raw { content: "{{body}}".into(), content_type: RawContentType::Text };
    let r = Interpolator::resolve(&req, &VarMap::new());
    assert_eq!(r.url, req.url);
    assert_eq!(r.headers[0].key, "{{h}}");
    assert_eq!(r.headers[0].value, "{{v}}");
    match r.body {
        BodyType::Raw { content, .. } => assert_eq!(content, "{{body}}"),
        _ => panic!("body changed"),
    }
}

#[test]
fn resolve_fills_url_headers_params_and_form() {
    let mut req = RequestDefinition::new("R", HttpMethod::POST, "{{base}}/x");
    req.headers.push(KeyValuePair { key: "X-{{k}}".into(), value: "{{v}}".into(), enabled: true, description: None });
    req.query_params.push(KeyValuePair { key: "q".into(), value: "{{v}}".into(), enabled: false, description: None });
    req.body = BodyType::FormUrlEncoded(vec![KeyValuePair {
        key: "f".into(),
        value: "{{v}}".into(),
        enabled: true,
        description: Some("d".into()),
    }]);
    let vars = vars(&[("base", "http://h"), ("k", "K"), ("v", "V")]);
    let r = Interpolator::resolve(&req, &vars);
    assert_eq!(r.url, "http://h/x");
    assert_eq!(r.headers[0].key, "X-K");
    assert_eq!(r.headers[0].value, "V");
    assert_eq!(r.query_params[0].value, "V");
    assert!(!r.query_params[0].enabled);
    match r.body {
        BodyType::FormUrlEncoded(p) => {
            assert_eq!(p[0].value, "V");
            assert_eq!(p[0].description.as_deref(), Some("d"));
        }
        _ => panic!("body changed"),
    }
}

#[test]
fn environment_map_skips_disabled_and_later_wins() {
    let mut env = Environment::new("Dev");
    env.variables.push(Variable { key: "a".into(), value: "1".into(), secret: false, enabled: true });
    env.variables.push(Variable { key: "b".into(), value: "2".into(), secret: false, enabled: false });
    env.variables.push(Variable { key: "a".into(), value: "3".into(), secret: true, enabled: true });
    let m = env.to_map();
    assert_eq!(m.get("a").map(|s| s.as_str()), Some("3"));
    assert!(!m.contains_key("b"));
}

#[test]
fn var_map_insert_keeps_first_position() {
    let mut m = VarMap::new();
    m.insert("x".into(), "1".into());
    m.insert("y".into(), "2".into());
    m.insert("x".into(), "3".into());
    let e = m.entries();
    assert_eq!(e.len(), 2);
    assert_eq!(e[0], ("x".to_string(), "3".to_string()));
    assert_eq!(e[1], ("y".to_string(), "2".to_string()));
}
