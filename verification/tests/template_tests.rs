use reqforge::builtin_templates::{
    get_builtin_templates, get_with_auth_template, oauth2_password_flow_template, post_json_template,
};
use reqforge::env::VarMap;
use reqforge::models::{HttpMethod, RawContentType};
use reqforge::templates::{
    BodyTemplateType, RequestTemplate, TemplateCategory, TemplateError, TemplateManager, TemplateVariable,
};

fn manager() -> (tempfile::TempDir, TemplateManager) {
    let temp_dir = tempfile::tempdir().unwrap();
    let m = TemplateManager::new(temp_dir.path().to_str().unwrap());
    (temp_dir, m)
}

fn vars(pairs: &[(&str, &str)]) -> VarMap {
    let mut m = VarMap::new();
    for (k, v) in pairs {
        m.insert(k.to_string(), v.to_string());
    }
    m
}

#[test]
fn test_template_variable_builder() {
    let var = TemplateVariable::new("api_key", "The API key to use").with_default("default_key").optional();
    assert_eq!(var.name, "api_key");
    assert_eq!(var.description, "The API key to use");
    assert_eq!(var.default_value, Some("default_key".to_string()));
    assert!(!var.required);
}

#[test]
fn test_request_template_builder() {
    let template = RequestTemplate::new(
        "Test Template",
        "A test template",
        TemplateCategory::Basic,
        HttpMethod::GET,
        "{{base_url}}/test",
    )
    .with_header("Authorization", "Bearer {{token}}")
    .with_query_param("limit", "{{limit}}")
    .with_variable(TemplateVariable::new("base_url", "Base URL"))
    .with_variable(TemplateVariable::new("token", "Auth token").with_default("my_token"))
    .with_variable(TemplateVariable::new("limit", "Limit results"));
    assert_eq!(template.name, "Test Template");
    assert_eq!(template.headers.len(), 1);
    assert_eq!(template.query_params.len(), 1);
    assert_eq!(template.variables.len(), 3);
    assert!(!template.is_builtin);
}

#[test]
fn test_builtin_template() {
    let template = RequestTemplate::builtin(
        "Builtin Template",
        "A builtin template",
        TemplateCategory::Basic,
        HttpMethod::POST,
        "{{base_url}}/api/create",
    );
    assert!(template.is_builtin);
}

#[test]
fn test_category_display() {
    assert_eq!(TemplateCategory::Basic.to_string(), "Basic");
    assert_eq!(TemplateCategory::Authentication.to_string(), "Authentication");
    assert_eq!(TemplateCategory::Api.to_string(), "API");
    assert_eq!(TemplateCategory::Testing.to_string(), "Testing");
    assert_eq!(TemplateCategory::Custom.to_string(), "Custom");
}

#[test]
fn test_get_builtin_templates() {
    let templates = get_builtin_templates();
    assert_eq!(templates.len(), 8);
}

#[test]
fn test_get_with_auth_template() {
    let template = get_with_auth_template();
    assert_eq!(template.name, "GET with Auth");
    assert_eq!(template.method, HttpMethod::GET);
    assert!(template.headers.iter().any(|h| h.key == "Authorization"));
    assert_eq!(template.variables.len(), 3);
    assert!(template.is_builtin);
}

#[test]
fn test_post_json_template() {
    let template = post_json_template();
    assert_eq!(template.name, "POST JSON");
    assert_eq!(template.method, HttpMethod::POST);
    assert!(matches!(&template.body_type, BodyTemplateType::Raw { content_type: RawContentType::Json, .. }));
}

#[test]
fn test_oauth2_template() {
    let template = oauth2_password_flow_template();
    assert_eq!(template.name, "OAuth2 Password Flow");
    assert!(matches!(&template.body_type, BodyTemplateType::FormUrlEncoded(fields) if fields.len() == 5));
}

#[test]
fn test_all_templates_have_required_fields() {
    let templates = get_builtin_templates();
    for template in templates {
        assert!(template.id != 0);
        assert!(!template.name.is_empty());
        assert!(!template.url_template.is_empty());
        assert!(template.is_builtin);
    }
}

#[test]
fn test_get_all_templates() {
    let (_t, manager) = manager();
    let templates = manager.get_all_templates();
    assert!(templates.len() >= 8);
}

#[test]
fn test_get_template_by_id() {
    let (_t, manager) = manager();
    let templates = manager.get_all_templates();
    let first_template = templates.first().unwrap();
    let found = manager.get_template(first_template.id);
    assert!(found.is_some());
    assert_eq!(found.unwrap().name, first_template.name);
}

#[test]
fn test_get_template_by_name() {
    let (_t, manager) = manager();
    let template = manager.get_template_by_name("GET with Auth");
    assert!(template.is_some());
    assert_eq!(template.unwrap().method, HttpMethod::GET);
}

#[test]
fn test_get_templates_by_category() {
    let (_t, manager) = manager();
    let grouped = manager.get_templates_by_category();
    assert!(grouped.iter().any(|(c, _)| *c == TemplateCategory::Basic));
    assert!(grouped.iter().any(|(c, _)| *c == TemplateCategory::Authentication));
    assert!(grouped.iter().any(|(c, _)| *c == TemplateCategory::Api));
}

#[test]
fn test_substitute_variables() {
    let result = TemplateManager::substitute_variables(
        "Hello {{name}}, your token is {{token}}",
        &vars(&[("name", "Alice"), ("token", "abc123")]),
    );
    assert_eq!(result, "Hello Alice, your token is abc123");
}

#[test]
fn test_substitute_variables_partial() {
    let result =
        TemplateManager::substitute_variables("Hello {{name}}, your token is {{token}}", &vars(&[("name", "Alice")]));
    assert_eq!(result, "Hello Alice, your token is {{token}}");
}

#[test]
fn test_create_from_template() {
    let (_t, manager) = manager();
    let template = manager.get_template_by_name("GET with Auth").unwrap();
    let variables =
        vars(&[("base_url", "https://api.example.com"), ("path", "users"), ("access_token", "token123")]);
    let result = manager.create_from_template(template.id, &variables, "My Request".to_string()).unwrap();
    assert_eq!(result.request.name, "My Request");
    assert_eq!(result.request.url, "https://api.example.com/users");
    assert!(result.request.headers.iter().any(|h| h.value == "Bearer token123"));
    assert!(result.missing_variables.is_empty());
}

#[test]
fn test_create_from_template_with_missing_vars() {
    let (_t, manager) = manager();
    let template = manager.get_template_by_name("GET with Auth").unwrap();
    let variables = vars(&[("access_token", "token123")]);
    let result = manager.create_from_template(template.id, &variables, "My Request".to_string()).unwrap();
    assert_eq!(result.missing_variables.len(), 2);
    assert!(result.missing_variables.contains(&"base_url".to_string()));
    assert!(result.missing_variables.contains(&"path".to_string()));
}

#[test]
fn test_validate_template_variables() {
    let (_t, manager) = manager();
    let template = manager.get_template_by_name("GET with Auth").unwrap();
    let variables =
        vars(&[("base_url", "https://api.example.com"), ("path", "users"), ("access_token", "token123")]);
    assert!(manager.validate_template_variables(template.id, &variables).is_ok());
}

#[test]
fn test_validate_template_variables_missing() {
    let (_t, manager) = manager();
    let template = manager.get_template_by_name("GET with Auth").unwrap();
    let variables = VarMap::new();
    let result = manager.validate_template_variables(template.id, &variables);
    assert!(result.is_err());
    match result.unwrap_err() {
        TemplateError::MissingVariables(vars) => {
            assert!(vars.contains(&"base_url".to_string()));
            assert!(vars.contains(&"path".to_string()));
        }
        _ => panic!("Expected MissingVariables error"),
    }
}

#[test]
fn test_add_custom_template() {
    let (_t, mut manager) = manager();
    let custom_template =
        RequestTemplate::new("Custom Template", "A custom template", TemplateCategory::Custom, HttpMethod::GET, "{{url}}");
    manager.add_custom_template(custom_template).unwrap();
    assert_eq!(manager.custom_templates().len(), 1);
}

#[test]
fn test_delete_custom_template() {
    let (_t, mut manager) = manager();
    let custom_template =
        RequestTemplate::new("Custom Template", "A custom template", TemplateCategory::Custom, HttpMethod::GET, "{{url}}");
    manager.add_custom_template(custom_template.clone()).unwrap();
    assert_eq!(manager.custom_templates().len(), 1);
    manager.delete_custom_template(custom_template.id).unwrap();
    assert_eq!(manager.custom_templates().len(), 0);
}

#[test]
fn test_cannot_modify_builtin_template() {
    let (_t, mut manager) = manager();
    let template = manager.get_template_by_name("GET with Auth").unwrap();
    let template_id = template.id;
    let result = manager.delete_custom_template(template_id);
    assert!(matches!(result, Err(TemplateError::CannotModifyBuiltin)));
}

// The template manager's own checks.

#[test]
fn adding_a_builtin_template_is_refused() {
    let (_t, mut manager) = manager();
    let t = RequestTemplate::builtin("B", "b", TemplateCategory::Basic, HttpMethod::GET, "x");
    assert!(matches!(manager.add_custom_template(t), Err(TemplateError::CannotModifyBuiltin)));
    assert_eq!(manager.custom_templates().len(), 0);
}

#[test]
fn unknown_template_id_is_reported() {
    let (_t, manager) = manager();
    let r = manager.create_from_template(7, &VarMap::new(), "n".to_string());
    assert!(matches!(r, Err(TemplateError::TemplateNotFound(7))));
    assert!(matches!(manager.validate_template_variables(7, &VarMap::new()), Err(TemplateError::TemplateNotFound(7))));
}

#[test]
fn form_body_template_is_filled_in() {
    let (_t, manager) = manager();
    let t = manager.get_template_by_name("POST Form Data").unwrap();
    let r = manager
        .create_from_template(t.id, &vars(&[("base_url", "http://h"), ("path", "p"), ("value1", "A")]), "F".into())
        .unwrap();
    assert_eq!(r.request.url, "http://h/p");
    match &r.request.body {
        reqforge::models::BodyType::FormUrlEncoded(p) => {
            assert_eq!(p[0].key, "field1");
            assert_eq!(p[0].value, "A");
            assert_eq!(p[1].value, "{{value2}}");
        }
        _ => panic!("expected a form body"),
    }
    assert_eq!(r.missing_variables, vec!["value2".to_string()]);
}

#[test]
fn groups_follow_category_order() {
    let (_t, manager) = manager();
    let grouped = manager.get_templates_by_category();
    let cats: Vec<TemplateCategory> = grouped.iter().map(|(c, _)| *c).collect();
    assert_eq!(cats, vec![TemplateCategory::Basic, TemplateCategory::Authentication, TemplateCategory::Api]);
    assert_eq!(grouped[0].1.len(), 1);
    assert_eq!(grouped[1].1.len(), 2);
    assert_eq!(grouped[2].1.len(), 5);
}

#[test]
fn templates_path_is_in_the_workspace() {
    let manager = TemplateManager::new("/ws");
    assert_eq!(manager.templates_path(), "/ws/templates.json");
}
