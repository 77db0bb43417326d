//! The templates that every workspace starts with.
use vstd::prelude::*;
use crate::ids::{Timestamp, is_v4_uuid};
use crate::models::{HttpMethod, KeyValuePair, PairView, pairs_view, RawContentType, BodyView};
use crate::templates::{
    TemplateCategory, TemplateVariable, RequestTemplate, BodyTemplateType, TemplateView, template_base,
    add_header, add_query_param, set_body, add_variable, required_var, defaulted_var, templates_view,
};
use crate::text::to_owned_string;

verus! {

/// An enabled pair with a description.
pub open spec fn described_pair(key: Seq<char>, value: Seq<char>, description: Seq<char>) -> PairView {
    PairView { key, value, enabled: true, description: Some(description) }
}

fn make_described_pair(key: &str, value: &str, description: &str) -> (r: KeyValuePair)
    ensures
        r@ == described_pair(key@, value@, description@),
{
    KeyValuePair {
        key: to_owned_string(key),
        value: to_owned_string(value),
        enabled: true,
        description: Some(to_owned_string(description)),
    }
}
/// The contents of the built-in "GET with Auth" template, given its id and creation time.
pub open spec fn get_with_auth_content(id: u128, created_at: Timestamp) -> TemplateView {
    add_variable(add_variable(add_variable(add_header(add_header(template_base(id, created_at, "GET with Auth"@, "A GET request with an Authorization header for authenticated API calls"@, TemplateCategory::Authentication, HttpMethod::GET, "{{base_url}}/{{path}}"@, true), "Authorization"@, "Bearer {{access_token}}"@), "Accept"@, "application/json"@), required_var("base_url"@, "The base URL of the API"@)), required_var("path"@, "The API endpoint path"@)), defaulted_var("access_token"@, "The access token for authentication"@, "your_token_here"@))
}
/// The built-in "GET with Auth" template.
pub fn get_with_auth_template() -> (r: RequestTemplate)
    ensures
        r@ == get_with_auth_content(r@.id, r@.created_at),
        is_v4_uuid(r@.id),
{
    RequestTemplate::builtin(
        "GET with Auth",
        "A GET request with an Authorization header for authenticated API calls",
        TemplateCategory::Authentication,
        HttpMethod::GET,
        "{{base_url}}/{{path}}",
    )
    .with_header("Authorization", "Bearer {{access_token}}")
    .with_header("Accept", "application/json")
    .with_variable(TemplateVariable::new("base_url", "The base URL of the API"))
    .with_variable(TemplateVariable::new("path", "The API endpoint path"))
    .with_variable(TemplateVariable::new("access_token", "The access token for authentication").with_default("your_token_here"))
}
/// The contents of the built-in "POST JSON" template, given its id and creation time.
pub open spec fn post_json_content(id: u128, created_at: Timestamp) -> TemplateView {
    add_variable(add_variable(add_variable(add_variable(set_body(add_header(add_header(template_base(id, created_at, "POST JSON"@, "A POST request with a JSON body for creating resources"@, TemplateCategory::Api, HttpMethod::POST, "{{base_url}}/{{path}}"@, true), "Content-Type"@, "application/json"@), "Accept"@, "application/json"@), BodyView::Raw { content: "{\n  \"key\": \"{{value}}\"\n}"@, content_type: RawContentType::Json }), required_var("base_url"@, "The base URL of the API"@)), required_var("path"@, "The API endpoint path"@)), required_var("key"@, "The JSON key name"@)), required_var("value"@, "The JSON value"@))
}
/// The built-in "POST JSON" template.
pub fn post_json_template() -> (r: RequestTemplate)
    ensures
        r@ == post_json_content(r@.id, r@.created_at),
        is_v4_uuid(r@.id),
{
    RequestTemplate::builtin(
        "POST JSON",
        "A POST request with a JSON body for creating resources",
        TemplateCategory::Api,
        HttpMethod::POST,
        "{{base_url}}/{{path}}",
    )
    .with_header("Content-Type", "application/json")
    .with_header("Accept", "application/json")
    .with_body(BodyTemplateType::Raw { content: to_owned_string("{\n  \"key\": \"{{value}}\"\n}"), content_type: RawContentType::Json })
    .with_variable(TemplateVariable::new("base_url", "The base URL of the API"))
    .with_variable(TemplateVariable::new("path", "The API endpoint path"))
    .with_variable(TemplateVariable::new("key", "The JSON key name"))
    .with_variable(TemplateVariable::new("value", "The JSON value"))
}
/// The contents of the built-in "PUT Update" template, given its id and creation time.
pub open spec fn put_update_content(id: u128, created_at: Timestamp) -> TemplateView {
    add_variable(add_variable(add_variable(add_variable(set_body(add_header(add_header(template_base(id, created_at, "PUT Update"@, "A PUT request for updating existing resources"@, TemplateCategory::Api, HttpMethod::PUT, "{{base_url}}/{{path}}/{{resource_id}}"@, true), "Content-Type"@, "application/json"@), "Accept"@, "application/json"@), BodyView::Raw { content: "{\n  \"id\": \"{{resource_id}}\",\n  \"field\": \"{{updated_value}}\"\n}"@, content_type: RawContentType::Json }), required_var("base_url"@, "The base URL of the API"@)), required_var("path"@, "The API endpoint path"@)), required_var("resource_id"@, "The ID of the resource to update"@)), required_var("updated_value"@, "The new value for the field"@))
}
/// The built-in "PUT Update" template.
pub fn put_update_template() -> (r: RequestTemplate)
    ensures
        r@ == put_update_content(r@.id, r@.created_at),
        is_v4_uuid(r@.id),
{
    RequestTemplate::builtin(
        "PUT Update",
        "A PUT request for updating existing resources",
        TemplateCategory::Api,
        HttpMethod::PUT,
        "{{base_url}}/{{path}}/{{resource_id}}",
    )
    .with_header("Content-Type", "application/json")
    .with_header("Accept", "application/json")
    .with_body(BodyTemplateType::Raw { content: to_owned_string("{\n  \"id\": \"{{resource_id}}\",\n  \"field\": \"{{updated_value}}\"\n}"), content_type: RawContentType::Json })
    .with_variable(TemplateVariable::new("base_url", "The base URL of the API"))
    .with_variable(TemplateVariable::new("path", "The API endpoint path"))
    .with_variable(TemplateVariable::new("resource_id", "The ID of the resource to update"))
    .with_variable(TemplateVariable::new("updated_value", "The new value for the field"))
}
/// The contents of the built-in "DELETE Resource" template, given its id and creation time.
pub open spec fn delete_resource_content(id: u128, created_at: Timestamp) -> TemplateView {
    add_variable(add_variable(add_variable(add_variable(add_header(add_header(template_base(id, created_at, "DELETE Resource"@, "A DELETE request for removing resources"@, TemplateCategory::Api, HttpMethod::DELETE, "{{base_url}}/{{path}}/{{resource_id}}"@, true), "Authorization"@, "Bearer {{access_token}}"@), "Accept"@, "application/json"@), required_var("base_url"@, "The base URL of the API"@)), required_var("path"@, "The API endpoint path"@)), required_var("resource_id"@, "The ID of the resource to delete"@)), defaulted_var("access_token"@, "The access token for authentication"@, "your_token_here"@))
}
/// The built-in "DELETE Resource" template.
pub fn delete_template() -> (r: RequestTemplate)
    ensures
        r@ == delete_resource_content(r@.id, r@.created_at),
        is_v4_uuid(r@.id),
{
    RequestTemplate::builtin(
        "DELETE Resource",
        "A DELETE request for removing resources",
        TemplateCategory::Api,
        HttpMethod::DELETE,
        "{{base_url}}/{{path}}/{{resource_id}}",
    )
    .with_header("Authorization", "Bearer {{access_token}}")
    .with_header("Accept", "application/json")
    .with_variable(TemplateVariable::new("base_url", "The base URL of the API"))
    .with_variable(TemplateVariable::new("path", "The API endpoint path"))
    .with_variable(TemplateVariable::new("resource_id", "The ID of the resource to delete"))
    .with_variable(TemplateVariable::new("access_token", "The access token for authentication").with_default("your_token_here"))
}
/// The contents of the built-in "OAuth2 Password Flow" template, given its id and creation time.
pub open spec fn oauth2_password_flow_content(id: u128, created_at: Timestamp) -> TemplateView {
    add_variable(add_variable(add_variable(add_variable(add_variable(set_body(add_header(add_header(template_base(id, created_at, "OAuth2 Password Flow"@, "OAuth2 authentication using password grant type"@, TemplateCategory::Authentication, HttpMethod::POST, "{{auth_url}}/oauth/token"@, true), "Content-Type"@, "application/x-www-form-urlencoded"@), "Accept"@, "application/json"@), BodyView::Form(seq![described_pair("grant_type"@, "password"@, "OAuth2 grant type"@), described_pair("client_id"@, "{{client_id}}"@, "OAuth2 client ID"@), described_pair("client_secret"@, "{{client_secret}}"@, "OAuth2 client secret"@), described_pair("username"@, "{{username}}"@, "User username"@), described_pair("password"@, "{{password}}"@, "User password"@)])), required_var("auth_url"@, "The authentication server URL"@)), required_var("client_id"@, "OAuth2 client ID"@)), required_var("client_secret"@, "OAuth2 client secret"@)), required_var("username"@, "Username"@)), required_var("password"@, "Password"@))
}
/// The built-in "OAuth2 Password Flow" template.
pub fn oauth2_password_flow_template() -> (r: RequestTemplate)
    ensures
        r@ == oauth2_password_flow_content(r@.id, r@.created_at),
        is_v4_uuid(r@.id),
{
    let mut fields: Vec<KeyValuePair> = Vec::new();
    fields.push(make_described_pair("grant_type", "password", "OAuth2 grant type"));
    fields.push(make_described_pair("client_id", "{{client_id}}", "OAuth2 client ID"));
    fields.push(make_described_pair("client_secret", "{{client_secret}}", "OAuth2 client secret"));
    fields.push(make_described_pair("username", "{{username}}", "User username"));
    fields.push(make_described_pair("password", "{{password}}", "User password"));
    assert(pairs_view(fields@) =~= seq![described_pair("grant_type"@, "password"@, "OAuth2 grant type"@), described_pair("client_id"@, "{{client_id}}"@, "OAuth2 client ID"@), described_pair("client_secret"@, "{{client_secret}}"@, "OAuth2 client secret"@), described_pair("username"@, "{{username}}"@, "User username"@), described_pair("password"@, "{{password}}"@, "User password"@)]);
    RequestTemplate::builtin(
        "OAuth2 Password Flow",
        "OAuth2 authentication using password grant type",
        TemplateCategory::Authentication,
        HttpMethod::POST,
        "{{auth_url}}/oauth/token",
    )
    .with_header("Content-Type", "application/x-www-form-urlencoded")
    .with_header("Accept", "application/json")
    .with_body(BodyTemplateType::FormUrlEncoded(fields))
    .with_variable(TemplateVariable::new("auth_url", "The authentication server URL"))
    .with_variable(TemplateVariable::new("client_id", "OAuth2 client ID"))
    .with_variable(TemplateVariable::new("client_secret", "OAuth2 client secret"))
    .with_variable(TemplateVariable::new("username", "Username"))
    .with_variable(TemplateVariable::new("password", "Password"))
}
/// The contents of the built-in "GET with Pagination" template, given its id and creation time.
pub open spec fn get_with_pagination_content(id: u128, created_at: Timestamp) -> TemplateView {
    add_variable(add_variable(add_variable(add_variable(add_variable(add_variable(add_query_param(add_query_param(add_query_param(add_query_param(add_header(template_base(id, created_at, "GET with Pagination"@, "A GET request with pagination query parameters"@, TemplateCategory::Api, HttpMethod::GET, "{{base_url}}/{{path}}"@, true), "Accept"@, "application/json"@), "page"@, "{{page}}"@), "per_page"@, "{{per_page}}"@), "sort"@, "{{sort_field}}"@), "order"@, "{{order}}"@), required_var("base_url"@, "The base URL of the API"@)), required_var("path"@, "The API endpoint path"@)), defaulted_var("page"@, "Page number"@, "1"@)), defaulted_var("per_page"@, "Items per page"@, "10"@)), required_var("sort_field"@, "Field to sort by"@)), defaulted_var("order"@, "Sort order"@, "asc"@))
}
/// The built-in "GET with Pagination" template.
pub fn get_with_pagination_template() -> (r: RequestTemplate)
    ensures
        r@ == get_with_pagination_content(r@.id, r@.created_at),
        is_v4_uuid(r@.id),
{
    RequestTemplate::builtin(
        "GET with Pagination",
        "A GET request with pagination query parameters",
        TemplateCategory::Api,
        HttpMethod::GET,
        "{{base_url}}/{{path}}",
    )
    .with_header("Accept", "application/json")
    .with_query_param("page", "{{page}}")
    .with_query_param("per_page", "{{per_page}}")
    .with_query_param("sort", "{{sort_field}}")
    .with_query_param("order", "{{order}}")
    .with_variable(TemplateVariable::new("base_url", "The base URL of the API"))
    .with_variable(TemplateVariable::new("path", "The API endpoint path"))
    .with_variable(TemplateVariable::new("page", "Page number").with_default("1"))
    .with_variable(TemplateVariable::new("per_page", "Items per page").with_default("10"))
    .with_variable(TemplateVariable::new("sort_field", "Field to sort by"))
    .with_variable(TemplateVariable::new("order", "Sort order").with_default("asc"))
}
/// The contents of the built-in "POST Form Data" template, given its id and creation time.
pub open spec fn post_form_content(id: u128, created_at: Timestamp) -> TemplateView {
    add_variable(add_variable(add_variable(add_variable(set_body(add_header(add_header(template_base(id, created_at, "POST Form Data"@, "A POST request with form-encoded data"@, TemplateCategory::Basic, HttpMethod::POST, "{{base_url}}/{{path}}"@, true), "Content-Type"@, "application/x-www-form-urlencoded"@), "Accept"@, "application/json"@), BodyView::Form(seq![described_pair("field1"@, "{{value1}}"@, "First form field"@), described_pair("field2"@, "{{value2}}"@, "Second form field"@)])), required_var("base_url"@, "The base URL of the API"@)), required_var("path"@, "The API endpoint path"@)), required_var("value1"@, "Value for field1"@)), required_var("value2"@, "Value for field2"@))
}
/// The built-in "POST Form Data" template.
pub fn post_form_template() -> (r: RequestTemplate)
    ensures
        r@ == post_form_content(r@.id, r@.created_at),
        is_v4_uuid(r@.id),
{
    let mut fields: Vec<KeyValuePair> = Vec::new();
    fields.push(make_described_pair("field1", "{{value1}}", "First form field"));
    fields.push(make_described_pair("field2", "{{value2}}", "Second form field"));
    assert(pairs_view(fields@) =~= seq![described_pair("field1"@, "{{value1}}"@, "First form field"@), described_pair("field2"@, "{{value2}}"@, "Second form field"@)]);
    RequestTemplate::builtin(
        "POST Form Data",
        "A POST request with form-encoded data",
        TemplateCategory::Basic,
        HttpMethod::POST,
        "{{base_url}}/{{path}}",
    )
    .with_header("Content-Type", "application/x-www-form-urlencoded")
    .with_header("Accept", "application/json")
    .with_body(BodyTemplateType::FormUrlEncoded(fields))
    .with_variable(TemplateVariable::new("base_url", "The base URL of the API"))
    .with_variable(TemplateVariable::new("path", "The API endpoint path"))
    .with_variable(TemplateVariable::new("value1", "Value for field1"))
    .with_variable(TemplateVariable::new("value2", "Value for field2"))
}
/// The contents of the built-in "GraphQL Query" template, given its id and creation time.
pub open spec fn graphql_query_content(id: u128, created_at: Timestamp) -> TemplateView {
    add_variable(add_variable(add_variable(set_body(add_header(add_header(template_base(id, created_at, "GraphQL Query"@, "A POST request with a GraphQL query"@, TemplateCategory::Api, HttpMethod::POST, "{{graphql_url}}"@, true), "Content-Type"@, "application/json"@), "Accept"@, "application/json"@), BodyView::Raw { content: "{\n  \"query\": \"{{query}}\",\n  \"variables\": {{variables}}\n}"@, content_type: RawContentType::Json }), required_var("graphql_url"@, "The GraphQL endpoint URL"@)), required_var("query"@, "The GraphQL query"@)), defaulted_var("variables"@, "JSON object with query variables"@, "{}"@))
}
/// The built-in "GraphQL Query" template.
pub fn graphql_query_template() -> (r: RequestTemplate)
    ensures
        r@ == graphql_query_content(r@.id, r@.created_at),
        is_v4_uuid(r@.id),
{
    RequestTemplate::builtin(
        "GraphQL Query",
        "A POST request with a GraphQL query",
        TemplateCategory::Api,
        HttpMethod::POST,
        "{{graphql_url}}",
    )
    .with_header("Content-Type", "application/json")
    .with_header("Accept", "application/json")
    .with_body(BodyTemplateType::Raw { content: to_owned_string("{\n  \"query\": \"{{query}}\",\n  \"variables\": {{variables}}\n}"), content_type: RawContentType::Json })
    .with_variable(TemplateVariable::new("graphql_url", "The GraphQL endpoint URL"))
    .with_variable(TemplateVariable::new("query", "The GraphQL query"))
    .with_variable(TemplateVariable::new("variables", "JSON object with query variables").with_default("{}"))
}
/// The contents of the built-in template at position `k` of the catalogue.
pub open spec fn builtin_content(k: int, id: u128, created_at: Timestamp) -> TemplateView {
    if k == 0 {
        get_with_auth_content(id, created_at)
    } else if k == 1 {
        post_json_content(id, created_at)
    } else if k == 2 {
        put_update_content(id, created_at)
    } else if k == 3 {
        delete_resource_content(id, created_at)
    } else if k == 4 {
        oauth2_password_flow_content(id, created_at)
    } else if k == 5 {
        get_with_pagination_content(id, created_at)
    } else if k == 6 {
        post_form_content(id, created_at)
    } else {
        graphql_query_content(id, created_at)
    }
}

/// The number of built-in templates.
pub open spec fn builtin_count() -> nat {
    8
}

/// Whether a list of templates is the catalogue of built-in templates, in order,
/// each with a fresh id.
pub open spec fn is_builtin_catalogue(ts: Seq<TemplateView>) -> bool {
    &&& ts.len() == builtin_count()
    &&& forall|k: int| 0 <= k < ts.len() ==> #[trigger] ts[k] == builtin_content(k, ts[k].id, ts[k].created_at)
    &&& forall|k: int| 0 <= k < ts.len() ==> is_v4_uuid(#[trigger] ts[k].id)
}

/// The built-in templates, each with a fresh id.
pub fn get_builtin_templates() -> (r: Vec<RequestTemplate>)
    ensures
        is_builtin_catalogue(templates_view(r@)),
{
    let mut r: Vec<RequestTemplate> = Vec::new();
    r.push(get_with_auth_template());
    r.push(post_json_template());
    r.push(put_update_template());
    r.push(delete_template());
    r.push(oauth2_password_flow_template());
    r.push(get_with_pagination_template());
    r.push(post_form_template());
    r.push(graphql_query_template());
    proof {
        let tv = templates_view(r@);
        assert forall|k: int| 0 <= k < tv.len() implies #[trigger] tv[k] == builtin_content(k, tv[k].id, tv[k].created_at) by {
            assert(tv[k] == r@[k]@);
        }
    }
    r
}

} // verus!
