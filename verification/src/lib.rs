//! Core logic of the ReqForge HTTP client: request models, validation,
//! variable interpolation, templates, history and import/export rules.

pub mod text;
pub mod ids;
pub mod models;
pub mod validation;
pub mod env;
pub mod collection;
pub mod json;
pub mod response;
pub mod history;
pub mod templates;
pub mod builtin_templates;
pub mod body_editor;
pub mod kv_editor;
pub mod workspace;
pub mod app_state;
pub mod bridge;
pub mod panels;
pub mod import_export;
pub mod json_value;
pub mod postman;
pub mod request_json;
pub mod commands;
pub mod env_editor;
pub mod sidebar;
pub mod openapi;
