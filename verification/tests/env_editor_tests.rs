use reqforge::env::{Environment, Variable};
use reqforge::env_editor::{EnvEditorModal, EnvMenuItem, VariableRow};

#[test]
fn test_modal_creation() {
    let modal = EnvEditorModal::new();
    assert!(!modal.is_open);
    assert!(modal.environments.is_empty());
    assert!(modal.selected_env_index.is_none());
}

#[test]
fn test_modal_with_environments() {
    let envs = vec![Environment::new("Development"), Environment::new("Production")];
    let modal = EnvEditorModal::with_environments(envs);
    assert_eq!(modal.environments.len(), 2);
    assert_eq!(modal.selected_env_index, Some(0));
}

#[test]
fn test_variable_row_creation() {
    let row = VariableRow::new("API_KEY", "secret123");
    assert_eq!(row.variable.key, "API_KEY");
    assert_eq!(row.variable.value, "secret123");
    assert!(row.variable.enabled);
    assert!(!row.variable.secret);
}

#[test]
fn test_env_menu_item_variants() {
    let _no_env = EnvMenuItem::NoEnvironment;
    let id = uuid::Uuid::new_v4().as_u128();
    let _select = EnvMenuItem::SelectEnvironment(id);
    let _manage = EnvMenuItem::ManageEnvironments;
}

// The editor's own rules.

#[test]
fn edits_are_written_back_on_save_and_on_switch() {
    let mut dev = Environment::new("Dev");
    dev.variables.push(Variable { key: "a".into(), value: "1".into(), secret: false, enabled: true });
    let prod = Environment::new("Prod");
    let mut modal = EnvEditorModal::with_environments(vec![dev, prod]);
    assert_eq!(modal.variable_rows.len(), 1);
    modal.add_variable();
    assert_eq!(modal.selected_var_index, Some(1));
    modal.toggle_variable_secret(1);
    modal.select_environment(1);
    assert_eq!(modal.environments[0].variables.len(), 2);
    assert!(modal.environments[0].variables[1].secret);
    assert!(modal.variable_rows.is_empty());
    modal.rename_environment("Production".into());
    let saved = modal.save();
    assert_eq!(saved[1].name, "Production");
    assert!(!modal.has_unsaved_changes);
}

#[test]
fn removing_the_last_environment_selects_the_previous() {
    let mut modal = EnvEditorModal::with_environments(vec![Environment::new("A"), Environment::new("B")]);
    modal.select_environment(1);
    modal.remove_environment();
    assert_eq!(modal.selected_env_index, Some(0));
    assert_eq!(modal.environments.len(), 1);
    modal.remove_environment();
    assert_eq!(modal.selected_env_index, None);
    modal.add_environment();
    assert_eq!(modal.environments[0].name, "New Environment");
    assert_eq!(modal.selected_env_index, Some(0));
}

#[test]
fn menu_items_change_the_active_environment() {
    let id = 42u128;
    assert_eq!(EnvMenuItem::SelectEnvironment(id).apply(None), Some(id));
    assert_eq!(EnvMenuItem::NoEnvironment.apply(Some(id)), None);
    assert_eq!(EnvMenuItem::ManageEnvironments.apply(Some(id)), Some(id));
    assert!(EnvMenuItem::ManageEnvironments.opens_editor());
}
