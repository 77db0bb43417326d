use reqforge::env::Variable;
use reqforge::kv_editor::{EditorType, KeyValueEditor, KeyValueRow};

#[test]
fn key_value_editor_test_editor_creation() {
    let editor = KeyValueEditor::new(EditorType::Headers);
    assert_eq!(editor.editor_type, EditorType::Headers);
    assert!(editor.rows.is_empty());
    assert!(!editor.read_only);
}

#[test]
fn test_add_row() {
    let mut editor = KeyValueEditor::new(EditorType::Params);
    let id = editor.add_row();
    assert_eq!(editor.rows.len(), 1);
    assert_eq!(editor.rows[0].id, id);
}

#[test]
fn test_remove_row() {
    let mut editor = KeyValueEditor::new(EditorType::FormData);
    let id = editor.add_row();
    assert_eq!(editor.rows.len(), 1);
    assert!(editor.remove_row(id));
    assert_eq!(editor.rows.len(), 0);
}

#[test]
fn test_toggle_row() {
    let mut editor = KeyValueEditor::new(EditorType::Params);
    let id = editor.add_row();
    assert!(editor.rows[0].enabled);
    editor.toggle_row(id);
    assert!(!editor.rows[0].enabled);
    editor.toggle_row(id);
    assert!(editor.rows[0].enabled);
}

#[test]
fn test_from_pairs() {
    let pairs = vec![
        ("Accept".to_string(), "application/json".to_string()),
        ("Content-Type".to_string(), "text/plain".to_string()),
    ];
    let editor = KeyValueEditor::from_pairs(EditorType::Headers, pairs);
    assert_eq!(editor.rows.len(), 2);
    assert_eq!(editor.rows[0].key, "Accept");
    assert_eq!(editor.rows[1].key, "Content-Type");
}

#[test]
fn test_to_pairs() {
    let mut editor = KeyValueEditor::new(EditorType::Params);
    editor.add_row();
    editor.rows[0].key = "foo".to_string();
    editor.rows[0].value = "bar".to_string();
    let pairs = editor.to_pairs();
    assert_eq!(pairs.len(), 1);
    assert_eq!(pairs[0], (String::from("foo"), String::from("bar")));
}

#[test]
fn test_valid_count() {
    let mut editor = KeyValueEditor::new(EditorType::Headers);
    editor.add_row();
    editor.rows[0].key = "Valid".to_string();
    editor.rows[0].value = "Value".to_string();
    editor.add_row();
    assert_eq!(editor.valid_count(), 1);
    assert_eq!(editor.total_count(), 2);
}

#[test]
fn test_cleanup() {
    let mut editor = KeyValueEditor::new(EditorType::Params);
    editor.add_row();
    editor.rows[0].key = "good".to_string();
    editor.rows[0].value = "row".to_string();
    editor.add_row();
    let removed = editor.cleanup();
    assert_eq!(removed, 1);
    assert_eq!(editor.rows.len(), 1);
    assert_eq!(editor.rows[0].key, "good");
}

// The editor's own rules.

#[test]
fn removing_a_row_moves_the_focus() {
    let mut editor = KeyValueEditor::new(EditorType::Params);
    let a = editor.add_row();
    editor.add_row();
    editor.add_row();
    assert_eq!(editor.focused_row, Some(2));
    assert!(editor.remove_row(a));
    assert_eq!(editor.focused_row, Some(1));
    assert!(editor.remove_row_at(1));
    assert_eq!(editor.focused_row, None);
    assert!(!editor.remove_row_at(5));
    assert!(!editor.remove_row(a));
}

#[test]
fn secret_values_are_masked() {
    let mut row = KeyValueRow::from_kv("k".to_string(), "v".to_string());
    assert_eq!(row.display_value(), "v");
    row.secret = true;
    assert_eq!(row.display_value(), "••••••••");
    row.value = String::new();
    assert_eq!(row.display_value(), "");
}

#[test]
fn variables_round_trip_through_the_editor() {
    let vars = vec![
        Variable { key: "a".into(), value: "1".into(), secret: true, enabled: false },
        Variable { key: "b".into(), value: "2".into(), secret: false, enabled: true },
    ];
    let editor = KeyValueEditor::from_variables(&vars);
    assert!(editor.show_secret_toggle);
    let back = editor.to_variables();
    assert_eq!(back.len(), 2);
    assert_eq!(back[0].key, "a");
    assert!(back[0].secret);
    assert!(!back[0].enabled);
    let m = editor.to_map();
    assert_eq!(m.get("b").map(|s| s.as_str()), Some("2"));
    assert!(!m.contains_key("a"));
}

#[test]
fn updates_and_placeholders() {
    let mut editor = KeyValueEditor::new(EditorType::Variables);
    assert!(editor.show_secret_toggle);
    let id = editor.add_row();
    assert!(editor.update_key(id, "K".into()));
    assert!(editor.update_value(id, "V".into()));
    assert!(editor.toggle_secret(id));
    assert!(editor.rows[0].secret);
    assert!(!editor.update_key(id.wrapping_add(1), "X".into()));
    assert_eq!(EditorType::Params.display_name(), "Query Parameters");
    assert_eq!(EditorType::Headers.key_placeholder(), "Header name");
    assert_eq!(EditorType::FormData.value_placeholder(), "Field value");
    editor.focus_row(7);
    assert_eq!(editor.focused_row, Some(0));
    editor.clear_focus();
    assert_eq!(editor.focused_row, None);
}

#[test]
fn cleanup_twice_removes_nothing_more_and_keeps_pairs() {
    let mut editor = KeyValueEditor::from_pairs(
        EditorType::Params,
        vec![("a".to_string(), "1".to_string()), ("".to_string(), "".to_string()), ("b".to_string(), "".to_string())],
    );
    editor.add_row();
    let pairs_before = editor.to_pairs();
    assert_eq!(editor.cleanup(), 2);
    assert_eq!(editor.to_pairs(), pairs_before);
    assert_eq!(editor.cleanup(), 0);
    assert_eq!(editor.rows.len(), 2);
}

#[test]
fn pairs_with_keys_come_back_from_the_editor() {
    let pairs = vec![("k1".to_string(), "v1".to_string()), ("k2".to_string(), "".to_string())];
    let editor = KeyValueEditor::from_pairs(EditorType::Headers, pairs.clone());
    assert_eq!(editor.to_pairs(), pairs);
}
