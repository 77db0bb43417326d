use reqforge::body_editor::{BodyContentType, BodyEditor, EditorMode};

#[test]
fn body_editor_test_editor_creation() {
    let editor = BodyEditor::new();
    assert_eq!(editor.content_type, BodyContentType::Json);
    assert!(!editor.read_only);
    assert!(!editor.dirty);
}

#[test]
fn test_set_content_type() {
    let mut editor = BodyEditor::new();
    editor.set_content_type(BodyContentType::Xml);
    assert_eq!(editor.content_type, BodyContentType::Xml);
}

#[test]
fn test_mime_types() {
    assert_eq!(BodyContentType::Json.mime_type(), "application/json");
    assert_eq!(BodyContentType::Xml.mime_type(), "application/xml");
    assert_eq!(BodyContentType::Text.mime_type(), "text/plain");
    assert_eq!(BodyContentType::Html.mime_type(), "text/html");
}

#[test]
fn test_content_length() {
    let mut editor = BodyEditor::new();
    editor.set_content("Hello, World!".to_string());
    assert_eq!(editor.content_length(), 13);
}

#[test]
fn body_editor_test_clear() {
    let mut editor = BodyEditor::new();
    editor.set_content("Some content".to_string());
    assert!(!editor.is_empty());
    editor.clear();
    assert!(editor.is_empty());
}

#[test]
fn test_validate_json() {
    let mut editor = BodyEditor::new();
    editor.set_content("{\"key\": \"value\"}".to_string());
    assert!(editor.validate().is_ok());
    editor.set_content("{invalid json}".to_string());
    assert!(editor.validate().is_err());
}

#[test]
fn test_is_empty() {
    let mut editor = BodyEditor::with_type(BodyContentType::NoBody);
    assert!(editor.is_empty());
    editor.set_content("   ".to_string());
    assert!(editor.is_empty());
    editor.set_content("content".to_string());
    assert!(!editor.is_empty());
}

// Exact values the editor computes.

#[test]
fn new_editor_counts_default_lines() {
    let editor = BodyEditor::new();
    assert_eq!(editor.content, "{\n  \n}");
    assert_eq!(editor.line_count, 3);
    assert_eq!(editor.mode, EditorMode::MultiLine);
}

#[test]
fn content_length_counts_bytes() {
    let mut editor = BodyEditor::new();
    editor.set_content("héllo".to_string());
    assert_eq!(editor.content_length(), 6);
    assert_eq!(editor.get_content_bytes(), "héllo".as_bytes());
}

#[test]
fn form_types_use_the_form_mode() {
    let mut editor = BodyEditor::new();
    editor.set_content_type(BodyContentType::MultipartFormData);
    assert_eq!(editor.mode, EditorMode::Form);
    let e2 = BodyEditor::with_content(BodyContentType::FormUrlEncoded, "a=b".to_string());
    assert_eq!(e2.mode, EditorMode::Form);
}

#[test]
fn xml_validation_requires_a_tag() {
    let mut editor = BodyEditor::with_type(BodyContentType::Xml);
    editor.set_content("  <a/>".to_string());
    assert!(editor.validate().is_ok());
    editor.set_content("text".to_string());
    assert_eq!(editor.validate().unwrap_err(), "XML must start with '<'");
}

#[test]
fn formatting_is_refused_for_other_types() {
    let mut editor = BodyEditor::with_type(BodyContentType::Xml);
    assert_eq!(editor.format_content().unwrap_err(), "XML formatting not implemented");
    let mut t = BodyEditor::with_type(BodyContentType::Text);
    assert_eq!(t.format_content().unwrap_err(), "Formatting not available");
    assert_eq!(t.minify_content().unwrap_err(), "Minify not available");
}

#[test]
fn minify_and_format_json() {
    let mut editor = BodyEditor::new();
    editor.load_from_string("{ \"a\" : 1 }".to_string());
    editor.minify_content().unwrap();
    assert_eq!(editor.content, "{\"a\":1}");
    assert!(editor.is_dirty());
    editor.format_content().unwrap();
    assert_eq!(editor.content, "{\n  \"a\": 1\n}");
    assert_eq!(editor.line_count, 3);
    editor.set_content("{bad".to_string());
    assert_eq!(editor.format_content().unwrap_err(), "Invalid JSON");
}

#[test]
fn load_from_bytes_rejects_invalid_utf8() {
    let mut editor = BodyEditor::new();
    assert!(editor.load_from_bytes(b"ok\nfine").is_ok());
    assert_eq!(editor.line_count, 2);
    assert!(!editor.is_dirty());
    let err = editor.load_from_bytes(&[0xff, 0xfe]).unwrap_err();
    assert!(err.starts_with("Invalid UTF-8: "));
    assert_eq!(editor.content, "ok\nfine");
}

#[test]
fn display_names_and_extensions() {
    let all = BodyContentType::all();
    assert_eq!(all.len(), 7);
    assert_eq!(all[6].display_name(), "None");
    assert_eq!(BodyContentType::FormUrlEncoded.display_name(), "Form (URL-Encoded)");
    assert_eq!(BodyContentType::Html.file_extension(), "html");
    assert_eq!(BodyContentType::NoBody.mime_type(), "");
}

#[test]
fn cursor_position_counts_bytes_of_lines_before_it() {
    let mut e = BodyEditor::with_content(BodyContentType::Text, "ab\ncdé\nf".to_string());
    e.set_cursor(0, 1);
    assert_eq!(e.cursor_position(), 1);
    e.set_cursor(1, 0);
    assert_eq!(e.cursor_position(), 3);
    e.set_cursor(1, 99);
    assert_eq!(e.cursor_position(), 3 + 4);
    e.set_cursor(2, 1);
    assert_eq!(e.cursor_position(), 9);
    e.set_cursor(7, 0);
    assert_eq!(e.cursor_position(), e.content_length());
}

#[test]
fn cursor_position_skips_carriage_returns_as_lines_do() {
    let mut e = BodyEditor::with_content(BodyContentType::Text, "ab\r\ncd".to_string());
    e.set_cursor(1, 0);
    assert_eq!(e.cursor_position(), 3);
}

#[test]
fn insert_text_at_the_cursor() {
    let mut e = BodyEditor::with_content(BodyContentType::Text, "hello\nworld".to_string());
    e.mark_saved();
    e.set_cursor(1, 0);
    e.insert_text("big ");
    assert_eq!(e.get_content(), "hello\nbig world");
    assert!(e.is_dirty());
    assert_eq!(e.line_count, 2);
    e.set_cursor(0, 5);
    e.insert_text("\n");
    assert_eq!(e.get_content(), "hello\n\nbig world");
    assert_eq!(e.line_count, 3);
}

#[test]
fn delete_text_at_the_cursor_stops_at_the_end() {
    let mut e = BodyEditor::with_content(BodyContentType::Text, "héllo".to_string());
    e.set_cursor(0, 1);
    e.delete_text(2);
    assert_eq!(e.get_content(), "hllo");
    e.set_cursor(0, 2);
    e.delete_text(100);
    assert_eq!(e.get_content(), "hl");
    assert!(e.is_dirty());
    assert_eq!(e.line_count, 1);
}

#[test]
fn deleting_what_was_inserted_restores_the_text() {
    let original = "first line\nsecond é line\nthird";
    let mut e = BodyEditor::with_content(BodyContentType::Text, original.to_string());
    e.set_cursor(1, 9);
    e.insert_text("ÄB");
    assert_eq!(e.get_content(), "first line\nsecond éÄB line\nthird");
    e.delete_text("ÄB".len());
    assert_eq!(e.get_content(), original);
}

#[test]
fn dirty_flag_follows_the_last_edit_or_save() {
    let mut e = BodyEditor::with_content(BodyContentType::Text, "abc".to_string());
    assert!(!e.is_dirty());
    e.set_cursor(0, 1);
    assert!(!e.is_dirty());
    e.insert_text("x");
    assert!(e.is_dirty());
    e.mark_saved();
    assert!(!e.is_dirty());
    e.delete_text(1);
    assert!(e.is_dirty());
    e.load_from_string("saved".to_string());
    assert!(!e.is_dirty());
    e.set_content("saved".to_string());
    assert!(e.is_dirty());
    e.set_selection((0, 0), (0, 1));
    assert!(e.is_dirty());
}
