use reqforge::models::HttpMethod;
use reqforge::panels::{MethodPicker, RequestSubTab, ResponseSubTab};

#[test]
fn request_editor_test_sub_tab_display_names() {
    assert_eq!(RequestSubTab::Params.display_name(), "Params");
    assert_eq!(RequestSubTab::Headers.display_name(), "Headers");
    assert_eq!(RequestSubTab::Body.display_name(), "Body");
}

#[test]
fn response_viewer_test_sub_tab_display_names() {
    assert_eq!(ResponseSubTab::Body.display_name(), "Body");
    assert_eq!(ResponseSubTab::Headers.display_name(), "Headers");
}

#[test]
fn test_sub_tab_indices() {
    assert_eq!(ResponseSubTab::Body.index(), 0);
    assert_eq!(ResponseSubTab::Headers.index(), 1);
}

#[test]
fn sub_tab_from_index_falls_back_to_body() {
    assert_eq!(ResponseSubTab::from_index(1), ResponseSubTab::Headers);
    assert_eq!(ResponseSubTab::from_index(0), ResponseSubTab::Body);
    assert_eq!(ResponseSubTab::from_index(9), ResponseSubTab::Body);
    assert_eq!(RequestSubTab::all(), vec![RequestSubTab::Params, RequestSubTab::Headers, RequestSubTab::Body]);
}

#[test]
fn method_picker_selects_by_position() {
    let mut p = MethodPicker::new(HttpMethod::GET);
    p.toggle_method_dropdown();
    assert!(p.method_dropdown_open);
    p.select_method_by_index(4);
    assert_eq!(p.selected_method, HttpMethod::DELETE);
    assert!(!p.method_dropdown_open);
    p.select_method_by_index(7);
    assert_eq!(p.selected_method, HttpMethod::DELETE);
}
