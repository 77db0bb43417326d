use reqforge::collection::{Collection, CollectionItem, Folder};
use reqforge::env::{Environment, Variable};
use reqforge::import_export::{
    collection_entry_name, environment_entry_name, is_collection_entry, is_environment_entry, validate_collection,
    validate_environment, ExportError, ExportErrorKind, ImportError, ImportErrorKind,
};
use reqforge::models::{HttpMethod, RequestDefinition};

#[test]
fn test_validate_empty_collection_name() {
    let collection = Collection::new("");
    let result = validate_collection(&collection);
    assert!(result.is_err());
    assert!(matches!(result.unwrap_err().kind(), ImportErrorKind::Validation));
}

#[test]
fn test_validate_empty_environment_name() {
    let environment = Environment::new("");
    let result = validate_environment(&environment);
    assert!(result.is_err());
    assert!(matches!(result.unwrap_err().kind(), ImportErrorKind::Validation));
}

#[test]
fn dangling_request_reference_is_reported() {
    let mut c = Collection::new("C");
    c.add_request(RequestDefinition::new("R", HttpMethod::GET, "https://e.com"), None);
    assert!(validate_collection(&c).is_ok());
    c.tree.push(CollectionItem::Folder(Folder { id: 1, name: "F".into(), children: vec![CollectionItem::Request(5)] }));
    let e = validate_collection(&c).unwrap_err();
    assert_eq!(e.message(), format!("Request ID {} not found in collection", uuid::Uuid::from_u128(5)));
    c.tree.pop();
    c.tree.push(CollectionItem::Folder(Folder { id: 1, name: "  ".into(), children: vec![] }));
    assert_eq!(validate_collection(&c).unwrap_err().message(), "Folder name cannot be empty");
}

#[test]
fn duplicate_variable_keys_are_reported() {
    let mut env = Environment::new("E");
    env.variables.push(Variable { key: " ".into(), value: "".into(), secret: false, enabled: true });
    env.variables.push(Variable { key: " ".into(), value: "".into(), secret: false, enabled: true });
    env.variables.push(Variable { key: "k".into(), value: "1".into(), secret: false, enabled: true });
    assert!(validate_environment(&env).is_ok());
    env.variables.push(Variable { key: "k".into(), value: "2".into(), secret: false, enabled: false });
    let e = validate_environment(&env).unwrap_err();
    assert_eq!(e.message(), "Duplicate variable key: k");
    assert_eq!(e.to_string(), "Validation: Duplicate variable key: k");
}

#[test]
fn archive_entry_names() {
    let id = 0x0123_4567_89ab_cdef_0123_4567_89ab_cdefu128;
    assert_eq!(collection_entry_name(id), "collections/01234567-89ab-cdef-0123-456789abcdef.json");
    assert_eq!(environment_entry_name(id), "environments/01234567-89ab-cdef-0123-456789abcdef.json");
    assert!(is_collection_entry("collections/x.json"));
    assert!(!is_collection_entry("collections/"));
    assert!(is_environment_entry("environments/y.json"));
    assert!(!is_environment_entry("workspace-info.json"));
}

#[test]
fn error_texts() {
    let e = ImportError::new(ImportErrorKind::InvalidFormat, "bad");
    assert_eq!(e.to_string(), "InvalidFormat: bad");
    let x = ExportError::new(ExportErrorKind::ZipError, "z");
    assert_eq!(*x.kind(), ExportErrorKind::ZipError);
    assert_eq!(x.message(), "z");
    assert_eq!(x.to_string(), "ZipError: z");
}

#[test]
fn collections_built_by_adding_requests_stay_valid() {
    let mut c = Collection::new("Built");
    let folder_id = 42u128;
    c.tree.push(CollectionItem::Folder(Folder { id: folder_id, name: "F".to_string(), children: Vec::new() }));
    assert!(validate_collection(&c).is_ok());
    c.add_request(RequestDefinition::new("top", HttpMethod::GET, "https://e"), None);
    c.add_request(RequestDefinition::new("inner", HttpMethod::POST, "https://e"), Some(folder_id));
    c.add_request(RequestDefinition::new("nowhere", HttpMethod::PUT, "https://e"), Some(7));
    assert_eq!(c.requests.len(), 3);
    assert!(validate_collection(&c).is_ok());
}
