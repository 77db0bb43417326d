use reqforge::env::VarMap;
use reqforge::history::{RequestHistory, RequestHistoryEntry};
use reqforge::models::{HttpMethod, RequestDefinition};
use reqforge::response::ResponseSnapshot;

fn ok_snapshot() -> ResponseSnapshot {
    ResponseSnapshot { status: 200, status_text: "OK".to_string(), size_bytes: 100, elapsed_millis: 50, success: true }
}

fn workspace() -> tempfile::TempDir {
    tempfile::tempdir().unwrap()
}

#[test]
fn test_add_entry() {
    let temp = workspace();
    let mut history = RequestHistory::new(temp.path().to_str().unwrap());
    let request = RequestDefinition::new("Test", HttpMethod::GET, "https://example.com");
    let entry = RequestHistoryEntry::new(request, ok_snapshot(), None, None);
    history.add_entry(entry);
    assert_eq!(history.len(), 1);
    assert!(!history.is_empty());
}

#[test]
fn test_max_size() {
    let temp = workspace();
    let mut history = RequestHistory::new(temp.path().to_str().unwrap()).with_max_size(3);
    for i in 0..5 {
        let request = RequestDefinition::new(&format!("Test {}", i), HttpMethod::GET, "https://example.com");
        let entry = RequestHistoryEntry::new(request, ok_snapshot(), None, None);
        history.add_entry(entry);
    }
    assert_eq!(history.len(), 3);
}

#[test]
fn test_get_recent() {
    let temp = workspace();
    let mut history = RequestHistory::new(temp.path().to_str().unwrap());
    for i in 0..10 {
        let request = RequestDefinition::new(&format!("Test {}", i), HttpMethod::GET, "https://example.com");
        let entry = RequestHistoryEntry::new(request, ok_snapshot(), None, None);
        history.add_entry(entry);
    }
    let recent = history.get_recent(5);
    assert_eq!(recent.len(), 5);
    assert_eq!(recent[0].request.name, "Test 9");
}

#[test]
fn history_test_clear() {
    let temp = workspace();
    let mut history = RequestHistory::new(temp.path().to_str().unwrap());
    let request = RequestDefinition::new("Test", HttpMethod::GET, "https://example.com");
    let entry = RequestHistoryEntry::new(request, ok_snapshot(), None, None);
    history.add_entry(entry);
    assert_eq!(history.len(), 1);
    history.clear();
    assert_eq!(history.len(), 0);
    assert!(history.is_empty());
}

// What is saved and loaded back: the entries come back most recent first.
#[test]
fn reloading_saved_entries_keeps_their_order() {
    let mut history = RequestHistory::new("/w");
    for i in 0..3 {
        let request = RequestDefinition::new(&format!("T{}", i), HttpMethod::GET, "https://example.com");
        history.add_entry(RequestHistoryEntry::new(request, ok_snapshot(), None, None));
    }
    let saved = history.entries_to_save().unwrap();
    assert_eq!(saved[0].request.name, "T2");
    let mut h2 = RequestHistory::new("/w");
    h2.load_entries(saved);
    let all = h2.get_all();
    assert_eq!(all.len(), 3);
    assert_eq!(all[0].request.name, "T2");
    assert_eq!(all[2].request.name, "T0");
    assert!(h2.entries_to_save().is_none());

    let mut small = RequestHistory::new("/w").with_max_size(2);
    small.load_entries(history.entries_to_save().unwrap());
    let kept = small.get_all();
    assert_eq!(kept.len(), 2);
    assert_eq!(kept[0].request.name, "T2");
    assert_eq!(kept[1].request.name, "T1");

    let mut one = RequestHistory::new("/w");
    one.add_entry(RequestHistoryEntry::new(RequestDefinition::new("Only", HttpMethod::GET, "https://e"), ok_snapshot(), None, None));
    let mut back = RequestHistory::new("/w");
    back.load_entries(one.entries_to_save().unwrap());
    assert_eq!(back.get_all()[0].request.name, "Only");
}

#[test]
fn replay_resolves_variables_and_reports_unknown_ids() {
    let mut history = RequestHistory::new("/w");
    let request = RequestDefinition::new("R", HttpMethod::GET, "{{base}}/users");
    let entry = RequestHistoryEntry::new(request, ok_snapshot(), None, None);
    let id = entry.id;
    history.add_entry(entry);
    let mut vars = VarMap::new();
    vars.insert("base".into(), "https://h".into());
    let r = history.replay_request(id, &vars).unwrap();
    assert_eq!(r.url, "https://h/users");
    assert_eq!(history.replay_request(id.wrapping_add(1), &vars).unwrap_err(), id.wrapping_add(1));
}

#[test]
fn get_recent_with_more_than_present() {
    let mut history = RequestHistory::new("/w");
    history.add_entry(RequestHistoryEntry::new(
        RequestDefinition::new("A", HttpMethod::GET, "https://e.com"),
        ok_snapshot(),
        None,
        None,
    ));
    assert_eq!(history.get_recent(10).len(), 1);
    assert_eq!(history.get_recent(0).len(), 0);
}
