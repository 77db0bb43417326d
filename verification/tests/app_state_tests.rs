use reqforge::app_state::{AppState, KeyValueRow};
use reqforge::collection::Collection;
use reqforge::history::RequestHistory;
use reqforge::models::{BodyType, HttpMethod, KeyValuePair, RawContentType, RequestDefinition};
use reqforge::response::HttpResponse;
use reqforge::workspace::{JsonStore, ReqForgeCore};

fn state() -> AppState {
    let core = ReqForgeCore::from_parts(JsonStore::new("/w"), Vec::new(), Vec::new(), RequestHistory::new("/w"));
    AppState::new(core)
}

fn open(s: &mut AppState, name: &str) {
    let r = RequestDefinition::new(name, HttpMethod::GET, "https://e.com");
    s.open_tab(r.id, 1, r);
}

#[test]
fn tabs_open_close_and_cycle() {
    let mut s = state();
    open(&mut s, "a");
    open(&mut s, "b");
    open(&mut s, "c");
    assert_eq!(s.active_tab, Some(2));
    s.next_tab();
    assert_eq!(s.active_tab, Some(0));
    s.previous_tab();
    assert_eq!(s.active_tab, Some(2));
    s.select_tab(1);
    s.close_active_tab();
    assert_eq!(s.tabs.len(), 2);
    assert_eq!(s.active_tab, Some(1));
    assert_eq!(s.active_tab().unwrap().draft.name, "c");
    s.close_tab(0);
    assert_eq!(s.active_tab, Some(0));
    s.close_active_tab();
    assert_eq!(s.active_tab, None);
    assert!(s.active_request().is_err());
}

#[test]
fn closing_the_active_tab_selects_the_previous() {
    let mut s = state();
    open(&mut s, "a");
    open(&mut s, "b");
    s.close_tab(1);
    assert_eq!(s.active_tab, Some(0));
    s.close_tab(5);
    assert_eq!(s.tabs.len(), 1);
}

#[test]
fn sending_needs_a_url() {
    let mut s = state();
    let r = RequestDefinition::new("blank", HttpMethod::GET, "  ");
    s.open_tab(r.id, 1, r);
    assert!(s.begin_send().is_none());
    let resp = s.tabs[0].last_response.as_ref().unwrap();
    assert_eq!(resp.status_text, "Invalid Request");
    assert_eq!(resp.body, b"Error: URL cannot be empty. Please enter a valid URL.".to_vec());
    open(&mut s, "ok");
    let req = s.begin_send().unwrap();
    assert_eq!(req.url, "https://e.com");
    assert!(s.tabs[1].is_loading);
    s.finish_send(Err("boom".to_string()));
    let resp = s.tabs[1].last_response.as_ref().unwrap();
    assert_eq!(resp.status, 0);
    assert_eq!(resp.body, b"Request failed: boom".to_vec());
    assert!(!s.tabs[1].is_loading);
    let good = HttpResponse {
        status: 200,
        status_text: "OK".into(),
        headers: vec![],
        body: b"{}".to_vec(),
        size_bytes: 2,
        elapsed_secs: 0,
        elapsed_subsec_nanos: 5_000_000,
    };
    s.finish_send(Ok(good));
    assert_eq!(s.tabs[1].last_response.as_ref().unwrap().status, 200);
}

#[test]
fn opening_a_request_reuses_its_tab() {
    let mut c = Collection::new("C");
    let r = RequestDefinition::new("R", HttpMethod::GET, "https://e.com");
    let rid = r.id;
    c.add_request(r, None);
    let cid = c.id;
    let core = ReqForgeCore::from_parts(JsonStore::new("/w"), Vec::new(), vec![c], RequestHistory::new("/w"));
    let mut s = AppState::new(core);
    assert!(!s.open_request_in_tab(cid, rid.wrapping_add(1)));
    assert!(s.open_request_in_tab(cid, rid));
    assert_eq!(s.tabs.len(), 1);
    open(&mut s, "other");
    assert!(s.open_request_in_tab(cid, rid));
    assert_eq!(s.tabs.len(), 2);
    assert_eq!(s.active_tab, Some(0));
}

#[test]
fn rows_and_pairs() {
    let row = KeyValueRow::from_kv_pair(&KeyValuePair {
        key: "k".into(),
        value: "v".into(),
        enabled: false,
        description: Some("d".into()),
    });
    let p = row.to_kv_pair();
    assert_eq!(p.key, "k");
    assert!(!p.enabled);
    assert!(p.description.is_none());
    assert!(KeyValueRow::new().enabled);
}

#[test]
fn sent_request_carries_the_tab_request_id() {
    let mut s = state();
    let r = RequestDefinition::new("a", HttpMethod::GET, "https://e.com");
    let draft_id = r.id;
    s.open_tab(draft_id.wrapping_add(1), 1, r);
    let sent = s.begin_send().unwrap();
    assert_eq!(sent.id, draft_id.wrapping_add(1));
    assert_eq!(sent.name, "a");
    assert!(s.active_tab().unwrap().is_loading);
}

#[test]
fn opening_a_stored_request_twice_keeps_one_tab() {
    let mut s = state();
    let mut c = Collection::new("C");
    let r = RequestDefinition::new("r", HttpMethod::GET, "https://e.com");
    let rid = r.id;
    c.add_request(r, None);
    let cid = c.id;
    s.core.collections.push(c);
    open(&mut s, "other");
    assert!(s.open_request_in_tab(cid, rid));
    assert_eq!(s.tabs.len(), 2);
    s.select_tab(0);
    assert!(s.open_request_in_tab(cid, rid));
    assert_eq!(s.tabs.len(), 2);
    assert_eq!(s.active_tab, Some(1));
    assert!(!s.open_request_in_tab(cid, rid.wrapping_add(1)));
    assert_eq!(s.active_tab, Some(1));
}

#[test]
fn sent_request_carries_body_text_as_json_and_pairs_without_descriptions() {
    let mut s = state();
    let mut r = RequestDefinition::new("x", HttpMethod::POST, "https://e.com");
    r.headers.push(KeyValuePair {
        key: "A".to_string(),
        value: "1".to_string(),
        enabled: false,
        description: Some("note".to_string()),
    });
    r.body = BodyType::Raw { content: "<a/>".to_string(), content_type: RawContentType::Xml };
    s.open_tab(r.id, 1, r);
    let sent = s.begin_send().unwrap();
    assert_eq!(sent.headers.len(), 1);
    assert_eq!(sent.headers[0].key, "A");
    assert!(!sent.headers[0].enabled);
    assert_eq!(sent.headers[0].description, None);
    match &sent.body {
        BodyType::Raw { content, content_type } => {
            assert_eq!(content, "<a/>");
            assert_eq!(*content_type, RawContentType::Json);
        }
        _ => panic!("expected a raw body"),
    }

    let mut s2 = state();
    let mut e = RequestDefinition::new("y", HttpMethod::POST, "https://e.com");
    e.body = BodyType::Raw { content: String::new(), content_type: RawContentType::Text };
    s2.open_tab(e.id, 1, e);
    assert!(matches!(s2.begin_send().unwrap().body, BodyType::NoBody));
}
