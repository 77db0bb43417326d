use reqforge::collection::{Collection, CollectionItem, Folder};
use reqforge::models::{HttpMethod, RequestDefinition};
use reqforge::sidebar::{
    collection_to_tree_items, delete_collection, find_request_in_item, method_color, new_collection_name, new_request_for,
    rename_collection, TreeItemMetadata, TreeItemType,
};

#[test]
fn test_tree_item_metadata() {
    let collection_id = uuid::Uuid::new_v4().as_u128();
    let folder_id = uuid::Uuid::new_v4().as_u128();
    let request_id = uuid::Uuid::new_v4().as_u128();

    let collection_meta = TreeItemMetadata::new_collection(collection_id);
    assert!(collection_meta.is_collection());
    assert!(!collection_meta.is_folder());
    assert!(!collection_meta.is_request());

    let folder_meta = TreeItemMetadata::new_folder(collection_id, folder_id);
    assert!(!folder_meta.is_collection());
    assert!(folder_meta.is_folder());
    assert!(!folder_meta.is_request());

    let request_meta = TreeItemMetadata::new_request(collection_id, Some(folder_id), request_id, HttpMethod::GET);
    assert!(!request_meta.is_collection());
    assert!(!request_meta.is_folder());
    assert!(request_meta.is_request());
    assert_eq!(request_meta.http_method, Some(HttpMethod::GET));
}

#[test]
fn test_method_colors() {
    let get_color = method_color(HttpMethod::GET);
    let post_color = method_color(HttpMethod::POST);
    let delete_color = method_color(HttpMethod::DELETE);
    assert_ne!(get_color, post_color);
    assert_ne!(post_color, delete_color);
    assert_eq!(get_color, 0x3b82f6);
}

fn sample() -> (Collection, u128, u128) {
    let mut c = Collection::new("API");
    let top = RequestDefinition::new("Top", HttpMethod::POST, "https://e.com/a");
    let top_id = top.id;
    c.add_request(top, None);
    let folder_id = 99u128;
    c.tree.push(CollectionItem::Folder(Folder { id: folder_id, name: "F".to_string(), children: Vec::new() }));
    let inner = RequestDefinition::new("Inner", HttpMethod::GET, "https://e.com/b");
    let inner_id = inner.id;
    c.add_request(inner, Some(folder_id));
    (c, top_id, inner_id)
}

#[test]
fn tree_of_a_collection() {
    let (c, top_id, _inner_id) = sample();
    let (root, meta) = collection_to_tree_items(&c);
    assert_eq!(meta.item_type, TreeItemType::Collection);
    assert_eq!(root.label, "API");
    assert!(root.expanded);
    assert_eq!(root.children.len(), 2);
    assert_eq!(root.children[0].label, "Top");
    assert_eq!(root.children[0].key, uuid::Uuid::from_u128(top_id).to_string());
    assert_eq!(root.children[1].key, format!("folder-{}", uuid::Uuid::from_u128(99)));
    assert_eq!(root.children[1].children[0].label, "Inner");
}

#[test]
fn find_request_searches_folders() {
    let (c, _top_id, inner_id) = sample();
    let found = find_request_in_item(&c.tree[1], &c.requests, inner_id);
    assert_eq!(found.unwrap().name, "Inner");
    assert!(find_request_in_item(&c.tree[0], &c.requests, inner_id).is_none());
}

#[test]
fn rename_and_delete_collections() {
    let (c, _, _) = sample();
    let id = c.id;
    let mut cs = vec![c, Collection::new("Other")];
    assert!(rename_collection(&mut cs, id));
    assert_eq!(cs[0].name, "API (renamed)");
    assert!(delete_collection(&mut cs, id));
    assert_eq!(cs.len(), 1);
    assert_eq!(cs[0].name, "Other");
    assert!(!delete_collection(&mut cs, id));
    assert_eq!(new_collection_name(cs.len()), "Collection 2");
    assert_eq!(new_collection_name(41), "Collection 42");
}

#[test]
fn new_requests_go_to_the_menu_collection_or_the_first() {
    let a = Collection::new("A");
    let b = Collection::new("B");
    let (a_id, b_id) = (a.id, b.id);
    let cols = vec![a, b];
    let menu = TreeItemMetadata::new_folder(b_id, 9);
    let (cid, req) = new_request_for(Some(&menu), &cols).unwrap();
    assert_eq!(cid, b_id);
    assert_eq!(req.name, "New Request");
    assert_eq!(req.method, HttpMethod::GET);
    assert_eq!(req.url, "{{base_url}}");
    let on_request = TreeItemMetadata::new_request(b_id, None, 5, HttpMethod::POST);
    assert_eq!(new_request_for(Some(&on_request), &cols).unwrap().0, a_id);
    assert_eq!(new_request_for(None, &cols).unwrap().0, a_id);
    assert!(new_request_for(None, &Vec::new()).is_none());
}
