//! The sidebar: the collections shown as a tree, what each node stands for, the
//! search for a request in a tree, and the sidebar's edits of the collection list.
use vstd::prelude::*;
use std::collections::HashMap;
use crate::collection::{Collection, CollectionItem, ItemView, item_view, items_view};
use crate::ids::{id_text, uuid_text};
use crate::models::{BodyView, HttpMethod, RequestDefinition, RequestView};
use crate::text::{to_owned_string, push_str};

verus! {

broadcast use vstd::std_specs::hash::group_hash_axioms;

/// What a sidebar node stands for.
#[derive(Clone, Copy, Debug, PartialEq, Eq, Structural)]
pub enum TreeItemType {
    Collection,
    Folder,
    Request,
}

/// What a node stands for, with the ids it carries.
#[derive(Clone, Copy, Debug, PartialEq, Eq, Structural)]
pub struct TreeItemMetadata {
    pub item_type: TreeItemType,
    pub collection_id: u128,
    pub folder_id: Option<u128>,
    pub request_id: Option<u128>,
    pub http_method: Option<HttpMethod>,
}

impl TreeItemMetadata {
    /// The node of a collection.
    pub fn new_collection(collection_id: u128) -> (r: TreeItemMetadata)
        ensures
            r == (TreeItemMetadata {
                item_type: TreeItemType::Collection,
                collection_id,
                folder_id: None,
                request_id: None,
                http_method: None,
            }),
    {
        TreeItemMetadata {
            item_type: TreeItemType::Collection,
            collection_id,
            folder_id: None,
            request_id: None,
            http_method: None,
        }
    }

    /// The node of a folder.
    pub fn new_folder(collection_id: u128, folder_id: u128) -> (r: TreeItemMetadata)
        ensures
            r == (TreeItemMetadata {
                item_type: TreeItemType::Folder,
                collection_id,
                folder_id: Some(folder_id),
                request_id: None,
                http_method: None,
            }),
    {
        TreeItemMetadata {
            item_type: TreeItemType::Folder,
            collection_id,
            folder_id: Some(folder_id),
            request_id: None,
            http_method: None,
        }
    }

    /// The node of a request.
    pub fn new_request(collection_id: u128, folder_id: Option<u128>, request_id: u128, method: HttpMethod) -> (r:
        TreeItemMetadata)
        ensures
            r == (TreeItemMetadata {
                item_type: TreeItemType::Request,
                collection_id,
                folder_id,
                request_id: Some(request_id),
                http_method: Some(method),
            }),
    {
        TreeItemMetadata {
            item_type: TreeItemType::Request,
            collection_id,
            folder_id,
            request_id: Some(request_id),
            http_method: Some(method),
        }
    }

    /// Whether the node is a request.
    pub fn is_request(&self) -> (r: bool)
        ensures
            r == (self.item_type == TreeItemType::Request),
    {
        self.item_type == TreeItemType::Request
    }

    /// Whether the node is a folder.
    pub fn is_folder(&self) -> (r: bool)
        ensures
            r == (self.item_type == TreeItemType::Folder),
    {
        self.item_type == TreeItemType::Folder
    }

    /// Whether the node is a collection.
    pub fn is_collection(&self) -> (r: bool)
        ensures
            r == (self.item_type == TreeItemType::Collection),
    {
        self.item_type == TreeItemType::Collection
    }
}

/// The badge colour of a method, as `0xRRGGBB`.
pub open spec fn method_rgb(m: HttpMethod) -> u32 {
    match m {
        HttpMethod::GET => 0x3b82f6,
        HttpMethod::POST => 0x22c55e,
        HttpMethod::PUT => 0xf59e0b,
        HttpMethod::PATCH => 0x8b5cf6,
        HttpMethod::DELETE => 0xef4444,
        HttpMethod::HEAD => 0x6b7280,
        HttpMethod::OPTIONS => 0x06b6d4,
    }
}

/// The badge colour of a method, as `0xRRGGBB`.
pub fn method_color(method: HttpMethod) -> (r: u32)
    ensures
        r == method_rgb(method),
{
    match method {
        HttpMethod::GET => 0x3b82f6,
        HttpMethod::POST => 0x22c55e,
        HttpMethod::PUT => 0xf59e0b,
        HttpMethod::PATCH => 0x8b5cf6,
        HttpMethod::DELETE => 0xef4444,
        HttpMethod::HEAD => 0x6b7280,
        HttpMethod::OPTIONS => 0x06b6d4,
    }
}

/// A node of the displayed tree: its key, its label, whether it is expanded, and
/// its children.
#[derive(Debug)]
pub struct TreeNode {
    pub key: String,
    pub label: String,
    pub expanded: bool,
    pub children: Vec<TreeNode>,
}

/// The mathematical value of a displayed node.
pub struct NodeView {
    pub key: Seq<char>,
    pub label: Seq<char>,
    pub expanded: bool,
    pub children: Seq<NodeView>,
}

/// The value of a displayed node.
pub open spec fn node_view(n: TreeNode) -> NodeView
    decreases n, 0nat,
{
    NodeView { key: n.key@, label: n.label@, expanded: n.expanded, children: nodes_view(n.children@) }
}

/// The values of displayed nodes.
pub open spec fn nodes_view(s: Seq<TreeNode>) -> Seq<NodeView>
    decreases s, s.len(),
{
    if s.len() == 0 {
        Seq::empty()
    } else {
        seq![node_view(s[0])] + nodes_view(s.drop_first())
    }
}

/// The node shown for a tree item: a folder is keyed `folder-{id}` and shown
/// expanded with its children; a request is keyed by its id and labelled with its
/// name, or "Unknown Request" when the collection lacks it.
pub open spec fn item_node(item: ItemView, requests: Map<u128, RequestView>) -> NodeView
    decreases item, 0nat,
{
    match item {
        ItemView::Folder { id, name, children } => NodeView {
            key: "folder-"@ + uuid_text(id),
            label: name,
            expanded: true,
            children: items_nodes(children, requests),
        },
        ItemView::Request(rid) => if requests.contains_key(rid) {
            NodeView {
                key: uuid_text(requests[rid].id),
                label: requests[rid].name,
                expanded: false,
                children: Seq::empty(),
            }
        } else {
            NodeView { key: uuid_text(rid), label: "Unknown Request"@, expanded: false, children: Seq::empty() }
        },
    }
}

/// The nodes shown for tree items, in order.
pub open spec fn items_nodes(items: Seq<ItemView>, requests: Map<u128, RequestView>) -> Seq<NodeView>
    decreases items, items.len(),
{
    if items.len() == 0 {
        Seq::empty()
    } else {
        seq![item_node(items[0], requests)] + items_nodes(items.drop_first(), requests)
    }
}

/// What a tree item's node stands for.
pub open spec fn item_metadata(item: ItemView, collection_id: u128, requests: Map<u128, RequestView>) -> TreeItemMetadata {
    match item {
        ItemView::Folder { id, .. } => TreeItemMetadata {
            item_type: TreeItemType::Folder,
            collection_id,
            folder_id: Some(id),
            request_id: None,
            http_method: None,
        },
        ItemView::Request(rid) => TreeItemMetadata {
            item_type: TreeItemType::Request,
            collection_id,
            folder_id: None,
            request_id: Some(if requests.contains_key(rid) {
                requests[rid].id
            } else {
                rid
            }),
            http_method: Some(
                if requests.contains_key(rid) {
                    requests[rid].method
                } else {
                    HttpMethod::GET
                },
            ),
        },
    }
}

proof fn lemma_items_view_index(s: Seq<CollectionItem>)
    ensures
        items_view(s).len() == s.len(),
        forall|k: int| 0 <= k < s.len() ==> #[trigger] items_view(s)[k] == item_view(s[k]),
    decreases s.len(),
{
    if s.len() > 0 {
        lemma_items_view_index(s.drop_first());
        assert forall|k: int| 0 <= k < s.len() implies #[trigger] items_view(s)[k] == item_view(s[k]) by {
            if k > 0 {
                assert(s.drop_first()[k - 1] == s[k]);
            }
        }
    }
}

proof fn lemma_items_nodes_index(s: Seq<ItemView>, requests: Map<u128, RequestView>)
    ensures
        items_nodes(s, requests).len() == s.len(),
        forall|k: int| 0 <= k < s.len() ==> #[trigger] items_nodes(s, requests)[k] == item_node(s[k], requests),
    decreases s.len(),
{
    if s.len() > 0 {
        lemma_items_nodes_index(s.drop_first(), requests);
        assert forall|k: int| 0 <= k < s.len() implies #[trigger] items_nodes(s, requests)[k] == item_node(
            s[k],
            requests,
        ) by {
            if k > 0 {
                assert(s.drop_first()[k - 1] == s[k]);
            }
        }
    }
}

proof fn lemma_nodes_view_index(s: Seq<TreeNode>)
    ensures
        nodes_view(s).len() == s.len(),
        forall|k: int| 0 <= k < s.len() ==> #[trigger] nodes_view(s)[k] == node_view(s[k]),
    decreases s.len(),
{
    if s.len() > 0 {
        lemma_nodes_view_index(s.drop_first());
        assert forall|k: int| 0 <= k < s.len() implies #[trigger] nodes_view(s)[k] == node_view(s[k]) by {
            if k > 0 {
                assert(s.drop_first()[k - 1] == s[k]);
            }
        }
    }
}

/// The values of the requests of a collection.
pub open spec fn request_views(m: Map<u128, RequestDefinition>) -> Map<u128, RequestView> {
    m.map_values(|r: RequestDefinition| r@)
}

/// The node, and what it stands for, of one tree item.
pub fn collection_item_to_tree_item(
    item: &CollectionItem,
    collection_id: u128,
    requests: &HashMap<u128, RequestDefinition>,
) -> (r: (TreeNode, TreeItemMetadata))
    ensures
        node_view(r.0) == item_node(item_view(*item), request_views(requests@)),
        r.1 == item_metadata(item_view(*item), collection_id, request_views(requests@)),
    decreases *item, 0nat,
{
    match item {
        CollectionItem::Folder(folder) => {
            proof {
                assert(decreases_to!(*item => folder.children@));
            }
            let children = items_to_tree_items(&folder.children, collection_id, requests);
            let mut key = to_owned_string("folder-");
            let t = id_text(folder.id);
            push_str(&mut key, t.as_str());
            let node = TreeNode { key, label: folder.name.clone(), expanded: true, children };
            (node, TreeItemMetadata::new_folder(collection_id, folder.id))
        },
        CollectionItem::Request(rid) => {
            match requests.get(rid) {
                Some(request) => {
                    let node = TreeNode {
                        key: id_text(request.id),
                        label: request.name.clone(),
                        expanded: false,
                        children: Vec::new(),
                    };
                    assert(nodes_view(node.children@) =~= Seq::empty());
                    (node, TreeItemMetadata::new_request(collection_id, None, request.id, request.method))
                },
                None => {
                    let node = TreeNode {
                        key: id_text(*rid),
                        label: to_owned_string("Unknown Request"),
                        expanded: false,
                        children: Vec::new(),
                    };
                    assert(nodes_view(node.children@) =~= Seq::empty());
                    (node, TreeItemMetadata::new_request(collection_id, None, *rid, HttpMethod::GET))
                },
            }
        },
    }
}

/// The nodes of tree items, in order.
fn items_to_tree_items(
    items: &Vec<CollectionItem>,
    collection_id: u128,
    requests: &HashMap<u128, RequestDefinition>,
) -> (r: Vec<TreeNode>)
    ensures
        nodes_view(r@) == items_nodes(items_view(items@), request_views(requests@)),
    decreases items@, 1nat,
{
    let ghost rv = request_views(requests@);
    proof {
        lemma_items_view_index(items@);
        lemma_items_nodes_index(items_view(items@), rv);
    }
    let mut r: Vec<TreeNode> = Vec::new();
    let mut i: usize = 0;
    while i < items.len()
        invariant
            0 <= i <= items@.len(),
            rv == request_views(requests@),
            r@.len() == i,
            items_view(items@).len() == items@.len(),
            forall|k: int| 0 <= k < items@.len() ==> #[trigger] items_view(items@)[k] == item_view(items@[k]),
            items_nodes(items_view(items@), rv).len() == items@.len(),
            forall|k: int|
                0 <= k < items@.len() ==> #[trigger] items_nodes(items_view(items@), rv)[k] == item_node(
                    items_view(items@)[k],
                    rv,
                ),
            forall|k: int| 0 <= k < i ==> #[trigger] node_view(r@[k]) == item_node(item_view(items@[k]), rv),
        decreases items@.len() - i,
    {
        proof {
            assert(decreases_to!(items@ => items@[i as int]));
        }
        let (node, _meta) = collection_item_to_tree_item(&items[i], collection_id, requests);
        r.push(node);
        i = i + 1;
    }
    proof {
        lemma_nodes_view_index(r@);
        assert(nodes_view(r@) =~= items_nodes(items_view(items@), rv));
    }
    r
}

/// The node of a collection, keyed by its id and expanded, with its tree under
/// it; and what it stands for.
pub fn collection_to_tree_items(collection: &Collection) -> (r: (TreeNode, TreeItemMetadata))
    ensures
        node_view(r.0) == (NodeView {
            key: uuid_text(collection@.id),
            label: collection@.name,
            expanded: true,
            children: items_nodes(collection@.tree, collection@.requests),
        }),
        r.1 == (TreeItemMetadata {
            item_type: TreeItemType::Collection,
            collection_id: collection@.id,
            folder_id: None,
            request_id: None,
            http_method: None,
        }),
{
    let children = items_to_tree_items(&collection.tree, collection.id, &collection.requests);
    let node = TreeNode { key: id_text(collection.id), label: collection.name.clone(), expanded: true, children };
    (node, TreeItemMetadata::new_collection(collection.id))
}

/// The request with the id, if some node of the item's subtree refers to it and
/// the collection holds it; depth-first.
pub open spec fn found_in_item(item: ItemView, requests: Map<u128, RequestView>, id: u128) -> Option<RequestView>
    decreases item, 0nat,
{
    match item {
        ItemView::Folder { children, .. } => found_in_items(children, requests, id),
        ItemView::Request(rid) => if rid == id && requests.contains_key(id) {
            Some(requests[id])
        } else {
            None
        },
    }
}

/// The first request found among items.
pub open spec fn found_in_items(items: Seq<ItemView>, requests: Map<u128, RequestView>, id: u128) -> Option<
    RequestView,
>
    decreases items, items.len(),
{
    if items.len() == 0 {
        None
    } else {
        match found_in_item(items[0], requests, id) {
            Some(r) => Some(r),
            None => found_in_items(items.drop_first(), requests, id),
        }
    }
}

proof fn lemma_found_first(s: Seq<ItemView>, requests: Map<u128, RequestView>, id: u128, k: int)
    requires
        0 <= k < s.len(),
        forall|j: int| 0 <= j < k ==> (#[trigger] found_in_item(s[j], requests, id)) is None,
        found_in_item(s[k], requests, id) is Some,
    ensures
        found_in_items(s, requests, id) == found_in_item(s[k], requests, id),
    decreases k,
{
    if k > 0 {
        let t = s.drop_first();
        assert forall|j: int| 0 <= j < k - 1 implies (#[trigger] found_in_item(t[j], requests, id)) is None by {
            assert(t[j] == s[j + 1]);
            assert(found_in_item(s[j + 1], requests, id) is None);
        }
        assert(t[k - 1] == s[k]);
        assert(found_in_item(s[0], requests, id) is None);
        lemma_found_first(t, requests, id, k - 1);
    }
}

proof fn lemma_found_none(s: Seq<ItemView>, requests: Map<u128, RequestView>, id: u128)
    requires
        forall|j: int| 0 <= j < s.len() ==> (#[trigger] found_in_item(s[j], requests, id)) is None,
    ensures
        found_in_items(s, requests, id) is None,
    decreases s.len(),
{
    if s.len() > 0 {
        let t = s.drop_first();
        assert forall|j: int| 0 <= j < t.len() implies (#[trigger] found_in_item(t[j], requests, id)) is None by {
            assert(t[j] == s[j + 1]);
            assert(found_in_item(s[j + 1], requests, id) is None);
        }
        assert(found_in_item(s[0], requests, id) is None);
        lemma_found_none(t, requests, id);
    }
}

/// Searches an item's subtree, depth-first, for a reference to the request with
/// the id, and gives the request when the collection holds it.
pub fn find_request_in_item<'a>(
    item: &'a CollectionItem,
    requests: &'a HashMap<u128, RequestDefinition>,
    request_id: u128,
) -> (r: Option<&'a RequestDefinition>)
    ensures
        match found_in_item(item_view(*item), request_views(requests@), request_id) {
            Some(v) => r matches Some(req) && req@ == v,
            None => r is None,
        },
    decreases *item, 0nat,
{
    match item {
        CollectionItem::Folder(folder) => {
            proof {
                assert(decreases_to!(*item => folder.children@));
            }
            find_request_in_items(&folder.children, requests, request_id)
        },
        CollectionItem::Request(id) => {
            if *id == request_id {
                requests.get(&request_id)
            } else {
                None
            }
        },
    }
}

/// Searches items in order.
fn find_request_in_items<'a>(
    items: &'a Vec<CollectionItem>,
    requests: &'a HashMap<u128, RequestDefinition>,
    request_id: u128,
) -> (r: Option<&'a RequestDefinition>)
    ensures
        match found_in_items(items_view(items@), request_views(requests@), request_id) {
            Some(v) => r matches Some(req) && req@ == v,
            None => r is None,
        },
    decreases items@, 1nat,
{
    let ghost rv = request_views(requests@);
    proof {
        lemma_items_view_index(items@);
    }
    let mut i: usize = 0;
    while i < items.len()
        invariant
            0 <= i <= items@.len(),
            rv == request_views(requests@),
            items_view(items@).len() == items@.len(),
            forall|k: int| 0 <= k < items@.len() ==> #[trigger] items_view(items@)[k] == item_view(items@[k]),
            forall|j: int| 0 <= j < i ==> (#[trigger] found_in_item(items_view(items@)[j], rv, request_id)) is None,
        decreases items@.len() - i,
    {
        proof {
            assert(decreases_to!(items@ => items@[i as int]));
        }
        let found = find_request_in_item(&items[i], requests, request_id);
        if found.is_some() {
            proof {
                lemma_found_first(items_view(items@), rv, request_id, i as int);
            }
            return found;
        }
        i = i + 1;
    }
    proof {
        lemma_found_none(items_view(items@), rv, request_id);
    }
    None
}

/// The name of the collection the sidebar creates next: "Collection {n+1}" for
/// `n` collections.
pub fn new_collection_name(collection_count: usize) -> (r: String)
    requires
        collection_count < usize::MAX,
    ensures
        r@ == "Collection "@ + decimal(collection_count as nat + 1),
{
    let mut s = to_owned_string("Collection ");
    let n = usize_text(collection_count + 1);
    push_str(&mut s, n.as_str());
    s
}

/// The decimal text of a number.
pub open spec fn decimal(n: nat) -> Seq<char>
    decreases n,
{
    if n < 10 {
        seq![(('0' as u32) + n) as char]
    } else {
        decimal(n / 10) + seq![(('0' as u32) + n % 10) as char]
    }
}

/// The decimal text of a number.
fn usize_text(n: usize) -> (r: String)
    ensures
        r@ == decimal(n as nat),
    decreases n,
{
    if n < 10 {
        let mut s = String::new();
        let c = digit_char(n);
        crate::text::push_char(&mut s, c);
        assert(s@ =~= decimal(n as nat));
        s
    } else {
        let mut s = usize_text(n / 10);
        let c = digit_char(n % 10);
        crate::text::push_char(&mut s, c);
        s
    }
}

/// The digit of a value below ten.
fn digit_char(d: usize) -> (c: char)
    requires
        d < 10,
    ensures
        c == (('0' as u32) + d) as char,
{
    match d {
        0 => '0',
        1 => '1',
        2 => '2',
        3 => '3',
        4 => '4',
        5 => '5',
        6 => '6',
        7 => '7',
        8 => '8',
        _ => '9',
    }
}

/// Whether `i` is the first position of a collection with the id.
pub open spec fn first_collection_with_id(cs: Seq<Collection>, id: u128, i: int) -> bool {
    0 <= i < cs.len() && cs[i].id == id && forall|j: int| 0 <= j < i ==> (#[trigger] cs[j]).id != id
}

/// Renames a collection the way the sidebar does: the first one with the id gets
/// " (renamed)" after its name; says whether there was one.
pub fn rename_collection(collections: &mut Vec<Collection>, collection_id: u128) -> (r: bool)
    ensures
        r == exists|i: int| 0 <= i < old(collections)@.len() && (#[trigger] old(collections)@[i]).id == collection_id,
        !r ==> final(collections)@ == old(collections)@,
        r ==> exists|i: int|
            #[trigger] first_collection_with_id(old(collections)@, collection_id, i) && final(collections)@.len()
                == old(collections)@.len() && (forall|k: int|
                0 <= k < old(collections)@.len() && k != i ==> #[trigger] final(collections)@[k] == old(collections)@[k])
                && final(collections)@[i].id == old(collections)@[i].id && final(collections)@[i].tree
                == old(collections)@[i].tree && final(collections)@[i].requests == old(collections)@[i].requests
                && final(collections)@[i].name@ == old(collections)@[i].name@ + " (renamed)"@,
{
    let mut i: usize = 0;
    while i < collections.len()
        invariant
            0 <= i <= collections@.len(),
            collections@ == old(collections)@,
            forall|j: int| 0 <= j < i ==> (#[trigger] collections@[j]).id != collection_id,
        decreases collections@.len() - i,
    {
        if collections[i].id == collection_id {
            let ghost before = collections@;
            let mut c = collections.remove(i);
            push_str(&mut c.name, " (renamed)");
            collections.insert(i, c);
            assert(first_collection_with_id(before, collection_id, i as int));
            return true;
        }
        i = i + 1;
    }
    false
}

/// The collections without the one with the id (every one with it).
pub open spec fn without_collection(cs: Seq<Collection>, id: u128) -> Seq<Collection>
    decreases cs.len(),
{
    if cs.len() == 0 {
        Seq::empty()
    } else if cs.last().id == id {
        without_collection(cs.drop_last(), id)
    } else {
        without_collection(cs.drop_last(), id).push(cs.last())
    }
}

/// Removes the collections with the id; says whether there was one.
pub fn delete_collection(collections: &mut Vec<Collection>, collection_id: u128) -> (r: bool)
    ensures
        r == exists|i: int| 0 <= i < old(collections)@.len() && (#[trigger] old(collections)@[i]).id == collection_id,
        final(collections)@ == without_collection(old(collections)@, collection_id),
{
    let mut old_list: Vec<Collection> = Vec::new();
    std::mem::swap(&mut old_list, collections);
    let ghost src = old_list@;
    let mut rest = old_list;
    let mut pending: Vec<Collection> = Vec::new();
    while rest.len() > 0
        invariant
            pending@ == src.skip(rest@.len() as int).reverse(),
            rest@ == src.take(rest@.len() as int),
            rest@.len() <= src.len(),
        decreases rest@.len(),
    {
        let c = rest.pop().unwrap();
        proof {
            assert(rest@ =~= src.take(rest@.len() as int));
            assert(c == src[rest@.len() as int]);
        }
        pending.push(c);
        assert(pending@ =~= src.skip(rest@.len() as int).reverse());
    }
    assert(src.skip(0) =~= src);
    let ghost mut k: int = 0;
    let mut found = false;
    assert(src.take(0) =~= Seq::<Collection>::empty());
    while pending.len() > 0
        invariant
            0 <= k <= src.len(),
            k + pending@.len() == src.len(),
            pending@ == src.skip(k).reverse(),
            collections@ == without_collection(src.take(k), collection_id),
            found == exists|i: int| 0 <= i < k && (#[trigger] src[i]).id == collection_id,
        decreases pending@.len(),
    {
        let c = pending.pop().unwrap();
        proof {
            assert(pending@ =~= src.skip(k + 1).reverse());
            assert(c == src[k]);
            assert(src.take(k + 1).drop_last() =~= src.take(k));
            assert(src.take(k + 1).last() == c);
        }
        if c.id == collection_id {
            found = true;
        } else {
            collections.push(c);
        }
        proof {
            k = k + 1;
        }
    }
    assert(src.take(src.len() as int) =~= src);
    found
}

/// The collection a new request goes into: that of the node the context menu
/// was opened on when it is a collection or a folder, else the first collection.
pub open spec fn new_request_collection(menu_item: Option<TreeItemMetadata>, collections: Seq<Collection>) -> Option<u128> {
    match menu_item {
        Some(m) if m.item_type == TreeItemType::Collection || m.item_type == TreeItemType::Folder => Some(
            m.collection_id,
        ),
        _ => if collections.len() > 0 {
            Some(collections[0].id)
        } else {
            None
        },
    }
}

/// The collection a new request goes into, and the request: "New Request", a
/// GET of `{{base_url}}`; nothing when there is no collection to put it in.
pub fn new_request_for(menu_item: Option<&TreeItemMetadata>, collections: &Vec<Collection>) -> (r: Option<
    (u128, RequestDefinition),
>)
    ensures
        match new_request_collection(
            match menu_item {
                Some(m) => Some(*m),
                None => None,
            },
            collections@,
        ) {
            Some(cid) => r matches Some((id, req)) && id == cid && req@.name == "New Request"@ && req@.method
                == HttpMethod::GET && req@.url == "{{base_url}}"@ && req@.headers.len() == 0
                && req@.query_params.len() == 0 && req@.body == BodyView::NoBody,
            None => r is None,
        },
{
    let target = match menu_item {
        Some(m) => if m.is_collection() || m.is_folder() {
            Some(m.collection_id)
        } else if collections.len() > 0 {
            Some(collections[0].id)
        } else {
            None
        },
        None => if collections.len() > 0 {
            Some(collections[0].id)
        } else {
            None
        },
    };
    match target {
        Some(cid) => Some((cid, RequestDefinition::new("New Request", HttpMethod::GET, "{{base_url}}"))),
        None => None,
    }
}

} // verus!
