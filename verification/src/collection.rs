//! Collections: an ordered tree of folders and request references, and the
//! requests themselves keyed by id.
use vstd::prelude::*;
use std::collections::HashMap;
use crate::ids::{new_id, is_v4_uuid};
use crate::models::{RequestDefinition, RequestView};
use crate::text::to_owned_string;

verus! {

broadcast use vstd::std_specs::hash::group_hash_axioms;

/// A folder of the collection tree.
#[derive(Debug)]
pub struct Folder {
    pub id: u128,
    pub name: String,
    pub children: Vec<CollectionItem>,
}

/// A node of the collection tree: a reference to a request by id, or a folder.
#[derive(Debug)]
pub enum CollectionItem {
    Request(u128),
    Folder(Folder),
}

/// The mathematical value of a tree node.
pub enum ItemView {
    Request(u128),
    Folder { id: u128, name: Seq<char>, children: Seq<ItemView> },
}

/// The value of a tree node.
pub open spec fn item_view(i: CollectionItem) -> ItemView
    decreases i, 0nat,
{
    match i {
        CollectionItem::Request(id) => ItemView::Request(id),
        CollectionItem::Folder(f) => ItemView::Folder {
            id: f.id,
            name: f.name@,
            children: items_view(f.children@),
        },
    }
}

/// The values of a list of tree nodes.
pub open spec fn items_view(s: Seq<CollectionItem>) -> Seq<ItemView>
    decreases s, s.len(),
{
    if s.len() == 0 {
        Seq::empty()
    } else {
        seq![item_view(s[0])] + items_view(s.drop_first())
    }
}

/// Puts `new` into the folder `fid` of a node's subtree: into the node itself if it
/// is that folder, else into the first match of its children in depth-first
/// order. The flag says whether the folder was found; if not, the node is unchanged.
pub open spec fn insert_into_item(item: ItemView, fid: u128, new: ItemView) -> (ItemView, bool)
    decreases item, 0nat,
{
    match item {
        ItemView::Request(_) => (item, false),
        ItemView::Folder { id, name, children } => if id == fid {
            (ItemView::Folder { id, name, children: children.push(new) }, true)
        } else {
            let (c, found) = insert_into_seq(children, fid, new);
            if found {
                (ItemView::Folder { id, name, children: c }, true)
            } else {
                (item, false)
            }
        },
    }
}

/// Puts `new` into the first folder `fid` found among `items` in depth-first order.
pub open spec fn insert_into_seq(items: Seq<ItemView>, fid: u128, new: ItemView) -> (Seq<ItemView>, bool)
    decreases items, items.len(),
{
    if items.len() == 0 {
        (items, false)
    } else {
        let (h, found) = insert_into_item(items[0], fid, new);
        if found {
            (seq![h] + items.drop_first(), true)
        } else {
            let (t, found2) = insert_into_seq(items.drop_first(), fid, new);
            if found2 {
                (seq![items[0]] + t, true)
            } else {
                (items, false)
            }
        }
    }
}

proof fn lemma_items_view_index(s: Seq<CollectionItem>)
    ensures
        items_view(s).len() == s.len(),
        forall|k: int| 0 <= k < s.len() ==> #[trigger] items_view(s)[k] == item_view(s[k]),
    decreases s.len(),
{
    if s.len() > 0 {
        lemma_items_view_index(s.drop_first());
        assert forall|k: int| 0 <= k < s.len() implies #[trigger] items_view(s)[k] == item_view(s[k]) by {
            if k > 0 {
                assert(s.drop_first()[k - 1] == s[k]);
            }
        }
    }
}

proof fn lemma_insert_seq_found(s: Seq<ItemView>, fid: u128, new: ItemView, k: int)
    requires
        0 <= k < s.len(),
        forall|j: int| 0 <= j < k ==> !(#[trigger] insert_into_item(s[j], fid, new)).1,
        insert_into_item(s[k], fid, new).1,
    ensures
        insert_into_seq(s, fid, new) == (s.update(k, insert_into_item(s[k], fid, new).0), true),
    decreases k,
{
    if k == 0 {
        assert(seq![insert_into_item(s[0], fid, new).0] + s.drop_first() =~= s.update(0, insert_into_item(s[0], fid, new).0));
    } else {
        let t = s.drop_first();
        assert forall|j: int| 0 <= j < k - 1 implies !(#[trigger] insert_into_item(t[j], fid, new)).1 by {
            assert(t[j] == s[j + 1]);
            assert(!insert_into_item(s[j + 1], fid, new).1);
        }
        assert(t[k - 1] == s[k]);
        lemma_insert_seq_found(t, fid, new, k - 1);
        assert(!insert_into_item(s[0], fid, new).1);
        assert(seq![s[0]] + t.update(k - 1, insert_into_item(s[k], fid, new).0) =~= s.update(k, insert_into_item(s[k], fid, new).0));
    }
}

proof fn lemma_insert_seq_absent(s: Seq<ItemView>, fid: u128, new: ItemView)
    requires
        forall|j: int| 0 <= j < s.len() ==> !(#[trigger] insert_into_item(s[j], fid, new)).1,
    ensures
        insert_into_seq(s, fid, new) == (s, false),
    decreases s.len(),
{
    if s.len() > 0 {
        let t = s.drop_first();
        assert forall|j: int| 0 <= j < t.len() implies !(#[trigger] insert_into_item(t[j], fid, new)).1 by {
            assert(t[j] == s[j + 1]);
            assert(!insert_into_item(s[j + 1], fid, new).1);
        }
        lemma_insert_seq_absent(t, fid, new);
        assert(!insert_into_item(s[0], fid, new).1);
    }
}

/// Whether the node's subtree holds the folder `folder_id`.
fn item_has_folder(item: &CollectionItem, folder_id: u128, Ghost(nv): Ghost<ItemView>) -> (r: bool)
    ensures
        r == insert_into_item(item_view(*item), folder_id, nv).1,
    decreases *item, 0nat,
{
    match item {
        CollectionItem::Request(_) => false,
        CollectionItem::Folder(f) => {
            if f.id == folder_id {
                true
            } else {
                proof {
                    assert(decreases_to!(*item => f.children@));
                }
                items_have_folder(&f.children, folder_id, Ghost(nv))
            }
        },
    }
}

/// Whether the nodes' subtrees hold the folder `folder_id`.
fn items_have_folder(items: &Vec<CollectionItem>, folder_id: u128, Ghost(nv): Ghost<ItemView>) -> (r: bool)
    ensures
        r == insert_into_seq(items_view(items@), folder_id, nv).1,
    decreases items@, 1nat,
{
    let mut i: usize = 0;
    proof {
        lemma_items_view_index(items@);
    }
    while i < items.len()
        invariant
            0 <= i <= items@.len(),
            items_view(items@).len() == items@.len(),
            forall|k: int| 0 <= k < items@.len() ==> #[trigger] items_view(items@)[k] == item_view(items@[k]),
            forall|j: int| 0 <= j < i ==> !(#[trigger] insert_into_item(items_view(items@)[j], folder_id, nv)).1,
        decreases items@.len() - i,
    {
        proof {
            assert(decreases_to!(items@ => items@[i as int]));
        }
        if item_has_folder(&items[i], folder_id, Ghost(nv)) {
            proof {
                lemma_insert_seq_found(items_view(items@), folder_id, nv, i as int);
            }
            return true;
        }
        i = i + 1;
    }
    proof {
        lemma_insert_seq_absent(items_view(items@), folder_id, nv);
    }
    false
}

/// Puts `new_item` into the first folder `folder_id` found in depth-first order;
/// the folder must be there.
fn insert_into_folder(items: &mut Vec<CollectionItem>, folder_id: u128, new_item: CollectionItem)
    requires
        insert_into_seq(items_view(old(items)@), folder_id, item_view(new_item)).1,
    ensures
        items_view(final(items)@) == insert_into_seq(items_view(old(items)@), folder_id, item_view(new_item)).0,
    decreases old(items)@,
{
    let ghost start = items@;
    let ghost nv = item_view(new_item);
    let mut i: usize = 0;
    proof {
        lemma_items_view_index(start);
    }
    while i < items.len()
        invariant
            0 <= i <= items@.len(),
            items@ == start,
            start == old(items)@,
            nv == item_view(new_item),
            insert_into_seq(items_view(start), folder_id, nv).1,
            items_view(start).len() == start.len(),
            forall|k: int| 0 <= k < start.len() ==> #[trigger] items_view(start)[k] == item_view(start[k]),
            forall|j: int| 0 <= j < i ==> !(#[trigger] insert_into_item(items_view(start)[j], folder_id, nv)).1,
        decreases start.len() - i,
    {
        if item_has_folder(&items[i], folder_id, Ghost(nv)) {
            let item = items.remove(i);
            assert(item == start[i as int]);
            match item {
                CollectionItem::Request(id) => {
                    assert(false);
                    items.insert(i, CollectionItem::Request(id));
                },
                CollectionItem::Folder(mut f) => {
                    let ghost old_children = f.children@;
                    let ghost fid = f.id;
                    let ghost fname = f.name@;
                    if f.id == folder_id {
                        f.children.push(new_item);
                        proof {
                            assert(f.children@.drop_last() == old_children);
                            lemma_items_view_index(f.children@);
                            lemma_items_view_index(old_children);
                            assert(items_view(f.children@) =~= items_view(old_children).push(nv));
                        }
                    } else {
                        proof {
                            let it = start[i as int];
                            assert(decreases_to!(it => f.children@));
                            assert(decreases_to!(old(items)@ => f.children@));
                        }
                        insert_into_folder(&mut f.children, folder_id, new_item);
                    }
                    proof {
                        assert(item_view(CollectionItem::Folder(f)) == insert_into_item(items_view(start)[i as int], folder_id, nv).0);
                    }
                    items.insert(i, CollectionItem::Folder(f));
                },
            }
            proof {
                lemma_insert_seq_found(items_view(start), folder_id, nv, i as int);
                lemma_items_view_index(items@);
                assert(items_view(items@) =~= items_view(start).update(i as int, insert_into_item(items_view(start)[i as int], folder_id, nv).0));
            }
            return;
        }
        i = i + 1;
    }
    proof {
        lemma_insert_seq_absent(items_view(start), folder_id, nv);
    }
}

/// A collection: a named tree of folders and request references, and the
/// requests themselves by id.
#[derive(Debug)]
pub struct Collection {
    pub id: u128,
    pub name: String,
    pub tree: Vec<CollectionItem>,
    pub requests: HashMap<u128, RequestDefinition>,
}

/// The mathematical value of a collection.
pub struct CollectionView {
    pub id: u128,
    pub name: Seq<char>,
    pub tree: Seq<ItemView>,
    pub requests: Map<u128, RequestView>,
}

impl View for Collection {
    type V = CollectionView;

    open spec fn view(&self) -> CollectionView {
        CollectionView {
            id: self.id,
            name: self.name@,
            tree: items_view(self.tree@),
            requests: self.requests@.map_values(|r: RequestDefinition| r@),
        }
    }
}

/// Where a request lands in the tree: appended at the top level without a parent,
/// inside the first folder `fid` found depth-first otherwise, and nowhere in the
/// tree when there is no such folder.
pub open spec fn tree_after_add(tree: Seq<ItemView>, id: u128, parent: Option<u128>) -> Seq<ItemView> {
    match parent {
        None => tree.push(ItemView::Request(id)),
        Some(fid) => insert_into_seq(tree, fid, ItemView::Request(id)).0,
    }
}

impl Collection {
    /// A new empty collection with a fresh id.
    pub fn new(name: &str) -> (r: Collection)
        ensures
            r@.name == name@,
            r@.tree.len() == 0,
            r@.requests == Map::<u128, RequestView>::empty(),
            is_v4_uuid(r@.id),
    {
        let r = Collection {
            id: new_id(),
            name: to_owned_string(name),
            tree: Vec::new(),
            requests: HashMap::new(),
        };
        assert(r@.requests =~= Map::<u128, RequestView>::empty());
        r
    }

    /// Adds a request: it is stored by its id, and a reference to it goes into the
    /// tree, at the top level or into the folder `parent_folder`.
    pub fn add_request(&mut self, req: RequestDefinition, parent_folder: Option<u128>)
        ensures
            final(self)@.id == old(self)@.id,
            final(self)@.name == old(self)@.name,
            final(self)@.requests == old(self)@.requests.insert(req@.id, req@),
            final(self)@.tree == tree_after_add(old(self)@.tree, req@.id, parent_folder),
    {
        let id = req.id;
        let ghost rv = req@;
        let ghost old_requests = self.requests@;
        self.requests.insert(id, req);
        assert(self@.requests =~= old_requests.map_values(|r: RequestDefinition| r@).insert(id, rv));
        let item = CollectionItem::Request(id);
        match parent_folder {
            Some(folder_id) => {
                if items_have_folder(&self.tree, folder_id, Ghost(item_view(item))) {
                    insert_into_folder(&mut self.tree, folder_id, item);
                }
            },
            None => {
                let ghost before = self.tree@;
                self.tree.push(item);
                proof {
                    lemma_items_view_index(before);
                    lemma_items_view_index(self.tree@);
                    assert(items_view(self.tree@) =~= items_view(before).push(ItemView::Request(id)));
                }
            },
        }
    }
}

} // verus!
