//! Import and export: the errors they report, the checks an imported collection or
//! environment must pass, and the names of the entries of a workspace archive.
use vstd::prelude::*;
use std::collections::HashMap;
use crate::collection::{Collection, CollectionItem, CollectionView, ItemView, item_view, items_view, insert_into_item, insert_into_seq, tree_after_add};
use crate::env::{Environment, Variable};
use crate::ids::{id_text, uuid_text};
use crate::models::{RequestDefinition, RequestView};
use crate::text::{to_owned_string, push_str, is_blank, blank, str_equal, has_prefix, has_suffix, starts_with, ends_with};

verus! {

broadcast use vstd::std_specs::hash::group_hash_axioms;

/// What went wrong in an import.
#[derive(Clone, Copy, Debug, PartialEq, Eq, Structural)]
pub enum ImportErrorKind {
    Io,
    Deserialization,
    InvalidFormat,
    Validation,
    PostmanFormat,
    OpenApiFormat,
}

/// The `Debug` name of an import error kind.
pub open spec fn import_kind_name(k: ImportErrorKind) -> Seq<char> {
    match k {
        ImportErrorKind::Io => "Io"@,
        ImportErrorKind::Deserialization => "Deserialization"@,
        ImportErrorKind::InvalidFormat => "InvalidFormat"@,
        ImportErrorKind::Validation => "Validation"@,
        ImportErrorKind::PostmanFormat => "PostmanFormat"@,
        ImportErrorKind::OpenApiFormat => "OpenApiFormat"@,
    }
}

/// An import error: its kind and message.
#[derive(Clone, Debug)]
pub struct ImportError {
    kind: ImportErrorKind,
    message: String,
}

/// The mathematical value of an import error.
pub struct ImportErrorView {
    pub kind: ImportErrorKind,
    pub message: Seq<char>,
}

impl View for ImportError {
    type V = ImportErrorView;

    closed spec fn view(&self) -> ImportErrorView {
        ImportErrorView { kind: self.kind, message: self.message@ }
    }
}

impl ImportError {
    /// An error of the kind with the message.
    pub fn new(kind: ImportErrorKind, message: &str) -> (r: ImportError)
        ensures
            r@ == (ImportErrorView { kind, message: message@ }),
    {
        ImportError { kind, message: to_owned_string(message) }
    }

    /// The kind.
    pub fn kind(&self) -> (r: &ImportErrorKind)
        ensures
            *r == self@.kind,
    {
        &self.kind
    }

    /// The message.
    pub fn message(&self) -> (r: &str)
        ensures
            r@ == self@.message,
    {
        self.message.as_str()
    }

    /// The error as text: the kind's name, a colon, and the message.
    pub fn to_string(&self) -> (r: String)
        ensures
            r@ == import_kind_name(self@.kind) + ": "@ + self@.message,
    {
        let mut s = match self.kind {
            ImportErrorKind::Io => to_owned_string("Io"),
            ImportErrorKind::Deserialization => to_owned_string("Deserialization"),
            ImportErrorKind::InvalidFormat => to_owned_string("InvalidFormat"),
            ImportErrorKind::Validation => to_owned_string("Validation"),
            ImportErrorKind::PostmanFormat => to_owned_string("PostmanFormat"),
            ImportErrorKind::OpenApiFormat => to_owned_string("OpenApiFormat"),
        };
        push_str(&mut s, ": ");
        push_str(&mut s, self.message.as_str());
        s
    }
}

/// What went wrong in an export.
#[derive(Clone, Copy, Debug, PartialEq, Eq, Structural)]
pub enum ExportErrorKind {
    Io,
    Serialization,
    ZipError,
}

/// The `Debug` name of an export error kind.
pub open spec fn export_kind_name(k: ExportErrorKind) -> Seq<char> {
    match k {
        ExportErrorKind::Io => "Io"@,
        ExportErrorKind::Serialization => "Serialization"@,
        ExportErrorKind::ZipError => "ZipError"@,
    }
}

/// An export error: its kind and message.
#[derive(Clone, Debug)]
pub struct ExportError {
    kind: ExportErrorKind,
    message: String,
}

/// The mathematical value of an export error.
pub struct ExportErrorView {
    pub kind: ExportErrorKind,
    pub message: Seq<char>,
}

impl View for ExportError {
    type V = ExportErrorView;

    closed spec fn view(&self) -> ExportErrorView {
        ExportErrorView { kind: self.kind, message: self.message@ }
    }
}

impl ExportError {
    /// An error of the kind with the message.
    pub fn new(kind: ExportErrorKind, message: &str) -> (r: ExportError)
        ensures
            r@ == (ExportErrorView { kind, message: message@ }),
    {
        ExportError { kind, message: to_owned_string(message) }
    }

    /// The kind.
    pub fn kind(&self) -> (r: &ExportErrorKind)
        ensures
            *r == self@.kind,
    {
        &self.kind
    }

    /// The message.
    pub fn message(&self) -> (r: &str)
        ensures
            r@ == self@.message,
    {
        self.message.as_str()
    }

    /// The error as text: the kind's name, a colon, and the message.
    pub fn to_string(&self) -> (r: String)
        ensures
            r@ == export_kind_name(self@.kind) + ": "@ + self@.message,
    {
        let mut s = match self.kind {
            ExportErrorKind::Io => to_owned_string("Io"),
            ExportErrorKind::Serialization => to_owned_string("Serialization"),
            ExportErrorKind::ZipError => to_owned_string("ZipError"),
        };
        push_str(&mut s, ": ");
        push_str(&mut s, self.message.as_str());
        s
    }
}

/// The collections and environments read from a workspace archive.
#[derive(Debug)]
pub struct WorkspaceImport {
    pub collections: Vec<Collection>,
    pub environments: Vec<Environment>,
}

/// The message for a tree reference to a request the collection does not hold.
pub open spec fn missing_request_message(id: u128) -> Seq<char> {
    "Request ID "@ + uuid_text(id) + " not found in collection"@
}

/// The first problem of a tree node, depth-first: a reference to a request that is
/// not among `ids`, or a folder with a blank name.
pub open spec fn item_problem(item: ItemView, ids: Set<u128>) -> Option<Seq<char>>
    decreases item, 0nat,
{
    match item {
        ItemView::Request(id) => if ids.contains(id) {
            None
        } else {
            Some(missing_request_message(id))
        },
        ItemView::Folder { id, name, children } => if blank(name) {
            Some("Folder name cannot be empty"@)
        } else {
            items_problem(children, ids)
        },
    }
}

/// The first problem among tree nodes, in order.
pub open spec fn items_problem(items: Seq<ItemView>, ids: Set<u128>) -> Option<Seq<char>>
    decreases items, items.len(),
{
    if items.len() == 0 {
        None
    } else {
        match item_problem(items[0], ids) {
            Some(m) => Some(m),
            None => items_problem(items.drop_first(), ids),
        }
    }
}

/// The problem of an imported collection: a blank name, or the first problem of
/// its tree.
pub open spec fn collection_problem(name: Seq<char>, tree: Seq<ItemView>, ids: Set<u128>) -> Option<Seq<char>> {
    if blank(name) {
        Some("Collection name cannot be empty"@)
    } else {
        items_problem(tree, ids)
    }
}

/// The message of a missing request.
fn missing_request_error(id: u128) -> (r: ImportError)
    ensures
        r@ == (ImportErrorView { kind: ImportErrorKind::Validation, message: missing_request_message(id) }),
{
    let mut m = to_owned_string("Request ID ");
    let t = id_text(id);
    push_str(&mut m, t.as_str());
    push_str(&mut m, " not found in collection");
    ImportError { kind: ImportErrorKind::Validation, message: m }
}

proof fn lemma_items_problem_first(s: Seq<ItemView>, ids: Set<u128>, k: int)
    requires
        0 <= k < s.len(),
        forall|j: int| 0 <= j < k ==> (#[trigger] item_problem(s[j], ids)) is None,
        item_problem(s[k], ids) is Some,
    ensures
        items_problem(s, ids) == item_problem(s[k], ids),
    decreases k,
{
    if k > 0 {
        let t = s.drop_first();
        assert forall|j: int| 0 <= j < k - 1 implies (#[trigger] item_problem(t[j], ids)) is None by {
            assert(t[j] == s[j + 1]);
            assert(item_problem(s[j + 1], ids) is None);
        }
        assert(t[k - 1] == s[k]);
        assert(item_problem(s[0], ids) is None);
        lemma_items_problem_first(t, ids, k - 1);
    }
}

proof fn lemma_items_problem_none(s: Seq<ItemView>, ids: Set<u128>)
    requires
        forall|j: int| 0 <= j < s.len() ==> (#[trigger] item_problem(s[j], ids)) is None,
    ensures
        items_problem(s, ids) is None,
    decreases s.len(),
{
    if s.len() > 0 {
        let t = s.drop_first();
        assert forall|j: int| 0 <= j < t.len() implies (#[trigger] item_problem(t[j], ids)) is None by {
            assert(t[j] == s[j + 1]);
            assert(item_problem(s[j + 1], ids) is None);
        }
        assert(item_problem(s[0], ids) is None);
        lemma_items_problem_none(t, ids);
    }
}

proof fn lemma_items_view_index(s: Seq<CollectionItem>)
    ensures
        items_view(s).len() == s.len(),
        forall|k: int| 0 <= k < s.len() ==> #[trigger] items_view(s)[k] == item_view(s[k]),
    decreases s.len(),
{
    if s.len() > 0 {
        lemma_items_view_index(s.drop_first());
        assert forall|k: int| 0 <= k < s.len() implies #[trigger] items_view(s)[k] == item_view(s[k]) by {
            if k > 0 {
                assert(s.drop_first()[k - 1] == s[k]);
            }
        }
    }
}

/// Checks one tree node against the requests.
fn validate_item(item: &CollectionItem, requests: &HashMap<u128, RequestDefinition>) -> (r: Result<(), ImportError>)
    ensures
        match item_problem(item_view(*item), requests@.dom()) {
            Some(m) => r matches Err(e) && e@ == (ImportErrorView { kind: ImportErrorKind::Validation, message: m }),
            None => r is Ok,
        },
    decreases *item, 0nat,
{
    match item {
        CollectionItem::Request(id) => {
            if !requests.contains_key(id) {
                return Err(missing_request_error(*id));
            }
            Ok(())
        },
        CollectionItem::Folder(folder) => {
            if is_blank(folder.name.as_str()) {
                return Err(ImportError::new(ImportErrorKind::Validation, "Folder name cannot be empty"));
            }
            proof {
                assert(decreases_to!(*item => folder.children@));
            }
            validate_items(&folder.children, requests)
        },
    }
}

/// Checks tree nodes in order against the requests; the first problem is reported.
fn validate_items(items: &Vec<CollectionItem>, requests: &HashMap<u128, RequestDefinition>) -> (r: Result<
    (),
    ImportError,
>)
    ensures
        match items_problem(items_view(items@), requests@.dom()) {
            Some(m) => r matches Err(e) && e@ == (ImportErrorView { kind: ImportErrorKind::Validation, message: m }),
            None => r is Ok,
        },
    decreases items@, 1nat,
{
    let ghost ids = requests@.dom();
    proof {
        lemma_items_view_index(items@);
    }
    let mut i: usize = 0;
    while i < items.len()
        invariant
            0 <= i <= items@.len(),
            ids == requests@.dom(),
            items_view(items@).len() == items@.len(),
            forall|k: int| 0 <= k < items@.len() ==> #[trigger] items_view(items@)[k] == item_view(items@[k]),
            forall|j: int| 0 <= j < i ==> (#[trigger] item_problem(items_view(items@)[j], ids)) is None,
        decreases items@.len() - i,
    {
        proof {
            assert(decreases_to!(items@ => items@[i as int]));
        }
        let r = validate_item(&items[i], requests);
        if r.is_err() {
            proof {
                lemma_items_problem_first(items_view(items@), ids, i as int);
            }
            return r;
        }
        i = i + 1;
    }
    proof {
        lemma_items_problem_none(items_view(items@), ids);
    }
    Ok(())
}

/// Checks an imported collection: its name must not be blank, and every request
/// its tree refers to must be among its requests, in folders whose names are not
/// blank. The first problem found, depth-first, is reported.
pub fn validate_collection(collection: &Collection) -> (r: Result<(), ImportError>)
    ensures
        match collection_problem(collection@.name, collection@.tree, collection@.requests.dom()) {
            Some(m) => r matches Err(e) && e@ == (ImportErrorView { kind: ImportErrorKind::Validation, message: m }),
            None => r is Ok,
        },
{
    if is_blank(collection.name.as_str()) {
        return Err(ImportError::new(ImportErrorKind::Validation, "Collection name cannot be empty"));
    }
    assert(collection@.requests.dom() == collection.requests@.dom());
    validate_items(&collection.tree, &collection.requests)
}

/// The first key, among those that are not blank, that an earlier variable already
/// has; looking at the first `n` keys.
pub open spec fn first_duplicate(keys: Seq<Seq<char>>, n: int) -> Option<Seq<char>>
    decreases n,
{
    if n <= 0 {
        None
    } else {
        match first_duplicate(keys, n - 1) {
            Some(k) => Some(k),
            None => {
                let k = keys[n - 1];
                if !blank(k) && keys.take(n - 1).contains(k) {
                    Some(k)
                } else {
                    None
                }
            },
        }
    }
}

proof fn lemma_first_duplicate_stays(keys: Seq<Seq<char>>, a: int, b: int)
    requires
        0 <= a <= b,
        first_duplicate(keys, a) is Some,
    ensures
        first_duplicate(keys, b) == first_duplicate(keys, a),
    decreases b - a,
{
    if a < b {
        lemma_first_duplicate_stays(keys, a, b - 1);
    }
}

/// The keys of variables.
pub open spec fn variable_keys(vs: Seq<Variable>) -> Seq<Seq<char>> {
    vs.map_values(|v: Variable| v.key@)
}

/// The problem of an imported environment: a blank name, or the first key used
/// twice (blank keys aside).
pub open spec fn environment_problem(name: Seq<char>, vs: Seq<Variable>) -> Option<Seq<char>> {
    if blank(name) {
        Some("Environment name cannot be empty"@)
    } else {
        match first_duplicate(variable_keys(vs), vs.len() as int) {
            Some(k) => Some("Duplicate variable key: "@ + k),
            None => None,
        }
    }
}

/// Checks an imported environment: its name must not be blank, and no two
/// variables may share a key that is not blank.
pub fn validate_environment(environment: &Environment) -> (r: Result<(), ImportError>)
    ensures
        match environment_problem(environment.name@, environment.variables@) {
            Some(m) => r matches Err(e) && e@ == (ImportErrorView { kind: ImportErrorKind::Validation, message: m }),
            None => r is Ok,
        },
{
    if is_blank(environment.name.as_str()) {
        return Err(ImportError::new(ImportErrorKind::Validation, "Environment name cannot be empty"));
    }
    let ghost keys = variable_keys(environment.variables@);
    let vs = &environment.variables;
    let mut i: usize = 0;
    while i < vs.len()
        invariant
            0 <= i <= vs@.len(),
            keys == variable_keys(vs@),
            keys == variable_keys(environment.variables@),
            !blank(environment.name@),
            keys.len() == vs@.len(),
            first_duplicate(keys, i as int) is None,
        decreases vs@.len() - i,
    {
        let key = &vs[i].key;
        assert(keys[i as int] == key@);
        if !is_blank(key.as_str()) {
            let mut j: usize = 0;
            while j < i
                invariant
                    0 <= j <= i,
                    i < vs@.len(),
                    keys == variable_keys(vs@),
                    keys == variable_keys(environment.variables@),
                    !blank(environment.name@),
                    keys.len() == vs@.len(),
                    keys[i as int] == key@,
                    !blank(key@),
                    first_duplicate(keys, i as int) is None,
                    forall|k: int| 0 <= k < j ==> keys[k] != key@,
                decreases i - j,
            {
                if str_equal(vs[j].key.as_str(), key.as_str()) {
                    proof {
                        assert(keys.take(i as int)[j as int] == key@);
                        assert(keys.take(i as int).contains(key@));
                        assert(first_duplicate(keys, i + 1) == Some(key@));
                        assert(first_duplicate(keys, vs@.len() as int) == Some(key@)) by {
                            lemma_first_duplicate_stays(keys, i + 1, vs@.len() as int);
                        }
                    }
                    let mut m = to_owned_string("Duplicate variable key: ");
                    push_str(&mut m, key.as_str());
                    return Err(ImportError { kind: ImportErrorKind::Validation, message: m });
                }
                j = j + 1;
            }
            proof {
                assert(!keys.take(i as int).contains(key@)) by {
                    if keys.take(i as int).contains(key@) {
                        let k = choose|k: int| 0 <= k < keys.take(i as int).len() && keys.take(i as int)[k] == key@;
                        assert(keys[k] == key@);
                    }
                }
            }
        }
        i = i + 1;
    }
    Ok(())
}

/// The archive entry of a collection: `collections/{id}.json`.
pub open spec fn collection_entry(id: u128) -> Seq<char> {
    "collections/"@ + uuid_text(id) + ".json"@
}

/// The archive entry of an environment: `environments/{id}.json`.
pub open spec fn environment_entry(id: u128) -> Seq<char> {
    "environments/"@ + uuid_text(id) + ".json"@
}

/// The archive entry name of a collection.
pub fn collection_entry_name(id: u128) -> (r: String)
    ensures
        r@ == collection_entry(id),
{
    let mut s = to_owned_string("collections/");
    let t = id_text(id);
    push_str(&mut s, t.as_str());
    push_str(&mut s, ".json");
    s
}

/// The archive entry name of an environment.
pub fn environment_entry_name(id: u128) -> (r: String)
    ensures
        r@ == environment_entry(id),
{
    let mut s = to_owned_string("environments/");
    let t = id_text(id);
    push_str(&mut s, t.as_str());
    push_str(&mut s, ".json");
    s
}

/// Whether an archive entry holds a collection.
pub fn is_collection_entry(name: &str) -> (r: bool)
    ensures
        r == (starts_with(name@, "collections/"@) && ends_with(name@, ".json"@)),
{
    has_prefix(name, "collections/") && has_suffix(name, ".json")
}

/// Whether an archive entry holds an environment.
pub fn is_environment_entry(name: &str) -> (r: bool)
    ensures
        r == (starts_with(name@, "environments/"@) && ends_with(name@, ".json"@)),
{
    has_prefix(name, "environments/") && has_suffix(name, ".json")
}

proof fn lemma_item_problem_grow(item: ItemView, ids: Set<u128>, x: u128)
    requires
        item_problem(item, ids) is None,
    ensures
        item_problem(item, ids.insert(x)) is None,
    decreases item, 0nat,
{
    match item {
        ItemView::Request(_) => {},
        ItemView::Folder { id, name, children } => {
            lemma_items_problem_grow(children, ids, x);
        },
    }
}

proof fn lemma_items_problem_grow(items: Seq<ItemView>, ids: Set<u128>, x: u128)
    requires
        items_problem(items, ids) is None,
    ensures
        items_problem(items, ids.insert(x)) is None,
    decreases items, items.len(),
{
    if items.len() > 0 {
        lemma_item_problem_grow(items[0], ids, x);
        lemma_items_problem_grow(items.drop_first(), ids, x);
    }
}

proof fn lemma_items_push(items: Seq<ItemView>, ids: Set<u128>, new: ItemView)
    requires
        items_problem(items, ids) is None,
        item_problem(new, ids) is None,
    ensures
        items_problem(items.push(new), ids) is None,
    decreases items.len(),
{
    if items.len() == 0 {
        assert(items.push(new).drop_first() =~= Seq::<ItemView>::empty());
        assert(items.push(new)[0] == new);
        assert(items_problem(Seq::<ItemView>::empty(), ids) is None);
    } else {
        assert(item_problem(items[0], ids) is None);
        lemma_items_push(items.drop_first(), ids, new);
        assert(items.push(new).drop_first() =~= items.drop_first().push(new));
        assert(items.push(new)[0] == items[0]);
    }
}

proof fn lemma_item_insert(item: ItemView, fid: u128, new: ItemView, ids: Set<u128>)
    requires
        item_problem(item, ids) is None,
        item_problem(new, ids) is None,
    ensures
        item_problem(insert_into_item(item, fid, new).0, ids) is None,
    decreases item, 0nat,
{
    match item {
        ItemView::Request(_) => {},
        ItemView::Folder { id, name, children } => {
            if id == fid {
                lemma_items_push(children, ids, new);
            } else {
                lemma_seq_insert(children, fid, new, ids);
            }
        },
    }
}

proof fn lemma_seq_insert(items: Seq<ItemView>, fid: u128, new: ItemView, ids: Set<u128>)
    requires
        items_problem(items, ids) is None,
        item_problem(new, ids) is None,
    ensures
        items_problem(insert_into_seq(items, fid, new).0, ids) is None,
    decreases items, items.len(),
{
    if items.len() > 0 {
        lemma_item_insert(items[0], fid, new, ids);
        let (h, found) = insert_into_item(items[0], fid, new);
        if found {
            let s = seq![h] + items.drop_first();
            assert(s[0] == h);
            assert(s.drop_first() =~= items.drop_first());
        } else {
            lemma_seq_insert(items.drop_first(), fid, new, ids);
            let (t, found2) = insert_into_seq(items.drop_first(), fid, new);
            if found2 {
                let s = seq![items[0]] + t;
                assert(s[0] == items[0]);
                assert(s.drop_first() =~= t);
            }
        }
    }
}

/// Adding a request to a collection that passes validation gives one that still
/// passes: every reference in its tree points at a request it holds.
pub proof fn law_add_request_keeps_collection_valid(c: CollectionView, r: RequestView, parent: Option<u128>)
    requires
        collection_problem(c.name, c.tree, c.requests.dom()) is None,
    ensures
        collection_problem(c.name, tree_after_add(c.tree, r.id, parent), c.requests.insert(r.id, r).dom()) is None,
{
    let ids = c.requests.dom();
    let ids2 = c.requests.insert(r.id, r).dom();
    assert(ids2 =~= ids.insert(r.id));
    if !blank(c.name) {
        lemma_items_problem_grow(c.tree, ids, r.id);
        let new = ItemView::Request(r.id);
        assert(item_problem(new, ids2) is None);
        match parent {
            None => {
                lemma_items_push(c.tree, ids2, new);
            },
            Some(fid) => {
                lemma_seq_insert(c.tree, fid, new, ids2);
            },
        }
    }
}

/// A tree of request references alone, each to a request among `ids`, has no
/// problem.
pub(crate) proof fn lemma_request_refs_valid(items: Seq<ItemView>, ids: Set<u128>)
    requires
        forall|k: int| 0 <= k < items.len() ==> ((#[trigger] items[k]) matches ItemView::Request(id) && ids.contains(id)),
    ensures
        items_problem(items, ids) is None,
    decreases items.len(),
{
    if items.len() > 0 {
        let rest = items.drop_first();
        assert forall|k: int| 0 <= k < rest.len() implies ((#[trigger] rest[k]) matches ItemView::Request(id) && ids.contains(id)) by {
            assert(rest[k] == items[k + 1]);
        }
        lemma_request_refs_valid(rest, ids);
        assert(items[0] matches ItemView::Request(id) && ids.contains(id));
        assert(item_problem(items[0], ids) is None);
    }
}

/// What an archive is written with is read back as the same kind of entry: a
/// collection's entry is taken for a collection and not for an environment, and
/// the other way round.
pub proof fn law_archive_entries_read_back(id: u128)
    ensures
        starts_with(collection_entry(id), "collections/"@) && ends_with(collection_entry(id), ".json"@),
        !starts_with(collection_entry(id), "environments/"@),
        starts_with(environment_entry(id), "environments/"@) && ends_with(environment_entry(id), ".json"@),
        !starts_with(environment_entry(id), "collections/"@),
{
    reveal_strlit("collections/");
    reveal_strlit("environments/");
    reveal_strlit(".json");
    let c = collection_entry(id);
    let e = environment_entry(id);
    assert(c.subrange(0, 12) =~= "collections/"@);
    assert(c.subrange(c.len() - 5, c.len() as int) =~= ".json"@);
    assert(e.subrange(0, 13) =~= "environments/"@);
    assert(e.subrange(e.len() - 5, e.len() as int) =~= ".json"@);
    assert(c[0] == 'c');
    assert(e[0] == 'e');
    if starts_with(c, "environments/"@) {
        assert(c.subrange(0, 13)[0] == "environments/"@[0]);
    }
    if starts_with(e, "collections/"@) {
        assert(e.subrange(0, 12)[0] == "collections/"@[0]);
    }
}

} // verus!
