//! The headless core: where a workspace keeps its files, what goes out for a
//! request, and the state that ties environments, collections and history together.
use vstd::prelude::*;
use crate::collection::Collection;
use crate::env::{Environment, VarMap, Interpolator, enabled_vars_map, resolved_request};
use crate::history::{RequestHistory, RequestHistoryEntry, HistoryView, join_path, path_join, entries_view, min, entries_after_add};
use crate::ids::{id_text, uuid_text};
use crate::models::{HttpMethod, KeyValuePair, PairView, pairs_view, BodyType, RawContentType, RequestDefinition, RequestView, BodyView};
use crate::response::{HttpResponse, ResponseSnapshot, SnapshotView, elapsed_millis, success_status};
use crate::text::{push_str, to_owned_string};
use crate::validation::{ValidationError, validate_request, request_error};

verus! {

/// Where a workspace keeps its files: `environments.json` and one
/// `collections/{id}.json` per collection under the root directory.
#[derive(Debug)]
pub struct JsonStore {
    root: String,
}

/// The file of the environments.
pub open spec fn environments_file(root: Seq<char>) -> Seq<char> {
    path_join(root, "environments.json"@)
}

/// The directory of the collections.
pub open spec fn collections_dir(root: Seq<char>) -> Seq<char> {
    path_join(root, "collections"@)
}

/// The file of one collection.
pub open spec fn collection_file(root: Seq<char>, id: u128) -> Seq<char> {
    path_join(collections_dir(root), uuid_text(id) + ".json"@)
}

impl JsonStore {
    /// The store of the workspace at `root` (the directories are made by whoever
    /// opens it).
    pub fn new(root: &str) -> (r: JsonStore)
        ensures
            r.root()@ == root@,
    {
        JsonStore { root: to_owned_string(root) }
    }

    /// The workspace directory.
    pub closed spec fn root(&self) -> String {
        self.root
    }

    /// The workspace directory.
    pub fn root_dir(&self) -> (r: &String)
        ensures
            r@ == self.root()@,
    {
        &self.root
    }

    /// The file of the environments.
    pub fn environments_path(&self) -> (r: String)
        ensures
            r@ == environments_file(self.root()@),
    {
        join_path(self.root.as_str(), "environments.json")
    }

    /// The directory of the collections.
    pub fn collections_path(&self) -> (r: String)
        ensures
            r@ == collections_dir(self.root()@),
    {
        join_path(self.root.as_str(), "collections")
    }

    /// The file of the collection with the id.
    pub fn collection_path(&self, id: u128) -> (r: String)
        ensures
            r@ == collection_file(self.root()@, id),
    {
        let dir = self.collections_path();
        let mut name = id_text(id);
        push_str(&mut name, ".json");
        join_path(dir.as_str(), name.as_str())
    }
}

/// The MIME type sent for a raw body.
pub open spec fn raw_mime(c: RawContentType) -> Seq<char> {
    match c {
        RawContentType::Json => "application/json"@,
        RawContentType::Xml => "application/xml"@,
        RawContentType::Text => "text/plain"@,
        RawContentType::Html => "text/html"@,
    }
}

/// The MIME type sent for a raw body.
pub fn raw_content_mime(c: RawContentType) -> (r: &'static str)
    ensures
        r@ == raw_mime(c),
{
    match c {
        RawContentType::Json => "application/json",
        RawContentType::Xml => "application/xml",
        RawContentType::Text => "text/plain",
        RawContentType::Html => "text/html",
    }
}

/// The body of an outgoing request.
#[derive(Debug)]
pub enum OutgoingBody {
    Empty,
    Raw { mime: String, content: String },
    Form(VarMap),
}

/// What goes on the wire for a request: the method, the URL, the query
/// parameters, the headers in order, and the body.
#[derive(Debug)]
pub struct OutgoingRequest {
    pub method: HttpMethod,
    pub url: String,
    pub query: VarMap,
    pub headers: Vec<(String, String)>,
    pub body: OutgoingBody,
}

/// The map of the enabled pairs; a later pair wins.
pub open spec fn enabled_pairs_map(ps: Seq<PairView>) -> Map<Seq<char>, Seq<char>>
    decreases ps.len(),
{
    if ps.len() == 0 {
        Map::empty()
    } else if ps.last().enabled {
        enabled_pairs_map(ps.drop_last()).insert(ps.last().key, ps.last().value)
    } else {
        enabled_pairs_map(ps.drop_last())
    }
}

/// The enabled pairs as (key, value), in order.
pub open spec fn enabled_pairs(ps: Seq<PairView>) -> Seq<(Seq<char>, Seq<char>)>
    decreases ps.len(),
{
    if ps.len() == 0 {
        Seq::empty()
    } else if ps.last().enabled {
        enabled_pairs(ps.drop_last()).push((ps.last().key, ps.last().value))
    } else {
        enabled_pairs(ps.drop_last())
    }
}

/// The texts of a list of string pairs.
pub open spec fn pair_texts(ps: Seq<(String, String)>) -> Seq<(Seq<char>, Seq<char>)> {
    ps.map_values(|p: (String, String)| (p.0@, p.1@))
}

/// Whether an outgoing body is what a request body sends.
pub open spec fn body_sent(out: OutgoingBody, b: BodyView) -> bool {
    match b {
        BodyView::NoBody => out is Empty,
        BodyView::Raw { content, content_type } => out matches OutgoingBody::Raw { mime, content: c }
            && mime@ == raw_mime(content_type) && c@ == content,
        BodyView::Form(ps) => out matches OutgoingBody::Form(m) && m@ == enabled_pairs_map(ps),
    }
}

/// The map of the enabled pairs; a later pair wins.
fn enabled_map(pairs: &Vec<KeyValuePair>) -> (r: VarMap)
    ensures
        r@ == enabled_pairs_map(pairs_view(pairs@)),
{
    let mut m = VarMap::new();
    let mut i: usize = 0;
    while i < pairs.len()
        invariant
            0 <= i <= pairs@.len(),
            m@ == enabled_pairs_map(pairs_view(pairs@).take(i as int)),
        decreases pairs@.len() - i,
    {
        let p = &pairs[i];
        proof {
            assert(pairs_view(pairs@).take(i + 1).drop_last() =~= pairs_view(pairs@).take(i as int));
            assert(pairs_view(pairs@).take(i + 1).last() == p@);
        }
        if p.enabled {
            m.insert(p.key.clone(), p.value.clone());
        }
        i = i + 1;
    }
    assert(pairs_view(pairs@).take(pairs@.len() as int) =~= pairs_view(pairs@));
    m
}

/// The enabled pairs as (key, value), in order.
fn enabled_list(pairs: &Vec<KeyValuePair>) -> (r: Vec<(String, String)>)
    ensures
        pair_texts(r@) == enabled_pairs(pairs_view(pairs@)),
{
    let mut r: Vec<(String, String)> = Vec::new();
    let mut i: usize = 0;
    while i < pairs.len()
        invariant
            0 <= i <= pairs@.len(),
            pair_texts(r@) == enabled_pairs(pairs_view(pairs@).take(i as int)),
        decreases pairs@.len() - i,
    {
        let p = &pairs[i];
        proof {
            assert(pairs_view(pairs@).take(i + 1).drop_last() =~= pairs_view(pairs@).take(i as int));
            assert(pairs_view(pairs@).take(i + 1).last() == p@);
        }
        if p.enabled {
            let ghost prev = r@;
            r.push((p.key.clone(), p.value.clone()));
            assert(pair_texts(r@) =~= pair_texts(prev).push((p.key@, p.value@)));
        }
        i = i + 1;
    }
    assert(pairs_view(pairs@).take(pairs@.len() as int) =~= pairs_view(pairs@));
    r
}

/// What to send for a fully resolved request, after it passes validation: the
/// enabled query parameters and headers, and the body with its content type; a
/// request that fails validation is refused with the validation error.
pub fn plan_request(req: &RequestDefinition) -> (r: Result<OutgoingRequest, ValidationError>)
    ensures
        r is Ok == (request_error(req@) is None),
        r matches Err(e) ==> request_error(req@) == Some(e@),
        r matches Ok(out) ==> {
            &&& out.method == req@.method
            &&& out.url@ == req@.url
            &&& out.query@ == enabled_pairs_map(req@.query_params)
            &&& pair_texts(out.headers@) == enabled_pairs(req@.headers)
            &&& body_sent(out.body, req@.body)
        },
{
    validate_request(req)?;
    let body = match &req.body {
        BodyType::NoBody => OutgoingBody::Empty,
        BodyType::Raw { content, content_type } => OutgoingBody::Raw {
            mime: to_owned_string(raw_content_mime(*content_type)),
            content: content.clone(),
        },
        BodyType::FormUrlEncoded(pairs) => OutgoingBody::Form(enabled_map(pairs)),
    };
    Ok(OutgoingRequest {
        method: req.method,
        url: req.url.clone(),
        query: enabled_map(&req.query_params),
        headers: enabled_list(&req.headers),
        body,
    })
}

/// The position of the first environment with the id, if any.
pub open spec fn first_env_with_id(envs: Seq<Environment>, id: u128, i: int) -> bool {
    0 <= i < envs.len() && envs[i].id == id && forall|j: int| 0 <= j < i ==> (#[trigger] envs[j]).id != id
}

/// The environment that the active id selects: the first one with that id.
pub open spec fn active_env(envs: Seq<Environment>, active: Option<u128>) -> Option<Environment> {
    match active {
        Some(id) => if exists|i: int| first_env_with_id(envs, id, i) {
            Some(envs[choose|i: int| first_env_with_id(envs, id, i)])
        } else {
            None
        },
        None => None,
    }
}

/// The variables in effect: those of the active environment, or none.
pub open spec fn active_vars_of(envs: Seq<Environment>, active: Option<u128>) -> Map<Seq<char>, Seq<char>> {
    match active_env(envs, active) {
        Some(e) => enabled_vars_map(e.variables@),
        None => Map::empty(),
    }
}

/// The snapshot history keeps of an outcome: the response's, or the failure one.
pub open spec fn snapshot_of(resp: Option<&HttpResponse>) -> SnapshotView {
    match resp {
        Some(r) => SnapshotView {
            status: r.status,
            status_text: r.status_text@,
            size_bytes: r.size_bytes,
            elapsed_millis: elapsed_millis(r.elapsed_secs, r.elapsed_subsec_nanos) as u64,
            success: success_status(r.status),
        },
        None => SnapshotView {
            status: 0,
            status_text: "Error"@,
            size_bytes: 0,
            elapsed_millis: 0,
            success: false,
        },
    }
}

/// The position of the first environment with the id.
fn find_env(envs: &Vec<Environment>, id: u128) -> (r: Option<usize>)
    ensures
        match r {
            Some(i) => first_env_with_id(envs@, id, i as int),
            None => !exists|i: int| first_env_with_id(envs@, id, i),
        },
{
    let mut i: usize = 0;
    while i < envs.len()
        invariant
            0 <= i <= envs@.len(),
            forall|j: int| 0 <= j < i ==> (#[trigger] envs@[j]).id != id,
        decreases envs@.len() - i,
    {
        if envs[i].id == id {
            return Some(i);
        }
        i = i + 1;
    }
    None
}

/// The state of an open workspace: its store, history, environments,
/// collections, and which environment is active.
#[derive(Debug)]
pub struct ReqForgeCore {
    pub store: JsonStore,
    pub history: RequestHistory,
    pub environments: Vec<Environment>,
    pub collections: Vec<Collection>,
    pub active_environment_id: Option<u128>,
}

impl ReqForgeCore {
    /// A workspace put together from what was read from its store, with no
    /// environment active.
    pub fn from_parts(
        store: JsonStore,
        environments: Vec<Environment>,
        collections: Vec<Collection>,
        history: RequestHistory,
    ) -> (r: ReqForgeCore)
        ensures
            r.store == store,
            r.environments@ == environments@,
            r.collections@ == collections@,
            r.history@ == history@,
            r.active_environment_id is None,
    {
        ReqForgeCore { store, history, environments, collections, active_environment_id: None }
    }

    /// The variables of the active environment (its enabled ones); none when no
    /// environment is active or the active id matches none.
    pub fn active_vars(&self) -> (r: VarMap)
        ensures
            r@ == active_vars_of(self.environments@, self.active_environment_id),
    {
        match self.active_environment_id {
            Some(id) => match find_env(&self.environments, id) {
                Some(i) => {
                    let m = self.environments[i].to_map();
                    proof {
                        let k = choose|k: int| first_env_with_id(self.environments@, id, k);
                        assert(k == i) by {
                            if k < i {
                                assert(self.environments@[k].id != id);
                            } else if k > i {
                                assert(self.environments@[i as int].id != id);
                            }
                        }
                    }
                    m
                },
                None => VarMap::new(),
            },
            None => VarMap::new(),
        }
    }

    /// The name of the active environment, if one is active and found.
    pub fn active_environment_name(&self) -> (r: Option<String>)
        ensures
            match active_env(self.environments@, self.active_environment_id) {
                Some(e) => r matches Some(n) && n@ == e.name@,
                None => r is None,
            },
    {
        match self.active_environment_id {
            Some(id) => match find_env(&self.environments, id) {
                Some(i) => {
                    proof {
                        let k = choose|k: int| first_env_with_id(self.environments@, id, k);
                        assert(k == i) by {
                            if k < i {
                                assert(self.environments@[k].id != id);
                            } else if k > i {
                                assert(self.environments@[i as int].id != id);
                            }
                        }
                    }
                    Some(self.environments[i].name.clone())
                },
                None => None,
            },
            None => None,
        }
    }

    /// The request with the active variables filled in, ready to send.
    pub fn prepare_request(&self, req: &RequestDefinition) -> (r: RequestDefinition)
        ensures
            r@ == resolved_request(req@, active_vars_of(self.environments@, self.active_environment_id)),
    {
        let vars = self.active_vars();
        Interpolator::resolve(req, &vars)
    }

    /// Records a sent request in history, with the response, or as failed when
    /// none came; the entry names the active environment.
    pub fn record_exchange(&mut self, req: &RequestDefinition, response: Option<&HttpResponse>)
        ensures
            final(self).store == old(self).store,
            final(self).environments@ == old(self).environments@,
            final(self).collections@ == old(self).collections@,
            final(self).active_environment_id == old(self).active_environment_id,
            final(self).history@.max_size == old(self).history@.max_size,
            final(self).history@.history_path == old(self).history@.history_path,
            final(self).history@.is_dirty,
            final(self).history@.entries.len() == min(
                old(self).history@.max_size as int,
                old(self).history@.entries.len() as int + 1,
            ),
            final(self).history@.entries.len() > 0 ==> {
                let e = final(self).history@.entries[0];
                &&& e.request == req@
                &&& e.response == snapshot_of(response)
                &&& e.environment_id == old(self).active_environment_id
                &&& match active_env(old(self).environments@, old(self).active_environment_id) {
                    Some(env) => e.environment_name == Some(env.name@),
                    None => e.environment_name is None,
                }
            },
            final(self).history@.entries.len() > 0 ==> final(self).history@.entries.skip(1)
                == old(self).history@.entries.take(final(self).history@.entries.len() - 1),
    {
        let snapshot = match response {
            Some(resp) => ResponseSnapshot::from_response(resp),
            None => ResponseSnapshot::failed(),
        };
        let name = self.active_environment_name();
        let entry = RequestHistoryEntry::new(req.duplicate(), snapshot, self.active_environment_id, name);
        let ghost ev = entry@;
        let ghost before = self.history@.entries;
        self.history.add_entry(entry);
        proof {
            let after = self.history@.entries;
            assert(after == (seq![ev] + before).take(min(old(self).history@.max_size as int, before.len() as int + 1)));
            if after.len() > 0 {
                assert(after[0] == ev);
                assert(after.skip(1) =~= before.take(after.len() - 1));
            }
        }
    }

    /// The `count` most recent history entries.
    pub fn get_recent_history(&self, count: usize) -> (r: Vec<RequestHistoryEntry>)
        ensures
            entries_view(r@) == self.history@.entries.take(min(count as int, self.history@.entries.len() as int)),
    {
        self.history.get_recent(count)
    }

    /// Every history entry, most recent first.
    pub fn get_all_history(&self) -> (r: Vec<RequestHistoryEntry>)
        ensures
            entries_view(r@) == self.history@.entries,
    {
        self.history.get_all()
    }

    /// Empties the history.
    pub fn clear_history(&mut self)
        ensures
            final(self).history@ == (HistoryView { entries: Seq::empty(), is_dirty: true, ..old(self).history@ }),
            final(self).store == old(self).store,
            final(self).environments@ == old(self).environments@,
            final(self).collections@ == old(self).collections@,
            final(self).active_environment_id == old(self).active_environment_id,
    {
        self.history.clear();
    }

    /// The request to send again for a history entry, with the active variables
    /// filled in; the id back when no entry has it.
    pub fn replay_request(&self, entry_id: u128) -> (r: Result<RequestDefinition, u128>)
        ensures
            r is Ok == (exists|i: int| 0 <= i < self.history@.entries.len() && (#[trigger] self.history@.entries[i]).id == entry_id),
            r matches Err(id) ==> id == entry_id,
            r matches Ok(req) ==> exists|i: int|
                0 <= i < self.history@.entries.len() && self.history@.entries[i].id == entry_id && req@
                    == resolved_request(
                    self.history@.entries[i].request,
                    active_vars_of(self.environments@, self.active_environment_id),
                ) && forall|j: int| 0 <= j < i ==> (#[trigger] self.history@.entries[j]).id != entry_id,
    {
        let vars = self.active_vars();
        self.history.replay_request(entry_id, &vars)
    }

    /// The number of history entries.
    pub fn history_len(&self) -> (r: usize)
        ensures
            r == self.history@.entries.len(),
    {
        self.history.len()
    }

    /// Whether the history is empty.
    pub fn history_is_empty(&self) -> (r: bool)
        ensures
            r == (self.history@.entries.len() == 0),
    {
        self.history.is_empty()
    }
}

/// A raw body goes out as its content with the MIME type of its content type:
/// JSON as `application/json`, XML as `application/xml`, plain text as
/// `text/plain` and HTML as `text/html`; distinct content types are sent under
/// distinct MIME types.
pub proof fn law_raw_body_mime(out: OutgoingBody, content: Seq<char>, content_type: RawContentType)
    requires
        body_sent(out, BodyView::Raw { content, content_type }),
    ensures
        out matches OutgoingBody::Raw { mime, content: c } && c@ == content && match content_type {
            RawContentType::Json => mime@ == "application/json"@,
            RawContentType::Xml => mime@ == "application/xml"@,
            RawContentType::Text => mime@ == "text/plain"@,
            RawContentType::Html => mime@ == "text/html"@,
        },
        forall|a: RawContentType, b: RawContentType| a != b ==> #[trigger] raw_mime(a) != #[trigger] raw_mime(b),
{
    reveal_strlit("application/json");
    reveal_strlit("application/xml");
    reveal_strlit("text/plain");
    reveal_strlit("text/html");
    assert forall|a: RawContentType, b: RawContentType| a != b implies #[trigger] raw_mime(a) != #[trigger] raw_mime(b) by {
        let x = raw_mime(a);
        let y = raw_mime(b);
        if x.len() == y.len() {
            assert(x[0] != y[0] || x[6] != y[6] || x[12] != y[12]);
        }
    }
}

} // verus!
