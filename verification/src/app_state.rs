//! The state of the application window: the open request tabs and which one is
//! active, over the workspace core.
use vstd::prelude::*;
use crate::ids::{new_id, is_v4_uuid};
use crate::models::{KeyValuePair, PairView, pairs_view, RawContentType, RequestDefinition, RequestView};
use crate::bridge::{body_type_to_string, body_string_to_body_type, body_text_of, body_of_text};
use crate::json_value::text_or;
use crate::response::HttpResponse;
use crate::collection::Collection;
use crate::ids::now;
use crate::text::{to_owned_string, push_str, is_blank, blank};
use crate::workspace::ReqForgeCore;
use vstd::utf8::encode_utf8;

verus! {

/// A pair without its description.
pub open spec fn without_description(p: PairView) -> PairView {
    PairView { description: None, ..p }
}

/// The pairs in order, each without its description.
pub open spec fn pairs_without_descriptions(ps: Seq<PairView>) -> Seq<PairView> {
    ps.map_values(|p: PairView| without_description(p))
}

/// Copies of the pairs, in order, without their descriptions.
pub fn strip_descriptions(pairs: &Vec<KeyValuePair>) -> (r: Vec<KeyValuePair>)
    ensures
        pairs_view(r@) == pairs_without_descriptions(pairs_view(pairs@)),
{
    let mut r: Vec<KeyValuePair> = Vec::new();
    let mut i: usize = 0;
    while i < pairs.len()
        invariant
            i <= pairs@.len(),
            pairs_view(r@) == pairs_without_descriptions(pairs_view(pairs@.take(i as int))),
        decreases pairs@.len() - i,
    {
        let p = &pairs[i];
        let q = KeyValuePair { key: p.key.clone(), value: p.value.clone(), enabled: p.enabled, description: None };
        let ghost prev = r@;
        r.push(q);
        proof {
            assert(pairs@.take(i + 1) =~= pairs@.take(i as int).push(pairs@[i as int]));
            assert(pairs_view(r@) =~= pairs_view(prev).push(q@));
            assert(pairs_without_descriptions(pairs_view(pairs@.take(i + 1))) =~= pairs_without_descriptions(
                pairs_view(pairs@.take(i as int)),
            ).push(without_description(pairs@[i as int]@)));
        }
        i = i + 1;
    }
    assert(pairs@.take(pairs@.len() as int) =~= pairs@);
    r
}

/// One open tab: the request it edits, the collection it belongs to, the
/// unsaved draft, and the last response.
#[derive(Debug)]
pub struct TabState {
    pub request_id: u128,
    pub collection_id: u128,
    pub draft: RequestDefinition,
    pub last_response: Option<HttpResponse>,
    pub is_loading: bool,
    pub is_dirty: bool,
}

/// The application state.
#[derive(Debug)]
pub struct AppState {
    pub core: ReqForgeCore,
    pub tabs: Vec<TabState>,
    pub active_tab: Option<usize>,
    pub active_env_id: Option<u128>,
}

/// The active index, when there is one, points at a tab.
pub open spec fn active_in_range(active: Option<usize>, len: nat) -> bool {
    active matches Some(i) ==> i < len
}

/// The active index after the active tab (at `index`) was closed, leaving `len`
/// tabs: the tab that took its place, or the last tab, or none.
pub open spec fn active_after_closing_active(index: usize, len: nat) -> Option<usize> {
    if len == 0 {
        None
    } else if index >= len {
        Some((len - 1) as usize)
    } else {
        Some(index)
    }
}

/// The active index after the tab at `closed` was closed, leaving `len` tabs: the
/// tab before it if it was active (the first one if it was first), one less if the
/// active tab came after it.
pub open spec fn active_after_closing(active: Option<usize>, closed: usize, len: nat) -> Option<usize> {
    if len == 0 {
        None
    } else {
        match active {
            Some(a) => if a == closed {
                if closed > 0 {
                    Some((closed - 1) as usize)
                } else {
                    Some(0usize)
                }
            } else if a > closed {
                Some((a - 1) as usize)
            } else {
                Some(a)
            },
            None => None,
        }
    }
}

/// The tab after the active one, wrapping around; the first when none is active.
pub open spec fn next_index(active: Option<usize>, len: nat) -> usize {
    match active {
        Some(i) => ((i + 1) % (len as int)) as usize,
        None => 0,
    }
}

/// The tab before the active one, wrapping around; the first when none is active.
pub open spec fn previous_index(active: Option<usize>, len: nat) -> usize {
    match active {
        Some(i) => if i == 0 {
            (len - 1) as usize
        } else {
            (i - 1) as usize
        },
        None => 0,
    }
}

impl AppState {
    /// The state for a workspace, with no tab open.
    pub fn new(core: ReqForgeCore) -> (r: AppState)
        ensures
            r.core == core,
            r.tabs@.len() == 0,
            r.active_tab is None,
            r.active_env_id is None,
    {
        AppState { core, tabs: Vec::new(), active_tab: None, active_env_id: None }
    }

    /// The active tab, if one is active and in range.
    pub fn active_tab(&self) -> (r: Option<&TabState>)
        ensures
            match self.active_tab {
                Some(i) => if i < self.tabs@.len() {
                    r matches Some(t) && *t == self.tabs@[i as int]
                } else {
                    r is None
                },
                None => r is None,
            },
    {
        match self.active_tab {
            Some(i) => if i < self.tabs.len() {
                Some(&self.tabs[i])
            } else {
                None
            },
            None => None,
        }
    }

    /// Opens a tab on a draft of a request and makes it active.
    pub fn open_tab(&mut self, request_id: u128, collection_id: u128, draft: RequestDefinition)
        requires
            old(self).tabs@.len() < usize::MAX,
        ensures
            final(self).tabs@ == old(self).tabs@.push(
                TabState { request_id, collection_id, draft, last_response: None, is_loading: false, is_dirty: false },
            ),
            final(self).active_tab == Some((final(self).tabs@.len() - 1) as usize),
            final(self).core == old(self).core,
            final(self).active_env_id == old(self).active_env_id,
    {
        let tab = TabState { request_id, collection_id, draft, last_response: None, is_loading: false, is_dirty: false };
        self.tabs.push(tab);
        self.active_tab = Some(self.tabs.len() - 1);
    }

    /// Closes the active tab; the tab that takes its place (or the last one)
    /// becomes active.
    pub fn close_active_tab(&mut self)
        requires
            active_in_range(old(self).active_tab, old(self).tabs@.len()),
        ensures
            active_in_range(final(self).active_tab, final(self).tabs@.len()),
            final(self).core == old(self).core,
            final(self).active_env_id == old(self).active_env_id,
            match old(self).active_tab {
                Some(i) => final(self).tabs@ == old(self).tabs@.remove(i as int) && final(self).active_tab
                    == active_after_closing_active(i, final(self).tabs@.len()),
                None => final(self).tabs@ == old(self).tabs@ && final(self).active_tab is None,
            },
    {
        if let Some(index) = self.active_tab {
            self.tabs.remove(index);
            if self.tabs.len() == 0 {
                self.active_tab = None;
            } else if index >= self.tabs.len() {
                self.active_tab = Some(self.tabs.len() - 1);
            } else {
                self.active_tab = Some(index);
            }
        }
    }

    /// Makes the tab at the index active, when there is one.
    pub fn select_tab(&mut self, index: usize)
        ensures
            final(self).tabs@ == old(self).tabs@,
            final(self).core == old(self).core,
            final(self).active_env_id == old(self).active_env_id,
            final(self).active_tab == if index < old(self).tabs@.len() {
                Some(index)
            } else {
                old(self).active_tab
            },
    {
        if index < self.tabs.len() {
            self.active_tab = Some(index);
        }
    }

    /// Closes the tab at the index, when there is one, and moves the active index
    /// so that it keeps pointing at a tab.
    pub fn close_tab(&mut self, index: usize)
        ensures
            final(self).core == old(self).core,
            final(self).active_env_id == old(self).active_env_id,
            index < old(self).tabs@.len() ==> final(self).tabs@ == old(self).tabs@.remove(index as int)
                && final(self).active_tab == active_after_closing(old(self).active_tab, index, final(self).tabs@.len()),
            index >= old(self).tabs@.len() ==> final(self).tabs@ == old(self).tabs@ && final(self).active_tab
                == old(self).active_tab,
            active_in_range(old(self).active_tab, old(self).tabs@.len()) ==> active_in_range(
                final(self).active_tab,
                final(self).tabs@.len(),
            ),
    {
        if index < self.tabs.len() {
            self.tabs.remove(index);
            if self.tabs.len() == 0 {
                self.active_tab = None;
            } else {
                match self.active_tab {
                    Some(a) => {
                        if a == index {
                            self.active_tab = if index > 0 {
                                Some(index - 1)
                            } else {
                                Some(0)
                            };
                        } else if a > index {
                            self.active_tab = Some(a - 1);
                        }
                    },
                    None => {},
                }
            }
        }
    }

    /// Activates the next tab, wrapping around to the first; nothing happens
    /// without tabs.
    pub fn next_tab(&mut self)
        requires
            !(old(self).active_tab matches Some(i) && i == usize::MAX),
        ensures
            final(self).tabs@ == old(self).tabs@,
            final(self).core == old(self).core,
            final(self).active_env_id == old(self).active_env_id,
            old(self).tabs@.len() == 0 ==> final(self).active_tab == old(self).active_tab,
            old(self).tabs@.len() > 0 ==> final(self).active_tab == Some(
                next_index(old(self).active_tab, old(self).tabs@.len()),
            ),
            old(self).tabs@.len() > 0 ==> active_in_range(final(self).active_tab, final(self).tabs@.len()),
    {
        if self.tabs.len() == 0 {
            return;
        }
        let next = match self.active_tab {
            Some(index) => (index + 1) % self.tabs.len(),
            None => 0,
        };
        self.active_tab = Some(next);
    }

    /// Activates the previous tab, wrapping around to the last; nothing happens
    /// without tabs.
    pub fn previous_tab(&mut self)
        ensures
            final(self).tabs@ == old(self).tabs@,
            final(self).core == old(self).core,
            final(self).active_env_id == old(self).active_env_id,
            old(self).tabs@.len() == 0 ==> final(self).active_tab == old(self).active_tab,
            old(self).tabs@.len() > 0 ==> final(self).active_tab == Some(
                previous_index(old(self).active_tab, old(self).tabs@.len()),
            ),
            old(self).tabs@.len() > 0 && active_in_range(old(self).active_tab, old(self).tabs@.len())
                ==> active_in_range(final(self).active_tab, final(self).tabs@.len()),
    {
        if self.tabs.len() == 0 {
            return;
        }
        let prev = match self.active_tab {
            Some(index) => if index == 0 {
                self.tabs.len() - 1
            } else {
                index - 1
            },
            None => 0,
        };
        self.active_tab = Some(prev);
    }

    /// A copy of the active tab's draft, to be sent; an error without an active tab.
    pub fn active_request(&self) -> (r: Result<RequestDefinition, String>)
        ensures
            match self.active_tab {
                Some(i) => if i < self.tabs@.len() {
                    r matches Ok(req) && req@ == self.tabs@[i as int].draft@
                } else {
                    r matches Err(e) && e@ == "No active tab"@
                },
                None => r matches Err(e) && e@ == "No active tab"@,
            },
    {
        match self.active_tab() {
            Some(tab) => Ok(tab.draft.duplicate()),
            None => Err(to_owned_string("No active tab")),
        }
    }
}

/// A row of the headers or parameters editor of a tab.
#[derive(Debug)]
pub struct KeyValueRow {
    pub id: u128,
    pub enabled: bool,
    pub key: String,
    pub value: String,
}

impl KeyValueRow {
    /// An empty, enabled row with a fresh id.
    pub fn new() -> (r: KeyValueRow)
        ensures
            r.enabled,
            r.key@.len() == 0,
            r.value@.len() == 0,
            is_v4_uuid(r.id),
    {
        KeyValueRow { id: new_id(), enabled: true, key: String::new(), value: String::new() }
    }

    /// A row showing a pair, with a fresh id.
    pub fn from_kv_pair(pair: &KeyValuePair) -> (r: KeyValueRow)
        ensures
            r.enabled == pair.enabled,
            r.key@ == pair.key@,
            r.value@ == pair.value@,
            is_v4_uuid(r.id),
    {
        KeyValueRow { id: new_id(), enabled: pair.enabled, key: pair.key.clone(), value: pair.value.clone() }
    }

    /// The pair the row stands for, without a description.
    pub fn to_kv_pair(&self) -> (r: KeyValuePair)
        ensures
            r@ == (PairView { key: self.key@, value: self.value@, enabled: self.enabled, description: None }),
    {
        KeyValuePair { key: self.key.clone(), value: self.value.clone(), enabled: self.enabled, description: None }
    }
}

} // verus!

verus! {

/// The request the collection with the id holds under the request id: from the
/// first collection with that id that holds it.
pub open spec fn request_in_collections(cs: Seq<Collection>, collection_id: u128, request_id: u128) -> Option<RequestView>
    decreases cs.len(),
{
    if cs.len() == 0 {
        None
    } else if cs[0].id == collection_id && cs[0]@.requests.contains_key(request_id) {
        Some(cs[0]@.requests[request_id])
    } else {
        request_in_collections(cs.drop_first(), collection_id, request_id)
    }
}

/// Whether `i` is the first tab on the request.
pub open spec fn first_tab_on(tabs: Seq<TabState>, request_id: u128, i: int) -> bool {
    0 <= i < tabs.len() && tabs[i].request_id == request_id && forall|j: int|
        0 <= j < i ==> (#[trigger] tabs[j]).request_id != request_id
}

/// Whether some tab is on the request.
pub open spec fn has_tab_on(tabs: Seq<TabState>, request_id: u128) -> bool {
    exists|i: int| 0 <= i < tabs.len() && (#[trigger] tabs[i]).request_id == request_id
}

/// A response made up for a request that could not be sent.
pub open spec fn made_up_response(r: HttpResponse, status_text: Seq<char>, body: Seq<char>) -> bool {
    &&& r.status == 0
    &&& r.status_text@ == status_text
    &&& r.headers@.len() == 0
    &&& r.body@ == encode_utf8(body)
    &&& r.size_bytes == 0
    &&& r.elapsed_secs == 0
    &&& r.elapsed_subsec_nanos == 0
}

fn made_up(status_text: &str, body: &str) -> (r: HttpResponse)
    ensures
        made_up_response(r, status_text@, body@),
{
    HttpResponse {
        status: 0,
        status_text: to_owned_string(status_text),
        headers: Vec::new(),
        body: vstd::slice::slice_to_vec(body.as_bytes()),
        size_bytes: 0,
        elapsed_secs: 0,
        elapsed_subsec_nanos: 0,
    }
}

/// The request held by the first collection with the id that holds it.
fn find_request(collections: &Vec<Collection>, collection_id: u128, request_id: u128) -> (r: Option<&RequestDefinition>)
    ensures
        match request_in_collections(collections@, collection_id, request_id) {
            Some(v) => r matches Some(req) && req@ == v,
            None => r is None,
        },
{
    let mut i: usize = 0;
    assert(collections@.skip(0) =~= collections@);
    while i < collections.len()
        invariant
            0 <= i <= collections@.len(),
            request_in_collections(collections@, collection_id, request_id) == request_in_collections(
                collections@.skip(i as int),
                collection_id,
                request_id,
            ),
        decreases collections@.len() - i,
    {
        let c = &collections[i];
        proof {
            assert(collections@.skip(i as int)[0] == *c);
            assert(collections@.skip(i as int).drop_first() =~= collections@.skip(i + 1));
        }
        if c.id == collection_id {
            match c.requests.get(&request_id) {
                Some(req) => {
                    return Some(req);
                },
                None => {},
            }
        }
        i = i + 1;
    }
    assert(collections@.skip(i as int) =~= Seq::<Collection>::empty());
    None
}

/// What opening a request in a tab does to the tabs and the active index, given
/// the request the collection holds under the id: nothing when it holds none; the
/// first tab on the id becomes active when there is one; else a new tab on a copy
/// of the request opens, last, and becomes active.
pub open spec fn open_outcome(
    tabs: Seq<TabState>,
    active: Option<usize>,
    tabs2: Seq<TabState>,
    active2: Option<usize>,
    found: Option<RequestView>,
    collection_id: u128,
    request_id: u128,
) -> bool {
    match found {
        None => tabs2 == tabs && active2 == active,
        Some(req) => if has_tab_on(tabs, request_id) {
            tabs2 == tabs && exists|i: int| #[trigger] first_tab_on(tabs, request_id, i) && active2 == Some(i as usize)
        } else {
            let n = tabs.len();
            &&& tabs2.len() == n + 1
            &&& tabs2.take(n as int) == tabs
            &&& tabs2[n as int].request_id == req.id
            &&& tabs2[n as int].collection_id == collection_id
            &&& tabs2[n as int].draft@ == req
            &&& tabs2[n as int].last_response is None
            &&& !tabs2[n as int].is_loading
            &&& !tabs2[n as int].is_dirty
            &&& active2 == Some(n as usize)
        },
    }
}

/// Opening a request that is stored under its own id a second time opens no
/// second tab: the tabs stay as the first opening left them, and the tab on the
/// request becomes active again.
pub proof fn law_reopen_adds_no_tab(
    tabs0: Seq<TabState>,
    active0: Option<usize>,
    tabs1: Seq<TabState>,
    active1: Option<usize>,
    tabs2: Seq<TabState>,
    active2: Option<usize>,
    req: RequestView,
    collection_id: u128,
    request_id: u128,
)
    requires
        req.id == request_id,
        open_outcome(tabs0, active0, tabs1, active1, Some(req), collection_id, request_id),
        open_outcome(tabs1, active1, tabs2, active2, Some(req), collection_id, request_id),
    ensures
        tabs2 == tabs1,
        has_tab_on(tabs1, request_id),
        exists|i: int| #[trigger] first_tab_on(tabs1, request_id, i) && active2 == Some(i as usize),
{
    if !has_tab_on(tabs0, request_id) {
        let n = tabs0.len() as int;
        assert(tabs1[n].request_id == request_id);
    }
}

impl AppState {
    /// Opens the request held by the collection in a tab: the tab already on it
    /// becomes active, or a new tab on a copy of it opens; nothing happens when the
    /// collection does not hold it.
    pub fn open_request_in_tab(&mut self, collection_id: u128, request_id: u128) -> (r: bool)
        requires
            old(self).tabs@.len() < usize::MAX,
        ensures
            r == request_in_collections(old(self).core.collections@, collection_id, request_id) is Some,
            final(self).core == old(self).core,
            final(self).active_env_id == old(self).active_env_id,
            open_outcome(
                old(self).tabs@,
                old(self).active_tab,
                final(self).tabs@,
                final(self).active_tab,
                request_in_collections(old(self).core.collections@, collection_id, request_id),
                collection_id,
                request_id,
            ),
    {
        let draft = match find_request(&self.core.collections, collection_id, request_id) {
            Some(req) => req.duplicate(),
            None => {
                return false;
            },
        };
        let mut i: usize = 0;
        while i < self.tabs.len()
            invariant
                0 <= i <= self.tabs@.len(),
                self.tabs@ == old(self).tabs@,
                self.core == old(self).core,
                self.active_env_id == old(self).active_env_id,
                self.active_tab == old(self).active_tab,
                request_in_collections(old(self).core.collections@, collection_id, request_id) is Some,
                forall|j: int| 0 <= j < i ==> (#[trigger] self.tabs@[j]).request_id != request_id,
            decreases self.tabs@.len() - i,
        {
            if self.tabs[i].request_id == request_id {
                self.active_tab = Some(i);
                assert(first_tab_on(old(self).tabs@, request_id, i as int));
                return true;
            }
            i = i + 1;
        }
        let ghost before = self.tabs@;
        self.open_tab(draft.id, collection_id, draft);
        assert(self.tabs@.take(before.len() as int) =~= before);
        true
    }

    /// Starts sending the active tab's request. Without an active tab nothing
    /// happens; with a blank URL the tab gets an "Invalid Request" response instead;
    /// otherwise the tab is marked loading and the request to send is returned: the
    /// draft under the tab's request id, stamped now, with its pairs stripped of
    /// their descriptions and its body text sent as raw JSON (no body when the text
    /// is empty).
    pub fn begin_send(&mut self) -> (r: Option<RequestDefinition>)
        ensures
            final(self).core == old(self).core,
            final(self).active_env_id == old(self).active_env_id,
            final(self).active_tab == old(self).active_tab,
            final(self).tabs@.len() == old(self).tabs@.len(),
            match old(self).active_tab {
                Some(i) => if i < old(self).tabs@.len() {
                    let tab = old(self).tabs@[i as int];
                    &&& forall|k: int| 0 <= k < old(self).tabs@.len() && k != i ==> #[trigger] final(self).tabs@[k] == old(self).tabs@[k]
                    &&& final(self).tabs@[i as int].request_id == tab.request_id
                    &&& final(self).tabs@[i as int].collection_id == tab.collection_id
                    &&& final(self).tabs@[i as int].draft == tab.draft
                    &&& final(self).tabs@[i as int].is_dirty == tab.is_dirty
                    &&& if blank(tab.draft.url@) {
                        &&& r is None
                        &&& !final(self).tabs@[i as int].is_loading
                        &&& final(self).tabs@[i as int].last_response matches Some(resp) && made_up_response(
                            resp,
                            "Invalid Request"@,
                            "Error: URL cannot be empty. Please enter a valid URL."@,
                        )
                    } else {
                        &&& r matches Some(req) && req@ == (RequestView {
                            id: tab.request_id,
                            headers: pairs_without_descriptions(tab.draft@.headers),
                            query_params: pairs_without_descriptions(tab.draft@.query_params),
                            body: body_of_text(text_or(body_text_of(tab.draft@.body), Seq::empty()), RawContentType::Json),
                            created_at: req@.created_at,
                            updated_at: req@.updated_at,
                            ..tab.draft@
                        })
                        &&& final(self).tabs@[i as int].is_loading
                        &&& final(self).tabs@[i as int].last_response == tab.last_response
                    }
                } else {
                    r is None && final(self).tabs@ == old(self).tabs@
                },
                None => r is None && final(self).tabs@ == old(self).tabs@,
            },
    {
        let i = match self.active_tab {
            Some(i) => if i < self.tabs.len() {
                i
            } else {
                return None;
            },
            None => {
                return None;
            },
        };
        let ghost before = self.tabs@;
        let mut tab = self.tabs.remove(i);
        let result = if is_blank(tab.draft.url.as_str()) {
            tab.last_response = Some(
                made_up("Invalid Request", "Error: URL cannot be empty. Please enter a valid URL."),
            );
            tab.is_loading = false;
            None
        } else {
            tab.is_loading = true;
            let mut request = tab.draft.duplicate();
            request.id = tab.request_id;
            request.headers = strip_descriptions(&tab.draft.headers);
            request.query_params = strip_descriptions(&tab.draft.query_params);
            let text = match body_type_to_string(&tab.draft.body) {
                Some(t) => t,
                None => String::new(),
            };
            request.body = body_string_to_body_type(text, RawContentType::Json);
            request.created_at = now();
            request.updated_at = now();
            Some(request)
        };
        self.tabs.insert(i, tab);
        assert forall|k: int| 0 <= k < before.len() && k != i implies #[trigger] self.tabs@[k] == before[k] by {}
        result
    }

    /// Ends a send: the active tab gets the response, or a made-up "Error" response
    /// whose body tells why the request failed, and stops loading.
    pub fn finish_send(&mut self, result: Result<HttpResponse, String>)
        ensures
            final(self).core == old(self).core,
            final(self).active_env_id == old(self).active_env_id,
            final(self).active_tab == old(self).active_tab,
            final(self).tabs@.len() == old(self).tabs@.len(),
            match old(self).active_tab {
                Some(i) => if i < old(self).tabs@.len() {
                    let tab = old(self).tabs@[i as int];
                    &&& forall|k: int| 0 <= k < old(self).tabs@.len() && k != i ==> #[trigger] final(self).tabs@[k] == old(self).tabs@[k]
                    &&& final(self).tabs@[i as int].request_id == tab.request_id
                    &&& final(self).tabs@[i as int].collection_id == tab.collection_id
                    &&& final(self).tabs@[i as int].draft == tab.draft
                    &&& final(self).tabs@[i as int].is_dirty == tab.is_dirty
                    &&& !final(self).tabs@[i as int].is_loading
                    &&& match result {
                        Ok(resp) => final(self).tabs@[i as int].last_response == Some(resp),
                        Err(e) => final(self).tabs@[i as int].last_response matches Some(resp) && made_up_response(
                            resp,
                            "Error"@,
                            "Request failed: "@ + e@,
                        ),
                    }
                } else {
                    final(self).tabs@ == old(self).tabs@
                },
                None => final(self).tabs@ == old(self).tabs@,
            },
    {
        let i = match self.active_tab {
            Some(i) => if i < self.tabs.len() {
                i
            } else {
                return;
            },
            None => {
                return;
            },
        };
        let ghost before = self.tabs@;
        let mut tab = self.tabs.remove(i);
        match result {
            Ok(resp) => {
                tab.last_response = Some(resp);
            },
            Err(e) => {
                let mut body = to_owned_string("Request failed: ");
                push_str(&mut body, e.as_str());
                tab.last_response = Some(made_up("Error", body.as_str()));
            },
        }
        tab.is_loading = false;
        self.tabs.insert(i, tab);
        assert forall|k: int| 0 <= k < before.len() && k != i implies #[trigger] self.tabs@[k] == before[k] by {}
    }
}

/// Moving to the next tab and then to the previous one comes back to the same
/// tab, and so does the other order; both land on an open tab.
pub proof fn law_next_then_previous(i: usize, len: nat)
    requires
        i < len,
        len <= usize::MAX,
    ensures
        next_index(Some(i), len) < len,
        previous_index(Some(i), len) < len,
        previous_index(Some(next_index(Some(i), len)), len) == i,
        next_index(Some(previous_index(Some(i), len)), len) == i,
{
    if i + 1 < len {
        assert((i + 1) % (len as int) == i + 1) by (nonlinear_arith)
            requires
                0 <= i + 1 < len,
        ;
    } else {
        assert((i + 1) % (len as int) == 0) by (nonlinear_arith)
            requires
                i + 1 == len,
                len > 0,
        ;
    }
    if i == 0 {
        assert(((len - 1) + 1) % (len as int) == 0) by (nonlinear_arith)
            requires
                len > 0,
        ;
    } else {
        assert(((i - 1) + 1) % (len as int) == i) by (nonlinear_arith)
            requires
                0 < i < len,
        ;
    }
}

/// Closing a tab keeps the active index on an open tab (or none when no tab is
/// left).
pub proof fn law_closing_keeps_active_in_range(active: Option<usize>, closed: usize, len: nat)
    requires
        active_in_range(active, len + 1),
        closed <= len,
    ensures
        active_in_range(active_after_closing(active, closed, len), len),
        active_in_range(active_after_closing_active(closed, len), len),
        len > 0 ==> active_after_closing_active(closed, len) is Some,
{
}

} // verus!
