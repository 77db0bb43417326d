//! Request history: the most recent requests first, bounded in size.
use vstd::prelude::*;
use std::collections::VecDeque;
use crate::ids::{Timestamp, new_id, now, is_v4_uuid};
use crate::models::{RequestDefinition, RequestView};
use crate::models::{opt_view, copy_opt_string};
use crate::response::{ResponseSnapshot, SnapshotView};
use crate::env::{VarMap, Interpolator, resolved_request};
use crate::text::to_owned_string;

verus! {

/// The default bound on the number of history entries.
pub const DEFAULT_MAX_HISTORY_SIZE: usize = 100;

/// One sent request with what came back.
#[derive(Clone, Debug)]
pub struct RequestHistoryEntry {
    pub id: u128,
    pub request: RequestDefinition,
    pub response: ResponseSnapshot,
    pub timestamp: Timestamp,
    pub environment_id: Option<u128>,
    pub environment_name: Option<String>,
}

/// The mathematical value of a history entry.
pub struct EntryView {
    pub id: u128,
    pub request: RequestView,
    pub response: SnapshotView,
    pub timestamp: Timestamp,
    pub environment_id: Option<u128>,
    pub environment_name: Option<Seq<char>>,
}

impl View for RequestHistoryEntry {
    type V = EntryView;

    open spec fn view(&self) -> EntryView {
        EntryView {
            id: self.id,
            request: self.request@,
            response: self.response@,
            timestamp: self.timestamp,
            environment_id: self.environment_id,
            environment_name: opt_view(self.environment_name),
        }
    }
}

/// The values of a list of entries.
pub open spec fn entries_view(s: Seq<RequestHistoryEntry>) -> Seq<EntryView> {
    s.map_values(|e: RequestHistoryEntry| e@)
}

impl RequestHistoryEntry {
    /// An entry with a fresh id, stamped now.
    pub fn new(
        request: RequestDefinition,
        response: ResponseSnapshot,
        environment_id: Option<u128>,
        environment_name: Option<String>,
    ) -> (r: RequestHistoryEntry)
        ensures
            r@.request == request@,
            r@.response == response@,
            r@.environment_id == environment_id,
            r@.environment_name == opt_view(environment_name),
            is_v4_uuid(r@.id),
    {
        RequestHistoryEntry {
            id: new_id(),
            request,
            response,
            timestamp: now(),
            environment_id,
            environment_name,
        }
    }

    /// A copy of this entry.
    pub fn duplicate(&self) -> (r: RequestHistoryEntry)
        ensures
            r@ == self@,
    {
        RequestHistoryEntry {
            id: self.id,
            request: self.request.duplicate(),
            response: self.response.duplicate(),
            timestamp: self.timestamp,
            environment_id: self.environment_id,
            environment_name: copy_opt_string(&self.environment_name),
        }
    }
}

/// What `Path::join` makes of a directory and a file name.
pub uninterp spec fn path_join(dir: Seq<char>, name: Seq<char>) -> Seq<char>;

/// `std::path::Path::join`, read back as text; the path of a file in a directory.
/// The text is named, not stated: the standard library decides where a separator goes.
#[verifier::external_body]
pub(crate) fn join_path(dir: &str, name: &str) -> (r: String)
    ensures
        r@ == path_join(dir@, name@),
{
    std::path::Path::new(dir).join(name).to_string_lossy().into_owned()
}

/// The request history of a workspace, most recent entry first.
#[derive(Debug)]
pub struct RequestHistory {
    entries: VecDeque<RequestHistoryEntry>,
    max_size: usize,
    history_path: String,
    is_dirty: bool,
}

/// The mathematical value of a history.
pub struct HistoryView {
    pub entries: Seq<EntryView>,
    pub max_size: usize,
    pub history_path: Seq<char>,
    pub is_dirty: bool,
}

impl View for RequestHistory {
    type V = HistoryView;

    closed spec fn view(&self) -> HistoryView {
        HistoryView {
            entries: entries_view(self.entries@),
            max_size: self.max_size,
            history_path: self.history_path@,
            is_dirty: self.is_dirty,
        }
    }
}

/// The smaller of two integers.
pub open spec fn min(a: int, b: int) -> int {
    if a < b {
        a
    } else {
        b
    }
}

/// The entries after adding `e` in front and trimming to `max` entries.
pub open spec fn entries_after_add(entries: Seq<EntryView>, e: EntryView, max: usize) -> Seq<EntryView> {
    (seq![e] + entries).take(min(max as int, entries.len() as int + 1))
}

/// The entries kept from a loaded list: the list in its saved order, most recent
/// first, cut to `max` entries.
pub open spec fn entries_after_load(loaded: Seq<EntryView>, max: usize) -> Seq<EntryView> {
    loaded.take(min(max as int, loaded.len() as int))
}

impl RequestHistory {
    /// An empty history kept in `history.json` of the workspace, bounded to the
    /// default size.
    pub fn new(workspace_dir: &str) -> (r: RequestHistory)
        ensures
            r@.entries.len() == 0,
            r@.max_size == DEFAULT_MAX_HISTORY_SIZE,
            r@.history_path == path_join(workspace_dir@, "history.json"@),
            !r@.is_dirty,
    {
        RequestHistory {
            entries: VecDeque::with_capacity(DEFAULT_MAX_HISTORY_SIZE),
            max_size: DEFAULT_MAX_HISTORY_SIZE,
            history_path: join_path(workspace_dir, "history.json"),
            is_dirty: false,
        }
    }

    /// The same history with another bound; entries beyond it stay until the next
    /// addition.
    pub fn with_max_size(self, max_size: usize) -> (r: RequestHistory)
        ensures
            r@ == (HistoryView { max_size, ..self@ }),
    {
        RequestHistory { max_size, ..self }
    }

    /// Puts `entries` in place of the history's entries, as loading from disk does:
    /// the saved order is kept, most recent first, and only the first `max_size`
    /// entries are kept.
    pub fn load_entries(&mut self, loaded: Vec<RequestHistoryEntry>)
        ensures
            final(self)@ == (HistoryView {
                entries: entries_after_load(entries_view(loaded@), old(self)@.max_size),
                is_dirty: false,
                ..old(self)@
            }),
    {
        self.entries.clear();
        let mut loaded = loaded;
        let ghost l = loaded@;
        loaded.truncate(self.max_size);
        let ghost kept = loaded@;
        let n: usize = loaded.len();
        proof {
            assert(entries_view(kept) =~= entries_after_load(entries_view(l), self.max_size));
        }
        while loaded.len() > 0
            invariant
                self.max_size == old(self).max_size,
                self.history_path == old(self).history_path,
                n == kept.len(),
                loaded@.len() <= n,
                loaded@ == kept.take(loaded@.len() as int),
                entries_view(self.entries@) == entries_view(kept).subrange(loaded@.len() as int, n as int),
            decreases loaded@.len(),
        {
            let ghost prev_loaded = loaded@;
            let ghost prev = self.entries@;
            let ghost m = prev_loaded.len();
            let e = loaded.pop().unwrap();
            proof {
                assert(e == prev_loaded.last());
                assert(prev_loaded.last() == kept[m - 1]);
                assert(loaded@ =~= kept.take(m - 1));
            }
            let ghost ev = e@;
            self.entries.push_front(e);
            proof {
                assert(self.entries@ == seq![e] + prev);
                assert(entries_view(self.entries@) =~= seq![ev] + entries_view(prev));
                assert(ev == entries_view(kept)[m - 1]);
                assert(entries_view(self.entries@) =~= entries_view(kept).subrange(m - 1, n as int));
            }
        }
        self.is_dirty = false;
        assert(entries_view(self.entries@) =~= entries_view(kept));
    }

    /// The entries to write back, or `None` when nothing changed since loading.
    pub fn entries_to_save(&self) -> (r: Option<Vec<RequestHistoryEntry>>)
        ensures
            r is Some == self@.is_dirty,
            r matches Some(v) ==> entries_view(v@) == self@.entries,
    {
        if !self.is_dirty {
            return None;
        }
        Some(self.get_all())
    }

    /// The path of the history file.
    pub fn history_path(&self) -> (r: &String)
        ensures
            r@ == self@.history_path,
    {
        &self.history_path
    }

    /// Adds an entry in front and drops the oldest entries beyond the bound.
    pub fn add_entry(&mut self, entry: RequestHistoryEntry)
        ensures
            final(self)@ == (HistoryView {
                entries: entries_after_add(old(self)@.entries, entry@, old(self)@.max_size),
                is_dirty: true,
                ..old(self)@
            }),
            final(self)@.entries.len() <= final(self)@.max_size,
    {
        let ghost e = entry@;
        let ghost before = entries_view(self.entries@);
        self.entries.push_front(entry);
        assert(entries_view(self.entries@) =~= seq![e] + before);
        while self.entries.len() > self.max_size
            invariant
                self.max_size == old(self).max_size,
                self.history_path == old(self).history_path,
                entries_view(self.entries@) == (seq![e] + before).take(entries_view(self.entries@).len() as int),
                entries_view(self.entries@).len() >= min(self.max_size as int, before.len() as int + 1),
                entries_view(self.entries@).len() <= before.len() + 1,
            decreases self.entries@.len(),
        {
            let ghost cur = self.entries@;
            self.entries.pop_back();
            assert(entries_view(self.entries@) =~= entries_view(cur).drop_last());
        }
        self.is_dirty = true;
        assert(entries_view(self.entries@) =~= entries_after_add(before, e, self.max_size));
    }

    /// Every entry, most recent first.
    pub fn get_all(&self) -> (r: Vec<RequestHistoryEntry>)
        ensures
            entries_view(r@) == self@.entries,
    {
        self.get_recent(self.entries.len())
    }

    /// The `count` most recent entries (all of them if there are fewer).
    pub fn get_recent(&self, count: usize) -> (r: Vec<RequestHistoryEntry>)
        ensures
            entries_view(r@) == self@.entries.take(min(count as int, self@.entries.len() as int)),
    {
        let mut r: Vec<RequestHistoryEntry> = Vec::new();
        let mut i: usize = 0;
        while i < count && i < self.entries.len()
            invariant
                0 <= i <= self.entries@.len(),
                i <= count,
                entries_view(r@) == entries_view(self.entries@).take(i as int),
            decreases self.entries@.len() - i,
        {
            let ghost prev = r@;
            let d = self.entries[i].duplicate();
            r.push(d);
            assert(r@ == prev.push(d));
            assert(entries_view(r@) =~= entries_view(prev).push(d@));
            assert(d@ == entries_view(self.entries@)[i as int]);
            assert(entries_view(r@) =~= entries_view(self.entries@).take(i + 1));
            i = i + 1;
        }
        r
    }

    /// The entry with the given id, if any (the most recent such).
    pub fn get_entry(&self, id: u128) -> (r: Option<&RequestHistoryEntry>)
        ensures
            r is Some == (exists|i: int| 0 <= i < self@.entries.len() && (#[trigger] self@.entries[i]).id == id),
            r matches Some(e) ==> exists|i: int|
                0 <= i < self@.entries.len() && self@.entries[i] == e@ && e@.id == id && forall|j: int|
                    0 <= j < i ==> (#[trigger] self@.entries[j]).id != id,
    {
        let mut i: usize = 0;
        while i < self.entries.len()
            invariant
                0 <= i <= self.entries@.len(),
                forall|j: int| 0 <= j < i ==> (#[trigger] entries_view(self.entries@)[j]).id != id,
            decreases self.entries@.len() - i,
        {
            if self.entries[i].id == id {
                assert(entries_view(self.entries@)[i as int] == self.entries@[i as int]@);
                return Some(&self.entries[i]);
            }
            i = i + 1;
        }
        None
    }

    /// Removes every entry.
    pub fn clear(&mut self)
        ensures
            final(self)@ == (HistoryView { entries: Seq::empty(), is_dirty: true, ..old(self)@ }),
    {
        self.entries.clear();
        self.is_dirty = true;
        assert(entries_view(self.entries@) =~= Seq::empty());
    }

    /// The number of entries.
    pub fn len(&self) -> (r: usize)
        ensures
            r == self@.entries.len(),
    {
        self.entries.len()
    }

    /// Whether there is no entry.
    pub fn is_empty(&self) -> (r: bool)
        ensures
            r == (self@.entries.len() == 0),
    {
        self.entries.len() == 0
    }

    /// The bound on the number of entries.
    pub fn max_size(&self) -> (r: usize)
        ensures
            r == self@.max_size,
    {
        self.max_size
    }

    /// The request to send again for an entry, re-resolved with the current
    /// variables; an error when no entry has the id.
    pub fn replay_request(&self, entry_id: u128, vars: &VarMap) -> (r: Result<RequestDefinition, u128>)
        ensures
            r is Ok == (exists|i: int| 0 <= i < self@.entries.len() && (#[trigger] self@.entries[i]).id == entry_id),
            r matches Err(id) ==> id == entry_id,
            r matches Ok(req) ==> exists|i: int|
                0 <= i < self@.entries.len() && self@.entries[i].id == entry_id && req@ == resolved_request(
                    self@.entries[i].request,
                    vars@,
                ) && forall|j: int| 0 <= j < i ==> (#[trigger] self@.entries[j]).id != entry_id,
    {
        match self.get_entry(entry_id) {
            Some(e) => Ok(Interpolator::resolve(&e.request, vars)),
            None => Err(entry_id),
        }
    }
}

/// An added entry is the most recent one, the earlier entries follow it in their
/// order, and the history never holds more than its bound.
pub proof fn law_add_entry_comes_first(entries: Seq<EntryView>, e: EntryView, max: usize)
    requires
        max > 0,
    ensures
        entries_after_add(entries, e, max)[0] == e,
        entries_after_add(entries, e, max).len() == min(max as int, entries.len() as int + 1),
        entries_after_add(entries, e, max).len() <= max,
        forall|i: int|
            0 < i < entries_after_add(entries, e, max).len() ==> #[trigger] entries_after_add(entries, e, max)[i]
                == entries[i - 1],
{
}

/// Loading what was saved gives the entries back in the same order, most recent
/// first, as long as they fit the bound; past the bound the most recent ones are
/// kept.
pub proof fn law_reload_keeps_order(entries: Seq<EntryView>, max: usize)
    ensures
        entries.len() <= max ==> entries_after_load(entries, max) == entries,
        entries.len() > max ==> entries_after_load(entries, max) == entries.take(max as int),
{
    assert(entries.take(entries.len() as int) =~= entries);
}

} // verus!
