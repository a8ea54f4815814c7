//! The completion cache: the last result computed for a line of a document,
//! with the document version it was computed against.

use crate::completion::{CopilotCompletionResponse, CopilotCyclingCompletion};
use vstd::prelude::*;

verus! {

/// What a result holds: its candidates and its reason.
pub type ResponseView = (Seq<CopilotCyclingCompletion>, Option<String>);

pub open spec fn response_view(r: CopilotCompletionResponse) -> ResponseView {
    (r.completions@, r.cancellation_reason)
}

/// Cached results, keyed by document URI and line, with the version each was
/// computed against.
pub type CacheModel = Map<(Seq<char>, u32), (i32, ResponseView)>;

/// What a lookup of `uri` and `line` gives while the document is at version
/// `current`: the cached result, if one was computed against that version.
pub open spec fn cache_lookup(m: CacheModel, uri: Seq<char>, line: u32, current: i32) -> Option<
    ResponseView,
> {
    if m.contains_key((uri, line)) && m[(uri, line)].0 == current {
        Some(m[(uri, line)].1)
    } else {
        None
    }
}

/// `m` without the entries of document `uri`.
pub open spec fn without_document(m: CacheModel, uri: Seq<char>) -> CacheModel {
    Map::new(|k: (Seq<char>, u32)| m.contains_key(k) && k.0 != uri, |k: (Seq<char>, u32)| m[k])
}

struct CacheEntry {
    uri: String,
    line: u32,
    version: i32,
    result: CopilotCompletionResponse,
}

/// The completion cache.
pub struct CopilotCache {
    entries: Vec<CacheEntry>,
    model: Ghost<CacheModel>,
}

impl View for CopilotCache {
    type V = CacheModel;

    closed spec fn view(&self) -> Self::V {
        self.model@
    }
}

impl CopilotCache {
    /// Keys are unique, and the map holds exactly the stored entries.
    pub closed spec fn wf(&self) -> bool {
        &&& forall|i: int, j: int|
            0 <= i < j < self.entries@.len() ==> (self.entries@[i].uri@, self.entries@[i].line)
                != (self.entries@[j].uri@, self.entries@[j].line)
        &&& forall|i: int|
            0 <= i < self.entries@.len() ==> {
                let e = #[trigger] self.entries@[i];
                &&& self.model@.contains_key((e.uri@, e.line))
                &&& self.model@[(e.uri@, e.line)] == (e.version, response_view(e.result))
            }
        &&& forall|k: (Seq<char>, u32)|
            #[trigger] self.model@.contains_key(k) ==> exists|i: int|
                0 <= i < self.entries@.len() && (self.entries@[i].uri@, self.entries@[i].line) == k
    }

    /// An empty cache.
    pub fn new() -> (r: Self)
        ensures
            r.wf(),
            r@ == CacheModel::empty(),
    {
        CopilotCache { entries: Vec::new(), model: Ghost(Map::empty()) }
    }

    fn find(&self, uri: &String, line: u32) -> (r: Option<usize>)
        requires
            self.wf(),
        ensures
            match r {
                Some(i) => i < self.entries@.len() && self.entries@[i as int].uri@ == uri@
                    && self.entries@[i as int].line == line,
                None => !self@.contains_key((uri@, line)),
            },
    {
        let mut i: usize = 0;
        while i < self.entries.len()
            invariant
                i <= self.entries@.len(),
                forall|q: int|
                    0 <= q < i ==> (self.entries@[q].uri@, self.entries@[q].line) != (uri@, line),
            decreases self.entries@.len() - i,
        {
            if self.entries[i].line == line && self.entries[i].uri == *uri {
                return Some(i);
            }
            i = i + 1;
        }
        proof {
            if self@.contains_key((uri@, line)) {
                let j = choose|j: int|
                    0 <= j < self.entries@.len() && (self.entries@[j].uri@, self.entries@[j].line)
                        == (uri@, line);
                assert((self.entries@[j].uri@, self.entries@[j].line) != (uri@, line));
            }
        }
        None
    }

    /// The result cached for `line` of `uri`, if it was computed against
    /// `current_version`, the document's version now.
    pub fn get_cached_result(&self, uri: &String, line: u32, current_version: i32) -> (r: Option<
        CopilotCompletionResponse,
    >)
        requires
            self.wf(),
        ensures
            match r {
                Some(res) => cache_lookup(self@, uri@, line, current_version) == Some(
                    response_view(res),
                ),
                None => cache_lookup(self@, uri@, line, current_version) is None,
            },
    {
        match self.find(uri, line) {
            None => None,
            Some(i) => {
                if self.entries[i].version == current_version {
                    Some(self.entries[i].result.copy())
                } else {
                    None
                }
            },
        }
    }

    /// Caches `result` for `line` of `uri`, computed against `version`.
    pub fn set_cached_result(
        &mut self,
        uri: &String,
        line: u32,
        version: i32,
        result: &CopilotCompletionResponse,
    )
        requires
            old(self).wf(),
        ensures
            final(self).wf(),
            final(self)@ == old(self)@.insert((uri@, line), (version, response_view(*result))),
    {
        let ghost key = (uri@, line);
        let ghost old_entries = self.entries@;
        let entry = CacheEntry { uri: uri.clone(), line, version, result: result.copy() };
        match self.find(uri, line) {
            Some(i) => {
                self.entries.set(i, entry);
                proof {
                    self.model@ = self.model@.insert(key, (version, response_view(*result)));
                    assert forall|k: (Seq<char>, u32)| #[trigger]
                        self.model@.contains_key(k) implies exists|j: int|
                        0 <= j < self.entries@.len() && (
                        self.entries@[j].uri@,
                        self.entries@[j].line,
                    ) == k by {
                        if k != key {
                            let j = choose|j: int|
                                0 <= j < old_entries.len() && (
                                old_entries[j].uri@,
                                old_entries[j].line,
                            ) == k;
                            assert((self.entries@[j].uri@, self.entries@[j].line) == k);
                        } else {
                            assert((self.entries@[i as int].uri@, self.entries@[i as int].line)
                                == k);
                        }
                    }
                }
            },
            None => {
                self.entries.push(entry);
                proof {
                    self.model@ = self.model@.insert(key, (version, response_view(*result)));
                    assert forall|k: (Seq<char>, u32)| #[trigger]
                        self.model@.contains_key(k) implies exists|j: int|
                        0 <= j < self.entries@.len() && (
                        self.entries@[j].uri@,
                        self.entries@[j].line,
                    ) == k by {
                        if k != key {
                            let j = choose|j: int|
                                0 <= j < old_entries.len() && (
                                old_entries[j].uri@,
                                old_entries[j].line,
                            ) == k;
                            assert((self.entries@[j].uri@, self.entries@[j].line) == k);
                        } else {
                            let n = old_entries.len() as int;
                            assert((self.entries@[n].uri@, self.entries@[n].line) == k);
                        }
                    }
                }
            },
        }
    }

    /// Removes the entry at place `i`.
    fn remove_at(&mut self, i: usize)
        requires
            old(self).wf(),
            i < old(self).entries@.len(),
        ensures
            final(self).wf(),
            final(self).entries@ == old(self).entries@.remove(i as int),
            final(self)@ == old(self)@.remove(
                (old(self).entries@[i as int].uri@, old(self).entries@[i as int].line),
            ),
    {
        let ghost old_entries = self.entries@;
        let ghost key = (old_entries[i as int].uri@, old_entries[i as int].line);
        self.entries.remove(i);
        proof {
            self.model@ = self.model@.remove(key);
            assert forall|j: int| 0 <= j < self.entries@.len() implies {
                let e = #[trigger] self.entries@[j];
                &&& self.model@.contains_key((e.uri@, e.line))
                &&& self.model@[(e.uri@, e.line)] == (e.version, response_view(e.result))
            } by {
                if j < i {
                    assert(self.entries@[j] == old_entries[j]);
                } else {
                    assert(self.entries@[j] == old_entries[j + 1]);
                }
            }
            assert forall|k: (Seq<char>, u32)| #[trigger]
                self.model@.contains_key(k) implies exists|j: int|
                0 <= j < self.entries@.len() && (self.entries@[j].uri@, self.entries@[j].line)
                    == k by {
                let j = choose|j: int|
                    0 <= j < old_entries.len() && (old_entries[j].uri@, old_entries[j].line) == k;
                if j < i {
                    assert((self.entries@[j].uri@, self.entries@[j].line) == k);
                } else {
                    assert((self.entries@[j - 1].uri@, self.entries@[j - 1].line) == k);
                }
            }
        }
    }

    /// Drops every result cached for document `uri`.
    pub fn invalidate_document(&mut self, uri: &String)
        requires
            old(self).wf(),
        ensures
            final(self).wf(),
            final(self)@ == without_document(old(self)@, uri@),
    {
        let ghost m0 = self.model@;
        let mut i: usize = 0;
        while i < self.entries.len()
            invariant
                self.wf(),
                i <= self.entries@.len(),
                forall|q: int| 0 <= q < i ==> self.entries@[q].uri@ != uri@,
                forall|k: (Seq<char>, u32)|
                    #[trigger] self@.contains_key(k) ==> m0.contains_key(k) && self@[k] == m0[k],
                forall|k: (Seq<char>, u32)|
                    m0.contains_key(k) && k.0 != uri@ ==> #[trigger] self@.contains_key(k),
            decreases self.entries@.len() - i,
        {
            if self.entries[i].uri == *uri {
                self.remove_at(i);
            } else {
                i = i + 1;
            }
        }
        proof {
            assert forall|k: (Seq<char>, u32)| #[trigger] self@.contains_key(k) implies k.0
                != uri@ by {
                let j = choose|j: int|
                    0 <= j < self.entries@.len() && (self.entries@[j].uri@, self.entries@[j].line)
                        == k;
                assert(self.entries@[j].uri@ != uri@);
            }
            assert(self@ =~= without_document(m0, uri@));
        }
    }
}

/// A result cached for a line is what a lookup gives while the document
/// stays at the version it was computed against; once the version moves
/// on, the lookup gives nothing.
pub proof fn lemma_cache_round_trip(
    m: CacheModel,
    uri: Seq<char>,
    line: u32,
    r: ResponseView,
    v: i32,
    current: i32,
)
    ensures
        cache_lookup(m.insert((uri, line), (v, r)), uri, line, v) == Some(r),
        current != v ==> cache_lookup(m.insert((uri, line), (v, r)), uri, line, current) is None,
{
}

/// After a document's entries are dropped, no lookup for that document finds
/// anything.
pub proof fn lemma_invalidated_lookup(m: CacheModel, uri: Seq<char>, line: u32, current: i32)
    ensures
        cache_lookup(without_document(m, uri), uri, line, current) is None,
{
}

} // verus!
