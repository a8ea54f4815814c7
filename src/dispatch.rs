//! The dispatch guard: a per-document sequence number that lets only the
//! most recently issued request for a document go on.

use vstd::prelude::*;

verus! {

/// The last ticket issued for each document; a document without an entry has
/// had none, which counts as ticket 0.
pub type GuardModel = Map<Seq<char>, u64>;

pub open spec fn latest_ticket(m: GuardModel, uri: Seq<char>) -> u64 {
    if m.contains_key(uri) {
        m[uri]
    } else {
        0
    }
}

struct Counter {
    uri: String,
    latest: u64,
}

/// The sequence numbers of all documents.
pub struct DispatchGuard {
    counters: Vec<Counter>,
    model: Ghost<GuardModel>,
}

impl View for DispatchGuard {
    type V = GuardModel;

    closed spec fn view(&self) -> Self::V {
        self.model@
    }
}

impl DispatchGuard {
    /// URIs are unique, and the map holds exactly the stored counters.
    pub closed spec fn wf(&self) -> bool {
        &&& forall|i: int, j: int|
            0 <= i < j < self.counters@.len() ==> self.counters@[i].uri@
                != self.counters@[j].uri@
        &&& forall|i: int|
            0 <= i < self.counters@.len() ==> {
                &&& self.model@.contains_key(#[trigger] self.counters@[i].uri@)
                &&& self.model@[self.counters@[i].uri@] == self.counters@[i].latest
            }
        &&& forall|k: Seq<char>|
            #[trigger] self.model@.contains_key(k) ==> exists|i: int|
                0 <= i < self.counters@.len() && self.counters@[i].uri@ == k
    }

    /// A guard that has issued no ticket.
    pub fn new() -> (r: Self)
        ensures
            r.wf(),
            r@ == GuardModel::empty(),
    {
        DispatchGuard { counters: Vec::new(), model: Ghost(Map::empty()) }
    }

    fn find(&self, uri: &String) -> (r: Option<usize>)
        requires
            self.wf(),
        ensures
            match r {
                Some(i) => i < self.counters@.len() && self.counters@[i as int].uri@ == uri@,
                None => !self@.contains_key(uri@),
            },
    {
        let mut i: usize = 0;
        while i < self.counters.len()
            invariant
                i <= self.counters@.len(),
                forall|q: int| 0 <= q < i ==> self.counters@[q].uri@ != uri@,
            decreases self.counters@.len() - i,
        {
            if self.counters[i].uri == *uri {
                return Some(i);
            }
            i = i + 1;
        }
        None
    }

    /// The last ticket issued for `uri`, 0 if none was.
    pub fn latest(&self, uri: &String) -> (r: u64)
        requires
            self.wf(),
        ensures
            r == latest_ticket(self@, uri@),
    {
        match self.find(uri) {
            Some(i) => self.counters[i].latest,
            None => 0,
        }
    }

    /// Issues the next ticket for `uri`: one more than the last.
    pub fn issue(&mut self, uri: &String) -> (ticket: u64)
        requires
            old(self).wf(),
            latest_ticket(old(self)@, uri@) < u64::MAX,
        ensures
            final(self).wf(),
            ticket == latest_ticket(old(self)@, uri@) + 1,
            final(self)@ == old(self)@.insert(uri@, ticket),
    {
        let ghost old_counters = self.counters@;
        match self.find(uri) {
            Some(i) => {
                let ticket = self.counters[i].latest + 1;
                self.counters.set(i, Counter { uri: uri.clone(), latest: ticket });
                proof {
                    self.model@ = self.model@.insert(uri@, ticket);
                    assert forall|k: Seq<char>| #[trigger]
                        self.model@.contains_key(k) implies exists|j: int|
                        0 <= j < self.counters@.len() && self.counters@[j].uri@ == k by {
                        if k != uri@ {
                            let j = choose|j: int|
                                0 <= j < old_counters.len() && old_counters[j].uri@ == k;
                            assert(self.counters@[j].uri@ == k);
                        } else {
                            assert(self.counters@[i as int].uri@ == k);
                        }
                    }
                }
                ticket
            },
            None => {
                self.counters.push(Counter { uri: uri.clone(), latest: 1 });
                proof {
                    self.model@ = self.model@.insert(uri@, 1);
                    assert forall|k: Seq<char>| #[trigger]
                        self.model@.contains_key(k) implies exists|j: int|
                        0 <= j < self.counters@.len() && self.counters@[j].uri@ == k by {
                        if k != uri@ {
                            let j = choose|j: int|
                                0 <= j < old_counters.len() && old_counters[j].uri@ == k;
                            assert(self.counters@[j].uri@ == k);
                        } else {
                            assert(self.counters@[old_counters.len() as int].uri@ == k);
                        }
                    }
                }
                1
            },
        }
    }

    /// Whether `ticket` is still the last ticket issued for `uri`.
    pub fn is_current(&self, uri: &String, ticket: u64) -> (r: bool)
        requires
            self.wf(),
        ensures
            r == (ticket == latest_ticket(self@, uri@)),
    {
        self.latest(uri) == ticket
    }
}

/// Once a second ticket is issued for a document, the first is no longer
/// current, and the second is.
pub proof fn lemma_dispatch_monotonic(
    m0: GuardModel,
    uri: Seq<char>,
    t1: u64,
    m1: GuardModel,
    t2: u64,
    m2: GuardModel,
)
    requires
        t1 == latest_ticket(m0, uri) + 1,
        m1 == m0.insert(uri, t1),
        t2 == latest_ticket(m1, uri) + 1,
        m2 == m1.insert(uri, t2),
    ensures
        t1 != latest_ticket(m2, uri),
        t2 == latest_ticket(m2, uri),
        t1 < t2,
{
}

} // verus!
