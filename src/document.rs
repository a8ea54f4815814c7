//! The store of open documents: the latest text, version and language of
//! each, keyed by URI.

use vstd::prelude::*;

verus! {

/// One open document.
pub struct TextDocumentItem {
    pub uri: String,
    pub text: String,
    pub version: i32,
    pub language_id: String,
}

impl TextDocumentItem {
    /// A copy of this document.
    pub fn copy(&self) -> (r: Self)
        ensures
            r == *self,
    {
        TextDocumentItem {
            uri: self.uri.clone(),
            text: self.text.clone(),
            version: self.version,
            language_id: self.language_id.clone(),
        }
    }
}

/// Why a store operation failed.
#[derive(Clone, Copy, Debug, PartialEq, Eq, Structural)]
pub enum StoreError {
    /// No document is open under that URI.
    NotFound,
}

/// The open documents, each under its own URI.
pub struct DocumentStore {
    docs: Vec<TextDocumentItem>,
    model: Ghost<Map<Seq<char>, TextDocumentItem>>,
}

impl View for DocumentStore {
    type V = Map<Seq<char>, TextDocumentItem>;

    closed spec fn view(&self) -> Self::V {
        self.model@
    }
}

impl DocumentStore {
    /// URIs are unique, and the map holds exactly the stored documents.
    pub closed spec fn wf(&self) -> bool {
        &&& forall|i: int, j: int|
            0 <= i < j < self.docs@.len() ==> self.docs@[i].uri@ != self.docs@[j].uri@
        &&& forall|i: int|
            0 <= i < self.docs@.len() ==> {
                &&& self.model@.contains_key(#[trigger] self.docs@[i].uri@)
                &&& self.model@[self.docs@[i].uri@] == self.docs@[i]
            }
        &&& forall|k: Seq<char>|
            #[trigger] self.model@.contains_key(k) ==> exists|i: int|
                0 <= i < self.docs@.len() && self.docs@[i].uri@ == k
    }

    /// A store with no document.
    pub fn new() -> (r: Self)
        ensures
            r.wf(),
            r@ == Map::<Seq<char>, TextDocumentItem>::empty(),
    {
        DocumentStore { docs: Vec::new(), model: Ghost(Map::empty()) }
    }

    /// The place of the document `uri`, if it is open.
    fn find(&self, uri: &String) -> (r: Option<usize>)
        requires
            self.wf(),
        ensures
            match r {
                Some(i) => i < self.docs@.len() && self.docs@[i as int].uri@ == uri@,
                None => !self@.contains_key(uri@),
            },
    {
        let mut i: usize = 0;
        while i < self.docs.len()
            invariant
                i <= self.docs@.len(),
                forall|q: int| 0 <= q < i ==> self.docs@[q].uri@ != uri@,
            decreases self.docs@.len() - i,
        {
            if self.docs[i].uri == *uri {
                return Some(i);
            }
            i = i + 1;
        }
        None
    }

    /// Whether the document `uri` is open.
    pub fn contains(&self, uri: &String) -> (r: bool)
        requires
            self.wf(),
        ensures
            r == self@.contains_key(uri@),
    {
        match self.find(uri) {
            Some(_) => true,
            None => false,
        }
    }

    /// Opens `doc` under its URI, replacing a document open there.
    pub fn open(&mut self, doc: TextDocumentItem)
        requires
            old(self).wf(),
        ensures
            final(self).wf(),
            final(self)@ == old(self)@.insert(doc.uri@, doc),
    {
        let ghost key = doc.uri@;
        let ghost old_docs = self.docs@;
        match self.find(&doc.uri) {
            Some(i) => {
                self.docs.set(i, doc);
                proof {
                    self.model@ = self.model@.insert(key, doc);
                    assert forall|k: Seq<char>| #[trigger]
                        self.model@.contains_key(k) implies exists|j: int|
                        0 <= j < self.docs@.len() && self.docs@[j].uri@ == k by {
                        if k != key {
                            let j = choose|j: int|
                                0 <= j < old_docs.len() && old_docs[j].uri@ == k;
                            assert(self.docs@[j].uri@ == k);
                        } else {
                            assert(self.docs@[i as int].uri@ == k);
                        }
                    }
                }
            },
            None => {
                self.docs.push(doc);
                proof {
                    self.model@ = self.model@.insert(key, doc);
                    assert forall|k: Seq<char>| #[trigger]
                        self.model@.contains_key(k) implies exists|j: int|
                        0 <= j < self.docs@.len() && self.docs@[j].uri@ == k by {
                        if k != key {
                            let j = choose|j: int|
                                0 <= j < old_docs.len() && old_docs[j].uri@ == k;
                            assert(self.docs@[j].uri@ == k);
                        } else {
                            assert(self.docs@[old_docs.len() as int].uri@ == k);
                        }
                    }
                }
            },
        }
    }

    /// Replaces the text and the version of the document `uri`, keeping its
    /// URI and language; fails with `NotFound` if it is not open.
    pub fn apply_full_edit(&mut self, uri: &String, text: String, version: i32) -> (r: Result<
        (),
        StoreError,
    >)
        requires
            old(self).wf(),
        ensures
            final(self).wf(),
            old(self)@.contains_key(uri@) ==> r is Ok && final(self)@ == old(self)@.insert(
                uri@,
                TextDocumentItem {
                    uri: old(self)@[uri@].uri,
                    text,
                    version,
                    language_id: old(self)@[uri@].language_id,
                },
            ),
            !old(self)@.contains_key(uri@) ==> r == Err::<(), StoreError>(StoreError::NotFound)
                && final(self)@ == old(self)@,
    {
        match self.find(uri) {
            None => Err(StoreError::NotFound),
            Some(i) => {
                let old_doc = self.docs[i].copy();
                let doc = TextDocumentItem {
                    uri: old_doc.uri,
                    text,
                    version,
                    language_id: old_doc.language_id,
                };
                self.open(doc);
                Ok(())
            },
        }
    }

    /// A copy of the document `uri`; fails with `NotFound` if it is not open.
    pub fn snapshot(&self, uri: &String) -> (r: Result<TextDocumentItem, StoreError>)
        requires
            self.wf(),
        ensures
            self@.contains_key(uri@) ==> r == Ok::<TextDocumentItem, StoreError>(self@[uri@]),
            !self@.contains_key(uri@) ==> r == Err::<TextDocumentItem, StoreError>(
                StoreError::NotFound,
            ),
    {
        match self.find(uri) {
            None => Err(StoreError::NotFound),
            Some(i) => Ok(self.docs[i].copy()),
        }
    }

    /// The version of the document `uri`, if it is open.
    pub fn version_of(&self, uri: &String) -> (r: Option<i32>)
        requires
            self.wf(),
        ensures
            self@.contains_key(uri@) ==> r == Some(self@[uri@].version),
            !self@.contains_key(uri@) ==> r is None,
    {
        match self.find(uri) {
            None => None,
            Some(i) => Some(self.docs[i].version),
        }
    }

    /// Closes the document `uri`, if it is open.
    pub fn close(&mut self, uri: &String)
        requires
            old(self).wf(),
        ensures
            final(self).wf(),
            final(self)@ == old(self)@.remove(uri@),
    {
        let ghost old_docs = self.docs@;
        match self.find(uri) {
            None => {
                proof {
                    assert(self.model@ =~= self.model@.remove(uri@));
                }
            },
            Some(i) => {
                self.docs.remove(i);
                proof {
                    self.model@ = self.model@.remove(uri@);
                    assert forall|j: int| 0 <= j < self.docs@.len() implies {
                        &&& self.model@.contains_key(#[trigger] self.docs@[j].uri@)
                        &&& self.model@[self.docs@[j].uri@] == self.docs@[j]
                    } by {
                        if j < i {
                            assert(self.docs@[j] == old_docs[j]);
                        } else {
                            assert(self.docs@[j] == old_docs[j + 1]);
                        }
                    }
                    assert forall|k: Seq<char>| #[trigger]
                        self.model@.contains_key(k) implies exists|j: int|
                        0 <= j < self.docs@.len() && self.docs@[j].uri@ == k by {
                        let j = choose|j: int| 0 <= j < old_docs.len() && old_docs[j].uri@ == k;
                        if j < i {
                            assert(self.docs@[j].uri@ == k);
                        } else {
                            assert(self.docs@[j - 1].uri@ == k);
                        }
                    }
                }
            },
        }
    }
}

} // verus!
