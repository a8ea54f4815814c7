//! The completion service: open documents, the completion cache and the
//! dispatch guard, and the decisions taken when a completion is asked for
//! and when its fetch is over. The fetch itself runs between the two.

use crate::cache::{cache_lookup, response_view, without_document, CacheModel, CopilotCache};
use crate::completion::{
    failed,
    is_empty_with_reason,
    response_wf,
    superseded,
    CopilotCompletionResponse,
};
use crate::dispatch::{latest_ticket, DispatchGuard, GuardModel};
use crate::document::{DocumentStore, StoreError, TextDocumentItem};
use crate::fetch::FetchError;
use crate::text::{extract_prompt, is_offset_of, line_start_of, position_in_bounds, Position};
use vstd::prelude::*;
use vstd::string::StringExecFns;

verus! {

/// What a completion is computed from: the document, the cursor, and the
/// text around it.
pub struct PromptContext {
    pub uri: String,
    pub position: Position,
    pub language: String,
    pub version: i32,
    /// All text before the cursor.
    pub prefix: String,
    /// All text from the cursor on.
    pub suffix: String,
    /// The cursor line's text before the cursor.
    pub line_before: String,
}

/// Why no prompt could be taken.
#[derive(Clone, Copy, Debug, PartialEq, Eq, Structural)]
pub enum DocError {
    /// No document is open under that URI.
    NotFound,
    /// The position lies outside the document.
    InvalidPosition,
}

/// `p` is the prompt taken from `doc` at `pos`.
pub open spec fn is_prompt_for(p: PromptContext, doc: TextDocumentItem, pos: Position) -> bool {
    exists|off: int|
        {
            &&& is_offset_of(doc.text@, pos, off)
            &&& p.prefix@ == doc.text@.subrange(0, off)
            &&& p.suffix@ == doc.text@.subrange(off, doc.text@.len() as int)
            &&& p.line_before@ == doc.text@.subrange(line_start_of(doc.text@, pos.line as nat), off)
            &&& p.uri@ == doc.uri@
            &&& p.position == pos
            &&& p.language@ == doc.language_id@
            &&& p.version == doc.version
        }
}

/// How a request for completions begins.
pub enum CompletionStart {
    /// A result cached for this line and version: nothing to fetch.
    Cached(CopilotCompletionResponse),
    /// The position lies outside the document: an empty result.
    Invalid(CopilotCompletionResponse),
    /// Fetch completions for this prompt, under this ticket.
    Dispatch(u64, PromptContext),
}

/// What finishing a fetch for `uri` under `ticket` does to the cache,
/// `cache0` before and `cache1` after, and what it returns, `r`: a stale
/// ticket gives `Superseded` and leaves the cache alone; a result without a
/// reason is returned and cached under `line` and `version`; any other result
/// or failure is returned as a reason and not cached.
pub open spec fn finish_post(
    guard: GuardModel,
    uri: Seq<char>,
    line: u32,
    version: i32,
    ticket: u64,
    outcome: Result<CopilotCompletionResponse, FetchError>,
    cache0: CacheModel,
    cache1: CacheModel,
    r: CopilotCompletionResponse,
) -> bool {
    if ticket != latest_ticket(guard, uri) {
        &&& is_empty_with_reason(r, "Superseded"@)
        &&& cache1 == cache0
    } else {
        match outcome {
            Ok(res) => {
                &&& response_view(r) == response_view(res)
                &&& if res.cancellation_reason is None {
                    cache1 == cache0.insert((uri, line), (version, response_view(res)))
                } else {
                    cache1 == cache0
                }
            },
            Err(FetchError::Timeout(_)) => {
                &&& is_empty_with_reason(r, "Timeout"@)
                &&& cache1 == cache0
            },
            Err(FetchError::Upstream(m)) => {
                &&& is_empty_with_reason(r, m@)
                &&& cache1 == cache0
            },
        }
    }
}

/// The documents, the cache and the guard of the completion service.
pub struct Backend {
    pub documents: DocumentStore,
    pub cache: CopilotCache,
    pub runner: DispatchGuard,
}

impl Backend {
    pub open spec fn wf(&self) -> bool {
        &&& self.documents.wf()
        &&& self.cache.wf()
        &&& self.runner.wf()
    }

    /// A service with no document, nothing cached and no ticket issued.
    pub fn new() -> (r: Self)
        ensures
            r.wf(),
            r.documents@ == Map::<Seq<char>, TextDocumentItem>::empty(),
            r.cache@ == CacheModel::empty(),
            r.runner@ == GuardModel::empty(),
    {
        Backend {
            documents: DocumentStore::new(),
            cache: CopilotCache::new(),
            runner: DispatchGuard::new(),
        }
    }

    /// Opens a document, replacing one open under the same URI, and drops
    /// what was cached for it.
    pub fn did_open(&mut self, doc: TextDocumentItem)
        requires
            old(self).wf(),
        ensures
            final(self).wf(),
            final(self).documents@ == old(self).documents@.insert(doc.uri@, doc),
            final(self).cache@ == without_document(old(self).cache@, doc.uri@),
            final(self).runner@ == old(self).runner@,
    {
        self.cache.invalidate_document(&doc.uri);
        self.documents.open(doc);
    }

    /// Replaces the text and version of document `uri` and drops what was
    /// cached for it; fails with `NotFound`, changing nothing, if it is not
    /// open.
    pub fn did_change(&mut self, uri: &String, text: String, version: i32) -> (r: Result<
        (),
        StoreError,
    >)
        requires
            old(self).wf(),
        ensures
            final(self).wf(),
            old(self).documents@.contains_key(uri@) ==> {
                &&& r is Ok
                &&& final(self).documents@ == old(self).documents@.insert(
                    uri@,
                    TextDocumentItem {
                        uri: old(self).documents@[uri@].uri,
                        text,
                        version,
                        language_id: old(self).documents@[uri@].language_id,
                    },
                )
                &&& final(self).cache@ == without_document(old(self).cache@, uri@)
            },
            !old(self).documents@.contains_key(uri@) ==> {
                &&& r == Err::<(), StoreError>(StoreError::NotFound)
                &&& final(self).documents@ == old(self).documents@
                &&& final(self).cache@ == old(self).cache@
            },
            final(self).runner@ == old(self).runner@,
    {
        let r = self.documents.apply_full_edit(uri, text, version);
        match r {
            Ok(()) => {
                self.cache.invalidate_document(uri);
                Ok(())
            },
            Err(e) => Err(e),
        }
    }

    /// Closes document `uri` and drops what was cached for it.
    pub fn did_close(&mut self, uri: &String)
        requires
            old(self).wf(),
        ensures
            final(self).wf(),
            final(self).documents@ == old(self).documents@.remove(uri@),
            final(self).cache@ == without_document(old(self).cache@, uri@),
            final(self).runner@ == old(self).runner@,
    {
        self.documents.close(uri);
        self.cache.invalidate_document(uri);
    }

    /// The prompt at `pos` in document `uri`, from a copy of the document.
    pub fn get_doc_params(&self, uri: &String, pos: Position) -> (r: Result<
        PromptContext,
        DocError,
    >)
        requires
            self.wf(),
        ensures
            !self.documents@.contains_key(uri@) ==> r == Err::<PromptContext, DocError>(
                DocError::NotFound,
            ),
            self.documents@.contains_key(uri@) ==> {
                let doc = self.documents@[uri@];
                &&& !position_in_bounds(doc.text@, pos) ==> r == Err::<PromptContext, DocError>(
                    DocError::InvalidPosition,
                )
                &&& position_in_bounds(doc.text@, pos) ==> r is Ok && is_prompt_for(
                    r->Ok_0,
                    doc,
                    pos,
                )
            },
    {
        match self.documents.snapshot(uri) {
            Err(_) => Err(DocError::NotFound),
            Ok(doc) => match extract_prompt(doc.text.as_str(), pos) {
                Err(_) => Err(DocError::InvalidPosition),
                Ok(parts) => {
                    let p = PromptContext {
                        uri: doc.uri,
                        position: pos,
                        language: doc.language_id,
                        version: doc.version,
                        prefix: parts.prefix,
                        suffix: parts.suffix,
                        line_before: parts.line_prefix,
                    };
                    assert(is_offset_of(doc.text@, pos, parts.offset as int));
                    Ok(p)
                },
            },
        }
    }
    /// The last ticket issued for document `uri`.
    pub fn latest_ticket(&self, uri: &String) -> (r: u64)
        requires
            self.wf(),
        ensures
            r == latest_ticket(self.runner@, uri@),
    {
        self.runner.latest(uri)
    }

    /// Whether `ticket` is still the last ticket issued for document `uri`.
    pub fn is_current(&self, uri: &String, ticket: u64) -> (r: bool)
        requires
            self.wf(),
        ensures
            r == (ticket == latest_ticket(self.runner@, uri@)),
    {
        self.runner.is_current(uri, ticket)
    }

    /// Begins a request for completions at `pos` in document `uri`: fails
    /// with `NotFound` if the document is not open; gives an empty
    /// `InvalidPosition` result outside the document; gives the cached result
    /// for the cursor's line while the document is at the version it was
    /// computed against; otherwise issues the next ticket for the document,
    /// to fetch under.
    pub fn begin_completion(&mut self, uri: &String, pos: Position) -> (r: Result<
        CompletionStart,
        DocError,
    >)
        requires
            old(self).wf(),
            latest_ticket(old(self).runner@, uri@) < u64::MAX,
        ensures
            final(self).wf(),
            final(self).documents@ == old(self).documents@,
            final(self).cache@ == old(self).cache@,
            !old(self).documents@.contains_key(uri@) ==> {
                &&& r == Err::<CompletionStart, DocError>(DocError::NotFound)
                &&& final(self).runner@ == old(self).runner@
            },
            old(self).documents@.contains_key(uri@) ==> {
                let doc = old(self).documents@[uri@];
                let hit = cache_lookup(old(self).cache@, uri@, pos.line, doc.version);
                &&& !position_in_bounds(doc.text@, pos) ==> {
                    &&& r matches Ok(CompletionStart::Invalid(res))
                    &&& is_empty_with_reason(r->Ok_0->Invalid_0, "InvalidPosition"@)
                    &&& final(self).runner@ == old(self).runner@
                }
                &&& position_in_bounds(doc.text@, pos) && hit is Some ==> {
                    &&& r matches Ok(CompletionStart::Cached(res))
                    &&& Some(response_view(r->Ok_0->Cached_0)) == hit
                    &&& final(self).runner@ == old(self).runner@
                }
                &&& position_in_bounds(doc.text@, pos) && hit is None ==> {
                    &&& r matches Ok(CompletionStart::Dispatch(ticket, p))
                    &&& r->Ok_0->Dispatch_0 == latest_ticket(old(self).runner@, uri@) + 1
                    &&& final(self).runner@ == old(self).runner@.insert(
                        uri@,
                        r->Ok_0->Dispatch_0,
                    )
                    &&& is_prompt_for(r->Ok_0->Dispatch_1, doc, pos)
                }
            },
    {
        match self.get_doc_params(uri, pos) {
            Err(DocError::NotFound) => Err(DocError::NotFound),
            Err(DocError::InvalidPosition) => Ok(
                CompletionStart::Invalid(crate::completion::invalid_position()),
            ),
            Ok(p) => {
                match self.cache.get_cached_result(uri, pos.line, p.version) {
                    Some(res) => Ok(CompletionStart::Cached(res)),
                    None => {
                        let ticket = self.runner.issue(uri);
                        Ok(CompletionStart::Dispatch(ticket, p))
                    },
                }
            },
        }
    }

    /// Ends a request for completions of document `uri`, fetched under
    /// `ticket` for `line` at `version`, whose fetch came to `outcome`. Only
    /// a request whose ticket is still the last one may return its result or
    /// write to the cache.
    pub fn finish_completion(
        &mut self,
        uri: &String,
        line: u32,
        version: i32,
        ticket: u64,
        outcome: Result<CopilotCompletionResponse, FetchError>,
    ) -> (r: CopilotCompletionResponse)
        requires
            old(self).wf(),
        ensures
            final(self).wf(),
            final(self).documents@ == old(self).documents@,
            final(self).runner@ == old(self).runner@,
            finish_post(
                old(self).runner@,
                uri@,
                line,
                version,
                ticket,
                outcome,
                old(self).cache@,
                final(self).cache@,
                r,
            ),
    {
        if !self.runner.is_current(uri, ticket) {
            return superseded();
        }
        match outcome {
            Ok(res) => {
                if res.cancellation_reason.is_none() {
                    self.cache.set_cached_result(uri, line, version, &res);
                }
                res
            },
            Err(FetchError::Timeout(_)) => failed(String::from_str("Timeout")),
            Err(FetchError::Upstream(m)) => failed(m),
        }
    }
}


/// Once a second request for a document has been issued its ticket, the
/// first request's result is superseded and never reaches the cache.
pub proof fn lemma_stale_request_not_cached(
    g0: GuardModel,
    uri: Seq<char>,
    t1: u64,
    g1: GuardModel,
    t2: u64,
    g2: GuardModel,
    line: u32,
    version: i32,
    outcome: Result<CopilotCompletionResponse, FetchError>,
    cache0: CacheModel,
    cache1: CacheModel,
    r: CopilotCompletionResponse,
)
    requires
        t1 == latest_ticket(g0, uri) + 1,
        g1 == g0.insert(uri, t1),
        t2 == latest_ticket(g1, uri) + 1,
        g2 == g1.insert(uri, t2),
        finish_post(g2, uri, line, version, t1, outcome, cache0, cache1, r),
    ensures
        cache1 == cache0,
        is_empty_with_reason(r, "Superseded"@),
{
    crate::dispatch::lemma_dispatch_monotonic(g0, uri, t1, g1, t2, g2);
}

} // verus!
