//! Streaming code-completion pipeline for an editor integration: document
//! tracking, prompt extraction, the completion cache, the dispatch guard,
//! cancellation and the assembly of candidates from an event stream.

pub mod text;
pub mod completion;
pub mod stream;
pub mod timeout;
pub mod fetch;
pub mod cancellable;
pub mod document;
pub mod cache;
pub mod dispatch;
pub mod request;
pub mod backend;
