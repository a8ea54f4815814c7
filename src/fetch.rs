//! The decisions of a streaming fetch, one stream boundary at a time. The
//! caller reads the stream and hands each outcome to `fetch_step`, with the
//! state of the request's cancellation token and the time spent so far.

use crate::completion::{is_empty_with_reason, on_cancel, CopilotCompletionResponse};
use crate::stream::{apply_choices, is_final_result, CopilotResponse, StreamAssembler};
use crate::timeout::{Expired, Timeout};
use vstd::prelude::*;

verus! {

/// Why a fetch failed.
pub enum FetchError {
    /// The stream ran past its deadline.
    Timeout(Expired),
    /// The stream could not be read.
    Upstream(String),
}

/// What happened at a stream boundary.
pub enum StreamInput {
    /// An event arrived.
    Event(CopilotResponse),
    /// No event arrived while waiting.
    Idle,
    /// The stream ended.
    EndOfStream,
    /// Reading the stream failed.
    ReadError(String),
}

/// What to do after a stream boundary.
pub enum FetchStep {
    /// Keep reading, with this state.
    Continue(Timeout<StreamAssembler>),
    /// Stop reading: the fetch is over.
    Finished(Result<CopilotCompletionResponse, FetchError>),
}

/// Decides what follows a stream boundary. A cancelled request stops at once
/// with an empty result whose reason is `RequestCancelled`; past the deadline
/// the fetch fails with `Timeout`; otherwise the input is applied: the
/// closing sentinel or the end of the stream gives the gathered result, a
/// read failure fails the fetch, an unreadable payload is recorded and the
/// stream goes on.
pub fn fetch_step(
    session: Timeout<StreamAssembler>,
    input: StreamInput,
    canceled: bool,
    elapsed_ms: u64,
) -> (r: FetchStep)
    requires
        session.inner.wf(),
    ensures
        canceled ==> match r {
            FetchStep::Finished(Ok(res)) => is_empty_with_reason(res, "RequestCancelled"@),
            _ => false,
        },
        !canceled && elapsed_ms >= session.timeout_ms ==> r == FetchStep::Finished(
            Err(FetchError::Timeout(Expired)),
        ),
        !canceled && elapsed_ms < session.timeout_ms ==> match input {
            StreamInput::Event(CopilotResponse::Done) | StreamInput::EndOfStream => match r {
                FetchStep::Finished(Ok(res)) => is_final_result(session.inner, res),
                _ => false,
            },
            StreamInput::ReadError(m) => r == FetchStep::Finished(Err(FetchError::Upstream(m))),
            StreamInput::Idle => r == FetchStep::Continue(session),
            StreamInput::Event(CopilotResponse::Error(m)) => match r {
                FetchStep::Continue(s) => {
                    &&& s.timeout_ms == session.timeout_ms
                    &&& s.inner.wf()
                    &&& s.inner.error == Some(m)
                    &&& s.inner.open_view() == session.inner.open_view()
                    &&& s.inner.sealed_view() == session.inner.sealed_view()
                    &&& s.inner.line_prefix == session.inner.line_prefix
                    &&& s.inner.position == session.inner.position
                },
                _ => false,
            },
            StreamInput::Event(CopilotResponse::Answer(a)) => match r {
                FetchStep::Continue(s) => {
                    &&& s.timeout_ms == session.timeout_ms
                    &&& s.inner.wf()
                    &&& s.inner.error == session.inner.error
                    &&& (s.inner.open_view(), s.inner.sealed_view()) == apply_choices(
                        session.inner.open_view(),
                        session.inner.sealed_view(),
                        a.choices@,
                    )
                    &&& s.inner.line_prefix == session.inner.line_prefix
                    &&& s.inner.position == session.inner.position
                },
                _ => false,
            },
        },
{
    if canceled {
        return FetchStep::Finished(Ok(on_cancel()));
    }
    if session.has_expired(elapsed_ms) {
        return FetchStep::Finished(Err(FetchError::Timeout(Expired)));
    }
    match input {
        StreamInput::Idle => FetchStep::Continue(session),
        StreamInput::ReadError(m) => FetchStep::Finished(Err(FetchError::Upstream(m))),
        StreamInput::EndOfStream => FetchStep::Finished(Ok(session.inner.finish())),
        StreamInput::Event(ev) => match ev {
            CopilotResponse::Done => FetchStep::Finished(Ok(session.inner.finish())),
            CopilotResponse::Error(m) => {
                let Timeout { inner, timeout_ms } = session;
                let mut inner = inner;
                inner.record_error(m);
                FetchStep::Continue(Timeout { inner, timeout_ms })
            },
            CopilotResponse::Answer(a) => {
                let Timeout { inner, timeout_ms } = session;
                let mut inner = inner;
                inner.apply_answer(&a.choices);
                FetchStep::Continue(Timeout { inner, timeout_ms })
            },
        },
    }
}

} // verus!
