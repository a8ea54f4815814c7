use copilot_rs::backend::{Backend, CompletionStart, DocError};
use copilot_rs::cache::CopilotCache;
use copilot_rs::completion::{on_cancel, CopilotCompletionResponse};
use copilot_rs::dispatch::DispatchGuard;
use copilot_rs::document::{DocumentStore, StoreError, TextDocumentItem};
use copilot_rs::fetch::{fetch_step, FetchError, FetchStep, StreamInput};
use copilot_rs::request::CopilotRequestBuilder;
use copilot_rs::stream::{Choices, CopilotAnswer, CopilotResponse, StreamAssembler};
use copilot_rs::text::Position;
use copilot_rs::timeout::{Expired, Timeout};

fn doc(uri: &str, text: &str, version: i32) -> TextDocumentItem {
    TextDocumentItem {
        uri: uri.to_string(),
        text: text.to_string(),
        version,
        language_id: "javascript".to_string(),
    }
}

fn answer(text: &str, index: u32, finish: Option<&str>) -> CopilotResponse {
    CopilotResponse::Answer(CopilotAnswer {
        id: None,
        model: "cushman-ml".to_string(),
        created: 0,
        choices: vec![Choices {
            text: text.to_string(),
            index: Some(index),
            finish_reason: finish.map(|f| f.to_string()),
            logprobs: None,
        }],
    })
}

fn start(b: &mut Backend, uri: &str, line: u32, character: u32) -> CompletionStart {
    b.begin_completion(&uri.to_string(), Position { line, character }).ok().unwrap()
}

/// Feeds `events` to a fresh fetch; `cancel_after` events in, the request is
/// cancelled.
fn fetch(
    line_before: &str,
    position: Position,
    events: Vec<CopilotResponse>,
    cancel_after: Option<usize>,
) -> Result<CopilotCompletionResponse, FetchError> {
    let mut s = Timeout::new(StreamAssembler::new(line_before.to_string(), position), 1000);
    for (i, ev) in events.into_iter().enumerate() {
        let canceled = cancel_after.map_or(false, |n| i >= n);
        match fetch_step(s, StreamInput::Event(ev), canceled, 5) {
            FetchStep::Continue(n) => s = n,
            FetchStep::Finished(r) => return r,
        }
    }
    match fetch_step(s, StreamInput::EndOfStream, false, 5) {
        FetchStep::Finished(r) => r,
        FetchStep::Continue(_) => panic!("the end of the stream must finish the fetch"),
    }
}

const SOURCE: &str = "function f() {\n  \n}";

#[test]
fn scenario_open_fetch_and_cache() {
    let mut b = Backend::new();
    b.did_open(doc("file:///a.js", SOURCE, 1));
    let (ticket, p) = match start(&mut b, "file:///a.js", 1, 2) {
        CompletionStart::Dispatch(t, p) => (t, p),
        _ => panic!("a first request must be dispatched"),
    };
    assert_eq!(ticket, 1);
    assert_eq!(p.prefix, "function f() {\n  ");
    assert_eq!(p.suffix, "\n}");
    assert_eq!(p.line_before, "  ");
    assert_eq!(p.language, "javascript");
    let outcome = fetch(
        &p.line_before,
        p.position,
        vec![answer("return", 0, None), answer(" 1;", 0, Some("stop")), CopilotResponse::Done],
        None,
    );
    let r = b.finish_completion(&p.uri, p.position.line, p.version, ticket, outcome);
    assert!(r.cancellation_reason.is_none());
    assert_eq!(r.completions.len(), 1);
    assert_eq!(r.completions[0].display_text, "return 1;");
    assert_eq!(r.completions[0].text, "  return 1;");
    match start(&mut b, "file:///a.js", 1, 2) {
        CompletionStart::Cached(c) => assert_eq!(c.completions[0].display_text, "return 1;"),
        _ => panic!("the second request must be served from the cache"),
    }
    // An edit drops the cached line.
    b.did_change(&"file:///a.js".to_string(), SOURCE.to_string(), 2).ok().unwrap();
    assert!(matches!(start(&mut b, "file:///a.js", 1, 2), CompletionStart::Dispatch(2, _)));
}

#[test]
fn scenario_newer_request_supersedes() {
    let mut b = Backend::new();
    b.did_open(doc("file:///a.js", SOURCE, 1));
    let (t1, prompt_a) = match start(&mut b, "file:///a.js", 1, 2) {
        CompletionStart::Dispatch(t, p) => (t, p),
        _ => panic!("a first request must be dispatched"),
    };
    let (t2, prompt_b) = match start(&mut b, "file:///a.js", 1, 2) {
        CompletionStart::Dispatch(t, p) => (t, p),
        _ => panic!("nothing is cached yet"),
    };
    assert!(!b.is_current(&prompt_a.uri, t1));
    assert!(b.is_current(&prompt_b.uri, t2));
    let first = fetch("  ", prompt_a.position, vec![answer("old", 0, Some("stop")), CopilotResponse::Done], None);
    let r1 = b.finish_completion(&prompt_a.uri, 1, prompt_a.version, t1, first);
    assert!(r1.completions.is_empty());
    assert_eq!(r1.cancellation_reason.as_deref(), Some("Superseded"));
    assert!(b.cache.get_cached_result(&prompt_a.uri, 1, 1).is_none());
    let second = fetch("  ", prompt_b.position, vec![answer("new", 0, Some("stop")), CopilotResponse::Done], None);
    let r2 = b.finish_completion(&prompt_b.uri, 1, prompt_b.version, t2, second);
    assert_eq!(r2.completions[0].display_text, "new");
    let cached = b.cache.get_cached_result(&prompt_b.uri, 1, 1).unwrap();
    assert_eq!(cached.completions[0].display_text, "new");
}

#[test]
fn scenario_cancel_mid_stream() {
    let mut b = Backend::new();
    b.did_open(doc("file:///a.js", SOURCE, 1));
    let (t, p) = match start(&mut b, "file:///a.js", 1, 2) {
        CompletionStart::Dispatch(t, p) => (t, p),
        _ => panic!("a first request must be dispatched"),
    };
    let outcome = fetch(
        "  ",
        p.position,
        vec![answer("ret", 0, None), answer("urn", 0, None), CopilotResponse::Done],
        Some(1),
    );
    let r = b.finish_completion(&p.uri, 1, p.version, t, outcome);
    assert!(r.completions.is_empty());
    assert_eq!(r.cancellation_reason.as_deref(), Some("RequestCancelled"));
    assert!(b.cache.get_cached_result(&p.uri, 1, 1).is_none());
    let r = b.finish_completion(&p.uri, 1, p.version, t, Ok(on_cancel()));
    assert_eq!(r.cancellation_reason.as_deref(), Some("RequestCancelled"));
    assert!(b.cache.get_cached_result(&p.uri, 1, 1).is_none());
}

#[test]
fn scenario_timeout_surfaces_an_error() {
    let mut b = Backend::new();
    b.did_open(doc("file:///a.js", SOURCE, 1));
    let (t, p) = match start(&mut b, "file:///a.js", 1, 2) {
        CompletionStart::Dispatch(t, p) => (t, p),
        _ => panic!("a first request must be dispatched"),
    };
    let s = Timeout::new(StreamAssembler::new("  ".to_string(), p.position), 800);
    let outcome = match fetch_step(s, StreamInput::Idle, false, 801) {
        FetchStep::Finished(r) => r,
        FetchStep::Continue(_) => panic!("a stalled stream must time out"),
    };
    assert!(matches!(outcome, Err(FetchError::Timeout(Expired))));
    let r = b.finish_completion(&p.uri, 1, p.version, t, outcome);
    assert!(r.completions.is_empty());
    assert_eq!(r.cancellation_reason.as_deref(), Some("Timeout"));
    assert!(b.cache.get_cached_result(&p.uri, 1, 1).is_none());
    let r = b.finish_completion(&p.uri, 1, p.version, t, Err(FetchError::Upstream("bad gateway".to_string())));
    assert_eq!(r.cancellation_reason.as_deref(), Some("bad gateway"));
}

#[test]
fn unknown_document_is_not_found() {
    let mut b = Backend::new();
    assert!(matches!(
        b.begin_completion(&"file:///none".to_string(), Position { line: 0, character: 0 }),
        Err(DocError::NotFound)
    ));
    assert!(matches!(
        b.did_change(&"file:///none".to_string(), "x".to_string(), 2),
        Err(StoreError::NotFound)
    ));
    assert!(matches!(
        b.get_doc_params(&"file:///none".to_string(), Position { line: 0, character: 0 }),
        Err(DocError::NotFound)
    ));
}

#[test]
fn position_outside_document_gives_empty_result() {
    let mut b = Backend::new();
    b.did_open(doc("file:///a.js", SOURCE, 1));
    match start(&mut b, "file:///a.js", 7, 0) {
        CompletionStart::Invalid(r) => {
            assert!(r.completions.is_empty());
            assert_eq!(r.cancellation_reason.as_deref(), Some("InvalidPosition"));
        },
        _ => panic!("a position past the end is invalid"),
    }
    assert_eq!(b.latest_ticket(&"file:///a.js".to_string()), 0);
}

#[test]
fn closing_drops_document_and_cache() {
    let mut b = Backend::new();
    b.did_open(doc("file:///a.js", SOURCE, 1));
    let (t, p) = match start(&mut b, "file:///a.js", 0, 0) {
        CompletionStart::Dispatch(t, p) => (t, p),
        _ => panic!("a first request must be dispatched"),
    };
    let outcome = fetch("", p.position, vec![answer("// hi", 0, Some("stop"))], None);
    b.finish_completion(&p.uri, 0, 1, t, outcome);
    assert!(b.cache.get_cached_result(&p.uri, 0, 1).is_some());
    b.did_close(&p.uri);
    assert!(b.cache.get_cached_result(&p.uri, 0, 1).is_none());
    assert!(!b.documents.contains(&p.uri));
}

#[test]
fn store_replaces_and_edits() {
    let mut s = DocumentStore::new();
    s.open(doc("u", "one", 1));
    s.open(doc("v", "two", 1));
    s.open(doc("u", "three", 5));
    let d = s.snapshot(&"u".to_string()).ok().unwrap();
    assert_eq!(d.text, "three");
    assert_eq!(d.version, 5);
    s.apply_full_edit(&"v".to_string(), "TWO".to_string(), 2).ok().unwrap();
    let d = s.snapshot(&"v".to_string()).ok().unwrap();
    assert_eq!(d.text, "TWO");
    assert_eq!(d.version, 2);
    assert_eq!(d.language_id, "javascript");
    assert_eq!(s.version_of(&"v".to_string()), Some(2));
    s.close(&"u".to_string());
    assert!(matches!(s.snapshot(&"u".to_string()), Err(StoreError::NotFound)));
    assert!(s.contains(&"v".to_string()));
}

#[test]
fn cache_round_trip_and_version_change() {
    let mut c = CopilotCache::new();
    let r = CopilotCompletionResponse::from_str_vec(vec!["x".to_string()], "".to_string(), Position { line: 3, character: 0 });
    c.set_cached_result(&"u".to_string(), 3, 7, &r);
    let got = c.get_cached_result(&"u".to_string(), 3, 7).unwrap();
    assert_eq!(got.completions[0].display_text, "x");
    assert!(c.get_cached_result(&"u".to_string(), 3, 8).is_none());
    assert!(c.get_cached_result(&"u".to_string(), 4, 7).is_none());
    c.set_cached_result(&"w".to_string(), 3, 1, &r);
    c.invalidate_document(&"u".to_string());
    assert!(c.get_cached_result(&"u".to_string(), 3, 7).is_none());
    assert!(c.get_cached_result(&"w".to_string(), 3, 1).is_some());
}

#[test]
fn guard_keeps_only_the_latest_ticket() {
    let mut g = DispatchGuard::new();
    let a = "a".to_string();
    let b = "b".to_string();
    let t1 = g.issue(&a);
    assert!(g.is_current(&a, t1));
    let t2 = g.issue(&a);
    assert!(t1 < t2);
    assert!(!g.is_current(&a, t1));
    assert!(g.is_current(&a, t2));
    let u1 = g.issue(&b);
    assert_eq!(u1, 1);
    assert!(g.is_current(&a, t2));
    assert_eq!(g.latest(&a), 2);
}

#[test]
fn request_carries_credentials_and_prompt() {
    let b = CopilotRequestBuilder::new(
        "SECRET-REDACTED".to_string(),
        "machine".to_string(),
        "Neovim/0.10.0".to_string(),
        "copilot.lua/1.10.1".to_string(),
    );
    let req = b.build_request(&"rust".to_string(), &"fn m\u{e9}".to_string(), &"}".to_string());
    assert_eq!(req.url, "https://copilot-proxy.githubusercontent.com/v1/engines/copilot-codex/completions");
    let names: Vec<&str> = req.headers.iter().map(|h| h.name.as_str()).collect();
    assert_eq!(
        names,
        vec![
            "Authorization",
            "Openai-Organization",
            "VScode-MachineId",
            "Editor-Version",
            "Editor-Plugin-Version",
            "OpenAI-Intent",
            "X-Request-Id",
            "VScode-SessionId",
        ]
    );
    assert_eq!(req.headers[0].value, "Bearer SECRET-REDACTED");
    assert_eq!(req.headers[2].value, "machine");
    assert_eq!(req.headers[3].value, "Neovim/0.10.0");
    assert_eq!(req.headers[4].value, "copilot.lua/1.10.1");
    let rid = &req.headers[6].value;
    assert_eq!(rid.len(), 36);
    assert_eq!(rid.matches('-').count(), 4);
    let sid = &req.headers[7].value;
    assert!(sid.len() > 36);
    assert!(sid[36..].chars().all(|c| c.is_ascii_digit()));
    let other = b.build_request_headers();
    assert_ne!(&other[6].value, rid);
    assert_eq!(req.body.prompt, "fn m\u{e9}");
    assert_eq!(req.body.suffix, "}");
    assert_eq!(req.body.extra.prompt_tokens, 6);
    assert_eq!(req.body.extra.suffix_tokens, 1);
    assert_eq!(req.body.extra.language, "rust");
    assert_eq!(req.body.max_tokens, 500);
    assert_eq!(req.body.n, 3);
    assert_eq!(req.body.stop, vec!["unset".to_string()]);
    assert!(req.body.stream);
}

#[test]
fn prompt_outside_document_is_invalid_position() {
    let mut b = Backend::new();
    b.did_open(doc("file:///a.js", SOURCE, 1));
    assert!(matches!(
        b.get_doc_params(&"file:///a.js".to_string(), Position { line: 1, character: 3 }),
        Err(DocError::InvalidPosition)
    ));
    let p = b.get_doc_params(&"file:///a.js".to_string(), Position { line: 2, character: 1 }).ok().unwrap();
    assert_eq!(p.prefix, SOURCE);
    assert_eq!(p.suffix, "");
    assert_eq!(p.line_before, "}");
    assert_eq!(p.version, 1);
}
