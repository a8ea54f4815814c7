use copilot_rs::cancellable::CancellationToken;
use copilot_rs::completion::CopilotCompletionResponse;
use copilot_rs::fetch::{fetch_step, FetchError, FetchStep, StreamInput};
use copilot_rs::stream::{handle_event, Choices, CopilotAnswer, CopilotResponse, StreamAssembler};
use copilot_rs::text::Position;
use copilot_rs::timeout::{Expired, Timeout, TimeoutLayer};

fn choice(text: &str, index: Option<u32>, finish: Option<&str>) -> Choices {
    Choices {
        text: text.to_string(),
        index,
        finish_reason: finish.map(|f| f.to_string()),
        logprobs: None,
    }
}

fn answer(choices: Vec<Choices>) -> CopilotResponse {
    CopilotResponse::Answer(CopilotAnswer {
        id: Some("cmpl-1".to_string()),
        model: "cushman-ml".to_string(),
        created: 1689565739,
        choices,
    })
}

fn session(deadline_ms: u64) -> Timeout<StreamAssembler> {
    let assembler = StreamAssembler::new("  ".to_string(), Position { line: 1, character: 2 });
    TimeoutLayer::new(deadline_ms).layer(assembler)
}

fn run(events: Vec<CopilotResponse>) -> Result<CopilotCompletionResponse, FetchError> {
    let mut s = session(1000);
    for ev in events {
        match fetch_step(s, StreamInput::Event(ev), false, 10) {
            FetchStep::Continue(next) => s = next,
            FetchStep::Finished(r) => return r,
        }
    }
    match fetch_step(s, StreamInput::EndOfStream, false, 10) {
        FetchStep::Finished(r) => r,
        FetchStep::Continue(_) => panic!("the end of the stream must finish the fetch"),
    }
}

#[test]
fn done_sentinel_is_recognised() {
    let r = handle_event("[DONE]", Err("expected value".to_string()));
    assert!(matches!(r, CopilotResponse::Done));
    let r = handle_event("{oops", Err("expected value".to_string()));
    assert!(matches!(r, CopilotResponse::Error(ref m) if m == "expected value"));
    let a = CopilotAnswer { id: None, model: "m".to_string(), created: 0, choices: vec![] };
    let r = handle_event("{}", Ok(a));
    assert!(matches!(r, CopilotResponse::Answer(_)));
}

#[test]
fn scenario_single_candidate() {
    let r = run(vec![
        answer(vec![choice("return", Some(0), None)]),
        answer(vec![choice(" 1;", Some(0), Some("stop"))]),
        CopilotResponse::Done,
    ])
    .ok()
    .unwrap();
    assert!(r.cancellation_reason.is_none());
    assert_eq!(r.completions.len(), 1);
    assert_eq!(r.completions[0].display_text, "return 1;");
    assert_eq!(r.completions[0].text, "  return 1;");
}

#[test]
fn scenario_two_slots_in_order() {
    let r = run(vec![
        answer(vec![choice("a", Some(0), None), choice("b", Some(1), None)]),
        answer(vec![choice("1", Some(0), Some("stop"))]),
        answer(vec![choice("2", Some(1), Some("stop"))]),
        CopilotResponse::Done,
    ])
    .ok()
    .unwrap();
    assert_eq!(r.completions.len(), 2);
    assert_eq!(r.completions[0].display_text, "a1");
    assert_eq!(r.completions[1].display_text, "b2");
}

#[test]
fn choices_without_index_go_by_place() {
    let r = run(vec![
        answer(vec![choice("x", None, None), choice("y", None, None)]),
        answer(vec![choice("1", None, Some("stop")), choice("2", None, Some("stop"))]),
        CopilotResponse::Done,
    ])
    .ok()
    .unwrap();
    assert_eq!(r.completions.len(), 2);
    assert_eq!(r.completions[0].display_text, "x1");
    assert_eq!(r.completions[1].display_text, "y2");
}

#[test]
fn finished_slot_starts_afresh() {
    let r = run(vec![
        answer(vec![choice("one", Some(0), Some("stop"))]),
        answer(vec![choice("two", Some(0), Some("stop"))]),
        CopilotResponse::Done,
    ])
    .ok()
    .unwrap();
    assert_eq!(r.completions.len(), 2);
    assert_eq!(r.completions[0].display_text, "one");
    assert_eq!(r.completions[1].display_text, "two");
}

#[test]
fn open_slots_are_kept_at_done() {
    let r = run(vec![answer(vec![choice("half", Some(0), None)]), CopilotResponse::Done]).ok().unwrap();
    assert_eq!(r.completions.len(), 1);
    assert_eq!(r.completions[0].display_text, "half");
}

#[test]
fn done_alone_gives_the_initial_empty_slot() {
    let r = run(vec![CopilotResponse::Done]).ok().unwrap();
    assert_eq!(r.completions.len(), 1);
    assert_eq!(r.completions[0].display_text, "");
    assert_eq!(r.completions[0].text, "  ");
}

#[test]
fn unreadable_payload_becomes_the_reason() {
    let r = run(vec![
        answer(vec![choice("a", Some(0), Some("stop"))]),
        CopilotResponse::Error("expected value at line 1".to_string()),
        answer(vec![choice("b", Some(1), Some("stop"))]),
        CopilotResponse::Done,
    ])
    .ok()
    .unwrap();
    assert_eq!(r.completions.len(), 0);
    assert_eq!(r.cancellation_reason.as_deref(), Some("expected value at line 1"));
}

#[test]
fn events_after_done_are_not_read() {
    let mut s = session(1000);
    s = match fetch_step(s, StreamInput::Event(answer(vec![choice("a", Some(0), Some("stop"))])), false, 1) {
        FetchStep::Continue(n) => n,
        FetchStep::Finished(_) => panic!("an answer must not finish the fetch"),
    };
    match fetch_step(s, StreamInput::Event(CopilotResponse::Done), false, 2) {
        FetchStep::Finished(Ok(r)) => assert_eq!(r.completions.len(), 1),
        _ => panic!("the sentinel must finish the fetch"),
    }
}

#[test]
fn cancellation_stops_the_fetch() {
    let s = session(1000);
    match fetch_step(s, StreamInput::Event(answer(vec![choice("a", Some(0), None)])), true, 1) {
        FetchStep::Finished(Ok(r)) => {
            assert!(r.completions.is_empty());
            assert_eq!(r.cancellation_reason.as_deref(), Some("RequestCancelled"));
        },
        _ => panic!("a cancelled request must stop"),
    }
}

#[test]
fn stalled_stream_times_out() {
    let mut s = session(500);
    s = match fetch_step(s, StreamInput::Idle, false, 499) {
        FetchStep::Continue(n) => n,
        FetchStep::Finished(_) => panic!("before the deadline the fetch goes on"),
    };
    match fetch_step(s, StreamInput::Idle, false, 500) {
        FetchStep::Finished(Err(FetchError::Timeout(e))) => assert_eq!(e.message(), "expired"),
        _ => panic!("past the deadline the fetch must fail with a timeout"),
    }
}

#[test]
fn read_failure_is_fatal() {
    let s = session(500);
    match fetch_step(s, StreamInput::ReadError("connection reset".to_string()), false, 3) {
        FetchStep::Finished(Err(FetchError::Upstream(m))) => assert_eq!(m, "connection reset"),
        _ => panic!("a read failure must end the fetch"),
    }
}

#[test]
fn timeout_wrapper_reports_expiry() {
    let t = Timeout::new(7u8, 100);
    assert_eq!(t.inner, 7);
    assert!(!t.has_expired(99));
    assert!(t.has_expired(100));
    assert_eq!(TimeoutLayer::new(25).0, 25);
    assert_eq!(Expired.message(), "expired");
}

#[test]
fn cancel_twice_notifies_once() {
    let mut t = CancellationToken::new(42);
    assert!(!t.is_canceled());
    assert!(t.cancel());
    assert!(t.is_canceled());
    assert!(!t.cancel());
    assert!(t.is_canceled());
    assert_eq!(t.request_id(), 42);
}
