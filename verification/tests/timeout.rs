use hello_pipeline::message::Response;
use hello_pipeline::timeout::{
    bound, race, step, TimeoutEvent, TimeoutState, Verdict, BUDGET_MS, STATUS_REQUEST_TIMEOUT,
};

#[test]
fn budget_is_ten_seconds() {
    assert_eq!(BUDGET_MS, 10_000);
    assert_eq!(STATUS_REQUEST_TIMEOUT, 408);
}

#[test]
fn step_from_pending() {
    assert_eq!(
        step(TimeoutState::Pending, TimeoutEvent::HandlerReturned),
        (TimeoutState::Completed, Verdict::Deliver)
    );
    assert_eq!(
        step(TimeoutState::Pending, TimeoutEvent::DeadlineReached),
        (TimeoutState::Expired, Verdict::TimedOut)
    );
}

#[test]
fn step_from_a_decided_state_discards() {
    for event in [TimeoutEvent::HandlerReturned, TimeoutEvent::DeadlineReached] {
        assert_eq!(
            step(TimeoutState::Completed, event),
            (TimeoutState::Completed, Verdict::Discard)
        );
        assert_eq!(step(TimeoutState::Expired, event), (TimeoutState::Expired, Verdict::Discard));
    }
}

#[test]
fn only_the_first_event_of_a_run_is_seen() {
    let events = [
        TimeoutEvent::DeadlineReached,
        TimeoutEvent::HandlerReturned,
        TimeoutEvent::DeadlineReached,
    ];
    let mut state = TimeoutState::Pending;
    let mut seen = Vec::new();
    for event in events {
        let (next, verdict) = step(state, event);
        state = next;
        if verdict != Verdict::Discard {
            seen.push(verdict);
        }
    }
    assert_eq!(seen, vec![Verdict::TimedOut]);
    assert_eq!(state, TimeoutState::Expired);
}

#[test]
fn race_is_decided_at_the_budget() {
    assert_eq!(race(0), TimeoutEvent::HandlerReturned);
    assert_eq!(race(9_999), TimeoutEvent::HandlerReturned);
    assert_eq!(race(10_000), TimeoutEvent::DeadlineReached);
    assert_eq!(race(u64::MAX), TimeoutEvent::DeadlineReached);
}

#[test]
fn bound_passes_a_response_within_budget() {
    let mut resp = Response::with_status(200);
    resp.body = b"hello a".to_vec();
    let out = bound(resp, 9_999);
    assert_eq!(out.status, 200);
    assert_eq!(out.body, b"hello a".to_vec());
}

#[test]
fn bound_drops_a_late_response() {
    let mut resp = Response::with_status(200);
    resp.body = b"hello a".to_vec();
    let out = bound(resp, 10_000);
    assert_eq!(out.status, 408);
    assert!(out.body.is_empty());
    assert_eq!(out.headers.len(), 0);
}
