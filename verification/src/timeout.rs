//! The timeout layer: a race between the handler and a fixed deadline, of
//! which the client sees exactly one side.

use vstd::prelude::*;
use crate::message::{bare, Response, ResponseView};

verus! {

/// The time a request may take, in milliseconds.
pub const BUDGET_MS: u64 = 10_000;

/// Status of the response that stands for an expired request.
pub const STATUS_REQUEST_TIMEOUT: u16 = 408;

/// Where a request stands in the race.
#[derive(Clone, Copy, Debug, PartialEq, Eq, Structural)]
pub enum TimeoutState {
    /// The handler is running and the deadline has not passed.
    Pending,
    /// The handler returned within the budget.
    Completed,
    /// The budget ran out first.
    Expired,
}

/// What can happen to a pending request.
#[derive(Clone, Copy, Debug, PartialEq, Eq, Structural)]
pub enum TimeoutEvent {
    /// The handler produced its outcome.
    HandlerReturned,
    /// The elapsed time reached the budget.
    DeadlineReached,
}

/// What the pipeline does on an event.
#[derive(Clone, Copy, Debug, PartialEq, Eq, Structural)]
pub enum Verdict {
    /// Hand the handler's outcome on towards the client.
    Deliver,
    /// Answer with the timeout response; the handler is abandoned.
    TimedOut,
    /// The request is already decided: drop what arrived.
    Discard,
}

/// The transition function of the race.
pub open spec fn next(state: TimeoutState, event: TimeoutEvent) -> (TimeoutState, Verdict) {
    match state {
        TimeoutState::Pending => match event {
            TimeoutEvent::HandlerReturned => (TimeoutState::Completed, Verdict::Deliver),
            TimeoutEvent::DeadlineReached => (TimeoutState::Expired, Verdict::TimedOut),
        },
        _ => (state, Verdict::Discard),
    }
}

/// The state after a run of events that starts pending.
pub open spec fn state_after(events: Seq<TimeoutEvent>) -> TimeoutState
    decreases events.len(),
{
    if events.len() == 0 {
        TimeoutState::Pending
    } else {
        next(state_after(events.drop_last()), events.last()).0
    }
}

/// The verdict on event `i` of a run that starts pending.
pub open spec fn verdict_at(events: Seq<TimeoutEvent>, i: int) -> Verdict {
    next(state_after(events.take(i)), events[i]).1
}

/// Which side wins when the handler needs `elapsed_ms`: the deadline as soon
/// as the elapsed time reaches the budget, the handler before that.
pub open spec fn winner(elapsed_ms: u64) -> TimeoutEvent {
    if elapsed_ms < BUDGET_MS {
        TimeoutEvent::HandlerReturned
    } else {
        TimeoutEvent::DeadlineReached
    }
}

/// The response a client gets for a handler that needed `elapsed_ms` and
/// would have produced `inner`: `inner` within the budget, else a bare 408.
pub open spec fn bounded(inner: ResponseView, elapsed_ms: u64) -> ResponseView {
    if elapsed_ms < BUDGET_MS {
        inner
    } else {
        bare(STATUS_REQUEST_TIMEOUT)
    }
}

/// The first event of a run decides: the state never changes afterwards, and
/// every later event is discarded. So a client sees the handler's outcome or
/// the timeout, never both.
pub proof fn lemma_first_event_decides(events: Seq<TimeoutEvent>)
    requires
        events.len() > 0,
    ensures
        state_after(events) == next(TimeoutState::Pending, events[0]).0,
        state_after(events) != TimeoutState::Pending,
        verdict_at(events, 0) != Verdict::Discard,
        forall|i: int| 1 <= i < events.len() ==> #[trigger] verdict_at(events, i) == Verdict::Discard,
    decreases events.len(),
{
    assert(events.take(0) =~= Seq::<TimeoutEvent>::empty());
    if events.len() == 1 {
        assert(events.drop_last() =~= Seq::<TimeoutEvent>::empty());
    } else {
        let front = events.drop_last();
        lemma_first_event_decides(front);
        assert(front[0] == events[0]);
        assert forall|i: int| 1 <= i < events.len() implies #[trigger] verdict_at(events, i)
            == Verdict::Discard by {
            if i < front.len() {
                assert(events.take(i) =~= front.take(i));
                assert(verdict_at(front, i) == Verdict::Discard);
            } else {
                assert(events.take(i) =~= front);
            }
        }
    }
}

/// One step of the race.
pub fn step(state: TimeoutState, event: TimeoutEvent) -> (r: (TimeoutState, Verdict))
    ensures
        r == next(state, event),
{
    match state {
        TimeoutState::Pending => match event {
            TimeoutEvent::HandlerReturned => (TimeoutState::Completed, Verdict::Deliver),
            TimeoutEvent::DeadlineReached => (TimeoutState::Expired, Verdict::TimedOut),
        },
        TimeoutState::Completed => (TimeoutState::Completed, Verdict::Discard),
        TimeoutState::Expired => (TimeoutState::Expired, Verdict::Discard),
    }
}

/// The side that wins the race for a handler that needs `elapsed_ms`.
pub fn race(elapsed_ms: u64) -> (r: TimeoutEvent)
    ensures
        r == winner(elapsed_ms),
{
    if elapsed_ms < BUDGET_MS {
        TimeoutEvent::HandlerReturned
    } else {
        TimeoutEvent::DeadlineReached
    }
}

/// Applies the budget to a handler's response: within the budget it passes
/// unchanged; from the budget on it is dropped for a bare 408.
pub fn bound(inner: Response, elapsed_ms: u64) -> (r: Response)
    ensures
        r@ == bounded(inner@, elapsed_ms),
        next(TimeoutState::Pending, winner(elapsed_ms)).1 == Verdict::Deliver ==> r@ == inner@,
        next(TimeoutState::Pending, winner(elapsed_ms)).1 == Verdict::TimedOut ==> r@ == bare(
            STATUS_REQUEST_TIMEOUT,
        ),
{
    let (_, verdict) = step(TimeoutState::Pending, race(elapsed_ms));
    match verdict {
        Verdict::Deliver => inner,
        _ => Response::with_status(STATUS_REQUEST_TIMEOUT),
    }
}

} // verus!
