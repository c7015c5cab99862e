use redis_exporter::scheduler::sched_step;
use redis_exporter::scheduler::SchedAction;
use redis_exporter::scheduler::SchedEvent;
use redis_exporter::scheduler::SchedState;

#[test]
fn the_loop_starts_waits_polls_and_returns_to_waiting() {
    let (s, a) = sched_step(SchedState::Idle, SchedEvent::Started);
    assert_eq!((s, a), (SchedState::Ticking, SchedAction::Wait));
    let (s, a) = sched_step(s, SchedEvent::Tick);
    assert_eq!((s, a), (SchedState::Collecting, SchedAction::Poll));
    let (s, a) = sched_step(s, SchedEvent::CollectDone);
    assert_eq!((s, a), (SchedState::Ticking, SchedAction::Wait));
}

#[test]
fn a_failed_poll_returns_to_waiting_like_a_successful_one() {
    // Poll outcomes are logged by the loop; both wake it with the same
    // completion event and the loop continues.
    let (s, a) = sched_step(SchedState::Collecting, SchedEvent::CollectDone);
    assert_eq!((s, a), (SchedState::Ticking, SchedAction::Wait));
}

#[test]
fn cancellation_mid_interval_stops_without_another_poll() {
    let (s, a) = sched_step(SchedState::Ticking, SchedEvent::Cancelled);
    assert_eq!((s, a), (SchedState::Cancelling, SchedAction::Stop));
    let (s, a) = sched_step(s, SchedEvent::Cancelled);
    assert_eq!((s, a), (SchedState::Terminated, SchedAction::Stop));
    let (s, a) = sched_step(s, SchedEvent::Tick);
    assert_eq!((s, a), (SchedState::Terminated, SchedAction::Stop));
}

#[test]
fn cancellation_does_not_abort_an_in_flight_poll() {
    // A cancellation observed while a poll is in flight takes effect only
    // at the next wait: the poll finishes first.
    let (s, a) = sched_step(SchedState::Collecting, SchedEvent::Cancelled);
    assert_eq!((s, a), (SchedState::Collecting, SchedAction::Wait));
    let (s, a) = sched_step(s, SchedEvent::CollectDone);
    assert_eq!((s, a), (SchedState::Ticking, SchedAction::Wait));
    let (s, a) = sched_step(s, SchedEvent::Cancelled);
    assert_eq!((s, a), (SchedState::Cancelling, SchedAction::Stop));
}
