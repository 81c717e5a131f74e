use coroutine_system::suspend::BackgroundStatus;
use coroutine_system::suspend::PollOutcome;
use coroutine_system::suspend::SuspensionHandle;
use coroutine_system::suspend::next_frame;
use coroutine_system::suspend::noop;
use coroutine_system::suspend::sleep;
use coroutine_system::value::DynValue;
use coroutine_system::value::FatalError;

#[test]
fn delay_pending_before_deadline() {
    let mut h = sleep(1000, 0);
    let r = h.poll(500, &BackgroundStatus::Running);
    assert_eq!(r, Ok(PollOutcome::Pending));
    let r = h.poll(999, &BackgroundStatus::Running);
    assert_eq!(r, Ok(PollOutcome::Pending));
}

#[test]
fn delay_ready_at_deadline() {
    let mut h = sleep(1000, 0);
    let r = h.poll(1000, &BackgroundStatus::Running);
    assert_eq!(r, Ok(PollOutcome::Ready(DynValue::Int(1000))));
}

#[test]
fn delay_ready_after_deadline_carries_poll_time() {
    let mut h = sleep(1000, 200);
    assert_eq!(h.poll(1100, &BackgroundStatus::Running), Ok(PollOutcome::Pending));
    assert_eq!(
        h.poll(1350, &BackgroundStatus::Running),
        Ok(PollOutcome::Ready(DynValue::Int(1350)))
    );
}

#[test]
fn delay_zero_resolves_on_first_poll() {
    let mut h = sleep(0, 42);
    assert_eq!(
        h.poll(42, &BackgroundStatus::Running),
        Ok(PollOutcome::Ready(DynValue::Int(42)))
    );
}

#[test]
fn delay_deadline_saturates() {
    let mut h = sleep(u64::MAX, 10);
    assert_eq!(h.poll(u64::MAX - 1, &BackgroundStatus::Running), Ok(PollOutcome::Pending));
    assert_eq!(
        h.poll(u64::MAX, &BackgroundStatus::Running),
        Ok(PollOutcome::Ready(DynValue::Int(u64::MAX)))
    );
}

#[test]
fn next_tick_pending_then_ready_regardless_of_time() {
    let mut h = next_frame();
    assert_eq!(h.poll(1_000_000, &BackgroundStatus::Running), Ok(PollOutcome::Pending));
    assert_eq!(
        h.poll(0, &BackgroundStatus::Running),
        Ok(PollOutcome::Ready(DynValue::Unit))
    );
    assert_eq!(
        h.poll(5, &BackgroundStatus::Running),
        Ok(PollOutcome::Ready(DynValue::Unit))
    );
}

#[test]
fn noop_ready_on_first_poll() {
    let mut h = noop();
    assert_eq!(
        h.poll(0, &BackgroundStatus::Running),
        Ok(PollOutcome::Ready(DynValue::Unit))
    );
}

#[test]
fn background_follows_worker_status() {
    let mut h = SuspensionHandle::Background { work: 3 };
    assert_eq!(h.poll(0, &BackgroundStatus::Running), Ok(PollOutcome::Pending));
    assert_eq!(
        h.poll(1, &BackgroundStatus::Finished(DynValue::Text(String::from("done")))),
        Ok(PollOutcome::Ready(DynValue::Text(String::from("done"))))
    );
}

#[test]
fn background_failure_is_fatal_on_poll() {
    let mut h = SuspensionHandle::Background { work: 3 };
    assert_eq!(h.poll(0, &BackgroundStatus::Failed), Err(FatalError::BackgroundFailure));
}
