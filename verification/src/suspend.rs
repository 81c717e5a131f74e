//! Suspension primitives: canonical pause-description handles.
//!
//! Every pause of a procedure is described by one handle, polled at most once
//! per tick by the driver. Polling either reports "not yet" or hands back the
//! dynamically-typed result of the completed wait. Time is the host's
//! monotonic clock, passed in as a plain number; the completion state of a
//! background unit of work is likewise observed by the host and passed in.

use vstd::prelude::*;

use crate::value::DynValue;
use crate::value::FatalError;

verus! {

/// What the host observed about a task's background unit of work this tick.
///
/// The work runs on an independent worker; the driver never blocks on it and
/// learns of it only through this per-tick observation.
#[derive(Clone, Debug, PartialEq, Eq)]
pub enum BackgroundStatus {
    /// The unit of work has not finished yet.
    Running,
    /// The unit of work finished and returned this value.
    Finished(DynValue),
    /// The unit of work panicked or aborted; fatal on poll.
    Failed,
}

/// The outcome of polling a pending suspension.
#[derive(Clone, Debug, PartialEq, Eq)]
pub enum PollOutcome {
    /// Not ready: the polled task makes no progress until a later tick.
    Pending,
    /// Ready: the wait is over and this is its result.
    Ready(DynValue),
}

/// A poll-once-per-tick pause handle, exclusively held by its task between
/// the tick it was yielded and the tick it resolves.
#[derive(Clone, Copy, Debug, PartialEq, Eq, Structural)]
pub enum SuspensionHandle {
    /// Ready exactly when the current time has reached the deadline.
    Delay { deadline: u64 },
    /// Not ready on its first poll; ready on any later poll, regardless of
    /// elapsed time. Guarantees at least one full extra tick of suspension.
    NextTick { polled: bool },
    /// Ready on its one poll; forces a yield boundary without waiting.
    Noop,
    /// Ready exactly when the spawned background unit of work, named by this
    /// host-side id, has finished.
    Background { work: u64 },
}

/// The deadline of a delay created at `now`: creation time plus duration,
/// capped at the end of representable time.
pub open spec fn delay_deadline(now: u64, duration: u64) -> u64 {
    if now + duration <= u64::MAX {
        (now + duration) as u64
    } else {
        u64::MAX
    }
}

/// The handle `sleep` creates.
pub open spec fn spec_sleep(duration: u64, now: u64) -> SuspensionHandle {
    SuspensionHandle::Delay { deadline: delay_deadline(now, duration) }
}

/// The handle `next_frame` creates.
pub open spec fn spec_next_frame() -> SuspensionHandle {
    SuspensionHandle::NextTick { polled: false }
}

/// The poll protocol of every handle: the handle as it stands after the poll
/// and what the poll reported, or the fatal failure it surfaced.
pub open spec fn spec_poll(h: SuspensionHandle, now: u64, bg: BackgroundStatus) -> Result<
    (SuspensionHandle, PollOutcome),
    FatalError,
> {
    match h {
        SuspensionHandle::Delay { deadline } => if now >= deadline {
            Ok((h, PollOutcome::Ready(DynValue::Int(now))))
        } else {
            Ok((h, PollOutcome::Pending))
        },
        SuspensionHandle::NextTick { polled } => if polled {
            Ok((h, PollOutcome::Ready(DynValue::Unit)))
        } else {
            Ok((SuspensionHandle::NextTick { polled: true }, PollOutcome::Pending))
        },
        SuspensionHandle::Noop => Ok((h, PollOutcome::Ready(DynValue::Unit))),
        SuspensionHandle::Background { .. } => match bg {
            BackgroundStatus::Running => Ok((h, PollOutcome::Pending)),
            BackgroundStatus::Finished(v) => Ok((h, PollOutcome::Ready(v))),
            BackgroundStatus::Failed => Err(FatalError::BackgroundFailure),
        },
    }
}

/// Creates a timed delay: ready once the clock reaches `now + duration`. It
/// may resolve on its very first poll if the duration has already elapsed.
pub fn sleep(duration: u64, now: u64) -> (h: SuspensionHandle)
    ensures
        h == spec_sleep(duration, now),
{
    SuspensionHandle::Delay { deadline: now.saturating_add(duration) }
}

/// Creates a next-tick wait: pending on its first poll, ready on any later
/// poll.
pub fn next_frame() -> (h: SuspensionHandle)
    ensures
        h == spec_next_frame(),
{
    SuspensionHandle::NextTick { polled: false }
}

/// Creates an immediate no-op wait, used purely to force a yield boundary,
/// e.g. to split two operations that would otherwise contend for the same
/// exclusive external resource within one tick.
pub fn noop() -> (h: SuspensionHandle)
    ensures
        h == SuspensionHandle::Noop,
{
    SuspensionHandle::Noop
}

impl SuspensionHandle {
    /// Polls this pending suspension at time `now`, with `bg` the host's
    /// current observation of the task's background unit of work (ignored by
    /// every variant but `Background`).
    pub fn poll(&mut self, now: u64, bg: &BackgroundStatus) -> (r: Result<
        PollOutcome,
        FatalError,
    >)
        ensures
            match spec_poll(*old(self), now, *bg) {
                Ok((h2, out)) => *final(self) == h2 && r == Ok::<PollOutcome, FatalError>(out),
                Err(e) => *final(self) == *old(self) && r == Err::<PollOutcome, FatalError>(e),
            },
    {
        match &*self {
            SuspensionHandle::Delay { deadline } => if now >= *deadline {
                Ok(PollOutcome::Ready(DynValue::Int(now)))
            } else {
                Ok(PollOutcome::Pending)
            },
            SuspensionHandle::NextTick { polled } => if *polled {
                Ok(PollOutcome::Ready(DynValue::Unit))
            } else {
                *self = SuspensionHandle::NextTick { polled: true };
                Ok(PollOutcome::Pending)
            },
            SuspensionHandle::Noop => Ok(PollOutcome::Ready(DynValue::Unit)),
            SuspensionHandle::Background { .. } => match bg {
                BackgroundStatus::Running => Ok(PollOutcome::Pending),
                BackgroundStatus::Finished(v) => Ok(PollOutcome::Ready(v.clone())),
                BackgroundStatus::Failed => Err(FatalError::BackgroundFailure),
            },
        }
    }
}

/// Law: a delay of duration `duration` created at time `creation` polls
/// pending at every time before `creation + duration` and ready, carrying the
/// poll time, at every time from `creation + duration` on. The handle itself
/// never changes, so the rule is the same on every poll.
pub proof fn lemma_delay_poll(creation: u64, duration: u64, t: u64, bg: BackgroundStatus)
    requires
        creation + duration <= u64::MAX,
    ensures
        t < creation + duration ==> spec_poll(spec_sleep(duration, creation), t, bg) == Ok::<
            (SuspensionHandle, PollOutcome),
            FatalError,
        >((spec_sleep(duration, creation), PollOutcome::Pending)),
        t >= creation + duration ==> spec_poll(spec_sleep(duration, creation), t, bg) == Ok::<
            (SuspensionHandle, PollOutcome),
            FatalError,
        >((spec_sleep(duration, creation), PollOutcome::Ready(DynValue::Int(t)))),
{
}

/// Law: a next-tick wait is pending on its first poll whatever the clock
/// says, and ready on any later poll, again regardless of elapsed time.
pub proof fn lemma_next_tick_poll(t1: u64, t2: u64, bg1: BackgroundStatus, bg2: BackgroundStatus)
    ensures
        spec_poll(spec_next_frame(), t1, bg1) == Ok::<(SuspensionHandle, PollOutcome), FatalError>(
            (SuspensionHandle::NextTick { polled: true }, PollOutcome::Pending),
        ),
        spec_poll(SuspensionHandle::NextTick { polled: true }, t2, bg2) == Ok::<
            (SuspensionHandle, PollOutcome),
            FatalError,
        >((SuspensionHandle::NextTick { polled: true }, PollOutcome::Ready(DynValue::Unit))),
{
}

/// Law: a no-op wait is ready on its one poll, at any time.
pub proof fn lemma_noop_poll(t: u64, bg: BackgroundStatus)
    ensures
        spec_poll(SuspensionHandle::Noop, t, bg) == Ok::<
            (SuspensionHandle, PollOutcome),
            FatalError,
        >((SuspensionHandle::Noop, PollOutcome::Ready(DynValue::Unit))),
{
}

} // verus!
