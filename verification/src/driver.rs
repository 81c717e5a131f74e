//! The scheduler driver: the per-tick entry point of one task identity.
//!
//! A task identity is in one of three states: Uninitialized (no paused
//! computation), Paused on a pending suspension, or Finished. On its tick the driver
//! initializes a fresh task, polls the pending suspension, resumes the
//! paused computation with the resolved result, and interprets the outcome:
//! a new suspension leaves the task paused (the driver re-polls the fresh
//! suspension within the same tick, up to a bounded re-entry budget, so an
//! immediately-ready suspension does not cost a tick), completion discards
//! the computation and deactivates the identity. A fatal fault aborts the
//! task and deactivates it.

use vstd::prelude::*;

use crate::lang::MStmt;
use crate::lang::MStmtV;
use crate::lang::m_views;
use crate::machine::Context;
use crate::machine::ContextV;
use crate::machine::ExecState;
use crate::machine::ExecStateV;
use crate::machine::ResumeOutcome;
use crate::machine::resume;
use crate::machine::spec_init_state;
use crate::machine::spec_resume;
use crate::registry::RunningCoroutines;
use crate::suspend::BackgroundStatus;
use crate::suspend::PollOutcome;
use crate::suspend::SuspensionHandle;
use crate::suspend::spec_poll;
use crate::value::CoroutineTaskInput;
use crate::value::FatalError;

verus! {

/// The per-task-instance state container: the paused computation, and the
/// at most one outstanding suspension it is paused on.
///
/// Fresh and finished tasks hold neither; a paused task holds both.
#[derive(Debug)]
pub struct CoroutineTask {
    /// The paused computation: uniquely owned, not restartable once
    /// discarded.
    pub coroutine: Option<ExecState>,
    /// The pending suspension handle, exclusively held between the tick it
    /// was yielded and the tick it resolves.
    pub fut: Option<SuspensionHandle>,
}

/// The mathematical mirror of a task state container.
#[verifier::ext_equal]
pub struct CoroutineTaskV {
    pub coroutine: Option<ExecStateV>,
    pub fut: Option<SuspensionHandle>,
}

impl View for CoroutineTask {
    type V = CoroutineTaskV;

    open spec fn view(&self) -> CoroutineTaskV {
        CoroutineTaskV {
            coroutine: match self.coroutine {
                Option::None => Option::None,
                Option::Some(s) => Option::Some(s@),
            },
            fut: self.fut,
        }
    }
}

impl CoroutineTaskV {
    /// A task at rest holds a paused computation exactly when it holds a
    /// pending suspension, and the computation's frames are in range.
    pub open spec fn wf(self) -> bool {
        &&& self.coroutine is Some <==> self.fut is Some
        &&& self.coroutine is Some ==> self.coroutine->0.wf()
    }
}

impl Default for CoroutineTask {
    /// A fresh task: never started.
    fn default() -> (t: CoroutineTask)
        ensures
            t@.coroutine is None,
            t@.fut is None,
            t@.wf(),
    {
        CoroutineTask { coroutine: None, fut: None }
    }
}

/// What one driver tick reports to the host scheduler.
#[derive(Clone, Copy, Debug, PartialEq, Eq, Structural)]
pub enum DriveOutcome {
    /// The task stays paused; invoke its driver again on a later tick.
    StillRunning,
    /// The task ran to completion and was deactivated.
    Finished,
}

/// One driver tick on a task that holds a paused computation: poll the
/// pending suspension if any; when it resolves, resume the computation with
/// its result; a fresh suspension is polled again within the same tick while
/// the re-entry budget lasts.
pub open spec fn spec_drive_loop(
    t: CoroutineTaskV,
    c: ContextV,
    now: u64,
    bg: BackgroundStatus,
    fuel: nat,
    budget: nat,
) -> Result<(CoroutineTaskV, ContextV, DriveOutcome), FatalError>
    decreases budget, 1int,
{
    match t.fut {
        Option::Some(h) => match spec_poll(h, now, bg) {
            Err(e) => Err(e),
            Ok((h2, PollOutcome::Pending)) => Ok(
                (
                    CoroutineTaskV { fut: Option::Some(h2), ..t },
                    c,
                    DriveOutcome::StillRunning,
                ),
            ),
            Ok((h2, PollOutcome::Ready(v))) => spec_drive_resume(
                CoroutineTaskV { fut: Option::None, ..t },
                c,
                Option::Some(v),
                now,
                bg,
                fuel,
                budget,
            ),
        },
        Option::None => spec_drive_resume(t, c, Option::None, now, bg, fuel, budget),
    }
}

/// The resume step of one driver tick: feed the resolved result to the
/// paused computation and interpret how the resume ended.
pub open spec fn spec_drive_resume(
    t: CoroutineTaskV,
    c: ContextV,
    inp: Option<crate::value::DynValue>,
    now: u64,
    bg: BackgroundStatus,
    fuel: nat,
    budget: nat,
) -> Result<(CoroutineTaskV, ContextV, DriveOutcome), FatalError>
    decreases budget, 0int,
{
    if t.coroutine is None {
        Ok((t, c, DriveOutcome::Finished))
    } else {
        match spec_resume(t.coroutine->0, c, inp, now, fuel) {
            Err(e) => Err(e),
            Ok((s2, c2, ResumeOutcome::Completed)) => Ok(
                (
                    CoroutineTaskV { coroutine: Option::None, fut: Option::None },
                    c2,
                    DriveOutcome::Finished,
                ),
            ),
            Ok((s2, c2, ResumeOutcome::Yielded(h))) => if budget == 0 {
                Ok(
                    (
                        CoroutineTaskV { coroutine: Option::Some(s2), fut: Option::Some(h) },
                        c2,
                        DriveOutcome::StillRunning,
                    ),
                )
            } else {
                spec_drive_loop(
                    CoroutineTaskV { coroutine: Option::Some(s2), fut: Option::Some(h) },
                    c2,
                    now,
                    bg,
                    fuel,
                    (budget - 1) as nat,
                )
            },
        }
    }
}

/// One whole driver tick, initialization included: a task with no paused
/// computation is first built afresh from the lowered body, with no memory
/// of any earlier instance.
pub open spec fn spec_drive(
    t: CoroutineTaskV,
    c: ContextV,
    prog: Seq<MStmtV>,
    now: u64,
    bg: BackgroundStatus,
    fuel: nat,
    budget: nat,
) -> Result<(CoroutineTaskV, ContextV, DriveOutcome), FatalError> {
    if t.coroutine is None {
        spec_drive_loop(
            CoroutineTaskV { coroutine: Option::Some(spec_init_state(prog)), fut: t.fut },
            c,
            now,
            bg,
            fuel,
            budget,
        )
    } else {
        spec_drive_loop(t, c, now, bg, fuel, budget)
    }
}

/// Law: a task with no paused computation is driven with no memory of prior
/// state. Two such tasks with the same outstanding suspension state are
/// driven identically, whatever instance ran under the identity before.
pub proof fn lemma_fresh_instance(
    t1: CoroutineTaskV,
    t2: CoroutineTaskV,
    c: ContextV,
    prog: Seq<MStmtV>,
    now: u64,
    bg: BackgroundStatus,
    fuel: nat,
    budget: nat,
)
    requires
        t1.coroutine is None,
        t2.coroutine is None,
        t1.fut == t2.fut,
    ensures
        spec_drive(t1, c, prog, now, bg, fuel, budget) == spec_drive(
            t2,
            c,
            prog,
            now,
            bg,
            fuel,
            budget,
        ),
{
    assert(CoroutineTaskV { coroutine: Option::Some(spec_init_state(prog)), fut: t1.fut }
        =~= CoroutineTaskV { coroutine: Option::Some(spec_init_state(prog)), fut: t2.fut });
}

/// The poll/resume/re-poll loop of one tick, on a task that holds a paused
/// computation. On a fatal fault the task is aborted: both halves cleared.
fn drive_task(
    task: &mut CoroutineTask,
    ctx: &mut Context,
    now: u64,
    bg: &BackgroundStatus,
    fuel: u64,
    budget: u64,
) -> (r: Result<DriveOutcome, FatalError>)
    requires
        old(task)@.coroutine is Some,
        old(task)@.coroutine->0.wf(),
    ensures
        match spec_drive_loop(old(task)@, old(ctx)@, now, *bg, fuel as nat, budget as nat) {
            Ok((t2, c2, out)) => final(task)@ == t2 && final(ctx)@ == c2 && final(task)@.wf() && r
                == Ok::<DriveOutcome, FatalError>(out),
            Err(e) => r == Err::<DriveOutcome, FatalError>(e) && final(task)@.coroutine is None
                && final(task)@.fut is None,
        },
{
    let ghost t0 = task@;
    let ghost c0 = ctx@;
    let mut budget_left: u64 = budget;
    loop
        invariant
            task@.coroutine is Some,
            task@.coroutine->0.wf(),
            spec_drive_loop(task@, ctx@, now, *bg, fuel as nat, budget_left as nat)
                == spec_drive_loop(t0, c0, now, *bg, fuel as nat, budget as nat),
            t0 == old(task)@,
            c0 == old(ctx)@,
        decreases budget_left,
    {
        let ghost pre_t = task@;
        let ghost pre_c = ctx@;
        let mut input = CoroutineTaskInput::empty();
        if task.fut.is_some() {
            let mut h = task.fut.unwrap();
            task.fut = None;
            match h.poll(now, bg) {
                Err(e) => {
                    task.coroutine = None;
                    task.fut = None;
                    return Err(e);
                },
                Ok(PollOutcome::Pending) => {
                    task.fut = Some(h);
                    proof {
                        assert(task@ =~= CoroutineTaskV { fut: Option::Some(h), ..pre_t });
                    }
                    return Ok(DriveOutcome::StillRunning);
                },
                Ok(PollOutcome::Ready(v)) => {
                    input = CoroutineTaskInput::with_result(v);
                },
            }
        }
        let ghost mid_t = task@;
        let ghost inp_v = input.async_result;
        let mut comp = task.coroutine.take().unwrap();
        let ghost comp0 = comp@;
        proof {
            assert(comp0 == pre_t.coroutine->0);
        }
        match resume(&mut comp, ctx, input, now, fuel) {
            Err(e) => {
                task.coroutine = None;
                task.fut = None;
                return Err(e);
            },
            Ok(ResumeOutcome::Completed) => {
                task.fut = None;
                proof {
                    assert(task@ =~= CoroutineTaskV {
                        coroutine: Option::None,
                        fut: Option::None,
                    });
                }
                return Ok(DriveOutcome::Finished);
            },
            Ok(ResumeOutcome::Yielded(h)) => {
                task.coroutine = Some(comp);
                task.fut = Some(h);
                proof {
                    assert(task@ =~= CoroutineTaskV {
                        coroutine: Option::Some(comp@),
                        fut: Option::Some(h),
                    });
                }
                if budget_left == 0 {
                    return Ok(DriveOutcome::StillRunning);
                }
                budget_left = budget_left - 1;
            },
        }
    }
}

/// The per-tick driver entry point for one task identity.
///
/// On the first invocation for a fresh identity the paused computation is
/// built from the lowered body `program` and the identity becomes active.
/// Then the pending suspension, if any, is polled; when it resolves, the
/// computation is resumed with its result and the fresh suspension, if any,
/// is re-polled within the tick up to `budget` re-entries. Completion and
/// fatal faults deactivate the identity; a fault also aborts the task. The
/// registered driver-entry table is never touched.
pub fn drive_tick(
    task: &mut CoroutineTask,
    registry: &mut RunningCoroutines,
    identity: &String,
    program: &Vec<MStmt>,
    ctx: &mut Context,
    now: u64,
    bg: &BackgroundStatus,
    fuel: u64,
    budget: u64,
) -> (r: Result<DriveOutcome, FatalError>)
    requires
        old(task)@.wf(),
        old(registry).wf(),
    ensures
        final(registry).wf(),
        final(registry).register_systems == old(registry).register_systems,
        match spec_drive(
            old(task)@,
            old(ctx)@,
            m_views(program@),
            now,
            *bg,
            fuel as nat,
            budget as nat,
        ) {
            Ok((t2, c2, out)) => {
                &&& final(task)@ == t2
                &&& final(task)@.wf()
                &&& final(ctx)@ == c2
                &&& r == Ok::<DriveOutcome, FatalError>(out)
                &&& out == DriveOutcome::StillRunning ==> final(registry).active() == old(
                    registry,
                ).active().insert(identity@)
                &&& out == DriveOutcome::Finished ==> final(registry).active() == old(
                    registry,
                ).active().remove(identity@)
            },
            Err(e) => {
                &&& r == Err::<DriveOutcome, FatalError>(e)
                &&& final(task)@.coroutine is None
                &&& final(task)@.fut is None
                &&& final(task)@.wf()
                &&& final(registry).active() == old(registry).active().remove(identity@)
            },
        },
{
    if task.coroutine.is_none() {
        task.coroutine = Some(ExecState::init(program));
    }
    let r = drive_task(task, ctx, now, bg, fuel, budget);
    match &r {
        Ok(DriveOutcome::StillRunning) => {
            registry.mark_active(identity);
        },
        Ok(DriveOutcome::Finished) => {
            registry.mark_inactive(identity);
        },
        Err(_) => {
            registry.mark_inactive(identity);
        },
    }
    r
}

} // verus!
