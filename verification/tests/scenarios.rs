use coroutine_system::driver::CoroutineTask;
use coroutine_system::driver::DriveOutcome;
use coroutine_system::driver::drive_tick;
use coroutine_system::lang::Cond;
use coroutine_system::lang::MStmt;
use coroutine_system::lang::SrcStmt;
use coroutine_system::lang::SuspendExpr;
use coroutine_system::machine::Context;
use coroutine_system::registry::RunningCoroutines;
use coroutine_system::suspend::BackgroundStatus;
use coroutine_system::suspend::SuspensionHandle;
use coroutine_system::transform::transform_function_body;
use coroutine_system::value::DynValue;
use coroutine_system::value::FatalError;
use coroutine_system::value::Tag;

const FUEL: u64 = 1000;
const BUDGET: u64 = 8;

fn fresh_ctx(flags: Vec<bool>) -> Context {
    Context { flags, log: vec![] }
}

fn setup(name: &str, body: Vec<SrcStmt>) -> (Vec<MStmt>, String, RunningCoroutines, CoroutineTask) {
    let program = transform_function_body(&body);
    let id = String::from(name);
    let mut reg = RunningCoroutines::new();
    reg.register_coroutine(id.clone(), 1);
    (program, id, reg, CoroutineTask::default())
}

#[test]
fn scenario_delay_then_next_tick() {
    let body = vec![
        SrcStmt::Suspend { expr: SuspendExpr::Delay { duration: 1000 } },
        SrcStmt::Suspend { expr: SuspendExpr::NextTick },
    ];
    let (program, id, mut reg, mut task) = setup("demo::scenario_a", body);
    let bg = BackgroundStatus::Running;

    // tick at 0.0s: the task is created and pauses on the delay
    let mut c = fresh_ctx(vec![]);
    let r = drive_tick(&mut task, &mut reg, &id, &program, &mut c, 0, &bg, FUEL, BUDGET);
    assert_eq!(r, Ok(DriveOutcome::StillRunning));
    assert!(reg.is_active(&id));
    assert!(task.coroutine.is_some());
    assert!(matches!(task.fut, Some(SuspensionHandle::Delay { deadline: 1000 })));

    // tick at 0.5s: the delay is not ready, no progress
    let mut c = fresh_ctx(vec![]);
    let r = drive_tick(&mut task, &mut reg, &id, &program, &mut c, 500, &bg, FUEL, BUDGET);
    assert_eq!(r, Ok(DriveOutcome::StillRunning));
    assert!(reg.is_active(&id));

    // tick at 1.1s: the delay resolves; the body pauses on the next-tick
    // wait, whose first poll within the same tick is not ready
    let mut c = fresh_ctx(vec![]);
    let r = drive_tick(&mut task, &mut reg, &id, &program, &mut c, 1100, &bg, FUEL, BUDGET);
    assert_eq!(r, Ok(DriveOutcome::StillRunning));
    assert!(reg.is_active(&id));
    assert!(matches!(task.fut, Some(SuspensionHandle::NextTick { polled: true })));

    // tick at 1.2s: the next-tick wait resolves and the body completes
    let mut c = fresh_ctx(vec![]);
    let r = drive_tick(&mut task, &mut reg, &id, &program, &mut c, 1200, &bg, FUEL, BUDGET);
    assert_eq!(r, Ok(DriveOutcome::Finished));
    assert!(!reg.is_active(&id));
    assert!(task.coroutine.is_none());
    assert!(task.fut.is_none());
}

#[test]
fn scenario_two_noops_complete_in_one_tick() {
    let body = vec![
        SrcStmt::Suspend { expr: SuspendExpr::Noop },
        SrcStmt::Suspend { expr: SuspendExpr::Noop },
    ];
    let (program, id, mut reg, mut task) = setup("demo::scenario_b", body);
    let bg = BackgroundStatus::Running;

    let mut c = fresh_ctx(vec![]);
    let r = drive_tick(&mut task, &mut reg, &id, &program, &mut c, 0, &bg, FUEL, BUDGET);
    assert_eq!(r, Ok(DriveOutcome::Finished));
    assert!(!reg.is_active(&id));
}

fn branchy_body() -> Vec<SrcStmt> {
    vec![
        SrcStmt::If {
            cond: Cond::Flag(0),
            then_body: vec![SrcStmt::Suspend { expr: SuspendExpr::NextTick }],
            else_body: vec![],
        },
        SrcStmt::Run { action: 42 },
    ]
}

#[test]
fn scenario_suspension_inside_then_arm_only() {
    let bg = BackgroundStatus::Running;

    // condition false: completes in one tick, no suspension
    let (program, id, mut reg, mut task) = setup("demo::scenario_c_false", branchy_body());
    let mut c = fresh_ctx(vec![false]);
    let r = drive_tick(&mut task, &mut reg, &id, &program, &mut c, 0, &bg, FUEL, BUDGET);
    assert_eq!(r, Ok(DriveOutcome::Finished));
    assert_eq!(c.log, vec![42]);
    assert!(!reg.is_active(&id));

    // condition true: suspends at the nested point, and the code after the
    // branch still runs, in original order, after the resume
    let (program, id, mut reg, mut task) = setup("demo::scenario_c_true", branchy_body());
    let mut c1 = fresh_ctx(vec![true]);
    let r = drive_tick(&mut task, &mut reg, &id, &program, &mut c1, 0, &bg, FUEL, BUDGET);
    assert_eq!(r, Ok(DriveOutcome::StillRunning));
    assert_eq!(c1.log, Vec::<u64>::new());
    assert!(reg.is_active(&id));

    let mut c2 = fresh_ctx(vec![true]);
    let r = drive_tick(&mut task, &mut reg, &id, &program, &mut c2, 1, &bg, FUEL, BUDGET);
    assert_eq!(r, Ok(DriveOutcome::Finished));
    assert_eq!(c2.log, vec![42]);
    assert!(!reg.is_active(&id));
}

#[test]
fn lifecycle_retrigger_starts_a_fresh_instance() {
    let body = vec![
        SrcStmt::Run { action: 1 },
        SrcStmt::Suspend { expr: SuspendExpr::NextTick },
        SrcStmt::Run { action: 2 },
    ];
    let (program, id, mut reg, mut task) = setup("demo::lifecycle", body);
    let bg = BackgroundStatus::Running;

    // first instance
    let mut c = fresh_ctx(vec![]);
    assert_eq!(
        drive_tick(&mut task, &mut reg, &id, &program, &mut c, 0, &bg, FUEL, BUDGET),
        Ok(DriveOutcome::StillRunning)
    );
    assert_eq!(c.log, vec![1]);
    assert!(reg.is_active(&id));
    let mut c = fresh_ctx(vec![]);
    assert_eq!(
        drive_tick(&mut task, &mut reg, &id, &program, &mut c, 1, &bg, FUEL, BUDGET),
        Ok(DriveOutcome::Finished)
    );
    assert_eq!(c.log, vec![2]);
    assert!(!reg.is_active(&id));

    // a later trigger runs an independent fresh instance from the start
    let mut c = fresh_ctx(vec![]);
    assert_eq!(
        drive_tick(&mut task, &mut reg, &id, &program, &mut c, 2, &bg, FUEL, BUDGET),
        Ok(DriveOutcome::StillRunning)
    );
    assert_eq!(c.log, vec![1]);
    assert!(reg.is_active(&id));
    let mut c = fresh_ctx(vec![]);
    assert_eq!(
        drive_tick(&mut task, &mut reg, &id, &program, &mut c, 3, &bg, FUEL, BUDGET),
        Ok(DriveOutcome::Finished)
    );
    assert_eq!(c.log, vec![2]);
    assert!(!reg.is_active(&id));
}

#[test]
fn background_work_resolves_with_its_value() {
    let body = vec![
        SrcStmt::LetSuspend {
            var: 2,
            expected: Tag::Text,
            expr: SuspendExpr::Background { work: 5 },
        },
        SrcStmt::Suspend { expr: SuspendExpr::NextTick },
    ];
    let (program, id, mut reg, mut task) = setup("demo::background", body);

    let mut c = fresh_ctx(vec![]);
    let r = drive_tick(
        &mut task, &mut reg, &id, &program, &mut c, 0, &BackgroundStatus::Running, FUEL, BUDGET,
    );
    assert_eq!(r, Ok(DriveOutcome::StillRunning));
    assert!(matches!(task.fut, Some(SuspensionHandle::Background { work: 5 })));

    let done = BackgroundStatus::Finished(DynValue::Text(String::from("done")));
    let mut c = fresh_ctx(vec![]);
    let r = drive_tick(&mut task, &mut reg, &id, &program, &mut c, 1, &done, FUEL, BUDGET);
    assert_eq!(r, Ok(DriveOutcome::StillRunning));
    let comp = task.coroutine.as_ref().unwrap();
    assert_eq!(comp.local(2), Some(DynValue::Text(String::from("done"))));

    let mut c = fresh_ctx(vec![]);
    let r = drive_tick(
        &mut task, &mut reg, &id, &program, &mut c, 2, &BackgroundStatus::Running, FUEL, BUDGET,
    );
    assert_eq!(r, Ok(DriveOutcome::Finished));
    assert!(!reg.is_active(&id));
}

#[test]
fn background_result_of_wrong_type_aborts_the_task() {
    let body = vec![SrcStmt::LetSuspend {
        var: 2,
        expected: Tag::Int,
        expr: SuspendExpr::Background { work: 5 },
    }];
    let (program, id, mut reg, mut task) = setup("demo::background_mismatch", body);

    let mut c = fresh_ctx(vec![]);
    let r = drive_tick(
        &mut task, &mut reg, &id, &program, &mut c, 0, &BackgroundStatus::Running, FUEL, BUDGET,
    );
    assert_eq!(r, Ok(DriveOutcome::StillRunning));

    let done = BackgroundStatus::Finished(DynValue::Text(String::from("oops")));
    let mut c = fresh_ctx(vec![]);
    let r = drive_tick(&mut task, &mut reg, &id, &program, &mut c, 1, &done, FUEL, BUDGET);
    assert_eq!(
        r,
        Err(FatalError::TypeMismatch { expected: Tag::Int, found: Tag::Text })
    );
    assert!(task.coroutine.is_none());
    assert!(task.fut.is_none());
    assert!(!reg.is_active(&id));
}

#[test]
fn background_failure_aborts_the_task() {
    let body = vec![SrcStmt::Suspend { expr: SuspendExpr::Background { work: 9 } }];
    let (program, id, mut reg, mut task) = setup("demo::background_failed", body);

    let mut c = fresh_ctx(vec![]);
    let r = drive_tick(
        &mut task, &mut reg, &id, &program, &mut c, 0, &BackgroundStatus::Running, FUEL, BUDGET,
    );
    assert_eq!(r, Ok(DriveOutcome::StillRunning));

    let mut c = fresh_ctx(vec![]);
    let r = drive_tick(
        &mut task, &mut reg, &id, &program, &mut c, 1, &BackgroundStatus::Failed, FUEL, BUDGET,
    );
    assert_eq!(r, Err(FatalError::BackgroundFailure));
    assert!(!reg.is_active(&id));
}

#[test]
fn delay_result_is_the_resolution_time() {
    let body = vec![
        SrcStmt::LetSuspend {
            var: 7,
            expected: Tag::Int,
            expr: SuspendExpr::Delay { duration: 100 },
        },
        SrcStmt::Suspend { expr: SuspendExpr::NextTick },
    ];
    let (program, id, mut reg, mut task) = setup("demo::delay_result", body);
    let bg = BackgroundStatus::Running;

    let mut c = fresh_ctx(vec![]);
    assert_eq!(
        drive_tick(&mut task, &mut reg, &id, &program, &mut c, 0, &bg, FUEL, BUDGET),
        Ok(DriveOutcome::StillRunning)
    );
    let mut c = fresh_ctx(vec![]);
    assert_eq!(
        drive_tick(&mut task, &mut reg, &id, &program, &mut c, 150, &bg, FUEL, BUDGET),
        Ok(DriveOutcome::StillRunning)
    );
    let comp = task.coroutine.as_ref().unwrap();
    assert_eq!(comp.local(7), Some(DynValue::Int(150)));
}

#[test]
fn re_entry_budget_caps_same_tick_progress() {
    let body = vec![
        SrcStmt::Suspend { expr: SuspendExpr::Noop },
        SrcStmt::Suspend { expr: SuspendExpr::Noop },
    ];
    let (program, id, mut reg, mut task) = setup("demo::budget", body);
    let bg = BackgroundStatus::Running;

    // with no re-entry allowed, each tick crosses at most one boundary
    let mut c = fresh_ctx(vec![]);
    assert_eq!(
        drive_tick(&mut task, &mut reg, &id, &program, &mut c, 0, &bg, FUEL, 0),
        Ok(DriveOutcome::StillRunning)
    );
    let mut c = fresh_ctx(vec![]);
    assert_eq!(
        drive_tick(&mut task, &mut reg, &id, &program, &mut c, 1, &bg, FUEL, 0),
        Ok(DriveOutcome::StillRunning)
    );
    let mut c = fresh_ctx(vec![]);
    assert_eq!(
        drive_tick(&mut task, &mut reg, &id, &program, &mut c, 2, &bg, FUEL, 0),
        Ok(DriveOutcome::Finished)
    );
    assert!(!reg.is_active(&id));
}

#[test]
fn while_loop_runs_once_per_tick_until_flag_clears() {
    let body = vec![SrcStmt::While {
        cond: Cond::Flag(0),
        body: vec![
            SrcStmt::Run { action: 1 },
            SrcStmt::Suspend { expr: SuspendExpr::NextTick },
        ],
    }];
    let (program, id, mut reg, mut task) = setup("demo::while_flag", body);
    let bg = BackgroundStatus::Running;

    let mut c = fresh_ctx(vec![true]);
    assert_eq!(
        drive_tick(&mut task, &mut reg, &id, &program, &mut c, 0, &bg, FUEL, BUDGET),
        Ok(DriveOutcome::StillRunning)
    );
    assert_eq!(c.log, vec![1]);

    let mut c = fresh_ctx(vec![true]);
    assert_eq!(
        drive_tick(&mut task, &mut reg, &id, &program, &mut c, 1, &bg, FUEL, BUDGET),
        Ok(DriveOutcome::StillRunning)
    );
    assert_eq!(c.log, vec![1]);

    let mut c = fresh_ctx(vec![false]);
    assert_eq!(
        drive_tick(&mut task, &mut reg, &id, &program, &mut c, 2, &bg, FUEL, BUDGET),
        Ok(DriveOutcome::Finished)
    );
    assert_eq!(c.log, Vec::<u64>::new());
    assert!(!reg.is_active(&id));
}
