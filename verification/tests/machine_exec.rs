use coroutine_system::lang::MStmt;
use coroutine_system::machine::Context;
use coroutine_system::machine::ExecState;
use coroutine_system::machine::ResumeOutcome;
use coroutine_system::machine::resume;
use coroutine_system::value::CoroutineTaskInput;
use coroutine_system::value::FatalError;

#[test]
fn resume_runs_to_completion_and_logs_actions() {
    let prog = vec![
        MStmt::BindViews,
        MStmt::Run { action: 5 },
        MStmt::Run { action: 6 },
    ];
    let mut st = ExecState::init(&prog);
    let mut c = Context { flags: vec![], log: vec![] };
    let r = resume(&mut st, &mut c, CoroutineTaskInput::empty(), 0, 100);
    assert_eq!(r, Ok(ResumeOutcome::Completed));
    assert_eq!(c.log, vec![5, 6]);
}

#[test]
fn action_without_derived_views_is_fatal() {
    let prog = vec![MStmt::Run { action: 5 }];
    let mut st = ExecState::init(&prog);
    let mut c = Context { flags: vec![], log: vec![] };
    let r = resume(&mut st, &mut c, CoroutineTaskInput::empty(), 0, 100);
    assert_eq!(r, Err(FatalError::StaleViews));
}

#[test]
fn exhausted_step_budget_is_fatal() {
    let prog = vec![MStmt::BindViews];
    let mut st = ExecState::init(&prog);
    let mut c = Context { flags: vec![], log: vec![] };
    let r = resume(&mut st, &mut c, CoroutineTaskInput::empty(), 0, 0);
    assert_eq!(r, Err(FatalError::StepLimit));
}

#[test]
fn empty_program_completes_immediately() {
    let prog: Vec<MStmt> = vec![];
    let mut st = ExecState::init(&prog);
    let mut c = Context { flags: vec![], log: vec![] };
    let r = resume(&mut st, &mut c, CoroutineTaskInput::empty(), 0, 10);
    assert_eq!(r, Ok(ResumeOutcome::Completed));
}
