//! A cooperative, tick-driven coroutine scheduler.
//!
//! A procedure that logically runs across many discrete ticks is written as a
//! straight-line body in a small statement language with one suspension
//! operator. The transformation engine rewrites that body so every suspension
//! becomes an explicit yield/resume boundary, the machine module executes the
//! rewritten body as a resumable state machine, and the driver advances one
//! task by at most one pending suspension per tick. A process-wide registry
//! tracks which task identities are currently active.

pub mod compile;
pub mod driver;
pub mod lang;
pub mod machine;
pub mod params;
pub mod registry;
pub mod safety;
pub mod suspend;
pub mod transform;
pub mod value;

pub use compile::CompileError;
pub use compile::CompiledSystem;
pub use compile::ProcDecl;
pub use compile::coroutine_system;
pub use driver::CoroutineTask;
pub use driver::DriveOutcome;
pub use driver::drive_tick;
pub use lang::Cond;
pub use lang::MStmt;
pub use lang::SrcStmt;
pub use lang::SuspendExpr;
pub use machine::Context;
pub use machine::ExecState;
pub use machine::ResumeOutcome;
pub use params::LifetimeRequirement;
pub use registry::RunningCoroutines;
pub use suspend::BackgroundStatus;
pub use suspend::PollOutcome;
pub use suspend::SuspensionHandle;
pub use suspend::next_frame;
pub use suspend::noop;
pub use suspend::sleep;
pub use value::CoroutineTaskInput;
pub use value::DynValue;
pub use value::FatalError;
pub use value::Tag;
