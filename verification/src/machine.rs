//! The paused computation: a lowered procedure body executed as a resumable
//! state machine.
//!
//! The machine owns a stack of frames, each a lowered statement list with a
//! position; resuming it runs statements until the body yields a suspension
//! handle or completes. Everything between two yield boundaries runs within
//! one resume call. The external context is handed to each resume call as an
//! argument and never retained across a boundary: ordinary statements and
//! header conditions may read it only through views derived since the latest
//! boundary, and a statement that tries otherwise is a fatal fault.

use vstd::prelude::*;

use crate::lang::Cond;
use crate::lang::MStmt;
use crate::lang::MStmtV;
use crate::lang::SuspendExpr;
use crate::lang::clone_mstmts;
use crate::lang::m_views;
use crate::suspend::SuspensionHandle;
use crate::suspend::spec_next_frame;
use crate::suspend::spec_sleep;
use crate::value::DynValue;
use crate::value::FatalError;

verus! {

/// The external context reference: the bundle of host resources a procedure
/// operates on, supplied fresh by the host each tick and valid only for the
/// duration of that tick's resume call.
#[derive(Debug)]
pub struct Context {
    /// Host-side boolean facts that header conditions read.
    pub flags: Vec<bool>,
    /// The trace of ordinary actions performed through this context.
    pub log: Vec<u64>,
}

/// The mathematical mirror of a context.
#[verifier::ext_equal]
pub struct ContextV {
    pub flags: Seq<bool>,
    pub log: Seq<u64>,
}

impl View for Context {
    type V = ContextV;

    open spec fn view(&self) -> ContextV {
        ContextV { flags: self.flags@, log: self.log@ }
    }
}

/// A condition holds when it is constant true, or names a context flag that
/// is present and set.
pub open spec fn spec_eval_cond(c: Cond, flags: Seq<bool>) -> bool {
    match c {
        Cond::Const(b) => b,
        Cond::Flag(i) => i < flags.len() && flags[i as int],
    }
}

/// Evaluates a header condition against the current context.
pub fn eval_cond(c: &Cond, ctx: &Context) -> (b: bool)
    ensures
        b == spec_eval_cond(*c, ctx@.flags),
{
    match c {
        Cond::Const(b) => *b,
        Cond::Flag(i) => *i < ctx.flags.len() && ctx.flags[*i],
    }
}

/// The handle a yield statement creates at time `now`.
pub open spec fn spec_handle_of(e: SuspendExpr, now: u64) -> SuspensionHandle {
    match e {
        SuspendExpr::Delay { duration } => spec_sleep(duration, now),
        SuspendExpr::NextTick => spec_next_frame(),
        SuspendExpr::Noop => SuspensionHandle::Noop,
        SuspendExpr::Background { work } => SuspensionHandle::Background { work },
    }
}

/// Creates the suspension handle a yield statement describes.
pub fn handle_of(e: &SuspendExpr, now: u64) -> (h: SuspensionHandle)
    ensures
        h == spec_handle_of(*e, now),
{
    match e {
        SuspendExpr::Delay { duration } => crate::suspend::sleep(*duration, now),
        SuspendExpr::NextTick => crate::suspend::next_frame(),
        SuspendExpr::Noop => SuspensionHandle::Noop,
        SuspendExpr::Background { work } => SuspensionHandle::Background { work: *work },
    }
}

/// Whether a frame's statement list runs once, or is a loop body that
/// re-tests its header condition when it ends.
#[derive(Clone, Copy, Debug, PartialEq, Eq, Structural)]
pub enum FrameKind {
    /// Run once, then leave the frame.
    Plain,
    /// Re-test `cond` at the end; run the list again while it holds.
    Loop { cond: Cond },
}

/// One frame of the paused computation: a statement list, the position of
/// the next statement to run, and whether the list is a loop body that
/// re-tests its header condition when it ends.
#[derive(Debug)]
pub struct Frame {
    pub stmts: Vec<MStmt>,
    pub pos: usize,
    pub kind: FrameKind,
}

/// The mathematical mirror of a frame.
#[verifier::ext_equal]
pub struct FrameV {
    pub stmts: Seq<MStmtV>,
    pub pos: int,
    pub kind: FrameKind,
}

impl View for Frame {
    type V = FrameV;

    open spec fn view(&self) -> FrameV {
        FrameV { stmts: m_views(self.stmts@), pos: self.pos as int, kind: self.kind }
    }
}

/// The mirrors of a frame stack, elementwise.
pub open spec fn frame_views(fs: Seq<Frame>) -> Seq<FrameV>
    decreases fs,
{
    if fs.len() == 0 {
        Seq::empty()
    } else {
        frame_views(fs.drop_last()).push(fs.last()@)
    }
}

/// The elementwise mirror has the same length, and mirrors each element.
pub proof fn lemma_frame_views_index(fs: Seq<Frame>)
    ensures
        frame_views(fs).len() == fs.len(),
        forall|i: int| 0 <= i < fs.len() ==> frame_views(fs)[i] == #[trigger] fs[i]@,
    decreases fs,
{
    if fs.len() > 0 {
        lemma_frame_views_index(fs.drop_last());
        let rest = frame_views(fs.drop_last());
        let whole = rest.push(fs.last()@);
        assert(frame_views(fs) == whole);
        assert forall|i: int| 0 <= i < fs.len() implies frame_views(fs)[i] == #[trigger] fs[i]@ by {
            assert(whole[i] == if i < rest.len() {
                rest[i]
            } else {
                fs.last()@
            });
            if i < fs.len() - 1 {
                assert(fs.drop_last()[i] == fs[i]);
            } else {
                assert(fs.last() == fs[i]);
            }
        }
    }
}

/// Mirroring commutes with pushing one frame.
pub proof fn lemma_frame_views_push(fs: Seq<Frame>, f: Frame)
    ensures
        frame_views(fs.push(f)) == frame_views(fs).push(f@),
{
    assert(fs.push(f).drop_last() =~= fs);
    assert(frame_views(fs.push(f)) == frame_views(fs).push(f@));
}

/// Mirroring commutes with dropping the top frame.
pub proof fn lemma_frame_views_pop(fs: Seq<Frame>)
    requires
        fs.len() > 0,
    ensures
        frame_views(fs.drop_last()) == frame_views(fs).drop_last(),
        frame_views(fs).last() == fs.last()@,
{
    lemma_frame_views_index(fs);
    lemma_frame_views_index(fs.drop_last());
    assert(frame_views(fs.drop_last()) =~= frame_views(fs).drop_last());
}

/// The paused computation of one task instance: its frame stack, the locals
/// bound so far, and whether the context views are current.
#[derive(Debug)]
pub struct ExecState {
    pub frames: Vec<Frame>,
    pub locals: Vec<(u64, DynValue)>,
    pub views_ok: bool,
}

/// The mathematical mirror of a paused computation.
#[verifier::ext_equal]
pub struct ExecStateV {
    pub frames: Seq<FrameV>,
    pub locals: Seq<(u64, DynValue)>,
    pub views_ok: bool,
}

impl View for ExecState {
    type V = ExecStateV;

    open spec fn view(&self) -> ExecStateV {
        ExecStateV { frames: frame_views(self.frames@), locals: self.locals@, views_ok: self.views_ok }
    }
}

/// What resuming a paused computation ends with: a fresh suspension handle,
/// or completion of the whole body.
#[derive(Clone, Copy, Debug, PartialEq, Eq, Structural)]
pub enum ResumeOutcome {
    /// The body reached a yield boundary and handed out this suspension.
    Yielded(SuspensionHandle),
    /// The body ran to its end.
    Completed,
}

/// The machine a lowered body starts as: one frame at the body's start, no
/// locals, and no context views derived yet.
pub open spec fn spec_init_state(prog: Seq<MStmtV>) -> ExecStateV {
    ExecStateV {
        frames: seq![FrameV { stmts: prog, pos: 0, kind: FrameKind::Plain }],
        locals: Seq::empty(),
        views_ok: false,
    }
}

impl ExecStateV {
    /// Every frame position stays within its statement list.
    pub open spec fn wf(self) -> bool {
        forall|i: int|
            0 <= i < self.frames.len() ==> 0 <= (#[trigger] self.frames[i]).pos
                <= self.frames[i].stmts.len()
    }

    /// This machine with the top frame advanced past its current statement.
    pub open spec fn advance(self) -> ExecStateV {
        ExecStateV {
            frames: self.frames.update(
                self.frames.len() - 1,
                FrameV { pos: self.frames.last().pos + 1, ..self.frames.last() },
            ),
            ..self
        }
    }

    /// This machine with the top frame removed.
    pub open spec fn pop_frame(self) -> ExecStateV {
        ExecStateV { frames: self.frames.drop_last(), ..self }
    }

    /// This machine with the top frame rewound to the start of its list.
    pub open spec fn rewind_top(self) -> ExecStateV {
        ExecStateV {
            frames: self.frames.update(
                self.frames.len() - 1,
                FrameV { pos: 0, ..self.frames.last() },
            ),
            ..self
        }
    }

    /// This machine with a new frame entered on top.
    pub open spec fn push_frame(self, stmts: Seq<MStmtV>, kind: FrameKind) -> ExecStateV {
        ExecStateV { frames: self.frames.push(FrameV { stmts, pos: 0, kind }), ..self }
    }

    /// This machine with the view flag set.
    pub open spec fn with_views(self, ok: bool) -> ExecStateV {
        ExecStateV { views_ok: ok, ..self }
    }

    /// This machine with a local bound.
    pub open spec fn bind_local(self, var: u64, v: DynValue) -> ExecStateV {
        ExecStateV { locals: self.locals.push((var, v)), ..self }
    }
}


/// Advancing the top frame keeps every frame position in range.
pub proof fn lemma_advance_wf(s: ExecStateV)
    requires
        s.wf(),
        s.frames.len() > 0,
        s.frames.last().pos < s.frames.last().stmts.len(),
    ensures
        s.advance().wf(),
{
    let t = s.advance();
    assert forall|i: int| 0 <= i < t.frames.len() implies 0 <= (#[trigger] t.frames[i]).pos
        <= t.frames[i].stmts.len() by {
        if i < t.frames.len() - 1 {
            assert(t.frames[i] == s.frames[i]);
        }
    }
}

/// Leaving the top frame keeps every frame position in range.
pub proof fn lemma_pop_wf(s: ExecStateV)
    requires
        s.wf(),
        s.frames.len() > 0,
    ensures
        s.pop_frame().wf(),
{
    let t = s.pop_frame();
    assert forall|i: int| 0 <= i < t.frames.len() implies 0 <= (#[trigger] t.frames[i]).pos
        <= t.frames[i].stmts.len() by {
        assert(t.frames[i] == s.frames[i]);
    }
}

/// Rewinding the top frame keeps every frame position in range.
pub proof fn lemma_rewind_wf(s: ExecStateV)
    requires
        s.wf(),
        s.frames.len() > 0,
    ensures
        s.rewind_top().wf(),
{
    let t = s.rewind_top();
    assert forall|i: int| 0 <= i < t.frames.len() implies 0 <= (#[trigger] t.frames[i]).pos
        <= t.frames[i].stmts.len() by {
        if i < t.frames.len() - 1 {
            assert(t.frames[i] == s.frames[i]);
        }
    }
}

/// Entering a new frame keeps every frame position in range.
pub proof fn lemma_push_wf(s: ExecStateV, stmts: Seq<MStmtV>, kind: FrameKind)
    requires
        s.wf(),
    ensures
        s.push_frame(stmts, kind).wf(),
{
    let t = s.push_frame(stmts, kind);
    assert forall|i: int| 0 <= i < t.frames.len() implies 0 <= (#[trigger] t.frames[i]).pos
        <= t.frames[i].stmts.len() by {
        if i < t.frames.len() - 1 {
            assert(t.frames[i] == s.frames[i]);
        }
    }
}

/// One resume of the machine, mathematically: runs statements until the body
/// yields, completes, faults, or exhausts the step budget. Returns the
/// machine and context after the resume and how it ended.
pub open spec fn spec_resume(
    s: ExecStateV,
    c: ContextV,
    inp: Option<DynValue>,
    now: u64,
    fuel: nat,
) -> Result<(ExecStateV, ContextV, ResumeOutcome), FatalError>
    decreases fuel,
{
    if s.frames.len() == 0 {
        Ok((s, c, ResumeOutcome::Completed))
    } else if fuel == 0 {
        Err(FatalError::StepLimit)
    } else {
        let fr = s.frames.last();
        if fr.pos >= fr.stmts.len() {
            match fr.kind {
                FrameKind::Plain => spec_resume(s.pop_frame(), c, inp, now, (fuel - 1) as nat),
                FrameKind::Loop { cond } => if !s.views_ok {
                    Err(FatalError::StaleViews)
                } else if spec_eval_cond(cond, c.flags) {
                    spec_resume(s.rewind_top(), c, inp, now, (fuel - 1) as nat)
                } else {
                    spec_resume(s.pop_frame(), c, inp, now, (fuel - 1) as nat)
                },
            }
        } else {
            match fr.stmts[fr.pos] {
                MStmtV::BindViews => spec_resume(
                    s.advance().with_views(true),
                    c,
                    inp,
                    now,
                    (fuel - 1) as nat,
                ),
                MStmtV::Run { action } => if !s.views_ok {
                    Err(FatalError::StaleViews)
                } else {
                    spec_resume(
                        s.advance(),
                        ContextV { log: c.log.push(action), ..c },
                        inp,
                        now,
                        (fuel - 1) as nat,
                    )
                },
                MStmtV::Yield { expr } => Ok(
                    (
                        s.advance().with_views(false),
                        c,
                        ResumeOutcome::Yielded(spec_handle_of(expr, now)),
                    ),
                ),
                MStmtV::BindResult { var, expected } => match inp {
                    Option::None => Err(FatalError::MissingResult),
                    Option::Some(v) => if v.tag() != expected {
                        Err(FatalError::TypeMismatch { expected, found: v.tag() })
                    } else {
                        spec_resume(
                            s.advance().bind_local(var, v),
                            c,
                            Option::None,
                            now,
                            (fuel - 1) as nat,
                        )
                    },
                },
                MStmtV::DiscardResult => spec_resume(
                    s.advance(),
                    c,
                    Option::None,
                    now,
                    (fuel - 1) as nat,
                ),
                MStmtV::Block { body } => spec_resume(
                    s.advance().push_frame(body, FrameKind::Plain),
                    c,
                    inp,
                    now,
                    (fuel - 1) as nat,
                ),
                MStmtV::If { cond, then_body, else_body } => if !s.views_ok {
                    Err(FatalError::StaleViews)
                } else {
                    spec_resume(
                        s.advance().push_frame(
                            if spec_eval_cond(cond, c.flags) {
                                then_body
                            } else {
                                else_body
                            },
                            FrameKind::Plain,
                        ),
                        c,
                        inp,
                        now,
                        (fuel - 1) as nat,
                    )
                },
                MStmtV::While { cond, body } => if !s.views_ok {
                    Err(FatalError::StaleViews)
                } else if spec_eval_cond(cond, c.flags) {
                    spec_resume(
                        s.advance().push_frame(body, FrameKind::Loop { cond }),
                        c,
                        inp,
                        now,
                        (fuel - 1) as nat,
                    )
                } else {
                    spec_resume(s.advance(), c, inp, now, (fuel - 1) as nat)
                },
            }
        }
    }
}

impl ExecState {
    /// Builds the paused computation for a lowered body, positioned before
    /// its first statement.
    pub fn init(program: &Vec<MStmt>) -> (s: ExecState)
        ensures
            s@ == spec_init_state(m_views(program@)),
            s@.wf(),
    {
        let mut frames: Vec<Frame> = Vec::new();
        frames.push(Frame { stmts: clone_mstmts(program), pos: 0, kind: FrameKind::Plain });
        let s = ExecState { frames, locals: Vec::new(), views_ok: false };
        proof {
            crate::lang::lemma_m_views_index(program@);
            reveal_with_fuel(frame_views, 2);
            assert(frame_views(s.frames@) =~= spec_init_state(m_views(program@)).frames);
            assert(s@ =~= spec_init_state(m_views(program@)));
        }
        s
    }

    /// The value bound to a local by the latest binding, if any.
    pub open spec fn spec_local(locals: Seq<(u64, DynValue)>, var: u64) -> Option<DynValue>
        decreases locals,
    {
        if locals.len() == 0 {
            Option::None
        } else if locals.last().0 == var {
            Option::Some(locals.last().1)
        } else {
            Self::spec_local(locals.drop_last(), var)
        }
    }

    /// Reads the value bound to a local, if any: the latest binding wins.
    pub fn local(&self, var: u64) -> (r: Option<DynValue>)
        ensures
            r == Self::spec_local(self@.locals, var),
    {
        let mut i: usize = self.locals.len();
        proof {
            assert(self@.locals.subrange(0, self@.locals.len() as int) =~= self@.locals);
        }
        while i > 0
            invariant
                i <= self.locals.len(),
                Self::spec_local(self@.locals, var) == Self::spec_local(
                    self@.locals.subrange(0, i as int),
                    var,
                ),
            decreases i,
        {
            i = i - 1;
            let (name, v) = &self.locals[i];
            proof {
                assert(self@.locals.subrange(0, i + 1).last() == self@.locals[i as int]);
                assert(self@.locals.subrange(0, i + 1).drop_last() =~= self@.locals.subrange(
                    0,
                    i as int,
                ));
            }
            if *name == var {
                return Some(v.clone());
            }
        }
        proof {
            assert(self@.locals.subrange(0, 0) =~= Seq::<(u64, DynValue)>::empty());
        }
        None
    }
}


/// Resumes the paused computation with the transient input envelope: runs
/// statements until the body yields a suspension handle, completes, faults,
/// or exhausts the per-resume step budget `fuel`. The machine and context
/// after the call, and the outcome, are exactly what `spec_resume` says.
pub fn resume(
    state: &mut ExecState,
    ctx: &mut Context,
    input: crate::value::CoroutineTaskInput,
    now: u64,
    fuel: u64,
) -> (r: Result<ResumeOutcome, FatalError>)
    requires
        old(state)@.wf(),
    ensures
        match spec_resume(old(state)@, old(ctx)@, input.async_result, now, fuel as nat) {
            Ok((s2, c2, out)) => final(state)@ == s2 && final(ctx)@ == c2 && final(state)@.wf()
                && r == Ok::<ResumeOutcome, FatalError>(out),
            Err(e) => r == Err::<ResumeOutcome, FatalError>(e),
        },
{
    let ghost s0 = state@;
    let ghost c0 = ctx@;
    let ghost inp0 = input.async_result;
    let mut inp: Option<DynValue> = input.async_result;
    let mut fuel_left: u64 = fuel;
    loop
        invariant
            state@.wf(),
            spec_resume(state@, ctx@, inp, now, fuel_left as nat) == spec_resume(
                s0,
                c0,
                inp0,
                now,
                fuel as nat,
            ),
            s0 == old(state)@,
            c0 == old(ctx)@,
            inp0 == input.async_result,
        decreases fuel_left,
    {
        let ghost pre_s = state@;
        let ghost pre_c = ctx@;
        let ghost pre_inp = inp;
        let ghost pre_fuel = fuel_left;
        if state.frames.len() == 0 {
            proof {
                assert(pre_s.frames.len() == 0) by {
                    lemma_frame_views_index(state.frames@);
                }
            }
            return Ok(ResumeOutcome::Completed);
        }
        proof {
            lemma_frame_views_index(state.frames@);
            assert(pre_s.frames.len() > 0);
        }
        if fuel_left == 0 {
            return Err(FatalError::StepLimit);
        }
        let ghost pre_frames = state.frames@;
        let mut fr = state.frames.pop().unwrap();
        proof {
            lemma_frame_views_pop(pre_frames);
            assert(fr@ == pre_s.frames.last());
            assert(frame_views(state.frames@) == pre_s.frames.drop_last());
        }
        let ghost frv = fr@;
        proof {
            crate::lang::lemma_m_views_index(fr.stmts@);
            assert(frv.pos <= frv.stmts.len());
        }
        if fr.pos >= fr.stmts.len() {
            match fr.kind {
                FrameKind::Plain => {
                    proof {
                        assert(state@ =~= pre_s.pop_frame());
                        lemma_pop_wf(pre_s);
                    }
                },
                FrameKind::Loop { cond } => {
                    if !state.views_ok {
                        proof {
                            assert(spec_resume(s0, c0, inp0, now, fuel as nat) == Err::<
                                (ExecStateV, ContextV, ResumeOutcome),
                                FatalError,
                            >(FatalError::StaleViews));
                        }
                        return Err(FatalError::StaleViews);
                    }
                    if eval_cond(&cond, ctx) {
                        fr.pos = 0;
                        state.frames.push(fr);
                        proof {
                            lemma_frame_views_push(pre_frames.drop_last(), fr);
                            assert(pre_s.rewind_top().frames =~= pre_s.frames.drop_last().push(
                                FrameV { pos: 0, ..pre_s.frames.last() },
                            ));
                            assert(state@ =~= pre_s.rewind_top());
                            lemma_rewind_wf(pre_s);
                        }
                    } else {
                        proof {
                            assert(state@ =~= pre_s.pop_frame());
                            lemma_pop_wf(pre_s);
                        }
                    }
                },
            }
        } else {
            proof {
                assert(frv.stmts[frv.pos] == fr.stmts@[fr.pos as int]@);
            }
            let pos = fr.pos;
            match &fr.stmts[pos] {
                MStmt::BindViews => {
                    fr.pos = pos + 1;
                    state.frames.push(fr);
                    state.views_ok = true;
                    proof {
                        lemma_frame_views_push(pre_frames.drop_last(), fr);
                        assert(pre_s.advance().with_views(true).frames =~= pre_s
                            .frames
                            .drop_last()
                            .push(FrameV { pos: frv.pos + 1, ..frv }));
                        assert(state@ =~= pre_s.advance().with_views(true));
                        lemma_advance_wf(pre_s);
                    }
                },
                MStmt::Run { action } => {
                    if !state.views_ok {
                        proof {
                            assert(spec_resume(s0, c0, inp0, now, fuel as nat) == Err::<
                                (ExecStateV, ContextV, ResumeOutcome),
                                FatalError,
                            >(FatalError::StaleViews));
                        }
                        return Err(FatalError::StaleViews);
                    }
                    let a = *action;
                    ctx.log.push(a);
                    fr.pos = pos + 1;
                    state.frames.push(fr);
                    proof {
                        lemma_frame_views_push(pre_frames.drop_last(), fr);
                        assert(pre_s.advance().frames =~= pre_s.frames.drop_last().push(
                            FrameV { pos: frv.pos + 1, ..frv },
                        ));
                        assert(state@ =~= pre_s.advance());
                        assert(ctx@ =~= ContextV { log: pre_c.log.push(a), ..pre_c });
                        lemma_advance_wf(pre_s);
                    }
                },
                MStmt::Yield { expr } => {
                    let h = handle_of(expr, now);
                    fr.pos = pos + 1;
                    state.frames.push(fr);
                    state.views_ok = false;
                    proof {
                        lemma_frame_views_push(pre_frames.drop_last(), fr);
                        assert(pre_s.advance().with_views(false).frames =~= pre_s
                            .frames
                            .drop_last()
                            .push(FrameV { pos: frv.pos + 1, ..frv }));
                        assert(state@ =~= pre_s.advance().with_views(false));
                        lemma_advance_wf(pre_s);
                        assert(state@.wf());
                    }
                    return Ok(ResumeOutcome::Yielded(h));
                },
                MStmt::BindResult { var, expected } => {
                    let var = *var;
                    let expected = *expected;
                    let cur = inp;
                    inp = None;
                    match cur {
                        None => {
                            proof {
                                assert(spec_resume(s0, c0, inp0, now, fuel as nat) == Err::<
                                    (ExecStateV, ContextV, ResumeOutcome),
                                    FatalError,
                                >(FatalError::MissingResult));
                            }
                            return Err(FatalError::MissingResult);
                        },
                        Some(v) => {
                            let found = v.tag_of();
                            if found != expected {
                                proof {
                                    assert(spec_resume(s0, c0, inp0, now, fuel as nat) == Err::<
                                        (ExecStateV, ContextV, ResumeOutcome),
                                        FatalError,
                                    >(FatalError::TypeMismatch { expected, found }));
                                }
                                return Err(FatalError::TypeMismatch { expected, found });
                            }
                            state.locals.push((var, v));
                            fr.pos = pos + 1;
                            state.frames.push(fr);
                            proof {
                                lemma_frame_views_push(pre_frames.drop_last(), fr);
                                let succ = pre_s.advance().bind_local(var, pre_inp->0);
                                assert(succ.frames =~= pre_s.frames.drop_last().push(
                                    FrameV { pos: frv.pos + 1, ..frv },
                                ));
                                assert(state@ =~= succ);
                                lemma_advance_wf(pre_s);
                            }
                        },
                    }
                },
                MStmt::DiscardResult => {
                    inp = None;
                    fr.pos = pos + 1;
                    state.frames.push(fr);
                    proof {
                        lemma_frame_views_push(pre_frames.drop_last(), fr);
                        assert(pre_s.advance().frames =~= pre_s.frames.drop_last().push(
                            FrameV { pos: frv.pos + 1, ..frv },
                        ));
                        assert(state@ =~= pre_s.advance());
                        lemma_advance_wf(pre_s);
                    }
                },
                MStmt::Block { body } => {
                    let sub = clone_mstmts(body);
                    fr.pos = pos + 1;
                    state.frames.push(fr);
                    let ghost mid_frames = state.frames@;
                    state.frames.push(Frame { stmts: sub, pos: 0, kind: FrameKind::Plain });
                    proof {
                        lemma_frame_views_push(pre_frames.drop_last(), fr);
                        lemma_frame_views_push(mid_frames, state.frames@.last());
                        let succ = pre_s.advance().push_frame(
                            frv.stmts[frv.pos]->Block_body,
                            FrameKind::Plain,
                        );
                        assert(succ.frames =~= pre_s.frames.drop_last().push(
                            FrameV { pos: frv.pos + 1, ..frv },
                        ).push(
                            FrameV {
                                stmts: frv.stmts[frv.pos]->Block_body,
                                pos: 0,
                                kind: FrameKind::Plain,
                            },
                        ));
                        assert(state@ =~= succ);
                        lemma_advance_wf(pre_s);
                        lemma_push_wf(pre_s.advance(), frv.stmts[frv.pos]->Block_body, FrameKind::Plain);
                    }
                },
                MStmt::If { cond, then_body, else_body } => {
                    if !state.views_ok {
                        proof {
                            assert(spec_resume(s0, c0, inp0, now, fuel as nat) == Err::<
                                (ExecStateV, ContextV, ResumeOutcome),
                                FatalError,
                            >(FatalError::StaleViews));
                        }
                        return Err(FatalError::StaleViews);
                    }
                    let c = *cond;
                    let taken = eval_cond(&c, ctx);
                    let sub = if taken {
                        clone_mstmts(then_body)
                    } else {
                        clone_mstmts(else_body)
                    };
                    fr.pos = pos + 1;
                    state.frames.push(fr);
                    let ghost mid_frames = state.frames@;
                    state.frames.push(Frame { stmts: sub, pos: 0, kind: FrameKind::Plain });
                    proof {
                        lemma_frame_views_push(pre_frames.drop_last(), fr);
                        lemma_frame_views_push(mid_frames, state.frames@.last());
                        let chosen = if spec_eval_cond(c, pre_c.flags) {
                            frv.stmts[frv.pos]->If_then_body
                        } else {
                            frv.stmts[frv.pos]->If_else_body
                        };
                        let succ = pre_s.advance().push_frame(chosen, FrameKind::Plain);
                        assert(succ.frames =~= pre_s.frames.drop_last().push(
                            FrameV { pos: frv.pos + 1, ..frv },
                        ).push(FrameV { stmts: chosen, pos: 0, kind: FrameKind::Plain }));
                        assert(state@ =~= succ);
                        lemma_advance_wf(pre_s);
                        lemma_push_wf(pre_s.advance(), chosen, FrameKind::Plain);
                    }
                },
                MStmt::While { cond, body } => {
                    if !state.views_ok {
                        proof {
                            assert(spec_resume(s0, c0, inp0, now, fuel as nat) == Err::<
                                (ExecStateV, ContextV, ResumeOutcome),
                                FatalError,
                            >(FatalError::StaleViews));
                        }
                        return Err(FatalError::StaleViews);
                    }
                    let c = *cond;
                    if eval_cond(&c, ctx) {
                        let sub = clone_mstmts(body);
                        fr.pos = pos + 1;
                        state.frames.push(fr);
                        let ghost mid_frames = state.frames@;
                        state.frames.push(
                            Frame { stmts: sub, pos: 0, kind: FrameKind::Loop { cond: c } },
                        );
                        proof {
                            lemma_frame_views_push(pre_frames.drop_last(), fr);
                            lemma_frame_views_push(mid_frames, state.frames@.last());
                            let succ = pre_s.advance().push_frame(
                                frv.stmts[frv.pos]->While_body,
                                FrameKind::Loop { cond: c },
                            );
                            assert(succ.frames =~= pre_s.frames.drop_last().push(
                                FrameV { pos: frv.pos + 1, ..frv },
                            ).push(
                                FrameV {
                                    stmts: frv.stmts[frv.pos]->While_body,
                                    pos: 0,
                                    kind: FrameKind::Loop { cond: c },
                                },
                            ));
                            assert(state@ =~= succ);
                            lemma_advance_wf(pre_s);
                            lemma_push_wf(
                                pre_s.advance(),
                                frv.stmts[frv.pos]->While_body,
                                FrameKind::Loop { cond: c },
                            );
                        }
                    } else {
                        fr.pos = pos + 1;
                        state.frames.push(fr);
                        proof {
                            lemma_frame_views_push(pre_frames.drop_last(), fr);
                            assert(pre_s.advance().frames =~= pre_s.frames.drop_last().push(
                                FrameV { pos: frv.pos + 1, ..frv },
                            ));
                            assert(state@ =~= pre_s.advance());
                            lemma_advance_wf(pre_s);
                        }
                    }
                },
            }
        }
        fuel_left = fuel_left - 1;
        proof {
            assert(spec_resume(state@, ctx@, inp, now, fuel_left as nat) == spec_resume(
                s0,
                c0,
                inp0,
                now,
                fuel as nat,
            ));
        }
    }
}

} // verus!
