//! The view-discipline safety of rewritten bodies.
//!
//! The machine faults with a stale-views error whenever a statement reads
//! the external context through views that were not re-derived after the
//! latest resume boundary. This module proves that a body produced by the
//! transformation engine can never raise that fault: the resume discipline
//! the engine establishes — views derived at the start, and re-derived
//! immediately after every yield boundary — is an invariant of the machine,
//! across any number of resumes and ticks.

use vstd::prelude::*;

use crate::lang::MStmtV;
use crate::machine::ContextV;
use crate::machine::ExecStateV;
use crate::machine::FrameKind;
use crate::machine::FrameV;
use crate::machine::ResumeOutcome;
use crate::machine::lemma_advance_wf;
use crate::machine::lemma_pop_wf;
use crate::machine::lemma_push_wf;
use crate::machine::lemma_rewind_wf;
use crate::machine::spec_resume;
use crate::transform::consumes_result;
use crate::transform::rebinds_after_yields;
use crate::value::DynValue;
use crate::value::FatalError;

verus! {

/// The statements of a frame that are still to run.
pub open spec fn remaining(f: FrameV) -> Seq<MStmtV> {
    f.stmts.subrange(f.pos, f.stmts.len() as int)
}

/// A frame is view-safe when its remaining statements obey the resume
/// discipline, and, for a loop body, the whole list does, since the loop
/// rewinds to its start.
pub open spec fn frame_safe(f: FrameV) -> bool {
    &&& rebinds_after_yields(remaining(f))
    &&& (f.kind matches FrameKind::Loop { .. } ==> rebinds_after_yields(f.stmts))
}

/// The machine states in which the context views are always re-derived
/// before use: every frame is view-safe, and while the views are stale the
/// top frame's next statement re-derives them, or consumes a resolved
/// result and then re-derives them.
pub open spec fn views_inv(s: ExecStateV) -> bool {
    &&& forall|i: int| 0 <= i < s.frames.len() ==> frame_safe(#[trigger] s.frames[i])
    &&& (!s.views_ok && s.frames.len() > 0 ==> {
        let suf = remaining(s.frames.last());
        &&& suf.len() > 0
        &&& (suf[0] is BindViews || (consumes_result(suf[0]) && suf.len() > 1 && suf[1]
            is BindViews))
    })
}

/// Dropping a leading non-yield statement keeps the resume discipline, and
/// a leading compound statement has disciplined nested lists.
proof fn lemma_rebinds_tail(suf: Seq<MStmtV>)
    requires
        rebinds_after_yields(suf),
        suf.len() > 0,
        !(suf[0] is Yield),
    ensures
        rebinds_after_yields(suf.drop_first()),
        suf[0] matches MStmtV::Block { body } ==> rebinds_after_yields(body),
        suf[0] matches MStmtV::If { then_body, else_body, .. } ==> rebinds_after_yields(then_body)
            && rebinds_after_yields(else_body),
        suf[0] matches MStmtV::While { body, .. } ==> rebinds_after_yields(body),
{
}

/// Dropping a leading yield keeps the resume discipline: the consumer and
/// the re-derivation that follow it are themselves disciplined statements.
proof fn lemma_rebinds_tail_yield(suf: Seq<MStmtV>)
    requires
        rebinds_after_yields(suf),
        suf.len() > 0,
        suf[0] is Yield,
    ensures
        suf.len() >= 3,
        consumes_result(suf[1]),
        suf[2] is BindViews,
        rebinds_after_yields(suf.drop_first()),
{
    let d = suf.drop_first();
    assert(d[0] == suf[1]);
    assert(d.drop_first() =~= suf.subrange(2, suf.len() as int));
    let dd = suf.subrange(2, suf.len() as int);
    assert(dd[0] == suf[2]);
    assert(dd.drop_first() =~= suf.subrange(3, suf.len() as int));
    assert(rebinds_after_yields(dd));
    assert(rebinds_after_yields(d));
}

/// The remaining statements of an advanced frame are the tail of those of
/// the frame itself.
proof fn lemma_remaining_advance(f: FrameV)
    requires
        0 <= f.pos < f.stmts.len(),
    ensures
        remaining(FrameV { pos: f.pos + 1, ..f }) =~= remaining(f).drop_first(),
        remaining(f).len() > 0,
        remaining(f)[0] == f.stmts[f.pos],
{
}


/// Replacing the top frame with a safe frame keeps every frame safe.
proof fn lemma_update_top_safe(s: ExecStateV, f2: FrameV)
    requires
        s.frames.len() > 0,
        forall|i: int| 0 <= i < s.frames.len() ==> frame_safe(#[trigger] s.frames[i]),
        frame_safe(f2),
    ensures
        forall|i: int|
            0 <= i < s.frames.len() ==> frame_safe(
                #[trigger] s.frames.update(s.frames.len() - 1, f2)[i],
            ),
{
    let u = s.frames.update(s.frames.len() - 1, f2);
    assert forall|i: int| 0 <= i < s.frames.len() implies frame_safe(#[trigger] u[i]) by {
        if i < s.frames.len() - 1 {
            assert(u[i] == s.frames[i]);
        } else {
            assert(u[i] == f2);
        }
    }
}

/// Entering a safe frame on top keeps every frame safe.
proof fn lemma_push_safe(fs: Seq<FrameV>, f2: FrameV)
    requires
        forall|i: int| 0 <= i < fs.len() ==> frame_safe(#[trigger] fs[i]),
        frame_safe(f2),
    ensures
        forall|i: int| 0 <= i < fs.push(f2).len() ==> frame_safe(#[trigger] fs.push(f2)[i]),
{
    let u = fs.push(f2);
    assert forall|i: int| 0 <= i < u.len() implies frame_safe(#[trigger] u[i]) by {
        if i < fs.len() {
            assert(u[i] == fs[i]);
        } else {
            assert(u[i] == f2);
        }
    }
}

/// Leaving the top frame keeps every frame safe.
proof fn lemma_drop_safe(fs: Seq<FrameV>)
    requires
        fs.len() > 0,
        forall|i: int| 0 <= i < fs.len() ==> frame_safe(#[trigger] fs[i]),
    ensures
        forall|i: int| 0 <= i < fs.drop_last().len() ==> frame_safe(#[trigger] fs.drop_last()[i]),
{
    assert forall|i: int| 0 <= i < fs.drop_last().len() implies frame_safe(
        #[trigger] fs.drop_last()[i],
    ) by {
        assert(fs.drop_last()[i] == fs[i]);
    }
}

/// Law (the machine half): from a view-safe machine state, one resume never
/// raises the stale-views fault, and whenever it yields or completes it
/// leaves a view-safe machine behind for the next resume.
pub proof fn lemma_resume_no_stale_views(
    s: ExecStateV,
    c: ContextV,
    inp: Option<DynValue>,
    now: u64,
    fuel: nat,
)
    requires
        s.wf(),
        views_inv(s),
    ensures
        spec_resume(s, c, inp, now, fuel) != Err::<
            (ExecStateV, ContextV, ResumeOutcome),
            FatalError,
        >(FatalError::StaleViews),
        spec_resume(s, c, inp, now, fuel) matches Ok(r) ==> r.0.wf() && views_inv(r.0),
    decreases fuel,
{
    if s.frames.len() == 0 || fuel == 0 {
        // completion keeps the state as it is; an exhausted step budget is
        // its own fault, not a stale view
    } else {
        let fr = s.frames.last();
        assert(fr == s.frames[s.frames.len() - 1]);
        assert(frame_safe(fr));
        assert(0 <= fr.pos <= fr.stmts.len());
        if fr.pos >= fr.stmts.len() {
            // at the end of a frame the views cannot be stale: a stale-view
            // state still has its re-derivation ahead of it
            assert(remaining(fr).len() == 0);
            assert(s.views_ok);
            match fr.kind {
                FrameKind::Plain => {
                    lemma_pop_wf(s);
                    lemma_drop_safe(s.frames);
                    lemma_resume_no_stale_views(s.pop_frame(), c, inp, now, (fuel - 1) as nat);
                },
                FrameKind::Loop { cond } => {
                    if crate::machine::spec_eval_cond(cond, c.flags) {
                        let f2 = FrameV { pos: 0, ..fr };
                        assert(remaining(f2) =~= fr.stmts);
                        assert(frame_safe(f2));
                        lemma_rewind_wf(s);
                        lemma_update_top_safe(s, f2);
                        lemma_resume_no_stale_views(
                            s.rewind_top(),
                            c,
                            inp,
                            now,
                            (fuel - 1) as nat,
                        );
                    } else {
                        lemma_pop_wf(s);
                        lemma_drop_safe(s.frames);
                        lemma_resume_no_stale_views(s.pop_frame(), c, inp, now, (fuel - 1) as nat);
                    }
                },
            }
        } else {
            lemma_remaining_advance(fr);
            let suf = remaining(fr);
            let f2 = FrameV { pos: fr.pos + 1, ..fr };
            assert(remaining(f2) =~= suf.drop_first());
            assert(suf[0] == fr.stmts[fr.pos]);
            lemma_advance_wf(s);
            match fr.stmts[fr.pos] {
                MStmtV::BindViews => {
                    lemma_rebinds_tail(suf);
                    assert(frame_safe(f2));
                    lemma_update_top_safe(s, f2);
                    let s2 = s.advance().with_views(true);
                    assert(views_inv(s2));
                    lemma_resume_no_stale_views(s2, c, inp, now, (fuel - 1) as nat);
                },
                MStmtV::Run { action } => {
                    // a stale-view state has a re-derivation or a consumer
                    // next, never an ordinary action
                    assert(s.views_ok);
                    lemma_rebinds_tail(suf);
                    assert(frame_safe(f2));
                    lemma_update_top_safe(s, f2);
                    let s2 = s.advance();
                    assert(views_inv(s2));
                    lemma_resume_no_stale_views(
                        s2,
                        ContextV { log: c.log.push(action), ..c },
                        inp,
                        now,
                        (fuel - 1) as nat,
                    );
                },
                MStmtV::Yield { .. } => {
                    lemma_rebinds_tail_yield(suf);
                    assert(frame_safe(f2));
                    lemma_update_top_safe(s, f2);
                    let s2 = s.advance().with_views(false);
                    assert(s2.frames.last() == f2);
                    assert(remaining(f2)[0] == suf[1]);
                    assert(remaining(f2)[1] == suf[2]);
                    assert(views_inv(s2));
                },
                MStmtV::BindResult { var, expected } => {
                    match inp {
                        Option::None => {},
                        Option::Some(v) => {
                            if v.tag() == expected {
                                lemma_rebinds_tail(suf);
                                assert(frame_safe(f2));
                                lemma_update_top_safe(s, f2);
                                if !s.views_ok {
                                    assert(consumes_result(suf[0]));
                                    assert(suf[1] is BindViews);
                                    assert(remaining(f2)[0] == suf[1]);
                                }
                                // the binding leaves the frames as the
                                // advance left them, whatever local it wrote
                                let s2 = s.advance().bind_local(var, v);
                                assert(s2.frames == s.advance().frames);
                                assert(views_inv(s2));
                                lemma_resume_no_stale_views(
                                    s2,
                                    c,
                                    Option::None,
                                    now,
                                    (fuel - 1) as nat,
                                );
                            }
                        },
                    }
                },
                MStmtV::DiscardResult => {
                    lemma_rebinds_tail(suf);
                    assert(frame_safe(f2));
                    lemma_update_top_safe(s, f2);
                    let s2 = s.advance();
                    if !s.views_ok {
                        assert(consumes_result(suf[0]));
                        assert(remaining(f2)[0] == suf[1]);
                    }
                    assert(views_inv(s2));
                    lemma_resume_no_stale_views(s2, c, Option::None, now, (fuel - 1) as nat);
                },
                MStmtV::Block { body } => {
                    assert(s.views_ok);
                    lemma_rebinds_tail(suf);
                    assert(frame_safe(f2));
                    lemma_update_top_safe(s, f2);
                    let nf = FrameV { stmts: body, pos: 0, kind: FrameKind::Plain };
                    assert(remaining(nf) =~= body);
                    assert(frame_safe(nf));
                    lemma_push_safe(s.advance().frames, nf);
                    lemma_push_wf(s.advance(), body, FrameKind::Plain);
                    let s2 = s.advance().push_frame(body, FrameKind::Plain);
                    assert(views_inv(s2));
                    lemma_resume_no_stale_views(s2, c, inp, now, (fuel - 1) as nat);
                },
                MStmtV::If { cond, then_body, else_body } => {
                    assert(s.views_ok);
                    lemma_rebinds_tail(suf);
                    assert(frame_safe(f2));
                    lemma_update_top_safe(s, f2);
                    let chosen = if crate::machine::spec_eval_cond(cond, c.flags) {
                        then_body
                    } else {
                        else_body
                    };
                    let nf = FrameV { stmts: chosen, pos: 0, kind: FrameKind::Plain };
                    assert(remaining(nf) =~= chosen);
                    assert(frame_safe(nf));
                    lemma_push_safe(s.advance().frames, nf);
                    lemma_push_wf(s.advance(), chosen, FrameKind::Plain);
                    let s2 = s.advance().push_frame(chosen, FrameKind::Plain);
                    assert(views_inv(s2));
                    lemma_resume_no_stale_views(s2, c, inp, now, (fuel - 1) as nat);
                },
                MStmtV::While { cond, body } => {
                    assert(s.views_ok);
                    lemma_rebinds_tail(suf);
                    assert(frame_safe(f2));
                    lemma_update_top_safe(s, f2);
                    if crate::machine::spec_eval_cond(cond, c.flags) {
                        let nf = FrameV { stmts: body, pos: 0, kind: FrameKind::Loop { cond } };
                        assert(remaining(nf) =~= body);
                        assert(frame_safe(nf));
                        lemma_push_safe(s.advance().frames, nf);
                        lemma_push_wf(s.advance(), body, FrameKind::Loop { cond });
                        let s2 = s.advance().push_frame(body, FrameKind::Loop { cond });
                        assert(views_inv(s2));
                        lemma_resume_no_stale_views(s2, c, inp, now, (fuel - 1) as nat);
                    } else {
                        let s2 = s.advance();
                        assert(views_inv(s2));
                        lemma_resume_no_stale_views(s2, c, inp, now, (fuel - 1) as nat);
                    }
                },
            }
        }
    }
}


/// A task whose paused computation, if any, is a well-formed, view-safe
/// machine.
pub open spec fn task_views_inv(t: crate::driver::CoroutineTaskV) -> bool {
    t.coroutine matches Option::Some(sv) ==> sv.wf() && views_inv(sv)
}

/// The resume step of a driver tick raises no stale-views fault and keeps
/// the task view-safe.
proof fn lemma_drive_resume_no_stale(
    t: crate::driver::CoroutineTaskV,
    c: ContextV,
    inp: Option<DynValue>,
    now: u64,
    bg: crate::suspend::BackgroundStatus,
    fuel: nat,
    budget: nat,
)
    requires
        task_views_inv(t),
    ensures
        crate::driver::spec_drive_resume(t, c, inp, now, bg, fuel, budget) != Err::<
            (crate::driver::CoroutineTaskV, ContextV, crate::driver::DriveOutcome),
            FatalError,
        >(FatalError::StaleViews),
        crate::driver::spec_drive_resume(t, c, inp, now, bg, fuel, budget) matches Ok(r)
            ==> task_views_inv(r.0),
    decreases budget, 0int,
{
    if t.coroutine is Some {
        let sv = t.coroutine->0;
        lemma_resume_no_stale_views(sv, c, inp, now, fuel);
        match spec_resume(sv, c, inp, now, fuel) {
            Err(e) => {},
            Ok((s2, c2, ResumeOutcome::Completed)) => {},
            Ok((s2, c2, ResumeOutcome::Yielded(h))) => {
                let t2 = crate::driver::CoroutineTaskV {
                    coroutine: Option::Some(s2),
                    fut: Option::Some(h),
                };
                if budget > 0 {
                    lemma_drive_loop_no_stale(t2, c2, now, bg, fuel, (budget - 1) as nat);
                }
            },
        }
    }
}

/// The poll/resume loop of a driver tick raises no stale-views fault and
/// keeps the task view-safe.
proof fn lemma_drive_loop_no_stale(
    t: crate::driver::CoroutineTaskV,
    c: ContextV,
    now: u64,
    bg: crate::suspend::BackgroundStatus,
    fuel: nat,
    budget: nat,
)
    requires
        task_views_inv(t),
    ensures
        crate::driver::spec_drive_loop(t, c, now, bg, fuel, budget) != Err::<
            (crate::driver::CoroutineTaskV, ContextV, crate::driver::DriveOutcome),
            FatalError,
        >(FatalError::StaleViews),
        crate::driver::spec_drive_loop(t, c, now, bg, fuel, budget) matches Ok(r)
            ==> task_views_inv(r.0),
    decreases budget, 1int,
{
    match t.fut {
        Option::None => {
            lemma_drive_resume_no_stale(t, c, Option::None, now, bg, fuel, budget);
        },
        Option::Some(h) => {
            match crate::suspend::spec_poll(h, now, bg) {
                Err(e) => {
                    assert(e == FatalError::BackgroundFailure);
                },
                Ok((h2, crate::suspend::PollOutcome::Pending)) => {},
                Ok((h2, crate::suspend::PollOutcome::Ready(v))) => {
                    let t2 = crate::driver::CoroutineTaskV { fut: Option::None, ..t };
                    lemma_drive_resume_no_stale(t2, c, Option::Some(v), now, bg, fuel, budget);
                },
            }
        },
    }
}

/// A machine built afresh from a body the engine rewrote is well formed and
/// view-safe: the rewritten body derives its views before anything else.
pub proof fn lemma_transformed_init_safe(src: Seq<crate::lang::SrcStmtV>)
    ensures
        crate::machine::spec_init_state(crate::transform::spec_transform_body(src)).wf(),
        views_inv(crate::machine::spec_init_state(crate::transform::spec_transform_body(src))),
{
    crate::transform::lemma_transform_body_rebinds(src);
    let prog = crate::transform::spec_transform_body(src);
    let s = crate::machine::spec_init_state(prog);
    assert(s.frames[0] == FrameV { stmts: prog, pos: 0, kind: FrameKind::Plain });
    assert(remaining(s.frames[0]) =~= prog);
    assert(frame_safe(s.frames[0]));
    assert(s.frames.last() == s.frames[0]);
    assert(remaining(s.frames.last())[0] is BindViews);
}

/// Law: a procedure whose body the transformation engine rewrote never
/// reads the external context through stale views. Driving such a task —
/// initialization, polls, resumes and same-tick re-entries included — can
/// never end in the stale-views fault, on this tick or any later one.
pub proof fn lemma_drive_never_stale_views(
    t: crate::driver::CoroutineTaskV,
    c: ContextV,
    src: Seq<crate::lang::SrcStmtV>,
    now: u64,
    bg: crate::suspend::BackgroundStatus,
    fuel: nat,
    budget: nat,
)
    requires
        task_views_inv(t),
    ensures
        crate::driver::spec_drive(
            t,
            c,
            crate::transform::spec_transform_body(src),
            now,
            bg,
            fuel,
            budget,
        ) != Err::<
            (crate::driver::CoroutineTaskV, ContextV, crate::driver::DriveOutcome),
            FatalError,
        >(FatalError::StaleViews),
        crate::driver::spec_drive(
            t,
            c,
            crate::transform::spec_transform_body(src),
            now,
            bg,
            fuel,
            budget,
        ) matches Ok(r) ==> task_views_inv(r.0),
{
    let prog = crate::transform::spec_transform_body(src);
    if t.coroutine is None {
        lemma_transformed_init_safe(src);
        let t1 = crate::driver::CoroutineTaskV {
            coroutine: Option::Some(crate::machine::spec_init_state(prog)),
            fut: t.fut,
        };
        lemma_drive_loop_no_stale(t1, c, now, bg, fuel, budget);
    } else {
        lemma_drive_loop_no_stale(t, c, now, bg, fuel, budget);
    }
}

} // verus!
