//! The narrow source language of schedulable procedures, and the machine
//! language the transformation engine lowers it to.
//!
//! A procedure body is a list of statements: ordinary actions on the external
//! context, one suspension operator (bare or bound to a local), and the
//! compound constructs block, branch and loop, nested arbitrarily. The
//! machine language makes every suspension an explicit yield/resume boundary
//! and makes the re-derivation of context views an explicit statement.
//!
//! Each executable statement type has a mathematical mirror whose compound
//! bodies are sequences; all contracts speak of the mirrors, reached through
//! `@`.

use vstd::prelude::*;

use crate::value::Tag;

verus! {

/// A suspension expression: which pause a `suspend` statement issues.
#[derive(Clone, Copy, Debug, PartialEq, Eq, Structural)]
pub enum SuspendExpr {
    /// Pause for `duration` units of the host clock.
    Delay { duration: u64 },
    /// Pause until the tick after the next poll.
    NextTick,
    /// Pause for one poll only: a pure yield boundary.
    Noop,
    /// Pause until the background unit of work named `work` finishes.
    Background { work: u64 },
}

/// A condition in a branch or loop header, evaluated against the external
/// context of the current tick.
#[derive(Clone, Copy, Debug, PartialEq, Eq, Structural)]
pub enum Cond {
    /// A constant condition.
    Const(bool),
    /// The context flag with this index; false when out of range.
    Flag(usize),
}

/// One statement of a source procedure body.
#[derive(Debug, PartialEq, Eq)]
pub enum SrcStmt {
    /// An ordinary statement: performs the host action named `action`
    /// through the current context views.
    Run { action: u64 },
    /// `suspend E`: pause on `E`, discard its result.
    Suspend { expr: SuspendExpr },
    /// `let x = suspend E`: pause on `E`, bind its result, checked against
    /// the expected type tag, to the local named `var`.
    LetSuspend { var: u64, expected: Tag, expr: SuspendExpr },
    /// A nested block.
    Block { body: Vec<SrcStmt> },
    /// A branch; an absent `else` arm is an empty list.
    If { cond: Cond, then_body: Vec<SrcStmt>, else_body: Vec<SrcStmt> },
    /// A while loop.
    While { cond: Cond, body: Vec<SrcStmt> },
}

/// The mathematical mirror of a source statement.
#[verifier::ext_equal]
pub enum SrcStmtV {
    Run { action: u64 },
    Suspend { expr: SuspendExpr },
    LetSuspend { var: u64, expected: Tag, expr: SuspendExpr },
    Block { body: Seq<SrcStmtV> },
    If { cond: Cond, then_body: Seq<SrcStmtV>, else_body: Seq<SrcStmtV> },
    While { cond: Cond, body: Seq<SrcStmtV> },
}

/// The mirrors of a sequence of source statements, elementwise.
pub open spec fn src_views(ss: Seq<SrcStmt>) -> Seq<SrcStmtV>
    decreases ss,
{
    if ss.len() == 0 {
        Seq::empty()
    } else {
        src_views(ss.drop_last()).push(ss.last()@)
    }
}

impl View for SrcStmt {
    type V = SrcStmtV;

    open spec fn view(&self) -> SrcStmtV
        decreases self,
    {
        match self {
            SrcStmt::Run { action } => SrcStmtV::Run { action: *action },
            SrcStmt::Suspend { expr } => SrcStmtV::Suspend { expr: *expr },
            SrcStmt::LetSuspend { var, expected, expr } => SrcStmtV::LetSuspend {
                var: *var,
                expected: *expected,
                expr: *expr,
            },
            SrcStmt::Block { body } => SrcStmtV::Block { body: src_views(body@) },
            SrcStmt::If { cond, then_body, else_body } => SrcStmtV::If {
                cond: *cond,
                then_body: src_views(then_body@),
                else_body: src_views(else_body@),
            },
            SrcStmt::While { cond, body } => SrcStmtV::While {
                cond: *cond,
                body: src_views(body@),
            },
        }
    }
}

/// One statement of a lowered, resumable body.
#[derive(Debug, PartialEq, Eq)]
pub enum MStmt {
    /// Derive the named views into the external context afresh. Stale views
    /// from before the latest resume boundary are never reused.
    BindViews,
    /// Perform the host action named `action` through the current views.
    Run { action: u64 },
    /// Transfer control out, yielding the handle `expr` describes.
    Yield { expr: SuspendExpr },
    /// Consume the resolved result of the yield just crossed: check it
    /// against the expected type tag and bind it to the local named `var`.
    BindResult { var: u64, expected: Tag },
    /// Consume and discard the resolved result of the yield just crossed.
    DiscardResult,
    /// A nested block, its body lowered recursively.
    Block { body: Vec<MStmt> },
    /// A branch, its header kept intact and both arms lowered recursively.
    If { cond: Cond, then_body: Vec<MStmt>, else_body: Vec<MStmt> },
    /// A while loop, its header kept intact and its body lowered recursively.
    While { cond: Cond, body: Vec<MStmt> },
}

/// The mathematical mirror of a lowered statement.
#[verifier::ext_equal]
pub enum MStmtV {
    BindViews,
    Run { action: u64 },
    Yield { expr: SuspendExpr },
    BindResult { var: u64, expected: Tag },
    DiscardResult,
    Block { body: Seq<MStmtV> },
    If { cond: Cond, then_body: Seq<MStmtV>, else_body: Seq<MStmtV> },
    While { cond: Cond, body: Seq<MStmtV> },
}

/// The mirrors of a sequence of lowered statements, elementwise.
pub open spec fn m_views(ss: Seq<MStmt>) -> Seq<MStmtV>
    decreases ss,
{
    if ss.len() == 0 {
        Seq::empty()
    } else {
        m_views(ss.drop_last()).push(ss.last()@)
    }
}

impl View for MStmt {
    type V = MStmtV;

    open spec fn view(&self) -> MStmtV
        decreases self,
    {
        match self {
            MStmt::BindViews => MStmtV::BindViews,
            MStmt::Run { action } => MStmtV::Run { action: *action },
            MStmt::Yield { expr } => MStmtV::Yield { expr: *expr },
            MStmt::BindResult { var, expected } => MStmtV::BindResult {
                var: *var,
                expected: *expected,
            },
            MStmt::DiscardResult => MStmtV::DiscardResult,
            MStmt::Block { body } => MStmtV::Block { body: m_views(body@) },
            MStmt::If { cond, then_body, else_body } => MStmtV::If {
                cond: *cond,
                then_body: m_views(then_body@),
                else_body: m_views(else_body@),
            },
            MStmt::While { cond, body } => MStmtV::While { cond: *cond, body: m_views(body@) },
        }
    }
}

/// The elementwise mirror has the same length, and mirrors each element.
pub proof fn lemma_m_views_index(ss: Seq<MStmt>)
    ensures
        m_views(ss).len() == ss.len(),
        forall|i: int| 0 <= i < ss.len() ==> m_views(ss)[i] == #[trigger] ss[i]@,
    decreases ss,
{
    if ss.len() > 0 {
        lemma_m_views_index(ss.drop_last());
        let rest = m_views(ss.drop_last());
        let whole = rest.push(ss.last()@);
        assert(m_views(ss) == whole);
        assert forall|i: int| 0 <= i < ss.len() implies m_views(ss)[i] == #[trigger] ss[i]@ by {
            assert(whole[i] == if i < rest.len() { rest[i] } else { ss.last()@ });
            if i < ss.len() - 1 {
                assert(ss.drop_last()[i] == ss[i]);
            } else {
                assert(ss.last() == ss[i]);
            }
        }
    }
}

/// Mirroring commutes with appending one statement.
pub proof fn lemma_m_views_push(ss: Seq<MStmt>, s: MStmt)
    ensures
        m_views(ss.push(s)) == m_views(ss).push(s@),
{
    assert(ss.push(s).drop_last() =~= ss);
    assert(m_views(ss.push(s)) == m_views(ss).push(s@));
}

/// The elementwise mirror has the same length, and mirrors each element.
pub proof fn lemma_src_views_index(ss: Seq<SrcStmt>)
    ensures
        src_views(ss).len() == ss.len(),
        forall|i: int| 0 <= i < ss.len() ==> src_views(ss)[i] == #[trigger] ss[i]@,
    decreases ss,
{
    if ss.len() > 0 {
        lemma_src_views_index(ss.drop_last());
        let rest = src_views(ss.drop_last());
        let whole = rest.push(ss.last()@);
        assert(src_views(ss) == whole);
        assert forall|i: int| 0 <= i < ss.len() implies src_views(ss)[i] == #[trigger] ss[i]@ by {
            assert(whole[i] == if i < rest.len() { rest[i] } else { ss.last()@ });
            if i < ss.len() - 1 {
                assert(ss.drop_last()[i] == ss[i]);
            } else {
                assert(ss.last() == ss[i]);
            }
        }
    }
}

impl Clone for MStmt {
    /// An exact structural copy, so the scheduler can enter a compound
    /// construct without consuming the program it executes.
    fn clone(&self) -> (res: Self)
        ensures
            res@ == self@,
        decreases self,
    {
        match self {
            MStmt::BindViews => MStmt::BindViews,
            MStmt::Run { action } => MStmt::Run { action: *action },
            MStmt::Yield { expr } => MStmt::Yield { expr: *expr },
            MStmt::BindResult { var, expected } => MStmt::BindResult {
                var: *var,
                expected: *expected,
            },
            MStmt::DiscardResult => MStmt::DiscardResult,
            MStmt::Block { body } => MStmt::Block { body: clone_mstmts(body) },
            MStmt::If { cond, then_body, else_body } => MStmt::If {
                cond: *cond,
                then_body: clone_mstmts(then_body),
                else_body: clone_mstmts(else_body),
            },
            MStmt::While { cond, body } => MStmt::While { cond: *cond, body: clone_mstmts(body) },
        }
    }
}

/// An exact elementwise copy of a lowered statement list.
pub fn clone_mstmts(v: &Vec<MStmt>) -> (res: Vec<MStmt>)
    ensures
        m_views(res@) == m_views(v@),
    decreases v@,
{
    let mut res: Vec<MStmt> = Vec::new();
    let mut i: usize = 0;
    while i < v.len()
        invariant
            i <= v.len(),
            m_views(res@) == m_views(v@.subrange(0, i as int)),
        decreases v@.len() - i,
    {
        let ghost pre = res@;
        res.push(v[i].clone());
        proof {
            lemma_m_views_push(pre, res@.last());
            lemma_m_views_push(v@.subrange(0, i as int), v@[i as int]);
            assert(v@.subrange(0, i + 1).drop_last() =~= v@.subrange(0, i as int));
            assert(m_views(res@) == m_views(v@.subrange(0, i + 1)));
        }
        i = i + 1;
    }
    proof {
        assert(v@.subrange(0, v@.len() as int) =~= v@);
    }
    res
}

} // verus!
