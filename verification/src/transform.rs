//! The transformation engine: rewrites a sequential procedure body, so that
//! every suspension expression becomes an explicit yield/resume boundary,
//! recursively through nested compound constructs.
//!
//! Ordinary statements pass through unchanged. `let x = suspend E` becomes:
//! transfer control out with `E`'s handle; on resume, extract and bind the
//! dynamically-typed result; then re-derive the views into the external
//! context, which is supplied afresh every tick. A bare `suspend E` does the
//! same but discards the result. Compound constructs keep their own header
//! and have each nested statement list rewritten recursively. The rewritten
//! body begins by deriving the context views once.

use vstd::prelude::*;

use crate::lang::MStmt;
use crate::lang::MStmtV;
use crate::lang::SrcStmt;
use crate::lang::SrcStmtV;
use crate::lang::lemma_m_views_push;
use crate::lang::lemma_src_views_index;
use crate::lang::m_views;
use crate::lang::src_views;

verus! {

/// What the engine makes of one source statement: a short statement list,
/// spliced into the output in place of that statement.
pub open spec fn spec_transform_stmt(s: SrcStmtV) -> Seq<MStmtV>
    decreases s,
{
    match s {
        SrcStmtV::Run { action } => seq![MStmtV::Run { action }],
        SrcStmtV::Suspend { expr } => seq![
            MStmtV::Yield { expr },
            MStmtV::DiscardResult,
            MStmtV::BindViews,
        ],
        SrcStmtV::LetSuspend { var, expected, expr } => seq![
            MStmtV::Yield { expr },
            MStmtV::BindResult { var, expected },
            MStmtV::BindViews,
        ],
        SrcStmtV::Block { body } => seq![
            MStmtV::Block { body: spec_transform_stmts(body) },
        ],
        SrcStmtV::If { cond, then_body, else_body } => seq![
            MStmtV::If {
                cond,
                then_body: spec_transform_stmts(then_body),
                else_body: spec_transform_stmts(else_body),
            },
        ],
        SrcStmtV::While { cond, body } => seq![
            MStmtV::While { cond, body: spec_transform_stmts(body) },
        ],
    }
}

/// What the engine makes of a statement list: the concatenation of what it
/// makes of each statement, in order.
pub open spec fn spec_transform_stmts(ss: Seq<SrcStmtV>) -> Seq<MStmtV>
    decreases ss,
{
    if ss.len() == 0 {
        Seq::empty()
    } else {
        spec_transform_stmts(ss.drop_last()) + spec_transform_stmt(ss.last())
    }
}

/// What the engine makes of a whole procedure body: derive the context views
/// once, then the rewritten statements.
pub open spec fn spec_transform_body(body: Seq<SrcStmtV>) -> Seq<MStmtV> {
    seq![MStmtV::BindViews] + spec_transform_stmts(body)
}

/// Rewrites one suspension or pass-through statement.
pub fn transform_statement(s: &SrcStmt) -> (r: Vec<MStmt>)
    ensures
        m_views(r@) == spec_transform_stmt(s@),
    decreases *s, 1int,
{
    match s {
        SrcStmt::Suspend { expr } => {
            let mut r: Vec<MStmt> = Vec::new();
            r.push(MStmt::Yield { expr: *expr });
            r.push(MStmt::DiscardResult);
            r.push(MStmt::BindViews);
            proof {
                reveal_with_fuel(m_views, 4);
                assert(m_views(r@) =~= spec_transform_stmt(s@));
            }
            r
        },
        SrcStmt::LetSuspend { var, expected, expr } => {
            let mut r: Vec<MStmt> = Vec::new();
            r.push(MStmt::Yield { expr: *expr });
            r.push(MStmt::BindResult { var: *var, expected: *expected });
            r.push(MStmt::BindViews);
            proof {
                reveal_with_fuel(m_views, 4);
                assert(m_views(r@) =~= spec_transform_stmt(s@));
            }
            r
        },
        _ => transform_expression(s),
    }
}

/// Rewrites an ordinary or compound statement, recursing through the nested
/// statement lists of a block, branch or loop while keeping its header
/// intact.
pub fn transform_expression(s: &SrcStmt) -> (r: Vec<MStmt>)
    requires
        !(s@ is Suspend),
        !(s@ is LetSuspend),
    ensures
        m_views(r@) == spec_transform_stmt(s@),
    decreases *s, 0int,
{
    match s {
        SrcStmt::Run { action } => {
            let mut r: Vec<MStmt> = Vec::new();
            r.push(MStmt::Run { action: *action });
            proof {
                reveal_with_fuel(m_views, 2);
                assert(m_views(r@) =~= spec_transform_stmt(s@));
            }
            r
        },
        SrcStmt::Block { body } => {
            let inner = transform_statements(body);
            let mut r: Vec<MStmt> = Vec::new();
            r.push(MStmt::Block { body: inner });
            proof {
                reveal_with_fuel(m_views, 2);
                assert(m_views(r@) =~= spec_transform_stmt(s@));
            }
            r
        },
        SrcStmt::If { cond, then_body, else_body } => {
            let then_m = transform_statements(then_body);
            let else_m = transform_statements(else_body);
            let mut r: Vec<MStmt> = Vec::new();
            r.push(MStmt::If { cond: *cond, then_body: then_m, else_body: else_m });
            proof {
                reveal_with_fuel(m_views, 2);
                assert(m_views(r@) =~= spec_transform_stmt(s@));
            }
            r
        },
        SrcStmt::While { cond, body } => {
            let inner = transform_statements(body);
            let mut r: Vec<MStmt> = Vec::new();
            r.push(MStmt::While { cond: *cond, body: inner });
            proof {
                reveal_with_fuel(m_views, 2);
                assert(m_views(r@) =~= spec_transform_stmt(s@));
            }
            r
        },
        SrcStmt::Suspend { .. } => {
            assert(false);
            Vec::new()
        },
        SrcStmt::LetSuspend { .. } => {
            assert(false);
            Vec::new()
        },
    }
}

/// Rewrites a statement list, splicing the rewriting of each statement into
/// the output in order.
pub fn transform_statements(stmts: &Vec<SrcStmt>) -> (r: Vec<MStmt>)
    ensures
        m_views(r@) == spec_transform_stmts(src_views(stmts@)),
    decreases stmts@, 0int,
{
    let mut r: Vec<MStmt> = Vec::new();
    let mut i: usize = 0;
    proof {
        assert(src_views(stmts@.subrange(0, 0)) =~= Seq::<SrcStmtV>::empty());
    }
    while i < stmts.len()
        invariant
            i <= stmts.len(),
            m_views(r@) == spec_transform_stmts(src_views(stmts@.subrange(0, i as int))),
        decreases stmts@.len() - i,
    {
        let ghost pre = r@;
        let mut piece = transform_statement(&stmts[i]);
        let ghost piece_snap = piece@;
        r.append(&mut piece);
        proof {
            lemma_m_views_concat(pre, piece_snap);
            lemma_src_views_index(stmts@);
            lemma_src_views_index(stmts@.subrange(0, i + 1));
            let prefix = src_views(stmts@.subrange(0, i as int));
            let step = src_views(stmts@.subrange(0, i + 1));
            assert(step.drop_last() =~= prefix) by {
                assert(stmts@.subrange(0, i + 1).drop_last() =~= stmts@.subrange(0, i as int));
                lemma_src_views_index(stmts@.subrange(0, i as int));
            }
            assert(step.last() == stmts@[i as int]@);
            assert(spec_transform_stmts(step) == spec_transform_stmts(prefix)
                + spec_transform_stmt(stmts@[i as int]@));
            assert(m_views(r@) == spec_transform_stmts(step));
        }
        i = i + 1;
    }
    proof {
        assert(stmts@.subrange(0, stmts@.len() as int) =~= stmts@);
    }
    r
}

/// Rewrites a whole procedure body: the output derives the context views
/// once at its start, then runs the rewritten statements.
pub fn transform_function_body(block: &Vec<SrcStmt>) -> (r: Vec<MStmt>)
    ensures
        m_views(r@) == spec_transform_body(src_views(block@)),
{
    let mut r: Vec<MStmt> = Vec::new();
    r.push(MStmt::BindViews);
    let ghost one = r@;
    let mut rest = transform_statements(block);
    let ghost rest_snap = rest@;
    r.append(&mut rest);
    proof {
        lemma_m_views_concat(one, rest_snap);
        reveal_with_fuel(m_views, 2);
        assert(m_views(one) =~= seq![MStmtV::BindViews]);
        assert(m_views(r@) =~= spec_transform_body(src_views(block@)));
    }
    r
}

/// Mirroring a statement list commutes with concatenation.
pub proof fn lemma_m_views_concat(a: Seq<MStmt>, b: Seq<MStmt>)
    ensures
        m_views(a + b) == m_views(a) + m_views(b),
    decreases b,
{
    if b.len() == 0 {
        assert(a + b =~= a);
        assert(m_views(a) + m_views(b) =~= m_views(a));
    } else {
        lemma_m_views_concat(a, b.drop_last());
        assert((a + b).drop_last() =~= a + b.drop_last());
        assert((a + b).last() == b.last());
        lemma_m_views_push(a + b.drop_last(), b.last());
        assert(m_views(a + b) == m_views(a + b.drop_last()).push(b.last()@));
        assert(m_views(a) + m_views(b) =~= (m_views(a) + m_views(b.drop_last())).push(
            b.last()@,
        ));
    }
}

/// Whether this lowered statement consumes the resolved result of the yield
/// boundary just crossed.
pub open spec fn consumes_result(s: MStmtV) -> bool {
    s is BindResult || s is DiscardResult
}

/// The resume discipline of a lowered statement list: every yield boundary
/// is immediately followed by a statement consuming the resolved result and
/// then by a re-derivation of the context views, recursively through every
/// nested statement list.
pub open spec fn rebinds_after_yields(out: Seq<MStmtV>) -> bool
    decreases out,
{
    if out.len() == 0 {
        true
    } else {
        match out[0] {
            MStmtV::Yield { .. } => out.len() >= 3 && consumes_result(out[1]) && out[2]
                == MStmtV::BindViews && rebinds_after_yields(
                out.subrange(3, out.len() as int),
            ),
            MStmtV::Block { body } => rebinds_after_yields(body) && rebinds_after_yields(
                out.drop_first(),
            ),
            MStmtV::If { cond, then_body, else_body } => rebinds_after_yields(then_body)
                && rebinds_after_yields(else_body) && rebinds_after_yields(out.drop_first()),
            MStmtV::While { cond, body } => rebinds_after_yields(body) && rebinds_after_yields(
                out.drop_first(),
            ),
            _ => rebinds_after_yields(out.drop_first()),
        }
    }
}

/// The resume discipline survives concatenation: a list whose yields are all
/// consumed and rebound within it, followed by another such list, is again
/// such a list.
pub proof fn lemma_rebinds_concat(a: Seq<MStmtV>, b: Seq<MStmtV>)
    requires
        rebinds_after_yields(a),
        rebinds_after_yields(b),
    ensures
        rebinds_after_yields(a + b),
    decreases a,
{
    if a.len() == 0 {
        assert(a + b =~= b);
    } else {
        assert((a + b)[0] == a[0]);
        match a[0] {
            MStmtV::Yield { .. } => {
                assert((a + b)[1] == a[1]);
                assert((a + b)[2] == a[2]);
                lemma_rebinds_concat(a.subrange(3, a.len() as int), b);
                assert((a + b).subrange(3, (a + b).len() as int) =~= a.subrange(
                    3,
                    a.len() as int,
                ) + b);
            },
            _ => {
                lemma_rebinds_concat(a.drop_first(), b);
                assert((a + b).drop_first() =~= a.drop_first() + b);
            },
        }
    }
}

/// The rewriting of one statement obeys the resume discipline.
pub proof fn lemma_transform_stmt_rebinds(s: SrcStmtV)
    ensures
        rebinds_after_yields(spec_transform_stmt(s)),
    decreases s,
{
    reveal_with_fuel(rebinds_after_yields, 3);
    match s {
        SrcStmtV::Block { body } => {
            lemma_transform_stmts_rebinds(body);
            assert(spec_transform_stmt(s).drop_first() =~= Seq::<MStmtV>::empty());
        },
        SrcStmtV::If { cond, then_body, else_body } => {
            lemma_transform_stmts_rebinds(then_body);
            lemma_transform_stmts_rebinds(else_body);
            assert(spec_transform_stmt(s).drop_first() =~= Seq::<MStmtV>::empty());
        },
        SrcStmtV::While { cond, body } => {
            lemma_transform_stmts_rebinds(body);
            assert(spec_transform_stmt(s).drop_first() =~= Seq::<MStmtV>::empty());
        },
        SrcStmtV::Run { .. } => {
            assert(spec_transform_stmt(s).drop_first() =~= Seq::<MStmtV>::empty());
        },
        SrcStmtV::Suspend { .. } => {
            assert(spec_transform_stmt(s).subrange(3, 3) =~= Seq::<MStmtV>::empty());
        },
        SrcStmtV::LetSuspend { .. } => {
            assert(spec_transform_stmt(s).subrange(3, 3) =~= Seq::<MStmtV>::empty());
        },
    }
}

/// The rewriting of a statement list obeys the resume discipline.
pub proof fn lemma_transform_stmts_rebinds(ss: Seq<SrcStmtV>)
    ensures
        rebinds_after_yields(spec_transform_stmts(ss)),
    decreases ss,
{
    if ss.len() > 0 {
        lemma_transform_stmts_rebinds(ss.drop_last());
        lemma_transform_stmt_rebinds(ss.last());
        lemma_rebinds_concat(spec_transform_stmts(ss.drop_last()), spec_transform_stmt(ss.last()));
    }
}

/// Law: a transformed body re-establishes the external context views at
/// every resume point. It derives the views once before its first statement,
/// and every yield boundary it contains, however deeply nested, is
/// immediately followed by a statement consuming the resolved result and by
/// a re-derivation of the views, so no view obtained before a suspension is
/// ever reused across it.
pub proof fn lemma_transform_body_rebinds(body: Seq<SrcStmtV>)
    ensures
        spec_transform_body(body).len() >= 1,
        spec_transform_body(body)[0] == MStmtV::BindViews,
        rebinds_after_yields(spec_transform_body(body)),
{
    lemma_transform_stmts_rebinds(body);
    reveal_with_fuel(rebinds_after_yields, 2);
    lemma_rebinds_concat(seq![MStmtV::BindViews], spec_transform_stmts(body));
    assert(seq![MStmtV::BindViews].drop_first() =~= Seq::<MStmtV>::empty());
}

} // verus!
