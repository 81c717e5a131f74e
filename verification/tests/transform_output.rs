use coroutine_system::lang::Cond;
use coroutine_system::lang::MStmt;
use coroutine_system::lang::SrcStmt;
use coroutine_system::lang::SuspendExpr;
use coroutine_system::transform::transform_function_body;
use coroutine_system::transform::transform_statements;
use coroutine_system::value::Tag;

#[test]
fn body_starts_by_deriving_views() {
    let body = vec![SrcStmt::Run { action: 1 }];
    let out = transform_function_body(&body);
    assert_eq!(out, vec![MStmt::BindViews, MStmt::Run { action: 1 }]);
}

#[test]
fn bound_suspension_becomes_yield_bind_rebind() {
    let body = vec![
        SrcStmt::Run { action: 1 },
        SrcStmt::LetSuspend {
            var: 1,
            expected: Tag::Int,
            expr: SuspendExpr::Delay { duration: 5 },
        },
        SrcStmt::Run { action: 2 },
    ];
    let out = transform_function_body(&body);
    assert_eq!(
        out,
        vec![
            MStmt::BindViews,
            MStmt::Run { action: 1 },
            MStmt::Yield { expr: SuspendExpr::Delay { duration: 5 } },
            MStmt::BindResult { var: 1, expected: Tag::Int },
            MStmt::BindViews,
            MStmt::Run { action: 2 },
        ]
    );
}

#[test]
fn bare_suspension_discards_its_result() {
    let body = vec![SrcStmt::Suspend { expr: SuspendExpr::NextTick }];
    let out = transform_statements(&body);
    assert_eq!(
        out,
        vec![
            MStmt::Yield { expr: SuspendExpr::NextTick },
            MStmt::DiscardResult,
            MStmt::BindViews,
        ]
    );
}

#[test]
fn branch_keeps_header_and_rewrites_both_arms() {
    let body = vec![SrcStmt::If {
        cond: Cond::Flag(0),
        then_body: vec![SrcStmt::Suspend { expr: SuspendExpr::Noop }],
        else_body: vec![SrcStmt::Run { action: 3 }],
    }];
    let out = transform_statements(&body);
    assert_eq!(
        out,
        vec![MStmt::If {
            cond: Cond::Flag(0),
            then_body: vec![
                MStmt::Yield { expr: SuspendExpr::Noop },
                MStmt::DiscardResult,
                MStmt::BindViews,
            ],
            else_body: vec![MStmt::Run { action: 3 }],
        }]
    );
}

#[test]
fn loop_keeps_header_and_rewrites_its_body() {
    let body = vec![SrcStmt::While {
        cond: Cond::Flag(1),
        body: vec![SrcStmt::Suspend { expr: SuspendExpr::NextTick }],
    }];
    let out = transform_statements(&body);
    assert_eq!(
        out,
        vec![MStmt::While {
            cond: Cond::Flag(1),
            body: vec![
                MStmt::Yield { expr: SuspendExpr::NextTick },
                MStmt::DiscardResult,
                MStmt::BindViews,
            ],
        }]
    );
}

#[test]
fn nested_block_is_rewritten_recursively() {
    let body = vec![SrcStmt::Block {
        body: vec![
            SrcStmt::Run { action: 9 },
            SrcStmt::Suspend { expr: SuspendExpr::Noop },
        ],
    }];
    let out = transform_statements(&body);
    assert_eq!(
        out,
        vec![MStmt::Block {
            body: vec![
                MStmt::Run { action: 9 },
                MStmt::Yield { expr: SuspendExpr::Noop },
                MStmt::DiscardResult,
                MStmt::BindViews,
            ],
        }]
    );
}

#[test]
fn ordinary_statements_pass_through_unchanged() {
    let body = vec![
        SrcStmt::Run { action: 4 },
        SrcStmt::Run { action: 5 },
        SrcStmt::Run { action: 6 },
    ];
    let out = transform_statements(&body);
    assert_eq!(
        out,
        vec![
            MStmt::Run { action: 4 },
            MStmt::Run { action: 5 },
            MStmt::Run { action: 6 },
        ]
    );
}

#[test]
fn empty_body_only_derives_views() {
    let body: Vec<SrcStmt> = vec![];
    let out = transform_function_body(&body);
    assert_eq!(out, vec![MStmt::BindViews]);
}
