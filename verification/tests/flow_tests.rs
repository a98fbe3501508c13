use rust_recon::merger::pair_lamport_flows;
use rust_recon::types::PartialLamportFlow;

#[test]
fn test_pairs_lamport_flows_mock() {
    let partial = vec![
        PartialLamportFlow {
            account: "bonding_curve".to_string(),
            direction: "out".to_string(),
            amount_expression: "fee_amount".to_string(),
            instruction_order: 1,
        },
        PartialLamportFlow {
            account: "escape_fee_treasury".to_string(),
            direction: "in".to_string(),
            amount_expression: "fee_amount".to_string(),
            instruction_order: 2,
        },
    ];

    let flows = pair_lamport_flows(partial);

    assert_eq!(flows.len(), 1);
    assert_eq!(flows[0].from, "bonding_curve");
    assert_eq!(flows[0].to, "escape_fee_treasury");
}

use rust_recon::flow_extractor::{
    clean_account_name, detect_operation_style, extract_body_facts, extract_cpi_method_name, extract_cpi_program,
    extract_field_from_struct_str, extract_signer_seeds, extract_transfer_accounts_from_ctx, split_field_access,
    stmts_step_count,
};
use rust_recon::syntax::{CallExpr, Expr, InitExpr, LocalInit, MethodCallExpr, Stmt};
use rust_recon::types::StepKind;

#[test]
fn field_access_splits() {
    assert_eq!(split_field_access("ctx.accounts.vault.amount"), Some(("vault".to_string(), "amount".to_string())));
    assert_eq!(split_field_access("state.count"), Some(("state".to_string(), "count".to_string())));
    assert_eq!(
        split_field_access("ctx . accounts . state . count"),
        Some((" state ".to_string(), " count".to_string()))
    );
    assert_eq!(split_field_access("x"), None);
}

#[test]
fn operation_styles() {
    assert_eq!(detect_operation_style("a . checked_add (1)"), "checked_add");
    assert_eq!(detect_operation_style("a . saturating_sub (1)"), "saturating_sub");
    assert_eq!(detect_operation_style("a + 1"), "assign");
}

#[test]
fn cpi_paths() {
    assert_eq!(extract_cpi_method_name("token::transfer"), "transfer");
    assert_eq!(extract_cpi_method_name("invoke"), "invoke");
    assert_eq!(extract_cpi_program("token::transfer"), "token");
    assert_eq!(extract_cpi_program("invoke"), "unknown");
}

#[test]
fn struct_fields_and_seeds() {
    let ctx = "Transfer { from: ctx.accounts.user.to_account_info(), to: vault }";
    assert_eq!(extract_field_from_struct_str(ctx, "from"), Some("user".to_string()));
    assert_eq!(extract_field_from_struct_str(ctx, "to"), Some("vault".to_string()));
    assert_eq!(extract_field_from_struct_str(ctx, "authority"), None);
    assert_eq!(extract_transfer_accounts_from_ctx(ctx, "transfer"), ("user".to_string(), "vault".to_string()));
    assert_eq!(
        extract_transfer_accounts_from_ctx("MintTo { to: dest }", "mint_to"),
        ("mint".to_string(), "dest".to_string())
    );
    assert_eq!(
        extract_transfer_accounts_from_ctx("Other {}", "burn"),
        ("NOT_EXTRACTED".to_string(), "NOT_EXTRACTED".to_string())
    );
    assert_eq!(
        extract_signer_seeds("CpiContext :: new_with_signer (prog , accts , signer_seeds)"),
        Some("signer_seeds".to_string())
    );
    assert_eq!(extract_signer_seeds("CpiContext :: new (prog , accts)"), None);
    assert_eq!(clean_account_name("ctx.accounts.user.to_account_info()"), "user");
}

fn body() -> Vec<Stmt> {
    vec![
        Stmt::Local {
            name: "x".to_string(),
            init: Some(LocalInit { text: "1 + 2".to_string(), expr: InitExpr::Other }),
        },
        Stmt::Expr(Expr::If {
            cond: "if a > b { } . cond".to_string(),
            then_branch: vec![Stmt::Expr(Expr::MethodCall(MethodCallExpr {
                method: "burn".to_string(),
                args: vec!["5".to_string()],
                text: "t . burn (5)".to_string(),
            }))],
            else_branch: Some(Box::new(Expr::Block(vec![Stmt::Expr(Expr::Macro {
                name: "emit".to_string(),
                tokens: "Ev {}".to_string(),
            })]))),
        }),
        Stmt::Expr(Expr::Assign {
            lhs: "ctx . accounts . vault . lamports".to_string(),
            rhs: "amount . checked_sub (fee)".to_string(),
        }),
        Stmt::Expr(Expr::Try(Box::new(Expr::Call(CallExpr {
            func: "set_authority".to_string(),
            args: vec![
                "CpiContext { account_or_mint: mint }".to_string(),
                "AuthorityType::MintTokens".to_string(),
                " None ".to_string(),
            ],
            text: "set_authority (c , t , None) ?".to_string(),
        })))),
        Stmt::Expr(Expr::Assign { lhs: "state.count".to_string(), rhs: "state . count . checked_add (1)".to_string() }),
    ]
}

#[test]
fn body_facts_number_steps_in_order() {
    let stmts = body();
    assert_eq!(stmts_step_count(&stmts), Some(8));
    let facts = extract_body_facts(&stmts);
    let steps: Vec<(usize, StepKind)> = facts.execution_steps.iter().map(|s| (s.order, s.kind)).collect();
    assert_eq!(
        steps,
        vec![
            (1, StepKind::LetBinding),
            (2, StepKind::ConditionalBranch),
            (3, StepKind::MethodCall),
            (5, StepKind::Emit),
            (7, StepKind::SetAuthority),
            (7, StepKind::CpiCall),
            (8, StepKind::FieldAssignment),
        ]
    );
    assert_eq!(facts.execution_steps[0].assigned_to, Some("x".to_string()));
    assert_eq!(facts.execution_steps[1].expression, "if if a > b { } . cond");
    assert_eq!(facts.execution_steps[4].expression, "set_authority(MintTokens, None) — AUTHORITY REVOKED");
    assert_eq!(facts.token_flows.len(), 1);
    assert_eq!(facts.token_flows[0].cpi_method, "burn");
    assert_eq!(facts.token_flows[0].amount_expression, "5");
    assert_eq!(facts.token_flows[0].instruction_order, 3);
    assert_eq!(facts.partial_lamport_flows.len(), 1);
    assert_eq!(facts.partial_lamport_flows[0].account, " vault ");
    assert_eq!(facts.partial_lamport_flows[0].direction, "out");
    assert_eq!(facts.partial_lamport_flows[0].amount_expression, "amount . checked_sub (fee)");
    assert_eq!(facts.set_authority_calls.len(), 1);
    assert_eq!(facts.set_authority_calls[0].account, "mint");
    assert_eq!(facts.set_authority_calls[0].authority_type, "MintTokens");
    assert_eq!(facts.set_authority_calls[0].new_authority, "None");
    assert_eq!(facts.state_mutations.len(), 1);
    assert_eq!(facts.state_mutations[0].account, "state");
    assert_eq!(facts.state_mutations[0].field, "count");
    assert_eq!(facts.state_mutations[0].operation, "checked_add");
    assert!(facts.cpi_calls.is_empty());
}

#[test]
fn function_call_cpi_records_token_flow_and_call() {
    let stmts = vec![Stmt::Expr(Expr::Call(CallExpr {
        func: "transfer_checked".to_string(),
        args: vec!["CpiContext :: new_with_signer (p , a , seeds)".to_string(), "amount".to_string()],
        text: "transfer_checked (c , amount)".to_string(),
    }))];
    let facts = extract_body_facts(&stmts);
    assert_eq!(facts.token_flows.len(), 1);
    assert_eq!(facts.token_flows[0].amount_expression, "amount");
    assert_eq!(facts.token_flows[0].from, "NOT_EXTRACTED");
    assert_eq!(facts.cpi_calls.len(), 1);
    assert_eq!(facts.cpi_calls[0].target, "unknown");
    assert_eq!(facts.cpi_calls[0].signer_seeds, Some("seeds".to_string()));
    assert_eq!(facts.cpi_calls[0].nesting_depth, Some("function_body".to_string()));
    assert!(facts.sol_flows.is_empty());
}
