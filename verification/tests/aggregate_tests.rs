use rust_recon::aggregate::aggregate_flags;
use rust_recon::types::{Arithmetic, BodyCheck, CpiCall, FactInstruction, Facts, InstructionAccount};

fn instruction(name: &str, context: &str) -> FactInstruction {
    FactInstruction {
        name: name.to_string(),
        context: context.to_string(),
        args: vec![],
        params: vec![],
        accounts: vec![],
        checks: vec![],
        body_checks: vec![],
        arithmetic: vec![],
        cpi_calls: vec![],
        events_emitted: vec![],
        uses_remaining_accounts: false,
        error_codes_referenced: vec![],
        pda: vec![],
        source: None,
        execution_steps: vec![],
        sol_flows: vec![],
        token_flows: vec![],
        state_mutations: vec![],
        set_authority_calls: vec![],
        partial_lamport_flows: vec![],
    }
}

fn account(name: &str) -> InstructionAccount {
    InstructionAccount {
        name: name.to_string(),
        type_info: "AccountInfo < 'info >".to_string(),
        is_mut: false,
        is_signer: false,
        constraints: vec![],
        attributes: String::new(),
        wrapper_type: None,
        inner_type: None,
        unchecked: false,
        has_one: vec![],
        close_target: None,
    }
}

fn transfer_cpi() -> CpiCall {
    CpiCall {
        target: "token".to_string(),
        instruction: "transfer".to_string(),
        from_account: None,
        to_account: None,
        signer_seeds: None,
        nesting_depth: Some("top-level".to_string()),
        instruction_name: None,
    }
}

#[test]
fn flags_cover_every_rule_in_order() {
    let mut vault = account("vault");
    vault.unchecked = true;
    vault.attributes = "account (mut , init_if_needed)".to_string();
    vault.close_target = Some("user".to_string());
    let mut ix = instruction("deposit", "Deposit");
    ix.accounts = vec![vault];
    ix.arithmetic = vec![Arithmetic {
        operation: "add".to_string(),
        style: "unchecked".to_string(),
        expression: "a + amount".to_string(),
        overflow_risk: true,
    }];
    ix.uses_remaining_accounts = true;
    ix.cpi_calls = vec![transfer_cpi()];
    let mut facts = Facts::named("prog");
    facts.instructions = vec![ix];

    aggregate_flags(&mut facts);

    let kinds: Vec<(&str, &str, &str)> = facts
        .flags
        .iter()
        .map(|f| (f.severity.as_str(), f.ty.as_str(), f.instruction.as_str()))
        .collect();
    assert_eq!(
        kinds,
        vec![
            ("high", "unchecked_account", "deposit"),
            ("medium", "init_if_needed", "deposit"),
            ("info", "close_drain", "close_vault"),
            ("medium", "unchecked_arithmetic", "deposit"),
            ("high", "remaining_accounts", "deposit"),
            ("medium", "missing_access_control", "deposit"),
        ]
    );
    assert_eq!(facts.flags[0].note, "UncheckedAccount — zero Anchor validation.");
    assert_eq!(facts.flags[2].drain_target, Some("user".to_string()));
    assert_eq!(facts.flags[2].account, Some("vault".to_string()));
    assert_eq!(facts.flags[3].expression, Some("a + amount".to_string()));
    assert_eq!(facts.flags[3].note, "Raw add operation on numeric field.");
}

#[test]
fn guarded_transfer_and_checked_math_raise_nothing() {
    let mut ix = instruction("withdraw", "Withdraw");
    ix.cpi_calls = vec![transfer_cpi()];
    ix.body_checks = vec![BodyCheck {
        macro_name: "require".to_string(),
        condition: Some("amount > 0".to_string()),
        lhs: None,
        rhs: None,
        error: "ErrorCode :: Zero".to_string(),
    }];
    ix.arithmetic = vec![Arithmetic {
        operation: "add".to_string(),
        style: "checked".to_string(),
        expression: "a . checked_add (b)".to_string(),
        overflow_risk: false,
    }];
    let mut facts = Facts::named("prog");
    facts.instructions = vec![ix];
    facts.flags = vec![];
    aggregate_flags(&mut facts);
    assert!(facts.flags.is_empty());
}

#[test]
fn aggregating_twice_gives_the_same_flags() {
    let mut vault = account("vault");
    vault.unchecked = true;
    let mut ix = instruction("deposit", "Deposit");
    ix.accounts = vec![vault];
    let mut facts = Facts::named("prog");
    facts.instructions = vec![ix];
    aggregate_flags(&mut facts);
    let first = facts.flags.clone();
    aggregate_flags(&mut facts);
    assert_eq!(facts.flags, first);
    assert_eq!(facts.flags.len(), 1);
}

#[test]
fn mutable_accounts_are_flagged() {
    let mut state = account("state");
    state.is_mut = true;
    let mut payer = account("payer");
    payer.is_mut = true;
    payer.close_target = Some("payer".to_string());
    let mut ix = instruction("update", "Update");
    ix.accounts = vec![state, account("reader"), payer];
    let mut facts = Facts::named("prog");
    facts.instructions = vec![ix];

    aggregate_flags(&mut facts);

    let kinds: Vec<(&str, &str, &str, Option<&str>)> = facts
        .flags
        .iter()
        .map(|f| (f.severity.as_str(), f.ty.as_str(), f.instruction.as_str(), f.account.as_deref()))
        .collect();
    assert_eq!(
        kinds,
        vec![
            ("low", "mutable_account", "update", Some("state")),
            ("info", "close_drain", "close_payer", Some("payer")),
            ("low", "mutable_account", "update", Some("payer")),
        ]
    );
    assert_eq!(facts.flags[0].note, "Mutable account — verify every write is constrained.");
}
