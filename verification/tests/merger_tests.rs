use rust_recon::idl::{extract_instructions_from_idl, IdlDocument, IdlInstruction};
use rust_recon::merger::{deduplicate_instructions, merge_idl_and_rust, pair_lamport_flows};
use rust_recon::summary::generate_summary;
use rust_recon::types::{
    BodyCheck, CpiCall, FactError, FactInstruction, Facts, InstructionAccount, PartialLamportFlow,
    SetAuthorityCall, SolFlow, StateMutation, TokenFlow,
};

fn instruction(name: &str, context: &str) -> FactInstruction {
    FactInstruction {
        name: name.to_string(),
        context: context.to_string(),
        args: vec![],
        params: vec![],
        accounts: vec![],
        checks: vec![],
        body_checks: vec![],
        arithmetic: vec![],
        cpi_calls: vec![],
        events_emitted: vec![],
        uses_remaining_accounts: false,
        error_codes_referenced: vec![],
        pda: vec![],
        source: None,
        execution_steps: vec![],
        sol_flows: vec![],
        token_flows: vec![],
        state_mutations: vec![],
        set_authority_calls: vec![],
        partial_lamport_flows: vec![],
    }
}

fn account(name: &str, is_mut: bool, is_signer: bool, constraints: Vec<&str>) -> InstructionAccount {
    InstructionAccount {
        name: name.to_string(),
        type_info: "Account".to_string(),
        is_mut,
        is_signer,
        constraints: constraints.iter().map(|c| c.to_string()).collect(),
        attributes: String::new(),
        wrapper_type: None,
        inner_type: None,
        unchecked: false,
        has_one: vec![],
        close_target: None,
    }
}

fn check(error: &str) -> BodyCheck {
    BodyCheck {
        macro_name: "require".to_string(),
        condition: Some("x".to_string()),
        lhs: None,
        rhs: None,
        error: error.to_string(),
    }
}

fn lamport(account: &str, direction: &str, order: usize) -> PartialLamportFlow {
    PartialLamportFlow {
        account: account.to_string(),
        direction: direction.to_string(),
        amount_expression: "fee".to_string(),
        instruction_order: order,
    }
}

fn idl(names: Vec<Option<&str>>) -> IdlDocument {
    IdlDocument {
        instructions: Some(names.into_iter().map(|n| IdlInstruction { name: n.map(|s| s.to_string()) }).collect()),
    }
}

#[test]
fn pairs_skip_unmatched_moves() {
    let partial = vec![
        lamport("a", "in", 1),
        lamport("b", "out", 2),
        lamport("c", "in", 3),
        lamport("d", "out", 4),
        lamport("e", "unknown", 5),
    ];
    let flows = pair_lamport_flows(partial);
    assert_eq!(flows.len(), 1);
    assert_eq!(flows[0].from, "b");
    assert_eq!(flows[0].to, "c");
    assert_eq!(flows[0].method, "try_borrow_mut_lamports()");
    assert_eq!(flows[0].instruction_order, 2);
    assert_eq!(flows[0].amount_expression, "fee");
}

#[test]
fn pairs_of_nothing_is_nothing() {
    assert!(pair_lamport_flows(vec![]).is_empty());
}

#[test]
fn idl_merge_adds_missing_names_once() {
    let mut facts = Facts::named("prog");
    facts.instructions = vec![instruction("init", "Init")];
    let doc = idl(vec![Some("init"), Some("close"), None, Some("close")]);
    merge_idl_and_rust(Some(doc.clone()), &mut facts);
    let names: Vec<&str> = facts.instructions.iter().map(|i| i.name.as_str()).collect();
    assert_eq!(names, vec!["init", "close"]);
    assert_eq!(facts.instructions[1].context, "Unknown");
    assert_eq!(facts.instructions[1].source, None);
    merge_idl_and_rust(Some(doc), &mut facts);
    assert_eq!(facts.instructions.len(), 2);
    merge_idl_and_rust(None, &mut facts);
    assert_eq!(facts.instructions.len(), 2);
}

#[test]
fn idl_scope_capitalises_names() {
    let doc = idl(vec![Some("initialize"), None, Some(""), Some("émettre")]);
    let scope = extract_instructions_from_idl(&doc);
    assert_eq!(scope.len(), 3);
    assert_eq!(scope[0].ix, "initialize");
    assert_eq!(scope[0].context, "Initialize");
    assert_eq!(scope[1].ix, "");
    assert_eq!(scope[1].context, "");
    assert_eq!(scope[2].context, "Émettre");
    assert!(extract_instructions_from_idl(&IdlDocument { instructions: None }).is_empty());
}

#[test]
fn handlers_sharing_a_context_merge_into_aliases() {
    let a = instruction("a", "Ctx");
    let mut b = instruction("b", "Ctx");
    b.body_checks = vec![check("E1")];
    let mut c = instruction("c", "Ctx");
    c.body_checks = vec![check("E1"), check("E2")];
    c.events_emitted = vec!["Ev".to_string()];
    let mut d = instruction("d", "Unknown");
    d.partial_lamport_flows = vec![lamport("x", "out", 1), lamport("y", "in", 2)];
    let e = instruction("e", "");
    let e2 = instruction("e2", "");
    let mut facts = Facts::named("prog");
    facts.instructions = vec![a, b, c, d, e, e2];

    deduplicate_instructions(&mut facts);

    let names: Vec<&str> = facts.instructions.iter().map(|i| i.name.as_str()).collect();
    assert_eq!(names, vec!["a (aliases: b, c)", "d", "e", "e2"]);
    let merged = &facts.instructions[0];
    let errors: Vec<&str> = merged.body_checks.iter().map(|b| b.error.as_str()).collect();
    assert_eq!(errors, vec!["E1", "E2"]);
    assert_eq!(merged.events_emitted, vec!["Ev".to_string()]);
    let d = &facts.instructions[1];
    assert!(d.partial_lamport_flows.is_empty());
    assert_eq!(d.sol_flows.len(), 1);
    assert_eq!(d.sol_flows[0].from, "x");
    assert_eq!(d.sol_flows[0].to, "y");

    let once = facts.instructions.clone();
    deduplicate_instructions(&mut facts);
    assert_eq!(facts.instructions, once);
}

#[test]
fn plain_alias_takes_accounts_of_the_other() {
    let a = instruction("a", "Ctx");
    let mut b = instruction("b", "Ctx");
    b.accounts = vec![account("user", true, true, vec![])];
    let mut facts = Facts::named("prog");
    facts.instructions = vec![a, b];
    deduplicate_instructions(&mut facts);
    assert_eq!(facts.instructions.len(), 1);
    assert_eq!(facts.instructions[0].name, "a (aliases: b)");
    assert_eq!(facts.instructions[0].accounts.len(), 1);
}

#[test]
fn summary_aggregates_flows_and_risks() {
    let mut init = instruction("init", "Init");
    init.accounts = vec![
        account("payer", true, true, vec![]),
        account("state", true, false, vec!["account (init , seeds = [b\"s\"] ,\n bump)"]),
    ];
    init.cpi_calls = vec![CpiCall {
        target: "token".to_string(),
        instruction: "transfer".to_string(),
        from_account: None,
        to_account: None,
        signer_seeds: None,
        nesting_depth: None,
        instruction_name: None,
    }];
    init.sol_flows = vec![SolFlow {
        from: "a".to_string(),
        to: "b".to_string(),
        amount_expression: "1".to_string(),
        method: "system_transfer".to_string(),
        instruction_order: 1,
    }];
    init.state_mutations = vec![StateMutation {
        account: "state".to_string(),
        field: "count".to_string(),
        operation: "assign".to_string(),
        value_expression: "0".to_string(),
        instruction_order: 2,
    }];
    let mut update = instruction("update", "Update");
    update.sol_flows = init.sol_flows.clone();
    update.state_mutations = vec![
        StateMutation {
            account: "state".to_string(),
            field: "count".to_string(),
            operation: "checked_add".to_string(),
            value_expression: "x".to_string(),
            instruction_order: 1,
        },
        StateMutation {
            account: "state".to_string(),
            field: "owner".to_string(),
            operation: "assign".to_string(),
            value_expression: "y".to_string(),
            instruction_order: 2,
        },
    ];
    update.set_authority_calls = vec![SetAuthorityCall {
        account: "mint".to_string(),
        authority_type: "MintTokens".to_string(),
        new_authority: "None".to_string(),
        instruction_order: 3,
    }];
    let mut facts = Facts::named("prog");
    facts.instructions = vec![init, update];
    facts.errors = vec![
        FactError { code: "A".to_string(), msg: "A".to_string() },
        FactError { code: "B".to_string(), msg: "B".to_string() },
    ];

    let sum = generate_summary(&facts);

    assert_eq!(sum.call_surface, vec![
        "* init: payer [Mut, Signer] | state [Mut]".to_string(),
        "* update: No accounts parsed".to_string(),
    ]);
    assert_eq!(sum.authority_map, vec!["payer (in init)".to_string()]);
    assert_eq!(sum.pda_map, vec!["PDA on state (init): account (init , seeds = [b\"s\"] , bump)".to_string()]);
    assert_eq!(sum.token_flows, vec!["init calls token::transfer".to_string()]);
    assert_eq!(sum.top_risks, vec!["2 Custom Errors declared".to_string()]);
    assert_eq!(sum.sol_flow_summary.len(), 1);
    assert_eq!(sum.sol_flow_summary[0].via, "system_transfer");
    assert_eq!(sum.sol_flow_summary[0].instructions, vec!["init".to_string(), "update".to_string()]);
    assert_eq!(sum.state_mutation_summary.len(), 1);
    assert_eq!(sum.state_mutation_summary[0].fields_mutated, vec!["count".to_string(), "owner".to_string()]);
    assert_eq!(sum.state_mutation_summary[0].instructions, vec!["init".to_string(), "update".to_string()]);
    assert_eq!(sum.authority_revocations.len(), 1);
    assert_eq!(sum.authority_revocations[0].revoked_in, "update");
    assert!(sum.token_flow_summary.is_empty());
}

#[test]
fn summary_of_empty_facts_lists_both_risks() {
    let facts = Facts::named("prog");
    let sum = generate_summary(&facts);
    assert!(sum.call_surface.is_empty());
    assert_eq!(sum.top_risks, vec![
        "No explicit Signer accounts found in instruction validations!".to_string(),
        "No custom errors defined (Possible logic bugs missing revert conditions)".to_string(),
    ]);
}

fn mutation(account: &str, field: &str) -> StateMutation {
    StateMutation {
        account: account.to_string(),
        field: field.to_string(),
        operation: "assign".to_string(),
        value_expression: "v".to_string(),
        instruction_order: 1,
    }
}

fn authority(account: &str, kind: &str, new_authority: &str) -> SetAuthorityCall {
    SetAuthorityCall {
        account: account.to_string(),
        authority_type: kind.to_string(),
        new_authority: new_authority.to_string(),
        instruction_order: 1,
    }
}

#[test]
fn summary_keeps_one_entry_per_account_and_first_revocation() {
    let mut a = instruction("a", "A");
    a.state_mutations = vec![mutation("vault", "x"), mutation("pool", "y"), mutation("vault", "x")];
    a.set_authority_calls = vec![authority("mint", "MintTokens", "Some(k)"), authority("mint", "MintTokens", "none")];
    let mut b = instruction("b", "B");
    b.state_mutations = vec![mutation("pool", "z")];
    b.set_authority_calls = vec![authority("mint", "MintTokens", "None"), authority("mint", "FreezeAccount", "None")];
    let mut facts = Facts::named("prog");
    facts.instructions = vec![a, b];

    let sum = generate_summary(&facts);

    let accounts: Vec<&str> = sum.state_mutation_summary.iter().map(|e| e.account.as_str()).collect();
    assert_eq!(accounts, vec!["vault", "pool"]);
    assert_eq!(sum.state_mutation_summary[0].fields_mutated, vec!["x".to_string()]);
    assert_eq!(sum.state_mutation_summary[0].instructions, vec!["a".to_string()]);
    assert_eq!(sum.state_mutation_summary[1].fields_mutated, vec!["y".to_string(), "z".to_string()]);
    assert_eq!(sum.state_mutation_summary[1].instructions, vec!["a".to_string(), "b".to_string()]);
    let revocations: Vec<(&str, &str, &str)> = sum
        .authority_revocations
        .iter()
        .map(|r| (r.account.as_str(), r.authority_type.as_str(), r.revoked_in.as_str()))
        .collect();
    assert_eq!(revocations, vec![("mint", "MintTokens", "a"), ("mint", "FreezeAccount", "b")]);
}

fn token_flow(from: &str, to: &str, method: &str) -> TokenFlow {
    TokenFlow {
        from: from.to_string(),
        to: to.to_string(),
        amount_expression: "amount".to_string(),
        cpi_method: method.to_string(),
        instruction_order: 1,
    }
}

#[test]
fn summary_gathers_token_flows_by_key() {
    let mut a = instruction("deposit", "Deposit");
    a.token_flows = vec![token_flow("user", "vault", "transfer"), token_flow("user", "vault", "transfer")];
    let mut b = instruction("withdraw", "Withdraw");
    b.token_flows = vec![token_flow("vault", "user", "transfer"), token_flow("user", "vault", "transfer")];
    let mut facts = Facts::named("prog");
    facts.instructions = vec![a, b];

    let sum = generate_summary(&facts);

    assert_eq!(sum.token_flow_summary.len(), 2);
    assert_eq!(
        (sum.token_flow_summary[0].from.as_str(), sum.token_flow_summary[0].to.as_str(), sum.token_flow_summary[0].via.as_str()),
        ("user", "vault", "transfer")
    );
    assert_eq!(sum.token_flow_summary[0].instructions, vec!["deposit".to_string(), "withdraw".to_string()]);
    assert_eq!(sum.token_flow_summary[1].from, "vault");
    assert_eq!(sum.token_flow_summary[1].instructions, vec!["withdraw".to_string()]);
    assert!(sum.sol_flow_summary.is_empty());
}
