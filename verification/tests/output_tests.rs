use rust_recon::output::{sanitize_instruction_name, split_file_name_exec, split_index_entries, split_width_exec};
use rust_recon::report::extraction_counts;
use rust_recon::types::{FactError, FactInstruction, Facts, InstructionAccount, StateMutation};

fn instruction(name: &str, context: &str) -> FactInstruction {
    FactInstruction {
        name: name.to_string(),
        context: context.to_string(),
        args: vec![],
        params: vec![],
        accounts: vec![],
        checks: vec![],
        body_checks: vec![],
        arithmetic: vec![],
        cpi_calls: vec![],
        events_emitted: vec![],
        uses_remaining_accounts: false,
        error_codes_referenced: vec![],
        pda: vec![],
        source: None,
        execution_steps: vec![],
        sol_flows: vec![],
        token_flows: vec![],
        state_mutations: vec![],
        set_authority_calls: vec![],
        partial_lamport_flows: vec![],
    }
}

#[test]
fn sanitized_names() {
    assert_eq!(sanitize_instruction_name("Deposit (aliases: withdraw)"), "deposit_aliases_withdraw");
    assert_eq!(sanitize_instruction_name("___"), "instruction");
    assert_eq!(sanitize_instruction_name(""), "instruction");
    assert_eq!(sanitize_instruction_name("Init2X"), "init2x");
    assert_eq!(sanitize_instruction_name("été_à"), "t");
    let once = sanitize_instruction_name("Claim (Helper)");
    assert_eq!(once, "claim_helper");
    assert_eq!(sanitize_instruction_name(&once), once);
}

#[test]
fn split_file_names() {
    assert_eq!(split_width_exec(5), 2);
    assert_eq!(split_width_exec(123), 3);
    assert_eq!(split_width_exec(0), 2);
    assert_eq!(split_file_name_exec(3, 2, "Deposit"), "03_deposit.json");
    assert_eq!(split_file_name_exec(120, 2, "x"), "120_x.json");
}

#[test]
fn split_index_numbers_from_one() {
    let mut facts = Facts::named("p");
    facts.instructions = vec![instruction("init", "Init"), instruction("Close Account", "Close")];
    let entries = split_index_entries(&facts);
    assert_eq!(entries.len(), 2);
    assert_eq!(entries[0].order, 1);
    assert_eq!(entries[0].file, "01_init.json");
    assert_eq!(entries[1].order, 2);
    assert_eq!(entries[1].instruction, "Close Account");
    assert_eq!(entries[1].context, "Close");
    assert_eq!(entries[1].file, "02_close_account.json");
}

#[test]
fn split_files_are_distinct_even_for_equal_names() {
    let mut facts = Facts::named("p");
    facts.instructions = (0..120).map(|_| instruction("Same!", "Ctx")).collect();
    let entries = split_index_entries(&facts);
    assert_eq!(entries.len(), 120);
    assert_eq!(entries[0].file, "001_same.json");
    assert_eq!(entries[9].file, "010_same.json");
    assert_eq!(entries[119].file, "120_same.json");
    let mut files: Vec<&str> = entries.iter().map(|e| e.file.as_str()).collect();
    files.sort();
    files.dedup();
    assert_eq!(files.len(), 120);
}

fn account(name: &str) -> InstructionAccount {
    InstructionAccount {
        name: name.to_string(),
        type_info: "Signer".to_string(),
        is_mut: false,
        is_signer: true,
        constraints: vec![],
        attributes: String::new(),
        wrapper_type: None,
        inner_type: None,
        unchecked: false,
        has_one: vec![],
        close_target: None,
    }
}

#[test]
fn extraction_counts_sum_over_instructions() {
    let mut a = instruction("init", "Init");
    a.accounts = vec![account("payer"), account("state")];
    a.state_mutations = vec![StateMutation {
        account: "state".to_string(),
        field: "x".to_string(),
        operation: "assign".to_string(),
        value_expression: "1".to_string(),
        instruction_order: 1,
    }];
    let b = instruction("helper (Helper)", "Unknown");
    let c = instruction("orphan", "");
    let mut facts = Facts::named("p");
    facts.instructions = vec![a, b, c];
    facts.errors = vec![FactError { code: "E".to_string(), msg: "E".to_string() }];

    let counts = extraction_counts(&facts).unwrap();
    assert_eq!(counts.instructions, 3);
    assert_eq!(counts.linked_contexts, 1);
    assert_eq!(counts.accounts, 2);
    assert_eq!(counts.errors, 1);
    assert_eq!(counts.data_structs, 0);
    assert_eq!(counts.state_mutations, 1);
    assert_eq!(counts.cpi_calls, 0);
    assert_eq!(counts.execution_steps, 0);
    assert_eq!(counts.flags, 0);
    assert_eq!(counts.without_accounts, vec!["helper (Helper)".to_string(), "orphan".to_string()]);
}

#[test]
fn sanitized_names_are_the_letter_digit_runs() {
    assert_eq!(sanitize_instruction_name("__A-b..C9__"), "a_b_c9");
    assert_eq!(sanitize_instruction_name("x"), "x");
    assert_eq!(sanitize_instruction_name("-- --"), "instruction");
}
