use rust_recon::rust_parser::{
    auto_tag_field, check_items_within_limits, has_one_exec, process_file_items, scan_body, summarize_constraints,
};
use rust_recon::syntax::{
    Attr, BinOp, BodyEvent, EnumItem, FieldItem, FnItem, FnParam, MacroItem, SourceItem, StructItem, VariantItem,
};
use rust_recon::types::Facts;

fn attr(name: &str, meta: &str) -> Attr {
    Attr { name: name.to_string(), text: format!("# [{}]", meta), meta: meta.to_string() }
}

fn field(name: &str, ty: &str, path_last: &str, generics: Vec<&str>, attrs: Vec<Attr>) -> FieldItem {
    FieldItem {
        name: name.to_string(),
        ty: ty.to_string(),
        path_last: Some(path_last.to_string()),
        generic_paths: generics.iter().map(|g| g.to_string()).collect(),
        attrs,
    }
}

fn handler() -> FnItem {
    FnItem {
        name: "deposit".to_string(),
        params: vec![
            FnParam {
                pat: "ctx".to_string(),
                ty: "Context < Deposit >".to_string(),
                path_last: Some("Context".to_string()),
                first_generic: Some("Deposit".to_string()),
            },
            FnParam {
                pat: "amount".to_string(),
                ty: "u64".to_string(),
                path_last: Some("u64".to_string()),
                first_generic: None,
            },
        ],
        stmt_texts: vec![
            "require ! (amount > 0 , ErrorCode :: Zero) ;".to_string(),
            "token :: transfer (cpi , amount) ? ;".to_string(),
        ],
        events: vec![
            BodyEvent::Macro {
                name: "require".to_string(),
                tokens: "amount > 0 , ErrorCode :: Zero".to_string(),
                first_token: Some("amount".to_string()),
            },
            BodyEvent::Field { member: Some("remaining_accounts".to_string()) },
            BodyEvent::Binary { op: BinOp::Add, text: "total + amount".to_string() },
            BodyEvent::Binary { op: BinOp::Add, text: "x + y".to_string() },
        ],
        body: vec![],
    }
}

fn deposit_struct() -> StructItem {
    StructItem {
        name: "Deposit".to_string(),
        attrs: vec![attr("derive", "derive (Accounts)")],
        fields: Some(vec![
            field("user", "Signer < 'info >", "Signer", vec![], vec![attr("account", "account (mut)")]),
            field(
                "vault",
                "Account < 'info , Vault >",
                "Account",
                vec!["Vault"],
                vec![attr("account", "account (mut , has_one = user , close = user)")],
            ),
        ]),
    }
}

#[test]
fn file_items_yield_instruction_accounts_errors_and_id() {
    let items = vec![
        SourceItem::Function(handler()),
        SourceItem::Struct(deposit_struct()),
        SourceItem::Enum(EnumItem {
            name: "ErrorCode".to_string(),
            attrs: vec![attr("error_code", "error_code")],
            variants: vec![
                VariantItem { name: "Zero".to_string(), attrs: vec![attr("msg", "msg (\"zero\")")] },
                VariantItem { name: "Other".to_string(), attrs: vec![] },
            ],
        }),
        SourceItem::Macro(MacroItem {
            name: "declare_id".to_string(),
            tokens: "\"Fg6PaFpoGXkYsidMpWTK6W2BeZ7FEfcYkg476zPFsLnS\"".to_string(),
        }),
    ];
    assert!(check_items_within_limits(&items));
    let mut facts = Facts::named("prog");
    process_file_items(&items, "lib.rs", &mut facts);

    assert_eq!(facts.program_id, Some("Fg6PaFpoGXkYsidMpWTK6W2BeZ7FEfcYkg476zPFsLnS".to_string()));
    assert_eq!(facts.instructions.len(), 1);
    let ix = &facts.instructions[0];
    assert_eq!(ix.name, "deposit");
    assert_eq!(ix.context, "Deposit");
    assert_eq!(ix.source, Some("lib.rs".to_string()));
    assert_eq!(ix.params.len(), 1);
    assert_eq!(ix.params[0].name, "amount");
    assert!(ix.params[0].overflow_risk);
    assert_eq!(ix.checks, vec!["require ! (amount > 0 , ErrorCode :: Zero) ;".to_string()]);
    assert_eq!(ix.cpi_calls.len(), 1);
    assert_eq!(ix.cpi_calls[0].target, "token");
    assert_eq!(ix.cpi_calls[0].instruction, "transfer");
    assert_eq!(ix.cpi_calls[0].nesting_depth, Some("top-level".to_string()));
    assert_eq!(ix.cpi_calls[0].instruction_name, Some("deposit".to_string()));
    assert_eq!(ix.body_checks.len(), 1);
    assert_eq!(ix.body_checks[0].condition, Some("amount > 0".to_string()));
    assert_eq!(ix.body_checks[0].error, "ErrorCode :: Zero");
    assert_eq!(ix.error_codes_referenced, vec!["ErrorCode :: Zero".to_string()]);
    assert!(ix.uses_remaining_accounts);
    assert_eq!(ix.arithmetic.len(), 1);
    assert_eq!(ix.arithmetic[0].expression, "total + amount");

    assert_eq!(ix.accounts.len(), 2);
    let user = &ix.accounts[0];
    assert!(user.is_mut && user.is_signer && !user.unchecked);
    assert_eq!(user.wrapper_type, Some("Signer".to_string()));
    let vault = &ix.accounts[1];
    assert_eq!(vault.inner_type, Some("Vault".to_string()));
    assert_eq!(vault.has_one, vec!["user".to_string()]);
    assert_eq!(vault.close_target, Some("user".to_string()));
    assert_eq!(vault.attributes, "account (mut , has_one = user , close = user)");

    assert_eq!(facts.accounts.len(), 1);
    assert_eq!(facts.accounts[0].name, "Deposit");
    assert_eq!(facts.accounts[0].fields[1].type_info, "Account < 'info , Vault >");

    assert_eq!(facts.errors.len(), 2);
    assert_eq!(facts.errors[0].code, "Zero");
    assert_eq!(facts.errors[0].msg, "# [msg (\"zero\")]");
    assert_eq!(facts.errors[1].msg, "Other");
}

#[test]
fn accounts_link_only_to_earlier_handlers() {
    let items = vec![SourceItem::Struct(deposit_struct()), SourceItem::Function(handler())];
    let mut facts = Facts::named("prog");
    process_file_items(&items, "lib.rs", &mut facts);
    assert_eq!(facts.instructions.len(), 1);
    assert!(facts.instructions[0].accounts.is_empty());
    assert_eq!(facts.accounts.len(), 1);
}

#[test]
fn helper_without_logic_is_skipped_and_with_logic_is_kept() {
    let plain = FnItem {
        name: "util".to_string(),
        params: vec![],
        stmt_texts: vec!["let x = 1 ;".to_string()],
        events: vec![],
        body: vec![],
    };
    let busy = FnItem {
        name: "math".to_string(),
        params: vec![],
        stmt_texts: vec![],
        events: vec![BodyEvent::MethodCall { method: "wrapping_sub".to_string(), text: "a . wrapping_sub (b)".to_string() }],
        body: vec![],
    };
    let items = vec![SourceItem::Function(plain), SourceItem::Function(busy)];
    let mut facts = Facts::named("prog");
    process_file_items(&items, "helpers.rs", &mut facts);
    assert_eq!(facts.instructions.len(), 1);
    assert_eq!(facts.instructions[0].name, "math (Helper)");
    assert_eq!(facts.instructions[0].context, "Unknown");
    assert_eq!(facts.instructions[0].arithmetic[0].operation, "sub");
    assert_eq!(facts.instructions[0].arithmetic[0].style, "unchecked");
    assert!(facts.instructions[0].arithmetic[0].overflow_risk);
}

#[test]
fn data_struct_fields_are_tagged() {
    let s = StructItem {
        name: "Vault".to_string(),
        attrs: vec![attr("account", "account")],
        fields: Some(vec![
            field("authority", "Pubkey", "Pubkey", vec![], vec![]),
            field("bump", "u8", "u8", vec![], vec![]),
        ]),
    };
    let mut facts = Facts::named("prog");
    process_file_items(&vec![SourceItem::Struct(s)], "state.rs", &mut facts);
    assert_eq!(facts.data_structs.len(), 1);
    assert_eq!(facts.data_structs[0].attributes, vec!["# [account]".to_string()]);
    assert_eq!(facts.data_structs[0].fields[0].tags, vec!["[AUTHORITY]".to_string(), "[PUBKEY ⚠ validation]".to_string()]);
    assert_eq!(facts.data_structs[0].fields[1].tags, vec!["[STORED BUMP]".to_string()]);
}

#[test]
fn body_scan_reads_checks_events_and_math() {
    let events = vec![
        BodyEvent::Macro {
            name: "require_keys_eq".to_string(),
            tokens: "a . key () , b , ErrorCode :: Owner".to_string(),
            first_token: Some("a".to_string()),
        },
        BodyEvent::Macro { name: "emit".to_string(), tokens: "Deposited { amount }".to_string(), first_token: Some("Deposited".to_string()) },
        BodyEvent::Macro { name: "emit".to_string(), tokens: "Deposited { amount }".to_string(), first_token: Some("Deposited".to_string()) },
        BodyEvent::Macro { name: "require".to_string(), tokens: "ok".to_string(), first_token: Some("ok".to_string()) },
        BodyEvent::MethodCall { method: "checked_mul".to_string(), text: "a . checked_mul (b)".to_string() },
        BodyEvent::MethodCall { method: "remaining_accounts".to_string(), text: "ctx . remaining_accounts ()".to_string() },
        BodyEvent::Binary { op: BinOp::Div, text: "fee / 2".to_string() },
        BodyEvent::Binary { op: BinOp::Other, text: "fee == 2".to_string() },
    ];
    let scan = scan_body(&events);
    assert_eq!(scan.body_checks.len(), 1);
    assert_eq!(scan.body_checks[0].lhs, Some("a . key ()".to_string()));
    assert_eq!(scan.body_checks[0].rhs, Some("b".to_string()));
    assert_eq!(scan.error_codes_referenced, vec!["ErrorCode :: Owner".to_string()]);
    assert_eq!(scan.events_emitted, vec!["Deposited".to_string()]);
    assert!(scan.uses_remaining_accounts);
    let ops: Vec<(&str, &str)> = scan.arithmetic.iter().map(|a| (a.operation.as_str(), a.style.as_str())).collect();
    assert_eq!(ops, vec![("mul", "checked"), ("div", "unchecked")]);
}

#[test]
fn constraint_summaries() {
    assert_eq!(summarize_constraints("account(init, payer = user, seeds = [b\"vault\"], bump)"), "init, seeds = [b\"vault\"]");
    assert_eq!(summarize_constraints("account(mut)"), "mut");
    assert_eq!(summarize_constraints("account(has_one = owner, close = user)"), "has_one, close");
    assert_eq!(summarize_constraints("account (token :: mint = m , token :: authority = a)"), "token::mint, token::authority");
    let open_seeds = format!("account(seeds = {}b\"x\"", '\u{5b}');
    assert_eq!(summarize_constraints(&open_seeds), "seeds=[...]");
    assert_eq!(summarize_constraints(""), "");
}

#[test]
fn field_tags() {
    assert_eq!(auto_tag_field("total_amount", "u64"), vec!["[NUMERIC ⚠ overflow]".to_string()]);
    assert_eq!(auto_tag_field("Bump", "u8"), vec!["[STORED BUMP]".to_string()]);
    assert_eq!(auto_tag_field("is_paused", "bool"), vec!["[PAUSE FLAG]".to_string()]);
    assert_eq!(auto_tag_field("pending_rewards", "u128"), vec!["[NUMERIC ⚠ overflow]".to_string(), "[ACCOUNTING ⚠ reset]".to_string()]);
    assert_eq!(auto_tag_field("last_update_timestamp", "i64"), vec!["[TIMESTAMP ⚠ manipulation]".to_string()]);
    assert!(auto_tag_field("name", "String").is_empty());
}

#[test]
fn has_one_targets_in_order() {
    assert_eq!(has_one_exec("account (has_one = owner , has_one = mint @ Err)"), vec!["owner".to_string(), "mint".to_string()]);
    assert!(has_one_exec("account (mut)").is_empty());
}

#[test]
fn later_files_keep_earlier_instructions_and_errors() {
    let errors = |name: &str, codes: Vec<&str>| {
        SourceItem::Enum(EnumItem {
            name: name.to_string(),
            attrs: vec![attr("error_code", "error_code")],
            variants: codes.iter().map(|c| VariantItem { name: c.to_string(), attrs: vec![] }).collect(),
        })
    };
    let mut facts = Facts::named("prog");
    process_file_items(&vec![SourceItem::Function(handler()), errors("A", vec!["One", "Two"])], "a.rs", &mut facts);
    process_file_items(
        &vec![
            SourceItem::Enum(EnumItem { name: "Plain".to_string(), attrs: vec![], variants: vec![] }),
            errors("B", vec!["Three"]),
            SourceItem::Struct(deposit_struct()),
        ],
        "b.rs",
        &mut facts,
    );
    assert_eq!(facts.instructions.len(), 1);
    assert_eq!(facts.instructions[0].name, "deposit");
    assert_eq!(facts.instructions[0].source, Some("a.rs".to_string()));
    assert_eq!(facts.instructions[0].accounts.len(), 2);
    let codes: Vec<&str> = facts.errors.iter().map(|e| e.code.as_str()).collect();
    assert_eq!(codes, vec!["One", "Two", "Three"]);
}

#[test]
fn field_tags_follow_the_fixed_order_once_each() {
    assert_eq!(
        auto_tag_field("Owner_Authority", "Pubkey"),
        vec!["[AUTHORITY]".to_string(), "[PUBKEY ⚠ validation]".to_string()]
    );
    assert_eq!(
        auto_tag_field("pending_fee_time", "u64"),
        vec![
            "[NUMERIC ⚠ overflow]".to_string(),
            "[ACCOUNTING ⚠ reset]".to_string(),
            "[TIMESTAMP ⚠ manipulation]".to_string(),
        ]
    );
}
