//! Risk flags raised from the facts of each instruction.
use vstd::prelude::*;

use crate::seqs::push_dv;
use crate::text::{concat2, concat3, contains, owned, str_contains, str_eq};
use crate::types::{
    FactInstruction, Facts, InstructionAccount, RiskFlag, SpecArithmetic, SpecFactInstruction,
    SpecInstructionAccount, SpecRiskFlag,
};

verus! {

/// A flag in model form.
pub open spec fn flag(
    severity: Seq<char>,
    ty: Seq<char>,
    instruction: Seq<char>,
    account: Option<Seq<char>>,
    expression: Option<Seq<char>>,
    drain_target: Option<Seq<char>>,
    note: Seq<char>,
) -> SpecRiskFlag {
    SpecRiskFlag { severity, ty, instruction, account, expression, drain_target, note }
}

/// The flags raised by one account of instruction `ix`: an unchecked account, an
/// `init_if_needed` constraint, a `close` target, and a mutable account, in that order.
pub open spec fn account_flags(ix: SpecFactInstruction, acc: SpecInstructionAccount) -> Seq<SpecRiskFlag> {
    (if acc.unchecked {
        seq![flag("high"@, "unchecked_account"@, ix.name, Some(acc.name), None, None,
            "UncheckedAccount — zero Anchor validation."@)]
    } else {
        seq![]
    }) + (if contains(acc.attributes, "init_if_needed"@) {
        seq![flag("medium"@, "init_if_needed"@, ix.name, Some(acc.name), None, None,
            "Re-initialization risk."@)]
    } else {
        seq![]
    }) + (match acc.close_target {
        Some(target) => seq![flag("info"@, "close_drain"@, "close_"@ + acc.name, Some(acc.name), None,
            Some(target), "Verify drain target is not caller-controlled."@)],
        None => seq![],
    }) + (if acc.is_mut {
        seq![flag("low"@, "mutable_account"@, ix.name, Some(acc.name), None, None,
            "Mutable account — verify every write is constrained."@)]
    } else {
        seq![]
    })
}

/// The flags raised by the accounts `accs` of `ix`, account by account.
pub open spec fn accounts_flags(ix: SpecFactInstruction, accs: Seq<SpecInstructionAccount>) -> Seq<SpecRiskFlag>
    decreases accs.len(),
{
    if accs.len() == 0 {
        seq![]
    } else {
        accounts_flags(ix, accs.drop_last()) + account_flags(ix, accs.last())
    }
}

/// The flags raised by the arithmetic `ars` of `ix`: one per operation with overflow risk.
pub open spec fn arithmetic_flags(ix: SpecFactInstruction, ars: Seq<SpecArithmetic>) -> Seq<SpecRiskFlag>
    decreases ars.len(),
{
    if ars.len() == 0 {
        seq![]
    } else {
        arithmetic_flags(ix, ars.drop_last()) + (if ars.last().overflow_risk {
            seq![flag("medium"@, "unchecked_arithmetic"@, ix.name, None, Some(ars.last().expression), None,
                "Raw "@ + ars.last().operation + " operation on numeric field."@)]
        } else {
            seq![]
        })
    }
}

/// Some CPI of the instruction is a `transfer`.
pub open spec fn has_cpi_transfer(ix: SpecFactInstruction) -> bool {
    exists|k: int| 0 <= k < ix.cpi_calls.len() && (#[trigger] ix.cpi_calls[k]).instruction == "transfer"@
}

/// All flags raised by one instruction: its accounts, its arithmetic, use of remaining
/// accounts, and a CPI transfer without any body check.
pub open spec fn instruction_flags(ix: SpecFactInstruction) -> Seq<SpecRiskFlag> {
    accounts_flags(ix, ix.accounts) + arithmetic_flags(ix, ix.arithmetic) + (if ix.uses_remaining_accounts {
        seq![flag("high"@, "remaining_accounts"@, ix.name, None, None, None,
            "Unvalidated account injection surface."@)]
    } else {
        seq![]
    }) + (if has_cpi_transfer(ix) && ix.body_checks.len() == 0 {
        seq![flag("medium"@, "missing_access_control"@, ix.name, None, None, None,
            "Instruction has CPI transfer but lacks require! checks."@)]
    } else {
        seq![]
    })
}

/// The flags of a list of instructions, instruction by instruction.
pub open spec fn all_flags(ixs: Seq<SpecFactInstruction>) -> Seq<SpecRiskFlag>
    decreases ixs.len(),
{
    if ixs.len() == 0 {
        seq![]
    } else {
        all_flags(ixs.drop_last()) + instruction_flags(ixs.last())
    }
}

fn make_flag(
    severity: &str,
    ty: &str,
    instruction: String,
    account: Option<String>,
    expression: Option<String>,
    drain_target: Option<String>,
    note: String,
) -> (r: RiskFlag)
    ensures
        r@ == flag(severity@, ty@, instruction@, account.deep_view(), expression.deep_view(),
            drain_target.deep_view(), note@),
{
    RiskFlag {
        severity: owned(severity),
        ty: owned(ty),
        instruction,
        account,
        expression,
        drain_target,
        note,
    }
}

/// Appends the flags of one account.
fn push_account_flags(flags: &mut Vec<RiskFlag>, ix: &FactInstruction, acc: &InstructionAccount)
    ensures
        final(flags).deep_view() == old(flags).deep_view() + account_flags(ix@, acc@),
{
    let ghost start = flags.deep_view();
    if acc.unchecked {
        push_dv(flags, make_flag("high", "unchecked_account", ix.name.clone(), Some(acc.name.clone()),
            None, None, owned("UncheckedAccount — zero Anchor validation.")));
    }
    let ghost after1 = flags.deep_view();
    if str_contains(acc.attributes.as_str(), "init_if_needed") {
        push_dv(flags, make_flag("medium", "init_if_needed", ix.name.clone(), Some(acc.name.clone()),
            None, None, owned("Re-initialization risk.")));
    }
    let ghost after2 = flags.deep_view();
    match &acc.close_target {
        Some(target) => {
            push_dv(flags, make_flag("info", "close_drain", concat2("close_", acc.name.as_str()),
                Some(acc.name.clone()), None, Some(target.clone()),
                owned("Verify drain target is not caller-controlled.")));
        },
        None => {},
    }
    if acc.is_mut {
        push_dv(flags, make_flag("low", "mutable_account", ix.name.clone(), Some(acc.name.clone()),
            None, None, owned("Mutable account — verify every write is constrained.")));
    }
    assert(flags.deep_view() =~= start + account_flags(ix@, acc@));
}

/// Appends the flags of one instruction.
fn push_instruction_flags(flags: &mut Vec<RiskFlag>, ix: &FactInstruction)
    ensures
        final(flags).deep_view() == old(flags).deep_view() + instruction_flags(ix@),
{
    let ghost start = flags.deep_view();
    let mut i: usize = 0;
    while i < ix.accounts.len()
        invariant
            i <= ix.accounts@.len(),
            flags.deep_view() == start + accounts_flags(ix@, ix@.accounts.subrange(0, i as int)),
        decreases ix.accounts.len() - i,
    {
        push_account_flags(flags, ix, &ix.accounts[i]);
        proof {
            let s = ix@.accounts.subrange(0, i + 1);
            assert(s.drop_last() =~= ix@.accounts.subrange(0, i as int));
            assert(s.last() == ix.accounts@[i as int]@);
        }
        i = i + 1;
    }
    assert(ix@.accounts.subrange(0, i as int) =~= ix@.accounts);
    let ghost after_accounts = flags.deep_view();
    let mut j: usize = 0;
    while j < ix.arithmetic.len()
        invariant
            j <= ix.arithmetic@.len(),
            flags.deep_view() == after_accounts + arithmetic_flags(ix@, ix@.arithmetic.subrange(0, j as int)),
        decreases ix.arithmetic.len() - j,
    {
        let arith = &ix.arithmetic[j];
        proof {
            let s = ix@.arithmetic.subrange(0, j + 1);
            assert(s.drop_last() =~= ix@.arithmetic.subrange(0, j as int));
            assert(s.last() == arith@);
        }
        if arith.overflow_risk {
            push_dv(flags, make_flag("medium", "unchecked_arithmetic", ix.name.clone(), None,
                Some(arith.expression.clone()), None,
                concat3("Raw ", arith.operation.as_str(), " operation on numeric field.")));
        }
        j = j + 1;
    }
    assert(ix@.arithmetic.subrange(0, j as int) =~= ix@.arithmetic);
    let ghost after_arith = flags.deep_view();
    if ix.uses_remaining_accounts {
        push_dv(flags, make_flag("high", "remaining_accounts", ix.name.clone(), None, None, None,
            owned("Unvalidated account injection surface.")));
    }
    let ghost after_remaining = flags.deep_view();
    let mut has_transfer = false;
    let mut k: usize = 0;
    while k < ix.cpi_calls.len()
        invariant
            k <= ix.cpi_calls@.len(),
            has_transfer == exists|m: int| 0 <= m < k && (#[trigger] ix@.cpi_calls[m]).instruction == "transfer"@,
        decreases ix.cpi_calls.len() - k,
    {
        if str_eq(ix.cpi_calls[k].instruction.as_str(), "transfer") {
            assert(ix@.cpi_calls[k as int].instruction == "transfer"@);
            has_transfer = true;
        }
        k = k + 1;
    }
    assert(has_transfer == has_cpi_transfer(ix@));
    if has_transfer && ix.body_checks.len() == 0 {
        push_dv(flags, make_flag("medium", "missing_access_control", ix.name.clone(), None, None, None,
            owned("Instruction has CPI transfer but lacks require! checks.")));
    }
    assert(flags.deep_view() =~= start + instruction_flags(ix@));
}

/// Replaces the flags of `facts` with those raised by its instructions, in instruction order:
/// for each instruction, the flags of its accounts (unchecked, `init_if_needed`, `close`,
/// mutable),
/// then of its risky arithmetic, then use of remaining accounts, then a CPI transfer that
/// no `require!` check guards. Nothing else changes.
pub fn aggregate_flags(facts: &mut Facts)
    ensures
        final(facts)@.flags == all_flags(old(facts)@.instructions),
        final(facts)@.instructions == old(facts)@.instructions,
        final(facts)@.program == old(facts)@.program,
        final(facts)@.program_id == old(facts)@.program_id,
        final(facts)@.accounts == old(facts)@.accounts,
        final(facts)@.data_structs == old(facts)@.data_structs,
        final(facts)@.errors == old(facts)@.errors,
        final(facts)@.cpi_calls == old(facts)@.cpi_calls,
        final(facts)@.risk_signals == old(facts)@.risk_signals,
{
    let mut flags: Vec<RiskFlag> = Vec::new();
    let mut i: usize = 0;
    while i < facts.instructions.len()
        invariant
            i <= facts.instructions@.len(),
            flags.deep_view() == all_flags(facts@.instructions.subrange(0, i as int)),
        decreases facts.instructions.len() - i,
    {
        push_instruction_flags(&mut flags, &facts.instructions[i]);
        proof {
            let s = facts@.instructions.subrange(0, i + 1);
            assert(s.drop_last() =~= facts@.instructions.subrange(0, i as int));
            assert(s.last() == facts.instructions@[i as int]@);
        }
        i = i + 1;
    }
    assert(facts@.instructions.subrange(0, i as int) =~= facts@.instructions);
    facts.flags = flags;
}

} // verus!
