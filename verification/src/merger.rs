//! Combining facts: instructions known only from the IDL, lamport moves paired into SOL
//! flows, handlers that share a context merged, and the program summary.
use vstd::prelude::*;

use crate::seqs::{append_missing, push_dv, push_unique_all};
use crate::text::{
    concat2, concat3, contains, owned, replace, split, str_contains, str_eq, str_replace, str_split, str_trim, trim,
};
use crate::types::{
    FactInstruction, Facts, PartialLamportFlow, SolFlow, SpecFactInstruction, SpecFacts,
    SpecPartialLamportFlow, SpecSolFlow,
};

verus! {

// ---------------------------------------------------------------------------
// Lamport pairs
// ---------------------------------------------------------------------------

/// SOL flows read from the lamport moves from position `i` on: an `out` move directly
/// followed by an `in` move makes one flow from the first account to the second, with the
/// first move's amount and order; other moves are skipped.
pub open spec fn pair_from(p: Seq<SpecPartialLamportFlow>, i: int) -> Seq<SpecSolFlow>
    decreases p.len() - i,
{
    if i < 0 || i >= p.len() {
        seq![]
    } else if i + 1 < p.len() && p[i].direction == "out"@ && p[i + 1].direction == "in"@ {
        seq![
            SpecSolFlow {
                from: p[i].account,
                to: p[i + 1].account,
                amount_expression: p[i].amount_expression,
                method: "try_borrow_mut_lamports()"@,
                instruction_order: p[i].instruction_order,
            },
        ] + pair_from(p, i + 2)
    } else {
        pair_from(p, i + 1)
    }
}

/// SOL flows read from a list of lamport moves.
pub open spec fn pairs(p: Seq<SpecPartialLamportFlow>) -> Seq<SpecSolFlow> {
    pair_from(p, 0)
}

/// Pairs adjacent `out`/`in` lamport moves into SOL flows (see [`pair_from`]).
pub fn pair_lamport_flows(partial: Vec<PartialLamportFlow>) -> (r: Vec<SolFlow>)
    ensures
        r.deep_view() == pairs(partial.deep_view()),
{
    let ghost p = partial.deep_view();
    let mut flows: Vec<SolFlow> = Vec::new();
    let mut i: usize = 0;
    let partial_len = partial.len();
    while i < partial_len
        invariant
            partial_len == partial@.len(),
            p == partial.deep_view(),
            i <= partial_len + 1,
            flows.deep_view() + pair_from(p, i as int) == pairs(p),
        decreases partial_len + 1 - i,
    {
        let ghost prev = flows.deep_view();
        if i + 1 < partial_len {
            let a = &partial[i];
            let b = &partial[i + 1];
            assert(a.deep_view() == p[i as int]);
            assert(b.deep_view() == p[i + 1]);
            if str_eq(a.direction.as_str(), "out") && str_eq(b.direction.as_str(), "in") {
                push_dv(&mut flows, SolFlow {
                    from: a.account.clone(),
                    to: b.account.clone(),
                    amount_expression: a.amount_expression.clone(),
                    method: owned("try_borrow_mut_lamports()"),
                    instruction_order: a.instruction_order,
                });
                assert(flows.deep_view() + pair_from(p, i + 2) =~= prev + pair_from(p, i as int));
                i = i + 2;
                continue;
            }
        }
        i = i + 1;
    }
    assert(pair_from(p, i as int) =~= seq![]);
    assert(flows.deep_view() =~= pairs(p));
    flows
}

// ---------------------------------------------------------------------------
// Deduplication
// ---------------------------------------------------------------------------

/// An instruction with its lamport moves paired into SOL flows and cleared.
pub open spec fn paired(ix: SpecFactInstruction) -> SpecFactInstruction {
    SpecFactInstruction {
        sol_flows: ix.sol_flows + pairs(ix.partial_lamport_flows),
        partial_lamport_flows: seq![],
        ..ix
    }
}

/// A context that can link handlers: neither empty nor `Unknown`.
pub open spec fn linkable_context(c: Seq<char>) -> bool {
    c.len() > 0 && c != "Unknown"@
}

/// The first instruction from position `i` on with context `c`.
pub open spec fn context_index_from(u: Seq<SpecFactInstruction>, c: Seq<char>, i: int) -> Option<int>
    decreases u.len() - i,
{
    if i < 0 || i >= u.len() {
        None
    } else if u[i].context == c {
        Some(i)
    } else {
        context_index_from(u, c, i + 1)
    }
}

/// The instruction of `u` that `ix` is an alias of: the first with the same linkable context.
pub open spec fn alias_index(u: Seq<SpecFactInstruction>, ix: SpecFactInstruction) -> Option<int> {
    if linkable_context(ix.context) {
        context_index_from(u, ix.context, 0)
    } else {
        None
    }
}

/// The name of an instruction after `alias` joins it: unchanged when the names agree or the
/// alias is already listed; otherwise the alias is added to its `(aliases: ...)` list,
/// starting one when there is none.
pub open spec fn aliased_name(name: Seq<char>, alias: Seq<char>) -> Seq<char> {
    if name == alias || contains(name, "aliases: "@ + alias) {
        name
    } else if contains(name, "(aliases: "@) {
        let parts = split(name, "(aliases: "@);
        if parts.len() == 2 {
            let inner = replace(parts[1], ")"@, seq![]);
            trim(parts[0], None) + " (aliases: "@ + inner + ", "@ + alias + ")"@
        } else {
            name
        }
    } else {
        name + " (aliases: "@ + alias + ")"@
    }
}

/// An instruction shows enrichment when it has body checks, arithmetic or CPI calls.
pub open spec fn enriched(ix: SpecFactInstruction) -> bool {
    ix.body_checks.len() > 0 || ix.arithmetic.len() > 0 || ix.cpi_calls.len() > 0
}

/// `e` after its alias `ix` is merged into it. `e` keeps its (aliased) name. When only `ix`
/// is enriched, `ix` takes its place, keeping `e`'s accounts if it has none; when neither is,
/// `ix` takes its place only if `e` has no accounts and `ix` has; when both are, the lists of
/// `ix` that `e` lacks are appended; otherwise `e` stays. In every case but the first, `e`
/// takes the accounts of `ix` when it has none and `ix` has some.
pub open spec fn merge_alias(e0: SpecFactInstruction, ix: SpecFactInstruction) -> SpecFactInstruction {
    let e = SpecFactInstruction { name: aliased_name(e0.name, ix.name), ..e0 };
    if enriched(ix) && !enriched(e) {
        SpecFactInstruction {
            name: e.name,
            accounts: if ix.accounts.len() == 0 && e.accounts.len() > 0 { e.accounts } else { ix.accounts },
            ..ix
        }
    } else if !enriched(ix) && !enriched(e) {
        if e.accounts.len() == 0 && ix.accounts.len() > 0 {
            SpecFactInstruction { name: e.name, ..ix }
        } else {
            e
        }
    } else if enriched(e) && enriched(ix) {
        SpecFactInstruction {
            body_checks: push_unique_all(e.body_checks, ix.body_checks),
            arithmetic: push_unique_all(e.arithmetic, ix.arithmetic),
            cpi_calls: push_unique_all(e.cpi_calls, ix.cpi_calls),
            events_emitted: push_unique_all(e.events_emitted, ix.events_emitted),
            error_codes_referenced: push_unique_all(e.error_codes_referenced, ix.error_codes_referenced),
            execution_steps: push_unique_all(e.execution_steps, ix.execution_steps),
            sol_flows: push_unique_all(e.sol_flows, ix.sol_flows),
            token_flows: push_unique_all(e.token_flows, ix.token_flows),
            state_mutations: push_unique_all(e.state_mutations, ix.state_mutations),
            set_authority_calls: push_unique_all(e.set_authority_calls, ix.set_authority_calls),
            args: push_unique_all(e.args, ix.args),
            accounts: if e.accounts.len() == 0 && ix.accounts.len() > 0 { ix.accounts } else { e.accounts },
            ..e
        }
    } else {
        SpecFactInstruction {
            accounts: if e.accounts.len() == 0 && ix.accounts.len() > 0 { ix.accounts } else { e.accounts },
            ..e
        }
    }
}

/// One instruction added to the deduplicated list: merged into its alias, or appended.
pub open spec fn dedup_step(u: Seq<SpecFactInstruction>, ix: SpecFactInstruction) -> Seq<SpecFactInstruction> {
    match alias_index(u, ix) {
        Some(j) => u.update(j, merge_alias(u[j], ix)),
        None => u.push(ix),
    }
}

/// Instructions deduplicated in order.
pub open spec fn dedup(ixs: Seq<SpecFactInstruction>) -> Seq<SpecFactInstruction>
    decreases ixs.len(),
{
    if ixs.len() == 0 {
        seq![]
    } else {
        dedup_step(dedup(ixs.drop_last()), ixs.last())
    }
}

/// Each instruction with its lamport moves paired.
pub open spec fn paired_all(ixs: Seq<SpecFactInstruction>) -> Seq<SpecFactInstruction> {
    ixs.map_values(|ix: SpecFactInstruction| paired(ix))
}

/// The instructions after deduplication: each with its lamport moves paired, then merged
/// by context.
pub open spec fn deduplicated(ixs: Seq<SpecFactInstruction>) -> Seq<SpecFactInstruction> {
    dedup(paired_all(ixs))
}

} // verus!

verus! {

/// The name of an instruction after `alias` joins it (see [`aliased_name`]).
pub fn aliased_name_exec(name: &str, alias: &str) -> (r: String)
    ensures
        r@ == aliased_name(name@, alias@),
{
    let marker = concat2("aliases: ", alias);
    if str_eq(name, alias) || str_contains(name, marker.as_str()) {
        return owned(name);
    }
    if str_contains(name, "(aliases: ") {
        proof {
            reveal_strlit("(aliases: ");
            reveal_strlit(")");
            reveal_strlit("");
        }
        let parts = str_split(name, "(aliases: ");
        if parts.len() == 2 {
            assert(parts@[0]@ == parts.deep_view()[0]);
            assert(parts@[1]@ == parts.deep_view()[1]);
            assert(""@ =~= Seq::<char>::empty());
            let inner = str_replace(parts[1].as_str(), ")", "");
            let head = str_trim(parts[0].as_str(), None);
            let start = concat3(head.as_str(), " (aliases: ", inner.as_str());
            concat3(start.as_str(), ", ", concat2(alias, ")").as_str())
        } else {
            owned(name)
        }
    } else {
        concat3(name, " (aliases: ", concat2(alias, ")").as_str())
    }
}

fn is_enriched(ix: &FactInstruction) -> (r: bool)
    ensures
        r == enriched(ix@),
{
    ix.body_checks.len() > 0 || ix.arithmetic.len() > 0 || ix.cpi_calls.len() > 0
}

/// `e` after its alias `ix` is merged into it (see [`merge_alias`]).
pub fn merge_alias_exec(e0: FactInstruction, ix: FactInstruction) -> (r: FactInstruction)
    ensures
        r@ == merge_alias(e0@, ix@),
{
    let mut e = e0;
    e.name = aliased_name_exec(e.name.as_str(), ix.name.as_str());
    let e_rich = is_enriched(&e);
    let ix_rich = is_enriched(&ix);
    if ix_rich && !e_rich {
        let mut merged = ix;
        if merged.accounts.len() == 0 && e.accounts.len() > 0 {
            merged.accounts = e.accounts;
        }
        merged.name = e.name;
        merged
    } else if !ix_rich && !e_rich {
        if e.accounts.len() == 0 && ix.accounts.len() > 0 {
            let mut merged = ix;
            merged.name = e.name;
            merged
        } else {
            e
        }
    } else if e_rich && ix_rich {
        let ix_accounts_empty = ix.accounts.len() == 0;
        let FactInstruction {
            body_checks,
            arithmetic,
            cpi_calls,
            events_emitted,
            error_codes_referenced,
            execution_steps,
            sol_flows,
            token_flows,
            state_mutations,
            set_authority_calls,
            args,
            accounts,
            ..
        } = ix;
        append_missing(&mut e.body_checks, body_checks);
        append_missing(&mut e.arithmetic, arithmetic);
        append_missing(&mut e.cpi_calls, cpi_calls);
        append_missing(&mut e.events_emitted, events_emitted);
        append_missing(&mut e.error_codes_referenced, error_codes_referenced);
        append_missing(&mut e.execution_steps, execution_steps);
        append_missing(&mut e.sol_flows, sol_flows);
        append_missing(&mut e.token_flows, token_flows);
        append_missing(&mut e.state_mutations, state_mutations);
        append_missing(&mut e.set_authority_calls, set_authority_calls);
        append_missing(&mut e.args, args);
        if e.accounts.len() == 0 && !ix_accounts_empty {
            e.accounts = accounts;
        }
        e
    } else {
        if e.accounts.len() == 0 && ix.accounts.len() > 0 {
            e.accounts = ix.accounts;
        }
        e
    }
}

fn find_context(unique: &Vec<FactInstruction>, context: &str) -> (r: Option<usize>)
    ensures
        match r {
            Some(j) => j < unique@.len() && context_index_from(unique.deep_view(), context@, 0) == Some(j as int),
            None => context_index_from(unique.deep_view(), context@, 0) is None,
        },
{
    let ghost u = unique.deep_view();
    let mut j: usize = 0;
    while j < unique.len()
        invariant
            j <= unique@.len(),
            u == unique.deep_view(),
            context_index_from(u, context@, 0) == context_index_from(u, context@, j as int),
        decreases unique.len() - j,
    {
        if str_eq(unique[j].context.as_str(), context) {
            return Some(j);
        }
        j = j + 1;
    }
    None
}

/// Adds one instruction to the deduplicated list (see [`dedup_step`]).
pub fn dedup_push(unique: &mut Vec<FactInstruction>, ix: FactInstruction)
    ensures
        final(unique).deep_view() == dedup_step(old(unique).deep_view(), ix@),
{
    let ghost u = unique.deep_view();
    let linkable = crate::text::char_len(ix.context.as_str()) > 0 && !str_eq(ix.context.as_str(), "Unknown");
    let found = if linkable {
        find_context(unique, ix.context.as_str())
    } else {
        None
    };
    match found {
        Some(j) => {
            let existing = unique.remove(j);
            let merged = merge_alias_exec(existing, ix);
            unique.insert(j, merged);
            assert(unique.deep_view() =~= u.update(j as int, merge_alias(u[j as int], ix@)));
        },
        None => {
            push_dv(unique, ix);
        },
    }
}

} // verus!

verus! {

/// Pairs the lamport moves of an instruction into SOL flows and clears them.
pub fn pair_instruction_flows(ix: &mut FactInstruction)
    ensures
        final(ix)@ == paired(old(ix)@),
{
    if ix.partial_lamport_flows.len() > 0 {
        let mut partial: Vec<PartialLamportFlow> = Vec::new();
        std::mem::swap(&mut partial, &mut ix.partial_lamport_flows);
        let paired_flows = pair_lamport_flows(partial);
        crate::seqs::append_dv(&mut ix.sol_flows, paired_flows);
        assert(ix@.partial_lamport_flows =~= seq![]);
    } else {
        assert(pairs(old(ix)@.partial_lamport_flows) =~= seq![]);
        assert(ix@.sol_flows =~= old(ix)@.sol_flows + pairs(old(ix)@.partial_lamport_flows));
        assert(ix@.partial_lamport_flows =~= seq![]);
    }
}

/// Pairs the lamport moves of every instruction into SOL flows, then merges the handlers that
/// share a context (neither empty nor `Unknown`) into the first of them, listing the other
/// names as aliases (see [`merge_alias`]). Nothing else of the facts changes.
pub fn deduplicate_instructions(facts: &mut Facts)
    ensures
        final(facts)@ == (SpecFacts { instructions: deduplicated(old(facts)@.instructions), ..old(facts)@ }),
{
    let ghost all = paired_all(old(facts)@.instructions);
    let mut ixs: Vec<FactInstruction> = Vec::new();
    std::mem::swap(&mut ixs, &mut facts.instructions);
    assert(facts@.instructions =~= seq![]);
    assert(facts@ == (SpecFacts { instructions: seq![], ..old(facts)@ }));
    let n0 = ixs.len();
    let mut unique: Vec<FactInstruction> = Vec::new();
    let mut k: usize = 0;
    while ixs.len() > 0
        invariant
            all.len() == n0,
            k + ixs@.len() == n0,
            paired_all(ixs.deep_view()) =~= all.subrange(k as int, n0 as int),
            unique.deep_view() == dedup(all.subrange(0, k as int)),
            facts@ == (SpecFacts { instructions: seq![], ..old(facts)@ }),
        decreases ixs.len(),
    {
        let ghost before = ixs.deep_view();
        let mut ix = ixs.remove(0);
        assert(ix@ == before[0]);
        assert(ixs.deep_view() =~= before.subrange(1, before.len() as int));
        assert(paired(ix@) == all[k as int]) by {
            assert(paired_all(before)[0] == all.subrange(k as int, n0 as int)[0]);
        }
        assert(paired_all(ixs.deep_view()) =~= all.subrange(k + 1, n0 as int)) by {
            assert forall|j: int| 0 <= j < ixs.deep_view().len() implies
                #[trigger] paired_all(ixs.deep_view())[j] == all.subrange(k + 1, n0 as int)[j] by {
                assert(ixs.deep_view()[j] == before[j + 1]);
                assert(paired_all(before)[j + 1] == all.subrange(k as int, n0 as int)[j + 1]);
            }
        }
        pair_instruction_flows(&mut ix);
        proof {
            let s = all.subrange(0, k + 1);
            assert(s.drop_last() =~= all.subrange(0, k as int));
            assert(s.last() == all[k as int]);
        }
        dedup_push(&mut unique, ix);
        k = k + 1;
    }
    assert(all.subrange(0, k as int) =~= all);
    facts.instructions = unique;
}

} // verus!

verus! {

// ---------------------------------------------------------------------------
// IDL merge
// ---------------------------------------------------------------------------

/// An instruction known only by name from the IDL.
pub open spec fn idl_placeholder(name: Seq<char>) -> SpecFactInstruction {
    SpecFactInstruction {
        name,
        context: "Unknown"@,
        args: seq![],
        params: seq![],
        accounts: seq![],
        checks: seq![],
        body_checks: seq![],
        arithmetic: seq![],
        cpi_calls: seq![],
        events_emitted: seq![],
        uses_remaining_accounts: false,
        error_codes_referenced: seq![],
        pda: seq![],
        source: None,
        execution_steps: seq![],
        sol_flows: seq![],
        token_flows: seq![],
        state_mutations: seq![],
        set_authority_calls: seq![],
        partial_lamport_flows: seq![],
    }
}

/// Some instruction of `ixs` has the name `n`.
pub open spec fn has_instruction_named(ixs: Seq<SpecFactInstruction>, n: Seq<char>) -> bool {
    exists|k: int| 0 <= k < ixs.len() && (#[trigger] ixs[k]).name == n
}

/// `ixs` after the IDL names `names` are merged in order: each name that no instruction has
/// yet adds a placeholder instruction.
pub open spec fn merge_names(ixs: Seq<SpecFactInstruction>, names: Seq<Option<Seq<char>>>) -> Seq<SpecFactInstruction>
    decreases names.len(),
{
    if names.len() == 0 {
        ixs
    } else {
        let prev = merge_names(ixs, names.drop_last());
        match names.last() {
            Some(n) => if has_instruction_named(prev, n) {
                prev
            } else {
                prev.push(idl_placeholder(n))
            },
            None => prev,
        }
    }
}

/// The instructions after merging an optional IDL.
pub open spec fn merged_with_idl(ixs: Seq<SpecFactInstruction>, idl: Option<crate::idl::IdlDocument>) -> Seq<SpecFactInstruction> {
    match idl {
        Some(doc) => merge_names(ixs, crate::idl::idl_names(doc)),
        None => ixs,
    }
}

fn placeholder(name: &String) -> (r: FactInstruction)
    ensures
        r@ == idl_placeholder(name@),
{
    let r = FactInstruction {
        name: name.clone(),
        context: owned("Unknown"),
        args: Vec::new(),
        accounts: Vec::new(),
        checks: Vec::new(),
        cpi_calls: Vec::new(),
        pda: Vec::new(),
        source: None,
        params: Vec::new(),
        body_checks: Vec::new(),
        arithmetic: Vec::new(),
        events_emitted: Vec::new(),
        uses_remaining_accounts: false,
        error_codes_referenced: Vec::new(),
        execution_steps: Vec::new(),
        sol_flows: Vec::new(),
        token_flows: Vec::new(),
        state_mutations: Vec::new(),
        set_authority_calls: Vec::new(),
        partial_lamport_flows: Vec::new(),
    };
    assert(r@.args =~= seq![]);
    assert(r@.params =~= seq![]);
    assert(r@.accounts =~= seq![]);
    assert(r@.checks =~= seq![]);
    assert(r@.body_checks =~= seq![]);
    assert(r@.arithmetic =~= seq![]);
    assert(r@.cpi_calls =~= seq![]);
    assert(r@.events_emitted =~= seq![]);
    assert(r@.error_codes_referenced =~= seq![]);
    assert(r@.pda =~= seq![]);
    assert(r@.execution_steps =~= seq![]);
    assert(r@.sol_flows =~= seq![]);
    assert(r@.token_flows =~= seq![]);
    assert(r@.state_mutations =~= seq![]);
    assert(r@.set_authority_calls =~= seq![]);
    assert(r@.partial_lamport_flows =~= seq![]);
    r
}

fn instruction_named(ixs: &Vec<FactInstruction>, n: &str) -> (r: bool)
    ensures
        r == has_instruction_named(ixs.deep_view(), n@),
{
    let mut i: usize = 0;
    while i < ixs.len()
        invariant
            i <= ixs@.len(),
            forall|k: int| 0 <= k < i ==> ixs.deep_view()[k].name != n@,
        decreases ixs.len() - i,
    {
        if str_eq(ixs[i].name.as_str(), n) {
            assert(ixs.deep_view()[i as int].name == n@);
            return true;
        }
        i = i + 1;
    }
    false
}

/// Adds a placeholder instruction for each IDL instruction name that the facts lack, in
/// IDL order. Nothing else of the facts changes.
pub fn merge_idl_and_rust(idl: Option<crate::idl::IdlDocument>, facts: &mut Facts)
    ensures
        final(facts)@ == (SpecFacts { instructions: merged_with_idl(old(facts)@.instructions, idl), ..old(facts)@ }),
{
    if let Some(doc) = idl {
        if let Some(entries) = &doc.instructions {
            let ghost names = crate::idl::idl_names(doc);
            let mut i: usize = 0;
            while i < entries.len()
                invariant
                    i <= entries@.len(),
                    names == entries@.map_values(|e: crate::idl::IdlInstruction| e.name.deep_view()),
                    facts@ == (SpecFacts {
                        instructions: merge_names(old(facts)@.instructions, names.subrange(0, i as int)),
                        ..old(facts)@
                    }),
                decreases entries.len() - i,
            {
                proof {
                    let s = names.subrange(0, i + 1);
                    assert(s.drop_last() =~= names.subrange(0, i as int));
                    assert(s.last() == entries@[i as int].name.deep_view());
                }
                match &entries[i].name {
                    Some(name) => {
                        if !instruction_named(&facts.instructions, name.as_str()) {
                            push_dv(&mut facts.instructions, placeholder(name));
                        }
                    },
                    None => {},
                }
                i = i + 1;
            }
            assert(names.subrange(0, i as int) =~= names);
        } else {
            assert(crate::idl::idl_names(doc) =~= seq![]);
        }
    }
}

} // verus!
