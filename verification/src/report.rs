//! The counts that an extraction reports about its facts.
use vstd::prelude::*;

use crate::merger::linkable_context;
use crate::seqs::push_dv;
use crate::text::str_eq;
use crate::types::{FactInstruction, Facts, SpecFactInstruction};

verus! {

/// The sum of `f` over the instructions `ixs`.
pub open spec fn total(ixs: Seq<SpecFactInstruction>, f: spec_fn(SpecFactInstruction) -> nat) -> nat
    decreases ixs.len(),
{
    if ixs.len() == 0 {
        0
    } else {
        total(ixs.drop_last(), f) + f(ixs.last())
    }
}

/// One for an instruction whose context can link an accounts struct (neither empty nor
/// `Unknown`).
pub open spec fn linked_one() -> spec_fn(SpecFactInstruction) -> nat {
    |ix: SpecFactInstruction| if linkable_context(ix.context) { 1nat } else { 0nat }
}

/// The number of accounts of an instruction.
pub open spec fn accounts_len() -> spec_fn(SpecFactInstruction) -> nat {
    |ix: SpecFactInstruction| ix.accounts.len()
}

/// The number of CPI calls of an instruction.
pub open spec fn cpi_calls_len() -> spec_fn(SpecFactInstruction) -> nat {
    |ix: SpecFactInstruction| ix.cpi_calls.len()
}

/// The number of execution steps of an instruction.
pub open spec fn steps_len() -> spec_fn(SpecFactInstruction) -> nat {
    |ix: SpecFactInstruction| ix.execution_steps.len()
}

/// The number of state mutations of an instruction.
pub open spec fn mutations_len() -> spec_fn(SpecFactInstruction) -> nat {
    |ix: SpecFactInstruction| ix.state_mutations.len()
}

/// The names of the instructions without accounts, in order.
pub open spec fn without_accounts(ixs: Seq<SpecFactInstruction>) -> Seq<Seq<char>>
    decreases ixs.len(),
{
    if ixs.len() == 0 {
        seq![]
    } else if ixs.last().accounts.len() == 0 {
        without_accounts(ixs.drop_last()).push(ixs.last().name)
    } else {
        without_accounts(ixs.drop_last())
    }
}

/// A sum over a prefix is at most the sum over the whole.
pub proof fn lemma_total_prefix(ixs: Seq<SpecFactInstruction>, f: spec_fn(SpecFactInstruction) -> nat, i: int)
    requires
        0 <= i <= ixs.len(),
    ensures
        total(ixs.subrange(0, i), f) <= total(ixs, f),
    decreases ixs.len(),
{
    if i < ixs.len() {
        lemma_total_prefix(ixs.drop_last(), f, i);
        assert(ixs.drop_last().subrange(0, i) =~= ixs.subrange(0, i));
    } else {
        assert(ixs.subrange(0, i) =~= ixs);
    }
}

/// A sum is at most the number of instructions when each term is at most one.
proof fn lemma_linked_bound(ixs: Seq<SpecFactInstruction>)
    ensures
        total(ixs, linked_one()) <= ixs.len(),
    decreases ixs.len(),
{
    if ixs.len() > 0 {
        lemma_linked_bound(ixs.drop_last());
    }
}

/// What an extraction reports: the number of instructions, of those with a linkable
/// context, of accounts, data structs, errors, CPI calls, execution steps, state mutations
/// and flags, and the names of the instructions without accounts.
#[derive(Debug, Clone, PartialEq)]
pub struct ExtractionCounts {
    pub instructions: usize,
    pub linked_contexts: usize,
    pub accounts: usize,
    pub data_structs: usize,
    pub errors: usize,
    pub cpi_calls: usize,
    pub execution_steps: usize,
    pub state_mutations: usize,
    pub flags: usize,
    pub without_accounts: Vec<String>,
}

fn add_checked(a: usize, b: usize) -> (r: Option<usize>)
    ensures
        match r {
            Some(s) => s == a + b,
            None => a + b > usize::MAX,
        },
{
    a.checked_add(b)
}

/// The counts of the facts' extraction. The sums over the instructions are those of their
/// accounts, CPI calls, execution steps and state mutations; `None` when one of them does
/// not fit in `usize`.
pub fn extraction_counts(facts: &Facts) -> (r: Option<ExtractionCounts>)
    ensures
        match r {
            Some(c) => {
                &&& c.instructions == facts@.instructions.len()
                &&& c.linked_contexts == total(facts@.instructions, linked_one())
                &&& c.accounts == total(facts@.instructions, accounts_len())
                &&& c.data_structs == facts@.data_structs.len()
                &&& c.errors == facts@.errors.len()
                &&& c.cpi_calls == total(facts@.instructions, cpi_calls_len())
                &&& c.execution_steps == total(facts@.instructions, steps_len())
                &&& c.state_mutations == total(facts@.instructions, mutations_len())
                &&& c.flags == facts@.flags.len()
                &&& c.without_accounts.deep_view() == without_accounts(facts@.instructions)
            },
            None => {
                ||| total(facts@.instructions, accounts_len()) > usize::MAX
                ||| total(facts@.instructions, cpi_calls_len()) > usize::MAX
                ||| total(facts@.instructions, steps_len()) > usize::MAX
                ||| total(facts@.instructions, mutations_len()) > usize::MAX
            },
        },
{
    let ghost ixs = facts@.instructions;
    let n = facts.instructions.len();
    let mut linked: usize = 0;
    let mut accounts: usize = 0;
    let mut cpis: usize = 0;
    let mut steps: usize = 0;
    let mut mutations: usize = 0;
    let mut unlinked: Vec<String> = Vec::new();
    let mut i: usize = 0;
    while i < n
        invariant
            n == ixs.len(),
            ixs == facts@.instructions,
            i <= n,
            linked == total(ixs.subrange(0, i as int), linked_one()),
            accounts == total(ixs.subrange(0, i as int), accounts_len()),
            cpis == total(ixs.subrange(0, i as int), cpi_calls_len()),
            steps == total(ixs.subrange(0, i as int), steps_len()),
            mutations == total(ixs.subrange(0, i as int), mutations_len()),
            unlinked.deep_view() == without_accounts(ixs.subrange(0, i as int)),
        decreases n - i,
    {
        let ghost pre = ixs.subrange(0, i as int);
        let ghost next = ixs.subrange(0, i + 1);
        proof {
            assert(next.drop_last() =~= pre);
            assert(next.last() == ixs[i as int]);
            lemma_linked_bound(next);
            lemma_total_prefix(ixs, accounts_len(), i + 1);
            lemma_total_prefix(ixs, cpi_calls_len(), i + 1);
            lemma_total_prefix(ixs, steps_len(), i + 1);
            lemma_total_prefix(ixs, mutations_len(), i + 1);
        }
        let ix: &FactInstruction = &facts.instructions[i];
        assert(ix@ == ixs[i as int]);
        let context = ix.context.as_str();
        proof {
            reveal_strlit("");
            assert(context@ == ixs[i as int].context);
            assert(total(next, linked_one()) == total(pre, linked_one()) + (linked_one())(ixs[i as int]));
            assert(total(pre, linked_one()) <= pre.len()) by {
                lemma_linked_bound(pre);
            }
        }
        if !str_eq(context, "") && !str_eq(context, "Unknown") {
            assert(context@.len() > 0) by {
                if context@.len() == 0 {
                    assert(context@ =~= ""@);
                }
            }
            assert(linkable_context(ixs[i as int].context));
            linked = linked + 1;
        } else {
            assert(!linkable_context(ixs[i as int].context));
        }
        match add_checked(accounts, ix.accounts.len()) {
            Some(s) => accounts = s,
            None => return None,
        }
        match add_checked(cpis, ix.cpi_calls.len()) {
            Some(s) => cpis = s,
            None => return None,
        }
        match add_checked(steps, ix.execution_steps.len()) {
            Some(s) => steps = s,
            None => return None,
        }
        match add_checked(mutations, ix.state_mutations.len()) {
            Some(s) => mutations = s,
            None => return None,
        }
        if ix.accounts.len() == 0 {
            push_dv(&mut unlinked, ix.name.clone());
        }
        i = i + 1;
    }
    assert(ixs.subrange(0, i as int) =~= ixs);
    Some(ExtractionCounts {
        instructions: n,
        linked_contexts: linked,
        accounts,
        data_structs: facts.data_structs.len(),
        errors: facts.errors.len(),
        cpi_calls: cpis,
        execution_steps: steps,
        state_mutations: mutations,
        flags: facts.flags.len(),
        without_accounts: unlinked,
    })
}

} // verus!
