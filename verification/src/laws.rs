//! Properties that hold across the extraction's operations.
use vstd::prelude::*;

use crate::idl::{idl_names, IdlDocument};
use crate::merger::{
    alias_index, context_index_from, dedup, dedup_step, deduplicated, has_instruction_named, idl_placeholder,
    linkable_context, merge_alias, merge_names, merged_with_idl, pair_from, paired, paired_all, pairs,
};
use crate::flow_extractor::{expr_facts, expr_incs, stmt_facts, stmt_incs, stmts_facts, stmts_incs, SpecBodyFacts};
use crate::syntax::{Expr, Stmt};
use crate::text::{decimal, digit, zero_pad};
use crate::types::{SpecExecutionStep, SpecFactInstruction, SpecPartialLamportFlow};

verus! {

// ---------------------------------------------------------------------------
// IDL merge
// ---------------------------------------------------------------------------

/// Merging IDL names only appends: the instructions before the merge stay where they were.
pub proof fn lemma_merge_prefix(ixs: Seq<SpecFactInstruction>, names: Seq<Option<Seq<char>>>)
    ensures
        merge_names(ixs, names).len() >= ixs.len(),
        merge_names(ixs, names).subrange(0, ixs.len() as int) == ixs,
    decreases names.len(),
{
    if names.len() > 0 {
        lemma_merge_prefix(ixs, names.drop_last());
        let prev = merge_names(ixs, names.drop_last());
        assert(prev.push(idl_placeholder(seq![])).subrange(0, ixs.len() as int) =~= prev.subrange(0, ixs.len() as int));
        match names.last() {
            Some(n) => {
                assert(prev.push(idl_placeholder(n)).subrange(0, ixs.len() as int) =~= prev.subrange(
                    0,
                    ixs.len() as int,
                ));
            },
            None => {},
        }
    }
}

/// After an IDL merge every named IDL instruction is among the instructions.
pub proof fn law_merge_covers_idl(ixs: Seq<SpecFactInstruction>, names: Seq<Option<Seq<char>>>, k: int)
    requires
        0 <= k < names.len(),
        names[k] is Some,
    ensures
        has_instruction_named(merge_names(ixs, names), names[k].unwrap()),
    decreases names.len(),
{
    let prev = merge_names(ixs, names.drop_last());
    let n = names[k].unwrap();
    if k < names.len() - 1 {
        law_merge_covers_idl(ixs, names.drop_last(), k);
        let w = choose|w: int| 0 <= w < prev.len() && (#[trigger] prev[w]).name == n;
        let r = merge_names(ixs, names);
        assert(r[w] == prev[w]);
    } else {
        let r = merge_names(ixs, names);
        if !has_instruction_named(prev, n) {
            assert(r[prev.len() as int].name == n);
        }
    }
}

/// Merging names that are all present already changes nothing.
pub proof fn lemma_merge_present(ixs: Seq<SpecFactInstruction>, names: Seq<Option<Seq<char>>>)
    requires
        forall|k: int| 0 <= k < names.len() && (#[trigger] names[k]) is Some ==> has_instruction_named(ixs, names[k].unwrap()),
    ensures
        merge_names(ixs, names) == ixs,
    decreases names.len(),
{
    if names.len() > 0 {
        assert forall|k: int| 0 <= k < names.drop_last().len() && (#[trigger] names.drop_last()[k]) is Some implies
            has_instruction_named(ixs, names.drop_last()[k].unwrap()) by {
            assert(names.drop_last()[k] == names[k]);
        }
        lemma_merge_present(ixs, names.drop_last());
        let last = names.last();
        assert(names[names.len() - 1] == last);
    }
}

/// Merging the same IDL twice gives what merging it once gives.
pub proof fn law_merge_idempotent(ixs: Seq<SpecFactInstruction>, idl: Option<IdlDocument>)
    ensures
        merged_with_idl(merged_with_idl(ixs, idl), idl) == merged_with_idl(ixs, idl),
{
    match idl {
        Some(doc) => {
            let names = idl_names(doc);
            let once = merge_names(ixs, names);
            assert forall|k: int| 0 <= k < names.len() && (#[trigger] names[k]) is Some implies
                has_instruction_named(once, names[k].unwrap()) by {
                law_merge_covers_idl(ixs, names, k);
            }
            lemma_merge_present(once, names);
        },
        None => {},
    }
}

// ---------------------------------------------------------------------------
// Deduplication
// ---------------------------------------------------------------------------

/// No two instructions share a context that can link handlers.
pub open spec fn contexts_unique(u: Seq<SpecFactInstruction>) -> bool {
    forall|i: int, j: int| 0 <= i < j < u.len() && linkable_context(#[trigger] u[i].context) ==> u[i].context != (#[trigger] u[j]).context
}

/// No instruction holds unpaired lamport moves.
pub open spec fn no_partial_flows(u: Seq<SpecFactInstruction>) -> bool {
    forall|i: int| 0 <= i < u.len() ==> (#[trigger] u[i]).partial_lamport_flows.len() == 0
}

pub(crate) proof fn lemma_context_index_from(u: Seq<SpecFactInstruction>, c: Seq<char>, i: int)
    requires
        0 <= i,
    ensures
        context_index_from(u, c, i) matches Some(j) ==> i <= j < u.len() && u[j].context == c,
        context_index_from(u, c, i) is None ==> forall|j: int| i <= j < u.len() ==> (#[trigger] u[j]).context != c,
    decreases u.len() - i,
{
    if i < u.len() && u[i].context != c {
        lemma_context_index_from(u, c, i + 1);
    }
}

proof fn lemma_merge_alias_keeps(e: SpecFactInstruction, ix: SpecFactInstruction)
    requires
        e.context == ix.context,
        e.partial_lamport_flows.len() == 0,
        ix.partial_lamport_flows.len() == 0,
    ensures
        merge_alias(e, ix).context == e.context,
        merge_alias(e, ix).partial_lamport_flows.len() == 0,
{
}

proof fn lemma_dedup_step(u: Seq<SpecFactInstruction>, ix: SpecFactInstruction)
    requires
        contexts_unique(u),
        no_partial_flows(u),
        ix.partial_lamport_flows.len() == 0,
    ensures
        contexts_unique(dedup_step(u, ix)),
        no_partial_flows(dedup_step(u, ix)),
{
    let r = dedup_step(u, ix);
    if linkable_context(ix.context) {
        lemma_context_index_from(u, ix.context, 0);
    }
    match alias_index(u, ix) {
        Some(j) => {
            lemma_merge_alias_keeps(u[j], ix);
            assert forall|a: int, b: int| 0 <= a < b < r.len() && linkable_context(#[trigger] r[a].context) implies r[a].context != (#[trigger] r[b]).context by {
                assert(r[a].context == u[a].context);
                assert(r[b].context == u[b].context);
            }
        },
        None => {
            assert forall|a: int, b: int| 0 <= a < b < r.len() && linkable_context(#[trigger] r[a].context) implies r[a].context != (#[trigger] r[b]).context by {
                if b < u.len() {
                    assert(r[a] == u[a] && r[b] == u[b]);
                } else {
                    assert(r[b] == ix);
                    assert(r[a] == u[a]);
                }
            }
        },
    }
}

proof fn lemma_dedup_invariant(ixs: Seq<SpecFactInstruction>)
    requires
        no_partial_flows(ixs),
    ensures
        contexts_unique(dedup(ixs)),
        no_partial_flows(dedup(ixs)),
    decreases ixs.len(),
{
    if ixs.len() > 0 {
        assert(no_partial_flows(ixs.drop_last())) by {
            assert forall|i: int| 0 <= i < ixs.drop_last().len() implies (#[trigger] ixs.drop_last()[i]).partial_lamport_flows.len() == 0 by {
                assert(ixs.drop_last()[i] == ixs[i]);
            }
        }
        lemma_dedup_invariant(ixs.drop_last());
        assert(ixs.last() == ixs[ixs.len() - 1]);
        lemma_dedup_step(dedup(ixs.drop_last()), ixs.last());
    }
}

proof fn lemma_paired_all_clears(ixs: Seq<SpecFactInstruction>)
    ensures
        no_partial_flows(paired_all(ixs)),
{
    assert forall|i: int| 0 <= i < paired_all(ixs).len() implies (#[trigger] paired_all(ixs)[i]).partial_lamport_flows.len() == 0 by {
        assert(paired_all(ixs)[i] == paired(ixs[i]));
    }
}

/// After deduplication no two instructions share a context that can link handlers (one that
/// is neither empty nor `Unknown`), and no instruction keeps unpaired lamport moves.
pub proof fn law_dedup_unique_contexts(ixs: Seq<SpecFactInstruction>)
    ensures
        contexts_unique(deduplicated(ixs)),
        no_partial_flows(deduplicated(ixs)),
{
    lemma_paired_all_clears(ixs);
    lemma_dedup_invariant(paired_all(ixs));
}

proof fn lemma_dedup_unique_is_identity(u: Seq<SpecFactInstruction>)
    requires
        contexts_unique(u),
    ensures
        dedup(u) == u,
    decreases u.len(),
{
    if u.len() > 0 {
        let d = u.drop_last();
        assert(contexts_unique(d)) by {
            assert forall|i: int, j: int| 0 <= i < j < d.len() && linkable_context(#[trigger] d[i].context) implies d[i].context != (#[trigger] d[j]).context by {
                assert(d[i] == u[i] && d[j] == u[j]);
            }
        }
        lemma_dedup_unique_is_identity(d);
        let last = u.last();
        if linkable_context(last.context) {
            lemma_context_index_from(d, last.context, 0);
            if let Some(j) = context_index_from(d, last.context, 0) {
                assert(d[j] == u[j]);
                assert(u[u.len() - 1] == last);
                assert(false);
            }
        }
        assert(d.push(last) =~= u);
    }
}

proof fn lemma_paired_all_identity(u: Seq<SpecFactInstruction>)
    requires
        no_partial_flows(u),
    ensures
        paired_all(u) == u,
{
    assert forall|i: int| 0 <= i < u.len() implies #[trigger] paired_all(u)[i] == u[i] by {
        let x = u[i];
        assert(pairs(x.partial_lamport_flows) =~= seq![]);
        assert(x.sol_flows + pairs(x.partial_lamport_flows) =~= x.sol_flows);
        assert(x.partial_lamport_flows =~= seq![]);
        assert(paired(x) =~= x);
    }
    assert(paired_all(u) =~= u);
}

/// Deduplicating twice gives what deduplicating once gives.
pub proof fn law_dedup_idempotent(ixs: Seq<SpecFactInstruction>)
    ensures
        deduplicated(deduplicated(ixs)) == deduplicated(ixs),
{
    let once = deduplicated(ixs);
    law_dedup_unique_contexts(ixs);
    lemma_paired_all_identity(once);
    lemma_dedup_unique_is_identity(once);
}

// ---------------------------------------------------------------------------
// Lamport pairs
// ---------------------------------------------------------------------------

/// Each SOL flow uses two lamport moves: there are at most half as many flows as moves.
pub proof fn law_pairs_bound(p: Seq<SpecPartialLamportFlow>)
    ensures
        2 * pairs(p).len() <= p.len(),
{
    lemma_pair_from_bound(p, 0);
}

proof fn lemma_pair_from_bound(p: Seq<SpecPartialLamportFlow>, i: int)
    requires
        0 <= i,
    ensures
        2 * pair_from(p, i).len() <= if i <= p.len() { p.len() - i } else { 0 },
    decreases p.len() - i,
{
    if i < p.len() {
        if i + 1 < p.len() && p[i].direction == "out"@ && p[i + 1].direction == "in"@ {
            lemma_pair_from_bound(p, i + 2);
        } else {
            lemma_pair_from_bound(p, i + 1);
        }
    }
}

/// Every SOL flow comes from an `out` move directly followed by an `in` move: it runs from the
/// first move's account to the second's.
pub proof fn law_pairs_sound(p: Seq<SpecPartialLamportFlow>, k: int)
    requires
        0 <= k < pairs(p).len(),
    ensures
        exists|i: int| 0 <= i && i + 1 < p.len() && (#[trigger] p[i]).direction == "out"@ && p[i + 1].direction == "in"@
            && pairs(p)[k].from == p[i].account && pairs(p)[k].to == p[i + 1].account
            && pairs(p)[k].amount_expression == p[i].amount_expression,
{
    lemma_pair_from_sound(p, 0, k);
}

proof fn lemma_pair_from_sound(p: Seq<SpecPartialLamportFlow>, i: int, k: int)
    requires
        0 <= i,
        0 <= k < pair_from(p, i).len(),
    ensures
        exists|j: int| i <= j && j + 1 < p.len() && (#[trigger] p[j]).direction == "out"@ && p[j + 1].direction == "in"@
            && pair_from(p, i)[k].from == p[j].account && pair_from(p, i)[k].to == p[j + 1].account
            && pair_from(p, i)[k].amount_expression == p[j].amount_expression,
    decreases p.len() - i,
{
    if i + 1 < p.len() && p[i].direction == "out"@ && p[i + 1].direction == "in"@ {
        if k == 0 {
            assert(p[i].direction == "out"@);
        } else {
            lemma_pair_from_sound(p, i + 2, k - 1);
            let j = choose|j: int| i + 2 <= j && j + 1 < p.len() && (#[trigger] p[j]).direction == "out"@ && p[j + 1].direction == "in"@
                && pair_from(p, i + 2)[k - 1].from == p[j].account && pair_from(p, i + 2)[k - 1].to == p[j + 1].account
                && pair_from(p, i + 2)[k - 1].amount_expression == p[j].amount_expression;
            assert(pair_from(p, i)[k] == pair_from(p, i + 2)[k - 1]);
        }
    } else {
        lemma_pair_from_sound(p, i + 1, k);
        let j = choose|j: int| i + 1 <= j && j + 1 < p.len() && (#[trigger] p[j]).direction == "out"@ && p[j + 1].direction == "in"@
            && pair_from(p, i + 1)[k].from == p[j].account && pair_from(p, i + 1)[k].to == p[j + 1].account
            && pair_from(p, i + 1)[k].amount_expression == p[j].amount_expression;
    }
}

} // verus!

verus! {

// ---------------------------------------------------------------------------
// File names
// ---------------------------------------------------------------------------

/// A character that may stand in a sanitised name: a lower-case ASCII letter, a digit, or `_`.
pub open spec fn name_char(c: char) -> bool {
    ('0' <= c <= '9') || ('a' <= c <= 'z') || c == '_'
}

/// A sanitised name: not empty, only name characters, neither starting nor ending with `_`,
/// and never two `_` in a row.
pub open spec fn well_formed_name(s: Seq<char>) -> bool {
    &&& s.len() > 0
    &&& forall|i: int| 0 <= i < s.len() ==> name_char(#[trigger] s[i])
    &&& s[0] != '_'
    &&& s[s.len() - 1] != '_'
    &&& forall|i: int| 0 <= i < s.len() - 1 ==> !(#[trigger] s[i] == '_' && s[i + 1] == '_')
}

proof fn lemma_safe_char(c: char)
    ensures
        name_char(crate::output::safe_char(c)),
        name_char(c) ==> crate::output::safe_char(c) == c,
{
}

proof fn lemma_collapse(s: Seq<char>)
    ensures
        forall|i: int| 0 <= i < crate::output::collapse(s).len() ==> name_char(#[trigger] crate::output::collapse(s)[i]),
        forall|i: int| 0 <= i < crate::output::collapse(s).len() - 1 ==> !(#[trigger] crate::output::collapse(s)[i] == '_'
            && crate::output::collapse(s)[i + 1] == '_'),
    decreases s.len(),
{
    if s.len() > 0 {
        lemma_collapse(s.drop_last());
        lemma_safe_char(s.last());
        let prev = crate::output::collapse(s.drop_last());
        let r = crate::output::collapse(s);
        assert forall|i: int| 0 <= i < r.len() implies name_char(#[trigger] r[i]) by {
            if i < prev.len() {
                assert(r[i] == prev[i]);
            }
        }
        assert forall|i: int| 0 <= i < r.len() - 1 implies !(#[trigger] r[i] == '_' && r[i + 1] == '_') by {
            if i + 1 < prev.len() {
                assert(r[i] == prev[i] && r[i + 1] == prev[i + 1]);
            } else if r.len() > prev.len() {
                assert(r[i] == prev[i]);
                assert(prev.last() == prev[i]);
            }
        }
    }
}

proof fn lemma_last_kept_end_kept(s: Seq<char>, k: Option<char>, j: int)
    requires
        0 <= j <= s.len(),
    ensures
        0 <= crate::text::last_kept_end(s, k, j) <= j,
        crate::text::last_kept_end(s, k, j) > 0 ==> !crate::text::trimmed_by(k, s[crate::text::last_kept_end(s, k, j) - 1]),
    decreases j,
{
    if 0 < j && crate::text::trimmed_by(k, s[j - 1]) {
        lemma_last_kept_end_kept(s, k, j - 1);
    }
}

proof fn lemma_instruction_literal()
    ensures
        well_formed_name("instruction"@),
{
    reveal_strlit("instruction");
}

/// A sanitised instruction name is a well-formed file name part: lower-case ASCII letters,
/// digits and single `_` between them, never empty.
pub proof fn law_sanitized_well_formed(name: Seq<char>)
    ensures
        well_formed_name(crate::output::sanitized(name)),
{
    let c = crate::output::collapse(name);
    lemma_collapse(name);
    let t = crate::text::trim(c, Some('_'));
    let a = crate::text::first_kept(c, Some('_'), 0);
    crate::text::lemma_first_kept(c, Some('_'), 0);
    if a >= c.len() {
        lemma_instruction_literal();
    } else {
        let e = crate::text::last_kept_end(c, Some('_'), c.len() as int);
        crate::text::lemma_last_kept_end(c, Some('_'), c.len() as int, a);
        lemma_last_kept_end_kept(c, Some('_'), c.len() as int);
        assert(t == c.subrange(a, e));
        assert(t.len() > 0);
        assert forall|i: int| 0 <= i < t.len() implies name_char(#[trigger] t[i]) by {
            assert(t[i] == c[a + i]);
        }
        assert forall|i: int| 0 <= i < t.len() - 1 implies !(#[trigger] t[i] == '_' && t[i + 1] == '_') by {
            assert(t[i] == c[a + i] && t[i + 1] == c[a + i + 1]);
        }
        assert(t[0] == c[a]);
        assert(t[t.len() - 1] == c[e - 1]);
    }
}

proof fn lemma_collapse_identity(t: Seq<char>)
    requires
        forall|i: int| 0 <= i < t.len() ==> name_char(#[trigger] t[i]),
        forall|i: int| 0 <= i < t.len() - 1 ==> !(#[trigger] t[i] == '_' && t[i + 1] == '_'),
    ensures
        crate::output::collapse(t) == t,
    decreases t.len(),
{
    if t.len() > 0 {
        let d = t.drop_last();
        assert forall|i: int| 0 <= i < d.len() implies name_char(#[trigger] d[i]) by {
            assert(d[i] == t[i]);
        }
        assert forall|i: int| 0 <= i < d.len() - 1 implies !(#[trigger] d[i] == '_' && d[i + 1] == '_') by {
            assert(d[i] == t[i] && d[i + 1] == t[i + 1]);
        }
        lemma_collapse_identity(d);
        lemma_safe_char(t.last());
        assert(name_char(t[t.len() - 1]));
        if d.len() > 0 {
            assert(d.last() == t[t.len() - 2]);
        }
        assert(d.push(t.last()) =~= t);
    }
}

/// Sanitising a sanitised name changes nothing.
pub proof fn law_sanitize_idempotent(name: Seq<char>)
    ensures
        crate::output::sanitized(crate::output::sanitized(name)) == crate::output::sanitized(name),
{
    let t = crate::output::sanitized(name);
    law_sanitized_well_formed(name);
    lemma_collapse_identity(t);
    assert(crate::text::first_kept(t, Some('_'), 0) == 0);
    assert(crate::text::last_kept_end(t, Some('_'), t.len() as int) == t.len());
    assert(t.subrange(0, t.len() as int) =~= t);
}

} // verus!

verus! {

// ---------------------------------------------------------------------------
// Flags
// ---------------------------------------------------------------------------

proof fn lemma_contains_left<A>(s: Seq<A>, t: Seq<A>, x: A)
    requires
        s.contains(x),
    ensures
        (s + t).contains(x),
{
    let i = choose|i: int| 0 <= i < s.len() && s[i] == x;
    assert((s + t)[i] == x);
}

proof fn lemma_contains_right<A>(s: Seq<A>, t: Seq<A>, x: A)
    requires
        t.contains(x),
    ensures
        (s + t).contains(x),
{
    let i = choose|i: int| 0 <= i < t.len() && t[i] == x;
    assert((s + t)[s.len() + i] == x);
}

proof fn lemma_instruction_flags_in_all(ixs: Seq<SpecFactInstruction>, k: int, f: crate::types::SpecRiskFlag)
    requires
        0 <= k < ixs.len(),
        crate::aggregate::instruction_flags(ixs[k]).contains(f),
    ensures
        crate::aggregate::all_flags(ixs).contains(f),
    decreases ixs.len(),
{
    if k == ixs.len() - 1 {
        assert(ixs.last() == ixs[k]);
        lemma_contains_right(crate::aggregate::all_flags(ixs.drop_last()), crate::aggregate::instruction_flags(ixs.last()), f);
    } else {
        assert(ixs.drop_last()[k] == ixs[k]);
        lemma_instruction_flags_in_all(ixs.drop_last(), k, f);
        lemma_contains_left(crate::aggregate::all_flags(ixs.drop_last()), crate::aggregate::instruction_flags(ixs.last()), f);
    }
}

proof fn lemma_account_flags_in(ix: SpecFactInstruction, accs: Seq<crate::types::SpecInstructionAccount>, a: int, f: crate::types::SpecRiskFlag)
    requires
        0 <= a < accs.len(),
        crate::aggregate::account_flags(ix, accs[a]).contains(f),
    ensures
        crate::aggregate::accounts_flags(ix, accs).contains(f),
    decreases accs.len(),
{
    if a == accs.len() - 1 {
        assert(accs.last() == accs[a]);
        lemma_contains_right(crate::aggregate::accounts_flags(ix, accs.drop_last()), crate::aggregate::account_flags(ix, accs.last()), f);
    } else {
        assert(accs.drop_last()[a] == accs[a]);
        lemma_account_flags_in(ix, accs.drop_last(), a, f);
        lemma_contains_left(crate::aggregate::accounts_flags(ix, accs.drop_last()), crate::aggregate::account_flags(ix, accs.last()), f);
    }
}

/// Every unchecked account is flagged as high risk, every `init_if_needed` account as a
/// medium re-initialisation risk, and every mutable account as a low risk, under its
/// instruction's name; every account closed into a target is flagged for that drain target.
pub proof fn law_risky_accounts_flagged(ixs: Seq<SpecFactInstruction>, k: int, a: int)
    requires
        0 <= k < ixs.len(),
        0 <= a < ixs[k].accounts.len(),
    ensures
        ixs[k].accounts[a].unchecked ==> crate::aggregate::all_flags(ixs).contains(crate::aggregate::flag("high"@,
            "unchecked_account"@, ixs[k].name, Some(ixs[k].accounts[a].name), None, None,
            "UncheckedAccount — zero Anchor validation."@)),
        crate::text::contains(ixs[k].accounts[a].attributes, "init_if_needed"@) ==> crate::aggregate::all_flags(ixs).contains(
            crate::aggregate::flag("medium"@, "init_if_needed"@, ixs[k].name, Some(ixs[k].accounts[a].name), None,
            None, "Re-initialization risk."@)),
        ixs[k].accounts[a].is_mut ==> crate::aggregate::all_flags(ixs).contains(crate::aggregate::flag("low"@,
            "mutable_account"@, ixs[k].name, Some(ixs[k].accounts[a].name), None, None,
            "Mutable account — verify every write is constrained."@)),
        ixs[k].accounts[a].close_target matches Some(t) ==> crate::aggregate::all_flags(ixs).contains(
            crate::aggregate::flag("info"@, "close_drain"@, "close_"@ + ixs[k].accounts[a].name,
            Some(ixs[k].accounts[a].name), None, Some(t), "Verify drain target is not caller-controlled."@)),
{
    let ix = ixs[k];
    let acc = ix.accounts[a];
    let fl = crate::aggregate::account_flags(ix, acc);
    let rest = crate::aggregate::arithmetic_flags(ix, ix.arithmetic) + (if ix.uses_remaining_accounts {
        seq![crate::aggregate::flag("high"@, "remaining_accounts"@, ix.name, None, None, None,
            "Unvalidated account injection surface."@)]
    } else {
        seq![]
    }) + (if crate::aggregate::has_cpi_transfer(ix) && ix.body_checks.len() == 0 {
        seq![crate::aggregate::flag("medium"@, "missing_access_control"@, ix.name, None, None, None,
            "Instruction has CPI transfer but lacks require! checks."@)]
    } else {
        seq![]
    });
    assert(crate::aggregate::instruction_flags(ix) =~= crate::aggregate::accounts_flags(ix, ix.accounts) + rest);
    let u = crate::aggregate::flag("high"@, "unchecked_account"@, ix.name, Some(acc.name), None, None,
        "UncheckedAccount — zero Anchor validation."@);
    let m = crate::aggregate::flag("medium"@, "init_if_needed"@, ix.name, Some(acc.name), None, None,
        "Re-initialization risk."@);
    if acc.unchecked {
        assert(fl[0] == u);
        lemma_account_flags_in(ix, ix.accounts, a, u);
        lemma_contains_left(crate::aggregate::accounts_flags(ix, ix.accounts), rest, u);
        lemma_instruction_flags_in_all(ixs, k, u);
    }
    if crate::text::contains(acc.attributes, "init_if_needed"@) {
        let before = if acc.unchecked { 1int } else { 0int };
        assert(fl[before] == m);
        lemma_account_flags_in(ix, ix.accounts, a, m);
        lemma_contains_left(crate::aggregate::accounts_flags(ix, ix.accounts), rest, m);
        lemma_instruction_flags_in_all(ixs, k, m);
    }
    if let Some(t) = acc.close_target {
        let cl = crate::aggregate::flag("info"@, "close_drain"@, "close_"@ + acc.name, Some(acc.name), None, Some(t),
            "Verify drain target is not caller-controlled."@);
        let before = (if acc.unchecked { 1int } else { 0int }) + (if crate::text::contains(acc.attributes,
            "init_if_needed"@) { 1int } else { 0int });
        assert(fl[before] == cl);
        lemma_account_flags_in(ix, ix.accounts, a, cl);
        lemma_contains_left(crate::aggregate::accounts_flags(ix, ix.accounts), rest, cl);
        lemma_instruction_flags_in_all(ixs, k, cl);
    }
    if acc.is_mut {
        let mu = crate::aggregate::flag("low"@, "mutable_account"@, ix.name, Some(acc.name), None, None,
            "Mutable account — verify every write is constrained."@);
        let before = (if acc.unchecked { 1int } else { 0int }) + (if crate::text::contains(acc.attributes,
            "init_if_needed"@) { 1int } else { 0int }) + (if acc.close_target is Some { 1int } else { 0int });
        assert(fl[before] == mu);
        lemma_account_flags_in(ix, ix.accounts, a, mu);
        lemma_contains_left(crate::aggregate::accounts_flags(ix, ix.accounts), rest, mu);
        lemma_instruction_flags_in_all(ixs, k, mu);
    }
}

/// Every instruction that reads remaining accounts is flagged as high risk.
pub proof fn law_remaining_accounts_flagged(ixs: Seq<SpecFactInstruction>, k: int)
    requires
        0 <= k < ixs.len(),
        ixs[k].uses_remaining_accounts,
    ensures
        crate::aggregate::all_flags(ixs).contains(crate::aggregate::flag("high"@, "remaining_accounts"@, ixs[k].name,
            None, None, None, "Unvalidated account injection surface."@)),
{
    let ix = ixs[k];
    let f = crate::aggregate::flag("high"@, "remaining_accounts"@, ix.name, None, None, None,
        "Unvalidated account injection surface."@);
    let head = crate::aggregate::accounts_flags(ix, ix.accounts) + crate::aggregate::arithmetic_flags(ix, ix.arithmetic);
    let tail = if crate::aggregate::has_cpi_transfer(ix) && ix.body_checks.len() == 0 {
        seq![crate::aggregate::flag("medium"@, "missing_access_control"@, ix.name, None, None, None,
            "Instruction has CPI transfer but lacks require! checks."@)]
    } else {
        seq![]
    };
    assert(crate::aggregate::instruction_flags(ix) =~= head + seq![f] + tail);
    assert((head + seq![f] + tail)[head.len() as int] == f);
    lemma_instruction_flags_in_all(ixs, k, f);
}

/// Every instruction that makes a CPI `transfer` without any body check is flagged as a
/// medium access-control risk.
pub proof fn law_unchecked_transfer_flagged(ixs: Seq<SpecFactInstruction>, k: int)
    requires
        0 <= k < ixs.len(),
        exists|c: int| 0 <= c < ixs[k].cpi_calls.len() && (#[trigger] ixs[k].cpi_calls[c]).instruction == "transfer"@,
        ixs[k].body_checks.len() == 0,
    ensures
        crate::aggregate::all_flags(ixs).contains(crate::aggregate::flag("medium"@, "missing_access_control"@,
            ixs[k].name, None, None, None, "Instruction has CPI transfer but lacks require! checks."@)),
{
    let ix = ixs[k];
    let f = crate::aggregate::flag("medium"@, "missing_access_control"@, ix.name, None, None, None,
        "Instruction has CPI transfer but lacks require! checks."@);
    let head = crate::aggregate::accounts_flags(ix, ix.accounts) + crate::aggregate::arithmetic_flags(ix, ix.arithmetic) + (
    if ix.uses_remaining_accounts {
        seq![crate::aggregate::flag("high"@, "remaining_accounts"@, ix.name, None, None, None,
            "Unvalidated account injection surface."@)]
    } else {
        seq![]
    });
    assert(crate::aggregate::instruction_flags(ix) =~= head + seq![f]);
    assert((head + seq![f])[head.len() as int] == f);
    lemma_instruction_flags_in_all(ixs, k, f);
}

proof fn lemma_arithmetic_flags_in(ix: SpecFactInstruction, ars: Seq<crate::types::SpecArithmetic>, a: int)
    requires
        0 <= a < ars.len(),
        ars[a].overflow_risk,
    ensures
        crate::aggregate::arithmetic_flags(ix, ars).contains(crate::aggregate::flag("medium"@, "unchecked_arithmetic"@,
            ix.name, None, Some(ars[a].expression), None, "Raw "@ + ars[a].operation + " operation on numeric field."@)),
    decreases ars.len(),
{
    let f = crate::aggregate::flag("medium"@, "unchecked_arithmetic"@, ix.name, None, Some(ars[a].expression), None,
        "Raw "@ + ars[a].operation + " operation on numeric field."@);
    let prev = crate::aggregate::arithmetic_flags(ix, ars.drop_last());
    if a < ars.len() - 1 {
        lemma_arithmetic_flags_in(ix, ars.drop_last(), a);
        assert(ars.drop_last()[a] == ars[a]);
        let w = choose|t: int| 0 <= t < prev.len() && prev[t] == f;
        assert(crate::aggregate::arithmetic_flags(ix, ars)[w] == f);
    } else {
        assert(crate::aggregate::arithmetic_flags(ix, ars)[prev.len() as int] == f);
    }
}

/// Every arithmetic operation with overflow risk is flagged as a medium risk under its
/// instruction's name, with its expression.
pub proof fn law_risky_arithmetic_flagged(ixs: Seq<SpecFactInstruction>, k: int, a: int)
    requires
        0 <= k < ixs.len(),
        0 <= a < ixs[k].arithmetic.len(),
        ixs[k].arithmetic[a].overflow_risk,
    ensures
        crate::aggregate::all_flags(ixs).contains(crate::aggregate::flag("medium"@, "unchecked_arithmetic"@,
            ixs[k].name, None, Some(ixs[k].arithmetic[a].expression), None,
            "Raw "@ + ixs[k].arithmetic[a].operation + " operation on numeric field."@)),
{
    let ix = ixs[k];
    let f = crate::aggregate::flag("medium"@, "unchecked_arithmetic"@, ix.name, None, Some(ix.arithmetic[a].expression),
        None, "Raw "@ + ix.arithmetic[a].operation + " operation on numeric field."@);
    let acc = crate::aggregate::accounts_flags(ix, ix.accounts);
    let ar = crate::aggregate::arithmetic_flags(ix, ix.arithmetic);
    let tail = (if ix.uses_remaining_accounts {
        seq![crate::aggregate::flag("high"@, "remaining_accounts"@, ix.name, None, None, None,
            "Unvalidated account injection surface."@)]
    } else {
        seq![]
    }) + (if crate::aggregate::has_cpi_transfer(ix) && ix.body_checks.len() == 0 {
        seq![crate::aggregate::flag("medium"@, "missing_access_control"@, ix.name, None, None, None,
            "Instruction has CPI transfer but lacks require! checks."@)]
    } else {
        seq![]
    });
    assert(crate::aggregate::instruction_flags(ix) =~= acc + ar + tail);
    lemma_arithmetic_flags_in(ix, ix.arithmetic, a);
    let w = choose|t: int| 0 <= t < ar.len() && ar[t] == f;
    assert((acc + ar + tail)[acc.len() + w] == f);
    lemma_instruction_flags_in_all(ixs, k, f);
}

// ---------------------------------------------------------------------------
// Summary
// ---------------------------------------------------------------------------

proof fn lemma_summary_lines(ixs: Seq<SpecFactInstruction>)
    ensures
        crate::summary::summary_state(ixs).call_surface.len() == ixs.len(),
        forall|k: int| 0 <= k < ixs.len() ==> #[trigger] crate::summary::summary_state(ixs).call_surface[k]
            == crate::summary::call_surface_line(ixs[k]),
    decreases ixs.len(),
{
    if ixs.len() > 0 {
        lemma_summary_lines(ixs.drop_last());
        crate::summary::lemma_accounts_step_frame(crate::summary::summary_state(ixs.drop_last()), ixs.last().name, ixs.last().accounts);
        assert forall|k: int| 0 <= k < ixs.len() implies #[trigger] crate::summary::summary_state(ixs).call_surface[k]
            == crate::summary::call_surface_line(ixs[k]) by {
            if k < ixs.len() - 1 {
                assert(ixs.drop_last()[k] == ixs[k]);
            }
        }
    }
}

/// The call surface has one line per instruction, in instruction order.
pub proof fn law_call_surface_per_instruction(f: crate::types::SpecFacts)
    ensures
        crate::summary::summary_of(f).call_surface.len() == f.instructions.len(),
        forall|k: int| 0 <= k < f.instructions.len() ==> #[trigger] crate::summary::summary_of(f).call_surface[k]
            == crate::summary::call_surface_line(f.instructions[k]),
{
    lemma_summary_lines(f.instructions);
}


// ---------------------------------------------------------------------------
// State-mutation summary
// ---------------------------------------------------------------------------

/// Where `key_index_from` stops: at the first `k` at or after `i`, or nowhere.
proof fn lemma_key_index_from(keys: Seq<Seq<char>>, k: Seq<char>, i: int)
    requires
        0 <= i,
    ensures
        match crate::summary::key_index_from(keys, k, i) {
            Some(j) => i <= j < keys.len() && keys[j] == k,
            None => forall|t: int| i <= t < keys.len() ==> keys[t] != k,
        },
    decreases keys.len() - i,
{
    if i < keys.len() && keys[i] != k {
        lemma_key_index_from(keys, k, i + 1);
    }
}

/// The state-mutation keys name the entries' accounts, one key per entry, no key twice.
pub open spec fn states_keyed(keys: Seq<Seq<char>>, es: Seq<crate::types::SpecSummaryStateMutation>) -> bool {
    &&& keys.len() == es.len()
    &&& forall|j: int| 0 <= j < keys.len() ==> #[trigger] keys[j] == es[j].account
    &&& forall|i: int, j: int| 0 <= i < j < keys.len() ==> keys[i] != keys[j]
}

/// Entry `j` of `es` records mutation `m` of instruction `ix`.
pub open spec fn state_entry_records(es: Seq<crate::types::SpecSummaryStateMutation>, j: int, ix: Seq<char>, m: crate::types::SpecStateMutation) -> bool {
    &&& 0 <= j < es.len()
    &&& es[j].account == m.account
    &&& es[j].fields_mutated.contains(m.field)
    &&& es[j].instructions.contains(ix)
}

/// Some entry of `es` records mutation `m` of instruction `ix`.
pub open spec fn state_recorded(es: Seq<crate::types::SpecSummaryStateMutation>, ix: Seq<char>, m: crate::types::SpecStateMutation) -> bool {
    exists|j: int| state_entry_records(es, j, ix, m)
}

/// `es2` keeps every entry of `es` in place, with the same account and at least its fields
/// and instructions.
pub open spec fn states_grown(es: Seq<crate::types::SpecSummaryStateMutation>, es2: Seq<crate::types::SpecSummaryStateMutation>) -> bool {
    &&& es.len() <= es2.len()
    &&& forall|j: int| 0 <= j < es.len() ==> #[trigger] es2[j].account == es[j].account
    &&& forall|j: int, x: Seq<char>| 0 <= j < es.len() && #[trigger] es[j].fields_mutated.contains(x) ==> es2[j].fields_mutated.contains(x)
    &&& forall|j: int, x: Seq<char>| 0 <= j < es.len() && #[trigger] es[j].instructions.contains(x) ==> es2[j].instructions.contains(x)
}

proof fn lemma_recorded_grown(es: Seq<crate::types::SpecSummaryStateMutation>, es2: Seq<crate::types::SpecSummaryStateMutation>, ix: Seq<char>, m: crate::types::SpecStateMutation)
    requires
        states_grown(es, es2),
        state_recorded(es, ix, m),
    ensures
        state_recorded(es2, ix, m),
{
    let j = choose|j: int| state_entry_records(es, j, ix, m);
    assert(es2[j].fields_mutated.contains(m.field));
    assert(es2[j].instructions.contains(ix));
    assert(state_entry_records(es2, j, ix, m));
}

proof fn lemma_grown_trans(a: Seq<crate::types::SpecSummaryStateMutation>, b: Seq<crate::types::SpecSummaryStateMutation>, c: Seq<crate::types::SpecSummaryStateMutation>)
    requires
        states_grown(a, b),
        states_grown(b, c),
    ensures
        states_grown(a, c),
{
    assert forall|j: int, x: Seq<char>| 0 <= j < a.len() && #[trigger] a[j].fields_mutated.contains(x) implies c[j].fields_mutated.contains(x) by {
        assert(b[j].fields_mutated.contains(x));
    }
    assert forall|j: int, x: Seq<char>| 0 <= j < a.len() && #[trigger] a[j].instructions.contains(x) implies c[j].instructions.contains(x) by {
        assert(b[j].instructions.contains(x));
    }
}

proof fn lemma_state_step(keys: Seq<Seq<char>>, es: Seq<crate::types::SpecSummaryStateMutation>, ix: Seq<char>, m: crate::types::SpecStateMutation)
    requires
        states_keyed(keys, es),
    ensures
        states_keyed(crate::summary::state_step(keys, es, ix, m).0, crate::summary::state_step(keys, es, ix, m).1),
        states_grown(es, crate::summary::state_step(keys, es, ix, m).1),
        state_recorded(crate::summary::state_step(keys, es, ix, m).1, ix, m),
{
    let r = crate::summary::state_step(keys, es, ix, m);
    lemma_key_index_from(keys, m.account, 0);
    match crate::summary::key_index(keys, m.account) {
        Some(i) => {
            assert(r.1[i].fields_mutated.contains(m.field)) by {
                if !es[i].fields_mutated.contains(m.field) {
                    assert(es[i].fields_mutated.push(m.field).last() == m.field);
                }
            }
            assert(r.1[i].instructions.contains(ix)) by {
                if !es[i].instructions.contains(ix) {
                    assert(es[i].instructions.push(ix).last() == ix);
                }
            }
            assert(state_entry_records(r.1, i, ix, m));
            assert forall|j: int, x: Seq<char>| 0 <= j < es.len() && #[trigger] es[j].fields_mutated.contains(x) implies r.1[j].fields_mutated.contains(x) by {
                if j == i && !es[i].fields_mutated.contains(m.field) {
                    let p = es[i].fields_mutated;
                    let w = choose|t: int| 0 <= t < p.len() && p[t] == x;
                    assert(p.push(m.field)[w] == x);
                }
            }
            assert forall|j: int, x: Seq<char>| 0 <= j < es.len() && #[trigger] es[j].instructions.contains(x) implies r.1[j].instructions.contains(x) by {
                if j == i && !es[i].instructions.contains(ix) {
                    let p = es[i].instructions;
                    let w = choose|t: int| 0 <= t < p.len() && p[t] == x;
                    assert(p.push(ix)[w] == x);
                }
            }
        },
        None => {
            let n = es.len() as int;
            assert(r.1[n].fields_mutated[0] == m.field);
            assert(r.1[n].instructions[0] == ix);
            assert(state_entry_records(r.1, n, ix, m));
            assert forall|j: int, x: Seq<char>| 0 <= j < es.len() && #[trigger] es[j].fields_mutated.contains(x) implies r.1[j].fields_mutated.contains(x) by {
                assert(r.1[j] == es[j]);
            }
            assert forall|j: int, x: Seq<char>| 0 <= j < es.len() && #[trigger] es[j].instructions.contains(x) implies r.1[j].instructions.contains(x) by {
                assert(r.1[j] == es[j]);
            }
        },
    }
}

proof fn lemma_states_step(keys: Seq<Seq<char>>, es: Seq<crate::types::SpecSummaryStateMutation>, ix: Seq<char>, ms: Seq<crate::types::SpecStateMutation>)
    requires
        states_keyed(keys, es),
    ensures
        states_keyed(crate::summary::states_step(keys, es, ix, ms).0, crate::summary::states_step(keys, es, ix, ms).1),
        states_grown(es, crate::summary::states_step(keys, es, ix, ms).1),
        forall|t: int| 0 <= t < ms.len() ==> state_recorded(crate::summary::states_step(keys, es, ix, ms).1, ix, #[trigger] ms[t]),
    decreases ms.len(),
{
    if ms.len() > 0 {
        let prev = crate::summary::states_step(keys, es, ix, ms.drop_last());
        lemma_states_step(keys, es, ix, ms.drop_last());
        lemma_state_step(prev.0, prev.1, ix, ms.last());
        let r = crate::summary::states_step(keys, es, ix, ms);
        lemma_grown_trans(es, prev.1, r.1);
        assert forall|t: int| 0 <= t < ms.len() implies state_recorded(r.1, ix, #[trigger] ms[t]) by {
            if t < ms.len() - 1 {
                assert(ms.drop_last()[t] == ms[t]);
                lemma_recorded_grown(prev.1, r.1, ix, ms[t]);
            }
        }
    } else {
        assert(states_grown(es, es));
    }
}

proof fn lemma_summary_states(ixs: Seq<SpecFactInstruction>)
    ensures
        states_keyed(crate::summary::summary_state(ixs).state_keys, crate::summary::summary_state(ixs).states),
        forall|k: int, t: int| 0 <= k < ixs.len() && 0 <= t < ixs[k].state_mutations.len() ==> state_recorded(
            crate::summary::summary_state(ixs).states, ixs[k].name, #[trigger] ixs[k].state_mutations[t]),
    decreases ixs.len(),
{
    if ixs.len() > 0 {
        let pre = ixs.drop_last();
        let ix = ixs.last();
        let st0 = crate::summary::summary_state(pre);
        lemma_summary_states(pre);
        crate::summary::lemma_accounts_step_frame(st0, ix.name, ix.accounts);
        let st1 = crate::summary::accounts_step(st0, ix.name, ix.accounts);
        assert(st1.state_keys == st0.state_keys && st1.states == st0.states);
        lemma_states_step(st1.state_keys, st1.states, ix.name, ix.state_mutations);
        let st = crate::summary::summary_state(ixs);
        assert forall|k: int, t: int| 0 <= k < ixs.len() && 0 <= t < ixs[k].state_mutations.len() implies state_recorded(
            st.states, ixs[k].name, #[trigger] ixs[k].state_mutations[t]) by {
            if k < ixs.len() - 1 {
                assert(pre[k] == ixs[k]);
                assert(state_recorded(st0.states, pre[k].name, pre[k].state_mutations[t]));
                lemma_recorded_grown(st0.states, st.states, ixs[k].name, ixs[k].state_mutations[t]);
            }
        }
    }
}

/// The state-mutation summary has one entry per account, and every state mutation of every
/// instruction shows in its account's entry: its field among the fields mutated and the
/// instruction among the instructions.
pub proof fn law_state_summary_complete(f: crate::types::SpecFacts, k: int, t: int)
    requires
        0 <= k < f.instructions.len(),
        0 <= t < f.instructions[k].state_mutations.len(),
    ensures
        forall|i: int, j: int| 0 <= i < j < crate::summary::summary_of(f).state_mutation_summary.len()
            ==> #[trigger] crate::summary::summary_of(f).state_mutation_summary[i].account
                != #[trigger] crate::summary::summary_of(f).state_mutation_summary[j].account,
        state_recorded(crate::summary::summary_of(f).state_mutation_summary, f.instructions[k].name,
            f.instructions[k].state_mutations[t]),
{
    lemma_summary_states(f.instructions);
    let st = crate::summary::summary_state(f.instructions);
    assert(crate::summary::summary_of(f).state_mutation_summary == st.states);
    assert(state_recorded(st.states, f.instructions[k].name, f.instructions[k].state_mutations[t]));
    assert forall|i: int, j: int| 0 <= i < j < st.states.len() implies #[trigger] st.states[i].account != #[trigger] st.states[j].account by {
        assert(st.state_keys[i] == st.states[i].account);
        assert(st.state_keys[j] == st.states[j].account);
    }
}


// ---------------------------------------------------------------------------
// Authority revocations
// ---------------------------------------------------------------------------

/// The revocation `e` is what the revoking call `c` of instruction `ix` records.
pub open spec fn revocation_of(e: crate::types::SpecSummaryAuthorityRevocation, ix: Seq<char>, c: crate::types::SpecSetAuthorityCall) -> bool {
    &&& crate::summary::revokes(c)
    &&& e.account == c.account
    &&& e.authority_type == c.authority_type
    &&& e.revoked_in == ix
}

/// The revocation keys are those of their entries, one per entry, no key twice.
pub open spec fn auths_keyed(keys: Seq<Seq<char>>, es: Seq<crate::types::SpecSummaryAuthorityRevocation>) -> bool {
    &&& keys.len() == es.len()
    &&& forall|j: int| 0 <= j < keys.len() ==> #[trigger] keys[j] == es[j].account + "-"@ + es[j].authority_type
    &&& forall|i: int, j: int| 0 <= i < j < keys.len() ==> keys[i] != keys[j]
}

proof fn lemma_auths_step(keys: Seq<Seq<char>>, es: Seq<crate::types::SpecSummaryAuthorityRevocation>, ix: Seq<char>, cs: Seq<crate::types::SpecSetAuthorityCall>)
    requires
        auths_keyed(keys, es),
    ensures
        auths_keyed(crate::summary::auths_step(keys, es, ix, cs).0, crate::summary::auths_step(keys, es, ix, cs).1),
        es.len() <= crate::summary::auths_step(keys, es, ix, cs).1.len(),
        crate::summary::auths_step(keys, es, ix, cs).1.subrange(0, es.len() as int) == es,
        forall|j: int| es.len() <= j < crate::summary::auths_step(keys, es, ix, cs).1.len() ==> exists|t: int|
            0 <= t < cs.len() && revocation_of(#[trigger] crate::summary::auths_step(keys, es, ix, cs).1[j], ix, cs[t]),
    decreases cs.len(),
{
    let r = crate::summary::auths_step(keys, es, ix, cs);
    if cs.len() > 0 {
        let prev = crate::summary::auths_step(keys, es, ix, cs.drop_last());
        lemma_auths_step(keys, es, ix, cs.drop_last());
        let a = cs.last();
        lemma_key_index_from(prev.0, crate::summary::auth_key(a), 0);
        if crate::summary::revokes(a) && crate::summary::key_index(prev.0, crate::summary::auth_key(a)) is None {
            assert(r.1.subrange(0, es.len() as int) =~= prev.1.subrange(0, es.len() as int));
            assert forall|j: int| es.len() <= j < r.1.len() implies exists|t: int|
                0 <= t < cs.len() && revocation_of(#[trigger] r.1[j], ix, cs[t]) by {
                if j < prev.1.len() {
                    let t = choose|t: int| 0 <= t < cs.drop_last().len() && revocation_of(prev.1[j], ix, cs.drop_last()[t]);
                    assert(cs.drop_last()[t] == cs[t]);
                    assert(r.1[j] == prev.1[j]);
                } else {
                    assert(revocation_of(r.1[j], ix, cs[cs.len() - 1]));
                }
            }
        } else {
            assert forall|j: int| es.len() <= j < r.1.len() implies exists|t: int|
                0 <= t < cs.len() && revocation_of(#[trigger] r.1[j], ix, cs[t]) by {
                let t = choose|t: int| 0 <= t < cs.drop_last().len() && revocation_of(prev.1[j], ix, cs.drop_last()[t]);
                assert(cs.drop_last()[t] == cs[t]);
            }
        }
    } else {
        assert(es.subrange(0, es.len() as int) =~= es);
    }
}

/// Revocation `e` comes from a revoking call of one of the instructions `ixs`.
pub open spec fn revocation_sourced(e: crate::types::SpecSummaryAuthorityRevocation, ixs: Seq<SpecFactInstruction>) -> bool {
    exists|k: int, t: int| 0 <= k < ixs.len() && 0 <= t < ixs[k].set_authority_calls.len()
        && revocation_of(e, ixs[k].name, #[trigger] ixs[k].set_authority_calls[t])
}

proof fn lemma_summary_auths(ixs: Seq<SpecFactInstruction>)
    ensures
        auths_keyed(crate::summary::summary_state(ixs).auth_keys, crate::summary::summary_state(ixs).auths),
        forall|j: int| 0 <= j < crate::summary::summary_state(ixs).auths.len()
            ==> revocation_sourced(#[trigger] crate::summary::summary_state(ixs).auths[j], ixs),
    decreases ixs.len(),
{
    if ixs.len() > 0 {
        let pre = ixs.drop_last();
        let ix = ixs.last();
        let st0 = crate::summary::summary_state(pre);
        lemma_summary_auths(pre);
        crate::summary::lemma_accounts_step_frame(st0, ix.name, ix.accounts);
        let st1 = crate::summary::accounts_step(st0, ix.name, ix.accounts);
        assert(st1.auth_keys == st0.auth_keys && st1.auths == st0.auths);
        lemma_auths_step(st1.auth_keys, st1.auths, ix.name, ix.set_authority_calls);
        let st = crate::summary::summary_state(ixs);
        assert forall|j: int| 0 <= j < st.auths.len() implies revocation_sourced(#[trigger] st.auths[j], ixs) by {
            let n = ixs.len() - 1;
            if j < st0.auths.len() {
                assert(st.auths.subrange(0, st0.auths.len() as int)[j] == st.auths[j]);
                assert(revocation_sourced(st0.auths[j], pre));
                let (k, t) = choose|k: int, t: int| 0 <= k < pre.len() && 0 <= t < pre[k].set_authority_calls.len()
                    && revocation_of(st0.auths[j], pre[k].name, #[trigger] pre[k].set_authority_calls[t]);
                assert(pre[k] == ixs[k]);
                assert(revocation_of(st.auths[j], ixs[k].name, ixs[k].set_authority_calls[t]));
            } else {
                let t = choose|t: int| 0 <= t < ix.set_authority_calls.len() && revocation_of(st.auths[j], ix.name, ix.set_authority_calls[t]);
                assert(revocation_of(st.auths[j], ixs[n].name, ixs[n].set_authority_calls[t]));
            }
        }
    }
}

/// Every authority revocation in the summary comes from a `set_authority` call with new
/// authority `None` (or `none`) of the instruction it names, with that call's account and
/// authority type; and no two revocations share an account and authority type.
pub proof fn law_revocations_sourced(f: crate::types::SpecFacts)
    ensures
        forall|j: int| 0 <= j < crate::summary::summary_of(f).authority_revocations.len()
            ==> revocation_sourced(#[trigger] crate::summary::summary_of(f).authority_revocations[j], f.instructions),
        forall|i: int, j: int| 0 <= i < j < crate::summary::summary_of(f).authority_revocations.len()
            ==> !(#[trigger] crate::summary::summary_of(f).authority_revocations[i].account
                == #[trigger] crate::summary::summary_of(f).authority_revocations[j].account
                && crate::summary::summary_of(f).authority_revocations[i].authority_type
                == crate::summary::summary_of(f).authority_revocations[j].authority_type),
{
    lemma_summary_auths(f.instructions);
    let st = crate::summary::summary_state(f.instructions);
    assert(crate::summary::summary_of(f).authority_revocations == st.auths);
    assert forall|i: int, j: int| 0 <= i < j < st.auths.len() implies !(#[trigger] st.auths[i].account
        == #[trigger] st.auths[j].account && st.auths[i].authority_type == st.auths[j].authority_type) by {
        assert(st.auth_keys[i] == st.auths[i].account + "-"@ + st.auths[i].authority_type);
        assert(st.auth_keys[j] == st.auths[j].account + "-"@ + st.auths[j].authority_type);
    }
}


// ---------------------------------------------------------------------------
// Execution-step order
// ---------------------------------------------------------------------------

/// `new` extends `old`; its order numbers never decrease; the added steps are numbered from
/// `lo` to `hi`, and every step at most `hi`.
pub open spec fn steps_extend(old: Seq<SpecExecutionStep>, new: Seq<SpecExecutionStep>, lo: int, hi: int) -> bool {
    &&& old.len() <= new.len()
    &&& new.subrange(0, old.len() as int) == old
    &&& forall|i: int, j: int| 0 <= i < j < new.len() ==> #[trigger] new[i].order <= #[trigger] new[j].order
    &&& forall|i: int| 0 <= i < new.len() ==> #[trigger] new[i].order <= hi
    &&& forall|i: int| old.len() <= i < new.len() ==> lo <= #[trigger] new[i].order
}

/// The order numbers of `st` never decrease and are at most `c`.
pub open spec fn steps_upto(st: Seq<SpecExecutionStep>, c: int) -> bool {
    &&& forall|i: int, j: int| 0 <= i < j < st.len() ==> #[trigger] st[i].order <= #[trigger] st[j].order
    &&& forall|i: int| 0 <= i < st.len() ==> #[trigger] st[i].order <= c
}

proof fn lemma_extend_trans(a: Seq<SpecExecutionStep>, b: Seq<SpecExecutionStep>, c: Seq<SpecExecutionStep>, lo1: int, hi1: int, lo2: int, hi2: int)
    requires
        steps_extend(a, b, lo1, hi1),
        steps_extend(b, c, lo2, hi2),
        lo1 <= lo2,
        hi1 <= hi2,
    ensures
        steps_extend(a, c, lo1, hi2),
{
    assert forall|i: int| a.len() <= i < c.len() implies lo1 <= #[trigger] c[i].order by {
        if i < b.len() {
            assert(c.subrange(0, b.len() as int)[i] == c[i]);
        }
    }
    assert(c.subrange(0, a.len() as int) =~= c.subrange(0, b.len() as int).subrange(0, a.len() as int));
}

proof fn lemma_extend_push(a: Seq<SpecExecutionStep>, s: SpecExecutionStep, c: int)
    requires
        steps_upto(a, c),
        s.order == c,
    ensures
        steps_extend(a, a.push(s), c, c),
        steps_upto(a.push(s), c),
{
    assert(a.push(s).subrange(0, a.len() as int) =~= a);
}

proof fn lemma_extend_same(a: Seq<SpecExecutionStep>, c: int, lo: int, hi: int)
    requires
        steps_upto(a, c),
        c <= hi,
    ensures
        steps_extend(a, a, lo, hi),
{
    assert(a.subrange(0, a.len() as int) =~= a);
}

proof fn lemma_stmt_steps(s: Stmt, f: SpecBodyFacts, c: int)
    requires
        steps_upto(f.execution_steps, c),
        0 <= c,
        c + stmt_incs(s) <= usize::MAX,
    ensures
        steps_extend(f.execution_steps, stmt_facts(s, f, c).execution_steps, c, c + stmt_incs(s)),
    decreases s,
{
    match s {
        Stmt::Local { name, init } => match init {
            Some(li) => {
                let f1 = stmt_facts(s, f, c);
                assert(f1.execution_steps == f.execution_steps.push(f1.execution_steps.last()));
                lemma_extend_push(f.execution_steps, f1.execution_steps.last(), c);
            },
            None => lemma_extend_same(f.execution_steps, c, c, c),
        },
        Stmt::Expr(e) => lemma_expr_steps(e, f, c),
        Stmt::Other => lemma_extend_same(f.execution_steps, c, c, c),
    }
}

proof fn lemma_expr_steps(e: Expr, f: SpecBodyFacts, c: int)
    requires
        steps_upto(f.execution_steps, c),
        0 <= c,
        c + expr_incs(e) <= usize::MAX,
    ensures
        steps_extend(f.execution_steps, expr_facts(e, f, c).execution_steps, c, c + expr_incs(e)),
    decreases e,
{
    let r = expr_facts(e, f, c).execution_steps;
    match e {
        Expr::If { cond, then_branch, else_branch } => {
            let f1 = crate::flow_extractor::with_step(f, crate::flow_extractor::step(c, crate::types::StepKind::ConditionalBranch, "if "@ + cond@, None, None));
            lemma_extend_push(f.execution_steps, f1.execution_steps.last(), c);
            let f2 = stmts_facts(then_branch@, f1, c);
            let t = stmts_incs(then_branch@);
            lemma_stmts_steps(then_branch@, f1, c);
            lemma_extend_trans(f.execution_steps, f1.execution_steps, f2.execution_steps, c, c, c + 1, c + t);
            match else_branch {
                Some(b) => {
                    lemma_expr_steps(*b, f2, c + t + 1);
                    lemma_extend_trans(f.execution_steps, f2.execution_steps, r, c, c + t, c + t + 1, c + expr_incs(e));
                },
                None => {},
            }
        },
        Expr::Block(stmts) => {
            lemma_stmts_steps(stmts@, f, c);
        },
        Expr::Try(inner) => {
            lemma_expr_steps(*inner, f, c);
        },
        _ => {
            if r.len() == f.execution_steps.len() {
                assert(r == f.execution_steps);
                lemma_extend_same(f.execution_steps, c, c, c);
            } else if r.len() == f.execution_steps.len() + 1 {
                lemma_extend_push(f.execution_steps, r.last(), c);
                assert(r == f.execution_steps.push(r.last()));
            } else {
                let m = f.execution_steps.push(r[f.execution_steps.len() as int]);
                lemma_extend_push(f.execution_steps, m.last(), c);
                lemma_extend_push(m, r.last(), c);
                assert(r == m.push(r.last()));
                lemma_extend_trans(f.execution_steps, m, r, c, c, c, c);
            }
        },
    }
}

proof fn lemma_stmts_steps(s: Seq<Stmt>, f: SpecBodyFacts, c: int)
    requires
        steps_upto(f.execution_steps, c),
        0 <= c,
        c + stmts_incs(s) <= usize::MAX,
    ensures
        steps_extend(f.execution_steps, stmts_facts(s, f, c).execution_steps, c + 1, c + stmts_incs(s)),
    decreases s,
{
    if s.len() == 0 {
        lemma_extend_same(f.execution_steps, c, c + 1, c);
    } else {
        let pre = s.drop_last();
        let prev = stmts_facts(pre, f, c);
        let c1 = c + stmts_incs(pre) + 1;
        lemma_stmts_steps(pre, f, c);
        lemma_stmt_steps(s.last(), prev, c1);
        lemma_extend_trans(f.execution_steps, prev.execution_steps, stmts_facts(s, f, c).execution_steps,
            c + 1, c + stmts_incs(pre), c1, c + stmts_incs(s));
    }
}

/// The execution steps of a handler body come in program order: numbered from 1, never
/// decreasing, and at most the number of times the step counter advances.
pub proof fn law_steps_in_order(block: Seq<Stmt>)
    requires
        stmts_incs(block) <= usize::MAX,
    ensures
        forall|i: int, j: int| 0 <= i < j < stmts_facts(block, crate::flow_extractor::empty_body_facts(), 0).execution_steps.len()
            ==> #[trigger] stmts_facts(block, crate::flow_extractor::empty_body_facts(), 0).execution_steps[i].order
                <= #[trigger] stmts_facts(block, crate::flow_extractor::empty_body_facts(), 0).execution_steps[j].order,
        forall|i: int| 0 <= i < stmts_facts(block, crate::flow_extractor::empty_body_facts(), 0).execution_steps.len()
            ==> 1 <= #[trigger] stmts_facts(block, crate::flow_extractor::empty_body_facts(), 0).execution_steps[i].order
                <= stmts_incs(block),
{
    lemma_stmts_steps(block, crate::flow_extractor::empty_body_facts(), 0);
}


// ---------------------------------------------------------------------------
// SOL-flow summary
// ---------------------------------------------------------------------------

/// The key of a SOL summary entry: the key of the flows it gathers.
pub open spec fn sol_entry_key(e: crate::types::SpecSummarySolFlow) -> Seq<char> {
    e.from + "->"@ + e.to + " via "@ + e.via
}

/// The SOL keys are those of their entries, one per entry, no key twice.
pub open spec fn sols_keyed(keys: Seq<Seq<char>>, es: Seq<crate::types::SpecSummarySolFlow>) -> bool {
    &&& keys.len() == es.len()
    &&& forall|j: int| 0 <= j < keys.len() ==> #[trigger] keys[j] == sol_entry_key(es[j])
    &&& forall|i: int, j: int| 0 <= i < j < keys.len() ==> keys[i] != keys[j]
}

/// Entry `j` of `es` gathers flow `f` of instruction `ix`.
pub open spec fn sol_entry_records(es: Seq<crate::types::SpecSummarySolFlow>, j: int, ix: Seq<char>, f: crate::types::SpecSolFlow) -> bool {
    &&& 0 <= j < es.len()
    &&& sol_entry_key(es[j]) == crate::summary::sol_key(f)
    &&& es[j].instructions.contains(ix)
}

/// Some entry of `es` gathers flow `f` of instruction `ix`.
pub open spec fn sol_recorded(es: Seq<crate::types::SpecSummarySolFlow>, ix: Seq<char>, f: crate::types::SpecSolFlow) -> bool {
    exists|j: int| sol_entry_records(es, j, ix, f)
}

/// `es2` keeps every entry of `es` in place, with the same ends and method and at least
/// its instructions.
pub open spec fn sols_grown(es: Seq<crate::types::SpecSummarySolFlow>, es2: Seq<crate::types::SpecSummarySolFlow>) -> bool {
    &&& es.len() <= es2.len()
    &&& forall|j: int| 0 <= j < es.len() ==> #[trigger] sol_entry_key(es2[j]) == sol_entry_key(es[j])
    &&& forall|j: int, x: Seq<char>| 0 <= j < es.len() && #[trigger] es[j].instructions.contains(x) ==> es2[j].instructions.contains(x)
}

proof fn lemma_sol_recorded_grown(es: Seq<crate::types::SpecSummarySolFlow>, es2: Seq<crate::types::SpecSummarySolFlow>, ix: Seq<char>, f: crate::types::SpecSolFlow)
    requires
        sols_grown(es, es2),
        sol_recorded(es, ix, f),
    ensures
        sol_recorded(es2, ix, f),
{
    let j = choose|j: int| sol_entry_records(es, j, ix, f);
    assert(sol_entry_key(es2[j]) == sol_entry_key(es[j]));
    assert(es2[j].instructions.contains(ix));
    assert(sol_entry_records(es2, j, ix, f));
}

proof fn lemma_sols_grown_trans(a: Seq<crate::types::SpecSummarySolFlow>, b: Seq<crate::types::SpecSummarySolFlow>, c: Seq<crate::types::SpecSummarySolFlow>)
    requires
        sols_grown(a, b),
        sols_grown(b, c),
    ensures
        sols_grown(a, c),
{
    assert forall|j: int| 0 <= j < a.len() implies #[trigger] sol_entry_key(c[j]) == sol_entry_key(a[j]) by {
        assert(sol_entry_key(c[j]) == sol_entry_key(b[j]));
    }
    assert forall|j: int, x: Seq<char>| 0 <= j < a.len() && #[trigger] a[j].instructions.contains(x) implies c[j].instructions.contains(x) by {
        assert(b[j].instructions.contains(x));
    }
}

proof fn lemma_sol_step(keys: Seq<Seq<char>>, es: Seq<crate::types::SpecSummarySolFlow>, ix: Seq<char>, f: crate::types::SpecSolFlow)
    requires
        sols_keyed(keys, es),
    ensures
        sols_keyed(crate::summary::sol_step(keys, es, ix, f).0, crate::summary::sol_step(keys, es, ix, f).1),
        sols_grown(es, crate::summary::sol_step(keys, es, ix, f).1),
        sol_recorded(crate::summary::sol_step(keys, es, ix, f).1, ix, f),
{
    let r = crate::summary::sol_step(keys, es, ix, f);
    lemma_key_index_from(keys, crate::summary::sol_key(f), 0);
    match crate::summary::key_index(keys, crate::summary::sol_key(f)) {
        Some(i) => {
            assert(r.1[i].instructions.contains(ix)) by {
                if !es[i].instructions.contains(ix) {
                    assert(es[i].instructions.push(ix).last() == ix);
                }
            }
            assert(sol_entry_key(r.1[i]) == sol_entry_key(es[i]));
            assert(sol_entry_records(r.1, i, ix, f));
            assert forall|j: int| 0 <= j < es.len() implies #[trigger] sol_entry_key(r.1[j]) == sol_entry_key(es[j]) by {
                if j == i {
                    assert(sol_entry_key(r.1[i]) == sol_entry_key(es[i]));
                }
            }
            assert forall|j: int, x: Seq<char>| 0 <= j < es.len() && #[trigger] es[j].instructions.contains(x) implies r.1[j].instructions.contains(x) by {
                if j == i && !es[i].instructions.contains(ix) {
                    let p = es[i].instructions;
                    let w = choose|t: int| 0 <= t < p.len() && p[t] == x;
                    assert(p.push(ix)[w] == x);
                }
            }
            assert forall|j: int| 0 <= j < r.0.len() implies #[trigger] r.0[j] == sol_entry_key(r.1[j]) by {
                if j == i {
                    assert(sol_entry_key(r.1[i]) == sol_entry_key(es[i]));
                }
            }
        },
        None => {
            let n = es.len() as int;
            assert(r.1[n].instructions[0] == ix);
            assert(sol_entry_key(r.1[n]) == crate::summary::sol_key(f));
            assert(sol_entry_records(r.1, n, ix, f));
            assert forall|j: int| 0 <= j < es.len() implies #[trigger] sol_entry_key(r.1[j]) == sol_entry_key(es[j]) by {
                assert(r.1[j] == es[j]);
            }
            assert forall|j: int, x: Seq<char>| 0 <= j < es.len() && #[trigger] es[j].instructions.contains(x) implies r.1[j].instructions.contains(x) by {
                assert(r.1[j] == es[j]);
            }
        },
    }
}

proof fn lemma_sols_step(keys: Seq<Seq<char>>, es: Seq<crate::types::SpecSummarySolFlow>, ix: Seq<char>, fs: Seq<crate::types::SpecSolFlow>)
    requires
        sols_keyed(keys, es),
    ensures
        sols_keyed(crate::summary::sols_step(keys, es, ix, fs).0, crate::summary::sols_step(keys, es, ix, fs).1),
        sols_grown(es, crate::summary::sols_step(keys, es, ix, fs).1),
        forall|t: int| 0 <= t < fs.len() ==> sol_recorded(crate::summary::sols_step(keys, es, ix, fs).1, ix, #[trigger] fs[t]),
    decreases fs.len(),
{
    if fs.len() > 0 {
        let prev = crate::summary::sols_step(keys, es, ix, fs.drop_last());
        lemma_sols_step(keys, es, ix, fs.drop_last());
        lemma_sol_step(prev.0, prev.1, ix, fs.last());
        let r = crate::summary::sols_step(keys, es, ix, fs);
        lemma_sols_grown_trans(es, prev.1, r.1);
        assert forall|t: int| 0 <= t < fs.len() implies sol_recorded(r.1, ix, #[trigger] fs[t]) by {
            if t < fs.len() - 1 {
                assert(fs.drop_last()[t] == fs[t]);
                lemma_sol_recorded_grown(prev.1, r.1, ix, fs[t]);
            }
        }
    } else {
        assert(sols_grown(es, es));
    }
}

proof fn lemma_summary_sols(ixs: Seq<SpecFactInstruction>)
    ensures
        sols_keyed(crate::summary::summary_state(ixs).sol_keys, crate::summary::summary_state(ixs).sol),
        forall|k: int, t: int| 0 <= k < ixs.len() && 0 <= t < ixs[k].sol_flows.len() ==> sol_recorded(
            crate::summary::summary_state(ixs).sol, ixs[k].name, #[trigger] ixs[k].sol_flows[t]),
    decreases ixs.len(),
{
    if ixs.len() > 0 {
        let pre = ixs.drop_last();
        let ix = ixs.last();
        let st0 = crate::summary::summary_state(pre);
        lemma_summary_sols(pre);
        crate::summary::lemma_accounts_step_frame(st0, ix.name, ix.accounts);
        let st1 = crate::summary::accounts_step(st0, ix.name, ix.accounts);
        assert(st1.sol_keys == st0.sol_keys && st1.sol == st0.sol);
        lemma_sols_step(st1.sol_keys, st1.sol, ix.name, ix.sol_flows);
        let st = crate::summary::summary_state(ixs);
        assert forall|k: int, t: int| 0 <= k < ixs.len() && 0 <= t < ixs[k].sol_flows.len() implies sol_recorded(
            st.sol, ixs[k].name, #[trigger] ixs[k].sol_flows[t]) by {
            if k < ixs.len() - 1 {
                assert(pre[k] == ixs[k]);
                assert(sol_recorded(st0.sol, pre[k].name, pre[k].sol_flows[t]));
                lemma_sol_recorded_grown(st0.sol, st.sol, ixs[k].name, ixs[k].sol_flows[t]);
            }
        }
    }
}

/// The SOL-flow summary has one entry per flow key (source, destination and method), and
/// every SOL flow of every instruction is gathered into the entry of its key, which lists
/// the instruction.
pub proof fn law_sol_summary_complete(f: crate::types::SpecFacts, k: int, t: int)
    requires
        0 <= k < f.instructions.len(),
        0 <= t < f.instructions[k].sol_flows.len(),
    ensures
        forall|i: int, j: int| 0 <= i < j < crate::summary::summary_of(f).sol_flow_summary.len()
            ==> sol_entry_key(#[trigger] crate::summary::summary_of(f).sol_flow_summary[i])
                != sol_entry_key(#[trigger] crate::summary::summary_of(f).sol_flow_summary[j]),
        sol_recorded(crate::summary::summary_of(f).sol_flow_summary, f.instructions[k].name, f.instructions[k].sol_flows[t]),
{
    lemma_summary_sols(f.instructions);
    let st = crate::summary::summary_state(f.instructions);
    assert(crate::summary::summary_of(f).sol_flow_summary == st.sol);
    assert(sol_recorded(st.sol, f.instructions[k].name, f.instructions[k].sol_flows[t]));
    assert forall|i: int, j: int| 0 <= i < j < st.sol.len() implies sol_entry_key(#[trigger] st.sol[i]) != sol_entry_key(#[trigger] st.sol[j]) by {
        assert(st.sol_keys[i] == sol_entry_key(st.sol[i]));
        assert(st.sol_keys[j] == sol_entry_key(st.sol[j]));
    }
}

// ---------------------------------------------------------------------------
// Token-flow summary
// ---------------------------------------------------------------------------

/// The key of a token summary entry: the key of the flows it gathers.
pub open spec fn token_entry_key(e: crate::types::SpecSummaryTokenFlow) -> Seq<char> {
    e.from + "->"@ + e.to + " via "@ + e.via
}

/// The token keys are those of their entries, one per entry, no key twice.
pub open spec fn tokens_keyed(keys: Seq<Seq<char>>, es: Seq<crate::types::SpecSummaryTokenFlow>) -> bool {
    &&& keys.len() == es.len()
    &&& forall|j: int| 0 <= j < keys.len() ==> #[trigger] keys[j] == token_entry_key(es[j])
    &&& forall|i: int, j: int| 0 <= i < j < keys.len() ==> keys[i] != keys[j]
}

/// Entry `j` of `es` gathers flow `f` of instruction `ix`.
pub open spec fn token_entry_records(es: Seq<crate::types::SpecSummaryTokenFlow>, j: int, ix: Seq<char>, f: crate::types::SpecTokenFlow) -> bool {
    &&& 0 <= j < es.len()
    &&& token_entry_key(es[j]) == crate::summary::token_key(f)
    &&& es[j].instructions.contains(ix)
}

/// Some entry of `es` gathers flow `f` of instruction `ix`.
pub open spec fn token_recorded(es: Seq<crate::types::SpecSummaryTokenFlow>, ix: Seq<char>, f: crate::types::SpecTokenFlow) -> bool {
    exists|j: int| token_entry_records(es, j, ix, f)
}

/// `es2` keeps every entry of `es` in place, with the same ends and method and at least
/// its instructions.
pub open spec fn tokens_grown(es: Seq<crate::types::SpecSummaryTokenFlow>, es2: Seq<crate::types::SpecSummaryTokenFlow>) -> bool {
    &&& es.len() <= es2.len()
    &&& forall|j: int| 0 <= j < es.len() ==> #[trigger] token_entry_key(es2[j]) == token_entry_key(es[j])
    &&& forall|j: int, x: Seq<char>| 0 <= j < es.len() && #[trigger] es[j].instructions.contains(x) ==> es2[j].instructions.contains(x)
}

proof fn lemma_token_recorded_grown(es: Seq<crate::types::SpecSummaryTokenFlow>, es2: Seq<crate::types::SpecSummaryTokenFlow>, ix: Seq<char>, f: crate::types::SpecTokenFlow)
    requires
        tokens_grown(es, es2),
        token_recorded(es, ix, f),
    ensures
        token_recorded(es2, ix, f),
{
    let j = choose|j: int| token_entry_records(es, j, ix, f);
    assert(token_entry_key(es2[j]) == token_entry_key(es[j]));
    assert(es2[j].instructions.contains(ix));
    assert(token_entry_records(es2, j, ix, f));
}

proof fn lemma_tokens_grown_trans(a: Seq<crate::types::SpecSummaryTokenFlow>, b: Seq<crate::types::SpecSummaryTokenFlow>, c: Seq<crate::types::SpecSummaryTokenFlow>)
    requires
        tokens_grown(a, b),
        tokens_grown(b, c),
    ensures
        tokens_grown(a, c),
{
    assert forall|j: int| 0 <= j < a.len() implies #[trigger] token_entry_key(c[j]) == token_entry_key(a[j]) by {
        assert(token_entry_key(c[j]) == token_entry_key(b[j]));
    }
    assert forall|j: int, x: Seq<char>| 0 <= j < a.len() && #[trigger] a[j].instructions.contains(x) implies c[j].instructions.contains(x) by {
        assert(b[j].instructions.contains(x));
    }
}

proof fn lemma_token_step(keys: Seq<Seq<char>>, es: Seq<crate::types::SpecSummaryTokenFlow>, ix: Seq<char>, f: crate::types::SpecTokenFlow)
    requires
        tokens_keyed(keys, es),
    ensures
        tokens_keyed(crate::summary::token_step(keys, es, ix, f).0, crate::summary::token_step(keys, es, ix, f).1),
        tokens_grown(es, crate::summary::token_step(keys, es, ix, f).1),
        token_recorded(crate::summary::token_step(keys, es, ix, f).1, ix, f),
{
    let r = crate::summary::token_step(keys, es, ix, f);
    lemma_key_index_from(keys, crate::summary::token_key(f), 0);
    match crate::summary::key_index(keys, crate::summary::token_key(f)) {
        Some(i) => {
            assert(r.1[i].instructions.contains(ix)) by {
                if !es[i].instructions.contains(ix) {
                    assert(es[i].instructions.push(ix).last() == ix);
                }
            }
            assert(token_entry_key(r.1[i]) == token_entry_key(es[i]));
            assert(token_entry_records(r.1, i, ix, f));
            assert forall|j: int| 0 <= j < es.len() implies #[trigger] token_entry_key(r.1[j]) == token_entry_key(es[j]) by {
                if j == i {
                    assert(token_entry_key(r.1[i]) == token_entry_key(es[i]));
                }
            }
            assert forall|j: int, x: Seq<char>| 0 <= j < es.len() && #[trigger] es[j].instructions.contains(x) implies r.1[j].instructions.contains(x) by {
                if j == i && !es[i].instructions.contains(ix) {
                    let p = es[i].instructions;
                    let w = choose|t: int| 0 <= t < p.len() && p[t] == x;
                    assert(p.push(ix)[w] == x);
                }
            }
            assert forall|j: int| 0 <= j < r.0.len() implies #[trigger] r.0[j] == token_entry_key(r.1[j]) by {
                if j == i {
                    assert(token_entry_key(r.1[i]) == token_entry_key(es[i]));
                }
            }
        },
        None => {
            let n = es.len() as int;
            assert(r.1[n].instructions[0] == ix);
            assert(token_entry_key(r.1[n]) == crate::summary::token_key(f));
            assert(token_entry_records(r.1, n, ix, f));
            assert forall|j: int| 0 <= j < es.len() implies #[trigger] token_entry_key(r.1[j]) == token_entry_key(es[j]) by {
                assert(r.1[j] == es[j]);
            }
            assert forall|j: int, x: Seq<char>| 0 <= j < es.len() && #[trigger] es[j].instructions.contains(x) implies r.1[j].instructions.contains(x) by {
                assert(r.1[j] == es[j]);
            }
        },
    }
}

proof fn lemma_tokens_step(keys: Seq<Seq<char>>, es: Seq<crate::types::SpecSummaryTokenFlow>, ix: Seq<char>, fs: Seq<crate::types::SpecTokenFlow>)
    requires
        tokens_keyed(keys, es),
    ensures
        tokens_keyed(crate::summary::tokens_step(keys, es, ix, fs).0, crate::summary::tokens_step(keys, es, ix, fs).1),
        tokens_grown(es, crate::summary::tokens_step(keys, es, ix, fs).1),
        forall|t: int| 0 <= t < fs.len() ==> token_recorded(crate::summary::tokens_step(keys, es, ix, fs).1, ix, #[trigger] fs[t]),
    decreases fs.len(),
{
    if fs.len() > 0 {
        let prev = crate::summary::tokens_step(keys, es, ix, fs.drop_last());
        lemma_tokens_step(keys, es, ix, fs.drop_last());
        lemma_token_step(prev.0, prev.1, ix, fs.last());
        let r = crate::summary::tokens_step(keys, es, ix, fs);
        lemma_tokens_grown_trans(es, prev.1, r.1);
        assert forall|t: int| 0 <= t < fs.len() implies token_recorded(r.1, ix, #[trigger] fs[t]) by {
            if t < fs.len() - 1 {
                assert(fs.drop_last()[t] == fs[t]);
                lemma_token_recorded_grown(prev.1, r.1, ix, fs[t]);
            }
        }
    } else {
        assert(tokens_grown(es, es));
    }
}

proof fn lemma_summary_tokens(ixs: Seq<SpecFactInstruction>)
    ensures
        tokens_keyed(crate::summary::summary_state(ixs).token_keys, crate::summary::summary_state(ixs).tokens),
        forall|k: int, t: int| 0 <= k < ixs.len() && 0 <= t < ixs[k].token_flows.len() ==> token_recorded(
            crate::summary::summary_state(ixs).tokens, ixs[k].name, #[trigger] ixs[k].token_flows[t]),
    decreases ixs.len(),
{
    if ixs.len() > 0 {
        let pre = ixs.drop_last();
        let ix = ixs.last();
        let st0 = crate::summary::summary_state(pre);
        lemma_summary_tokens(pre);
        crate::summary::lemma_accounts_step_frame(st0, ix.name, ix.accounts);
        let st1 = crate::summary::accounts_step(st0, ix.name, ix.accounts);
        assert(st1.token_keys == st0.token_keys && st1.tokens == st0.tokens);
        lemma_tokens_step(st1.token_keys, st1.tokens, ix.name, ix.token_flows);
        let st = crate::summary::summary_state(ixs);
        assert forall|k: int, t: int| 0 <= k < ixs.len() && 0 <= t < ixs[k].token_flows.len() implies token_recorded(
            st.tokens, ixs[k].name, #[trigger] ixs[k].token_flows[t]) by {
            if k < ixs.len() - 1 {
                assert(pre[k] == ixs[k]);
                assert(token_recorded(st0.tokens, pre[k].name, pre[k].token_flows[t]));
                lemma_token_recorded_grown(st0.tokens, st.tokens, ixs[k].name, ixs[k].token_flows[t]);
            }
        }
    }
}

/// The token-flow summary has one entry per flow key (source, destination and method), and
/// every token flow of every instruction is gathered into the entry of its key, which lists
/// the instruction.
pub proof fn law_token_summary_complete(f: crate::types::SpecFacts, k: int, t: int)
    requires
        0 <= k < f.instructions.len(),
        0 <= t < f.instructions[k].token_flows.len(),
    ensures
        forall|i: int, j: int| 0 <= i < j < crate::summary::summary_of(f).token_flow_summary.len()
            ==> token_entry_key(#[trigger] crate::summary::summary_of(f).token_flow_summary[i])
                != token_entry_key(#[trigger] crate::summary::summary_of(f).token_flow_summary[j]),
        token_recorded(crate::summary::summary_of(f).token_flow_summary, f.instructions[k].name, f.instructions[k].token_flows[t]),
{
    lemma_summary_tokens(f.instructions);
    let st = crate::summary::summary_state(f.instructions);
    assert(crate::summary::summary_of(f).token_flow_summary == st.tokens);
    assert(token_recorded(st.tokens, f.instructions[k].name, f.instructions[k].token_flows[t]));
    assert forall|i: int, j: int| 0 <= i < j < st.tokens.len() implies token_entry_key(#[trigger] st.tokens[i]) != token_entry_key(#[trigger] st.tokens[j]) by {
        assert(st.token_keys[i] == token_entry_key(st.tokens[i]));
        assert(st.token_keys[j] == token_entry_key(st.tokens[j]));
    }
}


// ---------------------------------------------------------------------------
// Fact-file names
// ---------------------------------------------------------------------------

proof fn lemma_decimal_len(n: nat)
    ensures
        decimal(n).len() >= 1,
        n >= 10 ==> decimal(n).len() >= 2,
    decreases n,
{
    if n >= 10 {
        lemma_decimal_len(n / 10);
    }
}

/// A smaller number has no more digits.
proof fn lemma_decimal_len_mono(a: nat, b: nat)
    requires
        a <= b,
    ensures
        decimal(a).len() <= decimal(b).len(),
    decreases b,
{
    lemma_decimal_len(a);
    lemma_decimal_len(b);
    if a >= 10 {
        lemma_decimal_len_mono(a / 10, b / 10);
    }
}

/// The decimal digits of a positive number do not start with `0`.
proof fn lemma_decimal_lead(n: nat)
    requires
        n >= 1,
    ensures
        decimal(n)[0] != '0',
    decreases n,
{
    lemma_decimal_len(n);
    if n >= 10 {
        lemma_decimal_lead(n / 10);
        lemma_decimal_len(n / 10);
        assert(decimal(n)[0] == decimal(n / 10)[0]);
    }
}

/// Different numbers have different decimal digits.
proof fn lemma_decimal_injective(a: nat, b: nat)
    requires
        decimal(a) == decimal(b),
    ensures
        a == b,
    decreases a,
{
    lemma_decimal_len(a);
    lemma_decimal_len(b);
    if a >= 10 && b >= 10 {
        assert(decimal(a).drop_last() == decimal(a / 10));
        assert(decimal(b).drop_last() == decimal(b / 10));
        lemma_decimal_injective(a / 10, b / 10);
        assert(decimal(a).last() == digit((a % 10) as int));
        assert(decimal(b).last() == digit((b % 10) as int));
    } else if a < 10 && b < 10 {
        assert(decimal(a)[0] == digit(a as int));
        assert(decimal(b)[0] == digit(b as int));
    }
}

/// Two positive numbers with at most `w` digits, padded to `w`, differ when the numbers do.
proof fn lemma_padded_distinct(a: nat, b: nat, w: nat)
    requires
        1 <= a,
        1 <= b,
        a != b,
        decimal(a).len() <= w,
        decimal(b).len() <= w,
    ensures
        zero_pad(decimal(a), w) != zero_pad(decimal(b), w),
        zero_pad(decimal(a), w).len() == w,
        zero_pad(decimal(b), w).len() == w,
{
    let s = decimal(a);
    let t = decimal(b);
    let ps = zero_pad(s, w);
    let pt = zero_pad(t, w);
    lemma_decimal_lead(a);
    lemma_decimal_lead(b);
    if s.len() == t.len() {
        if ps == pt {
            assert(s =~= ps.subrange(w - s.len(), w as int));
            assert(t =~= pt.subrange(w - t.len(), w as int));
            lemma_decimal_injective(a, b);
        }
    } else if s.len() < t.len() {
        let k = w - t.len();
        assert(pt[k] == t[0]);
        assert(ps[k] == '0');
    } else {
        let k = w - s.len();
        assert(ps[k] == s[0]);
        assert(pt[k] == '0');
    }
}

/// Every instruction gets a fact file of its own: the file names of the fact-file index are
/// pairwise distinct.
pub proof fn law_split_files_distinct(ixs: Seq<SpecFactInstruction>, i: int, j: int)
    requires
        0 <= i < j < ixs.len(),
    ensures
        crate::output::split_entries(ixs)[i].file != crate::output::split_entries(ixs)[j].file,
{
    let n = ixs.len();
    let w = crate::output::split_width(n);
    let a = (i + 1) as nat;
    let b = (j + 1) as nat;
    lemma_decimal_len_mono(a, n);
    lemma_decimal_len_mono(b, n);
    lemma_padded_distinct(a, b, w);
    let fa = crate::output::split_entries(ixs)[i].file;
    let fb = crate::output::split_entries(ixs)[j].file;
    assert(fa == crate::output::split_file_name(a, w, ixs[i].name));
    assert(fb == crate::output::split_file_name(b, w, ixs[j].name));
    if fa == fb {
        assert(fa.subrange(0, w as int) =~= zero_pad(decimal(a), w));
        assert(fb.subrange(0, w as int) =~= zero_pad(decimal(b), w));
    }
}


} // verus!
