//! What account reading, alias merging, the summary's CPI lines, the access-control flag and
//! lamport directions must give, stated over their inputs.
use vstd::prelude::*;

use crate::merger::{dedup, dedup_step, deduplicated, merge_alias, paired_all};
use crate::seqs::push_unique_all;
use crate::syntax::{Expr, FieldItem, Stmt};
use crate::text::{contains, find, find_from, lemma_find_from, matches_at, starts_with, trim};
use crate::types::{SpecFactInstruction, SpecFacts};

verus! {

// ---------------------------------------------------------------------------
// Unchecked accounts
// ---------------------------------------------------------------------------

/// An account field is unchecked exactly when its type is an `UncheckedAccount` or an
/// `AccountInfo`, which Anchor does not validate.
pub proof fn law_unchecked_account_types(f: FieldItem)
    ensures
        crate::rust_parser::account_of(f).unchecked <==> (f.path_last.deep_view() == Some("UncheckedAccount"@)
            || f.path_last.deep_view() == Some("AccountInfo"@)),
{
}

/// Some `#[account(...)]` attribute of `attrs` has the text `t`.
pub open spec fn account_attr_text(attrs: Seq<crate::syntax::Attr>, t: Seq<char>) -> bool {
    exists|k: int| #[trigger] is_account_attr(attrs, k) && attrs[k].meta@ == t
}

/// The attribute at `k` is an `#[account(...)]` attribute.
pub open spec fn is_account_attr(attrs: Seq<crate::syntax::Attr>, k: int) -> bool {
    0 <= k < attrs.len() && attrs[k].name@ == "account"@
}

proof fn lemma_account_attrs(attrs: Seq<crate::syntax::Attr>)
    ensures
        crate::rust_parser::account_attrs(attrs).is_mut <==> exists|k: int| #[trigger] is_account_attr(attrs, k)
            && contains(attrs[k].meta@, "mut"@),
        forall|k: int| #[trigger] is_account_attr(attrs, k) ==> crate::rust_parser::account_attrs(attrs).constraints.contains(
            attrs[k].meta@),
        forall|i: int| 0 <= i < crate::rust_parser::account_attrs(attrs).constraints.len() ==> account_attr_text(attrs,
            #[trigger] crate::rust_parser::account_attrs(attrs).constraints[i]),
    decreases attrs.len(),
{
    if attrs.len() > 0 {
        let pre = attrs.drop_last();
        lemma_account_attrs(pre);
        let p = crate::rust_parser::account_attrs(pre);
        let r = crate::rust_parser::account_attrs(attrs);
        let n = attrs.len() - 1;
        assert forall|k: int| is_account_attr(pre, k) <==> #[trigger] is_account_attr(attrs, k) && k < n by {
            if 0 <= k < n {
                assert(pre[k] == attrs[k]);
            }
        }
        if r.is_mut {
            if p.is_mut {
                let k = choose|k: int| #[trigger] is_account_attr(pre, k) && contains(pre[k].meta@, "mut"@);
                assert(is_account_attr(attrs, k) && pre[k] == attrs[k]);
            } else {
                assert(is_account_attr(attrs, n));
            }
        }
        if exists|k: int| #[trigger] is_account_attr(attrs, k) && contains(attrs[k].meta@, "mut"@) {
            let k = choose|k: int| #[trigger] is_account_attr(attrs, k) && contains(attrs[k].meta@, "mut"@);
            if k < n {
                assert(is_account_attr(pre, k) && pre[k] == attrs[k]);
            }
        }
        assert forall|k: int| #[trigger] is_account_attr(attrs, k) implies r.constraints.contains(attrs[k].meta@) by {
            if k < n {
                assert(is_account_attr(pre, k) && pre[k] == attrs[k]);
                assert(p.constraints.contains(attrs[k].meta@));
                if attrs.last().name@ == "account"@ {
                    let w = choose|w: int| 0 <= w < p.constraints.len() && p.constraints[w] == attrs[k].meta@;
                    assert(r.constraints[w] == attrs[k].meta@);
                }
            } else {
                assert(r.constraints[p.constraints.len() as int] == attrs[k].meta@);
            }
        }
        assert forall|i: int| 0 <= i < r.constraints.len() implies account_attr_text(attrs, #[trigger] r.constraints[i]) by {
            if i < p.constraints.len() {
                assert(r.constraints[i] == p.constraints[i]);
                assert(account_attr_text(pre, p.constraints[i]));
                let k = choose|k: int| #[trigger] is_account_attr(pre, k) && pre[k].meta@ == p.constraints[i];
                assert(is_account_attr(attrs, k) && pre[k] == attrs[k]);
            } else {
                assert(is_account_attr(attrs, n));
                assert(attrs[n].meta@ == r.constraints[i]);
            }
        }
    }
}

/// An account field read as an instruction account keeps its name, type text and wrapper;
/// it is a signer exactly when its wrapper is `Signer`, mutable exactly when one of its
/// `#[account(...)]` attributes mentions `mut`, and its constraints are the texts of those
/// attributes; its inner type is the first generic argument of an `Account`, `Program`,
/// `Box` or `UncheckedAccount` wrapper.
pub proof fn law_account_field(f: FieldItem)
    ensures
        ({
            let a = crate::rust_parser::account_of(f);
            let w = f.path_last.deep_view();
            &&& a.name == f.name@
            &&& a.type_info == f.ty@
            &&& a.wrapper_type == w
            &&& a.is_signer <==> w == Some("Signer"@)
            &&& a.is_mut <==> exists|k: int| #[trigger] is_account_attr(f.attrs@, k) && contains(f.attrs@[k].meta@, "mut"@)
            &&& forall|k: int| #[trigger] is_account_attr(f.attrs@, k) ==> a.constraints.contains(f.attrs@[k].meta@)
            &&& forall|i: int| 0 <= i < a.constraints.len() ==> account_attr_text(f.attrs@, #[trigger] a.constraints[i])
            &&& (w == Some("Account"@) || w == Some("Program"@) || w == Some("Box"@) || w == Some("UncheckedAccount"@))
                && f.generic_paths@.len() > 0 ==> a.inner_type == Some(f.generic_paths@[0]@)
            &&& !(w == Some("Account"@) || w == Some("Program"@) || w == Some("Box"@) || w == Some("UncheckedAccount"@))
                ==> a.inner_type is None
        }),
{
    lemma_account_attrs(f.attrs@);
}

// ---------------------------------------------------------------------------
// Alias merging
// ---------------------------------------------------------------------------

proof fn lemma_push_unique_all<A>(s: Seq<A>, xs: Seq<A>, x: A)
    requires
        s.contains(x) || xs.contains(x),
    ensures
        push_unique_all(s, xs).contains(x),
    decreases xs.len(),
{
    if xs.len() > 0 {
        let prev = push_unique_all(s, xs.drop_last());
        if s.contains(x) || xs.drop_last().contains(x) {
            lemma_push_unique_all(s, xs.drop_last(), x);
            if !prev.contains(xs.last()) {
                let i = choose|i: int| 0 <= i < prev.len() && prev[i] == x;
                assert(prev.push(xs.last())[i] == x);
            }
        } else {
            assert(x == xs.last()) by {
                let i = choose|i: int| 0 <= i < xs.len() && xs[i] == x;
                if i < xs.len() - 1 {
                    assert(xs.drop_last()[i] == x);
                }
            }
            if !prev.contains(x) {
                assert(prev.push(x)[prev.len() as int] == x);
            }
        }
    }
}

/// Merging an alias into an instruction loses no enrichment: every CPI call, body check
/// and arithmetic operation of either is among those of the merged instruction.
pub proof fn law_merge_keeps_enrichment(e: SpecFactInstruction, ix: SpecFactInstruction)
    ensures
        forall|c| e.cpi_calls.contains(c) || ix.cpi_calls.contains(c) ==> #[trigger] merge_alias(e, ix).cpi_calls.contains(c),
        forall|b| e.body_checks.contains(b) || ix.body_checks.contains(b) ==> #[trigger] merge_alias(e, ix).body_checks.contains(b),
        forall|a| e.arithmetic.contains(a) || ix.arithmetic.contains(a) ==> #[trigger] merge_alias(e, ix).arithmetic.contains(a),
{
    let m = merge_alias(e, ix);
    assert forall|c| e.cpi_calls.contains(c) || ix.cpi_calls.contains(c) implies #[trigger] m.cpi_calls.contains(c) by {
        lemma_push_unique_all(e.cpi_calls, ix.cpi_calls, c);
    }
    assert forall|b| e.body_checks.contains(b) || ix.body_checks.contains(b) implies #[trigger] m.body_checks.contains(b) by {
        lemma_push_unique_all(e.body_checks, ix.body_checks, b);
    }
    assert forall|a| e.arithmetic.contains(a) || ix.arithmetic.contains(a) implies #[trigger] m.arithmetic.contains(a) by {
        lemma_push_unique_all(e.arithmetic, ix.arithmetic, a);
    }
}

/// Some instruction of `u` has the CPI call `c`.
pub open spec fn cpi_kept(u: Seq<SpecFactInstruction>, c: crate::types::SpecCpiCall) -> bool {
    exists|j: int| 0 <= j < u.len() && (#[trigger] u[j]).cpi_calls.contains(c)
}

proof fn lemma_dedup_step_keeps(u: Seq<SpecFactInstruction>, ix: SpecFactInstruction, c: crate::types::SpecCpiCall)
    requires
        cpi_kept(u, c) || ix.cpi_calls.contains(c),
    ensures
        cpi_kept(dedup_step(u, ix), c),
{
    let r = dedup_step(u, ix);
    crate::laws::lemma_context_index_from(u, ix.context, 0);
    match crate::merger::alias_index(u, ix) {
        Some(j) => {
            law_merge_keeps_enrichment(u[j], ix);
            if ix.cpi_calls.contains(c) {
                assert(r[j].cpi_calls.contains(c));
            } else {
                let w = choose|w: int| 0 <= w < u.len() && (#[trigger] u[w]).cpi_calls.contains(c);
                if w == j {
                    assert(r[j].cpi_calls.contains(c));
                } else {
                    assert(r[w] == u[w]);
                }
            }
        },
        None => {
            if ix.cpi_calls.contains(c) {
                assert(r[u.len() as int] == ix);
            } else {
                let w = choose|w: int| 0 <= w < u.len() && (#[trigger] u[w]).cpi_calls.contains(c);
                assert(r[w] == u[w]);
            }
        },
    }
}

proof fn lemma_dedup_keeps(ixs: Seq<SpecFactInstruction>, k: int, c: crate::types::SpecCpiCall)
    requires
        0 <= k < ixs.len(),
        ixs[k].cpi_calls.contains(c),
    ensures
        cpi_kept(dedup(ixs), c),
    decreases ixs.len(),
{
    if k == ixs.len() - 1 {
        lemma_dedup_step_keeps(dedup(ixs.drop_last()), ixs.last(), c);
    } else {
        assert(ixs.drop_last()[k] == ixs[k]);
        lemma_dedup_keeps(ixs.drop_last(), k, c);
        lemma_dedup_step_keeps(dedup(ixs.drop_last()), ixs.last(), c);
    }
}

/// Deduplication loses no CPI call: every CPI call of every instruction is among those of
/// some instruction afterwards (an alias's calls go to the instruction it merges into).
pub proof fn law_dedup_keeps_cpi_calls(ixs: Seq<SpecFactInstruction>, k: int, c: crate::types::SpecCpiCall)
    requires
        0 <= k < ixs.len(),
        ixs[k].cpi_calls.contains(c),
    ensures
        cpi_kept(deduplicated(ixs), c),
{
    assert(paired_all(ixs)[k].cpi_calls == ixs[k].cpi_calls);
    lemma_dedup_keeps(paired_all(ixs), k, c);
    assert(deduplicated(ixs) == dedup(paired_all(ixs)));
}

// ---------------------------------------------------------------------------
// Lamport directions
// ---------------------------------------------------------------------------

proof fn lemma_trimmed_starts(s: Seq<char>, p: Seq<char>)
    requires
        p.len() > 0,
        starts_with(trim(s, None), p),
    ensures
        contains(s, p),
{
    let a = crate::text::first_kept(s, None, 0);
    let e = crate::text::last_kept_end(s, None, s.len() as int);
    crate::text::lemma_first_kept(s, None, 0);
    assert(a < s.len());
    crate::text::lemma_last_kept_end(s, None, s.len() as int, a);
    let t = s.subrange(a, e);
    assert(t.subrange(0, p.len() as int) =~= s.subrange(a, a + p.len()));
    assert(matches_at(s, p, a));
    lemma_find_from(s, p, 0);
}

/// A lamport assignment statement records one lamport move at the statement's counter. It
/// goes `out` when either side holds `-=` or the right side calls `checked_sub`; otherwise
/// `in` when the right side holds `+=` or calls `checked_add`, or the left side holds `+`;
/// otherwise its direction is `unknown`.
pub proof fn law_lamport_direction(lhs: String, rhs: String, f: crate::flow_extractor::SpecBodyFacts, c: int)
    requires
        contains(lhs@, "lamports"@) || contains(rhs@, "lamports"@),
    ensures
        ({
            let moves = crate::flow_extractor::stmt_facts(Stmt::Expr(Expr::Assign { lhs, rhs }), f, c).partial_lamport_flows;
            let out = contains(lhs@, "-="@) || contains(rhs@, "-="@) || contains(rhs@, "checked_sub"@);
            let inward = contains(rhs@, "+="@) || contains(rhs@, "checked_add"@) || contains(lhs@, "+"@);
            &&& moves.len() == f.partial_lamport_flows.len() + 1
            &&& moves.subrange(0, f.partial_lamport_flows.len() as int) == f.partial_lamport_flows
            &&& moves.last().instruction_order == c as usize
            &&& out ==> moves.last().direction == "out"@
            &&& !out && inward ==> moves.last().direction == "in"@
            &&& !out && !inward ==> moves.last().direction == "unknown"@
        }),
{
    let r = rhs@;
    let moves = crate::flow_extractor::stmt_facts(Stmt::Expr(Expr::Assign { lhs, rhs }), f, c).partial_lamport_flows;
    assert(moves.subrange(0, f.partial_lamport_flows.len() as int) =~= f.partial_lamport_flows);
    reveal_strlit("-=");
    reveal_strlit("+=");
    if starts_with(trim(r, None), "-="@) {
        lemma_trimmed_starts(r, "-="@);
    }
    if starts_with(trim(r, None), "+="@) {
        lemma_trimmed_starts(r, "+="@);
    }
}


// ---------------------------------------------------------------------------
// CPI lines of the summary
// ---------------------------------------------------------------------------

/// The summary line of CPI call `c` made by instruction `ix`.
pub open spec fn cpi_line(ix: Seq<char>, c: crate::types::SpecCpiCall) -> Seq<char> {
    ix + " calls "@ + c.target + "::"@ + c.instruction
}

/// No line of `s` comes twice.
pub open spec fn lines_distinct(s: Seq<Seq<char>>) -> bool {
    forall|i: int, j: int| 0 <= i < j < s.len() ==> #[trigger] s[i] != #[trigger] s[j]
}

proof fn lemma_cpi_lines_step(lines: Seq<Seq<char>>, ix: Seq<char>, cs: Seq<crate::types::SpecCpiCall>)
    requires
        lines_distinct(lines),
    ensures
        lines_distinct(crate::summary::cpi_lines_step(lines, ix, cs)),
        forall|x| lines.contains(x) ==> #[trigger] crate::summary::cpi_lines_step(lines, ix, cs).contains(x),
        forall|t: int| 0 <= t < cs.len() ==> crate::summary::cpi_lines_step(lines, ix, cs).contains(cpi_line(ix, #[trigger] cs[t])),
    decreases cs.len(),
{
    if cs.len() > 0 {
        let prev = crate::summary::cpi_lines_step(lines, ix, cs.drop_last());
        lemma_cpi_lines_step(lines, ix, cs.drop_last());
        let l = cpi_line(ix, cs.last());
        let r = crate::summary::cpi_lines_step(lines, ix, cs);
        assert(r == crate::rust_parser::push_unique(prev, l));
        if !prev.contains(l) {
            assert forall|x| prev.contains(x) implies #[trigger] r.contains(x) by {
                let i = choose|i: int| 0 <= i < prev.len() && prev[i] == x;
                assert(r[i] == x);
            }
            assert(r[prev.len() as int] == l);
        }
        assert forall|x| lines.contains(x) implies #[trigger] r.contains(x) by {
            assert(prev.contains(x));
        }
        assert forall|t: int| 0 <= t < cs.len() implies r.contains(cpi_line(ix, #[trigger] cs[t])) by {
            if t < cs.len() - 1 {
                assert(cs.drop_last()[t] == cs[t]);
                assert(prev.contains(cpi_line(ix, cs.drop_last()[t])));
            }
        }
    }
}

proof fn lemma_summary_cpi_lines(ixs: Seq<SpecFactInstruction>)
    ensures
        lines_distinct(crate::summary::summary_state(ixs).token_flows),
        forall|k: int, t: int| 0 <= k < ixs.len() && 0 <= t < ixs[k].cpi_calls.len() ==> crate::summary::summary_state(
            ixs,
        ).token_flows.contains(cpi_line(ixs[k].name, #[trigger] ixs[k].cpi_calls[t])),
    decreases ixs.len(),
{
    if ixs.len() > 0 {
        let pre = ixs.drop_last();
        let ix = ixs.last();
        let st0 = crate::summary::summary_state(pre);
        lemma_summary_cpi_lines(pre);
        crate::summary::lemma_accounts_step_frame(st0, ix.name, ix.accounts);
        let st1 = crate::summary::accounts_step(st0, ix.name, ix.accounts);
        assert(st1.token_flows == st0.token_flows);
        lemma_cpi_lines_step(st1.token_flows, ix.name, ix.cpi_calls);
        let st = crate::summary::summary_state(ixs);
        assert forall|k: int, t: int| 0 <= k < ixs.len() && 0 <= t < ixs[k].cpi_calls.len() implies st.token_flows.contains(
            cpi_line(ixs[k].name, #[trigger] ixs[k].cpi_calls[t])) by {
            if k < ixs.len() - 1 {
                assert(pre[k] == ixs[k]);
                assert(st0.token_flows.contains(cpi_line(pre[k].name, pre[k].cpi_calls[t])));
            }
        }
    }
}

/// The summary's CPI lines name every CPI call of every instruction as `ix calls
/// target::instruction`, and no line comes twice.
pub proof fn law_summary_cpi_lines(f: SpecFacts)
    ensures
        lines_distinct(crate::summary::summary_of(f).token_flows),
        forall|k: int, t: int| 0 <= k < f.instructions.len() && 0 <= t < f.instructions[k].cpi_calls.len()
            ==> crate::summary::summary_of(f).token_flows.contains(
            cpi_line(f.instructions[k].name, #[trigger] f.instructions[k].cpi_calls[t])),
{
    lemma_summary_cpi_lines(f.instructions);
}

// ---------------------------------------------------------------------------
// Access-control flag
// ---------------------------------------------------------------------------

/// The instruction makes a CPI `transfer`.
pub open spec fn makes_transfer(ix: SpecFactInstruction) -> bool {
    exists|k: int| 0 <= k < ix.cpi_calls.len() && (#[trigger] ix.cpi_calls[k]).instruction == "transfer"@
}

/// Some flag of `fs` has type `missing_access_control`.
pub open spec fn has_access_flag(fs: Seq<crate::types::SpecRiskFlag>) -> bool {
    exists|i: int| 0 <= i < fs.len() && (#[trigger] fs[i]).ty == "missing_access_control"@
}

proof fn lemma_flag_types_differ()
    ensures
        "missing_access_control"@ != "unchecked_account"@,
        "missing_access_control"@ != "init_if_needed"@,
        "missing_access_control"@ != "close_drain"@,
        "missing_access_control"@ != "mutable_account"@,
        "missing_access_control"@ != "unchecked_arithmetic"@,
        "missing_access_control"@ != "remaining_accounts"@,
{
    reveal_strlit("missing_access_control");
    reveal_strlit("unchecked_account");
    reveal_strlit("init_if_needed");
    reveal_strlit("close_drain");
    reveal_strlit("mutable_account");
    reveal_strlit("unchecked_arithmetic");
    reveal_strlit("remaining_accounts");
    assert("missing_access_control"@.len() == 22);
    assert("unchecked_account"@.len() == 17);
    assert("init_if_needed"@.len() == 14);
    assert("close_drain"@.len() == 11);
    assert("mutable_account"@.len() == 15);
    assert("unchecked_arithmetic"@.len() == 20);
    assert("remaining_accounts"@.len() == 18);
}

proof fn lemma_no_access_flag_accounts(ix: SpecFactInstruction, accs: Seq<crate::types::SpecInstructionAccount>)
    ensures
        !has_access_flag(crate::aggregate::accounts_flags(ix, accs)),
    decreases accs.len(),
{
    lemma_flag_types_differ();
    if accs.len() > 0 {
        lemma_no_access_flag_accounts(ix, accs.drop_last());
        let prev = crate::aggregate::accounts_flags(ix, accs.drop_last());
        let a = crate::aggregate::account_flags(ix, accs.last());
        let r = crate::aggregate::accounts_flags(ix, accs);
        assert(r == prev + a);
        assert forall|i: int| 0 <= i < r.len() implies (#[trigger] r[i]).ty != "missing_access_control"@ by {
            if i < prev.len() {
                assert(r[i] == prev[i]);
            } else {
                assert(r[i] == a[i - prev.len()]);
            }
        }
    }
}

proof fn lemma_no_access_flag_arith(ix: SpecFactInstruction, ars: Seq<crate::types::SpecArithmetic>)
    ensures
        !has_access_flag(crate::aggregate::arithmetic_flags(ix, ars)),
    decreases ars.len(),
{
    lemma_flag_types_differ();
    if ars.len() > 0 {
        lemma_no_access_flag_arith(ix, ars.drop_last());
        let prev = crate::aggregate::arithmetic_flags(ix, ars.drop_last());
        let r = crate::aggregate::arithmetic_flags(ix, ars);
        assert forall|i: int| 0 <= i < r.len() implies (#[trigger] r[i]).ty != "missing_access_control"@ by {
            if i < prev.len() {
                assert(r[i] == prev[i]);
            }
        }
    }
}

/// An instruction's flags include the `missing_access_control` flag exactly when it makes a
/// CPI `transfer` (any of its CPI calls) and has no body check; the flag then stands among
/// all flags under the instruction's name.
pub proof fn law_access_flag(ixs: Seq<SpecFactInstruction>, k: int)
    requires
        0 <= k < ixs.len(),
    ensures
        has_access_flag(crate::aggregate::instruction_flags(ixs[k])) <==> (makes_transfer(ixs[k])
            && ixs[k].body_checks.len() == 0),
        makes_transfer(ixs[k]) && ixs[k].body_checks.len() == 0 ==> crate::aggregate::all_flags(ixs).contains(
            crate::aggregate::flag("medium"@, "missing_access_control"@, ixs[k].name, None, None, None,
            "Instruction has CPI transfer but lacks require! checks."@)),
{
    lemma_flag_types_differ();
    let ix = ixs[k];
    let a = crate::aggregate::accounts_flags(ix, ix.accounts);
    let m = crate::aggregate::arithmetic_flags(ix, ix.arithmetic);
    let rem = if ix.uses_remaining_accounts {
        seq![crate::aggregate::flag("high"@, "remaining_accounts"@, ix.name, None, None, None,
            "Unvalidated account injection surface."@)]
    } else {
        seq![]
    };
    let tail = if makes_transfer(ix) && ix.body_checks.len() == 0 {
        seq![crate::aggregate::flag("medium"@, "missing_access_control"@, ix.name, None, None, None,
            "Instruction has CPI transfer but lacks require! checks."@)]
    } else {
        seq![]
    };
    let fl = crate::aggregate::instruction_flags(ix);
    assert(fl =~= a + m + rem + tail);
    lemma_no_access_flag_accounts(ix, ix.accounts);
    lemma_no_access_flag_arith(ix, ix.arithmetic);
    if has_access_flag(fl) {
        let i = choose|i: int| 0 <= i < fl.len() && (#[trigger] fl[i]).ty == "missing_access_control"@;
        if i < a.len() {
            assert(fl[i] == a[i]);
        } else if i < a.len() + m.len() {
            assert(fl[i] == m[i - a.len()]);
        } else if i < a.len() + m.len() + rem.len() {
            assert(fl[i] == rem[i - a.len() - m.len()]);
        }
    }
    if makes_transfer(ix) && ix.body_checks.len() == 0 {
        let n = (a.len() + m.len() + rem.len()) as int;
        assert(fl[n] == tail[0]);
        assert(has_access_flag(fl));
        crate::laws::law_unchecked_transfer_flagged(ixs, k);
    }
}

// ---------------------------------------------------------------------------
// Lamport move account and amount
// ---------------------------------------------------------------------------

proof fn lemma_lamport_account_from(parts: Seq<Seq<char>>, i: int)
    requires
        0 <= i,
    ensures
        forall|k: int| i <= k < parts.len() - 1 && contains(parts[k], "accounts"@) && (forall|j: int|
            i <= j < k ==> !contains(#[trigger] parts[j], "accounts"@)) ==> crate::flow_extractor::lamport_account_from(
            parts, i) == Some(#[trigger] parts[k + 1]),
        (forall|j: int| i <= j < parts.len() - 1 ==> !contains(#[trigger] parts[j], "accounts"@))
            ==> crate::flow_extractor::lamport_account_from(parts, i) is None,
    decreases parts.len() - i,
{
    if i < parts.len() {
        lemma_lamport_account_from(parts, i + 1);
        assert forall|k: int| i <= k < parts.len() - 1 && contains(parts[k], "accounts"@) && (forall|j: int|
            i <= j < k ==> !contains(#[trigger] parts[j], "accounts"@)) implies crate::flow_extractor::lamport_account_from(
            parts, i) == Some(#[trigger] parts[k + 1]) by {
            if k > i {
                assert(!contains(parts[i], "accounts"@));
            }
        }
    }
}

proof fn lemma_first_equals(e: Seq<char>)
    ensures
        match find(e, "="@) {
            Some(i) => 0 <= i < e.len() && e[i] == '=' && forall|j: int| 0 <= j < i ==> #[trigger] e[j] != '=',
            None => forall|j: int| 0 <= j < e.len() ==> #[trigger] e[j] != '=',
        },
{
    reveal_strlit("=");
    lemma_find_from(e, "="@, 0);
    match find(e, "="@) {
        Some(i) => {
            assert(e.subrange(i, i + 1) =~= "="@);
            assert(e.subrange(i, i + 1)[0] == e[i]);
            assert forall|j: int| 0 <= j < i implies #[trigger] e[j] != '=' by {
                if e[j] == '=' {
                    assert(e.subrange(j, j + 1) =~= "="@);
                    assert(matches_at(e, "="@, j));
                }
            }
        },
        None => {
            assert forall|j: int| 0 <= j < e.len() implies #[trigger] e[j] != '=' by {
                if e[j] == '=' {
                    assert(e.subrange(j, j + 1) =~= "="@);
                    assert(matches_at(e, "="@, j));
                }
            }
        },
    }
}

/// A lamport assignment's move names the account after the first `.`-separated part of the
/// left side that mentions `accounts` (and has a part after it), or `UNKNOWN` when there is
/// none; its amount is the right side after its first `=`, trimmed, or the whole right side
/// when it has no `=`.
pub proof fn law_lamport_move(lhs: String, rhs: String, f: crate::flow_extractor::SpecBodyFacts, c: int)
    requires
        contains(lhs@, "lamports"@) || contains(rhs@, "lamports"@),
    ensures
        ({
            let mv = crate::flow_extractor::stmt_facts(Stmt::Expr(Expr::Assign { lhs, rhs }), f, c).partial_lamport_flows.last();
            let parts = crate::text::split(lhs@, "."@);
            &&& forall|k: int| 0 <= k < parts.len() - 1 && contains(parts[k], "accounts"@) && (forall|j: int|
                0 <= j < k ==> !contains(#[trigger] parts[j], "accounts"@)) ==> mv.account == #[trigger] parts[k + 1]
            &&& (forall|j: int| 0 <= j < parts.len() - 1 ==> !contains(#[trigger] parts[j], "accounts"@)) ==> mv.account
                == "UNKNOWN"@
            &&& forall|i: int| 0 <= i < rhs@.len() && rhs@[i] == '=' && (forall|j: int| 0 <= j < i ==> #[trigger] rhs@[j]
                != '=') ==> mv.amount_expression == trim(#[trigger] rhs@.subrange(i + 1, rhs@.len() as int), None)
            &&& (forall|j: int| 0 <= j < rhs@.len() ==> #[trigger] rhs@[j] != '=') ==> mv.amount_expression == rhs@
        }),
{
    lemma_lamport_account_from(crate::text::split(lhs@, "."@), 0);
    lemma_first_equals(rhs@);
    let r = rhs@;
    match find(r, "="@) {
        Some(i0) => {
            assert forall|i: int| 0 <= i < r.len() && r[i] == '=' && (forall|j: int| 0 <= j < i ==> #[trigger] r[j]
                != '=') implies crate::flow_extractor::spec_lamport_amount(r) == trim(#[trigger] r.subrange(i + 1, r.len() as int), None) by {
                if i < i0 {
                } else if i > i0 {
                    assert(r[i0] == '=');
                }
            }
            assert(r[i0] == '=');
        },
        None => {},
    }
}

// ---------------------------------------------------------------------------
// Alias names
// ---------------------------------------------------------------------------

proof fn lemma_contains_at(s: Seq<char>, p: Seq<char>, i: int)
    requires
        matches_at(s, p, i),
    ensures
        contains(s, p),
{
    lemma_find_from(s, p, 0);
}

proof fn lemma_contains_middle(x: Seq<char>, p: Seq<char>, y: Seq<char>)
    ensures
        contains(x + p + y, p),
{
    assert((x + p + y).subrange(x.len() as int, (x.len() + p.len()) as int) =~= p);
    lemma_contains_at(x + p + y, p, x.len() as int);
}

/// The instruction that an alias merges into names the alias: its name contains the
/// alias's name. (A name already listing aliases more than once is kept as it is.)
pub proof fn law_merge_names_alias(e: SpecFactInstruction, ix: SpecFactInstruction)
    requires
        !contains(e.name, "(aliases: "@) || crate::text::split(e.name, "(aliases: "@).len() == 2,
    ensures
        contains(merge_alias(e, ix).name, ix.name),
{
    let n = e.name;
    let a = ix.name;
    let r = crate::merger::aliased_name(n, a);
    assert(merge_alias(e, ix).name == r);
    if n == a {
        lemma_contains_middle(seq![], a, seq![]);
        assert(seq![] + a + seq![] =~= a);
    } else if contains(n, "aliases: "@ + a) {
        lemma_find_from(n, "aliases: "@ + a, 0);
        let i = find(n, "aliases: "@ + a)->0;
        reveal_strlit("aliases: ");
        let k = "aliases: "@.len();
        assert(n.subrange(i + k, i + k + a.len()) =~= ("aliases: "@ + a).subrange(k as int, (k + a.len()) as int));
        assert(n.subrange(i + k, i + k + a.len()) =~= a);
        lemma_contains_at(n, a, i + k);
    } else if contains(n, "(aliases: "@) {
        let parts = crate::text::split(n, "(aliases: "@);
        let inner = crate::text::replace(parts[1], ")"@, seq![]);
        let x = trim(parts[0], None) + " (aliases: "@ + inner + ", "@;
        assert(r == x + a + ")"@);
        lemma_contains_middle(x, a, ")"@);
    } else {
        assert(r == n + " (aliases: "@ + a + ")"@);
        lemma_contains_middle(n + " (aliases: "@, a, ")"@);
    }
}

// ---------------------------------------------------------------------------
// Lamport pairing
// ---------------------------------------------------------------------------

/// The SOL flow that the lamport moves at `i` and `i + 1` make.
pub open spec fn flow_at(p: Seq<crate::types::SpecPartialLamportFlow>, i: int) -> crate::types::SpecSolFlow {
    crate::types::SpecSolFlow {
        from: p[i].account,
        to: p[i + 1].account,
        amount_expression: p[i].amount_expression,
        method: "try_borrow_mut_lamports()"@,
        instruction_order: p[i].instruction_order,
    }
}

proof fn lemma_pair_from_complete(p: Seq<crate::types::SpecPartialLamportFlow>, i: int, j: int)
    requires
        0 <= j <= i,
        i + 1 < p.len(),
        p[i].direction == "out"@,
        p[i + 1].direction == "in"@,
    ensures
        crate::merger::pair_from(p, j).contains(flow_at(p, i)),
    decreases i - j,
{
    reveal_strlit("out");
    reveal_strlit("in");
    assert("out"@.len() == 3 && "in"@.len() == 2);
    let r = crate::merger::pair_from(p, j);
    if j == i {
        assert(r[0] == flow_at(p, i));
    } else if j + 1 < p.len() && p[j].direction == "out"@ && p[j + 1].direction == "in"@ {
        assert(j + 1 != i);
        lemma_pair_from_complete(p, i, j + 2);
        let t = crate::merger::pair_from(p, j + 2);
        let w = choose|w: int| 0 <= w < t.len() && t[w] == flow_at(p, i);
        assert(r[w + 1] == flow_at(p, i));
    } else {
        lemma_pair_from_complete(p, i, j + 1);
    }
}

/// Every `out` lamport move directly followed by an `in` move makes a SOL flow from the
/// first move's account to the second's, with the first move's amount and order.
pub proof fn law_pairs_complete(p: Seq<crate::types::SpecPartialLamportFlow>, i: int)
    requires
        0 <= i,
        i + 1 < p.len(),
        p[i].direction == "out"@,
        p[i + 1].direction == "in"@,
    ensures
        crate::merger::pairs(p).contains(flow_at(p, i)),
{
    lemma_pair_from_complete(p, i, 0);
}

// ---------------------------------------------------------------------------
// Handlers
// ---------------------------------------------------------------------------

proof fn lemma_context_name(ps: Seq<crate::syntax::FnParam>, k: int)
    requires
        0 <= k < ps.len(),
        ps[k].path_last.deep_view() == Some("Context"@),
        ps[k].first_generic is Some,
        forall|j: int| 0 <= j < ps.len() && j != k ==> (#[trigger] ps[j]).path_last.deep_view() != Some("Context"@),
    ensures
        crate::rust_parser::context_name(ps) == ps[k].first_generic.unwrap()@,
    decreases ps.len(),
{
    if k < ps.len() - 1 {
        assert forall|j: int| 0 <= j < ps.drop_last().len() && j != k implies (#[trigger] ps.drop_last()[j]).path_last.deep_view()
            != Some("Context"@) by {
            assert(ps.drop_last()[j] == ps[j]);
        }
        assert(ps.drop_last()[k] == ps[k]);
        assert(ps.last() == ps[ps.len() - 1]);
        lemma_context_name(ps.drop_last(), k);
    }
}

/// A function with a `Context<C>` parameter is a handler: it is recorded as an instruction
/// under its own name, from its file, with no accounts yet, and with context `C` when that is
/// its only context parameter.
pub proof fn law_handler_recorded(f: crate::syntax::FnItem, file: Seq<char>, k: int)
    requires
        0 <= k < f.params@.len(),
        f.params@[k].path_last.deep_view() == Some("Context"@),
    ensures
        crate::rust_parser::fn_instruction(f, file) is Some,
        crate::rust_parser::fn_instruction(f, file)->0.name == f.name@,
        crate::rust_parser::fn_instruction(f, file)->0.source == Some(file),
        crate::rust_parser::fn_instruction(f, file)->0.accounts.len() == 0,
        f.params@[k].first_generic is Some && (forall|j: int| 0 <= j < f.params@.len() && j != k
            ==> (#[trigger] f.params@[j]).path_last.deep_view() != Some("Context"@))
            ==> crate::rust_parser::fn_instruction(f, file)->0.context == f.params@[k].first_generic.unwrap()@,
{
    assert(crate::rust_parser::is_context_param(f.params@[k]));
    if f.params@[k].first_generic is Some && (forall|j: int| 0 <= j < f.params@.len() && j != k
        ==> (#[trigger] f.params@[j]).path_last.deep_view() != Some("Context"@)) {
        lemma_context_name(f.params@, k);
    }
}

// ---------------------------------------------------------------------------
// State mutations and authority calls
// ---------------------------------------------------------------------------

/// The arithmetic styles a state mutation can be recorded with, in order of precedence.
pub open spec fn styles() -> Seq<Seq<char>> {
    seq!["checked_add"@, "checked_sub"@, "checked_mul"@, "checked_div"@, "saturating_add"@, "saturating_sub"@]
}

/// The style of a field assignment is the first of the checked and saturating operations
/// that its right side mentions, or `assign` when it mentions none.
pub proof fn law_operation_style(rhs: Seq<char>)
    ensures
        forall|i: int| 0 <= i < 6 && contains(rhs, #[trigger] styles()[i]) && (forall|j: int| 0 <= j < i
            ==> !contains(rhs, #[trigger] styles()[j])) ==> crate::flow_extractor::spec_operation_style(rhs) == styles()[i],
        (forall|j: int| 0 <= j < 6 ==> !contains(rhs, #[trigger] styles()[j])) ==> crate::flow_extractor::spec_operation_style(rhs)
            == "assign"@,
{
    assert forall|i: int| 0 <= i < 6 && contains(rhs, #[trigger] styles()[i]) && (forall|j: int| 0 <= j < i
        ==> !contains(rhs, #[trigger] styles()[j])) implies crate::flow_extractor::spec_operation_style(rhs) == styles()[i] by {
        if i >= 1 { assert(!contains(rhs, styles()[0])); }
        if i >= 2 { assert(!contains(rhs, styles()[1])); }
        if i >= 3 { assert(!contains(rhs, styles()[2])); }
        if i >= 4 { assert(!contains(rhs, styles()[3])); }
        if i >= 5 { assert(!contains(rhs, styles()[4])); }
    }
    if forall|j: int| 0 <= j < 6 ==> !contains(rhs, #[trigger] styles()[j]) {
        assert(!contains(rhs, styles()[0]) && !contains(rhs, styles()[1]) && !contains(rhs, styles()[2]));
        assert(!contains(rhs, styles()[3]) && !contains(rhs, styles()[4]) && !contains(rhs, styles()[5]));
    }
}

/// A `set_authority` call is always recorded, with its new authority the third argument's
/// trimmed text; a step marking the revocation is added exactly when that text is `None`
/// or `none`, and no other step is.
pub proof fn law_set_authority(call: crate::syntax::CallExpr, f: crate::flow_extractor::SpecBodyFacts, order: int)
    requires
        call.args@.len() > 2,
    ensures
        ({
            let r = crate::flow_extractor::set_authority_facts(call, f, order);
            let na = trim(call.args@[2]@, None);
            let revoked = na == "None"@ || na == "none"@;
            &&& r.set_authority_calls.len() == f.set_authority_calls.len() + 1
            &&& r.set_authority_calls.subrange(0, f.set_authority_calls.len() as int) == f.set_authority_calls
            &&& r.set_authority_calls.last().new_authority == na
            &&& r.set_authority_calls.last().instruction_order == order as usize
            &&& revoked ==> r.execution_steps.len() == f.execution_steps.len() + 1 && r.execution_steps.last().kind
                == crate::types::StepKind::SetAuthority && r.execution_steps.last().order == order as usize
            &&& !revoked ==> r.execution_steps == f.execution_steps
        }),
{
    let r = crate::flow_extractor::set_authority_facts(call, f, order);
    let na = trim(call.args@[2]@, None);
    assert(call.args.deep_view()[2] == call.args@[2]@);
    assert(r.set_authority_calls.subrange(0, f.set_authority_calls.len() as int) =~= f.set_authority_calls);
    lemma_trim_twice(call.args@[2]@);
}

proof fn lemma_last_kept(s: Seq<char>, j: int)
    requires
        0 <= j <= s.len(),
    ensures
        0 <= crate::text::last_kept_end(s, None, j) <= j,
        crate::text::last_kept_end(s, None, j) > 0 ==> !crate::text::trimmed_by(None, s[crate::text::last_kept_end(s, None, j) - 1]),
    decreases j,
{
    if 0 < j && crate::text::trimmed_by(None, s[j - 1]) {
        lemma_last_kept(s, j - 1);
    }
}

/// Trimming twice is trimming once.
proof fn lemma_trim_twice(x: Seq<char>)
    ensures
        trim(trim(x, None), None) == trim(x, None),
{
    let t = trim(x, None);
    let a = crate::text::first_kept(x, None, 0);
    crate::text::lemma_first_kept(x, None, 0);
    if a < x.len() {
        let e = crate::text::last_kept_end(x, None, x.len() as int);
        crate::text::lemma_last_kept_end(x, None, x.len() as int, a);
        lemma_last_kept(x, x.len() as int);
        assert(t[0] == x[a]);
        assert(t[t.len() - 1] == x[e - 1]);
        assert(crate::text::first_kept(t, None, 0) == 0);
        assert(crate::text::last_kept_end(t, None, t.len() as int) == t.len());
        assert(trim(t, None) =~= t);
    } else {
        assert(t.len() == 0);
        assert(crate::text::first_kept(t, None, 0) == 0);
    }
}

// ---------------------------------------------------------------------------
// Body scan
// ---------------------------------------------------------------------------

/// Every body check's error is among the error codes referenced, and neither the error
/// codes nor the events emitted list anything twice.
pub open spec fn scan_consistent(st: crate::rust_parser::SpecBodyScan) -> bool {
    &&& forall|i: int| 0 <= i < st.body_checks.len() ==> st.error_codes_referenced.contains(#[trigger] st.body_checks[i].error)
    &&& lines_distinct(st.error_codes_referenced)
    &&& lines_distinct(st.events_emitted)
}

proof fn lemma_push_unique_keeps(s: Seq<Seq<char>>, x: Seq<char>)
    requires
        lines_distinct(s),
    ensures
        lines_distinct(crate::rust_parser::push_unique(s, x)),
        crate::rust_parser::push_unique(s, x).contains(x),
        forall|y| s.contains(y) ==> #[trigger] crate::rust_parser::push_unique(s, x).contains(y),
{
    let r = crate::rust_parser::push_unique(s, x);
    if !s.contains(x) {
        assert(r[s.len() as int] == x);
        assert forall|y| s.contains(y) implies #[trigger] r.contains(y) by {
            let i = choose|i: int| 0 <= i < s.len() && s[i] == y;
            assert(r[i] == y);
        }
    }
}

proof fn lemma_scan_event(st: crate::rust_parser::SpecBodyScan, ev: crate::syntax::BodyEvent)
    requires
        scan_consistent(st),
    ensures
        scan_consistent(crate::rust_parser::scan_event(st, ev)),
{
    let r = crate::rust_parser::scan_event(st, ev);
    match ev {
        crate::syntax::BodyEvent::Macro { name, tokens, first_token } => {
            lemma_push_unique_keeps(st.events_emitted, seq![]);
            if r.body_checks.len() > st.body_checks.len() {
                let err = r.body_checks.last().error;
                lemma_push_unique_keeps(st.error_codes_referenced, err);
                assert forall|i: int| 0 <= i < r.body_checks.len() implies r.error_codes_referenced.contains(
                    #[trigger] r.body_checks[i].error) by {
                    if i < st.body_checks.len() {
                        assert(r.body_checks[i] == st.body_checks[i]);
                        assert(st.error_codes_referenced.contains(st.body_checks[i].error));
                    }
                }
            } else {
                match first_token {
                    Some(ev) => lemma_push_unique_keeps(st.events_emitted, ev@),
                    None => {},
                }
            }
        },
        _ => {},
    }
}

/// Scanning a handler body records the error of every body check among the error codes it
/// references, and lists no error code and no emitted event twice.
pub proof fn law_scan_consistent(evs: Seq<crate::syntax::BodyEvent>)
    ensures
        scan_consistent(crate::rust_parser::scan_events(evs)),
    decreases evs.len(),
{
    if evs.len() > 0 {
        law_scan_consistent(evs.drop_last());
        lemma_scan_event(crate::rust_parser::scan_events(evs.drop_last()), evs.last());
    }
}
} // verus!
