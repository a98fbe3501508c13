//! The program-wide summary drawn from the facts.
use vstd::prelude::*;

use crate::rust_parser::push_unique;
use crate::seqs::push_dv;
use crate::text::{
    concat2, concat3, concat4, contains, decimal, join, join_strings, owned, replace, str_contains, str_eq,
    str_replace, strings_contain,
};
use crate::types::{
    CpiCall, FactInstruction, Facts, InstructionAccount, SetAuthorityCall, SolFlow, SpecCpiCall,
    SpecFactInstruction, SpecInstructionAccount, SpecSetAuthorityCall, SpecSolFlow, SpecStateMutation,
    SpecSummary, SpecSummaryAuthorityRevocation, SpecSummarySolFlow, SpecSummaryStateMutation,
    SpecSummaryTokenFlow, SpecTokenFlow, StateMutation, Summary, SummaryAuthorityRevocation,
    SummarySolFlow, SummaryStateMutation, SummaryTokenFlow, TokenFlow,
};

verus! {

/// The position of the first key `k` in `keys` at or after `i`.
pub open spec fn key_index_from(keys: Seq<Seq<char>>, k: Seq<char>, i: int) -> Option<int>
    decreases keys.len() - i,
{
    if i < 0 || i >= keys.len() {
        None
    } else if keys[i] == k {
        Some(i)
    } else {
        key_index_from(keys, k, i + 1)
    }
}

/// The position of key `k` in `keys`.
pub open spec fn key_index(keys: Seq<Seq<char>>, k: Seq<char>) -> Option<int> {
    key_index_from(keys, k, 0)
}

/// What the summary collects while it walks the instructions. Each aggregated list comes
/// with the keys of its entries, in the order the entries were first made.
pub struct SpecSummaryState {
    pub call_surface: Seq<Seq<char>>,
    pub authority_map: Seq<Seq<char>>,
    pub pda_map: Seq<Seq<char>>,
    pub token_flows: Seq<Seq<char>>,
    pub sol_keys: Seq<Seq<char>>,
    pub sol: Seq<SpecSummarySolFlow>,
    pub token_keys: Seq<Seq<char>>,
    pub tokens: Seq<SpecSummaryTokenFlow>,
    pub auth_keys: Seq<Seq<char>>,
    pub auths: Seq<SpecSummaryAuthorityRevocation>,
    pub state_keys: Seq<Seq<char>>,
    pub states: Seq<SpecSummaryStateMutation>,
}

/// The state before any instruction.
pub open spec fn empty_state() -> SpecSummaryState {
    SpecSummaryState {
        call_surface: seq![],
        authority_map: seq![],
        pda_map: seq![],
        token_flows: seq![],
        sol_keys: seq![],
        sol: seq![],
        token_keys: seq![],
        tokens: seq![],
        auth_keys: seq![],
        auths: seq![],
        state_keys: seq![],
        states: seq![],
    }
}

/// A constraint text with line breaks made spaces and then double spaces made single.
pub open spec fn cleaned_constraint(c: Seq<char>) -> Seq<char> {
    replace(replace(c, "\n"@, " "@), "  "@, " "@)
}

/// The PDA entries that the constraints `cs` of account `acc` of instruction `ix` add: one per
/// constraint with `seeds` whose cleaned text is not yet in the map.
pub open spec fn pda_step(map: Seq<Seq<char>>, ix: Seq<char>, acc: Seq<char>, cs: Seq<Seq<char>>) -> Seq<Seq<char>>
    decreases cs.len(),
{
    if cs.len() == 0 {
        map
    } else {
        let prev = pda_step(map, ix, acc, cs.drop_last());
        let c = cs.last();
        if contains(c, "seeds"@) && !prev.contains(cleaned_constraint(c)) {
            prev.push("PDA on "@ + acc + " ("@ + ix + "): "@ + cleaned_constraint(c))
        } else {
            prev
        }
    }
}

/// What one account of instruction `ix` adds: a signer whose name is not yet in the authority
/// map adds `name (in ix)`; its seed constraints add PDA entries.
pub open spec fn account_step(st: SpecSummaryState, ix: Seq<char>, acc: SpecInstructionAccount) -> SpecSummaryState {
    let auth = if acc.is_signer && !st.authority_map.contains(acc.name) {
        st.authority_map.push(acc.name + " (in "@ + ix + ")"@)
    } else {
        st.authority_map
    };
    SpecSummaryState { authority_map: auth, pda_map: pda_step(st.pda_map, ix, acc.name, acc.constraints), ..st }
}

/// The accounts of `ix` walked in order.
pub open spec fn accounts_step(st: SpecSummaryState, ix: Seq<char>, accs: Seq<SpecInstructionAccount>) -> SpecSummaryState
    decreases accs.len(),
{
    if accs.len() == 0 {
        st
    } else {
        account_step(accounts_step(st, ix, accs.drop_last()), ix, accs.last())
    }
}

/// The description of an account on the call surface: its name with its `Mut` and `Signer`
/// labels in brackets.
pub open spec fn account_desc(acc: SpecInstructionAccount) -> Seq<char> {
    let labels = (if acc.is_mut { seq!["Mut"@] } else { seq![] }) + (if acc.is_signer { seq!["Signer"@] } else { seq![] });
    if labels.len() == 0 {
        acc.name
    } else {
        acc.name + " ["@ + join(labels, ", "@) + "]"@
    }
}

/// The call-surface line of an instruction.
pub open spec fn call_surface_line(ix: SpecFactInstruction) -> Seq<char> {
    let descs = ix.accounts.map_values(|a: SpecInstructionAccount| account_desc(a));
    "* "@ + ix.name + ": "@ + if descs.len() == 0 { "No accounts parsed"@ } else { join(descs, " | "@) }
}

/// The `ix calls target::instruction` lines of the CPIs `cs`, each once.
pub open spec fn cpi_lines_step(lines: Seq<Seq<char>>, ix: Seq<char>, cs: Seq<SpecCpiCall>) -> Seq<Seq<char>>
    decreases cs.len(),
{
    if cs.len() == 0 {
        lines
    } else {
        push_unique(cpi_lines_step(lines, ix, cs.drop_last()), ix + " calls "@ + cs.last().target + "::"@ + cs.last().instruction)
    }
}

/// The key of a SOL flow.
pub open spec fn sol_key(f: SpecSolFlow) -> Seq<char> {
    f.from + "->"@ + f.to + " via "@ + f.method
}

/// One SOL flow of instruction `ix` added to the SOL summary.
pub open spec fn sol_step(keys: Seq<Seq<char>>, es: Seq<SpecSummarySolFlow>, ix: Seq<char>, f: SpecSolFlow) -> (Seq<Seq<char>>, Seq<SpecSummarySolFlow>) {
    match key_index(keys, sol_key(f)) {
        Some(i) => (keys, es.update(i, SpecSummarySolFlow { instructions: push_unique(es[i].instructions, ix), ..es[i] })),
        None => (keys.push(sol_key(f)), es.push(SpecSummarySolFlow { from: f.from, to: f.to, via: f.method, instructions: seq![ix] })),
    }
}

/// The SOL flows `fs` of `ix` added in order.
pub open spec fn sols_step(keys: Seq<Seq<char>>, es: Seq<SpecSummarySolFlow>, ix: Seq<char>, fs: Seq<SpecSolFlow>) -> (Seq<Seq<char>>, Seq<SpecSummarySolFlow>)
    decreases fs.len(),
{
    if fs.len() == 0 {
        (keys, es)
    } else {
        let prev = sols_step(keys, es, ix, fs.drop_last());
        sol_step(prev.0, prev.1, ix, fs.last())
    }
}

/// The key of a token flow.
pub open spec fn token_key(f: SpecTokenFlow) -> Seq<char> {
    f.from + "->"@ + f.to + " via "@ + f.cpi_method
}

/// One token flow of instruction `ix` added to the token summary.
pub open spec fn token_step(keys: Seq<Seq<char>>, es: Seq<SpecSummaryTokenFlow>, ix: Seq<char>, f: SpecTokenFlow) -> (Seq<Seq<char>>, Seq<SpecSummaryTokenFlow>) {
    match key_index(keys, token_key(f)) {
        Some(i) => (keys, es.update(i, SpecSummaryTokenFlow { instructions: push_unique(es[i].instructions, ix), ..es[i] })),
        None => (keys.push(token_key(f)), es.push(SpecSummaryTokenFlow { from: f.from, to: f.to, via: f.cpi_method, instructions: seq![ix] })),
    }
}

/// The token flows `fs` of `ix` added in order.
pub open spec fn tokens_step(keys: Seq<Seq<char>>, es: Seq<SpecSummaryTokenFlow>, ix: Seq<char>, fs: Seq<SpecTokenFlow>) -> (Seq<Seq<char>>, Seq<SpecSummaryTokenFlow>)
    decreases fs.len(),
{
    if fs.len() == 0 {
        (keys, es)
    } else {
        let prev = tokens_step(keys, es, ix, fs.drop_last());
        token_step(prev.0, prev.1, ix, fs.last())
    }
}

/// A `set_authority` call that revokes (new authority `None`).
pub open spec fn revokes(a: SpecSetAuthorityCall) -> bool {
    a.new_authority == "None"@ || a.new_authority == "none"@
}

/// The key of an authority revocation.
pub open spec fn auth_key(a: SpecSetAuthorityCall) -> Seq<char> {
    a.account + "-"@ + a.authority_type
}

/// The authority calls `cs` of `ix` added in order: the first revocation of each account and
/// authority type is kept.
pub open spec fn auths_step(keys: Seq<Seq<char>>, es: Seq<SpecSummaryAuthorityRevocation>, ix: Seq<char>, cs: Seq<SpecSetAuthorityCall>) -> (Seq<Seq<char>>, Seq<SpecSummaryAuthorityRevocation>)
    decreases cs.len(),
{
    if cs.len() == 0 {
        (keys, es)
    } else {
        let prev = auths_step(keys, es, ix, cs.drop_last());
        let a = cs.last();
        if revokes(a) && key_index(prev.0, auth_key(a)) is None {
            (prev.0.push(auth_key(a)), prev.1.push(SpecSummaryAuthorityRevocation {
                account: a.account,
                authority_type: a.authority_type,
                revoked_in: ix,
            }))
        } else {
            prev
        }
    }
}

/// One state mutation of instruction `ix` added to the summary of its account.
pub open spec fn state_step(keys: Seq<Seq<char>>, es: Seq<SpecSummaryStateMutation>, ix: Seq<char>, m: SpecStateMutation) -> (Seq<Seq<char>>, Seq<SpecSummaryStateMutation>) {
    match key_index(keys, m.account) {
        Some(i) => (keys, es.update(i, SpecSummaryStateMutation {
            account: es[i].account,
            fields_mutated: push_unique(es[i].fields_mutated, m.field),
            instructions: push_unique(es[i].instructions, ix),
        })),
        None => (keys.push(m.account), es.push(SpecSummaryStateMutation {
            account: m.account,
            fields_mutated: seq![m.field],
            instructions: seq![ix],
        })),
    }
}

/// The state mutations `ms` of `ix` added in order.
pub open spec fn states_step(keys: Seq<Seq<char>>, es: Seq<SpecSummaryStateMutation>, ix: Seq<char>, ms: Seq<SpecStateMutation>) -> (Seq<Seq<char>>, Seq<SpecSummaryStateMutation>)
    decreases ms.len(),
{
    if ms.len() == 0 {
        (keys, es)
    } else {
        let prev = states_step(keys, es, ix, ms.drop_last());
        state_step(prev.0, prev.1, ix, ms.last())
    }
}

/// What one instruction adds to the summary state.
pub open spec fn instruction_step(st: SpecSummaryState, ix: SpecFactInstruction) -> SpecSummaryState {
    let st1 = accounts_step(st, ix.name, ix.accounts);
    let sols = sols_step(st1.sol_keys, st1.sol, ix.name, ix.sol_flows);
    let tokens = tokens_step(st1.token_keys, st1.tokens, ix.name, ix.token_flows);
    let auths = auths_step(st1.auth_keys, st1.auths, ix.name, ix.set_authority_calls);
    let states = states_step(st1.state_keys, st1.states, ix.name, ix.state_mutations);
    SpecSummaryState {
        call_surface: st1.call_surface.push(call_surface_line(ix)),
        token_flows: cpi_lines_step(st1.token_flows, ix.name, ix.cpi_calls),
        sol_keys: sols.0,
        sol: sols.1,
        token_keys: tokens.0,
        tokens: tokens.1,
        auth_keys: auths.0,
        auths: auths.1,
        state_keys: states.0,
        states: states.1,
        ..st1
    }
}

/// The summary state after the instructions `ixs`, in order.
pub open spec fn summary_state(ixs: Seq<SpecFactInstruction>) -> SpecSummaryState
    decreases ixs.len(),
{
    if ixs.len() == 0 {
        empty_state()
    } else {
        instruction_step(summary_state(ixs.drop_last()), ixs.last())
    }
}

/// The top risks: no signer anywhere, and the number of custom errors (or their absence).
pub open spec fn top_risks(authority_map: Seq<Seq<char>>, n_errors: nat) -> Seq<Seq<char>> {
    (if authority_map.len() == 0 {
        seq!["No explicit Signer accounts found in instruction validations!"@]
    } else {
        seq![]
    }) + (if n_errors == 0 {
        seq!["No custom errors defined (Possible logic bugs missing revert conditions)"@]
    } else {
        seq![decimal(n_errors) + " Custom Errors declared"@]
    })
}

/// The summary of the facts. The aggregated flow, revocation and mutation lists hold one entry
/// per key in the order the keys first occur.
pub open spec fn summary_of(f: crate::types::SpecFacts) -> SpecSummary {
    let st = summary_state(f.instructions);
    SpecSummary {
        call_surface: st.call_surface,
        authority_map: st.authority_map,
        pda_map: st.pda_map,
        token_flows: st.token_flows,
        top_risks: top_risks(st.authority_map, f.errors.len()),
        sol_flow_summary: st.sol,
        token_flow_summary: st.tokens,
        authority_revocations: st.auths,
        state_mutation_summary: st.states,
    }
}

} // verus!

verus! {

/// The summary state while the instructions are walked.
pub struct SummaryBuilder {
    pub call_surface: Vec<String>,
    pub authority_map: Vec<String>,
    pub pda_map: Vec<String>,
    pub token_flows: Vec<String>,
    pub sol_keys: Vec<String>,
    pub sol: Vec<SummarySolFlow>,
    pub token_keys: Vec<String>,
    pub tokens: Vec<SummaryTokenFlow>,
    pub auth_keys: Vec<String>,
    pub auths: Vec<SummaryAuthorityRevocation>,
    pub state_keys: Vec<String>,
    pub states: Vec<SummaryStateMutation>,
}

impl View for SummaryBuilder {
    type V = SpecSummaryState;

    open spec fn view(&self) -> SpecSummaryState {
        SpecSummaryState {
            call_surface: self.call_surface.deep_view(),
            authority_map: self.authority_map.deep_view(),
            pda_map: self.pda_map.deep_view(),
            token_flows: self.token_flows.deep_view(),
            sol_keys: self.sol_keys.deep_view(),
            sol: self.sol.deep_view(),
            token_keys: self.token_keys.deep_view(),
            tokens: self.tokens.deep_view(),
            auth_keys: self.auth_keys.deep_view(),
            auths: self.auths.deep_view(),
            state_keys: self.state_keys.deep_view(),
            states: self.states.deep_view(),
        }
    }
}

fn find_key(keys: &Vec<String>, k: &str) -> (r: Option<usize>)
    ensures
        match r {
            Some(i) => i < keys@.len() && key_index(keys.deep_view(), k@) == Some(i as int),
            None => key_index(keys.deep_view(), k@) is None,
        },
{
    let ghost ks = keys.deep_view();
    let mut i: usize = 0;
    while i < keys.len()
        invariant
            i <= keys@.len(),
            ks == keys.deep_view(),
            key_index(ks, k@) == key_index_from(ks, k@, i as int),
        decreases keys.len() - i,
    {
        assert(keys@[i as int]@ == ks[i as int]);
        if str_eq(keys[i].as_str(), k) {
            return Some(i);
        }
        i = i + 1;
    }
    None
}

fn add_pda_entries(map: &mut Vec<String>, ix: &str, acc: &str, cs: &Vec<String>)
    ensures
        final(map).deep_view() == pda_step(old(map).deep_view(), ix@, acc@, cs.deep_view()),
{
    let mut i: usize = 0;
    while i < cs.len()
        invariant
            i <= cs@.len(),
            map.deep_view() == pda_step(old(map).deep_view(), ix@, acc@, cs.deep_view().subrange(0, i as int)),
        decreases cs.len() - i,
    {
        let c = cs[i].as_str();
        proof {
            let s = cs.deep_view().subrange(0, i + 1);
            assert(s.drop_last() =~= cs.deep_view().subrange(0, i as int));
            assert(s.last() == c@);
            reveal_strlit("\n");
            reveal_strlit("  ");
        }
        if str_contains(c, "seeds") {
            let once = str_replace(c, "\n", " ");
            let clean = str_replace(once.as_str(), "  ", " ");
            if !strings_contain(map, clean.as_str()) {
                let head = concat4("PDA on ", acc, " (", ix);
                push_dv(map, concat3(head.as_str(), "): ", clean.as_str()));
            }
        }
        i = i + 1;
    }
    assert(cs.deep_view().subrange(0, i as int) =~= cs.deep_view());
}

fn add_account(b: &mut SummaryBuilder, ix: &str, acc: &InstructionAccount)
    ensures
        final(b)@ == account_step(old(b)@, ix@, acc@),
{
    if acc.is_signer && !strings_contain(&b.authority_map, acc.name.as_str()) {
        push_dv(&mut b.authority_map, concat4(acc.name.as_str(), " (in ", ix, ")"));
    }
    add_pda_entries(&mut b.pda_map, ix, acc.name.as_str(), &acc.constraints);
}

fn describe_account(acc: &InstructionAccount) -> (r: String)
    ensures
        r@ == account_desc(acc@),
{
    let mut labels: Vec<String> = Vec::new();
    if acc.is_mut {
        push_dv(&mut labels, owned("Mut"));
    }
    if acc.is_signer {
        push_dv(&mut labels, owned("Signer"));
    }
    assert(labels.deep_view() =~= (if acc.is_mut { seq!["Mut"@] } else { seq![] }) + (if acc.is_signer {
        seq!["Signer"@]
    } else {
        seq![]
    }));
    if labels.len() == 0 {
        acc.name.clone()
    } else {
        let joined = join_strings(&labels, ", ");
        concat4(acc.name.as_str(), " [", joined.as_str(), "]")
    }
}

fn call_surface_entry(ix: &FactInstruction) -> (r: String)
    ensures
        r@ == call_surface_line(ix@),
{
    let mut descs: Vec<String> = Vec::new();
    let mut i: usize = 0;
    while i < ix.accounts.len()
        invariant
            i <= ix.accounts@.len(),
            descs.deep_view() == ix@.accounts.subrange(0, i as int).map_values(|a: SpecInstructionAccount| account_desc(a)),
        decreases ix.accounts.len() - i,
    {
        push_dv(&mut descs, describe_account(&ix.accounts[i]));
        i = i + 1;
        assert(descs.deep_view() =~= ix@.accounts.subrange(0, i as int).map_values(
            |a: SpecInstructionAccount| account_desc(a),
        ));
    }
    assert(ix@.accounts.subrange(0, i as int) =~= ix@.accounts);
    let accounts_str = if descs.len() == 0 {
        owned("No accounts parsed")
    } else {
        join_strings(&descs, " | ")
    };
    concat4("* ", ix.name.as_str(), ": ", accounts_str.as_str())
}

} // verus!

verus! {

fn add_cpi_lines(lines: &mut Vec<String>, ix: &str, cs: &Vec<CpiCall>)
    ensures
        final(lines).deep_view() == cpi_lines_step(old(lines).deep_view(), ix@, cs.deep_view()),
{
    let mut i: usize = 0;
    while i < cs.len()
        invariant
            i <= cs@.len(),
            lines.deep_view() == cpi_lines_step(old(lines).deep_view(), ix@, cs.deep_view().subrange(0, i as int)),
        decreases cs.len() - i,
    {
        proof {
            let s = cs.deep_view().subrange(0, i + 1);
            assert(s.drop_last() =~= cs.deep_view().subrange(0, i as int));
        }
        let c = &cs[i];
        let head = concat3(ix, " calls ", c.target.as_str());
        let flow = concat3(head.as_str(), "::", c.instruction.as_str());
        crate::rust_parser::push_unique_string(lines, flow);
        i = i + 1;
    }
    assert(cs.deep_view().subrange(0, i as int) =~= cs.deep_view());
}

fn add_sol(keys: &mut Vec<String>, es: &mut Vec<SummarySolFlow>, ix: &String, f: &SolFlow)
    requires
        old(keys).deep_view().len() == old(es).deep_view().len(),
    ensures
        (final(keys).deep_view(), final(es).deep_view()) == sol_step(old(keys).deep_view(), old(es).deep_view(), ix@, f@),
        final(keys).deep_view().len() == final(es).deep_view().len(),
{
    let head = concat3(f.from.as_str(), "->", f.to.as_str());
    let key = concat3(head.as_str(), " via ", f.method.as_str());
    assert(key@ == sol_key(f@));
    match find_key(keys, key.as_str()) {
        Some(i) => {
            let ghost e = es.deep_view();
            let mut entry = es.remove(i);
            crate::rust_parser::push_unique_string(&mut entry.instructions, ix.clone());
            es.insert(i, entry);
            assert(es.deep_view() =~= e.update(i as int, SpecSummarySolFlow {
                instructions: push_unique(e[i as int].instructions, ix@),
                ..e[i as int]
            }));
        },
        None => {
            push_dv(keys, key);
            let mut instructions: Vec<String> = Vec::new();
            push_dv(&mut instructions, ix.clone());
            assert(instructions.deep_view() =~= seq![ix@]);
            push_dv(es, SummarySolFlow { from: f.from.clone(), to: f.to.clone(), via: f.method.clone(), instructions });
        },
    }
}

fn add_token(keys: &mut Vec<String>, es: &mut Vec<SummaryTokenFlow>, ix: &String, f: &TokenFlow)
    requires
        old(keys).deep_view().len() == old(es).deep_view().len(),
    ensures
        (final(keys).deep_view(), final(es).deep_view()) == token_step(old(keys).deep_view(), old(es).deep_view(), ix@, f@),
        final(keys).deep_view().len() == final(es).deep_view().len(),
{
    let head = concat3(f.from.as_str(), "->", f.to.as_str());
    let key = concat3(head.as_str(), " via ", f.cpi_method.as_str());
    assert(key@ == token_key(f@));
    match find_key(keys, key.as_str()) {
        Some(i) => {
            let ghost e = es.deep_view();
            let mut entry = es.remove(i);
            crate::rust_parser::push_unique_string(&mut entry.instructions, ix.clone());
            es.insert(i, entry);
            assert(es.deep_view() =~= e.update(i as int, SpecSummaryTokenFlow {
                instructions: push_unique(e[i as int].instructions, ix@),
                ..e[i as int]
            }));
        },
        None => {
            push_dv(keys, key);
            let mut instructions: Vec<String> = Vec::new();
            push_dv(&mut instructions, ix.clone());
            assert(instructions.deep_view() =~= seq![ix@]);
            push_dv(es, SummaryTokenFlow { from: f.from.clone(), to: f.to.clone(), via: f.cpi_method.clone(), instructions });
        },
    }
}

fn add_state(keys: &mut Vec<String>, es: &mut Vec<SummaryStateMutation>, ix: &String, m: &StateMutation)
    requires
        old(keys).deep_view().len() == old(es).deep_view().len(),
    ensures
        (final(keys).deep_view(), final(es).deep_view()) == state_step(old(keys).deep_view(), old(es).deep_view(), ix@, m@),
        final(keys).deep_view().len() == final(es).deep_view().len(),
{
    match find_key(keys, m.account.as_str()) {
        Some(i) => {
            let ghost e = es.deep_view();
            crate::rust_parser::push_unique_string(&mut es[i].fields_mutated, m.field.clone());
            let mut entry = es.remove(i);
            crate::rust_parser::push_unique_string(&mut entry.instructions, ix.clone());
            es.insert(i, entry);
            assert(es.deep_view() =~= e.update(i as int, SpecSummaryStateMutation {
                account: e[i as int].account,
                fields_mutated: push_unique(e[i as int].fields_mutated, m@.field),
                instructions: push_unique(e[i as int].instructions, ix@),
            }));
        },
        None => {
            push_dv(keys, m.account.clone());
            let mut fields_mutated: Vec<String> = Vec::new();
            push_dv(&mut fields_mutated, m.field.clone());
            assert(fields_mutated.deep_view() =~= seq![m@.field]);
            let mut instructions: Vec<String> = Vec::new();
            push_dv(&mut instructions, ix.clone());
            assert(instructions.deep_view() =~= seq![ix@]);
            push_dv(es, SummaryStateMutation { account: m.account.clone(), fields_mutated, instructions });
        },
    }
}

/// The keyed lists of the state have as many keys as entries.
pub open spec fn state_wf(st: SpecSummaryState) -> bool {
    &&& st.sol_keys.len() == st.sol.len()
    &&& st.token_keys.len() == st.tokens.len()
    &&& st.auth_keys.len() == st.auths.len()
    &&& st.state_keys.len() == st.states.len()
}

fn add_sols(keys: &mut Vec<String>, es: &mut Vec<SummarySolFlow>, name: &String, fs: &Vec<SolFlow>)
    requires
        old(keys).deep_view().len() == old(es).deep_view().len(),
    ensures
        final(keys).deep_view().len() == final(es).deep_view().len(),
        (final(keys).deep_view(), final(es).deep_view()) == sols_step(old(keys).deep_view(), old(es).deep_view(), name@, fs.deep_view()),
{
    let mut k: usize = 0;
    while k < fs.len()
        invariant
            k <= fs@.len(),
            keys.deep_view().len() == es.deep_view().len(),
            (keys.deep_view(), es.deep_view()) == sols_step(old(keys).deep_view(), old(es).deep_view(), name@,
                fs.deep_view().subrange(0, k as int)),
        decreases fs.len() - k,
    {
        proof {
            let s = fs.deep_view().subrange(0, k + 1);
            assert(s.drop_last() =~= fs.deep_view().subrange(0, k as int));
        }
        add_sol(keys, es, name, &fs[k]);
        k = k + 1;
    }
    assert(fs.deep_view().subrange(0, k as int) =~= fs.deep_view());
}

fn add_tokens(keys: &mut Vec<String>, es: &mut Vec<SummaryTokenFlow>, name: &String, fs: &Vec<TokenFlow>)
    requires
        old(keys).deep_view().len() == old(es).deep_view().len(),
    ensures
        final(keys).deep_view().len() == final(es).deep_view().len(),
        (final(keys).deep_view(), final(es).deep_view()) == tokens_step(old(keys).deep_view(), old(es).deep_view(), name@, fs.deep_view()),
{
    let mut k: usize = 0;
    while k < fs.len()
        invariant
            k <= fs@.len(),
            keys.deep_view().len() == es.deep_view().len(),
            (keys.deep_view(), es.deep_view()) == tokens_step(old(keys).deep_view(), old(es).deep_view(), name@,
                fs.deep_view().subrange(0, k as int)),
        decreases fs.len() - k,
    {
        proof {
            let s = fs.deep_view().subrange(0, k + 1);
            assert(s.drop_last() =~= fs.deep_view().subrange(0, k as int));
        }
        add_token(keys, es, name, &fs[k]);
        k = k + 1;
    }
    assert(fs.deep_view().subrange(0, k as int) =~= fs.deep_view());
}

fn add_auths(keys: &mut Vec<String>, es: &mut Vec<SummaryAuthorityRevocation>, name: &String, cs: &Vec<SetAuthorityCall>)
    requires
        old(keys).deep_view().len() == old(es).deep_view().len(),
    ensures
        final(keys).deep_view().len() == final(es).deep_view().len(),
        (final(keys).deep_view(), final(es).deep_view()) == auths_step(old(keys).deep_view(), old(es).deep_view(), name@, cs.deep_view()),
{
    let mut k: usize = 0;
    while k < cs.len()
        invariant
            k <= cs@.len(),
            keys.deep_view().len() == es.deep_view().len(),
            (keys.deep_view(), es.deep_view()) == auths_step(old(keys).deep_view(), old(es).deep_view(), name@,
                cs.deep_view().subrange(0, k as int)),
        decreases cs.len() - k,
    {
        proof {
            let s = cs.deep_view().subrange(0, k + 1);
            assert(s.drop_last() =~= cs.deep_view().subrange(0, k as int));
        }
        let a = &cs[k];
        if str_eq(a.new_authority.as_str(), "None") || str_eq(a.new_authority.as_str(), "none") {
            let key = concat3(a.account.as_str(), "-", a.authority_type.as_str());
            if find_key(keys, key.as_str()).is_none() {
                push_dv(keys, key);
                push_dv(es, SummaryAuthorityRevocation {
                    account: a.account.clone(),
                    authority_type: a.authority_type.clone(),
                    revoked_in: name.clone(),
                });
            }
        }
        k = k + 1;
    }
    assert(cs.deep_view().subrange(0, k as int) =~= cs.deep_view());
}

fn add_states(keys: &mut Vec<String>, es: &mut Vec<SummaryStateMutation>, name: &String, ms: &Vec<StateMutation>)
    requires
        old(keys).deep_view().len() == old(es).deep_view().len(),
    ensures
        final(keys).deep_view().len() == final(es).deep_view().len(),
        (final(keys).deep_view(), final(es).deep_view()) == states_step(old(keys).deep_view(), old(es).deep_view(), name@, ms.deep_view()),
{
    let mut k: usize = 0;
    while k < ms.len()
        invariant
            k <= ms@.len(),
            keys.deep_view().len() == es.deep_view().len(),
            (keys.deep_view(), es.deep_view()) == states_step(old(keys).deep_view(), old(es).deep_view(), name@,
                ms.deep_view().subrange(0, k as int)),
        decreases ms.len() - k,
    {
        proof {
            let s = ms.deep_view().subrange(0, k + 1);
            assert(s.drop_last() =~= ms.deep_view().subrange(0, k as int));
        }
        add_state(keys, es, name, &ms[k]);
        k = k + 1;
    }
    assert(ms.deep_view().subrange(0, k as int) =~= ms.deep_view());
}

fn add_accounts(b: &mut SummaryBuilder, name: &str, accs: &Vec<InstructionAccount>)
    ensures
        final(b)@ == accounts_step(old(b)@, name@, accs.deep_view()),
{
    let mut i: usize = 0;
    while i < accs.len()
        invariant
            i <= accs@.len(),
            b@ == accounts_step(old(b)@, name@, accs.deep_view().subrange(0, i as int)),
        decreases accs.len() - i,
    {
        proof {
            let s = accs.deep_view().subrange(0, i + 1);
            assert(s.drop_last() =~= accs.deep_view().subrange(0, i as int));
        }
        add_account(b, name, &accs[i]);
        i = i + 1;
    }
    assert(accs.deep_view().subrange(0, i as int) =~= accs.deep_view());
}

/// Walking accounts touches only the authority and PDA maps.
pub proof fn lemma_accounts_step_frame(st: SpecSummaryState, ix: Seq<char>, accs: Seq<SpecInstructionAccount>)
    ensures
        accounts_step(st, ix, accs) == (SpecSummaryState {
            authority_map: accounts_step(st, ix, accs).authority_map,
            pda_map: accounts_step(st, ix, accs).pda_map,
            ..st
        }),
    decreases accs.len(),
{
    if accs.len() > 0 {
        lemma_accounts_step_frame(st, ix, accs.drop_last());
    }
}

fn add_instruction(b: &mut SummaryBuilder, ix: &FactInstruction)
    requires
        state_wf(old(b)@),
    ensures
        state_wf(final(b)@),
        final(b)@ == instruction_step(old(b)@, ix@),
{
    let name = &ix.name;
    add_accounts(b, name.as_str(), &ix.accounts);
    proof {
        lemma_accounts_step_frame(old(b)@, name@, ix@.accounts);
    }
    push_dv(&mut b.call_surface, call_surface_entry(ix));
    add_cpi_lines(&mut b.token_flows, name.as_str(), &ix.cpi_calls);
    add_sols(&mut b.sol_keys, &mut b.sol, name, &ix.sol_flows);
    add_tokens(&mut b.token_keys, &mut b.tokens, name, &ix.token_flows);
    add_auths(&mut b.auth_keys, &mut b.auths, name, &ix.set_authority_calls);
    add_states(&mut b.state_keys, &mut b.states, name, &ix.state_mutations);
}

/// Summarises the facts (see [`summary_of`]): the call surface of each instruction, signer
/// and PDA maps, the CPI lines, SOL and token flows and state mutations aggregated by key,
/// the first revocation of each authority, and the top risks.
pub fn generate_summary(facts: &Facts) -> (r: Summary)
    ensures
        r@ == summary_of(facts@),
{
    let mut b = SummaryBuilder {
        call_surface: Vec::new(),
        authority_map: Vec::new(),
        pda_map: Vec::new(),
        token_flows: Vec::new(),
        sol_keys: Vec::new(),
        sol: Vec::new(),
        token_keys: Vec::new(),
        tokens: Vec::new(),
        auth_keys: Vec::new(),
        auths: Vec::new(),
        state_keys: Vec::new(),
        states: Vec::new(),
    };
    assert(b@ =~= empty_state()) by {
        assert(b@.call_surface =~= seq![]);
        assert(b@.authority_map =~= seq![]);
        assert(b@.pda_map =~= seq![]);
        assert(b@.token_flows =~= seq![]);
        assert(b@.sol_keys =~= seq![]);
        assert(b@.sol =~= seq![]);
        assert(b@.token_keys =~= seq![]);
        assert(b@.tokens =~= seq![]);
        assert(b@.auth_keys =~= seq![]);
        assert(b@.auths =~= seq![]);
        assert(b@.state_keys =~= seq![]);
        assert(b@.states =~= seq![]);
    }
    let mut i: usize = 0;
    while i < facts.instructions.len()
        invariant
            i <= facts.instructions@.len(),
            b@ == summary_state(facts@.instructions.subrange(0, i as int)),
            state_wf(b@),
        decreases facts.instructions.len() - i,
    {
        proof {
            let s = facts@.instructions.subrange(0, i + 1);
            assert(s.drop_last() =~= facts@.instructions.subrange(0, i as int));
        }
        add_instruction(&mut b, &facts.instructions[i]);
        i = i + 1;
    }
    assert(facts@.instructions.subrange(0, i as int) =~= facts@.instructions);
    let mut top: Vec<String> = Vec::new();
    if b.authority_map.len() == 0 {
        push_dv(&mut top, owned("No explicit Signer accounts found in instruction validations!"));
    }
    if facts.errors.len() == 0 {
        push_dv(&mut top, owned("No custom errors defined (Possible logic bugs missing revert conditions)"));
    } else {
        let digits = crate::text::decimal_chars(facts.errors.len());
        let number = crate::std_text::string_from_chars(&digits);
        push_dv(&mut top, concat2(number.as_str(), " Custom Errors declared"));
    }
    assert(top.deep_view() =~= top_risks(b@.authority_map, facts@.errors.len()));
    Summary {
        call_surface: b.call_surface,
        authority_map: b.authority_map,
        pda_map: b.pda_map,
        token_flows: b.token_flows,
        top_risks: top,
        sol_flow_summary: b.sol,
        token_flow_summary: b.tokens,
        authority_revocations: b.auths,
        state_mutation_summary: b.states,
    }
}

} // verus!
