//! Execution flow of a handler body: the steps in order, SOL and token movements,
//! assignments to account fields, authority changes and CPI calls.
use vstd::prelude::*;

use crate::seqs::push_dv;
use crate::syntax::{CallExpr, Expr, InitExpr, MethodCallExpr, Stmt};
use crate::text::{
    chars_of, concat2, concat3, contains, copy_opt, ends_with, find, owned, replace, rfind_char,
    rfind_char_exec, split, char_len, split_exec, starts_with, str_contains, str_eq, str_find, str_replace,
    str_slice, str_split, str_starts_with, str_trim, trim,
};
use crate::types::{
    CpiCall, ExecutionStep, PartialLamportFlow, SetAuthorityCall, SolFlow, SpecCpiCall,
    SpecExecutionStep, SpecPartialLamportFlow, SpecSetAuthorityCall, SpecSolFlow,
    SpecStateMutation, SpecTokenFlow, StateMutation, StepKind, TokenFlow,
};

verus! {

// ---------------------------------------------------------------------------
// Text rules
// ---------------------------------------------------------------------------

/// The index of the first `accounts` piece at or after `i` that has a piece after it.
pub open spec fn accounts_piece_from(parts: Seq<Seq<char>>, i: int) -> Option<int>
    decreases parts.len() - i,
{
    if i < 0 || i >= parts.len() {
        None
    } else if parts[i] == "accounts"@ && i + 1 < parts.len() {
        Some(i)
    } else {
        accounts_piece_from(parts, i + 1)
    }
}

/// The account and field that an assignment target `a.b. ... .f` names: the field is the
/// last piece, the account the piece after the first `accounts` piece, or else the piece
/// before the field. `None` without a dot.
pub open spec fn spec_split_field_access(lhs: Seq<char>) -> Option<(Seq<char>, Seq<char>)> {
    let parts = split(lhs, "."@);
    if parts.len() >= 2 {
        let account = match accounts_piece_from(parts, 0) {
            Some(i) => parts[i + 1],
            None => parts[parts.len() - 2],
        };
        Some((account, parts.last()))
    } else {
        None
    }
}

/// Splits an assignment target into account and field (see [`spec_split_field_access`]).
pub fn split_field_access(lhs: &str) -> (r: Option<(String, String)>)
    ensures
        match r {
            Some((a, f)) => spec_split_field_access(lhs@) == Some((a@, f@)),
            None => spec_split_field_access(lhs@) is None,
        },
{
    proof {
        reveal_strlit(".");
    }
    let parts = str_split(lhs, ".");
    let ghost ps = split(lhs@, "."@);
    assert(parts.deep_view() == ps);
    let n = parts.len();
    if n >= 2 {
        assert(parts@[n - 1]@ == ps[n - 1]);
        let field = parts[n - 1].clone();
        let mut account = parts[n - 2].clone();
        assert(parts@[n - 2]@ == ps[n - 2]);
        let mut i: usize = 0;
        while i < n
            invariant
                n == parts@.len(),
                ps == parts.deep_view(),
                i <= n,
                n >= 2,
                ps == split(lhs@, "."@),
                accounts_piece_from(ps, 0) == accounts_piece_from(ps, i as int),
                account@ == ps[n - 2],
                field@ == ps[n - 1],
            decreases n - i,
        {
            assert(parts@[i as int]@ == ps[i as int]);
            if str_eq(parts[i].as_str(), "accounts") && i + 1 < n {
                assert(parts@[i + 1]@ == ps[i + 1]);
                let acc = parts[i + 1].clone();
                return Some((acc, field));
            }
            i = i + 1;
        }
        Some((account, field))
    } else {
        None
    }
}

/// The arithmetic style that the right side of an assignment shows.
pub open spec fn spec_operation_style(rhs: Seq<char>) -> Seq<char> {
    if contains(rhs, "checked_add"@) {
        "checked_add"@
    } else if contains(rhs, "checked_sub"@) {
        "checked_sub"@
    } else if contains(rhs, "checked_mul"@) {
        "checked_mul"@
    } else if contains(rhs, "checked_div"@) {
        "checked_div"@
    } else if contains(rhs, "saturating_add"@) {
        "saturating_add"@
    } else if contains(rhs, "saturating_sub"@) {
        "saturating_sub"@
    } else {
        "assign"@
    }
}

/// Names the arithmetic style of the right side of an assignment.
pub fn detect_operation_style(rhs: &str) -> (r: String)
    ensures
        r@ == spec_operation_style(rhs@),
{
    if str_contains(rhs, "checked_add") {
        return owned("checked_add");
    }
    if str_contains(rhs, "checked_sub") {
        return owned("checked_sub");
    }
    if str_contains(rhs, "checked_mul") {
        return owned("checked_mul");
    }
    if str_contains(rhs, "checked_div") {
        return owned("checked_div");
    }
    if str_contains(rhs, "saturating_add") {
        return owned("saturating_add");
    }
    if str_contains(rhs, "saturating_sub") {
        return owned("saturating_sub");
    }
    owned("assign")
}

/// The methods that mark a CPI.
pub open spec fn spec_is_cpi_method(m: Seq<char>) -> bool {
    m == "transfer"@ || m == "transfer_checked"@ || m == "mint_to"@ || m == "burn"@ || m == "invoke"@
        || m == "invoke_signed"@
}

/// Whether a method name marks a CPI.
pub fn is_cpi_method(method: &str) -> (r: bool)
    ensures
        r == spec_is_cpi_method(method@),
{
    str_eq(method, "transfer") || str_eq(method, "transfer_checked") || str_eq(method, "mint_to")
        || str_eq(method, "burn") || str_eq(method, "invoke") || str_eq(method, "invoke_signed")
}

/// The text fragments of a called function that mark a CPI.
pub open spec fn spec_is_cpi_function(f: Seq<char>) -> bool {
    contains(f, "token::"@) || contains(f, "system_program::"@) || contains(f, "invoke"@) || contains(
        f,
        "transfer_checked"@,
    ) || contains(f, "mint_to"@)
}

/// Whether the text of a called function marks a CPI.
pub fn is_cpi_function(func: &str) -> (r: bool)
    ensures
        r == spec_is_cpi_function(func@),
{
    str_contains(func, "token::") || str_contains(func, "system_program::") || str_contains(func, "invoke")
        || str_contains(func, "transfer_checked") || str_contains(func, "mint_to")
}

/// The token CPI methods.
pub open spec fn spec_is_token_cpi(m: Seq<char>) -> bool {
    m == "transfer"@ || m == "transfer_checked"@ || m == "mint_to"@ || m == "burn"@
}

/// Whether a method is a token CPI.
pub fn is_token_cpi(method: &str) -> (r: bool)
    ensures
        r == spec_is_token_cpi(method@),
{
    str_eq(method, "transfer") || str_eq(method, "transfer_checked") || str_eq(method, "mint_to") || str_eq(
        method,
        "burn",
    )
}

/// The last `::`-separated piece of a path text.
pub open spec fn spec_cpi_method_name(f: Seq<char>) -> Seq<char> {
    split(f, "::"@).last()
}

/// Takes the method name of a CPI path: the part after the last `::`.
pub fn extract_cpi_method_name(func: &str) -> (r: String)
    ensures
        r@ == spec_cpi_method_name(func@),
{
    proof {
        reveal_strlit("::");
        lemma_split_nonempty(func@, "::"@);
    }
    let parts = str_split(func, "::");
    let n = parts.len();
    assert(parts@[n - 1]@ == parts.deep_view()[n - 1]);
    parts[n - 1].clone()
}

/// The program of a CPI path: the part before the first `::`, or `unknown` without one.
pub open spec fn spec_cpi_program(f: Seq<char>) -> Seq<char> {
    let parts = split(f, "::"@);
    if parts.len() > 1 {
        parts[0]
    } else {
        "unknown"@
    }
}

/// Takes the program of a CPI path.
pub fn extract_cpi_program(func: &str) -> (r: String)
    ensures
        r@ == spec_cpi_program(func@),
{
    proof {
        reveal_strlit("::");
    }
    let parts = str_split(func, "::");
    if parts.len() > 1 {
        assert(parts@[0]@ == parts.deep_view()[0]);
        parts[0].clone()
    } else {
        owned("unknown")
    }
}

/// The signer seeds of a CPI context built with `new_with_signer`: the trimmed text between
/// its last `,` and its last `)`.
pub open spec fn spec_signer_seeds(ctx: Seq<char>) -> Option<Seq<char>> {
    if contains(ctx, "new_with_signer"@) {
        match (rfind_char(ctx, ','), rfind_char(ctx, ')')) {
            (Some(s), Some(e)) => if s < e {
                Some(trim(ctx.subrange(s + 1, e), None))
            } else {
                None
            },
            _ => None,
        }
    } else {
        None
    }
}

/// Takes the signer seeds of a CPI context.
pub fn extract_signer_seeds(ctx: &str) -> (r: Option<String>)
    ensures
        r.deep_view() == spec_signer_seeds(ctx@),
{
    if str_contains(ctx, "new_with_signer") {
        let cv = chars_of(ctx);
        let start = rfind_char_exec(&cv, ',');
        let end = rfind_char_exec(&cv, ')');
        match (start, end) {
            (Some(s), Some(e)) => {
                if s < e {
                    proof {
                        lemma_rfind_char(ctx@, ')');
                    }
                    let inner = str_slice(ctx, s + 1, e);
                    return Some(str_trim(inner.as_str(), None));
                }
            },
            _ => {},
        }
    }
    None
}

/// The last `.`-separated piece of an account expression after removing
/// `.to_account_info()`.
pub open spec fn spec_clean_account_name(raw: Seq<char>) -> Seq<char> {
    split(replace(raw, ".to_account_info()"@, seq![]), "."@).last()
}

/// Reduces an account expression to the account's name.
pub fn clean_account_name(raw: &str) -> (r: String)
    ensures
        r@ == spec_clean_account_name(raw@),
{
    proof {
        reveal_strlit(".to_account_info()");
        reveal_strlit("");
        reveal_strlit(".");
    }
    let s = str_replace(raw, ".to_account_info()", "");
    assert(""@ =~= Seq::<char>::empty());
    let parts = str_split(s.as_str(), ".");
    proof {
        lemma_split_nonempty(s@, "."@);
    }
    let n = parts.len();
    assert(parts@[n - 1]@ == parts.deep_view()[n - 1]);
    parts[n - 1].clone()
}

/// The value given to `field` in the text of a struct literal, searched as `field:`; up to the
/// next `,` (or else `}`, or else the end), trimmed and reduced to an account name.
pub open spec fn spec_field_from_struct(s: Seq<char>, field: Seq<char>) -> Option<Seq<char>> {
    let search = field + ":"@;
    match find(s, search) {
        Some(idx) => {
            let rest = s.subrange(idx + search.len(), s.len() as int);
            let end = match find(rest, ","@) {
                Some(e) => e,
                None => match find(rest, "}"@) {
                    Some(e) => e,
                    None => rest.len() as int,
                },
            };
            Some(spec_clean_account_name(trim(rest.subrange(0, end), None)))
        },
        None => None,
    }
}

/// Takes the value of a field from the text of a struct literal.
pub fn extract_field_from_struct_str(s: &str, field: &str) -> (r: Option<String>)
    ensures
        r.deep_view() == spec_field_from_struct(s@, field@),
{
    let search = concat2(field, ":");
    match str_find(s, search.as_str()) {
        Some(idx) => {
            proof {
                crate::text::lemma_find_from(s@, search@, 0);
            }
            let total = char_len(s);
            let rest = str_slice(s, idx + char_len(search.as_str()), total);
            let end = match str_find(rest.as_str(), ",") {
                Some(e) => e,
                None => match str_find(rest.as_str(), "}") {
                    Some(e) => e,
                    None => char_len(rest.as_str()),
                },
            };
            proof {
                crate::text::lemma_find_from(rest@, ","@, 0);
                crate::text::lemma_find_from(rest@, "}"@, 0);
            }
            let val = str_slice(rest.as_str(), 0, end);
            let trimmed = str_trim(val.as_str(), None);
            Some(clean_account_name(trimmed.as_str()))
        },
        None => None,
    }
}

/// The accounts that a transfer context moves between: `from` and `to` fields of a
/// transfer context, `mint` and `to` for `mint_to`, else not extracted.
pub open spec fn spec_transfer_accounts(ctx: Seq<char>, method: Seq<char>) -> (Seq<char>, Seq<char>) {
    if contains(ctx, "Transfer"@) || contains(ctx, "transfer"@) || contains(ctx, "TransferChecked"@) {
        (
            match spec_field_from_struct(ctx, "from"@) {
                Some(v) => v,
                None => "NOT_EXTRACTED"@,
            },
            match spec_field_from_struct(ctx, "to"@) {
                Some(v) => v,
                None => "NOT_EXTRACTED"@,
            },
        )
    } else if method == "mint_to"@ {
        (
            "mint"@,
            match spec_field_from_struct(ctx, "to"@) {
                Some(v) => v,
                None => "NOT_EXTRACTED"@,
            },
        )
    } else {
        ("NOT_EXTRACTED"@, "NOT_EXTRACTED"@)
    }
}

fn field_or_not_extracted(ctx: &str, field: &str) -> (r: String)
    ensures
        r@ == match spec_field_from_struct(ctx@, field@) {
            Some(v) => v,
            None => "NOT_EXTRACTED"@,
        },
{
    match extract_field_from_struct_str(ctx, field) {
        Some(v) => v,
        None => owned("NOT_EXTRACTED"),
    }
}

/// Takes the source and destination accounts of a transfer context.
pub fn extract_transfer_accounts_from_ctx(ctx: &str, method: &str) -> (r: (String, String))
    ensures
        (r.0@, r.1@) == spec_transfer_accounts(ctx@, method@),
{
    if str_contains(ctx, "Transfer") || str_contains(ctx, "transfer") || str_contains(ctx, "TransferChecked") {
        let from = field_or_not_extracted(ctx, "from");
        let to = field_or_not_extracted(ctx, "to");
        return (from, to);
    }
    if str_eq(method, "mint_to") {
        let to = field_or_not_extracted(ctx, "to");
        return (owned("mint"), to);
    }
    (owned("NOT_EXTRACTED"), owned("NOT_EXTRACTED"))
}

/// The account of a lamport expression: the piece after the first piece that contains
/// `accounts` and has a piece after it.
pub open spec fn lamport_account_from(parts: Seq<Seq<char>>, i: int) -> Option<Seq<char>>
    decreases parts.len() - i,
{
    if i < 0 || i >= parts.len() {
        None
    } else if contains(parts[i], "accounts"@) && i + 1 < parts.len() {
        Some(parts[i + 1])
    } else {
        lamport_account_from(parts, i + 1)
    }
}

/// The account of a lamport expression.
pub open spec fn spec_lamport_account(e: Seq<char>) -> Option<Seq<char>> {
    lamport_account_from(split(e, "."@), 0)
}

/// Takes the account of a lamport expression.
pub fn extract_account_from_lamport_expr(expr: &str) -> (r: Option<String>)
    ensures
        r.deep_view() == spec_lamport_account(expr@),
{
    proof {
        reveal_strlit(".");
    }
    let parts = str_split(expr, ".");
    let ghost ps = parts.deep_view();
    assert(ps == split(expr@, "."@));
    assert(spec_lamport_account(expr@) == lamport_account_from(ps, 0));
    let n = parts.len();
    let mut i: usize = 0;
    while i < n
        invariant
            n == parts@.len(),
            ps == parts.deep_view(),
            i <= n,
            ps == split(expr@, "."@),
            lamport_account_from(ps, 0) == lamport_account_from(ps, i as int),
        decreases n - i,
    {
        assert(parts@[i as int]@ == ps[i as int]);
        if str_contains(parts[i].as_str(), "accounts") && i + 1 < n {
            assert(parts@[i + 1]@ == ps[i + 1]);
            assert(lamport_account_from(ps, i as int) == Some(ps[i + 1]));
            let acc = parts[i + 1].clone();
            assert(Some(acc).deep_view() == Some(ps[i + 1]));
            return Some(acc);
        }
        i = i + 1;
    }
    None
}

/// The amount of a lamport expression: the trimmed text after its first `=`, or the whole text.
pub open spec fn spec_lamport_amount(e: Seq<char>) -> Seq<char> {
    match find(e, "="@) {
        Some(idx) => trim(e.subrange(idx + 1, e.len() as int), None),
        None => e,
    }
}

/// Takes the amount of a lamport expression.
pub fn extract_amount_from_lamport_expr(expr: &str) -> (r: Option<String>)
    ensures
        r.deep_view() == Some(spec_lamport_amount(expr@)),
{
    match str_find(expr, "=") {
        Some(idx) => {
            proof {
                reveal_strlit("=");
                crate::text::lemma_find_from(expr@, "="@, 0);
            }
            let total = char_len(expr);
            let rest = str_slice(expr, idx + 1, total);
            Some(str_trim(rest.as_str(), None))
        },
        None => Some(owned(expr)),
    }
}

/// An authority type without its `AuthorityType::` prefixes.
pub open spec fn spec_clean_authority_type(a: Seq<char>) -> Seq<char> {
    replace(a, "AuthorityType::"@, seq![])
}

/// Strips `AuthorityType::` from an authority type.
pub fn clean_authority_type(auth: &str) -> (r: String)
    ensures
        r@ == spec_clean_authority_type(auth@),
{
    proof {
        reveal_strlit("AuthorityType::");
        reveal_strlit("");
    }
    assert(""@ =~= Seq::<char>::empty());
    str_replace(auth, "AuthorityType::", "")
}

/// The account of a `set_authority` context: its `account_or_mint` field.
pub open spec fn spec_set_authority_account(ctx: Seq<char>) -> Seq<char> {
    match spec_field_from_struct(ctx, "account_or_mint"@) {
        Some(v) => v,
        None => "NOT_EXTRACTED"@,
    }
}

/// Takes the account of a `set_authority` context.
pub fn extract_account_from_set_authority_ctx(ctx: &str) -> (r: String)
    ensures
        r@ == spec_set_authority_account(ctx@),
{
    field_or_not_extracted(ctx, "account_or_mint")
}

/// `split` always yields at least one piece.
pub proof fn lemma_split_nonempty(s: Seq<char>, p: Seq<char>)
    requires
        p.len() > 0,
    ensures
        split(s, p).len() >= 1,
{
    crate::text::lemma_find_from(s, p, 0);
}

/// `rfind_char` finds a position inside the sequence.
pub proof fn lemma_rfind_char(s: Seq<char>, c: char)
    ensures
        rfind_char(s, c) matches Some(i) ==> 0 <= i < s.len() && s[i] == c,
{
    lemma_rfind_below(s, c, s.len() as int);
}

proof fn lemma_rfind_below(s: Seq<char>, c: char, end: int)
    ensures
        rfind_char_below_is_inside(s, c, end),
    decreases end,
{
    if 0 < end <= s.len() && s[end - 1] != c {
        lemma_rfind_below(s, c, end - 1);
    }
}

spec fn rfind_char_below_is_inside(s: Seq<char>, c: char, end: int) -> bool {
    crate::text::rfind_char_below(s, c, end) matches Some(i) ==> 0 <= i < s.len() && s[i] == c
}

} // verus!

verus! {

// ---------------------------------------------------------------------------
// Body facts
// ---------------------------------------------------------------------------

/// What the walk of a handler body collects.
#[derive(Debug, Clone)]
pub struct BodyFacts {
    pub execution_steps: Vec<ExecutionStep>,
    pub sol_flows: Vec<SolFlow>,
    pub token_flows: Vec<TokenFlow>,
    pub state_mutations: Vec<StateMutation>,
    pub set_authority_calls: Vec<SetAuthorityCall>,
    pub cpi_calls: Vec<CpiCall>,
    pub partial_lamport_flows: Vec<PartialLamportFlow>,
}

/// The model of [`BodyFacts`].
pub struct SpecBodyFacts {
    pub execution_steps: Seq<SpecExecutionStep>,
    pub sol_flows: Seq<SpecSolFlow>,
    pub token_flows: Seq<SpecTokenFlow>,
    pub state_mutations: Seq<SpecStateMutation>,
    pub set_authority_calls: Seq<SpecSetAuthorityCall>,
    pub cpi_calls: Seq<SpecCpiCall>,
    pub partial_lamport_flows: Seq<SpecPartialLamportFlow>,
}

impl View for BodyFacts {
    type V = SpecBodyFacts;

    open spec fn view(&self) -> SpecBodyFacts {
        SpecBodyFacts {
            execution_steps: self.execution_steps.deep_view(),
            sol_flows: self.sol_flows.deep_view(),
            token_flows: self.token_flows.deep_view(),
            state_mutations: self.state_mutations.deep_view(),
            set_authority_calls: self.set_authority_calls.deep_view(),
            cpi_calls: self.cpi_calls.deep_view(),
            partial_lamport_flows: self.partial_lamport_flows.deep_view(),
        }
    }
}

/// Body facts with nothing in them.
pub open spec fn empty_body_facts() -> SpecBodyFacts {
    SpecBodyFacts {
        execution_steps: seq![],
        sol_flows: seq![],
        token_flows: seq![],
        state_mutations: seq![],
        set_authority_calls: seq![],
        cpi_calls: seq![],
        partial_lamport_flows: seq![],
    }
}

impl BodyFacts {
    /// Body facts with nothing in them.
    pub fn new() -> (r: BodyFacts)
        ensures
            r@ == empty_body_facts(),
    {
        let r = BodyFacts {
            execution_steps: Vec::new(),
            sol_flows: Vec::new(),
            token_flows: Vec::new(),
            state_mutations: Vec::new(),
            set_authority_calls: Vec::new(),
            cpi_calls: Vec::new(),
            partial_lamport_flows: Vec::new(),
        };
        assert(r@.execution_steps =~= seq![]);
        assert(r@.sol_flows =~= seq![]);
        assert(r@.token_flows =~= seq![]);
        assert(r@.state_mutations =~= seq![]);
        assert(r@.set_authority_calls =~= seq![]);
        assert(r@.cpi_calls =~= seq![]);
        assert(r@.partial_lamport_flows =~= seq![]);
        r
    }
}

/// An execution step in model form.
pub open spec fn step(
    order: int,
    kind: StepKind,
    expression: Seq<char>,
    assigned_to: Option<Seq<char>>,
    source_hint: Option<Seq<char>>,
) -> SpecExecutionStep {
    SpecExecutionStep { order: order as usize, kind, expression, assigned_to, source_hint }
}

/// `f` with one more execution step.
pub open spec fn with_step(f: SpecBodyFacts, s: SpecExecutionStep) -> SpecBodyFacts {
    SpecBodyFacts { execution_steps: f.execution_steps.push(s), ..f }
}

/// The first argument's text, or `NOT_EXTRACTED`.
pub open spec fn arg_or_not_extracted(args: Seq<Seq<char>>, i: int) -> Seq<char> {
    if 0 <= i < args.len() {
        args[i]
    } else {
        "NOT_EXTRACTED"@
    }
}

/// A CPI made by a method call: a token method records a token flow whose accounts are not
/// extracted and whose amount is the first argument.
pub open spec fn cpi_method_call_facts(mc: MethodCallExpr, f: SpecBodyFacts, order: int) -> SpecBodyFacts {
    if spec_is_token_cpi(mc.method@) {
        SpecBodyFacts {
            token_flows: f.token_flows.push(SpecTokenFlow {
                from: "NOT_EXTRACTED"@,
                to: "NOT_EXTRACTED"@,
                amount_expression: arg_or_not_extracted(mc.args.deep_view(), 0),
                cpi_method: mc.method@,
                instruction_order: order as usize,
            }),
            ..f
        }
    } else {
        f
    }
}

/// A CPI made by a function call: a token method records a token flow and a CPI call; a
/// system `transfer` records a SOL flow. The first argument is the context, the second the
/// amount.
pub open spec fn cpi_function_call_facts(call: CallExpr, f: SpecBodyFacts, order: int) -> SpecBodyFacts {
    let func = call.func@;
    let args = call.args.deep_view();
    let method = spec_cpi_method_name(func);
    let ctx = if args.len() > 0 { args[0] } else { seq![] };
    let amount = arg_or_not_extracted(args, 1);
    let accounts = spec_transfer_accounts(ctx, method);
    let f1 = if spec_is_token_cpi(method) {
        SpecBodyFacts {
            token_flows: f.token_flows.push(SpecTokenFlow {
                from: accounts.0,
                to: accounts.1,
                amount_expression: amount,
                cpi_method: method,
                instruction_order: order as usize,
            }),
            cpi_calls: f.cpi_calls.push(SpecCpiCall {
                target: spec_cpi_program(func),
                instruction: method,
                from_account: Some(accounts.0),
                to_account: Some(accounts.1),
                signer_seeds: spec_signer_seeds(ctx),
                nesting_depth: Some("function_body"@),
                instruction_name: None,
            }),
            ..f
        }
    } else {
        f
    };
    if method == "transfer"@ && contains(func, "system"@) {
        SpecBodyFacts {
            sol_flows: f1.sol_flows.push(SpecSolFlow {
                from: accounts.0,
                to: accounts.1,
                amount_expression: amount,
                method: "system_transfer"@,
                instruction_order: order as usize,
            }),
            ..f1
        }
    } else {
        f1
    }
}

/// The direction of a lamport assignment.
pub open spec fn lamport_direction(lhs: Seq<char>, rhs: Seq<char>) -> Seq<char> {
    let is_decrease = contains(rhs, "-="@) || contains(lhs, "-="@);
    let is_increase = contains(rhs, "+="@) || contains(lhs, "+"@);
    let is_dec_op = starts_with(trim(rhs, None), "-="@) || contains(rhs, "checked_sub"@);
    let is_inc_op = starts_with(trim(rhs, None), "+="@) || contains(rhs, "checked_add"@);
    if is_decrease || is_dec_op {
        "out"@
    } else if is_increase || is_inc_op {
        "in"@
    } else {
        "unknown"@
    }
}

/// A lamport assignment records one side of a SOL move.
pub open spec fn lamport_flow_facts(lhs: Seq<char>, rhs: Seq<char>, f: SpecBodyFacts, order: int) -> SpecBodyFacts {
    SpecBodyFacts {
        partial_lamport_flows: f.partial_lamport_flows.push(SpecPartialLamportFlow {
            account: match spec_lamport_account(lhs) {
                Some(a) => a,
                None => "UNKNOWN"@,
            },
            direction: lamport_direction(lhs, rhs),
            amount_expression: spec_lamport_amount(rhs),
            instruction_order: order as usize,
        }),
        ..f
    }
}

/// A `set_authority` call records the call, and a step when the new authority is `None`.
pub open spec fn set_authority_facts(call: CallExpr, f: SpecBodyFacts, order: int) -> SpecBodyFacts {
    let args = call.args.deep_view();
    let authority_type = if args.len() > 1 { spec_clean_authority_type(args[1]) } else { "UNKNOWN"@ };
    let new_authority = if args.len() > 2 { trim(args[2], None) } else { "UNKNOWN"@ };
    let account = if args.len() > 0 { spec_set_authority_account(args[0]) } else { "NOT_EXTRACTED"@ };
    let f1 = SpecBodyFacts {
        set_authority_calls: f.set_authority_calls.push(SpecSetAuthorityCall {
            account,
            authority_type,
            new_authority,
            instruction_order: order as usize,
        }),
        ..f
    };
    if trim(new_authority, None) == "None"@ || trim(new_authority, None) == "none"@ {
        with_step(f1, step(order, StepKind::SetAuthority,
            "set_authority("@ + authority_type + ", None) — AUTHORITY REVOKED"@, None,
            Some("Mint authority permanently revoked after this point"@)))
    } else {
        f1
    }
}

/// The text fragments of a `let` initialiser that mark a CPI.
pub open spec fn init_marks_cpi(t: Seq<char>) -> bool {
    contains(t, "invoke"@) || contains(t, "cpi::"@) || contains(t, "token::"@) || contains(
        t,
        "system_program::"@,
    ) || contains(t, "transfer_checked"@) || contains(t, "mint_to"@) || contains(t, "set_authority"@)
}

/// How many times the step counter advances while a statement is processed.
pub open spec fn stmt_incs(s: Stmt) -> nat
    decreases s,
{
    match s {
        Stmt::Expr(e) => expr_incs(e),
        _ => 0,
    }
}

/// How many times the step counter advances while an expression is processed.
pub open spec fn expr_incs(e: Expr) -> nat
    decreases e,
{
    match e {
        Expr::If { then_branch, else_branch, .. } => stmts_incs(then_branch@) + match else_branch {
            Some(b) => 1 + expr_incs(*b),
            None => 0,
        },
        Expr::Block(stmts) => stmts_incs(stmts@),
        Expr::Try(inner) => expr_incs(*inner),
        _ => 0,
    }
}

/// How many times the step counter advances while a statement list is processed:
/// once before each statement, and inside each.
pub open spec fn stmts_incs(s: Seq<Stmt>) -> nat
    decreases s,
{
    if s.len() == 0 {
        0
    } else {
        stmts_incs(s.drop_last()) + 1 + stmt_incs(s.last())
    }
}

/// The facts that processing statement `s` with counter `c` adds to `f`.
pub open spec fn stmt_facts(s: Stmt, f: SpecBodyFacts, c: int) -> SpecBodyFacts
    decreases s,
{
    match s {
        Stmt::Local { name, init } => match init {
            Some(li) => {
                let t = li.text@;
                let f1 = if init_marks_cpi(t) {
                    match li.expr {
                        InitExpr::Call(call) => cpi_function_call_facts(call, f, c),
                        InitExpr::MethodCall(mc) => cpi_method_call_facts(mc, f, c),
                        InitExpr::Other => f,
                    }
                } else {
                    f
                };
                with_step(f1, step(c, StepKind::LetBinding, t, Some(name@), None))
            },
            None => f,
        },
        Stmt::Expr(e) => expr_facts(e, f, c),
        Stmt::Other => f,
    }
}

/// The facts that processing expression `e` with counter `c` adds to `f`.
pub open spec fn expr_facts(e: Expr, f: SpecBodyFacts, c: int) -> SpecBodyFacts
    decreases e,
{
    match e {
        Expr::Assign { lhs, rhs } => if contains(lhs@, "lamports"@) || contains(rhs@, "lamports"@) {
            lamport_flow_facts(lhs@, rhs@, f, c)
        } else {
            let (account, field) = match spec_split_field_access(lhs@) {
                Some(p) => p,
                None => (lhs@, "unknown"@),
            };
            let f1 = SpecBodyFacts {
                state_mutations: f.state_mutations.push(SpecStateMutation {
                    account,
                    field,
                    operation: spec_operation_style(rhs@),
                    value_expression: rhs@,
                    instruction_order: c as usize,
                }),
                ..f
            };
            with_step(f1, step(c, StepKind::FieldAssignment, lhs@ + " = "@ + rhs@, Some(lhs@), None))
        },
        Expr::MethodCall(mc) => {
            let f1 = if spec_is_cpi_method(mc.method@) { cpi_method_call_facts(mc, f, c) } else { f };
            with_step(f1, step(c, StepKind::MethodCall, mc.text@, None, None))
        },
        Expr::Call(call) => {
            let f1 = if spec_is_cpi_function(call.func@) { cpi_function_call_facts(call, f, c) } else { f };
            let f2 = if contains(call.func@, "set_authority"@) { set_authority_facts(call, f1, c) } else { f1 };
            with_step(f2, step(c, StepKind::CpiCall, call.text@, None, None))
        },
        Expr::Macro { name, tokens } => if name@ == "emit"@ {
            with_step(f, step(c, StepKind::Emit, tokens@, None, None))
        } else {
            f
        },
        Expr::If { cond, then_branch, else_branch } => {
            let f1 = with_step(f, step(c, StepKind::ConditionalBranch, "if "@ + cond@, None, None));
            let f2 = stmts_facts(then_branch@, f1, c);
            match else_branch {
                Some(b) => expr_facts(*b, f2, c + stmts_incs(then_branch@) + 1),
                None => f2,
            }
        },
        Expr::Block(stmts) => stmts_facts(stmts@, f, c),
        Expr::Try(inner) => expr_facts(*inner, f, c),
        Expr::Other => f,
    }
}

/// The facts that processing the statements `s` one after another adds to `f`, the counter
/// advancing from `c` once before each statement.
pub open spec fn stmts_facts(s: Seq<Stmt>, f: SpecBodyFacts, c: int) -> SpecBodyFacts
    decreases s,
{
    if s.len() == 0 {
        f
    } else {
        stmt_facts(s.last(), stmts_facts(s.drop_last(), f, c), c + stmts_incs(s.drop_last()) + 1)
    }
}

} // verus!

verus! {

/// An execution step.
pub fn make_step(
    order: usize,
    kind: StepKind,
    expression: String,
    assigned_to: Option<String>,
    source_hint: Option<String>,
) -> (r: ExecutionStep)
    ensures
        r@ == step(order as int, kind, expression@, assigned_to.deep_view(), source_hint.deep_view()),
{
    ExecutionStep { order, kind, expression, assigned_to, source_hint }
}

fn push_step(facts: &mut BodyFacts, s: ExecutionStep)
    ensures
        final(facts)@ == with_step(old(facts)@, s@),
{
    push_dv(&mut facts.execution_steps, s);
}

fn arg_text(args: &Vec<String>, i: usize) -> (r: String)
    ensures
        r@ == arg_or_not_extracted(args.deep_view(), i as int),
{
    if i < args.len() {
        assert(args@[i as int]@ == args.deep_view()[i as int]);
        args[i].clone()
    } else {
        owned("NOT_EXTRACTED")
    }
}

/// Records the token flow of a CPI made by a method call.
pub fn process_cpi_method_call(call: &MethodCallExpr, facts: &mut BodyFacts, order: usize)
    ensures
        final(facts)@ == cpi_method_call_facts(*call, old(facts)@, order as int),
{
    let amount_expr = arg_text(&call.args, 0);
    if is_token_cpi(call.method.as_str()) {
        push_dv(&mut facts.token_flows, TokenFlow {
            from: owned("NOT_EXTRACTED"),
            to: owned("NOT_EXTRACTED"),
            amount_expression: amount_expr,
            cpi_method: call.method.clone(),
            instruction_order: order,
        });
    }
}

/// Records the token flow, CPI call and SOL flow of a CPI made by a function call.
pub fn process_cpi_function_call(call: &CallExpr, facts: &mut BodyFacts, order: usize)
    ensures
        final(facts)@ == cpi_function_call_facts(*call, old(facts)@, order as int),
{
    let func_str = call.func.as_str();
    let method = extract_cpi_method_name(func_str);
    let cpi_ctx_arg = if call.args.len() > 0 {
        assert(call.args@[0]@ == call.args.deep_view()[0]);
        call.args[0].clone()
    } else {
        proof {
            reveal_strlit("");
        }
        owned("")
    };
    assert(cpi_ctx_arg@ == (if call.args.deep_view().len() > 0 { call.args.deep_view()[0] } else { seq![] }));
    let amount_expr = arg_text(&call.args, 1);
    let ghost f0 = facts@;
    if is_token_cpi(method.as_str()) {
        let (from_account, to_account) = extract_transfer_accounts_from_ctx(cpi_ctx_arg.as_str(), method.as_str());
        push_dv(&mut facts.token_flows, TokenFlow {
            from: from_account.clone(),
            to: to_account.clone(),
            amount_expression: amount_expr.clone(),
            cpi_method: method.clone(),
            instruction_order: order,
        });
        push_dv(&mut facts.cpi_calls, CpiCall {
            target: extract_cpi_program(func_str),
            instruction: method.clone(),
            from_account: Some(from_account),
            to_account: Some(to_account),
            signer_seeds: extract_signer_seeds(cpi_ctx_arg.as_str()),
            nesting_depth: Some(owned("function_body")),
            instruction_name: None,
        });
    }
    if str_eq(method.as_str(), "transfer") && str_contains(func_str, "system") {
        let (from_account, to_account) = extract_transfer_accounts_from_ctx(cpi_ctx_arg.as_str(), method.as_str());
        push_dv(&mut facts.sol_flows, SolFlow {
            from: from_account,
            to: to_account,
            amount_expression: amount_expr,
            method: owned("system_transfer"),
            instruction_order: order,
        });
    }
}

/// Records one side of a direct lamport move made by an assignment.
pub fn detect_lamport_flow(lhs: &str, rhs: &str, facts: &mut BodyFacts, order: usize)
    ensures
        final(facts)@ == lamport_flow_facts(lhs@, rhs@, old(facts)@, order as int),
{
    let is_decrease = str_contains(rhs, "-=") || str_contains(lhs, "-=");
    let is_increase = str_contains(rhs, "+=") || str_contains(lhs, "+");
    let rhs_trimmed = str_trim(rhs, None);
    let is_dec_op = str_starts_with(rhs_trimmed.as_str(), "-=") || str_contains(rhs, "checked_sub");
    let is_inc_op = str_starts_with(rhs_trimmed.as_str(), "+=") || str_contains(rhs, "checked_add");
    let account_name = match extract_account_from_lamport_expr(lhs) {
        Some(a) => a,
        None => owned("UNKNOWN"),
    };
    let direction = if is_decrease || is_dec_op {
        "out"
    } else if is_increase || is_inc_op {
        "in"
    } else {
        "unknown"
    };
    let amount_expr = match extract_amount_from_lamport_expr(rhs) {
        Some(a) => a,
        None => owned("UNKNOWN"),
    };
    push_dv(&mut facts.partial_lamport_flows, PartialLamportFlow {
        account: account_name,
        direction: owned(direction),
        amount_expression: amount_expr,
        instruction_order: order,
    });
}

/// Records a `set_authority` call, and a step when it revokes the authority.
pub fn extract_set_authority(call: &CallExpr, facts: &mut BodyFacts, order: usize)
    ensures
        final(facts)@ == set_authority_facts(*call, old(facts)@, order as int),
{
    let args = &call.args;
    let ghost a = args.deep_view();
    let authority_type = if args.len() > 1 {
        assert(args@[1]@ == a[1]);
        clean_authority_type(args[1].as_str())
    } else {
        owned("UNKNOWN")
    };
    let new_authority = if args.len() > 2 {
        assert(args@[2]@ == a[2]);
        str_trim(args[2].as_str(), None)
    } else {
        owned("UNKNOWN")
    };
    let account = if args.len() > 0 {
        assert(args@[0]@ == a[0]);
        extract_account_from_set_authority_ctx(args[0].as_str())
    } else {
        owned("NOT_EXTRACTED")
    };
    let authority_type_text = authority_type.clone();
    let new_authority_trimmed = str_trim(new_authority.as_str(), None);
    push_dv(&mut facts.set_authority_calls, SetAuthorityCall {
        account,
        authority_type,
        new_authority,
        instruction_order: order,
    });
    if str_eq(new_authority_trimmed.as_str(), "None") || str_eq(new_authority_trimmed.as_str(), "none") {
        let expression = concat3("set_authority(", authority_type_text.as_str(), ", None) — AUTHORITY REVOKED");
        push_step(facts, make_step(order, StepKind::SetAuthority, expression, None,
            Some(owned("Mint authority permanently revoked after this point"))));
    }
}

/// The statements before `i` count no more steps than all of them.
pub proof fn lemma_stmts_incs_prefix(s: Seq<Stmt>, i: int)
    requires
        0 <= i <= s.len(),
    ensures
        stmts_incs(s.subrange(0, i)) <= stmts_incs(s),
    decreases s.len() - i,
{
    if i < s.len() {
        lemma_stmts_incs_prefix(s, i + 1);
        assert(s.subrange(0, i + 1).drop_last() =~= s.subrange(0, i));
    } else {
        assert(s.subrange(0, i) =~= s);
    }
}

/// Processes the statements one after another, advancing the counter before each.
pub fn process_stmts(stmts: &Vec<Stmt>, facts: &mut BodyFacts, counter: &mut usize)
    requires
        *old(counter) + stmts_incs(stmts@) <= usize::MAX,
    ensures
        final(facts)@ == stmts_facts(stmts@, old(facts)@, *old(counter) as int),
        *final(counter) == *old(counter) + stmts_incs(stmts@),
    decreases stmts,
{
    let ghost f0 = facts@;
    let ghost c0 = *counter as int;
    let mut i: usize = 0;
    while i < stmts.len()
        invariant
            i <= stmts@.len(),
            c0 + stmts_incs(stmts@) <= usize::MAX,
            facts@ == stmts_facts(stmts@.subrange(0, i as int), f0, c0),
            *counter == c0 + stmts_incs(stmts@.subrange(0, i as int)),
        decreases stmts.len() - i,
    {
        proof {
            let s = stmts@.subrange(0, i + 1);
            assert(s.drop_last() =~= stmts@.subrange(0, i as int));
            assert(s.last() == stmts@[i as int]);
            lemma_stmts_incs_prefix(stmts@, i + 1);
        }
        *counter = *counter + 1;
        process_stmt(&stmts[i], facts, counter);
        i = i + 1;
    }
    assert(stmts@.subrange(0, i as int) =~= stmts@);
}

/// Processes one statement: a `let` with an initialiser records a step (and a CPI when its
/// text marks one); an expression statement is processed as an expression.
pub fn process_stmt(stmt: &Stmt, facts: &mut BodyFacts, counter: &mut usize)
    requires
        *old(counter) + stmt_incs(*stmt) <= usize::MAX,
    ensures
        final(facts)@ == stmt_facts(*stmt, old(facts)@, *old(counter) as int),
        *final(counter) == *old(counter) + stmt_incs(*stmt),
    decreases stmt,
{
    match stmt {
        Stmt::Local { name, init } => {
            if let Some(li) = init {
                let expr_tokens = li.text.as_str();
                if str_contains(expr_tokens, "invoke") || str_contains(expr_tokens, "cpi::") || str_contains(
                    expr_tokens,
                    "token::",
                ) || str_contains(expr_tokens, "system_program::") || str_contains(expr_tokens, "transfer_checked")
                    || str_contains(expr_tokens, "mint_to") || str_contains(expr_tokens, "set_authority") {
                    match &li.expr {
                        InitExpr::Call(call) => process_cpi_function_call(call, facts, *counter),
                        InitExpr::MethodCall(mc) => process_cpi_method_call(mc, facts, *counter),
                        InitExpr::Other => {},
                    }
                }
                push_step(facts, make_step(*counter, StepKind::LetBinding, li.text.clone(), Some(name.clone()), None));
            }
        },
        Stmt::Expr(e) => {
            process_expr(e, facts, counter);
        },
        Stmt::Other => {},
    }
}

/// Processes one expression (see [`expr_facts`]).
pub fn process_expr(expr: &Expr, facts: &mut BodyFacts, counter: &mut usize)
    requires
        *old(counter) + expr_incs(*expr) <= usize::MAX,
    ensures
        final(facts)@ == expr_facts(*expr, old(facts)@, *old(counter) as int),
        *final(counter) == *old(counter) + expr_incs(*expr),
    decreases expr,
{
    match expr {
        Expr::Assign { lhs, rhs } => {
            if str_contains(lhs.as_str(), "lamports") || str_contains(rhs.as_str(), "lamports") {
                detect_lamport_flow(lhs.as_str(), rhs.as_str(), facts, *counter);
            } else {
                let (account, field) = match split_field_access(lhs.as_str()) {
                    Some(p) => p,
                    None => (lhs.clone(), owned("unknown")),
                };
                push_dv(&mut facts.state_mutations, StateMutation {
                    account,
                    field,
                    operation: detect_operation_style(rhs.as_str()),
                    value_expression: rhs.clone(),
                    instruction_order: *counter,
                });
                let expression = concat3(lhs.as_str(), " = ", rhs.as_str());
                push_step(facts, make_step(*counter, StepKind::FieldAssignment, expression, Some(lhs.clone()), None));
            }
        },
        Expr::MethodCall(mc) => {
            if is_cpi_method(mc.method.as_str()) {
                process_cpi_method_call(mc, facts, *counter);
            }
            push_step(facts, make_step(*counter, StepKind::MethodCall, mc.text.clone(), None, None));
        },
        Expr::Call(call) => {
            if is_cpi_function(call.func.as_str()) {
                process_cpi_function_call(call, facts, *counter);
            }
            if str_contains(call.func.as_str(), "set_authority") {
                extract_set_authority(call, facts, *counter);
            }
            push_step(facts, make_step(*counter, StepKind::CpiCall, call.text.clone(), None, None));
        },
        Expr::Macro { name, tokens } => {
            if str_eq(name.as_str(), "emit") {
                push_step(facts, make_step(*counter, StepKind::Emit, tokens.clone(), None, None));
            }
        },
        Expr::If { cond, then_branch, else_branch } => {
            let expression = concat2("if ", cond.as_str());
            push_step(facts, make_step(*counter, StepKind::ConditionalBranch, expression, None, None));
            process_stmts(then_branch, facts, counter);
            match else_branch {
                Some(b) => {
                    *counter = *counter + 1;
                    process_expr(b, facts, counter);
                },
                None => {},
            }
        },
        Expr::Block(stmts) => {
            process_stmts(stmts, facts, counter);
        },
        Expr::Try(inner) => {
            process_expr(inner, facts, counter);
        },
        Expr::Other => {},
    }
}

/// The facts of a handler body: its statements processed in order, numbered from 1.
pub fn extract_body_facts(block: &Vec<Stmt>) -> (r: BodyFacts)
    requires
        stmts_incs(block@) <= usize::MAX,
    ensures
        r@ == stmts_facts(block@, empty_body_facts(), 0),
{
    let mut facts = BodyFacts::new();
    let mut step_counter: usize = 0;
    process_stmts(block, &mut facts, &mut step_counter);
    facts
}

} // verus!

verus! {

fn add_capped(a: Option<usize>, b: Option<usize>) -> (r: Option<usize>)
    ensures
        match (a, b) {
            (Some(x), Some(y)) => if x + y <= usize::MAX { r == Some((x + y) as usize) } else { r is None },
            _ => r is None,
        },
{
    match (a, b) {
        (Some(x), Some(y)) => x.checked_add(y),
        _ => None,
    }
}

/// How many times the step counter advances over `stmts`, or `None` when that
/// exceeds `usize::MAX`.
pub fn stmts_step_count(stmts: &Vec<Stmt>) -> (r: Option<usize>)
    ensures
        match r {
            Some(n) => n == stmts_incs(stmts@),
            None => stmts_incs(stmts@) > usize::MAX,
        },
    decreases stmts,
{
    let mut total: usize = 0;
    let mut i: usize = 0;
    while i < stmts.len()
        invariant
            i <= stmts@.len(),
            total == stmts_incs(stmts@.subrange(0, i as int)),
        decreases stmts.len() - i,
    {
        proof {
            let s = stmts@.subrange(0, i + 1);
            assert(s.drop_last() =~= stmts@.subrange(0, i as int));
            assert(s.last() == stmts@[i as int]);
            lemma_stmts_incs_prefix(stmts@, i + 1);
        }
        let inner = stmt_step_count(&stmts[i]);
        match add_capped(add_capped(Some(total), Some(1)), inner) {
            Some(t) => total = t,
            None => return None,
        }
        i = i + 1;
    }
    assert(stmts@.subrange(0, i as int) =~= stmts@);
    Some(total)
}

/// How many times the step counter advances over a statement, or `None` past `usize::MAX`.
pub fn stmt_step_count(stmt: &Stmt) -> (r: Option<usize>)
    ensures
        match r {
            Some(n) => n == stmt_incs(*stmt),
            None => stmt_incs(*stmt) > usize::MAX,
        },
    decreases stmt,
{
    match stmt {
        Stmt::Expr(e) => expr_step_count(e),
        _ => Some(0),
    }
}

/// How many times the step counter advances over an expression, or `None` past `usize::MAX`.
pub fn expr_step_count(expr: &Expr) -> (r: Option<usize>)
    ensures
        match r {
            Some(n) => n == expr_incs(*expr),
            None => expr_incs(*expr) > usize::MAX,
        },
    decreases expr,
{
    match expr {
        Expr::If { then_branch, else_branch, .. } => {
            let t = stmts_step_count(then_branch);
            match else_branch {
                Some(b) => add_capped(t, add_capped(Some(1), expr_step_count(b))),
                None => t,
            }
        },
        Expr::Block(stmts) => stmts_step_count(stmts),
        Expr::Try(inner) => expr_step_count(inner),
        _ => Some(0),
    }
}

} // verus!
