//! Facts drawn from the items of Anchor source files: instruction handlers, account
//! contexts, data accounts, error codes and the program id.
use vstd::prelude::*;

use crate::flow_extractor::{
    empty_body_facts, extract_body_facts, stmts_facts, stmts_incs, SpecBodyFacts,
};
use crate::seqs::push_dv;
use crate::std_text::{char_is_alphanumeric, to_lowercase, unicode_alphanumeric, unicode_lowercase};
use crate::syntax::{Attr, BinOp, BodyEvent, EnumItem, FieldItem, FnItem, FnParam, MacroItem, SourceItem, StructItem};
use crate::text::{
    chars_of, concat2, contains, copy_opt, copy_strings, find, owned, replace, slice_to_vec, splitn,
    str_contains, str_eq, str_find, str_replace, str_slice, str_splitn, str_trim, strings_contain,
    trim, char_len,
};
use crate::types::{
    Arithmetic, BodyCheck, CpiCall, DataStructField, FactAccount, FactDataStruct, FactError,
    FactInstruction, Facts, InstructionAccount, InstructionArg, InstructionParam, SpecArithmetic,
    SpecBodyCheck, SpecCpiCall, SpecDataStructField, SpecFactAccount, SpecFactDataStruct,
    SpecFactError, SpecFactInstruction, SpecFacts, SpecInstructionAccount, SpecInstructionArg,
    SpecInstructionParam,
};

verus! {

// ---------------------------------------------------------------------------
// Body scan
// ---------------------------------------------------------------------------

/// `s` with `x` appended unless it is already there.
pub open spec fn push_unique(s: Seq<Seq<char>>, x: Seq<char>) -> Seq<Seq<char>> {
    if s.contains(x) {
        s
    } else {
        s.push(x)
    }
}

/// What the scan of a handler body collects.
pub struct BodyVisitor {
    pub body_checks: Vec<BodyCheck>,
    pub arithmetic: Vec<Arithmetic>,
    pub events_emitted: Vec<String>,
    pub uses_remaining_accounts: bool,
    pub error_codes_referenced: Vec<String>,
}

/// The model of [`BodyVisitor`].
pub struct SpecBodyScan {
    pub body_checks: Seq<SpecBodyCheck>,
    pub arithmetic: Seq<SpecArithmetic>,
    pub events_emitted: Seq<Seq<char>>,
    pub uses_remaining_accounts: bool,
    pub error_codes_referenced: Seq<Seq<char>>,
}

impl View for BodyVisitor {
    type V = SpecBodyScan;

    open spec fn view(&self) -> SpecBodyScan {
        SpecBodyScan {
            body_checks: self.body_checks.deep_view(),
            arithmetic: self.arithmetic.deep_view(),
            events_emitted: self.events_emitted.deep_view(),
            uses_remaining_accounts: self.uses_remaining_accounts,
            error_codes_referenced: self.error_codes_referenced.deep_view(),
        }
    }
}

/// A scan that has seen nothing.
pub open spec fn empty_scan() -> SpecBodyScan {
    SpecBodyScan {
        body_checks: seq![],
        arithmetic: seq![],
        events_emitted: seq![],
        uses_remaining_accounts: false,
        error_codes_referenced: seq![],
    }
}

/// The `require!` macros whose first argument is a condition.
pub open spec fn is_condition_check(name: Seq<char>) -> bool {
    name == "require"@ || name == "require_gt"@ || name == "require_gte"@ || name == "require_neq"@
}

/// A macro in the body: a condition check with an error records the check and the error
/// code, `require_keys_eq!` with two keys and an error likewise, `emit!` the event's name.
pub open spec fn scan_macro(st: SpecBodyScan, name: Seq<char>, tokens: Seq<char>, first: Option<Seq<char>>) -> SpecBodyScan {
    if is_condition_check(name) {
        let parts = splitn(tokens, 2, ","@);
        if parts.len() == 2 {
            let err = trim(parts[1], None);
            SpecBodyScan {
                body_checks: st.body_checks.push(SpecBodyCheck {
                    macro_name: name,
                    condition: Some(trim(parts[0], None)),
                    lhs: None,
                    rhs: None,
                    error: err,
                }),
                error_codes_referenced: push_unique(st.error_codes_referenced, err),
                ..st
            }
        } else {
            st
        }
    } else if name == "require_keys_eq"@ {
        let parts = splitn(tokens, 3, ","@);
        if parts.len() == 3 {
            let err = trim(parts[2], None);
            SpecBodyScan {
                body_checks: st.body_checks.push(SpecBodyCheck {
                    macro_name: name,
                    condition: None,
                    lhs: Some(trim(parts[0], None)),
                    rhs: Some(trim(parts[1], None)),
                    error: err,
                }),
                error_codes_referenced: push_unique(st.error_codes_referenced, err),
                ..st
            }
        } else {
            st
        }
    } else if name == "emit"@ {
        match first {
            Some(ev) => SpecBodyScan { events_emitted: push_unique(st.events_emitted, ev), ..st },
            None => st,
        }
    } else {
        st
    }
}

/// Checked and saturating arithmetic methods.
pub open spec fn is_safe_math(m: Seq<char>) -> bool {
    m == "checked_add"@ || m == "checked_sub"@ || m == "checked_mul"@ || m == "checked_div"@ || m
        == "saturating_add"@ || m == "saturating_sub"@ || m == "saturating_mul"@
}

/// Wrapping arithmetic methods.
pub open spec fn is_unsafe_math(m: Seq<char>) -> bool {
    m == "wrapping_add"@ || m == "wrapping_sub"@
}

/// The operation of an arithmetic method: its name without the style prefix.
pub open spec fn math_operation(m: Seq<char>) -> Seq<char> {
    replace(replace(replace(m, "checked_"@, seq![]), "saturating_"@, seq![]), "wrapping_"@, seq![])
}

/// A method call: `remaining_accounts` marks their use; an arithmetic method records its
/// operation, checked unless it wraps.
pub open spec fn scan_method_call(st: SpecBodyScan, method: Seq<char>, text: Seq<char>) -> SpecBodyScan {
    let st1 = if method == "remaining_accounts"@ {
        SpecBodyScan { uses_remaining_accounts: true, ..st }
    } else {
        st
    };
    if is_safe_math(method) || is_unsafe_math(method) {
        SpecBodyScan {
            arithmetic: st1.arithmetic.push(SpecArithmetic {
                operation: math_operation(method),
                style: if is_unsafe_math(method) { "unchecked"@ } else { "checked"@ },
                expression: text,
                overflow_risk: is_unsafe_math(method),
            }),
            ..st1
        }
    } else {
        st1
    }
}

/// The words of an expression that suggest it computes an amount.
pub open spec fn mentions_amount(t: Seq<char>) -> bool {
    contains(t, "amount"@) || contains(t, "balance"@) || contains(t, "total"@) || contains(t, "shares"@)
        || contains(t, "reward"@) || contains(t, "fee"@) || contains(t, "price"@) || contains(t, "reserve"@)
}

/// The name of an arithmetic operator.
pub open spec fn binop_name(op: BinOp) -> Option<Seq<char>> {
    match op {
        BinOp::Add => Some("add"@),
        BinOp::Sub => Some("sub"@),
        BinOp::Mul => Some("mul"@),
        BinOp::Div => Some("div"@),
        BinOp::Other => None,
    }
}

/// A binary expression: raw `+ - * /` on an amount-like expression records an unchecked
/// operation with overflow risk.
pub open spec fn scan_binary(st: SpecBodyScan, op: BinOp, text: Seq<char>) -> SpecBodyScan {
    match binop_name(op) {
        Some(name) => if mentions_amount(text) {
            SpecBodyScan {
                arithmetic: st.arithmetic.push(SpecArithmetic {
                    operation: name,
                    style: "unchecked"@,
                    expression: text,
                    overflow_risk: true,
                }),
                ..st
            }
        } else {
            st
        },
        None => st,
    }
}

/// One body node.
pub open spec fn scan_event(st: SpecBodyScan, ev: BodyEvent) -> SpecBodyScan {
    match ev {
        BodyEvent::Macro { name, tokens, first_token } => scan_macro(st, name@, tokens@, first_token.deep_view()),
        BodyEvent::Field { member } => match member {
            Some(m) => if m@ == "remaining_accounts"@ {
                SpecBodyScan { uses_remaining_accounts: true, ..st }
            } else {
                st
            },
            None => st,
        },
        BodyEvent::MethodCall { method, text } => scan_method_call(st, method@, text@),
        BodyEvent::Binary { op, text } => scan_binary(st, op, text@),
    }
}

/// The body nodes scanned in walk order.
pub open spec fn scan_events(evs: Seq<BodyEvent>) -> SpecBodyScan
    decreases evs.len(),
{
    if evs.len() == 0 {
        empty_scan()
    } else {
        scan_event(scan_events(evs.drop_last()), evs.last())
    }
}

pub fn push_unique_string(v: &mut Vec<String>, x: String)
    ensures
        final(v).deep_view() == push_unique(old(v).deep_view(), x@),
{
    if !strings_contain(v, x.as_str()) {
        push_dv(v, x);
    }
}

impl BodyVisitor {
    /// A scan that has seen nothing.
    pub fn new() -> (r: BodyVisitor)
        ensures
            r@ == empty_scan(),
    {
        let r = BodyVisitor {
            body_checks: Vec::new(),
            arithmetic: Vec::new(),
            events_emitted: Vec::new(),
            uses_remaining_accounts: false,
            error_codes_referenced: Vec::new(),
        };
        assert(r@.body_checks =~= seq![]);
        assert(r@.arithmetic =~= seq![]);
        assert(r@.events_emitted =~= seq![]);
        assert(r@.error_codes_referenced =~= seq![]);
        r
    }

    /// Scans a macro of the body (see [`scan_macro`]).
    pub fn visit_macro(&mut self, name: &str, tokens: &str, first_token: &Option<String>)
        ensures
            final(self)@ == scan_macro(old(self)@, name@, tokens@, first_token.deep_view()),
    {
        proof {
            reveal_strlit(",");
        }
        if str_eq(name, "require") || str_eq(name, "require_gt") || str_eq(name, "require_gte") || str_eq(
            name,
            "require_neq",
        ) {
            let parts = str_splitn(tokens, 2, ",");
            if parts.len() == 2 {
                assert(parts@[0]@ == parts.deep_view()[0]);
                assert(parts@[1]@ == parts.deep_view()[1]);
                let err = str_trim(parts[1].as_str(), None);
                let condition = str_trim(parts[0].as_str(), None);
                push_dv(&mut self.body_checks, BodyCheck {
                    macro_name: owned(name),
                    condition: Some(condition),
                    lhs: None,
                    rhs: None,
                    error: err.clone(),
                });
                push_unique_string(&mut self.error_codes_referenced, err);
            }
        } else if str_eq(name, "require_keys_eq") {
            let parts = str_splitn(tokens, 3, ",");
            if parts.len() == 3 {
                assert(parts@[0]@ == parts.deep_view()[0]);
                assert(parts@[1]@ == parts.deep_view()[1]);
                assert(parts@[2]@ == parts.deep_view()[2]);
                let err = str_trim(parts[2].as_str(), None);
                let lhs = str_trim(parts[0].as_str(), None);
                let rhs = str_trim(parts[1].as_str(), None);
                push_dv(&mut self.body_checks, BodyCheck {
                    macro_name: owned(name),
                    condition: None,
                    lhs: Some(lhs),
                    rhs: Some(rhs),
                    error: err.clone(),
                });
                push_unique_string(&mut self.error_codes_referenced, err);
            }
        } else if str_eq(name, "emit") {
            match first_token {
                Some(event) => push_unique_string(&mut self.events_emitted, event.clone()),
                None => {},
            }
        }
    }

    /// Scans a field access: a `remaining_accounts` member marks their use.
    pub fn visit_expr_field(&mut self, member: &Option<String>)
        ensures
            final(self)@ == scan_event(old(self)@, BodyEvent::Field { member: *member }),
    {
        match member {
            Some(m) => {
                if str_eq(m.as_str(), "remaining_accounts") {
                    self.uses_remaining_accounts = true;
                }
            },
            None => {},
        }
    }

    /// Scans a method call (see [`scan_method_call`]).
    pub fn visit_expr_method_call(&mut self, method: &str, text: &str)
        ensures
            final(self)@ == scan_method_call(old(self)@, method@, text@),
    {
        if str_eq(method, "remaining_accounts") {
            self.uses_remaining_accounts = true;
        }
        let is_safe = str_eq(method, "checked_add") || str_eq(method, "checked_sub") || str_eq(method, "checked_mul")
            || str_eq(method, "checked_div") || str_eq(method, "saturating_add") || str_eq(method, "saturating_sub")
            || str_eq(method, "saturating_mul");
        let is_overflow_risk = str_eq(method, "wrapping_add") || str_eq(method, "wrapping_sub");
        if is_safe || is_overflow_risk {
            proof {
                reveal_strlit("checked_");
                reveal_strlit("saturating_");
                reveal_strlit("wrapping_");
                reveal_strlit("");
            }
            assert(""@ =~= Seq::<char>::empty());
            let op1 = str_replace(method, "checked_", "");
            let op2 = str_replace(op1.as_str(), "saturating_", "");
            let operation = str_replace(op2.as_str(), "wrapping_", "");
            push_dv(&mut self.arithmetic, Arithmetic {
                operation,
                style: if is_overflow_risk { owned("unchecked") } else { owned("checked") },
                expression: owned(text),
                overflow_risk: is_overflow_risk,
            });
        }
    }

    /// Scans a binary expression (see [`scan_binary`]).
    pub fn visit_expr_binary(&mut self, op: BinOp, text: &str)
        ensures
            final(self)@ == scan_binary(old(self)@, op, text@),
    {
        let op_str = match op {
            BinOp::Add => Some("add"),
            BinOp::Sub => Some("sub"),
            BinOp::Mul => Some("mul"),
            BinOp::Div => Some("div"),
            BinOp::Other => None,
        };
        if let Some(name) = op_str {
            if str_contains(text, "amount") || str_contains(text, "balance") || str_contains(text, "total")
                || str_contains(text, "shares") || str_contains(text, "reward") || str_contains(text, "fee")
                || str_contains(text, "price") || str_contains(text, "reserve") {
                push_dv(&mut self.arithmetic, Arithmetic {
                    operation: owned(name),
                    style: owned("unchecked"),
                    expression: owned(text),
                    overflow_risk: true,
                });
            }
        }
    }

    /// Scans one body node.
    pub fn visit_event(&mut self, ev: &BodyEvent)
        ensures
            final(self)@ == scan_event(old(self)@, *ev),
    {
        match ev {
            BodyEvent::Macro { name, tokens, first_token } => self.visit_macro(name.as_str(), tokens.as_str(), first_token),
            BodyEvent::Field { member } => self.visit_expr_field(member),
            BodyEvent::MethodCall { method, text } => self.visit_expr_method_call(method.as_str(), text.as_str()),
            BodyEvent::Binary { op, text } => self.visit_expr_binary(*op, text.as_str()),
        }
    }
}

/// Scans the nodes of a body in walk order.
pub fn scan_body(events: &Vec<BodyEvent>) -> (r: BodyVisitor)
    ensures
        r@ == scan_events(events@),
{
    let mut v = BodyVisitor::new();
    let mut i: usize = 0;
    while i < events.len()
        invariant
            i <= events@.len(),
            v@ == scan_events(events@.subrange(0, i as int)),
        decreases events.len() - i,
    {
        proof {
            let s = events@.subrange(0, i + 1);
            assert(s.drop_last() =~= events@.subrange(0, i as int));
        }
        v.visit_event(&events[i]);
        i = i + 1;
    }
    assert(events@.subrange(0, i as int) =~= events@);
    v
}

} // verus!

verus! {

// ---------------------------------------------------------------------------
// Data-struct field tags
// ---------------------------------------------------------------------------

/// `seq![t]` when `b` holds, else nothing.
pub open spec fn tag_if(b: bool, t: Seq<char>) -> Seq<Seq<char>> {
    if b {
        seq![t]
    } else {
        seq![]
    }
}

/// The tags of a data-struct field, from its lower-cased name `n` and type `t`.
pub open spec fn field_tags(n: Seq<char>, t: Seq<char>) -> Seq<Seq<char>> {
    let int_like = contains(t, "u64"@) || contains(t, "u128"@) || contains(t, "i64"@);
    tag_if(n == "bump"@, "[STORED BUMP]"@)
    + tag_if((contains(n, "admin"@) || contains(n, "owner"@) || contains(n, "authority"@) || contains(n, "signer"@)
        || contains(n, "key"@)) && contains(t, "pubkey"@), "[AUTHORITY]"@)
    + tag_if((contains(n, "amount"@) || contains(n, "balance"@) || contains(n, "total"@) || contains(n, "reserve"@)
        || contains(n, "reward"@) || contains(n, "fee"@) || contains(n, "shares"@) || contains(n, "stake"@)
        || contains(n, "deposit"@)) && int_like, "[NUMERIC ⚠ overflow]"@)
    + tag_if((contains(n, "debt"@) || contains(n, "accrued"@) || contains(n, "pending"@) || contains(n, "claimable"@))
        && int_like, "[ACCOUNTING ⚠ reset]"@)
    + tag_if((contains(n, "timestamp"@) || contains(n, "slot"@) || contains(n, "epoch"@) || contains(n, "time"@)
        || contains(n, "duration"@) || contains(n, "created_at"@)) && (contains(t, "i64"@) || contains(t, "u64"@)),
        "[TIMESTAMP ⚠ manipulation]"@)
    + tag_if((contains(n, "paused"@) || contains(n, "frozen"@) || contains(n, "active"@) || contains(n, "enabled"@))
        && contains(t, "bool"@), "[PAUSE FLAG]"@)
    + tag_if((contains(n, "authority"@) || contains(n, "owner"@) || contains(n, "creator"@) || contains(n, "recipient"@)
        || contains(n, "signer"@)) && contains(t, "pubkey"@), "[PUBKEY ⚠ validation]"@)
}

fn push_tag_if(tags: &mut Vec<String>, b: bool, t: &str)
    ensures
        final(tags).deep_view() == old(tags).deep_view() + tag_if(b, t@),
{
    if b {
        push_dv(tags, owned(t));
    }
    assert(tags.deep_view() =~= old(tags).deep_view() + tag_if(b, t@));
}

/// Tags a data-struct field by its name and type, compared in lower case.
pub fn auto_tag_field(field_name: &str, field_type: &str) -> (r: Vec<String>)
    ensures
        r.deep_view() == field_tags(unicode_lowercase(field_name@), unicode_lowercase(field_type@)),
{
    let name_lower = to_lowercase(field_name);
    let type_lower = to_lowercase(field_type);
    let n = name_lower.as_str();
    let t = type_lower.as_str();
    let mut tags: Vec<String> = Vec::new();
    let int_like = str_contains(t, "u64") || str_contains(t, "u128") || str_contains(t, "i64");
    push_tag_if(&mut tags, str_eq(n, "bump"), "[STORED BUMP]");
    push_tag_if(&mut tags, (str_contains(n, "admin") || str_contains(n, "owner") || str_contains(n, "authority")
        || str_contains(n, "signer") || str_contains(n, "key")) && str_contains(t, "pubkey"), "[AUTHORITY]");
    push_tag_if(&mut tags, (str_contains(n, "amount") || str_contains(n, "balance") || str_contains(n, "total")
        || str_contains(n, "reserve") || str_contains(n, "reward") || str_contains(n, "fee")
        || str_contains(n, "shares") || str_contains(n, "stake") || str_contains(n, "deposit")) && int_like,
        "[NUMERIC ⚠ overflow]");
    push_tag_if(&mut tags, (str_contains(n, "debt") || str_contains(n, "accrued") || str_contains(n, "pending")
        || str_contains(n, "claimable")) && int_like, "[ACCOUNTING ⚠ reset]");
    push_tag_if(&mut tags, (str_contains(n, "timestamp") || str_contains(n, "slot") || str_contains(n, "epoch")
        || str_contains(n, "time") || str_contains(n, "duration") || str_contains(n, "created_at"))
        && (str_contains(t, "i64") || str_contains(t, "u64")), "[TIMESTAMP ⚠ manipulation]");
    push_tag_if(&mut tags, (str_contains(n, "paused") || str_contains(n, "frozen") || str_contains(n, "active")
        || str_contains(n, "enabled")) && str_contains(t, "bool"), "[PAUSE FLAG]");
    push_tag_if(&mut tags, (str_contains(n, "authority") || str_contains(n, "owner") || str_contains(n, "creator")
        || str_contains(n, "recipient") || str_contains(n, "signer")) && str_contains(t, "pubkey"),
        "[PUBKEY ⚠ validation]");
    assert(Seq::<Seq<char>>::empty() + tag_if(n@ == "bump"@, "[STORED BUMP]"@) =~= tag_if(n@ == "bump"@, "[STORED BUMP]"@));
    tags
}

// ---------------------------------------------------------------------------
// Constraint summaries
// ---------------------------------------------------------------------------

/// The `seeds = [...]` part of a constraint text, or a placeholder.
pub open spec fn seeds_part(raw: Seq<char>) -> Seq<char> {
    match find(raw, "seeds = ["@) {
        Some(start) => {
            let rest = raw.subrange(start + 9, raw.len() as int);
            match find(rest, "]"@) {
                Some(end) => raw.subrange(start, start + 10 + end),
                None => "seeds=[...]"@,
            }
        },
        None => "seeds=[...]"@,
    }
}

/// The creation and seed constraints of a raw `#[account(...)]` text.
pub open spec fn creation_parts(raw: Seq<char>) -> Seq<Seq<char>> {
    tag_if(contains(raw, "init,"@) || contains(raw, "init "@) || crate::text::ends_with(raw, "init"@), "init"@)
    + tag_if(contains(raw, "init_if_needed"@), "init_if_needed"@)
    + tag_if(contains(raw, "seeds"@), seeds_part(raw))
}

/// The relation constraints of a raw `#[account(...)]` text.
pub open spec fn relation_parts(raw: Seq<char>) -> Seq<Seq<char>> {
    tag_if(contains(raw, "has_one"@), "has_one"@)
    + tag_if(contains(raw, "close"@), "close"@)
    + tag_if(contains(raw, "address"@), "address"@)
    + tag_if(contains(raw, "constraint"@), "constraint"@)
}

/// The token and mint constraints of a raw `#[account(...)]` text.
pub open spec fn token_parts(raw: Seq<char>) -> Seq<Seq<char>> {
    tag_if(contains(raw, "token :: mint"@) || contains(raw, "token::mint"@), "token::mint"@)
    + tag_if(contains(raw, "token :: authority"@) || contains(raw, "token::authority"@), "token::authority"@)
    + tag_if(contains(raw, "mint :: decimals"@) || contains(raw, "mint::decimals"@), "mint::decimals"@)
    + tag_if(contains(raw, "mint :: authority"@) || contains(raw, "mint::authority"@), "mint::authority"@)
}

/// The kinds of constraint that a raw `#[account(...)]` text holds, in a fixed order.
pub open spec fn constraint_parts(raw: Seq<char>) -> Seq<Seq<char>> {
    creation_parts(raw) + relation_parts(raw) + token_parts(raw)
}

/// A readable summary of a raw `#[account(...)]` text: its constraint kinds joined by
/// `, `; without any, `mut` when it says `mut`, else nothing.
pub open spec fn spec_summarize_constraints(raw: Seq<char>) -> Seq<char> {
    let parts = constraint_parts(raw);
    if parts.len() == 0 {
        if contains(raw, "mut"@) {
            "mut"@
        } else {
            seq![]
        }
    } else {
        crate::text::join(parts, ", "@)
    }
}

fn seeds_text(raw: &str) -> (r: String)
    ensures
        r@ == seeds_part(raw@),
{
    match str_find(raw, "seeds = [") {
        Some(start) => {
            proof {
                reveal_strlit("seeds = [");
                crate::text::lemma_find_from(raw@, "seeds = ["@, 0);
            }
            let total = char_len(raw);
            let rest = str_slice(raw, start + 9, total);
            match str_find(rest.as_str(), "]") {
                Some(end) => {
                    proof {
                        reveal_strlit("]");
                        crate::text::lemma_find_from(rest@, "]"@, 0);
                    }
                    str_slice(raw, start, start + 10 + end)
                },
                None => owned("seeds=[...]"),
            }
        },
        None => owned("seeds=[...]"),
    }
}

fn push_creation_parts(parts: &mut Vec<String>, raw: &str)
    ensures
        final(parts).deep_view() == old(parts).deep_view() + creation_parts(raw@),
{
    push_tag_if(parts, str_contains(raw, "init,") || str_contains(raw, "init ")
        || crate::text::str_ends_with(raw, "init"), "init");
    push_tag_if(parts, str_contains(raw, "init_if_needed"), "init_if_needed");
    let ghost before_seeds = parts.deep_view();
    if str_contains(raw, "seeds") {
        push_dv(parts, seeds_text(raw));
    }
    assert(parts.deep_view() =~= before_seeds + tag_if(contains(raw@, "seeds"@), seeds_part(raw@)));
    assert(parts.deep_view() =~= old(parts).deep_view() + creation_parts(raw@));
}

fn push_relation_parts(parts: &mut Vec<String>, raw: &str)
    ensures
        final(parts).deep_view() == old(parts).deep_view() + relation_parts(raw@),
{
    push_tag_if(parts, str_contains(raw, "has_one"), "has_one");
    push_tag_if(parts, str_contains(raw, "close"), "close");
    push_tag_if(parts, str_contains(raw, "address"), "address");
    push_tag_if(parts, str_contains(raw, "constraint"), "constraint");
    assert(parts.deep_view() =~= old(parts).deep_view() + relation_parts(raw@));
}

fn push_token_parts(parts: &mut Vec<String>, raw: &str)
    ensures
        final(parts).deep_view() == old(parts).deep_view() + token_parts(raw@),
{
    push_tag_if(parts, str_contains(raw, "token :: mint") || str_contains(raw, "token::mint"), "token::mint");
    push_tag_if(parts, str_contains(raw, "token :: authority") || str_contains(raw, "token::authority"),
        "token::authority");
    push_tag_if(parts, str_contains(raw, "mint :: decimals") || str_contains(raw, "mint::decimals"),
        "mint::decimals");
    push_tag_if(parts, str_contains(raw, "mint :: authority") || str_contains(raw, "mint::authority"),
        "mint::authority");
    assert(parts.deep_view() =~= old(parts).deep_view() + token_parts(raw@));
}

/// Summarises the constraints of a raw `#[account(...)]` text.
pub fn summarize_constraints(raw_attrs: &str) -> (r: String)
    ensures
        r@ == spec_summarize_constraints(raw_attrs@),
{
    let raw = raw_attrs;
    let mut parts: Vec<String> = Vec::new();
    push_creation_parts(&mut parts, raw);
    push_relation_parts(&mut parts, raw);
    push_token_parts(&mut parts, raw);
    assert(parts.deep_view() =~= constraint_parts(raw@));
    if parts.len() == 0 {
        if str_contains(raw, "mut") {
            owned("mut")
        } else {
            proof {
                reveal_strlit("");
            }
            assert(""@ =~= Seq::<char>::empty());
            owned("")
        }
    } else {
        crate::text::join_strings(&parts, ", ")
    }
}

} // verus!

verus! {

// ---------------------------------------------------------------------------
// Functions
// ---------------------------------------------------------------------------

/// A parameter whose type is `Context<...>`.
pub open spec fn is_context_param(p: FnParam) -> bool {
    p.path_last.deep_view() == Some("Context"@)
}

/// Some parameter is a context.
pub open spec fn has_context(ps: Seq<FnParam>) -> bool {
    exists|k: int| 0 <= k < ps.len() && is_context_param(#[trigger] ps[k])
}

/// The context struct named by the last context parameter that names one, else empty.
pub open spec fn context_name(ps: Seq<FnParam>) -> Seq<char>
    decreases ps.len(),
{
    if ps.len() == 0 {
        seq![]
    } else if is_context_param(ps.last()) && ps.last().first_generic is Some {
        ps.last().first_generic.unwrap()@
    } else {
        context_name(ps.drop_last())
    }
}

/// A non-context parameter: `u64`/`u128` amounts, shares, tokens, rewards and fees risk overflow.
pub open spec fn param_of(p: FnParam) -> SpecInstructionParam {
    SpecInstructionParam {
        name: p.pat@,
        ty: p.ty@,
        overflow_risk: (contains(p.ty@, "u64"@) || contains(p.ty@, "u128"@)) && (contains(p.pat@, "amount"@)
            || contains(p.pat@, "shares"@) || contains(p.pat@, "tokens"@) || contains(p.pat@, "reward"@)
            || contains(p.pat@, "fee"@)),
    }
}

/// The non-context parameters, in order.
pub open spec fn params_of(ps: Seq<FnParam>) -> Seq<SpecInstructionParam>
    decreases ps.len(),
{
    if ps.len() == 0 {
        seq![]
    } else if is_context_param(ps.last()) {
        params_of(ps.drop_last())
    } else {
        params_of(ps.drop_last()).push(param_of(ps.last()))
    }
}

/// A statement text that holds a `require!`, `require_eq!` or `require_keys_eq!`.
pub open spec fn is_check_text(t: Seq<char>) -> bool {
    contains(t, "require ! "@) || contains(t, "require_eq ! "@) || contains(t, "require_keys_eq ! "@)
}

/// The statement texts that are checks, in order.
pub open spec fn checks_of(ts: Seq<Seq<char>>) -> Seq<Seq<char>>
    decreases ts.len(),
{
    if ts.len() == 0 {
        seq![]
    } else {
        checks_of(ts.drop_last()) + tag_if(is_check_text(ts.last()), ts.last())
    }
}

/// A CPI seen in a top-level statement.
pub open spec fn top_cpi(target: Seq<char>, instruction: Seq<char>) -> SpecCpiCall {
    SpecCpiCall {
        target,
        instruction,
        from_account: None,
        to_account: None,
        signer_seeds: None,
        nesting_depth: Some("top-level"@),
        instruction_name: None,
    }
}

/// `seq![c]` when `b` holds, else nothing.
pub open spec fn cpi_if(b: bool, c: SpecCpiCall) -> Seq<SpecCpiCall> {
    if b {
        seq![c]
    } else {
        seq![]
    }
}

/// The SPL token CPIs that a statement text shows.
pub open spec fn token_cpis(t: Seq<char>) -> Seq<SpecCpiCall> {
    cpi_if(contains(t, "token :: transfer"@), top_cpi("token"@, "transfer"@))
    + cpi_if(contains(t, "token :: mint_to"@), top_cpi("token"@, "mint_to"@))
    + cpi_if(contains(t, "token :: burn"@), top_cpi("token"@, "burn"@))
}

/// The Token-2022 CPIs that a statement text shows.
pub open spec fn token_2022_cpis(t: Seq<char>) -> Seq<SpecCpiCall> {
    cpi_if(contains(t, "token_2022 :: transfer_checked"@), top_cpi("token_2022"@, "transfer_checked"@))
    + cpi_if(contains(t, "token_2022 :: transfer"@), top_cpi("token_2022"@, "transfer"@))
    + cpi_if(contains(t, "token_2022 :: mint_to_checked"@), top_cpi("token_2022"@, "mint_to_checked"@))
}

/// The system-program and raw `invoke` CPIs that a statement text shows.
pub open spec fn system_cpis(t: Seq<char>) -> Seq<SpecCpiCall> {
    cpi_if(contains(t, "system_program :: transfer"@) || contains(t, "system_instruction :: transfer"@),
        top_cpi("system"@, "transfer"@))
    + (if contains(t, "invoke_signed"@) {
        seq![top_cpi("unknown"@, "invoke_signed"@)]
    } else if contains(t, "invoke"@) {
        seq![top_cpi("unknown"@, "invoke"@)]
    } else {
        seq![]
    })
}

/// The CPIs that the text of a top-level statement shows, in a fixed order.
pub open spec fn stmt_cpis(t: Seq<char>) -> Seq<SpecCpiCall> {
    token_cpis(t) + token_2022_cpis(t) + system_cpis(t)
}

/// The CPIs of all top-level statements, statement by statement.
pub open spec fn stmts_cpis(ts: Seq<Seq<char>>) -> Seq<SpecCpiCall>
    decreases ts.len(),
{
    if ts.len() == 0 {
        seq![]
    } else {
        stmts_cpis(ts.drop_last()) + stmt_cpis(ts.last())
    }
}

/// A CPI attributed to the instruction `name`.
pub open spec fn named_cpi(c: SpecCpiCall, name: Seq<char>) -> SpecCpiCall {
    SpecCpiCall { instruction_name: Some(name), ..c }
}

/// The CPIs of a function: those of its top-level statement texts, then those found in its
/// body, all attributed to the function.
pub open spec fn fn_cpis(f: FnItem) -> Seq<SpecCpiCall> {
    (stmts_cpis(f.stmt_texts.deep_view()) + stmts_facts(f.body@, empty_body_facts(), 0).cpi_calls).map_values(
        |c: SpecCpiCall| named_cpi(c, f.name@),
    )
}

/// The instruction that a function yields under `name` and `context`.
pub open spec fn fn_record(f: FnItem, file: Seq<char>, name: Seq<char>, context: Seq<char>) -> SpecFactInstruction {
    let scan = scan_events(f.events@);
    let bf = stmts_facts(f.body@, empty_body_facts(), 0);
    SpecFactInstruction {
        name,
        context,
        args: seq![],
        params: params_of(f.params@),
        accounts: seq![],
        checks: checks_of(f.stmt_texts.deep_view()),
        body_checks: scan.body_checks,
        arithmetic: scan.arithmetic,
        cpi_calls: fn_cpis(f),
        events_emitted: scan.events_emitted,
        uses_remaining_accounts: scan.uses_remaining_accounts,
        error_codes_referenced: scan.error_codes_referenced,
        pda: seq![],
        source: Some(file),
        execution_steps: bf.execution_steps,
        sol_flows: bf.sol_flows,
        token_flows: bf.token_flows,
        state_mutations: bf.state_mutations,
        set_authority_calls: bf.set_authority_calls,
        partial_lamport_flows: bf.partial_lamport_flows,
    }
}

/// A function without a context still counts when its body shows checks, arithmetic, CPIs,
/// events, error codes, state mutations or SOL or token flows.
pub open spec fn has_logic(f: FnItem) -> bool {
    let scan = scan_events(f.events@);
    let bf = stmts_facts(f.body@, empty_body_facts(), 0);
    scan.body_checks.len() > 0 || scan.arithmetic.len() > 0 || fn_cpis(f).len() > 0 || scan.events_emitted.len() > 0
        || scan.error_codes_referenced.len() > 0 || bf.state_mutations.len() > 0 || bf.sol_flows.len() > 0
        || bf.token_flows.len() > 0
}

/// The instruction a function yields, if any: a handler with a context under its own name
/// and its context struct; a helper with logic as `name (Helper)` with context `Unknown`.
pub open spec fn fn_instruction(f: FnItem, file: Seq<char>) -> Option<SpecFactInstruction> {
    if has_context(f.params@) {
        Some(fn_record(f, file, f.name@, context_name(f.params@)))
    } else if has_logic(f) {
        Some(fn_record(f, file, f.name@ + " (Helper)"@, "Unknown"@))
    } else {
        None
    }
}

} // verus!

verus! {

/// The walk over a file's items, with the facts gathered so far.
pub struct AnchorVisitor {
    pub facts: Facts,
    pub current_file: String,
}

fn push_cpi_if(v: &mut Vec<CpiCall>, b: bool, target: &str, instruction: &str)
    ensures
        final(v).deep_view() == old(v).deep_view() + cpi_if(b, top_cpi(target@, instruction@)),
{
    if b {
        push_dv(v, CpiCall {
            target: owned(target),
            instruction: owned(instruction),
            signer_seeds: None,
            from_account: None,
            to_account: None,
            nesting_depth: Some(owned("top-level")),
            instruction_name: None,
        });
    }
    assert(v.deep_view() =~= old(v).deep_view() + cpi_if(b, top_cpi(target@, instruction@)));
}

fn push_token_cpis(v: &mut Vec<CpiCall>, t: &str)
    ensures
        final(v).deep_view() == old(v).deep_view() + token_cpis(t@),
{
    push_cpi_if(v, str_contains(t, "token :: transfer"), "token", "transfer");
    push_cpi_if(v, str_contains(t, "token :: mint_to"), "token", "mint_to");
    push_cpi_if(v, str_contains(t, "token :: burn"), "token", "burn");
    assert(v.deep_view() =~= old(v).deep_view() + token_cpis(t@));
}

fn push_token_2022_cpis(v: &mut Vec<CpiCall>, t: &str)
    ensures
        final(v).deep_view() == old(v).deep_view() + token_2022_cpis(t@),
{
    push_cpi_if(v, str_contains(t, "token_2022 :: transfer_checked"), "token_2022", "transfer_checked");
    push_cpi_if(v, str_contains(t, "token_2022 :: transfer"), "token_2022", "transfer");
    push_cpi_if(v, str_contains(t, "token_2022 :: mint_to_checked"), "token_2022", "mint_to_checked");
    assert(v.deep_view() =~= old(v).deep_view() + token_2022_cpis(t@));
}

fn push_system_cpis(v: &mut Vec<CpiCall>, t: &str)
    ensures
        final(v).deep_view() == old(v).deep_view() + system_cpis(t@),
{
    push_cpi_if(v, str_contains(t, "system_program :: transfer") || str_contains(t, "system_instruction :: transfer"),
        "system", "transfer");
    let ghost before_invoke = v.deep_view();
    if str_contains(t, "invoke_signed") {
        push_cpi_if(v, true, "unknown", "invoke_signed");
    } else if str_contains(t, "invoke") {
        push_cpi_if(v, true, "unknown", "invoke");
    }
    assert(v.deep_view() =~= old(v).deep_view() + system_cpis(t@));
}

fn push_stmt_cpis(v: &mut Vec<CpiCall>, t: &str)
    ensures
        final(v).deep_view() == old(v).deep_view() + stmt_cpis(t@),
{
    push_token_cpis(v, t);
    push_token_2022_cpis(v, t);
    push_system_cpis(v, t);
    assert(v.deep_view() =~= old(v).deep_view() + stmt_cpis(t@));
}

fn copy_cpi(c: &CpiCall) -> (r: CpiCall)
    ensures
        r@ == c@,
{
    CpiCall {
        target: c.target.clone(),
        instruction: c.instruction.clone(),
        from_account: copy_opt(&c.from_account),
        to_account: copy_opt(&c.to_account),
        signer_seeds: copy_opt(&c.signer_seeds),
        nesting_depth: copy_opt(&c.nesting_depth),
        instruction_name: copy_opt(&c.instruction_name),
    }
}

fn push_named_cpis(out: &mut Vec<CpiCall>, cs: &Vec<CpiCall>, name: &String)
    ensures
        final(out).deep_view() == old(out).deep_view() + cs.deep_view().map_values(
            |c: SpecCpiCall| named_cpi(c, name@),
        ),
{
    let mut i: usize = 0;
    while i < cs.len()
        invariant
            i <= cs@.len(),
            out.deep_view() == old(out).deep_view() + cs.deep_view().subrange(0, i as int).map_values(
                |c: SpecCpiCall| named_cpi(c, name@),
            ),
        decreases cs.len() - i,
    {
        let mut c = copy_cpi(&cs[i]);
        c.instruction_name = Some(name.clone());
        push_dv(out, c);
        i = i + 1;
        assert(out.deep_view() =~= old(out).deep_view() + cs.deep_view().subrange(0, i as int).map_values(
            |c: SpecCpiCall| named_cpi(c, name@),
        ));
    }
    assert(cs.deep_view().subrange(0, i as int) =~= cs.deep_view());
}

/// The parameters of a signature: whether one is a context, the context struct, and the
/// other parameters.
fn read_params(params: &Vec<FnParam>) -> (r: (bool, String, Vec<InstructionParam>))
    ensures
        r.0 == has_context(params@),
        r.1@ == context_name(params@),
        r.2.deep_view() == params_of(params@),
{
    let mut has_ctx = false;
    proof {
        reveal_strlit("");
    }
    let mut context_name_s = owned("");
    let mut out: Vec<InstructionParam> = Vec::new();
    let mut i: usize = 0;
    while i < params.len()
        invariant
            i <= params@.len(),
            has_ctx == has_context(params@.subrange(0, i as int)),
            context_name_s@ == context_name(params@.subrange(0, i as int)),
            out.deep_view() == params_of(params@.subrange(0, i as int)),
        decreases params.len() - i,
    {
        let p = &params[i];
        proof {
            let s = params@.subrange(0, i + 1);
            assert(s.drop_last() =~= params@.subrange(0, i as int));
            assert(s.last() == *p);
        }
        let is_context = match &p.path_last {
            Some(seg) => str_eq(seg.as_str(), "Context"),
            None => false,
        };
        assert(is_context == is_context_param(*p));
        if is_context {
            has_ctx = true;
            match &p.first_generic {
                Some(g) => {
                    context_name_s = g.clone();
                },
                None => {},
            }
        } else {
            let overflow_risk = (str_contains(p.ty.as_str(), "u64") || str_contains(p.ty.as_str(), "u128")) && (
            str_contains(p.pat.as_str(), "amount") || str_contains(p.pat.as_str(), "shares") || str_contains(
                p.pat.as_str(),
                "tokens",
            ) || str_contains(p.pat.as_str(), "reward") || str_contains(p.pat.as_str(), "fee"));
            push_dv(&mut out, InstructionParam { name: p.pat.clone(), ty: p.ty.clone(), overflow_risk });
        }
        proof {
            let s = params@.subrange(0, i + 1);
            if has_context(s) {
                if !has_context(params@.subrange(0, i as int)) {
                    let k = choose|k: int| 0 <= k < s.len() && is_context_param(#[trigger] s[k]);
                    if k < i {
                        assert(params@.subrange(0, i as int)[k] == s[k]);
                    }
                }
            }
            if is_context {
                assert(is_context_param(s[i as int]));
            }
            if has_context(params@.subrange(0, i as int)) {
                let k = choose|k: int| 0 <= k < i && is_context_param(#[trigger] params@.subrange(0, i as int)[k]);
                assert(s[k] == params@.subrange(0, i as int)[k]);
            }
        }
        i = i + 1;
    }
    assert(params@.subrange(0, i as int) =~= params@);
    (has_ctx, context_name_s, out)
}

/// The checks and CPIs that the top-level statement texts show.
fn read_stmt_texts(texts: &Vec<String>) -> (r: (Vec<String>, Vec<CpiCall>))
    ensures
        r.0.deep_view() == checks_of(texts.deep_view()),
        r.1.deep_view() == stmts_cpis(texts.deep_view()),
{
    let mut checks: Vec<String> = Vec::new();
    let mut cpis: Vec<CpiCall> = Vec::new();
    let mut i: usize = 0;
    while i < texts.len()
        invariant
            i <= texts@.len(),
            checks.deep_view() == checks_of(texts.deep_view().subrange(0, i as int)),
            cpis.deep_view() == stmts_cpis(texts.deep_view().subrange(0, i as int)),
        decreases texts.len() - i,
    {
        let t = texts[i].as_str();
        proof {
            let s = texts.deep_view().subrange(0, i + 1);
            assert(s.drop_last() =~= texts.deep_view().subrange(0, i as int));
            assert(s.last() == t@);
        }
        let is_check = str_contains(t, "require ! ") || str_contains(t, "require_eq ! ") || str_contains(
            t,
            "require_keys_eq ! ",
        );
        let ghost before = checks.deep_view();
        if is_check {
            push_dv(&mut checks, texts[i].clone());
        }
        assert(checks.deep_view() =~= before + tag_if(is_check_text(t@), t@));
        push_stmt_cpis(&mut cpis, t);
        i = i + 1;
    }
    assert(texts.deep_view().subrange(0, i as int) =~= texts.deep_view());
    (checks, cpis)
}

impl AnchorVisitor {
    /// Records the instruction that a function yields (see [`fn_instruction`]).
    pub fn visit_item_fn(&mut self, i: &FnItem)
        requires
            stmts_incs(i.body@) <= usize::MAX,
        ensures
            final(self).current_file@ == old(self).current_file@,
            final(self).facts@ == (match fn_instruction(*i, old(self).current_file@) {
                Some(ix) => (SpecFacts { instructions: old(self).facts@.instructions.push(ix), ..old(self).facts@ }),
                None => old(self).facts@,
            }),
    {
        let name = &i.name;
        let (has_ctx, context_name_s, params) = read_params(&i.params);
        let (checks, top_cpis) = read_stmt_texts(&i.stmt_texts);
        let scan = scan_body(&i.events);
        let body_facts = extract_body_facts(&i.body);
        let mut cpi_calls: Vec<CpiCall> = Vec::new();
        push_named_cpis(&mut cpi_calls, &top_cpis, name);
        push_named_cpis(&mut cpi_calls, &body_facts.cpi_calls, name);
        assert(cpi_calls.deep_view() =~= fn_cpis(*i)) by {
            assert(Seq::<SpecCpiCall>::empty() + top_cpis.deep_view().map_values(|c: SpecCpiCall| named_cpi(c, name@))
                + body_facts.cpi_calls.deep_view().map_values(|c: SpecCpiCall| named_cpi(c, name@))
                =~= (top_cpis.deep_view() + body_facts.cpi_calls.deep_view()).map_values(
                |c: SpecCpiCall| named_cpi(c, name@),
            ));
        }
        let logic = scan.body_checks.len() > 0 || scan.arithmetic.len() > 0 || cpi_calls.len() > 0
            || scan.events_emitted.len() > 0 || scan.error_codes_referenced.len() > 0
            || body_facts.state_mutations.len() > 0 || body_facts.sol_flows.len() > 0
            || body_facts.token_flows.len() > 0;
        if !has_ctx && !logic {
            return;
        }
        let ix_name = if has_ctx {
            name.clone()
        } else {
            concat2(name.as_str(), " (Helper)")
        };
        let context = if has_ctx {
            context_name_s
        } else {
            owned("Unknown")
        };
        let ix = FactInstruction {
            name: ix_name,
            context,
            args: Vec::new(),
            params,
            accounts: Vec::new(),
            checks,
            body_checks: scan.body_checks,
            arithmetic: scan.arithmetic,
            cpi_calls,
            events_emitted: scan.events_emitted,
            uses_remaining_accounts: scan.uses_remaining_accounts,
            error_codes_referenced: scan.error_codes_referenced,
            pda: Vec::new(),
            source: Some(self.current_file.clone()),
            execution_steps: body_facts.execution_steps,
            sol_flows: body_facts.sol_flows,
            token_flows: body_facts.token_flows,
            state_mutations: body_facts.state_mutations,
            set_authority_calls: body_facts.set_authority_calls,
            partial_lamport_flows: body_facts.partial_lamport_flows,
        };
        assert(ix@.args =~= seq![]);
        assert(ix@.accounts =~= seq![]);
        assert(ix@.pda =~= seq![]);
        push_dv(&mut self.facts.instructions, ix);
    }
}

} // verus!

verus! {

// ---------------------------------------------------------------------------
// Structs and enums
// ---------------------------------------------------------------------------

/// A character that may stand in an identifier: alphanumeric or `_`.
pub open spec fn is_ident_char(c: char) -> bool {
    unicode_alphanumeric(c) || c == '_'
}

/// The end of the run of identifier characters starting at `i`.
pub open spec fn ident_end(s: Seq<char>, i: int) -> int
    decreases s.len() - i,
{
    if 0 <= i < s.len() && is_ident_char(s[i]) {
        ident_end(s, i + 1)
    } else {
        i
    }
}

/// The identifier at the start of `s`: the first piece of `s` split at non-identifier characters.
pub open spec fn ident_prefix(s: Seq<char>) -> Seq<char> {
    s.subrange(0, ident_end(s, 0))
}

proof fn lemma_ident_end(s: Seq<char>, i: int)
    requires
        0 <= i <= s.len(),
    ensures
        i <= ident_end(s, i) <= s.len(),
    decreases s.len() - i,
{
    if i < s.len() && is_ident_char(s[i]) {
        lemma_ident_end(s, i + 1);
    }
}

/// Takes the identifier at the start of `s`.
pub fn ident_prefix_exec(s: &[char]) -> (r: Vec<char>)
    ensures
        r@ == ident_prefix(s@),
{
    let mut i: usize = 0;
    while i < s.len() && (char_is_alphanumeric(s[i]) || s[i] == '_')
        invariant
            i <= s@.len(),
            ident_end(s@, 0) == ident_end(s@, i as int),
        decreases s.len() - i,
    {
        i = i + 1;
    }
    slice_to_vec(s, 0, i)
}

/// The names given by each `has_one = name` in a constraint text, in order.
pub open spec fn has_one_targets(t: Seq<char>) -> Seq<Seq<char>>
    decreases t.len(),
{
    match find(t, "has_one = "@) {
        Some(idx) => if 0 <= idx && idx + "has_one = "@.len() <= t.len() && "has_one = "@.len() > 0 {
            let after = t.subrange(idx + "has_one = "@.len(), t.len() as int);
            seq![ident_prefix(after)] + has_one_targets(after)
        } else {
            seq![]
        },
        None => seq![],
    }
}

/// What the `#[account(...)]` attributes of a field say.
pub struct SpecAccountAttrs {
    pub is_mut: bool,
    pub close_target: Option<Seq<char>>,
    pub has_one: Seq<Seq<char>>,
    pub constraints: Seq<Seq<char>>,
    pub attributes: Seq<char>,
}

/// The `#[account(...)]` attributes of a field read in order: each adds its text to the
/// constraints and becomes the attribute text; `mut` marks the field mutable; `close = x`
/// names the close target; each `has_one = y` adds a `has_one` target.
pub open spec fn account_attrs(attrs: Seq<Attr>) -> SpecAccountAttrs
    decreases attrs.len(),
{
    if attrs.len() == 0 {
        SpecAccountAttrs { is_mut: false, close_target: None, has_one: seq![], constraints: seq![], attributes: seq![] }
    } else {
        let prev = account_attrs(attrs.drop_last());
        let a = attrs.last();
        if a.name@ == "account"@ {
            let t = a.meta@;
            let parts = crate::text::split(t, "close = "@);
            SpecAccountAttrs {
                is_mut: prev.is_mut || contains(t, "mut"@),
                close_target: if contains(t, "close = "@) && parts.len() > 1 {
                    Some(ident_prefix(parts[1]))
                } else {
                    prev.close_target
                },
                has_one: prev.has_one + has_one_targets(t),
                constraints: prev.constraints.push(t),
                attributes: t,
            }
        } else {
            prev
        }
    }
}

/// The wrappers whose first generic argument names the account's inner type.
pub open spec fn wraps_inner(w: Seq<char>) -> bool {
    w == "Account"@ || w == "Program"@ || w == "Box"@ || w == "UncheckedAccount"@
}

/// An account field of a `#[derive(Accounts)]` struct.
pub open spec fn account_of(f: FieldItem) -> SpecInstructionAccount {
    let wrapper = f.path_last.deep_view();
    let attrs = account_attrs(f.attrs@);
    SpecInstructionAccount {
        name: f.name@,
        type_info: f.ty@,
        is_mut: attrs.is_mut,
        is_signer: wrapper == Some("Signer"@),
        constraints: attrs.constraints,
        attributes: attrs.attributes,
        wrapper_type: wrapper,
        inner_type: match wrapper {
            Some(w) => if wraps_inner(w) && f.generic_paths@.len() > 0 {
                Some(f.generic_paths@[0]@)
            } else {
                None
            },
            None => None,
        },
        unchecked: wrapper == Some("UncheckedAccount"@) || wrapper == Some("AccountInfo"@),
        has_one: attrs.has_one,
        close_target: attrs.close_target,
    }
}

/// The named fields of a struct, none when they are not named.
pub open spec fn struct_fields(s: StructItem) -> Seq<FieldItem> {
    match s.fields {
        Some(fs) => fs@,
        None => seq![],
    }
}

/// A `#[derive(Accounts)]` struct.
pub open spec fn is_accounts_struct(attrs: Seq<Attr>) -> bool {
    exists|k: int| 0 <= k < attrs.len() && (#[trigger] attrs[k]).name@ == "derive"@ && contains(attrs[k].text@, "Accounts"@)
}

/// An `#[account]` data struct.
pub open spec fn is_data_struct(attrs: Seq<Attr>) -> bool {
    exists|k: int| 0 <= k < attrs.len() && (#[trigger] attrs[k]).name@ == "account"@
}

/// The texts of the `#[account...]` attributes, in order.
pub open spec fn account_attr_texts(attrs: Seq<Attr>) -> Seq<Seq<char>>
    decreases attrs.len(),
{
    if attrs.len() == 0 {
        seq![]
    } else {
        account_attr_texts(attrs.drop_last()) + tag_if(attrs.last().name@ == "account"@, attrs.last().text@)
    }
}

/// A field of a data struct with its tags.
pub open spec fn data_field_of(f: FieldItem) -> SpecDataStructField {
    SpecDataStructField {
        name: f.name@,
        ty: f.ty@,
        tags: field_tags(unicode_lowercase(f.name@), unicode_lowercase(f.ty@)),
    }
}

/// An instruction whose context is `name` gets the accounts `accs`.
pub open spec fn link_accounts(ix: SpecFactInstruction, name: Seq<char>, accs: Seq<SpecInstructionAccount>) -> SpecFactInstruction {
    if ix.context == name {
        SpecFactInstruction { accounts: accs, ..ix }
    } else {
        ix
    }
}

/// What a struct adds to the facts: an accounts struct links its accounts to the instructions
/// with it as context and is listed among the accounts; an `#[account]` data struct that is
/// not an accounts struct is listed among the data structs with tagged fields.
pub open spec fn struct_facts(f: SpecFacts, s: StructItem) -> SpecFacts {
    let accs = struct_fields(s).map_values(|fi: FieldItem| account_of(fi));
    let is_accounts = is_accounts_struct(s.attrs@);
    let f1 = if is_accounts {
        SpecFacts {
            instructions: f.instructions.map_values(|ix: SpecFactInstruction| link_accounts(ix, s.name@, accs)),
            accounts: f.accounts.push(SpecFactAccount {
                name: s.name@,
                fields: accs.map_values(|a: SpecInstructionAccount| SpecInstructionArg { name: a.name, type_info: a.type_info }),
            }),
            ..f
        }
    } else {
        f
    };
    if is_data_struct(s.attrs@) && !is_accounts {
        SpecFacts {
            data_structs: f1.data_structs.push(SpecFactDataStruct {
                name: s.name@,
                fields: struct_fields(s).map_values(|fi: FieldItem| data_field_of(fi)),
                attributes: account_attr_texts(s.attrs@),
            }),
            ..f1
        }
    } else {
        f1
    }
}

/// The message of an error variant: the text of its first `#[msg]` attribute, or its name.
pub open spec fn variant_msg_from(attrs: Seq<Attr>, i: int, name: Seq<char>) -> Seq<char>
    decreases attrs.len() - i,
{
    if i < 0 || i >= attrs.len() {
        name
    } else if attrs[i].name@ == "msg"@ {
        attrs[i].text@
    } else {
        variant_msg_from(attrs, i + 1, name)
    }
}

/// What an enum adds to the facts: an `#[error_code]` enum lists each variant as an error.
pub open spec fn enum_facts(f: SpecFacts, e: EnumItem) -> SpecFacts {
    if exists|k: int| 0 <= k < e.attrs@.len() && (#[trigger] e.attrs@[k]).name@ == "error_code"@ {
        SpecFacts {
            errors: f.errors + e.variants@.map_values(|v: crate::syntax::VariantItem| SpecFactError {
                code: v.name@,
                msg: variant_msg_from(v.attrs@, 0, v.name@),
            }),
            ..f
        }
    } else {
        f
    }
}

/// What a macro adds to the facts: `declare_id!` sets the program id to its trimmed,
/// unquoted text when that is not empty.
pub open spec fn macro_facts(f: SpecFacts, m: MacroItem) -> SpecFacts {
    let id = trim(trim(m.tokens@, None), Some('"'));
    if m.name@ == "declare_id"@ && id.len() > 0 {
        SpecFacts { program_id: Some(id), ..f }
    } else {
        f
    }
}

} // verus!

verus! {

/// The `has_one` targets of a constraint text.
pub fn has_one_exec(t: &str) -> (r: Vec<String>)
    ensures
        r.deep_view() == has_one_targets(t@),
{
    proof {
        reveal_strlit("has_one = ");
    }
    let pat = chars_of("has_one = ");
    let mut cur: Vec<char> = chars_of(t);
    let mut out: Vec<String> = Vec::new();
    assert(pat@.len() == 10);
    loop
        invariant
            pat@ == "has_one = "@,
            pat@.len() == 10,
            out.deep_view() + has_one_targets(cur@) == has_one_targets(t@),
        decreases cur@.len(),
    {
        let ghost prev = out.deep_view();
        match crate::text::find_exec(&cur, &pat) {
            Some(idx) => {
                proof {
                    crate::text::lemma_find_from(cur@, pat@, 0);
                }
                let after = slice_to_vec(&cur, idx + 10, cur.len());
                let name = ident_prefix_exec(&after);
                push_dv(&mut out, crate::std_text::string_from_chars(&name));
                assert(out.deep_view() + has_one_targets(after@) =~= prev + has_one_targets(cur@));
                cur = after;
            },
            None => {
                assert(out.deep_view() =~= prev + has_one_targets(cur@));
                return out;
            },
        }
    }
}

/// What the `#[account(...)]` attributes of a field say.
fn read_account_attrs(attrs: &Vec<Attr>) -> (r: (bool, Option<String>, Vec<String>, Vec<String>, String))
    ensures
        r.0 == account_attrs(attrs@).is_mut,
        r.1.deep_view() == account_attrs(attrs@).close_target,
        r.2.deep_view() == account_attrs(attrs@).has_one,
        r.3.deep_view() == account_attrs(attrs@).constraints,
        r.4@ == account_attrs(attrs@).attributes,
{
    proof {
        reveal_strlit("");
        reveal_strlit("close = ");
    }
    let mut is_mut = false;
    let mut close_target: Option<String> = None;
    let mut has_one: Vec<String> = Vec::new();
    let mut constraints: Vec<String> = Vec::new();
    let mut attributes = owned("");
    assert(has_one.deep_view() =~= seq![]);
    assert(constraints.deep_view() =~= seq![]);
    assert(attributes@ =~= seq![]);
    let mut i: usize = 0;
    while i < attrs.len()
        invariant
            i <= attrs@.len(),
            is_mut == account_attrs(attrs@.subrange(0, i as int)).is_mut,
            close_target.deep_view() == account_attrs(attrs@.subrange(0, i as int)).close_target,
            has_one.deep_view() == account_attrs(attrs@.subrange(0, i as int)).has_one,
            constraints.deep_view() == account_attrs(attrs@.subrange(0, i as int)).constraints,
            attributes@ == account_attrs(attrs@.subrange(0, i as int)).attributes,
        decreases attrs.len() - i,
    {
        let a = &attrs[i];
        proof {
            let s = attrs@.subrange(0, i + 1);
            assert(s.drop_last() =~= attrs@.subrange(0, i as int));
            assert(s.last() == *a);
        }
        if str_eq(a.name.as_str(), "account") {
            let t = a.meta.as_str();
            attributes = a.meta.clone();
            push_dv(&mut constraints, a.meta.clone());
            if str_contains(t, "mut") {
                is_mut = true;
            }
            if str_contains(t, "close = ") {
                proof {
                    reveal_strlit("close = ");
                }
                let parts = crate::text::str_split(t, "close = ");
                if parts.len() > 1 {
                    assert(parts@[1]@ == parts.deep_view()[1]);
                    let pv = chars_of(parts[1].as_str());
                    let name = ident_prefix_exec(&pv);
                    close_target = Some(crate::std_text::string_from_chars(&name));
                }
            }
            let targets = has_one_exec(t);
            let mut j: usize = 0;
            let ghost before = has_one.deep_view();
            while j < targets.len()
                invariant
                    j <= targets@.len(),
                    has_one.deep_view() == before + targets.deep_view().subrange(0, j as int),
                decreases targets.len() - j,
            {
                push_dv(&mut has_one, targets[j].clone());
                j = j + 1;
                assert(has_one.deep_view() =~= before + targets.deep_view().subrange(0, j as int));
            }
            assert(targets.deep_view().subrange(0, j as int) =~= targets.deep_view());
        }
        i = i + 1;
    }
    assert(attrs@.subrange(0, i as int) =~= attrs@);
    (is_mut, close_target, has_one, constraints, attributes)
}

/// Reads an account field of a `#[derive(Accounts)]` struct.
pub fn read_account_field(f: &FieldItem) -> (r: InstructionAccount)
    ensures
        r@ == account_of(*f),
{
    let (is_mut, close_target, has_one, constraints, attributes) = read_account_attrs(&f.attrs);
    let mut is_signer = false;
    let mut inner_type: Option<String> = None;
    let mut unchecked = false;
    match &f.path_last {
        Some(w) => {
            let ws = w.as_str();
            is_signer = str_eq(ws, "Signer");
            if (str_eq(ws, "Account") || str_eq(ws, "Program") || str_eq(ws, "Box") || str_eq(ws, "UncheckedAccount"))
                && f.generic_paths.len() > 0 {
                inner_type = Some(f.generic_paths[0].clone());
            }
            unchecked = str_eq(ws, "UncheckedAccount") || str_eq(ws, "AccountInfo");
        },
        None => {},
    }
    InstructionAccount {
        name: f.name.clone(),
        type_info: f.ty.clone(),
        is_mut,
        is_signer,
        constraints,
        attributes,
        wrapper_type: copy_opt(&f.path_last),
        inner_type,
        unchecked,
        has_one,
        close_target,
    }
}

/// A copy of an account.
pub fn copy_account(a: &InstructionAccount) -> (r: InstructionAccount)
    ensures
        r@ == a@,
{
    InstructionAccount {
        name: a.name.clone(),
        type_info: a.type_info.clone(),
        is_mut: a.is_mut,
        is_signer: a.is_signer,
        constraints: copy_strings(&a.constraints),
        attributes: a.attributes.clone(),
        wrapper_type: copy_opt(&a.wrapper_type),
        inner_type: copy_opt(&a.inner_type),
        unchecked: a.unchecked,
        has_one: copy_strings(&a.has_one),
        close_target: copy_opt(&a.close_target),
    }
}

/// A copy of a list of accounts.
pub fn copy_accounts(v: &Vec<InstructionAccount>) -> (r: Vec<InstructionAccount>)
    ensures
        r.deep_view() == v.deep_view(),
{
    let mut out: Vec<InstructionAccount> = Vec::new();
    let mut i: usize = 0;
    while i < v.len()
        invariant
            i <= v@.len(),
            out.deep_view() == v.deep_view().subrange(0, i as int),
        decreases v.len() - i,
    {
        push_dv(&mut out, copy_account(&v[i]));
        i = i + 1;
        assert(out.deep_view() =~= v.deep_view().subrange(0, i as int));
    }
    assert(v.deep_view().subrange(0, i as int) =~= v.deep_view());
    out
}

} // verus!

verus! {

fn link_instruction_accounts(ixs: &mut Vec<FactInstruction>, name: &str, accs: &Vec<InstructionAccount>)
    ensures
        final(ixs).deep_view() == old(ixs).deep_view().map_values(
            |ix: SpecFactInstruction| link_accounts(ix, name@, accs.deep_view()),
        ),
{
    let ghost orig = ixs.deep_view();
    let mut k: usize = 0;
    while k < ixs.len()
        invariant
            k <= ixs@.len(),
            ixs@.len() == orig.len(),
            forall|j: int| 0 <= j < k ==> (#[trigger] ixs@[j])@ == link_accounts(orig[j], name@, accs.deep_view()),
            forall|j: int| k <= j < ixs@.len() ==> (#[trigger] ixs@[j])@ == orig[j],
        decreases ixs.len() - k,
    {
        assert(ixs@[k as int]@ == orig[k as int]);
        if str_eq(ixs[k].context.as_str(), name) {
            let copy = copy_accounts(accs);
            ixs[k].accounts = copy;
        }
        k = k + 1;
    }
    assert(ixs.deep_view() =~= orig.map_values(|ix: SpecFactInstruction| link_accounts(ix, name@, accs.deep_view())));
}

} // verus!

verus! {

fn attrs_have(attrs: &Vec<Attr>, name: &str, marker: Option<&str>) -> (r: bool)
    ensures
        r == exists|k: int| 0 <= k < attrs@.len() && (#[trigger] attrs@[k]).name@ == name@ && match marker {
            Some(m) => contains(attrs@[k].text@, m@),
            None => true,
        },
{
    let mut i: usize = 0;
    while i < attrs.len()
        invariant
            i <= attrs@.len(),
            forall|k: int| 0 <= k < i ==> !((#[trigger] attrs@[k]).name@ == name@ && match marker {
                Some(m) => contains(attrs@[k].text@, m@),
                None => true,
            }),
        decreases attrs.len() - i,
    {
        let a = &attrs[i];
        let hit = str_eq(a.name.as_str(), name) && match marker {
            Some(m) => str_contains(a.text.as_str(), m),
            None => true,
        };
        if hit {
            return true;
        }
        i = i + 1;
    }
    false
}

fn read_accounts_fields(i: &StructItem) -> (r: Vec<InstructionAccount>)
    ensures
        r.deep_view() == struct_fields(*i).map_values(|fi: FieldItem| account_of(fi)),
{
    let mut out: Vec<InstructionAccount> = Vec::new();
    match &i.fields {
        Some(fs) => {
            let mut k: usize = 0;
            while k < fs.len()
                invariant
                    k <= fs@.len(),
                    out.deep_view().len() == k,
                    forall|j: int| 0 <= j < k ==> #[trigger] out.deep_view()[j] == account_of(fs@[j]),
                decreases fs.len() - k,
            {
                push_dv(&mut out, read_account_field(&fs[k]));
                k = k + 1;
            }
            assert(out.deep_view() =~= fs@.map_values(|fi: FieldItem| account_of(fi)));
        },
        None => {
            assert(out.deep_view() =~= struct_fields(*i).map_values(|fi: FieldItem| account_of(fi)));
        },
    }
    out
}

fn account_args(accs: &Vec<InstructionAccount>) -> (r: Vec<InstructionArg>)
    ensures
        r.deep_view() == accs.deep_view().map_values(
            |a: SpecInstructionAccount| SpecInstructionArg { name: a.name, type_info: a.type_info },
        ),
{
    let mut out: Vec<InstructionArg> = Vec::new();
    let mut k: usize = 0;
    while k < accs.len()
        invariant
            k <= accs@.len(),
            out.deep_view() == accs.deep_view().subrange(0, k as int).map_values(
                |a: SpecInstructionAccount| SpecInstructionArg { name: a.name, type_info: a.type_info },
            ),
        decreases accs.len() - k,
    {
        push_dv(&mut out, InstructionArg { name: accs[k].name.clone(), type_info: accs[k].type_info.clone() });
        k = k + 1;
        assert(out.deep_view() =~= accs.deep_view().subrange(0, k as int).map_values(
            |a: SpecInstructionAccount| SpecInstructionArg { name: a.name, type_info: a.type_info },
        ));
    }
    assert(accs.deep_view().subrange(0, k as int) =~= accs.deep_view());
    out
}

fn read_data_field(f: &FieldItem) -> (r: DataStructField)
    ensures
        r@ == data_field_of(*f),
{
    let tags = auto_tag_field(f.name.as_str(), f.ty.as_str());
    DataStructField { name: f.name.clone(), ty: f.ty.clone(), tags }
}

fn read_data_fields(i: &StructItem) -> (r: Vec<DataStructField>)
    ensures
        r.deep_view() == struct_fields(*i).map_values(|fi: FieldItem| data_field_of(fi)),
{
    let mut out: Vec<DataStructField> = Vec::new();
    match &i.fields {
        Some(fs) => {
            let mut k: usize = 0;
            while k < fs.len()
                invariant
                    k <= fs@.len(),
                    out.deep_view().len() == k,
                    forall|j: int| 0 <= j < k ==> #[trigger] out.deep_view()[j] == data_field_of(fs@[j]),
                decreases fs.len() - k,
            {
                push_dv(&mut out, read_data_field(&fs[k]));
                k = k + 1;
            }
            assert(out.deep_view() =~= fs@.map_values(|fi: FieldItem| data_field_of(fi)));
        },
        None => {
            assert(out.deep_view() =~= struct_fields(*i).map_values(|fi: FieldItem| data_field_of(fi)));
        },
    }
    out
}

fn account_attribute_texts(attrs: &Vec<Attr>) -> (r: Vec<String>)
    ensures
        r.deep_view() == account_attr_texts(attrs@),
{
    let mut out: Vec<String> = Vec::new();
    let mut k: usize = 0;
    while k < attrs.len()
        invariant
            k <= attrs@.len(),
            out.deep_view() == account_attr_texts(attrs@.subrange(0, k as int)),
        decreases attrs.len() - k,
    {
        proof {
            let s = attrs@.subrange(0, k + 1);
            assert(s.drop_last() =~= attrs@.subrange(0, k as int));
            assert(s.last() == attrs@[k as int]);
        }
        let ghost before = out.deep_view();
        if str_eq(attrs[k].name.as_str(), "account") {
            push_dv(&mut out, attrs[k].text.clone());
        }
        assert(out.deep_view() =~= before + tag_if(attrs@[k as int].name@ == "account"@, attrs@[k as int].text@));
        k = k + 1;
    }
    assert(attrs@.subrange(0, k as int) =~= attrs@);
    out
}

fn variant_msg(attrs: &Vec<Attr>, name: &String) -> (r: String)
    ensures
        r@ == variant_msg_from(attrs@, 0, name@),
{
    let mut i: usize = 0;
    while i < attrs.len()
        invariant
            i <= attrs@.len(),
            variant_msg_from(attrs@, 0, name@) == variant_msg_from(attrs@, i as int, name@),
        decreases attrs.len() - i,
    {
        if str_eq(attrs[i].name.as_str(), "msg") {
            return attrs[i].text.clone();
        }
        i = i + 1;
    }
    name.clone()
}

impl AnchorVisitor {
    /// Records what a struct adds to the facts (see [`struct_facts`]).
    pub fn visit_item_struct(&mut self, i: &StructItem)
        ensures
            final(self).current_file@ == old(self).current_file@,
            final(self).facts@ == struct_facts(old(self).facts@, *i),
    {
        let name = &i.name;
        let is_accounts = attrs_have(&i.attrs, "derive", Some("Accounts"));
        let is_data_account = attrs_have(&i.attrs, "account", None);
        assert(is_accounts == is_accounts_struct(i.attrs@));
        assert(is_data_account == is_data_struct(i.attrs@));
        if is_accounts {
            let fields = read_accounts_fields(i);
            link_instruction_accounts(&mut self.facts.instructions, name.as_str(), &fields);
            let args = account_args(&fields);
            push_dv(&mut self.facts.accounts, FactAccount { name: name.clone(), fields: args });
        }
        if is_data_account && !is_accounts {
            let data_fields = read_data_fields(i);
            let attributes = account_attribute_texts(&i.attrs);
            push_dv(&mut self.facts.data_structs, FactDataStruct { name: name.clone(), fields: data_fields, attributes });
        }
    }

    /// Records the variants of an `#[error_code]` enum as errors.
    pub fn visit_item_enum(&mut self, i: &EnumItem)
        ensures
            final(self).current_file@ == old(self).current_file@,
            final(self).facts@ == enum_facts(old(self).facts@, *i),
    {
        let is_error = attrs_have(&i.attrs, "error_code", None);
        if is_error {
            let ghost before = self.facts.errors.deep_view();
            let mut k: usize = 0;
            while k < i.variants.len()
                invariant
                    k <= i.variants@.len(),
                    self.current_file@ == old(self).current_file@,
                    self.facts@ == (SpecFacts { errors: self.facts@.errors, ..old(self).facts@ }),
                    self.facts.errors.deep_view() == before + i.variants@.subrange(0, k as int).map_values(
                        |v: crate::syntax::VariantItem| SpecFactError { code: v.name@, msg: variant_msg_from(v.attrs@, 0, v.name@) },
                    ),
                decreases i.variants.len() - k,
            {
                let v = &i.variants[k];
                let msg = variant_msg(&v.attrs, &v.name);
                push_dv(&mut self.facts.errors, FactError { code: v.name.clone(), msg });
                k = k + 1;
                assert(self.facts.errors.deep_view() =~= before + i.variants@.subrange(0, k as int).map_values(
                    |v: crate::syntax::VariantItem| SpecFactError { code: v.name@, msg: variant_msg_from(v.attrs@, 0, v.name@) },
                ));
            }
            assert(i.variants@.subrange(0, k as int) =~= i.variants@);
        }
    }

    /// Records the program id of a `declare_id!` macro.
    pub fn visit_macro(&mut self, m: &MacroItem)
        ensures
            final(self).current_file@ == old(self).current_file@,
            final(self).facts@ == macro_facts(old(self).facts@, *m),
    {
        if str_eq(m.name.as_str(), "declare_id") {
            let trimmed = str_trim(m.tokens.as_str(), None);
            let program_id = str_trim(trimmed.as_str(), Some('"'));
            if char_len(program_id.as_str()) > 0 {
                self.facts.program_id = Some(program_id);
            }
        }
    }
}

} // verus!

verus! {

// ---------------------------------------------------------------------------
// Files
// ---------------------------------------------------------------------------

/// What one item of a file adds to the facts.
pub open spec fn item_facts(f: SpecFacts, item: SourceItem, file: Seq<char>) -> SpecFacts {
    match item {
        SourceItem::Function(fi) => match fn_instruction(fi, file) {
            Some(ix) => SpecFacts { instructions: f.instructions.push(ix), ..f },
            None => f,
        },
        SourceItem::Struct(s) => struct_facts(f, s),
        SourceItem::Enum(e) => enum_facts(f, e),
        SourceItem::Macro(m) => macro_facts(f, m),
    }
}

/// What the items of a file add to the facts, in walk order.
pub open spec fn items_facts(f: SpecFacts, items: Seq<SourceItem>, file: Seq<char>) -> SpecFacts
    decreases items.len(),
{
    if items.len() == 0 {
        f
    } else {
        item_facts(items_facts(f, items.drop_last(), file), items.last(), file)
    }
}

/// Every function body of the items numbers its steps within `usize`.
pub open spec fn items_within_limits(items: Seq<SourceItem>) -> bool {
    forall|k: int| 0 <= k < items.len() ==> match #[trigger] items[k] {
        SourceItem::Function(fi) => stmts_incs(fi.body@) <= usize::MAX,
        _ => true,
    }
}

/// Whether every function body of the items numbers its steps within `usize`.
pub fn check_items_within_limits(items: &Vec<SourceItem>) -> (r: bool)
    ensures
        r == items_within_limits(items@),
{
    let mut i: usize = 0;
    while i < items.len()
        invariant
            i <= items@.len(),
            forall|k: int| 0 <= k < i ==> match #[trigger] items@[k] {
                SourceItem::Function(fi) => stmts_incs(fi.body@) <= usize::MAX,
                _ => true,
            },
        decreases items.len() - i,
    {
        match &items[i] {
            SourceItem::Function(fi) => {
                if crate::flow_extractor::stmts_step_count(&fi.body).is_none() {
                    return false;
                }
            },
            _ => {},
        }
        i = i + 1;
    }
    true
}

/// Adds to `facts` what the items of the file at `file_path` show, in walk order:
/// instructions from functions, accounts and data structs from structs, errors from
/// `#[error_code]` enums and the program id from `declare_id!`.
pub fn process_file_items(items: &Vec<SourceItem>, file_path: &str, facts: &mut Facts)
    requires
        items_within_limits(items@),
    ensures
        final(facts)@ == items_facts(old(facts)@, items@, file_path@),
{
    let mut taken = empty_facts_value();
    std::mem::swap(facts, &mut taken);
    let mut visitor = AnchorVisitor { facts: taken, current_file: owned(file_path) };
    let mut i: usize = 0;
    while i < items.len()
        invariant
            i <= items@.len(),
            items_within_limits(items@),
            visitor.current_file@ == file_path@,
            visitor.facts@ == items_facts(old(facts)@, items@.subrange(0, i as int), file_path@),
        decreases items.len() - i,
    {
        proof {
            let s = items@.subrange(0, i + 1);
            assert(s.drop_last() =~= items@.subrange(0, i as int));
            assert(s.last() == items@[i as int]);
        }
        match &items[i] {
            SourceItem::Function(fi) => {
                assert(items@[i as int] matches SourceItem::Function(g) && g == *fi);
                visitor.visit_item_fn(fi);
            },
            SourceItem::Struct(s) => visitor.visit_item_struct(s),
            SourceItem::Enum(e) => visitor.visit_item_enum(e),
            SourceItem::Macro(m) => visitor.visit_macro(m),
        }
        i = i + 1;
    }
    assert(items@.subrange(0, i as int) =~= items@);
    *facts = visitor.facts;
}

/// Facts with nothing in them but an empty program name.
pub open spec fn spec_empty_facts(program: Seq<char>) -> SpecFacts {
    SpecFacts {
        program,
        program_id: None,
        instructions: seq![],
        accounts: seq![],
        data_structs: seq![],
        errors: seq![],
        cpi_calls: seq![],
        risk_signals: seq![],
        flags: seq![],
    }
}

fn empty_facts_value() -> (r: Facts)
    ensures
        r@ == spec_empty_facts(seq![]),
{
    proof {
        reveal_strlit("");
    }
    assert(""@ =~= Seq::<char>::empty());
    Facts::named("")
}

impl Facts {
    /// Facts about the program `program`, with nothing found yet.
    pub fn named(program: &str) -> (r: Facts)
        ensures
            r@ == spec_empty_facts(program@),
    {
        let r = Facts {
            program: owned(program),
            program_id: None,
            instructions: Vec::new(),
            accounts: Vec::new(),
            data_structs: Vec::new(),
            errors: Vec::new(),
            cpi_calls: Vec::new(),
            risk_signals: Vec::new(),
            flags: Vec::new(),
        };
        assert(r@.instructions =~= seq![]);
        assert(r@.accounts =~= seq![]);
        assert(r@.data_structs =~= seq![]);
        assert(r@.errors =~= seq![]);
        assert(r@.cpi_calls =~= seq![]);
        assert(r@.risk_signals =~= seq![]);
        assert(r@.flags =~= seq![]);
        r
    }
}

} // verus!
