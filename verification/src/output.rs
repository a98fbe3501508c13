//! Names and order of the per-instruction fact files.
use vstd::prelude::*;

use crate::seqs::push_dv;
use crate::std_text::ascii_lower;
use crate::text::{chars_of, concat4, decimal, owned, padded_decimal, trim, trim_exec, zero_pad};
use crate::types::{Facts, SpecFactInstruction};

verus! {

/// An ASCII letter or digit (`char::is_ascii_alphanumeric`).
pub open spec fn is_ascii_alnum(c: char) -> bool {
    ('0' <= c <= '9') || ('a' <= c <= 'z') || ('A' <= c <= 'Z')
}

/// A character of a file name: a lower-cased ASCII letter or digit, or `_` for anything else.
pub open spec fn safe_char(c: char) -> char {
    if is_ascii_alnum(c) {
        ascii_lower(c)
    } else {
        '_'
    }
}

/// `s` with each character made safe and each run of `_` collapsed to one.
pub open spec fn collapse(s: Seq<char>) -> Seq<char>
    decreases s.len(),
{
    if s.len() == 0 {
        seq![]
    } else {
        let prev = collapse(s.drop_last());
        let c = safe_char(s.last());
        if c == '_' && prev.len() > 0 && prev.last() == '_' {
            prev
        } else {
            prev.push(c)
        }
    }
}

/// A file-name-safe form of an instruction name: ASCII letters and digits lower-cased,
/// everything else `_`, runs of `_` collapsed, leading and trailing `_` removed, and
/// `instruction` when nothing is left.
pub open spec fn sanitized(name: Seq<char>) -> Seq<char> {
    let t = trim(collapse(name), Some('_'));
    if t.len() == 0 {
        "instruction"@
    } else {
        t
    }
}

fn is_ascii_alnum_exec(c: char) -> (r: bool)
    ensures
        r == is_ascii_alnum(c),
{
    ('0' <= c && c <= '9') || ('a' <= c && c <= 'z') || ('A' <= c && c <= 'Z')
}

fn safe_char_exec(c: char) -> (r: char)
    ensures
        r == safe_char(c),
{
    if is_ascii_alnum_exec(c) {
        if 'A' <= c && c <= 'Z' {
            ((c as u8) + 32) as char
        } else {
            c
        }
    } else {
        '_'
    }
}

/// Makes an instruction name safe for a file name (see [`sanitized`]).
pub fn sanitize_instruction_name(name: &str) -> (r: String)
    ensures
        r@ == sanitized(name@),
{
    let cs = chars_of(name);
    let mut out: Vec<char> = Vec::new();
    let mut last_was_underscore = false;
    let mut i: usize = 0;
    while i < cs.len()
        invariant
            i <= cs@.len(),
            cs@ == name@,
            out@ == collapse(cs@.subrange(0, i as int)),
            last_was_underscore == (out@.len() > 0 && out@.last() == '_'),
        decreases cs.len() - i,
    {
        proof {
            let s = cs@.subrange(0, i + 1);
            assert(s.drop_last() =~= cs@.subrange(0, i as int));
        }
        let safe = safe_char_exec(cs[i]);
        if safe == '_' {
            if !last_was_underscore {
                out.push('_');
            }
            last_was_underscore = true;
        } else {
            out.push(safe);
            last_was_underscore = false;
        }
        i = i + 1;
    }
    assert(cs@.subrange(0, i as int) =~= cs@);
    let trimmed = trim_exec(&out, Some('_'));
    if trimmed.len() == 0 {
        owned("instruction")
    } else {
        crate::std_text::string_from_chars(&trimmed)
    }
}

/// The width of the order numbers in fact-file names: the digits of the instruction count,
/// at least two.
pub open spec fn split_width(n: nat) -> nat {
    if decimal(n).len() > 2 {
        decimal(n).len()
    } else {
        2
    }
}

/// The name of the fact file of the instruction at position `order`.
pub open spec fn split_file_name(order: nat, width: nat, name: Seq<char>) -> Seq<char> {
    zero_pad(decimal(order), width) + "_"@ + sanitized(name) + ".json"@
}

/// An entry of the fact-file index.
#[derive(Debug, Clone, PartialEq)]
pub struct SplitFactsEntry {
    pub order: usize,
    pub instruction: String,
    pub context: String,
    pub file: String,
}

/// The model of [`SplitFactsEntry`].
pub struct SpecSplitFactsEntry {
    pub order: usize,
    pub instruction: Seq<char>,
    pub context: Seq<char>,
    pub file: Seq<char>,
}

impl View for SplitFactsEntry {
    type V = SpecSplitFactsEntry;

    open spec fn view(&self) -> SpecSplitFactsEntry {
        SpecSplitFactsEntry {
            order: self.order,
            instruction: self.instruction@,
            context: self.context@,
            file: self.file@,
        }
    }
}

impl DeepView for SplitFactsEntry {
    type V = SpecSplitFactsEntry;

    open spec fn deep_view(&self) -> SpecSplitFactsEntry {
        self.view()
    }
}

/// The index entry of instruction `ix` at position `k` (counted from 0) of `n` instructions.
pub open spec fn split_entry(k: int, n: nat, ix: SpecFactInstruction) -> SpecSplitFactsEntry {
    SpecSplitFactsEntry {
        order: (k + 1) as usize,
        instruction: ix.name,
        context: ix.context,
        file: split_file_name((k + 1) as nat, split_width(n), ix.name),
    }
}

/// The fact-file index: each instruction numbered from 1, with its file name.
pub open spec fn split_entries(ixs: Seq<SpecFactInstruction>) -> Seq<SpecSplitFactsEntry> {
    Seq::new(ixs.len(), |k: int| split_entry(k, ixs.len(), ixs[k]))
}

/// The width of order numbers for `n` instructions.
pub fn split_width_exec(n: usize) -> (r: usize)
    ensures
        r == split_width(n as nat),
{
    let digits = crate::text::decimal_chars(n);
    if digits.len() > 2 {
        digits.len()
    } else {
        2
    }
}

/// The fact-file name of the instruction at position `order`.
pub fn split_file_name_exec(order: usize, width: usize, name: &str) -> (r: String)
    ensures
        r@ == split_file_name(order as nat, width as nat, name@),
{
    let number = padded_decimal(order, width);
    let safe = sanitize_instruction_name(name);
    concat4(number.as_str(), "_", safe.as_str(), ".json")
}

/// The fact-file index of the facts' instructions, in order.
pub fn split_index_entries(facts: &Facts) -> (r: Vec<SplitFactsEntry>)
    ensures
        r.deep_view() == split_entries(facts@.instructions),
{
    let n = facts.instructions.len();
    let width = split_width_exec(n);
    let mut out: Vec<SplitFactsEntry> = Vec::new();
    let mut k: usize = 0;
    while k < n
        invariant
            n == facts.instructions@.len(),
            width == split_width(n as nat),
            k <= n,
            out.deep_view().len() == k,
            forall|j: int| 0 <= j < k ==> #[trigger] out.deep_view()[j] == split_entry(j, n as nat, facts@.instructions[j]),
        decreases n - k,
    {
        let ix = &facts.instructions[k];
        let order = k + 1;
        let file = split_file_name_exec(order, width, ix.name.as_str());
        push_dv(&mut out, SplitFactsEntry { order, instruction: ix.name.clone(), context: ix.context.clone(), file });
        k = k + 1;
    }
    assert(out.deep_view() =~= split_entries(facts@.instructions));
    out
}

} // verus!
