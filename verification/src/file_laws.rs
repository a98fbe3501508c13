//! What walking a file's items keeps and records.
use vstd::prelude::*;

use crate::rust_parser::{enum_facts, fn_instruction, item_facts, items_facts, variant_msg_from};
use crate::syntax::{EnumItem, SourceItem, VariantItem};
use crate::types::{SpecFactError, SpecFactInstruction, SpecFacts};

verus! {

/// `b` is the instruction `a`, but for its accounts.
pub open spec fn same_but_accounts(a: SpecFactInstruction, b: SpecFactInstruction) -> bool {
    b == (SpecFactInstruction { accounts: b.accounts, ..a })
}

/// `b` keeps each instruction of `a` in its place, but for its accounts.
pub open spec fn instructions_kept(a: Seq<SpecFactInstruction>, b: Seq<SpecFactInstruction>) -> bool {
    &&& a.len() <= b.len()
    &&& forall|j: int| 0 <= j < a.len() ==> same_but_accounts(#[trigger] a[j], b[j])
}

/// `b` starts with `a`.
pub open spec fn errors_kept(a: Seq<SpecFactError>, b: Seq<SpecFactError>) -> bool {
    a.len() <= b.len() && b.subrange(0, a.len() as int) == a
}

/// The errors that the variants of enum `e` give, in declaration order.
pub open spec fn variant_errors(e: EnumItem) -> Seq<SpecFactError> {
    e.variants@.map_values(|w: VariantItem| SpecFactError { code: w.name@, msg: variant_msg_from(w.attrs@, 0, w.name@) })
}

/// `es` stands in `errs` from position `o` on.
pub open spec fn errors_listed_at(errs: Seq<SpecFactError>, o: int, es: Seq<SpecFactError>) -> bool {
    &&& 0 <= o
    &&& o + es.len() <= errs.len()
    &&& errs.subrange(o, o + es.len()) == es
}

/// An enum marked `#[error_code]`.
pub open spec fn is_error_enum(e: EnumItem) -> bool {
    exists|a: int| 0 <= a < e.attrs@.len() && (#[trigger] e.attrs@[a]).name@ == "error_code"@
}

proof fn lemma_item_facts(f: SpecFacts, item: SourceItem, file: Seq<char>)
    ensures
        instructions_kept(f.instructions, item_facts(f, item, file).instructions),
        errors_kept(f.errors, item_facts(f, item, file).errors),
        item matches SourceItem::Function(fi) ==> match fn_instruction(fi, file) {
            Some(ix) => item_facts(f, item, file).instructions == f.instructions.push(ix),
            None => true,
        },
        item matches SourceItem::Enum(e) ==> item_facts(f, item, file).errors == enum_facts(f, e).errors,
{
    let r = item_facts(f, item, file);
    match item {
        SourceItem::Function(fi) => {
            assert(f.errors.subrange(0, f.errors.len() as int) =~= f.errors);
            match fn_instruction(fi, file) {
                Some(ix) => {
                    assert forall|j: int| 0 <= j < f.instructions.len() implies same_but_accounts(
                        #[trigger] f.instructions[j],
                        r.instructions[j],
                    ) by {
                        assert(r.instructions[j] == f.instructions[j]);
                    }
                },
                None => {},
            }
        },
        SourceItem::Struct(st) => {
            assert(f.errors.subrange(0, f.errors.len() as int) =~= f.errors);
            assert forall|j: int| 0 <= j < f.instructions.len() implies same_but_accounts(
                #[trigger] f.instructions[j],
                r.instructions[j],
            ) by {
                if crate::rust_parser::is_accounts_struct(st.attrs@) {
                    let accs = crate::rust_parser::struct_fields(st).map_values(
                        |fi: crate::syntax::FieldItem| crate::rust_parser::account_of(fi),
                    );
                    assert(r.instructions[j] == crate::rust_parser::link_accounts(f.instructions[j], st.name@, accs));
                }
            }
        },
        SourceItem::Enum(e) => {
            assert(r.errors.subrange(0, f.errors.len() as int) =~= f.errors);
        },
        SourceItem::Macro(m) => {
            assert(f.errors.subrange(0, f.errors.len() as int) =~= f.errors);
        },
    }
}

proof fn lemma_items_facts(f: SpecFacts, items: Seq<SourceItem>, file: Seq<char>)
    ensures
        instructions_kept(f.instructions, items_facts(f, items, file).instructions),
        errors_kept(f.errors, items_facts(f, items, file).errors),
    decreases items.len(),
{
    let r = items_facts(f, items, file);
    if items.len() == 0 {
        assert(f.errors.subrange(0, f.errors.len() as int) =~= f.errors);
    } else {
        let prev = items_facts(f, items.drop_last(), file);
        lemma_items_facts(f, items.drop_last(), file);
        lemma_item_facts(prev, items.last(), file);
        assert forall|j: int| 0 <= j < f.instructions.len() implies same_but_accounts(
            #[trigger] f.instructions[j],
            r.instructions[j],
        ) by {
            assert(same_but_accounts(prev.instructions[j], r.instructions[j]));
        }
        assert(r.errors.subrange(0, f.errors.len() as int) =~= r.errors.subrange(0, prev.errors.len() as int).subrange(
            0,
            f.errors.len() as int,
        ));
    }
}

/// Walking a file's items keeps every instruction found before in its place, changing at
/// most its accounts, and records each function of the file that yields an instruction (a
/// handler taking a `Context`, or a helper with logic): it is among the instructions
/// afterwards, changed at most in the accounts that a later accounts struct links to it.
pub proof fn law_file_instructions_recorded(f: SpecFacts, items: Seq<SourceItem>, file: Seq<char>, k: int)
    requires
        0 <= k < items.len(),
    ensures
        instructions_kept(f.instructions, items_facts(f, items, file).instructions),
        items[k] matches SourceItem::Function(fi) ==> match fn_instruction(fi, file) {
            Some(ix) => exists|j: int|
                0 <= j < items_facts(f, items, file).instructions.len() && same_but_accounts(
                    ix,
                    #[trigger] items_facts(f, items, file).instructions[j],
                ),
            None => true,
        },
    decreases items.len(),
{
    lemma_items_facts(f, items, file);
    let prev = items_facts(f, items.drop_last(), file);
    let r = items_facts(f, items, file);
    lemma_item_facts(prev, items.last(), file);
    if k < items.len() - 1 {
        law_file_instructions_recorded(f, items.drop_last(), file, k);
        assert(items.drop_last()[k] == items[k]);
        match items[k] {
            SourceItem::Function(fi) => match fn_instruction(fi, file) {
                Some(ix) => {
                    let j = choose|j: int| 0 <= j < prev.instructions.len() && same_but_accounts(ix, #[trigger] prev.instructions[j]);
                    assert(same_but_accounts(prev.instructions[j], r.instructions[j]));
                },
                None => {},
            },
            _ => {},
        }
    } else {
        match items[k] {
            SourceItem::Function(fi) => match fn_instruction(fi, file) {
                Some(ix) => {
                    let j = prev.instructions.len() as int;
                    assert(r.instructions[j] == ix);
                },
                None => {},
            },
            _ => {},
        }
    }
}

/// Every variant of an `#[error_code]` enum of a file is indexed among the errors, in
/// declaration order and one after another, with its message; the errors found before the
/// file stay first.
pub proof fn law_file_errors_indexed(f: SpecFacts, items: Seq<SourceItem>, file: Seq<char>, k: int)
    requires
        0 <= k < items.len(),
    ensures
        errors_kept(f.errors, items_facts(f, items, file).errors),
        items[k] matches SourceItem::Enum(e) ==> (is_error_enum(e) ==> exists|o: int|
            errors_listed_at(items_facts(f, items, file).errors, o, variant_errors(e))),
    decreases items.len(),
{
    lemma_items_facts(f, items, file);
    let prev = items_facts(f, items.drop_last(), file);
    let r = items_facts(f, items, file);
    lemma_item_facts(prev, items.last(), file);
    match items[k] {
        SourceItem::Enum(e) => {
            if is_error_enum(e) {
                let es = variant_errors(e);
                if k < items.len() - 1 {
                    law_file_errors_indexed(f, items.drop_last(), file, k);
                    assert(items.drop_last()[k] == items[k]);
                    let o = choose|o: int| errors_listed_at(prev.errors, o, es);
                    assert(r.errors.subrange(o, o + es.len()) =~= r.errors.subrange(0, prev.errors.len() as int).subrange(
                        o,
                        o + es.len(),
                    ));
                    assert(errors_listed_at(r.errors, o, es));
                } else {
                    let o = prev.errors.len() as int;
                    assert(r.errors == enum_facts(prev, e).errors);
                    assert(r.errors == prev.errors + es);
                    assert(r.errors.subrange(o, o + es.len()) =~= es);
                    assert(errors_listed_at(r.errors, o, es));
                }
            }
        },
        _ => {},
    }
}

} // verus!
