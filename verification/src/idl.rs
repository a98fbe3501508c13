//! The instruction list of an Anchor IDL, as far as the extraction reads it.
use vstd::prelude::*;

use crate::seqs::push_dv;
use crate::std_text::{char_to_uppercase, unicode_uppercase};
use crate::text::{chars_of, concat2, copy_opt, owned, slice_to_vec};
use crate::types::{ScopeInstruction, SpecScopeInstruction};

verus! {

/// An entry of the IDL's `instructions` array; `name` is its `name` when that is a string.
#[derive(Debug, Clone, PartialEq)]
pub struct IdlInstruction {
    pub name: Option<String>,
}

/// An IDL document; `instructions` is its `instructions` member when that is an array.
#[derive(Debug, Clone, PartialEq)]
pub struct IdlDocument {
    pub instructions: Option<Vec<IdlInstruction>>,
}

/// The names of the IDL's instruction entries, in order (`None` for an entry without one).
pub open spec fn idl_names(idl: IdlDocument) -> Seq<Option<Seq<char>>> {
    match idl.instructions {
        Some(v) => v@.map_values(|e: IdlInstruction| e.name.deep_view()),
        None => seq![],
    }
}

/// `name` with its first character upper-cased.
pub open spec fn capitalized(name: Seq<char>) -> Seq<char> {
    if name.len() == 0 {
        seq![]
    } else {
        unicode_uppercase(name[0]) + name.subrange(1, name.len() as int)
    }
}

/// The scope entries of the named IDL instructions, from `names`.
pub open spec fn scope_entries(names: Seq<Option<Seq<char>>>) -> Seq<SpecScopeInstruction>
    decreases names.len(),
{
    if names.len() == 0 {
        seq![]
    } else {
        let prev = scope_entries(names.drop_last());
        match names.last() {
            Some(n) => prev.push(SpecScopeInstruction { ix: n, context: capitalized(n) }),
            None => prev,
        }
    }
}

/// Upper-cases the first character of `name`.
pub fn capitalize(name: &str) -> (r: String)
    ensures
        r@ == capitalized(name@),
{
    let cs = chars_of(name);
    if cs.len() == 0 {
        proof {
            reveal_strlit("");
        }
        assert(""@ =~= Seq::<char>::empty());
        return owned("");
    }
    let first = char_to_uppercase(cs[0]);
    let rest = slice_to_vec(&cs, 1, cs.len());
    let rest_s = crate::std_text::string_from_chars(&rest);
    concat2(first.as_str(), rest_s.as_str())
}

/// The scope entries of the IDL: each named instruction with its name capitalised as context.
pub fn extract_instructions_from_idl(idl: &IdlDocument) -> (r: Vec<ScopeInstruction>)
    ensures
        r.deep_view() == scope_entries(idl_names(*idl)),
{
    let mut instrs: Vec<ScopeInstruction> = Vec::new();
    match &idl.instructions {
        Some(entries) => {
            let ghost names = idl_names(*idl);
            let mut i: usize = 0;
            while i < entries.len()
                invariant
                    i <= entries@.len(),
                    names == entries@.map_values(|e: IdlInstruction| e.name.deep_view()),
                    instrs.deep_view() == scope_entries(names.subrange(0, i as int)),
                decreases entries.len() - i,
            {
                proof {
                    let s = names.subrange(0, i + 1);
                    assert(s.drop_last() =~= names.subrange(0, i as int));
                    assert(s.last() == entries@[i as int].name.deep_view());
                }
                match &entries[i].name {
                    Some(name) => {
                        let context = capitalize(name.as_str());
                        push_dv(&mut instrs, ScopeInstruction { ix: name.clone(), context });
                    },
                    None => {},
                }
                i = i + 1;
            }
            assert(names.subrange(0, i as int) =~= names);
        },
        None => {
            assert(instrs.deep_view() =~= seq![]);
        },
    }
    instrs
}


/// What `serde_json::from_str::<serde_json::Value>` makes of `content`, read as the `field`
/// strings of the elements of the array at `array_key`: `None` when `content` is no JSON
/// document, `Some(None)` when there is no such array, and otherwise one entry per element,
/// its `field` string or `None` when it has none.
pub uninterp spec fn json_array_field_strings_of(content: Seq<char>, array_key: Seq<char>, field: Seq<char>) -> Option<
    Option<Seq<Option<Seq<char>>>>,
>;

/// Parses `content` with `serde_json::from_str` into a `serde_json::Value` and reads the
/// array at `array_key` and each element's `field` with `Value::get`, `Value::as_array` and
/// `Value::as_str`.
///
/// The contract only names the result: JSON parsing takes pages to state, and it depends on
/// the three arguments alone.
#[verifier::external_body]
pub(crate) fn json_array_field_strings(content: &str, array_key: &str, field: &str) -> (r: Option<Option<Vec<Option<String>>>>)
    ensures
        r.deep_view() == json_array_field_strings_of(content@, array_key@, field@),
{
    match serde_json::from_str::<serde_json::Value>(content) {
        Ok(doc) => Some(doc.get(array_key).and_then(|v| v.as_array()).map(
            |a| a.iter().map(|e| e.get(field).and_then(|n| n.as_str()).map(|n| n.to_string())).collect(),
        )),
        Err(_) => None,
    }
}

/// Reads an IDL's text: `None` exactly when it is no JSON document; otherwise its
/// `instructions` array, when it has one, with the `name` string of each entry.
pub fn parse_idl(content: &str) -> (r: Option<IdlDocument>)
    ensures
        match json_array_field_strings_of(content@, "instructions"@, "name"@) {
            None => r is None,
            Some(read) => r matches Some(d) && (d.instructions is Some) == (read is Some) && idl_names(d) == match read {
                Some(names) => names,
                None => seq![],
            },
        },
{
    match json_array_field_strings(content, "instructions", "name") {
        None => None,
        Some(None) => Some(IdlDocument { instructions: None }),
        Some(Some(names)) => {
            let ghost ns = names.deep_view();
            let mut entries: Vec<IdlInstruction> = Vec::new();
            let mut i: usize = 0;
            while i < names.len()
                invariant
                    i <= ns.len(),
                    ns == names.deep_view(),
                    entries@.len() == i,
                    forall|k: int| 0 <= k < i ==> (#[trigger] entries@[k]).name.deep_view() == ns[k],
                decreases names.len() - i,
            {
                let name = copy_opt(&names[i]);
                entries.push(IdlInstruction { name });
                i = i + 1;
            }
            let d = IdlDocument { instructions: Some(entries) };
            assert(idl_names(d) =~= ns);
            Some(d)
        },
    }
}

} // verus!
