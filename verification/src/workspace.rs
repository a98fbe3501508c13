//! The programs that an `Anchor.toml` lists as workspace members.
use vstd::prelude::*;

use crate::seqs::push_dv;
use crate::text::{copy_opt, split, str_eq, str_split};

verus! {

/// What `toml::from_str::<toml::Value>` makes of `content`, read as the strings of the array
/// at `table.key`: `None` when `content` is no TOML document, `Some(None)` when there is no
/// such array, and otherwise one entry per element, the string or `None` for a non-string.
pub uninterp spec fn toml_string_array_of(content: Seq<char>, table: Seq<char>, key: Seq<char>) -> Option<
    Option<Seq<Option<Seq<char>>>>,
>;

/// Parses `content` with `toml::from_str` into a `toml::Value` and reads the array at
/// `table.key` with `Value::get`, `Value::as_array` and `Value::as_str`.
///
/// The contract only names the result: TOML parsing takes pages to state, and it depends on
/// the three arguments alone.
#[verifier::external_body]
pub(crate) fn toml_string_array(content: &str, table: &str, key: &str) -> (r: Option<Option<Vec<Option<String>>>>)
    ensures
        r.deep_view() == toml_string_array_of(content@, table@, key@),
{
    match toml::from_str::<toml::Value>(content) {
        Ok(doc) => Some(doc.get(table).and_then(|t| t.get(key)).and_then(|m| m.as_array()).map(
            |a| a.iter().map(|v| v.as_str().map(|s| s.to_string())).collect(),
        )),
        Err(_) => None,
    }
}

/// The last part of `parts` that is neither empty nor `.`.
pub open spec fn last_normal(parts: Seq<Seq<char>>) -> Option<Seq<char>>
    decreases parts.len(),
{
    if parts.len() == 0 {
        None
    } else if parts.last() != ""@ && parts.last() != "."@ {
        Some(parts.last())
    } else {
        last_normal(parts.drop_last())
    }
}

/// The program name of a member path: its last `/`-separated part, skipping empty and `.`
/// parts, as a path's file name is; `None` when there is no such part or it is `..`.
pub open spec fn member_name(m: Seq<char>) -> Option<Seq<char>> {
    match last_normal(split(m, "/"@)) {
        Some(p) => if p == ".."@ {
            None
        } else {
            Some(p)
        },
        None => None,
    }
}

/// The (name, member) pairs of the string members, in order.
pub open spec fn member_entries(members: Seq<Option<Seq<char>>>) -> Seq<(Option<Seq<char>>, Seq<char>)>
    decreases members.len(),
{
    if members.len() == 0 {
        seq![]
    } else {
        match members.last() {
            Some(m) => member_entries(members.drop_last()).push((member_name(m), m)),
            None => member_entries(members.drop_last()),
        }
    }
}

/// The candidates of a parsed `workspace.members` read: none when the document did not
/// parse, no pairs when there is no members array.
pub open spec fn candidates_of(read: Option<Option<Seq<Option<Seq<char>>>>>) -> Option<Seq<(Option<Seq<char>>, Seq<char>)>> {
    match read {
        None => None,
        Some(None) => Some(seq![]),
        Some(Some(members)) => Some(member_entries(members)),
    }
}

/// The program name of a member path (see [`member_name`]).
pub fn program_name(m: &str) -> (r: Option<String>)
    ensures
        r.deep_view() == member_name(m@),
{
    proof {
        reveal_strlit("/");
    }
    let parts = str_split(m, "/");
    let ghost ps = parts.deep_view();
    let mut i: usize = parts.len();
    assert(ps.subrange(0, i as int) =~= ps);
    while i > 0
        invariant
            i <= ps.len(),
            ps == parts.deep_view(),
            ps == split(m@, "/"@),
            last_normal(ps) == last_normal(ps.subrange(0, i as int)),
        decreases i,
    {
        let p = &parts[i - 1];
        proof {
            let s = ps.subrange(0, i as int);
            assert(s.drop_last() =~= ps.subrange(0, i - 1));
            assert(s.last() == p@);
        }
        if !str_eq(p.as_str(), "") && !str_eq(p.as_str(), ".") {
            assert(last_normal(ps) == Some(p@));
            if str_eq(p.as_str(), "..") {
                return None;
            }
            let name = p.clone();
            assert(name@ == p@);
            return Some(name);
        }
        i = i - 1;
    }
    None
}

/// The members that the `[workspace]` table of an `Anchor.toml` lists, each with its
/// program name (see [`member_name`]): `None` exactly when `content` is no TOML document;
/// no pairs when there is no `workspace.members` array; non-string members are skipped.
pub fn member_candidates(content: &str) -> (r: Option<Vec<(Option<String>, String)>>)
    ensures
        r.deep_view() == candidates_of(toml_string_array_of(content@, "workspace"@, "members"@)),
{
    let read = toml_string_array(content, "workspace", "members");
    match read {
        None => None,
        Some(None) => {
            let out: Vec<(Option<String>, String)> = Vec::new();
            assert(out.deep_view() =~= Seq::<(Option<Seq<char>>, Seq<char>)>::empty());
            Some(out)
        },
        Some(Some(members)) => {
            let ghost ms = members.deep_view();
            let mut out: Vec<(Option<String>, String)> = Vec::new();
            let mut i: usize = 0;
            while i < members.len()
                invariant
                    i <= ms.len(),
                    ms == members.deep_view(),
                    out.deep_view() == member_entries(ms.subrange(0, i as int)),
                decreases members.len() - i,
            {
                proof {
                    let s = ms.subrange(0, i + 1);
                    assert(s.drop_last() =~= ms.subrange(0, i as int));
                    assert(s.last() == members@[i as int].deep_view());
                }
                match &members[i] {
                    Some(m) => {
                        let name = program_name(m.as_str());
                        push_dv(&mut out, (name, m.clone()));
                    },
                    None => {},
                }
                i = i + 1;
            }
            assert(ms.subrange(0, i as int) =~= ms);
            Some(out)
        },
    }
}

} // verus!
